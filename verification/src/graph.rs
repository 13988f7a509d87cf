//! Entry ids and the semantic link graph between entries.

use vstd::prelude::*;
use crate::layout::{json_str, json_str_spec};
use crate::search::comma_join;
use crate::strs::{decimal, push_char, push_decimal, push_str};
use crate::layout::{compact, compact_spec, esc, esc_spec};
use crate::english_index::{copy_string, seq_lt, str_lt};
use crate::categories::{first_n, strs_view};
use crate::coverage::{tally_spec, tally_view};
use crate::pages::{site_page, site_page_spec};
use crate::site_meta::{count_by, SiteEntryMeta};
use crate::strs::string_from;

verus! {

/// Entry ids handed out in the deterministic export order: `1, 2, 3, …`.
/// Identical inputs produce identical ids.
pub struct DeterministicEntryIds {
    high_water: usize,
}

impl View for DeterministicEntryIds {
    /// The last id handed out (0 before the first).
    type V = nat;

    closed spec fn view(&self) -> nat {
        self.high_water as nat
    }
}

impl Default for DeterministicEntryIds {
    fn default() -> (r: Self)
        ensures
            r@ == 0,
    {
        DeterministicEntryIds { high_water: 0 }
    }
}

impl DeterministicEntryIds {
    /// A fresh allocator.
    pub fn new() -> (r: Self)
        ensures
            r@ == 0,
    {
        DeterministicEntryIds { high_water: 0 }
    }

    /// The next id: one more than the last.
    pub fn alloc_id(&mut self) -> (id: usize)
        requires
            old(self)@ < usize::MAX,
        ensures
            id == old(self)@ + 1,
            final(self)@ == id,
    {
        self.high_water = self.high_water + 1;
        self.high_water
    }

    /// The last id handed out.
    pub fn max_id(&self) -> (r: usize)
        ensures
            r == self@,
    {
        self.high_water
    }
}

/// A link from one entry page to another.
pub struct LinkEdge {
    pub source_id: usize,
    pub source_title: String,
    pub target_id: usize,
    pub target_title: String,
    pub kind: String,
}

/// One edge as a JSON array: `[source,target,"kind","title"]`.
pub open spec fn edge_json(e: LinkEdge) -> Seq<char> {
    seq!['['] + decimal(e.source_id as nat) + seq![','] + decimal(e.target_id as nat) + seq![',']
        + json_str_spec(e.kind@) + seq![','] + json_str_spec(e.target_title@) + seq![']']
}

/// The edges joined with `,` and a newline.
pub open spec fn edges_json_body(edges: Seq<LinkEdge>) -> Seq<char>
    decreases edges.len(),
{
    if edges.len() == 0 {
        Seq::empty()
    } else if edges.len() == 1 {
        edge_json(edges[0])
    } else {
        edges_json_body(edges.drop_last()) + seq![',', '\n'] + edge_json(edges.last())
    }
}

/// The most edges the graph file carries.
pub open spec fn graph_cap() -> int {
    50000
}

/// The graph file: the first fifty thousand edges, one per line.
pub open spec fn graph_json_spec(edges: Seq<LinkEdge>) -> Seq<char> {
    let shown = if edges.len() <= graph_cap() { edges } else { edges.take(graph_cap()) };
    seq!['[', '\n'] + edges_json_body(shown) + seq!['\n', ']', '\n']
}

/// The semantic graph as JSON (`edges.json`): at most fifty thousand edges,
/// each `[source,target,"kind","target title"]`.
pub fn graph_json(edges: &Vec<LinkEdge>) -> (r: String)
    ensures
        r@ == graph_json_spec(edges@),
{
    let n: usize = if edges.len() <= 50000 { edges.len() } else { 50000 };
    let ghost shown = if edges@.len() <= graph_cap() { edges@ } else { edges@.take(graph_cap()) };
    assert(shown =~= edges@.take(n as int));
    let mut s = String::new();
    push_char(&mut s, '[');
    push_char(&mut s, '\n');
    let ghost p0 = s@;
    let mut i: usize = 0;
    assert(edges@.take(0) =~= Seq::<LinkEdge>::empty());
    while i < n
        invariant
            i <= n <= edges@.len(),
            s@ == p0 + edges_json_body(edges@.take(i as int)),
        decreases n - i,
    {
        let e = &edges[i];
        if i > 0 {
            push_char(&mut s, ',');
            push_char(&mut s, '\n');
        }
        push_char(&mut s, '[');
        push_decimal(&mut s, e.source_id);
        push_char(&mut s, ',');
        push_decimal(&mut s, e.target_id);
        push_char(&mut s, ',');
        push_str(&mut s, json_str(e.kind.as_str()).as_str());
        push_char(&mut s, ',');
        push_str(&mut s, json_str(e.target_title.as_str()).as_str());
        push_char(&mut s, ']');
        assert(edges@.take(i + 1).drop_last() =~= edges@.take(i as int));
        assert(s@ =~= p0 + edges_json_body(edges@.take(i + 1)));
        i += 1;
    }
    push_char(&mut s, '\n');
    push_char(&mut s, ']');
    push_char(&mut s, '\n');
    assert(s@ =~= graph_json_spec(edges@));
    s
}


/// A copy of an edge.
fn copy_edge(e: &LinkEdge) -> (r: LinkEdge)
    ensures
        r == *e,
{
    LinkEdge {
        source_id: e.source_id,
        source_title: e.source_title.clone(),
        target_id: e.target_id,
        target_title: e.target_title.clone(),
        kind: e.kind.clone(),
    }
}

/// The edges into `target`, in order.
pub open spec fn edges_into(edges: Seq<LinkEdge>, target: usize) -> Seq<LinkEdge>
    decreases edges.len(),
{
    if edges.len() == 0 {
        Seq::empty()
    } else if edges.last().target_id == target {
        edges_into(edges.drop_last(), target).push(edges.last())
    } else {
        edges_into(edges.drop_last(), target)
    }
}

/// Whether some edge points at `target`.
pub open spec fn is_target(edges: Seq<LinkEdge>, target: usize) -> bool {
    exists|i: int| 0 <= i < edges.len() && (#[trigger] edges[i]).target_id == target
}

/// The incoming edges of every linked page, by page id: ids ascending, each
/// page's edges in the order given.
pub fn backlinks_by_target(edges: &Vec<LinkEdge>) -> (r: Vec<(usize, Vec<LinkEdge>)>)
    ensures
        forall|g: int, h: int| 0 <= g < h < r@.len() ==> (#[trigger] r@[g]).0 < (#[trigger] r@[h]).0,
        forall|t: usize| is_target(edges@, t) <==> exists|g: int| 0 <= g < r@.len() && (#[trigger] r@[g]).0 == t,
        forall|g: int| 0 <= g < r@.len() ==> (#[trigger] r@[g]).1@ == edges_into(edges@, r@[g].0),
{
    // The distinct targets, ascending.
    let mut targets: Vec<usize> = Vec::new();
    let mut i: usize = 0;
    while i < edges.len()
        invariant
            i <= edges@.len(),
            forall|a: int, b: int| 0 <= a < b < targets@.len() ==> targets@[a] < targets@[b],
            forall|t: usize| targets@.contains(t) <==> exists|k: int| 0 <= k < i && (#[trigger] edges@[k]).target_id == t,
        decreases edges@.len() - i,
    {
        let t = edges[i].target_id;
        let mut p: usize = 0;
        while p < targets.len() && targets[p] < t
            invariant
                p <= targets@.len(),
                forall|q: int| 0 <= q < p ==> targets@[q] < t,
            decreases targets@.len() - p,
        {
            p += 1;
        }
        let ghost t0 = targets@;
        if p < targets.len() && targets[p] == t {
            assert forall|u: usize| targets@.contains(u) <==> exists|k: int| 0 <= k < i + 1 && (#[trigger] edges@[k]).target_id == u by {
                if u == t {
                    assert(targets@[p as int] == t);
                    assert(edges@[i as int].target_id == t);
                }
                if exists|k: int| 0 <= k < i + 1 && (#[trigger] edges@[k]).target_id == u {
                    let k = choose|k: int| 0 <= k < i + 1 && (#[trigger] edges@[k]).target_id == u;
                    if k < i {
                        assert(exists|k2: int| 0 <= k2 < i && (#[trigger] edges@[k2]).target_id == u);
                    }
                }
            }
        } else {
            targets.insert(p, t);
            assert(targets@ =~= t0.take(p as int) + seq![t] + t0.skip(p as int));
            assert forall|a: int, b: int| 0 <= a < b < targets@.len() implies targets@[a] < targets@[b] by {
                if b < p {
                    assert(targets@[a] == t0[a] && targets@[b] == t0[b]);
                } else if b == p {
                    assert(targets@[a] == t0[a]);
                } else if a < p {
                    assert(targets@[a] == t0[a] && targets@[b] == t0[b - 1]);
                    assert(t0[a] < t);
                    if p < t0.len() {
                        assert(t0[p as int] > t);
                        if b - 1 > p {
                            assert(t0[p as int] < t0[b - 1]);
                        }
                    }
                } else if a == p {
                    assert(targets@[b] == t0[b - 1]);
                    assert(t0[p as int] > t);
                    if b - 1 > p {
                        assert(t0[p as int] < t0[b - 1]);
                    }
                } else {
                    assert(targets@[a] == t0[a - 1] && targets@[b] == t0[b - 1]);
                }
            }
            assert forall|u: usize| targets@.contains(u) <==> exists|k: int| 0 <= k < i + 1 && (#[trigger] edges@[k]).target_id == u by {
                if targets@.contains(u) {
                    let w = choose|w: int| 0 <= w < targets@.len() && targets@[w] == u;
                    if w < p {
                        assert(t0[w] == u);
                        assert(t0.contains(u));
                    } else if w > p {
                        assert(t0[w - 1] == u);
                        assert(t0.contains(u));
                    } else {
                        assert(edges@[i as int].target_id == u);
                    }
                }
                if exists|k: int| 0 <= k < i + 1 && (#[trigger] edges@[k]).target_id == u {
                    let k = choose|k: int| 0 <= k < i + 1 && (#[trigger] edges@[k]).target_id == u;
                    if k < i {
                        assert(exists|k2: int| 0 <= k2 < i && (#[trigger] edges@[k2]).target_id == u);
                        assert(t0.contains(u));
                        let w = choose|w: int| 0 <= w < t0.len() && t0[w] == u;
                        if w < p {
                            assert(targets@[w] == u);
                        } else {
                            assert(targets@[w + 1] == u);
                        }
                    } else {
                        assert(targets@[p as int] == u);
                    }
                }
            }
        }
        i += 1;
    }
    let mut out: Vec<(usize, Vec<LinkEdge>)> = Vec::new();
    let mut g: usize = 0;
    while g < targets.len()
        invariant
            g <= targets@.len(),
            out@.len() == g,
            forall|a: int, b: int| 0 <= a < b < targets@.len() ==> targets@[a] < targets@[b],
            forall|t: usize| targets@.contains(t) <==> is_target(edges@, t),
            forall|k: int| 0 <= k < g ==> (#[trigger] out@[k]).0 == targets@[k],
            forall|k: int| 0 <= k < g ==> (#[trigger] out@[k]).1@ == edges_into(edges@, out@[k].0),
        decreases targets@.len() - g,
    {
        let t = targets[g];
        let mut group: Vec<LinkEdge> = Vec::new();
        let mut j: usize = 0;
        while j < edges.len()
            invariant
                j <= edges@.len(),
                group@ == edges_into(edges@.take(j as int), t),
            decreases edges@.len() - j,
        {
            assert(edges@.take(j + 1).drop_last() =~= edges@.take(j as int));
            if edges[j].target_id == t {
                group.push(copy_edge(&edges[j]));
            }
            j += 1;
        }
        assert(edges@.take(j as int) =~= edges@);
        let ghost o0 = out@;
        out.push((t, group));
        assert forall|k: int| 0 <= k < g + 1 implies (#[trigger] out@[k]).1@ == edges_into(edges@, out@[k].0) by {
            if k < g {
                assert(out@[k] == o0[k]);
            }
        }
        g += 1;
    }
    assert forall|t: usize| is_target(edges@, t) <==> exists|k: int| 0 <= k < out@.len() && (#[trigger] out@[k]).0 == t by {
        if is_target(edges@, t) {
            assert(targets@.contains(t));
            let w = choose|w: int| 0 <= w < targets@.len() && targets@[w] == t;
            assert(out@[w].0 == t);
        }
        if exists|k: int| 0 <= k < out@.len() && (#[trigger] out@[k]).0 == t {
            let k = choose|k: int| 0 <= k < out@.len() && (#[trigger] out@[k]).0 == t;
            assert(targets@[k] == t);
            assert(targets@.contains(t));
        }
    }
    out
}


/// Whether a count row is listed before another: larger count first, then
/// by name.
pub open spec fn count_before(a: (Seq<char>, usize), b: (Seq<char>, usize)) -> bool {
    a.1 > b.1 || (a.1 == b.1 && seq_lt(a.0, b.0))
}

/// `s` with `x` inserted before the first row it is listed before.
pub open spec fn insert_count(s: Seq<(Seq<char>, usize)>, x: (Seq<char>, usize)) -> Seq<(Seq<char>, usize)>
    decreases s.len(),
{
    if s.len() == 0 {
        seq![x]
    } else if count_before(x, s[0]) {
        seq![x] + s
    } else {
        seq![s[0]] + insert_count(s.skip(1), x)
    }
}

/// The count rows in listing order.
pub open spec fn sort_counts(v: Seq<(Seq<char>, usize)>) -> Seq<(Seq<char>, usize)>
    decreases v.len(),
{
    if v.len() == 0 {
        Seq::empty()
    } else {
        insert_count(sort_counts(v.drop_last()), v.last())
    }
}

proof fn lemma_insert_count_at(s: Seq<(Seq<char>, usize)>, x: (Seq<char>, usize), p: int)
    requires
        0 <= p <= s.len(),
        forall|q: int| 0 <= q < p ==> !count_before(x, #[trigger] s[q]),
        p < s.len() ==> count_before(x, s[p]),
    ensures
        insert_count(s, x) == s.take(p) + seq![x] + s.skip(p),
    decreases p,
{
    if p == 0 {
        if s.len() == 0 {
            assert(s.take(0) + seq![x] + s.skip(0) =~= seq![x]);
        } else {
            assert(s.take(0) + seq![x] + s.skip(0) =~= seq![x] + s);
        }
    } else {
        let t = s.skip(1);
        assert forall|q: int| 0 <= q < p - 1 implies !count_before(x, #[trigger] t[q]) by {
            assert(t[q] == s[q + 1]);
        }
        if p - 1 < t.len() {
            assert(t[p - 1] == s[p]);
        }
        lemma_insert_count_at(t, x, p - 1);
        assert(seq![s[0]] + (t.take(p - 1) + seq![x] + t.skip(p - 1)) =~= s.take(p) + seq![x] + s.skip(p));
    }
}

/// Counts over plain values.
pub open spec fn counts_view(v: Seq<(String, usize)>) -> Seq<(Seq<char>, usize)> {
    v.map_values(|c: (String, usize)| (c.0@, c.1))
}

/// The first `n` rows of a count table.
pub open spec fn count_rows(s: Seq<(Seq<char>, usize)>, n: int) -> Seq<char>
    decreases n,
{
    if n <= 0 {
        Seq::empty()
    } else {
        count_rows(s, n - 1) + "<tr><th>"@ + esc_spec(s[n - 1].0) + "</th><td>"@ + compact_spec(s[n - 1].1 as nat)
            + "</td></tr>"@
    }
}

/// A statistics box: the 24 largest counts, ties by name.
pub open spec fn counts_table_spec(title: Seq<char>, counts: Seq<(Seq<char>, usize)>) -> Seq<char> {
    let s = sort_counts(counts);
    let n = if s.len() < 24 { s.len() as int } else { 24 };
    "<div class='stat-box'><h3>"@ + esc_spec(title) + "</h3><table class='wikitable compact-table'><tbody>"@
        + count_rows(s, n) + "</tbody></table></div>"@
}

/// A statistics box titled `title` listing the 24 largest counts (ties by
/// name) of a name → count table.
pub fn counts_table(title: &str, counts: &Vec<(String, usize)>) -> (r: String)
    ensures
        r@ == counts_table_spec(title@, counts_view(counts@)),
{
    let ghost cv = counts_view(counts@);
    // Insertion into the listing order, one row at a time.
    let mut sorted: Vec<usize> = Vec::new();
    let mut i: usize = 0;
    assert(cv.take(0) =~= Seq::<(Seq<char>, usize)>::empty());
    while i < counts.len()
        invariant
            i <= counts@.len(),
            cv == counts_view(counts@),
            forall|k: int| 0 <= k < sorted@.len() ==> #[trigger] sorted@[k] < counts@.len(),
            sorted@.map_values(|k: usize| cv[k as int]) == sort_counts(cv.take(i as int)),
        decreases counts@.len() - i,
    {
        let ghost s0 = sorted@.map_values(|k: usize| cv[k as int]);
        let x = &counts[i];
        let mut p: usize = 0;
        let mut found = false;
        while p < sorted.len() && !found
            invariant
                p <= sorted@.len(),
                i < counts@.len(),
                *x == counts@[i as int],
                cv == counts_view(counts@),
                s0 == sorted@.map_values(|k: usize| cv[k as int]),
                forall|k: int| 0 <= k < sorted@.len() ==> #[trigger] sorted@[k] < counts@.len(),
                forall|q: int| 0 <= q < p ==> !count_before(cv[i as int], #[trigger] s0[q]),
                found ==> p < sorted@.len() && count_before(cv[i as int], s0[p as int]),
            decreases sorted@.len() - p + (if found { 0int } else { 1int }),
        {
            let c = &counts[sorted[p]];
            assert(s0[p as int] == cv[sorted@[p as int] as int]);
            assert(cv[i as int] == (counts@[i as int].0@, counts@[i as int].1));
            assert(cv[sorted@[p as int] as int] == (c.0@, c.1));
            let before = x.1 > c.1 || (x.1 == c.1 && str_lt(x.0.as_str(), c.0.as_str()));
            if before {
                found = true;
            } else {
                p += 1;
            }
        }
        proof {
            if p < sorted@.len() {
                assert(s0[p as int] == cv[sorted@[p as int] as int]);
            }
            lemma_insert_count_at(s0, cv[i as int], p as int);
            assert(cv.take(i + 1).drop_last() =~= cv.take(i as int));
            assert(cv.take(i + 1).last() == cv[i as int]);
        }
        let ghost before = sorted@;
        sorted.insert(p, i);
        assert(sorted@.map_values(|k: usize| cv[k as int]) =~= s0.take(p as int) + seq![cv[i as int]] + s0.skip(p as int));
        i += 1;
    }
    assert(cv.take(i as int) =~= cv);
    let ghost sv = sorted@.map_values(|k: usize| cv[k as int]);
    let n: usize = if sorted.len() < 24 { sorted.len() } else { 24 };
    let mut r = string_from_title(title);
    let ghost p0 = r@;
    let mut k: usize = 0;
    while k < n
        invariant
            k <= n <= sorted@.len(),
            cv == counts_view(counts@),
            sv == sorted@.map_values(|k: usize| cv[k as int]),
            forall|q: int| 0 <= q < sorted@.len() ==> #[trigger] sorted@[q] < counts@.len(),
            r@ == p0 + count_rows(sv, k as int),
        decreases n - k,
    {
        let c = &counts[sorted[k]];
        assert(sv[k as int] == cv[sorted@[k as int] as int]);
        push_str(&mut r, "<tr><th>");
        push_str(&mut r, esc(c.0.as_str()).as_str());
        push_str(&mut r, "</th><td>");
        push_str(&mut r, compact(c.1).as_str());
        push_str(&mut r, "</td></tr>");
        assert(r@ =~= p0 + count_rows(sv, k + 1));
        k += 1;
    }
    push_str(&mut r, "</tbody></table></div>");
    assert(r@ =~= counts_table_spec(title@, cv));
    r
}

/// The opening of a statistics box.
fn string_from_title(title: &str) -> (r: String)
    ensures
        r@ == "<div class='stat-box'><h3>"@ + esc_spec(title@) + "</h3><table class='wikitable compact-table'><tbody>"@,
{
    let mut r = crate::strs::string_from("<div class='stat-box'><h3>");
    push_str(&mut r, esc(title).as_str());
    push_str(&mut r, "</h3><table class='wikitable compact-table'><tbody>");
    r
}

/// The endpoints of the edges, source then target of each, in order.
pub open spec fn endpoints(edges: Seq<LinkEdge>) -> Seq<usize>
    decreases edges.len(),
{
    if edges.len() == 0 {
        Seq::empty()
    } else {
        endpoints(edges.drop_last()).push(edges.last().source_id).push(edges.last().target_id)
    }
}

/// How often `id` occurs among `ids`.
pub open spec fn id_count(ids: Seq<usize>, id: usize) -> nat
    decreases ids.len(),
{
    if ids.len() == 0 {
        0
    } else {
        id_count(ids.drop_last(), id) + if ids.last() == id { 1nat } else { 0nat }
    }
}

/// Whether a degree row is ranked before another: more links first, then
/// the smaller id.
pub open spec fn degree_before(a: (usize, usize), b: (usize, usize)) -> bool {
    a.1 > b.1 || (a.1 == b.1 && a.0 < b.0)
}

/// Whether `d` ranks the pages of `ids` by degree: every page that occurs,
/// once, with how often it occurs, best ranked first.
pub open spec fn degree_ranking(d: Seq<(usize, usize)>, ids: Seq<usize>) -> bool {
    &&& forall|a: int, b: int| 0 <= a < b < d.len() ==> degree_before(#[trigger] d[a], #[trigger] d[b])
    &&& forall|a: int| 0 <= a < d.len() ==> (#[trigger] d[a]).1 == id_count(ids, d[a].0) && d[a].1 > 0
    &&& forall|id: usize| id_count(ids, id) > 0 ==> exists|a: int| 0 <= a < d.len() && (#[trigger] d[a]).0 == id
}

proof fn lemma_id_count_push(ids: Seq<usize>, x: usize, id: usize)
    ensures
        id_count(ids.push(x), id) == id_count(ids, id) + if x == id { 1nat } else { 0nat },
{
    assert(ids.push(x).drop_last() =~= ids);
}

proof fn lemma_id_count_le(ids: Seq<usize>, id: usize)
    ensures
        id_count(ids, id) <= ids.len(),
    decreases ids.len(),
{
    if ids.len() > 0 {
        lemma_id_count_le(ids.drop_last(), id);
    }
}

/// Whether `t` lists each page of `ids` once, by ascending id, with how
/// often it occurs.
pub open spec fn id_tally(t: Seq<(usize, usize)>, ids: Seq<usize>) -> bool {
    &&& forall|a: int, b: int| 0 <= a < b < t.len() ==> (#[trigger] t[a]).0 < (#[trigger] t[b]).0
    &&& forall|a: int| 0 <= a < t.len() ==> (#[trigger] t[a]).1 == id_count(ids, t[a].0) && t[a].1 > 0
    &&& forall|id: usize| id_count(ids, id) > 0 ==> exists|a: int| 0 <= a < t.len() && (#[trigger] t[a]).0 == id
}

/// Counts one more occurrence of page `id`.
fn id_tally_add(t: &mut Vec<(usize, usize)>, id: usize, Ghost(ids): Ghost<Seq<usize>>)
    requires
        id_tally(old(t)@, ids),
        ids.len() < usize::MAX,
    ensures
        id_tally(final(t)@, ids.push(id)),
{
    let ghost t0 = t@;
    let ghost ids2 = ids.push(id);
    proof {
        lemma_id_count_le(ids, id);
        assert forall|x: usize| id_count(ids2, x) == id_count(ids, x) + if x == id { 1nat } else { 0nat } by {
            lemma_id_count_push(ids, id, x);
        }
    }
    let mut p: usize = 0;
    while p < t.len() && t[p].0 < id
        invariant
            p <= t@.len(),
            t@ == t0,
            forall|q: int| 0 <= q < p ==> (#[trigger] t0[q]).0 < id,
        decreases t@.len() - p,
    {
        p += 1;
    }
    if p < t.len() && t[p].0 == id {
        let n = t[p].1;
        t.set(p, (id, n + 1));
        assert forall|a: int| 0 <= a < t@.len() implies (#[trigger] t@[a]).1 == id_count(ids2, t@[a].0) && t@[a].1 > 0 by {
            if a != p {
                assert(t@[a] == t0[a]);
            }
        }
        assert forall|x: usize| id_count(ids2, x) > 0 implies exists|a: int| 0 <= a < t@.len() && (#[trigger] t@[a]).0 == x by {
            if x == id {
                assert(t@[p as int].0 == x);
            } else {
                let a = choose|a: int| 0 <= a < t0.len() && (#[trigger] t0[a]).0 == x;
                assert(t@[a].0 == x);
            }
        }
    } else {
        assert(id_count(ids, id) == 0) by {
            if id_count(ids, id) > 0 {
                let a = choose|a: int| 0 <= a < t0.len() && (#[trigger] t0[a]).0 == id;
                if a >= p {
                    assert(t0[p as int].0 <= t0[a].0);
                }
            }
        }
        t.insert(p, (id, 1));
        let ghost t1 = t@;
        assert(t1 =~= t0.take(p as int) + seq![(id, 1usize)] + t0.skip(p as int));
        assert forall|a: int, b: int| 0 <= a < b < t1.len() implies (#[trigger] t1[a]).0 < (#[trigger] t1[b]).0 by {
            if b < p {
                assert(t1[a] == t0[a] && t1[b] == t0[b]);
            } else if b == p {
                assert(t1[a] == t0[a]);
            } else if a < p {
                assert(t1[a] == t0[a] && t1[b] == t0[b - 1]);
            } else if a == p {
                assert(t1[b] == t0[b - 1]);
            } else {
                assert(t1[a] == t0[a - 1] && t1[b] == t0[b - 1]);
            }
        }
        assert forall|a: int| 0 <= a < t1.len() implies (#[trigger] t1[a]).1 == id_count(ids2, t1[a].0) && t1[a].1 > 0 by {
            if a < p {
                assert(t1[a] == t0[a]);
            } else if a > p {
                assert(t1[a] == t0[a - 1]);
            }
        }
        assert forall|x: usize| id_count(ids2, x) > 0 implies exists|a: int| 0 <= a < t1.len() && (#[trigger] t1[a]).0 == x by {
            if x == id {
                assert(t1[p as int].0 == x);
            } else {
                let a = choose|a: int| 0 <= a < t0.len() && (#[trigger] t0[a]).0 == x;
                if a < p {
                    assert(t1[a].0 == x);
                } else {
                    assert(t1[a + 1].0 == x);
                }
            }
        }
    }
}

/// Whether a list of degree rows is in ranking order.
pub open spec fn ranked(r: Seq<(usize, usize)>) -> bool {
    forall|a: int, b: int| 0 <= a < b < r.len() ==> degree_before(#[trigger] r[a], #[trigger] r[b])
}

/// Inserts a row for a new page where it ranks.
fn insert_ranked(r: &mut Vec<(usize, usize)>, x: (usize, usize))
    requires
        ranked(old(r)@),
        forall|q: int| 0 <= q < old(r)@.len() ==> (#[trigger] old(r)@[q]).0 != x.0,
    ensures
        ranked(final(r)@),
        final(r)@.contains(x),
        forall|a: int| 0 <= a < final(r)@.len() ==> (#[trigger] final(r)@[a]) == x || old(r)@.contains(final(r)@[a]),
        forall|y: (usize, usize)| old(r)@.contains(y) ==> final(r)@.contains(y),
{
    let ghost r0 = r@;
    let mut p: usize = 0;
    while p < r.len() && !degree_before_exec(x, r[p])
        invariant
            p <= r@.len(),
            r@ == r0,
            forall|q: int| 0 <= q < p ==> !degree_before(x, #[trigger] r0[q]),
        decreases r@.len() - p,
    {
        p += 1;
    }
    r.insert(p, x);
    let ghost r1 = r@;
    assert(r1 =~= r0.take(p as int) + seq![x] + r0.skip(p as int));
    assert forall|a: int, b: int| 0 <= a < b < r1.len() implies degree_before(#[trigger] r1[a], #[trigger] r1[b]) by {
        if b < p {
            assert(r1[a] == r0[a] && r1[b] == r0[b]);
        } else if b == p {
            assert(r1[a] == r0[a]);
            assert(r0[a].0 != x.0);
        } else if a < p {
            assert(r1[a] == r0[a] && r1[b] == r0[b - 1]);
        } else if a == p {
            assert(r1[b] == r0[b - 1]);
            if b - 1 > p {
                assert(degree_before(r0[p as int], r0[b - 1]));
            }
        } else {
            assert(r1[a] == r0[a - 1] && r1[b] == r0[b - 1]);
        }
    }
    assert(r1[p as int] == x);
    assert forall|a: int| 0 <= a < r1.len() implies (#[trigger] r1[a]) == x || r0.contains(r1[a]) by {
        if a < p {
            assert(r1[a] == r0[a]);
        } else if a > p {
            assert(r1[a] == r0[a - 1]);
        }
    }
    assert forall|y: (usize, usize)| r0.contains(y) implies r1.contains(y) by {
        let q = choose|q: int| 0 <= q < r0.len() && r0[q] == y;
        if q < p {
            assert(r1[q] == y);
        } else {
            assert(r1[q + 1] == y);
        }
    }
}

/// Ranks a tally of pages by degree: most links first, then by id.
fn rank_degrees(t: &Vec<(usize, usize)>, Ghost(ids): Ghost<Seq<usize>>) -> (r: Vec<(usize, usize)>)
    requires
        id_tally(t@, ids),
    ensures
        degree_ranking(r@, ids),
{
    let mut r: Vec<(usize, usize)> = Vec::new();
    let mut i: usize = 0;
    while i < t.len()
        invariant
            i <= t@.len(),
            id_tally(t@, ids),
            ranked(r@),
            forall|a: int| 0 <= a < r@.len() ==> t@.take(i as int).contains(#[trigger] r@[a]),
            forall|c: int| 0 <= c < i ==> r@.contains(#[trigger] t@[c]),
        decreases t@.len() - i,
    {
        let x = t[i];
        let ghost r0 = r@;
        assert forall|q: int| 0 <= q < r0.len() implies (#[trigger] r0[q]).0 != x.0 by {
            assert(t@.take(i as int).contains(r0[q]));
            let c = choose|c: int| 0 <= c < i && t@.take(i as int)[c] == r0[q];
            assert(t@[c].0 < t@[i as int].0);
        }
        insert_ranked(&mut r, x);
        assert forall|a: int| 0 <= a < r@.len() implies t@.take(i + 1).contains(#[trigger] r@[a]) by {
            assert(t@.take(i + 1)[i as int] == x);
            if r@[a] != x {
                let c = choose|c: int| 0 <= c < r0.len() && r0[c] == r@[a];
                assert(t@.take(i as int).contains(r0[c]));
                let d = choose|d: int| 0 <= d < i && t@.take(i as int)[d] == r0[c];
                assert(t@.take(i + 1)[d] == r0[c]);
            }
        }
        assert forall|c: int| 0 <= c < i + 1 implies r@.contains(#[trigger] t@[c]) by {
            if c < i {
                assert(r0.contains(t@[c]));
            }
        }
        i += 1;
    }
    assert(t@.take(i as int) =~= t@);
    assert forall|a: int| 0 <= a < r@.len() implies (#[trigger] r@[a]).1 == id_count(ids, r@[a].0) && r@[a].1 > 0 by {
        assert(t@.contains(r@[a]));
        let c = choose|c: int| 0 <= c < t@.len() && t@[c] == r@[a];
    }
    assert forall|id: usize| id_count(ids, id) > 0 implies exists|a: int| 0 <= a < r@.len() && (#[trigger] r@[a]).0 == id by {
        let c = choose|c: int| 0 <= c < t@.len() && (#[trigger] t@[c]).0 == id;
        assert(r@.contains(t@[c]));
        let a = choose|a: int| 0 <= a < r@.len() && r@[a] == t@[c];
        assert(r@[a].0 == id);
    }
    r
}

/// The pages linked by `edges`, ranked by how many links touch them (a
/// link to itself counts twice): most first, then by id.
pub fn degree_ranking_of(edges: &Vec<LinkEdge>) -> (r: Vec<(usize, usize)>)
    requires
        2 * edges@.len() < usize::MAX,
    ensures
        degree_ranking(r@, endpoints(edges@)),
        r@ == degree_ranking_spec(endpoints(edges@)),
{
    let mut t: Vec<(usize, usize)> = Vec::new();
    let mut i: usize = 0;
    assert(edges@.take(0) =~= Seq::<LinkEdge>::empty());
    while i < edges.len()
        invariant
            i <= edges@.len(),
            2 * edges@.len() < usize::MAX,
            id_tally(t@, endpoints(edges@.take(i as int))),
            endpoints(edges@.take(i as int)).len() == 2 * i,
        decreases edges@.len() - i,
    {
        let ghost e0 = endpoints(edges@.take(i as int));
        assert(edges@.take(i + 1).drop_last() =~= edges@.take(i as int));
        id_tally_add(&mut t, edges[i].source_id, Ghost(e0));
        id_tally_add(&mut t, edges[i].target_id, Ghost(e0.push(edges@[i as int].source_id)));
        i += 1;
    }
    assert(edges@.take(i as int) =~= edges@);
    let r = rank_degrees(&t, Ghost(endpoints(edges@)));
    proof {
        let c = degree_ranking_spec(endpoints(edges@));
        assert(degree_ranking(c, endpoints(edges@)));
        lemma_degree_ranking_unique(r@, c, endpoints(edges@));
    }
    r
}

/// Two lists in ranking order with the same rows are the same list.
proof fn lemma_ranked_same_rows(a: Seq<(usize, usize)>, b: Seq<(usize, usize)>)
    requires
        ranked(a),
        ranked(b),
        forall|x: (usize, usize)| a.contains(x) <==> b.contains(x),
    ensures
        a == b,
    decreases a.len(),
{
    if a.len() == 0 {
        if b.len() > 0 {
            assert(b.contains(b[0]));
        }
        assert(a =~= b);
    } else {
        assert(a.contains(a[0]));
        let j = choose|j: int| 0 <= j < b.len() && b[j] == a[0];
        assert(b.contains(b[0]));
        let i = choose|i: int| 0 <= i < a.len() && a[i] == b[0];
        if j > 0 {
            assert(degree_before(b[0], b[j]));
            if i > 0 {
                assert(degree_before(a[0], a[i]));
            }
        }
        assert(a[0] == b[0]);
        let a1 = a.drop_first();
        let b1 = b.drop_first();
        assert forall|x: (usize, usize)| a1.contains(x) <==> b1.contains(x) by {
            if a1.contains(x) {
                let p = choose|p: int| 0 <= p < a1.len() && a1[p] == x;
                assert(a[p + 1] == x);
                assert(degree_before(a[0], a[p + 1]));
                assert(a.contains(x));
                let q = choose|q: int| 0 <= q < b.len() && b[q] == x;
                assert(q != 0);
                assert(b1[q - 1] == x);
            }
            if b1.contains(x) {
                let p = choose|p: int| 0 <= p < b1.len() && b1[p] == x;
                assert(b[p + 1] == x);
                assert(degree_before(b[0], b[p + 1]));
                assert(b.contains(x));
                let q = choose|q: int| 0 <= q < a.len() && a[q] == x;
                assert(q != 0);
                assert(a1[q - 1] == x);
            }
        }
        assert forall|i: int, j: int| 0 <= i < j < a1.len() implies degree_before(#[trigger] a1[i], #[trigger] a1[j]) by {
            assert(a1[i] == a[i + 1] && a1[j] == a[j + 1]);
        }
        assert forall|i: int, j: int| 0 <= i < j < b1.len() implies degree_before(#[trigger] b1[i], #[trigger] b1[j]) by {
            assert(b1[i] == b[i + 1] && b1[j] == b[j + 1]);
        }
        lemma_ranked_same_rows(a1, b1);
        assert(a =~= seq![a[0]] + a1);
        assert(b =~= seq![b[0]] + b1);
    }
}

/// The degree ranking of a list of pages is unique.
pub proof fn lemma_degree_ranking_unique(d1: Seq<(usize, usize)>, d2: Seq<(usize, usize)>, ids: Seq<usize>)
    requires
        degree_ranking(d1, ids),
        degree_ranking(d2, ids),
    ensures
        d1 == d2,
{
    assert forall|x: (usize, usize)| d1.contains(x) <==> d2.contains(x) by {
        if d1.contains(x) {
            let p = choose|p: int| 0 <= p < d1.len() && d1[p] == x;
            assert(d1[p].1 > 0 && d1[p].1 == id_count(ids, x.0));
            let q = choose|q: int| 0 <= q < d2.len() && (#[trigger] d2[q]).0 == x.0;
            assert(d2[q] == x);
        }
        if d2.contains(x) {
            let p = choose|p: int| 0 <= p < d2.len() && d2[p] == x;
            assert(d2[p].1 > 0 && d2[p].1 == id_count(ids, x.0));
            let q = choose|q: int| 0 <= q < d1.len() && (#[trigger] d1[q]).0 == x.0;
            assert(d1[q] == x);
        }
    }
    lemma_ranked_same_rows(d1, d2);
}

/// The degree ranking of a list of pages.
pub open spec fn degree_ranking_spec(ids: Seq<usize>) -> Seq<(usize, usize)> {
    choose|d: Seq<(usize, usize)>| degree_ranking(d, ids)
}

/// Whether a degree row ranks before another.
fn degree_before_exec(a: (usize, usize), b: (usize, usize)) -> (r: bool)
    ensures
        r == degree_before(a, b),
{
    a.1 > b.1 || (a.1 == b.1 && a.0 < b.0)
}

/// The last entry with id `id` (a later entry shadows an earlier one).
pub open spec fn meta_last(metas: Seq<SiteEntryMeta>, id: usize) -> Option<int>
    decreases metas.len(),
{
    if metas.len() == 0 {
        None
    } else if metas.last().id == id {
        Some(metas.len() - 1)
    } else {
        meta_last(metas.drop_last(), id)
    }
}

/// The position of the last entry with id `id`.
fn find_meta_last(metas: &Vec<SiteEntryMeta>, id: usize) -> (r: Option<usize>)
    ensures
        match r {
            Some(k) => meta_last(metas@, id) == Some(k as int) && k < metas@.len(),
            None => meta_last(metas@, id) is None,
        },
{
    let mut j: usize = metas.len();
    assert(metas@.take(j as int) =~= metas@);
    while j > 0
        invariant
            j <= metas@.len(),
            meta_last(metas@, id) == meta_last(metas@.take(j as int), id),
        decreases j,
    {
        assert(metas@.take(j as int).drop_last() =~= metas@.take(j - 1));
        if metas[j - 1].id == id {
            return Some(j - 1);
        }
        j -= 1;
    }
    None
}

/// One of the best-linked pages, when it has an entry.
pub open spec fn top_item(metas: Seq<SiteEntryMeta>, row: (usize, usize)) -> Seq<char> {
    match meta_last(metas, row.0) {
        Some(k) => "<li><a href='entry/"@ + decimal(row.0 as nat) + ".html'>"@ + esc_spec(metas[k].title@)
            + "</a> <span class='muted'>("@ + decimal(row.1 as nat) + " vęzej)</span></li>"@,
        None => Seq::empty(),
    }
}

/// One listed link of the graph page.
pub open spec fn edge_item(e: LinkEdge) -> Seq<char> {
    "<li class='graph-edge' data-kind='"@ + esc_spec(e.kind@) + "' id='n"@ + decimal(e.source_id as nat)
        + "'><a href='entry/"@ + decimal(e.source_id as nat) + ".html'>"@ + esc_spec(e.source_title@)
        + "</a> — <span class='badge'>"@ + esc_spec(e.kind@) + "</span> → <a href='entry/"@
        + decimal(e.target_id as nat) + ".html'>"@ + esc_spec(e.target_title@) + "</a></li>"@
}

/// One kind filter button.
pub open spec fn kind_button(k: (Seq<char>, usize)) -> Seq<char> {
    "<button type='button' data-kind='"@ + esc_spec(k.0) + "'>"@ + esc_spec(k.0) + "</button> "@
}

/// The kinds of the edges, in order.
pub open spec fn edge_kinds(edges: Seq<LinkEdge>) -> Seq<Seq<char>> {
    edges.map_values(|e: LinkEdge| e.kind@)
}

/// The body of the graph page.
pub open spec fn graph_body_spec(edges: Seq<LinkEdge>, metas: Seq<SiteEntryMeta>) -> Seq<char> {
    let kinds = tally_spec(edge_kinds(edges));
    "<article class='entry'><h1 class='firstHeading'>Semantičny graf</h1><p class='muted'>Statičny spis prvih vęzej; polny kompaktny JSON je v <a href='edges.json'><code>edges.json</code></a>. Filtry rabotajų bez servera.</p><div class='graph-filter'>"@
        + "<button type='button' data-kind=''>vse</button> "@
        + kinds.map_values(|k: (Seq<char>, usize)| kind_button(k)).flatten()
        + "</div><div class='stat-grid wiki-stats'>"@ + counts_table_spec("Tipy vęzej"@, kinds)
        + "</div><h2 id='top'>Najbolje povezane strany</h2><ol>"@
        + first_n(degree_ranking_spec(endpoints(edges)), 40).map_values(|d: (usize, usize)| top_item(metas, d)).flatten()
        + "</ol><h2 id='edges'>Vęzi</h2><ul class='compact-list'>"@
        + first_n(edges, 800).map_values(|e: LinkEdge| edge_item(e)).flatten()
        + "</ul><script>document.querySelectorAll('.graph-filter button').forEach(function(b){b.onclick=function(){var k=b.dataset.kind;document.querySelectorAll('.graph-edge').forEach(function(e){e.style.display=(!k||e.dataset.kind===k)?'':'none';});};});</script></article>"@
}

fn push_edge_item(s: &mut String, e: &LinkEdge)
    ensures
        final(s)@ == old(s)@ + edge_item(*e),
{
    push_str(s, "<li class='graph-edge' data-kind='");
    push_str(s, esc(e.kind.as_str()).as_str());
    push_str(s, "' id='n");
    push_decimal(s, e.source_id);
    push_str(s, "'><a href='entry/");
    push_decimal(s, e.source_id);
    push_str(s, ".html'>");
    push_str(s, esc(e.source_title.as_str()).as_str());
    push_str(s, "</a> — <span class='badge'>");
    push_str(s, esc(e.kind.as_str()).as_str());
    push_str(s, "</span> → <a href='entry/");
    push_decimal(s, e.target_id);
    push_str(s, ".html'>");
    push_str(s, esc(e.target_title.as_str()).as_str());
    push_str(s, "</a></li>");
}

fn push_top_item(s: &mut String, metas: &Vec<SiteEntryMeta>, row: (usize, usize))
    ensures
        final(s)@ == old(s)@ + top_item(metas@, row),
{
    match find_meta_last(metas, row.0) {
        Some(k) => {
            push_str(s, "<li><a href='entry/");
            push_decimal(s, row.0);
            push_str(s, ".html'>");
            push_str(s, esc(metas[k].title.as_str()).as_str());
            push_str(s, "</a> <span class='muted'>(");
            push_decimal(s, row.1);
            push_str(s, " vęzej)</span></li>");
        },
        None => {
            assert(old(s)@ + Seq::<char>::empty() =~= old(s)@);
        },
    }
}

/// The links listed on the graph page: the first 800.
fn edge_items(edges: &Vec<LinkEdge>) -> (r: String)
    ensures
        r@ == first_n(edges@, 800).map_values(|e: LinkEdge| edge_item(e)).flatten(),
{
    let n: usize = if edges.len() <= 800 { edges.len() } else { 800 };
    let ghost shown = first_n(edges@, 800);
    let ghost f = |e: LinkEdge| edge_item(e);
    assert(shown =~= edges@.take(n as int));
    let mut s = String::new();
    let mut i: usize = 0;
    while i < n
        invariant
            i <= n <= edges@.len(),
            shown =~= edges@.take(n as int),
            f == (|e: LinkEdge| edge_item(e)),
            s@ == shown.take(i as int).map_values(f).flatten(),
        decreases n - i,
    {
        push_edge_item(&mut s, &edges[i]);
        proof {
            assert(shown[i as int] == edges@[i as int]);
            crate::strs::lemma_flat_map_step(shown, i as int, f);
        }
        i += 1;
    }
    assert(shown.take(i as int) =~= shown);
    s
}

/// The best-linked pages listed on the graph page: the first forty of the
/// ranking that have an entry.
fn top_items(ranking: &Vec<(usize, usize)>, metas: &Vec<SiteEntryMeta>) -> (r: String)
    ensures
        r@ == first_n(ranking@, 40).map_values(|d: (usize, usize)| top_item(metas@, d)).flatten(),
{
    let n: usize = if ranking.len() <= 40 { ranking.len() } else { 40 };
    let ghost shown = first_n(ranking@, 40);
    let ghost f = |d: (usize, usize)| top_item(metas@, d);
    assert(shown =~= ranking@.take(n as int));
    let mut s = String::new();
    let mut i: usize = 0;
    while i < n
        invariant
            i <= n <= ranking@.len(),
            shown =~= ranking@.take(n as int),
            f == (|d: (usize, usize)| top_item(metas@, d)),
            s@ == shown.take(i as int).map_values(f).flatten(),
        decreases n - i,
    {
        push_top_item(&mut s, metas, ranking[i]);
        proof {
            assert(shown[i as int] == ranking@[i as int]);
            crate::strs::lemma_flat_map_step(shown, i as int, f);
        }
        i += 1;
    }
    assert(shown.take(i as int) =~= shown);
    s
}

/// The kind filter buttons, one per kind in order.
fn kind_buttons(kinds: &Vec<(String, usize)>) -> (r: String)
    ensures
        r@ == tally_view(kinds@).map_values(|k: (Seq<char>, usize)| kind_button(k)).flatten(),
{
    let ghost kv = tally_view(kinds@);
    let ghost f = |k: (Seq<char>, usize)| kind_button(k);
    let mut s = String::new();
    let mut i: usize = 0;
    while i < kinds.len()
        invariant
            i <= kinds@.len(),
            kv == tally_view(kinds@),
            f == (|k: (Seq<char>, usize)| kind_button(k)),
            s@ == kv.take(i as int).map_values(f).flatten(),
        decreases kinds@.len() - i,
    {
        push_str(&mut s, "<button type='button' data-kind='");
        push_str(&mut s, esc(kinds[i].0.as_str()).as_str());
        push_str(&mut s, "'>");
        push_str(&mut s, esc(kinds[i].0.as_str()).as_str());
        push_str(&mut s, "</button> ");
        proof {
            assert(kv[i as int] == (kinds@[i as int].0@, kinds@[i as int].1));
            crate::strs::lemma_flat_map_step(kv, i as int, f);
        }
        i += 1;
    }
    assert(kv.take(i as int) =~= kv);
    s
}

/// The semantic graph page: a filter button per link kind, the count of
/// each kind, the forty best-linked pages (most links first, then by id),
/// and the first 800 links.
pub fn graph_page(edges: &Vec<LinkEdge>, metas: &Vec<SiteEntryMeta>) -> (r: String)
    requires
        2 * edges@.len() < usize::MAX,
    ensures
        r@ == site_page_spec("Semantičny graf"@, graph_body_spec(edges@, metas@), 0),
{
    let mut kinds: Vec<String> = Vec::new();
    let mut i: usize = 0;
    while i < edges.len()
        invariant
            i <= edges@.len(),
            strs_view(kinds@) == edge_kinds(edges@.take(i as int)),
        decreases edges@.len() - i,
    {
        kinds.push(copy_string(&edges[i].kind));
        assert(edge_kinds(edges@.take(i + 1)) =~= edge_kinds(edges@.take(i as int)).push(edges@[i as int].kind@));
        assert(strs_view(kinds@) =~= edge_kinds(edges@.take(i + 1)));
        i += 1;
    }
    assert(edges@.take(i as int) =~= edges@);
    let kind_counts = count_by(&kinds);
    let ranking = degree_ranking_of(edges);
    let mut body = string_from(
        "<article class='entry'><h1 class='firstHeading'>Semantičny graf</h1><p class='muted'>Statičny spis prvih vęzej; polny kompaktny JSON je v <a href='edges.json'><code>edges.json</code></a>. Filtry rabotajų bez servera.</p><div class='graph-filter'>",
    );
    push_str(&mut body, "<button type='button' data-kind=''>vse</button> ");
    push_str(&mut body, kind_buttons(&kind_counts).as_str());
    push_str(&mut body, "</div><div class='stat-grid wiki-stats'>");
    push_str(&mut body, counts_table("Tipy vęzej", &kind_counts).as_str());
    push_str(&mut body, "</div><h2 id='top'>Najbolje povezane strany</h2><ol>");
    push_str(&mut body, top_items(&ranking, metas).as_str());
    push_str(&mut body, "</ol><h2 id='edges'>Vęzi</h2><ul class='compact-list'>");
    push_str(&mut body, edge_items(edges).as_str());
    push_str(
        &mut body,
        "</ul><script>document.querySelectorAll('.graph-filter button').forEach(function(b){b.onclick=function(){var k=b.dataset.kind;document.querySelectorAll('.graph-edge').forEach(function(e){e.style.display=(!k||e.dataset.kind===k)?'':'none';});};});</script></article>",
    );
    assert(counts_view(kind_counts@) =~= tally_view(kind_counts@));
    assert(body@ =~= graph_body_spec(edges@, metas@));
    site_page("Semantičny graf", body.as_str(), 0)
}

} // verus!

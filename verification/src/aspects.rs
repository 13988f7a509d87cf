//! The grammatical aspect of official verbs and the links between aspect
//! partners (an imperfective verb and its perfective counterpart), with the
//! check that the export makes before it publishes them: aspect belongs
//! only to official verb pages, and every partner link is reciprocal.

use vstd::prelude::*;
use crate::english_index::{lemma_seq_lt_total, lemma_seq_lt_trans, seq_lt, str_lt};
use crate::categories::strs_view;
use crate::site_meta::SiteEntryMeta;
use crate::strs::decimal;
use crate::english_index::copy_string;
use crate::strs::{push_decimal, push_str, str_eq, string_from};

verus! {

/// A partner link as plain values: page id and title.
pub open spec fn link_view(x: (usize, String)) -> (usize, Seq<char>) {
    (x.0, x.1@)
}

/// A partner list as plain values.
pub open spec fn links_view(v: Seq<(usize, String)>) -> Seq<(usize, Seq<char>)> {
    v.map_values(|x: (usize, String)| link_view(x))
}

/// The order of partner links: by page id, then by title.
pub open spec fn link_lt(a: (usize, Seq<char>), b: (usize, Seq<char>)) -> bool {
    a.0 < b.0 || (a.0 == b.0 && seq_lt(a.1, b.1))
}

/// A list in strictly ascending link order (so without repeats).
pub open spec fn strictly_sorted(v: Seq<(usize, Seq<char>)>) -> bool {
    forall|i: int, j: int| 0 <= i < j < v.len() ==> link_lt(#[trigger] v[i], #[trigger] v[j])
}

proof fn lemma_link_lt_trans(a: (usize, Seq<char>), b: (usize, Seq<char>), c: (usize, Seq<char>))
    requires
        link_lt(a, b),
        link_lt(b, c),
    ensures
        link_lt(a, c),
{
    if a.0 == b.0 && b.0 == c.0 {
        lemma_seq_lt_trans(a.1, b.1, c.1);
    }
}

proof fn lemma_link_lt_total(a: (usize, Seq<char>), b: (usize, Seq<char>))
    ensures
        a == b || link_lt(a, b) || link_lt(b, a),
{
    lemma_seq_lt_total(a.1, b.1);
}

fn link_less(a: &(usize, String), b: &(usize, String)) -> (r: bool)
    ensures
        r == link_lt(link_view(*a), link_view(*b)),
{
    a.0 < b.0 || (a.0 == b.0 && str_lt(a.1.as_str(), b.1.as_str()))
}

/// Adds a link to a strictly sorted list, unless it is there already.
fn insert_link(out: &mut Vec<(usize, String)>, x: (usize, String))
    requires
        strictly_sorted(links_view(old(out)@)),
    ensures
        strictly_sorted(links_view(final(out)@)),
        links_view(final(out)@).to_set() == links_view(old(out)@).to_set().insert(link_view(x)),
{
    let ghost s0 = links_view(out@);
    let ghost xv = link_view(x);
    let mut p: usize = 0;
    while p < out.len() && link_less(&out[p], &x)
        invariant
            p <= out@.len(),
            s0 == links_view(out@),
            xv == link_view(x),
            forall|q: int| 0 <= q < p ==> link_lt(#[trigger] s0[q], xv),
        decreases out@.len() - p,
    {
        assert(s0[p as int] == link_view(out@[p as int]));
        p += 1;
    }
    if p < out.len() && out[p].0 == x.0 && str_eq(out[p].1.as_str(), x.1.as_str()) {
        assert(s0[p as int] == xv);
        assert(s0.to_set().insert(xv) =~= s0.to_set());
        return;
    }
    proof {
        if p < s0.len() {
            assert(s0[p as int] == link_view(out@[p as int]));
            lemma_link_lt_total(s0[p as int], xv);
            assert(s0[p as int] != xv);
            assert(link_lt(xv, s0[p as int]));
        }
    }
    out.insert(p, x);
    let ghost s1 = links_view(out@);
    assert(s1 =~= s0.take(p as int) + seq![xv] + s0.skip(p as int));
    assert forall|a: int, b: int| 0 <= a < b < s1.len() implies link_lt(#[trigger] s1[a], #[trigger] s1[b]) by {
        if b < p {
            assert(s1[a] == s0[a] && s1[b] == s0[b]);
        } else if b == p {
            assert(s1[a] == s0[a]);
        } else if a < p {
            assert(s1[a] == s0[a] && s1[b] == s0[b - 1]);
            if b - 1 > p {
                lemma_link_lt_trans(s0[a], s0[p as int], s0[b - 1]);
            }
        } else if a == p {
            assert(s1[b] == s0[b - 1]);
            if b - 1 > p {
                lemma_link_lt_trans(xv, s0[p as int], s0[b - 1]);
            }
        } else {
            assert(s1[a] == s0[a - 1] && s1[b] == s0[b - 1]);
        }
    }
    assert forall|y: (usize, Seq<char>)| s1.to_set().contains(y) <==> s0.to_set().insert(xv).contains(y) by {
        if s1.to_set().contains(y) {
            let i = choose|i: int| 0 <= i < s1.len() && s1[i] == y;
            if i < p {
                assert(s0[i] == y);
            } else if i > p {
                assert(s0[i - 1] == y);
            }
        }
        if s0.to_set().contains(y) {
            let i = choose|i: int| 0 <= i < s0.len() && s0[i] == y;
            if i < p {
                assert(s1[i] == y);
            } else {
                assert(s1[i + 1] == y);
            }
        }
        if y == xv {
            assert(s1[p as int] == y);
        }
    }
    assert(s1.to_set() =~= s0.to_set().insert(xv));
}

/// The page ids of a list of entry metadata, in order.
pub open spec fn meta_ids(ms: Seq<SiteEntryMeta>) -> Seq<usize> {
    ms.map_values(|m: SiteEntryMeta| m.id)
}

/// The titles of a list of entry metadata, in order.
pub open spec fn meta_titles(ms: Seq<SiteEntryMeta>) -> Seq<Seq<char>> {
    ms.map_values(|m: SiteEntryMeta| m.title@)
}

/// The position that a page id resolves to: the last entry carrying that
/// id, or -1 when no entry does.
pub open spec fn last_pos(ids: Seq<usize>, id: usize) -> int
    decreases ids.len(),
{
    if ids.len() == 0 {
        -1
    } else if ids.last() == id {
        ids.len() - 1
    } else {
        last_pos(ids.drop_last(), id)
    }
}

/// Whether a page id resolves to an entry.
pub open spec fn resolves(ms: Seq<SiteEntryMeta>, id: usize) -> bool {
    last_pos(meta_ids(ms), id) >= 0
}

proof fn lemma_last_pos(ids: Seq<usize>, id: usize)
    ensures
        -1 <= last_pos(ids, id) < ids.len(),
        last_pos(ids, id) >= 0 ==> ids[last_pos(ids, id)] == id,
        (exists|i: int| 0 <= i < ids.len() && ids[i] == id) ==> last_pos(ids, id) >= 0,
    decreases ids.len(),
{
    if ids.len() > 0 {
        lemma_last_pos(ids.drop_last(), id);
        if ids.last() != id {
            if exists|i: int| 0 <= i < ids.len() && ids[i] == id {
                let i = choose|i: int| 0 <= i < ids.len() && ids[i] == id;
                assert(i < ids.len() - 1);
                assert(ids.drop_last()[i] == id);
            }
        }
    }
}

/// The aspect of the entry at position `k` after the aspect assignments
/// `asp` (page id and aspect code, in order; a later one wins), starting
/// from `init`.
pub open spec fn aspect_after(asp: Seq<(usize, Seq<char>)>, ids: Seq<usize>, k: int, init: Option<Seq<char>>) -> Option<Seq<char>>
    decreases asp.len(),
{
    if asp.len() == 0 {
        init
    } else if last_pos(ids, asp.last().0) == k {
        Some(asp.last().1)
    } else {
        aspect_after(asp.drop_last(), ids, k, init)
    }
}

/// An optional string as plain characters.
pub open spec fn opt_view(o: Option<String>) -> Option<Seq<char>> {
    match o {
        Some(s) => Some(s@),
        None => None,
    }
}

/// Whether the partner pair `p` (two page ids) links `x` into the entry at
/// position `k`: each side of a pair of two different pages gets the other
/// page's id and title.
pub open spec fn pair_gives(p: (usize, usize), ids: Seq<usize>, titles: Seq<Seq<char>>, k: int, x: (usize, Seq<char>)) -> bool {
    p.0 != p.1 && (
        (last_pos(ids, p.0) == k && x == (p.1, titles[last_pos(ids, p.1)]))
        || (last_pos(ids, p.1) == k && x == (p.0, titles[last_pos(ids, p.0)]))
    )
}

/// The partner links that the pairs give the entry at position `k`.
pub open spec fn pair_links(pairs: Seq<(usize, usize)>, ids: Seq<usize>, titles: Seq<Seq<char>>, k: int) -> Set<(usize, Seq<char>)> {
    Set::new(|x: (usize, Seq<char>)| exists|j: int| 0 <= j < pairs.len() && #[trigger] pair_gives(pairs[j], ids, titles, k, x))
}

/// The partner links of an entry as plain values.
pub open spec fn partners_of(m: SiteEntryMeta) -> Seq<(usize, Seq<char>)> {
    links_view(m.aspect_partners@)
}

/// Whether an entry carries aspect data: an aspect or a partner.
pub open spec fn carries_aspect(m: SiteEntryMeta) -> bool {
    m.aspect is Some || m.aspect_partners@.len() > 0
}

/// Whether an entry is an official verb page with an aspect.
pub open spec fn official_verb(m: SiteEntryMeta) -> bool {
    m.aspect is Some && m.official_lemma is Some && m.pos@ == "verb"@
}

/// Whether every partner of the entry at position `k` resolves to an entry
/// that lists the first one's id among its own partners.
pub open spec fn links_back(ms: Seq<SiteEntryMeta>, k: int) -> bool {
    forall|q: int| 0 <= q < ms[k].aspect_partners@.len() ==> {
        let p = #[trigger] last_pos(meta_ids(ms), ms[k].aspect_partners@[q].0);
        p >= 0 && exists|t: int| 0 <= t < ms[p].aspect_partners@.len() && ms[p].aspect_partners@[t].0 == ms[k].id
    }
}

/// The check that the export makes before it publishes aspect data: each
/// entry that carries any is an official verb page with an aspect, and all
/// of its partner links are reciprocal.
pub open spec fn aspect_export_ok(ms: Seq<SiteEntryMeta>) -> bool {
    forall|k: int| 0 <= k < ms.len() && #[trigger] carries_aspect(ms[k]) ==> official_verb(ms[k]) && links_back(ms, k)
}

/// The position a page id resolves to among `ids`.
fn find_last(ids: &Vec<usize>, id: usize) -> (r: Option<usize>)
    ensures
        match r {
            Some(p) => p == last_pos(ids@, id),
            None => last_pos(ids@, id) == -1,
        },
{
    let mut i: usize = ids.len();
    assert(ids@.take(i as int) =~= ids@);
    while i > 0
        invariant
            i <= ids@.len(),
            last_pos(ids@, id) == last_pos(ids@.take(i as int), id),
        decreases i,
    {
        assert(ids@.take(i as int).last() == ids@[i - 1]);
        if ids[i - 1] == id {
            return Some(i - 1);
        }
        assert(ids@.take(i as int).drop_last() =~= ids@.take(i - 1));
        i -= 1;
    }
    None
}

proof fn lemma_push_to_set(s: Seq<(usize, Seq<char>)>, a: (usize, Seq<char>))
    ensures
        s.push(a).to_set() == s.to_set().insert(a),
{
    let t = s.push(a);
    assert forall|y: (usize, Seq<char>)| t.to_set().contains(y) <==> s.to_set().insert(a).contains(y) by {
        if t.to_set().contains(y) {
            let i = choose|i: int| 0 <= i < t.len() && t[i] == y;
            if i < s.len() {
                assert(s[i] == y);
            }
        }
        if s.to_set().contains(y) {
            let i = choose|i: int| 0 <= i < s.len() && s[i] == y;
            assert(t[i] == y);
        }
        if y == a {
            assert(t[s.len() as int] == y);
        }
    }
    assert(t.to_set() =~= s.to_set().insert(a));
}

proof fn lemma_pair_links_step(pairs: Seq<(usize, usize)>, ids: Seq<usize>, titles: Seq<Seq<char>>, k: int, j: int)
    requires
        0 <= j < pairs.len(),
    ensures
        forall|x: (usize, Seq<char>)| #[trigger] pair_links(pairs.take(j + 1), ids, titles, k).contains(x) <==> (
            pair_links(pairs.take(j), ids, titles, k).contains(x) || pair_gives(pairs[j], ids, titles, k, x)),
{
    let a = pairs.take(j);
    let b = pairs.take(j + 1);
    assert forall|x: (usize, Seq<char>)| #[trigger] pair_links(b, ids, titles, k).contains(x) <==> (
        pair_links(a, ids, titles, k).contains(x) || pair_gives(pairs[j], ids, titles, k, x)) by {
        if pair_links(b, ids, titles, k).contains(x) {
            let i = choose|i: int| 0 <= i < b.len() && #[trigger] pair_gives(b[i], ids, titles, k, x);
            if i < j {
                assert(a[i] == b[i]);
                assert(pair_gives(a[i], ids, titles, k, x));
            } else {
                assert(b[i] == pairs[j]);
            }
        }
        if pair_links(a, ids, titles, k).contains(x) {
            let i = choose|i: int| 0 <= i < a.len() && #[trigger] pair_gives(a[i], ids, titles, k, x);
            assert(b[i] == a[i]);
            assert(pair_gives(b[i], ids, titles, k, x));
        }
        if pair_gives(pairs[j], ids, titles, k, x) {
            assert(b[j] == pairs[j]);
            assert(pair_gives(b[j], ids, titles, k, x));
        }
    }
}

/// Gives the entry at position `k` its aspect after the assignments and its
/// partner links after the pairs, sorted and without repeats.
#[verifier::rlimit(30)]
fn relink_entry(
    m: SiteEntryMeta,
    k: usize,
    ids: &Vec<usize>,
    titles: &Vec<String>,
    aspects: &Vec<(usize, String)>,
    apos: &Vec<usize>,
    pairs: &Vec<(usize, usize)>,
    ppos: &Vec<(usize, usize)>,
) -> (r: SiteEntryMeta)
    requires
        apos@.len() == aspects@.len(),
        forall|j: int| 0 <= j < aspects@.len() ==> apos@[j] == last_pos(ids@, #[trigger] aspects@[j].0),
        ppos@.len() == pairs@.len(),
        forall|j: int| 0 <= j < pairs@.len() ==> {
            &&& (#[trigger] ppos@[j]).0 == last_pos(ids@, pairs@[j].0)
            &&& ppos@[j].1 == last_pos(ids@, pairs@[j].1)
            &&& ppos@[j].0 < titles@.len()
            &&& ppos@[j].1 < titles@.len()
        },
    ensures
        r == (SiteEntryMeta { aspect: r.aspect, aspect_partners: r.aspect_partners, ..m }),
        opt_view(r.aspect) == aspect_after(links_view(aspects@), ids@, k as int, opt_view(m.aspect)),
        strictly_sorted(partners_of(r)),
        partners_of(r).to_set() == partners_of(m).to_set() + pair_links(pairs@, ids@, strs_view(titles@), k as int),
{
    let ghost m0 = m;
    let ghost asp = links_view(aspects@);
    let ghost tv = strs_view(titles@);
    let mut m = m;
    let mut cur: Option<String> = None;
    std::mem::swap(&mut cur, &mut m.aspect);
    let mut j: usize = 0;
    assert(asp.take(0) =~= Seq::<(usize, Seq<char>)>::empty());
    while j < aspects.len()
        invariant
            j <= aspects@.len(),
            asp == links_view(aspects@),
            apos@.len() == aspects@.len(),
            forall|j: int| 0 <= j < aspects@.len() ==> apos@[j] == last_pos(ids@, #[trigger] aspects@[j].0),
            opt_view(cur) == aspect_after(asp.take(j as int), ids@, k as int, opt_view(m0.aspect)),
        decreases aspects@.len() - j,
    {
        assert(asp.take(j + 1).drop_last() =~= asp.take(j as int));
        assert(asp.take(j + 1).last() == link_view(aspects@[j as int]));
        if apos[j] == k {
            cur = Some(copy_string(&aspects[j].1));
        }
        j += 1;
    }
    assert(asp.take(aspects@.len() as int) =~= asp);
    let mut olds: Vec<(usize, String)> = Vec::new();
    std::mem::swap(&mut olds, &mut m.aspect_partners);
    let ghost base = links_view(olds@).to_set();
    let mut parts: Vec<(usize, String)> = Vec::new();
    assert(links_view(parts@).to_set() =~= Set::<(usize, Seq<char>)>::empty());
    while olds.len() > 0
        invariant
            strictly_sorted(links_view(parts@)),
            links_view(parts@).to_set() + links_view(olds@).to_set() == base,
        decreases olds@.len(),
    {
        let ghost before = olds@;
        let x = olds.pop().unwrap();
        assert(links_view(before) =~= links_view(olds@).push(link_view(x)));
        proof {
            lemma_push_to_set(links_view(olds@), link_view(x));
        }
        insert_link(&mut parts, x);
        assert(links_view(parts@).to_set() + links_view(olds@).to_set() =~= base);
    }
    assert(links_view(olds@).to_set() =~= Set::<(usize, Seq<char>)>::empty());
    assert(links_view(parts@).to_set() =~= base);
    let mut j: usize = 0;
    assert(pair_links(pairs@.take(0), ids@, tv, k as int) =~= Set::<(usize, Seq<char>)>::empty());
    while j < pairs.len()
        invariant
            j <= pairs@.len(),
            tv == strs_view(titles@),
            ppos@.len() == pairs@.len(),
            forall|j: int| 0 <= j < pairs@.len() ==> {
                &&& (#[trigger] ppos@[j]).0 == last_pos(ids@, pairs@[j].0)
                &&& ppos@[j].1 == last_pos(ids@, pairs@[j].1)
                &&& ppos@[j].0 < titles@.len()
                &&& ppos@[j].1 < titles@.len()
            },
            strictly_sorted(links_view(parts@)),
            links_view(parts@).to_set() == base + pair_links(pairs@.take(j as int), ids@, tv, k as int),
        decreases pairs@.len() - j,
    {
        let ghost s0 = links_view(parts@).to_set();
        let (a, b) = pairs[j];
        let (pa, pb) = ppos[j];
        let ghost x1 = (b, tv[pb as int]);
        let ghost x2 = (a, tv[pa as int]);
        if a != b && pa == k {
            let t = copy_string(&titles[pb]);
            insert_link(&mut parts, (b, t));
        }
        let ghost s1 = links_view(parts@).to_set();
        if a != b && pb == k {
            let t = copy_string(&titles[pa]);
            insert_link(&mut parts, (a, t));
        }
        proof {
            lemma_pair_links_step(pairs@, ids@, tv, k as int, j as int);
            let after = links_view(parts@).to_set();
            let want = base + pair_links(pairs@.take(j + 1), ids@, tv, k as int);
            assert forall|x: (usize, Seq<char>)| after.contains(x) <==> want.contains(x) by {
                assert(pair_links(pairs@.take(j + 1), ids@, tv, k as int).contains(x) <==> (
                    pair_links(pairs@.take(j as int), ids@, tv, k as int).contains(x) || pair_gives(pairs@[j as int], ids@, tv, k as int, x)));
            }
            assert(after =~= want);
        }
        j += 1;
    }
    assert(pairs@.take(pairs@.len() as int) =~= pairs@);
    m.aspect = cur;
    m.aspect_partners = parts;
    m
}

proof fn lemma_link_back_one(olds: Seq<SiteEntryMeta>, news: Seq<SiteEntryMeta>, pairs: Seq<(usize, usize)>, k: int, q: int)
    requires
        news.len() == olds.len(),
        meta_ids(news) == meta_ids(olds),
        forall|kk: int| 0 <= kk < olds.len() ==> #[trigger] partners_of(news[kk]).to_set()
            == partners_of(olds[kk]).to_set() + pair_links(pairs, meta_ids(olds), meta_titles(olds), kk),
        forall|j: int| 0 <= j < pairs.len() ==> resolves(olds, (#[trigger] pairs[j]).0) && resolves(olds, pairs[j].1),
        forall|kk: int| 0 <= kk < olds.len() ==> links_back(olds, kk),
        0 <= k < olds.len(),
        0 <= q < news[k].aspect_partners@.len(),
    ensures
        ({
            let p = last_pos(meta_ids(news), news[k].aspect_partners@[q].0);
            p >= 0 && exists|t: int| 0 <= t < news[p].aspect_partners@.len() && news[p].aspect_partners@[t].0 == news[k].id
        }),
{
    let ids = meta_ids(olds);
    let ts = meta_titles(olds);
    assert(ids[k] == olds[k].id);
    assert(meta_ids(news)[k] == news[k].id);
    let x = news[k].aspect_partners@[q];
    let xv = link_view(x);
    assert(partners_of(news[k])[q] == xv);
    assert(partners_of(news[k]).to_set().contains(xv));
    let p = last_pos(ids, x.0);
    lemma_last_pos(ids, x.0);
    let mut want: (usize, Seq<char>) = (0, Seq::empty());
    if partners_of(olds[k]).to_set().contains(xv) {
        let q0 = choose|q0: int| 0 <= q0 < partners_of(olds[k]).len() && partners_of(olds[k])[q0] == xv;
        assert(partners_of(olds[k])[q0] == link_view(olds[k].aspect_partners@[q0]));
        assert(links_back(olds, k));
        assert(last_pos(meta_ids(olds), olds[k].aspect_partners@[q0].0) == p);
        let t = choose|t: int| 0 <= t < olds[p].aspect_partners@.len() && olds[p].aspect_partners@[t].0 == olds[k].id;
        want = link_view(olds[p].aspect_partners@[t]);
        assert(partners_of(olds[p])[t] == want);
        assert(partners_of(olds[p]).to_set().contains(want));
        assert(partners_of(news[p]).to_set() == partners_of(olds[p]).to_set() + pair_links(pairs, ids, ts, p));
    } else {
        assert(pair_links(pairs, ids, ts, k).contains(xv));
        let j = choose|j: int| 0 <= j < pairs.len() && #[trigger] pair_gives(pairs[j], ids, ts, k, xv);
        let a = pairs[j].0;
        let b = pairs[j].1;
        lemma_last_pos(ids, a);
        lemma_last_pos(ids, b);
        assert(resolves(olds, a) && resolves(olds, b));
        if last_pos(ids, a) == k && xv == (b, ts[last_pos(ids, b)]) {
            want = (a, ts[last_pos(ids, a)]);
        } else {
            want = (b, ts[last_pos(ids, b)]);
        }
        assert(pair_gives(pairs[j], ids, ts, p, want));
        assert(pair_links(pairs, ids, ts, p).contains(want));
        assert(partners_of(news[p]).to_set() == partners_of(olds[p]).to_set() + pair_links(pairs, ids, ts, p));
    }
    assert(want.0 == olds[k].id);
    assert(partners_of(news[p]).to_set().contains(want));
    let t = choose|t: int| 0 <= t < partners_of(news[p]).len() && partners_of(news[p])[t] == want;
    assert(partners_of(news[p])[t] == link_view(news[p].aspect_partners@[t]));
    assert(news[p].aspect_partners@[t].0 == news[k].id);
}

proof fn lemma_links_stay_back(olds: Seq<SiteEntryMeta>, news: Seq<SiteEntryMeta>, pairs: Seq<(usize, usize)>, k: int)
    requires
        news.len() == olds.len(),
        meta_ids(news) == meta_ids(olds),
        forall|kk: int| 0 <= kk < olds.len() ==> #[trigger] partners_of(news[kk]).to_set()
            == partners_of(olds[kk]).to_set() + pair_links(pairs, meta_ids(olds), meta_titles(olds), kk),
        forall|j: int| 0 <= j < pairs.len() ==> resolves(olds, (#[trigger] pairs[j]).0) && resolves(olds, pairs[j].1),
        forall|kk: int| 0 <= kk < olds.len() ==> links_back(olds, kk),
        0 <= k < olds.len(),
    ensures
        links_back(news, k),
{
    assert forall|q: int| 0 <= q < news[k].aspect_partners@.len() implies {
        let p = #[trigger] last_pos(meta_ids(news), news[k].aspect_partners@[q].0);
        p >= 0 && exists|t: int| 0 <= t < news[p].aspect_partners@.len() && news[p].aspect_partners@[t].0 == news[k].id
    } by {
        lemma_link_back_one(olds, news, pairs, k, q);
    }
}

/// Whether a partner list has a link to page `id`.
fn lists_partner(v: &Vec<(usize, String)>, id: usize) -> (r: bool)
    ensures
        r == exists|t: int| 0 <= t < v@.len() && v@[t].0 == id,
{
    let mut t: usize = 0;
    while t < v.len()
        invariant
            t <= v@.len(),
            forall|u: int| 0 <= u < t ==> v@[u].0 != id,
        decreases v@.len() - t,
    {
        if v[t].0 == id {
            return true;
        }
        t += 1;
    }
    false
}

/// The error for aspect data on an entry that is no official verb page.
pub fn leaked_aspect_error(id: usize, title: &str) -> (r: String)
    ensures
        r@ == "aspect metadata leaked onto non-official/non-verb entry "@ + decimal(id as nat) + " ("@ + title@ + ")"@,
{
    let mut r = string_from("aspect metadata leaked onto non-official/non-verb entry ");
    push_decimal(&mut r, id);
    push_str(&mut r, " (");
    push_str(&mut r, title);
    push_str(&mut r, ")");
    r
}

/// The error for a partner link to a page that has no entry.
pub fn missing_partner_error(partner: usize, id: usize) -> (r: String)
    ensures
        r@ == "aspect partner "@ + decimal(partner as nat) + " for "@ + decimal(id as nat) + " has no entry"@,
{
    let mut r = string_from("aspect partner ");
    push_decimal(&mut r, partner);
    push_str(&mut r, " for ");
    push_decimal(&mut r, id);
    push_str(&mut r, " has no entry");
    r
}

/// The error for a partner link that the partner does not return.
pub fn one_way_partner_error(id: usize, partner: usize) -> (r: String)
    ensures
        r@ == "aspect partner link is not reciprocal: "@ + decimal(id as nat) + " -> "@ + decimal(partner as nat),
{
    let mut r = string_from("aspect partner link is not reciprocal: ");
    push_decimal(&mut r, id);
    push_str(&mut r, " -> ");
    push_decimal(&mut r, partner);
    r
}

/// The check that the export makes before it publishes aspect data (see
/// `aspect_export_ok`); `ids` are the entries' page ids.
fn check_aspect_export(metas: &Vec<SiteEntryMeta>, ids: &Vec<usize>) -> (r: Result<(), String>)
    requires
        ids@ == meta_ids(metas@),
    ensures
        r is Ok <==> aspect_export_ok(metas@),
{
    let ghost fin = metas@;
    let n = metas.len();
    let mut k: usize = 0;
    while k < n
        invariant
            k <= n,
            metas@ == fin,
            n == fin.len(),
            ids@ == meta_ids(fin),
            forall|kk: int| 0 <= kk < k && #[trigger] carries_aspect(fin[kk]) ==> official_verb(fin[kk]) && links_back(fin, kk),
        decreases n - k,
    {
        let m = &metas[k];
        if m.aspect.is_some() || m.aspect_partners.len() > 0 {
            assert(carries_aspect(fin[k as int]));
            let ok = m.aspect.is_some() && m.official_lemma.is_some() && str_eq(m.pos.as_str(), "verb");
            if !ok {
                return Err(leaked_aspect_error(m.id, m.title.as_str()));
            }
            let mut q: usize = 0;
            while q < m.aspect_partners.len()
                invariant
                    q <= m.aspect_partners@.len(),
                    metas@ == fin,
                    k < n,
                    n == fin.len(),
                    *m == fin[k as int],
                    ids@ == meta_ids(fin),
                    forall|qq: int| 0 <= qq < q ==> {
                        let p = #[trigger] last_pos(meta_ids(fin), m.aspect_partners@[qq].0);
                        p >= 0 && exists|t: int| 0 <= t < fin[p].aspect_partners@.len() && fin[p].aspect_partners@[t].0 == m.id
                    },
                decreases m.aspect_partners@.len() - q,
            {
                let pid = m.aspect_partners[q].0;
                match find_last(ids, pid) {
                    None => {
                        assert(last_pos(meta_ids(fin), fin[k as int].aspect_partners@[q as int].0) == -1);
                        assert(!links_back(fin, k as int));
                        assert(carries_aspect(fin[k as int]));
                        return Err(missing_partner_error(pid, m.id));
                    },
                    Some(p) => {
                        proof {
                            lemma_last_pos(ids@, pid);
                        }
                        if !lists_partner(&metas[p].aspect_partners, m.id) {
                            assert(last_pos(meta_ids(fin), fin[k as int].aspect_partners@[q as int].0) == p);
                            assert(!links_back(fin, k as int));
                            assert(carries_aspect(fin[k as int]));
                            return Err(one_way_partner_error(m.id, pid));
                        }
                    },
                }
                q += 1;
            }
            assert(links_back(fin, k as int));
        }
        k += 1;
    }
    Ok(())
}

/// Sets the aspect of official verb pages and links aspect partners, then
/// checks what the export may publish.
///
/// `aspects` assigns an aspect code to a page id (a later assignment to the
/// same page wins); each pair of `pairs` links two pages as partners, each
/// side getting the other's id and title. A page id resolves to the last
/// entry that carries it. Partner lists come out sorted by id and title and
/// without repeats. The result is `Ok` exactly when every entry that
/// carries an aspect or a partner is an official verb page with an aspect
/// and each of its partners resolves to an entry that links it back; else
/// the error names the first entry and link that fail. Where the partner
/// lists were reciprocal before (as empty lists are), they stay reciprocal,
/// so then only the first condition decides.
#[verifier::rlimit(40)]
pub fn link_aspect_partners(
    metas: &mut Vec<SiteEntryMeta>,
    aspects: &Vec<(usize, String)>,
    pairs: &Vec<(usize, usize)>,
) -> (r: Result<(), String>)
    requires
        forall|j: int| 0 <= j < aspects@.len() ==> resolves(old(metas)@, (#[trigger] aspects@[j]).0),
        forall|j: int| 0 <= j < pairs@.len() ==> resolves(old(metas)@, (#[trigger] pairs@[j]).0) && resolves(old(metas)@, pairs@[j].1),
    ensures
        final(metas)@.len() == old(metas)@.len(),
        forall|k: int| 0 <= k < old(metas)@.len() ==> #[trigger] final(metas)@[k] == (SiteEntryMeta {
            aspect: final(metas)@[k].aspect,
            aspect_partners: final(metas)@[k].aspect_partners,
            ..old(metas)@[k]
        }),
        forall|k: int| 0 <= k < old(metas)@.len() ==> #[trigger] opt_view(final(metas)@[k].aspect)
            == aspect_after(links_view(aspects@), meta_ids(old(metas)@), k, opt_view(old(metas)@[k].aspect)),
        forall|k: int| 0 <= k < old(metas)@.len() ==> #[trigger] strictly_sorted(partners_of(final(metas)@[k])),
        forall|k: int| 0 <= k < old(metas)@.len() ==> #[trigger] partners_of(final(metas)@[k]).to_set()
            == partners_of(old(metas)@[k]).to_set() + pair_links(pairs@, meta_ids(old(metas)@), meta_titles(old(metas)@), k),
        r is Ok <==> aspect_export_ok(final(metas)@),
        (forall|k: int| 0 <= k < old(metas)@.len() ==> links_back(old(metas)@, k)) ==> (
            (forall|k: int| 0 <= k < final(metas)@.len() ==> links_back(final(metas)@, k))
            && (r is Ok <==> forall|k: int| 0 <= k < final(metas)@.len() && #[trigger] carries_aspect(final(metas)@[k]) ==> official_verb(final(metas)@[k]))),
{
    let ghost olds = metas@;
    let n = metas.len();
    let mut ids: Vec<usize> = Vec::new();
    let mut titles: Vec<String> = Vec::new();
    let mut i: usize = 0;
    while i < n
        invariant
            n == metas@.len(),
            olds == metas@,
            i <= n,
            titles@.len() == i,
            ids@ == meta_ids(olds).take(i as int),
            strs_view(titles@) == meta_titles(olds).take(i as int),
        decreases n - i,
    {
        ids.push(metas[i].id);
        let t = copy_string(&metas[i].title);
        let ghost tv = t@;
        titles.push(t);
        assert(strs_view(titles@)[i as int] == tv);
        assert(meta_titles(olds)[i as int] == olds[i as int].title@);
        assert(meta_ids(olds)[i as int] == olds[i as int].id);
        assert(ids@ =~= meta_ids(olds).take(i + 1));
        assert(strs_view(titles@) =~= meta_titles(olds).take(i + 1));
        i += 1;
    }
    assert(ids@ =~= meta_ids(olds));
    assert(strs_view(titles@) =~= meta_titles(olds));
    let mut apos: Vec<usize> = Vec::new();
    let mut j: usize = 0;
    while j < aspects.len()
        invariant
            j <= aspects@.len(),
            ids@ == meta_ids(olds),
            forall|j: int| 0 <= j < aspects@.len() ==> resolves(olds, (#[trigger] aspects@[j]).0),
            apos@.len() == j,
            forall|u: int| 0 <= u < j ==> apos@[u] == last_pos(ids@, #[trigger] aspects@[u].0),
        decreases aspects@.len() - j,
    {
        let p = match find_last(&ids, aspects[j].0) {
            Some(p) => p,
            None => 0,
        };
        apos.push(p);
        j += 1;
    }
    let mut ppos: Vec<(usize, usize)> = Vec::new();
    let mut j: usize = 0;
    while j < pairs.len()
        invariant
            j <= pairs@.len(),
            ids@ == meta_ids(olds),
            ids@.len() == titles@.len(),
            forall|j: int| 0 <= j < pairs@.len() ==> resolves(olds, (#[trigger] pairs@[j]).0) && resolves(olds, pairs@[j].1),
            ppos@.len() == j,
            forall|u: int| 0 <= u < j ==> {
                &&& (#[trigger] ppos@[u]).0 == last_pos(ids@, pairs@[u].0)
                &&& ppos@[u].1 == last_pos(ids@, pairs@[u].1)
                &&& ppos@[u].0 < titles@.len()
                &&& ppos@[u].1 < titles@.len()
            },
        decreases pairs@.len() - j,
    {
        proof {
            lemma_last_pos(ids@, pairs@[j as int].0);
            lemma_last_pos(ids@, pairs@[j as int].1);
        }
        let pa = match find_last(&ids, pairs[j].0) {
            Some(p) => p,
            None => 0,
        };
        let pb = match find_last(&ids, pairs[j].1) {
            Some(p) => p,
            None => 0,
        };
        ppos.push((pa, pb));
        j += 1;
    }
    let mut rest: Vec<SiteEntryMeta> = Vec::new();
    std::mem::swap(metas, &mut rest);
    let mut stack: Vec<SiteEntryMeta> = Vec::new();
    while rest.len() > 0
        invariant
            rest@.len() + stack@.len() == n,
            n == olds.len(),
            rest@ == olds.take(rest@.len() as int),
            forall|t: int| 0 <= t < stack@.len() ==> #[trigger] stack@[t] == olds[n - 1 - t],
        decreases rest@.len(),
    {
        let x = rest.pop().unwrap();
        assert(rest@ =~= olds.take(rest@.len() as int));
        stack.push(x);
    }
    let mut k: usize = 0;
    while k < n
        invariant
            k <= n,
            n == olds.len(),
            metas@.len() == k,
            stack@.len() == n - k,
            forall|t: int| 0 <= t < stack@.len() ==> #[trigger] stack@[t] == olds[n - 1 - t],
            ids@ == meta_ids(olds),
            strs_view(titles@) == meta_titles(olds),
            apos@.len() == aspects@.len(),
            forall|j: int| 0 <= j < aspects@.len() ==> apos@[j] == last_pos(ids@, #[trigger] aspects@[j].0),
            ppos@.len() == pairs@.len(),
            forall|u: int| 0 <= u < pairs@.len() ==> {
                &&& (#[trigger] ppos@[u]).0 == last_pos(ids@, pairs@[u].0)
                &&& ppos@[u].1 == last_pos(ids@, pairs@[u].1)
                &&& ppos@[u].0 < titles@.len()
                &&& ppos@[u].1 < titles@.len()
            },
            forall|kk: int| 0 <= kk < k ==> #[trigger] metas@[kk] == (SiteEntryMeta {
                aspect: metas@[kk].aspect,
                aspect_partners: metas@[kk].aspect_partners,
                ..olds[kk]
            }),
            forall|kk: int| 0 <= kk < k ==> #[trigger] opt_view(metas@[kk].aspect)
                == aspect_after(links_view(aspects@), meta_ids(olds), kk, opt_view(olds[kk].aspect)),
            forall|kk: int| 0 <= kk < k ==> #[trigger] strictly_sorted(partners_of(metas@[kk])),
            forall|kk: int| 0 <= kk < k ==> #[trigger] partners_of(metas@[kk]).to_set()
                == partners_of(olds[kk]).to_set() + pair_links(pairs@, meta_ids(olds), meta_titles(olds), kk),
        decreases n - k,
    {
        let m = stack.pop().unwrap();
        assert(m == olds[k as int]);
        let nm = relink_entry(m, k, &ids, &titles, aspects, &apos, pairs, &ppos);
        metas.push(nm);
        k += 1;
    }
    let ghost fin = metas@;
    assert(meta_ids(fin) =~= meta_ids(olds)) by {
        assert forall|kk: int| 0 <= kk < n implies meta_ids(fin)[kk] == meta_ids(olds)[kk] by {
            assert(fin[kk] == (SiteEntryMeta { aspect: fin[kk].aspect, aspect_partners: fin[kk].aspect_partners, ..olds[kk] }));
        }
    }
    proof {
        if forall|kk: int| 0 <= kk < olds.len() ==> links_back(olds, kk) {
            assert forall|kk: int| 0 <= kk < fin.len() implies links_back(fin, kk) by {
                lemma_links_stay_back(olds, fin, pairs@, kk);
            }
        }
    }
    check_aspect_export(metas, &ids)
}

} // verus!

//! The wiki-style pages around an entry: its talk page, what links here,
//! the infobox, the references, the local graph, and the site-wide JSON
//! listings of entries and roots.

use vstd::prelude::*;
use crate::categories::{slug, slug_spec, strip_prefix_all};
use crate::graph::LinkEdge;
use crate::categories::strs_view;
use crate::search::{comma_join, lemma_comma_join_push};
use crate::split::join_spec;
use crate::coverage::{tally_spec, tally_view};
use crate::layout::{compact, compact_spec, esc, esc_spec, json_str, json_str_spec};
use crate::pages::{site_page, site_page_spec};
use crate::site_meta::{
    count_by, issue_url, issue_url_spec, pos_code_label, pos_code_label_spec, quality_label, quality_label_spec, SiteEntryMeta,
};
use crate::strs::{chars_of, str_eq, decimal, push_decimal, push_str, string_from, string_of, trim_is_empty, trim_spec};

verus! {

/// `s` without its leading asterisks.
pub fn strip_stars(s: &str) -> (r: String)
    ensures
        r@ == strip_prefix_all(s@, "*"@),
{
    let mut v = chars_of(s);
    let p = chars_of("*");
    proof { reveal_strlit("*"); }
    while p.len() > 0 && crate::split::starts_with(&v, &p)
        invariant
            p@ == "*"@,
            strip_prefix_all(v@, p@) == strip_prefix_all(s@, "*"@),
        decreases v@.len(),
    {
        let rest = crate::split::slice_vec(&v, p.len(), v.len());
        assert(rest@ =~= v@.skip(p@.len() as int));
        v = rest;
    }
    string_of(&v)
}

/// The curation note of a talk page, or the placeholder when there is none.
pub open spec fn note_html_spec(note: Option<Seq<char>>) -> Seq<char> {
    match note {
        Some(n) => "<div class='notice'>"@ + esc_spec(n) + "</div>"@,
        None => "<p class='muted'>Ješče nema kuratorskyh not.</p>"@,
    }
}

/// The body of an entry's talk page.
pub open spec fn talk_body_spec(m: SiteEntryMeta, note: Option<Seq<char>>, n_incoming: nat) -> Seq<char> {
    "<article class='entry'><h1 class='firstHeading'>Diskusija: "@ + esc_spec(m.title@)
        + "</h1><p><a href='../entry/"@ + decimal(m.id as nat)
        + ".html'>← stran zapisova</a></p><h2 id='noty'>Kuratorske noty</h2>"@ + note_html_spec(note)
        + "<h2 id='review'>Spis prověrky</h2><ul><li>Prověr srodne slova i semantiku.</li><li>Prověr či oficialny synonym bolje odgovarja.</li><li>Prověr prěgibanje i pravopisne variantne znaky.</li></ul><h2 id='issue'>GitHub</h2><p><a href='"@
        + esc_spec(issue_url_spec(m)) + "'>Otvori problem za tu stran zapisovu</a>.</p><h2 id='links'>Obratne linky</h2><p>"@
        + decimal(n_incoming) + " stran kaže sem.</p></article>"@
}

/// An entry's talk page: its curation note, the review checklist, the issue
/// link and how many pages link to it.
pub fn talk_page(m: &SiteEntryMeta, note: Option<&String>, incoming: &Vec<LinkEdge>) -> (r: String)
    ensures
        r@ == site_page_spec(
            "Diskusija: "@ + m.title@,
            talk_body_spec(*m, match note { Some(n) => Some(n@), None => None }, incoming@.len()),
            1,
        ),
{
    let mut body = string_from("<article class='entry'><h1 class='firstHeading'>Diskusija: ");
    push_str(&mut body, esc(m.title.as_str()).as_str());
    push_str(&mut body, "</h1><p><a href='../entry/");
    push_decimal(&mut body, m.id);
    push_str(&mut body, ".html'>← stran zapisova</a></p><h2 id='noty'>Kuratorske noty</h2>");
    match note {
        Some(n) => {
            push_str(&mut body, "<div class='notice'>");
            push_str(&mut body, esc(n.as_str()).as_str());
            push_str(&mut body, "</div>");
        },
        None => {
            push_str(&mut body, "<p class='muted'>Ješče nema kuratorskyh not.</p>");
        },
    }
    push_str(
        &mut body,
        "<h2 id='review'>Spis prověrky</h2><ul><li>Prověr srodne slova i semantiku.</li><li>Prověr či oficialny synonym bolje odgovarja.</li><li>Prověr prěgibanje i pravopisne variantne znaky.</li></ul><h2 id='issue'>GitHub</h2><p><a href='",
    );
    push_str(&mut body, esc(issue_url(m).as_str()).as_str());
    push_str(&mut body, "'>Otvori problem za tu stran zapisovu</a>.</p><h2 id='links'>Obratne linky</h2><p>");
    push_decimal(&mut body, incoming.len());
    push_str(&mut body, " stran kaže sem.</p></article>");
    let mut title = string_from("Diskusija: ");
    push_str(&mut title, m.title.as_str());
    site_page(title.as_str(), body.as_str(), 1)
}

/// One incoming link on a what-links-here page.
pub open spec fn backlink_row(e: LinkEdge) -> Seq<char> {
    "<li><a href='../entry/"@ + decimal(e.source_id as nat) + ".html'>"@ + esc_spec(e.source_title@)
        + "</a> <span class='badge'>"@ + esc_spec(e.kind@) + "</span></li>"@
}

/// The body of an entry's what-links-here page.
pub open spec fn backlink_body_spec(m: SiteEntryMeta, incoming: Seq<LinkEdge>) -> Seq<char> {
    let rows = incoming.map_values(|e: LinkEdge| backlink_row(e)).flatten();
    "<article class='entry'><h1 class='firstHeading'>Čto kaže sem: "@ + esc_spec(m.title@)
        + "</h1><p><a href='../entry/"@ + decimal(m.id as nat) + ".html'>← nazad k zapisu</a></p><ul class='compact-list'>"@
        + (if rows.len() == 0 { "<li class='muted'>Nijedna statična strana nyně ne kaže sem.</li>"@ } else { rows })
        + "</ul></article>"@
}

/// The body of an entry's what-links-here page: every incoming link with
/// its source page and kind, or a note that there is none.
pub fn backlink_page_body(m: &SiteEntryMeta, incoming: &Vec<LinkEdge>) -> (r: String)
    ensures
        r@ == backlink_body_spec(*m, incoming@),
{
    let ghost f = |e: LinkEdge| backlink_row(e);
    let mut rows = String::new();
    let mut i: usize = 0;
    while i < incoming.len()
        invariant
            i <= incoming@.len(),
            f == (|e: LinkEdge| backlink_row(e)),
            rows@ == incoming@.take(i as int).map_values(f).flatten(),
        decreases incoming@.len() - i,
    {
        let e = &incoming[i];
        push_str(&mut rows, "<li><a href='../entry/");
        push_decimal(&mut rows, e.source_id);
        push_str(&mut rows, ".html'>");
        push_str(&mut rows, esc(e.source_title.as_str()).as_str());
        push_str(&mut rows, "</a> <span class='badge'>");
        push_str(&mut rows, esc(e.kind.as_str()).as_str());
        push_str(&mut rows, "</span></li>");
        proof {
            crate::strs::lemma_flat_map_step(incoming@, i as int, f);
        }
        i += 1;
    }
    assert(incoming@.take(i as int) =~= incoming@);
    if rows.as_str().is_empty() {
        rows = string_from("<li class='muted'>Nijedna statična strana nyně ne kaže sem.</li>");
    }
    let mut r = string_from("<article class='entry'><h1 class='firstHeading'>Čto kaže sem: ");
    push_str(&mut r, esc(m.title.as_str()).as_str());
    push_str(&mut r, "</h1><p><a href='../entry/");
    push_decimal(&mut r, m.id);
    push_str(&mut r, ".html'>← nazad k zapisu</a></p><ul class='compact-list'>");
    push_str(&mut r, rows.as_str());
    push_str(&mut r, "</ul></article>");
    r
}

/// The edges out of page `source`, in order.
pub open spec fn edges_from(edges: Seq<LinkEdge>, source: usize) -> Seq<LinkEdge>
    decreases edges.len(),
{
    if edges.len() == 0 {
        Seq::empty()
    } else if edges.last().source_id == source {
        edges_from(edges.drop_last(), source).push(edges.last())
    } else {
        edges_from(edges.drop_last(), source)
    }
}

/// The first eighteen of a list of edges.
pub open spec fn first18(edges: Seq<LinkEdge>) -> Seq<LinkEdge> {
    if edges.len() <= 18 { edges } else { edges.take(18) }
}

/// One outgoing link in an entry's local graph.
pub open spec fn out_item(e: LinkEdge) -> Seq<char> {
    "<li><span class='badge'>"@ + esc_spec(e.kind@) + "</span> <a href='"@ + decimal(e.target_id as nat) + ".html'>"@
        + esc_spec(e.target_title@) + "</a></li>"@
}

/// One incoming link in an entry's local graph.
pub open spec fn in_item(e: LinkEdge) -> Seq<char> {
    "<li><span class='badge'>← "@ + esc_spec(e.kind@) + "</span> <a href='"@ + decimal(e.source_id as nat) + ".html'>"@
        + esc_spec(e.source_title@) + "</a></li>"@
}

/// An entry's local graph section.
pub open spec fn local_graph_spec(m: SiteEntryMeta, incoming: Seq<LinkEdge>, edges: Seq<LinkEdge>) -> Seq<char> {
    let items = first18(edges_from(edges, m.id)).map_values(|e: LinkEdge| out_item(e)).flatten()
        + first18(incoming).map_values(|e: LinkEdge| in_item(e)).flatten();
    if items.len() == 0 {
        Seq::empty()
    } else {
        "<section><h2 id='graf'>Semantičny graf</h2><ul class='compact-list graph-list'>"@ + items + "</ul></section>"@
    }
}

fn push_out_item(s: &mut String, e: &LinkEdge)
    ensures
        final(s)@ == old(s)@ + out_item(*e),
{
    push_str(s, "<li><span class='badge'>");
    push_str(s, esc(e.kind.as_str()).as_str());
    push_str(s, "</span> <a href='");
    push_decimal(s, e.target_id);
    push_str(s, ".html'>");
    push_str(s, esc(e.target_title.as_str()).as_str());
    push_str(s, "</a></li>");
}

fn push_in_item(s: &mut String, e: &LinkEdge)
    ensures
        final(s)@ == old(s)@ + in_item(*e),
{
    push_str(s, "<li><span class='badge'>← ");
    push_str(s, esc(e.kind.as_str()).as_str());
    push_str(s, "</span> <a href='");
    push_decimal(s, e.source_id);
    push_str(s, ".html'>");
    push_str(s, esc(e.source_title.as_str()).as_str());
    push_str(s, "</a></li>");
}

/// The local semantic graph of an entry: its first eighteen outgoing links
/// and its first eighteen incoming ones; nothing when there are none.
pub fn local_graph_block(m: &SiteEntryMeta, incoming: &Vec<LinkEdge>, edges: &Vec<LinkEdge>) -> (r: String)
    ensures
        r@ == local_graph_spec(*m, incoming@, edges@),
{
    let ghost outs = edges_from(edges@, m.id);
    let ghost fo = |e: LinkEdge| out_item(e);
    let ghost fi = |e: LinkEdge| in_item(e);
    let mut items = String::new();
    let mut n: usize = 0;
    let mut i: usize = 0;
    assert(edges@.take(0) =~= Seq::<LinkEdge>::empty());
    while i < edges.len() && n < 18
        invariant
            i <= edges@.len(),
            n <= 18,
            fo == (|e: LinkEdge| out_item(e)),
            n == edges_from(edges@.take(i as int), m.id).len(),
            items@ == edges_from(edges@.take(i as int), m.id).map_values(fo).flatten(),
        decreases edges@.len() - i,
    {
        let e = &edges[i];
        let ghost pre = edges_from(edges@.take(i as int), m.id);
        assert(edges@.take(i + 1).drop_last() =~= edges@.take(i as int));
        if e.source_id == m.id {
            push_out_item(&mut items, e);
            proof {
                let post = edges_from(edges@.take(i + 1), m.id);
                assert(post == pre.push(edges@[i as int]));
                crate::strs::lemma_flat_map_step(post, pre.len() as int, fo);
                assert(post.take(pre.len() as int) =~= pre);
                assert(post.take(pre.len() as int + 1) =~= post);
            }
            n += 1;
        }
        i += 1;
    }
    proof {
        lemma_edges_from_prefix(edges@, m.id, i as int);
        if n == 18 {
            lemma_edges_from_len(edges@, m.id, i as int);
        } else {
            assert(edges@.take(i as int) =~= edges@);
        }
        assert(first18(outs) =~= edges_from(edges@.take(i as int), m.id));
    }
    let ghost h = items@;
    let k: usize = if incoming.len() <= 18 { incoming.len() } else { 18 };
    let ghost ins = first18(incoming@);
    assert(ins =~= incoming@.take(k as int));
    let mut j: usize = 0;
    while j < k
        invariant
            j <= k <= incoming@.len(),
            ins.len() == k,
            forall|q: int| 0 <= q < k ==> ins[q] == incoming@[q],
            fi == (|e: LinkEdge| in_item(e)),
            items@ == h + ins.take(j as int).map_values(fi).flatten(),
        decreases k - j,
    {
        let e = &incoming[j];
        push_in_item(&mut items, e);
        proof {
            crate::strs::lemma_flat_map_step(ins, j as int, fi);
        }
        j += 1;
    }
    assert(ins.take(j as int) =~= ins);
    if items.as_str().is_empty() {
        return String::new();
    }
    let mut r = string_from("<section><h2 id='graf'>Semantičny graf</h2><ul class='compact-list graph-list'>");
    push_str(&mut r, items.as_str());
    push_str(&mut r, "</ul></section>");
    r
}

/// The edges out of `source` among a prefix are a prefix of those among all.
proof fn lemma_edges_from_prefix(edges: Seq<LinkEdge>, source: usize, i: int)
    requires
        0 <= i <= edges.len(),
    ensures
        edges_from(edges.take(i), source).len() <= edges_from(edges, source).len(),
        edges_from(edges.take(i), source) =~= edges_from(edges, source).take(edges_from(edges.take(i), source).len() as int),
    decreases edges.len() - i,
{
    if i < edges.len() {
        lemma_edges_from_prefix(edges, source, i + 1);
        assert(edges.take(i + 1).drop_last() =~= edges.take(i));
    } else {
        assert(edges.take(i) =~= edges);
    }
}

/// Once eighteen outgoing edges are found, the first eighteen of all of them
/// are those.
proof fn lemma_edges_from_len(edges: Seq<LinkEdge>, source: usize, i: int)
    requires
        0 <= i <= edges.len(),
        edges_from(edges.take(i), source).len() == 18,
    ensures
        first18(edges_from(edges, source)) =~= edges_from(edges.take(i), source),
{
    lemma_edges_from_prefix(edges, source, i);
}

/// The ancestor cell of an entry's infobox.
pub open spec fn infobox_root_spec(m: SiteEntryMeta, folded_ancestor: Seq<char>) -> Seq<char> {
    if trim_spec(m.ancestor@).len() == 0 || m.borrowed {
        esc_spec(if m.ancestor@.len() == 0 { "—"@ } else { m.ancestor@ })
    } else {
        "<a href='../root/"@ + slug_spec(folded_ancestor) + ".html'>"@ + esc_spec(m.ancestor@) + "</a>"@
    }
}

/// An entry's infobox.
pub open spec fn infobox_spec(m: SiteEntryMeta, extra_rows: Seq<char>, folded_ancestor: Seq<char>) -> Seq<char> {
    "<aside class='entry-infobox'><table class='wikitable compact-table'><caption>"@ + esc_spec(m.title@)
        + "</caption><tr><th>Čęst rěči</th><td>"@ + esc_spec(pos_code_label_spec(m.pos@, m.pos_heading@))
        + "</td></tr><tr><th>Stav</th><td>"@
        + (if m.official_lemma is Some { "oficialno povezano"@ } else { "generovano"@ })
        + "</td></tr><tr><th>Kvaliteta</th><td>"@ + esc_spec(quality_label_spec(m))
        + "</td></tr><tr><th>Dokaz</th><td>"@ + decimal(m.n_langs as nat) + " jęz. / "@ + decimal(m.n_branches as nat)
        + " vět.</td></tr><tr><th>Tip</th><td>"@ + (if m.borrowed { "zaimka"@ } else { "naslědovano"@ })
        + "</td></tr><tr><th>Predok</th><td>"@ + infobox_root_spec(m, folded_ancestor) + "</td></tr>"@ + extra_rows
        + "<tr><th>ID</th><td>"@ + decimal(m.id as nat) + "</td></tr></table></aside>"@
}

/// An entry's infobox: part of speech, status, quality, evidence, type,
/// the ancestor (linked to its root page when inherited), any extra rows,
/// and the page id. `folded_ancestor` is the standard ASCII fold of the
/// ancestor without its leading asterisks.
pub fn entry_infobox(m: &SiteEntryMeta, extra_rows: &str, folded_ancestor: &str) -> (r: String)
    ensures
        r@ == infobox_spec(*m, extra_rows@, folded_ancestor@),
{
    let root = match crate::site_meta::ancestor_slug(m, folded_ancestor) {
        Some(sl) => {
            let mut x = string_from("<a href='../root/");
            push_str(&mut x, sl.as_str());
            push_str(&mut x, ".html'>");
            push_str(&mut x, esc(m.ancestor.as_str()).as_str());
            push_str(&mut x, "</a>");
            x
        },
        None => if m.ancestor.as_str().is_empty() {
            esc("—")
        } else {
            esc(m.ancestor.as_str())
        },
    };
    let mut r = string_from("<aside class='entry-infobox'><table class='wikitable compact-table'><caption>");
    push_str(&mut r, esc(m.title.as_str()).as_str());
    push_str(&mut r, "</caption><tr><th>Čęst rěči</th><td>");
    push_str(&mut r, esc(pos_code_label(m.pos.as_str(), m.pos_heading.as_str()).as_str()).as_str());
    push_str(&mut r, "</td></tr><tr><th>Stav</th><td>");
    push_str(&mut r, if m.official_lemma.is_some() { "oficialno povezano" } else { "generovano" });
    push_str(&mut r, "</td></tr><tr><th>Kvaliteta</th><td>");
    push_str(&mut r, esc(quality_label(m)).as_str());
    push_str(&mut r, "</td></tr><tr><th>Dokaz</th><td>");
    push_decimal(&mut r, m.n_langs);
    push_str(&mut r, " jęz. / ");
    push_decimal(&mut r, m.n_branches);
    push_str(&mut r, " vět.</td></tr><tr><th>Tip</th><td>");
    push_str(&mut r, if m.borrowed { "zaimka" } else { "naslědovano" });
    push_str(&mut r, "</td></tr><tr><th>Predok</th><td>");
    push_str(&mut r, root.as_str());
    push_str(&mut r, "</td></tr>");
    push_str(&mut r, extra_rows);
    push_str(&mut r, "<tr><th>ID</th><td>");
    push_decimal(&mut r, m.id);
    push_str(&mut r, "</td></tr></table></aside>");
    r
}

/// One line of the ending index.
pub open spec fn suffix_item(name: Seq<char>, n: nat) -> Seq<char> {
    "<li><b>"@ + esc_spec(name) + "</b> <span class='muted'>("@ + compact_spec(n) + ")</span></li>"@
}

/// The ending groups with at least twenty entries, in order, at most
/// eighty of them.
pub open spec fn big_groups(t: Seq<(Seq<char>, usize)>, n: int) -> Seq<(Seq<char>, usize)>
    decreases n,
{
    if n <= 0 {
        Seq::empty()
    } else {
        let pre = big_groups(t, n - 1);
        if t[n - 1].1 >= 20 && pre.len() < 80 { pre.push(t[n - 1]) } else { pre }
    }
}

/// The body of the ending index page.
pub open spec fn suffix_index_body(t: Seq<(Seq<char>, usize)>) -> Seq<char> {
    "<article class='entry'><h1 class='firstHeading'>Indeks po zakončenjah</h1><p class='lede'>Gruby indeks po zakončenjah: koristen za prěgled glagolov, pridavnikov i imennikov po obliku.</p><ul class='compact-list'>"@
        + big_groups(t, t.len() as int).map_values(|g: (Seq<char>, usize)| suffix_item(g.0, g.1 as nat)).flatten()
        + "</ul></article>"@
}

/// The index by ending: the ending groups (given each entry's group, see
/// `suffix_bucket`) that hold at least twenty entries, the first eighty in
/// name order, with their sizes.
pub fn suffix_index_page(buckets: &Vec<String>) -> (r: String)
    ensures
        r@ == site_page_spec("Indeks po zakončenjah"@, suffix_index_body(tally_spec(strs_view(buckets@))), 0),
{
    let groups = count_by(buckets);
    let ghost t = tally_view(groups@);
    let ghost f = |g: (Seq<char>, usize)| suffix_item(g.0, g.1 as nat);
    let mut items = String::new();
    let mut shown: usize = 0;
    let mut i: usize = 0;
    while i < groups.len()
        invariant
            i <= groups@.len(),
            t == tally_view(groups@),
            f == (|g: (Seq<char>, usize)| suffix_item(g.0, g.1 as nat)),
            shown == big_groups(t, i as int).len(),
            shown <= 80,
            items@ == big_groups(t, i as int).map_values(f).flatten(),
        decreases groups@.len() - i,
    {
        let ghost pre = big_groups(t, i as int);
        assert(t[i as int] == (groups@[i as int].0@, groups@[i as int].1));
        if groups[i].1 >= 20 && shown < 80 {
            push_str(&mut items, "<li><b>");
            push_str(&mut items, esc(groups[i].0.as_str()).as_str());
            push_str(&mut items, "</b> <span class='muted'>(");
            push_str(&mut items, compact(groups[i].1).as_str());
            push_str(&mut items, ")</span></li>");
            proof {
                let post = big_groups(t, i + 1);
                assert(post == pre.push(t[i as int]));
                crate::strs::lemma_flat_map_step(post, pre.len() as int, f);
                assert(post.take(pre.len() as int) =~= pre);
                assert(post.take(pre.len() as int + 1) =~= post);
            }
            shown += 1;
        }
        i += 1;
    }
    let mut body = string_from(
        "<article class='entry'><h1 class='firstHeading'>Indeks po zakončenjah</h1><p class='lede'>Gruby indeks po zakončenjah: koristen za prěgled glagolov, pridavnikov i imennikov po obliku.</p><ul class='compact-list'>",
    );
    push_str(&mut body, items.as_str());
    push_str(&mut body, "</ul></article>");
    site_page("Indeks po zakončenjah", body.as_str(), 0)
}

/// The fixed rows that close an entry's sources table.
pub open spec fn fixed_reference_rows() -> Seq<char> {
    "<tr><th>Srodne slova</th><td>anglijska Wiktionary + narodne Wiktionary</td><td>CC BY-SA; konkretne linky sųt v tablicah vyše</td></tr>"@
        + "<tr><th>Prěgibanje</th><td>interslavic-rs</td><td>mašinno generovane formy</td></tr>"@
        + "<tr><th>Generator</th><td><a href='https://github.com/gold-silver-copper/Slovowiki'>izvorny kod</a></td><td>pravila, indeks iskanja, statičny eksport</td></tr>"@
}

/// The ancestor row of an entry's sources table.
pub open spec fn ancestor_row_spec(m: SiteEntryMeta, folded_ancestor: Seq<char>) -> Seq<char> {
    if trim_spec(m.ancestor@).len() == 0 {
        Seq::empty()
    } else if m.borrowed {
        "<tr><th>Etimon</th><td><span class='mention'>"@ + esc_spec(m.ancestor@)
            + "</span></td><td>zaimka / internacionalizm</td></tr>"@
    } else {
        let p = strip_prefix_all(m.ancestor@, "*"@);
        "<tr><th>Praslovjansky prědȯk</th><td><a href='https://en.wiktionary.org/wiki/Reconstruction:Proto-Slavic/"@
            + esc_spec(p) + "'>*"@ + esc_spec(p) + "</a>"@ + "; <a href='../root/"@ + slug_spec(folded_ancestor)
            + ".html'>korenj-strana</a>"@ + "</td><td>rekonstrukcija Wiktionary</td></tr>"@
    }
}

/// An entry's sources table.
pub open spec fn references_spec(m: SiteEntryMeta, folded_ancestor: Seq<char>) -> Seq<char> {
    "<section><h2 id='references'>Izvory</h2><table class='wikitable source-table'><tbody>"@
        + (match m.official_lemma {
            Some(isv) => "<tr><th>Oficialny slovnik</th><td><span class='mention'>"@ + esc_spec(isv@)
                + "</span></td><td>lemmat / validacija</td></tr>"@,
            None => Seq::empty(),
        }) + ancestor_row_spec(m, folded_ancestor) + fixed_reference_rows() + "</tbody></table></section>"@
}

/// An entry's sources: the official lemma, the etymon of a borrowing or the
/// Proto-Slavic ancestor with its Wiktionary reconstruction and root page,
/// then the cognate, inflection and generator sources. `folded_ancestor` is
/// the standard ASCII fold of the ancestor without its leading asterisks.
pub fn references_block(m: &SiteEntryMeta, folded_ancestor: &str) -> (r: String)
    ensures
        r@ == references_spec(*m, folded_ancestor@),
{
    let mut rows = String::new();
    match &m.official_lemma {
        Some(isv) => {
            push_str(&mut rows, "<tr><th>Oficialny slovnik</th><td><span class='mention'>");
            push_str(&mut rows, esc(isv.as_str()).as_str());
            push_str(&mut rows, "</span></td><td>lemmat / validacija</td></tr>");
        },
        None => {},
    }
    let ghost off = rows@;
    if !trim_is_empty(m.ancestor.as_str()) {
        if m.borrowed {
            push_str(&mut rows, "<tr><th>Etimon</th><td><span class='mention'>");
            push_str(&mut rows, esc(m.ancestor.as_str()).as_str());
            push_str(&mut rows, "</span></td><td>zaimka / internacionalizm</td></tr>");
        } else {
            let p = strip_stars(m.ancestor.as_str());
            let root = match crate::site_meta::ancestor_slug(m, folded_ancestor) {
                Some(sl) => {
                    let mut x = string_from("; <a href='../root/");
                    push_str(&mut x, sl.as_str());
                    push_str(&mut x, ".html'>korenj-strana</a>");
                    x
                },
                None => String::new(),
            };
            push_str(&mut rows, "<tr><th>Praslovjansky prědȯk</th><td><a href='https://en.wiktionary.org/wiki/Reconstruction:Proto-Slavic/");
            push_str(&mut rows, esc(p.as_str()).as_str());
            push_str(&mut rows, "'>*");
            push_str(&mut rows, esc(p.as_str()).as_str());
            push_str(&mut rows, "</a>");
            push_str(&mut rows, root.as_str());
            push_str(&mut rows, "</td><td>rekonstrukcija Wiktionary</td></tr>");
        }
    }
    assert(rows@ =~= off + ancestor_row_spec(*m, folded_ancestor@));
    push_str(&mut rows, "<tr><th>Srodne slova</th><td>anglijska Wiktionary + narodne Wiktionary</td><td>CC BY-SA; konkretne linky sųt v tablicah vyše</td></tr>");
    push_str(&mut rows, "<tr><th>Prěgibanje</th><td>interslavic-rs</td><td>mašinno generovane formy</td></tr>");
    push_str(&mut rows, "<tr><th>Generator</th><td><a href='https://github.com/gold-silver-copper/Slovowiki'>izvorny kod</a></td><td>pravila, indeks iskanja, statičny eksport</td></tr>");
    let mut r = string_from("<section><h2 id='references'>Izvory</h2><table class='wikitable source-table'><tbody>");
    push_str(&mut r, rows.as_str());
    push_str(&mut r, "</tbody></table></section>");
    assert(r@ =~= references_spec(*m, folded_ancestor@));
    r
}

/// `true` or `false`, as JSON writes it.
pub open spec fn json_bool(b: bool) -> Seq<char> {
    if b { "true"@ } else { "false"@ }
}

/// The first fields of an entry in `entries.json`.
pub open spec fn entry_json_head(m: SiteEntryMeta) -> Seq<char> {
    "{\"id\":"@ + decimal(m.id as nat) + ",\"title\":"@ + json_str_spec(m.title@) + ",\"gloss\":"@ + json_str_spec(m.gloss@)
        + ",\"pos\":"@ + json_str_spec(m.pos@) + ",\"quality\":"@ + json_str_spec(quality_label_spec(m))
}

/// The last fields of an entry in `entries.json`.
pub open spec fn entry_json_tail(m: SiteEntryMeta) -> Seq<char> {
    ",\"confidence\":"@ + json_str_spec(m.conf_label@) + ",\"langs\":"@ + decimal(m.n_langs as nat)
        + ",\"branches\":"@ + decimal(m.n_branches as nat) + ",\"borrowed\":"@ + json_bool(m.borrowed)
        + ",\"official\":"@ + json_bool(m.official_lemma is Some) + ",\"ancestor\":"@ + json_str_spec(m.ancestor@) + "}"@
}

/// One entry of `entries.json`.
pub open spec fn entry_json_spec(m: SiteEntryMeta) -> Seq<char> {
    entry_json_head(m) + entry_json_tail(m)
}

/// The entries joined with a comma and a newline.
pub open spec fn joined_lines(parts: Seq<Seq<char>>) -> Seq<char> {
    join_spec(parts, ",\n"@)
}

fn push_bool(s: &mut String, b: bool)
    ensures
        final(s)@ == old(s)@ + json_bool(b),
{
    if b {
        push_str(s, "true");
    } else {
        push_str(s, "false");
    }
}

fn push_entry_json(s: &mut String, m: &SiteEntryMeta)
    ensures
        final(s)@ == old(s)@ + entry_json_spec(*m),
{
    push_entry_json_head(s, m);
    push_entry_json_tail(s, m);
    assert(final(s)@ =~= old(s)@ + entry_json_spec(*m));
}

fn push_entry_json_head(s: &mut String, m: &SiteEntryMeta)
    ensures
        final(s)@ == old(s)@ + entry_json_head(*m),
{
    push_str(s, "{\"id\":");
    push_decimal(s, m.id);
    push_str(s, ",\"title\":");
    push_str(s, json_str(m.title.as_str()).as_str());
    push_str(s, ",\"gloss\":");
    push_str(s, json_str(m.gloss.as_str()).as_str());
    push_str(s, ",\"pos\":");
    push_str(s, json_str(m.pos.as_str()).as_str());
    push_str(s, ",\"quality\":");
    push_str(s, json_str(quality_label(m)).as_str());
}

fn push_entry_json_tail(s: &mut String, m: &SiteEntryMeta)
    ensures
        final(s)@ == old(s)@ + entry_json_tail(*m),
{
    push_str(s, ",\"confidence\":");
    push_str(s, json_str(m.conf_label.as_str()).as_str());
    push_str(s, ",\"langs\":");
    push_decimal(s, m.n_langs);
    push_str(s, ",\"branches\":");
    push_decimal(s, m.n_branches);
    push_str(s, ",\"borrowed\":");
    push_bool(s, m.borrowed);
    push_str(s, ",\"official\":");
    push_bool(s, m.official_lemma.is_some());
    push_str(s, ",\"ancestor\":");
    push_str(s, json_str(m.ancestor.as_str()).as_str());
    push_str(s, "}");
}

/// `entries.json`: one object per entry with its id, title, gloss, part of
/// speech, quality, confidence, evidence, borrowing and official flags, and
/// ancestor.
pub fn entries_json(metas: &Vec<SiteEntryMeta>) -> (r: String)
    ensures
        r@ == "[\n"@ + joined_lines(metas@.map_values(|m: SiteEntryMeta| entry_json_spec(m))) + "\n]\n"@,
{
    let ghost parts = metas@.map_values(|m: SiteEntryMeta| entry_json_spec(m));
    let mut s = string_from("[\n");
    let ghost h = s@;
    let mut i: usize = 0;
    assert(parts.take(0) =~= Seq::<Seq<char>>::empty());
    while i < metas.len()
        invariant
            i <= metas@.len(),
            parts == metas@.map_values(|m: SiteEntryMeta| entry_json_spec(m)),
            s@ == h + joined_lines(parts.take(i as int)),
        decreases metas@.len() - i,
    {
        if i > 0 {
            push_str(&mut s, ",\n");
        }
        push_entry_json(&mut s, &metas[i]);
        assert(parts.take(i + 1).drop_last() =~= parts.take(i as int));
        assert(s@ =~= h + joined_lines(parts.take(i + 1)));
        i += 1;
    }
    assert(parts.take(i as int) =~= parts);
    push_str(&mut s, "\n]\n");
    s
}

/// One root of `roots.json`: its name and the ids of its entries.
pub open spec fn root_json_spec(root: Seq<char>, ids: Seq<usize>) -> Seq<char> {
    "  "@ + json_str_spec(root) + ": ["@ + comma_join(ids.map_values(|id: usize| decimal(id as nat))) + "]"@
}

/// The ids joined with commas.
fn push_ids(s: &mut String, ids: &Vec<usize>)
    ensures
        final(s)@ == old(s)@ + comma_join(ids@.map_values(|id: usize| decimal(id as nat))),
{
    let ghost parts = ids@.map_values(|id: usize| decimal(id as nat));
    let ghost h = s@;
    let mut i: usize = 0;
    assert(parts.take(0) =~= Seq::<Seq<char>>::empty());
    while i < ids.len()
        invariant
            i <= ids@.len(),
            parts == ids@.map_values(|id: usize| decimal(id as nat)),
            s@ == h + comma_join(parts.take(i as int)),
        decreases ids@.len() - i,
    {
        if i > 0 {
            push_str(s, ",");
            proof { reveal_strlit(","); }
        }
        push_decimal(s, ids[i]);
        proof {
            lemma_comma_join_push(parts, i as int);
        }
        assert(s@ =~= h + comma_join(parts.take(i + 1)));
        i += 1;
    }
    assert(parts.take(i as int) =~= parts);
}

/// `roots.json`: for every root page, in order, the ids of its entries.
pub fn roots_json(roots: &Vec<(String, Vec<usize>)>) -> (r: String)
    ensures
        r@ == "{\n"@ + joined_lines(roots@.map_values(|e: (String, Vec<usize>)| root_json_spec(e.0@, e.1@))) + "\n}\n"@,
{
    let ghost parts = roots@.map_values(|e: (String, Vec<usize>)| root_json_spec(e.0@, e.1@));
    let mut s = string_from("{\n");
    let ghost h = s@;
    let mut i: usize = 0;
    assert(parts.take(0) =~= Seq::<Seq<char>>::empty());
    while i < roots.len()
        invariant
            i <= roots@.len(),
            parts == roots@.map_values(|e: (String, Vec<usize>)| root_json_spec(e.0@, e.1@)),
            s@ == h + joined_lines(parts.take(i as int)),
        decreases roots@.len() - i,
    {
        if i > 0 {
            push_str(&mut s, ",\n");
        }
        push_str(&mut s, "  ");
        push_str(&mut s, json_str(roots[i].0.as_str()).as_str());
        push_str(&mut s, ": [");
        push_ids(&mut s, &roots[i].1);
        push_str(&mut s, "]");
        assert(parts.take(i + 1).drop_last() =~= parts.take(i as int));
        assert(s@ =~= h + joined_lines(parts.take(i + 1)));
        i += 1;
    }
    assert(parts.take(i as int) =~= parts);
    push_str(&mut s, "\n}\n");
    s
}

/// The size of the first homograph group with fold `key`.
pub open spec fn group_size(groups: Seq<(Seq<char>, nat)>, key: Seq<char>) -> Option<nat>
    decreases groups.len(),
{
    if groups.len() == 0 {
        None
    } else if groups[0].0 == key {
        Some(groups[0].1)
    } else {
        group_size(groups.drop_first(), key)
    }
}

/// Homograph groups over plain values: each fold with its group's size.
pub open spec fn group_sizes(groups: Seq<(String, Vec<usize>)>) -> Seq<(Seq<char>, nat)> {
    groups.map_values(|g: (String, Vec<usize>)| (g.0@, g.1@.len()))
}

/// The disambiguation notice of a title.
pub open spec fn homograph_notice_spec(groups: Seq<(Seq<char>, nat)>, key: Seq<char>, folded_key: Seq<char>) -> Seq<char> {
    match group_size(groups, key) {
        Some(n) => if n >= 2 {
            "<div class='notice dab'>Ta napis imaje <b>"@ + decimal(n) + "</b> značenja. <a href='../homograph/"@
                + slug_spec(folded_key) + ".html'>Ględi raznoznačnosť</a>.</div>"@
        } else {
            Seq::empty()
        },
        None => Seq::empty(),
    }
}

/// The notice on an entry whose title is shared by other entries, linking
/// to the disambiguation page; nothing otherwise. `key` is the title folded
/// to lowercase standard spelling, `folded_key` its ASCII fold, `groups` the
/// homograph groups (see `homograph_groups`).
pub fn homograph_notice(key: &str, folded_key: &str, groups: &Vec<(String, Vec<usize>)>) -> (r: String)
    ensures
        r@ == homograph_notice_spec(group_sizes(groups@), key@, folded_key@),
{
    let ghost gs = group_sizes(groups@);
    let mut i: usize = 0;
    assert(gs.skip(0) =~= gs);
    while i < groups.len()
        invariant
            i <= groups@.len(),
            gs == group_sizes(groups@),
            group_size(gs, key@) == group_size(gs.skip(i as int), key@),
        decreases groups@.len() - i,
    {
        assert(gs.skip(i as int)[0] == gs[i as int]);
        assert(gs.skip(i as int).drop_first() =~= gs.skip(i + 1));
        if str_eq(groups[i].0.as_str(), key) {
            let n = groups[i].1.len();
            if n < 2 {
                return String::new();
            }
            let mut r = string_from("<div class='notice dab'>Ta napis imaje <b>");
            push_decimal(&mut r, n);
            push_str(&mut r, "</b> značenja. <a href='../homograph/");
            push_str(&mut r, slug(folded_key).as_str());
            push_str(&mut r, ".html'>Ględi raznoznačnosť</a>.</div>");
            return r;
        }
        i += 1;
    }
    assert(gs.skip(i as int) =~= Seq::<(Seq<char>, nat)>::empty());
    String::new()
}

} // verus!

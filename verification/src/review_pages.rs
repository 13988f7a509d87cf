//! The curation pages over lists of entries: which entries need review and
//! the review list, the simple index pages, and the borrowings portal.

use vstd::prelude::*;
use crate::categories::strs_view;
use crate::category_tree::{metas_at, render_word_table_at};
use crate::coverage::tally_spec;
use crate::graph::{counts_table, counts_table_spec};
use crate::layout::{esc, esc_spec};
use crate::model::Confidence;
use crate::pages::{site_page, site_page_spec};
use crate::site_meta::{
    borrowing_source, borrowing_source_spec, count_by, pos_code_label, pos_code_label_spec, render_word_table,
    word_table_spec, SiteEntryMeta,
};
use crate::stats::{index_summary, index_summary_spec};
use crate::strs::{push_str, string_from};

verus! {

/// Whether an entry belongs on the review list: no official lemma, low
/// confidence, a single branch, fewer than three languages, or a low
/// generator score (`low_score`: the score is under 0.45).
pub open spec fn needs_review_spec(m: SiteEntryMeta, low_score: bool) -> bool {
    m.official_lemma is None || m.conf == Confidence::Low || m.n_branches < 2 || m.n_langs < 3 || low_score
}

/// Whether an entry belongs on the review list (see `needs_review_spec`).
pub fn needs_review(m: &SiteEntryMeta, low_score: bool) -> (r: bool)
    ensures
        r == needs_review_spec(*m, low_score),
{
    m.official_lemma.is_none() || matches!(m.conf, Confidence::Low) || m.n_branches < 2 || m.n_langs < 3 || low_score
}

/// The three review sections: low confidence, one branch, no official
/// lemma.
pub open spec fn review_kind(m: SiteEntryMeta, kind: int) -> bool {
    if kind == 0 {
        m.conf == Confidence::Low
    } else if kind == 1 {
        m.n_branches < 2
    } else {
        m.official_lemma is None
    }
}

/// The positions of the first `n` entries that belong to a section, in order.
pub open spec fn kind_positions(rows: Seq<SiteEntryMeta>, kind: int, n: int) -> Seq<usize>
    decreases n,
{
    if n <= 0 {
        Seq::empty()
    } else if review_kind(rows[n - 1], kind) {
        kind_positions(rows, kind, n - 1).push((n - 1) as usize)
    } else {
        kind_positions(rows, kind, n - 1)
    }
}

proof fn lemma_kind_positions_below(rows: Seq<SiteEntryMeta>, kind: int, n: int)
    requires
        0 <= n <= rows.len(),
    ensures
        forall|j: int| 0 <= j < kind_positions(rows, kind, n).len() ==> (#[trigger] kind_positions(rows, kind, n)[j]) < n,
    decreases n,
{
    if n > 0 {
        lemma_kind_positions_below(rows, kind, n - 1);
        let pre = kind_positions(rows, kind, n - 1);
        if review_kind(rows[n - 1], kind) {
            assert forall|j: int| 0 <= j < pre.push((n - 1) as usize).len() implies (#[trigger] pre.push((n - 1) as usize)[j]) < n by {
                if j < pre.len() {
                    assert(pre.push((n - 1) as usize)[j] == pre[j]);
                }
            }
        }
    }
}

fn positions_of_kind(rows: &Vec<SiteEntryMeta>, kind: u8) -> (r: Vec<usize>)
    requires
        kind < 3,
    ensures
        r@ == kind_positions(rows@, kind as int, rows@.len() as int),
        forall|j: int| 0 <= j < r@.len() ==> (#[trigger] r@[j]) < rows@.len(),
{
    let mut r: Vec<usize> = Vec::new();
    let mut i: usize = 0;
    while i < rows.len()
        invariant
            i <= rows@.len(),
            kind < 3,
            r@ == kind_positions(rows@, kind as int, i as int),
        decreases rows@.len() - i,
    {
        let m = &rows[i];
        let hit = if kind == 0 {
            matches!(m.conf, Confidence::Low)
        } else if kind == 1 {
            m.n_branches < 2
        } else {
            m.official_lemma.is_none()
        };
        if hit {
            r.push(i);
        }
        i += 1;
    }
    proof {
        lemma_kind_positions_below(rows@, kind as int, rows@.len() as int);
    }
    r
}

/// The body of the review list over the entries that need review.
pub open spec fn review_body(review: Seq<SiteEntryMeta>, avg_langs: Seq<char>) -> Seq<char> {
    let n = review.len() as int;
    "<article class='entry'><h1 class='firstHeading'>Speciaľno:TrěbujePrověrky</h1><p class='lede'>Kuratorska robota: strany zapisov s nizkoj uvěrjenostju, malym pokrytjem ili bez oficialnogo sovpadenja.</p>"@
        + index_summary_spec(review, avg_langs) + "<h2 id='nizka'>Nizka uvěrjenost</h2>"@
        + word_table_spec(metas_at(review, kind_positions(review, 0, n)), ""@)
        + "<h2 id='jedna-vetv'>Samo jedna větv</h2>"@ + word_table_spec(metas_at(review, kind_positions(review, 1, n)), ""@)
        + "<h2 id='neoficialne'>Samo generovane</h2>"@
        + word_table_spec(metas_at(review, kind_positions(review, 2, n)), ""@) + "</article>"@
}

/// The review list page over the entries that need review (`review`, in
/// order; see `needs_review`): their summary (`avg_langs` is their average
/// number of languages, printed), then those with low confidence, with one
/// branch, and without an official lemma.
pub fn needs_review_page(review: &Vec<SiteEntryMeta>, avg_langs: &str) -> (r: String)
    ensures
        r@ == site_page_spec("Speciaľno:TrěbujePrověrky"@, review_body(review@, avg_langs@), 0),
{
    let low = positions_of_kind(review, 0);
    let one = positions_of_kind(review, 1);
    let gen = positions_of_kind(review, 2);
    let mut b = string_from("<article class='entry'><h1 class='firstHeading'>Speciaľno:TrěbujePrověrky</h1><p class='lede'>Kuratorska robota: strany zapisov s nizkoj uvěrjenostju, malym pokrytjem ili bez oficialnogo sovpadenja.</p>");
    push_str(&mut b, index_summary(review, avg_langs).as_str());
    push_str(&mut b, "<h2 id='nizka'>Nizka uvěrjenost</h2>");
    push_str(&mut b, render_word_table_at(review, &low, "").as_str());
    push_str(&mut b, "<h2 id='jedna-vetv'>Samo jedna větv</h2>");
    push_str(&mut b, render_word_table_at(review, &one, "").as_str());
    push_str(&mut b, "<h2 id='neoficialne'>Samo generovane</h2>");
    push_str(&mut b, render_word_table_at(review, &gen, "").as_str());
    push_str(&mut b, "</article>");
    site_page("Speciaľno:TrěbujePrověrky", b.as_str(), 0)
}

/// The part-of-speech labels of entries.
pub open spec fn pos_labels(rows: Seq<SiteEntryMeta>) -> Seq<Seq<char>> {
    rows.map_values(|m: SiteEntryMeta| pos_code_label_spec(m.pos@, m.pos_heading@))
}

/// The confidence labels of entries.
pub open spec fn conf_labels(rows: Seq<SiteEntryMeta>) -> Seq<Seq<char>> {
    rows.map_values(|m: SiteEntryMeta| m.conf_label@)
}

/// The source-language labels of borrowings.
pub open spec fn source_labels(rows: Seq<SiteEntryMeta>) -> Seq<Seq<char>> {
    rows.map_values(|m: SiteEntryMeta| borrowing_source_spec(m.ancestor@))
}

/// The body of a simple index page.
pub open spec fn simple_index_body(title: Seq<char>, intro: Seq<char>, rows: Seq<SiteEntryMeta>, depth: nat, avg_langs: Seq<char>) -> Seq<char> {
    "<article class='entry'><h1 class='firstHeading'>"@ + esc_spec(title) + "</h1><p>"@ + esc_spec(intro) + "</p>"@
        + index_summary_spec(rows, avg_langs) + "<div class='stat-grid wiki-stats'>"@
        + counts_table_spec("Čęsti rěči"@, tally_spec(pos_labels(rows))) + counts_table_spec("Uvěrjenost"@, tally_spec(conf_labels(rows)))
        + "</div>"@ + word_table_spec(rows, if depth == 0 { ""@ } else { "../"@ }) + "</article>"@
}

fn labels_of(rows: &Vec<SiteEntryMeta>, which: u8) -> (r: Vec<String>)
    requires
        which < 3,
    ensures
        strs_view(r@) == if which == 0 {
            pos_labels(rows@)
        } else if which == 1 {
            conf_labels(rows@)
        } else {
            source_labels(rows@)
        },
{
    let ghost want = if which == 0 {
        pos_labels(rows@)
    } else if which == 1 {
        conf_labels(rows@)
    } else {
        source_labels(rows@)
    };
    let mut r: Vec<String> = Vec::new();
    let mut i: usize = 0;
    while i < rows.len()
        invariant
            i <= rows@.len(),
            which < 3,
            want == (if which == 0 {
                pos_labels(rows@)
            } else if which == 1 {
                conf_labels(rows@)
            } else {
                source_labels(rows@)
            }),
            strs_view(r@) == want.take(i as int),
        decreases rows@.len() - i,
    {
        let m = &rows[i];
        let l = if which == 0 {
            pos_code_label(m.pos.as_str(), m.pos_heading.as_str())
        } else if which == 1 {
            string_from(m.conf_label.as_str())
        } else {
            borrowing_source(m)
        };
        let ghost lv = l@;
        assert(lv == want[i as int]);
        let ghost before = strs_view(r@);
        r.push(l);
        assert(strs_view(r@) =~= before.push(lv));
        assert(want.take(i + 1) =~= want.take(i as int).push(want[i as int]));
        i += 1;
    }
    assert(want.take(i as int) =~= want);
    r
}

/// A simple index page: the summary (`avg_langs` is the entries' average
/// number of languages, printed), the counts by part of speech and by
/// confidence, and the word table.
pub fn simple_index_page(title: &str, intro: &str, rows: &Vec<SiteEntryMeta>, depth: usize, avg_langs: &str) -> (r: String)
    ensures
        r@ == site_page_spec(title@, simple_index_body(title@, intro@, rows@, depth as nat, avg_langs@), depth as nat),
{
    let up = if depth == 0 { "" } else { "../" };
    let pos = count_by(&labels_of(rows, 0));
    let conf = count_by(&labels_of(rows, 1));
    let mut b = string_from("<article class='entry'><h1 class='firstHeading'>");
    push_str(&mut b, esc(title).as_str());
    push_str(&mut b, "</h1><p>");
    push_str(&mut b, esc(intro).as_str());
    push_str(&mut b, "</p>");
    push_str(&mut b, index_summary(rows, avg_langs).as_str());
    push_str(&mut b, "<div class='stat-grid wiki-stats'>");
    push_str(&mut b, counts_table("Čęsti rěči", &pos).as_str());
    push_str(&mut b, counts_table("Uvěrjenost", &conf).as_str());
    push_str(&mut b, "</div>");
    push_str(&mut b, render_word_table(rows, up).as_str());
    push_str(&mut b, "</article>");
    site_page(title, b.as_str(), depth)
}

/// The body of the borrowings portal.
pub open spec fn borrowing_body(rows: Seq<SiteEntryMeta>, order: Seq<usize>, avg_langs: Seq<char>) -> Seq<char> {
    "<article class='entry'><h1 class='firstHeading'>Portal: Pozajęta slova i internacionalizmy</h1><p class='lede'>Slova grupovane po neslovjanskom etimonu ili internacionalnom fonemičnom skeletu.</p>"@
        + index_summary_spec(rows, avg_langs) + "<div class='stat-grid wiki-stats'>"@
        + counts_table_spec("Izvorni języky"@, tally_spec(source_labels(rows))) + "</div><h2 id='najsilne'>Najširše dokazane zaimky</h2>"@
        + word_table_spec(metas_at(rows, order), ""@) + "<h2 id='vse'>Vse zaimky</h2>"@ + word_table_spec(rows, ""@)
        + "</article>"@
}

/// The borrowings portal: the summary, the counts by source language, the
/// borrowings in `order` (most widely attested first), and all of them.
pub fn borrowing_portal_page(rows: &Vec<SiteEntryMeta>, order: &Vec<usize>, avg_langs: &str) -> (r: String)
    requires
        forall|j: int| 0 <= j < order@.len() ==> (#[trigger] order@[j]) < rows@.len(),
    ensures
        r@ == site_page_spec("Portal: Pozajęta slova i internacionalizmy"@, borrowing_body(rows@, order@, avg_langs@), 0),
{
    let sources = count_by(&labels_of(rows, 2));
    let mut b = string_from("<article class='entry'><h1 class='firstHeading'>Portal: Pozajęta slova i internacionalizmy</h1><p class='lede'>Slova grupovane po neslovjanskom etimonu ili internacionalnom fonemičnom skeletu.</p>");
    push_str(&mut b, index_summary(rows, avg_langs).as_str());
    push_str(&mut b, "<div class='stat-grid wiki-stats'>");
    push_str(&mut b, counts_table("Izvorni języky", &sources).as_str());
    push_str(&mut b, "</div><h2 id='najsilne'>Najširše dokazane zaimky</h2>");
    push_str(&mut b, render_word_table_at(rows, order, "").as_str());
    push_str(&mut b, "<h2 id='vse'>Vse zaimky</h2>");
    push_str(&mut b, render_word_table(rows, "").as_str());
    push_str(&mut b, "</article>");
    site_page("Portal: Pozajęta slova i internacionalizmy", b.as_str(), 0)
}

} // verus!

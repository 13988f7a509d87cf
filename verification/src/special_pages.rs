//! Maintenance lists among the special pages.

use vstd::prelude::*;
use crate::categories::strs_view;
use crate::category_tree::{lemma_sorted_pages_below, metas_at, render_word_table_at, sort_node_pages, sort_pages};
use crate::pages::{site_page, site_page_spec};
use crate::site_meta::{word_table_spec, SiteEntryMeta};
use crate::strs::{contains_sub, push_str, str_contains, str_eq, string_from};

verus! {

/// Whether a part of speech is one the inflector covers.
pub open spec fn inflected_pos(pos: Seq<char>) -> bool {
    pos == "noun"@ || pos == "proper_noun"@ || pos == "adj"@ || pos == "verb"@
}

/// Whether an entry's inflection is incomplete: it is inflected and its
/// table has a gap (`—`).
pub open spec fn inflection_issue_spec(m: SiteEntryMeta, table: Seq<char>) -> bool {
    inflected_pos(m.pos@) && contains_sub(table, "—"@)
}

/// Whether the entry, whose inflection table is `table`, has an incomplete
/// inflection.
pub fn inflection_issue(m: &SiteEntryMeta, table: &str) -> (r: bool)
    ensures
        r == inflection_issue_spec(*m, table@),
{
    let p = m.pos.as_str();
    let inflected = str_eq(p, "noun") || str_eq(p, "proper_noun") || str_eq(p, "adj") || str_eq(p, "verb");
    inflected && str_contains(table, "—")
}

/// The positions among the first `n` entries whose inflection is
/// incomplete.
pub open spec fn issue_positions(rows: Seq<SiteEntryMeta>, tables: Seq<Seq<char>>, n: int) -> Seq<usize>
    decreases n,
{
    if n <= 0 {
        Seq::empty()
    } else {
        issue_positions(rows, tables, n - 1) + if inflection_issue_spec(rows[n - 1], tables[n - 1]) {
            seq![(n - 1) as usize]
        } else {
            Seq::empty()
        }
    }
}

/// The body of the inflection-issues page.
pub open spec fn issues_body(rows: Seq<SiteEntryMeta>, tables: Seq<Seq<char>>, skeletons: Seq<Seq<char>>) -> Seq<char> {
    "<article class='entry'><h1 class='firstHeading'>Speciaľno:ProblemyPrěgibanja</h1><p class='lede'>Stran zapisovy, gdě prěgibanje je nepolno ili vrnulo —. To je praktičny spis za popravki v interslavic-rs.</p>"@
        + word_table_spec(
        metas_at(rows, sort_pages(issue_positions(rows, tables, rows.len() as int), skeletons)),
        ""@,
    ) + "</article>"@
}

/// The special page listing the entries whose inflection is incomplete, in
/// order of their titles' ASCII skeletons. `tables[i]` is the inflection
/// table of `rows[i]` and `skeletons[i]` the skeleton of its title.
pub fn inflection_issues_page(rows: &Vec<SiteEntryMeta>, tables: &Vec<String>, skeletons: &Vec<String>) -> (r: String)
    requires
        tables@.len() == rows@.len(),
        skeletons@.len() == rows@.len(),
    ensures
        r@ == site_page_spec(
            "Speciaľno:ProblemyPrěgibanja"@,
            issues_body(rows@, strs_view(tables@), strs_view(skeletons@)),
            0,
        ),
{
    let ghost tv = strs_view(tables@);
    let mut pos: Vec<usize> = Vec::new();
    let mut i: usize = 0;
    while i < rows.len()
        invariant
            tv == strs_view(tables@),
            tables@.len() == rows@.len(),
            i <= rows@.len(),
            pos@ == issue_positions(rows@, tv, i as int),
            forall|j: int| 0 <= j < pos@.len() ==> (#[trigger] pos@[j]) < i,
        decreases rows@.len() - i,
    {
        assert(tv[i as int] == tables@[i as int]@);
        if inflection_issue(&rows[i], tables[i].as_str()) {
            pos.push(i);
        }
        i += 1;
    }
    proof {
        lemma_sorted_pages_below(pos@, strs_view(skeletons@), rows@.len() as int);
    }
    let sorted = sort_node_pages(&pos, skeletons);
    let mut body = string_from("<article class='entry'><h1 class='firstHeading'>Speciaľno:ProblemyPrěgibanja</h1><p class='lede'>Stran zapisovy, gdě prěgibanje je nepolno ili vrnulo —. To je praktičny spis za popravki v interslavic-rs.</p>");
    push_str(&mut body, render_word_table_at(rows, &sorted, "").as_str());
    push_str(&mut body, "</article>");
    site_page("Speciaľno:ProblemyPrěgibanja", body.as_str(), 0)
}

} // verus!

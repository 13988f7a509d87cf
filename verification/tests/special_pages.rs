use slovowiki::model::{Confidence, MatchStatus};
use slovowiki::site_meta::SiteEntryMeta;
use slovowiki::special_pages::{inflection_issue, inflection_issues_page};

fn s(v: &str) -> String {
    v.to_string()
}

fn meta(id: usize, title: &str, pos: &str) -> SiteEntryMeta {
    SiteEntryMeta {
        id,
        title: s(title),
        gloss: s("g"),
        pos: s(pos),
        pos_heading: s("h"),
        status: MatchStatus::NoOfficialEntry,
        conf: Confidence::Medium,
        conf_label: s("srědnja"),
        n_langs: 2,
        n_branches: 1,
        borrowed: false,
        official_only: false,
        raw: false,
        official_lemma: None,
        ancestor: s(""),
        languages: vec![s("pl")],
        first: s("X"),
        categories: Vec::new(),
        aspect: None,
        aspect_partners: Vec::new(),
    }
}

#[test]
fn an_issue_is_a_gap_in_an_inflected_word() {
    assert!(inflection_issue(&meta(1, "dom", "noun"), "<td>—</td>"));
    assert!(!inflection_issue(&meta(1, "dom", "noun"), "<td>doma</td>"));
    assert!(!inflection_issue(&meta(1, "tu", "adv"), "<td>—</td>"));
    assert!(inflection_issue(&meta(1, "Praha", "proper_noun"), "—"));
}

#[test]
fn issues_are_listed_in_skeleton_order() {
    let rows = vec![meta(1, "žena", "noun"), meta(2, "byti", "verb"), meta(3, "tu", "adv"), meta(4, "dobry", "adj")];
    let tables = vec![s("—"), s("—"), s("—"), s("ok")];
    let skeletons = vec![s("zena"), s("byti"), s("tu"), s("dobry")];
    let page = inflection_issues_page(&rows, &tables, &skeletons);
    assert!(page.contains("<title>Speciaľno:ProblemyPrěgibanja</title>"));
    let b = page.find("entry/2.html").unwrap();
    let z = page.find("entry/1.html").unwrap();
    assert!(b < z);
    assert!(!page.contains("entry/3.html"));
    assert!(!page.contains("entry/4.html"));
}

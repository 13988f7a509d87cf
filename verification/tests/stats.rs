use slovowiki::graph::LinkEdge;
use slovowiki::model::{Confidence, MatchStatus};
use slovowiki::pages::BuildMeta;
use slovowiki::site_meta::SiteEntryMeta;
use slovowiki::stats::site_stats_page;

fn s(v: &str) -> String {
    v.to_string()
}

fn meta(id: usize, pos: &str, langs: &[&str], official: bool, borrowed: bool) -> SiteEntryMeta {
    SiteEntryMeta {
        id,
        title: format!("t{id}"),
        gloss: s("g"),
        pos: s(pos),
        pos_heading: s(if pos == "noun" { "imennik" } else { "glagol" }),
        status: MatchStatus::NoOfficialEntry,
        conf: Confidence::Medium,
        conf_label: s("srědnja"),
        n_langs: langs.len(),
        n_branches: 2,
        borrowed,
        official_only: false,
        raw: false,
        official_lemma: if official { Some(s("x")) } else { None },
        ancestor: s(""),
        languages: langs.iter().map(|l| s(l)).collect(),
        first: s("T"),
        categories: Vec::new(),
        aspect: None,
        aspect_partners: Vec::new(),
    }
}

#[test]
fn stats_count_entries_and_languages() {
    let ms = vec![
        meta(1, "noun", &["pl", "cs"], true, false),
        meta(2, "verb", &["pl"], false, true),
        meta(3, "noun", &["xx"], true, false),
    ];
    let edges = vec![LinkEdge { source_id: 1, source_title: s("a"), target_id: 2, target_title: s("b"), kind: s("sinonim") }];
    let homs: Vec<(String, Vec<usize>)> = Vec::new();
    let build = BuildMeta { git: s("abc<"), generated: s("2024-01-01"), total_entries: 3, lemma_total: 3 };
    let names = vec![(s("pl"), s("poljsky")), (s("cs"), s("češsky"))];
    let p = site_stats_page(&ms, &edges, &homs, "1.3", &build, &names);
    assert!(p.contains("<title>Statistiky sajta</title>"));
    assert!(p.contains("<tr><th>Stran zapisov</th><td>3</td><th>Oficialno povezane</th><td>2</td></tr>"));
    assert!(p.contains("<tr><th>Pozajęta slova / internacionalizmy</th><td>1</td><th>Homografne grupy</th><td>0</td></tr>"));
    assert!(p.contains("<tr><th>Semantične vęzi</th><td>1</td><th>Srědnje językov na zapis</th><td>1.3</td></tr>"));
    assert!(p.contains("<code>abc&lt;</code>"));
    assert!(p.contains("<h3>Čęsti rěči</h3>"));
    assert!(p.contains("<h3>Języčne portaly</h3>"));
    assert!(p.contains("poljsky"));
    assert!(p.contains("češsky"));
    assert!(p.contains(">xx<"));
    assert!(p.contains("2 větvy"));
}

#[test]
fn index_summary_counts_official_generated_high_and_borrowed() {
    let mut a = meta(1, "noun", &["pl"], true, false);
    a.conf = Confidence::High;
    let ms = vec![a, meta(2, "verb", &["pl"], false, true), meta(3, "noun", &["cs"], false, false)];
    assert_eq!(
        slovowiki::stats::index_summary(&ms, "1.0"),
        "<table class='wikitable compact-table index-summary'><tbody><tr><th>Zapisov</th><td>3</td><th>Oficialne</th><td>1</td></tr><tr><th>Samo generovane</th><td>2</td><th>Vysoka uvěrjenost</th><td>1</td></tr><tr><th>Pozajęta slova / internacionalizmy</th><td>1</td><th>Srědnje językov</th><td>1.0</td></tr></tbody></table>"
    );
}

#[test]
fn language_portal_lists_strongest_pan_slavic_and_unique() {
    let mut pan = meta(2, "noun", &["pl", "cs", "ru"], false, false);
    pan.n_branches = 3;
    let ms = vec![meta(1, "noun", &["pl"], false, false), pan];
    let p = slovowiki::stats::language_portal_page("poljsky", &ms, &vec![1, 0], "2.0");
    assert!(p.contains("<title>Portal: poljsky</title>"));
    assert!(p.contains("<p>Portal za poljsky: strany zapisov"));
    let silne = p.find("id='silne'").unwrap();
    let vse = p.find("id='vseslovjanske'").unwrap();
    let strong = &p[silne..vse];
    assert!(strong.find("entry/2.html").unwrap() < strong.find("entry/1.html").unwrap());
    let uniq = p.find("id='unikatne'").unwrap();
    assert!(p[vse..uniq].contains("entry/2.html"));
    assert!(!p[vse..uniq].contains("entry/1.html"));
    let all = p.find("id='vse'").unwrap();
    assert!(p[uniq..all].contains("entry/1.html"));
    assert!(!p[uniq..all].contains("entry/2.html"));
}

#[test]
fn root_page_orders_descendants_by_pos_then_skeleton() {
    let ms = vec![
        meta(1, "verb", &["pl"], false, false),
        meta(2, "noun", &["cs"], true, false),
        meta(3, "noun", &["pl"], false, false),
    ];
    let skeletons = vec![s("aaa"), s("zzz"), s("bbb")];
    let names = vec![(s("pl"), s("poljsky"))];
    let p = slovowiki::stats::root_page("domъ", &ms, &skeletons, &names, "1.0");
    assert!(p.contains("<title>Rekonstrukcija: *domъ</title>"));
    let tree = p.find("id='tree'").unwrap();
    let desc = p.find("id='desc'").unwrap();
    let t = &p[tree..desc];
    let a = t.find("entry/3.html").unwrap();
    let b = t.find("entry/2.html").unwrap();
    let c = t.find("entry/1.html").unwrap();
    assert!(a < b && b < c);
    let off = p.find("id='official'").unwrap();
    assert!(p[off..tree].contains("entry/2.html"));
    assert!(!p[off..tree].contains("entry/1.html"));
    assert!(p.contains("<h3>Potomky po językah</h3>"));
    assert!(p.contains("poljsky"));
}

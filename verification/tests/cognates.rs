use slovowiki::cognates::{cognate_block, evidence_block, render_cognate_row, CognateMember, EvidenceRow};

fn s(v: &str) -> String {
    v.to_string()
}

fn labels() -> Vec<String> {
    vec![s("Vozhodne"), s("Zapadne"), s("Južne")]
}

fn member(branch: Option<usize>, lang: &str, word: &str, visible: &str, phonemic: &str) -> CognateMember {
    CognateMember {
        branch,
        lang: s(lang),
        lang_name: format!("name-{lang}"),
        word: s(word),
        visible_word: s(visible),
        phonemic: s(phonemic),
        native: false,
        native_sense: None,
        gloss: s("house, home"),
        modern: Some(true),
    }
}

#[test]
fn cognate_row_links_english_and_native_wiktionary() {
    let mut m = member(Some(0), "ru", "дом родной", "dom rodnoj", "dom rodnoj");
    assert_eq!(
        render_cognate_row(&m),
        "<tr><td class='lc'>name-ru</td><td><a href='https://en.wiktionary.org/wiki/дом_родной#ru'>dom rodnoj</a></td><td class='muted'>house, home</td></tr>"
    );
    m.native = true;
    m.native_sense = Some(s("žilišče"));
    m.phonemic = s("dom rodnoj'");
    let row = render_cognate_row(&m);
    assert!(row.contains("</a> <a class='ext' title='ru.wiktionary' href='https://ru.wiktionary.org/wiki/дом родной'>ru↗</a>"));
    assert!(row.contains("<br><span class='muted'>→ dom rodnoj&#39;</span>"));
    assert!(row.ends_with("<td class='muted'>žilišče</td></tr>"));
}

#[test]
fn cognate_gloss_is_truncated_by_source() {
    let mut m = member(Some(0), "pl", "dom", "dom", "dom");
    m.gloss = "x".repeat(40);
    assert!(render_cognate_row(&m).ends_with(&format!("<td class='muted'>{}…</td></tr>", "x".repeat(32))));
    m.native = true;
    m.native_sense = Some("y".repeat(50));
    assert!(render_cognate_row(&m).ends_with(&format!("<td class='muted'>{}…</td></tr>", "y".repeat(44))));
    m.native_sense = None;
    assert!(render_cognate_row(&m).ends_with(&format!("<td class='muted'>{}…</td></tr>", "x".repeat(32))));
}

#[test]
fn cognates_are_grouped_by_branch_in_branch_order() {
    let ms = vec![
        member(Some(2), "sr", "kuća", "kuća", "kuća"),
        member(Some(0), "ru", "дом", "dom", "dom"),
        member(None, "xx", "q", "q", "q"),
        member(Some(2), "sl", "hiša", "hiša", "hiša"),
    ];
    let out = cognate_block(&labels(), &ms);
    assert!(out.starts_with("<div class='branch-grid'><div class='branch-box'><h4>Vozhodne</h4>"));
    assert!(!out.contains("Zapadne"));
    assert!(!out.contains("name-xx"));
    let east = out.find("name-ru").unwrap();
    let south = out.find("<h4>Južne</h4>").unwrap();
    assert!(east < south);
    assert!(out.find("name-sr").unwrap() < out.find("name-sl").unwrap());
    assert_eq!(out.matches("<div class='branch-box'>").count(), 2);
    assert!(out.ends_with("</tbody></table></div></div>"));
    assert_eq!(cognate_block(&labels(), &Vec::new()), "<div class='branch-grid'></div>");
}

#[test]
fn evidence_without_a_branch_shows_a_note() {
    let ev = vec![EvidenceRow {
        branch: Some(1),
        lang_name: s("poljsky"),
        source_url: s("https://pl.wiktionary.org/wiki/dom"),
        form: s("dom"),
        normalized: s("dom"),
    }];
    assert_eq!(
        evidence_block(&labels(), &ev),
        "<div class='branch-grid'><div class='branch-box'><h4>Zapadne</h4><table class='wikitable compact-table'><tbody><tr><td class='lc'>poljsky</td><td><a href='https://pl.wiktionary.org/wiki/dom'>dom</a></td><td class='muted'>dom</td></tr></tbody></table></div></div>"
    );
    assert_eq!(evidence_block(&labels(), &Vec::new()), "<p class='muted'>Bez dokazov.</p>");
    let stray = vec![EvidenceRow { branch: None, lang_name: s("x"), source_url: s("u"), form: s("f"), normalized: s("n") }];
    assert_eq!(evidence_block(&labels(), &stray), "<p class='muted'>Bez dokazov.</p>");
}

#[test]
fn historical_cognates_go_to_a_trailing_table() {
    let mut old = member(Some(0), "orv", "домъ", "domŭ", "domŭ");
    old.modern = Some(false);
    let mut unknown = member(Some(1), "pl", "dom", "dom", "dom");
    unknown.modern = None;
    let ms = vec![member(Some(0), "ru", "дом", "dom", "dom"), old, unknown];
    let out = cognate_block(&labels(), &ms);
    assert_eq!(out.matches("<div class='branch-box'>").count(), 1);
    assert!(!out.contains("Zapadne"));
    assert!(out.contains(
        "<div class='historical-hints'><h4>Historijske podskazky</h4><p class='muted'>Te formy pomagajųt etimologiji, ale ne sųt moderne atestacije i ne povečšajųt pokrytje, razumlivost ili uvěrjenost.</p><table class='wikitable compact-table'><tbody>\
         <tr><td class='lc'>name-orv</td><td><a href='https://en.wiktionary.org/wiki/домъ#orv'>domŭ</a></td><td class='muted'>house, home</td></tr></tbody></table></div>"
    ));
    assert!(out.ends_with("</tbody></table></div>"));
    let modern_only = vec![member(Some(0), "ru", "дом", "dom", "dom")];
    assert!(!cognate_block(&labels(), &modern_only).contains("Historijske"));
}

use slovowiki::etymology::{
    etymology_block, Reconstruction,
    english_etymology_cards, native_etymology_cards, raw_etymology_section, unified_etymology_section,
    unified_official_etymology_section, EnglishEtymology, NativeEtymology, RawEtymology,
};

fn s(v: &str) -> String {
    v.to_string()
}

fn en(lang: &str, word: &str, ety: &[&str]) -> EnglishEtymology {
    EnglishEtymology {
        lang: s(lang),
        lang_name: format!("L-{lang}"),
        word: s(word),
        visible_word: s(word),
        etymology: ety.iter().map(|p| s(p)).collect(),
    }
}

fn editions() -> Vec<(String, String)> {
    vec![(s("ru"), s("rusky")), (s("pl"), s("poljsky")), (s("cs"), s("češsky"))]
}

#[test]
fn english_cards_skip_repeats_and_stop_at_four() {
    let ms = vec![
        en("ru", "дом", &["From Proto-Slavic *domъ."]),
        en("uk", "дім", &[]),
        en("be", "дом", &["From Proto-Slavic *domъ."]),
        en("pl", "dom rodzinny", &["A", "B"]),
        en("cs", "dům", &["A\nB"]),
        en("sk", "dom", &["C"]),
        en("sl", "dom", &["D"]),
        en("hr", "dom", &["E"]),
    ];
    let out = english_etymology_cards(&ms);
    assert_eq!(out.matches("<div class='etym-src'>").count(), 4);
    assert!(out.contains("L-ru"));
    assert!(!out.contains("L-uk"));
    assert!(!out.contains("L-be"));
    assert!(out.contains("https://en.wiktionary.org/wiki/dom_rodzinny#pl'>dom rodzinny↗</a></div><p>A</p><p>B</p></div>"));
    assert!(!out.contains("L-cs"));
    assert!(out.contains("L-sk") && out.contains("L-sl"));
    assert!(!out.contains("L-hr"));
    assert_eq!(english_etymology_cards(&Vec::new()), "");
}

fn native(lang: &str, word: &str, ety: Option<&[&str]>) -> NativeEtymology {
    NativeEtymology { lang: s(lang), word: s(word), visible_word: format!("v-{word}"), native: ety.map(|e| e.iter().map(|p| s(p)).collect()) }
}

#[test]
fn native_cards_take_each_editions_first_hit() {
    let ms = vec![
        native("pl", "dom", None),
        native("pl", "domek", Some(&["Od prasł. *domъ."])),
        native("pl", "domostwo", Some(&["inne"])),
        native("ru", "дом", Some(&[])),
        native("ru", "дома", Some(&["нет"])),
    ];
    let out = native_etymology_cards(&editions(), &ms);
    assert_eq!(
        out,
        "<div class='etym-src'><div class='src-head'><span class='lc'>poljsky</span> <a class='ext' href='https://pl.wiktionary.org/wiki/domek'>v-domek↗</a></div><p>Od prasł. *domъ.</p></div>"
    );
}

#[test]
fn unified_section_states_the_ancestor_or_the_etymon() {
    let none: Vec<NativeEtymology> = Vec::new();
    let plain = unified_etymology_section(false, "", "**domъ", &Vec::new(), &editions(), &none);
    assert_eq!(
        plain,
        "<section><h2 id='etimologija'>Etimologija</h2><p>Iz praslovjanskogo <a class='mention' href='https://en.wiktionary.org/wiki/Reconstruction:Proto-Slavic/domъ'>*domъ</a>. Niže sųt izvorne etimologije iz anglijskogo i narodnyh Wiktionary.</p></section>"
    );
    let borrowed = unified_etymology_section(true, "la computare", "", &vec![en("ru", "дом", &["x"])], &editions(), &none);
    assert!(borrowed.contains("Etimon: <span class='mention'>latinsky computare</span>."));
    assert!(borrowed.contains("<div class='etym-sources'><div class='etym-src'>"));
    assert!(borrowed.ends_with("rusky tekst jest transliterovany.</p></section>"));
}

#[test]
fn official_section_needs_a_native_etymology() {
    assert_eq!(unified_official_etymology_section(&editions(), &vec![native("ru", "дом", Some(&[]))]), "");
    let out = unified_official_etymology_section(&editions(), &vec![native("cs", "dům", Some(&["z praslov."]))]);
    assert!(out.starts_with("<section><h2 id='etimologija'>Etimologija</h2><div class='etym-sources'><div class='etym-src'><div class='src-head'><span class='lc'>češsky</span>"));
    assert!(out.ends_with("Izvorne etimologije iz narodnyh Wiktionary (CC BY-SA); rusky tekst jest transliterovany.</p></section>"));
}

#[test]
fn raw_section_drops_stubs_and_keeps_line_breaks() {
    let mut e = RawEtymology {
        lang: s("ru"),
        lang_name: s("rusky"),
        word: s("дом родной"),
        word_display: s("dom rodnoj"),
        native: Some(vec![(s("??"), s("??")), (s("от праслав."), s("ot praslav."))]),
        etymology_text: s("  From <Proto-Slavic>\n*domъ.  "),
    };
    let out = raw_etymology_section(&e);
    assert!(out.contains("<span class='lc'>rusky · Wiktionary</span> <a class='ext' href='https://ru.wiktionary.org/wiki/дом родной'>dom rodnoj↗</a></div><p>ot praslav.</p></div>"));
    assert!(!out.contains("<p>??</p>"));
    assert!(out.contains("<a class='ext' href='https://en.wiktionary.org/wiki/дом_родной#ru'>dom rodnoj↗</a></div><p class='etym-raw'>From &lt;Proto-Slavic&gt;<br>*domъ.</p></div>"));
    e.native = Some(vec![(s(" "), s(" "))]);
    e.etymology_text = s("   ");
    assert_eq!(raw_etymology_section(&e), "");
}

#[test]
fn etymology_block_names_the_reconstruction_and_deeper_ancestors() {
    assert_eq!(
        etymology_block(&None),
        "<p class='muted'>Za sej smysl ne najdena praslovjanska rekonstrukcija; forma je iz medžuvětvovogo konsensusa.</p>"
    );
    let r = Reconstruction { word: s("domъ"), confidence_pct: s("87"), proto_balto_slavic: s(""), proto_indo_european: s("*dṓm") };
    assert_eq!(
        etymology_block(&Some(r)),
        "<p>Iz praslovjanskogo <a class='mention' href='https://en.wiktionary.org/wiki/Reconstruction:Proto-Slavic/domъ'>*domъ</a> <span class='muted'>(uvěrjenost povezanja 87%)</span>.</p>\
         <p>Praindoevropejsky: <span class='mention'>*dṓm</span>.</p>\
         <p class='muted'>Medžuvětvovy konsensus izbira korenj; praslovjansko pravilo izvodi formu s pravilnymi znakami (ě, ć/đ, å, ȯ, y).</p>"
    );
}

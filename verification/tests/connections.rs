use slovowiki::connections::{
    cross_lingual_meanings_section, CrossWord,
    enrich_connections_section, enrich_member_block, ConnMember, NativeEntry, NativeQuote, NativeSense, NativeWord,
};
use slovowiki::xref::Xref;

fn s(v: &str) -> String {
    v.to_string()
}

fn entry() -> NativeEntry {
    NativeEntry {
        senses: vec![
            NativeSense { sense: s("жилище"), shown: s("žilišče") },
            NativeSense { sense: s("семья"), shown: s("semja") },
        ],
        examples: vec![
            NativeQuote { sense: s("жилище"), text: s("Мой дом"), source: s(""), source_shown: s("") },
            NativeQuote { sense: s("другое"), text: s("x"), source: s(""), source_shown: s("") },
            NativeQuote { sense: s("жилище"), text: s("Дом <стоит>"), source: s("Пушкин"), source_shown: s("Puškin") },
        ],
        related: vec![NativeWord { word: s("домик"), visible: s("domik") }],
        synonyms: Vec::new(),
        antonyms: vec![NativeWord { word: s("улица"), visible: s("ulica") }],
    }
}

#[test]
fn member_block_nests_quotes_under_their_sense() {
    let mut raw = Xref::new();
    raw.insert("ru", "домик", 42);
    let out = enrich_member_block("ru", &entry(), None, &raw, 0);
    assert_eq!(
        out,
        "<div class='conn'><h5>Značenja</h5><ol>\
         <li>žilišče<ul class='quotes'><li class='quote'>„Мой дом“</li><li class='quote'>„Дом &lt;стоит&gt;“ <span class='muted cite'>— Puškin</span></li></ul></li>\
         <li>semja</li></ol></div>\
         <div class='conn'><h5>Srodne slova</h5><div class='chips'><a class='chip xref' title='v slovniku' href='42.html'>domik</a></div></div>\
         <div class='conn'><h5>Antonimy</h5><div class='chips'><a class='chip' href='https://ru.wiktionary.org/wiki/улица'>ulica</a></div></div>"
    );
    let empty = NativeEntry { senses: Vec::new(), examples: Vec::new(), related: Vec::new(), synonyms: Vec::new(), antonyms: Vec::new() };
    assert_eq!(enrich_member_block("ru", &empty, None, &raw, 0), "");
}

fn member(lang: &str, word: &str, e: Option<NativeEntry>) -> ConnMember {
    ConnMember { lang: s(lang), word: s(word), visible_word: format!("v-{word}"), entry: e }
}

#[test]
fn connections_take_each_spelling_once_per_edition() {
    let editions = vec![(s("ru"), s("rusky")), (s("pl"), s("poljsky"))];
    let raw = Xref::new();
    let ms = vec![
        member("pl", "Dom", Some(entry())),
        member("ru", "дом", None),
        member("ru", "Дом", Some(entry())),
        member("ru", "дом", Some(entry())),
        member("pl", "dom", Some(entry())),
        member("uk", "дім", Some(entry())),
    ];
    let out = enrich_connections_section(&editions, &ms, None, &raw, 0);
    assert!(out.starts_with("<section><h2 id='vezi'>Značenja srodnyh slov i semantične vęzi (RU / PL / CS)</h2>"));
    assert_eq!(out.matches("<div class='src-block'>").count(), 2);
    let ru = out.find("<span class='lc'>rusky</span> <a class='ext' href='https://ru.wiktionary.org/wiki/Дом'>v-Дом↗</a>").unwrap();
    let pl = out.find("<span class='lc'>poljsky</span> <a class='ext' href='https://pl.wiktionary.org/wiki/Dom'>v-Dom↗</a>").unwrap();
    assert!(ru < pl);
    assert!(!out.contains("v-дім"));
    assert_eq!(enrich_connections_section(&editions, &vec![member("ru", "дом", None)], None, &raw, 0), "");
}

fn cw(lang: &str, word: &str) -> CrossWord {
    CrossWord { lang: s(lang), lang_name: format!("N-{lang}"), word: s(word), visible: format!("v{word}") }
}

#[test]
fn cross_lingual_rows_follow_language_code_order_with_caps() {
    let raw = Xref::new();
    assert_eq!(cross_lingual_meanings_section(&Vec::new(), 3, 2, None, &raw, 0), "");
    let groups = vec![(
        s("house"),
        vec![cw("sr", "kuća"), cw("pl", "dom"), cw("sr", "dom"), cw("sr", "zgrada"), cw("cs", "dům"), cw("ru", "дом")],
    )];
    let out = cross_lingual_meanings_section(&groups, 3, 2, None, &raw, 0);
    assert!(out.starts_with("<section><h2 id='drugojezyk'>To slovo v drugih slovjanskih językah"));
    assert!(out.contains("<div class='conn'><h5><span class='mention'>house</span></h5><table class='wikitable compact-table'><tbody>"));
    let cs = out.find("<td class='lc'>N-cs</td>").unwrap();
    let pl = out.find("<td class='lc'>N-pl</td>").unwrap();
    let ru = out.find("<td class='lc'>N-ru</td>").unwrap();
    assert!(cs < pl && pl < ru);
    assert!(!out.contains("N-sr"));
    let two = cross_lingual_meanings_section(&groups, 10, 2, None, &raw, 0);
    assert!(two.contains(
        "<tr><td class='lc'>N-sr</td><td><div class='chips'><a class='chip' href='https://sr.wiktionary.org/wiki/kuća'>vkuća</a><a class='chip' href='https://sr.wiktionary.org/wiki/dom'>vdom</a></div></td></tr>"
    ));
    assert!(!two.contains("vzgrada"));
}

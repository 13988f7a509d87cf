use slovowiki::connections::{CrossWord, NativeEntry, NativeSense};
use slovowiki::etymology::RawEtymology;
use slovowiki::model::{Confidence, MatchStatus};
use slovowiki::raw_page::{raw_lemma_page, RawPageLemma};
use slovowiki::site_meta::SiteEntryMeta;
use slovowiki::xref::Xref;

fn s(v: &str) -> String {
    v.to_string()
}

fn meta() -> SiteEntryMeta {
    SiteEntryMeta {
        id: 9,
        title: s("grampljastinka"),
        gloss: s("record"),
        pos: s("noun"),
        pos_heading: s("imennik"),
        status: MatchStatus::NoOfficialEntry,
        conf: Confidence::Low,
        conf_label: s("nizka"),
        n_langs: 1,
        n_branches: 1,
        borrowed: false,
        official_only: false,
        raw: true,
        official_lemma: None,
        ancestor: s(""),
        languages: vec![s("ru")],
        first: s("G"),
        categories: Vec::new(),
        aspect: None,
        aspect_partners: Vec::new(),
    }
}

fn lemma(native: Option<NativeEntry>, paras: Option<Vec<(String, String)>>) -> RawPageLemma {
    RawPageLemma {
        glosses: vec![s("  gramophone record "), s("   "), s("disc<")],
        etymology: RawEtymology {
            lang: s("ru"),
            lang_name: s("rusky"),
            word: s("грампластинка"),
            word_display: s("gramplastinka"),
            native: paras,
            etymology_text: s(""),
        },
        visible_word: s("grampljastinka"),
        native,
        cross: vec![(s("record"), vec![CrossWord { lang: s("pl"), lang_name: s("poljsky"), word: s("płyta"), visible: s("plyta") }])],
    }
}

fn editions() -> Vec<(String, String)> {
    vec![(s("ru"), s("rusky")), (s("pl"), s("poljsky"))]
}

#[test]
fn raw_page_without_native_content_says_english_only() {
    let raw = Xref::new();
    let page = raw_lemma_page("grampljastinka", lemma(None, None), 9, &meta(), "", &editions(), None, &raw, 8, 4);
    assert!(page.contains("<title>grampljastinka — surova atestacija</title>"));
    assert!(page.contains("Ta zapis pokazuje samo dane iz anglijskoj Wiktionary (rusky <span class='mention'>грампластинка</span>)"));
    assert!(page.contains("<ul class='compact-list'><li>gramophone record</li><li>disc&lt;</li></ul>"));
    assert!(!page.contains("id='vezi'"));
    assert!(!page.contains("id='etimologija'"));
    assert!(page.contains("<h2 id='drugojezyk'>"));
    assert!(page.contains("<p class='foot'>Surova atestacija iz Wiktionary (CC BY-SA): <a href='https://ru.wiktionary.org/wiki/грампластинка'>rusky · грампластинка</a>."));
    assert!(page.contains("<tr><th>Dokaz</th><td>surova (bez konsensusa)</td></tr>"));
}

#[test]
fn raw_page_with_native_content_names_the_edition() {
    let raw = Xref::new();
    let entry = NativeEntry {
        senses: vec![NativeSense { sense: s("диск"), shown: s("disk") }],
        examples: Vec::new(),
        related: Vec::new(),
        synonyms: Vec::new(),
        antonyms: Vec::new(),
    };
    let page = raw_lemma_page("grampljastinka", lemma(Some(entry), None), 9, &meta(), "", &editions(), None, &raw, 8, 4);
    assert!(page.contains("Ta zapis kombinuje dane iz anglijskoj Wiktionary i iz narodnoj rusky Wiktionary"));
    assert!(page.contains("<section><h2 id='vezi'>"));
    let stub_only = raw_lemma_page("g", lemma(None, Some(vec![(s("??"), s("??"))])), 9, &meta(), "", &editions(), None, &raw, 8, 4);
    assert!(stub_only.contains("Ta zapis pokazuje samo dane"));
    let real = raw_lemma_page("g", lemma(None, Some(vec![(s("от слова"), s("ot slova"))])), 9, &meta(), "", &editions(), None, &raw, 8, 4);
    assert!(real.contains("Ta zapis kombinuje dane"));
    assert!(real.contains("<p>ot slova</p>"));
    let no_gloss = RawPageLemma { glosses: vec![s(" ")], ..lemma(None, None) };
    let p = raw_lemma_page("g", no_gloss, 9, &meta(), "", &editions(), None, &raw, 8, 4);
    assert!(p.contains("<p class='muted'>Bez zapisanogo smysla.</p>"));
}

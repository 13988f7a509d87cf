use slovowiki::blocks::AlternativeRow;
use slovowiki::cognates::EvidenceRow;
use slovowiki::entry_page::{
    entry_page, Generation, corpus_entry_page, corpus_headword, official_only_page, GeneratedEntry, OfficialMatch, OfficialOnlyEntry, SiteTables,
};
use slovowiki::model::{Candidate, CandidateSource, Confidence, MatchStatus};
use slovowiki::official::OfficialDisplay;
use slovowiki::site_meta::SiteEntryMeta;
use slovowiki::xref::Xref;

fn s(v: &str) -> String {
    v.to_string()
}

fn meta() -> SiteEntryMeta {
    SiteEntryMeta {
        id: 3,
        title: s("dom"),
        gloss: s("house"),
        pos: s("noun"),
        pos_heading: s("imennik"),
        status: MatchStatus::OfficialMatch,
        conf: Confidence::High,
        conf_label: s("vysoka"),
        n_langs: 5,
        n_branches: 3,
        borrowed: false,
        official_only: false,
        raw: false,
        official_lemma: None,
        ancestor: s("*domъ"),
        languages: vec![s("pl")],
        first: s("D"),
        categories: Vec::new(),
        aspect: None,
        aspect_partners: Vec::new(),
    }
}

fn tables() -> SiteTables {
    SiteTables {
        branch_labels: vec![s("Vozhodne"), s("Zapadne"), s("Južne")],
        editions: vec![(s("ru"), s("rusky"))],
        official_cols: vec![(s("pl"), s("poljsky"))],
        lang_names: vec![(s("pl"), s("poljsky"))],
        razum_title: s("razum"),
        razum_title_matched: s("razum-oficialno"),
    }
}

fn entry(form: &str, gloss: &str) -> GeneratedEntry {
    GeneratedEntry {
        top: Candidate {
            form: s(form),
            source: CandidateSource::ProtoSlavicRule,
            standard_fold: s(form),
            ascii_skeleton: s(form),
            trace: Vec::new(),
            warnings: Vec::new(),
        },
        top_source_label: s("praslovjansko pravilo"),
        alternatives: vec![AlternativeRow {
            form: s(form),
            source: CandidateSource::ProtoSlavicRule,
            source_label: s("praslovjansko pravilo"),
            score: s("0.900"),
            razum: s("80%"),
            branch_coverage: 3,
        }],
        gloss: s(gloss),
        n_langs: 5,
        cognates: Vec::new(),
        borrowed: false,
        etymon: s(""),
        proto: s("*domъ"),
        english_etymology: Vec::new(),
        native_etymology: Vec::new(),
        connections: Vec::new(),
        inflection: s("<table class='infl'></table>"),
        raw_credit: s(""),
    }
}

#[test]
fn generated_page_without_official_match() {
    let raw = Xref::new();
    let g = entry("dom", "house");
    assert_eq!(corpus_headword(&g, &None), "dom");
    let p = corpus_entry_page(3, &g, MatchStatus::NoOfficialEntry, &None, &None, "", "", "", "", "", &meta(), "domъ", &tables(), None, &raw);
    assert!(p.contains("<title>dom — medžuslovjansky</title>"));
    assert!(p.contains("<h1 class='page-title firstHeading'>dom</h1>"));
    assert!(p.contains("<tr><th>Smysl</th><td>house</td></tr><tr><th>Izvor formy</th><td><span class='pill src-proto'>praslovjansko pravilo</span> <span class='pill info'>generovano</span></td></tr>"));
    assert!(p.contains("<tr><th>Opomba</th><td>Forma je generovana iz srodnyh slov; ne v oficialnom slovniku.</td></tr>"));
    assert!(!p.contains("Rekonstrukcija</th>"));
    assert!(p.contains("<section><h2 id='cognaty'>Srodne slova — 5 językov</h2><div class='branch-grid'></div></section>"));
    assert!(p.contains("<section><h2 id='pregibanje'>Prěgibanje</h2><table class='infl'></table><p class='muted'><a href='../forms.html?q=dom'>"));
    assert!(p.contains("<p class='foot'>Mašinno generovana rekonstrukcija iz srodnyh slov (Wiktionary, CC BY-SA). Ne oficialny standard.</p>"));
    assert!(p.contains("<h2 id='formy'>Formy i kandidaty</h2><table class='wikitable'>"));
    assert!(p.contains("Iz praslovjanskogo <a class='mention' href='https://en.wiktionary.org/wiki/Reconstruction:Proto-Slavic/domъ'>*domъ</a>"));
}

#[test]
fn generated_page_with_official_match_uses_the_lemma() {
    let raw = Xref::new();
    let g = entry("dȯm", "piss");
    let exact = Some(OfficialMatch { rank: 1, isv: s("dom"), english: s("house, home"), exact: false });
    assert_eq!(corpus_headword(&g, &exact), "dom");
    let p = corpus_entry_page(3, &g, MatchStatus::OfficialMatch, &exact, &None, "", "", "", "", "", &meta(), "", &tables(), None, &raw);
    assert!(p.contains("<title>dom — medžuslovjansky</title>"));
    assert!(p.contains("<tr><th>Smysl</th><td>house, home</td></tr>"));
    assert!(p.contains("<tr><th>Rekonstrukcija</th><td><span class='mention'>dȯm</span></td></tr>"));
    assert!(p.contains("Oficialna forma; rekonstrukcija ju reproduktuje (normalizovano — pravopisne znaky sę različajų)."));
    assert!(p.contains("<p class='foot'>Oficialne slovo; rekonstrukcija i dokazy mašinno generovane (Wiktionary, CC BY-SA).</p>"));
    let second = Some(OfficialMatch { rank: 2, isv: s("dom"), english: s("  "), exact: true });
    let q = corpus_entry_page(3, &g, MatchStatus::OfficialMatch, &second, &None, "", "", "", "", "", &meta(), "", &tables(), None, &raw);
    assert!(q.contains("Oficialna forma; generator ju davaje kako <a href='#cand-2'>kandidat 2</a>."));
    assert!(q.contains("<tr><th>Smysl</th><td>piss</td></tr>"));
    let disp = Some(OfficialDisplay {
        cells: vec![(s("pl"), s("dom"))],
        de: s(""),
        nl: s(""),
        eo: s(""),
        frequency: Some(s("7")),
        intelligibility: s(""),
        using_example: s(""),
    });
    let exact_match = Some(OfficialMatch { rank: 1, isv: s("dȯm"), english: s("house"), exact: true });
    let r = corpus_entry_page(3, &g, MatchStatus::OfficialMatch, &exact_match, &disp, "", "", "", "", "", &meta(), "", &tables(), None, &raw);
    assert!(r.contains("Oficialna forma; rekonstrukcija ju <b>točno</b> reproduktuje."));
    assert!(r.contains("</h1><div class='headmeta'><span class='pill info' title='Čęstota v oficialnom slovniku (interslavic-dictionary.com)'>Čęstota 7</span></div>"));
    assert!(r.contains("<tr><td class='lc'>poljsky</td><td>dom</td></tr>"));
}

#[test]
fn official_only_page_marks_the_lemma_as_not_derived() {
    let raw = Xref::new();
    let e = OfficialOnlyEntry {
        isv: s("hiša"),
        english: s("house"),
        display: OfficialDisplay {
            cells: Vec::new(),
            de: s(""),
            nl: s(""),
            eo: s(""),
            frequency: None,
            intelligibility: s(""),
            using_example: s(""),
        },
        evidence: vec![(s("slovensky"), s("hiša"))],
        native_etymology: Vec::new(),
        connections: Vec::new(),
        inflection: s("<table></table>"),
        raw_credit: s(""),
    };
    let p = official_only_page(7, &e, "", "", "", "", &meta(), "", &tables(), None, &raw);
    assert!(p.contains("<title>hiša — medžuslovjansky</title>"));
    assert!(p.contains("<section><h2 id='cognaty'>Srodne slova</h2><table class='wikitable compact-table'><tbody><tr><td class='lc'>slovensky</td><td>hiša</td></tr></tbody></table></section>"));
    assert!(p.contains("<tr><th>Smysl</th><td>house</td></tr><tr><th>Opomba</th><td>Generator ješče ne izvodi tu formu iz srodnogo dokaza.</td></tr>"));
    assert!(p.contains("<p class='foot'>Oficialne slovo: interslavic-dictionary.com. Prěgibanje mašinno generovano.</p>"));
    assert!(!p.contains("id='etimologija'"));
    let none = OfficialOnlyEntry { evidence: Vec::new(), ..e };
    let q = official_only_page(7, &none, "", "", "", "", &meta(), "", &tables(), None, &raw);
    assert!(q.contains("<p class='muted'>Bez slovjanskogo srodnogo dokaza v slovniku.</p>"));
}

#[test]
fn generation_page_shows_form_banner_and_sections() {
    let g = entry("dom", "house");
    let e = Generation {
        top: g.top,
        top_source_label: s("praslovjansko pravilo"),
        conf: Confidence::High,
        conf_label: s("vysoka"),
        status: MatchStatus::OfficialMatch,
        official: s("dom"),
        english: s("house <home>"),
        frequency: Some(s("12")),
        reconstruction: None,
        inflection: s("<table class='infl'></table>"),
        evidence: vec![EvidenceRow { branch: Some(1), lang_name: s("poljsky"), source_url: s("u"), form: s("dom"), normalized: s("dom") }],
        alternatives: g.alternatives,
        calibration: None,
        razum_title: s("razum"),
    };
    let labels = vec![s("Vozhodne"), s("Zapadne"), s("Južne")];
    let p = entry_page(&e, "imennik", &labels);
    assert!(p.contains("<title>dom — medžuslovjansky</title>"));
    assert!(p.contains("<h1 class='page-title firstHeading'>dom</h1>"));
    assert!(p.contains("<span class='badge pos'>imennik</span>"));
    assert!(p.contains("<span class='reliability conf-high'>uvěrjenost: vysoka</span>"));
    assert!(p.contains("<p class='def'><b>Anglijski smysl:</b> house &lt;home&gt;</p>"));
    assert!(p.contains("<p class='muted'>Čęstota v slovniku: 12.</p>"));
    assert!(p.contains("<summary>Dokazy po slovjanskyh větvah</summary><div class='branch-grid'><div class='branch-box'><h4>Zapadne</h4>"));
    assert!(p.contains("Za sej smysl ne najdena praslovjanska rekonstrukcija"));
}

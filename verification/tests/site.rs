use slovowiki::family::proto_stem;
use slovowiki::model::{Candidate, CandidateSource};
use slovowiki::raw_plan::{plan_raw_pages, RawLemma};
use slovowiki::search::{
    collect_source_aliases, keys_json, search_keys, source_aliases_json, NormalizedForm, SourceAlias,
};
use slovowiki::xref::{word_chip, HeadwordIndex, Xref};

/// A ranked candidate with the standard-alphabet fold and ASCII skeleton of
/// its form.
fn cand(form: &str, source: CandidateSource, standard: &str, skeleton: &str) -> Candidate {
    Candidate {
        form: form.to_string(),
        source,
        standard_fold: standard.to_string(),
        ascii_skeleton: skeleton.to_string(),
        trace: Vec::new(),
        warnings: Vec::new(),
    }
}

/// One variant of a source cell, as the cell normaliser splits it out.
fn nf(original: &str, latin: &str, latin_standard: &str, skeleton: &str) -> NormalizedForm {
    NormalizedForm {
        original: original.to_string(),
        latin: latin.to_string(),
        latin_standard: latin_standard.to_string(),
        skeleton: skeleton.to_string(),
    }
}

#[test]
fn source_aliases_index_cyrillic_latin_and_folded_forms() {
    // Committee/cognate source words become searchable aliases. Each alias
    // carries the attested spelling + its folded search forms so the entry is
    // findable by Cyrillic, transliteration, and diacritic-fold. The cells are
    // given as the normaliser splits them: a multi-variant cell (`швидкий,
    // скорий`) yields one variant per listed word.
    let cells: Vec<(String, Vec<NormalizedForm>)> = vec![
        ("ru".to_string(), vec![nf("пластинка", "plastinka", "plastinka", "plastinka")]),
        ("pl".to_string(), vec![nf("płyta", "płyta", "płyta", "plyta")]),
        ("cs".to_string(), vec![nf("žena", "žena", "žena", "zena")]),
        (
            "uk".to_string(),
            vec![
                nf("швидкий", "švydkyj", "švydkyj", "svydkyj"),
                nf("скорий", "skoryj", "skoryj", "skoryj"),
            ],
        ),
    ];
    let mut aliases: Vec<SourceAlias> = Vec::new();
    let mut seen: Vec<(String, String)> = Vec::new();
    collect_source_aliases(&cells, &mut aliases, &mut seen);
    let has = |lang: &str, word: &str| aliases.iter().any(|(l, w, _)| l == lang && w == word);
    // Attested spellings are indexed verbatim (Cyrillic query hits directly).
    assert!(has("ru", "пластинка"), "{aliases:?}");
    assert!(has("uk", "швидкий") && has("uk", "скорий"), "split: {aliases:?}");
    // Folded search forms make the Latinized / diacritic-folded query hit.
    let forms = |lang: &str, word: &str| {
        aliases
            .iter()
            .find(|(l, w, _)| l == lang && w == word)
            .map(|(_, _, f)| f.clone())
            .unwrap_or_default()
    };
    assert!(
        forms("ru", "пластинка").iter().any(|f| f == "plastinka"),
        "ru transliteration: {aliases:?}"
    );
    // Polish ł does not decompose under the client's NFD fold, so the ASCII
    // skeleton (plyta) must be stored explicitly for the folded query to hit.
    assert!(forms("pl", "płyta").iter().any(|f| f == "plyta"), "pl skeleton: {aliases:?}");
    assert!(forms("cs", "žena").iter().any(|f| f == "zena"), "cs skeleton: {aliases:?}");
    // JSON is well-formed and preserves the attested spelling.
    let json = source_aliases_json(&aliases);
    assert!(json.starts_with('[') && json.ends_with(']'), "{json}");
    assert!(json.contains("[\"ru\",\"пластинка\","), "{json}");
}

#[test]
fn search_keys_make_alternatives_and_folds_findable() {
    // The kråtky case: the top candidate is flavored, the official spelling
    // appears as candidate 2 — both the alternative's form and the ASCII
    // folds must be searchable keys.
    let cands = vec![
        cand("kråtȯky", CandidateSource::ProtoSlavicRule, "kratoky", "kratoky"),
        cand("kratky", CandidateSource::BranchConsensus, "kratky", "kratky"),
    ];
    let keys = search_keys(&cands, "kråtȯky");
    let has = |k: &str, r: usize| keys.iter().any(|(kk, rr)| kk == k && *rr == r);
    assert!(has("kratoky", 1), "ASCII fold of the headword: {keys:?}");
    assert!(has("kratky", 2), "the alternative's own form: {keys:?}");
    // The raw headword itself is NOT duplicated (the client matches it).
    assert!(!keys.iter().any(|(k, _)| k == "kråtȯky"));
}

#[test]
fn proto_stems_group_word_families() {
    // One derivational suffix stripped, ≥4-char stem kept.
    assert_eq!(proto_stem("starъ").as_deref(), Some("star"));
    assert_eq!(proto_stem("starostь").as_deref(), Some("star"));
    assert_eq!(proto_stem("starьcь").as_deref(), Some("star"));
    // Combining accent marks are folded first, so accent variants share one key.
    assert_eq!(proto_stem("sta\u{0301}rъ").as_deref(), Some("star"));
    // A root too short after stripping keeps the whole word as its key…
    assert_eq!(proto_stem("pьsъ").as_deref(), Some("pьsъ"));
    // …and a genuinely tiny fragment gets none.
    assert_eq!(proto_stem("kъ"), None);
}

#[test]
fn search_keys_json_is_well_formed() {
    let cands = vec![cand("běly", CandidateSource::ProtoSlavicRule, "bely", "bely")];
    let keys = search_keys(&cands, "běly");
    let json = keys_json(&keys);
    assert!(json.starts_with('[') && json.ends_with(']'));
    assert!(json.contains("[\"bely\",1]"), "{json}");
}

fn raw_lem(lang: &str, word: &str, pos: &str, fold: &str) -> RawLemma {
    RawLemma {
        lang: lang.to_string(),
        word: word.to_string(),
        pos: pos.to_string(),
        fold: fold.to_string(),
    }
}

/// The raw pre-pass assigns sequential ids in corpus order, and every raw
/// `(lang, word)` with a home resolves in the plan's cross-reference — its
/// own raw page, the official page its display fold collided with, or the
/// earlier raw twin that claimed the same ě-blind fold. Cognate-xref members
/// stay with the cognate xref; empty words resolve nowhere. Each lemma
/// carries the fold of its display form.
#[test]
fn raw_plan_assigns_ids_and_points_chips_at_internal_pages() {
    let mut xref = Xref::new();
    xref.insert("pl", "xyz", 7); // cognate member of generated page 7
    let mut isv_to_id = HeadwordIndex::new();
    isv_to_id.insert("delo", 42); // an official headword fold
    let lemmas = vec![
        raw_lem("pl", "winyl", "noun", "vinyl"), // rendered → id 101
        raw_lem("cs", "mouka", "noun", "muka"),  // rendered (muka) → id 102
        raw_lem("sl", "muka", "noun", "muka"),   // raw twin of mouka → points at 102
        raw_lem("sl", "delo", "noun", "delo"),   // folds onto official 42
        raw_lem("pl", "xyz", "noun", "xyz"),     // cognate member → xref resolves
        raw_lem("pl", "", "noun", ""),           // skipped
    ];
    let plan = plan_raw_pages(&lemmas, &xref, &isv_to_id, 100);
    assert_eq!(plan.pages, vec![(0, 101), (1, 102)]);
    assert_eq!(plan.deduped, 4);
    assert_eq!(plan.xref.get("pl", "winyl"), Some(101));
    assert_eq!(plan.xref.get("cs", "mouka"), Some(102));
    assert_eq!(plan.xref.get("sl", "muka"), Some(102));
    assert_eq!(plan.xref.get("sl", "delo"), Some(42));
    assert_eq!(plan.xref.get("pl", "xyz"), None);
    assert_eq!(plan.xref.get("pl", ""), None);
}

/// The chip lookup chain: cognate xref beats the raw cross-reference beats
/// the external native-Wiktionary fallback, and a self-link falls through to
/// the external target.
#[test]
fn word_chip_prefers_generated_then_raw_then_external() {
    let mut xref = Xref::new();
    xref.insert("ru", "дело", 5);
    let mut raw_xref = Xref::new();
    raw_xref.insert("ru", "грампластинка", 123);
    raw_xref.insert("ru", "дело", 999); // shadowed by the cognate xref
    assert!(word_chip("ru", "дело", "dělo", Some(&xref), &raw_xref, 0).contains("href='5.html'"));
    assert!(word_chip("ru", "грампластинка", "gramplastinka", Some(&xref), &raw_xref, 0)
        .contains("href='123.html'"));
    let self_chip = word_chip("ru", "грампластинка", "gramplastinka", Some(&xref), &raw_xref, 123);
    assert!(self_chip.contains("ru.wiktionary.org"), "{self_chip}");
    assert!(word_chip("uk", "щось", "ščos", Some(&xref), &raw_xref, 0).contains("uk.wiktionary.org"));
}

#[test]
fn word_chip_links_out_for_an_ambiguous_cognate_key() {
    let mut xref = Xref::new();
    xref.insert("ru", "дело", 5);
    xref.insert("ru", "дело", 6);
    xref.insert("ru", "дом", 7);
    xref.insert("ru", "дом", 7);
    let mut raw_xref = Xref::new();
    raw_xref.insert("ru", "дело", 999);
    let chip = word_chip("ru", "дело", "dělo", Some(&xref), &raw_xref, 0);
    assert!(chip.contains("ru.wiktionary.org"), "{chip}");
    assert!(!chip.contains("999.html"));
    assert!(word_chip("ru", "дом", "dom", Some(&xref), &raw_xref, 0).contains("href='7.html'"));
}

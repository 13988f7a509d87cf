use slovowiki::english_api::{english_shard_of, fnv1a32, gloss_keys, normalize_english_query, EN_SHARDS};

#[test]
fn normalizes_english_query_and_routes_deterministically() {
    assert_eq!(normalize_english_query(" Save   Game! "), "save game");
    assert_eq!(english_shard_of("save"), fnv1a32("save") % EN_SHARDS);
}

#[test]
fn extracts_gloss_keys_without_parenthetical_noise_or_stopwords() {
    assert_eq!(
        gloss_keys("to save, rescue"),
        vec![
            ("save".to_string(), "exact-gloss-head".to_string()),
            ("rescue".to_string(), "exact-gloss-head".to_string())
        ]
    );
    assert_eq!(
        gloss_keys("save game"),
        vec![
            ("save game".to_string(), "phrase".to_string()),
            ("save".to_string(), "gloss-token".to_string()),
            ("game".to_string(), "gloss-token".to_string())
        ]
    );
    assert_eq!(
        gloss_keys("to open (make accessible, unseal)"),
        vec![("open".to_string(), "exact-gloss-head".to_string())]
    );
    assert_eq!(
        gloss_keys("dish (food), course (of a meal)"),
        vec![
            ("dish".to_string(), "exact-gloss-head".to_string()),
            ("food".to_string(), "gloss-token".to_string()),
            ("course".to_string(), "exact-gloss-head".to_string()),
            ("meal".to_string(), "gloss-token".to_string())
        ]
    );
    assert_eq!(
        gloss_keys("pridavnik ← Abhazija (Abkhazia)"),
        vec![("abkhazia".to_string(), "exact-gloss-head".to_string())]
    );
    assert!(gloss_keys("the, a, of").is_empty());
}

use slovowiki::english_index::{build_english_index, EnglishCandidate, EntryMeta, LemmaRecord};

/// A verb citation-form record; the probability bonus is ten times the
/// generated probability, rounded.
fn record(lemma: &str, entry_id: usize, status: &str, gloss: &str, probability: Option<f64>) -> LemmaRecord {
    LemmaRecord {
        lemma: lemma.to_string(),
        entry_id,
        pos: "verb".to_string(),
        gloss: gloss.to_string(),
        status: status.to_string(),
        source: "lemma".to_string(),
        probability_bonus: probability.map(|p| (p * 10.0).round() as i32).unwrap_or(0),
        form_key: lemma.replace('ě', "e"),
        form_shard: 0,
    }
}

fn meta(id: usize, official_id: Option<&str>) -> EntryMeta {
    EntryMeta { id, official_sense_id: official_id.map(str::to_string) }
}

fn candidates<'a>(index: &'a [(String, Vec<EnglishCandidate>)], key: &str) -> &'a Vec<EnglishCandidate> {
    &index.iter().find(|(k, _)| k == key).expect("key present").1
}

#[test]
fn orders_verified_candidates_before_generated_candidates() {
    let records = vec![
        record("spasati", 1, "official", "to save, rescue", None),
        record("save-machine", 2, "generated", "save", Some(0.9)),
    ];
    let metas = vec![meta(1, Some("official-1")), meta(2, None)];
    let index = build_english_index(&records, &metas, &Vec::new(), &Vec::new());
    let save = candidates(&index, "save");
    assert_eq!(save[0].lemma, "spasati");
    assert_eq!(save[0].status, "official");
    assert_eq!(save[0].official_id.as_deref(), Some("official-1"));
    assert_eq!(save[1].status, "generated");
}

#[test]
fn exact_official_only_match_outranks_official_token_match() {
    let records = vec![
        record("bridž", 1, "official", "bridge (game)", None),
        record("divina", 2, "official-only", "game, wildfowl", None),
    ];
    let metas = vec![meta(1, Some("bridge-1")), meta(2, Some("game-2"))];
    let index = build_english_index(&records, &metas, &Vec::new(), &Vec::new());
    let game = candidates(&index, "game");
    assert_eq!(game[0].lemma, "divina");
    assert_eq!(game[0].match_kind, "exact-gloss-head");
    assert_eq!(game[1].lemma, "bridž");
    assert_eq!(game[1].match_kind, "gloss-token");
}

#[test]
fn official_byforms_are_each_indexed_for_the_english_key() {
    let records = vec![
        record("iměti", 10, "official", "to have", None),
        record("imati", 10, "official", "to have", None),
    ];
    let metas = vec![meta(10, Some("have-10"))];
    let index = build_english_index(&records, &metas, &Vec::new(), &Vec::new());
    let have = candidates(&index, "have");
    let lemmas: Vec<&str> = have.iter().map(|c| c.lemma.as_str()).collect();
    assert!(lemmas.contains(&"iměti"));
    assert!(lemmas.contains(&"imati"));
}

use slovowiki::english_index::{AspectInfo, SemanticNote};

#[test]
fn english_index_sorts_keys_and_keeps_the_best_hit_per_slot() {
    let mut generated = record("spasti", 3, "generated", "rescue", Some(0.5));
    generated.form_shard = 17;
    let records = vec![
        record("spasati", 1, "official", "to save, rescue", None),
        // The same lemma and entry again: its weaker token hit loses the slot.
        record("spasati", 1, "official", "rescue game", None),
        generated,
        // Not indexed: an inflected form and an unknown status.
        LemmaRecord { source: "form".to_string(), ..record("spasaju", 1, "official", "save", None) },
        record("zombi", 4, "draft", "save", None),
    ];
    let index = build_english_index(&records, &vec![meta(1, Some("o-1"))], &Vec::new(), &Vec::new());
    let keys: Vec<&str> = index.iter().map(|(k, _)| k.as_str()).collect();
    assert_eq!(keys, vec!["game", "rescue", "rescue game", "save"]);
    let rescue = candidates(&index, "rescue");
    assert_eq!(rescue.len(), 2);
    assert_eq!((rescue[0].lemma.as_str(), rescue[0].rank, rescue[0].record), ("spasati", 400, 0));
    assert_eq!(rescue[0].trust, "verified-official");
    assert_eq!((rescue[1].lemma.as_str(), rescue[1].rank), ("spasti", 205));
    assert_eq!(rescue[1].official_id, None);
    assert_eq!(rescue[1].trust, "generated-review");
    assert_eq!(rescue[1].form_path, "api/forms/17.json");
    let save = candidates(&index, "save");
    assert_eq!(save.len(), 1);
    assert_eq!(save[0].official_id.as_deref(), Some("o-1"));
}

#[test]
fn english_index_attaches_aspects_and_semantic_notes() {
    let records = vec![record("dělati", 7, "official", "to do", None), record("činiti", 8, "generated", "to do", None)];
    let aspects = vec![AspectInfo { entry_id: 7, aspect: "ipf".to_string(), partners: vec![(9, "sdělati".to_string())] }];
    let notes = vec![SemanticNote {
        key: "delati".to_string(),
        warning: "false friend".to_string(),
        prefer: vec!["robiti".to_string()],
    }];
    let index = build_english_index(&records, &Vec::new(), &aspects, &notes);
    let dov = candidates(&index, "do");
    assert_eq!(dov[0].lemma, "dělati");
    assert_eq!(dov[0].aspect.as_deref(), Some("ipf"));
    assert_eq!(dov[0].aspect_partners, vec![(9, "sdělati".to_string())]);
    assert_eq!(dov[0].warnings, vec!["false friend".to_string()]);
    assert_eq!(dov[0].prefer, vec!["robiti".to_string()]);
    assert_eq!(dov[1].aspect, None);
    assert!(dov[1].warnings.is_empty());
}

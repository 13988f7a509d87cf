use slovowiki::derivatives::{inject_generated_derivatives, DerivedWord};
use slovowiki::render_index::{select_official_entry, OfficialSense};
use interslavic::derivation::Pos;

fn s(v: &str) -> String {
    v.to_string()
}

fn derived(form: &str, key: &str, pattern: &str, label: &str, pos: &str) -> DerivedWord {
    DerivedWord {
        base_id: 1,
        base: s("kniga"),
        base_gloss: s("book"),
        form: s(form),
        key: s(key),
        pattern: s(pattern),
        label: s(label),
        pos_code: s(pos),
    }
}

#[test]
fn derivatives_skip_taken_keys_and_ship_as_generated_lemmas() {
    let mut taken = vec![s("kniga"), s("knigy"), s("knige"), s("knizny")];
    let official = taken.clone();
    let words = vec![
        derived("knižny", "knizny", "adj-ny", "pridavnik", "adj"),
        derived(" knižka ", "knizka", "dim-ka", "umenšeno", "n"),
        derived("knižka", "knizka", "dim-ka", "umenšeno", "n"),
        derived("kniž ka", "knizka2", "x", "x", "n"),
        derived("knižnik!", "kniznik", "x", "x", "n"),
        derived("", "", "x", "x", "n"),
    ];
    let out = inject_generated_derivatives(&mut taken, &words);
    assert_eq!(out.len(), 1);
    let r = &out[0];
    assert_eq!(r.form, "knižka");
    assert_eq!(r.key, "knizka");
    assert_eq!(r.lemma, "knižka");
    assert_eq!(r.status, "generated");
    assert_eq!(r.source, "lemma");
    assert_eq!(r.feats, "deriv:dim-ka");
    assert_eq!(r.entry_id, 1);
    assert_eq!(r.gloss, "umenšeno ← kniga (book)");
    for r in &out {
        assert!(!official.contains(&r.key));
    }
    assert_eq!(taken, vec![s("kniga"), s("knigy"), s("knige"), s("knizny"), s("knizka")]);
}

fn sense(pos: &str, tokens: &[&str]) -> OfficialSense {
    OfficialSense { pos: s(pos), english_tokens: tokens.iter().map(|t| s(t)).collect() }
}

#[test]
fn official_sense_needs_lexical_evidence() {
    let senses = vec![
        sense("noun", &["house"]),
        sense("verb", &["to", "house"]),
        sense("noun", &["home", "house"]),
        sense("noun", &["building"]),
        sense("noun", &["fire", "place"]),
        sense("noun", &["house"]),
    ];
    let set = vec![s("house"), s("home")];
    // Most shared tokens wins; other parts of speech never qualify.
    assert_eq!(select_official_entry(&vec![0, 1, 2, 3], &senses, "noun", &set), Some(2));
    // No shared token and no compound match: no identity.
    assert_eq!(select_official_entry(&vec![3], &senses, "noun", &set), None);
    // A compound spelled by the tokens run together counts as evidence.
    assert_eq!(select_official_entry(&vec![3, 4], &senses, "noun", &vec![s("fireplace")]), Some(4));
    // On a tie the later row wins.
    assert_eq!(select_official_entry(&vec![0, 5], &senses, "noun", &vec![s("house")]), Some(5));
    // A compound match breaks an overlap tie.
    assert_eq!(select_official_entry(&vec![0, 2], &senses, "noun", &vec![s("house")]), Some(0));
}

/// The form-index key of a spelling: lowercased, with the Interslavic
/// diacritics folded to plain ASCII letters.
fn form_key(form: &str) -> String {
    form.trim()
        .to_lowercase()
        .chars()
        .map(|c| match c {
            'č' => 'c',
            'ž' => 'z',
            'š' => 's',
            'ě' | 'ę' | 'ė' => 'e',
            'ų' => 'u',
            'å' => 'a',
            'ȯ' => 'o',
            'ć' => 'c',
            'đ' => 'd',
            'ŕ' => 'r',
            'ĺ' => 'l',
            'ń' => 'n',
            'ť' => 't',
            'ď' => 'd',
            'ś' => 's',
            'ź' => 'z',
            other => other,
        })
        .collect()
}

#[test]
fn generated_derivatives_never_collide_and_are_all_generated() {
    // The official base and its full paradigm, and a would-be derivative
    // (the denominal adjective knižny) that is already official.
    let paradigm = interslavic::noun_forms("kniga");
    let mut official_keys: Vec<String> = vec![form_key("kniga")];
    for f in paradigm.singular.iter().chain(paradigm.plural.iter()) {
        let k = form_key(f);
        if !official_keys.contains(&k) {
            official_keys.push(k);
        }
    }
    official_keys.push(form_key("knižny"));
    let mut taken = official_keys.clone();
    let family: Vec<DerivedWord> = interslavic::derive("kniga", Pos::Noun)
        .into_iter()
        .map(|d| DerivedWord {
            base_id: 1,
            base: s("kniga"),
            base_gloss: s("book"),
            key: form_key(&d.form),
            form: d.form,
            pattern: s(d.pattern),
            label: s(d.label),
            pos_code: s(match d.pos {
                Pos::Noun => "n",
                Pos::Adjective => "adj",
                Pos::Verb => "v",
                Pos::Adverb => "adv",
            }),
        })
        .collect();
    let added = inject_generated_derivatives(&mut taken, &family);
    assert!(!added.is_empty(), "kniga must derive at least one absent family member");
    for r in &added {
        assert!(!official_keys.contains(&r.key), "generated {} collides with an official/official-only key", r.key);
        assert_eq!(r.status, "generated");
        assert_eq!(r.source, "lemma", "generated {} must be lemma-only", r.key);
        assert!(!r.pattern.is_empty(), "generated {} must carry a probability", r.key);
        assert!(r.feats.starts_with("deriv:"), "generated {} must carry deriv provenance", r.key);
    }
    let knizny_key = form_key("knižny");
    assert!(added.iter().all(|r| r.key != knizny_key), "knižny must not be re-emitted as a generated derivative");
    let knizka_key = form_key("knižka");
    assert!(added.iter().any(|r| r.key == knizka_key && r.status == "generated"), "knižka should ship as a generated derivative");
}

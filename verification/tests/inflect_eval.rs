use slovowiki::inflect_eval::{adjective_checks, bare_form, blank_cells, check_tallies, noun_checks, suppletive_checks};

fn s(v: &str) -> String {
    v.to_string()
}

#[test]
fn only_single_word_headwords_are_inflected() {
    assert_eq!(bare_form("  myti sę "), Some(s("myti")));
    assert_eq!(bare_form("dom"), Some(s("dom")));
    assert_eq!(bare_form("dobry dėn"), None);
    assert_eq!(bare_form("x#1"), None);
    assert_eq!(bare_form("hej!"), None);
    assert_eq!(bare_form(" sę"), Some(s("sę")));
    assert_eq!(bare_form("   "), None);
}

#[test]
fn checks_are_tallied_per_rule() {
    let events = vec![(s("nom"), true), (s("gen"), false), (s("nom"), false), (s("gen"), true), (s("adj"), false)];
    let (checks, passes) = check_tallies(&events);
    assert_eq!(checks, vec![(s("adj"), 1), (s("gen"), 2), (s("nom"), 2)]);
    assert_eq!(passes, vec![(s("gen"), 1), (s("nom"), 1)]);
}

#[test]
fn blank_cells_are_counted() {
    assert_eq!(blank_cells(&vec![s("dom"), s("—"), s("doma"), s("—")]), 2);
    assert_eq!(blank_cells(&Vec::new()), 0);
}

fn v(xs: &[&str]) -> Vec<String> {
    xs.iter().map(|x| x.to_string()).collect()
}

#[test]
fn noun_rules_and_their_exemptions() {
    // A masculine noun: both rules apply.
    let r = noun_checks(true, "dom", true, false, &v(&["dom"]), "doma", &v(&["doma"]));
    assert_eq!(r, vec![(s("noun table struct path = cell getter"), true), (s("noun nom.sg = citation form"), true), (s("masc/neut gen.sg ends -a"), true)]);
    // A wrong genitive and a wrong nominative fail.
    let r = noun_checks(true, "dom", true, false, &v(&["domy"]), "domu", &v(&["domu"]));
    assert_eq!(r[1], (s("noun nom.sg = citation form"), false));
    assert_eq!(r[2], (s("masc/neut gen.sg ends -a"), false));
    // A blank genitive fails even with a variant in -a.
    assert!(!noun_checks(true, "dom", true, false, &v(&["dom"]), "—", &v(&["doma"]))[2].1);
    // Cited in the plural: only the struct check.
    assert_eq!(noun_checks(false, "dveri", true, true, &v(&[]), "", &v(&[])), vec![(s("noun table struct path = cell getter"), false)]);
    // Indeclinable, a-stem and feminine nouns skip the genitive rule.
    assert_eq!(noun_checks(true, "kafe", true, false, &v(&["kafe"]), "kafe", &v(&["kafe"])).len(), 2);
    assert_eq!(noun_checks(true, "sluga", true, false, &v(&["sluga"]), "slugy", &v(&["slugy"])).len(), 2);
    assert_eq!(noun_checks(true, "žena", false, false, &v(&["žena"]), "ženy", &v(&["ženy"])).len(), 2);
    // A nominalised adjective may take -ogo/-ego; another noun may not.
    assert!(noun_checks(true, "zemny", true, false, &v(&["zemny"]), "zemnogo", &v(&["zemnogo"]))[2].1);
    assert!(!noun_checks(true, "stol", true, false, &v(&["stol"]), "stolego", &v(&["stolego"]))[2].1);
}

#[test]
fn adjective_nominatives_agree() {
    let r = adjective_checks("dobry", "dobry", "dobra", "dobra", "dobro", "dobro", true);
    assert!(r.iter().all(|(_, ok)| *ok));
    assert_eq!(r.len(), 4);
    let r = adjective_checks("dobry", "dobri", "—", "a", "dobry", "dobry", false);
    assert_eq!(r, vec![
        (s("adj table struct path = cell getter"), false),
        (s("adj nom.sg.m = citation form"), false),
        (s("adj nom.sg.f ends -a"), false),
        (s("adj nom.sg.n ends -o/-e"), false),
    ]);
    assert!(adjective_checks("svěži", "svěži", "svěža", "svěža", "svěže", "svěže", true)[3].1);
}

#[test]
fn suppletive_plurals_are_found_among_variants() {
    let r = suppletive_checks(&vec![(s("ljudi / člověky"), s("ljudi")), (s("oka"), s("oči")), (s(" oči/oka"), s("oči"))]);
    let rule = s("suppletive plurals (§3.1, from the inflector)");
    assert_eq!(r, vec![(rule.clone(), true), (rule.clone(), false), (rule, true)]);
}

use slovowiki::aspects::link_aspect_partners;
use slovowiki::coverage::{extraction_reconciles, kept_tallies};
use slovowiki::family::etymon_display;
use slovowiki::layout::{calibration_note, source_class, CalibrationView};
use slovowiki::model::{CandidateSource, Confidence, MatchStatus};
use slovowiki::raw_plan::RawLemma;
use slovowiki::search::{official_rank, status_tally};
use slovowiki::site_meta::SiteEntryMeta;
use slovowiki::review_pages::{borrowing_portal_page, needs_review, needs_review_page, simple_index_page};

fn s(v: &str) -> String {
    v.to_string()
}

fn meta(id: usize, title: &str, pos: &str, official: bool) -> SiteEntryMeta {
    SiteEntryMeta {
        id,
        title: s(title),
        gloss: s(""),
        pos: s(pos),
        pos_heading: s(""),
        status: MatchStatus::OfficialMatch,
        conf: Confidence::High,
        conf_label: s(""),
        n_langs: 0,
        n_branches: 0,
        borrowed: false,
        official_only: false,
        raw: false,
        official_lemma: if official { Some(s(title)) } else { None },
        ancestor: s(""),
        languages: Vec::new(),
        first: s(""),
        categories: Vec::new(),
        aspect: None,
        aspect_partners: Vec::new(),
    }
}

fn cal() -> CalibrationView {
    CalibrationView {
        review_t: s("0.3"),
        propose_t: s("0.6"),
        propose_precision: s("71.2"),
        propose_coverage: s("40.5"),
        review_band: Some(s("44")),
        holdout_ece: s("0.031"),
    }
}

#[test]
fn etymon_names_the_source_language_plainly() {
    assert_eq!(etymon_display("la computare"), "latinsky computare");
    assert_eq!(etymon_display("qq foo"), "qq foo");
}

#[test]
fn calibration_note_without_a_calibrator() {
    assert_eq!(
        calibration_note(Confidence::High, &None),
        "<p class='muted calib'>Sovmestimaja kalibracija ne dostupna — znak uvěrjenosti jest nekalibrovany modelovy kȯšik, ne věrojętnosť.</p>"
    );
}

#[test]
fn calibration_note_reads_the_calibrator() {
    let c = Some(cal());
    assert_eq!(
        calibration_note(Confidence::High, &c),
        "<p class='muted calib'>Kalibrovana věrodostojnosť: predlog p≥0.6: 71.2% takyh kandidatov odgovara oficialnomu slovniku (40.5% pokrytje) (izměrjeno na odloženoj četvrtině; ECE 0.031).</p>"
    );
    assert_eq!(
        calibration_note(Confidence::Medium, &c),
        "<p class='muted calib'>Kalibrovana věrodostojnosť: pregled p∈[0.3,0.6): ≈44% takyh kandidatov odgovara oficialnomu slovniku (izměrjeno na odloženoj četvrtině; ECE 0.031).</p>"
    );
    let no_band = Some(CalibrationView { review_band: None, ..cal() });
    assert!(calibration_note(Confidence::Medium, &no_band).contains("věrodostojnosť: pregled p∈[0.3,0.6) (izměrjeno"));
    assert!(calibration_note(Confidence::Low, &c).contains("pod pragom pregleda (p<0.3)"));
}

#[test]
fn manual_overrides_use_the_consensus_class() {
    assert_eq!(source_class(CandidateSource::ManualOverride), "src-consensus");
    assert_eq!(source_class(CandidateSource::BranchConsensus), "src-consensus");
    assert_eq!(source_class(CandidateSource::OfficialDictionary), "src-official");
    assert_eq!(source_class(CandidateSource::ProtoSlavicRule), "src-proto");
}

#[test]
fn extraction_counts_reconcile() {
    assert!(extraction_reconciles(7, 3, 10, 7));
    assert!(!extraction_reconciles(7, 3, 11, 7));
    assert!(!extraction_reconciles(7, 3, 10, 6));
}

#[test]
fn kept_lemmas_are_tallied_by_language_and_pos() {
    let l = |lang: &str, pos: &str| RawLemma { lang: s(lang), word: s("w"), pos: s(pos), fold: s("w") };
    let (langs, poses) = kept_tallies(&vec![l("pl", "noun"), l("cs", "verb"), l("pl", "noun"), l("ru", "noun")]);
    assert_eq!(langs, vec![(s("cs"), 1), (s("pl"), 2), (s("ru"), 1)]);
    assert_eq!(poses, vec![(s("noun"), 3), (s("verb"), 1)]);
    let (a, b) = kept_tallies(&Vec::new());
    assert!(a.is_empty() && b.is_empty());
}

#[test]
fn aspect_partners_are_linked_both_ways() {
    let mut ms = vec![meta(1, "pisati", "verb", true), meta(2, "napisati", "verb", true), meta(3, "dom", "noun", true)];
    let r = link_aspect_partners(&mut ms, &vec![(1, s("ipf")), (2, s("pf"))], &vec![(1, 2), (2, 1), (3, 3)]);
    assert_eq!(r, Ok(()));
    assert_eq!(ms[0].aspect, Some(s("ipf")));
    assert_eq!(ms[1].aspect, Some(s("pf")));
    assert_eq!(ms[0].aspect_partners, vec![(2, s("napisati"))]);
    assert_eq!(ms[1].aspect_partners, vec![(1, s("pisati"))]);
    assert!(ms[2].aspect.is_none() && ms[2].aspect_partners.is_empty());
}

#[test]
fn aspect_on_a_non_verb_fails_the_build() {
    let mut ms = vec![meta(1, "pisati", "verb", true), meta(3, "dom", "noun", true)];
    let r = link_aspect_partners(&mut ms, &vec![(3, s("ipf"))], &Vec::new());
    assert_eq!(r, Err(s("aspect metadata leaked onto non-official/non-verb entry 3 (dom)")));
    let mut ms = vec![meta(1, "pisati", "verb", false), meta(2, "napisati", "verb", true)];
    let r = link_aspect_partners(&mut ms, &vec![(2, s("pf"))], &vec![(1, 2)]);
    assert_eq!(r, Err(s("aspect metadata leaked onto non-official/non-verb entry 1 (pisati)")));
}

#[test]
fn one_way_partner_links_fail_the_build() {
    let mut ms = vec![meta(1, "pisati", "verb", true), meta(2, "napisati", "verb", true)];
    ms[0].aspect_partners = vec![(9, s("x"))];
    let r = link_aspect_partners(&mut ms, &vec![(1, s("ipf"))], &Vec::new());
    assert_eq!(r, Err(s("aspect partner 9 for 1 has no entry")));
    let mut ms = vec![meta(1, "pisati", "verb", true), meta(2, "napisati", "verb", true)];
    ms[0].aspect_partners = vec![(2, s("napisati"))];
    let r = link_aspect_partners(&mut ms, &vec![(1, s("ipf")), (2, s("pf"))], &Vec::new());
    assert_eq!(r, Err(s("aspect partner link is not reciprocal: 1 -> 2")));
}

#[test]
fn official_lemma_points_at_the_first_agreeing_candidate() {
    assert_eq!(official_rank(&vec![false, true, true]), 2);
    assert_eq!(official_rank(&vec![true]), 1);
    assert_eq!(official_rank(&vec![false, false]), 1);
    assert_eq!(official_rank(&Vec::new()), 1);
}

#[test]
fn export_tallies_match_statuses() {
    let st = vec![MatchStatus::OfficialMatch, MatchStatus::NoOfficialEntry, MatchStatus::OfficialMatch, MatchStatus::DiffersFromOfficial];
    assert_eq!(status_tally(&st), (2, 1, 1));
    assert_eq!(status_tally(&Vec::new()), (0, 0, 0));
}

#[test]
fn white_space_class_agrees_with_std_on_every_char() {
    for c in (0u32..=0x10FFFF).filter_map(char::from_u32) {
        assert_eq!(slovowiki::strs::char_is_whitespace(c), c.is_whitespace(), "{:?}", c);
    }
}

#[test]
fn families_group_unsuppressed_pages_by_key() {
    use_family_groups();
}

fn fam(etymon: &str) -> slovowiki::family::FamilyMember {
    slovowiki::family::FamilyMember {
        id: 0,
        display: s("x"),
        set: slovowiki::family::CognateSet { pos: s("n"), gloss: s(""), borrowed: true, etymon: s(etymon), proto: s("") },
    }
}

fn use_family_groups() {
    let prepared = vec![fam("la magister"), fam(" "), fam("la magister "), fam("de Kaffee"), fam("la magister")];
    let groups = slovowiki::family::family_groups(&prepared, &vec![false, false, false, false, true]);
    assert_eq!(groups, vec![(s("et:de Kaffee"), vec![3]), (s("et:la magister"), vec![0, 2])]);
}

#[test]
fn review_decision_and_sections() {
    use_review();
}

fn use_review() {
    let mut good = meta(1, "dom", "noun", true);
    good.n_branches = 3;
    good.n_langs = 5;
    assert!(!needs_review(&good, false));
    assert!(needs_review(&good, true));
    let mut low = meta(2, "nizko", "noun", true);
    low.n_branches = 3;
    low.n_langs = 5;
    low.conf = Confidence::Low;
    assert!(needs_review(&low, false));
    let page = needs_review_page(&vec![low], "5.0");
    assert!(page.contains("<title>Speciaľno:TrěbujePrověrky</title>"));
    let nizka = page.find("<h2 id='nizka'>").unwrap();
    let one = page.find("<h2 id='jedna-vetv'>").unwrap();
    assert!(page[nizka..one].contains("nizko"));
    assert!(!page[one..].contains("nizko"));
    let idx = simple_index_page("Indeks: D", "Abecedny indeks po prvoj bukvě.", &vec![good], 1, "5.0");
    assert!(idx.contains("<h1 class='firstHeading'>Indeks: D</h1><p>Abecedny indeks po prvoj bukvě.</p>"));
    assert!(idx.contains("<h3>Čęsti rěči</h3>"));
    let mut b = meta(3, "majstor", "noun", false);
    b.ancestor = s("la magister");
    b.borrowed = true;
    let portal = borrowing_portal_page(&vec![b], &vec![0], "1.0");
    assert!(portal.contains("<h3>Izvorni języky</h3>"));
    assert!(portal.matches("majstor").count() >= 2);
}

#[test]
fn family_keys_name_the_stem_or_the_etymon() {
    let inherited = slovowiki::family::CognateSet { pos: s("n"), gloss: s(""), borrowed: false, etymon: s(""), proto: s("*starostь") };
    assert_eq!(slovowiki::family::family_key(&inherited), Some(s("st:star")));
    let loan = slovowiki::family::CognateSet { pos: s("n"), gloss: s(""), borrowed: true, etymon: s(" la magister "), proto: s("") };
    assert_eq!(slovowiki::family::family_key(&loan), Some(s("et:la magister")));
    let bare = slovowiki::family::CognateSet { pos: s("n"), gloss: s(""), borrowed: true, etymon: s("  "), proto: s("*dom") };
    assert_eq!(slovowiki::family::family_key(&bare), None);
}

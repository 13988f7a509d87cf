use slovowiki::inflection::{append_reflexive, verb_form};
use slovowiki::graph::{backlinks_by_target, counts_table};
use slovowiki::blocks::{
    etym_is_stub, official_example_block, status_banner, strip_official_marker, trace_block,
    word_formation_block,
};
use slovowiki::categories::{
    add_category_path, category_key, category_title, first_bucket, is_maintenance_wiki_category,
    push_wiki_paths, raw_wiki_category_path, slug, suffix_bucket, topic_category_path,
    translate_wiki_label, wiki_topic_root,
};
use slovowiki::english_api::{english_shard_of, fnv1a32, normalize_english_query, usable_key};
use slovowiki::graph::{graph_json, DeterministicEntryIds, LinkEdge};
use slovowiki::inflection::{
    adj_table, inflection_table_g, inflection_target, noun_table, verb_table, Paradigm, TableKind,
    VerbCells,
};
use slovowiki::layout::{compact, esc, json_str, page, query_escape, truncate, urlencode_q};
use slovowiki::model::{Candidate, CandidateSource, FoldedForm, MatchStatus, TraceStep};
use slovowiki::pages::{
    about_page, build_json, corpus_about, datasets_coverage_section, datasets_page, random_page, site_page,
    BuildMeta, ExtractionStats, SEARCH_JS,
};
use slovowiki::raw_plan::{e_blind_string, raw_lemma_fate, RawFate, RawLemma};
use slovowiki::search::{add_official_byform_keys, keys_json, search_keys};
use slovowiki::strs::trim;
use slovowiki::xref::{source_url, HeadwordIndex, Xref};

fn s(v: &str) -> String {
    v.to_string()
}

fn strings(v: &[&str]) -> Vec<String> {
    v.iter().map(|x| x.to_string()).collect()
}

#[test]
fn esc_replaces_every_markup_character() {
    assert_eq!(esc("<a href=\"x\">'&'</a>"), "&lt;a href=&quot;x&quot;&gt;&#39;&amp;&#39;&lt;/a&gt;");
    assert_eq!(esc("žena"), "žena");
    let out = esc("a<b>c\"d'e");
    assert!(!out.contains('<') && !out.contains('>') && !out.contains('"') && !out.contains('\''));
}

#[test]
fn json_str_escapes_quotes_backslashes_and_controls() {
    assert_eq!(json_str("a\"b\\c\nd\te\u{1}f"), "\"a\\\"b\\\\c\\nd ef\"");
    assert_eq!(json_str(""), "\"\"");
}

#[test]
fn truncate_counts_characters_not_bytes() {
    assert_eq!(truncate("žąčęš", 3), "žąč…");
    assert_eq!(truncate("ab", 3), "ab");
    assert_eq!(truncate("abc", 3), "abc");
}

#[test]
fn compact_groups_thousands() {
    assert_eq!(compact(0), "0");
    assert_eq!(compact(999), "999");
    assert_eq!(compact(1000), "1,000");
    assert_eq!(compact(1234567), "1,234,567");
}

#[test]
fn urlencode_q_escapes_the_query_characters() {
    assert_eq!(urlencode_q("a b&'\"%"), "a%20b%26%27%22%25");
}

#[test]
fn query_escape_percent_encodes_utf8_bytes() {
    assert_eq!(query_escape("a b-č"), "a+b-%C4%8D");
    assert_eq!(query_escape("Az09-_.~"), "Az09-_.~");
}

#[test]
fn normalize_lowercases_and_collapses_punctuation() {
    assert_eq!(normalize_english_query("Hello,  WORLD!!"), "hello world");
    assert_eq!(normalize_english_query("  "), "");
    assert_eq!(normalize_english_query("ÄÖ-ü"), "äö ü");
}

#[test]
fn fnv1a32_matches_the_reference_values() {
    assert_eq!(fnv1a32(""), 2166136261);
    assert_eq!(fnv1a32("save"), 3439296072);
    assert_eq!(english_shard_of("save"), 72);
    assert_eq!(english_shard_of("game"), 7);
    assert!(english_shard_of("anything at all") < 256);
}

#[test]
fn usable_keys_exclude_stopwords_and_fragments() {
    assert!(usable_key("save"));
    assert!(!usable_key("the"));
    assert!(!usable_key("x"));
    assert!(!usable_key("house of cards"));
    assert!(!usable_key("used to"));
}

#[test]
fn trim_strips_unicode_whitespace() {
    assert_eq!(trim("\u{3000} a b \n"), "a b");
}

#[test]
fn xref_reads_back_the_latest_insertion() {
    let mut x = Xref::new();
    assert_eq!(x.get("ru", "дом"), None);
    x.insert("ru", "дом", 3);
    x.insert("ru", "дом", 4);
    x.insert("pl", "dom", 5);
    assert_eq!(x.get("ru", "дом"), Some(4));
    assert_eq!(x.get("pl", "dom"), Some(5));
    assert_eq!(x.get("cs", "dom"), None);
    let mut h = HeadwordIndex::new();
    h.insert("dom", 1);
    h.insert("dom", 2);
    assert_eq!(h.get("dom"), Some(2));
    assert_eq!(h.get("domy"), None);
}

#[test]
fn source_url_points_at_the_native_wiktionary() {
    assert_eq!(source_url("pl", "dom"), "https://pl.wiktionary.org/wiki/dom");
}

fn lemma(lang: &str, word: &str, fold: &str) -> RawLemma {
    RawLemma { lang: s(lang), word: s(word), pos: s("noun"), fold: s(fold) }
}

#[test]
fn raw_lemma_fate_gives_every_variant() {
    let mut xref = Xref::new();
    xref.insert("pl", "kot", 9);
    let mut isv = HeadwordIndex::new();
    isv.insert("delo", 42);
    let mut covered: Vec<String> = Vec::new();
    assert!(matches!(raw_lemma_fate(&lemma("pl", "  ", "x"), &xref, &isv, &mut covered), RawFate::Skipped));
    assert!(matches!(raw_lemma_fate(&lemma("pl", " kot ", "kot"), &xref, &isv, &mut covered), RawFate::DedupedXref));
    assert!(matches!(raw_lemma_fate(&lemma("sk", "nič", ""), &xref, &isv, &mut covered), RawFate::Skipped));
    // The ě-blind variant of the fold finds the official headword too.
    assert!(matches!(
        raw_lemma_fate(&lemma("ru", "дело", "dělo"), &xref, &isv, &mut covered),
        RawFate::DedupedFold { target: 42 }
    ));
    match raw_lemma_fate(&lemma("cs", "město", "město"), &xref, &isv, &mut covered) {
        RawFate::Rendered { efold } => assert_eq!(efold, "mesto"),
        _ => panic!("město should get its own page"),
    }
    match raw_lemma_fate(&lemma("sr", "mesto", "mesto"), &xref, &isv, &mut covered) {
        RawFate::DedupedRawTwin { efold } => assert_eq!(efold, "mesto"),
        _ => panic!("mesto is the raw twin of město"),
    }
    assert_eq!(covered, vec![s("mesto")]);
    assert_eq!(e_blind_string("ěvě"), "eve");
}

#[test]
fn plan_counts_reconcile_with_the_corpus() {
    let xref = Xref::new();
    let isv = HeadwordIndex::new();
    let lemmas = vec![lemma("pl", "a1", "a"), lemma("cs", "a2", "a"), lemma("sk", "b", "b")];
    let plan = slovowiki::raw_plan::plan_raw_pages(&lemmas, &xref, &isv, 0);
    assert_eq!(plan.pages, vec![(0, 1), (2, 2)]);
    assert_eq!(plan.pages.len() + plan.deduped, lemmas.len());
    assert_eq!(plan.xref.get("cs", "a2"), Some(1));
}

fn cand(form: &str, standard: &str, skeleton: &str) -> Candidate {
    Candidate {
        form: s(form),
        source: CandidateSource::BranchConsensus,
        standard_fold: s(standard),
        ascii_skeleton: s(skeleton),
        trace: Vec::new(),
        warnings: Vec::new(),
    }
}

#[test]
fn search_keys_take_five_candidates_and_skip_short_and_repeated_keys() {
    let cands = vec![
        cand("A", "a", "a"),
        cand("dom", "dom", "dom"),
        cand("Dom", "dom", "dom"),
        cand("kot", "kot", "kot"),
        cand("pes", "pes", "pes"),
        cand("lis", "lis", "lis"),
    ];
    let keys = search_keys(&cands, "kot");
    assert_eq!(keys, vec![(s("dom"), 2), (s("pes"), 5)]);
    assert_eq!(keys_json(&keys), "[[\"dom\",2],[\"pes\",5]]");
    assert_eq!(keys_json(&Vec::new()), "[]");
}

#[test]
fn byform_keys_join_the_existing_keys_once() {
    let mut keys = vec![(s("imati"), 1)];
    let byforms = vec![
        FoldedForm { form: s("Imati"), standard_fold: s("imati"), ascii_skeleton: s("imati") },
        FoldedForm { form: s("iměti"), standard_fold: s("imeti"), ascii_skeleton: s("imeti") },
    ];
    add_official_byform_keys(&mut keys, &byforms, "iměti", 3);
    assert_eq!(keys, vec![(s("imati"), 1), (s("imeti"), 3)]);
}

#[test]
fn official_marker_and_example_blocks() {
    assert_eq!(strip_official_marker("  !Baum "), "Baum");
    assert_eq!(strip_official_marker("! Baum"), "Baum");
    assert_eq!(strip_official_marker("Baum!"), "Baum!");
    assert_eq!(official_example_block("   "), "");
    let ex = official_example_block(" Ja <vidžu> ");
    assert!(ex.contains("<blockquote class='example-official'>Ja &lt;vidžu&gt;</blockquote>"), "{ex}");
    assert!(etym_is_stub("  "));
    assert!(etym_is_stub("Происходит от ??"));
    assert!(!etym_is_stub("From Proto-Slavic *domъ"));
    assert_eq!(word_formation_block(" ", ""), "");
    assert_eq!(
        word_formation_block("<p>d</p>", ""),
        "<section><h2 id='slovotvorstvo'>Slovotvorstvo</h2><p>d</p></section>"
    );
}

#[test]
fn status_banner_names_each_status() {
    let top = cand("dȯm", "dom", "dom");
    assert!(status_banner(MatchStatus::OfficialMatch, &top, "dom").contains("banner ok"));
    let differs = status_banner(MatchStatus::DiffersFromOfficial, &top, "<dom>");
    assert!(differs.contains("banner warn") && differs.contains("dȯm") && differs.contains("&lt;dom&gt;"));
    assert!(status_banner(MatchStatus::NoOfficialEntry, &top, "").contains("banner info"));
}

#[test]
fn trace_block_lists_steps_and_warnings() {
    let mut c = cand("dom", "dom", "dom");
    assert_eq!(
        trace_block(&c),
        "<p class='muted'>Bez transformacij (forma vzęta prěmo iz konsensusa).</p>"
    );
    c.trace.push(TraceStep {
        id: s("R1"),
        before: s("domъ"),
        after: s("dom"),
        explanation: s("jer"),
        reference: Some(s("rules.html#R1")),
    });
    c.warnings.push(s("<homograph>"));
    assert_eq!(
        trace_block(&c),
        "<ol class='rule-trace'><li><code class='rule-id'>R1</code>: <span class='mention'>domъ</span> → <span class='mention'>dom</span><br><span class='muted'>jer</span> <a class='doc-ref' href='rules.html#R1'>[dok]</a></li></ol><div class='notice'><p>⚠ &lt;homograph&gt;</p></div>"
    );
}

fn verb_cells() -> VerbCells {
    VerbCells {
        present: strings(&["dělajų", "dělaješ", "dělaje", "dělajemo", "dělajete", "dělajųt"]),
        imperfect: strings(&["dělah"]),
        future: Vec::new(),
        perfect: Vec::new(),
        pluperfect: Vec::new(),
        conditional: Vec::new(),
        imperative: strings(&["dělaj", "dělajmo", "dělajte"]),
        nonfinite: vec![(s("inf"), s("dělati")), (s("pres"), s("dělajuči"))],
    }
}

#[test]
fn verb_table_fills_missing_cells_with_dashes() {
    assert_eq!(
        verb_table(&None),
        "<p class='muted'>Prěgibanje glagola ne može byti generovano.</p>"
    );
    let t = verb_table(&Some(verb_cells()));
    assert!(t.contains("<tr><th>1. jedn.</th><td>dělajų</td><td>dělah</td><td>—</td></tr>"), "{t}");
    assert!(t.contains("<tr><th>2. jedn.</th><td>dělaješ</td><td>—</td><td>—</td></tr>"));
    assert!(t.contains("<tr><th>3. jedn. ž.</th><td>—</td><td>—</td><td>—</td></tr>"));
    assert!(t.contains("<tr><th>1. množ.</th><td>dělajmo</td></tr>"));
    assert!(t.contains("<tr><th>Infinitiv</th><td>dělati</td></tr>"));
    assert!(t.contains("<tr><th>Aktivny participij teperešnji</th><td>dělajuči</td></tr>"));
    assert!(!t.contains("Gerundij"));
    assert!(t.ends_with("</tbody></table>"));
}

#[test]
fn noun_and_adjective_tables_escape_each_cell() {
    let cells: [(String, String); 6] = [
        (s("žena"), s("ženy")),
        (s("ženu"), s("ženy")),
        (s("ženy"), s("žen")),
        (s("ženě"), s("ženam")),
        (s("ženě"), s("ženah")),
        (s("ženoju"), s("<ženami>")),
    ];
    let t = noun_table(&cells);
    assert!(t.starts_with("<table class='wikitable inflection-table'><thead><tr><th>Padež</th>"));
    assert!(t.contains("<tr><th>Nominativ</th><td>žena</td><td>ženy</td></tr>"));
    assert!(t.contains("<tr><th>Instrumental</th><td>ženoju</td><td>&lt;ženami&gt;</td></tr>"));
    let row = |x: &str| [s(x), s(x), s(x), s(x)];
    let sg = [row("dobry"), row("dobrogo"), row("dobrogo"), row("dobromu"), row("dobrom"), row("dobrym")];
    let pl = [row("dobri"), row("dobryh"), row("dobryh"), row("dobrym"), row("dobryh"), row("dobrymi")];
    let a = adj_table(&sg, &pl);
    assert!(a.starts_with("<h3>Jednina</h3>"));
    assert!(a.contains("<tr><th>Dativ</th><td>dobromu</td><td>dobromu</td><td>dobromu</td><td>dobromu</td></tr>"));
    assert!(a.contains("<h3>Množina</h3>"));
    assert_eq!(inflection_table_g(&Paradigm::Noun(cells)), t);
    assert_eq!(
        inflection_table_g(&Paradigm::NoTable),
        "<p class='muted'>Za tų čęst rěči nema tablicy prěgibanja.</p>"
    );
}

#[test]
fn inflection_target_strips_the_reflexive_particle() {
    let (kind, bare, refl) = inflection_target("smějati sę", "verb");
    assert_eq!(kind, TableKind::Verb);
    assert_eq!(bare, "smějati");
    assert!(refl);
    let (kind, bare, refl) = inflection_target("grad", "proper_noun");
    assert_eq!(kind, TableKind::Noun);
    assert_eq!(bare, "grad");
    assert!(!refl);
    assert_eq!(inflection_target("dobry", "adj").0, TableKind::Adjective);
    assert_eq!(inflection_target("i", "conj").0, TableKind::NoTable);
}

#[test]
fn slugs_join_ascii_runs_with_single_dashes() {
    assert_eq!(slug("hello, world--x"), "hello-world-x");
    assert_eq!(slug("---"), "x");
    assert_eq!(slug("ab-"), "ab");
    assert_eq!(slug("Vse temy"), "Vse-temy");
    assert_eq!(category_key(&strings(&["vse temy", "ljudi"])), "vse-temy__ljudi");
    assert_eq!(category_title(&strings(&["Priroda", "Životinje"])), "Priroda » Životinje");
    assert_eq!(category_title(&Vec::new()), "");
}

#[test]
fn category_paths_are_trimmed_and_kept_once() {
    let mut cats: Vec<Vec<String>> = Vec::new();
    add_category_path(&mut cats, strings(&[" Priroda ", "", "Ptice"]));
    add_category_path(&mut cats, strings(&["Priroda", "Ptice "]));
    add_category_path(&mut cats, strings(&["  ", ""]));
    add_category_path(&mut cats, strings(&["Priroda"]));
    assert_eq!(cats, vec![strings(&["Priroda", "Ptice"]), strings(&["Priroda"])]);
}

#[test]
fn wiktionary_labels_map_to_topics() {
    assert!(is_maintenance_wiki_category("Pages with 1 entry"));
    assert!(is_maintenance_wiki_category("Russian terms with IPA pronunciation"));
    assert!(!is_maintenance_wiki_category("Mammals"));
    assert_eq!(
        topic_category_path("polsky", "pl:Mammals"),
        Some(strings(&["Fundamentalne", "Vsi języky", "polsky", "Vse temy", "Priroda", "Životinje"]))
    );
    assert_eq!(
        topic_category_path("rusky", "Human_behaviour"),
        Some(strings(&["Fundamentalne", "Vsi języky", "rusky", "Vse temy", "Člověk", "Člověčje povědanje"]))
    );
    assert_eq!(topic_category_path("rusky", "Colors"), None);
    assert_eq!(
        wiki_topic_root("česky", strings(&["Nauka"])),
        strings(&["Fundamentalne", "Vsi języky", "česky", "Vse temy", "Nauka"])
    );
    assert_eq!(translate_wiki_label("Category:Category:English_terms_related_to_Technology"), "Tehnologija");
    assert_eq!(translate_wiki_label("  All topics  "), "Vse temy");
    // Whitespace is collapsed only after the vocabulary is translated.
    assert_eq!(translate_wiki_label("  All   topics  "), "All topics");
    assert_eq!(
        raw_wiki_category_path("polsky", "Tools"),
        strings(&["Fundamentalne", "Vsi języky", "polsky", "Kategorije Wiktionary", "Instrumenty"])
    );
    let mut out: Vec<Vec<String>> = Vec::new();
    push_wiki_paths(
        &mut out,
        "polsky",
        &strings(&["Pages with entries about birds", "Fish"]),
        &strings(&["mammals", "colors", "mammal"]),
        &Vec::new(),
    );
    assert_eq!(
        out,
        vec![
            strings(&["Fundamentalne", "Vsi języky", "polsky", "Vse temy", "Priroda", "Životinje"]),
            strings(&["Fundamentalne", "Vsi języky", "polsky", "Vse temy", "Priroda", "Životinje", "Ryby"]),
        ]
    );
}

#[test]
fn buckets_by_ending_and_first_letter() {
    assert_eq!(suffix_bucket("delati", "verb"), "glagoly na -ti");
    assert_eq!(suffix_bucket("idti", "verb"), "glagoly na -ti");
    assert_eq!(suffix_bucket("moći", "verb"), "druge glagoly");
    assert_eq!(suffix_bucket("dobry", "adj"), "pridavniki na -y");
    assert_eq!(suffix_bucket("", "adj"), "pridavniki");
    assert_eq!(suffix_bucket("grad", "noun"), "zakončenje -ad");
    assert_eq!(suffix_bucket("ž", "noun"), "zakončenje -ž");
    assert_eq!(suffix_bucket("", "noun"), "druga zakončenja");
    assert_eq!(first_bucket("zena"), "Z");
    assert_eq!(first_bucket("-9a"), "9");
    assert_eq!(first_bucket("--"), "#");
}

#[test]
fn entry_ids_count_up_from_one() {
    let mut ids = DeterministicEntryIds::new();
    assert_eq!(ids.max_id(), 0);
    assert_eq!(ids.alloc_id(), 1);
    assert_eq!(ids.alloc_id(), 2);
    assert_eq!(ids.max_id(), 2);
    let d: DeterministicEntryIds = Default::default();
    assert_eq!(d.max_id(), 0);
}

#[test]
fn graph_json_lists_edges_one_per_line() {
    let edge = |a: usize, b: usize, kind: &str, title: &str| LinkEdge {
        source_id: a,
        source_title: s("src"),
        target_id: b,
        target_title: s(title),
        kind: s(kind),
    };
    assert_eq!(graph_json(&Vec::new()), "[\n\n]\n");
    assert_eq!(
        graph_json(&vec![edge(1, 2, "syn", "dom"), edge(3, 4, "rod", "\"x\"")]),
        "[\n[1,2,\"syn\",\"dom\"],\n[3,4,\"rod\",\"\\\"x\\\"\"]\n]\n"
    );
}

#[test]
fn pages_wrap_their_bodies_in_the_shell() {
    let r = random_page();
    assert!(r.contains("<title>Speciaľno:Slučajno</title>"));
    assert!(r.contains(SEARCH_JS));
    assert_eq!(site_page("t", "b", 1), page("t", "b", 1, SEARCH_JS));
    let d = datasets_page("<p>cov</p>");
    assert!(d.contains("<p>cov</p></article>"));
    let about = corpus_about(1234, 5, 67);
    assert!(about.contains("<td>1,234</td>") && about.contains("<td>5</td>"));
    assert_eq!(
        build_json(&BuildMeta { git: s("abc"), generated: s("2024"), total_entries: 3, lemma_total: 10 }),
        "{\n  \"generated\": \"2024\",\n  \"git\": \"abc\",\n  \"entries\": 3,\n  \"lemmas\": 10\n}\n"
    );
}

fn official_row(isv: &str, fold: &str, english: &[&str]) -> slovowiki::render_index::OfficialRow {
    slovowiki::render_index::OfficialRow { isv: s(isv), fold: s(fold), english_tokens: strings(english) }
}

fn set_summary(
    form: &str,
    form_fold: &str,
    cands: &[&str],
    gloss: &[&str],
    score_key: i32,
    members: &[(&str, &str)],
) -> slovowiki::render_index::SetSummary {
    slovowiki::render_index::SetSummary {
        form: s(form),
        form_fold: s(form_fold),
        candidate_folds: strings(cands),
        gloss_tokens: strings(gloss),
        score_key,
        members: members.iter().map(|(l, w)| (s(l), s(w))).collect(),
    }
}

#[test]
fn render_index_keeps_one_page_per_official_lemma_and_suppresses_twins() {
    let rows = vec![
        official_row("dom", "dom", &["house", "home"]),
        official_row("voda", "voda", &["water"]),
        official_row("kniga", "kniga", &["book"]),
        official_row("#skip", "#skip", &["nothing"]),
        official_row("dobry den", "dobry den", &["good", "day"]),
    ];
    let sets = vec![
        set_summary("dȯm", "dom", &["dom"], &["house"], 900, &[("ru", "дом"), ("pl", "dom")]),
        set_summary("dom", "dom", &["dom"], &["home", "building"], 950, &[("cs", "dům")]),
        set_summary("", "", &[], &[], 0, &[("sk", "nič")]),
        set_summary("vuda", "vuda", &["vuda", "voda"], &["water"], 800, &[("ru", "вода")]),
    ];
    let idx = slovowiki::render_index::build_corpus_render_index(&sets, &rows);
    assert_eq!(idx.generated_pages, 2);
    assert_eq!(idx.official_only, 2);
    assert_eq!(idx.isv_to_id.get("dom"), Some(2));
    assert_eq!(idx.isv_to_id.get("voda"), Some(3));
    assert_eq!(idx.isv_to_id.get("kniga"), Some(4));
    assert_eq!(idx.isv_to_id.get("dobry den"), Some(5));
    assert_eq!(idx.isv_to_id.get("vuda"), None);
    assert_eq!(idx.isv_to_id.get("#skip"), None);
    assert_eq!(idx.xref.get("cs", "dům"), Some(2));
    assert_eq!(idx.xref.get("ru", "вода"), Some(3));
    // The weaker homograph page was suppressed: its members point nowhere.
    assert_eq!(idx.xref.get("ru", "дом"), None);
    assert_eq!(idx.xref.get("sk", "nič"), None);
}

#[test]
fn reflexive_particle_follows_every_variant() {
    assert_eq!(append_reflexive("myje", true), "myje sę");
    assert_eq!(append_reflexive("myje", false), "myje");
    assert_eq!(append_reflexive("—", true), "—");
    assert_eq!(append_reflexive("  ", true), "  ");
    assert_eq!(append_reflexive("byl / byla ", true), "byl sę / byla sę");
    assert_eq!(append_reflexive("a / / b", true), "a sę / / b sę");
    let forms = strings(&["myjų", "myješ"]);
    assert_eq!(verb_form(&forms, 1, true), "myješ sę");
    assert_eq!(verb_form(&forms, 5, true), "—");
}

#[test]
fn backlinks_group_edges_by_target_in_id_order() {
    let edge = |a: usize, b: usize, kind: &str| LinkEdge {
        source_id: a,
        source_title: s("src"),
        target_id: b,
        target_title: s("t"),
        kind: s(kind),
    };
    let groups = backlinks_by_target(&vec![edge(1, 9, "a"), edge(2, 3, "b"), edge(4, 9, "c")]);
    let shape: Vec<(usize, Vec<(usize, String)>)> = groups
        .iter()
        .map(|(t, es)| (*t, es.iter().map(|e| (e.source_id, e.kind.clone())).collect()))
        .collect();
    assert_eq!(shape, vec![(3, vec![(2, s("b"))]), (9, vec![(1, s("a")), (4, s("c"))])]);
    assert!(backlinks_by_target(&Vec::new()).is_empty());
}

#[test]
fn counts_table_lists_the_largest_counts_first() {
    let counts = vec![(s("<b>"), 2), (s("a"), 5), (s("c"), 2), (s("d"), 1000)];
    assert_eq!(
        counts_table("Jęzik", &counts),
        "<div class='stat-box'><h3>Jęzik</h3><table class='wikitable compact-table'><tbody><tr><th>d</th><td>1,000</td></tr><tr><th>a</th><td>5</td></tr><tr><th>&lt;b&gt;</th><td>2</td></tr><tr><th>c</th><td>2</td></tr></tbody></table></div>"
    );
    let many: Vec<(String, usize)> = (0..30).map(|i| (format!("k{i:02}"), i)).collect();
    let t = counts_table("x", &many);
    assert!(t.contains("<th>k29</th>") && t.contains("<th>k06</th>") && !t.contains("<th>k05</th>"));
}

#[test]
fn coverage_split_counts_rendered_and_deduped_per_language() {
    let mut xref = Xref::new();
    xref.insert("pl", "kot", 3);
    let mut isv = HeadwordIndex::new();
    isv.insert("delo", 7);
    let lemmas = vec![
        lemma("pl", "kot", "kot"),
        lemma("cs", "město", "město"),
        lemma("sr", "mesto", "mesto"),
        lemma("ru", "дело", "dělo"),
        lemma("cs", "pes", "pes"),
        lemma("pl", "  ", "x"),
    ];
    let split = slovowiki::coverage::coverage_split(&lemmas, &xref, &isv);
    assert_eq!(split.rendered, 2);
    assert_eq!(split.deduped, 4);
    assert_eq!(split.rendered_by_lang, vec![(s("cs"), 2)]);
    assert_eq!(split.deduped_by_lang, vec![(s("pl"), 2), (s("ru"), 1), (s("sr"), 1)]);
    // The split reconciles with the pages the raw pre-pass assigns.
    let plan = slovowiki::raw_plan::plan_raw_pages(&lemmas, &xref, &isv, 10);
    assert_eq!(plan.pages.len(), split.rendered);
    assert_eq!(plan.deduped, split.deduped);
}

#[test]
fn translations_list_slavic_columns_then_reference_languages() {
    let cols = vec![(s("ru"), s("ruski")), (s("pl"), s("poljski")), (s("cs"), s("češki"))];
    let cells = vec![(s("pl"), s(" !dom ")), (s("ru"), s("дом")), (s("cs"), s("!"))];
    let b = slovowiki::blocks::official_translations_block(&cols, &cells, "Haus", "", "domo");
    assert_eq!(
        b,
        "<section><h2 id='prevody'>Prěvody</h2><p class='muted'>Oficialne prěvody komiteta — ne etimologičny dokaz.</p><table class='wikitable translations-table'><tbody><tr><td class='lc'>ruski</td><td>дом</td></tr><tr><td class='lc'>poljski</td><td>dom</td></tr><tr><td class='lc'>němečsky</td><td>Haus</td></tr><tr><td class='lc'>esperanto</td><td>domo</td></tr></tbody></table><p class='muted attr-official'>Oficialne danne: interslavic-dictionary.com</p></section>"
    );
    assert_eq!(slovowiki::blocks::official_translations_block(&cols, &Vec::new(), " ", "!", ""), "");
}

#[test]
fn shard_plan_routes_every_key_to_its_shard() {
    let keys = vec![s("save"), s("game"), s("house"), s("save game")];
    let plan = slovowiki::english_api::shard_plan(&keys);
    assert_eq!(plan.len(), 256);
    let mut seen = 0;
    for (shard, members) in plan.iter().enumerate() {
        for &i in members {
            assert_eq!(english_shard_of(&keys[i]) as usize, shard);
            seen += 1;
        }
        assert!(members.windows(2).all(|w| w[0] < w[1]));
    }
    assert_eq!(seen, keys.len());
}

fn labels(lang: &str, cats: &[&str], topics: &[&str]) -> slovowiki::categories::WikiLabels {
    slovowiki::categories::WikiLabels {
        lang_name: s(lang),
        categories: cats.iter().map(|c| s(c)).collect(),
        topics: topics.iter().map(|t| s(t)).collect(),
        tags: Vec::new(),
    }
}

#[test]
fn member_topic_paths_merge_english_and_native_labels() {
    let members = vec![
        slovowiki::categories::MemberLabels {
            own: labels("polsky", &["Pages with entries", "Fish"], &["mammals"]),
            native: Some(labels("polsky", &[], &["Human_behaviour"])),
        },
        slovowiki::categories::MemberLabels { own: labels("česky", &[], &["mammals"]), native: None },
    ];
    let paths = slovowiki::categories::wiktionary_category_paths_for_members(&members);
    assert_eq!(
        paths,
        vec![
            strings(&["Fundamentalne", "Vsi języky", "polsky", "Vse temy", "Priroda", "Životinje"]),
            strings(&["Fundamentalne", "Vsi języky", "polsky", "Vse temy", "Priroda", "Životinje", "Ryby"]),
            strings(&["Fundamentalne", "Vsi języky", "polsky", "Vse temy", "Člověk", "Člověčje povědanje"]),
            strings(&["Fundamentalne", "Vsi języky", "česky", "Vse temy", "Priroda", "Životinje"]),
        ]
    );
    // Members stop contributing once twenty-four paths are gathered.
    let many: Vec<slovowiki::categories::MemberLabels> = (0..30)
        .map(|i| slovowiki::categories::MemberLabels { own: labels(&format!("jezik{i}"), &[], &["mammals"]), native: None })
        .collect();
    assert_eq!(slovowiki::categories::wiktionary_category_paths_for_members(&many).len(), 24);
    let records: Vec<slovowiki::categories::WikiLabels> = (0..20).map(|i| labels(&format!("jezik{i}"), &[], &["mammals"])).collect();
    let from_input = slovowiki::categories::wiktionary_category_paths_for_input(&records);
    assert_eq!(from_input.len(), 16);
    assert_eq!(from_input[0], strings(&["Fundamentalne", "Vsi języky", "jezik0", "Vse temy", "Priroda", "Životinje"]));
}

#[test]
fn official_cell_pairs_list_slavic_then_reference_cells() {
    let codes = vec![s("ru"), s("pl"), s("cs")];
    let cells = vec![(s("cs"), s("dům")), (s("ru"), s("дом"))];
    assert_eq!(
        slovowiki::blocks::official_cell_pairs(&codes, &cells, "Haus", " ", "domo"),
        vec![(s("ru"), s("дом")), (s("cs"), s("dům")), (s("de"), s("Haus")), (s("eo"), s("domo"))]
    );
}

#[test]
fn coverage_section_reports_extraction_and_site_counts() {
    let st = ExtractionStats {
        slavic_pages_seen: 10,
        kept: 6,
        dropped_redirect_no_senses: 1,
        dropped_multiword: 1,
        dropped_non_content_pos: 1,
        dropped_no_real_gloss: 1,
        dropped_total: 4,
        kept_share: s("60.0%"),
        redirect_share: s("10.0%"),
        multiword_share: s("10.0%"),
        non_content_share: s("10.0%"),
        no_gloss_share: s("10.0%"),
    };
    let with = datasets_coverage_section(&Some(st), 7, 2, 3, 5);
    assert!(with.starts_with("<h2 id='pokrytje'>Pokrytje slovjanskyh datasetov</h2>"));
    assert!(with.contains("<tr><th>Slovjanske strany viděne</th><td>10</td><td>100%</td></tr>"));
    assert!(with.contains("<tr><th>Zadŕžane (vključene)</th><td>6</td><td>60.0%</td></tr>"));
    assert!(with.contains("Zadŕžane (6) + odbrošene (4) = viděne slovjanske strany (10)."));
    assert!(with.contains("<tr><th>Srove atestacije (samo surove, R)</th><td>7</td></tr>"));
    assert!(with.contains("<tr><th>Samo oficialne strany</th><td>5</td></tr>"));
    let without = datasets_coverage_section(&None, 0, 0, 0, 0);
    assert!(without.contains("Statistika ekstrakcije ješče ne generovana"));
    assert!(!without.contains("Ekstrakcija (anglijsky dump)"));
    assert!(without.contains("<tr><th>Generovane srodne strany</th><td>0</td></tr>"));
}

#[test]
fn about_page_quotes_the_three_rates() {
    let p = about_page(1234, "55.5", "40.1", "70.2");
    assert!(p.contains("<title>O metodě — medžuslovjansky generator</title>"));
    for rate in ["55.5", "40.1", "70.2"] {
        assert!(p.contains(rate));
    }
    assert!(p.contains("1,234"));
}

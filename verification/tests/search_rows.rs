use slovowiki::model::Confidence;
use slovowiki::search::{add_gloss_token_keys, headword_keys, search_json, search_row, SearchStatus};

fn s(v: &str) -> String {
    v.to_string()
}

#[test]
fn search_row_has_the_thirteen_fields_in_order() {
    let row = search_row(
        7,
        "dom",
        "house \"big\"",
        "noun",
        SearchStatus::Official,
        Confidence::High,
        &vec![(s("doma"), 6)],
        5,
        3,
        false,
        "oficialno",
        "*domъ",
        &vec![(s("ru"), s("дом"), vec![s("dom")])],
    );
    assert_eq!(row, "[7,\"dom\",\"house \\\"big\\\"\",\"noun\",\"O\",\"V\",[[\"doma\",6]],5,3,0,\"oficialno\",\"*domъ\",[[\"ru\",\"дом\",[\"dom\"]]]]");
    let long = "x".repeat(80);
    let raw = search_row(9, "d", &long, "verb", SearchStatus::Raw, Confidence::Low, &Vec::new(), 1, 1, true, "q", "", &Vec::new());
    assert!(raw.starts_with("[9,\"d\",\""));
    assert!(raw.contains(",\"verb\",\"R\",\"N\",[],1,1,1,\"q\",\"\",[]]"));
    assert!(!raw.contains(&"x".repeat(71)));
    assert!(search_row(1, "a", "", "", SearchStatus::Unmatched, Confidence::Medium, &Vec::new(), 0, 0, false, "", "", &Vec::new())
        .contains(",\"N\",\"S\","));
}

#[test]
fn gloss_tokens_become_rank_six_keys() {
    let mut keys = vec![(s("dom"), 1), (s("house"), 2)];
    add_gloss_token_keys(&mut keys, &vec![s("house"), s("a"), s("of"), s("home"), s("home"), s("dwelling")]);
    assert_eq!(keys, vec![(s("dom"), 1), (s("house"), 2), (s("home"), 6), (s("dwelling"), 6)]);
}

#[test]
fn headword_keys_skip_short_and_display_spellings() {
    assert_eq!(headword_keys(&vec![s("dom"), s("dom")], "Dom"), Vec::<(String, usize)>::new());
    assert_eq!(headword_keys(&vec![s("dȯm"), s("dom")], "dȯm"), vec![(s("dom"), 1)]);
    assert_eq!(headword_keys(&vec![s("i"), s("ok")], "X"), vec![(s("ok"), 1)]);
}

#[test]
fn search_file_lists_one_row_per_line() {
    assert_eq!(search_json(&vec![s("[1]"), s("[2]")]), "[\n[1],\n[2]\n]\n");
    assert_eq!(search_json(&Vec::new()), "[\n\n]\n");
}

use slovowiki::assets::{css, fold_map, forms_js, forms_page, text_check_page, EXTRA_CSS, FORMS_JS};
use slovowiki::split::replace_str;

fn folds() -> Vec<(String, String)> {
    vec![("č".to_string(), "c".to_string()), ("ě".to_string(), "e".to_string())]
}

#[test]
fn replace_str_scans_left_to_right_without_overlaps() {
    assert_eq!(replace_str("a__X__b__X__", "__X__", "1"), "a1b1");
    assert_eq!(replace_str("aaa", "aa", "b"), "ba");
    assert_eq!(replace_str("abc", "x", "y"), "abc");
    assert_eq!(replace_str("", "x", "y"), "");
    assert_eq!(replace_str("xx", "x", ""), "");
}

#[test]
fn css_puts_the_site_rules_after_the_base_sheet() {
    let c = css("body{}");
    assert!(c.starts_with("body{}\n\n:root{--border:#a2a9b1;"));
    assert!(c.ends_with(EXTRA_CSS));
    assert_eq!(c.len(), "body{}\n".len() + EXTRA_CSS.len());
}

#[test]
fn fold_map_is_a_javascript_object() {
    assert_eq!(fold_map(&folds()), "{'č':'c','ě':'e'}");
    assert_eq!(fold_map(&Vec::new()), "{}");
}

#[test]
fn forms_js_fills_every_placeholder() {
    let js = forms_js(&folds(), 64);
    assert!(!js.contains("__SHARDS__"));
    assert!(!js.contains("__FOLD_MAP__"));
    assert!(js.contains("const M={'č':'c','ě':'e'};"));
    assert!(js.contains("routerOk=j.shards===64&&"));
    assert!(js.contains("const shard=fnv1a32(key)%64;"));
    assert_eq!(js.matches("64").count(), FORMS_JS.matches("__SHARDS__").count());
}

#[test]
fn forms_page_states_the_shard_count_and_loads_the_client() {
    let p = forms_page(&folds(), 16);
    assert!(p.contains("<title>Iskanje form — medžuslovjansky</title>"));
    assert!(p.contains("(indeks razděljeny na 16 častij)"));
    assert!(p.contains(&forms_js(&folds(), 16)));
    assert!(p.contains("const r=await isvLookup('',q);"));
}

#[test]
fn text_check_page_loads_the_client() {
    let p = text_check_page(&folds(), 8);
    assert!(p.contains("<title>Prověrka teksta — medžuslovjansky</title>"));
    assert!(p.contains(&forms_js(&folds(), 8)));
    assert!(p.contains("async function checkText(){"));
    assert!(p.contains("const toks=text.match(/\\p{L}+(?:-\\p{L}+)*/gu)||[];"));
}

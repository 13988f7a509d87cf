use slovowiki::category_tree::{
    build_category_tree, categories_index_page, categories_json, category_descendant_page_count, category_page,
};
use slovowiki::graph::{degree_ranking_of, graph_page, LinkEdge};
use slovowiki::model::{Confidence, MatchStatus};
use slovowiki::site_meta::{
    category_footer, compact_entry_categories, entry_meta,
    add_edge, ancestor_slug, borrowing_source, build_edges, count_by, entry_categories, entry_tabs,
    homograph_groups, issue_url, pos_code_label, quality_label, render_word_table, sitemap_xml, MemberLinks,
    SiteEntryMeta,
};
use slovowiki::xref::{HeadwordIndex, Xref};

fn s(v: &str) -> String {
    v.to_string()
}

fn meta(id: usize, title: &str) -> SiteEntryMeta {
    SiteEntryMeta {
        id,
        title: s(title),
        gloss: s("house"),
        pos: s("noun"),
        pos_heading: s("imennik"),
        status: MatchStatus::NoOfficialEntry,
        conf: Confidence::Medium,
        conf_label: s("srědnja"),
        n_langs: 5,
        n_branches: 2,
        borrowed: false,
        official_only: false,
        raw: false,
        official_lemma: None,
        ancestor: s("*domъ"),
        languages: vec![s("pl"), s("cs")],
        first: s("D"),
        categories: Vec::new(),
        aspect: None,
        aspect_partners: Vec::new(),
    }
}

#[test]
fn quality_labels_follow_the_evidence() {
    let mut m = meta(1, "dom");
    assert_eq!(quality_label(&m), "generovano");
    m.n_branches = 1;
    assert_eq!(quality_label(&m), "trěbuje prověrky");
    m.n_branches = 3;
    m.conf = Confidence::High;
    assert_eq!(quality_label(&m), "vysoko dokazano");
    m.conf = Confidence::Low;
    assert_eq!(quality_label(&m), "trěbuje prověrky");
    m.official_lemma = Some(s("dom"));
    assert_eq!(quality_label(&m), "oficialne sovpadenje");
    m.official_only = true;
    assert_eq!(quality_label(&m), "samo oficialno");
    m.raw = true;
    assert_eq!(quality_label(&m), "surova atestacija");
}

#[test]
fn blank_pos_codes_show_a_dash() {
    assert_eq!(pos_code_label("  ", "imennik"), "—");
    assert_eq!(pos_code_label("noun", "imennik"), "imennik");
}

#[test]
fn entry_categories_list_the_automatic_paths_then_the_topics() {
    let m = meta(1, "dom");
    let wiki = vec![
        vec![s(" Temy "), s("Dom")],
        vec![s("Čęsti rěči"), s("imennik")],
        vec![s("  "), s("")],
    ];
    let cats = entry_categories(&m, wiki);
    let expected = vec![
        vec![s("Čęsti rěči"), s("imennik")],
        vec![s("Uvěrjenost"), s("srědnja")],
        vec![s("Stav"), s("generovane kandidaty")],
        vec![s("Etimologija"), s("naslědovane praslovjanske slova")],
        vec![s("Pokrytje větvi"), s("2 větvy")],
        vec![s("Kvaliteta"), s("generovano")],
        vec![s("Temy"), s("Dom")],
    ];
    assert_eq!(cats, expected);
}

#[test]
fn issue_links_prefill_title_and_body() {
    let m = meta(7, "dom");
    let expected = "https://github.com/gold-silver-copper/Slovowiki/issues/new?title=Problem+so+zapisom%3A+dom&body=Zapis%3A+dom%0AStrana%3A+entry%2F7.html%0A%C4%8C%C4%99st+r%C4%9B%C4%8Di%3A+imennik%0ASmysl%3A+house%0A%0AOpi%C5%A1i+popravku+ili+dokaz+tut%3A";
    assert_eq!(issue_url(&m), expected);
    let tabs = entry_tabs(&m);
    assert!(tabs.starts_with("<nav class='entry-tabs'><a class='active' href='7.html'>Strana</a><a href='../talk/7.html'>"));
    assert!(tabs.contains("<a href='../graph.html#n7'>Graf</a>"));
    assert!(tabs.contains(&expected.replace('&', "&amp;")));
}

#[test]
fn sitemap_lists_fixed_pages_then_entries() {
    let xml = sitemap_xml(&vec![meta(3, "a"), meta(12, "b")]);
    assert!(xml.starts_with("<?xml version='1.0' encoding='UTF-8'?>\n<urlset xmlns='http://www.sitemaps.org/schemas/sitemap/0.9'>\n  <url><loc>https://grift.rs/Slovowiki/index.html</loc></url>\n"));
    assert!(xml.ends_with("  <url><loc>https://grift.rs/Slovowiki/entry/3.html</loc></url>\n  <url><loc>https://grift.rs/Slovowiki/entry/12.html</loc></url>\n</urlset>\n"));
    assert_eq!(xml.matches("<url>").count(), 19);
}

#[test]
fn word_tables_show_at_most_1200_rows() {
    let rows = vec![meta(4, "a<b")];
    let t = render_word_table(&rows, "../");
    assert_eq!(
        t,
        "<table class='wikitable word-index'><thead><tr><th>Slovo</th><th>Čęst</th><th>Smysl</th><th>Kvaliteta</th><th>Dokaz</th></tr></thead><tbody><tr><td><a href='../entry/4.html'><b>a&lt;b</b></a></td><td>imennik</td><td>house</td><td><span class='badge'>generovano</span></td><td>5 jęz. / 2 vět.</td></tr></tbody></table>"
    );
    let many: Vec<SiteEntryMeta> = (0..1201).map(|i| meta(i, "x")).collect();
    let t = render_word_table(&many, "");
    assert_eq!(t.matches("<tr><td>").count(), 1200);
    assert!(t.ends_with("<p class='muted'>Pokazano prvih 1,200 od 1,201 zapisov; koristi iskanje za polny spis.</p>"));
}

#[test]
fn count_by_tallies_keys_in_order() {
    let keys = vec![s("b"), s("a"), s("b"), s("c"), s("b")];
    assert_eq!(count_by(&keys), vec![(s("a"), 1), (s("b"), 3), (s("c"), 1)]);
    assert_eq!(count_by(&Vec::new()), Vec::<(String, usize)>::new());
}

#[test]
fn homographs_group_entries_sharing_a_fold() {
    let keys = vec![s("luk"), s("dom"), s("luk"), s("mir"), s("mir"), s("luk")];
    assert_eq!(homograph_groups(&keys), vec![(s("luk"), vec![0, 2, 5]), (s("mir"), vec![3, 4])]);
    assert_eq!(homograph_groups(&vec![s("a"), s("b")]), Vec::<(String, Vec<usize>)>::new());
}

#[test]
fn borrowings_name_their_source_language() {
    let mut m = meta(1, "kafe");
    m.ancestor = s("fr café");
    assert_eq!(borrowing_source(&m), "francuzsky");
    m.ancestor = s("  la  aqua");
    assert_eq!(borrowing_source(&m), "latinsky");
    m.ancestor = s("");
    assert_eq!(borrowing_source(&m), "neznany");
    m.ancestor = s("hu alma");
    assert_eq!(borrowing_source(&m), "hu");
}

#[test]
fn ancestor_slugs_skip_borrowings_and_blanks() {
    let mut m = meta(1, "dom");
    assert_eq!(ancestor_slug(&m, "domu"), Some(s("domu")));
    m.borrowed = true;
    assert_eq!(ancestor_slug(&m, "domu"), None);
    m.borrowed = false;
    m.ancestor = s("   ");
    assert_eq!(ancestor_slug(&m, "x"), None);
}

#[test]
fn add_edge_skips_loops_unknown_pages_and_repeats() {
    let metas = vec![meta(1, "dom"), meta(2, "hiša")];
    let mut edges = Vec::new();
    add_edge(&mut edges, &metas, 1, 1, "rodina");
    add_edge(&mut edges, &metas, 1, 9, "rodina");
    add_edge(&mut edges, &metas, 1, 2, "sinonim");
    add_edge(&mut edges, &metas, 1, 2, "sinonim");
    add_edge(&mut edges, &metas, 1, 2, "srodno");
    assert_eq!(edges.len(), 2);
    assert_eq!(edges[0].source_title, "dom");
    assert_eq!(edges[0].target_title, "hiša");
    assert_eq!(edges[1].kind, "srodno");
}

#[test]
fn build_edges_links_families_synonyms_and_enriched_words() {
    let metas = vec![meta(10, "dom"), meta(20, "hiša"), meta(30, "kuća")];
    let ids = vec![10, 20, 30, 40];
    let families = vec![vec![0, 1], vec![2]];
    let mut isv = HeadwordIndex::new();
    isv.insert("kuca", 30);
    let mut with_lemma = metas;
    with_lemma[0].official_lemma = Some(s("dom"));
    let synonym_keys = vec![vec![s("kuca"), s("nema")], vec![s("kuca")], vec![]];
    let mut xref = Xref::new();
    xref.insert("pl", "dom", 10);
    xref.insert("pl", "chata", 30);
    let enrich = vec![
        vec![],
        vec![MemberLinks { lang: s("pl"), related: vec![s("chata")], synonyms: vec![s("dom")], antonyms: vec![] }],
        vec![],
        vec![MemberLinks { lang: s("pl"), related: vec![s("dom")], synonyms: vec![], antonyms: vec![] }],
    ];
    let edges = build_edges(&ids, &families, &synonym_keys, &isv, Some(&enrich), Some(&xref), &with_lemma);
    let got: Vec<(usize, usize, String)> = edges.iter().map(|e| (e.source_id, e.target_id, e.kind.clone())).collect();
    assert_eq!(
        got,
        vec![
            (10, 20, s("rodina")),
            (20, 10, s("rodina")),
            (10, 30, s("sinonim")),
            (20, 30, s("srodno")),
            (20, 10, s("sinonim")),
        ]
    );
    assert_eq!(edges[2].source_title, "dom");
    assert_eq!(edges[2].target_title, "kuća");
    let without = build_edges(&ids, &families, &synonym_keys, &isv, None, Some(&xref), &with_lemma);
    assert_eq!(without.len(), 3);
}

#[test]
fn graph_page_ranks_pages_by_links_and_lists_edges() {
    let e = |a: usize, at: &str, b: usize, bt: &str, k: &str| LinkEdge {
        source_id: a,
        source_title: s(at),
        target_id: b,
        target_title: s(bt),
        kind: s(k),
    };
    let edges = vec![
        e(10, "dom", 20, "hiša", "rodina"),
        e(20, "hiša", 10, "dom", "rodina"),
        e(30, "kuća", 10, "dom", "sinonim"),
        e(40, "x", 50, "y", "srodno"),
    ];
    assert_eq!(degree_ranking_of(&edges), vec![(10, 3), (20, 2), (30, 1), (40, 1), (50, 1)]);
    let metas = vec![meta(10, "dom"), meta(20, "hiša"), meta(30, "kuća")];
    let page = graph_page(&edges, &metas);
    assert!(page.contains("<div class='graph-filter'><button type='button' data-kind=''>vse</button> <button type='button' data-kind='rodina'>rodina</button> <button type='button' data-kind='sinonim'>sinonim</button> <button type='button' data-kind='srodno'>srodno</button> </div>"));
    assert!(page.contains("<ol><li><a href='entry/10.html'>dom</a> <span class='muted'>(3 vęzej)</span></li><li><a href='entry/20.html'>hiša</a> <span class='muted'>(2 vęzej)</span></li><li><a href='entry/30.html'>kuća</a> <span class='muted'>(1 vęzej)</span></li></ol>"));
    assert!(page.contains("<li class='graph-edge' data-kind='srodno' id='n40'><a href='entry/40.html'>x</a> — <span class='badge'>srodno</span> → <a href='entry/50.html'>y</a></li></ul>"));
    assert!(page.contains("<tr><th>rodina</th><td>2</td></tr>"));
}

#[test]
fn entry_meta_fills_bucket_and_categories() {
    let m = entry_meta(
        9, "žaba", "frog", "noun", "imennik", MatchStatus::OfficialMatch, Confidence::High, "vysoka", 6, 3, false,
        false, Some(s("žaba")), s("*žaba"), vec![s("pl")], "zaba", vec![vec![s("Temy"), s("Životne")]],
    );
    assert_eq!(m.first, "Z");
    assert!(!m.raw);
    assert_eq!(m.categories.len(), 7);
    assert_eq!(m.categories[2], vec![s("Stav"), s("oficialne sovpadenja")]);
    assert_eq!(m.categories[5], vec![s("Kvaliteta"), s("oficialne sovpadenje")]);
    assert_eq!(m.categories[6], vec![s("Temy"), s("Životne")]);
}

#[test]
fn thin_fundamental_categories_are_dropped() {
    let mut metas = vec![meta(1, "a"), meta(2, "b"), meta(3, "c")];
    let fund_a = vec![s("Fundamentalne"), s("Voda")];
    let fund_b = vec![s("Fundamentalne"), s("Ogenj")];
    let topic = vec![s("Temy"), s("Dom")];
    metas[0].categories = vec![fund_a.clone(), topic.clone(), fund_b.clone()];
    metas[1].categories = vec![fund_a.clone(), Vec::new()];
    metas[2].categories = vec![fund_a.clone()];
    let mut keys = vec![
        vec![s("fundamentalne__voda"), s("temy__dom"), s("fundamentalne__ogenj")],
        vec![s("fundamentalne__voda"), s("")],
        vec![s("fundamentalne__voda")],
    ];
    compact_entry_categories(&mut metas, &mut keys);
    assert_eq!(metas[0].categories, vec![fund_a.clone(), topic]);
    assert_eq!(metas[1].categories, vec![fund_a.clone()]);
    assert_eq!(metas[2].categories, vec![fund_a]);
    assert_eq!(keys[0], vec![s("fundamentalne__voda"), s("temy__dom")]);
    assert_eq!(metas[1].id, 2);
}

#[test]
fn category_footer_hides_all_but_twelve() {
    let mut m = meta(1, "a");
    let mut keys = Vec::new();
    for i in 0..14 {
        m.categories.push(vec![s("Temy"), format!("T{i}")]);
        keys.push(format!("temy__t{i}"));
    }
    let f = category_footer(&m, &keys);
    assert!(f.starts_with("<div id='categories' class='catlinks'><b>Kategorije</b>: <a href='../category/temy__t0.html'>Temy » T0</a> | <a href='../category/temy__t1.html'>"));
    assert!(f.ends_with(" <details class='cat-more'><summary>+2 kategorij</summary><a href='../category/temy__t12.html'>Temy » T12</a> | <a href='../category/temy__t13.html'>Temy » T13</a></details></div>"));
    m.categories.truncate(1);
    keys.truncate(1);
    assert_eq!(category_footer(&m, &keys), "<div id='categories' class='catlinks'><b>Kategorije</b>: <a href='../category/temy__t0.html'>Temy » T0</a></div>");
}

#[test]
fn category_tree_has_a_node_per_prefix_and_files_entries_at_leaves() {
    let mut a = meta(7, "zeta");
    let mut b = meta(8, "alfa");
    a.categories = vec![vec![s("Temy"), s("Dom")], vec![s("Kvaliteta"), s("generovano")]];
    b.categories = vec![vec![s("Temy"), s("Dom")], vec![s("Temy"), s("Voda")]];
    let folded = vec![
        vec![vec![s("temy"), s("dom")], vec![s("kvaliteta"), s("generovano")]],
        vec![vec![s("temy"), s("dom")], vec![s("temy"), s("voda")]],
    ];
    let metas = vec![a, b];
    let skeletons = vec![s("zeta"), s("alfa")];
    let tree = build_category_tree(&metas, &folded, &skeletons);
    let keys: Vec<&str> = tree.iter().map(|n| n.key.as_str()).collect();
    assert_eq!(keys, vec!["kvaliteta", "kvaliteta__generovano", "temy", "temy__dom", "temy__voda"]);
    assert_eq!(tree[0].children, vec![s("kvaliteta__generovano")]);
    assert_eq!(tree[2].children, vec![s("temy__dom"), s("temy__voda")]);
    assert_eq!(tree[2].path, vec![s("Temy")]);
    assert_eq!(tree[3].path, vec![s("Temy"), s("Dom")]);
    assert_eq!(tree[3].pages, vec![1, 0]);
    assert_eq!(tree[2].pages, Vec::<usize>::new());
    assert_eq!(tree[4].pages, vec![1]);
    let json = categories_json(&metas, &folded, &skeletons);
    assert!(json.starts_with("[\n  {\"key\":\"kvaliteta\",\"path\":[\"Kvaliteta\"],\"children\":[\"kvaliteta__generovano\"],\"pages\":[]},\n"));
    assert!(json.contains("  {\"key\":\"temy__dom\",\"path\":[\"Temy\",\"Dom\"],\"children\":[],\"pages\":[8,7]}"));
    assert!(json.ends_with("}\n]\n"));
    // Counts take in sub-categories, each entry once.
    assert_eq!(category_descendant_page_count(&tree, &metas, "temy"), 2);
    assert_eq!(category_descendant_page_count(&tree, &metas, "temy__voda"), 1);
    assert_eq!(category_descendant_page_count(&tree, &metas, "nema"), 0);
    let top = category_page(&tree, 2, &metas);
    assert!(top.contains("<h1 class='firstHeading'>Kategorija: Temy</h1><p><a href='../categories.html'>← vse kategorije</a></p><h2 id='podkategorije'>Podkategorije</h2><ul class='compact-list category-list'><li><a href='temy__dom.html'>Dom</a> <span class='muted'>(2)</span></li><li><a href='temy__voda.html'>Voda</a> <span class='muted'>(1)</span></li></ul><h2 id='strany'>Strany v kategoriji</h2><p class='muted'>Izberi podkategoriju vyše.</p></article>"));
    let leaf = category_page(&tree, 3, &metas);
    assert!(leaf.contains("<p><a href='temy.html'>← vyšša kategorija</a></p><h2 id='strany'>Strany v kategoriji</h2><table class='wikitable word-index'>"));
    assert!(leaf.find("entry/8.html").unwrap() < leaf.find("entry/7.html").unwrap());
    let index = categories_index_page(&tree, &metas);
    assert!(index.contains("<ul class='compact-list category-list'><li><a href='category/kvaliteta.html'>Kvaliteta</a> <span class='muted'>(1)</span></li><li><a href='category/temy.html'>Temy</a> <span class='muted'>(2)</span></li></ul>"));
}

use slovowiki::entry_pages::{
    backlink_page_body, entries_json, entry_infobox, homograph_notice, local_graph_block, references_block,
    roots_json, strip_stars, suffix_index_page, talk_page,
};
use slovowiki::graph::LinkEdge;
use slovowiki::model::{Confidence, MatchStatus};
use slovowiki::site_meta::SiteEntryMeta;

fn s(v: &str) -> String {
    v.to_string()
}

fn meta(id: usize, title: &str) -> SiteEntryMeta {
    SiteEntryMeta {
        id,
        title: s(title),
        gloss: s("house"),
        pos: s("noun"),
        pos_heading: s("imennik"),
        status: MatchStatus::NoOfficialEntry,
        conf: Confidence::Medium,
        conf_label: s("srědnja"),
        n_langs: 5,
        n_branches: 2,
        borrowed: false,
        official_only: false,
        raw: false,
        official_lemma: None,
        ancestor: s("*domъ"),
        languages: vec![s("pl")],
        first: s("D"),
        categories: Vec::new(),
        aspect: None,
        aspect_partners: Vec::new(),
    }
}

fn edge(src: usize, src_title: &str, dst: usize, dst_title: &str, kind: &str) -> LinkEdge {
    LinkEdge { source_id: src, source_title: s(src_title), target_id: dst, target_title: s(dst_title), kind: s(kind) }
}

#[test]
fn stars_are_stripped_from_the_front_only() {
    assert_eq!(strip_stars("**dom*"), "dom*");
    assert_eq!(strip_stars("dom"), "dom");
}

#[test]
fn talk_pages_show_the_note_and_the_link_count() {
    let m = meta(5, "dom");
    let incoming = vec![edge(1, "a", 5, "dom", "rodina"), edge(2, "b", 5, "dom", "sinonim")];
    let note = s("Prověreno <ok>");
    let page = talk_page(&m, Some(&note), &incoming);
    assert!(page.contains("<title>Diskusija: dom</title>"));
    assert!(page.contains("<div class='notice'>Prověreno &lt;ok&gt;</div>"));
    assert!(page.contains("<p>2 stran kaže sem.</p>"));
    assert!(page.contains("<a href='../entry/5.html'>← stran zapisova</a>"));
    let page = talk_page(&m, None, &Vec::new());
    assert!(page.contains("<p class='muted'>Ješče nema kuratorskyh not.</p>"));
    assert!(page.contains("<p>0 stran kaže sem.</p>"));
}

#[test]
fn what_links_here_lists_incoming_links_or_says_none() {
    let m = meta(5, "dom");
    let body = backlink_page_body(&m, &vec![edge(1, "a&b", 5, "dom", "rodina")]);
    assert_eq!(
        body,
        "<article class='entry'><h1 class='firstHeading'>Čto kaže sem: dom</h1><p><a href='../entry/5.html'>← nazad k zapisu</a></p><ul class='compact-list'><li><a href='../entry/1.html'>a&amp;b</a> <span class='badge'>rodina</span></li></ul></article>"
    );
    let body = backlink_page_body(&m, &Vec::new());
    assert!(body.contains("<li class='muted'>Nijedna statična strana nyně ne kaže sem.</li>"));
}

#[test]
fn local_graph_takes_eighteen_each_way() {
    let m = meta(5, "dom");
    assert_eq!(local_graph_block(&m, &Vec::new(), &vec![edge(1, "a", 2, "b", "rodina")]), "");
    let edges: Vec<LinkEdge> = (0..30).map(|i| edge(if i % 2 == 0 { 5 } else { 6 }, "dom", 100 + i, "x", "rodina")).collect();
    let incoming: Vec<LinkEdge> = (0..20).map(|i| edge(200 + i, "y", 5, "dom", "sinonim")).collect();
    let block = local_graph_block(&m, &incoming, &edges);
    assert!(block.starts_with("<section><h2 id='graf'>Semantičny graf</h2><ul class='compact-list graph-list'><li><span class='badge'>rodina</span> <a href='100.html'>x</a></li>"));
    assert_eq!(block.matches("<span class='badge'>rodina</span>").count(), 15);
    assert_eq!(block.matches("<span class='badge'>← sinonim</span>").count(), 18);
}

#[test]
fn infobox_links_inherited_ancestors_to_their_root_page() {
    let mut m = meta(5, "dom");
    let b = entry_infobox(&m, "<tr><th>X</th><td>y</td></tr>", "domu");
    assert_eq!(
        b,
        "<aside class='entry-infobox'><table class='wikitable compact-table'><caption>dom</caption><tr><th>Čęst rěči</th><td>imennik</td></tr><tr><th>Stav</th><td>generovano</td></tr><tr><th>Kvaliteta</th><td>generovano</td></tr><tr><th>Dokaz</th><td>5 jęz. / 2 vět.</td></tr><tr><th>Tip</th><td>naslědovano</td></tr><tr><th>Predok</th><td><a href='../root/domu.html'>*domъ</a></td></tr><tr><th>X</th><td>y</td></tr><tr><th>ID</th><td>5</td></tr></table></aside>"
    );
    m.ancestor = s("");
    assert!(entry_infobox(&m, "", "").contains("<tr><th>Predok</th><td>—</td></tr>"));
    m.ancestor = s("fr café");
    m.borrowed = true;
    assert!(entry_infobox(&m, "", "fr-cafe").contains("<tr><th>Tip</th><td>zaimka</td></tr><tr><th>Predok</th><td>fr café</td></tr>"));
}

#[test]
fn references_name_the_lemma_and_the_ancestor() {
    let mut m = meta(5, "dom");
    m.official_lemma = Some(s("dom"));
    let r = references_block(&m, "domu");
    assert!(r.starts_with("<section><h2 id='references'>Izvory</h2><table class='wikitable source-table'><tbody><tr><th>Oficialny slovnik</th><td><span class='mention'>dom</span></td><td>lemmat / validacija</td></tr><tr><th>Praslovjansky prědȯk</th><td><a href='https://en.wiktionary.org/wiki/Reconstruction:Proto-Slavic/domъ'>*domъ</a>; <a href='../root/domu.html'>korenj-strana</a></td><td>rekonstrukcija Wiktionary</td></tr><tr><th>Srodne slova</th>"));
    assert!(r.ends_with("</tbody></table></section>"));
    m.borrowed = true;
    m.official_lemma = None;
    m.ancestor = s("la aqua");
    let r = references_block(&m, "la-aqua");
    assert!(r.contains("<tr><th>Etimon</th><td><span class='mention'>la aqua</span></td><td>zaimka / internacionalizm</td></tr>"));
}

#[test]
fn entries_json_lists_one_object_per_entry() {
    let mut a = meta(1, "dom");
    a.official_lemma = Some(s("dom"));
    let b = meta(2, "luk \"x\"");
    let j = entries_json(&vec![a, b]);
    assert_eq!(
        j,
        "[\n{\"id\":1,\"title\":\"dom\",\"gloss\":\"house\",\"pos\":\"noun\",\"quality\":\"oficialne sovpadenje\",\"confidence\":\"srědnja\",\"langs\":5,\"branches\":2,\"borrowed\":false,\"official\":true,\"ancestor\":\"*domъ\"},\n{\"id\":2,\"title\":\"luk \\\"x\\\"\",\"gloss\":\"house\",\"pos\":\"noun\",\"quality\":\"generovano\",\"confidence\":\"srědnja\",\"langs\":5,\"branches\":2,\"borrowed\":false,\"official\":false,\"ancestor\":\"*domъ\"}\n]\n"
    );
    assert_eq!(entries_json(&Vec::new()), "[\n\n]\n");
}

#[test]
fn roots_json_lists_entry_ids_per_root() {
    let roots = vec![(s("domъ"), vec![1, 7]), (s("lukъ"), vec![3])];
    assert_eq!(roots_json(&roots), "{\n  \"domъ\": [1,7],\n  \"lukъ\": [3]\n}\n");
}

#[test]
fn suffix_index_lists_groups_of_twenty_or_more() {
    let mut buckets = vec![s("zakončenje -om"); 20];
    buckets.extend(vec![s("glagoly na -ti"); 25]);
    buckets.extend(vec![s("pridavniki na -y"); 19]);
    let page = suffix_index_page(&buckets);
    assert!(page.contains("<ul class='compact-list'><li><b>glagoly na -ti</b> <span class='muted'>(25)</span></li><li><b>zakončenje -om</b> <span class='muted'>(20)</span></li></ul>"));
    assert!(!page.contains("pridavniki"));
}

#[test]
fn homograph_notices_link_to_the_disambiguation_page() {
    let groups = vec![(s("luk"), vec![0, 3]), (s("mir"), vec![1])];
    assert_eq!(
        homograph_notice("luk", "luk", &groups),
        "<div class='notice dab'>Ta napis imaje <b>2</b> značenja. <a href='../homograph/luk.html'>Ględi raznoznačnosť</a>.</div>"
    );
    assert_eq!(homograph_notice("mir", "mir", &groups), "");
    assert_eq!(homograph_notice("dom", "dom", &groups), "");
}

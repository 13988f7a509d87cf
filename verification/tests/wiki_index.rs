use slovowiki::wiki_index::{group_by_keys, indices_body, letter_links, portal_links, portals_body};

fn s(v: &str) -> String {
    v.to_string()
}

#[test]
fn entries_are_grouped_under_ascending_keys() {
    let keys = vec![vec![s("pl"), s("cs")], Vec::new(), vec![s("pl"), s("pl")], vec![s("cs")]];
    assert_eq!(group_by_keys(&keys), vec![(s("cs"), vec![0, 3]), (s("pl"), vec![0, 2, 2])]);
    assert!(group_by_keys(&Vec::new()).is_empty());
    let first = vec![vec![s("D")], vec![s("A")], vec![s("D")]];
    assert_eq!(group_by_keys(&first), vec![(s("A"), vec![1]), (s("D"), vec![0, 2])]);
}

#[test]
fn index_overview_links_each_letter() {
    let links = letter_links(&vec![(s("A"), s("a")), (s("Č"), s("c"))]);
    assert_eq!(links, "<a href='index/a.html'>A</a> <a href='index/c.html'>Č</a> ");
    assert_eq!(
        indices_body(&links),
        format!("<article class='entry'><h1 class='firstHeading'>Abecedne indeksy</h1><p class='muted'>Klasičny slovnikovy indeks po prvoj bukvě.</p><p class='plainlinks alphabet-index'>{links}</p></article>")
    );
}

#[test]
fn portal_overview_counts_entries_per_language() {
    let items = portal_links(&vec![(s("pl"), s("poljsky"), 12), (s("cs"), s("češky <x>"), 3)]);
    assert_eq!(
        items,
        "<li><a href='portal/pl.html'>poljsky</a> <span class='muted'>(12)</span></li><li><a href='portal/cs.html'>češky &lt;x&gt;</a> <span class='muted'>(3)</span></li>"
    );
    assert!(portals_body(&items).contains(&format!("<ul class='compact-list'>{items}</ul></article>")));
}

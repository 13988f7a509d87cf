use slovowiki::home::{corpus_home, home_page, strength_cell, HomeRow};
use slovowiki::model::{Confidence, MatchStatus};

fn s(v: &str) -> String {
    v.to_string()
}

fn row(id: usize, form: &str) -> HomeRow {
    HomeRow {
        id,
        form: s(form),
        gloss: s("a very long gloss that goes on and on past the fifty character cut"),
        pos: s("noun"),
        pos_heading: s("imennik"),
        status: MatchStatus::DiffersFromOfficial,
        conf: Confidence::High,
        conf_label: s("vysoka"),
        score: s("0.87"),
        langs: 9,
    }
}

#[test]
fn strength_cell_shows_level_and_score() {
    assert_eq!(
        strength_cell(Confidence::Low, "nizka", "0.12"),
        "<span class='reliability conf-low'>nizka</span> <span class='score muted'>0.12</span>"
    );
}

#[test]
fn home_lists_the_first_four_hundred_words_and_the_counts() {
    let rows: Vec<HomeRow> = (0..410).map(|i| row(i, &format!("w{i}"))).collect();
    let page = corpus_home(12345, 20000, 1, 2, 3, 4, 5, 6, &rows);
    assert!(page.contains("<title>Medžuslovjansky slovnik</title>"));
    assert_eq!(page.matches("<tr><td><a href='entry/").count(), 400);
    assert!(page.contains(">w399</b>"));
    assert!(!page.contains(">w400</b>"));
    assert!(page.contains(
        "<tr><td><a href='entry/0.html'><b>w0</b></a></td><td>imennik</td><td>a very long gloss that goes on and on past the fif…</td><td><span class='reliability conf-high'>vysoka</span> <span class='score muted'>0.87</span></td><td class='muted'>9</td></tr>"
    ));
    assert!(page.contains("<tr><th>Vysoka</th><td>1</td></tr>"));
    assert!(page.contains("<tr><th>Pozajęta slova</th><td>6</td></tr>"));
}

#[test]
fn generator_home_lists_three_hundred_words_with_status() {
    let rows: Vec<HomeRow> = (0..305).map(|i| row(i, &format!("w{i}"))).collect();
    let page = home_page(1000, 600, 300, 100, "60.0", "41.5", &rows);
    assert!(page.contains("<title>Medžuslovjansky generator</title>"));
    assert_eq!(page.matches("<tr><td><a href='entry/").count(), 300);
    assert!(page.contains("<td>a very long gloss that goes on and on past the fifty ch…</td>"));
    assert!(page.contains("<td><span class='pill warn'>razlika</span></td></tr>"));
    assert!(page.contains("<tr><th>Odgovara oficialnomu</th><td>600 (60.0%)</td></tr>"));
    assert!(page.contains("<tr><th>Točno (povno)</th><td>41.5%</td></tr>"));
    assert!(page.contains("<p><span class='pill ok'>oficialno</span> — generovana forma = oficialna.</p>"));
}

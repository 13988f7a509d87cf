//! The home page of the dictionary: the first words of the list, the
//! counts of the dictionary and of each confidence level, and the links
//! into the wiki.

use vstd::prelude::*;
use crate::layout::{
    compact, compact_spec, conf_class, conf_class_spec, esc, esc_spec, status_pill, status_pill_spec, truncate, truncate_spec,
};
use crate::model::{Confidence, MatchStatus};
use crate::pages::{site_page, site_page_spec, SEARCH_JS};
use crate::site_meta::{pos_code_label, pos_code_label_spec};
use crate::strs::{decimal, push_decimal, push_str, string_from};

verus! {

/// A word of the home list.
pub struct HomeRow {
    pub id: usize,
    pub form: String,
    pub gloss: String,
    /// The part-of-speech code and its heading.
    pub pos: String,
    pub pos_heading: String,
    pub status: MatchStatus,
    pub conf: Confidence,
    /// The confidence level's name.
    pub conf_label: String,
    /// The generator's score, two decimals.
    pub score: String,
    /// How many languages attest the word (at least one).
    pub langs: usize,
}

/// The strength cell: the calibrated confidence and the score.
pub open spec fn strength_cell_spec(conf: Confidence, label: Seq<char>, score: Seq<char>) -> Seq<char> {
    "<span class='reliability "@ + conf_class_spec(conf) + "'>"@ + label + "</span> <span class='score muted'>"@ + score
        + "</span>"@
}

/// The strength cell of a word: its confidence level, named `label`, and
/// its score.
pub fn strength_cell(conf: Confidence, label: &str, score: &str) -> (r: String)
    ensures
        r@ == strength_cell_spec(conf, label@, score@),
{
    let mut s = string_from("<span class='reliability ");
    push_str(&mut s, conf_class(conf));
    push_str(&mut s, "'>");
    push_str(&mut s, label);
    push_str(&mut s, "</span> <span class='score muted'>");
    push_str(&mut s, score);
    push_str(&mut s, "</span>");
    s
}

/// The row of one word.
pub open spec fn home_row(r: HomeRow) -> Seq<char> {
    "<tr><td><a href='entry/"@ + decimal(r.id as nat) + ".html'><b>"@ + esc_spec(r.form@) + "</b></a></td><td>"@
        + esc_spec(pos_code_label_spec(r.pos@, r.pos_heading@)) + "</td><td>"@ + esc_spec(truncate_spec(r.gloss@, 50))
        + "</td><td>"@ + strength_cell_spec(r.conf, r.conf_label@, r.score@) + "</td><td class='muted'>"@
        + decimal(r.langs as nat) + "</td></tr>"@
}

/// The rows of the first `n` words.
pub open spec fn home_rows(rows: Seq<HomeRow>, n: int) -> Seq<char>
    decreases n,
{
    if n <= 0 {
        Seq::empty()
    } else {
        home_rows(rows, n - 1) + home_row(rows[n - 1])
    }
}

/// At most this many words are listed.
pub const HOME_ROWS: usize = 400;

/// The word list: the first 400 words.
pub open spec fn home_list_spec(rows: Seq<HomeRow>) -> Seq<char> {
    let n = if rows.len() < HOME_ROWS { rows.len() as int } else { HOME_ROWS as int };
    "<table class='wikitable'><thead><tr><th>Kandidat</th><th>Čęst rěči</th><th>Smysl</th><th>Sila dogadki</th><th>Srodne slova</th></tr></thead><tbody>"@
        + home_rows(rows, n) + "</tbody></table>"@
}

fn push_home_row(s: &mut String, r: &HomeRow)
    ensures
        final(s)@ == old(s)@ + home_row(*r),
{
    let lab = pos_code_label(r.pos.as_str(), r.pos_heading.as_str());
    let gloss = truncate(r.gloss.as_str(), 50);
    let cell = strength_cell(r.conf, r.conf_label.as_str(), r.score.as_str());
    push_str(s, "<tr><td><a href='entry/");
    push_decimal(s, r.id);
    push_str(s, ".html'><b>");
    push_str(s, esc(r.form.as_str()).as_str());
    push_str(s, "</b></a></td><td>");
    push_str(s, esc(lab.as_str()).as_str());
    push_str(s, "</td><td>");
    push_str(s, esc(gloss.as_str()).as_str());
    push_str(s, "</td><td>");
    push_str(s, cell.as_str());
    push_str(s, "</td><td class='muted'>");
    push_decimal(s, r.langs);
    push_str(s, "</td></tr>");
}

fn home_list(rows: &Vec<HomeRow>) -> (r: String)
    ensures
        r@ == home_list_spec(rows@),
{
    let n = if rows.len() < HOME_ROWS { rows.len() } else { HOME_ROWS };
    let mut s = string_from("<table class='wikitable'><thead><tr><th>Kandidat</th><th>Čęst rěči</th><th>Smysl</th><th>Sila dogadki</th><th>Srodne slova</th></tr></thead><tbody>");
    let ghost head = s@;
    let mut i: usize = 0;
    while i < n
        invariant
            n <= rows@.len(),
            i <= n,
            s@ == head + home_rows(rows@, i as int),
        decreases n - i,
    {
        push_home_row(&mut s, &rows[i]);
        i += 1;
    }
    push_str(&mut s, "</tbody></table>");
    s
}

/// The body of the home page.
pub open spec fn home_body(
    n: usize,
    lemma_total: usize,
    high: usize,
    med: usize,
    low: usize,
    official: usize,
    official_only: usize,
    borrowed: usize,
    rows: Seq<HomeRow>,
) -> Seq<char> {
    "<section class='home-hero'>\n           <h1 class='firstHeading'>Medžuslovjansky slovnik</h1>\n           <p class='lede'>Naučno obosnovany generator medžuslovjanskyh slov iz slovjanskyh dokazov, měrjeny protiv oficialnogo slovnika. Iskaj v polju gore (Enter za vse rezultaty), ili prěgledaj slova niže.</p>\n         </section>\n         <div class='home-cols'>\n           <article class='home-main'>\n             <h2 id='slova'>Slova</h2>\n             <p class='muted'>Prvyh 400 od <b>"@
        + compact_spec(n as nat) + "</b> zapisov. „Sila dogadki“ = kalibrovana uvěrjenost + ocěna.</p>\n             "@
        + home_list_spec(rows) + "\n           </article>\n           <aside class='home-aside'>\n             <div class='side-box'><div class='side-h'>Izbrano / slučajno</div><div id='spotlight'><p class='muted'>Nakladajě sę…</p></div><button id='randbtn' type='button'>Drugo slovo</button></div>\n             <div class='side-box'><div class='side-h'>Wiki-navigacija</div><ul class='compact-list'><li><a href='special.html'>Speciaľne strany</a></li><li><a href='all-pages.html'>Vse strany</a></li><li><a href='categories.html'>Kategorije</a></li><li><a href='indices.html'>Abecedne indeksy</a></li><li><a href='portals.html'>Języčne portaly</a></li><li><a href='borrowings.html'>Pozajęta slova</a></li><li><a href='needs-review.html'>Trěbuje prověrky</a></li><li><a href='site-stats.html'>Statistiky sajta</a></li><li><a href='graph.html'>Semantičny graf</a></li></ul></div>\n             <div class='side-box'><div class='side-h'>Slovnik</div>\n               <table class='wikitable compact-table'>\n                 <tr><th>Slov</th><td>"@
        + compact_spec(n as nat) + "</td></tr>\n                 <tr><th>Lemmaty</th><td>"@
        + compact_spec(lemma_total as nat) + "</td></tr>\n                 <tr><th>= oficialnomu</th><td>"@
        + compact_spec(official as nat) + "</td></tr>\n                 <tr><th>Samo oficialne</th><td>"@
        + compact_spec(official_only as nat) + "</td></tr>\n                 <tr><th>Pozajęta slova</th><td>"@
        + compact_spec(borrowed as nat) + "</td></tr>\n               </table>\n             </div>\n             <div class='side-box'><div class='side-h'>Uvěrjenost</div>\n               <table class='wikitable compact-table'>\n                 <tr><th>Vysoka</th><td>"@
        + compact_spec(high as nat) + "</td></tr>\n                 <tr><th>Srědnja</th><td>"@
        + compact_spec(med as nat) + "</td></tr>\n                 <tr><th>Nizka</th><td>"@
        + compact_spec(low as nat) + "</td></tr>\n               </table>\n             </div>\n             <div class='side-box'><div class='side-h'>Kako radi</div><ul class='compact-list'>\n               <li>Medžuvětvovy konsensus (6 podgrup) izbira korenj.</li>\n               <li>Praslovjansko pravilo davaje variantnu formu.</li>\n               <li><a href='about.html'>O metodě →</a></li>\n             </ul></div>\n           </aside>\n         </div>"@
}

/// The home page: the first 400 words with their part of speech, meaning,
/// strength and number of languages, and the counts of entries, lemmas,
/// official matches, official-only entries, borrowings and of each
/// confidence level.
pub fn corpus_home(
    n: usize,
    lemma_total: usize,
    high: usize,
    med: usize,
    low: usize,
    official: usize,
    official_only: usize,
    borrowed: usize,
    rows: &Vec<HomeRow>,
) -> (r: String)
    ensures
        r@ == site_page_spec(
            "Medžuslovjansky slovnik"@,
            home_body(n, lemma_total, high, med, low, official, official_only, borrowed, rows@),
            0,
        ),
{
    let list = home_list(rows);
    let mut body = string_from("<section class='home-hero'>\n           <h1 class='firstHeading'>Medžuslovjansky slovnik</h1>\n           <p class='lede'>Naučno obosnovany generator medžuslovjanskyh slov iz slovjanskyh dokazov, měrjeny protiv oficialnogo slovnika. Iskaj v polju gore (Enter za vse rezultaty), ili prěgledaj slova niže.</p>\n         </section>\n         <div class='home-cols'>\n           <article class='home-main'>\n             <h2 id='slova'>Slova</h2>\n             <p class='muted'>Prvyh 400 od <b>");
    push_str(&mut body, compact(n).as_str());
    push_str(&mut body, "</b> zapisov. „Sila dogadki“ = kalibrovana uvěrjenost + ocěna.</p>\n             ");
    push_str(&mut body, list.as_str());
    push_str(&mut body, "\n           </article>\n           <aside class='home-aside'>\n             <div class='side-box'><div class='side-h'>Izbrano / slučajno</div><div id='spotlight'><p class='muted'>Nakladajě sę…</p></div><button id='randbtn' type='button'>Drugo slovo</button></div>\n             <div class='side-box'><div class='side-h'>Wiki-navigacija</div><ul class='compact-list'><li><a href='special.html'>Speciaľne strany</a></li><li><a href='all-pages.html'>Vse strany</a></li><li><a href='categories.html'>Kategorije</a></li><li><a href='indices.html'>Abecedne indeksy</a></li><li><a href='portals.html'>Języčne portaly</a></li><li><a href='borrowings.html'>Pozajęta slova</a></li><li><a href='needs-review.html'>Trěbuje prověrky</a></li><li><a href='site-stats.html'>Statistiky sajta</a></li><li><a href='graph.html'>Semantičny graf</a></li></ul></div>\n             <div class='side-box'><div class='side-h'>Slovnik</div>\n               <table class='wikitable compact-table'>\n                 <tr><th>Slov</th><td>");
    push_str(&mut body, compact(n).as_str());
    push_str(&mut body, "</td></tr>\n                 <tr><th>Lemmaty</th><td>");
    push_str(&mut body, compact(lemma_total).as_str());
    push_str(&mut body, "</td></tr>\n                 <tr><th>= oficialnomu</th><td>");
    push_str(&mut body, compact(official).as_str());
    push_str(&mut body, "</td></tr>\n                 <tr><th>Samo oficialne</th><td>");
    push_str(&mut body, compact(official_only).as_str());
    push_str(&mut body, "</td></tr>\n                 <tr><th>Pozajęta slova</th><td>");
    push_str(&mut body, compact(borrowed).as_str());
    push_str(&mut body, "</td></tr>\n               </table>\n             </div>\n             <div class='side-box'><div class='side-h'>Uvěrjenost</div>\n               <table class='wikitable compact-table'>\n                 <tr><th>Vysoka</th><td>");
    push_str(&mut body, compact(high).as_str());
    push_str(&mut body, "</td></tr>\n                 <tr><th>Srědnja</th><td>");
    push_str(&mut body, compact(med).as_str());
    push_str(&mut body, "</td></tr>\n                 <tr><th>Nizka</th><td>");
    push_str(&mut body, compact(low).as_str());
    push_str(&mut body, "</td></tr>\n               </table>\n             </div>\n             <div class='side-box'><div class='side-h'>Kako radi</div><ul class='compact-list'>\n               <li>Medžuvětvovy konsensus (6 podgrup) izbira korenj.</li>\n               <li>Praslovjansko pravilo davaje variantnu formu.</li>\n               <li><a href='about.html'>O metodě →</a></li>\n             </ul></div>\n           </aside>\n         </div>");
    site_page("Medžuslovjansky slovnik", body.as_str(), 0)
}

/// The row of one word of the generator's list.
pub open spec fn generator_row(r: HomeRow) -> Seq<char> {
    "<tr><td><a href='entry/"@ + decimal(r.id as nat) + ".html'><b>"@ + esc_spec(r.form@) + "</b></a></td><td>"@
        + esc_spec(pos_code_label_spec(r.pos@, r.pos_heading@)) + "</td><td>"@ + esc_spec(truncate_spec(r.gloss@, 55))
        + "</td><td>"@ + strength_cell_spec(r.conf, r.conf_label@, r.score@) + "</td><td>"@ + status_pill_spec(r.status)
        + "</td></tr>"@
}

/// The rows of the first `n` words of the generator's list.
pub open spec fn generator_rows(rows: Seq<HomeRow>, n: int) -> Seq<char>
    decreases n,
{
    if n <= 0 {
        Seq::empty()
    } else {
        generator_rows(rows, n - 1) + generator_row(rows[n - 1])
    }
}

/// At most this many words are listed on the generator's home page.
pub const GENERATOR_ROWS: usize = 300;

/// The generator's word list: the first 300 words.
pub open spec fn generator_list_spec(rows: Seq<HomeRow>) -> Seq<char> {
    let n = if rows.len() < GENERATOR_ROWS { rows.len() as int } else { GENERATOR_ROWS as int };
    "<table class='wikitable'><thead><tr><th>Kandidat</th><th>Čęst rěči</th><th>Anglijski smysl</th><th>Sila dogadki</th><th>Stav</th></tr></thead><tbody>"@
        + generator_rows(rows, n) + "</tbody></table>"@
}

fn push_generator_row(s: &mut String, r: &HomeRow)
    ensures
        final(s)@ == old(s)@ + generator_row(*r),
{
    let lab = pos_code_label(r.pos.as_str(), r.pos_heading.as_str());
    let gloss = truncate(r.gloss.as_str(), 55);
    let cell = strength_cell(r.conf, r.conf_label.as_str(), r.score.as_str());
    push_str(s, "<tr><td><a href='entry/");
    push_decimal(s, r.id);
    push_str(s, ".html'><b>");
    push_str(s, esc(r.form.as_str()).as_str());
    push_str(s, "</b></a></td><td>");
    push_str(s, esc(lab.as_str()).as_str());
    push_str(s, "</td><td>");
    push_str(s, esc(gloss.as_str()).as_str());
    push_str(s, "</td><td>");
    push_str(s, cell.as_str());
    push_str(s, "</td><td>");
    push_str(s, status_pill(r.status));
    push_str(s, "</td></tr>");
}

fn generator_list(rows: &Vec<HomeRow>) -> (r: String)
    ensures
        r@ == generator_list_spec(rows@),
{
    let n = if rows.len() < GENERATOR_ROWS { rows.len() } else { GENERATOR_ROWS };
    let mut s = string_from("<table class='wikitable'><thead><tr><th>Kandidat</th><th>Čęst rěči</th><th>Anglijski smysl</th><th>Sila dogadki</th><th>Stav</th></tr></thead><tbody>");
    let ghost head = s@;
    let mut i: usize = 0;
    while i < n
        invariant
            n <= rows@.len(),
            i <= n,
            s@ == head + generator_rows(rows@, i as int),
        decreases n - i,
    {
        push_generator_row(&mut s, &rows[i]);
        i += 1;
    }
    push_str(&mut s, "</tbody></table>");
    s
}

/// The body of the generator's home page.
pub open spec fn generator_home_body(
    n: usize,
    n_match: usize,
    n_diff: usize,
    n_none: usize,
    norm_rate: Seq<char>,
    exact_rate: Seq<char>,
    rows: Seq<HomeRow>,
) -> Seq<char> {
    "<section class='home-heading'>\n           <h1 class='firstHeading'>Medžuslovjansky generator</h1>\n           <p class='muted'>Naučno obosnovany generator medžuslovjanskyh slov iz slovjanskyh dokazov, s ocěnkoju točnosti protiv oficialnogo slovnika.</p>\n           <div class='searchbox'><input id='q' type='search' placeholder='Iskaj po kandidatu ili anglijskom smyslu…' autocomplete='off'><div id='results' class='results'></div></div>\n         </section>\n         <section class='wiki-layout'>\n           <article class='wiki-main-list'>\n             <h2>Najčęstěje slova</h2>\n             <p class='muted'>Najčęstějih 300 od <b>"@
        + compact_spec(n as nat) + "</b> zapisov; iskaj gore za vse. „Sila dogadki“ = kalibrovana uvěrjenost + ocěna.</p>\n             "@
        + generator_list_spec(rows) + "\n           </article>\n           <aside class='wiki-sidebar'>\n             <div class='portal-box'><h3>Slučajno slovo</h3>\n               <div id='spotlight'><p class='muted'>Nakladajě sę…</p></div>\n               <button id='randbtn' type='button'>Drugo slovo</button>\n             </div>\n             <div class='portal-box stats-portal'><h3>Slovnik i točnosť</h3>\n               <table class='wikitable compact-table'>\n                 <tr><th>Zapisov</th><td>"@
        + compact_spec(n as nat) + "</td></tr>\n                 <tr><th>Odgovara oficialnomu</th><td>"@
        + compact_spec(n_match as nat) + " ("@
        + norm_rate + "%)</td></tr>\n                 <tr><th>Razlikuje sę</th><td>"@
        + compact_spec(n_diff as nat) + "</td></tr>\n                 <tr><th>Točno (povno)</th><td>"@
        + exact_rate + "%</td></tr>\n                 <tr><th>Bez oficialnoj</th><td>"@
        + compact_spec(n_none as nat) + "</td></tr>\n               </table>\n             </div>\n             <div class='portal-box'><h3>Kako radi</h3><ul class='compact-list'>\n               <li>Medžuvětvovy konsensus (6 podgrup) izbira korenj.</li>\n               <li>Praslovjansko pravilo davaje variantnu formu.</li>\n               <li>Sila dogadki = kalibrovana uvěrjenost.</li>\n               <li><a href='about.html'>O metodě →</a></li>\n             </ul></div>\n             <div class='portal-box'><h3>Legenda</h3>\n               <p>"@
        + status_pill_spec(MatchStatus::OfficialMatch) + " — generovana forma = oficialna.</p>\n               <p>"@
        + status_pill_spec(MatchStatus::DiffersFromOfficial) + " — razlikuje sę od oficialnoj.</p>\n               <p>"@
        + status_pill_spec(MatchStatus::NoOfficialEntry) + " — nema oficialnoj.</p>\n             </div>\n           </aside>\n         </section>\n         <script>"@
        + SEARCH_JS@ + "</script>"@
}

/// The generator's home page: the first 300 words with their part of
/// speech, meaning, strength and status, and how many entries match the
/// official dictionary, differ from it or have no official entry, with the
/// normalized and exact match rates (one decimal each).
pub fn home_page(
    n: usize,
    n_match: usize,
    n_diff: usize,
    n_none: usize,
    norm_rate: &str,
    exact_rate: &str,
    rows: &Vec<HomeRow>,
) -> (r: String)
    ensures
        r@ == site_page_spec(
            "Medžuslovjansky generator"@,
            generator_home_body(n, n_match, n_diff, n_none, norm_rate@, exact_rate@, rows@),
            0,
        ),
{
    let list = generator_list(rows);
    let mut body = string_from("<section class='home-heading'>\n           <h1 class='firstHeading'>Medžuslovjansky generator</h1>\n           <p class='muted'>Naučno obosnovany generator medžuslovjanskyh slov iz slovjanskyh dokazov, s ocěnkoju točnosti protiv oficialnogo slovnika.</p>\n           <div class='searchbox'><input id='q' type='search' placeholder='Iskaj po kandidatu ili anglijskom smyslu…' autocomplete='off'><div id='results' class='results'></div></div>\n         </section>\n         <section class='wiki-layout'>\n           <article class='wiki-main-list'>\n             <h2>Najčęstěje slova</h2>\n             <p class='muted'>Najčęstějih 300 od <b>");
    push_str(&mut body, compact(n).as_str());
    push_str(&mut body, "</b> zapisov; iskaj gore za vse. „Sila dogadki“ = kalibrovana uvěrjenost + ocěna.</p>\n             ");
    push_str(&mut body, list.as_str());
    push_str(&mut body, "\n           </article>\n           <aside class='wiki-sidebar'>\n             <div class='portal-box'><h3>Slučajno slovo</h3>\n               <div id='spotlight'><p class='muted'>Nakladajě sę…</p></div>\n               <button id='randbtn' type='button'>Drugo slovo</button>\n             </div>\n             <div class='portal-box stats-portal'><h3>Slovnik i točnosť</h3>\n               <table class='wikitable compact-table'>\n                 <tr><th>Zapisov</th><td>");
    push_str(&mut body, compact(n).as_str());
    push_str(&mut body, "</td></tr>\n                 <tr><th>Odgovara oficialnomu</th><td>");
    push_str(&mut body, compact(n_match).as_str());
    push_str(&mut body, " (");
    push_str(&mut body, norm_rate);
    push_str(&mut body, "%)</td></tr>\n                 <tr><th>Razlikuje sę</th><td>");
    push_str(&mut body, compact(n_diff).as_str());
    push_str(&mut body, "</td></tr>\n                 <tr><th>Točno (povno)</th><td>");
    push_str(&mut body, exact_rate);
    push_str(&mut body, "%</td></tr>\n                 <tr><th>Bez oficialnoj</th><td>");
    push_str(&mut body, compact(n_none).as_str());
    push_str(&mut body, "</td></tr>\n               </table>\n             </div>\n             <div class='portal-box'><h3>Kako radi</h3><ul class='compact-list'>\n               <li>Medžuvětvovy konsensus (6 podgrup) izbira korenj.</li>\n               <li>Praslovjansko pravilo davaje variantnu formu.</li>\n               <li>Sila dogadki = kalibrovana uvěrjenost.</li>\n               <li><a href='about.html'>O metodě →</a></li>\n             </ul></div>\n             <div class='portal-box'><h3>Legenda</h3>\n               <p>");
    push_str(&mut body, status_pill(MatchStatus::OfficialMatch));
    push_str(&mut body, " — generovana forma = oficialna.</p>\n               <p>");
    push_str(&mut body, status_pill(MatchStatus::DiffersFromOfficial));
    push_str(&mut body, " — razlikuje sę od oficialnoj.</p>\n               <p>");
    push_str(&mut body, status_pill(MatchStatus::NoOfficialEntry));
    push_str(&mut body, " — nema oficialnoj.</p>\n             </div>\n           </aside>\n         </section>\n         <script>");
    push_str(&mut body, SEARCH_JS);
    push_str(&mut body, "</script>");
    site_page("Medžuslovjansky generator", body.as_str(), 0)
}

} // verus!

//! Inflection tables: which table a headword gets, and the HTML of noun,
//! adjective and verb paradigms from their cells.
//!
//! The cells themselves come from the inflection engine; these functions
//! decide the layout and escape every cell.

use vstd::prelude::*;
use crate::layout::{esc, esc_spec};
use crate::split::{append_chars, join_chars, join_spec, split_str, split_str_spec, trim_vec, vv};
use crate::strs::{chars_of, contains_sub, push_str, str_contains, str_eq, string_from, string_of, trim_is_empty, trim_spec};

verus! {

/// An empty cell.
pub open spec fn dash() -> Seq<char> {
    "—"@
}

/// Cell `i` of a column, or a dash past its end.
pub open spec fn cell_spec(v: Seq<String>, i: int) -> Seq<char> {
    if 0 <= i < v.len() {
        v[i]@
    } else {
        dash()
    }
}

/// Cell `i` of a column, or a dash past its end.
fn cell(v: &Vec<String>, i: usize) -> (r: String)
    ensures
        r@ == cell_spec(v@, i as int),
{
    if i < v.len() {
        v[i].clone()
    } else {
        string_from("—")
    }
}

/// A table row: a header cell and one escaped data cell.
pub open spec fn row1(label: Seq<char>, a: Seq<char>) -> Seq<char> {
    "<tr><th>"@ + label + "</th><td>"@ + esc_spec(a) + "</td></tr>"@
}

/// A table row: a header cell and two escaped data cells.
pub open spec fn row2(label: Seq<char>, a: Seq<char>, b: Seq<char>) -> Seq<char> {
    "<tr><th>"@ + label + "</th><td>"@ + esc_spec(a) + "</td><td>"@ + esc_spec(b) + "</td></tr>"@
}

/// A table row: a header cell and three escaped data cells.
pub open spec fn row3(label: Seq<char>, a: Seq<char>, b: Seq<char>, c: Seq<char>) -> Seq<char> {
    "<tr><th>"@ + label + "</th><td>"@ + esc_spec(a) + "</td><td>"@ + esc_spec(b) + "</td><td>"@
        + esc_spec(c) + "</td></tr>"@
}

fn push_row1(s: &mut String, label: &str, a: &str)
    ensures
        final(s)@ == old(s)@ + row1(label@, a@),
{
    push_str(s, "<tr><th>");
    push_str(s, label);
    push_str(s, "</th><td>");
    push_str(s, esc(a).as_str());
    push_str(s, "</td></tr>");
    assert(s@ =~= old(s)@ + row1(label@, a@));
}

fn push_row2(s: &mut String, label: &str, a: &str, b: &str)
    ensures
        final(s)@ == old(s)@ + row2(label@, a@, b@),
{
    push_str(s, "<tr><th>");
    push_str(s, label);
    push_str(s, "</th><td>");
    push_str(s, esc(a).as_str());
    push_str(s, "</td><td>");
    push_str(s, esc(b).as_str());
    push_str(s, "</td></tr>");
    assert(s@ =~= old(s)@ + row2(label@, a@, b@));
}

fn push_row3(s: &mut String, label: &str, a: &str, b: &str, c: &str)
    ensures
        final(s)@ == old(s)@ + row3(label@, a@, b@, c@),
{
    push_str(s, "<tr><th>");
    push_str(s, label);
    push_str(s, "</th><td>");
    push_str(s, esc(a).as_str());
    push_str(s, "</td><td>");
    push_str(s, esc(b).as_str());
    push_str(s, "</td><td>");
    push_str(s, esc(c).as_str());
    push_str(s, "</td></tr>");
    assert(s@ =~= old(s)@ + row3(label@, a@, b@, c@));
}

/// The row labels of the simple tenses.
pub open spec fn finite_label(i: int) -> Seq<char> {
    if i == 0 {
        "1. jedn."@
    } else if i == 1 {
        "2. jedn."@
    } else if i == 2 {
        "3. jedn."@
    } else if i == 3 {
        "1. množ."@
    } else if i == 4 {
        "2. množ."@
    } else {
        "3. množ."@
    }
}

fn finite_label_of(i: usize) -> (r: &'static str)
    ensures
        r@ == finite_label(i as int),
{
    if i == 0 {
        "1. jedn."
    } else if i == 1 {
        "2. jedn."
    } else if i == 2 {
        "3. jedn."
    } else if i == 3 {
        "1. množ."
    } else if i == 4 {
        "2. množ."
    } else {
        "3. množ."
    }
}

/// The row labels of the compound tenses.
pub open spec fn compound_label(i: int) -> Seq<char> {
    if i == 0 {
        "1. jedn."@
    } else if i == 1 {
        "2. jedn."@
    } else if i == 2 {
        "3. jedn. m."@
    } else if i == 3 {
        "3. jedn. ž."@
    } else if i == 4 {
        "3. jedn. sr."@
    } else if i == 5 {
        "1. množ."@
    } else if i == 6 {
        "2. množ."@
    } else {
        "3. množ."@
    }
}

fn compound_label_of(i: usize) -> (r: &'static str)
    ensures
        r@ == compound_label(i as int),
{
    if i == 0 {
        "1. jedn."
    } else if i == 1 {
        "2. jedn."
    } else if i == 2 {
        "3. jedn. m."
    } else if i == 3 {
        "3. jedn. ž."
    } else if i == 4 {
        "3. jedn. sr."
    } else if i == 5 {
        "1. množ."
    } else if i == 6 {
        "2. množ."
    } else {
        "3. množ."
    }
}

/// The row labels of the imperative.
pub open spec fn imperative_label(i: int) -> Seq<char> {
    if i == 0 {
        "2. jedn."@
    } else if i == 1 {
        "1. množ."@
    } else {
        "2. množ."@
    }
}

fn imperative_label_of(i: usize) -> (r: &'static str)
    ensures
        r@ == imperative_label(i as int),
{
    if i == 0 {
        "2. jedn."
    } else if i == 1 {
        "1. množ."
    } else {
        "2. množ."
    }
}

/// The row labels of the non-finite forms.
pub open spec fn nonfinite_label(i: int) -> Seq<char> {
    if i == 0 {
        "Infinitiv"@
    } else if i == 1 {
        "Aktivny participij teperešnji"@
    } else if i == 2 {
        "Pasivny participij teperešnji"@
    } else if i == 3 {
        "Aktivny participij prošly"@
    } else if i == 4 {
        "Pasivny participij prošly"@
    } else {
        "Gerundij"@
    }
}

fn nonfinite_label_of(i: usize) -> (r: &'static str)
    ensures
        r@ == nonfinite_label(i as int),
{
    if i == 0 {
        "Infinitiv"
    } else if i == 1 {
        "Aktivny participij teperešnji"
    } else if i == 2 {
        "Pasivny participij teperešnji"
    } else if i == 3 {
        "Aktivny participij prošly"
    } else if i == 4 {
        "Pasivny participij prošly"
    } else {
        "Gerundij"
    }
}

/// The row labels of the case tables.
pub open spec fn case_label(i: int) -> Seq<char> {
    if i == 0 {
        "Nominativ"@
    } else if i == 1 {
        "Akuzativ"@
    } else if i == 2 {
        "Genitiv"@
    } else if i == 3 {
        "Dativ"@
    } else if i == 4 {
        "Lokativ"@
    } else {
        "Instrumental"@
    }
}

fn case_label_of(i: usize) -> (r: &'static str)
    ensures
        r@ == case_label(i as int),
{
    if i == 0 {
        "Nominativ"
    } else if i == 1 {
        "Akuzativ"
    } else if i == 2 {
        "Genitiv"
    } else if i == 3 {
        "Dativ"
    } else if i == 4 {
        "Lokativ"
    } else {
        "Instrumental"
    }
}

/// A verb's conjugation cells, as the inflection engine lays them out.
pub struct VerbCells {
    pub present: Vec<String>,
    pub imperfect: Vec<String>,
    pub future: Vec<String>,
    pub perfect: Vec<String>,
    pub pluperfect: Vec<String>,
    pub conditional: Vec<String>,
    pub imperative: Vec<String>,
    /// (form name, form) in the order infinitive, present active and passive
    /// participle, past active and passive participle, gerund.
    pub nonfinite: Vec<(String, String)>,
}

/// The first `n` rows of the simple-tense table.
pub open spec fn finite_rows(c: VerbCells, n: nat) -> Seq<char>
    decreases n,
{
    if n == 0 {
        Seq::empty()
    } else {
        let i = n - 1;
        finite_rows(c, (n - 1) as nat) + row3(
            finite_label(i),
            cell_spec(c.present@, i),
            cell_spec(c.imperfect@, i),
            cell_spec(c.future@, i),
        )
    }
}

/// The first `n` rows of the compound-tense table.
pub open spec fn compound_rows(c: VerbCells, n: nat) -> Seq<char>
    decreases n,
{
    if n == 0 {
        Seq::empty()
    } else {
        let i = n - 1;
        compound_rows(c, (n - 1) as nat) + row3(
            compound_label(i),
            cell_spec(c.perfect@, i),
            cell_spec(c.pluperfect@, i),
            cell_spec(c.conditional@, i),
        )
    }
}

/// The first `n` rows of the imperative table.
pub open spec fn imperative_rows(c: VerbCells, n: nat) -> Seq<char>
    decreases n,
{
    if n == 0 {
        Seq::empty()
    } else {
        let i = n - 1;
        imperative_rows(c, (n - 1) as nat) + row1(imperative_label(i), cell_spec(c.imperative@, i))
    }
}

/// The first `n` rows of the non-finite table.
pub open spec fn nonfinite_rows(c: VerbCells, n: nat) -> Seq<char>
    decreases n,
{
    if n == 0 {
        Seq::empty()
    } else {
        let i = n - 1;
        nonfinite_rows(c, (n - 1) as nat) + row1(nonfinite_label(i), c.nonfinite@[i].1@)
    }
}

/// How many non-finite rows are shown: one per label, as far as there are
/// forms.
pub open spec fn nonfinite_count(c: VerbCells) -> nat {
    if c.nonfinite@.len() < 6 {
        c.nonfinite@.len()
    } else {
        6
    }
}

/// The closing of a table body.
pub open spec fn table_end() -> Seq<char> {
    "</tbody></table>"@
}

/// The verb conjugation tables.
pub open spec fn verb_table_spec(cells: Option<VerbCells>) -> Seq<char> {
    match cells {
        None => "<p class='muted'>Prěgibanje glagola ne može byti generovano.</p>"@,
        Some(c) => "<h3>Proste i složene vrěmena</h3><table class='wikitable inflection-table verb-wide'><thead><tr><th>Osoba</th><th>Teperešnje</th><th>Nedokončene prošlo</th><th>Budųće</th></tr></thead><tbody>"@
            + finite_rows(c, 6) + table_end()
            + "<h3>Perfekt, pluskvamperfekt i kondicional</h3><table class='wikitable inflection-table verb-wide'><thead><tr><th>Osoba</th><th>Perfekt</th><th>Pluskvamperfekt</th><th>Kondicional</th></tr></thead><tbody>"@
            + compound_rows(c, 8) + table_end()
            + "<h3>Imperativ</h3><table class='wikitable inflection-table'><thead><tr><th>Osoba</th><th>Forma</th></tr></thead><tbody>"@
            + imperative_rows(c, 3) + table_end()
            + "<h3>Neosobne formy</h3><table class='wikitable inflection-table'><tbody>"@
            + nonfinite_rows(c, nonfinite_count(c)) + table_end(),
    }
}

/// The conjugation tables of a verb from its cells: simple tenses, compound
/// tenses, imperative and non-finite forms. A missing cell shows as a dash;
/// when the engine could not conjugate the verb at all, a notice.
pub fn verb_table(cells: &Option<VerbCells>) -> (r: String)
    ensures
        r@ == verb_table_spec(*cells),
{
    let c = match cells {
        None => {
            return string_from("<p class='muted'>Prěgibanje glagola ne može byti generovano.</p>");
        },
        Some(c) => c,
    };
    let mut s = string_from(
        "<h3>Proste i složene vrěmena</h3><table class='wikitable inflection-table verb-wide'><thead><tr><th>Osoba</th><th>Teperešnje</th><th>Nedokončene prošlo</th><th>Budųće</th></tr></thead><tbody>",
    );
    let ghost p0 = s@;
    let mut i: usize = 0;
    while i < 6
        invariant
            i <= 6,
            s@ == p0 + finite_rows(*c, i as nat),
        decreases 6 - i,
    {
        let a = cell(&c.present, i);
        let b = cell(&c.imperfect, i);
        let d = cell(&c.future, i);
        push_row3(&mut s, finite_label_of(i), a.as_str(), b.as_str(), d.as_str());
        assert(s@ =~= p0 + finite_rows(*c, (i + 1) as nat));
        i += 1;
    }
    push_str(&mut s, "</tbody></table>");
    push_str(
        &mut s,
        "<h3>Perfekt, pluskvamperfekt i kondicional</h3><table class='wikitable inflection-table verb-wide'><thead><tr><th>Osoba</th><th>Perfekt</th><th>Pluskvamperfekt</th><th>Kondicional</th></tr></thead><tbody>",
    );
    let ghost p1 = s@;
    let mut i: usize = 0;
    while i < 8
        invariant
            i <= 8,
            s@ == p1 + compound_rows(*c, i as nat),
        decreases 8 - i,
    {
        let a = cell(&c.perfect, i);
        let b = cell(&c.pluperfect, i);
        let d = cell(&c.conditional, i);
        push_row3(&mut s, compound_label_of(i), a.as_str(), b.as_str(), d.as_str());
        assert(s@ =~= p1 + compound_rows(*c, (i + 1) as nat));
        i += 1;
    }
    push_str(&mut s, "</tbody></table>");
    push_str(
        &mut s,
        "<h3>Imperativ</h3><table class='wikitable inflection-table'><thead><tr><th>Osoba</th><th>Forma</th></tr></thead><tbody>",
    );
    let ghost p2 = s@;
    let mut i: usize = 0;
    while i < 3
        invariant
            i <= 3,
            s@ == p2 + imperative_rows(*c, i as nat),
        decreases 3 - i,
    {
        let a = cell(&c.imperative, i);
        push_row1(&mut s, imperative_label_of(i), a.as_str());
        assert(s@ =~= p2 + imperative_rows(*c, (i + 1) as nat));
        i += 1;
    }
    push_str(&mut s, "</tbody></table>");
    push_str(&mut s, "<h3>Neosobne formy</h3><table class='wikitable inflection-table'><tbody>");
    let ghost p3 = s@;
    let n: usize = if c.nonfinite.len() < 6 { c.nonfinite.len() } else { 6 };
    let mut i: usize = 0;
    while i < n
        invariant
            i <= n,
            n == nonfinite_count(*c),
            n <= c.nonfinite@.len(),
            s@ == p3 + nonfinite_rows(*c, i as nat),
        decreases n - i,
    {
        push_row1(&mut s, nonfinite_label_of(i), c.nonfinite[i].1.as_str());
        assert(s@ =~= p3 + nonfinite_rows(*c, (i + 1) as nat));
        i += 1;
    }
    push_str(&mut s, "</tbody></table>");
    assert(s@ =~= verb_table_spec(*cells));
    s
}

/// The first `n` rows of a noun's case table.
pub open spec fn noun_rows(cells: Seq<(String, String)>, n: nat) -> Seq<char>
    decreases n,
{
    if n == 0 {
        Seq::empty()
    } else {
        let i = n - 1;
        noun_rows(cells, (n - 1) as nat) + row2(case_label(i), cells[i].0@, cells[i].1@)
    }
}

/// A noun's declension table.
pub open spec fn noun_table_spec(cells: Seq<(String, String)>) -> Seq<char> {
    "<table class='wikitable inflection-table'><thead><tr><th>Padež</th><th>Jednina</th><th>Množina</th></tr></thead><tbody>"@
        + noun_rows(cells, 6) + table_end()
}

/// The declension table of a noun from its cells: per case (nominative,
/// accusative, genitive, dative, locative, instrumental) the singular and
/// plural form.
pub fn noun_table(cells: &[(String, String); 6]) -> (r: String)
    ensures
        r@ == noun_table_spec(cells@),
{
    let mut s = string_from(
        "<table class='wikitable inflection-table'><thead><tr><th>Padež</th><th>Jednina</th><th>Množina</th></tr></thead><tbody>",
    );
    let ghost p0 = s@;
    let mut i: usize = 0;
    while i < 6
        invariant
            i <= 6,
            cells@.len() == 6,
            s@ == p0 + noun_rows(cells@, i as nat),
        decreases 6 - i,
    {
        let row = &cells[i];
        push_row2(&mut s, case_label_of(i), row.0.as_str(), row.1.as_str());
        assert(s@ =~= p0 + noun_rows(cells@, (i + 1) as nat));
        i += 1;
    }
    push_str(&mut s, "</tbody></table>");
    assert(s@ =~= noun_table_spec(cells@));
    s
}

/// The escaped data cells of one adjective row.
pub open spec fn adj_cells(row: Seq<String>, n: nat) -> Seq<char>
    decreases n,
{
    if n == 0 {
        Seq::empty()
    } else {
        adj_cells(row, (n - 1) as nat) + "<td>"@ + esc_spec(row[n - 1]@) + "</td>"@
    }
}

/// The first `n` rows of one number of an adjective's table.
pub open spec fn adj_rows(cells: Seq<[String; 4]>, n: nat) -> Seq<char>
    decreases n,
{
    if n == 0 {
        Seq::empty()
    } else {
        let i = n - 1;
        adj_rows(cells, (n - 1) as nat) + "<tr><th>"@ + case_label(i) + "</th>"@ + adj_cells(cells[i]@, 4)
            + "</tr>"@
    }
}

/// The header of an adjective table.
pub open spec fn adj_header() -> Seq<char> {
    "<table class='wikitable inflection-table'><thead><tr><th>Padež</th><th>M. živ.</th><th>M. neživ.</th><th>Ž.</th><th>Sr.</th></tr></thead><tbody>"@
}

/// An adjective's declension tables.
pub open spec fn adj_table_spec(singular: Seq<[String; 4]>, plural: Seq<[String; 4]>) -> Seq<char> {
    "<h3>Jednina</h3>"@ + adj_header() + adj_rows(singular, 6) + table_end() + "<h3>Množina</h3>"@
        + adj_header() + adj_rows(plural, 6) + table_end()
}

/// One number's rows of an adjective table, closed.
fn adj_block(cells: &[[String; 4]; 6]) -> (r: String)
    ensures
        r@ == adj_rows(cells@, 6) + table_end(),
{
    let mut s = String::new();
    let mut i: usize = 0;
    assert(s@ =~= adj_rows(cells@, 0));
    while i < 6
        invariant
            i <= 6,
            cells@.len() == 6,
            s@ == adj_rows(cells@, i as nat),
        decreases 6 - i,
    {
        let ghost before = s@;
        push_str(&mut s, "<tr><th>");
        push_str(&mut s, case_label_of(i));
        push_str(&mut s, "</th>");
        let row = &cells[i];
        let ghost mid = s@;
        let mut j: usize = 0;
        assert(s@ =~= mid + adj_cells(row@, 0));
        while j < 4
            invariant
                j <= 4,
                row@.len() == 4,
                s@ == mid + adj_cells(row@, j as nat),
            decreases 4 - j,
        {
            push_str(&mut s, "<td>");
            push_str(&mut s, esc(row[j].as_str()).as_str());
            push_str(&mut s, "</td>");
            assert(s@ =~= mid + adj_cells(row@, (j + 1) as nat));
            j += 1;
        }
        push_str(&mut s, "</tr>");
        assert(s@ =~= adj_rows(cells@, (i + 1) as nat));
        i += 1;
    }
    push_str(&mut s, "</tbody></table>");
    s
}

/// The declension tables of an adjective from its cells: for the singular
/// and then the plural, per case the masculine animate, masculine
/// inanimate, feminine and neuter form.
pub fn adj_table(singular: &[[String; 4]; 6], plural: &[[String; 4]; 6]) -> (r: String)
    ensures
        r@ == adj_table_spec(singular@, plural@),
{
    let header = "<table class='wikitable inflection-table'><thead><tr><th>Padež</th><th>M. živ.</th><th>M. neživ.</th><th>Ž.</th><th>Sr.</th></tr></thead><tbody>";
    let mut s = string_from("<h3>Jednina</h3>");
    push_str(&mut s, header);
    push_str(&mut s, adj_block(singular).as_str());
    push_str(&mut s, "<h3>Množina</h3>");
    push_str(&mut s, header);
    push_str(&mut s, adj_block(plural).as_str());
    assert(s@ =~= adj_table_spec(singular@, plural@));
    s
}

/// Which inflection table a part of speech gets.
#[derive(Clone, Copy, Debug, PartialEq, Eq, Structural)]
pub enum TableKind {
    Noun,
    Adjective,
    Verb,
    NoTable,
}

/// The table kind for a part-of-speech code.
pub open spec fn table_kind_spec(pos_code: Seq<char>) -> TableKind {
    if pos_code == "noun"@ || pos_code == "proper_noun"@ {
        TableKind::Noun
    } else if pos_code == "adj"@ {
        TableKind::Adjective
    } else if pos_code == "verb"@ {
        TableKind::Verb
    } else {
        TableKind::NoTable
    }
}

/// The reflexive particle, with its leading space.
pub open spec fn reflexive_suffix() -> Seq<char> {
    " sę"@
}

/// Whether a headword is a reflexive verb form (`… sę`).
pub open spec fn is_reflexive(word: Seq<char>) -> bool {
    reflexive_suffix().is_suffix_of(word)
}

/// The headword without its reflexive particle.
pub open spec fn bare_word(word: Seq<char>) -> Seq<char> {
    if is_reflexive(word) {
        word.take(word.len() - reflexive_suffix().len())
    } else {
        word
    }
}

/// What to inflect for a headword: the table kind, the bare stem (a
/// reflexive verb is conjugated without `sę`) and whether it is reflexive.
pub fn inflection_target(word: &str, pos_code: &str) -> (r: (TableKind, String, bool))
    ensures
        r.0 == table_kind_spec(pos_code@),
        r.1@ == bare_word(word@),
        r.2 == is_reflexive(word@),
{
    let kind = if crate::strs::str_eq(pos_code, "noun") || crate::strs::str_eq(pos_code, "proper_noun") {
        TableKind::Noun
    } else if crate::strs::str_eq(pos_code, "adj") {
        TableKind::Adjective
    } else if crate::strs::str_eq(pos_code, "verb") {
        TableKind::Verb
    } else {
        TableKind::NoTable
    };
    let v = crate::strs::chars_of(word);
    let suffix = crate::strs::chars_of(" sę");
    let reflexive = crate::split::ends_with(&v, &suffix);
    if reflexive {
        let bare = crate::strs::string_of_range(&v, 0, v.len() - suffix.len());
        assert(bare@ =~= bare_word(word@));
        (kind, bare, true)
    } else {
        (kind, string_from(word), false)
    }
}

/// A paradigm as the inflection engine produced it for one headword.
pub enum Paradigm {
    /// Per case (nominative … instrumental): singular, plural.
    Noun([(String, String); 6]),
    /// Singular and plural, per case: masculine animate, masculine
    /// inanimate, feminine, neuter.
    Adjective([[String; 4]; 6], [[String; 4]; 6]),
    /// The conjugation, when the engine could produce one.
    Verb(Option<VerbCells>),
    /// A part of speech without an inflection table.
    NoTable,
}

/// The inflection section for a paradigm.
pub open spec fn inflection_table_spec(p: Paradigm) -> Seq<char> {
    match p {
        Paradigm::Noun(c) => noun_table_spec(c@),
        Paradigm::Adjective(sg, pl) => adj_table_spec(sg@, pl@),
        Paradigm::Verb(c) => verb_table_spec(c),
        Paradigm::NoTable => "<p class='muted'>Za tų čęst rěči nema tablicy prěgibanja.</p>"@,
    }
}

/// Renders a headword's inflection table: the declension of a noun or
/// adjective, the conjugation of a verb, or a notice for other parts of
/// speech.
pub fn inflection_table_g(p: &Paradigm) -> (r: String)
    ensures
        r@ == inflection_table_spec(*p),
{
    match p {
        Paradigm::Noun(c) => noun_table(c),
        Paradigm::Adjective(sg, pl) => adj_table(sg, pl),
        Paradigm::Verb(c) => verb_table(c),
        Paradigm::NoTable => string_from("<p class='muted'>Za tų čęst rěči nema tablicy prěgibanja.</p>"),
    }
}


/// A conjugated form with the reflexive particle: each ` / `-separated
/// variant gets ` sę`; dashes and blanks stay as they are.
pub open spec fn append_reflexive_spec(form: Seq<char>, reflexive: bool) -> Seq<char> {
    if !reflexive || form == dash() || trim_spec(form).len() == 0 {
        form
    } else if contains_sub(form, " / "@) {
        join_spec(split_str_spec(form, " / "@).map_values(|p: Seq<char>| trim_spec(p) + " sę"@), " / "@)
    } else {
        form + " sę"@
    }
}

/// Appends the reflexive particle `sę` to a generated verb form (to every
/// variant of a multi-variant cell) when the verb is reflexive.
pub fn append_reflexive(form: &str, reflexive: bool) -> (r: String)
    ensures
        r@ == append_reflexive_spec(form@, reflexive),
{
    if !reflexive || str_eq(form, "—") || trim_is_empty(form) {
        return string_from(form);
    }
    if str_contains(form, " / ") {
        proof {
            reveal_strlit(" / ");
        }
        let v = chars_of(form);
        let sep = chars_of(" / ");
        let parts = split_str(&v, &sep);
        let suffix = chars_of(" sę");
        let mut marked: Vec<Vec<char>> = Vec::new();
        let mut i: usize = 0;
        while i < parts.len()
            invariant
                i <= parts@.len(),
                suffix@ == " sę"@,
                vv(marked@) == vv(parts@).take(i as int).map_values(|p: Seq<char>| trim_spec(p) + " sę"@),
            decreases parts@.len() - i,
        {
            let mut m = trim_vec(&parts[i]);
            append_chars(&mut m, &suffix);
            let ghost before = marked@;
            marked.push(m);
            assert(vv(marked@) =~= vv(before).push(trim_spec(parts@[i as int]@) + " sę"@));
            assert(vv(parts@).take(i + 1) =~= vv(parts@).take(i as int).push(parts@[i as int]@));
            assert(vv(marked@) =~= vv(parts@).take(i + 1).map_values(|p: Seq<char>| trim_spec(p) + " sę"@));
            i += 1;
        }
        assert(vv(parts@).take(i as int) =~= vv(parts@));
        string_of(&join_chars(&marked, &sep))
    } else {
        let mut r = string_from(form);
        push_str(&mut r, " sę");
        r
    }
}

/// Form `idx` of a conjugation row, with the reflexive particle when the
/// verb is reflexive; a dash past the row's end.
pub fn verb_form(forms: &Vec<String>, idx: usize, reflexive: bool) -> (r: String)
    ensures
        r@ == (if idx < forms@.len() { append_reflexive_spec(forms@[idx as int]@, reflexive) } else { dash() }),
{
    if idx < forms.len() {
        append_reflexive(forms[idx].as_str(), reflexive)
    } else {
        string_from("—")
    }
}

} // verus!

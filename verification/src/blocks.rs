//! Small sections of entry pages: the official example, the word-formation
//! wrapper, the status banner and the rule trace.

use vstd::prelude::*;
use crate::categories::strs_view;
use crate::layout::{esc, esc_spec, source_class, source_class_spec};
use crate::model::{Candidate, CandidateSource, MatchStatus, TraceStep};
use crate::xref::{index_lookup, HeadwordIndex};
use crate::site_meta::{pos_code_label, pos_code_label_spec};
use crate::strs::{decimal, push_decimal, lemma_flat_map_step, str_eq, chars_of, contains_sub, push_str, str_contains, string_from, string_of_range, trim, trim_spec};

verus! {

/// `s` trimmed, without one leading `!` committee marker, trimmed again.
pub open spec fn strip_official_marker_spec(s: Seq<char>) -> Seq<char> {
    let t = trim_spec(s);
    if t.len() > 0 && t[0] == '!' {
        trim_spec(t.skip(1))
    } else {
        trim_spec(t)
    }
}

/// Strips a single leading `!` committee marker (`!Baum` → `Baum`).
pub fn strip_official_marker(s: &str) -> (r: String)
    ensures
        r@ == strip_official_marker_spec(s@),
{
    let t = trim(s);
    let v = chars_of(t.as_str());
    if v.len() > 0 && v[0] == '!' {
        let rest = string_of_range(&v, 1, v.len());
        assert(rest@ =~= t@.skip(1));
        trim(rest.as_str())
    } else {
        trim(t.as_str())
    }
}

/// The committee's example sentence section.
pub open spec fn official_example_block_spec(ex: Seq<char>) -> Seq<char> {
    let t = trim_spec(ex);
    if t.len() == 0 {
        Seq::empty()
    } else {
        "<section><h2 id='primer'>Priměr</h2><blockquote class='example-official'>"@ + esc_spec(t)
            + "</blockquote><p class='muted attr-official'>Oficialny priměr: interslavic-dictionary.com</p></section>"@
    }
}

/// The committee's verbatim example sentence, escaped; empty when the
/// sentence is blank.
pub fn official_example_block(ex: &str) -> (r: String)
    ensures
        r@ == official_example_block_spec(ex@),
{
    let t = trim(ex);
    if t.as_str().is_empty() {
        return String::new();
    }
    let mut s = string_from(
        "<section><h2 id='primer'>Priměr</h2><blockquote class='example-official'>",
    );
    push_str(&mut s, esc(t.as_str()).as_str());
    push_str(
        &mut s,
        "</blockquote><p class='muted attr-official'>Oficialny priměr: interslavic-dictionary.com</p></section>",
    );
    s
}

/// Whether a native etymology paragraph is a placeholder stub: blank, or
/// carrying the `??` unknown-origin marker.
pub open spec fn etym_is_stub_spec(s: Seq<char>) -> bool {
    let t = trim_spec(s);
    t.len() == 0 || contains_sub(t, "??"@)
}

/// True when a native etymology paragraph is a bare placeholder stub, which
/// carries no real etymology.
pub fn etym_is_stub(s: &str) -> (r: bool)
    ensures
        r == etym_is_stub_spec(s@),
{
    let t = trim(s);
    t.as_str().is_empty() || str_contains(t.as_str(), "??")
}

/// The word-formation section around the derivation and family blocks.
pub open spec fn word_formation_block_spec(derivation: Seq<char>, family: Seq<char>) -> Seq<char> {
    if trim_spec(derivation).len() == 0 && trim_spec(family).len() == 0 {
        Seq::empty()
    } else {
        "<section><h2 id='slovotvorstvo'>Slovotvorstvo</h2>"@ + derivation + family + "</section>"@
    }
}

/// Wraps the derivation and family blocks in a "Slovotvorstvo" section,
/// or nothing when both are blank.
pub fn word_formation_block(derivation: &str, family: &str) -> (r: String)
    ensures
        r@ == word_formation_block_spec(derivation@, family@),
{
    if crate::strs::trim_is_empty(derivation) && crate::strs::trim_is_empty(family) {
        String::new()
    } else {
        let mut s = string_from("<section><h2 id='slovotvorstvo'>Slovotvorstvo</h2>");
        push_str(&mut s, derivation);
        push_str(&mut s, family);
        push_str(&mut s, "</section>");
        s
    }
}

/// The banner that says how the generated headword relates to the official
/// dictionary.
pub open spec fn status_banner_spec(status: MatchStatus, top_form: Seq<char>, official: Seq<char>) -> Seq<char> {
    match status {
        MatchStatus::OfficialMatch => "<div class='banner ok'><b>Oficialno potvŕđeno.</b> Generovana forma odgovara oficialnomu slovniku: <span class='mention'>"@
            + esc_spec(official) + "</span>.</div>"@,
        MatchStatus::DiffersFromOfficial => "<div class='banner warn'><b>Razlikuje se od oficialnogo.</b> Generovany kandidat <span class='mention'>"@
            + esc_spec(top_form) + "</span> · oficialna forma <span class='mention'>"@ + esc_spec(official)
            + "</span>.</div>"@,
        MatchStatus::NoOfficialEntry => "<div class='banner info'><b>Nema oficialnogo zapisa.</b> Forma je čisto generovana iz slovjanskyh dokazov.</div>"@,
    }
}

/// The status banner: official match, a generated form that differs from
/// the official one, or no official entry.
pub fn status_banner(status: MatchStatus, top: &Candidate, official: &str) -> (r: String)
    ensures
        r@ == status_banner_spec(status, top.form@, official@),
{
    match status {
        MatchStatus::OfficialMatch => {
            let mut s = string_from(
                "<div class='banner ok'><b>Oficialno potvŕđeno.</b> Generovana forma odgovara oficialnomu slovniku: <span class='mention'>",
            );
            push_str(&mut s, esc(official).as_str());
            push_str(&mut s, "</span>.</div>");
            s
        },
        MatchStatus::DiffersFromOfficial => {
            let mut s = string_from(
                "<div class='banner warn'><b>Razlikuje se od oficialnogo.</b> Generovany kandidat <span class='mention'>",
            );
            push_str(&mut s, esc(top.form.as_str()).as_str());
            push_str(&mut s, "</span> · oficialna forma <span class='mention'>");
            push_str(&mut s, esc(official).as_str());
            push_str(&mut s, "</span>.</div>");
            s
        },
        MatchStatus::NoOfficialEntry => string_from(
            "<div class='banner info'><b>Nema oficialnogo zapisa.</b> Forma je čisto generovana iz slovjanskyh dokazov.</div>",
        ),
    }
}

/// One step of the rule trace.
pub open spec fn trace_step_spec(step: TraceStep) -> Seq<char> {
    let reference = match step.reference {
        Some(r) => " <a class='doc-ref' href='"@ + esc_spec(r@) + "'>[dok]</a>"@,
        None => Seq::empty(),
    };
    "<li><code class='rule-id'>"@ + esc_spec(step.id@) + "</code>: <span class='mention'>"@ + esc_spec(
        step.before@,
    ) + "</span> → <span class='mention'>"@ + esc_spec(step.after@)
        + "</span><br><span class='muted'>"@ + esc_spec(step.explanation@) + "</span>"@ + reference
        + "</li>"@
}

/// The first `n` steps of a trace.
pub open spec fn trace_steps(steps: Seq<TraceStep>, n: nat) -> Seq<char>
    decreases n,
{
    if n == 0 {
        Seq::empty()
    } else {
        trace_steps(steps, (n - 1) as nat) + trace_step_spec(steps[n - 1])
    }
}

/// The first `n` warnings of a candidate.
pub open spec fn warning_lines(ws: Seq<String>, n: nat) -> Seq<char>
    decreases n,
{
    if n == 0 {
        Seq::empty()
    } else {
        warning_lines(ws, (n - 1) as nat) + "<p>⚠ "@ + esc_spec(ws[n - 1]@) + "</p>"@
    }
}

/// A candidate's rule trace with its warnings.
pub open spec fn trace_block_spec(c: Candidate) -> Seq<char> {
    if c.trace@.len() == 0 {
        "<p class='muted'>Bez transformacij (forma vzęta prěmo iz konsensusa).</p>"@
    } else {
        "<ol class='rule-trace'>"@ + trace_steps(c.trace@, c.trace@.len()) + "</ol>"@ + if c.warnings@.len()
            == 0 {
            Seq::empty()
        } else {
            "<div class='notice'>"@ + warning_lines(c.warnings@, c.warnings@.len()) + "</div>"@
        }
    }
}

fn push_trace_step(s: &mut String, step: &TraceStep)
    ensures
        final(s)@ == old(s)@ + trace_step_spec(*step),
{
    push_str(s, "<li><code class='rule-id'>");
    push_str(s, esc(step.id.as_str()).as_str());
    push_str(s, "</code>: <span class='mention'>");
    push_str(s, esc(step.before.as_str()).as_str());
    push_str(s, "</span> → <span class='mention'>");
    push_str(s, esc(step.after.as_str()).as_str());
    push_str(s, "</span><br><span class='muted'>");
    push_str(s, esc(step.explanation.as_str()).as_str());
    push_str(s, "</span>");
    match &step.reference {
        Some(r) => {
            push_str(s, " <a class='doc-ref' href='");
            push_str(s, esc(r.as_str()).as_str());
            push_str(s, "'>[dok]</a>");
        },
        None => {},
    }
    push_str(s, "</li>");
    assert(s@ =~= old(s)@ + trace_step_spec(*step));
}

/// The rule trace of a candidate as an ordered list, each step with its
/// before and after forms, explanation and documentation link, followed by
/// the candidate's warnings; a notice when no rule applied.
pub fn trace_block(c: &Candidate) -> (r: String)
    ensures
        r@ == trace_block_spec(*c),
{
    if c.trace.len() == 0 {
        return string_from(
            "<p class='muted'>Bez transformacij (forma vzęta prěmo iz konsensusa).</p>",
        );
    }
    let mut s = string_from("<ol class='rule-trace'>");
    let ghost p0 = s@;
    let mut i: usize = 0;
    while i < c.trace.len()
        invariant
            i <= c.trace@.len(),
            s@ == p0 + trace_steps(c.trace@, i as nat),
        decreases c.trace@.len() - i,
    {
        push_trace_step(&mut s, &c.trace[i]);
        assert(s@ =~= p0 + trace_steps(c.trace@, (i + 1) as nat));
        i += 1;
    }
    push_str(&mut s, "</ol>");
    let ghost p1 = s@;
    if c.warnings.len() > 0 {
        push_str(&mut s, "<div class='notice'>");
        let ghost p2 = s@;
        let mut j: usize = 0;
        while j < c.warnings.len()
            invariant
                j <= c.warnings@.len(),
                s@ == p2 + warning_lines(c.warnings@, j as nat),
            decreases c.warnings@.len() - j,
        {
            push_str(&mut s, "<p>⚠ ");
            push_str(&mut s, esc(c.warnings[j].as_str()).as_str());
            push_str(&mut s, "</p>");
            assert(s@ =~= p2 + warning_lines(c.warnings@, (j + 1) as nat));
            j += 1;
        }
        push_str(&mut s, "</div>");
    }
    assert(s@ =~= trace_block_spec(*c));
    s
}

/// One translation row.
pub open spec fn translation_row(name: Seq<char>, val: Seq<char>) -> Seq<char> {
    "<tr><td class='lc'>"@ + esc_spec(name) + "</td><td>"@ + esc_spec(val) + "</td></tr>"@
}

/// The value the first cell of language `code` holds, if any.
pub open spec fn cell_for(cells: Seq<(Seq<char>, Seq<char>)>, code: Seq<char>) -> Option<Seq<char>>
    decreases cells.len(),
{
    if cells.len() == 0 {
        None
    } else if cells[0].0 == code {
        Some(cells[0].1)
    } else {
        cell_for(cells.drop_first(), code)
    }
}

/// The row of one Slavic column: its translation without the committee
/// marker, when there is a non-empty one.
pub open spec fn slavic_row(cells: Seq<(Seq<char>, Seq<char>)>, col: (Seq<char>, Seq<char>)) -> Seq<char> {
    match cell_for(cells, col.0) {
        Some(raw) => if strip_official_marker_spec(raw).len() > 0 {
            translation_row(col.1, strip_official_marker_spec(raw))
        } else {
            Seq::empty()
        },
        None => Seq::empty(),
    }
}

/// The row of a reference language, when its translation is not empty.
pub open spec fn reference_row(name: Seq<char>, raw: Seq<char>) -> Seq<char> {
    if strip_official_marker_spec(raw).len() > 0 {
        translation_row(name, strip_official_marker_spec(raw))
    } else {
        Seq::empty()
    }
}

/// Pairs of strings over plain values.
pub open spec fn pairs_view(v: Seq<(String, String)>) -> Seq<(Seq<char>, Seq<char>)> {
    v.map_values(|p: (String, String)| (p.0@, p.1@))
}

/// The official translations section.
pub open spec fn translations_spec(
    cols: Seq<(Seq<char>, Seq<char>)>,
    cells: Seq<(Seq<char>, Seq<char>)>,
    de: Seq<char>,
    nl: Seq<char>,
    eo: Seq<char>,
) -> Seq<char> {
    let rows = cols.map_values(|c: (Seq<char>, Seq<char>)| slavic_row(cells, c)).flatten()
        + reference_row("němečsky"@, de) + reference_row("holandsky"@, nl) + reference_row("esperanto"@, eo);
    if rows.len() == 0 {
        Seq::empty()
    } else {
        "<section><h2 id='prevody'>Prěvody</h2><p class='muted'>Oficialne prěvody komiteta — ne etimologičny dokaz.</p><table class='wikitable translations-table'><tbody>"@
            + rows + "</tbody></table><p class='muted attr-official'>Oficialne danne: interslavic-dictionary.com</p></section>"@
    }
}

/// Finds the cell of a language code.
fn find_cell(cells: &Vec<(String, String)>, code: &str) -> (r: Option<usize>)
    ensures
        match r {
            Some(k) => k < cells@.len() && cell_for(pairs_view(cells@), code@) == Some(cells@[k as int].1@),
            None => cell_for(pairs_view(cells@), code@) is None,
        },
{
    let ghost cv = pairs_view(cells@);
    let mut k: usize = 0;
    assert(cv.skip(0) =~= cv);
    while k < cells.len()
        invariant
            k <= cells@.len(),
            cv == pairs_view(cells@),
            cell_for(cv, code@) == cell_for(cv.skip(k as int), code@),
        decreases cells@.len() - k,
    {
        assert(cv.skip(k as int)[0] == cv[k as int]);
        assert(cv.skip(k as int).drop_first() =~= cv.skip(k + 1));
        if str_eq(cells[k].0.as_str(), code) {
            return Some(k);
        }
        k += 1;
    }
    assert(cv.skip(k as int) =~= Seq::<(Seq<char>, Seq<char>)>::empty());
    None
}

fn push_reference_row(rows: &mut String, name: &str, raw: &str)
    ensures
        final(rows)@ == old(rows)@ + reference_row(name@, raw@),
{
    let val = strip_official_marker(raw);
    if !val.as_str().is_empty() {
        push_str(rows, "<tr><td class='lc'>");
        push_str(rows, esc(name).as_str());
        push_str(rows, "</td><td>");
        push_str(rows, esc(val.as_str()).as_str());
        push_str(rows, "</td></tr>");
    }
}

/// The committee's translations of an official entry: one row per Slavic
/// column (in `cols` order, `(code, name)`) whose cell (`cells`, by code)
/// holds a translation, then German, Dutch and Esperanto; nothing when no
/// language has one. Committee markers are stripped.
pub fn official_translations_block(
    cols: &Vec<(String, String)>,
    cells: &Vec<(String, String)>,
    de: &str,
    nl: &str,
    eo: &str,
) -> (r: String)
    ensures
        r@ == translations_spec(pairs_view(cols@), pairs_view(cells@), de@, nl@, eo@),
{
    let ghost cv = pairs_view(cols@);
    let ghost cl = pairs_view(cells@);
    let ghost f = |c: (Seq<char>, Seq<char>)| slavic_row(cl, c);
    let mut rows = String::new();
    let mut i: usize = 0;
    while i < cols.len()
        invariant
            i <= cols@.len(),
            cv == pairs_view(cols@),
            cl == pairs_view(cells@),
            f == (|c: (Seq<char>, Seq<char>)| slavic_row(cl, c)),
            rows@ == cv.take(i as int).map_values(f).flatten(),
        decreases cols@.len() - i,
    {
        assert(cv[i as int] == (cols@[i as int].0@, cols@[i as int].1@));
        match find_cell(cells, cols[i].0.as_str()) {
            Some(k) => {
                push_reference_row(&mut rows, cols[i].1.as_str(), cells[k].1.as_str());
            },
            None => {},
        }
        proof {
            lemma_flat_map_step(cv, i as int, f);
        }
        i += 1;
    }
    assert(cv.take(i as int) =~= cv);
    push_reference_row(&mut rows, "němečsky", de);
    push_reference_row(&mut rows, "holandsky", nl);
    push_reference_row(&mut rows, "esperanto", eo);
    if rows.as_str().is_empty() {
        return String::new();
    }
    let mut r = string_from(
        "<section><h2 id='prevody'>Prěvody</h2><p class='muted'>Oficialne prěvody komiteta — ne etimologičny dokaz.</p><table class='wikitable translations-table'><tbody>",
    );
    push_str(&mut r, rows.as_str());
    push_str(&mut r, "</tbody></table><p class='muted attr-official'>Oficialne danne: interslavic-dictionary.com</p></section>");
    r
}

/// The `(language, raw cell)` pairs of an official row, over plain values:
/// the Slavic cells first, in column order, then the non-empty German,
/// Dutch and Esperanto cells.
pub open spec fn cell_pairs_spec(
    codes: Seq<Seq<char>>,
    cells: Seq<(Seq<char>, Seq<char>)>,
    de: Seq<char>,
    nl: Seq<char>,
    eo: Seq<char>,
) -> Seq<(Seq<char>, Seq<char>)> {
    codes.map_values(|c: Seq<char>| match cell_for(cells, c) {
        Some(v) => seq![(c, v)],
        None => Seq::empty(),
    }).flatten()
        + (if trim_spec(de).len() > 0 { seq![("de"@, de)] } else { Seq::empty() })
        + (if trim_spec(nl).len() > 0 { seq![("nl"@, nl)] } else { Seq::empty() })
        + (if trim_spec(eo).len() > 0 { seq![("eo"@, eo)] } else { Seq::empty() })
}

fn push_reference_pair(out: &mut Vec<(String, String)>, code: &str, cell: &str)
    ensures
        pairs_view(final(out)@) == pairs_view(old(out)@) + if trim_spec(cell@).len() > 0 {
            seq![(code@, cell@)]
        } else {
            Seq::empty()
        },
{
    let ghost before = out@;
    if !crate::strs::trim_is_empty(cell) {
        out.push((string_from(code), string_from(cell)));
        assert(pairs_view(out@) =~= pairs_view(before) + seq![(code@, cell@)]);
    } else {
        assert(pairs_view(out@) =~= pairs_view(before) + Seq::<(Seq<char>, Seq<char>)>::empty());
    }
}

/// The `(language, raw cell)` pairs of an official row that carry
/// translations: one per Slavic language with a CSV column (`codes`, in
/// column order) that has a cell, then German, Dutch and Esperanto when
/// their cells are not blank.
pub fn official_cell_pairs(
    codes: &Vec<String>,
    cells: &Vec<(String, String)>,
    de: &str,
    nl: &str,
    eo: &str,
) -> (r: Vec<(String, String)>)
    ensures
        pairs_view(r@) == cell_pairs_spec(strs_view(codes@), pairs_view(cells@), de@, nl@, eo@),
{
    let ghost cv = strs_view(codes@);
    let ghost f = |c: Seq<char>| match cell_for(pairs_view(cells@), c) {
        Some(v) => seq![(c, v)],
        None => Seq::<(Seq<char>, Seq<char>)>::empty(),
    };
    let mut out: Vec<(String, String)> = Vec::new();
    let mut i: usize = 0;
    assert(pairs_view(out@) =~= cv.take(0).map_values(f).flatten());
    while i < codes.len()
        invariant
            i <= codes@.len(),
            cv == strs_view(codes@),
            f == (|c: Seq<char>| match cell_for(pairs_view(cells@), c) {
                Some(v) => seq![(c, v)],
                None => Seq::<(Seq<char>, Seq<char>)>::empty(),
            }),
            pairs_view(out@) == cv.take(i as int).map_values(f).flatten(),
        decreases codes@.len() - i,
    {
        assert(cv[i as int] == codes@[i as int]@);
        let ghost before = out@;
        match find_cell(cells, codes[i].as_str()) {
            Some(k) => {
                out.push((string_from(codes[i].as_str()), string_from(cells[k].1.as_str())));
                assert(pairs_view(out@) =~= pairs_view(before) + seq![(codes@[i as int]@, cells@[k as int].1@)]);
            },
            None => {
                assert(pairs_view(out@) =~= pairs_view(before) + Seq::<(Seq<char>, Seq<char>)>::empty());
            },
        }
        proof {
            lemma_flat_map_step(cv, i as int, f);
        }
        i += 1;
    }
    assert(cv.take(i as int) =~= cv);
    push_reference_pair(&mut out, "de", de);
    push_reference_pair(&mut out, "nl", nl);
    push_reference_pair(&mut out, "eo", eo);
    out
}

/// A synonym as the thesaurus lists it, with the key under which the
/// headword index would hold it (standard orthography, lowercase).
pub struct Synonym {
    pub word: String,
    pub key: String,
}

/// One synonym chip: a link to the synonym's page when it is a headword,
/// else a search for it.
pub open spec fn synonym_chip(word: Seq<char>, id: Option<usize>) -> Seq<char> {
    match id {
        Some(id) => "<a class='chip xref' href='"@ + decimal(id as nat) + ".html'>"@ + esc_spec(word) + "</a>"@,
        None => "<a class='chip redlink' href='../search.html?q="@ + esc_spec(word) + "'>"@ + esc_spec(word)
            + "</a>"@,
    }
}

/// The chips of the first `n` synonyms.
pub open spec fn synonym_chips(syns: Seq<Synonym>, idx: Seq<(Seq<char>, usize)>, n: int) -> Seq<char>
    decreases n,
{
    if n <= 0 {
        Seq::empty()
    } else {
        synonym_chips(syns, idx, n - 1) + synonym_chip(syns[n - 1].word@, index_lookup(idx, syns[n - 1].key@))
    }
}

/// At most this many synonyms are shown.
pub const MAX_SYNONYMS: usize = 24;

/// The synonyms section: nothing without synonyms, else a chip for each of
/// the first 24.
pub open spec fn synonyms_block_spec(syns: Seq<Synonym>, idx: Seq<(Seq<char>, usize)>) -> Seq<char> {
    if syns.len() == 0 {
        Seq::empty()
    } else {
        let n = if syns.len() < MAX_SYNONYMS { syns.len() as int } else { MAX_SYNONYMS as int };
        "<section><h2 id='synonimy'>Synonimy</h2><div class='chips'>"@ + synonym_chips(syns, idx, n)
            + "</div></section>"@
    }
}

fn push_synonym_chip(s: &mut String, syn: &Synonym, idx: &HeadwordIndex)
    ensures
        final(s)@ == old(s)@ + synonym_chip(syn.word@, idx.lookup(syn.key@)),
{
    let w = esc(syn.word.as_str());
    match idx.get(syn.key.as_str()) {
        Some(id) => {
            push_str(s, "<a class='chip xref' href='");
            push_decimal(s, id);
            push_str(s, ".html'>");
        },
        None => {
            push_str(s, "<a class='chip redlink' href='../search.html?q=");
            push_str(s, w.as_str());
            push_str(s, "'>");
        },
    }
    push_str(s, w.as_str());
    push_str(s, "</a>");
}

/// The headword's dictionary synonyms, each linked to its own page when it
/// is a headword and to a search for it otherwise.
pub fn synonyms_block(syns: &Vec<Synonym>, idx: &HeadwordIndex) -> (r: String)
    ensures
        r@ == synonyms_block_spec(syns@, idx@),
{
    if syns.len() == 0 {
        return String::new();
    }
    let n = if syns.len() < MAX_SYNONYMS { syns.len() } else { MAX_SYNONYMS };
    let mut s = string_from("<section><h2 id='synonimy'>Synonimy</h2><div class='chips'>");
    let ghost head = s@;
    let mut i: usize = 0;
    while i < n
        invariant
            n <= syns@.len(),
            0 <= i <= n,
            s@ == head + synonym_chips(syns@, idx@, i as int),
        decreases n - i,
    {
        push_synonym_chip(&mut s, &syns[i], idx);
        i += 1;
    }
    push_str(&mut s, "</div></section>");
    s
}

/// A regular derivative of the headword, as the derivation rules give it.
pub struct FamilyMember {
    /// The derived form.
    pub form: String,
    /// Its key in the headword index (standard orthography, lowercase).
    pub key: String,
    /// The derivative's part-of-speech code.
    pub pos_code: String,
    /// The heading of that part of speech.
    pub pos_heading: String,
    /// The name of the derivation pattern.
    pub label: String,
}

/// The form cell of a derivative: a link when it has a page.
pub open spec fn member_form_cell(form: Seq<char>, id: Option<usize>) -> Seq<char> {
    match id {
        Some(id) => "<a href='"@ + decimal(id as nat) + ".html'><span class='mention'>"@ + esc_spec(form)
            + "</span></a>"@,
        None => "<span class='mention'>"@ + esc_spec(form) + "</span>"@,
    }
}

/// Whether a derivative has a page, in words.
pub open spec fn member_status(id: Option<usize>) -> Seq<char> {
    match id {
        Some(_) => "strana na sajtě"@,
        None => "mašinovy kandidat"@,
    }
}

/// The table row of one derivative.
pub open spec fn member_row(m: FamilyMember, id: Option<usize>) -> Seq<char> {
    "<tr><td>"@ + member_form_cell(m.form@, id) + "</td><td>"@
        + esc_spec(pos_code_label_spec(m.pos_code@, m.pos_heading@)) + "</td><td>"@ + esc_spec(m.label@)
        + "</td><td class='muted'>"@ + esc_spec(member_status(id)) + "</td></tr>"@
}

/// The rows of the first `n` derivatives.
pub open spec fn member_rows(fam: Seq<FamilyMember>, idx: Seq<(Seq<char>, usize)>, n: int) -> Seq<char>
    decreases n,
{
    if n <= 0 {
        Seq::empty()
    } else {
        member_rows(fam, idx, n - 1) + member_row(fam[n - 1], index_lookup(idx, fam[n - 1].key@))
    }
}

/// How many of the first `n` derivatives have a page.
pub open spec fn linked_members(fam: Seq<FamilyMember>, idx: Seq<(Seq<char>, usize)>, n: int) -> nat
    decreases n,
{
    if n <= 0 {
        0
    } else {
        linked_members(fam, idx, n - 1) + if index_lookup(idx, fam[n - 1].key@) is Some { 1nat } else { 0nat }
    }
}

/// The note on a base that is itself a machine reconstruction.
pub open spec fn base_note(attested_base: bool) -> Seq<char> {
    if attested_base {
        Seq::empty()
    } else {
        " <b>Baza je mašinova rekonstrukcija</b> (ne oficialna lemma), zato odvodženja sųt hypotetične."@
    }
}

/// The derivation table: nothing for an empty family, else a row per
/// derivative and a line counting the linked and the proposed ones.
pub open spec fn derivation_block_spec(fam: Seq<FamilyMember>, idx: Seq<(Seq<char>, usize)>, attested_base: bool) -> Seq<char> {
    if fam.len() == 0 {
        Seq::empty()
    } else {
        let linked = linked_members(fam, idx, fam.len() as int);
        "<div class='formation-derived'><h3>Pravilne odvodženja</h3><table class='wikitable compact-table formation-table'><thead><tr><th>Forma</th><th>Čęst rěči</th><th>Obrazec</th><th>Stav</th></tr></thead><tbody>"@
            + member_rows(fam, idx, fam.len() as int)
            + "</tbody></table><p class='muted'>Pokazano "@ + decimal(fam.len()) + " tvorjenyh form: "@
            + decimal(linked) + " imajųt stranicu, "@ + decimal((fam.len() - linked) as nat)
            + " sų samo pravilno tvorjeni kandidaty. Pravila vključajųt palatalizaciju prěd sufiksami, jotaciju prěd -ńje i O⇒E po mękkyh."@
            + base_note(attested_base) + "</p></div>"@
    }
}

fn push_member_row(rows: &mut String, m: &FamilyMember, idx: &HeadwordIndex) -> (linked: bool)
    ensures
        final(rows)@ == old(rows)@ + member_row(*m, idx.lookup(m.key@)),
        linked == idx.lookup(m.key@) is Some,
{
    let id = idx.get(m.key.as_str());
    let form = esc(m.form.as_str());
    push_str(rows, "<tr><td>");
    match id {
        Some(id) => {
            push_str(rows, "<a href='");
            push_decimal(rows, id);
            push_str(rows, ".html'><span class='mention'>");
            push_str(rows, form.as_str());
            push_str(rows, "</span></a>");
        },
        None => {
            push_str(rows, "<span class='mention'>");
            push_str(rows, form.as_str());
            push_str(rows, "</span>");
        },
    }
    push_str(rows, "</td><td>");
    let lab = pos_code_label(m.pos_code.as_str(), m.pos_heading.as_str());
    push_str(rows, esc(lab.as_str()).as_str());
    push_str(rows, "</td><td>");
    push_str(rows, esc(m.label.as_str()).as_str());
    push_str(rows, "</td><td class='muted'>");
    let status = if id.is_some() {
        esc("strana na sajtě")
    } else {
        esc("mašinovy kandidat")
    };
    push_str(rows, status.as_str());
    push_str(rows, "</td></tr>");
    id.is_some()
}

/// The headword's regular derivational family: a row per derivative, the
/// form linked when it is a headword and marked a machine proposal
/// otherwise, with the counts of both, and a warning when the base itself
/// is a reconstruction.
pub fn derivation_block(fam: &Vec<FamilyMember>, idx: &HeadwordIndex, attested_base: bool) -> (r: String)
    ensures
        r@ == derivation_block_spec(fam@, idx@, attested_base),
{
    if fam.len() == 0 {
        return String::new();
    }
    let mut rows = String::new();
    let mut linked: usize = 0;
    let mut i: usize = 0;
    while i < fam.len()
        invariant
            0 <= i <= fam@.len(),
            linked == linked_members(fam@, idx@, i as int),
            linked <= i,
            rows@ == member_rows(fam@, idx@, i as int),
        decreases fam@.len() - i,
    {
        if push_member_row(&mut rows, &fam[i], idx) {
            linked += 1;
        }
        i += 1;
    }
    let mut s = string_from("<div class='formation-derived'><h3>Pravilne odvodženja</h3><table class='wikitable compact-table formation-table'><thead><tr><th>Forma</th><th>Čęst rěči</th><th>Obrazec</th><th>Stav</th></tr></thead><tbody>");
    push_str(&mut s, rows.as_str());
    push_str(&mut s, "</tbody></table><p class='muted'>Pokazano ");
    push_decimal(&mut s, fam.len());
    push_str(&mut s, " tvorjenyh form: ");
    push_decimal(&mut s, linked);
    push_str(&mut s, " imajųt stranicu, ");
    push_decimal(&mut s, fam.len() - linked);
    push_str(&mut s, " sų samo pravilno tvorjeni kandidaty. Pravila vključajųt palatalizaciju prěd sufiksami, jotaciju prěd -ńje i O⇒E po mękkyh.");
    if !attested_base {
        push_str(&mut s, " <b>Baza je mašinova rekonstrukcija</b> (ne oficialna lemma), zato odvodženja sųt hypotetične.");
    }
    push_str(&mut s, "</p></div>");
    s
}

/// A ranked candidate as the alternatives table shows it.
pub struct AlternativeRow {
    pub form: String,
    pub source: CandidateSource,
    /// The source's name.
    pub source_label: String,
    /// The candidate's score, printed with three decimals.
    pub score: String,
    /// The mutual intelligibility of the candidate's languages, as a
    /// percentage (`—` when its languages are unknown).
    pub razum: String,
    /// How many branches support the candidate.
    pub branch_coverage: usize,
}

/// The opening of the row of the candidate at position `i` (0-based): its
/// anchor, class and rank.
pub open spec fn alternative_head(i: nat) -> Seq<char> {
    "<tr id='cand-"@ + decimal(i + 1) + "' class='"@ + top_class(i) + "'><td>"@ + decimal(i + 1) + "</td>"@
}

/// The cells of a candidate after its rank.
pub open spec fn alternative_cells(c: AlternativeRow) -> Seq<char> {
    "<td><span class='mention'>"@ + esc_spec(c.form@) + "</span></td><td><span class='pill "@
        + source_class_spec(c.source) + "'>"@ + esc_spec(c.source_label@) + "</span></td><td class='score'>"@
        + c.score@ + "</td><td class='score'>"@ + c.razum@ + "</td><td>"@ + decimal(c.branch_coverage as nat)
        + "</td></tr>"@
}

/// The table row of the candidate at position `i` (0-based).
pub open spec fn alternative_row(c: AlternativeRow, i: nat) -> Seq<char> {
    alternative_head(i) + alternative_cells(c)
}

/// The class of the candidate row at position `i`: the first is the top
/// candidate.
pub open spec fn top_class(i: nat) -> Seq<char> {
    if i == 0 {
        "top-candidate"@
    } else {
        ""@
    }
}

/// The rows of the first `n` candidates.
pub open spec fn alternative_rows(cs: Seq<AlternativeRow>, n: int) -> Seq<char>
    decreases n,
{
    if n <= 0 {
        Seq::empty()
    } else {
        alternative_rows(cs, n - 1) + alternative_row(cs[n - 1], (n - 1) as nat)
    }
}

/// The ranked forms: a note when there are none, else a table with a row
/// per candidate, the first marked as the headword; `razum_title` explains
/// the intelligibility column.
pub open spec fn alternatives_block_spec(cs: Seq<AlternativeRow>, razum_title: Seq<char>) -> Seq<char> {
    if cs.len() == 0 {
        "<p class='muted'>Bez kandidatov.</p>"@
    } else {
        "<table class='wikitable'><thead><tr><th>#</th><th>Forma</th><th>Izvor</th><th title='rangovy ključ (syrova ocěna), ne věrojętnosť'>Ocěna</th><th title='"@
            + razum_title + "'>Razumlivosť</th><th>Větvi</th></tr></thead><tbody>"@ + alternative_rows(
            cs,
            cs.len() as int,
        ) + "</tbody></table>"@
    }
}

fn push_alternative_head(s: &mut String, i: usize)
    requires
        i < usize::MAX,
    ensures
        final(s)@ == old(s)@ + alternative_head(i as nat),
{
    let n = i + 1;
    let class = if i == 0 {
        "top-candidate"
    } else {
        ""
    };
    push_str(s, "<tr id='cand-");
    push_decimal(s, n);
    push_str(s, "' class='");
    push_str(s, class);
    push_str(s, "'><td>");
    push_decimal(s, n);
    push_str(s, "</td>");
}

fn push_alternative_cells(s: &mut String, c: &AlternativeRow)
    ensures
        final(s)@ == old(s)@ + alternative_cells(*c),
{
    push_str(s, "<td><span class='mention'>");
    push_str(s, esc(c.form.as_str()).as_str());
    push_str(s, "</span></td><td><span class='pill ");
    push_str(s, source_class(c.source));
    push_str(s, "'>");
    push_str(s, esc(c.source_label.as_str()).as_str());
    push_str(s, "</span></td><td class='score'>");
    push_str(s, c.score.as_str());
    push_str(s, "</td><td class='score'>");
    push_str(s, c.razum.as_str());
    push_str(s, "</td><td>");
    push_decimal(s, c.branch_coverage);
    push_str(s, "</td></tr>");
}

fn push_alternative_row(s: &mut String, c: &AlternativeRow, i: usize)
    requires
        i < usize::MAX,
    ensures
        final(s)@ == old(s)@ + alternative_row(*c, i as nat),
{
    push_alternative_head(s, i);
    push_alternative_cells(s, c);
}

/// The ranked candidate forms with source, score, intelligibility and
/// branch support; the top one is the headword. `razum_title` explains the
/// intelligibility column.
pub fn alternatives_block(cs: &Vec<AlternativeRow>, razum_title: &str) -> (r: String)
    ensures
        r@ == alternatives_block_spec(cs@, razum_title@),
{
    if cs.len() == 0 {
        return string_from("<p class='muted'>Bez kandidatov.</p>");
    }
    let mut s = string_from("<table class='wikitable'><thead><tr><th>#</th><th>Forma</th><th>Izvor</th><th title='rangovy ključ (syrova ocěna), ne věrojętnosť'>Ocěna</th><th title='");
    push_str(&mut s, razum_title);
    push_str(&mut s, "'>Razumlivosť</th><th>Větvi</th></tr></thead><tbody>");
    let ghost head = s@;
    let mut i: usize = 0;
    while i < cs.len()
        invariant
            0 <= i <= cs@.len(),
            s@ == head + alternative_rows(cs@, i as int),
        decreases cs@.len() - i,
    {
        push_alternative_row(&mut s, &cs[i], i);
        proof {
            assert(s@ =~= head + alternative_rows(cs@, i + 1));
        }
        i += 1;
    }
    push_str(&mut s, "</tbody></table>");
    s
}

} // verus!

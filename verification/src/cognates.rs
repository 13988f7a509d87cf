//! Per-branch tables of an entry page: the cognate set and the attested
//! evidence, each grouped by Slavic branch in the branches' fixed order.
//!
//! Which branch a language belongs to, the language's display name and the
//! transliterations are fixed elsewhere; a row carries them as plain values.

use vstd::prelude::*;
use crate::categories::strs_view;
use crate::layout::{esc, esc_spec, truncate, truncate_spec};
use crate::search::char_len;
use crate::split::{replace_spec, replace_str};
use crate::strs::{push_str, str_eq, string_from};
use crate::xref::{source_url, source_url_spec};

verus! {

/// Whether a row's branch is the `k`-th branch.
pub open spec fn in_branch(b: Option<usize>, k: int) -> bool {
    match b {
        Some(x) => x == k,
        None => false,
    }
}

/// Rendered rows with their branches, as plain sequences.
pub open spec fn rows_view(rows: Seq<(Option<usize>, String)>) -> Seq<(Option<usize>, Seq<char>)> {
    rows.map_values(|r: (Option<usize>, String)| (r.0, r.1@))
}

/// The rows among the first `n` that belong to branch `k`, in order.
pub open spec fn branch_rows(rows: Seq<(Option<usize>, Seq<char>)>, k: int, n: int) -> Seq<char>
    decreases n,
{
    if n <= 0 {
        Seq::empty()
    } else {
        branch_rows(rows, k, n - 1) + if in_branch(rows[n - 1].0, k) {
            rows[n - 1].1
        } else {
            Seq::empty()
        }
    }
}

/// Whether any of the first `n` rows belongs to branch `k`.
pub open spec fn branch_has(rows: Seq<(Option<usize>, Seq<char>)>, k: int, n: int) -> bool
    decreases n,
{
    if n <= 0 {
        false
    } else {
        branch_has(rows, k, n - 1) || in_branch(rows[n - 1].0, k)
    }
}

/// The box of branch `k`: its label over its rows, or nothing when no row
/// belongs to it.
pub open spec fn branch_box(labels: Seq<Seq<char>>, rows: Seq<(Option<usize>, Seq<char>)>, k: int) -> Seq<char> {
    if branch_has(rows, k, rows.len() as int) {
        "<div class='branch-box'><h4>"@ + esc_spec(labels[k])
            + "</h4><table class='wikitable compact-table'><tbody>"@ + branch_rows(rows, k, rows.len() as int)
            + "</tbody></table></div>"@
    } else {
        Seq::empty()
    }
}

/// The boxes of the first `k` branches, in branch order.
pub open spec fn branch_boxes(labels: Seq<Seq<char>>, rows: Seq<(Option<usize>, Seq<char>)>, k: int) -> Seq<char>
    decreases k,
{
    if k <= 0 {
        Seq::empty()
    } else {
        branch_boxes(labels, rows, k - 1) + branch_box(labels, rows, k - 1)
    }
}

fn push_branch_box(s: &mut String, labels: &Vec<String>, rows: &Vec<(Option<usize>, String)>, k: usize)
    requires
        k < labels@.len(),
    ensures
        final(s)@ == old(s)@ + branch_box(strs_view(labels@), rows_view(rows@), k as int),
{
    let ghost rv = rows_view(rows@);
    let mut body = String::new();
    let mut found = false;
    let mut i: usize = 0;
    while i < rows.len()
        invariant
            rv == rows_view(rows@),
            0 <= i <= rows@.len(),
            body@ == branch_rows(rv, k as int, i as int),
            found == branch_has(rv, k as int, i as int),
        decreases rows@.len() - i,
    {
        let hit = match rows[i].0 {
            Some(x) => x == k,
            None => false,
        };
        assert(rv[i as int] == (rows@[i as int].0, rows@[i as int].1@));
        if hit {
            push_str(&mut body, rows[i].1.as_str());
            found = true;
        }
        i += 1;
    }
    if found {
        push_str(s, "<div class='branch-box'><h4>");
        push_str(s, esc(labels[k].as_str()).as_str());
        push_str(s, "</h4><table class='wikitable compact-table'><tbody>");
        push_str(s, body.as_str());
        push_str(s, "</tbody></table></div>");
    }
}

/// One box per branch that has rows, in branch order; `labels` are the
/// branches' names in that order.
pub fn branch_boxes_of(labels: &Vec<String>, rows: &Vec<(Option<usize>, String)>) -> (r: String)
    ensures
        r@ == branch_boxes(strs_view(labels@), rows_view(rows@), labels@.len() as int),
{
    let mut s = String::new();
    let mut k: usize = 0;
    while k < labels.len()
        invariant
            0 <= k <= labels@.len(),
            s@ == branch_boxes(strs_view(labels@), rows_view(rows@), k as int),
        decreases labels@.len() - k,
    {
        push_branch_box(&mut s, labels, rows, k);
        k += 1;
    }
    s
}

/// One attesting Slavic lemma of a cognate set, with what the page shows of
/// it.
pub struct CognateMember {
    /// The lemma's branch (its position in the branch order), if any.
    pub branch: Option<usize>,
    /// The language code.
    pub lang: String,
    /// The language's display name.
    pub lang_name: String,
    /// The lemma as the dump spells it.
    pub word: String,
    /// The lemma in Interslavic-flavoured spelling, as displayed.
    pub visible_word: String,
    /// The lemma in phonemic Latin.
    pub phonemic: String,
    /// Whether the native edition of the language has the word.
    pub native: bool,
    /// The native edition's first sense, transliterated, when it has one.
    pub native_sense: Option<String>,
    /// The English gloss, transliterated.
    pub gloss: String,
    /// Whether the language is a modern one, when the language is known.
    pub modern: Option<bool>,
}

/// The branch a cognate is shown under: only modern languages are grouped
/// by branch.
pub open spec fn shown_branch(m: CognateMember) -> Option<usize> {
    if m.modern == Some(true) {
        m.branch
    } else {
        None
    }
}

/// Whether a cognate is a historical (not modern) language's.
pub open spec fn is_historical(m: CognateMember) -> bool {
    m.modern == Some(false)
}

/// The row of a historical form.
pub open spec fn historical_row(m: CognateMember) -> Seq<char> {
    "<tr><td class='lc'>"@ + esc_spec(m.lang_name@) + "</td><td><a href='https://en.wiktionary.org/wiki/"@
        + esc_spec(replace_spec(m.word@, " "@, "_"@)) + "#"@ + esc_spec(m.lang@) + "'>"@ + esc_spec(m.visible_word@)
        + "</a></td><td class='muted'>"@ + esc_spec(truncate_spec(m.gloss@, 32)) + "</td></tr>"@
}

/// The rows of the historical forms among the first `n` cognates.
pub open spec fn historical_rows(ms: Seq<CognateMember>, n: int) -> Seq<char>
    decreases n,
{
    if n <= 0 {
        Seq::empty()
    } else {
        historical_rows(ms, n - 1) + if is_historical(ms[n - 1]) {
            historical_row(ms[n - 1])
        } else {
            Seq::empty()
        }
    }
}

/// Whether any of the first `n` cognates is a historical form.
pub open spec fn has_historical(ms: Seq<CognateMember>, n: int) -> bool
    decreases n,
{
    if n <= 0 {
        false
    } else {
        has_historical(ms, n - 1) || is_historical(ms[n - 1])
    }
}

/// The table of historical forms, present when there is one.
pub open spec fn historical_table(ms: Seq<CognateMember>) -> Seq<char> {
    if has_historical(ms, ms.len() as int) {
        "<div class='historical-hints'><h4>Historijske podskazky</h4><p class='muted'>Te formy pomagajųt etimologiji, ale ne sųt moderne atestacije i ne povečšajųt pokrytje, razumlivost ili uvěrjenost.</p><table class='wikitable compact-table'><tbody>"@
            + historical_rows(ms, ms.len() as int) + "</tbody></table></div>"@
    } else {
        Seq::empty()
    }
}

/// The gloss shown for a cognate: the native sense (44 characters), else
/// the English gloss (32 characters).
pub open spec fn cognate_gloss(m: CognateMember) -> Seq<char> {
    match m.native_sense {
        Some(x) if m.native => truncate_spec(x@, 44),
        _ => truncate_spec(m.gloss@, 32),
    }
}

/// The table row of one cognate.
pub open spec fn cognate_row(m: CognateMember) -> Seq<char> {
    "<tr><td class='lc'>"@ + esc_spec(m.lang_name@) + "</td><td><a href='https://en.wiktionary.org/wiki/"@
        + esc_spec(replace_spec(m.word@, " "@, "_"@)) + "#"@ + esc_spec(m.lang@) + "'>"@
        + esc_spec(m.visible_word@) + "</a>"@
        + (if m.native {
            " <a class='ext' title='"@ + esc_spec(m.lang@) + ".wiktionary' href='"@
                + esc_spec(source_url_spec(m.lang@, m.word@)) + "'>"@ + esc_spec(m.lang@) + "↗</a>"@
        } else {
            Seq::empty()
        })
        + (if m.phonemic@ != m.visible_word@ {
            "<br><span class='muted'>→ "@ + esc_spec(m.phonemic@) + "</span>"@
        } else {
            Seq::empty()
        })
        + "</td><td class='muted'>"@ + esc_spec(cognate_gloss(m)) + "</td></tr>"@
}

/// The cognates with their rendered rows.
pub open spec fn cognate_rows(members: Seq<CognateMember>) -> Seq<(Option<usize>, Seq<char>)> {
    members.map_values(|m: CognateMember| (shown_branch(m), cognate_row(m)))
}

/// The cognate set: the modern languages' lemmas grouped by branch, then
/// the historical forms when there are any.
pub open spec fn cognate_block_spec(labels: Seq<Seq<char>>, members: Seq<CognateMember>) -> Seq<char> {
    "<div class='branch-grid'>"@ + branch_boxes(labels, cognate_rows(members), labels.len() as int) + "</div>"@
        + historical_table(members)
}

fn push_historical_table(s: &mut String, ms: &Vec<CognateMember>)
    ensures
        final(s)@ == old(s)@ + historical_table(ms@),
{
    let mut rows = String::new();
    let mut found = false;
    let mut i: usize = 0;
    while i < ms.len()
        invariant
            i <= ms@.len(),
            rows@ == historical_rows(ms@, i as int),
            found == has_historical(ms@, i as int),
        decreases ms@.len() - i,
    {
        let m = &ms[i];
        let hist = match m.modern {
            Some(b) => !b,
            None => false,
        };
        if hist {
            found = true;
            push_str(&mut rows, "<tr><td class='lc'>");
            push_str(&mut rows, esc(m.lang_name.as_str()).as_str());
            push_str(&mut rows, "</td><td><a href='https://en.wiktionary.org/wiki/");
            proof {
                reveal_strlit(" ");
            }
            let under = replace_str(m.word.as_str(), " ", "_");
            push_str(&mut rows, esc(under.as_str()).as_str());
            push_str(&mut rows, "#");
            push_str(&mut rows, esc(m.lang.as_str()).as_str());
            push_str(&mut rows, "'>");
            push_str(&mut rows, esc(m.visible_word.as_str()).as_str());
            push_str(&mut rows, "</a></td><td class='muted'>");
            push_str(&mut rows, esc(truncate(m.gloss.as_str(), 32).as_str()).as_str());
            push_str(&mut rows, "</td></tr>");
        }
        i += 1;
    }
    if found {
        push_str(s, "<div class='historical-hints'><h4>Historijske podskazky</h4><p class='muted'>Te formy pomagajųt etimologiji, ale ne sųt moderne atestacije i ne povečšajųt pokrytje, razumlivost ili uvěrjenost.</p><table class='wikitable compact-table'><tbody>");
        push_str(s, rows.as_str());
        push_str(s, "</tbody></table></div>");
    }
}

/// Renders the row of one cognate.
pub fn render_cognate_row(m: &CognateMember) -> (r: String)
    ensures
        r@ == cognate_row(*m),
{
    proof {
        reveal_strlit(" ");
    }
    let mut s = string_from("<tr><td class='lc'>");
    push_str(&mut s, esc(m.lang_name.as_str()).as_str());
    push_str(&mut s, "</td><td><a href='https://en.wiktionary.org/wiki/");
    let under = replace_str(m.word.as_str(), " ", "_");
    push_str(&mut s, esc(under.as_str()).as_str());
    push_str(&mut s, "#");
    let lang = esc(m.lang.as_str());
    push_str(&mut s, lang.as_str());
    push_str(&mut s, "'>");
    push_str(&mut s, esc(m.visible_word.as_str()).as_str());
    push_str(&mut s, "</a>");
    if m.native {
        push_str(&mut s, " <a class='ext' title='");
        push_str(&mut s, lang.as_str());
        push_str(&mut s, ".wiktionary' href='");
        let url = source_url(m.lang.as_str(), m.word.as_str());
        push_str(&mut s, esc(url.as_str()).as_str());
        push_str(&mut s, "'>");
        push_str(&mut s, lang.as_str());
        push_str(&mut s, "↗</a>");
    }
    if !str_eq(m.phonemic.as_str(), m.visible_word.as_str()) {
        push_str(&mut s, "<br><span class='muted'>→ ");
        push_str(&mut s, esc(m.phonemic.as_str()).as_str());
        push_str(&mut s, "</span>");
    }
    push_str(&mut s, "</td><td class='muted'>");
    let gloss = match &m.native_sense {
        Some(x) if m.native => truncate(x.as_str(), 44),
        _ => truncate(m.gloss.as_str(), 32),
    };
    push_str(&mut s, esc(gloss.as_str()).as_str());
    push_str(&mut s, "</td></tr>");
    s
}

/// The cognate set: every attesting lemma of a modern language, in a box
/// per branch (in branch order, `labels` naming the branches), each row
/// linking the English Wiktionary entry, the native edition when it has the
/// word, the phonemic spelling when it differs from the displayed one, and
/// a gloss; then, when there are any, the historical forms in a table of
/// their own.
pub fn cognate_block(labels: &Vec<String>, members: &Vec<CognateMember>) -> (r: String)
    ensures
        r@ == cognate_block_spec(strs_view(labels@), members@),
{
    let mut rows: Vec<(Option<usize>, String)> = Vec::new();
    let mut i: usize = 0;
    while i < members.len()
        invariant
            0 <= i <= members@.len(),
            rows@.len() == i,
            rows_view(rows@) == cognate_rows(members@).take(i as int),
        decreases members@.len() - i,
    {
        let row = render_cognate_row(&members[i]);
        let shown = match members[i].modern {
            Some(true) => members[i].branch,
            _ => None,
        };
        let ghost before = rows@;
        rows.push((shown, row));
        proof {
            assert(rows@ == before.push((shown_branch(members@[i as int]), row)));
            assert(rows_view(rows@)[i as int] == cognate_rows(members@)[i as int]);
            assert(rows_view(rows@) =~= cognate_rows(members@).take(i + 1));
        }
        i += 1;
    }
    assert(cognate_rows(members@).take(i as int) =~= cognate_rows(members@));
    let mut s = string_from("<div class='branch-grid'>");
    push_str(&mut s, branch_boxes_of(labels, &rows).as_str());
    push_str(&mut s, "</div>");
    push_historical_table(&mut s, members);
    s
}

/// One piece of attested evidence, with what the page shows of it.
pub struct EvidenceRow {
    /// The evidence's branch (its position in the branch order), if any.
    pub branch: Option<usize>,
    pub lang_name: String,
    pub source_url: String,
    /// The attested form, transliterated.
    pub form: String,
    /// The normalized form, transliterated.
    pub normalized: String,
}

/// The table row of one piece of evidence.
pub open spec fn evidence_row(e: EvidenceRow) -> Seq<char> {
    "<tr><td class='lc'>"@ + esc_spec(e.lang_name@) + "</td><td><a href='"@ + esc_spec(e.source_url@) + "'>"@
        + esc_spec(e.form@) + "</a></td><td class='muted'>"@ + esc_spec(e.normalized@) + "</td></tr>"@
}

/// The evidence with its rendered rows.
pub open spec fn evidence_rows(ev: Seq<EvidenceRow>) -> Seq<(Option<usize>, Seq<char>)> {
    ev.map_values(|e: EvidenceRow| (e.branch, evidence_row(e)))
}

/// The evidence section: a note when no branch has evidence, else the
/// boxes of the branches that do.
pub open spec fn evidence_block_spec(labels: Seq<Seq<char>>, ev: Seq<EvidenceRow>) -> Seq<char> {
    let boxes = branch_boxes(labels, evidence_rows(ev), labels.len() as int);
    if boxes.len() == 0 {
        "<p class='muted'>Bez dokazov.</p>"@
    } else {
        "<div class='branch-grid'>"@ + boxes + "</div>"@
    }
}

/// The attested evidence, in a box per branch (in branch order, `labels`
/// naming the branches); a note when there is none.
pub fn evidence_block(labels: &Vec<String>, ev: &Vec<EvidenceRow>) -> (r: String)
    ensures
        r@ == evidence_block_spec(strs_view(labels@), ev@),
{
    let mut rows: Vec<(Option<usize>, String)> = Vec::new();
    let mut i: usize = 0;
    while i < ev.len()
        invariant
            0 <= i <= ev@.len(),
            rows@.len() == i,
            rows_view(rows@) == evidence_rows(ev@).take(i as int),
        decreases ev@.len() - i,
    {
        let e = &ev[i];
        let mut row = string_from("<tr><td class='lc'>");
        push_str(&mut row, esc(e.lang_name.as_str()).as_str());
        push_str(&mut row, "</td><td><a href='");
        push_str(&mut row, esc(e.source_url.as_str()).as_str());
        push_str(&mut row, "'>");
        push_str(&mut row, esc(e.form.as_str()).as_str());
        push_str(&mut row, "</a></td><td class='muted'>");
        push_str(&mut row, esc(e.normalized.as_str()).as_str());
        push_str(&mut row, "</td></tr>");
        let ghost before = rows@;
        rows.push((e.branch, row));
        proof {
            assert(rows@ == before.push((ev@[i as int].branch, row)));
            assert(rows_view(rows@)[i as int] == evidence_rows(ev@)[i as int]);
            assert(rows_view(rows@) =~= evidence_rows(ev@).take(i + 1));
        }
        i += 1;
    }
    assert(evidence_rows(ev@).take(i as int) =~= evidence_rows(ev@));
    let boxes = branch_boxes_of(labels, &rows);
    if char_len(boxes.as_str()) == 0 {
        string_from("<p class='muted'>Bez dokazov.</p>")
    } else {
        let mut s = string_from("<div class='branch-grid'>");
        push_str(&mut s, boxes.as_str());
        push_str(&mut s, "</div>");
        s
    }
}

} // verus!

//! What every rendered page shows: its title in the document head, its
//! headline, and the body it was given.

use vstd::prelude::*;
use crate::connections::xref_opt;
use crate::entry_page::{entry_head, entry_lower, entry_rail, entry_upper, headword_spec, official_cognates, official_lower, official_upper, recon_row, GeneratedEntry, OfficialMatch, OfficialOnlyEntry, SiteTables};
use crate::raw_page::{gloss_items, glosses_html};
use crate::strs::trim_spec;
use crate::layout::{esc_spec, page_spec};
use crate::official::OfficialDisplay;
use crate::pages::site_page_spec;
use crate::raw_page::{raw_page_body, RawPageLemma};
use crate::model::MatchStatus;
use crate::site_meta::SiteEntryMeta;
use crate::xref::Xref;

verus! {

/// Whether `t` occurs in `s` as a run of consecutive characters.
pub open spec fn has_text(s: Seq<char>, t: Seq<char>) -> bool {
    exists|i: int| 0 <= i && i + t.len() <= s.len() && #[trigger] s.subrange(i, i + t.len()) == t
}

proof fn lemma_has_text_end(a: Seq<char>, t: Seq<char>)
    ensures
        has_text(a + t, t),
{
    assert((a + t).subrange(a.len() as int, (a.len() + t.len()) as int) =~= t);
}

proof fn lemma_has_text_right(s: Seq<char>, t: Seq<char>, x: Seq<char>)
    requires
        has_text(s, t),
    ensures
        has_text(s + x, t),
{
    let i = choose|i: int| 0 <= i && i + t.len() <= s.len() && #[trigger] s.subrange(i, i + t.len()) == t;
    assert((s + x).subrange(i, i + t.len()) =~= s.subrange(i, i + t.len()));
}

/// A text cut out of the joint between two pieces: the end `a` of `lit`,
/// all of `e`, and the start `b` of `lit2`.
proof fn lemma_has_text_joint(p: Seq<char>, lit: Seq<char>, e: Seq<char>, lit2: Seq<char>, a: Seq<char>, b: Seq<char>)
    requires
        a.is_suffix_of(lit),
        b.is_prefix_of(lit2),
    ensures
        has_text(((p + lit) + e) + lit2, a + e + b),
{
    let s = ((p + lit) + e) + lit2;
    let t = a + e + b;
    let i = p.len() + lit.len() - a.len();
    assert(s.subrange(i, i + t.len()) =~= t) by {
        assert forall|k: int| 0 <= k < t.len() implies s.subrange(i, i + t.len())[k] == t[k] by {
            if k < a.len() {
                assert(lit[lit.len() - a.len() + k] == a[k]);
            } else if k < a.len() + e.len() {
            } else {
                assert(lit2[k - a.len() - e.len()] == b[k - a.len() - e.len()]);
            }
        }
    }
}

/// Every page carries its title, escaped, in the document head.
pub proof fn lemma_page_shows_title(title: Seq<char>, body: Seq<char>, depth: nat, search_js: Seq<char>)
    ensures
        has_text(page_spec(title, body, depth, search_js), "<title>"@ + esc_spec(title) + "</title>"@),
{
    let lit = "<!doctype html><html lang='art'><head><meta charset='utf-8'><meta name='viewport' content='width=device-width, initial-scale=1'><title>"@;
    let lit2 = "</title><link rel='stylesheet' href='"@;
    reveal_strlit("<!doctype html><html lang='art'><head><meta charset='utf-8'><meta name='viewport' content='width=device-width, initial-scale=1'><title>");
    reveal_strlit("</title><link rel='stylesheet' href='");
    reveal_strlit("<title>");
    reveal_strlit("</title>");
    assert("<title>"@.is_suffix_of(lit));
    assert("</title>"@.is_prefix_of(lit2));
    let t = "<title>"@ + esc_spec(title) + "</title>"@;
    lemma_has_text_joint(Seq::empty(), lit, esc_spec(title), lit2, "<title>"@, "</title>"@);
    assert(Seq::<char>::empty() + lit =~= lit);
    assert forall|s: Seq<char>, x: Seq<char>| has_text(s, t) implies #[trigger] has_text(s + x, t) by {
        lemma_has_text_right(s, t, x);
    }
    assert(has_text((lit + esc_spec(title)) + lit2, t));
    assert(has_text(page_spec(title, body, depth, search_js), t));
}

/// Every page carries the body it was given.
pub proof fn lemma_page_shows_body(title: Seq<char>, body: Seq<char>, depth: nat, search_js: Seq<char>)
    ensures
        has_text(page_spec(title, body, depth, search_js), body),
{
    assert forall|a: Seq<char>| #[trigger] has_text(a + body, body) by {
        lemma_has_text_end(a, body);
    }
    assert forall|s: Seq<char>, x: Seq<char>| has_text(s, body) implies #[trigger] has_text(s + x, body) by {
        lemma_has_text_right(s, body, x);
    }
    assert(has_text(page_spec(title, body, depth, search_js), body));
}

proof fn lemma_has_text_within(s: Seq<char>, u: Seq<char>, t: Seq<char>)
    requires
        has_text(s, u),
        has_text(u, t),
    ensures
        has_text(s, t),
{
    let i = choose|i: int| 0 <= i && i + u.len() <= s.len() && #[trigger] s.subrange(i, i + u.len()) == u;
    let j = choose|j: int| 0 <= j && j + t.len() <= u.len() && #[trigger] u.subrange(j, j + t.len()) == t;
    assert(s.subrange(i + j, i + j + t.len()) =~= u.subrange(j, j + t.len()));
}

/// The headline markup of a page whose headword is `h`.
pub open spec fn headline(h: Seq<char>) -> Seq<char> {
    "<h1 class='page-title firstHeading'>"@ + esc_spec(h) + "</h1>"@
}

/// The head title markup of a page titled `title`.
pub open spec fn head_title(title: Seq<char>) -> Seq<char> {
    "<title>"@ + esc_spec(title) + "</title>"@
}

proof fn lemma_headline_joint(p: Seq<char>, lit: Seq<char>, h: Seq<char>)
    requires
        "<h1 class='page-title firstHeading'>"@.is_suffix_of(lit),
    ensures
        has_text(((p + lit) + esc_spec(h)) + "</h1>"@, headline(h)),
{
    reveal_strlit("</h1>");
    lemma_has_text_joint(p, lit, esc_spec(h), "</h1>"@, "<h1 class='page-title firstHeading'>"@, "</h1>"@);
}

proof fn lemma_page_with(title: Seq<char>, body: Seq<char>, t: Seq<char>)
    requires
        has_text(body, t),
    ensures
        has_text(site_page_spec(title, body, 1), t),
        has_text(site_page_spec(title, body, 1), head_title(title)),
{
    lemma_page_shows_body(title, body, 1, crate::pages::SEARCH_JS@);
    lemma_has_text_within(site_page_spec(title, body, 1), body, t);
    lemma_page_shows_title(title, body, 1, crate::pages::SEARCH_JS@);
}

/// A raw attestation's page carries its display form as headline and
/// `"<display> — surova atestacija"` as its title.
pub proof fn lemma_raw_page_headline(
    display: Seq<char>,
    l: RawPageLemma,
    id: usize,
    meta: SiteEntryMeta,
    folded_ancestor: Seq<char>,
    editions: Seq<(Seq<char>, Seq<char>)>,
    xref: Option<Xref>,
    raw_xref: Xref,
    max_langs: usize,
    max_per_lang: usize,
)
    ensures
        ({
            let page = site_page_spec(
                display + " — surova atestacija"@,
                raw_page_body(display, l, id, meta, folded_ancestor, editions, xref, raw_xref, max_langs, max_per_lang),
                1,
            );
            has_text(page, headline(display)) && has_text(page, head_title(display + " — surova atestacija"@))
        }),
{
    let lit = "<article class='entry entry-with-rail'><div class='entry-grid'><div class='entry-main'><h1 class='page-title firstHeading'>"@;
    reveal_strlit("<article class='entry entry-with-rail'><div class='entry-grid'><div class='entry-main'><h1 class='page-title firstHeading'>");
    reveal_strlit("<h1 class='page-title firstHeading'>");
    assert("<h1 class='page-title firstHeading'>"@.is_suffix_of(lit));
    lemma_headline_joint(Seq::empty(), lit, display);
    assert(Seq::<char>::empty() + lit =~= lit);
    let t = headline(display);
    assert forall|s: Seq<char>, x: Seq<char>| has_text(s, t) implies #[trigger] has_text(s + x, t) by {
        lemma_has_text_right(s, t, x);
    }
    let body = raw_page_body(display, l, id, meta, folded_ancestor, editions, xref, raw_xref, max_langs, max_per_lang);
    assert(has_text(body, t));
    lemma_page_with(display + " — surova atestacija"@, body, t);
}

/// A generated entry's page carries its headword (the official lemma
/// where one matched, else the top candidate) as headline and
/// `"<headword> — medžuslovjansky"` as its title.
pub proof fn lemma_corpus_page_headline(
    id: usize,
    g: GeneratedEntry,
    status: MatchStatus,
    official: Option<OfficialMatch>,
    disp: Option<OfficialDisplay>,
    family: Seq<char>,
    synonyms: Seq<char>,
    derivation: Seq<char>,
    wiki_top: Seq<char>,
    wiki_bottom: Seq<char>,
    meta: SiteEntryMeta,
    folded_ancestor: Seq<char>,
    t: SiteTables,
    xref: Option<Xref>,
    raw_xref: Xref,
)
    ensures
        ({
            let h = headword_spec(g.top.form@, official);
            let page = site_page_spec(
                h + " — medžuslovjansky"@,
                entry_upper(id, g, official, disp, wiki_top, t, xref, raw_xref)
                    + entry_lower(g, official, disp, family, synonyms, derivation, wiki_bottom, t)
                    + entry_rail(g, status, official, meta, folded_ancestor, t),
                1,
            );
            has_text(page, headline(h)) && has_text(page, head_title(h + " — medžuslovjansky"@))
        }),
{
    let h = headword_spec(g.top.form@, official);
    let lit = "<div class='entry-grid'><div class='entry-main'><h1 class='page-title firstHeading'>"@;
    reveal_strlit("<div class='entry-grid'><div class='entry-main'><h1 class='page-title firstHeading'>");
    reveal_strlit("<h1 class='page-title firstHeading'>");
    assert("<h1 class='page-title firstHeading'>"@.is_suffix_of(lit));
    lemma_headline_joint("<article class='entry entry-with-rail'>"@ + wiki_top, lit, h);
    let ht = headline(h);
    assert forall|s: Seq<char>, x: Seq<char>| has_text(s, ht) implies #[trigger] has_text(s + x, ht) by {
        lemma_has_text_right(s, ht, x);
    }
    assert(has_text(entry_head(g, official, disp, wiki_top), ht));
    let body = entry_upper(id, g, official, disp, wiki_top, t, xref, raw_xref)
        + entry_lower(g, official, disp, family, synonyms, derivation, wiki_bottom, t)
        + entry_rail(g, status, official, meta, folded_ancestor, t);
    assert(has_text(body, ht));
    lemma_page_with(h + " — medžuslovjansky"@, body, ht);
}

/// An official-only lemma's page carries the lemma as headline and
/// `"<lemma> — medžuslovjansky"` as its title.
pub proof fn lemma_official_page_headline(
    id: usize,
    e: OfficialOnlyEntry,
    synonyms: Seq<char>,
    derivation: Seq<char>,
    wiki_top: Seq<char>,
    wiki_bottom: Seq<char>,
    meta: SiteEntryMeta,
    folded_ancestor: Seq<char>,
    t: SiteTables,
    xref: Option<Xref>,
    raw_xref: Xref,
)
    ensures
        ({
            let page = site_page_spec(
                e.isv@ + " — medžuslovjansky"@,
                official_upper(id, e, wiki_top, t, xref, raw_xref)
                    + official_lower(e, synonyms, derivation, wiki_bottom, meta, folded_ancestor, t),
                1,
            );
            has_text(page, headline(e.isv@)) && has_text(page, head_title(e.isv@ + " — medžuslovjansky"@))
        }),
{
    let lit = "<div class='entry-grid'><div class='entry-main'><h1 class='page-title firstHeading'>"@;
    reveal_strlit("<div class='entry-grid'><div class='entry-main'><h1 class='page-title firstHeading'>");
    reveal_strlit("<h1 class='page-title firstHeading'>");
    assert("<h1 class='page-title firstHeading'>"@.is_suffix_of(lit));
    lemma_headline_joint("<article class='entry entry-with-rail'>"@ + wiki_top, lit, e.isv@);
    let ht = headline(e.isv@);
    assert forall|s: Seq<char>, x: Seq<char>| has_text(s, ht) implies #[trigger] has_text(s + x, ht) by {
        lemma_has_text_right(s, ht, x);
    }
    let body = official_upper(id, e, wiki_top, t, xref, raw_xref)
        + official_lower(e, synonyms, derivation, wiki_bottom, meta, folded_ancestor, t);
    assert(has_text(body, ht));
    lemma_page_with(e.isv@ + " — medžuslovjansky"@, body, ht);
}

proof fn lemma_has_text_left(s: Seq<char>, t: Seq<char>, x: Seq<char>)
    requires
        has_text(s, t),
    ensures
        has_text(x + s, t),
{
    let i = choose|i: int| 0 <= i && i + t.len() <= s.len() && #[trigger] s.subrange(i, i + t.len()) == t;
    assert((x + s).subrange(x.len() + i, x.len() + i + t.len()) =~= s.subrange(i, i + t.len()));
}

proof fn lemma_has_text_self(t: Seq<char>)
    ensures
        has_text(t, t),
{
    assert(t.subrange(0int, 0int + t.len()) =~= t);
}

proof fn lemma_has_text_at(s: Seq<char>, t: Seq<char>, i: int)
    requires
        0 <= i,
        i + t.len() <= s.len(),
        s.subrange(i, i + t.len()) == t,
    ensures
        has_text(s, t),
{
}

/// Text found in either part of a joined text is found in the whole.
proof fn lemma_text_closure(t: Seq<char>)
    ensures
        forall|a: Seq<char>, b: Seq<char>| (has_text(a, t) || has_text(b, t)) ==> #[trigger] has_text(a + b, t),
{
    assert forall|a: Seq<char>, b: Seq<char>| (has_text(a, t) || has_text(b, t)) implies #[trigger] has_text(a + b, t) by {
        if has_text(a, t) {
            lemma_has_text_right(a, t, b);
        } else {
            lemma_has_text_left(b, t, a);
        }
    }
}

proof fn lemma_generator_note()
    ensures
        has_text(
            "</td></tr><tr><th>Opomba</th><td>Generator ješče ne izvodi tu formu iz srodnogo dokaza.</td></tr>"@,
            "Generator ješče ne izvodi tu formu iz srodnogo dokaza."@,
        ),
{
    let n1 = "Generator ješče ne izvodi tu formu iz srodnogo dokaza."@;
    let l1 = "</td></tr><tr><th>Opomba</th><td>Generator ješče ne izvodi tu formu iz srodnogo dokaza.</td></tr>"@;
    reveal_strlit("Generator ješče ne izvodi tu formu iz srodnogo dokaza.");
    reveal_strlit("</td></tr><tr><th>Opomba</th><td>Generator ješče ne izvodi tu formu iz srodnogo dokaza.</td></tr>");
    assert(l1.subrange(33, (33 + n1.len()) as int) =~= n1);
    lemma_has_text_at(l1, n1, 33);
}

proof fn lemma_no_evidence_note()
    ensures
        has_text(
            "<p class='muted'>Bez slovjanskogo srodnogo dokaza v slovniku.</p>"@,
            "Bez slovjanskogo srodnogo dokaza v slovniku."@,
        ),
{
    let n2 = "Bez slovjanskogo srodnogo dokaza v slovniku."@;
    let l2 = "<p class='muted'>Bez slovjanskogo srodnogo dokaza v slovniku.</p>"@;
    reveal_strlit("Bez slovjanskogo srodnogo dokaza v slovniku.");
    reveal_strlit("<p class='muted'>Bez slovjanskogo srodnogo dokaza v slovniku.</p>");
    assert(l2.subrange(17, (17 + n2.len()) as int) =~= n2);
    lemma_has_text_at(l2, n2, 17);
}

/// An official-only lemma's page carries the note that the generator does
/// not yet derive the form.
pub proof fn lemma_official_page_generator_note(
    id: usize,
    e: OfficialOnlyEntry,
    synonyms: Seq<char>,
    derivation: Seq<char>,
    wiki_top: Seq<char>,
    wiki_bottom: Seq<char>,
    meta: SiteEntryMeta,
    folded_ancestor: Seq<char>,
    t: SiteTables,
    xref: Option<Xref>,
    raw_xref: Xref,
)
    ensures
        has_text(
            site_page_spec(
                e.isv@ + " — medžuslovjansky"@,
                official_upper(id, e, wiki_top, t, xref, raw_xref)
                    + official_lower(e, synonyms, derivation, wiki_bottom, meta, folded_ancestor, t),
                1,
            ),
            "Generator ješče ne izvodi tu formu iz srodnogo dokaza."@,
        ),
{
    let body = official_upper(id, e, wiki_top, t, xref, raw_xref)
        + official_lower(e, synonyms, derivation, wiki_bottom, meta, folded_ancestor, t);
    let n1 = "Generator ješče ne izvodi tu formu iz srodnogo dokaza."@;
    lemma_generator_note();
    lemma_text_closure(n1);
    assert(has_text(body, n1));
    lemma_page_with(e.isv@ + " — medžuslovjansky"@, body, n1);
}

/// An official-only lemma's page whose dictionary entry lists no Slavic
/// cognate forms says that there is no cognate evidence.
pub proof fn lemma_official_page_no_evidence_note(
    id: usize,
    e: OfficialOnlyEntry,
    synonyms: Seq<char>,
    derivation: Seq<char>,
    wiki_top: Seq<char>,
    wiki_bottom: Seq<char>,
    meta: SiteEntryMeta,
    folded_ancestor: Seq<char>,
    t: SiteTables,
    xref: Option<Xref>,
    raw_xref: Xref,
)
    requires
        e.evidence@.len() == 0,
    ensures
        has_text(
            site_page_spec(
                e.isv@ + " — medžuslovjansky"@,
                official_upper(id, e, wiki_top, t, xref, raw_xref)
                    + official_lower(e, synonyms, derivation, wiki_bottom, meta, folded_ancestor, t),
                1,
            ),
            "Bez slovjanskogo srodnogo dokaza v slovniku."@,
        ),
{
    let body = official_upper(id, e, wiki_top, t, xref, raw_xref)
        + official_lower(e, synonyms, derivation, wiki_bottom, meta, folded_ancestor, t);
    let n2 = "Bez slovjanskogo srodnogo dokaza v slovniku."@;
    lemma_no_evidence_note();
    assert(official_cognates(crate::blocks::pairs_view(e.evidence@)) == "<p class='muted'>Bez slovjanskogo srodnogo dokaza v slovniku.</p>"@);
    lemma_text_closure(n2);
    assert(has_text(body, n2));
    lemma_page_with(e.isv@ + " — medžuslovjansky"@, body, n2);
}

/// A generated entry's page whose headword is an official lemma spelled
/// otherwise than the top candidate shows the candidate as its
/// reconstruction.
pub proof fn lemma_corpus_page_reconstruction(
    id: usize,
    g: GeneratedEntry,
    status: MatchStatus,
    official: Option<OfficialMatch>,
    disp: Option<OfficialDisplay>,
    family: Seq<char>,
    synonyms: Seq<char>,
    derivation: Seq<char>,
    wiki_top: Seq<char>,
    wiki_bottom: Seq<char>,
    meta: SiteEntryMeta,
    folded_ancestor: Seq<char>,
    t: SiteTables,
    xref: Option<Xref>,
    raw_xref: Xref,
)
    requires
        headword_spec(g.top.form@, official) != g.top.form@,
    ensures
        has_text(
            site_page_spec(
                headword_spec(g.top.form@, official) + " — medžuslovjansky"@,
                entry_upper(id, g, official, disp, wiki_top, t, xref, raw_xref)
                    + entry_lower(g, official, disp, family, synonyms, derivation, wiki_bottom, t)
                    + entry_rail(g, status, official, meta, folded_ancestor, t),
                1,
            ),
            "<tr><th>Rekonstrukcija</th><td><span class='mention'>"@ + esc_spec(g.top.form@) + "</span></td></tr>"@,
        ),
{
    let r = "<tr><th>Rekonstrukcija</th><td><span class='mention'>"@ + esc_spec(g.top.form@) + "</span></td></tr>"@;
    lemma_has_text_self(r);
    assert(recon_row(g, official) == r);
    lemma_text_closure(r);
    let body = entry_upper(id, g, official, disp, wiki_top, t, xref, raw_xref)
        + entry_lower(g, official, disp, family, synonyms, derivation, wiki_bottom, t)
        + entry_rail(g, status, official, meta, folded_ancestor, t);
    assert(has_text(body, r));
    lemma_page_with(headword_spec(g.top.form@, official) + " — medžuslovjansky"@, body, r);
}

/// The list item of gloss `k` is among the items of the first `n > k`.
proof fn lemma_gloss_item_listed(gs: Seq<String>, k: int, n: int)
    requires
        0 <= k < n <= gs.len(),
        trim_spec(gs[k]@).len() > 0,
    ensures
        has_text(gloss_items(gs, n), "<li>"@ + esc_spec(trim_spec(gs[k]@)) + "</li>"@),
    decreases n,
{
    let item = "<li>"@ + esc_spec(trim_spec(gs[k]@)) + "</li>"@;
    lemma_text_closure(item);
    if n - 1 == k {
        lemma_has_text_self(item);
        assert(gloss_items(gs, n) == gloss_items(gs, n - 1) + item);
    } else {
        lemma_gloss_item_listed(gs, k, n - 1);
    }
}

proof fn lemma_gloss_items_blank(gs: Seq<String>, n: int)
    requires
        0 <= n <= gs.len(),
        forall|k: int| 0 <= k < gs.len() ==> trim_spec(#[trigger] gs[k]@).len() == 0,
    ensures
        gloss_items(gs, n).len() == 0,
    decreases n,
{
    if n > 0 {
        lemma_gloss_items_blank(gs, n - 1);
        assert(trim_spec(gs[n - 1]@).len() == 0);
    }
}

proof fn lemma_no_meaning_note()
    ensures
        has_text("<p class='muted'>Bez zapisanogo smysla.</p>"@, "Bez zapisanogo smysla."@),
{
    let m = "Bez zapisanogo smysla."@;
    let lm = "<p class='muted'>Bez zapisanogo smysla.</p>"@;
    reveal_strlit("Bez zapisanogo smysla.");
    reveal_strlit("<p class='muted'>Bez zapisanogo smysla.</p>");
    assert(lm.subrange(17, (17 + m.len()) as int) =~= m);
    lemma_has_text_at(lm, m, 17);
}

/// A raw attestation's page carries the low-evidence warning, a list item
/// for every gloss that is not blank (trimmed), and, when every gloss is
/// blank, the note that no meaning is recorded.
pub proof fn lemma_raw_page_notes(
    display: Seq<char>,
    l: RawPageLemma,
    id: usize,
    meta: SiteEntryMeta,
    folded_ancestor: Seq<char>,
    editions: Seq<(Seq<char>, Seq<char>)>,
    xref: Option<Xref>,
    raw_xref: Xref,
    max_langs: usize,
    max_per_lang: usize,
)
    ensures
        ({
            let page = site_page_spec(
                display + " — surova atestacija"@,
                raw_page_body(display, l, id, meta, folded_ancestor, editions, xref, raw_xref, max_langs, max_per_lang),
                1,
            );
            &&& has_text(page, "Surova atestacija iz Wiktionary — nizko dokazano."@)
            &&& forall|k: int| 0 <= k < l.glosses@.len() && trim_spec(#[trigger] l.glosses@[k]@).len() > 0 ==> has_text(
                page,
                "<li>"@ + esc_spec(trim_spec(l.glosses@[k]@)) + "</li>"@,
            )
            &&& (forall|k: int| 0 <= k < l.glosses@.len() ==> trim_spec(#[trigger] l.glosses@[k]@).len() == 0) ==> has_text(
                page,
                "Bez zapisanogo smysla."@,
            )
        }),
{
    let body = raw_page_body(display, l, id, meta, folded_ancestor, editions, xref, raw_xref, max_langs, max_per_lang);
    let title = display + " — surova atestacija"@;
    let gs = l.glosses@;
    // The warning, in either form of the banner.
    let w = "Surova atestacija iz Wiktionary — nizko dokazano."@;
    let b1 = "<div class='banner warn'><b>Surova atestacija iz Wiktionary — nizko dokazano.</b> Ta zapis kombinuje dane iz anglijskoj Wiktionary i iz narodnoj "@;
    let b2 = "<div class='banner warn'><b>Surova atestacija iz Wiktionary — nizko dokazano.</b> Ta zapis pokazuje samo dane iz anglijskoj Wiktionary ("@;
    reveal_strlit("Surova atestacija iz Wiktionary — nizko dokazano.");
    reveal_strlit("<div class='banner warn'><b>Surova atestacija iz Wiktionary — nizko dokazano.</b> Ta zapis kombinuje dane iz anglijskoj Wiktionary i iz narodnoj ");
    reveal_strlit("<div class='banner warn'><b>Surova atestacija iz Wiktionary — nizko dokazano.</b> Ta zapis pokazuje samo dane iz anglijskoj Wiktionary (");
    assert(b1.subrange(28, (28 + w.len()) as int) =~= w);
    assert(b2.subrange(28, (28 + w.len()) as int) =~= w);
    lemma_has_text_at(b1, w, 28);
    lemma_has_text_at(b2, w, 28);
    lemma_text_closure(w);
    assert(has_text(body, w));
    lemma_page_with(title, body, w);
    // Every non-blank gloss.
    reveal_strlit("<li>");
    assert forall|k: int| 0 <= k < gs.len() && trim_spec(#[trigger] gs[k]@).len() > 0 implies has_text(
        site_page_spec(title, body, 1),
        "<li>"@ + esc_spec(trim_spec(gs[k]@)) + "</li>"@,
    ) by {
        let item = "<li>"@ + esc_spec(trim_spec(gs[k]@)) + "</li>"@;
        lemma_gloss_item_listed(gs, k, gs.len() as int);
        let items = gloss_items(gs, gs.len() as int);
        assert(items.len() > 0);
        assert(glosses_html(gs) == "<ul class='compact-list'>"@ + items + "</ul>"@);
        lemma_text_closure(item);
        assert(has_text(glosses_html(gs), item));
        assert(has_text(body, item));
        lemma_page_with(title, body, item);
    }
    // No meaning recorded.
    if forall|k: int| 0 <= k < gs.len() ==> trim_spec(#[trigger] gs[k]@).len() == 0 {
        lemma_gloss_items_blank(gs, gs.len() as int);
        let m = "Bez zapisanogo smysla."@;
        let lm = "<p class='muted'>Bez zapisanogo smysla.</p>"@;
        lemma_no_meaning_note();
        assert(glosses_html(gs) == lm);
        lemma_text_closure(m);
        assert(has_text(body, m));
        lemma_page_with(title, body, m);
    }
}

} // verus!

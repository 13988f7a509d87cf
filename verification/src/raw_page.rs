//! The page of a raw attestation: a Slavic word that only Wiktionary
//! attests, shown with its English glosses, what its native edition
//! records, its etymology and the same meanings in other languages.

use vstd::prelude::*;
use crate::blocks::{etym_is_stub, etym_is_stub_spec};
use crate::connections::{
    connections_spec, cross_lingual_meanings_section, cross_lingual_spec, enrich_connections_section, xref_opt,
    ConnMember, CrossWord, NativeEntry,
};
use crate::entry_pages::{entry_infobox, infobox_spec};
use crate::etymology::{raw_etymology_section, raw_etymology_spec, RawEtymology};
use crate::layout::{esc, esc_spec};
use crate::pages::{site_page, site_page_spec};
use crate::site_meta::SiteEntryMeta;
use crate::strs::{push_str, string_from, trim, trim_spec};
use crate::xref::{source_url, source_url_spec, Xref};

verus! {

/// A raw attestation with everything its page shows.
pub struct RawPageLemma {
    /// The English Wiktionary glosses, as attested.
    pub glosses: Vec<String>,
    /// The word, its language and its etymologies.
    pub etymology: RawEtymology,
    /// The word in Interslavic-flavoured spelling.
    pub visible_word: String,
    /// What the word's native edition records, if it has the word.
    pub native: Option<NativeEntry>,
    /// Words of other languages sharing a gloss, by gloss.
    pub cross: Vec<(String, Vec<CrossWord>)>,
}

/// The word as the native-editions section sees it.
pub open spec fn raw_conn(l: RawPageLemma) -> Seq<ConnMember> {
    seq![ConnMember { lang: l.etymology.lang, word: l.etymology.word, visible_word: l.visible_word, entry: l.native }]
}

/// The list items of the non-blank glosses among the first `n`, trimmed.
pub open spec fn gloss_items(gs: Seq<String>, n: int) -> Seq<char>
    decreases n,
{
    if n <= 0 {
        Seq::empty()
    } else {
        gloss_items(gs, n - 1) + if trim_spec(gs[n - 1]@).len() == 0 {
            Seq::empty()
        } else {
            "<li>"@ + esc_spec(trim_spec(gs[n - 1]@)) + "</li>"@
        }
    }
}

/// The glosses as a list, or a note that none is recorded.
pub open spec fn glosses_html(gs: Seq<String>) -> Seq<char> {
    let items = gloss_items(gs, gs.len() as int);
    if items.len() == 0 {
        "<p class='muted'>Bez zapisanogo smysla.</p>"@
    } else {
        "<ul class='compact-list'>"@ + items + "</ul>"@
    }
}

/// Whether any of the first `n` native paragraphs is more than a stub.
pub open spec fn has_real_para(ps: Seq<(String, String)>, n: int) -> bool
    decreases n,
{
    if n <= 0 {
        false
    } else {
        has_real_para(ps, n - 1) || !etym_is_stub_spec(ps[n - 1].0@)
    }
}

/// Whether the page shows native content: a native-editions section, or a
/// native etymology paragraph that is not a stub.
pub open spec fn native_shown(conn: Seq<char>, e: RawEtymology) -> bool {
    conn.len() > 0 || match e.native {
        Some(ps) => has_real_para(ps@, ps@.len() as int),
        None => false,
    }
}

/// The warning banner: it names the native edition when the page draws on
/// it.
pub open spec fn raw_banner(shown: bool, lang_name: Seq<char>, word: Seq<char>) -> Seq<char> {
    if shown {
        "<div class='banner warn'><b>Surova atestacija iz Wiktionary — nizko dokazano.</b> Ta zapis kombinuje dane iz anglijskoj Wiktionary i iz narodnoj "@
            + esc_spec(lang_name) + " Wiktionary (<span class='mention'>"@ + esc_spec(word)
            + "</span>): zapisane smysly, značenja, priměry i etimologiju. Ne ma slovjanskogo konsensusa ni oficialnoj validacije — ne oficialny standard.</div>"@
    } else {
        "<div class='banner warn'><b>Surova atestacija iz Wiktionary — nizko dokazano.</b> Ta zapis pokazuje samo dane iz anglijskoj Wiktionary ("@
            + esc_spec(lang_name) + " <span class='mention'>"@ + esc_spec(word)
            + "</span>): zapisane smysly i surovy etimologičny tekst. Ne ma slovjanskogo konsensusa ni oficialnoj validacije — ne oficialny standard.</div>"@
    }
}

/// The infobox rows of a raw attestation.
pub open spec fn raw_info_rows(e: RawEtymology) -> Seq<char> {
    "<tr><th>Izvor</th><td><a href='"@ + esc_spec(source_url_spec(e.lang@, e.word@)) + "'>"@ + esc_spec(e.lang_name@)
        + " · Wiktionary</a></td></tr><tr><th>Atestovana forma</th><td><span class='mention'>"@ + esc_spec(e.word@)
        + "</span></td></tr><tr><th>Dokaz</th><td>surova (bez konsensusa)</td></tr>"@
}

/// The body of a raw attestation's page.
pub open spec fn raw_page_body(
    display: Seq<char>,
    l: RawPageLemma,
    id: usize,
    meta: SiteEntryMeta,
    folded_ancestor: Seq<char>,
    editions: Seq<(Seq<char>, Seq<char>)>,
    xref: Option<Xref>,
    raw_xref: Xref,
    max_langs: usize,
    max_per_lang: usize,
) -> Seq<char> {
    let e = l.etymology;
    let conn = connections_spec(editions, raw_conn(l), xref, raw_xref, id);
    "<article class='entry entry-with-rail'><div class='entry-grid'><div class='entry-main'><h1 class='page-title firstHeading'>"@
        + esc_spec(display) + "</h1>"@ + raw_banner(native_shown(conn, e), e.lang_name@, e.word@)
        + "<section><h2 id='smysly'>Anglijske značenja <span class='muted'>(anglijska Wiktionary)</span></h2>"@
        + glosses_html(l.glosses@) + "</section>"@ + conn + raw_etymology_spec(e) + cross_lingual_spec(
        l.cross@,
        max_langs,
        max_per_lang,
        xref,
        raw_xref,
        id,
    ) + "<p class='foot'>Surova atestacija iz Wiktionary (CC BY-SA): <a href='"@ + esc_spec(
        source_url_spec(e.lang@, e.word@),
    ) + "'>"@ + esc_spec(e.lang_name@) + " · "@ + esc_spec(e.word@)
        + "</a>. Nizko dokazano; samo za sajt, ne oficialny standard. Prěgibanje ne generovano.</p></div><aside class='entry-rail'>"@
        + infobox_spec(meta, raw_info_rows(e), folded_ancestor) + "</aside></div></article>"@
}

fn push_glosses(s: &mut String, gs: &Vec<String>)
    ensures
        final(s)@ == old(s)@ + glosses_html(gs@),
{
    let mut items = String::new();
    let mut i: usize = 0;
    while i < gs.len()
        invariant
            i <= gs@.len(),
            items@ == gloss_items(gs@, i as int),
        decreases gs@.len() - i,
    {
        let g = trim(gs[i].as_str());
        if !g.as_str().is_empty() {
            push_str(&mut items, "<li>");
            push_str(&mut items, esc(g.as_str()).as_str());
            push_str(&mut items, "</li>");
        }
        i += 1;
    }
    if items.as_str().is_empty() {
        push_str(s, "<p class='muted'>Bez zapisanogo smysla.</p>");
    } else {
        push_str(s, "<ul class='compact-list'>");
        push_str(s, items.as_str());
        push_str(s, "</ul>");
    }
}

fn real_paragraph(ps: &Vec<(String, String)>) -> (r: bool)
    ensures
        r == has_real_para(ps@, ps@.len() as int),
{
    let mut found = false;
    let mut i: usize = 0;
    while i < ps.len()
        invariant
            i <= ps@.len(),
            found == has_real_para(ps@, i as int),
        decreases ps@.len() - i,
    {
        if !etym_is_stub(ps[i].0.as_str()) {
            found = true;
        }
        i += 1;
    }
    found
}

fn push_raw_info_rows(s: &mut String, e: &RawEtymology)
    ensures
        final(s)@ == old(s)@ + raw_info_rows(*e),
{
    let url = source_url(e.lang.as_str(), e.word.as_str());
    push_str(s, "<tr><th>Izvor</th><td><a href='");
    push_str(s, esc(url.as_str()).as_str());
    push_str(s, "'>");
    push_str(s, esc(e.lang_name.as_str()).as_str());
    push_str(s, " · Wiktionary</a></td></tr><tr><th>Atestovana forma</th><td><span class='mention'>");
    push_str(s, esc(e.word.as_str()).as_str());
    push_str(s, "</span></td></tr><tr><th>Dokaz</th><td>surova (bez konsensusa)</td></tr>");
}

fn push_banner(s: &mut String, shown: bool, e: &RawEtymology)
    ensures
        final(s)@ == old(s)@ + raw_banner(shown, e.lang_name@, e.word@),
{
    let lang = esc(e.lang_name.as_str());
    let word = esc(e.word.as_str());
    if shown {
        push_str(s, "<div class='banner warn'><b>Surova atestacija iz Wiktionary — nizko dokazano.</b> Ta zapis kombinuje dane iz anglijskoj Wiktionary i iz narodnoj ");
        push_str(s, lang.as_str());
        push_str(s, " Wiktionary (<span class='mention'>");
        push_str(s, word.as_str());
        push_str(s, "</span>): zapisane smysly, značenja, priměry i etimologiju. Ne ma slovjanskogo konsensusa ni oficialnoj validacije — ne oficialny standard.</div>");
    } else {
        push_str(s, "<div class='banner warn'><b>Surova atestacija iz Wiktionary — nizko dokazano.</b> Ta zapis pokazuje samo dane iz anglijskoj Wiktionary (");
        push_str(s, lang.as_str());
        push_str(s, " <span class='mention'>");
        push_str(s, word.as_str());
        push_str(s, "</span>): zapisane smysly i surovy etimologičny tekst. Ne ma slovjanskogo konsensusa ni oficialnoj validacije — ne oficialny standard.</div>");
    }
}

/// The page of a raw attestation: a warning that says whether the native
/// edition contributed, the English glosses, the native-editions section,
/// the etymology, the same meanings in other languages, a source line and
/// the infobox. `editions` are the native editions (code and name) in
/// order; `max_langs` and `max_per_lang` cap the cross-language rows.
pub fn raw_lemma_page(
    display: &str,
    lemma: RawPageLemma,
    id: usize,
    meta: &SiteEntryMeta,
    folded_ancestor: &str,
    editions: &Vec<(String, String)>,
    xref: Option<&Xref>,
    raw_xref: &Xref,
    max_langs: usize,
    max_per_lang: usize,
) -> (r: String)
    ensures
        r@ == site_page_spec(
            display@ + " — surova atestacija"@,
            raw_page_body(
                display@,
                lemma,
                id,
                *meta,
                folded_ancestor@,
                editions@.map_values(|x: (String, String)| (x.0@, x.1@)),
                xref_opt(xref),
                *raw_xref,
                max_langs,
                max_per_lang,
            ),
            1,
        ),
{
    let ghost l = lemma;
    let RawPageLemma { glosses, etymology, visible_word, native, cross } = lemma;
    let members = vec![ConnMember {
        lang: etymology.lang.clone(),
        word: etymology.word.clone(),
        visible_word: visible_word,
        entry: native,
    }];
    assert(members@ =~= raw_conn(l));
    let conn = enrich_connections_section(editions, &members, xref, raw_xref, id);
    let shown = !conn.as_str().is_empty() || match &etymology.native {
        Some(ps) => real_paragraph(ps),
        None => false,
    };
    let mut body = string_from("<article class='entry entry-with-rail'><div class='entry-grid'><div class='entry-main'><h1 class='page-title firstHeading'>");
    push_str(&mut body, esc(display).as_str());
    push_str(&mut body, "</h1>");
    push_banner(&mut body, shown, &etymology);
    push_str(&mut body, "<section><h2 id='smysly'>Anglijske značenja <span class='muted'>(anglijska Wiktionary)</span></h2>");
    push_glosses(&mut body, &glosses);
    push_str(&mut body, "</section>");
    push_str(&mut body, conn.as_str());
    push_str(&mut body, raw_etymology_section(&etymology).as_str());
    let x = cross_lingual_meanings_section(&cross, max_langs, max_per_lang, xref, raw_xref, id);
    push_str(&mut body, x.as_str());
    push_str(&mut body, "<p class='foot'>Surova atestacija iz Wiktionary (CC BY-SA): <a href='");
    let url = source_url(etymology.lang.as_str(), etymology.word.as_str());
    push_str(&mut body, esc(url.as_str()).as_str());
    push_str(&mut body, "'>");
    push_str(&mut body, esc(etymology.lang_name.as_str()).as_str());
    push_str(&mut body, " · ");
    push_str(&mut body, esc(etymology.word.as_str()).as_str());
    push_str(&mut body, "</a>. Nizko dokazano; samo za sajt, ne oficialny standard. Prěgibanje ne generovano.</p></div><aside class='entry-rail'>");
    let mut rows = String::new();
    push_raw_info_rows(&mut rows, &etymology);
    push_str(&mut body, entry_infobox(meta, rows.as_str(), folded_ancestor).as_str());
    push_str(&mut body, "</aside></div></article>");
    let mut title = string_from(display);
    push_str(&mut title, " — surova atestacija");
    site_page(title.as_str(), body.as_str(), 1)
}

} // verus!

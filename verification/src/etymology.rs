//! The etymology sections of entry pages: the summary line, the English
//! Wiktionary etymologies of the cognates and the native editions'
//! etymologies, each as a card linking its source.
//!
//! Language names, flavoured spellings and transliterations are fixed
//! elsewhere; the members carry them as plain values.

use vstd::prelude::*;
use crate::blocks::{etym_is_stub, etym_is_stub_spec};
use crate::categories::strip_prefix_all;
use crate::entry_pages::strip_stars;
use crate::family::{etymon_display, etymon_display_spec};
use crate::layout::{esc, esc_spec};
use crate::split::{join_spec, join_strings, replace_spec, replace_str};
use crate::strs::{push_str, string_from, trim, trim_is_empty, trim_spec};
use crate::xref::{source_url, source_url_spec};

verus! {

/// The paragraphs, each escaped in `<p>`.
pub open spec fn paras_spec(ps: Seq<Seq<char>>) -> Seq<char>
    decreases ps.len(),
{
    if ps.len() == 0 {
        Seq::empty()
    } else {
        paras_spec(ps.drop_last()) + "<p>"@ + esc_spec(ps.last()) + "</p>"@
    }
}

/// Appends the paragraphs, each escaped in `<p>`.
pub fn push_paras(s: &mut String, ps: &Vec<String>)
    ensures
        final(s)@ == old(s)@ + paras_spec(ps@.map_values(|p: String| p@)),
{
    let ghost pv = ps@.map_values(|p: String| p@);
    let mut i: usize = 0;
    assert(pv.take(0) =~= Seq::<Seq<char>>::empty());
    while i < ps.len()
        invariant
            pv == ps@.map_values(|p: String| p@),
            i <= ps@.len(),
            s@ == old(s)@ + paras_spec(pv.take(i as int)),
        decreases ps@.len() - i,
    {
        push_str(s, "<p>");
        push_str(s, esc(ps[i].as_str()).as_str());
        push_str(s, "</p>");
        proof {
            assert(pv.take(i + 1).drop_last() =~= pv.take(i as int));
            assert(pv[i as int] == ps@[i as int]@);
            assert(s@ =~= old(s)@ + paras_spec(pv.take(i + 1)));
        }
        i += 1;
    }
    assert(pv.take(i as int) =~= pv);
}

/// A cognate with its English Wiktionary etymology.
pub struct EnglishEtymology {
    pub lang: String,
    pub lang_name: String,
    /// The lemma as the dump spells it.
    pub word: String,
    /// The lemma as displayed.
    pub visible_word: String,
    /// The etymology's paragraphs.
    pub etymology: Vec<String>,
}

/// The paragraphs of a cognate's etymology.
pub open spec fn etym_paras(m: EnglishEtymology) -> Seq<Seq<char>> {
    m.etymology@.map_values(|p: String| p@)
}

/// The text by which repeated etymologies are recognised: the paragraphs
/// joined by newlines.
pub open spec fn etym_key(m: EnglishEtymology) -> Seq<char> {
    join_spec(etym_paras(m), "\n"@)
}

/// The card of one English etymology.
pub open spec fn english_card(m: EnglishEtymology) -> Seq<char> {
    "<div class='etym-src'><div class='src-head'><span class='lc'>anglijska Wiktionary · "@ + esc_spec(m.lang_name@)
        + "</span> <a class='ext' href='https://en.wiktionary.org/wiki/"@ + esc_spec(replace_spec(m.word@, " "@, "_"@))
        + "#"@ + esc_spec(m.lang@) + "'>"@ + esc_spec(m.visible_word@) + "↗</a></div>"@ + paras_spec(etym_paras(m))
        + "</div>"@
}

/// At most this many distinct English etymologies are shown.
pub const MAX_ENGLISH_ETYMOLOGIES: usize = 4;

/// The etymologies shown among the first `n` cognates, and their cards: a
/// cognate with an etymology is shown unless the same text was already
/// shown or four have been.
pub open spec fn english_scan(ms: Seq<EnglishEtymology>, n: int) -> (Seq<Seq<char>>, Seq<char>)
    decreases n,
{
    if n <= 0 {
        (Seq::empty(), Seq::empty())
    } else {
        let (seen, cards) = english_scan(ms, n - 1);
        let m = ms[n - 1];
        if seen.len() >= MAX_ENGLISH_ETYMOLOGIES || m.etymology@.len() == 0 || seen.contains(etym_key(m)) {
            (seen, cards)
        } else {
            (seen.push(etym_key(m)), cards + english_card(m))
        }
    }
}

/// The English etymology cards of a cognate set.
pub open spec fn english_cards_spec(ms: Seq<EnglishEtymology>) -> Seq<char> {
    english_scan(ms, ms.len() as int).1
}

fn push_english_card(s: &mut String, m: &EnglishEtymology)
    ensures
        final(s)@ == old(s)@ + english_card(*m),
{
    proof {
        reveal_strlit(" ");
    }
    push_str(s, "<div class='etym-src'><div class='src-head'><span class='lc'>anglijska Wiktionary · ");
    push_str(s, esc(m.lang_name.as_str()).as_str());
    push_str(s, "</span> <a class='ext' href='https://en.wiktionary.org/wiki/");
    let under = replace_str(m.word.as_str(), " ", "_");
    push_str(s, esc(under.as_str()).as_str());
    push_str(s, "#");
    push_str(s, esc(m.lang.as_str()).as_str());
    push_str(s, "'>");
    push_str(s, esc(m.visible_word.as_str()).as_str());
    push_str(s, "↗</a></div>");
    push_paras(s, &m.etymology);
    push_str(s, "</div>");
}

fn has_text(v: &Vec<String>, x: &str) -> (r: bool)
    ensures
        r == v@.map_values(|s: String| s@).contains(x@),
{
    let ghost vv = v@.map_values(|s: String| s@);
    let mut i: usize = 0;
    while i < v.len()
        invariant
            vv == v@.map_values(|s: String| s@),
            i <= v@.len(),
            forall|j: int| 0 <= j < i ==> vv[j] != x@,
        decreases v@.len() - i,
    {
        if crate::strs::str_eq(v[i].as_str(), x) {
            assert(vv[i as int] == x@);
            return true;
        }
        assert(vv[i as int] == v@[i as int]@);
        i += 1;
    }
    false
}

/// The English Wiktionary etymologies of the cognates: one card per distinct
/// etymology text, in cognate order, at most four.
pub fn english_etymology_cards(ms: &Vec<EnglishEtymology>) -> (r: String)
    ensures
        r@ == english_cards_spec(ms@),
{
    let mut seen: Vec<String> = Vec::new();
    let mut cards = String::new();
    let mut i: usize = 0;
    while i < ms.len()
        invariant
            i <= ms@.len(),
            seen@.map_values(|s: String| s@) == english_scan(ms@, i as int).0,
            cards@ == english_scan(ms@, i as int).1,
        decreases ms@.len() - i,
    {
        let m = &ms[i];
        if seen.len() < MAX_ENGLISH_ETYMOLOGIES && m.etymology.len() > 0 {
            let key = join_strings(&m.etymology, "\n");
            if !has_text(&seen, key.as_str()) {
                let ghost before = seen@;
                seen.push(key);
                proof {
                    assert(seen@.map_values(|s: String| s@) =~= before.map_values(|s: String| s@).push(etym_key(*m)));
                }
                push_english_card(&mut cards, m);
            }
        }
        i += 1;
    }
    cards
}

/// A cognate as the native etymology cards see it.
pub struct NativeEtymology {
    pub lang: String,
    /// The lemma as the dump spells it.
    pub word: String,
    /// The lemma as displayed.
    pub visible_word: String,
    /// The native edition's etymology paragraphs for the word,
    /// transliterated, when that edition has the word.
    pub native: Option<Vec<String>>,
}

/// The first cognate from position `i` on whose language is `lang` and that
/// the native edition has.
pub open spec fn first_native(ms: Seq<NativeEtymology>, lang: Seq<char>, i: int) -> Option<int>
    decreases ms.len() - i,
{
    if i < 0 || i >= ms.len() {
        None
    } else if ms[i].lang@ == lang && ms[i].native is Some {
        Some(i)
    } else {
        first_native(ms, lang, i + 1)
    }
}

/// What the search finds lies at or after its start, inside the list, and
/// is such a cognate.
pub proof fn lemma_first_native(ms: Seq<NativeEtymology>, lang: Seq<char>, i: int)
    ensures
        first_native(ms, lang, i) matches Some(j) ==> i <= j < ms.len() && ms[j].lang@ == lang
            && ms[j].native is Some,
    decreases ms.len() - i,
{
    if 0 <= i < ms.len() && !(ms[i].lang@ == lang && ms[i].native is Some) {
        lemma_first_native(ms, lang, i + 1);
    }
}

/// The card of one native etymology.
pub open spec fn native_card(name: Seq<char>, lang: Seq<char>, m: NativeEtymology) -> Seq<char> {
    "<div class='etym-src'><div class='src-head'><span class='lc'>"@ + esc_spec(name) + "</span> <a class='ext' href='"@
        + esc_spec(source_url_spec(lang, m.word@)) + "'>"@ + esc_spec(m.visible_word@) + "↗</a></div>"@
        + paras_spec(m.native.unwrap()@.map_values(|p: String| p@)) + "</div>"@
}

/// The card of an edition: that of its first cognate the edition has,
/// when that entry has an etymology.
pub open spec fn edition_card(edition: (Seq<char>, Seq<char>), ms: Seq<NativeEtymology>) -> Seq<char> {
    match first_native(ms, edition.0, 0) {
        Some(i) => if ms[i].native.unwrap()@.len() > 0 {
            native_card(edition.1, edition.0, ms[i])
        } else {
            Seq::empty()
        },
        None => Seq::empty(),
    }
}

/// The editions (code and name) as plain values.
pub open spec fn editions_view(e: Seq<(String, String)>) -> Seq<(Seq<char>, Seq<char>)> {
    e.map_values(|x: (String, String)| (x.0@, x.1@))
}

/// The cards of the first `k` editions.
pub open spec fn native_cards_upto(eds: Seq<(Seq<char>, Seq<char>)>, ms: Seq<NativeEtymology>, k: int) -> Seq<char>
    decreases k,
{
    if k <= 0 {
        Seq::empty()
    } else {
        native_cards_upto(eds, ms, k - 1) + edition_card(eds[k - 1], ms)
    }
}

fn find_native(ms: &Vec<NativeEtymology>, lang: &str) -> (r: Option<usize>)
    ensures
        r == (match first_native(ms@, lang@, 0) {
            Some(i) => Some(i as usize),
            None => None::<usize>,
        }),
        r matches Some(i) ==> i < ms@.len() && first_native(ms@, lang@, 0) == Some(i as int),
        r is None ==> first_native(ms@, lang@, 0) is None,
{
    proof {
        lemma_first_native(ms@, lang@, 0);
    }
    let mut i: usize = ms.len();
    let mut found: Option<usize> = None;
    while i > 0
        invariant
            i <= ms@.len(),
            found == (match first_native(ms@, lang@, i as int) {
                Some(j) => Some(j as usize),
                None => None::<usize>,
            }),
        decreases i,
    {
        i -= 1;
        proof {
            lemma_first_native(ms@, lang@, i + 1);
        }
        if ms[i].native.is_some() && crate::strs::str_eq(ms[i].lang.as_str(), lang) {
            found = Some(i);
        }
    }
    found
}

fn push_edition_card(s: &mut String, code: &str, name: &str, ms: &Vec<NativeEtymology>)
    ensures
        final(s)@ == old(s)@ + edition_card((code@, name@), ms@),
{
    proof {
        lemma_first_native(ms@, code@, 0);
    }
    match find_native(ms, code) {
        Some(i) => {
            let m = &ms[i];
            match &m.native {
                Some(ps) => {
                    assert(ms@[i as int].native.unwrap() == *ps);
                    if ps.len() > 0 {
                        push_str(s, "<div class='etym-src'><div class='src-head'><span class='lc'>");
                        push_str(s, esc(name).as_str());
                        push_str(s, "</span> <a class='ext' href='");
                        let url = source_url(code, m.word.as_str());
                        push_str(s, esc(url.as_str()).as_str());
                        push_str(s, "'>");
                        push_str(s, esc(m.visible_word.as_str()).as_str());
                        push_str(s, "↗</a></div>");
                        push_paras(s, ps);
                        push_str(s, "</div>");
                        assert(s@ =~= old(s)@ + native_card(name@, code@, ms@[i as int]));
                    }
                },
                None => {},
            }
        },
        None => {},
    }
}

/// The native editions' etymologies, one card per edition (in the order
/// of `editions`, each a code and a display name): that of the edition's
/// first cognate it has, when that entry carries an etymology.
pub fn native_etymology_cards(editions: &Vec<(String, String)>, ms: &Vec<NativeEtymology>) -> (r: String)
    ensures
        r@ == native_cards_upto(editions_view(editions@), ms@, editions@.len() as int),
{
    let ghost eds = editions_view(editions@);
    let mut s = String::new();
    let mut k: usize = 0;
    while k < editions.len()
        invariant
            eds == editions_view(editions@),
            k <= editions@.len(),
            s@ == native_cards_upto(eds, ms@, k as int),
        decreases editions@.len() - k,
    {
        assert(eds[k as int] == (editions@[k as int].0@, editions@[k as int].1@));
        push_edition_card(&mut s, editions[k].0.as_str(), editions[k].1.as_str(), ms);
        k += 1;
    }
    s
}

/// The opening line of a generated entry's etymology: the etymon of a
/// borrowing, else the Proto-Slavic ancestor linked to its reconstruction.
pub open spec fn etym_summary(borrowed: bool, etymon: Seq<char>, proto: Seq<char>) -> Seq<char> {
    if borrowed {
        "<p>Internacionalizm (pozajęto slovo). Etimon: <span class='mention'>"@ + esc_spec(etymon_display_spec(etymon))
            + "</span>. Slovjanske refleksy i izvorne etimologije sųt niže.</p>"@
    } else {
        let p = esc_spec(strip_prefix_all(proto, "*"@));
        "<p>Iz praslovjanskogo <a class='mention' href='https://en.wiktionary.org/wiki/Reconstruction:Proto-Slavic/"@ + p
            + "'>*"@ + p + "</a>. Niže sųt izvorne etimologije iz anglijskogo i narodnyh Wiktionary.</p>"@
    }
}

/// The etymology section of a generated entry: the summary, then the
/// English and native cards when there are any.
pub open spec fn unified_etymology_spec(
    borrowed: bool,
    etymon: Seq<char>,
    proto: Seq<char>,
    english: Seq<EnglishEtymology>,
    editions: Seq<(Seq<char>, Seq<char>)>,
    native: Seq<NativeEtymology>,
) -> Seq<char> {
    let summary = etym_summary(borrowed, etymon, proto);
    let cards = english_cards_spec(english) + native_cards_upto(editions, native, editions.len() as int);
    if trim_spec(cards).len() == 0 {
        "<section><h2 id='etimologija'>Etimologija</h2>"@ + summary + "</section>"@
    } else {
        "<section><h2 id='etimologija'>Etimologija</h2>"@ + summary + "<div class='etym-sources'>"@ + cards
            + "</div><p class='muted'>Izvorne etimologije sųt vzęte iz Wiktionary (CC BY-SA); anglijsky tekst ostaje anglijsky, rusky tekst jest transliterovany.</p></section>"@
    }
}

/// The etymology section of a generated entry: a borrowing's etymon or the
/// Proto-Slavic ancestor, then the cognates' English etymologies and the
/// native editions' ones (`editions` in order, code and name).
pub fn unified_etymology_section(
    borrowed: bool,
    etymon: &str,
    proto: &str,
    english: &Vec<EnglishEtymology>,
    editions: &Vec<(String, String)>,
    native: &Vec<NativeEtymology>,
) -> (r: String)
    ensures
        r@ == unified_etymology_spec(borrowed, etymon@, proto@, english@, editions_view(editions@), native@),
{
    let mut summary = String::new();
    if borrowed {
        push_str(&mut summary, "<p>Internacionalizm (pozajęto slovo). Etimon: <span class='mention'>");
        let d = etymon_display(etymon);
        push_str(&mut summary, esc(d.as_str()).as_str());
        push_str(&mut summary, "</span>. Slovjanske refleksy i izvorne etimologije sųt niže.</p>");
    } else {
        let bare = strip_stars(proto);
        let p = esc(bare.as_str());
        push_str(&mut summary, "<p>Iz praslovjanskogo <a class='mention' href='https://en.wiktionary.org/wiki/Reconstruction:Proto-Slavic/");
        push_str(&mut summary, p.as_str());
        push_str(&mut summary, "'>*");
        push_str(&mut summary, p.as_str());
        push_str(&mut summary, "</a>. Niže sųt izvorne etimologije iz anglijskogo i narodnyh Wiktionary.</p>");
    }
    let mut cards = english_etymology_cards(english);
    let n = native_etymology_cards(editions, native);
    push_str(&mut cards, n.as_str());
    let mut s = string_from("<section><h2 id='etimologija'>Etimologija</h2>");
    push_str(&mut s, summary.as_str());
    if trim_is_empty(cards.as_str()) {
        push_str(&mut s, "</section>");
    } else {
        push_str(&mut s, "<div class='etym-sources'>");
        push_str(&mut s, cards.as_str());
        push_str(&mut s, "</div><p class='muted'>Izvorne etimologije sųt vzęte iz Wiktionary (CC BY-SA); anglijsky tekst ostaje anglijsky, rusky tekst jest transliterovany.</p></section>");
    }
    s
}

/// The etymology section of an official-only entry: the native editions'
/// etymologies, or nothing when there are none.
pub open spec fn official_etymology_spec(editions: Seq<(Seq<char>, Seq<char>)>, native: Seq<NativeEtymology>) -> Seq<char> {
    let cards = native_cards_upto(editions, native, editions.len() as int);
    if trim_spec(cards).len() == 0 {
        Seq::empty()
    } else {
        "<section><h2 id='etimologija'>Etimologija</h2><div class='etym-sources'>"@ + cards
            + "</div><p class='muted'>Izvorne etimologije iz narodnyh Wiktionary (CC BY-SA); rusky tekst jest transliterovany.</p></section>"@
    }
}

/// The etymology section of an official-only entry, from the native
/// editions alone; nothing when none of them has an etymology.
pub fn unified_official_etymology_section(editions: &Vec<(String, String)>, native: &Vec<NativeEtymology>) -> (r: String)
    ensures
        r@ == official_etymology_spec(editions_view(editions@), native@),
{
    let cards = native_etymology_cards(editions, native);
    if trim_is_empty(cards.as_str()) {
        return String::new();
    }
    let mut s = string_from("<section><h2 id='etimologija'>Etimologija</h2><div class='etym-sources'>");
    push_str(&mut s, cards.as_str());
    push_str(&mut s, "</div><p class='muted'>Izvorne etimologije iz narodnyh Wiktionary (CC BY-SA); rusky tekst jest transliterovany.</p></section>");
    s
}

/// A raw attestation as its etymology section sees it.
pub struct RawEtymology {
    pub lang: String,
    pub lang_name: String,
    /// The lemma as the dump spells it.
    pub word: String,
    /// The lemma transliterated for display.
    pub word_display: String,
    /// The native edition's etymology paragraphs, each as written and as
    /// displayed, when the edition has the word.
    pub native: Option<Vec<(String, String)>>,
    /// The English Wiktionary etymology text.
    pub etymology_text: String,
}

/// The displayed paragraphs among the first `n` that are not stubs.
pub open spec fn raw_paras(ps: Seq<(String, String)>, n: int) -> Seq<char>
    decreases n,
{
    if n <= 0 {
        Seq::empty()
    } else {
        raw_paras(ps, n - 1) + if etym_is_stub_spec(ps[n - 1].0@) {
            Seq::empty()
        } else {
            "<p>"@ + esc_spec(ps[n - 1].1@) + "</p>"@
        }
    }
}

/// The native card of a raw attestation, when its edition has real
/// paragraphs.
pub open spec fn raw_native_card(e: RawEtymology) -> Seq<char> {
    match e.native {
        Some(ps) => {
            let paras = raw_paras(ps@, ps@.len() as int);
            if paras.len() == 0 {
                Seq::empty()
            } else {
                "<div class='etym-src'><div class='src-head'><span class='lc'>"@ + esc_spec(e.lang_name@)
                    + " · Wiktionary</span> <a class='ext' href='"@ + esc_spec(source_url_spec(e.lang@, e.word@)) + "'>"@
                    + esc_spec(e.word_display@) + "↗</a></div>"@ + paras + "</div>"@
            }
        },
        None => Seq::empty(),
    }
}

/// The English card of a raw attestation, when it has an etymology text:
/// the trimmed text escaped, line breaks kept.
pub open spec fn raw_english_card(e: RawEtymology) -> Seq<char> {
    let t = trim_spec(e.etymology_text@);
    if t.len() == 0 {
        Seq::empty()
    } else {
        "<div class='etym-src'><div class='src-head'><span class='lc'>anglijska Wiktionary · "@ + esc_spec(e.lang_name@)
            + "</span> <a class='ext' href='https://en.wiktionary.org/wiki/"@ + esc_spec(replace_spec(e.word@, " "@, "_"@))
            + "#"@ + esc_spec(e.lang@) + "'>"@ + esc_spec(e.word_display@) + "↗</a></div><p class='etym-raw'>"@
            + replace_spec(esc_spec(t), "\n"@, "<br>"@) + "</p></div>"@
    }
}

/// The etymology section of a raw attestation.
pub open spec fn raw_etymology_spec(e: RawEtymology) -> Seq<char> {
    let cards = raw_native_card(e) + raw_english_card(e);
    if trim_spec(cards).len() == 0 {
        Seq::empty()
    } else {
        "<section><h2 id='etimologija'>Etimologija</h2><div class='etym-sources'>"@ + cards
            + "</div><p class='muted'>Etimologije iz Wiktionary (CC BY-SA); anglijsky tekst ostaje anglijsky, rusky tekst jest transliterovany.</p></section>"@
    }
}

fn push_raw_native_card(s: &mut String, e: &RawEtymology)
    ensures
        final(s)@ == old(s)@ + raw_native_card(*e),
{
    match &e.native {
        Some(ps) => {
            let mut paras = String::new();
            let mut i: usize = 0;
            while i < ps.len()
                invariant
                    i <= ps@.len(),
                    paras@ == raw_paras(ps@, i as int),
                decreases ps@.len() - i,
            {
                if !etym_is_stub(ps[i].0.as_str()) {
                    push_str(&mut paras, "<p>");
                    push_str(&mut paras, esc(ps[i].1.as_str()).as_str());
                    push_str(&mut paras, "</p>");
                }
                i += 1;
            }
            if paras.as_str().is_empty() {
                return;
            }
            push_str(s, "<div class='etym-src'><div class='src-head'><span class='lc'>");
            push_str(s, esc(e.lang_name.as_str()).as_str());
            push_str(s, " · Wiktionary</span> <a class='ext' href='");
            let url = source_url(e.lang.as_str(), e.word.as_str());
            push_str(s, esc(url.as_str()).as_str());
            push_str(s, "'>");
            push_str(s, esc(e.word_display.as_str()).as_str());
            push_str(s, "↗</a></div>");
            push_str(s, paras.as_str());
            push_str(s, "</div>");
        },
        None => {},
    }
}

fn push_raw_english_card(s: &mut String, e: &RawEtymology)
    ensures
        final(s)@ == old(s)@ + raw_english_card(*e),
{
    let t = trim(e.etymology_text.as_str());
    if t.as_str().is_empty() {
        return;
    }
    proof {
        reveal_strlit(" ");
        reveal_strlit("\n");
    }
    push_str(s, "<div class='etym-src'><div class='src-head'><span class='lc'>anglijska Wiktionary · ");
    push_str(s, esc(e.lang_name.as_str()).as_str());
    push_str(s, "</span> <a class='ext' href='https://en.wiktionary.org/wiki/");
    let under = replace_str(e.word.as_str(), " ", "_");
    push_str(s, esc(under.as_str()).as_str());
    push_str(s, "#");
    push_str(s, esc(e.lang.as_str()).as_str());
    push_str(s, "'>");
    push_str(s, esc(e.word_display.as_str()).as_str());
    push_str(s, "↗</a></div><p class='etym-raw'>");
    let escaped = esc(t.as_str());
    let broken = replace_str(escaped.as_str(), "\n", "<br>");
    push_str(s, broken.as_str());
    push_str(s, "</p></div>");
}

/// The etymology section of a raw attestation: the native edition's
/// paragraphs without stubs, then the English Wiktionary text with its line
/// breaks; nothing when neither has content.
pub fn raw_etymology_section(e: &RawEtymology) -> (r: String)
    ensures
        r@ == raw_etymology_spec(*e),
{
    let mut cards = String::new();
    push_raw_native_card(&mut cards, e);
    push_raw_english_card(&mut cards, e);
    if trim_is_empty(cards.as_str()) {
        return String::new();
    }
    let mut s = string_from("<section><h2 id='etimologija'>Etimologija</h2><div class='etym-sources'>");
    push_str(&mut s, cards.as_str());
    push_str(&mut s, "</div><p class='muted'>Etimologije iz Wiktionary (CC BY-SA); anglijsky tekst ostaje anglijsky, rusky tekst jest transliterovany.</p></section>");
    s
}

/// A Proto-Slavic reconstruction as the etymology block shows it.
pub struct Reconstruction {
    /// The reconstructed word, without its asterisk.
    pub word: String,
    /// How sure the link to it is, as a whole percentage.
    pub confidence_pct: String,
    /// The Proto-Balto-Slavic ancestor (may be empty).
    pub proto_balto_slavic: String,
    /// The Proto-Indo-European ancestor (may be empty).
    pub proto_indo_european: String,
}

/// The etymology block of a generated sense.
pub open spec fn etymology_block_spec(r: Option<Reconstruction>) -> Seq<char> {
    match r {
        None => "<p class='muted'>Za sej smysl ne najdena praslovjanska rekonstrukcija; forma je iz medžuvětvovogo konsensusa.</p>"@,
        Some(r) => "<p>Iz praslovjanskogo <a class='mention' href='https://en.wiktionary.org/wiki/Reconstruction:Proto-Slavic/"@
            + esc_spec(r.word@) + "'>*"@ + esc_spec(r.word@) + "</a> <span class='muted'>(uvěrjenost povezanja "@
            + r.confidence_pct@ + "%)</span>.</p>"@ + (if r.proto_balto_slavic@.len() == 0 {
            Seq::empty()
        } else {
            "<p>Prabaltoslavjansky: <span class='mention'>"@ + esc_spec(r.proto_balto_slavic@) + "</span>.</p>"@
        }) + (if r.proto_indo_european@.len() == 0 {
            Seq::empty()
        } else {
            "<p>Praindoevropejsky: <span class='mention'>"@ + esc_spec(r.proto_indo_european@) + "</span>.</p>"@
        })
            + "<p class='muted'>Medžuvětvovy konsensus izbira korenj; praslovjansko pravilo izvodi formu s pravilnymi znakami (ě, ć/đ, å, ȯ, y).</p>"@,
    }
}

/// The etymology of a generated sense: its Proto-Slavic reconstruction with
/// the strength of the link and the deeper ancestors that are known, or a
/// note that the form comes from the cross-branch consensus alone.
pub fn etymology_block(r: &Option<Reconstruction>) -> (s: String)
    ensures
        s@ == etymology_block_spec(*r),
{
    match r {
        None => string_from("<p class='muted'>Za sej smysl ne najdena praslovjanska rekonstrukcija; forma je iz medžuvětvovogo konsensusa.</p>"),
        Some(r) => {
            let w = esc(r.word.as_str());
            let mut s = string_from("<p>Iz praslovjanskogo <a class='mention' href='https://en.wiktionary.org/wiki/Reconstruction:Proto-Slavic/");
            push_str(&mut s, w.as_str());
            push_str(&mut s, "'>*");
            push_str(&mut s, w.as_str());
            push_str(&mut s, "</a> <span class='muted'>(uvěrjenost povezanja ");
            push_str(&mut s, r.confidence_pct.as_str());
            push_str(&mut s, "%)</span>.</p>");
            if !r.proto_balto_slavic.as_str().is_empty() {
                push_str(&mut s, "<p>Prabaltoslavjansky: <span class='mention'>");
                push_str(&mut s, esc(r.proto_balto_slavic.as_str()).as_str());
                push_str(&mut s, "</span>.</p>");
            }
            if !r.proto_indo_european.as_str().is_empty() {
                push_str(&mut s, "<p>Praindoevropejsky: <span class='mention'>");
                push_str(&mut s, esc(r.proto_indo_european.as_str()).as_str());
                push_str(&mut s, "</span>.</p>");
            }
            push_str(&mut s, "<p class='muted'>Medžuvětvovy konsensus izbira korenj; praslovjansko pravilo izvodi formu s pravilnymi znakami (ě, ć/đ, å, ȯ, y).</p>");
            s
        },
    }
}

} // verus!

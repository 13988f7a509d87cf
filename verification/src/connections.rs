//! What the native Wiktionary editions say about an entry's cognates: each
//! cognate's numbered senses with their usage quotations, and its related
//! words, synonyms and antonyms as chips.
//!
//! Transliterations and flavoured spellings are fixed elsewhere; the
//! entries carry them as plain values next to the text as written.

use vstd::prelude::*;
use crate::coverage::{lemma_is_the_tally, tally_add, tally_keys, tally_of, tally_spec, tally_view};
use crate::layout::{esc, esc_spec};
use crate::strs::{lowercase_of, push_str, str_eq, string_from, to_lowercase};
use crate::xref::{source_url, source_url_spec, word_chip, word_chip_spec, Xref};

verus! {

/// One sense of a native entry, as written and as displayed.
pub struct NativeSense {
    pub sense: String,
    pub shown: String,
}

/// A usage quotation of a native entry.
pub struct NativeQuote {
    /// The sense it illustrates, as written.
    pub sense: String,
    /// The quotation as displayed.
    pub text: String,
    /// Where it is quoted from, as written (may be empty).
    pub source: String,
    /// The same, as displayed.
    pub source_shown: String,
}

/// A word of a native entry's related, synonym or antonym list.
pub struct NativeWord {
    pub word: String,
    /// The word in Interslavic-flavoured spelling.
    pub visible: String,
}

/// What a native edition records for a word.
pub struct NativeEntry {
    pub senses: Vec<NativeSense>,
    pub examples: Vec<NativeQuote>,
    pub related: Vec<NativeWord>,
    pub synonyms: Vec<NativeWord>,
    pub antonyms: Vec<NativeWord>,
}

/// The cross-references as the chips see them.
pub open spec fn xref_opt(x: Option<&Xref>) -> Option<Xref> {
    match x {
        Some(x) => Some(*x),
        None => None,
    }
}

/// One usage quotation.
pub open spec fn quote_item(q: NativeQuote) -> Seq<char> {
    "<li class='quote'>„"@ + esc_spec(q.text@) + "“"@ + (if q.source@.len() == 0 {
        Seq::empty()
    } else {
        " <span class='muted cite'>— "@ + esc_spec(q.source_shown@) + "</span>"@
    }) + "</li>"@
}

/// The quotations among the first `n` that illustrate `sense`.
pub open spec fn quotes_for(ex: Seq<NativeQuote>, sense: Seq<char>, n: int) -> Seq<char>
    decreases n,
{
    if n <= 0 {
        Seq::empty()
    } else {
        quotes_for(ex, sense, n - 1) + if ex[n - 1].sense@ == sense {
            quote_item(ex[n - 1])
        } else {
            Seq::empty()
        }
    }
}

/// One numbered sense with its quotations beneath it.
pub open spec fn sense_item(ex: Seq<NativeQuote>, s: NativeSense) -> Seq<char> {
    let q = quotes_for(ex, s.sense@, ex.len() as int);
    "<li>"@ + esc_spec(s.shown@) + (if q.len() == 0 {
        Seq::empty()
    } else {
        "<ul class='quotes'>"@ + q + "</ul>"@
    }) + "</li>"@
}

/// The first `n` senses.
pub open spec fn sense_items(ex: Seq<NativeQuote>, senses: Seq<NativeSense>, n: int) -> Seq<char>
    decreases n,
{
    if n <= 0 {
        Seq::empty()
    } else {
        sense_items(ex, senses, n - 1) + sense_item(ex, senses[n - 1])
    }
}

/// The chips of the first `n` words.
pub open spec fn chip_list(
    lang: Seq<char>,
    ws: Seq<NativeWord>,
    xref: Option<Xref>,
    raw_xref: Xref,
    self_id: usize,
    n: int,
) -> Seq<char>
    decreases n,
{
    if n <= 0 {
        Seq::empty()
    } else {
        chip_list(lang, ws, xref, raw_xref, self_id, n - 1) + word_chip_spec(
            lang,
            ws[n - 1].word@,
            ws[n - 1].visible@,
            xref,
            raw_xref,
            self_id,
        )
    }
}

/// A titled list of word chips, or nothing for no words.
pub open spec fn chips_part(
    title: Seq<char>,
    lang: Seq<char>,
    ws: Seq<NativeWord>,
    xref: Option<Xref>,
    raw_xref: Xref,
    self_id: usize,
) -> Seq<char> {
    if ws.len() == 0 {
        Seq::empty()
    } else {
        "<div class='conn'><h5>"@ + title + "</h5><div class='chips'>"@ + chip_list(
            lang,
            ws,
            xref,
            raw_xref,
            self_id,
            ws.len() as int,
        ) + "</div></div>"@
    }
}

/// The block of one native entry.
pub open spec fn member_block_spec(lang: Seq<char>, e: NativeEntry, xref: Option<Xref>, raw_xref: Xref, self_id: usize) -> Seq<char> {
    (if e.senses@.len() == 0 {
        Seq::empty()
    } else {
        "<div class='conn'><h5>Značenja</h5><ol>"@ + sense_items(e.examples@, e.senses@, e.senses@.len() as int)
            + "</ol></div>"@
    }) + chips_part("Srodne slova"@, lang, e.related@, xref, raw_xref, self_id) + chips_part(
        "Sinonimy"@,
        lang,
        e.synonyms@,
        xref,
        raw_xref,
        self_id,
    ) + chips_part("Antonimy"@, lang, e.antonyms@, xref, raw_xref, self_id)
}

fn push_quotes(s: &mut String, ex: &Vec<NativeQuote>, sense: &str)
    ensures
        final(s)@ == old(s)@ + quotes_for(ex@, sense@, ex@.len() as int),
{
    let mut i: usize = 0;
    while i < ex.len()
        invariant
            i <= ex@.len(),
            s@ == old(s)@ + quotes_for(ex@, sense@, i as int),
        decreases ex@.len() - i,
    {
        let q = &ex[i];
        if str_eq(q.sense.as_str(), sense) {
            push_str(s, "<li class='quote'>„");
            push_str(s, esc(q.text.as_str()).as_str());
            push_str(s, "“");
            if !q.source.as_str().is_empty() {
                push_str(s, " <span class='muted cite'>— ");
                push_str(s, esc(q.source_shown.as_str()).as_str());
                push_str(s, "</span>");
            }
            push_str(s, "</li>");
            assert(s@ =~= old(s)@ + quotes_for(ex@, sense@, i + 1));
        }
        i += 1;
    }
}

fn push_sense_item(s: &mut String, ex: &Vec<NativeQuote>, sense: &NativeSense)
    ensures
        final(s)@ == old(s)@ + sense_item(ex@, *sense),
{
    let mut q = String::new();
    push_quotes(&mut q, ex, sense.sense.as_str());
    push_str(s, "<li>");
    push_str(s, esc(sense.shown.as_str()).as_str());
    if !q.as_str().is_empty() {
        push_str(s, "<ul class='quotes'>");
        push_str(s, q.as_str());
        push_str(s, "</ul>");
    }
    push_str(s, "</li>");
}

fn push_chips(
    s: &mut String,
    title: &str,
    lang: &str,
    ws: &Vec<NativeWord>,
    xref: Option<&Xref>,
    raw_xref: &Xref,
    self_id: usize,
)
    ensures
        final(s)@ == old(s)@ + chips_part(title@, lang@, ws@, xref_opt(xref), *raw_xref, self_id),
{
    if ws.len() == 0 {
        return;
    }
    push_str(s, "<div class='conn'><h5>");
    push_str(s, title);
    push_str(s, "</h5><div class='chips'>");
    let ghost head = s@;
    let mut i: usize = 0;
    while i < ws.len()
        invariant
            i <= ws@.len(),
            s@ == head + chip_list(lang@, ws@, xref_opt(xref), *raw_xref, self_id, i as int),
        decreases ws@.len() - i,
    {
        let c = word_chip(lang, ws[i].word.as_str(), ws[i].visible.as_str(), xref, raw_xref, self_id);
        push_str(s, c.as_str());
        i += 1;
    }
    push_str(s, "</div></div>");
}

/// One native entry's block: its numbered senses, each with the usage
/// quotations recorded for it, then its related words, synonyms and
/// antonyms as chips (linked inside the site when it has a page for the
/// word, else out to the native edition).
pub fn enrich_member_block(
    lang: &str,
    e: &NativeEntry,
    xref: Option<&Xref>,
    raw_xref: &Xref,
    self_id: usize,
) -> (r: String)
    ensures
        r@ == member_block_spec(lang@, *e, xref_opt(xref), *raw_xref, self_id),
{
    let mut s = String::new();
    if e.senses.len() > 0 {
        push_str(&mut s, "<div class='conn'><h5>Značenja</h5><ol>");
        let ghost head = s@;
        let mut i: usize = 0;
        while i < e.senses.len()
            invariant
                i <= e.senses@.len(),
                s@ == head + sense_items(e.examples@, e.senses@, i as int),
            decreases e.senses@.len() - i,
        {
            push_sense_item(&mut s, &e.examples, &e.senses[i]);
            i += 1;
        }
        push_str(&mut s, "</ol></div>");
    }
    push_chips(&mut s, "Srodne slova", lang, &e.related, xref, raw_xref, self_id);
    push_chips(&mut s, "Sinonimy", lang, &e.synonyms, xref, raw_xref, self_id);
    push_chips(&mut s, "Antonimy", lang, &e.antonyms, xref, raw_xref, self_id);
    s
}

/// A cognate together with what its language's native edition records for
/// it, if anything.
pub struct ConnMember {
    pub lang: String,
    pub word: String,
    /// The word in Interslavic-flavoured spelling.
    pub visible_word: String,
    pub entry: Option<NativeEntry>,
}

/// The source-labelled block of one cognate.
pub open spec fn conn_block(name: Seq<char>, code: Seq<char>, m: ConnMember, inner: Seq<char>) -> Seq<char> {
    "<div class='src-block'><div class='src-head'><span class='lc'>"@ + esc_spec(name) + "</span> <a class='ext' href='"@
        + esc_spec(source_url_spec(code, m.word@)) + "'>"@ + esc_spec(m.visible_word@) + "↗</a></div>"@ + inner
        + "</div>"@
}

/// One cognate's step for the edition `code`, given the lowercase
/// spellings seen so far: a cognate of that language with a native entry
/// whose spelling is new is taken, and its block written when not empty.
/// Gives the spellings seen after it and the text it adds.
pub open spec fn edition_step(
    code: Seq<char>,
    name: Seq<char>,
    seen: Seq<Seq<char>>,
    m: ConnMember,
    xref: Option<Xref>,
    raw_xref: Xref,
    self_id: usize,
) -> (Seq<Seq<char>>, Seq<char>) {
    let key = lowercase_of(m.word@);
    if m.lang@ != code || m.entry is None || seen.contains(key) {
        (seen, Seq::empty())
    } else {
        let inner = member_block_spec(code, m.entry.unwrap(), xref, raw_xref, self_id);
        (seen.push(key), if inner.len() == 0 {
            Seq::empty()
        } else {
            conn_block(name, code, m, inner)
        })
    }
}

/// The spellings seen and the blocks written for the edition `code` over
/// the first `n` cognates.
pub open spec fn edition_scan(
    code: Seq<char>,
    name: Seq<char>,
    ms: Seq<ConnMember>,
    xref: Option<Xref>,
    raw_xref: Xref,
    self_id: usize,
    n: int,
) -> (Seq<Seq<char>>, Seq<char>)
    decreases n,
{
    if n <= 0 {
        (Seq::empty(), Seq::empty())
    } else {
        let (seen, blocks) = edition_scan(code, name, ms, xref, raw_xref, self_id, n - 1);
        let (seen2, added) = edition_step(code, name, seen, ms[n - 1], xref, raw_xref, self_id);
        (seen2, blocks + added)
    }
}

/// The blocks of the first `k` editions.
pub open spec fn connection_blocks(
    eds: Seq<(Seq<char>, Seq<char>)>,
    ms: Seq<ConnMember>,
    xref: Option<Xref>,
    raw_xref: Xref,
    self_id: usize,
    k: int,
) -> Seq<char>
    decreases k,
{
    if k <= 0 {
        Seq::empty()
    } else {
        connection_blocks(eds, ms, xref, raw_xref, self_id, k - 1)
            + edition_scan(eds[k - 1].0, eds[k - 1].1, ms, xref, raw_xref, self_id, ms.len() as int).1
    }
}

/// The native-editions section: nothing without blocks.
pub open spec fn connections_spec(
    eds: Seq<(Seq<char>, Seq<char>)>,
    ms: Seq<ConnMember>,
    xref: Option<Xref>,
    raw_xref: Xref,
    self_id: usize,
) -> Seq<char> {
    let blocks = connection_blocks(eds, ms, xref, raw_xref, self_id, eds.len() as int);
    if blocks.len() == 0 {
        Seq::empty()
    } else {
        "<section><h2 id='vezi'>Značenja srodnyh slov i semantične vęzi (RU / PL / CS)</h2><p class='muted'>Značenja i priměry upotrěby zapisane v narodnyh Wiktionary (RU / PL / CS) za navedene srodne slova — dokaz v izvornom języku, ne oficialne medžuslovjanske definicije; rusky tekst jest transliterovany.</p>"@
            + blocks + "</section>"@
    }
}

fn has_key(v: &Vec<String>, x: &str) -> (r: bool)
    ensures
        r == v@.map_values(|s: String| s@).contains(x@),
{
    let ghost vv = v@.map_values(|s: String| s@);
    let mut i: usize = 0;
    while i < v.len()
        invariant
            vv == v@.map_values(|s: String| s@),
            i <= v@.len(),
            forall|j: int| 0 <= j < i ==> vv[j] != x@,
        decreases v@.len() - i,
    {
        if str_eq(v[i].as_str(), x) {
            assert(vv[i as int] == x@);
            return true;
        }
        assert(vv[i as int] == v@[i as int]@);
        i += 1;
    }
    false
}

fn edition_member_step(
    s: &mut String,
    seen: &mut Vec<String>,
    code: &str,
    name: &str,
    m: &ConnMember,
    xref: Option<&Xref>,
    raw_xref: &Xref,
    self_id: usize,
)
    ensures
        final(seen)@.map_values(|x: String| x@) == edition_step(
            code@,
            name@,
            old(seen)@.map_values(|x: String| x@),
            *m,
            xref_opt(xref),
            *raw_xref,
            self_id,
        ).0,
        final(s)@ == old(s)@ + edition_step(
            code@,
            name@,
            old(seen)@.map_values(|x: String| x@),
            *m,
            xref_opt(xref),
            *raw_xref,
            self_id,
        ).1,
{
    if !str_eq(m.lang.as_str(), code) {
        return;
    }
    match &m.entry {
        Some(e) => {
            let key = to_lowercase(m.word.as_str());
            if has_key(seen, key.as_str()) {
                return;
            }
            let ghost before = seen@;
            seen.push(key);
            proof {
                assert(seen@.map_values(|x: String| x@) =~= before.map_values(|x: String| x@).push(lowercase_of(m.word@)));
            }
            let inner = enrich_member_block(code, e, xref, raw_xref, self_id);
            if !inner.as_str().is_empty() {
                push_str(s, "<div class='src-block'><div class='src-head'><span class='lc'>");
                push_str(s, esc(name).as_str());
                push_str(s, "</span> <a class='ext' href='");
                let url = source_url(code, m.word.as_str());
                push_str(s, esc(url.as_str()).as_str());
                push_str(s, "'>");
                push_str(s, esc(m.visible_word.as_str()).as_str());
                push_str(s, "↗</a></div>");
                push_str(s, inner.as_str());
                push_str(s, "</div>");
            }
        },
        None => {},
    }
}

fn push_edition_blocks(
    s: &mut String,
    code: &str,
    name: &str,
    ms: &Vec<ConnMember>,
    xref: Option<&Xref>,
    raw_xref: &Xref,
    self_id: usize,
)
    ensures
        final(s)@ == old(s)@ + edition_scan(code@, name@, ms@, xref_opt(xref), *raw_xref, self_id, ms@.len() as int).1,
{
    let mut seen: Vec<String> = Vec::new();
    let mut i: usize = 0;
    assert(seen@.map_values(|x: String| x@) =~= Seq::<Seq<char>>::empty());
    while i < ms.len()
        invariant
            i <= ms@.len(),
            seen@.map_values(|x: String| x@) == edition_scan(code@, name@, ms@, xref_opt(xref), *raw_xref, self_id, i as int).0,
            s@ == old(s)@ + edition_scan(code@, name@, ms@, xref_opt(xref), *raw_xref, self_id, i as int).1,
        decreases ms@.len() - i,
    {
        edition_member_step(s, &mut seen, code, name, &ms[i], xref, raw_xref, self_id);
        i += 1;
    }
}

/// What the native editions record for the cognates: for each edition (in
/// the order of `editions`, code and name) and each of its cognates with an
/// entry, once per lowercase spelling, the entry's senses, quotations and
/// word lists under a link to the source; nothing when no cognate has any.
pub fn enrich_connections_section(
    editions: &Vec<(String, String)>,
    ms: &Vec<ConnMember>,
    xref: Option<&Xref>,
    raw_xref: &Xref,
    self_id: usize,
) -> (r: String)
    ensures
        r@ == connections_spec(
            editions@.map_values(|x: (String, String)| (x.0@, x.1@)),
            ms@,
            xref_opt(xref),
            *raw_xref,
            self_id,
        ),
{
    let ghost eds = editions@.map_values(|x: (String, String)| (x.0@, x.1@));
    let mut blocks = String::new();
    let mut k: usize = 0;
    while k < editions.len()
        invariant
            eds == editions@.map_values(|x: (String, String)| (x.0@, x.1@)),
            k <= editions@.len(),
            blocks@ == connection_blocks(eds, ms@, xref_opt(xref), *raw_xref, self_id, k as int),
        decreases editions@.len() - k,
    {
        assert(eds[k as int] == (editions@[k as int].0@, editions@[k as int].1@));
        push_edition_blocks(&mut blocks, editions[k].0.as_str(), editions[k].1.as_str(), ms, xref, raw_xref, self_id);
        k += 1;
    }
    if blocks.as_str().is_empty() {
        return String::new();
    }
    let mut s = string_from("<section><h2 id='vezi'>Značenja srodnyh slov i semantične vęzi (RU / PL / CS)</h2><p class='muted'>Značenja i priměry upotrěby zapisane v narodnyh Wiktionary (RU / PL / CS) za navedene srodne slova — dokaz v izvornom języku, ne oficialne medžuslovjanske definicije; rusky tekst jest transliterovany.</p>");
    push_str(&mut s, blocks.as_str());
    push_str(&mut s, "</section>");
    s
}

/// A word of another Slavic language that shares an English meaning with
/// the entry.
pub struct CrossWord {
    pub lang: String,
    /// The language's display name.
    pub lang_name: String,
    pub word: String,
    /// The word in Interslavic-flavoured spelling.
    pub visible: String,
}

/// The languages of the words, in order.
pub open spec fn cross_langs(ws: Seq<CrossWord>) -> Seq<Seq<char>> {
    ws.map_values(|w: CrossWord| w.lang@)
}

/// The words of language `l`, in order.
pub open spec fn lang_words(ws: Seq<CrossWord>, l: Seq<char>) -> Seq<CrossWord>
    decreases ws.len(),
{
    if ws.len() == 0 {
        Seq::empty()
    } else {
        lang_words(ws.drop_last(), l) + if ws.last().lang@ == l {
            seq![ws.last()]
        } else {
            Seq::empty()
        }
    }
}

/// The chips of the first `n` words.
pub open spec fn cross_chips(ws: Seq<CrossWord>, xref: Option<Xref>, raw_xref: Xref, self_id: usize, n: int) -> Seq<char>
    decreases n,
{
    if n <= 0 {
        Seq::empty()
    } else {
        cross_chips(ws, xref, raw_xref, self_id, n - 1) + word_chip_spec(
            ws[n - 1].lang@,
            ws[n - 1].word@,
            ws[n - 1].visible@,
            xref,
            raw_xref,
            self_id,
        )
    }
}

/// The row of language `l`: its name and the chips of its first
/// `max_per_lang` words.
pub open spec fn cross_row(
    ws: Seq<CrossWord>,
    l: Seq<char>,
    max_per_lang: usize,
    xref: Option<Xref>,
    raw_xref: Xref,
    self_id: usize,
) -> Seq<char> {
    let lw = lang_words(ws, l);
    let n = if lw.len() < max_per_lang { lw.len() as int } else { max_per_lang as int };
    "<tr><td class='lc'>"@ + esc_spec(lw[0].lang_name@) + "</td><td><div class='chips'>"@ + cross_chips(
        lw,
        xref,
        raw_xref,
        self_id,
        n,
    ) + "</div></td></tr>"@
}

/// The rows of the first `k` languages of `langs`.
pub open spec fn cross_rows(
    ws: Seq<CrossWord>,
    langs: Seq<Seq<char>>,
    max_per_lang: usize,
    xref: Option<Xref>,
    raw_xref: Xref,
    self_id: usize,
    k: int,
) -> Seq<char>
    decreases k,
{
    if k <= 0 {
        Seq::empty()
    } else {
        cross_rows(ws, langs, max_per_lang, xref, raw_xref, self_id, k - 1) + cross_row(
            ws,
            langs[k - 1],
            max_per_lang,
            xref,
            raw_xref,
            self_id,
        )
    }
}

/// The block of one shared meaning: a row per language, in ascending order
/// of language code, at most `max_langs` of them.
pub open spec fn meaning_block(
    tok: Seq<char>,
    ws: Seq<CrossWord>,
    max_langs: usize,
    max_per_lang: usize,
    xref: Option<Xref>,
    raw_xref: Xref,
    self_id: usize,
) -> Seq<char> {
    let langs = tally_keys(tally_spec(cross_langs(ws)));
    let k = if langs.len() < max_langs { langs.len() as int } else { max_langs as int };
    "<div class='conn'><h5><span class='mention'>"@ + esc_spec(tok)
        + "</span></h5><table class='wikitable compact-table'><tbody>"@ + cross_rows(
        ws,
        langs,
        max_per_lang,
        xref,
        raw_xref,
        self_id,
        k,
    ) + "</tbody></table></div>"@
}

/// The blocks of the first `n` meanings.
pub open spec fn meaning_blocks(
    groups: Seq<(String, Vec<CrossWord>)>,
    max_langs: usize,
    max_per_lang: usize,
    xref: Option<Xref>,
    raw_xref: Xref,
    self_id: usize,
    n: int,
) -> Seq<char>
    decreases n,
{
    if n <= 0 {
        Seq::empty()
    } else {
        meaning_blocks(groups, max_langs, max_per_lang, xref, raw_xref, self_id, n - 1) + meaning_block(
            groups[n - 1].0@,
            groups[n - 1].1@,
            max_langs,
            max_per_lang,
            xref,
            raw_xref,
            self_id,
        )
    }
}

/// The section on words of other languages with the same meanings.
pub open spec fn cross_lingual_spec(
    groups: Seq<(String, Vec<CrossWord>)>,
    max_langs: usize,
    max_per_lang: usize,
    xref: Option<Xref>,
    raw_xref: Xref,
    self_id: usize,
) -> Seq<char> {
    if groups.len() == 0 {
        Seq::empty()
    } else {
        "<section><h2 id='drugojezyk'>To slovo v drugih slovjanskih językah <span class='muted'>(po značenju)</span></h2><p class='muted'>Slova v drugih slovjanskih językah s tym že anglijskym značenjem (most čerez anglijsku Wiktionary) — pomožny prěgled, ne etimologičny ni oficialny dokaz; slova sųt pokazane v medžuslovjanskoj latinici (flavorizacija), originalny zapis jest na strancě slova.</p>"@
            + meaning_blocks(groups, max_langs, max_per_lang, xref, raw_xref, self_id, groups.len() as int)
            + "</section>"@
    }
}

/// Adding a word leaves the chips of the earlier ones as they were.
proof fn lemma_cross_chips_push(ws: Seq<CrossWord>, w: CrossWord, xref: Option<Xref>, raw_xref: Xref, self_id: usize, n: int)
    requires
        0 <= n <= ws.len(),
    ensures
        cross_chips(ws.push(w), xref, raw_xref, self_id, n) == cross_chips(ws, xref, raw_xref, self_id, n),
    decreases n,
{
    if n > 0 {
        lemma_cross_chips_push(ws, w, xref, raw_xref, self_id, n - 1);
        assert(ws.push(w)[n - 1] == ws[n - 1]);
    }
}

/// The words of a language are among the words, and one occurs when the
/// language does.
proof fn lemma_lang_words_nonempty(ws: Seq<CrossWord>, l: Seq<char>, i: int)
    requires
        0 <= i < ws.len(),
        ws[i].lang@ == l,
    ensures
        lang_words(ws, l).len() > 0,
    decreases ws.len(),
{
    if i < ws.len() - 1 {
        assert(ws.drop_last()[i] == ws[i]);
        lemma_lang_words_nonempty(ws.drop_last(), l, i);
    }
}

fn push_cross_row(
    s: &mut String,
    ws: &Vec<CrossWord>,
    l: &str,
    max_per_lang: usize,
    xref: Option<&Xref>,
    raw_xref: &Xref,
    self_id: usize,
)
    requires
        lang_words(ws@, l@).len() > 0,
    ensures
        final(s)@ == old(s)@ + cross_row(ws@, l@, max_per_lang, xref_opt(xref), *raw_xref, self_id),
{
    let ghost xo = xref_opt(xref);
    let mut chips = String::new();
    let mut taken: usize = 0;
    let mut name = String::new();
    let mut found = false;
    let mut i: usize = 0;
    assert(ws@.take(0) =~= Seq::<CrossWord>::empty());
    while i < ws.len()
        invariant
            xo == xref_opt(xref),
            i <= ws@.len(),
            taken == if lang_words(ws@.take(i as int), l@).len() < max_per_lang {
                lang_words(ws@.take(i as int), l@).len() as int
            } else {
                max_per_lang as int
            },
            chips@ == cross_chips(lang_words(ws@.take(i as int), l@), xo, *raw_xref, self_id, taken as int),
            found == (lang_words(ws@.take(i as int), l@).len() > 0),
            found ==> name@ == lang_words(ws@.take(i as int), l@)[0].lang_name@,
        decreases ws@.len() - i,
    {
        let ghost lw0 = lang_words(ws@.take(i as int), l@);
        assert(ws@.take(i + 1).drop_last() =~= ws@.take(i as int));
        assert(ws@.take(i + 1).last() == ws@[i as int]);
        let w = &ws[i];
        if str_eq(w.lang.as_str(), l) {
            let ghost lw1 = lang_words(ws@.take(i + 1), l@);
            assert(lw1 == lw0.push(ws@[i as int]));
            if !found {
                name = string_from(w.lang_name.as_str());
                found = true;
            }
            proof {
                lemma_cross_chips_push(lw0, ws@[i as int], xo, *raw_xref, self_id, taken as int);
            }
            if taken < max_per_lang {
                let c = word_chip(w.lang.as_str(), w.word.as_str(), w.visible.as_str(), xref, raw_xref, self_id);
                push_str(&mut chips, c.as_str());
                assert(lw1[taken as int] == ws@[i as int]);
                taken += 1;
            }
        }
        i += 1;
    }
    assert(ws@.take(i as int) =~= ws@);
    push_str(s, "<tr><td class='lc'>");
    push_str(s, esc(name.as_str()).as_str());
    push_str(s, "</td><td><div class='chips'>");
    push_str(s, chips.as_str());
    push_str(s, "</div></td></tr>");
}

fn push_meaning_block(
    s: &mut String,
    tok: &str,
    ws: &Vec<CrossWord>,
    max_langs: usize,
    max_per_lang: usize,
    xref: Option<&Xref>,
    raw_xref: &Xref,
    self_id: usize,
)
    ensures
        final(s)@ == old(s)@ + meaning_block(tok@, ws@, max_langs, max_per_lang, xref_opt(xref), *raw_xref, self_id),
{
    let ghost keys = cross_langs(ws@);
    let mut t: Vec<(String, usize)> = Vec::new();
    let mut i: usize = 0;
    assert(tally_of(tally_view(t@), keys.take(0))) by {
        assert(keys.take(0) =~= Seq::<Seq<char>>::empty());
    }
    while i < ws.len()
        invariant
            keys == cross_langs(ws@),
            i <= ws@.len(),
            tally_of(tally_view(t@), keys.take(i as int)),
        decreases ws@.len() - i,
    {
        assert(keys.take(i + 1) =~= keys.take(i as int).push(ws@[i as int].lang@));
        tally_add(&mut t, ws[i].lang.as_str(), Ghost(keys.take(i as int)));
        i += 1;
    }
    assert(keys.take(i as int) =~= keys);
    proof {
        lemma_is_the_tally(tally_view(t@), keys);
    }
    let ghost langs = tally_keys(tally_view(t@));
    let k = if t.len() < max_langs { t.len() } else { max_langs };
    push_str(s, "<div class='conn'><h5><span class='mention'>");
    push_str(s, esc(tok).as_str());
    push_str(s, "</span></h5><table class='wikitable compact-table'><tbody>");
    let ghost head = s@;
    let mut j: usize = 0;
    while j < k
        invariant
            langs == tally_keys(tally_view(t@)),
            tally_of(tally_view(t@), keys),
            keys == cross_langs(ws@),
            k <= t@.len(),
            j <= k,
            s@ == head + cross_rows(ws@, langs, max_per_lang, xref_opt(xref), *raw_xref, self_id, j as int),
        decreases k - j,
    {
        let ghost tv = tally_view(t@);
        assert(tv[j as int].0 == t@[j as int].0@);
        assert(langs[j as int] == tv[j as int].0);
        proof {
            crate::coverage::lemma_tally_key_occurs(tv, keys, j as int);
            let i = choose|i: int| 0 <= i < keys.len() && keys[i] == tv[j as int].0;
            assert(ws@[i].lang@ == keys[i]);
            lemma_lang_words_nonempty(ws@, langs[j as int], i);
        }
        push_cross_row(s, ws, t[j].0.as_str(), max_per_lang, xref, raw_xref, self_id);
        j += 1;
    }
    push_str(s, "</tbody></table></div>");
}

/// Words of the other Slavic languages with the same English meanings: for
/// each shared meaning (in the given order), a row per language in
/// ascending order of code, at most `max_langs`, each with at most
/// `max_per_lang` word chips; nothing when no meaning is shared.
pub fn cross_lingual_meanings_section(
    groups: &Vec<(String, Vec<CrossWord>)>,
    max_langs: usize,
    max_per_lang: usize,
    xref: Option<&Xref>,
    raw_xref: &Xref,
    self_id: usize,
) -> (r: String)
    ensures
        r@ == cross_lingual_spec(groups@, max_langs, max_per_lang, xref_opt(xref), *raw_xref, self_id),
{
    if groups.len() == 0 {
        return String::new();
    }
    let mut s = string_from("<section><h2 id='drugojezyk'>To slovo v drugih slovjanskih językah <span class='muted'>(po značenju)</span></h2><p class='muted'>Slova v drugih slovjanskih językah s tym že anglijskym značenjem (most čerez anglijsku Wiktionary) — pomožny prěgled, ne etimologičny ni oficialny dokaz; slova sųt pokazane v medžuslovjanskoj latinici (flavorizacija), originalny zapis jest na strancě slova.</p>");
    let ghost head = s@;
    let mut g: usize = 0;
    while g < groups.len()
        invariant
            g <= groups@.len(),
            s@ == head + meaning_blocks(groups@, max_langs, max_per_lang, xref_opt(xref), *raw_xref, self_id, g as int),
        decreases groups@.len() - g,
    {
        push_meaning_block(&mut s, groups[g].0.as_str(), &groups[g].1, max_langs, max_per_lang, xref, raw_xref, self_id);
        g += 1;
    }
    push_str(&mut s, "</section>");
    s
}

} // verus!

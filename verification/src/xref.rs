//! Cross-references from attested `(language, word)` pairs to the internal
//! entry page that shows them, and the word chips that use them.

use vstd::prelude::*;
use crate::layout::{esc, esc_spec};
use crate::strs::{decimal, push_decimal, push_str, str_eq, string_from};

verus! {

/// `(lang, word) → entry id`. Later insertions of a pair replace earlier
/// ones, as in a map.
pub struct Xref {
    entries: Vec<(String, String, usize)>,
}

/// The id recorded for `(lang, word)` in a log of insertions: the latest.
pub open spec fn xref_lookup(
    e: Seq<(Seq<char>, Seq<char>, usize)>,
    lang: Seq<char>,
    word: Seq<char>,
) -> Option<usize>
    decreases e.len(),
{
    if e.len() == 0 {
        None
    } else if e.last().0 == lang && e.last().1 == word {
        Some(e.last().2)
    } else {
        xref_lookup(e.drop_last(), lang, word)
    }
}

/// What a cross-reference knows of a key: the one page it was recorded
/// for, several different pages, or none.
pub enum XrefMatch {
    Unique(usize),
    Ambiguous,
    Missing,
}

/// The match of `(lang, word)` in a log of insertions: unique when every
/// record of the pair names the same page, ambiguous when two name
/// different pages.
pub open spec fn xref_match(
    e: Seq<(Seq<char>, Seq<char>, usize)>,
    lang: Seq<char>,
    word: Seq<char>,
) -> XrefMatch {
    match xref_lookup(e, lang, word) {
        None => XrefMatch::Missing,
        Some(t) => if only_page(e, lang, word, t) {
            XrefMatch::Unique(t)
        } else {
            XrefMatch::Ambiguous
        },
    }
}

/// Whether every record of `(lang, word)` names page `t`.
#[verifier::opaque]
pub open spec fn only_page(e: Seq<(Seq<char>, Seq<char>, usize)>, lang: Seq<char>, word: Seq<char>, t: usize) -> bool {
    forall|k: int| 0 <= k < e.len() && (#[trigger] e[k]).0 == lang && e[k].1 == word ==> e[k].2 == t
}

impl View for Xref {
    /// The log of insertions, oldest first.
    type V = Seq<(Seq<char>, Seq<char>, usize)>;

    closed spec fn view(&self) -> Seq<(Seq<char>, Seq<char>, usize)> {
        self.entries@.map_values(|e: (String, String, usize)| (e.0@, e.1@, e.2))
    }
}

impl Xref {
    /// The id this cross-reference gives `(lang, word)`.
    pub open spec fn lookup(&self, lang: Seq<char>, word: Seq<char>) -> Option<usize> {
        xref_lookup(self@, lang, word)
    }

    /// An empty cross-reference.
    pub fn new() -> (r: Xref)
        ensures
            r@ == Seq::<(Seq<char>, Seq<char>, usize)>::empty(),
    {
        let r = Xref { entries: Vec::new() };
        assert(r@ =~= Seq::<(Seq<char>, Seq<char>, usize)>::empty());
        r
    }

    /// Records that `(lang, word)` is shown on page `id`.
    pub fn insert(&mut self, lang: &str, word: &str, id: usize)
        ensures
            final(self)@ == old(self)@.push((lang@, word@, id)),
    {
        self.entries.push((string_from(lang), string_from(word), id));
        assert(self@ =~= old(self)@.push((lang@, word@, id)));
    }

    /// Whether `(lang, word)` was recorded for one page, several, or none.
    pub fn lookup_match(&self, lang: &str, word: &str) -> (r: XrefMatch)
        ensures
            r == xref_match(self@, lang@, word@),
    {
        let t = match self.get(lang, word) {
            None => {
                return XrefMatch::Missing;
            },
            Some(t) => t,
        };
        let mut k: usize = 0;
        while k < self.entries.len()
            invariant
                k <= self.entries@.len(),
                self@.len() == self.entries@.len(),
                xref_lookup(self@, lang@, word@) == Some(t),
                forall|q: int| 0 <= q < k && (#[trigger] self@[q]).0 == lang@ && self@[q].1 == word@ ==> self@[q].2 == t,
            decreases self.entries@.len() - k,
        {
            let e = &self.entries[k];
            assert(self@[k as int] == (e.0@, e.1@, e.2));
            if str_eq(e.0.as_str(), lang) && str_eq(e.1.as_str(), word) && e.2 != t {
                proof {
                    reveal(only_page);
                }
                return XrefMatch::Ambiguous;
            }
            k += 1;
        }
        proof {
            reveal(only_page);
        }
        XrefMatch::Unique(t)
    }

    /// The page that shows `(lang, word)`, if any.
    pub fn get(&self, lang: &str, word: &str) -> (r: Option<usize>)
        ensures
            r == self.lookup(lang@, word@),
    {
        let mut j: usize = self.entries.len();
        assert(self@.take(j as int) =~= self@);
        while j > 0
            invariant
                0 <= j <= self.entries@.len(),
                self@.len() == self.entries@.len(),
                xref_lookup(self@, lang@, word@) == xref_lookup(self@.take(j as int), lang@, word@),
            decreases j,
        {
            let e = &self.entries[j - 1];
            assert(self@[j - 1] == (e.0@, e.1@, e.2));
            assert(self@.take(j as int).drop_last() =~= self@.take(j - 1));
            if str_eq(e.0.as_str(), lang) && str_eq(e.1.as_str(), word) {
                return Some(e.2);
            }
            j -= 1;
        }
        None
    }
}

/// A map from a spelling to an entry id; later insertions of a spelling
/// replace earlier ones.
pub struct HeadwordIndex {
    entries: Vec<(String, usize)>,
}

/// The id recorded for `key` in a log of insertions: the latest.
pub open spec fn index_lookup(e: Seq<(Seq<char>, usize)>, key: Seq<char>) -> Option<usize>
    decreases e.len(),
{
    if e.len() == 0 {
        None
    } else if e.last().0 == key {
        Some(e.last().1)
    } else {
        index_lookup(e.drop_last(), key)
    }
}

impl View for HeadwordIndex {
    /// The log of insertions, oldest first.
    type V = Seq<(Seq<char>, usize)>;

    closed spec fn view(&self) -> Seq<(Seq<char>, usize)> {
        self.entries@.map_values(|e: (String, usize)| (e.0@, e.1))
    }
}

impl HeadwordIndex {
    /// The id this index gives `key`.
    pub open spec fn lookup(&self, key: Seq<char>) -> Option<usize> {
        index_lookup(self@, key)
    }

    /// An empty index.
    pub fn new() -> (r: HeadwordIndex)
        ensures
            r@ == Seq::<(Seq<char>, usize)>::empty(),
    {
        let r = HeadwordIndex { entries: Vec::new() };
        assert(r@ =~= Seq::<(Seq<char>, usize)>::empty());
        r
    }

    /// Records that `key` names page `id`.
    pub fn insert(&mut self, key: &str, id: usize)
        ensures
            final(self)@ == old(self)@.push((key@, id)),
    {
        self.entries.push((string_from(key), id));
        assert(self@ =~= old(self)@.push((key@, id)));
    }

    /// The page `key` names, if any.
    pub fn get(&self, key: &str) -> (r: Option<usize>)
        ensures
            r == self.lookup(key@),
    {
        let mut j: usize = self.entries.len();
        assert(self@.take(j as int) =~= self@);
        while j > 0
            invariant
                0 <= j <= self.entries@.len(),
                self@.len() == self.entries@.len(),
                index_lookup(self@, key@) == index_lookup(self@.take(j as int), key@),
            decreases j,
        {
            let e = &self.entries[j - 1];
            assert(self@[j - 1] == (e.0@, e.1));
            assert(self@.take(j as int).drop_last() =~= self@.take(j - 1));
            if str_eq(e.0.as_str(), key) {
                return Some(e.1);
            }
            j -= 1;
        }
        None
    }
}

/// The native Wiktionary page for an attested word.
pub open spec fn source_url_spec(lang: Seq<char>, word: Seq<char>) -> Seq<char> {
    "https://"@ + lang + ".wiktionary.org/wiki/"@ + word
}

/// The native Wiktionary page for an attested word.
pub fn source_url(lang: &str, word: &str) -> (r: String)
    ensures
        r@ == source_url_spec(lang@, word@),
{
    let mut r = string_from("https://");
    push_str(&mut r, lang);
    push_str(&mut r, ".wiktionary.org/wiki/");
    push_str(&mut r, word);
    r
}

/// The internal page a chip for `(lang, word)` links to: the page the
/// cognate cross-reference records for it alone, else (when it records none
/// or only `self_id`) the raw-attestation one; none where the cognate
/// cross-reference records several pages, and never `self_id`.
pub open spec fn chip_target(
    xref: Option<Xref>,
    raw_xref: Xref,
    lang: Seq<char>,
    word: Seq<char>,
    self_id: usize,
) -> Option<usize> {
    let generated = match xref {
        Some(x) => xref_match(x@, lang, word),
        None => XrefMatch::Missing,
    };
    match generated {
        XrefMatch::Ambiguous => None,
        XrefMatch::Unique(t) if t != self_id => Some(t),
        _ => match raw_xref.lookup(lang, word) {
            Some(t) => if t != self_id { Some(t) } else { None },
            None => None,
        },
    }
}

/// The chip markup for a word.
pub open spec fn word_chip_spec(
    lang: Seq<char>,
    word: Seq<char>,
    visible: Seq<char>,
    xref: Option<Xref>,
    raw_xref: Xref,
    self_id: usize,
) -> Seq<char> {
    match chip_target(xref, raw_xref, lang, word, self_id) {
        Some(t) => "<a class='chip xref' title='v slovniku' href='"@ + decimal(t as nat) + ".html'>"@
            + esc_spec(visible) + "</a>"@,
        None => "<a class='chip' href='"@ + esc_spec(source_url_spec(lang, word)) + "'>"@ + esc_spec(
            visible,
        ) + "</a>"@,
    }
}

/// One word chip: a link to the site page for `(lang, word)` when one exists
/// (cognate cross-reference first, then raw attestations), else out to the
/// native Wiktionary. Self-links fall through to the external target so a
/// page never links to itself; a word the cognate cross-reference records
/// for several pages links out too.
pub fn word_chip(
    lang: &str,
    word: &str,
    visible: &str,
    xref: Option<&Xref>,
    raw_xref: &Xref,
    self_id: usize,
) -> (r: String)
    ensures
        r@ == word_chip_spec(
            lang@,
            word@,
            visible@,
            match xref {
                Some(x) => Some(*x),
                None => None,
            },
            *raw_xref,
            self_id,
        ),
{
    let generated = match xref {
        Some(x) => x.lookup_match(lang, word),
        None => XrefMatch::Missing,
    };
    let target = match generated {
        XrefMatch::Ambiguous => None,
        XrefMatch::Unique(t) if t != self_id => Some(t),
        _ => match raw_xref.get(lang, word) {
            Some(t) => if t != self_id {
                Some(t)
            } else {
                None
            },
            None => None,
        },
    };
    match target {
        Some(t) => {
            let mut r = string_from("<a class='chip xref' title='v slovniku' href='");
            push_decimal(&mut r, t);
            push_str(&mut r, ".html'>");
            push_str(&mut r, esc(visible).as_str());
            push_str(&mut r, "</a>");
            r
        },
        None => {
            let mut r = string_from("<a class='chip' href='");
            push_str(&mut r, esc(source_url(lang, word).as_str()).as_str());
            push_str(&mut r, "'>");
            push_str(&mut r, esc(visible).as_str());
            push_str(&mut r, "</a>");
            r
        },
    }
}

} // verus!

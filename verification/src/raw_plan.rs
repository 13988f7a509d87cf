//! Raw-lemma deduplication: which attested Slavic words get a page of their
//! own, and where every other one points.
//!
//! A raw lemma is deduped when its word or display fold is empty, when it is
//! already a cognate member of a generated page, when its display fold (or
//! its ě-blind variant) is already a headword, or when an earlier raw lemma
//! claimed the same ě-blind fold. Each attested spelling thus gets exactly
//! one page, and the rendered/deduped split always adds up to the corpus.

use vstd::prelude::*;
use crate::strs::{chars_of, push_char, str_eq, string_from, trim, trim_spec};
use crate::xref::{index_lookup, xref_lookup, HeadwordIndex, Xref};

verus! {

/// One raw Slavic-Wiktionary lemma, as the dedup sees it.
pub struct RawLemma {
    /// Source language code (`"pl"`, `"cs"`, ...).
    pub lang: String,
    /// The attested word, verbatim.
    pub word: String,
    /// Part of speech as the source wrote it.
    pub pos: String,
    /// The lowercased standard-orthography fold of the word's Interslavic
    /// display form.
    pub fold: String,
}

/// The parts of a raw lemma the dedup reads.
pub open spec fn lemma_view(l: RawLemma) -> (Seq<char>, Seq<char>, Seq<char>) {
    (l.lang@, l.word@, l.fold@)
}

/// One raw lemma's fate under the dedup.
pub enum RawFate {
    /// Gets its own page; carries the ě-blind fold it claimed.
    Rendered { efold: String },
    /// Word or display fold empty: nothing to render or point at.
    Skipped,
    /// `(lang, word)` is already a cognate member of an entry.
    DedupedXref,
    /// The display fold (or its ě-blind variant) is a headword: `target`
    /// is that page's id.
    DedupedFold { target: usize },
    /// An earlier raw lemma claimed the same ě-blind fold.
    DedupedRawTwin { efold: String },
}

/// What a fate says, over plain values.
pub enum FateView {
    Rendered(Seq<char>),
    Skipped,
    DedupedXref,
    DedupedFold(usize),
    DedupedRawTwin(Seq<char>),
}

impl View for RawFate {
    type V = FateView;

    open spec fn view(&self) -> FateView {
        match self {
            RawFate::Rendered { efold } => FateView::Rendered(efold@),
            RawFate::Skipped => FateView::Skipped,
            RawFate::DedupedXref => FateView::DedupedXref,
            RawFate::DedupedFold { target } => FateView::DedupedFold(*target),
            RawFate::DedupedRawTwin { efold } => FateView::DedupedRawTwin(efold@),
        }
    }
}

/// `s` with every `ě` read as `e`.
pub open spec fn e_blind(s: Seq<char>) -> Seq<char> {
    s.map_values(|c: char| if c == 'ě' { 'e' } else { c })
}

/// The views of a list of strings.
pub open spec fn strings_view(v: Seq<String>) -> Seq<Seq<char>> {
    v.map_values(|s: String| s@)
}

/// The dedup rule for one lemma, given the folds raw lemmas claimed so far.
pub open spec fn fate_spec(
    lemma: (Seq<char>, Seq<char>, Seq<char>),
    xref: Seq<(Seq<char>, Seq<char>, usize)>,
    isv: Seq<(Seq<char>, usize)>,
    covered: Seq<Seq<char>>,
) -> FateView {
    let (lang, word, fold) = lemma;
    let w = trim_spec(word);
    let efold = e_blind(fold);
    if w.len() == 0 {
        FateView::Skipped
    } else if xref_lookup(xref, lang, w) is Some {
        FateView::DedupedXref
    } else if fold.len() == 0 {
        FateView::Skipped
    } else if index_lookup(isv, fold) is Some {
        FateView::DedupedFold(index_lookup(isv, fold).unwrap())
    } else if index_lookup(isv, efold) is Some {
        FateView::DedupedFold(index_lookup(isv, efold).unwrap())
    } else if covered.contains(efold) {
        FateView::DedupedRawTwin(efold)
    } else {
        FateView::Rendered(efold)
    }
}

/// `s` with every `ě` read as `e`.
pub fn e_blind_string(s: &str) -> (r: String)
    ensures
        r@ == e_blind(s@),
{
    let v = chars_of(s);
    let mut r = String::new();
    let mut i: usize = 0;
    assert(e_blind(v@.take(0)) =~= Seq::<char>::empty());
    while i < v.len()
        invariant
            v@ == s@,
            i <= v@.len(),
            r@ == e_blind(v@.take(i as int)),
        decreases v@.len() - i,
    {
        let c = v[i];
        push_char(&mut r, if c == 'ě' { 'e' } else { c });
        assert(e_blind(v@.take(i + 1)) =~= e_blind(v@.take(i as int)).push(
            if c == 'ě' { 'e' } else { c },
        ));
        i += 1;
    }
    assert(v@.take(i as int) =~= v@);
    r
}

/// Whether `key` is among `v`.
fn contains_string(v: &Vec<String>, key: &str) -> (r: bool)
    ensures
        r == strings_view(v@).contains(key@),
{
    let mut i: usize = 0;
    while i < v.len()
        invariant
            i <= v@.len(),
            forall|k: int| 0 <= k < i ==> v@[k]@ != key@,
        decreases v@.len() - i,
    {
        if str_eq(v[i].as_str(), key) {
            assert(strings_view(v@)[i as int] == key@);
            return true;
        }
        i += 1;
    }
    assert forall|k: int| 0 <= k < strings_view(v@).len() implies strings_view(v@)[k] != key@ by {
        assert(strings_view(v@)[k] == v@[k]@);
    }
    false
}

/// The single raw-lemma dedup rule. `raw_covered` carries the ě-blind folds
/// that raw lemmas have claimed so far; a rendered lemma adds its own.
pub fn raw_lemma_fate(
    lemma: &RawLemma,
    xref: &Xref,
    isv_to_id: &HeadwordIndex,
    raw_covered: &mut Vec<String>,
) -> (r: RawFate)
    ensures
        r@ == fate_spec(lemma_view(*lemma), xref@, isv_to_id@, strings_view(old(raw_covered)@)),
        strings_view(final(raw_covered)@) == (match r@ {
            FateView::Rendered(e) => strings_view(old(raw_covered)@).push(e),
            _ => strings_view(old(raw_covered)@),
        }),
{
    let word = trim(lemma.word.as_str());
    if word.as_str().is_empty() {
        assert(word@.len() == 0);
        return RawFate::Skipped;
    }
    assert(word@.len() != 0);
    if xref.get(lemma.lang.as_str(), word.as_str()).is_some() {
        return RawFate::DedupedXref;
    }
    if lemma.fold.as_str().is_empty() {
        assert(lemma.fold@.len() == 0);
        return RawFate::Skipped;
    }
    assert(lemma.fold@.len() != 0);
    let efold = e_blind_string(lemma.fold.as_str());
    match isv_to_id.get(lemma.fold.as_str()) {
        Some(target) => {
            return RawFate::DedupedFold { target };
        },
        None => {},
    }
    match isv_to_id.get(efold.as_str()) {
        Some(target) => {
            return RawFate::DedupedFold { target };
        },
        None => {},
    }
    if contains_string(raw_covered, efold.as_str()) {
        return RawFate::DedupedRawTwin { efold };
    }
    let claimed = string_from(efold.as_str());
    raw_covered.push(claimed);
    assert(strings_view(raw_covered@) =~= strings_view(old(raw_covered)@).push(efold@));
    RawFate::Rendered { efold }
}

/// The raw pre-pass result: every rendered raw lemma with its entry id, a
/// cross-reference from raw `(lang, word)` pairs to the page that shows
/// them, and how many lemmas were deduped.
pub struct RawPlan {
    /// (index into the lemma list, assigned entry id).
    pub pages: Vec<(usize, usize)>,
    /// (lang, trimmed attested word) → internal entry id.
    pub xref: Xref,
    pub deduped: usize,
}

/// The pre-pass's state after some prefix of the lemmas.
pub struct PlanState {
    /// ě-blind folds claimed by rendered lemmas, in order.
    pub covered: Seq<Seq<char>>,
    /// ě-blind fold → the raw page that claimed it.
    pub owner: Seq<(Seq<char>, usize)>,
    pub pages: Seq<(usize, usize)>,
    pub links: Seq<(Seq<char>, Seq<char>, usize)>,
    pub deduped: nat,
    /// The last id handed out.
    pub next_id: int,
}

/// The pre-pass's state after lemma `i`.
pub open spec fn plan_step(
    st: PlanState,
    lemma: (Seq<char>, Seq<char>, Seq<char>),
    i: int,
    xref: Seq<(Seq<char>, Seq<char>, usize)>,
    isv: Seq<(Seq<char>, usize)>,
) -> PlanState {
    let w = trim_spec(lemma.1);
    match fate_spec(lemma, xref, isv, st.covered) {
        FateView::Rendered(e) => PlanState {
            covered: st.covered.push(e),
            owner: st.owner.push((e, (st.next_id + 1) as usize)),
            pages: st.pages.push((i as usize, (st.next_id + 1) as usize)),
            links: st.links.push((lemma.0, w, (st.next_id + 1) as usize)),
            next_id: st.next_id + 1,
            ..st
        },
        FateView::DedupedFold(t) => PlanState {
            links: st.links.push((lemma.0, w, t)),
            deduped: st.deduped + 1,
            ..st
        },
        FateView::DedupedRawTwin(e) => match index_lookup(st.owner, e) {
            Some(o) => PlanState {
                links: st.links.push((lemma.0, w, o)),
                deduped: st.deduped + 1,
                ..st
            },
            None => PlanState { deduped: st.deduped + 1, ..st },
        },
        _ => PlanState { deduped: st.deduped + 1, ..st },
    }
}

/// The pre-pass's state after all of `lemmas`, ids counting on from
/// `next_id`.
pub open spec fn plan_spec(
    lemmas: Seq<(Seq<char>, Seq<char>, Seq<char>)>,
    xref: Seq<(Seq<char>, Seq<char>, usize)>,
    isv: Seq<(Seq<char>, usize)>,
    next_id: int,
) -> PlanState
    decreases lemmas.len(),
{
    if lemmas.len() == 0 {
        PlanState {
            covered: Seq::empty(),
            owner: Seq::empty(),
            pages: Seq::empty(),
            links: Seq::empty(),
            deduped: 0,
            next_id,
        }
    } else {
        plan_step(
            plan_spec(lemmas.drop_last(), xref, isv, next_id),
            lemmas.last(),
            lemmas.len() - 1,
            xref,
            isv,
        )
    }
}

/// The views of a list of raw lemmas.
pub open spec fn lemmas_view(v: Seq<RawLemma>) -> Seq<(Seq<char>, Seq<char>, Seq<char>)> {
    v.map_values(|l: RawLemma| lemma_view(l))
}

/// What the pre-pass keeps as it goes: every lemma is either rendered or
/// deduped, rendered lemmas get consecutive ids in corpus order, and the
/// folds they claimed are distinct.
pub open spec fn plan_invariant(st: PlanState, n: int, next_id: int) -> bool {
    &&& st.pages.len() + st.deduped == n
    &&& st.next_id == next_id + st.pages.len()
    &&& st.covered.len() == st.pages.len()
    &&& st.covered.no_duplicates()
    &&& forall|k: int| 0 <= k < st.pages.len() ==> (#[trigger] st.pages[k]).1 == next_id + k + 1
    &&& forall|k: int| 0 <= k < st.pages.len() ==> (#[trigger] st.pages[k]).0 < n
    &&& forall|a: int, b: int|
        0 <= a < b < st.pages.len() ==> (#[trigger] st.pages[a]).0 < (#[trigger] st.pages[b]).0
}

/// Every prefix of the pre-pass keeps [`plan_invariant`].
pub proof fn lemma_plan_invariant(
    lemmas: Seq<(Seq<char>, Seq<char>, Seq<char>)>,
    xref: Seq<(Seq<char>, Seq<char>, usize)>,
    isv: Seq<(Seq<char>, usize)>,
    next_id: int,
)
    requires
        0 <= next_id,
        next_id + lemmas.len() <= usize::MAX,
    ensures
        plan_invariant(plan_spec(lemmas, xref, isv, next_id), lemmas.len() as int, next_id),
    decreases lemmas.len(),
{
    if lemmas.len() > 0 {
        let prev = plan_spec(lemmas.drop_last(), xref, isv, next_id);
        lemma_plan_invariant(lemmas.drop_last(), xref, isv, next_id);
        let st = plan_spec(lemmas, xref, isv, next_id);
        let n = lemmas.len() as int;
        match fate_spec(lemmas.last(), xref, isv, prev.covered) {
            FateView::Rendered(e) => {
                assert(!prev.covered.contains(e));
                assert forall|k: int| 0 <= k < st.pages.len() implies (#[trigger] st.pages[k]).0 < n by {
                    if k < prev.pages.len() {
                        assert(st.pages[k] == prev.pages[k]);
                    }
                }
                assert forall|k: int| 0 <= k < st.pages.len() implies (#[trigger] st.pages[k]).1
                    == next_id + k + 1 by {
                    if k < prev.pages.len() {
                        assert(st.pages[k] == prev.pages[k]);
                    }
                }
                assert forall|a: int, b: int|
                    0 <= a < b < st.pages.len() implies (#[trigger] st.pages[a]).0
                    < (#[trigger] st.pages[b]).0 by {
                    assert(st.pages[a] == prev.pages[a]);
                    if b < prev.pages.len() {
                        assert(st.pages[b] == prev.pages[b]);
                    }
                }
            },
            _ => {},
        }
    }
}

/// A raw lemma gets a page exactly when its classification, made in corpus
/// order with the folds claimed by the lemmas before it, renders it.
pub proof fn lemma_page_iff_rendered(
    lemmas: Seq<(Seq<char>, Seq<char>, Seq<char>)>,
    xref: Seq<(Seq<char>, Seq<char>, usize)>,
    isv: Seq<(Seq<char>, usize)>,
    next_id: int,
    i: int,
)
    requires
        0 <= next_id,
        next_id + lemmas.len() <= usize::MAX,
        0 <= i < lemmas.len(),
    ensures
        (exists|k: int| 0 <= k < plan_spec(lemmas, xref, isv, next_id).pages.len()
            && (#[trigger] plan_spec(lemmas, xref, isv, next_id).pages[k]).0 == i)
            <==> fate_spec(lemmas[i], xref, isv, plan_spec(lemmas.take(i), xref, isv, next_id).covered) is Rendered,
    decreases lemmas.len(),
{
    let pre = lemmas.drop_last();
    let prev = plan_spec(pre, xref, isv, next_id);
    let st = plan_spec(lemmas, xref, isv, next_id);
    let n = lemmas.len() - 1;
    lemma_plan_invariant(pre, xref, isv, next_id);
    if i == n {
        assert(lemmas.take(i) =~= pre);
        match fate_spec(lemmas.last(), xref, isv, prev.covered) {
            FateView::Rendered(e) => {
                assert(st.pages[prev.pages.len() as int].0 == i);
            },
            _ => {
                assert forall|k: int| 0 <= k < st.pages.len() implies (#[trigger] st.pages[k]).0 != i by {
                    assert(st.pages[k] == prev.pages[k]);
                }
            },
        }
    } else {
        lemma_page_iff_rendered(pre, xref, isv, next_id, i);
        assert(pre.take(i) =~= lemmas.take(i));
        assert(pre[i] == lemmas[i]);
        assert((exists|k: int| 0 <= k < st.pages.len() && (#[trigger] st.pages[k]).0 == i)
            <==> (exists|k: int| 0 <= k < prev.pages.len() && (#[trigger] prev.pages[k]).0 == i)) by {
            if exists|k: int| 0 <= k < st.pages.len() && (#[trigger] st.pages[k]).0 == i {
                let k = choose|k: int| 0 <= k < st.pages.len() && (#[trigger] st.pages[k]).0 == i;
                if k < prev.pages.len() {
                    match fate_spec(lemmas.last(), xref, isv, prev.covered) {
                        FateView::Rendered(e) => { assert(st.pages[k] == prev.pages[k]); },
                        _ => { assert(st.pages[k] == prev.pages[k]); },
                    }
                } else {
                    assert(st.pages[k].0 == n);
                }
            }
            if exists|k: int| 0 <= k < prev.pages.len() && (#[trigger] prev.pages[k]).0 == i {
                let k = choose|k: int| 0 <= k < prev.pages.len() && (#[trigger] prev.pages[k]).0 == i;
                match fate_spec(lemmas.last(), xref, isv, prev.covered) {
                    FateView::Rendered(e) => { assert(st.pages[k] == prev.pages[k]); },
                    _ => { assert(st.pages[k] == prev.pages[k]); },
                }
            }
        }
    }
}

/// Classify every raw lemma once, through [`raw_lemma_fate`], assigning
/// sequential ids from `next_id + 1` to the rendered ones in corpus order.
pub fn plan_raw_pages(
    lemmas: &Vec<RawLemma>,
    xref: &Xref,
    isv_to_id: &HeadwordIndex,
    next_id: usize,
) -> (plan: RawPlan)
    requires
        next_id + lemmas@.len() <= usize::MAX,
    ensures
        ({
            let st = plan_spec(lemmas_view(lemmas@), xref@, isv_to_id@, next_id as int);
            &&& plan.pages@ == st.pages
            &&& plan.xref@ == st.links
            &&& plan.deduped == st.deduped
        }),
        plan.pages@.len() + plan.deduped == lemmas@.len(),
        forall|k: int| 0 <= k < plan.pages@.len() ==> (#[trigger] plan.pages@[k]).1 == next_id + k + 1,
        forall|k: int| 0 <= k < plan.pages@.len() ==> (#[trigger] plan.pages@[k]).0 < lemmas@.len(),
        forall|a: int, b: int|
            0 <= a < b < plan.pages@.len() ==> (#[trigger] plan.pages@[a]).0
                < (#[trigger] plan.pages@[b]).0,
{
    let ghost lv = lemmas_view(lemmas@);
    let mut pages: Vec<(usize, usize)> = Vec::new();
    let mut links = Xref::new();
    let mut deduped: usize = 0;
    let mut raw_covered: Vec<String> = Vec::new();
    let mut fold_owner = HeadwordIndex::new();
    let mut id: usize = next_id;
    let mut i: usize = 0;
    assert(strings_view(raw_covered@) =~= Seq::<Seq<char>>::empty());
    while i < lemmas.len()
        invariant
            i <= lemmas@.len(),
            next_id + lemmas@.len() <= usize::MAX,
            lv == lemmas_view(lemmas@),
            ({
                let st = plan_spec(lv.take(i as int), xref@, isv_to_id@, next_id as int);
                &&& pages@ == st.pages
                &&& links@ == st.links
                &&& deduped == st.deduped
                &&& strings_view(raw_covered@) == st.covered
                &&& fold_owner@ == st.owner
                &&& id == st.next_id
            }),
            plan_invariant(
                plan_spec(lv.take(i as int), xref@, isv_to_id@, next_id as int),
                i as int,
                next_id as int,
            ),
        decreases lemmas@.len() - i,
    {
        let lemma = &lemmas[i];
        proof {
            assert(lv.take(i + 1).drop_last() =~= lv.take(i as int));
            assert(lv.take(i + 1).last() == lemma_view(*lemma));
            lemma_plan_invariant(lv.take(i + 1), xref@, isv_to_id@, next_id as int);
        }
        let fate = raw_lemma_fate(lemma, xref, isv_to_id, &mut raw_covered);
        match fate {
            RawFate::Rendered { efold } => {
                id = id + 1;
                pages.push((i, id));
                let w = trim(lemma.word.as_str());
                links.insert(lemma.lang.as_str(), w.as_str(), id);
                fold_owner.insert(efold.as_str(), id);
            },
            RawFate::DedupedFold { target } => {
                deduped = deduped + 1;
                let w = trim(lemma.word.as_str());
                links.insert(lemma.lang.as_str(), w.as_str(), target);
            },
            RawFate::DedupedRawTwin { efold } => {
                deduped = deduped + 1;
                match fold_owner.get(efold.as_str()) {
                    Some(owner) => {
                        let w = trim(lemma.word.as_str());
                        links.insert(lemma.lang.as_str(), w.as_str(), owner);
                    },
                    None => {},
                }
            },
            _ => {
                deduped = deduped + 1;
            },
        }
        i += 1;
    }
    assert(lv.take(i as int) =~= lv);
    RawPlan { pages, xref: links, deduped }
}

} // verus!

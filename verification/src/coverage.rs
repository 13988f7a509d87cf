//! The raw-lemma coverage report: how many kept raw lemmas get a page of
//! their own and how many are deduped, in total and by language.
//!
//! The split runs the same dedup rule as the export's raw pre-pass, so it
//! always reconciles with the pages the export renders.

use vstd::prelude::*;
use crate::english_index::{lemma_seq_lt_irrefl, lemma_seq_lt_total, lemma_seq_lt_trans, seq_lt, str_lt};
use crate::raw_plan::{
    fate_spec, lemma_view, lemmas_view, plan_spec, raw_lemma_fate, strings_view, FateView, RawFate, RawLemma,
};
use crate::strs::str_eq;
use crate::xref::{HeadwordIndex, Xref};

verus! {

/// How many times `k` occurs among `keys`.
pub open spec fn occurrences(keys: Seq<Seq<char>>, k: Seq<char>) -> nat
    decreases keys.len(),
{
    if keys.len() == 0 {
        0
    } else {
        occurrences(keys.drop_last(), k) + if keys.last() == k { 1nat } else { 0nat }
    }
}

/// A tally over plain values.
pub open spec fn tally_view(t: Seq<(String, usize)>) -> Seq<(Seq<char>, usize)> {
    t.map_values(|e: (String, usize)| (e.0@, e.1))
}

/// Whether a tally lists each key once, in order, with how often it
/// occurs among `keys`.
pub open spec fn tally_of(t: Seq<(Seq<char>, usize)>, keys: Seq<Seq<char>>) -> bool {
    &&& forall|a: int, b: int| 0 <= a < b < t.len() ==> seq_lt((#[trigger] t[a]).0, (#[trigger] t[b]).0)
    &&& forall|a: int| 0 <= a < t.len() ==> (#[trigger] t[a]).1 == occurrences(keys, t[a].0) && t[a].1 > 0
    &&& forall|k: Seq<char>| occurrences(keys, k) > 0 ==> exists|a: int| 0 <= a < t.len() && (#[trigger] t[a]).0 == k
}

/// The keys of a tally, in order.
pub open spec fn tally_keys(t: Seq<(Seq<char>, usize)>) -> Seq<Seq<char>> {
    t.map_values(|e: (Seq<char>, usize)| e.0)
}

/// Two strictly ascending lists with the same members are the same list.
proof fn lemma_sorted_same_members(a: Seq<Seq<char>>, b: Seq<Seq<char>>)
    requires
        forall|i: int, j: int| 0 <= i < j < a.len() ==> seq_lt(#[trigger] a[i], #[trigger] a[j]),
        forall|i: int, j: int| 0 <= i < j < b.len() ==> seq_lt(#[trigger] b[i], #[trigger] b[j]),
        forall|x: Seq<char>| a.contains(x) <==> b.contains(x),
    ensures
        a == b,
    decreases a.len(),
{
    if a.len() == 0 {
        if b.len() > 0 {
            assert(b.contains(b[0]));
        }
        assert(a =~= b);
    } else {
        assert(a.contains(a[0]));
        assert(b.contains(a[0]));
        let j = choose|j: int| 0 <= j < b.len() && b[j] == a[0];
        assert(a.contains(b[0]));
        let i = choose|i: int| 0 <= i < a.len() && a[i] == b[0];
        if j > 0 {
            // b[0] < b[j] = a[0] <= a[i] = b[0]
            if i > 0 {
                lemma_seq_lt_trans(b[0], a[0], a[i]);
            }
            lemma_seq_lt_irrefl(b[0]);
        }
        assert(a[0] == b[0]);
        let a1 = a.drop_first();
        let b1 = b.drop_first();
        assert forall|x: Seq<char>| a1.contains(x) <==> b1.contains(x) by {
            if a1.contains(x) {
                let p = choose|p: int| 0 <= p < a1.len() && a1[p] == x;
                assert(a[p + 1] == x);
                if x == a[0] {
                    lemma_seq_lt_irrefl(x);
                }
                assert(a.contains(x));
                assert(b.contains(x));
                let q = choose|q: int| 0 <= q < b.len() && b[q] == x;
                assert(q != 0);
                assert(b1[q - 1] == x);
            }
            if b1.contains(x) {
                let p = choose|p: int| 0 <= p < b1.len() && b1[p] == x;
                assert(b[p + 1] == x);
                if x == b[0] {
                    lemma_seq_lt_irrefl(x);
                }
                assert(b.contains(x));
                assert(a.contains(x));
                let q = choose|q: int| 0 <= q < a.len() && a[q] == x;
                assert(q != 0);
                assert(a1[q - 1] == x);
            }
        }
        assert forall|i: int, j: int| 0 <= i < j < a1.len() implies seq_lt(#[trigger] a1[i], #[trigger] a1[j]) by {
            assert(a1[i] == a[i + 1] && a1[j] == a[j + 1]);
        }
        assert forall|i: int, j: int| 0 <= i < j < b1.len() implies seq_lt(#[trigger] b1[i], #[trigger] b1[j]) by {
            assert(b1[i] == b[i + 1] && b1[j] == b[j + 1]);
        }
        lemma_sorted_same_members(a1, b1);
        assert(a =~= seq![a[0]] + a1);
        assert(b =~= seq![b[0]] + b1);
    }
}

/// A tally of a list of keys is unique: two tallies of the same keys are
/// the same list.
pub proof fn lemma_tally_unique(t1: Seq<(Seq<char>, usize)>, t2: Seq<(Seq<char>, usize)>, keys: Seq<Seq<char>>)
    requires
        tally_of(t1, keys),
        tally_of(t2, keys),
    ensures
        t1 == t2,
{
    let k1 = tally_keys(t1);
    let k2 = tally_keys(t2);
    assert forall|i: int, j: int| 0 <= i < j < k1.len() implies seq_lt(#[trigger] k1[i], #[trigger] k1[j]) by {
        assert(seq_lt(t1[i].0, t1[j].0));
    }
    assert forall|i: int, j: int| 0 <= i < j < k2.len() implies seq_lt(#[trigger] k2[i], #[trigger] k2[j]) by {
        assert(seq_lt(t2[i].0, t2[j].0));
    }
    assert forall|x: Seq<char>| k1.contains(x) <==> k2.contains(x) by {
        if k1.contains(x) {
            let p = choose|p: int| 0 <= p < k1.len() && k1[p] == x;
            assert(t1[p].1 == occurrences(keys, t1[p].0) && t1[p].1 > 0);
            let q = choose|q: int| 0 <= q < t2.len() && (#[trigger] t2[q]).0 == x;
            assert(k2[q] == x);
        }
        if k2.contains(x) {
            let p = choose|p: int| 0 <= p < k2.len() && k2[p] == x;
            assert(t2[p].1 == occurrences(keys, t2[p].0) && t2[p].1 > 0);
            let q = choose|q: int| 0 <= q < t1.len() && (#[trigger] t1[q]).0 == x;
            assert(k1[q] == x);
        }
    }
    lemma_sorted_same_members(k1, k2);
    assert forall|i: int| 0 <= i < t1.len() implies t1[i] == t2[i] by {
        assert(k1[i] == k2[i]);
        assert(t1[i].1 == occurrences(keys, t1[i].0));
        assert(t2[i].1 == occurrences(keys, t2[i].0));
    }
    assert(t1.len() == k1.len() && t2.len() == k2.len());
    assert(t1 =~= t2);
}

/// A key that occurs is somewhere among the keys.
proof fn lemma_occurs_somewhere(keys: Seq<Seq<char>>, k: Seq<char>)
    requires
        occurrences(keys, k) > 0,
    ensures
        exists|i: int| 0 <= i < keys.len() && keys[i] == k,
    decreases keys.len(),
{
    if keys.last() == k {
        assert(keys[keys.len() - 1] == k);
    } else {
        lemma_occurs_somewhere(keys.drop_last(), k);
        let i = choose|i: int| 0 <= i < keys.drop_last().len() && keys.drop_last()[i] == k;
        assert(keys[i] == k);
    }
}

/// Every key a tally lists is one of the keys it counts.
pub proof fn lemma_tally_key_occurs(t: Seq<(Seq<char>, usize)>, keys: Seq<Seq<char>>, j: int)
    requires
        tally_of(t, keys),
        0 <= j < t.len(),
    ensures
        exists|i: int| 0 <= i < keys.len() && keys[i] == t[j].0,
{
    assert(t[j].1 == occurrences(keys, t[j].0) && t[j].1 > 0);
    lemma_occurs_somewhere(keys, t[j].0);
}

/// The tally of a list of keys.
pub open spec fn tally_spec(keys: Seq<Seq<char>>) -> Seq<(Seq<char>, usize)> {
    choose|t: Seq<(Seq<char>, usize)>| tally_of(t, keys)
}

/// A list that is a tally of `keys` is the tally of `keys`.
pub proof fn lemma_is_the_tally(t: Seq<(Seq<char>, usize)>, keys: Seq<Seq<char>>)
    requires
        tally_of(t, keys),
    ensures
        t == tally_spec(keys),
{
    let c = tally_spec(keys);
    assert(tally_of(c, keys));
    lemma_tally_unique(t, c, keys);
}

/// Counts one more occurrence of `key`.
pub fn tally_add(t: &mut Vec<(String, usize)>, key: &str, Ghost(keys): Ghost<Seq<Seq<char>>>)
    requires
        tally_of(tally_view(old(t)@), keys),
        keys.len() < usize::MAX,
    ensures
        tally_of(tally_view(final(t)@), keys.push(key@)),
{
    let ghost t0 = tally_view(t@);
    let ghost k2 = keys.push(key@);
    assert(k2.drop_last() =~= keys);
    proof {
        lemma_occurrences_le(keys, key@);
    }
    let mut p: usize = 0;
    while p < t.len() && str_lt(t[p].0.as_str(), key)
        invariant
            p <= t@.len(),
            t0 == tally_view(t@),
            forall|q: int| 0 <= q < p ==> seq_lt((#[trigger] t0[q]).0, key@),
        decreases t@.len() - p,
    {
        assert(t0[p as int].0 == t@[p as int].0@);
        p += 1;
    }
    if p < t.len() && str_eq(t[p].0.as_str(), key) {
        let n = t[p].1;
        assert(t0[p as int] == (key@, n));
        assert(n == occurrences(keys, key@));
        let k = t[p].0.clone();
        t.set(p, (k, n + 1));
        assert(tally_view(t@) =~= t0.update(p as int, (key@, (n + 1) as usize)));
        assert forall|a: int| 0 <= a < tally_view(t@).len() implies (#[trigger] tally_view(t@)[a]).1 == occurrences(
            k2,
            tally_view(t@)[a].0,
        ) && tally_view(t@)[a].1 > 0 by {
            if a != p {
                assert(tally_view(t@)[a] == t0[a]);
                assert(t0[a].0 != key@) by {
                    if t0[a].0 == key@ {
                        if a < p {
                            lemma_seq_lt_irrefl(t0[p as int].0);
                        } else {
                            lemma_seq_lt_irrefl(t0[p as int].0);
                        }
                    }
                }
            }
        }
        assert forall|kk: Seq<char>| occurrences(k2, kk) > 0 implies exists|a: int|
            0 <= a < tally_view(t@).len() && (#[trigger] tally_view(t@)[a]).0 == kk by {
            if kk == key@ {
                assert(tally_view(t@)[p as int].0 == kk);
            } else {
                assert(occurrences(keys, kk) > 0);
                let a = choose|a: int| 0 <= a < t0.len() && (#[trigger] t0[a]).0 == kk;
                assert(tally_view(t@)[a].0 == kk);
            }
        }
    } else {
        proof {
            if p < t@.len() {
                assert(t0[p as int].0 == t@[p as int].0@);
                lemma_seq_lt_total(t0[p as int].0, key@);
            }
            // key is new.
            assert forall|a: int| 0 <= a < t0.len() implies (#[trigger] t0[a]).0 != key@ by {
                if a < p {
                    lemma_seq_lt_irrefl(key@);
                } else if t0[a].0 == key@ {
                    if a > p {
                        lemma_seq_lt_trans(key@, t0[p as int].0, t0[a].0);
                        lemma_seq_lt_irrefl(key@);
                    }
                }
            }
            assert(occurrences(keys, key@) == 0) by {
                if occurrences(keys, key@) > 0 {
                    let a = choose|a: int| 0 <= a < t0.len() && (#[trigger] t0[a]).0 == key@;
                }
            }
        }
        t.insert(p, (crate::strs::string_from(key), 1));
        let ghost t1 = tally_view(t@);
        assert(t1 =~= t0.take(p as int) + seq![(key@, 1usize)] + t0.skip(p as int));
        assert forall|a: int, b: int| 0 <= a < b < t1.len() implies seq_lt((#[trigger] t1[a]).0, (#[trigger] t1[b]).0) by {
            if b < p {
                assert(t1[a] == t0[a] && t1[b] == t0[b]);
            } else if b == p {
                assert(t1[a] == t0[a]);
            } else if a < p {
                assert(t1[a] == t0[a] && t1[b] == t0[b - 1]);
                if b - 1 > p {
                    lemma_seq_lt_trans(t0[a].0, t0[p as int].0, t0[b - 1].0);
                }
            } else if a == p {
                assert(t1[b] == t0[b - 1]);
                if b - 1 > p {
                    lemma_seq_lt_trans(key@, t0[p as int].0, t0[b - 1].0);
                }
            } else {
                assert(t1[a] == t0[a - 1] && t1[b] == t0[b - 1]);
            }
        }
        assert forall|a: int| 0 <= a < t1.len() implies (#[trigger] t1[a]).1 == occurrences(k2, t1[a].0) && t1[a].1 > 0 by {
            if a < p {
                assert(t1[a] == t0[a]);
            } else if a > p {
                assert(t1[a] == t0[a - 1]);
            }
        }
        assert forall|kk: Seq<char>| occurrences(k2, kk) > 0 implies exists|a: int|
            0 <= a < t1.len() && (#[trigger] t1[a]).0 == kk by {
            if kk == key@ {
                assert(t1[p as int].0 == kk);
            } else {
                assert(occurrences(keys, kk) > 0);
                let a = choose|a: int| 0 <= a < t0.len() && (#[trigger] t0[a]).0 == kk;
                if a < p {
                    assert(t1[a].0 == kk);
                } else {
                    assert(t1[a + 1].0 == kk);
                }
            }
        }
    }
}

proof fn lemma_occurrences_le(keys: Seq<Seq<char>>, k: Seq<char>)
    ensures
        occurrences(keys, k) <= keys.len(),
    decreases keys.len(),
{
    if keys.len() > 0 {
        lemma_occurrences_le(keys.drop_last(), k);
    }
}

/// The raw lemmas' split: rendered and deduped counts after the first `n`
/// lemmas, with the ě-blind folds claimed so far.
pub open spec fn split_upto(
    lemmas: Seq<(Seq<char>, Seq<char>, Seq<char>)>,
    xref: Seq<(Seq<char>, Seq<char>, usize)>,
    isv: Seq<(Seq<char>, usize)>,
    n: int,
) -> (Seq<Seq<char>>, nat, nat)
    decreases n,
{
    if n <= 0 {
        (Seq::empty(), 0, 0)
    } else {
        let (cov, r, d) = split_upto(lemmas, xref, isv, n - 1);
        match fate_spec(lemmas[n - 1], xref, isv, cov) {
            FateView::Rendered(e) => (cov.push(e), r + 1, d),
            _ => (cov, r, d + 1),
        }
    }
}

/// The languages of the first `n` lemmas with the given fate class.
pub open spec fn split_langs(
    lemmas: Seq<(Seq<char>, Seq<char>, Seq<char>)>,
    xref: Seq<(Seq<char>, Seq<char>, usize)>,
    isv: Seq<(Seq<char>, usize)>,
    n: int,
    rendered: bool,
) -> Seq<Seq<char>>
    decreases n,
{
    if n <= 0 {
        Seq::empty()
    } else {
        let pre = split_langs(lemmas, xref, isv, n - 1, rendered);
        let cov = split_upto(lemmas, xref, isv, n - 1).0;
        if (fate_spec(lemmas[n - 1], xref, isv, cov) is Rendered) == rendered {
            pre.push(lemmas[n - 1].0)
        } else {
            pre
        }
    }
}

/// The site view of the coverage report.
pub struct CoverageSplit {
    pub rendered: usize,
    pub deduped: usize,
    /// language → rendered raw lemmas, by language code.
    pub rendered_by_lang: Vec<(String, usize)>,
    /// language → deduped raw lemmas, by language code.
    pub deduped_by_lang: Vec<(String, usize)>,
}

/// Classifies every kept raw lemma through the export's dedup rule and
/// counts the rendered and deduped ones, in total and per language.
pub fn coverage_split(lemmas: &Vec<RawLemma>, xref: &Xref, isv_to_id: &HeadwordIndex) -> (r: CoverageSplit)
    ensures
        ({
            let lv = lemmas_view(lemmas@);
            let (_, rn, dn) = split_upto(lv, xref@, isv_to_id@, lv.len() as int);
            &&& r.rendered == rn
            &&& r.deduped == dn
            &&& tally_of(tally_view(r.rendered_by_lang@), split_langs(lv, xref@, isv_to_id@, lv.len() as int, true))
            &&& tally_of(tally_view(r.deduped_by_lang@), split_langs(lv, xref@, isv_to_id@, lv.len() as int, false))
        }),
        r.rendered + r.deduped == lemmas@.len(),
{
    let ghost lv = lemmas_view(lemmas@);
    let mut covered: Vec<String> = Vec::new();
    let mut rendered: usize = 0;
    let mut deduped: usize = 0;
    let mut by_r: Vec<(String, usize)> = Vec::new();
    let mut by_d: Vec<(String, usize)> = Vec::new();
    let mut i: usize = 0;
    assert(strings_view(covered@) =~= Seq::<Seq<char>>::empty());
    assert(tally_of(tally_view(by_r@), Seq::<Seq<char>>::empty()));
    assert(tally_of(tally_view(by_d@), Seq::<Seq<char>>::empty()));
    while i < lemmas.len()
        invariant
            i <= lemmas@.len(),
            lv == lemmas_view(lemmas@),
            ({
                let (cov, rn, dn) = split_upto(lv, xref@, isv_to_id@, i as int);
                &&& strings_view(covered@) == cov
                &&& rendered == rn
                &&& deduped == dn
            }),
            rendered + deduped == i,
            split_langs(lv, xref@, isv_to_id@, i as int, true).len() == rendered,
            split_langs(lv, xref@, isv_to_id@, i as int, false).len() == deduped,
            tally_of(tally_view(by_r@), split_langs(lv, xref@, isv_to_id@, i as int, true)),
            tally_of(tally_view(by_d@), split_langs(lv, xref@, isv_to_id@, i as int, false)),
        decreases lemmas@.len() - i,
    {
        let lemma = &lemmas[i];
        assert(lv[i as int] == lemma_view(*lemma));
        let fate = raw_lemma_fate(lemma, xref, isv_to_id, &mut covered);
        match fate {
            RawFate::Rendered { efold: _ } => {
                tally_add(&mut by_r, lemma.lang.as_str(), Ghost(split_langs(lv, xref@, isv_to_id@, i as int, true)));
                rendered += 1;
            },
            _ => {
                tally_add(&mut by_d, lemma.lang.as_str(), Ghost(split_langs(lv, xref@, isv_to_id@, i as int, false)));
                deduped += 1;
            },
        }
        i += 1;
    }
    CoverageSplit { rendered, deduped, rendered_by_lang: by_r, deduped_by_lang: by_d }
}

/// The coverage split and the export's raw pre-pass agree: the lemmas the
/// report counts as rendered are exactly the pages the pre-pass assigns, and
/// the deduped counts match.
pub proof fn lemma_coverage_reconciles(
    lemmas: Seq<(Seq<char>, Seq<char>, Seq<char>)>,
    xref: Seq<(Seq<char>, Seq<char>, usize)>,
    isv: Seq<(Seq<char>, usize)>,
    next_id: int,
)
    ensures
        ({
            let st = plan_spec(lemmas, xref, isv, next_id);
            let (cov, rn, dn) = split_upto(lemmas, xref, isv, lemmas.len() as int);
            &&& st.covered == cov
            &&& st.pages.len() == rn
            &&& st.deduped == dn
        }),
    decreases lemmas.len(),
{
    if lemmas.len() > 0 {
        let pre = lemmas.drop_last();
        lemma_coverage_reconciles(pre, xref, isv, next_id);
        lemma_split_prefix(lemmas, xref, isv, lemmas.len() - 1);
        assert(lemmas.take(lemmas.len() - 1) =~= pre);
    }
}

/// The split of a prefix only reads the prefix.
proof fn lemma_split_prefix(
    lemmas: Seq<(Seq<char>, Seq<char>, Seq<char>)>,
    xref: Seq<(Seq<char>, Seq<char>, usize)>,
    isv: Seq<(Seq<char>, usize)>,
    n: int,
)
    requires
        0 <= n <= lemmas.len(),
    ensures
        split_upto(lemmas, xref, isv, n) == split_upto(lemmas.take(n), xref, isv, n),
    decreases n,
{
    if n > 0 {
        lemma_split_prefix(lemmas, xref, isv, n - 1);
        lemma_split_prefix(lemmas.take(n), xref, isv, n - 1);
        assert(lemmas.take(n).take(n - 1) =~= lemmas.take(n - 1));
        assert(lemmas.take(n)[n - 1] == lemmas[n - 1]);
    }
}

/// Whether the extraction tally agrees with the lemma cache: the cache
/// holds exactly the kept pages, and kept plus dropped pages are all the
/// Slavic pages seen.
pub fn extraction_reconciles(kept: u64, dropped_total: u64, seen: u64, cache_len: usize) -> (r: bool)
    ensures
        r == (kept == cache_len && kept + dropped_total == seen),
{
    if kept as u128 != cache_len as u128 {
        return false;
    }
    kept as u128 + dropped_total as u128 == seen as u128
}

/// The languages of the kept raw lemmas, in order.
pub open spec fn lemma_langs(lemmas: Seq<RawLemma>) -> Seq<Seq<char>> {
    lemmas.map_values(|l: RawLemma| l.lang@)
}

/// The parts of speech of the kept raw lemmas, in order.
pub open spec fn lemma_poses(lemmas: Seq<RawLemma>) -> Seq<Seq<char>> {
    lemmas.map_values(|l: RawLemma| l.pos@)
}

/// The kept raw lemmas counted by language and by part of speech: each a
/// list of the distinct values in ascending order with how many lemmas
/// carry each.
pub fn kept_tallies(lemmas: &Vec<RawLemma>) -> (r: (Vec<(String, usize)>, Vec<(String, usize)>))
    ensures
        tally_of(tally_view(r.0@), lemma_langs(lemmas@)),
        tally_of(tally_view(r.1@), lemma_poses(lemmas@)),
{
    let ghost langs = lemma_langs(lemmas@);
    let ghost poses = lemma_poses(lemmas@);
    let mut by_lang: Vec<(String, usize)> = Vec::new();
    let mut by_pos: Vec<(String, usize)> = Vec::new();
    assert(langs.take(0) =~= Seq::<Seq<char>>::empty());
    assert(poses.take(0) =~= Seq::<Seq<char>>::empty());
    let mut i: usize = 0;
    while i < lemmas.len()
        invariant
            langs == lemma_langs(lemmas@),
            poses == lemma_poses(lemmas@),
            i <= lemmas@.len(),
            tally_of(tally_view(by_lang@), langs.take(i as int)),
            tally_of(tally_view(by_pos@), poses.take(i as int)),
        decreases lemmas@.len() - i,
    {
        assert(langs.take(i + 1) =~= langs.take(i as int).push(lemmas@[i as int].lang@));
        assert(poses.take(i + 1) =~= poses.take(i as int).push(lemmas@[i as int].pos@));
        tally_add(&mut by_lang, lemmas[i].lang.as_str(), Ghost(langs.take(i as int)));
        tally_add(&mut by_pos, lemmas[i].pos.as_str(), Ghost(poses.take(i as int)));
        i += 1;
    }
    assert(langs.take(i as int) =~= langs);
    assert(poses.take(i as int) =~= poses);
    (by_lang, by_pos)
}

} // verus!

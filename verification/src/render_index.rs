//! The display-headword index and cognate cross-reference of the corpus
//! export: which generated cognate sets get a page, which official lemma
//! each page shows, and which pages other words resolve to.
//!
//! A set's top five candidates are looked up among the official headwords
//! by fold; one page represents each official lemma (the best gloss overlap,
//! then the best score); pages sharing a folded form and a gloss token with
//! a stronger page are suppressed; official lemmas that no candidate
//! generates get pages of their own.

use vstd::prelude::*;
use crate::strs::{chars_of, has_char, str_eq, trim, trim_spec};
use crate::xref::{index_lookup, xref_lookup, HeadwordIndex, Xref};

verus! {

/// An official dictionary row as the index reads it.
pub struct OfficialRow {
    /// The headword as written.
    pub isv: String,
    /// The lowercased standard-alphabet fold of the trimmed headword.
    pub fold: String,
    /// The tokens of the row's English gloss.
    pub english_tokens: Vec<String>,
}

/// A generated cognate set as the index reads it.
pub struct SetSummary {
    /// The top candidate's form (empty when nothing was generated).
    pub form: String,
    /// The lowercased standard-alphabet fold of `form`.
    pub form_fold: String,
    /// The lowercased standard-alphabet folds of the ranked candidates.
    pub candidate_folds: Vec<String>,
    /// The tokens of the set's gloss.
    pub gloss_tokens: Vec<String>,
    /// The set's score scaled to thousandths.
    pub score_key: i32,
    /// The attested member words, `(lang, word)`.
    pub members: Vec<(String, String)>,
}

/// Strings over plain values.
pub open spec fn sv(v: Seq<String>) -> Seq<Seq<char>> {
    v.map_values(|s: String| s@)
}

/// Whether an official row can be matched by a single generated word.
pub open spec fn matchable(r: OfficialRow) -> bool {
    let t = trim_spec(r.isv@);
    t.len() > 0 && !t.contains(' ') && !t.contains('#')
}

/// The first matchable row at or after `k` whose fold is `fold`.
pub open spec fn row_from(rows: Seq<OfficialRow>, fold: Seq<char>, k: int) -> Option<int>
    decreases rows.len() - k,
{
    if k < 0 || k >= rows.len() {
        None
    } else if matchable(rows[k]) && rows[k].fold@ == fold {
        Some(k)
    } else {
        row_from(rows, fold, k + 1)
    }
}

/// The official row a fold names: the first matchable one.
pub open spec fn row_for(rows: Seq<OfficialRow>, fold: Seq<char>) -> Option<int> {
    row_from(rows, fold, 0)
}

/// Whether a row is matchable.
fn is_matchable(r: &OfficialRow) -> (b: bool)
    ensures
        b == matchable(*r),
{
    let t = trim(r.isv.as_str());
    let v = chars_of(t.as_str());
    !t.as_str().is_empty() && !has_char(&v, ' ') && !has_char(&v, '#')
}

/// The official row a fold names.
pub fn official_row_for(rows: &Vec<OfficialRow>, fold: &str) -> (r: Option<usize>)
    ensures
        match r {
            Some(k) => row_for(rows@, fold@) == Some(k as int),
            None => row_for(rows@, fold@) is None,
        },
{
    let mut k: usize = 0;
    while k < rows.len()
        invariant
            k <= rows@.len(),
            row_for(rows@, fold@) == row_from(rows@, fold@, k as int),
        decreases rows@.len() - k,
    {
        if is_matchable(&rows[k]) && str_eq(rows[k].fold.as_str(), fold) {
            return Some(k);
        }
        k += 1;
    }
    None
}

/// The first candidate (from `k` on, among the first five) whose fold names
/// an official row: its 1-based rank and the row.
pub open spec fn match_from(cands: Seq<Seq<char>>, rows: Seq<OfficialRow>, k: int) -> Option<(int, int)>
    decreases 5 - k,
{
    if k < 0 || k >= 5 || k >= cands.len() {
        None
    } else {
        match row_for(rows, cands[k]) {
            Some(r) => Some((k + 1, r)),
            None => match_from(cands, rows, k + 1),
        }
    }
}

/// The official row a set matches, through its first five candidates.
pub open spec fn set_match(s: SetSummary, rows: Seq<OfficialRow>) -> Option<int> {
    match match_from(sv(s.candidate_folds@), rows, 0) {
        Some((_, r)) => Some(r),
        None => None,
    }
}

fn match_set(s: &SetSummary, rows: &Vec<OfficialRow>) -> (r: Option<usize>)
    ensures
        match r {
            Some(k) => set_match(*s, rows@) == Some(k as int),
            None => set_match(*s, rows@) is None,
        },
{
    let mut k: usize = 0;
    while k < 5 && k < s.candidate_folds.len()
        invariant
            k <= 5,
            match_from(sv(s.candidate_folds@), rows@, 0) == match_from(sv(s.candidate_folds@), rows@, k as int),
        decreases 5 - k,
    {
        assert(sv(s.candidate_folds@)[k as int] == s.candidate_folds@[k as int]@);
        match official_row_for(rows, s.candidate_folds[k].as_str()) {
            Some(r) => {
                return Some(r);
            },
            None => {},
        }
        k += 1;
    }
    None
}

/// One generated page before dedup: its set and the official row it first
/// matched. Its id is its position plus one.
pub struct Prep {
    pub set: usize,
    pub matched: Option<usize>,
}

/// The pages of the sets that generated a form, in order.
pub open spec fn prepared_spec(sets: Seq<SetSummary>, rows: Seq<OfficialRow>) -> Seq<(int, Option<int>)>
    decreases sets.len(),
{
    if sets.len() == 0 {
        Seq::empty()
    } else {
        let pre = prepared_spec(sets.drop_last(), rows);
        if sets.last().form@.len() > 0 {
            pre.push((sets.len() - 1, set_match(sets.last(), rows)))
        } else {
            pre
        }
    }
}

/// Pages over plain values.
pub open spec fn preps_view(p: Seq<Prep>) -> Seq<(int, Option<int>)> {
    p.map_values(
        |x: Prep|
            (
                x.set as int,
                match x.matched {
                    Some(r) => Some(r as int),
                    None => None,
                },
            ),
    )
}

/// The number of tokens of `a` (with repeats) that `b` holds.
pub open spec fn overlap(a: Seq<Seq<char>>, b: Seq<Seq<char>>) -> int
    decreases a.len(),
{
    if a.len() == 0 {
        0
    } else {
        overlap(a.drop_last(), b) + if b.contains(a.last()) { 1int } else { 0int }
    }
}

/// Whether page `p` beats page `q` as the representative of official row
/// `r`: more gloss tokens shared with the row, then a higher score.
pub open spec fn beats(
    sets: Seq<SetSummary>,
    rows: Seq<OfficialRow>,
    p: (int, Option<int>),
    q: (int, Option<int>),
    r: int,
) -> bool {
    let en = sv(rows[r].english_tokens@);
    let op = overlap(sv(sets[p.0].gloss_tokens@), en);
    let oq = overlap(sv(sets[q.0].gloss_tokens@), en);
    op > oq || (op == oq && sets[p.0].score_key > sets[q.0].score_key)
}

/// The representative of row `r` among the first `n` pages: the first page
/// that no later page beats.
pub open spec fn best_upto(
    sets: Seq<SetSummary>,
    rows: Seq<OfficialRow>,
    prep: Seq<(int, Option<int>)>,
    n: int,
    r: int,
) -> Option<int>
    decreases n,
{
    if n <= 0 {
        None
    } else {
        let b = best_upto(sets, rows, prep, n - 1, r);
        if prep[n - 1].1 == Some(r) {
            match b {
                None => Some(n - 1),
                Some(j) => if beats(sets, rows, prep[n - 1], prep[j], r) {
                    Some(n - 1)
                } else {
                    b
                },
            }
        } else {
            b
        }
    }
}

/// The official row page `i` shows after homograph dedup.
pub open spec fn final_match(
    sets: Seq<SetSummary>,
    rows: Seq<OfficialRow>,
    prep: Seq<(int, Option<int>)>,
    i: int,
) -> Option<int> {
    match prep[i].1 {
        Some(r) => if best_upto(sets, rows, prep, prep.len() as int, r) == Some(i) {
            Some(r)
        } else {
            None
        },
        None => None,
    }
}

/// The number of tokens of `a` that `b` holds.
fn overlap_count(a: &Vec<String>, b: &Vec<String>) -> (n: usize)
    ensures
        n == overlap(sv(a@), sv(b@)),
{
    let mut n: usize = 0;
    let mut i: usize = 0;
    while i < a.len()
        invariant
            i <= a@.len(),
            n <= i,
            n == overlap(sv(a@).take(i as int), sv(b@)),
        decreases a@.len() - i,
    {
        assert(sv(a@).take(i + 1).drop_last() =~= sv(a@).take(i as int));
        assert(sv(a@).take(i + 1).last() == a@[i as int]@);
        if contains_string(b, a[i].as_str()) {
            n += 1;
        }
        i += 1;
    }
    assert(sv(a@).take(i as int) =~= sv(a@));
    n
}

/// Whether `key` is among `v`.
fn contains_string(v: &Vec<String>, key: &str) -> (r: bool)
    ensures
        r == sv(v@).contains(key@),
{
    let mut i: usize = 0;
    while i < v.len()
        invariant
            i <= v@.len(),
            forall|k: int| 0 <= k < i ==> v@[k]@ != key@,
        decreases v@.len() - i,
    {
        if str_eq(v[i].as_str(), key) {
            assert(sv(v@)[i as int] == key@);
            return true;
        }
        i += 1;
    }
    assert forall|k: int| 0 <= k < sv(v@).len() implies sv(v@)[k] != key@ by {
        assert(sv(v@)[k] == v@[k]@);
    }
    false
}

/// The generated pages and the official row each shows after homograph
/// dedup.
pub fn prepare_pages(sets: &Vec<SetSummary>, rows: &Vec<OfficialRow>) -> (r: (Vec<Prep>, Vec<Option<usize>>))
    ensures
        preps_view(r.0@) == prepared_spec(sets@, rows@),
        r.1@.len() == r.0@.len(),
        forall|k: int| 0 <= k < r.0@.len() ==> (#[trigger] r.0@[k]).set < sets@.len(),
        forall|i: int|
            0 <= i < r.1@.len() ==> match #[trigger] r.1@[i] {
                Some(x) => x < rows@.len(),
                None => true,
            },
        forall|i: int|
            0 <= i < r.1@.len() ==> match #[trigger] r.1@[i] {
                Some(k) => final_match(sets@, rows@, preps_view(r.0@), i) == Some(k as int),
                None => final_match(sets@, rows@, preps_view(r.0@), i) is None,
            },
{
    let mut prep: Vec<Prep> = Vec::new();
    let mut i: usize = 0;
    assert(preps_view(prep@) =~= prepared_spec(sets@.take(0), rows@));
    while i < sets.len()
        invariant
            i <= sets@.len(),
            preps_view(prep@) == prepared_spec(sets@.take(i as int), rows@),
            prep@.len() <= i,
            forall|k: int| 0 <= k < prep@.len() ==> (#[trigger] prep@[k]).set < i,
            forall|k: int|
                0 <= k < prep@.len() ==> match (#[trigger] prep@[k]).matched {
                    Some(r) => r < rows@.len(),
                    None => true,
                },
        decreases sets@.len() - i,
    {
        assert(sets@.take(i + 1).drop_last() =~= sets@.take(i as int));
        assert(sets@.take(i + 1).last() == sets@[i as int]);
        if !sets[i].form.as_str().is_empty() {
            let m = match_set(&sets[i], rows);
            proof {
                match m {
                    Some(r) => {
                        lemma_row_from_bound(rows@, sv(sets@[i as int].candidate_folds@), 0);
                    },
                    None => {},
                }
            }
            let ghost before = prep@;
            prep.push(Prep { set: i, matched: m });
            assert(preps_view(prep@) =~= preps_view(before).push(
                (
                    i as int,
                    match m {
                        Some(r) => Some(r as int),
                        None => None,
                    },
                ),
            ));
        }
        i += 1;
    }
    assert(sets@.take(i as int) =~= sets@);
    let ghost pv = preps_view(prep@);
    // The representative of each official row so far.
    let mut best: Vec<Option<usize>> = Vec::new();
    let mut r: usize = 0;
    while r < rows.len()
        invariant
            r <= rows@.len(),
            best@.len() == r,
            forall|k: int| 0 <= k < r ==> best@[k] is None,
        decreases rows@.len() - r,
    {
        best.push(None);
        r += 1;
    }
    let n = prep.len();
    let mut j: usize = 0;
    while j < n
        invariant
            j <= n == prep@.len(),
            pv == preps_view(prep@),
            best@.len() == rows@.len(),
            forall|k: int| 0 <= k < prep@.len() ==> (#[trigger] prep@[k]).set < sets@.len(),
            forall|k: int|
                0 <= k < prep@.len() ==> match (#[trigger] prep@[k]).matched {
                    Some(r) => r < rows@.len(),
                    None => true,
                },
            forall|row: int|
                0 <= row < rows@.len() ==> match #[trigger] best@[row] {
                    Some(b) => best_upto(sets@, rows@, pv, j as int, row) == Some(b as int) && b < j,
                    None => best_upto(sets@, rows@, pv, j as int, row) is None,
                },
        decreases n - j,
    {
        match prep[j].matched {
            Some(row) => {
                let p = &prep[j];
                let win = match best[row] {
                    None => true,
                    Some(b) => {
                        let en = &rows[row].english_tokens;
                        let op = overlap_count(&sets[p.set].gloss_tokens, en);
                        let oq = overlap_count(&sets[prep[b].set].gloss_tokens, en);
                        op > oq || (op == oq && sets[p.set].score_key > sets[prep[b].set].score_key)
                    },
                };
                if win {
                    best.set(row, Some(j));
                }
            },
            None => {},
        }
        j += 1;
    }
    let mut fm: Vec<Option<usize>> = Vec::new();
    let mut k: usize = 0;
    while k < n
        invariant
            k <= n == prep@.len(),
            pv == preps_view(prep@),
            best@.len() == rows@.len(),
            fm@.len() == k,
            forall|k: int|
                0 <= k < prep@.len() ==> match (#[trigger] prep@[k]).matched {
                    Some(r) => r < rows@.len(),
                    None => true,
                },
            forall|row: int|
                0 <= row < rows@.len() ==> match #[trigger] best@[row] {
                    Some(b) => best_upto(sets@, rows@, pv, n as int, row) == Some(b as int),
                    None => best_upto(sets@, rows@, pv, n as int, row) is None,
                },
            forall|i: int|
                0 <= i < k ==> match #[trigger] fm@[i] {
                    Some(x) => final_match(sets@, rows@, pv, i) == Some(x as int),
                    None => final_match(sets@, rows@, pv, i) is None,
                },
        decreases n - k,
    {
        assert(pv[k as int] == (prep@[k as int].set as int, match prep@[k as int].matched {
            Some(r) => Some(r as int),
            None => None,
        }));
        let v = match prep[k].matched {
            Some(row) => match best[row] {
                Some(b) => if b == k {
                    Some(row)
                } else {
                    None
                },
                None => None,
            },
            None => None,
        };
        fm.push(v);
        k += 1;
    }
    (prep, fm)
}

/// A row found from a candidate is a row.
proof fn lemma_row_from_bound(rows: Seq<OfficialRow>, cands: Seq<Seq<char>>, k: int)
    ensures
        match match_from(cands, rows, k) {
            Some((_, r)) => 0 <= r < rows.len(),
            None => true,
        },
    decreases 5 - k,
{
    if 0 <= k < 5 && k < cands.len() {
        lemma_row_from_in(rows, cands[k], 0);
        lemma_row_from_bound(rows, cands, k + 1);
    }
}

proof fn lemma_row_from_in(rows: Seq<OfficialRow>, fold: Seq<char>, k: int)
    ensures
        match row_from(rows, fold, k) {
            Some(r) => 0 <= r < rows.len(),
            None => true,
        },
    decreases rows.len() - k,
{
    if 0 <= k < rows.len() {
        lemma_row_from_in(rows, fold, k + 1);
    }
}


/// The rank of page `i` within its folded-form group: official matches
/// first, then by score.
pub open spec fn rank_key(
    sets: Seq<SetSummary>,
    rows: Seq<OfficialRow>,
    prep: Seq<(int, Option<int>)>,
    i: int,
) -> int {
    if final_match(sets, rows, prep, i) is Some {
        sets[prep[i].0].score_key + 0x2_0000_0000
    } else {
        sets[prep[i].0].score_key as int
    }
}

/// The gloss tokens page `i` is compared by: its official row's when it
/// shows one, else its set's.
pub open spec fn page_gloss(
    sets: Seq<SetSummary>,
    rows: Seq<OfficialRow>,
    prep: Seq<(int, Option<int>)>,
    i: int,
) -> Seq<Seq<char>> {
    match final_match(sets, rows, prep, i) {
        Some(r) => sv(rows[r].english_tokens@),
        None => sv(sets[prep[i].0].gloss_tokens@),
    }
}

/// The folded form of page `i`.
pub open spec fn page_fold(sets: Seq<SetSummary>, prep: Seq<(int, Option<int>)>, i: int) -> Seq<char> {
    sets[prep[i].0].form_fold@
}

/// The ranks of the pages, as a function.
pub open spec fn key_fn(
    sets: Seq<SetSummary>,
    rows: Seq<OfficialRow>,
    prep: Seq<(int, Option<int>)>,
) -> spec_fn(int) -> int {
    |x: int| rank_key(sets, rows, prep, x)
}

/// `s` (ordered by descending key) with `i` inserted after every element
/// whose key is at least `i`'s: a stable descending insertion.
pub open spec fn ins(s: Seq<int>, i: int, key: spec_fn(int) -> int) -> Seq<int>
    decreases s.len(),
{
    if s.len() == 0 {
        seq![i]
    } else if key(s[0]) >= key(i) {
        seq![s[0]] + ins(s.skip(1), i, key)
    } else {
        seq![i] + s
    }
}

/// The pages among the first `n` whose folded form is `f`, in descending
/// rank, ties in page order.
pub open spec fn group_upto(
    sets: Seq<SetSummary>,
    rows: Seq<OfficialRow>,
    prep: Seq<(int, Option<int>)>,
    f: Seq<char>,
    n: int,
) -> Seq<int>
    decreases n,
{
    if n <= 0 {
        Seq::empty()
    } else {
        let g = group_upto(sets, rows, prep, f, n - 1);
        if page_fold(sets, prep, n - 1) == f {
            ins(g, n - 1, key_fn(sets, rows, prep))
        } else {
            g
        }
    }
}

/// Whether two token lists share a token.
pub open spec fn shares(kept: Seq<Seq<char>>, gl: Seq<Seq<char>>) -> bool {
    exists|t: int| 0 <= t < gl.len() && kept.contains(#[trigger] gl[t])
}

/// The pages kept after the first `t` pages of a group's order.
pub open spec fn kept_upto(
    sets: Seq<SetSummary>,
    rows: Seq<OfficialRow>,
    prep: Seq<(int, Option<int>)>,
    order: Seq<int>,
    t: int,
) -> Seq<int>
    decreases t,
{
    if t <= 0 {
        Seq::empty()
    } else {
        let k = kept_upto(sets, rows, prep, order, t - 1);
        if sup_with(sets, rows, prep, k, order[t - 1]) {
            k
        } else {
            k.push(order[t - 1])
        }
    }
}

/// Whether page `x` is suppressed by the pages `kept` before it: its gloss
/// is not empty and shares a token with one of theirs.
pub open spec fn sup_with(
    sets: Seq<SetSummary>,
    rows: Seq<OfficialRow>,
    prep: Seq<(int, Option<int>)>,
    kept: Seq<int>,
    x: int,
) -> bool {
    let g = page_gloss(sets, rows, prep, x);
    g.len() > 0 && exists|u: int|
        0 <= u < kept.len() && shares(#[trigger] page_gloss(sets, rows, prep, kept[u]), g)
}

/// Whether page `i` is suppressed: a stronger page of its folded-form
/// group already shares a gloss token with it.
pub open spec fn suppressed_spec(
    sets: Seq<SetSummary>,
    rows: Seq<OfficialRow>,
    prep: Seq<(int, Option<int>)>,
    i: int,
) -> bool {
    let order = group_upto(sets, rows, prep, page_fold(sets, prep, i), prep.len() as int);
    exists|t: int|
        0 <= t < order.len() && order[t] == i && sup_with(
            sets,
            rows,
            prep,
            kept_upto(sets, rows, prep, order, t),
            i,
        )
}

/// What an insertion holds.
proof fn lemma_ins_contents(s: Seq<int>, i: int, key: spec_fn(int) -> int)
    ensures
        ins(s, i, key).len() == s.len() + 1,
        forall|x: int| #[trigger] ins(s, i, key).contains(x) <==> (s.contains(x) || x == i),
        s.no_duplicates() && !s.contains(i) ==> ins(s, i, key).no_duplicates(),
    decreases s.len(),
{
    let r = ins(s, i, key);
    if s.len() == 0 {
        assert(r =~= seq![i]);
        assert forall|x: int| r.contains(x) implies (s.contains(x) || x == i) by {
            let k = choose|k: int| 0 <= k < r.len() && r[k] == x;
            assert(k == 0);
        }
        assert forall|x: int| (s.contains(x) || x == i) implies r.contains(x) by {
            if s.contains(x) {
                let k = choose|k: int| 0 <= k < s.len() && s[k] == x;
            }
            assert(r[0] == i);
        }
    } else if key(s[0]) >= key(i) {
        let t = s.skip(1);
        lemma_ins_contents(t, i, key);
        let rt = ins(t, i, key);
        assert(r =~= seq![s[0]] + rt);
        assert forall|x: int| r.contains(x) <==> (s.contains(x) || x == i) by {
            if r.contains(x) {
                let k = choose|k: int| 0 <= k < r.len() && r[k] == x;
                if k > 0 {
                    assert(rt[k - 1] == x);
                    assert(rt.contains(x));
                    if t.contains(x) {
                        let q = choose|q: int| 0 <= q < t.len() && t[q] == x;
                        assert(s[q + 1] == x);
                    }
                } else {
                    assert(s[0] == x);
                }
            }
            if s.contains(x) {
                let q = choose|q: int| 0 <= q < s.len() && s[q] == x;
                if q == 0 {
                    assert(r[0] == x);
                } else {
                    assert(t[q - 1] == x);
                    assert(t.contains(x));
                    assert(rt.contains(x));
                    let k = choose|k: int| 0 <= k < rt.len() && rt[k] == x;
                    assert(r[k + 1] == x);
                }
            }
            if x == i {
                assert(rt.contains(x));
                let k = choose|k: int| 0 <= k < rt.len() && rt[k] == x;
                assert(r[k + 1] == x);
            }
        }
        if s.no_duplicates() && !s.contains(i) {
            assert(t.no_duplicates()) by {
                assert forall|a: int, b: int| 0 <= a < t.len() && 0 <= b < t.len() && a != b implies t[a] != t[b] by {
                    assert(t[a] == s[a + 1] && t[b] == s[b + 1]);
                }
            }
            assert(!t.contains(i)) by {
                if t.contains(i) {
                    let q = choose|q: int| 0 <= q < t.len() && t[q] == i;
                    assert(s[q + 1] == i);
                }
            }
            assert(!rt.contains(s[0])) by {
                if rt.contains(s[0]) {
                    if t.contains(s[0]) {
                        let q = choose|q: int| 0 <= q < t.len() && t[q] == s[0];
                        assert(s[q + 1] == s[0]);
                    } else {
                        assert(s[0] == i);
                        assert(s.contains(i)) by {
                            assert(s[0] == i);
                        }
                    }
                }
            }
            assert forall|a: int, b: int| 0 <= a < r.len() && 0 <= b < r.len() && a != b implies r[a] != r[b] by {
                if a == 0 && b > 0 {
                    assert(r[b] == rt[b - 1]);
                    if r[a] == r[b] {
                        assert(rt.contains(s[0]));
                    }
                } else if b == 0 && a > 0 {
                    assert(r[a] == rt[a - 1]);
                    if r[a] == r[b] {
                        assert(rt.contains(s[0]));
                    }
                } else if a > 0 && b > 0 {
                    assert(r[a] == rt[a - 1] && r[b] == rt[b - 1]);
                }
            }
        }
    } else {
        assert(r =~= seq![i] + s);
        assert forall|x: int| r.contains(x) <==> (s.contains(x) || x == i) by {
            if r.contains(x) {
                let k = choose|k: int| 0 <= k < r.len() && r[k] == x;
                if k > 0 {
                    assert(s[k - 1] == x);
                }
            }
            if s.contains(x) {
                let q = choose|q: int| 0 <= q < s.len() && s[q] == x;
                assert(r[q + 1] == x);
            }
            if x == i {
                assert(r[0] == x);
            }
        }
        if s.no_duplicates() && !s.contains(i) {
            assert forall|a: int, b: int| 0 <= a < r.len() && 0 <= b < r.len() && a != b implies r[a] != r[b] by {
                if a == 0 {
                    assert(r[b] == s[b - 1]);
                } else if b == 0 {
                    assert(r[a] == s[a - 1]);
                } else {
                    assert(r[a] == s[a - 1] && r[b] == s[b - 1]);
                }
            }
        }
    }
}

/// An insertion at the first position whose key is below `i`'s.
proof fn lemma_ins_at(s: Seq<int>, i: int, key: spec_fn(int) -> int, p: int)
    requires
        0 <= p <= s.len(),
        forall|q: int| 0 <= q < p ==> key(#[trigger] s[q]) >= key(i),
        p < s.len() ==> key(s[p]) < key(i),
    ensures
        ins(s, i, key) == s.take(p) + seq![i] + s.skip(p),
    decreases p,
{
    if p == 0 {
        if s.len() == 0 {
            assert(s.take(0) + seq![i] + s.skip(0) =~= seq![i]);
        } else {
            assert(s.take(0) + seq![i] + s.skip(0) =~= seq![i] + s);
        }
    } else {
        let t = s.skip(1);
        assert(key(s[0]) >= key(i));
        assert forall|q: int| 0 <= q < p - 1 implies key(#[trigger] t[q]) >= key(i) by {
            assert(t[q] == s[q + 1]);
        }
        if p - 1 < t.len() {
            assert(t[p - 1] == s[p]);
        }
        lemma_ins_at(t, i, key, p - 1);
        assert(seq![s[0]] + (t.take(p - 1) + seq![i] + t.skip(p - 1)) =~= s.take(p) + seq![i] + s.skip(p));
    }
}

/// What a group holds: exactly the pages below `n` with folded form `f`,
/// each once.
proof fn lemma_group_contents(
    sets: Seq<SetSummary>,
    rows: Seq<OfficialRow>,
    prep: Seq<(int, Option<int>)>,
    f: Seq<char>,
    n: int,
)
    ensures
        forall|x: int|
            #[trigger] group_upto(sets, rows, prep, f, n).contains(x) <==> (0 <= x < n && page_fold(sets, prep, x)
                == f),
        group_upto(sets, rows, prep, f, n).no_duplicates(),
    decreases n,
{
    if n > 0 {
        lemma_group_contents(sets, rows, prep, f, n - 1);
        let g = group_upto(sets, rows, prep, f, n - 1);
        if page_fold(sets, prep, n - 1) == f {
            lemma_ins_contents(g, n - 1, key_fn(sets, rows, prep));
        }
    } else {
        assert forall|x: int| !group_upto(sets, rows, prep, f, n).contains(x) by {}
    }
}


/// Indices over plain values.
pub open spec fn ints(v: Seq<usize>) -> Seq<int> {
    v.map_values(|x: usize| x as int)
}

/// Whether a page before `i` has page `k`'s folded form.
pub open spec fn earlier(sets: Seq<SetSummary>, prep: Seq<(int, Option<int>)>, i: int, k: int) -> bool {
    exists|j: int| 0 <= j < i && #[trigger] page_fold(sets, prep, j) == page_fold(sets, prep, k)
}

/// A group below a page that starts it is empty.
proof fn lemma_group_empty_below(
    sets: Seq<SetSummary>,
    rows: Seq<OfficialRow>,
    prep: Seq<(int, Option<int>)>,
    f: Seq<char>,
    n: int,
)
    requires
        forall|j: int| 0 <= j < n ==> page_fold(sets, prep, j) != f,
    ensures
        group_upto(sets, rows, prep, f, n) == Seq::<int>::empty(),
    decreases n,
{
    if n > 0 {
        lemma_group_empty_below(sets, rows, prep, f, n - 1);
    }
}

/// The gloss tokens a page is compared by.
fn gloss_ref<'a>(
    sets: &'a Vec<SetSummary>,
    rows: &'a Vec<OfficialRow>,
    prep: &Vec<Prep>,
    fm: &Vec<Option<usize>>,
    x: usize,
) -> (g: &'a Vec<String>)
    requires
        x < prep@.len(),
        fm@.len() == prep@.len(),
        prep@[x as int].set < sets@.len(),
        match fm@[x as int] {
            Some(r) => r < rows@.len(),
            None => true,
        },
    ensures
        sv(g@) == match fm@[x as int] {
            Some(r) => sv(rows@[r as int].english_tokens@),
            None => sv(sets@[prep@[x as int].set as int].gloss_tokens@),
        },
{
    match fm[x] {
        Some(r) => &rows[r].english_tokens,
        None => &sets[prep[x].set].gloss_tokens,
    }
}

/// Whether `kept` (a token list) holds one of the tokens of `g`.
fn shares_exec(kept: &Vec<String>, g: &Vec<String>) -> (b: bool)
    ensures
        b == shares(sv(kept@), sv(g@)),
{
    let mut t: usize = 0;
    while t < g.len()
        invariant
            t <= g@.len(),
            forall|u: int| 0 <= u < t ==> !sv(kept@).contains(#[trigger] sv(g@)[u]),
        decreases g@.len() - t,
    {
        if contains_string(kept, g[t].as_str()) {
            assert(sv(g@)[t as int] == g@[t as int]@);
            return true;
        }
        assert(sv(g@)[t as int] == g@[t as int]@);
        t += 1;
    }
    false
}

/// The pages of folded form `f`, in descending rank, ties in page order;
/// no page before `i` has that form.
fn group_order(
    sets: &Vec<SetSummary>,
    prep: &Vec<Prep>,
    keys: &Vec<i64>,
    f: &String,
    i: usize,
    Ghost(rows): Ghost<Seq<OfficialRow>>,
    Ghost(pv): Ghost<Seq<(int, Option<int>)>>,
) -> (order: Vec<usize>)
    requires
        pv == preps_view(prep@),
        i <= prep@.len(),
        keys@.len() == prep@.len(),
        forall|k: int| 0 <= k < prep@.len() ==> (#[trigger] prep@[k]).set < sets@.len(),
        forall|j: int| 0 <= j < prep@.len() ==> keys@[j] == rank_key(sets@, rows, pv, j),
        forall|j: int| 0 <= j < i ==> page_fold(sets@, pv, j) != f@,
    ensures
        ints(order@) == group_upto(sets@, rows, pv, f@, prep@.len() as int),
        forall|x: int| 0 <= x < order@.len() ==> #[trigger] order@[x] < prep@.len(),
{
    let n = prep.len();
    proof {
        lemma_group_empty_below(sets@, rows, pv, f@, i as int);
    }
    let mut order: Vec<usize> = Vec::new();
    let mut j: usize = i;
    assert(ints(order@) =~= Seq::<int>::empty());
    while j < n
        invariant
            i <= j <= n == prep@.len() == keys@.len(),
            pv == preps_view(prep@),
            forall|k: int| 0 <= k < prep@.len() ==> (#[trigger] prep@[k]).set < sets@.len(),
            forall|jj: int| 0 <= jj < n ==> keys@[jj] == rank_key(sets@, rows, pv, jj),
            forall|x: int| 0 <= x < order@.len() ==> #[trigger] order@[x] < j,
            ints(order@) == group_upto(sets@, rows, pv, f@, j as int),
        decreases n - j,
    {
        assert(pv[j as int].0 == prep@[j as int].set as int);
        if str_eq(sets[prep[j].set].form_fold.as_str(), f.as_str()) {
            let mut p: usize = 0;
            while p < order.len() && keys[order[p]] >= keys[j]
                invariant
                    p <= order@.len(),
                    forall|x: int| 0 <= x < order@.len() ==> #[trigger] order@[x] < j,
                    j < n == keys@.len(),
                    forall|q: int| 0 <= q < p ==> keys@[(#[trigger] order@[q]) as int] >= keys@[j as int],
                decreases order@.len() - p,
            {
                p += 1;
            }
            proof {
                let key = key_fn(sets@, rows, pv);
                let s0 = ints(order@);
                assert forall|q: int| 0 <= q < p implies key(#[trigger] s0[q]) >= key(j as int) by {
                    assert(s0[q] == order@[q] as int);
                    assert(keys@[order@[q] as int] >= keys@[j as int]);
                }
                if p < order@.len() {
                    assert(s0[p as int] == order@[p as int] as int);
                }
                lemma_ins_at(s0, j as int, key, p as int);
            }
            let ghost before = order@;
            order.insert(p, j);
            assert(ints(order@) =~= ints(before).take(p as int) + seq![j as int] + ints(before).skip(p as int));
            assert forall|x: int| 0 <= x < order@.len() implies #[trigger] order@[x] < j + 1 by {
                if x < p {
                    assert(order@[x] == before[x]);
                } else if x > p {
                    assert(order@[x] == before[x - 1]);
                }
            }
        }
        j += 1;
    }
    order
}

/// For each page of a group's order, whether the pages kept before it
/// suppress it.
fn group_flags(
    sets: &Vec<SetSummary>,
    rows: &Vec<OfficialRow>,
    prep: &Vec<Prep>,
    fm: &Vec<Option<usize>>,
    order: &Vec<usize>,
) -> (flags: Vec<bool>)
    requires
        fm@.len() == prep@.len(),
        forall|x: int| 0 <= x < order@.len() ==> #[trigger] order@[x] < prep@.len(),
        forall|k: int| 0 <= k < prep@.len() ==> (#[trigger] prep@[k]).set < sets@.len(),
        forall|i: int|
            0 <= i < fm@.len() ==> match #[trigger] fm@[i] {
                Some(x) => x < rows@.len(),
                None => true,
            },
        forall|i: int|
            0 <= i < fm@.len() ==> match #[trigger] fm@[i] {
                Some(k) => final_match(sets@, rows@, preps_view(prep@), i) == Some(k as int),
                None => final_match(sets@, rows@, preps_view(prep@), i) is None,
            },
    ensures
        flags@.len() == order@.len(),
        forall|t: int|
            0 <= t < order@.len() ==> #[trigger] flags@[t] == sup_with(
                sets@,
                rows@,
                preps_view(prep@),
                kept_upto(sets@, rows@, preps_view(prep@), ints(order@), t),
                order@[t] as int,
            ),
{
    let ghost pv = preps_view(prep@);
    let ghost ov = ints(order@);
    let mut flags: Vec<bool> = Vec::new();
    let mut kept: Vec<usize> = Vec::new();
    let mut t: usize = 0;
    assert(ints(kept@) =~= kept_upto(sets@, rows@, pv, ov, 0));
    while t < order.len()
        invariant
            t <= order@.len(),
            flags@.len() == t,
            ov == ints(order@),
            pv == preps_view(prep@),
            fm@.len() == prep@.len(),
            forall|x: int| 0 <= x < order@.len() ==> #[trigger] order@[x] < prep@.len(),
            forall|k: int| 0 <= k < prep@.len() ==> (#[trigger] prep@[k]).set < sets@.len(),
            forall|i: int|
                0 <= i < fm@.len() ==> match #[trigger] fm@[i] {
                    Some(x) => x < rows@.len(),
                    None => true,
                },
            forall|i: int|
                0 <= i < fm@.len() ==> match #[trigger] fm@[i] {
                    Some(k) => final_match(sets@, rows@, pv, i) == Some(k as int),
                    None => final_match(sets@, rows@, pv, i) is None,
                },
            ints(kept@) == kept_upto(sets@, rows@, pv, ov, t as int),
            forall|x: int| 0 <= x < kept@.len() ==> #[trigger] kept@[x] < prep@.len(),
            forall|u: int|
                0 <= u < t ==> #[trigger] flags@[u] == sup_with(
                    sets@,
                    rows@,
                    pv,
                    kept_upto(sets@, rows@, pv, ov, u),
                    ov[u],
                ),
        decreases order@.len() - t,
    {
        let x = order[t];
        assert(ov[t as int] == x as int);
        let g = gloss_ref(sets, rows, prep, fm, x);
        assert(sv(g@) == page_gloss(sets@, rows@, pv, x as int)) by {
            assert(pv[x as int].0 == prep@[x as int].set as int);
        }
        let ghost kv = ints(kept@);
        let mut hit = false;
        let mut u: usize = 0;
        while u < kept.len() && !hit
            invariant
                u <= kept@.len(),
                kv == ints(kept@),
                pv == preps_view(prep@),
                fm@.len() == prep@.len(),
                forall|x: int| 0 <= x < kept@.len() ==> #[trigger] kept@[x] < prep@.len(),
                forall|k: int| 0 <= k < prep@.len() ==> (#[trigger] prep@[k]).set < sets@.len(),
                forall|i: int|
                    0 <= i < fm@.len() ==> match #[trigger] fm@[i] {
                        Some(x) => x < rows@.len(),
                        None => true,
                    },
                forall|i: int|
                    0 <= i < fm@.len() ==> match #[trigger] fm@[i] {
                        Some(k) => final_match(sets@, rows@, pv, i) == Some(k as int),
                        None => final_match(sets@, rows@, pv, i) is None,
                    },
                hit ==> exists|w: int|
                    0 <= w < kv.len() && shares(#[trigger] page_gloss(sets@, rows@, pv, kv[w]), sv(g@)),
                !hit ==> forall|w: int|
                    0 <= w < u ==> !shares(#[trigger] page_gloss(sets@, rows@, pv, kv[w]), sv(g@)),
            decreases kept@.len() - u,
        {
            let kg = gloss_ref(sets, rows, prep, fm, kept[u]);
            assert(kv[u as int] == kept@[u as int] as int);
            assert(sv(kg@) == page_gloss(sets@, rows@, pv, kv[u as int])) by {
                assert(pv[kept@[u as int] as int].0 == prep@[kept@[u as int] as int].set as int);
            }
            if shares_exec(kg, g) {
                hit = true;
            }
            u += 1;
        }
        let is_sup = !g.is_empty() && hit;
        assert(is_sup == sup_with(sets@, rows@, pv, kv, x as int));
        flags.push(is_sup);
        if !is_sup {
            kept.push(x);
        }
        assert(ints(kept@) =~= kept_upto(sets@, rows@, pv, ov, t + 1));
        t += 1;
    }
    flags
}

/// Marks the pages that a stronger page of their folded-form group
/// suppresses.
pub fn suppress_pages(
    sets: &Vec<SetSummary>,
    rows: &Vec<OfficialRow>,
    prep: &Vec<Prep>,
    fm: &Vec<Option<usize>>,
) -> (sup: Vec<bool>)
    requires
        fm@.len() == prep@.len(),
        forall|k: int| 0 <= k < prep@.len() ==> (#[trigger] prep@[k]).set < sets@.len(),
        forall|i: int|
            0 <= i < fm@.len() ==> match #[trigger] fm@[i] {
                Some(x) => x < rows@.len(),
                None => true,
            },
        forall|i: int|
            0 <= i < fm@.len() ==> match #[trigger] fm@[i] {
                Some(k) => final_match(sets@, rows@, preps_view(prep@), i) == Some(k as int),
                None => final_match(sets@, rows@, preps_view(prep@), i) is None,
            },
    ensures
        sup@.len() == prep@.len(),
        forall|i: int|
            0 <= i < sup@.len() ==> #[trigger] sup@[i] == suppressed_spec(sets@, rows@, preps_view(prep@), i),
{
    let ghost pv = preps_view(prep@);
    let n = prep.len();
    let mut keys: Vec<i64> = Vec::new();
    let mut k: usize = 0;
    while k < n
        invariant
            k <= n == prep@.len() == fm@.len(),
            pv == preps_view(prep@),
            keys@.len() == k,
            forall|k: int| 0 <= k < prep@.len() ==> (#[trigger] prep@[k]).set < sets@.len(),
            forall|i: int|
                0 <= i < fm@.len() ==> match #[trigger] fm@[i] {
                    Some(k) => final_match(sets@, rows@, pv, i) == Some(k as int),
                    None => final_match(sets@, rows@, pv, i) is None,
                },
            forall|j: int| 0 <= j < k ==> keys@[j] == rank_key(sets@, rows@, pv, j),
        decreases n - k,
    {
        let sc = sets[prep[k].set].score_key as i64;
        assert(pv[k as int].0 == prep@[k as int].set as int);
        let v: i64 = if fm[k].is_some() { sc + 0x2_0000_0000 } else { sc };
        keys.push(v);
        k += 1;
    }
    let mut done: Vec<bool> = Vec::new();
    let mut sup: Vec<bool> = Vec::new();
    let mut k: usize = 0;
    while k < n
        invariant
            k <= n,
            done@.len() == k,
            sup@.len() == k,
            forall|j: int| 0 <= j < k ==> !done@[j] && !sup@[j],
        decreases n - k,
    {
        done.push(false);
        sup.push(false);
        k += 1;
    }
    let mut i: usize = 0;
    while i < n
        invariant
            i <= n == prep@.len() == fm@.len(),
            pv == preps_view(prep@),
            done@.len() == n,
            sup@.len() == n,
            keys@.len() == n,
            forall|k: int| 0 <= k < prep@.len() ==> (#[trigger] prep@[k]).set < sets@.len(),
            forall|i: int|
                0 <= i < fm@.len() ==> match #[trigger] fm@[i] {
                    Some(x) => x < rows@.len(),
                    None => true,
                },
            forall|i: int|
                0 <= i < fm@.len() ==> match #[trigger] fm@[i] {
                    Some(k) => final_match(sets@, rows@, pv, i) == Some(k as int),
                    None => final_match(sets@, rows@, pv, i) is None,
                },
            forall|j: int| 0 <= j < n ==> keys@[j] == rank_key(sets@, rows@, pv, j),
            forall|k: int| 0 <= k < n ==> (#[trigger] done@[k] <==> earlier(sets@, pv, i as int, k)),
            forall|k: int| 0 <= k < n && !done@[k] ==> !#[trigger] sup@[k],
            forall|k: int|
                0 <= k < n && done@[k] ==> #[trigger] sup@[k] == suppressed_spec(sets@, rows@, pv, k),
        decreases n - i,
    {
        assert(pv[i as int].0 == prep@[i as int].set as int);
        if !done[i] {
            let f = &sets[prep[i].set].form_fold;
            let ghost fv = f@;
            assert(page_fold(sets@, pv, i as int) == fv);
            assert forall|j: int| 0 <= j < i implies page_fold(sets@, pv, j) != fv by {
                if page_fold(sets@, pv, j) == fv {
                    assert(earlier(sets@, pv, i as int, i as int));
                }
            }
            let order = group_order(sets, prep, &keys, f, i, Ghost(rows@), Ghost(pv));
            let flags = group_flags(sets, rows, prep, fm, &order);
            let ghost ov = ints(order@);
            proof {
                lemma_group_contents(sets@, rows@, pv, fv, n as int);
            }
            let ghost d0 = done@;
            let ghost s0 = sup@;
            let mut t: usize = 0;
            while t < order.len()
                invariant
                    t <= order@.len() == flags@.len(),
                    ov == ints(order@),
                    ov.no_duplicates(),
                    forall|x: int| 0 <= x < order@.len() ==> #[trigger] order@[x] < n,
                    done@.len() == n,
                    sup@.len() == n,
                    forall|u: int| #![trigger ov[u]] 0 <= u < t ==> done@[ov[u]] && sup@[ov[u]] == flags@[u],
                    forall|k: int|
                        #![trigger d0[k]]
                        0 <= k < n && !ov.take(t as int).contains(k) ==> done@[k] == d0[k] && sup@[k] == s0[k],
                decreases order@.len() - t,
            {
                let x = order[t];
                assert(ov[t as int] == x as int);
                let ghost dprev = done@;
                let ghost sprev = sup@;
                done.set(x, true);
                sup.set(x, flags[t]);
                assert forall|u: int| #![trigger ov[u]] 0 <= u < t + 1 implies done@[ov[u]] && sup@[ov[u]] == flags@[u] by {
                    assert(ov[u] == order@[u] as int);
                    assert(order@[u] < n);
                    if u < t {
                        assert(ov[u] != ov[t as int]);
                        assert(dprev[ov[u]] && sprev[ov[u]] == flags@[u]);
                    }
                }
                assert forall|k: int| #![trigger d0[k]] 0 <= k < n && !ov.take(t + 1).contains(k) implies done@[k] == d0[k]
                    && sup@[k] == s0[k] by {
                    assert(ov.take(t + 1)[t as int] == ov[t as int]);
                    assert(k != x);
                    assert(!ov.take(t as int).contains(k)) by {
                        if ov.take(t as int).contains(k) {
                            let w = choose|w: int| 0 <= w < t && ov.take(t as int)[w] == k;
                            assert(ov.take(t + 1)[w] == k);
                        }
                    }
                    assert(0 <= k < n);
                    assert(d0[k] == d0[k]);
                    assert(dprev[k] == d0[k]);
                    assert(sprev[k] == s0[k]);
                    if ov.take(t as int).contains(k) {
                        let w = choose|w: int| 0 <= w < t && ov.take(t as int)[w] == k;
                        assert(ov.take(t + 1)[w] == k);
                    }
                }
                t += 1;
            }
            assert(ov.take(ov.len() as int) =~= ov);
            proof {
                assert forall|k: int| 0 <= k < n implies (#[trigger] done@[k] <==> earlier(sets@, pv, i + 1, k)) by {
                    if ov.contains(k) {
                        let w = choose|w: int| 0 <= w < ov.len() && ov[w] == k;
                        assert(done@[ov[w]]);
                        assert(page_fold(sets@, pv, k) == fv);
                        assert(earlier(sets@, pv, i + 1, k)) by {
                            assert(page_fold(sets@, pv, i as int) == page_fold(sets@, pv, k));
                        }
                    } else {
                        assert(page_fold(sets@, pv, k) != fv);
                        assert(d0[k] == d0[k]);
                        assert(done@[k] == d0[k]);
                        if earlier(sets@, pv, i + 1, k) {
                            let j = choose|j: int| 0 <= j < i + 1 && #[trigger] page_fold(sets@, pv, j) == page_fold(sets@, pv, k);
                            assert(j != i);
                            assert(earlier(sets@, pv, i as int, k));
                        }
                        if earlier(sets@, pv, i as int, k) {
                            let j = choose|j: int| 0 <= j < i && #[trigger] page_fold(sets@, pv, j) == page_fold(sets@, pv, k);
                            assert(earlier(sets@, pv, i + 1, k));
                        }
                    }
                }
                assert forall|k: int| 0 <= k < n && !done@[k] implies !#[trigger] sup@[k] by {
                    if ov.contains(k) {
                        let w = choose|w: int| 0 <= w < ov.len() && ov[w] == k;
                        assert(done@[ov[w]]);
                    } else {
                        assert(d0[k] == d0[k]);
                        assert(done@[k] == d0[k] && sup@[k] == s0[k]);
                    }
                }
                assert forall|k: int| 0 <= k < n && done@[k] implies #[trigger] sup@[k] == suppressed_spec(sets@, rows@, pv, k) by {
                    if !ov.contains(k) {
                        assert(d0[k] == d0[k]);
                        assert(done@[k] == d0[k] && sup@[k] == s0[k]);
                    }
                    if ov.contains(k) {
                        let w = choose|w: int| 0 <= w < ov.len() && ov[w] == k;
                        assert(sup@[ov[w]] == flags@[w]);
                        assert(page_fold(sets@, pv, k) == fv);
                        let kp = kept_upto(sets@, rows@, pv, ov, w);
                        if sup_with(sets@, rows@, pv, kp, k) {
                            assert(suppressed_spec(sets@, rows@, pv, k));
                        }
                        if suppressed_spec(sets@, rows@, pv, k) {
                            let w2 = choose|w2: int| 0 <= w2 < ov.len() && ov[w2] == k && sup_with(
                                sets@,
                                rows@,
                                pv,
                                kept_upto(sets@, rows@, pv, ov, w2),
                                k,
                            );
                            assert(w2 == w);
                        }
                    }
                }
            }
        } else {
            proof {
                assert forall|k: int| 0 <= k < n implies (#[trigger] done@[k] <==> earlier(sets@, pv, i + 1, k)) by {
                    if earlier(sets@, pv, i + 1, k) {
                        let j = choose|j: int| 0 <= j < i + 1 && #[trigger] page_fold(sets@, pv, j) == page_fold(sets@, pv, k);
                        if j == i {
                            let j2 = choose|j2: int| 0 <= j2 < i && #[trigger] page_fold(sets@, pv, j2) == page_fold(sets@, pv, i as int);
                            assert(page_fold(sets@, pv, j2) == page_fold(sets@, pv, k));
                            assert(earlier(sets@, pv, i as int, k));
                        } else {
                            assert(earlier(sets@, pv, i as int, k));
                        }
                    }
                    if earlier(sets@, pv, i as int, k) {
                        let j = choose|j: int| 0 <= j < i && #[trigger] page_fold(sets@, pv, j) == page_fold(sets@, pv, k);
                        assert(earlier(sets@, pv, i + 1, k));
                    }
                }
            }
        }
        i += 1;
    }
    proof {
        assert forall|k: int| 0 <= k < n implies done@[k] by {
            assert(earlier(sets@, pv, n as int, k)) by {
                assert(page_fold(sets@, pv, k) == page_fold(sets@, pv, k));
            }
        }
    }
    sup
}


/// The fold page `i` is found under: its official row's when it shows
/// one, else its own form's.
pub open spec fn display_fold(
    sets: Seq<SetSummary>,
    rows: Seq<OfficialRow>,
    prep: Seq<(int, Option<int>)>,
    i: int,
) -> Seq<char> {
    match final_match(sets, rows, prep, i) {
        Some(r) => rows[r].fold@,
        None => sets[prep[i].0].form_fold@,
    }
}

/// The headword index after the first `n` pages: each surviving page's
/// display fold names its id unless an earlier page already claimed it.
pub open spec fn gen_index(
    sets: Seq<SetSummary>,
    rows: Seq<OfficialRow>,
    prep: Seq<(int, Option<int>)>,
    n: int,
) -> Seq<(Seq<char>, usize)>
    decreases n,
{
    if n <= 0 {
        Seq::empty()
    } else {
        let pre = gen_index(sets, rows, prep, n - 1);
        let i = n - 1;
        if !suppressed_spec(sets, rows, prep, i) && index_lookup(pre, display_fold(sets, rows, prep, i)) is None {
            pre.push((display_fold(sets, rows, prep, i), (i + 1) as usize))
        } else {
            pre
        }
    }
}

/// The member words of page `i`, each pointing at the page.
pub open spec fn member_links(sets: Seq<SetSummary>, prep: Seq<(int, Option<int>)>, i: int) -> Seq<
    (Seq<char>, Seq<char>, usize),
> {
    sets[prep[i].0].members@.map_values(|m: (String, String)| (m.0@, m.1@, (i + 1) as usize))
}

/// The cognate cross-reference after the first `n` pages: every member word
/// of every surviving page.
pub open spec fn gen_xref(
    sets: Seq<SetSummary>,
    rows: Seq<OfficialRow>,
    prep: Seq<(int, Option<int>)>,
    n: int,
) -> Seq<(Seq<char>, Seq<char>, usize)>
    decreases n,
{
    if n <= 0 {
        Seq::empty()
    } else {
        let pre = gen_xref(sets, rows, prep, n - 1);
        if !suppressed_spec(sets, rows, prep, n - 1) {
            pre + member_links(sets, prep, n - 1)
        } else {
            pre
        }
    }
}

/// The number of surviving pages among the first `n`.
pub open spec fn surviving(
    sets: Seq<SetSummary>,
    rows: Seq<OfficialRow>,
    prep: Seq<(int, Option<int>)>,
    n: int,
) -> int
    decreases n,
{
    if n <= 0 {
        0
    } else {
        surviving(sets, rows, prep, n - 1) + if suppressed_spec(sets, rows, prep, n - 1) { 0int } else { 1int }
    }
}

/// The first five candidate folds of each of the first `n` pages: the folds
/// a generated page covers.
pub open spec fn covered_upto(sets: Seq<SetSummary>, prep: Seq<(int, Option<int>)>, n: int) -> Seq<Seq<char>>
    decreases n,
{
    if n <= 0 {
        Seq::empty()
    } else {
        let c = sv(sets[prep[n - 1].0].candidate_folds@);
        covered_upto(sets, prep, n - 1) + if c.len() <= 5 { c } else { c.take(5) }
    }
}

/// Whether an official row can have a page of its own.
pub open spec fn pageable(r: OfficialRow) -> bool {
    let t = trim_spec(r.isv@);
    t.len() > 0 && !t.contains('#')
}

/// The covered folds and the folds of the official-only pages after the
/// first `k` rows.
pub open spec fn official_only_upto(rows: Seq<OfficialRow>, covered: Seq<Seq<char>>, k: int) -> (
    Seq<Seq<char>>,
    Seq<Seq<char>>,
)
    decreases k,
{
    if k <= 0 {
        (covered, Seq::empty())
    } else {
        let (c, recs) = official_only_upto(rows, covered, k - 1);
        let r = rows[k - 1];
        if pageable(r) && !c.contains(r.fold@) {
            (c.push(r.fold@), recs.push(r.fold@))
        } else {
            (c, recs)
        }
    }
}

/// The headword index after also claiming the official-only pages' folds,
/// ids counting on from `base`.
pub open spec fn only_index(log: Seq<(Seq<char>, usize)>, recs: Seq<Seq<char>>, base: int) -> Seq<
    (Seq<char>, usize),
>
    decreases recs.len(),
{
    if recs.len() == 0 {
        log
    } else {
        let pre = only_index(log, recs.drop_last(), base);
        let f = recs.last();
        if index_lookup(pre, f) is None {
            pre.push((f, (base + recs.len()) as usize))
        } else {
            pre
        }
    }
}

/// The display-headword index and cognate cross-reference of the export.
pub struct RenderIndex {
    /// (lang, member word) → the generated page of its cognate set.
    pub xref: Xref,
    /// Display fold → page id.
    pub isv_to_id: HeadwordIndex,
    /// Generated pages that survive suppression.
    pub generated_pages: usize,
    /// Official lemmas that get a page of their own.
    pub official_only: usize,
}

/// The index the export builds, over plain values.
pub open spec fn render_index_spec(sets: Seq<SetSummary>, rows: Seq<OfficialRow>) -> (
    Seq<(Seq<char>, Seq<char>, usize)>,
    Seq<(Seq<char>, usize)>,
    int,
    int,
) {
    let prep = prepared_spec(sets, rows);
    let n = prep.len() as int;
    let (_, recs) = official_only_upto(rows, covered_upto(sets, prep, n), rows.len() as int);
    (
        gen_xref(sets, rows, prep, n),
        only_index(gen_index(sets, rows, prep, n), recs, n),
        surviving(sets, rows, prep, n),
        recs.len() as int,
    )
}

/// Builds the display-headword index (fold → page id) and the cognate
/// cross-reference (member word → page id) exactly as the export numbers
/// its pages: generated pages first, in set order, then the official
/// lemmas that no candidate covers. Also returns how many generated pages
/// survive and how many official-only pages there are.
pub fn build_corpus_render_index(sets: &Vec<SetSummary>, rows: &Vec<OfficialRow>) -> (r: RenderIndex)
    requires
        sets@.len() + rows@.len() < usize::MAX,
    ensures
        (r.xref@, r.isv_to_id@, r.generated_pages as int, r.official_only as int) == render_index_spec(
            sets@,
            rows@,
        ),
{
    let (prep, fm) = prepare_pages(sets, rows);
    let sup = suppress_pages(sets, rows, &prep, &fm);
    let ghost pv = preps_view(prep@);
    let n = prep.len();
    proof {
        lemma_prepared_len(sets@, rows@);
    }
    let mut xref = Xref::new();
    let mut index = HeadwordIndex::new();
    let mut generated: usize = 0;
    let mut covered: Vec<String> = Vec::new();
    let mut i: usize = 0;
    assert(sv(covered@) =~= covered_upto(sets@, pv, 0));
    while i < n
        invariant
            i <= n == prep@.len() == fm@.len() == sup@.len(),
            n <= sets@.len(),
            pv == preps_view(prep@),
            forall|k: int| 0 <= k < prep@.len() ==> (#[trigger] prep@[k]).set < sets@.len(),
            forall|k: int|
                0 <= k < fm@.len() ==> match #[trigger] fm@[k] {
                    Some(x) => x < rows@.len(),
                    None => true,
                },
            forall|k: int|
                0 <= k < fm@.len() ==> match #[trigger] fm@[k] {
                    Some(x) => final_match(sets@, rows@, pv, k) == Some(x as int),
                    None => final_match(sets@, rows@, pv, k) is None,
                },
            forall|k: int| 0 <= k < sup@.len() ==> #[trigger] sup@[k] == suppressed_spec(sets@, rows@, pv, k),
            xref@ == gen_xref(sets@, rows@, pv, i as int),
            index@ == gen_index(sets@, rows@, pv, i as int),
            generated == surviving(sets@, rows@, pv, i as int),
            generated <= i,
            sv(covered@) == covered_upto(sets@, pv, i as int),
        decreases n - i,
    {
        let set = &sets[prep[i].set];
        assert(pv[i as int].0 == prep@[i as int].set as int);
        if !sup[i] {
            generated += 1;
            let key = match fm[i] {
                Some(r) => &rows[r].fold,
                None => &set.form_fold,
            };
            assert(key@ == display_fold(sets@, rows@, pv, i as int));
            if index.get(key.as_str()).is_none() {
                index.insert(key.as_str(), i + 1);
            }
            let ghost x0 = xref@;
            let mut m: usize = 0;
            while m < set.members.len()
                invariant
                    m <= set.members@.len(),
                    i < n <= sets@.len(),
                    pv[i as int].0 == prep@[i as int].set as int,
                    *set == sets@[prep@[i as int].set as int],
                    xref@ == x0 + member_links(sets@, pv, i as int).take(m as int),
                decreases set.members@.len() - m,
            {
                xref.insert(set.members[m].0.as_str(), set.members[m].1.as_str(), i + 1);
                assert(member_links(sets@, pv, i as int).take(m + 1) =~= member_links(sets@, pv, i as int).take(
                    m as int,
                ).push((set.members@[m as int].0@, set.members@[m as int].1@, (i + 1) as usize)));
                m += 1;
            }
            assert(member_links(sets@, pv, i as int).take(m as int) =~= member_links(sets@, pv, i as int));
        }
        let ghost c0 = sv(covered@);
        let cn: usize = if set.candidate_folds.len() <= 5 { set.candidate_folds.len() } else { 5 };
        let mut c: usize = 0;
        while c < cn
            invariant
                c <= cn <= set.candidate_folds@.len(),
                cn == (if set.candidate_folds@.len() <= 5 { set.candidate_folds@.len() as int } else { 5 }),
                sv(covered@) == c0 + sv(set.candidate_folds@).take(c as int),
            decreases cn - c,
        {
            let ghost before = covered@;
            covered.push(set.candidate_folds[c].clone());
            assert(sv(covered@) =~= sv(before).push(set.candidate_folds@[c as int]@));
            assert(sv(set.candidate_folds@).take(c + 1) =~= sv(set.candidate_folds@).take(c as int).push(
                set.candidate_folds@[c as int]@,
            ));
            assert(sv(covered@) =~= c0 + sv(set.candidate_folds@).take(c + 1));
            c += 1;
        }
        assert(sv(set.candidate_folds@).take(cn as int) =~= (if sv(set.candidate_folds@).len() <= 5 {
            sv(set.candidate_folds@)
        } else {
            sv(set.candidate_folds@).take(5)
        }));
        i += 1;
    }
    let ghost cov0 = sv(covered@);
    let mut recs: Vec<usize> = Vec::new();
    let mut k: usize = 0;
    assert(official_only_upto(rows@, cov0, 0) == (cov0, Seq::<Seq<char>>::empty()));
    while k < rows.len()
        invariant
            k <= rows@.len(),
            official_only_upto(rows@, cov0, k as int).0 == sv(covered@),
            official_only_upto(rows@, cov0, k as int).1 == recs@.map_values(|x: usize| rows@[x as int].fold@),
            recs@.len() <= k,
            forall|j: int| 0 <= j < recs@.len() ==> #[trigger] recs@[j] < rows@.len(),
        decreases rows@.len() - k,
    {
        let row = &rows[k];
        let t = trim(row.isv.as_str());
        let tv = chars_of(t.as_str());
        if !t.as_str().is_empty() && !has_char(&tv, '#') && !contains_string(&covered, row.fold.as_str()) {
            let ghost r0 = recs@;
            covered.push(row.fold.clone());
            recs.push(k);
            assert(recs@.map_values(|x: usize| rows@[x as int].fold@) =~= r0.map_values(
                |x: usize| rows@[x as int].fold@,
            ).push(row.fold@));
        }
        k += 1;
    }
    assert(rows@.take(rows@.len() as int) =~= rows@);
    let ghost rv = recs@.map_values(|x: usize| rows@[x as int].fold@);
    let ghost log0 = index@;
    let mut j: usize = 0;
    assert(rv.take(0) =~= Seq::<Seq<char>>::empty());
    while j < recs.len()
        invariant
            j <= recs@.len() <= rows@.len(),
            n + rows@.len() < usize::MAX,
            rv == recs@.map_values(|x: usize| rows@[x as int].fold@),
            forall|q: int| 0 <= q < recs@.len() ==> #[trigger] recs@[q] < rows@.len(),
            index@ == only_index(log0, rv.take(j as int), n as int),
        decreases recs@.len() - j,
    {
        let f = &rows[recs[j]].fold;
        assert(rv.take(j + 1).drop_last() =~= rv.take(j as int));
        assert(rv.take(j + 1).last() == f@);
        if index.get(f.as_str()).is_none() {
            index.insert(f.as_str(), n + j + 1);
        }
        j += 1;
    }
    assert(rv.take(j as int) =~= rv);
    RenderIndex { xref, isv_to_id: index, generated_pages: generated, official_only: recs.len() }
}

/// There are at most as many pages as sets.
proof fn lemma_prepared_len(sets: Seq<SetSummary>, rows: Seq<OfficialRow>)
    ensures
        prepared_spec(sets, rows).len() <= sets.len(),
    decreases sets.len(),
{
    if sets.len() > 0 {
        lemma_prepared_len(sets.drop_last(), rows);
    }
}

proof fn lemma_gen_xref_ids(sets: Seq<SetSummary>, rows: Seq<OfficialRow>, prep: Seq<(int, Option<int>)>, n: int)
    requires
        0 <= n <= prep.len(),
        n < usize::MAX,
    ensures
        forall|k: int| 0 <= k < gen_xref(sets, rows, prep, n).len() ==> 1 <= (#[trigger] gen_xref(sets, rows, prep, n)[k]).2 <= n,
    decreases n,
{
    if n > 0 {
        lemma_gen_xref_ids(sets, rows, prep, n - 1);
        let pre = gen_xref(sets, rows, prep, n - 1);
        if !suppressed_spec(sets, rows, prep, n - 1) {
            let ml = member_links(sets, prep, n - 1);
            assert forall|k: int| 0 <= k < (pre + ml).len() implies 1 <= (#[trigger] (pre + ml)[k]).2 <= n by {
                if k >= pre.len() {
                    assert((pre + ml)[k] == ml[k - pre.len()]);
                } else {
                    assert((pre + ml)[k] == pre[k]);
                }
            }
        }
    }
}

proof fn lemma_gen_index_ids(sets: Seq<SetSummary>, rows: Seq<OfficialRow>, prep: Seq<(int, Option<int>)>, n: int)
    requires
        0 <= n,
        n < usize::MAX,
    ensures
        forall|k: int| 0 <= k < gen_index(sets, rows, prep, n).len() ==> 1 <= (#[trigger] gen_index(sets, rows, prep, n)[k]).1 <= n,
    decreases n,
{
    if n > 0 {
        lemma_gen_index_ids(sets, rows, prep, n - 1);
        let pre = gen_index(sets, rows, prep, n - 1);
        let x = (display_fold(sets, rows, prep, n - 1), n as usize);
        assert forall|k: int| 0 <= k < pre.push(x).len() implies 1 <= (#[trigger] pre.push(x)[k]).1 <= n by {
            if k < pre.len() {
                assert(pre.push(x)[k] == pre[k]);
            }
        }
    }
}

proof fn lemma_only_index_ids(log: Seq<(Seq<char>, usize)>, recs: Seq<Seq<char>>, base: int)
    requires
        0 <= base,
        base + recs.len() < usize::MAX,
        forall|k: int| 0 <= k < log.len() ==> 1 <= (#[trigger] log[k]).1 <= base,
    ensures
        forall|k: int| 0 <= k < only_index(log, recs, base).len() ==> 1 <= (#[trigger] only_index(log, recs, base)[k]).1 <= base + recs.len(),
    decreases recs.len(),
{
    if recs.len() > 0 {
        lemma_only_index_ids(log, recs.drop_last(), base);
        let pre = only_index(log, recs.drop_last(), base);
        let x = (recs.last(), (base + recs.len()) as usize);
        assert forall|k: int| 0 <= k < pre.push(x).len() implies 1 <= (#[trigger] pre.push(x)[k]).1 <= base + recs.len() by {
            if k < pre.len() {
                assert(pre.push(x)[k] == pre[k]);
            }
        }
    }
}

proof fn lemma_surviving_le(sets: Seq<SetSummary>, rows: Seq<OfficialRow>, prep: Seq<(int, Option<int>)>, n: int)
    requires
        0 <= n,
    ensures
        0 <= surviving(sets, rows, prep, n) <= n,
    decreases n,
{
    if n > 0 {
        lemma_surviving_le(sets, rows, prep, n - 1);
    }
}

/// How many of the first `k` official rows can have a page of their own
/// (a non-empty trimmed headword without `#`).
pub open spec fn pageable_rows(rows: Seq<OfficialRow>, k: int) -> int
    decreases k,
{
    if k <= 0 {
        0
    } else {
        pageable_rows(rows, k - 1) + if pageable(rows[k - 1]) { 1int } else { 0int }
    }
}

proof fn lemma_official_only_len(rows: Seq<OfficialRow>, covered: Seq<Seq<char>>, k: int)
    requires
        0 <= k <= rows.len(),
    ensures
        official_only_upto(rows, covered, k).1.len() <= pageable_rows(rows, k) <= k,
    decreases k,
{
    if k > 0 {
        lemma_official_only_len(rows, covered, k - 1);
    }
}

/// The export numbers its pages 1 to N + O: the N generated pages first
/// (at most one per cognate set, of which G survive), then the O official
/// lemmas that get a page of their own (at most one per official row whose
/// trimmed headword is non-empty and has no `#`).
/// Every page id the cognate cross-reference records is a generated page's,
/// and every page id the headword index records lies in 1 to N + O.
pub proof fn lemma_render_ids_in_range(sets: Seq<SetSummary>, rows: Seq<OfficialRow>)
    requires
        sets.len() + rows.len() < usize::MAX,
    ensures
        ({
            let (xref, index, g, o) = render_index_spec(sets, rows);
            let n = prepared_spec(sets, rows).len() as int;
            &&& n <= sets.len()
            &&& 0 <= g <= n
            &&& 0 <= o <= pageable_rows(rows, rows.len() as int) <= rows.len()
            &&& forall|k: int| 0 <= k < xref.len() ==> 1 <= (#[trigger] xref[k]).2 <= n
            &&& forall|k: int| 0 <= k < index.len() ==> 1 <= (#[trigger] index[k]).1 <= n + o
        }),
{
    let prep = prepared_spec(sets, rows);
    let n = prep.len() as int;
    lemma_prepared_len(sets, rows);
    let (_, recs) = official_only_upto(rows, covered_upto(sets, prep, n), rows.len() as int);
    lemma_official_only_len(rows, covered_upto(sets, prep, n), rows.len() as int);
    lemma_gen_xref_ids(sets, rows, prep, n);
    lemma_gen_index_ids(sets, rows, prep, n);
    lemma_only_index_ids(gen_index(sets, rows, prep, n), recs, n);
    lemma_surviving_le(sets, rows, prep, n);
}

/// An official sense as sense selection reads it: its part of speech and
/// the tokens of its English gloss.
pub struct OfficialSense {
    pub pos: String,
    pub english_tokens: Vec<String>,
}

/// How many of `set` (counted with repetition) occur in `gloss`.
pub open spec fn token_overlap(set: Seq<Seq<char>>, gloss: Seq<Seq<char>>) -> nat
    decreases set.len(),
{
    if set.len() == 0 {
        0
    } else {
        token_overlap(set.drop_last(), gloss) + if gloss.contains(set.last()) { 1nat } else { 0nat }
    }
}

/// Whether the set's tokens, run together, spell the sense's tokens run
/// together (and are not empty).
pub open spec fn compound_match(set: Seq<Seq<char>>, gloss: Seq<Seq<char>>) -> bool {
    set.flatten().len() > 0 && set.flatten() == gloss.flatten()
}

/// Whether `(o1, c1)` ranks at least as high as `(o2, c2)`: more overlap,
/// then a compound match.
pub open spec fn key_ge(o1: nat, c1: bool, o2: nat, c2: bool) -> bool {
    o1 > o2 || (o1 == o2 && (c1 || !c2))
}

/// The best sense among the first `n` candidate rows: a sense of the right
/// part of speech with positive evidence (a shared token or a compound
/// match), the highest overlap then compound match winning, the later one
/// on a tie.
pub open spec fn best_sense(
    rows: Seq<usize>,
    senses: Seq<OfficialSense>,
    pos: Seq<char>,
    set: Seq<Seq<char>>,
    n: int,
) -> Option<usize>
    decreases n,
{
    if n <= 0 {
        None
    } else {
        let pre = best_sense(rows, senses, pos, set, n - 1);
        let c = rows[n - 1];
        let g = sv(senses[c as int].english_tokens@);
        let o = token_overlap(set, g);
        let cm = compound_match(set, g);
        if senses[c as int].pos@ == pos && (o > 0 || cm) {
            match pre {
                None => Some(c),
                Some(b) => {
                    let gb = sv(senses[b as int].english_tokens@);
                    if key_ge(o, cm, token_overlap(set, gb), compound_match(set, gb)) {
                        Some(c)
                    } else {
                        Some(b)
                    }
                },
            }
        } else {
            pre
        }
    }
}

/// Whether the sense at row `c` qualifies for a set: the same part of
/// speech, and a shared gloss token or a compound match.
pub open spec fn sense_qualifies(senses: Seq<OfficialSense>, pos: Seq<char>, set: Seq<Seq<char>>, c: usize) -> bool {
    let g = sv(senses[c as int].english_tokens@);
    senses[c as int].pos@ == pos && (token_overlap(set, g) > 0 || compound_match(set, g))
}

/// Whether the sense at row `b` ranks at least as high as the one at `c`.
pub open spec fn sense_ranks_ge(senses: Seq<OfficialSense>, set: Seq<Seq<char>>, b: usize, c: usize) -> bool {
    let gb = sv(senses[b as int].english_tokens@);
    let gc = sv(senses[c as int].english_tokens@);
    key_ge(token_overlap(set, gb), compound_match(set, gb), token_overlap(set, gc), compound_match(set, gc))
}

/// The identification of a generated set with an official sense picks a
/// qualifying candidate row that ranks at least as high as every other
/// qualifying row, and picks nothing exactly when no row qualifies: a row
/// found by spelling alone, without gloss evidence or with another part of
/// speech, is never picked.
pub proof fn lemma_selected_sense_is_best(
    rows: Seq<usize>,
    senses: Seq<OfficialSense>,
    pos: Seq<char>,
    set: Seq<Seq<char>>,
    n: int,
)
    requires
        0 <= n <= rows.len(),
        forall|i: int| 0 <= i < rows.len() ==> (#[trigger] rows[i]) < senses.len(),
    ensures
        best_sense(rows, senses, pos, set, n) is None <==> forall|j: int| 0 <= j < n ==> !sense_qualifies(senses, pos, set, #[trigger] rows[j]),
        best_sense(rows, senses, pos, set, n) matches Some(b) ==> {
            &&& exists|j: int| 0 <= j < n && rows[j] == b
            &&& sense_qualifies(senses, pos, set, b)
            &&& forall|j: int| 0 <= j < n && sense_qualifies(senses, pos, set, #[trigger] rows[j]) ==> sense_ranks_ge(senses, set, b, rows[j])
        },
    decreases n,
{
    if n > 0 {
        lemma_selected_sense_is_best(rows, senses, pos, set, n - 1);
        let pre = best_sense(rows, senses, pos, set, n - 1);
        let c = rows[n - 1];
        if sense_qualifies(senses, pos, set, c) {
            match pre {
                None => {
                    assert forall|j: int| 0 <= j < n && sense_qualifies(senses, pos, set, #[trigger] rows[j]) implies sense_ranks_ge(senses, set, c, rows[j]) by {
                        if j < n - 1 {
                        }
                    }
                },
                Some(b) => {
                    if sense_ranks_ge(senses, set, c, b) {
                        assert forall|j: int| 0 <= j < n && sense_qualifies(senses, pos, set, #[trigger] rows[j]) implies sense_ranks_ge(senses, set, c, rows[j]) by {
                            if j < n - 1 {
                                assert(sense_ranks_ge(senses, set, b, rows[j]));
                            }
                        }
                    } else {
                        assert forall|j: int| 0 <= j < n && sense_qualifies(senses, pos, set, #[trigger] rows[j]) implies sense_ranks_ge(senses, set, b, rows[j]) by {
                            if j < n - 1 {
                                assert(sense_ranks_ge(senses, set, b, rows[j]));
                            }
                        }
                        let j0 = choose|j: int| 0 <= j < n - 1 && rows[j] == b;
                        assert(rows[j0] == b);
                    }
                },
            }
        } else {
            if let Some(b) = pre {
                let j0 = choose|j: int| 0 <= j < n - 1 && rows[j] == b;
                assert(rows[j0] == b);
            }
        }
    }
}

/// The tokens of a list run together.
fn run_together(tokens: &Vec<String>) -> (r: Vec<char>)
    ensures
        r@ == sv(tokens@).flatten(),
{
    let mut out: Vec<char> = Vec::new();
    let mut i: usize = 0;
    while i < tokens.len()
        invariant
            i <= tokens@.len(),
            out@ == sv(tokens@).take(i as int).flatten(),
        decreases tokens@.len() - i,
    {
        crate::split::append_chars(&mut out, &chars_of(tokens[i].as_str()));
        proof {
            assert(sv(tokens@).take(i + 1) =~= sv(tokens@).take(i as int).push(tokens@[i as int]@));
            sv(tokens@).take(i as int).lemma_flatten_push(tokens@[i as int]@);
        }
        i += 1;
    }
    assert(sv(tokens@).take(i as int) =~= sv(tokens@));
    out
}

/// Whether `t` is one of `gloss`.
fn has_token(gloss: &Vec<String>, t: &str) -> (r: bool)
    ensures
        r == sv(gloss@).contains(t@),
{
    let mut k: usize = 0;
    while k < gloss.len()
        invariant
            k <= gloss@.len(),
            forall|j: int| 0 <= j < k ==> gloss@[j]@ != t@,
        decreases gloss@.len() - k,
    {
        if str_eq(gloss[k].as_str(), t) {
            assert(sv(gloss@)[k as int] == t@);
            return true;
        }
        k += 1;
    }
    assert forall|j: int| 0 <= j < sv(gloss@).len() implies sv(gloss@)[j] != t@ by {
        assert(sv(gloss@)[j] == gloss@[j]@);
    }
    false
}

/// How many of the set's tokens occur in a gloss.
fn overlap_of(set: &Vec<String>, gloss: &Vec<String>) -> (r: usize)
    ensures
        r == token_overlap(sv(set@), sv(gloss@)),
{
    let mut n: usize = 0;
    let mut i: usize = 0;
    while i < set.len()
        invariant
            i <= set@.len(),
            n == token_overlap(sv(set@).take(i as int), sv(gloss@)),
            n <= i,
        decreases set@.len() - i,
    {
        assert(sv(set@).take(i + 1).drop_last() =~= sv(set@).take(i as int));
        assert(sv(set@).take(i + 1).last() == set@[i as int]@);
        if has_token(gloss, set[i].as_str()) {
            n += 1;
        }
        i += 1;
    }
    assert(sv(set@).take(i as int) =~= sv(set@));
    n
}

/// The official sense a generated set is identified with, among the
/// candidate rows its spelling found: only a sense of the same part of
/// speech with positive lexical evidence qualifies (a gloss token in
/// common, or the same tokens run together), and the one with the most
/// shared tokens, then a compound match, wins; the last such on a tie.
/// `set_tokens` are the tokens of the set's gloss.
pub fn select_official_entry(
    rows: &Vec<usize>,
    senses: &Vec<OfficialSense>,
    pos: &str,
    set_tokens: &Vec<String>,
) -> (r: Option<usize>)
    requires
        forall|i: int| 0 <= i < rows@.len() ==> (#[trigger] rows@[i]) < senses@.len(),
    ensures
        r == best_sense(rows@, senses@, pos@, sv(set_tokens@), rows@.len() as int),
{
    let set_compact = run_together(set_tokens);
    let mut best: Option<(usize, usize, bool)> = None;
    let mut i: usize = 0;
    while i < rows.len()
        invariant
            i <= rows@.len(),
            forall|q: int| 0 <= q < rows@.len() ==> (#[trigger] rows@[q]) < senses@.len(),
            set_compact@ == sv(set_tokens@).flatten(),
            match best {
                None => best_sense(rows@, senses@, pos@, sv(set_tokens@), i as int) is None,
                Some((b, o, c)) => best_sense(rows@, senses@, pos@, sv(set_tokens@), i as int) == Some(b)
                    && b < senses@.len()
                    && o == token_overlap(sv(set_tokens@), sv(senses@[b as int].english_tokens@))
                    && c == compound_match(sv(set_tokens@), sv(senses@[b as int].english_tokens@)),
            },
        decreases rows@.len() - i,
    {
        let idx = rows[i];
        let sense = &senses[idx];
        if str_eq(sense.pos.as_str(), pos) {
            let o = overlap_of(set_tokens, &sense.english_tokens);
            let gc = run_together(&sense.english_tokens);
            let cm = set_compact.len() > 0 && crate::strs::chars_eq(&set_compact, &gc);
            if o > 0 || cm {
                let take = match best {
                    None => true,
                    Some((_, bo, bc)) => o > bo || (o == bo && (cm || !bc)),
                };
                if take {
                    best = Some((idx, o, cm));
                }
            }
        }
        i += 1;
    }
    match best {
        Some((b, _, _)) => Some(b),
        None => None,
    }
}

} // verus!

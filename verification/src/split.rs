//! Splitting, searching and rewriting of character sequences: the
//! `split_whitespace`, `split(char)`, `replace`, `find`/`rfind` and
//! prefix/suffix operations that the gloss and category logic is built from.

use vstd::prelude::*;
use crate::strs::{chars_of, push_str, string_of, is_white, char_is_whitespace, matches_at, occurs_at, trim_spec, trim_start_spec, trim_end_spec};

verus! {

/// The views of a list of character vectors.
pub open spec fn vv(v: Seq<Vec<char>>) -> Seq<Seq<char>> {
    v.map_values(|t: Vec<char>| t@)
}

/// Left-to-right scan for `split_whitespace`: finished tokens and the token
/// being read.
pub open spec fn ws_scan(s: Seq<char>) -> (Seq<Seq<char>>, Seq<char>)
    decreases s.len(),
{
    if s.len() == 0 {
        (seq![], seq![])
    } else {
        let (done, cur) = ws_scan(s.drop_last());
        let c = s.last();
        if is_white(c) {
            if cur.len() > 0 {
                (done.push(cur), seq![])
            } else {
                (done, seq![])
            }
        } else {
            (done, cur.push(c))
        }
    }
}

/// The maximal non-empty runs of non-White_Space characters of `s`, in order
/// (`str::split_whitespace`).
pub open spec fn ws_tokens(s: Seq<char>) -> Seq<Seq<char>> {
    let (done, cur) = ws_scan(s);
    if cur.len() > 0 {
        done.push(cur)
    } else {
        done
    }
}

/// The whitespace-separated tokens of `v`.
pub fn split_ws(v: &Vec<char>) -> (r: Vec<Vec<char>>)
    ensures
        vv(r@) == ws_tokens(v@),
{
    let mut done: Vec<Vec<char>> = Vec::new();
    let mut cur: Vec<char> = Vec::new();
    let mut i: usize = 0;
    while i < v.len()
        invariant
            0 <= i <= v@.len(),
            (vv(done@), cur@) == ws_scan(v@.take(i as int)),
        decreases v@.len() - i,
    {
        let c = v[i];
        assert(v@.take(i + 1).drop_last() =~= v@.take(i as int));
        if char_is_whitespace(c) {
            if cur.len() > 0 {
                let t = cur;
                done.push(t);
                cur = Vec::new();
                assert(vv(done@) =~= ws_scan(v@.take(i + 1)).0);
            }
        } else {
            cur.push(c);
        }
        assert(vv(done@) =~= ws_scan(v@.take(i + 1)).0);
        assert(cur@ =~= ws_scan(v@.take(i + 1)).1);
        i += 1;
    }
    assert(v@.take(v@.len() as int) =~= v@);
    if cur.len() > 0 {
        done.push(cur);
    }
    assert(vv(done@) =~= ws_tokens(v@));
    done
}

/// Left-to-right scan for `split(sep)`: finished pieces and the current one.
pub open spec fn split_scan(s: Seq<char>, sep: char) -> (Seq<Seq<char>>, Seq<char>)
    decreases s.len(),
{
    if s.len() == 0 {
        (seq![], seq![])
    } else {
        let (done, cur) = split_scan(s.drop_last(), sep);
        let c = s.last();
        if c == sep {
            (done.push(cur), seq![])
        } else {
            (done, cur.push(c))
        }
    }
}

/// The pieces of `s` between occurrences of `sep` (`str::split(char)`); one
/// piece more than there are separators.
pub open spec fn split_char_spec(s: Seq<char>, sep: char) -> Seq<Seq<char>> {
    let (done, cur) = split_scan(s, sep);
    done.push(cur)
}

/// Splits `v` at every `sep`.
pub fn split_char(v: &Vec<char>, sep: char) -> (r: Vec<Vec<char>>)
    ensures
        vv(r@) == split_char_spec(v@, sep),
{
    let mut done: Vec<Vec<char>> = Vec::new();
    let mut cur: Vec<char> = Vec::new();
    let mut i: usize = 0;
    while i < v.len()
        invariant
            0 <= i <= v@.len(),
            (vv(done@), cur@) == split_scan(v@.take(i as int), sep),
        decreases v@.len() - i,
    {
        let c = v[i];
        assert(v@.take(i + 1).drop_last() =~= v@.take(i as int));
        if c == sep {
            let t = cur;
            done.push(t);
            cur = Vec::new();
        } else {
            cur.push(c);
        }
        assert(vv(done@) =~= split_scan(v@.take(i + 1), sep).0);
        assert(cur@ =~= split_scan(v@.take(i + 1), sep).1);
        i += 1;
    }
    assert(v@.take(v@.len() as int) =~= v@);
    done.push(cur);
    assert(vv(done@) =~= split_char_spec(v@, sep));
    done
}

/// Left-to-right, non-overlapping replacement of every occurrence of the
/// non-empty pattern `p` by `rep` (`str::replace`).
pub open spec fn replace_spec(s: Seq<char>, p: Seq<char>, rep: Seq<char>) -> Seq<char>
    decreases s.len(),
{
    if s.len() == 0 {
        seq![]
    } else if p.len() > 0 && p.is_prefix_of(s) {
        rep + replace_spec(s.skip(p.len() as int), p, rep)
    } else {
        seq![s[0]] + replace_spec(s.skip(1), p, rep)
    }
}

/// Replaces every occurrence of `p` in `v` by `rep`.
pub fn replace_all(v: &Vec<char>, p: &Vec<char>, rep: &Vec<char>) -> (r: Vec<char>)
    requires
        p@.len() > 0,
    ensures
        r@ == replace_spec(v@, p@, rep@),
{
    let mut out: Vec<char> = Vec::new();
    let mut i: usize = 0;
    assert(v@.skip(0) =~= v@);
    while i < v.len()
        invariant
            p@.len() > 0,
            0 <= i <= v@.len(),
            out@ + replace_spec(v@.skip(i as int), p@, rep@) == replace_spec(v@, p@, rep@),
        decreases v@.len() - i,
    {
        let ghost rest = v@.skip(i as int);
        let ghost before = out@;
        if matches_at(v, p, i) {
            assert(p@.is_prefix_of(rest)) by {
                assert(rest.subrange(0, p@.len() as int) =~= v@.subrange(i as int, i + p@.len()));
            }
            assert(rest.skip(p@.len() as int) =~= v@.skip(i + p@.len()));
            let mut k: usize = 0;
            while k < rep.len()
                invariant
                    0 <= k <= rep@.len(),
                    out@ == before + rep@.take(k as int),
                decreases rep@.len() - k,
            {
                out.push(rep[k]);
                assert(rep@.take(k + 1) =~= rep@.take(k as int).push(rep@[k as int]));
                k += 1;
            }
            assert(rep@.take(rep@.len() as int) =~= rep@);
            assert(out@ + replace_spec(v@.skip(i + p@.len()), p@, rep@) =~= before
                + replace_spec(rest, p@, rep@));
            i += p.len();
        } else {
            assert(!p@.is_prefix_of(rest)) by {
                if p@.is_prefix_of(rest) {
                    assert(v@.subrange(i as int, i + p@.len()) =~= rest.subrange(0, p@.len() as int));
                }
            }
            assert(rest.skip(1) =~= v@.skip(i + 1));
            out.push(v[i]);
            assert(out@ + replace_spec(v@.skip(i + 1), p@, rep@) =~= before + replace_spec(
                rest,
                p@,
                rep@,
            ));
            i += 1;
        }
    }
    assert(v@.skip(v@.len() as int) =~= Seq::<char>::empty());
    assert(out@ =~= replace_spec(v@, p@, rep@));
    out
}

/// Index of the first `c` in `s`, if any (`str::find(char)`).
pub open spec fn first_index(s: Seq<char>, c: char) -> Option<nat>
    decreases s.len(),
{
    if s.len() == 0 {
        None
    } else if s[0] == c {
        Some(0)
    } else {
        match first_index(s.skip(1), c) {
            Some(i) => Some(i + 1),
            None => None,
        }
    }
}

/// Index of the last `c` in `s`, if any (`str::rfind(char)`).
pub open spec fn last_index(s: Seq<char>, c: char) -> Option<nat>
    decreases s.len(),
{
    if s.len() == 0 {
        None
    } else if s.last() == c {
        Some((s.len() - 1) as nat)
    } else {
        last_index(s.drop_last(), c)
    }
}

proof fn lemma_first_index_none(s: Seq<char>, c: char)
    requires
        forall|k: int| 0 <= k < s.len() ==> s[k] != c,
    ensures
        first_index(s, c) == None::<nat>,
    decreases s.len(),
{
    if s.len() > 0 {
        lemma_first_index_none(s.skip(1), c);
    }
}

proof fn lemma_first_index_at(s: Seq<char>, c: char, i: int)
    requires
        0 <= i < s.len(),
        s[i] == c,
        forall|k: int| 0 <= k < i ==> s[k] != c,
    ensures
        first_index(s, c) == Some(i as nat),
    decreases i,
{
    if i > 0 {
        lemma_first_index_at(s.skip(1), c, i - 1);
    }
}

/// The first position of `c` in `v`.
pub fn find_char(v: &Vec<char>, c: char) -> (r: Option<usize>)
    ensures
        r matches Some(i) ==> first_index(v@, c) == Some(i as nat) && i < v@.len() && v@[i as int] == c,
        r is None ==> first_index(v@, c) is None,
{
    let mut i: usize = 0;
    while i < v.len()
        invariant
            0 <= i <= v@.len(),
            forall|k: int| 0 <= k < i ==> v@[k] != c,
        decreases v@.len() - i,
    {
        if v[i] == c {
            proof {
                lemma_first_index_at(v@, c, i as int);
            }
            return Some(i);
        }
        i += 1;
    }
    proof {
        lemma_first_index_none(v@, c);
    }
    None
}

proof fn lemma_last_index_from(s: Seq<char>, c: char, j: int)
    requires
        0 <= j <= s.len(),
        forall|k: int| j <= k < s.len() ==> s[k] != c,
    ensures
        last_index(s, c) == last_index(s.take(j), c),
    decreases s.len() - j,
{
    if j < s.len() {
        assert(s.drop_last() =~= s.take(s.len() - 1));
        lemma_last_index_from(s.drop_last(), c, j);
        assert(s.drop_last().take(j) =~= s.take(j));
    } else {
        assert(s.take(j) =~= s);
    }
}

/// The last position of `c` in `v`.
pub fn rfind_char(v: &Vec<char>, c: char) -> (r: Option<usize>)
    ensures
        r matches Some(i) ==> last_index(v@, c) == Some(i as nat) && i < v@.len() && v@[i as int] == c,
        r is None ==> last_index(v@, c) is None,
{
    let mut j: usize = v.len();
    while j > 0
        invariant
            0 <= j <= v@.len(),
            forall|k: int| j <= k < v@.len() ==> v@[k] != c,
        decreases j,
    {
        if v[j - 1] == c {
            proof {
                lemma_last_index_from(v@, c, j as int);
                assert(v@.take(j as int).last() == c);
            }
            return Some(j - 1);
        }
        j -= 1;
    }
    proof {
        lemma_last_index_from(v@, c, 0);
    }
    None
}

/// Whether `p` is a prefix of `v`.
pub fn starts_with(v: &Vec<char>, p: &Vec<char>) -> (r: bool)
    ensures
        r == p@.is_prefix_of(v@),
{
    let r = matches_at(v, p, 0);
    proof {
        if p@.len() <= v@.len() {
            assert(v@.subrange(0, p@.len() as int) =~= v@.subrange(0, 0 + p@.len() as int));
        }
    }
    r
}

/// Whether `p` is a suffix of `v`.
pub fn ends_with(v: &Vec<char>, p: &Vec<char>) -> (r: bool)
    ensures
        r == p@.is_suffix_of(v@),
{
    if p.len() > v.len() {
        return false;
    }
    let r = matches_at(v, p, v.len() - p.len());
    proof {
        assert(v@.subrange(v@.len() - p@.len(), v@.len() - p@.len() + p@.len()) =~= v@.subrange(
            (v@.len() - p@.len()) as int,
            v@.len() as int,
        ));
    }
    r
}

/// A copy of `v[lo..hi]`.
pub fn slice_vec(v: &Vec<char>, lo: usize, hi: usize) -> (r: Vec<char>)
    requires
        lo <= hi <= v@.len(),
    ensures
        r@ == v@.subrange(lo as int, hi as int),
{
    let mut r: Vec<char> = Vec::new();
    let mut i: usize = lo;
    while i < hi
        invariant
            lo <= i <= hi <= v@.len(),
            r@ == v@.subrange(lo as int, i as int),
        decreases hi - i,
    {
        r.push(v[i]);
        assert(v@.subrange(lo as int, i + 1) =~= v@.subrange(lo as int, i as int).push(v@[i as int]));
        i += 1;
    }
    r
}

/// `v` trimmed of White_Space at both ends.
pub fn trim_vec(v: &Vec<char>) -> (r: Vec<char>)
    ensures
        r@ == trim_spec(v@),
{
    let (lo, hi) = crate::strs::trim_bounds(v);
    slice_vec(v, lo, hi)
}

proof fn lemma_trim_start_len(s: Seq<char>)
    ensures
        trim_start_spec(s).len() <= s.len(),
    decreases s.len(),
{
    if s.len() > 0 && is_white(s[0]) {
        lemma_trim_start_len(s.skip(1));
    }
}

proof fn lemma_trim_end_len(s: Seq<char>)
    ensures
        trim_end_spec(s).len() <= s.len(),
    decreases s.len(),
{
    if s.len() > 0 && is_white(s.last()) {
        lemma_trim_end_len(s.drop_last());
    }
}

/// Trimming never lengthens a sequence.
pub proof fn lemma_trim_len(s: Seq<char>)
    ensures
        trim_spec(s).len() <= s.len(),
{
    lemma_trim_start_len(s);
    lemma_trim_end_len(trim_start_spec(s));
}


/// The parts joined with `sep` between neighbours (`join`).
pub open spec fn join_spec(parts: Seq<Seq<char>>, sep: Seq<char>) -> Seq<char>
    decreases parts.len(),
{
    if parts.len() == 0 {
        Seq::empty()
    } else if parts.len() == 1 {
        parts[0]
    } else {
        join_spec(parts.drop_last(), sep) + sep + parts.last()
    }
}

/// Joins character vectors with `sep` between neighbours.
pub fn join_chars(parts: &Vec<Vec<char>>, sep: &Vec<char>) -> (r: Vec<char>)
    ensures
        r@ == join_spec(vv(parts@), sep@),
{
    let mut out: Vec<char> = Vec::new();
    let mut i: usize = 0;
    assert(vv(parts@).take(0) =~= Seq::<Seq<char>>::empty());
    while i < parts.len()
        invariant
            i <= parts@.len(),
            out@ == join_spec(vv(parts@).take(i as int), sep@),
        decreases parts@.len() - i,
    {
        let ghost before = out@;
        if i > 0 {
            append_chars(&mut out, sep);
        }
        append_chars(&mut out, &parts[i]);
        proof {
            assert(vv(parts@).take(i + 1).drop_last() =~= vv(parts@).take(i as int));
            assert(vv(parts@)[i as int] == parts@[i as int]@);
            if i == 0 {
                assert(out@ =~= join_spec(vv(parts@).take(i + 1), sep@));
            } else {
                assert(out@ =~= join_spec(vv(parts@).take(i + 1), sep@));
            }
        }
        i += 1;
    }
    assert(vv(parts@).take(i as int) =~= vv(parts@));
    out
}

/// Appends the characters of `t`.
pub fn append_chars(out: &mut Vec<char>, t: &Vec<char>)
    ensures
        final(out)@ == old(out)@ + t@,
{
    let mut k: usize = 0;
    while k < t.len()
        invariant
            k <= t@.len(),
            out@ == old(out)@ + t@.take(k as int),
        decreases t@.len() - k,
    {
        out.push(t[k]);
        assert(t@.take(k + 1) =~= t@.take(k as int).push(t@[k as int]));
        k += 1;
    }
    assert(t@.take(k as int) =~= t@);
}


/// The pieces of `s` between non-overlapping occurrences of the non-empty
/// pattern `p`, scanning left to right (`str::split(&str)`).
pub open spec fn split_str_spec(s: Seq<char>, p: Seq<char>) -> Seq<Seq<char>>
    decreases s.len(),
{
    if s.len() == 0 {
        seq![Seq::empty()]
    } else if p.len() > 0 && p.is_prefix_of(s) {
        seq![Seq::<char>::empty()] + split_str_spec(s.skip(p.len() as int), p)
    } else {
        let r = split_str_spec(s.skip(1), p);
        r.update(0, seq![s[0]] + r[0])
    }
}

/// A split never yields zero pieces.
pub proof fn lemma_split_str_nonempty(s: Seq<char>, p: Seq<char>)
    ensures
        split_str_spec(s, p).len() > 0,
    decreases s.len(),
{
    if s.len() > 0 {
        if p.len() > 0 && p.is_prefix_of(s) {
            lemma_split_str_nonempty(s.skip(p.len() as int), p);
        } else {
            lemma_split_str_nonempty(s.skip(1), p);
        }
    }
}

/// The finished pieces, the current piece, and the split of the rest, put
/// back together.
pub open spec fn split_join(done: Seq<Seq<char>>, cur: Seq<char>, rest: Seq<Seq<char>>) -> Seq<Seq<char>> {
    done + seq![cur + rest[0]] + rest.skip(1)
}

/// Splits `v` at every occurrence of the non-empty pattern `p`.
pub fn split_str(v: &Vec<char>, p: &Vec<char>) -> (r: Vec<Vec<char>>)
    requires
        p@.len() > 0,
    ensures
        vv(r@) == split_str_spec(v@, p@),
{
    let mut done: Vec<Vec<char>> = Vec::new();
    let mut cur: Vec<char> = Vec::new();
    let mut i: usize = 0;
    assert(v@.skip(0) =~= v@);
    proof {
        lemma_split_str_nonempty(v@, p@);
        let r0 = split_str_spec(v@, p@);
        assert(split_join(vv(done@), cur@, r0) =~= r0);
    }
    while i < v.len()
        invariant
            p@.len() > 0,
            i <= v@.len(),
            split_join(vv(done@), cur@, split_str_spec(v@.skip(i as int), p@)) == split_str_spec(v@, p@),
        decreases v@.len() - i,
    {
        let ghost rest = v@.skip(i as int);
        let ghost d0 = vv(done@);
        let ghost c0 = cur@;
        if crate::strs::matches_at(v, p, i) {
            assert(p@.is_prefix_of(rest)) by {
                assert(rest.subrange(0, p@.len() as int) =~= v@.subrange(i as int, i + p@.len()));
            }
            assert(rest.skip(p@.len() as int) =~= v@.skip(i + p@.len()));
            let ghost r1 = split_str_spec(v@.skip(i + p@.len()), p@);
            proof {
                lemma_split_str_nonempty(v@.skip(i + p@.len()), p@);
            }
            let piece = cur;
            done.push(piece);
            cur = Vec::new();
            assert(split_str_spec(rest, p@) == seq![Seq::<char>::empty()] + r1);
            assert(c0 + Seq::<char>::empty() =~= c0);
            assert(split_join(vv(done@), cur@, r1) =~~= split_join(d0, c0, split_str_spec(rest, p@)));
            i += p.len();
        } else {
            assert(!p@.is_prefix_of(rest)) by {
                if p@.is_prefix_of(rest) {
                    assert(v@.subrange(i as int, i + p@.len()) =~= rest.subrange(0, p@.len() as int));
                }
            }
            assert(rest.skip(1) =~= v@.skip(i + 1));
            let ghost r1 = split_str_spec(v@.skip(i + 1), p@);
            proof {
                lemma_split_str_nonempty(v@.skip(i + 1), p@);
            }
            cur.push(v[i]);
            assert(rest[0] == v@[i as int]);
            assert(split_str_spec(rest, p@) == r1.update(0, seq![v@[i as int]] + r1[0]));
            assert(c0.push(v@[i as int]) + r1[0] =~= c0 + (seq![v@[i as int]] + r1[0]));
            assert(r1.update(0, seq![v@[i as int]] + r1[0]).skip(1) =~= r1.skip(1));
            assert(split_join(vv(done@), cur@, r1) =~~= split_join(d0, c0, split_str_spec(rest, p@)));
            i += 1;
        }
    }
    assert(v@.skip(i as int) =~= Seq::<char>::empty());
    done.push(cur);
    assert(vv(done@) =~= split_str_spec(v@, p@));
    done
}

/// Joins strings with `sep` between neighbours (`join`).
pub fn join_strings(parts: &Vec<String>, sep: &str) -> (r: String)
    ensures
        r@ == join_spec(parts@.map_values(|s: String| s@), sep@),
{
    let ghost pv = parts@.map_values(|s: String| s@);
    let mut out = String::new();
    let mut i: usize = 0;
    assert(pv.take(0) =~= Seq::<Seq<char>>::empty());
    while i < parts.len()
        invariant
            pv == parts@.map_values(|s: String| s@),
            i <= parts@.len(),
            out@ == join_spec(pv.take(i as int), sep@),
        decreases parts@.len() - i,
    {
        if i > 0 {
            push_str(&mut out, sep);
        }
        push_str(&mut out, parts[i].as_str());
        proof {
            assert(pv.take(i + 1).drop_last() =~= pv.take(i as int));
            assert(pv[i as int] == parts@[i as int]@);
            assert(out@ =~= join_spec(pv.take(i + 1), sep@));
        }
        i += 1;
    }
    assert(pv.take(i as int) =~= pv);
    out
}

/// `s` with every occurrence of the non-empty pattern `p` replaced by `w`.
pub fn replace_str(s: &str, p: &str, w: &str) -> (r: String)
    requires
        p@.len() > 0,
    ensures
        r@ == replace_spec(s@, p@, w@),
{
    let v = chars_of(s);
    let pv = chars_of(p);
    let wv = chars_of(w);
    let out = replace_all(&v, &pv, &wv);
    string_of(&out)
}

} // verus!

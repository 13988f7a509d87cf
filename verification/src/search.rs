//! The client-side search index: the extra keys under which an entry is
//! found, and the source-word aliases that make attested spellings
//! searchable.

use vstd::prelude::*;
use crate::model::MatchStatus;
use crate::categories::strs_view;
use crate::layout::{conf_letter, conf_letter_spec, json_str, json_str_spec, truncate, truncate_spec};
use crate::model::{Candidate, Confidence, FoldedForm};
use crate::strs::{chars_of, decimal, lowercase_of, push_char, push_decimal, push_str, str_eq, to_lowercase, trim, trim_spec};

verus! {

/// The parts joined with commas.
pub open spec fn comma_join(parts: Seq<Seq<char>>) -> Seq<char>
    decreases parts.len(),
{
    if parts.len() == 0 {
        Seq::empty()
    } else if parts.len() == 1 {
        parts[0]
    } else {
        comma_join(parts.drop_last()) + seq![','] + parts.last()
    }
}

/// Joining one more part.
pub proof fn lemma_comma_join_push(parts: Seq<Seq<char>>, i: int)
    requires
        0 <= i < parts.len(),
    ensures
        comma_join(parts.take(i + 1)) == if i == 0 {
            parts[0]
        } else {
            comma_join(parts.take(i)) + seq![','] + parts[i]
        },
{
    assert(parts.take(i + 1).drop_last() =~= parts.take(i));
}

/// The number of characters of `s`.
pub fn char_len(s: &str) -> (r: usize)
    ensures
        r == s@.len(),
{
    chars_of(s).len()
}

/// Search keys over plain values.
pub open spec fn keys_view(keys: Seq<(String, usize)>) -> Seq<(Seq<char>, usize)> {
    keys.map_values(|k: (String, usize)| (k.0@, k.1))
}

/// The key strings of a key list.
pub open spec fn key_firsts(keys: Seq<(Seq<char>, usize)>) -> Seq<Seq<char>> {
    keys.map_values(|k: (Seq<char>, usize)| k.0)
}

/// The proposed `(key, rank)` pairs that become new keys, in order: a key
/// is kept when it has at least two characters, is not `taken`, and was not
/// proposed before.
pub open spec fn new_keys(props: Seq<(Seq<char>, usize)>, taken: Seq<Seq<char>>) -> Seq<(Seq<char>, usize)>
    decreases props.len(),
{
    if props.len() == 0 {
        Seq::empty()
    } else {
        let pre = new_keys(props.drop_last(), taken);
        let k = props.last().0;
        if k.len() >= 2 && !taken.contains(k) && !key_firsts(props.drop_last()).contains(k) {
            pre.push(props.last())
        } else {
            pre
        }
    }
}

/// A long enough, untaken key was kept exactly when it was proposed.
proof fn lemma_new_keys_contains(props: Seq<(Seq<char>, usize)>, taken: Seq<Seq<char>>, k: Seq<char>)
    requires
        k.len() >= 2,
        !taken.contains(k),
    ensures
        key_firsts(new_keys(props, taken)).contains(k) == key_firsts(props).contains(k),
    decreases props.len(),
{
    if props.len() > 0 {
        let pre = props.drop_last();
        lemma_new_keys_contains(pre, taken, k);
        let nk = new_keys(pre, taken);
        let lk = props.last().0;
        let fp = key_firsts(props);
        let fpre = key_firsts(pre);
        let fnk = key_firsts(nk);
        assert(fp =~= fpre.push(lk));
        assert(key_firsts(nk.push(props.last())) =~= fnk.push(lk));
        let res = key_firsts(new_keys(props, taken));
        // Contains over a push.
        assert(forall|x: Seq<char>| fp.contains(x) <==> (fpre.contains(x) || x == lk)) by {
            assert forall|x: Seq<char>| fp.contains(x) implies (fpre.contains(x) || x == lk) by {
                let j = choose|j: int| 0 <= j < fp.len() && fp[j] == x;
                if j < fpre.len() {
                    assert(fpre[j] == x);
                }
            }
            assert forall|x: Seq<char>| (fpre.contains(x) || x == lk) implies fp.contains(x) by {
                if x == lk {
                    assert(fp[fp.len() - 1] == x);
                } else {
                    let j = choose|j: int| 0 <= j < fpre.len() && fpre[j] == x;
                    assert(fp[j] == x);
                }
            }
        }
        assert(forall|x: Seq<char>| fnk.push(lk).contains(x) <==> (fnk.contains(x) || x == lk)) by {
            assert forall|x: Seq<char>| fnk.push(lk).contains(x) implies (fnk.contains(x) || x == lk) by {
                let j = choose|j: int| 0 <= j < fnk.push(lk).len() && fnk.push(lk)[j] == x;
                if j < fnk.len() {
                    assert(fnk[j] == x);
                }
            }
            assert forall|x: Seq<char>| (fnk.contains(x) || x == lk) implies fnk.push(lk).contains(x) by {
                if x == lk {
                    assert(fnk.push(lk)[fnk.len() as int] == x);
                } else {
                    let j = choose|j: int| 0 <= j < fnk.len() && fnk[j] == x;
                    assert(fnk.push(lk)[j] == x);
                }
            }
        }
    }
}

/// Whether some key of `keys` is `k`.
fn has_key(keys: &Vec<(String, usize)>, k: &str) -> (r: bool)
    ensures
        r == key_firsts(keys_view(keys@)).contains(k@),
{
    let mut i: usize = 0;
    while i < keys.len()
        invariant
            i <= keys@.len(),
            forall|j: int| 0 <= j < i ==> keys@[j].0@ != k@,
        decreases keys@.len() - i,
    {
        if str_eq(keys[i].0.as_str(), k) {
            assert(key_firsts(keys_view(keys@))[i as int] == k@);
            return true;
        }
        i += 1;
    }
    assert forall|j: int| 0 <= j < key_firsts(keys_view(keys@)).len() implies key_firsts(
        keys_view(keys@),
    )[j] != k@ by {
        assert(key_firsts(keys_view(keys@))[j] == keys@[j].0@);
    }
    false
}

/// Appends to `keys` each proposal that has at least two characters, is not
/// `display_lower`, and is not yet a key.
fn push_new_keys(keys: &mut Vec<(String, usize)>, props: Vec<(String, usize)>, display_lower: &str)
    ensures
        keys_view(final(keys)@) == keys_view(old(keys)@) + new_keys(
            keys_view(props@),
            seq![display_lower@] + key_firsts(keys_view(old(keys)@)),
        ),
{
    let ghost taken = seq![display_lower@] + key_firsts(keys_view(old(keys)@));
    let ghost pv = keys_view(props@);
    let mut j: usize = 0;
    assert(pv.take(0) =~= Seq::<(Seq<char>, usize)>::empty());
    assert(keys_view(keys@) =~= keys_view(old(keys)@) + Seq::<(Seq<char>, usize)>::empty());
    while j < props.len()
        invariant
            j <= props@.len(),
            pv == keys_view(props@),
            taken == seq![display_lower@] + key_firsts(keys_view(old(keys)@)),
            keys_view(keys@) == keys_view(old(keys)@) + new_keys(pv.take(j as int), taken),
        decreases props@.len() - j,
    {
        let k = &props[j].0;
        let r = props[j].1;
        let ghost cur = keys_view(keys@);
        let ghost nk = new_keys(pv.take(j as int), taken);
        assert(pv.take(j + 1).drop_last() =~= pv.take(j as int));
        assert(pv.take(j + 1).last() == (k@, r));
        proof {
            assert(key_firsts(cur) =~= key_firsts(keys_view(old(keys)@)) + key_firsts(nk));
            if k@.len() >= 2 && !taken.contains(k@) {
                lemma_new_keys_contains(pv.take(j as int), taken, k@);
            }
        }
        let long = char_len(k.as_str()) >= 2;
        if long && !str_eq(k.as_str(), display_lower) && !has_key(keys, k.as_str()) {
            proof {
                assert(!taken.contains(k@)) by {
                    if taken.contains(k@) {
                        let w = choose|w: int| 0 <= w < taken.len() && taken[w] == k@;
                        if w > 0 {
                            assert(key_firsts(cur)[w - 1] == k@);
                        }
                    }
                }
                assert(!key_firsts(nk).contains(k@)) by {
                    if key_firsts(nk).contains(k@) {
                        let w = choose|w: int| 0 <= w < key_firsts(nk).len() && key_firsts(nk)[w] == k@;
                        assert(key_firsts(cur)[key_firsts(keys_view(old(keys)@)).len() + w] == k@);
                    }
                }
            }
            keys.push((k.clone(), r));
            assert(keys_view(keys@) =~= cur.push((k@, r)));
        } else {
            proof {
                if long && !str_eq_spec(k@, display_lower@) && !taken.contains(k@) {
                    let w = choose|w: int| 0 <= w < key_firsts(cur).len() && key_firsts(cur)[w] == k@;
                    if w < key_firsts(keys_view(old(keys)@)).len() {
                        assert(taken[w + 1] == k@);
                    } else {
                        assert(key_firsts(nk)[w - key_firsts(keys_view(old(keys)@)).len()] == k@);
                    }
                }
                if long && str_eq_spec(k@, display_lower@) {
                    assert(taken[0] == k@);
                }
            }
        }
        j += 1;
    }
    assert(pv.take(j as int) =~= pv);
}

/// Equality of two character sequences.
pub open spec fn str_eq_spec(a: Seq<char>, b: Seq<char>) -> bool {
    a == b
}

/// The key proposals of ranked candidates: each candidate's lowercased
/// form, standard fold and ASCII skeleton, tagged with its 1-based rank.
pub open spec fn cand_props(cs: Seq<Candidate>) -> Seq<(Seq<char>, usize)>
    decreases cs.len(),
{
    if cs.len() == 0 {
        Seq::empty()
    } else {
        let c = cs.last();
        let r = cs.len() as usize;
        cand_props(cs.drop_last()) + seq![
            (lowercase_of(c.form@), r),
            (c.standard_fold@, r),
            (c.ascii_skeleton@, r),
        ]
    }
}

/// The key proposals of spellings that all share one rank.
pub open spec fn form_props(fs: Seq<FoldedForm>, rank: usize) -> Seq<(Seq<char>, usize)>
    decreases fs.len(),
{
    if fs.len() == 0 {
        Seq::empty()
    } else {
        let f = fs.last();
        form_props(fs.drop_last(), rank) + seq![
            (lowercase_of(f.form@), rank),
            (f.standard_fold@, rank),
            (f.ascii_skeleton@, rank),
        ]
    }
}

/// How many leading candidates are searchable.
pub open spec fn searchable(n: nat) -> int {
    if n < 5 { n as int } else { 5 }
}

/// Deduplicated searchable keys for one entry: the first five candidates'
/// forms plus their standard-alphabet and ASCII folds, tagged with the
/// candidate's 1-based rank. The display form itself is excluded (the client
/// already matches it), but its folds are included.
pub fn search_keys(candidates: &Vec<Candidate>, display: &str) -> (r: Vec<(String, usize)>)
    ensures
        keys_view(r@) == new_keys(
            cand_props(candidates@.take(searchable(candidates@.len()))),
            seq![lowercase_of(display@)],
        ),
{
    let n: usize = if candidates.len() < 5 { candidates.len() } else { 5 };
    let mut props: Vec<(String, usize)> = Vec::new();
    let mut i: usize = 0;
    assert(keys_view(props@) =~= cand_props(candidates@.take(0)));
    while i < n
        invariant
            n == searchable(candidates@.len()),
            i <= n,
            keys_view(props@) == cand_props(candidates@.take(i as int)),
        decreases n - i,
    {
        let c = &candidates[i];
        let ghost before = keys_view(props@);
        props.push((to_lowercase(c.form.as_str()), i + 1));
        props.push((c.standard_fold.clone(), i + 1));
        props.push((c.ascii_skeleton.clone(), i + 1));
        assert(candidates@.take(i + 1).drop_last() =~= candidates@.take(i as int));
        assert(keys_view(props@) =~= before + seq![
            (lowercase_of(c.form@), (i + 1) as usize),
            (c.standard_fold@, (i + 1) as usize),
            (c.ascii_skeleton@, (i + 1) as usize),
        ]);
        i += 1;
    }
    let dl = to_lowercase(display);
    let mut keys: Vec<(String, usize)> = Vec::new();
    assert(keys_view(keys@) =~= Seq::<(Seq<char>, usize)>::empty());
    push_new_keys(&mut keys, props, dl.as_str());
    assert(seq![dl@] + key_firsts(Seq::<(Seq<char>, usize)>::empty()) =~= seq![dl@]);
    assert(Seq::<(Seq<char>, usize)>::empty() + new_keys(
        cand_props(candidates@.take(n as int)),
        seq![dl@],
    ) =~= new_keys(cand_props(candidates@.take(n as int)), seq![dl@]));
    keys
}

/// Adds an official entry's byforms as search keys at `rank`: each
/// byform's lowercased spelling, standard fold and ASCII skeleton, unless it
/// is shorter than two characters, is the lowercased display, or is already
/// a key.
pub fn add_official_byform_keys(
    keys: &mut Vec<(String, usize)>,
    byforms: &Vec<FoldedForm>,
    display: &str,
    rank: usize,
)
    ensures
        keys_view(final(keys)@) == keys_view(old(keys)@) + new_keys(
            form_props(byforms@, rank),
            seq![lowercase_of(display@)] + key_firsts(keys_view(old(keys)@)),
        ),
{
    let mut props: Vec<(String, usize)> = Vec::new();
    let mut i: usize = 0;
    assert(keys_view(props@) =~= form_props(byforms@.take(0), rank));
    while i < byforms.len()
        invariant
            i <= byforms@.len(),
            keys_view(props@) == form_props(byforms@.take(i as int), rank),
        decreases byforms@.len() - i,
    {
        let f = &byforms[i];
        let ghost before = keys_view(props@);
        props.push((to_lowercase(f.form.as_str()), rank));
        props.push((f.standard_fold.clone(), rank));
        props.push((f.ascii_skeleton.clone(), rank));
        assert(byforms@.take(i + 1).drop_last() =~= byforms@.take(i as int));
        assert(keys_view(props@) =~= before + seq![
            (lowercase_of(f.form@), rank),
            (f.standard_fold@, rank),
            (f.ascii_skeleton@, rank),
        ]);
        i += 1;
    }
    assert(byforms@.take(i as int) =~= byforms@);
    let dl = to_lowercase(display);
    push_new_keys(keys, props, dl.as_str());
}

/// One key's JSON: `["kratky",2]`.
pub open spec fn key_json(k: (Seq<char>, usize)) -> Seq<char> {
    seq!['['] + json_str_spec(k.0) + seq![','] + decimal(k.1 as nat) + seq![']']
}

/// The key list as JSON: `[["kratky",2],…]`.
pub open spec fn keys_json_spec(keys: Seq<(Seq<char>, usize)>) -> Seq<char> {
    seq!['['] + comma_join(keys.map_values(|k: (Seq<char>, usize)| key_json(k))) + seq![']']
}

/// JSON-encodes the key list as `[["kratky",2],…]` for the search index row.
pub fn keys_json(keys: &Vec<(String, usize)>) -> (r: String)
    ensures
        r@ == keys_json_spec(keys_view(keys@)),
{
    let ghost parts = keys_view(keys@).map_values(|k: (Seq<char>, usize)| key_json(k));
    let mut s = String::new();
    push_char(&mut s, '[');
    let mut i: usize = 0;
    assert(s@ =~= seq!['['] + comma_join(parts.take(0)));
    while i < keys.len()
        invariant
            i <= keys@.len(),
            parts == keys_view(keys@).map_values(|k: (Seq<char>, usize)| key_json(k)),
            s@ == seq!['['] + comma_join(parts.take(i as int)),
        decreases keys@.len() - i,
    {
        let ghost before = s@;
        if i > 0 {
            push_char(&mut s, ',');
        }
        push_char(&mut s, '[');
        push_str(&mut s, json_str(keys[i].0.as_str()).as_str());
        push_char(&mut s, ',');
        push_decimal(&mut s, keys[i].1);
        push_char(&mut s, ']');
        proof {
            lemma_comma_join_push(parts, i as int);
            assert(parts[i as int] == key_json((keys@[i as int].0@, keys@[i as int].1)));
            if i == 0 {
                assert(s@ =~= seq!['['] + comma_join(parts.take(i + 1)));
            } else {
                assert(s@ =~= seq!['['] + comma_join(parts.take(i + 1)));
            }
        }
        i += 1;
    }
    push_char(&mut s, ']');
    assert(parts.take(i as int) =~= parts);
    s
}

/// One variant of a source cell, as the cell normaliser splits it out.
pub struct NormalizedForm {
    /// The attested spelling.
    pub original: String,
    /// Its phonemic Latin transliteration.
    pub latin: String,
    /// The transliteration in the standard Interslavic alphabet.
    pub latin_standard: String,
    /// The spelling reduced to plain ASCII letters.
    pub skeleton: String,
}

/// One source-word alias: language code, attested word (trimmed and
/// lowercased), folded search forms.
pub type SourceAlias = (String, String, Vec<String>);

/// Aliases over plain values.
pub open spec fn aliases_view(a: Seq<SourceAlias>) -> Seq<(Seq<char>, Seq<char>, Seq<Seq<char>>)> {
    a.map_values(|x: SourceAlias| (x.0@, x.1@, x.2@.map_values(|f: String| f@)))
}

/// Seen `(lang, word)` pairs over plain values.
pub open spec fn pairs_view(p: Seq<(String, String)>) -> Seq<(Seq<char>, Seq<char>)> {
    p.map_values(|x: (String, String)| (x.0@, x.1@))
}

/// The search forms kept for an attested word: in order, those with at
/// least two characters that differ from the word and from each other.
pub open spec fn alias_forms(original: Seq<char>, fs: Seq<Seq<char>>) -> Seq<Seq<char>>
    decreases fs.len(),
{
    if fs.len() == 0 {
        Seq::empty()
    } else {
        let pre = alias_forms(original, fs.drop_last());
        let f = fs.last();
        if f.len() >= 2 && f != original && !pre.contains(f) {
            pre.push(f)
        } else {
            pre
        }
    }
}

/// The aliases and seen pairs after one more variant of a `code` cell.
pub open spec fn alias_step(
    st: (Seq<(Seq<char>, Seq<char>, Seq<Seq<char>>)>, Seq<(Seq<char>, Seq<char>)>),
    code: Seq<char>,
    nf: NormalizedForm,
) -> (Seq<(Seq<char>, Seq<char>, Seq<Seq<char>>)>, Seq<(Seq<char>, Seq<char>)>) {
    let original = lowercase_of(trim_spec(nf.original@));
    if original.len() < 2 || st.1.contains((code, original)) {
        st
    } else {
        (
            st.0.push((code, original, alias_forms(original, seq![nf.latin@, nf.latin_standard@, nf.skeleton@]))),
            st.1.push((code, original)),
        )
    }
}

/// The aliases and seen pairs after the first `k` variants of a `code` cell.
pub open spec fn alias_steps(
    st: (Seq<(Seq<char>, Seq<char>, Seq<Seq<char>>)>, Seq<(Seq<char>, Seq<char>)>),
    code: Seq<char>,
    nfs: Seq<NormalizedForm>,
) -> (Seq<(Seq<char>, Seq<char>, Seq<Seq<char>>)>, Seq<(Seq<char>, Seq<char>)>)
    decreases nfs.len(),
{
    if nfs.len() == 0 {
        st
    } else {
        alias_step(alias_steps(st, code, nfs.drop_last()), code, nfs.last())
    }
}

/// The aliases and seen pairs after all `cells`.
pub open spec fn alias_cells(
    st: (Seq<(Seq<char>, Seq<char>, Seq<Seq<char>>)>, Seq<(Seq<char>, Seq<char>)>),
    cells: Seq<(String, Vec<NormalizedForm>)>,
) -> (Seq<(Seq<char>, Seq<char>, Seq<Seq<char>>)>, Seq<(Seq<char>, Seq<char>)>)
    decreases cells.len(),
{
    if cells.len() == 0 {
        st
    } else {
        alias_steps(alias_cells(st, cells.drop_last()), cells.last().0@, cells.last().1@)
    }
}

/// Whether `(code, word)` is among `seen`.
fn has_pair(seen: &Vec<(String, String)>, code: &str, word: &str) -> (r: bool)
    ensures
        r == pairs_view(seen@).contains((code@, word@)),
{
    let mut i: usize = 0;
    while i < seen.len()
        invariant
            i <= seen@.len(),
            forall|j: int| 0 <= j < i ==> (seen@[j].0@, seen@[j].1@) != (code@, word@),
        decreases seen@.len() - i,
    {
        if str_eq(seen[i].0.as_str(), code) && str_eq(seen[i].1.as_str(), word) {
            assert(pairs_view(seen@)[i as int] == (code@, word@));
            return true;
        }
        i += 1;
    }
    assert forall|j: int| 0 <= j < pairs_view(seen@).len() implies pairs_view(seen@)[j] != (
        code@,
        word@,
    ) by {
        assert(pairs_view(seen@)[j] == (seen@[j].0@, seen@[j].1@));
    }
    false
}

/// Whether `f` is among `forms`.
fn has_form(forms: &Vec<String>, f: &str) -> (r: bool)
    ensures
        r == forms@.map_values(|s: String| s@).contains(f@),
{
    let mut i: usize = 0;
    while i < forms.len()
        invariant
            i <= forms@.len(),
            forall|j: int| 0 <= j < i ==> forms@[j]@ != f@,
        decreases forms@.len() - i,
    {
        if str_eq(forms[i].as_str(), f) {
            assert(forms@.map_values(|s: String| s@)[i as int] == f@);
            return true;
        }
        i += 1;
    }
    let ghost fv = forms@.map_values(|s: String| s@);
    assert forall|j: int| 0 <= j < fv.len() implies #[trigger] fv[j] != f@ by {
        assert(fv[j] == forms@[j]@);
    }
    false
}

/// The search forms kept for `original` out of a variant's transliteration,
/// its standard fold and its ASCII skeleton.
fn alias_forms_of(original: &str, nf: &NormalizedForm) -> (r: Vec<String>)
    ensures
        r@.map_values(|s: String| s@) == alias_forms(
            original@,
            seq![nf.latin@, nf.latin_standard@, nf.skeleton@],
        ),
{
    let ghost fs = seq![nf.latin@, nf.latin_standard@, nf.skeleton@];
    let mut forms: Vec<String> = Vec::new();
    let mut k: usize = 0;
    assert(forms@.map_values(|s: String| s@) =~= alias_forms(original@, fs.take(0)));
    while k < 3
        invariant
            k <= 3,
            fs == seq![nf.latin@, nf.latin_standard@, nf.skeleton@],
            forms@.map_values(|s: String| s@) == alias_forms(original@, fs.take(k as int)),
        decreases 3 - k,
    {
        let f = if k == 0 {
            &nf.latin
        } else if k == 1 {
            &nf.latin_standard
        } else {
            &nf.skeleton
        };
        assert(f@ == fs[k as int]);
        assert(fs.take(k + 1).drop_last() =~= fs.take(k as int));
        let ghost before = forms@;
        if char_len(f.as_str()) >= 2 && !str_eq(f.as_str(), original) && !has_form(&forms, f.as_str()) {
            forms.push(f.clone());
            assert(forms@.map_values(|s: String| s@) =~= before.map_values(|s: String| s@).push(f@));
        }
        k += 1;
    }
    assert(fs.take(3) =~= fs);
    forms
}

/// Folds `(lang, normalised cell variants)` into deduplicated source aliases.
/// Per variant the attested spelling (trimmed, lowercased) is kept with its
/// transliteration, standard fold and ASCII skeleton as search forms. Dedup
/// is by `(lang, attested word)`, through `seen`, which callers share across
/// sources.
pub fn collect_source_aliases(
    cells: &Vec<(String, Vec<NormalizedForm>)>,
    aliases: &mut Vec<SourceAlias>,
    seen: &mut Vec<(String, String)>,
)
    ensures
        (aliases_view(final(aliases)@), pairs_view(final(seen)@)) == alias_cells(
            (aliases_view(old(aliases)@), pairs_view(old(seen)@)),
            cells@,
        ),
{
    let ghost st0 = (aliases_view(old(aliases)@), pairs_view(old(seen)@));
    let mut c: usize = 0;
    while c < cells.len()
        invariant
            c <= cells@.len(),
            st0 == (aliases_view(old(aliases)@), pairs_view(old(seen)@)),
            (aliases_view(aliases@), pairs_view(seen@)) == alias_cells(st0, cells@.take(c as int)),
        decreases cells@.len() - c,
    {
        let code = cells[c].0.as_str();
        let nfs = &cells[c].1;
        let ghost mid = alias_cells(st0, cells@.take(c as int));
        assert(cells@.take(c + 1).drop_last() =~= cells@.take(c as int));
        let mut v: usize = 0;
        assert(nfs@.take(0) =~= Seq::<NormalizedForm>::empty());
        while v < nfs.len()
            invariant
                v <= nfs@.len(),
                (aliases_view(aliases@), pairs_view(seen@)) == alias_steps(mid, code@, nfs@.take(v as int)),
            decreases nfs@.len() - v,
        {
            let nf = &nfs[v];
            assert(nfs@.take(v + 1).drop_last() =~= nfs@.take(v as int));
            let trimmed = trim(nf.original.as_str());
            let original = to_lowercase(trimmed.as_str());
            if char_len(original.as_str()) >= 2 && !has_pair(seen, code, original.as_str()) {
                let ghost a0 = aliases@;
                let ghost s0 = seen@;
                let forms = alias_forms_of(original.as_str(), nf);
                seen.push((string_from_str(code), original.clone()));
                aliases.push((string_from_str(code), original, forms));
                assert(aliases_view(aliases@) =~= aliases_view(a0).push(
                    (code@, lowercase_of(trim_spec(nf.original@)), alias_forms(
                        lowercase_of(trim_spec(nf.original@)),
                        seq![nf.latin@, nf.latin_standard@, nf.skeleton@],
                    )),
                ));
                assert(pairs_view(seen@) =~= pairs_view(s0).push(
                    (code@, lowercase_of(trim_spec(nf.original@))),
                ));
            }
            v += 1;
        }
        assert(nfs@.take(v as int) =~= nfs@);
        c += 1;
    }
    assert(cells@.take(c as int) =~= cells@);
}

/// An owned copy of `s`.
fn string_from_str(s: &str) -> (r: String)
    ensures
        r@ == s@,
{
    crate::strs::string_from(s)
}

/// One alias's JSON: `["ru","пластинка",["plastinka"]]`.
pub open spec fn alias_json(a: (Seq<char>, Seq<char>, Seq<Seq<char>>)) -> Seq<char> {
    seq!['['] + json_str_spec(a.0) + seq![','] + json_str_spec(a.1) + seq![',', '['] + comma_join(
        a.2.map_values(|f: Seq<char>| json_str_spec(f)),
    ) + seq![']', ']']
}

/// The alias list as JSON.
pub open spec fn source_aliases_json_spec(a: Seq<(Seq<char>, Seq<char>, Seq<Seq<char>>)>) -> Seq<char> {
    seq!['['] + comma_join(a.map_values(|x: (Seq<char>, Seq<char>, Seq<Seq<char>>)| alias_json(x)))
        + seq![']']
}

/// The JSON array of a list of strings, without brackets.
fn json_list_body(forms: &Vec<String>) -> (r: String)
    ensures
        r@ == comma_join(forms@.map_values(|s: String| s@).map_values(|f: Seq<char>| json_str_spec(f))),
{
    let ghost parts = forms@.map_values(|s: String| s@).map_values(|f: Seq<char>| json_str_spec(f));
    let mut s = String::new();
    let mut i: usize = 0;
    assert(s@ =~= comma_join(parts.take(0)));
    while i < forms.len()
        invariant
            i <= forms@.len(),
            parts == forms@.map_values(|s: String| s@).map_values(|f: Seq<char>| json_str_spec(f)),
            s@ == comma_join(parts.take(i as int)),
        decreases forms@.len() - i,
    {
        let ghost before = s@;
        if i > 0 {
            push_char(&mut s, ',');
        }
        push_str(&mut s, json_str(forms[i].as_str()).as_str());
        proof {
            lemma_comma_join_push(parts, i as int);
            assert(parts[i as int] == json_str_spec(forms@[i as int]@));
            assert(s@ =~= comma_join(parts.take(i + 1)));
        }
        i += 1;
    }
    assert(parts.take(i as int) =~= parts);
    s
}

/// JSON-encodes the alias list as `[["ru","пластинка",["plastinka"]],…]`.
pub fn source_aliases_json(aliases: &Vec<SourceAlias>) -> (r: String)
    ensures
        r@ == source_aliases_json_spec(aliases_view(aliases@)),
{
    let ghost parts = aliases_view(aliases@).map_values(
        |x: (Seq<char>, Seq<char>, Seq<Seq<char>>)| alias_json(x),
    );
    let mut s = String::new();
    push_char(&mut s, '[');
    let mut i: usize = 0;
    assert(s@ =~= seq!['['] + comma_join(parts.take(0)));
    while i < aliases.len()
        invariant
            i <= aliases@.len(),
            parts == aliases_view(aliases@).map_values(
                |x: (Seq<char>, Seq<char>, Seq<Seq<char>>)| alias_json(x),
            ),
            s@ == seq!['['] + comma_join(parts.take(i as int)),
        decreases aliases@.len() - i,
    {
        if i > 0 {
            push_char(&mut s, ',');
        }
        let a = &aliases[i];
        push_char(&mut s, '[');
        push_str(&mut s, json_str(a.0.as_str()).as_str());
        push_char(&mut s, ',');
        push_str(&mut s, json_str(a.1.as_str()).as_str());
        push_char(&mut s, ',');
        push_char(&mut s, '[');
        push_str(&mut s, json_list_body(&a.2).as_str());
        push_char(&mut s, ']');
        push_char(&mut s, ']');
        proof {
            lemma_comma_join_push(parts, i as int);
            assert(parts[i as int] == alias_json((a.0@, a.1@, a.2@.map_values(|f: String| f@))));
            assert(s@ =~= seq!['['] + comma_join(parts.take(i + 1)));
        }
        i += 1;
    }
    push_char(&mut s, ']');
    assert(parts.take(i as int) =~= parts);
    s
}

/// The first position (from 0) at which `agrees` holds, if any.
pub open spec fn first_true(agrees: Seq<bool>) -> Option<int> {
    if exists|i: int| 0 <= i < agrees.len() && agrees[i] {
        Some(choose|i: int| 0 <= i < agrees.len() && agrees[i] && forall|j: int| 0 <= j < i ==> !agrees[j])
    } else {
        None
    }
}

/// The candidate rank the official lemma's search keys point at: the first
/// candidate that agrees with an official spelling (ranks count from 1),
/// else the top candidate. `agrees[i]` tells whether candidate `i` agrees.
pub fn official_rank(agrees: &Vec<bool>) -> (r: usize)
    ensures
        r >= 1,
        match first_true(agrees@) {
            Some(i) => r == i + 1 && agrees@[i] && forall|j: int| 0 <= j < i ==> !agrees@[j],
            None => r == 1 && forall|j: int| 0 <= j < agrees@.len() ==> !agrees@[j],
        },
{
    let mut i: usize = 0;
    while i < agrees.len()
        invariant
            i <= agrees@.len(),
            forall|j: int| 0 <= j < i ==> !agrees@[j],
        decreases agrees@.len() - i,
    {
        if agrees[i] {
            proof {
                let w = choose|k: int| 0 <= k < agrees@.len() && agrees@[k] && forall|j: int| 0 <= j < k ==> !agrees@[j];
                assert(0 <= i < agrees@.len() && agrees@[i as int] && forall|j: int| 0 <= j < i ==> !agrees@[j]);
                if w < i {
                } else if w > i {
                    assert(!agrees@[i as int]);
                }
            }
            return i + 1;
        }
        i += 1;
    }
    1
}

/// How many generated entries match the official lemma, differ from it, or
/// have no official entry.
pub open spec fn status_count(statuses: Seq<MatchStatus>, s: MatchStatus) -> nat
    decreases statuses.len(),
{
    if statuses.len() == 0 {
        0
    } else {
        status_count(statuses.drop_last(), s) + if statuses.last() == s { 1nat } else { 0nat }
    }
}

/// The export's match tally: entries whose top candidate matches the
/// official lemma, differs from it, or has no official entry.
pub fn status_tally(statuses: &Vec<MatchStatus>) -> (r: (usize, usize, usize))
    ensures
        r.0 == status_count(statuses@, MatchStatus::OfficialMatch),
        r.1 == status_count(statuses@, MatchStatus::DiffersFromOfficial),
        r.2 == status_count(statuses@, MatchStatus::NoOfficialEntry),
{
    let (mut a, mut b, mut c): (usize, usize, usize) = (0, 0, 0);
    let mut i: usize = 0;
    while i < statuses.len()
        invariant
            i <= statuses@.len(),
            a == status_count(statuses@.take(i as int), MatchStatus::OfficialMatch),
            b == status_count(statuses@.take(i as int), MatchStatus::DiffersFromOfficial),
            c == status_count(statuses@.take(i as int), MatchStatus::NoOfficialEntry),
            a + b + c == i,
        decreases statuses@.len() - i,
    {
        assert(statuses@.take(i + 1).drop_last() =~= statuses@.take(i as int));
        assert(statuses@.take(i + 1).last() == statuses@[i as int]);
        match statuses[i] {
            MatchStatus::OfficialMatch => a += 1,
            MatchStatus::DiffersFromOfficial => b += 1,
            MatchStatus::NoOfficialEntry => c += 1,
        }
        i += 1;
    }
    assert(statuses@.take(i as int) =~= statuses@);
    (a, b, c)
}

/// The gloss tokens of an official headword that become search keys at rank
/// 6 (no candidate anchor), in order: a token is kept when it has at least
/// three characters, is not `taken`, and was not kept before.
pub open spec fn gloss_token_keys(toks: Seq<Seq<char>>, taken: Seq<Seq<char>>) -> Seq<(Seq<char>, usize)>
    decreases toks.len(),
{
    if toks.len() == 0 {
        Seq::empty()
    } else {
        let pre = gloss_token_keys(toks.drop_last(), taken);
        let t = toks.last();
        if t.len() >= 3 && !taken.contains(t) && !key_firsts(pre).contains(t) {
            pre.push((t, 6usize))
        } else {
            pre
        }
    }
}

/// Adds the official English gloss tokens of a matched entry as keys (see
/// `gloss_token_keys`; the keys already there are taken).
pub fn add_gloss_token_keys(keys: &mut Vec<(String, usize)>, tokens: &Vec<String>)
    ensures
        keys_view(final(keys)@) == keys_view(old(keys)@) + gloss_token_keys(
            strs_view(tokens@),
            key_firsts(keys_view(old(keys)@)),
        ),
{
    let ghost base = keys_view(keys@);
    let ghost taken = key_firsts(base);
    let ghost tv = strs_view(tokens@);
    let mut i: usize = 0;
    assert(tv.take(0) =~= Seq::<Seq<char>>::empty());
    assert(keys_view(keys@) =~= base + Seq::<(Seq<char>, usize)>::empty());
    while i < tokens.len()
        invariant
            i <= tokens@.len(),
            tv == strs_view(tokens@),
            taken == key_firsts(base),
            keys_view(keys@) == base + gloss_token_keys(tv.take(i as int), taken),
        decreases tokens@.len() - i,
    {
        let t = tokens[i].as_str();
        let ghost pre = gloss_token_keys(tv.take(i as int), taken);
        let ghost cur = keys_view(keys@);
        assert(tv.take(i + 1).drop_last() =~= tv.take(i as int));
        assert(tv.take(i + 1).last() == t@);
        assert(key_firsts(cur) =~= taken + key_firsts(pre));
        let fresh = !has_key(keys, t);
        proof {
            assert(fresh == !(taken.contains(t@) || key_firsts(pre).contains(t@))) by {
                if key_firsts(cur).contains(t@) {
                    let w = choose|w: int| 0 <= w < key_firsts(cur).len() && key_firsts(cur)[w] == t@;
                    if w < taken.len() {
                        assert(taken[w] == t@);
                    } else {
                        assert(key_firsts(pre)[w - taken.len()] == t@);
                    }
                }
                if taken.contains(t@) {
                    let w = choose|w: int| 0 <= w < taken.len() && taken[w] == t@;
                    assert(key_firsts(cur)[w] == t@);
                }
                if key_firsts(pre).contains(t@) {
                    let w = choose|w: int| 0 <= w < key_firsts(pre).len() && key_firsts(pre)[w] == t@;
                    assert(key_firsts(cur)[taken.len() + w] == t@);
                }
            }
        }
        if char_len(t) >= 3 && fresh {
            keys.push((string_from_str(t), 6));
            assert(keys_view(keys@) =~= cur.push((t@, 6usize)));
        }
        i += 1;
    }
    assert(tv.take(i as int) =~= tv);
}

/// The keys of an official-only or raw page: its spelling folds at rank 1,
/// each unless shorter than two characters, equal to the lowercased
/// display, or already a key.
pub fn headword_keys(folds: &Vec<String>, display: &str) -> (r: Vec<(String, usize)>)
    ensures
        keys_view(r@) == new_keys(strs_view(folds@).map_values(|f: Seq<char>| (f, 1usize)), seq![lowercase_of(display@)]),
{
    let ghost fv = strs_view(folds@).map_values(|f: Seq<char>| (f, 1usize));
    let mut props: Vec<(String, usize)> = Vec::new();
    let mut i: usize = 0;
    while i < folds.len()
        invariant
            i <= folds@.len(),
            fv == strs_view(folds@).map_values(|f: Seq<char>| (f, 1usize)),
            keys_view(props@) == fv.take(i as int),
        decreases folds@.len() - i,
    {
        let ghost before = keys_view(props@);
        assert(strs_view(folds@)[i as int] == folds@[i as int]@);
        assert(fv[i as int] == (folds@[i as int]@, 1usize));
        props.push((string_from_str(folds[i].as_str()), 1));
        assert(keys_view(props@) =~= before.push(fv[i as int]));
        assert(fv.take(i + 1) =~= fv.take(i as int).push(fv[i as int]));
        i += 1;
    }
    assert(fv.take(i as int) =~= fv);
    let mut keys: Vec<(String, usize)> = Vec::new();
    let dl = to_lowercase(display);
    push_new_keys(&mut keys, props, dl.as_str());
    assert(keys_view(Seq::<(String, usize)>::empty()) =~= Seq::<(Seq<char>, usize)>::empty());
    assert(seq![lowercase_of(display@)] + key_firsts(Seq::<(Seq<char>, usize)>::empty()) =~= seq![lowercase_of(display@)]);
    assert(keys_view(keys@) =~= Seq::<(Seq<char>, usize)>::empty() + new_keys(fv, seq![lowercase_of(display@)]));
    keys
}

/// What a search row says of an entry's match: an official headword (`O`),
/// a generated form without one (`N`), or a raw attestation (`R`).
pub enum SearchStatus {
    Official,
    Unmatched,
    Raw,
}

/// The letter of a search status.
pub open spec fn status_letter(s: SearchStatus) -> Seq<char> {
    match s {
        SearchStatus::Official => "O"@,
        SearchStatus::Unmatched => "N"@,
        SearchStatus::Raw => "R"@,
    }
}

/// One entry's row of the search index: a 13-element JSON array of the page
/// id, display form, gloss (70 characters), part-of-speech code, status
/// letter, confidence letter, keys `[[key,rank],…]`, number of languages,
/// number of branches, borrowed (0/1), quality label, Proto-Slavic ancestor,
/// and source aliases `[[lang,word,[folds]],…]`.
pub open spec fn search_row_spec(
    id: usize,
    display: Seq<char>,
    gloss: Seq<char>,
    pos_code: Seq<char>,
    status: SearchStatus,
    conf: Confidence,
    keys: Seq<(Seq<char>, usize)>,
    n_langs: usize,
    n_branches: usize,
    borrowed: bool,
    quality: Seq<char>,
    ancestor: Seq<char>,
    aliases: Seq<(Seq<char>, Seq<char>, Seq<Seq<char>>)>,
) -> Seq<char> {
    row_head(id, display, gloss, pos_code, status, conf) + row_counts(keys, n_langs, n_branches, borrowed)
        + row_tail(quality, ancestor, aliases)
}

/// The first six elements of a search row, and a comma.
pub open spec fn row_head(id: usize, display: Seq<char>, gloss: Seq<char>, pos_code: Seq<char>, status: SearchStatus, conf: Confidence) -> Seq<char> {
    seq!['['] + decimal(id as nat) + seq![','] + json_str_spec(display) + seq![','] + json_str_spec(truncate_spec(gloss, 70))
        + seq![','] + json_str_spec(pos_code) + seq![','] + json_str_spec(status_letter(status)) + seq![',']
        + json_str_spec(conf_letter_spec(conf)) + seq![',']
}

/// The keys and counts of a search row, and a comma.
pub open spec fn row_counts(keys: Seq<(Seq<char>, usize)>, n_langs: usize, n_branches: usize, borrowed: bool) -> Seq<char> {
    keys_json_spec(keys) + seq![','] + decimal(n_langs as nat) + seq![','] + decimal(n_branches as nat) + seq![',']
        + (if borrowed { seq!['1'] } else { seq!['0'] }) + seq![',']
}

/// The last three elements of a search row, closing it.
pub open spec fn row_tail(quality: Seq<char>, ancestor: Seq<char>, aliases: Seq<(Seq<char>, Seq<char>, Seq<Seq<char>>)>) -> Seq<char> {
    json_str_spec(quality) + seq![','] + json_str_spec(ancestor) + seq![','] + source_aliases_json_spec(aliases) + seq![']']
}

fn push_row_head(r: &mut String, id: usize, display: &str, gloss: &str, pos_code: &str, status: SearchStatus, conf: Confidence)
    ensures
        final(r)@ == old(r)@ + row_head(id, display@, gloss@, pos_code@, status, conf),
{
    let letter = match status {
        SearchStatus::Official => "O",
        SearchStatus::Unmatched => "N",
        SearchStatus::Raw => "R",
    };
    assert(letter@ == status_letter(status));
    let d = json_str(display);
    let g = json_str(truncate(gloss, 70).as_str());
    let p = json_str(pos_code);
    let l = json_str(letter);
    let c = json_str(conf_letter(conf));
    let ghost r0 = r@;
    push_char(r, '[');
    push_decimal(r, id);
    push_char(r, ',');
    push_str(r, d.as_str());
    push_char(r, ',');
    push_str(r, g.as_str());
    push_char(r, ',');
    push_str(r, p.as_str());
    push_char(r, ',');
    push_str(r, l.as_str());
    push_char(r, ',');
    push_str(r, c.as_str());
    push_char(r, ',');
    assert(r@ =~= r0 + (seq!['['] + decimal(id as nat) + seq![','] + d@ + seq![','] + g@ + seq![','] + p@ + seq![','] + l@
        + seq![','] + c@ + seq![',']));
}

fn push_row_counts(r: &mut String, keys: &Vec<(String, usize)>, n_langs: usize, n_branches: usize, borrowed: bool)
    ensures
        final(r)@ == old(r)@ + row_counts(keys_view(keys@), n_langs, n_branches, borrowed),
{
    let ghost r0 = r@;
    push_str(r, keys_json(keys).as_str());
    push_char(r, ',');
    push_decimal(r, n_langs);
    push_char(r, ',');
    push_decimal(r, n_branches);
    push_char(r, ',');
    push_char(r, if borrowed { '1' } else { '0' });
    push_char(r, ',');
    assert(r@ =~= r0 + row_counts(keys_view(keys@), n_langs, n_branches, borrowed));
}

fn push_row_tail(r: &mut String, quality: &str, ancestor: &str, aliases: &Vec<SourceAlias>)
    ensures
        final(r)@ == old(r)@ + row_tail(quality@, ancestor@, aliases_view(aliases@)),
{
    let ghost r0 = r@;
    push_str(r, json_str(quality).as_str());
    push_char(r, ',');
    push_str(r, json_str(ancestor).as_str());
    push_char(r, ',');
    push_str(r, source_aliases_json(aliases).as_str());
    push_char(r, ']');
    assert(r@ =~= r0 + row_tail(quality@, ancestor@, aliases_view(aliases@)));
}

/// One entry's row of the search index (see `search_row_spec`).
#[allow(clippy::too_many_arguments)]
pub fn search_row(
    id: usize,
    display: &str,
    gloss: &str,
    pos_code: &str,
    status: SearchStatus,
    conf: Confidence,
    keys: &Vec<(String, usize)>,
    n_langs: usize,
    n_branches: usize,
    borrowed: bool,
    quality: &str,
    ancestor: &str,
    aliases: &Vec<SourceAlias>,
) -> (r: String)
    ensures
        r@ == search_row_spec(
            id,
            display@,
            gloss@,
            pos_code@,
            status,
            conf,
            keys_view(keys@),
            n_langs,
            n_branches,
            borrowed,
            quality@,
            ancestor@,
            aliases_view(aliases@),
        ),
{
    let mut r = String::new();
    push_row_head(&mut r, id, display, gloss, pos_code, status, conf);
    push_row_counts(&mut r, keys, n_langs, n_branches, borrowed);
    push_row_tail(&mut r, quality, ancestor, aliases);
    assert(r@ =~= row_head(id, display@, gloss@, pos_code@, status, conf) + row_counts(keys_view(keys@), n_langs, n_branches, borrowed)
        + row_tail(quality@, ancestor@, aliases_view(aliases@)));
    r
}

/// The rows joined one per line with commas.
pub open spec fn rows_joined(rows: Seq<Seq<char>>) -> Seq<char>
    decreases rows.len(),
{
    if rows.len() == 0 {
        Seq::empty()
    } else if rows.len() == 1 {
        rows[0]
    } else {
        rows_joined(rows.drop_last()) + ",\n"@ + rows.last()
    }
}

/// The search index file: the rows in a JSON array, one per line.
pub open spec fn search_json_spec(rows: Seq<Seq<char>>) -> Seq<char> {
    "[\n"@ + rows_joined(rows) + "\n]\n"@
}

/// The search index file around its rows (see `search_json_spec`).
pub fn search_json(rows: &Vec<String>) -> (r: String)
    ensures
        r@ == search_json_spec(strs_view(rows@)),
{
    let ghost rv = strs_view(rows@);
    let mut s = String::new();
    let mut i: usize = 0;
    assert(rv.take(0) =~= Seq::<Seq<char>>::empty());
    while i < rows.len()
        invariant
            i <= rows@.len(),
            rv == strs_view(rows@),
            s@ == rows_joined(rv.take(i as int)),
        decreases rows@.len() - i,
    {
        assert(rv.take(i + 1).drop_last() =~= rv.take(i as int));
        assert(rv.take(i + 1).last() == rows@[i as int]@);
        if i > 0 {
            push_str(&mut s, ",\n");
        }
        push_str(&mut s, rows[i].as_str());
        i += 1;
    }
    assert(rv.take(i as int) =~= rv);
    let mut r = string_from_str("[\n");
    push_str(&mut r, s.as_str());
    push_str(&mut r, "\n]\n");
    r
}

} // verus!

//! English → Interslavic lookup keys for the static translation API.
//!
//! A gloss such as `to save, rescue` is turned into the English keys under
//! which its lemma is indexed (`save`, `rescue`), each tagged with why it
//! matched: the head of a gloss segment (`exact-gloss-head`), a multi-word
//! head (`phrase`), or a single word from a phrase or a short parenthetical
//! note (`gloss-token`). Keys are normalized the same way user queries are,
//! and routed to one of 256 shards by FNV-1a.

use vstd::prelude::*;
use vstd::utf8::encode_utf8;
use vstd::string::StringSliceAdditionalSpecFns;
use crate::split::{
    ends_with, find_char, first_index, last_index, lemma_trim_len, replace_all, replace_spec,
    rfind_char, slice_vec, split_char, split_char_spec, split_ws, starts_with, trim_vec, vv,
    ws_tokens,
};
use crate::strs::{
    char_is_alphanumeric, chars_of, contains_sub, has_char, is_alnum, lowercase_of, str_contains,
    str_eq, string_from, string_of, to_lowercase, trim_spec,
};

verus! {

broadcast use vstd::string::group_string_axioms;

/// Number of English API shards.
pub const EN_SHARDS: u32 = 256;

/// A list of `(key, match kind)` pairs, by value.
pub open spec fn pairs_view(v: Seq<(String, String)>) -> Seq<(Seq<char>, Seq<char>)> {
    v.map_values(|p: (String, String)| (p.0@, p.1@))
}

/// Left-to-right scan of query normalization: the output so far and whether
/// the last character written was a separating space.
pub open spec fn norm_scan(s: Seq<char>) -> (Seq<char>, bool)
    decreases s.len(),
{
    if s.len() == 0 {
        (seq![], true)
    } else {
        let (o, last_space) = norm_scan(s.drop_last());
        let c = s.last();
        if is_alnum(c) {
            (o.push(c), false)
        } else if !last_space {
            (o.push(' '), true)
        } else {
            (o, last_space)
        }
    }
}

/// A query normalized for lookup: lowercased, every run of non-alphanumeric
/// characters turned into one space, and trimmed.
pub open spec fn normalize_spec(raw: Seq<char>) -> Seq<char> {
    trim_spec(norm_scan(lowercase_of(raw)).0)
}

/// Lowercases, collapses punctuation and whitespace runs into single spaces,
/// and trims.
pub fn normalize_english_query(raw: &str) -> (r: String)
    ensures
        r@ == normalize_spec(raw@),
{
    let lower = to_lowercase(raw);
    let cs = chars_of(lower.as_str());
    let mut out: Vec<char> = Vec::new();
    let mut last_space = true;
    let mut i: usize = 0;
    while i < cs.len()
        invariant
            0 <= i <= cs@.len(),
            (out@, last_space) == norm_scan(cs@.take(i as int)),
        decreases cs@.len() - i,
    {
        let c = cs[i];
        assert(cs@.take(i + 1).drop_last() =~= cs@.take(i as int));
        if char_is_alphanumeric(c) {
            out.push(c);
            last_space = false;
        } else if !last_space {
            out.push(' ');
            last_space = true;
        }
        i += 1;
    }
    assert(cs@.take(cs@.len() as int) =~= cs@);
    let t = trim_vec(&out);
    string_of(&t)
}

fn normalize_vec(v: &Vec<char>) -> (r: Vec<char>)
    ensures
        r@ == normalize_spec(v@),
{
    let s = string_of(v);
    let n = normalize_english_query(s.as_str());
    chars_of(n.as_str())
}

/// One FNV-1a round: xor in the byte, multiply by the 32-bit FNV prime.
pub open spec fn fnv_step(h: u32, b: u8) -> u32 {
    (((h ^ (b as u32)) as nat * 16777619nat) % 4294967296nat) as u32
}

/// 32-bit FNV-1a hash of a byte string.
pub open spec fn fnv_spec(bytes: Seq<u8>) -> u32
    decreases bytes.len(),
{
    if bytes.len() == 0 {
        0x811c9dc5u32
    } else {
        fnv_step(fnv_spec(bytes.drop_last()), bytes.last())
    }
}

/// 32-bit FNV-1a of the UTF-8 bytes of `s` (the router shared with the
/// browser client).
pub fn fnv1a32(s: &str) -> (h: u32)
    ensures
        h == fnv_spec(s.spec_bytes()),
{
    let bytes = s.as_bytes();
    let mut h: u32 = 0x811c9dc5u32;
    let mut i: usize = 0;
    while i < bytes.len()
        invariant
            bytes@ == s.spec_bytes(),
            0 <= i <= bytes@.len(),
            h == fnv_spec(bytes@.take(i as int)),
        decreases bytes@.len() - i,
    {
        assert(bytes@.take(i + 1).drop_last() =~= bytes@.take(i as int));
        let x: u32 = h ^ (bytes[i] as u32);
        let wide: u64 = (x as u64) * 16777619u64;
        h = (wide % 4294967296u64) as u32;
        i += 1;
    }
    assert(bytes@.take(bytes@.len() as int) =~= bytes@);
    h
}

/// The English API shard that holds `key`.
pub fn english_shard_of(key: &str) -> (r: u32)
    ensures
        r == fnv_spec(key.spec_bytes()) % 256,
        r < EN_SHARDS,
{
    fnv1a32(key) % EN_SHARDS
}

/// Function words and grammatical labels that are never lookup keys.
pub open spec fn is_stopword_spec(k: Seq<char>) -> bool {
    k == "a"@ || k == "an"@ || k == "and"@ || k == "archaic"@ || k == "dative"@ || k == "etc"@
        || k == "form"@ || k == "genitive"@ || k == "in"@ || k == "instrumental"@ || k
        == "locative"@ || k == "nominative"@ || k == "obsolete"@ || k == "of"@ || k == "one"@ || k
        == "or"@ || k == "plural"@ || k == "singular"@ || k == "someone"@ || k == "something"@ || k
        == "the"@ || k == "to"@ || k == "used"@ || k == "variant"@
}

/// Whether `key` is one of the stopwords.
pub fn is_stopword(key: &str) -> (r: bool)
    ensures
        r == is_stopword_spec(key@),
{
    str_eq(key, "a") || str_eq(key, "an") || str_eq(key, "and") || str_eq(key, "archaic")
        || str_eq(key, "dative") || str_eq(key, "etc") || str_eq(key, "form") || str_eq(
        key,
        "genitive",
    ) || str_eq(key, "in") || str_eq(key, "instrumental") || str_eq(key, "locative") || str_eq(
        key,
        "nominative",
    ) || str_eq(key, "obsolete") || str_eq(key, "of") || str_eq(key, "one") || str_eq(key, "or")
        || str_eq(key, "plural") || str_eq(key, "singular") || str_eq(key, "someone") || str_eq(
        key,
        "something",
    ) || str_eq(key, "the") || str_eq(key, "to") || str_eq(key, "used") || str_eq(key, "variant")
}

/// A key worth indexing: 2 to 48 characters, not a stopword, and not an
/// `… of …`, `… etc` or `used …` fragment.
pub open spec fn usable_spec(k: Seq<char>) -> bool {
    2 <= k.len() <= 48 && !is_stopword_spec(k) && !contains_sub(k, " of "@) && !" etc"@.is_suffix_of(
        k,
    ) && !"used "@.is_prefix_of(k)
}

/// Whether `key` is worth indexing.
pub fn usable_key(key: &str) -> (r: bool)
    ensures
        r == usable_spec(key@),
{
    let kv = chars_of(key);
    let n = kv.len();
    if n < 2 || n > 48 || is_stopword(key) || str_contains(key, " of ") {
        return false;
    }
    let etc = chars_of(" etc");
    let used = chars_of("used ");
    !ends_with(&kv, &etc) && !starts_with(&kv, &used)
}

/// The part of a gloss that carries English meaning: for a derived entry
/// (`pridavnik ← Abhazija (Abkhazia)`) the text between the first `(` and the
/// last `)`, otherwise the whole gloss.
pub open spec fn lookup_spec(g: Seq<char>) -> Seq<char> {
    let o = first_index(g, '(');
    let c = last_index(g, ')');
    if g.contains('←') && o is Some && c is Some && o.unwrap() < c.unwrap() {
        g.subrange(o.unwrap() as int + 1, c.unwrap() as int)
    } else {
        g
    }
}

/// The English-bearing part of a gloss.
pub fn english_lookup_gloss(gloss: &str) -> (r: String)
    ensures
        r@ == lookup_spec(gloss@),
{
    let g = chars_of(gloss);
    if has_char(&g, '←') {
        match (find_char(&g, '('), rfind_char(&g, ')')) {
            (Some(open), Some(close)) => {
                if open < close {
                    let inner = slice_vec(&g, open + 1, close);
                    return string_of(&inner);
                }
            },
            _ => {},
        }
    }
    string_from(gloss)
}

/// Left-to-right scan that cuts a gloss at top-level `,` `;` `/`: finished
/// segments, the current segment, and the bracket depth.
pub open spec fn seg_scan(s: Seq<char>) -> (Seq<Seq<char>>, Seq<char>, nat)
    decreases s.len(),
{
    if s.len() == 0 {
        (seq![], seq![], 0)
    } else {
        let (done, cur, d) = seg_scan(s.drop_last());
        let c = s.last();
        if c == '(' || c == '[' || c == '{' {
            (done, cur.push(c), d + 1)
        } else if c == ')' || c == ']' || c == '}' {
            (done, cur.push(c), if d > 0 { (d - 1) as nat } else { 0 })
        } else if (c == ',' || c == ';' || c == '/') && d == 0 {
            (done.push(cur), seq![], d)
        } else {
            (done, cur.push(c), d)
        }
    }
}

/// The top-level segments of a gloss; separators inside brackets do not cut.
pub open spec fn segments_spec(s: Seq<char>) -> Seq<Seq<char>> {
    let (done, cur, _d) = seg_scan(s);
    done.push(cur)
}

proof fn lemma_seg_depth(s: Seq<char>)
    ensures
        seg_scan(s).2 <= s.len(),
    decreases s.len(),
{
    if s.len() > 0 {
        lemma_seg_depth(s.drop_last());
    }
}

/// One step of the segment scan.
pub open spec fn seg_step(st: (Seq<Seq<char>>, Seq<char>, nat), c: char) -> (Seq<Seq<char>>, Seq<char>, nat) {
    let (done, cur, d) = st;
    if c == '(' || c == '[' || c == '{' {
        (done, cur.push(c), d + 1)
    } else if c == ')' || c == ']' || c == '}' {
        (done, cur.push(c), if d > 0 { (d - 1) as nat } else { 0 })
    } else if d == 0 && (c == ',' || c == ';' || c == '/') {
        (done.push(cur), seq![], d)
    } else {
        (done, cur.push(c), d)
    }
}

/// The segment scan continued from state `st` over `s`.
pub open spec fn seg_from(st: (Seq<Seq<char>>, Seq<char>, nat), s: Seq<char>) -> (Seq<Seq<char>>, Seq<char>, nat)
    decreases s.len(),
{
    if s.len() == 0 {
        st
    } else {
        seg_step(seg_from(st, s.drop_last()), s.last())
    }
}

proof fn lemma_seg_scan_from(s: Seq<char>)
    ensures
        seg_scan(s) == seg_from((seq![], seq![], 0), s),
    decreases s.len(),
{
    if s.len() > 0 {
        lemma_seg_scan_from(s.drop_last());
    }
}

proof fn lemma_seg_from_concat(st: (Seq<Seq<char>>, Seq<char>, nat), x: Seq<char>, y: Seq<char>)
    ensures
        seg_from(st, x + y) == seg_from(seg_from(st, x), y),
    decreases y.len(),
{
    if y.len() == 0 {
        assert(x + y =~= x);
    } else {
        assert((x + y).drop_last() =~= x + y.drop_last());
        assert((x + y).last() == y.last());
        lemma_seg_from_concat(st, x, y.drop_last());
    }
}

proof fn lemma_seg_from_prefix_done(pre: Seq<Seq<char>>, e: Seq<Seq<char>>, c: Seq<char>, d: nat, y: Seq<char>)
    ensures
        ({
            let r = seg_from((e, c, d), y);
            seg_from((pre + e, c, d), y) == (pre + r.0, r.1, r.2)
        }),
    decreases y.len(),
{
    if y.len() > 0 {
        lemma_seg_from_prefix_done(pre, e, c, d, y.drop_last());
        let r = seg_from((e, c, d), y.drop_last());
        assert((pre + r.0).push(r.1) =~= pre + r.0.push(r.1));
    }
}

/// Whether `s` opens no bracket.
pub open spec fn opens_no_bracket(s: Seq<char>) -> bool {
    forall|i: int| 0 <= i < s.len() ==> s[i] != '(' && s[i] != '[' && s[i] != '{'
}

/// Whether `s` holds none of the separators `,` `;` `/`.
pub open spec fn has_no_separator(s: Seq<char>) -> bool {
    forall|i: int| 0 <= i < s.len() ==> s[i] != ',' && s[i] != ';' && s[i] != '/'
}

proof fn lemma_seg_scan_flat(s: Seq<char>)
    requires
        opens_no_bracket(s),
    ensures
        seg_scan(s).2 == 0,
        has_no_separator(seg_scan(s).1),
        forall|k: int| 0 <= k < seg_scan(s).0.len() ==> has_no_separator(#[trigger] seg_scan(s).0[k]),
    decreases s.len(),
{
    if s.len() > 0 {
        let p = s.drop_last();
        assert forall|i: int| 0 <= i < p.len() implies p[i] != '(' && p[i] != '[' && p[i] != '{' by {
            assert(p[i] == s[i]);
        }
        lemma_seg_scan_flat(p);
        assert(s.last() == s[s.len() - 1]);
        let (done, cur, d) = seg_scan(p);
        let c = s.last();
        if (c == ',' || c == ';' || c == '/') {
            assert forall|k: int| 0 <= k < done.push(cur).len() implies has_no_separator(#[trigger] done.push(cur)[k]) by {
                if k < done.len() {
                    assert(done.push(cur)[k] == done[k]);
                }
            }
        } else {
            assert forall|i: int| 0 <= i < cur.push(c).len() implies cur.push(c)[i] != ',' && cur.push(c)[i] != ';' && cur.push(c)[i] != '/' by {
                if i < cur.len() {
                    assert(cur.push(c)[i] == cur[i]);
                }
            }
        }
    }
}

/// Outside brackets every `,`, `;` and `/` cuts a gloss: no segment of a
/// gloss that opens no bracket holds one, and a separator after a part
/// that opens no bracket splits the segments into those of the part
/// before and those of the part after.
pub proof fn lemma_segments_cut_at_separators(a: Seq<char>, c: char, b: Seq<char>)
    requires
        opens_no_bracket(a),
        c == ',' || c == ';' || c == '/',
    ensures
        segments_spec(a + seq![c] + b) == segments_spec(a) + segments_spec(b),
        forall|k: int| 0 <= k < segments_spec(a).len() ==> has_no_separator(#[trigger] segments_spec(a)[k]),
{
    let init: (Seq<Seq<char>>, Seq<char>, nat) = (seq![], seq![], 0);
    lemma_seg_scan_flat(a);
    lemma_seg_scan_from(a);
    lemma_seg_scan_from(b);
    lemma_seg_scan_from(a + seq![c] + b);
    lemma_seg_from_concat(init, a + seq![c], b);
    lemma_seg_from_concat(init, a, seq![c]);
    let (da, ca, _d) = seg_scan(a);
    let st = seg_from(init, a);
    assert(st == (da, ca, 0nat));
    let one = seq![c];
    assert(one.drop_last() =~= Seq::<char>::empty());
    assert(one.last() == c);
    assert(seg_from(st, one.drop_last()) == st);
    assert(seg_from(st, one) == seg_step(st, c));
    assert(seg_from(seg_from(init, a), seq![c]) == (da.push(ca), Seq::<char>::empty(), 0nat));
    lemma_seg_from_prefix_done(da.push(ca), seq![], seq![], 0, b);
    assert(da.push(ca) + Seq::<Seq<char>>::empty() =~= da.push(ca));
    let rb = seg_scan(b);
    assert(segments_spec(a + seq![c] + b) =~= (da.push(ca) + rb.0).push(rb.1));
    assert((da.push(ca) + rb.0).push(rb.1) =~= da.push(ca) + rb.0.push(rb.1));
    assert forall|k: int| 0 <= k < segments_spec(a).len() implies has_no_separator(#[trigger] segments_spec(a)[k]) by {
        if k < da.len() {
            assert(segments_spec(a)[k] == da[k]);
        }
    }
}

/// Whether `s` holds no bracket at all.
pub open spec fn bracket_free(s: Seq<char>) -> bool {
    forall|i: int| 0 <= i < s.len() ==> s[i] != '(' && s[i] != '[' && s[i] != '{' && s[i] != ')' && s[i] != ']' && s[i] != '}'
}

proof fn lemma_seg_from_inside(done: Seq<Seq<char>>, cur: Seq<char>, d: nat, x: Seq<char>)
    requires
        d > 0,
        bracket_free(x),
    ensures
        seg_from((done, cur, d), x) == (done, cur + x, d),
    decreases x.len(),
{
    if x.len() == 0 {
        assert(cur + x =~= cur);
    } else {
        let p = x.drop_last();
        assert forall|i: int| 0 <= i < p.len() implies p[i] != '(' && p[i] != '[' && p[i] != '{' && p[i] != ')' && p[i] != ']' && p[i] != '}' by {
            assert(p[i] == x[i]);
        }
        lemma_seg_from_inside(done, cur, d, p);
        assert(x.last() == x[x.len() - 1]);
        assert((cur + p).push(x.last()) =~= cur + x);
    }
}

/// Inside an open bracket nothing cuts: after a part that opens no
/// bracket, an opening bracket and any bracket-free text (separators
/// included) all join the part's last segment.
pub proof fn lemma_segments_keep_bracketed_text(a: Seq<char>, o: char, x: Seq<char>)
    requires
        opens_no_bracket(a),
        o == '(' || o == '[' || o == '{',
        bracket_free(x),
    ensures
        segments_spec(a + seq![o] + x) == segments_spec(a).drop_last().push(segments_spec(a).last() + seq![o] + x),
{
    let init: (Seq<Seq<char>>, Seq<char>, nat) = (seq![], seq![], 0);
    lemma_seg_scan_flat(a);
    lemma_seg_scan_from(a);
    lemma_seg_scan_from(a + seq![o] + x);
    lemma_seg_from_concat(init, a + seq![o], x);
    lemma_seg_from_concat(init, a, seq![o]);
    let (da, ca, _d) = seg_scan(a);
    let st = seg_from(init, a);
    assert(st == (da, ca, 0nat));
    let one = seq![o];
    assert(one.drop_last() =~= Seq::<char>::empty());
    assert(one.last() == o);
    assert(seg_from(st, one.drop_last()) == st);
    assert(seg_from(st, one) == seg_step(st, o));
    assert(seg_from(seg_from(init, a), one) == (da, ca.push(o), 1nat));
    lemma_seg_from_inside(da, ca.push(o), 1, x);
    assert(segments_spec(a).drop_last() =~= da);
    assert(segments_spec(a).last() == ca);
    assert(ca.push(o) + x =~= ca + seq![o] + x);
}

fn split_gloss_segments_vec(g: &Vec<char>) -> (r: Vec<Vec<char>>)
    ensures
        vv(r@) == segments_spec(g@),
{
    let mut done: Vec<Vec<char>> = Vec::new();
    let mut cur: Vec<char> = Vec::new();
    let mut depth: usize = 0;
    let mut i: usize = 0;
    while i < g.len()
        invariant
            0 <= i <= g@.len(),
            depth <= i,
            (vv(done@), cur@, depth as nat) == seg_scan(g@.take(i as int)),
        decreases g@.len() - i,
    {
        let c = g[i];
        assert(g@.take(i + 1).drop_last() =~= g@.take(i as int));
        if c == '(' || c == '[' || c == '{' {
            cur.push(c);
            depth += 1;
        } else if c == ')' || c == ']' || c == '}' {
            cur.push(c);
            if depth > 0 {
                depth -= 1;
            }
        } else if (c == ',' || c == ';' || c == '/') && depth == 0 {
            let t = cur;
            done.push(t);
            cur = Vec::new();
        } else {
            cur.push(c);
        }
        assert(vv(done@) =~= seg_scan(g@.take(i + 1)).0);
        assert(cur@ =~= seg_scan(g@.take(i + 1)).1);
        i += 1;
    }
    assert(g@.take(g@.len() as int) =~= g@);
    done.push(cur);
    assert(vv(done@) =~= segments_spec(g@));
    done
}

/// Cuts a gloss into its top-level `,` / `;` / `/`-separated segments.
pub fn split_gloss_segments(gloss: &str) -> (r: Vec<String>)
    ensures
        r@.map_values(|s: String| s@) == segments_spec(gloss@),
{
    let g = chars_of(gloss);
    let parts = split_gloss_segments_vec(&g);
    let mut r: Vec<String> = Vec::new();
    let mut i: usize = 0;
    while i < parts.len()
        invariant
            0 <= i <= parts@.len(),
            r@.map_values(|s: String| s@) == vv(parts@).take(i as int),
        decreases parts@.len() - i,
    {
        let ghost before = r@.map_values(|s: String| s@);
        let piece = string_of(&parts[i]);
        r.push(piece);
        assert(r@.map_values(|s: String| s@) =~= before.push(parts@[i as int]@));
        assert(vv(parts@).take(i + 1) =~= vv(parts@).take(i as int).push(parts@[i as int]@));
        i += 1;
    }
    assert(vv(parts@).take(parts@.len() as int) =~= vv(parts@));
    r
}

/// A segment split into its trimmed head and, when it has a `(…)` group,
/// the trimmed text between the first `(` and the last `)`.
pub open spec fn split_paren_spec(s: Seq<char>) -> (Seq<char>, Option<Seq<char>>) {
    let o = first_index(s, '(');
    let c = last_index(s, ')');
    if o is Some && c is Some && o.unwrap() < c.unwrap() {
        (
            trim_spec(s.subrange(0, o.unwrap() as int)),
            Some(trim_spec(s.subrange(o.unwrap() as int + 1, c.unwrap() as int))),
        )
    } else {
        (trim_spec(s), None)
    }
}

fn split_parenthetical_vec(s: &Vec<char>) -> (r: (Vec<char>, Option<Vec<char>>))
    ensures
        r.0@ == split_paren_spec(s@).0,
        r.1 is Some <==> split_paren_spec(s@).1 is Some,
        r.1 matches Some(n) ==> split_paren_spec(s@).1 == Some(n@),
{
    match (find_char(s, '('), rfind_char(s, ')')) {
        (Some(open), Some(close)) => {
            if open < close {
                let head = slice_vec(s, 0, open);
                let note = slice_vec(s, open + 1, close);
                return (trim_vec(&head), Some(trim_vec(&note)));
            }
        },
        _ => {},
    }
    (trim_vec(s), None)
}

/// Splits a segment into its head and optional parenthetical note.
pub fn split_parenthetical(segment: &str) -> (r: (String, Option<String>))
    ensures
        r.0@ == split_paren_spec(segment@).0,
        r.1 is Some <==> split_paren_spec(segment@).1 is Some,
        r.1 matches Some(n) ==> split_paren_spec(segment@).1 == Some(n@),
{
    let s = chars_of(segment);
    let (head, note) = split_parenthetical_vec(&s);
    let note_s = match note {
        Some(n) => Some(string_of(&n)),
        None => None,
    };
    (string_of(&head), note_s)
}

/// Adds `(key, kind)` unless `key` is already listed (first kind wins).
pub open spec fn push_key_spec(
    out: Seq<(Seq<char>, Seq<char>)>,
    key: Seq<char>,
    kind: Seq<char>,
) -> Seq<(Seq<char>, Seq<char>)> {
    if exists|j: int| 0 <= j < out.len() && out[j].0 == key {
        out
    } else {
        out.push((key, kind))
    }
}

/// Appends `(key, match_kind)` unless the key is already present.
pub fn push_key(out: &mut Vec<(String, String)>, key: String, match_kind: &str)
    ensures
        pairs_view(final(out)@) == push_key_spec(pairs_view(old(out)@), key@, match_kind@),
{
    let ghost o = pairs_view(out@);
    let mut i: usize = 0;
    while i < out.len()
        invariant
            0 <= i <= out@.len(),
            o == pairs_view(out@),
            forall|j: int| 0 <= j < i ==> out@[j].0@ != key@,
        decreases out@.len() - i,
    {
        if str_eq(out[i].0.as_str(), key.as_str()) {
            assert(o[i as int].0 == key@);
            return;
        }
        i += 1;
    }
    assert(!exists|j: int| 0 <= j < o.len() && o[j].0 == key@) by {
        assert forall|j: int| 0 <= j < o.len() implies o[j].0 != key@ by {
            assert(o[j].0 == out@[j].0@);
        }
    }
    out.push((key, string_from(match_kind)));
    assert(pairs_view(out@) =~= o.push((key@, match_kind@)));
}

/// Indexes every usable token of a key as a `gloss-token`.
pub open spec fn token_keys_spec(
    out: Seq<(Seq<char>, Seq<char>)>,
    toks: Seq<Seq<char>>,
) -> Seq<(Seq<char>, Seq<char>)>
    decreases toks.len(),
{
    if toks.len() == 0 {
        out
    } else {
        token_keys_spec(
            if usable_spec(toks[0]) {
                push_key_spec(out, toks[0], "gloss-token"@)
            } else {
                out
            },
            toks.skip(1),
        )
    }
}

/// Pushes each usable whitespace-separated token of `key` as a `gloss-token`.
pub fn push_token_keys(out: &mut Vec<(String, String)>, key: &str)
    ensures
        pairs_view(final(out)@) == token_keys_spec(pairs_view(old(out)@), ws_tokens(key@)),
{
    let kv = chars_of(key);
    let toks = split_ws(&kv);
    let ghost tv = vv(toks@);
    let ghost o = pairs_view(out@);
    let mut i: usize = 0;
    assert(tv.skip(0) =~= tv);
    while i < toks.len()
        invariant
            0 <= i <= toks@.len(),
            tv == vv(toks@),
            token_keys_spec(pairs_view(out@), tv.skip(i as int)) == token_keys_spec(o, tv),
        decreases toks@.len() - i,
    {
        let t = string_of(&toks[i]);
        assert(tv.skip(i as int)[0] == t@);
        assert(tv.skip(i as int).skip(1) =~= tv.skip(i + 1));
        if usable_key(t.as_str()) {
            push_key(out, t, "gloss-token");
        }
        i += 1;
    }
    assert(tv.skip(toks@.len() as int) =~= Seq::<Seq<char>>::empty());
}

/// The key a gloss-head part yields: normalized, with a leading infinitive
/// marker `to ` removed.
pub open spec fn head_key(part: Seq<char>) -> Seq<char> {
    let k0 = normalize_spec(part);
    if "to "@.is_prefix_of(k0) {
        trim_spec(k0.skip("to "@.len() as int))
    } else {
        k0
    }
}

/// Indexes one comma-separated part of a gloss head.
pub open spec fn head_part_step(
    out: Seq<(Seq<char>, Seq<char>)>,
    part: Seq<char>,
) -> Seq<(Seq<char>, Seq<char>)> {
    let k = head_key(part);
    if !usable_spec(k) {
        out
    } else if k.contains(' ') {
        token_keys_spec(push_key_spec(out, k, "phrase"@), ws_tokens(k))
    } else {
        push_key_spec(out, k, "exact-gloss-head"@)
    }
}

/// Indexes the parts of a gloss head in order.
pub open spec fn head_parts_spec(
    out: Seq<(Seq<char>, Seq<char>)>,
    parts: Seq<Seq<char>>,
) -> Seq<(Seq<char>, Seq<char>)>
    decreases parts.len(),
{
    if parts.len() == 0 {
        out
    } else {
        head_parts_spec(head_part_step(out, parts[0]), parts.skip(1))
    }
}

/// The keys of a gloss head: `or` acts as a comma, each part is a key.
pub open spec fn head_keys_spec(
    out: Seq<(Seq<char>, Seq<char>)>,
    raw: Seq<char>,
) -> Seq<(Seq<char>, Seq<char>)> {
    head_parts_spec(out, split_char_spec(replace_spec(raw, " or "@, ","@), ','))
}

fn head_key_vec(part: &Vec<char>) -> (r: Vec<char>)
    ensures
        r@ == head_key(part@),
{
    let key0 = normalize_vec(part);
    let to = chars_of("to ");
    if starts_with(&key0, &to) {
        let rest = slice_vec(&key0, to.len(), key0.len());
        assert(rest@ =~= key0@.skip("to "@.len() as int));
        trim_vec(&rest)
    } else {
        key0
    }
}

/// Pushes the keys of a gloss head (the text before any parenthetical).
pub fn push_gloss_head_keys(out: &mut Vec<(String, String)>, raw: &str)
    ensures
        pairs_view(final(out)@) == head_keys_spec(pairs_view(old(out)@), raw@),
{
    let rv = chars_of(raw);
    let pat = chars_of(" or ");
    let rep = chars_of(",");
    proof {
        reveal_strlit(" or ");
    }
    let normalized = replace_all(&rv, &pat, &rep);
    let parts = split_char(&normalized, ',');
    let ghost pv = vv(parts@);
    let ghost o = pairs_view(out@);
    let mut i: usize = 0;
    assert(pv.skip(0) =~= pv);
    while i < parts.len()
        invariant
            0 <= i <= parts@.len(),
            pv == vv(parts@),
            head_parts_spec(pairs_view(out@), pv.skip(i as int)) == head_parts_spec(o, pv),
        decreases parts@.len() - i,
    {
        assert(pv.skip(i as int)[0] == parts@[i as int]@);
        assert(pv.skip(i as int).skip(1) =~= pv.skip(i + 1));
        let key = head_key_vec(&parts[i]);
        let ks = string_of(&key);
        if usable_key(ks.as_str()) {
            if has_char(&key, ' ') {
                push_key(out, ks.clone(), "phrase");
                push_token_keys(out, ks.as_str());
            } else {
                push_key(out, ks, "exact-gloss-head");
            }
        }
        i += 1;
    }
    assert(pv.skip(parts@.len() as int) =~= Seq::<Seq<char>>::empty());
}

/// Repeatedly strips the non-empty prefix `p` (and trims) while it leads `k`.
pub open spec fn strip_prefix_rep(k: Seq<char>, p: Seq<char>) -> Seq<char>
    decreases k.len(),
{
    if p.len() > 0 && p.is_prefix_of(k) {
        proof {
            lemma_trim_len(k.skip(p.len() as int));
        }
        strip_prefix_rep(trim_spec(k.skip(p.len() as int)), p)
    } else {
        k
    }
}

/// The article/preposition prefixes dropped from a parenthetical note.
pub open spec fn note_prefixes() -> Seq<Seq<char>> {
    seq!["of "@, "a "@, "an "@, "the "@, "on "@, "in "@]
}

/// Strips each prefix of `ps` in turn, each as often as it leads.
pub open spec fn strip_all(k: Seq<char>, ps: Seq<Seq<char>>) -> Seq<char>
    decreases ps.len(),
{
    if ps.len() == 0 {
        k
    } else {
        strip_all(strip_prefix_rep(k, ps[0]), ps.skip(1))
    }
}

/// The keys a parenthetical note contributes: none when it is a list (holds
/// `,` `;` or `/`); otherwise the usable tokens of the normalized note, with
/// leading articles and prepositions dropped, when it is at most three words.
pub open spec fn paren_keys_spec(
    out: Seq<(Seq<char>, Seq<char>)>,
    raw: Seq<char>,
) -> Seq<(Seq<char>, Seq<char>)> {
    if raw.contains(',') || raw.contains(';') || raw.contains('/') {
        out
    } else {
        let k = strip_all(normalize_spec(raw), note_prefixes());
        if ws_tokens(k).len() <= 3 {
            token_keys_spec(out, ws_tokens(k))
        } else {
            out
        }
    }
}

fn strip_prefix_vec(k: Vec<char>, p: &Vec<char>) -> (r: Vec<char>)
    ensures
        r@ == strip_prefix_rep(k@, p@),
    decreases k@.len(),
{
    if p.len() > 0 && starts_with(&k, p) {
        let rest = slice_vec(&k, p.len(), k.len());
        assert(rest@ =~= k@.skip(p@.len() as int));
        let t = trim_vec(&rest);
        proof {
            lemma_trim_len(rest@);
        }
        strip_prefix_vec(t, p)
    } else {
        k
    }
}

/// Pushes the keys of a parenthetical note.
pub fn push_parenthetical_keys(out: &mut Vec<(String, String)>, raw: &str)
    ensures
        pairs_view(final(out)@) == paren_keys_spec(pairs_view(old(out)@), raw@),
{
    let rv = chars_of(raw);
    if has_char(&rv, ',') || has_char(&rv, ';') || has_char(&rv, '/') {
        return;
    }
    let k0 = normalize_vec(&rv);
    let k1 = strip_prefix_vec(k0, &chars_of("of "));
    let k2 = strip_prefix_vec(k1, &chars_of("a "));
    let k3 = strip_prefix_vec(k2, &chars_of("an "));
    let k4 = strip_prefix_vec(k3, &chars_of("the "));
    let k5 = strip_prefix_vec(k4, &chars_of("on "));
    let k6 = strip_prefix_vec(k5, &chars_of("in "));
    proof {
        let ps = note_prefixes();
        assert(ps.skip(1).skip(1).skip(1).skip(1).skip(1).skip(1).len() == 0);
        assert(k6@ == strip_all(normalize_spec(raw@), ps)) by {
            reveal_with_fuel(strip_all, 7);
            assert(ps.skip(1)[0] == "a "@);
            assert(ps.skip(1).skip(1)[0] == "an "@);
            assert(ps.skip(1).skip(1).skip(1)[0] == "the "@);
            assert(ps.skip(1).skip(1).skip(1).skip(1)[0] == "on "@);
            assert(ps.skip(1).skip(1).skip(1).skip(1).skip(1)[0] == "in "@);
        }
    }
    let words = split_ws(&k6);
    if words.len() <= 3 {
        let ks = string_of(&k6);
        push_token_keys(out, ks.as_str());
    }
}

/// Indexes one gloss segment: its head, then its parenthetical note.
pub open spec fn segment_step(
    out: Seq<(Seq<char>, Seq<char>)>,
    seg: Seq<char>,
) -> Seq<(Seq<char>, Seq<char>)> {
    let (head, note) = split_paren_spec(seg);
    let o1 = head_keys_spec(out, head);
    match note {
        Some(n) => paren_keys_spec(o1, n),
        None => o1,
    }
}

/// Indexes the segments of a gloss in order.
pub open spec fn segments_keys_spec(
    out: Seq<(Seq<char>, Seq<char>)>,
    segs: Seq<Seq<char>>,
) -> Seq<(Seq<char>, Seq<char>)>
    decreases segs.len(),
{
    if segs.len() == 0 {
        out
    } else {
        segments_keys_spec(segment_step(out, segs[0]), segs.skip(1))
    }
}

/// The English lookup keys of a gloss with their match kinds, in discovery
/// order, each key once.
pub open spec fn gloss_keys_spec(gloss: Seq<char>) -> Seq<(Seq<char>, Seq<char>)> {
    segments_keys_spec(seq![], segments_spec(lookup_spec(gloss)))
}

/// The English keys under which a lemma with this gloss is indexed.
pub fn gloss_keys(gloss: &str) -> (r: Vec<(String, String)>)
    ensures
        pairs_view(r@) == gloss_keys_spec(gloss@),
{
    let g = english_lookup_gloss(gloss);
    let gv = chars_of(g.as_str());
    let segs = split_gloss_segments_vec(&gv);
    let ghost sv = vv(segs@);
    let mut out: Vec<(String, String)> = Vec::new();
    let mut i: usize = 0;
    assert(sv.skip(0) =~= sv);
    assert(pairs_view(out@) =~= Seq::<(Seq<char>, Seq<char>)>::empty());
    while i < segs.len()
        invariant
            0 <= i <= segs@.len(),
            sv == vv(segs@),
            sv == segments_spec(lookup_spec(gloss@)),
            segments_keys_spec(pairs_view(out@), sv.skip(i as int)) == gloss_keys_spec(gloss@),
        decreases segs@.len() - i,
    {
        assert(sv.skip(i as int)[0] == segs@[i as int]@);
        assert(sv.skip(i as int).skip(1) =~= sv.skip(i + 1));
        let (head, note) = split_parenthetical_vec(&segs[i]);
        let hs = string_of(&head);
        push_gloss_head_keys(&mut out, hs.as_str());
        match note {
            Some(n) => {
                let ns = string_of(&n);
                push_parenthetical_keys(&mut out, ns.as_str());
            },
            None => {},
        }
        i += 1;
    }
    assert(sv.skip(segs@.len() as int) =~= Seq::<Seq<char>>::empty());
    out
}

/// One indexed English key with its match kind and rank bonus.
pub struct KeyMatch {
    pub key: String,
    pub match_kind: String,
    pub match_rank: i32,
}

/// Rank bonus for a match kind: phrases beat exact heads beat tokens.
pub open spec fn match_rank_spec(kind: Seq<char>) -> i32 {
    if kind == "phrase"@ {
        120
    } else if kind == "exact-gloss-head"@ {
        100
    } else if kind == "gloss-token"@ {
        40
    } else {
        20
    }
}

/// The gloss keys of `gloss`, each with its rank bonus.
pub fn key_matches(gloss: &str) -> (r: Vec<KeyMatch>)
    ensures
        r@.len() == gloss_keys_spec(gloss@).len(),
        forall|i: int|
            0 <= i < r@.len() ==> {
                &&& (#[trigger] r@[i]).key@ == gloss_keys_spec(gloss@)[i].0
                &&& r@[i].match_kind@ == gloss_keys_spec(gloss@)[i].1
                &&& r@[i].match_rank == match_rank_spec(gloss_keys_spec(gloss@)[i].1)
            },
{
    let keys = gloss_keys(gloss);
    let ghost kv = pairs_view(keys@);
    let mut r: Vec<KeyMatch> = Vec::new();
    let mut i: usize = 0;
    while i < keys.len()
        invariant
            0 <= i <= keys@.len(),
            kv == pairs_view(keys@),
            kv == gloss_keys_spec(gloss@),
            r@.len() == i,
            forall|j: int|
                0 <= j < i ==> {
                    &&& (#[trigger] r@[j]).key@ == kv[j].0
                    &&& r@[j].match_kind@ == kv[j].1
                    &&& r@[j].match_rank == match_rank_spec(kv[j].1)
                },
        decreases keys@.len() - i,
    {
        let kind = keys[i].1.as_str();
        let rank: i32 = if str_eq(kind, "phrase") {
            120
        } else if str_eq(kind, "exact-gloss-head") {
            100
        } else if str_eq(kind, "gloss-token") {
            40
        } else {
            20
        };
        r.push(KeyMatch { key: keys[i].0.clone(), match_kind: keys[i].1.clone(), match_rank: rank });
        i += 1;
    }
    r
}

/// The trust label published for a record status.
pub open spec fn trust_spec(status: Seq<char>) -> Seq<char> {
    if status == "official"@ {
        "verified-official"@
    } else if status == "official-only"@ {
        "verified-official-only"@
    } else {
        "generated-review"@
    }
}

/// The trust label published for a record status.
pub fn trust(status: &str) -> (r: &'static str)
    ensures
        r@ == trust_spec(status@),
{
    if str_eq(status, "official") {
        "verified-official"
    } else if str_eq(status, "official-only") {
        "verified-official-only"
    } else {
        "generated-review"
    }
}

/// Ranking base of a record status: official above official-only above generated.
pub open spec fn status_rank_spec(status: Seq<char>) -> i32 {
    if status == "official"@ {
        300
    } else if status == "official-only"@ {
        280
    } else if status == "generated"@ {
        100
    } else {
        0
    }
}

/// Records of one match kind rank by status: an official lemma above an
/// official-only one, and that above a generated one.
pub proof fn lemma_status_rank_order()
    ensures
        status_rank_spec("official"@) > status_rank_spec("official-only"@) > status_rank_spec("generated"@) > 0,
{
    reveal_strlit("official");
    reveal_strlit("official-only");
    reveal_strlit("generated");
    assert("official"@.len() == 8);
    assert("official-only"@.len() == 13);
    assert("generated"@.len() == 9);
}

/// The status bases of the ranking: 300 for an official lemma, 280 for an
/// official-only one, 100 for a generated one, and none for any other.
pub proof fn lemma_status_rank_values(status: Seq<char>)
    ensures
        status == "official"@ ==> status_rank_spec(status) == 300,
        status == "official-only"@ ==> status_rank_spec(status) == 280,
        status == "generated"@ ==> status_rank_spec(status) == 100,
        status != "official"@ && status != "official-only"@ && status != "generated"@ ==> status_rank_spec(status) == 0,
{
    lemma_status_rank_order();
}

/// Ranking base of a record status.
pub fn status_rank(status: &str) -> (r: i32)
    ensures
        r == status_rank_spec(status@),
{
    if str_eq(status, "official") {
        300
    } else if str_eq(status, "official-only") {
        280
    } else if str_eq(status, "generated") {
        100
    } else {
        0
    }
}

/// The positions, in order, of the keys among the first `n` that route to
/// shard `shard`.
pub open spec fn shard_members(keys: Seq<Seq<char>>, shard: nat, n: int) -> Seq<usize>
    decreases n,
{
    if n <= 0 {
        Seq::empty()
    } else if fnv_spec(encode_utf8(keys[n - 1])) % 256 == shard {
        shard_members(keys, shard, n - 1).push((n - 1) as usize)
    } else {
        shard_members(keys, shard, n - 1)
    }
}

/// How the English index splits into its shard files: for each of the 256
/// shards, in order, the positions of the keys (in index order) that the
/// router sends there.
pub fn shard_plan(keys: &Vec<String>) -> (r: Vec<Vec<usize>>)
    ensures
        r@.len() == EN_SHARDS,
        forall|s: int| 0 <= s < r@.len() ==> (#[trigger] r@[s])@ == shard_members(
            keys@.map_values(|k: String| k@),
            s as nat,
            keys@.len() as int,
        ),
{
    let ghost kv = keys@.map_values(|k: String| k@);
    let mut plan: Vec<Vec<usize>> = Vec::new();
    let mut s: u32 = 0;
    while s < EN_SHARDS
        invariant
            s <= EN_SHARDS,
            plan@.len() == s,
            forall|q: int| 0 <= q < plan@.len() ==> (#[trigger] plan@[q])@ == Seq::<usize>::empty(),
        decreases EN_SHARDS - s,
    {
        plan.push(Vec::new());
        s += 1;
    }
    let mut i: usize = 0;
    while i < keys.len()
        invariant
            i <= keys@.len(),
            kv == keys@.map_values(|k: String| k@),
            plan@.len() == EN_SHARDS,
            forall|q: int| 0 <= q < plan@.len() ==> (#[trigger] plan@[q])@ == shard_members(kv, q as nat, i as int),
        decreases keys@.len() - i,
    {
        let sh = english_shard_of(keys[i].as_str());
        assert(kv[i as int] == keys@[i as int]@);
        let ghost before = plan@;
        let mut bucket = Vec::new();
        std::mem::swap(&mut bucket, &mut plan[sh as usize]);
        bucket.push(i);
        plan.set(sh as usize, bucket);
        assert forall|q: int| 0 <= q < plan@.len() implies (#[trigger] plan@[q])@ == shard_members(kv, q as nat, i + 1) by {
            if q != sh as int {
                assert(plan@[q] == before[q]);
            }
        }
        i += 1;
    }
    plan
}

} // verus!

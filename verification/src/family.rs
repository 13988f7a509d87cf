//! Word families: Proto-Slavic stems and borrowing etymons that group
//! cognate sets, and the "Etimologična rodina" block that links siblings.

use vstd::prelude::*;
use crate::wiki_index::{flat_keys, group_by_keys, groups_of, groups_view, keys_view};
use crate::layout::{esc, esc_spec, truncate, truncate_spec};
use crate::split::{ends_with, find_char, first_index, slice_vec};
use crate::strs::{chars_of, push_decimal, push_str, decimal, str_eq, string_from, string_of, trim, trim_spec};

verus! {

/// A combining diacritical mark (U+0300–U+036F), as carried by accented
/// reconstructions such as `pę̑tь`.
pub open spec fn is_combining_mark(c: char) -> bool {
    '\u{0300}' <= c && c <= '\u{036F}'
}

/// `w` without combining marks.
pub open spec fn unaccent(w: Seq<char>) -> Seq<char>
    decreases w.len(),
{
    if w.len() == 0 {
        seq![]
    } else if is_combining_mark(w.last()) {
        unaccent(w.drop_last())
    } else {
        unaccent(w.drop_last()).push(w.last())
    }
}

/// The derivational suffixes stripped from reconstructions, longest first.
pub open spec fn stem_suffixes() -> Seq<Seq<char>> {
    seq![
        "ovati"@, "irati"@, "nǫti"@, "ostь"@, "išče"@, "ьje"@, "ica"@, "ina"@, "ьcь"@, "ъka"@,
        "ъkъ"@, "ьnъ"@, "ěti"@, "ati"@, "iti"@, "ti"@, "y"@, "a"@, "o"@, "ъ"@, "ь"@, "ę"@, "ě"@,
        "i"@,
    ]
}

/// The first suffix of `sufs` whose removal leaves at least four characters
/// gives the stem; without one, `w` itself when it has at least four.
pub open spec fn stem_try(w: Seq<char>, sufs: Seq<Seq<char>>) -> Option<Seq<char>>
    decreases sufs.len(),
{
    if sufs.len() == 0 {
        if w.len() >= 4 {
            Some(w)
        } else {
            None
        }
    } else if sufs[0].is_suffix_of(w) && w.len() - sufs[0].len() >= 4 {
        Some(w.take(w.len() - sufs[0].len()))
    } else {
        stem_try(w, sufs.skip(1))
    }
}

/// The family stem of a Proto-Slavic reconstruction.
pub open spec fn proto_stem_spec(w: Seq<char>) -> Option<Seq<char>> {
    stem_try(unaccent(w), stem_suffixes())
}

/// The suffixes a Proto-Slavic reconstruction sheds to give its family
/// stem, in the order they are tried.
pub open spec fn documented_stem_suffixes() -> Seq<Seq<char>> {
    seq!["ovati"@, "irati"@, "nǫti"@, "ostь"@, "išče"@]
        + seq!["ьje"@, "ica"@, "ina"@, "ьcь"@, "ъka"@, "ъkъ"@]
        + seq!["ьnъ"@]
        + seq!["ěti"@, "ati"@, "iti"@, "ti"@]
        + seq!["y"@, "a"@, "o"@, "ъ"@, "ь"@, "ę"@, "ě"@, "i"@]
}

/// Whether suffix `x` can be shed from `w`: it ends `w` and leaves at
/// least four characters.
pub open spec fn sheds(w: Seq<char>, x: Seq<char>) -> bool {
    x.is_suffix_of(w) && w.len() - x.len() >= 4
}

/// Whether `w` carries no combining mark.
pub open spec fn unmarked(w: Seq<char>) -> bool {
    forall|i: int| 0 <= i < w.len() ==> !is_combining_mark(w[i])
}

proof fn lemma_unaccent_unmarked(w: Seq<char>)
    requires
        unmarked(w),
    ensures
        unaccent(w) == w,
    decreases w.len(),
{
    if w.len() > 0 {
        assert(w.last() == w[w.len() - 1]);
        lemma_unaccent_unmarked(w.drop_last());
        assert(w.drop_last().push(w.last()) =~= w);
    }
}

proof fn lemma_stem_try_pick(w: Seq<char>, sufs: Seq<Seq<char>>, k: int)
    requires
        0 <= k < sufs.len(),
        sheds(w, sufs[k]),
        forall|j: int| 0 <= j < k ==> !sheds(w, #[trigger] sufs[j]),
    ensures
        stem_try(w, sufs) == Some(w.take(w.len() - sufs[k].len())),
    decreases k,
{
    if k > 0 {
        assert(!sheds(w, sufs[0]));
        assert forall|j: int| 0 <= j < k - 1 implies !sheds(w, #[trigger] sufs.skip(1)[j]) by {
            assert(sufs.skip(1)[j] == sufs[j + 1]);
        }
        assert(sufs.skip(1)[k - 1] == sufs[k]);
        lemma_stem_try_pick(w, sufs.skip(1), k - 1);
    }
}

proof fn lemma_stem_try_none(w: Seq<char>, sufs: Seq<Seq<char>>)
    requires
        forall|j: int| 0 <= j < sufs.len() ==> !sheds(w, #[trigger] sufs[j]),
    ensures
        stem_try(w, sufs) == if w.len() >= 4 { Some(w) } else { None::<Seq<char>> },
    decreases sufs.len(),
{
    if sufs.len() > 0 {
        assert(!sheds(w, sufs[0]));
        assert forall|j: int| 0 <= j < sufs.skip(1).len() implies !sheds(w, #[trigger] sufs.skip(1)[j]) by {
            assert(sufs.skip(1)[j] == sufs[j + 1]);
        }
        lemma_stem_try_none(w, sufs.skip(1));
    }
}

/// The family stem of an unaccented reconstruction is what remains after
/// shedding the first listed suffix that can be shed (leaving at least four
/// characters); with none, the reconstruction itself when it has at least
/// four characters, and no stem otherwise.
pub proof fn lemma_proto_stem_sheds_first_suffix(w: Seq<char>)
    requires
        unmarked(w),
    ensures
        forall|k: int| 0 <= k < documented_stem_suffixes().len() && sheds(w, #[trigger] documented_stem_suffixes()[k])
            && (forall|j: int| 0 <= j < k ==> !sheds(w, #[trigger] documented_stem_suffixes()[j]))
            ==> proto_stem_spec(w) == Some(w.take(w.len() - documented_stem_suffixes()[k].len())),
        (forall|j: int| 0 <= j < documented_stem_suffixes().len() ==> !sheds(w, #[trigger] documented_stem_suffixes()[j]))
            ==> proto_stem_spec(w) == if w.len() >= 4 { Some(w) } else { None::<Seq<char>> },
{
    lemma_unaccent_unmarked(w);
    assert(documented_stem_suffixes() =~= stem_suffixes());
    assert forall|k: int| 0 <= k < documented_stem_suffixes().len() && sheds(w, #[trigger] documented_stem_suffixes()[k])
        && (forall|j: int| 0 <= j < k ==> !sheds(w, #[trigger] documented_stem_suffixes()[j]))
        implies proto_stem_spec(w) == Some(w.take(w.len() - documented_stem_suffixes()[k].len())) by {
        lemma_stem_try_pick(w, stem_suffixes(), k);
    }
    if forall|j: int| 0 <= j < documented_stem_suffixes().len() ==> !sheds(w, #[trigger] documented_stem_suffixes()[j]) {
        lemma_stem_try_none(w, stem_suffixes());
    }
}

/// A reconstruction in -ьnъ on a stem of at least four unaccented
/// characters belongs to the family of that stem (`*želězьnъ` with
/// `*želězo`).
pub proof fn lemma_proto_stem_sheds_adjective_suffix(stem: Seq<char>)
    requires
        stem.len() >= 4,
        unmarked(stem),
    ensures
        proto_stem_spec(stem + "ьnъ"@) == Some(stem),
{
    reveal_strlit("ьnъ");
    let w = stem + "ьnъ"@;
    assert(w.len() == stem.len() + 3);
    assert(w[w.len() - 1] == 'ъ');
    assert(w[w.len() - 2] == 'n');
    assert(w[w.len() - 3] == 'ь');
    assert(unmarked(w)) by {
        assert forall|i: int| 0 <= i < w.len() implies !is_combining_mark(w[i]) by {
            if i < stem.len() {
                assert(w[i] == stem[i]);
            }
        }
    }
    let sufs = stem_suffixes();
    reveal_strlit("ovati");
    reveal_strlit("irati");
    reveal_strlit("nǫti");
    reveal_strlit("ostь");
    reveal_strlit("išče");
    reveal_strlit("ьje");
    reveal_strlit("ica");
    reveal_strlit("ina");
    reveal_strlit("ьcь");
    reveal_strlit("ъka");
    reveal_strlit("ъkъ");
    assert forall|j: int| 0 <= j < 11 implies !sheds(w, #[trigger] sufs[j]) by {
        let x = sufs[j];
        if x.is_suffix_of(w) {
            assert(x.len() >= 3);
            assert(x[x.len() - 1] == w[w.len() - 1]);
            assert(x[x.len() - 2] == w[w.len() - 2]);
        }
    }
    assert(sufs[11] == "ьnъ"@);
    assert("ьnъ"@.is_suffix_of(w)) by {
        assert(w.subrange(w.len() - 3, w.len() as int) =~= "ьnъ"@);
    }
    lemma_unaccent_unmarked(w);
    lemma_stem_try_pick(w, sufs, 11);
    assert(w.take(w.len() - 3) =~= stem);
}

fn suffix_list() -> (r: Vec<Vec<char>>)
    ensures
        crate::split::vv(r@) == stem_suffixes(),
{
    let mut r: Vec<Vec<char>> = Vec::new();
    r.push(chars_of("ovati"));
    r.push(chars_of("irati"));
    r.push(chars_of("nǫti"));
    r.push(chars_of("ostь"));
    r.push(chars_of("išče"));
    r.push(chars_of("ьje"));
    r.push(chars_of("ica"));
    r.push(chars_of("ina"));
    r.push(chars_of("ьcь"));
    r.push(chars_of("ъka"));
    r.push(chars_of("ъkъ"));
    r.push(chars_of("ьnъ"));
    r.push(chars_of("ěti"));
    r.push(chars_of("ati"));
    r.push(chars_of("iti"));
    r.push(chars_of("ti"));
    r.push(chars_of("y"));
    r.push(chars_of("a"));
    r.push(chars_of("o"));
    r.push(chars_of("ъ"));
    r.push(chars_of("ь"));
    r.push(chars_of("ę"));
    r.push(chars_of("ě"));
    r.push(chars_of("i"));
    assert(crate::split::vv(r@) =~= stem_suffixes());
    r
}

/// Strips one derivational suffix off a Proto-Slavic reconstruction (after
/// dropping accent marks); the stem must keep at least four characters so
/// unrelated short roots do not collide.
pub fn proto_stem(w: &str) -> (r: Option<String>)
    ensures
        r is Some <==> proto_stem_spec(w@) is Some,
        r matches Some(s) ==> proto_stem_spec(w@) == Some(s@),
{
    let src = chars_of(w);
    let mut v: Vec<char> = Vec::new();
    let mut i: usize = 0;
    while i < src.len()
        invariant
            0 <= i <= src@.len(),
            v@ == unaccent(src@.take(i as int)),
        decreases src@.len() - i,
    {
        let c = src[i];
        assert(src@.take(i + 1).drop_last() =~= src@.take(i as int));
        if !('\u{0300}' <= c && c <= '\u{036F}') {
            v.push(c);
        }
        i += 1;
    }
    assert(src@.take(src@.len() as int) =~= src@);
    let sufs = suffix_list();
    let ghost sv = crate::split::vv(sufs@);
    let mut k: usize = 0;
    assert(sv.skip(0) =~= sv);
    while k < sufs.len()
        invariant
            0 <= k <= sufs@.len(),
            sv == crate::split::vv(sufs@),
            v@ == unaccent(w@),
            stem_try(v@, sv.skip(k as int)) == proto_stem_spec(w@),
        decreases sufs@.len() - k,
    {
        assert(sv.skip(k as int)[0] == sufs@[k as int]@);
        assert(sv.skip(k as int).skip(1) =~= sv.skip(k + 1));
        let s = &sufs[k];
        if ends_with(&v, s) && v.len() - s.len() >= 4 {
            let stem = slice_vec(&v, 0, v.len() - s.len());
            assert(stem@ =~= v@.take(v@.len() - s@.len()));
            return Some(string_of(&stem));
        }
        k += 1;
    }
    assert(sv.skip(sufs@.len() as int) =~= Seq::<Seq<char>>::empty());
    if v.len() >= 4 {
        Some(string_of(&v))
    } else {
        None
    }
}

/// A cognate set as the family logic reads it.
pub struct CognateSet {
    /// Part-of-speech code (`n`, `v`, `adj`, …).
    pub pos: String,
    pub gloss: String,
    /// Whether the set continues a borrowing rather than a Proto-Slavic word.
    pub borrowed: bool,
    /// Source of a borrowing, `lang word` (`la magister`).
    pub etymon: String,
    /// Proto-Slavic reconstruction, possibly starred (`*starъ`).
    pub proto: String,
}

/// `s` without its leading `*` characters.
pub open spec fn trim_stars(s: Seq<char>) -> Seq<char>
    decreases s.len(),
{
    if s.len() > 0 && s[0] == '*' {
        trim_stars(s.skip(1))
    } else {
        s
    }
}

/// The family key of a cognate set: `et:<etymon>` for a borrowing with an
/// etymon, `st:<stem>` for an inherited set whose reconstruction has a stem.
pub open spec fn family_key_spec(borrowed: bool, etymon: Seq<char>, proto: Seq<char>) -> Option<Seq<char>> {
    if borrowed {
        if trim_spec(etymon).len() == 0 {
            None
        } else {
            Some("et:"@ + trim_spec(etymon))
        }
    } else {
        match proto_stem_spec(trim_stars(proto)) {
            Some(s) => Some("st:"@ + s),
            None => None,
        }
    }
}

/// The family key of a cognate set: inherited sets share a family when their
/// Proto-Slavic ancestors share a derivational stem (*starъ / *starostь /
/// *starьcь → "star"); borrowings share a family when they continue the same
/// etymon (la magister → majstor / maestro / magistr).
pub fn family_key(set: &CognateSet) -> (r: Option<String>)
    ensures
        r is Some <==> family_key_spec(set.borrowed, set.etymon@, set.proto@) is Some,
        r matches Some(k) ==> family_key_spec(set.borrowed, set.etymon@, set.proto@) == Some(k@),
{
    if set.borrowed {
        let e = trim(set.etymon.as_str());
        if e.as_str().is_empty() {
            None
        } else {
            let mut k = string_from("et:");
            push_str(&mut k, e.as_str());
            Some(k)
        }
    } else {
        let p = chars_of(set.proto.as_str());
        let mut lo: usize = 0;
        assert(p@.skip(0) =~= p@);
        while lo < p.len() && p[lo] == '*'
            invariant
                0 <= lo <= p@.len(),
                trim_stars(p@) == trim_stars(p@.skip(lo as int)),
            decreases p@.len() - lo,
        {
            assert(p@.skip(lo as int).skip(1) =~= p@.skip(lo + 1));
            lo += 1;
        }
        let rest = slice_vec(&p, lo, p.len());
        assert(rest@ =~= p@.skip(lo as int));
        let rs = string_of(&rest);
        match proto_stem(rs.as_str()) {
            Some(s) => {
                let mut k = string_from("st:");
                push_str(&mut k, s.as_str());
                Some(k)
            },
            None => None,
        }
    }
}

/// Readable name of a borrowing source language code, empty when unknown.
pub open spec fn etymon_lang_name(src: Seq<char>) -> Seq<char> {
    if src == "la"@ || src == "ML."@ || src == "LL."@ || src == "la-med"@ || src == "la-lat"@ {
        "latinsky"@
    } else if src == "grc"@ || src == "el"@ {
        "grečsky"@
    } else if src == "fr"@ || src == "frm"@ || src == "fro"@ {
        "francuzsky"@
    } else if src == "de"@ || src == "gmh"@ {
        "němečsky"@
    } else if src == "en"@ {
        "anglijsky"@
    } else if src == "it"@ {
        "italijsky"@
    } else if src == "nl"@ {
        "holandsky"@
    } else if src == "es"@ || src == "pt"@ {
        "iberijsky"@
    } else if src == "tr"@ || src == "ota"@ {
        "turecky"@
    } else if src == "ar"@ {
        "arabsky"@
    } else if src == "he"@ {
        "hebrejsky"@
    } else {
        ""@
    }
}

fn etymon_lang_name_of(src: &str) -> (r: &'static str)
    ensures
        r@ == etymon_lang_name(src@),
{
    if str_eq(src, "la") || str_eq(src, "ML.") || str_eq(src, "LL.") || str_eq(src, "la-med")
        || str_eq(src, "la-lat") {
        "latinsky"
    } else if str_eq(src, "grc") || str_eq(src, "el") {
        "grečsky"
    } else if str_eq(src, "fr") || str_eq(src, "frm") || str_eq(src, "fro") {
        "francuzsky"
    } else if str_eq(src, "de") || str_eq(src, "gmh") {
        "němečsky"
    } else if str_eq(src, "en") {
        "anglijsky"
    } else if str_eq(src, "it") {
        "italijsky"
    } else if str_eq(src, "nl") {
        "holandsky"
    } else if str_eq(src, "es") || str_eq(src, "pt") {
        "iberijsky"
    } else if str_eq(src, "tr") || str_eq(src, "ota") {
        "turecky"
    } else if str_eq(src, "ar") {
        "arabsky"
    } else if str_eq(src, "he") {
        "hebrejsky"
    } else {
        ""
    }
}

/// Human-readable borrowing source: `la computare` → `latinsky computare`;
/// an etymon whose language is unknown (or that has no space) is shown as is.
pub open spec fn etymon_display_spec(etymon: Seq<char>) -> Seq<char> {
    let sp = first_index(etymon, ' ');
    let src = if sp is Some { etymon.take(sp.unwrap() as int) } else { ""@ };
    let word = if sp is Some { etymon.skip(sp.unwrap() as int + 1) } else { etymon };
    let name = etymon_lang_name(src);
    if name.len() == 0 {
        etymon
    } else {
        name + " "@ + word
    }
}

/// Human-readable borrowing source.
pub fn etymon_display(etymon: &str) -> (r: String)
    ensures
        r@ == etymon_display_spec(etymon@),
{
    let e = chars_of(etymon);
    let n = e.len();
    let (src, word) = match find_char(&e, ' ') {
        Some(i) => {
            assert(i < e@.len());
            (string_of(&slice_vec(&e, 0, i)), string_of(&slice_vec(&e, i + 1, n)))
        },
        None => (string_from(""), string_from(etymon)),
    };
    proof {
        if first_index(etymon@, ' ') is Some {
            let i = first_index(etymon@, ' ').unwrap() as int;
            assert(e@.subrange(0, i) =~= etymon@.take(i));
            assert(e@.subrange(i + 1, e@.len() as int) =~= etymon@.skip(i + 1));
        }
    }
    let name = etymon_lang_name_of(src.as_str());
    if name.is_empty() {
        string_from(etymon)
    } else {
        let mut r = string_from(name);
        push_str(&mut r, " ");
        push_str(&mut r, word.as_str());
        r
    }
}

/// One entry as the family block sees it.
pub struct FamilyMember {
    pub id: usize,
    pub display: String,
    pub set: CognateSet,
}

/// The list item that links a sibling entry.
pub open spec fn family_item(m: FamilyMember) -> Seq<char> {
    "<li><a href='"@ + decimal(m.id as nat) + ".html'><b>"@ + esc_spec(m.display@)
        + "</b></a> <span class='muted'>"@ + esc_spec(m.set.pos@) + " · "@ + esc_spec(
        truncate_spec(m.set.gloss@, 48),
    ) + "</span></li>"@
}

/// The sibling items: members other than `i`, in order, at most twelve
/// (`shown` have been emitted already).
pub open spec fn family_items(
    prepared: Seq<FamilyMember>,
    i: int,
    members: Seq<usize>,
    shown: nat,
) -> Seq<char>
    decreases members.len(),
{
    if members.len() == 0 || shown >= 12 {
        seq![]
    } else if members[0] == i {
        family_items(prepared, i, members.skip(1), shown)
    } else {
        family_item(prepared[members[0] as int]) + family_items(
            prepared,
            i,
            members.skip(1),
            shown + 1,
        )
    }
}

/// The members other than entry `i`, in order.
pub open spec fn family_others(members: Seq<usize>, i: int) -> Seq<usize>
    decreases members.len(),
{
    if members.len() == 0 {
        seq![]
    } else if members[0] == i {
        family_others(members.skip(1), i)
    } else {
        seq![members[0]] + family_others(members.skip(1), i)
    }
}

/// The family items of the entries `ids`, in order.
pub open spec fn items_of(prepared: Seq<FamilyMember>, ids: Seq<usize>) -> Seq<char>
    decreases ids.len(),
{
    if ids.len() == 0 {
        seq![]
    } else {
        family_item(prepared[ids[0] as int]) + items_of(prepared, ids.skip(1))
    }
}

/// A word family lists the members other than the entry itself, in
/// order, at most twelve of them: entry `i` is never listed.
pub proof fn lemma_family_lists_others(prepared: Seq<FamilyMember>, i: int, members: Seq<usize>, shown: nat)
    requires
        shown <= 12,
    ensures
        family_items(prepared, i, members, shown) == items_of(
            prepared,
            family_others(members, i).take(
                if family_others(members, i).len() < 12 - shown { family_others(members, i).len() as int } else { 12 - shown },
            ),
        ),
        forall|k: int| 0 <= k < family_others(members, i).len() ==> family_others(members, i)[k] != i,
    decreases members.len(),
{
    let o = family_others(members, i);
    let n: int = if o.len() < 12 - shown { o.len() as int } else { 12 - shown };
    if members.len() == 0 {
        assert(o.take(n) =~= Seq::<usize>::empty());
    } else {
        lemma_family_lists_others(prepared, i, members.skip(1), shown);
        let r = family_others(members.skip(1), i);
        if members[0] == i {
        } else {
            assert(o == seq![members[0]] + r);
            if shown >= 12 {
                assert(o.take(n) =~= Seq::<usize>::empty());
            } else {
                lemma_family_lists_others(prepared, i, members.skip(1), shown + 1);
                let n2: int = if r.len() < 12 - (shown + 1) { r.len() as int } else { 12 - (shown + 1) };
                assert(n == n2 + 1);
                assert(o.take(n).skip(1) =~= r.take(n2));
                assert(o.take(n)[0] == members[0]);
            }
            assert forall|k: int| 0 <= k < o.len() implies o[k] != i by {
                if k > 0 {
                    assert(o[k] == r[k - 1]);
                }
            }
        }
    }
}

proof fn lemma_items_of_nonempty(prepared: Seq<FamilyMember>, ids: Seq<usize>)
    requires
        ids.len() > 0,
    ensures
        items_of(prepared, ids).len() > 0,
{
    reveal_strlit("<li><a href='");
    assert(items_of(prepared, ids) == family_item(prepared[ids[0] as int]) + items_of(prepared, ids.skip(1)));
}

/// The word-family section of entry `i` is empty when the entry has no
/// family key, its key lists no family, the family has fewer than two or
/// more than fifteen members, or no member other than `i`; otherwise it
/// lists the first twelve members other than `i` (all of them when there
/// are fewer), in order, and never `i` itself.
pub proof fn lemma_family_block_lists(i: int, prepared: Seq<FamilyMember>, families: Seq<(String, Vec<usize>)>)
    requires
        0 <= i < prepared.len(),
    ensures
        family_block_spec(i, prepared, families) == match family_key_spec(
            prepared[i].set.borrowed,
            prepared[i].set.etymon@,
            prepared[i].set.proto@,
        ) {
            None => seq![],
            Some(key) => match family_members(families, key) {
                None => seq![],
                Some(ms) => {
                    let o = family_others(ms, i);
                    if ms.len() < 2 || ms.len() > 15 || o.len() == 0 {
                        seq![]
                    } else {
                        "<div class='formation-family'><h3>Etimologična rodina</h3><p class='muted'>Slova iz toj že etimologičnoj rodiny ("@
                            + family_label(prepared[i].set) + "):</p><ul class='compact-list'>"@
                            + items_of(prepared, o.take(if o.len() < 12 { o.len() as int } else { 12 }))
                            + "</ul></div>"@
                    }
                },
            },
        },
{
    let set = prepared[i].set;
    if let Some(key) = family_key_spec(set.borrowed, set.etymon@, set.proto@) {
        if let Some(ms) = family_members(families, key) {
            lemma_family_lists_others(prepared, i, ms, 0);
            let o = family_others(ms, i);
            let n: int = if o.len() < 12 { o.len() as int } else { 12 };
            if o.len() > 0 {
                lemma_items_of_nonempty(prepared, o.take(n));
            } else {
                assert(o.take(n) =~= Seq::<usize>::empty());
            }
        }
    }
}

/// The label naming what the family shares.
pub open spec fn family_label(set: CognateSet) -> Seq<char> {
    if set.borrowed {
        "etimon <b>"@ + esc_spec(etymon_display_spec(trim_spec(set.etymon@))) + "</b>"@
    } else {
        "praslovjansky korenj <b>*"@ + esc_spec(proto_stem_spec(trim_stars(set.proto@)).unwrap())
            + "-</b>"@
    }
}

/// The members listed under `key`, if any (first matching entry).
pub open spec fn family_members(families: Seq<(String, Vec<usize>)>, key: Seq<char>) -> Option<Seq<usize>>
    decreases families.len(),
{
    if families.len() == 0 {
        None
    } else if families[0].0@ == key {
        Some(families[0].1@)
    } else {
        family_members(families.skip(1), key)
    }
}

/// The "word family" section for entry `i`.
pub open spec fn family_block_spec(
    i: int,
    prepared: Seq<FamilyMember>,
    families: Seq<(String, Vec<usize>)>,
) -> Seq<char> {
    let set = prepared[i].set;
    match family_key_spec(set.borrowed, set.etymon@, set.proto@) {
        None => seq![],
        Some(key) => match family_members(families, key) {
            None => seq![],
            Some(members) => if members.len() < 2 || members.len() > 15 {
                seq![]
            } else {
                let items = family_items(prepared, i, members, 0);
                if items.len() == 0 {
                    seq![]
                } else {
                    "<div class='formation-family'><h3>Etimologična rodina</h3><p class='muted'>Slova iz toj že etimologičnoj rodiny ("@
                        + family_label(set) + "):</p><ul class='compact-list'>"@ + items
                        + "</ul></div>"@
                }
            },
        },
    }
}

/// Renders the "word family" section for entry `i`: links to the siblings
/// that share its ancestor stem or etymon (2 to 15 members; at most twelve
/// shown). Empty when the entry has no family.
pub fn family_block(
    i: usize,
    prepared: &Vec<FamilyMember>,
    families: &Vec<(String, Vec<usize>)>,
) -> (r: String)
    requires
        i < prepared@.len(),
        forall|k: int, j: int|
            0 <= k < families@.len() && 0 <= j < families@[k].1@.len() ==> families@[k].1@[j]
                < prepared@.len(),
    ensures
        r@ == family_block_spec(i as int, prepared@, families@),
{
    let set = &prepared[i].set;
    let key = match family_key(set) {
        Some(k) => k,
        None => {
            return String::new();
        },
    };
    let mut f: usize = 0;
    let mut found = false;
    assert(families@.skip(0) =~= families@);
    while !found && f < families.len()
        invariant
            0 <= f <= families@.len(),
            found ==> f < families@.len() && families@[f as int].0@ == key@,
            family_members(families@, key@) == family_members(families@.skip(f as int), key@),
        decreases families@.len() - f + (if found { 0int } else { 1int }),
    {
        if str_eq(families[f].0.as_str(), key.as_str()) {
            found = true;
        } else {
            assert(families@.skip(f as int).skip(1) =~= families@.skip(f + 1));
            f += 1;
        }
    }
    if !found {
        assert(families@.skip(f as int) =~= Seq::<(String, Vec<usize>)>::empty());
        return String::new();
    }
    let members = &families[f].1;
    assert(families@.skip(f as int)[0] == families@[f as int]);
    assert(family_members(families@, key@) == Some(members@));
    if members.len() < 2 || members.len() > 15 {
        return String::new();
    }
    let mut items = String::new();
    let mut shown: usize = 0;
    let mut m: usize = 0;
    assert(members@.skip(0) =~= members@);
    while m < members.len() && shown < 12
        invariant
            0 <= m <= members@.len(),
            members@ == families@[f as int].1@,
            0 <= f < families@.len(),
            i < prepared@.len(),
            forall|k: int, j: int|
                0 <= k < families@.len() && 0 <= j < families@[k].1@.len() ==> families@[k].1@[j]
                    < prepared@.len(),
            items@ + family_items(prepared@, i as int, members@.skip(m as int), shown as nat)
                == family_items(prepared@, i as int, members@, 0),
        decreases members@.len() - m,
    {
        let j = members[m];
        let ghost before = items@;
        assert(members@.skip(m as int)[0] == j);
        assert(members@.skip(m as int).skip(1) =~= members@.skip(m + 1));
        if j != i {
            let s = &prepared[j];
            push_str(&mut items, "<li><a href='");
            crate::strs::push_decimal(&mut items, s.id);
            push_str(&mut items, ".html'><b>");
            push_str(&mut items, esc(s.display.as_str()).as_str());
            push_str(&mut items, "</b></a> <span class='muted'>");
            push_str(&mut items, esc(s.set.pos.as_str()).as_str());
            push_str(&mut items, " · ");
            push_str(&mut items, esc(truncate(s.set.gloss.as_str(), 48).as_str()).as_str());
            push_str(&mut items, "</span></li>");
            assert(items@ =~= before + family_item(prepared@[j as int]));
            shown += 1;
        }
        m += 1;
    }
    if m < members.len() {
        assert(family_items(prepared@, i as int, members@.skip(m as int), shown as nat)
            =~= Seq::<char>::empty());
    } else {
        assert(members@.skip(m as int) =~= Seq::<usize>::empty());
    }
    if items.as_str().is_empty() {
        return String::new();
    }
    let mut r = string_from(
        "<div class='formation-family'><h3>Etimologična rodina</h3><p class='muted'>Slova iz toj že etimologičnoj rodiny (",
    );
    if set.borrowed {
        push_str(&mut r, "etimon <b>");
        let e = trim(set.etymon.as_str());
        push_str(&mut r, esc(etymon_display(e.as_str()).as_str()).as_str());
        push_str(&mut r, "</b>");
    } else {
        push_str(&mut r, "praslovjansky korenj <b>*");
        let p = chars_of(set.proto.as_str());
        let mut lo: usize = 0;
        assert(p@.skip(0) =~= p@);
        while lo < p.len() && p[lo] == '*'
            invariant
                0 <= lo <= p@.len(),
                trim_stars(p@) == trim_stars(p@.skip(lo as int)),
            decreases p@.len() - lo,
        {
            assert(p@.skip(lo as int).skip(1) =~= p@.skip(lo + 1));
            lo += 1;
        }
        let rest = slice_vec(&p, lo, p.len());
        assert(rest@ =~= p@.skip(lo as int));
        let rs = string_of(&rest);
        match proto_stem(rs.as_str()) {
            Some(stem) => {
                push_str(&mut r, esc(stem.as_str()).as_str());
            },
            None => {},
        }
        push_str(&mut r, "-</b>");
    }
    push_str(&mut r, "):</p><ul class='compact-list'>");
    push_str(&mut r, items.as_str());
    push_str(&mut r, "</ul></div>");
    assert(r@ =~= family_block_spec(i as int, prepared@, families@));
    r
}

/// The family key list of each page: none for a suppressed page or one
/// without a family, else its one key.
pub open spec fn family_key_lists(prepared: Seq<FamilyMember>, suppressed: Seq<bool>) -> Seq<Seq<Seq<char>>> {
    Seq::new(
        prepared.len(),
        |i: int|
            if suppressed[i] {
                Seq::empty()
            } else {
                match family_key_spec(prepared[i].set.borrowed, prepared[i].set.etymon@, prepared[i].set.proto@) {
                    Some(k) => seq![k],
                    None => Seq::empty(),
                }
            },
    )
}

proof fn lemma_flat_short(kv: Seq<Seq<Seq<char>>>)
    requires
        forall|i: int| 0 <= i < kv.len() ==> (#[trigger] kv[i]).len() <= 1,
    ensures
        flat_keys(kv).len() <= kv.len(),
    decreases kv.len(),
{
    if kv.len() > 0 {
        lemma_flat_short(kv.drop_last());
    }
}

/// The word families: for each family key, in ascending order, the pages
/// (by position) that are not suppressed and carry that key, in order.
pub fn family_groups(prepared: &Vec<FamilyMember>, suppressed: &Vec<bool>) -> (r: Vec<(String, Vec<usize>)>)
    requires
        suppressed@.len() == prepared@.len(),
        prepared@.len() < usize::MAX,
    ensures
        groups_of(groups_view(r@), family_key_lists(prepared@, suppressed@)),
{
    let ghost want = family_key_lists(prepared@, suppressed@);
    let mut keys: Vec<Vec<String>> = Vec::new();
    let mut i: usize = 0;
    while i < prepared.len()
        invariant
            i <= prepared@.len(),
            suppressed@.len() == prepared@.len(),
            want == family_key_lists(prepared@, suppressed@),
            keys_view(keys@) == want.take(i as int),
        decreases prepared@.len() - i,
    {
        let mut row: Vec<String> = Vec::new();
        if !suppressed[i] {
            match family_key(&prepared[i].set) {
                Some(k) => row.push(k),
                None => {},
            }
        }
        assert(crate::categories::strs_view(row@) =~= want[i as int]);
        let ghost before = keys_view(keys@);
        keys.push(row);
        assert(keys_view(keys@) =~= before.push(want[i as int]));
        assert(want.take(i + 1) =~= want.take(i as int).push(want[i as int]));
        i += 1;
    }
    assert(want.take(i as int) =~= want);
    proof {
        assert forall|i: int| 0 <= i < want.len() implies (#[trigger] want[i]).len() <= 1 by {}
        lemma_flat_short(want);
    }
    group_by_keys(&keys)
}

} // verus!

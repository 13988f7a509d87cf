//! The category tree: slugs and titles of category paths, the topic
//! categories that Wiktionary labels map to, and the labels that are
//! maintenance noise.

use vstd::prelude::*;
use crate::layout::{truncate, truncate_spec};
use crate::split::{join_chars, join_spec, replace_all, replace_spec, split_ws, vv, ws_tokens};
use crate::strs::{chars_of, contains_sub, lowercase_of, push_char, push_str, str_contains, str_eq, string_from, string_of, to_lowercase, trim, trim_spec};

verus! {

/// Whether `c` is an ASCII letter or digit.
pub open spec fn ascii_alnum(c: char) -> bool {
    ('a' <= c && c <= 'z') || ('A' <= c && c <= 'Z') || ('0' <= c && c <= '9')
}

/// Left-to-right slug scan: the slug so far and whether it ends in a dash
/// that separates two runs.
pub open spec fn slug_scan(s: Seq<char>) -> (Seq<char>, bool)
    decreases s.len(),
{
    if s.len() == 0 {
        (Seq::empty(), false)
    } else {
        let (o, dash) = slug_scan(s.drop_last());
        let c = s.last();
        if ascii_alnum(c) {
            (o.push(c), false)
        } else if !dash && o.len() > 0 {
            (o.push('-'), true)
        } else {
            (o, dash)
        }
    }
}

/// `s` without its trailing dashes.
pub open spec fn strip_trailing_dashes(s: Seq<char>) -> Seq<char>
    decreases s.len(),
{
    if s.len() > 0 && s.last() == '-' {
        strip_trailing_dashes(s.drop_last())
    } else {
        s
    }
}

/// The slug of an already folded string: its ASCII letter and digit runs
/// joined by single dashes, or `x` when there are none.
pub open spec fn slug_spec(folded: Seq<char>) -> Seq<char> {
    let o = strip_trailing_dashes(slug_scan(folded).0);
    if o.len() == 0 {
        seq!['x']
    } else {
        o
    }
}

/// The URL slug of a name, given the name's ASCII skeleton in the standard
/// alphabet: runs of ASCII letters and digits joined by single dashes, or
/// `x` when nothing is left.
pub fn slug(folded: &str) -> (r: String)
    ensures
        r@ == slug_spec(folded@),
{
    let v = chars_of(folded);
    let mut out: Vec<char> = Vec::new();
    let mut dash = false;
    let mut i: usize = 0;
    while i < v.len()
        invariant
            i <= v@.len(),
            v@ == folded@,
            (out@, dash) == slug_scan(v@.take(i as int)),
        decreases v@.len() - i,
    {
        let ch = v[i];
        assert(v@.take(i + 1).drop_last() =~= v@.take(i as int));
        if ('a' <= ch && ch <= 'z') || ('A' <= ch && ch <= 'Z') || ('0' <= ch && ch <= '9') {
            out.push(ch);
            dash = false;
        } else if !dash && out.len() > 0 {
            out.push('-');
            dash = true;
        }
        i += 1;
    }
    assert(v@.take(i as int) =~= v@);
    let ghost scanned = out@;
    while out.len() > 0 && out[out.len() - 1] == '-'
        invariant
            strip_trailing_dashes(out@) == strip_trailing_dashes(scanned),
        decreases out@.len(),
    {
        let ghost before = out@;
        out.pop();
        assert(out@ =~= before.drop_last());
    }
    assert(strip_trailing_dashes(out@) == out@);
    if out.len() == 0 {
        let mut r = String::new();
        push_char(&mut r, 'x');
        assert(r@ =~= seq!['x']);
        r
    } else {
        string_of(&out)
    }
}

/// Strings over plain values.
pub open spec fn strs_view(v: Seq<String>) -> Seq<Seq<char>> {
    v.map_values(|s: String| s@)
}

/// The key of a category path, given the folds of its parts: the parts'
/// slugs joined by `__`.
pub open spec fn category_key_spec(folded_path: Seq<Seq<char>>) -> Seq<char> {
    join_spec(folded_path.map_values(|p: Seq<char>| slug_spec(p)), "__"@)
}

/// The key of a category path (its file name), given each part's ASCII
/// skeleton in the standard alphabet.
pub fn category_key(folded_path: &Vec<String>) -> (r: String)
    ensures
        r@ == category_key_spec(strs_view(folded_path@)),
{
    let mut parts: Vec<Vec<char>> = Vec::new();
    let mut i: usize = 0;
    while i < folded_path.len()
        invariant
            i <= folded_path@.len(),
            vv(parts@) == strs_view(folded_path@).take(i as int).map_values(|p: Seq<char>| slug_spec(p)),
        decreases folded_path@.len() - i,
    {
        let s = slug(folded_path[i].as_str());
        let ghost before = parts@;
        parts.push(chars_of(s.as_str()));
        assert(vv(parts@) =~= vv(before).push(slug_spec(folded_path@[i as int]@)));
        assert(strs_view(folded_path@).take(i + 1) =~= strs_view(folded_path@).take(i as int).push(folded_path@[i as int]@));
        assert(vv(parts@) =~= strs_view(folded_path@).take(i + 1).map_values(|p: Seq<char>| slug_spec(p)));
        i += 1;
    }
    assert(strs_view(folded_path@).take(i as int) =~= strs_view(folded_path@));
    let sep = chars_of("__");
    string_of(&join_chars(&parts, &sep))
}

/// The title of a category path: its parts joined by ` » `.
pub fn category_title(path: &Vec<String>) -> (r: String)
    ensures
        r@ == join_spec(strs_view(path@), " » "@),
{
    let mut parts: Vec<Vec<char>> = Vec::new();
    let mut i: usize = 0;
    while i < path.len()
        invariant
            i <= path@.len(),
            vv(parts@) == strs_view(path@).take(i as int),
        decreases path@.len() - i,
    {
        let ghost before = parts@;
        parts.push(chars_of(path[i].as_str()));
        assert(vv(parts@) =~= vv(before).push(path@[i as int]@));
        assert(vv(parts@) =~= strs_view(path@).take(i + 1));
        i += 1;
    }
    assert(strs_view(path@).take(i as int) =~= strs_view(path@));
    let sep = chars_of(" » ");
    string_of(&join_chars(&parts, &sep))
}

/// A category path's parts trimmed, blank parts dropped.
pub open spec fn clean_path(p: Seq<Seq<char>>) -> Seq<Seq<char>>
    decreases p.len(),
{
    if p.len() == 0 {
        Seq::empty()
    } else {
        let pre = clean_path(p.drop_last());
        let t = trim_spec(p.last());
        if t.len() > 0 {
            pre.push(t)
        } else {
            pre
        }
    }
}

/// Category paths over plain values.
pub open spec fn paths_view(c: Seq<Vec<String>>) -> Seq<Seq<Seq<char>>> {
    c.map_values(|p: Vec<String>| strs_view(p@))
}

/// The category list after adding `path`.
pub open spec fn add_path_spec(cats: Seq<Seq<Seq<char>>>, path: Seq<Seq<char>>) -> Seq<Seq<Seq<char>>> {
    let p = clean_path(path);
    if p.len() == 0 || cats.contains(p) {
        cats
    } else {
        cats.push(p)
    }
}

/// Whether two lists of strings are equal.
fn same_strings(a: &Vec<String>, b: &Vec<String>) -> (r: bool)
    ensures
        r == (strs_view(a@) == strs_view(b@)),
{
    if a.len() != b.len() {
        assert(strs_view(a@).len() != strs_view(b@).len());
        return false;
    }
    let mut i: usize = 0;
    while i < a.len()
        invariant
            i <= a@.len(),
            a@.len() == b@.len(),
            forall|j: int| 0 <= j < i ==> a@[j]@ == b@[j]@,
        decreases a@.len() - i,
    {
        if !str_eq(a[i].as_str(), b[i].as_str()) {
            assert(strs_view(a@)[i as int] != strs_view(b@)[i as int]);
            return false;
        }
        i += 1;
    }
    assert(strs_view(a@) =~= strs_view(b@));
    true
}

/// Adds a category path (parts trimmed, blank parts dropped) unless it is
/// empty or already present.
pub fn add_category_path(cats: &mut Vec<Vec<String>>, path: Vec<String>)
    ensures
        paths_view(final(cats)@) == add_path_spec(paths_view(old(cats)@), strs_view(path@)),
{
    let mut p: Vec<String> = Vec::new();
    let mut i: usize = 0;
    while i < path.len()
        invariant
            i <= path@.len(),
            strs_view(p@) == clean_path(strs_view(path@).take(i as int)),
        decreases path@.len() - i,
    {
        let t = trim(path[i].as_str());
        assert(strs_view(path@).take(i + 1).drop_last() =~= strs_view(path@).take(i as int));
        let ghost before = p@;
        if !t.as_str().is_empty() {
            p.push(t);
            assert(strs_view(p@) =~= strs_view(before).push(trim_spec(path@[i as int]@)));
        }
        i += 1;
    }
    assert(strs_view(path@).take(i as int) =~= strs_view(path@));
    if p.len() == 0 {
        return;
    }
    let mut k: usize = 0;
    while k < cats.len()
        invariant
            k <= cats@.len(),
            cats@ == old(cats)@,
            strs_view(p@) == clean_path(strs_view(path@)),
            forall|j: int| 0 <= j < k ==> strs_view(cats@[j]@) != strs_view(p@),
        decreases cats@.len() - k,
    {
        if same_strings(&cats[k], &p) {
            assert(paths_view(cats@)[k as int] == strs_view(p@));
            assert(paths_view(cats@).contains(strs_view(p@)));
            return;
        }
        k += 1;
    }
    let ghost before = cats@;
    assert(!paths_view(before).contains(strs_view(p@))) by {
        if paths_view(before).contains(strs_view(p@)) {
            let j = choose|j: int| 0 <= j < paths_view(before).len() && paths_view(before)[j] == strs_view(p@);
            assert(strs_view(before[j]@) == strs_view(p@));
        }
    }
    cats.push(p);
    assert(paths_view(cats@) =~= paths_view(before).push(strs_view(p@)));
}

/// Whether a lowercased Wiktionary category label names maintenance
/// rather than meaning.
pub open spec fn maintenance_label(l: Seq<char>) -> bool {
    contains_sub(l, "monitoring:"@) ||
        contains_sub(l, "pages with"@) ||
        contains_sub(l, "entries with"@) ||
        contains_sub(l, "terms with ipa"@) ||
        contains_sub(l, "terms with redundant"@) ||
        contains_sub(l, "terms needing"@) ||
        contains_sub(l, "requests for"@) ||
        contains_sub(l, "citation"@) ||
        contains_sub(l, "cleanup"@) ||
        contains_sub(l, "maintenance"@) ||
        contains_sub(l, "templates"@) ||
        contains_sub(l, "rhymes"@) ||
        contains_sub(l, "pronunciation"@)
}

/// True for Wiktionary categories that are maintenance, pronunciation or
/// template artifacts rather than topics.
pub fn is_maintenance_wiki_category(label: &str) -> (r: bool)
    ensures
        r == maintenance_label(lowercase_of(label@)),
{
    let l = to_lowercase(label);
    str_contains(l.as_str(), "monitoring:") ||
        str_contains(l.as_str(), "pages with") ||
        str_contains(l.as_str(), "entries with") ||
        str_contains(l.as_str(), "terms with ipa") ||
        str_contains(l.as_str(), "terms with redundant") ||
        str_contains(l.as_str(), "terms needing") ||
        str_contains(l.as_str(), "requests for") ||
        str_contains(l.as_str(), "citation") ||
        str_contains(l.as_str(), "cleanup") ||
        str_contains(l.as_str(), "maintenance") ||
        str_contains(l.as_str(), "templates") ||
        str_contains(l.as_str(), "rhymes") ||
        str_contains(l.as_str(), "pronunciation")
}

/// `k` without every leading repetition of the non-empty prefix `p`
/// (`trim_start_matches`).
pub open spec fn strip_prefix_all(k: Seq<char>, p: Seq<char>) -> Seq<char>
    decreases k.len(),
{
    if p.len() > 0 && p.is_prefix_of(k) {
        strip_prefix_all(k.skip(p.len() as int), p)
    } else {
        k
    }
}

/// `s` with every `_` read as a space.
pub open spec fn underscores_to_spaces(s: Seq<char>) -> Seq<char> {
    s.map_values(|c: char| if c == '_' { ' ' } else { c })
}

/// A Wiktionary label with its English category vocabulary translated.
pub open spec fn translated_label(label: Seq<char>) -> Seq<char> {
    replace_spec(replace_spec(replace_spec(replace_spec(replace_spec(replace_spec(replace_spec(replace_spec(replace_spec(replace_spec(replace_spec(replace_spec(replace_spec(replace_spec(underscores_to_spaces(strip_prefix_all(trim_spec(label), "Category:"@)), "English terms related to "@, ""@), "Russian terms related to "@, ""@), "Polish terms related to "@, ""@), "Czech terms related to "@, ""@), "terms related to "@, ""@), "All topics"@, "Vse temy"@), "All languages"@, "Vsi języky"@), "Technology"@, "Tehnologija"@), "Tools"@, "Instrumenty"@), "Weapons"@, "Oružje"@), "Human behaviour"@, "Člověčje povědanje"@), "Human behavior"@, "Člověčje povědanje"@), "Human activity"@, "Člověčja aktivnost"@), "Hunting"@, "Lov"@)
}

/// The display form of a Wiktionary category label: `Category:` prefixes
/// dropped, underscores read as spaces, the common English category words
/// translated, whitespace collapsed, cut to seventy characters.
pub open spec fn translate_wiki_label_spec(label: Seq<char>) -> Seq<char> {
    truncate_spec(join_spec(ws_tokens(translated_label(label)), " "@), 70)
}

/// Translates a Wiktionary category label for display.
pub fn translate_wiki_label(label: &str) -> (r: String)
    ensures
        r@ == translate_wiki_label_spec(label@),
{
    let t = trim(label);
    let mut v = chars_of(t.as_str());
    let p = chars_of("Category:");
    while p.len() > 0 && crate::split::starts_with(&v, &p)
        invariant
            p@ == "Category:"@,
            strip_prefix_all(v@, p@) == strip_prefix_all(trim_spec(label@), "Category:"@),
        decreases v@.len(),
    {
        let rest = crate::split::slice_vec(&v, p.len(), v.len());
        assert(rest@ =~= v@.skip(p@.len() as int));
        v = rest;
    }
    let mut w: Vec<char> = Vec::new();
    let mut i: usize = 0;
    while i < v.len()
        invariant
            i <= v@.len(),
            w@ == underscores_to_spaces(v@.take(i as int)),
        decreases v@.len() - i,
    {
        w.push(if v[i] == '_' { ' ' } else { v[i] });
        assert(underscores_to_spaces(v@.take(i + 1)) =~= underscores_to_spaces(v@.take(i as int)).push(
            if v@[i as int] == '_' { ' ' } else { v@[i as int] },
        ));
        i += 1;
    }
    assert(v@.take(i as int) =~= v@);
    let v = w;
    proof { reveal_strlit("English terms related to "); }
    let v = replace_all(&v, &chars_of("English terms related to "), &chars_of(""));
    proof { reveal_strlit("Russian terms related to "); }
    let v = replace_all(&v, &chars_of("Russian terms related to "), &chars_of(""));
    proof { reveal_strlit("Polish terms related to "); }
    let v = replace_all(&v, &chars_of("Polish terms related to "), &chars_of(""));
    proof { reveal_strlit("Czech terms related to "); }
    let v = replace_all(&v, &chars_of("Czech terms related to "), &chars_of(""));
    proof { reveal_strlit("terms related to "); }
    let v = replace_all(&v, &chars_of("terms related to "), &chars_of(""));
    proof { reveal_strlit("All topics"); }
    let v = replace_all(&v, &chars_of("All topics"), &chars_of("Vse temy"));
    proof { reveal_strlit("All languages"); }
    let v = replace_all(&v, &chars_of("All languages"), &chars_of("Vsi języky"));
    proof { reveal_strlit("Technology"); }
    let v = replace_all(&v, &chars_of("Technology"), &chars_of("Tehnologija"));
    proof { reveal_strlit("Tools"); }
    let v = replace_all(&v, &chars_of("Tools"), &chars_of("Instrumenty"));
    proof { reveal_strlit("Weapons"); }
    let v = replace_all(&v, &chars_of("Weapons"), &chars_of("Oružje"));
    proof { reveal_strlit("Human behaviour"); }
    let v = replace_all(&v, &chars_of("Human behaviour"), &chars_of("Člověčje povědanje"));
    proof { reveal_strlit("Human behavior"); }
    let v = replace_all(&v, &chars_of("Human behavior"), &chars_of("Člověčje povědanje"));
    proof { reveal_strlit("Human activity"); }
    let v = replace_all(&v, &chars_of("Human activity"), &chars_of("Člověčja aktivnost"));
    proof { reveal_strlit("Hunting"); }
    let v = replace_all(&v, &chars_of("Hunting"), &chars_of("Lov"));
    assert(v@ == translated_label(label@));
    let words = split_ws(&v);
    let joined = string_of(&join_chars(&words, &chars_of(" ")));
    truncate(joined.as_str(), 70)
}

/// A Wiktionary label lowercased, with `_ - :` read as spaces and
/// `behaviour` spelled `behavior`.
pub open spec fn topic_fold(label: Seq<char>) -> Seq<char> {
    replace_spec(
        lowercase_of(label).map_values(|c: char| if c == '_' || c == '-' || c == ':' { ' ' } else { c }),
        "behaviour"@,
        "behavior"@,
    )
}

/// The topic path under a language's topic root that a folded label names.
pub open spec fn topic_for(l: Seq<char>) -> Option<Seq<Seq<char>>> {
    if contains_sub(l, "weapon"@) || contains_sub(l, "arms"@) {
        Some(seq!["Tehnologija"@, "Instrumenty"@, "Oružje"@])
    } else if contains_sub(l, "tool"@) || contains_sub(l, "implement"@) {
        Some(seq!["Tehnologija"@, "Instrumenty"@])
    } else if contains_sub(l, "comput"@) || contains_sub(l, "internet"@) || contains_sub(l, "software"@) {
        Some(seq!["Tehnologija"@, "Kompjutery"@])
    } else if contains_sub(l, "technology"@) || contains_sub(l, "engineering"@) {
        Some(seq!["Tehnologija"@])
    } else if contains_sub(l, "hunting"@) || contains_sub(l, "hunt "@) {
        Some(seq!["Člověk"@, "Člověčje povědanje"@, "Člověčja aktivnost"@, "Lov"@])
    } else if contains_sub(l, "human activity"@) || contains_sub(l, "activities"@) {
        Some(seq!["Člověk"@, "Člověčje povědanje"@, "Člověčja aktivnost"@])
    } else if contains_sub(l, "behavior"@) || contains_sub(l, "behaviour"@) {
        Some(seq!["Člověk"@, "Člověčje povědanje"@])
    } else if contains_sub(l, "anatom"@) || contains_sub(l, "body"@) {
        Some(seq!["Člověk"@, "Tělo"@])
    } else if contains_sub(l, "emotion"@) || contains_sub(l, "feeling"@) {
        Some(seq!["Člověk"@, "Emocije"@])
    } else if contains_sub(l, "family"@) || contains_sub(l, "kinship"@) {
        Some(seq!["Člověk"@, "Rodina"@])
    } else if contains_sub(l, "animal"@) || contains_sub(l, "mammal"@) {
        Some(seq!["Priroda"@, "Životinje"@])
    } else if contains_sub(l, "bird"@) {
        Some(seq!["Priroda"@, "Životinje"@, "Ptice"@])
    } else if contains_sub(l, "fish"@) {
        Some(seq!["Priroda"@, "Životinje"@, "Ryby"@])
    } else if contains_sub(l, "insect"@) {
        Some(seq!["Priroda"@, "Životinje"@, "Insekty"@])
    } else if contains_sub(l, "plant"@) || contains_sub(l, "tree"@) || contains_sub(l, "botan"@) {
        Some(seq!["Priroda"@, "Rastliny"@])
    } else if contains_sub(l, "food"@) || contains_sub(l, "cuisine"@) || contains_sub(l, "drink"@) {
        Some(seq!["Život"@, "Jedivo i pitje"@])
    } else if contains_sub(l, "clothing"@) || contains_sub(l, "garment"@) {
        Some(seq!["Život"@, "Oděža"@])
    } else if contains_sub(l, "agricultur"@) || contains_sub(l, "farming"@) {
        Some(seq!["Život"@, "Zemjedělstvo"@])
    } else if contains_sub(l, "transport"@) || contains_sub(l, "vehicle"@) {
        Some(seq!["Tehnologija"@, "Transport"@])
    } else if contains_sub(l, "medicine"@) || contains_sub(l, "disease"@) || contains_sub(l, "medical"@) {
        Some(seq!["Nauka"@, "Medicina"@])
    } else if contains_sub(l, "mathematic"@) || contains_sub(l, "number"@) {
        Some(seq!["Nauka"@, "Matematika"@])
    } else if contains_sub(l, "law"@) || contains_sub(l, "legal"@) || contains_sub(l, "crime"@) {
        Some(seq!["Družstvo"@, "Pravo"@])
    } else if contains_sub(l, "military"@) || contains_sub(l, "war"@) || contains_sub(l, "army"@) {
        Some(seq!["Družstvo"@, "Vojska"@])
    } else if contains_sub(l, "politic"@) || contains_sub(l, "government"@) {
        Some(seq!["Družstvo"@, "Politika"@])
    } else if contains_sub(l, "religion"@) || contains_sub(l, "mytholog"@) {
        Some(seq!["Kultura"@, "Religija"@])
    } else if contains_sub(l, "music"@) {
        Some(seq!["Kultura"@, "Muzyka"@])
    } else if contains_sub(l, "literature"@) || contains_sub(l, "poetry"@) {
        Some(seq!["Kultura"@, "Literatura"@])
    } else if contains_sub(l, "sport"@) || contains_sub(l, "game"@) {
        Some(seq!["Kultura"@, "Sport i igry"@])
    } else if contains_sub(l, "time"@) || contains_sub(l, "calendar"@) {
        Some(seq!["Abstraktne"@, "Čas"@])
    } else {
        None
    }
}

/// The root of a language's topic tree, followed by `topic`.
pub open spec fn topic_root_spec(lang_name: Seq<char>, topic: Seq<Seq<char>>) -> Seq<Seq<char>> {
    seq!["Fundamentalne"@, "Vsi języky"@, lang_name, "Vse temy"@] + topic
}

/// The category path for a topic of a language: `Fundamentalne » Vsi
/// języky » <language> » Vse temy » <topic…>`.
pub fn wiki_topic_root(lang_name: &str, topic: Vec<String>) -> (r: Vec<String>)
    ensures
        strs_view(r@) == topic_root_spec(lang_name@, strs_view(topic@)),
{
    let mut path: Vec<String> = Vec::new();
    path.push(string_from("Fundamentalne"));
    path.push(string_from("Vsi języky"));
    path.push(string_from(lang_name));
    path.push(string_from("Vse temy"));
    let ghost head = strs_view(path@);
    let mut i: usize = 0;
    while i < topic.len()
        invariant
            i <= topic@.len(),
            head == seq!["Fundamentalne"@, "Vsi języky"@, lang_name@, "Vse temy"@],
            strs_view(path@) == head + strs_view(topic@).take(i as int),
        decreases topic@.len() - i,
    {
        let ghost before = path@;
        path.push(topic[i].clone());
        assert(strs_view(path@) =~= strs_view(before).push(topic@[i as int]@));
        assert(strs_view(path@) =~= head + strs_view(topic@).take(i + 1));
        i += 1;
    }
    assert(strs_view(topic@).take(i as int) =~= strs_view(topic@));
    assert(head =~= seq!["Fundamentalne"@, "Vsi języky"@, lang_name@, "Vse temy"@]);
    path
}

/// The topic category path a Wiktionary topic or category label maps to.
pub open spec fn topic_category_path_spec(lang_name: Seq<char>, label: Seq<char>) -> Option<Seq<Seq<char>>> {
    match topic_for(topic_fold(label)) {
        Some(t) => Some(topic_root_spec(lang_name, t)),
        None => None,
    }
}

/// Maps a Wiktionary topic or category label of a language (given by its
/// display name) to a path in the site's topic tree, when the label names
/// one of the known topics.
pub fn topic_category_path(lang_name: &str, label: &str) -> (r: Option<Vec<String>>)
    ensures
        match r {
            Some(p) => topic_category_path_spec(lang_name@, label@) == Some(strs_view(p@)),
            None => topic_category_path_spec(lang_name@, label@) is None,
        },
{
    let low = to_lowercase(label);
    let lv = chars_of(low.as_str());
    let mut m: Vec<char> = Vec::new();
    let mut i: usize = 0;
    while i < lv.len()
        invariant
            i <= lv@.len(),
            m@ == lv@.take(i as int).map_values(|c: char| if c == '_' || c == '-' || c == ':' { ' ' } else { c }),
        decreases lv@.len() - i,
    {
        let c = lv[i];
        m.push(if c == '_' || c == '-' || c == ':' { ' ' } else { c });
        assert(lv@.take(i + 1).map_values(|c: char| if c == '_' || c == '-' || c == ':' { ' ' } else { c })
            =~= lv@.take(i as int).map_values(|c: char| if c == '_' || c == '-' || c == ':' { ' ' } else { c }).push(
            if c == '_' || c == '-' || c == ':' { ' ' } else { c },
        ));
        i += 1;
    }
    assert(lv@.take(i as int) =~= lv@);
    proof {
        reveal_strlit("behaviour");
    }
    let l = string_of(&replace_all(&m, &chars_of("behaviour"), &chars_of("behavior")));
    assert(l@ == topic_fold(label@));
    let mut t: Vec<String> = Vec::new();
    if str_contains(l.as_str(), "weapon") || str_contains(l.as_str(), "arms") {
        t.push(string_from("Tehnologija"));
        t.push(string_from("Instrumenty"));
        t.push(string_from("Oružje"));
    } else if str_contains(l.as_str(), "tool") || str_contains(l.as_str(), "implement") {
        t.push(string_from("Tehnologija"));
        t.push(string_from("Instrumenty"));
    } else if str_contains(l.as_str(), "comput") || str_contains(l.as_str(), "internet") || str_contains(l.as_str(), "software") {
        t.push(string_from("Tehnologija"));
        t.push(string_from("Kompjutery"));
    } else if str_contains(l.as_str(), "technology") || str_contains(l.as_str(), "engineering") {
        t.push(string_from("Tehnologija"));
    } else if str_contains(l.as_str(), "hunting") || str_contains(l.as_str(), "hunt ") {
        t.push(string_from("Člověk"));
        t.push(string_from("Člověčje povědanje"));
        t.push(string_from("Člověčja aktivnost"));
        t.push(string_from("Lov"));
    } else if str_contains(l.as_str(), "human activity") || str_contains(l.as_str(), "activities") {
        t.push(string_from("Člověk"));
        t.push(string_from("Člověčje povědanje"));
        t.push(string_from("Člověčja aktivnost"));
    } else if str_contains(l.as_str(), "behavior") || str_contains(l.as_str(), "behaviour") {
        t.push(string_from("Člověk"));
        t.push(string_from("Člověčje povědanje"));
    } else if str_contains(l.as_str(), "anatom") || str_contains(l.as_str(), "body") {
        t.push(string_from("Člověk"));
        t.push(string_from("Tělo"));
    } else if str_contains(l.as_str(), "emotion") || str_contains(l.as_str(), "feeling") {
        t.push(string_from("Člověk"));
        t.push(string_from("Emocije"));
    } else if str_contains(l.as_str(), "family") || str_contains(l.as_str(), "kinship") {
        t.push(string_from("Člověk"));
        t.push(string_from("Rodina"));
    } else if str_contains(l.as_str(), "animal") || str_contains(l.as_str(), "mammal") {
        t.push(string_from("Priroda"));
        t.push(string_from("Životinje"));
    } else if str_contains(l.as_str(), "bird") {
        t.push(string_from("Priroda"));
        t.push(string_from("Životinje"));
        t.push(string_from("Ptice"));
    } else if str_contains(l.as_str(), "fish") {
        t.push(string_from("Priroda"));
        t.push(string_from("Životinje"));
        t.push(string_from("Ryby"));
    } else if str_contains(l.as_str(), "insect") {
        t.push(string_from("Priroda"));
        t.push(string_from("Životinje"));
        t.push(string_from("Insekty"));
    } else if str_contains(l.as_str(), "plant") || str_contains(l.as_str(), "tree") || str_contains(l.as_str(), "botan") {
        t.push(string_from("Priroda"));
        t.push(string_from("Rastliny"));
    } else if str_contains(l.as_str(), "food") || str_contains(l.as_str(), "cuisine") || str_contains(l.as_str(), "drink") {
        t.push(string_from("Život"));
        t.push(string_from("Jedivo i pitje"));
    } else if str_contains(l.as_str(), "clothing") || str_contains(l.as_str(), "garment") {
        t.push(string_from("Život"));
        t.push(string_from("Oděža"));
    } else if str_contains(l.as_str(), "agricultur") || str_contains(l.as_str(), "farming") {
        t.push(string_from("Život"));
        t.push(string_from("Zemjedělstvo"));
    } else if str_contains(l.as_str(), "transport") || str_contains(l.as_str(), "vehicle") {
        t.push(string_from("Tehnologija"));
        t.push(string_from("Transport"));
    } else if str_contains(l.as_str(), "medicine") || str_contains(l.as_str(), "disease") || str_contains(l.as_str(), "medical") {
        t.push(string_from("Nauka"));
        t.push(string_from("Medicina"));
    } else if str_contains(l.as_str(), "mathematic") || str_contains(l.as_str(), "number") {
        t.push(string_from("Nauka"));
        t.push(string_from("Matematika"));
    } else if str_contains(l.as_str(), "law") || str_contains(l.as_str(), "legal") || str_contains(l.as_str(), "crime") {
        t.push(string_from("Družstvo"));
        t.push(string_from("Pravo"));
    } else if str_contains(l.as_str(), "military") || str_contains(l.as_str(), "war") || str_contains(l.as_str(), "army") {
        t.push(string_from("Družstvo"));
        t.push(string_from("Vojska"));
    } else if str_contains(l.as_str(), "politic") || str_contains(l.as_str(), "government") {
        t.push(string_from("Družstvo"));
        t.push(string_from("Politika"));
    } else if str_contains(l.as_str(), "religion") || str_contains(l.as_str(), "mytholog") {
        t.push(string_from("Kultura"));
        t.push(string_from("Religija"));
    } else if str_contains(l.as_str(), "music") {
        t.push(string_from("Kultura"));
        t.push(string_from("Muzyka"));
    } else if str_contains(l.as_str(), "literature") || str_contains(l.as_str(), "poetry") {
        t.push(string_from("Kultura"));
        t.push(string_from("Literatura"));
    } else if str_contains(l.as_str(), "sport") || str_contains(l.as_str(), "game") {
        t.push(string_from("Kultura"));
        t.push(string_from("Sport i igry"));
    } else if str_contains(l.as_str(), "time") || str_contains(l.as_str(), "calendar") {
        t.push(string_from("Abstraktne"));
        t.push(string_from("Čas"));
        } else {
        return None;
    }
    let ghost tv = strs_view(t@);
    assert(topic_for(l@) == Some(tv)) by {
        assert(tv =~= topic_for(l@).unwrap());
    }
    Some(wiki_topic_root(lang_name, t))
}

/// The category path that shows a raw Wiktionary category of a language.
pub fn raw_wiki_category_path(lang_name: &str, label: &str) -> (r: Vec<String>)
    ensures
        strs_view(r@) == seq![
            "Fundamentalne"@,
            "Vsi języky"@,
            lang_name@,
            "Kategorije Wiktionary"@,
            translate_wiki_label_spec(label@),
        ],
{
    let mut path: Vec<String> = Vec::new();
    path.push(string_from("Fundamentalne"));
    path.push(string_from("Vsi języky"));
    path.push(string_from(lang_name));
    path.push(string_from("Kategorije Wiktionary"));
    path.push(translate_wiki_label(label));
    assert(strs_view(path@) =~= seq![
        "Fundamentalne"@,
        "Vsi języky"@,
        lang_name@,
        "Kategorije Wiktionary"@,
        translate_wiki_label_spec(label@),
    ]);
    path
}


/// The bucket a headword falls into on the ending index, given its
/// lowercased standard-alphabet fold.
pub open spec fn suffix_bucket_spec(folded: Seq<char>, pos: Seq<char>) -> Seq<char> {
    if pos == "verb"@ {
        if "ti"@.is_suffix_of(folded) {
            "glagoly na -ti"@
        } else {
            "druge glagoly"@
        }
    } else if pos == "adj"@ {
        if folded.len() > 0 {
            "pridavniki na -"@.push(folded.last())
        } else {
            "pridavniki"@
        }
    } else {
        let suffix = if folded.len() >= 2 { folded.skip(folded.len() - 2) } else { folded };
        if suffix.len() == 0 {
            "druga zakončenja"@
        } else {
            "zakončenje -"@ + suffix
        }
    }
}

/// The ending-index bucket of a headword (given its standard fold): verbs
/// by `-ti`, adjectives by their last letter, the rest by their last two.
pub fn suffix_bucket(folded: &str, pos: &str) -> (r: String)
    ensures
        r@ == suffix_bucket_spec(folded@, pos@),
{
    let v = chars_of(folded);
    if str_eq(pos, "verb") {
        if crate::split::ends_with(&v, &chars_of("ti")) {
            string_from("glagoly na -ti")
        } else {
            string_from("druge glagoly")
        }
    } else if str_eq(pos, "adj") {
        if v.len() > 0 {
            let mut r = string_from("pridavniki na -");
            push_char(&mut r, v[v.len() - 1]);
            r
        } else {
            string_from("pridavniki")
        }
    } else {
        let lo: usize = if v.len() >= 2 { v.len() - 2 } else { 0 };
        let suffix = crate::strs::string_of_range(&v, lo, v.len());
        assert(suffix@ =~= (if folded@.len() >= 2 { folded@.skip(folded@.len() - 2) } else { folded@ }));
        if suffix.as_str().is_empty() {
            string_from("druga zakončenja")
        } else {
            let mut r = string_from("zakončenje -");
            push_str(&mut r, suffix.as_str());
            r
        }
    }
}

/// `c` in upper case when it is an ASCII lowercase letter.
pub open spec fn ascii_upper(c: char) -> char {
    if 'a' <= c && c <= 'z' {
        ((c as u8) - 32) as u8 as char
    } else {
        c
    }
}

/// The index of the first ASCII letter or digit in `s`.
pub open spec fn first_alnum(s: Seq<char>) -> Option<int>
    decreases s.len(),
{
    if s.len() == 0 {
        None
    } else {
        match first_alnum(s.drop_last()) {
            Some(i) => Some(i),
            None => if ascii_alnum(s.last()) { Some(s.len() - 1) } else { None },
        }
    }
}

/// The alphabetical-index bucket of a title, given its ASCII skeleton: the
/// first ASCII letter or digit in upper case, or `#`.
pub open spec fn first_bucket_spec(skeleton: Seq<char>) -> Seq<char> {
    match first_alnum(skeleton) {
        Some(i) => seq![ascii_upper(skeleton[i])],
        None => seq!['#'],
    }
}

/// The alphabetical-index bucket of a title, given its ASCII skeleton.
pub fn first_bucket(skeleton: &str) -> (r: String)
    ensures
        r@ == first_bucket_spec(skeleton@),
{
    let v = chars_of(skeleton);
    let mut i: usize = 0;
    while i < v.len()
        invariant
            i <= v@.len(),
            v@ == skeleton@,
            first_alnum(v@.take(i as int)) is None,
        decreases v@.len() - i,
    {
        let c = v[i];
        assert(v@.take(i + 1).drop_last() =~= v@.take(i as int));
        if ('a' <= c && c <= 'z') || ('A' <= c && c <= 'Z') || ('0' <= c && c <= '9') {
            let u: char = if 'a' <= c && c <= 'z' { ((c as u8) - 32) as char } else { c };
            let mut r = String::new();
            push_char(&mut r, u);
            proof {
                lemma_first_alnum_prefix(v@, (i + 1) as int);
            }
            assert(r@ =~= first_bucket_spec(skeleton@));
            return r;
        }
        i += 1;
    }
    assert(v@.take(i as int) =~= v@);
    let mut r = String::new();
    push_char(&mut r, '#');
    assert(r@ =~= seq!['#']);
    r
}

/// A first letter found in a prefix is the first letter of the whole.
proof fn lemma_first_alnum_prefix(s: Seq<char>, n: int)
    requires
        0 <= n <= s.len(),
        first_alnum(s.take(n)) is Some,
    ensures
        first_alnum(s) == first_alnum(s.take(n)),
    decreases s.len(),
{
    if n < s.len() {
        assert(s.drop_last().take(n) =~= s.take(n));
        lemma_first_alnum_prefix(s.drop_last(), n);
    } else {
        assert(s.take(n) =~= s);
    }
}

/// The category list after adding the topic path of each label.
pub open spec fn add_topic_paths(
    cats: Seq<Seq<Seq<char>>>,
    lang_name: Seq<char>,
    labels: Seq<Seq<char>>,
    skip_maintenance: bool,
) -> Seq<Seq<Seq<char>>>
    decreases labels.len(),
{
    if labels.len() == 0 {
        cats
    } else {
        let pre = add_topic_paths(cats, lang_name, labels.drop_last(), skip_maintenance);
        let label = labels.last();
        if skip_maintenance && maintenance_label(lowercase_of(label)) {
            pre
        } else {
            match topic_category_path_spec(lang_name, label) {
                Some(p) => add_path_spec(pre, p),
                None => pre,
            }
        }
    }
}

/// The first `n` items of `s`, or all when there are fewer.
pub open spec fn first_n<A>(s: Seq<A>, n: int) -> Seq<A> {
    if s.len() <= n { s } else { s.take(n) }
}

fn push_topic_paths(
    out: &mut Vec<Vec<String>>,
    lang_name: &str,
    labels: &Vec<String>,
    limit: usize,
    skip_maintenance: bool,
)
    ensures
        paths_view(final(out)@) == add_topic_paths(
            paths_view(old(out)@),
            lang_name@,
            first_n(strs_view(labels@), limit as int),
            skip_maintenance,
        ),
{
    let n: usize = if labels.len() <= limit { labels.len() } else { limit };
    let ghost lv = first_n(strs_view(labels@), limit as int);
    assert(lv =~= strs_view(labels@).take(n as int));
    let mut i: usize = 0;
    while i < n
        invariant
            i <= n <= labels@.len(),
            lv == strs_view(labels@).take(n as int),
            paths_view(out@) == add_topic_paths(paths_view(old(out)@), lang_name@, lv.take(i as int), skip_maintenance),
        decreases n - i,
    {
        let label = labels[i].as_str();
        assert(lv.take(i + 1).drop_last() =~= lv.take(i as int));
        assert(lv.take(i + 1).last() == label@);
        if !(skip_maintenance && is_maintenance_wiki_category(label)) {
            match topic_category_path(lang_name, label) {
                Some(path) => {
                    add_category_path(out, path);
                },
                None => {},
            }
        }
        i += 1;
    }
    assert(lv.take(n as int) =~= lv);
}

/// The topic category paths of a source word: those of its first eight
/// topics, then those of its first ten categories that are not maintenance
/// categories. Raw tags are kept in the caches but never promoted to
/// category pages.
pub fn push_wiki_paths(
    out: &mut Vec<Vec<String>>,
    lang_name: &str,
    categories: &Vec<String>,
    topics: &Vec<String>,
    _tags: &Vec<String>,
)
    ensures
        paths_view(final(out)@) == add_topic_paths(
            add_topic_paths(paths_view(old(out)@), lang_name@, first_n(strs_view(topics@), 8), false),
            lang_name@,
            first_n(strs_view(categories@), 10),
            true,
        ),
{
    push_topic_paths(out, lang_name, topics, 8, false);
    push_topic_paths(out, lang_name, categories, 10, true);
}

/// The Wiktionary labels of one source word.
pub struct WikiLabels {
    /// The display name of the word's language.
    pub lang_name: String,
    pub categories: Vec<String>,
    pub topics: Vec<String>,
    pub tags: Vec<String>,
}

/// What the site knows of one cognate member's labels: those of its
/// English-Wiktionary entry, and those of its native-Wiktionary entry when
/// the enrichment index has one.
pub struct MemberLabels {
    pub own: WikiLabels,
    pub native: Option<WikiLabels>,
}

/// The category list after pushing one word's topic paths.
pub open spec fn wiki_step(out: Seq<Seq<Seq<char>>>, l: WikiLabels) -> Seq<Seq<Seq<char>>> {
    add_topic_paths(
        add_topic_paths(out, l.lang_name@, first_n(strs_view(l.topics@), 8), false),
        l.lang_name@,
        first_n(strs_view(l.categories@), 10),
        true,
    )
}

/// The topic paths of the first `n` members, stopping once twenty-four are
/// gathered.
pub open spec fn member_paths(ms: Seq<MemberLabels>, n: int) -> Seq<Seq<Seq<char>>>
    decreases n,
{
    if n <= 0 {
        Seq::empty()
    } else {
        let pre = member_paths(ms, n - 1);
        if pre.len() >= 24 {
            pre
        } else {
            let o = wiki_step(pre, ms[n - 1].own);
            match ms[n - 1].native {
                Some(l) => wiki_step(o, l),
                None => o,
            }
        }
    }
}

/// The topic paths of the first `n` enrichment records, stopping once
/// sixteen are gathered.
pub open spec fn record_paths(rs: Seq<WikiLabels>, n: int) -> Seq<Seq<Seq<char>>>
    decreases n,
{
    if n <= 0 {
        Seq::empty()
    } else {
        let pre = record_paths(rs, n - 1);
        if pre.len() >= 16 { pre } else { wiki_step(pre, rs[n - 1]) }
    }
}

fn push_labels(out: &mut Vec<Vec<String>>, l: &WikiLabels)
    ensures
        paths_view(final(out)@) == wiki_step(paths_view(old(out)@), *l),
{
    push_wiki_paths(out, l.lang_name.as_str(), &l.categories, &l.topics, &l.tags);
}

/// The Wiktionary topic categories of a generated entry, from its cognate
/// members' English and native entries in order, until twenty-four paths
/// are gathered.
pub fn wiktionary_category_paths_for_members(members: &Vec<MemberLabels>) -> (r: Vec<Vec<String>>)
    ensures
        paths_view(r@) == member_paths(members@, members@.len() as int),
{
    let mut out: Vec<Vec<String>> = Vec::new();
    assert(paths_view(out@) =~= Seq::<Seq<Seq<char>>>::empty());
    let mut i: usize = 0;
    while i < members.len()
        invariant
            i <= members@.len(),
            paths_view(out@) == member_paths(members@, i as int),
        decreases members@.len() - i,
    {
        if out.len() >= 24 {
            proof {
                lemma_member_paths_stop(members@, i as int);
            }
            return out;
        }
        let m = &members[i];
        push_labels(&mut out, &m.own);
        match &m.native {
            Some(l) => push_labels(&mut out, l),
            None => {},
        }
        i += 1;
    }
    out
}

/// Once twenty-four paths are gathered, later members add nothing.
proof fn lemma_member_paths_stop(ms: Seq<MemberLabels>, i: int)
    requires
        0 <= i <= ms.len(),
        member_paths(ms, i).len() >= 24,
    ensures
        member_paths(ms, ms.len() as int) == member_paths(ms, i),
    decreases ms.len() - i,
{
    if i < ms.len() {
        assert(member_paths(ms, i + 1) == member_paths(ms, i));
        lemma_member_paths_stop(ms, i + 1);
    }
}

/// Once sixteen paths are gathered, later records add nothing.
proof fn lemma_record_paths_stop(rs: Seq<WikiLabels>, i: int)
    requires
        0 <= i <= rs.len(),
        record_paths(rs, i).len() >= 16,
    ensures
        record_paths(rs, rs.len() as int) == record_paths(rs, i),
    decreases rs.len() - i,
{
    if i < rs.len() {
        assert(record_paths(rs, i + 1) == record_paths(rs, i));
        lemma_record_paths_stop(rs, i + 1);
    }
}

/// The Wiktionary topic categories of an official entry, from the native
/// entries of its modern primary forms (given in order, those the
/// enrichment index has), until sixteen paths are gathered.
pub fn wiktionary_category_paths_for_input(records: &Vec<WikiLabels>) -> (r: Vec<Vec<String>>)
    ensures
        paths_view(r@) == record_paths(records@, records@.len() as int),
{
    let mut out: Vec<Vec<String>> = Vec::new();
    assert(paths_view(out@) =~= Seq::<Seq<Seq<char>>>::empty());
    let mut i: usize = 0;
    while i < records.len()
        invariant
            i <= records@.len(),
            paths_view(out@) == record_paths(records@, i as int),
        decreases records@.len() - i,
    {
        if out.len() >= 16 {
            proof {
                lemma_record_paths_stop(records@, i as int);
            }
            return out;
        }
        push_labels(&mut out, &records[i]);
        i += 1;
    }
    out
}

} // verus!

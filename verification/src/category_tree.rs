//! The category tree of the site: one node per category path prefix, keyed
//! by the prefix's slug key, with its sub-categories and the entries filed
//! directly under it.

use vstd::prelude::*;
use crate::categories::{ascii_alnum, category_key, category_key_spec, slug_scan, slug_spec, strip_trailing_dashes, strs_view};
use crate::split::last_index;
use crate::english_index::{copy_string, copy_strings, lemma_seq_lt_irrefl, lemma_seq_lt_total, lemma_seq_lt_trans, seq_lt, str_lt};
use crate::site_meta::{string_lists, SiteEntryMeta};
use crate::categories::category_title;
use crate::layout::{compact, compact_spec, esc, esc_spec, json_str, json_str_spec};
use crate::pages::site_page_spec;
use crate::site_meta::{word_row_spec, word_table_spec};
use crate::search::{comma_join, lemma_comma_join_push};
use crate::split::join_spec;
use crate::strs::{chars_of, decimal, push_decimal, push_str, str_eq};

verus! {

/// One category node.
pub struct CategoryNode {
    /// The node's key: its path's part slugs joined by `__`.
    pub key: String,
    /// The category path, as first seen.
    pub path: Vec<String>,
    /// The entries filed directly here, by position in the entry list.
    pub pages: Vec<usize>,
    /// The keys of the sub-categories, ascending.
    pub children: Vec<String>,
}

/// A node over plain values.
pub open spec fn node_v(n: CategoryNode) -> (Seq<char>, Seq<Seq<char>>, Seq<usize>, Seq<Seq<char>>) {
    (n.key@, strs_view(n.path@), n.pages@, strs_view(n.children@))
}

/// A tree over plain values.
pub open spec fn tree_v(t: Seq<CategoryNode>) -> Seq<(Seq<char>, Seq<Seq<char>>, Seq<usize>, Seq<Seq<char>>)> {
    t.map_values(|n: CategoryNode| node_v(n))
}

/// The position of the node with key `key`.
pub open spec fn node_at(t: Seq<(Seq<char>, Seq<Seq<char>>, Seq<usize>, Seq<Seq<char>>)>, key: Seq<char>) -> Option<int>
    decreases t.len(),
{
    if t.len() == 0 {
        None
    } else if t[0].0 == key {
        Some(0)
    } else {
        match node_at(t.drop_first(), key) {
            Some(i) => Some(i + 1),
            None => None,
        }
    }
}

/// How many leading keys sort before `key`.
pub open spec fn key_pos(keys: Seq<Seq<char>>, key: Seq<char>) -> int
    decreases keys.len(),
{
    if keys.len() == 0 || !seq_lt(keys[0], key) {
        0
    } else {
        1 + key_pos(keys.drop_first(), key)
    }
}

/// The keys of a tree's nodes.
pub open spec fn node_keys(t: Seq<(Seq<char>, Seq<Seq<char>>, Seq<usize>, Seq<Seq<char>>)>) -> Seq<Seq<char>> {
    t.map_values(|n: (Seq<char>, Seq<Seq<char>>, Seq<usize>, Seq<Seq<char>>)| n.0)
}

/// The tree with a node for `key` (path `path`, no pages, no
/// sub-categories) unless it has one.
pub open spec fn upsert(
    t: Seq<(Seq<char>, Seq<Seq<char>>, Seq<usize>, Seq<Seq<char>>)>,
    key: Seq<char>,
    path: Seq<Seq<char>>,
) -> Seq<(Seq<char>, Seq<Seq<char>>, Seq<usize>, Seq<Seq<char>>)> {
    if node_at(t, key) is Some {
        t
    } else {
        t.insert(key_pos(node_keys(t), key), (key, path, Seq::empty(), Seq::empty()))
    }
}

/// An ascending list of keys with `x` in it.
pub open spec fn set_insert(s: Seq<Seq<char>>, x: Seq<char>) -> Seq<Seq<char>> {
    if s.contains(x) {
        s
    } else {
        s.insert(key_pos(s, x), x)
    }
}

/// The tree with `child` among the sub-categories of `parent` (a node for
/// `parent` is made first if there is none).
pub open spec fn add_child(
    t: Seq<(Seq<char>, Seq<Seq<char>>, Seq<usize>, Seq<Seq<char>>)>,
    parent: Seq<char>,
    child: Seq<char>,
) -> Seq<(Seq<char>, Seq<Seq<char>>, Seq<usize>, Seq<Seq<char>>)> {
    let t1 = upsert(t, parent, Seq::empty());
    let i = node_at(t1, parent).unwrap();
    t1.update(i, (t1[i].0, t1[i].1, t1[i].2, set_insert(t1[i].3, child)))
}

/// The tree with entry `m` filed under `key`, when it has that node.
pub open spec fn add_page(
    t: Seq<(Seq<char>, Seq<Seq<char>>, Seq<usize>, Seq<Seq<char>>)>,
    key: Seq<char>,
    m: usize,
) -> Seq<(Seq<char>, Seq<Seq<char>>, Seq<usize>, Seq<Seq<char>>)> {
    match node_at(t, key) {
        Some(i) => t.update(i, (t[i].0, t[i].1, t[i].2.push(m), t[i].3)),
        None => t,
    }
}

/// The key of the first `i` parts of a path, given the folds of its parts.
pub open spec fn prefix_key(folded: Seq<Seq<char>>, i: int) -> Seq<char> {
    category_key_spec(folded.take(i))
}

/// The tree after the first `i` prefixes of one path: each prefix gets a
/// node, and each is a sub-category of the one before.
pub open spec fn add_prefixes(
    t: Seq<(Seq<char>, Seq<Seq<char>>, Seq<usize>, Seq<Seq<char>>)>,
    raw: Seq<Seq<char>>,
    folded: Seq<Seq<char>>,
    i: int,
) -> Seq<(Seq<char>, Seq<Seq<char>>, Seq<usize>, Seq<Seq<char>>)>
    decreases i,
{
    if i <= 0 {
        t
    } else {
        let t1 = upsert(add_prefixes(t, raw, folded, i - 1), prefix_key(folded, i), raw.take(i));
        if i > 1 {
            add_child(t1, prefix_key(folded, i - 1), prefix_key(folded, i))
        } else {
            t1
        }
    }
}

/// The tree after filing entry `m` under one of its category paths.
pub open spec fn add_path(
    t: Seq<(Seq<char>, Seq<Seq<char>>, Seq<usize>, Seq<Seq<char>>)>,
    m: usize,
    raw: Seq<Seq<char>>,
    folded: Seq<Seq<char>>,
) -> Seq<(Seq<char>, Seq<Seq<char>>, Seq<usize>, Seq<Seq<char>>)> {
    add_page(add_prefixes(t, raw, folded, raw.len() as int), prefix_key(folded, raw.len() as int), m)
}

/// The tree after the first `n` paths of entry `m`.
pub open spec fn add_paths(
    t: Seq<(Seq<char>, Seq<Seq<char>>, Seq<usize>, Seq<Seq<char>>)>,
    m: usize,
    raws: Seq<Seq<Seq<char>>>,
    folds: Seq<Seq<Seq<char>>>,
    n: int,
) -> Seq<(Seq<char>, Seq<Seq<char>>, Seq<usize>, Seq<Seq<char>>)>
    decreases n,
{
    if n <= 0 {
        t
    } else {
        add_path(add_paths(t, m, raws, folds, n - 1), m, raws[n - 1], folds[n - 1])
    }
}

/// The tree after the paths of the first `n` entries.
pub open spec fn tree_upto(
    metas: Seq<SiteEntryMeta>,
    folded: Seq<Seq<Seq<Seq<char>>>>,
    n: int,
) -> Seq<(Seq<char>, Seq<Seq<char>>, Seq<usize>, Seq<Seq<char>>)>
    decreases n,
{
    if n <= 0 {
        Seq::empty()
    } else {
        let raws = metas[n - 1].categories@.map_values(|p: Vec<String>| strs_view(p@));
        add_paths(tree_upto(metas, folded, n - 1), (n - 1) as usize, raws, folded[n - 1], raws.len() as int)
    }
}

/// A tree with a node keyed `key` finds it; `node_at` gives a node with
/// that key.
proof fn lemma_node_at_found(t: Seq<(Seq<char>, Seq<Seq<char>>, Seq<usize>, Seq<Seq<char>>)>, key: Seq<char>, i: int)
    requires
        0 <= i < t.len(),
        t[i].0 == key,
    ensures
        node_at(t, key) is Some,
    decreases t.len(),
{
    if t[0].0 != key {
        assert(t.drop_first()[i - 1] == t[i]);
        lemma_node_at_found(t.drop_first(), key, i - 1);
    }
}

/// What `node_at` finds has the key and lies in the tree.
proof fn lemma_node_at_sound(t: Seq<(Seq<char>, Seq<Seq<char>>, Seq<usize>, Seq<Seq<char>>)>, key: Seq<char>)
    ensures
        node_at(t, key) matches Some(i) ==> 0 <= i < t.len() && t[i].0 == key,
    decreases t.len(),
{
    if t.len() > 0 && t[0].0 != key {
        lemma_node_at_sound(t.drop_first(), key);
    }
}

/// After an upsert the tree has the node.
proof fn lemma_upsert_has(t: Seq<(Seq<char>, Seq<Seq<char>>, Seq<usize>, Seq<Seq<char>>)>, key: Seq<char>, path: Seq<Seq<char>>)
    ensures
        node_at(upsert(t, key, path), key) is Some,
{
    if node_at(t, key) is None {
        let p = key_pos(node_keys(t), key);
        lemma_key_pos_bound(node_keys(t), key);
        let t1 = t.insert(p, (key, path, Seq::empty(), Seq::empty()));
        lemma_node_at_found(t1, key, p);
    }
}

proof fn lemma_key_pos_bound(keys: Seq<Seq<char>>, key: Seq<char>)
    ensures
        0 <= key_pos(keys, key) <= keys.len(),
    decreases keys.len(),
{
    if keys.len() > 0 && seq_lt(keys[0], key) {
        lemma_key_pos_bound(keys.drop_first(), key);
    }
}

/// The position of the node with key `key`, if any.
fn find_node(t: &Vec<CategoryNode>, key: &str) -> (r: Option<usize>)
    ensures
        match r {
            Some(i) => node_at(tree_v(t@), key@) == Some(i as int) && i < t@.len(),
            None => node_at(tree_v(t@), key@) is None,
        },
{
    let ghost tv = tree_v(t@);
    let mut i: usize = 0;
    assert(tv.skip(0) =~= tv);
    while i < t.len()
        invariant
            i <= t@.len(),
            tv == tree_v(t@),
            forall|q: int| 0 <= q < i ==> tv[q].0 != key@,
            node_at(tv, key@) == match node_at(tv.skip(i as int), key@) {
                Some(j) => Some(j + i),
                None => None,
            },
        decreases t@.len() - i,
    {
        assert(tv.skip(i as int)[0] == tv[i as int]);
        assert(tv.skip(i as int).drop_first() =~= tv.skip(i + 1));
        if str_eq(t[i].key.as_str(), key) {
            return Some(i);
        }
        i += 1;
    }
    assert(tv.skip(i as int) =~= Seq::<(Seq<char>, Seq<Seq<char>>, Seq<usize>, Seq<Seq<char>>)>::empty());
    None
}

/// Where `key` goes in an ascending list of keys.
fn key_pos_exec(keys: &Vec<String>, key: &str) -> (r: usize)
    ensures
        r == key_pos(strs_view(keys@), key@),
        r <= keys@.len(),
{
    let ghost kv = strs_view(keys@);
    let mut i: usize = 0;
    assert(kv.skip(0) =~= kv);
    while i < keys.len() && str_lt(keys[i].as_str(), key)
        invariant
            i <= keys@.len(),
            kv == strs_view(keys@),
            key_pos(kv, key@) == i + key_pos(kv.skip(i as int), key@),
        decreases keys@.len() - i,
    {
        assert(kv.skip(i as int)[0] == keys@[i as int]@);
        assert(kv.skip(i as int).drop_first() =~= kv.skip(i + 1));
        i += 1;
    }
    if i < keys.len() {
        assert(kv.skip(i as int)[0] == keys@[i as int]@);
    }
    i
}

/// Where a node for `key` goes in the tree.
fn node_pos(t: &Vec<CategoryNode>, key: &str) -> (r: usize)
    ensures
        r == key_pos(node_keys(tree_v(t@)), key@),
        r <= t@.len(),
{
    let ghost kv = node_keys(tree_v(t@));
    let mut i: usize = 0;
    assert(kv.skip(0) =~= kv);
    while i < t.len() && str_lt(t[i].key.as_str(), key)
        invariant
            i <= t@.len(),
            kv == node_keys(tree_v(t@)),
            key_pos(kv, key@) == i + key_pos(kv.skip(i as int), key@),
        decreases t@.len() - i,
    {
        assert(kv.skip(i as int)[0] == t@[i as int].key@);
        assert(kv.skip(i as int).drop_first() =~= kv.skip(i + 1));
        i += 1;
    }
    if i < t.len() {
        assert(kv.skip(i as int)[0] == t@[i as int].key@);
    }
    i
}

/// Gives the tree a node for `key` unless it has one.
fn upsert_exec(t: &mut Vec<CategoryNode>, key: &str, path: &Vec<String>)
    ensures
        tree_v(final(t)@) == upsert(tree_v(old(t)@), key@, strs_view(path@)),
{
    if find_node(t, key).is_some() {
        return;
    }
    let p = node_pos(t, key);
    let ghost t0 = t@;
    let cp = copy_strings(path);
    assert(crate::english_index::sv(cp@) =~= strs_view(cp@));
    assert(crate::english_index::sv(path@) =~= strs_view(path@));
    let node = CategoryNode { key: crate::strs::string_from(key), path: cp, pages: Vec::new(), children: Vec::new() };
    assert(node_v(node) =~= (key@, strs_view(path@), Seq::<usize>::empty(), Seq::<Seq<char>>::empty()));
    t.insert(p, node);
    assert(tree_v(t@) =~= tree_v(t0).insert(p as int, (key@, strs_view(path@), Seq::empty(), Seq::empty())));
}

/// Files `child` among the sub-categories of `parent`.
fn add_child_exec(t: &mut Vec<CategoryNode>, parent: &str, child: &str)
    ensures
        tree_v(final(t)@) == add_child(tree_v(old(t)@), parent@, child@),
{
    let empty: Vec<String> = Vec::new();
    let ghost t00 = tree_v(t@);
    upsert_exec(t, parent, &empty);
    assert(strs_view(empty@) =~= Seq::<Seq<char>>::empty());
    proof {
        lemma_upsert_has(t00, parent@, Seq::empty());
    }
    let i = match find_node(t, parent) {
        Some(i) => i,
        None => {
            assert(false);
            return;
        },
    };
    let ghost t1 = t@;
    let mut node = t.remove(i);
    let present = {
        let mut found = false;
        let mut k: usize = 0;
        while k < node.children.len()
            invariant
                k <= node.children@.len(),
                found == exists|q: int| 0 <= q < k && node.children@[q]@ == child@,
            decreases node.children@.len() - k,
        {
            if str_eq(node.children[k].as_str(), child) {
                found = true;
            }
            k += 1;
        }
        found
    };
    let ghost cv = strs_view(node.children@);
    assert(present == cv.contains(child@)) by {
        if cv.contains(child@) {
            let q = choose|q: int| 0 <= q < cv.len() && cv[q] == child@;
            assert(node.children@[q]@ == child@);
        }
        if present {
            let q = choose|q: int| 0 <= q < node.children@.len() && node.children@[q]@ == child@;
            assert(cv[q] == child@);
        }
    }
    if !present {
        let p = key_pos_exec(&node.children, child);
        node.children.insert(p, crate::strs::string_from(child));
        assert(strs_view(node.children@) =~= cv.insert(p as int, child@));
    }
    t.insert(i, node);
    assert(tree_v(t@) =~= tree_v(t1).update(i as int, (tree_v(t1)[i as int].0, tree_v(t1)[i as int].1, tree_v(t1)[i as int].2, set_insert(tree_v(t1)[i as int].3, child@))));
}

/// Files entry `m` under the node with key `key`, if there is one.
fn add_page_exec(t: &mut Vec<CategoryNode>, key: &str, m: usize)
    ensures
        tree_v(final(t)@) == add_page(tree_v(old(t)@), key@, m),
{
    match find_node(t, key) {
        Some(i) => {
            let ghost t0 = t@;
            let mut node = t.remove(i);
            node.pages.push(m);
            t.insert(i, node);
            assert(tree_v(t@) =~= tree_v(t0).update(i as int, (tree_v(t0)[i as int].0, tree_v(t0)[i as int].1, tree_v(t0)[i as int].2.push(m), tree_v(t0)[i as int].3)));
        },
        None => {},
    }
}

/// Files entry `m` under one of its category paths (`folded` holds the
/// folds of the path's parts).
fn add_path_exec(t: &mut Vec<CategoryNode>, m: usize, raw: &Vec<String>, folded: &Vec<String>)
    requires
        raw@.len() == folded@.len(),
    ensures
        tree_v(final(t)@) == add_path(tree_v(old(t)@), m, strs_view(raw@), strs_view(folded@)),
{
    let ghost t0 = tree_v(t@);
    let ghost rv = strs_view(raw@);
    let ghost fv = strs_view(folded@);
    let mut prefix_raw: Vec<String> = Vec::new();
    let mut prefix_fold: Vec<String> = Vec::new();
    let mut prev_key = String::new();
    let mut i: usize = 0;
    assert(rv.take(0) =~= Seq::<Seq<char>>::empty());
    assert(fv.take(0) =~= Seq::<Seq<char>>::empty());
    while i < raw.len()
        invariant
            i <= raw@.len(),
            raw@.len() == folded@.len(),
            rv == strs_view(raw@),
            fv == strs_view(folded@),
            tree_v(t@) == add_prefixes(t0, rv, fv, i as int),
            strs_view(prefix_raw@) == rv.take(i as int),
            strs_view(prefix_fold@) == fv.take(i as int),
            i > 0 ==> prev_key@ == prefix_key(fv, i as int),
        decreases raw@.len() - i,
    {
        let ghost br = prefix_raw@;
        let ghost bf = prefix_fold@;
        prefix_raw.push(copy_string(&raw[i]));
        prefix_fold.push(copy_string(&folded[i]));
        assert(strs_view(prefix_raw@) =~= strs_view(br).push(raw@[i as int]@));
        assert(strs_view(prefix_fold@) =~= strs_view(bf).push(folded@[i as int]@));
        assert(rv.take(i + 1) =~= rv.take(i as int).push(rv[i as int]));
        assert(fv.take(i + 1) =~= fv.take(i as int).push(fv[i as int]));
        let key = category_key(&prefix_fold);
        upsert_exec(t, key.as_str(), &prefix_raw);
        if i > 0 {
            add_child_exec(t, prev_key.as_str(), key.as_str());
        }
        prev_key = key;
        i += 1;
    }
    let leaf = category_key(&prefix_fold);
    assert(rv.take(i as int) =~= rv);
    add_page_exec(t, leaf.as_str(), m);
}

/// Category paths over plain values, entry by entry.
pub open spec fn fold_lists(v: Seq<Vec<Vec<String>>>) -> Seq<Seq<Seq<Seq<char>>>> {
    v.map_values(|m: Vec<Vec<String>>| m@.map_values(|p: Vec<String>| strs_view(p@)))
}

/// Whether the folds of the entries' category paths line up with the paths.
pub open spec fn folds_match(metas: Seq<SiteEntryMeta>, folded: Seq<Vec<Vec<String>>>) -> bool {
    &&& folded.len() == metas.len()
    &&& forall|m: int| 0 <= m < metas.len() ==> (#[trigger] folded[m])@.len() == metas[m].categories@.len()
    &&& forall|m: int, p: int| 0 <= m < metas.len() && 0 <= p < metas[m].categories@.len()
        ==> (#[trigger] folded[m]@[p])@.len() == (#[trigger] metas[m].categories@[p])@.len()
}

/// The category tree before its pages are put in order.
fn gather_tree(metas: &Vec<SiteEntryMeta>, folded: &Vec<Vec<Vec<String>>>) -> (r: Vec<CategoryNode>)
    requires
        folds_match(metas@, folded@),
    ensures
        tree_v(r@) == tree_upto(metas@, fold_lists(folded@), metas@.len() as int),
{
    let ghost fl = fold_lists(folded@);
    let mut t: Vec<CategoryNode> = Vec::new();
    assert(tree_v(t@) =~= Seq::<(Seq<char>, Seq<Seq<char>>, Seq<usize>, Seq<Seq<char>>)>::empty());
    let mut m: usize = 0;
    while m < metas.len()
        invariant
            m <= metas@.len(),
            folds_match(metas@, folded@),
            fl == fold_lists(folded@),
            tree_v(t@) == tree_upto(metas@, fl, m as int),
        decreases metas@.len() - m,
    {
        let cats = &metas[m].categories;
        let folds = &folded[m];
        let ghost raws = cats@.map_values(|p: Vec<String>| strs_view(p@));
        let ghost t0 = tree_v(t@);
        assert(fl[m as int] == folds@.map_values(|p: Vec<String>| strs_view(p@)));
        let mut p: usize = 0;
        while p < cats.len()
            invariant
                p <= cats@.len(),
                m < metas@.len(),
                *cats == metas@[m as int].categories,
                *folds == folded@[m as int],
                folds@.len() == cats@.len(),
                folds_match(metas@, folded@),
                raws == cats@.map_values(|p: Vec<String>| strs_view(p@)),
                fl[m as int] == folds@.map_values(|p: Vec<String>| strs_view(p@)),
                tree_v(t@) == add_paths(t0, m, raws, fl[m as int], p as int),
            decreases cats@.len() - p,
        {
            assert(folds@[p as int]@.len() == cats@[p as int]@.len());
            add_path_exec(&mut t, m, &cats[p], &folds[p]);
            assert(raws[p as int] == strs_view(cats@[p as int]@));
            assert(fl[m as int][p as int] == strs_view(folds@[p as int]@));
            p += 1;
        }
        m += 1;
    }
    t
}

/// Whether every page filed in the tree is one of the first `n` entries.
pub open spec fn pages_below(t: Seq<(Seq<char>, Seq<Seq<char>>, Seq<usize>, Seq<Seq<char>>)>, n: int) -> bool {
    forall|i: int, j: int| 0 <= i < t.len() && 0 <= j < t[i].2.len() ==> (#[trigger] t[i].2[j]) < n
}

proof fn lemma_upsert_pages(t: Seq<(Seq<char>, Seq<Seq<char>>, Seq<usize>, Seq<Seq<char>>)>, key: Seq<char>, path: Seq<Seq<char>>, n: int)
    requires
        pages_below(t, n),
    ensures
        pages_below(upsert(t, key, path), n),
{
    if node_at(t, key) is None {
        let p = key_pos(node_keys(t), key);
        lemma_key_pos_bound(node_keys(t), key);
        let t1 = upsert(t, key, path);
        let e: (Seq<char>, Seq<Seq<char>>, Seq<usize>, Seq<Seq<char>>) = (key, path, Seq::empty(), Seq::empty());
        assert(t1 == t.insert(p, e));
        assert forall|i: int, j: int| 0 <= i < t1.len() && 0 <= j < t1[i].2.len() implies (#[trigger] t1[i].2[j]) < n by {
            if i < p {
                assert(t1[i] == t[i]);
                assert(t[i].2[j] < n);
            } else if i > p {
                assert(t1[i] == t[i - 1]);
                assert(t[i - 1].2[j] < n);
            } else {
                assert(t1[i] == e);
            }
        }
    }
}

proof fn lemma_add_child_pages(t: Seq<(Seq<char>, Seq<Seq<char>>, Seq<usize>, Seq<Seq<char>>)>, parent: Seq<char>, child: Seq<char>, n: int)
    requires
        pages_below(t, n),
    ensures
        pages_below(add_child(t, parent, child), n),
{
    lemma_upsert_pages(t, parent, Seq::empty(), n);
    let t1 = upsert(t, parent, Seq::empty());
    lemma_upsert_has(t, parent, Seq::empty());
    lemma_node_at_sound(t1, parent);
    let k = node_at(t1, parent).unwrap();
    let t2 = add_child(t, parent, child);
    assert forall|i: int, j: int| 0 <= i < t2.len() && 0 <= j < t2[i].2.len() implies (#[trigger] t2[i].2[j]) < n by {
        assert(t2[i].2 == t1[i].2);
    }
}

proof fn lemma_add_page_pages(t: Seq<(Seq<char>, Seq<Seq<char>>, Seq<usize>, Seq<Seq<char>>)>, key: Seq<char>, m: usize, n: int)
    requires
        pages_below(t, n),
        m < n,
    ensures
        pages_below(add_page(t, key, m), n),
{
    lemma_node_at_sound(t, key);
    let t2 = add_page(t, key, m);
    assert forall|i: int, j: int| 0 <= i < t2.len() && 0 <= j < t2[i].2.len() implies (#[trigger] t2[i].2[j]) < n by {
        if node_at(t, key) == Some(i) {
            if j < t[i].2.len() {
                assert(t2[i].2[j] == t[i].2[j]);
            }
        } else {
            assert(t2[i] == t[i]);
        }
    }
}

proof fn lemma_prefixes_pages(t: Seq<(Seq<char>, Seq<Seq<char>>, Seq<usize>, Seq<Seq<char>>)>, raw: Seq<Seq<char>>, folded: Seq<Seq<char>>, i: int, n: int)
    requires
        pages_below(t, n),
    ensures
        pages_below(add_prefixes(t, raw, folded, i), n),
    decreases i,
{
    if i > 0 {
        lemma_prefixes_pages(t, raw, folded, i - 1, n);
        let t0 = add_prefixes(t, raw, folded, i - 1);
        lemma_upsert_pages(t0, prefix_key(folded, i), raw.take(i), n);
        if i > 1 {
            lemma_add_child_pages(upsert(t0, prefix_key(folded, i), raw.take(i)), prefix_key(folded, i - 1), prefix_key(folded, i), n);
        }
    }
}

proof fn lemma_paths_pages(t: Seq<(Seq<char>, Seq<Seq<char>>, Seq<usize>, Seq<Seq<char>>)>, m: usize, raws: Seq<Seq<Seq<char>>>, folds: Seq<Seq<Seq<char>>>, k: int, n: int)
    requires
        pages_below(t, n),
        m < n,
    ensures
        pages_below(add_paths(t, m, raws, folds, k), n),
    decreases k,
{
    if k > 0 {
        lemma_paths_pages(t, m, raws, folds, k - 1, n);
        let t0 = add_paths(t, m, raws, folds, k - 1);
        lemma_prefixes_pages(t0, raws[k - 1], folds[k - 1], raws[k - 1].len() as int, n);
        lemma_add_page_pages(add_prefixes(t0, raws[k - 1], folds[k - 1], raws[k - 1].len() as int), prefix_key(folds[k - 1], raws[k - 1].len() as int), m, n);
    }
}

/// Every page filed in the tree is one of the entries.
proof fn lemma_tree_pages(metas: Seq<SiteEntryMeta>, folded: Seq<Seq<Seq<Seq<char>>>>, k: int, n: int)
    requires
        0 <= k <= n,
    ensures
        pages_below(tree_upto(metas, folded, k), n),
    decreases k,
{
    if k > 0 {
        lemma_tree_pages(metas, folded, k - 1, n);
        let raws = metas[k - 1].categories@.map_values(|p: Vec<String>| strs_view(p@));
        lemma_paths_pages(tree_upto(metas, folded, k - 1), (k - 1) as usize, raws, folded[k - 1], raws.len() as int, n);
    }
}

/// `s` with page `x` inserted after every page whose title skeleton does
/// not sort after its own.
pub open spec fn insert_page(s: Seq<usize>, x: usize, sk: Seq<Seq<char>>) -> Seq<usize>
    decreases s.len(),
{
    if s.len() == 0 {
        seq![x]
    } else if seq_lt(sk[x as int], sk[s[0] as int]) {
        seq![x] + s
    } else {
        seq![s[0]] + insert_page(s.skip(1), x, sk)
    }
}

/// Pages ordered by title skeleton, pages with equal skeletons kept in
/// filing order.
pub open spec fn sort_pages(v: Seq<usize>, sk: Seq<Seq<char>>) -> Seq<usize>
    decreases v.len(),
{
    if v.len() == 0 {
        Seq::empty()
    } else {
        insert_page(sort_pages(v.drop_last(), sk), v.last(), sk)
    }
}

proof fn lemma_insert_page_at(s: Seq<usize>, x: usize, sk: Seq<Seq<char>>, p: int)
    requires
        0 <= p <= s.len(),
        forall|q: int| 0 <= q < p ==> !seq_lt(sk[x as int], #[trigger] sk[s[q] as int]),
        p < s.len() ==> seq_lt(sk[x as int], sk[s[p] as int]),
    ensures
        insert_page(s, x, sk) == s.take(p) + seq![x] + s.skip(p),
    decreases p,
{
    if p == 0 {
        if s.len() == 0 {
            assert(s.take(0) + seq![x] + s.skip(0) =~= seq![x]);
        } else {
            assert(s.take(0) + seq![x] + s.skip(0) =~= seq![x] + s);
        }
    } else {
        let t = s.skip(1);
        assert forall|q: int| 0 <= q < p - 1 implies !seq_lt(sk[x as int], #[trigger] sk[t[q] as int]) by {
            assert(t[q] == s[q + 1]);
        }
        if p - 1 < t.len() {
            assert(t[p - 1] == s[p]);
        }
        lemma_insert_page_at(t, x, sk, p - 1);
        assert(seq![s[0]] + (t.take(p - 1) + seq![x] + t.skip(p - 1)) =~= s.take(p) + seq![x] + s.skip(p));
    }
}

/// Puts a node's pages in title order.
pub(crate) fn sort_node_pages(pages: &Vec<usize>, skeletons: &Vec<String>) -> (r: Vec<usize>)
    requires
        forall|j: int| 0 <= j < pages@.len() ==> (#[trigger] pages@[j]) < skeletons@.len(),
    ensures
        r@ == sort_pages(pages@, strs_view(skeletons@)),
{
    let ghost sk = strs_view(skeletons@);
    let mut out: Vec<usize> = Vec::new();
    let mut i: usize = 0;
    assert(pages@.take(0) =~= Seq::<usize>::empty());
    while i < pages.len()
        invariant
            i <= pages@.len(),
            sk == strs_view(skeletons@),
            forall|j: int| 0 <= j < pages@.len() ==> (#[trigger] pages@[j]) < skeletons@.len(),
            forall|j: int| 0 <= j < out@.len() ==> (#[trigger] out@[j]) < skeletons@.len(),
            out@ == sort_pages(pages@.take(i as int), sk),
        decreases pages@.len() - i,
    {
        let x = pages[i];
        let ghost s0 = out@;
        let mut p: usize = 0;
        while p < out.len() && !str_lt(skeletons[x].as_str(), skeletons[out[p]].as_str())
            invariant
                p <= out@.len(),
                out@ == s0,
                x < skeletons@.len(),
                sk == strs_view(skeletons@),
                forall|j: int| 0 <= j < out@.len() ==> (#[trigger] out@[j]) < skeletons@.len(),
                forall|q: int| 0 <= q < p ==> !seq_lt(sk[x as int], #[trigger] sk[s0[q] as int]),
            decreases out@.len() - p,
        {
            p += 1;
        }
        proof {
            lemma_insert_page_at(s0, x, sk, p as int);
            assert(pages@.take(i + 1).drop_last() =~= pages@.take(i as int));
            assert(pages@.take(i + 1).last() == x);
        }
        out.insert(p, x);
        assert(out@ =~= s0.take(p as int) + seq![x] + s0.skip(p as int));
        i += 1;
    }
    assert(pages@.take(i as int) =~= pages@);
    out
}

/// A tree with each node's pages in title order.
pub open spec fn sorted_tree(t: Seq<(Seq<char>, Seq<Seq<char>>, Seq<usize>, Seq<Seq<char>>)>, sk: Seq<Seq<char>>) -> Seq<(Seq<char>, Seq<Seq<char>>, Seq<usize>, Seq<Seq<char>>)> {
    t.map_values(|n: (Seq<char>, Seq<Seq<char>>, Seq<usize>, Seq<Seq<char>>)| (n.0, n.1, sort_pages(n.2, sk), n.3))
}

/// The category tree of the entries: a node for every prefix of every
/// category path, by ascending key, each listing its sub-categories and the
/// entries filed directly under it (by position, ordered by title
/// skeleton). `folded[m][p]` holds the folds of the parts of
/// `metas[m].categories[p]`; `skeletons[m]` is the ASCII skeleton of
/// `metas[m]`'s title.
pub fn build_category_tree(metas: &Vec<SiteEntryMeta>, folded: &Vec<Vec<Vec<String>>>, skeletons: &Vec<String>) -> (r: Vec<CategoryNode>)
    requires
        folds_match(metas@, folded@),
        skeletons@.len() == metas@.len(),
    ensures
        tree_v(r@) == sorted_tree(tree_upto(metas@, fold_lists(folded@), metas@.len() as int), strs_view(skeletons@)),
        pages_in(tree_v(r@), metas@.len()),
{
    let mut t = gather_tree(metas, folded);
    proof {
        lemma_tree_pages(metas@, fold_lists(folded@), metas@.len() as int, metas@.len() as int);
    }
    let ghost t0 = tree_v(t@);
    let ghost sk = strs_view(skeletons@);
    let mut i: usize = 0;
    while i < t.len()
        invariant
            i <= t@.len(),
            t@.len() == t0.len(),
            pages_below(t0, skeletons@.len() as int),
            forall|q: int| i <= q < t@.len() ==> node_v(#[trigger] t@[q]) == t0[q],
            forall|q: int| 0 <= q < i ==> node_v(#[trigger] t@[q]) == (t0[q].0, t0[q].1, sort_pages(t0[q].2, sk), t0[q].3),
            sk == strs_view(skeletons@),
        decreases t@.len() - i,
    {
        let ghost before = t@;
        let mut node = t.remove(i);
        assert(node_v(node) == t0[i as int]);
        assert forall|j: int| 0 <= j < node.pages@.len() implies (#[trigger] node.pages@[j]) < skeletons@.len() by {
            assert(t0[i as int].2[j] == node.pages@[j]);
        }
        let sorted = sort_node_pages(&node.pages, skeletons);
        node.pages = sorted;
        t.insert(i, node);
        assert forall|q: int| i + 1 <= q < t@.len() implies node_v(#[trigger] t@[q]) == t0[q] by {
            assert(t@[q] == before[q]);
        }
        assert forall|q: int| 0 <= q < i + 1 implies node_v(#[trigger] t@[q]) == (t0[q].0, t0[q].1, sort_pages(t0[q].2, sk), t0[q].3) by {
            if q < i {
                assert(t@[q] == before[q]);
            }
        }
        i += 1;
    }
    assert(tree_v(t@) =~= sorted_tree(t0, sk));
    proof {
        let tv = tree_v(t@);
        assert forall|a: int, b: int| 0 <= a < tv.len() && 0 <= b < tv[a].2.len() implies (#[trigger] tv[a].2[b]) < metas@.len() by {
            lemma_sorted_pages_below(t0[a].2, sk, metas@.len() as int);
        }
    }
    t
}

/// Whether a list of keys is strictly ascending.
pub open spec fn ascending(keys: Seq<Seq<char>>) -> bool {
    forall|a: int, b: int| 0 <= a < b < keys.len() ==> seq_lt(#[trigger] keys[a], #[trigger] keys[b])
}

/// `key_pos` splits an ascending list at the keys before `key`.
proof fn lemma_key_pos_split(keys: Seq<Seq<char>>, key: Seq<char>)
    requires
        ascending(keys),
    ensures
        forall|q: int| 0 <= q < key_pos(keys, key) ==> seq_lt(#[trigger] keys[q], key),
        key_pos(keys, key) < keys.len() ==> !seq_lt(keys[key_pos(keys, key)], key),
        0 <= key_pos(keys, key) <= keys.len(),
    decreases keys.len(),
{
    lemma_key_pos_bound(keys, key);
    if keys.len() > 0 && seq_lt(keys[0], key) {
        let rest = keys.drop_first();
        assert forall|a: int, b: int| 0 <= a < b < rest.len() implies seq_lt(#[trigger] rest[a], #[trigger] rest[b]) by {
            assert(rest[a] == keys[a + 1] && rest[b] == keys[b + 1]);
        }
        lemma_key_pos_split(rest, key);
        assert forall|q: int| 0 <= q < key_pos(keys, key) implies seq_lt(#[trigger] keys[q], key) by {
            if q > 0 {
                assert(keys[q] == rest[q - 1]);
            }
        }
        if key_pos(keys, key) < keys.len() {
            assert(keys[key_pos(keys, key)] == rest[key_pos(rest, key)]);
        }
    }
}

/// Inserting a new key where `key_pos` puts it keeps a list ascending.
proof fn lemma_insert_ascending(keys: Seq<Seq<char>>, key: Seq<char>)
    requires
        ascending(keys),
        !keys.contains(key),
    ensures
        ascending(keys.insert(key_pos(keys, key), key)),
{
    lemma_key_pos_split(keys, key);
    let p = key_pos(keys, key);
    let k1 = keys.insert(p, key);
    assert forall|a: int, b: int| 0 <= a < b < k1.len() implies seq_lt(#[trigger] k1[a], #[trigger] k1[b]) by {
        if p < keys.len() {
            lemma_seq_lt_total(keys[p], key);
            if keys[p] == key {
                assert(keys.contains(key));
            }
        }
        if b < p {
            assert(k1[a] == keys[a] && k1[b] == keys[b]);
        } else if b == p {
            assert(k1[a] == keys[a]);
        } else if a < p {
            assert(k1[a] == keys[a] && k1[b] == keys[b - 1]);
            lemma_seq_lt_trans(keys[a], key, keys[p]);
            if b - 1 > p {
                lemma_seq_lt_trans(keys[a], keys[p], keys[b - 1]);
            }
        } else if a == p {
            assert(k1[b] == keys[b - 1]);
            if b - 1 > p {
                lemma_seq_lt_trans(key, keys[p], keys[b - 1]);
            }
        } else {
            assert(k1[a] == keys[a - 1] && k1[b] == keys[b - 1]);
        }
    }
}

/// `node_at` finds a node exactly when some node has the key.
proof fn lemma_node_at_iff(t: Seq<(Seq<char>, Seq<Seq<char>>, Seq<usize>, Seq<Seq<char>>)>, key: Seq<char>)
    ensures
        node_at(t, key) is Some <==> node_keys(t).contains(key),
{
    lemma_node_at_sound(t, key);
    if node_keys(t).contains(key) {
        let i = choose|i: int| 0 <= i < node_keys(t).len() && node_keys(t)[i] == key;
        lemma_node_at_found(t, key, i);
    }
    if node_at(t, key) is Some {
        let i = node_at(t, key).unwrap();
        assert(node_keys(t)[i] == key);
    }
}

/// Whether a tree's keys are strictly ascending.
pub open spec fn tree_sorted(t: Seq<(Seq<char>, Seq<Seq<char>>, Seq<usize>, Seq<Seq<char>>)>) -> bool {
    ascending(node_keys(t))
}

/// Whether the tree has a node for every one of `keys`.
pub open spec fn has_nodes(t: Seq<(Seq<char>, Seq<Seq<char>>, Seq<usize>, Seq<Seq<char>>)>, keys: Set<Seq<char>>) -> bool {
    forall|k: Seq<char>| keys.contains(k) ==> node_keys(t).contains(k)
}

proof fn lemma_upsert_keeps(t: Seq<(Seq<char>, Seq<Seq<char>>, Seq<usize>, Seq<Seq<char>>)>, key: Seq<char>, path: Seq<Seq<char>>)
    requires
        tree_sorted(t),
    ensures
        tree_sorted(upsert(t, key, path)),
        node_keys(upsert(t, key, path)).contains(key),
        forall|k: Seq<char>| node_keys(t).contains(k) ==> node_keys(upsert(t, key, path)).contains(k),
{
    lemma_node_at_iff(t, key);
    lemma_upsert_has(t, key, path);
    lemma_node_at_iff(upsert(t, key, path), key);
    if node_at(t, key) is None {
        let p = key_pos(node_keys(t), key);
        lemma_key_pos_bound(node_keys(t), key);
        let t1 = upsert(t, key, path);
        assert(node_keys(t1) =~= node_keys(t).insert(p, key));
        lemma_insert_ascending(node_keys(t), key);
        assert forall|k: Seq<char>| node_keys(t).contains(k) implies node_keys(t1).contains(k) by {
            let q = choose|q: int| 0 <= q < node_keys(t).len() && node_keys(t)[q] == k;
            if q < p {
                assert(node_keys(t1)[q] == k);
            } else {
                assert(node_keys(t1)[q + 1] == k);
            }
        }
    }
}

proof fn lemma_add_child_keeps(t: Seq<(Seq<char>, Seq<Seq<char>>, Seq<usize>, Seq<Seq<char>>)>, parent: Seq<char>, child: Seq<char>)
    requires
        tree_sorted(t),
    ensures
        tree_sorted(add_child(t, parent, child)),
        forall|k: Seq<char>| node_keys(t).contains(k) ==> node_keys(add_child(t, parent, child)).contains(k),
{
    lemma_upsert_keeps(t, parent, Seq::empty());
    let t1 = upsert(t, parent, Seq::empty());
    lemma_upsert_has(t, parent, Seq::empty());
    lemma_node_at_sound(t1, parent);
    let i = node_at(t1, parent).unwrap();
    assert(node_keys(add_child(t, parent, child)) =~= node_keys(t1));
}

proof fn lemma_add_page_keeps(t: Seq<(Seq<char>, Seq<Seq<char>>, Seq<usize>, Seq<Seq<char>>)>, key: Seq<char>, m: usize)
    ensures
        node_keys(add_page(t, key, m)) == node_keys(t),
{
    lemma_node_at_sound(t, key);
    assert(node_keys(add_page(t, key, m)) =~= node_keys(t));
}

/// The keys of the first `i` prefixes of a path.
pub open spec fn prefix_keys(folded: Seq<Seq<char>>, i: int) -> Set<Seq<char>> {
    Set::new(|k: Seq<char>| exists|j: int| 1 <= j <= i && k == #[trigger] prefix_key(folded, j))
}

proof fn lemma_prefixes_keep(t: Seq<(Seq<char>, Seq<Seq<char>>, Seq<usize>, Seq<Seq<char>>)>, raw: Seq<Seq<char>>, folded: Seq<Seq<char>>, i: int)
    requires
        tree_sorted(t),
    ensures
        tree_sorted(add_prefixes(t, raw, folded, i)),
        forall|k: Seq<char>| node_keys(t).contains(k) ==> node_keys(add_prefixes(t, raw, folded, i)).contains(k),
        has_nodes(add_prefixes(t, raw, folded, i), prefix_keys(folded, i)),
    decreases i,
{
    if i > 0 {
        lemma_prefixes_keep(t, raw, folded, i - 1);
        let t0 = add_prefixes(t, raw, folded, i - 1);
        lemma_upsert_keeps(t0, prefix_key(folded, i), raw.take(i));
        let t1 = upsert(t0, prefix_key(folded, i), raw.take(i));
        if i > 1 {
            lemma_add_child_keeps(t1, prefix_key(folded, i - 1), prefix_key(folded, i));
        }
        let t2 = add_prefixes(t, raw, folded, i);
        assert forall|k: Seq<char>| prefix_keys(folded, i).contains(k) implies node_keys(t2).contains(k) by {
            let j = choose|j: int| 1 <= j <= i && k == #[trigger] prefix_key(folded, j);
            if j < i {
                assert(prefix_keys(folded, i - 1).contains(k));
            }
        }
    }
}

proof fn lemma_paths_keep(t: Seq<(Seq<char>, Seq<Seq<char>>, Seq<usize>, Seq<Seq<char>>)>, m: usize, raws: Seq<Seq<Seq<char>>>, folds: Seq<Seq<Seq<char>>>, k: int)
    requires
        tree_sorted(t),
        0 <= k <= raws.len(),
    ensures
        tree_sorted(add_paths(t, m, raws, folds, k)),
        forall|x: Seq<char>| node_keys(t).contains(x) ==> node_keys(add_paths(t, m, raws, folds, k)).contains(x),
        forall|p: int| 0 <= p < k ==> has_nodes(add_paths(t, m, raws, folds, k), #[trigger] prefix_keys(folds[p], raws[p].len() as int)),
    decreases k,
{
    if k > 0 {
        lemma_paths_keep(t, m, raws, folds, k - 1);
        let t0 = add_paths(t, m, raws, folds, k - 1);
        let n = raws[k - 1].len() as int;
        lemma_prefixes_keep(t0, raws[k - 1], folds[k - 1], n);
        let t1 = add_prefixes(t0, raws[k - 1], folds[k - 1], n);
        lemma_add_page_keeps(t1, prefix_key(folds[k - 1], n), m);
    }
}

/// The category tree is well formed: its keys are strictly ascending (one
/// node per key), and every prefix of every category path of every entry
/// has a node.
pub proof fn lemma_category_tree_complete(metas: Seq<SiteEntryMeta>, folded: Seq<Seq<Seq<Seq<char>>>>, n: int)
    requires
        0 <= n <= metas.len(),
        folded.len() == metas.len(),
        forall|m: int| 0 <= m < metas.len() ==> (#[trigger] folded[m]).len() == metas[m].categories@.len(),
    ensures
        tree_sorted(tree_upto(metas, folded, n)),
        forall|m: int, p: int| 0 <= m < n && 0 <= p < metas[m].categories@.len() ==> has_nodes(
            tree_upto(metas, folded, n),
            #[trigger] prefix_keys(folded[m][p], metas[m].categories@[p]@.len() as int),
        ),
    decreases n,
{
    if n == 0 {
        assert(node_keys(Seq::<(Seq<char>, Seq<Seq<char>>, Seq<usize>, Seq<Seq<char>>)>::empty()) =~= Seq::<Seq<char>>::empty());
    } else {
        lemma_category_tree_complete(metas, folded, n - 1);
        let t0 = tree_upto(metas, folded, n - 1);
        let raws = metas[n - 1].categories@.map_values(|p: Vec<String>| strs_view(p@));
        lemma_paths_keep(t0, (n - 1) as usize, raws, folded[n - 1], raws.len() as int);
        let t = tree_upto(metas, folded, n);
        assert forall|m: int, p: int| 0 <= m < n && 0 <= p < metas[m].categories@.len() implies has_nodes(
            t,
            #[trigger] prefix_keys(folded[m][p], metas[m].categories@[p]@.len() as int),
        ) by {
            if m == n - 1 {
                assert(raws[p].len() == metas[m].categories@[p]@.len());
                assert(has_nodes(t, prefix_keys(folded[n - 1][p], raws[p].len() as int)));
            } else {
                assert(has_nodes(t0, prefix_keys(folded[m][p], metas[m].categories@[p]@.len() as int)));
            }
        }
    }
}

/// One node of `categories.json`.
pub open spec fn node_json(n: (Seq<char>, Seq<Seq<char>>, Seq<usize>, Seq<Seq<char>>), metas: Seq<SiteEntryMeta>) -> Seq<char> {
    "  {\"key\":"@ + json_str_spec(n.0) + ",\"path\":["@ + comma_join(n.1.map_values(|p: Seq<char>| json_str_spec(p)))
        + "],\"children\":["@ + comma_join(n.3.map_values(|c: Seq<char>| json_str_spec(c))) + "],\"pages\":["@
        + comma_join(n.2.map_values(|m: usize| decimal(metas[m as int].id as nat))) + "]}"@
}

/// Appends the JSON strings of a list, joined with commas.
fn push_json_list(s: &mut String, v: &Vec<String>)
    ensures
        final(s)@ == old(s)@ + comma_join(strs_view(v@).map_values(|p: Seq<char>| json_str_spec(p))),
{
    let ghost parts = strs_view(v@).map_values(|p: Seq<char>| json_str_spec(p));
    let ghost h = s@;
    let mut i: usize = 0;
    assert(parts.take(0) =~= Seq::<Seq<char>>::empty());
    while i < v.len()
        invariant
            i <= v@.len(),
            parts == strs_view(v@).map_values(|p: Seq<char>| json_str_spec(p)),
            s@ == h + comma_join(parts.take(i as int)),
        decreases v@.len() - i,
    {
        if i > 0 {
            push_str(s, ",");
            proof { reveal_strlit(","); }
        }
        push_str(s, json_str(v[i].as_str()).as_str());
        proof {
            assert(parts[i as int] == json_str_spec(v@[i as int]@));
            lemma_comma_join_push(parts, i as int);
        }
        assert(s@ =~= h + comma_join(parts.take(i + 1)));
        i += 1;
    }
    assert(parts.take(i as int) =~= parts);
}

/// Appends the ids of the given entries, joined with commas.
fn push_page_ids(s: &mut String, pages: &Vec<usize>, metas: &Vec<SiteEntryMeta>)
    requires
        forall|j: int| 0 <= j < pages@.len() ==> (#[trigger] pages@[j]) < metas@.len(),
    ensures
        final(s)@ == old(s)@ + comma_join(pages@.map_values(|m: usize| decimal(metas@[m as int].id as nat))),
{
    let ghost parts = pages@.map_values(|m: usize| decimal(metas@[m as int].id as nat));
    let ghost h = s@;
    let mut i: usize = 0;
    assert(parts.take(0) =~= Seq::<Seq<char>>::empty());
    while i < pages.len()
        invariant
            i <= pages@.len(),
            forall|j: int| 0 <= j < pages@.len() ==> (#[trigger] pages@[j]) < metas@.len(),
            parts == pages@.map_values(|m: usize| decimal(metas@[m as int].id as nat)),
            s@ == h + comma_join(parts.take(i as int)),
        decreases pages@.len() - i,
    {
        if i > 0 {
            push_str(s, ",");
            proof { reveal_strlit(","); }
        }
        push_decimal(s, metas[pages[i]].id);
        proof {
            lemma_comma_join_push(parts, i as int);
        }
        assert(s@ =~= h + comma_join(parts.take(i + 1)));
        i += 1;
    }
    assert(parts.take(i as int) =~= parts);
}

/// Whether every page of every node is a position in `metas`.
pub(crate) proof fn lemma_sorted_pages_below(v: Seq<usize>, sk: Seq<Seq<char>>, n: int)
    requires
        forall|j: int| 0 <= j < v.len() ==> (#[trigger] v[j]) < n,
    ensures
        forall|j: int| 0 <= j < sort_pages(v, sk).len() ==> (#[trigger] sort_pages(v, sk)[j]) < n,
        sort_pages(v, sk).len() == v.len(),
    decreases v.len(),
{
    if v.len() > 0 {
        lemma_sorted_pages_below(v.drop_last(), sk, n);
        lemma_insert_page_below(sort_pages(v.drop_last(), sk), v.last(), sk, n);
    }
}

proof fn lemma_insert_page_below(s: Seq<usize>, x: usize, sk: Seq<Seq<char>>, n: int)
    requires
        forall|j: int| 0 <= j < s.len() ==> (#[trigger] s[j]) < n,
        x < n,
    ensures
        forall|j: int| 0 <= j < insert_page(s, x, sk).len() ==> (#[trigger] insert_page(s, x, sk)[j]) < n,
        insert_page(s, x, sk).len() == s.len() + 1,
    decreases s.len(),
{
    if s.len() > 0 && !seq_lt(sk[x as int], sk[s[0] as int]) {
        assert forall|j: int| 0 <= j < s.skip(1).len() implies (#[trigger] s.skip(1)[j]) < n by {
            assert(s.skip(1)[j] == s[j + 1]);
        }
        lemma_insert_page_below(s.skip(1), x, sk, n);
        let r = insert_page(s, x, sk);
        assert forall|j: int| 0 <= j < r.len() implies (#[trigger] r[j]) < n by {
            if j > 0 {
                assert(r[j] == insert_page(s.skip(1), x, sk)[j - 1]);
            }
        }
    }
}

fn push_node_json(s: &mut String, node: &CategoryNode, metas: &Vec<SiteEntryMeta>)
    requires
        forall|j: int| 0 <= j < node.pages@.len() ==> (#[trigger] node.pages@[j]) < metas@.len(),
    ensures
        final(s)@ == old(s)@ + node_json(node_v(*node), metas@),
{
    push_str(s, "  {\"key\":");
    push_str(s, json_str(node.key.as_str()).as_str());
    push_str(s, ",\"path\":[");
    push_json_list(s, &node.path);
    push_str(s, "],\"children\":[");
    push_json_list(s, &node.children);
    push_str(s, "],\"pages\":[");
    push_page_ids(s, &node.pages, metas);
    push_str(s, "]}");
}

/// `categories.json`: every node of the category tree with its key, path,
/// sub-category keys and the ids of the entries filed under it.
pub fn categories_json(metas: &Vec<SiteEntryMeta>, folded: &Vec<Vec<Vec<String>>>, skeletons: &Vec<String>) -> (r: String)
    requires
        folds_match(metas@, folded@),
        skeletons@.len() == metas@.len(),
    ensures
        r@ == "[\n"@ + join_spec(
            sorted_tree(tree_upto(metas@, fold_lists(folded@), metas@.len() as int), strs_view(skeletons@)).map_values(
                |n: (Seq<char>, Seq<Seq<char>>, Seq<usize>, Seq<Seq<char>>)| node_json(n, metas@),
            ),
            ",\n"@,
        ) + "\n]\n"@,
{
    let tree = build_category_tree(metas, folded, skeletons);
    let ghost t0 = tree_upto(metas@, fold_lists(folded@), metas@.len() as int);
    proof {
        lemma_tree_pages(metas@, fold_lists(folded@), metas@.len() as int, metas@.len() as int);
    }
    let ghost tv = tree_v(tree@);
    let ghost parts = tv.map_values(|n: (Seq<char>, Seq<Seq<char>>, Seq<usize>, Seq<Seq<char>>)| node_json(n, metas@));
    let mut s = crate::strs::string_from("[\n");
    let ghost h = s@;
    let mut i: usize = 0;
    assert(parts.take(0) =~= Seq::<Seq<char>>::empty());
    while i < tree.len()
        invariant
            i <= tree@.len(),
            tv == tree_v(tree@),
            tv == sorted_tree(t0, strs_view(skeletons@)),
            pages_below(t0, metas@.len() as int),
            parts == tv.map_values(|n: (Seq<char>, Seq<Seq<char>>, Seq<usize>, Seq<Seq<char>>)| node_json(n, metas@)),
            s@ == h + join_spec(parts.take(i as int), ",\n"@),
        decreases tree@.len() - i,
    {
        if i > 0 {
            push_str(&mut s, ",\n");
        }
        let node = &tree[i];
        assert(tv[i as int] == node_v(*node));
        proof {
            assert forall|j: int| 0 <= j < t0[i as int].2.len() implies (#[trigger] t0[i as int].2[j]) < metas@.len() by {}
            lemma_sorted_pages_below(t0[i as int].2, strs_view(skeletons@), metas@.len() as int);
        }
        push_node_json(&mut s, node, metas);
        assert(parts.take(i + 1).drop_last() =~= parts.take(i as int));
        assert(s@ =~= h + join_spec(parts.take(i + 1), ",\n"@));
        i += 1;
    }
    assert(parts.take(i as int) =~= parts);
    push_str(&mut s, "\n]\n");
    s
}

/// Whether every sub-category key is longer than its node's key.
pub open spec fn children_longer(t: Seq<(Seq<char>, Seq<Seq<char>>, Seq<usize>, Seq<Seq<char>>)>) -> bool {
    forall|i: int, j: int| 0 <= i < t.len() && 0 <= j < t[i].3.len() ==> (#[trigger] t[i].3[j]).len() > t[i].0.len()
}

/// A longer prefix has a longer key.
proof fn lemma_prefix_key_longer(folded: Seq<Seq<char>>, i: int)
    requires
        2 <= i <= folded.len(),
    ensures
        prefix_key(folded, i).len() > prefix_key(folded, i - 1).len(),
{
    let a = folded.take(i).map_values(|p: Seq<char>| slug_spec(p));
    let b = folded.take(i - 1).map_values(|p: Seq<char>| slug_spec(p));
    assert(a.drop_last() =~= b);
}

proof fn lemma_upsert_longer(t: Seq<(Seq<char>, Seq<Seq<char>>, Seq<usize>, Seq<Seq<char>>)>, key: Seq<char>, path: Seq<Seq<char>>)
    requires
        children_longer(t),
    ensures
        children_longer(upsert(t, key, path)),
{
    if node_at(t, key) is None {
        let p = key_pos(node_keys(t), key);
        lemma_key_pos_bound(node_keys(t), key);
        let t1 = upsert(t, key, path);
        assert forall|i: int, j: int| 0 <= i < t1.len() && 0 <= j < t1[i].3.len() implies (#[trigger] t1[i].3[j]).len() > t1[i].0.len() by {
            if i < p {
                assert(t1[i] == t[i]);
            } else if i > p {
                assert(t1[i] == t[i - 1]);
            }
        }
    }
}

proof fn lemma_set_insert_members(s: Seq<Seq<char>>, x: Seq<char>)
    ensures
        forall|j: int| 0 <= j < set_insert(s, x).len() ==> #[trigger] set_insert(s, x)[j] == x || s.contains(set_insert(s, x)[j]),
{
    if !s.contains(x) {
        let p = key_pos(s, x);
        lemma_key_pos_bound(s, x);
        let r = set_insert(s, x);
        assert forall|j: int| 0 <= j < r.len() implies #[trigger] r[j] == x || s.contains(r[j]) by {
            if j < p {
                assert(r[j] == s[j]);
            } else if j > p {
                assert(r[j] == s[j - 1]);
            }
        }
    }
}

proof fn lemma_add_child_longer(t: Seq<(Seq<char>, Seq<Seq<char>>, Seq<usize>, Seq<Seq<char>>)>, parent: Seq<char>, child: Seq<char>)
    requires
        children_longer(t),
        child.len() > parent.len(),
    ensures
        children_longer(add_child(t, parent, child)),
{
    lemma_upsert_longer(t, parent, Seq::empty());
    let t1 = upsert(t, parent, Seq::empty());
    lemma_upsert_has(t, parent, Seq::empty());
    lemma_node_at_sound(t1, parent);
    let k = node_at(t1, parent).unwrap();
    lemma_set_insert_members(t1[k].3, child);
    let t2 = add_child(t, parent, child);
    assert forall|i: int, j: int| 0 <= i < t2.len() && 0 <= j < t2[i].3.len() implies (#[trigger] t2[i].3[j]).len() > t2[i].0.len() by {
        if i == k {
            let c = t2[i].3[j];
            if c != child {
                let q = choose|q: int| 0 <= q < t1[k].3.len() && t1[k].3[q] == c;
                assert(t1[k].3[q].len() > t1[k].0.len());
            }
        } else {
            assert(t2[i] == t1[i]);
        }
    }
}

proof fn lemma_add_page_longer(t: Seq<(Seq<char>, Seq<Seq<char>>, Seq<usize>, Seq<Seq<char>>)>, key: Seq<char>, m: usize)
    requires
        children_longer(t),
    ensures
        children_longer(add_page(t, key, m)),
{
    lemma_node_at_sound(t, key);
    let t2 = add_page(t, key, m);
    assert forall|i: int, j: int| 0 <= i < t2.len() && 0 <= j < t2[i].3.len() implies (#[trigger] t2[i].3[j]).len() > t2[i].0.len() by {
        assert(t2[i].3 == t[i].3 && t2[i].0 == t[i].0);
    }
}

proof fn lemma_prefixes_longer(t: Seq<(Seq<char>, Seq<Seq<char>>, Seq<usize>, Seq<Seq<char>>)>, raw: Seq<Seq<char>>, folded: Seq<Seq<char>>, i: int)
    requires
        children_longer(t),
        i <= folded.len(),
    ensures
        children_longer(add_prefixes(t, raw, folded, i)),
    decreases i,
{
    if i > 0 {
        lemma_prefixes_longer(t, raw, folded, i - 1);
        let t0 = add_prefixes(t, raw, folded, i - 1);
        lemma_upsert_longer(t0, prefix_key(folded, i), raw.take(i));
        if i > 1 {
            lemma_prefix_key_longer(folded, i);
            lemma_add_child_longer(upsert(t0, prefix_key(folded, i), raw.take(i)), prefix_key(folded, i - 1), prefix_key(folded, i));
        }
    }
}

proof fn lemma_paths_longer(t: Seq<(Seq<char>, Seq<Seq<char>>, Seq<usize>, Seq<Seq<char>>)>, m: usize, raws: Seq<Seq<Seq<char>>>, folds: Seq<Seq<Seq<char>>>, k: int)
    requires
        children_longer(t),
        0 <= k <= raws.len(),
        raws.len() == folds.len(),
        forall|p: int| 0 <= p < raws.len() ==> (#[trigger] raws[p]).len() == folds[p].len(),
    ensures
        children_longer(add_paths(t, m, raws, folds, k)),
    decreases k,
{
    if k > 0 {
        lemma_paths_longer(t, m, raws, folds, k - 1);
        let t0 = add_paths(t, m, raws, folds, k - 1);
        let n = raws[k - 1].len() as int;
        lemma_prefixes_longer(t0, raws[k - 1], folds[k - 1], n);
        lemma_add_page_longer(add_prefixes(t0, raws[k - 1], folds[k - 1], n), prefix_key(folds[k - 1], n), m);
    }
}

/// In the category tree every sub-category's key is longer than its
/// parent's: descending through sub-categories always ends.
pub proof fn lemma_category_tree_descends(metas: Seq<SiteEntryMeta>, folded: Seq<Vec<Vec<String>>>, n: int)
    requires
        0 <= n <= metas.len(),
        folds_match(metas, folded),
    ensures
        children_longer(tree_upto(metas, fold_lists(folded), n)),
    decreases n,
{
    if n > 0 {
        lemma_category_tree_descends(metas, folded, n - 1);
        let fl = fold_lists(folded);
        let raws = metas[n - 1].categories@.map_values(|p: Vec<String>| strs_view(p@));
        assert forall|p: int| 0 <= p < raws.len() implies (#[trigger] raws[p]).len() == fl[n - 1][p].len() by {
            assert(folded[n - 1]@[p]@.len() == metas[n - 1].categories@[p]@.len());
        }
        lemma_paths_longer(tree_upto(metas, fl, n - 1), (n - 1) as usize, raws, fl[n - 1], raws.len() as int);
    }
}

/// The ids of the entries at the given positions.
pub open spec fn page_ids(pages: Seq<usize>, metas: Seq<SiteEntryMeta>) -> Set<usize> {
    pages.map_values(|pg: usize| metas[pg as int].id).to_set()
}

/// The ids of the entries filed under `key` or, descending at most
/// `fuel - 1` levels, under its sub-categories.
pub open spec fn reach(
    t: Seq<(Seq<char>, Seq<Seq<char>>, Seq<usize>, Seq<Seq<char>>)>,
    metas: Seq<SiteEntryMeta>,
    key: Seq<char>,
    fuel: nat,
) -> Set<usize>
    decreases fuel, 0nat,
{
    if fuel == 0 {
        Set::empty()
    } else {
        match node_at(t, key) {
            None => Set::empty(),
            Some(i) => page_ids(t[i].2, metas).union(reach_list(t, metas, t[i].3, (fuel - 1) as nat)),
        }
    }
}

/// The ids that `reach` gives for each of `cs`, together.
pub open spec fn reach_list(
    t: Seq<(Seq<char>, Seq<Seq<char>>, Seq<usize>, Seq<Seq<char>>)>,
    metas: Seq<SiteEntryMeta>,
    cs: Seq<Seq<char>>,
    fuel: nat,
) -> Set<usize>
    decreases fuel, cs.len() + 1,
{
    if cs.len() == 0 {
        Set::empty()
    } else {
        reach_list(t, metas, cs.drop_last(), fuel).union(reach(t, metas, cs.last(), fuel))
    }
}

/// The length of the longest key of the tree.
pub open spec fn max_key_len(t: Seq<(Seq<char>, Seq<Seq<char>>, Seq<usize>, Seq<Seq<char>>)>) -> nat
    decreases t.len(),
{
    if t.len() == 0 {
        0
    } else {
        let m = max_key_len(t.drop_last());
        if t.last().0.len() > m { t.last().0.len() } else { m }
    }
}

proof fn lemma_max_key_len(t: Seq<(Seq<char>, Seq<Seq<char>>, Seq<usize>, Seq<Seq<char>>)>)
    ensures
        forall|i: int| 0 <= i < t.len() ==> (#[trigger] t[i]).0.len() <= max_key_len(t),
    decreases t.len(),
{
    if t.len() > 0 {
        lemma_max_key_len(t.drop_last());
        assert forall|i: int| 0 <= i < t.len() implies (#[trigger] t[i]).0.len() <= max_key_len(t) by {
            if i < t.len() - 1 {
                assert(t[i] == t.drop_last()[i]);
            }
        }
    }
}

proof fn lemma_reach_list_congr(
    t: Seq<(Seq<char>, Seq<Seq<char>>, Seq<usize>, Seq<Seq<char>>)>,
    metas: Seq<SiteEntryMeta>,
    cs: Seq<Seq<char>>,
    f: nat,
)
    requires
        forall|j: int| 0 <= j < cs.len() ==> reach(t, metas, #[trigger] cs[j], f) == reach(t, metas, cs[j], f + 1),
    ensures
        reach_list(t, metas, cs, f) == reach_list(t, metas, cs, f + 1),
    decreases cs.len(),
{
    if cs.len() > 0 {
        assert forall|j: int| 0 <= j < cs.drop_last().len() implies reach(t, metas, #[trigger] cs.drop_last()[j], f) == reach(t, metas, cs.drop_last()[j], f + 1) by {
            assert(cs.drop_last()[j] == cs[j]);
        }
        lemma_reach_list_congr(t, metas, cs.drop_last(), f);
        assert(reach(t, metas, cs[cs.len() - 1], f) == reach(t, metas, cs[cs.len() - 1], f + 1));
    }
}

/// Once the fuel covers the longest key, more fuel changes nothing: in a
/// tree whose sub-category keys grow, `reach` is the whole subtree.
pub proof fn lemma_reach_stable(
    t: Seq<(Seq<char>, Seq<Seq<char>>, Seq<usize>, Seq<Seq<char>>)>,
    metas: Seq<SiteEntryMeta>,
    key: Seq<char>,
    f: nat,
)
    requires
        children_longer(t),
        f + key.len() >= max_key_len(t) + 1,
    ensures
        reach(t, metas, key, f) == reach(t, metas, key, f + 1),
    decreases max_key_len(t) + 1 - key.len(),
{
    lemma_max_key_len(t);
    lemma_node_at_sound(t, key);
    if f == 0 {
        if node_at(t, key) is Some {
            let i = node_at(t, key).unwrap();
            assert(t[i].0.len() <= max_key_len(t));
        }
    } else {
        match node_at(t, key) {
            None => {},
            Some(i) => {
                let cs = t[i].3;
                assert forall|j: int| 0 <= j < cs.len() implies reach(t, metas, #[trigger] cs[j], (f - 1) as nat) == reach(t, metas, cs[j], f as nat) by {
                    assert(cs[j].len() > t[i].0.len());
                    assert(t[i].0.len() <= max_key_len(t));
                    if cs[j].len() <= max_key_len(t) {
                        lemma_reach_stable(t, metas, cs[j], (f - 1) as nat);
                    } else {
                        lemma_node_at_sound(t, cs[j]);
                        if node_at(t, cs[j]) is Some {
                            let q = node_at(t, cs[j]).unwrap();
                            assert(t[q].0.len() <= max_key_len(t));
                        }
                    }
                }
                lemma_reach_list_congr(t, metas, cs, (f - 1) as nat);
            }
        }
    }
}

/// Adds `x` to a list of distinct ids.
fn add_id(ids: &mut Vec<usize>, x: usize)
    requires
        old(ids)@.no_duplicates(),
    ensures
        final(ids)@.no_duplicates(),
        final(ids)@.to_set() == old(ids)@.to_set().insert(x),
{
    let mut k: usize = 0;
    while k < ids.len()
        invariant
            k <= ids@.len(),
            ids@ == old(ids)@,
            ids@.no_duplicates(),
            forall|q: int| 0 <= q < k ==> ids@[q] != x,
        decreases ids@.len() - k,
    {
        if ids[k] == x {
            assert(ids@.to_set() =~= ids@.to_set().insert(x)) by {
                assert(ids@.to_set().contains(x)) by {
                    assert(ids@[k as int] == x);
                }
            }
            return;
        }
        k += 1;
    }
    let ghost before = ids@;
    ids.push(x);
    assert(ids@.to_set() =~= before.to_set().insert(x)) by {
        assert forall|y: usize| ids@.to_set().contains(y) <==> before.to_set().insert(x).contains(y) by {
            if ids@.to_set().contains(y) {
                let q = choose|q: int| 0 <= q < ids@.len() && ids@[q] == y;
                if q < before.len() {
                    assert(before[q] == y);
                }
            }
            if before.to_set().contains(y) {
                let q = choose|q: int| 0 <= q < before.len() && before[q] == y;
                assert(ids@[q] == y);
            }
            if y == x {
                assert(ids@[before.len() as int] == x);
            }
        }
    }
}

/// Whether every page filed in the tree is a position in `metas`.
pub open spec fn pages_in(t: Seq<(Seq<char>, Seq<Seq<char>>, Seq<usize>, Seq<Seq<char>>)>, n: nat) -> bool {
    pages_below(t, n as int)
}

/// Adds the ids of the entries under `key` and its sub-categories,
/// descending at most `fuel - 1` levels.
fn collect_ids(t: &Vec<CategoryNode>, metas: &Vec<SiteEntryMeta>, key: &str, fuel: usize, ids: &mut Vec<usize>)
    requires
        old(ids)@.no_duplicates(),
        pages_in(tree_v(t@), metas@.len()),
    ensures
        final(ids)@.no_duplicates(),
        final(ids)@.to_set() == old(ids)@.to_set().union(reach(tree_v(t@), metas@, key@, fuel as nat)),
    decreases fuel,
{
    let ghost tv = tree_v(t@);
    let ghost s0 = ids@.to_set();
    if fuel == 0 {
        assert(s0.union(Set::<usize>::empty()) =~= s0);
        return;
    }
    match find_node(t, key) {
        None => {
            assert(s0.union(Set::<usize>::empty()) =~= s0);
        },
        Some(i) => {
            let node = &t[i];
            assert(tv[i as int] == node_v(*node));
            let ghost pv = node.pages@;
            let mut j: usize = 0;
            while j < node.pages.len()
                invariant
                    j <= node.pages@.len(),
                    pv == node.pages@,
                    tv == tree_v(t@),
                    tv[i as int].2 == pv,
                    i < t@.len(),
                    pages_in(tv, metas@.len()),
                    ids@.no_duplicates(),
                    ids@.to_set() == s0.union(page_ids(pv.take(j as int), metas@)),
                decreases node.pages@.len() - j,
            {
                let pg = node.pages[j];
                assert(pv[j as int] == tv[i as int].2[j as int]);
                add_id(ids, metas[pg].id);
                assert(pv.take(j + 1).map_values(|p: usize| metas@[p as int].id) =~= pv.take(j as int).map_values(|p: usize| metas@[p as int].id).push(metas@[pg as int].id));
                assert(ids@.to_set() =~= s0.union(page_ids(pv.take(j + 1), metas@))) by {
                    let a = pv.take(j as int).map_values(|p: usize| metas@[p as int].id);
                    let b = pv.take(j + 1).map_values(|p: usize| metas@[p as int].id);
                    assert forall|y: usize| b.to_set().contains(y) <==> a.to_set().insert(metas@[pg as int].id).contains(y) by {
                        if b.to_set().contains(y) {
                            let q = choose|q: int| 0 <= q < b.len() && b[q] == y;
                            if q < a.len() {
                                assert(a[q] == y);
                            }
                        }
                        if a.to_set().contains(y) {
                            let q = choose|q: int| 0 <= q < a.len() && a[q] == y;
                            assert(b[q] == y);
                        }
                        if y == metas@[pg as int].id {
                            assert(b[j as int] == y);
                        }
                    }
                    assert(b.to_set() =~= a.to_set().insert(metas@[pg as int].id));
                }
                j += 1;
            }
            assert(pv.take(j as int) =~= pv);
            let ghost s1 = ids@.to_set();
            let ghost cv = tv[i as int].3;
            let mut c: usize = 0;
            while c < node.children.len()
                invariant
                    c <= node.children@.len(),
                    tv == tree_v(t@),
                    i < t@.len(),
                    cv == strs_view(node.children@),
                    fuel > 0,
                    pages_in(tv, metas@.len()),
                    ids@.no_duplicates(),
                    ids@.to_set() == s1.union(reach_list(tv, metas@, cv.take(c as int), (fuel - 1) as nat)),
                decreases node.children@.len() - c,
            {
                let ghost before = ids@.to_set();
                collect_ids(t, metas, node.children[c].as_str(), fuel - 1, ids);
                assert(cv[c as int] == node.children@[c as int]@);
                assert(cv.take(c + 1).drop_last() =~= cv.take(c as int));
                assert(ids@.to_set() =~= s1.union(reach_list(tv, metas@, cv.take(c + 1), (fuel - 1) as nat)));
                c += 1;
            }
            assert(cv.take(c as int) =~= cv);
            assert(ids@.to_set() =~= s0.union(reach(tv, metas@, key@, fuel as nat)));
        },
    }
}

/// The length of the longest key of a tree.
fn max_key_len_exec(t: &Vec<CategoryNode>) -> (r: usize)
    ensures
        r == max_key_len(tree_v(t@)),
{
    let ghost tv = tree_v(t@);
    let mut m: usize = 0;
    let mut i: usize = 0;
    assert(tv.take(0) =~= Seq::<(Seq<char>, Seq<Seq<char>>, Seq<usize>, Seq<Seq<char>>)>::empty());
    while i < t.len()
        invariant
            i <= t@.len(),
            tv == tree_v(t@),
            m == max_key_len(tv.take(i as int)),
        decreases t@.len() - i,
    {
        let n = crate::search::char_len(t[i].key.as_str());
        assert(tv.take(i + 1).drop_last() =~= tv.take(i as int));
        assert(tv.take(i + 1).last().0 == t@[i as int].key@);
        if n > m {
            m = n;
        }
        i += 1;
    }
    assert(tv.take(i as int) =~= tv);
    m
}

/// How many distinct entries a category holds, its sub-categories
/// included.
pub fn category_descendant_page_count(t: &Vec<CategoryNode>, metas: &Vec<SiteEntryMeta>, key: &str) -> (r: usize)
    requires
        pages_in(tree_v(t@), metas@.len()),
        max_key_len(tree_v(t@)) < usize::MAX,
    ensures
        r == reach(tree_v(t@), metas@, key@, max_key_len(tree_v(t@)) + 1).len(),
{
    let fuel = max_key_len_exec(t) + 1;
    let mut ids: Vec<usize> = Vec::new();
    assert(ids@.to_set() =~= Set::<usize>::empty());
    collect_ids(t, metas, key, fuel, &mut ids);
    assert(Set::<usize>::empty().union(reach(tree_v(t@), metas@, key@, fuel as nat)) =~= reach(tree_v(t@), metas@, key@, fuel as nat));
    proof {
        ids@.unique_seq_to_set();
    }
    ids.len()
}

/// The key of a node's parent category: the key up to its last `__`.
pub open spec fn parent_key_spec(key: Seq<char>) -> Seq<char> {
    match last_index(key, '_') {
        Some(j) => if j >= 1 { key.take(j - 1) } else { key },
        None => key,
    }
}

proof fn lemma_slug_scan_chars(s: Seq<char>)
    ensures
        forall|k: int| 0 <= k < slug_scan(s).0.len() ==> (#[trigger] slug_scan(s).0[k]) != '_',
    decreases s.len(),
{
    if s.len() > 0 {
        lemma_slug_scan_chars(s.drop_last());
        let (o, dash) = slug_scan(s.drop_last());
        let c = s.last();
        let r = slug_scan(s).0;
        assert forall|k: int| 0 <= k < r.len() implies (#[trigger] r[k]) != '_' by {
            if k < o.len() {
                if ascii_alnum(c) {
                    assert(r == o.push(c));
                } else if !dash && o.len() > 0 {
                    assert(r == o.push('-'));
                } else {
                    assert(r == o);
                }
                assert(r[k] == o[k]);
            } else {
                if ascii_alnum(c) {
                    assert(r[k] == c);
                } else {
                    assert(r[k] == '-');
                }
            }
        }
    }
}

proof fn lemma_strip_dashes_chars(s: Seq<char>)
    requires
        forall|k: int| 0 <= k < s.len() ==> (#[trigger] s[k]) != '_',
    ensures
        forall|k: int| 0 <= k < strip_trailing_dashes(s).len() ==> (#[trigger] strip_trailing_dashes(s)[k]) != '_',
        strip_trailing_dashes(s).len() <= s.len(),
    decreases s.len(),
{
    if s.len() > 0 && s.last() == '-' {
        assert forall|k: int| 0 <= k < s.drop_last().len() implies (#[trigger] s.drop_last()[k]) != '_' by {
            assert(s.drop_last()[k] == s[k]);
        }
        lemma_strip_dashes_chars(s.drop_last());
    }
}

/// A slug has no underscore.
proof fn lemma_slug_no_underscore(folded: Seq<char>)
    ensures
        forall|k: int| 0 <= k < slug_spec(folded).len() ==> (#[trigger] slug_spec(folded)[k]) != '_',
{
    lemma_slug_scan_chars(folded);
    lemma_strip_dashes_chars(slug_scan(folded).0);
}

/// The parent key of a path prefix's key is the key of the prefix one part
/// shorter: cutting a category key at its last `__` walks up the tree.
pub proof fn lemma_parent_key(folded: Seq<Seq<char>>, i: int)
    requires
        2 <= i <= folded.len(),
    ensures
        parent_key_spec(prefix_key(folded, i)) == prefix_key(folded, i - 1),
{
    reveal_strlit("__");
    let a = folded.take(i).map_values(|p: Seq<char>| slug_spec(p));
    let b = folded.take(i - 1).map_values(|p: Seq<char>| slug_spec(p));
    assert(a.drop_last() =~= b);
    let head = prefix_key(folded, i - 1);
    let tail = slug_spec(folded[i - 1]);
    assert(a.last() == tail);
    let key = prefix_key(folded, i);
    assert(key == head + "__"@ + tail);
    lemma_slug_no_underscore(folded[i - 1]);
    let j: int = head.len() as int + 1;
    assert(key[j] == '_') by {
        reveal_strlit("__");
    }
    assert forall|k: int| j + 1 <= k < key.len() implies key[k] != '_' by {
        reveal_strlit("__");
        assert(key[k] == tail[k - j - 1]);
    }
    lemma_last_index_at(key, '_', j);
    assert(key.take(j - 1) =~= head) by {
        reveal_strlit("__");
    }
}

proof fn lemma_last_index_at(s: Seq<char>, c: char, j: int)
    requires
        0 <= j < s.len(),
        s[j] == c,
        forall|k: int| j + 1 <= k < s.len() ==> s[k] != c,
    ensures
        last_index(s, c) == Some(j as nat),
    decreases s.len() - j,
{
    if j + 1 < s.len() {
        assert forall|k: int| j + 1 <= k < s.drop_last().len() implies s.drop_last()[k] != c by {
            assert(s.drop_last()[k] == s[k]);
        }
        lemma_last_index_at(s.drop_last(), c, j);
    }
}

/// The entries at the given positions.
pub open spec fn metas_at(metas: Seq<SiteEntryMeta>, pages: Seq<usize>) -> Seq<SiteEntryMeta> {
    pages.map_values(|pg: usize| metas[pg as int])
}

/// The word table of the entries at the given positions.
pub(crate) fn render_word_table_at(metas: &Vec<SiteEntryMeta>, pages: &Vec<usize>, up: &str) -> (r: String)
    requires
        forall|j: int| 0 <= j < pages@.len() ==> (#[trigger] pages@[j]) < metas@.len(),
    ensures
        r@ == word_table_spec(metas_at(metas@, pages@), up@),
{
    let ghost rows = metas_at(metas@, pages@);
    let shown: usize = if pages.len() <= 1200 { pages.len() } else { 1200 };
    let mut s = crate::strs::string_from(
        "<table class='wikitable word-index'><thead><tr><th>Slovo</th><th>Čęst</th><th>Smysl</th><th>Kvaliteta</th><th>Dokaz</th></tr></thead><tbody>",
    );
    let ghost h = s@;
    let ghost f = |m: SiteEntryMeta| word_row_spec(m, up@);
    let mut i: usize = 0;
    while i < shown
        invariant
            i <= shown <= pages@.len(),
            rows == metas_at(metas@, pages@),
            forall|j: int| 0 <= j < pages@.len() ==> (#[trigger] pages@[j]) < metas@.len(),
            f == (|m: SiteEntryMeta| word_row_spec(m, up@)),
            s@ == h + rows.take(i as int).map_values(f).flatten(),
        decreases shown - i,
    {
        crate::site_meta::push_word_row(&mut s, &metas[pages[i]], up);
        proof {
            assert(rows[i as int] == metas@[pages@[i as int] as int]);
            crate::strs::lemma_flat_map_step(rows, i as int, f);
        }
        i += 1;
    }
    push_str(&mut s, "</tbody></table>");
    if pages.len() > shown {
        push_str(&mut s, "<p class='muted'>Pokazano prvih ");
        push_str(&mut s, compact(shown).as_str());
        push_str(&mut s, " od ");
        push_str(&mut s, compact(pages.len()).as_str());
        push_str(&mut s, " zapisov; koristi iskanje za polny spis.</p>");
    }
    s
}

/// The descendant count the category pages show.
pub open spec fn descendant_count(
    t: Seq<(Seq<char>, Seq<Seq<char>>, Seq<usize>, Seq<Seq<char>>)>,
    metas: Seq<SiteEntryMeta>,
    key: Seq<char>,
) -> nat {
    reach(t, metas, key, max_key_len(t) + 1).len()
}

/// One sub-category line of a category page.
pub open spec fn sub_item(
    t: Seq<(Seq<char>, Seq<Seq<char>>, Seq<usize>, Seq<Seq<char>>)>,
    metas: Seq<SiteEntryMeta>,
    child: Seq<char>,
) -> Seq<char> {
    match node_at(t, child) {
        Some(ci) => {
            let label = if t[ci].1.len() > 0 { t[ci].1.last() } else { child };
            "<li><a href='"@ + esc_spec(child) + ".html'>"@ + esc_spec(label) + "</a> <span class='muted'>("@
                + compact_spec(descendant_count(t, metas, child)) + ")</span></li>"@
        },
        None => Seq::empty(),
    }
}

/// The body of the page of node `i`.
pub open spec fn category_body_spec(
    t: Seq<(Seq<char>, Seq<Seq<char>>, Seq<usize>, Seq<Seq<char>>)>,
    metas: Seq<SiteEntryMeta>,
    i: int,
) -> Seq<char> {
    let n = t[i];
    let subcats = n.3.map_values(|c: Seq<char>| sub_item(t, metas, c)).flatten();
    let title = "Kategorija: "@ + join_spec(n.1, " » "@);
    "<article class='entry'><h1 class='firstHeading'>"@ + esc_spec(title) + "</h1>"@
        + (if n.1.len() > 1 {
            "<p><a href='"@ + parent_key_spec(n.0) + ".html'>← vyšša kategorija</a></p>"@
        } else {
            "<p><a href='../categories.html'>← vse kategorije</a></p>"@
        })
        + (if subcats.len() == 0 {
            Seq::empty()
        } else {
            "<h2 id='podkategorije'>Podkategorije</h2><ul class='compact-list category-list'>"@ + subcats + "</ul>"@
        })
        + "<h2 id='strany'>Strany v kategoriji</h2>"@
        + (if n.2.len() == 0 {
            if n.3.len() == 0 { Seq::empty() } else { "<p class='muted'>Izberi podkategoriju vyše.</p>"@ }
        } else {
            word_table_spec(metas_at(metas, n.2), "../"@)
        })
        + "</article>"@
}

/// The sub-category lines of a node.
fn sub_items(t: &Vec<CategoryNode>, metas: &Vec<SiteEntryMeta>, children: &Vec<String>) -> (r: String)
    requires
        pages_in(tree_v(t@), metas@.len()),
        max_key_len(tree_v(t@)) < usize::MAX,
    ensures
        r@ == strs_view(children@).map_values(|c: Seq<char>| sub_item(tree_v(t@), metas@, c)).flatten(),
{
    let ghost tv = tree_v(t@);
    let ghost cv = strs_view(children@);
    let ghost f = |c: Seq<char>| sub_item(tv, metas@, c);
    let mut s = String::new();
    let mut j: usize = 0;
    while j < children.len()
        invariant
            j <= children@.len(),
            tv == tree_v(t@),
            cv == strs_view(children@),
            pages_in(tv, metas@.len()),
            max_key_len(tv) < usize::MAX,
            f == (|c: Seq<char>| sub_item(tv, metas@, c)),
            s@ == cv.take(j as int).map_values(f).flatten(),
        decreases children@.len() - j,
    {
        let child = children[j].as_str();
        assert(cv[j as int] == child@);
        match find_node(t, child) {
            Some(ci) => {
                let count = category_descendant_page_count(t, metas, child);
                let node = &t[ci];
                assert(tv[ci as int] == node_v(*node));
                let label = if node.path.len() > 0 { node.path[node.path.len() - 1].as_str() } else { child };
                assert(label@ == (if tv[ci as int].1.len() > 0 { tv[ci as int].1.last() } else { child@ }));
                push_str(&mut s, "<li><a href='");
                push_str(&mut s, esc(child).as_str());
                push_str(&mut s, ".html'>");
                push_str(&mut s, esc(label).as_str());
                push_str(&mut s, "</a> <span class='muted'>(");
                push_str(&mut s, compact(count).as_str());
                push_str(&mut s, ")</span></li>");
            },
            None => {},
        }
        proof {
            crate::strs::lemma_flat_map_step(cv, j as int, f);
        }
        j += 1;
    }
    assert(cv.take(j as int) =~= cv);
    s
}

/// The parent key of a category key.
fn parent_key(key: &str) -> (r: String)
    ensures
        r@ == parent_key_spec(key@),
{
    let v = chars_of(key);
    match crate::split::rfind_char(&v, '_') {
        Some(j) => {
            if j >= 1 {
                crate::strs::string_of_range(&v, 0, j - 1)
            } else {
                crate::strs::string_from(key)
            }
        },
        None => crate::strs::string_from(key),
    }
}

/// The page of the category at position `i` of the tree: a link up to its
/// parent category (or to the category index), its sub-categories with how
/// many entries each holds, and the word table of the entries filed
/// directly under it. The parent is found by cutting the key at its last
/// `__` (see `lemma_parent_key`).
pub fn category_page(t: &Vec<CategoryNode>, i: usize, metas: &Vec<SiteEntryMeta>) -> (r: String)
    requires
        i < t@.len(),
        pages_in(tree_v(t@), metas@.len()),
        max_key_len(tree_v(t@)) < usize::MAX,
    ensures
        r@ == site_page_spec(
            "Kategorija: "@ + join_spec(tree_v(t@)[i as int].1, " » "@),
            category_body_spec(tree_v(t@), metas@, i as int),
            1,
        ),
{
    let ghost tv = tree_v(t@);
    let node = &t[i];
    assert(tv[i as int] == node_v(*node));
    let subcats = sub_items(t, metas, &node.children);
    let mut title = crate::strs::string_from("Kategorija: ");
    push_str(&mut title, category_title(&node.path).as_str());
    let mut body = crate::strs::string_from("<article class='entry'><h1 class='firstHeading'>");
    push_str(&mut body, esc(title.as_str()).as_str());
    push_str(&mut body, "</h1>");
    if node.path.len() > 1 {
        push_str(&mut body, "<p><a href='");
        push_str(&mut body, parent_key(node.key.as_str()).as_str());
        push_str(&mut body, ".html'>← vyšša kategorija</a></p>");
    } else {
        push_str(&mut body, "<p><a href='../categories.html'>← vse kategorije</a></p>");
    }
    if !subcats.as_str().is_empty() {
        push_str(&mut body, "<h2 id='podkategorije'>Podkategorije</h2><ul class='compact-list category-list'>");
        push_str(&mut body, subcats.as_str());
        push_str(&mut body, "</ul>");
    }
    push_str(&mut body, "<h2 id='strany'>Strany v kategoriji</h2>");
    if node.pages.len() == 0 {
        if node.children.len() > 0 {
            push_str(&mut body, "<p class='muted'>Izberi podkategoriju vyše.</p>");
        }
    } else {
        assert forall|j: int| 0 <= j < node.pages@.len() implies (#[trigger] node.pages@[j]) < metas@.len() by {
            assert(tv[i as int].2[j] == node.pages@[j]);
        }
        push_str(&mut body, render_word_table_at(metas, &node.pages, "../").as_str());
    }
    push_str(&mut body, "</article>");
    assert(body@ =~= category_body_spec(tv, metas@, i as int));
    crate::pages::site_page(title.as_str(), body.as_str(), 1)
}

/// One line of the category index.
pub open spec fn root_item(
    t: Seq<(Seq<char>, Seq<Seq<char>>, Seq<usize>, Seq<Seq<char>>)>,
    metas: Seq<SiteEntryMeta>,
    n: (Seq<char>, Seq<Seq<char>>, Seq<usize>, Seq<Seq<char>>),
) -> Seq<char> {
    if n.1.len() == 1 {
        "<li><a href='category/"@ + esc_spec(n.0) + ".html'>"@ + esc_spec(join_spec(n.1, " » "@))
            + "</a> <span class='muted'>("@ + compact_spec(descendant_count(t, metas, n.0)) + ")</span></li>"@
    } else {
        Seq::empty()
    }
}

/// The body of the category index.
pub open spec fn categories_index_body(
    t: Seq<(Seq<char>, Seq<Seq<char>>, Seq<usize>, Seq<Seq<char>>)>,
    metas: Seq<SiteEntryMeta>,
) -> Seq<char> {
    "<article class='entry'><h1 class='firstHeading'>Kategorije</h1><p class='lede'>Hierarhične kategorije po wiki-sistemu: najprvo podkategorije, potom strany. Avtomatične kategorije sųt směšane s temami i oznakami Wiktionary, kȯgda te metadany sųt v lokalnyh cache-fajlah.</p><h2 id='podkategorije'>Podkategorije</h2><ul class='compact-list category-list'>"@
        + t.map_values(|n: (Seq<char>, Seq<Seq<char>>, Seq<usize>, Seq<Seq<char>>)| root_item(t, metas, n)).flatten()
        + "</ul></article>"@
}

/// The category index (`categories.html`): every top-level category with
/// how many entries it holds.
pub fn categories_index_page(t: &Vec<CategoryNode>, metas: &Vec<SiteEntryMeta>) -> (r: String)
    requires
        pages_in(tree_v(t@), metas@.len()),
        max_key_len(tree_v(t@)) < usize::MAX,
    ensures
        r@ == site_page_spec("Kategorije"@, categories_index_body(tree_v(t@), metas@), 0),
{
    let ghost tv = tree_v(t@);
    let ghost f = |n: (Seq<char>, Seq<Seq<char>>, Seq<usize>, Seq<Seq<char>>)| root_item(tv, metas@, n);
    let mut links = String::new();
    let mut i: usize = 0;
    while i < t.len()
        invariant
            i <= t@.len(),
            tv == tree_v(t@),
            pages_in(tv, metas@.len()),
            max_key_len(tv) < usize::MAX,
            f == (|n: (Seq<char>, Seq<Seq<char>>, Seq<usize>, Seq<Seq<char>>)| root_item(tv, metas@, n)),
            links@ == tv.take(i as int).map_values(f).flatten(),
        decreases t@.len() - i,
    {
        let node = &t[i];
        assert(tv[i as int] == node_v(*node));
        if node.path.len() == 1 {
            let count = category_descendant_page_count(t, metas, node.key.as_str());
            push_str(&mut links, "<li><a href='category/");
            push_str(&mut links, esc(node.key.as_str()).as_str());
            push_str(&mut links, ".html'>");
            push_str(&mut links, esc(category_title(&node.path).as_str()).as_str());
            push_str(&mut links, "</a> <span class='muted'>(");
            push_str(&mut links, compact(count).as_str());
            push_str(&mut links, ")</span></li>");
        }
        proof {
            crate::strs::lemma_flat_map_step(tv, i as int, f);
        }
        i += 1;
    }
    assert(tv.take(i as int) =~= tv);
    let mut body = crate::strs::string_from(
        "<article class='entry'><h1 class='firstHeading'>Kategorije</h1><p class='lede'>Hierarhične kategorije po wiki-sistemu: najprvo podkategorije, potom strany. Avtomatične kategorije sųt směšane s temami i oznakami Wiktionary, kȯgda te metadany sųt v lokalnyh cache-fajlah.</p><h2 id='podkategorije'>Podkategorije</h2><ul class='compact-list category-list'>",
    );
    push_str(&mut body, links.as_str());
    push_str(&mut body, "</ul></article>");
    crate::pages::site_page("Kategorije", body.as_str(), 0)
}

} // verus!

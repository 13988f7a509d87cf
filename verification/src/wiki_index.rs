//! The groupings behind the wiki's index pages: entries by first letter,
//! by attested language and by root, each group under its key in
//! ascending order; and the link lists of the index and portal overviews.

use vstd::prelude::*;
use crate::categories::{slug, slug_spec, strs_view};
use crate::coverage::{occurrences, tally_add, tally_of, tally_view};
use crate::english_index::{copy_string, seq_lt};
use crate::layout::{esc, esc_spec};
use crate::strs::{decimal, push_decimal, push_str, str_eq, string_from};

verus! {

/// The key lists of the entries as plain values.
pub open spec fn keys_view(keys: Seq<Vec<String>>) -> Seq<Seq<Seq<char>>> {
    keys.map_values(|v: Vec<String>| strs_view(v@))
}

/// All keys, entry after entry, each entry's keys in order.
pub open spec fn flat_keys(keys: Seq<Seq<Seq<char>>>) -> Seq<Seq<char>>
    decreases keys.len(),
{
    if keys.len() == 0 {
        Seq::empty()
    } else {
        flat_keys(keys.drop_last()) + keys.last()
    }
}

/// The entries filed under `k`: each entry's position, once for every time
/// `k` is among its keys, in entry order.
pub open spec fn members(keys: Seq<Seq<Seq<char>>>, k: Seq<char>) -> Seq<usize>
    decreases keys.len(),
{
    if keys.len() == 0 {
        Seq::empty()
    } else {
        members(keys.drop_last(), k) + Seq::new(occurrences(keys.last(), k), |u: int| (keys.len() - 1) as usize)
    }
}

/// A group list as plain values.
pub open spec fn groups_view(g: Seq<(String, Vec<usize>)>) -> Seq<(Seq<char>, Seq<usize>)> {
    g.map_values(|e: (String, Vec<usize>)| (e.0@, e.1@))
}

/// Whether `g` groups the entries with key lists `keys`: one group per key
/// that occurs, keys in ascending order, each listing the entries filed
/// under it.
pub open spec fn groups_of(g: Seq<(Seq<char>, Seq<usize>)>, keys: Seq<Seq<Seq<char>>>) -> bool {
    &&& forall|a: int, b: int| 0 <= a < b < g.len() ==> seq_lt((#[trigger] g[a]).0, (#[trigger] g[b]).0)
    &&& forall|a: int| 0 <= a < g.len() ==> occurrences(flat_keys(keys), (#[trigger] g[a]).0) > 0 && g[a].1 == members(keys, g[a].0)
    &&& forall|k: Seq<char>| occurrences(flat_keys(keys), k) > 0 ==> exists|a: int| 0 <= a < g.len() && (#[trigger] g[a]).0 == k
}

/// Groups entries by their keys (an entry may have several, or none).
pub fn group_by_keys(keys: &Vec<Vec<String>>) -> (r: Vec<(String, Vec<usize>)>)
    requires
        flat_keys(keys_view(keys@)).len() < usize::MAX,
    ensures
        groups_of(groups_view(r@), keys_view(keys@)),
{
    let ghost kv = keys_view(keys@);
    let mut t: Vec<(String, usize)> = Vec::new();
    let mut i: usize = 0;
    assert(kv.take(0) =~= Seq::<Seq<Seq<char>>>::empty());
    assert(flat_keys(kv.take(0)) =~= Seq::<Seq<char>>::empty());
    while i < keys.len()
        invariant
            i <= keys@.len(),
            kv == keys_view(keys@),
            flat_keys(kv).len() < usize::MAX,
            tally_of(tally_view(t@), flat_keys(kv.take(i as int))),
        decreases keys@.len() - i,
    {
        let row = &keys[i];
        let ghost before = flat_keys(kv.take(i as int));
        proof {
            lemma_flat_prefix_len(kv, i as int + 1);
            assert(kv.take(i + 1).drop_last() =~= kv.take(i as int));
            assert(kv.take(i + 1).last() == kv[i as int]);
            assert(kv[i as int] == strs_view(row@));
        }
        let mut j: usize = 0;
        assert(before + strs_view(row@).take(0) =~= before);
        while j < row.len()
            invariant
                j <= row@.len(),
                before == flat_keys(kv.take(i as int)),
                (before + strs_view(row@)).len() < usize::MAX,
                tally_of(tally_view(t@), before + strs_view(row@).take(j as int)),
            decreases row@.len() - j,
        {
            assert(before + strs_view(row@).take(j + 1) =~= (before + strs_view(row@).take(j as int)).push(row@[j as int]@));
            tally_add(&mut t, row[j].as_str(), Ghost(before + strs_view(row@).take(j as int)));
            j += 1;
        }
        assert(strs_view(row@).take(j as int) =~= strs_view(row@));
        assert(flat_keys(kv.take(i + 1)) == before + strs_view(row@));
        i += 1;
    }
    assert(kv.take(i as int) =~= kv);
    let ghost fk = flat_keys(kv);
    let mut r: Vec<(String, Vec<usize>)> = Vec::new();
    let mut g: usize = 0;
    while g < t.len()
        invariant
            g <= t@.len(),
            kv == keys_view(keys@),
            fk == flat_keys(kv),
            tally_of(tally_view(t@), fk),
            r@.len() == g,
            forall|a: int| 0 <= a < g ==> (#[trigger] groups_view(r@)[a]).0 == tally_view(t@)[a].0
                && groups_view(r@)[a].1 == members(kv, groups_view(r@)[a].0),
        decreases t@.len() - g,
    {
        let key = &t[g].0;
        let ghost k = key@;
        let mut ids: Vec<usize> = Vec::new();
        let mut e: usize = 0;
        assert(members(kv.take(0), k) =~= Seq::<usize>::empty());
        while e < keys.len()
            invariant
                e <= keys@.len(),
                kv == keys_view(keys@),
                k == key@,
                ids@ == members(kv.take(e as int), k),
            decreases keys@.len() - e,
        {
            let row = &keys[e];
            let ghost base = ids@;
            let ghost rv = strs_view(row@);
            assert(kv[e as int] == rv);
            let mut q: usize = 0;
            assert(rv.take(0) =~= Seq::<Seq<char>>::empty());
            assert(Seq::new(occurrences(rv.take(0), k), |u: int| e) =~= Seq::<usize>::empty());
            while q < row.len()
                invariant
                    q <= row@.len(),
                    rv == strs_view(row@),
                    k == key@,
                    ids@ == base + Seq::new(occurrences(rv.take(q as int), k), |u: int| e),
                decreases row@.len() - q,
            {
                assert(rv.take(q + 1).drop_last() =~= rv.take(q as int));
                assert(rv.take(q + 1).last() == row@[q as int]@);
                if str_eq(row[q].as_str(), key.as_str()) {
                    ids.push(e);
                    assert(ids@ =~= base + Seq::new(occurrences(rv.take(q + 1), k), |u: int| e));
                } else {
                    assert(Seq::new(occurrences(rv.take(q + 1), k), |u: int| e) =~= Seq::new(occurrences(rv.take(q as int), k), |u: int| e));
                }
                q += 1;
            }
            assert(rv.take(q as int) =~= rv);
            assert(kv.take(e + 1).drop_last() =~= kv.take(e as int));
            assert(kv.take(e + 1).last() == rv);
            e += 1;
        }
        assert(kv.take(e as int) =~= kv);
        let kk = copy_string(key);
        let ghost rb = groups_view(r@);
        r.push((kk, ids));
        assert(tally_view(t@)[g as int].0 == k);
        assert(groups_view(r@)[g as int] == (k, members(kv, k)));
        assert forall|a: int| 0 <= a < g + 1 implies (#[trigger] groups_view(r@)[a]).0 == tally_view(t@)[a].0
            && groups_view(r@)[a].1 == members(kv, groups_view(r@)[a].0) by {
            if a < g {
                assert(groups_view(r@)[a] == rb[a]);
                assert(rb[a].0 == tally_view(t@)[a].0);
            }
        }
        g += 1;
    }
    assert(groups_view(r@).len() == tally_view(t@).len());
    assert forall|a: int, b: int| 0 <= a < b < groups_view(r@).len() implies seq_lt(
        (#[trigger] groups_view(r@)[a]).0,
        (#[trigger] groups_view(r@)[b]).0,
    ) by {
        assert(groups_view(r@)[a].0 == tally_view(t@)[a].0);
        assert(groups_view(r@)[b].0 == tally_view(t@)[b].0);
    }
    assert forall|a: int| 0 <= a < groups_view(r@).len() implies occurrences(fk, (#[trigger] groups_view(r@)[a]).0) > 0
        && groups_view(r@)[a].1 == members(kv, groups_view(r@)[a].0) by {
        assert(groups_view(r@)[a].0 == tally_view(t@)[a].0);
    }
    assert forall|k: Seq<char>| occurrences(fk, k) > 0 implies exists|a: int| 0 <= a < groups_view(r@).len() && (#[trigger] groups_view(r@)[a]).0 == k by {
        let a = choose|a: int| 0 <= a < tally_view(t@).len() && (#[trigger] tally_view(t@)[a]).0 == k;
        assert(groups_view(r@)[a].0 == k);
    }
    r
}

proof fn lemma_flat_prefix_len(kv: Seq<Seq<Seq<char>>>, n: int)
    requires
        0 <= n <= kv.len(),
    ensures
        flat_keys(kv.take(n)).len() <= flat_keys(kv).len(),
    decreases kv.len(),
{
    if n < kv.len() {
        assert(kv.drop_last().take(n) =~= kv.take(n));
        lemma_flat_prefix_len(kv.drop_last(), n);
    } else {
        assert(kv.take(n) =~= kv);
    }
}

/// The link of one letter on the alphabetical index overview; `folded` is
/// the letter's ASCII skeleton, which names its page.
pub open spec fn letter_link(letter: Seq<char>, folded: Seq<char>) -> Seq<char> {
    "<a href='index/"@ + slug_spec(folded) + ".html'>"@ + esc_spec(letter) + "</a> "@
}

/// Letters with their ASCII skeletons as plain values.
pub open spec fn pairs_view(v: Seq<(String, String)>) -> Seq<(Seq<char>, Seq<char>)> {
    v.map_values(|e: (String, String)| (e.0@, e.1@))
}

/// The links of the first `n` letters.
pub open spec fn letter_links_spec(letters: Seq<(Seq<char>, Seq<char>)>, n: int) -> Seq<char>
    decreases n,
{
    if n <= 0 {
        Seq::empty()
    } else {
        letter_links_spec(letters, n - 1) + letter_link(letters[n - 1].0, letters[n - 1].1)
    }
}

/// The links of the alphabetical index overview, one per letter (with its
/// ASCII skeleton) in order.
pub fn letter_links(letters: &Vec<(String, String)>) -> (r: String)
    ensures
        r@ == letter_links_spec(pairs_view(letters@), letters@.len() as int),
{
    let mut s = String::new();
    let mut i: usize = 0;
    while i < letters.len()
        invariant
            i <= letters@.len(),
            s@ == letter_links_spec(pairs_view(letters@), i as int),
        decreases letters@.len() - i,
    {
        let e = &letters[i];
        assert(pairs_view(letters@)[i as int] == (e.0@, e.1@));
        push_str(&mut s, "<a href='index/");
        push_str(&mut s, slug(e.1.as_str()).as_str());
        push_str(&mut s, ".html'>");
        push_str(&mut s, esc(e.0.as_str()).as_str());
        push_str(&mut s, "</a> ");
        i += 1;
    }
    s
}

/// The body of the alphabetical index overview.
pub open spec fn indices_body_spec(links: Seq<char>) -> Seq<char> {
    "<article class='entry'><h1 class='firstHeading'>Abecedne indeksy</h1><p class='muted'>Klasičny slovnikovy indeks po prvoj bukvě.</p><p class='plainlinks alphabet-index'>"@
        + links + "</p></article>"@
}

/// The body of the alphabetical index overview around its letter links.
pub fn indices_body(links: &str) -> (r: String)
    ensures
        r@ == indices_body_spec(links@),
{
    let mut s = string_from("<article class='entry'><h1 class='firstHeading'>Abecedne indeksy</h1><p class='muted'>Klasičny slovnikovy indeks po prvoj bukvě.</p><p class='plainlinks alphabet-index'>");
    push_str(&mut s, links);
    push_str(&mut s, "</p></article>");
    s
}

/// The item of one language on the portal overview: its portal page, its
/// name and how many entries it attests.
pub open spec fn portal_link(lang: Seq<char>, name: Seq<char>, count: usize) -> Seq<char> {
    "<li><a href='portal/"@ + slug_spec(lang) + ".html'>"@ + esc_spec(name) + "</a> <span class='muted'>("@
        + decimal(count as nat) + ")</span></li>"@
}

/// The items of the first `n` languages.
pub open spec fn portal_links_spec(langs: Seq<(Seq<char>, Seq<char>, usize)>, n: int) -> Seq<char>
    decreases n,
{
    if n <= 0 {
        Seq::empty()
    } else {
        portal_links_spec(langs, n - 1) + portal_link(langs[n - 1].0, langs[n - 1].1, langs[n - 1].2)
    }
}

/// Languages with display name and entry count as plain values.
pub open spec fn portal_rows_view(v: Seq<(String, String, usize)>) -> Seq<(Seq<char>, Seq<char>, usize)> {
    v.map_values(|e: (String, String, usize)| (e.0@, e.1@, e.2))
}

/// The items of the portal overview: per language (code, display name,
/// number of entries), in order.
pub fn portal_links(langs: &Vec<(String, String, usize)>) -> (r: String)
    ensures
        r@ == portal_links_spec(portal_rows_view(langs@), langs@.len() as int),
{
    let mut s = String::new();
    let mut i: usize = 0;
    while i < langs.len()
        invariant
            i <= langs@.len(),
            s@ == portal_links_spec(portal_rows_view(langs@), i as int),
        decreases langs@.len() - i,
    {
        let e = &langs[i];
        assert(portal_rows_view(langs@)[i as int] == (e.0@, e.1@, e.2));
        push_str(&mut s, "<li><a href='portal/");
        push_str(&mut s, slug(e.0.as_str()).as_str());
        push_str(&mut s, ".html'>");
        push_str(&mut s, esc(e.1.as_str()).as_str());
        push_str(&mut s, "</a> <span class='muted'>(");
        push_decimal(&mut s, e.2);
        push_str(&mut s, ")</span></li>");
        i += 1;
    }
    s
}

/// The body of the portal overview.
pub open spec fn portals_body_spec(links: Seq<char>) -> Seq<char> {
    "<article class='entry'><h1 class='firstHeading'>Języčne portaly</h1><p class='lede'>Vsaky portal pokazyvaje strany zapisov, v ktoryh dany slovjansky język davaje srodny dokaz. To pomagaje viděti, ktore formy sųt vȯzhodne, zapadne, južne ili vseslovjanske.</p><ul class='compact-list'>"@
        + links + "</ul></article>"@
}

/// The body of the portal overview around its items.
pub fn portals_body(links: &str) -> (r: String)
    ensures
        r@ == portals_body_spec(links@),
{
    let mut s = string_from("<article class='entry'><h1 class='firstHeading'>Języčne portaly</h1><p class='lede'>Vsaky portal pokazyvaje strany zapisov, v ktoryh dany slovjansky język davaje srodny dokaz. To pomagaje viděti, ktore formy sųt vȯzhodne, zapadne, južne ili vseslovjanske.</p><ul class='compact-list'>");
    push_str(&mut s, links);
    push_str(&mut s, "</ul></article>");
    s
}

} // verus!

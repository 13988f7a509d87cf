//! Properties of the library that span several calls or hold of every input.

use vstd::prelude::*;
use crate::categories::{add_path_spec, clean_path};
use crate::english_api::{
    gloss_keys_spec, head_keys_spec, head_part_step, head_parts_spec, paren_keys_spec, push_key_spec,
    segment_step, segments_keys_spec, token_keys_spec,
};
use crate::layout::{esc_char, esc_spec};
use crate::search::{key_firsts, new_keys};
use crate::strs::lemma_flat_map_step;
use crate::xref::{chip_target, index_lookup, xref_lookup, Xref};
use crate::english_index::{same_slot, winner, Hit, LemmaRecord};
use crate::render_index::{final_match, OfficialRow, SetSummary};
use crate::derivatives::{inject_spec, record_spec, shippable, DerivedWord};
use crate::strs::trim_spec;
use crate::site_meta::{add_edge_spec, add_edges_spec, has_edge, meta_pos, SiteEntryMeta};
use crate::etymology::{english_scan, EnglishEtymology, MAX_ENGLISH_ETYMOLOGIES};
use crate::connections::{edition_scan, ConnMember};

verus! {

/// No key occurs twice in a key list.
pub open spec fn keys_distinct(out: Seq<(Seq<char>, Seq<char>)>) -> bool {
    forall|i: int, j: int| 0 <= i < j < out.len() ==> out[i].0 != out[j].0
}

proof fn lemma_push_key_distinct(out: Seq<(Seq<char>, Seq<char>)>, key: Seq<char>, kind: Seq<char>)
    requires
        keys_distinct(out),
    ensures
        keys_distinct(push_key_spec(out, key, kind)),
{
}

proof fn lemma_token_keys_distinct(out: Seq<(Seq<char>, Seq<char>)>, toks: Seq<Seq<char>>)
    requires
        keys_distinct(out),
    ensures
        keys_distinct(token_keys_spec(out, toks)),
    decreases toks.len(),
{
    if toks.len() > 0 {
        let o1 = if crate::english_api::usable_spec(toks[0]) {
            push_key_spec(out, toks[0], "gloss-token"@)
        } else {
            out
        };
        lemma_push_key_distinct(out, toks[0], "gloss-token"@);
        lemma_token_keys_distinct(o1, toks.skip(1));
    }
}

proof fn lemma_head_parts_distinct(out: Seq<(Seq<char>, Seq<char>)>, parts: Seq<Seq<char>>)
    requires
        keys_distinct(out),
    ensures
        keys_distinct(head_parts_spec(out, parts)),
    decreases parts.len(),
{
    if parts.len() > 0 {
        let k = crate::english_api::head_key(parts[0]);
        lemma_push_key_distinct(out, k, "phrase"@);
        lemma_push_key_distinct(out, k, "exact-gloss-head"@);
        lemma_token_keys_distinct(push_key_spec(out, k, "phrase"@), crate::split::ws_tokens(k));
        lemma_head_parts_distinct(head_part_step(out, parts[0]), parts.skip(1));
    }
}

proof fn lemma_segments_distinct(out: Seq<(Seq<char>, Seq<char>)>, segs: Seq<Seq<char>>)
    requires
        keys_distinct(out),
    ensures
        keys_distinct(segments_keys_spec(out, segs)),
    decreases segs.len(),
{
    if segs.len() > 0 {
        let (head, note) = crate::english_api::split_paren_spec(segs[0]);
        let o1 = head_keys_spec(out, head);
        lemma_head_parts_distinct(
            out,
            crate::split::split_char_spec(crate::split::replace_spec(head, " or "@, ","@), ','),
        );
        match note {
            Some(n) => {
                let k = crate::english_api::strip_all(
                    crate::english_api::normalize_spec(n),
                    crate::english_api::note_prefixes(),
                );
                lemma_token_keys_distinct(o1, crate::split::ws_tokens(k));
                assert(keys_distinct(paren_keys_spec(o1, n)));
            },
            None => {},
        }
        lemma_segments_distinct(segment_step(out, segs[0]), segs.skip(1));
    }
}

/// A gloss is indexed under each of its English keys once: the keys that
/// `gloss_keys` returns are pairwise distinct.
pub proof fn lemma_gloss_keys_distinct(gloss: Seq<char>)
    ensures
        keys_distinct(gloss_keys_spec(gloss)),
{
    lemma_segments_distinct(
        seq![],
        crate::english_api::segments_spec(crate::english_api::lookup_spec(gloss)),
    );
}

/// Whether `s` holds none of the characters that end an HTML text run or a
/// quoted attribute.
pub open spec fn markup_safe(s: Seq<char>) -> bool {
    !s.contains('<') && !s.contains('>') && !s.contains('"') && !s.contains('\'')
}

proof fn lemma_markup_safe_concat(a: Seq<char>, b: Seq<char>)
    requires
        markup_safe(a),
        markup_safe(b),
    ensures
        markup_safe(a + b),
{
    assert forall|c: char| (a + b).contains(c) implies a.contains(c) || b.contains(c) by {
        let i = choose|i: int| 0 <= i < (a + b).len() && (a + b)[i] == c;
        if i < a.len() {
            assert(a[i] == c);
        } else {
            assert(b[i - a.len()] == c);
        }
    }
}

proof fn lemma_esc_char_safe(c: char)
    ensures
        markup_safe(esc_char(c)),
{
    reveal_strlit("&amp;");
    reveal_strlit("&lt;");
    reveal_strlit("&gt;");
    reveal_strlit("&quot;");
    reveal_strlit("&#39;");
    if c != '&' && c != '<' && c != '>' && c != '"' && c != '\'' {
        assert(seq![c].contains(c) ==> c == c);
        assert forall|x: char| seq![c].contains(x) implies x == c by {
            let i = choose|i: int| 0 <= i < seq![c].len() && seq![c][i] == x;
        }
    }
}

/// Escaped text is safe inside element content and inside single- or
/// double-quoted attribute values: it holds no `<`, `>`, `"` or `'`.
pub proof fn lemma_esc_markup_safe(v: Seq<char>)
    ensures
        markup_safe(esc_spec(v)),
    decreases v.len(),
{
    if v.len() == 0 {
        assert(esc_spec(v) =~= Seq::<char>::empty());
    } else {
        let n = v.len() - 1;
        lemma_esc_markup_safe(v.take(n));
        lemma_flat_map_step(v, n, |c: char| esc_char(c));
        assert(v.take(n + 1) =~= v);
        lemma_esc_char_safe(v[n]);
        lemma_markup_safe_concat(esc_spec(v.take(n)), esc_char(v[n]));
    }
}

/// A word chip never links a page to itself: its internal target, when it
/// has one, is another page.
pub proof fn lemma_chip_never_self(
    xref: Option<Xref>,
    raw_xref: Xref,
    lang: Seq<char>,
    word: Seq<char>,
    self_id: usize,
)
    ensures
        chip_target(xref, raw_xref, lang, word, self_id) != Some(self_id),
{
}

/// A cross-reference answers a lookup with what was last recorded for that
/// pair; recording one pair leaves every other pair's answer unchanged.
pub proof fn lemma_xref_insert_lookup(
    log: Seq<(Seq<char>, Seq<char>, usize)>,
    lang: Seq<char>,
    word: Seq<char>,
    id: usize,
    l: Seq<char>,
    w: Seq<char>,
)
    ensures
        xref_lookup(log.push((lang, word, id)), lang, word) == Some(id),
        !(l == lang && w == word) ==> xref_lookup(log.push((lang, word, id)), l, w) == xref_lookup(
            log,
            l,
            w,
        ),
{
    assert(log.push((lang, word, id)).drop_last() =~= log);
}

/// A headword index answers a lookup with the id last recorded for that
/// spelling; recording one spelling leaves every other answer unchanged.
pub proof fn lemma_index_insert_lookup(
    log: Seq<(Seq<char>, usize)>,
    key: Seq<char>,
    id: usize,
    k: Seq<char>,
)
    ensures
        index_lookup(log.push((key, id)), key) == Some(id),
        k != key ==> index_lookup(log.push((key, id)), k) == index_lookup(log, k),
{
    assert(log.push((key, id)).drop_last() =~= log);
}

/// The search keys added for an entry are each at least two characters
/// long, never a taken key (the display form itself, or a key already
/// listed), and pairwise distinct.
pub proof fn lemma_new_keys_sound(props: Seq<(Seq<char>, usize)>, taken: Seq<Seq<char>>)
    ensures
        forall|i: int|
            0 <= i < new_keys(props, taken).len() ==> (#[trigger] new_keys(props, taken)[i]).0.len() >= 2
                && !taken.contains(new_keys(props, taken)[i].0),
        key_firsts(new_keys(props, taken)).no_duplicates(),
    decreases props.len(),
{
    if props.len() > 0 {
        let pre = props.drop_last();
        lemma_new_keys_sound(pre, taken);
        let nk = new_keys(pre, taken);
        let k = props.last().0;
        if k.len() >= 2 && !taken.contains(k) && !key_firsts(pre).contains(k) {
            assert(key_firsts(nk.push(props.last())) =~= key_firsts(nk).push(k));
            assert(!key_firsts(nk).contains(k)) by {
                if key_firsts(nk).contains(k) {
                    let j = choose|j: int| 0 <= j < key_firsts(nk).len() && key_firsts(nk)[j] == k;
                    lemma_new_keys_from_props(pre, taken, j);
                }
            }
        }
    }
}

/// Every kept key was proposed.
proof fn lemma_new_keys_from_props(props: Seq<(Seq<char>, usize)>, taken: Seq<Seq<char>>, j: int)
    requires
        0 <= j < new_keys(props, taken).len(),
    ensures
        key_firsts(props).contains(new_keys(props, taken)[j].0),
    decreases props.len(),
{
    let pre = props.drop_last();
    let nk = new_keys(pre, taken);
    assert(key_firsts(props) =~= key_firsts(pre).push(props.last().0));
    if j < nk.len() {
        lemma_new_keys_from_props(pre, taken, j);
        let x = nk[j].0;
        let w = choose|w: int| 0 <= w < key_firsts(pre).len() && key_firsts(pre)[w] == x;
        assert(key_firsts(props)[w] == x);
    } else {
        assert(key_firsts(props)[props.len() - 1] == props.last().0);
    }
}

/// The category list of an entry never holds an empty path or the same
/// path twice, however many paths are added.
pub proof fn lemma_add_path_keeps_distinct(cats: Seq<Seq<Seq<char>>>, path: Seq<Seq<char>>)
    requires
        cats.no_duplicates(),
        forall|i: int| 0 <= i < cats.len() ==> (#[trigger] cats[i]).len() > 0,
    ensures
        add_path_spec(cats, path).no_duplicates(),
        forall|i: int| 0 <= i < add_path_spec(cats, path).len() ==> (#[trigger] add_path_spec(cats, path)[i]).len() > 0,
{
    let p = clean_path(path);
    if !(p.len() == 0 || cats.contains(p)) {
        let r = cats.push(p);
        assert forall|i: int, j: int| 0 <= i < r.len() && 0 <= j < r.len() && i != j implies r[i] != r[j] by {
            if i < cats.len() && j < cats.len() {
            } else if i == cats.len() {
                assert(cats[j] == r[j]);
            } else {
                assert(cats[i] == r[i]);
            }
        }
    }
}


/// One page per official lemma: after homograph dedup no two generated
/// pages show the same official row.
pub proof fn lemma_one_page_per_official_row(
    sets: Seq<SetSummary>,
    rows: Seq<OfficialRow>,
    prep: Seq<(int, Option<int>)>,
    i: int,
    j: int,
)
    requires
        final_match(sets, rows, prep, i) is Some,
        final_match(sets, rows, prep, i) == final_match(sets, rows, prep, j),
    ensures
        i == j,
{
}

/// The English index lists each (key, entry, form key) slot once: two
/// distinct kept hits never compete for the same slot.
pub proof fn lemma_kept_hits_distinct_slots(recs: Seq<LemmaRecord>, all: Seq<Hit>, a: int, b: int)
    requires
        0 <= a < all.len(),
        0 <= b < all.len(),
        a != b,
        winner(recs, all, a),
        winner(recs, all, b),
    ensures
        !same_slot(recs, all, a, b),
{
    if same_slot(recs, all, a, b) {
        assert(same_slot(recs, all, b, a));
        let _ = all[a];
        let _ = all[b];
    }
}

/// Whether a link graph over `metas` is clean: no self-links, every end a
/// known page, and no link of one kind twice between the same pages.
pub open spec fn edges_clean(
    edges: Seq<(usize, Seq<char>, usize, Seq<char>, Seq<char>)>,
    metas: Seq<SiteEntryMeta>,
) -> bool {
    &&& forall|i: int| 0 <= i < edges.len() ==> (#[trigger] edges[i]).0 != edges[i].2
    &&& forall|i: int| 0 <= i < edges.len() ==> meta_pos(metas, (#[trigger] edges[i]).0) is Some
        && meta_pos(metas, edges[i].2) is Some
    &&& forall|i: int, j: int| 0 <= i < j < edges.len() ==> !((#[trigger] edges[i]).0 == (#[trigger] edges[j]).0
        && edges[i].2 == edges[j].2 && edges[i].4 == edges[j].4)
}

/// Whatever links are asked for, in whatever order, the semantic graph has
/// no self-links, no link to or from an unknown page, and no repeated link.
pub proof fn lemma_edges_clean(metas: Seq<SiteEntryMeta>, reqs: Seq<(usize, usize, Seq<char>)>)
    ensures
        edges_clean(add_edges_spec(Seq::empty(), metas, reqs), metas),
    decreases reqs.len(),
{
    if reqs.len() > 0 {
        lemma_edges_clean(metas, reqs.drop_last());
        let pre = add_edges_spec(Seq::empty(), metas, reqs.drop_last());
        let q = reqs.last();
        let post = add_edge_spec(pre, metas, q.0, q.1, q.2);
        if post.len() != pre.len() {
            assert(post == pre.push(post.last()));
            assert forall|i: int, j: int| 0 <= i < j < post.len() implies !((#[trigger] post[i]).0 == (#[trigger] post[j]).0
                && post[i].2 == post[j].2 && post[i].4 == post[j].4) by {
                if j == post.len() - 1 {
                    assert(post[i] == pre[i]);
                    if post[i].0 == post[j].0 && post[i].2 == post[j].2 && post[i].4 == post[j].4 {
                        assert(has_edge(pre, q.0, q.1, q.2));
                    }
                } else {
                    assert(post[i] == pre[i] && post[j] == pre[j]);
                }
            }
        }
    }
}

/// The keys of shipped derivative records.
pub open spec fn record_keys(out: Seq<(Seq<char>, Seq<char>, Seq<char>, Seq<char>, usize, Seq<char>, Seq<char>, Seq<char>, Seq<char>, Seq<char>)>) -> Seq<Seq<char>> {
    out.map_values(|r: (Seq<char>, Seq<char>, Seq<char>, Seq<char>, usize, Seq<char>, Seq<char>, Seq<char>, Seq<char>, Seq<char>)| r.1)
}

/// Generated derivatives are pure additions: none takes a key that was
/// already taken (an attested or official form, inflected forms included),
/// no two share a key, every one is a generated lemma record with `deriv:`
/// provenance, and the taken keys grow by exactly the shipped ones.
pub proof fn lemma_derivatives_never_collide(taken: Seq<Seq<char>>, derived: Seq<DerivedWord>, n: int)
    requires
        0 <= n <= derived.len(),
    ensures
        ({
            let (t, out) = inject_spec(taken, derived, n);
            &&& t == taken + record_keys(out)
            &&& forall|i: int| 0 <= i < out.len() ==> !taken.contains((#[trigger] out[i]).1) && out[i].1.len() > 0
            &&& forall|i: int, j: int| 0 <= i < j < out.len() ==> (#[trigger] out[i]).1 != (#[trigger] out[j]).1
            &&& forall|i: int| 0 <= i < out.len() ==> (#[trigger] out[i]).7 == "generated"@ && out[i].6 == "lemma"@
                && "deriv:"@.is_prefix_of(out[i].2)
        }),
    decreases n,
{
    if n > 0 {
        lemma_derivatives_never_collide(taken, derived, n - 1);
        let (t, out) = inject_spec(taken, derived, n - 1);
        let d = derived[n - 1];
        if !(!shippable(trim_spec(d.form@)) || d.key@.len() == 0 || t.contains(d.key@)) {
            let out2 = out.push(record_spec(d));
            assert(record_keys(out2) =~= record_keys(out).push(d.key@));
            assert(taken + record_keys(out2) =~= (taken + record_keys(out)).push(d.key@));
            assert(!taken.contains(d.key@)) by {
                if taken.contains(d.key@) {
                    let k = choose|k: int| 0 <= k < taken.len() && taken[k] == d.key@;
                    assert(t[k] == d.key@);
                }
            }
            assert forall|i: int, j: int| 0 <= i < j < out2.len() implies (#[trigger] out2[i]).1 != (#[trigger] out2[j]).1 by {
                if j == out.len() {
                    assert(out2[i] == out[i]);
                    assert(t[taken.len() + i] == record_keys(out)[i]);
                }
            }
            assert("deriv:"@.is_prefix_of(("deriv:"@ + d.pattern@))) by {
                assert(("deriv:"@ + d.pattern@).subrange(0, "deriv:"@.len() as int) =~= "deriv:"@);
            }
        }
    } else {
        assert(record_keys(Seq::empty()) =~= Seq::<Seq<char>>::empty());
        assert(taken + Seq::<Seq<char>>::empty() =~= taken);
    }
}

/// The English etymology cards show each etymology text at most once and
/// at most four of them: the texts shown are distinct and number at most
/// four.
pub proof fn lemma_english_etymologies_distinct(ms: Seq<EnglishEtymology>, n: int)
    ensures
        english_scan(ms, n).0.no_duplicates(),
        english_scan(ms, n).0.len() <= MAX_ENGLISH_ETYMOLOGIES,
    decreases n,
{
    if n > 0 {
        lemma_english_etymologies_distinct(ms, n - 1);
    }
}

/// The native-editions section takes each lowercase spelling of an edition
/// at most once: the spellings it takes are distinct.
pub proof fn lemma_connections_take_each_spelling_once(
    code: Seq<char>,
    name: Seq<char>,
    ms: Seq<ConnMember>,
    xref: Option<Xref>,
    raw_xref: Xref,
    self_id: usize,
    n: int,
)
    ensures
        edition_scan(code, name, ms, xref, raw_xref, self_id, n).0.no_duplicates(),
    decreases n,
{
    if n > 0 {
        lemma_connections_take_each_spelling_once(code, name, ms, xref, raw_xref, self_id, n - 1);
    }
}

} // verus!

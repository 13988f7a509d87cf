//! The English → Interslavic lookup index: under which English keys each
//! lemma is found, with what rank, and in which order candidates are
//! listed.
//!
//! Every official, official-only or generated lemma record is indexed under
//! the keys of its gloss. A candidate's rank is its status base plus its
//! match kind's bonus plus its probability bonus; per key, entry and form
//! only the best-ranked candidate is kept (the first of equals). Keys come
//! in order, and within a key candidates by descending rank, then lemma,
//! part of speech, entry id and form key.

use vstd::prelude::*;
use crate::english_api::{gloss_keys_spec, key_matches, match_rank_spec, status_rank, status_rank_spec, trust, trust_spec};
use crate::strs::{chars_of, decimal, push_decimal, push_str, str_eq, string_from};

verus! {

/// A lemma record of the forms API, as the English index reads it.
pub struct LemmaRecord {
    pub lemma: String,
    pub entry_id: usize,
    /// Compact part-of-speech code.
    pub pos: String,
    /// The English gloss.
    pub gloss: String,
    /// `official`, `official-only` or `generated`.
    pub status: String,
    /// `lemma` for citation forms.
    pub source: String,
    /// The rank bonus of the record's probability: ten times the
    /// probability, rounded; 0 without one.
    pub probability_bonus: i32,
    /// The folded lemma key of the forms API.
    pub form_key: String,
    /// The forms-API shard of `form_key`.
    pub form_shard: u32,
}

/// Whether a record is indexed at all.
pub open spec fn indexed(r: LemmaRecord) -> bool {
    &&& r.source@ == "lemma"@
    &&& (r.status@ == "official"@ || r.status@ == "official-only"@ || r.status@ == "generated"@)
}

/// One (key, record, match kind, rank) hit.
pub type Hit = (Seq<char>, int, Seq<char>, int);

/// The rank of a record's hit of a given match kind.
pub open spec fn hit_rank(r: LemmaRecord, kind: Seq<char>) -> int {
    status_rank_spec(r.status@) + match_rank_spec(kind) + r.probability_bonus
}

/// Two records' hits of the same match kind and probability bonus rank by
/// status: official above official-only above generated.
pub proof fn lemma_hit_rank_by_status(a: LemmaRecord, b: LemmaRecord, kind: Seq<char>)
    requires
        a.probability_bonus == b.probability_bonus,
    ensures
        a.status@ == "official"@ && b.status@ == "official-only"@ ==> hit_rank(a, kind) > hit_rank(b, kind),
        a.status@ == "official-only"@ && b.status@ == "generated"@ ==> hit_rank(a, kind) > hit_rank(b, kind),
        a.status@ == "official"@ && b.status@ == "generated"@ ==> hit_rank(a, kind) > hit_rank(b, kind),
{
    crate::english_api::lemma_status_rank_order();
}

/// The hits of record `i`: one per gloss key.
pub open spec fn record_hits(recs: Seq<LemmaRecord>, i: int) -> Seq<Hit> {
    if indexed(recs[i]) {
        gloss_keys_spec(recs[i].gloss@).map_values(
            |k: (Seq<char>, Seq<char>)| (k.0, i, k.1, hit_rank(recs[i], k.1)),
        )
    } else {
        Seq::empty()
    }
}

/// The hits of the first `n` records, in order.
pub open spec fn hits_upto(recs: Seq<LemmaRecord>, n: int) -> Seq<Hit>
    decreases n,
{
    if n <= 0 {
        Seq::empty()
    } else {
        hits_upto(recs, n - 1) + record_hits(recs, n - 1)
    }
}

/// All hits of the records.
pub open spec fn all_hits(recs: Seq<LemmaRecord>) -> Seq<Hit> {
    hits_upto(recs, recs.len() as int)
}

/// One hit, held as values.
pub struct HitRow {
    pub key: String,
    pub rec: usize,
    pub kind: String,
    pub rank: i32,
}

/// Hits over plain values.
pub open spec fn rows_view(v: Seq<HitRow>) -> Seq<Hit> {
    v.map_values(|h: HitRow| (h.key@, h.rec as int, h.kind@, h.rank as int))
}

/// The bound on probability bonuses that keeps ranks within `i32`.
pub open spec fn bonus_ok(recs: Seq<LemmaRecord>) -> bool {
    forall|i: int| 0 <= i < recs.len() ==> -1_000_000 <= #[trigger] recs[i].probability_bonus <= 1_000_000
}

/// Every hit of every indexed record, in record order.
fn collect_hits(recs: &Vec<LemmaRecord>) -> (r: Vec<HitRow>)
    requires
        bonus_ok(recs@),
    ensures
        rows_view(r@) == all_hits(recs@),
        forall|h: int| 0 <= h < r@.len() ==> #[trigger] r@[h].rec < recs@.len(),
{
    let mut out: Vec<HitRow> = Vec::new();
    let mut i: usize = 0;
    assert(rows_view(out@) =~= hits_upto(recs@, 0));
    while i < recs.len()
        invariant
            i <= recs@.len(),
            bonus_ok(recs@),
            rows_view(out@) == hits_upto(recs@, i as int),
            forall|h: int| 0 <= h < out@.len() ==> #[trigger] out@[h].rec < recs@.len(),
        decreases recs@.len() - i,
    {
        let rec = &recs[i];
        let ghost before = rows_view(out@);
        let lemma_src = str_eq(rec.source.as_str(), "lemma");
        let st = rec.status.as_str();
        let ok = str_eq(st, "official") || str_eq(st, "official-only") || str_eq(st, "generated");
        if lemma_src && ok {
            let kms = key_matches(rec.gloss.as_str());
            let ghost ks = gloss_keys_spec(rec.gloss@);
            let base = status_rank(st);
            assert(-1_000_000 <= rec.probability_bonus <= 1_000_000);
            let mut k: usize = 0;
            while k < kms.len()
                invariant
                    k <= kms@.len() == ks.len(),
                    ks == gloss_keys_spec(rec.gloss@),
                    i < recs@.len(),
                    *rec == recs@[i as int],
                    indexed(*rec),
                    base == status_rank_spec(rec.status@),
                    -1_000_000 <= rec.probability_bonus <= 1_000_000,
                    forall|j: int|
                        0 <= j < kms@.len() ==> {
                            &&& (#[trigger] kms@[j]).key@ == ks[j].0
                            &&& kms@[j].match_kind@ == ks[j].1
                            &&& kms@[j].match_rank == match_rank_spec(ks[j].1)
                        },
                    rows_view(out@) == before + record_hits(recs@, i as int).take(k as int),
                    forall|h: int| 0 <= h < out@.len() ==> #[trigger] out@[h].rec < recs@.len(),
                decreases kms@.len() - k,
            {
                let km = &kms[k];
                assert(-1000 <= km.match_rank <= 1000);
                assert(-1000 <= base <= 1000);
                let rank: i32 = base + km.match_rank + rec.probability_bonus;
                let ghost o0 = out@;
                out.push(HitRow { key: km.key.clone(), rec: i, kind: km.match_kind.clone(), rank });
                assert(record_hits(recs@, i as int)[k as int] == (ks[k as int].0, i as int, ks[k as int].1, hit_rank(*rec, ks[k as int].1)));
                assert(rows_view(out@) =~= rows_view(o0).push((km.key@, i as int, km.match_kind@, rank as int)));
                assert(record_hits(recs@, i as int).take(k + 1) =~= record_hits(recs@, i as int).take(k as int).push(
                    record_hits(recs@, i as int)[k as int],
                ));
                k += 1;
            }
            assert(record_hits(recs@, i as int).take(k as int) =~= record_hits(recs@, i as int));
        } else {
            assert(record_hits(recs@, i as int) =~= Seq::<Hit>::empty());
            assert(rows_view(out@) =~= before + record_hits(recs@, i as int));
        }
        i += 1;
    }
    out
}


/// Whether hits `i` and `j` compete for one slot: same key, entry and
/// form key.
pub open spec fn same_slot(recs: Seq<LemmaRecord>, all: Seq<Hit>, i: int, j: int) -> bool {
    &&& all[i].0 == all[j].0
    &&& recs[all[i].1].entry_id == recs[all[j].1].entry_id
    &&& recs[all[i].1].form_key@ == recs[all[j].1].form_key@
}

/// Whether hit `i` is the one its slot keeps: the first of the
/// best-ranked.
pub open spec fn winner(recs: Seq<LemmaRecord>, all: Seq<Hit>, i: int) -> bool {
    forall|j: int|
        #![trigger all[j]]
        0 <= j < all.len() && same_slot(recs, all, i, j) ==> (j < i ==> all[j].3 < all[i].3) && (i < j
            ==> all[j].3 <= all[i].3)
}

/// The kept hits among the first `n`, in hit order.
pub open spec fn winners_upto(recs: Seq<LemmaRecord>, all: Seq<Hit>, n: int) -> Seq<int>
    decreases n,
{
    if n <= 0 {
        Seq::empty()
    } else if winner(recs, all, n - 1) {
        winners_upto(recs, all, n - 1).push(n - 1)
    } else {
        winners_upto(recs, all, n - 1)
    }
}

/// Indices over plain values.
pub open spec fn ints(v: Seq<usize>) -> Seq<int> {
    v.map_values(|x: usize| x as int)
}

fn same_slot_exec(recs: &Vec<LemmaRecord>, all: &Vec<HitRow>, i: usize, j: usize) -> (b: bool)
    requires
        i < all@.len(),
        j < all@.len(),
        forall|h: int| 0 <= h < all@.len() ==> #[trigger] all@[h].rec < recs@.len(),
    ensures
        b == same_slot(recs@, rows_view(all@), i as int, j as int),
{
    let a = &all[i];
    let b = &all[j];
    str_eq(a.key.as_str(), b.key.as_str()) && recs[a.rec].entry_id == recs[b.rec].entry_id && str_eq(
        recs[a.rec].form_key.as_str(),
        recs[b.rec].form_key.as_str(),
    )
}

/// The hits each slot keeps, in hit order.
fn winners(recs: &Vec<LemmaRecord>, all: &Vec<HitRow>) -> (r: Vec<usize>)
    requires
        forall|h: int| 0 <= h < all@.len() ==> #[trigger] all@[h].rec < recs@.len(),
    ensures
        ints(r@) == winners_upto(recs@, rows_view(all@), all@.len() as int),
        forall|k: int| 0 <= k < r@.len() ==> #[trigger] r@[k] < all@.len(),
{
    let ghost av = rows_view(all@);
    let mut out: Vec<usize> = Vec::new();
    let mut i: usize = 0;
    assert(ints(out@) =~= winners_upto(recs@, av, 0));
    while i < all.len()
        invariant
            i <= all@.len(),
            av == rows_view(all@),
            forall|h: int| 0 <= h < all@.len() ==> #[trigger] all@[h].rec < recs@.len(),
            ints(out@) == winners_upto(recs@, av, i as int),
            forall|k: int| 0 <= k < out@.len() ==> #[trigger] out@[k] < i,
        decreases all@.len() - i,
    {
        let mut ok = true;
        let mut j: usize = 0;
        while j < all.len() && ok
            invariant
                j <= all@.len(),
                i < all@.len(),
                av == rows_view(all@),
                forall|h: int| 0 <= h < all@.len() ==> #[trigger] all@[h].rec < recs@.len(),
                ok ==> forall|q: int|
                    #![trigger av[q]]
                    0 <= q < j && same_slot(recs@, av, i as int, q) ==> (q < i ==> av[q].3 < av[i as int].3) && (
                    i < q ==> av[q].3 <= av[i as int].3),
                !ok ==> !winner(recs@, av, i as int),
            decreases all@.len() - j,
        {
            if same_slot_exec(recs, all, i, j) {
                let ri = all[i].rank;
                let rj = all[j].rank;
                assert(av[j as int].3 == rj as int && av[i as int].3 == ri as int);
                if (j < i && !(rj < ri)) || (i < j && rj > ri) {
                    ok = false;
                }
            }
            j += 1;
        }
        let ghost before = out@;
        if ok {
            out.push(i);
            assert(ints(out@) =~= ints(before).push(i as int));
        }
        i += 1;
    }
    out
}


/// Lexicographic order of character sequences (the order of `str`).
pub open spec fn seq_lt(a: Seq<char>, b: Seq<char>) -> bool
    decreases a.len(),
{
    if a.len() == 0 {
        b.len() > 0
    } else if b.len() == 0 {
        false
    } else if (a[0] as int) < (b[0] as int) {
        true
    } else if a[0] == b[0] {
        seq_lt(a.skip(1), b.skip(1))
    } else {
        false
    }
}

/// No string sorts before itself.
pub proof fn lemma_seq_lt_irrefl(a: Seq<char>)
    ensures
        !seq_lt(a, a),
    decreases a.len(),
{
    if a.len() > 0 {
        lemma_seq_lt_irrefl(a.skip(1));
    }
}

/// String order is transitive.
pub proof fn lemma_seq_lt_trans(a: Seq<char>, b: Seq<char>, c: Seq<char>)
    requires
        seq_lt(a, b),
        seq_lt(b, c),
    ensures
        seq_lt(a, c),
    decreases a.len(),
{
    if a.len() > 0 && b.len() > 0 && c.len() > 0 {
        if a[0] == b[0] && b[0] == c[0] {
            lemma_seq_lt_trans(a.skip(1), b.skip(1), c.skip(1));
        }
    }
}

/// Of two different strings one sorts before the other.
pub proof fn lemma_seq_lt_total(a: Seq<char>, b: Seq<char>)
    ensures
        a == b || seq_lt(a, b) || seq_lt(b, a),
    decreases a.len(),
{
    if a.len() > 0 && b.len() > 0 {
        if a[0] == b[0] {
            lemma_seq_lt_total(a.skip(1), b.skip(1));
            if a.skip(1) == b.skip(1) {
                assert(a =~= seq![a[0]] + a.skip(1));
                assert(b =~= seq![b[0]] + b.skip(1));
            }
        } else {
            assert((a[0] as int) != (b[0] as int));
        }
    } else if a.len() == 0 && b.len() == 0 {
        assert(a =~= b);
    }
}

/// Whether `a` precedes `b` in `str` order.
pub fn str_lt(a: &str, b: &str) -> (r: bool)
    ensures
        r == seq_lt(a@, b@),
{
    let x = chars_of(a);
    let y = chars_of(b);
    let mut i: usize = 0;
    assert(x@.skip(0) =~= x@);
    assert(y@.skip(0) =~= y@);
    while i < x.len() && i < y.len() && x[i] == y[i]
        invariant
            i <= x@.len(),
            i <= y@.len(),
            x@ == a@,
            y@ == b@,
            seq_lt(a@, b@) == seq_lt(x@.skip(i as int), y@.skip(i as int)),
        decreases x@.len() - i,
    {
        assert(x@.skip(i as int).skip(1) =~= x@.skip(i + 1));
        assert(y@.skip(i as int).skip(1) =~= y@.skip(i + 1));
        i += 1;
    }
    if i == x.len() {
        i < y.len()
    } else if i == y.len() {
        false
    } else {
        assert(x@.skip(i as int)[0] == x@[i as int]);
        assert(y@.skip(i as int)[0] == y@[i as int]);
        x[i] < y[i]
    }
}

/// The listing order of hits: key, then descending rank, then lemma, part
/// of speech, entry id and form key.
pub open spec fn hit_less(recs: Seq<LemmaRecord>, all: Seq<Hit>, a: int, b: int) -> bool {
    let (ha, hb) = (all[a], all[b]);
    let (ra, rb) = (recs[ha.1], recs[hb.1]);
    ||| seq_lt(ha.0, hb.0)
    ||| ha.0 == hb.0 && ha.3 > hb.3
    ||| ha.0 == hb.0 && ha.3 == hb.3 && seq_lt(ra.lemma@, rb.lemma@)
    ||| ha.0 == hb.0 && ha.3 == hb.3 && ra.lemma@ == rb.lemma@ && seq_lt(ra.pos@, rb.pos@)
    ||| ha.0 == hb.0 && ha.3 == hb.3 && ra.lemma@ == rb.lemma@ && ra.pos@ == rb.pos@ && ra.entry_id
        < rb.entry_id
    ||| ha.0 == hb.0 && ha.3 == hb.3 && ra.lemma@ == rb.lemma@ && ra.pos@ == rb.pos@ && ra.entry_id
        == rb.entry_id && seq_lt(ra.form_key@, rb.form_key@)
}

proof fn lemma_hit_less_trans(recs: Seq<LemmaRecord>, all: Seq<Hit>, a: int, b: int, c: int)
    requires
        hit_less(recs, all, a, b),
        hit_less(recs, all, b, c),
    ensures
        hit_less(recs, all, a, c),
{
    let (ha, hb, hc) = (all[a], all[b], all[c]);
    let (ra, rb, rc) = (recs[ha.1], recs[hb.1], recs[hc.1]);
    if seq_lt(ha.0, hb.0) && seq_lt(hb.0, hc.0) {
        lemma_seq_lt_trans(ha.0, hb.0, hc.0);
    }
    if seq_lt(ra.lemma@, rb.lemma@) && seq_lt(rb.lemma@, rc.lemma@) {
        lemma_seq_lt_trans(ra.lemma@, rb.lemma@, rc.lemma@);
    }
    if seq_lt(ra.pos@, rb.pos@) && seq_lt(rb.pos@, rc.pos@) {
        lemma_seq_lt_trans(ra.pos@, rb.pos@, rc.pos@);
    }
    if seq_lt(ra.form_key@, rb.form_key@) && seq_lt(rb.form_key@, rc.form_key@) {
        lemma_seq_lt_trans(ra.form_key@, rb.form_key@, rc.form_key@);
    }
}

proof fn lemma_hit_less_total(recs: Seq<LemmaRecord>, all: Seq<Hit>, a: int, b: int)
    requires
        !same_slot(recs, all, a, b),
    ensures
        hit_less(recs, all, a, b) || hit_less(recs, all, b, a),
{
    let (ha, hb) = (all[a], all[b]);
    let (ra, rb) = (recs[ha.1], recs[hb.1]);
    lemma_seq_lt_total(ha.0, hb.0);
    lemma_seq_lt_total(ra.lemma@, rb.lemma@);
    lemma_seq_lt_total(ra.pos@, rb.pos@);
    lemma_seq_lt_total(ra.form_key@, rb.form_key@);
}

/// Kept hits never share a slot.
proof fn lemma_winners_distinct(recs: Seq<LemmaRecord>, all: Seq<Hit>, a: int, b: int)
    requires
        0 <= a < all.len(),
        0 <= b < all.len(),
        a != b,
        winner(recs, all, a),
        winner(recs, all, b),
    ensures
        !same_slot(recs, all, a, b),
{
    if same_slot(recs, all, a, b) {
        assert(same_slot(recs, all, b, a));
        let _ = all[a];
        let _ = all[b];
    }
}

/// Whether `i` precedes `j` in listing order.
fn hit_less_exec(recs: &Vec<LemmaRecord>, all: &Vec<HitRow>, i: usize, j: usize) -> (b: bool)
    requires
        i < all@.len(),
        j < all@.len(),
        forall|h: int| 0 <= h < all@.len() ==> #[trigger] all@[h].rec < recs@.len(),
    ensures
        b == hit_less(recs@, rows_view(all@), i as int, j as int),
{
    let ha = &all[i];
    let hb = &all[j];
    let ra = &recs[ha.rec];
    let rb = &recs[hb.rec];
    let key_eq = str_eq(ha.key.as_str(), hb.key.as_str());
    let lemma_eq = str_eq(ra.lemma.as_str(), rb.lemma.as_str());
    let pos_eq = str_eq(ra.pos.as_str(), rb.pos.as_str());
    str_lt(ha.key.as_str(), hb.key.as_str()) || (key_eq && ha.rank > hb.rank) || (key_eq && ha.rank
        == hb.rank && str_lt(ra.lemma.as_str(), rb.lemma.as_str())) || (key_eq && ha.rank == hb.rank
        && lemma_eq && str_lt(ra.pos.as_str(), rb.pos.as_str())) || (key_eq && ha.rank == hb.rank
        && lemma_eq && pos_eq && ra.entry_id < rb.entry_id) || (key_eq && ha.rank == hb.rank
        && lemma_eq && pos_eq && ra.entry_id == rb.entry_id && str_lt(
        ra.form_key.as_str(),
        rb.form_key.as_str(),
    ))
}

/// Whether a list of hits is strictly ascending in listing order.
pub open spec fn sorted_hits(recs: Seq<LemmaRecord>, all: Seq<Hit>, s: Seq<int>) -> bool {
    forall|a: int, b: int| 0 <= a < b < s.len() ==> hit_less(recs, all, #[trigger] s[a], #[trigger] s[b])
}

/// The kept hits in listing order.
fn sort_winners(recs: &Vec<LemmaRecord>, all: &Vec<HitRow>, w: &Vec<usize>) -> (r: Vec<usize>)
    requires
        forall|h: int| 0 <= h < all@.len() ==> #[trigger] all@[h].rec < recs@.len(),
        forall|k: int| 0 <= k < w@.len() ==> #[trigger] w@[k] < all@.len(),
        forall|k: int| 0 <= k < w@.len() ==> winner(recs@, rows_view(all@), #[trigger] w@[k] as int),
        ints(w@).no_duplicates(),
    ensures
        r@.len() == w@.len(),
        sorted_hits(recs@, rows_view(all@), ints(r@)),
        forall|x: int| ints(r@).contains(x) <==> ints(w@).contains(x),
        forall|k: int| 0 <= k < r@.len() ==> #[trigger] r@[k] < all@.len(),
{
    let ghost av = rows_view(all@);
    let mut out: Vec<usize> = Vec::new();
    let mut t: usize = 0;
    while t < w.len()
        invariant
            t <= w@.len(),
            av == rows_view(all@),
            out@.len() == t,
            forall|h: int| 0 <= h < all@.len() ==> #[trigger] all@[h].rec < recs@.len(),
            forall|k: int| 0 <= k < w@.len() ==> #[trigger] w@[k] < all@.len(),
            forall|k: int| 0 <= k < w@.len() ==> winner(recs@, av, #[trigger] w@[k] as int),
            ints(w@).no_duplicates(),
            sorted_hits(recs@, av, ints(out@)),
            forall|x: int| ints(out@).contains(x) <==> ints(w@).take(t as int).contains(x),
            forall|k: int| 0 <= k < out@.len() ==> #[trigger] out@[k] < all@.len(),
        decreases w@.len() - t,
    {
        let x = w[t];
        let mut p: usize = 0;
        while p < out.len() && !hit_less_exec(recs, all, x, out[p])
            invariant
                p <= out@.len(),
                x < all@.len(),
                forall|h: int| 0 <= h < all@.len() ==> #[trigger] all@[h].rec < recs@.len(),
                forall|k: int| 0 <= k < out@.len() ==> #[trigger] out@[k] < all@.len(),
                forall|q: int| 0 <= q < p ==> !hit_less(recs@, rows_view(all@), x as int, #[trigger] out@[q] as int),
            decreases out@.len() - p,
        {
            p += 1;
        }
        let ghost o0 = ints(out@);
        proof {
            // x is new, and a winner distinct from every listed one.
            assert(ints(w@)[t as int] == x as int);
            assert(!ints(w@).take(t as int).contains(x as int)) by {
                if ints(w@).take(t as int).contains(x as int) {
                    let q = choose|q: int| 0 <= q < t && ints(w@).take(t as int)[q] == x as int;
                    assert(ints(w@)[q] == ints(w@)[t as int]);
                }
            }
            assert forall|q: int| 0 <= q < o0.len() implies !same_slot(recs@, av, x as int, #[trigger] o0[q]) by {
                assert(o0.contains(o0[q]));
                assert(ints(w@).take(t as int).contains(o0[q]));
                let m = choose|m: int| 0 <= m < t && ints(w@).take(t as int)[m] == o0[q];
                assert(w@[m] as int == o0[q]);
                assert(winner(recs@, av, w@[m] as int));
                assert(o0[q] != x as int);
                lemma_winners_distinct(recs@, av, x as int, o0[q]);
            }
            assert forall|q: int| 0 <= q < p implies hit_less(recs@, av, #[trigger] o0[q], x as int) by {
                assert(o0[q] == out@[q] as int);
                lemma_hit_less_total(recs@, av, x as int, o0[q]);
            }
        }
        out.insert(p, x);
        proof {
            let o1 = ints(out@);
            assert(o1 =~= o0.take(p as int) + seq![x as int] + o0.skip(p as int));
            assert forall|a: int, b: int| 0 <= a < b < o1.len() implies hit_less(recs@, av, #[trigger] o1[a], #[trigger] o1[b]) by {
                if b < p {
                    assert(o1[a] == o0[a] && o1[b] == o0[b]);
                } else if b == p {
                    assert(o1[a] == o0[a]);
                } else if a < p {
                    assert(o1[a] == o0[a] && o1[b] == o0[b - 1]);
                } else if a == p {
                    assert(o1[b] == o0[b - 1]);
                    if b - 1 > p {
                        assert(hit_less(recs@, av, o0[p as int], o0[b - 1]));
                        lemma_hit_less_trans(recs@, av, x as int, o0[p as int], o0[b - 1]);
                    }
                } else {
                    assert(o1[a] == o0[a - 1] && o1[b] == o0[b - 1]);
                }
            }
            assert forall|y: int| o1.contains(y) <==> ints(w@).take(t + 1).contains(y) by {
                assert(ints(w@).take(t + 1) =~= ints(w@).take(t as int).push(x as int));
                if o1.contains(y) {
                    let k = choose|k: int| 0 <= k < o1.len() && o1[k] == y;
                    if k < p {
                        assert(o0[k] == y);
                        assert(o0.contains(y));
                    } else if k > p {
                        assert(o0[k - 1] == y);
                        assert(o0.contains(y));
                    }
                    if y != x as int {
                        assert(ints(w@).take(t as int).contains(y));
                        let m = choose|m: int| 0 <= m < t && ints(w@).take(t as int)[m] == y;
                        assert(ints(w@).take(t + 1)[m] == y);
                    } else {
                        assert(ints(w@).take(t + 1)[t as int] == y);
                    }
                }
                if ints(w@).take(t + 1).contains(y) {
                    let wt = ints(w@).take(t + 1);
                    let m = choose|m: int| 0 <= m < wt.len() && wt[m] == y;
                    if m == t {
                        assert(o1[p as int] == y);
                    } else {
                        assert(ints(w@).take(t as int)[m] == y);
                        assert(o0.contains(y));
                        let k = choose|k: int| 0 <= k < o0.len() && o0[k] == y;
                        if k < p {
                            assert(o1[k] == y);
                        } else {
                            assert(o1[k + 1] == y);
                        }
                    }
                }
            }
            assert forall|k: int| 0 <= k < out@.len() implies #[trigger] out@[k] < all@.len() by {
                assert(o1[k] == out@[k] as int);
                if k < p {
                    assert(o1[k] == o0[k]);
                } else if k > p {
                    assert(o1[k] == o0[k - 1]);
                }
            }
        }
        t += 1;
    }
    assert(ints(w@).take(t as int) =~= ints(w@));
    out
}


/// What the site knows of an entry: the official sense it shows.
pub struct EntryMeta {
    pub id: usize,
    pub official_sense_id: Option<String>,
}

/// A verb entry's aspect and its aspect partners `(entry id, lemma)`.
pub struct AspectInfo {
    pub entry_id: usize,
    pub aspect: String,
    pub partners: Vec<(usize, String)>,
}

/// A semantic-trap note on a form key.
pub struct SemanticNote {
    pub key: String,
    pub warning: String,
    pub prefer: Vec<String>,
}

/// One candidate lemma listed under an English key.
pub struct EnglishCandidate {
    pub lemma: String,
    pub entry_id: usize,
    pub official_id: Option<String>,
    pub pos: String,
    pub gloss: String,
    pub status: String,
    pub trust: String,
    pub rank: i32,
    pub match_kind: String,
    pub aspect: Option<String>,
    pub aspect_partners: Vec<(usize, String)>,
    pub warnings: Vec<String>,
    pub prefer: Vec<String>,
    pub form_key: String,
    pub form_shard: u32,
    /// `api/forms/<shard>.json`.
    pub form_path: String,
    /// The index of the lemma record the candidate comes from.
    pub record: usize,
}

/// An optional string over plain values.
pub open spec fn opt_view(o: Option<String>) -> Option<Seq<char>> {
    match o {
        Some(s) => Some(s@),
        None => None,
    }
}

/// Strings over plain values.
pub open spec fn sv(v: Seq<String>) -> Seq<Seq<char>> {
    v.map_values(|s: String| s@)
}

/// Aspect partners over plain values.
pub open spec fn partners_view(v: Seq<(usize, String)>) -> Seq<(usize, Seq<char>)> {
    v.map_values(|p: (usize, String)| (p.0, p.1@))
}

/// The official sense of entry `id`, from the last meta naming it.
pub open spec fn meta_sense(metas: Seq<EntryMeta>, id: usize) -> Option<Seq<char>>
    decreases metas.len(),
{
    if metas.len() == 0 {
        None
    } else if metas.last().id == id {
        opt_view(metas.last().official_sense_id)
    } else {
        meta_sense(metas.drop_last(), id)
    }
}

/// The aspect of entry `id`, from the last record naming it.
pub open spec fn aspect_of(aspects: Seq<AspectInfo>, id: usize) -> Option<(Seq<char>, Seq<(usize, Seq<char>)>)>
    decreases aspects.len(),
{
    if aspects.len() == 0 {
        None
    } else if aspects.last().entry_id == id {
        Some((aspects.last().aspect@, partners_view(aspects.last().partners@)))
    } else {
        aspect_of(aspects.drop_last(), id)
    }
}

/// The note on a form key, from the last note naming it.
pub open spec fn note_of(notes: Seq<SemanticNote>, key: Seq<char>) -> Option<(Seq<char>, Seq<Seq<char>>)>
    decreases notes.len(),
{
    if notes.len() == 0 {
        None
    } else if notes.last().key@ == key {
        Some((notes.last().warning@, sv(notes.last().prefer@)))
    } else {
        note_of(notes.drop_last(), key)
    }
}

/// Whether a status is one of the verified ones.
pub open spec fn verified(status: Seq<char>) -> bool {
    status == "official"@ || status == "official-only"@
}

/// Whether candidate `c` is hit `h` with everything the site knows of it.
pub open spec fn cand_is(
    c: EnglishCandidate,
    h: int,
    recs: Seq<LemmaRecord>,
    all: Seq<Hit>,
    metas: Seq<EntryMeta>,
    aspects: Seq<AspectInfo>,
    notes: Seq<SemanticNote>,
) -> bool {
    let r = all[h].1;
    let rec = recs[r];
    let asp = if rec.pos@ == "verb"@ && verified(rec.status@) { aspect_of(aspects, rec.entry_id) } else { None };
    let note = note_of(notes, rec.form_key@);
    &&& c.record == r
    &&& c.lemma@ == rec.lemma@
    &&& c.entry_id == rec.entry_id
    &&& opt_view(c.official_id) == (if verified(rec.status@) { meta_sense(metas, rec.entry_id) } else { None })
    &&& c.pos@ == rec.pos@
    &&& c.gloss@ == rec.gloss@
    &&& c.status@ == rec.status@
    &&& c.trust@ == trust_spec(rec.status@)
    &&& c.rank == all[h].3
    &&& c.match_kind@ == all[h].2
    &&& opt_view(c.aspect) == (match asp {
        Some(a) => Some(a.0),
        None => None,
    })
    &&& partners_view(c.aspect_partners@) == (match asp {
        Some(a) => a.1,
        None => Seq::empty(),
    })
    &&& sv(c.warnings@) == (match note {
        Some(n) => seq![n.0],
        None => Seq::empty(),
    })
    &&& sv(c.prefer@) == (match note {
        Some(n) => n.1,
        None => Seq::empty(),
    })
    &&& c.form_key@ == rec.form_key@
    &&& c.form_shard == rec.form_shard
    &&& c.form_path@ == "api/forms/"@ + decimal(rec.form_shard as nat) + ".json"@
}

/// A copy of a string.
pub fn copy_string(s: &String) -> (r: String)
    ensures
        r@ == s@,
{
    s.clone()
}

fn copy_opt(o: &Option<String>) -> (r: Option<String>)
    ensures
        opt_view(r) == opt_view(*o),
{
    match o {
        Some(s) => Some(s.clone()),
        None => None,
    }
}

/// A copy of a list of strings.
pub fn copy_strings(v: &Vec<String>) -> (r: Vec<String>)
    ensures
        sv(r@) == sv(v@),
{
    let mut out: Vec<String> = Vec::new();
    let mut i: usize = 0;
    while i < v.len()
        invariant
            i <= v@.len(),
            sv(out@) == sv(v@).take(i as int),
        decreases v@.len() - i,
    {
        let ghost before = out@;
        out.push(v[i].clone());
        assert(sv(out@) =~= sv(before).push(v@[i as int]@));
        assert(sv(v@).take(i + 1) =~= sv(v@).take(i as int).push(v@[i as int]@));
        assert(sv(out@) =~= sv(v@).take(i + 1));
        i += 1;
    }
    assert(sv(v@).take(i as int) =~= sv(v@));
    out
}

fn copy_partners(v: &Vec<(usize, String)>) -> (r: Vec<(usize, String)>)
    ensures
        partners_view(r@) == partners_view(v@),
{
    let mut out: Vec<(usize, String)> = Vec::new();
    let mut i: usize = 0;
    while i < v.len()
        invariant
            i <= v@.len(),
            partners_view(out@) == partners_view(v@).take(i as int),
        decreases v@.len() - i,
    {
        let ghost before = out@;
        out.push((v[i].0, v[i].1.clone()));
        assert(partners_view(out@) =~= partners_view(before).push((v@[i as int].0, v@[i as int].1@)));
        assert(partners_view(v@).take(i + 1) =~= partners_view(v@).take(i as int).push((v@[i as int].0, v@[i as int].1@)));
        assert(partners_view(out@) =~= partners_view(v@).take(i + 1));
        i += 1;
    }
    assert(partners_view(v@).take(i as int) =~= partners_view(v@));
    out
}

fn find_meta(metas: &Vec<EntryMeta>, id: usize) -> (r: Option<String>)
    ensures
        opt_view(r) == meta_sense(metas@, id),
{
    let mut j: usize = metas.len();
    assert(metas@.take(j as int) =~= metas@);
    while j > 0
        invariant
            j <= metas@.len(),
            meta_sense(metas@, id) == meta_sense(metas@.take(j as int), id),
        decreases j,
    {
        assert(metas@.take(j as int).drop_last() =~= metas@.take(j - 1));
        if metas[j - 1].id == id {
            return copy_opt(&metas[j - 1].official_sense_id);
        }
        j -= 1;
    }
    None
}

fn find_aspect(aspects: &Vec<AspectInfo>, id: usize) -> (r: Option<(String, Vec<(usize, String)>)>)
    ensures
        match r {
            Some(a) => aspect_of(aspects@, id) == Some((a.0@, partners_view(a.1@))),
            None => aspect_of(aspects@, id) is None,
        },
{
    let mut j: usize = aspects.len();
    assert(aspects@.take(j as int) =~= aspects@);
    while j > 0
        invariant
            j <= aspects@.len(),
            aspect_of(aspects@, id) == aspect_of(aspects@.take(j as int), id),
        decreases j,
    {
        assert(aspects@.take(j as int).drop_last() =~= aspects@.take(j - 1));
        if aspects[j - 1].entry_id == id {
            return Some((copy_string(&aspects[j - 1].aspect), copy_partners(&aspects[j - 1].partners)));
        }
        j -= 1;
    }
    None
}

fn find_note(notes: &Vec<SemanticNote>, key: &str) -> (r: Option<(String, Vec<String>)>)
    ensures
        match r {
            Some(n) => note_of(notes@, key@) == Some((n.0@, sv(n.1@))),
            None => note_of(notes@, key@) is None,
        },
{
    let mut j: usize = notes.len();
    assert(notes@.take(j as int) =~= notes@);
    while j > 0
        invariant
            j <= notes@.len(),
            note_of(notes@, key@) == note_of(notes@.take(j as int), key@),
        decreases j,
    {
        assert(notes@.take(j as int).drop_last() =~= notes@.take(j - 1));
        if str_eq(notes[j - 1].key.as_str(), key) {
            return Some((copy_string(&notes[j - 1].warning), copy_strings(&notes[j - 1].prefer)));
        }
        j -= 1;
    }
    None
}

/// The candidate for hit `h`.
fn make_candidate(
    recs: &Vec<LemmaRecord>,
    all: &Vec<HitRow>,
    metas: &Vec<EntryMeta>,
    aspects: &Vec<AspectInfo>,
    notes: &Vec<SemanticNote>,
    h: usize,
) -> (c: EnglishCandidate)
    requires
        h < all@.len(),
        forall|k: int| 0 <= k < all@.len() ==> #[trigger] all@[k].rec < recs@.len(),
    ensures
        cand_is(c, h as int, recs@, rows_view(all@), metas@, aspects@, notes@),
{
    let hit = &all[h];
    let rec = &recs[hit.rec];
    let st = rec.status.as_str();
    let is_verified = str_eq(st, "official") || str_eq(st, "official-only");
    let official_id = if is_verified { find_meta(metas, rec.entry_id) } else { None };
    let (aspect, aspect_partners) = if str_eq(rec.pos.as_str(), "verb") && is_verified {
        match find_aspect(aspects, rec.entry_id) {
            Some(a) => (Some(a.0), a.1),
            None => (None, Vec::new()),
        }
    } else {
        (None, Vec::new())
    };
    let (warnings, prefer) = match find_note(notes, rec.form_key.as_str()) {
        Some(n) => {
            let mut w: Vec<String> = Vec::new();
            w.push(n.0);
            (w, n.1)
        },
        None => (Vec::new(), Vec::new()),
    };
    let mut form_path = string_from("api/forms/");
    push_decimal(&mut form_path, rec.form_shard as usize);
    push_str(&mut form_path, ".json");
    let c = EnglishCandidate {
        lemma: copy_string(&rec.lemma),
        entry_id: rec.entry_id,
        official_id,
        pos: copy_string(&rec.pos),
        gloss: copy_string(&rec.gloss),
        status: copy_string(&rec.status),
        trust: string_from(trust(st)),
        rank: hit.rank,
        match_kind: copy_string(&hit.kind),
        aspect,
        aspect_partners,
        warnings,
        prefer,
        form_key: copy_string(&rec.form_key),
        form_shard: rec.form_shard,
        form_path,
        record: hit.rec,
    };
    assert(sv(c.warnings@) =~= match note_of(notes@, rec.form_key@) {
        Some(n) => seq![n.0],
        None => Seq::<Seq<char>>::empty(),
    });
    assert(partners_view(c.aspect_partners@) =~= match (if rec.pos@ == "verb"@ && verified(rec.status@) {
        aspect_of(aspects@, rec.entry_id)
    } else {
        None
    }) {
        Some(a) => a.1,
        None => Seq::<(usize, Seq<char>)>::empty(),
    });
    assert(sv(c.prefer@) =~= match note_of(notes@, rec.form_key@) {
        Some(n) => n.1,
        None => Seq::<Seq<char>>::empty(),
    });
    c
}



/// Whether candidate `c`, listed under `key`, is a kept hit under that key
/// with everything the site knows of it.
pub open spec fn from_winner(
    c: EnglishCandidate,
    key: Seq<char>,
    recs: Seq<LemmaRecord>,
    all: Seq<Hit>,
    metas: Seq<EntryMeta>,
    aspects: Seq<AspectInfo>,
    notes: Seq<SemanticNote>,
) -> bool {
    exists|h: int|
        #![trigger cand_is(c, h, recs, all, metas, aspects, notes)]
        0 <= h < all.len() && winner(recs, all, h) && all[h].0 == key && cand_is(c, h, recs, all, metas, aspects, notes)
}

/// A kept hit is the origin of its candidate.
proof fn lemma_from_winner(
    c: EnglishCandidate,
    h: int,
    recs: Seq<LemmaRecord>,
    all: Seq<Hit>,
    metas: Seq<EntryMeta>,
    aspects: Seq<AspectInfo>,
    notes: Seq<SemanticNote>,
)
    requires
        0 <= h < all.len(),
        winner(recs, all, h),
        cand_is(c, h, recs, all, metas, aspects, notes),
    ensures
        from_winner(c, all[h].0, recs, all, metas, aspects, notes),
{
}

/// The listing order of candidates under one key: descending rank, then
/// lemma, part of speech, entry id and form key.
pub open spec fn cand_less(a: EnglishCandidate, b: EnglishCandidate) -> bool {
    ||| a.rank > b.rank
    ||| a.rank == b.rank && seq_lt(a.lemma@, b.lemma@)
    ||| a.rank == b.rank && a.lemma@ == b.lemma@ && seq_lt(a.pos@, b.pos@)
    ||| a.rank == b.rank && a.lemma@ == b.lemma@ && a.pos@ == b.pos@ && a.entry_id < b.entry_id
    ||| a.rank == b.rank && a.lemma@ == b.lemma@ && a.pos@ == b.pos@ && a.entry_id == b.entry_id && seq_lt(
        a.form_key@,
        b.form_key@,
    )
}

/// The English index: keys with their candidates.
pub type EnglishIndex = Vec<(String, Vec<EnglishCandidate>)>;

/// The number of candidates in an index.
pub open spec fn index_total(r: Seq<(String, Vec<EnglishCandidate>)>) -> int
    decreases r.len(),
{
    if r.len() == 0 {
        0
    } else {
        index_total(r.drop_last()) + r.last().1@.len()
    }
}

/// A kept hit is a hit.
proof fn lemma_winners_upto(recs: Seq<LemmaRecord>, all: Seq<Hit>, n: int)
    ensures
        forall|x: int| #[trigger] winners_upto(recs, all, n).contains(x) ==> 0 <= x < n && winner(recs, all, x),
        winners_upto(recs, all, n).no_duplicates(),
    decreases n,
{
    if n > 0 {
        lemma_winners_upto(recs, all, n - 1);
        let pre = winners_upto(recs, all, n - 1);
        if winner(recs, all, n - 1) {
            let cur = pre.push(n - 1);
            assert forall|x: int| #[trigger] cur.contains(x) implies 0 <= x < n && winner(recs, all, x) by {
                let k = choose|k: int| 0 <= k < cur.len() && cur[k] == x;
                if k < pre.len() {
                    assert(pre[k] == x);
                    assert(pre.contains(x));
                }
            }
            assert forall|a: int, b: int| 0 <= a < cur.len() && 0 <= b < cur.len() && a != b implies cur[a] != cur[b] by {
                if a < pre.len() && b < pre.len() {
                } else if a < pre.len() {
                    assert(pre.contains(pre[a]));
                } else {
                    assert(pre.contains(pre[b]));
                }
            }
        }
    }
}

/// Under one key, the hit order is the candidate order.
proof fn lemma_cand_less(
    recs: Seq<LemmaRecord>,
    all: Seq<Hit>,
    metas: Seq<EntryMeta>,
    aspects: Seq<AspectInfo>,
    notes: Seq<SemanticNote>,
    a: EnglishCandidate,
    b: EnglishCandidate,
    ha: int,
    hb: int,
)
    requires
        cand_is(a, ha, recs, all, metas, aspects, notes),
        cand_is(b, hb, recs, all, metas, aspects, notes),
        all[ha].0 == all[hb].0,
        hit_less(recs, all, ha, hb),
    ensures
        cand_less(a, b),
{
    lemma_seq_lt_irrefl(all[ha].0);
}

/// Builds the English index from the lemma records. Each official,
/// official-only or generated citation-form record is indexed under the
/// keys of its gloss with rank `status base + match bonus + probability
/// bonus`; per (key, entry, form key) the best-ranked hit is kept, the first
/// of equals. Keys are listed in order; under each key candidates by
/// descending rank, then lemma, part of speech, entry id and form key. A
/// candidate carries the entry's official sense (verified statuses), the
/// aspect of a verified verb, and the semantic note on its form key.
pub fn build_english_index(
    recs: &Vec<LemmaRecord>,
    metas: &Vec<EntryMeta>,
    aspects: &Vec<AspectInfo>,
    notes: &Vec<SemanticNote>,
) -> (r: EnglishIndex)
    requires
        bonus_ok(recs@),
    ensures
        forall|g: int, h: int| 0 <= g < h < r@.len() ==> seq_lt((#[trigger] r@[g]).0@, (#[trigger] r@[h]).0@),
        forall|g: int| 0 <= g < r@.len() ==> (#[trigger] r@[g]).1@.len() > 0,
        forall|g: int, a: int, b: int|
            0 <= g < r@.len() && 0 <= a < b < r@[g].1@.len() ==> cand_less(
                #[trigger] r@[g].1@[a],
                #[trigger] r@[g].1@[b],
            ),
        forall|g: int, i: int|
            0 <= g < r@.len() && 0 <= i < r@[g].1@.len() ==> from_winner(
                #[trigger] r@[g].1@[i],
                r@[g].0@,
                recs@,
                all_hits(recs@),
                metas@,
                aspects@,
                notes@,
            ),
        index_total(r@) == winners_upto(recs@, all_hits(recs@), all_hits(recs@).len() as int).len(),
{
    let all = collect_hits(recs);
    let ghost av = rows_view(all@);
    let w = winners(recs, &all);
    proof {
        lemma_winners_upto(recs@, av, av.len() as int);
        assert forall|k: int| 0 <= k < w@.len() implies winner(recs@, av, #[trigger] w@[k] as int) by {
            assert(ints(w@)[k] == w@[k] as int);
            assert(ints(w@).contains(w@[k] as int));
        }
    }
    let s = sort_winners(recs, &all, &w);
    let ghost sh = ints(s@);
    proof {
        assert forall|k: int| 0 <= k < sh.len() implies winner(recs@, av, #[trigger] sh[k]) && 0 <= sh[k] < av.len() by {
            assert(sh.contains(sh[k]));
            assert(ints(w@).contains(sh[k]));
        }
    }
    let mut out: Vec<(String, Vec<EnglishCandidate>)> = Vec::new();
    let mut cur_key = String::new();
    let mut cur: Vec<EnglishCandidate> = Vec::new();
    let ghost mut cs: int = 0;
    let mut t: usize = 0;
    while t < s.len()
        invariant
            t <= s@.len(),
            sh == ints(s@),
            av == rows_view(all@),
            av == all_hits(recs@),
            sorted_hits(recs@, av, sh),
            forall|k: int| 0 <= k < sh.len() ==> winner(recs@, av, #[trigger] sh[k]) && 0 <= sh[k] < av.len(),
            forall|k: int| 0 <= k < s@.len() ==> #[trigger] s@[k] < all@.len(),
            forall|k: int| 0 <= k < all@.len() ==> #[trigger] all@[k].rec < recs@.len(),
            cur@.len() == 0 ==> t == 0 && out@.len() == 0,
            cur@.len() > 0 ==> 0 <= cs < t && cur@.len() == t - cs && cur_key@ == av[sh[t - 1]].0,
            forall|k: int| 0 <= k < cur@.len() ==> cand_is(#[trigger] cur@[k], sh[cs + k], recs@, av, metas@, aspects@, notes@)
                && av[sh[cs + k]].0 == cur_key@,
            forall|g: int| 0 <= g < out@.len() ==> seq_lt((#[trigger] out@[g]).0@, cur_key@),
            forall|g: int, h: int| 0 <= g < h < out@.len() ==> seq_lt((#[trigger] out@[g]).0@, (#[trigger] out@[h]).0@),
            forall|g: int| 0 <= g < out@.len() ==> (#[trigger] out@[g]).1@.len() > 0,
            forall|g: int, a: int, b: int|
                0 <= g < out@.len() && 0 <= a < b < out@[g].1@.len() ==> cand_less(
                    #[trigger] out@[g].1@[a],
                    #[trigger] out@[g].1@[b],
                ),
            forall|g: int, i: int|
                0 <= g < out@.len() && 0 <= i < out@[g].1@.len() ==> from_winner(
                    #[trigger] out@[g].1@[i],
                    out@[g].0@,
                    recs@,
                    av,
                    metas@,
                    aspects@,
                    notes@,
                ),
            index_total(out@) + cur@.len() == t,
        decreases s@.len() - t,
    {
        let h = s[t];
        assert(sh[t as int] == h as int);
        let c = make_candidate(recs, &all, metas, aspects, notes, h);
        if cur.len() > 0 && str_eq(cur_key.as_str(), all[h].key.as_str()) {
            proof {
                assert forall|k: int| 0 <= k < cur@.len() implies cand_less(#[trigger] cur@[k], c) by {
                    assert(hit_less(recs@, av, sh[cs + k], sh[t as int]));
                    lemma_cand_less(recs@, av, metas@, aspects@, notes@, cur@[k], c, sh[cs + k], h as int);
                }
            }
            let ghost c0 = cur@;
            cur.push(c);
            assert forall|k: int| 0 <= k < cur@.len() implies cand_is(#[trigger] cur@[k], sh[cs + k], recs@, av, metas@, aspects@, notes@)
                && av[sh[cs + k]].0 == cur_key@ by {
                if k < c0.len() {
                    assert(cur@[k] == c0[k]);
                }
            }
        } else {
            let ghost o0 = out@;
            if cur.len() > 0 {
                proof {
                    assert(hit_less(recs@, av, sh[t - 1], sh[t as int]));
                    assert(seq_lt(cur_key@, av[h as int].0));
                    assert forall|a: int, b: int| 0 <= a < b < cur@.len() implies cand_less(#[trigger] cur@[a], #[trigger] cur@[b]) by {
                        assert(hit_less(recs@, av, sh[cs + a], sh[cs + b]));
                        lemma_cand_less(recs@, av, metas@, aspects@, notes@, cur@[a], cur@[b], sh[cs + a], sh[cs + b]);
                    }
                }
                let k0 = cur_key;
                let g0 = cur;
                let ghost kv = k0@;
                let ghost gv = g0@;
                out.push((k0, g0));
                proof {
                    assert(out@[o0.len() as int].0@ == kv);
                    assert(out@[o0.len() as int].1@ == gv);
                    assert forall|g: int| 0 <= g < out@.len() implies seq_lt((#[trigger] out@[g]).0@, av[h as int].0) by {
                        if g < o0.len() {
                            assert(out@[g] == o0[g]);
                            lemma_seq_lt_trans(o0[g].0@, kv, av[h as int].0);
                        }
                    }
                    assert forall|g: int, hh: int| 0 <= g < hh < out@.len() implies seq_lt((#[trigger] out@[g]).0@, (#[trigger] out@[hh]).0@) by {
                        if hh < o0.len() {
                            assert(out@[g] == o0[g] && out@[hh] == o0[hh]);
                        } else {
                            assert(out@[g] == o0[g]);
                        }
                    }
                    assert forall|g: int| 0 <= g < out@.len() implies (#[trigger] out@[g]).1@.len() > 0 by {
                        if g < o0.len() {
                            assert(out@[g] == o0[g]);
                        }
                    }
                    assert forall|g: int, a: int, b: int|
                        0 <= g < out@.len() && 0 <= a < b < out@[g].1@.len() implies cand_less(
                            #[trigger] out@[g].1@[a],
                            #[trigger] out@[g].1@[b],
                        ) by {
                        if g < o0.len() {
                            assert(out@[g] == o0[g]);
                        }
                    }
                    assert forall|g: int, i: int|
                        0 <= g < out@.len() && 0 <= i < out@[g].1@.len() implies from_winner(
                            #[trigger] out@[g].1@[i],
                            out@[g].0@,
                            recs@,
                            av,
                            metas@,
                            aspects@,
                            notes@,
                        ) by {
                        if g < o0.len() {
                            assert(out@[g] == o0[g]);
                        } else {
                            assert(out@[g].1@[i] == gv[i]);
                            assert(cand_is(gv[i], sh[cs + i], recs@, av, metas@, aspects@, notes@));
                            assert(winner(recs@, av, sh[cs + i]));
                            lemma_from_winner(gv[i], sh[cs + i], recs@, av, metas@, aspects@, notes@);
                        }
                    }
                    assert(out@.drop_last() =~= o0);
                }
            } else {
                proof {
                    lemma_seq_lt_irrefl(av[h as int].0);
                }
            }
            cur_key = copy_string(&all[h].key);
            cur = Vec::new();
            cur.push(c);
            proof {
                cs = t as int;
            }
        }
        t += 1;
    }
    if cur.len() > 0 {
        let ghost o0 = out@;
        proof {
            assert forall|a: int, b: int| 0 <= a < b < cur@.len() implies cand_less(#[trigger] cur@[a], #[trigger] cur@[b]) by {
                assert(hit_less(recs@, av, sh[cs + a], sh[cs + b]));
                lemma_cand_less(recs@, av, metas@, aspects@, notes@, cur@[a], cur@[b], sh[cs + a], sh[cs + b]);
            }
        }
        let ghost kv = cur_key@;
        let ghost gv = cur@;
        out.push((cur_key, cur));
        proof {
            assert(out@[o0.len() as int].0@ == kv);
            assert(out@[o0.len() as int].1@ == gv);
            assert forall|g: int, hh: int| 0 <= g < hh < out@.len() implies seq_lt((#[trigger] out@[g]).0@, (#[trigger] out@[hh]).0@) by {
                if hh < o0.len() {
                    assert(out@[g] == o0[g] && out@[hh] == o0[hh]);
                } else {
                    assert(out@[g] == o0[g]);
                }
            }
            assert forall|g: int| 0 <= g < out@.len() implies (#[trigger] out@[g]).1@.len() > 0 by {
                if g < o0.len() {
                    assert(out@[g] == o0[g]);
                }
            }
            assert forall|g: int, a: int, b: int|
                0 <= g < out@.len() && 0 <= a < b < out@[g].1@.len() implies cand_less(
                    #[trigger] out@[g].1@[a],
                    #[trigger] out@[g].1@[b],
                ) by {
                if g < o0.len() {
                    assert(out@[g] == o0[g]);
                }
            }
            assert forall|g: int, i: int|
                0 <= g < out@.len() && 0 <= i < out@[g].1@.len() implies from_winner(
                    #[trigger] out@[g].1@[i],
                    out@[g].0@,
                    recs@,
                    av,
                    metas@,
                    aspects@,
                    notes@,
                ) by {
                if g < o0.len() {
                    assert(out@[g] == o0[g]);
                } else {
                    assert(out@[g].1@[i] == gv[i]);
                    assert(cand_is(gv[i], sh[cs + i], recs@, av, metas@, aspects@, notes@));
                    assert(winner(recs@, av, sh[cs + i]));
                    lemma_from_winner(gv[i], sh[cs + i], recs@, av, metas@, aspects@, notes@);
                }
            }
            assert(out@.drop_last() =~= o0);
        }
    }
    out
}

} // verus!

//! Generated derivatives off attested bases: a regular family member ships
//! as a generated lemma only when its form key is not yet in the form index,
//! so a derivative never collides with an attested or official form.

use vstd::prelude::*;
use crate::layout::{truncate, truncate_spec};
use crate::strs::{chars_of, has_char, push_str, str_eq, string_from, trim, trim_spec};

verus! {

/// One regular family member derived from an attested base.
pub struct DerivedWord {
    /// The base's page id.
    pub base_id: usize,
    /// The base lemma.
    pub base: String,
    /// The base's gloss.
    pub base_gloss: String,
    /// The derived form as the derivation wrote it.
    pub form: String,
    /// The form-index key of the trimmed form.
    pub key: String,
    /// The derivation pattern's name.
    pub pattern: String,
    /// The pattern's human label.
    pub label: String,
    /// The derived word's part-of-speech code.
    pub pos_code: String,
}

/// A generated derivative as it ships to the form and lemma indexes: always
/// a `lemma` record of status `generated`, with `deriv:` provenance; its
/// probability is the pattern's.
pub struct DerivativeRecord {
    pub form: String,
    pub key: String,
    pub feats: String,
    pub lemma: String,
    pub entry_id: usize,
    pub pos_code: String,
    pub source: String,
    pub status: String,
    pub pattern: String,
    pub gloss: String,
}

/// Whether a trimmed derived form can ship: not empty, one word, and free of
/// the `!` and `#` markers.
pub open spec fn shippable(form: Seq<char>) -> bool {
    form.len() > 0 && !form.contains(' ') && !form.contains('!') && !form.contains('#')
}

/// The record of a derivative, over plain values.
pub open spec fn record_spec(d: DerivedWord) -> (Seq<char>, Seq<char>, Seq<char>, Seq<char>, usize, Seq<char>, Seq<char>, Seq<char>, Seq<char>, Seq<char>) {
    let form = trim_spec(d.form@);
    (
        form,
        d.key@,
        "deriv:"@ + d.pattern@,
        form,
        d.base_id,
        d.pos_code@,
        "lemma"@,
        "generated"@,
        d.pattern@,
        d.label@ + " ← "@ + d.base@ + " ("@ + truncate_spec(d.base_gloss@, 50) + ")"@,
    )
}

/// Records over plain values.
pub open spec fn records_view(rs: Seq<DerivativeRecord>) -> Seq<(Seq<char>, Seq<char>, Seq<char>, Seq<char>, usize, Seq<char>, Seq<char>, Seq<char>, Seq<char>, Seq<char>)> {
    rs.map_values(|r: DerivativeRecord| (r.form@, r.key@, r.feats@, r.lemma@, r.entry_id, r.pos_code@, r.source@, r.status@, r.pattern@, r.gloss@))
}

/// The taken keys and the shipped records after the first `n` derived
/// words.
pub open spec fn inject_spec(
    taken: Seq<Seq<char>>,
    derived: Seq<DerivedWord>,
    n: int,
) -> (Seq<Seq<char>>, Seq<(Seq<char>, Seq<char>, Seq<char>, Seq<char>, usize, Seq<char>, Seq<char>, Seq<char>, Seq<char>, Seq<char>)>)
    decreases n,
{
    if n <= 0 {
        (taken, Seq::empty())
    } else {
        let (t, out) = inject_spec(taken, derived, n - 1);
        let d = derived[n - 1];
        if !shippable(trim_spec(d.form@)) || d.key@.len() == 0 || t.contains(d.key@) {
            (t, out)
        } else {
            (t.push(d.key@), out.push(record_spec(d)))
        }
    }
}

/// Whether `v` is one of `taken`.
fn is_taken(taken: &Vec<String>, v: &str) -> (r: bool)
    ensures
        r == taken@.map_values(|s: String| s@).contains(v@),
{
    let ghost tv = taken@.map_values(|s: String| s@);
    let mut k: usize = 0;
    while k < taken.len()
        invariant
            k <= taken@.len(),
            tv == taken@.map_values(|s: String| s@),
            forall|j: int| 0 <= j < k ==> tv[j] != v@,
        decreases taken@.len() - k,
    {
        if str_eq(taken[k].as_str(), v) {
            assert(tv[k as int] == v@);
            return true;
        }
        k += 1;
    }
    false
}

/// Adds the generated derivatives that do not collide with a taken form
/// key: a derived word ships when its trimmed form is a single word without
/// markers and its key is new; its key is then taken, so a later duplicate
/// is dropped too. Returns the shipped records, in order; their number is
/// what the export counts as added.
pub fn inject_generated_derivatives(taken: &mut Vec<String>, derived: &Vec<DerivedWord>) -> (r: Vec<DerivativeRecord>)
    ensures
        ({
            let (t, out) = inject_spec(old(taken)@.map_values(|s: String| s@), derived@, derived@.len() as int);
            &&& final(taken)@.map_values(|s: String| s@) == t
            &&& records_view(r@) == out
        }),
{
    let ghost t0 = taken@.map_values(|s: String| s@);
    let mut out: Vec<DerivativeRecord> = Vec::new();
    let mut i: usize = 0;
    assert(records_view(out@) =~= Seq::empty());
    while i < derived.len()
        invariant
            i <= derived@.len(),
            ({
                let (t, o) = inject_spec(t0, derived@, i as int);
                &&& taken@.map_values(|s: String| s@) == t
                &&& records_view(out@) == o
            }),
        decreases derived@.len() - i,
    {
        let d = &derived[i];
        let form = trim(d.form.as_str());
        let fv = chars_of(form.as_str());
        let ok = !form.as_str().is_empty() && !has_char(&fv, ' ') && !has_char(&fv, '!') && !has_char(&fv, '#');
        if ok && !d.key.as_str().is_empty() && !is_taken(taken, d.key.as_str()) {
            let ghost tb = taken@;
            taken.push(string_from(d.key.as_str()));
            assert(taken@.map_values(|s: String| s@) =~= tb.map_values(|s: String| s@).push(d.key@));
            let mut feats = string_from("deriv:");
            push_str(&mut feats, d.pattern.as_str());
            let mut gloss = string_from(d.label.as_str());
            push_str(&mut gloss, " ← ");
            push_str(&mut gloss, d.base.as_str());
            push_str(&mut gloss, " (");
            push_str(&mut gloss, truncate(d.base_gloss.as_str(), 50).as_str());
            push_str(&mut gloss, ")");
            let ghost ob = out@;
            out.push(DerivativeRecord {
                form: string_from(form.as_str()),
                key: string_from(d.key.as_str()),
                feats,
                lemma: string_from(form.as_str()),
                entry_id: d.base_id,
                pos_code: string_from(d.pos_code.as_str()),
                source: string_from("lemma"),
                status: string_from("generated"),
                pattern: string_from(d.pattern.as_str()),
                gloss,
            });
            assert(records_view(out@) =~= records_view(ob).push(record_spec(*d)));
        }
        i += 1;
    }
    out
}

} // verus!

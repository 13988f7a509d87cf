//! The bookkeeping of the inflection validation: which official lemmas it
//! inflects, the per-rule tallies of checks made and passed, and the count
//! of blank paradigm cells.

use vstd::prelude::*;
use crate::categories::strs_view;
use crate::coverage::{occurrences, tally_add, tally_of, tally_view};
use crate::split::{ends_with, split_char, split_char_spec, vv};
use crate::strs::{chars_of, has_char, str_eq, string_from, string_of, string_of_range, trim, trim_bounds, trim_spec};

verus! {

/// The bare form that the validation inflects for an official headword:
/// the trimmed headword without a trailing reflexive ` sę`; none where that
/// is empty or is not a single word (it has a space, `#` or `!`).
pub open spec fn bare_form_spec(isv: Seq<char>) -> Option<Seq<char>> {
    let w = trim_spec(isv);
    let bare = if " sę"@.is_suffix_of(w) {
        w.subrange(0, w.len() - " sę"@.len())
    } else {
        w
    };
    if bare.len() == 0 || bare.contains(' ') || bare.contains('#') || bare.contains('!') {
        None
    } else {
        Some(bare)
    }
}

/// The bare form of an official headword, if the validation inflects it.
pub fn bare_form(isv: &str) -> (r: Option<String>)
    ensures
        match r {
            Some(b) => bare_form_spec(isv@) == Some(b@),
            None => bare_form_spec(isv@) is None,
        },
{
    let t = trim(isv);
    let w = chars_of(t.as_str());
    let suf = chars_of(" sę");
    let b = if ends_with(&w, &suf) {
        string_of_range(&w, 0, w.len() - suf.len())
    } else {
        string_of(&w)
    };
    let bv = chars_of(b.as_str());
    if bv.len() == 0 || has_char(&bv, ' ') || has_char(&bv, '#') || has_char(&bv, '!') {
        None
    } else {
        Some(b)
    }
}

/// The rules of a run of checks, in order.
pub open spec fn rule_keys(events: Seq<(Seq<char>, bool)>) -> Seq<Seq<char>> {
    events.map_values(|e: (Seq<char>, bool)| e.0)
}

/// The rules of the checks that passed, in order.
pub open spec fn pass_keys(events: Seq<(Seq<char>, bool)>) -> Seq<Seq<char>>
    decreases events.len(),
{
    if events.len() == 0 {
        Seq::empty()
    } else {
        pass_keys(events.drop_last()) + if events.last().1 {
            seq![events.last().0]
        } else {
            Seq::empty()
        }
    }
}

proof fn lemma_pass_keys_len(events: Seq<(Seq<char>, bool)>)
    ensures
        pass_keys(events).len() <= events.len(),
    decreases events.len(),
{
    if events.len() > 0 {
        lemma_pass_keys_len(events.drop_last());
    }
}

/// Records one check of `rule`: counted as made, and as passed when `ok`.
/// `checks` and `passes` are per-rule tallies, in rule order, of the checks
/// made so far (`events`).
fn record_check(
    checks: &mut Vec<(String, usize)>,
    passes: &mut Vec<(String, usize)>,
    rule: &str,
    ok: bool,
    Ghost(events): Ghost<Seq<(Seq<char>, bool)>>,
)
    requires
        tally_of(tally_view(old(checks)@), rule_keys(events)),
        tally_of(tally_view(old(passes)@), pass_keys(events)),
        events.len() < usize::MAX,
    ensures
        tally_of(tally_view(final(checks)@), rule_keys(events.push((rule@, ok)))),
        tally_of(tally_view(final(passes)@), pass_keys(events.push((rule@, ok)))),
{
    let ghost e2 = events.push((rule@, ok));
    assert(rule_keys(e2) =~= rule_keys(events).push(rule@));
    assert(e2.drop_last() =~= events);
    proof {
        lemma_pass_keys_len(events);
    }
    tally_add(checks, rule, Ghost(rule_keys(events)));
    if ok {
        assert(pass_keys(e2) =~= pass_keys(events).push(rule@));
        tally_add(passes, rule, Ghost(pass_keys(events)));
    } else {
        assert(pass_keys(e2) =~= pass_keys(events));
    }
}

/// Checks as plain values.
pub open spec fn events_view(v: Seq<(String, bool)>) -> Seq<(Seq<char>, bool)> {
    v.map_values(|e: (String, bool)| (e.0@, e.1))
}

/// The per-rule tallies of a run of checks (rule, passed): how often each
/// rule was checked and how often it passed, rules in order.
pub fn check_tallies(events: &Vec<(String, bool)>) -> (r: (Vec<(String, usize)>, Vec<(String, usize)>))
    ensures
        tally_of(tally_view(r.0@), rule_keys(events_view(events@))),
        tally_of(tally_view(r.1@), pass_keys(events_view(events@))),
{
    let ghost ev = events_view(events@);
    let mut checks: Vec<(String, usize)> = Vec::new();
    let mut passes: Vec<(String, usize)> = Vec::new();
    let mut i: usize = 0;
    assert(rule_keys(ev.take(0)) =~= Seq::<Seq<char>>::empty());
    assert(pass_keys(ev.take(0)) =~= Seq::<Seq<char>>::empty());
    while i < events.len()
        invariant
            i <= events@.len(),
            ev == events_view(events@),
            tally_of(tally_view(checks@), rule_keys(ev.take(i as int))),
            tally_of(tally_view(passes@), pass_keys(ev.take(i as int))),
        decreases events@.len() - i,
    {
        assert(ev.take(i + 1) =~= ev.take(i as int).push((events@[i as int].0@, events@[i as int].1)));
        record_check(&mut checks, &mut passes, events[i].0.as_str(), events[i].1, Ghost(ev.take(i as int)));
        i += 1;
    }
    assert(ev.take(i as int) =~= ev);
    (checks, passes)
}

/// Whether a folded form ends in `c`.
pub open spec fn ends_in(f: Seq<char>, c: char) -> bool {
    f.len() > 0 && f.last() == c
}

/// An indeclinable noun: its fold ends in -e, -i or -u.
pub open spec fn indeclinable(bare_fold: Seq<char>) -> bool {
    ends_in(bare_fold, 'e') || ends_in(bare_fold, 'i') || ends_in(bare_fold, 'u')
}

/// A genitive singular variant that passes the -a rule: it ends in -a, or,
/// for a nominalised adjective (citation fold in -y), in -ogo or -ego.
pub open spec fn genitive_ok(v: Seq<char>, substantivized: bool) -> bool {
    ends_in(v, 'a') || (substantivized && ("ogo"@.is_suffix_of(v) || "ego"@.is_suffix_of(v)))
}

/// The grammar checks of one noun, in the order they are made, each with
/// whether it passed:
/// - the paradigm built whole agrees with the cell getters (always made);
/// - unless the noun is cited in the plural, some variant of the nominative
///   singular folds to the citation form;
/// - for a masculine or neuter noun not cited in the plural, not
///   indeclinable (-e/-i/-u) and not an a-stem, the genitive singular is
///   not blank (`—`) and some variant ends in -a (or -ogo/-ego for a
///   nominalised adjective).
///
/// `nom_sg_folds` and `gen_sg_folds` are the folds of the `/`-separated
/// variants of those cells; `bare_fold` is the fold of the citation form.
pub open spec fn noun_checks_spec(
    struct_path_ok: bool,
    bare_fold: Seq<char>,
    masc_or_neut: bool,
    plurale_tantum: bool,
    nom_sg_folds: Seq<Seq<char>>,
    gen_sg: Seq<char>,
    gen_sg_folds: Seq<Seq<char>>,
) -> Seq<(Seq<char>, bool)> {
    seq![("noun table struct path = cell getter"@, struct_path_ok)] + (if !plurale_tantum {
        seq![("noun nom.sg = citation form"@, nom_sg_folds.contains(bare_fold))]
    } else {
        Seq::empty()
    }) + (if masc_or_neut && !plurale_tantum && !indeclinable(bare_fold) && !ends_in(bare_fold, 'a') {
        seq![(
            "masc/neut gen.sg ends -a"@,
            gen_sg != "—"@ && exists|k: int| 0 <= k < gen_sg_folds.len() && genitive_ok(
                #[trigger] gen_sg_folds[k],
                ends_in(bare_fold, 'y'),
            ),
        )]
    } else {
        Seq::empty()
    })
}

fn ends_in_char(v: &Vec<char>, c: char) -> (r: bool)
    ensures
        r == ends_in(v@, c),
{
    v.len() > 0 && v[v.len() - 1] == c
}

fn contains_str(v: &Vec<String>, t: &str) -> (r: bool)
    ensures
        r == strs_view(v@).contains(t@),
{
    let mut i: usize = 0;
    while i < v.len()
        invariant
            i <= v@.len(),
            forall|j: int| 0 <= j < i ==> v@[j]@ != t@,
        decreases v@.len() - i,
    {
        if str_eq(v[i].as_str(), t) {
            assert(strs_view(v@)[i as int] == t@);
            return true;
        }
        i += 1;
    }
    assert forall|j: int| 0 <= j < strs_view(v@).len() implies strs_view(v@)[j] != t@ by {
        assert(strs_view(v@)[j] == v@[j]@);
    }
    false
}

fn any_genitive_ok(folds: &Vec<String>, subst: bool) -> (r: bool)
    ensures
        r == exists|k: int| 0 <= k < strs_view(folds@).len() && genitive_ok(#[trigger] strs_view(folds@)[k], subst),
{
    let mut k: usize = 0;
    while k < folds.len()
        invariant
            k <= folds@.len(),
            forall|j: int| 0 <= j < k ==> !genitive_ok(#[trigger] strs_view(folds@)[j], subst),
        decreases folds@.len() - k,
    {
        assert(strs_view(folds@)[k as int] == folds@[k as int]@);
        if genitive_passes(folds[k].as_str(), subst) {
            return true;
        }
        k += 1;
    }
    false
}

fn genitive_passes(v: &str, substantivized: bool) -> (r: bool)
    ensures
        r == genitive_ok(v@, substantivized),
{
    let c = chars_of(v);
    if ends_in_char(&c, 'a') {
        return true;
    }
    substantivized && (ends_with(&c, &chars_of("ogo")) || ends_with(&c, &chars_of("ego")))
}

/// The grammar checks of one noun (see `noun_checks_spec`).
pub fn noun_checks(
    struct_path_ok: bool,
    bare_fold: &str,
    masc_or_neut: bool,
    plurale_tantum: bool,
    nom_sg_folds: &Vec<String>,
    gen_sg: &str,
    gen_sg_folds: &Vec<String>,
) -> (r: Vec<(String, bool)>)
    ensures
        events_view(r@) == noun_checks_spec(
            struct_path_ok,
            bare_fold@,
            masc_or_neut,
            plurale_tantum,
            strs_view(nom_sg_folds@),
            gen_sg@,
            strs_view(gen_sg_folds@),
        ),
{
    let mut r: Vec<(String, bool)> = Vec::new();
    r.push((string_from("noun table struct path = cell getter"), struct_path_ok));
    assert(events_view(r@) =~= seq![("noun table struct path = cell getter"@, struct_path_ok)]);
    if !plurale_tantum {
        let ok = contains_str(nom_sg_folds, bare_fold);
        let ghost before = events_view(r@);
        r.push((string_from("noun nom.sg = citation form"), ok));
        assert(events_view(r@) =~= before.push(("noun nom.sg = citation form"@, ok)));
    }
    let ghost e2 = events_view(r@);
    let b = chars_of(bare_fold);
    let indecl = ends_in_char(&b, 'e') || ends_in_char(&b, 'i') || ends_in_char(&b, 'u');
    if masc_or_neut && !plurale_tantum && !indecl && !ends_in_char(&b, 'a') {
        let subst = ends_in_char(&b, 'y');
        let ok = !str_eq(gen_sg, "—") && any_genitive_ok(gen_sg_folds, subst);
        r.push((string_from("masc/neut gen.sg ends -a"), ok));
        assert(events_view(r@) =~= e2.push(("masc/neut gen.sg ends -a"@, ok)));
    }
    proof {
        let spec = noun_checks_spec(
            struct_path_ok,
            bare_fold@,
            masc_or_neut,
            plurale_tantum,
            strs_view(nom_sg_folds@),
            gen_sg@,
            strs_view(gen_sg_folds@),
        );
        assert(events_view(r@) =~= spec);
    }
    r
}

/// The grammar checks of one adjective, in order, each with whether it
/// passed: the paradigm built whole agrees with the cell getters; the
/// masculine nominative singular folds to the citation form; the feminine
/// nominative singular is not blank and its fold ends in -a; the neuter
/// nominative singular is not blank and its fold ends in -o or -e.
pub open spec fn adjective_checks_spec(
    bare_fold: Seq<char>,
    nom_m_fold: Seq<char>,
    nom_f: Seq<char>,
    nom_f_fold: Seq<char>,
    nom_n: Seq<char>,
    nom_n_fold: Seq<char>,
    struct_path_ok: bool,
) -> Seq<(Seq<char>, bool)> {
    seq![
        ("adj table struct path = cell getter"@, struct_path_ok),
        ("adj nom.sg.m = citation form"@, nom_m_fold == bare_fold),
        ("adj nom.sg.f ends -a"@, nom_f != "—"@ && ends_in(nom_f_fold, 'a')),
        ("adj nom.sg.n ends -o/-e"@, nom_n != "—"@ && (ends_in(nom_n_fold, 'o') || ends_in(nom_n_fold, 'e'))),
    ]
}

/// The grammar checks of one adjective (see `adjective_checks_spec`).
pub fn adjective_checks(
    bare_fold: &str,
    nom_m_fold: &str,
    nom_f: &str,
    nom_f_fold: &str,
    nom_n: &str,
    nom_n_fold: &str,
    struct_path_ok: bool,
) -> (r: Vec<(String, bool)>)
    ensures
        events_view(r@) == adjective_checks_spec(bare_fold@, nom_m_fold@, nom_f@, nom_f_fold@, nom_n@, nom_n_fold@, struct_path_ok),
{
    let f = chars_of(nom_f_fold);
    let n = chars_of(nom_n_fold);
    let mut r: Vec<(String, bool)> = Vec::new();
    r.push((string_from("adj table struct path = cell getter"), struct_path_ok));
    r.push((string_from("adj nom.sg.m = citation form"), str_eq(nom_m_fold, bare_fold)));
    r.push((string_from("adj nom.sg.f ends -a"), !str_eq(nom_f, "—") && ends_in_char(&f, 'a')));
    r.push((
        string_from("adj nom.sg.n ends -o/-e"),
        !str_eq(nom_n, "—") && (ends_in_char(&n, 'o') || ends_in_char(&n, 'e')),
    ));
    assert(events_view(r@) =~= adjective_checks_spec(bare_fold@, nom_m_fold@, nom_f@, nom_f_fold@, nom_n@, nom_n_fold@, struct_path_ok));
    r
}

/// Whether a nominative plural cell gives the expected suppletive plural:
/// some `/`-separated variant, trimmed, is `plural`.
pub open spec fn suppletive_ok(cell: Seq<char>, plural: Seq<char>) -> bool {
    exists|k: int| 0 <= k < split_char_spec(cell, '/').len() && trim_spec(#[trigger] split_char_spec(cell, '/')[k]) == plural
}

/// The suppletive-plural checks: each `(cell, plural)` is the inflector's
/// nominative plural of a noun with a suppletive plural and the plural the
/// grammar gives it.
pub open spec fn suppletive_checks_spec(cases: Seq<(Seq<char>, Seq<char>)>) -> Seq<(Seq<char>, bool)> {
    cases.map_values(|c: (Seq<char>, Seq<char>)| ("suppletive plurals (§3.1, from the inflector)"@, suppletive_ok(c.0, c.1)))
}

fn suppletive_passes(cell: &str, plural: &str) -> (r: bool)
    ensures
        r == suppletive_ok(cell@, plural@),
{
    let parts = split_char(&chars_of(cell), '/');
    let mut k: usize = 0;
    while k < parts.len()
        invariant
            k <= parts@.len(),
            vv(parts@) == split_char_spec(cell@, '/'),
            forall|j: int| 0 <= j < k ==> trim_spec(split_char_spec(cell@, '/')[j]) != plural@,
        decreases parts@.len() - k,
    {
        assert(vv(parts@)[k as int] == parts@[k as int]@);
        let (lo, hi) = trim_bounds(&parts[k]);
        let t = string_of_range(&parts[k], lo, hi);
        if str_eq(t.as_str(), plural) {
            return true;
        }
        k += 1;
    }
    false
}

/// The suppletive-plural checks of `(cell, plural)` cases, in order (see
/// `suppletive_checks_spec`).
pub fn suppletive_checks(cases: &Vec<(String, String)>) -> (r: Vec<(String, bool)>)
    ensures
        events_view(r@) == suppletive_checks_spec(cases@.map_values(|c: (String, String)| (c.0@, c.1@))),
{
    let ghost cv = cases@.map_values(|c: (String, String)| (c.0@, c.1@));
    let mut r: Vec<(String, bool)> = Vec::new();
    let mut i: usize = 0;
    while i < cases.len()
        invariant
            i <= cases@.len(),
            cv == cases@.map_values(|c: (String, String)| (c.0@, c.1@)),
            events_view(r@) == suppletive_checks_spec(cv.take(i as int)),
        decreases cases@.len() - i,
    {
        let ok = suppletive_passes(cases[i].0.as_str(), cases[i].1.as_str());
        let ghost before = events_view(r@);
        r.push((string_from("suppletive plurals (§3.1, from the inflector)"), ok));
        assert(events_view(r@) =~= before.push(("suppletive plurals (§3.1, from the inflector)"@, ok)));
        assert(cv[i as int] == (cases@[i as int].0@, cases@[i as int].1@));
        assert(cv.take(i + 1) =~= cv.take(i as int).push(cv[i as int]));
        assert(suppletive_checks_spec(cv.take(i + 1)) =~= suppletive_checks_spec(cv.take(i as int)).push(
            ("suppletive plurals (§3.1, from the inflector)"@, suppletive_ok(cv[i as int].0, cv[i as int].1)),
        ));
        assert(events_view(r@) =~= suppletive_checks_spec(cv.take(i + 1)));
        i += 1;
    }
    assert(cv.take(i as int) =~= cv);
    r
}

/// How many paradigm cells are blank (`—`).
pub fn blank_cells(cells: &Vec<String>) -> (r: usize)
    ensures
        r == occurrences(strs_view(cells@), "—"@),
{
    let ghost cv = strs_view(cells@);
    let mut n: usize = 0;
    let mut i: usize = 0;
    assert(cv.take(0) =~= Seq::<Seq<char>>::empty());
    while i < cells.len()
        invariant
            i <= cells@.len(),
            cv == strs_view(cells@),
            n == occurrences(cv.take(i as int), "—"@),
            n <= i,
        decreases cells@.len() - i,
    {
        assert(cv.take(i + 1).drop_last() =~= cv.take(i as int));
        assert(cv.take(i + 1).last() == cells@[i as int]@);
        if str_eq(cells[i].as_str(), "—") {
            n += 1;
        }
        i += 1;
    }
    assert(cv.take(i as int) =~= cv);
    n
}

} // verus!

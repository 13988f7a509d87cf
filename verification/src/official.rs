//! The committee's own data on an official lemma's page: its frequency,
//! its reference translations, the mutual-intelligibility marks and the
//! example sentence. Display only; none of it feeds generation.

use vstd::prelude::*;
use crate::blocks::{
    official_example_block, official_example_block_spec, official_translations_block, pairs_view, translations_spec,
};
use crate::layout::{esc, esc_spec};
use crate::split::{split_ws, vv, ws_tokens};
use crate::strs::{chars_of, push_char, push_str, str_eq, string_from, string_of, trim, trim_spec};

verus! {

/// What the committee's row says of a lemma, for display.
pub struct OfficialDisplay {
    /// The Slavic reference translations: language code and cell.
    pub cells: Vec<(String, String)>,
    pub de: String,
    pub nl: String,
    pub eo: String,
    /// The frequency, rounded to a whole number, when the row has one.
    pub frequency: Option<String>,
    /// The intelligibility marks: language codes each followed by `+`, `~`
    /// or `-`.
    pub intelligibility: String,
    pub using_example: String,
}

/// The frequency chip of the headword line, or nothing.
pub open spec fn frequency_chip_spec(freq: Option<String>) -> Seq<char> {
    match freq {
        Some(f) => "<div class='headmeta'><span class='pill info' title='Čęstota v oficialnom slovniku (interslavic-dictionary.com)'>Čęstota "@
            + f@ + "</span></div>"@,
        None => Seq::empty(),
    }
}

/// The committee's frequency as a chip on the headword line; nothing when
/// the row has none.
pub fn official_frequency_chip(freq: &Option<String>) -> (r: String)
    ensures
        r@ == frequency_chip_spec(*freq),
{
    match freq {
        Some(f) => {
            let mut s = string_from("<div class='headmeta'><span class='pill info' title='Čęstota v oficialnom slovniku (interslavic-dictionary.com)'>Čęstota ");
            push_str(&mut s, f.as_str());
            push_str(&mut s, "</span></div>");
            s
        },
        None => String::new(),
    }
}

/// The name listed for `code` (the first listing), or the code itself.
pub open spec fn name_of(names: Seq<(Seq<char>, Seq<char>)>, code: Seq<char>) -> Seq<char>
    decreases names.len(),
{
    if names.len() == 0 {
        code
    } else if names[0].0 == code {
        names[0].1
    } else {
        name_of(names.drop_first(), code)
    }
}

/// Whether `c` is an intelligibility sign.
pub open spec fn is_sign(c: char) -> bool {
    c == '+' || c == '~' || c == '-'
}

/// The pill class of a sign.
pub open spec fn sign_class(c: char) -> Seq<char> {
    if c == '+' {
        "ok"@
    } else if c == '-' {
        "bad"@
    } else {
        ""@
    }
}

/// The chip of one mark: a language code followed by its sign; nothing for
/// a token that is not such a mark.
pub open spec fn intel_chip(names: Seq<(Seq<char>, Seq<char>)>, tok: Seq<char>) -> Seq<char> {
    if tok.len() == 0 || !is_sign(tok.last()) || tok.drop_last().len() == 0 {
        Seq::empty()
    } else {
        let code = tok.drop_last();
        "<span class='pill "@ + sign_class(tok.last()) + "' title='"@ + esc_spec(name_of(names, code)) + "'>"@
            + esc_spec(code) + " "@ + seq![tok.last()] + "</span>"@
    }
}

/// The chips of the first `n` tokens.
pub open spec fn intel_chips(names: Seq<(Seq<char>, Seq<char>)>, toks: Seq<Seq<char>>, n: int) -> Seq<char>
    decreases n,
{
    if n <= 0 {
        Seq::empty()
    } else {
        intel_chips(names, toks, n - 1) + intel_chip(names, toks[n - 1])
    }
}

/// The intelligibility section: nothing for a blank field, a bare `!` or
/// no valid mark.
pub open spec fn intelligibility_spec(intel: Seq<char>, names: Seq<(Seq<char>, Seq<char>)>) -> Seq<char> {
    let t = trim_spec(intel);
    let toks = ws_tokens(t);
    let chips = intel_chips(names, toks, toks.len() as int);
    if t.len() == 0 || t == "!"@ || chips.len() == 0 {
        Seq::empty()
    } else {
        "<section><h2 id='razumlivost'>Vzajemna razumlivosť</h2><div class='chips'>"@ + chips
            + "</div><p class='muted attr-official'>Oficialne danne: interslavic-dictionary.com</p></section>"@
    }
}

pub(crate) fn lookup_name(names: &Vec<(String, String)>, code: &str) -> (r: String)
    ensures
        r@ == name_of(pairs_view(names@), code@),
{
    let ghost nv = pairs_view(names@);
    let mut i: usize = 0;
    assert(nv.skip(0) =~= nv);
    while i < names.len()
        invariant
            nv == pairs_view(names@),
            i <= names@.len(),
            name_of(nv, code@) == name_of(nv.skip(i as int), code@),
        decreases names@.len() - i,
    {
        assert(nv.skip(i as int)[0] == (names@[i as int].0@, names@[i as int].1@));
        assert(nv.skip(i as int).drop_first() =~= nv.skip(i + 1));
        if str_eq(names[i].0.as_str(), code) {
            return string_from(names[i].1.as_str());
        }
        i += 1;
    }
    assert(nv.skip(i as int) =~= Seq::<(Seq<char>, Seq<char>)>::empty());
    string_from(code)
}

fn push_intel_chip(s: &mut String, names: &Vec<(String, String)>, tok: &Vec<char>)
    ensures
        final(s)@ == old(s)@ + intel_chip(pairs_view(names@), tok@),
{
    let n = tok.len();
    if n == 0 {
        return;
    }
    let sign = tok[n - 1];
    if !(sign == '+' || sign == '~' || sign == '-') || n == 1 {
        assert(n == 1 ==> tok@.drop_last().len() == 0);
        return;
    }
    let mut code_chars: Vec<char> = Vec::new();
    let mut k: usize = 0;
    while k < n - 1
        invariant
            n == tok@.len(),
            n >= 2,
            k <= n - 1,
            code_chars@ == tok@.take(k as int),
        decreases n - 1 - k,
    {
        code_chars.push(tok[k]);
        assert(tok@.take(k + 1) =~= tok@.take(k as int).push(tok@[k as int]));
        k += 1;
    }
    assert(tok@.take((n - 1) as int) =~= tok@.drop_last());
    let code = string_of(&code_chars);
    let name = lookup_name(names, code.as_str());
    let class = if sign == '+' {
        "ok"
    } else if sign == '-' {
        "bad"
    } else {
        ""
    };
    push_str(s, "<span class='pill ");
    push_str(s, class);
    push_str(s, "' title='");
    push_str(s, esc(name.as_str()).as_str());
    push_str(s, "'>");
    push_str(s, esc(code.as_str()).as_str());
    push_str(s, " ");
    push_char(s, sign);
    push_str(s, "</span>");
    proof {
        reveal_strlit(" ");
    }
    assert(s@ =~= old(s)@ + intel_chip(pairs_view(names@), tok@));
}

/// The committee's mutual-intelligibility marks (`pl+ cs~ ru-`) as chips,
/// each titled with its language's name (from `names`; a code without a
/// listed name is titled by the code); nothing for a blank field, a bare
/// `!` or no valid mark.
pub fn official_intelligibility_strip(intel: &str, names: &Vec<(String, String)>) -> (r: String)
    ensures
        r@ == intelligibility_spec(intel@, pairs_view(names@)),
{
    let t = trim(intel);
    proof {
        reveal_strlit("!");
    }
    if t.as_str().is_empty() || str_eq(t.as_str(), "!") {
        return String::new();
    }
    let toks = split_ws(&chars_of(t.as_str()));
    let mut chips = String::new();
    let mut i: usize = 0;
    while i < toks.len()
        invariant
            vv(toks@) == ws_tokens(t@),
            i <= toks@.len(),
            chips@ == intel_chips(pairs_view(names@), vv(toks@), i as int),
        decreases toks@.len() - i,
    {
        assert(vv(toks@)[i as int] == toks@[i as int]@);
        push_intel_chip(&mut chips, names, &toks[i]);
        i += 1;
    }
    if chips.as_str().is_empty() {
        return String::new();
    }
    let mut s = string_from("<section><h2 id='razumlivost'>Vzajemna razumlivosť</h2><div class='chips'>");
    push_str(&mut s, chips.as_str());
    push_str(&mut s, "</div><p class='muted attr-official'>Oficialne danne: interslavic-dictionary.com</p></section>");
    s
}

/// The committee's sections of a page: translations, intelligibility and
/// example.
pub open spec fn display_sections_spec(
    o: OfficialDisplay,
    cols: Seq<(Seq<char>, Seq<char>)>,
    names: Seq<(Seq<char>, Seq<char>)>,
) -> Seq<char> {
    translations_spec(cols, pairs_view(o.cells@), o.de@, o.nl@, o.eo@) + intelligibility_spec(
        o.intelligibility@,
        names,
    ) + official_example_block_spec(o.using_example@)
}

/// The committee's display sections: the reference translations (Slavic
/// columns in the order of `cols`, code and name), the intelligibility
/// marks and the example sentence.
pub fn official_display_sections(
    o: &OfficialDisplay,
    cols: &Vec<(String, String)>,
    names: &Vec<(String, String)>,
) -> (r: String)
    ensures
        r@ == display_sections_spec(*o, pairs_view(cols@), pairs_view(names@)),
{
    let mut s = official_translations_block(cols, &o.cells, o.de.as_str(), o.nl.as_str(), o.eo.as_str());
    push_str(&mut s, official_intelligibility_strip(o.intelligibility.as_str(), names).as_str());
    push_str(&mut s, official_example_block(o.using_example.as_str()).as_str());
    s
}

} // verus!

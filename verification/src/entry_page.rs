//! The page of a generated entry: the headword (the official lemma when the
//! generator reproduces one), its etymology, inflection, the committee's
//! data, word formation, cognates, the rule trace, and a rail with the
//! infobox and the ranked candidate forms.

use vstd::prelude::*;
use crate::blocks::{
    status_banner, status_banner_spec, alternatives_block, alternatives_block_spec, trace_block, trace_block_spec, word_formation_block,
    word_formation_block_spec, AlternativeRow,
};
use crate::blocks::pairs_view;
use crate::categories::strs_view;
use crate::cognates::{cognate_block, cognate_block_spec, evidence_block, evidence_block_spec, CognateMember, EvidenceRow};
use crate::connections::{connections_spec, enrich_connections_section, xref_opt, ConnMember};
use crate::entry_pages::{entry_infobox, infobox_spec};
use crate::etymology::{
    etymology_block, etymology_block_spec, official_etymology_spec, Reconstruction, unified_etymology_section, unified_etymology_spec, unified_official_etymology_section,
    EnglishEtymology, NativeEtymology,
};
use crate::layout::{
    CalibrationView, calibration_note, calibration_note_spec, conf_class, conf_class_spec, esc, esc_spec, source_class, source_class_spec, status_pill, status_pill_spec, truncate, truncate_spec, urlencode_q,
    urlencode_q_spec,
};
use crate::model::{Candidate, Confidence, MatchStatus};
use crate::official::{
    display_sections_spec, frequency_chip_spec, official_display_sections, official_frequency_chip, OfficialDisplay,
};
use crate::pages::{site_page, site_page_spec};
use crate::site_meta::SiteEntryMeta;
use crate::strs::{decimal, push_decimal, push_str, str_eq, string_from, trim_is_empty, trim_spec};
use crate::xref::Xref;

verus! {

/// A generated entry with what its page shows.
pub struct GeneratedEntry {
    /// The best candidate form.
    pub top: Candidate,
    /// The name of the top candidate's source.
    pub top_source_label: String,
    /// All ranked candidates.
    pub alternatives: Vec<AlternativeRow>,
    /// The cognate set's gloss.
    pub gloss: String,
    /// How many languages attest the cognate set.
    pub n_langs: usize,
    pub cognates: Vec<CognateMember>,
    /// Whether the set is a borrowing, with its etymon; else its
    /// Proto-Slavic ancestor.
    pub borrowed: bool,
    pub etymon: String,
    pub proto: String,
    pub english_etymology: Vec<EnglishEtymology>,
    pub native_etymology: Vec<NativeEtymology>,
    pub connections: Vec<ConnMember>,
    /// The inflection table of the headword.
    pub inflection: String,
    /// The credit line for raw attestations folded into the entry (may be
    /// empty).
    pub raw_credit: String,
}

/// The official lemma an entry reproduces: the rank of the candidate that
/// does, the lemma, its English meaning, and whether the top candidate
/// spells it exactly.
pub struct OfficialMatch {
    pub rank: usize,
    pub isv: String,
    pub english: String,
    pub exact: bool,
}

/// The tables a page needs from the language data: the branch names in
/// branch order, the native editions (code, name), the official Slavic
/// columns (code, name) and the language names (code, name).
pub struct SiteTables {
    pub branch_labels: Vec<String>,
    pub editions: Vec<(String, String)>,
    pub official_cols: Vec<(String, String)>,
    pub lang_names: Vec<(String, String)>,
    /// The explanations of the intelligibility column: over the cognate
    /// set, and over the cognate set joined with the official lemma's
    /// languages.
    pub razum_title: String,
    pub razum_title_matched: String,
}

/// The headword: the official lemma when the entry reproduces one, else
/// the top candidate.
pub open spec fn headword_spec(top_form: Seq<char>, official: Option<OfficialMatch>) -> Seq<char> {
    match official {
        Some(o) => o.isv@,
        None => top_form,
    }
}

/// The headword of a generated entry.
pub fn corpus_headword(g: &GeneratedEntry, official: &Option<OfficialMatch>) -> (r: String)
    ensures
        r@ == headword_spec(g.top.form@, *official),
{
    match official {
        Some(o) => string_from(o.isv.as_str()),
        None => string_from(g.top.form.as_str()),
    }
}

/// The meaning shown: the official one when matched and not blank, else
/// the cognate set's, cut to 140 characters.
pub open spec fn entry_gloss(g: GeneratedEntry, official: Option<OfficialMatch>) -> Seq<char> {
    match official {
        Some(o) => if trim_spec(o.english@).len() > 0 {
            truncate_spec(o.english@, 140)
        } else {
            truncate_spec(g.gloss@, 140)
        },
        None => truncate_spec(g.gloss@, 140),
    }
}

/// The note on how the headword relates to the official dictionary.
pub open spec fn official_note(official: Option<OfficialMatch>) -> Seq<char> {
    match official {
        Some(o) => if o.rank == 1 {
            if o.exact {
                "Oficialna forma; rekonstrukcija ju <b>točno</b> reproduktuje."@
            } else {
                "Oficialna forma; rekonstrukcija ju reproduktuje (normalizovano — pravopisne znaky sę različajų)."@
            }
        } else {
            "Oficialna forma; generator ju davaje kako <a href='#cand-"@ + decimal(o.rank as nat) + "'>kandidat "@
                + decimal(o.rank as nat) + "</a>."@
        },
        None => "Forma je generovana iz srodnyh slov; ne v oficialnom slovniku."@,
    }
}

/// The infobox row of the meaning.
pub open spec fn gloss_row(g: GeneratedEntry, official: Option<OfficialMatch>) -> Seq<char> {
    "<tr><th>Smysl</th><td>"@ + esc_spec(entry_gloss(g, official)) + "</td></tr>"@
}

/// The infobox row of the reconstruction, when it differs from the
/// headword.
pub open spec fn recon_row(g: GeneratedEntry, official: Option<OfficialMatch>) -> Seq<char> {
    if headword_spec(g.top.form@, official) != g.top.form@ {
        "<tr><th>Rekonstrukcija</th><td><span class='mention'>"@ + esc_spec(g.top.form@) + "</span></td></tr>"@
    } else {
        Seq::empty()
    }
}

/// The infobox row of the top candidate's source and the entry's status.
pub open spec fn source_row(g: GeneratedEntry, status: MatchStatus) -> Seq<char> {
    "<tr><th>Izvor formy</th><td><span class='pill "@ + source_class_spec(g.top.source) + "'>"@ + esc_spec(
        g.top_source_label@,
    ) + "</span> "@ + status_pill_spec(status) + "</td></tr>"@
}

/// The entry's infobox rows.
pub open spec fn entry_info_rows(g: GeneratedEntry, status: MatchStatus, official: Option<OfficialMatch>) -> Seq<char> {
    gloss_row(g, official) + recon_row(g, official) + source_row(g, status) + "<tr><th>Opomba</th><td>"@
        + official_note(official) + "</td></tr>"@
}

/// The committee's frequency chip, when there is committee data.
pub open spec fn disp_chip(d: Option<OfficialDisplay>) -> Seq<char> {
    match d {
        Some(o) => frequency_chip_spec(o.frequency),
        None => Seq::empty(),
    }
}

/// The committee's sections, when there is committee data.
pub open spec fn disp_sections(d: Option<OfficialDisplay>, t: SiteTables) -> Seq<char> {
    match d {
        Some(o) => display_sections_spec(o, pairs_view(t.official_cols@), pairs_view(t.lang_names@)),
        None => Seq::empty(),
    }
}

/// The footer line.
pub open spec fn entry_foot(official: Option<OfficialMatch>) -> Seq<char> {
    if official is Some {
        "Oficialne slovo; rekonstrukcija i dokazy mašinno generovane (Wiktionary, CC BY-SA)."@
    } else {
        "Mašinno generovana rekonstrukcija iz srodnyh slov (Wiktionary, CC BY-SA). Ne oficialny standard."@
    }
}

/// The opening of a generated entry's page: the headword and the
/// committee's frequency chip.
pub open spec fn entry_head(g: GeneratedEntry, official: Option<OfficialMatch>, disp: Option<OfficialDisplay>, wiki_top: Seq<char>) -> Seq<char> {
    "<article class='entry entry-with-rail'>"@ + wiki_top
        + "<div class='entry-grid'><div class='entry-main'><h1 class='page-title firstHeading'>"@ + esc_spec(
        headword_spec(g.top.form@, official),
    ) + "</h1>"@ + disp_chip(disp)
}

/// The etymology and native-editions sections of a generated entry.
pub open spec fn entry_sources(id: usize, g: GeneratedEntry, t: SiteTables, xref: Option<Xref>, raw_xref: Xref) -> Seq<char> {
    let eds = pairs_view(t.editions@);
    unified_etymology_spec(g.borrowed, g.etymon@, g.proto@, g.english_etymology@, eds, g.native_etymology@)
        + connections_spec(eds, g.connections@, xref, raw_xref, id)
}

/// The inflection section of a generated entry.
pub open spec fn entry_inflection(g: GeneratedEntry, official: Option<OfficialMatch>) -> Seq<char> {
    "<section><h2 id='pregibanje'>Prěgibanje</h2>"@ + g.inflection@ + "<p class='muted'><a href='../forms.html?q="@
        + urlencode_q_spec(headword_spec(g.top.form@, official))
        + "'>Vse eksportovane formy togo slova (obratny indeks) →</a></p></section>"@
}

/// The main column up to the inflection section.
pub open spec fn entry_upper(
    id: usize,
    g: GeneratedEntry,
    official: Option<OfficialMatch>,
    disp: Option<OfficialDisplay>,
    wiki_top: Seq<char>,
    t: SiteTables,
    xref: Option<Xref>,
    raw_xref: Xref,
) -> Seq<char> {
    entry_head(g, official, disp, wiki_top) + entry_sources(id, g, t, xref, raw_xref) + entry_inflection(g, official)
}

/// The cognates section.
pub open spec fn cognates_section(g: GeneratedEntry, t: SiteTables) -> Seq<char> {
    "<section><h2 id='cognaty'>Srodne slova — "@ + decimal(g.n_langs as nat) + " językov</h2>"@
        + cognate_block_spec(strs_view(t.branch_labels@), g.cognates@) + g.raw_credit@ + "</section>"@
}

/// The explanation of the intelligibility column: over the joined
/// languages on a matched page.
pub open spec fn razum_title_for(official: Option<OfficialMatch>, t: SiteTables) -> Seq<char> {
    if official is Some {
        t.razum_title_matched@
    } else {
        t.razum_title@
    }
}

/// The rule-trace section.
pub open spec fn trace_section(g: GeneratedEntry) -> Seq<char> {
    "<section><h2 id='sled'>Sled pravil</h2>"@ + trace_block_spec(g.top) + "</section>"@
}

/// The main column after the inflection section.
pub open spec fn entry_lower(
    g: GeneratedEntry,
    official: Option<OfficialMatch>,
    disp: Option<OfficialDisplay>,
    family: Seq<char>,
    synonyms: Seq<char>,
    derivation: Seq<char>,
    wiki_bottom: Seq<char>,
    t: SiteTables,
) -> Seq<char> {
    disp_sections(disp, t) + synonyms + word_formation_block_spec(derivation, family) + cognates_section(g, t)
        + trace_section(g) + wiki_bottom + "<p class='foot'>"@ + entry_foot(official) + "</p></div>"@
}

/// The rail: the infobox and the ranked candidates.
pub open spec fn entry_rail(
    g: GeneratedEntry,
    status: MatchStatus,
    official: Option<OfficialMatch>,
    meta: SiteEntryMeta,
    folded_ancestor: Seq<char>,
    t: SiteTables,
) -> Seq<char> {
    "<aside class='entry-rail'>"@ + infobox_spec(meta, entry_info_rows(g, status, official), folded_ancestor)
        + "<section class='rail-box'><h2 id='formy'>Formy i kandidaty</h2>"@ + alternatives_block_spec(
        g.alternatives@,
        razum_title_for(official, t),
    ) + "</section></aside></div></article>"@
}

fn render_gloss_row(g: &GeneratedEntry, official: &Option<OfficialMatch>) -> (r: String)
    ensures
        r@ == gloss_row(*g, *official),
{
    let gloss = match official {
        Some(o) => if !trim_is_empty(o.english.as_str()) {
            truncate(o.english.as_str(), 140)
        } else {
            truncate(g.gloss.as_str(), 140)
        },
        None => truncate(g.gloss.as_str(), 140),
    };
    let mut s = string_from("<tr><th>Smysl</th><td>");
    push_str(&mut s, esc(gloss.as_str()).as_str());
    push_str(&mut s, "</td></tr>");
    s
}

fn render_recon_row(g: &GeneratedEntry, official: &Option<OfficialMatch>) -> (r: String)
    ensures
        r@ == recon_row(*g, *official),
{
    let head = corpus_headword(g, official);
    if str_eq(head.as_str(), g.top.form.as_str()) {
        return String::new();
    }
    let mut s = string_from("<tr><th>Rekonstrukcija</th><td><span class='mention'>");
    push_str(&mut s, esc(g.top.form.as_str()).as_str());
    push_str(&mut s, "</span></td></tr>");
    s
}

fn render_source_row(g: &GeneratedEntry, status: MatchStatus) -> (r: String)
    ensures
        r@ == source_row(*g, status),
{
    let mut s = string_from("<tr><th>Izvor formy</th><td><span class='pill ");
    push_str(&mut s, source_class(g.top.source));
    push_str(&mut s, "'>");
    push_str(&mut s, esc(g.top_source_label.as_str()).as_str());
    push_str(&mut s, "</span> ");
    push_str(&mut s, status_pill(status));
    push_str(&mut s, "</td></tr>");
    s
}

fn render_official_note(official: &Option<OfficialMatch>) -> (r: String)
    ensures
        r@ == official_note(*official),
{
    match official {
        Some(o) => {
            if o.rank == 1 {
                if o.exact {
                    string_from("Oficialna forma; rekonstrukcija ju <b>točno</b> reproduktuje.")
                } else {
                    string_from("Oficialna forma; rekonstrukcija ju reproduktuje (normalizovano — pravopisne znaky sę različajų).")
                }
            } else {
                let mut s = string_from("Oficialna forma; generator ju davaje kako <a href='#cand-");
                push_decimal(&mut s, o.rank);
                push_str(&mut s, "'>kandidat ");
                push_decimal(&mut s, o.rank);
                push_str(&mut s, "</a>.");
                s
            }
        },
        None => string_from("Forma je generovana iz srodnyh slov; ne v oficialnom slovniku."),
    }
}

fn push_info_rows(s: &mut String, g: &GeneratedEntry, status: MatchStatus, official: &Option<OfficialMatch>)
    ensures
        final(s)@ == old(s)@ + entry_info_rows(*g, status, *official),
{
    let a = render_gloss_row(g, official);
    let b = render_recon_row(g, official);
    let c = render_source_row(g, status);
    let d = render_official_note(official);
    push_str(s, a.as_str());
    push_str(s, b.as_str());
    push_str(s, c.as_str());
    push_str(s, "<tr><th>Opomba</th><td>");
    push_str(s, d.as_str());
    push_str(s, "</td></tr>");
}

fn render_disp_chip(disp: &Option<OfficialDisplay>) -> (r: String)
    ensures
        r@ == disp_chip(*disp),
{
    match disp {
        Some(o) => official_frequency_chip(&o.frequency),
        None => String::new(),
    }
}

fn render_entry_head(g: &GeneratedEntry, official: &Option<OfficialMatch>, disp: &Option<OfficialDisplay>, wiki_top: &str) -> (r: String)
    ensures
        r@ == entry_head(*g, *official, *disp, wiki_top@),
{
    let head = corpus_headword(g, official);
    let chip = render_disp_chip(disp);
    let mut s = string_from("<article class='entry entry-with-rail'>");
    push_str(&mut s, wiki_top);
    push_str(&mut s, "<div class='entry-grid'><div class='entry-main'><h1 class='page-title firstHeading'>");
    push_str(&mut s, esc(head.as_str()).as_str());
    push_str(&mut s, "</h1>");
    push_str(&mut s, chip.as_str());
    s
}

fn render_entry_sources(id: usize, g: &GeneratedEntry, t: &SiteTables, xref: Option<&Xref>, raw_xref: &Xref) -> (r: String)
    ensures
        r@ == entry_sources(id, *g, *t, xref_opt(xref), *raw_xref),
{
    let mut ety = unified_etymology_section(
        g.borrowed,
        g.etymon.as_str(),
        g.proto.as_str(),
        &g.english_etymology,
        &t.editions,
        &g.native_etymology,
    );
    let conn = enrich_connections_section(&t.editions, &g.connections, xref, raw_xref, id);
    proof {
        assert(crate::etymology::editions_view(t.editions@) =~= pairs_view(t.editions@));
        assert(t.editions@.map_values(|x: (String, String)| (x.0@, x.1@)) =~= pairs_view(t.editions@));
    }
    push_str(&mut ety, conn.as_str());
    ety
}

fn render_entry_inflection(g: &GeneratedEntry, official: &Option<OfficialMatch>) -> (r: String)
    ensures
        r@ == entry_inflection(*g, *official),
{
    let head = corpus_headword(g, official);
    let q = urlencode_q(head.as_str());
    let mut s = string_from("<section><h2 id='pregibanje'>Prěgibanje</h2>");
    push_str(&mut s, g.inflection.as_str());
    push_str(&mut s, "<p class='muted'><a href='../forms.html?q=");
    push_str(&mut s, q.as_str());
    push_str(&mut s, "'>Vse eksportovane formy togo slova (obratny indeks) →</a></p></section>");
    s
}

fn push_entry_upper(
    s: &mut String,
    id: usize,
    g: &GeneratedEntry,
    official: &Option<OfficialMatch>,
    disp: &Option<OfficialDisplay>,
    wiki_top: &str,
    t: &SiteTables,
    xref: Option<&Xref>,
    raw_xref: &Xref,
)
    ensures
        final(s)@ == old(s)@ + entry_upper(id, *g, *official, *disp, wiki_top@, *t, xref_opt(xref), *raw_xref),
{
    let a = render_entry_head(g, official, disp, wiki_top);
    let b = render_entry_sources(id, g, t, xref, raw_xref);
    let c = render_entry_inflection(g, official);
    push_str(s, a.as_str());
    push_str(s, b.as_str());
    push_str(s, c.as_str());
}

fn render_cognates_section(g: &GeneratedEntry, t: &SiteTables) -> (r: String)
    ensures
        r@ == cognates_section(*g, *t),
{
    let mut s = string_from("<section><h2 id='cognaty'>Srodne slova — ");
    push_decimal(&mut s, g.n_langs);
    push_str(&mut s, " językov</h2>");
    push_str(&mut s, cognate_block(&t.branch_labels, &g.cognates).as_str());
    push_str(&mut s, g.raw_credit.as_str());
    push_str(&mut s, "</section>");
    s
}

fn render_trace_section(g: &GeneratedEntry) -> (r: String)
    ensures
        r@ == trace_section(*g),
{
    let mut s = string_from("<section><h2 id='sled'>Sled pravil</h2>");
    push_str(&mut s, trace_block(&g.top).as_str());
    push_str(&mut s, "</section>");
    s
}

fn render_disp_sections(disp: &Option<OfficialDisplay>, t: &SiteTables) -> (r: String)
    ensures
        r@ == disp_sections(*disp, *t),
{
    match disp {
        Some(o) => official_display_sections(o, &t.official_cols, &t.lang_names),
        None => String::new(),
    }
}

#[verifier::rlimit(40)]
fn push_entry_lower(
    s: &mut String,
    g: &GeneratedEntry,
    official: &Option<OfficialMatch>,
    disp: &Option<OfficialDisplay>,
    family: &str,
    synonyms: &str,
    derivation: &str,
    wiki_bottom: &str,
    t: &SiteTables,
)
    ensures
        final(s)@ == old(s)@ + entry_lower(*g, *official, *disp, family@, synonyms@, derivation@, wiki_bottom@, *t),
{
    let a = render_disp_sections(disp, t);
    let b = word_formation_block(derivation, family);
    let c = render_cognates_section(g, t);
    let d = render_trace_section(g);
    let foot = if official.is_some() {
        "Oficialne slovo; rekonstrukcija i dokazy mašinno generovane (Wiktionary, CC BY-SA)."
    } else {
        "Mašinno generovana rekonstrukcija iz srodnyh slov (Wiktionary, CC BY-SA). Ne oficialny standard."
    };
    push_str(s, a.as_str());
    push_str(s, synonyms);
    push_str(s, b.as_str());
    push_str(s, c.as_str());
    push_str(s, d.as_str());
    push_str(s, wiki_bottom);
    push_str(s, "<p class='foot'>");
    push_str(s, foot);
    push_str(s, "</p></div>");
}

fn push_entry_rail(
    s: &mut String,
    g: &GeneratedEntry,
    status: MatchStatus,
    official: &Option<OfficialMatch>,
    meta: &SiteEntryMeta,
    folded_ancestor: &str,
    t: &SiteTables,
)
    ensures
        final(s)@ == old(s)@ + entry_rail(*g, status, *official, *meta, folded_ancestor@, *t),
{
    let title = if official.is_some() {
        t.razum_title_matched.as_str()
    } else {
        t.razum_title.as_str()
    };
    let mut rows = String::new();
    push_info_rows(&mut rows, g, status, official);
    push_str(s, "<aside class='entry-rail'>");
    push_str(s, entry_infobox(meta, rows.as_str(), folded_ancestor).as_str());
    push_str(s, "<section class='rail-box'><h2 id='formy'>Formy i kandidaty</h2>");
    push_str(s, alternatives_block(&g.alternatives, title).as_str());
    push_str(s, "</section></aside></div></article>");
}

/// The page of a generated entry. The headword is the official lemma when
/// one of the candidates reproduces it (`official`), else the top
/// candidate; the infobox gives the meaning (the official one when it is
/// not blank), the reconstruction when it differs from the headword, the
/// top candidate's source and status, and how the headword relates to the
/// dictionary. `disp` is the committee's data for a matched lemma.
pub fn corpus_entry_page(
    id: usize,
    g: &GeneratedEntry,
    status: MatchStatus,
    official: &Option<OfficialMatch>,
    disp: &Option<OfficialDisplay>,
    family: &str,
    synonyms: &str,
    derivation: &str,
    wiki_top: &str,
    wiki_bottom: &str,
    meta: &SiteEntryMeta,
    folded_ancestor: &str,
    t: &SiteTables,
    xref: Option<&Xref>,
    raw_xref: &Xref,
) -> (r: String)
    ensures
        r@ == site_page_spec(
            headword_spec(g.top.form@, *official) + " — medžuslovjansky"@,
            entry_upper(id, *g, *official, *disp, wiki_top@, *t, xref_opt(xref), *raw_xref) + entry_lower(
                *g,
                *official,
                *disp,
                family@,
                synonyms@,
                derivation@,
                wiki_bottom@,
                *t,
            ) + entry_rail(*g, status, *official, *meta, folded_ancestor@, *t),
            1,
        ),
{
    let mut body = String::new();
    push_entry_upper(&mut body, id, g, official, disp, wiki_top, t, xref, raw_xref);
    push_entry_lower(&mut body, g, official, disp, family, synonyms, derivation, wiki_bottom, t);
    push_entry_rail(&mut body, g, status, official, meta, folded_ancestor, t);
    let mut title = corpus_headword(g, official);
    push_str(&mut title, " — medžuslovjansky");
    site_page(title.as_str(), body.as_str(), 1)
}

/// An official lemma the generator does not derive, with what its page
/// shows.
pub struct OfficialOnlyEntry {
    pub isv: String,
    pub english: String,
    pub display: OfficialDisplay,
    /// The committee's cognate forms: language name and the form in
    /// Interslavic-flavoured spelling.
    pub evidence: Vec<(String, String)>,
    pub native_etymology: Vec<NativeEtymology>,
    pub connections: Vec<ConnMember>,
    /// The inflection table of the lemma.
    pub inflection: String,
    /// The credit line for raw attestations folded into the entry (may be
    /// empty).
    pub raw_credit: String,
}

/// The rows of the first `n` cognate forms.
pub open spec fn evidence_rows_upto(ev: Seq<(Seq<char>, Seq<char>)>, n: int) -> Seq<char>
    decreases n,
{
    if n <= 0 {
        Seq::empty()
    } else {
        evidence_rows_upto(ev, n - 1) + "<tr><td class='lc'>"@ + esc_spec(ev[n - 1].0) + "</td><td>"@ + esc_spec(
            ev[n - 1].1,
        ) + "</td></tr>"@
    }
}

/// The committee's cognate forms as a table, or a note that there are
/// none.
pub open spec fn official_cognates(ev: Seq<(Seq<char>, Seq<char>)>) -> Seq<char> {
    if ev.len() == 0 {
        "<p class='muted'>Bez slovjanskogo srodnogo dokaza v slovniku.</p>"@
    } else {
        "<table class='wikitable compact-table'><tbody>"@ + evidence_rows_upto(ev, ev.len() as int) + "</tbody></table>"@
    }
}

/// The main column of an official-only page up to the inflection section.
pub open spec fn official_upper(
    id: usize,
    e: OfficialOnlyEntry,
    wiki_top: Seq<char>,
    t: SiteTables,
    xref: Option<Xref>,
    raw_xref: Xref,
) -> Seq<char> {
    let eds = pairs_view(t.editions@);
    "<article class='entry entry-with-rail'>"@ + wiki_top
        + "<div class='entry-grid'><div class='entry-main'><h1 class='page-title firstHeading'>"@ + esc_spec(e.isv@)
        + "</h1>"@ + frequency_chip_spec(e.display.frequency) + official_etymology_spec(eds, e.native_etymology@)
        + connections_spec(eds, e.connections@, xref, raw_xref, id) + "<section><h2 id='pregibanje'>Prěgibanje</h2>"@
        + e.inflection@ + "<p class='muted'><a href='../forms.html?q="@ + urlencode_q_spec(e.isv@)
        + "'>Vse eksportovane formy togo slova (obratny indeks) →</a></p></section>"@
}

/// The rest of an official-only page.
pub open spec fn official_lower(
    e: OfficialOnlyEntry,
    synonyms: Seq<char>,
    derivation: Seq<char>,
    wiki_bottom: Seq<char>,
    meta: SiteEntryMeta,
    folded_ancestor: Seq<char>,
    t: SiteTables,
) -> Seq<char> {
    display_sections_spec(e.display, pairs_view(t.official_cols@), pairs_view(t.lang_names@)) + synonyms
        + word_formation_block_spec(derivation, ""@) + "<section><h2 id='cognaty'>Srodne slova</h2>"@
        + official_cognates(pairs_view(e.evidence@)) + e.raw_credit@ + "</section>"@ + wiki_bottom
        + "<p class='foot'>Oficialne slovo: interslavic-dictionary.com. Prěgibanje mašinno generovano.</p></div><aside class='entry-rail'>"@
        + infobox_spec(
        meta,
        "<tr><th>Smysl</th><td>"@ + esc_spec(e.english@)
            + "</td></tr><tr><th>Opomba</th><td>Generator ješče ne izvodi tu formu iz srodnogo dokaza.</td></tr>"@,
        folded_ancestor,
    ) + "</aside></div></article>"@
}

fn render_official_cognates(ev: &Vec<(String, String)>) -> (r: String)
    ensures
        r@ == official_cognates(pairs_view(ev@)),
{
    if ev.len() == 0 {
        return string_from("<p class='muted'>Bez slovjanskogo srodnogo dokaza v slovniku.</p>");
    }
    let ghost v = pairs_view(ev@);
    let mut s = string_from("<table class='wikitable compact-table'><tbody>");
    let ghost head = s@;
    let mut i: usize = 0;
    while i < ev.len()
        invariant
            v == pairs_view(ev@),
            i <= ev@.len(),
            s@ == head + evidence_rows_upto(v, i as int),
        decreases ev@.len() - i,
    {
        assert(v[i as int] == (ev@[i as int].0@, ev@[i as int].1@));
        push_str(&mut s, "<tr><td class='lc'>");
        push_str(&mut s, esc(ev[i].0.as_str()).as_str());
        push_str(&mut s, "</td><td>");
        push_str(&mut s, esc(ev[i].1.as_str()).as_str());
        push_str(&mut s, "</td></tr>");
        i += 1;
    }
    push_str(&mut s, "</tbody></table>");
    s
}

fn push_official_upper(
    s: &mut String,
    id: usize,
    e: &OfficialOnlyEntry,
    wiki_top: &str,
    t: &SiteTables,
    xref: Option<&Xref>,
    raw_xref: &Xref,
)
    ensures
        final(s)@ == old(s)@ + official_upper(id, *e, wiki_top@, *t, xref_opt(xref), *raw_xref),
{
    let chip = official_frequency_chip(&e.display.frequency);
    let ety = unified_official_etymology_section(&t.editions, &e.native_etymology);
    let conn = enrich_connections_section(&t.editions, &e.connections, xref, raw_xref, id);
    proof {
        assert(crate::etymology::editions_view(t.editions@) =~= pairs_view(t.editions@));
        assert(t.editions@.map_values(|x: (String, String)| (x.0@, x.1@)) =~= pairs_view(t.editions@));
    }
    let q = urlencode_q(e.isv.as_str());
    push_str(s, "<article class='entry entry-with-rail'>");
    push_str(s, wiki_top);
    push_str(s, "<div class='entry-grid'><div class='entry-main'><h1 class='page-title firstHeading'>");
    push_str(s, esc(e.isv.as_str()).as_str());
    push_str(s, "</h1>");
    push_str(s, chip.as_str());
    push_str(s, ety.as_str());
    push_str(s, conn.as_str());
    push_str(s, "<section><h2 id='pregibanje'>Prěgibanje</h2>");
    push_str(s, e.inflection.as_str());
    push_str(s, "<p class='muted'><a href='../forms.html?q=");
    push_str(s, q.as_str());
    push_str(s, "'>Vse eksportovane formy togo slova (obratny indeks) →</a></p></section>");
}

fn push_official_lower(
    s: &mut String,
    e: &OfficialOnlyEntry,
    synonyms: &str,
    derivation: &str,
    wiki_bottom: &str,
    meta: &SiteEntryMeta,
    folded_ancestor: &str,
    t: &SiteTables,
)
    ensures
        final(s)@ == old(s)@ + official_lower(*e, synonyms@, derivation@, wiki_bottom@, *meta, folded_ancestor@, *t),
{
    let sections = official_display_sections(&e.display, &t.official_cols, &t.lang_names);
    let wf = word_formation_block(derivation, "");
    let cog = render_official_cognates(&e.evidence);
    let mut rows = string_from("<tr><th>Smysl</th><td>");
    push_str(&mut rows, esc(e.english.as_str()).as_str());
    push_str(&mut rows, "</td></tr><tr><th>Opomba</th><td>Generator ješče ne izvodi tu formu iz srodnogo dokaza.</td></tr>");
    let card = entry_infobox(meta, rows.as_str(), folded_ancestor);
    push_str(s, sections.as_str());
    push_str(s, synonyms);
    push_str(s, wf.as_str());
    push_str(s, "<section><h2 id='cognaty'>Srodne slova</h2>");
    push_str(s, cog.as_str());
    push_str(s, e.raw_credit.as_str());
    push_str(s, "</section>");
    push_str(s, wiki_bottom);
    push_str(s, "<p class='foot'>Oficialne slovo: interslavic-dictionary.com. Prěgibanje mašinno generovano.</p></div><aside class='entry-rail'>");
    push_str(s, card.as_str());
    push_str(s, "</aside></div></article>");
}

/// The page of an official lemma that the generator does not derive: the
/// committee's headword, meaning, data and cognate forms, the native
/// etymologies and connections, and the inflection, clearly marked as not
/// derived.
pub fn official_only_page(
    id: usize,
    e: &OfficialOnlyEntry,
    synonyms: &str,
    derivation: &str,
    wiki_top: &str,
    wiki_bottom: &str,
    meta: &SiteEntryMeta,
    folded_ancestor: &str,
    t: &SiteTables,
    xref: Option<&Xref>,
    raw_xref: &Xref,
) -> (r: String)
    ensures
        r@ == site_page_spec(
            e.isv@ + " — medžuslovjansky"@,
            official_upper(id, *e, wiki_top@, *t, xref_opt(xref), *raw_xref) + official_lower(
                *e,
                synonyms@,
                derivation@,
                wiki_bottom@,
                *meta,
                folded_ancestor@,
                *t,
            ),
            1,
        ),
{
    let mut body = String::new();
    push_official_upper(&mut body, id, e, wiki_top, t, xref, raw_xref);
    push_official_lower(&mut body, e, synonyms, derivation, wiki_bottom, meta, folded_ancestor, t);
    let mut title = string_from(e.isv.as_str());
    push_str(&mut title, " — medžuslovjansky");
    site_page(title.as_str(), body.as_str(), 1)
}

/// A generated sense of an official entry, with what its page shows.
pub struct Generation {
    /// The best candidate form.
    pub top: Candidate,
    /// The name of its source.
    pub top_source_label: String,
    /// Its calibrated confidence and that level's name.
    pub conf: Confidence,
    pub conf_label: String,
    /// How the generated form compares with the official one.
    pub status: MatchStatus,
    /// The official lemma.
    pub official: String,
    /// The official English meaning.
    pub english: String,
    /// The frequency in the dictionary, rounded, when it has one.
    pub frequency: Option<String>,
    pub reconstruction: Option<Reconstruction>,
    /// The inflection table of the top form.
    pub inflection: String,
    pub evidence: Vec<EvidenceRow>,
    pub alternatives: Vec<AlternativeRow>,
    /// What the committed calibrator measured, if there is one.
    pub calibration: Option<CalibrationView>,
    /// The explanation of the intelligibility column.
    pub razum_title: String,
}

/// The headword block: part of speech, source, confidence, status and
/// meaning.
pub open spec fn generation_headline(e: Generation, pos_heading: Seq<char>) -> Seq<char> {
    "<div class='headword-block'>\n           <div class='headmeta'>\n             <span class='badge pos'>"@
        + esc_spec(pos_heading) + "</span>\n             <span class='pill "@
        + source_class_spec(e.top.source) + "'>"@
        + esc_spec(e.top_source_label@) + "</span>\n             <span class='reliability "@
        + conf_class_spec(e.conf) + "'>uvěrjenost: "@
        + e.conf_label@ + "</span>\n             "@
        + status_pill_spec(e.status) + "\n           </div>\n           <p class='def'><b>Anglijski smysl:</b> "@
        + esc_spec(e.english@) + "</p>\n         </div>"@
}

/// The frequency line, when the dictionary gives one.
pub open spec fn generation_freq(f: Option<String>) -> Seq<char> {
    match f {
        Some(f) => "<p class='muted'>Čęstota v slovniku: "@ + f@ + ".</p>"@,
        None => Seq::empty(),
    }
}

/// The body of a generated sense's page.
pub open spec fn generation_body(e: Generation, pos_heading: Seq<char>, labels: Seq<Seq<char>>) -> Seq<char> {
    "<article class='entry'>\n           <h1 class='page-title firstHeading'>"@
        + esc_spec(e.top.form@) + "</h1>\n           "@
        + status_banner_spec(e.status, e.top.form@, e.official@) + "\n           "@
        + generation_headline(e, pos_heading) + "\n           "@
        + calibration_note_spec(e.conf, e.calibration) + ""@
        + generation_freq(e.frequency) + "\n           <details class='sec' open><summary>Etimologija (praslovjanska rekonstrukcija)</summary>"@
        + etymology_block_spec(e.reconstruction) + "</details>\n           <details class='sec' open><summary>Prěgibanje</summary>"@
        + e.inflection@ + "</details>\n           <details class='sec' open><summary>Dokazy po slovjanskyh větvah</summary>"@
        + evidence_block_spec(labels, e.evidence@) + "</details>\n           <details class='sec'><summary>Alternativne kandidaty</summary>"@
        + alternatives_block_spec(e.alternatives@, e.razum_title@) + "</details>\n           <details class='sec'><summary>Sled pravil (kako je forma izvedena)</summary>"@
        + trace_block_spec(e.top) + "</details>\n           <p class='foot'>Lokalno generovana stranica. Formy prěgibanja iz interslavic-rs. Forma je mašinno generovana — ne oficialny standard bez prověrky.</p>\n         </article>"@
}

fn render_generation_headline(e: &Generation, pos_heading: &str) -> (r: String)
    ensures
        r@ == generation_headline(*e, pos_heading@),
{
    let mut s = string_from("<div class='headword-block'>\n           <div class='headmeta'>\n             <span class='badge pos'>");
    push_str(&mut s, esc(pos_heading).as_str());
    push_str(&mut s, "</span>\n             <span class='pill ");
    push_str(&mut s, source_class(e.top.source));
    push_str(&mut s, "'>");
    push_str(&mut s, esc(e.top_source_label.as_str()).as_str());
    push_str(&mut s, "</span>\n             <span class='reliability ");
    push_str(&mut s, conf_class(e.conf));
    push_str(&mut s, "'>uvěrjenost: ");
    push_str(&mut s, e.conf_label.as_str());
    push_str(&mut s, "</span>\n             ");
    push_str(&mut s, status_pill(e.status));
    push_str(&mut s, "\n           </div>\n           <p class='def'><b>Anglijski smysl:</b> ");
    push_str(&mut s, esc(e.english.as_str()).as_str());
    push_str(&mut s, "</p>\n         </div>");
    s
}

/// The page of a generated sense of an official entry: the top form with
/// the status banner, the headword block (`pos_heading` names the part of
/// speech), the calibration note and frequency, then the etymology,
/// inflection, evidence by branch (`labels` naming the branches),
/// alternative candidates and the rule trace.
pub fn entry_page(e: &Generation, pos_heading: &str, labels: &Vec<String>) -> (r: String)
    ensures
        r@ == site_page_spec(
            e.top.form@ + " — medžuslovjansky"@,
            generation_body(*e, pos_heading@, strs_view(labels@)),
            1,
        ),
{
    let headline = render_generation_headline(e, pos_heading);
    let freq = match &e.frequency {
        Some(f) => {
            let mut x = string_from("<p class='muted'>Čęstota v slovniku: ");
            push_str(&mut x, f.as_str());
            push_str(&mut x, ".</p>");
            x
        },
        None => String::new(),
    };
    let mut body = string_from("<article class='entry'>\n           <h1 class='page-title firstHeading'>");
    push_str(&mut body, esc(e.top.form.as_str()).as_str());
    push_str(&mut body, "</h1>\n           ");
    push_str(&mut body, status_banner(e.status, &e.top, e.official.as_str()).as_str());
    push_str(&mut body, "\n           ");
    push_str(&mut body, headline.as_str());
    push_str(&mut body, "\n           ");
    push_str(&mut body, calibration_note(e.conf, &e.calibration).as_str());
    push_str(&mut body, "");
    push_str(&mut body, freq.as_str());
    push_str(&mut body, "\n           <details class='sec' open><summary>Etimologija (praslovjanska rekonstrukcija)</summary>");
    push_str(&mut body, etymology_block(&e.reconstruction).as_str());
    push_str(&mut body, "</details>\n           <details class='sec' open><summary>Prěgibanje</summary>");
    push_str(&mut body, e.inflection.as_str());
    push_str(&mut body, "</details>\n           <details class='sec' open><summary>Dokazy po slovjanskyh větvah</summary>");
    push_str(&mut body, evidence_block(labels, &e.evidence).as_str());
    push_str(&mut body, "</details>\n           <details class='sec'><summary>Alternativne kandidaty</summary>");
    push_str(&mut body, alternatives_block(&e.alternatives, e.razum_title.as_str()).as_str());
    push_str(&mut body, "</details>\n           <details class='sec'><summary>Sled pravil (kako je forma izvedena)</summary>");
    push_str(&mut body, trace_block(&e.top).as_str());
    push_str(&mut body, "</details>\n           <p class='foot'>Lokalno generovana stranica. Formy prěgibanja iz interslavic-rs. Forma je mašinno generovana — ne oficialny standard bez prověrky.</p>\n         </article>");
    let mut title = string_from(e.top.form.as_str());
    push_str(&mut title, " — medžuslovjansky");
    site_page(title.as_str(), body.as_str(), 1)
}

} // verus!

//! What the site knows of each entry page, and the renderers that read only
//! that: quality labels, automatic categories, issue links, the word index
//! tables, the sitemap and the semantic link graph.

use vstd::prelude::*;
use crate::coverage::{lemma_is_the_tally, occurrences, tally_add, tally_of, tally_spec, tally_view};
use crate::english_index::{copy_string, seq_lt};
use crate::graph::LinkEdge;
use crate::xref::{index_lookup, xref_lookup, HeadwordIndex, Xref};
use crate::categories::{category_title, first_bucket, first_bucket_spec, add_category_path, add_path_spec, paths_view, slug, slug_spec, strs_view};
use crate::split::{join_spec, split_ws, ws_tokens};
use vstd::utf8::encode_utf8;
use crate::layout::{compact, compact_spec, esc, esc_spec, query_escape, query_escape_spec, truncate, truncate_spec, REPO_URL};
use crate::model::{Confidence, MatchStatus};
use crate::strs::{chars_of, decimal, push_decimal, push_str, str_eq, string_from, string_of, trim_is_empty, trim_spec};

verus! {

/// The site's metadata of one entry page.
pub struct SiteEntryMeta {
    pub id: usize,
    pub title: String,
    pub gloss: String,
    /// Part of speech as the source wrote it.
    pub pos: String,
    /// The Interslavic heading of that part of speech.
    pub pos_heading: String,
    pub status: MatchStatus,
    pub conf: Confidence,
    /// The confidence bucket's display label.
    pub conf_label: String,
    pub n_langs: usize,
    pub n_branches: usize,
    pub borrowed: bool,
    pub official_only: bool,
    /// A low-evidence raw Wiktionary attestation, shown on the site only.
    pub raw: bool,
    pub official_lemma: Option<String>,
    pub ancestor: String,
    pub languages: Vec<String>,
    /// The alphabetical-index bucket of the title.
    pub first: String,
    pub categories: Vec<Vec<String>>,
    /// The grammatical aspect of an official verb (`ipf`, `pf`, ...).
    pub aspect: Option<String>,
    /// The aspect partners: page id and title of each.
    pub aspect_partners: Vec<(usize, String)>,
}

/// The public address of the site.
pub const SITE_URL: &'static str = "https://grift.rs/Slovowiki/";

/// The part-of-speech label of a raw code: its heading, or `—` when the
/// code is blank.
pub open spec fn pos_code_label_spec(raw: Seq<char>, heading: Seq<char>) -> Seq<char> {
    if trim_spec(raw).len() == 0 {
        "—"@
    } else {
        heading
    }
}

/// The part-of-speech label shown for a raw code whose heading is `heading`.
pub fn pos_code_label(raw: &str, heading: &str) -> (r: String)
    ensures
        r@ == pos_code_label_spec(raw@, heading@),
{
    if trim_is_empty(raw) {
        string_from("—")
    } else {
        string_from(heading)
    }
}

/// The quality badge of an entry.
pub open spec fn quality_label_spec(m: SiteEntryMeta) -> Seq<char> {
    if m.raw {
        "surova atestacija"@
    } else if m.official_only {
        "samo oficialno"@
    } else if m.official_lemma is Some {
        "oficialne sovpadenje"@
    } else if m.conf == Confidence::High && m.n_branches >= 3 {
        "vysoko dokazano"@
    } else if m.conf == Confidence::Low || m.n_branches < 2 {
        "trěbuje prověrky"@
    } else {
        "generovano"@
    }
}

/// The quality badge of an entry: raw attestation, official-only, official
/// match, well attested, needs review, or plain generated.
pub fn quality_label(m: &SiteEntryMeta) -> (r: &'static str)
    ensures
        r@ == quality_label_spec(*m),
{
    if m.raw {
        "surova atestacija"
    } else if m.official_only {
        "samo oficialno"
    } else if m.official_lemma.is_some() {
        "oficialne sovpadenje"
    } else if m.conf == Confidence::High && m.n_branches >= 3 {
        "vysoko dokazano"
    } else if m.conf == Confidence::Low || m.n_branches < 2 {
        "trěbuje prověrky"
    } else {
        "generovano"
    }
}

/// The status category of an entry.
pub open spec fn status_category(m: SiteEntryMeta) -> Seq<char> {
    if m.official_only {
        "oficialne slova bez generacije"@
    } else if m.official_lemma is Some {
        "oficialne sovpadenja"@
    } else {
        "generovane kandidaty"@
    }
}

/// The etymology category of an entry.
pub open spec fn etymology_category(m: SiteEntryMeta) -> Seq<char> {
    if m.borrowed {
        "internacionalizmy i zaimky"@
    } else {
        "naslědovane praslovjanske slova"@
    }
}

/// The automatic category paths of an entry, before its Wiktionary ones.
pub open spec fn auto_category_paths(m: SiteEntryMeta) -> Seq<Seq<Seq<char>>> {
    seq![
        seq!["Čęsti rěči"@, m.pos_heading@],
        seq!["Uvěrjenost"@, m.conf_label@],
        seq!["Stav"@, status_category(m)],
        seq!["Etimologija"@, etymology_category(m)],
        seq!["Pokrytje větvi"@, decimal(m.n_branches as nat) + " větvy"@],
        seq!["Kvaliteta"@, quality_label_spec(m)],
    ]
}

/// The category list after adding each of `paths` in turn.
pub open spec fn add_paths_spec(cats: Seq<Seq<Seq<char>>>, paths: Seq<Seq<Seq<char>>>) -> Seq<Seq<Seq<char>>>
    decreases paths.len(),
{
    if paths.len() == 0 {
        cats
    } else {
        add_path_spec(add_paths_spec(cats, paths.drop_last()), paths.last())
    }
}

/// Adding the first `k` paths is adding the first `k - 1`, then the `k`-th.
proof fn lemma_add_paths_step(cats: Seq<Seq<Seq<char>>>, paths: Seq<Seq<Seq<char>>>, k: int)
    requires
        0 < k <= paths.len(),
    ensures
        add_paths_spec(cats, paths.take(k)) == add_path_spec(add_paths_spec(cats, paths.take(k - 1)), paths[k - 1]),
{
    assert(paths.take(k).drop_last() =~= paths.take(k - 1));
}

/// A category path of two parts.
fn two(a: &str, b: &str) -> (r: Vec<String>)
    ensures
        strs_view(r@) == seq![a@, b@],
{
    let mut v: Vec<String> = Vec::new();
    v.push(string_from(a));
    v.push(string_from(b));
    assert(strs_view(v@) =~= seq![a@, b@]);
    v
}

/// The categories of an entry page: part of speech, confidence, status,
/// etymology, branch coverage and quality, then the Wiktionary topic paths;
/// each path trimmed and listed once.
pub fn entry_categories(m: &SiteEntryMeta, wiki_categories: Vec<Vec<String>>) -> (r: Vec<Vec<String>>)
    ensures
        paths_view(r@) == add_paths_spec(Seq::empty(), auto_category_paths(*m) + paths_view(wiki_categories@)),
{
    let ghost auto = auto_category_paths(*m);
    let ghost all = auto + paths_view(wiki_categories@);
    let ghost e = Seq::<Seq<Seq<char>>>::empty();
    let mut cats: Vec<Vec<String>> = Vec::new();
    assert(paths_view(cats@) =~= e);
    assert(all.take(0) =~= Seq::<Seq<Seq<char>>>::empty());
    add_category_path(&mut cats, two("Čęsti rěči", m.pos_heading.as_str()));
    proof { lemma_add_paths_step(e, all, 1); }
    assert(all[0] == auto[0]);
    add_category_path(&mut cats, two("Uvěrjenost", m.conf_label.as_str()));
    proof { lemma_add_paths_step(e, all, 2); }
    assert(all[1] == auto[1]);
    let stav = if m.official_only {
        "oficialne slova bez generacije"
    } else if m.official_lemma.is_some() {
        "oficialne sovpadenja"
    } else {
        "generovane kandidaty"
    };
    add_category_path(&mut cats, two("Stav", stav));
    proof { lemma_add_paths_step(e, all, 3); }
    assert(all[2] == auto[2]);
    let etym = if m.borrowed {
        "internacionalizmy i zaimky"
    } else {
        "naslědovane praslovjanske slova"
    };
    add_category_path(&mut cats, two("Etimologija", etym));
    proof { lemma_add_paths_step(e, all, 4); }
    assert(all[3] == auto[3]);
    let mut branches = String::new();
    push_decimal(&mut branches, m.n_branches);
    push_str(&mut branches, " větvy");
    add_category_path(&mut cats, two("Pokrytje větvi", branches.as_str()));
    proof { lemma_add_paths_step(e, all, 5); }
    assert(all[4] == auto[4]);
    add_category_path(&mut cats, two("Kvaliteta", quality_label(m)));
    proof { lemma_add_paths_step(e, all, 6); }
    assert(all[5] == auto[5]);
    let mut i: usize = 0;
    while i < wiki_categories.len()
        invariant
            i <= wiki_categories@.len(),
            all == auto + paths_view(wiki_categories@),
            auto.len() == 6,
            paths_view(cats@) == add_paths_spec(Seq::empty(), all.take(6 + i)),
        decreases wiki_categories@.len() - i,
    {
        let path = crate::english_index::copy_strings(&wiki_categories[i]);
        add_category_path(&mut cats, path);
        proof { lemma_add_paths_step(Seq::empty(), all, 6 + i + 1); }
        assert(all[6 + i] == strs_view(wiki_categories@[i as int]@));
        assert(crate::english_index::sv(path@) == strs_view(path@));
        i += 1;
    }
    assert(all.take(6 + i) =~= all);
    cats
}

/// The title of the issue that reports a problem with an entry.
pub open spec fn issue_title_spec(m: SiteEntryMeta) -> Seq<char> {
    "Problem so zapisom: "@ + m.title@
}

/// The prefilled body of that issue.
pub open spec fn issue_body_spec(m: SiteEntryMeta) -> Seq<char> {
    "Zapis: "@ + m.title@ + "\nStrana: entry/"@ + decimal(m.id as nat) + ".html\nČęst rěči: "@
        + pos_code_label_spec(m.pos@, m.pos_heading@) + "\nSmysl: "@ + m.gloss@
        + "\n\nOpiši popravku ili dokaz tut:"@
}

/// The new-issue link of an entry, title and body form-encoded.
pub open spec fn issue_url_spec(m: SiteEntryMeta) -> Seq<char> {
    REPO_URL@ + "/issues/new?title="@ + query_escape_spec(encode_utf8(issue_title_spec(m))) + "&body="@
        + query_escape_spec(encode_utf8(issue_body_spec(m)))
}

/// A link that opens a new repository issue about the entry, with its
/// title, page, part of speech and gloss filled in.
pub fn issue_url(m: &SiteEntryMeta) -> (r: String)
    ensures
        r@ == issue_url_spec(*m),
{
    let mut title = string_from("Problem so zapisom: ");
    push_str(&mut title, m.title.as_str());
    let mut body = string_from("Zapis: ");
    push_str(&mut body, m.title.as_str());
    push_str(&mut body, "\nStrana: entry/");
    push_decimal(&mut body, m.id);
    push_str(&mut body, ".html\nČęst rěči: ");
    push_str(&mut body, pos_code_label(m.pos.as_str(), m.pos_heading.as_str()).as_str());
    push_str(&mut body, "\nSmysl: ");
    push_str(&mut body, m.gloss.as_str());
    push_str(&mut body, "\n\nOpiši popravku ili dokaz tut:");
    let mut r = string_from(REPO_URL);
    push_str(&mut r, "/issues/new?title=");
    push_str(&mut r, query_escape(title.as_str()).as_str());
    push_str(&mut r, "&body=");
    push_str(&mut r, query_escape(body.as_str()).as_str());
    r
}

/// The tab strip above an entry: the page, its talk page, what links here,
/// its node in the graph, and the issue link.
pub open spec fn entry_tabs_spec(m: SiteEntryMeta) -> Seq<char> {
    let id = decimal(m.id as nat);
    "<nav class='entry-tabs'><a class='active' href='"@ + id + ".html'>Strana</a><a href='../talk/"@ + id
        + ".html'>Diskusija</a><a href='../what-links-here/"@ + id + ".html'>Čto kaže sem</a><a href='../graph.html#n"@
        + id + "'>Graf</a><a href='"@ + esc_spec(issue_url_spec(m)) + "'>Popraviti / problem</a></nav>"@
}

/// The tab strip above an entry page.
pub fn entry_tabs(m: &SiteEntryMeta) -> (r: String)
    ensures
        r@ == entry_tabs_spec(*m),
{
    let mut r = string_from("<nav class='entry-tabs'><a class='active' href='");
    push_decimal(&mut r, m.id);
    push_str(&mut r, ".html'>Strana</a><a href='../talk/");
    push_decimal(&mut r, m.id);
    push_str(&mut r, ".html'>Diskusija</a><a href='../what-links-here/");
    push_decimal(&mut r, m.id);
    push_str(&mut r, ".html'>Čto kaže sem</a><a href='../graph.html#n");
    push_decimal(&mut r, m.id);
    push_str(&mut r, "'>Graf</a><a href='");
    push_str(&mut r, esc(issue_url(m).as_str()).as_str());
    push_str(&mut r, "'>Popraviti / problem</a></nav>");
    r
}

/// The language a borrowing comes from, by the first word of its ancestor.
pub open spec fn borrowing_source_spec(ancestor: Seq<char>) -> Seq<char> {
    let t = ws_tokens(ancestor);
    let src = if t.len() > 0 { t[0] } else { Seq::empty() };
    if src == "la"@ || src == "ML."@ || src == "LL."@ || src == "la-med"@ || src == "la-lat"@ {
        "latinsky"@
    } else if src == "grc"@ || src == "el"@ {
        "grečsky"@
    } else if src == "de"@ || src == "gmh"@ {
        "němečsky"@
    } else if src == "fr"@ || src == "frm"@ || src == "fro"@ {
        "francuzsky"@
    } else if src == "en"@ {
        "anglijsky"@
    } else if src == "it"@ {
        "italijsky"@
    } else if src == "tr"@ || src == "ota"@ {
        "turecky"@
    } else if src == "ar"@ {
        "arabsky"@
    } else if src.len() == 0 {
        "neznany"@
    } else {
        src
    }
}

/// Whether `v` spells one of `names`.
fn one_of(v: &str, names: &[&str]) -> (r: bool)
    ensures
        r == exists|k: int| 0 <= k < names@.len() && v@ == (#[trigger] names@[k])@,
{
    let mut k: usize = 0;
    while k < names.len()
        invariant
            k <= names@.len(),
            forall|j: int| 0 <= j < k ==> v@ != (#[trigger] names@[j])@,
        decreases names@.len() - k,
    {
        if str_eq(v, names[k]) {
            return true;
        }
        k += 1;
    }
    false
}

/// The source language of a borrowed entry, named in Interslavic, by the
/// language code that opens its ancestor; the code itself when it is not
/// one of the common ones, `neznany` when there is none.
pub fn borrowing_source(m: &SiteEntryMeta) -> (r: String)
    ensures
        r@ == borrowing_source_spec(m.ancestor@),
{
    let toks = split_ws(&chars_of(m.ancestor.as_str()));
    let src = if toks.len() > 0 { string_of(&toks[0]) } else { String::new() };
    let s = src.as_str();
    let la: [&str; 5] = ["la", "ML.", "LL.", "la-med", "la-lat"];
    let gr: [&str; 2] = ["grc", "el"];
    let de: [&str; 2] = ["de", "gmh"];
    let fr: [&str; 3] = ["fr", "frm", "fro"];
    let tr: [&str; 2] = ["tr", "ota"];
    let r = if one_of(s, la.as_slice()) {
        assert(la@[0]@ == "la"@ && la@[1]@ == "ML."@ && la@[2]@ == "LL."@ && la@[3]@ == "la-med"@ && la@[4]@ == "la-lat"@);
        "latinsky"
    } else if one_of(s, gr.as_slice()) {
        assert(gr@[0]@ == "grc"@ && gr@[1]@ == "el"@);
        "grečsky"
    } else if one_of(s, de.as_slice()) {
        assert(de@[0]@ == "de"@ && de@[1]@ == "gmh"@);
        "němečsky"
    } else if one_of(s, fr.as_slice()) {
        assert(fr@[0]@ == "fr"@ && fr@[1]@ == "frm"@ && fr@[2]@ == "fro"@);
        "francuzsky"
    } else if str_eq(s, "en") {
        "anglijsky"
    } else if str_eq(s, "it") {
        "italijsky"
    } else if one_of(s, tr.as_slice()) {
        assert(tr@[0]@ == "tr"@ && tr@[1]@ == "ota"@);
        "turecky"
    } else if str_eq(s, "ar") {
        "arabsky"
    } else if s.is_empty() {
        "neznany"
    } else {
        s
    };
    string_from(r)
}

/// The slug of an entry's ancestor for its root page, given the standard
/// ASCII fold of the ancestor without its leading asterisks: none for a
/// borrowing or a blank ancestor.
pub fn ancestor_slug(m: &SiteEntryMeta, folded_ancestor: &str) -> (r: Option<String>)
    ensures
        r matches Some(v) ==> v@ == slug_spec(folded_ancestor@),
        r is None <==> (trim_spec(m.ancestor@).len() == 0 || m.borrowed),
{
    if trim_is_empty(m.ancestor.as_str()) || m.borrowed {
        None
    } else {
        Some(slug(folded_ancestor))
    }
}

/// One `<url>` line of the sitemap.
pub open spec fn sitemap_line(loc: Seq<char>) -> Seq<char> {
    "  <url><loc>"@ + SITE_URL@ + loc + "</loc></url>\n"@
}

/// The site's fixed pages, in sitemap order.
pub open spec fn sitemap_pages() -> Seq<Seq<char>> {
    seq![
        "index.html"@, "search.html"@, "all-pages.html"@, "categories.html"@, "portals.html"@,
        "indices.html"@, "site-stats.html"@, "needs-review.html"@, "borrowings.html"@, "special.html"@,
        "datasets.html"@, "suffix-index.html"@, "inflection-issues.html"@, "featured.html"@, "random.html"@,
        "graph.html"@, "contribute.html"@,
    ]
}

/// The page of an entry, relative to the site root.
pub open spec fn entry_loc(id: usize) -> Seq<char> {
    "entry/"@ + decimal(id as nat) + ".html"@
}

/// The sitemap: the fixed pages, then every entry page in the given order.
pub open spec fn sitemap_xml_spec(metas: Seq<SiteEntryMeta>) -> Seq<char> {
    "<?xml version='1.0' encoding='UTF-8'?>\n<urlset xmlns='http://www.sitemaps.org/schemas/sitemap/0.9'>\n"@
        + sitemap_pages().map_values(|l: Seq<char>| sitemap_line(l)).flatten()
        + metas.map_values(|m: SiteEntryMeta| sitemap_line(entry_loc(m.id))).flatten() + "</urlset>\n"@
}

/// Appends one sitemap line.
fn push_sitemap_line(s: &mut String, loc: &str)
    ensures
        final(s)@ == old(s)@ + sitemap_line(loc@),
{
    push_str(s, "  <url><loc>");
    push_str(s, SITE_URL);
    push_str(s, loc);
    push_str(s, "</loc></url>\n");
}

/// The XML sitemap of the site: its fixed pages, then one line per entry.
pub fn sitemap_xml(metas: &Vec<SiteEntryMeta>) -> (r: String)
    ensures
        r@ == sitemap_xml_spec(metas@),
{
    let locs: [&str; 17] = [
        "index.html", "search.html", "all-pages.html", "categories.html", "portals.html",
        "indices.html", "site-stats.html", "needs-review.html", "borrowings.html", "special.html",
        "datasets.html", "suffix-index.html", "inflection-issues.html", "featured.html", "random.html",
        "graph.html", "contribute.html",
    ];
    let ghost pages = sitemap_pages();
    let ghost lv = locs@.map_values(|l: &str| l@);
    assert(lv =~= pages);
    let mut s = string_from(
        "<?xml version='1.0' encoding='UTF-8'?>\n<urlset xmlns='http://www.sitemaps.org/schemas/sitemap/0.9'>\n",
    );
    let ghost h = s@;
    let ghost f = |l: Seq<char>| sitemap_line(l);
    let mut i: usize = 0;
    while i < 17
        invariant
            i <= 17,
            locs@.len() == 17,
            lv == locs@.map_values(|l: &str| l@),
            lv == pages,
            f == (|l: Seq<char>| sitemap_line(l)),
            s@ == h + pages.take(i as int).map_values(f).flatten(),
        decreases 17 - i,
    {
        push_sitemap_line(&mut s, locs[i]);
        proof {
            crate::strs::lemma_flat_map_step(pages, i as int, f);
            assert(pages[i as int] == locs@[i as int]@);
        }
        i += 1;
    }
    assert(pages.take(17) =~= pages);
    let ghost h2 = s@;
    let ghost g = |m: SiteEntryMeta| sitemap_line(entry_loc(m.id));
    let mut j: usize = 0;
    while j < metas.len()
        invariant
            j <= metas@.len(),
            g == (|m: SiteEntryMeta| sitemap_line(entry_loc(m.id))),
            s@ == h2 + metas@.take(j as int).map_values(g).flatten(),
        decreases metas@.len() - j,
    {
        let mut loc = string_from("entry/");
        push_decimal(&mut loc, metas[j].id);
        push_str(&mut loc, ".html");
        push_sitemap_line(&mut s, loc.as_str());
        proof {
            crate::strs::lemma_flat_map_step(metas@, j as int, g);
        }
        j += 1;
    }
    assert(metas@.take(j as int) =~= metas@);
    push_str(&mut s, "</urlset>\n");
    s
}

/// One row of the word index table.
pub open spec fn word_row_spec(m: SiteEntryMeta, up: Seq<char>) -> Seq<char> {
    "<tr><td><a href='"@ + up + "entry/"@ + decimal(m.id as nat) + ".html'><b>"@ + esc_spec(m.title@)
        + "</b></a></td><td>"@ + esc_spec(pos_code_label_spec(m.pos@, m.pos_heading@)) + "</td><td>"@
        + esc_spec(truncate_spec(m.gloss@, 72)) + "</td><td><span class='badge'>"@
        + esc_spec(quality_label_spec(m)) + "</span></td><td>"@ + decimal(m.n_langs as nat) + " jęz. / "@
        + decimal(m.n_branches as nat) + " vět.</td></tr>"@
}

/// The most rows a word index table shows.
pub open spec fn word_table_cap() -> int {
    1200
}

/// A word index table: the first 1200 rows, then a note when some were
/// left out.
pub open spec fn word_table_spec(rows: Seq<SiteEntryMeta>, up: Seq<char>) -> Seq<char> {
    let shown = if rows.len() <= word_table_cap() { rows.len() as int } else { word_table_cap() };
    "<table class='wikitable word-index'><thead><tr><th>Slovo</th><th>Čęst</th><th>Smysl</th><th>Kvaliteta</th><th>Dokaz</th></tr></thead><tbody>"@
        + rows.take(shown).map_values(|m: SiteEntryMeta| word_row_spec(m, up)).flatten() + "</tbody></table>"@
        + if rows.len() > shown {
            "<p class='muted'>Pokazano prvih "@ + compact_spec(shown as nat) + " od "@ + compact_spec(rows.len())
                + " zapisov; koristi iskanje za polny spis.</p>"@
        } else {
            Seq::empty()
        }
}

/// Appends one row of the word index table.
pub(crate) fn push_word_row(s: &mut String, m: &SiteEntryMeta, up: &str)
    ensures
        final(s)@ == old(s)@ + word_row_spec(*m, up@),
{
    push_str(s, "<tr><td><a href='");
    push_str(s, up);
    push_str(s, "entry/");
    push_decimal(s, m.id);
    push_str(s, ".html'><b>");
    push_str(s, esc(m.title.as_str()).as_str());
    push_str(s, "</b></a></td><td>");
    push_str(s, esc(pos_code_label(m.pos.as_str(), m.pos_heading.as_str()).as_str()).as_str());
    push_str(s, "</td><td>");
    push_str(s, esc(truncate(m.gloss.as_str(), 72).as_str()).as_str());
    push_str(s, "</td><td><span class='badge'>");
    push_str(s, esc(quality_label(m)).as_str());
    push_str(s, "</span></td><td>");
    push_decimal(s, m.n_langs);
    push_str(s, " jęz. / ");
    push_decimal(s, m.n_branches);
    push_str(s, " vět.</td></tr>");
}

/// The word index table of a list of entries (links relative to `up`):
/// title, part of speech, gloss, quality and evidence of the first 1200
/// entries, and a note of how many there are when that is not all.
pub fn render_word_table(rows: &Vec<SiteEntryMeta>, up: &str) -> (r: String)
    ensures
        r@ == word_table_spec(rows@, up@),
{
    let shown: usize = if rows.len() <= 1200 { rows.len() } else { 1200 };
    let mut s = string_from(
        "<table class='wikitable word-index'><thead><tr><th>Slovo</th><th>Čęst</th><th>Smysl</th><th>Kvaliteta</th><th>Dokaz</th></tr></thead><tbody>",
    );
    let ghost h = s@;
    let ghost f = |m: SiteEntryMeta| word_row_spec(m, up@);
    let mut i: usize = 0;
    while i < shown
        invariant
            i <= shown <= rows@.len(),
            f == (|m: SiteEntryMeta| word_row_spec(m, up@)),
            s@ == h + rows@.take(i as int).map_values(f).flatten(),
        decreases shown - i,
    {
        push_word_row(&mut s, &rows[i], up);
        proof {
            crate::strs::lemma_flat_map_step(rows@, i as int, f);
        }
        i += 1;
    }
    push_str(&mut s, "</tbody></table>");
    if rows.len() > shown {
        push_str(&mut s, "<p class='muted'>Pokazano prvih ");
        push_str(&mut s, compact(shown).as_str());
        push_str(&mut s, " od ");
        push_str(&mut s, compact(rows.len()).as_str());
        push_str(&mut s, " zapisov; koristi iskanje za polny spis.</p>");
    }
    s
}

/// How many rows fall under each key: every key once, in ascending order,
/// with its count (the rows' keys are given in row order).
pub fn count_by(keys: &Vec<String>) -> (r: Vec<(String, usize)>)
    ensures
        tally_of(tally_view(r@), strs_view(keys@)),
        tally_view(r@) == tally_spec(strs_view(keys@)),
{
    let mut t: Vec<(String, usize)> = Vec::new();
    let mut i: usize = 0;
    assert(strs_view(keys@).take(0) =~= Seq::<Seq<char>>::empty());
    while i < keys.len()
        invariant
            i <= keys@.len(),
            tally_of(tally_view(t@), strs_view(keys@).take(i as int)),
        decreases keys@.len() - i,
    {
        tally_add(&mut t, keys[i].as_str(), Ghost(strs_view(keys@).take(i as int)));
        assert(strs_view(keys@).take(i + 1) =~= strs_view(keys@).take(i as int).push(keys@[i as int]@));
        i += 1;
    }
    assert(strs_view(keys@).take(i as int) =~= strs_view(keys@));
    proof {
        lemma_is_the_tally(tally_view(t@), strs_view(keys@));
    }
    t
}

/// The positions, in order, at which `k` occurs among `keys`.
pub open spec fn positions_of(keys: Seq<Seq<char>>, k: Seq<char>) -> Seq<usize>
    decreases keys.len(),
{
    if keys.len() == 0 {
        Seq::empty()
    } else if keys.last() == k {
        positions_of(keys.drop_last(), k).push((keys.len() - 1) as usize)
    } else {
        positions_of(keys.drop_last(), k)
    }
}

proof fn lemma_positions_len(keys: Seq<Seq<char>>, k: Seq<char>)
    ensures
        positions_of(keys, k).len() == occurrences(keys, k),
    decreases keys.len(),
{
    if keys.len() > 0 {
        lemma_positions_len(keys.drop_last(), k);
    }
}

/// The homograph groups of a list of entries, given each entry's title
/// folded to lowercase standard spelling: every fold that two or more entries
/// share, in ascending order, with the positions of those entries.
pub fn homograph_groups(keys: &Vec<String>) -> (r: Vec<(String, Vec<usize>)>)
    ensures
        forall|a: int, b: int| 0 <= a < b < r@.len() ==> seq_lt((#[trigger] r@[a]).0@, (#[trigger] r@[b]).0@),
        forall|a: int| 0 <= a < r@.len() ==> (#[trigger] r@[a]).1@ == positions_of(strs_view(keys@), r@[a].0@)
            && r@[a].1@.len() > 1,
        forall|k: Seq<char>| occurrences(strs_view(keys@), k) > 1 ==> exists|a: int| 0 <= a < r@.len() && (#[trigger] r@[a]).0@ == k,
{
    let ghost kv = strs_view(keys@);
    let counts = count_by(keys);
    let ghost cv = tally_view(counts@);
    let mut r: Vec<(String, Vec<usize>)> = Vec::new();
    let mut g: usize = 0;
    while g < counts.len()
        invariant
            g <= counts@.len(),
            kv == strs_view(keys@),
            cv == tally_view(counts@),
            tally_of(cv, kv),
            forall|a: int, b: int| 0 <= a < b < r@.len() ==> seq_lt((#[trigger] r@[a]).0@, (#[trigger] r@[b]).0@),
            forall|a: int| 0 <= a < r@.len() ==> exists|c: int| 0 <= c < g && (#[trigger] r@[a]).0@ == cv[c].0,
            forall|a: int| 0 <= a < r@.len() ==> (#[trigger] r@[a]).1@ == positions_of(kv, r@[a].0@) && r@[a].1@.len() > 1,
            forall|c: int| 0 <= c < g && (#[trigger] cv[c]).1 > 1 ==> exists|a: int| 0 <= a < r@.len() && (#[trigger] r@[a]).0@ == cv[c].0,
        decreases counts@.len() - g,
    {
        assert(cv[g as int] == (counts@[g as int].0@, counts@[g as int].1));
        if counts[g].1 > 1 {
            let key = counts[g].0.as_str();
            let mut pos: Vec<usize> = Vec::new();
            let mut i: usize = 0;
            while i < keys.len()
                invariant
                    i <= keys@.len(),
                    kv == strs_view(keys@),
                    pos@ == positions_of(kv.take(i as int), key@),
                decreases keys@.len() - i,
            {
                assert(kv.take(i + 1).drop_last() =~= kv.take(i as int));
                if str_eq(keys[i].as_str(), key) {
                    pos.push(i);
                }
                i += 1;
            }
            assert(kv.take(i as int) =~= kv);
            proof {
                lemma_positions_len(kv, key@);
            }
            let ghost before = r@;
            r.push((string_from(key), pos));
            assert forall|a: int, b: int| 0 <= a < b < r@.len() implies seq_lt((#[trigger] r@[a]).0@, (#[trigger] r@[b]).0@) by {
                if b == r@.len() - 1 {
                    assert(r@[a] == before[a]);
                    let c = choose|c: int| 0 <= c < g && before[a].0@ == cv[c].0;
                    assert(seq_lt(cv[c].0, cv[g as int].0));
                }
            }
            assert forall|a: int| 0 <= a < r@.len() implies exists|c: int| 0 <= c < g + 1 && (#[trigger] r@[a]).0@ == cv[c].0 by {
                if a < r@.len() - 1 {
                    assert(r@[a] == before[a]);
                    let c = choose|c: int| 0 <= c < g && before[a].0@ == cv[c].0;
                    assert(r@[a].0@ == cv[c].0);
                } else {
                    assert(r@[a].0@ == cv[g as int].0);
                }
            }
            assert forall|a: int| 0 <= a < r@.len() implies (#[trigger] r@[a]).1@ == positions_of(kv, r@[a].0@) && r@[a].1@.len() > 1 by {
                if a < r@.len() - 1 {
                    assert(r@[a] == before[a]);
                }
            }
            assert forall|c: int| 0 <= c < g + 1 && (#[trigger] cv[c]).1 > 1 implies exists|a: int| 0 <= a < r@.len() && (#[trigger] r@[a]).0@ == cv[c].0 by {
                if c < g {
                    let a = choose|a: int| 0 <= a < before.len() && (#[trigger] before[a]).0@ == cv[c].0;
                    assert(r@[a] == before[a]);
                } else {
                    assert(r@[r@.len() - 1].0@ == cv[c].0);
                }
            }
        }
        g += 1;
    }
    assert forall|k: Seq<char>| occurrences(kv, k) > 1 implies exists|a: int| 0 <= a < r@.len() && (#[trigger] r@[a]).0@ == k by {
        let c = choose|c: int| 0 <= c < cv.len() && (#[trigger] cv[c]).0 == k;
        assert(cv[c].1 > 1);
    }
    r
}

/// An edge over plain values: source id and title, target id and title,
/// kind.
pub open spec fn edge_v(e: LinkEdge) -> (usize, Seq<char>, usize, Seq<char>, Seq<char>) {
    (e.source_id, e.source_title@, e.target_id, e.target_title@, e.kind@)
}

/// A list of edges over plain values.
pub open spec fn edges_v(edges: Seq<LinkEdge>) -> Seq<(usize, Seq<char>, usize, Seq<char>, Seq<char>)> {
    edges.map_values(|e: LinkEdge| edge_v(e))
}

/// The position of the first entry with id `id`.
pub open spec fn meta_pos(metas: Seq<SiteEntryMeta>, id: usize) -> Option<int>
    decreases metas.len(),
{
    if metas.len() == 0 {
        None
    } else if metas[0].id == id {
        Some(0)
    } else {
        match meta_pos(metas.drop_first(), id) {
            Some(i) => Some(i + 1),
            None => None,
        }
    }
}

proof fn lemma_meta_pos(metas: Seq<SiteEntryMeta>, id: usize, i: int)
    requires
        0 <= i <= metas.len(),
        forall|j: int| 0 <= j < i ==> (#[trigger] metas[j]).id != id,
    ensures
        i < metas.len() && metas[i].id == id ==> meta_pos(metas, id) == Some(i),
        i == metas.len() ==> meta_pos(metas, id) is None,
    decreases i,
{
    if i > 0 {
        let rest = metas.drop_first();
        assert forall|j: int| 0 <= j < i - 1 implies (#[trigger] rest[j]).id != id by {
            assert(rest[j] == metas[j + 1]);
        }
        lemma_meta_pos(rest, id, i - 1);
        if i < metas.len() {
            assert(rest[i - 1] == metas[i]);
        }
    } else if metas.len() > 0 {
        assert(metas[0].id == id ==> meta_pos(metas, id) == Some(0int));
    }
}

/// Whether `edges` already hold an edge of `kind` from `s` to `t`.
pub open spec fn has_edge(
    edges: Seq<(usize, Seq<char>, usize, Seq<char>, Seq<char>)>,
    s: usize,
    t: usize,
    kind: Seq<char>,
) -> bool {
    exists|i: int| 0 <= i < edges.len() && (#[trigger] edges[i]).0 == s && edges[i].2 == t && edges[i].4 == kind
}

/// The edges after asking for one of `kind` from `s` to `t`: added, with
/// both titles, unless it would be a loop, either end has no page, or it is
/// already there.
pub open spec fn add_edge_spec(
    edges: Seq<(usize, Seq<char>, usize, Seq<char>, Seq<char>)>,
    metas: Seq<SiteEntryMeta>,
    s: usize,
    t: usize,
    kind: Seq<char>,
) -> Seq<(usize, Seq<char>, usize, Seq<char>, Seq<char>)> {
    if s == t {
        edges
    } else {
        match (meta_pos(metas, s), meta_pos(metas, t)) {
            (Some(a), Some(b)) => if has_edge(edges, s, t, kind) {
                edges
            } else {
                edges.push((s, metas[a].title@, t, metas[b].title@, kind))
            },
            _ => edges,
        }
    }
}

/// The position of the first entry with id `id`, if any.
fn find_meta(metas: &Vec<SiteEntryMeta>, id: usize) -> (r: Option<usize>)
    ensures
        match r {
            Some(i) => meta_pos(metas@, id) == Some(i as int) && i < metas@.len(),
            None => meta_pos(metas@, id) is None,
        },
{
    let mut i: usize = 0;
    while i < metas.len()
        invariant
            i <= metas@.len(),
            forall|j: int| 0 <= j < i ==> (#[trigger] metas@[j]).id != id,
        decreases metas@.len() - i,
    {
        if metas[i].id == id {
            proof { lemma_meta_pos(metas@, id, i as int); }
            return Some(i);
        }
        i += 1;
    }
    proof { lemma_meta_pos(metas@, id, i as int); }
    None
}

/// Adds a semantic link of `kind` from page `source_id` to page
/// `target_id`, with both titles, unless it is a self-link, either page is
/// unknown, or the same link is already there.
pub fn add_edge(edges: &mut Vec<LinkEdge>, metas: &Vec<SiteEntryMeta>, source_id: usize, target_id: usize, kind: &str)
    ensures
        edges_v(final(edges)@) == add_edge_spec(edges_v(old(edges)@), metas@, source_id, target_id, kind@),
{
    if source_id == target_id {
        return;
    }
    let a = match find_meta(metas, source_id) {
        Some(a) => a,
        None => return,
    };
    let b = match find_meta(metas, target_id) {
        Some(b) => b,
        None => return,
    };
    let ghost ev = edges_v(edges@);
    let mut i: usize = 0;
    while i < edges.len()
        invariant
            i <= edges@.len(),
            ev == edges_v(edges@),
            forall|j: int| 0 <= j < i ==> !((#[trigger] ev[j]).0 == source_id && ev[j].2 == target_id && ev[j].4 == kind@),
        decreases edges@.len() - i,
    {
        assert(ev[i as int] == edge_v(edges@[i as int]));
        if edges[i].source_id == source_id && edges[i].target_id == target_id && str_eq(edges[i].kind.as_str(), kind) {
            return;
        }
        i += 1;
    }
    edges.push(LinkEdge {
        source_id,
        source_title: copy_string(&metas[a].title),
        target_id,
        target_title: copy_string(&metas[b].title),
        kind: string_from(kind),
    });
    assert(edges_v(edges@) =~= ev.push((source_id, metas@[a as int].title@, target_id, metas@[b as int].title@, kind@)));
}

/// A request for an edge: source id, target id, kind.
pub open spec fn add_edges_spec(
    edges: Seq<(usize, Seq<char>, usize, Seq<char>, Seq<char>)>,
    metas: Seq<SiteEntryMeta>,
    reqs: Seq<(usize, usize, Seq<char>)>,
) -> Seq<(usize, Seq<char>, usize, Seq<char>, Seq<char>)>
    decreases reqs.len(),
{
    if reqs.len() == 0 {
        edges
    } else {
        let q = reqs.last();
        add_edge_spec(add_edges_spec(edges, metas, reqs.drop_last()), metas, q.0, q.1, q.2)
    }
}

/// The family links asked from member `a` of a family: one to each other
/// member.
pub open spec fn pair_fn(ids: Seq<usize>, a: usize) -> spec_fn(usize) -> Seq<(usize, usize, Seq<char>)> {
    |b: usize| if a != b { seq![(ids[a as int], ids[b as int], "rodina"@)] } else { Seq::empty() }
}

/// The family links asked within one family of two to fifteen members.
pub open spec fn member_fn(ids: Seq<usize>, members: Seq<usize>) -> spec_fn(usize) -> Seq<(usize, usize, Seq<char>)> {
    |a: usize| members.map_values(pair_fn(ids, a)).flatten()
}

/// The family links asked within one family: every ordered pair of distinct
/// members, when the family has two to fifteen members.
pub open spec fn family_fn(ids: Seq<usize>) -> spec_fn(Seq<usize>) -> Seq<(usize, usize, Seq<char>)> {
    |members: Seq<usize>| if 2 <= members.len() <= 15 {
        members.map_values(member_fn(ids, members)).flatten()
    } else {
        Seq::empty()
    }
}

/// The family links asked, family by family.
pub open spec fn family_reqs(ids: Seq<usize>, families: Seq<Seq<usize>>) -> Seq<(usize, usize, Seq<char>)> {
    families.map_values(family_fn(ids)).flatten()
}

/// The synonym link asked for one thesaurus key.
pub open spec fn synonym_fn(src: usize, isv: Seq<(Seq<char>, usize)>) -> spec_fn(Seq<char>) -> Seq<(usize, usize, Seq<char>)> {
    |k: Seq<char>| match index_lookup(isv, k) {
        Some(t) => seq![(src, t, "sinonim"@)],
        None => Seq::empty(),
    }
}

/// The synonym links asked for the first `n` entries: from each entry with
/// an official lemma to the page of every thesaurus synonym that is a
/// headword.
pub open spec fn synonym_reqs(
    metas: Seq<SiteEntryMeta>,
    syn: Seq<Seq<Seq<char>>>,
    isv: Seq<(Seq<char>, usize)>,
    n: int,
) -> Seq<(usize, usize, Seq<char>)>
    decreases n,
{
    if n <= 0 {
        Seq::empty()
    } else {
        synonym_reqs(metas, syn, isv, n - 1) + if metas[n - 1].official_lemma is Some {
            syn[n - 1].map_values(synonym_fn(metas[n - 1].id, isv)).flatten()
        } else {
            Seq::empty()
        }
    }
}

/// What the enrichment index records of one cognate member: its language
/// and the related words, synonyms and antonyms that its source lists.
pub struct MemberLinks {
    pub lang: String,
    pub related: Vec<String>,
    pub synonyms: Vec<String>,
    pub antonyms: Vec<String>,
}

/// The link asked for one listed word, when it names a page.
pub open spec fn word_fn(
    src: usize,
    lang: Seq<char>,
    kind: Seq<char>,
    xref: Seq<(Seq<char>, Seq<char>, usize)>,
) -> spec_fn(Seq<char>) -> Seq<(usize, usize, Seq<char>)> {
    |w: Seq<char>| match xref_lookup(xref, lang, w) {
        Some(t) => seq![(src, t, kind)],
        None => Seq::empty(),
    }
}

/// The first forty of a list.
pub open spec fn first40(words: Seq<Seq<char>>) -> Seq<Seq<char>> {
    if words.len() <= 40 { words } else { words.take(40) }
}

/// The links asked for one enriched member: related words, then synonyms,
/// then antonyms, forty of each at most.
pub open spec fn member_links_fn(
    src: usize,
    xref: Seq<(Seq<char>, Seq<char>, usize)>,
) -> spec_fn(MemberLinks) -> Seq<(usize, usize, Seq<char>)> {
    |ml: MemberLinks|
        first40(strs_view(ml.related@)).map_values(word_fn(src, ml.lang@, "srodno"@, xref)).flatten()
            + first40(strs_view(ml.synonyms@)).map_values(word_fn(src, ml.lang@, "sinonim"@, xref)).flatten()
            + first40(strs_view(ml.antonyms@)).map_values(word_fn(src, ml.lang@, "antonim"@, xref)).flatten()
}

/// The enrichment links asked for the first `n` prepared entries that have
/// a page.
pub open spec fn enrich_reqs(
    metas: Seq<SiteEntryMeta>,
    ids: Seq<usize>,
    enrich: Seq<Vec<MemberLinks>>,
    xref: Seq<(Seq<char>, Seq<char>, usize)>,
    n: int,
) -> Seq<(usize, usize, Seq<char>)>
    decreases n,
{
    if n <= 0 {
        Seq::empty()
    } else {
        enrich_reqs(metas, ids, enrich, xref, n - 1) + if meta_pos(metas, ids[n - 1]) is Some {
            enrich[n - 1]@.map_values(member_links_fn(ids[n - 1], xref)).flatten()
        } else {
            Seq::empty()
        }
    }
}

/// Lists of indices over plain values.
pub open spec fn index_lists(v: Seq<Vec<usize>>) -> Seq<Seq<usize>> {
    v.map_values(|m: Vec<usize>| m@)
}

/// Lists of strings over plain values.
pub open spec fn string_lists(v: Seq<Vec<String>>) -> Seq<Seq<Seq<char>>> {
    v.map_values(|m: Vec<String>| strs_view(m@))
}

/// Asks for one edge, keeping track of the requests made so far.
fn request(
    edges: &mut Vec<LinkEdge>,
    metas: &Vec<SiteEntryMeta>,
    s: usize,
    t: usize,
    kind: &str,
    Ghost(reqs): Ghost<Seq<(usize, usize, Seq<char>)>>,
)
    requires
        edges_v(old(edges)@) == add_edges_spec(Seq::empty(), metas@, reqs),
    ensures
        edges_v(final(edges)@) == add_edges_spec(Seq::empty(), metas@, reqs.push((s, t, kind@))),
{
    add_edge(edges, metas, s, t, kind);
    assert(reqs.push((s, t, kind@)).drop_last() =~= reqs);
}

/// Asks for the edges to the pages of the first forty listed words.
fn request_words(
    edges: &mut Vec<LinkEdge>,
    metas: &Vec<SiteEntryMeta>,
    src: usize,
    lang: &str,
    words: &Vec<String>,
    kind: &str,
    xref: &Xref,
    Ghost(reqs): Ghost<Seq<(usize, usize, Seq<char>)>>,
)
    requires
        edges_v(old(edges)@) == add_edges_spec(Seq::empty(), metas@, reqs),
    ensures
        edges_v(final(edges)@) == add_edges_spec(
            Seq::empty(),
            metas@,
            reqs + first40(strs_view(words@)).map_values(word_fn(src, lang@, kind@, xref@)).flatten(),
        ),
{
    let n: usize = if words.len() <= 40 { words.len() } else { 40 };
    let ghost ws = first40(strs_view(words@));
    let ghost f = word_fn(src, lang@, kind@, xref@);
    let ghost mut cur = reqs;
    assert(ws.take(0).map_values(f).flatten() =~= Seq::<(usize, usize, Seq<char>)>::empty());
    assert(reqs + Seq::<(usize, usize, Seq<char>)>::empty() =~= reqs);
    let mut i: usize = 0;
    while i < n
        invariant
            i <= n,
            n == ws.len(),
            ws == first40(strs_view(words@)),
            n <= words@.len(),
            f == word_fn(src, lang@, kind@, xref@),
            cur == reqs + ws.take(i as int).map_values(f).flatten(),
            edges_v(edges@) == add_edges_spec(Seq::empty(), metas@, cur),
        decreases n - i,
    {
        proof {
            crate::strs::lemma_flat_map_step(ws, i as int, f);
            assert(ws[i as int] == words@[i as int]@);
        }
        match xref.get(lang, words[i].as_str()) {
            Some(t) => {
                request(edges, metas, src, t, kind, Ghost(cur));
                proof {
                    assert(cur.push((src, t, kind@)) =~= reqs + ws.take(i + 1).map_values(f).flatten());
                    cur = cur.push((src, t, kind@));
                }
            },
            None => {
                proof {
                    assert(cur =~= reqs + ws.take(i + 1).map_values(f).flatten());
                }
            },
        }
        i += 1;
    }
    assert(ws.take(n as int) =~= ws);
}

/// Asks for the family links of every family.
fn request_families(
    edges: &mut Vec<LinkEdge>,
    metas: &Vec<SiteEntryMeta>,
    ids: &Vec<usize>,
    families: &Vec<Vec<usize>>,
    Ghost(reqs): Ghost<Seq<(usize, usize, Seq<char>)>>,
)
    requires
        edges_v(old(edges)@) == add_edges_spec(Seq::empty(), metas@, reqs),
        forall|f: int, k: int| 0 <= f < families@.len() && 0 <= k < families@[f]@.len() ==> (#[trigger] families@[f]@[k]) < ids@.len(),
    ensures
        edges_v(final(edges)@) == add_edges_spec(Seq::empty(), metas@, reqs + family_reqs(ids@, index_lists(families@))),
{
    let ghost fams = index_lists(families@);
    let ghost ff = family_fn(ids@);
    let ghost mut cur = reqs;
    assert(fams.take(0).map_values(ff).flatten() =~= Seq::<(usize, usize, Seq<char>)>::empty());
    assert(reqs + Seq::<(usize, usize, Seq<char>)>::empty() =~= reqs);
    let mut fi: usize = 0;
    while fi < families.len()
        invariant
            fi <= families@.len(),
            fams == index_lists(families@),
            ff == family_fn(ids@),
            forall|f: int, k: int| 0 <= f < families@.len() && 0 <= k < families@[f]@.len() ==> (#[trigger] families@[f]@[k]) < ids@.len(),
            cur == reqs + fams.take(fi as int).map_values(ff).flatten(),
            edges_v(edges@) == add_edges_spec(Seq::empty(), metas@, cur),
        decreases families@.len() - fi,
    {
        let members = &families[fi];
        let ghost mv = members@;
        assert(fams[fi as int] == mv);
        proof {
            crate::strs::lemma_flat_map_step(fams, fi as int, ff);
        }
        let ghost base = cur;
        if members.len() >= 2 && members.len() <= 15 {
            let ghost mf = member_fn(ids@, mv);
            assert(mv.take(0).map_values(mf).flatten() =~= Seq::<(usize, usize, Seq<char>)>::empty());
            assert(base + Seq::<(usize, usize, Seq<char>)>::empty() =~= base);
            let mut ai: usize = 0;
            while ai < members.len()
                invariant
                    ai <= mv.len(),
                    mv == members@,
                    mf == member_fn(ids@, mv),
                    forall|k: int| 0 <= k < mv.len() ==> (#[trigger] mv[k]) < ids@.len(),
                    cur == base + mv.take(ai as int).map_values(mf).flatten(),
                    edges_v(edges@) == add_edges_spec(Seq::empty(), metas@, cur),
                decreases mv.len() - ai,
            {
                let a = members[ai];
                let ghost pf = pair_fn(ids@, a);
                let ghost mid = cur;
                assert(mv.take(0).map_values(pf).flatten() =~= Seq::<(usize, usize, Seq<char>)>::empty());
                assert(mid + Seq::<(usize, usize, Seq<char>)>::empty() =~= mid);
                let mut bi: usize = 0;
                while bi < members.len()
                    invariant
                        bi <= mv.len(),
                        mv == members@,
                        a < ids@.len(),
                        pf == pair_fn(ids@, a),
                        forall|k: int| 0 <= k < mv.len() ==> (#[trigger] mv[k]) < ids@.len(),
                        cur == mid + mv.take(bi as int).map_values(pf).flatten(),
                        edges_v(edges@) == add_edges_spec(Seq::empty(), metas@, cur),
                    decreases mv.len() - bi,
                {
                    let b = members[bi];
                    proof {
                        crate::strs::lemma_flat_map_step(mv, bi as int, pf);
                    }
                    if a != b {
                        request(edges, metas, ids[a], ids[b], "rodina", Ghost(cur));
                        proof {
                            assert(cur.push((ids@[a as int], ids@[b as int], "rodina"@)) =~= mid + mv.take(bi + 1).map_values(pf).flatten());
                            cur = cur.push((ids@[a as int], ids@[b as int], "rodina"@));
                        }
                    } else {
                        proof {
                            assert(cur =~= mid + mv.take(bi + 1).map_values(pf).flatten());
                        }
                    }
                    bi += 1;
                }
                proof {
                    assert(mv.take(bi as int) =~= mv);
                    crate::strs::lemma_flat_map_step(mv, ai as int, mf);
                    assert(cur =~= base + mv.take(ai + 1).map_values(mf).flatten());
                }
                ai += 1;
            }
            proof {
                assert(mv.take(ai as int) =~= mv);
                assert(cur =~= reqs + fams.take(fi + 1).map_values(ff).flatten());
            }
        } else {
            proof {
                assert(cur =~= reqs + fams.take(fi + 1).map_values(ff).flatten());
            }
        }
        fi += 1;
    }
    assert(fams.take(fi as int) =~= fams);
}

/// Asks for the synonym links of every entry with an official lemma.
fn request_synonyms(
    edges: &mut Vec<LinkEdge>,
    metas: &Vec<SiteEntryMeta>,
    synonym_keys: &Vec<Vec<String>>,
    isv_to_id: &HeadwordIndex,
    Ghost(reqs): Ghost<Seq<(usize, usize, Seq<char>)>>,
)
    requires
        edges_v(old(edges)@) == add_edges_spec(Seq::empty(), metas@, reqs),
        synonym_keys@.len() == metas@.len(),
    ensures
        edges_v(final(edges)@) == add_edges_spec(
            Seq::empty(),
            metas@,
            reqs + synonym_reqs(metas@, string_lists(synonym_keys@), isv_to_id@, metas@.len() as int),
        ),
{
    let ghost syn = string_lists(synonym_keys@);
    let ghost mut cur = reqs;
    assert(reqs + Seq::<(usize, usize, Seq<char>)>::empty() =~= reqs);
    let mut i: usize = 0;
    while i < metas.len()
        invariant
            i <= metas@.len(),
            synonym_keys@.len() == metas@.len(),
            syn == string_lists(synonym_keys@),
            cur == reqs + synonym_reqs(metas@, syn, isv_to_id@, i as int),
            edges_v(edges@) == add_edges_spec(Seq::empty(), metas@, cur),
        decreases metas@.len() - i,
    {
        let ghost base = cur;
        let ghost before = synonym_reqs(metas@, syn, isv_to_id@, i as int);
        if metas[i].official_lemma.is_some() {
            let keys = &synonym_keys[i];
            let ghost kv = syn[i as int];
            assert(kv == strs_view(keys@));
            let ghost sf = synonym_fn(metas@[i as int].id, isv_to_id@);
            assert(kv.take(0).map_values(sf).flatten() =~= Seq::<(usize, usize, Seq<char>)>::empty());
            assert(base + Seq::<(usize, usize, Seq<char>)>::empty() =~= base);
            let mut k: usize = 0;
            while k < keys.len()
                invariant
                    k <= keys@.len(),
                    kv == strs_view(keys@),
                    i < metas@.len(),
                    sf == synonym_fn(metas@[i as int].id, isv_to_id@),
                    cur == base + kv.take(k as int).map_values(sf).flatten(),
                    edges_v(edges@) == add_edges_spec(Seq::empty(), metas@, cur),
                decreases keys@.len() - k,
            {
                proof {
                    crate::strs::lemma_flat_map_step(kv, k as int, sf);
                }
                match isv_to_id.get(keys[k].as_str()) {
                    Some(t) => {
                        request(edges, metas, metas[i].id, t, "sinonim", Ghost(cur));
                        proof {
                            assert(cur.push((metas@[i as int].id, t, "sinonim"@)) =~= base + kv.take(k + 1).map_values(sf).flatten());
                            cur = cur.push((metas@[i as int].id, t, "sinonim"@));
                        }
                    },
                    None => {
                        proof {
                            assert(cur =~= base + kv.take(k + 1).map_values(sf).flatten());
                        }
                    },
                }
                k += 1;
            }
            proof {
                assert(kv.take(k as int) =~= kv);
                assert(cur =~= reqs + synonym_reqs(metas@, syn, isv_to_id@, i + 1));
            }
        } else {
            proof {
                assert(cur =~= reqs + synonym_reqs(metas@, syn, isv_to_id@, i + 1));
            }
        }
        i += 1;
    }
}

/// Asks for the links that the enrichment index lists for the members of
/// every prepared entry that has a page.
fn request_enrich(
    edges: &mut Vec<LinkEdge>,
    metas: &Vec<SiteEntryMeta>,
    ids: &Vec<usize>,
    enrich: &Vec<Vec<MemberLinks>>,
    xref: &Xref,
    Ghost(reqs): Ghost<Seq<(usize, usize, Seq<char>)>>,
)
    requires
        edges_v(old(edges)@) == add_edges_spec(Seq::empty(), metas@, reqs),
        enrich@.len() == ids@.len(),
    ensures
        edges_v(final(edges)@) == add_edges_spec(
            Seq::empty(),
            metas@,
            reqs + enrich_reqs(metas@, ids@, enrich@, xref@, ids@.len() as int),
        ),
{
    let ghost mut cur = reqs;
    assert(reqs + Seq::<(usize, usize, Seq<char>)>::empty() =~= reqs);
    let mut j: usize = 0;
    while j < ids.len()
        invariant
            j <= ids@.len(),
            enrich@.len() == ids@.len(),
            cur == reqs + enrich_reqs(metas@, ids@, enrich@, xref@, j as int),
            edges_v(edges@) == add_edges_spec(Seq::empty(), metas@, cur),
        decreases ids@.len() - j,
    {
        let ghost base = cur;
        let src = ids[j];
        if find_meta(metas, src).is_some() {
            let mls = &enrich[j];
            let ghost mf = member_links_fn(src, xref@);
            assert(mls@.take(0).map_values(mf).flatten() =~= Seq::<(usize, usize, Seq<char>)>::empty());
            assert(base + Seq::<(usize, usize, Seq<char>)>::empty() =~= base);
            let mut k: usize = 0;
            while k < mls.len()
                invariant
                    k <= mls@.len(),
                    mf == member_links_fn(src, xref@),
                    cur == base + mls@.take(k as int).map_values(mf).flatten(),
                    edges_v(edges@) == add_edges_spec(Seq::empty(), metas@, cur),
                decreases mls@.len() - k,
            {
                let ml = &mls[k];
                let ghost c0 = cur;
                request_words(edges, metas, src, ml.lang.as_str(), &ml.related, "srodno", xref, Ghost(cur));
                let ghost p1 = first40(strs_view(ml.related@)).map_values(word_fn(src, ml.lang@, "srodno"@, xref@)).flatten();
                proof { cur = cur + p1; }
                request_words(edges, metas, src, ml.lang.as_str(), &ml.synonyms, "sinonim", xref, Ghost(cur));
                let ghost p2 = first40(strs_view(ml.synonyms@)).map_values(word_fn(src, ml.lang@, "sinonim"@, xref@)).flatten();
                proof { cur = cur + p2; }
                request_words(edges, metas, src, ml.lang.as_str(), &ml.antonyms, "antonim", xref, Ghost(cur));
                let ghost p3 = first40(strs_view(ml.antonyms@)).map_values(word_fn(src, ml.lang@, "antonim"@, xref@)).flatten();
                proof {
                    cur = cur + p3;
                    crate::strs::lemma_flat_map_step(mls@, k as int, mf);
                    assert(mf(mls@[k as int]) == p1 + p2 + p3);
                    assert(cur =~= base + mls@.take(k + 1).map_values(mf).flatten());
                }
                k += 1;
            }
            proof {
                assert(mls@.take(k as int) =~= mls@);
                assert(cur =~= reqs + enrich_reqs(metas@, ids@, enrich@, xref@, j + 1));
            }
        } else {
            proof {
                assert(cur =~= reqs + enrich_reqs(metas@, ids@, enrich@, xref@, j + 1));
            }
        }
        j += 1;
    }
}

/// The links asked by the enrichment index, when there is one.
pub open spec fn optional_enrich_reqs(
    metas: Seq<SiteEntryMeta>,
    ids: Seq<usize>,
    enrich: Option<Seq<Vec<MemberLinks>>>,
    xref: Option<Seq<(Seq<char>, Seq<char>, usize)>>,
) -> Seq<(usize, usize, Seq<char>)> {
    match (enrich, xref) {
        (Some(en), Some(xr)) => enrich_reqs(metas, ids, en, xr, ids.len() as int),
        _ => Seq::empty(),
    }
}

/// The semantic link graph between entry pages: the members of each word
/// family of two to fifteen prepared entries link to each other
/// (`rodina`), entries with an official lemma link to the headword pages of
/// its thesaurus synonyms (`sinonim`), and, when the enrichment index and
/// its cross-reference are there, every prepared entry with a page links to
/// the pages of its members' related words, synonyms and antonyms (`srodno`,
/// `sinonim`, `antonim`; forty of each at most). Self-links, links to or
/// from entries without a page, and repeated links are left out.
///
/// `ids[i]` is the page id of prepared entry `i`; `families` lists each
/// family's members by prepared index, in family order; `synonym_keys[i]`
/// holds the folded thesaurus synonyms of `metas[i]`'s official lemma;
/// `enrich[i]` holds what the enrichment index records of prepared entry
/// `i`'s members.
pub fn build_edges(
    ids: &Vec<usize>,
    families: &Vec<Vec<usize>>,
    synonym_keys: &Vec<Vec<String>>,
    isv_to_id: &HeadwordIndex,
    enrich: Option<&Vec<Vec<MemberLinks>>>,
    xref: Option<&Xref>,
    metas: &Vec<SiteEntryMeta>,
) -> (r: Vec<LinkEdge>)
    requires
        forall|f: int, k: int| 0 <= f < families@.len() && 0 <= k < families@[f]@.len() ==> (#[trigger] families@[f]@[k]) < ids@.len(),
        synonym_keys@.len() == metas@.len(),
        enrich matches Some(en) ==> en@.len() == ids@.len(),
    ensures
        edges_v(r@) == add_edges_spec(
            Seq::empty(),
            metas@,
            family_reqs(ids@, index_lists(families@))
                + synonym_reqs(metas@, string_lists(synonym_keys@), isv_to_id@, metas@.len() as int)
                + optional_enrich_reqs(
                    metas@,
                    ids@,
                    match enrich { Some(en) => Some(en@), None => None },
                    match xref { Some(x) => Some(x@), None => None },
                ),
        ),
{
    let mut edges: Vec<LinkEdge> = Vec::new();
    assert(edges_v(edges@) =~= Seq::<(usize, Seq<char>, usize, Seq<char>, Seq<char>)>::empty());
    let ghost e = Seq::<(usize, usize, Seq<char>)>::empty();
    request_families(&mut edges, metas, ids, families, Ghost(e));
    let ghost r1 = e + family_reqs(ids@, index_lists(families@));
    request_synonyms(&mut edges, metas, synonym_keys, isv_to_id, Ghost(r1));
    let ghost r2 = r1 + synonym_reqs(metas@, string_lists(synonym_keys@), isv_to_id@, metas@.len() as int);
    match (enrich, xref) {
        (Some(en), Some(xr)) => {
            request_enrich(&mut edges, metas, ids, en, xr, Ghost(r2));
        },
        _ => {},
    }
    let ghost all = family_reqs(ids@, index_lists(families@))
        + synonym_reqs(metas@, string_lists(synonym_keys@), isv_to_id@, metas@.len() as int)
        + optional_enrich_reqs(
            metas@,
            ids@,
            match enrich { Some(en) => Some(en@), None => None },
            match xref { Some(x) => Some(x@), None => None },
        );
    assert(r1 =~= family_reqs(ids@, index_lists(families@)));
    assert(all =~= r2 + optional_enrich_reqs(
            metas@,
            ids@,
            match enrich { Some(en) => Some(en@), None => None },
            match xref { Some(x) => Some(x@), None => None },
        ));
    assert(r2 + Seq::<(usize, usize, Seq<char>)>::empty() =~= r2);
    edges
}

/// The site metadata of an entry page: the given fields, not a raw
/// attestation, the alphabetical bucket of its title (`title_skeleton` is
/// the title's ASCII skeleton), and its categories (see `entry_categories`).
#[allow(clippy::too_many_arguments)]
pub fn entry_meta(
    id: usize,
    title: &str,
    gloss: &str,
    pos: &str,
    pos_heading: &str,
    status: MatchStatus,
    conf: Confidence,
    conf_label: &str,
    n_langs: usize,
    n_branches: usize,
    borrowed: bool,
    official_only: bool,
    official_lemma: Option<String>,
    ancestor: String,
    languages: Vec<String>,
    title_skeleton: &str,
    wiki_categories: Vec<Vec<String>>,
) -> (r: SiteEntryMeta)
    ensures
        r.id == id,
        r.title@ == title@,
        r.gloss@ == gloss@,
        r.pos@ == pos@,
        r.pos_heading@ == pos_heading@,
        r.status == status,
        r.conf == conf,
        r.conf_label@ == conf_label@,
        r.n_langs == n_langs,
        r.n_branches == n_branches,
        r.borrowed == borrowed,
        r.official_only == official_only,
        !r.raw,
        r.official_lemma == official_lemma,
        r.ancestor == ancestor,
        r.languages == languages,
        r.first@ == first_bucket_spec(title_skeleton@),
        r.aspect is None,
        r.aspect_partners@.len() == 0,
        paths_view(r.categories@) == add_paths_spec(Seq::empty(), auto_category_paths(r) + paths_view(wiki_categories@)),
{
    let first = first_bucket(title_skeleton);
    let mut meta = SiteEntryMeta {
        id,
        title: string_from(title),
        gloss: string_from(gloss),
        pos: string_from(pos),
        pos_heading: string_from(pos_heading),
        status,
        conf,
        conf_label: string_from(conf_label),
        n_langs,
        n_branches,
        borrowed,
        official_only,
        raw: false,
        official_lemma,
        ancestor,
        languages,
        first,
        categories: Vec::new(),
        aspect: None,
        aspect_partners: Vec::new(),
    };
    let cats = entry_categories(&meta, wiki_categories);
    meta.categories = cats;
    meta
}

/// Every category key of every entry, entry by entry.
pub open spec fn all_keys(keys: Seq<Seq<Seq<char>>>) -> Seq<Seq<char>> {
    keys.flatten()
}

/// Whether a category path stays on an entry page: a path under
/// `Fundamentalne` stays only when at least three paths share its key.
pub open spec fn keep_path(path: Seq<Seq<char>>, key: Seq<char>, all: Seq<Seq<char>>) -> bool {
    path.len() > 0 && (path[0] != "Fundamentalne"@ || occurrences(all, key) >= 3)
}

/// The paths of one entry that stay, with their keys.
pub open spec fn kept(
    paths: Seq<Seq<Seq<char>>>,
    keys: Seq<Seq<char>>,
    all: Seq<Seq<char>>,
    n: int,
) -> (Seq<Seq<Seq<char>>>, Seq<Seq<char>>)
    decreases n,
{
    if n <= 0 {
        (Seq::empty(), Seq::empty())
    } else {
        let (p, k) = kept(paths, keys, all, n - 1);
        if keep_path(paths[n - 1], keys[n - 1], all) {
            (p.push(paths[n - 1]), k.push(keys[n - 1]))
        } else {
            (p, k)
        }
    }
}

/// How often `key` occurs, by a tally of all keys.
fn tally_count(t: &Vec<(String, usize)>, key: &str, Ghost(all): Ghost<Seq<Seq<char>>>) -> (r: usize)
    requires
        tally_of(tally_view(t@), all),
    ensures
        r == occurrences(all, key@),
{
    let ghost tv = tally_view(t@);
    let mut a: usize = 0;
    while a < t.len()
        invariant
            a <= t@.len(),
            tv == tally_view(t@),
            tally_of(tv, all),
            forall|q: int| 0 <= q < a ==> tv[q].0 != key@,
        decreases t@.len() - a,
    {
        assert(tv[a as int] == (t@[a as int].0@, t@[a as int].1));
        if str_eq(t[a].0.as_str(), key) {
            return t[a].1;
        }
        a += 1;
    }
    proof {
        if occurrences(all, key@) > 0 {
            let q = choose|q: int| 0 <= q < tv.len() && (#[trigger] tv[q]).0 == key@;
            assert(tv[q].0 == key@);
        }
    }
    0
}

/// Drops thin `Fundamentalne` categories: a path under that root stays
/// only when at least three category paths of all entries share its key;
/// every other path stays. `keys[m][p]` is the key of
/// `metas[m].categories[p]`; both lists are filtered alike.
pub fn compact_entry_categories(metas: &mut Vec<SiteEntryMeta>, keys: &mut Vec<Vec<String>>)
    requires
        old(keys)@.len() == old(metas)@.len(),
        forall|m: int| 0 <= m < old(metas)@.len() ==> (#[trigger] old(keys)@[m])@.len() == old(metas)@[m].categories@.len(),
        string_lists(old(keys)@).flatten().len() < usize::MAX,
    ensures
        final(metas)@.len() == old(metas)@.len(),
        final(keys)@.len() == old(keys)@.len(),
        forall|m: int| 0 <= m < old(metas)@.len() ==> {
            let all = all_keys(string_lists(old(keys)@));
            let (p, k) = kept(
                paths_view(old(metas)@[m].categories@),
                strs_view(old(keys)@[m]@),
                all,
                old(metas)@[m].categories@.len() as int,
            );
            &&& paths_view((#[trigger] final(metas)@[m]).categories@) == p
            &&& strs_view(final(keys)@[m]@) == k
            &&& final(metas)@[m] == (SiteEntryMeta { categories: final(metas)@[m].categories, ..old(metas)@[m] })
        },
{
    let ghost all = all_keys(string_lists(keys@));
    let ghost m0 = metas@;
    let ghost k0 = keys@;
    // Every key, in order.
    let mut flat: Vec<String> = Vec::new();
    let mut m: usize = 0;
    while m < keys.len()
        invariant
            m <= keys@.len(),
            keys@ == k0,
            strs_view(flat@) == string_lists(k0).take(m as int).flatten(),
        decreases keys@.len() - m,
    {
        let mut j: usize = 0;
        let ghost base = strs_view(flat@);
        while j < keys[m].len()
            invariant
                j <= keys@[m as int]@.len(),
                m < keys@.len(),
                keys@ == k0,
                strs_view(flat@) == base + strs_view(keys@[m as int]@).take(j as int),
            decreases keys@[m as int]@.len() - j,
        {
            let ghost bf = flat@;
            flat.push(copy_string(&keys[m][j]));
            assert(strs_view(flat@) =~= strs_view(bf).push(keys@[m as int]@[j as int]@));
            assert(strs_view(keys@[m as int]@).take(j + 1) =~= strs_view(keys@[m as int]@).take(j as int).push(keys@[m as int]@[j as int]@));
            assert(strs_view(flat@) =~= base + strs_view(keys@[m as int]@).take(j + 1));
            j += 1;
        }
        proof {
            assert(strs_view(keys@[m as int]@).take(j as int) =~= strs_view(keys@[m as int]@));
            assert(string_lists(k0).take(m + 1) =~= string_lists(k0).take(m as int).push(strs_view(k0[m as int]@)));
            string_lists(k0).take(m as int).lemma_flatten_push(strs_view(k0[m as int]@));
        }
        m += 1;
    }
    assert(string_lists(k0).take(m as int) =~= string_lists(k0));
    let counts = count_by(&flat);
    let mut i: usize = 0;
    while i < metas.len()
        invariant
            i <= metas@.len(),
            metas@.len() == m0.len(),
            keys@.len() == k0.len(),
            k0.len() == m0.len(),
            all == all_keys(string_lists(k0)),
            tally_of(tally_view(counts@), all),
            forall|q: int| 0 <= q < m0.len() ==> (#[trigger] k0[q])@.len() == m0[q].categories@.len(),
            forall|q: int| i <= q < m0.len() ==> (#[trigger] metas@[q]) == m0[q] && keys@[q] == k0[q],
            forall|q: int| 0 <= q < i ==> {
                let (p, k) = kept(paths_view(m0[q].categories@), strs_view(k0[q]@), all, m0[q].categories@.len() as int);
                &&& paths_view((#[trigger] metas@[q]).categories@) == p
                &&& strs_view(keys@[q]@) == k
                &&& metas@[q] == (SiteEntryMeta { categories: metas@[q].categories, ..m0[q] })
            },
        decreases metas@.len() - i,
    {
        let mut new_paths: Vec<Vec<String>> = Vec::new();
        let mut new_keys: Vec<String> = Vec::new();
        let ghost pv = paths_view(m0[i as int].categories@);
        let ghost kv = strs_view(k0[i as int]@);
        let n = metas[i].categories.len();
        let mut j: usize = 0;
        while j < n
            invariant
                j <= n,
                i < m0.len(),
                metas@.len() == m0.len(),
                keys@.len() == k0.len(),
                k0.len() == m0.len(),
                n == m0[i as int].categories@.len(),
                n == k0[i as int]@.len(),
                i < metas@.len(),
                metas@[i as int] == m0[i as int],
                keys@[i as int] == k0[i as int],
                pv == paths_view(m0[i as int].categories@),
                kv == strs_view(k0[i as int]@),
                tally_of(tally_view(counts@), all),
                (paths_view(new_paths@), strs_view(new_keys@)) == kept(pv, kv, all, j as int),
            decreases n - j,
        {
            let path = &metas[i].categories[j];
            let key = &keys[i][j];
            assert(pv[j as int] == strs_view(path@));
            assert(kv[j as int] == key@);
            let keep = if path.len() == 0 {
                false
            } else if !str_eq(path[0].as_str(), "Fundamentalne") {
                true
            } else {
                tally_count(&counts, key.as_str(), Ghost(all)) >= 3
            };
            assert(keep == keep_path(pv[j as int], kv[j as int], all)) by {
                if path@.len() > 0 {
                    assert(pv[j as int][0] == path@[0]@);
                }
            }
            if keep {
                let ghost bp = new_paths@;
                let ghost bk = new_keys@;
                new_paths.push(crate::english_index::copy_strings(path));
                new_keys.push(copy_string(key));
                assert(paths_view(new_paths@) =~= paths_view(bp).push(pv[j as int]));
                assert(strs_view(new_keys@) =~= strs_view(bk).push(kv[j as int]));
            }
            j += 1;
        }
        let ghost before_m = metas@;
        let ghost before_k = keys@;
        let mut entry = metas.remove(i);
        entry.categories = new_paths;
        metas.insert(i, entry);
        keys.set(i, new_keys);
        assert forall|q: int| 0 <= q < metas@.len() && q != i implies #[trigger] metas@[q] == before_m[q] by {}
        i += 1;
    }
}

/// The link to one category page.
pub open spec fn category_link(path: Seq<Seq<char>>, key: Seq<char>) -> Seq<char> {
    "<a href='../category/"@ + esc_spec(key) + ".html'>"@ + esc_spec(join_spec(path, " » "@)) + "</a>"@
}

/// The links to the categories at positions `lo..hi`, joined with ` | `.
pub open spec fn category_links(paths: Seq<Seq<Seq<char>>>, keys: Seq<Seq<char>>, lo: int, hi: int) -> Seq<char> {
    join_spec(Seq::new((hi - lo) as nat, |i: int| category_link(paths[lo + i], keys[lo + i])), " | "@)
}

/// The category footer of an entry page.
pub open spec fn category_footer_spec(paths: Seq<Seq<Seq<char>>>, keys: Seq<Seq<char>>) -> Seq<char> {
    let n = paths.len() as int;
    let shown = if n <= 12 { n } else { 12 };
    "<div id='categories' class='catlinks'><b>Kategorije</b>: "@ + category_links(paths, keys, 0, shown)
        + (if n > 12 {
            " <details class='cat-more'><summary>+"@ + decimal((n - 12) as nat) + " kategorij</summary>"@
                + category_links(paths, keys, 12, n) + "</details>"@
        } else {
            Seq::empty()
        }) + "</div>"@
}

/// Appends the links to the categories at positions `lo..hi`.
fn push_category_links(s: &mut String, m: &SiteEntryMeta, keys: &Vec<String>, lo: usize, hi: usize)
    requires
        lo <= hi <= m.categories@.len(),
        keys@.len() == m.categories@.len(),
    ensures
        final(s)@ == old(s)@ + category_links(paths_view(m.categories@), strs_view(keys@), lo as int, hi as int),
{
    let ghost pv = paths_view(m.categories@);
    let ghost kv = strs_view(keys@);
    let ghost parts = Seq::new((hi - lo) as nat, |i: int| category_link(pv[lo + i], kv[lo + i]));
    let ghost h = s@;
    let mut j: usize = lo;
    assert(parts.take(0) =~= Seq::<Seq<char>>::empty());
    while j < hi
        invariant
            lo <= j <= hi <= m.categories@.len(),
            keys@.len() == m.categories@.len(),
            pv == paths_view(m.categories@),
            kv == strs_view(keys@),
            parts == Seq::new((hi - lo) as nat, |i: int| category_link(pv[lo + i], kv[lo + i])),
            s@ == h + join_spec(parts.take(j - lo), " | "@),
        decreases hi - j,
    {
        if j > lo {
            push_str(s, " | ");
        }
        push_str(s, "<a href='../category/");
        push_str(s, esc(keys[j].as_str()).as_str());
        push_str(s, ".html'>");
        push_str(s, esc(category_title(&m.categories[j]).as_str()).as_str());
        push_str(s, "</a>");
        proof {
            assert(pv[j as int] == strs_view(m.categories@[j as int]@));
            assert(kv[j as int] == keys@[j as int]@);
            assert(parts[j - lo] == category_link(pv[j as int], kv[j as int]));
            assert(parts.take(j - lo + 1).drop_last() =~= parts.take(j - lo));
            assert(s@ =~= h + join_spec(parts.take(j - lo + 1), " | "@));
        }
        j += 1;
    }
    assert(parts.take(hi - lo) =~= parts);
}

/// The category links at the foot of an entry page: the first twelve, and
/// the rest behind a disclosure. `keys[p]` is the key of the entry's
/// `p`-th category path.
pub fn category_footer(m: &SiteEntryMeta, keys: &Vec<String>) -> (r: String)
    requires
        keys@.len() == m.categories@.len(),
    ensures
        r@ == category_footer_spec(paths_view(m.categories@), strs_view(keys@)),
{
    let n = m.categories.len();
    let shown: usize = if n <= 12 { n } else { 12 };
    let mut r = string_from("<div id='categories' class='catlinks'><b>Kategorije</b>: ");
    push_category_links(&mut r, m, keys, 0, shown);
    let ghost mid = r@;
    if n > 12 {
        push_str(&mut r, " <details class='cat-more'><summary>+");
        push_decimal(&mut r, n - 12);
        push_str(&mut r, " kategorij</summary>");
        push_category_links(&mut r, m, keys, 12, n);
        push_str(&mut r, "</details>");
    }
    push_str(&mut r, "</div>");
    r
}

} // verus!

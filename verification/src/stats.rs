//! The site statistics page: how large the dictionary is and how its
//! entries divide by part of speech, confidence, quality, branch coverage
//! and language.

use vstd::prelude::*;
use crate::categories::strs_view;
use crate::coverage::tally_spec;
use crate::english_index::{seq_lt, str_lt};
use crate::graph::{counts_table, counts_table_spec, counts_view, LinkEdge};
use crate::layout::{compact, compact_spec, esc, esc_spec};
use crate::blocks::pairs_view;
use crate::official::{lookup_name, name_of};
use crate::pages::{site_page, site_page_spec, BuildMeta};
use crate::category_tree::{metas_at, render_word_table_at};
use crate::model::Confidence;
use crate::site_meta::{render_word_table, word_table_spec, count_by, pos_code_label, pos_code_label_spec, quality_label, quality_label_spec, SiteEntryMeta};
use crate::strs::{decimal, push_decimal, push_str, string_from};

verus! {

/// The part-of-speech label of each entry.
pub open spec fn pos_keys(ms: Seq<SiteEntryMeta>) -> Seq<Seq<char>> {
    ms.map_values(|m: SiteEntryMeta| pos_code_label_spec(m.pos@, m.pos_heading@))
}

/// The confidence level of each entry.
pub open spec fn conf_keys(ms: Seq<SiteEntryMeta>) -> Seq<Seq<char>> {
    ms.map_values(|m: SiteEntryMeta| m.conf_label@)
}

/// The quality label of each entry.
pub open spec fn quality_keys(ms: Seq<SiteEntryMeta>) -> Seq<Seq<char>> {
    ms.map_values(|m: SiteEntryMeta| quality_label_spec(m))
}

/// The branch coverage of each entry, as `n větvy`.
pub open spec fn branch_keys(ms: Seq<SiteEntryMeta>) -> Seq<Seq<char>> {
    ms.map_values(|m: SiteEntryMeta| decimal(m.n_branches as nat) + " větvy"@)
}

/// The names of the languages of the first `n` entries, entry by entry.
pub open spec fn lang_keys(ms: Seq<SiteEntryMeta>, names: Seq<(Seq<char>, Seq<char>)>, n: int) -> Seq<Seq<char>>
    decreases n,
{
    if n <= 0 {
        Seq::empty()
    } else {
        lang_keys(ms, names, n - 1) + ms[n - 1].languages@.map_values(|l: String| name_of(names, l@))
    }
}

/// How many of the first `n` entries are linked to an official lemma.
pub open spec fn official_count(ms: Seq<SiteEntryMeta>, n: int) -> nat
    decreases n,
{
    if n <= 0 {
        0
    } else {
        official_count(ms, n - 1) + if ms[n - 1].official_lemma is Some { 1nat } else { 0nat }
    }
}

/// How many of the first `n` entries are borrowings.
pub open spec fn borrowed_count(ms: Seq<SiteEntryMeta>, n: int) -> nat
    decreases n,
{
    if n <= 0 {
        0
    } else {
        borrowed_count(ms, n - 1) + if ms[n - 1].borrowed { 1nat } else { 0nat }
    }
}

/// The statistics boxes.
pub open spec fn stats_boxes(ms: Seq<SiteEntryMeta>, names: Seq<(Seq<char>, Seq<char>)>) -> Seq<char> {
    counts_table_spec("Čęsti rěči"@, tally_spec(pos_keys(ms))) + counts_table_spec("Uvěrjenost"@, tally_spec(conf_keys(ms)))
        + counts_table_spec("Kvaliteta"@, tally_spec(quality_keys(ms))) + counts_table_spec(
        "Pokrytje větvi"@,
        tally_spec(branch_keys(ms)),
    ) + counts_table_spec("Języčne portaly"@, tally_spec(lang_keys(ms, names, ms.len() as int)))
}

/// The summary table of the statistics page.
pub open spec fn stats_table(
    ms: Seq<SiteEntryMeta>,
    n_edges: nat,
    n_homographs: nat,
    avg_langs: Seq<char>,
    build: BuildMeta,
) -> Seq<char> {
    "<article class='entry stats-page'><h1 class='firstHeading'>Statistiky sajta</h1><p class='lede'>Ta strana je statičny ekvivalent wiki-strany <i>Speciaľno:Statistiky</i>: ne měri samo točnosť, ale pokazyvaje kako veliky i kaky je slovnikovy korpus.</p><table class='wikitable compact-table'><tr><th>Stran zapisov</th><td>"@
        + compact_spec(ms.len()) + "</td><th>Oficialno povezane</th><td>"@ + compact_spec(
        official_count(ms, ms.len() as int),
    ) + "</td></tr><tr><th>Pozajęta slova / internacionalizmy</th><td>"@ + compact_spec(
        borrowed_count(ms, ms.len() as int),
    ) + "</td><th>Homografne grupy</th><td>"@ + compact_spec(n_homographs)
        + "</td></tr><tr><th>Semantične vęzi</th><td>"@ + compact_spec(n_edges)
        + "</td><th>Srědnje językov na zapis</th><td>"@ + avg_langs + "</td></tr><tr><th>Generacija</th><td>"@
        + esc_spec(build.generated@) + "</td><th>Git</th><td><code>"@ + esc_spec(build.git@)
        + "</code></td></tr></table><div class='stat-grid wiki-stats'>"@
}

fn entry_counts(ms: &Vec<SiteEntryMeta>) -> (r: (usize, usize))
    ensures
        r.0 == official_count(ms@, ms@.len() as int),
        r.1 == borrowed_count(ms@, ms@.len() as int),
{
    let mut official: usize = 0;
    let mut borrowed: usize = 0;
    let mut i: usize = 0;
    while i < ms.len()
        invariant
            i <= ms@.len(),
            official == official_count(ms@, i as int),
            borrowed == borrowed_count(ms@, i as int),
            official <= i,
            borrowed <= i,
        decreases ms@.len() - i,
    {
        if ms[i].official_lemma.is_some() {
            official += 1;
        }
        if ms[i].borrowed {
            borrowed += 1;
        }
        i += 1;
    }
    (official, borrowed)
}

fn push_counts_box(s: &mut String, title: &str, keys: &Vec<String>)
    ensures
        final(s)@ == old(s)@ + counts_table_spec(title@, tally_spec(strs_view(keys@))),
{
    let c = count_by(keys);
    assert(counts_view(c@) =~= crate::coverage::tally_view(c@));
    push_str(s, counts_table(title, &c).as_str());
}

fn push_stats_boxes(s: &mut String, ms: &Vec<SiteEntryMeta>, names: &Vec<(String, String)>)
    ensures
        final(s)@ == old(s)@ + stats_boxes(ms@, pairs_view(names@)),
{
    let mut conf: Vec<String> = Vec::new();
    let mut quality: Vec<String> = Vec::new();
    let mut branch: Vec<String> = Vec::new();
    let mut i: usize = 0;
    while i < ms.len()
        invariant
            i <= ms@.len(),
            conf@.len() == i,
            quality@.len() == i,
            branch@.len() == i,
            strs_view(conf@) == conf_keys(ms@).take(i as int),
            strs_view(quality@) == quality_keys(ms@).take(i as int),
            strs_view(branch@) == branch_keys(ms@).take(i as int),
        decreases ms@.len() - i,
    {
        let m = &ms[i];
        let ghost (c0, q0, b0) = (conf@, quality@, branch@);
        conf.push(m.conf_label.clone());
        quality.push(string_from(quality_label(m)));
        let mut b = String::new();
        push_decimal(&mut b, m.n_branches);
        push_str(&mut b, " větvy");
        branch.push(b);
        proof {
            assert(strs_view(conf@) =~= strs_view(c0).push(conf@[i as int]@));
            assert(strs_view(quality@) =~= strs_view(q0).push(quality@[i as int]@));
            assert(strs_view(branch@) =~= strs_view(b0).push(branch@[i as int]@));
            assert(conf_keys(ms@).take(i + 1) =~= conf_keys(ms@).take(i as int).push(conf_keys(ms@)[i as int]));
            assert(quality_keys(ms@).take(i + 1) =~= quality_keys(ms@).take(i as int).push(quality_keys(ms@)[i as int]));
            assert(branch_keys(ms@).take(i + 1) =~= branch_keys(ms@).take(i as int).push(branch_keys(ms@)[i as int]));
        }
        i += 1;
    }
    assert(conf_keys(ms@).take(i as int) =~= conf_keys(ms@));
    assert(quality_keys(ms@).take(i as int) =~= quality_keys(ms@));
    assert(branch_keys(ms@).take(i as int) =~= branch_keys(ms@));
    let pos = pos_label_keys(ms);
    let langs = lang_name_keys(ms, names);
    push_counts_box(s, "Čęsti rěči", &pos);
    push_counts_box(s, "Uvěrjenost", &conf);
    push_counts_box(s, "Kvaliteta", &quality);
    push_counts_box(s, "Pokrytje větvi", &branch);
    push_counts_box(s, "Języčne portaly", &langs);
}

/// The site statistics page: counts of entries, official links,
/// borrowings, homograph groups and semantic links, the average number of
/// languages per entry (as printed, one decimal), the build stamp, and the
/// entries by part of speech, confidence, quality, branch coverage and
/// language (each language named from `names`).
pub fn site_stats_page(
    ms: &Vec<SiteEntryMeta>,
    edges: &Vec<LinkEdge>,
    homographs: &Vec<(String, Vec<usize>)>,
    avg_langs: &str,
    build: &BuildMeta,
    names: &Vec<(String, String)>,
) -> (r: String)
    ensures
        r@ == site_page_spec(
            "Statistiky sajta"@,
            stats_table(ms@, edges@.len(), homographs@.len(), avg_langs@, *build) + stats_boxes(ms@, pairs_view(names@))
                + " </div><p>Za točnost generatora ględaj <a href='metrics.html'>Statistiky točnosti</a>; za metodologiju <a href='about.html'>O metodě</a>.</p></article>"@,
            0,
        ),
{
    let (official, borrowed) = entry_counts(ms);
    let mut body = string_from("<article class='entry stats-page'><h1 class='firstHeading'>Statistiky sajta</h1><p class='lede'>Ta strana je statičny ekvivalent wiki-strany <i>Speciaľno:Statistiky</i>: ne měri samo točnosť, ale pokazyvaje kako veliky i kaky je slovnikovy korpus.</p><table class='wikitable compact-table'><tr><th>Stran zapisov</th><td>");
    push_str(&mut body, compact(ms.len()).as_str());
    push_str(&mut body, "</td><th>Oficialno povezane</th><td>");
    push_str(&mut body, compact(official).as_str());
    push_str(&mut body, "</td></tr><tr><th>Pozajęta slova / internacionalizmy</th><td>");
    push_str(&mut body, compact(borrowed).as_str());
    push_str(&mut body, "</td><th>Homografne grupy</th><td>");
    push_str(&mut body, compact(homographs.len()).as_str());
    push_str(&mut body, "</td></tr><tr><th>Semantične vęzi</th><td>");
    push_str(&mut body, compact(edges.len()).as_str());
    push_str(&mut body, "</td><th>Srědnje językov na zapis</th><td>");
    push_str(&mut body, avg_langs);
    push_str(&mut body, "</td></tr><tr><th>Generacija</th><td>");
    push_str(&mut body, esc(build.generated.as_str()).as_str());
    push_str(&mut body, "</td><th>Git</th><td><code>");
    push_str(&mut body, esc(build.git.as_str()).as_str());
    push_str(&mut body, "</code></td></tr></table><div class='stat-grid wiki-stats'>");
    push_stats_boxes(&mut body, ms, names);
    push_str(&mut body, " </div><p>Za točnost generatora ględaj <a href='metrics.html'>Statistiky točnosti</a>; za metodologiju <a href='about.html'>O metodě</a>.</p></article>");
    site_page("Statistiky sajta", body.as_str(), 0)
}

/// How many of the first `n` entries have high confidence.
pub open spec fn high_count(ms: Seq<SiteEntryMeta>, n: int) -> nat
    decreases n,
{
    if n <= 0 {
        0
    } else {
        high_count(ms, n - 1) + if ms[n - 1].conf == Confidence::High { 1nat } else { 0nat }
    }
}

/// The summary table of an index: entries, official, generated-only, high
/// confidence, borrowings and the average number of languages (as
/// printed).
pub open spec fn index_summary_spec(ms: Seq<SiteEntryMeta>, avg_langs: Seq<char>) -> Seq<char> {
    let official = official_count(ms, ms.len() as int);
    "<table class='wikitable compact-table index-summary'><tbody><tr><th>Zapisov</th><td>"@ + compact_spec(ms.len())
        + "</td><th>Oficialne</th><td>"@ + compact_spec(official) + "</td></tr><tr><th>Samo generovane</th><td>"@
        + compact_spec((ms.len() - official) as nat) + "</td><th>Vysoka uvěrjenost</th><td>"@ + compact_spec(
        high_count(ms, ms.len() as int),
    ) + "</td></tr><tr><th>Pozajęta slova / internacionalizmy</th><td>"@ + compact_spec(
        borrowed_count(ms, ms.len() as int),
    ) + "</td><th>Srědnje językov</th><td>"@ + avg_langs + "</td></tr></tbody></table>"@
}

proof fn lemma_official_count_le(ms: Seq<SiteEntryMeta>, n: int)
    requires
        0 <= n <= ms.len(),
    ensures
        official_count(ms, n) <= n,
    decreases n,
{
    if n > 0 {
        lemma_official_count_le(ms, n - 1);
    }
}

/// The summary table of an index (`avg_langs` is the average number of
/// languages per entry, as printed).
pub fn index_summary(ms: &Vec<SiteEntryMeta>, avg_langs: &str) -> (r: String)
    ensures
        r@ == index_summary_spec(ms@, avg_langs@),
{
    let (official, borrowed) = entry_counts(ms);
    let mut high: usize = 0;
    let mut i: usize = 0;
    while i < ms.len()
        invariant
            i <= ms@.len(),
            high == high_count(ms@, i as int),
            high <= i,
        decreases ms@.len() - i,
    {
        if ms[i].conf == Confidence::High {
            high += 1;
        }
        i += 1;
    }
    proof {
        lemma_official_count_le(ms@, ms@.len() as int);
    }
    let mut s = string_from("<table class='wikitable compact-table index-summary'><tbody><tr><th>Zapisov</th><td>");
    push_str(&mut s, compact(ms.len()).as_str());
    push_str(&mut s, "</td><th>Oficialne</th><td>");
    push_str(&mut s, compact(official).as_str());
    push_str(&mut s, "</td></tr><tr><th>Samo generovane</th><td>");
    push_str(&mut s, compact(ms.len() - official).as_str());
    push_str(&mut s, "</td><th>Vysoka uvěrjenost</th><td>");
    push_str(&mut s, compact(high).as_str());
    push_str(&mut s, "</td></tr><tr><th>Pozajęta slova / internacionalizmy</th><td>");
    push_str(&mut s, compact(borrowed).as_str());
    push_str(&mut s, "</td><th>Srědnje językov</th><td>");
    push_str(&mut s, avg_langs);
    push_str(&mut s, "</td></tr></tbody></table>");
    s
}

/// The positions among the first `n` entries that satisfy `keep`.
pub open spec fn positions_where(ms: Seq<SiteEntryMeta>, keep: spec_fn(SiteEntryMeta) -> bool, n: int) -> Seq<usize>
    decreases n,
{
    if n <= 0 {
        Seq::empty()
    } else {
        positions_where(ms, keep, n - 1) + if keep(ms[n - 1]) {
            seq![(n - 1) as usize]
        } else {
            Seq::empty()
        }
    }
}

/// Entries attested in exactly one language.
pub open spec fn is_unique(m: SiteEntryMeta) -> bool {
    m.languages@.len() == 1
}

/// Entries attested in all three branches.
pub open spec fn is_pan_slavic(m: SiteEntryMeta) -> bool {
    m.n_branches >= 3
}

/// The opening of a language portal: title, introduction and summary.
pub open spec fn portal_head(name: Seq<char>, ms: Seq<SiteEntryMeta>, avg_langs: Seq<char>) -> Seq<char> {
    let intro = "Portal za "@ + name
        + ": strany zapisov, v ktoryh toj język davaje srodny dokaz. Unikatne slova pokazyvajųt korenje vidno samo v tom języku v našem korpusu; vseslovjanske slova imajųt dokaz iz vsih trěh větvi."@;
    "<article class='entry'><h1 class='firstHeading'>Portal: "@ + esc_spec(name) + "</h1><p>"@ + esc_spec(intro)
        + "</p>"@ + index_summary_spec(ms, avg_langs)
}

/// The word lists of a language portal.
pub open spec fn portal_lists(ms: Seq<SiteEntryMeta>, strongest: Seq<usize>) -> Seq<char> {
    "<h2 id='silne'>Najsilnějše dokazani zapisy</h2>"@ + word_table_spec(metas_at(ms, strongest), "../"@)
        + "<h2 id='vseslovjanske'>Slova s dokazom iz vsih trěh větvi</h2>"@ + word_table_spec(
        metas_at(ms, positions_where(ms, |m: SiteEntryMeta| is_pan_slavic(m), ms.len() as int)),
        "../"@,
    ) + "<h2 id='unikatne'>Unikatne v tom portalu</h2>"@ + word_table_spec(
        metas_at(ms, positions_where(ms, |m: SiteEntryMeta| is_unique(m), ms.len() as int)),
        "../"@,
    ) + "<h2 id='vse'>Vse zapisy v portalu</h2>"@ + word_table_spec(ms, "../"@)
}

fn filter_positions(ms: &Vec<SiteEntryMeta>, pan: bool) -> (r: Vec<usize>)
    ensures
        r@ == positions_where(
            ms@,
            if pan { |m: SiteEntryMeta| is_pan_slavic(m) } else { |m: SiteEntryMeta| is_unique(m) },
            ms@.len() as int,
        ),
        forall|j: int| 0 <= j < r@.len() ==> (#[trigger] r@[j]) < ms@.len(),
{
    let ghost keep = if pan { |m: SiteEntryMeta| is_pan_slavic(m) } else { |m: SiteEntryMeta| is_unique(m) };
    let mut r: Vec<usize> = Vec::new();
    let mut i: usize = 0;
    while i < ms.len()
        invariant
            keep == (if pan { |m: SiteEntryMeta| is_pan_slavic(m) } else { |m: SiteEntryMeta| is_unique(m) }),
            i <= ms@.len(),
            r@ == positions_where(ms@, keep, i as int),
            forall|j: int| 0 <= j < r@.len() ==> (#[trigger] r@[j]) < i,
        decreases ms@.len() - i,
    {
        let hit = if pan {
            ms[i].n_branches >= 3
        } else {
            ms[i].languages.len() == 1
        };
        if hit {
            r.push(i);
        }
        i += 1;
    }
    r
}

fn render_portal_head(name: &str, ms: &Vec<SiteEntryMeta>, avg_langs: &str) -> (r: String)
    ensures
        r@ == portal_head(name@, ms@, avg_langs@),
{
    let mut intro = string_from("Portal za ");
    push_str(&mut intro, name);
    push_str(&mut intro, ": strany zapisov, v ktoryh toj język davaje srodny dokaz. Unikatne slova pokazyvajųt korenje vidno samo v tom języku v našem korpusu; vseslovjanske slova imajųt dokaz iz vsih trěh větvi.");
    let summary = index_summary(ms, avg_langs);
    let mut s = string_from("<article class='entry'><h1 class='firstHeading'>Portal: ");
    push_str(&mut s, esc(name).as_str());
    push_str(&mut s, "</h1><p>");
    push_str(&mut s, esc(intro.as_str()).as_str());
    push_str(&mut s, "</p>");
    push_str(&mut s, summary.as_str());
    s
}

fn render_portal_lists(ms: &Vec<SiteEntryMeta>, strongest: &Vec<usize>) -> (r: String)
    requires
        forall|j: int| 0 <= j < strongest@.len() ==> (#[trigger] strongest@[j]) < ms@.len(),
    ensures
        r@ == portal_lists(ms@, strongest@),
{
    let pan = filter_positions(ms, true);
    let unique = filter_positions(ms, false);
    let a = render_word_table_at(ms, strongest, "../");
    let b = render_word_table_at(ms, &pan, "../");
    let c = render_word_table_at(ms, &unique, "../");
    let d = render_word_table(ms, "../");
    let mut s = string_from("<h2 id='silne'>Najsilnějše dokazani zapisy</h2>");
    push_str(&mut s, a.as_str());
    push_str(&mut s, "<h2 id='vseslovjanske'>Slova s dokazom iz vsih trěh větvi</h2>");
    push_str(&mut s, b.as_str());
    push_str(&mut s, "<h2 id='unikatne'>Unikatne v tom portalu</h2>");
    push_str(&mut s, c.as_str());
    push_str(&mut s, "<h2 id='vse'>Vse zapisy v portalu</h2>");
    push_str(&mut s, d.as_str());
    s
}

/// The portal of a language (named `name`): the index summary, the entries
/// in `strongest` order (positions, strongest evidence first), those
/// attested in all three branches, those attested only in this language,
/// and all of them.
pub fn language_portal_page(name: &str, ms: &Vec<SiteEntryMeta>, strongest: &Vec<usize>, avg_langs: &str) -> (r: String)
    requires
        forall|j: int| 0 <= j < strongest@.len() ==> (#[trigger] strongest@[j]) < ms@.len(),
    ensures
        r@ == site_page_spec(
            "Portal: "@ + name@,
            portal_head(name@, ms@, avg_langs@) + portal_lists(ms@, strongest@) + "</article>"@,
            1,
        ),
{
    let head = render_portal_head(name, ms, avg_langs);
    let lists = render_portal_lists(ms, strongest);
    let mut body = head;
    push_str(&mut body, lists.as_str());
    push_str(&mut body, "</article>");
    let mut title = string_from("Portal: ");
    push_str(&mut title, name);
    site_page(title.as_str(), body.as_str(), 1)
}

/// Order on pairs of texts: by the first, then by the second.
pub open spec fn pair_lt(a: (Seq<char>, Seq<char>), b: (Seq<char>, Seq<char>)) -> bool {
    seq_lt(a.0, b.0) || (a.0 == b.0 && seq_lt(a.1, b.1))
}

/// `s` with `x` inserted after every position whose key does not sort
/// after its own.
pub open spec fn insert_by_pair(s: Seq<usize>, x: usize, k: Seq<(Seq<char>, Seq<char>)>) -> Seq<usize>
    decreases s.len(),
{
    if s.len() == 0 {
        seq![x]
    } else if pair_lt(k[x as int], k[s[0] as int]) {
        seq![x] + s
    } else {
        seq![s[0]] + insert_by_pair(s.skip(1), x, k)
    }
}

/// Positions ordered by their keys, positions with equal keys kept in
/// their order (a stable sort).
pub open spec fn sort_by_pair(v: Seq<usize>, k: Seq<(Seq<char>, Seq<char>)>) -> Seq<usize>
    decreases v.len(),
{
    if v.len() == 0 {
        Seq::empty()
    } else {
        insert_by_pair(sort_by_pair(v.drop_last(), k), v.last(), k)
    }
}

proof fn lemma_insert_by_pair_at(s: Seq<usize>, x: usize, k: Seq<(Seq<char>, Seq<char>)>, p: int)
    requires
        0 <= p <= s.len(),
        forall|q: int| 0 <= q < p ==> !pair_lt(k[x as int], #[trigger] k[s[q] as int]),
        p < s.len() ==> pair_lt(k[x as int], k[s[p] as int]),
    ensures
        insert_by_pair(s, x, k) == s.take(p) + seq![x] + s.skip(p),
    decreases p,
{
    if p == 0 {
        if s.len() == 0 {
            assert(s.take(0) + seq![x] + s.skip(0) =~= seq![x]);
        } else {
            assert(s.take(0) + seq![x] + s.skip(0) =~= seq![x] + s);
        }
    } else {
        let t = s.skip(1);
        assert forall|q: int| 0 <= q < p - 1 implies !pair_lt(k[x as int], #[trigger] k[t[q] as int]) by {
            assert(t[q] == s[q + 1]);
        }
        if p - 1 < t.len() {
            assert(t[p - 1] == s[p]);
        }
        lemma_insert_by_pair_at(t, x, k, p - 1);
        assert(seq![s[0]] + (t.take(p - 1) + seq![x] + t.skip(p - 1)) =~= s.take(p) + seq![x] + s.skip(p));
    }
}

proof fn lemma_insert_by_pair_below(s: Seq<usize>, x: usize, k: Seq<(Seq<char>, Seq<char>)>, n: int)
    requires
        forall|j: int| 0 <= j < s.len() ==> (#[trigger] s[j]) < n,
        x < n,
    ensures
        forall|j: int| 0 <= j < insert_by_pair(s, x, k).len() ==> (#[trigger] insert_by_pair(s, x, k)[j]) < n,
        insert_by_pair(s, x, k).len() == s.len() + 1,
    decreases s.len(),
{
    if s.len() > 0 && !pair_lt(k[x as int], k[s[0] as int]) {
        let t = s.skip(1);
        assert forall|j: int| 0 <= j < t.len() implies (#[trigger] t[j]) < n by {
            assert(t[j] == s[j + 1]);
        }
        lemma_insert_by_pair_below(t, x, k, n);
    }
}

/// Sorting keeps the positions and their number.
pub proof fn lemma_sort_by_pair_below(v: Seq<usize>, k: Seq<(Seq<char>, Seq<char>)>, n: int)
    requires
        forall|j: int| 0 <= j < v.len() ==> (#[trigger] v[j]) < n,
    ensures
        forall|j: int| 0 <= j < sort_by_pair(v, k).len() ==> (#[trigger] sort_by_pair(v, k)[j]) < n,
        sort_by_pair(v, k).len() == v.len(),
    decreases v.len(),
{
    if v.len() > 0 {
        lemma_sort_by_pair_below(v.drop_last(), k, n);
        lemma_insert_by_pair_below(sort_by_pair(v.drop_last(), k), v.last(), k, n);
    }
}

/// The keys of positions: the two texts at each.
pub open spec fn pair_keys(first: Seq<Seq<char>>, second: Seq<Seq<char>>) -> Seq<(Seq<char>, Seq<char>)> {
    Seq::new(first.len(), |i: int| (first[i], second[i]))
}

fn pair_less(first: &Vec<String>, second: &Vec<String>, a: usize, b: usize) -> (r: bool)
    requires
        a < first@.len(),
        b < first@.len(),
        second@.len() == first@.len(),
    ensures
        r == pair_lt(pair_keys(strs_view(first@), strs_view(second@))[a as int], pair_keys(strs_view(first@), strs_view(second@))[b as int]),
{
    let fa = first[a].as_str();
    let fb = first[b].as_str();
    str_lt(fa, fb) || (crate::strs::str_eq(fa, fb) && str_lt(second[a].as_str(), second[b].as_str()))
}

/// Orders positions by the pair of texts at each (`first`, then `second`),
/// keeping the order of positions with equal pairs.
pub fn sort_positions_by_pair(pages: &Vec<usize>, first: &Vec<String>, second: &Vec<String>) -> (r: Vec<usize>)
    requires
        second@.len() == first@.len(),
        forall|j: int| 0 <= j < pages@.len() ==> (#[trigger] pages@[j]) < first@.len(),
    ensures
        r@ == sort_by_pair(pages@, pair_keys(strs_view(first@), strs_view(second@))),
{
    let ghost k = pair_keys(strs_view(first@), strs_view(second@));
    let mut out: Vec<usize> = Vec::new();
    let mut i: usize = 0;
    assert(pages@.take(0) =~= Seq::<usize>::empty());
    while i < pages.len()
        invariant
            i <= pages@.len(),
            second@.len() == first@.len(),
            k == pair_keys(strs_view(first@), strs_view(second@)),
            forall|j: int| 0 <= j < pages@.len() ==> (#[trigger] pages@[j]) < first@.len(),
            forall|j: int| 0 <= j < out@.len() ==> (#[trigger] out@[j]) < first@.len(),
            out@ == sort_by_pair(pages@.take(i as int), k),
        decreases pages@.len() - i,
    {
        let x = pages[i];
        let ghost s0 = out@;
        let mut p: usize = 0;
        while p < out.len() && !pair_less(first, second, x, out[p])
            invariant
                p <= out@.len(),
                out@ == s0,
                x < first@.len(),
                second@.len() == first@.len(),
                k == pair_keys(strs_view(first@), strs_view(second@)),
                forall|j: int| 0 <= j < out@.len() ==> (#[trigger] out@[j]) < first@.len(),
                forall|q: int| 0 <= q < p ==> !pair_lt(k[x as int], #[trigger] k[s0[q] as int]),
            decreases out@.len() - p,
        {
            p += 1;
        }
        proof {
            lemma_insert_by_pair_at(s0, x, k, p as int);
            assert(pages@.take(i + 1).drop_last() =~= pages@.take(i as int));
            assert(pages@.take(i + 1).last() == x);
        }
        out.insert(p, x);
        assert(out@ =~= s0.take(p as int) + seq![x] + s0.skip(p as int));
        i += 1;
    }
    assert(pages@.take(i as int) =~= pages@);
    out
}

/// The part-of-speech labels of the entries, in order.
fn pos_label_keys(ms: &Vec<SiteEntryMeta>) -> (r: Vec<String>)
    ensures
        strs_view(r@) == pos_keys(ms@),
{
    let mut r: Vec<String> = Vec::new();
    let mut i: usize = 0;
    while i < ms.len()
        invariant
            i <= ms@.len(),
            r@.len() == i,
            strs_view(r@) == pos_keys(ms@).take(i as int),
        decreases ms@.len() - i,
    {
        let ghost r0 = r@;
        r.push(pos_code_label(ms[i].pos.as_str(), ms[i].pos_heading.as_str()));
        proof {
            assert(strs_view(r@) =~= strs_view(r0).push(r@[i as int]@));
            assert(pos_keys(ms@).take(i + 1) =~= pos_keys(ms@).take(i as int).push(pos_keys(ms@)[i as int]));
        }
        i += 1;
    }
    assert(pos_keys(ms@).take(i as int) =~= pos_keys(ms@));
    r
}

/// The names of the entries' languages, entry by entry.
fn lang_name_keys(ms: &Vec<SiteEntryMeta>, names: &Vec<(String, String)>) -> (r: Vec<String>)
    ensures
        strs_view(r@) == lang_keys(ms@, pairs_view(names@), ms@.len() as int),
{
    let ghost nv = pairs_view(names@);
    let mut langs: Vec<String> = Vec::new();
    let mut i: usize = 0;
    while i < ms.len()
        invariant
            nv == pairs_view(names@),
            i <= ms@.len(),
            strs_view(langs@) == lang_keys(ms@, nv, i as int),
        decreases ms@.len() - i,
    {
        let m = &ms[i];
        let ghost before = strs_view(langs@);
        assert(before.len() == langs@.len());
        let mut j: usize = 0;
        while j < m.languages.len()
            invariant
                nv == pairs_view(names@),
                j <= m.languages@.len(),
                langs@.len() == before.len() + j,
                strs_view(langs@) == before + m.languages@.take(j as int).map_values(|l: String| name_of(nv, l@)),
            decreases m.languages@.len() - j,
        {
            let ghost l0 = langs@;
            langs.push(lookup_name(names, m.languages[j].as_str()));
            proof {
                assert(strs_view(langs@) =~= strs_view(l0).push(langs@[l0.len() as int]@));
                assert(m.languages@.take(j + 1).map_values(|l: String| name_of(nv, l@)) =~= m.languages@.take(
                    j as int,
                ).map_values(|l: String| name_of(nv, l@)).push(name_of(nv, m.languages@[j as int]@)));
                assert(strs_view(langs@) =~= before + m.languages@.take(j + 1).map_values(|l: String| name_of(nv, l@)));
            }
            j += 1;
        }
        assert(m.languages@.take(j as int) =~= m.languages@);
        i += 1;
    }
    langs
}

/// The part-of-speech codes of the entries.
pub open spec fn pos_codes(ms: Seq<SiteEntryMeta>) -> Seq<Seq<char>> {
    ms.map_values(|m: SiteEntryMeta| m.pos@)
}

/// All positions of a list of `n`, in order.
pub open spec fn all_positions(n: nat) -> Seq<usize> {
    Seq::new(n, |i: int| i as usize)
}

/// Entries linked to an official lemma.
pub open spec fn is_official(m: SiteEntryMeta) -> bool {
    m.official_lemma is Some
}

/// The statistics and lists of a root page.
pub open spec fn root_tables(ms: Seq<SiteEntryMeta>, skeletons: Seq<Seq<char>>, names: Seq<(Seq<char>, Seq<char>)>) -> Seq<char> {
    let langs = tally_spec(lang_keys(ms, names, ms.len() as int));
    "<div class='stat-grid wiki-stats'>"@ + counts_table_spec("Čęsti rěči"@, tally_spec(pos_keys(ms)))
        + counts_table_spec("Języky"@, langs) + "</div><h2 id='official'>Oficialne sovpadenja pod tym korenjem</h2>"@
        + word_table_spec(metas_at(ms, positions_where(ms, |m: SiteEntryMeta| is_official(m), ms.len() as int)), "../"@)
        + "<h2 id='tree'>Derivacijsko drevo / rodina</h2>"@ + word_table_spec(
        metas_at(ms, sort_by_pair(all_positions(ms.len()), pair_keys(pos_codes(ms), skeletons))),
        "../"@,
    ) + "<h2 id='desc'>Języčne potomky v sajtu</h2>"@ + counts_table_spec("Potomky po językah"@, langs)
}

/// The title of a root page.
pub open spec fn root_title(root: Seq<char>) -> Seq<char> {
    "Rekonstrukcija: *"@ + root
}

fn official_positions(ms: &Vec<SiteEntryMeta>) -> (r: Vec<usize>)
    ensures
        r@ == positions_where(ms@, |m: SiteEntryMeta| is_official(m), ms@.len() as int),
        forall|j: int| 0 <= j < r@.len() ==> (#[trigger] r@[j]) < ms@.len(),
{
    let mut r: Vec<usize> = Vec::new();
    let mut i: usize = 0;
    while i < ms.len()
        invariant
            i <= ms@.len(),
            r@ == positions_where(ms@, |m: SiteEntryMeta| is_official(m), i as int),
            forall|j: int| 0 <= j < r@.len() ==> (#[trigger] r@[j]) < i,
        decreases ms@.len() - i,
    {
        if ms[i].official_lemma.is_some() {
            r.push(i);
        }
        i += 1;
    }
    r
}

fn render_root_tables(ms: &Vec<SiteEntryMeta>, skeletons: &Vec<String>, names: &Vec<(String, String)>) -> (r: String)
    requires
        skeletons@.len() == ms@.len(),
    ensures
        r@ == root_tables(ms@, strs_view(skeletons@), pairs_view(names@)),
{
    let pos = count_by(&pos_label_keys(ms));
    let langs = count_by(&lang_name_keys(ms, names));
    assert(counts_view(pos@) =~= crate::coverage::tally_view(pos@));
    assert(counts_view(langs@) =~= crate::coverage::tally_view(langs@));
    let official = official_positions(ms);
    let mut codes: Vec<String> = Vec::new();
    let mut all: Vec<usize> = Vec::new();
    let mut i: usize = 0;
    while i < ms.len()
        invariant
            i <= ms@.len(),
            codes@.len() == i,
            strs_view(codes@) == pos_codes(ms@).take(i as int),
            all@ == all_positions(i as nat),
        decreases ms@.len() - i,
    {
        let ghost c0 = codes@;
        codes.push(ms[i].pos.clone());
        all.push(i);
        proof {
            assert(strs_view(codes@) =~= strs_view(c0).push(codes@[i as int]@));
            assert(pos_codes(ms@).take(i + 1) =~= pos_codes(ms@).take(i as int).push(pos_codes(ms@)[i as int]));
            assert(all@ =~= all_positions((i + 1) as nat));
        }
        i += 1;
    }
    assert(pos_codes(ms@).take(i as int) =~= pos_codes(ms@));
    let derived = sort_positions_by_pair(&all, &codes, skeletons);
    proof {
        lemma_sort_by_pair_below(all@, pair_keys(strs_view(codes@), strs_view(skeletons@)), ms@.len() as int);
    }
    let mut s = string_from("<div class='stat-grid wiki-stats'>");
    push_str(&mut s, counts_table("Čęsti rěči", &pos).as_str());
    push_str(&mut s, counts_table("Języky", &langs).as_str());
    push_str(&mut s, "</div><h2 id='official'>Oficialne sovpadenja pod tym korenjem</h2>");
    push_str(&mut s, render_word_table_at(ms, &official, "../").as_str());
    push_str(&mut s, "<h2 id='tree'>Derivacijsko drevo / rodina</h2>");
    push_str(&mut s, render_word_table_at(ms, &derived, "../").as_str());
    push_str(&mut s, "<h2 id='desc'>Języčne potomky v sajtu</h2>");
    push_str(&mut s, counts_table("Potomky po językah", &langs).as_str());
    s
}

/// The page of a Proto-Slavic root: the entries that descend from it,
/// their summary and counts by part of speech and language (each language
/// named from `names`), the ones linked to an official lemma, and all of
/// them ordered by part of speech and then by the ASCII skeleton of their
/// title (`skeletons[i]` is that of `ms[i]`).
pub fn root_page(
    root: &str,
    ms: &Vec<SiteEntryMeta>,
    skeletons: &Vec<String>,
    names: &Vec<(String, String)>,
    avg_langs: &str,
) -> (r: String)
    requires
        skeletons@.len() == ms@.len(),
    ensures
        r@ == site_page_spec(
            root_title(root@),
            "<article class='entry'><h1 class='firstHeading'>"@ + esc_spec(root_title(root@))
                + "</h1><p class='lede'>Statična korenj-strana za praslovjansky korenj. Ona sobira vse medžuslovjanske strany zapisov, ktore v korpusu pokazyvajųt na toj prědȯk ili blizku derivaciju.</p>"@
                + index_summary_spec(ms@, avg_langs@) + root_tables(ms@, strs_view(skeletons@), pairs_view(names@))
                + "</article>"@,
            1,
        ),
{
    let mut title = string_from("Rekonstrukcija: *");
    push_str(&mut title, root);
    let summary = index_summary(ms, avg_langs);
    let tables = render_root_tables(ms, skeletons, names);
    let mut body = string_from("<article class='entry'><h1 class='firstHeading'>");
    push_str(&mut body, esc(title.as_str()).as_str());
    push_str(&mut body, "</h1><p class='lede'>Statična korenj-strana za praslovjansky korenj. Ona sobira vse medžuslovjanske strany zapisov, ktore v korpusu pokazyvajųt na toj prědȯk ili blizku derivaciju.</p>");
    push_str(&mut body, summary.as_str());
    push_str(&mut body, tables.as_str());
    push_str(&mut body, "</article>");
    site_page(title.as_str(), body.as_str(), 1)
}

} // verus!

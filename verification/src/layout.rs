//! Shared HTML shell plus small escaping and presentation helpers.
//!
//! Page-specific renderers pass their body and search payload into this layer;
//! the layout does not depend on any page renderer.

use vstd::prelude::*;
use crate::model::{CandidateSource, Confidence, MatchStatus};
use vstd::string::StringSliceAdditionalSpecFns;
use crate::strs::{chars_of, decimal, decimal_chars, digit_char, lemma_flat_map_step, push_char, push_str, string_from, string_of_range};

verus! {

/// Builds the "Na toj strane" contents tree in the sidebar from the section
/// headings, and hides the box when a page has none (home / search).
pub const TOC_JS: &'static str = "\n(function(){ var nav=document.getElementById('toc-nav'); if(!nav)return;\n  var hs=document.querySelectorAll('main h2[id], main h3[id]'); var box=nav.closest('.toc-box');\n  if(!hs.length){ if(box)box.style.display='none'; return; }\n  var html=''; hs.forEach(function(h){ html+=\"<a class='toc-\"+h.tagName.toLowerCase()+\"' href='#\"+h.id+\"'>\"+h.textContent+\"</a>\"; });\n  nav.innerHTML=html;\n})();\n";

/// The project's source repository.
pub const REPO_URL: &'static str = "https://github.com/gold-silver-copper/Slovowiki";

/// HTML escaping of one character.
pub open spec fn esc_char(c: char) -> Seq<char> {
    if c == '&' {
        "&amp;"@
    } else if c == '<' {
        "&lt;"@
    } else if c == '>' {
        "&gt;"@
    } else if c == '"' {
        "&quot;"@
    } else if c == '\'' {
        "&#39;"@
    } else {
        seq![c]
    }
}

/// `v` with `& < > " '` replaced by their character references.
pub open spec fn esc_spec(v: Seq<char>) -> Seq<char> {
    v.map_values(|c: char| esc_char(c)).flatten()
}

/// HTML-escapes text for element content and single- or double-quoted
/// attribute values.
pub fn esc(v: &str) -> (r: String)
    ensures
        r@ == esc_spec(v@),
{
    let cs = chars_of(v);
    let mut r = String::new();
    let mut i: usize = 0;
    while i < cs.len()
        invariant
            0 <= i <= cs@.len(),
            r@ == esc_spec(cs@.take(i as int)),
        decreases cs@.len() - i,
    {
        let c = cs[i];
        let ghost before = r@;
        if c == '&' {
            push_str(&mut r, "&amp;");
        } else if c == '<' {
            push_str(&mut r, "&lt;");
        } else if c == '>' {
            push_str(&mut r, "&gt;");
        } else if c == '"' {
            push_str(&mut r, "&quot;");
        } else if c == '\'' {
            push_str(&mut r, "&#39;");
        } else {
            push_char(&mut r, c);
            assert(r@ =~= before + seq![c]);
        }
        proof {
            lemma_flat_map_step(cs@, i as int, |c: char| esc_char(c));
        }
        i += 1;
    }
    assert(cs@.take(cs@.len() as int) =~= cs@);
    r
}

/// JSON string-body encoding of one character: quote, backslash and newline
/// are escaped, a tab becomes a space, other control characters are dropped.
pub open spec fn json_char(c: char) -> Seq<char> {
    if c == '"' {
        seq!['\\', '"']
    } else if c == '\\' {
        seq!['\\', '\\']
    } else if c == '\n' {
        seq!['\\', 'n']
    } else if c == '\t' {
        seq![' ']
    } else if (c as u32) < 0x20 {
        seq![]
    } else {
        seq![c]
    }
}

/// The JSON string literal for `v`.
pub open spec fn json_str_spec(v: Seq<char>) -> Seq<char> {
    seq!['"'] + v.map_values(|c: char| json_char(c)).flatten() + seq!['"']
}

/// Encodes `v` as a JSON string literal.
pub fn json_str(v: &str) -> (r: String)
    ensures
        r@ == json_str_spec(v@),
{
    let cs = chars_of(v);
    let mut r = String::new();
    push_char(&mut r, '"');
    let mut i: usize = 0;
    while i < cs.len()
        invariant
            0 <= i <= cs@.len(),
            r@ == seq!['"'] + cs@.take(i as int).map_values(|c: char| json_char(c)).flatten(),
        decreases cs@.len() - i,
    {
        let c = cs[i];
        let ghost before = r@;
        if c == '"' {
            push_char(&mut r, '\\');
            push_char(&mut r, '"');
        } else if c == '\\' {
            push_char(&mut r, '\\');
            push_char(&mut r, '\\');
        } else if c == '\n' {
            push_char(&mut r, '\\');
            push_char(&mut r, 'n');
        } else if c == '\t' {
            push_char(&mut r, ' ');
        } else if (c as u32) < 0x20 {
        } else {
            push_char(&mut r, c);
        }
        assert(r@ =~= before + json_char(c));
        proof {
            lemma_flat_map_step(cs@, i as int, |c: char| json_char(c));
        }
        i += 1;
    }
    assert(cs@.take(cs@.len() as int) =~= cs@);
    push_char(&mut r, '"');
    r
}

/// `value` cut to `max_chars` characters, with `…` appended when it was cut.
pub open spec fn truncate_spec(value: Seq<char>, max_chars: nat) -> Seq<char> {
    if value.len() <= max_chars {
        value
    } else {
        value.take(max_chars as int) + "…"@
    }
}

/// Shortens `value` to at most `max_chars` characters plus an ellipsis.
pub fn truncate(value: &str, max_chars: usize) -> (r: String)
    ensures
        r@ == truncate_spec(value@, max_chars as nat),
{
    let cs = chars_of(value);
    if cs.len() <= max_chars {
        string_from(value)
    } else {
        let mut r = string_of_range(&cs, 0, max_chars);
        push_str(&mut r, "…");
        assert(cs@.subrange(0, max_chars as int) =~= cs@.take(max_chars as int));
        r
    }
}

/// The first `i` digits of `d`, with a comma before every digit that has a
/// positive multiple of three digits after it.
pub open spec fn group_digits(d: Seq<char>, i: nat) -> Seq<char>
    decreases i,
{
    if i == 0 {
        seq![]
    } else {
        let k = (i - 1) as nat;
        group_digits(d, k) + (if k > 0 && (d.len() - k) % 3 == 0 {
            seq![',']
        } else {
            seq![]
        }) + seq![d[k as int]]
    }
}

/// Decimal notation of `n` with thousands separated by commas.
pub open spec fn compact_spec(n: nat) -> Seq<char> {
    group_digits(decimal(n), decimal(n).len())
}

/// Formats a count with comma thousands separators (`12345` → `12,345`).
pub fn compact(value: usize) -> (r: String)
    ensures
        r@ == compact_spec(value as nat),
{
    let d = decimal_chars(value);
    let n = d.len();
    let mut r = String::new();
    let mut k: usize = 0;
    while k < n
        invariant
            n == d@.len(),
            d@ == decimal(value as nat),
            0 <= k <= n,
            r@ == group_digits(d@, k as nat),
        decreases n - k,
    {
        let ghost before = r@;
        if k > 0 && (n - k) % 3 == 0 {
            push_char(&mut r, ',');
        }
        push_char(&mut r, d[k]);
        assert(r@ =~= group_digits(d@, (k + 1) as nat));
        k += 1;
    }
    r
}

/// Query-string encoding of one character for `forms.html?q=` links.
pub open spec fn urlencode_char(c: char) -> Seq<char> {
    if c == '%' {
        "%25"@
    } else if c == ' ' {
        "%20"@
    } else if c == '&' {
        "%26"@
    } else if c == '\'' {
        "%27"@
    } else if c == '"' {
        "%22"@
    } else {
        seq![c]
    }
}

/// `value` with `% space & ' "` percent-encoded.
pub open spec fn urlencode_q_spec(value: Seq<char>) -> Seq<char> {
    value.map_values(|c: char| urlencode_char(c)).flatten()
}

/// Minimal query-string encoder for `forms.html?q=` links.
pub fn urlencode_q(value: &str) -> (r: String)
    ensures
        r@ == urlencode_q_spec(value@),
{
    let cs = chars_of(value);
    let mut r = String::new();
    let mut i: usize = 0;
    while i < cs.len()
        invariant
            0 <= i <= cs@.len(),
            r@ == urlencode_q_spec(cs@.take(i as int)),
        decreases cs@.len() - i,
    {
        let c = cs[i];
        let ghost before = r@;
        if c == '%' {
            push_str(&mut r, "%25");
        } else if c == ' ' {
            push_str(&mut r, "%20");
        } else if c == '&' {
            push_str(&mut r, "%26");
        } else if c == '\'' {
            push_str(&mut r, "%27");
        } else if c == '"' {
            push_str(&mut r, "%22");
        } else {
            push_char(&mut r, c);
            assert(r@ =~= before + seq![c]);
        }
        proof {
            lemma_flat_map_step(cs@, i as int, |c: char| urlencode_char(c));
        }
        i += 1;
    }
    assert(cs@.take(cs@.len() as int) =~= cs@);
    r
}

/// Upper-case hexadecimal digit for `d < 16`.
pub open spec fn hex_upper(d: nat) -> char {
    if d < 10 {
        digit_char(d)
    } else if d == 10 {
        'A'
    } else if d == 11 {
        'B'
    } else if d == 12 {
        'C'
    } else if d == 13 {
        'D'
    } else if d == 14 {
        'E'
    } else {
        'F'
    }
}

fn hex_digit(d: u8) -> (c: char)
    requires
        d < 16,
    ensures
        c == hex_upper(d as nat),
{
    if d < 10 {
        if d == 0 { '0' } else if d == 1 { '1' } else if d == 2 { '2' } else if d == 3 { '3' }
        else if d == 4 { '4' } else if d == 5 { '5' } else if d == 6 { '6' } else if d == 7 { '7' }
        else if d == 8 { '8' } else { '9' }
    } else if d == 10 {
        'A'
    } else if d == 11 {
        'B'
    } else if d == 12 {
        'C'
    } else if d == 13 {
        'D'
    } else if d == 14 {
        'E'
    } else {
        'F'
    }
}

/// Whether a UTF-8 byte is an unreserved URL character (`A-Z a-z 0-9 - _ . ~`).
pub open spec fn unreserved_byte(b: u8) -> bool {
    (0x41 <= b <= 0x5A) || (0x61 <= b <= 0x7A) || (0x30 <= b <= 0x39) || b == 0x2D || b == 0x5F
        || b == 0x2E || b == 0x7E
}

/// Form encoding of one UTF-8 byte: unreserved bytes stay, space becomes `+`,
/// every other byte becomes `%XX` with upper-case hex digits.
pub open spec fn query_byte(b: u8) -> Seq<char> {
    if unreserved_byte(b) {
        seq![b as char]
    } else if b == 0x20 {
        seq!['+']
    } else {
        seq!['%', hex_upper((b / 16) as nat), hex_upper((b % 16) as nat)]
    }
}

/// Form encoding of the UTF-8 bytes of `s`.
pub open spec fn query_escape_spec(s: Seq<u8>) -> Seq<char> {
    s.map_values(|b: u8| query_byte(b)).flatten()
}

/// `application/x-www-form-urlencoded` escaping of the UTF-8 bytes of `s`,
/// for issue-tracker links.
pub fn query_escape(s: &str) -> (r: String)
    ensures
        r@ == query_escape_spec(s.spec_bytes()),
{
    let bytes = s.as_bytes();
    let mut r = String::new();
    let mut i: usize = 0;
    while i < bytes.len()
        invariant
            bytes@ == s.spec_bytes(),
            0 <= i <= bytes@.len(),
            r@ == query_escape_spec(bytes@.take(i as int)),
        decreases bytes@.len() - i,
    {
        let b = bytes[i];
        let ghost before = r@;
        if (0x41 <= b && b <= 0x5A) || (0x61 <= b && b <= 0x7A) || (0x30 <= b && b <= 0x39) || b
            == 0x2D || b == 0x5F || b == 0x2E || b == 0x7E {
            push_char(&mut r, b as char);
        } else if b == 0x20 {
            push_char(&mut r, '+');
        } else {
            push_char(&mut r, '%');
            push_char(&mut r, hex_digit(b / 16));
            push_char(&mut r, hex_digit(b % 16));
        }
        assert(r@ =~= before + query_byte(b));
        proof {
            lemma_flat_map_step(bytes@, i as int, |b: u8| query_byte(b));
        }
        i += 1;
    }
    assert(bytes@.take(bytes@.len() as int) =~= bytes@);
    r
}

/// The pill shown for a match status.
pub open spec fn status_pill_spec(status: MatchStatus) -> Seq<char> {
    match status {
        MatchStatus::OfficialMatch => "<span class='pill ok'>oficialno</span>"@,
        MatchStatus::DiffersFromOfficial => "<span class='pill warn'>razlika</span>"@,
        MatchStatus::NoOfficialEntry => "<span class='pill info'>generovano</span>"@,
    }
}

/// Badge markup for a match status.
pub fn status_pill(status: MatchStatus) -> (r: &'static str)
    ensures
        r@ == status_pill_spec(status),
{
    match status {
        MatchStatus::OfficialMatch => "<span class='pill ok'>oficialno</span>",
        MatchStatus::DiffersFromOfficial => "<span class='pill warn'>razlika</span>",
        MatchStatus::NoOfficialEntry => "<span class='pill info'>generovano</span>",
    }
}

/// CSS class for a confidence bucket.
pub open spec fn conf_class_spec(confidence: Confidence) -> Seq<char> {
    match confidence {
        Confidence::High => "conf-high"@,
        Confidence::Medium => "conf-med"@,
        Confidence::Low => "conf-low"@,
    }
}

/// CSS class for a confidence bucket.
pub fn conf_class(confidence: Confidence) -> (r: &'static str)
    ensures
        r@ == conf_class_spec(confidence),
{
    match confidence {
        Confidence::High => "conf-high",
        Confidence::Medium => "conf-med",
        Confidence::Low => "conf-low",
    }
}

/// Compact strength letter for the search index (V/S/N = high/medium/low).
pub open spec fn conf_letter_spec(c: Confidence) -> Seq<char> {
    match c {
        Confidence::High => "V"@,
        Confidence::Medium => "S"@,
        Confidence::Low => "N"@,
    }
}

/// Compact strength letter for the search index (V/S/N = high/medium/low).
pub fn conf_letter(c: Confidence) -> (r: &'static str)
    ensures
        r@ == conf_letter_spec(c),
{
    match c {
        Confidence::High => "V",
        Confidence::Medium => "S",
        Confidence::Low => "N",
    }
}

/// CSS class for a candidate's source.
pub open spec fn source_class_spec(s: CandidateSource) -> Seq<char> {
    match s {
        CandidateSource::ProtoSlavicRule => "src-proto"@,
        CandidateSource::OfficialDictionary => "src-official"@,
        _ => "src-consensus"@,
    }
}

/// CSS class for a candidate's source.
pub fn source_class(s: CandidateSource) -> (r: &'static str)
    ensures
        r@ == source_class_spec(s),
{
    match s {
        CandidateSource::ProtoSlavicRule => "src-proto",
        CandidateSource::OfficialDictionary => "src-official",
        _ => "src-consensus",
    }
}

/// What the committed calibrator measured, as the entry pages print it:
/// the two thresholds (one decimal), the precision and coverage at the
/// proposal threshold (percentages, one decimal), the precision of the
/// review band when it was measured (a whole percentage), and the expected
/// calibration error on the held-out quarter (three decimals).
pub struct CalibrationView {
    pub review_t: String,
    pub propose_t: String,
    pub propose_precision: String,
    pub propose_coverage: String,
    pub review_band: Option<String>,
    pub holdout_ece: String,
}

/// The measured operating point quoted for a confidence bucket.
pub open spec fn calibration_rate(c: Confidence, cal: CalibrationView) -> Seq<char> {
    match c {
        Confidence::High => "predlog p≥"@ + cal.propose_t@ + ": "@ + cal.propose_precision@
            + "% takyh kandidatov odgovara oficialnomu slovniku ("@ + cal.propose_coverage@ + "% pokrytje)"@,
        Confidence::Medium => match cal.review_band {
            Some(band) => "pregled p∈["@ + cal.review_t@ + ","@ + cal.propose_t@ + "): ≈"@ + band@
                + "% takyh kandidatov odgovara oficialnomu slovniku"@,
            None => "pregled p∈["@ + cal.review_t@ + ","@ + cal.propose_t@ + ")"@,
        },
        Confidence::Low => "pod pragom pregleda (p<0.3)"@,
    }
}

/// The badge explainer under an entry headline: the calibrator's measured
/// operating point for the bucket, or a note that no calibration is
/// available.
pub open spec fn calibration_note_spec(c: Confidence, cal: Option<CalibrationView>) -> Seq<char> {
    match cal {
        None => "<p class='muted calib'>Sovmestimaja kalibracija ne dostupna — znak uvěrjenosti jest nekalibrovany modelovy kȯšik, ne věrojętnosť.</p>"@,
        Some(k) => "<p class='muted calib'>Kalibrovana věrodostojnosť: "@ + calibration_rate(c, k)
            + " (izměrjeno na odloženoj četvrtině; ECE "@ + k.holdout_ece@ + ").</p>"@,
    }
}

fn calibration_rate_text(c: Confidence, k: &CalibrationView) -> (r: String)
    ensures
        r@ == calibration_rate(c, *k),
{
    match c {
        Confidence::High => {
            let mut s = string_from("predlog p≥");
            push_str(&mut s, k.propose_t.as_str());
            push_str(&mut s, ": ");
            push_str(&mut s, k.propose_precision.as_str());
            push_str(&mut s, "% takyh kandidatov odgovara oficialnomu slovniku (");
            push_str(&mut s, k.propose_coverage.as_str());
            push_str(&mut s, "% pokrytje)");
            s
        },
        Confidence::Medium => {
            let mut s = string_from("pregled p∈[");
            push_str(&mut s, k.review_t.as_str());
            push_str(&mut s, ",");
            push_str(&mut s, k.propose_t.as_str());
            match &k.review_band {
                Some(band) => {
                    push_str(&mut s, "): ≈");
                    push_str(&mut s, band.as_str());
                    push_str(&mut s, "% takyh kandidatov odgovara oficialnomu slovniku");
                },
                None => {
                    push_str(&mut s, ")");
                },
            }
            s
        },
        Confidence::Low => string_from("pod pragom pregleda (p<0.3)"),
    }
}

/// The badge explainer under an entry headline, from the calibrator when
/// there is one.
pub fn calibration_note(c: Confidence, cal: &Option<CalibrationView>) -> (r: String)
    ensures
        r@ == calibration_note_spec(c, *cal),
{
    match cal {
        None => string_from("<p class='muted calib'>Sovmestimaja kalibracija ne dostupna — znak uvěrjenosti jest nekalibrovany modelovy kȯšik, ne věrojętnosť.</p>"),
        Some(k) => {
            let mut r = string_from("<p class='muted calib'>Kalibrovana věrodostojnosť: ");
            push_str(&mut r, calibration_rate_text(c, k).as_str());
            push_str(&mut r, " (izměrjeno na odloženoj četvrtině; ECE ");
            push_str(&mut r, k.holdout_ece.as_str());
            push_str(&mut r, ").</p>");
            r
        },
    }
}

/// The script that tells client code where the site root is.
pub open spec fn site_base_js_spec(relative_root: Seq<char>) -> Seq<char> {
    "var SITE_BASE='"@ + relative_root + "';"@
}

/// The script that tells client code where the site root is.
pub fn site_base_js(relative_root: &str) -> (r: String)
    ensures
        r@ == site_base_js_spec(relative_root@),
{
    let mut r = string_from("var SITE_BASE='");
    push_str(&mut r, relative_root);
    push_str(&mut r, "';");
    r
}

/// The relative path from a page at `depth` back to the site root.
pub open spec fn up_spec(depth: nat) -> Seq<char> {
    if depth == 0 {
        ""@
    } else {
        "../"@
    }
}

/// The full HTML document around `body`: header search, sidebar, footer and
/// the page's scripts. `depth` is 0 for root pages and 1 for `entry/…`.
pub open spec fn page_spec(title: Seq<char>, body: Seq<char>, depth: nat, search_js: Seq<char>) -> Seq<char> {
    let up = up_spec(depth);
    "<!doctype html><html lang='art'><head><meta charset='utf-8'><meta name='viewport' content='width=device-width, initial-scale=1'><title>"@
        + esc_spec(title)
        + "</title><link rel='stylesheet' href='"@
        + up
        + "wiktionary.css'><script>"@
        + site_base_js_spec(up)
        + "</script></head><body><header class='site-header'><a class='brand' href='"@
        + up
        + "index.html'>Medžuslovjansky <span class='brand-sub'>slovnik</span></a><form class='hsearch' onsubmit='return goSearch(event)' autocomplete='off' role='search'><input id='q' type='search' placeholder='Iskaj slovo ili anglijski smysl…  (Enter za vse rezultaty)' spellcheck='false'><button class='hsearch-go' type='submit' title='Iskaj'>→</button><div id='results' class='dropdown'></div></form><nav class='nav'><a href='"@
        + up
        + "index.html'>Slovnik</a><a href='"@
        + up
        + "special.html'>Speciaľne</a><a href='"@
        + up
        + "all-pages.html'>Vse strany</a><a href='"@
        + up
        + "categories.html'>Kategorije</a><a href='"@
        + up
        + "site-stats.html'>Statistiky</a><a href='"@
        + up
        + "search.html'>Iskanje</a><a href='"@
        + up
        + "about.html'>O metodě</a><a href='https://github.com/gold-silver-copper/Slovowiki'>Kod</a></nav></header><div class='layout'><aside class='sidebar'><div class='side-box toc-box'><div class='side-h'>Na toj straně</div><nav id='toc-nav' class='toc'></nav></div><div class='side-box'><div class='side-h'>Instrumenty</div><a class='side-link' href='"@
        + up
        + "special.html'>★ Speciaľne strany</a><a class='side-link' href='"@
        + up
        + "all-pages.html'>📖 Vse strany</a><a class='side-link' href='"@
        + up
        + "categories.html'>🏷️ Kategorije</a><a class='side-link' href='"@
        + up
        + "indices.html'>🔤 Indeksy</a><a class='side-link' href='"@
        + up
        + "portals.html'>🌐 Języčne portaly</a><a class='side-link' href='"@
        + up
        + "graph.html'>🕸️ Semantičny graf</a><a class='side-link' href='"@
        + up
        + "site-stats.html'>📈 Statistiky sajta</a><a class='side-link' href='"@
        + up
        + "borrowings.html'>↗ Pozajęta slova</a><a class='side-link' href='"@
        + up
        + "needs-review.html'>⚑ Trěbuje prověrky</a><button id='randbtn' class='side-link' type='button'>🎲 Slučajno/izbrano slovo</button><a class='side-link' href='"@
        + up
        + "search.html'>🔎 Råzširjeno iskanje</a><a class='side-link' href='"@
        + up
        + "contribute.html'>✎ Prinos</a><a class='side-link' href='"@
        + up
        + "about.html'>ⓘ O metodě</a><a class='side-link' href='"@
        + up
        + "metrics.html'>📊 Statistiky točnosti</a></div><div class='side-box' id='spotbox' style='display:none'><div class='side-h'>Slučajno slovo</div><div id='spotlight'></div></div></aside><main>"@
        + body
        + "</main></div><footer class='site-footer'>Mašinno generovane rekonstrukcije — ne oficialny standard bez prověrky. Dokazy: interslavic-dictionary.com, Wiktionary (CC BY-SA). <a href='https://github.com/gold-silver-copper/Slovowiki'>Izvorny kod</a>.</footer><script>"@
        + search_js
        + "</script><script>"@
        + TOC_JS@
        + "</script></body></html>"@
}

/// Wraps `body` in the site's HTML shell.
pub fn page(title: &str, body: &str, depth: usize, search_js: &str) -> (r: String)
    ensures
        r@ == page_spec(title@, body@, depth as nat, search_js@),
{
    let up = if depth == 0 {
        ""
    } else {
        "../"
    };
    let mut r = String::new();
    push_str(&mut r, "<!doctype html><html lang='art'><head><meta charset='utf-8'><meta name='viewport' content='width=device-width, initial-scale=1'><title>");
    push_str(&mut r, &esc(title));
    push_str(&mut r, "</title><link rel='stylesheet' href='");
    push_str(&mut r, up);
    push_str(&mut r, "wiktionary.css'><script>");
    push_str(&mut r, &site_base_js(up));
    push_str(&mut r, "</script></head><body><header class='site-header'><a class='brand' href='");
    push_str(&mut r, up);
    push_str(&mut r, "index.html'>Medžuslovjansky <span class='brand-sub'>slovnik</span></a><form class='hsearch' onsubmit='return goSearch(event)' autocomplete='off' role='search'><input id='q' type='search' placeholder='Iskaj slovo ili anglijski smysl…  (Enter za vse rezultaty)' spellcheck='false'><button class='hsearch-go' type='submit' title='Iskaj'>→</button><div id='results' class='dropdown'></div></form><nav class='nav'><a href='");
    push_str(&mut r, up);
    push_str(&mut r, "index.html'>Slovnik</a><a href='");
    push_str(&mut r, up);
    push_str(&mut r, "special.html'>Speciaľne</a><a href='");
    push_str(&mut r, up);
    push_str(&mut r, "all-pages.html'>Vse strany</a><a href='");
    push_str(&mut r, up);
    push_str(&mut r, "categories.html'>Kategorije</a><a href='");
    push_str(&mut r, up);
    push_str(&mut r, "site-stats.html'>Statistiky</a><a href='");
    push_str(&mut r, up);
    push_str(&mut r, "search.html'>Iskanje</a><a href='");
    push_str(&mut r, up);
    push_str(&mut r, "about.html'>O metodě</a><a href='https://github.com/gold-silver-copper/Slovowiki'>Kod</a></nav></header><div class='layout'><aside class='sidebar'><div class='side-box toc-box'><div class='side-h'>Na toj straně</div><nav id='toc-nav' class='toc'></nav></div><div class='side-box'><div class='side-h'>Instrumenty</div><a class='side-link' href='");
    push_str(&mut r, up);
    push_str(&mut r, "special.html'>★ Speciaľne strany</a><a class='side-link' href='");
    push_str(&mut r, up);
    push_str(&mut r, "all-pages.html'>📖 Vse strany</a><a class='side-link' href='");
    push_str(&mut r, up);
    push_str(&mut r, "categories.html'>🏷️ Kategorije</a><a class='side-link' href='");
    push_str(&mut r, up);
    push_str(&mut r, "indices.html'>🔤 Indeksy</a><a class='side-link' href='");
    push_str(&mut r, up);
    push_str(&mut r, "portals.html'>🌐 Języčne portaly</a><a class='side-link' href='");
    push_str(&mut r, up);
    push_str(&mut r, "graph.html'>🕸️ Semantičny graf</a><a class='side-link' href='");
    push_str(&mut r, up);
    push_str(&mut r, "site-stats.html'>📈 Statistiky sajta</a><a class='side-link' href='");
    push_str(&mut r, up);
    push_str(&mut r, "borrowings.html'>↗ Pozajęta slova</a><a class='side-link' href='");
    push_str(&mut r, up);
    push_str(&mut r, "needs-review.html'>⚑ Trěbuje prověrky</a><button id='randbtn' class='side-link' type='button'>🎲 Slučajno/izbrano slovo</button><a class='side-link' href='");
    push_str(&mut r, up);
    push_str(&mut r, "search.html'>🔎 Råzširjeno iskanje</a><a class='side-link' href='");
    push_str(&mut r, up);
    push_str(&mut r, "contribute.html'>✎ Prinos</a><a class='side-link' href='");
    push_str(&mut r, up);
    push_str(&mut r, "about.html'>ⓘ O metodě</a><a class='side-link' href='");
    push_str(&mut r, up);
    push_str(&mut r, "metrics.html'>📊 Statistiky točnosti</a></div><div class='side-box' id='spotbox' style='display:none'><div class='side-h'>Slučajno slovo</div><div id='spotlight'></div></div></aside><main>");
    push_str(&mut r, body);
    push_str(&mut r, "</main></div><footer class='site-footer'>Mašinno generovane rekonstrukcije — ne oficialny standard bez prověrky. Dokazy: interslavic-dictionary.com, Wiktionary (CC BY-SA). <a href='https://github.com/gold-silver-copper/Slovowiki'>Izvorny kod</a>.</footer><script>");
    push_str(&mut r, search_js);
    push_str(&mut r, "</script><script>");
    push_str(&mut r, TOC_JS);
    push_str(&mut r, "</script></body></html>");
    assert(r@ =~= page_spec(title@, body@, depth as nat, search_js@));
    r
}

} // verus!

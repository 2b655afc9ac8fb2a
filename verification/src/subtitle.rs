//! The subtitle layout engine: word normalization, chunking into timed
//! events, positioning, and ASS document emission.
//!
//! Times are integer milliseconds; fractional pixels are tenths.

use vstd::prelude::*;
use crate::strutil::{
    spec_trim, spec_lower, spec_ascii_hex_digit, spec_ascii_digit, unicode_alphabetic,
    unicode_uppercase, upper_of, to_upper_string, trim_str, ascii_lower, str_eq, u64_to_string,
    spec_u64_digits, is_ascii_digit_char, is_ascii_hex_digit_char,
};
use crate::checksum::{spec_tokens, split_ws_tokens};

verus! {

// ---------------------------------------------------------------------------
// Word text normalization.
// ---------------------------------------------------------------------------

/// Joins parts with `sep` between them.
pub open spec fn spec_join_parts(parts: Seq<Seq<char>>, sep: Seq<char>) -> Seq<char>
    decreases parts.len(),
{
    if parts.len() == 0 {
        Seq::empty()
    } else if parts.len() == 1 {
        parts[0]
    } else {
        spec_join_parts(parts.drop_last(), sep) + sep + parts.last()
    }
}

/// Maps `{` to `(` and `}` to `)`.
pub open spec fn spec_brace_char(c: char) -> char {
    if c == '{' {
        '('
    } else if c == '}' {
        ')'
    } else {
        c
    }
}

pub open spec fn spec_map_braces(s: Seq<char>) -> Seq<char> {
    s.map_values(|c: char| spec_brace_char(c))
}

/// A word's normalized form: whitespace collapsed to single spaces,
/// uppercased when `all_caps` holds, braces replaced by parentheses last so
/// the text can never collide with override syntax.
pub open spec fn spec_normalize_word(s: Seq<char>, all_caps: bool) -> Seq<char> {
    let collapsed = spec_join_parts(spec_tokens(s), " "@);
    let cased = if all_caps {
        upper_of(collapsed)
    } else {
        collapsed
    };
    spec_map_braces(cased)
}

fn join_with_spaces(parts: &Vec<String>) -> (r: String)
    ensures
        r@ == spec_join_parts(crate::strutil::views_of_strings(parts@), " "@),
{
    let ghost pv = crate::strutil::views_of_strings(parts@);
    let m = parts.len();
    let mut out = String::new();
    if m == 0 {
        proof {
            assert(pv.len() == 0);
        }
        return out;
    }
    out.append(parts[0].as_str());
    proof {
        assert(pv.subrange(0, 1) =~= seq![pv[0]]);
        assert(spec_join_parts(pv.subrange(0, 1), " "@) == pv[0]);
    }
    let mut j: usize = 1;
    while j < m
        invariant
            pv == crate::strutil::views_of_strings(parts@),
            m == parts@.len(),
            m == pv.len(),
            1 <= j <= m,
            out@ == spec_join_parts(pv.subrange(0, j as int), " "@),
        decreases m - j,
    {
        proof {
            assert(pv.subrange(0, j + 1 as int).drop_last() =~= pv.subrange(0, j as int));
            assert(pv.subrange(0, j + 1 as int).last() == pv[j as int]);
        }
        out.append(" ");
        out.append(parts[j].as_str());
        j = j + 1;
    }
    proof {
        assert(pv.subrange(0, m as int) =~= pv);
    }
    out
}

fn map_braces(s: &str) -> (r: String)
    ensures
        r@ == spec_map_braces(s@),
{
    let n = s.unicode_len();
    let mut out = String::new();
    let mut i: usize = 0;
    while i < n
        invariant
            n == s@.len(),
            i <= n,
            out@ == spec_map_braces(s@.subrange(0, i as int)),
        decreases n - i,
    {
        let c = s.get_char(i);
        if c == '{' {
            out.push('(');
        } else if c == '}' {
            out.push(')');
        } else {
            out.push(c);
        }
        proof {
            assert(spec_map_braces(s@.subrange(0, i + 1 as int)) =~= spec_map_braces(
                s@.subrange(0, i as int),
            ).push(spec_brace_char(s@[i as int])));
        }
        i = i + 1;
    }
    proof {
        assert(s@.subrange(0, n as int) =~= s@);
    }
    out
}

/// Normalizes a subtitle word's text; the result never holds a brace.
pub fn normalize_subtitle_word_text(value: &str, all_caps: bool) -> (r: String)
    ensures
        r@ == spec_normalize_word(value@, all_caps),
        forall|j: int| 0 <= j < r@.len() ==> r@[j] != '{' && r@[j] != '}',
{
    let toks = split_ws_tokens(value);
    proof {
        assert(crate::strutil::views_of_strings(toks@) =~= spec_tokens(value@));
    }
    let joined = join_with_spaces(&toks);
    let cased = if all_caps {
        to_upper_string(joined.as_str())
    } else {
        joined
    };
    let mapped = map_braces(cased.as_str());
    proof {
        assert forall|j: int| 0 <= j < mapped@.len() implies mapped@[j] != '{' && mapped@[j]
            != '}' by {
            assert(mapped@[j] == spec_brace_char(cased@[j]));
        }
    }
    mapped
}

// ---------------------------------------------------------------------------
// Emphasis detection.
// ---------------------------------------------------------------------------

pub open spec fn spec_count_alpha(s: Seq<char>) -> int
    decreases s.len(),
{
    if s.len() == 0 {
        0
    } else {
        spec_count_alpha(s.drop_last()) + if unicode_alphabetic(s.last()) {
            1int
        } else {
            0int
        }
    }
}

pub open spec fn spec_count_upper(s: Seq<char>) -> int
    decreases s.len(),
{
    if s.len() == 0 {
        0
    } else {
        spec_count_upper(s.drop_last()) + if unicode_uppercase(s.last()) {
            1int
        } else {
            0int
        }
    }
}

pub open spec fn spec_has_ascii_digit(s: Seq<char>) -> bool {
    exists|j: int| 0 <= j < s.len() && spec_ascii_digit(s[j])
}

/// A word is emphasized when it has at least eight letters, or at least
/// five letters together with a digit or an uppercase-letter share of at
/// least 55 percent.
pub open spec fn spec_emphasis(s: Seq<char>) -> bool {
    let letters = spec_count_alpha(s);
    if letters < 5 {
        false
    } else if letters >= 8 {
        true
    } else {
        spec_has_ascii_digit(s) || 100 * spec_count_upper(s) >= 55 * letters
    }
}

/// Decides whether a normalized word is highlight-worthy.
pub fn is_emphasis_candidate(value: &str) -> (r: bool)
    ensures
        r == spec_emphasis(value@),
{
    let n = value.unicode_len();
    let mut letters: usize = 0;
    let mut uppers: usize = 0;
    let mut has_digit = false;
    let mut i: usize = 0;
    while i < n
        invariant
            n == value@.len(),
            i <= n,
            letters == spec_count_alpha(value@.subrange(0, i as int)),
            uppers == spec_count_upper(value@.subrange(0, i as int)),
            letters <= i,
            uppers <= i,
            has_digit == spec_has_ascii_digit(value@.subrange(0, i as int)),
        decreases n - i,
    {
        let c = value.get_char(i);
        proof {
            assert(value@.subrange(0, i + 1 as int).drop_last() =~= value@.subrange(0, i as int));
            assert(value@.subrange(0, i + 1 as int).last() == value@[i as int]);
        }
        if c.is_alphabetic() {
            letters = letters + 1;
        }
        if c.is_uppercase() {
            uppers = uppers + 1;
        }
        if is_ascii_digit_char(c) {
            proof {
                assert(value@.subrange(0, i + 1 as int)[i as int] == value@[i as int]);
            }
            has_digit = true;
        }
        proof {
            let pre = value@.subrange(0, i as int);
            let cur = value@.subrange(0, i + 1 as int);
            if has_digit && !spec_has_ascii_digit(pre) && !spec_ascii_digit(value@[i as int]) {
                assert(false);
            }
            if spec_has_ascii_digit(pre) {
                let j = choose|j: int| 0 <= j < pre.len() && spec_ascii_digit(pre[j]);
                assert(cur[j] == pre[j]);
                assert(spec_has_ascii_digit(cur));
            }
            if spec_has_ascii_digit(cur) && !spec_ascii_digit(value@[i as int]) {
                let j = choose|j: int| 0 <= j < cur.len() && spec_ascii_digit(cur[j]);
                assert(pre[j] == cur[j]);
            }
        }
        i = i + 1;
    }
    proof {
        assert(value@.subrange(0, n as int) =~= value@);
    }
    if letters < 5 {
        return false;
    }
    if letters >= 8 {
        return true;
    }
    has_digit || 100 * (uppers as u128) >= 55 * (letters as u128)
}

// ---------------------------------------------------------------------------
// Colors.
// ---------------------------------------------------------------------------

/// The numeric value of a hex digit.
pub open spec fn spec_hex_val(c: char) -> int {
    if '0' <= c && c <= '9' {
        c as int - 48
    } else if 'a' <= c && c <= 'f' {
        c as int - 87
    } else {
        c as int - 55
    }
}

/// `s` with every leading `#` removed.
pub open spec fn spec_strip_hashes(s: Seq<char>) -> Seq<char>
    decreases s.len(),
{
    if s.len() > 0 && s[0] == '#' {
        spec_strip_hashes(s.subrange(1, s.len() as int))
    } else {
        s
    }
}

/// The RGB triple of a `#RRGGBB` color text.
pub open spec fn spec_hex_rgb(value: Seq<char>) -> Option<(int, int, int)> {
    let t = spec_strip_hashes(spec_trim(value));
    if t.len() == 6 && (forall|j: int| 0 <= j < 6 ==> spec_ascii_hex_digit(t[j])) {
        Option::Some(
            (
                16 * spec_hex_val(t[0]) + spec_hex_val(t[1]),
                16 * spec_hex_val(t[2]) + spec_hex_val(t[3]),
                16 * spec_hex_val(t[4]) + spec_hex_val(t[5]),
            ),
        )
    } else {
        Option::None
    }
}

fn hex_val_exec(c: char) -> (r: u8)
    requires
        spec_ascii_hex_digit(c),
    ensures
        r == spec_hex_val(c),
        r < 16,
{
    let v = c as u32;
    if v >= 97 {
        (v - 87) as u8
    } else if v >= 65 {
        (v - 55) as u8
    } else {
        (v - 48) as u8
    }
}

/// Parses a `#RRGGBB` color.
pub fn parse_hex_rgb(value: &str) -> (r: Option<(u8, u8, u8)>)
    ensures
        match r {
            Option::Some((red, green, blue)) => spec_hex_rgb(value@) == Option::Some(
                (red as int, green as int, blue as int),
            ),
            Option::None => spec_hex_rgb(value@) is None,
        },
{
    let trimmed = trim_str(value);
    let tn = trimmed.unicode_len();
    let mut a: usize = 0;
    proof {
        assert(trimmed@.subrange(0, tn as int) =~= trimmed@);
    }
    while a < tn && trimmed.as_str().get_char(a) == '#'
        invariant
            tn == trimmed@.len(),
            a <= tn,
            spec_strip_hashes(trimmed@) == spec_strip_hashes(trimmed@.subrange(a as int, tn as int)),
        decreases tn - a,
    {
        proof {
            let suf = trimmed@.subrange(a as int, tn as int);
            assert(suf[0] == trimmed@[a as int]);
            assert(suf.subrange(1, suf.len() as int) =~= trimmed@.subrange(a + 1 as int, tn as int));
        }
        a = a + 1;
    }
    proof {
        let suf = trimmed@.subrange(a as int, tn as int);
        if suf.len() > 0 {
            assert(suf[0] == trimmed@[a as int]);
        }
        assert(spec_strip_hashes(suf) == suf);
    }
    let t = trimmed.as_str().substring_char(a, tn);
    let n = t.unicode_len();
    if n != 6 {
        return None;
    }
    let mut i: usize = 0;
    while i < 6
        invariant
            t@ == spec_strip_hashes(spec_trim(value@)),
            n == t@.len(),
            n == 6,
            i <= 6,
            forall|j: int| 0 <= j < i ==> spec_ascii_hex_digit(t@[j]),
        decreases 6 - i,
    {
        if !is_ascii_hex_digit_char(t.get_char(i)) {
            proof {
                assert(!spec_ascii_hex_digit(t@[i as int]));
            }
            return None;
        }
        i = i + 1;
    }
    let red = 16 * hex_val_exec(t.get_char(0)) + hex_val_exec(t.get_char(1));
    let green = 16 * hex_val_exec(t.get_char(2)) + hex_val_exec(t.get_char(3));
    let blue = 16 * hex_val_exec(t.get_char(4)) + hex_val_exec(t.get_char(5));
    Some((red, green, blue))
}

/// The uppercase hex digit for a value below sixteen.
pub open spec fn spec_hex_digit_upper(d: int) -> char {
    if d < 10 {
        ((48 + d) as u8) as char
    } else {
        ((55 + d) as u8) as char
    }
}

/// A byte as two uppercase hex digits.
pub open spec fn spec_hex2(n: int) -> Seq<char> {
    seq![spec_hex_digit_upper(n / 16), spec_hex_digit_upper(n % 16)]
}

fn push_hex2(out: &mut String, n: u8)
    ensures
        final(out)@ == old(out)@ + spec_hex2(n as int),
{
    let hi = n / 16;
    let lo = n % 16;
    let hc: u8 = if hi < 10 {
        48 + hi
    } else {
        55 + hi
    };
    let lc: u8 = if lo < 10 {
        48 + lo
    } else {
        55 + lo
    };
    out.push(hc as char);
    out.push(lc as char);
    proof {
        assert(old(out)@ + spec_hex2(n as int) =~= old(out)@.push(spec_hex_digit_upper(
            n as int / 16,
        )).push(spec_hex_digit_upper(n as int % 16)));
    }
}

/// The ASS `&H00BBGGRR` form of a color, with a fallback color and a last
/// resort of white.
pub open spec fn spec_ass_color(value: Seq<char>, fallback: Seq<char>) -> Seq<char> {
    let rgb = if spec_hex_rgb(value) is Some {
        spec_hex_rgb(value)->Some_0
    } else if spec_hex_rgb(fallback) is Some {
        spec_hex_rgb(fallback)->Some_0
    } else {
        (255int, 255int, 255int)
    };
    "&H00"@ + spec_hex2(rgb.2) + spec_hex2(rgb.1) + spec_hex2(rgb.0)
}

/// Renders a color in the ASS `&H00BBGGRR` form.
pub fn ass_color(value: &str, fallback: &str) -> (r: String)
    ensures
        r@ == spec_ass_color(value@, fallback@),
{
    let rgb = match parse_hex_rgb(value) {
        Option::Some(t) => t,
        Option::None => match parse_hex_rgb(fallback) {
            Option::Some(t) => t,
            Option::None => (255, 255, 255),
        },
    };
    let mut out = String::new();
    out.append("&H00");
    push_hex2(&mut out, rgb.2);
    push_hex2(&mut out, rgb.1);
    push_hex2(&mut out, rgb.0);
    out
}

/// The ASS `&HAABBGGRR` back color, with an alpha byte and a black last
/// resort.
pub open spec fn spec_ass_back_color(value: Seq<char>, fallback: Seq<char>, alpha: int) -> Seq<
    char,
> {
    let rgb = if spec_hex_rgb(value) is Some {
        spec_hex_rgb(value)->Some_0
    } else if spec_hex_rgb(fallback) is Some {
        spec_hex_rgb(fallback)->Some_0
    } else {
        (0int, 0int, 0int)
    };
    "&H"@ + spec_hex2(alpha) + spec_hex2(rgb.2) + spec_hex2(rgb.1) + spec_hex2(rgb.0)
}

/// Renders a back color in the ASS `&HAABBGGRR` form.
pub fn ass_back_color(value: &str, fallback: &str, alpha: u8) -> (r: String)
    ensures
        r@ == spec_ass_back_color(value@, fallback@, alpha as int),
{
    let rgb = match parse_hex_rgb(value) {
        Option::Some(t) => t,
        Option::None => match parse_hex_rgb(fallback) {
            Option::Some(t) => t,
            Option::None => (0, 0, 0),
        },
    };
    let mut out = String::new();
    out.append("&H");
    push_hex2(&mut out, alpha);
    push_hex2(&mut out, rgb.2);
    push_hex2(&mut out, rgb.1);
    push_hex2(&mut out, rgb.0);
    out
}

// ---------------------------------------------------------------------------
// Timestamps and alignment.
// ---------------------------------------------------------------------------

/// A value below 100 as two digits.
pub open spec fn spec_pad2(n: int) -> Seq<char> {
    if n < 10 {
        seq!['0'] + spec_u64_digits(n)
    } else {
        spec_u64_digits(n)
    }
}

fn push_pad2(out: &mut String, n: u64)
    requires
        n < 100,
    ensures
        final(out)@ == old(out)@ + spec_pad2(n as int),
{
    if n < 10 {
        out.push('0');
        out.push(((48 + n) as u8) as char);
        proof {
            assert(spec_u64_digits(n as int) =~= seq![crate::strutil::spec_digit_char(n as int)]);
            assert(old(out)@ + spec_pad2(n as int) =~= old(out)@.push('0').push(
                crate::strutil::spec_digit_char(n as int),
            ));
        }
    } else {
        let s = u64_to_string(n);
        out.append(s.as_str());
    }
}

/// The ASS timestamp `H:MM:SS.CC` of a time in milliseconds, rounded to the
/// centisecond.
pub open spec fn spec_ass_timestamp(ms: int) -> Seq<char> {
    let cs = (ms + 5) / 10;
    spec_u64_digits(cs / 360000) + ":"@ + spec_pad2((cs / 6000) % 60) + ":"@ + spec_pad2(
        (cs / 100) % 60,
    ) + "."@ + spec_pad2(cs % 100)
}

/// Renders a millisecond time as an ASS timestamp.
pub fn ass_timestamp(ms: u64) -> (r: String)
    requires
        ms < 0xFFFF_FFFF_FFFF_0000,
    ensures
        r@ == spec_ass_timestamp(ms as int),
{
    let cs = (ms + 5) / 10;
    let mut out = String::new();
    let hours = u64_to_string(cs / 360000);
    out.append(hours.as_str());
    out.append(":");
    push_pad2(&mut out, (cs / 6000) % 60);
    out.append(":");
    push_pad2(&mut out, (cs / 100) % 60);
    out.append(".");
    push_pad2(&mut out, cs % 100);
    out
}

/// The ASS alignment code of a position: top 8, center 5, bottom 2.
pub open spec fn spec_alignment(position: Seq<char>) -> int {
    let p = spec_lower(spec_trim(position));
    if p == "top"@ {
        8
    } else if p == "center"@ {
        5
    } else {
        2
    }
}

/// Maps a position keyword to its ASS alignment code.
pub fn subtitle_alignment(position: &str) -> (r: u32)
    ensures
        r as int == spec_alignment(position@),
{
    let t = trim_str(position);
    let p = ascii_lower(t.as_str());
    if str_eq(p.as_str(), "top") {
        8
    } else if str_eq(p.as_str(), "center") {
        5
    } else {
        2
    }
}

// ---------------------------------------------------------------------------
// Words and payloads.
// ---------------------------------------------------------------------------

/// A transcript word carried into the export, timed in milliseconds.
#[derive(Debug, Clone)]
pub struct ExportTranscriptWord {
    pub id: String,
    pub text: String,
    pub start_ms: u64,
    pub end_ms: u64,
}

/// The mathematical view of a transcript word.
pub struct WordView {
    pub text: Seq<char>,
    pub start_ms: int,
    pub end_ms: int,
}

impl View for ExportTranscriptWord {
    type V = WordView;

    open spec fn view(&self) -> WordView {
        WordView { text: self.text@, start_ms: self.start_ms as int, end_ms: self.end_ms as int }
    }
}

/// The style sheet of the burned-in subtitles. Fractional quantities carry
/// their unit in the name: `_milli` is thousandths, `_centi` hundredths,
/// `_deci` tenths.
#[derive(Debug, Clone)]
pub struct SubtitleRenderProfile {
    pub animation: String,
    pub position: String,
    pub font_family: String,
    pub font_size: u32,
    pub line_height_milli: u32,
    pub max_words_per_line: u32,
    pub max_chars_per_line: u32,
    pub max_lines: u32,
    pub safe_margin_x: u32,
    pub safe_margin_y: u32,
    pub primary_color: String,
    pub secondary_color: String,
    pub outline_color: String,
    pub shadow_color: String,
    pub outline_width_deci: u32,
    pub shadow_depth_deci: u32,
    pub bold: bool,
    pub italic: bool,
    pub all_caps: bool,
    pub letter_spacing_centi: i32,
    pub fade_in_ms: u32,
    pub fade_out_ms: u32,
    pub highlight_important_words: bool,
}

/// The batch-level subtitle payload.
#[derive(Debug, Clone)]
pub struct ClipBatchSubtitlePayload {
    pub enabled: bool,
    pub preset_id: String,
    pub preset_name: Option<String>,
    pub render_profile: SubtitleRenderProfile,
    pub words: Vec<ExportTranscriptWord>,
}

/// The per-clip rendering frame: the clip window, the target canvas, and
/// the subtitle placement overrides.
#[derive(Debug, Clone)]
pub struct ClipSubtitleRenderContext {
    pub clip_start_ms: u64,
    pub clip_end_ms: u64,
    pub target_w: u32,
    pub target_h: u32,
    pub subtitle_offset_x_milli: i32,
    pub subtitle_offset_y_milli: i32,
    pub subtitle_box_width_milli: u32,
    pub subtitle_box_height_milli: u32,
}

/// A word prepared for layout.
#[derive(Debug)]
pub struct ClipSubtitleWord {
    pub text: String,
    pub start_ms: u64,
    pub end_ms: u64,
    pub emphasis: bool,
}

/// The mathematical view of a prepared word.
pub struct SubWordView {
    pub text: Seq<char>,
    pub start_ms: int,
    pub end_ms: int,
    pub emphasis: bool,
}

impl View for ClipSubtitleWord {
    type V = SubWordView;

    open spec fn view(&self) -> SubWordView {
        SubWordView {
            text: self.text@,
            start_ms: self.start_ms as int,
            end_ms: self.end_ms as int,
            emphasis: self.emphasis,
        }
    }
}

// ---------------------------------------------------------------------------
// Word filtering.
// ---------------------------------------------------------------------------

/// The words of the payload that intersect the clip window for at least
/// 25 ms and keep some text after normalization, with their times clipped
/// to the window.
pub open spec fn spec_filtered_words(
    ws: Seq<WordView>,
    all_caps: bool,
    highlight: bool,
    cs: int,
    ce: int,
) -> Seq<SubWordView>
    decreases ws.len(),
{
    if ws.len() == 0 {
        Seq::empty()
    } else {
        let rest = spec_filtered_words(ws.drop_last(), all_caps, highlight, cs, ce);
        let w = ws.last();
        let s = if w.start_ms >= cs {
            w.start_ms
        } else {
            cs
        };
        let e = if w.end_ms <= ce {
            w.end_ms
        } else {
            ce
        };
        let t = spec_normalize_word(w.text, all_caps);
        if e >= s + 25 && t.len() > 0 {
            rest.push(
                SubWordView {
                    text: t,
                    start_ms: s,
                    end_ms: e,
                    emphasis: highlight && spec_emphasis(t),
                },
            )
        } else {
            rest
        }
    }
}

/// Filters and clips the payload words to the clip window.
pub fn filter_clip_words(
    words: &Vec<ExportTranscriptWord>,
    all_caps: bool,
    highlight: bool,
    clip_start_ms: u64,
    clip_end_ms: u64,
) -> (r: Vec<ClipSubtitleWord>)
    ensures
        r@.map_values(|w: ClipSubtitleWord| w@) == spec_filtered_words(
            words@.map_values(|w: ExportTranscriptWord| w@),
            all_caps,
            highlight,
            clip_start_ms as int,
            clip_end_ms as int,
        ),
        forall|k: int|
            0 <= k < r@.len() ==> clip_start_ms <= #[trigger] r@[k].start_ms && r@[k].end_ms
                <= clip_end_ms && r@[k].start_ms + 25 <= r@[k].end_ms,
{
    let ghost wv = words@.map_values(|w: ExportTranscriptWord| w@);
    let n = words.len();
    let mut out: Vec<ClipSubtitleWord> = Vec::new();
    let mut i: usize = 0;
    while i < n
        invariant
            wv == words@.map_values(|w: ExportTranscriptWord| w@),
            n == words@.len(),
            i <= n,
            out@.map_values(|w: ClipSubtitleWord| w@) == spec_filtered_words(
                wv.subrange(0, i as int),
                all_caps,
                highlight,
                clip_start_ms as int,
                clip_end_ms as int,
            ),
            forall|k: int|
                0 <= k < out@.len() ==> clip_start_ms <= #[trigger] out@[k].start_ms
                    && out@[k].end_ms <= clip_end_ms && out@[k].start_ms + 25 <= out@[k].end_ms,
        decreases n - i,
    {
        proof {
            assert(wv.subrange(0, i + 1 as int).drop_last() =~= wv.subrange(0, i as int));
            assert(wv.subrange(0, i + 1 as int).last() == wv[i as int]);
            assert(wv[i as int] == words@[i as int]@);
        }
        let w = &words[i];
        let s = if w.start_ms >= clip_start_ms {
            w.start_ms
        } else {
            clip_start_ms
        };
        let e = if w.end_ms <= clip_end_ms {
            w.end_ms
        } else {
            clip_end_ms
        };
        let t = normalize_subtitle_word_text(w.text.as_str(), all_caps);
        let tn = t.unicode_len();
        if e >= s && e - s >= 25 && tn > 0 {
            let emphasis = highlight && is_emphasis_candidate(t.as_str());
            let word = ClipSubtitleWord { text: t, start_ms: s, end_ms: e, emphasis };
            let ghost prev = out@;
            out.push(word);
            proof {
                assert(out@.map_values(|w: ClipSubtitleWord| w@) =~= spec_filtered_words(
                    wv.subrange(0, i + 1 as int),
                    all_caps,
                    highlight,
                    clip_start_ms as int,
                    clip_end_ms as int,
                ));
                assert forall|k: int|
                    0 <= k < out@.len() implies clip_start_ms <= #[trigger] out@[k].start_ms
                    && out@[k].end_ms <= clip_end_ms && out@[k].start_ms + 25
                    <= out@[k].end_ms by {
                    if k < prev.len() {
                        assert(out@[k] == prev[k]);
                        assert(clip_start_ms <= prev[k].start_ms);
                    } else {
                        assert(out@[k] == word);
                    }
                }
            }
        } else {
            proof {
                assert(out@.map_values(|w: ClipSubtitleWord| w@) =~= spec_filtered_words(
                    wv.subrange(0, i + 1 as int),
                    all_caps,
                    highlight,
                    clip_start_ms as int,
                    clip_end_ms as int,
                ));
            }
        }
        i = i + 1;
    }
    proof {
        assert(wv.subrange(0, n as int) =~= wv);
    }
    out
}

// ---------------------------------------------------------------------------
// Sorting by start time.
// ---------------------------------------------------------------------------

/// Insertion of a word into a list, after every word that starts no later:
/// the stable insertion step.
pub open spec fn spec_insert_by_start(s: Seq<ClipSubtitleWord>, w: ClipSubtitleWord) -> Seq<
    ClipSubtitleWord,
>
    decreases s.len(),
{
    if s.len() == 0 {
        seq![w]
    } else if s[0].start_ms <= w.start_ms {
        seq![s[0]] + spec_insert_by_start(s.drop_first(), w)
    } else {
        seq![w] + s
    }
}

/// The stable sort of a word list by start time, built by inserting each
/// word in turn.
pub open spec fn spec_sorted_words(ws: Seq<ClipSubtitleWord>) -> Seq<ClipSubtitleWord>
    decreases ws.len(),
{
    if ws.len() == 0 {
        Seq::empty()
    } else {
        spec_insert_by_start(spec_sorted_words(ws.drop_last()), ws.last())
    }
}

/// Stable insertion places the word exactly at the first position whose
/// occupant starts later.
proof fn lemma_insert_at(s: Seq<ClipSubtitleWord>, w: ClipSubtitleWord, pos: int)
    requires
        0 <= pos <= s.len(),
        forall|j: int| 0 <= j < pos ==> #[trigger] s[j].start_ms <= w.start_ms,
        pos < s.len() ==> s[pos].start_ms > w.start_ms,
    ensures
        spec_insert_by_start(s, w) == s.take(pos) + seq![w] + s.subrange(pos, s.len() as int),
    decreases s.len(),
{
    if s.len() == 0 {
        assert(spec_insert_by_start(s, w) =~= s.take(pos) + seq![w] + s.subrange(
            pos,
            s.len() as int,
        ));
    } else if s[0].start_ms <= w.start_ms {
        assert(pos >= 1) by {
            if pos == 0 {
                assert(s[0].start_ms > w.start_ms);
            }
        }
        let t = s.drop_first();
        assert(forall|j: int| 0 <= j < pos - 1 ==> #[trigger] t[j].start_ms <= w.start_ms) by {
            assert(forall|j: int| 0 <= j < pos - 1 ==> t[j] == s[j + 1]);
        }
        if pos - 1 < t.len() {
            assert(t[pos - 1] == s[pos]);
        }
        lemma_insert_at(t, w, pos - 1);
        assert(seq![s[0]] + (t.take(pos - 1) + seq![w] + t.subrange(pos - 1, t.len() as int))
            =~= s.take(pos) + seq![w] + s.subrange(pos, s.len() as int));
    } else {
        assert(pos == 0) by {
            if pos >= 1 {
                assert(s[0].start_ms <= w.start_ms);
            }
        }
        assert(spec_insert_by_start(s, w) =~= s.take(pos) + seq![w] + s.subrange(
            pos,
            s.len() as int,
        ));
    }
}

pub open spec fn spec_sorted_by_start(s: Seq<ClipSubtitleWord>) -> bool {
    forall|i: int, j: int| 0 <= i < j < s.len() ==> #[trigger] s[i].start_ms <= #[trigger] s[j].start_ms
}

/// Sorts words by their start time (stable insertion sort). The result is
/// exactly the stable sort of the input, and in particular a permutation
/// of it.
pub fn sort_words_by_start(words: Vec<ClipSubtitleWord>) -> (r: Vec<ClipSubtitleWord>)
    ensures
        r@ == spec_sorted_words(words@),
        spec_sorted_by_start(r@),
        r@.to_multiset() == words@.to_multiset(),
        r@.len() == words@.len(),
        forall|k: int| 0 <= k < r@.len() ==> words@.contains(#[trigger] r@[k]),
{
    broadcast use vstd::seq_lib::group_to_multiset_ensures;
    broadcast use vstd::multiset::group_multiset_axioms;

    let ghost orig = words@;
    let mut rest = words;
    let mut out: Vec<ClipSubtitleWord> = Vec::new();
    let ghost mut processed: Seq<ClipSubtitleWord> = Seq::empty();
    proof {
        assert(processed + rest@ =~= orig);
    }
    while rest.len() > 0
        invariant
            processed + rest@ =~= orig,
            out@ == spec_sorted_words(processed),
            spec_sorted_by_start(out@),
            out@.to_multiset().add(rest@.to_multiset()) =~= orig.to_multiset(),
            out@.len() + rest@.len() == orig.len(),
            forall|k: int| 0 <= k < out@.len() ==> orig.contains(#[trigger] out@[k]),
            forall|k: int| 0 <= k < rest@.len() ==> orig.contains(#[trigger] rest@[k]),
        decreases rest@.len(),
    {
        let ghost rest0 = rest@;
        let w = rest.remove(0);
        proof {
            broadcast use vstd::seq_lib::group_to_multiset_ensures;
            broadcast use vstd::multiset::group_multiset_axioms;

            assert(rest0[0] == w);
            assert(rest@ == rest0.remove(0));
            assert(rest0.remove(0).to_multiset() == rest0.to_multiset().remove(w));
            assert(rest0.contains(w));
            assert(rest0.to_multiset().count(w) > 0);
            assert(rest0.to_multiset() =~= rest@.to_multiset().insert(w));
            assert(orig.contains(w));
        }
        let mut pos: usize = 0;
        while pos < out.len() && out[pos].start_ms <= w.start_ms
            invariant
                pos <= out@.len(),
                forall|k: int| 0 <= k < pos ==> #[trigger] out@[k].start_ms <= w.start_ms,
            decreases out@.len() - pos,
        {
            pos = pos + 1;
        }
        proof {
            assert(pos < out@.len() ==> out@[pos as int].start_ms > w.start_ms);
        }
        let ghost out0 = out@;
        out.insert(pos, w);
        proof {
            broadcast use vstd::seq_lib::group_to_multiset_ensures;
            broadcast use vstd::multiset::group_multiset_axioms;

            assert(out@ =~= out0.insert(pos as int, w));
            assert(out@ == spec_sorted_words(processed.push(w))) by {
                lemma_insert_at(out0, w, pos as int);
                assert(processed.push(w).drop_last() =~= processed);
                assert(processed.push(w).last() == w);
                assert(out0.insert(pos as int, w) =~= out0.take(pos as int) + seq![w]
                    + out0.subrange(pos as int, out0.len() as int));
            }
            processed = processed.push(w);
            assert(processed + rest@ =~= orig);
            assert(spec_sorted_by_start(out@)) by {
                assert forall|i: int, j: int| 0 <= i < j < out@.len() implies #[trigger] out@[i].start_ms
                    <= #[trigger] out@[j].start_ms by {
                    assert(spec_sorted_by_start(out0));
                    if i < pos && j < pos {
                        assert(out@[i] == out0[i] && out@[j] == out0[j]);
                    } else if i < pos && j == pos {
                        assert(out@[i] == out0[i]);
                    } else if i < pos && j > pos {
                        assert(out@[i] == out0[i] && out@[j] == out0[j - 1]);
                        if j - 1 >= pos {
                            assert(out0[pos as int].start_ms > w.start_ms || pos == out0.len());
                        }
                        if i < j - 1 {
                            assert(out0[i].start_ms <= out0[j - 1].start_ms);
                        }
                    } else if i == pos {
                        assert(out@[j] == out0[j - 1]);
                        assert(j - 1 >= pos);
                        assert(out0[j - 1].start_ms > w.start_ms);
                    } else {
                        assert(out@[i] == out0[i - 1] && out@[j] == out0[j - 1]);
                        if i - 1 < j - 1 {
                            assert(out0[i - 1].start_ms <= out0[j - 1].start_ms);
                        }
                    }
                }
            }
            assert(out0.insert(pos as int, w).to_multiset() == out0.to_multiset().insert(w));
            assert(out@.to_multiset() == out0.to_multiset().insert(w));
            assert(out@.to_multiset().add(rest@.to_multiset()) =~= orig.to_multiset());
            assert(forall|k: int| 0 <= k < out@.len() ==> orig.contains(#[trigger] out@[k])) by {
                assert forall|k: int| 0 <= k < out@.len() implies orig.contains(
                    #[trigger] out@[k],
                ) by {
                    if k < pos {
                        assert(out@[k] == out0[k]);
                    } else if k == pos {
                        assert(out@[k] == w);
                    } else {
                        assert(out@[k] == out0[k - 1]);
                    }
                }
            }
        }
    }
    proof {
        broadcast use vstd::seq_lib::group_to_multiset_ensures;
        broadcast use vstd::multiset::group_multiset_axioms;

        assert(rest@ =~= Seq::<ClipSubtitleWord>::empty());
        assert(processed =~= orig);
        assert(rest@.to_multiset() =~= vstd::multiset::Multiset::<ClipSubtitleWord>::empty());
        assert(out@.to_multiset() =~= orig.to_multiset());
    }
    out
}

// ---------------------------------------------------------------------------
// Chunking and line wrapping.
// ---------------------------------------------------------------------------

/// The concatenation of groups of words.
pub open spec fn spec_concat_groups(groups: Seq<Seq<ClipSubtitleWord>>) -> Seq<ClipSubtitleWord>
    decreases groups.len(),
{
    if groups.len() == 0 {
        Seq::empty()
    } else {
        spec_concat_groups(groups.drop_last()) + groups.last()
    }
}

/// The layout character count of a word, capped at a million.
pub open spec fn spec_word_chars(w: ClipSubtitleWord) -> int {
    if w.text@.len() > 1000000 {
        1000000
    } else {
        w.text@.len() as int
    }
}

/// The running character budget after taking `w` into a group of
/// `cur_len` words, saturating at two million.
pub open spec fn spec_chars_add(cur_chars: int, cur_len: int, w: ClipSubtitleWord) -> int {
    let a = if cur_len == 0 {
        spec_word_chars(w)
    } else {
        spec_word_chars(w) + 1
    };
    if cur_chars + a > 2000000 {
        2000000
    } else {
        cur_chars + a
    }
}

/// Whether a token ends a sentence.
pub open spec fn spec_sentence_end(t: Seq<char>) -> bool {
    t.len() > 0 && (t.last() == '.' || t.last() == '!' || t.last() == '?' || t.last()
        == '\u{2026}')
}

/// The chunk-flush rule: a non-empty chunk is closed before `w` when it is
/// at the word budget, taking `w` would pass the character budget, the
/// chunk would span more than 4.4 s, `w` follows a gap over 0.62 s, or the
/// previous word ended a sentence and the chunk has at least half the word
/// budget (and at least two words).
pub open spec fn spec_chunk_flush(
    current: Seq<ClipSubtitleWord>,
    cur_chars: int,
    w: ClipSubtitleWord,
    word_limit: int,
    char_limit: int,
) -> bool {
    if current.len() == 0 {
        false
    } else {
        let additional = spec_word_chars(w) + 1;
        let chunk_start = current[0].start_ms as int;
        let prev_end = current.last().end_ms as int;
        let overflow = current.len() >= word_limit || cur_chars + additional > char_limit || (
        w.end_ms as int > chunk_start && w.end_ms as int - chunk_start > 4400);
        let gap = w.start_ms as int > prev_end && w.start_ms as int - prev_end > 620;
        let half = word_limit / 2;
        let threshold = if half >= 2 {
            half
        } else {
            2
        };
        let sentence = spec_sentence_end(current.last().text@) && current.len() >= threshold;
        overflow || gap || sentence
    }
}

/// The chunking fold: completed chunks, the open chunk, and its character
/// budget.
pub open spec fn spec_chunk_fold(ws: Seq<ClipSubtitleWord>, word_limit: int, char_limit: int) -> (
    Seq<Seq<ClipSubtitleWord>>,
    Seq<ClipSubtitleWord>,
    int,
)
    decreases ws.len(),
{
    if ws.len() == 0 {
        (Seq::empty(), Seq::empty(), 0)
    } else {
        let (chunks, current, chars) = spec_chunk_fold(ws.drop_last(), word_limit, char_limit);
        let w = ws.last();
        if spec_chunk_flush(current, chars, w, word_limit, char_limit) {
            (chunks.push(current), seq![w], spec_chars_add(0, 0, w))
        } else {
            (chunks, current.push(w), spec_chars_add(chars, current.len() as int, w))
        }
    }
}

/// The subtitle chunks of a sorted word list.
pub open spec fn spec_chunks(ws: Seq<ClipSubtitleWord>, word_limit: int, char_limit: int) -> Seq<
    Seq<ClipSubtitleWord>,
> {
    let (chunks, current, _) = spec_chunk_fold(ws, word_limit, char_limit);
    if current.len() > 0 {
        chunks.push(current)
    } else {
        chunks
    }
}

/// Groups sorted words into subtitle chunks: a chunk is flushed when it

/// would exceed the word or character budget, span more than 4.4 s, follow
/// a gap over 0.62 s, or continue past a sentence end once at least half
/// the word budget (and at least two words) are present. Every word is
/// kept, in order, and no chunk is empty.
pub fn chunk_words(
    words: Vec<ClipSubtitleWord>,
    chunk_word_limit: usize,
    chunk_char_limit: usize,
) -> (r: Vec<Vec<ClipSubtitleWord>>)
    requires
        chunk_word_limit >= 2,
    ensures
        r@.map_values(|c: Vec<ClipSubtitleWord>| c@) == spec_chunks(
            words@,
            chunk_word_limit as int,
            chunk_char_limit as int,
        ),
        spec_concat_groups(r@.map_values(|c: Vec<ClipSubtitleWord>| c@)) == words@,
        forall|k: int| 0 <= k < r@.len() ==> #[trigger] r@[k]@.len() > 0,
{
    let ghost orig = words@;
    let ghost wl = chunk_word_limit as int;
    let ghost cl = chunk_char_limit as int;
    let mut rest = words;
    let mut chunks: Vec<Vec<ClipSubtitleWord>> = Vec::new();
    let mut current: Vec<ClipSubtitleWord> = Vec::new();
    let mut current_chars: usize = 0;
    let ghost mut processed: Seq<ClipSubtitleWord> = Seq::empty();
    proof {
        assert(processed + rest@ =~= orig);
        assert(chunks@.map_values(|c: Vec<ClipSubtitleWord>| c@) =~= Seq::<
            Seq<ClipSubtitleWord>,
        >::empty());
    }
    while rest.len() > 0
        invariant
            wl == chunk_word_limit as int,
            cl == chunk_char_limit as int,
            chunk_word_limit >= 2,
            processed + rest@ =~= orig,
            (
                chunks@.map_values(|c: Vec<ClipSubtitleWord>| c@),
                current@,
                current_chars as int,
            ) == spec_chunk_fold(processed, wl, cl),
            spec_concat_groups(chunks@.map_values(|c: Vec<ClipSubtitleWord>| c@)) + current@
                + rest@ =~= orig,
            forall|k: int| 0 <= k < chunks@.len() ==> #[trigger] chunks@[k]@.len() > 0,
            current_chars <= 2000000,
        decreases rest@.len(),
    {
        let ghost rest0 = rest@;
        let word = rest.remove(0);
        proof {
            assert(rest0[0] == word);
            assert(rest0 =~= seq![word] + rest@);
            assert(processed.push(word).drop_last() =~= processed);
            assert(processed.push(word).last() == word);
        }
        let wlen = word.text.unicode_len();
        let wchars = if wlen > 1000000 {
            1000000
        } else {
            wlen
        };
        let mut chunk_start = word.start_ms;
        let mut large_gap = false;
        if current.len() > 0 {
            chunk_start = current[0].start_ms;
            let prev_end = current[current.len() - 1].end_ms;
            large_gap = word.start_ms > prev_end && word.start_ms - prev_end > 620;
        }
        let spans_too_long = word.end_ms > chunk_start && word.end_ms - chunk_start > 4400;
        let overflow = current.len() >= chunk_word_limit || current_chars + wchars + 1
            > chunk_char_limit || spans_too_long;
        let half = chunk_word_limit / 2;
        let threshold = if half >= 2 {
            half
        } else {
            2
        };
        let ended_sentence = if current.len() > 0 {
            crate::text::is_sentence_boundary_token(current[current.len() - 1].text.as_str())
                && current.len() >= threshold
        } else {
            false
        };
        proof {
            assert(wchars as int == spec_word_chars(word));
            if current@.len() > 0 {
                assert((overflow || large_gap || ended_sentence) == spec_chunk_flush(
                    current@,
                    current_chars as int,
                    word,
                    wl,
                    cl,
                ));
            }
        }
        if current.len() > 0 && (overflow || large_gap || ended_sentence) {
            let ghost cs0 = chunks@;
            let ghost cur0 = current@;
            chunks.push(current);
            proof {
                let m = chunks@.map_values(|c: Vec<ClipSubtitleWord>| c@);
                assert(m.drop_last() =~= cs0.map_values(|c: Vec<ClipSubtitleWord>| c@));
                assert(m.last() == cur0);
            }
            current = Vec::new();
            current_chars = 0;
        }
        let additional = if current.len() == 0 {
            wchars
        } else {
            wchars + 1
        };
        current_chars = current_chars + additional;
        if current_chars > 2000000 {
            current_chars = 2000000;
        }
        let ghost cur_before = current@;
        current.push(word);
        proof {
            assert(current_chars as int == spec_chars_add(
                spec_chunk_fold(processed, wl, cl).2,
                cur_before.len() as int,
                word,
            ) || current_chars as int == spec_chars_add(0, 0, word));
            assert((
                chunks@.map_values(|c: Vec<ClipSubtitleWord>| c@),
                current@,
                current_chars as int,
            ) == spec_chunk_fold(processed.push(word), wl, cl)) by {
                if spec_chunk_flush(
                    spec_chunk_fold(processed, wl, cl).1,
                    spec_chunk_fold(processed, wl, cl).2,
                    word,
                    wl,
                    cl,
                ) {
                    assert(current@ =~= seq![word]);
                } else {
                }
            }
            processed = processed.push(word);
            assert(processed + rest@ =~= orig);
            assert(spec_concat_groups(chunks@.map_values(|c: Vec<ClipSubtitleWord>| c@))
                + current@ + rest@ =~= orig);
        }
    }
    proof {
        assert(processed =~= orig);
        assert(rest@ =~= Seq::<ClipSubtitleWord>::empty());
    }
    if current.len() > 0 {
        let ghost cs0 = chunks@;
        let ghost cur0 = current@;
        chunks.push(current);
        proof {
            let m = chunks@.map_values(|c: Vec<ClipSubtitleWord>| c@);
            assert(m.drop_last() =~= cs0.map_values(|c: Vec<ClipSubtitleWord>| c@));
            assert(m.last() == cur0);
            assert(m =~= spec_chunks(orig, wl, cl));
            assert(spec_concat_groups(m) =~= orig);
        }
    } else {
        proof {
            assert(current@ =~= Seq::<ClipSubtitleWord>::empty());
            assert(chunks@.map_values(|c: Vec<ClipSubtitleWord>| c@) =~= spec_chunks(
                orig,
                wl,
                cl,
            ));
            assert(spec_concat_groups(chunks@.map_values(|c: Vec<ClipSubtitleWord>| c@))
                =~= orig);
        }
    }
    chunks
}

/// The line-wrap flush rule: a non-empty line is closed before `w` when it
/// is at the word budget or taking `w` would pass the character budget.
pub open spec fn spec_wrap_flush(
    current: Seq<ClipSubtitleWord>,
    cur_chars: int,
    w: ClipSubtitleWord,
    max_words: int,
    max_chars: int,
) -> bool {
    current.len() > 0 && (current.len() >= max_words || cur_chars + spec_word_chars(w) + 1
        > max_chars)
}

/// The greedy wrap fold: completed lines, the open line, and its character
/// budget.
pub open spec fn spec_wrap_fold(ws: Seq<ClipSubtitleWord>, max_words: int, max_chars: int) -> (
    Seq<Seq<ClipSubtitleWord>>,
    Seq<ClipSubtitleWord>,
    int,
)
    decreases ws.len(),
{
    if ws.len() == 0 {
        (Seq::empty(), Seq::empty(), 0)
    } else {
        let (lines, current, chars) = spec_wrap_fold(ws.drop_last(), max_words, max_chars);
        let w = ws.last();
        if spec_wrap_flush(current, chars, w, max_words, max_chars) {
            (lines.push(current), seq![w], spec_chars_add(0, 0, w))
        } else {
            (lines, current.push(w), spec_chars_add(chars, current.len() as int, w))
        }
    }
}

/// The greedy wrap of a chunk, before the line cap is applied.
pub open spec fn spec_wrapped_lines(ws: Seq<ClipSubtitleWord>, max_words: int, max_chars: int)
    -> Seq<Seq<ClipSubtitleWord>> {
    let (lines, current, _) = spec_wrap_fold(ws, max_words, max_chars);
    if current.len() > 0 {
        lines.push(current)
    } else {
        lines
    }
}

/// The display lines of a chunk: the greedy wrap, with any lines past the
/// cap merged into the last kept line.
pub open spec fn spec_capped_lines(ws: Seq<ClipSubtitleWord>, max_words: int, max_chars: int,
    max_lines: int) -> Seq<Seq<ClipSubtitleWord>> {
    let lines = spec_wrapped_lines(ws, max_words, max_chars);
    if lines.len() <= max_lines {
        lines
    } else {
        lines.take(max_lines - 1).push(
            spec_concat_groups(lines.subrange(max_lines - 1, lines.len() as int)),
        )
    }
}

/// Wraps a chunk into at most `max_lines` display lines by the word and

/// character budgets; overflowing lines are merged into the last one. All
/// words are kept in order and no line is empty.
pub fn split_chunk_into_lines(
    chunk: Vec<ClipSubtitleWord>,
    max_words_per_line: usize,
    max_chars_per_line: usize,
    max_lines: usize,
) -> (r: Vec<Vec<ClipSubtitleWord>>)
    requires
        max_words_per_line >= 1,
        max_lines >= 1,
    ensures
        r@.map_values(|c: Vec<ClipSubtitleWord>| c@) == spec_capped_lines(
            chunk@,
            max_words_per_line as int,
            max_chars_per_line as int,
            max_lines as int,
        ),
        spec_concat_groups(r@.map_values(|c: Vec<ClipSubtitleWord>| c@)) == chunk@,
        forall|k: int| 0 <= k < r@.len() ==> #[trigger] r@[k]@.len() > 0,
        r@.len() <= max_lines,
        chunk@.len() > 0 ==> r@.len() >= 1,
{
    let ghost orig = chunk@;
    let ghost mw = max_words_per_line as int;
    let ghost mc = max_chars_per_line as int;
    let mut rest = chunk;
    let mut lines: Vec<Vec<ClipSubtitleWord>> = Vec::new();
    let mut current: Vec<ClipSubtitleWord> = Vec::new();
    let mut current_chars: usize = 0;
    let ghost mut processed: Seq<ClipSubtitleWord> = Seq::empty();
    proof {
        assert(processed + rest@ =~= orig);
        assert(lines@.map_values(|c: Vec<ClipSubtitleWord>| c@) =~= Seq::<
            Seq<ClipSubtitleWord>,
        >::empty());
    }
    while rest.len() > 0
        invariant
            mw == max_words_per_line as int,
            mc == max_chars_per_line as int,
            max_words_per_line >= 1,
            processed + rest@ =~= orig,
            (
                lines@.map_values(|c: Vec<ClipSubtitleWord>| c@),
                current@,
                current_chars as int,
            ) == spec_wrap_fold(processed, mw, mc),
            spec_concat_groups(lines@.map_values(|c: Vec<ClipSubtitleWord>| c@)) + current@
                + rest@ =~= orig,
            forall|k: int| 0 <= k < lines@.len() ==> #[trigger] lines@[k]@.len() > 0,
            current_chars <= 2000000,
        decreases rest@.len(),
    {
        let ghost rest0 = rest@;
        let word = rest.remove(0);
        proof {
            assert(rest0[0] == word);
            assert(rest0 =~= seq![word] + rest@);
            assert(processed.push(word).drop_last() =~= processed);
            assert(processed.push(word).last() == word);
        }
        let wlen = word.text.unicode_len();
        let wchars = if wlen > 1000000 {
            1000000
        } else {
            wlen
        };
        let exceeds_words = current.len() >= max_words_per_line;
        let exceeds_chars = current_chars + wchars + 1 > max_chars_per_line;
        proof {
            assert(wchars as int == spec_word_chars(word));
            assert((current@.len() > 0 && (exceeds_words || exceeds_chars)) == spec_wrap_flush(
                current@,
                current_chars as int,
                word,
                mw,
                mc,
            ));
        }
        if current.len() > 0 && (exceeds_words || exceeds_chars) {
            let ghost ls0 = lines@;
            let ghost cur0 = current@;
            lines.push(current);
            proof {
                let m = lines@.map_values(|c: Vec<ClipSubtitleWord>| c@);
                assert(m.drop_last() =~= ls0.map_values(|c: Vec<ClipSubtitleWord>| c@));
                assert(m.last() == cur0);
            }
            current = Vec::new();
            current_chars = 0;
        }
        let additional = if current.len() == 0 {
            wchars
        } else {
            wchars + 1
        };
        current_chars = current_chars + additional;
        if current_chars > 2000000 {
            current_chars = 2000000;
        }
        let ghost cur_before = current@;
        current.push(word);
        proof {
            assert((
                lines@.map_values(|c: Vec<ClipSubtitleWord>| c@),
                current@,
                current_chars as int,
            ) == spec_wrap_fold(processed.push(word), mw, mc)) by {
                if spec_wrap_flush(
                    spec_wrap_fold(processed, mw, mc).1,
                    spec_wrap_fold(processed, mw, mc).2,
                    word,
                    mw,
                    mc,
                ) {
                    assert(current@ =~= seq![word]);
                }
            }
            processed = processed.push(word);
            assert(processed + rest@ =~= orig);
            assert(spec_concat_groups(lines@.map_values(|c: Vec<ClipSubtitleWord>| c@))
                + current@ + rest@ =~= orig);
        }
    }
    proof {
        assert(processed =~= orig);
        assert(rest@ =~= Seq::<ClipSubtitleWord>::empty());
    }
    if current.len() > 0 {
        let ghost ls0 = lines@;
        let ghost cur0 = current@;
        lines.push(current);
        proof {
            let m = lines@.map_values(|c: Vec<ClipSubtitleWord>| c@);
            assert(m.drop_last() =~= ls0.map_values(|c: Vec<ClipSubtitleWord>| c@));
            assert(m.last() == cur0);
            assert(m =~= spec_wrapped_lines(orig, mw, mc));
            assert(spec_concat_groups(m) =~= orig);
        }
    } else {
        proof {
            assert(current@ =~= Seq::<ClipSubtitleWord>::empty());
            assert(lines@.map_values(|c: Vec<ClipSubtitleWord>| c@) =~= spec_wrapped_lines(
                orig,
                mw,
                mc,
            ));
            assert(spec_concat_groups(lines@.map_values(|c: Vec<ClipSubtitleWord>| c@))
                =~= orig);
        }
    }
    // Merge overflow lines into the last kept line.
    let ghost wrapped = spec_wrapped_lines(orig, mw, mc);
    proof {
        let m = lines@.map_values(|c: Vec<ClipSubtitleWord>| c@);
        assert(m == wrapped);
        if m.len() > max_lines {
            assert(wrapped.subrange(m.len() - 1, wrapped.len() as int) =~= seq![
                wrapped.last()
            ]);
            assert(seq![wrapped.last()].drop_last() =~= Seq::<Seq<ClipSubtitleWord>>::empty());
            assert(spec_concat_groups(Seq::<Seq<ClipSubtitleWord>>::empty())
                == Seq::<ClipSubtitleWord>::empty());
            assert(spec_concat_groups(seq![wrapped.last()]) =~= wrapped.last());
            assert(m.last() == spec_concat_groups(
                wrapped.subrange(m.len() - 1, wrapped.len() as int),
            ));
            assert(m.take(max_lines - 1) =~= wrapped.take(max_lines - 1));
            assert(m.take(m.len() - 1) =~= wrapped.take(m.len() - 1));
        }
    }
    while lines.len() > max_lines
        invariant
            max_lines >= 1,
            wrapped == spec_wrapped_lines(orig, mw, mc),
            spec_concat_groups(lines@.map_values(|c: Vec<ClipSubtitleWord>| c@)) == orig,
            forall|k: int| 0 <= k < lines@.len() ==> #[trigger] lines@[k]@.len() > 0,
            lines@.len() <= wrapped.len(),
            ({
                let m = lines@.map_values(|c: Vec<ClipSubtitleWord>| c@);
                if m.len() <= max_lines {
                    m == spec_capped_lines(orig, mw, mc, max_lines as int)
                } else {
                    m.take(max_lines - 1) == wrapped.take(max_lines - 1)
                        && m.take(m.len() - 1) == wrapped.take(m.len() - 1)
                        && m.last() == spec_concat_groups(
                        wrapped.subrange(m.len() - 1, wrapped.len() as int),
                    )
                }
            }),
        decreases lines@.len(),
    {
        let ghost ls0 = lines@;
        let ghost m0 = lines@.map_values(|c: Vec<ClipSubtitleWord>| c@);
        let mut tail = match lines.pop() {
            Option::Some(t) => t,
            Option::None => Vec::new(),
        };
        proof {
            assert(ls0.len() > 1);
            assert(lines@ =~= ls0.drop_last());
            assert(tail == ls0.last());
        }
        let ghost ls1 = lines@;
        let mut target = match lines.pop() {
            Option::Some(t) => t,
            Option::None => Vec::new(),
        };
        proof {
            assert(target == ls1.last());
            assert(lines@ =~= ls1.drop_last());
        }
        let ghost target0 = target@;
        let ghost tail0 = tail@;
        while tail.len() > 0
            invariant
                target@ + tail@ =~= target0 + tail0,
            decreases tail@.len(),
        {
            let ghost t0 = tail@;
            let w = tail.remove(0);
            proof {
                assert(t0[0] == w);
                assert(t0 =~= seq![w] + tail@);
            }
            target.push(w);
        }
        proof {
            assert(tail@ =~= Seq::<ClipSubtitleWord>::empty());
            assert(target@ =~= target0 + tail0);
        }
        let ghost merged = target@;
        lines.push(target);
        proof {
            let m = lines@.map_values(|c: Vec<ClipSubtitleWord>| c@);
            let m1 = ls1.drop_last().map_values(|c: Vec<ClipSubtitleWord>| c@);
            assert(m.drop_last() =~= m1);
            assert(m.last() == merged);
            let m_ls0 = ls0.map_values(|c: Vec<ClipSubtitleWord>| c@);
            let m_ls1 = ls1.map_values(|c: Vec<ClipSubtitleWord>| c@);
            assert(m_ls0.drop_last() =~= m_ls1);
            assert(m_ls1.drop_last() =~= m1);
            assert(spec_concat_groups(m_ls0) == spec_concat_groups(m_ls1) + ls0.last()@);
            assert(spec_concat_groups(m_ls1) == spec_concat_groups(m1) + ls1.last()@);
            assert(spec_concat_groups(m) == spec_concat_groups(m1) + merged);
            assert(spec_concat_groups(m) =~= spec_concat_groups(m_ls0));
            // The new last line carries the concatenation of everything the
            // greedy wrap put at or past its position.
            assert(m.take(m.len() - 1) =~= m_ls0.take(m.len() - 1));
            assert(m.take(max_lines - 1) =~= m_ls0.take(max_lines as int - 1));
            if m_ls0.len() > max_lines {
                assert(m0.last() == spec_concat_groups(
                    wrapped.subrange(m0.len() - 1, wrapped.len() as int),
                ));
                assert(merged =~= m0[m0.len() - 2] + m0.last()) by {
                    assert(target0 == m_ls1.last());
                    assert(m_ls1 =~= m0.drop_last());
                    assert(m_ls1.last() == m0[m0.len() - 2]);
                    assert(tail0 == m0.last());
                }
                assert(m0[m0.len() - 2] == wrapped[m0.len() - 2]) by {
                    assert(m0.take(m0.len() - 1)[m0.len() - 2] == m0[m0.len() - 2]);
                    assert(wrapped.take(m0.len() - 1)[m0.len() - 2] == wrapped[m0.len() - 2]);
                }
                assert(wrapped.subrange(m.len() - 1, wrapped.len() as int).drop_first()
                    =~= wrapped.subrange(m0.len() - 1, wrapped.len() as int));
                lemma_concat_groups_first(
                    wrapped.subrange(m.len() - 1, wrapped.len() as int),
                );
                assert(wrapped.subrange(m.len() - 1, wrapped.len() as int)[0] == wrapped[m.len()
                    - 1]);
                assert(m.len() - 1 == m0.len() - 2);
                assert(m.last() == spec_concat_groups(
                    wrapped.subrange(m.len() - 1, wrapped.len() as int),
                ));
                assert(m.take(m.len() - 1) =~= wrapped.take(m.len() - 1)) by {
                    assert forall|k: int| 0 <= k < m.len() - 1 implies #[trigger] m[k]
                        == wrapped[k] by {
                        assert(m[k] == m1[k]);
                        assert(m1[k] == m0[k]);
                        assert(m0.take(m0.len() - 1)[k] == m0[k]);
                        assert(wrapped.take(m0.len() - 1)[k] == wrapped[k]);
                    }
                }
                if m.len() <= max_lines {
                    assert(m.len() == max_lines);
                    assert(m =~= spec_capped_lines(orig, mw, mc, max_lines as int)) by {
                        assert(wrapped.len() > max_lines);
                        assert(m.take(max_lines - 1) =~= wrapped.take(max_lines as int - 1));
                        assert(m.last() == spec_concat_groups(
                            wrapped.subrange(max_lines as int - 1, wrapped.len() as int),
                        ));
                        assert(m =~= wrapped.take(max_lines as int - 1).push(
                            spec_concat_groups(
                                wrapped.subrange(max_lines as int - 1, wrapped.len() as int),
                            ),
                        ));
                    }
                }
            }
        }
    }
    proof {
        let m = lines@.map_values(|c: Vec<ClipSubtitleWord>| c@);
        assert(m == spec_capped_lines(orig, mw, mc, max_lines as int));
    }
    lines
}

/// Splitting off the first group distributes over concatenation.
proof fn lemma_concat_groups_first(groups: Seq<Seq<ClipSubtitleWord>>)
    requires
        groups.len() > 0,
    ensures
        spec_concat_groups(groups) == groups[0] + spec_concat_groups(groups.drop_first()),
    decreases groups.len(),
{
    if groups.len() == 1 {
        assert(groups.drop_last() =~= Seq::<Seq<ClipSubtitleWord>>::empty());
        assert(groups.drop_first() =~= Seq::<Seq<ClipSubtitleWord>>::empty());
    } else {
        lemma_concat_groups_first(groups.drop_last());
        assert(groups.drop_last()[0] == groups[0]);
        assert(groups.drop_last().drop_first() =~= groups.drop_first().drop_last());
        assert(groups.drop_first().last() == groups.last());
        assert(spec_concat_groups(groups.drop_first()) == spec_concat_groups(
            groups.drop_first().drop_last(),
        ) + groups.last());
        assert(groups[0] + (spec_concat_groups(groups.drop_first().drop_last()) + groups.last())
            =~= (groups[0] + spec_concat_groups(groups.drop_first().drop_last()))
            + groups.last());
    }
}

// ---------------------------------------------------------------------------
// Layout arithmetic// ---------------------------------------------------------------------------
// Layout arithmetic (tenths of a pixel).
// ---------------------------------------------------------------------------

/// Clamps a placement override into `[-1000, 1000]` permille.
pub open spec fn spec_clamp_off(o: int) -> int {
    if o < -1000 {
        -1000
    } else if o > 1000 {
        1000
    } else {
        o
    }
}

/// Clamps a box scale into `[550, 1650]` permille.
pub open spec fn spec_clamp_box(b: int) -> int {
    if b < 550 {
        550
    } else if b > 1650 {
        1650
    } else {
        b
    }
}

/// The horizontal safe margin in pixels: the profile margin (clamped to
/// 20..220) divided by the box scale, kept within 8 and half the width
/// less six.
pub open spec fn spec_margin_x(safe_margin_x: int, box_w_milli: int, tw: int) -> int {
    let base = if safe_margin_x < 20 {
        20
    } else if safe_margin_x > 220 {
        220
    } else {
        safe_margin_x
    };
    let m = crate::resolution::spec_round_div(base * 1000, spec_clamp_box(box_w_milli));
    if m < 8 {
        8
    } else if 2 * m + 12 > tw {
        (tw - 12) / 2
    } else {
        m
    }
}

/// The vertical safe margin in pixels, within 14 and half the height less
/// eight.
pub open spec fn spec_margin_y(safe_margin_y: int, box_h_milli: int, th: int) -> int {
    let base = if safe_margin_y < 36 {
        36
    } else if safe_margin_y > 280 {
        280
    } else {
        safe_margin_y
    };
    let m = crate::resolution::spec_round_div(base * 1000, spec_clamp_box(box_h_milli));
    if m < 14 {
        14
    } else if 2 * m + 16 > th {
        (th - 16) / 2
    } else {
        m
    }
}

fn clamp_box_exec(b: u32) -> (r: u32)
    ensures
        r as int == spec_clamp_box(b as int),
        550 <= r <= 1650,
{
    if b < 550 {
        550
    } else if b > 1650 {
        1650
    } else {
        b
    }
}

/// Computes the horizontal safe margin.
pub fn margin_x_px(safe_margin_x: u32, box_w_milli: u32, tw: u32) -> (r: u32)
    requires
        tw >= 240,
    ensures
        r as int == spec_margin_x(safe_margin_x as int, box_w_milli as int, tw as int),
        8 <= r,
        2 * r + 12 <= tw,
{
    let base: u64 = if safe_margin_x < 20 {
        20
    } else if safe_margin_x > 220 {
        220
    } else {
        safe_margin_x as u64
    };
    let bw = clamp_box_exec(box_w_milli) as u64;
    let m = (2 * (base * 1000) + bw) / (2 * bw);
    if m < 8 {
        8
    } else if 2 * m + 12 > tw as u64 {
        (tw - 12) / 2
    } else {
        m as u32
    }
}

/// Computes the vertical safe margin.
pub fn margin_y_px(safe_margin_y: u32, box_h_milli: u32, th: u32) -> (r: u32)
    requires
        th >= 240,
    ensures
        r as int == spec_margin_y(safe_margin_y as int, box_h_milli as int, th as int),
        14 <= r,
        2 * r + 16 <= th,
{
    let base: u64 = if safe_margin_y < 36 {
        36
    } else if safe_margin_y > 280 {
        280
    } else {
        safe_margin_y as u64
    };
    let bh = clamp_box_exec(box_h_milli) as u64;
    let m = (2 * (base * 1000) + bh) / (2 * bh);
    if m < 14 {
        14
    } else if 2 * m + 16 > th as u64 {
        (th - 16) / 2
    } else {
        m as u32
    }
}

/// The anchor abscissa in tenths of a pixel: the centre shifted by up to
/// 36 percent of the width, kept between the margins.
pub open spec fn spec_pos_x_deci(tw: int, offx_milli: int, mx: int) -> int {
    let off = spec_clamp_off(offx_milli);
    let mag = ((if off < 0 {
        -off
    } else {
        off
    }) * tw * 36) / 10000;
    let center = tw * 5;
    let p = if off >= 0 {
        center + mag
    } else if mag >= center {
        0
    } else {
        center - mag
    };
    let lo = mx * 10;
    let hi = (tw - mx) * 10;
    if p < lo {
        lo
    } else if p > hi {
        hi
    } else {
        p
    }
}

/// Computes the anchor abscissa in tenths of a pixel.
pub fn pos_x_deci(tw: u32, offx_milli: i32, mx: u32) -> (r: u64)
    requires
        tw >= 240,
        8 <= mx,
        2 * mx + 12 <= tw,
    ensures
        r as int == spec_pos_x_deci(tw as int, offx_milli as int, mx as int),
{
    let off: i64 = if offx_milli < -1000 {
        -1000
    } else if offx_milli > 1000 {
        1000
    } else {
        offx_milli as i64
    };
    let mag_off: u64 = if off < 0 {
        (-off) as u64
    } else {
        off as u64
    };
    proof {
        crate::strutil::lemma_mul_le_bounds(mag_off as int, tw as int, 1000, 4294967295);
    }
    let mag = (mag_off * (tw as u64) * 36) / 10000;
    let center = (tw as u64) * 5;
    let p: u64 = if off >= 0 {
        center + mag
    } else if mag >= center {
        0
    } else {
        center - mag
    };
    let lo = (mx as u64) * 10;
    let hi = ((tw - mx) as u64) * 10;
    if p < lo {
        lo
    } else if p > hi {
        hi
    } else {
        p
    }
}

/// The anchor ordinate in tenths of a pixel: by position keyword, shifted
/// by up to 76 percent of the height, kept inside the vertical band.
pub open spec fn spec_pos_y_deci(
    th: int,
    offy_milli: int,
    my: int,
    font_size: int,
    position: Seq<char>,
) -> int {
    let p0 = spec_lower(spec_trim(position));
    let base = if p0 == "top"@ {
        my * 10 + (font_size * 95) / 10
    } else if p0 == "center"@ {
        th * 5
    } else {
        (th - my) * 10
    };
    let off = spec_clamp_off(offy_milli);
    let mag = ((if off < 0 {
        -off
    } else {
        off
    }) * th * 76) / 10000;
    let p = if off >= 0 {
        base + mag
    } else if mag >= base {
        0
    } else {
        base - mag
    };
    let lo = my * 10 + font_size * 6;
    let hi0 = (th - my) * 10;
    let hi = if hi0 >= lo + 10 {
        hi0
    } else {
        lo + 10
    };
    if p < lo {
        lo
    } else if p > hi {
        hi
    } else {
        p
    }
}

/// Computes the anchor ordinate in tenths of a pixel.
pub fn pos_y_deci(th: u32, offy_milli: i32, my: u32, font_size: u32, position: &str) -> (r: u64)
    requires
        th >= 240,
        14 <= my,
        2 * my + 16 <= th,
    ensures
        r as int == spec_pos_y_deci(
            th as int,
            offy_milli as int,
            my as int,
            font_size as int,
            position@,
        ),
{
    let t = trim_str(position);
    let p0 = ascii_lower(t.as_str());
    let base: u64 = if str_eq(p0.as_str(), "top") {
        (my as u64) * 10 + ((font_size as u64) * 95) / 10
    } else if str_eq(p0.as_str(), "center") {
        (th as u64) * 5
    } else {
        ((th - my) as u64) * 10
    };
    let off: i64 = if offy_milli < -1000 {
        -1000
    } else if offy_milli > 1000 {
        1000
    } else {
        offy_milli as i64
    };
    let mag_off: u64 = if off < 0 {
        (-off) as u64
    } else {
        off as u64
    };
    proof {
        crate::strutil::lemma_mul_le_bounds(mag_off as int, th as int, 1000, 4294967295);
    }
    let mag = (mag_off * (th as u64) * 76) / 10000;
    let p: u64 = if off >= 0 {
        base + mag
    } else if mag >= base {
        0
    } else {
        base - mag
    };
    let lo = (my as u64) * 10 + (font_size as u64) * 6;
    let hi0 = ((th - my) as u64) * 10;
    let hi = if hi0 >= lo + 10 {
        hi0
    } else {
        lo + 10
    };
    if p < lo {
        lo
    } else if p > hi {
        hi
    } else {
        p
    }
}

// ---------------------------------------------------------------------------
// Number formatting for the document.
// ---------------------------------------------------------------------------

/// A tenths value as `w.f`.
pub open spec fn spec_deci_str(n: int) -> Seq<char> {
    spec_u64_digits(n / 10) + "."@ + seq![crate::strutil::spec_digit_char(n % 10)]
}

fn push_deci(out: &mut String, n: u64)
    ensures
        final(out)@ == old(out)@ + spec_deci_str(n as int),
{
    let whole = u64_to_string(n / 10);
    out.append(whole.as_str());
    out.append(".");
    out.push(((48 + n % 10) as u8) as char);
    proof {
        assert(old(out)@ + spec_deci_str(n as int) =~= old(out)@ + spec_u64_digits(n as int / 10)
            + "."@ + seq![crate::strutil::spec_digit_char(n as int % 10)]);
        assert(final(out)@ =~= old(out)@ + spec_u64_digits(n as int / 10) + "."@ + seq![
            crate::strutil::spec_digit_char(n as int % 10)
        ]);
    }
}

/// A signed hundredths value as `[-]w.ff`.
pub open spec fn spec_signed_centi_str(c: int) -> Seq<char> {
    if c < 0 {
        "-"@ + spec_u64_digits((-c) / 100) + "."@ + spec_pad2((-c) % 100)
    } else {
        spec_u64_digits(c / 100) + "."@ + spec_pad2(c % 100)
    }
}

fn push_signed_centi(out: &mut String, c: i32)
    requires
        c > i32::MIN,
    ensures
        final(out)@ == old(out)@ + spec_signed_centi_str(c as int),
{
    let mag: u64 = if c < 0 {
        out.append("-");
        (-c) as u64
    } else {
        c as u64
    };
    let whole = u64_to_string(mag / 100);
    out.append(whole.as_str());
    out.append(".");
    push_pad2(out, mag % 100);
    proof {
        if c < 0 {
            assert(final(out)@ =~= old(out)@ + spec_signed_centi_str(c as int));
        } else {
            assert(final(out)@ =~= old(out)@ + spec_signed_centi_str(c as int));
        }
    }
}

// ---------------------------------------------------------------------------
// Event markup.
// ---------------------------------------------------------------------------

/// The karaoke duration of a word in centiseconds, kept within 4..220.
pub open spec fn spec_word_cs(w: SubWordView) -> int {
    let d = if w.end_ms >= w.start_ms {
        w.end_ms - w.start_ms
    } else {
        0
    };
    let cs = (d + 5) / 10;
    if cs < 4 {
        4
    } else if cs > 220 {
        220
    } else {
        cs
    }
}

/// One word's markup: its karaoke tag (when animated) followed by its text,
/// wrapped in an emphasis override when highlighted.
pub open spec fn spec_word_markup(
    w: SubWordView,
    karaoke: bool,
    pop: bool,
    highlight: bool,
    sec: Seq<char>,
) -> Seq<char> {
    let k = spec_word_cs(w);
    let anim = if pop {
        "{\\k"@ + spec_u64_digits(k) + "\\t(0,120,\\fscx114\\fscy114)\\t(120,240,\\fscx100\\fscy100)}"@
    } else if karaoke {
        "{\\k"@ + spec_u64_digits(k) + "}"@
    } else {
        Seq::empty()
    };
    let body = if highlight && w.emphasis {
        "{\\c"@ + sec + "\\b1}"@ + w.text + "{\\rCCMain}"@
    } else {
        w.text
    };
    anim + body
}

#[verifier::rlimit(50)]
fn push_word_markup(
    out: &mut String,
    w: &ClipSubtitleWord,
    karaoke: bool,
    pop: bool,
    highlight: bool,
    sec: &str,
)
    ensures
        final(out)@ == old(out)@ + spec_word_markup(w@, karaoke, pop, highlight, sec@),
{
    let d: u64 = if w.end_ms >= w.start_ms {
        w.end_ms - w.start_ms
    } else {
        0
    };
    let cs: u64 = if d >= 2195 {
        220
    } else {
        let cs0 = (d + 5) / 10;
        if cs0 < 4 {
            4
        } else if cs0 > 220 {
            220
        } else {
            cs0
        }
    };
    if pop {
        out.append("{\\k");
        let ds = u64_to_string(cs);
        out.append(ds.as_str());
        out.append("\\t(0,120,\\fscx114\\fscy114)\\t(120,240,\\fscx100\\fscy100)}");
    } else if karaoke {
        out.append("{\\k");
        let ds = u64_to_string(cs);
        out.append(ds.as_str());
        out.append("}");
    }
    if highlight && w.emphasis {
        out.append("{\\c");
        out.append(sec);
        out.append("\\b1}");
        out.append(w.text.as_str());
        out.append("{\\rCCMain}");
    } else {
        out.append(w.text.as_str());
    }
    proof {
        assert(final(out)@ =~= old(out)@ + spec_word_markup(w@, karaoke, pop, highlight, sec@));
    }
}

/// A display line's markup: its words joined by single spaces.
pub open spec fn spec_line_markup(
    line: Seq<SubWordView>,
    karaoke: bool,
    pop: bool,
    highlight: bool,
    sec: Seq<char>,
) -> Seq<char>
    decreases line.len(),
{
    if line.len() == 0 {
        Seq::empty()
    } else if line.len() == 1 {
        spec_word_markup(line[0], karaoke, pop, highlight, sec)
    } else {
        spec_line_markup(line.drop_last(), karaoke, pop, highlight, sec) + " "@
            + spec_word_markup(line.last(), karaoke, pop, highlight, sec)
    }
}

fn push_line_markup(
    out: &mut String,
    line: &Vec<ClipSubtitleWord>,
    karaoke: bool,
    pop: bool,
    highlight: bool,
    sec: &str,
)
    ensures
        final(out)@ == old(out)@ + spec_line_markup(
            line@.map_values(|w: ClipSubtitleWord| w@),
            karaoke,
            pop,
            highlight,
            sec@,
        ),
{
    let ghost lv = line@.map_values(|w: ClipSubtitleWord| w@);
    let n = line.len();
    if n == 0 {
        proof {
            assert(old(out)@ + spec_line_markup(lv, karaoke, pop, highlight, sec@) =~= old(out)@);
        }
        return ;
    }
    push_word_markup(out, &line[0], karaoke, pop, highlight, sec);
    proof {
        assert(lv.subrange(0, 1) =~= seq![lv[0]]);
        assert(lv[0] == line@[0]@);
        assert(out@ =~= old(out)@ + spec_line_markup(
            lv.subrange(0, 1),
            karaoke,
            pop,
            highlight,
            sec@,
        ));
    }
    let mut j: usize = 1;
    while j < n
        invariant
            lv == line@.map_values(|w: ClipSubtitleWord| w@),
            n == line@.len(),
            n == lv.len(),
            1 <= j <= n,
            out@ == old(out)@ + spec_line_markup(
                lv.subrange(0, j as int),
                karaoke,
                pop,
                highlight,
                sec@,
            ),
        decreases n - j,
    {
        proof {
            assert(lv.subrange(0, j + 1 as int).drop_last() =~= lv.subrange(0, j as int));
            assert(lv.subrange(0, j + 1 as int).last() == lv[j as int]);
            assert(lv[j as int] == line@[j as int]@);
        }
        out.append(" ");
        push_word_markup(out, &line[j], karaoke, pop, highlight, sec);
        proof {
            assert(out@ =~= old(out)@ + spec_line_markup(
                lv.subrange(0, j + 1 as int),
                karaoke,
                pop,
                highlight,
                sec@,
            ));
        }
        j = j + 1;
    }
    proof {
        assert(lv.subrange(0, n as int) =~= lv);
    }
}

/// The markup of a whole event: the fade tag, then the lines joined by
/// `\N`.
pub open spec fn spec_event_lines_markup(
    lines: Seq<Seq<SubWordView>>,
    karaoke: bool,
    pop: bool,
    highlight: bool,
    sec: Seq<char>,
) -> Seq<char>
    decreases lines.len(),
{
    if lines.len() == 0 {
        Seq::empty()
    } else if lines.len() == 1 {
        spec_line_markup(lines[0], karaoke, pop, highlight, sec)
    } else {
        spec_event_lines_markup(lines.drop_last(), karaoke, pop, highlight, sec) + "\\N"@
            + spec_line_markup(lines.last(), karaoke, pop, highlight, sec)
    }
}

pub open spec fn spec_clamp_fade(f: int) -> int {
    if f > 900 {
        900
    } else {
        f
    }
}

/// The full event text: the fade tag and the joined line markup.
pub open spec fn spec_event_text(
    lines: Seq<Seq<SubWordView>>,
    fade_in_ms: int,
    fade_out_ms: int,
    karaoke: bool,
    pop: bool,
    highlight: bool,
    sec: Seq<char>,
) -> Seq<char> {
    "{\\fad("@ + spec_u64_digits(spec_clamp_fade(fade_in_ms)) + ","@ + spec_u64_digits(
        spec_clamp_fade(fade_out_ms),
    ) + ")}"@ + spec_event_lines_markup(lines, karaoke, pop, highlight, sec)
}

#[verifier::rlimit(60)]
fn push_event_text(
    out: &mut String,
    lines: &Vec<Vec<ClipSubtitleWord>>,
    fade_in_ms: u32,
    fade_out_ms: u32,
    karaoke: bool,
    pop: bool,
    highlight: bool,
    sec: &str,
)
    ensures
        final(out)@ == old(out)@ + spec_event_text(
            lines@.map_values(|l: Vec<ClipSubtitleWord>| l@.map_values(|w: ClipSubtitleWord| w@)),
            fade_in_ms as int,
            fade_out_ms as int,
            karaoke,
            pop,
            highlight,
            sec@,
        ),
{
    let ghost lsv = lines@.map_values(
        |l: Vec<ClipSubtitleWord>| l@.map_values(|w: ClipSubtitleWord| w@),
    );
    let fi: u64 = if fade_in_ms > 900 {
        900
    } else {
        fade_in_ms as u64
    };
    let fo: u64 = if fade_out_ms > 900 {
        900
    } else {
        fade_out_ms as u64
    };
    out.append("{\\fad(");
    let s1 = u64_to_string(fi);
    out.append(s1.as_str());
    out.append(",");
    let s2 = u64_to_string(fo);
    out.append(s2.as_str());
    out.append(")}");
    let ghost head = out@;
    let n = lines.len();
    if n == 0 {
        proof {
            assert(final(out)@ =~= old(out)@ + spec_event_text(
                lsv,
                fade_in_ms as int,
                fade_out_ms as int,
                karaoke,
                pop,
                highlight,
                sec@,
            ));
        }
        return ;
    }
    push_line_markup(out, &lines[0], karaoke, pop, highlight, sec);
    proof {
        assert(lsv.subrange(0, 1) =~= seq![lsv[0]]);
        assert(lsv[0] == lines@[0]@.map_values(|w: ClipSubtitleWord| w@));
        assert(out@ =~= head + spec_event_lines_markup(
            lsv.subrange(0, 1),
            karaoke,
            pop,
            highlight,
            sec@,
        ));
    }
    let mut j: usize = 1;
    while j < n
        invariant
            lsv == lines@.map_values(
                |l: Vec<ClipSubtitleWord>| l@.map_values(|w: ClipSubtitleWord| w@),
            ),
            n == lines@.len(),
            n == lsv.len(),
            1 <= j <= n,
            out@ == head + spec_event_lines_markup(
                lsv.subrange(0, j as int),
                karaoke,
                pop,
                highlight,
                sec@,
            ),
        decreases n - j,
    {
        proof {
            assert(lsv.subrange(0, j + 1 as int).drop_last() =~= lsv.subrange(0, j as int));
            assert(lsv.subrange(0, j + 1 as int).last() == lsv[j as int]);
            assert(lsv[j as int] == lines@[j as int]@.map_values(|w: ClipSubtitleWord| w@));
        }
        out.append("\\N");
        push_line_markup(out, &lines[j], karaoke, pop, highlight, sec);
        proof {
            assert(out@ =~= head + spec_event_lines_markup(
                lsv.subrange(0, j + 1 as int),
                karaoke,
                pop,
                highlight,
                sec@,
            ));
        }
        j = j + 1;
    }
    proof {
        assert(lsv.subrange(0, n as int) =~= lsv);
        assert(out@ =~= old(out)@ + spec_event_text(
            lsv,
            fade_in_ms as int,
            fade_out_ms as int,
            karaoke,
            pop,
            highlight,
            sec@,
        ));
    }
}

// ---------------------------------------------------------------------------
// Document assembly.
// ---------------------------------------------------------------------------

/// The views of a word list.
pub open spec fn spec_word_views(l: Seq<ClipSubtitleWord>) -> Seq<SubWordView> {
    l.map_values(|w: ClipSubtitleWord| w@)
}

/// The views of display lines.
pub open spec fn spec_lines_views(ls: Seq<Seq<ClipSubtitleWord>>) -> Seq<Seq<SubWordView>> {
    ls.map_values(|l: Seq<ClipSubtitleWord>| spec_word_views(l))
}

pub open spec fn spec_clamp_to(v: int, hi: int) -> int {
    if v < 0 {
        0
    } else if v > hi {
        hi
    } else {
        v
    }
}

/// The event a chunk yields, if any: its lines, the clip-relative window
/// (the end padded by 0.12 s, both clamped to the clip duration), and the
/// positioned markup; events shorter than 80 ms are dropped.
pub open spec fn spec_chunk_event(
    chunk: Seq<ClipSubtitleWord>,
    mwpl: int,
    mcpl: int,
    mlines: int,
    cs: int,
    dur: int,
    pos_tag: Seq<char>,
    fade_in: int,
    fade_out: int,
    karaoke: bool,
    pop: bool,
    highlight: bool,
    sec: Seq<char>,
) -> Option<AssEventView> {
    let lines = spec_capped_lines(chunk, mwpl, mcpl, mlines);
    if lines.len() == 0 || lines[0].len() == 0 || lines.last().len() == 0 {
        Option::None
    } else {
        let begin = lines[0][0].start_ms as int;
        let finish = lines.last().last().end_ms as int;
        let rel_start = spec_clamp_to(begin - cs, dur);
        let rel_end = spec_clamp_to(finish - cs + 120, dur);
        if rel_end <= rel_start + 80 {
            Option::None
        } else {
            Option::Some(
                AssEventView {
                    start_ms: rel_start,
                    end_ms: rel_end,
                    text: pos_tag + spec_event_text(
                        spec_lines_views(lines),
                        fade_in,
                        fade_out,
                        karaoke,
                        pop,
                        highlight,
                        sec,
                    ),
                },
            )
        }
    }
}

/// The events of all chunks, in order.
pub open spec fn spec_chunk_events(
    chunks: Seq<Seq<ClipSubtitleWord>>,
    mwpl: int,
    mcpl: int,
    mlines: int,
    cs: int,
    dur: int,
    pos_tag: Seq<char>,
    fade_in: int,
    fade_out: int,
    karaoke: bool,
    pop: bool,
    highlight: bool,
    sec: Seq<char>,
) -> Seq<AssEventView>
    decreases chunks.len(),
{
    if chunks.len() == 0 {
        Seq::empty()
    } else {
        let rest = spec_chunk_events(
            chunks.drop_first(),
            mwpl,
            mcpl,
            mlines,
            cs,
            dur,
            pos_tag,
            fade_in,
            fade_out,
            karaoke,
            pop,
            highlight,
            sec,
        );
        match spec_chunk_event(
            chunks[0],
            mwpl,
            mcpl,
            mlines,
            cs,
            dur,
            pos_tag,
            fade_in,
            fade_out,
            karaoke,
            pop,
            highlight,
            sec,
        ) {
            Option::Some(e) => seq![e] + rest,
            Option::None => rest,
        }
    }
}

/// One timed subtitle event, relative to the clip start.
#[derive(Debug)]
pub struct AssEvent {
    pub start_ms: u64,
    pub end_ms: u64,
    pub text: String,
}

/// The mathematical view of an event.
pub struct AssEventView {
    pub start_ms: int,
    pub end_ms: int,
    pub text: Seq<char>,
}

impl View for AssEvent {
    type V = AssEventView;

    open spec fn view(&self) -> AssEventView {
        AssEventView {
            start_ms: self.start_ms as int,
            end_ms: self.end_ms as int,
            text: self.text@,
        }
    }
}

/// A rendered subtitle file together with its events.
#[derive(Debug)]
pub struct AssDocument {
    pub content: String,
    pub events: Vec<AssEvent>,
}

/// The style font family: commas replaced by spaces and trimmed, with a
/// fixed fallback when empty.
pub open spec fn spec_font_family(raw: Seq<char>) -> Seq<char> {
    let m = spec_trim(raw.map_values(|c: char| if c == ',' { ' ' } else { c }));
    if m.len() == 0 {
        "Montserrat"@
    } else {
        m
    }
}

fn font_family_of(raw: &str) -> (r: String)
    ensures
        r@ == spec_font_family(raw@),
{
    let n = raw.unicode_len();
    let mut mapped = String::new();
    let mut i: usize = 0;
    while i < n
        invariant
            n == raw@.len(),
            i <= n,
            mapped@ == raw@.subrange(0, i as int).map_values(
                |c: char| if c == ',' { ' ' } else { c },
            ),
        decreases n - i,
    {
        let c = raw.get_char(i);
        if c == ',' {
            mapped.push(' ');
        } else {
            mapped.push(c);
        }
        proof {
            assert(raw@.subrange(0, i + 1 as int).map_values(
                |c: char| if c == ',' { ' ' } else { c },
            ) =~= raw@.subrange(0, i as int).map_values(
                |c: char| if c == ',' { ' ' } else { c },
            ).push(if raw@[i as int] == ',' { ' ' } else { raw@[i as int] }));
        }
        i = i + 1;
    }
    proof {
        assert(raw@.subrange(0, n as int) =~= raw@);
        assert(raw@.subrange(0, n as int).map_values(|c: char| if c == ',' { ' ' } else { c })
            =~= raw@.map_values(|c: char| if c == ',' { ' ' } else { c }));
    }
    let t = trim_str(mapped.as_str());
    if t.unicode_len() == 0 {
        let mut out = String::new();
        out.append("Montserrat");
        out
    } else {
        t
    }
}

/// One dialogue line of the events section.
pub open spec fn spec_dialogue_line(e: AssEventView, mx: int, my: int) -> Seq<char> {
    "Dialogue: 0,"@ + spec_ass_timestamp(e.start_ms) + ","@ + spec_ass_timestamp(e.end_ms)
        + ",CCMain,,"@ + spec_u64_digits(mx) + ","@ + spec_u64_digits(mx) + ","@ + spec_u64_digits(
        my,
    ) + ",,"@ + e.text + "\n"@
}

/// All dialogue lines, in order.
pub open spec fn spec_dialogues(events: Seq<AssEventView>, mx: int, my: int) -> Seq<char>
    decreases events.len(),
{
    if events.len() == 0 {
        Seq::empty()
    } else {
        spec_dialogues(events.drop_last(), mx, my) + spec_dialogue_line(events.last(), mx, my)
    }
}

/// The whole ASS document: script info, the one `CCMain` style, and the
/// dialogue events.
#[verifier::opaque]
pub open spec fn spec_ass_document(
    tw: int,
    th: int,
    font_family: Seq<char>,
    font_size: int,
    primary: Seq<char>,
    secondary: Seq<char>,
    outline_color: Seq<char>,
    back_color: Seq<char>,
    bold: bool,
    italic: bool,
    spacing_centi: int,
    outline_deci: int,
    shadow_deci: int,
    alignment: int,
    mx: int,
    my: int,
    events: Seq<AssEventView>,
) -> Seq<char> {
    "[Script Info]\nScriptType: v4.00+\nPlayResX: "@ + spec_u64_digits(tw)
        + "\nPlayResY: "@ + spec_u64_digits(th)
        + "\nWrapStyle: 2\nScaledBorderAndShadow: yes\nYCbCr Matrix: TV.601\n\n[V4+ Styles]\nFormat: Name, Fontname, Fontsize, PrimaryColour, SecondaryColour, OutlineColour, BackColour, Bold, Italic, Underline, StrikeOut, ScaleX, ScaleY, Spacing, Angle, BorderStyle, Outline, Shadow, Alignment, MarginL, MarginR, MarginV, Encoding\nStyle: CCMain,"@
        + font_family + ","@ + spec_u64_digits(font_size) + ","@ + primary + ","@ + secondary
        + ","@ + outline_color + ","@ + back_color + ","@ + (if bold {
        "-1"@
    } else {
        "0"@
    }) + ","@ + (if italic {
        "-1"@
    } else {
        "0"@
    }) + ",0,0,100,100,"@ + spec_signed_centi_str(spacing_centi) + ",0,1,"@ + spec_deci_str(
        outline_deci,
    ) + ","@ + spec_deci_str(shadow_deci) + ","@ + spec_u64_digits(alignment) + ","@
        + spec_u64_digits(mx) + ","@ + spec_u64_digits(mx) + ","@ + spec_u64_digits(my)
        + ",1\n\n[Events]\nFormat: Layer, Start, End, Style, Name, MarginL, MarginR, MarginV, Effect, Text\n"@
        + spec_dialogues(events, mx, my)
}

/// The clip duration used for event clamping: at least a tenth of a second.
pub open spec fn spec_clip_duration(cs: int, ce: int) -> int {
    if ce - cs >= 100 {
        ce - cs
    } else {
        100
    }
}

fn round_div_u64(a: u64, b: u64) -> (r: u64)
    requires
        1 <= b <= 1000000,
        a <= 10000000000000000,
    ensures
        r as int == crate::resolution::spec_round_div(a as int, b as int),
{
    (2 * a + b) / (2 * b)
}

fn clamp_u64(v: u64, lo: u64, hi: u64) -> (r: u64)
    requires
        lo <= hi,
    ensures
        r == if v < lo {
            lo
        } else if v > hi {
            hi
        } else {
            v
        },
        lo <= r <= hi,
{
    if v < lo {
        lo
    } else if v > hi {
        hi
    } else {
        v
    }
}

/// A per-line or per-chunk budget scaled by the box size, rounded, and kept
/// in its band.
pub open spec fn spec_scaled_limit(raw: int, box_milli: int, lo: int, hi: int) -> int {
    let m = crate::resolution::spec_round_div(raw * spec_clamp_box(box_milli), 1000);
    if m < lo {
        lo
    } else if m > hi {
        hi
    } else {
        m
    }
}

fn scaled_limit(raw: u32, box_milli: u32, lo: u64, hi: u64) -> (r: u64)
    requires
        1 <= lo <= hi <= 1000,
    ensures
        r as int == spec_scaled_limit(raw as int, box_milli as int, lo as int, hi as int),
        lo <= r <= hi,
{
    let b = clamp_box_exec(box_milli) as u64;
    proof {
        crate::strutil::lemma_mul_le_bounds(raw as int, b as int, 4294967295, 1650);
    }
    let m = round_div_u64((raw as u64) * b, 1000);
    clamp_u64(m, lo, hi)
}

/// The position used for one clip: a valid per-task override (`top`,
/// `center` or `bottom`, case-insensitive) replaces the profile position.
pub open spec fn spec_effective_position(base: Seq<char>, ov: Option<Seq<char>>) -> Seq<char> {
    match ov {
        Option::Some(o) => {
            let t = spec_lower(spec_trim(o));
            if t == "top"@ || t == "center"@ || t == "bottom"@ {
                t
            } else {
                base
            }
        },
        Option::None => base,
    }
}

fn effective_position(base: &str, ov: Option<&String>) -> (r: String)
    ensures
        r@ == spec_effective_position(
            base@,
            match ov {
                Option::Some(o) => Option::Some(o@),
                Option::None => Option::None,
            },
        ),
{
    match ov {
        Option::Some(o) => {
            let t0 = trim_str(o.as_str());
            let t = ascii_lower(t0.as_str());
            if str_eq(t.as_str(), "top") || str_eq(t.as_str(), "center") || str_eq(
                t.as_str(),
                "bottom",
            ) {
                t
            } else {
                crate::strutil::copy_str(base)
            }
        },
        Option::None => crate::strutil::copy_str(base),
    }
}

/// Chunking no words yields no chunks, and no chunks yield no events.
proof fn lemma_chunks_of_empty()
    ensures
        forall|wl: int, cl: int| (#[trigger] spec_chunks(Seq::<ClipSubtitleWord>::empty(), wl, cl)).len()
            == 0,
        forall|
            chunks: Seq<Seq<ClipSubtitleWord>>,
            mwpl: int,
            mcpl: int,
            mlines: int,
            cs: int,
            dur: int,
            pos: Seq<char>,
            fi: int,
            fo: int,
            kar: bool,
            pop: bool,
            hl: bool,
            sec: Seq<char>,
        |
            chunks.len() == 0 ==> (#[trigger] spec_chunk_events(
                chunks,
                mwpl,
                mcpl,
                mlines,
                cs,
                dur,
                pos,
                fi,
                fo,
                kar,
                pop,
                hl,
                sec,
            )).len() == 0,
{
    assert forall|wl: int, cl: int| (#[trigger] spec_chunks(
        Seq::<ClipSubtitleWord>::empty(),
        wl,
        cl,
    )).len() == 0 by {
        assert(spec_chunk_fold(Seq::<ClipSubtitleWord>::empty(), wl, cl).1.len() == 0);
    }
}

/// The events the layout pipeline yields for already-filtered words: the
/// stable sort, the chunking under the box-scaled budgets, and each chunk's
/// clamped, positioned event.
#[verifier::opaque]
pub open spec fn spec_pipeline_events(
    profile: SubtitleRenderProfile,
    position_override: Option<Seq<char>>,
    ctx: ClipSubtitleRenderContext,
    filtered: Seq<ClipSubtitleWord>,
) -> Seq<AssEventView> {
    let bw = ctx.subtitle_box_width_milli as int;
    let bh = ctx.subtitle_box_height_milli as int;
    let mwpl = spec_scaled_limit(profile.max_words_per_line as int, bw, 2, 14);
    let mcpl = spec_scaled_limit(profile.max_chars_per_line as int, bw, 12, 64);
    let mlines = spec_scaled_limit(profile.max_lines as int, bh, 1, 6);
    let wl0 = mwpl * mlines;
    let wl = if wl0 < 3 {
        3
    } else if wl0 > 24 {
        24
    } else {
        wl0
    };
    let cl0 = mcpl * mlines;
    let cl = if cl0 < 18 {
        18
    } else if cl0 > 140 {
        140
    } else {
        cl0
    };
    let cs = ctx.clip_start_ms as int;
    let dur = spec_clip_duration(cs, ctx.clip_end_ms as int);
    let mx = spec_margin_x(profile.safe_margin_x as int, bw, ctx.target_w as int);
    let my = spec_margin_y(profile.safe_margin_y as int, bh, ctx.target_h as int);
    let eff = spec_effective_position(profile.position@, position_override);
    let px = spec_pos_x_deci(ctx.target_w as int, ctx.subtitle_offset_x_milli as int, mx);
    let py = spec_pos_y_deci(
        ctx.target_h as int,
        ctx.subtitle_offset_y_milli as int,
        my,
        profile.font_size as int,
        eff,
    );
    let pos = "{\\pos("@ + spec_deci_str(px) + ","@ + spec_deci_str(py) + ")}"@;
    let anim = spec_lower(spec_trim(profile.animation@));
    let pop = anim == "word-pop"@;
    let kar = pop || anim == "karaoke"@;
    let sec = spec_ass_color(profile.secondary_color@, "#7EA6FF"@);
    spec_chunk_events(
        spec_chunks(spec_sorted_words(filtered), wl, cl),
        mwpl,
        mcpl,
        mlines,
        cs,
        dur,
        pos,
        profile.fade_in_ms as int,
        profile.fade_out_ms as int,
        kar,
        pop,
        profile.highlight_important_words,
        sec,
    )
}

/// With every intermediate pinned to its spec, the pipeline's events are
/// the chunk events of the computed chunks.
proof fn lemma_pipeline_composition(
    profile: SubtitleRenderProfile,
    ovv: Option<Seq<char>>,
    ctx: ClipSubtitleRenderContext,
    filteredv: Seq<ClipSubtitleWord>,
    sortedv: Seq<ClipSubtitleWord>,
    all_chunks: Seq<Seq<ClipSubtitleWord>>,
    mwpl: int,
    mcpl: int,
    mlines: int,
    wl: int,
    cl: int,
    pos: Seq<char>,
    kar: bool,
    pop: bool,
    sec: Seq<char>,
)
    requires
        mwpl == spec_scaled_limit(
            profile.max_words_per_line as int,
            ctx.subtitle_box_width_milli as int,
            2,
            14,
        ),
        mcpl == spec_scaled_limit(
            profile.max_chars_per_line as int,
            ctx.subtitle_box_width_milli as int,
            12,
            64,
        ),
        mlines == spec_scaled_limit(
            profile.max_lines as int,
            ctx.subtitle_box_height_milli as int,
            1,
            6,
        ),
        wl == ({
            let wl0 = mwpl * mlines;
            if wl0 < 3 {
                3
            } else if wl0 > 24 {
                24
            } else {
                wl0
            }
        }),
        cl == ({
            let cl0 = mcpl * mlines;
            if cl0 < 18 {
                18
            } else if cl0 > 140 {
                140
            } else {
                cl0
            }
        }),
        sortedv == spec_sorted_words(filteredv),
        all_chunks == spec_chunks(sortedv, wl, cl),
        pos == ({
            let mx = spec_margin_x(
                profile.safe_margin_x as int,
                ctx.subtitle_box_width_milli as int,
                ctx.target_w as int,
            );
            let my = spec_margin_y(
                profile.safe_margin_y as int,
                ctx.subtitle_box_height_milli as int,
                ctx.target_h as int,
            );
            let eff = spec_effective_position(profile.position@, ovv);
            let px = spec_pos_x_deci(
                ctx.target_w as int,
                ctx.subtitle_offset_x_milli as int,
                mx,
            );
            let py = spec_pos_y_deci(
                ctx.target_h as int,
                ctx.subtitle_offset_y_milli as int,
                my,
                profile.font_size as int,
                eff,
            );
            "{\\pos("@ + spec_deci_str(px) + ","@ + spec_deci_str(py) + ")}"@
        }),
        pop == (spec_lower(spec_trim(profile.animation@)) == "word-pop"@),
        kar == (pop || spec_lower(spec_trim(profile.animation@)) == "karaoke"@),
        sec == spec_ass_color(profile.secondary_color@, "#7EA6FF"@),
    ensures
        spec_pipeline_events(profile, ovv, ctx, filteredv) == spec_chunk_events(
            all_chunks,
            mwpl,
            mcpl,
            mlines,
            ctx.clip_start_ms as int,
            spec_clip_duration(ctx.clip_start_ms as int, ctx.clip_end_ms as int),
            pos,
            profile.fade_in_ms as int,
            profile.fade_out_ms as int,
            kar,
            pop,
            profile.highlight_important_words,
            sec,
        ),
{
    reveal(spec_pipeline_events);
}

/// Builds the event of one chunk, if it survives the window checks.
fn chunk_event_exec(
    chunk: Vec<ClipSubtitleWord>,
    mwpl: usize,
    mcpl: usize,
    mlines: usize,
    cs: u64,
    dur: u64,
    pos_tag: &String,
    fade_in_ms: u32,
    fade_out_ms: u32,
    karaoke: bool,
    pop: bool,
    highlight: bool,
    sec: &String,
) -> (r: Option<AssEvent>)
    requires
        mwpl >= 1,
        mlines >= 1,
        dur <= 36000000,
    ensures
        match r {
            Option::Some(e) => spec_chunk_event(
                chunk@,
                mwpl as int,
                mcpl as int,
                mlines as int,
                cs as int,
                dur as int,
                pos_tag@,
                fade_in_ms as int,
                fade_out_ms as int,
                karaoke,
                pop,
                highlight,
                sec@,
            ) == Option::Some(e@) && e.start_ms < e.end_ms && e.end_ms <= dur,
            Option::None => spec_chunk_event(
                chunk@,
                mwpl as int,
                mcpl as int,
                mlines as int,
                cs as int,
                dur as int,
                pos_tag@,
                fade_in_ms as int,
                fade_out_ms as int,
                karaoke,
                pop,
                highlight,
                sec@,
            ) is None,
        },
{
    let ghost chunkv = chunk@;
    let lines = split_chunk_into_lines(chunk, mwpl, mcpl, mlines);
    let ghost linesv = spec_capped_lines(chunkv, mwpl as int, mcpl as int, mlines as int);
    proof {
        assert(lines@.map_values(|c: Vec<ClipSubtitleWord>| c@) == linesv);
    }
    if lines.len() == 0 {
        return None;
    }
    if lines[0].len() == 0 {
        proof {
            assert(linesv[0].len() == 0);
        }
        return None;
    }
    let first_line = &lines[0];
    let begin = first_line[0].start_ms;
    let last_line = &lines[lines.len() - 1];
    if last_line.len() == 0 {
        proof {
            assert(linesv.last().len() == 0);
        }
        return None;
    }
    let finish = last_line[last_line.len() - 1].end_ms;
    proof {
        assert(linesv[0][0] == lines@[0]@[0]);
        assert(linesv.last().last() == lines@[lines@.len() - 1]@[lines@[lines@.len() - 1]@.len()
            - 1]);
    }
    let rel_start: u64 = if begin >= cs {
        if begin - cs > dur {
            dur
        } else {
            begin - cs
        }
    } else {
        0
    };
    let rel_end: u64 = if finish >= cs {
        let e0 = finish - cs;
        if e0 >= dur {
            dur
        } else if e0 + 120 > dur {
            dur
        } else {
            e0 + 120
        }
    } else {
        let deficit = cs - finish;
        if deficit >= 120 {
            0
        } else if 120 - deficit > dur {
            dur
        } else {
            120 - deficit
        }
    };
    proof {
        assert(rel_start as int == spec_clamp_to(begin as int - cs as int, dur as int));
        assert(rel_end as int == spec_clamp_to(finish as int - cs as int + 120, dur as int));
    }
    if rel_end <= rel_start || rel_end - rel_start <= 80 {
        return None;
    }
    let mut txt = String::new();
    txt.append(pos_tag.as_str());
    push_event_text(&mut txt, &lines, fade_in_ms, fade_out_ms, karaoke, pop, highlight,
        sec.as_str());
    proof {
        assert(lines@.map_values(
            |l: Vec<ClipSubtitleWord>| l@.map_values(|w: ClipSubtitleWord| w@),
        ) =~= spec_lines_views(linesv));
        assert(txt@ =~= pos_tag@ + spec_event_text(
            spec_lines_views(linesv),
            fade_in_ms as int,
            fade_out_ms as int,
            karaoke,
            pop,
            highlight,
            sec@,
        ));
    }
    Some(AssEvent { start_ms: rel_start, end_ms: rel_end, text: txt })
}

/// Every chunk event lies inside `[0, dur]` and ends after it starts.
proof fn lemma_chunk_events_bounds(
    chunks: Seq<Seq<ClipSubtitleWord>>,
    mwpl: int,
    mcpl: int,
    mlines: int,
    cs: int,
    dur: int,
    pos_tag: Seq<char>,
    fade_in: int,
    fade_out: int,
    karaoke: bool,
    pop: bool,
    highlight: bool,
    sec: Seq<char>,
)
    requires
        dur >= 0,
    ensures
        ({
            let evs = spec_chunk_events(
                chunks,
        mwpl,
        mcpl,
        mlines,
        cs,
        dur,
        pos_tag,
        fade_in,
        fade_out,
        karaoke,
        pop,
        highlight,
        sec,
            );
            forall|k: int|
                0 <= k < evs.len() ==> 0 <= #[trigger] evs[k].start_ms && evs[k].start_ms
                    < evs[k].end_ms && evs[k].end_ms <= dur
        }),
    decreases chunks.len(),
{
    if chunks.len() > 0 {
        lemma_chunk_events_bounds(
            chunks.drop_first(),
        mwpl,
        mcpl,
        mlines,
        cs,
        dur,
        pos_tag,
        fade_in,
        fade_out,
        karaoke,
        pop,
        highlight,
        sec,
        );
        let rest = spec_chunk_events(
            chunks.drop_first(),
        mwpl,
        mcpl,
        mlines,
        cs,
        dur,
        pos_tag,
        fade_in,
        fade_out,
        karaoke,
        pop,
        highlight,
        sec,
        );
        let evs = spec_chunk_events(
            chunks,
        mwpl,
        mcpl,
        mlines,
        cs,
        dur,
        pos_tag,
        fade_in,
        fade_out,
        karaoke,
        pop,
        highlight,
        sec,
        );
        match spec_chunk_event(
            chunks[0],
        mwpl,
        mcpl,
        mlines,
        cs,
        dur,
        pos_tag,
        fade_in,
        fade_out,
        karaoke,
        pop,
        highlight,
        sec,
        ) {
            Option::Some(e) => {
                assert(evs =~= seq![e] + rest);
                assert forall|k: int|
                    0 <= k < evs.len() implies 0 <= #[trigger] evs[k].start_ms && evs[k].start_ms
                    < evs[k].end_ms && evs[k].end_ms <= dur by {
                    if k > 0 {
                        assert(evs[k] == rest[k - 1]);
                    }
                }
            },
            Option::None => {
                assert(evs =~= rest);
            },
        }
    }
}

/// Appends one dialogue line for an event.
fn push_dialogue_line(out: &mut String, e: &AssEvent, mx_s: &String, my_s: &String, mx: u32, my: u32)
    requires
        e.start_ms < 36000001,
        e.end_ms < 36000001,
        mx_s@ == spec_u64_digits(mx as int),
        my_s@ == spec_u64_digits(my as int),
    ensures
        final(out)@ == old(out)@ + spec_dialogue_line(e@, mx as int, my as int),
{
    out.append("Dialogue: 0,");
    let ts1 = ass_timestamp(e.start_ms);
    out.append(ts1.as_str());
    out.append(",");
    let ts2 = ass_timestamp(e.end_ms);
    out.append(ts2.as_str());
    out.append(",CCMain,,");
    out.append(mx_s.as_str());
    out.append(",");
    out.append(mx_s.as_str());
    out.append(",");
    out.append(my_s.as_str());
    out.append(",,");
    out.append(e.text.as_str());
    out.append("\n");
    proof {
        assert(final(out)@ =~= old(out)@ + spec_dialogue_line(e@, mx as int, my as int));
    }
}

/// Renders the whole document text for the given style values and events.
#[verifier::rlimit(100)]
fn build_document_text(
    tw: u32,
    th: u32,
    font_family: &String,
    fs: u64,
    primary: &String,
    secondary: &String,
    outline_c: &String,
    back_c: &String,
    bold: bool,
    italic: bool,
    spacing: i32,
    ow: u64,
    sd: u64,
    align: u32,
    mx: u32,
    my: u32,
    events: &Vec<AssEvent>,
)
 -> (content: String)
    requires
        spacing > i32::MIN,
        forall|k: int|
            0 <= k < events@.len() ==> #[trigger] events@[k].start_ms < events@[k].end_ms
                && events@[k].end_ms <= 36000000,
    ensures
        content@ == spec_ass_document(
            tw as int,
            th as int,
            font_family@,
            fs as int,
            primary@,
            secondary@,
            outline_c@,
            back_c@,
            bold,
            italic,
            spacing as int,
            ow as int,
            sd as int,
            align as int,
            mx as int,
            my as int,
            events@.map_values(|e: AssEvent| e@),
        ),
{
    let mut content = String::new();
    content.append("[Script Info]\nScriptType: v4.00+\nPlayResX: ");
    let tw_s = u64_to_string(tw as u64);
    content.append(tw_s.as_str());
    content.append("\nPlayResY: ");
    let th_s = u64_to_string(th as u64);
    content.append(th_s.as_str());
    content.append(
        "\nWrapStyle: 2\nScaledBorderAndShadow: yes\nYCbCr Matrix: TV.601\n\n[V4+ Styles]\nFormat: Name, Fontname, Fontsize, PrimaryColour, SecondaryColour, OutlineColour, BackColour, Bold, Italic, Underline, StrikeOut, ScaleX, ScaleY, Spacing, Angle, BorderStyle, Outline, Shadow, Alignment, MarginL, MarginR, MarginV, Encoding\nStyle: CCMain,",
    );
    content.append(font_family.as_str());
    content.append(",");
    let fs_s = u64_to_string(fs);
    content.append(fs_s.as_str());
    content.append(",");
    content.append(primary.as_str());
    content.append(",");
    content.append(secondary.as_str());
    content.append(",");
    content.append(outline_c.as_str());
    content.append(",");
    content.append(back_c.as_str());
    content.append(",");
    if bold {
        content.append("-1");
    } else {
        content.append("0");
    }
    content.append(",");
    if italic {
        content.append("-1");
    } else {
        content.append("0");
    }
    content.append(",0,0,100,100,");
    push_signed_centi(&mut content, spacing);
    content.append(",0,1,");
    push_deci(&mut content, ow);
    content.append(",");
    push_deci(&mut content, sd);
    content.append(",");
    let al_s = u64_to_string(align as u64);
    content.append(al_s.as_str());
    content.append(",");
    let mx_s = u64_to_string(mx as u64);
    content.append(mx_s.as_str());
    content.append(",");
    content.append(mx_s.as_str());
    content.append(",");
    let my_s = u64_to_string(my as u64);
    content.append(my_s.as_str());
    content.append(
        ",1\n\n[Events]\nFormat: Layer, Start, End, Style, Name, MarginL, MarginR, MarginV, Effect, Text\n",
    );
    let ghost prefix = content@;
    let ghost ev = events@.map_values(|e: AssEvent| e@);
    let m = events.len();
    let mut j: usize = 0;
    while j < m
        invariant
            ev == events@.map_values(|e: AssEvent| e@),
            m == events@.len(),
            m == ev.len(),
            j <= m,
            mx_s@ == spec_u64_digits(mx as int),
            my_s@ == spec_u64_digits(my as int),
            forall|k: int|
                0 <= k < events@.len() ==> #[trigger] events@[k].start_ms < events@[k].end_ms
                    && events@[k].end_ms <= 36000000,
            content@ == prefix + spec_dialogues(ev.subrange(0, j as int), mx as int, my as int),
        decreases m - j,
    {
        proof {
            assert(ev.subrange(0, j + 1 as int).drop_last() =~= ev.subrange(0, j as int));
            assert(ev.subrange(0, j + 1 as int).last() == ev[j as int]);
            assert(ev[j as int] == events@[j as int]@);
        }
        push_dialogue_line(&mut content, &events[j], &mx_s, &my_s, mx, my);
        proof {
            assert(content@ =~= prefix + spec_dialogues(
                ev.subrange(0, j + 1 as int),
                mx as int,
                my as int,
            ));
        }
        j = j + 1;
    }
    proof {
        reveal(spec_ass_document);
        assert(ev.subrange(0, m as int) =~= ev);
        assert(content@ =~= spec_ass_document(
            tw as int,
            th as int,
            font_family@,
            fs as int,
            primary@,
            secondary@,
            outline_c@,
            back_c@,
            bold,
            italic,
            spacing as int,
            ow as int,
            sd as int,
            align as int,
            mx as int,
            my as int,
            ev,
        ));
    }
    content
}

/// Runs the layout pipeline for one clip: filters, sorts and chunks the
/// payload words and produces the timed events, or nothing when subtitles
/// are disabled, no words land in the window, or every candidate event
/// collapses.
#[verifier::rlimit(100)]
fn layout_clip_events(
    subtitles: &ClipBatchSubtitlePayload,
    position_override: Option<&String>,
    ctx: &ClipSubtitleRenderContext,
) -> (r: Option<Vec<AssEvent>>)
    requires
        240 <= ctx.target_w <= 4320,
        240 <= ctx.target_h <= 4320,
        ctx.clip_end_ms <= 36000000,
    ensures
        (!subtitles.enabled || subtitles.words@.len() == 0 || ctx.clip_end_ms
            <= ctx.clip_start_ms) ==> r is None,
        match r {
            Option::Some(events) => {
                let dur = spec_clip_duration(ctx.clip_start_ms as int, ctx.clip_end_ms as int);
                &&& events@.len() > 0
                &&& (forall|k: int|
                    0 <= k < events@.len() ==> #[trigger] events@[k].start_ms < events@[k].end_ms
                        && events@[k].end_ms <= dur)
                &&& (exists|fv: Seq<ClipSubtitleWord>|
                    #![trigger spec_word_views(fv)]
                    {
                        &&& spec_word_views(fv) == spec_filtered_words(
                            subtitles.words@.map_values(|w: ExportTranscriptWord| w@),
                            subtitles.render_profile.all_caps,
                            subtitles.render_profile.highlight_important_words,
                            ctx.clip_start_ms as int,
                            ctx.clip_end_ms as int,
                        )
                        &&& events@.map_values(|e: AssEvent| e@) == spec_pipeline_events(
                            subtitles.render_profile,
                            match position_override {
                                Option::Some(o) => Option::Some(o@),
                                Option::None => Option::None,
                            },
                            *ctx,
                            fv,
                        )
                    })
            },
            Option::None => !subtitles.enabled || subtitles.words@.len() == 0
                || ctx.clip_end_ms <= ctx.clip_start_ms || (exists|fv: Seq<ClipSubtitleWord>|
                #![trigger spec_word_views(fv)]
                {
                    &&& spec_word_views(fv) == spec_filtered_words(
                        subtitles.words@.map_values(|w: ExportTranscriptWord| w@),
                        subtitles.render_profile.all_caps,
                        subtitles.render_profile.highlight_important_words,
                        ctx.clip_start_ms as int,
                        ctx.clip_end_ms as int,
                    )
                    &&& spec_pipeline_events(
                        subtitles.render_profile,
                        match position_override {
                            Option::Some(o) => Option::Some(o@),
                            Option::None => Option::None,
                        },
                        *ctx,
                        fv,
                    ).len() == 0
                }),
        },
{
    let ghost ovv: Option<Seq<char>> = match position_override {
        Option::Some(o) => Option::Some(o@),
        Option::None => Option::None,
    };
    if !subtitles.enabled || subtitles.words.len() == 0 || ctx.clip_end_ms <= ctx.clip_start_ms {
        return None;
    }
    let p = &subtitles.render_profile;
    let cs = ctx.clip_start_ms;
    let ce = ctx.clip_end_ms;
    let dur: u64 = if ce - cs >= 100 {
        ce - cs
    } else {
        100
    };
    let mwpl = scaled_limit(p.max_words_per_line, ctx.subtitle_box_width_milli, 2, 14) as usize;
    let mcpl = scaled_limit(p.max_chars_per_line, ctx.subtitle_box_width_milli, 12, 64) as usize;
    let mlines = scaled_limit(p.max_lines, ctx.subtitle_box_height_milli, 1, 6) as usize;
    proof {
        crate::strutil::lemma_mul_le_bounds(mwpl as int, mlines as int, 14, 6);
        crate::strutil::lemma_mul_le_bounds(mcpl as int, mlines as int, 64, 6);
    }
    let word_limit_raw = mwpl * mlines;
    let word_limit: usize = if word_limit_raw < 3 {
        3
    } else if word_limit_raw > 24 {
        24
    } else {
        word_limit_raw
    };
    let char_limit_raw = mcpl * mlines;
    let char_limit: usize = if char_limit_raw < 18 {
        18
    } else if char_limit_raw > 140 {
        140
    } else {
        char_limit_raw
    };
    let filtered = filter_clip_words(
        &subtitles.words,
        p.all_caps,
        p.highlight_important_words,
        cs,
        ce,
    );
    let ghost filteredv = filtered@;
    proof {
        assert(spec_word_views(filteredv) =~= spec_filtered_words(
            subtitles.words@.map_values(|w: ExportTranscriptWord| w@),
            p.all_caps,
            p.highlight_important_words,
            cs as int,
            ce as int,
        ));
    }
    if filtered.len() == 0 {
        proof {
            assert(filteredv =~= Seq::<ClipSubtitleWord>::empty());
            assert(spec_sorted_words(filteredv) =~= Seq::<ClipSubtitleWord>::empty());
            assert(spec_pipeline_events(subtitles.render_profile, ovv, *ctx, filteredv).len()
                == 0) by {
                reveal(spec_pipeline_events);
                assert(spec_chunk_fold(Seq::<ClipSubtitleWord>::empty(), 3, 18).1.len() == 0);
                lemma_chunks_of_empty();
            }
        }
        return None;
    }
    let sorted = sort_words_by_start(filtered);
    let ghost sortedv = sorted@;
    let mut chunks = chunk_words(sorted, word_limit, char_limit);

    let mx = margin_x_px(p.safe_margin_x, ctx.subtitle_box_width_milli, ctx.target_w);
    let my = margin_y_px(p.safe_margin_y, ctx.subtitle_box_height_milli, ctx.target_h);
    let pos_eff = effective_position(p.position.as_str(), position_override);
    let px = pos_x_deci(ctx.target_w, ctx.subtitle_offset_x_milli, mx);
    let py = pos_y_deci(ctx.target_h, ctx.subtitle_offset_y_milli, my, p.font_size, pos_eff.as_str());
    let mut pos_tag = String::new();
    pos_tag.append("{\\pos(");
    push_deci(&mut pos_tag, px);
    pos_tag.append(",");
    push_deci(&mut pos_tag, py);
    pos_tag.append(")}");
    proof {
        assert(pos_tag@ =~= "{\\pos("@ + spec_deci_str(px as int) + ","@ + spec_deci_str(
            py as int,
        ) + ")}"@);
    }

    let primary = ass_color(p.primary_color.as_str(), "#FFFFFF");
    let secondary = ass_color(p.secondary_color.as_str(), "#7EA6FF");
    let outline_c = ass_color(p.outline_color.as_str(), "#0A0D16");
    let back_c = ass_back_color(p.shadow_color.as_str(), "#000000", 120);
    let align = subtitle_alignment(pos_eff.as_str());
    let anim_t = trim_str(p.animation.as_str());
    let anim = ascii_lower(anim_t.as_str());
    let pop = str_eq(anim.as_str(), "word-pop");
    let karaoke = pop || str_eq(anim.as_str(), "karaoke");

    let mut events: Vec<AssEvent> = Vec::new();
    let ghost all_chunks = chunks@.map_values(|c: Vec<ClipSubtitleWord>| c@);
    let ghost fade_in = p.fade_in_ms as int;
    let ghost fade_out = p.fade_out_ms as int;
    let ghost sec_v = secondary@;
    let ghost pos_v = pos_tag@;
    proof {
        assert(chunks@.map_values(|c: Vec<ClipSubtitleWord>| c@) =~= all_chunks);
    }
    while chunks.len() > 0
        invariant
            events@.map_values(|e: AssEvent| e@) + spec_chunk_events(
                chunks@.map_values(|c: Vec<ClipSubtitleWord>| c@),
                mwpl as int,
                mcpl as int,
                mlines as int,
                cs as int,
                dur as int,
                pos_v,
                fade_in,
                fade_out,
                karaoke,
                pop,
                p.highlight_important_words,
                sec_v,
            ) =~= spec_chunk_events(
                all_chunks,
                mwpl as int,
                mcpl as int,
                mlines as int,
                cs as int,
                dur as int,
                pos_v,
                fade_in,
                fade_out,
                karaoke,
                pop,
                p.highlight_important_words,
                sec_v,
            ),
            dur == spec_clip_duration(cs as int, ce as int),
            dur <= 36000000,
            1 <= mwpl,
            1 <= mlines,
            fade_in == p.fade_in_ms as int,
            fade_out == p.fade_out_ms as int,
            sec_v == secondary@,
            pos_v == pos_tag@,
        decreases chunks@.len(),
    {
        let ghost chunks0 = chunks@.map_values(|c: Vec<ClipSubtitleWord>| c@);
        let chunk = chunks.remove(0);
        proof {
            assert(chunks@.map_values(|c: Vec<ClipSubtitleWord>| c@) =~= chunks0.drop_first());
            assert(chunks0[0] == chunk@);
        }
        let ghost chunkv = chunk@;
        let outcome = chunk_event_exec(
            chunk,
            mwpl,
            mcpl,
            mlines,
            cs,
            dur,
            &pos_tag,
            p.fade_in_ms,
            p.fade_out_ms,
            karaoke,
            pop,
            p.highlight_important_words,
            &secondary,
        );
        proof {
            let remaining = spec_chunk_events(
                chunks0.drop_first(),
                mwpl as int,
                mcpl as int,
                mlines as int,
                cs as int,
                dur as int,
                pos_v,
                fade_in,
                fade_out,
                karaoke,
                pop,
                p.highlight_important_words,
                sec_v,
            );
            match &outcome {
                Option::Some(e) => {
                    assert(spec_chunk_events(
                        chunks0,
                        mwpl as int,
                        mcpl as int,
                        mlines as int,
                        cs as int,
                        dur as int,
                        pos_v,
                        fade_in,
                        fade_out,
                        karaoke,
                        pop,
                        p.highlight_important_words,
                        sec_v,
                    ) == seq![e@] + remaining);
                },
                Option::None => {
                    assert(spec_chunk_events(
                        chunks0,
                        mwpl as int,
                        mcpl as int,
                        mlines as int,
                        cs as int,
                        dur as int,
                        pos_v,
                        fade_in,
                        fade_out,
                        karaoke,
                        pop,
                        p.highlight_important_words,
                        sec_v,
                    ) == remaining);
                },
            }
        }
        match outcome {
            Option::Some(ev) => {
                let ghost prev_events = events@;
                let ghost evv = ev@;
                events.push(ev);
                proof {
                    assert(events@.map_values(|e: AssEvent| e@) =~= prev_events.map_values(
                        |e: AssEvent| e@,
                    ).push(evv));
                    assert(prev_events.map_values(|e: AssEvent| e@).push(evv)
                        + spec_chunk_events(
                        chunks0.drop_first(),
                        mwpl as int,
                        mcpl as int,
                        mlines as int,
                        cs as int,
                        dur as int,
                        pos_v,
                        fade_in,
                        fade_out,
                        karaoke,
                        pop,
                        p.highlight_important_words,
                        sec_v,
                    ) =~= prev_events.map_values(|e: AssEvent| e@) + (seq![evv]
                        + spec_chunk_events(
                        chunks0.drop_first(),
                        mwpl as int,
                        mcpl as int,
                        mlines as int,
                        cs as int,
                        dur as int,
                        pos_v,
                        fade_in,
                        fade_out,
                        karaoke,
                        pop,
                        p.highlight_important_words,
                        sec_v,
                    )));
                }
            },
            Option::None => {},
        }
    }
    proof {
        assert(chunks@.map_values(|c: Vec<ClipSubtitleWord>| c@) =~= Seq::<
            Seq<ClipSubtitleWord>,
        >::empty());
        assert(spec_chunk_events(
            Seq::<Seq<ClipSubtitleWord>>::empty(),
            mwpl as int,
            mcpl as int,
            mlines as int,
            cs as int,
            dur as int,
            pos_v,
            fade_in,
            fade_out,
            karaoke,
            pop,
            p.highlight_important_words,
            sec_v,
        ) =~= Seq::<AssEventView>::empty());
        assert(events@.map_values(|e: AssEvent| e@) =~= spec_chunk_events(
            all_chunks,
            mwpl as int,
            mcpl as int,
            mlines as int,
            cs as int,
            dur as int,
            pos_v,
            fade_in,
            fade_out,
            karaoke,
            pop,
            p.highlight_important_words,
            sec_v,
        ));
        lemma_chunk_events_bounds(
            all_chunks,
            mwpl as int,
            mcpl as int,
            mlines as int,
            cs as int,
            dur as int,
            pos_v,
            fade_in,
            fade_out,
            karaoke,
            pop,
            p.highlight_important_words,
            sec_v,
        );
        assert forall|k: int|
            0 <= k < events@.len() implies #[trigger] events@[k].start_ms < events@[k].end_ms
            && events@[k].end_ms <= dur by {
            let evs = spec_chunk_events(
                all_chunks,
                mwpl as int,
                mcpl as int,
                mlines as int,
                cs as int,
                dur as int,
                pos_v,
                fade_in,
                fade_out,
                karaoke,
                pop,
                p.highlight_important_words,
                sec_v,
            );
            assert(0 <= evs[k].start_ms && evs[k].start_ms < evs[k].end_ms && evs[k].end_ms
                <= dur);
            assert(events@.map_values(|e: AssEvent| e@)[k] == events@[k]@);
            assert(evs[k] == events@[k]@);
        }
        // The computed events are exactly the pipeline's events for the
        // filtered words.
        lemma_pipeline_composition(
            subtitles.render_profile,
            ovv,
            *ctx,
            filteredv,
            sortedv,
            all_chunks,
            mwpl as int,
            mcpl as int,
            mlines as int,
            word_limit as int,
            char_limit as int,
            pos_v,
            karaoke,
            pop,
            sec_v,
        );
        assert(events@.map_values(|e: AssEvent| e@) == spec_pipeline_events(
            subtitles.render_profile,
            ovv,
            *ctx,
            filteredv,
        ));
    }
    if events.len() == 0 {
        proof {
            assert(spec_pipeline_events(subtitles.render_profile, ovv, *ctx, filteredv).len()
                == 0);
        }
        return None;
    }
    proof {
        assert(spec_word_views(filteredv) == spec_filtered_words(
            subtitles.words@.map_values(|w: ExportTranscriptWord| w@),
            subtitles.render_profile.all_caps,
            subtitles.render_profile.highlight_important_words,
            ctx.clip_start_ms as int,
            ctx.clip_end_ms as int,
        ));
        assert(events@.map_values(|e: AssEvent| e@) == spec_pipeline_events(
            subtitles.render_profile,
            ovv,
            *ctx,
            filteredv,
        ));
    }
    Some(events)
}

/// Builds the subtitle document for one clip, or nothing when subtitles

/// are disabled, no words intersect the window, or every candidate event
/// collapses. Every returned event lies within `[0, clip duration]` and
/// ends after it starts, and the document text is exactly the rendering of
/// the returned events with the computed style.
#[verifier::rlimit(100)]
pub fn build_clip_subtitle_ass(
    subtitles: &ClipBatchSubtitlePayload,
    position_override: Option<&String>,
    ctx: &ClipSubtitleRenderContext,
) -> (r: Option<AssDocument>)
    requires
        240 <= ctx.target_w <= 4320,
        240 <= ctx.target_h <= 4320,
        ctx.clip_end_ms <= 36000000,
    ensures
        (!subtitles.enabled || subtitles.words@.len() == 0 || ctx.clip_end_ms
            <= ctx.clip_start_ms) ==> r is None,
        match r {
            Option::Some(doc) => {
                let dur = spec_clip_duration(ctx.clip_start_ms as int, ctx.clip_end_ms as int);
                &&& doc.events@.len() > 0
                &&& (forall|k: int|
                    0 <= k < doc.events@.len() ==> #[trigger] doc.events@[k].start_ms
                        < doc.events@[k].end_ms && doc.events@[k].end_ms <= dur)
                &&& doc.content@ == spec_ass_document(
                    ctx.target_w as int,
                    ctx.target_h as int,
                    spec_font_family(subtitles.render_profile.font_family@),
                    ({
                        let fs = subtitles.render_profile.font_size as int;
                        if fs < 24 {
                            24
                        } else if fs > 104 {
                            104
                        } else {
                            fs
                        }
                    }),
                    spec_ass_color(subtitles.render_profile.primary_color@, "#FFFFFF"@),
                    spec_ass_color(subtitles.render_profile.secondary_color@, "#7EA6FF"@),
                    spec_ass_color(subtitles.render_profile.outline_color@, "#0A0D16"@),
                    spec_ass_back_color(subtitles.render_profile.shadow_color@, "#000000"@, 120),
                    subtitles.render_profile.bold,
                    subtitles.render_profile.italic,
                    ({
                        let sp = subtitles.render_profile.letter_spacing_centi as int;
                        if sp < -140 {
                            -140
                        } else if sp > 580 {
                            580
                        } else {
                            sp
                        }
                    }),
                    ({
                        let ow = subtitles.render_profile.outline_width_deci as int;
                        if ow > 70 {
                            70
                        } else {
                            ow
                        }
                    }),
                    ({
                        let sd = subtitles.render_profile.shadow_depth_deci as int;
                        if sd > 60 {
                            60
                        } else {
                            sd
                        }
                    }),
                    spec_alignment(
                        spec_effective_position(
                            subtitles.render_profile.position@,
                            match position_override {
                                Option::Some(o) => Option::Some(o@),
                                Option::None => Option::None,
                            },
                        ),
                    ),
                    spec_margin_x(
                        subtitles.render_profile.safe_margin_x as int,
                        ctx.subtitle_box_width_milli as int,
                        ctx.target_w as int,
                    ),
                    spec_margin_y(
                        subtitles.render_profile.safe_margin_y as int,
                        ctx.subtitle_box_height_milli as int,
                        ctx.target_h as int,
                    ),
                    doc.events@.map_values(|e: AssEvent| e@),
                )
                &&& (exists|fv: Seq<ClipSubtitleWord>|
                    #![trigger spec_word_views(fv)]
                    {
                        &&& spec_word_views(fv) == spec_filtered_words(
                            subtitles.words@.map_values(|w: ExportTranscriptWord| w@),
                            subtitles.render_profile.all_caps,
                            subtitles.render_profile.highlight_important_words,
                            ctx.clip_start_ms as int,
                            ctx.clip_end_ms as int,
                        )
                        &&& doc.events@.map_values(|e: AssEvent| e@) == spec_pipeline_events(
                            subtitles.render_profile,
                            match position_override {
                                Option::Some(o) => Option::Some(o@),
                                Option::None => Option::None,
                            },
                            *ctx,
                            fv,
                        )
                    })
            },
            Option::None => !subtitles.enabled || subtitles.words@.len() == 0 || ctx.clip_end_ms
                <= ctx.clip_start_ms || (exists|fv: Seq<ClipSubtitleWord>|
                #![trigger spec_word_views(fv)]
                {
                    &&& spec_word_views(fv) == spec_filtered_words(
                        subtitles.words@.map_values(|w: ExportTranscriptWord| w@),
                        subtitles.render_profile.all_caps,
                        subtitles.render_profile.highlight_important_words,
                        ctx.clip_start_ms as int,
                        ctx.clip_end_ms as int,
                    )
                    &&& spec_pipeline_events(
                        subtitles.render_profile,
                        match position_override {
                            Option::Some(o) => Option::Some(o@),
                            Option::None => Option::None,
                        },
                        *ctx,
                        fv,
                    ).len() == 0
                }),
        },
{
    let ghost ovv: Option<Seq<char>> = match position_override {
        Option::Some(o) => Option::Some(o@),
        Option::None => Option::None,
    };
    let events: Vec<AssEvent> = match layout_clip_events(subtitles, position_override, ctx) {
        Option::Some(events) => events,
        Option::None => {
            return None;
        },
    };
    let p = &subtitles.render_profile;
    let mx = margin_x_px(p.safe_margin_x, ctx.subtitle_box_width_milli, ctx.target_w);
    let my = margin_y_px(p.safe_margin_y, ctx.subtitle_box_height_milli, ctx.target_h);
    let pos_eff = effective_position(p.position.as_str(), position_override);
    let primary = ass_color(p.primary_color.as_str(), "#FFFFFF");
    let secondary = ass_color(p.secondary_color.as_str(), "#7EA6FF");
    let outline_c = ass_color(p.outline_color.as_str(), "#0A0D16");
    let back_c = ass_back_color(p.shadow_color.as_str(), "#000000", 120);
    let align = subtitle_alignment(pos_eff.as_str());

    let font_family = font_family_of(p.font_family.as_str());
    let fs: u64 = if p.font_size < 24 {
        24
    } else if p.font_size > 104 {
        104
    } else {
        p.font_size as u64
    };
    let spacing: i32 = if p.letter_spacing_centi < -140 {
        -140
    } else if p.letter_spacing_centi > 580 {
        580
    } else {
        p.letter_spacing_centi
    };
    let ow: u64 = if p.outline_width_deci > 70 {
        70
    } else {
        p.outline_width_deci as u64
    };
    let sd: u64 = if p.shadow_depth_deci > 60 {
        60
    } else {
        p.shadow_depth_deci as u64
    };

    proof {
        assert forall|k: int|
            0 <= k < events@.len() implies #[trigger] events@[k].start_ms < events@[k].end_ms
            && events@[k].end_ms <= 36000000 by {
            assert(events@[k].start_ms < events@[k].end_ms && events@[k].end_ms
                <= spec_clip_duration(ctx.clip_start_ms as int, ctx.clip_end_ms as int));
        }
    }
    let content = build_document_text(
        ctx.target_w,
        ctx.target_h,
        &font_family,
        fs,
        &primary,
        &secondary,
        &outline_c,
        &back_c,
        p.bold,
        p.italic,
        spacing,
        ow,
        sd,
        align,
        mx,
        my,
        &events,
    );
    proof {
        let fv0 = choose|fv: Seq<ClipSubtitleWord>|
            #![trigger spec_word_views(fv)]
            {
                &&& spec_word_views(fv) == spec_filtered_words(
                    subtitles.words@.map_values(|w: ExportTranscriptWord| w@),
                    subtitles.render_profile.all_caps,
                    subtitles.render_profile.highlight_important_words,
                    ctx.clip_start_ms as int,
                    ctx.clip_end_ms as int,
                )
                &&& events@.map_values(|e: AssEvent| e@) == spec_pipeline_events(
                    subtitles.render_profile,
                    ovv,
                    *ctx,
                    fv,
                )
            };
        assert(spec_word_views(fv0) == spec_filtered_words(
            subtitles.words@.map_values(|w: ExportTranscriptWord| w@),
            subtitles.render_profile.all_caps,
            subtitles.render_profile.highlight_important_words,
            ctx.clip_start_ms as int,
            ctx.clip_end_ms as int,
        ));
        assert(events@.map_values(|e: AssEvent| e@) == spec_pipeline_events(
            subtitles.render_profile,
            ovv,
            *ctx,
            fv0,
        ));
    }
    Some(AssDocument { content, events })
}

} // verus!

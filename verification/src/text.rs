//! Text sanitizers shared by the staging, export and settings paths.

use vstd::prelude::*;
use crate::strutil::{
    spec_trim, spec_ascii_alphanumeric, unicode_whitespace, unicode_control, trim_str,
    is_ascii_alphanumeric_char,
};

verus! {

/// Clamps `value` into `[min, max]` and narrows it to a byte.
pub fn clamp_u8(value: i32, min: i32, max: i32) -> (r: u8)
    requires
        0 <= min <= max <= 255,
    ensures
        r == if value < min {
            min
        } else if value > max {
            max
        } else {
            value
        },
{
    if value < min {
        min as u8
    } else if value > max {
        max as u8
    } else {
        value as u8
    }
}

/// The first `k` characters of `s` (all of `s` when it is shorter).
pub open spec fn spec_take(s: Seq<char>, k: int) -> Seq<char> {
    if s.len() <= k {
        s
    } else {
        s.subrange(0, k)
    }
}

/// Returns the first `k` characters of `s`.
pub fn take_chars(s: &str, k: usize) -> (r: String)
    ensures
        r@ == spec_take(s@, k as int),
{
    let n = s.unicode_len();
    if n <= k {
        let mut out = String::new();
        out.append(s);
        out
    } else {
        let cut = s.substring_char(0, k);
        let mut out = String::new();
        out.append(cut);
        out
    }
}

/// Trims `value`, requires at least `min_len` characters, and keeps at most
/// `max_len` of them. The error names the offending field.
pub fn sanitize_text(value: String, min_len: usize, max_len: usize, field_name: &str) -> (r:
    Result<String, String>)
    ensures
        spec_trim(value@).len() >= min_len ==> (r matches Ok(t) && t@ == spec_take(
            spec_trim(value@),
            max_len as int,
        )),
        spec_trim(value@).len() < min_len ==> (r matches Err(e) && e@ == field_name@
            + " is too short"@),
{
    let trimmed = trim_str(value.as_str());
    if trimmed.unicode_len() < min_len {
        let mut e = String::new();
        e.append(field_name);
        e.append(" is too short");
        return Err(e);
    }
    Ok(take_chars(trimmed.as_str(), max_len))
}

/// The trimmed, length-capped form of an optional text; empty results are
/// dropped.
pub open spec fn spec_optional_text(value: Option<String>, max_len: int) -> Option<Seq<char>> {
    match value {
        Option::None => Option::None,
        Option::Some(raw) => {
            let t = spec_take(spec_trim(raw@), max_len);
            if t.len() == 0 {
                Option::None
            } else {
                Option::Some(t)
            }
        },
    }
}

/// Trims and caps an optional text, mapping empty results to `None`.
pub fn sanitize_optional_text(value: Option<String>, max_len: usize) -> (r: Option<String>)
    ensures
        match r {
            Option::Some(t) => spec_optional_text(value, max_len as int) == Option::Some(t@),
            Option::None => spec_optional_text(value, max_len as int) is None,
        },
{
    match value {
        Option::None => None,
        Option::Some(raw) => {
            let trimmed = trim_str(raw.as_str());
            let capped = take_chars(trimmed.as_str(), max_len);
            if capped.unicode_len() == 0 {
                None
            } else {
                Some(capped)
            }
        },
    }
}

/// Trims and caps an optional short text; identical policy to
/// [`sanitize_optional_text`], used on export titles, descriptions and tags.
pub fn sanitize_short_text(value: Option<String>, max_len: usize) -> (r: Option<String>)
    ensures
        match r {
            Option::Some(t) => spec_optional_text(value, max_len as int) == Option::Some(t@),
            Option::None => spec_optional_text(value, max_len as int) is None,
        },
{
    sanitize_optional_text(value, max_len)
}

/// The view of an optional string.
pub open spec fn opt_str_view(v: Option<String>) -> Option<Seq<char>> {
    match v {
        Option::None => Option::None,
        Option::Some(s) => Option::Some(s@),
    }
}

/// The outcome of path sanitization: `None` is a rejection; `Some(None)` is
/// an absent or blank path; `Some(Some(t))` is the trimmed path.
pub open spec fn spec_sanitize_opt_path(v: Option<Seq<char>>) -> Option<Option<Seq<char>>> {
    match v {
        Option::None => Option::Some(Option::None),
        Option::Some(raw) => {
            let t = spec_trim(raw);
            if t.len() == 0 {
                Option::Some(Option::None)
            } else if t.len() > 512 || (exists|j: int|
                0 <= j < t.len() && unicode_control(t[j])) {
                Option::None
            } else {
                Option::Some(Option::Some(t))
            }
        },
    }
}

/// Trims an optional path-like text; rejects paths over 512 characters and
/// paths holding control characters.
pub fn sanitize_optional_path(value: Option<String>) -> (r: Result<Option<String>, String>)
    ensures
        match r {
            Ok(p) => spec_sanitize_opt_path(opt_str_view(value)) == Option::Some(opt_str_view(p)),
            Err(_) => spec_sanitize_opt_path(opt_str_view(value)) is None,
        },
{
    match value {
        Option::None => Ok(None),
        Option::Some(raw) => {
            let trimmed = trim_str(raw.as_str());
            let n = trimmed.unicode_len();
            if n == 0 {
                return Ok(None);
            }
            if n > 512 {
                let mut e = String::new();
                e.append("Path is too long.");
                return Err(e);
            }
            let mut i: usize = 0;
            while i < n
                invariant
                    value == Option::Some(raw),
                    trimmed@ == spec_trim(raw@),
                    0 < n <= 512,
                    n == trimmed@.len(),
                    i <= n,
                    forall|j: int| 0 <= j < i ==> !unicode_control(trimmed@[j]),
                decreases n - i,
            {
                if trimmed.get_char(i).is_control() {
                    proof {
                        assert(unicode_control(spec_trim(raw@)[i as int]));
                    }
                    let mut e = String::new();
                    e.append("Path contains invalid control characters.");
                    return Err(e);
                }
                i = i + 1;
            }
            Ok(Some(trimmed))
        },
    }
}

// ---------------------------------------------------------------------------
// Project name / file stem sanitization.
// ---------------------------------------------------------------------------

/// A character kept verbatim by the name sanitizer.
pub open spec fn spec_name_keep(c: char) -> bool {
    spec_ascii_alphanumeric(c) || c == '-' || c == '_'
}

/// Keeps alphanumerics, `-` and `_`, maps whitespace to `-`, drops the rest.
pub open spec fn spec_name_filter(s: Seq<char>) -> Seq<char>
    decreases s.len(),
{
    if s.len() == 0 {
        Seq::empty()
    } else {
        let rest = spec_name_filter(s.subrange(1, s.len() as int));
        if spec_name_keep(s[0]) {
            seq![s[0]] + rest
        } else if unicode_whitespace(s[0]) {
            seq!['-'] + rest
        } else {
            rest
        }
    }
}

proof fn lemma_name_filter_concat(a: Seq<char>, b: Seq<char>)
    ensures
        spec_name_filter(a + b) == spec_name_filter(a) + spec_name_filter(b),
    decreases a.len(),
{
    if a.len() == 0 {
        assert(a + b =~= b);
        assert(spec_name_filter(a) + spec_name_filter(b) =~= spec_name_filter(b));
    } else {
        let t = a.subrange(1, a.len() as int);
        lemma_name_filter_concat(t, b);
        assert((a + b).subrange(1, (a + b).len() as int) =~= t + b);
        assert((a + b)[0] == a[0]);
        if spec_name_keep(a[0]) {
            assert(seq![a[0]] + (spec_name_filter(t) + spec_name_filter(b)) =~= (seq![a[0]]
                + spec_name_filter(t)) + spec_name_filter(b));
        } else if unicode_whitespace(a[0]) {
            assert(seq!['-'] + (spec_name_filter(t) + spec_name_filter(b)) =~= (seq!['-']
                + spec_name_filter(t)) + spec_name_filter(b));
        }
    }
}

/// Collapses each run of `-` characters to a single `-`.
pub open spec fn spec_collapse_dashes(s: Seq<char>) -> Seq<char>
    decreases s.len(),
{
    if s.len() == 0 {
        Seq::empty()
    } else if s.len() >= 2 && s[0] == '-' && s[1] == '-' {
        spec_collapse_dashes(s.subrange(1, s.len() as int))
    } else {
        seq![s[0]] + spec_collapse_dashes(s.subrange(1, s.len() as int))
    }
}

/// Index of the first non-dash character.
pub open spec fn spec_dash_start_idx(s: Seq<char>) -> int
    decreases s.len(),
{
    if s.len() == 0 {
        0
    } else if s[0] == '-' {
        1 + spec_dash_start_idx(s.subrange(1, s.len() as int))
    } else {
        0
    }
}

/// One past the index of the last non-dash character.
pub open spec fn spec_dash_end_idx(s: Seq<char>) -> int
    decreases s.len(),
{
    if s.len() == 0 {
        0
    } else if s[s.len() - 1] == '-' {
        spec_dash_end_idx(s.subrange(0, s.len() - 1))
    } else {
        s.len() as int
    }
}

/// The `-`-trimmed view of a string.
pub open spec fn spec_trim_dashes(s: Seq<char>) -> Seq<char> {
    let a = spec_dash_start_idx(s);
    let b = spec_dash_end_idx(s);
    if a < b {
        s.subrange(a, b)
    } else {
        Seq::empty()
    }
}

proof fn lemma_dash_start_idx_bounds(s: Seq<char>)
    ensures
        0 <= spec_dash_start_idx(s) <= s.len(),
        forall|j: int| 0 <= j < spec_dash_start_idx(s) ==> s[j] == '-',
        spec_dash_start_idx(s) < s.len() ==> s[spec_dash_start_idx(s)] != '-',
    decreases s.len(),
{
    if s.len() > 0 && s[0] == '-' {
        let t = s.subrange(1, s.len() as int);
        lemma_dash_start_idx_bounds(t);
        assert forall|j: int| 0 <= j < spec_dash_start_idx(s) implies s[j] == '-' by {
            if j > 0 {
                assert(t[j - 1] == s[j]);
            }
        }
        if spec_dash_start_idx(s) < s.len() {
            assert(t[spec_dash_start_idx(t)] == s[spec_dash_start_idx(s)]);
        }
    }
}

proof fn lemma_dash_end_idx_bounds(s: Seq<char>)
    ensures
        0 <= spec_dash_end_idx(s) <= s.len(),
        forall|j: int| spec_dash_end_idx(s) <= j < s.len() ==> s[j] == '-',
        spec_dash_end_idx(s) > 0 ==> s[spec_dash_end_idx(s) - 1] != '-',
    decreases s.len(),
{
    if s.len() > 0 && s[s.len() - 1] == '-' {
        let t = s.subrange(0, s.len() - 1);
        lemma_dash_end_idx_bounds(t);
        assert forall|j: int| spec_dash_end_idx(s) <= j < s.len() implies s[j] == '-' by {
            if j < s.len() - 1 {
                assert(t[j] == s[j]);
            }
        }
        if spec_dash_end_idx(s) > 0 {
            assert(t[spec_dash_end_idx(t) - 1] == s[spec_dash_end_idx(s) - 1]);
        }
    }
}

proof fn lemma_name_filter_singleton(c: char)
    ensures
        spec_name_filter(seq![c]) == (if spec_name_keep(c) {
            seq![c]
        } else if unicode_whitespace(c) {
            seq!['-']
        } else {
            Seq::<char>::empty()
        }),
{
    let s = seq![c];
    assert(s.subrange(1, 1) =~= Seq::<char>::empty());
    assert(spec_name_filter(Seq::<char>::empty()) =~= Seq::<char>::empty());
    if spec_name_keep(c) {
        assert(seq![c] + Seq::<char>::empty() =~= seq![c]);
    } else if unicode_whitespace(c) {
        assert(seq!['-'] + Seq::<char>::empty() =~= seq!['-']);
    }
}

/// Applies the keep/whitespace map to the string.
fn name_filter(s: &str) -> (r: String)
    ensures
        r@ == spec_name_filter(s@),
{
    let n = s.unicode_len();
    let mut out = String::new();
    let mut i: usize = 0;
    while i < n
        invariant
            n == s@.len(),
            i <= n,
            out@ == spec_name_filter(s@.subrange(0, i as int)),
        decreases n - i,
    {
        let c = s.get_char(i);
        proof {
            assert(s@.subrange(0, i + 1 as int) =~= s@.subrange(0, i as int) + seq![s@[i as int]]);
            lemma_name_filter_concat(s@.subrange(0, i as int), seq![s@[i as int]]);
            lemma_name_filter_singleton(s@[i as int]);
        }
        if is_ascii_alphanumeric_char(c) || c == '-' || c == '_' {
            out.push(c);
            proof {
                assert(out@ =~= spec_name_filter(s@.subrange(0, i + 1 as int)));
            }
        } else if c.is_whitespace() {
            out.push('-');
            proof {
                assert(out@ =~= spec_name_filter(s@.subrange(0, i + 1 as int)));
            }
        } else {
            proof {
                assert(out@ =~= spec_name_filter(s@.subrange(0, i + 1 as int)));
            }
        }
        i = i + 1;
    }
    proof {
        assert(s@.subrange(0, n as int) =~= s@);
    }
    out
}

/// Collapses runs of dashes.
fn collapse_dashes(s: &str) -> (r: String)
    ensures
        r@ == spec_collapse_dashes(s@),
{
    let n = s.unicode_len();
    let mut out = String::new();
    proof {
        assert(s@.subrange(0, n as int) =~= s@);
        assert(Seq::<char>::empty() + spec_collapse_dashes(s@) =~= spec_collapse_dashes(s@));
    }
    let mut i: usize = 0;
    while i < n
        invariant
            n == s@.len(),
            i <= n,
            spec_collapse_dashes(s@) == out@ + spec_collapse_dashes(
                s@.subrange(i as int, n as int),
            ),
        decreases n - i,
    {
        let c = s.get_char(i);
        let skip = c == '-' && i + 1 < n && s.get_char(i + 1) == '-';
        proof {
            let suf = s@.subrange(i as int, n as int);
            assert(suf[0] == s@[i as int]);
            if i + 1 < n {
                assert(suf[1] == s@[i + 1]);
            }
            assert(suf.subrange(1, suf.len() as int) =~= s@.subrange(i + 1 as int, n as int));
        }
        if !skip {
            let ghost prev = out@;
            out.push(c);
            proof {
                let tail = spec_collapse_dashes(s@.subrange(i + 1 as int, n as int));
                assert(out@ + tail =~= prev + (seq![s@[i as int]] + tail));
            }
        }
        i = i + 1;
    }
    proof {
        assert(s@.subrange(n as int, n as int) =~= Seq::<char>::empty());
        assert(out@ + Seq::<char>::empty() =~= out@);
    }
    out
}

/// Trims leading and trailing dashes.
fn trim_dashes(s: &str) -> (r: String)
    ensures
        r@ == spec_trim_dashes(s@),
{
    proof {
        lemma_dash_start_idx_bounds(s@);
        lemma_dash_end_idx_bounds(s@);
    }
    let n = s.unicode_len();
    let mut a: usize = 0;
    while a < n && s.get_char(a) == '-'
        invariant
            n == s@.len(),
            a <= n,
            forall|j: int| 0 <= j < a ==> s@[j] == '-',
            a <= spec_dash_start_idx(s@),
        decreases n - a,
    {
        proof {
            lemma_dash_start_idx_bounds(s@);
            if a + 1 > spec_dash_start_idx(s@) {
                assert(s@[spec_dash_start_idx(s@)] != '-');
            }
        }
        a = a + 1;
    }
    proof {
        lemma_dash_start_idx_bounds(s@);
        if a < n {
            assert(a == spec_dash_start_idx(s@));
        }
    }
    if a == n {
        proof {
            if spec_dash_start_idx(s@) < spec_dash_end_idx(s@) {
                assert(s@[spec_dash_start_idx(s@)] == '-');
            }
        }
        return String::new();
    }
    let mut b: usize = n;
    while b > a && s.get_char(b - 1) == '-'
        invariant
            n == s@.len(),
            a < n,
            a == spec_dash_start_idx(s@),
            s@[a as int] != '-',
            a <= b <= n,
            forall|j: int| b <= j < n ==> s@[j] == '-',
            spec_dash_end_idx(s@) <= b,
        decreases b,
    {
        proof {
            lemma_dash_end_idx_bounds(s@);
            if b - 1 < spec_dash_end_idx(s@) {
                assert(s@[spec_dash_end_idx(s@) - 1] == '-');
            }
        }
        b = b - 1;
    }
    proof {
        lemma_dash_end_idx_bounds(s@);
        assert(b == spec_dash_end_idx(s@)) by {
            if b > a {
                if b > spec_dash_end_idx(s@) {
                    assert(s@[b - 1] == '-');
                }
            } else {
                assert(b == a);
                assert(s@[a as int] != '-');
            }
        }
    }
    let mut out = String::new();
    let mut i: usize = a;
    while i < b
        invariant
            n == s@.len(),
            a <= i <= b <= n,
            out@ == s@.subrange(a as int, i as int),
        decreases b - i,
    {
        out.push(s.get_char(i));
        proof {
            assert(s@.subrange(a as int, i + 1 as int) =~= s@.subrange(a as int, i as int).push(
                s@[i as int],
            ));
        }
        i = i + 1;
    }
    out
}

/// The sanitized form of a name: trim, cap at `cap` characters, keep
/// `[A-Za-z0-9_-]`, map whitespace to `-`, collapse dash runs, trim dashes.
/// An empty result falls back to `fallback`.
pub open spec fn spec_sanitized_name(raw: Seq<char>, cap: int, fallback: Seq<char>) -> Seq<char> {
    let t = spec_trim(raw);
    if t.len() == 0 {
        fallback
    } else {
        let cleaned = spec_trim_dashes(spec_collapse_dashes(spec_name_filter(spec_take(t, cap))));
        if cleaned.len() == 0 {
            fallback
        } else {
            cleaned
        }
    }
}

fn sanitize_name_with(raw: &str, cap: usize, fallback: &str) -> (r: String)
    ensures
        r@ == spec_sanitized_name(raw@, cap as int, fallback@),
{
    let trimmed = trim_str(raw);
    if trimmed.unicode_len() == 0 {
        let mut out = String::new();
        out.append(fallback);
        return out;
    }
    let capped = take_chars(trimmed.as_str(), cap);
    let filtered = name_filter(capped.as_str());
    let collapsed = collapse_dashes(filtered.as_str());
    let cleaned = trim_dashes(collapsed.as_str());
    if cleaned.unicode_len() == 0 {
        let mut out = String::new();
        out.append(fallback);
        return out;
    }
    cleaned
}

/// Sanitizes a project directory name; empty and missing names fall back to
/// `cursed-clipper-import`.
pub fn sanitize_project_name(value: Option<String>) -> (r: String)
    ensures
        match value {
            Option::Some(raw) => r@ == spec_sanitized_name(
                raw@,
                72,
                "cursed-clipper-import"@,
            ),
            Option::None => r@ == "cursed-clipper-import"@,
        },
{
    match value {
        None => {
            let mut out = String::new();
            out.append("cursed-clipper-import");
            out
        },
        Some(raw) => sanitize_name_with(raw.as_str(), 72, "cursed-clipper-import"),
    }
}

/// Sanitizes a file stem; empty results fall back to `video`.
pub fn sanitize_file_stem(value: &str) -> (r: String)
    ensures
        r@ == spec_sanitized_name(value@, 96, "video"@),
{
    sanitize_name_with(value, 96, "video")
}

/// True when the text ends in `.`, `!` or `?`.
pub fn is_sentence_boundary(value: &str) -> (r: bool)
    ensures
        r == (value@.len() > 0 && (value@.last() == '.' || value@.last() == '!' || value@.last()
            == '?')),
{
    let n = value.unicode_len();
    if n == 0 {
        return false;
    }
    let c = value.get_char(n - 1);
    c == '.' || c == '!' || c == '?'
}

/// True when the token ends a sentence: `.`, `!`, `?` or an ellipsis.
pub fn is_sentence_boundary_token(value: &str) -> (r: bool)
    ensures
        r == (value@.len() > 0 && (value@.last() == '.' || value@.last() == '!' || value@.last()
            == '?' || value@.last() == '\u{2026}')),
{
    let n = value.unicode_len();
    if n == 0 {
        return false;
    }
    let c = value.get_char(n - 1);
    c == '.' || c == '!' || c == '?' || c == '\u{2026}'
}

} // verus!

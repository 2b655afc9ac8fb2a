//! Character classification, string comparison and decimal formatting
//! utilities used throughout the pipeline.

use vstd::prelude::*;

verus! {

// ---------------------------------------------------------------------------
// Trusted classification of characters. The pipeline sanitizes user text by
// Unicode character classes; those classes are named here and the standard
// library's classifiers are trusted to compute them.
// ---------------------------------------------------------------------------

/// The Unicode `White_Space` property, written out as its fixed set of code
/// points.
pub open spec fn unicode_whitespace(c: char) -> bool {
    c == ' ' || c == '\t' || c == '\n' || c == '\u{b}' || c == '\u{c}' || c == '\r' || c
        == '\u{85}' || c == '\u{a0}' || c == '\u{1680}' || ('\u{2000}' <= c && c <= '\u{200a}') || c
        == '\u{2028}' || c == '\u{2029}' || c == '\u{202f}' || c == '\u{205f}' || c == '\u{3000}'
}

pub uninterp spec fn unicode_alphabetic(c: char) -> bool;

pub uninterp spec fn unicode_uppercase(c: char) -> bool;

/// The C0 and C1 control character ranges.
pub open spec fn unicode_control(c: char) -> bool {
    c <= '\u{1f}' || ('\u{7f}' <= c && c <= '\u{9f}')
}

/// Relies on char::is_whitespace: true exactly on the `White_Space` set.
pub assume_specification[ char::is_whitespace ](c: char) -> (r: bool)
    ensures
        r == unicode_whitespace(c),
;

/// Relies on char::is_alphabetic: Alphabetic is a property of the character alone.
pub assume_specification[ char::is_alphabetic ](c: char) -> (r: bool)
    ensures
        r == unicode_alphabetic(c),
;

/// Relies on char::is_uppercase: Uppercase is a property of the character alone.
pub assume_specification[ char::is_uppercase ](c: char) -> (r: bool)
    ensures
        r == unicode_uppercase(c),
;

/// Relies on char::is_control: true exactly on the C0 and C1 control ranges.
pub assume_specification[ char::is_control ](c: char) -> (r: bool)
    ensures
        r == unicode_control(c),
;

/// Relies on String::push: appends exactly the one character.
pub assume_specification[ String::push ](s: &mut String, c: char)
    ensures
        final(s)@ == old(s)@.push(c),
;

pub uninterp spec fn upper_of(s: Seq<char>) -> Seq<char>;

/// Relies on str::to_uppercase: the result depends on the characters alone,
/// and each character maps to at least one uppercase character.
#[verifier::external_body]
pub(crate) fn to_upper_string(s: &str) -> (r: String)
    ensures
        r@ == upper_of(s@),
        (r@.len() == 0) == (s@.len() == 0),
{
    s.to_uppercase()
}

// ---------------------------------------------------------------------------
// ASCII character helpers, written out so that their meaning is fully stated.
// ---------------------------------------------------------------------------

pub open spec fn spec_ascii_digit(c: char) -> bool {
    '0' <= c && c <= '9'
}

pub fn is_ascii_digit_char(c: char) -> (r: bool)
    ensures
        r == spec_ascii_digit(c),
{
    '0' <= c && c <= '9'
}

pub open spec fn spec_ascii_alphanumeric(c: char) -> bool {
    ('0' <= c && c <= '9') || ('a' <= c && c <= 'z') || ('A' <= c && c <= 'Z')
}

pub fn is_ascii_alphanumeric_char(c: char) -> (r: bool)
    ensures
        r == spec_ascii_alphanumeric(c),
{
    ('0' <= c && c <= '9') || ('a' <= c && c <= 'z') || ('A' <= c && c <= 'Z')
}

pub open spec fn spec_ascii_hex_digit(c: char) -> bool {
    ('0' <= c && c <= '9') || ('a' <= c && c <= 'f') || ('A' <= c && c <= 'F')
}

pub fn is_ascii_hex_digit_char(c: char) -> (r: bool)
    ensures
        r == spec_ascii_hex_digit(c),
{
    ('0' <= c && c <= '9') || ('a' <= c && c <= 'f') || ('A' <= c && c <= 'F')
}

pub open spec fn spec_lower_char(c: char) -> char {
    if 'A' <= c && c <= 'Z' {
        ((c as u8) + 32) as char
    } else {
        c
    }
}

pub fn ascii_lower_char(c: char) -> (r: char)
    ensures
        r == spec_lower_char(c),
{
    if 'A' <= c && c <= 'Z' {
        ((c as u8) + 32) as char
    } else {
        c
    }
}

pub open spec fn spec_lower(s: Seq<char>) -> Seq<char> {
    s.map_values(|c: char| spec_lower_char(c))
}

/// ASCII-lowercases a string; characters outside `A..Z` are kept.
pub fn ascii_lower(s: &str) -> (r: String)
    ensures
        r@ == spec_lower(s@),
{
    let n = s.unicode_len();
    let mut out = String::new();
    let mut i: usize = 0;
    while i < n
        invariant
            n == s@.len(),
            i <= n,
            out@ == spec_lower(s@.subrange(0, i as int)),
        decreases n - i,
    {
        let c = s.get_char(i);
        out.push(ascii_lower_char(c));
        proof {
            assert(s@.subrange(0, i + 1 as int).map_values(|c: char| spec_lower_char(c))
                =~= s@.subrange(0, i as int).map_values(|c: char| spec_lower_char(c)).push(
                spec_lower_char(s@[i as int]),
            ));
        }
        i = i + 1;
    }
    proof {
        assert(s@.subrange(0, n as int) =~= s@);
    }
    out
}

// ---------------------------------------------------------------------------
// String comparison and affix tests.
// ---------------------------------------------------------------------------

/// Character-for-character string equality.
pub fn str_eq(a: &str, b: &str) -> (r: bool)
    ensures
        r == (a@ == b@),
{
    let an = a.unicode_len();
    let bn = b.unicode_len();
    if an != bn {
        proof {
            assert(a@ != b@) by {
                if a@ == b@ {
                    assert(a@.len() == b@.len());
                }
            }
        }
        return false;
    }
    let mut i: usize = 0;
    while i < an
        invariant
            an == a@.len(),
            an == b@.len(),
            i <= an,
            forall|j: int| 0 <= j < i ==> a@[j] == b@[j],
        decreases an - i,
    {
        if a.get_char(i) != b.get_char(i) {
            return false;
        }
        i = i + 1;
    }
    proof {
        assert(a@ =~= b@);
    }
    true
}

pub open spec fn spec_starts_with(s: Seq<char>, p: Seq<char>) -> bool {
    p.len() <= s.len() && s.subrange(0, p.len() as int) == p
}

pub fn starts_with_str(s: &str, p: &str) -> (r: bool)
    ensures
        r == spec_starts_with(s@, p@),
{
    let sn = s.unicode_len();
    let pn = p.unicode_len();
    if pn > sn {
        return false;
    }
    let mut i: usize = 0;
    while i < pn
        invariant
            sn == s@.len(),
            pn == p@.len(),
            pn <= sn,
            i <= pn,
            forall|j: int| 0 <= j < i ==> s@[j] == p@[j],
        decreases pn - i,
    {
        if s.get_char(i) != p.get_char(i) {
            proof {
                assert(s@.subrange(0, pn as int)[i as int] != p@[i as int]);
            }
            return false;
        }
        i = i + 1;
    }
    proof {
        assert(s@.subrange(0, pn as int) =~= p@);
    }
    true
}

pub open spec fn spec_ends_with(s: Seq<char>, p: Seq<char>) -> bool {
    p.len() <= s.len() && s.subrange(s.len() - p.len(), s.len() as int) == p
}

pub fn ends_with_str(s: &str, p: &str) -> (r: bool)
    ensures
        r == spec_ends_with(s@, p@),
{
    let sn = s.unicode_len();
    let pn = p.unicode_len();
    if pn > sn {
        return false;
    }
    let base = sn - pn;
    let mut i: usize = 0;
    while i < pn
        invariant
            sn == s@.len(),
            pn == p@.len(),
            pn <= sn,
            base == sn - pn,
            i <= pn,
            forall|j: int| 0 <= j < i ==> s@[base + j] == p@[j],
        decreases pn - i,
    {
        if s.get_char(base + i) != p.get_char(i) {
            proof {
                assert(s@.subrange(base as int, sn as int)[i as int] != p@[i as int]);
            }
            return false;
        }
        i = i + 1;
    }
    proof {
        assert(s@.subrange(base as int, sn as int) =~= p@);
    }
    true
}

/// Case-insensitive (ASCII) equality.
pub fn eq_ignore_ascii_case_str(a: &str, b: &str) -> (r: bool)
    ensures
        r == (spec_lower(a@) == spec_lower(b@)),
{
    let la = ascii_lower(a);
    let lb = ascii_lower(b);
    str_eq(la.as_str(), lb.as_str())
}

// ---------------------------------------------------------------------------
// Trimming.
// ---------------------------------------------------------------------------

pub open spec fn spec_trim_start_idx(s: Seq<char>) -> int
    decreases s.len(),
{
    if s.len() == 0 {
        0
    } else if unicode_whitespace(s[0]) {
        1 + spec_trim_start_idx(s.subrange(1, s.len() as int))
    } else {
        0
    }
}

pub open spec fn spec_trim_end_idx(s: Seq<char>) -> int
    decreases s.len(),
{
    if s.len() == 0 {
        0
    } else if unicode_whitespace(s[s.len() - 1]) {
        spec_trim_end_idx(s.subrange(0, s.len() - 1))
    } else {
        s.len() as int
    }
}

/// The whitespace-trimmed view of a string: the subrange from the first
/// non-whitespace character through the last one.
pub open spec fn spec_trim(s: Seq<char>) -> Seq<char> {
    let a = spec_trim_start_idx(s);
    let b = spec_trim_end_idx(s);
    if a < b {
        s.subrange(a, b)
    } else {
        Seq::empty()
    }
}

proof fn lemma_trim_start_idx_bounds(s: Seq<char>)
    ensures
        0 <= spec_trim_start_idx(s) <= s.len(),
        forall|j: int| 0 <= j < spec_trim_start_idx(s) ==> unicode_whitespace(s[j]),
        spec_trim_start_idx(s) < s.len() ==> !unicode_whitespace(s[spec_trim_start_idx(s)]),
    decreases s.len(),
{
    if s.len() > 0 && unicode_whitespace(s[0]) {
        lemma_trim_start_idx_bounds(s.subrange(1, s.len() as int));
        let t = s.subrange(1, s.len() as int);
        assert forall|j: int| 0 <= j < spec_trim_start_idx(s) implies unicode_whitespace(
            s[j],
        ) by {
            if j > 0 {
                assert(t[j - 1] == s[j]);
            }
        }
        if spec_trim_start_idx(s) < s.len() {
            assert(t[spec_trim_start_idx(t)] == s[spec_trim_start_idx(s)]);
        }
    }
}

proof fn lemma_trim_end_idx_bounds(s: Seq<char>)
    ensures
        0 <= spec_trim_end_idx(s) <= s.len(),
        forall|j: int| spec_trim_end_idx(s) <= j < s.len() ==> unicode_whitespace(s[j]),
        spec_trim_end_idx(s) > 0 ==> !unicode_whitespace(s[spec_trim_end_idx(s) - 1]),
    decreases s.len(),
{
    if s.len() > 0 && unicode_whitespace(s[s.len() - 1]) {
        lemma_trim_end_idx_bounds(s.subrange(0, s.len() - 1));
        let t = s.subrange(0, s.len() - 1);
        assert forall|j: int| spec_trim_end_idx(s) <= j < s.len() implies unicode_whitespace(
            s[j],
        ) by {
            if j < s.len() - 1 {
                assert(t[j] == s[j]);
            }
        }
        if spec_trim_end_idx(s) > 0 {
            assert(t[spec_trim_end_idx(t) - 1] == s[spec_trim_end_idx(s) - 1]);
        }
    }
}

/// Removes leading and trailing whitespace.
pub fn trim_str(s: &str) -> (r: String)
    ensures
        r@ == spec_trim(s@),
{
    proof {
        lemma_trim_start_idx_bounds(s@);
        lemma_trim_end_idx_bounds(s@);
    }
    let n = s.unicode_len();
    let mut a: usize = 0;
    while a < n && s.get_char(a).is_whitespace()
        invariant
            n == s@.len(),
            a <= n,
            forall|j: int| 0 <= j < a ==> unicode_whitespace(s@[j]),
            a <= spec_trim_start_idx(s@),
        decreases n - a,
    {
        proof {
            lemma_trim_start_idx_bounds(s@);
            if a + 1 > spec_trim_start_idx(s@) {
                assert(!unicode_whitespace(s@[spec_trim_start_idx(s@)]));
            }
        }
        a = a + 1;
    }
    proof {
        lemma_trim_start_idx_bounds(s@);
        if a < n {
            assert(a == spec_trim_start_idx(s@));
        }
    }
    if a == n {
        proof {
            if spec_trim_start_idx(s@) < spec_trim_end_idx(s@) {
                assert(unicode_whitespace(s@[spec_trim_start_idx(s@)]));
            }
        }
        return String::new();
    }
    let mut b: usize = n;
    while b > a && s.get_char(b - 1).is_whitespace()
        invariant
            n == s@.len(),
            a < n,
            a == spec_trim_start_idx(s@),
            !unicode_whitespace(s@[a as int]),
            a <= b <= n,
            forall|j: int| b <= j < n ==> unicode_whitespace(s@[j]),
            spec_trim_end_idx(s@) <= b,
        decreases b,
    {
        proof {
            lemma_trim_end_idx_bounds(s@);
            if b - 1 < spec_trim_end_idx(s@) {
                assert(unicode_whitespace(s@[spec_trim_end_idx(s@) - 1]));
            }
        }
        b = b - 1;
    }
    proof {
        lemma_trim_end_idx_bounds(s@);
        assert(b == spec_trim_end_idx(s@)) by {
            if b > a {
                if b > spec_trim_end_idx(s@) {
                    assert(unicode_whitespace(s@[b - 1]));
                }
            } else {
                assert(b == a);
                assert(!unicode_whitespace(s@[a as int]));
            }
        }
    }
    let mut out = String::new();
    let mut i: usize = a;
    while i < b
        invariant
            n == s@.len(),
            a <= i <= b <= n,
            out@ == s@.subrange(a as int, i as int),
        decreases b - i,
    {
        out.push(s.get_char(i));
        proof {
            assert(s@.subrange(a as int, i + 1 as int) =~= s@.subrange(a as int, i as int).push(
                s@[i as int],
            ));
        }
        i = i + 1;
    }
    out
}

/// Bounds a product by the product of the bounds.
pub proof fn lemma_mul_le_bounds(a: int, b: int, ca: int, cb: int)
    by (nonlinear_arith)
    requires
        0 <= a <= ca,
        0 <= b <= cb,
    ensures
        a * b <= ca * cb,
{
}

/// A product of two positive factors is positive.
pub proof fn lemma_mul_ge_one(a: int, b: int)
    by (nonlinear_arith)
    requires
        1 <= a,
        1 <= b,
    ensures
        1 <= a * b,
{
}

/// A string with no leading or trailing whitespace is untouched by trimming.
pub proof fn lemma_trim_fixed(s: Seq<char>)
    requires
        s.len() > 0,
        !unicode_whitespace(s[0]),
        !unicode_whitespace(s[s.len() - 1]),
    ensures
        spec_trim(s) == s,
{
    assert(spec_trim_start_idx(s) == 0);
    assert(spec_trim_end_idx(s) == s.len());
    assert(s.subrange(0, s.len() as int) =~= s);
}

/// Trimming is idempotent.
pub proof fn lemma_trim_idempotent(s: Seq<char>)
    ensures
        spec_trim(spec_trim(s)) == spec_trim(s),
{
    lemma_trim_start_idx_bounds(s);
    lemma_trim_end_idx_bounds(s);
    let a = spec_trim_start_idx(s);
    let b = spec_trim_end_idx(s);
    let t = spec_trim(s);
    if a < b {
        assert(t[0] == s[a]);
        assert(!unicode_whitespace(s[a])) by {
            if a == s.len() {
                assert(false);
            }
        }
        assert(t[t.len() - 1] == s[b - 1]);
        assert(!unicode_whitespace(s[b - 1]));
        assert(spec_trim_start_idx(t) == 0);
        assert(spec_trim_end_idx(t) == t.len());
        assert(t.subrange(0, t.len() as int) =~= t);
    } else {
        assert(t.len() == 0);
        assert(spec_trim_start_idx(t) == 0);
        assert(spec_trim_end_idx(t) == 0);
    }
}

/// ASCII lowercasing is idempotent.
pub proof fn lemma_lower_idempotent(s: Seq<char>)
    ensures
        spec_lower(spec_lower(s)) == spec_lower(s),
{
    assert forall|j: int| 0 <= j < s.len() implies spec_lower_char(spec_lower_char(s[j]))
        == spec_lower_char(s[j]) by {
        let c = s[j];
        if 'A' <= c && c <= 'Z' {
            assert(65 <= c as u8 <= 90);
            assert(!('A' <= spec_lower_char(c) && spec_lower_char(c) <= 'Z'));
        }
    }
    assert(spec_lower(spec_lower(s)) =~= spec_lower(s));
}

/// Copies a string slice into an owned string.
pub fn copy_str(s: &str) -> (r: String)
    ensures
        r@ == s@,
{
    let mut out = String::new();
    out.append(s);
    out
}

/// Copies an optional string, keeping its view.
pub fn copy_opt_string(v: &Option<String>) -> (r: Option<String>)
    ensures
        match v {
            Option::Some(s) => r matches Option::Some(t) && t@ == s@,
            Option::None => r is None,
        },
{
    match v {
        Option::Some(s) => Some(copy_str(s.as_str())),
        Option::None => None,
    }
}

/// The views of a sequence of strings.
pub open spec fn views_of_strings(v: Seq<String>) -> Seq<Seq<char>> {
    v.map_values(|s: String| s@)
}

// ---------------------------------------------------------------------------
// Decimal rendering of unsigned integers.
// ---------------------------------------------------------------------------

pub open spec fn spec_digit_char(d: int) -> char {
    ((48 + d) as u8) as char
}

/// The decimal digit sequence of `n`, most significant first.
pub open spec fn spec_u64_digits(n: int) -> Seq<char>
    decreases n,
{
    if n < 10 {
        seq![spec_digit_char(n)]
    } else {
        spec_u64_digits(n / 10).push(spec_digit_char(n % 10))
    }
}

/// Renders `n` in decimal.
pub fn u64_to_string(n: u64) -> (r: String)
    ensures
        r@ == spec_u64_digits(n as int),
        r@.len() >= 1,
    decreases n,
{
    if n < 10 {
        let mut s = String::new();
        s.push(((48 + n) as u8) as char);
        proof {
            assert(s@ =~= seq![spec_digit_char(n as int)]);
        }
        s
    } else {
        let mut s = u64_to_string(n / 10);
        s.push(((48 + (n % 10)) as u8) as char);
        s
    }
}

// ---------------------------------------------------------------------------
// Decimal parsing.
// ---------------------------------------------------------------------------

pub open spec fn spec_all_digits(s: Seq<char>) -> bool {
    forall|j: int| 0 <= j < s.len() ==> spec_ascii_digit(s[j])
}

/// The numeric value of a digit sequence, most significant first.
pub open spec fn spec_dec_value(s: Seq<char>) -> int
    decreases s.len(),
{
    if s.len() == 0 {
        0
    } else {
        spec_dec_value(s.subrange(0, s.len() - 1)) * 10 + (s[s.len() - 1] as int - 48)
    }
}

proof fn lemma_dec_value_nonneg(s: Seq<char>)
    requires
        spec_all_digits(s),
    ensures
        spec_dec_value(s) >= 0,
    decreases s.len(),
{
    if s.len() > 0 {
        let p = s.subrange(0, s.len() - 1);
        assert(spec_all_digits(p));
        lemma_dec_value_nonneg(p);
    }
}

/// Parses an unsigned decimal integer; rejects empty strings, non-digits and
/// values that do not fit in a `u64`.
pub fn parse_u64_digits(s: &str) -> (r: Option<u64>)
    ensures
        match r {
            Some(v) => s@.len() > 0 && spec_all_digits(s@) && v == spec_dec_value(s@),
            None => s@.len() == 0 || !spec_all_digits(s@) || spec_dec_value(s@) > u64::MAX,
        },
{
    let n = s.unicode_len();
    if n == 0 {
        return None;
    }
    let mut acc: u64 = 0;
    let mut i: usize = 0;
    while i < n
        invariant
            n == s@.len(),
            i <= n,
            spec_all_digits(s@.subrange(0, i as int)),
            acc == spec_dec_value(s@.subrange(0, i as int)),
        decreases n - i,
    {
        let c = s.get_char(i);
        if !is_ascii_digit_char(c) {
            return None;
        }
        let d = (c as u32 - 48) as u64;
        proof {
            assert(s@.subrange(0, i + 1 as int) =~= s@.subrange(0, i as int).push(s@[i as int]));
            assert(s@.subrange(0, i + 1 as int).subrange(0, i as int) =~= s@.subrange(0, i as int));
        }
        if acc > (u64::MAX - d) / 10 {
            proof {
                let pref = s@.subrange(0, i + 1 as int);
                assert(spec_dec_value(pref) > u64::MAX);
                if spec_all_digits(s@) {
                    lemma_dec_value_prefix_le(s@, (i + 1) as int);
                }
            }
            return None;
        }
        acc = acc * 10 + d;
        i = i + 1;
    }
    proof {
        assert(s@.subrange(0, n as int) =~= s@);
    }
    Some(acc)
}

/// A digit sequence's value is at least the value of any of its prefixes,
/// provided the remaining characters are digits.
proof fn lemma_dec_value_prefix_le(s: Seq<char>, k: int)
    requires
        0 <= k <= s.len(),
        spec_all_digits(s),
    ensures
        spec_dec_value(s.subrange(0, k)) <= spec_dec_value(s),
    decreases s.len() - k,
{
    if k < s.len() {
        lemma_dec_value_prefix_le(s, k + 1);
        let p = s.subrange(0, k + 1);
        assert(p.subrange(0, p.len() - 1) =~= s.subrange(0, k));
        assert(spec_all_digits(s.subrange(0, k)));
        lemma_dec_value_nonneg(s.subrange(0, k));
        assert(p[p.len() - 1] == s[k]);
        assert(spec_ascii_digit(s[k]));
        assert(spec_dec_value(p) == spec_dec_value(s.subrange(0, k)) * 10 + (s[k] as int - 48));
    } else {
        assert(s.subrange(0, k) =~= s);
    }
}

} // verus!

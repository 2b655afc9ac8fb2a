//! Render resolution selection: aspect-ratio parsing and even-dimension
//! alignment for the export encoder.
//!
//! Aspect ratios are held as exact rationals. A decimal component is read
//! with up to six fraction digits and must stay below `10^9` scaled units;
//! within those bounds the arithmetic below is exact.

use vstd::prelude::*;
use crate::strutil::{
    spec_trim, spec_all_digits, spec_dec_value, trim_str, parse_u64_digits, spec_ascii_digit,
    is_ascii_digit_char,
};
use crate::text::{spec_take, take_chars};

verus! {

pub open spec fn spec_abs(v: int) -> int {
    if v < 0 {
        -v
    } else {
        v
    }
}

// ---------------------------------------------------------------------------
// Character scanning helpers.
// ---------------------------------------------------------------------------

/// Index of the first occurrence of `c` in `s`, or `s.len()` when absent.
pub open spec fn spec_find_char(s: Seq<char>, c: char) -> int
    decreases s.len(),
{
    if s.len() == 0 {
        0
    } else if s[0] == c {
        0
    } else {
        1 + spec_find_char(s.subrange(1, s.len() as int), c)
    }
}

pub proof fn lemma_find_char_bounds(s: Seq<char>, c: char)
    ensures
        0 <= spec_find_char(s, c) <= s.len(),
        forall|j: int| 0 <= j < spec_find_char(s, c) ==> s[j] != c,
        spec_find_char(s, c) < s.len() ==> s[spec_find_char(s, c)] == c,
    decreases s.len(),
{
    if s.len() > 0 && s[0] != c {
        let t = s.subrange(1, s.len() as int);
        lemma_find_char_bounds(t, c);
        assert forall|j: int| 0 <= j < spec_find_char(s, c) implies s[j] != c by {
            if j > 0 {
                assert(t[j - 1] == s[j]);
            }
        }
        if spec_find_char(s, c) < s.len() {
            assert(t[spec_find_char(t, c)] == s[spec_find_char(s, c)]);
        }
    }
}

pub fn find_char(s: &str, c: char) -> (r: usize)
    ensures
        r == spec_find_char(s@, c),
{
    proof {
        lemma_find_char_bounds(s@, c);
    }
    let n = s.unicode_len();
    let mut i: usize = 0;
    while i < n && s.get_char(i) != c
        invariant
            n == s@.len(),
            i <= n,
            forall|j: int| 0 <= j < i ==> s@[j] != c,
            i <= spec_find_char(s@, c),
        decreases n - i,
    {
        proof {
            lemma_find_char_bounds(s@, c);
            if i + 1 > spec_find_char(s@, c) {
                assert(s@[spec_find_char(s@, c)] == c);
            }
        }
        i = i + 1;
    }
    proof {
        lemma_find_char_bounds(s@, c);
        if i < n {
            assert(i == spec_find_char(s@, c));
        }
    }
    i
}

/// `s` with every ASCII space removed.
pub open spec fn spec_remove_spaces(s: Seq<char>) -> Seq<char>
    decreases s.len(),
{
    if s.len() == 0 {
        Seq::empty()
    } else {
        let rest = spec_remove_spaces(s.subrange(1, s.len() as int));
        if s[0] == ' ' {
            rest
        } else {
            seq![s[0]] + rest
        }
    }
}

proof fn lemma_remove_spaces_concat(a: Seq<char>, b: Seq<char>)
    ensures
        spec_remove_spaces(a + b) == spec_remove_spaces(a) + spec_remove_spaces(b),
    decreases a.len(),
{
    if a.len() == 0 {
        assert(a + b =~= b);
        assert(spec_remove_spaces(a) + spec_remove_spaces(b) =~= spec_remove_spaces(b));
    } else {
        let t = a.subrange(1, a.len() as int);
        lemma_remove_spaces_concat(t, b);
        assert((a + b).subrange(1, (a + b).len() as int) =~= t + b);
        assert((a + b)[0] == a[0]);
        if a[0] != ' ' {
            assert(seq![a[0]] + (spec_remove_spaces(t) + spec_remove_spaces(b)) =~= (seq![a[0]]
                + spec_remove_spaces(t)) + spec_remove_spaces(b));
        }
    }
}

fn remove_spaces(s: &str) -> (r: String)
    ensures
        r@ == spec_remove_spaces(s@),
{
    let n = s.unicode_len();
    let mut out = String::new();
    let mut i: usize = 0;
    while i < n
        invariant
            n == s@.len(),
            i <= n,
            out@ == spec_remove_spaces(s@.subrange(0, i as int)),
        decreases n - i,
    {
        let c = s.get_char(i);
        proof {
            assert(s@.subrange(0, i + 1 as int) =~= s@.subrange(0, i as int) + seq![s@[i as int]]);
            lemma_remove_spaces_concat(s@.subrange(0, i as int), seq![s@[i as int]]);
            assert(seq![s@[i as int]].subrange(1, 1) =~= Seq::<char>::empty());
            assert(spec_remove_spaces(Seq::<char>::empty()) =~= Seq::<char>::empty());
            if s@[i as int] != ' ' {
                assert(seq![s@[i as int]] + Seq::<char>::empty() =~= seq![s@[i as int]]);
            }
        }
        if c != ' ' {
            out.push(c);
        }
        proof {
            assert(out@ =~= spec_remove_spaces(s@.subrange(0, i + 1 as int)));
        }
        i = i + 1;
    }
    proof {
        assert(s@.subrange(0, n as int) =~= s@);
    }
    out
}

// ---------------------------------------------------------------------------
// Decimal aspect components.
// ---------------------------------------------------------------------------

pub open spec fn spec_pow10(k: int) -> int
    decreases k,
{
    if k <= 0 {
        1
    } else {
        10 * spec_pow10(k - 1)
    }
}

pub fn pow10_exec(k: usize) -> (r: u64)
    requires
        k <= 6,
    ensures
        r == spec_pow10(k as int),
        1 <= r <= 1000000,
{
    proof {
        reveal_with_fuel(spec_pow10, 8);
    }
    if k == 0 {
        1
    } else if k == 1 {
        10
    } else if k == 2 {
        100
    } else if k == 3 {
        1000
    } else if k == 4 {
        10000
    } else if k == 5 {
        100000
    } else {
        1000000
    }
}

pub proof fn lemma_pow10_pos(k: int)
    requires
        k >= 0,
    ensures
        spec_pow10(k) >= 1,
    decreases k,
{
    if k > 0 {
        lemma_pow10_pos(k - 1);
    }
}

pub proof fn lemma_pow10_mono(a: int, b: int)
    requires
        0 <= a <= b,
    ensures
        spec_pow10(a) <= spec_pow10(b),
    decreases b,
{
    if a < b {
        lemma_pow10_mono(a, b - 1);
        lemma_pow10_pos(b - 1);
    }
}

/// A digit string's value is below ten to its length.
pub proof fn lemma_dec_value_pow_bound(s: Seq<char>)
    requires
        spec_all_digits(s),
    ensures
        0 <= spec_dec_value(s) < spec_pow10(s.len() as int),
    decreases s.len(),
{
    if s.len() > 0 {
        let p = s.subrange(0, s.len() - 1);
        assert(spec_all_digits(p));
        lemma_dec_value_pow_bound(p);
        assert(spec_ascii_digit(s[s.len() - 1]));
    }
}

/// A digit string of at most fifteen digits stays below `10^15`.
pub proof fn lemma_dec_value_len15_bound(s: Seq<char>)
    requires
        spec_all_digits(s),
        s.len() <= 15,
    ensures
        0 <= spec_dec_value(s) < 1000000000000000,
{
    lemma_dec_value_pow_bound(s);
    lemma_pow10_mono(s.len() as int, 15);
    reveal_with_fuel(spec_pow10, 16);
}

/// The value of a decimal component: its digits (fraction truncated to six
/// places) as an integer, with the applied power-of-ten scale. Rejects
/// non-digits, zero, and values at or above `10^9` scaled units.
pub open spec fn spec_parse_side(s: Seq<char>) -> Option<(int, int)> {
    let i = spec_find_char(s, '.');
    let intp = s.subrange(0, i);
    let frac = if i < s.len() {
        s.subrange(i + 1, s.len() as int)
    } else {
        Seq::empty()
    };
    let digits = intp + spec_take(frac, 6);
    if spec_all_digits(intp) && spec_all_digits(frac) && digits.len() > 0 && 0 < spec_dec_value(
        digits,
    ) < 1000000000 {
        Option::Some((spec_dec_value(digits), spec_pow10(spec_take(frac, 6).len() as int)))
    } else {
        Option::None
    }
}

fn parse_side(s: &str) -> (r: Option<(u64, u64)>)
    ensures
        match r {
            Option::Some((v, scale)) => spec_parse_side(s@) == Option::Some((v as int, scale as int))
                && 1 <= v < 1000000000 && 1 <= scale <= 1000000,
            Option::None => spec_parse_side(s@) is None,
        },
{
    let n = s.unicode_len();
    let dot = find_char(s, '.');
    proof {
        lemma_find_char_bounds(s@, '.');
    }
    let intp = s.substring_char(0, dot);
    let mut frac = String::new();
    if dot < n {
        frac.append(s.substring_char(dot + 1, n));
    }
    proof {
        if dot < n {
            assert(frac@ == s@.subrange(dot + 1, n as int));
        } else {
            assert(frac@ =~= Seq::<char>::empty());
        }
    }
    // Every fraction digit must be a digit, even beyond the kept six.
    let fn_len = frac.unicode_len();
    let mut frac_ok = true;
    let mut i: usize = 0;
    while i < fn_len
        invariant
            fn_len == frac@.len(),
            i <= fn_len,
            frac_ok ==> spec_all_digits(frac@.subrange(0, i as int)),
            !frac_ok ==> !spec_all_digits(frac@),
        decreases fn_len - i,
    {
        proof {
            assert(frac@.subrange(0, i + 1 as int) =~= frac@.subrange(0, i as int).push(
                frac@[i as int],
            ));
        }
        if !is_ascii_digit_char(frac.as_str().get_char(i)) {
            proof {
                assert(!spec_ascii_digit(frac@[i as int]));
            }
            frac_ok = false;
        }
        i = i + 1;
    }
    proof {
        assert(frac@.subrange(0, fn_len as int) =~= frac@);
    }
    if !frac_ok {
        return None;
    }
    assert(spec_all_digits(frac@));
    let frac6 = take_chars(frac.as_str(), 6);
    let mut digits = String::new();
    digits.append(intp);
    digits.append(frac6.as_str());
    let v = match parse_u64_digits(digits.as_str()) {
        Option::Some(v) => v,
        Option::None => {
            proof {
                if !spec_all_digits(intp@) {
                    assert(!spec_all_digits(digits@)) by {
                        let k = choose|k: int|
                            0 <= k < intp@.len() && !spec_ascii_digit(intp@[k]);
                        assert(digits@[k] == intp@[k]);
                    }
                } else if !spec_all_digits(frac6@) {
                    assert(!spec_all_digits(digits@)) by {
                        let k = choose|k: int|
                            0 <= k < frac6@.len() && !spec_ascii_digit(frac6@[k]);
                        assert(digits@[intp@.len() + k] == frac6@[k]);
                    }
                }
            }
            return None;
        },
    };
    proof {
        assert(spec_all_digits(intp@)) by {
            assert(forall|j: int|
                0 <= j < intp@.len() ==> digits@[j] == intp@[j] && spec_ascii_digit(digits@[j]));
        }
    }
    if v == 0 || v >= 1000000000 {
        return None;
    }
    let scale = pow10_exec(frac6.unicode_len());
    Some((v, scale))
}

// ---------------------------------------------------------------------------
// Aspect ratios.
// ---------------------------------------------------------------------------

/// The aspect ratio denoted by `s`, as an exact positive rational
/// `(numerator, denominator)`: either `W:H` or a single decimal.
pub open spec fn spec_parse_aspect(s: Seq<char>) -> Option<(int, int)> {
    let t = spec_remove_spaces(spec_trim(s));
    if t.len() == 0 {
        Option::None
    } else {
        let i = spec_find_char(t, ':');
        if i < t.len() {
            let left = spec_parse_side(t.subrange(0, i));
            let right = spec_parse_side(t.subrange(i + 1, t.len() as int));
            match (left, right) {
                (Option::Some((lv, ls)), Option::Some((rv, rs))) => Option::Some(
                    (lv * rs, rv * ls),
                ),
                _ => Option::None,
            }
        } else {
            spec_parse_side(t)
        }
    }
}

/// Parses a `W:H` or decimal aspect ratio into an exact rational.
pub fn parse_aspect_ratio(value: &str) -> (r: Option<(u64, u64)>)
    ensures
        match r {
            Option::Some((num, den)) => spec_parse_aspect(value@) == Option::Some(
                (num as int, den as int),
            ) && 1 <= num < 1000000000000000 && 1 <= den < 1000000000000000,
            Option::None => spec_parse_aspect(value@) is None,
        },
{
    let trimmed = trim_str(value);
    let t = remove_spaces(trimmed.as_str());
    let n = t.unicode_len();
    if n == 0 {
        return None;
    }
    let i = find_char(t.as_str(), ':');
    proof {
        lemma_find_char_bounds(t@, ':');
    }
    if i < n {
        let left = t.as_str().substring_char(0, i);
        let right = t.as_str().substring_char(i + 1, n);
        let lp = parse_side(left);
        let rp = parse_side(right);
        match (lp, rp) {
            (Option::Some((lv, ls)), Option::Some((rv, rs))) => {
                proof {
                    crate::strutil::lemma_mul_le_bounds(
                        lv as int,
                        rs as int,
                        999999999,
                        1000000,
                    );
                    crate::strutil::lemma_mul_le_bounds(
                        rv as int,
                        ls as int,
                        999999999,
                        1000000,
                    );
                    crate::strutil::lemma_mul_ge_one(lv as int, rs as int);
                    crate::strutil::lemma_mul_ge_one(rv as int, ls as int);
                }
                Some((lv * rs, rv * ls))
            },
            _ => None,
        }
    } else {
        parse_side(t.as_str())
    }
}

// ---------------------------------------------------------------------------
// Resolution selection.
// ---------------------------------------------------------------------------

/// The default render resolution for an aspect ratio: portrait at or below
/// 0.68, landscape at or above 1.35, square otherwise; unparsable ratios
/// default to 16:9.
pub open spec fn spec_pick_resolution(aspect: Seq<char>) -> (int, int) {
    let parsed = spec_parse_aspect(aspect);
    let num = if parsed is Some {
        parsed->Some_0.0
    } else {
        16
    };
    let den = if parsed is Some {
        parsed->Some_0.1
    } else {
        9
    };
    if 100 * num <= 68 * den {
        (1080, 1920)
    } else if 100 * num >= 135 * den {
        (1920, 1080)
    } else {
        (1080, 1080)
    }
}

/// Picks the default render resolution for an aspect string.
pub fn pick_render_resolution(aspect: &str) -> (r: (u32, u32))
    ensures
        (r.0 as int, r.1 as int) == spec_pick_resolution(aspect@),
{
    let parsed = parse_aspect_ratio(aspect);
    let (num, den): (u64, u64) = match parsed {
        Option::Some(p) => p,
        Option::None => (16, 9),
    };
    if (num as u128) * 100 <= (den as u128) * 68 {
        (1080, 1920)
    } else if (num as u128) * 100 >= (den as u128) * 135 {
        (1920, 1080)
    } else {
        (1080, 1080)
    }
}

/// The nearest even dimension within `[240, 4320]`, when the input lies in
/// that range.
pub open spec fn spec_norm_dim(v: int) -> Option<int> {
    if 240 <= v <= 4320 {
        Option::Some(v - v % 2)
    } else {
        Option::None
    }
}

/// Rounds a dimension down to even and checks the `[240, 4320]` range.
pub fn normalize_target_dimension(value: u32) -> (r: Option<u32>)
    ensures
        match r {
            Option::Some(v) => spec_norm_dim(value as int) == Option::Some(v as int) && 240 <= v
                <= 4320 && v % 2 == 0,
            Option::None => spec_norm_dim(value as int) is None,
        },
{
    if value < 240 || value > 4320 {
        return None;
    }
    Some(value - value % 2)
}

/// Half-up rounding of `a / b`.
pub open spec fn spec_round_div(a: int, b: int) -> int {
    (2 * a + b) / (2 * b)
}

/// A dimension derived by rounding `a / b`, normalized to the even range.
pub open spec fn spec_norm_dim_round(a: int, b: int) -> Option<int> {
    let q = spec_round_div(a, b);
    if q < 2 {
        Option::None
    } else {
        spec_norm_dim(q)
    }
}

fn norm_dim_round(a: u128, b: u128) -> (r: Option<u32>)
    requires
        1 <= b,
        a <= 0x1_0000_0000u128 * 1000000000000000,
        b < 1000000000000000,
    ensures
        match r {
            Option::Some(v) => spec_norm_dim_round(a as int, b as int) == Option::Some(v as int)
                && 240 <= v <= 4320 && v % 2 == 0,
            Option::None => spec_norm_dim_round(a as int, b as int) is None,
        },
{
    let q = (2 * a + b) / (2 * b);
    if q < 2 {
        return None;
    }
    if q > 4320 {
        proof {
            assert(spec_norm_dim(q as int) is None);
        }
        return None;
    }
    normalize_target_dimension(q as u32)
}

/// The score numerator used to compare aligned-resolution candidates: the
/// ratio error times ten thousand plus the pixel delta, both brought to the
/// common denominator `candidate_h * num`.
pub open spec fn spec_score_num(cw: int, ch: int, w: int, h: int, num: int, den: int) -> int {
    10000 * spec_abs(cw * den - ch * num) + (spec_abs(cw - w) + spec_abs(ch - h)) * num * ch
}

fn abs_diff(a: u128, b: u128) -> (r: u128)
    ensures
        r == spec_abs(a as int - b as int),
{
    if a >= b {
        a - b
    } else {
        b - a
    }
}

/// Aligns `width x height` to the aspect ratio: keeps the pair when its
/// ratio is within 3% of the target, otherwise adjusts one side, preferring
/// the candidate with the lower score (the two relative scores share the
/// denominator `num`, so `score(w,ch) <= score(cw,h)` exactly when
/// `score_num(w,ch) * h <= score_num(cw,h) * ch`); when no candidate fits
/// the range the default resolution is picked.
pub open spec fn spec_align(aspect: Seq<char>, w: int, h: int) -> (int, int) {
    match spec_parse_aspect(aspect) {
        Option::None => if w >= 1 && h >= 1 {
            (w, h)
        } else {
            spec_pick_resolution(aspect)
        },
        Option::Some((num, den)) => {
            if 100 * spec_abs(w * den - h * num) <= 3 * (h * num) {
                (w, h)
            } else {
                let wbh = spec_norm_dim_round(w * den, num);
                let hbw = spec_norm_dim_round(h * num, den);
                if wbh is Some && hbw is Some {
                    let ch = wbh->Some_0;
                    let cw = hbw->Some_0;
                    if spec_score_num(w, ch, w, h, num, den) * h <= spec_score_num(
                        cw,
                        h,
                        w,
                        h,
                        num,
                        den,
                    ) * ch {
                        (w, ch)
                    } else {
                        (cw, h)
                    }
                } else if wbh is Some {
                    (w, wbh->Some_0)
                } else if hbw is Some {
                    (hbw->Some_0, h)
                } else {
                    spec_pick_resolution(aspect)
                }
            }
        },
    }
}

/// Aligns a requested resolution to an aspect ratio. Alignment operates on
/// dimensions already normalized into the renderable range, which keeps the
/// exact score comparison within machine bounds.
pub fn align_resolution_to_aspect(aspect: &str, width: u32, height: u32) -> (r: (u32, u32))
    requires
        width <= 4320,
        height <= 4320,
    ensures
        (r.0 as int, r.1 as int) == spec_align(aspect@, width as int, height as int),
{
    let parsed = parse_aspect_ratio(aspect);
    match parsed {
        Option::None => {
            if width >= 1 && height >= 1 {
                (width, height)
            } else {
                pick_render_resolution(aspect)
            }
        },
        Option::Some((num, den)) => {
            let w128 = width as u128;
            let h128 = height as u128;
            let n128 = num as u128;
            let d128 = den as u128;
            proof {
                crate::strutil::lemma_mul_le_bounds(
                    w128 as int,
                    d128 as int,
                    4294967295,
                    999999999999999,
                );
                crate::strutil::lemma_mul_le_bounds(
                    h128 as int,
                    n128 as int,
                    4294967295,
                    999999999999999,
                );
            }
            let delta = abs_diff(w128 * d128, h128 * n128);
            if 100 * delta <= 3 * (h128 * n128) {
                return (width, height);
            }
            let wbh = norm_dim_round(w128 * d128, n128);
            let hbw = norm_dim_round(h128 * n128, d128);
            match (wbh, hbw) {
                (Option::Some(ch), Option::Some(cw)) => {
                    let score_left = score_num_exec(width, ch, width, height, num, den);
                    let score_right = score_num_exec(cw, height, width, height, num, den);
                    proof {
                        crate::strutil::lemma_mul_le_bounds(
                            score_left as int,
                            h128 as int,
                            40000000000000000000000000000000000,
                            4320,
                        );
                        crate::strutil::lemma_mul_le_bounds(
                            score_right as int,
                            ch as int,
                            40000000000000000000000000000000000,
                            4320,
                        );
                    }
                    if score_left * h128 <= score_right * (ch as u128) {
                        (width, ch)
                    } else {
                        (cw, height)
                    }
                },
                (Option::Some(ch), Option::None) => (width, ch),
                (Option::None, Option::Some(cw)) => (cw, height),
                (Option::None, Option::None) => pick_render_resolution(aspect),
            }
        },
    }
}

/// Computes the candidate score numerator.
fn score_num_exec(cw: u32, ch: u32, w: u32, h: u32, num: u64, den: u64) -> (r: u128)
    requires
        1 <= num < 1000000000000000,
        1 <= den < 1000000000000000,
    ensures
        r == spec_score_num(cw as int, ch as int, w as int, h as int, num as int, den as int),
        r < 40000000000000000000000000000000000,
{
    proof {
        crate::strutil::lemma_mul_le_bounds(cw as int, den as int, 4294967295, 999999999999999);
        crate::strutil::lemma_mul_le_bounds(ch as int, num as int, 4294967295, 999999999999999);
    }
    let a = (cw as u128) * (den as u128);
    let b = (ch as u128) * (num as u128);
    let t1 = 10000 * abs_diff(a, b);
    let dsum = abs_diff(cw as u128, w as u128) + abs_diff(ch as u128, h as u128);
    proof {
        crate::strutil::lemma_mul_le_bounds(dsum as int, num as int, 8589934590, 999999999999999);
    }
    let t2a = dsum * (num as u128);
    proof {
        crate::strutil::lemma_mul_le_bounds(
            t2a as int,
            ch as int,
            8589934590000000000000000,
            4294967295,
        );
    }
    let t2 = t2a * (ch as u128);
    t1 + t2
}

/// Chooses the render resolution: a well-formed override is aligned to the
/// aspect; otherwise the aspect's default is picked. The result is always
/// even-dimensioned: either both sides lie in `[240, 4320]`, or the pair is
/// one of the three defaults.
pub open spec fn spec_pick_with_override(
    aspect: Seq<char>,
    ow: Option<u32>,
    oh: Option<u32>,
) -> (int, int) {
    if ow is Some && oh is Some && spec_norm_dim(ow->Some_0 as int) is Some && spec_norm_dim(
        oh->Some_0 as int,
    ) is Some {
        spec_align(
            aspect,
            spec_norm_dim(ow->Some_0 as int)->Some_0,
            spec_norm_dim(oh->Some_0 as int)->Some_0,
        )
    } else {
        spec_pick_resolution(aspect)
    }
}

/// True when the pair is one of the three default resolutions.
pub open spec fn spec_is_default_resolution(w: int, h: int) -> bool {
    (w, h) == (1080int, 1920int) || (w, h) == (1920int, 1080int) || (w, h) == (1080int, 1080int)
}

/// Picks the output resolution for a task, honoring a well-formed override.
pub fn pick_render_resolution_with_override(
    aspect: &str,
    output_width: Option<u32>,
    output_height: Option<u32>,
) -> (r: (u32, u32))
    ensures
        (r.0 as int, r.1 as int) == spec_pick_with_override(aspect@, output_width, output_height),
        r.0 % 2 == 0 && r.1 % 2 == 0,
        (240 <= r.0 <= 4320 && 240 <= r.1 <= 4320) || spec_is_default_resolution(
            r.0 as int,
            r.1 as int,
        ),
{
    if let (Option::Some(raw_w), Option::Some(raw_h)) = (output_width, output_height) {
        let nw = normalize_target_dimension(raw_w);
        let nh = normalize_target_dimension(raw_h);
        if let (Option::Some(w), Option::Some(h)) = (nw, nh) {
            return align_resolution_to_aspect(aspect, w, h);
        }
    }
    pick_render_resolution(aspect)
}

} // verus!

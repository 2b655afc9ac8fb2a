//! A small decimal reader shared by the duration and percent parsers:
//! `digits[.digits]`, the fraction truncated to six places.

use vstd::prelude::*;
use crate::strutil::{spec_all_digits, spec_dec_value, parse_u64_digits, spec_ascii_digit,
    is_ascii_digit_char,
};
use crate::text::{spec_take, take_chars};
use crate::resolution::{spec_find_char, find_char, lemma_find_char_bounds, spec_pow10};

verus! {

/// The value of `digits[.digits]` as `(scaled value, scale)`: the integer
/// part may hold at most nine digits, and the fraction is truncated to six.
pub open spec fn spec_dec_scaled(s: Seq<char>) -> Option<(int, int)> {
    let i = spec_find_char(s, '.');
    let intp = s.subrange(0, i);
    let frac = if i < s.len() {
        s.subrange(i + 1, s.len() as int)
    } else {
        Seq::empty()
    };
    let digits = intp + spec_take(frac, 6);
    if spec_all_digits(intp) && spec_all_digits(frac) && digits.len() > 0 && intp.len() <= 9 {
        Option::Some((spec_dec_value(digits), spec_pow10(spec_take(frac, 6).len() as int)))
    } else {
        Option::None
    }
}

/// Reads a plain decimal; the scaled value stays below `10^15`.
pub fn parse_decimal_scaled(s: &str) -> (r: Option<(u64, u64)>)
    ensures
        match r {
            Option::Some((v, scale)) => spec_dec_scaled(s@) == Option::Some((v as int, scale as int))
                && v < 1000000000000000 && 1 <= scale <= 1000000,
            Option::None => spec_dec_scaled(s@) is None,
        },
{
    let n = s.unicode_len();
    let dot = find_char(s, '.');
    proof {
        lemma_find_char_bounds(s@, '.');
    }
    let intp = s.substring_char(0, dot);
    if dot > 9 {
        return None;
    }
    let mut frac = String::new();
    if dot < n {
        frac.append(s.substring_char(dot + 1, n));
    }
    proof {
        if dot < n {
            assert(frac@ == s@.subrange(dot + 1, n as int));
        } else {
            assert(frac@ =~= Seq::<char>::empty());
        }
    }
    let fn_len = frac.unicode_len();
    let mut frac_ok = true;
    let mut i: usize = 0;
    while i < fn_len
        invariant
            fn_len == frac@.len(),
            i <= fn_len,
            frac_ok ==> spec_all_digits(frac@.subrange(0, i as int)),
            !frac_ok ==> !spec_all_digits(frac@),
        decreases fn_len - i,
    {
        proof {
            assert(frac@.subrange(0, i + 1 as int) =~= frac@.subrange(0, i as int).push(
                frac@[i as int],
            ));
        }
        if !is_ascii_digit_char(frac.as_str().get_char(i)) {
            proof {
                assert(!spec_ascii_digit(frac@[i as int]));
            }
            frac_ok = false;
        }
        i = i + 1;
    }
    proof {
        assert(frac@.subrange(0, fn_len as int) =~= frac@);
    }
    if !frac_ok {
        return None;
    }
    assert(spec_all_digits(frac@));
    let frac6 = take_chars(frac.as_str(), 6);
    let mut digits = String::new();
    digits.append(intp);
    digits.append(frac6.as_str());
    let v = match parse_u64_digits(digits.as_str()) {
        Option::Some(v) => v,
        Option::None => {
            proof {
                if !spec_all_digits(intp@) {
                    assert(!spec_all_digits(digits@)) by {
                        let k = choose|k: int|
                            0 <= k < intp@.len() && !spec_ascii_digit(intp@[k]);
                        assert(digits@[k] == intp@[k]);
                    }
                } else {
                    // A nonempty string of at most 15 digits parses within a
                    // u64, so the parse can only have failed on emptiness.
                    assert(spec_all_digits(digits@));
                    if digits@.len() > 0 {
                        crate::resolution::lemma_dec_value_len15_bound(digits@);
                        assert(false);
                    }
                }
            }
            return None;
        },
    };
    proof {
        assert(spec_all_digits(intp@)) by {
            assert(forall|j: int|
                0 <= j < intp@.len() ==> digits@[j] == intp@[j] && spec_ascii_digit(digits@[j]));
        }
        crate::resolution::lemma_dec_value_len15_bound(digits@);
    }
    let scale = crate::resolution::pow10_exec(frac6.unicode_len());
    Some((v, scale))
}

} // verus!

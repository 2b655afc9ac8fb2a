//! SHA-256 integrity checks: hashing, checksum-manifest parsing and
//! downloaded-file verification.

use sha2::Digest;
use vstd::prelude::*;
use crate::strutil::{
    spec_trim, spec_lower, spec_ascii_hex_digit, unicode_whitespace, trim_str, ascii_lower,
    is_ascii_hex_digit_char, str_eq, eq_ignore_ascii_case_str,
};

verus! {

// ---------------------------------------------------------------------------
// Hashing.
// ---------------------------------------------------------------------------

pub uninterp spec fn sha256_hex_of(data: Seq<u8>) -> Seq<char>;

/// Relies on sha2::Sha256 through the Digest trait: the digest is a function
/// of the input bytes alone, rendered as 64 lowercase hex characters.
#[verifier::external_body]
pub(crate) fn sha256_hex(data: &[u8]) -> (r: String)
    ensures
        r@ == sha256_hex_of(data@),
        r@.len() == 64,
{
    let mut hasher = sha2::Sha256::new();
    hasher.update(data);
    format!("{:x}", hasher.finalize())
}

// ---------------------------------------------------------------------------
// Whitespace tokenization (a left fold over the characters).
// ---------------------------------------------------------------------------

/// The whitespace-separated tokens of `s`.
pub open spec fn spec_tokens(s: Seq<char>) -> Seq<Seq<char>>
    decreases s.len(),
{
    if s.len() == 0 {
        Seq::empty()
    } else {
        let rest = spec_tokens(s.drop_last());
        let c = s.last();
        if unicode_whitespace(c) {
            rest
        } else if s.len() >= 2 && !unicode_whitespace(s[s.len() - 2]) && rest.len() > 0 {
            rest.update(rest.len() - 1, rest.last().push(c))
        } else {
            rest.push(seq![c])
        }
    }
}

/// Splits a string into whitespace-separated tokens.
pub fn split_ws_tokens(s: &str) -> (r: Vec<String>)
    ensures
        r@.len() == spec_tokens(s@).len(),
        forall|k: int| 0 <= k < r@.len() ==> r@[k]@ == spec_tokens(s@)[k],
{
    let n = s.unicode_len();
    let mut out: Vec<String> = Vec::new();
    let mut prev_ws = true;
    let mut i: usize = 0;
    while i < n
        invariant
            n == s@.len(),
            i <= n,
            out@.len() == spec_tokens(s@.subrange(0, i as int)).len(),
            forall|k: int|
                0 <= k < out@.len() ==> out@[k]@ == spec_tokens(s@.subrange(0, i as int))[k],
            prev_ws == (i == 0 || unicode_whitespace(s@[i - 1])),
            !prev_ws ==> out@.len() > 0,
        decreases n - i,
    {
        let c = s.get_char(i);
        proof {
            assert(s@.subrange(0, i + 1 as int).drop_last() =~= s@.subrange(0, i as int));
            assert(s@.subrange(0, i + 1 as int).last() == s@[i as int]);
            if i > 0 {
                assert(s@.subrange(0, i + 1 as int)[i - 1] == s@[i - 1]);
            }
        }
        if c.is_whitespace() {
            prev_ws = true;
        } else {
            if prev_ws {
                let mut t = String::new();
                t.push(c);
                out.push(t);
                proof {
                    let sp = spec_tokens(s@.subrange(0, i + 1 as int));
                    assert(sp.len() == out@.len());
                    assert(sp[out@.len() - 1] =~= seq![s@[i as int]]);
                }
            } else {
                let mut t = match out.pop() {
                    Option::Some(t) => t,
                    Option::None => String::new(),
                };
                t.push(c);
                out.push(t);
                proof {
                    let before = spec_tokens(s@.subrange(0, i as int));
                    let sp = spec_tokens(s@.subrange(0, i + 1 as int));
                    assert(sp == before.update(before.len() - 1, before.last().push(s@[i as int])));
                    assert(sp.len() == out@.len());
                }
            }
            prev_ws = false;
        }
        i = i + 1;
    }
    proof {
        assert(s@.subrange(0, n as int) =~= s@);
    }
    out
}

// ---------------------------------------------------------------------------
// Line splitting (newline-terminated; a carriage return before the newline
// is dropped).
// ---------------------------------------------------------------------------

pub open spec fn spec_strip_cr(t: Seq<char>) -> Seq<char> {
    if t.len() > 0 && t.last() == '\r' {
        t.drop_last()
    } else {
        t
    }
}

/// The completed lines of `s` together with the trailing unterminated part.
pub open spec fn spec_lines_fold(s: Seq<char>) -> (Seq<Seq<char>>, Seq<char>)
    decreases s.len(),
{
    if s.len() == 0 {
        (Seq::empty(), Seq::empty())
    } else {
        let (done, cur) = spec_lines_fold(s.drop_last());
        let c = s.last();
        if c == '\n' {
            (done.push(spec_strip_cr(cur)), Seq::empty())
        } else {
            (done, cur.push(c))
        }
    }
}

/// The lines of `s`, as `str::lines` yields them.
pub open spec fn spec_lines(s: Seq<char>) -> Seq<Seq<char>> {
    let (done, cur) = spec_lines_fold(s);
    if cur.len() > 0 {
        done.push(cur)
    } else {
        done
    }
}

/// Splits a string into lines.
pub fn lines_of(s: &str) -> (r: Vec<String>)
    ensures
        r@.len() == spec_lines(s@).len(),
        forall|k: int| 0 <= k < r@.len() ==> r@[k]@ == spec_lines(s@)[k],
{
    let n = s.unicode_len();
    let mut done: Vec<String> = Vec::new();
    let mut cur = String::new();
    let mut i: usize = 0;
    while i < n
        invariant
            n == s@.len(),
            i <= n,
            done@.len() == spec_lines_fold(s@.subrange(0, i as int)).0.len(),
            forall|k: int|
                0 <= k < done@.len() ==> done@[k]@ == spec_lines_fold(s@.subrange(0, i as int)).0[k],
            cur@ == spec_lines_fold(s@.subrange(0, i as int)).1,
        decreases n - i,
    {
        let c = s.get_char(i);
        proof {
            assert(s@.subrange(0, i + 1 as int).drop_last() =~= s@.subrange(0, i as int));
            assert(s@.subrange(0, i + 1 as int).last() == s@[i as int]);
        }
        if c == '\n' {
            let line_len = cur.unicode_len();
            if line_len > 0 && cur.as_str().get_char(line_len - 1) == '\r' {
                let stripped = cur.as_str().substring_char(0, line_len - 1);
                let mut t = String::new();
                t.append(stripped);
                proof {
                    assert(t@ =~= spec_strip_cr(cur@));
                }
                done.push(t);
            } else {
                done.push(cur);
            }
            cur = String::new();
        } else {
            cur.push(c);
        }
        i = i + 1;
    }
    proof {
        assert(s@.subrange(0, n as int) =~= s@);
    }
    if cur.unicode_len() > 0 {
        done.push(cur);
    }
    done
}

// ---------------------------------------------------------------------------
// SHA-256 token recognition.
// ---------------------------------------------------------------------------

/// A 64-character hex token.
pub open spec fn spec_sha_like(t: Seq<char>) -> bool {
    t.len() == 64 && forall|j: int| 0 <= j < t.len() ==> spec_ascii_hex_digit(t[j])
}

fn is_sha_like(t: &str) -> (r: bool)
    ensures
        r == spec_sha_like(t@),
{
    let n = t.unicode_len();
    if n != 64 {
        return false;
    }
    let mut i: usize = 0;
    while i < n
        invariant
            n == t@.len(),
            i <= n,
            forall|j: int| 0 <= j < i ==> spec_ascii_hex_digit(t@[j]),
        decreases n - i,
    {
        if !is_ascii_hex_digit_char(t.get_char(i)) {
            proof {
                assert(!spec_ascii_hex_digit(t@[i as int]));
            }
            return false;
        }
        i = i + 1;
    }
    true
}

/// The first 64-hex token, lowercased.
pub open spec fn spec_first_sha_token(toks: Seq<Seq<char>>) -> Option<Seq<char>>
    decreases toks.len(),
{
    if toks.len() == 0 {
        Option::None
    } else if spec_sha_like(toks[0]) {
        Option::Some(spec_lower(toks[0]))
    } else {
        spec_first_sha_token(toks.subrange(1, toks.len() as int))
    }
}

/// Finds the first 64-character hex token in a text and lowercases it.
pub fn parse_sha256_token(value: &str) -> (r: Option<String>)
    ensures
        match r {
            Option::Some(h) => spec_first_sha_token(spec_tokens(value@)) == Option::Some(h@),
            Option::None => spec_first_sha_token(spec_tokens(value@)) is None,
        },
{
    let toks = split_ws_tokens(value);
    let m = toks.len();
    let ghost tv = spec_tokens(value@);
    proof {
        assert(tv.subrange(0, m as int) =~= tv);
    }
    let mut i: usize = 0;
    while i < m
        invariant
            tv == spec_tokens(value@),
            m == toks@.len(),
            m == tv.len(),
            forall|k: int| 0 <= k < m ==> toks@[k]@ == tv[k],
            i <= m,
            spec_first_sha_token(tv) == spec_first_sha_token(tv.subrange(i as int, m as int)),
        decreases m - i,
    {
        proof {
            let suf = tv.subrange(i as int, m as int);
            assert(suf[0] == tv[i as int]);
            assert(suf.subrange(1, suf.len() as int) =~= tv.subrange(i + 1 as int, m as int));
        }
        let tok = &toks[i];
        if is_sha_like(tok.as_str()) {
            proof {
                assert(tok@ == tv[i as int]);
                assert(spec_sha_like(tv.subrange(i as int, m as int)[0]));
                assert(spec_first_sha_token(tv.subrange(i as int, m as int)) == Option::Some(
                    spec_lower(tv[i as int]),
                ));
            }
            return Some(ascii_lower(tok.as_str()));
        }
        i = i + 1;
    }
    proof {
        assert(tv.subrange(m as int, m as int) =~= Seq::<Seq<char>>::empty());
    }
    None
}

// ---------------------------------------------------------------------------
// Checksum manifests (one asset name and hash per line).
// ---------------------------------------------------------------------------

/// `s` with every `*` replaced by a space.
pub open spec fn spec_star_to_space(s: Seq<char>) -> Seq<char> {
    s.map_values(
        |c: char|
            if c == '*' {
                ' '
            } else {
                c
            },
    )
}

fn star_to_space(s: &str) -> (r: String)
    ensures
        r@ == spec_star_to_space(s@),
{
    let n = s.unicode_len();
    let mut out = String::new();
    let mut i: usize = 0;
    while i < n
        invariant
            n == s@.len(),
            i <= n,
            out@ == spec_star_to_space(s@.subrange(0, i as int)),
        decreases n - i,
    {
        let c = s.get_char(i);
        if c == '*' {
            out.push(' ');
        } else {
            out.push(c);
        }
        proof {
            assert(spec_star_to_space(s@.subrange(0, i + 1 as int)) =~= spec_star_to_space(
                s@.subrange(0, i as int),
            ).push(
                if s@[i as int] == '*' {
                    ' '
                } else {
                    s@[i as int]
                },
            ));
        }
        i = i + 1;
    }
    proof {
        assert(s@.subrange(0, n as int) =~= s@);
    }
    out
}

/// `t` with every leading `./` removed.
pub open spec fn spec_strip_dotslash(t: Seq<char>) -> Seq<char>
    decreases t.len(),
{
    if t.len() >= 2 && t[0] == '.' && t[1] == '/' {
        spec_strip_dotslash(t.subrange(2, t.len() as int))
    } else {
        t
    }
}

fn strip_dotslash(t: &str) -> (r: String)
    ensures
        r@ == spec_strip_dotslash(t@),
{
    let n = t.unicode_len();
    let mut i: usize = 0;
    proof {
        assert(t@.subrange(0, n as int) =~= t@);
    }
    while i < n && t.get_char(i) == '.' && i + 1 < n && t.get_char(i + 1) == '/'
        invariant
            n == t@.len(),
            i <= n,
            spec_strip_dotslash(t@) == spec_strip_dotslash(t@.subrange(i as int, n as int)),
        decreases n - i,
    {
        proof {
            let suf = t@.subrange(i as int, n as int);
            assert(suf[0] == t@[i as int]);
            assert(suf[1] == t@[i + 1]);
            assert(suf.subrange(2, suf.len() as int) =~= t@.subrange(i + 2 as int, n as int));
        }
        i = i + 2;
    }
    proof {
        let suf = t@.subrange(i as int, n as int);
        if suf.len() >= 2 {
            assert(suf[0] == t@[i as int]);
            assert(suf[1] == t@[i + 1]);
        }
        assert(spec_strip_dotslash(suf) == suf);
    }
    let out = t.substring_char(i, n);
    let mut owned = String::new();
    owned.append(out);
    owned
}

/// The hash a manifest line yields for `asset`: the line must not be blank
/// or a comment, must hold at least two tokens after `*` is treated as a
/// separator, its last token (less any `./` prefixes) must name the asset
/// ignoring ASCII case, and its first token must be 64 hex characters.
pub open spec fn spec_asset_line_hash(line: Seq<char>, asset: Seq<char>) -> Option<Seq<char>> {
    let t = spec_trim(line);
    if t.len() == 0 || t[0] == '#' {
        Option::None
    } else {
        let toks = spec_tokens(spec_star_to_space(t));
        if toks.len() < 2 {
            Option::None
        } else {
            let hash = toks[0];
            let fname = spec_strip_dotslash(toks.last());
            if spec_lower(fname) == spec_lower(asset) && spec_sha_like(hash) {
                Option::Some(spec_lower(hash))
            } else {
                Option::None
            }
        }
    }
}

/// The hash of the first manifest line naming the asset.
pub open spec fn spec_sha_for_asset(lines: Seq<Seq<char>>, asset: Seq<char>) -> Option<Seq<char>>
    decreases lines.len(),
{
    if lines.len() == 0 {
        Option::None
    } else {
        let h = spec_asset_line_hash(lines[0], asset);
        if h is Some {
            h
        } else {
            spec_sha_for_asset(lines.subrange(1, lines.len() as int), asset)
        }
    }
}

/// Scans a checksum manifest for the named asset and returns its hash,
/// lowercased.
pub fn parse_sha256_for_asset(manifest: &str, asset_name: &str) -> (r: Option<String>)
    ensures
        match r {
            Option::Some(h) => spec_sha_for_asset(spec_lines(manifest@), asset_name@)
                == Option::Some(h@),
            Option::None => spec_sha_for_asset(spec_lines(manifest@), asset_name@) is None,
        },
{
    let lines = lines_of(manifest);
    let m = lines.len();
    let ghost lv = spec_lines(manifest@);
    proof {
        assert(lv.subrange(0, m as int) =~= lv);
    }
    let mut i: usize = 0;
    while i < m
        invariant
            lv == spec_lines(manifest@),
            m == lines@.len(),
            m == lv.len(),
            forall|k: int| 0 <= k < m ==> lines@[k]@ == lv[k],
            i <= m,
            spec_sha_for_asset(lv, asset_name@) == spec_sha_for_asset(
                lv.subrange(i as int, m as int),
                asset_name@,
            ),
        decreases m - i,
    {
        proof {
            let suf = lv.subrange(i as int, m as int);
            assert(suf[0] == lv[i as int]);
            assert(suf.subrange(1, suf.len() as int) =~= lv.subrange(i + 1 as int, m as int));
        }
        let t = trim_str(lines[i].as_str());
        let tn = t.unicode_len();
        if tn == 0 || t.as_str().get_char(0) == '#' {
            i = i + 1;
            continue ;
        }
        let norm = star_to_space(t.as_str());
        let toks = split_ws_tokens(norm.as_str());
        if toks.len() < 2 {
            i = i + 1;
            continue ;
        }
        let fname = strip_dotslash(toks[toks.len() - 1].as_str());
        if eq_ignore_ascii_case_str(fname.as_str(), asset_name) && is_sha_like(toks[0].as_str()) {
            proof {
                assert(toks@[toks@.len() - 1]@ == spec_tokens(norm@).last());
            }
            return Some(ascii_lower(toks[0].as_str()));
        }
        proof {
            assert(toks@[toks@.len() - 1]@ == spec_tokens(norm@).last());
        }
        i = i + 1;
    }
    proof {
        assert(lv.subrange(m as int, m as int) =~= Seq::<Seq<char>>::empty());
    }
    None
}

// ---------------------------------------------------------------------------
// Download verification.
// ---------------------------------------------------------------------------

/// A well-formed expected digest: 64 hex characters after trimming and
/// lowercasing.
pub open spec fn spec_expected_digest(expected: Seq<char>) -> Option<Seq<char>> {
    let e = spec_lower(spec_trim(expected));
    if spec_sha_like(e) {
        Option::Some(e)
    } else {
        Option::None
    }
}

/// Verifies downloaded bytes against an expected SHA-256 digest: succeeds
/// exactly when the expected digest is well formed and equals the digest of
/// the bytes.
pub fn verify_download_checksum(data: &[u8], expected_sha256: &str) -> (r: Result<(), String>)
    ensures
        r is Ok <==> (spec_expected_digest(expected_sha256@) is Some && sha256_hex_of(data@)
            == spec_expected_digest(expected_sha256@)->Some_0),
{
    let t = trim_str(expected_sha256);
    let e = ascii_lower(t.as_str());
    if !is_sha_like(e.as_str()) {
        let mut msg = String::new();
        msg.append("Invalid expected SHA256 format.");
        return Err(msg);
    }
    let actual = sha256_hex(data);
    if !str_eq(actual.as_str(), e.as_str()) {
        let mut msg = String::new();
        msg.append("Checksum mismatch. Expected ");
        msg.append(e.as_str());
        msg.append(", got ");
        msg.append(actual.as_str());
        msg.append(".");
        return Err(msg);
    }
    Ok(())
}

} // verus!

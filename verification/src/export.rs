//! Batch clip export planning: output naming, filter graphs, encoder
//! arguments and the manifest.

use vstd::prelude::*;
use crate::strutil::{
    spec_trim, spec_lower, spec_starts_with, spec_u64_digits, spec_dec_value, spec_all_digits,
    spec_ascii_digit, spec_digit_char, trim_str, str_eq, starts_with_str, ascii_lower, u64_to_string,
    views_of_strings,
};
use crate::text::{spec_sanitized_name, sanitize_file_stem, sanitize_short_text};

verus! {

/// Clamps a clip time to ten hours.
pub fn clamp_export_time(ms: u64) -> (r: u64)
    ensures
        r == if ms > 36000000 {
            36000000u64
        } else {
            ms
        },
{
    if ms > 36000000 {
        36000000
    } else {
        ms
    }
}

// ---------------------------------------------------------------------------
// Filter path escaping.
// ---------------------------------------------------------------------------

/// Backslashes become forward slashes before escaping.
pub open spec fn spec_slash_char(c: char) -> char {
    if c == '\\' {
        '/'
    } else {
        c
    }
}

/// The escape expansion of one character inside the subtitles filter
/// argument.
pub open spec fn spec_filter_escape_char(c: char) -> Seq<char> {
    if c == ':' || c == '\'' || c == ',' || c == ';' || c == '[' || c == ']' {
        seq!['\\', c]
    } else {
        seq![c]
    }
}

/// The escaped form of a path for the subtitles filter.
pub open spec fn spec_escaped_filter_path(s: Seq<char>) -> Seq<char>
    decreases s.len(),
{
    if s.len() == 0 {
        Seq::empty()
    } else {
        spec_escaped_filter_path(s.drop_last()) + spec_filter_escape_char(spec_slash_char(s.last()))
    }
}

/// Escapes a path for use inside the `subtitles` filter argument.
pub fn escape_ffmpeg_filter_path(path: &str) -> (r: String)
    ensures
        r@ == spec_escaped_filter_path(path@),
{
    let n = path.unicode_len();
    let mut out = String::new();
    let mut i: usize = 0;
    while i < n
        invariant
            n == path@.len(),
            i <= n,
            out@ == spec_escaped_filter_path(path@.subrange(0, i as int)),
        decreases n - i,
    {
        let c0 = path.get_char(i);
        let c = if c0 == '\\' {
            '/'
        } else {
            c0
        };
        proof {
            assert(path@.subrange(0, i + 1 as int).drop_last() =~= path@.subrange(0, i as int));
            assert(path@.subrange(0, i + 1 as int).last() == path@[i as int]);
        }
        if c == ':' || c == '\'' || c == ',' || c == ';' || c == '[' || c == ']' {
            out.push('\\');
            out.push(c);
        } else {
            out.push(c);
        }
        proof {
            assert(out@ =~= spec_escaped_filter_path(path@.subrange(0, i + 1 as int)));
        }
        i = i + 1;
    }
    proof {
        assert(path@.subrange(0, n as int) =~= path@);
    }
    out
}

// ---------------------------------------------------------------------------
// Source path validation (textual part; the host verifies existence).
// ---------------------------------------------------------------------------

/// The trimmed path with one extended-length prefix removed.
pub open spec fn spec_export_path_text(raw: Seq<char>) -> Seq<char> {
    let t = spec_trim(raw);
    if spec_starts_with(t, "\\\\?\\"@) {
        t.subrange("\\\\?\\"@.len() as int, t.len() as int)
    } else {
        t
    }
}

/// Validates the textual form of a source path: non-blank, at most 2048
/// characters, with any `\\?\` prefix dropped.
pub fn validate_export_path(raw: &str) -> (r: Result<String, String>)
    ensures
        match r {
            Ok(p) => spec_trim(raw@).len() > 0 && spec_trim(raw@).len() <= 2048 && p@
                == spec_export_path_text(raw@),
            Err(_) => spec_trim(raw@).len() == 0 || spec_trim(raw@).len() > 2048,
        },
{
    let t = trim_str(raw);
    let n = t.unicode_len();
    if n == 0 {
        let mut e = String::new();
        e.append("Source video path is missing.");
        return Err(e);
    }
    if n > 2048 {
        let mut e = String::new();
        e.append("Video path is too long.");
        return Err(e);
    }
    if starts_with_str(t.as_str(), "\\\\?\\") {
        let plen = "\\\\?\\".unicode_len();
        let stripped = t.as_str().substring_char(plen, n);
        let mut out = String::new();
        out.append(stripped);
        return Ok(out);
    }
    Ok(t)
}

// ---------------------------------------------------------------------------
// Path joining and the export base directory.
// ---------------------------------------------------------------------------

/// `a` and `b` joined with a single `/`.
pub open spec fn spec_path_join(a: Seq<char>, b: Seq<char>) -> Seq<char> {
    if a.len() > 0 && a.last() == '/' {
        a + b
    } else {
        a + "/"@ + b
    }
}

/// Joins two path components with `/`.
pub fn path_join(a: &str, b: &str) -> (r: String)
    ensures
        r@ == spec_path_join(a@, b@),
{
    let n = a.unicode_len();
    let mut out = String::new();
    out.append(a);
    if n == 0 || a.get_char(n - 1) != '/' {
        out.append("/");
    }
    out.append(b);
    proof {
        if n > 0 && a@.last() == '/' {
            assert(out@ =~= a@ + b@);
        } else {
            assert(out@ =~= a@ + "/"@ + b@);
        }
    }
    out
}

/// The export base directory: `exports` under the source's parent when the
/// host reports one, else under the sanitized project folder of the
/// projects root.
pub open spec fn spec_export_base_dir(
    source_parent: Option<Seq<char>>,
    projects_root: Seq<char>,
    project_name: Option<String>,
) -> Seq<char> {
    match source_parent {
        Option::Some(parent) => spec_path_join(parent, "exports"@),
        Option::None => spec_path_join(
            spec_path_join(
                projects_root,
                match project_name {
                    Option::Some(nm) => spec_sanitized_name(nm@, 72, "cursed-clipper-import"@),
                    Option::None => "cursed-clipper-import"@,
                },
            ),
            "exports"@,
        ),
    }
}

/// Computes the export base directory. `source_parent` is the source's
/// parent directory when it exists on the host.
pub fn compute_export_base_dir(
    source_parent: Option<String>,
    projects_root: &str,
    project_name: Option<String>,
) -> (r: String)
    ensures
        r@ == spec_export_base_dir(
            match source_parent {
                Option::Some(p) => Option::Some(p@),
                Option::None => Option::None,
            },
            projects_root@,
            project_name,
        ),
{
    match source_parent {
        Option::Some(parent) => path_join(parent.as_str(), "exports"),
        Option::None => {
            let name = crate::text::sanitize_project_name(project_name);
            let pdir = path_join(projects_root, name.as_str());
            path_join(pdir.as_str(), "exports")
        },
    }
}

/// The run directory name of a batch started at the given Unix second.
pub fn batch_run_dir_name(unix_seconds: u64) -> (r: String)
    ensures
        r@ == "batch-"@ + spec_u64_digits(unix_seconds as int),
{
    let mut out = String::new();
    out.append("batch-");
    let d = u64_to_string(unix_seconds);
    out.append(d.as_str());
    out
}

// ---------------------------------------------------------------------------
// Unique output names.
// ---------------------------------------------------------------------------

/// The `k`-th candidate name: `stem.ext`, then `stem-2.ext`, `stem-3.ext`
/// and so on.
pub open spec fn spec_candidate_name(stem: Seq<char>, ext: Seq<char>, k: int) -> Seq<char> {
    if k <= 1 {
        stem + "."@ + ext
    } else {
        stem + "-"@ + spec_u64_digits(k) + "."@ + ext
    }
}

/// Membership of a name in the taken list.
pub open spec fn spec_name_taken(taken: Seq<String>, name: Seq<char>) -> bool {
    exists|i: int| 0 <= i < taken.len() && taken[i]@ == name
}

/// The file extension actually used: the trimmed extension, or `mp4` when
/// blank.
pub open spec fn spec_ext_or_mp4(ext: Seq<char>) -> Seq<char> {
    if spec_trim(ext).len() == 0 {
        "mp4"@
    } else {
        spec_trim(ext)
    }
}

/// Rendering a number and reading it back is the identity.
proof fn lemma_digits_roundtrip(n: int)
    requires
        n >= 0,
    ensures
        spec_all_digits(spec_u64_digits(n)),
        spec_dec_value(spec_u64_digits(n)) == n,
        spec_u64_digits(n).len() >= 1,
    decreases n,
{
    if n < 10 {
        assert(spec_digit_char(n) as int == 48 + n);
        assert(spec_ascii_digit(spec_digit_char(n)));
        assert(spec_u64_digits(n) =~= seq![spec_digit_char(n)]);
        assert(spec_u64_digits(n).subrange(0, 0) =~= Seq::<char>::empty());
        assert(spec_dec_value(Seq::<char>::empty()) == 0);
        assert(spec_dec_value(spec_u64_digits(n)) == n);
    } else {
        lemma_digits_roundtrip(n / 10);
        let d = spec_u64_digits(n);
        assert(spec_digit_char(n % 10) as int == 48 + n % 10);
        assert(spec_ascii_digit(spec_digit_char(n % 10)));
        assert(d =~= spec_u64_digits(n / 10).push(spec_digit_char(n % 10)));
        assert(d.subrange(0, d.len() - 1) =~= spec_u64_digits(n / 10));
        assert(spec_dec_value(d) == spec_dec_value(spec_u64_digits(n / 10)) * 10 + (n % 10));
        assert forall|j: int| 0 <= j < d.len() implies spec_ascii_digit(d[j]) by {
            if j < d.len() - 1 {
                assert(d[j] == spec_u64_digits(n / 10)[j]);
            }
        }
    }
}

/// Distinct candidate indices give distinct names.
proof fn lemma_candidate_injective(stem: Seq<char>, ext: Seq<char>, k1: int, k2: int)
    requires
        1 <= k1 < k2,
    ensures
        spec_candidate_name(stem, ext, k1) != spec_candidate_name(stem, ext, k2),
{
    reveal_strlit(".");
    reveal_strlit("-");
    lemma_digits_roundtrip(k2);
    let c2 = spec_candidate_name(stem, ext, k2);
    if k1 <= 1 {
        let c1 = spec_candidate_name(stem, ext, k1);
        assert(c1.len() == stem.len() + 1 + ext.len());
        assert(c2.len() == stem.len() + 1 + spec_u64_digits(k2).len() + 1 + ext.len());
        assert(c1.len() < c2.len());
    } else {
        lemma_digits_roundtrip(k1);
        let d1 = spec_u64_digits(k1);
        let d2 = spec_u64_digits(k2);
        if spec_candidate_name(stem, ext, k1) == c2 {
            let c1 = spec_candidate_name(stem, ext, k1);
            assert(c1.len() == stem.len() + 1 + d1.len() + 1 + ext.len());
            assert(c2.len() == stem.len() + 1 + d2.len() + 1 + ext.len());
            assert(d1.len() == d2.len());
            assert(d1 =~= d2) by {
                assert forall|j: int| 0 <= j < d1.len() implies d1[j] == d2[j] by {
                    assert(c1[stem.len() + 1 + j] == d1[j]);
                    assert(c2[stem.len() + 1 + j] == d2[j]);
                }
            }
            assert(spec_dec_value(d1) == spec_dec_value(d2));
            assert(false);
        }
    }
}

fn build_candidate_name(stem: &str, ext: &str, k: u64) -> (r: String)
    requires
        k >= 1,
    ensures
        r@ == spec_candidate_name(stem@, ext@, k as int),
{
    let mut out = String::new();
    out.append(stem);
    if k <= 1 {
        out.append(".");
        out.append(ext);
        proof {
            assert(out@ =~= stem@ + "."@ + ext@);
        }
    } else {
        out.append("-");
        let d = u64_to_string(k);
        out.append(d.as_str());
        out.append(".");
        out.append(ext);
        proof {
            assert(out@ =~= stem@ + "-"@ + spec_u64_digits(k as int) + "."@ + ext@);
        }
    }
    out
}

fn name_is_taken(taken: &Vec<String>, name: &str) -> (r: bool)
    ensures
        r == spec_name_taken(taken@, name@),
{
    let m = taken.len();
    let mut i: usize = 0;
    while i < m
        invariant
            m == taken@.len(),
            i <= m,
            forall|j: int| 0 <= j < i ==> taken@[j]@ != name@,
        decreases m - i,
    {
        if str_eq(taken[i].as_str(), name) {
            return true;
        }
        i = i + 1;
    }
    false
}

/// Picks the first free file name `stem.ext`, `stem-2.ext`, `stem-3.ext`,
/// ... that is not in `taken`.
pub fn ensure_unique_export_file_path(taken: &Vec<String>, stem: &str, ext: &str) -> (r: String)
    requires
        taken@.len() < 1000000,
    ensures
        ({
            let ex = spec_ext_or_mp4(ext@);
            exists|k: int|
                1 <= k && r@ == spec_candidate_name(stem@, ex, k) && !spec_name_taken(
                    taken@,
                    spec_candidate_name(stem@, ex, k),
                ) && (forall|j: int|
                    1 <= j < k ==> spec_name_taken(taken@, spec_candidate_name(stem@, ex, j)))
        }),
        !spec_name_taken(taken@, r@),
{
    let te = trim_str(ext);
    let exs: String = if te.unicode_len() == 0 {
        let mut s = String::new();
        s.append("mp4");
        s
    } else {
        te
    };
    let ghost ex = spec_ext_or_mp4(ext@);
    proof {
        assert(exs@ == ex);
    }
    let m = taken.len() as u64;
    let mut k: u64 = 1;
    while k <= m + 2
        invariant
            m == taken@.len(),
            m < 1000000,
            exs@ == ex,
            ex == spec_ext_or_mp4(ext@),
            1 <= k <= m + 3,
            forall|j: int|
                1 <= j < k ==> spec_name_taken(taken@, spec_candidate_name(stem@, ex, j)),
        decreases m + 3 - k,
    {
        let cand = build_candidate_name(stem, exs.as_str(), k);
        if !name_is_taken(taken, cand.as_str()) {
            return cand;
        }
        k = k + 1;
    }
    // Unreachable: more distinct taken candidates than taken names.
    proof {
        let tv = views_of_strings(taken@);
        let cands = Seq::new((m + 2) as nat, |i: int| spec_candidate_name(stem@, ex, i + 1));
        assert forall|i: int, j: int| 0 <= i < j < cands.len() implies cands[i] != cands[j] by {
            lemma_candidate_injective(stem@, ex, i + 1, j + 1);
        }
        assert forall|i: int| 0 <= i < cands.len() implies tv.to_set().contains(cands[i]) by {
            assert(spec_name_taken(taken@, spec_candidate_name(stem@, ex, i + 1)));
            let w = choose|w: int|
                0 <= w < taken@.len() && taken@[w]@ == spec_candidate_name(stem@, ex, i + 1);
            assert(tv[w] == taken@[w]@);
            assert(tv.to_set().contains(tv[w]));
        }
        assert(cands.to_set().subset_of(tv.to_set()));
        cands.unique_seq_to_set();
        tv.lemma_cardinality_of_set();
        vstd::set_lib::lemma_len_subset(cands.to_set(), tv.to_set());
        assert(false);
    }
    let mut unreachable_result = String::new();
    unreachable_result.append(stem);
    unreachable_result
}

// ---------------------------------------------------------------------------
// Number formatting for filter graphs.
// ---------------------------------------------------------------------------

/// A value below 1000 as three digits.
pub open spec fn spec_pad3(n: int) -> Seq<char> {
    if n < 10 {
        seq!['0', '0'] + spec_u64_digits(n)
    } else if n < 100 {
        seq!['0'] + spec_u64_digits(n)
    } else {
        spec_u64_digits(n)
    }
}

fn push_pad3(out: &mut String, n: u64)
    requires
        n < 1000,
    ensures
        final(out)@ == old(out)@ + spec_pad3(n as int),
{
    if n < 10 {
        out.push('0');
        out.push('0');
    } else if n < 100 {
        out.push('0');
    }
    let d = u64_to_string(n);
    out.append(d.as_str());
    proof {
        assert(final(out)@ =~= old(out)@ + spec_pad3(n as int));
    }
}

/// A millisecond count as seconds with three decimals.
pub open spec fn spec_sec3(ms: int) -> Seq<char> {
    spec_u64_digits(ms / 1000) + "."@ + spec_pad3(ms % 1000)
}

fn push_sec3(out: &mut String, ms: u64)
    ensures
        final(out)@ == old(out)@ + spec_sec3(ms as int),
{
    let d = u64_to_string(ms / 1000);
    out.append(d.as_str());
    out.append(".");
    push_pad3(out, ms % 1000);
    proof {
        assert(final(out)@ =~= old(out)@ + spec_sec3(ms as int));
    }
}

/// A thousandths value with five decimals, as the encoder's filters expect.
pub open spec fn spec_milli5(m: int) -> Seq<char> {
    spec_u64_digits(m / 1000) + "."@ + spec_pad3(m % 1000) + "00"@
}

fn push_milli5(out: &mut String, m: u64)
    ensures
        final(out)@ == old(out)@ + spec_milli5(m as int),
{
    let d = u64_to_string(m / 1000);
    out.append(d.as_str());
    out.append(".");
    push_pad3(out, m % 1000);
    out.append("00");
    proof {
        assert(final(out)@ =~= old(out)@ + spec_milli5(m as int));
    }
}

/// A signed thousandths value with five decimals.
pub open spec fn spec_signed_milli5(v: int) -> Seq<char> {
    if v < 0 {
        "-"@ + spec_milli5(-v)
    } else {
        spec_milli5(v)
    }
}

fn push_signed_milli5(out: &mut String, v: i32)
    requires
        v > i32::MIN,
    ensures
        final(out)@ == old(out)@ + spec_signed_milli5(v as int),
{
    if v < 0 {
        out.append("-");
        push_milli5(out, (-v) as u64);
    } else {
        push_milli5(out, v as u64);
    }
    proof {
        assert(final(out)@ =~= old(out)@ + spec_signed_milli5(v as int));
    }
}

// ---------------------------------------------------------------------------
// Filter graphs.
// ---------------------------------------------------------------------------

pub open spec fn spec_clamp_zoom(z: int) -> int {
    if z < 350 {
        350
    } else if z > 3000 {
        3000
    } else {
        z
    }
}

pub open spec fn spec_clamp_offset(o: int) -> int {
    if o < -1000 {
        -1000
    } else if o > 1000 {
        1000
    } else {
        o
    }
}

/// The cover filter: upscale to cover, apply the zoom, pad, then crop to
/// the target with the crop window shifted by the render offsets.
pub open spec fn spec_cover_filter(tw: int, th: int, zoom: int, offx: int, offy: int) -> Seq<
    char,
> {
    let twd = spec_u64_digits(tw);
    let thd = spec_u64_digits(th);
    "scale="@ + twd + ":"@ + thd + ":force_original_aspect_ratio=increase,scale='trunc(iw*"@
        + spec_milli5(spec_clamp_zoom(zoom)) + "/2)*2':'trunc(ih*"@ + spec_milli5(
        spec_clamp_zoom(zoom),
    ) + "/2)*2',pad='max(iw,"@ + twd + ")':'max(ih,"@ + thd
        + ")':(ow-iw)/2:(oh-ih)/2:black,crop="@ + twd + ":"@ + thd + ":max(0,min(iw-"@ + twd
        + ",(iw-"@ + twd + ")/2+("@ + spec_signed_milli5(spec_clamp_offset(offx)) + ")*(iw-"@
        + twd + ")/2)):max(0,min(ih-"@ + thd + ",(ih-"@ + thd + ")/2+("@ + spec_signed_milli5(
        spec_clamp_offset(offy),
    ) + ")*(ih-"@ + thd + ")/2)),setsar=1"@
}

/// The centred cover fallback filter.
pub open spec fn spec_cover_center_filter(tw: int, th: int) -> Seq<char> {
    let twd = spec_u64_digits(tw);
    let thd = spec_u64_digits(th);
    "scale="@ + twd + ":"@ + thd + ":force_original_aspect_ratio=increase,crop="@ + twd + ":"@
        + thd + ",setsar=1"@
}

/// The contain filter: downscale and pad with black.
pub open spec fn spec_contain_filter(tw: int, th: int) -> Seq<char> {
    let twd = spec_u64_digits(tw);
    let thd = spec_u64_digits(th);
    "scale="@ + twd + ":"@ + thd + ":force_original_aspect_ratio=decrease,pad="@ + twd + ":"@
        + thd + ":(ow-iw)/2:(oh-ih)/2:black,setsar=1"@
}

/// The subtitles suffix appended to a filter when a subtitle file exists.
pub open spec fn spec_subtitles_suffix(escaped: Option<Seq<char>>) -> Seq<char> {
    match escaped {
        Option::Some(p) => ",subtitles=filename='"@ + p + "':charenc=UTF-8"@,
        Option::None => Seq::empty(),
    }
}

/// Which filter a fit mode selects: `cover`, `free` and `crop` take the
/// cover chain.
pub open spec fn spec_wants_cover(fit_mode: Seq<char>) -> bool {
    spec_lower(fit_mode) == "cover"@ || spec_lower(fit_mode) == "free"@ || spec_lower(fit_mode)
        == "crop"@
}

/// Decides whether a fit mode uses the cover filter chain.
pub fn wants_cover_filter(fit_mode: &str) -> (r: bool)
    ensures
        r == spec_wants_cover(fit_mode@),
{
    let l = ascii_lower(fit_mode);
    str_eq(l.as_str(), "cover") || str_eq(l.as_str(), "free") || str_eq(l.as_str(), "crop")
}

fn push_dim_pair(out: &mut String, head: &str, tw_s: &str, th_s: &str)
    ensures
        final(out)@ == old(out)@ + head@ + tw_s@ + ":"@ + th_s@,
{
    out.append(head);
    out.append(tw_s);
    out.append(":");
    out.append(th_s);
    proof {
        assert(final(out)@ =~= old(out)@ + head@ + tw_s@ + ":"@ + th_s@);
    }
}

/// Builds the cover filter chain.
pub fn build_cover_filter(tw: u32, th: u32, zoom_milli: u32, offx_milli: i32, offy_milli: i32)
    -> (r: String)
    ensures
        r@ == spec_cover_filter(
            tw as int,
            th as int,
            zoom_milli as int,
            offx_milli as int,
            offy_milli as int,
        ),
{
    let tw_s = u64_to_string(tw as u64);
    let th_s = u64_to_string(th as u64);
    let zoom: u64 = if zoom_milli < 350 {
        350
    } else if zoom_milli > 3000 {
        3000
    } else {
        zoom_milli as u64
    };
    let ox: i32 = if offx_milli < -1000 {
        -1000
    } else if offx_milli > 1000 {
        1000
    } else {
        offx_milli
    };
    let oy: i32 = if offy_milli < -1000 {
        -1000
    } else if offy_milli > 1000 {
        1000
    } else {
        offy_milli
    };
    let mut out = String::new();
    push_dim_pair(&mut out, "scale=", tw_s.as_str(), th_s.as_str());
    out.append(":force_original_aspect_ratio=increase,scale='trunc(iw*");
    push_milli5(&mut out, zoom);
    out.append("/2)*2':'trunc(ih*");
    push_milli5(&mut out, zoom);
    out.append("/2)*2',pad='max(iw,");
    out.append(tw_s.as_str());
    out.append(")':'max(ih,");
    out.append(th_s.as_str());
    out.append(")':(ow-iw)/2:(oh-ih)/2:black,crop=");
    out.append(tw_s.as_str());
    out.append(":");
    out.append(th_s.as_str());
    out.append(":max(0,min(iw-");
    out.append(tw_s.as_str());
    out.append(",(iw-");
    out.append(tw_s.as_str());
    out.append(")/2+(");
    push_signed_milli5(&mut out, ox);
    out.append(")*(iw-");
    out.append(tw_s.as_str());
    out.append(")/2)):max(0,min(ih-");
    out.append(th_s.as_str());
    out.append(",(ih-");
    out.append(th_s.as_str());
    out.append(")/2+(");
    push_signed_milli5(&mut out, oy);
    out.append(")*(ih-");
    out.append(th_s.as_str());
    out.append(")/2)),setsar=1");
    proof {
        assert(out@ =~= spec_cover_filter(
            tw as int,
            th as int,
            zoom_milli as int,
            offx_milli as int,
            offy_milli as int,
        ));
    }
    out
}

/// Builds the centred cover fallback chain.
pub fn build_cover_center_filter(tw: u32, th: u32) -> (r: String)
    ensures
        r@ == spec_cover_center_filter(tw as int, th as int),
{
    let tw_s = u64_to_string(tw as u64);
    let th_s = u64_to_string(th as u64);
    let mut out = String::new();
    push_dim_pair(&mut out, "scale=", tw_s.as_str(), th_s.as_str());
    out.append(":force_original_aspect_ratio=increase,crop=");
    out.append(tw_s.as_str());
    out.append(":");
    out.append(th_s.as_str());
    out.append(",setsar=1");
    proof {
        assert(out@ =~= spec_cover_center_filter(tw as int, th as int));
    }
    out
}

/// Builds the contain chain.
pub fn build_contain_filter(tw: u32, th: u32) -> (r: String)
    ensures
        r@ == spec_contain_filter(tw as int, th as int),
{
    let tw_s = u64_to_string(tw as u64);
    let th_s = u64_to_string(th as u64);
    let mut out = String::new();
    push_dim_pair(&mut out, "scale=", tw_s.as_str(), th_s.as_str());
    out.append(":force_original_aspect_ratio=decrease,pad=");
    out.append(tw_s.as_str());
    out.append(":");
    out.append(th_s.as_str());
    out.append(":(ow-iw)/2:(oh-ih)/2:black,setsar=1");
    proof {
        assert(out@ =~= spec_contain_filter(tw as int, th as int));
    }
    out
}

/// Appends the subtitles filter for an escaped subtitle path.
pub fn append_subtitles_filter(filter: String, escaped: Option<&String>) -> (r: String)
    ensures
        r@ == filter@ + spec_subtitles_suffix(
            match escaped {
                Option::Some(p) => Option::Some(p@),
                Option::None => Option::None,
            },
        ),
{
    match escaped {
        Option::None => {
            proof {
                assert(filter@ + Seq::<char>::empty() =~= filter@);
            }
            filter
        },
        Option::Some(p) => {
            let mut out = filter;
            out.append(",subtitles=filename='");
            out.append(p.as_str());
            out.append("':charenc=UTF-8");
            proof {
                assert(out@ =~= filter@ + ",subtitles=filename='"@ + p@ + "':charenc=UTF-8"@);
            }
            out
        },
    }
}

// ---------------------------------------------------------------------------
// Encoder arguments.
// ---------------------------------------------------------------------------

/// The encoder invocation for one clip: seek, duration, input, the filter
/// chain, stream maps, H.264/AAC with `+faststart`, and the output.
pub open spec fn spec_export_args(
    start_ms: int,
    dur_ms: int,
    source: Seq<char>,
    filter: Seq<char>,
    output: Seq<char>,
) -> Seq<Seq<char>> {
    seq![
        "-y"@,
        "-ss"@,
        spec_sec3(start_ms),
        "-t"@,
        spec_sec3(dur_ms),
        "-i"@,
        source,
        "-vf"@,
        filter,
        "-map"@,
        "0:v:0"@,
        "-map"@,
        "0:a:0?"@,
        "-c:v"@,
        "libx264"@,
        "-preset"@,
        "veryfast"@,
        "-crf"@,
        "20"@,
        "-pix_fmt"@,
        "yuv420p"@,
        "-c:a"@,
        "aac"@,
        "-b:a"@,
        "160k"@,
        "-movflags"@,
        "+faststart"@,
        output,
    ]
}

fn push_owned(args: &mut Vec<String>, s: String)
    ensures
        final(args)@ == old(args)@.push(s),
{
    args.push(s);
}

fn push_arg_lit(args: &mut Vec<String>, lit: &str)
    ensures
        final(args)@.len() == old(args)@.len() + 1,
        final(args)@[final(args)@.len() - 1]@ == lit@,
        forall|k: int| 0 <= k < old(args)@.len() ==> final(args)@[k] == old(args)@[k],
{
    let mut s = String::new();
    s.append(lit);
    args.push(s);
}

/// Builds the encoder argument list for one clip.
pub fn build_export_args(
    start_ms: u64,
    dur_ms: u64,
    source: &str,
    filter: &str,
    output: &str,
) -> (r: Vec<String>)
    ensures
        views_of_strings(r@) == spec_export_args(
            start_ms as int,
            dur_ms as int,
            source@,
            filter@,
            output@,
        ),
{
    let mut args: Vec<String> = Vec::new();
    push_arg_lit(&mut args, "-y");
    push_arg_lit(&mut args, "-ss");
    let mut ss = String::new();
    push_sec3(&mut ss, start_ms);
    push_owned(&mut args, ss);
    push_arg_lit(&mut args, "-t");
    let mut tt = String::new();
    push_sec3(&mut tt, dur_ms);
    push_owned(&mut args, tt);
    push_arg_lit(&mut args, "-i");
    push_arg_lit(&mut args, source);
    push_arg_lit(&mut args, "-vf");
    push_arg_lit(&mut args, filter);
    push_arg_lit(&mut args, "-map");
    push_arg_lit(&mut args, "0:v:0");
    push_arg_lit(&mut args, "-map");
    push_arg_lit(&mut args, "0:a:0?");
    push_arg_lit(&mut args, "-c:v");
    push_arg_lit(&mut args, "libx264");
    push_arg_lit(&mut args, "-preset");
    push_arg_lit(&mut args, "veryfast");
    push_arg_lit(&mut args, "-crf");
    push_arg_lit(&mut args, "20");
    push_arg_lit(&mut args, "-pix_fmt");
    push_arg_lit(&mut args, "yuv420p");
    push_arg_lit(&mut args, "-c:a");
    push_arg_lit(&mut args, "aac");
    push_arg_lit(&mut args, "-b:a");
    push_arg_lit(&mut args, "160k");
    push_arg_lit(&mut args, "-movflags");
    push_arg_lit(&mut args, "+faststart");
    push_arg_lit(&mut args, output);
    proof {
        assert(views_of_strings(args@) =~= spec_export_args(
            start_ms as int,
            dur_ms as int,
            source@,
            filter@,
            output@,
        ));
    }
    args
}

// ---------------------------------------------------------------------------
// Batch structures.
// ---------------------------------------------------------------------------

/// One clip-and-platform export task. Times are milliseconds; fractional
/// settings carry their unit in the name.
#[derive(Debug, Clone)]
pub struct ClipExportPlatformTask {
    pub clip_id: String,
    pub platform_id: String,
    pub aspect: String,
    pub subtitles_enabled: Option<bool>,
    pub start_ms: u64,
    pub end_ms: u64,
    pub output_width: Option<u32>,
    pub output_height: Option<u32>,
    pub fit_mode: Option<String>,
    pub render_zoom_milli: Option<u32>,
    pub render_offset_x_milli: Option<i32>,
    pub render_offset_y_milli: Option<i32>,
    pub subtitle_position_override: Option<String>,
    pub subtitle_offset_x_milli: Option<i32>,
    pub subtitle_offset_y_milli: Option<i32>,
    pub subtitle_box_width_milli: Option<u32>,
    pub subtitle_box_height_milli: Option<u32>,
    pub title: Option<String>,
    pub description: Option<String>,
    pub tags: Option<String>,
    pub cover_path: Option<String>,
}

/// A batch export request.
#[derive(Debug, Clone)]
pub struct ClipBatchExportRequest {
    pub project_id: String,
    pub project_name: Option<String>,
    pub source_path: String,
    pub task_id: Option<String>,
    pub tasks: Vec<ClipExportPlatformTask>,
    pub subtitles: Option<crate::subtitle::ClipBatchSubtitlePayload>,
}

/// The subtitle file planned for one task.
#[derive(Debug)]
pub struct SubtitlePlanItem {
    pub file_name: String,
    pub file_path: String,
    pub content: String,
}

/// The cover copy planned for one task.
#[derive(Debug)]
pub struct CoverPlanItem {
    pub source_path: String,
    pub target_name: String,
    pub target_path: String,
}

/// Everything the host needs to render one task.
#[derive(Debug)]
pub struct ClipTaskPlan {
    pub clip_id: String,
    pub platform_id: String,
    pub title: Option<String>,
    pub description: Option<String>,
    pub tags: Option<String>,
    pub clip_stem: String,
    pub output_name: String,
    pub output_path: String,
    pub start_ms: u64,
    pub end_ms: u64,
    pub target_w: u32,
    pub target_h: u32,
    pub use_cover: bool,
    pub filter_primary: String,
    pub filter_fallback: Option<String>,
    pub args_primary: Vec<String>,
    pub args_fallback: Option<Vec<String>>,
    pub subtitle: Option<SubtitlePlanItem>,
    pub cover: Option<CoverPlanItem>,
}

/// One exported clip.
#[derive(Debug, Clone)]
pub struct ClipExportArtifact {
    pub clip_id: String,
    pub platform_id: String,
    pub output_path: String,
    pub duration_ms: u64,
    pub cover_path: Option<String>,
}

/// The outcome of a batch export.
#[derive(Debug, Clone)]
pub struct ClipBatchExportResult {
    pub project_dir: String,
    pub exported_count: u32,
    pub artifacts: Vec<ClipExportArtifact>,
}

/// One line of the export manifest.
#[derive(Debug, Clone)]
pub struct ExportManifestEntry {
    pub clip_id: String,
    pub platform_id: String,
    pub title: Option<String>,
    pub description: Option<String>,
    pub tags: Option<String>,
    pub start_ms: u64,
    pub end_ms: u64,
    pub output_path: String,
    pub cover_path: Option<String>,
}

// ---------------------------------------------------------------------------
// Cover extension extraction.
// ---------------------------------------------------------------------------

/// The index of the last occurrence of `c`, or `-1`.
pub open spec fn spec_rlast(s: Seq<char>, c: char) -> int
    decreases s.len(),
{
    if s.len() == 0 {
        -1
    } else if s.last() == c {
        s.len() - 1
    } else {
        spec_rlast(s.drop_last(), c)
    }
}

pub proof fn lemma_rlast_bounds(s: Seq<char>, c: char)
    ensures
        -1 <= spec_rlast(s, c) < s.len(),
        spec_rlast(s, c) >= 0 ==> s[spec_rlast(s, c)] == c,
        forall|j: int| spec_rlast(s, c) < j < s.len() ==> s[j] != c,
    decreases s.len(),
{
    if s.len() > 0 && s.last() != c {
        lemma_rlast_bounds(s.drop_last(), c);
        assert forall|j: int| spec_rlast(s, c) < j < s.len() implies s[j] != c by {
            if j < s.len() - 1 {
                assert(s.drop_last()[j] == s[j]);
            }
        }
        if spec_rlast(s, c) >= 0 {
            assert(s.drop_last()[spec_rlast(s.drop_last(), c)] == s[spec_rlast(s, c)]);
        }
    }
}

pub fn rlast_char(s: &str, c: char) -> (r: Option<usize>)
    ensures
        match r {
            Option::Some(i) => spec_rlast(s@, c) == i as int,
            Option::None => spec_rlast(s@, c) == -1,
        },
{
    proof {
        lemma_rlast_bounds(s@, c);
    }
    let n = s.unicode_len();
    let mut i: usize = n;
    while i > 0
        invariant
            n == s@.len(),
            i <= n,
            forall|j: int| i <= j < n ==> s@[j] != c,
            spec_rlast(s@, c) < i,
        decreases i,
    {
        proof {
            lemma_rlast_bounds(s@, c);
        }
        if s.get_char(i - 1) == c {
            proof {
                assert(spec_rlast(s@, c) == i - 1) by {
                    if spec_rlast(s@, c) < i - 1 {
                        assert(s@[i - 1] != c);
                    }
                }
            }
            return Some(i - 1);
        }
        i = i - 1;
    }
    None
}

/// Where a path's extension begins: the index of the last dot, provided it
/// follows the last `/` or `\\` separator by more than one place (a
/// component beginning with its only dot has no extension).
pub open spec fn spec_extension_start(path: Seq<char>) -> Option<int> {
    let dot = spec_rlast(path, '.');
    let slash = spec_rlast(path, '/');
    let bslash = spec_rlast(path, '\\');
    let sep = if slash >= bslash {
        slash
    } else {
        bslash
    };
    if dot >= sep + 2 {
        Option::Some(dot)
    } else {
        Option::None
    }
}

/// Finds where a path's extension begins.
pub fn extension_start(path: &str) -> (r: Option<usize>)
    ensures
        match r {
            Option::Some(d) => spec_extension_start(path@) == Option::Some(d as int),
            Option::None => spec_extension_start(path@) is None,
        },
{
    let dot = rlast_char(path, '.');
    let slash = rlast_char(path, '/');
    let bslash = rlast_char(path, '\\');
    let sep: Option<usize> = match (slash, bslash) {
        (Option::Some(a), Option::Some(b)) => if a >= b {
            Some(a)
        } else {
            Some(b)
        },
        (Option::Some(a), Option::None) => Some(a),
        (Option::None, Option::Some(b)) => Some(b),
        (Option::None, Option::None) => None,
    };
    match (dot, sep) {
        (Option::Some(d), Option::Some(sp)) => if d >= 2 && d - 2 >= sp {
            Some(d)
        } else {
            None
        },
        (Option::Some(d), Option::None) => if d >= 1 {
            Some(d)
        } else {
            None
        },
        _ => None,
    }
}

/// The extension the cover copy keeps: the final component's extension, or
/// `jpg` when there is none or it is blank.
pub open spec fn spec_cover_ext(path: Seq<char>) -> Seq<char> {
    match spec_extension_start(path) {
        Option::Some(dot) => {
            let e = path.subrange(dot + 1, path.len() as int);
            if spec_trim(e).len() == 0 {
                "jpg"@
            } else {
                e
            }
        },
        Option::None => "jpg"@,
    }
}

/// Extracts a cover file's extension, defaulting to `jpg`.
pub fn cover_extension(path: &str) -> (r: String)
    ensures
        r@ == spec_cover_ext(path@),
{
    proof {
        lemma_rlast_bounds(path@, '.');
        lemma_rlast_bounds(path@, '/');
    }
    let n = path.unicode_len();
    let take_ext = extension_start(path);
    match take_ext {
        Option::Some(d) => {
            let e = path.substring_char(d + 1, n);
            let t = trim_str(e);
            if t.unicode_len() == 0 {
                let mut out = String::new();
                out.append("jpg");
                out
            } else {
                let mut out = String::new();
                out.append(e);
                out
            }
        },
        Option::None => {
            let mut out = String::new();
            out.append("jpg");
            out
        },
    }
}

// ---------------------------------------------------------------------------
// The batch planner.
// ---------------------------------------------------------------------------

/// Everything the plan of one task must satisfy: identity and sanitized
/// text fields, the clamped window, the chosen resolution, the output path
/// under the run directory, the fit mode's filter chains with the
/// subtitles suffix, the encoder argument lists, and the gating and path
/// ties of the subtitle file and the cover copy.
pub open spec fn spec_task_plan_ok(
    t: ClipExportPlatformTask,
    p: ClipTaskPlan,
    run_dir: Seq<char>,
    source: Seq<char>,
    subtitles: Option<crate::subtitle::ClipBatchSubtitlePayload>,
) -> bool {
    let fit = match t.fit_mode {
        Option::Some(m) => m@,
        Option::None => "cover"@,
    };
    let zoom = match t.render_zoom_milli {
        Option::Some(v) => v as int,
        Option::None => 1000,
    };
    let offx = match t.render_offset_x_milli {
        Option::Some(v) => v as int,
        Option::None => 0,
    };
    let offy = match t.render_offset_y_milli {
        Option::Some(v) => v as int,
        Option::None => 0,
    };
    let esc = match p.subtitle {
        Option::Some(sp) => Option::Some(spec_escaped_filter_path(sp.file_path@)),
        Option::None => Option::<Seq<char>>::None,
    };
    let stem_fallback = spec_sanitized_name(
        spec_sanitized_name(t.clip_id@, 96, "video"@) + "-"@ + spec_sanitized_name(
            t.platform_id@,
            96,
            "video"@,
        ),
        96,
        "video"@,
    );
    &&& p.clip_id@ == t.clip_id@
    &&& p.platform_id@ == t.platform_id@
    &&& (match p.title {
        Option::Some(x) => crate::text::spec_optional_text(t.title, 140) == Option::Some(x@),
        Option::None => crate::text::spec_optional_text(t.title, 140) is None,
    })
    &&& (match p.description {
        Option::Some(x) => crate::text::spec_optional_text(t.description, 600) == Option::Some(
            x@,
        ),
        Option::None => crate::text::spec_optional_text(t.description, 600) is None,
    })
    &&& (match p.tags {
        Option::Some(x) => crate::text::spec_optional_text(t.tags, 280) == Option::Some(x@),
        Option::None => crate::text::spec_optional_text(t.tags, 280) is None,
    })
    &&& p.clip_stem@ == (match crate::text::spec_optional_text(t.title, 140) {
        Option::Some(title) => spec_sanitized_name(title, 96, "video"@),
        Option::None => stem_fallback,
    })
    &&& p.start_ms as int == spec_clamped(t.start_ms as int)
    &&& p.end_ms as int == spec_clamped(t.end_ms as int)
    &&& p.end_ms > p.start_ms + 100
    &&& (p.target_w as int, p.target_h as int) == crate::resolution::spec_pick_with_override(
        t.aspect@,
        t.output_width,
        t.output_height,
    )
    &&& p.output_path@ == spec_path_join(run_dir, p.output_name@)
    &&& p.use_cover == spec_wants_cover(fit)
    &&& p.filter_primary@ == (if p.use_cover {
        spec_cover_filter(p.target_w as int, p.target_h as int, zoom, offx, offy)
    } else {
        spec_contain_filter(p.target_w as int, p.target_h as int)
    }) + spec_subtitles_suffix(esc)
    &&& (p.filter_fallback is Some <==> p.use_cover)
    &&& (match p.filter_fallback {
        Option::Some(fb) => fb@ == spec_cover_center_filter(p.target_w as int, p.target_h as int)
            + spec_subtitles_suffix(esc),
        Option::None => true,
    })
    &&& views_of_strings(p.args_primary@) == spec_export_args(
        p.start_ms as int,
        p.end_ms as int - p.start_ms as int,
        source,
        p.filter_primary@,
        p.output_path@,
    )
    &&& (p.args_fallback is Some <==> p.filter_fallback is Some)
    &&& (match (p.args_fallback, p.filter_fallback) {
        (Option::Some(af), Option::Some(fb)) => views_of_strings(af@) == spec_export_args(
            p.start_ms as int,
            p.end_ms as int - p.start_ms as int,
            source,
            fb@,
            p.output_path@,
        ),
        _ => true,
    })
    &&& (p.subtitle is Some ==> (subtitles matches Option::Some(pl) && pl.enabled
        && t.subtitles_enabled == Option::Some(true)))
    &&& ((subtitles is None || !(subtitles->Some_0.enabled) || t.subtitles_enabled
        != Option::Some(true)) ==> p.subtitle is None)
    &&& (match p.subtitle {
        Option::Some(sp) => sp.file_path@ == spec_path_join(run_dir, sp.file_name@) && (
        subtitles matches Option::Some(pl) && (exists|evs: Seq<crate::subtitle::AssEventView>|
            #![trigger evs.len()]
            evs.len() > 0 && sp.content@ == crate::subtitle::spec_ass_document(
                p.target_w as int,
                p.target_h as int,
                crate::subtitle::spec_font_family(pl.render_profile.font_family@),
                ({
                    let fs = pl.render_profile.font_size as int;
                    if fs < 24 {
                        24
                    } else if fs > 104 {
                        104
                    } else {
                        fs
                    }
                }),
                crate::subtitle::spec_ass_color(pl.render_profile.primary_color@, "#FFFFFF"@),
                crate::subtitle::spec_ass_color(pl.render_profile.secondary_color@, "#7EA6FF"@),
                crate::subtitle::spec_ass_color(pl.render_profile.outline_color@, "#0A0D16"@),
                crate::subtitle::spec_ass_back_color(
                    pl.render_profile.shadow_color@,
                    "#000000"@,
                    120,
                ),
                pl.render_profile.bold,
                pl.render_profile.italic,
                ({
                    let sp0 = pl.render_profile.letter_spacing_centi as int;
                    if sp0 < -140 {
                        -140
                    } else if sp0 > 580 {
                        580
                    } else {
                        sp0
                    }
                }),
                ({
                    let ow = pl.render_profile.outline_width_deci as int;
                    if ow > 70 {
                        70
                    } else {
                        ow
                    }
                }),
                ({
                    let sd = pl.render_profile.shadow_depth_deci as int;
                    if sd > 60 {
                        60
                    } else {
                        sd
                    }
                }),
                crate::subtitle::spec_alignment(
                    crate::subtitle::spec_effective_position(
                        pl.render_profile.position@,
                        match t.subtitle_position_override {
                            Option::Some(o) => Option::Some(o@),
                            Option::None => Option::None,
                        },
                    ),
                ),
                crate::subtitle::spec_margin_x(
                    pl.render_profile.safe_margin_x as int,
                    (match t.subtitle_box_width_milli {
                        Option::Some(v) => v as int,
                        Option::None => 1000,
                    }),
                    p.target_w as int,
                ),
                crate::subtitle::spec_margin_y(
                    pl.render_profile.safe_margin_y as int,
                    (match t.subtitle_box_height_milli {
                        Option::Some(v) => v as int,
                        Option::None => 1000,
                    }),
                    p.target_h as int,
                ),
                evs,
            ))),
        Option::None => true,
    })
    &&& (match p.cover {
        Option::Some(cv) => t.cover_path matches Option::Some(raw) && spec_trim(raw@).len() > 0
            && cv.source_path@ == spec_export_path_text(raw@) && cv.target_path@
            == spec_path_join(run_dir, cv.target_name@),
        Option::None => true,
    })
    &&& ((t.cover_path is None || spec_trim(t.cover_path->Some_0@).len() == 0)
        ==> p.cover is None)
}

/// Joining to the same base keeps distinct names distinct.
proof fn lemma_path_join_right_injective(a: Seq<char>, b1: Seq<char>, b2: Seq<char>)
    requires
        spec_path_join(a, b1) == spec_path_join(a, b2),
    ensures
        b1 == b2,
{
    if a.len() > 0 && a.last() == '/' {
        assert((a + b1).len() == (a + b2).len());
        assert(b1 =~= b2) by {
            assert forall|k: int| 0 <= k < b1.len() implies b1[k] == b2[k] by {
                assert((a + b1)[a.len() + k] == b1[k]);
                assert((a + b2)[a.len() + k] == b2[k]);
            }
        }
    } else {
        assert((a + "/"@ + b1).len() == (a + "/"@ + b2).len());
        assert(b1 =~= b2) by {
            assert forall|k: int| 0 <= k < b1.len() implies b1[k] == b2[k] by {
                assert((a + "/"@ + b1)[a.len() + "/"@.len() + k] == b1[k]);
                assert((a + "/"@ + b2)[a.len() + "/"@.len() + k] == b2[k]);
            }
        }
    }
}

/// A task's clamped window: both ends within ten hours, ending more than a
/// tenth of a second after it starts.
pub open spec fn spec_clamped(v: int) -> int {
    if v > 36000000 {
        36000000
    } else {
        v
    }
}

pub open spec fn spec_task_range_ok(t: ClipExportPlatformTask) -> bool {
    spec_clamped(t.end_ms as int) > spec_clamped(t.start_ms as int) + 100
}

/// Plans a whole batch: validates it, then lays out every task's output
/// file, subtitle file, cover copy, filter chains and encoder arguments
/// inside `run_dir`. Planned output paths are pairwise distinct.
#[verifier::rlimit(100)]
pub fn plan_export_batch(
    tasks: &Vec<ClipExportPlatformTask>,
    subtitles: &Option<crate::subtitle::ClipBatchSubtitlePayload>,
    source_path: &str,
    run_dir: &str,
) -> (r: Result<Vec<ClipTaskPlan>, String>)
    ensures
        match r {
            Ok(plans) => 0 < tasks@.len() <= 200 && plans@.len() == tasks@.len() && ((exists|i: int|
                0 <= i < tasks@.len() && tasks@[i].subtitles_enabled == Option::Some(true))
                ==> subtitles is Some) && (match subtitles {
                Option::Some(p) => p.enabled ==> p.words@.len() <= 60000,
                Option::None => true,
            }) && (forall|i: int, j: int|
                0 <= i < j < plans@.len() ==> plans@[i].output_path@ != plans@[j].output_path@)
                && (forall|i: int|
                0 <= i < plans@.len() ==> spec_task_plan_ok(
                    tasks@[i],
                    #[trigger] plans@[i],
                    run_dir@,
                    source_path@,
                    *subtitles,
                )),
            Err(_) => tasks@.len() == 0 || tasks@.len() > 200 || ((exists|i: int|
                0 <= i < tasks@.len() && tasks@[i].subtitles_enabled == Option::Some(true))
                && subtitles is None) || (match subtitles {
                Option::Some(p) => p.enabled && p.words@.len() > 60000,
                Option::None => false,
            }) || (exists|i: int| 0 <= i < tasks@.len() && !spec_task_range_ok(tasks@[i])),
        },
{
    let n = tasks.len();
    if n == 0 {
        let mut e = String::new();
        e.append("No export tasks were provided.");
        return Err(e);
    }
    if n > 200 {
        let mut e = String::new();
        e.append("Too many tasks in one export request.");
        return Err(e);
    }
    let mut any_subs = false;
    let mut i: usize = 0;
    while i < n
        invariant
            n == tasks@.len(),
            i <= n,
            any_subs == (exists|k: int|
                0 <= k < i && tasks@[k].subtitles_enabled == Option::Some(true)),
        decreases n - i,
    {
        let flag = match tasks[i].subtitles_enabled {
            Option::Some(b) => b,
            Option::None => false,
        };
        if flag {
            proof {
                assert(tasks@[i as int].subtitles_enabled == Option::Some(true));
            }
            any_subs = true;
            proof {
                assert(exists|k: int|
                    0 <= k < i + 1 && tasks@[k].subtitles_enabled == Option::Some(true));
            }
        } else {
            proof {
                if exists|k: int|
                    0 <= k < i + 1 && tasks@[k].subtitles_enabled == Option::Some(true) {
                    let k = choose|k: int|
                        0 <= k < i + 1 && tasks@[k].subtitles_enabled == Option::Some(true);
                    assert(k < i || k == i);
                }
            }
        }
        i = i + 1;
    }
    if any_subs && subtitles.is_none() {
        let mut e = String::new();
        e.append(
            "Subtitle profile is missing for subtitle-enabled tasks. Check export settings.",
        );
        return Err(e);
    }
    match subtitles {
        Option::Some(p) => {
            if p.enabled && p.words.len() > 60000 {
                let mut e = String::new();
                e.append(
                    "Subtitle word volume is too large. Reduce transcript size or split export into parts.",
                );
                return Err(e);
            }
        },
        Option::None => {},
    }

    let mut taken: Vec<String> = Vec::new();
    let mut plans: Vec<ClipTaskPlan> = Vec::new();
    let mut idx: usize = 0;
    while idx < n
        invariant
            n == tasks@.len(),
            0 < n <= 200,
            idx <= n,
            plans@.len() == idx,
            taken@.len() <= 3 * idx,
            (exists|i: int|
                0 <= i < tasks@.len() && tasks@[i].subtitles_enabled == Option::Some(true))
                ==> subtitles is Some,
            match subtitles {
                Option::Some(p) => p.enabled ==> p.words@.len() <= 60000,
                Option::None => true,
            },
            forall|i: int|
                0 <= i < plans@.len() ==> spec_name_taken(
                    taken@,
                    #[trigger] plans@[i].output_name@,
                ),
            forall|i: int, j: int|
                0 <= i < j < plans@.len() ==> plans@[i].output_name@ != plans@[j].output_name@,
            forall|i: int|
                0 <= i < plans@.len() ==> spec_task_plan_ok(
                    tasks@[i],
                    #[trigger] plans@[i],
                    run_dir@,
                    source_path@,
                    *subtitles,
                ),
        decreases n - idx,
    {
        let t = &tasks[idx];
        let start = clamp_export_time(t.start_ms);
        let end = clamp_export_time(t.end_ms);
        if end <= start || end - start <= 100 {
            proof {
                assert(!spec_task_range_ok(tasks@[idx as int]));
            }
            let mut e = String::new();
            e.append("Invalid clip range ");
            e.append(t.clip_id.as_str());
            e.append(" (");
            let s1 = u64_to_string(t.start_ms);
            e.append(s1.as_str());
            e.append("-");
            let s2 = u64_to_string(t.end_ms);
            e.append(s2.as_str());
            e.append(").");
            return Err(e);
        }
        let safe_clip_id = sanitize_file_stem(t.clip_id.as_str());
        let safe_platform_id = sanitize_file_stem(t.platform_id.as_str());
        let safe_title = sanitize_short_text(crate::strutil::copy_opt_string(&t.title), 140);
        let safe_description = sanitize_short_text(
            crate::strutil::copy_opt_string(&t.description),
            600,
        );
        let safe_tags = sanitize_short_text(crate::strutil::copy_opt_string(&t.tags), 280);
        let clip_stem: String = match &safe_title {
            Option::Some(ti) => sanitize_file_stem(ti.as_str()),
            Option::None => {
                let mut combined = String::new();
                combined.append(safe_clip_id.as_str());
                combined.append("-");
                combined.append(safe_platform_id.as_str());
                sanitize_file_stem(combined.as_str())
            },
        };
        let output_name = ensure_unique_export_file_path(&taken, clip_stem.as_str(), "mp4");
        let ghost taken0 = taken@;
        taken.push(crate::strutil::copy_str(output_name.as_str()));
        let output_path = path_join(run_dir, output_name.as_str());

        let (target_w, target_h) = crate::resolution::pick_render_resolution_with_override(
            t.aspect.as_str(),
            t.output_width,
            t.output_height,
        );

        // The clip's subtitle file.
        let wants_subs = match t.subtitles_enabled {
            Option::Some(b) => b,
            Option::None => false,
        };
        let mut subtitle_plan: Option<SubtitlePlanItem> = None;
        match subtitles {
            Option::Some(payload) => {
                if payload.enabled && wants_subs {
                    let ctx = crate::subtitle::ClipSubtitleRenderContext {
                        clip_start_ms: start,
                        clip_end_ms: end,
                        target_w,
                        target_h,
                        subtitle_offset_x_milli: match t.subtitle_offset_x_milli {
                            Option::Some(v) => v,
                            Option::None => 0,
                        },
                        subtitle_offset_y_milli: match t.subtitle_offset_y_milli {
                            Option::Some(v) => v,
                            Option::None => 0,
                        },
                        subtitle_box_width_milli: match t.subtitle_box_width_milli {
                            Option::Some(v) => v,
                            Option::None => 1000,
                        },
                        subtitle_box_height_milli: match t.subtitle_box_height_milli {
                            Option::Some(v) => v,
                            Option::None => 1000,
                        },
                    };
                    let doc = crate::subtitle::build_clip_subtitle_ass(
                        payload,
                        t.subtitle_position_override.as_ref(),
                        &ctx,
                    );
                    match doc {
                        Option::Some(d) => {
                            let mut subs_stem = String::new();
                            subs_stem.append(clip_stem.as_str());
                            subs_stem.append("-subs");
                            let file_name = ensure_unique_export_file_path(
                                &taken,
                                subs_stem.as_str(),
                                "ass",
                            );
                            taken.push(crate::strutil::copy_str(file_name.as_str()));
                            let file_path = path_join(run_dir, file_name.as_str());
                            let ghost evs0 = d.events@.map_values(
                                |e: crate::subtitle::AssEvent| e@,
                            );
                            proof {
                                assert(evs0.len() > 0);
                            }
                            subtitle_plan = Some(
                                SubtitlePlanItem { file_name, file_path, content: d.content },
                            );
                        },
                        Option::None => {},
                    }
                }
            },
            Option::None => {},
        }

        // Filter chains and encoder arguments.
        let fit_mode: String = match &t.fit_mode {
            Option::Some(m) => crate::strutil::copy_str(m.as_str()),
            Option::None => {
                let mut s = String::new();
                s.append("cover");
                s
            },
        };
        let use_cover = wants_cover_filter(fit_mode.as_str());
        let zoom = match t.render_zoom_milli {
            Option::Some(v) => v,
            Option::None => 1000,
        };
        let offx = match t.render_offset_x_milli {
            Option::Some(v) => v,
            Option::None => 0,
        };
        let offy = match t.render_offset_y_milli {
            Option::Some(v) => v,
            Option::None => 0,
        };
        let escaped_sub: Option<String> = match &subtitle_plan {
            Option::Some(sp) => Some(escape_ffmpeg_filter_path(sp.file_path.as_str())),
            Option::None => None,
        };
        let base_primary = if use_cover {
            build_cover_filter(target_w, target_h, zoom, offx, offy)
        } else {
            build_contain_filter(target_w, target_h)
        };
        let filter_primary = append_subtitles_filter(base_primary, escaped_sub.as_ref());
        let mut filter_fallback: Option<String> = None;
        if use_cover {
            let fb = append_subtitles_filter(
                build_cover_center_filter(target_w, target_h),
                escaped_sub.as_ref(),
            );
            filter_fallback = Some(fb);
        }
        let dur = end - start;
        let args_primary = build_export_args(
            start,
            dur,
            source_path,
            filter_primary.as_str(),
            output_path.as_str(),
        );
        let args_fallback: Option<Vec<String>> = match &filter_fallback {
            Option::Some(fb) => Some(
                build_export_args(start, dur, source_path, fb.as_str(), output_path.as_str()),
            ),
            Option::None => None,
        };

        // Cover image copy.
        let mut cover_plan: Option<CoverPlanItem> = None;
        match &t.cover_path {
            Option::Some(raw_cover) => {
                let trimmed = trim_str(raw_cover.as_str());
                if trimmed.unicode_len() > 0 {
                    let tn = trimmed.unicode_len();
                    let cover_source: String = if starts_with_str(trimmed.as_str(), "\\\\?\\") {
                        let plen = "\\\\?\\".unicode_len();
                        let stripped = trimmed.as_str().substring_char(plen, tn);
                        crate::strutil::copy_str(stripped)
                    } else {
                        trimmed
                    };
                    let ext = cover_extension(cover_source.as_str());
                    let mut cover_stem = String::new();
                    cover_stem.append(clip_stem.as_str());
                    cover_stem.append("-cover");
                    let target_name = ensure_unique_export_file_path(
                        &taken,
                        cover_stem.as_str(),
                        ext.as_str(),
                    );
                    taken.push(crate::strutil::copy_str(target_name.as_str()));
                    let target_path = path_join(run_dir, target_name.as_str());
                    cover_plan = Some(
                        CoverPlanItem { source_path: cover_source, target_name, target_path },
                    );
                }
            },
            Option::None => {},
        }

        let plan = ClipTaskPlan {
            clip_id: crate::strutil::copy_str(t.clip_id.as_str()),
            platform_id: crate::strutil::copy_str(t.platform_id.as_str()),
            title: safe_title,
            description: safe_description,
            tags: safe_tags,
            clip_stem,
            output_name,
            output_path,
            start_ms: start,
            end_ms: end,
            target_w,
            target_h,
            use_cover,
            filter_primary,
            filter_fallback,
            args_primary,
            args_fallback,
            subtitle: subtitle_plan,
            cover: cover_plan,
        };
        let ghost plans0 = plans@;
        plans.push(plan);
        proof {
            assert forall|i: int|
                0 <= i < plans@.len() implies spec_name_taken(
                taken@,
                #[trigger] plans@[i].output_name@,
            ) by {
                if i < plans0.len() {
                    assert(plans@[i] == plans0[i]);
                    let w = choose|w: int|
                        0 <= w < taken0.len() && taken0[w]@ == plans0[i].output_name@;
                    assert(taken@[w]@ == plans0[i].output_name@);
                } else {
                    let w = taken0.len() as int;
                    assert(taken@[w]@ == plans@[i].output_name@);
                }
            }
            assert forall|i: int, j: int|
                0 <= i < j < plans@.len() implies plans@[i].output_name@
                != plans@[j].output_name@ by {
                if j < plans0.len() {
                    assert(plans@[i] == plans0[i] && plans@[j] == plans0[j]);
                } else {
                    assert(plans@[i] == plans0[i]);
                    assert(spec_name_taken(taken0, plans0[i].output_name@));
                    assert(!spec_name_taken(taken0, plans@[j].output_name@));
                }
            }
        }
        idx = idx + 1;
    }
    proof {
        assert forall|i: int, j: int|
            0 <= i < j < plans@.len() implies plans@[i].output_path@
            != plans@[j].output_path@ by {
            if plans@[i].output_path@ == plans@[j].output_path@ {
                lemma_path_join_right_injective(
                    run_dir@,
                    plans@[i].output_name@,
                    plans@[j].output_name@,
                );
            }
        }
    }
    Ok(plans)
}

/// Builds the manifest entries from finished plans and the covers the host
/// actually copied.
pub fn build_manifest_entries(plans: &Vec<ClipTaskPlan>, copied_covers: &Vec<Option<String>>) -> (r:
    Vec<ExportManifestEntry>)
    requires
        copied_covers@.len() == plans@.len(),
    ensures
        r@.len() == plans@.len(),
        forall|i: int|
            0 <= i < r@.len() ==> {
                let e = #[trigger] r@[i];
                &&& e.clip_id@ == plans@[i].clip_id@
                &&& e.platform_id@ == plans@[i].platform_id@
                &&& (match (e.title, plans@[i].title) {
                    (Option::Some(a), Option::Some(b)) => a@ == b@,
                    (Option::None, Option::None) => true,
                    _ => false,
                })
                &&& (match (e.description, plans@[i].description) {
                    (Option::Some(a), Option::Some(b)) => a@ == b@,
                    (Option::None, Option::None) => true,
                    _ => false,
                })
                &&& (match (e.tags, plans@[i].tags) {
                    (Option::Some(a), Option::Some(b)) => a@ == b@,
                    (Option::None, Option::None) => true,
                    _ => false,
                })
                &&& e.start_ms == plans@[i].start_ms
                &&& e.end_ms == plans@[i].end_ms
                &&& e.output_path@ == plans@[i].output_path@
                &&& (match (e.cover_path, copied_covers@[i]) {
                    (Option::Some(a), Option::Some(b)) => a@ == b@,
                    (Option::None, Option::None) => true,
                    _ => false,
                })
            },
{
    let n = plans.len();
    let mut out: Vec<ExportManifestEntry> = Vec::new();
    let mut i: usize = 0;
    while i < n
        invariant
            n == plans@.len(),
            copied_covers@.len() == plans@.len(),
            i <= n,
            out@.len() == i,
            forall|k: int|
                0 <= k < out@.len() ==> {
                    let e = #[trigger] out@[k];
                    &&& e.clip_id@ == plans@[k].clip_id@
                    &&& e.platform_id@ == plans@[k].platform_id@
                    &&& (match (e.title, plans@[k].title) {
                        (Option::Some(a), Option::Some(b)) => a@ == b@,
                        (Option::None, Option::None) => true,
                        _ => false,
                    })
                    &&& (match (e.description, plans@[k].description) {
                        (Option::Some(a), Option::Some(b)) => a@ == b@,
                        (Option::None, Option::None) => true,
                        _ => false,
                    })
                    &&& (match (e.tags, plans@[k].tags) {
                        (Option::Some(a), Option::Some(b)) => a@ == b@,
                        (Option::None, Option::None) => true,
                        _ => false,
                    })
                    &&& e.start_ms == plans@[k].start_ms
                    &&& e.end_ms == plans@[k].end_ms
                    &&& e.output_path@ == plans@[k].output_path@
                    &&& (match (e.cover_path, copied_covers@[k]) {
                        (Option::Some(a), Option::Some(b)) => a@ == b@,
                        (Option::None, Option::None) => true,
                        _ => false,
                    })
                },
        decreases n - i,
    {
        let p = &plans[i];
        let entry = ExportManifestEntry {
            clip_id: crate::strutil::copy_str(p.clip_id.as_str()),
            platform_id: crate::strutil::copy_str(p.platform_id.as_str()),
            title: crate::strutil::copy_opt_string(&p.title),
            description: crate::strutil::copy_opt_string(&p.description),
            tags: crate::strutil::copy_opt_string(&p.tags),
            start_ms: p.start_ms,
            end_ms: p.end_ms,
            output_path: crate::strutil::copy_str(p.output_path.as_str()),
            cover_path: crate::strutil::copy_opt_string(&copied_covers[i]),
        };
        out.push(entry);
        i = i + 1;
    }
    out
}

} // verus!

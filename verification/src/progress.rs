//! Streamed progress: the `CF_PROGRESS` protocol of the downloader child,
//! the monotone ratio tracker, and the fetcher's emission throttle.
//!
//! Ratios are carried in permille (0..=1000), standing for the `[0, 1]`
//! progress range.

use vstd::prelude::*;
use crate::strutil::{
    spec_trim, spec_all_digits, spec_dec_value, trim_str, parse_u64_digits, spec_starts_with,
    starts_with_str,
};
use crate::decimal::{spec_dec_scaled, parse_decimal_scaled};
use crate::resolution::spec_round_div;
use crate::strutil::u64_to_string;

verus! {

/// A progress event for the host shell; `progress_permille` stands for the
/// `[0, 1]` progress value in thousandths.
#[derive(Debug, Clone)]
pub struct RuntimeInstallProgressEvent {
    pub task: String,
    pub title: Option<String>,
    pub status: String,
    pub message: String,
    pub detail: Option<String>,
    pub progress_permille: Option<u32>,
}

// ---------------------------------------------------------------------------
// Pipe-separated fields.
// ---------------------------------------------------------------------------

/// The completed `|`-separated fields and the trailing field.
pub open spec fn spec_pipe_fold(s: Seq<char>) -> (Seq<Seq<char>>, Seq<char>)
    decreases s.len(),
{
    if s.len() == 0 {
        (Seq::empty(), Seq::empty())
    } else {
        let (done, cur) = spec_pipe_fold(s.drop_last());
        let c = s.last();
        if c == '|' {
            (done.push(cur), Seq::empty())
        } else {
            (done, cur.push(c))
        }
    }
}

/// The `|`-separated fields of `s` (empty fields kept).
pub open spec fn spec_pipe_fields(s: Seq<char>) -> Seq<Seq<char>> {
    let (done, cur) = spec_pipe_fold(s);
    done.push(cur)
}

/// Splits on `|`, keeping empty fields.
pub fn split_pipe_fields(s: &str) -> (r: Vec<String>)
    ensures
        r@.len() == spec_pipe_fields(s@).len(),
        forall|k: int| 0 <= k < r@.len() ==> r@[k]@ == spec_pipe_fields(s@)[k],
{
    let n = s.unicode_len();
    let mut done: Vec<String> = Vec::new();
    let mut cur = String::new();
    let mut i: usize = 0;
    while i < n
        invariant
            n == s@.len(),
            i <= n,
            done@.len() == spec_pipe_fold(s@.subrange(0, i as int)).0.len(),
            forall|k: int|
                0 <= k < done@.len() ==> done@[k]@ == spec_pipe_fold(s@.subrange(0, i as int)).0[k],
            cur@ == spec_pipe_fold(s@.subrange(0, i as int)).1,
        decreases n - i,
    {
        let c = s.get_char(i);
        proof {
            assert(s@.subrange(0, i + 1 as int).drop_last() =~= s@.subrange(0, i as int));
            assert(s@.subrange(0, i + 1 as int).last() == s@[i as int]);
        }
        if c == '|' {
            done.push(cur);
            cur = String::new();
        } else {
            cur.push(c);
        }
        i = i + 1;
    }
    proof {
        assert(s@.subrange(0, n as int) =~= s@);
    }
    done.push(cur);
    done
}

// ---------------------------------------------------------------------------
// Field parsing.
// ---------------------------------------------------------------------------

/// The numeric value of an optional byte-count field: trimmed decimal
/// digits (one leading `+` sign allowed), within `u64`.
pub open spec fn spec_u64_field(v: Option<Seq<char>>) -> Option<int> {
    match v {
        Option::None => Option::None,
        Option::Some(s) => {
            let t0 = spec_trim(s);
            let t = if t0.len() > 0 && t0[0] == '+' {
                t0.subrange(1, t0.len() as int)
            } else {
                t0
            };
            if t.len() > 0 && spec_all_digits(t) && spec_dec_value(t) <= u64::MAX {
                Option::Some(spec_dec_value(t))
            } else {
                Option::None
            }
        },
    }
}

/// Parses an optional decimal byte-count field.
pub fn parse_u64_field(value: Option<&str>) -> (r: Option<u64>)
    ensures
        match r {
            Option::Some(v) => spec_u64_field(
                match value {
                    Option::Some(s) => Option::Some(s@),
                    Option::None => Option::None,
                },
            ) == Option::Some(v as int),
            Option::None => spec_u64_field(
                match value {
                    Option::Some(s) => Option::Some(s@),
                    Option::None => Option::None,
                },
            ) is None,
        },
{
    match value {
        Option::None => None,
        Option::Some(s) => {
            let t = trim_str(s);
            let n = t.unicode_len();
            if n > 0 && t.as_str().get_char(0) == '+' {
                let digits = t.as_str().substring_char(1, n);
                parse_u64_digits(digits)
            } else {
                parse_u64_digits(t.as_str())
            }
        },
    }
}

/// The percent field in permille: trimmed, with `%` and spaces removed,
/// read as a decimal and clamped to `[0, 1000]`.
pub open spec fn spec_percent_permille(s: Seq<char>) -> Option<int> {
    let cleaned = spec_remove_pct(spec_trim(s));
    match spec_dec_scaled(cleaned) {
        Option::Some((v, scale)) => {
            let p = spec_round_div(10 * v, scale);
            Option::Some(
                if p > 1000 {
                    1000
                } else {
                    p
                },
            )
        },
        Option::None => Option::None,
    }
}

/// `s` with every `%` and space removed.
pub open spec fn spec_remove_pct(s: Seq<char>) -> Seq<char>
    decreases s.len(),
{
    if s.len() == 0 {
        Seq::empty()
    } else {
        let rest = spec_remove_pct(s.subrange(1, s.len() as int));
        if s[0] == '%' || s[0] == ' ' {
            rest
        } else {
            seq![s[0]] + rest
        }
    }
}

proof fn lemma_remove_pct_concat(a: Seq<char>, b: Seq<char>)
    ensures
        spec_remove_pct(a + b) == spec_remove_pct(a) + spec_remove_pct(b),
    decreases a.len(),
{
    if a.len() == 0 {
        assert(a + b =~= b);
        assert(spec_remove_pct(a) + spec_remove_pct(b) =~= spec_remove_pct(b));
    } else {
        let t = a.subrange(1, a.len() as int);
        lemma_remove_pct_concat(t, b);
        assert((a + b).subrange(1, (a + b).len() as int) =~= t + b);
        assert((a + b)[0] == a[0]);
        if !(a[0] == '%' || a[0] == ' ') {
            assert(seq![a[0]] + (spec_remove_pct(t) + spec_remove_pct(b)) =~= (seq![a[0]]
                + spec_remove_pct(t)) + spec_remove_pct(b));
        }
    }
}

fn remove_pct(s: &str) -> (r: String)
    ensures
        r@ == spec_remove_pct(s@),
{
    let n = s.unicode_len();
    let mut out = String::new();
    let mut i: usize = 0;
    while i < n
        invariant
            n == s@.len(),
            i <= n,
            out@ == spec_remove_pct(s@.subrange(0, i as int)),
        decreases n - i,
    {
        let c = s.get_char(i);
        proof {
            assert(s@.subrange(0, i + 1 as int) =~= s@.subrange(0, i as int) + seq![s@[i as int]]);
            lemma_remove_pct_concat(s@.subrange(0, i as int), seq![s@[i as int]]);
            assert(seq![s@[i as int]].subrange(1, 1) =~= Seq::<char>::empty());
            assert(spec_remove_pct(Seq::<char>::empty()) =~= Seq::<char>::empty());
            if !(s@[i as int] == '%' || s@[i as int] == ' ') {
                assert(seq![s@[i as int]] + Seq::<char>::empty() =~= seq![s@[i as int]]);
            }
        }
        if !(c == '%' || c == ' ') {
            out.push(c);
        }
        proof {
            assert(out@ =~= spec_remove_pct(s@.subrange(0, i + 1 as int)));
        }
        i = i + 1;
    }
    proof {
        assert(s@.subrange(0, n as int) =~= s@);
    }
    out
}

fn parse_percent_permille(s: &str) -> (r: Option<u32>)
    ensures
        match r {
            Option::Some(v) => spec_percent_permille(s@) == Option::Some(v as int) && v <= 1000,
            Option::None => spec_percent_permille(s@) is None,
        },
{
    let t = trim_str(s);
    let cleaned = remove_pct(t.as_str());
    match parse_decimal_scaled(cleaned.as_str()) {
        Option::None => None,
        Option::Some((v, scale)) => {
            let p = (2 * (10 * v) + scale) / (2 * scale);
            if p > 1000 {
                Some(1000)
            } else {
                Some(p as u32)
            }
        },
    }
}

// ---------------------------------------------------------------------------
// The CF_PROGRESS protocol.
// ---------------------------------------------------------------------------

/// The fields of one progress report.
#[derive(Debug, Clone)]
pub struct CfProgress {
    pub downloaded: Option<u64>,
    pub total: Option<u64>,
    pub total_estimate: Option<u64>,
    pub percent_permille: Option<u32>,
}

pub open spec fn spec_is_cf_progress_line(line: Seq<char>) -> bool {
    spec_starts_with(line, "CF_PROGRESS|"@)
}

/// Field `k` of the payload after the `CF_PROGRESS|` prefix.
pub open spec fn spec_cf_field(line: Seq<char>, k: int) -> Option<Seq<char>> {
    let rest = line.subrange("CF_PROGRESS|"@.len() as int, line.len() as int);
    let parts = spec_pipe_fields(rest);
    if 0 <= k < parts.len() {
        Option::Some(parts[k])
    } else {
        Option::None
    }
}

/// Parses a `CF_PROGRESS` report line.
pub fn parse_cf_progress(line: &str) -> (r: Option<CfProgress>)
    ensures
        match r {
            Option::Some(cf) => spec_is_cf_progress_line(line@) && (match cf.downloaded {
                Option::Some(v) => spec_u64_field(spec_cf_field(line@, 0)) == Option::Some(v as int),
                Option::None => spec_u64_field(spec_cf_field(line@, 0)) is None,
            }) && (match cf.total {
                Option::Some(v) => spec_u64_field(spec_cf_field(line@, 1)) == Option::Some(v as int),
                Option::None => spec_u64_field(spec_cf_field(line@, 1)) is None,
            }) && (match cf.total_estimate {
                Option::Some(v) => spec_u64_field(spec_cf_field(line@, 2)) == Option::Some(v as int),
                Option::None => spec_u64_field(spec_cf_field(line@, 2)) is None,
            }) && (match cf.percent_permille {
                Option::Some(v) => spec_cf_field(line@, 3) is Some && spec_percent_permille(
                    spec_cf_field(line@, 3)->Some_0,
                ) == Option::Some(v as int) && v <= 1000,
                Option::None => spec_cf_field(line@, 3) is None || spec_percent_permille(
                    spec_cf_field(line@, 3)->Some_0,
                ) is None,
            }),
            Option::None => !spec_is_cf_progress_line(line@),
        },
{
    if !starts_with_str(line, "CF_PROGRESS|") {
        return None;
    }
    let plen = "CF_PROGRESS|".unicode_len();
    let n = line.unicode_len();
    let rest = line.substring_char(plen, n);
    let parts = split_pipe_fields(rest);
    let m = parts.len();
    let downloaded = if m > 0 {
        parse_u64_field(Some(parts[0].as_str()))
    } else {
        parse_u64_field(None)
    };
    let total = if m > 1 {
        parse_u64_field(Some(parts[1].as_str()))
    } else {
        parse_u64_field(None)
    };
    let total_estimate = if m > 2 {
        parse_u64_field(Some(parts[2].as_str()))
    } else {
        parse_u64_field(None)
    };
    let percent_permille = if m > 3 {
        parse_percent_permille(parts[3].as_str())
    } else {
        None
    };
    Some(CfProgress { downloaded, total, total_estimate, percent_permille })
}

// ---------------------------------------------------------------------------
// The monotone ratio tracker.
// ---------------------------------------------------------------------------

/// The raw ratio of one report: bytes over the total (or its estimate),
/// else the percent hint, else zero.
pub open spec fn spec_cf_ratio(cf: CfProgress) -> int {
    let base = if cf.total is Some {
        cf.total
    } else {
        cf.total_estimate
    };
    if cf.downloaded is Some && base is Some && base->Some_0 > 0 {
        let q = (cf.downloaded->Some_0 as int * 1000) / (base->Some_0 as int);
        if q > 1000 {
            1000
        } else {
            q
        }
    } else if cf.percent_permille is Some {
        if cf.percent_permille->Some_0 > 1000 {
            1000
        } else {
            cf.percent_permille->Some_0 as int
        }
    } else {
        0
    }
}

/// The tracker's candidate ratio never goes below the last reported one.
pub open spec fn spec_cf_candidate(last: Option<u32>, cf: CfProgress) -> int {
    let raw = spec_cf_ratio(cf);
    match last {
        Option::Some(l) => if raw >= l {
            raw
        } else {
            l as int
        },
        Option::None => raw,
    }
}

/// The emission rule: the ratio moved by at least a hundredth, and either
/// 240 ms have passed or the download is essentially complete.
pub open spec fn spec_cf_should_emit(last: Option<u32>, cand: int, elapsed_ms: int) -> bool {
    (match last {
        Option::Some(l) => cand - l >= 10 || l - cand >= 10,
        Option::None => true,
    }) && (elapsed_ms > 240 || cand >= 995)
}

/// One emitted progress report.
#[derive(Debug, Clone)]
pub struct YtdlpEmit {
    /// The download ratio, in permille.
    pub ratio_permille: u32,
    /// The ratio scaled to the download's share (nine tenths) of the whole
    /// task.
    pub overall_permille: u32,
    /// The ratio as a whole percentage, for display.
    pub percent_display: u32,
}

/// Tracks the download ratio across `CF_PROGRESS` reports and decides when
/// to emit, keeping reported ratios non-decreasing.
#[derive(Debug)]
pub struct YtdlpProgressTracker {
    last: Option<u32>,
}

impl YtdlpProgressTracker {
    /// The ratio is a permille value.
    #[verifier::type_invariant]
    spec fn wf(self) -> bool {
        match self.last {
            Option::Some(l) => l <= 1000,
            Option::None => true,
        }
    }

    /// The last emitted ratio, in permille.
    pub closed spec fn last_ratio(self) -> Option<u32> {
        self.last
    }

    /// A tracker that has emitted nothing.
    pub fn new() -> (r: YtdlpProgressTracker)
        ensures
            r.last_ratio() is None,
    {
        YtdlpProgressTracker { last: None }
    }

    /// Feeds one report; returns the event to emit, if any. Emitted ratios
    /// never decrease: each one equals the new `last_ratio`, which never
    /// goes below its previous value.
    pub fn observe(&mut self, cf: &CfProgress, elapsed_since_emit_ms: u64) -> (r: Option<
        YtdlpEmit,
    >)
        ensures
            ({
                let cand = spec_cf_candidate(old(self).last_ratio(), *cf);
                &&& (r is Some <==> spec_cf_should_emit(
                    old(self).last_ratio(),
                    cand,
                    elapsed_since_emit_ms as int,
                ))
                &&& (match r {
                    Option::Some(e) => final(self).last_ratio() == Option::Some(e.ratio_permille)
                        && e.ratio_permille == cand && e.overall_permille == cand * 9 / 10
                        && e.percent_display == (cand + 5) / 10,
                    Option::None => final(self).last_ratio() == old(self).last_ratio(),
                })
                &&& (old(self).last_ratio() matches Option::Some(l) ==> (final(self).last_ratio()
                    matches Option::Some(l2) && l2 >= l))
            }),
    {
        proof {
            use_type_invariant(&*self);
        }
        let base = match cf.total {
            Option::Some(t) => Some(t),
            Option::None => cf.total_estimate,
        };
        let from_bytes: Option<u32> = match (cf.downloaded, base) {
            (Option::Some(d), Option::Some(b)) => {
                if b > 0 {
                    let q = ((d as u128) * 1000) / (b as u128);
                    if q > 1000 {
                        Some(1000)
                    } else {
                        Some(q as u32)
                    }
                } else {
                    None
                }
            },
            _ => None,
        };
        let raw: u32 = match from_bytes {
            Option::Some(q) => q,
            Option::None => {
                match cf.percent_permille {
                    Option::Some(p) => if p > 1000 {
                        1000
                    } else {
                        p
                    },
                    Option::None => 0,
                }
            },
        };
        let cand: u32 = match self.last {
            Option::Some(l) => if raw >= l {
                raw
            } else {
                l
            },
            Option::None => raw,
        };
        let moved = match self.last {
            Option::Some(l) => (cand >= l && cand - l >= 10) || (l >= cand && l - cand >= 10),
            Option::None => true,
        };
        let should = moved && (elapsed_since_emit_ms > 240 || cand >= 995);
        if should {
            self.last = Some(cand);
            Some(
                YtdlpEmit {
                    ratio_permille: cand,
                    overall_permille: cand * 9 / 10,
                    percent_display: (cand + 5) / 10,
                },
            )
        } else {
            None
        }
    }
}

// ---------------------------------------------------------------------------
// The fetcher's emission rules.
// ---------------------------------------------------------------------------

/// The integer percentage of a download, rounded half-up and capped at 100.
pub fn fetch_percent(downloaded: u64, total: u64) -> (r: u32)
    requires
        total > 0,
    ensures
        r as int == ({
            let p = spec_round_div(downloaded as int * 100, total as int);
            if p > 100 {
                100
            } else {
                p
            }
        }),
{
    let p = (2 * (downloaded as u128) * 100 + (total as u128)) / (2 * (total as u128));
    if p > 100 {
        100
    } else {
        p as u32
    }
}

/// The fetcher emits when the whole percent moved and either 140 ms have
/// passed or the download finished.
pub fn should_emit_fetch_progress(percent: u32, last_emitted_percent: Option<u32>, elapsed_ms: u64)
    -> (r: bool)
    ensures
        r == ((match last_emitted_percent {
            Option::Some(l) => percent != l,
            Option::None => true,
        }) && (elapsed_ms > 140 || percent >= 100)),
{
    let changed = match last_emitted_percent {
        Option::Some(l) => percent != l,
        Option::None => true,
    };
    changed && (elapsed_ms > 140 || percent >= 100)
}

/// A fetched file below 256 KiB is treated as truncated.
pub fn fetch_size_ok(bytes: u64) -> (r: bool)
    ensures
        r == (bytes >= 262144),
{
    bytes >= 262144
}

/// Scales a download ratio into the `[start, end]` progress window.
pub fn fetch_scaled_permille(start_permille: u32, end_permille: u32, ratio_permille: u32) -> (r:
    u32)
    requires
        start_permille <= end_permille <= 1000,
        ratio_permille <= 1000,
    ensures
        r == start_permille + (end_permille - start_permille) * ratio_permille / 1000,
        start_permille <= r <= end_permille,
{
    let span = end_permille - start_permille;
    proof {
        crate::strutil::lemma_mul_le_bounds(span as int, ratio_permille as int, 1000, 1000);
        crate::strutil::lemma_mul_le_bounds(span as int, ratio_permille as int, span as int, 1000);
    }
    let add = span * ratio_permille / 1000;
    start_permille + add
}

// ---------------------------------------------------------------------------
// Byte-count display.
// ---------------------------------------------------------------------------

/// A byte count in tenths of a mebibyte, rounded half-up.
pub open spec fn spec_mb_tenths(bytes: int) -> int {
    spec_round_div(bytes * 10, 1048576)
}

fn push_mb(out: &mut String, bytes: u64)
    ensures
        final(out)@ == old(out)@ + crate::subtitle::spec_deci_str(spec_mb_tenths(bytes as int)),
{
    let num: u128 = 2u128 * ((bytes as u128) * 10) + 1048576u128;
    let tenths128: u128 = num / 2097152u128;
    proof {
        assert(num < 0x40_0000_0000_0000_0000u128);
        assert(tenths128 < 0x1_0000_0000_0000_0000u128) by (nonlinear_arith)
            requires
                tenths128 == num / 2097152u128,
                num < 0x40_0000_0000_0000_0000u128,
        ;
        assert(tenths128 as int == crate::resolution::spec_round_div(
            bytes as int * 10,
            1048576,
        ));
    }
    let tenths = tenths128 as u64;
    let whole = u64_to_string(tenths / 10);
    out.append(whole.as_str());
    out.append(".");
    out.push(((48 + tenths % 10) as u8) as char);
    proof {
        assert(final(out)@ =~= old(out)@ + crate::subtitle::spec_deci_str(
            spec_mb_tenths(bytes as int),
        ));
    }
}

/// The detail text of a download progress event: the received and total
/// byte counts in tenths of a mebibyte, falling back to the estimate, or a
/// fixed note while the size is still unknown.
pub fn download_detail_text(
    downloaded: Option<u64>,
    total: Option<u64>,
    total_estimate: Option<u64>,
) -> (r: String)
    ensures
        ({
            let used = if total is Some {
                total
            } else {
                total_estimate
            };
            match (downloaded, used) {
                (Option::Some(d), Option::Some(t)) => r@ == crate::subtitle::spec_deci_str(
                    spec_mb_tenths(d as int),
                ) + "/"@ + crate::subtitle::spec_deci_str(spec_mb_tenths(t as int)) + " MB"@,
                (Option::Some(d), Option::None) => r@ == crate::subtitle::spec_deci_str(
                    spec_mb_tenths(d as int),
                ) + " MB"@,
                (Option::None, _) => r@ == "Fetching metadata..."@,
            }
        }),
{
    let used: Option<u64> = match total {
        Option::Some(t) => Some(t),
        Option::None => total_estimate,
    };
    let mut out = String::new();
    match (downloaded, used) {
        (Option::Some(d), Option::Some(t)) => {
            push_mb(&mut out, d);
            out.append("/");
            push_mb(&mut out, t);
            out.append(" MB");
        },
        (Option::Some(d), Option::None) => {
            push_mb(&mut out, d);
            out.append(" MB");
        },
        (Option::None, _) => {
            out.append("Fetching metadata...");
        },
    }
    out
}

} // verus!

//! YouTube probe mapping and download planning: format selection, the
//! downloader's command line, and output-path resolution decisions.

use vstd::prelude::*;
use crate::strutil::{
    spec_trim, spec_starts_with, spec_u64_digits, trim_str, str_eq, starts_with_str,
    u64_to_string, copy_str, views_of_strings,
};
use crate::text::opt_str_view;
use crate::urlcheck::{validate_youtube_url, validate_format_id, parsed_url, spec_youtube_url_ok,
    spec_format_id_char,
};
use crate::export::{spec_path_join, path_join};

verus! {

// ---------------------------------------------------------------------------
// Structures.
// ---------------------------------------------------------------------------

/// A download request for one picked format.
#[derive(Debug, Clone)]
pub struct YoutubeDownloadRequest {
    pub url: String,
    pub format_id: String,
    pub video_only: Option<bool>,
    pub audio_only: Option<bool>,
    pub include_audio: Option<bool>,
    pub project_name: Option<String>,
    pub task_id: Option<String>,
}

/// The outcome of a finished download.
#[derive(Debug, Clone)]
pub struct YoutubeDownloadResult {
    pub output_path: String,
    pub source_url: String,
    pub format_id: String,
    pub duration_seconds: Option<u32>,
}

/// One selectable format, as surfaced to the interface. The frame rate is
/// carried in thousandths of a frame per second.
#[derive(Debug, Clone)]
pub struct YoutubeFormatOption {
    pub id: String,
    pub label: String,
    pub ext: String,
    pub resolution: String,
    pub fps_milli: Option<u64>,
    pub filesize: Option<u64>,
    pub vcodec: String,
    pub acodec: String,
    pub audio_only: bool,
    pub video_only: bool,
}

/// One raw probed format, as the prober reports it.
#[derive(Debug, Clone)]
pub struct YtdlpProbeFormat {
    pub format_id: Option<String>,
    pub ext: Option<String>,
    pub format_note: Option<String>,
    pub resolution: Option<String>,
    pub fps_milli: Option<u64>,
    pub filesize: Option<u64>,
    pub vcodec: Option<String>,
    pub acodec: Option<String>,
    pub width: Option<u32>,
    pub height: Option<u32>,
}

/// The probe result: metadata and the normalized format list. The duration
/// is in milliseconds.
#[derive(Debug, Clone)]
pub struct YoutubeProbeResult {
    pub title: String,
    pub uploader: Option<String>,
    pub duration_ms: Option<u64>,
    pub thumbnail: Option<String>,
    pub view_count: Option<u64>,
    pub like_count: Option<u64>,
    pub comment_count: Option<u64>,
    pub upload_date: Option<String>,
    pub channel_id: Option<String>,
    pub channel_url: Option<String>,
    pub channel_followers: Option<u64>,
    pub formats: Vec<YoutubeFormatOption>,
}

// ---------------------------------------------------------------------------
// Probe mapping.
// ---------------------------------------------------------------------------

/// The displayed resolution: the probed text, else `WxH`, else `auto`.
pub open spec fn spec_format_resolution(
    resolution: Option<Seq<char>>,
    width: Option<u32>,
    height: Option<u32>,
) -> Seq<char> {
    match resolution {
        Option::Some(rz) => rz,
        Option::None => {
            if width is Some && height is Some {
                spec_u64_digits(width->Some_0 as int) + "x"@ + spec_u64_digits(
                    height->Some_0 as int,
                )
            } else {
                "auto"@
            }
        },
    }
}

/// A probed format survives mapping when it carries a non-blank identifier.
pub open spec fn spec_format_kept(item: YtdlpProbeFormat) -> bool {
    item.format_id is Some && spec_trim(item.format_id->Some_0@).len() > 0
}

/// The correspondence between a surfaced option and the probed format it
/// came from: trimmed id, resolution fallback chain, `unknown`/`none`
/// defaults, the codec-pair flags, the bullet label, and the passed-through
/// numeric fields.
pub open spec fn spec_format_option_matches(opt: YoutubeFormatOption, item: YtdlpProbeFormat)
    -> bool {
    &&& item.format_id is Some
    &&& opt.id@ == spec_trim(item.format_id->Some_0@)
    &&& opt.id@.len() > 0
    &&& opt.resolution@ == spec_format_resolution(
        opt_str_view(item.resolution),
        item.width,
        item.height,
    )
    &&& opt.ext@ == (match item.ext {
        Option::Some(e) => e@,
        Option::None => "unknown"@,
    })
    &&& opt.vcodec@ == (match item.vcodec {
        Option::Some(v) => v@,
        Option::None => "none"@,
    })
    &&& opt.acodec@ == (match item.acodec {
        Option::Some(a) => a@,
        Option::None => "none"@,
    })
    &&& opt.audio_only == (opt.vcodec@ == "none"@ && opt.acodec@ != "none"@)
    &&& opt.video_only == (opt.acodec@ == "none"@ && opt.vcodec@ != "none"@)
    &&& opt.fps_milli == item.fps_milli
    &&& opt.filesize == item.filesize
    &&& opt.label@ == (if spec_trim(
        match item.format_note {
            Option::Some(nt) => nt@,
            Option::None => Seq::<char>::empty(),
        },
    ).len() == 0 {
        opt.resolution@ + " \u{2022} "@ + opt.ext@ + " \u{2022} "@ + opt.id@
    } else {
        opt.resolution@ + " \u{2022} "@ + opt.ext@ + " \u{2022} "@ + (match item.format_note {
            Option::Some(nt) => nt@,
            Option::None => Seq::<char>::empty(),
        }) + " \u{2022} "@ + opt.id@
    })
}

/// The probed formats that survive mapping, in order.
pub open spec fn spec_kept_formats(items: Seq<YtdlpProbeFormat>) -> Seq<YtdlpProbeFormat>
    decreases items.len(),
{
    if items.len() == 0 {
        Seq::empty()
    } else {
        let rest = spec_kept_formats(items.drop_last());
        if spec_format_kept(items.last()) {
            rest.push(items.last())
        } else {
            rest
        }
    }
}

/// Maps one probed format into a surfaced option. The identifier must be
/// non-blank; the label is `resolution • ext [• note] • id`; a format is
/// audio-only or video-only by its codec pair.
pub fn build_format_option(item: &YtdlpProbeFormat) -> (r: Option<YoutubeFormatOption>)
    ensures
        match r {
            Option::Some(opt) => spec_format_kept(*item) && spec_format_option_matches(
                opt,
                *item,
            ),
            Option::None => !spec_format_kept(*item),
        },
{
    let id: String = match &item.format_id {
        Option::Some(raw) => trim_str(raw.as_str()),
        Option::None => {
            return None;
        },
    };
    if id.unicode_len() == 0 {
        return None;
    }
    let resolution: String = match &item.resolution {
        Option::Some(rz) => copy_str(rz.as_str()),
        Option::None => {
            match (item.width, item.height) {
                (Option::Some(w), Option::Some(h)) => {
                    let mut s = String::new();
                    let ws = u64_to_string(w as u64);
                    s.append(ws.as_str());
                    s.append("x");
                    let hs = u64_to_string(h as u64);
                    s.append(hs.as_str());
                    s
                },
                _ => {
                    let mut s = String::new();
                    s.append("auto");
                    s
                },
            }
        },
    };
    let ext: String = match &item.ext {
        Option::Some(e) => copy_str(e.as_str()),
        Option::None => {
            let mut s = String::new();
            s.append("unknown");
            s
        },
    };
    let vcodec: String = match &item.vcodec {
        Option::Some(v) => copy_str(v.as_str()),
        Option::None => {
            let mut s = String::new();
            s.append("none");
            s
        },
    };
    let acodec: String = match &item.acodec {
        Option::Some(a) => copy_str(a.as_str()),
        Option::None => {
            let mut s = String::new();
            s.append("none");
            s
        },
    };
    let audio_only = str_eq(vcodec.as_str(), "none") && !str_eq(acodec.as_str(), "none");
    let video_only = str_eq(acodec.as_str(), "none") && !str_eq(vcodec.as_str(), "none");
    let note: String = match &item.format_note {
        Option::Some(nt) => copy_str(nt.as_str()),
        Option::None => String::new(),
    };
    let tn = trim_str(note.as_str());
    let mut label = String::new();
    label.append(resolution.as_str());
    label.append(" \u{2022} ");
    label.append(ext.as_str());
    label.append(" \u{2022} ");
    if tn.unicode_len() > 0 {
        label.append(note.as_str());
        label.append(" \u{2022} ");
    }
    label.append(id.as_str());
    Some(
        YoutubeFormatOption {
            id,
            label,
            ext,
            resolution,
            fps_milli: item.fps_milli,
            filesize: item.filesize,
            vcodec,
            acodec,
            audio_only,
            video_only,
        },
    )
}

/// Maps all probed formats in order, dropping exactly those without an
/// identifier: the result corresponds one-for-one to the kept formats.
pub fn map_probe_formats(items: &Vec<YtdlpProbeFormat>) -> (r: Vec<YoutubeFormatOption>)
    ensures
        r@.len() == spec_kept_formats(items@).len(),
        forall|k: int|
            0 <= k < r@.len() ==> spec_format_option_matches(
                #[trigger] r@[k],
                spec_kept_formats(items@)[k],
            ),
        r@.len() <= items@.len(),
        forall|k: int| 0 <= k < r@.len() ==> #[trigger] r@[k].id@.len() > 0,
{
    let n = items.len();
    let mut out: Vec<YoutubeFormatOption> = Vec::new();
    let mut i: usize = 0;
    proof {
        assert(items@.subrange(0, 0) =~= Seq::<YtdlpProbeFormat>::empty());
    }
    while i < n
        invariant
            n == items@.len(),
            i <= n,
            out@.len() == spec_kept_formats(items@.subrange(0, i as int)).len(),
            forall|k: int|
                0 <= k < out@.len() ==> spec_format_option_matches(
                    #[trigger] out@[k],
                    spec_kept_formats(items@.subrange(0, i as int))[k],
                ),
            out@.len() <= i,
            forall|k: int| 0 <= k < out@.len() ==> #[trigger] out@[k].id@.len() > 0,
        decreases n - i,
    {
        proof {
            assert(items@.subrange(0, i + 1 as int).drop_last() =~= items@.subrange(0, i as int));
            assert(items@.subrange(0, i + 1 as int).last() == items@[i as int]);
        }
        let ghost prev = out@;
        match build_format_option(&items[i]) {
            Option::Some(opt) => {
                out.push(opt);
                proof {
                    let kept = spec_kept_formats(items@.subrange(0, i + 1 as int));
                    assert(kept == spec_kept_formats(items@.subrange(0, i as int)).push(
                        items@[i as int],
                    ));
                    assert forall|k: int|
                        0 <= k < out@.len() implies spec_format_option_matches(
                        #[trigger] out@[k],
                        kept[k],
                    ) by {
                        if k < prev.len() {
                            assert(out@[k] == prev[k]);
                            assert(kept[k] == spec_kept_formats(
                                items@.subrange(0, i as int),
                            )[k]);
                        } else {
                            assert(out@[k] == opt);
                            assert(kept[k] == items@[i as int]);
                        }
                    }
                }
            },
            Option::None => {},
        }
        i = i + 1;
    }
    proof {
        assert(items@.subrange(0, n as int) =~= items@);
    }
    out
}

/// The probe title, defaulting to `YouTube video`.
pub fn probe_title_or_default(title: Option<String>) -> (r: String)
    ensures
        match title {
            Option::Some(t) => r@ == t@,
            Option::None => r@ == "YouTube video"@,
        },
{
    match title {
        Option::Some(t) => t,
        Option::None => {
            let mut s = String::new();
            s.append("YouTube video");
            s
        },
    }
}

// ---------------------------------------------------------------------------
// Download command construction.
// ---------------------------------------------------------------------------

/// The `-f` selector: a video-only pick merges a best audio stream, a
/// combined pick falls back through MP4, and a no-audio pick stands alone.
pub open spec fn spec_format_selector(fid: Seq<char>, include_audio: bool, video_only: bool) -> Seq<
    char,
> {
    if include_audio && video_only {
        fid + "+bestaudio[ext=m4a]/"@ + fid + "+bestaudio/"@ + fid + "/best"@
    } else if include_audio {
        fid + "/best[ext=mp4]/best"@
    } else {
        fid
    }
}

/// Builds the `-f` format selector.
pub fn build_format_selector(format_id: &str, include_audio: bool, video_only: bool) -> (r: String)
    ensures
        r@ == spec_format_selector(format_id@, include_audio, video_only),
{
    let mut out = String::new();
    if include_audio && video_only {
        out.append(format_id);
        out.append("+bestaudio[ext=m4a]/");
        out.append(format_id);
        out.append("+bestaudio/");
        out.append(format_id);
        out.append("/best");
    } else if include_audio {
        out.append(format_id);
        out.append("/best[ext=mp4]/best");
    } else {
        out.append(format_id);
    }
    out
}

/// The `-S` sort string.
pub fn build_sort_string(include_audio: bool) -> (r: String)
    ensures
        include_audio ==> r@ == "res,fps,vcodec:h264,acodec:aac"@,
        !include_audio ==> r@ == "res,fps,vcodec:h264"@,
{
    let mut out = String::new();
    if include_audio {
        out.append("res,fps,vcodec:h264,acodec:aac");
    } else {
        out.append("res,fps,vcodec:h264");
    }
    out
}

/// The output template inside the project directory.
pub fn ytdlp_output_template(project_dir: &str) -> (r: String)
    ensures
        r@ == spec_path_join(project_dir@, "%(title).120B-%(id)s.%(ext)s"@),
{
    path_join(project_dir, "%(title).120B-%(id)s.%(ext)s")
}

/// A validated download invocation.
#[derive(Debug, Clone)]
pub struct YoutubeDownloadSpec {
    pub url: String,
    pub format_id: String,
    pub include_audio: bool,
    pub selector: String,
    pub sort: String,
}

/// Validates a download request: the link must be a YouTube HTTPS URL, the
/// format code well formed and not audio-only; the selector and sort string
/// follow the picked format.
pub fn validate_download_request(request: &YoutubeDownloadRequest) -> (r: Result<
    YoutubeDownloadSpec,
    String,
>)
    ensures
        match r {
            Ok(spec) => {
                &&& parsed_url(spec_trim(request.url@)) is Some
                &&& spec_youtube_url_ok(parsed_url(spec_trim(request.url@))->Some_0)
                &&& spec.url@ == parsed_url(spec_trim(request.url@))->Some_0.text@
                &&& spec.format_id@ == spec_trim(request.format_id@)
                &&& 0 < spec.format_id@.len() <= 64
                &&& request.audio_only != Option::Some(true)
                &&& spec.include_audio == (match request.include_audio {
                    Option::Some(b) => b,
                    Option::None => !(request.video_only == Option::Some(true)),
                })
                &&& spec.selector@ == spec_format_selector(
                    spec.format_id@,
                    spec.include_audio,
                    request.video_only == Option::Some(true),
                )
                &&& (spec.include_audio ==> spec.sort@ == "res,fps,vcodec:h264,acodec:aac"@)
                &&& (!spec.include_audio ==> spec.sort@ == "res,fps,vcodec:h264"@)
            },
            Err(_) => parsed_url(spec_trim(request.url@)) is None || !spec_youtube_url_ok(
                parsed_url(spec_trim(request.url@))->Some_0,
            ) || spec_trim(request.format_id@).len() == 0 || spec_trim(request.format_id@).len()
                > 64 || (exists|j: int|
                0 <= j < spec_trim(request.format_id@).len() && !spec_format_id_char(
                    spec_trim(request.format_id@)[j],
                )) || request.audio_only == Option::Some(true),
        },
{
    let url = match validate_youtube_url(request.url.as_str()) {
        Ok(u) => u,
        Err(e) => {
            return Err(e);
        },
    };
    let format_id = match validate_format_id(request.format_id.as_str()) {
        Ok(f) => f,
        Err(e) => {
            return Err(e);
        },
    };
    let video_only = match request.video_only {
        Option::Some(b) => b,
        Option::None => false,
    };
    let audio_only = match request.audio_only {
        Option::Some(b) => b,
        Option::None => false,
    };
    let include_audio = match request.include_audio {
        Option::Some(b) => b,
        Option::None => !video_only,
    };
    if audio_only {
        let mut e = String::new();
        e.append("An audio-only format was selected. Choose a video format.");
        return Err(e);
    }
    let selector = build_format_selector(format_id.as_str(), include_audio, video_only);
    let sort = build_sort_string(include_audio);
    Ok(YoutubeDownloadSpec { url, format_id, include_audio, selector, sort })
}

// ---------------------------------------------------------------------------
// Output candidates from the child's prints.
// ---------------------------------------------------------------------------

/// `s` with every leading and trailing double quote removed.
pub open spec fn spec_quote_start_idx(s: Seq<char>) -> int
    decreases s.len(),
{
    if s.len() == 0 {
        0
    } else if s[0] == '"' {
        1 + spec_quote_start_idx(s.subrange(1, s.len() as int))
    } else {
        0
    }
}

pub open spec fn spec_quote_end_idx(s: Seq<char>) -> int
    decreases s.len(),
{
    if s.len() == 0 {
        0
    } else if s[s.len() - 1] == '"' {
        spec_quote_end_idx(s.subrange(0, s.len() - 1))
    } else {
        s.len() as int
    }
}

pub open spec fn spec_trim_quotes(s: Seq<char>) -> Seq<char> {
    let a = spec_quote_start_idx(s);
    let b = spec_quote_end_idx(s);
    if a < b {
        s.subrange(a, b)
    } else {
        Seq::empty()
    }
}

proof fn lemma_quote_start_idx_bounds(s: Seq<char>)
    ensures
        0 <= spec_quote_start_idx(s) <= s.len(),
        forall|j: int| 0 <= j < spec_quote_start_idx(s) ==> s[j] == '"',
        spec_quote_start_idx(s) < s.len() ==> s[spec_quote_start_idx(s)] != '"',
    decreases s.len(),
{
    if s.len() > 0 && s[0] == '"' {
        let t = s.subrange(1, s.len() as int);
        lemma_quote_start_idx_bounds(t);
        assert forall|j: int| 0 <= j < spec_quote_start_idx(s) implies s[j] == '"' by {
            if j > 0 {
                assert(t[j - 1] == s[j]);
            }
        }
        if spec_quote_start_idx(s) < s.len() {
            assert(t[spec_quote_start_idx(t)] == s[spec_quote_start_idx(s)]);
        }
    }
}

proof fn lemma_quote_end_idx_bounds(s: Seq<char>)
    ensures
        0 <= spec_quote_end_idx(s) <= s.len(),
        forall|j: int| spec_quote_end_idx(s) <= j < s.len() ==> s[j] == '"',
        spec_quote_end_idx(s) > 0 ==> s[spec_quote_end_idx(s) - 1] != '"',
    decreases s.len(),
{
    if s.len() > 0 && s[s.len() - 1] == '"' {
        let t = s.subrange(0, s.len() - 1);
        lemma_quote_end_idx_bounds(t);
        assert forall|j: int| spec_quote_end_idx(s) <= j < s.len() implies s[j] == '"' by {
            if j < s.len() - 1 {
                assert(t[j] == s[j]);
            }
        }
        if spec_quote_end_idx(s) > 0 {
            assert(t[spec_quote_end_idx(t) - 1] == s[spec_quote_end_idx(s) - 1]);
        }
    }
}

fn trim_quotes(s: &str) -> (r: String)
    ensures
        r@ == spec_trim_quotes(s@),
{
    proof {
        lemma_quote_start_idx_bounds(s@);
        lemma_quote_end_idx_bounds(s@);
    }
    let n = s.unicode_len();
    let mut a: usize = 0;
    while a < n && s.get_char(a) == '"'
        invariant
            n == s@.len(),
            a <= n,
            forall|j: int| 0 <= j < a ==> s@[j] == '"',
            a <= spec_quote_start_idx(s@),
        decreases n - a,
    {
        proof {
            lemma_quote_start_idx_bounds(s@);
            if a + 1 > spec_quote_start_idx(s@) {
                assert(s@[spec_quote_start_idx(s@)] != '"');
            }
        }
        a = a + 1;
    }
    proof {
        lemma_quote_start_idx_bounds(s@);
        if a < n {
            assert(a == spec_quote_start_idx(s@));
        }
    }
    if a == n {
        proof {
            if spec_quote_start_idx(s@) < spec_quote_end_idx(s@) {
                assert(s@[spec_quote_start_idx(s@)] == '"');
            }
        }
        return String::new();
    }
    let mut b: usize = n;
    while b > a && s.get_char(b - 1) == '"'
        invariant
            n == s@.len(),
            a < n,
            a == spec_quote_start_idx(s@),
            s@[a as int] != '"',
            a <= b <= n,
            forall|j: int| b <= j < n ==> s@[j] == '"',
            spec_quote_end_idx(s@) <= b,
        decreases b,
    {
        proof {
            lemma_quote_end_idx_bounds(s@);
            if b - 1 < spec_quote_end_idx(s@) {
                assert(s@[spec_quote_end_idx(s@) - 1] == '"');
            }
        }
        b = b - 1;
    }
    proof {
        lemma_quote_end_idx_bounds(s@);
        assert(b == spec_quote_end_idx(s@)) by {
            if b > a {
                if b > spec_quote_end_idx(s@) {
                    assert(s@[b - 1] == '"');
                }
            } else {
                assert(b == a);
                assert(s@[a as int] != '"');
            }
        }
    }
    let cut = s.substring_char(a, b);
    let mut out = String::new();
    out.append(cut);
    out
}

/// The normalized form of a printed output path: trimmed, quotes stripped,
/// one extended-length prefix removed; blank paths are dropped.
pub open spec fn spec_output_candidate(line: Seq<char>) -> Option<Seq<char>> {
    let t = spec_trim_quotes(spec_trim(line));
    if t.len() == 0 {
        Option::None
    } else if spec_starts_with(t, "\\\\?\\"@) {
        Option::Some(t.subrange("\\\\?\\"@.len() as int, t.len() as int))
    } else {
        Option::Some(t)
    }
}

/// Normalizes a path printed by the downloader.
pub fn normalize_output_path_from_ytdlp(line: &str) -> (r: Option<String>)
    ensures
        match r {
            Option::Some(p) => spec_output_candidate(line@) == Option::Some(p@),
            Option::None => spec_output_candidate(line@) is None,
        },
{
    let t0 = trim_str(line);
    let t = trim_quotes(t0.as_str());
    let n = t.unicode_len();
    if n == 0 {
        return None;
    }
    if starts_with_str(t.as_str(), "\\\\?\\") {
        let plen = "\\\\?\\".unicode_len();
        let stripped = t.as_str().substring_char(plen, n);
        let mut out = String::new();
        out.append(stripped);
        return Some(out);
    }
    Some(t)
}

/// Records an output candidate, keeping only the most recent 32.
pub fn push_output_candidate(candidates: &mut Vec<String>, candidate: String)
    ensures
        final(candidates)@ == (if old(candidates)@.len() >= 32 {
            old(candidates)@.subrange(1, old(candidates)@.len() as int)
        } else {
            old(candidates)@
        }).push(candidate),
        old(candidates)@.len() <= 32 ==> final(candidates)@.len() <= 32,
{
    if candidates.len() >= 32 {
        let _dropped = candidates.remove(0);
        proof {
            assert(candidates@ =~= old(candidates)@.subrange(1, old(candidates)@.len() as int));
        }
    }
    candidates.push(candidate);
}

/// Whether a canonical candidate lies within the canonical project
/// directory: it is the directory itself or sits under it.
pub open spec fn spec_within_dir(dir: Seq<char>, candidate: Seq<char>) -> bool {
    candidate == dir || spec_starts_with(candidate, dir + "/"@)
}

/// Decides containment of a canonical path in the project directory.
pub fn is_within_dir(dir: &str, candidate: &str) -> (r: bool)
    ensures
        r == spec_within_dir(dir@, candidate@),
{
    if str_eq(candidate, dir) {
        return true;
    }
    let mut prefix = String::new();
    prefix.append(dir);
    prefix.append("/");
    proof {
        assert(prefix@ =~= dir@ + "/"@);
    }
    starts_with_str(candidate, prefix.as_str())
}

/// The most recent candidates (up to four), most recent first.
pub open spec fn spec_recent_candidates(views: Seq<Seq<char>>) -> Seq<Seq<char>> {
    let take = if views.len() < 4 {
        views.len() as int
    } else {
        4
    };
    Seq::new(take as nat, |i: int| views[views.len() - 1 - i])
}

/// The failure diagnostic naming up to four recent candidates, most recent
/// first, joined by ` | `; `none` when the child printed no candidate.
pub fn download_failure_message(candidates: &Vec<String>) -> (r: String)
    ensures
        candidates@.len() == 0 ==> r@ == "Failed to resolve downloaded file path. yt-dlp candidates: "@
            + "none"@,
        candidates@.len() > 0 ==> r@ == "Failed to resolve downloaded file path. yt-dlp candidates: "@
            + crate::subtitle::spec_join_parts(
            spec_recent_candidates(views_of_strings(candidates@)),
            " | "@,
        ),
{
    let mut out = String::new();
    out.append("Failed to resolve downloaded file path. yt-dlp candidates: ");
    let ghost prefix = out@;
    let m = candidates.len();
    if m == 0 {
        out.append("none");
        return out;
    }
    let take: usize = if m < 4 {
        m
    } else {
        4
    };
    let ghost rev = spec_recent_candidates(views_of_strings(candidates@));
    proof {
        assert(rev.len() == take);
        assert(rev.take(0) =~= Seq::<Seq<char>>::empty());
    }
    let mut k: usize = 0;
    while k < take
        invariant
            rev == spec_recent_candidates(views_of_strings(candidates@)),
            prefix == "Failed to resolve downloaded file path. yt-dlp candidates: "@,
            take <= m,
            take == rev.len(),
            m == candidates@.len(),
            k <= take,
            out@ == prefix + crate::subtitle::spec_join_parts(rev.take(k as int), " | "@),
        decreases take - k,
    {
        proof {
            assert(rev.take(k + 1 as int).drop_last() =~= rev.take(k as int));
            assert(rev.take(k + 1 as int).last() == rev[k as int]);
            assert(rev[k as int] == views_of_strings(candidates@)[m - 1 - k]);
            assert(views_of_strings(candidates@)[m - 1 - k] == candidates@[m - 1 - k]@);
        }
        if k > 0 {
            out.append(" | ");
        } else {
            proof {
                assert(rev.take(1).drop_last() =~= Seq::<Seq<char>>::empty());
            }
        }
        out.append(candidates[m - 1 - k].as_str());
        proof {
            assert(out@ =~= prefix + crate::subtitle::spec_join_parts(
                rev.take(k + 1 as int),
                " | "@,
            ));
        }
        k = k + 1;
    }
    proof {
        assert(rev.take(take as int) =~= rev);
    }
    out
}

/// The rounded whole-second duration surfaced for a finished download;
/// absent or zero durations are dropped.
pub fn duration_seconds_of(duration_ms: Option<u64>) -> (r: Option<u32>)
    ensures
        match duration_ms {
            Option::Some(ms) => {
                if ms > 0 {
                    r matches Option::Some(secs) && secs as int == ({
                        let v = (ms + 500) as int / 1000;
                        if v > u32::MAX {
                            u32::MAX as int
                        } else {
                            v
                        }
                    })
                } else {
                    r is None
                }
            },
            Option::None => r is None,
        },
{
    match duration_ms {
        Option::Some(ms) => {
            if ms >= 4294967294500 {
                Some(u32::MAX)
            } else if ms > 0 {
                let v = (ms + 500) / 1000;
                if v > 0xFFFF_FFFF {
                    Some(u32::MAX)
                } else {
                    Some(v as u32)
                }
            } else {
                None
            }
        },
        Option::None => None,
    }
}

} // verus!

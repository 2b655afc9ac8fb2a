//! External tool management: managed-install sources and checksums,
//! archive entry selection, resolution order, and tool status reports.

use vstd::prelude::*;
use crate::strutil::{
    spec_lower, spec_ends_with, str_eq, ends_with_str, ascii_lower, copy_str,
};
use crate::checksum::{
    spec_first_sha_token, spec_sha_for_asset, spec_lines, spec_tokens, parse_sha256_token,
    parse_sha256_for_asset,
};
use crate::settings::RuntimeToolsSettings;
use crate::export::spec_rlast;

verus! {

/// The current time in Unix milliseconds. Relies on std::time::SystemTime;
/// the result depends on the clock, so nothing is promised of it.
#[verifier::external_body]
pub fn now_unix_millis() -> (r: Result<u64, String>)
{
    match std::time::SystemTime::now().duration_since(std::time::UNIX_EPOCH) {
        Ok(d) => Ok(d.as_millis() as u64),
        Err(_) => Err("Failed to compute system time.".to_string()),
    }
}

// ---------------------------------------------------------------------------
// Managed install sources.
// ---------------------------------------------------------------------------

/// The platform's binary name: `.exe` is appended on Windows.
pub fn platform_bin(name: &str, windows: bool) -> (r: String)
    ensures
        windows ==> r@ == name@ + ".exe"@,
        !windows ==> r@ == name@,
{
    let mut out = String::new();
    out.append(name);
    if windows {
        out.append(".exe");
    }
    out
}

/// The published download source of the managed downloader binary.
pub fn ytdlp_download_url(windows: bool) -> (r: String)
    ensures
        windows ==> r@ == "https://github.com/yt-dlp/yt-dlp/releases/latest/download/yt-dlp.exe"@,
        !windows ==> r@ == "https://github.com/yt-dlp/yt-dlp/releases/latest/download/yt-dlp"@,
{
    let mut out = String::new();
    if windows {
        out.append("https://github.com/yt-dlp/yt-dlp/releases/latest/download/yt-dlp.exe");
    } else {
        out.append("https://github.com/yt-dlp/yt-dlp/releases/latest/download/yt-dlp");
    }
    out
}

/// The checksum-manifest asset name of the downloader binary.
pub fn ytdlp_asset_name(windows: bool) -> (r: String)
    ensures
        windows ==> r@ == "yt-dlp.exe"@,
        !windows ==> r@ == "yt-dlp"@,
{
    let mut out = String::new();
    if windows {
        out.append("yt-dlp.exe");
    } else {
        out.append("yt-dlp");
    }
    out
}

/// The primary (essentials) Windows transcoder archive source.
pub fn ffmpeg_essentials_url() -> (r: String)
    ensures
        r@ == "https://www.gyan.dev/ffmpeg/builds/ffmpeg-release-essentials.zip"@,
{
    let mut out = String::new();
    out.append("https://www.gyan.dev/ffmpeg/builds/ffmpeg-release-essentials.zip");
    out
}

/// The fallback Windows transcoder archive source.
pub fn ffmpeg_fallback_url() -> (r: String)
    ensures
        r@ == "https://github.com/BtbN/FFmpeg-Builds/releases/latest/download/ffmpeg-master-latest-win64-gpl.zip"@,
{
    let mut out = String::new();
    out.append(
        "https://github.com/BtbN/FFmpeg-Builds/releases/latest/download/ffmpeg-master-latest-win64-gpl.zip",
    );
    out
}

/// The checksum source of the primary archive.
pub fn ffmpeg_essentials_sha256_url() -> (r: String)
    ensures
        r@ == "https://www.gyan.dev/ffmpeg/builds/ffmpeg-release-essentials.zip.sha256"@,
{
    let mut out = String::new();
    out.append("https://www.gyan.dev/ffmpeg/builds/ffmpeg-release-essentials.zip.sha256");
    out
}

/// The checksum manifest source of the fallback archive.
pub fn ffmpeg_fallback_sha256_url() -> (r: String)
    ensures
        r@ == "https://github.com/BtbN/FFmpeg-Builds/releases/latest/download/checksums.sha256"@,
{
    let mut out = String::new();
    out.append("https://github.com/BtbN/FFmpeg-Builds/releases/latest/download/checksums.sha256");
    out
}

/// The checksum manifest source of the downloader binary.
pub fn ytdlp_sha256sums_url() -> (r: String)
    ensures
        r@ == "https://github.com/yt-dlp/yt-dlp/releases/latest/download/SHA2-256SUMS"@,
{
    let mut out = String::new();
    out.append("https://github.com/yt-dlp/yt-dlp/releases/latest/download/SHA2-256SUMS");
    out
}

/// Reads the expected downloader digest out of the published manifest.
pub fn expected_ytdlp_sha256(manifest: &str, windows: bool) -> (r: Result<String, String>)
    ensures
        match r {
            Ok(h) => spec_sha_for_asset(
                spec_lines(manifest@),
                if windows {
                    "yt-dlp.exe"@
                } else {
                    "yt-dlp"@
                },
            ) == Option::Some(h@),
            Err(_) => spec_sha_for_asset(
                spec_lines(manifest@),
                if windows {
                    "yt-dlp.exe"@
                } else {
                    "yt-dlp"@
                },
            ) is None,
        },
{
    let asset = ytdlp_asset_name(windows);
    match parse_sha256_for_asset(manifest, asset.as_str()) {
        Option::Some(h) => Ok(h),
        Option::None => {
            let mut e = String::new();
            e.append("Failed to find SHA256 for selected yt-dlp binary.");
            Err(e)
        },
    }
}

/// Reads the expected archive digest for a candidate source: the primary
/// source publishes a bare token, the fallback a manifest keyed by the
/// archive file name; any other source is refused.
pub fn expected_ffmpeg_sha256_for_url(candidate_url: &str, checksum_payload: &str) -> (r: Result<
    String,
    String,
>)
    ensures
        candidate_url@ == "https://www.gyan.dev/ffmpeg/builds/ffmpeg-release-essentials.zip"@
            ==> (match r {
            Ok(h) => spec_first_sha_token(spec_tokens(checksum_payload@)) == Option::Some(h@),
            Err(_) => spec_first_sha_token(spec_tokens(checksum_payload@)) is None,
        }),
        candidate_url@
            == "https://github.com/BtbN/FFmpeg-Builds/releases/latest/download/ffmpeg-master-latest-win64-gpl.zip"@
            ==> (match r {
            Ok(h) => spec_sha_for_asset(
                spec_lines(checksum_payload@),
                "ffmpeg-master-latest-win64-gpl.zip"@,
            ) == Option::Some(h@),
            Err(_) => spec_sha_for_asset(
                spec_lines(checksum_payload@),
                "ffmpeg-master-latest-win64-gpl.zip"@,
            ) is None,
        }),
        (candidate_url@ != "https://www.gyan.dev/ffmpeg/builds/ffmpeg-release-essentials.zip"@
            && candidate_url@
            != "https://github.com/BtbN/FFmpeg-Builds/releases/latest/download/ffmpeg-master-latest-win64-gpl.zip"@)
            ==> r is Err,
{
    proof {
        reveal_strlit("https://www.gyan.dev/ffmpeg/builds/ffmpeg-release-essentials.zip");
        reveal_strlit(
            "https://github.com/BtbN/FFmpeg-Builds/releases/latest/download/ffmpeg-master-latest-win64-gpl.zip",
        );
        assert("https://www.gyan.dev/ffmpeg/builds/ffmpeg-release-essentials.zip"@.len() == 64);
        assert("https://github.com/BtbN/FFmpeg-Builds/releases/latest/download/ffmpeg-master-latest-win64-gpl.zip"@.len()
            == 97);
        assert("https://www.gyan.dev/ffmpeg/builds/ffmpeg-release-essentials.zip"@
            != "https://github.com/BtbN/FFmpeg-Builds/releases/latest/download/ffmpeg-master-latest-win64-gpl.zip"@);
    }
    let essentials = ffmpeg_essentials_url();
    let fallback = ffmpeg_fallback_url();
    if str_eq(candidate_url, essentials.as_str()) {
        return match parse_sha256_token(checksum_payload) {
            Option::Some(h) => Ok(h),
            Option::None => {
                let mut e = String::new();
                e.append("Failed to read SHA256 for ffmpeg-release-essentials.zip.");
                Err(e)
            },
        };
    }
    if str_eq(candidate_url, fallback.as_str()) {
        return match parse_sha256_for_asset(checksum_payload, "ffmpeg-master-latest-win64-gpl.zip")
        {
            Option::Some(h) => Ok(h),
            Option::None => {
                let mut e = String::new();
                e.append("Failed to find SHA256 for ffmpeg-master-latest-win64-gpl.zip.");
                Err(e)
            },
        };
    }
    let mut e = String::new();
    e.append("Unknown FFmpeg archive source.");
    Err(e)
}

// ---------------------------------------------------------------------------
// Archive entry selection.
// ---------------------------------------------------------------------------

/// What an archive entry name is, once backslashes become slashes and the
/// name is lowercased.
pub open spec fn spec_entry_normalized(name: Seq<char>) -> Seq<char> {
    spec_lower(name.map_values(|c: char| crate::export::spec_slash_char(c)))
}

/// Which extracted binary an archive entry holds.
#[derive(Debug, Clone, Copy, PartialEq, Eq, Structural)]
pub enum FfmpegArchiveEntry {
    Transcoder,
    Prober,
    Other,
}

/// Classifies an archive entry by its normalized name's suffix.
pub fn classify_ffmpeg_archive_entry(name: &str) -> (r: FfmpegArchiveEntry)
    ensures
        r == FfmpegArchiveEntry::Transcoder <==> spec_ends_with(
            spec_entry_normalized(name@),
            "/bin/ffmpeg.exe"@,
        ),
        r == FfmpegArchiveEntry::Prober <==> (!spec_ends_with(
            spec_entry_normalized(name@),
            "/bin/ffmpeg.exe"@,
        ) && spec_ends_with(spec_entry_normalized(name@), "/bin/ffprobe.exe"@)),
{
    let n = name.unicode_len();
    let mut slashed = String::new();
    let mut i: usize = 0;
    while i < n
        invariant
            n == name@.len(),
            i <= n,
            slashed@ == name@.subrange(0, i as int).map_values(|c: char| crate::export::spec_slash_char(c)),
        decreases n - i,
    {
        let c = name.get_char(i);
        if c == '\\' {
            slashed.push('/');
        } else {
            slashed.push(c);
        }
        proof {
            assert(name@.subrange(0, i + 1 as int).map_values(|c: char| crate::export::spec_slash_char(c))
                =~= name@.subrange(0, i as int).map_values(|c: char| crate::export::spec_slash_char(c)).push(
                crate::export::spec_slash_char(name@[i as int]),
            ));
        }
        i = i + 1;
    }
    proof {
        assert(name@.subrange(0, n as int) =~= name@);
    }
    let normalized = ascii_lower(slashed.as_str());
    if ends_with_str(normalized.as_str(), "/bin/ffmpeg.exe") {
        FfmpegArchiveEntry::Transcoder
    } else if ends_with_str(normalized.as_str(), "/bin/ffprobe.exe") {
        FfmpegArchiveEntry::Prober
    } else {
        FfmpegArchiveEntry::Other
    }
}

// ---------------------------------------------------------------------------
// Tool status.
// ---------------------------------------------------------------------------

/// The reported state of one external tool.
#[derive(Debug, Clone)]
pub struct ToolStatus {
    pub name: String,
    pub available: bool,
    pub source: String,
    pub path: Option<String>,
    pub version: Option<String>,
    pub message: Option<String>,
}

/// The full tool report.
#[derive(Debug, Clone)]
pub struct RuntimeToolsStatus {
    pub settings: RuntimeToolsSettings,
    pub ffmpeg: ToolStatus,
    pub ffprobe: ToolStatus,
    pub ytdlp: ToolStatus,
    pub ytdlp_system_available: bool,
    pub projects_dir: String,
}

/// Builds the status of a resolved tool from the first line its version
/// query printed: a tool is available exactly when a resolved path produced
/// a non-empty version line.
pub fn inspect_tool(
    path_with_source: Option<(String, String)>,
    name: &str,
    version_line: Option<String>,
) -> (r: ToolStatus)
    ensures
        r.name@ == name@,
        match path_with_source {
            Option::Some(ps) => {
                &&& r.available == (version_line is Some)
                &&& r.source@ == ps.1@
                &&& r.path matches Option::Some(p) && p@ == ps.0@
                &&& (match (version_line, r.version) {
                    (Option::Some(v), Option::Some(rv)) => rv@ == v@,
                    (Option::None, Option::None) => true,
                    _ => false,
                })
                &&& r.message is None
            },
            Option::None => {
                &&& !r.available
                &&& r.source@ == "missing"@
                &&& r.path is None
                &&& r.version is None
                &&& r.message matches Option::Some(msg) && msg@ == "Tool not found."@
            },
        },
{
    let mut nm = String::new();
    nm.append(name);
    match path_with_source {
        Option::Some((path, source)) => {
            let available = version_line.is_some();
            ToolStatus {
                name: nm,
                available,
                source,
                path: Some(path),
                version: version_line,
                message: None,
            }
        },
        Option::None => {
            let mut source = String::new();
            source.append("missing");
            let mut msg = String::new();
            msg.append("Tool not found.");
            ToolStatus {
                name: nm,
                available: false,
                source,
                path: None,
                version: None,
                message: Some(msg),
            }
        },
    }
}

// ---------------------------------------------------------------------------
// Resolution order.
// ---------------------------------------------------------------------------

/// The facts the host gathered about where a tool might be.
#[derive(Debug, Clone)]
pub struct ToolCandidates {
    /// The custom path, present only when it exists and is a regular file
    /// after canonicalization.
    pub custom: Option<String>,
    /// The managed binary's path, present only when the file exists.
    pub managed: Option<String>,
    /// The first bundled candidate that exists.
    pub bundled: Option<String>,
    /// The path found on the system search path.
    pub system: Option<String>,
}

/// Resolves a transcoder-family binary: custom, then managed, then bundled
/// when preferred, then system, then bundled as a last resort.
pub fn resolve_ffmpeg_like(candidates: &ToolCandidates, prefer_bundled: bool) -> (r: Option<
    (String, String),
>)
    ensures
        match r {
            Option::Some(ps) => {
                if candidates.custom is Some {
                    ps.0@ == candidates.custom->Some_0@ && ps.1@ == "custom"@
                } else if candidates.managed is Some {
                    ps.0@ == candidates.managed->Some_0@ && ps.1@ == "managed"@
                } else if prefer_bundled && candidates.bundled is Some {
                    ps.0@ == candidates.bundled->Some_0@ && ps.1@ == "bundled"@
                } else if candidates.system is Some {
                    ps.0@ == candidates.system->Some_0@ && ps.1@ == "system"@
                } else {
                    candidates.bundled is Some && ps.0@ == candidates.bundled->Some_0@ && ps.1@
                        == "bundled"@
                }
            },
            Option::None => candidates.custom is None && candidates.managed is None
                && candidates.bundled is None && candidates.system is None,
        },
{
    match &candidates.custom {
        Option::Some(p) => {
            return Some((copy_str(p.as_str()), copy_str("custom")));
        },
        Option::None => {},
    }
    match &candidates.managed {
        Option::Some(p) => {
            return Some((copy_str(p.as_str()), copy_str("managed")));
        },
        Option::None => {},
    }
    if prefer_bundled {
        match &candidates.bundled {
            Option::Some(p) => {
                return Some((copy_str(p.as_str()), copy_str("bundled")));
            },
            Option::None => {},
        }
    }
    match &candidates.system {
        Option::Some(p) => {
            return Some((copy_str(p.as_str()), copy_str("system")));
        },
        Option::None => {},
    }
    match &candidates.bundled {
        Option::Some(p) => Some((copy_str(p.as_str()), copy_str("bundled"))),
        Option::None => None,
    }
}

/// Resolves the downloader binary by the configured mode: `custom` uses
/// only the custom path; `managed` prefers the managed copy, then the
/// system one; any other mode prefers the system copy, then the managed
/// one.
pub fn resolve_ytdlp_choice(
    mode: &str,
    custom: Option<String>,
    managed: Option<String>,
    system: Option<String>,
) -> (r: Option<(String, String)>)
    ensures
        mode@ == "custom"@ ==> (match r {
            Option::Some(ps) => custom matches Option::Some(c) && ps.0@ == c@ && ps.1@
                == "custom"@,
            Option::None => custom is None,
        }),
        mode@ != "custom"@ && mode@ == "managed"@ ==> (match r {
            Option::Some(ps) => {
                if managed is Some {
                    ps.0@ == managed->Some_0@ && ps.1@ == "managed"@
                } else {
                    system is Some && ps.0@ == system->Some_0@ && ps.1@ == "system"@
                }
            },
            Option::None => managed is None && system is None,
        }),
        mode@ != "custom"@ && mode@ != "managed"@ ==> (match r {
            Option::Some(ps) => {
                if system is Some {
                    ps.0@ == system->Some_0@ && ps.1@ == "system"@
                } else {
                    managed is Some && ps.0@ == managed->Some_0@ && ps.1@ == "managed"@
                }
            },
            Option::None => managed is None && system is None,
        }),
{
    if str_eq(mode, "custom") {
        return match custom {
            Option::Some(c) => Some((c, copy_str("custom"))),
            Option::None => None,
        };
    }
    if str_eq(mode, "managed") {
        match managed {
            Option::Some(p) => {
                return Some((p, copy_str("managed")));
            },
            Option::None => {},
        }
        return match system {
            Option::Some(p) => Some((p, copy_str("system"))),
            Option::None => None,
        };
    }
    match system {
        Option::Some(p) => {
            return Some((p, copy_str("system")));
        },
        Option::None => {},
    }
    match managed {
        Option::Some(p) => Some((p, copy_str("managed"))),
        Option::None => None,
    }
}

// ---------------------------------------------------------------------------
// Video file recognition.
// ---------------------------------------------------------------------------

/// Membership in the allowed video extension set, after lowercasing.
pub open spec fn spec_allowed_video_ext(e: Seq<char>) -> bool {
    let l = spec_lower(e);
    l == "mp4"@ || l == "mov"@ || l == "mkv"@ || l == "webm"@ || l == "m4v"@ || l == "avi"@ || l
        == "wmv"@ || l == "mpeg"@ || l == "mpg"@
}

/// Decides whether an extension names an allowed video container.
pub fn is_allowed_video_extension(ext: &str) -> (r: bool)
    ensures
        r == spec_allowed_video_ext(ext@),
{
    let l = ascii_lower(ext);
    str_eq(l.as_str(), "mp4") || str_eq(l.as_str(), "mov") || str_eq(l.as_str(), "mkv") || str_eq(
        l.as_str(),
        "webm",
    ) || str_eq(l.as_str(), "m4v") || str_eq(l.as_str(), "avi") || str_eq(l.as_str(), "wmv")
        || str_eq(l.as_str(), "mpeg") || str_eq(l.as_str(), "mpg")
}

/// The extension of a path, when its final component has one: the text
/// after the last dot, provided that dot follows a `/` or `\\` separator
/// by more than one place (a component that begins with its only dot has no
/// extension).
pub open spec fn spec_path_ext(path: Seq<char>) -> Option<Seq<char>> {
    let dot = spec_rlast(path, '.');
    let slash = spec_rlast(path, '/');
    let bslash = spec_rlast(path, '\\');
    let sep = if slash >= bslash {
        slash
    } else {
        bslash
    };
    if dot >= sep + 2 {
        Option::Some(path.subrange(dot + 1, path.len() as int))
    } else {
        Option::None
    }
}

/// Decides whether a path names an allowed video file by its extension.
pub fn is_allowed_video_file(path: &str) -> (r: bool)
    ensures
        r == (spec_path_ext(path@) matches Option::Some(e) && spec_allowed_video_ext(e)),
{
    let n = path.unicode_len();
    match crate::export::extension_start(path) {
        Option::Some(d) => {
            proof {
                crate::export::lemma_rlast_bounds(path@, '.');
            }
            let e = path.substring_char(d + 1, n);
            is_allowed_video_extension(e)
        },
        Option::None => false,
    }
}

} // verus!

//! Media probe interpretation and the repair/normalization policy for the
//! canonical H.264/AAC MP4 contract.

use vstd::prelude::*;
use crate::strutil::{spec_trim, spec_lower, trim_str, str_eq, ascii_lower, views_of_strings};
use crate::decimal::{spec_dec_scaled, parse_decimal_scaled};
use crate::resolution::spec_round_div;
use crate::checksum::{spec_lines, lines_of};

verus! {

// ---------------------------------------------------------------------------
// Probe output interpretation.
// ---------------------------------------------------------------------------

/// The duration printed by the prober, in milliseconds: a trimmed decimal
/// number of seconds, rounded to the millisecond.
pub open spec fn spec_duration_ms(raw: Seq<char>) -> Option<int> {
    match spec_dec_scaled(spec_trim(raw)) {
        Option::Some((v, scale)) => Option::Some(spec_round_div(1000 * v, scale)),
        Option::None => Option::None,
    }
}

/// Reads a probed duration as milliseconds.
pub fn parse_probe_duration_ms(raw: &str) -> (r: Option<u64>)
    ensures
        match r {
            Option::Some(v) => spec_duration_ms(raw@) == Option::Some(v as int),
            Option::None => spec_duration_ms(raw@) is None,
        },
{
    let t = trim_str(raw);
    match parse_decimal_scaled(t.as_str()) {
        Option::None => None,
        Option::Some((v, scale)) => Some((2 * (1000 * v) + scale) / (2 * scale)),
    }
}

/// The first line with non-whitespace content, trimmed.
pub open spec fn spec_first_nonblank(lines: Seq<Seq<char>>) -> Option<Seq<char>>
    decreases lines.len(),
{
    if lines.len() == 0 {
        Option::None
    } else if spec_trim(lines[0]).len() > 0 {
        Option::Some(spec_trim(lines[0]))
    } else {
        spec_first_nonblank(lines.subrange(1, lines.len() as int))
    }
}

/// Returns the first non-blank line of a tool's output, trimmed.
pub fn first_nonblank_line(s: &str) -> (r: Option<String>)
    ensures
        match r {
            Option::Some(t) => spec_first_nonblank(spec_lines(s@)) == Option::Some(t@),
            Option::None => spec_first_nonblank(spec_lines(s@)) is None,
        },
{
    let lines = lines_of(s);
    let m = lines.len();
    let ghost lv = spec_lines(s@);
    proof {
        assert(lv.subrange(0, m as int) =~= lv);
    }
    let mut i: usize = 0;
    while i < m
        invariant
            lv == spec_lines(s@),
            m == lines@.len(),
            m == lv.len(),
            forall|k: int| 0 <= k < m ==> lines@[k]@ == lv[k],
            i <= m,
            spec_first_nonblank(lv) == spec_first_nonblank(lv.subrange(i as int, m as int)),
        decreases m - i,
    {
        proof {
            let suf = lv.subrange(i as int, m as int);
            assert(suf[0] == lv[i as int]);
            assert(suf.subrange(1, suf.len() as int) =~= lv.subrange(i + 1 as int, m as int));
        }
        let t = trim_str(lines[i].as_str());
        if t.unicode_len() > 0 {
            return Some(t);
        }
        i = i + 1;
    }
    proof {
        assert(lv.subrange(m as int, m as int) =~= Seq::<Seq<char>>::empty());
    }
    None
}

/// Reads the codec name from the prober's stream listing: its first
/// non-blank line.
pub fn probe_primary_codec(stdout: &str) -> (r: Option<String>)
    ensures
        match r {
            Option::Some(t) => spec_first_nonblank(spec_lines(stdout@)) == Option::Some(t@),
            Option::None => spec_first_nonblank(spec_lines(stdout@)) is None,
        },
{
    first_nonblank_line(stdout)
}

// ---------------------------------------------------------------------------
// The codec/container contract.
// ---------------------------------------------------------------------------

/// A supported video codec: h264, mpeg4, hevc or vp9.
pub open spec fn spec_video_codec_ok(codec: Option<Seq<char>>) -> bool {
    match codec {
        Option::Some(c) => c == "h264"@ || c == "mpeg4"@ || c == "hevc"@ || c == "vp9"@,
        Option::None => false,
    }
}

pub fn is_supported_video_codec(codec: &Option<String>) -> (r: bool)
    ensures
        r == spec_video_codec_ok(crate::text::opt_str_view(*codec)),
{
    match codec {
        Option::Some(c) => str_eq(c.as_str(), "h264") || str_eq(c.as_str(), "mpeg4") || str_eq(
            c.as_str(),
            "hevc",
        ) || str_eq(c.as_str(), "vp9"),
        Option::None => false,
    }
}

/// A supported audio codec: aac, mp3 or opus.
pub open spec fn spec_audio_codec_ok(codec: Option<Seq<char>>) -> bool {
    match codec {
        Option::Some(c) => c == "aac"@ || c == "mp3"@ || c == "opus"@,
        Option::None => false,
    }
}

pub fn is_supported_audio_codec(codec: &Option<String>) -> (r: bool)
    ensures
        r == spec_audio_codec_ok(crate::text::opt_str_view(*codec)),
{
    match codec {
        Option::Some(c) => str_eq(c.as_str(), "aac") || str_eq(c.as_str(), "mp3") || str_eq(
            c.as_str(),
            "opus",
        ),
        Option::None => false,
    }
}

/// A probed duration marks the file broken when it is missing or under
/// half a second.
pub open spec fn spec_duration_broken(d: Option<u64>) -> bool {
    d is None || d->Some_0 < 500
}

/// True when a probed duration marks the file as broken.
pub fn is_broken_duration(duration_ms: &Option<u64>) -> (r: bool)
    ensures
        r == spec_duration_broken(*duration_ms),
{
    match duration_ms {
        Option::Some(v) => *v < 500,
        Option::None => true,
    }
}

/// A final duration is acceptable when it was probed and is at least half a
/// second.
pub fn is_valid_final_duration(duration_ms: &Option<u64>) -> (r: bool)
    ensures
        r == (duration_ms matches Option::Some(v) && v >= 500),
{
    match duration_ms {
        Option::Some(v) => *v >= 500,
        Option::None => false,
    }
}

/// Whether a freshly staged local file must be rewritten into the canonical
/// MP4 form: a missing or broken duration, a container other than `mp4`, an unsupported
/// video codec, or (when an audio stream is present) an unsupported audio
/// codec.
pub open spec fn spec_stage_normalization_needed(
    duration_ms: Option<u64>,
    video_codec: Option<Seq<char>>,
    audio_codec: Option<Seq<char>>,
    extension: Option<Seq<char>>,
) -> bool {
    let include_audio = audio_codec is Some;
    spec_duration_broken(duration_ms) || !(extension matches Option::Some(e) && spec_lower(e)
        == "mp4"@) || !spec_video_codec_ok(video_codec) || (include_audio && !spec_audio_codec_ok(
        audio_codec,
    ))
}

/// Decides whether a staged local file needs normalization.
pub fn stage_normalization_needed(
    duration_ms: &Option<u64>,
    video_codec: &Option<String>,
    audio_codec: &Option<String>,
    extension: &Option<String>,
) -> (r: bool)
    ensures
        r == spec_stage_normalization_needed(
            *duration_ms,
            crate::text::opt_str_view(*video_codec),
            crate::text::opt_str_view(*audio_codec),
            crate::text::opt_str_view(*extension),
        ),
{
    let include_audio = audio_codec.is_some();
    let ext_ok = match extension {
        Option::Some(e) => {
            let le = ascii_lower(e.as_str());
            str_eq(le.as_str(), "mp4")
        },
        Option::None => false,
    };
    is_broken_duration(duration_ms) || !ext_ok || !is_supported_video_codec(video_codec) || (
    include_audio && !is_supported_audio_codec(audio_codec))
}

/// Whether a downloaded file must be rewritten into the canonical MP4 form:
/// a container other than `mp4`, an unsupported video codec, or — when audio
/// was requested — an unsupported or missing audio stream.
pub open spec fn spec_download_normalization_needed(
    video_codec: Option<Seq<char>>,
    audio_codec: Option<Seq<char>>,
    extension: Option<Seq<char>>,
    include_audio: bool,
) -> bool {
    !(extension matches Option::Some(e) && spec_lower(e) == "mp4"@) || !spec_video_codec_ok(
        video_codec,
    ) || (include_audio && !spec_audio_codec_ok(audio_codec)) || (include_audio
        && audio_codec is None)
}

/// Decides whether a downloaded file needs compatibility normalization.
pub fn download_normalization_needed(
    video_codec: &Option<String>,
    audio_codec: &Option<String>,
    extension: &Option<String>,
    include_audio: bool,
) -> (r: bool)
    ensures
        r == spec_download_normalization_needed(
            crate::text::opt_str_view(*video_codec),
            crate::text::opt_str_view(*audio_codec),
            crate::text::opt_str_view(*extension),
            include_audio,
        ),
{
    let ext_ok = match extension {
        Option::Some(e) => {
            let le = ascii_lower(e.as_str());
            str_eq(le.as_str(), "mp4")
        },
        Option::None => false,
    };
    let has_audio = audio_codec.is_some();
    !ext_ok || !is_supported_video_codec(video_codec) || (include_audio
        && !is_supported_audio_codec(audio_codec)) || (include_audio && !has_audio)
}

// ---------------------------------------------------------------------------
// Repair command construction.
// ---------------------------------------------------------------------------

/// The argument list of a repair run: stream mapping, then either a copy or
/// an H.264/AAC re-encode, always with `+faststart`.
pub open spec fn spec_repair_args(
    source: Seq<char>,
    output: Seq<char>,
    reencode: bool,
    include_audio: bool,
) -> Seq<Seq<char>> {
    let head = seq!["-y"@, "-i"@, source, "-map"@, "0:v:0"@];
    let audio_map = if include_audio {
        seq!["-map"@, "0:a:0?"@]
    } else {
        seq!["-an"@]
    };
    let codec = if reencode {
        if include_audio {
            seq!["-c:v"@, "libx264"@, "-preset"@, "veryfast"@, "-crf"@, "20"@, "-c:a"@, "aac"@,
                "-b:a"@, "160k"@]
        } else {
            seq!["-c:v"@, "libx264"@, "-preset"@, "veryfast"@, "-crf"@, "19"@]
        }
    } else {
        seq!["-c"@, "copy"@]
    };
    head + audio_map + codec + seq!["-movflags"@, "+faststart"@, output]
}

fn push_lit(args: &mut Vec<String>, lit: &str)
    ensures
        final(args)@.len() == old(args)@.len() + 1,
        final(args)@[final(args)@.len() - 1]@ == lit@,
        forall|k: int| 0 <= k < old(args)@.len() ==> final(args)@[k] == old(args)@[k],
{
    let mut s = String::new();
    s.append(lit);
    args.push(s);
}

/// Builds the repair argument list for the transcoder.
pub fn build_repair_args(source: &str, output: &str, reencode: bool, include_audio: bool) -> (r:
    Vec<String>)
    ensures
        views_of_strings(r@) == spec_repair_args(source@, output@, reencode, include_audio),
{
    let mut args: Vec<String> = Vec::new();
    push_lit(&mut args, "-y");
    push_lit(&mut args, "-i");
    push_lit(&mut args, source);
    push_lit(&mut args, "-map");
    push_lit(&mut args, "0:v:0");
    if include_audio {
        push_lit(&mut args, "-map");
        push_lit(&mut args, "0:a:0?");
    } else {
        push_lit(&mut args, "-an");
    }
    if reencode {
        push_lit(&mut args, "-c:v");
        push_lit(&mut args, "libx264");
        push_lit(&mut args, "-preset");
        push_lit(&mut args, "veryfast");
        if include_audio {
            push_lit(&mut args, "-crf");
            push_lit(&mut args, "20");
            push_lit(&mut args, "-c:a");
            push_lit(&mut args, "aac");
            push_lit(&mut args, "-b:a");
            push_lit(&mut args, "160k");
        } else {
            push_lit(&mut args, "-crf");
            push_lit(&mut args, "19");
        }
    } else {
        push_lit(&mut args, "-c");
        push_lit(&mut args, "copy");
    }
    push_lit(&mut args, "-movflags");
    push_lit(&mut args, "+faststart");
    push_lit(&mut args, output);
    proof {
        assert(views_of_strings(args@) =~= spec_repair_args(
            source@,
            output@,
            reencode,
            include_audio,
        ));
    }
    args
}

// ---------------------------------------------------------------------------
// Transcoder error messages.
// ---------------------------------------------------------------------------

/// The non-blank lines of a transcoder's error stream, trimmed, in order.
pub open spec fn spec_nonblank_trimmed(lines: Seq<Seq<char>>) -> Seq<Seq<char>>
    decreases lines.len(),
{
    if lines.len() == 0 {
        Seq::empty()
    } else {
        let rest = spec_nonblank_trimmed(lines.drop_last());
        let t = spec_trim(lines.last());
        if t.len() > 0 {
            rest.push(t)
        } else {
            rest
        }
    }
}

/// The given parts joined by `sep`.
pub open spec fn spec_join_sep(parts: Seq<Seq<char>>, sep: Seq<char>) -> Seq<char>
    decreases parts.len(),
{
    if parts.len() == 0 {
        Seq::empty()
    } else if parts.len() == 1 {
        parts[0]
    } else {
        spec_join_sep(parts.drop_last(), sep) + sep + parts.last()
    }
}

/// The diagnostic for a failed transcoder run: the last four non-blank
/// trimmed lines of its error stream joined by ` | `, or a fixed message
/// when there are none.
pub open spec fn spec_ffmpeg_error(stderr: Seq<char>) -> Seq<char> {
    let kept = spec_nonblank_trimmed(spec_lines(stderr));
    let tail = if kept.len() <= 4 {
        kept
    } else {
        kept.subrange(kept.len() - 4, kept.len() as int)
    };
    if tail.len() == 0 {
        "FFmpeg exited with an error."@
    } else {
        "FFmpeg: "@ + spec_join_sep(tail, " | "@)
    }
}

/// Builds the diagnostic for a failed transcoder run.
pub fn ffmpeg_error_message(stderr: &str) -> (r: String)
    ensures
        r@ == spec_ffmpeg_error(stderr@),
{
    let lines = lines_of(stderr);
    let m = lines.len();
    let ghost lv = spec_lines(stderr@);
    let mut kept: Vec<String> = Vec::new();
    let mut i: usize = 0;
    while i < m
        invariant
            lv == spec_lines(stderr@),
            m == lines@.len(),
            m == lv.len(),
            forall|k: int| 0 <= k < m ==> lines@[k]@ == lv[k],
            i <= m,
            kept@.len() == spec_nonblank_trimmed(lv.subrange(0, i as int)).len(),
            forall|k: int|
                0 <= k < kept@.len() ==> kept@[k]@ == spec_nonblank_trimmed(
                    lv.subrange(0, i as int),
                )[k],
        decreases m - i,
    {
        proof {
            assert(lv.subrange(0, i + 1 as int).drop_last() =~= lv.subrange(0, i as int));
            assert(lv.subrange(0, i + 1 as int).last() == lv[i as int]);
        }
        let t = trim_str(lines[i].as_str());
        if t.unicode_len() > 0 {
            kept.push(t);
        }
        i = i + 1;
    }
    proof {
        assert(lv.subrange(0, m as int) =~= lv);
    }
    let kn = kept.len();
    let start: usize = if kn <= 4 {
        0
    } else {
        kn - 4
    };
    let ghost keptv = spec_nonblank_trimmed(lv);
    let ghost tail = if keptv.len() <= 4 {
        keptv
    } else {
        keptv.subrange(keptv.len() - 4, keptv.len() as int)
    };
    if kn == start {
        proof {
            assert(tail.len() == 0);
        }
        let mut out = String::new();
        out.append("FFmpeg exited with an error.");
        return out;
    }
    let mut joined = String::new();
    joined.append(kept[start].as_str());
    proof {
        assert(tail.subrange(0, 1) =~= seq![keptv[start as int]]);
        assert(spec_join_sep(tail.subrange(0, 1), " | "@) == tail[0]);
    }
    let mut j: usize = start + 1;
    while j < kn
        invariant
            keptv == spec_nonblank_trimmed(spec_lines(stderr@)),
            kn == kept@.len(),
            kn == keptv.len(),
            forall|k: int| 0 <= k < kn ==> kept@[k]@ == keptv[k],
            tail == (if keptv.len() <= 4 {
                keptv
            } else {
                keptv.subrange(keptv.len() - 4, keptv.len() as int)
            }),
            start == (if kn <= 4 {
                0usize
            } else {
                (kn - 4) as usize
            }),
            start < j <= kn,
            joined@ == spec_join_sep(tail.subrange(0, j - start), " | "@),
        decreases kn - j,
    {
        proof {
            assert(tail.subrange(0, j + 1 - start).drop_last() =~= tail.subrange(0, j - start));
            assert(tail.subrange(0, j + 1 - start).last() == keptv[j as int]);
        }
        joined.append(" | ");
        joined.append(kept[j].as_str());
        j = j + 1;
    }
    proof {
        assert(tail.subrange(0, kn - start) =~= tail);
    }
    let mut out = String::new();
    out.append("FFmpeg: ");
    out.append(joined.as_str());
    out
}

// ---------------------------------------------------------------------------
// Local staging.
// ---------------------------------------------------------------------------

/// Where a local source video is staged: the sanitized project folder and
/// the collision-free target file name.
#[derive(Debug)]
pub struct LocalStagePlan {
    pub project_dir_name: String,
    pub target_name: String,
}

/// The staged file's extension: the source's, lowercased, `mp4` when
/// absent or blank.
pub open spec fn spec_stage_ext(e: Option<Seq<char>>) -> Seq<char> {
    match e {
        Option::Some(s) => {
            if spec_lower(s).len() == 0 {
                "mp4"@
            } else {
                spec_lower(s)
            }
        },
        Option::None => "mp4"@,
    }
}

/// Plans the staging copy of a local video: the extension (lowercased,
/// defaulting to `mp4`) must be an allowed container, the project folder is
/// the sanitized project name, the file stem is sanitized, and the target
/// name is the first free `stem[-N].ext` among the names already present.
pub fn plan_local_stage(
    source_stem: &str,
    source_ext: &Option<String>,
    project_name: Option<String>,
    existing: &Vec<String>,
) -> (r: Result<LocalStagePlan, String>)
    requires
        existing@.len() < 1000000,
    ensures
        ({
            let ext = spec_stage_ext(crate::text::opt_str_view(*source_ext));
            match r {
                Ok(p) => crate::tools::spec_allowed_video_ext(ext) && p.project_dir_name@
                    == (match project_name {
                    Option::Some(nm) => crate::text::spec_sanitized_name(
                        nm@,
                        72,
                        "cursed-clipper-import"@,
                    ),
                    Option::None => "cursed-clipper-import"@,
                }) && !crate::export::spec_name_taken(existing@, p.target_name@) && (exists|k: int|
                    1 <= k && p.target_name@ == crate::export::spec_candidate_name(
                        crate::text::spec_sanitized_name(source_stem@, 96, "video"@),
                        ext,
                        k,
                    ) && (forall|j: int|
                        1 <= j < k ==> crate::export::spec_name_taken(
                            existing@,
                            crate::export::spec_candidate_name(
                                crate::text::spec_sanitized_name(source_stem@, 96, "video"@),
                                ext,
                                j,
                            ),
                        ))),
                Err(_) => !crate::tools::spec_allowed_video_ext(ext),
            }
        }),
{
    let ext: String = match source_ext {
        Option::Some(e) => {
            let l = ascii_lower(e.as_str());
            if l.unicode_len() == 0 {
                proof {
                    reveal_strlit("mp4");
                }
                let mut s = String::new();
                s.append("mp4");
                proof {
                    assert(spec_lower(s@) =~= s@);
                }
                s
            } else {
                proof {
                    crate::strutil::lemma_lower_idempotent(e@);
                }
                l
            }
        },
        Option::None => {
            proof {
                reveal_strlit("mp4");
            }
            let mut s = String::new();
            s.append("mp4");
            proof {
                assert(spec_lower(s@) =~= s@);
            }
            s
        },
    };
    assert(spec_lower(ext@) == ext@);
    if !crate::tools::is_allowed_video_extension(ext.as_str()) {
        let mut e = String::new();
        e.append("Unsupported local video format.");
        return Err(e);
    }
    proof {
        // The allowed extension keywords carry no surrounding whitespace,
        // so trimming leaves the extension untouched.
        let ev = ext@;
        assert(spec_lower(ev) == ev);
        if ev == "mp4"@ {
            reveal_strlit("mp4");
            crate::strutil::lemma_trim_fixed(ev);
        } else if ev == "mov"@ {
            reveal_strlit("mov");
            crate::strutil::lemma_trim_fixed(ev);
        } else if ev == "mkv"@ {
            reveal_strlit("mkv");
            crate::strutil::lemma_trim_fixed(ev);
        } else if ev == "webm"@ {
            reveal_strlit("webm");
            crate::strutil::lemma_trim_fixed(ev);
        } else if ev == "m4v"@ {
            reveal_strlit("m4v");
            crate::strutil::lemma_trim_fixed(ev);
        } else if ev == "avi"@ {
            reveal_strlit("avi");
            crate::strutil::lemma_trim_fixed(ev);
        } else if ev == "wmv"@ {
            reveal_strlit("wmv");
            crate::strutil::lemma_trim_fixed(ev);
        } else if ev == "mpeg"@ {
            reveal_strlit("mpeg");
            crate::strutil::lemma_trim_fixed(ev);
        } else {
            assert(ev == "mpg"@);
            reveal_strlit("mpg");
            crate::strutil::lemma_trim_fixed(ev);
        }
        assert(crate::export::spec_ext_or_mp4(ev) == ev);
    }
    let project_dir_name = crate::text::sanitize_project_name(project_name);
    let stem = crate::text::sanitize_file_stem(source_stem);
    let target_name = crate::export::ensure_unique_export_file_path(
        existing,
        stem.as_str(),
        ext.as_str(),
    );
    proof {
        let ex = crate::export::spec_ext_or_mp4(ext@);
        let k = choose|k: int|
            1 <= k && target_name@ == crate::export::spec_candidate_name(stem@, ex, k)
                && !crate::export::spec_name_taken(
                existing@,
                crate::export::spec_candidate_name(stem@, ex, k),
            ) && (forall|j: int|
                1 <= j < k ==> crate::export::spec_name_taken(
                    existing@,
                    crate::export::spec_candidate_name(stem@, ex, j),
                ));
        assert(target_name@ == crate::export::spec_candidate_name(stem@, ext@, k));
        let ghost spec_ext = spec_stage_ext(crate::text::opt_str_view(*source_ext));
        assert(ext@ == spec_ext);
        assert(crate::tools::spec_allowed_video_ext(spec_ext));
        assert(!crate::export::spec_name_taken(existing@, target_name@));
        assert(stem@ == crate::text::spec_sanitized_name(source_stem@, 96, "video"@));
        assert(exists|kk: int|
            1 <= kk && target_name@ == crate::export::spec_candidate_name(
                crate::text::spec_sanitized_name(source_stem@, 96, "video"@),
                spec_ext,
                kk,
            ));
        assert(project_dir_name@ == (match project_name {
            Option::Some(nm) => crate::text::spec_sanitized_name(
                nm@,
                72,
                "cursed-clipper-import"@,
            ),
            Option::None => "cursed-clipper-import"@,
        }));
    }
    Ok(LocalStagePlan { project_dir_name, target_name })
}

} // verus!

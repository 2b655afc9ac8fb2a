//! Runtime tool settings: normalization, defaults and progress-task titles.

use vstd::prelude::*;
use crate::strutil::{
    spec_trim, spec_lower, spec_starts_with, trim_str, ascii_lower, str_eq, starts_with_str,
    lemma_trim_idempotent, spec_lower_char, unicode_whitespace,
};
use crate::text::{sanitize_optional_path, spec_sanitize_opt_path, opt_str_view};

verus! {

/// Persisted preferences for locating `yt-dlp`, `ffmpeg` and `ffprobe` and
/// for the projects root directory.
#[derive(Debug, Clone, PartialEq)]
pub struct RuntimeToolsSettings {
    pub ytdlp_mode: String,
    pub ytdlp_custom_path: Option<String>,
    pub ffmpeg_custom_path: Option<String>,
    pub ffprobe_custom_path: Option<String>,
    pub projects_root_dir: Option<String>,
    pub auto_update_ytdlp: bool,
    pub prefer_bundled_ffmpeg: bool,
    pub ui_language: String,
}

impl Default for RuntimeToolsSettings {
    /// Managed yt-dlp, bundled ffmpeg preferred, English interface.
    fn default() -> (r: RuntimeToolsSettings)
        ensures
            r.ytdlp_mode@ == "managed"@,
            r.ytdlp_custom_path is None,
            r.ffmpeg_custom_path is None,
            r.ffprobe_custom_path is None,
            r.projects_root_dir is None,
            r.auto_update_ytdlp,
            r.prefer_bundled_ffmpeg,
            r.ui_language@ == "en"@,
    {
        let mut mode = String::new();
        mode.append("managed");
        let mut lang = String::new();
        lang.append("en");
        RuntimeToolsSettings {
            ytdlp_mode: mode,
            ytdlp_custom_path: None,
            ffmpeg_custom_path: None,
            ffprobe_custom_path: None,
            projects_root_dir: None,
            auto_update_ytdlp: true,
            prefer_bundled_ffmpeg: true,
            ui_language: lang,
        }
    }
}

/// The default interface language.
pub fn default_ui_language() -> (r: String)
    ensures
        r@ == "en"@,
{
    let mut lang = String::new();
    lang.append("en");
    lang
}

/// The normalized resolution mode: lower-cased and trimmed, and forced to
/// `managed` when outside the closed set.
pub open spec fn spec_norm_mode(m: Seq<char>) -> Seq<char> {
    let t = spec_lower(spec_trim(m));
    if t == "managed"@ || t == "custom"@ || t == "system"@ {
        t
    } else {
        "managed"@
    }
}

/// The normalized interface language: `en` or `ru`, defaulting to `en`.
pub open spec fn spec_norm_lang(m: Seq<char>) -> Seq<char> {
    let t = spec_lower(spec_trim(m));
    if t == "en"@ || t == "ru"@ {
        t
    } else {
        "en"@
    }
}

fn normalize_mode(m: &str) -> (r: String)
    ensures
        r@ == spec_norm_mode(m@),
{
    let t = trim_str(m);
    let lowered = ascii_lower(t.as_str());
    if str_eq(lowered.as_str(), "managed") || str_eq(lowered.as_str(), "custom") || str_eq(
        lowered.as_str(),
        "system",
    ) {
        lowered
    } else {
        let mut out = String::new();
        out.append("managed");
        out
    }
}

fn normalize_lang(m: &str) -> (r: String)
    ensures
        r@ == spec_norm_lang(m@),
{
    let t = trim_str(m);
    let lowered = ascii_lower(t.as_str());
    if str_eq(lowered.as_str(), "en") || str_eq(lowered.as_str(), "ru") {
        lowered
    } else {
        let mut out = String::new();
        out.append("en");
        out
    }
}

/// Normalizes a settings value: the resolution mode and interface language
/// are forced into their closed sets, and each optional path is trimmed,
/// length-checked and checked for control characters. An invalid path is the
/// only rejection.
pub fn normalize_settings(settings: RuntimeToolsSettings) -> (r: Result<
    RuntimeToolsSettings,
    String,
>)
    ensures
        match r {
            Ok(out) => spec_sanitize_opt_path(opt_str_view(settings.ytdlp_custom_path))
                == Option::Some(opt_str_view(out.ytdlp_custom_path)) && spec_sanitize_opt_path(
                opt_str_view(settings.ffmpeg_custom_path),
            ) == Option::Some(opt_str_view(out.ffmpeg_custom_path)) && spec_sanitize_opt_path(
                opt_str_view(settings.ffprobe_custom_path),
            ) == Option::Some(opt_str_view(out.ffprobe_custom_path)) && spec_sanitize_opt_path(
                opt_str_view(settings.projects_root_dir),
            ) == Option::Some(opt_str_view(out.projects_root_dir)) && out.ytdlp_mode@
                == spec_norm_mode(settings.ytdlp_mode@) && out.ui_language@ == spec_norm_lang(
                settings.ui_language@,
            ) && out.auto_update_ytdlp == settings.auto_update_ytdlp && out.prefer_bundled_ffmpeg
                == settings.prefer_bundled_ffmpeg,
            Err(_) => spec_sanitize_opt_path(opt_str_view(settings.ytdlp_custom_path)) is None
                || spec_sanitize_opt_path(opt_str_view(settings.ffmpeg_custom_path)) is None
                || spec_sanitize_opt_path(opt_str_view(settings.ffprobe_custom_path)) is None
                || spec_sanitize_opt_path(opt_str_view(settings.projects_root_dir)) is None,
        },
{
    let RuntimeToolsSettings {
        ytdlp_mode,
        ytdlp_custom_path,
        ffmpeg_custom_path,
        ffprobe_custom_path,
        projects_root_dir,
        auto_update_ytdlp,
        prefer_bundled_ffmpeg,
        ui_language,
    } = settings;
    let mode = normalize_mode(ytdlp_mode.as_str());
    let ytdlp_custom_path = match sanitize_optional_path(ytdlp_custom_path) {
        Ok(p) => p,
        Err(e) => {
            return Err(e);
        },
    };
    let ffmpeg_custom_path = match sanitize_optional_path(ffmpeg_custom_path) {
        Ok(p) => p,
        Err(e) => {
            return Err(e);
        },
    };
    let ffprobe_custom_path = match sanitize_optional_path(ffprobe_custom_path) {
        Ok(p) => p,
        Err(e) => {
            return Err(e);
        },
    };
    let projects_root_dir = match sanitize_optional_path(projects_root_dir) {
        Ok(p) => p,
        Err(e) => {
            return Err(e);
        },
    };
    let lang = normalize_lang(ui_language.as_str());
    Ok(
        RuntimeToolsSettings {
            ytdlp_mode: mode,
            ytdlp_custom_path,
            ffmpeg_custom_path,
            ffprobe_custom_path,
            projects_root_dir,
            auto_update_ytdlp,
            prefer_bundled_ffmpeg,
            ui_language: lang,
        },
    )
}

/// A trimmed keyword made of lowercase letters is untouched by trimming and
/// lowercasing.
proof fn lemma_keyword_fixed(s: Seq<char>)
    requires
        s.len() > 0,
        !unicode_whitespace(s[0]),
        !unicode_whitespace(s[s.len() - 1]),
        forall|j: int| 0 <= j < s.len() ==> spec_lower_char(s[j]) == s[j],
    ensures
        spec_lower(spec_trim(s)) == s,
{
    assert(spec_trim(s) =~= s) by {
        crate::strutil::lemma_trim_fixed(s);
    }
    assert(spec_lower(s) =~= s);
}

/// The normalized mode is a fixed point of normalization.
pub proof fn lemma_norm_mode_idempotent(m: Seq<char>)
    ensures
        spec_norm_mode(spec_norm_mode(m)) == spec_norm_mode(m),
{
    reveal_strlit("managed");
    reveal_strlit("custom");
    reveal_strlit("system");
    let t = spec_norm_mode(m);
    if t == "managed"@ {
        lemma_keyword_fixed("managed"@);
    } else if t == "custom"@ {
        lemma_keyword_fixed("custom"@);
    } else {
        lemma_keyword_fixed("system"@);
    }
}

/// The normalized language is a fixed point of normalization.
pub proof fn lemma_norm_lang_idempotent(m: Seq<char>)
    ensures
        spec_norm_lang(spec_norm_lang(m)) == spec_norm_lang(m),
{
    reveal_strlit("en");
    reveal_strlit("ru");
    let t = spec_norm_lang(m);
    if t == "en"@ {
        lemma_keyword_fixed("en"@);
    } else {
        lemma_keyword_fixed("ru"@);
    }
}

/// A sanitized path is a fixed point of path sanitization.
pub proof fn lemma_sanitize_path_idempotent(v: Option<Seq<char>>, p: Option<Seq<char>>)
    requires
        spec_sanitize_opt_path(v) == Option::Some(p),
    ensures
        spec_sanitize_opt_path(p) == Option::Some(p),
{
    match p {
        Option::None => {
        },
        Option::Some(t) => {
            let raw = v->Some_0;
            assert(t == spec_trim(raw));
            lemma_trim_idempotent(raw);
        },
    }
}

/// Saving settings normalizes them, and loading returns the stored value, so
/// a saved-then-loaded settings value equals the normalization of what was
/// given to save: normalization is idempotent in every field.
pub proof fn lemma_normalize_idempotent(
    mode: Seq<char>,
    lang: Seq<char>,
    path: Option<Seq<char>>,
    cleaned: Option<Seq<char>>,
)
    requires
        spec_sanitize_opt_path(path) == Option::Some(cleaned),
    ensures
        spec_norm_mode(spec_norm_mode(mode)) == spec_norm_mode(mode),
        spec_norm_lang(spec_norm_lang(lang)) == spec_norm_lang(lang),
        spec_sanitize_opt_path(cleaned) == Option::Some(cleaned),
{
    lemma_norm_mode_idempotent(mode);
    lemma_norm_lang_idempotent(lang);
    lemma_sanitize_path_idempotent(path, cleaned);
}

/// A human-readable title for a progress task key.
pub fn task_title(task: &str) -> (r: String)
    ensures
        spec_starts_with(task@, "youtube-download"@) ==> r@ == "YouTube import"@,
        !spec_starts_with(task@, "youtube-download"@) && spec_starts_with(task@, "clip-export"@)
            ==> r@ == "Clip export"@,
        !spec_starts_with(task@, "youtube-download"@) && !spec_starts_with(task@, "clip-export"@)
            && task@ == "ffmpeg"@ ==> r@ == "FFmpeg setup"@,
        !spec_starts_with(task@, "youtube-download"@) && !spec_starts_with(task@, "clip-export"@)
            && task@ != "ffmpeg"@ && task@ == "ytdlp"@ ==> r@ == "yt-dlp setup"@,
        !spec_starts_with(task@, "youtube-download"@) && !spec_starts_with(task@, "clip-export"@)
            && task@ != "ffmpeg"@ && task@ != "ytdlp"@ ==> r@ == "Background task"@,
{
    let mut out = String::new();
    if starts_with_str(task, "youtube-download") {
        out.append("YouTube import");
    } else if starts_with_str(task, "clip-export") {
        out.append("Clip export");
    } else if str_eq(task, "ffmpeg") {
        out.append("FFmpeg setup");
    } else if str_eq(task, "ytdlp") {
        out.append("yt-dlp setup");
    } else {
        out.append("Background task");
    }
    out
}

} // verus!

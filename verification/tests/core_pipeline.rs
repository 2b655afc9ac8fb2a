use cursed_clipper::media;
use cursed_clipper::progress;
use cursed_clipper::resolution;
use cursed_clipper::settings::{self, RuntimeToolsSettings};
use cursed_clipper::text;
use cursed_clipper::urlcheck;

fn default_settings() -> RuntimeToolsSettings {
    RuntimeToolsSettings {
        ytdlp_mode: "managed".to_string(),
        ytdlp_custom_path: None,
        ffmpeg_custom_path: None,
        ffprobe_custom_path: None,
        projects_root_dir: None,
        auto_update_ytdlp: true,
        prefer_bundled_ffmpeg: true,
        ui_language: "en".to_string(),
    }
}

#[test]
fn sanitize_project_name_fallbacks() {
    assert_eq!(
        text::sanitize_project_name(Some("".to_string())),
        "cursed-clipper-import"
    );
    assert_eq!(
        text::sanitize_project_name(Some(" ".to_string())),
        "cursed-clipper-import"
    );
    assert_eq!(
        text::sanitize_project_name(Some("--".to_string())),
        "cursed-clipper-import"
    );
    assert_eq!(
        text::sanitize_project_name(Some("\u{2026}".to_string())),
        "cursed-clipper-import"
    );
    assert_eq!(text::sanitize_project_name(None), "cursed-clipper-import");
}

#[test]
fn sanitize_project_name_keeps_good_names() {
    assert_eq!(
        text::sanitize_project_name(Some("My Project!".to_string())),
        "My-Project"
    );
    assert_eq!(
        text::sanitize_project_name(Some("  a   b  ".to_string())),
        "a-b"
    );
    assert_eq!(text::sanitize_project_name(Some("demo".to_string())), "demo");
}

#[test]
fn sanitize_file_stem_fallback_and_caps() {
    assert_eq!(text::sanitize_file_stem(""), "video");
    assert_eq!(text::sanitize_file_stem("hello world"), "hello-world");
}

#[test]
fn duration_half_second_boundary() {
    // Exactly 0.5 s passes; 0.49 s fails repair.
    assert!(!media::is_broken_duration(&Some(500)));
    assert!(media::is_broken_duration(&Some(490)));
    assert!(media::is_valid_final_duration(&Some(500)));
    assert!(!media::is_valid_final_duration(&Some(490)));
    assert!(!media::is_valid_final_duration(&None));
    // A file whose duration cannot be probed counts as broken.
    assert!(media::is_broken_duration(&None));
}

#[test]
fn probe_duration_parses_decimal_seconds() {
    assert_eq!(media::parse_probe_duration_ms("15.2\n"), Some(15200));
    assert_eq!(media::parse_probe_duration_ms("0.49"), Some(490));
    assert_eq!(media::parse_probe_duration_ms("7"), Some(7000));
    assert_eq!(media::parse_probe_duration_ms("N/A"), None);
    assert_eq!(media::parse_probe_duration_ms(""), None);
}

#[test]
fn default_resolutions_by_aspect() {
    assert_eq!(resolution::pick_render_resolution("1:1"), (1080, 1080));
    assert_eq!(resolution::pick_render_resolution("9:16"), (1080, 1920));
    assert_eq!(resolution::pick_render_resolution("16:9"), (1920, 1080));
    assert_eq!(resolution::pick_render_resolution("21:9"), (1920, 1080));
    assert_eq!(resolution::pick_render_resolution("garbage"), (1920, 1080));
}

#[test]
fn resolution_override_is_even_and_aligned() {
    // A 9:16 override already matching the ratio is kept, rounded to even.
    let (w, h) =
        resolution::pick_render_resolution_with_override("9:16", Some(721), Some(1280));
    assert_eq!(w % 2, 0);
    assert_eq!(h % 2, 0);
    assert!((240..=4320).contains(&w) && (240..=4320).contains(&h));

    let (w2, h2) =
        resolution::pick_render_resolution_with_override("9:16", Some(720), Some(1280));
    assert_eq!((w2, h2), (720, 1280));

    // Out-of-range overrides fall back to the default pick.
    assert_eq!(
        resolution::pick_render_resolution_with_override("9:16", Some(100), Some(100)),
        (1080, 1920)
    );
    assert_eq!(
        resolution::pick_render_resolution_with_override("16:9", None, None),
        (1920, 1080)
    );
}

#[test]
fn align_keeps_close_ratios() {
    assert_eq!(resolution::align_resolution_to_aspect("16:9", 1000, 562), (1000, 562));
}

#[test]
fn align_prefers_the_lower_score() {
    // For 1:4 at 600x2000, widening the height to (600, 2400) is four times
    // as far in pixels as narrowing the width to (500, 2000).
    assert_eq!(resolution::align_resolution_to_aspect("1:4", 600, 2000), (500, 2000));
}

#[test]
fn settings_unknown_mode_round_trips_to_managed() {
    let mut s = default_settings();
    s.ytdlp_mode = "Whatever".to_string();
    s.ui_language = "DE".to_string();
    let n = settings::normalize_settings(s).expect("normalize");
    assert_eq!(n.ytdlp_mode, "managed");
    assert_eq!(n.ui_language, "en");
}

#[test]
fn settings_normalization_is_idempotent() {
    let mut s = default_settings();
    s.ytdlp_mode = "  CUSTOM ".to_string();
    s.ui_language = "RU".to_string();
    s.ytdlp_custom_path = Some("  /usr/bin/yt-dlp  ".to_string());
    let once = settings::normalize_settings(s).expect("normalize");
    let twice = settings::normalize_settings(once.clone()).expect("normalize twice");
    assert_eq!(once, twice);
    assert_eq!(once.ytdlp_mode, "custom");
    assert_eq!(once.ui_language, "ru");
    assert_eq!(once.ytdlp_custom_path.as_deref(), Some("/usr/bin/yt-dlp"));
}

#[test]
fn settings_reject_bad_paths() {
    let mut s = default_settings();
    s.projects_root_dir = Some("a".repeat(513));
    assert!(settings::normalize_settings(s).is_err());

    let mut s2 = default_settings();
    s2.ffmpeg_custom_path = Some("bad\u{7}path".to_string());
    assert!(settings::normalize_settings(s2).is_err());
}

#[test]
fn task_titles_by_key() {
    assert_eq!(settings::task_title("youtube-download"), "YouTube import");
    assert_eq!(settings::task_title("clip-export:proj"), "Clip export");
    assert_eq!(settings::task_title("ffmpeg"), "FFmpeg setup");
    assert_eq!(settings::task_title("ytdlp"), "yt-dlp setup");
    assert_eq!(settings::task_title("other"), "Background task");
}

#[test]
fn trusted_url_rules() {
    assert!(urlcheck::ensure_trusted_https_url("https://github.com/a/b").is_ok());
    assert!(urlcheck::ensure_trusted_https_url("https://objects.githubusercontent.com/x").is_ok());
    assert!(urlcheck::ensure_trusted_https_url("http://github.com/a").is_err());
    assert!(urlcheck::ensure_trusted_https_url("https://evil.com/a").is_err());
    assert!(urlcheck::ensure_trusted_https_url("https://github.com:8443/a").is_err());
    assert!(urlcheck::ensure_trusted_https_url("https://user@github.com/a").is_err());
    assert!(urlcheck::ensure_trusted_https_url("not a url").is_err());
}

#[test]
fn youtube_url_rules() {
    let ok = urlcheck::validate_youtube_url(" https://www.youtube.com/watch?v=abc123 ")
        .expect("youtube url");
    assert!(ok.contains("youtube.com"));
    assert!(urlcheck::validate_youtube_url("https://youtu.be/abc").is_ok());
    assert!(urlcheck::validate_youtube_url("https://vimeo.com/1").is_err());
    assert!(urlcheck::validate_youtube_url("http://youtube.com/watch").is_err());
    assert!(urlcheck::validate_youtube_url("https://youtube.com:8443/w").is_err());
}

#[test]
fn format_id_rules() {
    assert_eq!(urlcheck::validate_format_id(" 22 ").expect("id"), "22");
    assert_eq!(
        urlcheck::validate_format_id("137+bestaudio/best.x_y").expect("id"),
        "137+bestaudio/best.x_y"
    );
    assert!(urlcheck::validate_format_id("").is_err());
    assert!(urlcheck::validate_format_id("a b").is_err());
    assert!(urlcheck::validate_format_id(&"x".repeat(65)).is_err());
}

#[test]
fn progress_line_parsing() {
    let cf = progress::parse_cf_progress("CF_PROGRESS|10485760|52428800|52428800|20.0%")
        .expect("cf line");
    assert_eq!(cf.downloaded, Some(10485760));
    assert_eq!(cf.total, Some(52428800));
    assert_eq!(cf.total_estimate, Some(52428800));
    assert_eq!(cf.percent_permille, Some(200));
    assert!(progress::parse_cf_progress("something else").is_none());
}

#[test]
fn downloader_progress_is_monotone() {
    // The happy-path stream: 20% then 100%, scaled to nine tenths overall.
    let mut tracker = progress::YtdlpProgressTracker::new();
    let first = progress::parse_cf_progress("CF_PROGRESS|10485760|52428800|52428800|20.0%")
        .expect("first line");
    let e1 = tracker.observe(&first, 1000).expect("first emit");
    assert_eq!(e1.ratio_permille, 200);
    assert_eq!(e1.overall_permille, 180);
    assert_eq!(e1.percent_display, 20);

    let second = progress::parse_cf_progress("CF_PROGRESS|52428800|52428800|52428800|100.0%")
        .expect("second line");
    // Even with no elapsed time the terminal ratio is emitted.
    let e2 = tracker.observe(&second, 0).expect("second emit");
    assert_eq!(e2.ratio_permille, 1000);
    assert_eq!(e2.overall_permille, 900);
    assert!(e2.ratio_permille >= e1.ratio_permille);

    // A later lower report never lowers the ratio.
    let third = progress::parse_cf_progress("CF_PROGRESS|1|52428800|52428800|0.0%")
        .expect("third line");
    assert!(tracker.observe(&third, 1000).is_none());
}

#[test]
fn byte_count_fields_accept_a_sign() {
    assert_eq!(progress::parse_u64_field(Some(" 52428800 ")), Some(52428800));
    assert_eq!(progress::parse_u64_field(Some("+52428800")), Some(52428800));
    assert_eq!(progress::parse_u64_field(Some("++5")), None);
    assert_eq!(progress::parse_u64_field(Some("+")), None);
    assert_eq!(progress::parse_u64_field(Some("NA")), None);
    assert_eq!(progress::parse_u64_field(None), None);
}

#[test]
fn download_detail_in_tenths_of_mebibytes() {
    assert_eq!(
        progress::download_detail_text(Some(10_485_760), Some(52_428_800), None),
        "10.0/50.0 MB"
    );
    assert_eq!(
        progress::download_detail_text(Some(10_485_760), None, Some(52_428_800)),
        "10.0/50.0 MB"
    );
    assert_eq!(progress::download_detail_text(Some(157_286), None, None), "0.1 MB");
    assert_eq!(
        progress::download_detail_text(None, Some(1), None),
        "Fetching metadata..."
    );
}

#[test]
fn fetcher_throttle_and_size_rules() {
    assert!(progress::should_emit_fetch_progress(10, Some(9), 141));
    assert!(!progress::should_emit_fetch_progress(10, Some(10), 1000));
    assert!(!progress::should_emit_fetch_progress(10, Some(9), 100));
    assert!(progress::should_emit_fetch_progress(100, Some(99), 0));
    assert!(progress::fetch_size_ok(262144));
    assert!(!progress::fetch_size_ok(262143));
    assert_eq!(progress::fetch_percent(50, 100), 50);
    assert_eq!(progress::fetch_scaled_permille(80, 880, 500), 480);
}

#[test]
fn stage_normalization_decisions() {
    // An H.264/AAC MP4 of 15.2 s needs nothing.
    assert!(!media::stage_normalization_needed(
        &Some(15200),
        &Some("h264".to_string()),
        &Some("aac".to_string()),
        &Some("mp4".to_string()),
    ));
    // A VP9/Opus MKV must be rewritten.
    assert!(media::stage_normalization_needed(
        &Some(7000),
        &Some("vp9".to_string()),
        &Some("opus".to_string()),
        &Some("mkv".to_string()),
    ));
    // A broken duration forces repair even for a good container.
    assert!(media::stage_normalization_needed(
        &Some(100),
        &Some("h264".to_string()),
        &Some("aac".to_string()),
        &Some("mp4".to_string()),
    ));
    // No audio stream: the audio contract is not consulted.
    assert!(!media::stage_normalization_needed(
        &Some(15200),
        &Some("h264".to_string()),
        &None,
        &Some("mp4".to_string()),
    ));
}

#[test]
fn download_normalization_decisions() {
    assert!(!media::download_normalization_needed(
        &Some("h264".to_string()),
        &Some("aac".to_string()),
        &Some("mp4".to_string()),
        true,
    ));
    // Audio requested but missing: normalize.
    assert!(media::download_normalization_needed(
        &Some("h264".to_string()),
        &None,
        &Some("mp4".to_string()),
        true,
    ));
    // No audio requested: a missing stream is fine.
    assert!(!media::download_normalization_needed(
        &Some("h264".to_string()),
        &None,
        &Some("mp4".to_string()),
        false,
    ));
}

#[test]
fn repair_args_copy_and_reencode() {
    let copy = media::build_repair_args("in.mp4", "out.mp4", false, true);
    let copy: Vec<&str> = copy.iter().map(|s| s.as_str()).collect();
    assert_eq!(
        copy,
        vec![
            "-y", "-i", "in.mp4", "-map", "0:v:0", "-map", "0:a:0?", "-c", "copy", "-movflags",
            "+faststart", "out.mp4"
        ]
    );
    let re = media::build_repair_args("in.mp4", "out.mp4", true, false);
    let re: Vec<&str> = re.iter().map(|s| s.as_str()).collect();
    assert_eq!(
        re,
        vec![
            "-y", "-i", "in.mp4", "-map", "0:v:0", "-an", "-c:v", "libx264", "-preset",
            "veryfast", "-crf", "19", "-movflags", "+faststart", "out.mp4"
        ]
    );
}

#[test]
fn ffmpeg_error_message_tail() {
    assert_eq!(media::ffmpeg_error_message(""), "FFmpeg exited with an error.");
    assert_eq!(
        media::ffmpeg_error_message("a\n\n b \nc\nd\ne\n"),
        "FFmpeg: b | c | d | e"
    );
    assert_eq!(media::ffmpeg_error_message("only\n"), "FFmpeg: only");
}

#[test]
fn local_stage_plan_names() {
    // A compatible MP4 keeps its name.
    let p = media::plan_local_stage("hello", &Some("mp4".to_string()), Some("demo".to_string()),
        &vec![])
        .expect("plan");
    assert_eq!(p.project_dir_name, "demo");
    assert_eq!(p.target_name, "hello.mp4");

    // Collisions get the first free suffix.
    let p2 = media::plan_local_stage(
        "hello",
        &Some("mp4".to_string()),
        Some("demo".to_string()),
        &vec!["hello.mp4".to_string()],
    )
    .expect("plan 2");
    assert_eq!(p2.target_name, "hello-2.mp4");

    // An MKV stages under its own extension before normalization.
    let p3 = media::plan_local_stage("src", &Some("mkv".to_string()), None, &vec![])
        .expect("plan 3");
    assert_eq!(p3.project_dir_name, "cursed-clipper-import");
    assert_eq!(p3.target_name, "src.mkv");

    // Unsupported containers are refused.
    assert!(media::plan_local_stage("x", &Some("txt".to_string()), None, &vec![]).is_err());
}

#[test]
fn probe_codec_reads_first_nonblank_line() {
    assert_eq!(media::probe_primary_codec("\n  \nh264\nextra\n"), Some("h264".to_string()));
    assert_eq!(media::probe_primary_codec("\n \n"), None);
}

use cursed_clipper::backend;
use cursed_clipper::text;
use cursed_clipper::checksum;
use cursed_clipper::tools;
use cursed_clipper::youtube;

#[test]
fn checksum_verification_matches_bytes() {
    // The well-known digest of "hello".
    let good = "2cf24dba5fb0a30e26e83b2ac5b9e29e1b161e5c1fa7425e73043362938b9824";
    assert!(checksum::verify_download_checksum(b"hello", good).is_ok());
    assert!(checksum::verify_download_checksum(b"hello", &good.to_uppercase()).is_ok());
    assert!(checksum::verify_download_checksum(b"hello!", good).is_err());
    assert!(checksum::verify_download_checksum(b"hello", "deadbeef").is_err());
    assert!(checksum::verify_download_checksum(b"hello", "").is_err());
}

#[test]
fn sha_token_and_manifest_parsing() {
    let tok = "2cf24dba5fb0a30e26e83b2ac5b9e29e1b161e5c1fa7425e73043362938b9824";
    let text = format!("sha256 {tok} extra");
    assert_eq!(checksum::parse_sha256_token(&text).as_deref(), Some(tok));
    assert!(checksum::parse_sha256_token("nothing here").is_none());

    let manifest = format!(
        "# comment\n\n{tok}  yt-dlp.exe\nffffffffffffffffffffffffffffffffffffffffffffffffffffffffffffffff  other\n"
    );
    assert_eq!(
        checksum::parse_sha256_for_asset(&manifest, "YT-DLP.EXE").as_deref(),
        Some(tok)
    );
    assert!(checksum::parse_sha256_for_asset(&manifest, "missing").is_none());

    // `*` separators and `./` prefixes are tolerated.
    let starred = format!("{tok} *./yt-dlp\n");
    assert_eq!(
        checksum::parse_sha256_for_asset(&starred, "yt-dlp").as_deref(),
        Some(tok)
    );
}

#[test]
fn installer_sources() {
    assert_eq!(
        tools::ytdlp_download_url(false),
        "https://github.com/yt-dlp/yt-dlp/releases/latest/download/yt-dlp"
    );
    assert_eq!(
        tools::ytdlp_download_url(true),
        "https://github.com/yt-dlp/yt-dlp/releases/latest/download/yt-dlp.exe"
    );
    assert_eq!(tools::ytdlp_asset_name(true), "yt-dlp.exe");
    assert_eq!(tools::platform_bin("ffmpeg", true), "ffmpeg.exe");
    assert_eq!(tools::platform_bin("ffmpeg", false), "ffmpeg");
}

#[test]
fn expected_digests_per_source() {
    let tok = "2cf24dba5fb0a30e26e83b2ac5b9e29e1b161e5c1fa7425e73043362938b9824";
    let essentials = tools::ffmpeg_essentials_url();
    let fallback = tools::ffmpeg_fallback_url();
    assert_eq!(
        tools::expected_ffmpeg_sha256_for_url(&essentials, &format!("{tok}\n")).expect("token"),
        tok
    );
    let manifest = format!("{tok}  ffmpeg-master-latest-win64-gpl.zip\n");
    assert_eq!(
        tools::expected_ffmpeg_sha256_for_url(&fallback, &manifest).expect("manifest"),
        tok
    );
    assert!(tools::expected_ffmpeg_sha256_for_url("https://github.com/other.zip", tok).is_err());

    let ytman = format!("{tok}  yt-dlp\n");
    assert_eq!(tools::expected_ytdlp_sha256(&ytman, false).expect("yt"), tok);
    assert!(tools::expected_ytdlp_sha256("", false).is_err());
}

#[test]
fn archive_entry_classification() {
    assert_eq!(
        tools::classify_ffmpeg_archive_entry("ffmpeg-7.0\\bin\\FFMPEG.EXE"),
        tools::FfmpegArchiveEntry::Transcoder
    );
    assert_eq!(
        tools::classify_ffmpeg_archive_entry("pkg/bin/ffprobe.exe"),
        tools::FfmpegArchiveEntry::Prober
    );
    assert_eq!(
        tools::classify_ffmpeg_archive_entry("pkg/doc/readme.txt"),
        tools::FfmpegArchiveEntry::Other
    );
}

#[test]
fn tool_inspection() {
    let ok = tools::inspect_tool(
        Some(("/usr/bin/ffmpeg".to_string(), "system".to_string())),
        "ffmpeg",
        Some("ffmpeg version 7.0".to_string()),
    );
    assert!(ok.available);
    assert_eq!(ok.source, "system");
    assert_eq!(ok.path.as_deref(), Some("/usr/bin/ffmpeg"));
    assert_eq!(ok.version.as_deref(), Some("ffmpeg version 7.0"));

    let silent = tools::inspect_tool(
        Some(("/usr/bin/ffmpeg".to_string(), "system".to_string())),
        "ffmpeg",
        None,
    );
    assert!(!silent.available);

    let missing = tools::inspect_tool(None, "yt-dlp", None);
    assert!(!missing.available);
    assert_eq!(missing.source, "missing");
    assert_eq!(missing.message.as_deref(), Some("Tool not found."));
}

#[test]
fn resolution_order() {
    let cands = tools::ToolCandidates {
        custom: Some("/c".to_string()),
        managed: Some("/m".to_string()),
        bundled: Some("/b".to_string()),
        system: Some("/s".to_string()),
    };
    assert_eq!(
        tools::resolve_ffmpeg_like(&cands, true),
        Some(("/c".to_string(), "custom".to_string()))
    );
    let no_custom = tools::ToolCandidates { custom: None, ..cands.clone() };
    assert_eq!(
        tools::resolve_ffmpeg_like(&no_custom, true),
        Some(("/m".to_string(), "managed".to_string()))
    );
    let bundled_pref = tools::ToolCandidates { custom: None, managed: None, ..cands.clone() };
    assert_eq!(
        tools::resolve_ffmpeg_like(&bundled_pref, true),
        Some(("/b".to_string(), "bundled".to_string()))
    );
    assert_eq!(
        tools::resolve_ffmpeg_like(&bundled_pref, false),
        Some(("/s".to_string(), "system".to_string()))
    );
    let last_resort = tools::ToolCandidates {
        custom: None,
        managed: None,
        bundled: Some("/b".to_string()),
        system: None,
    };
    assert_eq!(
        tools::resolve_ffmpeg_like(&last_resort, false),
        Some(("/b".to_string(), "bundled".to_string()))
    );

    assert_eq!(
        tools::resolve_ytdlp_choice("custom", Some("/c".to_string()), Some("/m".to_string()),
            Some("/s".to_string())),
        Some(("/c".to_string(), "custom".to_string()))
    );
    assert_eq!(tools::resolve_ytdlp_choice("custom", None, Some("/m".to_string()), None), None);
    assert_eq!(
        tools::resolve_ytdlp_choice("managed", None, Some("/m".to_string()),
            Some("/s".to_string())),
        Some(("/m".to_string(), "managed".to_string()))
    );
    assert_eq!(
        tools::resolve_ytdlp_choice("managed", None, None, Some("/s".to_string())),
        Some(("/s".to_string(), "system".to_string()))
    );
    assert_eq!(
        tools::resolve_ytdlp_choice("system", None, Some("/m".to_string()),
            Some("/s".to_string())),
        Some(("/s".to_string(), "system".to_string()))
    );
    assert_eq!(
        tools::resolve_ytdlp_choice("system", None, Some("/m".to_string()), None),
        Some(("/m".to_string(), "managed".to_string()))
    );
}

#[test]
fn video_file_recognition() {
    assert!(tools::is_allowed_video_extension("MP4"));
    assert!(tools::is_allowed_video_extension("mkv"));
    assert!(!tools::is_allowed_video_extension("txt"));
    assert!(tools::is_allowed_video_file("/proj/video.webm"));
    assert!(tools::is_allowed_video_file("C:\\clips\\video.mp4"));
    assert!(!tools::is_allowed_video_file("/proj/readme.txt"));
    assert!(!tools::is_allowed_video_file("/proj/noext"));
    // A component that begins with its only dot has no extension.
    assert!(!tools::is_allowed_video_file("/proj/.mkv"));
    assert!(!tools::is_allowed_video_file(".mkv"));
    assert!(tools::is_allowed_video_file("/proj/.hidden.mkv"));
}

#[test]
fn clock_is_available() {
    assert!(tools::now_unix_millis().is_ok());
}

// ---------------------------------------------------------------------------
// YouTube probe and download planning.
// ---------------------------------------------------------------------------

#[test]
fn probe_format_mapping() {
    let item = youtube::YtdlpProbeFormat {
        format_id: Some("22".to_string()),
        ext: Some("mp4".to_string()),
        format_note: None,
        resolution: Some("1280x720".to_string()),
        fps_milli: None,
        filesize: None,
        vcodec: Some("avc1.64001F".to_string()),
        acodec: Some("mp4a.40.2".to_string()),
        width: None,
        height: None,
    };
    let opt = youtube::build_format_option(&item).expect("format");
    assert_eq!(opt.label, "1280x720 \u{2022} mp4 \u{2022} 22");
    assert!(!opt.audio_only);
    assert!(!opt.video_only);
    assert_eq!(youtube::probe_title_or_default(Some("T".to_string())), "T");
    assert_eq!(youtube::probe_title_or_default(None), "YouTube video");

    let noted = youtube::YtdlpProbeFormat {
        format_note: Some("premium".to_string()),
        ..item.clone()
    };
    assert_eq!(
        youtube::build_format_option(&noted).expect("format").label,
        "1280x720 \u{2022} mp4 \u{2022} premium \u{2022} 22"
    );

    let from_dims = youtube::YtdlpProbeFormat {
        resolution: None,
        width: Some(640),
        height: Some(360),
        ..item.clone()
    };
    assert_eq!(youtube::build_format_option(&from_dims).expect("format").resolution, "640x360");

    let audio = youtube::YtdlpProbeFormat {
        vcodec: Some("none".to_string()),
        ..item.clone()
    };
    assert!(youtube::build_format_option(&audio).expect("format").audio_only);

    let nameless = youtube::YtdlpProbeFormat { format_id: None, ..item };
    assert!(youtube::build_format_option(&nameless).is_none());
}

#[test]
fn format_selectors() {
    assert_eq!(
        youtube::build_format_selector("137", true, true),
        "137+bestaudio[ext=m4a]/137+bestaudio/137/best"
    );
    assert_eq!(youtube::build_format_selector("22", true, false), "22/best[ext=mp4]/best");
    assert_eq!(youtube::build_format_selector("137", false, true), "137");
    assert_eq!(youtube::build_sort_string(true), "res,fps,vcodec:h264,acodec:aac");
    assert_eq!(youtube::build_sort_string(false), "res,fps,vcodec:h264");
}

#[test]
fn download_request_validation() {
    let req = youtube::YoutubeDownloadRequest {
        url: "https://www.youtube.com/watch?v=abc123".to_string(),
        format_id: "22".to_string(),
        video_only: Some(false),
        audio_only: Some(false),
        include_audio: None,
        project_name: None,
        task_id: None,
    };
    let spec = youtube::validate_download_request(&req).expect("spec");
    assert!(spec.include_audio);
    assert_eq!(spec.selector, "22/best[ext=mp4]/best");

    let audio_pick = youtube::YoutubeDownloadRequest { audio_only: Some(true), ..req.clone() };
    assert!(youtube::validate_download_request(&audio_pick).is_err());

    let bad_url = youtube::YoutubeDownloadRequest {
        url: "https://vimeo.com/1".to_string(),
        ..req
    };
    assert!(youtube::validate_download_request(&bad_url).is_err());
}

#[test]
fn output_candidates_and_containment() {
    assert_eq!(
        youtube::normalize_output_path_from_ytdlp("  \"\\\\?\\C:/proj/video-abc.mp4\"  ")
            .as_deref(),
        Some("C:/proj/video-abc.mp4")
    );
    assert_eq!(youtube::normalize_output_path_from_ytdlp("  \"\" "), None);

    let mut cands: Vec<String> = Vec::new();
    for i in 0..40 {
        youtube::push_output_candidate(&mut cands, format!("c{i}"));
    }
    assert_eq!(cands.len(), 32);
    assert_eq!(cands.last().map(|s| s.as_str()), Some("c39"));
    assert_eq!(cands.first().map(|s| s.as_str()), Some("c8"));

    assert!(youtube::is_within_dir("/proj", "/proj/video-abc.mp4"));
    assert!(youtube::is_within_dir("/proj", "/proj"));
    assert!(!youtube::is_within_dir("/proj", "/projects/video.mp4"));

    assert_eq!(
        youtube::download_failure_message(&Vec::new()),
        "Failed to resolve downloaded file path. yt-dlp candidates: none"
    );
    let msg = youtube::download_failure_message(&vec!["a".to_string(), "b".to_string()]);
    assert!(msg.ends_with("b | a"));
}

#[test]
fn download_durations_round() {
    assert_eq!(youtube::duration_seconds_of(Some(15_200)), Some(15));
    assert_eq!(youtube::duration_seconds_of(Some(15_500)), Some(16));
    assert_eq!(youtube::duration_seconds_of(Some(0)), None);
    assert_eq!(youtube::duration_seconds_of(None), None);
}

#[test]
fn ytdlp_output_template_joins() {
    assert_eq!(
        youtube::ytdlp_output_template("/proj/demo"),
        "/proj/demo/%(title).120B-%(id)s.%(ext)s"
    );
}

// ---------------------------------------------------------------------------
// Dashboard content.
// ---------------------------------------------------------------------------

#[test]
fn closed_set_validators() {
    assert_eq!(
        backend::validate_source_type(Some(" YouTube ".to_string())).as_deref(),
        Some("youtube")
    );
    assert_eq!(backend::validate_source_type(Some("other".to_string())), None);
    assert_eq!(backend::validate_source_type(None), None);
    assert_eq!(
        backend::validate_source_status(Some("READY".to_string())).as_deref(),
        Some("ready")
    );

    assert_eq!(
        backend::normalize_source_type_patch("  ".to_string()).expect("blank clears"),
        None
    );
    assert_eq!(
        backend::normalize_source_type_patch("Local".to_string()).expect("local"),
        Some("local".to_string())
    );
    assert!(backend::normalize_source_type_patch("weird".to_string()).is_err());
    assert!(backend::normalize_project_status_patch("".to_string()).is_err());
    assert_eq!(
        backend::normalize_project_status_patch("Draft".to_string()).expect("draft"),
        "draft"
    );
    assert!(backend::normalize_project_status_patch("unknown".to_string()).is_err());
}

#[test]
fn fixed_dashboard_content() {
    assert_eq!(backend::default_seed_projects().len(), 4);
    assert_eq!(backend::default_news_feed().len(), 3);
    assert_eq!(backend::default_updates_feed().len(), 3);
    let presets = backend::platform_presets();
    assert_eq!(presets.len(), 4);
    assert_eq!(presets[0].aspect, "9:16");
    assert_eq!(presets[3].aspect, "16:9");

    assert_eq!(backend::semantic_meta("hook").0, "Hook");
    assert_eq!(backend::semantic_meta("story").0, "Context");
    assert_eq!(backend::semantic_meta("anything").0, "Action");

    let insights = backend::build_viral_insights(80);
    assert_eq!(insights.len(), 3);
    assert_eq!(
        insights[0].detail,
        "First-seconds profile lands in the top 20% by retention probability."
    );
    let floored = backend::build_viral_insights(97);
    assert!(floored[0].detail.contains("top 8%"));

    let hooks = vec![backend::HookCandidate {
        id: "hk_1".to_string(),
        headline: "One edit".to_string(),
        reasoning: "r".to_string(),
        predicted_lift: "+1%".to_string(),
        tone: "Bold".to_string(),
    }];
    let ideas = backend::build_content_plan_ideas("Show", &hooks);
    assert_eq!(ideas.len(), 3);
    assert_eq!(ideas[1].angle, "Transform \"Show\" into five strategic micro-stories.");
    assert_eq!(ideas[2].title, "Hook ladder from \"One edit\"");
    let no_hooks = backend::build_content_plan_ideas("Show", &vec![]);
    assert_eq!(no_hooks[2].title, "Hook ladder from \"core idea\"");
}

#[test]
fn text_sanitizers() {
    assert_eq!(
        text::sanitize_text("  hello world  ".to_string(), 3, 5, "name").expect("text"),
        "hello"
    );
    assert!(text::sanitize_text(" a ".to_string(), 3, 5, "name").is_err());
    assert_eq!(
        text::sanitize_optional_text(Some("  hi  ".to_string()), 10).as_deref(),
        Some("hi")
    );
    assert_eq!(text::sanitize_optional_text(Some("   ".to_string()), 10), None);
    assert_eq!(text::clamp_u8(300, 0, 100), 100);
    assert_eq!(text::clamp_u8(-5, 0, 100), 0);
    assert!(text::is_sentence_boundary("done."));
    assert!(!text::is_sentence_boundary("done"));
    assert!(text::is_sentence_boundary_token("wait\u{2026}"));
}

use cursed_clipper::export;
use cursed_clipper::subtitle::{
    self, ClipBatchSubtitlePayload, ClipSubtitleRenderContext, ClipSubtitleWord,
    ExportTranscriptWord, SubtitleRenderProfile,
};

fn profile() -> SubtitleRenderProfile {
    SubtitleRenderProfile {
        animation: "line".to_string(),
        position: "bottom".to_string(),
        font_family: "Montserrat".to_string(),
        font_size: 60,
        line_height_milli: 1120,
        max_words_per_line: 6,
        max_chars_per_line: 34,
        max_lines: 2,
        safe_margin_x: 86,
        safe_margin_y: 142,
        primary_color: "#FFFFFF".to_string(),
        secondary_color: "#7EA6FF".to_string(),
        outline_color: "#0A0D16".to_string(),
        shadow_color: "#000000".to_string(),
        outline_width_deci: 23,
        shadow_depth_deci: 24,
        bold: true,
        italic: false,
        all_caps: false,
        letter_spacing_centi: 28,
        fade_in_ms: 100,
        fade_out_ms: 100,
        highlight_important_words: false,
    }
}

fn word(text: &str, start_ms: u64, end_ms: u64) -> ExportTranscriptWord {
    ExportTranscriptWord {
        id: format!("w{start_ms}"),
        text: text.to_string(),
        start_ms,
        end_ms,
    }
}

fn ctx(clip_start_ms: u64, clip_end_ms: u64, w: u32, h: u32) -> ClipSubtitleRenderContext {
    ClipSubtitleRenderContext {
        clip_start_ms,
        clip_end_ms,
        target_w: w,
        target_h: h,
        subtitle_offset_x_milli: 0,
        subtitle_offset_y_milli: 0,
        subtitle_box_width_milli: 1000,
        subtitle_box_height_milli: 1000,
    }
}

fn sub_word(text: &str, start_ms: u64, end_ms: u64) -> ClipSubtitleWord {
    ClipSubtitleWord {
        text: text.to_string(),
        start_ms,
        end_ms,
        emphasis: false,
    }
}

#[test]
fn word_text_normalization() {
    assert_eq!(subtitle::normalize_subtitle_word_text("  a   b  ", false), "a b");
    assert_eq!(subtitle::normalize_subtitle_word_text("x{y}z", false), "x(y)z");
    assert_eq!(subtitle::normalize_subtitle_word_text("abc", true), "ABC");
    assert_eq!(subtitle::normalize_subtitle_word_text("x{y}", true), "X(Y)");
    assert_eq!(subtitle::normalize_subtitle_word_text("\u{043f}\u{0440}\u{0438}\u{0432}\u{0435}\u{0442}", true),
        "\u{041f}\u{0420}\u{0418}\u{0412}\u{0415}\u{0422}");
    assert_eq!(subtitle::normalize_subtitle_word_text("   ", false), "");
}

#[test]
fn emphasis_detection_rules() {
    assert!(subtitle::is_emphasis_candidate("abcdefgh")); // eight letters
    assert!(!subtitle::is_emphasis_candidate("abc")); // too few letters
    assert!(subtitle::is_emphasis_candidate("abcde1")); // digit with five letters
    assert!(subtitle::is_emphasis_candidate("HELLO")); // all uppercase
    assert!(!subtitle::is_emphasis_candidate("hello")); // lowercase, short
}

#[test]
fn hex_and_ass_colors() {
    assert_eq!(subtitle::parse_hex_rgb("#A1b2C3"), Some((0xA1, 0xB2, 0xC3)));
    assert_eq!(subtitle::parse_hex_rgb(" #ff0000 "), Some((255, 0, 0)));
    assert_eq!(subtitle::parse_hex_rgb("nope"), None);
    assert_eq!(subtitle::ass_color("#FF0000", "#FFFFFF"), "&H000000FF");
    assert_eq!(subtitle::ass_color("bad", "#7EA6FF"), "&H00FFA67E");
    assert_eq!(subtitle::ass_color("bad", "also bad"), "&H00FFFFFF");
    assert_eq!(subtitle::ass_back_color("#000000", "#000000", 0x78), "&H78000000");
}

#[test]
fn ass_timestamps() {
    assert_eq!(subtitle::ass_timestamp(0), "0:00:00.00");
    assert_eq!(subtitle::ass_timestamp(61230), "0:01:01.23");
    assert_eq!(subtitle::ass_timestamp(3_600_000), "1:00:00.00");
    // Rounded to the centisecond.
    assert_eq!(subtitle::ass_timestamp(15), "0:00:00.02");
}

#[test]
fn alignment_codes() {
    assert_eq!(subtitle::subtitle_alignment(" TOP "), 8);
    assert_eq!(subtitle::subtitle_alignment("center"), 5);
    assert_eq!(subtitle::subtitle_alignment("bottom"), 2);
    assert_eq!(subtitle::subtitle_alignment("anything"), 2);
}

#[test]
fn sentence_chunk_threshold() {
    // With a word budget of six, the sentence-flush threshold is three.
    // A two-word fragment ending in "." does not flush...
    let words2 = vec![
        sub_word("one", 0, 400),
        sub_word("two.", 450, 800),
        sub_word("three", 900, 1300),
    ];
    let chunks2 = subtitle::chunk_words(words2, 6, 140);
    assert_eq!(chunks2.len(), 1);

    // ...but a four-word fragment ending in "." does.
    let words4 = vec![
        sub_word("one", 0, 300),
        sub_word("two", 350, 600),
        sub_word("three", 650, 900),
        sub_word("four.", 950, 1200),
        sub_word("five", 1300, 1600),
    ];
    let chunks4 = subtitle::chunk_words(words4, 6, 140);
    assert_eq!(chunks4.len(), 2);
    assert_eq!(chunks4[0].len(), 4);
    assert_eq!(chunks4[1].len(), 1);
}

#[test]
fn chunking_flushes_on_gap_and_span() {
    // A gap over 0.62 s flushes.
    let words = vec![
        sub_word("a", 0, 400),
        sub_word("b", 1100, 1500),
    ];
    assert_eq!(subtitle::chunk_words(words, 6, 140).len(), 2);

    // A chunk spanning over 4.4 s flushes.
    let long = vec![
        sub_word("a", 0, 400),
        sub_word("b", 500, 5000),
    ];
    assert_eq!(subtitle::chunk_words(long, 6, 140).len(), 2);
}

#[test]
fn events_stay_inside_the_clip_window() {
    // Words span 0..600 s; the clip is 10..40 s.
    let mut words = Vec::new();
    let mut t = 0u64;
    while t < 600_000 {
        words.push(word("word", t, t + 2_000));
        t += 3_000;
    }
    let payload = ClipBatchSubtitlePayload {
        enabled: true,
        preset_id: "sub".to_string(),
        preset_name: None,
        render_profile: profile(),
        words,
    };
    let doc = subtitle::build_clip_subtitle_ass(&payload, None, &ctx(10_000, 40_000, 1080, 1920))
        .expect("events expected");
    assert!(!doc.events.is_empty());
    for e in &doc.events {
        assert!(e.start_ms < e.end_ms);
        assert!(e.end_ms <= 30_000);
    }
    assert!(doc.content.starts_with("[Script Info]"));
    assert!(doc.content.contains("Style: CCMain,Montserrat,60,"));
    assert!(doc.content.contains("Dialogue: 0,"));
}

#[test]
fn no_words_in_window_means_no_file() {
    let payload = ClipBatchSubtitlePayload {
        enabled: true,
        preset_id: "sub".to_string(),
        preset_name: None,
        render_profile: profile(),
        words: vec![word("early", 0, 1_000)],
    };
    assert!(subtitle::build_clip_subtitle_ass(&payload, None, &ctx(10_000, 40_000, 1080, 1920))
        .is_none());

    let disabled = ClipBatchSubtitlePayload {
        enabled: false,
        preset_id: "sub".to_string(),
        preset_name: None,
        render_profile: profile(),
        words: vec![word("w", 11_000, 12_000)],
    };
    assert!(subtitle::build_clip_subtitle_ass(&disabled, None, &ctx(10_000, 40_000, 1080, 1920))
        .is_none());
}

#[test]
fn position_override_changes_alignment() {
    let payload = ClipBatchSubtitlePayload {
        enabled: true,
        preset_id: "sub".to_string(),
        preset_name: None,
        render_profile: profile(),
        words: vec![word("hello", 11_000, 12_000), word("world", 12_100, 13_000)],
    };
    let top = "top".to_string();
    let doc = subtitle::build_clip_subtitle_ass(&payload, Some(&top), &ctx(10_000, 40_000, 1080, 1920))
        .expect("doc");
    // Alignment 8 is the top anchor.
    assert!(doc.content.contains(",8,"));
    let doc_bottom =
        subtitle::build_clip_subtitle_ass(&payload, None, &ctx(10_000, 40_000, 1080, 1920))
            .expect("doc bottom");
    assert!(doc_bottom.content.contains(",2,"));
}

#[test]
fn karaoke_and_word_pop_tags() {
    let mut p = profile();
    p.animation = "karaoke".to_string();
    let payload = ClipBatchSubtitlePayload {
        enabled: true,
        preset_id: "sub".to_string(),
        preset_name: None,
        render_profile: p,
        words: vec![word("hello", 11_000, 12_000)],
    };
    let doc = subtitle::build_clip_subtitle_ass(&payload, None, &ctx(10_000, 40_000, 1080, 1920))
        .expect("doc");
    assert!(doc.content.contains("{\\k100}"));

    let mut p2 = profile();
    p2.animation = "word-pop".to_string();
    let payload2 = ClipBatchSubtitlePayload {
        enabled: true,
        preset_id: "sub".to_string(),
        preset_name: None,
        render_profile: p2,
        words: vec![word("hello", 11_000, 12_000)],
    };
    let doc2 = subtitle::build_clip_subtitle_ass(&payload2, None, &ctx(10_000, 40_000, 1080, 1920))
        .expect("doc2");
    assert!(doc2.content.contains("\\t(0,120,\\fscx114\\fscy114)"));
}

// ---------------------------------------------------------------------------
// Export planning.
// ---------------------------------------------------------------------------

fn task(clip: &str, platform: &str, aspect: &str, start_ms: u64, end_ms: u64, subs: bool)
    -> export::ClipExportPlatformTask {
    export::ClipExportPlatformTask {
        clip_id: clip.to_string(),
        platform_id: platform.to_string(),
        aspect: aspect.to_string(),
        subtitles_enabled: Some(subs),
        start_ms,
        end_ms,
        output_width: None,
        output_height: None,
        fit_mode: None,
        render_zoom_milli: None,
        render_offset_x_milli: None,
        render_offset_y_milli: None,
        subtitle_position_override: None,
        subtitle_offset_x_milli: None,
        subtitle_offset_y_milli: None,
        subtitle_box_width_milli: None,
        subtitle_box_height_milli: None,
        title: None,
        description: None,
        tags: None,
        cover_path: None,
    }
}

fn batch_payload() -> ClipBatchSubtitlePayload {
    let mut words = Vec::new();
    let mut t = 0u64;
    while t < 600_000 {
        words.push(word("steady", t, t + 2_000));
        t += 3_000;
    }
    ClipBatchSubtitlePayload {
        enabled: true,
        preset_id: "sub".to_string(),
        preset_name: None,
        render_profile: profile(),
        words,
    }
}

#[test]
fn batch_export_mixed_subtitles() {
    let mut a = task("clip-a", "tiktok", "9:16", 10_000, 40_000, true);
    a.subtitle_position_override = Some("top".to_string());
    let b = task("clip-b", "telegram", "16:9", 300_000, 330_000, false);
    let plans = export::plan_export_batch(
        &vec![a, b],
        &Some(batch_payload()),
        "/tmp/src/video.mp4",
        "/tmp/src/exports/batch-1712000000",
    )
    .expect("plan");
    assert_eq!(plans.len(), 2);
    assert_ne!(plans[0].output_path, plans[1].output_path);
    assert_eq!(plans[0].target_w, 1080);
    assert_eq!(plans[0].target_h, 1920);
    assert_eq!(plans[1].target_w, 1920);
    assert_eq!(plans[1].target_h, 1080);

    let subs = plans[0].subtitle.as_ref().expect("task a has subtitles");
    assert!(subs.file_name.ends_with("-subs.ass"));
    assert!(subs.content.contains("Dialogue: 0,"));
    // The override moves the style anchor to the top.
    assert!(subs.content.contains(",8,"));
    assert!(plans[1].subtitle.is_none());
}

#[test]
fn batch_export_distinct_outputs_for_same_title() {
    let mut a = task("c1", "p1", "9:16", 0, 10_000, false);
    let mut b = task("c2", "p2", "9:16", 0, 10_000, false);
    a.title = Some("My Clip".to_string());
    b.title = Some("My Clip".to_string());
    let plans = export::plan_export_batch(&vec![a, b], &None, "/s.mp4", "/out").expect("plan");
    assert_eq!(plans[0].output_name, "My-Clip.mp4");
    assert_eq!(plans[1].output_name, "My-Clip-2.mp4");
    assert_ne!(plans[0].output_path, plans[1].output_path);
}

#[test]
fn batch_export_validation_errors() {
    assert!(export::plan_export_batch(&vec![], &None, "/s.mp4", "/out").is_err());

    let many: Vec<_> = (0..201).map(|i| task(&format!("c{i}"), "p", "1:1", 0, 10_000, false))
        .collect();
    assert!(export::plan_export_batch(&many, &None, "/s.mp4", "/out").is_err());

    // A subtitle-enabled task without a payload is refused.
    let st = task("c", "p", "1:1", 0, 10_000, true);
    assert!(export::plan_export_batch(&vec![st], &None, "/s.mp4", "/out").is_err());

    // An oversized transcript is refused.
    let mut huge = batch_payload();
    huge.words = (0..60_001).map(|i| word("w", i, i + 100)).collect();
    let t0 = task("c", "p", "1:1", 0, 10_000, true);
    assert!(export::plan_export_batch(&vec![t0], &Some(huge), "/s.mp4", "/out").is_err());

    // A too-short range is refused.
    let bad = task("c", "p", "1:1", 5_000, 5_050, false);
    assert!(export::plan_export_batch(&vec![bad], &None, "/s.mp4", "/out").is_err());
}

#[test]
fn export_time_clamping() {
    assert_eq!(export::clamp_export_time(1_000), 1_000);
    assert_eq!(export::clamp_export_time(99_999_999), 36_000_000);
}

#[test]
fn filter_path_escaping() {
    assert_eq!(
        export::escape_ffmpeg_filter_path("C:\\clips\\a,b's[1];x.ass"),
        "C\\:/clips/a\\,b\\'s\\[1\\]\\;x.ass"
    );
    assert_eq!(export::escape_ffmpeg_filter_path("plain.ass"), "plain.ass");
}

#[test]
fn filter_graphs() {
    let contain = export::build_contain_filter(1080, 1920);
    assert_eq!(
        contain,
        "scale=1080:1920:force_original_aspect_ratio=decrease,pad=1080:1920:(ow-iw)/2:(oh-ih)/2:black,setsar=1"
    );
    let center = export::build_cover_center_filter(1920, 1080);
    assert_eq!(
        center,
        "scale=1920:1080:force_original_aspect_ratio=increase,crop=1920:1080,setsar=1"
    );
    let cover = export::build_cover_filter(1080, 1080, 1250, -500, 0);
    assert!(cover.contains("scale='trunc(iw*1.25000/2)*2'"));
    assert!(cover.contains("(-0.50000)"));
    assert!(cover.ends_with(",setsar=1"));
    let with_subs = export::append_subtitles_filter(
        export::build_contain_filter(1080, 1080),
        Some(&"a.ass".to_string()),
    );
    assert!(with_subs.ends_with(",subtitles=filename='a.ass':charenc=UTF-8"));
    assert!(export::wants_cover_filter("Cover"));
    assert!(export::wants_cover_filter("free"));
    assert!(export::wants_cover_filter("crop"));
    assert!(!export::wants_cover_filter("contain"));
}

#[test]
fn export_args_shape() {
    let args = export::build_export_args(10_000, 30_000, "/s.mp4", "FILTER", "/out.mp4");
    let args: Vec<&str> = args.iter().map(|s| s.as_str()).collect();
    assert_eq!(
        args,
        vec![
            "-y", "-ss", "10.000", "-t", "30.000", "-i", "/s.mp4", "-vf", "FILTER", "-map",
            "0:v:0", "-map", "0:a:0?", "-c:v", "libx264", "-preset", "veryfast", "-crf", "20",
            "-pix_fmt", "yuv420p", "-c:a", "aac", "-b:a", "160k", "-movflags", "+faststart",
            "/out.mp4"
        ]
    );
}

#[test]
fn unique_names_take_smallest_suffix() {
    let taken = vec!["s.mp4".to_string(), "s-2.mp4".to_string()];
    assert_eq!(export::ensure_unique_export_file_path(&taken, "s", "mp4"), "s-3.mp4");
    // The smallest free suffix is taken even when later ones are also taken.
    let holey = vec!["s.mp4".to_string(), "s-3.mp4".to_string()];
    assert_eq!(export::ensure_unique_export_file_path(&holey, "s", "mp4"), "s-2.mp4");
    assert_eq!(export::ensure_unique_export_file_path(&vec![], "s", "mp4"), "s.mp4");
    // A blank extension falls back to mp4.
    assert_eq!(export::ensure_unique_export_file_path(&vec![], "s", " "), "s.mp4");
}

#[test]
fn export_path_and_base_dir() {
    assert_eq!(export::validate_export_path(" /a/b.mp4 ").expect("path"), "/a/b.mp4");
    assert_eq!(
        export::validate_export_path("\\\\?\\C:/a.mp4").expect("path"),
        "C:/a.mp4"
    );
    assert!(export::validate_export_path("  ").is_err());
    assert!(export::validate_export_path(&"x".repeat(3000)).is_err());

    assert_eq!(
        export::compute_export_base_dir(Some("/videos".to_string()), "/root", None),
        "/videos/exports"
    );
    assert_eq!(
        export::compute_export_base_dir(None, "/projects", Some("My Show".to_string())),
        "/projects/My-Show/exports"
    );
    assert_eq!(export::batch_run_dir_name(1712000000), "batch-1712000000");
}

#[test]
fn cover_extension_rules() {
    assert_eq!(export::cover_extension("/a/b/cover.PNG"), "PNG");
    assert_eq!(export::cover_extension("/a/b/cover"), "jpg");
    assert_eq!(export::cover_extension("/a.b/cover"), "jpg");
    assert_eq!(export::cover_extension("cover.jpeg"), "jpeg");
    // Dot-files have no extension of their own.
    assert_eq!(export::cover_extension("/a/.hidden"), "jpg");
    assert_eq!(export::cover_extension("C:\\covers\\art.png"), "png");
}

#[test]
fn manifest_entries_follow_plans() {
    let a = task("c1", "p1", "9:16", 0, 10_000, false);
    let plans = export::plan_export_batch(&vec![a], &None, "/s.mp4", "/out").expect("plan");
    let entries = export::build_manifest_entries(&plans, &vec![Some("/out/c.jpg".to_string())]);
    assert_eq!(entries.len(), 1);
    assert_eq!(entries[0].clip_id, "c1");
    assert_eq!(entries[0].output_path, plans[0].output_path);
    assert_eq!(entries[0].cover_path.as_deref(), Some("/out/c.jpg"));
}

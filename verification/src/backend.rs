//! Dashboard data: project records, validation of their closed-set fields,
//! and the fixed editorial content.

use vstd::prelude::*;
use crate::strutil::{spec_trim, spec_lower, spec_u64_digits, trim_str, ascii_lower, str_eq,
    u64_to_string, copy_str,
};
use crate::text::{spec_optional_text, sanitize_optional_text};

verus! {

/// A stored project record.
#[derive(Debug, Clone)]
pub struct Project {
    pub id: String,
    pub name: String,
    pub description: String,
    pub updated_at: String,
    pub clips: u32,
    pub duration_seconds: u32,
    pub status: String,
    pub source_type: Option<String>,
    pub source_label: Option<String>,
    pub source_url: Option<String>,
    pub source_status: Option<String>,
    pub source_uploader: Option<String>,
    pub source_duration_seconds: Option<u32>,
    pub source_thumbnail: Option<String>,
    pub source_view_count: Option<u64>,
    pub source_view_count_previous: Option<u64>,
    pub source_like_count: Option<u64>,
    pub source_like_count_previous: Option<u64>,
    pub source_comment_count: Option<u64>,
    pub source_comment_count_previous: Option<u64>,
    pub source_upload_date: Option<String>,
    pub source_channel_id: Option<String>,
    pub source_channel_url: Option<String>,
    pub source_channel_followers: Option<u64>,
    pub source_channel_followers_previous: Option<u64>,
    pub source_metrics_updated_at: Option<String>,
    pub imported_media_path: Option<String>,
}

/// One feed item.
#[derive(Debug, Clone)]
pub struct NewsItem {
    pub id: String,
    pub label: String,
    pub title: String,
    pub timestamp: String,
}

/// One scored insight.
#[derive(Debug, Clone)]
pub struct ViralInsight {
    pub id: String,
    pub title: String,
    pub impact: String,
    pub detail: String,
}

/// One opening-line candidate.
#[derive(Debug, Clone)]
pub struct HookCandidate {
    pub id: String,
    pub headline: String,
    pub reasoning: String,
    pub predicted_lift: String,
    pub tone: String,
}

/// One platform target.
#[derive(Debug, Clone)]
pub struct PlatformPreset {
    pub id: String,
    pub name: String,
    pub aspect: String,
    pub max_duration: String,
    pub description: String,
}

/// One content-plan idea.
#[derive(Debug, Clone)]
pub struct ContentPlanIdea {
    pub id: String,
    pub title: String,
    pub angle: String,
    pub channels: Vec<String>,
    pub script_outline: String,
}

/// The dashboard payload.
#[derive(Debug, Clone)]
pub struct DashboardDataPayload {
    pub projects: Vec<Project>,
    pub news_feed: Vec<NewsItem>,
    pub updates_feed: Vec<NewsItem>,
}

/// A partial update to a project record.
#[derive(Debug, Clone)]
pub struct ProjectPatch {
    pub name: Option<String>,
    pub description: Option<String>,
    pub status: Option<String>,
    pub clips: Option<u32>,
    pub duration_seconds: Option<u32>,
    pub source_type: Option<String>,
    pub source_label: Option<String>,
    pub source_url: Option<String>,
    pub source_status: Option<String>,
    pub source_uploader: Option<String>,
    pub source_duration_seconds: Option<u32>,
    pub source_thumbnail: Option<String>,
    pub source_view_count: Option<u64>,
    pub source_view_count_previous: Option<u64>,
    pub source_like_count: Option<u64>,
    pub source_like_count_previous: Option<u64>,
    pub source_comment_count: Option<u64>,
    pub source_comment_count_previous: Option<u64>,
    pub source_upload_date: Option<String>,
    pub source_channel_id: Option<String>,
    pub source_channel_url: Option<String>,
    pub source_channel_followers: Option<u64>,
    pub source_channel_followers_previous: Option<u64>,
    pub source_metrics_updated_at: Option<String>,
    pub imported_media_path: Option<String>,
    pub updated_at: Option<String>,
}

// ---------------------------------------------------------------------------
// Closed-set validators.
// ---------------------------------------------------------------------------

/// A stored source type: `local` or `youtube`, lowercased; anything else is
/// dropped.
pub fn validate_source_type(value: Option<String>) -> (r: Option<String>)
    ensures
        match r {
            Option::Some(t) => (t@ == "local"@ || t@ == "youtube"@) && (
            spec_optional_text(value, 24) matches Option::Some(raw) && spec_lower(raw) == t@),
            Option::None => true,
        },
{
    match sanitize_optional_text(value, 24) {
        Option::Some(raw) => {
            let l = ascii_lower(raw.as_str());
            if str_eq(l.as_str(), "local") || str_eq(l.as_str(), "youtube") {
                Some(l)
            } else {
                None
            }
        },
        Option::None => None,
    }
}

/// A stored source status: `pending`, `ready` or `failed`.
pub fn validate_source_status(value: Option<String>) -> (r: Option<String>)
    ensures
        match r {
            Option::Some(t) => (t@ == "pending"@ || t@ == "ready"@ || t@ == "failed"@) && (
            spec_optional_text(value, 24) matches Option::Some(raw) && spec_lower(raw) == t@),
            Option::None => true,
        },
{
    match sanitize_optional_text(value, 24) {
        Option::Some(raw) => {
            let l = ascii_lower(raw.as_str());
            if str_eq(l.as_str(), "pending") || str_eq(l.as_str(), "ready") || str_eq(
                l.as_str(),
                "failed",
            ) {
                Some(l)
            } else {
                None
            }
        },
        Option::None => None,
    }
}

/// Applies a source-type patch: blank clears the field, a known type is
/// stored lowercased, anything else is refused.
pub fn normalize_source_type_patch(value: String) -> (r: Result<Option<String>, String>)
    ensures
        match r {
            Ok(Option::None) => spec_trim(value@).len() == 0,
            Ok(Option::Some(t)) => spec_lower(spec_trim(value@)) == t@ && (t@ == "local"@ || t@
                == "youtube"@),
            Err(_) => spec_trim(value@).len() > 0 && spec_lower(spec_trim(value@)) != "local"@
                && spec_lower(spec_trim(value@)) != "youtube"@,
        },
{
    let t = trim_str(value.as_str());
    if t.unicode_len() == 0 {
        return Ok(None);
    }
    let l = ascii_lower(t.as_str());
    if str_eq(l.as_str(), "local") || str_eq(l.as_str(), "youtube") {
        Ok(Some(l))
    } else {
        let mut e = String::new();
        e.append("Invalid project source type.");
        Err(e)
    }
}

/// Applies a source-status patch: blank clears the field, a known status
/// is stored lowercased, anything else is refused.
pub fn normalize_source_status_patch(value: String) -> (r: Result<Option<String>, String>)
    ensures
        match r {
            Ok(Option::None) => spec_trim(value@).len() == 0,
            Ok(Option::Some(t)) => spec_lower(spec_trim(value@)) == t@ && (t@ == "pending"@ || t@
                == "ready"@ || t@ == "failed"@),
            Err(_) => spec_trim(value@).len() > 0 && spec_lower(spec_trim(value@)) != "pending"@
                && spec_lower(spec_trim(value@)) != "ready"@ && spec_lower(spec_trim(value@))
                != "failed"@,
        },
{
    let t = trim_str(value.as_str());
    if t.unicode_len() == 0 {
        return Ok(None);
    }
    let l = ascii_lower(t.as_str());
    if str_eq(l.as_str(), "pending") || str_eq(l.as_str(), "ready") || str_eq(
        l.as_str(),
        "failed",
    ) {
        Ok(Some(l))
    } else {
        let mut e = String::new();
        e.append("Invalid project source status.");
        Err(e)
    }
}

/// Applies a project-status patch: the status must be one of `ready`,
/// `processing` or `draft` and may not be blank.
pub fn normalize_project_status_patch(value: String) -> (r: Result<String, String>)
    ensures
        match r {
            Ok(t) => spec_lower(spec_trim(value@)) == t@ && (t@ == "ready"@ || t@ == "processing"@
                || t@ == "draft"@),
            Err(_) => spec_trim(value@).len() == 0 || (spec_lower(spec_trim(value@)) != "ready"@
                && spec_lower(spec_trim(value@)) != "processing"@ && spec_lower(
                spec_trim(value@),
            ) != "draft"@),
        },
{
    let t = trim_str(value.as_str());
    if t.unicode_len() == 0 {
        let mut e = String::new();
        e.append("Project status cannot be empty.");
        return Err(e);
    }
    let l = ascii_lower(t.as_str());
    if str_eq(l.as_str(), "ready") || str_eq(l.as_str(), "processing") || str_eq(
        l.as_str(),
        "draft",
    ) {
        Ok(l)
    } else {
        let mut e = String::new();
        e.append("Invalid project status.");
        Err(e)
    }
}

// ---------------------------------------------------------------------------
// Fixed editorial content.
// ---------------------------------------------------------------------------

/// The label, summary and theme of a semantic block type.
pub fn semantic_meta(block_type: &str) -> (r: (String, String, String))
    ensures
        block_type@ == "hook"@ ==> r.0@ == "Hook"@,
        block_type@ == "story"@ ==> r.0@ == "Context"@,
        block_type@ == "proof"@ ==> r.0@ == "Proof"@,
        block_type@ != "hook"@ && block_type@ != "story"@ && block_type@ != "proof"@ ==> r.0@
            == "Action"@,
{
    proof {
        reveal_strlit("hook");
        reveal_strlit("story");
        reveal_strlit("proof");
        assert("hook"@.len() == 4 && "story"@.len() == 5 && "proof"@.len() == 5);
        assert("story"@[0] == 's' && "proof"@[0] == 'p');
        assert("hook"@ != "story"@ && "hook"@ != "proof"@ && "story"@ != "proof"@);
    }
    let mut a = String::new();
    let mut b = String::new();
    let mut c = String::new();
    if str_eq(block_type, "hook") {
        a.append("Hook");
        b.append("Strong opening with a promised outcome and an attention trigger.");
        c.append("Attention launch");
    } else if str_eq(block_type, "story") {
        a.append("Context");
        b.append("Semantic layer that sustains attention and explains why it matters.");
        c.append("Narrative and context");
    } else if str_eq(block_type, "proof") {
        a.append("Proof");
        b.append("Fact, example, or metric that strengthens trust.");
        c.append("Value proof");
    } else {
        a.append("Action");
        b.append("Clear call to action and next step for the viewer.");
        c.append("Call to action");
    }
    (a, b, c)
}

fn news_item(id: &str, label: &str, title: &str, timestamp: &str) -> (r: NewsItem)
    ensures
        r.id@ == id@,
        r.label@ == label@,
        r.title@ == title@,
        r.timestamp@ == timestamp@,
{
    NewsItem {
        id: copy_str(id),
        label: copy_str(label),
        title: copy_str(title),
        timestamp: copy_str(timestamp),
    }
}

/// The fixed news feed.
pub fn default_news_feed() -> (r: Vec<NewsItem>)
    ensures
        r@.len() == 3,
        r@[0].id@ == "n_01"@,
        r@[1].id@ == "n_02"@,
        r@[2].id@ == "n_03"@,
{
    let mut out: Vec<NewsItem> = Vec::new();
    out.push(
        news_item(
            "n_01",
            "Market",
            "Short-form expert monologues are showing higher completion rates.",
            "Today",
        ),
    );
    out.push(
        news_item(
            "n_02",
            "Tip",
            "Lock key phrases before clip generation to improve relevance.",
            "Today",
        ),
    );
    out.push(
        news_item(
            "n_03",
            "Insight",
            "Clips in the 22-38 second range perform best when the opening promise is explicit.",
            "Yesterday",
        ),
    );
    out
}

/// The fixed updates feed.
pub fn default_updates_feed() -> (r: Vec<NewsItem>)
    ensures
        r@.len() == 3,
        r@[0].id@ == "u_01"@,
        r@[1].id@ == "u_02"@,
        r@[2].id@ == "u_03"@,
{
    let mut out: Vec<NewsItem> = Vec::new();
    out.push(
        news_item(
            "u_01",
            "Release",
            "Semantic timeline now factors confidence for semantic blocks.",
            "Today",
        ),
    );
    out.push(
        news_item(
            "u_02",
            "System",
            "Thumbnail generator now includes quick templates for TikTok and Shorts.",
            "Today",
        ),
    );
    out.push(
        news_item(
            "u_03",
            "Interface",
            "The new workspace mode reduces visual noise during editing.",
            "2 days ago",
        ),
    );
    out
}

/// The fixed platform targets.
pub fn platform_presets() -> (r: Vec<PlatformPreset>)
    ensures
        r@.len() == 4,
        r@[0].id@ == "pf_tiktok"@ && r@[0].aspect@ == "9:16"@,
        r@[1].id@ == "pf_shorts"@ && r@[1].aspect@ == "9:16"@,
        r@[2].id@ == "pf_reels"@ && r@[2].aspect@ == "9:16"@,
        r@[3].id@ == "pf_telegram"@ && r@[3].aspect@ == "16:9"@,
{
    let mut out: Vec<PlatformPreset> = Vec::new();
    out.push(
        PlatformPreset {
            id: copy_str("pf_tiktok"),
            name: copy_str("TikTok"),
            aspect: copy_str("9:16"),
            max_duration: copy_str("60 s"),
            description: copy_str("Fast hook, subtitle-safe margins, dynamic pace."),
        },
    );
    out.push(
        PlatformPreset {
            id: copy_str("pf_shorts"),
            name: copy_str("Shorts"),
            aspect: copy_str("9:16"),
            max_duration: copy_str("60 s"),
            description: copy_str("Retention-oriented rhythm with a direct final CTA."),
        },
    );
    out.push(
        PlatformPreset {
            id: copy_str("pf_reels"),
            name: copy_str("Reels"),
            aspect: copy_str("9:16"),
            max_duration: copy_str("90 s"),
            description: copy_str("Story-driven pacing with clean lower captions."),
        },
    );
    out.push(
        PlatformPreset {
            id: copy_str("pf_telegram"),
            name: copy_str("Telegram"),
            aspect: copy_str("16:9"),
            max_duration: copy_str("120 s"),
            description: copy_str("More contextual format for channel posts and explainers."),
        },
    );
    out
}

/// The fixed insight list for a viral score; the first detail names the
/// retention percentile `100 - score`, floored at eight.
pub fn build_viral_insights(score: u8) -> (r: Vec<ViralInsight>)
    ensures
        r@.len() == 3,
        r@[0].id@ == "vi_hook_density"@,
        r@[1].id@ == "vi_pacing"@,
        r@[2].id@ == "vi_clarity"@,
        r@[0].detail@ == "First-seconds profile lands in the top "@ + spec_u64_digits(
            ({
                let v = 100 - score as int;
                if v < 8 {
                    8
                } else {
                    v
                }
            }),
        ) + "% by retention probability."@,
{
    let pct0: u64 = if score as u64 <= 100 {
        100 - score as u64
    } else {
        0
    };
    let pct: u64 = if pct0 < 8 {
        8
    } else {
        pct0
    };
    proof {
        assert(pct as int == ({
            let v = 100 - score as int;
            if v < 8 {
                8int
            } else {
                v
            }
        }));
    }
    let mut detail0 = String::new();
    detail0.append("First-seconds profile lands in the top ");
    let d = u64_to_string(pct);
    detail0.append(d.as_str());
    detail0.append("% by retention probability.");
    let mut out: Vec<ViralInsight> = Vec::new();
    out.push(
        ViralInsight {
            id: copy_str("vi_hook_density"),
            title: copy_str("Hook density is above niche median"),
            impact: copy_str("High"),
            detail: detail0,
        },
    );
    out.push(
        ViralInsight {
            id: copy_str("vi_pacing"),
            title: copy_str("Phrase cadence supports repeat views"),
            impact: copy_str("Medium"),
            detail: copy_str(
                "Sentence transitions are compact; attention-drop risk after second 7 is low.",
            ),
        },
    );
    out.push(
        ViralInsight {
            id: copy_str("vi_clarity"),
            title: copy_str("Value proposition should be strengthened at the ending"),
            impact: copy_str("Medium"),
            detail: copy_str(
                "Add an explicit outcome in the last 20% of the clip to increase completion intent.",
            ),
        },
    );
    out
}

/// The fixed content-plan ideas; the second angle names the project and the
/// third title quotes the first hook's headline (or `core idea`).
pub fn build_content_plan_ideas(project_name: &str, hooks: &Vec<HookCandidate>) -> (r: Vec<
    ContentPlanIdea,
>)
    ensures
        r@.len() == 3,
        r@[0].id@ == "cp_1"@,
        r@[1].id@ == "cp_2"@,
        r@[2].id@ == "cp_3"@,
        r@[1].angle@ == "Transform \""@ + project_name@
            + "\" into five strategic micro-stories."@,
        hooks@.len() > 0 ==> r@[2].title@ == "Hook ladder from \""@ + hooks@[0].headline@
            + "\""@,
        hooks@.len() == 0 ==> r@[2].title@ == "Hook ladder from \""@ + "core idea"@ + "\""@,
{
    let mut channels1: Vec<String> = Vec::new();
    channels1.push(copy_str("Reels"));
    channels1.push(copy_str("Shorts"));
    channels1.push(copy_str("TikTok"));
    let mut channels2: Vec<String> = Vec::new();
    channels2.push(copy_str("Shorts"));
    channels2.push(copy_str("Telegram"));
    let mut channels3: Vec<String> = Vec::new();
    channels3.push(copy_str("TikTok"));
    channels3.push(copy_str("Reels"));

    let mut angle2 = String::new();
    angle2.append("Transform \"");
    angle2.append(project_name);
    angle2.append("\" into five strategic micro-stories.");

    let mut title3 = String::new();
    title3.append("Hook ladder from \"");
    if hooks.len() > 0 {
        title3.append(hooks[0].headline.as_str());
    } else {
        title3.append("core idea");
    }
    title3.append("\"");

    let mut out: Vec<ContentPlanIdea> = Vec::new();
    out.push(
        ContentPlanIdea {
            id: copy_str("cp_1"),
            title: copy_str("Mini-series \"Myth / Reality\""),
            angle: copy_str("Each episode resolves one audience objection with proof."),
            channels: channels1,
            script_outline: copy_str(
                "Myth -> 2-second rebuttal -> proof snippet -> one practical takeaway.",
            ),
        },
    );
    out.push(
        ContentPlanIdea {
            id: copy_str("cp_2"),
            title: copy_str("Founder micro-lessons"),
            angle: angle2,
            channels: channels2,
            script_outline: copy_str(
                "Situation -> solution -> result -> short reflection reinforcing authority.",
            ),
        },
    );
    out.push(
        ContentPlanIdea {
            id: copy_str("cp_3"),
            title: title3,
            angle: copy_str(
                "Publish three versions of one semantic block with different openings.",
            ),
            channels: channels3,
            script_outline: copy_str(
                "Version A (curiosity) -> Version B (problem) -> Version C (proof-first).",
            ),
        },
    );
    out
}

fn seed_project(id: &str, name: &str, description: &str, updated_at: &str, clips: u32,
    duration_seconds: u32, status: &str) -> (r: Project)
    ensures
        r.id@ == id@,
        r.name@ == name@,
        r.status@ == status@,
        r.clips == clips,
        r.duration_seconds == duration_seconds,
{
    Project {
        id: copy_str(id),
        name: copy_str(name),
        description: copy_str(description),
        updated_at: copy_str(updated_at),
        clips,
        duration_seconds,
        status: copy_str(status),
        source_type: None,
        source_label: None,
        source_url: None,
        source_status: None,
        source_uploader: None,
        source_duration_seconds: None,
        source_thumbnail: None,
        source_view_count: None,
        source_view_count_previous: None,
        source_like_count: None,
        source_like_count_previous: None,
        source_comment_count: None,
        source_comment_count_previous: None,
        source_upload_date: None,
        source_channel_id: None,
        source_channel_url: None,
        source_channel_followers: None,
        source_channel_followers_previous: None,
        source_metrics_updated_at: None,
        imported_media_path: None,
    }
}

/// The fixed starter projects.
pub fn default_seed_projects() -> (r: Vec<Project>)
    ensures
        r@.len() == 4,
        r@[0].id@ == "p_01"@ && r@[0].status@ == "ready"@ && r@[0].clips == 8
            && r@[0].duration_seconds == 1520,
        r@[1].id@ == "p_02"@ && r@[1].status@ == "processing"@ && r@[1].clips == 5
            && r@[1].duration_seconds == 940,
        r@[2].id@ == "p_03"@ && r@[2].status@ == "ready"@ && r@[2].clips == 11
            && r@[2].duration_seconds == 2840,
        r@[3].id@ == "p_04"@ && r@[3].status@ == "draft"@ && r@[3].clips == 3
            && r@[3].duration_seconds == 3210,
{
    let mut out: Vec<Project> = Vec::new();
    out.push(
        seed_project(
            "p_01",
            "История основателя - выпуск 12",
            "Нарративная сборка о запуске продукта и первых продажах.",
            "5 мин назад",
            8,
            1520,
            "ready",
        ),
    );
    out.push(
        seed_project(
            "p_02",
            "Отзывы кампании",
            "Реакции аудитории, сгруппированные по основным возражениям.",
            "18 мин назад",
            5,
            940,
            "processing",
        ),
    );
    out.push(
        seed_project(
            "p_03",
            "Пакет подкаста креатора",
            "Недельный набор вертикальных клипов для Shorts и TikTok.",
            "1 ч назад",
            11,
            2840,
            "ready",
        ),
    );
    out.push(
        seed_project(
            "p_04",
            "Ключевые моменты вебинара",
            "Сегменты по фичам с акцентом на CTA и выгоду.",
            "2 ч назад",
            3,
            3210,
            "draft",
        ),
    );
    out
}

} // verus!

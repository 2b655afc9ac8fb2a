//! Download-source and YouTube URL validation against fixed host allow-lists.

use vstd::prelude::*;
use crate::strutil::{
    spec_lower, spec_ends_with, spec_trim, ascii_lower, ends_with_str, str_eq, trim_str,
    eq_ignore_ascii_case_str, spec_ascii_alphanumeric, is_ascii_alphanumeric_char,
};

verus! {

/// The parts of a parsed URL that the validators consult.
#[derive(Debug, Clone)]
pub struct UrlParts {
    pub scheme: String,
    pub username: String,
    pub has_password: bool,
    pub has_port: bool,
    pub host: Option<String>,
    pub text: String,
}

pub uninterp spec fn parsed_url(s: Seq<char>) -> Option<UrlParts>;

/// Relies on url::Url::parse and the accessors scheme, username, password,
/// port, host_str and as_str: parsing is a function of the input text alone;
/// `text` carries the normalized form of the URL.
#[verifier::external_body]
fn parse_url_parts(raw: &str) -> (r: Option<UrlParts>)
    ensures
        r == parsed_url(raw@),
{
    match url::Url::parse(raw) {
        Err(_) => None,
        Ok(u) => Some(
            UrlParts {
                scheme: u.scheme().to_string(),
                username: u.username().to_string(),
                has_password: u.password().is_some(),
                has_port: u.port().is_some(),
                host: u.host_str().map(|h| h.to_string()),
                text: u.as_str().to_string(),
            },
        ),
    }
}

/// Host equality or subdomain relation against an allowed host, both sides
/// ASCII-lowercased.
pub open spec fn spec_host_matches(host: Seq<char>, allowed: Seq<char>) -> bool {
    spec_lower(host) == spec_lower(allowed) || spec_ends_with(
        spec_lower(host),
        seq!['.'] + spec_lower(allowed),
    )
}

/// True when `host` is `allowed` or one of its subdomains, ignoring ASCII
/// case.
pub fn trusted_host_match(host: &str, allowed: &str) -> (r: bool)
    ensures
        r == spec_host_matches(host@, allowed@),
{
    if eq_ignore_ascii_case_str(host, allowed) {
        return true;
    }
    let lh = ascii_lower(host);
    let la = ascii_lower(allowed);
    let mut dotted = String::new();
    dotted.push('.');
    dotted.append(la.as_str());
    proof {
        assert(dotted@ =~= seq!['.'] + spec_lower(allowed@));
    }
    ends_with_str(lh.as_str(), dotted.as_str())
}

/// Membership in the fixed download host allow-list.
pub open spec fn spec_trusted_download_host(host: Seq<char>) -> bool {
    spec_host_matches(host, "github.com"@) || spec_host_matches(
        host,
        "objects.githubusercontent.com"@,
    ) || spec_host_matches(host, "www.gyan.dev"@) || spec_host_matches(host, "gyan.dev"@)
}

fn is_trusted_download_host(host: &str) -> (r: bool)
    ensures
        r == spec_trusted_download_host(host@),
{
    trusted_host_match(host, "github.com") || trusted_host_match(
        host,
        "objects.githubusercontent.com",
    ) || trusted_host_match(host, "www.gyan.dev") || trusted_host_match(host, "gyan.dev")
}

/// The verdict on parsed URL parts as a download source: HTTPS only, no
/// credentials, no explicit port, and a host on the allow-list.
pub open spec fn spec_trusted_https_ok(p: UrlParts) -> bool {
    p.scheme@ == "https"@ && p.username@.len() == 0 && !p.has_password && !p.has_port
        && p.host is Some && spec_trusted_download_host(p.host->Some_0@)
}

/// Validates a download source URL and returns its normalized text.
pub fn ensure_trusted_https_url(url: &str) -> (r: Result<String, String>)
    ensures
        match r {
            Ok(text) => parsed_url(url@) is Some && spec_trusted_https_ok(
                parsed_url(url@)->Some_0,
            ) && text@ == parsed_url(url@)->Some_0.text@,
            Err(_) => parsed_url(url@) is None || !spec_trusted_https_ok(parsed_url(url@)->Some_0),
        },
{
    let parsed = parse_url_parts(url);
    let p = match parsed {
        Option::Some(p) => p,
        Option::None => {
            let mut e = String::new();
            e.append("Invalid source URL.");
            return Err(e);
        },
    };
    let UrlParts { scheme, username, has_password, has_port, host, text } = p;
    if !str_eq(scheme.as_str(), "https") {
        let mut e = String::new();
        e.append("Only HTTPS download sources are allowed.");
        return Err(e);
    }
    if username.unicode_len() > 0 || has_password {
        let mut e = String::new();
        e.append("Source URL must not include credentials.");
        return Err(e);
    }
    if has_port {
        let mut e = String::new();
        e.append("Source URL must not include a custom port.");
        return Err(e);
    }
    let host = match host {
        Option::Some(h) => h,
        Option::None => {
            let mut e = String::new();
            e.append("Failed to resolve source domain.");
            return Err(e);
        },
    };
    if is_trusted_download_host(host.as_str()) {
        Ok(text)
    } else {
        let mut e = String::new();
        e.append("Untrusted download source: ");
        e.append(host.as_str());
        Err(e)
    }
}

/// Membership in the YouTube host set.
pub open spec fn spec_youtube_host(host: Seq<char>) -> bool {
    spec_lower(host) == "youtu.be"@ || spec_ends_with(spec_lower(host), ".youtu.be"@) || spec_lower(
        host,
    ) == "youtube.com"@ || spec_ends_with(spec_lower(host), ".youtube.com"@)
}

/// The verdict on parsed URL parts as a YouTube link.
pub open spec fn spec_youtube_url_ok(p: UrlParts) -> bool {
    p.scheme@ == "https"@ && p.username@.len() == 0 && !p.has_password && !p.has_port
        && p.host is Some && spec_youtube_host(p.host->Some_0@)
}

/// Validates a YouTube link (trimmed first) and returns its normalized text.
pub fn validate_youtube_url(raw: &str) -> (r: Result<String, String>)
    ensures
        match r {
            Ok(text) => parsed_url(spec_trim(raw@)) is Some && spec_youtube_url_ok(
                parsed_url(spec_trim(raw@))->Some_0,
            ) && text@ == parsed_url(spec_trim(raw@))->Some_0.text@,
            Err(_) => parsed_url(spec_trim(raw@)) is None || !spec_youtube_url_ok(
                parsed_url(spec_trim(raw@))->Some_0,
            ),
        },
{
    let trimmed = trim_str(raw);
    let parsed = parse_url_parts(trimmed.as_str());
    let p = match parsed {
        Option::Some(p) => p,
        Option::None => {
            let mut e = String::new();
            e.append("Invalid URL.");
            return Err(e);
        },
    };
    let UrlParts { scheme, username, has_password, has_port, host, text } = p;
    if !str_eq(scheme.as_str(), "https") {
        let mut e = String::new();
        e.append("Only HTTPS links are allowed.");
        return Err(e);
    }
    if username.unicode_len() > 0 || has_password {
        let mut e = String::new();
        e.append("YouTube link must not include credentials.");
        return Err(e);
    }
    if has_port {
        let mut e = String::new();
        e.append("YouTube link must not include a custom port.");
        return Err(e);
    }
    let host = match host {
        Option::Some(h) => h,
        Option::None => {
            let mut e = String::new();
            e.append("Failed to resolve link domain.");
            return Err(e);
        },
    };
    let lh = ascii_lower(host.as_str());
    let is_youtube = str_eq(lh.as_str(), "youtu.be") || ends_with_str(lh.as_str(), ".youtu.be")
        || str_eq(lh.as_str(), "youtube.com") || ends_with_str(lh.as_str(), ".youtube.com");
    if !is_youtube {
        let mut e = String::new();
        e.append("Only YouTube links are supported (youtube.com / youtu.be).");
        return Err(e);
    }
    Ok(text)
}

/// A valid format code character: ASCII alphanumeric or one of `+ - _ . /`.
pub open spec fn spec_format_id_char(c: char) -> bool {
    spec_ascii_alphanumeric(c) || c == '+' || c == '-' || c == '_' || c == '.' || c == '/'
}

/// Validates and trims a yt-dlp format code: 1 to 64 characters, each from
/// the format alphabet.
pub fn validate_format_id(value: &str) -> (r: Result<String, String>)
    ensures
        match r {
            Ok(t) => t@ == spec_trim(value@) && 0 < t@.len() <= 64 && (forall|j: int|
                0 <= j < t@.len() ==> spec_format_id_char(t@[j])),
            Err(_) => spec_trim(value@).len() == 0 || spec_trim(value@).len() > 64 || (exists|
                j: int,
            |
                0 <= j < spec_trim(value@).len() && !spec_format_id_char(spec_trim(value@)[j])),
        },
{
    let trimmed = trim_str(value);
    let n = trimmed.unicode_len();
    if n == 0 || n > 64 {
        let mut e = String::new();
        e.append("Invalid format code.");
        return Err(e);
    }
    let mut i: usize = 0;
    while i < n
        invariant
            trimmed@ == spec_trim(value@),
            n == trimmed@.len(),
            0 < n <= 64,
            i <= n,
            forall|j: int| 0 <= j < i ==> spec_format_id_char(trimmed@[j]),
        decreases n - i,
    {
        let c = trimmed.as_str().get_char(i);
        let valid = is_ascii_alphanumeric_char(c) || c == '+' || c == '-' || c == '_' || c == '.'
            || c == '/';
        if !valid {
            proof {
                assert(!spec_format_id_char(spec_trim(value@)[i as int]));
            }
            let mut e = String::new();
            e.append("Format code contains invalid characters.");
            return Err(e);
        }
        i = i + 1;
    }
    Ok(trimmed)
}

} // verus!

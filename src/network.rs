//! The decisions of the fetch layer that do not need the network: the
//! fingerprint and the delay of a request, its `Referer`, whether a response
//! is HTML, the diagnostics of a page with few links and where its body is
//! kept for inspection.
use vstd::prelude::*;
use crate::config::SpiderConfig;
use crate::error::SpiderError;
use crate::text::{chars_of, contains, count_occurrences, occurrences, replace_all, replaced, str_contains, views};
use crate::utils::{opt_view, parse_url, url_parse, UrlParts};
use rand::Rng;
use vstd::string::StringSliceAdditionalSpecFns;

verus! {

/// What `str::to_lowercase` makes of a text.
pub uninterp spec fn lower_of(s: Seq<char>) -> Seq<char>;

/// Relies on `str::to_lowercase`: the result depends on the characters alone.
#[verifier::external_body]
fn lowercase(s: &str) -> (r: String)
    ensures
        r@ == lower_of(s@),
{
    s.to_lowercase()
}

/// Relies on `rand::Rng::gen_range` over `0..n` of `rand::thread_rng()`,
/// which panics on an empty range: a number below `n`.
#[verifier::external_body]
fn random_below(n: usize) -> (r: usize)
    requires
        n > 0,
    ensures
        r < n,
{
    rand::thread_rng().gen_range(0..n)
}

/// Relies on `rand::Rng::gen_range` over `lo..=hi` of `rand::thread_rng()`,
/// which panics on an empty range: a number from `lo` to `hi`.
#[verifier::external_body]
fn random_between(lo: u64, hi: u64) -> (r: u64)
    requires
        lo <= hi,
    ensures
        lo <= r <= hi,
{
    rand::thread_rng().gen_range(lo..=hi)
}

/// A user agent drawn from the configured list.
pub fn get_random_user_agent(config: &SpiderConfig) -> (r: String)
    requires
        config.user_agents@.len() > 0,
    ensures
        views(config.user_agents@).contains(r@),
{
    let idx = random_below(config.user_agents.len());
    let r = config.user_agents[idx].clone();
    assert(views(config.user_agents@)[idx as int] == r@);
    r
}

/// The delay before a request, in milliseconds, drawn from the configured
/// range.
pub fn random_delay_ms(config: &SpiderConfig) -> (r: u64)
    requires
        config.min_request_delay_ms <= config.max_request_delay_ms,
    ensures
        config.min_request_delay_ms <= r <= config.max_request_delay_ms,
{
    random_between(config.min_request_delay_ms, config.max_request_delay_ms)
}

/// The `Referer` sent with a request: the target's own origin,
/// `scheme://host/`, with `example.com` for a URL without a host.
pub open spec fn referer_of(scheme: Seq<char>, host: Option<Seq<char>>) -> Seq<char> {
    scheme + "://"@ + match host {
        Some(h) => h,
        None => "example.com"@,
    } + "/"@
}

/// The `Referer` for a request to a URL of the given scheme and host.
pub fn referer_from(parts: &UrlParts) -> (r: String)
    ensures
        r@ == referer_of(parts.scheme@, opt_view(parts.host)),
{
    let mut t = parts.scheme.clone();
    t.append("://");
    match &parts.host {
        Some(h) => t.append(h.as_str()),
        None => t.append("example.com"),
    }
    t.append("/");
    t
}

/// The `Referer` for a request to `url`.
pub fn referer_for(url: &str) -> (r: Result<String, SpiderError>)
    ensures
        match r {
            Ok(t) => url_parse(url@) is Some && t@ == referer_of(
                url_parse(url@)->Some_0.1,
                url_parse(url@)->Some_0.2,
            ),
            Err(e) => url_parse(url@) is None && e is UrlParse,
        },
{
    match parse_url(url) {
        Err(e) => Err(SpiderError::UrlParse(e)),
        Ok(parts) => Ok(referer_from(&parts)),
    }
}

/// A lower-cased content type that names HTML or XHTML.
pub open spec fn html_type(lowered: Seq<char>) -> bool {
    contains(lowered, "text/html"@) || contains(lowered, "application/xhtml+xml"@)
}

/// Whether a lower-cased content type names HTML or XHTML.
pub fn is_html_lowered(lowered: &str) -> (r: bool)
    ensures
        r == html_type(lowered@),
{
    let v = chars_of(lowered);
    str_contains(&v, "text/html") || str_contains(&v, "application/xhtml+xml")
}

/// Whether a `Content-Type` value names HTML or XHTML, in any case.
pub fn is_html_content_type(content_type: &str) -> (r: bool)
    ensures
        r == html_type(lower_of(content_type@)),
{
    let lowered = lowercase(content_type);
    is_html_lowered(lowered.as_str())
}

/// A page that may only show its content through scripts.
pub open spec fn script_only(html: Seq<char>) -> bool {
    ||| contains(html, "document.write"@)
    ||| contains(html, "window.location"@)
    ||| occurrences(html, "function("@) > 10
    ||| (contains(html, "</noscript>"@) && occurrences(html, "<a"@) < 3)
}

/// Whether the page might require JavaScript.
pub fn requires_javascript(html: &str) -> (r: bool)
    ensures
        r == script_only(html@),
{
    proof {
        reveal_strlit("function(");
        reveal_strlit("<a");
    }
    let v = chars_of(html);
    str_contains(&v, "document.write") || str_contains(&v, "window.location") || count_occurrences(
        &v,
        "function(",
    ) > 10 || (str_contains(&v, "</noscript>") && count_occurrences(&v, "<a") < 3)
}

/// A page that mentions a captcha, robots or automation.
pub open spec fn bot_guarded(html: Seq<char>) -> bool {
    ||| contains(html, "captcha"@)
    ||| contains(html, "CAPTCHA"@)
    ||| contains(html, "robot"@)
    ||| contains(html, "Robot"@)
    ||| contains(html, "automated"@)
    ||| contains(html, "Automated"@)
}

/// Whether the page might be guarded against bots.
pub fn has_anti_bot_protection(html: &str) -> (r: bool)
    ensures
        r == bot_guarded(html@),
{
    let v = chars_of(html);
    str_contains(&v, "captcha") || str_contains(&v, "CAPTCHA") || str_contains(&v, "robot")
        || str_contains(&v, "Robot") || str_contains(&v, "automated") || str_contains(
        &v,
        "Automated",
    )
}

/// Size and element counts of a page.
#[derive(Debug, Clone, Copy)]
pub struct HtmlStats {
    /// Length of the page in bytes.
    pub bytes: usize,
    /// Occurrences of `<div`.
    pub divs: usize,
    /// Occurrences of `<a `.
    pub links: usize,
    /// Occurrences of `<script`.
    pub scripts: usize,
}

/// Size and element counts of a page, for diagnostics.
pub fn get_html_stats(html: &str) -> (r: HtmlStats)
    ensures
        r.bytes == html.spec_bytes().len() as usize,
        r.divs == occurrences(html@, "<div"@),
        r.links == occurrences(html@, "<a "@),
        r.scripts == occurrences(html@, "<script"@),
{
    proof {
        reveal_strlit("<div");
        reveal_strlit("<a ");
        reveal_strlit("<script");
    }
    let v = chars_of(html);
    HtmlStats {
        bytes: html.len(),
        divs: count_occurrences(&v, "<div"),
        links: count_occurrences(&v, "<a "),
        scripts: count_occurrences(&v, "<script"),
    }
}

/// Whether a page with `link_count` links and a body of `body_bytes` bytes
/// is kept for inspection: no links at all, or fewer than 3 on a body of
/// more than 1000 bytes.
pub fn should_save_debug_html(link_count: usize, body_bytes: usize) -> (r: bool)
    ensures
        r == (link_count == 0 || (link_count < 3 && body_bytes > 1000)),
{
    link_count == 0 || (link_count < 3 && body_bytes > 1000)
}

/// The domain under which a page's body is kept: the host with every `www.`
/// removed, or `unknown_domain`.
pub open spec fn debug_domain(url: Seq<char>) -> Seq<char> {
    match url_parse(url) {
        Some(p) => replaced(
            match p.2 {
                Some(h) => h,
                None => "unknown_domain"@,
            },
            "www."@,
            ""@,
        ),
        None => "unknown_domain"@,
    }
}

/// The directory that keeps the bodies of pages of the URL's domain.
pub open spec fn debug_dir(url: Seq<char>) -> Seq<char> {
    "debug/"@ + debug_domain(url)
}

/// The file that keeps the body of the page at `url`: the URL with `://`,
/// `/` and `.` as `_`.
pub open spec fn debug_file(url: Seq<char>) -> Seq<char> {
    debug_dir(url) + "/debug_"@ + replaced(
        replaced(replaced(url, "://"@, "_"@), "/"@, "_"@),
        "."@,
        "_"@,
    ) + ".html"@
}

/// The directory that keeps the bodies of pages of the URL's domain.
pub fn debug_dir_for(url: &str) -> (r: String)
    ensures
        r@ == debug_dir(url@),
{
    proof {
        reveal_strlit("www.");
    }
    let domain = match parse_url(url) {
        Ok(parts) => match parts.host {
            Some(h) => replace_all(h.as_str(), "www.", ""),
            None => replace_all("unknown_domain", "www.", ""),
        },
        Err(_) => String::from_str("unknown_domain"),
    };
    let mut r = String::from_str("debug/");
    r.append(domain.as_str());
    r
}

/// The file that keeps the body of the page at `url`.
pub fn debug_file_for(url: &str) -> (r: String)
    ensures
        r@ == debug_file(url@),
{
    proof {
        reveal_strlit("://");
        reveal_strlit("/");
        reveal_strlit(".");
    }
    let a = replace_all(url, "://", "_");
    let b = replace_all(a.as_str(), "/", "_");
    let c = replace_all(b.as_str(), ".", "_");
    let mut r = debug_dir_for(url);
    r.append("/debug_");
    r.append(c.as_str());
    r.append(".html");
    r
}

} // verus!

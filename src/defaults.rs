//! Default configuration values.
use vstd::prelude::*;
use crate::text::views;

verus! {

/// Default maximum depth for recursive crawling.
pub const MAX_DEPTH: usize = 10;

/// Default maximum number of loop iterations.
pub const MAX_LOOPS: usize = 50;

/// Default maximum number of concurrent requests.
pub const MAX_CONCURRENT: usize = 30;

/// Default maximum number of concurrent sites to crawl.
pub const MAX_CONCURRENT_SITES: usize = 5;

/// Default threshold for detecting massive link patterns.
pub const PATTERN_THRESHOLD: usize = 500;

/// Default minimum delay between requests in milliseconds.
pub const MIN_REQUEST_DELAY_MS: u64 = 100;

/// Default maximum delay between requests in milliseconds.
pub const MAX_REQUEST_DELAY_MS: u64 = 2000;

/// Default path patterns to skip.
pub open spec fn skip_patterns_spec() -> Seq<Seq<char>> {
    seq![
        "/blogs/"@,
        "/blog/"@,
        "/docs/"@,
        "/library/"@,
        "/images/"@,
        "/feed/"@,
        "/wp-content/"@,
        "/wp-includes/"@,
        "/cdn-cgi/"@,
        "/assets/"@,
        "/static/"@,
        "/media/"@,
        "/api/"@,
        "/downloads/"@,
        "/files/"@,
        "/archive/"@,
        "/resources/"@,
    ]
}

/// Default subdomain patterns to skip.
pub open spec fn skip_subdomain_patterns_spec() -> Seq<Seq<char>> {
    seq![
        "docs."@,
        "api."@,
        "cdn."@,
        "static."@,
        "media."@,
        "assets."@,
        "files."@,
        "download."@,
        "images."@,
        "library."@,
        "archive."@,
        "resources."@,
    ]
}

/// Default priority paths.
pub open spec fn priority_paths_spec() -> Seq<Seq<char>> {
    seq!["/contact"@, "/about"@, "/faq"@, "/help"@, "/support"@]
}

/// Default user agents.
pub open spec fn user_agents_spec() -> Seq<Seq<char>> {
    seq![
        "Mozilla/5.0 (Windows NT 10.0; Win64; x64) AppleWebKit/537.36 (KHTML, like Gecko) Chrome/91.0.4472.124 Safari/537.36"@,
        "Mozilla/5.0 (Macintosh; Intel Mac OS X 10_15_7) AppleWebKit/605.1.15 (KHTML, like Gecko) Version/15.0 Safari/605.1.15"@,
        "Mozilla/5.0 (Windows NT 10.0; Win64; x64; rv:89.0) Gecko/20100101 Firefox/89.0"@,
        "Mozilla/5.0 (X11; Linux x86_64) AppleWebKit/537.36 (KHTML, like Gecko) Chrome/92.0.4515.107 Safari/537.36"@,
        "Mozilla/5.0 (iPhone; CPU iPhone OS 14_6 like Mac OS X) AppleWebKit/605.1.15 (KHTML, like Gecko) Version/14.0 Mobile/15E148 Safari/604.1"@,
        "Mozilla/5.0 (iPad; CPU OS 14_6 like Mac OS X) AppleWebKit/605.1.15 (KHTML, like Gecko) Version/14.0 Mobile/15E148 Safari/604.1"@,
    ]
}

/// Default path patterns to skip.
pub fn skip_patterns() -> (r: Vec<String>)
    ensures
        views(r@) == skip_patterns_spec(),
{
    let r = vec![
        String::from_str("/blogs/"),
        String::from_str("/blog/"),
        String::from_str("/docs/"),
        String::from_str("/library/"),
        String::from_str("/images/"),
        String::from_str("/feed/"),
        String::from_str("/wp-content/"),
        String::from_str("/wp-includes/"),
        String::from_str("/cdn-cgi/"),
        String::from_str("/assets/"),
        String::from_str("/static/"),
        String::from_str("/media/"),
        String::from_str("/api/"),
        String::from_str("/downloads/"),
        String::from_str("/files/"),
        String::from_str("/archive/"),
        String::from_str("/resources/"),
    ];
    assert(views(r@) =~= skip_patterns_spec());
    r
}

/// Default subdomain patterns to skip.
pub fn skip_subdomain_patterns() -> (r: Vec<String>)
    ensures
        views(r@) == skip_subdomain_patterns_spec(),
{
    let r = vec![
        String::from_str("docs."),
        String::from_str("api."),
        String::from_str("cdn."),
        String::from_str("static."),
        String::from_str("media."),
        String::from_str("assets."),
        String::from_str("files."),
        String::from_str("download."),
        String::from_str("images."),
        String::from_str("library."),
        String::from_str("archive."),
        String::from_str("resources."),
    ];
    assert(views(r@) =~= skip_subdomain_patterns_spec());
    r
}

/// Default priority paths.
pub fn priority_paths() -> (r: Vec<String>)
    ensures
        views(r@) == priority_paths_spec(),
{
    let r = vec![
        String::from_str("/contact"),
        String::from_str("/about"),
        String::from_str("/faq"),
        String::from_str("/help"),
        String::from_str("/support"),
    ];
    assert(views(r@) =~= priority_paths_spec());
    r
}

/// Default user agents.
pub fn user_agents() -> (r: Vec<String>)
    ensures
        views(r@) == user_agents_spec(),
{
    let r = vec![
        String::from_str("Mozilla/5.0 (Windows NT 10.0; Win64; x64) AppleWebKit/537.36 (KHTML, like Gecko) Chrome/91.0.4472.124 Safari/537.36"),
        String::from_str("Mozilla/5.0 (Macintosh; Intel Mac OS X 10_15_7) AppleWebKit/605.1.15 (KHTML, like Gecko) Version/15.0 Safari/605.1.15"),
        String::from_str("Mozilla/5.0 (Windows NT 10.0; Win64; x64; rv:89.0) Gecko/20100101 Firefox/89.0"),
        String::from_str("Mozilla/5.0 (X11; Linux x86_64) AppleWebKit/537.36 (KHTML, like Gecko) Chrome/92.0.4515.107 Safari/537.36"),
        String::from_str("Mozilla/5.0 (iPhone; CPU iPhone OS 14_6 like Mac OS X) AppleWebKit/605.1.15 (KHTML, like Gecko) Version/14.0 Mobile/15E148 Safari/604.1"),
        String::from_str("Mozilla/5.0 (iPad; CPU OS 14_6 like Mac OS X) AppleWebKit/605.1.15 (KHTML, like Gecko) Version/14.0 Mobile/15E148 Safari/604.1"),
    ];
    assert(views(r@) =~= user_agents_spec());
    r
}

} // verus!

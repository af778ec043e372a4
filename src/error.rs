//! Errors of the crawler library.
use vstd::prelude::*;

verus! {

/// `url::ParseError`, the reason why `url` refused a text.
#[verifier::external_type_specification]
#[verifier::external_body]
pub struct ExParseError(url::ParseError);

/// Spider errors.
#[derive(Debug)]
pub enum SpiderError {
    /// A text that is no URL, or a reference that cannot be resolved.
    UrlParse(url::ParseError),
    /// A URL without a host.
    InvalidUrl(String),
    /// A crawl bound was reached.
    CrawlLimitReached(String),
    /// The request could not be sent or answered.
    NetworkError(String),
    /// The server answered with a status outside the success range.
    HttpStatus(String),
    /// The body is not HTML.
    ContentType(String),
    /// The body could not be read as text.
    HtmlParse(String),
    /// The HTTP client could not be built.
    HttpClient(String),
    /// Anything else.
    Other(String),
}

} // verus!

//! What the library reads of a parsed URL.

use vstd::prelude::*;

verus! {

/// Whether `url::Url::parse` accepts `input` as an absolute URL.
pub uninterp spec fn url_parses(input: Seq<char>) -> bool;

/// What `url::Url::host_str` gives for the URL that `url::Url::parse` makes of `input`.
pub uninterp spec fn url_host(input: Seq<char>) -> Option<Seq<char>>;

/// What `url::Url::path_segments` gives, each segment as text, for the URL
/// that `url::Url::parse` makes of `input`.
pub uninterp spec fn url_path_segments(input: Seq<char>) -> Option<Seq<Seq<char>>>;

/// What `url::Url::as_str` gives (the URL's serialization) for the URL that
/// `url::Url::parse` makes of `input`.
pub uninterp spec fn url_serialization(input: Seq<char>) -> Seq<char>;

/// The parts of a parsed URL that the library reads, as plain values.
pub struct ParsedUrl {
    /// The host, if the URL has one.
    pub host: Option<String>,
    /// The path split at `/` after its leading `/`, if the path has one.
    pub path_segments: Option<Vec<String>>,
    /// The URL's serialization.
    pub serialization: String,
}

/// Calls `url::Url::parse` on `input` and reads the result's `host_str`,
/// `path_segments` and `as_str`.
///
/// The contract names each of these results as a function of `input` alone
/// (`url_parses`, `url_host`, `url_path_segments`, `url_serialization`).
/// How the URL standard parses a given text is left unstated, and so is
/// which `url::ParseError` comes back on failure.
#[verifier::external_body]
pub(crate) fn parse_url(input: &str) -> (r: Result<ParsedUrl, url::ParseError>)
    ensures
        r is Ok == url_parses(input@),
        r matches Ok(p) ==> p.host.deep_view() == url_host(input@),
        r matches Ok(p) ==> p.path_segments.deep_view() == url_path_segments(input@),
        r matches Ok(p) ==> p.serialization@ == url_serialization(input@),
{
    let u = url::Url::parse(input)?;
    let host = u.host_str().map(|h| h.to_string());
    let path_segments = u.path_segments().map(|s| s.map(|x| x.to_string()).collect());
    Ok(ParsedUrl { host, path_segments, serialization: u.as_str().to_string() })
}

} // verus!

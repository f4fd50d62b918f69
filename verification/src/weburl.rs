//! The parts of a parsed URL that the library reads, and the two services
//! of the `url` crate that it relies on.
use vstd::prelude::*;
use crate::text::{string_option, string_result};

verus! {

/// What the library reads of a URL that the `url` crate has parsed.
pub struct UrlParts {
    /// The host, as `Url::host_str` gives it.
    pub host: Option<String>,
    /// The path, as `Url::path` gives it.
    pub path: String,
    /// The decoded name/value pairs of the query, as `Url::query_pairs`
    /// yields them, in order.
    pub query_pairs: Vec<(String, String)>,
    /// The serialization of the URL, as `Url::as_str` gives it.
    pub serialization: String,
}

pub struct UrlPartsView {
    pub host: Option<Seq<char>>,
    pub path: Seq<char>,
    pub query_pairs: Seq<(Seq<char>, Seq<char>)>,
    pub serialization: Seq<char>,
}

impl View for UrlParts {
    type V = UrlPartsView;

    open spec fn view(&self) -> UrlPartsView {
        UrlPartsView {
            host: string_option(self.host),
            path: self.path@,
            query_pairs: self.query_pairs@.map_values(|p: (String, String)| (p.0@, p.1@)),
            serialization: self.serialization@,
        }
    }
}

/// The view of the outcome of parsing a URL.
pub open spec fn parsed_view(r: Result<UrlParts, String>) -> Result<UrlPartsView, Seq<char>> {
    match r {
        Ok(p) => Ok(p@),
        Err(e) => Err(e@),
    }
}

/// What `url::Url::parse` makes of `raw`: the parts that the library reads,
/// or the text of the parse error.
pub uninterp spec fn spec_parse_url(raw: Seq<char>) -> Result<UrlPartsView, Seq<char>>;

/// Parses `raw` with `url::Url::parse` and reads its host, path, query pairs
/// and serialization, or the error's text; the result is only named, as a
/// function of `raw`.
#[verifier::external_body]
pub(crate) fn parse_url(raw: &str) -> (r: Result<UrlParts, String>)
    ensures
        parsed_view(r) == spec_parse_url(raw@),
{
    match url::Url::parse(raw) {
        Ok(u) => {
            let mut query_pairs = Vec::new();
            for (k, v) in u.query_pairs() {
                query_pairs.push((k.into_owned(), v.into_owned()));
            }
            let host = u.host_str().map(|h| h.to_string());
            Ok(UrlParts { host, path: u.path().to_string(), query_pairs, serialization: u.to_string() })
        },
        Err(e) => Err(e.to_string()),
    }
}

/// The serialization of `raw`, parsed by `url::Url::parse`, after
/// `Url::set_host` has been asked to make `host` its host; or the text of
/// the parse error.
pub uninterp spec fn spec_url_with_host(raw: Seq<char>, host: Seq<char>) -> Result<Seq<char>, Seq<char>>;

/// Parses `raw` with `url::Url::parse`, asks `Url::set_host` to make `host`
/// its host (a refused host leaves the URL as it was) and returns the
/// serialization, or the parse error's text. The result is named, as a
/// function of the two strings; since `Url::parse` is a function of its
/// input, `raw` parses here whenever it parses in `parse_url`.
#[verifier::external_body]
pub(crate) fn url_with_host(raw: &str, host: &str) -> (r: Result<String, String>)
    ensures
        string_result(r) == spec_url_with_host(raw@, host@),
        spec_parse_url(raw@) is Ok ==> r is Ok,
{
    match url::Url::parse(raw) {
        Ok(mut u) => {
            let _ = u.set_host(Some(host));
            Ok(u.to_string())
        },
        Err(e) => Err(e.to_string()),
    }
}

} // verus!

//! The request target of the `http` crate, as this library sees it.
//!
//! The executable functions in this file have no verified body: each one
//! calls into `http`, and its contract names what the call returns.

use hyper::http::uri::InvalidUri;
use hyper::Uri;
use vstd::prelude::*;

verus! {

/// `http::Uri`, of which nothing is known but what `uri_path_and_query`
/// names.
#[verifier::external_type_specification]
#[verifier::external_body]
pub struct ExUri(Uri);

/// `http::uri::InvalidUri`, the error of `Uri::from_str`.
#[verifier::external_type_specification]
#[verifier::external_body]
pub struct ExInvalidUri(InvalidUri);

/// The path and query of a URI as text, as `Uri::path_and_query` and then
/// `PathAndQuery::as_str` give it; none where the URI has none.
pub uninterp spec fn uri_path_and_query(u: Uri) -> Option<Seq<char>>;

/// The URI that a text writes, as `Uri::from_str` reads it; none where the
/// text is no URI.
pub uninterp spec fn parse_uri(text: Seq<char>) -> Option<Uri>;

/// `Uri::path_and_query`, and `PathAndQuery::as_str` on what it returns: the
/// path and query of the URI as text.
#[verifier::external_body]
pub(crate) fn path_and_query_text<'a>(u: &'a Uri) -> (r: Option<&'a str>)
    ensures
        match r {
            Some(s) => uri_path_and_query(*u) == Some(s@),
            None => uri_path_and_query(*u) is None,
        },
{
    match u.path_and_query() {
        Some(pq) => Some(pq.as_str()),
        None => None,
    }
}

/// `Uri::from_str`: the URI that the text writes, or the reason why it
/// writes none. The same text always reads as the same URI.
#[verifier::external_body]
pub(crate) fn uri_from_str(text: &str) -> (r: Result<Uri, InvalidUri>)
    ensures
        match r {
            Ok(u) => parse_uri(text@) == Some(u),
            Err(_) => parse_uri(text@) is None,
        },
{
    std::str::FromStr::from_str(text)
}

} // verus!

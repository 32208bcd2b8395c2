//! Parsing of links.
use vstd::prelude::*;

verus! {

/// A link as the `url` crate writes it, or the words in which it refuses one.
pub uninterp spec fn url_of(s: Seq<char>) -> Result<Seq<char>, Seq<char>>;

/// A result over texts, seen as characters.
pub open spec fn text_result(r: Result<String, String>) -> Result<Seq<char>, Seq<char>> {
    match r {
        Ok(s) => Ok(s@),
        Err(e) => Err(e@),
    }
}

/// Parses a link with `url::Url::parse` and writes it as `url::Url` does. The
/// result is named: it is a function of the text alone.
#[verifier::external_body]
pub(crate) fn parse_url(s: &str) -> (r: Result<String, String>)
    ensures
        text_result(r) == url_of(s@),
{
    url::Url::parse(s).map(|u| u.to_string()).map_err(|e| e.to_string())
}

} // verus!

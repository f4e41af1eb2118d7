//! The parsed view of a request URL: the path and the decoded query pairs,
//! obtained once from the `url` crate and then read as plain values.

use vstd::prelude::*;

verus! {

/// Why a signing request is rejected.
#[derive(Clone, Copy, Debug, PartialEq, Eq)]
pub enum SigningError {
    /// The request URL does not parse as an absolute URL.
    InvalidUrl,
}

/// The two parts of a parsed absolute URL that canonicalization reads: the
/// path as the URL carries it, and the decoded query pairs in their original
/// order.
#[derive(Debug)]
pub struct ParsedUrl {
    pub path: String,
    pub query: Vec<(String, String)>,
}

/// The views of a sequence of string pairs.
pub open spec fn pairs_view(hs: Seq<(String, String)>) -> Seq<(Seq<char>, Seq<char>)> {
    hs.map_values(|p: (String, String)| (p.0@, p.1@))
}

impl ParsedUrl {
    /// The query pairs as character sequences.
    pub open spec fn query_view(self) -> Seq<(Seq<char>, Seq<char>)> {
        pairs_view(self.query@)
    }
}

/// What the `url` crate extracts from URL text: `None` when the text does not
/// parse as an absolute URL, otherwise the path and the percent-decoded query
/// pairs, in order. A function of the text alone.
pub uninterp spec fn url_parts(s: Seq<char>) -> Option<(Seq<char>, Seq<(Seq<char>, Seq<char>)>)>;

/// Relies on `url::Url::parse`, `url::Url::path` and `url::Url::query_pairs`:
/// whether URL text parses, the path it carries, and its decoded query pairs
/// each depend on the text alone.
#[verifier::external_body]
pub(crate) fn parse_url_parts(s: &str) -> (r: Option<ParsedUrl>)
    ensures
        (r is Some) == (url_parts(s@) is Some),
        r matches Some(p) ==> p.path@ == (url_parts(s@)->0).0 && p.query_view() == (url_parts(
            s@,
        )->0).1,
{
    match url::Url::parse(s) {
        Ok(u) => {
            let query = u.query_pairs().map(|(k, v)| (k.into_owned(), v.into_owned())).collect();
            Some(ParsedUrl { path: u.path().to_string(), query })
        },
        Err(_) => None,
    }
}

} // verus!

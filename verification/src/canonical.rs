//! The canonicalizer: canonical query string, canonical header string,
//! signed-header list, and the full canonical request.

use vstd::prelude::*;
use vstd::slice::slice_to_vec;
use vstd::string::StringExecFns;
use crate::datetime::UtcDateTime;
use crate::encode::{uri_encode, uri_encode_chars};
use crate::hashing::{sha256_hex, sha256_hex_of};
use crate::text::{
    join_strings, join_with, lex_le_fn, lower_of, push_char, sort_strings, str_views,
    to_lowercase, trim, trim_of,
};
use crate::urlinfo::{pairs_view, parse_url_parts, url_parts, ParsedUrl, SigningError};

verus! {

/// One canonical query item: percent-encoded key, `=`, percent-encoded value.
pub open spec fn query_item_chars(p: (Seq<char>, Seq<char>)) -> Seq<char> {
    uri_encode_chars(p.0, true) + seq!['='] + uri_encode_chars(p.1, true)
}

/// The canonical query items of the given pairs, before sorting.
pub open spec fn query_items(q: Seq<(Seq<char>, Seq<char>)>) -> Seq<Seq<char>> {
    q.map_values(|p: (Seq<char>, Seq<char>)| query_item_chars(p))
}

/// The canonical query string: items sorted by byte value, joined with `&`.
pub open spec fn canonical_query_chars(q: Seq<(Seq<char>, Seq<char>)>) -> Seq<char> {
    join_with(query_items(q).sort_by(lex_le_fn()), seq!['&'])
}

/// One canonical header line: lowercased name, `:`, trimmed value.
pub open spec fn header_line_chars(p: (Seq<char>, Seq<char>)) -> Seq<char> {
    lower_of(p.0) + seq![':'] + trim_of(p.1)
}

/// The canonical header lines of the given headers, before sorting.
pub open spec fn header_lines(hs: Seq<(Seq<char>, Seq<char>)>) -> Seq<Seq<char>> {
    hs.map_values(|p: (Seq<char>, Seq<char>)| header_line_chars(p))
}

/// The canonical header string: lines sorted, joined with newlines.
pub open spec fn canonical_headers_chars(hs: Seq<(Seq<char>, Seq<char>)>) -> Seq<char> {
    join_with(header_lines(hs).sort_by(lex_le_fn()), seq!['\n'])
}

/// The lowercased header names, before sorting.
pub open spec fn lower_names(hs: Seq<(Seq<char>, Seq<char>)>) -> Seq<Seq<char>> {
    hs.map_values(|p: (Seq<char>, Seq<char>)| lower_of(p.0))
}

/// The signed-header list: lowercased names sorted, joined with `;`.
pub open spec fn signed_headers_chars(hs: Seq<(Seq<char>, Seq<char>)>) -> Seq<char> {
    join_with(lower_names(hs).sort_by(lex_le_fn()), seq![';'])
}

/// Builds each query pair's canonical `key=value` item, in input order.
fn build_query_items(query: &Vec<(String, String)>) -> (r: Vec<String>)
    ensures
        str_views(r@) == query_items(pairs_view(query@)),
{
    let mut items: Vec<String> = Vec::new();
    let mut i: usize = 0;
    proof {
        assert(str_views(items@) =~= query_items(pairs_view(query@.take(0))));
    }
    while i < query.len()
        invariant
            i <= query.len(),
            str_views(items@) == query_items(pairs_view(query@.take(i as int))),
        decreases query.len() - i,
    {
        let mut item = uri_encode(query[i].0.as_str(), true);
        push_char(&mut item, '=');
        let v = uri_encode(query[i].1.as_str(), true);
        item.append(v.as_str());
        let ghost pre = str_views(items@);
        let ghost x = (query@[i as int].0@, query@[i as int].1@);
        let ghost iv = item@;
        proof {
            assert(iv =~= query_item_chars(x));
        }
        items.push(item);
        i = i + 1;
        proof {
            let ghost pt = pairs_view(query@.take(i - 1));
            assert(pairs_view(query@.take(i as int)) =~= pt.push(x));
            assert(query_items(pt.push(x)) =~= query_items(pt).push(query_item_chars(x)));
            assert(str_views(items@) =~= pre.push(iv));
            assert(str_views(items@) =~= query_items(pairs_view(query@.take(i as int))));
        }
    }
    proof {
        assert(query@.take(query@.len() as int) =~= query@);
    }
    items
}

/// The canonical query string of a parsed URL: each pair percent-encoded
/// with slashes escaped, formed as `key=value`, sorted by byte value, and
/// joined with `&`. Empty when the URL has no query.
pub fn canonical_query_string(uri: &ParsedUrl) -> (r: String)
    ensures
        r@ == canonical_query_chars(uri.query_view()),
{
    let items = build_query_items(&uri.query);
    let sorted = sort_strings(items);
    join_strings(&sorted, '&')
}

/// Builds each header's canonical line, in input order.
fn build_header_lines(headers: &Vec<(String, String)>) -> (r: Vec<String>)
    ensures
        str_views(r@) == header_lines(pairs_view(headers@)),
{
    let mut lines: Vec<String> = Vec::new();
    let mut i: usize = 0;
    proof {
        assert(str_views(lines@) =~= header_lines(pairs_view(headers@.take(0))));
    }
    while i < headers.len()
        invariant
            i <= headers.len(),
            str_views(lines@) == header_lines(pairs_view(headers@.take(i as int))),
        decreases headers.len() - i,
    {
        let mut line = to_lowercase(headers[i].0.as_str());
        push_char(&mut line, ':');
        let value = trim(headers[i].1.as_str());
        line.append(value);
        let ghost pre = str_views(lines@);
        let ghost x = (headers@[i as int].0@, headers@[i as int].1@);
        let ghost lv = line@;
        proof {
            assert(lv =~= header_line_chars(x));
        }
        lines.push(line);
        i = i + 1;
        proof {
            let ghost pt = pairs_view(headers@.take(i - 1));
            assert(pairs_view(headers@.take(i as int)) =~= pt.push(x));
            assert(header_lines(pt.push(x)) =~= header_lines(pt).push(header_line_chars(x)));
            assert(str_views(lines@) =~= pre.push(lv));
            assert(str_views(lines@) =~= header_lines(pairs_view(headers@.take(i as int))));
        }
    }
    proof {
        assert(headers@.take(headers@.len() as int) =~= headers@);
    }
    lines
}

/// Builds each header's lowercased name, in input order.
fn build_lower_names(headers: &Vec<(String, String)>) -> (r: Vec<String>)
    ensures
        str_views(r@) == lower_names(pairs_view(headers@)),
{
    let mut names: Vec<String> = Vec::new();
    let mut i: usize = 0;
    proof {
        assert(str_views(names@) =~= lower_names(pairs_view(headers@.take(0))));
    }
    while i < headers.len()
        invariant
            i <= headers.len(),
            str_views(names@) == lower_names(pairs_view(headers@.take(i as int))),
        decreases headers.len() - i,
    {
        let name = to_lowercase(headers[i].0.as_str());
        let ghost pre = str_views(names@);
        let ghost x = (headers@[i as int].0@, headers@[i as int].1@);
        let ghost nv = name@;
        names.push(name);
        i = i + 1;
        proof {
            let ghost pt = pairs_view(headers@.take(i - 1));
            assert(pairs_view(headers@.take(i as int)) =~= pt.push(x));
            assert(lower_names(pt.push(x)) =~= lower_names(pt).push(lower_of(x.0)));
            assert(str_views(names@) =~= pre.push(nv));
            assert(str_views(names@) =~= lower_names(pairs_view(headers@.take(i as int))));
        }
    }
    proof {
        assert(headers@.take(headers@.len() as int) =~= headers@);
    }
    names
}

/// One signing request: the immutable inputs of a single signing operation,
/// held as plain values.
#[derive(Debug)]
pub struct AwsSign {
    pub method: String,
    pub url: ParsedUrl,
    pub datetime: UtcDateTime,
    pub region: String,
    pub access_key: String,
    pub secret_key: String,
    pub service: String,
    pub headers: Vec<(String, String)>,
    pub body: Vec<u8>,
}

impl AwsSign {
    /// The header pairs as character sequences.
    pub open spec fn headers_view(self) -> Seq<(Seq<char>, Seq<char>)> {
        pairs_view(self.headers@)
    }

    /// The canonical request: method, path, canonical query string,
    /// canonical header string, a structural blank line, the signed-header
    /// list, and the payload hash, newline-delimited.
    pub open spec fn canonical_request_chars(self) -> Seq<char> {
        self.method@ + seq!['\n'] + self.url.path@ + seq!['\n'] + canonical_query_chars(
            self.url.query_view(),
        ) + seq!['\n'] + canonical_headers_chars(self.headers_view()) + seq!['\n', '\n']
            + signed_headers_chars(self.headers_view()) + seq!['\n'] + sha256_hex_of(self.body@)
    }

    /// Assembles a signing request. The URL must parse as an absolute URL;
    /// every other input is taken as given.
    pub fn new(
        method: &str,
        url: &str,
        datetime: &UtcDateTime,
        headers: Vec<(String, String)>,
        region: &str,
        access_key: &str,
        secret_key: &str,
        service: &str,
        body: &[u8],
    ) -> (r: Result<AwsSign, SigningError>)
        ensures
            (r is Ok) == (url_parts(url@) is Some),
            r is Err ==> r == Err::<AwsSign, SigningError>(SigningError::InvalidUrl),
            r matches Ok(a) ==> {
                &&& a.method@ == method@
                &&& a.url.path@ == (url_parts(url@)->0).0
                &&& a.url.query_view() == (url_parts(url@)->0).1
                &&& a.datetime == *datetime
                &&& a.region@ == region@
                &&& a.access_key@ == access_key@
                &&& a.secret_key@ == secret_key@
                &&& a.service@ == service@
                &&& a.headers_view() == pairs_view(headers@)
                &&& a.body@ == body@
            },
    {
        let parsed = match parse_url_parts(url) {
            Some(p) => p,
            None => {
                return Err(SigningError::InvalidUrl);
            },
        };
        Ok(
            AwsSign {
                method: String::from_str(method),
                url: parsed,
                datetime: *datetime,
                region: String::from_str(region),
                access_key: String::from_str(access_key),
                secret_key: String::from_str(secret_key),
                service: String::from_str(service),
                headers,
                body: slice_to_vec(body),
            },
        )
    }

    /// The canonical header string: one `name:value` line per header, the
    /// name lowercased and the value trimmed, sorted, joined with newlines.
    pub fn canonical_header_string(&self) -> (r: String)
        ensures
            r@ == canonical_headers_chars(self.headers_view()),
    {
        let lines = build_header_lines(&self.headers);
        let sorted = sort_strings(lines);
        join_strings(&sorted, '\n')
    }

    /// The signed-header list: the lowercased header names, sorted, joined
    /// with `;`, listing exactly the names of the canonical header string.
    pub fn signed_header_string(&self) -> (r: String)
        ensures
            r@ == signed_headers_chars(self.headers_view()),
    {
        let names = build_lower_names(&self.headers);
        let sorted = sort_strings(names);
        join_strings(&sorted, ';')
    }

    /// The full canonical request.
    pub fn canonical_request(&self) -> (r: String)
        ensures
            r@ == self.canonical_request_chars(),
    {
        let mut out = String::from_str(self.method.as_str());
        push_char(&mut out, '\n');
        out.append(self.url.path.as_str());
        push_char(&mut out, '\n');
        let query = canonical_query_string(&self.url);
        out.append(query.as_str());
        push_char(&mut out, '\n');
        let headers = self.canonical_header_string();
        out.append(headers.as_str());
        push_char(&mut out, '\n');
        push_char(&mut out, '\n');
        let signed = self.signed_header_string();
        out.append(signed.as_str());
        push_char(&mut out, '\n');
        let payload_hash = sha256_hex(self.body.as_slice());
        out.append(payload_hash.as_str());
        proof {
            assert(out@ =~= self.canonical_request_chars());
        }
        out
    }
}

} // verus!

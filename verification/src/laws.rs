//! The laws of the canonicalizer and the signer, stated and proved over the
//! same spec functions that the executable functions' contracts use.

use vstd::prelude::*;
use vstd::relations::sorted_by;
use crate::canonical::{
    canonical_headers_chars, canonical_query_chars, header_line_chars, header_lines, lower_names,
    query_item_chars, query_items, signed_headers_chars, AwsSign,
};
use crate::datetime::UtcDateTime;
use crate::signer::signing_key_bytes;
use crate::text::{
    lemma_lex_le_total_ordering, lemma_map_values_multiset, lemma_sorted_multiset_unique,
    lex_le_fn, lower_of,
};

verus! {

/// Law: the canonical header string and the signed-header list are the same
/// for any two header collections that hold the same headers, however
/// ordered; and the lines each is joined from are sorted.
pub proof fn lemma_headers_order_invariant(
    h1: Seq<(Seq<char>, Seq<char>)>,
    h2: Seq<(Seq<char>, Seq<char>)>,
)
    requires
        h1.to_multiset() == h2.to_multiset(),
    ensures
        canonical_headers_chars(h1) == canonical_headers_chars(h2),
        signed_headers_chars(h1) == signed_headers_chars(h2),
        sorted_by(header_lines(h1).sort_by(lex_le_fn()), lex_le_fn()),
        sorted_by(lower_names(h1).sort_by(lex_le_fn()), lex_le_fn()),
{
    lemma_lex_le_total_ordering();
    let line_of = |p: (Seq<char>, Seq<char>)| header_line_chars(p);
    assert(header_lines(h1) =~= h1.map_values(line_of));
    assert(header_lines(h2) =~= h2.map_values(line_of));
    lemma_map_values_multiset(h1, h2, line_of);
    header_lines(h1).lemma_sort_by_ensures(lex_le_fn());
    header_lines(h2).lemma_sort_by_ensures(lex_le_fn());
    lemma_sorted_multiset_unique(
        header_lines(h1).sort_by(lex_le_fn()),
        header_lines(h2).sort_by(lex_le_fn()),
    );
    let name_of = |p: (Seq<char>, Seq<char>)| lower_of(p.0);
    assert(lower_names(h1) =~= h1.map_values(name_of));
    assert(lower_names(h2) =~= h2.map_values(name_of));
    lemma_map_values_multiset(h1, h2, name_of);
    lower_names(h1).lemma_sort_by_ensures(lex_le_fn());
    lower_names(h2).lemma_sort_by_ensures(lex_le_fn());
    lemma_sorted_multiset_unique(
        lower_names(h1).sort_by(lex_le_fn()),
        lower_names(h2).sort_by(lex_le_fn()),
    );
}

/// Law: the canonical query string is the same for any two query-pair
/// sequences that hold the same pairs, however ordered; and the items it is
/// joined from are sorted.
pub proof fn lemma_query_order_invariant(
    q1: Seq<(Seq<char>, Seq<char>)>,
    q2: Seq<(Seq<char>, Seq<char>)>,
)
    requires
        q1.to_multiset() == q2.to_multiset(),
    ensures
        canonical_query_chars(q1) == canonical_query_chars(q2),
        sorted_by(query_items(q1).sort_by(lex_le_fn()), lex_le_fn()),
{
    lemma_lex_le_total_ordering();
    let item_of = |p: (Seq<char>, Seq<char>)| query_item_chars(p);
    assert(query_items(q1) =~= q1.map_values(item_of));
    assert(query_items(q2) =~= q2.map_values(item_of));
    lemma_map_values_multiset(q1, q2, item_of);
    query_items(q1).lemma_sort_by_ensures(lex_le_fn());
    query_items(q2).lemma_sort_by_ensures(lex_le_fn());
    lemma_sorted_multiset_unique(
        query_items(q1).sort_by(lex_le_fn()),
        query_items(q2).sort_by(lex_le_fn()),
    );
}

/// Law: signing is deterministic — two requests whose parts read the same
/// produce the same canonical request and the same `Authorization` value.
pub proof fn lemma_sign_deterministic(a: AwsSign, b: AwsSign)
    requires
        a.method@ == b.method@,
        a.url.path@ == b.url.path@,
        a.url.query_view() == b.url.query_view(),
        a.headers_view() == b.headers_view(),
        a.body@ == b.body@,
        a.datetime == b.datetime,
        a.region@ == b.region@,
        a.access_key@ == b.access_key@,
        a.secret_key@ == b.secret_key@,
        a.service@ == b.service@,
    ensures
        a.canonical_request_chars() == b.canonical_request_chars(),
        a.authorization_chars() == b.authorization_chars(),
{
}

/// Law: signing-key derivation is a pure function — equal date, secret,
/// region and service always yield byte-identical keys.
pub proof fn lemma_signing_key_pure(
    d1: UtcDateTime,
    d2: UtcDateTime,
    secret1: Seq<char>,
    secret2: Seq<char>,
    region1: Seq<char>,
    region2: Seq<char>,
    service1: Seq<char>,
    service2: Seq<char>,
)
    requires
        d1 == d2,
        secret1 == secret2,
        region1 == region2,
        service1 == service2,
    ensures
        signing_key_bytes(d1, secret1, region1, service1) == signing_key_bytes(
            d2,
            secret2,
            region2,
            service2,
        ),
{
}

} // verus!

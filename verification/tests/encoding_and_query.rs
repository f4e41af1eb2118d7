use aws_sign_v4::{canonical_query_string, uri_encode, ParsedUrl};

#[test]
fn uri_encode_slash_escaped() {
    assert_eq!(uri_encode("/", true), "%2F");
}

#[test]
fn uri_encode_slash_kept() {
    assert_eq!(uri_encode("/", false), "/");
}

#[test]
fn uri_encode_unreserved_unchanged() {
    assert_eq!(uri_encode("A_1-~.", false), "A_1-~.");
}

#[test]
fn uri_encode_space_and_multibyte() {
    assert_eq!(uri_encode(" ", true), "%20");
    assert_eq!(uri_encode("\u{e9}", true), "%C3%A9");
    assert_eq!(uri_encode("\u{20ac}", true), "%E2%82%AC");
    assert_eq!(uri_encode("\u{1f600}", true), "%F0%9F%98%80");
    assert_eq!(uri_encode("a b/c", false), "a%20b/c");
}

fn url_of(query: Vec<(&str, &str)>) -> ParsedUrl {
    ParsedUrl {
        path: "/".to_string(),
        query: query
            .into_iter()
            .map(|(k, v)| (k.to_string(), v.to_string()))
            .collect(),
    }
}

#[test]
fn query_order_does_not_matter() {
    let a = url_of(vec![("b", "2"), ("a", "1"), ("a", "0")]);
    let b = url_of(vec![("a", "0"), ("a", "1"), ("b", "2")]);
    assert_eq!(canonical_query_string(&a), canonical_query_string(&b));
    assert_eq!(canonical_query_string(&a), "a=0&a=1&b=2");
}

#[test]
fn query_pairs_encoded_independently() {
    let a = url_of(vec![("key one", "a/b")]);
    assert_eq!(canonical_query_string(&a), "key%20one=a%2Fb");
}

#[test]
fn query_empty() {
    let a = url_of(vec![]);
    assert_eq!(canonical_query_string(&a), "");
}

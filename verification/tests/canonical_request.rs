use aws_sign_v4::{AwsSign, UtcDateTime};

const EMPTY_BODY_SHA256: &str = "e3b0c44298fc1c149afbf4c8996fb92427ae41e4649b934ca495991b7852b855";

fn sample_datetime() -> UtcDateTime {
    UtcDateTime::new(2013, 5, 24, 0, 0, 0).unwrap()
}

#[test]
fn sample_canonical_request() {
    let datetime = sample_datetime();
    let url: &str = "https://hi.s3.us-east-1.amazonaws.com/Prod/graphql";
    let headers: Vec<(String, String)> = Vec::new();
    let aws_sign = AwsSign::new(
        "GET",
        url,
        &datetime,
        headers,
        "us-east-1",
        "a",
        "b",
        "s3",
        "".as_bytes(),
    )
    .unwrap();
    let s = aws_sign.canonical_request();
    assert_eq!(
        s,
        format!("GET\n/Prod/graphql\n\n\n\n\n{}", EMPTY_BODY_SHA256)
    );
}

#[test]
fn sample_canonical_request_using_u8_body() {
    let datetime = sample_datetime();
    let url: &str = "https://hi.s3.us-east-1.amazonaws.com/Prod/graphql";
    let headers: Vec<(String, String)> = Vec::new();
    let aws_sign = AwsSign::new(
        "GET",
        url,
        &datetime,
        headers,
        "us-east-1",
        "a",
        "b",
        "s3",
        "".as_bytes(),
    )
    .unwrap();
    let s = aws_sign.canonical_request();
    assert_eq!(
        s,
        format!("GET\n/Prod/graphql\n\n\n\n\n{}", EMPTY_BODY_SHA256)
    );
}

#[test]
fn sample_canonical_request_using_vec_body() {
    let datetime = sample_datetime();
    let url: &str = "https://hi.s3.us-east-1.amazonaws.com/Prod/graphql";
    let headers: Vec<(String, String)> = Vec::new();
    let body: Vec<u8> = Vec::new();
    let aws_sign = AwsSign::new(
        "GET",
        url,
        &datetime,
        headers,
        "us-east-1",
        "a",
        "b",
        "s3",
        body.as_slice(),
    )
    .unwrap();
    let s = aws_sign.canonical_request();
    assert_eq!(
        s,
        format!("GET\n/Prod/graphql\n\n\n\n\n{}", EMPTY_BODY_SHA256)
    );
}

#[test]
fn canonical_request_with_headers_and_query() {
    let datetime = sample_datetime();
    let url: &str = "https://example.amazonaws.com/path?b=2&a=1";
    let headers = vec![
        ("X-Amz-Date".to_string(), "20130524T000000Z".to_string()),
        ("Host".to_string(), " example.amazonaws.com ".to_string()),
    ];
    let aws_sign = AwsSign::new(
        "GET",
        url,
        &datetime,
        headers,
        "us-east-1",
        "a",
        "b",
        "s3",
        "".as_bytes(),
    )
    .unwrap();
    let s = aws_sign.canonical_request();
    assert_eq!(
        s,
        format!(
            "GET\n/path\na=1&b=2\nhost:example.amazonaws.com\nx-amz-date:20130524T000000Z\n\nhost;x-amz-date\n{}",
            EMPTY_BODY_SHA256
        )
    );
}

#[test]
fn query_is_decoded_then_recanonicalized() {
    let datetime = sample_datetime();
    let url = "https://example.amazonaws.com/a%2Fb/c?a%20b=c%2Fd";
    let headers: Vec<(String, String)> = Vec::new();
    let aws_sign = AwsSign::new(
        "GET",
        url,
        &datetime,
        headers,
        "us-east-1",
        "a",
        "b",
        "s3",
        "".as_bytes(),
    )
    .unwrap();
    let s = aws_sign.canonical_request();
    assert_eq!(
        s,
        format!("GET\n/a%2Fb/c\na%20b=c%2Fd\n\n\n\n{}", EMPTY_BODY_SHA256)
    );
}

#[test]
fn new_rejects_unparsable_url() {
    let datetime = sample_datetime();
    let headers: Vec<(String, String)> = Vec::new();
    let r = AwsSign::new(
        "GET",
        "no-scheme-here",
        &datetime,
        headers,
        "us-east-1",
        "a",
        "b",
        "s3",
        "".as_bytes(),
    );
    assert_eq!(r.unwrap_err(), aws_sign_v4::SigningError::InvalidUrl);
}

#[test]
fn header_order_does_not_matter() {
    let datetime = sample_datetime();
    let url = "https://example.amazonaws.com/";
    let h1 = vec![
        ("Host".to_string(), "example.amazonaws.com".to_string()),
        ("X-Amz-Date".to_string(), "20130524T000000Z".to_string()),
        ("Range".to_string(), "bytes=0-9".to_string()),
    ];
    let mut h2 = h1.clone();
    h2.reverse();
    let a = AwsSign::new(
        "GET", url, &datetime, h1, "us-east-1", "a", "b", "s3", "".as_bytes(),
    )
    .unwrap();
    let b = AwsSign::new(
        "GET", url, &datetime, h2, "us-east-1", "a", "b", "s3", "".as_bytes(),
    )
    .unwrap();
    assert_eq!(a.canonical_header_string(), b.canonical_header_string());
    assert_eq!(a.signed_header_string(), b.signed_header_string());
    assert_eq!(
        a.canonical_header_string(),
        "host:example.amazonaws.com\nrange:bytes=0-9\nx-amz-date:20130524T000000Z"
    );
    assert_eq!(a.signed_header_string(), "host;range;x-amz-date");
}

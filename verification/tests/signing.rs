use aws_sign_v4::{scope_string, signing_key, string_to_sign, AwsSign, UtcDateTime};

const EMPTY_SHA256: &str = "e3b0c44298fc1c149afbf4c8996fb92427ae41e4649b934ca495991b7852b855";

fn sample_datetime() -> UtcDateTime {
    UtcDateTime::new(2013, 5, 24, 0, 0, 0).unwrap()
}

#[test]
fn scope_string_shape() {
    let d = sample_datetime();
    assert_eq!(
        scope_string(&d, "us-east-1", "s3"),
        "20130524/us-east-1/s3/aws4_request"
    );
}

#[test]
fn scope_string_zero_pads_date() {
    let d = UtcDateTime::new(807, 1, 2, 3, 4, 5).unwrap();
    assert_eq!(
        scope_string(&d, "eu-west-2", "iam"),
        "08070102/eu-west-2/iam/aws4_request"
    );
}

#[test]
fn string_to_sign_exact() {
    let d = sample_datetime();
    let s = string_to_sign(&d, "us-east-1", "", "s3");
    assert_eq!(
        s,
        format!(
            "AWS4-HMAC-SHA256\n20130524T000000Z\n20130524/us-east-1/s3/aws4_request\n{}",
            EMPTY_SHA256
        )
    );
}

#[test]
fn signing_key_is_pure_and_sensitive_to_secret() {
    let d = sample_datetime();
    let k1 = signing_key(&d, "secret", "us-east-1", "s3");
    let k2 = signing_key(&d, "secret", "us-east-1", "s3");
    assert_eq!(k1, k2);
    assert_eq!(k1.len(), 32);
    let k3 = signing_key(&d, "tercess", "us-east-1", "s3");
    assert_ne!(k1, k3);
}

#[test]
fn datetime_rejects_bad_fields() {
    assert!(UtcDateTime::new(2013, 13, 1, 0, 0, 0).is_none());
    assert!(UtcDateTime::new(2013, 0, 1, 0, 0, 0).is_none());
    assert!(UtcDateTime::new(2013, 1, 32, 0, 0, 0).is_none());
    assert!(UtcDateTime::new(2013, 1, 1, 24, 0, 0).is_none());
    assert!(UtcDateTime::new(10000, 1, 1, 0, 0, 0).is_none());
}

fn sample_request(secret: &str, timestamp: UtcDateTime) -> AwsSign {
    let headers = vec![("Host".to_string(), "example.amazonaws.com".to_string())];
    AwsSign::new(
        "GET",
        "https://example.amazonaws.com/",
        &timestamp,
        headers,
        "us-east-1",
        "AKIDEXAMPLE",
        secret,
        "service",
        "".as_bytes(),
    )
    .unwrap()
}

#[test]
fn sign_is_deterministic() {
    let d = sample_datetime();
    let a = sample_request("key", d).sign();
    let b = sample_request("key", d).sign();
    assert_eq!(a, b);
}

#[test]
fn sign_changes_with_inputs() {
    let d = sample_datetime();
    let later = UtcDateTime::new(2013, 5, 24, 0, 0, 1).unwrap();
    let a = sample_request("key", d).sign();
    assert_ne!(a, sample_request("yek", d).sign());
    assert_ne!(a, sample_request("key", later).sign());
}

#[test]
fn sign_assembles_authorization_value() {
    let d = sample_datetime();
    let auth = sample_request("key", d).sign();
    let prefix =
        "AWS4-HMAC-SHA256 Credential=AKIDEXAMPLE/20130524/us-east-1/service/aws4_request,SignedHeaders=host,Signature=";
    assert!(auth.starts_with(prefix));
    let signature = &auth[prefix.len()..];
    assert_eq!(signature.len(), 64);
    assert!(signature
        .chars()
        .all(|c| c.is_ascii_digit() || ('a'..='f').contains(&c)));
    assert!(!auth.contains("key"));
}

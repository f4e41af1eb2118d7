//! The signer: scope, string-to-sign, the four-step HMAC key derivation, and
//! the final `Authorization` value.

use vstd::prelude::*;
use vstd::string::StringExecFns;
use vstd::utf8::encode_utf8;
use crate::canonical::{signed_headers_chars, AwsSign};
use crate::datetime::{long_datetime_chars, short_date_chars, UtcDateTime};
use crate::hashing::{
    hex_encode, hmac_sha256, hmac_sha256_of, lower_hex_of, sha256_bytes, sha256_of,
};
use crate::text::push_char;

verus! {

/// The signing scope: `YYYYMMDD/region/service/aws4_request`.
pub open spec fn scope_chars(d: UtcDateTime, region: Seq<char>, service: Seq<char>) -> Seq<char> {
    short_date_chars(d) + seq!['/'] + region + seq!['/'] + service + seq!['/'] + "aws4_request"@
}

/// The scope string that binds a signature to a day, region and service.
pub fn scope_string(datetime: &UtcDateTime, region: &str, service: &str) -> (r: String)
    requires
        datetime.wf(),
    ensures
        r@ == scope_chars(*datetime, region@, service@),
{
    let mut out = datetime.format_short_date();
    push_char(&mut out, '/');
    out.append(region);
    push_char(&mut out, '/');
    out.append(service);
    push_char(&mut out, '/');
    out.append("aws4_request");
    proof {
        assert(out@ =~= scope_chars(*datetime, region@, service@));
    }
    out
}

/// The string to sign: algorithm tag, timestamp, scope, and the hex SHA-256
/// of the canonical request, newline-delimited.
pub open spec fn string_to_sign_chars(
    d: UtcDateTime,
    region: Seq<char>,
    canonical_req: Seq<char>,
    service: Seq<char>,
) -> Seq<char> {
    "AWS4-HMAC-SHA256"@ + seq!['\n'] + long_datetime_chars(d) + seq!['\n'] + scope_chars(
        d,
        region,
        service,
    ) + seq!['\n'] + lower_hex_of(sha256_of(encode_utf8(canonical_req)))
}

/// Builds the string to sign from a canonical request.
pub fn string_to_sign(datetime: &UtcDateTime, region: &str, canonical_req: &str, service: &str) -> (r:
    String)
    requires
        datetime.wf(),
    ensures
        r@ == string_to_sign_chars(*datetime, region@, canonical_req@, service@),
{
    let hash = sha256_bytes(canonical_req.as_bytes());
    let hash_hex = hex_encode(hash.as_slice());
    let mut out = String::from_str("AWS4-HMAC-SHA256");
    push_char(&mut out, '\n');
    let timestamp = datetime.format_long_datetime();
    out.append(timestamp.as_str());
    push_char(&mut out, '\n');
    let scope = scope_string(datetime, region, service);
    out.append(scope.as_str());
    push_char(&mut out, '\n');
    out.append(hash_hex.as_str());
    proof {
        assert(out@ =~= string_to_sign_chars(*datetime, region@, canonical_req@, service@));
    }
    out
}

/// The derived signing key: a four-step HMAC-SHA256 chain, each step keyed
/// by the previous step's tag, over the date, region, service and the
/// `aws4_request` terminator.
pub open spec fn signing_key_bytes(
    d: UtcDateTime,
    secret_key: Seq<char>,
    region: Seq<char>,
    service: Seq<char>,
) -> Seq<u8> {
    let date_tag = hmac_sha256_of(
        encode_utf8("AWS4"@ + secret_key),
        encode_utf8(short_date_chars(d)),
    );
    let region_tag = hmac_sha256_of(date_tag, encode_utf8(region));
    let service_tag = hmac_sha256_of(region_tag, encode_utf8(service));
    hmac_sha256_of(service_tag, encode_utf8("aws4_request"@))
}

/// Derives the signing key. Total: HMAC-SHA256 accepts keys of any length,
/// so no failure path exists.
pub fn signing_key(datetime: &UtcDateTime, secret_key: &str, region: &str, service: &str) -> (r:
    Vec<u8>)
    requires
        datetime.wf(),
    ensures
        r@ == signing_key_bytes(*datetime, secret_key@, region@, service@),
{
    let mut secret = String::from_str("AWS4");
    secret.append(secret_key);
    let date = datetime.format_short_date();
    let date_tag = hmac_sha256(secret.as_str().as_bytes(), date.as_str().as_bytes());
    let region_tag = hmac_sha256(date_tag.as_slice(), region.as_bytes());
    let service_tag = hmac_sha256(region_tag.as_slice(), service.as_bytes());
    hmac_sha256(service_tag.as_slice(), "aws4_request".as_bytes())
}

impl AwsSign {
    /// The full `Authorization` value this request signs to.
    pub open spec fn authorization_chars(self) -> Seq<char> {
        let signature = lower_hex_of(
            hmac_sha256_of(
                signing_key_bytes(self.datetime, self.secret_key@, self.region@, self.service@),
                encode_utf8(
                    string_to_sign_chars(
                        self.datetime,
                        self.region@,
                        self.canonical_request_chars(),
                        self.service@,
                    ),
                ),
            ),
        );
        "AWS4-HMAC-SHA256 Credential="@ + self.access_key@ + seq!['/'] + scope_chars(
            self.datetime,
            self.region@,
            self.service@,
        ) + seq![','] + "SignedHeaders="@ + signed_headers_chars(self.headers_view()) + seq![',']
            + "Signature="@ + signature
    }

    /// Signs the request: hashes the canonical request, derives the signing
    /// key, signs the string to sign, and assembles the `Authorization`
    /// value.
    pub fn sign(&self) -> (r: String)
        requires
            self.datetime.wf(),
        ensures
            r@ == self.authorization_chars(),
    {
        let canonical = self.canonical_request();
        let to_sign = string_to_sign(
            &self.datetime,
            self.region.as_str(),
            canonical.as_str(),
            self.service.as_str(),
        );
        let key = signing_key(
            &self.datetime,
            self.secret_key.as_str(),
            self.region.as_str(),
            self.service.as_str(),
        );
        let tag = hmac_sha256(key.as_slice(), to_sign.as_str().as_bytes());
        let signature = hex_encode(tag.as_slice());
        let signed_headers = self.signed_header_string();
        let mut out = String::from_str("AWS4-HMAC-SHA256 Credential=");
        out.append(self.access_key.as_str());
        push_char(&mut out, '/');
        let scope = scope_string(&self.datetime, self.region.as_str(), self.service.as_str());
        out.append(scope.as_str());
        push_char(&mut out, ',');
        out.append("SignedHeaders=");
        out.append(signed_headers.as_str());
        push_char(&mut out, ',');
        out.append("Signature=");
        out.append(signature.as_str());
        proof {
            assert(out@ =~= self.authorization_chars());
        }
        out
    }
}

} // verus!

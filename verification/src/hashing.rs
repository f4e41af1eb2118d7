//! The cryptographic leaves of the signer: SHA-256, HMAC-SHA256 and hex
//! encoding, each reached through one trusted call into an outside crate.

use vstd::prelude::*;

verus! {

/// What `sha256::digest` returns for given bytes: the lowercase hex SHA-256
/// digest text, a function of the bytes alone.
pub uninterp spec fn sha256_hex_of(data: Seq<u8>) -> Seq<char>;

/// Relies on `sha256::digest` (through its `&[u8]` impl): the hex SHA-256
/// digest of the input, a function of the input bytes alone.
#[verifier::external_body]
pub(crate) fn sha256_hex(data: &[u8]) -> (r: String)
    ensures
        r@ == sha256_hex_of(data@),
{
    sha256::digest(data)
}

/// What SHA-256 returns for given bytes, as raw digest bytes.
pub uninterp spec fn sha256_of(data: Seq<u8>) -> Seq<u8>;

/// Relies on `ring::digest::digest` with `ring::digest::SHA256`: the digest
/// is a function of the input bytes alone.
#[verifier::external_body]
pub(crate) fn sha256_bytes(data: &[u8]) -> (r: Vec<u8>)
    ensures
        r@ == sha256_of(data@),
{
    ring::digest::digest(&ring::digest::SHA256, data).as_ref().to_vec()
}

/// What HMAC-SHA256 returns for a given key and message.
pub uninterp spec fn hmac_sha256_of(key: Seq<u8>, msg: Seq<u8>) -> Seq<u8>;

/// Relies on `ring::hmac::Key::new` and `ring::hmac::sign` with
/// `ring::hmac::HMAC_SHA256`: keys of any length are accepted and the tag is
/// a function of the key and message bytes alone.
#[verifier::external_body]
pub(crate) fn hmac_sha256(key: &[u8], msg: &[u8]) -> (r: Vec<u8>)
    ensures
        r@ == hmac_sha256_of(key@, msg@),
{
    let key = ring::hmac::Key::new(ring::hmac::HMAC_SHA256, key);
    ring::hmac::sign(&key, msg).as_ref().to_vec()
}

/// The lowercase hexadecimal digit for `n < 16`.
pub open spec fn lower_hex_digit(n: u8) -> char {
    if n < 10 {
        ((48 + n) as char)
    } else {
        ((87 + n) as char)
    }
}

/// Two lowercase hexadecimal digits per byte, most significant first.
pub open spec fn lower_hex_of(bs: Seq<u8>) -> Seq<char>
    decreases bs.len(),
{
    if bs.len() == 0 {
        Seq::empty()
    } else {
        seq![lower_hex_digit(bs[0] / 16), lower_hex_digit(bs[0] % 16)] + lower_hex_of(
            bs.drop_first(),
        )
    }
}

/// Relies on `hex::encode`: two lowercase hexadecimal digits per input byte,
/// most significant first.
#[verifier::external_body]
pub(crate) fn hex_encode(data: &[u8]) -> (r: String)
    ensures
        r@ == lower_hex_of(data@),
{
    hex::encode(data)
}

} // verus!

//! AWS Signature Version 4 request signing.
//!
//! Turns a request description (method, URL, headers, body, credentials,
//! timestamp, region, service) into the value of the `Authorization` header,
//! following the published SigV4 canonicalization and signing pipeline.

pub mod canonical;
pub mod datetime;
pub mod encode;
pub mod hashing;
pub mod laws;
pub mod signer;
pub mod text;
pub mod urlinfo;

pub use crate::canonical::{canonical_query_string, AwsSign};
pub use crate::datetime::UtcDateTime;
pub use crate::encode::uri_encode;
pub use crate::signer::{scope_string, signing_key, string_to_sign};
pub use crate::urlinfo::{ParsedUrl, SigningError};

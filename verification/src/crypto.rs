//! SHA-256 and HMAC-SHA-256, computed by the `sha2` and `hmac` crates.

use hmac::Mac;
use sha2::Digest;
use vstd::prelude::*;

verus! {

/// The SHA-256 digest of `data`.
pub uninterp spec fn sha256(data: Seq<u8>) -> Seq<u8>;

/// The HMAC-SHA-256 tag of `message` under `key`.
pub uninterp spec fn hmac_sha256(key: Seq<u8>, message: Seq<u8>) -> Seq<u8>;

/// `sha2::Sha256`, fed `data` in one `update` and finalized: the digest of `data`,
/// which is 32 bytes long.
#[verifier::external_body]
pub(crate) fn sha256_digest(data: &[u8]) -> (digest: Vec<u8>)
    ensures
        digest@ == sha256(data@),
        digest@.len() == 32,
{
    let mut hasher = sha2::Sha256::new();
    hasher.update(data);
    hasher.finalize().to_vec()
}

/// `hmac::Hmac<sha2::Sha256>`, keyed by `new_from_slice`, fed `message` in one
/// `update` and finalized: the tag of `message` under `key`, 32 bytes long.
/// `new_from_slice` accepts a key of any length, so a tag always comes back.
#[verifier::external_body]
pub(crate) fn hmac_sha256_tag(key: &[u8], message: &[u8]) -> (tag: Option<Vec<u8>>)
    ensures
        tag is Some,
        tag->0@ == hmac_sha256(key@, message@),
        tag->0@.len() == 32,
{
    match hmac::Hmac::<sha2::Sha256>::new_from_slice(key) {
        Ok(mut mac) => {
            mac.update(message);
            Some(mac.finalize().into_bytes().to_vec())
        },
        Err(_) => None,
    }
}

} // verus!

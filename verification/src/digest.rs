//! Hash and message-authentication functions. They are computed by the
//! `sha2` and `hmac` crates; their results are named here and not defined.

use vstd::prelude::*;
use hmac::{Hmac, Mac};
use sha2::{Digest, Sha256, Sha384, Sha512};

verus! {

/// The SHA-256 digest of `data`.
pub uninterp spec fn sha256(data: Seq<u8>) -> Seq<u8>;

/// The HMAC-SHA-256 tag of `message` under `key`.
pub uninterp spec fn hmac_sha256(key: Seq<u8>, message: Seq<u8>) -> Seq<u8>;

/// The HMAC-SHA-384 tag of `message` under `key`.
pub uninterp spec fn hmac_sha384(key: Seq<u8>, message: Seq<u8>) -> Seq<u8>;

/// The HMAC-SHA-512 tag of `message` under `key`.
pub uninterp spec fn hmac_sha512(key: Seq<u8>, message: Seq<u8>) -> Seq<u8>;

/// Calls `sha2::Sha256::digest`. The contract names the result and claims
/// nothing more of it.
#[verifier::external_body]
pub(crate) fn sha256_digest(data: &[u8]) -> (r: Vec<u8>)
    ensures
        r@ == sha256(data@),
{
    Sha256::digest(data).to_vec()
}

/// Runs `hmac::Hmac<Sha256>` over `message` with `key`: `new_from_slice`,
/// which accepts a key of any length, then `update` and `finalize`. The
/// contract names the result and claims nothing more of it.
#[verifier::external_body]
pub(crate) fn hmac_sha256_tag(key: &[u8], message: &[u8]) -> (r: Vec<u8>)
    ensures
        r@ == hmac_sha256(key@, message@),
{
    match Hmac::<Sha256>::new_from_slice(key) {
        Ok(mac) => mac.chain_update(message).finalize().into_bytes().to_vec(),
        Err(_) => Vec::new(),
    }
}

/// Runs `hmac::Hmac<Sha384>` over `message` with `key`, as for SHA-256.
#[verifier::external_body]
pub(crate) fn hmac_sha384_tag(key: &[u8], message: &[u8]) -> (r: Vec<u8>)
    ensures
        r@ == hmac_sha384(key@, message@),
{
    match Hmac::<Sha384>::new_from_slice(key) {
        Ok(mac) => mac.chain_update(message).finalize().into_bytes().to_vec(),
        Err(_) => Vec::new(),
    }
}

/// Runs `hmac::Hmac<Sha512>` over `message` with `key`, as for SHA-256.
#[verifier::external_body]
pub(crate) fn hmac_sha512_tag(key: &[u8], message: &[u8]) -> (r: Vec<u8>)
    ensures
        r@ == hmac_sha512(key@, message@),
{
    match Hmac::<Sha512>::new_from_slice(key) {
        Ok(mac) => mac.chain_update(message).finalize().into_bytes().to_vec(),
        Err(_) => Vec::new(),
    }
}

} // verus!

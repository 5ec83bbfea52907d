//! Proof Key for Code Exchange: the challenge that binds an authorization
//! code to the client that asked for it.

use vstd::prelude::*;
use crate::base64url;
use crate::bytes::{ct_eq, to_vec};
use crate::digest::{sha256, sha256_digest};
use crate::iana::PkceCodeChallengeMethod;

verus! {

/// The challenge that `verifier` answers under `method`.
pub open spec fn spec_challenge(method: PkceCodeChallengeMethod, verifier: Seq<u8>) -> Seq<u8> {
    match method {
        PkceCodeChallengeMethod::Plain => verifier,
        PkceCodeChallengeMethod::S256 => base64url::spec_encode(sha256(verifier)),
    }
}

/// A stored code challenge and the method it was made with.
#[derive(Debug, PartialEq, Eq)]
pub struct PkceChallenge {
    pub challenge: Vec<u8>,
    pub method: PkceCodeChallengeMethod,
}

/// A code challenge as a mathematical value.
pub struct PkceChallengeView {
    pub challenge: Seq<u8>,
    pub method: PkceCodeChallengeMethod,
}

impl PkceChallengeView {
    /// Whether `verifier` answers the challenge.
    pub open spec fn accepts(self, verifier: Seq<u8>) -> bool {
        spec_challenge(self.method, verifier) == self.challenge
    }
}

/// The view of an optional challenge.
pub open spec fn opt_challenge_view(o: Option<PkceChallenge>) -> Option<PkceChallengeView> {
    match o {
        Some(c) => Some(c@),
        None => None,
    }
}

/// The challenge of the S256 method, from the SHA-256 digest of the
/// verifier: the digest's unpadded base64url text.
pub fn challenge_from_digest(digest: &[u8]) -> (r: Vec<u8>)
    ensures
        r@ == base64url::spec_encode(digest@),
{
    base64url::encode(digest)
}

/// The challenge that `verifier` answers under `method`.
pub fn compute_challenge(method: PkceCodeChallengeMethod, verifier: &[u8]) -> (r: Vec<u8>)
    ensures
        r@ == spec_challenge(method, verifier@),
{
    match method {
        PkceCodeChallengeMethod::Plain => to_vec(verifier),
        PkceCodeChallengeMethod::S256 => {
            let digest = sha256_digest(verifier);
            challenge_from_digest(digest.as_slice())
        },
    }
}

impl PkceChallenge {
    /// The value as a mathematical value, with its byte strings as sequences.
    pub open spec fn view(&self) -> PkceChallengeView {
        PkceChallengeView { challenge: self.challenge@, method: self.method }
    }

    /// Whether `verifier` answers the challenge: the challenge is computed
    /// again from `verifier` and compared with the stored one.
    pub fn verify(&self, verifier: &[u8]) -> (r: bool)
        ensures
            r == self@.accepts(verifier@),
    {
        let expected = compute_challenge(self.method, verifier);
        ct_eq(expected.as_slice(), self.challenge.as_slice())
    }

    /// A copy of the challenge.
    pub fn clone(&self) -> (r: PkceChallenge)
        ensures
            r@ == self@,
    {
        PkceChallenge { challenge: to_vec(self.challenge.as_slice()), method: self.method }
    }
}

/// A copy of an optional challenge.
pub fn clone_opt_challenge(o: &Option<PkceChallenge>) -> (r: Option<PkceChallenge>)
    ensures
        opt_challenge_view(r) == opt_challenge_view(*o),
{
    match o {
        Some(c) => Some(c.clone()),
        None => None,
    }
}

} // verus!

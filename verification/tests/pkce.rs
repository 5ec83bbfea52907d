use oidc_core::iana::PkceCodeChallengeMethod;
use oidc_core::pkce::{challenge_from_digest, compute_challenge, PkceChallenge};

// The worked example of RFC 7636, appendix B.
const VERIFIER: &[u8] = b"dBjftJeZ4CVP-mB92K27uhbUJU1p1r_wW1gFWFOEjXk";
const CHALLENGE: &[u8] = b"E9Melhoa2OwvFrEMTJguCHaoeK1t8URWbuGJSstw-cM";

#[test]
fn s256_challenge_of_the_rfc_example() {
    assert_eq!(
        compute_challenge(PkceCodeChallengeMethod::S256, VERIFIER),
        CHALLENGE.to_vec()
    );
}

#[test]
fn s256_challenge_is_the_text_of_the_digest() {
    let digest: [u8; 32] = [
        19, 211, 30, 150, 26, 26, 216, 236, 47, 22, 177, 12, 76, 152, 46, 8, 118, 168, 120, 173,
        109, 241, 68, 86, 110, 225, 137, 74, 203, 112, 249, 195,
    ];
    assert_eq!(challenge_from_digest(&digest), CHALLENGE.to_vec());
}

#[test]
fn plain_challenge_is_the_verifier() {
    assert_eq!(
        compute_challenge(PkceCodeChallengeMethod::Plain, b"some-verifier"),
        b"some-verifier".to_vec()
    );
}

#[test]
fn verify_accepts_the_verifier_and_nothing_else() {
    let challenge = PkceChallenge {
        challenge: CHALLENGE.to_vec(),
        method: PkceCodeChallengeMethod::S256,
    };
    assert!(challenge.verify(VERIFIER));
    assert!(!challenge.verify(b"dBjftJeZ4CVP-mB92K27uhbUJU1p1r_wW1gFWFOEjXl"));
    assert!(!challenge.verify(CHALLENGE));
    assert!(!challenge.verify(b""));
    let plain = PkceChallenge {
        challenge: b"abc".to_vec(),
        method: PkceCodeChallengeMethod::Plain,
    };
    assert!(plain.verify(b"abc"));
    assert!(!plain.verify(b"abd"));
}

#[test]
fn a_plain_challenge_does_not_accept_under_s256() {
    let challenge = PkceChallenge {
        challenge: VERIFIER.to_vec(),
        method: PkceCodeChallengeMethod::S256,
    };
    assert!(!challenge.verify(VERIFIER));
}

use oidc_core::iana::{
    GrantType, JsonWebSignatureAlg, OAuthClientAuthenticationMethod, OAuthErrorCode,
    PkceCodeChallengeMethod, ResponseType,
};

#[test]
fn signature_algorithms_have_their_registered_names() {
    assert_eq!(JsonWebSignatureAlg::Hs256.name(), b"HS256".to_vec());
    assert_eq!(JsonWebSignatureAlg::Hs384.name(), b"HS384".to_vec());
    assert_eq!(JsonWebSignatureAlg::Hs512.name(), b"HS512".to_vec());
    assert_eq!(JsonWebSignatureAlg::Rs256.name(), b"RS256".to_vec());
    assert_eq!(JsonWebSignatureAlg::Es256K.name(), b"ES256K".to_vec());
    assert_eq!(JsonWebSignatureAlg::EdDsa.name(), b"EdDSA".to_vec());
    assert_eq!(JsonWebSignatureAlg::Unsecured.name(), b"none".to_vec());
}

#[test]
fn every_signature_algorithm_is_read_back_from_its_name() {
    let all = [
        JsonWebSignatureAlg::Hs256,
        JsonWebSignatureAlg::Hs384,
        JsonWebSignatureAlg::Hs512,
        JsonWebSignatureAlg::Rs256,
        JsonWebSignatureAlg::Rs384,
        JsonWebSignatureAlg::Rs512,
        JsonWebSignatureAlg::Es256,
        JsonWebSignatureAlg::Es384,
        JsonWebSignatureAlg::Es512,
        JsonWebSignatureAlg::Ps256,
        JsonWebSignatureAlg::Ps384,
        JsonWebSignatureAlg::Ps512,
        JsonWebSignatureAlg::Unsecured,
        JsonWebSignatureAlg::EdDsa,
        JsonWebSignatureAlg::Es256K,
    ];
    for alg in all {
        assert_eq!(JsonWebSignatureAlg::parse(&alg.name()), Some(alg));
    }
}

#[test]
fn names_are_matched_exactly() {
    assert_eq!(JsonWebSignatureAlg::parse(b"hs256"), None);
    assert_eq!(JsonWebSignatureAlg::parse(b"HS256 "), None);
    assert_eq!(JsonWebSignatureAlg::parse(b""), None);
    assert_eq!(JsonWebSignatureAlg::parse(b"NONE"), None);
    assert_eq!(OAuthClientAuthenticationMethod::parse(b"client_secret"), None);
}

#[test]
fn authentication_methods_have_their_registered_names() {
    let all = [
        (OAuthClientAuthenticationMethod::NoAuthentication, &b"none"[..]),
        (OAuthClientAuthenticationMethod::ClientSecretPost, b"client_secret_post"),
        (OAuthClientAuthenticationMethod::ClientSecretBasic, b"client_secret_basic"),
        (OAuthClientAuthenticationMethod::ClientSecretJwt, b"client_secret_jwt"),
        (OAuthClientAuthenticationMethod::PrivateKeyJwt, b"private_key_jwt"),
        (OAuthClientAuthenticationMethod::TlsClientAuth, b"tls_client_auth"),
        (
            OAuthClientAuthenticationMethod::SelfSignedTlsClientAuth,
            b"self_signed_tls_client_auth",
        ),
    ];
    for (method, name) in all {
        assert_eq!(method.name(), name.to_vec());
        assert_eq!(OAuthClientAuthenticationMethod::parse(name), Some(method));
    }
}

#[test]
fn other_registered_values() {
    assert_eq!(PkceCodeChallengeMethod::parse(b"S256"), Some(PkceCodeChallengeMethod::S256));
    assert_eq!(PkceCodeChallengeMethod::parse(b"plain"), Some(PkceCodeChallengeMethod::Plain));
    assert_eq!(PkceCodeChallengeMethod::parse(b"s256"), None);
    assert_eq!(GrantType::AuthorizationCode.name(), b"authorization_code".to_vec());
    assert_eq!(GrantType::parse(b"refresh_token"), Some(GrantType::RefreshToken));
    assert_eq!(ResponseType::parse(b"code"), Some(ResponseType::Code));
    assert_eq!(ResponseType::CodeIdToken.name(), b"code id_token".to_vec());
    assert_eq!(OAuthErrorCode::InvalidGrant.name(), b"invalid_grant".to_vec());
    assert_eq!(OAuthErrorCode::parse(b"server_error"), Some(OAuthErrorCode::ServerError));
    assert_eq!(
        OAuthErrorCode::UnsupportedGrantType.name(),
        b"unsupported_grant_type".to_vec()
    );
}

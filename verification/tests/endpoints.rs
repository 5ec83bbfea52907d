use oidc_core::client::{Client, ClientCredentials};
use oidc_core::endpoints::{
    description, status, AuthorizationAnswer, AuthorizationRequest, TokenRequest,
};
use oidc_core::grant::GrantStatus;
use oidc_core::iana::{
    GrantType, JsonWebSignatureAlg, OAuthClientAuthenticationMethod, OAuthErrorCode,
    PkceCodeChallengeMethod,
};
use oidc_core::jose::jwk::JsonWebKeySet;
use oidc_core::jose::jwt::JoseEngine;
use oidc_core::scope::Scope;
use oidc_core::server::{AuthorizationServer, ServerConfig};
use oidc_core::session::{Account, Session};
use oidc_core::token::TokenMaterial;
use rand::rngs::StdRng;
use rand::SeedableRng;

const REDIRECT: &[u8] = b"https://app.example/cb";
const VERIFIER: &[u8] = b"dBjftJeZ4CVP-mB92K27uhbUJU1p1r_wW1gFWFOEjXk";
const CHALLENGE: &[u8] = b"E9Melhoa2OwvFrEMTJguCHaoeK1t8URWbuGJSstw-cM";
const CLIENT: u128 = 11;
const SESSION: u128 = 33;

fn make_server(grant_ttl: u64) -> AuthorizationServer {
    let keys = JsonWebKeySet::new()
        .rotate(b"k1".to_vec(), JsonWebSignatureAlg::Hs256, b"signing-secret".to_vec())
        .unwrap();
    let config = ServerConfig {
        issuer: b"https://auth.example/".to_vec(),
        signing_alg: JsonWebSignatureAlg::Hs256,
        id_token_ttl: 3600,
    };
    let mut server = AuthorizationServer::new(config, JoseEngine::new(keys), grant_ttl, 300);
    assert!(server.clients.register(Client {
        id: CLIENT,
        redirect_uris: vec![REDIRECT.to_vec()],
        grant_types: vec![GrantType::AuthorizationCode, GrantType::RefreshToken],
        token_endpoint_auth_method: OAuthClientAuthenticationMethod::ClientSecretPost,
        client_secret: Some(b"s3cret".to_vec()),
        scope: Scope::parse(b"openid email offline_access").unwrap(),
    }));
    assert!(server.directory.add_account(Account { id: 22, attributes: vec![], created_at: 900 }));
    assert!(server.directory.add_session(Session { id: SESSION, account_id: 22, authenticated_at: 950 }));
    server
}

fn request() -> AuthorizationRequest {
    AuthorizationRequest {
        client_id: Some(CLIENT),
        redirect_uri: Some(REDIRECT.to_vec()),
        response_type: Some(b"code".to_vec()),
        scope: Some(b"openid offline_access".to_vec()),
        state: Some(b"st 1".to_vec()),
        nonce: Some(b"n-1".to_vec()),
        code_challenge: Some(CHALLENGE.to_vec()),
        code_challenge_method: Some(b"S256".to_vec()),
    }
}

fn answer(change: impl FnOnce(&mut AuthorizationRequest)) -> (AuthorizationServer, AuthorizationAnswer) {
    let mut server = make_server(600);
    let mut rq = request();
    change(&mut rq);
    let a = server.authorize_with(&rq, Some(SESSION), 1000, 5, b"c0de".to_vec());
    (server, a)
}

fn redirect(url: &str) -> AuthorizationAnswer {
    AuthorizationAnswer::Redirect(url.as_bytes().to_vec())
}

fn credentials() -> ClientCredentials {
    ClientCredentials { client_id: CLIENT, client_secret: Some(b"s3cret".to_vec()) }
}

fn material(n: u128) -> TokenMaterial {
    TokenMaterial {
        access_id: 1000 + n,
        access_token: format!("access-{}", n).into_bytes(),
        refresh_id: 2000 + n,
        refresh_token: format!("refresh-{}", n).into_bytes(),
        family_id: 3000 + n,
    }
}

fn token_request(grant_type: &[u8]) -> TokenRequest {
    TokenRequest {
        grant_type: Some(grant_type.to_vec()),
        code: Some(b"c0de".to_vec()),
        redirect_uri: Some(REDIRECT.to_vec()),
        code_verifier: Some(VERIFIER.to_vec()),
        refresh_token: Some(b"refresh-0".to_vec()),
        credentials: Some(credentials()),
    }
}

#[test]
fn a_user_with_a_session_is_sent_back_with_the_code() {
    let (server, a) = answer(|_| {});
    assert_eq!(a, redirect("https://app.example/cb?code=c0de&state=st%201"));
    let grant = server.grants.lookup(5).unwrap();
    assert_eq!(grant.status, GrantStatus::Fulfilled);
    assert_eq!(grant.session, Some(SESSION));
    assert_eq!(grant.code, Some(b"c0de".to_vec()));
    assert_eq!(grant.nonce, Some(b"n-1".to_vec()));
    assert_eq!(grant.pkce.unwrap().method, PkceCodeChallengeMethod::S256);
    assert_eq!(grant.scope.to_bytes(), b"openid offline_access".to_vec());
}

#[test]
fn a_user_without_session_must_log_in() {
    let mut server = make_server(600);
    assert_eq!(
        server.authorize_with(&request(), None, 1000, 5, b"c0de".to_vec()),
        AuthorizationAnswer::Login(5)
    );
    assert_eq!(server.grants.lookup(5).unwrap().status, GrantStatus::Pending);
    // a session that the directory does not hold is none
    assert_eq!(
        server.authorize_with(&request(), Some(99), 1000, 6, b"c0de-6".to_vec()),
        AuthorizationAnswer::Login(6)
    );
    assert_eq!(server.grants.lookup(6).unwrap().status, GrantStatus::Pending);
}

#[test]
fn an_unknown_client_is_refused_without_redirect() {
    for client in [None, Some(12)] {
        let (server, a) = answer(|rq| rq.client_id = client);
        assert_eq!(a, AuthorizationAnswer::Refused(OAuthErrorCode::UnauthorizedClient));
        assert!(server.grants.lookup(5).is_none());
    }
}

#[test]
fn a_redirect_uri_that_is_not_registered_is_refused_without_redirect() {
    for uri in [None, Some(b"https://evil.example/cb".to_vec()), Some(b"".to_vec())] {
        let (server, a) = answer(|rq| rq.redirect_uri = uri);
        assert_eq!(a, AuthorizationAnswer::Refused(OAuthErrorCode::InvalidRequest));
        assert!(server.grants.lookup(5).is_none());
    }
}

#[test]
fn other_faults_are_told_to_the_client() {
    let invalid_request = "https://app.example/cb?error=invalid_request&error_description=the%20request%20is%20missing%20a%20parameter%20or%20has%20one%20that%20is%20not%20valid&state=st%201";
    let invalid_scope = "https://app.example/cb?error=invalid_scope&error_description=the%20scope%20is%20not%20valid%20or%20is%20more%20than%20the%20client%20may%20ask%20for&state=st%201";
    let (server, a) = answer(|rq| rq.response_type = None);
    assert_eq!(a, redirect(invalid_request));
    assert!(server.grants.lookup(5).is_none());
    assert_eq!(answer(|rq| rq.response_type = Some(b"token".to_vec())).1, redirect(invalid_request));
    assert_eq!(answer(|rq| rq.scope = None).1, redirect(invalid_scope));
    assert_eq!(answer(|rq| rq.scope = Some(b"".to_vec())).1, redirect(invalid_scope));
    assert_eq!(answer(|rq| rq.scope = Some(b"openid  email".to_vec())).1, redirect(invalid_scope));
    assert_eq!(answer(|rq| rq.scope = Some(b"openid admin".to_vec())).1, redirect(invalid_scope));
    assert_eq!(
        answer(|rq| rq.code_challenge_method = Some(b"S512".to_vec())).1,
        redirect(invalid_request)
    );
}

#[test]
fn the_first_fault_is_the_one_told() {
    // response type before scope before challenge method
    let (_, a) = answer(|rq| {
        rq.response_type = None;
        rq.scope = None;
        rq.code_challenge_method = Some(b"?".to_vec());
        rq.state = None;
    });
    assert_eq!(
        a,
        redirect("https://app.example/cb?error=invalid_request&error_description=the%20request%20is%20missing%20a%20parameter%20or%20has%20one%20that%20is%20not%20valid")
    );
    let (_, b) = answer(|rq| {
        rq.client_id = None;
        rq.redirect_uri = None;
    });
    assert_eq!(b, AuthorizationAnswer::Refused(OAuthErrorCode::UnauthorizedClient));
}

#[test]
fn a_challenge_without_method_is_plain() {
    let (server, _) = answer(|rq| rq.code_challenge_method = None);
    assert_eq!(server.grants.lookup(5).unwrap().pkce.unwrap().method, PkceCodeChallengeMethod::Plain);
    let (server, _) = answer(|rq| {
        rq.code_challenge = None;
        rq.code_challenge_method = Some(b"unknown".to_vec());
    });
    assert_eq!(server.grants.lookup(5).unwrap().pkce, None);
}

#[test]
fn an_identifier_in_use_is_a_server_error() {
    let mut server = make_server(600);
    server.authorize_with(&request(), None, 1000, 5, b"c0de".to_vec());
    let again = server.authorize_with(&request(), None, 1000, 5, b"other".to_vec());
    assert_eq!(
        again,
        redirect("https://app.example/cb?error=server_error&error_description=the%20server%20could%20not%20handle%20the%20request&state=st%201")
    );
}

#[test]
fn a_grant_that_expires_at_once_cannot_be_fulfilled() {
    let mut server = make_server(0);
    let a = server.authorize_with(&request(), Some(SESSION), 1000, 5, b"c0de".to_vec());
    assert_eq!(
        a,
        redirect("https://app.example/cb?error=invalid_grant&error_description=the%20grant%20is%20not%20valid%2C%20has%20expired%20or%20was%20used&state=st%201")
    );
    assert_eq!(server.grants.lookup(5).unwrap().status, GrantStatus::Pending);
}

#[test]
fn authorize_draws_identifier_and_code() {
    let mut server = make_server(600);
    let mut rng = StdRng::seed_from_u64(4);
    let a = server.authorize(&mut rng, &request(), Some(SESSION), 1000);
    let b = server.authorize(&mut rng, &request(), Some(SESSION), 1000);
    match (a, b) {
        (AuthorizationAnswer::Redirect(a), AuthorizationAnswer::Redirect(b)) => {
            let a = String::from_utf8(a).unwrap();
            assert!(a.starts_with("https://app.example/cb?code="));
            assert!(a.ends_with("&state=st%201"));
            assert_eq!(a.len(), "https://app.example/cb?code=".len() + 43 + "&state=st%201".len());
            assert_ne!(a.into_bytes(), b);
        }
        other => panic!("{:?}", other),
    }
}

#[test]
fn the_token_endpoint_exchanges_codes_and_refreshes() {
    let (mut server, _) = answer(|_| {});
    let set = server.token_with(&token_request(b"authorization_code"), 1100, material(0)).unwrap();
    assert_eq!(set.access_token, b"access-0".to_vec());
    assert_eq!(set.refresh_token, Some(b"refresh-0".to_vec()));
    assert_eq!(set.expires_in, 300);
    assert!(set.id_token.is_some());
    assert_eq!(
        server.token_with(&token_request(b"authorization_code"), 1101, material(1)).err(),
        Some(OAuthErrorCode::InvalidGrant)
    );
    let rotated = server.token_with(&token_request(b"refresh_token"), 1200, material(2)).unwrap();
    assert_eq!(rotated.refresh_token, Some(b"refresh-2".to_vec()));
    assert_eq!(
        server.token_with(&token_request(b"refresh_token"), 1300, material(3)).err(),
        Some(OAuthErrorCode::InvalidGrant)
    );
}

#[test]
fn the_token_endpoint_wants_its_parameters() {
    let (mut server, _) = answer(|_| {});
    let mut rq = token_request(b"authorization_code");
    rq.credentials = None;
    assert_eq!(server.token_with(&rq, 1100, material(0)).err(), Some(OAuthErrorCode::InvalidClient));
    let mut rq = token_request(b"authorization_code");
    rq.grant_type = None;
    assert_eq!(server.token_with(&rq, 1100, material(0)).err(), Some(OAuthErrorCode::InvalidRequest));
    let mut rq = token_request(b"authorization_code");
    rq.code = None;
    assert_eq!(server.token_with(&rq, 1100, material(0)).err(), Some(OAuthErrorCode::InvalidRequest));
    let mut rq = token_request(b"refresh_token");
    rq.refresh_token = None;
    assert_eq!(server.token_with(&rq, 1100, material(0)).err(), Some(OAuthErrorCode::InvalidRequest));
    for other in [&b"password"[..], b"client_credentials", b"", b"Authorization_Code"] {
        assert_eq!(
            server.token_with(&token_request(other), 1100, material(0)).err(),
            Some(OAuthErrorCode::UnsupportedGrantType)
        );
    }
    // none of this used the code up
    assert!(server.token_with(&token_request(b"authorization_code"), 1100, material(0)).is_ok());
}

#[test]
fn the_token_endpoint_wants_the_redirect_uri_of_the_grant() {
    let (mut server, _) = answer(|_| {});
    let mut rq = token_request(b"authorization_code");
    rq.redirect_uri = Some(b"https://app.example/other".to_vec());
    assert_eq!(server.token_with(&rq, 1100, material(0)).err(), Some(OAuthErrorCode::InvalidGrant));
    assert_eq!(server.grants.lookup(5).unwrap().status, GrantStatus::Fulfilled);
    // a request that names none is taken at its word
    rq.redirect_uri = None;
    assert!(server.token_with(&rq, 1100, material(0)).is_ok());
}

#[test]
fn the_token_endpoint_passes_failures_on_by_their_codes() {
    let (mut server, _) = answer(|_| {});
    let mut rq = token_request(b"authorization_code");
    rq.credentials = Some(ClientCredentials { client_id: CLIENT, client_secret: Some(b"guess".to_vec()) });
    assert_eq!(server.token_with(&rq, 1100, material(0)).err(), Some(OAuthErrorCode::InvalidClient));
    let mut rq = token_request(b"authorization_code");
    rq.code_verifier = None;
    assert_eq!(server.token_with(&rq, 1100, material(0)).err(), Some(OAuthErrorCode::InvalidGrant));
    let mut rng = StdRng::seed_from_u64(8);
    assert!(server.token(&mut rng, &token_request(b"authorization_code"), 1100).is_ok());
    assert_eq!(
        server.token(&mut rng, &token_request(b"authorization_code"), 1100).err(),
        Some(OAuthErrorCode::InvalidGrant)
    );
}

#[test]
fn errors_have_a_status_and_a_description() {
    assert_eq!(status(OAuthErrorCode::InvalidClient), 401);
    assert_eq!(status(OAuthErrorCode::ServerError), 500);
    for code in [
        OAuthErrorCode::InvalidRequest,
        OAuthErrorCode::InvalidGrant,
        OAuthErrorCode::UnauthorizedClient,
        OAuthErrorCode::UnsupportedGrantType,
        OAuthErrorCode::InvalidScope,
        OAuthErrorCode::AccessDenied,
    ] {
        assert_eq!(status(code), 400);
        assert!(!description(code).is_empty());
    }
    assert_eq!(
        description(OAuthErrorCode::UnsupportedGrantType),
        b"the grant type is not supported".to_vec()
    );
    assert_eq!(
        description(OAuthErrorCode::InvalidGrant),
        b"the grant is not valid, has expired or was used".to_vec()
    );
}

use oidc_core::client::{Client, ClientCredentials};
use oidc_core::grant::{AuthorizationGrant, GrantError, GrantStatus};
use oidc_core::iana::{
    GrantType, JsonWebSignatureAlg, OAuthClientAuthenticationMethod, PkceCodeChallengeMethod,
    ResponseType,
};
use oidc_core::ident::id_text;
use oidc_core::jose::jwk::JsonWebKeySet;
use oidc_core::jose::jwt::JoseEngine;
use oidc_core::pkce::{compute_challenge, PkceChallenge};
use oidc_core::scope::Scope;
use oidc_core::server::{
    draw_material, offline_access_token, openid_token, AuthorizationServer, ServerConfig, TokenSet,
};
use oidc_core::session::{Account, Attribute, Session};
use oidc_core::token::TokenMaterial;
use rand::rngs::StdRng;
use rand::SeedableRng;

const ISSUER: &[u8] = b"https://auth.example/";
const REDIRECT: &[u8] = b"https://app.example/cb";
const VERIFIER: &[u8] = b"dBjftJeZ4CVP-mB92K27uhbUJU1p1r_wW1gFWFOEjXk";
const GRANT_TTL: u64 = 600;
const ACCESS_TTL: u64 = 300;
const CLIENT: u128 = 0x0188_0000_0000_0000_0000_0000_0000_0001;
const ACCOUNT: u128 = 0x0188_0000_0000_0000_0000_0000_0000_0002;
const SESSION: u128 = 0x0188_0000_0000_0000_0000_0000_0000_0003;

fn server() -> AuthorizationServer {
    let keys = JsonWebKeySet::new()
        .rotate(b"k1".to_vec(), JsonWebSignatureAlg::Hs256, b"signing-secret".to_vec())
        .unwrap();
    let config = ServerConfig {
        issuer: ISSUER.to_vec(),
        signing_alg: JsonWebSignatureAlg::Hs256,
        id_token_ttl: 3600,
    };
    let mut server = AuthorizationServer::new(config, JoseEngine::new(keys), GRANT_TTL, ACCESS_TTL);
    assert!(server.clients.register(Client {
        id: CLIENT,
        redirect_uris: vec![REDIRECT.to_vec()],
        grant_types: vec![GrantType::AuthorizationCode, GrantType::RefreshToken],
        token_endpoint_auth_method: OAuthClientAuthenticationMethod::ClientSecretPost,
        client_secret: Some(b"s3cret".to_vec()),
        scope: Scope::parse(b"openid email offline_access").unwrap(),
    }));
    assert!(server.directory.add_account(Account {
        id: ACCOUNT,
        attributes: vec![Attribute { name: b"email".to_vec(), value: b"alice@example.org".to_vec() }],
        created_at: 900,
    }));
    assert!(server.directory.add_session(Session {
        id: SESSION,
        account_id: ACCOUNT,
        authenticated_at: 950,
    }));
    server
}

fn credentials() -> ClientCredentials {
    ClientCredentials { client_id: CLIENT, client_secret: Some(b"s3cret".to_vec()) }
}

fn authorize(server: &mut AuthorizationServer, rng: &mut StdRng, scope: &[u8]) -> AuthorizationGrant {
    let client = server.clients.lookup(CLIENT).unwrap();
    server
        .grants
        .create(
            rng,
            1000,
            client,
            REDIRECT.to_vec(),
            Scope::parse(scope).unwrap(),
            ResponseType::Code,
            Some(PkceChallenge {
                challenge: compute_challenge(PkceCodeChallengeMethod::S256, VERIFIER),
                method: PkceCodeChallengeMethod::S256,
            }),
            Some(b"state-1".to_vec()),
            Some(b"nonce-1".to_vec()),
        )
        .unwrap()
}

fn material(n: u128) -> TokenMaterial {
    TokenMaterial {
        access_id: 1000 + n,
        access_token: format!("access-{}", n).into_bytes(),
        refresh_id: 2000 + n,
        refresh_token: format!("refresh-{}", n).into_bytes(),
        family_id: 3000 + n,
    }
}

fn through_exchange(scope: &[u8]) -> (AuthorizationServer, TokenSet, Vec<u8>) {
    let mut rng = StdRng::seed_from_u64(9);
    let mut server = server();
    let grant = authorize(&mut server, &mut rng, scope);
    server.fulfill(grant.id, SESSION, 1010).unwrap();
    let code = grant.code.unwrap();
    let set = server
        .exchange(&mut rng, &code, &credentials(), Some(VERIFIER), 1020)
        .unwrap();
    (server, set, code)
}

#[test]
fn authorize_with_another_redirect_uri_fails_with_invalid_request() {
    let mut server = server();
    let mut rng = StdRng::seed_from_u64(9);
    let client = server.clients.lookup(CLIENT).unwrap();
    let r = server.grants.create(
        &mut rng,
        1000,
        client,
        b"https://app.example/other".to_vec(),
        Scope::parse(b"openid").unwrap(),
        ResponseType::Code,
        None,
        None,
        None,
    );
    let e = r.err().unwrap();
    assert_eq!(e, GrantError::InvalidRequest);
    assert_eq!(e.code().name(), b"invalid_request".to_vec());
}

#[test]
fn authorize_fulfill_exchange_returns_tokens() {
    let (server, set, _) = through_exchange(b"openid offline_access");
    assert_eq!(set.expires_in, ACCESS_TTL);
    assert_eq!(set.token_type(), b"Bearer".to_vec());
    // the access token is good for the configured time
    let access = server.tokens.introspect(&set.access_token, 1020).unwrap();
    assert_eq!(access.expires_at, 1020 + ACCESS_TTL);
    assert_eq!(access.session, SESSION);
    assert_eq!(access.client_id, CLIENT);
    assert!(server.tokens.introspect(&set.access_token, 1020 + ACCESS_TTL - 1).is_some());
    assert!(server.tokens.introspect(&set.access_token, 1020 + ACCESS_TTL).is_none());
    // offline access was asked for: a refresh token of generation 0
    let refresh = server.tokens.lookup_refresh(set.refresh_token.as_ref().unwrap()).unwrap();
    assert_eq!(refresh.generation, 0);
    assert_eq!(access.family, Some(refresh.family));
    assert_eq!(refresh.session, SESSION);
}

#[test]
fn without_offline_access_there_is_no_refresh_token() {
    let (_, set, _) = through_exchange(b"openid email");
    assert_eq!(set.refresh_token, None);
    assert!(set.id_token.is_some());
}

#[test]
fn without_openid_there_is_no_id_token() {
    let (_, set, _) = through_exchange(b"email offline_access");
    assert_eq!(set.id_token, None);
    assert!(set.refresh_token.is_some());
}

#[test]
fn the_id_token_verifies_and_names_the_user() {
    let (server, set, _) = through_exchange(b"openid");
    let audience = id_text(CLIENT);
    let claims = server
        .engine
        .verify(
            set.id_token.as_ref().unwrap(),
            ISSUER,
            &audience,
            1020,
            Some(b"nonce-1"),
            Some(JsonWebSignatureAlg::Hs256),
        )
        .unwrap();
    assert_eq!(claims.get_str(b"iss"), Some(&ISSUER.to_vec()));
    assert_eq!(claims.get_str(b"sub"), Some(&id_text(ACCOUNT)));
    assert_eq!(claims.get_str(b"aud"), Some(&audience));
    assert_eq!(claims.get_str(b"nonce"), Some(&b"nonce-1".to_vec()));
    assert_eq!(claims.get_num(b"iat"), Some(1020));
    assert_eq!(claims.get_num(b"exp"), Some(1020 + 3600));
    assert_eq!(claims.get_num(b"auth_time"), Some(950));
}

#[test]
fn a_second_exchange_of_the_code_fails_with_invalid_grant() {
    let (mut server, _, code) = through_exchange(b"openid offline_access");
    let mut rng = StdRng::seed_from_u64(10);
    for now in [1020, 1021, 9999] {
        let e = server
            .exchange(&mut rng, &code, &credentials(), Some(VERIFIER), now)
            .err()
            .unwrap();
        assert_eq!(e, GrantError::InvalidGrant);
        assert_eq!(e.code().name(), b"invalid_grant".to_vec());
    }
}

#[test]
fn an_exchange_that_fails_uses_nothing_up() {
    let mut rng = StdRng::seed_from_u64(9);
    let mut server = server();
    let grant = authorize(&mut server, &mut rng, b"openid");
    server.fulfill(grant.id, SESSION, 1010).unwrap();
    let code = grant.code.unwrap();
    let wrong = ClientCredentials { client_id: CLIENT, client_secret: Some(b"guess".to_vec()) };
    assert_eq!(
        server.exchange(&mut rng, &code, &wrong, Some(VERIFIER), 1020).err(),
        Some(GrantError::InvalidClient)
    );
    assert_eq!(
        server.exchange(&mut rng, &code, &credentials(), Some(b"wrong"), 1020).err(),
        Some(GrantError::InvalidGrant)
    );
    assert_eq!(
        server.exchange(&mut rng, &code, &credentials(), None, 1020).err(),
        Some(GrantError::InvalidGrant)
    );
    assert_eq!(server.grants.lookup(grant.id).unwrap().status, GrantStatus::Fulfilled);
    assert!(server.exchange(&mut rng, &code, &credentials(), Some(VERIFIER), 1020).is_ok());
}

#[test]
fn an_exchange_that_cannot_issue_leaves_the_grant_fulfilled() {
    let mut rng = StdRng::seed_from_u64(9);
    let mut server = server();
    let first = authorize(&mut server, &mut rng, b"offline_access");
    let second = authorize(&mut server, &mut rng, b"offline_access");
    server.fulfill(first.id, SESSION, 1010).unwrap();
    server.fulfill(second.id, SESSION, 1010).unwrap();
    let set = server
        .exchange_with(&first.code.unwrap(), &credentials(), Some(VERIFIER), 1020, material(0))
        .unwrap();
    assert_eq!(set.access_token, b"access-0".to_vec());
    assert_eq!(set.refresh_token, Some(b"refresh-0".to_vec()));
    // the same texts drawn again
    let code = second.code.unwrap();
    assert_eq!(
        server.exchange_with(&code, &credentials(), Some(VERIFIER), 1020, material(0)).err(),
        Some(GrantError::ServerError)
    );
    assert_eq!(server.grants.lookup(second.id).unwrap().status, GrantStatus::Fulfilled);
    assert!(server
        .exchange_with(&code, &credentials(), Some(VERIFIER), 1020, material(1))
        .is_ok());
}

#[test]
fn an_exchange_without_signing_key_is_a_server_error() {
    let mut rng = StdRng::seed_from_u64(9);
    let mut server = server();
    server.engine.replace_keys(JsonWebKeySet::new());
    let grant = authorize(&mut server, &mut rng, b"openid");
    server.fulfill(grant.id, SESSION, 1010).unwrap();
    let code = grant.code.unwrap();
    assert_eq!(
        server.exchange(&mut rng, &code, &credentials(), Some(VERIFIER), 1020).err(),
        Some(GrantError::ServerError)
    );
    assert_eq!(server.grants.lookup(grant.id).unwrap().status, GrantStatus::Fulfilled);
}

#[test]
fn fulfill_wants_a_session_of_the_directory() {
    let mut rng = StdRng::seed_from_u64(9);
    let mut server = server();
    let grant = authorize(&mut server, &mut rng, b"openid");
    assert_eq!(server.fulfill(grant.id, 12345, 1010), Err(GrantError::InvalidRequest));
    assert_eq!(server.grants.lookup(grant.id).unwrap().status, GrantStatus::Pending);
    assert_eq!(server.fulfill(grant.id, SESSION, 1010), Ok(()));
    assert_eq!(server.fulfill(grant.id, SESSION, 1011), Err(GrantError::GrantNotPending));
}

#[test]
fn refresh_rotates_and_replay_revokes() {
    let (mut server, set, _) = through_exchange(b"openid offline_access");
    let mut rng = StdRng::seed_from_u64(11);
    let first = set.refresh_token.unwrap();
    let rotated = server.refresh(&mut rng, &first, &credentials(), 1100).unwrap();
    assert_eq!(rotated.expires_in, ACCESS_TTL);
    assert_eq!(rotated.id_token, None);
    let second = rotated.refresh_token.unwrap();
    assert_ne!(second, first);
    assert_eq!(server.tokens.lookup_refresh(&second).unwrap().generation, 1);
    assert!(server.tokens.introspect(&rotated.access_token, 1100).is_some());
    // the stale token is replayed
    assert_eq!(
        server.refresh(&mut rng, &first, &credentials(), 1200).err(),
        Some(GrantError::InvalidGrant)
    );
    assert_eq!(
        server.refresh(&mut rng, &second, &credentials(), 1201).err(),
        Some(GrantError::InvalidGrant)
    );
    assert!(server.tokens.introspect(&rotated.access_token, 1201).is_none());
    assert!(server.tokens.introspect(&set.access_token, 1201).is_none());
}

#[test]
fn refresh_checks_the_credentials() {
    let (mut server, set, _) = through_exchange(b"offline_access");
    let mut rng = StdRng::seed_from_u64(11);
    let token = set.refresh_token.unwrap();
    let wrong = ClientCredentials { client_id: CLIENT, client_secret: Some(b"guess".to_vec()) };
    let unknown = ClientCredentials { client_id: 5, client_secret: Some(b"s3cret".to_vec()) };
    assert_eq!(
        server.refresh(&mut rng, &token, &wrong, 1100).err(),
        Some(GrantError::InvalidClient)
    );
    assert_eq!(
        server.refresh(&mut rng, &token, &unknown, 1100).err(),
        Some(GrantError::InvalidClient)
    );
    assert_eq!(
        server.refresh_with(b"no-such-token", &credentials(), 1100, material(5)).err(),
        Some(GrantError::InvalidGrant)
    );
    assert!(server.refresh(&mut rng, &token, &credentials(), 1100).is_ok());
}

#[test]
fn userinfo_gives_the_attributes_of_the_account() {
    let (mut server, set, _) = through_exchange(b"openid");
    assert_eq!(
        server.userinfo(&set.access_token, 1100),
        Some(vec![Attribute { name: b"email".to_vec(), value: b"alice@example.org".to_vec() }])
    );
    assert_eq!(server.userinfo(&set.access_token, 1020 + ACCESS_TTL), None);
    assert_eq!(server.userinfo(b"unknown", 1100), None);
    server.tokens.revoke(&set.access_token);
    assert_eq!(server.userinfo(&set.access_token, 1100), None);
}

#[test]
fn drawn_material_is_fresh() {
    let mut rng = StdRng::seed_from_u64(1);
    let a = draw_material(&mut rng, 1000);
    let b = draw_material(&mut rng, 1000);
    assert_eq!(a.access_token.len(), 43);
    assert_eq!(a.refresh_token.len(), 43);
    assert_ne!(a.access_token, a.refresh_token);
    assert_ne!(a.access_token, b.access_token);
    assert_ne!(a.family_id, b.family_id);
    assert_ne!(a.access_id, a.refresh_id);
    assert_eq!(a.access_id >> 80, 1_000_000);
}

#[test]
fn scope_tokens_with_a_meaning() {
    assert_eq!(offline_access_token(), b"offline_access".to_vec());
    assert_eq!(openid_token(), b"openid".to_vec());
}

use oidc_core::client::{Client, ClientCredentials, ClientStore};
use oidc_core::grant::{
    deadline, AuthorizationGrant, EffectiveStatus, GrantError, GrantStatus, GrantStore,
};
use oidc_core::iana::{
    GrantType, OAuthClientAuthenticationMethod, OAuthErrorCode, PkceCodeChallengeMethod,
    ResponseType,
};
use oidc_core::ident::timestamp_ms;
use oidc_core::pkce::{compute_challenge, PkceChallenge};
use oidc_core::scope::Scope;
use rand::rngs::StdRng;
use rand::SeedableRng;

const REDIRECT: &[u8] = b"https://app.example/cb";
const VERIFIER: &[u8] = b"dBjftJeZ4CVP-mB92K27uhbUJU1p1r_wW1gFWFOEjXk";
const TTL: u64 = 600;

fn client(id: u128) -> Client {
    Client {
        id,
        redirect_uris: vec![REDIRECT.to_vec(), b"https://app.example/other".to_vec()],
        grant_types: vec![GrantType::AuthorizationCode, GrantType::RefreshToken],
        token_endpoint_auth_method: OAuthClientAuthenticationMethod::ClientSecretBasic,
        client_secret: Some(b"s3cret".to_vec()),
        scope: Scope::parse(b"openid email offline_access").unwrap(),
    }
}

fn clients() -> ClientStore {
    let mut store = ClientStore::new();
    assert!(store.register(client(1)));
    assert!(store.register(client(2)));
    store
}

fn credentials(id: u128) -> ClientCredentials {
    ClientCredentials { client_id: id, client_secret: Some(b"s3cret".to_vec()) }
}

fn challenge() -> Option<PkceChallenge> {
    Some(PkceChallenge {
        challenge: compute_challenge(PkceCodeChallengeMethod::S256, VERIFIER),
        method: PkceCodeChallengeMethod::S256,
    })
}

fn create(
    store: &mut GrantStore,
    id: u128,
    code: &[u8],
    now: u64,
    pkce: Option<PkceChallenge>,
) -> Result<AuthorizationGrant, GrantError> {
    store.create_with(
        id,
        code.to_vec(),
        now,
        &client(1),
        REDIRECT.to_vec(),
        Scope::parse(b"openid email").unwrap(),
        ResponseType::Code,
        pkce,
        Some(b"xyz".to_vec()),
        Some(b"n-1".to_vec()),
    )
}

fn fulfilled(pkce: Option<PkceChallenge>) -> GrantStore {
    let mut store = GrantStore::new(TTL);
    create(&mut store, 10, b"code-10", 1000, pkce).unwrap();
    store.fulfill(10, 77, 1010).unwrap();
    store
}

#[test]
fn create_with_a_redirect_uri_that_is_not_registered_fails() {
    let mut store = GrantStore::new(TTL);
    let r = store.create_with(
        10,
        b"code".to_vec(),
        1000,
        &client(1),
        b"https://evil.example/cb".to_vec(),
        Scope::parse(b"openid").unwrap(),
        ResponseType::Code,
        None,
        None,
        None,
    );
    assert_eq!(r.as_ref().err(), Some(&GrantError::InvalidRequest));
    assert_eq!(r.err().unwrap().code(), OAuthErrorCode::InvalidRequest);
    assert_eq!(OAuthErrorCode::InvalidRequest.name(), b"invalid_request".to_vec());
    assert!(store.lookup(10).is_none());
}

#[test]
fn redirect_uris_are_compared_exactly() {
    let mut store = GrantStore::new(TTL);
    for uri in [&b"https://app.example/cb/"[..], b"https://app.example/c", b"HTTPS://app.example/cb", b""] {
        let r = store.create_with(
            10,
            b"code".to_vec(),
            1000,
            &client(1),
            uri.to_vec(),
            Scope::parse(b"openid").unwrap(),
            ResponseType::Code,
            None,
            None,
            None,
        );
        assert_eq!(r.err(), Some(GrantError::InvalidRequest));
    }
}

#[test]
fn create_with_a_scope_beyond_the_client_s_fails() {
    let mut store = GrantStore::new(TTL);
    let r = store.create_with(
        10,
        b"code".to_vec(),
        1000,
        &client(1),
        REDIRECT.to_vec(),
        Scope::parse(b"openid admin").unwrap(),
        ResponseType::Code,
        None,
        None,
        None,
    );
    assert_eq!(r.err(), Some(GrantError::InvalidRequest));
}

#[test]
fn create_returns_a_pending_grant() {
    let mut store = GrantStore::new(TTL);
    let grant = create(&mut store, 10, b"code-10", 1000, challenge()).unwrap();
    assert_eq!(grant.id, 10);
    assert_eq!(grant.client_id, 1);
    assert_eq!(grant.status, GrantStatus::Pending);
    assert_eq!(grant.code, Some(b"code-10".to_vec()));
    assert_eq!(grant.session, None);
    assert_eq!(grant.created_at, 1000);
    assert_eq!(grant.expires_at, 1600);
    assert_eq!(grant.redirect_uri, REDIRECT.to_vec());
    assert_eq!(grant.scope.to_bytes(), b"openid email".to_vec());
    assert_eq!(grant.state, Some(b"xyz".to_vec()));
    assert_eq!(grant.nonce, Some(b"n-1".to_vec()));
    assert_eq!(grant.pkce, challenge());
    let stored = store.lookup(10).unwrap();
    assert_eq!(stored.code, grant.code);
    assert_eq!(stored.status_at(1599), EffectiveStatus::Pending);
    assert_eq!(stored.status_at(1600), EffectiveStatus::Expired);
}

#[test]
fn create_refuses_an_identifier_or_a_code_that_is_in_use() {
    let mut store = GrantStore::new(TTL);
    create(&mut store, 10, b"code-10", 1000, None).unwrap();
    assert_eq!(create(&mut store, 10, b"code-11", 1000, None).err(), Some(GrantError::ServerError));
    assert_eq!(create(&mut store, 11, b"code-10", 1000, None).err(), Some(GrantError::ServerError));
    assert!(create(&mut store, 11, b"code-11", 1000, None).is_ok());
    assert_eq!(GrantError::ServerError.code(), OAuthErrorCode::ServerError);
}

#[test]
fn create_draws_an_identifier_and_a_code() {
    let mut store = GrantStore::new(TTL);
    let mut rng = StdRng::seed_from_u64(5);
    let mut make = |store: &mut GrantStore| {
        store
            .create(
                &mut rng,
                1_700_000_000,
                &client(1),
                REDIRECT.to_vec(),
                Scope::parse(b"openid").unwrap(),
                ResponseType::Code,
                None,
                None,
                None,
            )
            .unwrap()
    };
    let a = make(&mut store);
    let b = make(&mut store);
    assert_eq!(timestamp_ms(a.id), 1_700_000_000_000);
    assert_ne!(a.id, b.id);
    let code_a = a.code.unwrap();
    let code_b = b.code.unwrap();
    // 32 random bytes as unpadded base64url
    assert_eq!(code_a.len(), 43);
    assert_ne!(code_a, code_b);
    assert!(code_a.iter().all(|c| c.is_ascii_alphanumeric() || *c == b'-' || *c == b'_'));
    assert_eq!(store.lookup(a.id).unwrap().code, Some(code_a));
}

#[test]
fn create_refuses_an_invalid_request_whatever_is_drawn() {
    let mut store = GrantStore::new(TTL);
    let mut rng = StdRng::seed_from_u64(5);
    let r = store.create(
        &mut rng,
        1000,
        &client(1),
        b"https://evil.example/cb".to_vec(),
        Scope::parse(b"openid").unwrap(),
        ResponseType::Code,
        None,
        None,
        None,
    );
    assert_eq!(r.err(), Some(GrantError::InvalidRequest));
}

#[test]
fn fulfill_attaches_the_session() {
    let store = fulfilled(None);
    let grant = store.lookup(10).unwrap();
    assert_eq!(grant.status, GrantStatus::Fulfilled);
    assert_eq!(grant.session, Some(77));
    assert_eq!(grant.code, Some(b"code-10".to_vec()));
}

#[test]
fn fulfill_wants_a_pending_grant() {
    let mut store = fulfilled(None);
    assert_eq!(store.fulfill(10, 78, 1020), Err(GrantError::GrantNotPending));
    assert_eq!(store.lookup(10).unwrap().session, Some(77));
    assert_eq!(store.fulfill(99, 78, 1020), Err(GrantError::GrantNotPending));
    create(&mut store, 11, b"code-11", 1000, None).unwrap();
    assert_eq!(store.fulfill(11, 78, 1600), Err(GrantError::GrantNotPending));
    assert_eq!(store.fulfill(11, 78, 1599), Ok(()));
    create(&mut store, 12, b"code-12", 1000, None).unwrap();
    store.cancel(12, 1001).unwrap();
    assert_eq!(store.fulfill(12, 78, 1002), Err(GrantError::GrantNotPending));
    assert_eq!(GrantError::GrantNotPending.code(), OAuthErrorCode::InvalidGrant);
}

#[test]
fn cancel_ends_a_pending_grant() {
    let mut store = GrantStore::new(TTL);
    create(&mut store, 10, b"code-10", 1000, None).unwrap();
    assert_eq!(store.cancel(10, 1001), Ok(()));
    let grant = store.lookup(10).unwrap();
    assert_eq!(grant.status, GrantStatus::Cancelled);
    assert_eq!(grant.code, None);
    assert_eq!(grant.status_at(5000), EffectiveStatus::Cancelled);
    assert_eq!(store.cancel(10, 1002), Err(GrantError::GrantNotPending));
    assert_eq!(store.cancel(11, 1002), Err(GrantError::GrantNotPending));
    // the code of a cancelled grant is gone
    assert_eq!(
        store.exchange(&clients(), b"code-10", &credentials(1), None, 1003).err(),
        Some(GrantError::InvalidGrant)
    );
}

#[test]
fn cancel_wants_a_pending_grant() {
    let mut store = fulfilled(None);
    assert_eq!(store.cancel(10, 1020), Err(GrantError::GrantNotPending));
    create(&mut store, 11, b"code-11", 1000, None).unwrap();
    assert_eq!(store.cancel(11, 1600), Err(GrantError::GrantNotPending));
}

#[test]
fn exchange_succeeds_once() {
    let mut store = fulfilled(challenge());
    let clients = clients();
    let grant = store
        .exchange(&clients, b"code-10", &credentials(1), Some(VERIFIER), 1100)
        .unwrap();
    assert_eq!(grant.id, 10);
    assert_eq!(grant.status, GrantStatus::Exchanged);
    assert_eq!(grant.code, None);
    assert_eq!(grant.session, Some(77));
    let stored = store.lookup(10).unwrap();
    assert_eq!(stored.status, GrantStatus::Exchanged);
    assert_eq!(stored.code, None);
    // a second exchange with the same code fails, whenever and by whomever
    for now in [1100, 1101, 5000] {
        for who in [1u128, 2] {
            assert_eq!(
                store.exchange(&clients, b"code-10", &credentials(who), Some(VERIFIER), now).err(),
                Some(GrantError::InvalidGrant)
            );
        }
    }
    assert_eq!(GrantError::InvalidGrant.code(), OAuthErrorCode::InvalidGrant);
    assert_eq!(OAuthErrorCode::InvalidGrant.name(), b"invalid_grant".to_vec());
}

#[test]
fn exchange_wants_a_known_code() {
    let mut store = fulfilled(None);
    assert_eq!(
        store.exchange(&clients(), b"code-11", &credentials(1), None, 1100).err(),
        Some(GrantError::InvalidGrant)
    );
    assert_eq!(
        store.exchange(&clients(), b"", &credentials(1), None, 1100).err(),
        Some(GrantError::InvalidGrant)
    );
    assert_eq!(store.lookup(10).unwrap().status, GrantStatus::Fulfilled);
}

#[test]
fn exchange_wants_a_fulfilled_grant() {
    let mut store = GrantStore::new(TTL);
    create(&mut store, 10, b"code-10", 1000, None).unwrap();
    assert_eq!(
        store.exchange(&clients(), b"code-10", &credentials(1), None, 1100).err(),
        Some(GrantError::InvalidGrant)
    );
    assert_eq!(store.lookup(10).unwrap().status, GrantStatus::Pending);
}

#[test]
fn exchange_refuses_an_expired_grant() {
    let mut store = fulfilled(None);
    assert_eq!(
        store.exchange(&clients(), b"code-10", &credentials(1), None, 1600).err(),
        Some(GrantError::InvalidGrant)
    );
    assert_eq!(store.lookup(10).unwrap().status_at(1600), EffectiveStatus::Expired);
    // one second earlier it is still good
    assert!(store.exchange(&clients(), b"code-10", &credentials(1), None, 1599).is_ok());
}

#[test]
fn exchange_checks_the_credentials_of_the_owning_client() {
    let mut store = fulfilled(None);
    let clients = clients();
    let wrong_secret = ClientCredentials { client_id: 1, client_secret: Some(b"guess".to_vec()) };
    let no_secret = ClientCredentials { client_id: 1, client_secret: None };
    for bad in [&wrong_secret, &no_secret, &credentials(2), &credentials(3)] {
        assert_eq!(
            store.exchange(&clients, b"code-10", bad, None, 1100).err(),
            Some(GrantError::InvalidClient)
        );
    }
    assert_eq!(GrantError::InvalidClient.code(), OAuthErrorCode::InvalidClient);
    // nothing was used up
    assert!(store.exchange(&clients, b"code-10", &credentials(1), None, 1100).is_ok());
}

#[test]
fn exchange_fails_where_the_owning_client_is_gone() {
    let mut store = fulfilled(None);
    assert_eq!(
        store.exchange(&ClientStore::new(), b"code-10", &credentials(1), None, 1100).err(),
        Some(GrantError::InvalidClient)
    );
}

#[test]
fn exchange_with_a_wrong_verifier_fails() {
    let mut store = fulfilled(challenge());
    let clients = clients();
    for bad in [
        Some(&b"dBjftJeZ4CVP-mB92K27uhbUJU1p1r_wW1gFWFOEjXl"[..]),
        Some(&b""[..]),
        Some(&b"E9Melhoa2OwvFrEMTJguCHaoeK1t8URWbuGJSstw-cM"[..]),
        None,
    ] {
        assert_eq!(
            store.exchange(&clients, b"code-10", &credentials(1), bad, 1100).err(),
            Some(GrantError::InvalidGrant)
        );
    }
    // nothing was used up
    assert!(store.exchange(&clients, b"code-10", &credentials(1), Some(VERIFIER), 1100).is_ok());
}

#[test]
fn exchange_without_challenge_needs_no_verifier() {
    let mut store = fulfilled(None);
    assert!(store
        .exchange(&clients(), b"code-10", &credentials(1), Some(b"anything"), 1100)
        .is_ok());
}

#[test]
fn exchange_of_one_code_leaves_the_others() {
    let mut store = fulfilled(None);
    create(&mut store, 11, b"code-11", 1000, None).unwrap();
    store.fulfill(11, 78, 1010).unwrap();
    assert!(store.exchange(&clients(), b"code-10", &credentials(1), None, 1100).is_ok());
    let other = store.exchange(&clients(), b"code-11", &credentials(1), None, 1100).unwrap();
    assert_eq!(other.id, 11);
    assert_eq!(other.session, Some(78));
}

#[test]
fn deadline_saturates() {
    assert_eq!(deadline(1000, 600), 1600);
    assert_eq!(deadline(0, 0), 0);
    assert_eq!(deadline(u64::MAX, 1), u64::MAX);
    assert_eq!(deadline(u64::MAX - 5, 5), u64::MAX);
    assert_eq!(deadline(5, u64::MAX), u64::MAX);
}

#[test]
fn client_credentials() {
    let c = client(1);
    assert!(c.verify_credentials(&credentials(1)));
    assert!(!c.verify_credentials(&credentials(2)));
    assert!(!c.verify_credentials(&ClientCredentials { client_id: 1, client_secret: None }));
    let mut public = client(3);
    public.token_endpoint_auth_method = OAuthClientAuthenticationMethod::NoAuthentication;
    public.client_secret = None;
    assert!(public.verify_credentials(&ClientCredentials { client_id: 3, client_secret: None }));
    assert!(!public.verify_credentials(&ClientCredentials { client_id: 4, client_secret: None }));
    let mut jwt = client(5);
    jwt.token_endpoint_auth_method = OAuthClientAuthenticationMethod::PrivateKeyJwt;
    assert!(!jwt.verify_credentials(&credentials(5)));
    let mut unset = client(6);
    unset.client_secret = None;
    assert!(!unset.verify_credentials(&ClientCredentials { client_id: 6, client_secret: None }));
}

#[test]
fn client_registry() {
    let mut store = clients();
    assert!(!store.register(client(1)));
    assert_eq!(store.lookup(2).unwrap().id, 2);
    assert!(store.lookup(3).is_none());
    let c = client(1);
    assert!(c.may_use(GrantType::RefreshToken));
    assert!(c.has_redirect_uri(REDIRECT));
    assert!(!c.has_redirect_uri(b"https://app.example/"));
    assert!(c.may_request(&Scope::parse(b"email").unwrap()));
    assert!(!c.may_request(&Scope::parse(b"email phone").unwrap()));
    let mut narrow = client(7);
    narrow.grant_types = vec![GrantType::AuthorizationCode];
    assert!(!narrow.may_use(GrantType::RefreshToken));
    assert_eq!(narrow.clone().grant_types, vec![GrantType::AuthorizationCode]);
}

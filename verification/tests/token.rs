use oidc_core::scope::Scope;
use oidc_core::token::{TokenError, TokenMaterial, TokenStore};

const TTL: u64 = 300;

fn material(n: u128) -> TokenMaterial {
    TokenMaterial {
        access_id: 1000 + n,
        access_token: format!("access-{}", n).into_bytes(),
        refresh_id: 2000 + n,
        refresh_token: format!("refresh-{}", n).into_bytes(),
        family_id: 3000 + n,
    }
}

fn scope() -> Scope {
    Scope::parse(b"openid offline_access").unwrap()
}

fn issued() -> TokenStore {
    let mut store = TokenStore::new(TTL);
    store.issue_with(77, 1, &scope(), true, 1000, material(0)).unwrap();
    store
}

#[test]
fn issue_makes_an_access_token_that_expires() {
    let mut store = TokenStore::new(TTL);
    let (access, refresh) = store.issue_with(77, 1, &scope(), false, 1000, material(0)).unwrap();
    assert!(refresh.is_none());
    assert_eq!(access.token, b"access-0".to_vec());
    assert_eq!(access.id, 1000);
    assert_eq!(access.session, 77);
    assert_eq!(access.client_id, 1);
    assert_eq!(access.created_at, 1000);
    assert_eq!(access.expires_at, 1300);
    assert_eq!(access.family, None);
    assert!(!access.revoked);
    assert_eq!(store.access_ttl(), TTL);
    assert!(store.introspect(b"access-0", 1299).is_some());
    assert!(store.introspect(b"access-0", 1300).is_none());
    assert!(store.introspect(b"access-1", 1000).is_none());
    assert!(store.lookup_refresh(b"refresh-0").is_none());
}

#[test]
fn issue_with_offline_access_opens_a_family_at_generation_0() {
    let mut store = TokenStore::new(TTL);
    let (access, refresh) = store.issue_with(77, 1, &scope(), true, 1000, material(0)).unwrap();
    let refresh = refresh.unwrap();
    assert_eq!(refresh.token, b"refresh-0".to_vec());
    assert_eq!(refresh.family, 3000);
    assert_eq!(refresh.generation, 0);
    assert_eq!(refresh.session, 77);
    assert_eq!(refresh.client_id, 1);
    assert!(!refresh.consumed && !refresh.revoked);
    assert_eq!(access.family, Some(3000));
    assert_eq!(store.lookup_refresh(b"refresh-0").unwrap().generation, 0);
}

#[test]
fn issue_refuses_what_is_in_use() {
    let mut store = issued();
    let mut same_access = material(1);
    same_access.access_token = b"access-0".to_vec();
    assert_eq!(
        store.issue_with(78, 1, &scope(), false, 1000, same_access).err(),
        Some(TokenError::ServerError)
    );
    let mut same_refresh = material(1);
    same_refresh.refresh_token = b"refresh-0".to_vec();
    assert_eq!(
        store.issue_with(78, 1, &scope(), true, 1000, same_refresh).err(),
        Some(TokenError::ServerError)
    );
    let mut same_family = material(1);
    same_family.family_id = 3000;
    assert_eq!(
        store.issue_with(78, 1, &scope(), true, 1000, same_family).err(),
        Some(TokenError::ServerError)
    );
    // where no refresh token is made, its text and family do not matter
    let mut unused = material(1);
    unused.refresh_token = b"refresh-0".to_vec();
    unused.family_id = 3000;
    assert!(store.issue_with(78, 1, &scope(), false, 1000, unused).is_ok());
}

#[test]
fn refresh_rotates_to_the_next_generation() {
    let mut store = issued();
    let (access, refresh) = store.refresh_with(b"refresh-0", 1, 1100, material(1)).unwrap();
    assert_eq!(refresh.token, b"refresh-1".to_vec());
    assert_eq!(refresh.family, 3000);
    assert_eq!(refresh.generation, 1);
    assert_eq!(refresh.session, 77);
    assert_eq!(refresh.scope.to_bytes(), b"openid offline_access".to_vec());
    assert_eq!(access.token, b"access-1".to_vec());
    assert_eq!(access.family, Some(3000));
    assert_eq!(access.expires_at, 1400);
    let old = store.lookup_refresh(b"refresh-0").unwrap();
    assert!(old.consumed);
    assert!(!old.revoked);
    let (_, again) = store.refresh_with(b"refresh-1", 1, 1200, material(2)).unwrap();
    assert_eq!(again.generation, 2);
}

#[test]
fn replay_of_a_rotated_token_revokes_the_family() {
    let mut store = issued();
    store.refresh_with(b"refresh-0", 1, 1100, material(1)).unwrap();
    // the stale token comes back
    assert_eq!(
        store.refresh_with(b"refresh-0", 1, 1200, material(2)).err(),
        Some(TokenError::InvalidGrant)
    );
    // the whole family is unusable, the current generation included
    assert!(store.lookup_refresh(b"refresh-0").unwrap().revoked);
    assert!(store.lookup_refresh(b"refresh-1").unwrap().revoked);
    assert_eq!(
        store.refresh_with(b"refresh-1", 1, 1201, material(3)).err(),
        Some(TokenError::InvalidGrant)
    );
    assert!(store.introspect(b"access-0", 1201).is_none());
    assert!(store.introspect(b"access-1", 1201).is_none());
    // nothing was issued by the refused requests
    assert!(store.lookup_refresh(b"refresh-2").is_none());
    assert!(store.lookup_refresh(b"refresh-3").is_none());
}

#[test]
fn replay_leaves_other_families_alone() {
    let mut store = issued();
    store.issue_with(78, 1, &scope(), true, 1000, material(10)).unwrap();
    store.refresh_with(b"refresh-0", 1, 1100, material(1)).unwrap();
    assert!(store.refresh_with(b"refresh-0", 1, 1200, material(2)).is_err());
    assert!(store.introspect(b"access-10", 1200).is_some());
    assert!(store.refresh_with(b"refresh-10", 1, 1200, material(11)).is_ok());
}

#[test]
fn refresh_wants_a_known_token_of_the_client() {
    let mut store = issued();
    assert_eq!(
        store.refresh_with(b"refresh-9", 1, 1100, material(1)).err(),
        Some(TokenError::InvalidGrant)
    );
    assert_eq!(
        store.refresh_with(b"refresh-0", 2, 1100, material(1)).err(),
        Some(TokenError::InvalidGrant)
    );
    // an access token is no refresh token
    assert_eq!(
        store.refresh_with(b"access-0", 1, 1100, material(1)).err(),
        Some(TokenError::InvalidGrant)
    );
    // nothing changed: the token is still good
    assert!(!store.lookup_refresh(b"refresh-0").unwrap().revoked);
    assert!(store.refresh_with(b"refresh-0", 1, 1100, material(1)).is_ok());
}

#[test]
fn refresh_refuses_texts_that_are_in_use() {
    let mut store = issued();
    let mut same = material(1);
    same.refresh_token = b"refresh-0".to_vec();
    assert_eq!(
        store.refresh_with(b"refresh-0", 1, 1100, same).err(),
        Some(TokenError::ServerError)
    );
    let mut same_access = material(1);
    same_access.access_token = b"access-0".to_vec();
    assert_eq!(
        store.refresh_with(b"refresh-0", 1, 1100, same_access).err(),
        Some(TokenError::ServerError)
    );
    assert!(!store.lookup_refresh(b"refresh-0").unwrap().consumed);
}

#[test]
fn revoke_is_idempotent() {
    let mut store = issued();
    store.revoke(b"access-0");
    assert!(store.introspect(b"access-0", 1001).is_none());
    assert!(!store.lookup_refresh(b"refresh-0").unwrap().revoked);
    store.revoke(b"access-0");
    store.revoke(b"unknown");
    assert!(store.introspect(b"access-0", 1001).is_none());
    store.revoke(b"refresh-0");
    store.revoke(b"refresh-0");
    assert!(store.lookup_refresh(b"refresh-0").unwrap().revoked);
    assert_eq!(
        store.refresh_with(b"refresh-0", 1, 1100, material(1)).err(),
        Some(TokenError::InvalidGrant)
    );
}

#[test]
fn revoke_family_revokes_every_generation() {
    let mut store = issued();
    store.refresh_with(b"refresh-0", 1, 1100, material(1)).unwrap();
    store.issue_with(78, 1, &scope(), true, 1000, material(10)).unwrap();
    store.revoke_family(3000);
    store.revoke_family(3000);
    assert!(store.lookup_refresh(b"refresh-0").unwrap().revoked);
    assert!(store.lookup_refresh(b"refresh-1").unwrap().revoked);
    assert!(!store.lookup_refresh(b"refresh-10").unwrap().revoked);
    assert!(store.introspect(b"access-0", 1101).is_none());
    assert!(store.introspect(b"access-1", 1101).is_none());
    assert!(store.introspect(b"access-10", 1101).is_some());
    store.revoke_family(9999);
    assert!(store.introspect(b"access-10", 1101).is_some());
}

#[test]
fn an_access_token_without_family_survives_family_revocation() {
    let mut store = TokenStore::new(TTL);
    store.issue_with(77, 1, &scope(), false, 1000, material(0)).unwrap();
    store.revoke_family(3000);
    assert!(store.introspect(b"access-0", 1001).is_some());
}

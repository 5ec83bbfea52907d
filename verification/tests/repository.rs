use oidc_core::iana::{JsonWebSignatureAlg, OAuthClientAuthenticationMethod};
use oidc_core::ident::timestamp_ms;
use oidc_core::scope::Scope;
use oidc_core::storage::{DatabaseError, Pagination};
use oidc_core::upstream::provider::UpstreamOAuthProvider;
use oidc_core::upstream::repository::{
    MemUpstreamOAuthProviderRepository, UpstreamOAuthProviderFilter,
};
use rand::rngs::StdRng;
use rand::SeedableRng;

fn add(
    repo: &mut MemUpstreamOAuthProviderRepository,
    id: u128,
    issuer: &[u8],
) -> Result<UpstreamOAuthProvider, DatabaseError> {
    repo.add_with_id(
        id,
        100 + id as u64,
        issuer.to_vec(),
        Scope::parse(b"openid").unwrap(),
        OAuthClientAuthenticationMethod::ClientSecretPost,
        Some(JsonWebSignatureAlg::Hs256),
        b"client".to_vec(),
        None,
        Vec::new(),
    )
}

fn ids(providers: &[UpstreamOAuthProvider]) -> Vec<u128> {
    providers.iter().map(|p| p.id).collect()
}

fn filled() -> MemUpstreamOAuthProviderRepository {
    let mut repo = MemUpstreamOAuthProviderRepository::new();
    for id in [5u128, 1, 9, 3, 7] {
        let issuer: &[u8] = if id % 3 == 0 { b"https://b.example/" } else { b"https://a.example/" };
        add(&mut repo, id, issuer).unwrap();
    }
    repo
}

#[test]
fn add_then_lookup() {
    let mut repo = MemUpstreamOAuthProviderRepository::new();
    let added = add(&mut repo, 4, b"https://a.example/").unwrap();
    assert_eq!(added.id, 4);
    assert_eq!(added.created_at, 104);
    let found = repo.lookup(4).unwrap();
    assert_eq!(found.issuer, b"https://a.example/".to_vec());
    assert_eq!(found.created_at, 104);
    assert!(repo.lookup(5).is_none());
}

#[test]
fn add_refuses_an_identifier_that_is_taken() {
    let mut repo = MemUpstreamOAuthProviderRepository::new();
    add(&mut repo, 4, b"https://a.example/").unwrap();
    assert_eq!(
        add(&mut repo, 4, b"https://b.example/").err(),
        Some(DatabaseError::Duplicate)
    );
    assert_eq!(repo.lookup(4).unwrap().issuer, b"https://a.example/".to_vec());
    assert_eq!(repo.all().len(), 1);
}

#[test]
fn add_draws_an_identifier_that_holds_the_time() {
    let mut repo = MemUpstreamOAuthProviderRepository::new();
    let mut rng = StdRng::seed_from_u64(11);
    let p = repo
        .add(
            &mut rng,
            1_700_000_000_123,
            b"https://a.example/".to_vec(),
            Scope::parse(b"openid").unwrap(),
            OAuthClientAuthenticationMethod::NoAuthentication,
            None,
            b"client".to_vec(),
            None,
            Vec::new(),
        )
        .unwrap();
    assert_eq!(timestamp_ms(p.id), 1_700_000_000_123);
    assert_eq!(p.created_at, 1_700_000_000_123);
    assert_eq!(repo.lookup(p.id).unwrap().client_id, b"client".to_vec());
}

#[test]
fn all_is_in_ascending_order_of_identifiers() {
    assert_eq!(ids(&filled().all()), vec![1, 3, 5, 7, 9]);
}

#[test]
fn upsert_inserts_where_the_identifier_is_free() {
    let mut repo = filled();
    let p = repo.upsert(
        500,
        4,
        b"https://c.example/".to_vec(),
        Scope::parse(b"openid").unwrap(),
        OAuthClientAuthenticationMethod::NoAuthentication,
        None,
        b"other".to_vec(),
        None,
        Vec::new(),
    );
    assert_eq!(p.created_at, 500);
    assert_eq!(ids(&repo.all()), vec![1, 3, 4, 5, 7, 9]);
}

#[test]
fn upsert_replaces_the_settings_and_keeps_the_time_of_creation() {
    let mut repo = filled();
    let p = repo.upsert(
        500,
        5,
        b"https://c.example/".to_vec(),
        Scope::parse(b"openid email").unwrap(),
        OAuthClientAuthenticationMethod::NoAuthentication,
        None,
        b"other".to_vec(),
        Some(b"secret".to_vec()),
        Vec::new(),
    );
    assert_eq!(p.created_at, 105);
    let stored = repo.lookup(5).unwrap();
    assert_eq!(stored.created_at, 105);
    assert_eq!(stored.issuer, b"https://c.example/".to_vec());
    assert_eq!(stored.scope.to_bytes(), b"openid email".to_vec());
    assert_eq!(stored.client_id, b"other".to_vec());
    assert_eq!(stored.encrypted_client_secret, Some(b"secret".to_vec()));
    assert_eq!(stored.token_endpoint_signing_alg, None);
    assert_eq!(ids(&repo.all()), vec![1, 3, 5, 7, 9]);
}

#[test]
fn delete_by_id_removes_the_provider() {
    let mut repo = filled();
    assert_eq!(repo.delete_by_id(5), Ok(()));
    assert!(repo.lookup(5).is_none());
    assert_eq!(ids(&repo.all()), vec![1, 3, 7, 9]);
}

#[test]
fn delete_by_id_reports_that_no_row_was_affected() {
    let mut repo = filled();
    assert_eq!(
        repo.delete_by_id(4),
        Err(DatabaseError::RowsAffected { expected: 1, actual: 0 })
    );
    assert_eq!(repo.delete_by_id(5), Ok(()));
    assert_eq!(
        repo.delete_by_id(5),
        Err(DatabaseError::RowsAffected { expected: 1, actual: 0 })
    );
    assert_eq!(ids(&repo.all()), vec![1, 3, 7, 9]);
}

#[test]
fn list_pages_forward() {
    let repo = filled();
    let all = UpstreamOAuthProviderFilter::new();
    let first = repo.list(&all, Pagination::first(2));
    assert_eq!(ids(&first.edges), vec![1, 3]);
    assert!(first.has_next_page);
    assert!(!first.has_previous_page);
    let next = repo.list(&all, Pagination::first(2).after(3));
    assert_eq!(ids(&next.edges), vec![5, 7]);
    assert!(next.has_next_page);
    let last = repo.list(&all, Pagination::first(2).after(7));
    assert_eq!(ids(&last.edges), vec![9]);
    assert!(!last.has_next_page);
}

#[test]
fn list_pages_backward() {
    let repo = filled();
    let all = UpstreamOAuthProviderFilter::new();
    let last = repo.list(&all, Pagination::last(2));
    assert_eq!(ids(&last.edges), vec![7, 9]);
    assert!(last.has_previous_page);
    assert!(!last.has_next_page);
    let before = repo.list(&all, Pagination::last(2).before(7));
    assert_eq!(ids(&before.edges), vec![3, 5]);
    assert!(before.has_previous_page);
    let first = repo.list(&all, Pagination::last(2).before(3));
    assert_eq!(ids(&first.edges), vec![1]);
    assert!(!first.has_previous_page);
}

#[test]
fn list_window_excludes_both_ends() {
    let repo = filled();
    let all = UpstreamOAuthProviderFilter::new();
    let page = repo.list(&all, Pagination::first(10).after(1).before(9));
    assert_eq!(ids(&page.edges), vec![3, 5, 7]);
    assert!(!page.has_next_page);
    let none = repo.list(&all, Pagination::first(10).after(9));
    assert!(none.edges.is_empty());
}

#[test]
fn list_applies_the_filter() {
    let repo = filled();
    let b = UpstreamOAuthProviderFilter::for_issuer(b"https://b.example/".to_vec());
    assert_eq!(ids(&repo.list(&b, Pagination::first(10)).edges), vec![3, 9]);
    let one = repo.list(&b, Pagination::first(1));
    assert_eq!(ids(&one.edges), vec![3]);
    assert!(one.has_next_page);
    let nobody = UpstreamOAuthProviderFilter::for_issuer(b"https://z.example/".to_vec());
    assert!(repo.list(&nobody, Pagination::first(10)).edges.is_empty());
}

#[test]
fn list_with_count_zero() {
    let repo = filled();
    let page = repo.list(&UpstreamOAuthProviderFilter::new(), Pagination::first(0));
    assert!(page.edges.is_empty());
    assert!(page.has_next_page);
}

#[test]
fn count_applies_the_filter() {
    let repo = filled();
    assert_eq!(repo.count(&UpstreamOAuthProviderFilter::new()), 5);
    assert_eq!(
        repo.count(&UpstreamOAuthProviderFilter::for_issuer(b"https://a.example/".to_vec())),
        3
    );
    assert_eq!(
        repo.count(&UpstreamOAuthProviderFilter::for_issuer(b"https://b.example/".to_vec())),
        2
    );
    assert_eq!(MemUpstreamOAuthProviderRepository::new().count(&UpstreamOAuthProviderFilter::new()), 0);
}

#[test]
fn providers_added_a_millisecond_apart_are_listed_in_the_order_they_were_added() {
    let mut rng = StdRng::seed_from_u64(17);
    for seed in 0..20u64 {
        let mut repo = MemUpstreamOAuthProviderRepository::new();
        let mut rng2 = StdRng::seed_from_u64(seed);
        let mut added = Vec::new();
        for step in 0..8u64 {
            let p = repo
                .add(
                    if seed % 2 == 0 { &mut rng } else { &mut rng2 },
                    1_700_000_000_000 + step,
                    format!("https://{}.example/", step).into_bytes(),
                    Scope::parse(b"openid").unwrap(),
                    OAuthClientAuthenticationMethod::NoAuthentication,
                    None,
                    b"client".to_vec(),
                    None,
                    Vec::new(),
                )
                .unwrap();
            added.push(p.id);
        }
        // identifiers differ and ascend with the time of making
        for pair in added.windows(2) {
            assert!(pair[0] < pair[1]);
        }
        assert_eq!(ids(&repo.all()), added);
        let page = repo.list(&UpstreamOAuthProviderFilter::new(), Pagination::first(3));
        assert_eq!(ids(&page.edges), added[..3].to_vec());
    }
}

#[test]
fn add_in_an_empty_repository_succeeds() {
    for seed in 0..50u64 {
        let mut rng = StdRng::seed_from_u64(seed);
        let mut repo = MemUpstreamOAuthProviderRepository::new();
        assert!(repo
            .add(
                &mut rng,
                seed,
                b"https://a.example/".to_vec(),
                Scope::parse(b"openid").unwrap(),
                OAuthClientAuthenticationMethod::NoAuthentication,
                None,
                b"client".to_vec(),
                None,
                Vec::new(),
            )
            .is_ok());
    }
}

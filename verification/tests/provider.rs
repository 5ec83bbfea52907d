use oidc_core::iana::{JsonWebSignatureAlg, OAuthClientAuthenticationMethod};
use oidc_core::storage::{DatabaseError, Pagination};
use oidc_core::upstream::provider::{
    page_from_rows, provider_from_row, providers_from_rows, ClaimsImportRule, Column,
    DatabaseInconsistencyError, ImportMode, ProviderLookup, Table, UpstreamOAuthProvider,
};

fn row(id: u128) -> ProviderLookup {
    ProviderLookup {
        upstream_oauth_provider_id: id,
        issuer: b"https://idp.example/".to_vec(),
        scope: b"openid email".to_vec(),
        client_id: b"client-1".to_vec(),
        encrypted_client_secret: Some(b"c2VjcmV0".to_vec()),
        token_endpoint_signing_alg: Some(b"HS256".to_vec()),
        token_endpoint_auth_method: b"client_secret_basic".to_vec(),
        created_at: 1_700_000_000,
        claims_imports: vec![ClaimsImportRule {
            source_claim: b"email".to_vec(),
            attribute: b"email".to_vec(),
            mode: ImportMode::Required,
        }],
    }
}

fn inconsistency(column: Column, row: u128) -> DatabaseInconsistencyError {
    DatabaseInconsistencyError { table: Table::UpstreamOAuthProviders, column, row }
}

#[test]
fn try_from_reads_every_column() {
    let p = UpstreamOAuthProvider::try_from(row(7)).unwrap();
    assert_eq!(p.id, 7);
    assert_eq!(p.issuer, b"https://idp.example/".to_vec());
    assert_eq!(p.scope.to_bytes(), b"openid email".to_vec());
    assert_eq!(p.client_id, b"client-1".to_vec());
    assert_eq!(p.encrypted_client_secret, Some(b"c2VjcmV0".to_vec()));
    assert_eq!(p.token_endpoint_signing_alg, Some(JsonWebSignatureAlg::Hs256));
    assert_eq!(
        p.token_endpoint_auth_method,
        OAuthClientAuthenticationMethod::ClientSecretBasic
    );
    assert_eq!(p.created_at, 1_700_000_000);
    assert_eq!(p.claims_imports.len(), 1);
    assert_eq!(p.claims_imports[0].source_claim, b"email".to_vec());
    assert_eq!(p.claims_imports[0].mode, ImportMode::Required);
}

#[test]
fn try_from_accepts_a_row_without_signing_algorithm() {
    let mut r = row(7);
    r.token_endpoint_signing_alg = None;
    r.encrypted_client_secret = None;
    let p = UpstreamOAuthProvider::try_from(r).unwrap();
    assert_eq!(p.token_endpoint_signing_alg, None);
    assert_eq!(p.encrypted_client_secret, None);
}

#[test]
fn try_from_reports_an_unreadable_scope() {
    let mut r = row(7);
    r.scope = b"openid  email".to_vec();
    assert_eq!(
        UpstreamOAuthProvider::try_from(r).err(),
        Some(inconsistency(Column::Scope, 7))
    );
    let mut empty = row(8);
    empty.scope = Vec::new();
    assert_eq!(
        UpstreamOAuthProvider::try_from(empty).err(),
        Some(inconsistency(Column::Scope, 8))
    );
}

#[test]
fn try_from_reports_an_unknown_authentication_method() {
    let mut r = row(9);
    r.token_endpoint_auth_method = b"password".to_vec();
    assert_eq!(
        UpstreamOAuthProvider::try_from(r).err(),
        Some(inconsistency(Column::TokenEndpointAuthMethod, 9))
    );
}

#[test]
fn try_from_reports_an_unknown_signing_algorithm() {
    let mut r = row(10);
    r.token_endpoint_signing_alg = Some(b"HS257".to_vec());
    assert_eq!(
        UpstreamOAuthProvider::try_from(r).err(),
        Some(inconsistency(Column::TokenEndpointSigningAlg, 10))
    );
}

#[test]
fn try_from_reports_the_first_unreadable_column() {
    let mut r = row(11);
    r.scope = b"".to_vec();
    r.token_endpoint_auth_method = b"?".to_vec();
    r.token_endpoint_signing_alg = Some(b"?".to_vec());
    assert_eq!(
        UpstreamOAuthProvider::try_from(r).err(),
        Some(inconsistency(Column::Scope, 11))
    );
    let mut s = row(12);
    s.token_endpoint_auth_method = b"?".to_vec();
    s.token_endpoint_signing_alg = Some(b"?".to_vec());
    assert_eq!(
        UpstreamOAuthProvider::try_from(s).err(),
        Some(inconsistency(Column::TokenEndpointAuthMethod, 12))
    );
}

#[test]
fn providers_from_rows_keeps_the_order() {
    let providers = providers_from_rows(vec![row(3), row(1), row(2)]).unwrap();
    let ids: Vec<u128> = providers.iter().map(|p| p.id).collect();
    assert_eq!(ids, vec![3, 1, 2]);
    assert!(providers_from_rows(Vec::new()).unwrap().is_empty());
}

#[test]
fn providers_from_rows_stops_at_the_first_unreadable_row() {
    let mut second = row(2);
    second.scope = b"".to_vec();
    let mut third = row(3);
    third.token_endpoint_auth_method = b"?".to_vec();
    assert_eq!(
        providers_from_rows(vec![row(1), second, third]).err(),
        Some(DatabaseError::Inconsistency(inconsistency(Column::Scope, 2)))
    );
}

#[test]
fn provider_from_row_passes_absence_on() {
    assert!(provider_from_row(None).unwrap().is_none());
    assert_eq!(provider_from_row(Some(row(5))).unwrap().unwrap().id, 5);
    let mut bad = row(6);
    bad.scope = b" ".to_vec();
    assert_eq!(
        provider_from_row(Some(bad)).err(),
        Some(DatabaseError::Inconsistency(inconsistency(Column::Scope, 6)))
    );
}

#[test]
fn page_from_rows_makes_the_page_and_reads_it() {
    let page = page_from_rows(&Pagination::first(2), vec![row(1), row(2), row(3)]).unwrap();
    assert_eq!(page.edges.iter().map(|p| p.id).collect::<Vec<_>>(), vec![1, 2]);
    assert!(page.has_next_page);
    assert!(!page.has_previous_page);
    let back = page_from_rows(&Pagination::last(2), vec![row(9), row(8), row(7)]).unwrap();
    assert_eq!(back.edges.iter().map(|p| p.id).collect::<Vec<_>>(), vec![8, 9]);
    assert!(back.has_previous_page);
}

#[test]
fn page_from_rows_does_not_read_the_extra_row() {
    let mut extra = row(3);
    extra.scope = b"".to_vec();
    let page = page_from_rows(&Pagination::first(2), vec![row(1), row(2), extra]).unwrap();
    assert_eq!(page.edges.len(), 2);
    let mut bad = row(2);
    bad.scope = b"".to_vec();
    assert_eq!(
        page_from_rows(&Pagination::first(2), vec![row(1), bad]).err(),
        Some(DatabaseError::Inconsistency(inconsistency(Column::Scope, 2)))
    );
}

#[test]
fn clone_copies_the_provider() {
    let p = UpstreamOAuthProvider::try_from(row(7)).unwrap();
    let q = p.clone();
    assert_eq!(q.id, p.id);
    assert_eq!(q.issuer, p.issuer);
    assert_eq!(q.scope.to_bytes(), p.scope.to_bytes());
    assert_eq!(q.claims_imports[0].attribute, p.claims_imports[0].attribute);
}

use oidc_core::iana::{JsonWebSignatureAlg, OAuthClientAuthenticationMethod};
use oidc_core::jose::claims::Claims;
use oidc_core::jose::json::JsonValue;
use oidc_core::jose::jwk::JsonWebKeySet;
use oidc_core::jose::jwt::{JoseEngine, JoseError};
use oidc_core::scope::Scope;
use oidc_core::session::{Attribute, Directory};
use oidc_core::storage::DatabaseError;
use oidc_core::upstream::federation::{
    delete_provider, LinkMaterial, StartMaterial, UpstreamFederation,
};
use oidc_core::upstream::flow::{
    authorization_url, complete, import_claims, token_request, write_percent_encoded,
    FederationError, ImportedIdentity, UpstreamOAuthAuthorizationSession, UpstreamOAuthLink,
    UpstreamResponse,
};
use oidc_core::upstream::provider::{ClaimsImportRule, ImportMode, UpstreamOAuthProvider};
use oidc_core::upstream::repository::MemUpstreamOAuthProviderRepository;
use rand::rngs::StdRng;
use rand::SeedableRng;

const UPSTREAM: &[u8] = b"https://idp.example/";
const OUR_CLIENT_ID: &[u8] = b"our-client-id";

fn rule(source: &[u8], attribute: &[u8], mode: ImportMode) -> ClaimsImportRule {
    ClaimsImportRule { source_claim: source.to_vec(), attribute: attribute.to_vec(), mode }
}

fn provider(id: u128) -> UpstreamOAuthProvider {
    UpstreamOAuthProvider {
        id,
        issuer: UPSTREAM.to_vec(),
        scope: Scope::parse(b"openid email").unwrap(),
        client_id: OUR_CLIENT_ID.to_vec(),
        encrypted_client_secret: None,
        token_endpoint_signing_alg: Some(JsonWebSignatureAlg::Hs256),
        token_endpoint_auth_method: OAuthClientAuthenticationMethod::ClientSecretPost,
        created_at: 500,
        claims_imports: vec![
            rule(b"email", b"email", ImportMode::Required),
            rule(b"name", b"displayname", ImportMode::Optional),
            rule(b"locale", b"locale", ImportMode::Ignored),
            rule(b"preferred_username", b"localpart", ImportMode::Optional),
        ],
    }
}

fn upstream_keys() -> JoseEngine {
    JoseEngine::new(
        JsonWebKeySet::new()
            .rotate(b"up-1".to_vec(), JsonWebSignatureAlg::Hs256, b"upstream-secret".to_vec())
            .unwrap(),
    )
}

fn pending() -> UpstreamOAuthAuthorizationSession {
    UpstreamOAuthAuthorizationSession {
        id: 40,
        provider_id: 7,
        state: b"state-1".to_vec(),
        nonce: b"nonce-1".to_vec(),
        code_challenge_verifier: b"verifier-1".to_vec(),
        created_at: 1000,
    }
}

fn upstream_claims(extra: &[(&[u8], &[u8])]) -> Claims {
    let mut claims = Claims::new();
    claims.push(b"iss".to_vec(), JsonValue::Str(UPSTREAM.to_vec()));
    claims.push(b"sub".to_vec(), JsonValue::Str(b"upstream-user-1".to_vec()));
    claims.push(b"aud".to_vec(), JsonValue::Str(OUR_CLIENT_ID.to_vec()));
    claims.push(b"exp".to_vec(), JsonValue::Num(2000));
    claims.push(b"nonce".to_vec(), JsonValue::Str(b"nonce-1".to_vec()));
    for (name, value) in extra {
        claims.push(name.to_vec(), JsonValue::Str(value.to_vec()));
    }
    claims
}

fn id_token(claims: &Claims) -> UpstreamResponse {
    UpstreamResponse::Tokens {
        id_token: upstream_keys().sign(claims, JsonWebSignatureAlg::Hs256).unwrap(),
    }
}

fn attribute(name: &[u8], value: &[u8]) -> Attribute {
    Attribute { name: name.to_vec(), value: value.to_vec() }
}

fn encoded(s: &[u8]) -> Vec<u8> {
    let mut out = Vec::new();
    write_percent_encoded(&mut out, s);
    out
}

#[test]
fn percent_encoding() {
    assert_eq!(encoded(b""), b"".to_vec());
    assert_eq!(encoded(b"AZaz09-._~"), b"AZaz09-._~".to_vec());
    assert_eq!(encoded(b"a b"), b"a%20b".to_vec());
    assert_eq!(encoded(b"https://app.example/cb?x=1&y"), b"https%3A%2F%2Fapp.example%2Fcb%3Fx%3D1%26y".to_vec());
    assert_eq!(encoded(&[0x00, 0x7f, 0xff]), b"%00%7F%FF".to_vec());
    assert_eq!(encoded(b"%+"), b"%25%2B".to_vec());
}

#[test]
fn the_authorization_url_carries_the_request() {
    let url = authorization_url(
        b"https://idp.example/authorize",
        b"our client",
        b"https://auth.example/callback",
        b"openid email",
        b"st/1",
        b"n&1",
        b"E9Melhoa2OwvFrEMTJguCHaoeK1t8URWbuGJSstw-cM",
    );
    assert_eq!(
        String::from_utf8(url).unwrap(),
        "https://idp.example/authorize?response_type=code&client_id=our%20client\
         &redirect_uri=https%3A%2F%2Fauth.example%2Fcallback&scope=openid%20email\
         &state=st%2F1&nonce=n%261\
         &code_challenge=E9Melhoa2OwvFrEMTJguCHaoeK1t8URWbuGJSstw-cM&code_challenge_method=S256"
    );
}

#[test]
fn start_remembers_the_pending_login_and_returns_the_url() {
    let mut federation = UpstreamFederation::new();
    let (session, url) = federation
        .start_with(
            &provider(7),
            b"https://idp.example/authorize",
            b"https://auth.example/callback",
            1000,
            StartMaterial {
                id: 40,
                state: b"state-1".to_vec(),
                nonce: b"nonce-1".to_vec(),
                code_challenge_verifier: b"dBjftJeZ4CVP-mB92K27uhbUJU1p1r_wW1gFWFOEjXk".to_vec(),
            },
        )
        .unwrap();
    assert_eq!(session.id, 40);
    assert_eq!(session.provider_id, 7);
    assert_eq!(session.created_at, 1000);
    assert_eq!(
        String::from_utf8(url).unwrap(),
        "https://idp.example/authorize?response_type=code&client_id=our-client-id\
         &redirect_uri=https%3A%2F%2Fauth.example%2Fcallback&scope=openid%20email\
         &state=state-1&nonce=nonce-1\
         &code_challenge=E9Melhoa2OwvFrEMTJguCHaoeK1t8URWbuGJSstw-cM&code_challenge_method=S256"
    );
    assert_eq!(federation.pending(40), Some(session));
    assert_eq!(federation.pending(41), None);
}

#[test]
fn start_refuses_an_identifier_that_is_in_use() {
    let mut federation = UpstreamFederation::new();
    let material = |state: &[u8]| StartMaterial {
        id: 40,
        state: state.to_vec(),
        nonce: b"n".to_vec(),
        code_challenge_verifier: b"v".to_vec(),
    };
    federation.start_with(&provider(7), b"e", b"r", 1000, material(b"first")).unwrap();
    assert_eq!(
        federation.start_with(&provider(7), b"e", b"r", 1000, material(b"second")).err(),
        Some(FederationError::Conflict)
    );
    assert_eq!(federation.pending(40).unwrap().state, b"first".to_vec());
}

#[test]
fn start_draws_fresh_secrets() {
    let mut federation = UpstreamFederation::new();
    let mut rng = StdRng::seed_from_u64(21);
    let (a, url_a) = federation.start(&mut rng, &provider(7), b"e", b"r", 1000).unwrap();
    let (b, _) = federation.start(&mut rng, &provider(7), b"e", b"r", 1000).unwrap();
    assert_ne!(a.id, b.id);
    assert_eq!(a.state.len(), 43);
    assert_eq!(a.nonce.len(), 43);
    assert_eq!(a.code_challenge_verifier.len(), 43);
    assert_ne!(a.state, a.nonce);
    assert_ne!(a.state, b.state);
    assert_ne!(a.code_challenge_verifier, b.code_challenge_verifier);
    let url = String::from_utf8(url_a).unwrap();
    assert!(url.contains(&format!("&state={}&", String::from_utf8(a.state.clone()).unwrap())));
    // the verifier itself is not sent
    assert!(!url.contains(&String::from_utf8(a.code_challenge_verifier.clone()).unwrap()));
    assert_eq!(federation.pending(a.id), Some(a));
}

#[test]
fn finish_forgets_the_pending_login() {
    let mut federation = UpstreamFederation::new();
    let mut rng = StdRng::seed_from_u64(21);
    let (a, _) = federation.start(&mut rng, &provider(7), b"e", b"r", 1000).unwrap();
    let (b, _) = federation.start(&mut rng, &provider(7), b"e", b"r", 1000).unwrap();
    assert_eq!(federation.finish(a.id), Some(a.clone()));
    assert_eq!(federation.finish(a.id), None);
    assert_eq!(federation.pending(a.id), None);
    assert_eq!(federation.pending(b.id), Some(b));
}

#[test]
fn the_token_request_wants_the_state_that_was_sent() {
    let request = token_request(&pending(), &provider(7), b"state-1", b"code-from-idp").unwrap();
    assert_eq!(request.code, b"code-from-idp".to_vec());
    assert_eq!(request.client_id, OUR_CLIENT_ID.to_vec());
    assert_eq!(request.code_verifier, b"verifier-1".to_vec());
    for bad in [&b"state-2"[..], b"", b"state-1 ", b"STATE-1"] {
        assert_eq!(
            token_request(&pending(), &provider(7), bad, b"code").err(),
            Some(FederationError::StateMismatch)
        );
    }
}

#[test]
fn complete_imports_the_identity() {
    let claims = upstream_claims(&[
        (b"email", b"alice@example.org"),
        (b"locale", b"en"),
        (b"preferred_username", b"alice"),
    ]);
    let identity = complete(
        &pending(),
        &provider(7),
        &upstream_keys(),
        b"state-1",
        &id_token(&claims),
        1500,
    )
    .unwrap();
    assert_eq!(
        identity,
        ImportedIdentity {
            subject: b"upstream-user-1".to_vec(),
            attributes: vec![
                attribute(b"email", b"alice@example.org"),
                attribute(b"localpart", b"alice"),
            ],
        }
    );
}

#[test]
fn a_pending_login_is_completed_at_its_own_provider_only() {
    let response = id_token(&upstream_claims(&[(b"email", b"a@example.org")]));
    assert_eq!(
        complete(&pending(), &provider(8), &upstream_keys(), b"state-1", &response, 1500).err(),
        Some(FederationError::ProviderMismatch)
    );
    assert_eq!(
        token_request(&pending(), &provider(8), b"state-1", b"code").err(),
        Some(FederationError::ProviderMismatch)
    );
    assert_eq!(
        token_request(&pending(), &provider(8), b"other", b"code").err(),
        Some(FederationError::ProviderMismatch)
    );
}

#[test]
fn complete_checks_the_state_first() {
    let response = id_token(&upstream_claims(&[(b"email", b"a@example.org")]));
    assert_eq!(
        complete(&pending(), &provider(7), &upstream_keys(), b"other", &response, 1500).err(),
        Some(FederationError::StateMismatch)
    );
    assert_eq!(
        complete(
            &pending(),
            &provider(7),
            &upstream_keys(),
            b"other",
            &UpstreamResponse::Unavailable,
            1500
        )
        .err(),
        Some(FederationError::StateMismatch)
    );
}

#[test]
fn complete_passes_on_that_the_provider_did_not_answer() {
    let keys = upstream_keys();
    assert_eq!(
        complete(&pending(), &provider(7), &keys, b"state-1", &UpstreamResponse::Unavailable, 1500)
            .err(),
        Some(FederationError::UpstreamUnavailable)
    );
    assert_eq!(
        complete(&pending(), &provider(7), &keys, b"state-1", &UpstreamResponse::Refused, 1500)
            .err(),
        Some(FederationError::UpstreamRefused)
    );
}

#[test]
fn complete_verifies_the_id_token() {
    let keys = upstream_keys();
    let claims = upstream_claims(&[(b"email", b"a@example.org")]);
    let good = id_token(&claims);
    let fails = |response: &UpstreamResponse, now: u64| {
        complete(&pending(), &provider(7), &keys, b"state-1", response, now).err()
    };
    assert_eq!(fails(&good, 1500), None);
    assert_eq!(fails(&good, 2000), Some(FederationError::InvalidIdToken(JoseError::Expired)));
    // signed by someone else
    let other = JoseEngine::new(
        JsonWebKeySet::new()
            .rotate(b"up-1".to_vec(), JsonWebSignatureAlg::Hs256, b"other-secret".to_vec())
            .unwrap(),
    );
    let forged = UpstreamResponse::Tokens {
        id_token: other.sign(&claims, JsonWebSignatureAlg::Hs256).unwrap(),
    };
    assert_eq!(
        fails(&forged, 1500),
        Some(FederationError::InvalidIdToken(JoseError::InvalidSignature))
    );
    // meant for another login
    let mut replayed = pending();
    replayed.nonce = b"nonce-2".to_vec();
    assert_eq!(
        complete(&replayed, &provider(7), &keys, b"state-1", &good, 1500).err(),
        Some(FederationError::InvalidIdToken(JoseError::NonceMismatch))
    );
    // of another issuer, or for another client
    let mut elsewhere = provider(7);
    elsewhere.issuer = b"https://other.example/".to_vec();
    assert_eq!(
        complete(&pending(), &elsewhere, &keys, b"state-1", &good, 1500).err(),
        Some(FederationError::InvalidIdToken(JoseError::IssuerMismatch))
    );
    let mut another = provider(7);
    another.client_id = b"another-client".to_vec();
    assert_eq!(
        complete(&pending(), &another, &keys, b"state-1", &good, 1500).err(),
        Some(FederationError::InvalidIdToken(JoseError::AudienceMismatch))
    );
    // not a token
    let garbage = UpstreamResponse::Tokens { id_token: b"garbage".to_vec() };
    assert_eq!(
        fails(&garbage, 1500),
        Some(FederationError::InvalidIdToken(JoseError::MalformedToken))
    );
}

#[test]
fn complete_wants_the_algorithm_that_the_provider_is_expected_to_use() {
    let keys = upstream_keys();
    let good = id_token(&upstream_claims(&[(b"email", b"a@example.org")]));
    let mut expecting = provider(7);
    expecting.token_endpoint_signing_alg = Some(JsonWebSignatureAlg::Hs512);
    assert_eq!(
        complete(&pending(), &expecting, &keys, b"state-1", &good, 1500).err(),
        Some(FederationError::InvalidIdToken(JoseError::AlgorithmMismatch))
    );
    let mut any = provider(7);
    any.token_endpoint_signing_alg = None;
    assert!(complete(&pending(), &any, &keys, b"state-1", &good, 1500).is_ok());
}

#[test]
fn complete_wants_a_subject() {
    let mut claims = Claims::new();
    claims.push(b"iss".to_vec(), JsonValue::Str(UPSTREAM.to_vec()));
    claims.push(b"aud".to_vec(), JsonValue::Str(OUR_CLIENT_ID.to_vec()));
    claims.push(b"exp".to_vec(), JsonValue::Num(2000));
    claims.push(b"nonce".to_vec(), JsonValue::Str(b"nonce-1".to_vec()));
    claims.push(b"email".to_vec(), JsonValue::Str(b"a@example.org".to_vec()));
    assert_eq!(
        complete(&pending(), &provider(7), &upstream_keys(), b"state-1", &id_token(&claims), 1500)
            .err(),
        Some(FederationError::InvalidIdToken(JoseError::MalformedToken))
    );
}

#[test]
fn a_missing_required_claim_fails_the_login() {
    let claims = upstream_claims(&[(b"name", b"Alice")]);
    assert_eq!(
        complete(&pending(), &provider(7), &upstream_keys(), b"state-1", &id_token(&claims), 1500)
            .err(),
        Some(FederationError::MissingRequiredClaim)
    );
}

#[test]
fn import_follows_the_rules_in_order() {
    let rules = provider(7).claims_imports;
    let all = upstream_claims(&[
        (b"preferred_username", b"alice"),
        (b"locale", b"en"),
        (b"name", b"Alice"),
        (b"email", b"alice@example.org"),
    ]);
    assert_eq!(
        import_claims(&rules, &all),
        Ok(vec![
            attribute(b"email", b"alice@example.org"),
            attribute(b"displayname", b"Alice"),
            attribute(b"localpart", b"alice"),
        ])
    );
    // optional claims that are missing are passed over
    let few = upstream_claims(&[(b"email", b"alice@example.org")]);
    assert_eq!(import_claims(&rules, &few), Ok(vec![attribute(b"email", b"alice@example.org")]));
    // a claim that is there but is no string counts as missing
    let mut odd = upstream_claims(&[]);
    odd.push(b"email".to_vec(), JsonValue::Bool(true));
    assert_eq!(import_claims(&rules, &odd), Err(FederationError::MissingRequiredClaim));
    assert_eq!(import_claims(&Vec::new(), &all), Ok(vec![]));
}

#[test]
fn import_is_a_function_of_rules_and_claims() {
    let rules = provider(7).claims_imports;
    let claims = upstream_claims(&[(b"email", b"alice@example.org"), (b"name", b"Alice")]);
    assert_eq!(import_claims(&rules, &claims), import_claims(&rules, &claims.clone()));
}

#[test]
fn link_or_create_twice_returns_the_same_session() {
    let mut federation = UpstreamFederation::new();
    let mut directory = Directory::new();
    let mut rng = StdRng::seed_from_u64(33);
    let attributes = || vec![attribute(b"email", b"alice@example.org")];
    let first = federation
        .link_or_create(&mut rng, &mut directory, 7, b"upstream-user-1", attributes(), 1500)
        .unwrap();
    assert_eq!(first.authenticated_at, 1500);
    let second = federation
        .link_or_create(&mut rng, &mut directory, 7, b"upstream-user-1", attributes(), 1600)
        .unwrap();
    assert_eq!(second, first);
    let link = federation.link(7, b"upstream-user-1").unwrap();
    assert_eq!(link.session_id, first.id);
    assert_eq!(link.account_id, first.account_id);
    assert_eq!(directory.session(first.id), Some(first));
    assert_eq!(directory.account_attributes(first.account_id), Some(attributes()));
}

#[test]
fn link_or_create_keeps_subjects_and_providers_apart() {
    let mut federation = UpstreamFederation::new();
    let mut directory = Directory::new();
    let mut rng = StdRng::seed_from_u64(33);
    let a = federation.link_or_create(&mut rng, &mut directory, 7, b"user-1", vec![], 1500).unwrap();
    let b = federation.link_or_create(&mut rng, &mut directory, 7, b"user-2", vec![], 1500).unwrap();
    let c = federation.link_or_create(&mut rng, &mut directory, 8, b"user-1", vec![], 1500).unwrap();
    assert_ne!(a.id, b.id);
    assert_ne!(a.id, c.id);
    assert_ne!(a.account_id, b.account_id);
    assert_ne!(a.account_id, c.account_id);
    assert_eq!(federation.link_or_create(&mut rng, &mut directory, 8, b"user-1", vec![], 1600), Ok(c));
}

#[test]
fn link_or_create_refuses_identifiers_that_are_in_use() {
    let mut federation = UpstreamFederation::new();
    let mut directory = Directory::new();
    let m = LinkMaterial { account_id: 1, session_id: 2, link_id: 3 };
    let first = federation
        .link_or_create_with(&mut directory, 7, b"user-1", vec![], 1500, m)
        .unwrap();
    assert_eq!((first.id, first.account_id), (2, 1));
    for clash in [
        LinkMaterial { account_id: 1, session_id: 12, link_id: 13 },
        LinkMaterial { account_id: 11, session_id: 2, link_id: 13 },
        LinkMaterial { account_id: 11, session_id: 12, link_id: 3 },
    ] {
        assert_eq!(
            federation.link_or_create_with(&mut directory, 7, b"user-2", vec![], 1500, clash),
            Err(FederationError::Conflict)
        );
        assert_eq!(federation.link(7, b"user-2"), None);
        assert!(!directory.has_account(11));
        assert_eq!(directory.session(12), None);
    }
    // for a subject that is linked, the identifiers do not matter
    assert_eq!(
        federation.link_or_create_with(&mut directory, 7, b"user-1", vec![], 1600, m),
        Ok(first)
    );
}

#[test]
fn add_link_refuses_a_second_link_of_a_subject() {
    let mut federation = UpstreamFederation::new();
    let link = |id: u128, provider: u128, subject: &[u8]| UpstreamOAuthLink {
        id,
        provider_id: provider,
        subject: subject.to_vec(),
        account_id: 1,
        session_id: 2,
        created_at: 1500,
    };
    assert_eq!(federation.add_link(link(1, 7, b"user-1")), Ok(()));
    assert_eq!(federation.add_link(link(2, 7, b"user-1")), Err(FederationError::DuplicateLink));
    assert_eq!(federation.add_link(link(1, 7, b"user-1")), Err(FederationError::DuplicateLink));
    assert_eq!(federation.add_link(link(1, 7, b"user-2")), Err(FederationError::Conflict));
    assert_eq!(federation.add_link(link(2, 8, b"user-1")), Ok(()));
    assert_eq!(federation.link(7, b"user-1").unwrap().id, 1);
    assert_eq!(federation.link(8, b"user-1").unwrap().id, 2);
}

#[test]
fn deleting_a_provider_deletes_what_refers_to_it() {
    let mut repository = MemUpstreamOAuthProviderRepository::new();
    for id in [7u128, 8] {
        let p = provider(id);
        repository
            .add_with_id(
                id,
                500,
                p.issuer,
                p.scope,
                p.token_endpoint_auth_method,
                p.token_endpoint_signing_alg,
                p.client_id,
                None,
                p.claims_imports,
            )
            .unwrap();
    }
    let mut federation = UpstreamFederation::new();
    let mut directory = Directory::new();
    let mut rng = StdRng::seed_from_u64(33);
    let (of_seven, _) = federation.start(&mut rng, &provider(7), b"e", b"r", 1000).unwrap();
    let (of_eight, _) = federation.start(&mut rng, &provider(8), b"e", b"r", 1000).unwrap();
    federation.link_or_create(&mut rng, &mut directory, 7, b"user-1", vec![], 1500).unwrap();
    federation.link_or_create(&mut rng, &mut directory, 8, b"user-1", vec![], 1500).unwrap();
    assert_eq!(delete_provider(&mut repository, &mut federation, 7), Ok(()));
    assert!(repository.lookup(7).is_none());
    assert!(repository.lookup(8).is_some());
    assert_eq!(federation.pending(of_seven.id), None);
    assert_eq!(federation.pending(of_eight.id), Some(of_eight));
    assert_eq!(federation.link(7, b"user-1"), None);
    assert!(federation.link(8, b"user-1").is_some());
    assert_eq!(
        delete_provider(&mut repository, &mut federation, 7),
        Err(DatabaseError::RowsAffected { expected: 1, actual: 0 })
    );
    assert!(federation.link(8, b"user-1").is_some());
}

#[test]
fn the_whole_flow() {
    let mut federation = UpstreamFederation::new();
    let mut directory = Directory::new();
    let mut rng = StdRng::seed_from_u64(77);
    let provider = provider(7);
    let keys = upstream_keys();
    let mut login = |federation: &mut UpstreamFederation, directory: &mut Directory, now: u64| {
        let (session, _) = federation
            .start(&mut rng, &provider, b"https://idp.example/authorize", b"https://auth.example/cb", now)
            .unwrap();
        let request = token_request(&session, &provider, &session.state, b"code").unwrap();
        assert_eq!(request.code_verifier, session.code_challenge_verifier);
        // the provider answers with an ID token that echoes the nonce
        let mut claims = Claims::new();
        claims.push(b"iss".to_vec(), JsonValue::Str(UPSTREAM.to_vec()));
        claims.push(b"sub".to_vec(), JsonValue::Str(b"upstream-user-1".to_vec()));
        claims.push(b"aud".to_vec(), JsonValue::Str(OUR_CLIENT_ID.to_vec()));
        claims.push(b"exp".to_vec(), JsonValue::Num(now + 60));
        claims.push(b"nonce".to_vec(), JsonValue::Str(session.nonce.clone()));
        claims.push(b"email".to_vec(), JsonValue::Str(b"alice@example.org".to_vec()));
        let response = UpstreamResponse::Tokens {
            id_token: keys.sign(&claims, JsonWebSignatureAlg::Hs256).unwrap(),
        };
        let identity = complete(&session, &provider, &keys, &session.state, &response, now).unwrap();
        assert_eq!(federation.finish(session.id), Some(session));
        federation
            .link_or_create(&mut rng, directory, provider.id, &identity.subject, identity.attributes, now)
            .unwrap()
    };
    let first = login(&mut federation, &mut directory, 1000);
    let second = login(&mut federation, &mut directory, 2000);
    assert_eq!(first, second);
    assert!(federation.link(7, b"upstream-user-1").is_some());
}

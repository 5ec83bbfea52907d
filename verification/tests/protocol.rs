use oidc_core::iana::{JsonWebSignatureAlg, OAuthErrorCode};
use oidc_core::jose::jwk::JsonWebKeySet;
use oidc_core::protocol::{
    bearer_token, code_redirect, discovery_document, error_redirect, error_response,
    introspection_response, jwks_document, separator_for, token_response, userinfo_response,
    Endpoints,
};
use oidc_core::session::Attribute;
use oidc_core::scope::Scope;
use oidc_core::server::TokenSet;
use oidc_core::token::{TokenMaterial, TokenStore};
use oidc_core::upstream::flow::{next_step, AttemptOutcome, NextStep};

fn text(bytes: Vec<u8>) -> String {
    String::from_utf8(bytes).unwrap()
}

#[test]
fn token_response_names_what_was_issued() {
    let set = TokenSet {
        access_token: b"at".to_vec(),
        expires_in: 300,
        refresh_token: Some(b"rt".to_vec()),
        id_token: Some(b"a.b.c".to_vec()),
    };
    assert_eq!(
        text(token_response(&set)),
        r#"{"access_token":"at","token_type":"Bearer","expires_in":300,"refresh_token":"rt","id_token":"a.b.c"}"#
    );
    let bare = TokenSet { access_token: b"at".to_vec(), expires_in: 0, refresh_token: None, id_token: None };
    assert_eq!(
        text(token_response(&bare)),
        r#"{"access_token":"at","token_type":"Bearer","expires_in":0}"#
    );
}

#[test]
fn error_response_names_the_code() {
    assert_eq!(
        text(error_response(OAuthErrorCode::InvalidGrant, b"the \"code\" is used")),
        r#"{"error":"invalid_grant","error_description":"the \"code\" is used"}"#
    );
    assert_eq!(
        text(error_response(OAuthErrorCode::UnsupportedGrantType, b"")),
        r#"{"error":"unsupported_grant_type","error_description":""}"#
    );
}

#[test]
fn introspection_of_nothing_is_inactive() {
    assert_eq!(text(introspection_response(&None)), r#"{"active":false}"#);
}

#[test]
fn introspection_of_a_token_tells_of_it() {
    let mut store = TokenStore::new(300);
    store
        .issue_with(
            5,
            1,
            &Scope::parse(b"openid email").unwrap(),
            false,
            1000,
            TokenMaterial {
                access_id: 1,
                access_token: b"at".to_vec(),
                refresh_id: 2,
                refresh_token: b"rt".to_vec(),
                family_id: 3,
            },
        )
        .unwrap();
    assert_eq!(
        text(introspection_response(&store.introspect(b"at", 1001))),
        r#"{"active":true,"scope":"openid email","client_id":"00000000000000000000000001","token_type":"Bearer","exp":1300,"iat":1000}"#
    );
    assert_eq!(
        text(introspection_response(&store.introspect(b"at", 1300))),
        r#"{"active":false}"#
    );
}

#[test]
fn code_redirect_carries_code_and_state() {
    assert_eq!(
        text(code_redirect(b"https://app.example/cb", b"c0de", Some(b"x y"))),
        "https://app.example/cb?code=c0de&state=x%20y"
    );
    assert_eq!(
        text(code_redirect(b"https://app.example/cb", b"a&b", None)),
        "https://app.example/cb?code=a%26b"
    );
    assert_eq!(
        text(code_redirect(b"https://app.example/cb?tenant=1", b"c0de", Some(b""))),
        "https://app.example/cb?tenant=1&code=c0de&state="
    );
}

#[test]
fn error_redirect_carries_error_and_state() {
    assert_eq!(
        text(error_redirect(
            b"https://app.example/cb",
            OAuthErrorCode::AccessDenied,
            b"the user said no",
            Some(b"xyz")
        )),
        "https://app.example/cb?error=access_denied&error_description=the%20user%20said%20no&state=xyz"
    );
    assert_eq!(
        text(error_redirect(b"https://app.example/?a", OAuthErrorCode::InvalidScope, b"", None)),
        "https://app.example/?a&error=invalid_scope&error_description="
    );
}

#[test]
fn the_separator_depends_on_the_uri() {
    assert_eq!(separator_for(b"https://app.example/cb"), b'?');
    assert_eq!(separator_for(b"https://app.example/cb?"), b'&');
    assert_eq!(separator_for(b""), b'?');
}

#[test]
fn bearer_token_of_a_header() {
    assert_eq!(bearer_token(b"Bearer abc"), Some(&b"abc"[..]));
    assert_eq!(bearer_token(b"Bearer a b"), Some(&b"a b"[..]));
    assert_eq!(bearer_token(b"Bearer "), None);
    assert_eq!(bearer_token(b"Bearer"), None);
    assert_eq!(bearer_token(b"bearer abc"), None);
    assert_eq!(bearer_token(b"Basic abcdef"), None);
    assert_eq!(bearer_token(b""), None);
}

#[test]
fn discovery_document_lists_what_is_supported() {
    let keys = JsonWebKeySet::new()
        .rotate(b"k1".to_vec(), JsonWebSignatureAlg::Hs256, b"one".to_vec())
        .unwrap()
        .rotate(b"k2".to_vec(), JsonWebSignatureAlg::Hs256, b"two".to_vec())
        .unwrap()
        .rotate(b"k3".to_vec(), JsonWebSignatureAlg::Hs512, b"three".to_vec())
        .unwrap();
    let endpoints = Endpoints {
        authorization: b"https://auth.example/oauth2/authorize".to_vec(),
        token: b"https://auth.example/oauth2/token".to_vec(),
        userinfo: b"https://auth.example/oauth2/userinfo".to_vec(),
        jwks: b"https://auth.example/oauth2/keys.json".to_vec(),
        introspection: b"https://auth.example/oauth2/introspect".to_vec(),
    };
    let expected = [
        r#"{"issuer":"https://auth.example/","#,
        r#""authorization_endpoint":"https://auth.example/oauth2/authorize","#,
        r#""token_endpoint":"https://auth.example/oauth2/token","#,
        r#""userinfo_endpoint":"https://auth.example/oauth2/userinfo","#,
        r#""jwks_uri":"https://auth.example/oauth2/keys.json","#,
        r#""introspection_endpoint":"https://auth.example/oauth2/introspect","#,
        r#""response_types_supported":["code","code id_token"],"#,
        r#""grant_types_supported":["authorization_code","refresh_token"],"#,
        r#""id_token_signing_alg_values_supported":["HS256","HS512"]}"#,
    ]
    .join("");
    assert_eq!(text(discovery_document(b"https://auth.example/", &endpoints, &keys)), expected);
    let none = discovery_document(b"i", &endpoints, &JsonWebKeySet::new());
    assert!(text(none).ends_with(r#""id_token_signing_alg_values_supported":[]}"#));
}

#[test]
fn an_answer_ends_the_attempts() {
    assert_eq!(next_step(0, 3, AttemptOutcome::Answered), NextStep::Proceed);
    assert_eq!(next_step(9, 3, AttemptOutcome::Answered), NextStep::Proceed);
}

#[test]
fn timeouts_and_server_errors_are_tried_again_with_growing_delay() {
    for outcome in [
        AttemptOutcome::TimedOut,
        AttemptOutcome::Status(500),
        AttemptOutcome::Status(503),
        AttemptOutcome::Status(599),
    ] {
        assert_eq!(next_step(0, 10, outcome), NextStep::Retry { delay_ms: 100 });
        assert_eq!(next_step(1, 10, outcome), NextStep::Retry { delay_ms: 200 });
        assert_eq!(next_step(2, 10, outcome), NextStep::Retry { delay_ms: 400 });
        assert_eq!(next_step(3, 10, outcome), NextStep::Retry { delay_ms: 800 });
        assert_eq!(next_step(4, 10, outcome), NextStep::Retry { delay_ms: 1600 });
        assert_eq!(next_step(5, 10, outcome), NextStep::Retry { delay_ms: 3200 });
        assert_eq!(next_step(6, 10, outcome), NextStep::Retry { delay_ms: 6400 });
        assert_eq!(next_step(8, 10, outcome), NextStep::Retry { delay_ms: 6400 });
    }
}

#[test]
fn attempts_are_bounded() {
    assert_eq!(next_step(2, 3, AttemptOutcome::TimedOut), NextStep::Unavailable);
    assert_eq!(next_step(2, 3, AttemptOutcome::Status(502)), NextStep::Refused);
    assert_eq!(next_step(0, 1, AttemptOutcome::TimedOut), NextStep::Unavailable);
    assert_eq!(next_step(0, 0, AttemptOutcome::TimedOut), NextStep::Unavailable);
    assert_eq!(next_step(u32::MAX, u32::MAX, AttemptOutcome::TimedOut), NextStep::Unavailable);
    assert_eq!(next_step(1, 3, AttemptOutcome::TimedOut), NextStep::Retry { delay_ms: 200 });
}

#[test]
fn client_errors_are_never_tried_again() {
    for status in [400u16, 401, 403, 404, 429, 499, 302, 200, 600] {
        assert_eq!(next_step(0, 10, AttemptOutcome::Status(status)), NextStep::Refused);
    }
}

#[test]
fn the_key_set_document_publishes_no_secret() {
    assert_eq!(text(jwks_document(&JsonWebKeySet::new())), r#"{"keys":[]}"#);
    let one = JsonWebKeySet::new()
        .rotate(b"k1".to_vec(), JsonWebSignatureAlg::Hs256, b"secret-one".to_vec())
        .unwrap();
    assert_eq!(
        text(jwks_document(&one)),
        r#"{"keys":[{"kid":"k1","alg":"HS256","use":"sig"}]}"#
    );
    let two = one
        .rotate(b"k\"2".to_vec(), JsonWebSignatureAlg::Hs512, b"secret-two".to_vec())
        .unwrap();
    let document = text(jwks_document(&two));
    assert_eq!(
        document,
        r#"{"keys":[{"kid":"k1","alg":"HS256","use":"sig"},{"kid":"k\"2","alg":"HS512","use":"sig"}]}"#
    );
    assert!(!document.contains("secret"));
}

#[test]
fn the_user_info_answer_lists_the_attributes() {
    assert_eq!(text(userinfo_response(&vec![])), "{}");
    let attributes = vec![
        Attribute { name: b"email".to_vec(), value: b"alice@example.org".to_vec() },
        Attribute { name: b"name".to_vec(), value: b"Alice \"A\"".to_vec() },
    ];
    assert_eq!(
        text(userinfo_response(&attributes)),
        r#"{"email":"alice@example.org","name":"Alice \"A\""}"#
    );
}

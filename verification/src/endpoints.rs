//! The authorization endpoint and the token endpoint: what a request is
//! answered with. Requests come as the parameters that were sent, each a
//! byte string or missing; the HTTP around them is not handled here.

use vstd::prelude::*;
use rand::rngs::StdRng;
use crate::base64url;
use crate::bytes::{clone_opt_bytes, opt_bytes_view, opt_slice_view, to_vec};
use crate::client::{client_index, ClientCredentials, ClientCredentialsView};
use crate::grant::{
    code_index, is_drawn_code, new_grant, spec_create, spec_fulfill, AuthorizationGrantView,
    CODE_BYTES,
};
use crate::iana::{GrantType, OAuthErrorCode, PkceCodeChallengeMethod, ResponseType};
use crate::ident::{new_id, random_bytes, spec_id_millis, spec_timestamp_ms};
use crate::pkce::{PkceChallenge, PkceChallengeView};
use crate::protocol::{code_redirect, error_redirect, spec_code_redirect, spec_error_redirect};
use crate::scope::Scope;
use crate::server::{
    draw_material, is_drawn_material, spec_exchange_tokens, spec_refresh_tokens, AuthorizationServer, ServerView,
    TokenSet, TokenSetView,
};
use crate::session::spec_session;
use crate::token::{TokenMaterial, TokenMaterialView};

verus! {

/// What is said of an error to the one who made the request.
pub open spec fn spec_description(code: OAuthErrorCode) -> Seq<u8> {
    match code {
        // the request is missing a parameter or has one that is not valid
        OAuthErrorCode::InvalidRequest => seq![0x74u8, 0x68u8, 0x65u8, 0x20u8, 0x72u8, 0x65u8, 0x71u8, 0x75u8, 0x65u8, 0x73u8, 0x74u8, 0x20u8, 0x69u8, 0x73u8, 0x20u8, 0x6Du8, 0x69u8, 0x73u8, 0x73u8, 0x69u8, 0x6Eu8, 0x67u8, 0x20u8, 0x61u8, 0x20u8, 0x70u8, 0x61u8, 0x72u8, 0x61u8, 0x6Du8, 0x65u8, 0x74u8, 0x65u8, 0x72u8, 0x20u8, 0x6Fu8, 0x72u8, 0x20u8, 0x68u8, 0x61u8, 0x73u8, 0x20u8, 0x6Fu8, 0x6Eu8, 0x65u8, 0x20u8, 0x74u8, 0x68u8, 0x61u8, 0x74u8, 0x20u8, 0x69u8, 0x73u8, 0x20u8, 0x6Eu8, 0x6Fu8, 0x74u8, 0x20u8, 0x76u8, 0x61u8, 0x6Cu8, 0x69u8, 0x64u8],
        // the client could not be authenticated
        OAuthErrorCode::InvalidClient => seq![0x74u8, 0x68u8, 0x65u8, 0x20u8, 0x63u8, 0x6Cu8, 0x69u8, 0x65u8, 0x6Eu8, 0x74u8, 0x20u8, 0x63u8, 0x6Fu8, 0x75u8, 0x6Cu8, 0x64u8, 0x20u8, 0x6Eu8, 0x6Fu8, 0x74u8, 0x20u8, 0x62u8, 0x65u8, 0x20u8, 0x61u8, 0x75u8, 0x74u8, 0x68u8, 0x65u8, 0x6Eu8, 0x74u8, 0x69u8, 0x63u8, 0x61u8, 0x74u8, 0x65u8, 0x64u8],
        // the grant is not valid, has expired or was used
        OAuthErrorCode::InvalidGrant => seq![0x74u8, 0x68u8, 0x65u8, 0x20u8, 0x67u8, 0x72u8, 0x61u8, 0x6Eu8, 0x74u8, 0x20u8, 0x69u8, 0x73u8, 0x20u8, 0x6Eu8, 0x6Fu8, 0x74u8, 0x20u8, 0x76u8, 0x61u8, 0x6Cu8, 0x69u8, 0x64u8, 0x2Cu8, 0x20u8, 0x68u8, 0x61u8, 0x73u8, 0x20u8, 0x65u8, 0x78u8, 0x70u8, 0x69u8, 0x72u8, 0x65u8, 0x64u8, 0x20u8, 0x6Fu8, 0x72u8, 0x20u8, 0x77u8, 0x61u8, 0x73u8, 0x20u8, 0x75u8, 0x73u8, 0x65u8, 0x64u8],
        // the client is not known or may not ask for this
        OAuthErrorCode::UnauthorizedClient => seq![0x74u8, 0x68u8, 0x65u8, 0x20u8, 0x63u8, 0x6Cu8, 0x69u8, 0x65u8, 0x6Eu8, 0x74u8, 0x20u8, 0x69u8, 0x73u8, 0x20u8, 0x6Eu8, 0x6Fu8, 0x74u8, 0x20u8, 0x6Bu8, 0x6Eu8, 0x6Fu8, 0x77u8, 0x6Eu8, 0x20u8, 0x6Fu8, 0x72u8, 0x20u8, 0x6Du8, 0x61u8, 0x79u8, 0x20u8, 0x6Eu8, 0x6Fu8, 0x74u8, 0x20u8, 0x61u8, 0x73u8, 0x6Bu8, 0x20u8, 0x66u8, 0x6Fu8, 0x72u8, 0x20u8, 0x74u8, 0x68u8, 0x69u8, 0x73u8],
        // the grant type is not supported
        OAuthErrorCode::UnsupportedGrantType => seq![0x74u8, 0x68u8, 0x65u8, 0x20u8, 0x67u8, 0x72u8, 0x61u8, 0x6Eu8, 0x74u8, 0x20u8, 0x74u8, 0x79u8, 0x70u8, 0x65u8, 0x20u8, 0x69u8, 0x73u8, 0x20u8, 0x6Eu8, 0x6Fu8, 0x74u8, 0x20u8, 0x73u8, 0x75u8, 0x70u8, 0x70u8, 0x6Fu8, 0x72u8, 0x74u8, 0x65u8, 0x64u8],
        // the scope is not valid or is more than the client may ask for
        OAuthErrorCode::InvalidScope => seq![0x74u8, 0x68u8, 0x65u8, 0x20u8, 0x73u8, 0x63u8, 0x6Fu8, 0x70u8, 0x65u8, 0x20u8, 0x69u8, 0x73u8, 0x20u8, 0x6Eu8, 0x6Fu8, 0x74u8, 0x20u8, 0x76u8, 0x61u8, 0x6Cu8, 0x69u8, 0x64u8, 0x20u8, 0x6Fu8, 0x72u8, 0x20u8, 0x69u8, 0x73u8, 0x20u8, 0x6Du8, 0x6Fu8, 0x72u8, 0x65u8, 0x20u8, 0x74u8, 0x68u8, 0x61u8, 0x6Eu8, 0x20u8, 0x74u8, 0x68u8, 0x65u8, 0x20u8, 0x63u8, 0x6Cu8, 0x69u8, 0x65u8, 0x6Eu8, 0x74u8, 0x20u8, 0x6Du8, 0x61u8, 0x79u8, 0x20u8, 0x61u8, 0x73u8, 0x6Bu8, 0x20u8, 0x66u8, 0x6Fu8, 0x72u8],
        // the request was denied
        OAuthErrorCode::AccessDenied => seq![0x74u8, 0x68u8, 0x65u8, 0x20u8, 0x72u8, 0x65u8, 0x71u8, 0x75u8, 0x65u8, 0x73u8, 0x74u8, 0x20u8, 0x77u8, 0x61u8, 0x73u8, 0x20u8, 0x64u8, 0x65u8, 0x6Eu8, 0x69u8, 0x65u8, 0x64u8],
        // the server could not handle the request
        OAuthErrorCode::ServerError => seq![0x74u8, 0x68u8, 0x65u8, 0x20u8, 0x73u8, 0x65u8, 0x72u8, 0x76u8, 0x65u8, 0x72u8, 0x20u8, 0x63u8, 0x6Fu8, 0x75u8, 0x6Cu8, 0x64u8, 0x20u8, 0x6Eu8, 0x6Fu8, 0x74u8, 0x20u8, 0x68u8, 0x61u8, 0x6Eu8, 0x64u8, 0x6Cu8, 0x65u8, 0x20u8, 0x74u8, 0x68u8, 0x65u8, 0x20u8, 0x72u8, 0x65u8, 0x71u8, 0x75u8, 0x65u8, 0x73u8, 0x74u8],
    }
}

/// What is said of an error to the one who made the request.
pub fn description(code: OAuthErrorCode) -> (r: Vec<u8>)
    ensures
        r@ == spec_description(code),
{
    match code {
        OAuthErrorCode::InvalidRequest => vec![0x74u8, 0x68u8, 0x65u8, 0x20u8, 0x72u8, 0x65u8, 0x71u8, 0x75u8, 0x65u8, 0x73u8, 0x74u8, 0x20u8, 0x69u8, 0x73u8, 0x20u8, 0x6Du8, 0x69u8, 0x73u8, 0x73u8, 0x69u8, 0x6Eu8, 0x67u8, 0x20u8, 0x61u8, 0x20u8, 0x70u8, 0x61u8, 0x72u8, 0x61u8, 0x6Du8, 0x65u8, 0x74u8, 0x65u8, 0x72u8, 0x20u8, 0x6Fu8, 0x72u8, 0x20u8, 0x68u8, 0x61u8, 0x73u8, 0x20u8, 0x6Fu8, 0x6Eu8, 0x65u8, 0x20u8, 0x74u8, 0x68u8, 0x61u8, 0x74u8, 0x20u8, 0x69u8, 0x73u8, 0x20u8, 0x6Eu8, 0x6Fu8, 0x74u8, 0x20u8, 0x76u8, 0x61u8, 0x6Cu8, 0x69u8, 0x64u8],
        OAuthErrorCode::InvalidClient => vec![0x74u8, 0x68u8, 0x65u8, 0x20u8, 0x63u8, 0x6Cu8, 0x69u8, 0x65u8, 0x6Eu8, 0x74u8, 0x20u8, 0x63u8, 0x6Fu8, 0x75u8, 0x6Cu8, 0x64u8, 0x20u8, 0x6Eu8, 0x6Fu8, 0x74u8, 0x20u8, 0x62u8, 0x65u8, 0x20u8, 0x61u8, 0x75u8, 0x74u8, 0x68u8, 0x65u8, 0x6Eu8, 0x74u8, 0x69u8, 0x63u8, 0x61u8, 0x74u8, 0x65u8, 0x64u8],
        OAuthErrorCode::InvalidGrant => vec![0x74u8, 0x68u8, 0x65u8, 0x20u8, 0x67u8, 0x72u8, 0x61u8, 0x6Eu8, 0x74u8, 0x20u8, 0x69u8, 0x73u8, 0x20u8, 0x6Eu8, 0x6Fu8, 0x74u8, 0x20u8, 0x76u8, 0x61u8, 0x6Cu8, 0x69u8, 0x64u8, 0x2Cu8, 0x20u8, 0x68u8, 0x61u8, 0x73u8, 0x20u8, 0x65u8, 0x78u8, 0x70u8, 0x69u8, 0x72u8, 0x65u8, 0x64u8, 0x20u8, 0x6Fu8, 0x72u8, 0x20u8, 0x77u8, 0x61u8, 0x73u8, 0x20u8, 0x75u8, 0x73u8, 0x65u8, 0x64u8],
        OAuthErrorCode::UnauthorizedClient => vec![0x74u8, 0x68u8, 0x65u8, 0x20u8, 0x63u8, 0x6Cu8, 0x69u8, 0x65u8, 0x6Eu8, 0x74u8, 0x20u8, 0x69u8, 0x73u8, 0x20u8, 0x6Eu8, 0x6Fu8, 0x74u8, 0x20u8, 0x6Bu8, 0x6Eu8, 0x6Fu8, 0x77u8, 0x6Eu8, 0x20u8, 0x6Fu8, 0x72u8, 0x20u8, 0x6Du8, 0x61u8, 0x79u8, 0x20u8, 0x6Eu8, 0x6Fu8, 0x74u8, 0x20u8, 0x61u8, 0x73u8, 0x6Bu8, 0x20u8, 0x66u8, 0x6Fu8, 0x72u8, 0x20u8, 0x74u8, 0x68u8, 0x69u8, 0x73u8],
        OAuthErrorCode::UnsupportedGrantType => vec![0x74u8, 0x68u8, 0x65u8, 0x20u8, 0x67u8, 0x72u8, 0x61u8, 0x6Eu8, 0x74u8, 0x20u8, 0x74u8, 0x79u8, 0x70u8, 0x65u8, 0x20u8, 0x69u8, 0x73u8, 0x20u8, 0x6Eu8, 0x6Fu8, 0x74u8, 0x20u8, 0x73u8, 0x75u8, 0x70u8, 0x70u8, 0x6Fu8, 0x72u8, 0x74u8, 0x65u8, 0x64u8],
        OAuthErrorCode::InvalidScope => vec![0x74u8, 0x68u8, 0x65u8, 0x20u8, 0x73u8, 0x63u8, 0x6Fu8, 0x70u8, 0x65u8, 0x20u8, 0x69u8, 0x73u8, 0x20u8, 0x6Eu8, 0x6Fu8, 0x74u8, 0x20u8, 0x76u8, 0x61u8, 0x6Cu8, 0x69u8, 0x64u8, 0x20u8, 0x6Fu8, 0x72u8, 0x20u8, 0x69u8, 0x73u8, 0x20u8, 0x6Du8, 0x6Fu8, 0x72u8, 0x65u8, 0x20u8, 0x74u8, 0x68u8, 0x61u8, 0x6Eu8, 0x20u8, 0x74u8, 0x68u8, 0x65u8, 0x20u8, 0x63u8, 0x6Cu8, 0x69u8, 0x65u8, 0x6Eu8, 0x74u8, 0x20u8, 0x6Du8, 0x61u8, 0x79u8, 0x20u8, 0x61u8, 0x73u8, 0x6Bu8, 0x20u8, 0x66u8, 0x6Fu8, 0x72u8],
        OAuthErrorCode::AccessDenied => vec![0x74u8, 0x68u8, 0x65u8, 0x20u8, 0x72u8, 0x65u8, 0x71u8, 0x75u8, 0x65u8, 0x73u8, 0x74u8, 0x20u8, 0x77u8, 0x61u8, 0x73u8, 0x20u8, 0x64u8, 0x65u8, 0x6Eu8, 0x69u8, 0x65u8, 0x64u8],
        OAuthErrorCode::ServerError => vec![0x74u8, 0x68u8, 0x65u8, 0x20u8, 0x73u8, 0x65u8, 0x72u8, 0x76u8, 0x65u8, 0x72u8, 0x20u8, 0x63u8, 0x6Fu8, 0x75u8, 0x6Cu8, 0x64u8, 0x20u8, 0x6Eu8, 0x6Fu8, 0x74u8, 0x20u8, 0x68u8, 0x61u8, 0x6Eu8, 0x64u8, 0x6Cu8, 0x65u8, 0x20u8, 0x74u8, 0x68u8, 0x65u8, 0x20u8, 0x72u8, 0x65u8, 0x71u8, 0x75u8, 0x65u8, 0x73u8, 0x74u8],
    }
}

/// The HTTP status with which an error is answered: 401 where the client
/// could not be authenticated, 500 for a fault of the server, 400 otherwise.
pub open spec fn spec_status(code: OAuthErrorCode) -> u16 {
    match code {
        OAuthErrorCode::InvalidClient => 401,
        OAuthErrorCode::ServerError => 500,
        _ => 400,
    }
}

/// The HTTP status with which an error is answered.
pub fn status(code: OAuthErrorCode) -> (r: u16)
    ensures
        r == spec_status(code),
{
    match code {
        OAuthErrorCode::InvalidClient => 401,
        OAuthErrorCode::ServerError => 500,
        _ => 400,
    }
}

/// The parameters of a request to the authorization endpoint.
#[derive(Debug, PartialEq, Eq)]
pub struct AuthorizationRequest {
    /// The client, where the request names one by a well-formed identifier.
    pub client_id: Option<u128>,
    pub redirect_uri: Option<Vec<u8>>,
    pub response_type: Option<Vec<u8>>,
    pub scope: Option<Vec<u8>>,
    pub state: Option<Vec<u8>>,
    pub nonce: Option<Vec<u8>>,
    pub code_challenge: Option<Vec<u8>>,
    pub code_challenge_method: Option<Vec<u8>>,
}

/// The parameters of a request to the authorization endpoint, as a
/// mathematical value.
pub struct AuthorizationRequestView {
    pub client_id: Option<u128>,
    pub redirect_uri: Option<Seq<u8>>,
    pub response_type: Option<Seq<u8>>,
    pub scope: Option<Seq<u8>>,
    pub state: Option<Seq<u8>>,
    pub nonce: Option<Seq<u8>>,
    pub code_challenge: Option<Seq<u8>>,
    pub code_challenge_method: Option<Seq<u8>>,
}

impl AuthorizationRequest {
    /// The value as a mathematical value, with its byte strings as sequences.
    pub open spec fn view(&self) -> AuthorizationRequestView {
        AuthorizationRequestView {
            client_id: self.client_id,
            redirect_uri: opt_bytes_view(self.redirect_uri),
            response_type: opt_bytes_view(self.response_type),
            scope: opt_bytes_view(self.scope),
            state: opt_bytes_view(self.state),
            nonce: opt_bytes_view(self.nonce),
            code_challenge: opt_bytes_view(self.code_challenge),
            code_challenge_method: opt_bytes_view(self.code_challenge_method),
        }
    }
}

/// What the authorization endpoint answers.
#[derive(Debug, PartialEq, Eq)]
pub enum AuthorizationAnswer {
    /// The request is refused and the user is told so. The user is not sent
    /// back: where the client or its redirect URI is in doubt, there is
    /// nowhere to send the user safely.
    Refused(OAuthErrorCode),
    /// The user is sent to this URL: back to the client, with a code or with
    /// an error.
    Redirect(Vec<u8>),
    /// A grant is pending, and the user must log in to fulfill it.
    Login(u128),
}

/// An answer of the authorization endpoint as a mathematical value.
pub enum AuthorizationAnswerView {
    Refused(OAuthErrorCode),
    Redirect(Seq<u8>),
    Login(u128),
}

impl AuthorizationAnswer {
    /// The value as a mathematical value, with its byte strings as sequences.
    pub open spec fn view(&self) -> AuthorizationAnswerView {
        match self {
            AuthorizationAnswer::Refused(c) => AuthorizationAnswerView::Refused(*c),
            AuthorizationAnswer::Redirect(u) => AuthorizationAnswerView::Redirect(u@),
            AuthorizationAnswer::Login(g) => AuthorizationAnswerView::Login(*g),
        }
    }
}

/// The code challenge of a request: none where the request has none; the
/// challenge with the method `plain` where the request names no method; and
/// no answer where it names a method that is not known.
pub open spec fn spec_request_pkce(rq: AuthorizationRequestView) -> Option<Option<PkceChallengeView>> {
    match rq.code_challenge {
        None => Some(None),
        Some(challenge) => match rq.code_challenge_method {
            None => Some(Some(PkceChallengeView { challenge, method: PkceCodeChallengeMethod::Plain })),
            Some(name) => match PkceCodeChallengeMethod::spec_parse(name) {
                Some(method) => Some(Some(PkceChallengeView { challenge, method })),
                None => None,
            },
        },
    }
}

/// The redirect that tells the client of an error.
pub open spec fn spec_refusal(uri: Seq<u8>, code: OAuthErrorCode, state: Option<Seq<u8>>) -> AuthorizationAnswerView {
    AuthorizationAnswerView::Redirect(spec_error_redirect(uri, code, spec_description(code), state))
}

/// The grants after a request to the authorization endpoint, and the
/// answer, where a new grant gets the identifier `id` and the code `code`.
///
/// A request whose client is not registered, or whose redirect URI is
/// missing or is not registered for the client, is refused without sending
/// the user anywhere. Every other fault sends the user back to the client
/// with an error: a response type that is missing or not known and a code
/// challenge method that is not known as `invalid_request`; a scope that is
/// missing, is not the text of a scope, or is more than the client may ask
/// for as `invalid_scope`; and an identifier or code that is in use as
/// `server_error`. Otherwise a pending grant is created. Where the user has
/// a session, the grant is fulfilled at once and the user is sent back with
/// the code, or, should the grant have expired as soon as it was made, with
/// an error; otherwise the user must log in.
pub open spec fn spec_authorize(
    sv: ServerView,
    rq: AuthorizationRequestView,
    session: Option<u128>,
    now: u64,
    id: u128,
    code: Seq<u8>,
) -> (Seq<AuthorizationGrantView>, AuthorizationAnswerView) {
    let client_at = match rq.client_id {
        Some(client_id) => client_index(sv.clients, client_id),
        None => None,
    };
    if client_at is None {
        (sv.grants, AuthorizationAnswerView::Refused(OAuthErrorCode::UnauthorizedClient))
    } else if rq.redirect_uri is None || !sv.clients[client_at->Some_0].has_redirect_uri(
        rq.redirect_uri->Some_0,
    ) {
        (sv.grants, AuthorizationAnswerView::Refused(OAuthErrorCode::InvalidRequest))
    } else {
        let client = sv.clients[client_at->Some_0];
        let uri = rq.redirect_uri->Some_0;
        let response_type = match rq.response_type {
            Some(name) => ResponseType::spec_parse(name),
            None => None,
        };
        let scope = match rq.scope {
            Some(text) => Scope::spec_parse(text),
            None => None,
        };
        if response_type is None {
            (sv.grants, spec_refusal(uri, OAuthErrorCode::InvalidRequest, rq.state))
        } else if scope is None || !client.may_request(scope->Some_0) {
            (sv.grants, spec_refusal(uri, OAuthErrorCode::InvalidScope, rq.state))
        } else if spec_request_pkce(rq) is None {
            (sv.grants, spec_refusal(uri, OAuthErrorCode::InvalidRequest, rq.state))
        } else {
            let grant = new_grant(
                id,
                code,
                now,
                sv.grant_ttl,
                client,
                uri,
                scope->Some_0,
                response_type->Some_0,
                spec_request_pkce(rq)->Some_0,
                rq.state,
                rq.nonce,
            );
            match spec_create(sv.grants, grant, client) {
                Err(e) => (sv.grants, spec_refusal(uri, e.spec_code(), rq.state)),
                Ok(_) => {
                    let logged_in = match session {
                        Some(s) => spec_session(sv.directory.sessions, s) is Some,
                        None => false,
                    };
                    if logged_in {
                        let fulfilled = spec_fulfill(
                            sv.grants.push(grant),
                            id,
                            session->Some_0,
                            now,
                        );
                        match fulfilled.1 {
                            Ok(_) => (
                                fulfilled.0,
                                AuthorizationAnswerView::Redirect(
                                    spec_code_redirect(uri, code, rq.state),
                                ),
                            ),
                            Err(e) => (fulfilled.0, spec_refusal(uri, e.spec_code(), rq.state)),
                        }
                    } else {
                        (sv.grants.push(grant), AuthorizationAnswerView::Login(id))
                    }
                },
            }
        }
    }
}

/// The parameters of a request to the token endpoint.
#[derive(PartialEq, Eq)]
pub struct TokenRequest {
    pub grant_type: Option<Vec<u8>>,
    pub code: Option<Vec<u8>>,
    pub redirect_uri: Option<Vec<u8>>,
    pub code_verifier: Option<Vec<u8>>,
    pub refresh_token: Option<Vec<u8>>,
    /// What the client presented of itself, where it named itself by a
    /// well-formed identifier.
    pub credentials: Option<ClientCredentials>,
}

/// The parameters of a request to the token endpoint, as a mathematical
/// value.
pub struct TokenRequestView {
    pub grant_type: Option<Seq<u8>>,
    pub code: Option<Seq<u8>>,
    pub redirect_uri: Option<Seq<u8>>,
    pub code_verifier: Option<Seq<u8>>,
    pub refresh_token: Option<Seq<u8>>,
    pub credentials: Option<ClientCredentialsView>,
}

impl TokenRequest {
    /// The value as a mathematical value, with its byte strings as sequences.
    pub open spec fn view(&self) -> TokenRequestView {
        TokenRequestView {
            grant_type: opt_bytes_view(self.grant_type),
            code: opt_bytes_view(self.code),
            redirect_uri: opt_bytes_view(self.redirect_uri),
            code_verifier: opt_bytes_view(self.code_verifier),
            refresh_token: opt_bytes_view(self.refresh_token),
            credentials: match self.credentials {
                Some(c) => Some(c@),
                None => None,
            },
        }
    }
}

/// Whether a request to redeem `code` names another redirect URI than the
/// one of the grant that holds the code.
pub open spec fn redirect_uri_differs(
    grants: Seq<AuthorizationGrantView>,
    code: Seq<u8>,
    redirect_uri: Option<Seq<u8>>,
) -> bool {
    &&& redirect_uri is Some
    &&& code_index(grants, code) is Some
    &&& grants[code_index(grants, code)->Some_0].redirect_uri != redirect_uri->Some_0
}

/// The server after a request to the token endpoint, and the answer, where
/// new tokens are made with the material `m`.
///
/// A request that does not say who the client is fails as `invalid_client`;
/// one without a grant type, or without the code or the refresh token that
/// its grant type needs, as `invalid_request`; one with a grant type other
/// than `authorization_code` and `refresh_token` as
/// `unsupported_grant_type`; and one that names another redirect URI than
/// the one its code was asked for with as `invalid_grant`. Nothing changes
/// then. Otherwise the code is exchanged, or the refresh token presented,
/// and a failure is answered with its error code.
pub open spec fn spec_token(sv: ServerView, rq: TokenRequestView, now: u64, m: TokenMaterialView) -> (
    ServerView,
    Result<TokenSetView, OAuthErrorCode>,
) {
    if rq.credentials is None {
        (sv, Err(OAuthErrorCode::InvalidClient))
    } else if rq.grant_type is None {
        (sv, Err(OAuthErrorCode::InvalidRequest))
    } else if rq.grant_type->Some_0 == GrantType::AuthorizationCode.spec_name() {
        match rq.code {
            None => (sv, Err(OAuthErrorCode::InvalidRequest)),
            Some(code) => if redirect_uri_differs(sv.grants, code, rq.redirect_uri) {
                (sv, Err(OAuthErrorCode::InvalidGrant))
            } else {
                let out = spec_exchange_tokens(
                    sv,
                    code,
                    rq.credentials->Some_0,
                    rq.code_verifier,
                    now,
                    m,
                );
                (
                    out.0,
                    match out.1 {
                        Ok(set) => Ok(set),
                        Err(e) => Err(e.spec_code()),
                    },
                )
            },
        }
    } else if rq.grant_type->Some_0 == GrantType::RefreshToken.spec_name() {
        match rq.refresh_token {
            None => (sv, Err(OAuthErrorCode::InvalidRequest)),
            Some(token) => {
                let out = spec_refresh_tokens(sv, token, rq.credentials->Some_0, now, m);
                (
                    out.0,
                    match out.1 {
                        Ok(set) => Ok(set),
                        Err(e) => Err(e.spec_code()),
                    },
                )
            },
        }
    } else {
        (sv, Err(OAuthErrorCode::UnsupportedGrantType))
    }
}

impl AuthorizationServer {
    /// Answers a request to the authorization endpoint; a new grant gets the
    /// identifier `id` and the code `code`. `session` is the session of the
    /// user, where the user has one.
    pub fn authorize_with(
        &mut self,
        request: &AuthorizationRequest,
        session: Option<u128>,
        now: u64,
        id: u128,
        code: Vec<u8>,
    ) -> (r: AuthorizationAnswer)
        requires
            old(self).wf(),
        ensures
            final(self).wf(),
            final(self)@ == (ServerView {
                grants: spec_authorize(old(self)@, request@, session, now, id, code@).0,
                ..old(self)@
            }),
            r@ == spec_authorize(old(self)@, request@, session, now, id, code@).1,
    {
        let client = match request.client_id {
            Some(client_id) => match self.clients.lookup(client_id) {
                Some(c) => c,
                None => {
                    return AuthorizationAnswer::Refused(OAuthErrorCode::UnauthorizedClient);
                },
            },
            None => {
                return AuthorizationAnswer::Refused(OAuthErrorCode::UnauthorizedClient);
            },
        };
        let uri = match &request.redirect_uri {
            Some(uri) => uri,
            None => {
                return AuthorizationAnswer::Refused(OAuthErrorCode::InvalidRequest);
            },
        };
        if !client.has_redirect_uri(uri.as_slice()) {
            return AuthorizationAnswer::Refused(OAuthErrorCode::InvalidRequest);
        }
        let state: Option<&[u8]> = match &request.state {
            Some(s) => Some(s.as_slice()),
            None => None,
        };
        let response_type = match &request.response_type {
            Some(name) => ResponseType::parse(name.as_slice()),
            None => None,
        };
        let response_type = match response_type {
            Some(r) => r,
            None => {
                return refusal(uri.as_slice(), OAuthErrorCode::InvalidRequest, state);
            },
        };
        let scope = match &request.scope {
            Some(text) => match Scope::parse(text.as_slice()) {
                Ok(scope) => scope,
                Err(_) => {
                    return refusal(uri.as_slice(), OAuthErrorCode::InvalidScope, state);
                },
            },
            None => {
                return refusal(uri.as_slice(), OAuthErrorCode::InvalidScope, state);
            },
        };
        if !client.may_request(&scope) {
            return refusal(uri.as_slice(), OAuthErrorCode::InvalidScope, state);
        }
        let pkce = match &request.code_challenge {
            None => None,
            Some(challenge) => {
                let method = match &request.code_challenge_method {
                    None => PkceCodeChallengeMethod::Plain,
                    Some(name) => match PkceCodeChallengeMethod::parse(name.as_slice()) {
                        Some(m) => m,
                        None => {
                            return refusal(uri.as_slice(), OAuthErrorCode::InvalidRequest, state);
                        },
                    },
                };
                Some(PkceChallenge { challenge: to_vec(challenge.as_slice()), method })
            },
        };
        let answer = code_redirect(uri.as_slice(), code.as_slice(), state);
        let created = self.grants.create_with(
            id,
            code,
            now,
            client,
            to_vec(uri.as_slice()),
            scope,
            response_type,
            pkce,
            clone_opt_bytes(&request.state),
            clone_opt_bytes(&request.nonce),
        );
        match created {
            Err(e) => refusal(uri.as_slice(), e.code(), state),
            Ok(grant) => {
                let logged_in = match session {
                    Some(s) => self.directory.session(s).is_some(),
                    None => false,
                };
                if !logged_in {
                    return AuthorizationAnswer::Login(id);
                }
                match self.grants.fulfill(id, session.unwrap(), now) {
                    Ok(_) => AuthorizationAnswer::Redirect(answer),
                    Err(e) => refusal(uri.as_slice(), e.code(), state),
                }
            },
        }
    }

    /// Answers a request to the authorization endpoint; a new grant gets a
    /// fresh identifier, which holds the time `now`, and a freshly drawn
    /// code. Whatever is drawn, the answer is the one that `spec_authorize`
    /// gives for it.
    pub fn authorize(
        &mut self,
        rng: &mut StdRng,
        request: &AuthorizationRequest,
        session: Option<u128>,
        now: u64,
    ) -> (r: AuthorizationAnswer)
        requires
            old(self).wf(),
        ensures
            final(self).wf(),
            exists|id: u128, code: Seq<u8>|
                {
                    &&& spec_timestamp_ms(id) == spec_id_millis(now)
                    &&& is_drawn_code(code)
                    &&& r@ == (#[trigger] spec_authorize(
                        old(self)@,
                        request@,
                        session,
                        now,
                        id,
                        code,
                    )).1
                    &&& final(self)@ == (ServerView {
                        grants: spec_authorize(old(self)@, request@, session, now, id, code).0,
                        ..old(self)@
                    })
                },
    {
        let id = new_id(now, rng);
        let secret = random_bytes(rng, CODE_BYTES).unwrap();
        let code = base64url::encode(secret.as_slice());
        assert(code@ == base64url::spec_encode(secret@));
        assert(is_drawn_code(code@));
        let ghost cv = code@;
        let r = self.authorize_with(request, session, now, id, code);
        proof {
            assert(r@ == spec_authorize(old(self)@, request@, session, now, id, cv).1);
        }
        r
    }

    /// Answers a request to the token endpoint; new tokens are made with the
    /// material `m`.
    pub fn token_with(&mut self, request: &TokenRequest, now: u64, m: TokenMaterial) -> (r: Result<
        TokenSet,
        OAuthErrorCode,
    >)
        requires
            old(self).wf(),
        ensures
            final(self).wf(),
            final(self)@ == spec_token(old(self)@, request@, now, m@).0,
            match r {
                Ok(set) => spec_token(old(self)@, request@, now, m@).1 == Ok::<_, OAuthErrorCode>(
                    set@,
                ),
                Err(e) => spec_token(old(self)@, request@, now, m@).1 == Err::<TokenSetView, _>(e),
            },
    {
        let credentials = match &request.credentials {
            Some(c) => c,
            None => {
                return Err(OAuthErrorCode::InvalidClient);
            },
        };
        let grant_type = match &request.grant_type {
            Some(g) => g,
            None => {
                return Err(OAuthErrorCode::InvalidRequest);
            },
        };
        let verifier: Option<&[u8]> = match &request.code_verifier {
            Some(v) => Some(v.as_slice()),
            None => None,
        };
        if crate::bytes::bytes_eq(
            grant_type.as_slice(),
            GrantType::AuthorizationCode.name().as_slice(),
        ) {
            match &request.code {
                None => Err(OAuthErrorCode::InvalidRequest),
                Some(code) => {
                    let differs = match &request.redirect_uri {
                        Some(uri) => match self.grants.lookup_code(code.as_slice()) {
                            Some(grant) => !crate::bytes::bytes_eq(
                                grant.redirect_uri.as_slice(),
                                uri.as_slice(),
                            ),
                            None => false,
                        },
                        None => false,
                    };
                    if differs {
                        return Err(OAuthErrorCode::InvalidGrant);
                    }
                    match self.exchange_with(code.as_slice(), credentials, verifier, now, m) {
                        Ok(set) => Ok(set),
                        Err(e) => Err(e.code()),
                    }
                },
            }
        } else if crate::bytes::bytes_eq(
            grant_type.as_slice(),
            GrantType::RefreshToken.name().as_slice(),
        ) {
            match &request.refresh_token {
                None => Err(OAuthErrorCode::InvalidRequest),
                Some(token) => match self.refresh_with(token.as_slice(), credentials, now, m) {
                    Ok(set) => Ok(set),
                    Err(e) => Err(e.code()),
                },
            }
        } else {
            Err(OAuthErrorCode::UnsupportedGrantType)
        }
    }

    /// Answers a request to the token endpoint; new tokens are made with
    /// freshly drawn identifiers and texts. Whatever is drawn, the answer is
    /// the one that `spec_token` gives for it.
    pub fn token(&mut self, rng: &mut StdRng, request: &TokenRequest, now: u64) -> (r: Result<
        TokenSet,
        OAuthErrorCode,
    >)
        requires
            old(self).wf(),
        ensures
            final(self).wf(),
            exists|m: TokenMaterialView|
                {
                    &&& is_drawn_material(m, now)
                    &&& final(self)@ == (#[trigger] spec_token(old(self)@, request@, now, m)).0
                    &&& match r {
                        Ok(set) => spec_token(old(self)@, request@, now, m).1 == Ok::<
                            _,
                            OAuthErrorCode,
                        >(set@),
                        Err(e) => spec_token(old(self)@, request@, now, m).1 == Err::<
                            TokenSetView,
                            _,
                        >(e),
                    }
                },
    {
        let m = draw_material(rng, now);
        let ghost mv = m@;
        let r = self.token_with(request, now, m);
        proof {
            assert(self@ == spec_token(old(self)@, request@, now, mv).0);
            assert(is_drawn_material(mv, now));
        }
        r
    }
}

/// The redirect that tells the client of an error.
fn refusal(uri: &[u8], code: OAuthErrorCode, state: Option<&[u8]>) -> (r: AuthorizationAnswer)
    ensures
        r@ == spec_refusal(uri@, code, opt_slice_view(state)),
{
    AuthorizationAnswer::Redirect(error_redirect(uri, code, description(code).as_slice(), state))
}

} // verus!

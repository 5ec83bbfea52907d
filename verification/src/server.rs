//! The authorization server: the grant state machine, the token issuer and
//! the signer, joined. A code that passes the checks is exchanged for an
//! access token and, as the scope asks, a refresh token and an ID token.

use vstd::prelude::*;
use rand::rngs::StdRng;
use crate::base64url;
use crate::bytes::{clone_opt_bytes, opt_bytes_view, opt_slice_view, to_vec};
use crate::client::{
    client_index, ClientCredentials, ClientCredentialsView, ClientStore, ClientView,
};
use crate::grant::{
    code_index, deadline, grant_index, grants_wf, lemma_exchange_at_most_once,
    lemma_exchange_succeeds, spec_check_exchange, spec_create, spec_deadline, spec_fulfill,
    AuthorizationGrant, AuthorizationGrantView, EffectiveStatus, GrantError, GrantStatus,
    GrantStore,
};
use crate::iana::JsonWebSignatureAlg;
use crate::ident::{id_text, new_id, random_bytes, spec_id_text};
use crate::jose::claims::{IdTokenClaims, IdTokenClaimsView};
use crate::jose::jwk::{is_supported, keys_wf, signing_index, JsonWebKeyView};
use crate::jose::jwt::{spec_sign, JoseEngine, JoseError};
use crate::session::{
    account_index, attributes_view, spec_session, Attribute, AttributeView, Directory,
    DirectoryView, Session,
};
use crate::token::{
    family_exists, spec_introspect, spec_issue, spec_refresh, texts_free, RefreshTokenView,
    Subject, TokenError, TokenMaterial, TokenMaterialView, TokenStore, TokenStoreView,
};

verus! {

/// The number of random bytes in the text of a token.
pub const TOKEN_BYTES: usize = 32;

/// The scope token `offline_access`, which asks for a refresh token.
pub open spec fn offline_access() -> Seq<u8> {
    seq![
        0x6Fu8, 0x66u8, 0x66u8, 0x6Cu8, 0x69u8, 0x6Eu8, 0x65u8, 0x5Fu8, 0x61u8, 0x63u8, 0x63u8,
        0x65u8, 0x73u8, 0x73u8,
    ]
}

/// The scope token `openid`, which asks for an ID token.
pub open spec fn openid() -> Seq<u8> {
    seq![0x6Fu8, 0x70u8, 0x65u8, 0x6Eu8, 0x69u8, 0x64u8]
}

/// The scope token `offline_access`.
pub fn offline_access_token() -> (r: Vec<u8>)
    ensures
        r@ == offline_access(),
{
    vec![
        0x6Fu8, 0x66u8, 0x66u8, 0x6Cu8, 0x69u8, 0x6Eu8, 0x65u8, 0x5Fu8, 0x61u8, 0x63u8, 0x63u8,
        0x65u8, 0x73u8, 0x73u8,
    ]
}

/// The scope token `openid`.
pub fn openid_token() -> (r: Vec<u8>)
    ensures
        r@ == openid(),
{
    vec![0x6Fu8, 0x70u8, 0x65u8, 0x6Eu8, 0x69u8, 0x64u8]
}

/// The settings of a server.
#[derive(Debug, PartialEq, Eq)]
pub struct ServerConfig {
    /// The issuer identifier, which ID tokens name as their issuer.
    pub issuer: Vec<u8>,
    /// The algorithm with which ID tokens are signed.
    pub signing_alg: JsonWebSignatureAlg,
    /// For how many seconds an ID token is valid.
    pub id_token_ttl: u64,
}

/// The settings of a server as a mathematical value.
pub struct ServerConfigView {
    pub issuer: Seq<u8>,
    pub signing_alg: JsonWebSignatureAlg,
    pub id_token_ttl: u64,
}

impl ServerConfig {
    /// The value as a mathematical value, with its byte strings as sequences.
    pub open spec fn view(&self) -> ServerConfigView {
        ServerConfigView {
            issuer: self.issuer@,
            signing_alg: self.signing_alg,
            id_token_ttl: self.id_token_ttl,
        }
    }
}

/// What the token endpoint answers.
#[derive(Debug, PartialEq, Eq)]
pub struct TokenSet {
    pub access_token: Vec<u8>,
    /// For how many seconds the access token is valid.
    pub expires_in: u64,
    pub refresh_token: Option<Vec<u8>>,
    pub id_token: Option<Vec<u8>>,
}

/// A token set as a mathematical value.
pub struct TokenSetView {
    pub access_token: Seq<u8>,
    pub expires_in: u64,
    pub refresh_token: Option<Seq<u8>>,
    pub id_token: Option<Seq<u8>>,
}

impl TokenSet {
    /// The value as a mathematical value, with its byte strings as sequences.
    pub open spec fn view(&self) -> TokenSetView {
        TokenSetView {
            access_token: self.access_token@,
            expires_in: self.expires_in,
            refresh_token: opt_bytes_view(self.refresh_token),
            id_token: opt_bytes_view(self.id_token),
        }
    }

    /// The type of the access token: `Bearer`.
    pub fn token_type(&self) -> (r: Vec<u8>)
        ensures
            r@ == seq![0x42u8, 0x65u8, 0x61u8, 0x72u8, 0x65u8, 0x72u8],
    {
        vec![0x42u8, 0x65u8, 0x61u8, 0x72u8, 0x65u8, 0x72u8]
    }
}

/// The state of a server.
pub struct ServerView {
    pub clients: Seq<ClientView>,
    pub grants: Seq<AuthorizationGrantView>,
    pub grant_ttl: u64,
    pub tokens: TokenStoreView,
    pub access_ttl: u64,
    pub directory: DirectoryView,
    pub keys: Seq<JsonWebKeyView>,
    pub config: ServerConfigView,
}

/// The claims of the ID token that is issued at `now` for the grant `grant`,
/// fulfilled by `session`: the issuer is the server, the subject the account
/// of the session, the audience the client, and the nonce that of the
/// grant.
pub open spec fn id_claims(
    config: ServerConfigView,
    grant: AuthorizationGrantView,
    session: Session,
    now: u64,
) -> IdTokenClaimsView {
    IdTokenClaimsView {
        issuer: config.issuer,
        subject: spec_id_text(session.account_id),
        audience: spec_id_text(grant.client_id),
        issued_at: now,
        expires_at: spec_deadline(now, config.id_token_ttl),
        nonce: grant.nonce,
        auth_time: session.authenticated_at,
        acr: None,
    }
}

/// The ID token that goes with the tokens of `grant`: one where the scope
/// holds `openid`, signed with the server's algorithm; none otherwise.
pub open spec fn spec_id_token(
    keys: Seq<JsonWebKeyView>,
    config: ServerConfigView,
    grant: AuthorizationGrantView,
    session: Session,
    now: u64,
) -> Result<Option<Seq<u8>>, JoseError> {
    if grant.scope.contains(openid()) {
        match spec_sign(keys, id_claims(config, grant, session, now).members(), config.signing_alg) {
            Ok(token) => Ok(Some(token)),
            Err(e) => Err(e),
        }
    } else {
        Ok(None)
    }
}

/// The token of a refresh token, if there is one.
pub open spec fn refresh_text(refresh: Option<RefreshTokenView>) -> Option<Seq<u8>> {
    match refresh {
        Some(t) => Some(t.token),
        None => None,
    }
}

/// The state of the server after the code `code` has been presented, and the
/// answer.
///
/// The code is checked as `spec_check_exchange` says. Where it passes, the
/// tokens are made: the ID token, where the scope holds `openid`; an access
/// token; and, where the scope holds `offline_access`, the first refresh
/// token of a new family. Only then the grant becomes exchanged. Where the
/// session of the grant is gone, no key can sign, or a fresh identifier or
/// text is in use, the answer is `ServerError` and nothing changes, the
/// grant included.
pub open spec fn spec_exchange_tokens(
    sv: ServerView,
    code: Seq<u8>,
    credentials: ClientCredentialsView,
    verifier: Option<Seq<u8>>,
    now: u64,
    m: TokenMaterialView,
) -> (ServerView, Result<TokenSetView, GrantError>) {
    match spec_check_exchange(sv.grants, sv.clients, code, credentials, verifier, now) {
        Err(e) => (sv, Err(e)),
        Ok(i) => {
            let grant = sv.grants[i];
            match spec_session(sv.directory.sessions, grant.session->Some_0) {
                None => (sv, Err(GrantError::ServerError)),
                Some(session) => match spec_id_token(sv.keys, sv.config, grant, session, now) {
                    Err(_) => (sv, Err(GrantError::ServerError)),
                    Ok(id_token) => {
                        let issued = spec_issue(
                            sv.tokens,
                            Subject {
                                session: session.id,
                                client_id: grant.client_id,
                                scope: grant.scope,
                            },
                            grant.scope.contains(offline_access()),
                            now,
                            sv.access_ttl,
                            m,
                        );
                        match issued.1 {
                            Err(_) => (sv, Err(GrantError::ServerError)),
                            Ok((access, refresh)) => (
                                ServerView {
                                    grants: sv.grants.update(i, grant.exchanged()),
                                    tokens: issued.0,
                                    ..sv
                                },
                                Ok(
                                    TokenSetView {
                                        access_token: access.token,
                                        expires_in: sv.access_ttl,
                                        refresh_token: refresh_text(refresh),
                                        id_token,
                                    },
                                ),
                            ),
                        }
                    },
                },
            }
        },
    }
}

/// The error of the token endpoint for an error of the token store.
pub open spec fn spec_token_error(e: TokenError) -> GrantError {
    match e {
        TokenError::InvalidGrant => GrantError::InvalidGrant,
        TokenError::ServerError => GrantError::ServerError,
    }
}

/// The state of the server after the refresh token `token` has been
/// presented with `credentials`, and the answer. The credentials must be
/// those of a registered client, or the answer is `InvalidClient`; then the
/// token is presented to the token store for that client.
pub open spec fn spec_refresh_tokens(
    sv: ServerView,
    token: Seq<u8>,
    credentials: ClientCredentialsView,
    now: u64,
    m: TokenMaterialView,
) -> (ServerView, Result<TokenSetView, GrantError>) {
    match client_index(sv.clients, credentials.client_id) {
        None => (sv, Err(GrantError::InvalidClient)),
        Some(c) => if !sv.clients[c].accepts(credentials) {
            (sv, Err(GrantError::InvalidClient))
        } else {
            let refreshed = spec_refresh(
                sv.tokens,
                token,
                credentials.client_id,
                now,
                sv.access_ttl,
                m,
            );
            (
                ServerView { tokens: refreshed.0, ..sv },
                match refreshed.1 {
                    Ok((access, refresh)) => Ok(
                        TokenSetView {
                            access_token: access.token,
                            expires_in: sv.access_ttl,
                            refresh_token: Some(refresh.token),
                            id_token: None,
                        },
                    ),
                    Err(e) => Err(spec_token_error(e)),
                },
            )
        },
    }
}

/// What the user-info endpoint answers for the access token `token` at
/// `now`: the attributes of the account whose session the token was issued
/// for, where the token is usable and the session and the account are
/// there.
pub open spec fn spec_userinfo(sv: ServerView, token: Seq<u8>, now: u64) -> Option<
    Seq<AttributeView>,
> {
    match spec_introspect(sv.tokens, token, now) {
        None => None,
        Some(access) => match spec_session(sv.directory.sessions, access.session) {
            None => None,
            Some(session) => match account_index(sv.directory.accounts, session.account_id) {
                None => None,
                Some(a) => Some(sv.directory.accounts[a].attributes),
            },
        },
    }
}

/// An authorization server.
pub struct AuthorizationServer {
    pub clients: ClientStore,
    pub grants: GrantStore,
    pub tokens: TokenStore,
    pub directory: Directory,
    pub engine: JoseEngine,
    pub config: ServerConfig,
}

impl AuthorizationServer {
    /// The value as a mathematical value, with its byte strings as sequences.
    pub open spec fn view(&self) -> ServerView {
        ServerView {
            clients: self.clients@,
            grants: self.grants@,
            grant_ttl: self.grants.spec_ttl(),
            tokens: self.tokens@,
            access_ttl: self.tokens.spec_access_ttl(),
            directory: self.directory@,
            keys: self.engine@,
            config: self.config@,
        }
    }

    /// Every part of the server is well formed.
    pub open spec fn wf(&self) -> bool {
        &&& self.clients.wf()
        &&& self.grants.wf()
        &&& self.tokens.wf()
        &&& self.directory.wf()
        &&& self.engine.wf()
    }

    /// A server without clients, grants, tokens, accounts or sessions.
    pub fn new(config: ServerConfig, engine: JoseEngine, grant_ttl: u64, access_ttl: u64) -> (r:
        AuthorizationServer)
        requires
            engine.wf(),
        ensures
            r.wf(),
            r@.config == config@,
            r@.keys == engine@,
            r@.grant_ttl == grant_ttl,
            r@.access_ttl == access_ttl,
            r@.clients.len() == 0,
            r@.grants.len() == 0,
            r@.tokens.access.len() == 0,
            r@.tokens.refresh.len() == 0,
            r@.directory.sessions.len() == 0,
            r@.directory.accounts.len() == 0,
    {
        AuthorizationServer {
            clients: ClientStore::new(),
            grants: GrantStore::new(grant_ttl),
            tokens: TokenStore::new(access_ttl),
            directory: Directory::new(),
            engine,
            config,
        }
    }

    /// Fulfills the pending grant `grant_id` with the session `session_id`
    /// of the user who authenticated. A session that the directory does not
    /// hold is an invalid request.
    pub fn fulfill(&mut self, grant_id: u128, session_id: u128, now: u64) -> (r: Result<
        (),
        GrantError,
    >)
        requires
            old(self).wf(),
        ensures
            final(self).wf(),
            final(self)@ == (ServerView {
                grants: if spec_session(old(self)@.directory.sessions, session_id) is Some {
                    spec_fulfill(old(self)@.grants, grant_id, session_id, now).0
                } else {
                    old(self)@.grants
                },
                ..old(self)@
            }),
            r == if spec_session(old(self)@.directory.sessions, session_id) is Some {
                spec_fulfill(old(self)@.grants, grant_id, session_id, now).1
            } else {
                Err(GrantError::InvalidRequest)
            },
    {
        if self.directory.session(session_id).is_none() {
            return Err(GrantError::InvalidRequest);
        }
        self.grants.fulfill(grant_id, session_id, now)
    }

    /// The attributes of the account that the access token `token` stands
    /// for, where the token is usable at `now`.
    pub fn userinfo(&self, token: &[u8], now: u64) -> (r: Option<Vec<Attribute>>)
        requires
            self.wf(),
        ensures
            match r {
                Some(a) => spec_userinfo(self@, token@, now) == Some(attributes_view(a@)),
                None => spec_userinfo(self@, token@, now) is None,
            },
    {
        let access = match self.tokens.introspect(token, now) {
            Some(t) => t,
            None => {
                return None;
            },
        };
        let session = match self.directory.session(access.session) {
            Some(s) => s,
            None => {
                return None;
            },
        };
        self.directory.account_attributes(session.account_id)
    }

    /// The ID token that goes with the tokens of `grant`.
    fn id_token(&self, grant: &AuthorizationGrant, session: &Session, now: u64) -> (r: Result<
        Option<Vec<u8>>,
        JoseError,
    >)
        requires
            self.wf(),
            grant.wf(),
        ensures
            match r {
                Ok(t) => spec_id_token(self@.keys, self@.config, grant@, *session, now) == Ok::<
                    _,
                    JoseError,
                >(opt_bytes_view(t)),
                Err(e) => spec_id_token(self@.keys, self@.config, grant@, *session, now) == Err::<
                    Option<Seq<u8>>,
                    _,
                >(e),
            },
    {
        if !grant.scope.contains(openid_token().as_slice()) {
            return Ok(None);
        }
        let claims = IdTokenClaims {
            issuer: to_vec(self.config.issuer.as_slice()),
            subject: id_text(session.account_id),
            audience: id_text(grant.client_id),
            issued_at: now,
            expires_at: deadline(now, self.config.id_token_ttl),
            nonce: clone_opt_bytes(&grant.nonce),
            auth_time: session.authenticated_at,
            acr: None,
        };
        assert(claims@ == id_claims(self@.config, grant@, *session, now));
        match self.engine.sign(&claims.to_claims(), self.config.signing_alg) {
            Ok(token) => Ok(Some(token)),
            Err(e) => Err(e),
        }
    }

    /// Exchanges the code `code` for tokens, which are made with the fresh
    /// identifiers and texts of `m`.
    pub fn exchange_with(
        &mut self,
        code: &[u8],
        credentials: &ClientCredentials,
        code_verifier: Option<&[u8]>,
        now: u64,
        m: TokenMaterial,
    ) -> (r: Result<TokenSet, GrantError>)
        requires
            old(self).wf(),
        ensures
            final(self).wf(),
            final(self)@ == spec_exchange_tokens(
                old(self)@,
                code@,
                credentials@,
                opt_slice_view(code_verifier),
                now,
                m@,
            ).0,
            match r {
                Ok(set) => spec_exchange_tokens(
                    old(self)@,
                    code@,
                    credentials@,
                    opt_slice_view(code_verifier),
                    now,
                    m@,
                ).1 == Ok::<_, GrantError>(set@),
                Err(e) => spec_exchange_tokens(
                    old(self)@,
                    code@,
                    credentials@,
                    opt_slice_view(code_verifier),
                    now,
                    m@,
                ).1 == Err::<TokenSetView, _>(e),
            },
    {
        let i = match self.grants.check_exchange(
            &self.clients,
            code,
            credentials,
            code_verifier,
            now,
        ) {
            Ok(i) => i,
            Err(e) => {
                return Err(e);
            },
        };
        let grant = match self.grants.get(i) {
            Some(g) => g,
            None => {
                return Err(GrantError::ServerError);
            },
        };
        proof {
            self.grants.lemma_wf();
            assert(grant@.wf());
            assert(grant@.status == GrantStatus::Fulfilled);
        }
        let session_id = match grant.session {
            Some(s) => s,
            None => {
                return Err(GrantError::ServerError);
            },
        };
        let session = match self.directory.session(session_id) {
            Some(s) => s,
            None => {
                return Err(GrantError::ServerError);
            },
        };
        let id_token = match self.id_token(&grant, &session, now) {
            Ok(t) => t,
            Err(_) => {
                return Err(GrantError::ServerError);
            },
        };
        let offline = grant.scope.contains(offline_access_token().as_slice());
        let issued = self.tokens.issue_with(
            session.id,
            grant.client_id,
            &grant.scope,
            offline,
            now,
            m,
        );
        let (access, refresh) = match issued {
            Ok(pair) => pair,
            Err(_) => {
                return Err(GrantError::ServerError);
            },
        };
        self.grants.mark_exchanged(i);
        let refresh_token = match refresh {
            Some(t) => Some(t.token),
            None => None,
        };
        Ok(
            TokenSet {
                access_token: access.token,
                expires_in: self.tokens.access_ttl(),
                refresh_token,
                id_token,
            },
        )
    }

    /// Exchanges the code `code` for tokens with freshly drawn identifiers
    /// and texts. The outcome is the one that `spec_exchange_tokens` gives
    /// for what was drawn: a code that does not pass the checks is refused
    /// with the error of the first check that fails, whatever was drawn; a
    /// code that passes them is exchanged, unless the session of the grant is
    /// gone, no key can sign, or what was drawn is in use, which is a
    /// `ServerError` and changes nothing.
    pub fn exchange(
        &mut self,
        rng: &mut StdRng,
        code: &[u8],
        credentials: &ClientCredentials,
        code_verifier: Option<&[u8]>,
        now: u64,
    ) -> (r: Result<TokenSet, GrantError>)
        requires
            old(self).wf(),
        ensures
            final(self).wf(),
            spec_check_exchange(
                old(self)@.grants,
                old(self)@.clients,
                code@,
                credentials@,
                opt_slice_view(code_verifier),
                now,
            ) matches Err(e) ==> r == Err::<TokenSet, _>(e),
            r is Err ==> final(self)@ == old(self)@,
            exists|m: TokenMaterialView|
                {
                    &&& is_drawn_material(m, now)
                    &&& (#[trigger] spec_exchange_tokens(
                        old(self)@,
                        code@,
                        credentials@,
                        opt_slice_view(code_verifier),
                        now,
                        m,
                    )).0 == final(self)@
                    &&& match r {
                        Ok(set) => spec_exchange_tokens(
                            old(self)@,
                            code@,
                            credentials@,
                            opt_slice_view(code_verifier),
                            now,
                            m,
                        ).1 == Ok::<_, GrantError>(set@),
                        Err(e) => spec_exchange_tokens(
                            old(self)@,
                            code@,
                            credentials@,
                            opt_slice_view(code_verifier),
                            now,
                            m,
                        ).1 == Err::<TokenSetView, _>(e),
                    }
                },
    {
        let m = draw_material(rng, now);
        let ghost mv = m@;
        let r = self.exchange_with(code, credentials, code_verifier, now, m);
        proof {
            let out = spec_exchange_tokens(
                old(self)@,
                code@,
                credentials@,
                opt_slice_view(code_verifier),
                now,
                mv,
            );
            assert(out.0 == self@);
            assert(is_drawn_material(mv, now));
        }
        r
    }

    /// Presents the refresh token `token` with the credentials of the client;
    /// the tokens are made with the fresh identifiers and texts of `m`.
    pub fn refresh_with(
        &mut self,
        token: &[u8],
        credentials: &ClientCredentials,
        now: u64,
        m: TokenMaterial,
    ) -> (r: Result<TokenSet, GrantError>)
        requires
            old(self).wf(),
        ensures
            final(self).wf(),
            final(self)@ == spec_refresh_tokens(old(self)@, token@, credentials@, now, m@).0,
            match r {
                Ok(set) => spec_refresh_tokens(old(self)@, token@, credentials@, now, m@).1 == Ok::<
                    _,
                    GrantError,
                >(set@),
                Err(e) => spec_refresh_tokens(old(self)@, token@, credentials@, now, m@).1 == Err::<
                    TokenSetView,
                    _,
                >(e),
            },
    {
        let accepted = match self.clients.lookup(credentials.client_id) {
            Some(client) => client.verify_credentials(credentials),
            None => false,
        };
        if !accepted {
            return Err(GrantError::InvalidClient);
        }
        match self.tokens.refresh_with(token, credentials.client_id, now, m) {
            Ok((access, refresh)) => Ok(
                TokenSet {
                    access_token: access.token,
                    expires_in: self.tokens.access_ttl(),
                    refresh_token: Some(refresh.token),
                    id_token: None,
                },
            ),
            Err(TokenError::InvalidGrant) => Err(GrantError::InvalidGrant),
            Err(_) => Err(GrantError::ServerError),
        }
    }

    /// Presents the refresh token `token` with the credentials of the client;
    /// the tokens are made with freshly drawn identifiers and texts.
    /// Whatever was drawn, tokens are returned only where `spec_refresh_tokens`
    /// gives them.
    pub fn refresh(
        &mut self,
        rng: &mut StdRng,
        token: &[u8],
        credentials: &ClientCredentials,
        now: u64,
    ) -> (r: Result<TokenSet, GrantError>)
        requires
            old(self).wf(),
        ensures
            final(self).wf(),
            exists|m: TokenMaterialView|
                {
                    &&& is_drawn_material(m, now)
                    &&& (#[trigger] spec_refresh_tokens(old(self)@, token@, credentials@, now, m)).0
                        == final(self)@
                    &&& match r {
                        Ok(set) => spec_refresh_tokens(old(self)@, token@, credentials@, now, m).1
                            == Ok::<_, GrantError>(set@),
                        Err(e) => spec_refresh_tokens(old(self)@, token@, credentials@, now, m).1
                            == Err::<TokenSetView, _>(e),
                    }
                },
    {
        let m = draw_material(rng, now);
        let ghost mv = m@;
        let r = self.refresh_with(token, credentials, now, m);
        proof {
            assert(spec_refresh_tokens(old(self)@, token@, credentials@, now, mv).0 == self@);
            assert(is_drawn_material(mv, now));
        }
        r
    }
}

/// Whether `text` is the unpadded base64url text of `TOKEN_BYTES` bytes, as
/// the drawn text of a token is.
pub open spec fn is_drawn_text(text: Seq<u8>) -> bool {
    exists|drawn: Seq<u8>|
        drawn.len() == TOKEN_BYTES && text == #[trigger] base64url::spec_encode(drawn)
}

/// Whether `m` is material as it is drawn at `now`: its identifiers hold the
/// time `now`, and its texts are the unpadded base64url texts of
/// `TOKEN_BYTES` bytes each.
pub open spec fn is_drawn_material(m: TokenMaterialView, now: u64) -> bool {
    &&& crate::ident::spec_timestamp_ms(m.access_id) == crate::ident::spec_id_millis(now)
    &&& crate::ident::spec_timestamp_ms(m.refresh_id) == crate::ident::spec_id_millis(now)
    &&& crate::ident::spec_timestamp_ms(m.family_id) == crate::ident::spec_id_millis(now)
    &&& is_drawn_text(m.access_token)
    &&& is_drawn_text(m.refresh_token)
}

/// Fresh identifiers and texts for the tokens of one issuance: identifiers
/// that hold the time `now`, and texts of `TOKEN_BYTES` random bytes written
/// as unpadded base64url.
pub fn draw_material(rng: &mut StdRng, now: u64) -> (m: TokenMaterial)
    ensures
        is_drawn_material(m@, now),
{
    let access_id = new_id(now, rng);
    let refresh_id = new_id(now, rng);
    let family_id = new_id(now, rng);
    let a = random_bytes(rng, TOKEN_BYTES).unwrap();
    let b = random_bytes(rng, TOKEN_BYTES).unwrap();
    let access_token = base64url::encode(a.as_slice());
    let refresh_token = base64url::encode(b.as_slice());
    proof {
        assert(access_token@ == base64url::spec_encode(a@));
        assert(refresh_token@ == base64url::spec_encode(b@));
    }
    TokenMaterial { access_id, access_token, refresh_id, refresh_token, family_id }
}

/// At the server, a code is exchanged at most once: after tokens have been
/// issued for `code`, every further presentation of the same code is refused
/// with `InvalidGrant` and changes nothing, whoever asks, with whatever
/// verifier, and whenever.
pub proof fn lemma_code_is_single_use(
    sv: ServerView,
    code: Seq<u8>,
    credentials: ClientCredentialsView,
    verifier: Option<Seq<u8>>,
    now: u64,
    m: TokenMaterialView,
    later_credentials: ClientCredentialsView,
    later_verifier: Option<Seq<u8>>,
    later: u64,
    later_m: TokenMaterialView,
)
    requires
        grants_wf(sv.grants),
        spec_exchange_tokens(sv, code, credentials, verifier, now, m).1 is Ok,
    ensures
        ({
            let after = spec_exchange_tokens(sv, code, credentials, verifier, now, m).0;
            let again = spec_exchange_tokens(
                after,
                code,
                later_credentials,
                later_verifier,
                later,
                later_m,
            );
            &&& grants_wf(after.grants)
            &&& again.1 == Err::<TokenSetView, _>(GrantError::InvalidGrant)
            &&& again.0 == after
        }),
{
    lemma_exchange_at_most_once(
        sv.grants,
        sv.clients,
        code,
        credentials,
        verifier,
        now,
        sv.clients,
        later_credentials,
        later_verifier,
        later,
    );
}

/// Whether the server can make the tokens for the grant at `i` with the
/// material `m`: the session that fulfilled the grant is there; where the
/// scope holds `openid`, a key signs for the server's algorithm; no access
/// token has the access text; and, where the scope holds `offline_access`,
/// no refresh token has the refresh text and no family the identifier.
pub open spec fn can_issue_for(sv: ServerView, i: int, m: TokenMaterialView) -> bool {
    let grant = sv.grants[i];
    let offline = grant.scope.contains(offline_access());
    &&& grant.session matches Some(session) && spec_session(sv.directory.sessions, session)
        is Some
    &&& grant.scope.contains(openid()) ==> signing_index(sv.keys, sv.config.signing_alg) is Some
    &&& texts_free(sv.tokens, m, offline)
    &&& offline ==> !family_exists(sv.tokens.refresh, m.family_id)
}

/// A code is exchanged for tokens where it is due. The code of a grant that
/// is fulfilled and not expired, presented with the credentials of the
/// client that owns the grant and, where the grant has a code challenge,
/// with a verifier that answers it, is never refused as invalid: tokens are
/// issued, and the grant becomes exchanged, exactly where the server can
/// make them. Where it cannot, the answer is `ServerError` and nothing
/// changes, so that the code can be presented again.
pub proof fn lemma_exchange_tokens_succeeds(
    sv: ServerView,
    i: int,
    credentials: ClientCredentialsView,
    verifier: Option<Seq<u8>>,
    now: u64,
    m: TokenMaterialView,
)
    requires
        grants_wf(sv.grants),
        keys_wf(sv.keys),
        0 <= i < sv.grants.len(),
        sv.grants[i].status_at(now) == EffectiveStatus::Fulfilled,
        client_index(sv.clients, sv.grants[i].client_id) matches Some(c) && sv.clients[c].accepts(
            credentials,
        ),
        sv.grants[i].pkce matches Some(challenge) ==> verifier matches Some(v) && challenge.accepts(
            v,
        ),
    ensures
        ({
            let out = spec_exchange_tokens(
                sv,
                sv.grants[i].code->Some_0,
                credentials,
                verifier,
                now,
                m,
            );
            &&& out.1 is Ok <==> can_issue_for(sv, i, m)
            &&& out.1 is Ok ==> {
                &&& out.0.grants == sv.grants.update(i, sv.grants[i].exchanged())
                &&& out.0.grants[i].status == GrantStatus::Exchanged
                &&& out.1->Ok_0.access_token == m.access_token
                &&& out.1->Ok_0.expires_in == sv.access_ttl
            }
            &&& out.1 is Err ==> out.1 == Err::<TokenSetView, _>(GrantError::ServerError) && out.0
                == sv
        }),
{
    let code = sv.grants[i].code->Some_0;
    lemma_exchange_succeeds(sv.grants, sv.clients, i, credentials, verifier, now);
    assert(sv.grants[i].wf());
    assert(spec_check_exchange(sv.grants, sv.clients, code, credentials, verifier, now) == Ok::<
        int,
        GrantError,
    >(i)) by {
        let w = code_index(sv.grants, code)->Some_0;
        assert(sv.grants[i].code == Some(code));
        if w < i {
            assert(sv.grants[w].code != sv.grants[i].code);
        } else if w > i {
            assert(sv.grants[i].code != sv.grants[w].code);
        }
    }
    if sv.grants[i].scope.contains(openid()) && signing_index(sv.keys, sv.config.signing_alg)
        is Some {
        let k = signing_index(sv.keys, sv.config.signing_alg)->Some_0;
        assert(is_supported(sv.keys[k].alg));
    }
}

/// A code is exchanged exactly once. The code of a grant that is fulfilled
/// and not expired, presented as it is due to a server that can make the
/// tokens, is exchanged; and every further presentation of the same code is
/// refused with `InvalidGrant` and changes nothing, whoever asks, with
/// whatever verifier, and whenever.
pub proof fn lemma_exchange_exactly_once(
    sv: ServerView,
    i: int,
    credentials: ClientCredentialsView,
    verifier: Option<Seq<u8>>,
    now: u64,
    m: TokenMaterialView,
    later_credentials: ClientCredentialsView,
    later_verifier: Option<Seq<u8>>,
    later: u64,
    later_m: TokenMaterialView,
)
    requires
        grants_wf(sv.grants),
        keys_wf(sv.keys),
        0 <= i < sv.grants.len(),
        sv.grants[i].status_at(now) == EffectiveStatus::Fulfilled,
        client_index(sv.clients, sv.grants[i].client_id) matches Some(c) && sv.clients[c].accepts(
            credentials,
        ),
        sv.grants[i].pkce matches Some(challenge) ==> verifier matches Some(v) && challenge.accepts(
            v,
        ),
        can_issue_for(sv, i, m),
    ensures
        ({
            let code = sv.grants[i].code->Some_0;
            let first = spec_exchange_tokens(sv, code, credentials, verifier, now, m);
            let second = spec_exchange_tokens(
                first.0,
                code,
                later_credentials,
                later_verifier,
                later,
                later_m,
            );
            &&& first.1 is Ok
            &&& second.1 == Err::<TokenSetView, _>(GrantError::InvalidGrant)
            &&& second.0 == first.0
        }),
{
    lemma_exchange_tokens_succeeds(sv, i, credentials, verifier, now, m);
    lemma_code_is_single_use(
        sv,
        sv.grants[i].code->Some_0,
        credentials,
        verifier,
        now,
        m,
        later_credentials,
        later_verifier,
        later,
        later_m,
    );
}

/// The whole of the code flow. A grant is created for a valid request, is
/// fulfilled by `session` before it expires, and its code is presented
/// before it expires, with the credentials of its client and, where the
/// request had a code challenge, a verifier that answers it, to a server
/// that can make the tokens. Then fulfilling succeeds, and the exchange
/// answers with an access token that is valid for the configured time and,
/// exactly where the scope holds `offline_access`, with a refresh token,
/// which is of generation 0.
pub proof fn lemma_code_flow(
    sv: ServerView,
    grant: AuthorizationGrantView,
    client: ClientView,
    session: u128,
    fulfilled_at: u64,
    credentials: ClientCredentialsView,
    verifier: Option<Seq<u8>>,
    now: u64,
    m: TokenMaterialView,
)
    requires
        grants_wf(sv.grants),
        keys_wf(sv.keys),
        grant.status == GrantStatus::Pending,
        grant.session is None,
        grant.code is Some,
        spec_create(sv.grants, grant, client) is Ok,
        fulfilled_at < grant.expires_at,
        now < grant.expires_at,
        client_index(sv.clients, grant.client_id) matches Some(c) && sv.clients[c].accepts(
            credentials,
        ),
        grant.pkce matches Some(challenge) ==> verifier matches Some(v) && challenge.accepts(v),
        can_issue_for(
            ServerView { grants: sv.grants.push(grant.fulfilled(session)), ..sv },
            sv.grants.len() as int,
            m,
        ),
    ensures
        ({
            let created = sv.grants.push(grant);
            let fulfilled = spec_fulfill(created, grant.id, session, fulfilled_at);
            let out = spec_exchange_tokens(
                ServerView { grants: fulfilled.0, ..sv },
                grant.code->Some_0,
                credentials,
                verifier,
                now,
                m,
            );
            let offline = grant.scope.contains(offline_access());
            &&& fulfilled.1 is Ok
            &&& fulfilled.0 == sv.grants.push(grant.fulfilled(session))
            &&& out.1 matches Ok(set) && {
                &&& set.access_token == m.access_token
                &&& set.expires_in == sv.access_ttl
                &&& set.refresh_token is Some <==> offline
                &&& offline ==> {
                    &&& set.refresh_token == Some(m.refresh_token)
                    &&& out.0.tokens.refresh.last().token == m.refresh_token
                    &&& out.0.tokens.refresh.last().generation == 0
                }
            }
            &&& out.0.grants == fulfilled.0.update(
                sv.grants.len() as int,
                grant.fulfilled(session).exchanged(),
            )
        }),
{
    let n = sv.grants.len() as int;
    let created = sv.grants.push(grant);
    assert(created[n] == grant);
    assert(grant_index(sv.grants, grant.id) is None);
    assert(code_index(sv.grants, grant.code->Some_0) is None);
    assert forall|k: int| 0 <= k < n implies (#[trigger] sv.grants[k]).id != grant.id && sv.grants[k].code
        != grant.code by {}
    assert(grant_index(created, grant.id) == Some(n)) by {
        let w = grant_index(created, grant.id)->Some_0;
        if w < n {
            assert(created[w] == sv.grants[w]);
        }
    }
    let after = created.update(n, grant.fulfilled(session));
    assert(after =~= sv.grants.push(grant.fulfilled(session)));
    assert(grants_wf(after)) by {
        assert forall|a: int, b: int| 0 <= a < b < after.len() implies (#[trigger] after[a]).id != (
        #[trigger] after[b]).id by {
            if b < n {
                assert(sv.grants[a].id != sv.grants[b].id);
            } else {
                assert(after[a] == sv.grants[a]);
            }
        }
        assert forall|a: int, b: int|
            0 <= a < b < after.len() && (#[trigger] after[a]).code is Some implies after[a].code != (
            #[trigger] after[b]).code by {
            if b < n {
                assert(sv.grants[a].code is Some ==> sv.grants[a].code != sv.grants[b].code);
            } else {
                assert(after[a] == sv.grants[a]);
            }
        }
        assert forall|a: int| 0 <= a < after.len() implies (#[trigger] after[a]).wf() by {
            if a < n {
                assert(sv.grants[a].wf());
            }
        }
    }
    let sv2 = ServerView { grants: after, ..sv };
    lemma_exchange_tokens_succeeds(sv2, n, credentials, verifier, now, m);
    lemma_exchange_answer(sv2, grant.code->Some_0, credentials, verifier, now, m);
}

/// What a successful exchange answers: an access token that is valid for the
/// configured time, and a refresh token exactly where the scope of the grant
/// holds `offline_access`; that refresh token is the first of a new family,
/// generation 0.
pub proof fn lemma_exchange_answer(
    sv: ServerView,
    code: Seq<u8>,
    credentials: ClientCredentialsView,
    verifier: Option<Seq<u8>>,
    now: u64,
    m: TokenMaterialView,
)
    requires
        spec_exchange_tokens(sv, code, credentials, verifier, now, m).1 is Ok,
    ensures
        ({
            let out = spec_exchange_tokens(sv, code, credentials, verifier, now, m);
            let set = out.1->Ok_0;
            let i = spec_check_exchange(sv.grants, sv.clients, code, credentials, verifier, now)->Ok_0;
            let offline = sv.grants[i].scope.contains(offline_access());
            &&& set.expires_in == sv.access_ttl
            &&& set.access_token == m.access_token
            &&& out.0.tokens.access.last().token == m.access_token
            &&& out.0.tokens.access.last().expires_at == spec_deadline(now, sv.access_ttl)
            &&& set.refresh_token is Some <==> offline
            &&& offline ==> {
                &&& set.refresh_token == Some(m.refresh_token)
                &&& out.0.tokens.refresh.last().token == m.refresh_token
                &&& out.0.tokens.refresh.last().generation == 0
                &&& out.0.tokens.refresh.last().family == m.family_id
            }
            &&& set.id_token is Some <==> sv.grants[i].scope.contains(openid())
        }),
{
}

} // verus!

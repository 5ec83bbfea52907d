//! The authorization grant: one attempt at the authorization-code flow, from
//! the authorization request to the exchange of the code for tokens.
//!
//! A grant is `Pending` when created, `Fulfilled` once the user has
//! authenticated, and `Exchanged` once its code has been redeemed; a pending
//! grant that the user declines is `Cancelled`. A grant past its time to live
//! is expired whatever its stored status says; this is found out whenever the
//! grant is used, not by a sweep.

use vstd::prelude::*;
use rand::rngs::StdRng;
use crate::base64url;
use crate::bytes::{bytes_eq, clone_opt_bytes, opt_bytes_view, opt_slice_view, to_vec};
use crate::client::{client_index, Client, ClientCredentials, ClientCredentialsView, ClientStore, ClientView};
use crate::iana::{OAuthErrorCode, ResponseType};
use crate::ident::{new_id, random_bytes};
use crate::pkce::{clone_opt_challenge, opt_challenge_view, PkceChallenge, PkceChallengeView};
use crate::scope::Scope;

verus! {

/// The number of random bytes in an authorization code.
pub const CODE_BYTES: usize = 32;

/// The stored status of a grant.
#[derive(Clone, Copy, Debug, PartialEq, Eq, Structural)]
pub enum GrantStatus {
    Pending,
    Fulfilled,
    Exchanged,
    Cancelled,
}

/// The status of a grant at a given time.
#[derive(Clone, Copy, Debug, PartialEq, Eq, Structural)]
pub enum EffectiveStatus {
    Pending,
    Fulfilled,
    Exchanged,
    Cancelled,
    Expired,
}

/// Why an operation on a grant failed.
#[derive(Clone, Copy, Debug, PartialEq, Eq, Structural)]
pub enum GrantError {
    /// The redirect URI is not registered for the client, or the scope is
    /// more than the client may request.
    InvalidRequest,
    /// The grant is not pending: it is unknown, fulfilled, exchanged,
    /// cancelled or expired.
    GrantNotPending,
    /// The code is unknown, used, expired or not yet fulfilled, or the code
    /// verifier is missing or wrong.
    InvalidGrant,
    /// The credentials are not those of the client that owns the grant.
    InvalidClient,
    /// A freshly drawn identifier or code is already in use.
    ServerError,
}

impl GrantError {
    /// The error code under which the failure is reported to the client.
    pub open spec fn spec_code(self) -> OAuthErrorCode {
        match self {
            GrantError::InvalidRequest => OAuthErrorCode::InvalidRequest,
            GrantError::GrantNotPending => OAuthErrorCode::InvalidGrant,
            GrantError::InvalidGrant => OAuthErrorCode::InvalidGrant,
            GrantError::InvalidClient => OAuthErrorCode::InvalidClient,
            GrantError::ServerError => OAuthErrorCode::ServerError,
        }
    }

    /// The error code under which the failure is reported to the client.
    pub fn code(&self) -> (c: OAuthErrorCode)
        ensures
            c == self.spec_code(),
    {
        match self {
            GrantError::InvalidRequest => OAuthErrorCode::InvalidRequest,
            GrantError::GrantNotPending => OAuthErrorCode::InvalidGrant,
            GrantError::InvalidGrant => OAuthErrorCode::InvalidGrant,
            GrantError::InvalidClient => OAuthErrorCode::InvalidClient,
            GrantError::ServerError => OAuthErrorCode::ServerError,
        }
    }
}

/// The time at which something made at `now` and living for `ttl` seconds
/// ends: `now + ttl`, or the largest time where that does not fit.
pub open spec fn spec_deadline(now: u64, ttl: u64) -> u64 {
    if now + ttl > u64::MAX {
        u64::MAX
    } else {
        (now + ttl) as u64
    }
}

/// The time at which something made at `now` and living for `ttl` seconds
/// ends.
pub fn deadline(now: u64, ttl: u64) -> (r: u64)
    ensures
        r == spec_deadline(now, ttl),
{
    if now > u64::MAX - ttl {
        u64::MAX
    } else {
        now + ttl
    }
}

/// One authorization attempt.
#[derive(Debug)]
pub struct AuthorizationGrant {
    pub id: u128,
    pub client_id: u128,
    pub scope: Scope,
    pub response_type: ResponseType,
    pub redirect_uri: Vec<u8>,
    pub pkce: Option<PkceChallenge>,
    /// The `state` of the request, echoed to the client.
    pub state: Option<Vec<u8>>,
    /// The `nonce` of the request, copied into the ID token.
    pub nonce: Option<Vec<u8>>,
    pub created_at: u64,
    pub expires_at: u64,
    pub status: GrantStatus,
    /// The session of the user who fulfilled the grant.
    pub session: Option<u128>,
    /// The authorization code, while the grant is pending or fulfilled.
    pub code: Option<Vec<u8>>,
}

/// A grant as a mathematical value.
pub struct AuthorizationGrantView {
    pub id: u128,
    pub client_id: u128,
    pub scope: Seq<Seq<u8>>,
    pub response_type: ResponseType,
    pub redirect_uri: Seq<u8>,
    pub pkce: Option<PkceChallengeView>,
    pub state: Option<Seq<u8>>,
    pub nonce: Option<Seq<u8>>,
    pub created_at: u64,
    pub expires_at: u64,
    pub status: GrantStatus,
    pub session: Option<u128>,
    pub code: Option<Seq<u8>>,
}

impl AuthorizationGrantView {
    /// The code is there exactly while the grant is pending or fulfilled, and
    /// the session exactly once it is fulfilled.
    pub open spec fn wf(self) -> bool {
        &&& self.code is Some <==> (self.status == GrantStatus::Pending || self.status
            == GrantStatus::Fulfilled)
        &&& self.session is Some <==> (self.status == GrantStatus::Fulfilled || self.status
            == GrantStatus::Exchanged)
    }

    /// Whether the grant's time to live is over at `now`.
    pub open spec fn expired_at(self, now: u64) -> bool {
        now >= self.expires_at
    }

    /// The status of the grant at `now`: a pending or fulfilled grant past
    /// its time to live is expired.
    pub open spec fn status_at(self, now: u64) -> EffectiveStatus {
        match self.status {
            GrantStatus::Exchanged => EffectiveStatus::Exchanged,
            GrantStatus::Cancelled => EffectiveStatus::Cancelled,
            GrantStatus::Pending => if self.expired_at(now) {
                EffectiveStatus::Expired
            } else {
                EffectiveStatus::Pending
            },
            GrantStatus::Fulfilled => if self.expired_at(now) {
                EffectiveStatus::Expired
            } else {
                EffectiveStatus::Fulfilled
            },
        }
    }

    /// The grant, fulfilled by `session`.
    pub open spec fn fulfilled(self, session: u128) -> AuthorizationGrantView {
        AuthorizationGrantView { status: GrantStatus::Fulfilled, session: Some(session), ..self }
    }

    /// The grant, cancelled: its code is gone.
    pub open spec fn cancelled(self) -> AuthorizationGrantView {
        AuthorizationGrantView { status: GrantStatus::Cancelled, code: None, ..self }
    }

    /// The grant, exchanged: its code is gone.
    pub open spec fn exchanged(self) -> AuthorizationGrantView {
        AuthorizationGrantView { status: GrantStatus::Exchanged, code: None, ..self }
    }
}

impl AuthorizationGrant {
    /// The value as a mathematical value, with its byte strings as sequences.
    pub open spec fn view(&self) -> AuthorizationGrantView {
        AuthorizationGrantView {
            id: self.id,
            client_id: self.client_id,
            scope: self.scope@,
            response_type: self.response_type,
            redirect_uri: self.redirect_uri@,
            pkce: opt_challenge_view(self.pkce),
            state: opt_bytes_view(self.state),
            nonce: opt_bytes_view(self.nonce),
            created_at: self.created_at,
            expires_at: self.expires_at,
            status: self.status,
            session: self.session,
            code: opt_bytes_view(self.code),
        }
    }

    /// The scope is a set of scope tokens, and code and session are there
    /// when the status says so.
    pub open spec fn wf(&self) -> bool {
        self.scope.wf() && self@.wf()
    }

    /// The status of the grant at `now`.
    pub fn status_at(&self, now: u64) -> (r: EffectiveStatus)
        ensures
            r == self@.status_at(now),
    {
        match self.status {
            GrantStatus::Exchanged => EffectiveStatus::Exchanged,
            GrantStatus::Cancelled => EffectiveStatus::Cancelled,
            GrantStatus::Pending => if now >= self.expires_at {
                EffectiveStatus::Expired
            } else {
                EffectiveStatus::Pending
            },
            GrantStatus::Fulfilled => if now >= self.expires_at {
                EffectiveStatus::Expired
            } else {
                EffectiveStatus::Fulfilled
            },
        }
    }

    /// A copy of the grant.
    pub fn clone(&self) -> (r: AuthorizationGrant)
        ensures
            r@ == self@,
            self.wf() ==> r.wf(),
    {
        AuthorizationGrant {
            id: self.id,
            client_id: self.client_id,
            scope: self.scope.clone(),
            response_type: self.response_type,
            redirect_uri: to_vec(self.redirect_uri.as_slice()),
            pkce: clone_opt_challenge(&self.pkce),
            state: clone_opt_bytes(&self.state),
            nonce: clone_opt_bytes(&self.nonce),
            created_at: self.created_at,
            expires_at: self.expires_at,
            status: self.status,
            session: self.session,
            code: clone_opt_bytes(&self.code),
        }
    }
}

/// The views of a list of grants.
pub open spec fn grants_view(s: Seq<AuthorizationGrant>) -> Seq<AuthorizationGrantView> {
    s.map_values(|g: AuthorizationGrant| g@)
}

/// Where in `s` the grant with the identifier `id` stands, if it is there.
pub open spec fn grant_index(s: Seq<AuthorizationGrantView>, id: u128) -> Option<int> {
    if exists|i: int| 0 <= i < s.len() && (#[trigger] s[i]).id == id {
        Some(choose|i: int| 0 <= i < s.len() && (#[trigger] s[i]).id == id)
    } else {
        None
    }
}

/// Where in `s` the grant that holds the code `code` stands, if one does.
pub open spec fn code_index(s: Seq<AuthorizationGrantView>, code: Seq<u8>) -> Option<int> {
    if exists|i: int| 0 <= i < s.len() && (#[trigger] s[i]).code == Some(code) {
        Some(choose|i: int| 0 <= i < s.len() && (#[trigger] s[i]).code == Some(code))
    } else {
        None
    }
}

/// What holds of the grants of a store: no identifier occurs twice, no code
/// is held by two grants, and every grant is well formed.
pub open spec fn grants_wf(s: Seq<AuthorizationGrantView>) -> bool {
    &&& forall|i: int, j: int|
        0 <= i < j < s.len() ==> (#[trigger] s[i]).id != (#[trigger] s[j]).id
    &&& forall|i: int, j: int|
        0 <= i < j < s.len() && (#[trigger] s[i]).code is Some ==> s[i].code != (
        #[trigger] s[j]).code
    &&& forall|i: int| 0 <= i < s.len() ==> (#[trigger] s[i]).wf()
}

/// Whether a request for a grant is valid: the redirect URI is registered for
/// the client, and the client may request the scope.
pub open spec fn valid_request(client: ClientView, redirect_uri: Seq<u8>, scope: Seq<Seq<u8>>) -> bool {
    client.has_redirect_uri(redirect_uri) && client.may_request(scope)
}

/// The pending grant that a valid request creates.
pub open spec fn new_grant(
    id: u128,
    code: Seq<u8>,
    now: u64,
    ttl: u64,
    client: ClientView,
    redirect_uri: Seq<u8>,
    scope: Seq<Seq<u8>>,
    response_type: ResponseType,
    pkce: Option<PkceChallengeView>,
    state: Option<Seq<u8>>,
    nonce: Option<Seq<u8>>,
) -> AuthorizationGrantView {
    AuthorizationGrantView {
        id,
        client_id: client.id,
        scope,
        response_type,
        redirect_uri,
        pkce,
        state,
        nonce,
        created_at: now,
        expires_at: spec_deadline(now, ttl),
        status: GrantStatus::Pending,
        session: None,
        code: Some(code),
    }
}

/// What creating a grant under the identifier `id` and with the code `code`
/// returns: an invalid request is refused; so are an identifier or a code
/// that are already in use.
pub open spec fn spec_create(
    s: Seq<AuthorizationGrantView>,
    grant: AuthorizationGrantView,
    client: ClientView,
) -> Result<AuthorizationGrantView, GrantError> {
    if !valid_request(client, grant.redirect_uri, grant.scope) {
        Err(GrantError::InvalidRequest)
    } else if grant_index(s, grant.id) is Some || code_index(s, grant.code->Some_0) is Some {
        Err(GrantError::ServerError)
    } else {
        Ok(grant)
    }
}

/// Whether `code` is the unpadded base64url text of `CODE_BYTES` bytes, as a
/// drawn code is.
pub open spec fn is_drawn_code(code: Seq<u8>) -> bool {
    exists|drawn: Seq<u8>|
        drawn.len() == CODE_BYTES && code == #[trigger] base64url::spec_encode(drawn)
}

/// What creating a grant for a request returns where the identifier `id` and
/// the code `code` were drawn for it.
pub open spec fn spec_create_drawn(
    s: Seq<AuthorizationGrantView>,
    id: u128,
    code: Seq<u8>,
    now: u64,
    ttl: u64,
    client: ClientView,
    redirect_uri: Seq<u8>,
    scope: Seq<Seq<u8>>,
    response_type: ResponseType,
    pkce: Option<PkceChallengeView>,
    state: Option<Seq<u8>>,
    nonce: Option<Seq<u8>>,
) -> Result<AuthorizationGrantView, GrantError> {
    spec_create(
        s,
        new_grant(id, code, now, ttl, client, redirect_uri, scope, response_type, pkce, state, nonce),
        client,
    )
}

/// The view of the grant that was created, or the error.
pub open spec fn created_view(r: Result<AuthorizationGrant, GrantError>) -> Result<
    AuthorizationGrantView,
    GrantError,
> {
    match r {
        Ok(g) => Ok(g@),
        Err(e) => Err(e),
    }
}

/// Whether the grant at `i` can be fulfilled or cancelled at `now`: it is
/// pending and not expired.
pub open spec fn is_pending(s: Seq<AuthorizationGrantView>, i: int, now: u64) -> bool {
    s[i].status_at(now) == EffectiveStatus::Pending
}

/// The grants after `fulfill`: the grant `id`, if it is pending at `now`, is
/// fulfilled by `session`; otherwise nothing changes.
pub open spec fn spec_fulfill(s: Seq<AuthorizationGrantView>, id: u128, session: u128, now: u64) -> (
    Seq<AuthorizationGrantView>,
    Result<(), GrantError>,
) {
    match grant_index(s, id) {
        Some(i) => if is_pending(s, i, now) {
            (s.update(i, s[i].fulfilled(session)), Ok(()))
        } else {
            (s, Err(GrantError::GrantNotPending))
        },
        None => (s, Err(GrantError::GrantNotPending)),
    }
}

/// The grants after `cancel`: the grant `id`, if it is pending at `now`, is
/// cancelled; otherwise nothing changes.
pub open spec fn spec_cancel(s: Seq<AuthorizationGrantView>, id: u128, now: u64) -> (
    Seq<AuthorizationGrantView>,
    Result<(), GrantError>,
) {
    match grant_index(s, id) {
        Some(i) => if is_pending(s, i, now) {
            (s.update(i, s[i].cancelled()), Ok(()))
        } else {
            (s, Err(GrantError::GrantNotPending))
        },
        None => (s, Err(GrantError::GrantNotPending)),
    }
}

/// Whether the code `code` can be exchanged at `now` by a client that
/// presents `credentials` and `verifier`, and if so for which grant. The
/// checks are made in this order: the code is held by a grant; that grant is
/// fulfilled and not expired; the credentials are those of the client that
/// owns it; and, where the grant has a code challenge, the verifier answers
/// it.
pub open spec fn spec_check_exchange(
    s: Seq<AuthorizationGrantView>,
    clients: Seq<ClientView>,
    code: Seq<u8>,
    credentials: ClientCredentialsView,
    verifier: Option<Seq<u8>>,
    now: u64,
) -> Result<int, GrantError> {
    match code_index(s, code) {
        None => Err(GrantError::InvalidGrant),
        Some(i) => if s[i].status_at(now) != EffectiveStatus::Fulfilled {
            Err(GrantError::InvalidGrant)
        } else {
            match client_index(clients, s[i].client_id) {
                None => Err(GrantError::InvalidClient),
                Some(c) => if !clients[c].accepts(credentials) {
                    Err(GrantError::InvalidClient)
                } else {
                    match s[i].pkce {
                        None => Ok(i),
                        Some(challenge) => match verifier {
                            None => Err(GrantError::InvalidGrant),
                            Some(v) => if challenge.accepts(v) {
                                Ok(i)
                            } else {
                                Err(GrantError::InvalidGrant)
                            },
                        },
                    }
                },
            }
        },
    }
}

/// The grants after `exchange`, and the grant that was exchanged, as it is
/// afterwards: where the checks pass the grant becomes exchanged and loses
/// its code; otherwise nothing changes.
pub open spec fn spec_exchange(
    s: Seq<AuthorizationGrantView>,
    clients: Seq<ClientView>,
    code: Seq<u8>,
    credentials: ClientCredentialsView,
    verifier: Option<Seq<u8>>,
    now: u64,
) -> (Seq<AuthorizationGrantView>, Result<AuthorizationGrantView, GrantError>) {
    match spec_check_exchange(s, clients, code, credentials, verifier, now) {
        Ok(i) => (s.update(i, s[i].exchanged()), Ok(s[i].exchanged())),
        Err(e) => (s, Err(e)),
    }
}

/// The authorization grants of a server.
#[derive(Debug)]
pub struct GrantStore {
    grants: Vec<AuthorizationGrant>,
    ttl: u64,
}

impl GrantStore {
    /// The grants, in the order of their creation.
    pub closed spec fn view(&self) -> Seq<AuthorizationGrantView> {
        grants_view(self.grants@)
    }

    /// For how many seconds a grant lives.
    pub closed spec fn spec_ttl(&self) -> u64 {
        self.ttl
    }

    /// The grants are those of a store, and every grant's scope is a set of
    /// scope tokens.
    pub closed spec fn wf(&self) -> bool {
        &&& grants_wf(self@)
        &&& forall|i: int| 0 <= i < self.grants@.len() ==> (#[trigger] self.grants@[i]).scope.wf()
    }

    /// What holds of the view of every well-formed store.
    pub proof fn lemma_wf(&self)
        requires
            self.wf(),
        ensures
            grants_wf(self@),
    {
    }

    /// An empty store whose grants live for `ttl` seconds.
    pub fn new(ttl: u64) -> (r: GrantStore)
        ensures
            r.wf(),
            r@ == Seq::<AuthorizationGrantView>::empty(),
            r.spec_ttl() == ttl,
    {
        let r = GrantStore { grants: Vec::new(), ttl };
        assert(r@ =~= Seq::<AuthorizationGrantView>::empty());
        r
    }

    /// For how many seconds a grant lives.
    pub fn ttl(&self) -> (r: u64)
        ensures
            r == self.spec_ttl(),
    {
        self.ttl
    }

    /// Where the grant with the identifier `id` stands.
    fn find(&self, id: u128) -> (r: Option<usize>)
        requires
            self.wf(),
        ensures
            match r {
                Some(i) => i < self@.len() && grant_index(self@, id) == Some(i as int),
                None => grant_index(self@, id) is None,
            },
    {
        let mut i: usize = 0;
        while i < self.grants.len()
            invariant
                i <= self.grants@.len(),
                self.wf(),
                forall|j: int| 0 <= j < i ==> (#[trigger] self@[j]).id != id,
            decreases self.grants@.len() - i,
        {
            if self.grants[i].id == id {
                proof {
                    assert(self@[i as int].id == id);
                    let w = choose|k: int| 0 <= k < self@.len() && (#[trigger] self@[k]).id == id;
                    assert(w == i);
                }
                return Some(i);
            }
            i = i + 1;
        }
        None
    }

    /// Where the grant that holds the code `code` stands.
    fn find_code(&self, code: &[u8]) -> (r: Option<usize>)
        requires
            self.wf(),
        ensures
            match r {
                Some(i) => i < self@.len() && code_index(self@, code@) == Some(i as int),
                None => code_index(self@, code@) is None,
            },
    {
        let mut i: usize = 0;
        while i < self.grants.len()
            invariant
                i <= self.grants@.len(),
                self.wf(),
                forall|j: int| 0 <= j < i ==> (#[trigger] self@[j]).code != Some(code@),
            decreases self.grants@.len() - i,
        {
            let held = match &self.grants[i].code {
                Some(c) => bytes_eq(c.as_slice(), code),
                None => false,
            };
            if held {
                proof {
                    assert(self@[i as int].code == Some(code@));
                    let w = choose|k: int|
                        0 <= k < self@.len() && (#[trigger] self@[k]).code == Some(code@);
                    assert(w == i);
                }
                return Some(i);
            }
            assert(self@[i as int].code != Some(code@));
            i = i + 1;
        }
        None
    }

    /// Puts `grant` in the place of the grant at `i`.
    fn replace(&mut self, i: usize, grant: AuthorizationGrant)
        requires
            i < old(self)@.len(),
            old(self).wf(),
            grant.wf(),
            grant@.id == old(self)@[i as int].id,
            grant@.code is Some ==> grant@.code == old(self)@[i as int].code,
        ensures
            final(self).wf(),
            final(self)@ == old(self)@.update(i as int, grant@),
            final(self).spec_ttl() == old(self).spec_ttl(),
    {
        let ghost before = self@;
        let ghost before_items = self.grants@;
        self.grants.set(i, grant);
        proof {
            assert(self@ =~= before.update(i as int, grant@));
            assert forall|k: int| 0 <= k < self.grants@.len() implies (
            #[trigger] self.grants@[k]).scope.wf() by {
                if k != i {
                    assert(self.grants@[k] == before_items[k]);
                }
            }
            assert forall|a: int, b: int| 0 <= a < b < self@.len() implies (#[trigger] self@[a]).id
                != (#[trigger] self@[b]).id by {
                assert(self@[a].id == before[a].id);
                assert(self@[b].id == before[b].id);
            }
            assert forall|a: int, b: int|
                0 <= a < b < self@.len() && (#[trigger] self@[a]).code is Some implies self@[a].code
                != (#[trigger] self@[b]).code by {
                assert(self@[a].code == before[a].code);
                if b == i {
                    if self@[b].code is Some {
                        assert(self@[b].code == before[b].code);
                    }
                } else {
                    assert(self@[b].code == before[b].code);
                }
            }
            assert forall|k: int| 0 <= k < self@.len() implies (#[trigger] self@[k]).wf() by {
                if k != i {
                    assert(self@[k] == before[k]);
                }
            }
        }
    }

    /// The grant at `i`.
    pub fn get(&self, i: usize) -> (r: Option<AuthorizationGrant>)
        requires
            self.wf(),
        ensures
            match r {
                Some(g) => i < self@.len() && g.wf() && g@ == self@[i as int],
                None => i >= self@.len(),
            },
    {
        if i < self.grants.len() {
            proof {
                assert(self@[i as int] == self.grants@[i as int]@);
                assert(self.grants@[i as int].scope.wf());
            }
            Some(self.grants[i].clone())
        } else {
            None
        }
    }

    /// Finds a grant by its identifier.
    pub fn lookup(&self, id: u128) -> (r: Option<AuthorizationGrant>)
        requires
            self.wf(),
        ensures
            match r {
                Some(g) => {
                    &&& g.wf()
                    &&& grant_index(self@, id) matches Some(i)
                    &&& self@[i] == g@
                },
                None => grant_index(self@, id) is None,
            },
    {
        match self.find(id) {
            Some(i) => {
                proof {
                    assert(self@[i as int] == self.grants@[i as int]@);
                    assert(self.grants@[i as int].wf());
                }
                Some(self.grants[i].clone())
            },
            None => None,
        }
    }

    /// Finds the grant that holds the code `code`.
    pub fn lookup_code(&self, code: &[u8]) -> (r: Option<AuthorizationGrant>)
        requires
            self.wf(),
        ensures
            match r {
                Some(g) => {
                    &&& g.wf()
                    &&& code_index(self@, code@) matches Some(i)
                    &&& self@[i] == g@
                },
                None => code_index(self@, code@) is None,
            },
    {
        match self.find_code(code) {
            Some(i) => {
                proof {
                    assert(self@[i as int] == self.grants@[i as int]@);
                    assert(self.grants@[i as int].wf());
                }
                Some(self.grants[i].clone())
            },
            None => None,
        }
    }

    /// Creates a pending grant under the identifier `id` and with the code
    /// `code`, for a request made at `now`. The redirect URI must be
    /// registered for the client and the scope within what the client may
    /// request. The store is changed only where a grant is returned.
    pub fn create_with(
        &mut self,
        id: u128,
        code: Vec<u8>,
        now: u64,
        client: &Client,
        redirect_uri: Vec<u8>,
        scope: Scope,
        response_type: ResponseType,
        pkce: Option<PkceChallenge>,
        state: Option<Vec<u8>>,
        nonce: Option<Vec<u8>>,
    ) -> (r: Result<AuthorizationGrant, GrantError>)
        requires
            old(self).wf(),
            scope.wf(),
        ensures
            final(self).wf(),
            final(self).spec_ttl() == old(self).spec_ttl(),
            match r {
                Ok(g) => {
                    &&& g.wf()
                    &&& spec_create(
                        old(self)@,
                        new_grant(
                            id,
                            code@,
                            now,
                            old(self).spec_ttl(),
                            client@,
                            redirect_uri@,
                            scope@,
                            response_type,
                            opt_challenge_view(pkce),
                            opt_bytes_view(state),
                            opt_bytes_view(nonce),
                        ),
                        client@,
                    ) == Ok::<_, GrantError>(g@)
                    &&& final(self)@ == old(self)@.push(g@)
                },
                Err(e) => {
                    &&& spec_create(
                        old(self)@,
                        new_grant(
                            id,
                            code@,
                            now,
                            old(self).spec_ttl(),
                            client@,
                            redirect_uri@,
                            scope@,
                            response_type,
                            opt_challenge_view(pkce),
                            opt_bytes_view(state),
                            opt_bytes_view(nonce),
                        ),
                        client@,
                    ) == Err::<AuthorizationGrantView, _>(e)
                    &&& final(self)@ == old(self)@
                },
            },
    {
        if !(client.has_redirect_uri(redirect_uri.as_slice()) && client.may_request(&scope)) {
            return Err(GrantError::InvalidRequest);
        }
        if self.find(id).is_some() || self.find_code(code.as_slice()).is_some() {
            return Err(GrantError::ServerError);
        }
        let grant = AuthorizationGrant {
            id,
            client_id: client.id,
            scope,
            response_type,
            redirect_uri,
            pkce,
            state,
            nonce,
            created_at: now,
            expires_at: deadline(now, self.ttl),
            status: GrantStatus::Pending,
            session: None,
            code: Some(code),
        };
        let copy = grant.clone();
        let ghost before = self@;
        let ghost before_items = self.grants@;
        self.grants.push(grant);
        proof {
            assert(self@ =~= before.push(copy@));
            assert forall|k: int| 0 <= k < self.grants@.len() implies (
            #[trigger] self.grants@[k]).scope.wf() by {
                if k < before_items.len() {
                    assert(self.grants@[k] == before_items[k]);
                }
            }
            assert forall|a: int, b: int| 0 <= a < b < self@.len() implies (#[trigger] self@[a]).id
                != (#[trigger] self@[b]).id by {
                assert(self@[a] == before[a]);
                if b < before.len() {
                    assert(self@[b] == before[b]);
                }
            }
            assert forall|a: int, b: int|
                0 <= a < b < self@.len() && (#[trigger] self@[a]).code is Some implies self@[a].code
                != (#[trigger] self@[b]).code by {
                assert(self@[a] == before[a]);
                if b < before.len() {
                    assert(self@[b] == before[b]);
                }
            }
            assert forall|k: int| 0 <= k < self@.len() implies (#[trigger] self@[k]).wf() by {
                if k < before.len() {
                    assert(self@[k] == before[k]);
                }
            }
        }
        Ok(copy)
    }

    /// Creates a pending grant for a request made at `now`, under a fresh
    /// identifier and with a freshly drawn code of `CODE_BYTES` random bytes,
    /// written as unpadded base64url text. The outcome is the one that
    /// `spec_create_drawn` gives for what was drawn: an invalid request is
    /// refused whatever was drawn; a valid one creates the grant, unless the
    /// identifier or the code that was drawn is in use. The store is changed
    /// only where a grant is returned.
    pub fn create(
        &mut self,
        rng: &mut StdRng,
        now: u64,
        client: &Client,
        redirect_uri: Vec<u8>,
        scope: Scope,
        response_type: ResponseType,
        pkce: Option<PkceChallenge>,
        state: Option<Vec<u8>>,
        nonce: Option<Vec<u8>>,
    ) -> (r: Result<AuthorizationGrant, GrantError>)
        requires
            old(self).wf(),
            scope.wf(),
        ensures
            final(self).wf(),
            final(self).spec_ttl() == old(self).spec_ttl(),
            !valid_request(client@, redirect_uri@, scope@) ==> r == Err::<AuthorizationGrant, _>(
                GrantError::InvalidRequest,
            ),
            exists|id: u128, code: Seq<u8>|
                {
                    &&& crate::ident::spec_timestamp_ms(id) == crate::ident::spec_id_millis(now)
                    &&& is_drawn_code(code)
                    &&& (#[trigger] spec_create_drawn(
                        old(self)@,
                        id,
                        code,
                        now,
                        old(self).spec_ttl(),
                        client@,
                        redirect_uri@,
                        scope@,
                        response_type,
                        opt_challenge_view(pkce),
                        opt_bytes_view(state),
                        opt_bytes_view(nonce),
                    )) == created_view(r)
                },
            match r {
                Ok(g) => {
                    &&& g.wf()
                    &&& valid_request(client@, redirect_uri@, scope@)
                    &&& g@.code is Some
                    &&& g@ == new_grant(
                        g@.id,
                        g@.code->Some_0,
                        now,
                        old(self).spec_ttl(),
                        client@,
                        redirect_uri@,
                        scope@,
                        response_type,
                        opt_challenge_view(pkce),
                        opt_bytes_view(state),
                        opt_bytes_view(nonce),
                    )
                    &&& crate::ident::spec_timestamp_ms(g@.id) == crate::ident::spec_id_millis(now)
                    &&& exists|drawn: Seq<u8>|
                        drawn.len() == CODE_BYTES && g@.code == Some(
                            #[trigger] base64url::spec_encode(drawn),
                        )
                    &&& grant_index(old(self)@, g@.id) is None
                    &&& code_index(old(self)@, g@.code->Some_0) is None
                    &&& final(self)@ == old(self)@.push(g@)
                },
                Err(e) => {
                    &&& e == if valid_request(client@, redirect_uri@, scope@) {
                        GrantError::ServerError
                    } else {
                        GrantError::InvalidRequest
                    }
                    &&& final(self)@ == old(self)@
                },
            },
    {
        let id = new_id(now, rng);
        let secret = random_bytes(rng, CODE_BYTES).unwrap();
        let code = base64url::encode(secret.as_slice());
        assert(code@ == base64url::spec_encode(secret@));
        assert(is_drawn_code(code@));
        let ghost drawn_code = code@;
        let r = self.create_with(
            id,
            code,
            now,
            client,
            redirect_uri,
            scope,
            response_type,
            pkce,
            state,
            nonce,
        );
        proof {
            assert(spec_create_drawn(
                old(self)@,
                id,
                drawn_code,
                now,
                old(self).spec_ttl(),
                client@,
                redirect_uri@,
                scope@,
                response_type,
                opt_challenge_view(pkce),
                opt_bytes_view(state),
                opt_bytes_view(nonce),
            ) == created_view(r));
        }
        r
    }

    /// Fulfills the pending grant `id` with the session of the user who
    /// authenticated.
    pub fn fulfill(&mut self, id: u128, session: u128, now: u64) -> (r: Result<(), GrantError>)
        requires
            old(self).wf(),
        ensures
            final(self).wf(),
            final(self).spec_ttl() == old(self).spec_ttl(),
            final(self)@ == spec_fulfill(old(self)@, id, session, now).0,
            r == spec_fulfill(old(self)@, id, session, now).1,
    {
        match self.find(id) {
            Some(i) => {
                proof {
                    assert(self@[i as int] == self.grants@[i as int]@);
                    assert(self.grants@[i as int].scope.wf());
                }
                if self.grants[i].status_at(now) != EffectiveStatus::Pending {
                    return Err(GrantError::GrantNotPending);
                }
                let mut grant = self.grants[i].clone();
                grant.status = GrantStatus::Fulfilled;
                grant.session = Some(session);
                assert(grant@ == self@[i as int].fulfilled(session));
                self.replace(i, grant);
                Ok(())
            },
            None => Err(GrantError::GrantNotPending),
        }
    }

    /// Cancels the pending grant `id`: the user declined.
    pub fn cancel(&mut self, id: u128, now: u64) -> (r: Result<(), GrantError>)
        requires
            old(self).wf(),
        ensures
            final(self).wf(),
            final(self).spec_ttl() == old(self).spec_ttl(),
            final(self)@ == spec_cancel(old(self)@, id, now).0,
            r == spec_cancel(old(self)@, id, now).1,
    {
        match self.find(id) {
            Some(i) => {
                proof {
                    assert(self@[i as int] == self.grants@[i as int]@);
                    assert(self.grants@[i as int].scope.wf());
                }
                if self.grants[i].status_at(now) != EffectiveStatus::Pending {
                    return Err(GrantError::GrantNotPending);
                }
                let mut grant = self.grants[i].clone();
                grant.status = GrantStatus::Cancelled;
                grant.code = None;
                assert(grant@ == self@[i as int].cancelled());
                self.replace(i, grant);
                Ok(())
            },
            None => Err(GrantError::GrantNotPending),
        }
    }

    /// Whether the code `code` can be exchanged at `now`, and for which
    /// grant. Nothing is changed.
    pub fn check_exchange(
        &self,
        clients: &ClientStore,
        code: &[u8],
        credentials: &ClientCredentials,
        code_verifier: Option<&[u8]>,
        now: u64,
    ) -> (r: Result<usize, GrantError>)
        requires
            self.wf(),
            clients.wf(),
        ensures
            match r {
                Ok(i) => i < self@.len() && spec_check_exchange(
                    self@,
                    clients@,
                    code@,
                    credentials@,
                    opt_slice_view(code_verifier),
                    now,
                ) == Ok::<_, GrantError>(i as int),
                Err(e) => spec_check_exchange(
                    self@,
                    clients@,
                    code@,
                    credentials@,
                    opt_slice_view(code_verifier),
                    now,
                ) == Err::<int, _>(e),
            },
    {
        let i = match self.find_code(code) {
            Some(i) => i,
            None => {
                return Err(GrantError::InvalidGrant);
            },
        };
        let grant = &self.grants[i];
        assert(self@[i as int] == grant@);
        if grant.status_at(now) != EffectiveStatus::Fulfilled {
            return Err(GrantError::InvalidGrant);
        }
        let client = match clients.lookup(grant.client_id) {
            Some(c) => c,
            None => {
                return Err(GrantError::InvalidClient);
            },
        };
        if !client.verify_credentials(credentials) {
            return Err(GrantError::InvalidClient);
        }
        match &grant.pkce {
            None => Ok(i),
            Some(challenge) => match code_verifier {
                None => Err(GrantError::InvalidGrant),
                Some(v) => if challenge.verify(v) {
                    Ok(i)
                } else {
                    Err(GrantError::InvalidGrant)
                },
            },
        }
    }

    /// Marks the fulfilled grant at `i`, which `check_exchange` found, as
    /// exchanged, and returns it as it is afterwards.
    pub fn mark_exchanged(&mut self, i: usize) -> (g: AuthorizationGrant)
        requires
            old(self).wf(),
            i < old(self)@.len(),
            old(self)@[i as int].status == GrantStatus::Fulfilled,
        ensures
            final(self).wf(),
            final(self).spec_ttl() == old(self).spec_ttl(),
            g.wf(),
            g@ == old(self)@[i as int].exchanged(),
            final(self)@ == old(self)@.update(i as int, g@),
    {
        proof {
            assert(self@[i as int] == self.grants@[i as int]@);
            assert(self.grants@[i as int].scope.wf());
        }
        let mut grant = self.grants[i].clone();
        grant.status = GrantStatus::Exchanged;
        grant.code = None;
        let copy = grant.clone();
        assert(copy@ == self@[i as int].exchanged());
        self.replace(i, grant);
        copy
    }

    /// Exchanges the code `code`: where the checks of `check_exchange` pass,
    /// the grant becomes exchanged and is returned; its code is gone for
    /// good. Otherwise nothing changes.
    pub fn exchange(
        &mut self,
        clients: &ClientStore,
        code: &[u8],
        credentials: &ClientCredentials,
        code_verifier: Option<&[u8]>,
        now: u64,
    ) -> (r: Result<AuthorizationGrant, GrantError>)
        requires
            old(self).wf(),
            clients.wf(),
        ensures
            final(self).wf(),
            final(self).spec_ttl() == old(self).spec_ttl(),
            final(self)@ == spec_exchange(
                old(self)@,
                clients@,
                code@,
                credentials@,
                opt_slice_view(code_verifier),
                now,
            ).0,
            match r {
                Ok(g) => g.wf() && spec_exchange(
                    old(self)@,
                    clients@,
                    code@,
                    credentials@,
                    opt_slice_view(code_verifier),
                    now,
                ).1 == Ok::<_, GrantError>(g@),
                Err(e) => spec_exchange(
                    old(self)@,
                    clients@,
                    code@,
                    credentials@,
                    opt_slice_view(code_verifier),
                    now,
                ).1 == Err::<AuthorizationGrantView, _>(e),
            },
    {
        match self.check_exchange(clients, code, credentials, code_verifier, now) {
            Ok(i) => Ok(self.mark_exchanged(i)),
            Err(e) => Err(e),
        }
    }
}

/// A code is exchanged at most once: after an exchange of `code` has
/// succeeded, every further exchange of the same code fails with
/// `InvalidGrant` and changes nothing, whoever asks, with whatever verifier,
/// and whenever.
pub proof fn lemma_exchange_at_most_once(
    s: Seq<AuthorizationGrantView>,
    clients: Seq<ClientView>,
    code: Seq<u8>,
    credentials: ClientCredentialsView,
    verifier: Option<Seq<u8>>,
    now: u64,
    later_clients: Seq<ClientView>,
    later_credentials: ClientCredentialsView,
    later_verifier: Option<Seq<u8>>,
    later: u64,
)
    requires
        grants_wf(s),
        spec_exchange(s, clients, code, credentials, verifier, now).1 is Ok,
    ensures
        ({
            let after = spec_exchange(s, clients, code, credentials, verifier, now).0;
            let again = spec_exchange(
                after,
                later_clients,
                code,
                later_credentials,
                later_verifier,
                later,
            );
            &&& grants_wf(after)
            &&& again.1 == Err::<AuthorizationGrantView, _>(GrantError::InvalidGrant)
            &&& again.0 == after
        }),
{
    let i = spec_check_exchange(s, clients, code, credentials, verifier, now)->Ok_0;
    let after = s.update(i, s[i].exchanged());
    assert(s[i].code == Some(code));
    assert forall|k: int| 0 <= k < after.len() implies (#[trigger] after[k]).code != Some(code) by {
        if k < i {
            assert(s[k].code is Some ==> s[k].code != s[i].code);
        } else if k > i {
            assert(s[i].code != s[k].code);
        }
    }
    assert(code_index(after, code) is None);
}

/// A code is exchanged where it is due: the code of a grant that is
/// fulfilled and not expired, presented with the credentials of the client
/// that owns the grant and, where the grant has a code challenge, with a
/// verifier that answers it, is exchanged, and the grant becomes exchanged.
pub proof fn lemma_exchange_succeeds(
    s: Seq<AuthorizationGrantView>,
    clients: Seq<ClientView>,
    i: int,
    credentials: ClientCredentialsView,
    verifier: Option<Seq<u8>>,
    now: u64,
)
    requires
        grants_wf(s),
        0 <= i < s.len(),
        s[i].status_at(now) == EffectiveStatus::Fulfilled,
        client_index(clients, s[i].client_id) matches Some(c) && clients[c].accepts(credentials),
        s[i].pkce matches Some(challenge) ==> verifier matches Some(v) && challenge.accepts(v),
    ensures
        spec_exchange(s, clients, s[i].code->Some_0, credentials, verifier, now).1 == Ok::<
            _,
            GrantError,
        >(s[i].exchanged()),
        spec_exchange(s, clients, s[i].code->Some_0, credentials, verifier, now).0 == s.update(
            i,
            s[i].exchanged(),
        ),
{
    let code = s[i].code->Some_0;
    assert(s[i].wf());
    assert(s[i].code == Some(code));
    let w = code_index(s, code)->Some_0;
    assert(w == i) by {
        if w < i {
            assert(s[w].code != s[i].code);
        } else if w > i {
            assert(s[i].code != s[w].code);
        }
    }
}

/// A grant with a code challenge is never exchanged without the verifier
/// that answers the challenge. The exchange fails with `InvalidGrant`, unless
/// the credentials, which are checked first, are refused: then it fails with
/// `InvalidClient`. Nothing changes either way.
pub proof fn lemma_exchange_needs_verifier(
    s: Seq<AuthorizationGrantView>,
    clients: Seq<ClientView>,
    i: int,
    credentials: ClientCredentialsView,
    verifier: Option<Seq<u8>>,
    now: u64,
)
    requires
        grants_wf(s),
        0 <= i < s.len(),
        s[i].code is Some,
        s[i].pkce is Some,
        !(verifier matches Some(v) && s[i].pkce->Some_0.accepts(v)),
    ensures
        ({
            let r = spec_exchange(s, clients, s[i].code->Some_0, credentials, verifier, now);
            let owner_accepts = client_index(clients, s[i].client_id) matches Some(c)
                && clients[c].accepts(credentials);
            &&& r.0 == s
            &&& r.1 is Err
            &&& r.1 == Err::<AuthorizationGrantView, _>(GrantError::InvalidGrant) || r.1 == Err::<
                AuthorizationGrantView,
                _,
            >(GrantError::InvalidClient)
            &&& owner_accepts ==> r.1 == Err::<AuthorizationGrantView, _>(GrantError::InvalidGrant)
        }),
{
    let code = s[i].code->Some_0;
    assert(s[i].code == Some(code));
    let w = code_index(s, code)->Some_0;
    assert(w == i) by {
        if w < i {
            assert(s[w].code != s[i].code);
        } else if w > i {
            assert(s[i].code != s[w].code);
        }
    }
}

/// Whether a grant may go from the status `from` to the status `to`: it may
/// stay as it is, go from pending to fulfilled or to cancelled, and from
/// fulfilled to exchanged.
pub open spec fn may_become(from: GrantStatus, to: GrantStatus) -> bool {
    ||| from == to
    ||| from == GrantStatus::Pending && to == GrantStatus::Fulfilled
    ||| from == GrantStatus::Pending && to == GrantStatus::Cancelled
    ||| from == GrantStatus::Fulfilled && to == GrantStatus::Exchanged
}

/// Whether the grants `after` have come from the grants `before` by steps of
/// the state machine: every grant is still there, with what it was created
/// with, and its status has gone no other way than the state machine allows;
/// a session, once attached, stays; and a code, once gone, stays gone.
pub open spec fn steps_from(before: Seq<AuthorizationGrantView>, after: Seq<AuthorizationGrantView>) -> bool {
    &&& before.len() <= after.len()
    &&& forall|k: int|
        0 <= k < before.len() ==> {
            &&& (#[trigger] after[k]).id == before[k].id
            &&& after[k].client_id == before[k].client_id
            &&& after[k].scope == before[k].scope
            &&& after[k].redirect_uri == before[k].redirect_uri
            &&& after[k].pkce == before[k].pkce
            &&& after[k].nonce == before[k].nonce
            &&& after[k].expires_at == before[k].expires_at
            &&& may_become(before[k].status, after[k].status)
            &&& before[k].session is Some ==> after[k].session == before[k].session
            &&& before[k].code is None ==> after[k].code is None
        }
}

/// Every operation on the grants is a step of the state machine, and leaves
/// the grants those of a store.
pub proof fn lemma_operations_are_steps(
    s: Seq<AuthorizationGrantView>,
    clients: Seq<ClientView>,
    grant: AuthorizationGrantView,
    client: ClientView,
    id: u128,
    session: u128,
    code: Seq<u8>,
    credentials: ClientCredentialsView,
    verifier: Option<Seq<u8>>,
    now: u64,
)
    requires
        grants_wf(s),
    ensures
        spec_create(s, grant, client) is Ok ==> steps_from(s, s.push(grant)),
        steps_from(s, spec_fulfill(s, id, session, now).0),
        grants_wf(spec_fulfill(s, id, session, now).0),
        steps_from(s, spec_cancel(s, id, now).0),
        grants_wf(spec_cancel(s, id, now).0),
        steps_from(s, spec_exchange(s, clients, code, credentials, verifier, now).0),
        grants_wf(spec_exchange(s, clients, code, credentials, verifier, now).0),
{
    assert forall|k: int| 0 <= k < s.len() implies (#[trigger] s[k]).wf() by {}
    let f = spec_fulfill(s, id, session, now).0;
    let c = spec_cancel(s, id, now).0;
    let x = spec_exchange(s, clients, code, credentials, verifier, now).0;
    assert forall|k: int| 0 <= k < s.len() implies (#[trigger] f[k]).id == s[k].id && f[k].code
        == s[k].code by {}
    assert forall|k: int| 0 <= k < s.len() implies (#[trigger] c[k]).id == s[k].id && (c[k].code
        is Some ==> c[k].code == s[k].code) by {}
    assert forall|k: int| 0 <= k < s.len() implies (#[trigger] x[k]).id == s[k].id && (x[k].code
        is Some ==> x[k].code == s[k].code) by {}
    assert(grants_wf(f)) by {
        assert forall|i: int, j: int| 0 <= i < j < f.len() implies (#[trigger] f[i]).id != (
        #[trigger] f[j]).id by {
            assert(s[i].id != s[j].id);
        }
        assert forall|i: int, j: int|
            0 <= i < j < f.len() && (#[trigger] f[i]).code is Some implies f[i].code != (
            #[trigger] f[j]).code by {
            assert(s[i].code != s[j].code);
        }
        assert forall|k: int| 0 <= k < f.len() implies (#[trigger] f[k]).wf() by {
            assert(s[k].wf());
        }
    }
    assert(grants_wf(c)) by {
        assert forall|i: int, j: int| 0 <= i < j < c.len() implies (#[trigger] c[i]).id != (
        #[trigger] c[j]).id by {
            assert(s[i].id != s[j].id);
        }
        assert forall|i: int, j: int|
            0 <= i < j < c.len() && (#[trigger] c[i]).code is Some implies c[i].code != (
            #[trigger] c[j]).code by {
            assert(s[i].code is Some);
            assert(s[i].code != s[j].code);
        }
        assert forall|k: int| 0 <= k < c.len() implies (#[trigger] c[k]).wf() by {
            assert(s[k].wf());
        }
    }
    assert(grants_wf(x)) by {
        assert forall|i: int, j: int| 0 <= i < j < x.len() implies (#[trigger] x[i]).id != (
        #[trigger] x[j]).id by {
            assert(s[i].id != s[j].id);
        }
        assert forall|i: int, j: int|
            0 <= i < j < x.len() && (#[trigger] x[i]).code is Some implies x[i].code != (
            #[trigger] x[j]).code by {
            assert(s[i].code is Some);
            assert(s[i].code != s[j].code);
        }
        assert forall|k: int| 0 <= k < x.len() implies (#[trigger] x[k]).wf() by {
            assert(s[k].wf());
        }
    }
}

/// The state machine has no way back: a grant that is exchanged or cancelled
/// stays so under `fulfill`, `cancel` and `exchange`, and an expired grant is
/// left alone by them.
pub proof fn lemma_terminal_states_stay(
    s: Seq<AuthorizationGrantView>,
    clients: Seq<ClientView>,
    k: int,
    id: u128,
    session: u128,
    code: Seq<u8>,
    credentials: ClientCredentialsView,
    verifier: Option<Seq<u8>>,
    now: u64,
)
    requires
        grants_wf(s),
        0 <= k < s.len(),
        s[k].status_at(now) == EffectiveStatus::Exchanged || s[k].status_at(now)
            == EffectiveStatus::Cancelled || s[k].status_at(now) == EffectiveStatus::Expired,
    ensures
        spec_fulfill(s, id, session, now).0[k] == s[k],
        spec_cancel(s, id, now).0[k] == s[k],
        spec_exchange(s, clients, code, credentials, verifier, now).0[k] == s[k],
{
}

} // verus!

//! Access tokens and refresh tokens. The refresh tokens that descend from one
//! grant form a family; each rotation adds a generation to it. Presenting a
//! refresh token of an older generation than the family's current one shows
//! that a token was stolen and replayed, and revokes the whole family.

use vstd::prelude::*;
use crate::bytes::{bytes_eq, to_vec};
use crate::grant::{deadline, spec_deadline};
use crate::scope::Scope;

verus! {

/// Why a token operation failed.
#[derive(Clone, Copy, Debug, PartialEq, Eq, Structural)]
pub enum TokenError {
    /// The refresh token is unknown, revoked, of another client, or of an
    /// older generation than the current one.
    InvalidGrant,
    /// A freshly drawn identifier or token is already in use, or the
    /// generation counter is exhausted.
    ServerError,
}

/// An access token.
#[derive(Debug)]
pub struct AccessToken {
    pub id: u128,
    /// The opaque text that is presented.
    pub token: Vec<u8>,
    pub session: u128,
    pub client_id: u128,
    pub scope: Scope,
    /// The family of the refresh token that was issued with it, if any.
    pub family: Option<u128>,
    pub created_at: u64,
    pub expires_at: u64,
    pub revoked: bool,
}

/// An access token as a mathematical value.
pub struct AccessTokenView {
    pub id: u128,
    pub token: Seq<u8>,
    pub session: u128,
    pub client_id: u128,
    pub scope: Seq<Seq<u8>>,
    pub family: Option<u128>,
    pub created_at: u64,
    pub expires_at: u64,
    pub revoked: bool,
}

/// A refresh token.
#[derive(Debug)]
pub struct RefreshToken {
    pub id: u128,
    /// The opaque text that is presented.
    pub token: Vec<u8>,
    pub family: u128,
    pub generation: u64,
    pub session: u128,
    pub client_id: u128,
    pub scope: Scope,
    pub created_at: u64,
    /// Whether the token has been rotated.
    pub consumed: bool,
    pub revoked: bool,
}

/// A refresh token as a mathematical value.
pub struct RefreshTokenView {
    pub id: u128,
    pub token: Seq<u8>,
    pub family: u128,
    pub generation: u64,
    pub session: u128,
    pub client_id: u128,
    pub scope: Seq<Seq<u8>>,
    pub created_at: u64,
    pub consumed: bool,
    pub revoked: bool,
}

impl AccessTokenView {
    /// Whether the token is usable at `now`: not revoked and not expired.
    pub open spec fn active_at(self, now: u64) -> bool {
        !self.revoked && now < self.expires_at
    }

    /// The token, revoked.
    pub open spec fn revoke(self) -> AccessTokenView {
        AccessTokenView { revoked: true, ..self }
    }
}

impl RefreshTokenView {
    /// The token, revoked.
    pub open spec fn revoke(self) -> RefreshTokenView {
        RefreshTokenView { revoked: true, ..self }
    }

    /// The token, consumed by a rotation.
    pub open spec fn consume(self) -> RefreshTokenView {
        RefreshTokenView { consumed: true, ..self }
    }
}

impl AccessToken {
    /// The value as a mathematical value, with its byte strings as sequences.
    pub open spec fn view(&self) -> AccessTokenView {
        AccessTokenView {
            id: self.id,
            token: self.token@,
            session: self.session,
            client_id: self.client_id,
            scope: self.scope@,
            family: self.family,
            created_at: self.created_at,
            expires_at: self.expires_at,
            revoked: self.revoked,
        }
    }

    /// A copy of the token.
    pub fn clone(&self) -> (r: AccessToken)
        ensures
            r@ == self@,
            self.scope.wf() ==> r.scope.wf(),
    {
        AccessToken {
            id: self.id,
            token: to_vec(self.token.as_slice()),
            session: self.session,
            client_id: self.client_id,
            scope: self.scope.clone(),
            family: self.family,
            created_at: self.created_at,
            expires_at: self.expires_at,
            revoked: self.revoked,
        }
    }
}

impl RefreshToken {
    /// The value as a mathematical value, with its byte strings as sequences.
    pub open spec fn view(&self) -> RefreshTokenView {
        RefreshTokenView {
            id: self.id,
            token: self.token@,
            family: self.family,
            generation: self.generation,
            session: self.session,
            client_id: self.client_id,
            scope: self.scope@,
            created_at: self.created_at,
            consumed: self.consumed,
            revoked: self.revoked,
        }
    }

    /// A copy of the token.
    pub fn clone(&self) -> (r: RefreshToken)
        ensures
            r@ == self@,
            self.scope.wf() ==> r.scope.wf(),
    {
        RefreshToken {
            id: self.id,
            token: to_vec(self.token.as_slice()),
            family: self.family,
            generation: self.generation,
            session: self.session,
            client_id: self.client_id,
            scope: self.scope.clone(),
            created_at: self.created_at,
            consumed: self.consumed,
            revoked: self.revoked,
        }
    }
}

/// The views of a list of access tokens.
pub open spec fn access_view(s: Seq<AccessToken>) -> Seq<AccessTokenView> {
    s.map_values(|t: AccessToken| t@)
}

/// The views of a list of refresh tokens.
pub open spec fn refresh_view(s: Seq<RefreshToken>) -> Seq<RefreshTokenView> {
    s.map_values(|t: RefreshToken| t@)
}

/// The tokens of a store.
pub struct TokenStoreView {
    pub access: Seq<AccessTokenView>,
    pub refresh: Seq<RefreshTokenView>,
}

/// Where in `s` the access token with the text `token` stands.
pub open spec fn access_index(s: Seq<AccessTokenView>, token: Seq<u8>) -> Option<int> {
    if exists|i: int| 0 <= i < s.len() && (#[trigger] s[i]).token == token {
        Some(choose|i: int| 0 <= i < s.len() && (#[trigger] s[i]).token == token)
    } else {
        None
    }
}

/// Where in `s` the refresh token with the text `token` stands.
pub open spec fn refresh_index(s: Seq<RefreshTokenView>, token: Seq<u8>) -> Option<int> {
    if exists|i: int| 0 <= i < s.len() && (#[trigger] s[i]).token == token {
        Some(choose|i: int| 0 <= i < s.len() && (#[trigger] s[i]).token == token)
    } else {
        None
    }
}

/// Whether a refresh token of `s` belongs to the family `family`.
pub open spec fn family_exists(s: Seq<RefreshTokenView>, family: u128) -> bool {
    exists|i: int| 0 <= i < s.len() && (#[trigger] s[i]).family == family
}

/// Whether the refresh token at `i` is of the current generation of its
/// family: no token of the family has a later generation.
pub open spec fn is_current(s: Seq<RefreshTokenView>, i: int) -> bool {
    forall|j: int|
        0 <= j < s.len() && (#[trigger] s[j]).family == s[i].family ==> s[j].generation
            <= s[i].generation
}

/// What holds of the tokens of a store: no text is the text of two access
/// tokens or of two refresh tokens, and no family has two tokens of one
/// generation.
pub open spec fn tokens_wf(st: TokenStoreView) -> bool {
    &&& forall|i: int, j: int|
        0 <= i < j < st.access.len() ==> (#[trigger] st.access[i]).token != (
        #[trigger] st.access[j]).token
    &&& forall|i: int, j: int|
        0 <= i < j < st.refresh.len() ==> (#[trigger] st.refresh[i]).token != (
        #[trigger] st.refresh[j]).token
    &&& forall|i: int, j: int|
        0 <= i < j < st.refresh.len() && (#[trigger] st.refresh[i]).family == (
        #[trigger] st.refresh[j]).family ==> st.refresh[i].generation != st.refresh[j].generation
}

/// The tokens after the family `family` has been revoked: every refresh
/// token of the family, of every generation, and every access token that was
/// issued with one, is revoked.
pub open spec fn spec_revoke_family(st: TokenStoreView, family: u128) -> TokenStoreView {
    TokenStoreView {
        access: st.access.map_values(
            |t: AccessTokenView|
                if t.family == Some(family) {
                    t.revoke()
                } else {
                    t
                },
        ),
        refresh: st.refresh.map_values(
            |t: RefreshTokenView|
                if t.family == family {
                    t.revoke()
                } else {
                    t
                },
        ),
    }
}

/// The tokens after the text `token` has been revoked: the access token and
/// the refresh token with that text are revoked.
pub open spec fn spec_revoke(st: TokenStoreView, token: Seq<u8>) -> TokenStoreView {
    TokenStoreView {
        access: st.access.map_values(
            |t: AccessTokenView|
                if t.token == token {
                    t.revoke()
                } else {
                    t
                },
        ),
        refresh: st.refresh.map_values(
            |t: RefreshTokenView|
                if t.token == token {
                    t.revoke()
                } else {
                    t
                },
        ),
    }
}

/// The fresh identifiers and texts of the tokens that an issuance or a
/// rotation creates.
#[derive(Debug, PartialEq, Eq)]
pub struct TokenMaterial {
    pub access_id: u128,
    pub access_token: Vec<u8>,
    pub refresh_id: u128,
    pub refresh_token: Vec<u8>,
    /// The identifier of the new family, where an issuance opens one.
    pub family_id: u128,
}

/// Token material as a mathematical value.
pub struct TokenMaterialView {
    pub access_id: u128,
    pub access_token: Seq<u8>,
    pub refresh_id: u128,
    pub refresh_token: Seq<u8>,
    pub family_id: u128,
}

impl TokenMaterial {
    /// The value as a mathematical value, with its byte strings as sequences.
    pub open spec fn view(&self) -> TokenMaterialView {
        TokenMaterialView {
            access_id: self.access_id,
            access_token: self.access_token@,
            refresh_id: self.refresh_id,
            refresh_token: self.refresh_token@,
            family_id: self.family_id,
        }
    }
}

/// For whom tokens are issued.
pub struct Subject {
    pub session: u128,
    pub client_id: u128,
    pub scope: Seq<Seq<u8>>,
}

/// The access token that is issued to `who` at `now` with the material `m`,
/// to live for `ttl` seconds.
pub open spec fn new_access(who: Subject, family: Option<u128>, now: u64, ttl: u64, m: TokenMaterialView) -> AccessTokenView {
    AccessTokenView {
        id: m.access_id,
        token: m.access_token,
        session: who.session,
        client_id: who.client_id,
        scope: who.scope,
        family,
        created_at: now,
        expires_at: spec_deadline(now, ttl),
        revoked: false,
    }
}

/// The refresh token of the generation `generation` of `family` that is
/// issued to `who` at `now` with the material `m`.
pub open spec fn new_refresh(who: Subject, family: u128, generation: u64, now: u64, m: TokenMaterialView) -> RefreshTokenView {
    RefreshTokenView {
        id: m.refresh_id,
        token: m.refresh_token,
        family,
        generation,
        session: who.session,
        client_id: who.client_id,
        scope: who.scope,
        created_at: now,
        consumed: false,
        revoked: false,
    }
}

/// Whether the texts of the material are free: no access token has the
/// access text, and, where a refresh token is made, no refresh token has the
/// refresh text.
pub open spec fn texts_free(st: TokenStoreView, m: TokenMaterialView, with_refresh: bool) -> bool {
    &&& access_index(st.access, m.access_token) is None
    &&& with_refresh ==> refresh_index(st.refresh, m.refresh_token) is None
}

/// The tokens after an issuance to `who`, and what was issued: an access
/// token, and with it, where `offline` is set, the first refresh token,
/// generation 0, of the new family `m.family_id`. Texts that are in use, or
/// a family that exists, are refused and nothing changes.
pub open spec fn spec_issue(
    st: TokenStoreView,
    who: Subject,
    offline: bool,
    now: u64,
    ttl: u64,
    m: TokenMaterialView,
) -> (TokenStoreView, Result<(AccessTokenView, Option<RefreshTokenView>), TokenError>) {
    if !texts_free(st, m, offline) || (offline && family_exists(st.refresh, m.family_id)) {
        (st, Err(TokenError::ServerError))
    } else if offline {
        let access = new_access(who, Some(m.family_id), now, ttl, m);
        let refresh = new_refresh(who, m.family_id, 0, now, m);
        (
            TokenStoreView { access: st.access.push(access), refresh: st.refresh.push(refresh) },
            Ok((access, Some(refresh))),
        )
    } else {
        let access = new_access(who, None, now, ttl, m);
        (TokenStoreView { access: st.access.push(access), refresh: st.refresh }, Ok((access, None)))
    }
}

/// The tokens after the refresh token with the text `token` has been
/// presented by the client `client_id`, and what was issued.
///
/// A token that is unknown, that belongs to another client, or that is
/// revoked is refused, and nothing changes. A token of an older generation
/// than its family's current one is refused, and its whole family is
/// revoked. A token of the current generation is rotated: it is marked as
/// consumed, and a new access token and the refresh token of the next
/// generation of the same family are issued. Texts that are in use, or a
/// generation counter that cannot count further, are refused and nothing
/// changes.
pub open spec fn spec_refresh(
    st: TokenStoreView,
    token: Seq<u8>,
    client_id: u128,
    now: u64,
    ttl: u64,
    m: TokenMaterialView,
) -> (TokenStoreView, Result<(AccessTokenView, RefreshTokenView), TokenError>) {
    match refresh_index(st.refresh, token) {
        None => (st, Err(TokenError::InvalidGrant)),
        Some(i) => {
            let old_token = st.refresh[i];
            if old_token.client_id != client_id || old_token.revoked {
                (st, Err(TokenError::InvalidGrant))
            } else if !is_current(st.refresh, i) {
                (spec_revoke_family(st, old_token.family), Err(TokenError::InvalidGrant))
            } else if old_token.generation == u64::MAX || !texts_free(st, m, true) {
                (st, Err(TokenError::ServerError))
            } else {
                let who = Subject {
                    session: old_token.session,
                    client_id: old_token.client_id,
                    scope: old_token.scope,
                };
                let access = new_access(who, Some(old_token.family), now, ttl, m);
                let refresh = new_refresh(
                    who,
                    old_token.family,
                    (old_token.generation + 1) as u64,
                    now,
                    m,
                );
                (
                    TokenStoreView {
                        access: st.access.push(access),
                        refresh: st.refresh.update(i, old_token.consume()).push(refresh),
                    },
                    Ok((access, refresh)),
                )
            }
        },
    }
}

/// The access token with the text `token`, if it is usable at `now`.
pub open spec fn spec_introspect(st: TokenStoreView, token: Seq<u8>, now: u64) -> Option<
    AccessTokenView,
> {
    match access_index(st.access, token) {
        Some(i) => if st.access[i].active_at(now) {
            Some(st.access[i])
        } else {
            None
        },
        None => None,
    }
}

/// The access and refresh tokens of a server.
#[derive(Debug)]
pub struct TokenStore {
    access: Vec<AccessToken>,
    refresh: Vec<RefreshToken>,
    access_ttl: u64,
}

impl TokenStore {
    /// The tokens, in the order of their issuance.
    pub closed spec fn view(&self) -> TokenStoreView {
        TokenStoreView { access: access_view(self.access@), refresh: refresh_view(self.refresh@) }
    }

    /// For how many seconds an access token lives.
    pub closed spec fn spec_access_ttl(&self) -> u64 {
        self.access_ttl
    }

    /// The tokens are those of a store, and every token's scope is a set of
    /// scope tokens.
    pub closed spec fn wf(&self) -> bool {
        &&& tokens_wf(self@)
        &&& forall|i: int| 0 <= i < self.access@.len() ==> (#[trigger] self.access@[i]).scope.wf()
        &&& forall|i: int| 0 <= i < self.refresh@.len() ==> (#[trigger] self.refresh@[i]).scope.wf()
    }

    /// What holds of the view of every well-formed store.
    pub proof fn lemma_wf(&self)
        requires
            self.wf(),
        ensures
            tokens_wf(self@),
    {
    }

    /// An empty store whose access tokens live for `access_ttl` seconds.
    pub fn new(access_ttl: u64) -> (r: TokenStore)
        ensures
            r.wf(),
            r@.access == Seq::<AccessTokenView>::empty(),
            r@.refresh == Seq::<RefreshTokenView>::empty(),
            r.spec_access_ttl() == access_ttl,
    {
        let r = TokenStore { access: Vec::new(), refresh: Vec::new(), access_ttl };
        assert(r@.access =~= Seq::<AccessTokenView>::empty());
        assert(r@.refresh =~= Seq::<RefreshTokenView>::empty());
        r
    }

    /// For how many seconds an access token lives.
    pub fn access_ttl(&self) -> (r: u64)
        ensures
            r == self.spec_access_ttl(),
    {
        self.access_ttl
    }

    /// Where the access token with the text `token` stands.
    fn find_access(&self, token: &[u8]) -> (r: Option<usize>)
        requires
            self.wf(),
        ensures
            match r {
                Some(i) => i < self@.access.len() && access_index(self@.access, token@) == Some(
                    i as int,
                ),
                None => access_index(self@.access, token@) is None,
            },
    {
        let mut i: usize = 0;
        while i < self.access.len()
            invariant
                i <= self.access@.len(),
                self.wf(),
                forall|j: int| 0 <= j < i ==> (#[trigger] self@.access[j]).token != token@,
            decreases self.access@.len() - i,
        {
            if bytes_eq(self.access[i].token.as_slice(), token) {
                proof {
                    assert(self@.access[i as int].token == token@);
                    let w = choose|k: int|
                        0 <= k < self@.access.len() && (#[trigger] self@.access[k]).token == token@;
                    assert(w == i);
                }
                return Some(i);
            }
            assert(self@.access[i as int].token != token@);
            i = i + 1;
        }
        None
    }

    /// Where the refresh token with the text `token` stands.
    fn find_refresh(&self, token: &[u8]) -> (r: Option<usize>)
        requires
            self.wf(),
        ensures
            match r {
                Some(i) => i < self@.refresh.len() && refresh_index(self@.refresh, token@) == Some(
                    i as int,
                ),
                None => refresh_index(self@.refresh, token@) is None,
            },
    {
        let mut i: usize = 0;
        while i < self.refresh.len()
            invariant
                i <= self.refresh@.len(),
                self.wf(),
                forall|j: int| 0 <= j < i ==> (#[trigger] self@.refresh[j]).token != token@,
            decreases self.refresh@.len() - i,
        {
            if bytes_eq(self.refresh[i].token.as_slice(), token) {
                proof {
                    assert(self@.refresh[i as int].token == token@);
                    let w = choose|k: int|
                        0 <= k < self@.refresh.len() && (#[trigger] self@.refresh[k]).token
                            == token@;
                    assert(w == i);
                }
                return Some(i);
            }
            assert(self@.refresh[i as int].token != token@);
            i = i + 1;
        }
        None
    }

    /// Whether a refresh token belongs to the family `family`.
    fn has_family(&self, family: u128) -> (r: bool)
        ensures
            r == family_exists(self@.refresh, family),
    {
        let mut i: usize = 0;
        while i < self.refresh.len()
            invariant
                i <= self.refresh@.len(),
                forall|j: int| 0 <= j < i ==> (#[trigger] self@.refresh[j]).family != family,
            decreases self.refresh@.len() - i,
        {
            if self.refresh[i].family == family {
                assert(self@.refresh[i as int].family == family);
                return true;
            }
            assert(self@.refresh[i as int].family != family);
            i = i + 1;
        }
        false
    }

    /// Whether the refresh token at `i` is of the current generation of its
    /// family.
    fn current(&self, i: usize) -> (r: bool)
        requires
            i < self@.refresh.len(),
        ensures
            r == is_current(self@.refresh, i as int),
    {
        let family = self.refresh[i].family;
        let generation = self.refresh[i].generation;
        assert(self@.refresh[i as int].family == family);
        assert(self@.refresh[i as int].generation == generation);
        let mut j: usize = 0;
        while j < self.refresh.len()
            invariant
                j <= self.refresh@.len(),
                i < self@.refresh.len(),
                self@.refresh[i as int].family == family,
                self@.refresh[i as int].generation == generation,
                forall|k: int|
                    0 <= k < j && (#[trigger] self@.refresh[k]).family == family
                        ==> self@.refresh[k].generation <= generation,
            decreases self.refresh@.len() - j,
        {
            if self.refresh[j].family == family && self.refresh[j].generation > generation {
                assert(self@.refresh[j as int].family == family);
                assert(self@.refresh[j as int].generation > generation);
                return false;
            }
            assert(self@.refresh[j as int].family == family ==> self@.refresh[j as int].generation
                <= generation);
            j = j + 1;
        }
        true
    }

    /// Whether the texts of the material are free.
    fn free(&self, m: &TokenMaterial, with_refresh: bool) -> (r: bool)
        requires
            self.wf(),
        ensures
            r == texts_free(self@, m@, with_refresh),
    {
        if self.find_access(m.access_token.as_slice()).is_some() {
            return false;
        }
        if with_refresh && self.find_refresh(m.refresh_token.as_slice()).is_some() {
            return false;
        }
        true
    }

    /// Adds the access token `access` and, where there is one, the refresh
    /// token `refresh`, whose texts are free and whose family and generation
    /// are new.
    fn add(&mut self, access: AccessToken, refresh: Option<RefreshToken>)
        requires
            old(self).wf(),
            access.scope.wf(),
            access_index(old(self)@.access, access@.token) is None,
            refresh matches Some(t) ==> {
                &&& t.scope.wf()
                &&& refresh_index(old(self)@.refresh, t@.token) is None
                &&& forall|k: int|
                    0 <= k < old(self)@.refresh.len() && (#[trigger] old(self)@.refresh[k]).family
                        == t@.family ==> old(self)@.refresh[k].generation != t@.generation
            },
        ensures
            final(self).wf(),
            final(self).spec_access_ttl() == old(self).spec_access_ttl(),
            final(self)@.access == old(self)@.access.push(access@),
            final(self)@.refresh == match refresh {
                Some(t) => old(self)@.refresh.push(t@),
                None => old(self)@.refresh,
            },
    {
        let ghost before = self@;
        let ghost before_access = self.access@;
        let ghost before_refresh = self.refresh@;
        self.access.push(access);
        proof {
            assert(self@.access =~= before.access.push(access@));
            assert forall|k: int| 0 <= k < self.access@.len() implies (
            #[trigger] self.access@[k]).scope.wf() by {
                if k < before_access.len() {
                    assert(self.access@[k] == before_access[k]);
                }
            }
            assert forall|a: int, b: int| 0 <= a < b < self@.access.len() implies (
            #[trigger] self@.access[a]).token != (#[trigger] self@.access[b]).token by {
                assert(self@.access[a] == before.access[a]);
                if b < before.access.len() {
                    assert(self@.access[b] == before.access[b]);
                }
            }
        }
        match refresh {
            Some(t) => {
                self.refresh.push(t);
                proof {
                    assert(self@.refresh =~= before.refresh.push(t@));
                    assert forall|k: int| 0 <= k < self.refresh@.len() implies (
                    #[trigger] self.refresh@[k]).scope.wf() by {
                        if k < before_refresh.len() {
                            assert(self.refresh@[k] == before_refresh[k]);
                        }
                    }
                    assert forall|a: int, b: int| 0 <= a < b < self@.refresh.len() implies (
                    #[trigger] self@.refresh[a]).token != (#[trigger] self@.refresh[b]).token by {
                        assert(self@.refresh[a] == before.refresh[a]);
                        if b < before.refresh.len() {
                            assert(self@.refresh[b] == before.refresh[b]);
                        }
                    }
                    assert forall|a: int, b: int|
                        0 <= a < b < self@.refresh.len() && (#[trigger] self@.refresh[a]).family
                            == (#[trigger] self@.refresh[b]).family implies self@.refresh[a].generation
                        != self@.refresh[b].generation by {
                        assert(self@.refresh[a] == before.refresh[a]);
                        if b < before.refresh.len() {
                            assert(self@.refresh[b] == before.refresh[b]);
                        }
                    }
                }
            },
            None => {},
        }
    }

    /// Issues an access token for the session `session` to the client
    /// `client_id` with the scope `scope`, and with it, where `offline` is
    /// set, the first refresh token of a new family.
    pub fn issue_with(
        &mut self,
        session: u128,
        client_id: u128,
        scope: &Scope,
        offline: bool,
        now: u64,
        m: TokenMaterial,
    ) -> (r: Result<(AccessToken, Option<RefreshToken>), TokenError>)
        requires
            old(self).wf(),
            scope.wf(),
        ensures
            final(self).wf(),
            final(self).spec_access_ttl() == old(self).spec_access_ttl(),
            final(self)@ == spec_issue(
                old(self)@,
                Subject { session, client_id, scope: scope@ },
                offline,
                now,
                old(self).spec_access_ttl(),
                m@,
            ).0,
            match r {
                Ok((access, refresh)) => spec_issue(
                    old(self)@,
                    Subject { session, client_id, scope: scope@ },
                    offline,
                    now,
                    old(self).spec_access_ttl(),
                    m@,
                ).1 == Ok::<_, TokenError>(
                    (
                        access@,
                        match refresh {
                            Some(t) => Some(t@),
                            None => None,
                        },
                    ),
                ),
                Err(e) => spec_issue(
                    old(self)@,
                    Subject { session, client_id, scope: scope@ },
                    offline,
                    now,
                    old(self).spec_access_ttl(),
                    m@,
                ).1 == Err::<(AccessTokenView, Option<RefreshTokenView>), _>(e),
            },
    {
        if !self.free(&m, offline) || (offline && self.has_family(m.family_id)) {
            return Err(TokenError::ServerError);
        }
        let access = AccessToken {
            id: m.access_id,
            token: m.access_token,
            session,
            client_id,
            scope: scope.clone(),
            family: if offline {
                Some(m.family_id)
            } else {
                None
            },
            created_at: now,
            expires_at: deadline(now, self.access_ttl),
            revoked: false,
        };
        let access_copy = access.clone();
        if offline {
            let refresh = RefreshToken {
                id: m.refresh_id,
                token: m.refresh_token,
                family: m.family_id,
                generation: 0,
                session,
                client_id,
                scope: scope.clone(),
                created_at: now,
                consumed: false,
                revoked: false,
            };
            let refresh_copy = refresh.clone();
            self.add(access, Some(refresh));
            Ok((access_copy, Some(refresh_copy)))
        } else {
            self.add(access, None);
            Ok((access_copy, None))
        }
    }

    /// Revokes the family `family`: every refresh token of it and every
    /// access token issued with one. Revoking again changes nothing.
    pub fn revoke_family(&mut self, family: u128)
        requires
            old(self).wf(),
        ensures
            final(self).wf(),
            final(self).spec_access_ttl() == old(self).spec_access_ttl(),
            final(self)@ == spec_revoke_family(old(self)@, family),
    {
        let ghost before = self@;
        let ghost on_access = |t: AccessTokenView|
            if t.family == Some(family) {
                t.revoke()
            } else {
                t
            };
        let ghost on_refresh = |t: RefreshTokenView|
            if t.family == family {
                t.revoke()
            } else {
                t
            };
        let mut access: Vec<AccessToken> = Vec::new();
        let mut i: usize = 0;
        while i < self.access.len()
            invariant
                i <= self.access@.len(),
                self.wf(),
                self@ == before,
                on_access == |t: AccessTokenView|
                    if t.family == Some(family) {
                        t.revoke()
                    } else {
                        t
                    },
                access_view(access@) == before.access.map_values(on_access).take(i as int),
                forall|k: int| 0 <= k < access@.len() ==> (#[trigger] access@[k]).scope.wf(),
            decreases self.access@.len() - i,
        {
            let mut t = self.access[i].clone();
            if t.family == Some(family) {
                t.revoked = true;
            }
            let ghost prev = access_view(access@);
            let ghost tv = t@;
            access.push(t);
            proof {
                assert(tv == on_access(before.access[i as int]));
                assert(access_view(access@) =~= prev.push(tv));
                assert(before.access.map_values(on_access).take(i as int + 1)
                    =~= before.access.map_values(on_access).take(i as int).push(tv));
            }
            i = i + 1;
        }
        let mut refresh: Vec<RefreshToken> = Vec::new();
        let mut j: usize = 0;
        while j < self.refresh.len()
            invariant
                j <= self.refresh@.len(),
                self.wf(),
                self@ == before,
                on_refresh == |t: RefreshTokenView|
                    if t.family == family {
                        t.revoke()
                    } else {
                        t
                    },
                refresh_view(refresh@) == before.refresh.map_values(on_refresh).take(j as int),
                forall|k: int| 0 <= k < refresh@.len() ==> (#[trigger] refresh@[k]).scope.wf(),
            decreases self.refresh@.len() - j,
        {
            let mut t = self.refresh[j].clone();
            if t.family == family {
                t.revoked = true;
            }
            let ghost prev = refresh_view(refresh@);
            let ghost tv = t@;
            refresh.push(t);
            proof {
                assert(tv == on_refresh(before.refresh[j as int]));
                assert(refresh_view(refresh@) =~= prev.push(tv));
                assert(before.refresh.map_values(on_refresh).take(j as int + 1)
                    =~= before.refresh.map_values(on_refresh).take(j as int).push(tv));
            }
            j = j + 1;
        }
        proof {
            assert(before.access.map_values(on_access).take(before.access.len() as int)
                =~= before.access.map_values(on_access));
            assert(before.refresh.map_values(on_refresh).take(before.refresh.len() as int)
                =~= before.refresh.map_values(on_refresh));
        }
        self.access = access;
        self.refresh = refresh;
        proof {
            assert(self@.access == spec_revoke_family(before, family).access);
            assert(self@.refresh == spec_revoke_family(before, family).refresh);
            lemma_revoke_family_wf(before, family);
        }
    }

    /// Revokes the tokens with the text `token`. Revoking again, or revoking
    /// a text that no token has, changes nothing.
    pub fn revoke(&mut self, token: &[u8])
        requires
            old(self).wf(),
        ensures
            final(self).wf(),
            final(self).spec_access_ttl() == old(self).spec_access_ttl(),
            final(self)@ == spec_revoke(old(self)@, token@),
    {
        let ghost before = self@;
        let ghost on_access = |t: AccessTokenView|
            if t.token == token@ {
                t.revoke()
            } else {
                t
            };
        let ghost on_refresh = |t: RefreshTokenView|
            if t.token == token@ {
                t.revoke()
            } else {
                t
            };
        let mut access: Vec<AccessToken> = Vec::new();
        let mut i: usize = 0;
        while i < self.access.len()
            invariant
                i <= self.access@.len(),
                self.wf(),
                self@ == before,
                on_access == |t: AccessTokenView|
                    if t.token == token@ {
                        t.revoke()
                    } else {
                        t
                    },
                access_view(access@) == before.access.map_values(on_access).take(i as int),
                forall|k: int| 0 <= k < access@.len() ==> (#[trigger] access@[k]).scope.wf(),
            decreases self.access@.len() - i,
        {
            let mut t = self.access[i].clone();
            if bytes_eq(t.token.as_slice(), token) {
                t.revoked = true;
            }
            let ghost prev = access_view(access@);
            let ghost tv = t@;
            access.push(t);
            proof {
                assert(tv == on_access(before.access[i as int]));
                assert(access_view(access@) =~= prev.push(tv));
                assert(before.access.map_values(on_access).take(i as int + 1)
                    =~= before.access.map_values(on_access).take(i as int).push(tv));
            }
            i = i + 1;
        }
        let mut refresh: Vec<RefreshToken> = Vec::new();
        let mut j: usize = 0;
        while j < self.refresh.len()
            invariant
                j <= self.refresh@.len(),
                self.wf(),
                self@ == before,
                on_refresh == |t: RefreshTokenView|
                    if t.token == token@ {
                        t.revoke()
                    } else {
                        t
                    },
                refresh_view(refresh@) == before.refresh.map_values(on_refresh).take(j as int),
                forall|k: int| 0 <= k < refresh@.len() ==> (#[trigger] refresh@[k]).scope.wf(),
            decreases self.refresh@.len() - j,
        {
            let mut t = self.refresh[j].clone();
            if bytes_eq(t.token.as_slice(), token) {
                t.revoked = true;
            }
            let ghost prev = refresh_view(refresh@);
            let ghost tv = t@;
            refresh.push(t);
            proof {
                assert(tv == on_refresh(before.refresh[j as int]));
                assert(refresh_view(refresh@) =~= prev.push(tv));
                assert(before.refresh.map_values(on_refresh).take(j as int + 1)
                    =~= before.refresh.map_values(on_refresh).take(j as int).push(tv));
            }
            j = j + 1;
        }
        proof {
            assert(before.access.map_values(on_access).take(before.access.len() as int)
                =~= before.access.map_values(on_access));
            assert(before.refresh.map_values(on_refresh).take(before.refresh.len() as int)
                =~= before.refresh.map_values(on_refresh));
        }
        self.access = access;
        self.refresh = refresh;
        proof {
            assert(self@.access == spec_revoke(before, token@).access);
            assert(self@.refresh == spec_revoke(before, token@).refresh);
            lemma_revoke_wf(before, token@);
        }
    }

    /// Presents the refresh token with the text `token` for the client
    /// `client_id`: rotates it where it is of the current generation of its
    /// family, and revokes its family where it is of an older one.
    pub fn refresh_with(&mut self, token: &[u8], client_id: u128, now: u64, m: TokenMaterial) -> (r:
        Result<(AccessToken, RefreshToken), TokenError>)
        requires
            old(self).wf(),
        ensures
            final(self).wf(),
            final(self).spec_access_ttl() == old(self).spec_access_ttl(),
            final(self)@ == spec_refresh(
                old(self)@,
                token@,
                client_id,
                now,
                old(self).spec_access_ttl(),
                m@,
            ).0,
            match r {
                Ok((access, refresh)) => spec_refresh(
                    old(self)@,
                    token@,
                    client_id,
                    now,
                    old(self).spec_access_ttl(),
                    m@,
                ).1 == Ok::<_, TokenError>((access@, refresh@)),
                Err(e) => spec_refresh(
                    old(self)@,
                    token@,
                    client_id,
                    now,
                    old(self).spec_access_ttl(),
                    m@,
                ).1 == Err::<(AccessTokenView, RefreshTokenView), _>(e),
            },
    {
        let i = match self.find_refresh(token) {
            Some(i) => i,
            None => {
                return Err(TokenError::InvalidGrant);
            },
        };
        proof {
            assert(self@.refresh[i as int] == self.refresh@[i as int]@);
            assert(self.refresh@[i as int].scope.wf());
        }
        if self.refresh[i].client_id != client_id || self.refresh[i].revoked {
            return Err(TokenError::InvalidGrant);
        }
        if !self.current(i) {
            let family = self.refresh[i].family;
            self.revoke_family(family);
            return Err(TokenError::InvalidGrant);
        }
        if self.refresh[i].generation == u64::MAX || !self.free(&m, true) {
            return Err(TokenError::ServerError);
        }
        let mut consumed = self.refresh[i].clone();
        consumed.consumed = true;
        let access = AccessToken {
            id: m.access_id,
            token: m.access_token,
            session: consumed.session,
            client_id: consumed.client_id,
            scope: consumed.scope.clone(),
            family: Some(consumed.family),
            created_at: now,
            expires_at: deadline(now, self.access_ttl),
            revoked: false,
        };
        let refresh = RefreshToken {
            id: m.refresh_id,
            token: m.refresh_token,
            family: consumed.family,
            generation: consumed.generation + 1,
            session: consumed.session,
            client_id: consumed.client_id,
            scope: consumed.scope.clone(),
            created_at: now,
            consumed: false,
            revoked: false,
        };
        let access_copy = access.clone();
        let refresh_copy = refresh.clone();
        let ghost before = self@;
        let ghost before_items = self.refresh@;
        let ghost cv = consumed@;
        self.refresh.set(i, consumed);
        proof {
            assert(self@.refresh =~= before.refresh.update(i as int, cv));
            assert(self@.access == before.access);
            assert forall|k: int| 0 <= k < self.refresh@.len() implies (
            #[trigger] self.refresh@[k]).scope.wf() by {
                if k != i {
                    assert(self.refresh@[k] == before_items[k]);
                }
            }
            assert forall|a: int, b: int| 0 <= a < b < self@.refresh.len() implies (
            #[trigger] self@.refresh[a]).token != (#[trigger] self@.refresh[b]).token by {
                assert(self@.refresh[a].token == before.refresh[a].token);
                assert(self@.refresh[b].token == before.refresh[b].token);
            }
            assert forall|a: int, b: int|
                0 <= a < b < self@.refresh.len() && (#[trigger] self@.refresh[a]).family == (
                #[trigger] self@.refresh[b]).family implies self@.refresh[a].generation
                != self@.refresh[b].generation by {
                assert(self@.refresh[a].family == before.refresh[a].family);
                assert(self@.refresh[b].family == before.refresh[b].family);
                assert(self@.refresh[a].generation == before.refresh[a].generation);
                assert(self@.refresh[b].generation == before.refresh[b].generation);
            }
            assert(refresh_index(self@.refresh, refresh@.token) is None) by {
                assert forall|k: int| 0 <= k < self@.refresh.len() implies (
                #[trigger] self@.refresh[k]).token != refresh@.token by {
                    assert(self@.refresh[k].token == before.refresh[k].token);
                }
            }
            assert forall|k: int|
                0 <= k < self@.refresh.len() && (#[trigger] self@.refresh[k]).family
                    == refresh@.family implies self@.refresh[k].generation
                != refresh@.generation by {
                assert(self@.refresh[k].family == before.refresh[k].family);
                assert(self@.refresh[k].generation == before.refresh[k].generation);
                assert(before.refresh[k].generation <= before.refresh[i as int].generation);
            }
        }
        self.add(access, Some(refresh));
        Ok((access_copy, refresh_copy))
    }

    /// The refresh token with the text `token`, whatever its state.
    pub fn lookup_refresh(&self, token: &[u8]) -> (r: Option<RefreshToken>)
        requires
            self.wf(),
        ensures
            match r {
                Some(t) => refresh_index(self@.refresh, token@) matches Some(i) && self@.refresh[i]
                    == t@,
                None => refresh_index(self@.refresh, token@) is None,
            },
    {
        match self.find_refresh(token) {
            Some(i) => {
                assert(self@.refresh[i as int] == self.refresh@[i as int]@);
                Some(self.refresh[i].clone())
            },
            None => None,
        }
    }

    /// The access token with the text `token`, if it is usable at `now`.
    pub fn introspect(&self, token: &[u8], now: u64) -> (r: Option<AccessToken>)
        requires
            self.wf(),
        ensures
            match r {
                Some(t) => spec_introspect(self@, token@, now) == Some(t@),
                None => spec_introspect(self@, token@, now) is None,
            },
    {
        match self.find_access(token) {
            Some(i) => {
                assert(self@.access[i as int] == self.access@[i as int]@);
                if !self.access[i].revoked && now < self.access[i].expires_at {
                    Some(self.access[i].clone())
                } else {
                    None
                }
            },
            None => None,
        }
    }
}

/// Revoking a family leaves the tokens those of a store.
pub proof fn lemma_revoke_family_wf(st: TokenStoreView, family: u128)
    requires
        tokens_wf(st),
    ensures
        tokens_wf(spec_revoke_family(st, family)),
{
    let after = spec_revoke_family(st, family);
    assert forall|i: int, j: int| 0 <= i < j < after.access.len() implies (
    #[trigger] after.access[i]).token != (#[trigger] after.access[j]).token by {
        assert(after.access[i].token == st.access[i].token);
        assert(after.access[j].token == st.access[j].token);
    }
    assert forall|i: int, j: int| 0 <= i < j < after.refresh.len() implies (
    #[trigger] after.refresh[i]).token != (#[trigger] after.refresh[j]).token by {
        assert(after.refresh[i].token == st.refresh[i].token);
        assert(after.refresh[j].token == st.refresh[j].token);
    }
    assert forall|i: int, j: int|
        0 <= i < j < after.refresh.len() && (#[trigger] after.refresh[i]).family == (
        #[trigger] after.refresh[j]).family implies after.refresh[i].generation
        != after.refresh[j].generation by {
        assert(after.refresh[i].family == st.refresh[i].family);
        assert(after.refresh[j].family == st.refresh[j].family);
        assert(after.refresh[i].generation == st.refresh[i].generation);
        assert(after.refresh[j].generation == st.refresh[j].generation);
    }
}

/// Revoking a text leaves the tokens those of a store.
pub proof fn lemma_revoke_wf(st: TokenStoreView, token: Seq<u8>)
    requires
        tokens_wf(st),
    ensures
        tokens_wf(spec_revoke(st, token)),
{
    let after = spec_revoke(st, token);
    assert forall|i: int, j: int| 0 <= i < j < after.access.len() implies (
    #[trigger] after.access[i]).token != (#[trigger] after.access[j]).token by {
        assert(after.access[i].token == st.access[i].token);
        assert(after.access[j].token == st.access[j].token);
    }
    assert forall|i: int, j: int| 0 <= i < j < after.refresh.len() implies (
    #[trigger] after.refresh[i]).token != (#[trigger] after.refresh[j]).token by {
        assert(after.refresh[i].token == st.refresh[i].token);
        assert(after.refresh[j].token == st.refresh[j].token);
    }
    assert forall|i: int, j: int|
        0 <= i < j < after.refresh.len() && (#[trigger] after.refresh[i]).family == (
        #[trigger] after.refresh[j]).family implies after.refresh[i].generation
        != after.refresh[j].generation by {
        assert(after.refresh[i].family == st.refresh[i].family);
        assert(after.refresh[j].family == st.refresh[j].family);
        assert(after.refresh[i].generation == st.refresh[i].generation);
        assert(after.refresh[j].generation == st.refresh[j].generation);
    }
}

/// A refresh token is rotated where it is due. The refresh token of the
/// current generation of its family, not revoked and presented by its
/// client, is never refused as invalid: as long as its generation can be
/// counted further and the texts of the material are free, the token is
/// consumed and the refresh token of the next generation of the same family
/// is issued, with a new access token. Otherwise the answer is `ServerError`
/// and nothing changes.
pub proof fn lemma_refresh_succeeds(
    st: TokenStoreView,
    i: int,
    now: u64,
    ttl: u64,
    m: TokenMaterialView,
)
    requires
        tokens_wf(st),
        0 <= i < st.refresh.len(),
        !st.refresh[i].revoked,
        is_current(st.refresh, i),
    ensures
        ({
            let held = st.refresh[i];
            let out = spec_refresh(st, held.token, held.client_id, now, ttl, m);
            &&& out.1 is Ok <==> held.generation < u64::MAX && texts_free(st, m, true)
            &&& out.1 matches Ok((access, refresh)) ==> {
                &&& refresh.token == m.refresh_token
                &&& refresh.family == held.family
                &&& refresh.generation == held.generation + 1
                &&& access.token == m.access_token
                &&& access.family == Some(held.family)
                &&& out.0.refresh.len() == st.refresh.len() + 1
                &&& out.0.refresh[i] == held.consume()
                &&& out.0.refresh.last() == refresh
                &&& out.0.access == st.access.push(access)
            }
            &&& out.1 is Err ==> out.1 == Err::<(AccessTokenView, RefreshTokenView), _>(
                TokenError::ServerError,
            ) && out.0 == st
        }),
{
    let held = st.refresh[i];
    let w = refresh_index(st.refresh, held.token)->Some_0;
    assert(w == i) by {
        if w < i {
            assert(st.refresh[w].token != st.refresh[i].token);
        } else if w > i {
            assert(st.refresh[i].token != st.refresh[w].token);
        }
    }
}

/// Refresh rotation and replay. Where presenting a refresh token succeeds,
/// the refresh token that is issued is of the next generation of the same
/// family. Presenting the old token again then fails with `InvalidGrant` and
/// revokes the family: every refresh token of it, the new one included, and
/// every access token issued with one, is revoked; so the new refresh token
/// is refused in its turn, and the new access token is no longer usable.
pub proof fn lemma_refresh_rotation_and_replay(
    st: TokenStoreView,
    token: Seq<u8>,
    client_id: u128,
    now: u64,
    ttl: u64,
    m: TokenMaterialView,
    replay_at: u64,
    replay_m: TokenMaterialView,
    next_at: u64,
    next_m: TokenMaterialView,
)
    requires
        tokens_wf(st),
        spec_refresh(st, token, client_id, now, ttl, m).1 is Ok,
    ensures
        ({
            let i = refresh_index(st.refresh, token)->Some_0;
            let family = st.refresh[i].family;
            let rotated = spec_refresh(st, token, client_id, now, ttl, m);
            let issued = rotated.1->Ok_0;
            let replayed = spec_refresh(rotated.0, token, client_id, replay_at, ttl, replay_m);
            let next = spec_refresh(replayed.0, m.refresh_token, client_id, next_at, ttl, next_m);
            &&& tokens_wf(rotated.0)
            &&& issued.1.token == m.refresh_token
            &&& issued.1.family == family
            &&& issued.1.generation == st.refresh[i].generation + 1
            &&& issued.0.family == Some(family)
            &&& replayed.1 == Err::<(AccessTokenView, RefreshTokenView), _>(TokenError::InvalidGrant)
            &&& replayed.0 == spec_revoke_family(rotated.0, family)
            &&& tokens_wf(replayed.0)
            &&& forall|k: int|
                0 <= k < replayed.0.refresh.len() && (#[trigger] replayed.0.refresh[k]).family
                    == family ==> replayed.0.refresh[k].revoked
            &&& forall|k: int|
                0 <= k < replayed.0.access.len() && (#[trigger] replayed.0.access[k]).family
                    == Some(family) ==> replayed.0.access[k].revoked
            &&& next.1 == Err::<(AccessTokenView, RefreshTokenView), _>(TokenError::InvalidGrant)
            &&& next.0 == replayed.0
            &&& spec_introspect(replayed.0, m.access_token, next_at) is None
        }),
{
    let i = refresh_index(st.refresh, token)->Some_0;
    let old_token = st.refresh[i];
    let family = old_token.family;
    let rotated = spec_refresh(st, token, client_id, now, ttl, m);
    let st1 = rotated.0;
    let n = st.refresh.len() as int;
    let a = st.access.len() as int;
    assert(st1.refresh.len() == n + 1);
    assert(st1.refresh[n].token == m.refresh_token);
    assert(st1.refresh[i] == old_token.consume());
    // The rotated store is a store.
    assert forall|x: int, y: int| 0 <= x < y < st1.access.len() implies (
    #[trigger] st1.access[x]).token != (#[trigger] st1.access[y]).token by {
        assert(st1.access[x] == st.access[x]);
        if y < a {
            assert(st1.access[y] == st.access[y]);
        }
    }
    assert forall|x: int, y: int| 0 <= x < y < st1.refresh.len() implies (
    #[trigger] st1.refresh[x]).token != (#[trigger] st1.refresh[y]).token by {
        assert(st1.refresh[x].token == st.refresh[x].token);
        if y < n {
            assert(st1.refresh[y].token == st.refresh[y].token);
        }
    }
    assert forall|x: int, y: int|
        0 <= x < y < st1.refresh.len() && (#[trigger] st1.refresh[x]).family == (
        #[trigger] st1.refresh[y]).family implies st1.refresh[x].generation
        != st1.refresh[y].generation by {
        assert(st1.refresh[x].family == st.refresh[x].family);
        assert(st1.refresh[x].generation == st.refresh[x].generation);
        if y < n {
            assert(st1.refresh[y].family == st.refresh[y].family);
            assert(st1.refresh[y].generation == st.refresh[y].generation);
        } else {
            assert(st.refresh[x].generation <= old_token.generation);
        }
    }
    // The old token is still found, and is no longer current.
    assert(st1.refresh[i].token == token);
    let w = refresh_index(st1.refresh, token)->Some_0;
    assert(w == i) by {
        if w < i {
            assert(st1.refresh[w].token != st1.refresh[i].token);
        } else if w > i {
            assert(st1.refresh[i].token != st1.refresh[w].token);
        }
    }
    assert(!is_current(st1.refresh, i)) by {
        assert(st1.refresh[n].family == st1.refresh[i].family);
        assert(st1.refresh[n].generation > st1.refresh[i].generation);
    }
    let st2 = spec_revoke_family(st1, family);
    lemma_revoke_family_wf(st1, family);
    // The new token is found in the revoked store, and is revoked.
    assert(st2.refresh[n].token == m.refresh_token);
    let v = refresh_index(st2.refresh, m.refresh_token)->Some_0;
    assert(v == n) by {
        if v < n {
            assert(st2.refresh[v].token != st2.refresh[n].token);
        }
    }
    assert(st2.refresh[n].revoked);
    // The new access token is revoked.
    assert(st1.access[a].token == m.access_token);
    assert(st2.access[a].token == m.access_token);
    let u = access_index(st2.access, m.access_token)->Some_0;
    assert(u == a) by {
        if u < a {
            assert(st2.access[u].token != st2.access[a].token);
        }
    }
    assert(st2.access[a].revoked);
}

/// Rotation of a first refresh token, and its replay. The refresh token of
/// generation 0 of a family that has no other token, not revoked and
/// presented by its client while the texts of the material are free, is
/// rotated: the refresh token that is issued is of generation 1 of the same
/// family. Presenting the first token again then fails with `InvalidGrant`,
/// and the whole family, the token of generation 1 included, is revoked.
pub proof fn lemma_first_rotation_and_replay(
    st: TokenStoreView,
    i: int,
    now: u64,
    ttl: u64,
    m: TokenMaterialView,
    replay_at: u64,
    replay_m: TokenMaterialView,
)
    requires
        tokens_wf(st),
        0 <= i < st.refresh.len(),
        !st.refresh[i].revoked,
        st.refresh[i].generation == 0,
        is_current(st.refresh, i),
        texts_free(st, m, true),
    ensures
        ({
            let held = st.refresh[i];
            let rotated = spec_refresh(st, held.token, held.client_id, now, ttl, m);
            let replayed = spec_refresh(
                rotated.0,
                held.token,
                held.client_id,
                replay_at,
                ttl,
                replay_m,
            );
            &&& rotated.1 matches Ok((access, refresh)) && {
                &&& refresh.token == m.refresh_token
                &&& refresh.family == held.family
                &&& refresh.generation == 1
            }
            &&& replayed.1 == Err::<(AccessTokenView, RefreshTokenView), _>(TokenError::InvalidGrant)
            &&& forall|k: int|
                0 <= k < replayed.0.refresh.len() && (#[trigger] replayed.0.refresh[k]).family
                    == held.family ==> replayed.0.refresh[k].revoked
            &&& replayed.0.refresh.last().token == m.refresh_token
            &&& replayed.0.refresh.last().revoked
            &&& spec_introspect(replayed.0, m.access_token, replay_at) is None
        }),
{
    let held = st.refresh[i];
    lemma_refresh_succeeds(st, i, now, ttl, m);
    lemma_refresh_rotation_and_replay(
        st,
        held.token,
        held.client_id,
        now,
        ttl,
        m,
        replay_at,
        replay_m,
        replay_at,
        replay_m,
    );
    let w = refresh_index(st.refresh, held.token)->Some_0;
    assert(w == i) by {
        if w < i {
            assert(st.refresh[w].token != st.refresh[i].token);
        } else if w > i {
            assert(st.refresh[i].token != st.refresh[w].token);
        }
    }
    let rotated = spec_refresh(st, held.token, held.client_id, now, ttl, m);
    let replayed = spec_refresh(rotated.0, held.token, held.client_id, replay_at, ttl, replay_m);
    assert(replayed.0.refresh.len() == rotated.0.refresh.len());
    assert(rotated.0.refresh.last().family == held.family);
    assert(rotated.0.refresh.last().token == m.refresh_token);
}

/// Revocation is idempotent: revoking a family or a text a second time
/// changes nothing.
pub proof fn lemma_revoke_idempotent(st: TokenStoreView, family: u128, token: Seq<u8>)
    ensures
        spec_revoke_family(spec_revoke_family(st, family), family) == spec_revoke_family(st, family),
        spec_revoke(spec_revoke(st, token), token) == spec_revoke(st, token),
{
    let once = spec_revoke_family(st, family);
    let twice = spec_revoke_family(once, family);
    assert(twice.access =~= once.access);
    assert(twice.refresh =~= once.refresh);
    let one = spec_revoke(st, token);
    let two = spec_revoke(one, token);
    assert(two.access =~= one.access);
    assert(two.refresh =~= one.refresh);
}

/// A revoked token is never usable again: it is not found by introspection,
/// and presenting a revoked refresh token is refused, at any time.
pub proof fn lemma_revoked_is_unusable(
    st: TokenStoreView,
    token: Seq<u8>,
    client_id: u128,
    now: u64,
    ttl: u64,
    m: TokenMaterialView,
)
    requires
        tokens_wf(st),
    ensures
        spec_introspect(spec_revoke(st, token), token, now) is None,
        spec_refresh(spec_revoke(st, token), token, client_id, now, ttl, m).1 == Err::<
            (AccessTokenView, RefreshTokenView),
            _,
        >(TokenError::InvalidGrant),
        spec_refresh(spec_revoke(st, token), token, client_id, now, ttl, m).0 == spec_revoke(
            st,
            token,
        ),
{
    let after = spec_revoke(st, token);
    if access_index(after.access, token) is Some {
        let i = access_index(after.access, token)->Some_0;
        assert(after.access[i].token == st.access[i].token);
    }
    if refresh_index(after.refresh, token) is Some {
        let i = refresh_index(after.refresh, token)->Some_0;
        assert(after.refresh[i].token == st.refresh[i].token);
    }
}

} // verus!

//! The pending delegated logins and the links between upstream subjects and
//! local accounts. A provider and an upstream subject are linked at most
//! once.

use vstd::prelude::*;
use rand::rngs::StdRng;
use crate::base64url;
use crate::bytes::{bytes_eq, to_vec};
use crate::iana::PkceCodeChallengeMethod;
use crate::ident::{new_id, random_bytes, spec_id_millis, spec_timestamp_ms};
use crate::pkce::{compute_challenge, spec_challenge};
use crate::scope::join_spaces;
use crate::session::{
    account_index, attributes_view, directory_wf, session_index, spec_session, Account,
    AccountView, Attribute, AttributeView, Directory, DirectoryView, Session,
};
use crate::storage::DatabaseError;
use crate::upstream::flow::{
    authorization_url, spec_authorization_url, FederationError, UpstreamOAuthAuthorizationSession,
    UpstreamOAuthAuthorizationSessionView, UpstreamOAuthLink, UpstreamOAuthLinkView, SECRET_BYTES,
};
use crate::upstream::provider::{UpstreamOAuthProvider, UpstreamOAuthProviderView};
use crate::upstream::repository::{
    contains_id, index_of_id, lemma_filter_step, MemUpstreamOAuthProviderRepository,
};

verus! {

/// The views of a list of pending logins.
pub open spec fn sessions_view(s: Seq<UpstreamOAuthAuthorizationSession>) -> Seq<
    UpstreamOAuthAuthorizationSessionView,
> {
    s.map_values(|x: UpstreamOAuthAuthorizationSession| x@)
}

/// The views of a list of links.
pub open spec fn links_view(s: Seq<UpstreamOAuthLink>) -> Seq<UpstreamOAuthLinkView> {
    s.map_values(|x: UpstreamOAuthLink| x@)
}

/// The pending logins and the links.
pub struct FederationView {
    pub sessions: Seq<UpstreamOAuthAuthorizationSessionView>,
    pub links: Seq<UpstreamOAuthLinkView>,
}

/// Where in `s` the pending login with the identifier `id` stands.
pub open spec fn pending_index(s: Seq<UpstreamOAuthAuthorizationSessionView>, id: u128) -> Option<
    int,
> {
    if exists|i: int| 0 <= i < s.len() && (#[trigger] s[i]).id == id {
        Some(choose|i: int| 0 <= i < s.len() && (#[trigger] s[i]).id == id)
    } else {
        None
    }
}

/// Whether the link `l` is that of the subject `subject` of the provider
/// `provider_id`.
pub open spec fn links_subject(l: UpstreamOAuthLinkView, provider_id: u128, subject: Seq<u8>) -> bool {
    l.provider_id == provider_id && l.subject == subject
}

/// Where in `s` the link of the subject `subject` of the provider
/// `provider_id` stands.
pub open spec fn link_index(s: Seq<UpstreamOAuthLinkView>, provider_id: u128, subject: Seq<u8>) -> Option<
    int,
> {
    if exists|i: int| 0 <= i < s.len() && links_subject(#[trigger] s[i], provider_id, subject) {
        Some(choose|i: int| 0 <= i < s.len() && links_subject(#[trigger] s[i], provider_id, subject))
    } else {
        None
    }
}

/// Whether a link of `s` has the identifier `id`.
pub open spec fn link_id_taken(s: Seq<UpstreamOAuthLinkView>, id: u128) -> bool {
    exists|i: int| 0 <= i < s.len() && (#[trigger] s[i]).id == id
}

/// What holds of the pending logins and the links: no identifier is that of
/// two pending logins or of two links, and no subject of a provider is
/// linked twice.
pub open spec fn federation_wf(f: FederationView) -> bool {
    &&& forall|i: int, j: int|
        0 <= i < j < f.sessions.len() ==> (#[trigger] f.sessions[i]).id != (
        #[trigger] f.sessions[j]).id
    &&& forall|i: int, j: int|
        0 <= i < j < f.links.len() ==> (#[trigger] f.links[i]).id != (#[trigger] f.links[j]).id
    &&& forall|i: int, j: int|
        0 <= i < j < f.links.len() ==> !links_subject(
            #[trigger] f.links[j],
            (#[trigger] f.links[i]).provider_id,
            f.links[i].subject,
        )
}

/// The fresh identifier and secrets of a delegated login.
#[derive(Debug, PartialEq, Eq)]
pub struct StartMaterial {
    pub id: u128,
    pub state: Vec<u8>,
    pub nonce: Vec<u8>,
    pub code_challenge_verifier: Vec<u8>,
}

/// The fresh identifiers of a new account, its session and its link.
#[derive(Clone, Copy, Debug, PartialEq, Eq, Structural)]
pub struct LinkMaterial {
    pub account_id: u128,
    pub session_id: u128,
    pub link_id: u128,
}

/// Whether each identifier of `m` holds the time `now`, as identifiers drawn
/// at `now` do.
pub open spec fn is_drawn_at(m: LinkMaterial, now: u64) -> bool {
    &&& spec_timestamp_ms(m.account_id) == spec_id_millis(now)
    &&& spec_timestamp_ms(m.session_id) == spec_id_millis(now)
    &&& spec_timestamp_ms(m.link_id) == spec_id_millis(now)
}

/// The pending login that `start` creates for `provider` at `now`.
pub open spec fn new_pending(
    provider: UpstreamOAuthProviderView,
    now: u64,
    id: u128,
    state: Seq<u8>,
    nonce: Seq<u8>,
    verifier: Seq<u8>,
) -> UpstreamOAuthAuthorizationSessionView {
    UpstreamOAuthAuthorizationSessionView {
        id,
        provider_id: provider.id,
        state,
        nonce,
        code_challenge_verifier: verifier,
        created_at: now,
    }
}

/// The URL to which `start` sends the user for the pending login `pending`:
/// the query names this server's client identifier at the provider, the
/// redirect URI, the provider's scope, the state and the nonce of the
/// pending login, and the S256 challenge of its code verifier.
pub open spec fn start_url(
    provider: UpstreamOAuthProviderView,
    endpoint: Seq<u8>,
    redirect_uri: Seq<u8>,
    pending: UpstreamOAuthAuthorizationSessionView,
) -> Seq<u8> {
    spec_authorization_url(
        endpoint,
        provider.client_id,
        redirect_uri,
        join_spaces(provider.scope),
        pending.state,
        pending.nonce,
        spec_challenge(PkceCodeChallengeMethod::S256, pending.code_challenge_verifier),
    )
}

/// The state after `link_or_create`, and the session it returns. Where the
/// subject is linked for the provider, the session of the link is returned
/// and nothing changes. Otherwise an account with the attributes, a session
/// of that account, and the link of the subject to them are created, and
/// the new session is returned. Identifiers that are in use are refused and
/// nothing changes.
pub open spec fn spec_link_or_create(
    f: FederationView,
    d: DirectoryView,
    provider_id: u128,
    subject: Seq<u8>,
    attributes: Seq<AttributeView>,
    now: u64,
    m: LinkMaterial,
) -> (FederationView, DirectoryView, Result<Session, FederationError>) {
    match link_index(f.links, provider_id, subject) {
        Some(i) => match spec_session(d.sessions, f.links[i].session_id) {
            Some(session) => (f, d, Ok(session)),
            None => (f, d, Err(FederationError::Conflict)),
        },
        None => if account_index(d.accounts, m.account_id) is Some || session_index(
            d.sessions,
            m.session_id,
        ) is Some || link_id_taken(f.links, m.link_id) {
            (f, d, Err(FederationError::Conflict))
        } else {
            let session = Session {
                id: m.session_id,
                account_id: m.account_id,
                authenticated_at: now,
            };
            let account = AccountView { id: m.account_id, attributes, created_at: now };
            let link = UpstreamOAuthLinkView {
                id: m.link_id,
                provider_id,
                subject,
                account_id: m.account_id,
                session_id: m.session_id,
                created_at: now,
            };
            (
                FederationView { sessions: f.sessions, links: f.links.push(link) },
                DirectoryView {
                    accounts: d.accounts.push(account),
                    sessions: d.sessions.push(session),
                },
                Ok(session),
            )
        },
    }
}

/// The state after the provider `provider_id` has been forgotten: its
/// pending logins and its links are gone.
pub open spec fn spec_forget_provider(f: FederationView, provider_id: u128) -> FederationView {
    FederationView {
        sessions: f.sessions.filter(
            |s: UpstreamOAuthAuthorizationSessionView| s.provider_id != provider_id,
        ),
        links: f.links.filter(|l: UpstreamOAuthLinkView| l.provider_id != provider_id),
    }
}

/// Whether `text` is the unpadded base64url text of `SECRET_BYTES` bytes, as
/// a drawn secret is.
pub open spec fn is_drawn_secret(text: Seq<u8>) -> bool {
    exists|drawn: Seq<u8>|
        drawn.len() == SECRET_BYTES && text == #[trigger] base64url::spec_encode(drawn)
}

/// A freshly drawn secret: `SECRET_BYTES` random bytes as unpadded base64url
/// text.
pub fn draw_secret(rng: &mut StdRng) -> (r: Vec<u8>)
    ensures
        is_drawn_secret(r@),
{
    let drawn = random_bytes(rng, SECRET_BYTES).unwrap();
    let text = base64url::encode(drawn.as_slice());
    assert(text@ == base64url::spec_encode(drawn@));
    text
}

/// The pending delegated logins and the links of a server.
#[derive(Debug)]
pub struct UpstreamFederation {
    sessions: Vec<UpstreamOAuthAuthorizationSession>,
    links: Vec<UpstreamOAuthLink>,
}

impl UpstreamFederation {
    /// The pending logins and the links, in the order of their creation.
    pub closed spec fn view(&self) -> FederationView {
        FederationView { sessions: sessions_view(self.sessions@), links: links_view(self.links@) }
    }

    /// What holds of the pending logins and the links holds of these.
    pub open spec fn wf(&self) -> bool {
        federation_wf(self@)
    }

    /// Without pending logins and links.
    pub fn new() -> (r: UpstreamFederation)
        ensures
            r.wf(),
            r@.sessions == Seq::<UpstreamOAuthAuthorizationSessionView>::empty(),
            r@.links == Seq::<UpstreamOAuthLinkView>::empty(),
    {
        let r = UpstreamFederation { sessions: Vec::new(), links: Vec::new() };
        assert(r@.sessions =~= Seq::<UpstreamOAuthAuthorizationSessionView>::empty());
        assert(r@.links =~= Seq::<UpstreamOAuthLinkView>::empty());
        r
    }

    /// Where the pending login with the identifier `id` stands.
    fn find_pending(&self, id: u128) -> (r: Option<usize>)
        requires
            self.wf(),
        ensures
            match r {
                Some(i) => i < self@.sessions.len() && pending_index(self@.sessions, id) == Some(
                    i as int,
                ),
                None => pending_index(self@.sessions, id) is None,
            },
    {
        let mut i: usize = 0;
        while i < self.sessions.len()
            invariant
                i <= self.sessions@.len(),
                self.wf(),
                forall|j: int| 0 <= j < i ==> (#[trigger] self@.sessions[j]).id != id,
            decreases self.sessions@.len() - i,
        {
            if self.sessions[i].id == id {
                proof {
                    assert(self@.sessions[i as int].id == id);
                    let w = choose|k: int|
                        0 <= k < self@.sessions.len() && (#[trigger] self@.sessions[k]).id == id;
                    assert(w == i);
                }
                return Some(i);
            }
            assert(self@.sessions[i as int].id != id);
            i = i + 1;
        }
        None
    }

    /// Where the link of the subject `subject` of the provider `provider_id`
    /// stands.
    fn find_link(&self, provider_id: u128, subject: &[u8]) -> (r: Option<usize>)
        requires
            self.wf(),
        ensures
            match r {
                Some(i) => i < self@.links.len() && link_index(self@.links, provider_id, subject@)
                    == Some(i as int),
                None => link_index(self@.links, provider_id, subject@) is None,
            },
    {
        let mut i: usize = 0;
        while i < self.links.len()
            invariant
                i <= self.links@.len(),
                self.wf(),
                forall|j: int|
                    0 <= j < i ==> !links_subject(#[trigger] self@.links[j], provider_id, subject@),
            decreases self.links@.len() - i,
        {
            if self.links[i].provider_id == provider_id && bytes_eq(
                self.links[i].subject.as_slice(),
                subject,
            ) {
                proof {
                    assert(links_subject(self@.links[i as int], provider_id, subject@));
                    let w = choose|k: int|
                        0 <= k < self@.links.len() && links_subject(
                            #[trigger] self@.links[k],
                            provider_id,
                            subject@,
                        );
                    if w < i {
                        assert(!links_subject(
                            self@.links[i as int],
                            self@.links[w].provider_id,
                            self@.links[w].subject,
                        ));
                    } else if w > i {
                        assert(!links_subject(
                            self@.links[w],
                            self@.links[i as int].provider_id,
                            self@.links[i as int].subject,
                        ));
                    }
                    assert(w == i);
                }
                return Some(i);
            }
            assert(!links_subject(self@.links[i as int], provider_id, subject@));
            i = i + 1;
        }
        None
    }

    /// Whether a link has the identifier `id`.
    fn link_id_in_use(&self, id: u128) -> (r: bool)
        ensures
            r == link_id_taken(self@.links, id),
    {
        let mut i: usize = 0;
        while i < self.links.len()
            invariant
                i <= self.links@.len(),
                forall|j: int| 0 <= j < i ==> (#[trigger] self@.links[j]).id != id,
            decreases self.links@.len() - i,
        {
            if self.links[i].id == id {
                assert(self@.links[i as int].id == id);
                return true;
            }
            assert(self@.links[i as int].id != id);
            i = i + 1;
        }
        false
    }

    /// The pending login with the identifier `id`.
    pub fn pending(&self, id: u128) -> (r: Option<UpstreamOAuthAuthorizationSession>)
        requires
            self.wf(),
        ensures
            match r {
                Some(s) => pending_index(self@.sessions, id) matches Some(i) && self@.sessions[i]
                    == s@,
                None => pending_index(self@.sessions, id) is None,
            },
    {
        match self.find_pending(id) {
            Some(i) => {
                assert(self@.sessions[i as int] == self.sessions@[i as int]@);
                Some(self.sessions[i].clone())
            },
            None => None,
        }
    }

    /// The link of the subject `subject` of the provider `provider_id`.
    pub fn link(&self, provider_id: u128, subject: &[u8]) -> (r: Option<UpstreamOAuthLink>)
        requires
            self.wf(),
        ensures
            match r {
                Some(l) => link_index(self@.links, provider_id, subject@) matches Some(i)
                    && self@.links[i] == l@,
                None => link_index(self@.links, provider_id, subject@) is None,
            },
    {
        match self.find_link(provider_id, subject) {
            Some(i) => {
                assert(self@.links[i as int] == self.links@[i as int]@);
                Some(self.links[i].clone())
            },
            None => None,
        }
    }

    /// Starts a delegated login at `provider` with the identifier and the
    /// secrets of `m`: remembers the pending login and returns it with the
    /// URL to which the user is sent. An identifier that is in use is
    /// refused and nothing changes.
    pub fn start_with(
        &mut self,
        provider: &UpstreamOAuthProvider,
        authorization_endpoint: &[u8],
        redirect_uri: &[u8],
        now: u64,
        m: StartMaterial,
    ) -> (r: Result<(UpstreamOAuthAuthorizationSession, Vec<u8>), FederationError>)
        requires
            old(self).wf(),
        ensures
            final(self).wf(),
            final(self)@.links == old(self)@.links,
            match r {
                Ok((pending, url)) => {
                    &&& pending_index(old(self)@.sessions, m.id) is None
                    &&& pending@ == new_pending(
                        provider@,
                        now,
                        m.id,
                        m.state@,
                        m.nonce@,
                        m.code_challenge_verifier@,
                    )
                    &&& url@ == start_url(provider@, authorization_endpoint@, redirect_uri@, pending@)
                    &&& final(self)@.sessions == old(self)@.sessions.push(pending@)
                },
                Err(e) => {
                    &&& e == FederationError::Conflict
                    &&& pending_index(old(self)@.sessions, m.id) is Some
                    &&& final(self)@.sessions == old(self)@.sessions
                },
            },
    {
        if self.find_pending(m.id).is_some() {
            return Err(FederationError::Conflict);
        }
        let pending = UpstreamOAuthAuthorizationSession {
            id: m.id,
            provider_id: provider.id,
            state: m.state,
            nonce: m.nonce,
            code_challenge_verifier: m.code_challenge_verifier,
            created_at: now,
        };
        let challenge = compute_challenge(
            PkceCodeChallengeMethod::S256,
            pending.code_challenge_verifier.as_slice(),
        );
        let url = authorization_url(
            authorization_endpoint,
            provider.client_id.as_slice(),
            redirect_uri,
            provider.scope.to_bytes().as_slice(),
            pending.state.as_slice(),
            pending.nonce.as_slice(),
            challenge.as_slice(),
        );
        let copy = pending.clone();
        let ghost before = self@;
        self.sessions.push(pending);
        proof {
            assert(self@.sessions =~= before.sessions.push(copy@));
            assert(self@.links == before.links);
            assert forall|a: int, b: int| 0 <= a < b < self@.sessions.len() implies (
            #[trigger] self@.sessions[a]).id != (#[trigger] self@.sessions[b]).id by {
                assert(self@.sessions[a] == before.sessions[a]);
                if b < before.sessions.len() {
                    assert(self@.sessions[b] == before.sessions[b]);
                }
            }
        }
        Ok((copy, url))
    }

    /// Starts a delegated login at `provider` with a fresh identifier and
    /// freshly drawn state, nonce and code verifier, each `SECRET_BYTES`
    /// random bytes written as unpadded base64url. Whatever was drawn, the
    /// pending login returned is the one remembered, and the URL is the one
    /// that goes with it. Starting fails only where the identifier that was
    /// drawn is that of a pending login.
    pub fn start(
        &mut self,
        rng: &mut StdRng,
        provider: &UpstreamOAuthProvider,
        authorization_endpoint: &[u8],
        redirect_uri: &[u8],
        now: u64,
    ) -> (r: Result<(UpstreamOAuthAuthorizationSession, Vec<u8>), FederationError>)
        requires
            old(self).wf(),
        ensures
            final(self).wf(),
            final(self)@.links == old(self)@.links,
            match r {
                Ok((pending, url)) => {
                    &&& pending_index(old(self)@.sessions, pending@.id) is None
                    &&& pending@.provider_id == provider@.id
                    &&& pending@.created_at == now
                    &&& spec_timestamp_ms(pending@.id) == spec_id_millis(
                        now,
                    )
                    &&& is_drawn_secret(pending@.state)
                    &&& is_drawn_secret(pending@.nonce)
                    &&& is_drawn_secret(pending@.code_challenge_verifier)
                    &&& url@ == start_url(provider@, authorization_endpoint@, redirect_uri@, pending@)
                    &&& final(self)@.sessions == old(self)@.sessions.push(pending@)
                },
                Err(e) => {
                    &&& e == FederationError::Conflict
                    &&& final(self)@.sessions == old(self)@.sessions
                    &&& exists|id: u128|
                        spec_timestamp_ms(id) == spec_id_millis(now)
                            && (#[trigger] pending_index(old(self)@.sessions, id)) is Some
                },
            },
    {
        let id = new_id(now, rng);
        let state = draw_secret(rng);
        let nonce = draw_secret(rng);
        let verifier = draw_secret(rng);
        self.start_with(
            provider,
            authorization_endpoint,
            redirect_uri,
            now,
            StartMaterial { id, state, nonce, code_challenge_verifier: verifier },
        )
    }

    /// Forgets the pending login with the identifier `id`, once its callback
    /// has been handled, and returns it.
    pub fn finish(&mut self, id: u128) -> (r: Option<UpstreamOAuthAuthorizationSession>)
        requires
            old(self).wf(),
        ensures
            final(self).wf(),
            final(self)@.links == old(self)@.links,
            match r {
                Some(s) => pending_index(old(self)@.sessions, id) matches Some(i) && s@ == old(
                    self,
                )@.sessions[i] && final(self)@.sessions == old(self)@.sessions.remove(i),
                None => pending_index(old(self)@.sessions, id) is None && final(self)@.sessions
                    == old(self)@.sessions,
            },
    {
        match self.find_pending(id) {
            Some(i) => {
                let ghost before = self@;
                let s = self.sessions.remove(i);
                proof {
                    assert(self@.sessions =~= before.sessions.remove(i as int));
                    assert(self@.links == before.links);
                    assert forall|a: int, b: int| 0 <= a < b < self@.sessions.len() implies (
                    #[trigger] self@.sessions[a]).id != (#[trigger] self@.sessions[b]).id by {
                        let x = if a < i { a } else { a + 1 };
                        let y = if b < i { b } else { b + 1 };
                        assert(self@.sessions[a] == before.sessions[x]);
                        assert(self@.sessions[b] == before.sessions[y]);
                    }
                }
                Some(s)
            },
            None => None,
        }
    }

    /// Adds the link `link`. A subject that is already linked for the
    /// provider is refused as a duplicate, and an identifier that is in use
    /// as a conflict; nothing changes then. This is the one place where a
    /// link is added, so that no subject is ever linked twice.
    pub fn add_link(&mut self, link: UpstreamOAuthLink) -> (r: Result<(), FederationError>)
        requires
            old(self).wf(),
        ensures
            final(self).wf(),
            final(self)@.sessions == old(self)@.sessions,
            match r {
                Ok(_) => {
                    &&& link_index(old(self)@.links, link@.provider_id, link@.subject) is None
                    &&& !link_id_taken(old(self)@.links, link@.id)
                    &&& final(self)@.links == old(self)@.links.push(link@)
                },
                Err(e) => {
                    &&& final(self)@.links == old(self)@.links
                    &&& if link_index(old(self)@.links, link@.provider_id, link@.subject) is Some {
                        e == FederationError::DuplicateLink
                    } else {
                        e == FederationError::Conflict && link_id_taken(old(self)@.links, link@.id)
                    }
                },
            },
    {
        if self.find_link(link.provider_id, link.subject.as_slice()).is_some() {
            return Err(FederationError::DuplicateLink);
        }
        if self.link_id_in_use(link.id) {
            return Err(FederationError::Conflict);
        }
        let ghost before = self@;
        self.links.push(link);
        proof {
            assert(self@.links =~= before.links.push(link@));
            assert(self@.sessions == before.sessions);
            assert forall|a: int, b: int| 0 <= a < b < self@.links.len() implies (
            #[trigger] self@.links[a]).id != (#[trigger] self@.links[b]).id by {
                assert(self@.links[a] == before.links[a]);
                if b < before.links.len() {
                    assert(self@.links[b] == before.links[b]);
                }
            }
            assert forall|a: int, b: int| 0 <= a < b < self@.links.len() implies !links_subject(
                #[trigger] self@.links[b],
                (#[trigger] self@.links[a]).provider_id,
                self@.links[a].subject,
            ) by {
                assert(self@.links[a] == before.links[a]);
                if b < before.links.len() {
                    assert(self@.links[b] == before.links[b]);
                } else {
                    assert(!links_subject(before.links[a], link@.provider_id, link@.subject));
                }
            }
        }
        Ok(())
    }

    /// Links the subject `subject` of the provider `provider_id` to a local
    /// account, unless it is linked, and returns the session of the linked
    /// account. A new account, its session and the link are made with the
    /// identifiers of `m`.
    pub fn link_or_create_with(
        &mut self,
        directory: &mut Directory,
        provider_id: u128,
        subject: &[u8],
        attributes: Vec<Attribute>,
        now: u64,
        m: LinkMaterial,
    ) -> (r: Result<Session, FederationError>)
        requires
            old(self).wf(),
            old(directory).wf(),
        ensures
            final(self).wf(),
            final(directory).wf(),
            (final(self)@, final(directory)@, r) == spec_link_or_create(
                old(self)@,
                old(directory)@,
                provider_id,
                subject@,
                attributes_view(attributes@),
                now,
                m,
            ),
    {
        match self.find_link(provider_id, subject) {
            Some(i) => {
                assert(self@.links[i as int] == self.links@[i as int]@);
                match directory.session(self.links[i].session_id) {
                    Some(session) => Ok(session),
                    None => Err(FederationError::Conflict),
                }
            },
            None => {
                if directory.has_account(m.account_id) || directory.session(m.session_id).is_some()
                    || self.link_id_in_use(m.link_id) {
                    return Err(FederationError::Conflict);
                }
                let session = Session {
                    id: m.session_id,
                    account_id: m.account_id,
                    authenticated_at: now,
                };
                let added = directory.add_account(
                    Account { id: m.account_id, attributes, created_at: now },
                );
                assert(added);
                let opened = directory.add_session(session);
                assert(opened);
                let linked = self.add_link(
                    UpstreamOAuthLink {
                        id: m.link_id,
                        provider_id,
                        subject: to_vec(subject),
                        account_id: m.account_id,
                        session_id: m.session_id,
                        created_at: now,
                    },
                );
                assert(linked is Ok);
                Ok(session)
            },
        }
    }

    /// Links the subject `subject` of the provider `provider_id` to a local
    /// account, unless it is linked, with freshly drawn identifiers, each of
    /// which holds the time `now`.
    /// Whatever was drawn, a subject that is linked gets the session of its
    /// link and nothing changes.
    pub fn link_or_create(
        &mut self,
        rng: &mut StdRng,
        directory: &mut Directory,
        provider_id: u128,
        subject: &[u8],
        attributes: Vec<Attribute>,
        now: u64,
    ) -> (r: Result<Session, FederationError>)
        requires
            old(self).wf(),
            old(directory).wf(),
        ensures
            final(self).wf(),
            final(directory).wf(),
            exists|m: LinkMaterial|
                {
                    &&& is_drawn_at(m, now)
                    &&& (final(self)@, final(directory)@, r) == #[trigger] spec_link_or_create(
                        old(self)@,
                        old(directory)@,
                        provider_id,
                        subject@,
                        attributes_view(attributes@),
                        now,
                        m,
                    )
                },
    {
        let m = LinkMaterial {
            account_id: new_id(now, rng),
            session_id: new_id(now, rng),
            link_id: new_id(now, rng),
        };
        self.link_or_create_with(directory, provider_id, subject, attributes, now, m)
    }

    /// Forgets the provider `provider_id`: removes its pending logins and its
    /// links.
    pub fn forget_provider(&mut self, provider_id: u128)
        requires
            old(self).wf(),
        ensures
            final(self).wf(),
            final(self)@ == spec_forget_provider(old(self)@, provider_id),
    {
        let ghost before = self@;
        let ghost keep_session = |s: UpstreamOAuthAuthorizationSessionView|
            s.provider_id != provider_id;
        let ghost keep_link = |l: UpstreamOAuthLinkView| l.provider_id != provider_id;
        let mut sessions: Vec<UpstreamOAuthAuthorizationSession> = Vec::new();
        let mut i: usize = 0;
        proof {
            reveal(Seq::filter);
            assert(before.sessions.take(0).filter(keep_session) =~= Seq::empty());
            assert(sessions_view(sessions@) =~= Seq::empty());
        }
        while i < self.sessions.len()
            invariant
                i <= self.sessions@.len(),
                self@ == before,
                keep_session == |s: UpstreamOAuthAuthorizationSessionView|
                    s.provider_id != provider_id,
                sessions_view(sessions@) == before.sessions.take(i as int).filter(keep_session),
            decreases self.sessions@.len() - i,
        {
            proof {
                lemma_filter_step(before.sessions, i as int, keep_session);
                assert(before.sessions[i as int] == self.sessions@[i as int]@);
            }
            if self.sessions[i].provider_id != provider_id {
                let ghost prev = sessions_view(sessions@);
                sessions.push(self.sessions[i].clone());
                proof {
                    assert(sessions_view(sessions@) =~= prev.push(before.sessions[i as int]));
                }
            }
            i = i + 1;
        }
        let mut links: Vec<UpstreamOAuthLink> = Vec::new();
        let mut j: usize = 0;
        proof {
            reveal(Seq::filter);
            assert(before.links.take(0).filter(keep_link) =~= Seq::empty());
            assert(links_view(links@) =~= Seq::empty());
        }
        while j < self.links.len()
            invariant
                j <= self.links@.len(),
                self@ == before,
                keep_link == |l: UpstreamOAuthLinkView| l.provider_id != provider_id,
                links_view(links@) == before.links.take(j as int).filter(keep_link),
            decreases self.links@.len() - j,
        {
            proof {
                lemma_filter_step(before.links, j as int, keep_link);
                assert(before.links[j as int] == self.links@[j as int]@);
            }
            if self.links[j].provider_id != provider_id {
                let ghost prev = links_view(links@);
                links.push(self.links[j].clone());
                proof {
                    assert(links_view(links@) =~= prev.push(before.links[j as int]));
                }
            }
            j = j + 1;
        }
        proof {
            assert(before.sessions.take(before.sessions.len() as int) =~= before.sessions);
            assert(before.links.take(before.links.len() as int) =~= before.links);
        }
        self.sessions = sessions;
        self.links = links;
        proof {
            assert(self@.sessions == spec_forget_provider(before, provider_id).sessions);
            assert(self@.links == spec_forget_provider(before, provider_id).links);
            lemma_forget_provider_wf(before, provider_id);
        }
    }
}

/// Whether `at` says where in `s` the elements of `kept` stand: in the same
/// order.
pub open spec fn stands_at<A>(at: Seq<int>, kept: Seq<A>, s: Seq<A>) -> bool {
    &&& at.len() == kept.len()
    &&& forall|k: int| 0 <= k < at.len() ==> 0 <= #[trigger] at[k] < s.len()
    &&& forall|k: int| 0 <= k < at.len() ==> kept[k] == s[#[trigger] at[k]]
    &&& forall|a: int, b: int| 0 <= a < b < at.len() ==> #[trigger] at[a] < #[trigger] at[b]
}

/// What a filter keeps stood, in the same order, in what was filtered.
pub proof fn lemma_filter_keeps_order<A>(s: Seq<A>, pred: spec_fn(A) -> bool)
    ensures
        exists|at: Seq<int>| #[trigger] stands_at(at, s.filter(pred), s),
    decreases s.len(),
{
    reveal(Seq::filter);
    if s.len() == 0 {
        assert(stands_at(Seq::<int>::empty(), s.filter(pred), s));
    } else {
        lemma_filter_keeps_order(s.drop_last(), pred);
        let f = s.drop_last().filter(pred);
        let before = choose|at: Seq<int>| #[trigger] stands_at(at, f, s.drop_last());
        let at = if pred(s.last()) {
            before.push(s.len() - 1)
        } else {
            before
        };
        assert forall|k: int| 0 <= k < at.len() implies s.filter(pred)[k] == s[#[trigger] at[k]] by {
            if k < before.len() {
                assert(at[k] == before[k]);
                assert(s.drop_last()[before[k]] == s[before[k]]);
            }
        }
        assert forall|k: int| 0 <= k < at.len() implies 0 <= #[trigger] at[k] < s.len() by {
            if k < before.len() {
                assert(at[k] == before[k]);
            }
        }
        assert forall|a: int, b: int| 0 <= a < b < at.len() implies #[trigger] at[a]
            < #[trigger] at[b] by {
            assert(at[a] == before[a]);
            if b < before.len() {
                assert(at[b] == before[b]);
            }
        }
        assert(stands_at(at, s.filter(pred), s));
    }
}

/// Forgetting a provider leaves what holds of the pending logins and the
/// links in place.
pub proof fn lemma_forget_provider_wf(f: FederationView, provider_id: u128)
    requires
        federation_wf(f),
    ensures
        federation_wf(spec_forget_provider(f, provider_id)),
{
    let after = spec_forget_provider(f, provider_id);
    let keep_session = |s: UpstreamOAuthAuthorizationSessionView| s.provider_id != provider_id;
    let keep_link = |l: UpstreamOAuthLinkView| l.provider_id != provider_id;
    lemma_filter_keeps_order(f.sessions, keep_session);
    lemma_filter_keeps_order(f.links, keep_link);
    let sat = choose|at: Seq<int>|
        #[trigger] stands_at(at, f.sessions.filter(keep_session), f.sessions);
    let lat = choose|at: Seq<int>| #[trigger] stands_at(at, f.links.filter(keep_link), f.links);
    assert forall|i: int, j: int| 0 <= i < j < after.sessions.len() implies (
    #[trigger] after.sessions[i]).id != (#[trigger] after.sessions[j]).id by {
        assert(after.sessions[i] == f.sessions[sat[i]]);
        assert(after.sessions[j] == f.sessions[sat[j]]);
        assert(sat[i] < sat[j]);
    }
    assert forall|i: int, j: int| 0 <= i < j < after.links.len() implies (
    #[trigger] after.links[i]).id != (#[trigger] after.links[j]).id by {
        assert(after.links[i] == f.links[lat[i]]);
        assert(after.links[j] == f.links[lat[j]]);
        assert(lat[i] < lat[j]);
    }
    assert forall|i: int, j: int| 0 <= i < j < after.links.len() implies !links_subject(
        #[trigger] after.links[j],
        (#[trigger] after.links[i]).provider_id,
        after.links[i].subject,
    ) by {
        assert(after.links[i] == f.links[lat[i]]);
        assert(after.links[j] == f.links[lat[j]]);
        assert(lat[i] < lat[j]);
    }
}

/// Removes the provider `id` and, before it, what refers to it: its pending
/// logins and its links. Where no such provider is stored, the error says
/// that no row was affected where one had to be.
pub fn delete_provider(
    repository: &mut MemUpstreamOAuthProviderRepository,
    federation: &mut UpstreamFederation,
    id: u128,
) -> (r: Result<(), DatabaseError>)
    requires
        old(repository).wf(),
        old(federation).wf(),
    ensures
        final(repository).wf(),
        final(federation).wf(),
        final(federation)@ == spec_forget_provider(old(federation)@, id),
        match r {
            Ok(_) => contains_id(old(repository)@, id) && final(repository)@ == old(
                repository,
            )@.remove(index_of_id(old(repository)@, id)),
            Err(e) => {
                &&& !contains_id(old(repository)@, id)
                &&& e == DatabaseError::RowsAffected { expected: 1, actual: 0 }
                &&& final(repository)@ == old(repository)@
            },
        },
{
    federation.forget_provider(id);
    repository.delete_by_id(id)
}

/// Linking is idempotent, and no subject is ever linked twice. Where
/// `link_or_create` has returned a session, asking again for the same
/// subject of the same provider returns the same session and changes
/// nothing, whatever attributes and fresh identifiers come with the second
/// request; and the links still hold no subject twice.
pub proof fn lemma_link_or_create_twice(
    f: FederationView,
    d: DirectoryView,
    provider_id: u128,
    subject: Seq<u8>,
    attributes: Seq<AttributeView>,
    now: u64,
    m: LinkMaterial,
    later_attributes: Seq<AttributeView>,
    later: u64,
    later_m: LinkMaterial,
)
    requires
        federation_wf(f),
        directory_wf(d),
        spec_link_or_create(f, d, provider_id, subject, attributes, now, m).2 is Ok,
    ensures
        ({
            let first = spec_link_or_create(f, d, provider_id, subject, attributes, now, m);
            let second = spec_link_or_create(
                first.0,
                first.1,
                provider_id,
                subject,
                later_attributes,
                later,
                later_m,
            );
            &&& federation_wf(first.0)
            &&& directory_wf(first.1)
            &&& second.2 == first.2
            &&& second.0 == first.0
            &&& second.1 == first.1
            &&& first.0.links.len() <= f.links.len() + 1
        }),
{
    let first = spec_link_or_create(f, d, provider_id, subject, attributes, now, m);
    if link_index(f.links, provider_id, subject) is None {
        let n = f.links.len() as int;
        let links = first.0.links;
        let sessions = first.1.sessions;
        let accounts = first.1.accounts;
        assert(links_subject(links[n], provider_id, subject));
        assert forall|a: int, b: int| 0 <= a < b < links.len() implies (#[trigger] links[a]).id != (
        #[trigger] links[b]).id by {
            assert(links[a] == f.links[a]);
            if b < n {
                assert(links[b] == f.links[b]);
            }
        }
        assert forall|a: int, b: int| 0 <= a < b < links.len() implies !links_subject(
            #[trigger] links[b],
            (#[trigger] links[a]).provider_id,
            links[a].subject,
        ) by {
            assert(links[a] == f.links[a]);
            if b < n {
                assert(links[b] == f.links[b]);
            } else {
                assert(!links_subject(f.links[a], provider_id, subject));
            }
        }
        assert forall|a: int, b: int| 0 <= a < b < sessions.len() implies (#[trigger] sessions[a]).id
            != (#[trigger] sessions[b]).id by {
            assert(sessions[a] == d.sessions[a]);
            if b < d.sessions.len() {
                assert(sessions[b] == d.sessions[b]);
            }
        }
        assert forall|a: int, b: int| 0 <= a < b < accounts.len() implies (#[trigger] accounts[a]).id
            != (#[trigger] accounts[b]).id by {
            assert(accounts[a] == d.accounts[a]);
            if b < d.accounts.len() {
                assert(accounts[b] == d.accounts[b]);
            }
        }
        let w = link_index(links, provider_id, subject)->Some_0;
        assert(w == n) by {
            if w < n {
                assert(links[w] == f.links[w]);
                assert(!links_subject(f.links[w], provider_id, subject));
            }
        }
        let k = d.sessions.len() as int;
        assert(sessions[k].id == m.session_id);
        let v = session_index(sessions, m.session_id)->Some_0;
        assert(v == k) by {
            if v < k {
                assert(sessions[v] == d.sessions[v]);
            }
        }
    }
}

} // verus!

//! Registered clients and the credentials they present.

use vstd::prelude::*;
use crate::bytes::{clone_list, clone_opt_bytes, ct_eq, list_contains, list_view, opt_bytes_view};
use crate::iana::{GrantType, OAuthClientAuthenticationMethod};
use crate::scope::Scope;

verus! {

/// A registered relying party.
pub struct Client {
    pub id: u128,
    /// The redirect URIs that the client registered.
    pub redirect_uris: Vec<Vec<u8>>,
    /// The grant types that the client may use.
    pub grant_types: Vec<GrantType>,
    /// How the client authenticates at the token endpoint.
    pub token_endpoint_auth_method: OAuthClientAuthenticationMethod,
    pub client_secret: Option<Vec<u8>>,
    /// The scope that the client may request.
    pub scope: Scope,
}

/// A client as a mathematical value.
pub struct ClientView {
    pub id: u128,
    pub redirect_uris: Seq<Seq<u8>>,
    pub grant_types: Seq<GrantType>,
    pub token_endpoint_auth_method: OAuthClientAuthenticationMethod,
    pub client_secret: Option<Seq<u8>>,
    pub scope: Seq<Seq<u8>>,
}

/// What a client presents at the token endpoint.
#[derive(PartialEq, Eq)]
pub struct ClientCredentials {
    pub client_id: u128,
    pub client_secret: Option<Vec<u8>>,
}

/// Credentials as a mathematical value.
pub struct ClientCredentialsView {
    pub client_id: u128,
    pub client_secret: Option<Seq<u8>>,
}

impl ClientCredentials {
    /// The value as a mathematical value, with its byte strings as sequences.
    pub open spec fn view(&self) -> ClientCredentialsView {
        ClientCredentialsView {
            client_id: self.client_id,
            client_secret: opt_bytes_view(self.client_secret),
        }
    }
}

impl ClientView {
    /// Whether `redirect_uri` is registered for the client. URIs are compared
    /// byte for byte.
    pub open spec fn has_redirect_uri(self, redirect_uri: Seq<u8>) -> bool {
        self.redirect_uris.contains(redirect_uri)
    }

    /// Whether the client may request every token of `scope`.
    pub open spec fn may_request(self, scope: Seq<Seq<u8>>) -> bool {
        forall|t: Seq<u8>| scope.contains(t) ==> self.scope.contains(t)
    }

    /// Whether the client may use `grant_type`.
    pub open spec fn may_use(self, grant_type: GrantType) -> bool {
        self.grant_types.contains(grant_type)
    }

    /// Whether `credentials` are those of the client. A client without
    /// authentication is known by its identifier alone; one that authenticates
    /// with a secret must present the secret that is registered. The methods
    /// that rest on signed assertions or on certificates are not accepted.
    pub open spec fn accepts(self, credentials: ClientCredentialsView) -> bool {
        &&& credentials.client_id == self.id
        &&& match self.token_endpoint_auth_method {
            OAuthClientAuthenticationMethod::NoAuthentication => true,
            OAuthClientAuthenticationMethod::ClientSecretPost
            | OAuthClientAuthenticationMethod::ClientSecretBasic => {
                &&& self.client_secret is Some
                &&& credentials.client_secret == self.client_secret
            },
            _ => false,
        }
    }
}

impl Client {
    /// The value as a mathematical value, with its byte strings as sequences.
    pub open spec fn view(&self) -> ClientView {
        ClientView {
            id: self.id,
            redirect_uris: list_view(self.redirect_uris@),
            grant_types: self.grant_types@,
            token_endpoint_auth_method: self.token_endpoint_auth_method,
            client_secret: opt_bytes_view(self.client_secret),
            scope: self.scope@,
        }
    }

    /// The scope is a set of scope tokens.
    pub open spec fn wf(&self) -> bool {
        self.scope.wf()
    }

    /// Whether `redirect_uri` is registered for the client.
    pub fn has_redirect_uri(&self, redirect_uri: &[u8]) -> (r: bool)
        ensures
            r == self@.has_redirect_uri(redirect_uri@),
    {
        list_contains(&self.redirect_uris, redirect_uri)
    }

    /// Whether the client may request every token of `scope`.
    pub fn may_request(&self, scope: &Scope) -> (r: bool)
        ensures
            r == self@.may_request(scope@),
    {
        scope.is_subset_of(&self.scope)
    }

    /// Whether the client may use `grant_type`.
    pub fn may_use(&self, grant_type: GrantType) -> (r: bool)
        ensures
            r == self@.may_use(grant_type),
    {
        let mut i: usize = 0;
        while i < self.grant_types.len()
            invariant
                i <= self.grant_types.len(),
                forall|j: int| 0 <= j < i ==> self.grant_types@[j] != grant_type,
            decreases self.grant_types.len() - i,
        {
            if self.grant_types[i] == grant_type {
                return true;
            }
            i = i + 1;
        }
        false
    }

    /// Whether `credentials` are those of the client. Secrets are compared
    /// without stopping at the first difference.
    pub fn verify_credentials(&self, credentials: &ClientCredentials) -> (r: bool)
        ensures
            r == self@.accepts(credentials@),
    {
        if credentials.client_id != self.id {
            return false;
        }
        match self.token_endpoint_auth_method {
            OAuthClientAuthenticationMethod::NoAuthentication => true,
            OAuthClientAuthenticationMethod::ClientSecretPost
            | OAuthClientAuthenticationMethod::ClientSecretBasic => {
                match (&self.client_secret, &credentials.client_secret) {
                    (Some(registered), Some(presented)) => ct_eq(
                        registered.as_slice(),
                        presented.as_slice(),
                    ),
                    _ => false,
                }
            },
            _ => false,
        }
    }

    /// A copy of the client.
    pub fn clone(&self) -> (r: Client)
        ensures
            r@ == self@,
            self.wf() ==> r.wf(),
    {
        let mut grant_types: Vec<GrantType> = Vec::new();
        let mut i: usize = 0;
        while i < self.grant_types.len()
            invariant
                i <= self.grant_types.len(),
                grant_types@ == self.grant_types@.take(i as int),
            decreases self.grant_types.len() - i,
        {
            grant_types.push(self.grant_types[i]);
            proof {
                assert(self.grant_types@.take(i as int + 1) =~= self.grant_types@.take(
                    i as int,
                ).push(self.grant_types@[i as int]));
            }
            i = i + 1;
        }
        proof {
            assert(self.grant_types@.take(self.grant_types.len() as int) =~= self.grant_types@);
        }
        Client {
            id: self.id,
            redirect_uris: clone_list(&self.redirect_uris),
            grant_types,
            token_endpoint_auth_method: self.token_endpoint_auth_method,
            client_secret: clone_opt_bytes(&self.client_secret),
            scope: self.scope.clone(),
        }
    }
}

/// The views of a list of clients.
pub open spec fn clients_view(s: Seq<Client>) -> Seq<ClientView> {
    s.map_values(|c: Client| c@)
}

/// Where in `s` the client with the identifier `id` stands, if it is there.
pub open spec fn client_index(s: Seq<ClientView>, id: u128) -> Option<int> {
    if exists|i: int| 0 <= i < s.len() && (#[trigger] s[i]).id == id {
        Some(choose|i: int| 0 <= i < s.len() && (#[trigger] s[i]).id == id)
    } else {
        None
    }
}

/// Whether no identifier occurs twice in `s`.
pub open spec fn distinct_clients(s: Seq<ClientView>) -> bool {
    forall|i: int, j: int| 0 <= i < j < s.len() ==> (#[trigger] s[i]).id != (#[trigger] s[j]).id
}

/// The registry of clients.
pub struct ClientStore {
    clients: Vec<Client>,
}

impl ClientStore {
    /// The registered clients, in the order of their registration.
    pub closed spec fn view(&self) -> Seq<ClientView> {
        clients_view(self.clients@)
    }

    /// No identifier is registered twice, and every client's scope is a set
    /// of scope tokens.
    pub closed spec fn wf(&self) -> bool {
        &&& distinct_clients(self@)
        &&& forall|i: int| 0 <= i < self.clients@.len() ==> (#[trigger] self.clients@[i]).wf()
    }

    /// What holds of the view of every well-formed registry.
    pub proof fn lemma_wf(&self)
        requires
            self.wf(),
        ensures
            distinct_clients(self@),
    {
    }

    /// An empty registry.
    pub fn new() -> (r: ClientStore)
        ensures
            r.wf(),
            r@ == Seq::<ClientView>::empty(),
    {
        let r = ClientStore { clients: Vec::new() };
        assert(r@ =~= Seq::<ClientView>::empty());
        r
    }

    /// Where the client with the identifier `id` stands.
    fn find(&self, id: u128) -> (r: Option<usize>)
        requires
            self.wf(),
        ensures
            match r {
                Some(i) => i < self.clients@.len() && client_index(self@, id) == Some(i as int),
                None => client_index(self@, id) is None,
            },
    {
        let mut i: usize = 0;
        while i < self.clients.len()
            invariant
                i <= self.clients@.len(),
                self.wf(),
                forall|j: int| 0 <= j < i ==> (#[trigger] self@[j]).id != id,
            decreases self.clients@.len() - i,
        {
            if self.clients[i].id == id {
                proof {
                    assert(self@[i as int].id == id);
                    let w = choose|k: int| 0 <= k < self@.len() && (#[trigger] self@[k]).id == id;
                    assert(w == i);
                }
                return Some(i);
            }
            i = i + 1;
        }
        None
    }

    /// Finds a client by its identifier.
    pub fn lookup(&self, id: u128) -> (r: Option<&Client>)
        requires
            self.wf(),
        ensures
            match r {
                Some(c) => {
                    &&& c.wf()
                    &&& client_index(self@, id) matches Some(i)
                    &&& self@[i] == c@
                },
                None => client_index(self@, id) is None,
            },
    {
        match self.find(id) {
            Some(i) => Some(&self.clients[i]),
            None => None,
        }
    }

    /// Replaces the secret of the client `id`, which is all that changes of
    /// a client after its registration. Returns whether the client is
    /// registered.
    pub fn rotate_secret(&mut self, id: u128, secret: Option<Vec<u8>>) -> (r: bool)
        requires
            old(self).wf(),
        ensures
            final(self).wf(),
            r == (client_index(old(self)@, id) is Some),
            final(self)@ == match client_index(old(self)@, id) {
                Some(i) => old(self)@.update(
                    i,
                    ClientView { client_secret: opt_bytes_view(secret), ..old(self)@[i] },
                ),
                None => old(self)@,
            },
    {
        match self.find(id) {
            None => false,
            Some(i) => {
                let ghost before = self@;
                let ghost before_items = self.clients@;
                assert(before[i as int] == before_items[i as int]@);
                assert(before_items[i as int].wf());
                let mut client = self.clients[i].clone();
                client.client_secret = secret;
                let ghost cv = client@;
                self.clients.set(i, client);
                proof {
                    assert(self@ =~= before.update(i as int, cv));
                    assert forall|k: int| 0 <= k < self.clients@.len() implies (
                    #[trigger] self.clients@[k]).wf() by {
                        if k != i {
                            assert(self.clients@[k] == before_items[k]);
                        }
                    }
                    assert forall|a: int, b: int| 0 <= a < b < self@.len() implies (
                    #[trigger] self@[a]).id != (#[trigger] self@[b]).id by {
                        assert(self@[a].id == before[a].id);
                        assert(self@[b].id == before[b].id);
                    }
                }
                true
            },
        }
    }

    /// Registers `client`. An identifier that is already registered is
    /// refused, and the registry is left as it was.
    pub fn register(&mut self, client: Client) -> (r: bool)
        requires
            old(self).wf(),
            client.wf(),
        ensures
            final(self).wf(),
            r == (client_index(old(self)@, client.id) is None),
            final(self)@ == if r {
                old(self)@.push(client@)
            } else {
                old(self)@
            },
    {
        match self.find(client.id) {
            Some(_) => false,
            None => {
                let ghost before = self@;
                let ghost before_items = self.clients@;
                self.clients.push(client);
                proof {
                    assert(self@ =~= before.push(client@));
                    assert forall|i: int| 0 <= i < self.clients@.len() implies (
                    #[trigger] self.clients@[i]).wf() by {
                        if i < before_items.len() {
                            assert(self.clients@[i] == before_items[i]);
                        }
                    }
                }
                true
            },
        }
    }
}

} // verus!

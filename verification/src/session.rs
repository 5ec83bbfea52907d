//! Local accounts and the sessions of users who have authenticated.

use vstd::prelude::*;
use crate::bytes::to_vec;

verus! {

/// A local attribute of an account: a name and a value.
#[derive(Debug, PartialEq, Eq)]
pub struct Attribute {
    pub name: Vec<u8>,
    pub value: Vec<u8>,
}

/// An attribute as a mathematical value.
pub struct AttributeView {
    pub name: Seq<u8>,
    pub value: Seq<u8>,
}

impl Attribute {
    /// The value as a mathematical value, with its byte strings as sequences.
    pub open spec fn view(&self) -> AttributeView {
        AttributeView { name: self.name@, value: self.value@ }
    }

    /// A copy of the attribute.
    pub fn clone(&self) -> (r: Attribute)
        ensures
            r@ == self@,
    {
        Attribute { name: to_vec(self.name.as_slice()), value: to_vec(self.value.as_slice()) }
    }
}

/// The views of a list of attributes.
pub open spec fn attributes_view(s: Seq<Attribute>) -> Seq<AttributeView> {
    s.map_values(|a: Attribute| a@)
}

/// A copy of a list of attributes.
pub fn clone_attributes(l: &Vec<Attribute>) -> (r: Vec<Attribute>)
    ensures
        attributes_view(r@) == attributes_view(l@),
{
    let mut out: Vec<Attribute> = Vec::new();
    let mut i: usize = 0;
    while i < l.len()
        invariant
            i <= l.len(),
            attributes_view(out@) == attributes_view(l@).take(i as int),
        decreases l.len() - i,
    {
        let ghost before = attributes_view(out@);
        out.push(l[i].clone());
        proof {
            assert(attributes_view(out@) =~= before.push(l@[i as int]@));
            assert(attributes_view(l@).take(i as int + 1) =~= attributes_view(l@).take(
                i as int,
            ).push(l@[i as int]@));
        }
        i = i + 1;
    }
    proof {
        assert(attributes_view(l@).take(l.len() as int) =~= attributes_view(l@));
    }
    out
}

/// A local account.
#[derive(Debug, PartialEq, Eq)]
pub struct Account {
    pub id: u128,
    pub attributes: Vec<Attribute>,
    pub created_at: u64,
}

/// An account as a mathematical value.
pub struct AccountView {
    pub id: u128,
    pub attributes: Seq<AttributeView>,
    pub created_at: u64,
}

impl Account {
    /// The value as a mathematical value, with its byte strings as sequences.
    pub open spec fn view(&self) -> AccountView {
        AccountView {
            id: self.id,
            attributes: attributes_view(self.attributes@),
            created_at: self.created_at,
        }
    }
}

/// The session of a user who has authenticated. Grants refer to it by its
/// identifier.
#[derive(Clone, Copy, Debug, PartialEq, Eq, Structural)]
pub struct Session {
    pub id: u128,
    pub account_id: u128,
    /// When the user authenticated.
    pub authenticated_at: u64,
}

/// The views of a list of accounts.
pub open spec fn accounts_view(s: Seq<Account>) -> Seq<AccountView> {
    s.map_values(|a: Account| a@)
}

/// The accounts and sessions of a directory.
pub struct DirectoryView {
    pub accounts: Seq<AccountView>,
    pub sessions: Seq<Session>,
}

/// Where in `s` the session with the identifier `id` stands.
pub open spec fn session_index(s: Seq<Session>, id: u128) -> Option<int> {
    if exists|i: int| 0 <= i < s.len() && (#[trigger] s[i]).id == id {
        Some(choose|i: int| 0 <= i < s.len() && (#[trigger] s[i]).id == id)
    } else {
        None
    }
}

/// Where in `s` the account with the identifier `id` stands.
pub open spec fn account_index(s: Seq<AccountView>, id: u128) -> Option<int> {
    if exists|i: int| 0 <= i < s.len() && (#[trigger] s[i]).id == id {
        Some(choose|i: int| 0 <= i < s.len() && (#[trigger] s[i]).id == id)
    } else {
        None
    }
}

/// The session with the identifier `id`, if there is one.
pub open spec fn spec_session(s: Seq<Session>, id: u128) -> Option<Session> {
    match session_index(s, id) {
        Some(i) => Some(s[i]),
        None => None,
    }
}

/// What holds of a directory: no identifier is that of two accounts or of
/// two sessions.
pub open spec fn directory_wf(d: DirectoryView) -> bool {
    &&& forall|i: int, j: int|
        0 <= i < j < d.accounts.len() ==> (#[trigger] d.accounts[i]).id != (
        #[trigger] d.accounts[j]).id
    &&& forall|i: int, j: int|
        0 <= i < j < d.sessions.len() ==> (#[trigger] d.sessions[i]).id != (
        #[trigger] d.sessions[j]).id
}

/// The directory of local accounts and sessions.
#[derive(Debug)]
pub struct Directory {
    accounts: Vec<Account>,
    sessions: Vec<Session>,
}

impl Directory {
    /// The accounts and the sessions, in the order of their creation.
    pub closed spec fn view(&self) -> DirectoryView {
        DirectoryView { accounts: accounts_view(self.accounts@), sessions: self.sessions@ }
    }

    /// No identifier is that of two accounts or of two sessions.
    pub open spec fn wf(&self) -> bool {
        directory_wf(self@)
    }

    /// An empty directory.
    pub fn new() -> (r: Directory)
        ensures
            r.wf(),
            r@.accounts == Seq::<AccountView>::empty(),
            r@.sessions == Seq::<Session>::empty(),
    {
        let r = Directory { accounts: Vec::new(), sessions: Vec::new() };
        assert(r@.accounts =~= Seq::<AccountView>::empty());
        r
    }

    /// Whether an account has the identifier `id`.
    pub fn has_account(&self, id: u128) -> (r: bool)
        ensures
            r == (account_index(self@.accounts, id) is Some),
    {
        let mut i: usize = 0;
        while i < self.accounts.len()
            invariant
                i <= self.accounts@.len(),
                forall|j: int| 0 <= j < i ==> (#[trigger] self@.accounts[j]).id != id,
            decreases self.accounts@.len() - i,
        {
            if self.accounts[i].id == id {
                assert(self@.accounts[i as int].id == id);
                return true;
            }
            assert(self@.accounts[i as int].id != id);
            i = i + 1;
        }
        false
    }

    /// The session with the identifier `id`.
    pub fn session(&self, id: u128) -> (r: Option<Session>)
        requires
            self.wf(),
        ensures
            r == spec_session(self@.sessions, id),
    {
        let mut i: usize = 0;
        while i < self.sessions.len()
            invariant
                i <= self.sessions@.len(),
                self.wf(),
                forall|j: int| 0 <= j < i ==> (#[trigger] self@.sessions[j]).id != id,
            decreases self.sessions@.len() - i,
        {
            if self.sessions[i].id == id {
                proof {
                    assert(self@.sessions[i as int].id == id);
                    let w = choose|k: int|
                        0 <= k < self@.sessions.len() && (#[trigger] self@.sessions[k]).id == id;
                    assert(w == i);
                }
                return Some(self.sessions[i]);
            }
            assert(self@.sessions[i as int].id != id);
            i = i + 1;
        }
        None
    }

    /// The attributes of the account with the identifier `id`.
    pub fn account_attributes(&self, id: u128) -> (r: Option<Vec<Attribute>>)
        requires
            self.wf(),
        ensures
            match r {
                Some(a) => account_index(self@.accounts, id) matches Some(i)
                    && self@.accounts[i].attributes == attributes_view(a@),
                None => account_index(self@.accounts, id) is None,
            },
    {
        let mut i: usize = 0;
        while i < self.accounts.len()
            invariant
                i <= self.accounts@.len(),
                self.wf(),
                forall|j: int| 0 <= j < i ==> (#[trigger] self@.accounts[j]).id != id,
            decreases self.accounts@.len() - i,
        {
            if self.accounts[i].id == id {
                proof {
                    assert(self@.accounts[i as int].id == id);
                    let w = choose|k: int|
                        0 <= k < self@.accounts.len() && (#[trigger] self@.accounts[k]).id == id;
                    assert(w == i);
                }
                return Some(clone_attributes(&self.accounts[i].attributes));
            }
            assert(self@.accounts[i as int].id != id);
            i = i + 1;
        }
        None
    }

    /// Adds the account `account`. An identifier that is in use is refused.
    pub fn add_account(&mut self, account: Account) -> (r: bool)
        requires
            old(self).wf(),
        ensures
            final(self).wf(),
            r == (account_index(old(self)@.accounts, account.id) is None),
            final(self)@.sessions == old(self)@.sessions,
            final(self)@.accounts == if r {
                old(self)@.accounts.push(account@)
            } else {
                old(self)@.accounts
            },
    {
        if self.has_account(account.id) {
            return false;
        }
        let ghost before = self@;
        self.accounts.push(account);
        proof {
            assert(self@.accounts =~= before.accounts.push(account@));
            assert(self@.sessions == before.sessions);
            assert forall|a: int, b: int| 0 <= a < b < self@.accounts.len() implies (
            #[trigger] self@.accounts[a]).id != (#[trigger] self@.accounts[b]).id by {
                assert(self@.accounts[a] == before.accounts[a]);
                if b < before.accounts.len() {
                    assert(self@.accounts[b] == before.accounts[b]);
                }
            }
        }
        true
    }

    /// Adds the session `session`. An identifier that is in use is refused.
    pub fn add_session(&mut self, session: Session) -> (r: bool)
        requires
            old(self).wf(),
        ensures
            final(self).wf(),
            r == (session_index(old(self)@.sessions, session.id) is None),
            final(self)@.accounts == old(self)@.accounts,
            final(self)@.sessions == if r {
                old(self)@.sessions.push(session)
            } else {
                old(self)@.sessions
            },
    {
        if self.session(session.id).is_some() {
            return false;
        }
        let ghost before = self@;
        self.sessions.push(session);
        proof {
            assert(self@.accounts == before.accounts);
            assert(self@.sessions == before.sessions.push(session));
            assert forall|a: int, b: int| 0 <= a < b < self@.sessions.len() implies (
            #[trigger] self@.sessions[a]).id != (#[trigger] self@.sessions[b]).id by {
                assert(self@.sessions[a] == before.sessions[a]);
                if b < before.sessions.len() {
                    assert(self@.sessions[b] == before.sessions[b]);
                }
            }
        }
        true
    }
}

} // verus!

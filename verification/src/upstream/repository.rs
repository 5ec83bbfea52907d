//! An in-memory repository of upstream providers, ordered by identifier.

use vstd::prelude::*;
use rand::rngs::StdRng;
use crate::bytes::{bytes_eq, opt_bytes_view};
use crate::ident::{
    lemma_later_id_is_greater, new_id_at_millis, spec_clamped_millis, spec_timestamp_ms,
    MAX_ULID_MILLIS,
};
use crate::iana::{JsonWebSignatureAlg, OAuthClientAuthenticationMethod};
use crate::scope::Scope;
use crate::storage::{DatabaseError, Page, Pagination, PaginationDirection};
use crate::upstream::provider::{
    rules_view, ClaimsImportRule, UpstreamOAuthProvider, UpstreamOAuthProviderView,
};

verus! {

/// The views of a list of providers.
pub open spec fn providers_view(s: Seq<UpstreamOAuthProvider>) -> Seq<UpstreamOAuthProviderView> {
    s.map_values(|p: UpstreamOAuthProvider| p@)
}

/// Whether a provider of `s` has the identifier `id`.
pub open spec fn contains_id(s: Seq<UpstreamOAuthProviderView>, id: u128) -> bool {
    exists|i: int| 0 <= i < s.len() && (#[trigger] s[i]).id == id
}

/// Where in `s` the provider with the identifier `id` stands.
pub open spec fn index_of_id(s: Seq<UpstreamOAuthProviderView>, id: u128) -> int {
    choose|i: int| 0 <= i < s.len() && (#[trigger] s[i]).id == id
}

/// The provider of `s` with the identifier `id`, if there is one.
pub open spec fn spec_lookup(s: Seq<UpstreamOAuthProviderView>, id: u128) -> Option<
    UpstreamOAuthProviderView,
> {
    if contains_id(s, id) {
        Some(s[index_of_id(s, id)])
    } else {
        None
    }
}

/// Whether the identifiers of `s` ascend strictly.
pub open spec fn ascending(s: Seq<UpstreamOAuthProviderView>) -> bool {
    forall|i: int, j: int| 0 <= i < j < s.len() ==> (#[trigger] s[i]).id < (#[trigger] s[j]).id
}

/// Which providers a listing keeps.
#[derive(Debug)]
pub struct UpstreamOAuthProviderFilter {
    /// Keep only the providers of this issuer.
    pub issuer: Option<Vec<u8>>,
}

impl UpstreamOAuthProviderFilter {
    /// The filter that keeps every provider.
    pub fn new() -> (r: UpstreamOAuthProviderFilter)
        ensures
            r.issuer is None,
    {
        UpstreamOAuthProviderFilter { issuer: None }
    }

    /// The filter that keeps the providers of `issuer`.
    pub fn for_issuer(issuer: Vec<u8>) -> (r: UpstreamOAuthProviderFilter)
        ensures
            r.issuer == Some(issuer),
    {
        UpstreamOAuthProviderFilter { issuer: Some(issuer) }
    }

    /// Whether the filter keeps `p`.
    pub open spec fn spec_matches(&self, p: UpstreamOAuthProviderView) -> bool {
        self.issuer matches Some(issuer) ==> p.issuer == issuer@
    }

    /// Whether the filter keeps `p`.
    pub fn matches(&self, p: &UpstreamOAuthProvider) -> (r: bool)
        ensures
            r == self.spec_matches(p@),
    {
        match &self.issuer {
            Some(issuer) => bytes_eq(issuer.as_slice(), p.issuer.as_slice()),
            None => true,
        }
    }
}

/// What a listing keeps: the providers that the filter keeps and whose
/// identifiers lie in the window.
pub open spec fn listed(filter: UpstreamOAuthProviderFilter, pagination: Pagination) -> spec_fn(
    UpstreamOAuthProviderView,
) -> bool {
    |p: UpstreamOAuthProviderView| pagination.in_window(p.id) && filter.spec_matches(p)
}

/// The page of `matching`, the providers that a listing keeps: its first or
/// last `count` items, in ascending order, and whether the others lie before
/// or after them.
pub open spec fn spec_page(matching: Seq<UpstreamOAuthProviderView>, pagination: Pagination) -> (
    bool,
    bool,
    Seq<UpstreamOAuthProviderView>,
) {
    let more = matching.len() > pagination.count;
    let keep = if more {
        pagination.count as int
    } else {
        matching.len() as int
    };
    match pagination.direction {
        PaginationDirection::Forward => (false, more, matching.take(keep)),
        PaginationDirection::Backward => (more, false, matching.skip(matching.len() - keep)),
    }
}

/// What a listing query fetches of `matching`, the providers that the
/// listing keeps: up to one more than the page holds, from the end of the
/// window that the direction names, nearest first.
pub open spec fn spec_fetched(matching: Seq<UpstreamOAuthProviderView>, pagination: Pagination) -> Seq<
    UpstreamOAuthProviderView,
> {
    let n = if matching.len() > pagination.count {
        pagination.count + 1
    } else {
        matching.len() as int
    };
    match pagination.direction {
        PaginationDirection::Forward => matching.take(n),
        PaginationDirection::Backward => matching.skip(matching.len() - n).reverse(),
    }
}

/// The page that is made of what a listing query fetches is the page of the
/// providers that the listing keeps: a repository that queries a database
/// and one that holds the providers in memory list alike.
pub proof fn lemma_page_of_fetched(matching: Seq<UpstreamOAuthProviderView>, pagination: Pagination)
    ensures
        pagination.spec_process(spec_fetched(matching, pagination)) == spec_page(
            matching,
            pagination,
        ),
{
    let fetched = spec_fetched(matching, pagination);
    let len = matching.len() as int;
    let more = matching.len() > pagination.count;
    let n = if more {
        pagination.count + 1
    } else {
        len
    };
    let made = pagination.spec_process(fetched);
    let page = spec_page(matching, pagination);
    match pagination.direction {
        PaginationDirection::Forward => {
            assert(fetched.len() == n);
            if more {
                assert(fetched.drop_last() =~= matching.take(pagination.count as int));
            } else {
                assert(fetched =~= matching.take(len));
            }
            assert(made.2 =~= page.2);
        },
        PaginationDirection::Backward => {
            let tail = matching.skip(len - n);
            assert(tail.len() == n);
            assert(fetched.len() == n);
            if more {
                assert(fetched.drop_last().reverse() =~= matching.skip(len - pagination.count));
            } else {
                assert(fetched.reverse() =~= matching.skip(0));
            }
            assert(made.2 =~= page.2);
        },
    }
}

/// One more element of a sequence is kept by a filter, or it is not.
pub proof fn lemma_filter_step<A>(s: Seq<A>, i: int, pred: spec_fn(A) -> bool)
    requires
        0 <= i < s.len(),
    ensures
        s.take(i + 1).filter(pred) == if pred(s[i]) {
            s.take(i).filter(pred).push(s[i])
        } else {
            s.take(i).filter(pred)
        },
{
    reveal(Seq::filter);
    assert(s.take(i + 1).drop_last() =~= s.take(i));
    assert(s.take(i + 1).last() == s[i]);
}

/// An in-memory repository of upstream providers.
#[derive(Debug)]
pub struct MemUpstreamOAuthProviderRepository {
    providers: Vec<UpstreamOAuthProvider>,
}

impl MemUpstreamOAuthProviderRepository {
    /// The providers, in ascending order of their identifiers.
    pub closed spec fn view(&self) -> Seq<UpstreamOAuthProviderView> {
        providers_view(self.providers@)
    }

    /// The identifiers ascend strictly, so none occurs twice, and every
    /// provider's scope is a set of scope tokens.
    pub closed spec fn wf(&self) -> bool {
        &&& ascending(self@)
        &&& forall|i: int| 0 <= i < self.providers@.len() ==> (#[trigger] self.providers@[i]).wf()
    }

    /// What holds of the view of every well-formed repository.
    pub proof fn lemma_wf(&self)
        requires
            self.wf(),
        ensures
            ascending(self@),
    {
    }

    /// An empty repository.
    pub fn new() -> (r: MemUpstreamOAuthProviderRepository)
        ensures
            r.wf(),
            r@ == Seq::<UpstreamOAuthProviderView>::empty(),
    {
        let r = MemUpstreamOAuthProviderRepository { providers: Vec::new() };
        assert(r@ =~= Seq::<UpstreamOAuthProviderView>::empty());
        r
    }

    /// The number of providers with an identifier below `id`, which is where
    /// a provider with the identifier `id` stands or would be put.
    fn position(&self, id: u128) -> (k: usize)
        requires
            self.wf(),
        ensures
            k <= self@.len(),
            forall|j: int| 0 <= j < k ==> (#[trigger] self@[j]).id < id,
            forall|j: int| k <= j < self@.len() ==> (#[trigger] self@[j]).id >= id,
    {
        let mut k: usize = 0;
        while k < self.providers.len()
            invariant
                k <= self.providers@.len(),
                self.wf(),
                forall|j: int| 0 <= j < k ==> (#[trigger] self@[j]).id < id,
            decreases self.providers@.len() - k,
        {
            if self.providers[k].id >= id {
                assert(self@[k as int].id >= id);
                return k;
            }
            assert(self@[k as int].id < id);
            k = k + 1;
        }
        k
    }

    /// Finds a provider by its identifier.
    pub fn lookup(&self, id: u128) -> (r: Option<UpstreamOAuthProvider>)
        requires
            self.wf(),
        ensures
            match r {
                Some(p) => p.wf() && spec_lookup(self@, id) == Some(p@),
                None => spec_lookup(self@, id) is None,
            },
    {
        let k = self.position(id);
        if k < self.providers.len() && self.providers[k].id == id {
            proof {
                assert(self@[k as int].id == id);
                let w = index_of_id(self@, id);
                assert(w == k);
            }
            Some(self.providers[k].clone())
        } else {
            None
        }
    }

    /// Stores a new provider under the identifier `id`, created at `now`, in
    /// milliseconds since the Unix epoch. An
    /// identifier that is already taken is refused and the repository is left
    /// as it was.
    pub fn add_with_id(
        &mut self,
        id: u128,
        now: u64,
        issuer: Vec<u8>,
        scope: Scope,
        token_endpoint_auth_method: OAuthClientAuthenticationMethod,
        token_endpoint_signing_alg: Option<JsonWebSignatureAlg>,
        client_id: Vec<u8>,
        encrypted_client_secret: Option<Vec<u8>>,
        claims_imports: Vec<ClaimsImportRule>,
    ) -> (r: Result<UpstreamOAuthProvider, DatabaseError>)
        requires
            old(self).wf(),
            scope.wf(),
        ensures
            final(self).wf(),
            match r {
                Ok(p) => {
                    &&& !contains_id(old(self)@, id)
                    &&& p.wf()
                    &&& p@ == (UpstreamOAuthProviderView {
                        id,
                        issuer: issuer@,
                        scope: scope@,
                        client_id: client_id@,
                        encrypted_client_secret: opt_bytes_view(encrypted_client_secret),
                        token_endpoint_signing_alg,
                        token_endpoint_auth_method,
                        created_at: now,
                        claims_imports: rules_view(claims_imports@),
                    })
                    &&& exists|k: int|
                        0 <= k <= old(self)@.len() && final(self)@ == old(self)@.insert(k, p@)
                },
                Err(e) => {
                    &&& contains_id(old(self)@, id)
                    &&& e == DatabaseError::Duplicate
                    &&& final(self)@ == old(self)@
                },
            },
    {
        let k = self.position(id);
        if k < self.providers.len() && self.providers[k].id == id {
            assert(self@[k as int].id == id);
            return Err(DatabaseError::Duplicate);
        }
        let provider = UpstreamOAuthProvider {
            id,
            issuer,
            scope,
            client_id,
            encrypted_client_secret,
            token_endpoint_signing_alg,
            token_endpoint_auth_method,
            created_at: now,
            claims_imports,
        };
        let copy = provider.clone();
        let ghost before = self@;
        let ghost before_items = self.providers@;
        self.providers.insert(k, provider);
        proof {
            assert(self@ =~= before.insert(k as int, copy@));
            assert forall|i: int| 0 <= i < self.providers@.len() implies (
            #[trigger] self.providers@[i]).wf() by {
                if i < k {
                    assert(self.providers@[i] == before_items[i]);
                } else if i > k {
                    assert(self.providers@[i] == before_items[i - 1]);
                }
            }
            assert forall|i: int, j: int| 0 <= i < j < self@.len() implies (#[trigger] self@[i]).id
                < (#[trigger] self@[j]).id by {
                let a = if i < k { i } else { i - 1 };
                let b = if j < k { j } else { j - 1 };
                if i != k {
                    assert(self@[i] == before[a]);
                }
                if j != k {
                    assert(self@[j] == before[b]);
                }
            }
        }
        Ok(copy)
    }

    /// Stores a new provider, created at `now`, in milliseconds since the
    /// Unix epoch, under a fresh identifier that holds that time. Whatever
    /// identifier was drawn, the provider returned is the one stored. Adding
    /// fails only where the identifier that was drawn is already taken.
    pub fn add(
        &mut self,
        rng: &mut StdRng,
        now: u64,
        issuer: Vec<u8>,
        scope: Scope,
        token_endpoint_auth_method: OAuthClientAuthenticationMethod,
        token_endpoint_signing_alg: Option<JsonWebSignatureAlg>,
        client_id: Vec<u8>,
        encrypted_client_secret: Option<Vec<u8>>,
        claims_imports: Vec<ClaimsImportRule>,
    ) -> (r: Result<UpstreamOAuthProvider, DatabaseError>)
        requires
            old(self).wf(),
            scope.wf(),
        ensures
            final(self).wf(),
            match r {
                Ok(p) => {
                    &&& !contains_id(old(self)@, p.id)
                    &&& spec_timestamp_ms(p.id) == spec_clamped_millis(
                        now,
                    )
                    &&& p.wf()
                    &&& p@ == (UpstreamOAuthProviderView {
                        id: p.id,
                        issuer: issuer@,
                        scope: scope@,
                        client_id: client_id@,
                        encrypted_client_secret: opt_bytes_view(encrypted_client_secret),
                        token_endpoint_signing_alg,
                        token_endpoint_auth_method,
                        created_at: now,
                        claims_imports: rules_view(claims_imports@),
                    })
                    &&& exists|k: int|
                        0 <= k <= old(self)@.len() && final(self)@ == old(self)@.insert(k, p@)
                },
                Err(e) => {
                    &&& e == DatabaseError::Duplicate
                    &&& final(self)@ == old(self)@
                    &&& exists|id: u128|
                        spec_timestamp_ms(id) == spec_clamped_millis(
                            now,
                        ) && #[trigger] contains_id(old(self)@, id)
                },
            },
    {
        let id = new_id_at_millis(now, rng);
        self.add_with_id(
            id,
            now,
            issuer,
            scope,
            token_endpoint_auth_method,
            token_endpoint_signing_alg,
            client_id,
            encrypted_client_secret,
            claims_imports,
        )
    }

    /// Stores a provider under the identifier `id`: a new one, created at
    /// `now`, where the identifier is free; otherwise the stored one with its
    /// settings replaced and its time of creation kept.
    pub fn upsert(
        &mut self,
        now: u64,
        id: u128,
        issuer: Vec<u8>,
        scope: Scope,
        token_endpoint_auth_method: OAuthClientAuthenticationMethod,
        token_endpoint_signing_alg: Option<JsonWebSignatureAlg>,
        client_id: Vec<u8>,
        encrypted_client_secret: Option<Vec<u8>>,
        claims_imports: Vec<ClaimsImportRule>,
    ) -> (p: UpstreamOAuthProvider)
        requires
            old(self).wf(),
            scope.wf(),
        ensures
            final(self).wf(),
            p.wf(),
            p@ == (UpstreamOAuthProviderView {
                id,
                issuer: issuer@,
                scope: scope@,
                client_id: client_id@,
                encrypted_client_secret: opt_bytes_view(encrypted_client_secret),
                token_endpoint_signing_alg,
                token_endpoint_auth_method,
                created_at: match spec_lookup(old(self)@, id) {
                    Some(stored) => stored.created_at,
                    None => now,
                },
                claims_imports: rules_view(claims_imports@),
            }),
            match spec_lookup(old(self)@, id) {
                Some(stored) => final(self)@ == old(self)@.update(index_of_id(old(self)@, id), p@),
                None => exists|k: int|
                    0 <= k <= old(self)@.len() && final(self)@ == old(self)@.insert(k, p@),
            },
    {
        let k = self.position(id);
        if k < self.providers.len() && self.providers[k].id == id {
            proof {
                assert(self@[k as int].id == id);
                assert(index_of_id(self@, id) == k);
            }
            let provider = UpstreamOAuthProvider {
                id,
                issuer,
                scope,
                client_id,
                encrypted_client_secret,
                token_endpoint_signing_alg,
                token_endpoint_auth_method,
                created_at: self.providers[k].created_at,
                claims_imports,
            };
            let copy = provider.clone();
            let ghost before = self@;
            let ghost before_items = self.providers@;
            self.providers.set(k, provider);
            proof {
                assert(self@ =~= before.update(k as int, copy@));
                assert forall|i: int| 0 <= i < self.providers@.len() implies (
                #[trigger] self.providers@[i]).wf() by {
                    if i != k {
                        assert(self.providers@[i] == before_items[i]);
                    }
                }
                assert forall|i: int, j: int| 0 <= i < j < self@.len() implies (
                #[trigger] self@[i]).id < (#[trigger] self@[j]).id by {
                    assert(self@[i].id == before[i].id);
                    assert(self@[j].id == before[j].id);
                }
            }
            copy
        } else {
            let r = self.add_with_id(
                id,
                now,
                issuer,
                scope,
                token_endpoint_auth_method,
                token_endpoint_signing_alg,
                client_id,
                encrypted_client_secret,
                claims_imports,
            );
            match r {
                Ok(p) => p,
                Err(_) => vstd::pervasive::unreached(),
            }
        }
    }

    /// Removes the provider with the identifier `id`. Where there is none, the
    /// repository is left as it was and the error says that no row was
    /// affected where one had to be.
    pub fn delete_by_id(&mut self, id: u128) -> (r: Result<(), DatabaseError>)
        requires
            old(self).wf(),
        ensures
            final(self).wf(),
            match r {
                Ok(_) => contains_id(old(self)@, id) && final(self)@ == old(self)@.remove(
                    index_of_id(old(self)@, id),
                ),
                Err(e) => {
                    &&& !contains_id(old(self)@, id)
                    &&& e == DatabaseError::RowsAffected { expected: 1, actual: 0 }
                    &&& final(self)@ == old(self)@
                },
            },
    {
        let k = self.position(id);
        if k < self.providers.len() && self.providers[k].id == id {
            proof {
                assert(self@[k as int].id == id);
                assert(index_of_id(self@, id) == k);
            }
            let ghost before = self@;
            let ghost before_items = self.providers@;
            self.providers.remove(k);
            proof {
                assert(self@ =~= before.remove(k as int));
                assert forall|i: int| 0 <= i < self.providers@.len() implies (
                #[trigger] self.providers@[i]).wf() by {
                    if i < k {
                        assert(self.providers@[i] == before_items[i]);
                    } else {
                        assert(self.providers@[i] == before_items[i + 1]);
                    }
                }
                assert forall|i: int, j: int| 0 <= i < j < self@.len() implies (
                #[trigger] self@[i]).id < (#[trigger] self@[j]).id by {
                    let a = if i < k { i } else { i + 1 };
                    let b = if j < k { j } else { j + 1 };
                    assert(self@[i] == before[a]);
                    assert(self@[j] == before[b]);
                }
            }
            crate::storage::ensure_affected_rows(1, 1)
        } else {
            crate::storage::ensure_affected_rows(0, 1)
        }
    }

    /// The providers that `filter` keeps and whose identifiers lie in the
    /// window of `pagination`, in ascending order.
    fn matching(&self, filter: &UpstreamOAuthProviderFilter, pagination: &Pagination) -> (r: Vec<
        UpstreamOAuthProvider,
    >)
        requires
            self.wf(),
        ensures
            providers_view(r@) == self@.filter(listed(*filter, *pagination)),
            forall|i: int| 0 <= i < r@.len() ==> (#[trigger] r@[i]).wf(),
    {
        let mut out: Vec<UpstreamOAuthProvider> = Vec::new();
        let mut i: usize = 0;
        proof {
            reveal(Seq::filter);
            assert(self@.take(0).filter(listed(*filter, *pagination)) =~= Seq::empty());
            assert(providers_view(out@) =~= Seq::empty());
        }
        while i < self.providers.len()
            invariant
                i <= self.providers@.len(),
                self.wf(),
                providers_view(out@) == self@.take(i as int).filter(listed(*filter, *pagination)),
                forall|j: int| 0 <= j < out@.len() ==> (#[trigger] out@[j]).wf(),
            decreases self.providers@.len() - i,
        {
            let p = &self.providers[i];
            let above = match pagination.after {
                Some(a) => p.id > a,
                None => true,
            };
            let below = match pagination.before {
                Some(b) => p.id < b,
                None => true,
            };
            proof {
                lemma_filter_step(self@, i as int, listed(*filter, *pagination));
                assert(self@[i as int] == p@);
            }
            if above && below && filter.matches(p) {
                let ghost before = providers_view(out@);
                out.push(p.clone());
                proof {
                    assert(providers_view(out@) =~= before.push(p@));
                }
            }
            i = i + 1;
        }
        proof {
            assert(self@.take(self.providers@.len() as int) =~= self@);
        }
        out
    }

    /// One page of the providers that `filter` keeps.
    pub fn list(&self, filter: &UpstreamOAuthProviderFilter, pagination: Pagination) -> (page: Page<
        UpstreamOAuthProvider,
    >)
        requires
            self.wf(),
        ensures
            (page.has_previous_page, page.has_next_page, providers_view(page.edges@)) == spec_page(
                self@.filter(listed(*filter, pagination)),
                pagination,
            ),
            forall|i: int| 0 <= i < page.edges@.len() ==> (#[trigger] page.edges@[i]).wf(),
    {
        let mut matching = self.matching(filter, &pagination);
        let ghost all = matching@;
        let len = matching.len();
        let more = len > pagination.count;
        let keep = if more {
            pagination.count
        } else {
            len
        };
        match pagination.direction {
            PaginationDirection::Forward => {
                matching.truncate(keep);
                proof {
                    assert(providers_view(matching@) =~= providers_view(all).take(keep as int));
                }
                Page { has_previous_page: false, has_next_page: more, edges: matching }
            },
            PaginationDirection::Backward => {
                let tail = matching.split_off(len - keep);
                proof {
                    assert(providers_view(tail@) =~= providers_view(all).skip(len - keep));
                }
                Page { has_previous_page: more, has_next_page: false, edges: tail }
            },
        }
    }

    /// The number of providers that `filter` keeps.
    pub fn count(&self, filter: &UpstreamOAuthProviderFilter) -> (n: usize)
        requires
            self.wf(),
        ensures
            n == self@.filter(|p: UpstreamOAuthProviderView| filter.spec_matches(p)).len(),
    {
        let ghost pred = |p: UpstreamOAuthProviderView| filter.spec_matches(p);
        let mut n: usize = 0;
        let mut i: usize = 0;
        proof {
            reveal(Seq::filter);
            assert(self@.take(0).filter(pred) =~= Seq::empty());
        }
        while i < self.providers.len()
            invariant
                i <= self.providers@.len(),
                n <= i,
                pred == |p: UpstreamOAuthProviderView| filter.spec_matches(p),
                n == self@.take(i as int).filter(pred).len(),
            decreases self.providers@.len() - i,
        {
            proof {
                lemma_filter_step(self@, i as int, pred);
                assert(self@[i as int] == self.providers@[i as int]@);
            }
            if filter.matches(&self.providers[i]) {
                n = n + 1;
            }
            i = i + 1;
        }
        proof {
            assert(self@.take(self.providers@.len() as int) =~= self@);
        }
        n
    }

    /// Every provider, in ascending order of identifiers.
    pub fn all(&self) -> (r: Vec<UpstreamOAuthProvider>)
        requires
            self.wf(),
        ensures
            providers_view(r@) == self@,
            forall|i: int| 0 <= i < r@.len() ==> (#[trigger] r@[i]).wf(),
    {
        let mut out: Vec<UpstreamOAuthProvider> = Vec::new();
        let mut i: usize = 0;
        while i < self.providers.len()
            invariant
                i <= self.providers@.len(),
                self.wf(),
                providers_view(out@) == self@.take(i as int),
                forall|j: int| 0 <= j < out@.len() ==> (#[trigger] out@[j]).wf(),
            decreases self.providers@.len() - i,
        {
            let ghost before = providers_view(out@);
            out.push(self.providers[i].clone());
            proof {
                assert(providers_view(out@) =~= before.push(self@[i as int]));
                assert(self@.take(i as int + 1) =~= self@.take(i as int).push(self@[i as int]));
            }
            i = i + 1;
        }
        proof {
            assert(self@.take(self.providers@.len() as int) =~= self@);
        }
        out
    }
}

/// Providers are listed in the order of their making: of two providers of a
/// repository, the one whose identifier was made a millisecond or more
/// before the other's stands before it.
pub proof fn lemma_listed_in_order_of_making(
    s: Seq<UpstreamOAuthProviderView>,
    i: int,
    j: int,
    made_i: u64,
    made_j: u64,
)
    requires
        ascending(s),
        0 <= i < s.len(),
        0 <= j < s.len(),
        spec_timestamp_ms(s[i].id) == spec_clamped_millis(made_i),
        spec_timestamp_ms(s[j].id) == spec_clamped_millis(made_j),
        made_i < made_j <= MAX_ULID_MILLIS,
    ensures
        s[i].id < s[j].id,
        i < j,
{
    lemma_later_id_is_greater(s[i].id, s[j].id, made_i, made_j);
    if j < i {
        assert(s[j].id < s[i].id);
    }
}

} // verus!

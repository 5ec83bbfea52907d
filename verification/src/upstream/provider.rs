//! Upstream provider configuration, and its reading from stored rows.

use vstd::prelude::*;
use crate::bytes::{clone_opt_bytes, opt_bytes_view, reversed, to_vec};
use crate::iana::{JsonWebSignatureAlg, OAuthClientAuthenticationMethod};
use crate::scope::Scope;
use crate::storage::{DatabaseError, Page, Pagination};

verus! {

/// How a claims-import rule treats a claim that the upstream provider did not
/// send.
#[derive(Clone, Copy, Debug, PartialEq, Eq, Structural)]
pub enum ImportMode {
    /// The claim must be present; the login fails without it.
    Required,
    /// The claim is imported when present and skipped otherwise.
    Optional,
    /// The claim is never imported.
    Ignored,
}

/// One claims-import rule: the upstream claim `source_claim` is written to the
/// local attribute `attribute`.
#[derive(Debug, PartialEq, Eq)]
pub struct ClaimsImportRule {
    pub source_claim: Vec<u8>,
    pub attribute: Vec<u8>,
    pub mode: ImportMode,
}

/// A claims-import rule as a mathematical value.
pub struct ClaimsImportRuleView {
    pub source_claim: Seq<u8>,
    pub attribute: Seq<u8>,
    pub mode: ImportMode,
}

impl ClaimsImportRule {
    /// The value as a mathematical value, with its byte strings as sequences.
    pub open spec fn view(&self) -> ClaimsImportRuleView {
        ClaimsImportRuleView {
            source_claim: self.source_claim@,
            attribute: self.attribute@,
            mode: self.mode,
        }
    }

    /// A copy of the rule.
    pub fn clone(&self) -> (r: ClaimsImportRule)
        ensures
            r@ == self@,
    {
        ClaimsImportRule {
            source_claim: to_vec(self.source_claim.as_slice()),
            attribute: to_vec(self.attribute.as_slice()),
            mode: self.mode,
        }
    }
}

/// The views of a list of rules.
pub open spec fn rules_view(rules: Seq<ClaimsImportRule>) -> Seq<ClaimsImportRuleView> {
    rules.map_values(|r: ClaimsImportRule| r@)
}

/// A copy of a list of rules.
pub fn clone_rules(rules: &Vec<ClaimsImportRule>) -> (r: Vec<ClaimsImportRule>)
    ensures
        rules_view(r@) == rules_view(rules@),
{
    let mut out: Vec<ClaimsImportRule> = Vec::new();
    let mut i: usize = 0;
    while i < rules.len()
        invariant
            i <= rules.len(),
            rules_view(out@) == rules_view(rules@).take(i as int),
        decreases rules.len() - i,
    {
        let ghost before = rules_view(out@);
        out.push(rules[i].clone());
        proof {
            assert(rules_view(out@) =~= before.push(rules@[i as int]@));
            assert(rules_view(rules@).take(i as int + 1) =~= rules_view(rules@).take(
                i as int,
            ).push(rules@[i as int]@));
        }
        i = i + 1;
    }
    proof {
        assert(rules_view(rules@).take(rules.len() as int) =~= rules_view(rules@));
    }
    out
}

/// The configuration of an upstream provider.
#[derive(Debug)]
pub struct UpstreamOAuthProvider {
    pub id: u128,
    pub issuer: Vec<u8>,
    pub scope: Scope,
    pub client_id: Vec<u8>,
    pub encrypted_client_secret: Option<Vec<u8>>,
    pub token_endpoint_signing_alg: Option<JsonWebSignatureAlg>,
    pub token_endpoint_auth_method: OAuthClientAuthenticationMethod,
    /// When the provider was first stored, in milliseconds since the Unix
    /// epoch.
    pub created_at: u64,
    pub claims_imports: Vec<ClaimsImportRule>,
}

/// An upstream provider as a mathematical value.
pub struct UpstreamOAuthProviderView {
    pub id: u128,
    pub issuer: Seq<u8>,
    pub scope: Seq<Seq<u8>>,
    pub client_id: Seq<u8>,
    pub encrypted_client_secret: Option<Seq<u8>>,
    pub token_endpoint_signing_alg: Option<JsonWebSignatureAlg>,
    pub token_endpoint_auth_method: OAuthClientAuthenticationMethod,
    pub created_at: u64,
    pub claims_imports: Seq<ClaimsImportRuleView>,
}

/// A provider as it is stored: identifiers as 128-bit numbers, and the scope,
/// the authentication method and the signing algorithm as text.
#[derive(Debug, PartialEq, Eq)]
pub struct ProviderLookup {
    pub upstream_oauth_provider_id: u128,
    pub issuer: Vec<u8>,
    pub scope: Vec<u8>,
    pub client_id: Vec<u8>,
    pub encrypted_client_secret: Option<Vec<u8>>,
    pub token_endpoint_signing_alg: Option<Vec<u8>>,
    pub token_endpoint_auth_method: Vec<u8>,
    pub created_at: u64,
    pub claims_imports: Vec<ClaimsImportRule>,
}

/// A stored table.
#[derive(Clone, Copy, Debug, PartialEq, Eq, Structural)]
pub enum Table {
    /// `upstream_oauth_providers`
    UpstreamOAuthProviders,
}

/// A column of `upstream_oauth_providers` whose text is parsed on reading.
#[derive(Clone, Copy, Debug, PartialEq, Eq, Structural)]
pub enum Column {
    /// `scope`
    Scope,
    /// `token_endpoint_auth_method`
    TokenEndpointAuthMethod,
    /// `token_endpoint_signing_alg`
    TokenEndpointSigningAlg,
}

/// A stored value that does not have the shape it must have: the table, the
/// column and the row in which it was found.
#[derive(Clone, Copy, Debug, PartialEq, Eq, Structural)]
pub struct DatabaseInconsistencyError {
    pub table: Table,
    pub column: Column,
    pub row: u128,
}

impl DatabaseInconsistencyError {
    /// An inconsistency in `column` of the provider row `row`.
    pub open spec fn provider(column: Column, row: u128) -> DatabaseInconsistencyError {
        DatabaseInconsistencyError { table: Table::UpstreamOAuthProviders, column, row }
    }
}

impl ProviderLookup {
    /// The signing algorithm that the row names: `None` where the row names an
    /// unknown one, `Some(None)` where it names none.
    pub open spec fn spec_signing_alg(&self) -> Option<Option<JsonWebSignatureAlg>> {
        match self.token_endpoint_signing_alg {
            None => Some(None),
            Some(text) => match JsonWebSignatureAlg::spec_parse(text@) {
                Some(alg) => Some(Some(alg)),
                None => None,
            },
        }
    }

    /// The provider that the row describes, or the first column, in the order
    /// scope, authentication method, signing algorithm, whose text cannot be
    /// read.
    pub open spec fn spec_provider(&self) -> Result<
        UpstreamOAuthProviderView,
        DatabaseInconsistencyError,
    > {
        let id = self.upstream_oauth_provider_id;
        match Scope::spec_parse(self.scope@) {
            None => Err(DatabaseInconsistencyError::provider(Column::Scope, id)),
            Some(scope) => match OAuthClientAuthenticationMethod::spec_parse(
                self.token_endpoint_auth_method@,
            ) {
                None => Err(
                    DatabaseInconsistencyError::provider(Column::TokenEndpointAuthMethod, id),
                ),
                Some(method) => match self.spec_signing_alg() {
                    None => Err(
                        DatabaseInconsistencyError::provider(Column::TokenEndpointSigningAlg, id),
                    ),
                    Some(alg) => Ok(
                        UpstreamOAuthProviderView {
                            id,
                            issuer: self.issuer@,
                            scope,
                            client_id: self.client_id@,
                            encrypted_client_secret: opt_bytes_view(self.encrypted_client_secret),
                            token_endpoint_signing_alg: alg,
                            token_endpoint_auth_method: method,
                            created_at: self.created_at,
                            claims_imports: rules_view(self.claims_imports@),
                        },
                    ),
                },
            },
        }
    }
}

impl UpstreamOAuthProvider {
    /// The value as a mathematical value, with its byte strings as sequences.
    pub open spec fn view(&self) -> UpstreamOAuthProviderView {
        UpstreamOAuthProviderView {
            id: self.id,
            issuer: self.issuer@,
            scope: self.scope@,
            client_id: self.client_id@,
            encrypted_client_secret: opt_bytes_view(self.encrypted_client_secret),
            token_endpoint_signing_alg: self.token_endpoint_signing_alg,
            token_endpoint_auth_method: self.token_endpoint_auth_method,
            created_at: self.created_at,
            claims_imports: rules_view(self.claims_imports@),
        }
    }

    /// The scope is a set of scope tokens.
    pub open spec fn wf(&self) -> bool {
        self.scope.wf()
    }

    /// Reads a provider from a stored row. The scope, the authentication
    /// method and the signing algorithm are parsed, in that order; the first
    /// that cannot be read is reported with its column and the row's
    /// identifier.
    pub fn try_from(value: ProviderLookup) -> (r: Result<
        UpstreamOAuthProvider,
        DatabaseInconsistencyError,
    >)
        ensures
            match r {
                Ok(p) => p.wf() && value.spec_provider() == Ok::<_, DatabaseInconsistencyError>(p@),
                Err(e) => value.spec_provider() == Err::<UpstreamOAuthProviderView, _>(e),
            },
    {
        let id = value.upstream_oauth_provider_id;
        let scope = match Scope::parse(value.scope.as_slice()) {
            Ok(scope) => scope,
            Err(_) => {
                return Err(
                    DatabaseInconsistencyError {
                        table: Table::UpstreamOAuthProviders,
                        column: Column::Scope,
                        row: id,
                    },
                );
            },
        };
        let token_endpoint_auth_method = match OAuthClientAuthenticationMethod::parse(
            value.token_endpoint_auth_method.as_slice(),
        ) {
            Some(method) => method,
            None => {
                return Err(
                    DatabaseInconsistencyError {
                        table: Table::UpstreamOAuthProviders,
                        column: Column::TokenEndpointAuthMethod,
                        row: id,
                    },
                );
            },
        };
        let token_endpoint_signing_alg = match &value.token_endpoint_signing_alg {
            None => None,
            Some(text) => match JsonWebSignatureAlg::parse(text.as_slice()) {
                Some(alg) => Some(alg),
                None => {
                    return Err(
                        DatabaseInconsistencyError {
                            table: Table::UpstreamOAuthProviders,
                            column: Column::TokenEndpointSigningAlg,
                            row: id,
                        },
                    );
                },
            },
        };
        Ok(
            UpstreamOAuthProvider {
                id,
                issuer: value.issuer,
                scope,
                client_id: value.client_id,
                encrypted_client_secret: value.encrypted_client_secret,
                token_endpoint_auth_method,
                token_endpoint_signing_alg,
                created_at: value.created_at,
                claims_imports: value.claims_imports,
            },
        )
    }

    /// A copy of the provider.
    pub fn clone(&self) -> (r: UpstreamOAuthProvider)
        ensures
            r@ == self@,
            self.wf() ==> r.wf(),
    {
        UpstreamOAuthProvider {
            id: self.id,
            issuer: to_vec(self.issuer.as_slice()),
            scope: self.scope.clone(),
            client_id: to_vec(self.client_id.as_slice()),
            encrypted_client_secret: clone_opt_bytes(&self.encrypted_client_secret),
            token_endpoint_signing_alg: self.token_endpoint_signing_alg,
            token_endpoint_auth_method: self.token_endpoint_auth_method,
            created_at: self.created_at,
            claims_imports: clone_rules(&self.claims_imports),
        }
    }
}

/// Whether `v` holds, in order, the providers that the rows `rows` describe.
pub open spec fn providers_of_rows(v: Seq<UpstreamOAuthProvider>, rows: Seq<ProviderLookup>) -> bool {
    &&& v.len() == rows.len()
    &&& forall|i: int|
        0 <= i < rows.len() ==> (#[trigger] rows[i]).spec_provider() == Ok::<
            _,
            DatabaseInconsistencyError,
        >(v[i]@) && v[i].wf()
}

/// Whether `e` is what reading the first row of `rows` that cannot be read
/// reports: the inconsistency of that row.
pub open spec fn first_inconsistency(rows: Seq<ProviderLookup>, e: DatabaseError) -> bool {
    exists|k: int|
        0 <= k < rows.len() && (#[trigger] rows[k]).spec_provider() is Err
            && e == DatabaseError::Inconsistency(rows[k].spec_provider()->Err_0) && forall|j: int|
            0 <= j < k ==> (#[trigger] rows[j]).spec_provider() is Ok
}

/// Reads the providers that a query returned, in order. The first row that
/// cannot be read ends the reading with its error.
pub fn providers_from_rows(rows: Vec<ProviderLookup>) -> (r: Result<
    Vec<UpstreamOAuthProvider>,
    DatabaseError,
>)
    ensures
        match r {
            Ok(v) => providers_of_rows(v@, rows@),
            Err(e) => first_inconsistency(rows@, e),
        },
{
    let ghost n = rows@.len() as int;
    let mut rest = reversed(rows);
    let mut out: Vec<UpstreamOAuthProvider> = Vec::new();
    while rest.len() > 0
        invariant
            n == rows@.len(),
            out@.len() + rest@.len() == n,
            forall|i: int| 0 <= i < rest@.len() ==> rest@[i] == rows@[n - 1 - i],
            providers_of_rows(out@, rows@.take(out@.len() as int)),
        decreases rest@.len(),
    {
        let ghost k = out@.len() as int;
        let row = rest.pop().unwrap();
        assert(row == rows@[k]);
        match UpstreamOAuthProvider::try_from(row) {
            Ok(p) => {
                out.push(p);
                proof {
                    assert forall|i: int| 0 <= i < k + 1 implies (#[trigger] rows@.take(
                        k + 1,
                    )[i]).spec_provider() == Ok::<_, DatabaseInconsistencyError>(out@[i]@)
                        && out@[i].wf() by {
                        if i < k {
                            assert(rows@.take(k + 1)[i] == rows@.take(k)[i]);
                        }
                    }
                }
            },
            Err(e) => {
                proof {
                    assert forall|j: int| 0 <= j < k implies (
                    #[trigger] rows@[j]).spec_provider() is Ok by {
                        assert(rows@[j] == rows@.take(k)[j]);
                    }
                }
                return Err(DatabaseError::Inconsistency(e));
            },
        }
    }
    proof {
        assert(rows@.take(n) =~= rows@);
    }
    Ok(out)
}

/// Reads the provider that a lookup returned, if it returned one.
pub fn provider_from_row(row: Option<ProviderLookup>) -> (r: Result<
    Option<UpstreamOAuthProvider>,
    DatabaseError,
>)
    ensures
        match row {
            None => r == Ok::<Option<UpstreamOAuthProvider>, DatabaseError>(None),
            Some(value) => match r {
                Ok(found) => found matches Some(p) && p.wf() && value.spec_provider() == Ok::<
                    _,
                    DatabaseInconsistencyError,
                >(p@),
                Err(e) => value.spec_provider() is Err && e == DatabaseError::Inconsistency(
                    value.spec_provider()->Err_0,
                ),
            },
        },
{
    match row {
        None => Ok(None),
        Some(value) => match UpstreamOAuthProvider::try_from(value) {
            Ok(p) => Ok(Some(p)),
            Err(e) => Err(DatabaseError::Inconsistency(e)),
        },
    }
}

/// Makes the page of the rows that a listing query fetched, and reads the
/// providers on it.
pub fn page_from_rows(pagination: &Pagination, rows: Vec<ProviderLookup>) -> (r: Result<
    Page<UpstreamOAuthProvider>,
    DatabaseError,
>)
    ensures
        match r {
            Ok(page) => {
                &&& page.has_previous_page == pagination.spec_process(rows@).0
                &&& page.has_next_page == pagination.spec_process(rows@).1
                &&& providers_of_rows(page.edges@, pagination.spec_process(rows@).2)
            },
            Err(e) => first_inconsistency(pagination.spec_process(rows@).2, e),
        },
{
    let page = pagination.process(rows);
    match providers_from_rows(page.edges) {
        Ok(edges) => Ok(
            Page {
                has_previous_page: page.has_previous_page,
                has_next_page: page.has_next_page,
                edges,
            },
        ),
        Err(e) => Err(e),
    }
}

} // verus!

//! The federation flow: a login that is delegated to an upstream provider.
//!
//! The flow starts with a redirect to the provider and a session that
//! remembers what was sent. When the user comes back, the state is compared,
//! the code is exchanged at the provider's token endpoint, the ID token is
//! verified, the provider's claims are imported as local attributes, and the
//! upstream subject is linked to a local account. The exchange at the token
//! endpoint is not made here: this module says what to send and takes what
//! came back.

use vstd::prelude::*;
use crate::bytes::{append, ct_eq, to_vec};
use crate::jose::claims::{claim_str, name_sub, sub_name, Claims, Expectation};
use crate::jose::json::MemberView;
use crate::jose::jwk::JsonWebKeyView;
use crate::jose::jwt::{spec_verify, JoseEngine, JoseError};
use crate::jose::text::{hex_digit, hex_digit_of};
use crate::session::{Attribute, AttributeView, attributes_view};
use crate::upstream::provider::{
    rules_view, ClaimsImportRule, ClaimsImportRuleView, ImportMode, UpstreamOAuthProvider,
    UpstreamOAuthProviderView,
};

verus! {

/// The number of random bytes in a state, a nonce and a code verifier.
pub const SECRET_BYTES: usize = 32;

/// Why a step of the federation flow failed.
#[derive(Clone, Copy, Debug, PartialEq, Eq, Structural)]
pub enum FederationError {
    /// The pending login was started at another provider.
    ProviderMismatch,
    /// The state that came back is not the state that was sent.
    StateMismatch,
    /// The provider did not answer in time.
    UpstreamUnavailable,
    /// The provider answered with an error.
    UpstreamRefused,
    /// The ID token of the provider does not verify.
    InvalidIdToken(JoseError),
    /// A claim that a rule requires is not among the provider's claims.
    MissingRequiredClaim,
    /// The upstream subject is already linked for this provider.
    DuplicateLink,
    /// A freshly drawn identifier is already in use, or a stored reference
    /// leads nowhere.
    Conflict,
}

/// A pending delegated login.
#[derive(Debug, PartialEq, Eq)]
pub struct UpstreamOAuthAuthorizationSession {
    pub id: u128,
    pub provider_id: u128,
    pub state: Vec<u8>,
    pub nonce: Vec<u8>,
    pub code_challenge_verifier: Vec<u8>,
    pub created_at: u64,
}

/// A pending delegated login as a mathematical value.
pub struct UpstreamOAuthAuthorizationSessionView {
    pub id: u128,
    pub provider_id: u128,
    pub state: Seq<u8>,
    pub nonce: Seq<u8>,
    pub code_challenge_verifier: Seq<u8>,
    pub created_at: u64,
}

impl UpstreamOAuthAuthorizationSession {
    /// The value as a mathematical value, with its byte strings as sequences.
    pub open spec fn view(&self) -> UpstreamOAuthAuthorizationSessionView {
        UpstreamOAuthAuthorizationSessionView {
            id: self.id,
            provider_id: self.provider_id,
            state: self.state@,
            nonce: self.nonce@,
            code_challenge_verifier: self.code_challenge_verifier@,
            created_at: self.created_at,
        }
    }

    /// A copy of the session.
    pub fn clone(&self) -> (r: UpstreamOAuthAuthorizationSession)
        ensures
            r@ == self@,
    {
        UpstreamOAuthAuthorizationSession {
            id: self.id,
            provider_id: self.provider_id,
            state: to_vec(self.state.as_slice()),
            nonce: to_vec(self.nonce.as_slice()),
            code_challenge_verifier: to_vec(self.code_challenge_verifier.as_slice()),
            created_at: self.created_at,
        }
    }
}

/// The lasting association of an upstream subject with a local account.
#[derive(Debug, PartialEq, Eq)]
pub struct UpstreamOAuthLink {
    pub id: u128,
    pub provider_id: u128,
    /// The subject identifier that the provider gave.
    pub subject: Vec<u8>,
    pub account_id: u128,
    /// The local session of the linked account.
    pub session_id: u128,
    pub created_at: u64,
}

/// A link as a mathematical value.
pub struct UpstreamOAuthLinkView {
    pub id: u128,
    pub provider_id: u128,
    pub subject: Seq<u8>,
    pub account_id: u128,
    pub session_id: u128,
    pub created_at: u64,
}

impl UpstreamOAuthLink {
    /// The value as a mathematical value, with its byte strings as sequences.
    pub open spec fn view(&self) -> UpstreamOAuthLinkView {
        UpstreamOAuthLinkView {
            id: self.id,
            provider_id: self.provider_id,
            subject: self.subject@,
            account_id: self.account_id,
            session_id: self.session_id,
            created_at: self.created_at,
        }
    }

    /// A copy of the link.
    pub fn clone(&self) -> (r: UpstreamOAuthLink)
        ensures
            r@ == self@,
    {
        UpstreamOAuthLink {
            id: self.id,
            provider_id: self.provider_id,
            subject: to_vec(self.subject.as_slice()),
            account_id: self.account_id,
            session_id: self.session_id,
            created_at: self.created_at,
        }
    }
}

/// Whether `b` is written as itself in a query: a letter, a digit, `-`, `.`,
/// `_` or `~`.
pub open spec fn is_unreserved(b: u8) -> bool {
    (0x41 <= b && b <= 0x5A) || (0x61 <= b && b <= 0x7A) || (0x30 <= b && b <= 0x39) || b == 0x2D
        || b == 0x2E || b == 0x5F || b == 0x7E
}

/// How the byte `b` is written in a query: as itself where it is unreserved,
/// and as `%` and two upper-case hexadecimal digits otherwise.
pub open spec fn percent_byte(b: u8) -> Seq<u8> {
    if is_unreserved(b) {
        seq![b]
    } else {
        seq![0x25u8, hex_digit(b / 16), hex_digit(b % 16)]
    }
}

/// How the value `s` is written in a query.
pub open spec fn percent_encode(s: Seq<u8>) -> Seq<u8>
    decreases s.len(),
{
    if s.len() == 0 {
        Seq::<u8>::empty()
    } else {
        percent_byte(s[0]) + percent_encode(s.skip(1))
    }
}

/// Writes the value `s` to `out` as it is written in a query.
pub fn write_percent_encoded(out: &mut Vec<u8>, s: &[u8])
    ensures
        final(out)@ == old(out)@ + percent_encode(s@),
{
    let mut i: usize = 0;
    proof {
        assert(s@.skip(0) =~= s@);
    }
    while i < s.len()
        invariant
            i <= s.len(),
            out@ + percent_encode(s@.skip(i as int)) == old(out)@ + percent_encode(s@),
        decreases s.len() - i,
    {
        let b: u8 = s[i];
        let ghost before = out@;
        proof {
            assert(s@.skip(i as int)[0] == b);
            assert(s@.skip(i as int).skip(1) =~= s@.skip(i as int + 1));
        }
        if (0x41 <= b && b <= 0x5A) || (0x61 <= b && b <= 0x7A) || (0x30 <= b && b <= 0x39) || b
            == 0x2D || b == 0x2E || b == 0x5F || b == 0x7E {
            out.push(b);
        } else {
            out.push(0x25);
            out.push(hex_digit_of(b / 16));
            out.push(hex_digit_of(b % 16));
        }
        proof {
            assert(out@ =~= before + percent_byte(b));
            assert((before + percent_byte(b)) + percent_encode(s@.skip(i as int + 1)) =~= before
                + (percent_byte(b) + percent_encode(s@.skip(i as int + 1))));
        }
        i = i + 1;
    }
    proof {
        assert(out@ + Seq::<u8>::empty() =~= out@);
    }
}

/// The text `?response_type=code&client_id=`.
pub open spec fn query_start() -> Seq<u8> {
    seq![0x3Fu8, 0x72u8, 0x65u8, 0x73u8, 0x70u8, 0x6Fu8, 0x6Eu8, 0x73u8, 0x65u8, 0x5Fu8, 0x74u8, 0x79u8, 0x70u8, 0x65u8, 0x3Du8, 0x63u8, 0x6Fu8, 0x64u8, 0x65u8, 0x26u8, 0x63u8, 0x6Cu8, 0x69u8, 0x65u8, 0x6Eu8, 0x74u8, 0x5Fu8, 0x69u8, 0x64u8, 0x3Du8]
}

/// The text `&redirect_uri=`.
pub open spec fn query_redirect_uri() -> Seq<u8> {
    seq![0x26u8, 0x72u8, 0x65u8, 0x64u8, 0x69u8, 0x72u8, 0x65u8, 0x63u8, 0x74u8, 0x5Fu8, 0x75u8, 0x72u8, 0x69u8, 0x3Du8]
}

/// The text `&scope=`.
pub open spec fn query_scope() -> Seq<u8> {
    seq![0x26u8, 0x73u8, 0x63u8, 0x6Fu8, 0x70u8, 0x65u8, 0x3Du8]
}

/// The text `&state=`.
pub open spec fn query_state() -> Seq<u8> {
    seq![0x26u8, 0x73u8, 0x74u8, 0x61u8, 0x74u8, 0x65u8, 0x3Du8]
}

/// The text `&nonce=`.
pub open spec fn query_nonce() -> Seq<u8> {
    seq![0x26u8, 0x6Eu8, 0x6Fu8, 0x6Eu8, 0x63u8, 0x65u8, 0x3Du8]
}

/// The text `&code_challenge=`.
pub open spec fn query_challenge() -> Seq<u8> {
    seq![0x26u8, 0x63u8, 0x6Fu8, 0x64u8, 0x65u8, 0x5Fu8, 0x63u8, 0x68u8, 0x61u8, 0x6Cu8, 0x6Cu8, 0x65u8, 0x6Eu8, 0x67u8, 0x65u8, 0x3Du8]
}

/// The text `&code_challenge_method=S256`.
pub open spec fn query_method() -> Seq<u8> {
    seq![0x26u8, 0x63u8, 0x6Fu8, 0x64u8, 0x65u8, 0x5Fu8, 0x63u8, 0x68u8, 0x61u8, 0x6Cu8, 0x6Cu8, 0x65u8, 0x6Eu8, 0x67u8, 0x65u8, 0x5Fu8, 0x6Du8, 0x65u8, 0x74u8, 0x68u8, 0x6Fu8, 0x64u8, 0x3Du8, 0x53u8, 0x32u8, 0x35u8, 0x36u8]
}

/// The URL to which the user is sent: the provider's authorization endpoint
/// with the query of an authorization-code request with PKCE.
pub open spec fn spec_authorization_url(
    endpoint: Seq<u8>,
    client_id: Seq<u8>,
    redirect_uri: Seq<u8>,
    scope: Seq<u8>,
    state: Seq<u8>,
    nonce: Seq<u8>,
    challenge: Seq<u8>,
) -> Seq<u8> {
    endpoint + query_start() + percent_encode(client_id) + query_redirect_uri() + percent_encode(
        redirect_uri,
    ) + query_scope() + percent_encode(scope) + query_state() + percent_encode(state)
        + query_nonce() + percent_encode(nonce) + query_challenge() + percent_encode(challenge)
        + query_method()
}

/// The URL to which the user is sent.
pub fn authorization_url(
    endpoint: &[u8],
    client_id: &[u8],
    redirect_uri: &[u8],
    scope: &[u8],
    state: &[u8],
    nonce: &[u8],
    challenge: &[u8],
) -> (r: Vec<u8>)
    ensures
        r@ == spec_authorization_url(
            endpoint@,
            client_id@,
            redirect_uri@,
            scope@,
            state@,
            nonce@,
            challenge@,
        ),
{
    let mut out: Vec<u8> = Vec::new();
    append(&mut out, endpoint);
    assert(out@ =~= endpoint@);
    append(&mut out, &[0x3Fu8, 0x72u8, 0x65u8, 0x73u8, 0x70u8, 0x6Fu8, 0x6Eu8, 0x73u8, 0x65u8, 0x5Fu8, 0x74u8, 0x79u8, 0x70u8, 0x65u8, 0x3Du8, 0x63u8, 0x6Fu8, 0x64u8, 0x65u8, 0x26u8, 0x63u8, 0x6Cu8, 0x69u8, 0x65u8, 0x6Eu8, 0x74u8, 0x5Fu8, 0x69u8, 0x64u8, 0x3Du8]);
    write_percent_encoded(&mut out, client_id);
    append(&mut out, &[0x26u8, 0x72u8, 0x65u8, 0x64u8, 0x69u8, 0x72u8, 0x65u8, 0x63u8, 0x74u8, 0x5Fu8, 0x75u8, 0x72u8, 0x69u8, 0x3Du8]);
    write_percent_encoded(&mut out, redirect_uri);
    append(&mut out, &[0x26u8, 0x73u8, 0x63u8, 0x6Fu8, 0x70u8, 0x65u8, 0x3Du8]);
    write_percent_encoded(&mut out, scope);
    append(&mut out, &[0x26u8, 0x73u8, 0x74u8, 0x61u8, 0x74u8, 0x65u8, 0x3Du8]);
    write_percent_encoded(&mut out, state);
    append(&mut out, &[0x26u8, 0x6Eu8, 0x6Fu8, 0x6Eu8, 0x63u8, 0x65u8, 0x3Du8]);
    write_percent_encoded(&mut out, nonce);
    append(&mut out, &[0x26u8, 0x63u8, 0x6Fu8, 0x64u8, 0x65u8, 0x5Fu8, 0x63u8, 0x68u8, 0x61u8, 0x6Cu8, 0x6Cu8, 0x65u8, 0x6Eu8, 0x67u8, 0x65u8, 0x3Du8]);
    write_percent_encoded(&mut out, challenge);
    append(&mut out, &[0x26u8, 0x63u8, 0x6Fu8, 0x64u8, 0x65u8, 0x5Fu8, 0x63u8, 0x68u8, 0x61u8, 0x6Cu8, 0x6Cu8, 0x65u8, 0x6Eu8, 0x67u8, 0x65u8, 0x5Fu8, 0x6Du8, 0x65u8, 0x74u8, 0x68u8, 0x6Fu8, 0x64u8, 0x3Du8, 0x53u8, 0x32u8, 0x35u8, 0x36u8]);
    out
}

/// What is sent to the provider's token endpoint to redeem a code.
#[derive(Debug, PartialEq, Eq)]
pub struct UpstreamTokenRequest {
    pub code: Vec<u8>,
    pub client_id: Vec<u8>,
    pub code_verifier: Vec<u8>,
}

/// What came back from the provider's token endpoint.
#[derive(Debug, PartialEq, Eq)]
pub enum UpstreamResponse {
    /// The provider issued tokens.
    Tokens { id_token: Vec<u8> },
    /// The provider answered with an error.
    Refused,
    /// The provider did not answer in time.
    Unavailable,
}

/// How one attempt at the provider's token endpoint ended.
#[derive(Clone, Copy, Debug, PartialEq, Eq, Structural)]
pub enum AttemptOutcome {
    /// The provider answered with tokens.
    Answered,
    /// The provider answered with this HTTP status and no tokens.
    Status(u16),
    /// The provider did not answer in time.
    TimedOut,
}

/// What to do after an attempt at the provider's token endpoint.
#[derive(Clone, Copy, Debug, PartialEq, Eq, Structural)]
pub enum NextStep {
    /// The provider answered: go on with its answer.
    Proceed,
    /// Try again after this many milliseconds.
    Retry { delay_ms: u64 },
    /// Give up: the provider has not answered in time, however often it was
    /// asked.
    Unavailable,
    /// Give up: the provider has refused.
    Refused,
}

/// Whether an outcome may be a passing fault: a timeout, or a status 5xx.
pub open spec fn is_transient(outcome: AttemptOutcome) -> bool {
    match outcome {
        AttemptOutcome::TimedOut => true,
        AttemptOutcome::Status(status) => 500 <= status && status <= 599,
        AttemptOutcome::Answered => false,
    }
}

/// How long to wait after the attempt `attempt`, counted from 0: 100 ms,
/// doubled with every attempt, up to 6400 ms.
pub open spec fn spec_backoff_ms(attempt: u32) -> u64 {
    if attempt == 0 {
        100
    } else if attempt == 1 {
        200
    } else if attempt == 2 {
        400
    } else if attempt == 3 {
        800
    } else if attempt == 4 {
        1600
    } else if attempt == 5 {
        3200
    } else {
        6400
    }
}

/// What to do after the attempt `attempt`, counted from 0, of at most
/// `max_attempts` has ended with `outcome`: a timeout and a status 5xx are
/// tried again, after a growing delay, while attempts are left; any other
/// status is final at once.
pub open spec fn spec_next_step(attempt: u32, max_attempts: u32, outcome: AttemptOutcome) -> NextStep {
    match outcome {
        AttemptOutcome::Answered => NextStep::Proceed,
        _ => if is_transient(outcome) && attempt + 1 < max_attempts {
            NextStep::Retry { delay_ms: spec_backoff_ms(attempt) }
        } else if outcome == AttemptOutcome::TimedOut {
            NextStep::Unavailable
        } else {
            NextStep::Refused
        },
    }
}

/// What to do after an attempt at the provider's token endpoint.
pub fn next_step(attempt: u32, max_attempts: u32, outcome: AttemptOutcome) -> (r: NextStep)
    ensures
        r == spec_next_step(attempt, max_attempts, outcome),
{
    let transient = match outcome {
        AttemptOutcome::Answered => {
            return NextStep::Proceed;
        },
        AttemptOutcome::TimedOut => true,
        AttemptOutcome::Status(status) => 500 <= status && status <= 599,
    };
    if transient && attempt < u32::MAX && attempt + 1 < max_attempts {
        let delay_ms: u64 = if attempt == 0 {
            100
        } else if attempt == 1 {
            200
        } else if attempt == 2 {
            400
        } else if attempt == 3 {
            800
        } else if attempt == 4 {
            1600
        } else if attempt == 5 {
            3200
        } else {
            6400
        };
        NextStep::Retry { delay_ms }
    } else {
        match outcome {
            AttemptOutcome::TimedOut => NextStep::Unavailable,
            _ => NextStep::Refused,
        }
    }
}

/// An identity as the provider's claims give it: the upstream subject, and
/// the local attributes that the import rules made of the claims.
#[derive(Debug, PartialEq, Eq)]
pub struct ImportedIdentity {
    pub subject: Vec<u8>,
    pub attributes: Vec<Attribute>,
}

/// The attributes that the rules `rules` make of the claims `claims`: each
/// rule, in order, writes the claim it names to its attribute. A claim that
/// is missing, or is not a string, ends the import where the rule requires
/// it, and is passed over where the rule does not. A rule that ignores its
/// claim writes nothing.
pub open spec fn spec_import(rules: Seq<ClaimsImportRuleView>, claims: Seq<MemberView>) -> Option<
    Seq<AttributeView>,
>
    decreases rules.len(),
{
    if rules.len() == 0 {
        Some(Seq::<AttributeView>::empty())
    } else {
        match spec_import(rules.drop_last(), claims) {
            None => None,
            Some(before) => {
                let rule = rules.last();
                match rule.mode {
                    ImportMode::Ignored => Some(before),
                    _ => match claim_str(claims, rule.source_claim) {
                        Some(value) => Some(
                            before.push(AttributeView { name: rule.attribute, value }),
                        ),
                        None => if rule.mode == ImportMode::Required {
                            None
                        } else {
                            Some(before)
                        },
                    },
                }
            },
        }
    }
}

/// Imports the provider's claims as local attributes.
pub fn import_claims(rules: &Vec<ClaimsImportRule>, claims: &Claims) -> (r: Result<
    Vec<Attribute>,
    FederationError,
>)
    ensures
        match r {
            Ok(a) => spec_import(rules_view(rules@), claims@) == Some(attributes_view(a@)),
            Err(e) => e == FederationError::MissingRequiredClaim && spec_import(
                rules_view(rules@),
                claims@,
            ) is None,
        },
{
    let mut out: Vec<Attribute> = Vec::new();
    let mut i: usize = 0;
    let ghost rv = rules_view(rules@);
    proof {
        assert(rv.take(0) =~= Seq::<ClaimsImportRuleView>::empty());
        assert(attributes_view(out@) =~= Seq::<AttributeView>::empty());
    }
    while i < rules.len()
        invariant
            i <= rules.len(),
            rv == rules_view(rules@),
            spec_import(rv.take(i as int), claims@) == Some(attributes_view(out@)),
        decreases rules.len() - i,
    {
        let rule = &rules[i];
        proof {
            assert(rv.take(i as int + 1).drop_last() =~= rv.take(i as int));
            assert(rv.take(i as int + 1).last() == rule@);
        }
        match rule.mode {
            ImportMode::Ignored => {},
            _ => match claims.get_str(rule.source_claim.as_slice()) {
                Some(value) => {
                    let ghost before = attributes_view(out@);
                    let a = Attribute {
                        name: to_vec(rule.attribute.as_slice()),
                        value: to_vec(value.as_slice()),
                    };
                    let ghost av = a@;
                    out.push(a);
                    proof {
                        assert(attributes_view(out@) =~= before.push(av));
                    }
                },
                None => {
                    if rule.mode == ImportMode::Required {
                        proof {
                            lemma_import_fails_on(rv, claims@, i as int + 1);
                        }
                        return Err(FederationError::MissingRequiredClaim);
                    }
                },
            },
        }
        i = i + 1;
    }
    proof {
        assert(rv.take(rules.len() as int) =~= rv);
    }
    Ok(out)
}

/// An import that fails on the first rules fails on all of them.
pub proof fn lemma_import_fails_on(rules: Seq<ClaimsImportRuleView>, claims: Seq<MemberView>, k: int)
    requires
        0 <= k <= rules.len(),
        spec_import(rules.take(k), claims) is None,
    ensures
        spec_import(rules, claims) is None,
    decreases rules.len() - k,
{
    if k == rules.len() {
        assert(rules.take(k) =~= rules);
    } else {
        assert(rules.take(k + 1).drop_last() =~= rules.take(k));
        lemma_import_fails_on(rules, claims, k + 1);
    }
}

/// Whether the state that came back is the state that was sent.
pub open spec fn state_matches(session: UpstreamOAuthAuthorizationSessionView, returned: Seq<u8>) -> bool {
    session.state == returned
}

/// What the callback of a delegated login gives, once the provider's token
/// endpoint has answered: the pending login must be one of the provider;
/// the state must be the one sent; the provider must
/// have issued tokens; the ID token must verify under the provider's keys,
/// for the provider as issuer, this server's client identifier as audience,
/// the nonce that was sent, and the algorithm that the provider is expected
/// to sign with, if any; the claims must name a subject; and the
/// import of the claims must succeed. The checks are made in this order.
pub open spec fn spec_complete(
    session: UpstreamOAuthAuthorizationSessionView,
    provider: UpstreamOAuthProviderView,
    keys: Seq<JsonWebKeyView>,
    returned_state: Seq<u8>,
    response: UpstreamResponse,
    now: u64,
) -> Result<(Seq<u8>, Seq<AttributeView>), FederationError> {
    if session.provider_id != provider.id {
        Err(FederationError::ProviderMismatch)
    } else if !state_matches(session, returned_state) {
        Err(FederationError::StateMismatch)
    } else {
        match response {
            UpstreamResponse::Unavailable => Err(FederationError::UpstreamUnavailable),
            UpstreamResponse::Refused => Err(FederationError::UpstreamRefused),
            UpstreamResponse::Tokens { id_token } => match spec_verify(
                keys,
                id_token@,
                Expectation {
                    issuer: provider.issuer,
                    audience: provider.client_id,
                    now,
                    nonce: Some(session.nonce),
                    algorithm: provider.token_endpoint_signing_alg,
                },
            ) {
                Err(e) => Err(FederationError::InvalidIdToken(e)),
                Ok(claims) => match claim_str(claims, name_sub()) {
                    None => Err(FederationError::InvalidIdToken(JoseError::MalformedToken)),
                    Some(subject) => match spec_import(provider.claims_imports, claims) {
                        None => Err(FederationError::MissingRequiredClaim),
                        Some(attributes) => Ok((subject, attributes)),
                    },
                },
            },
        }
    }
}

/// What to send to the provider's token endpoint for the code that came back
/// with `returned_state`: nothing where the pending login is not one of the
/// provider, or where the state is not the one that was sent.
pub fn token_request(
    session: &UpstreamOAuthAuthorizationSession,
    provider: &UpstreamOAuthProvider,
    returned_state: &[u8],
    code: &[u8],
) -> (r: Result<UpstreamTokenRequest, FederationError>)
    ensures
        match r {
            Ok(request) => {
                &&& session.provider_id == provider.id
                &&& state_matches(session@, returned_state@)
                &&& request.code@ == code@
                &&& request.client_id@ == provider.client_id@
                &&& request.code_verifier@ == session.code_challenge_verifier@
            },
            Err(e) => if session.provider_id != provider.id {
                e == FederationError::ProviderMismatch
            } else {
                e == FederationError::StateMismatch && !state_matches(session@, returned_state@)
            },
        },
{
    if session.provider_id != provider.id {
        return Err(FederationError::ProviderMismatch);
    }
    if !ct_eq(session.state.as_slice(), returned_state) {
        return Err(FederationError::StateMismatch);
    }
    Ok(
        UpstreamTokenRequest {
            code: to_vec(code),
            client_id: to_vec(provider.client_id.as_slice()),
            code_verifier: to_vec(session.code_challenge_verifier.as_slice()),
        },
    )
}

/// Handles the callback of a delegated login, once the provider's token
/// endpoint has answered with `response`. `keys` are the provider's keys.
pub fn complete(
    session: &UpstreamOAuthAuthorizationSession,
    provider: &UpstreamOAuthProvider,
    keys: &JoseEngine,
    returned_state: &[u8],
    response: &UpstreamResponse,
    now: u64,
) -> (r: Result<ImportedIdentity, FederationError>)
    requires
        keys.wf(),
    ensures
        match r {
            Ok(identity) => spec_complete(
                session@,
                provider@,
                keys@,
                returned_state@,
                *response,
                now,
            ) == Ok::<_, FederationError>((identity.subject@, attributes_view(identity.attributes@))),
            Err(e) => spec_complete(session@, provider@, keys@, returned_state@, *response, now)
                == Err::<(Seq<u8>, Seq<AttributeView>), _>(e),
        },
{
    if session.provider_id != provider.id {
        return Err(FederationError::ProviderMismatch);
    }
    if !ct_eq(session.state.as_slice(), returned_state) {
        return Err(FederationError::StateMismatch);
    }
    let id_token = match response {
        UpstreamResponse::Unavailable => {
            return Err(FederationError::UpstreamUnavailable);
        },
        UpstreamResponse::Refused => {
            return Err(FederationError::UpstreamRefused);
        },
        UpstreamResponse::Tokens { id_token } => id_token,
    };
    let claims = match keys.verify(
        id_token.as_slice(),
        provider.issuer.as_slice(),
        provider.client_id.as_slice(),
        now,
        Some(session.nonce.as_slice()),
        provider.token_endpoint_signing_alg,
    ) {
        Ok(c) => c,
        Err(e) => {
            return Err(FederationError::InvalidIdToken(e));
        },
    };
    let subject = match claims.get_str(sub_name().as_slice()) {
        Some(s) => to_vec(s.as_slice()),
        None => {
            return Err(FederationError::InvalidIdToken(JoseError::MalformedToken));
        },
    };
    match import_claims(&provider.claims_imports, &claims) {
        Ok(attributes) => Ok(ImportedIdentity { subject, attributes }),
        Err(e) => Err(e),
    }
}

} // verus!

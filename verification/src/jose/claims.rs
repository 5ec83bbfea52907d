//! Claim sets: the members of a token's payload, by name, and the checks
//! made on the registered claims.

use vstd::prelude::*;
use crate::bytes::{bytes_eq, list_contains, opt_bytes_view, to_vec};
use crate::iana::JsonWebSignatureAlg;
use crate::jose::json::{clone_members, members_view, JsonValue, JsonValueView, Member, MemberView};

verus! {

/// The member name `iss`.
pub open spec fn name_iss() -> Seq<u8> {
    seq![0x69u8, 0x73u8, 0x73u8]
}

/// The member name `iss`.
pub fn iss_name() -> (r: Vec<u8>)
    ensures
        r@ == name_iss(),
{
    vec![0x69u8, 0x73u8, 0x73u8]
}

/// The member name `sub`.
pub open spec fn name_sub() -> Seq<u8> {
    seq![0x73u8, 0x75u8, 0x62u8]
}

/// The member name `sub`.
pub fn sub_name() -> (r: Vec<u8>)
    ensures
        r@ == name_sub(),
{
    vec![0x73u8, 0x75u8, 0x62u8]
}

/// The member name `aud`.
pub open spec fn name_aud() -> Seq<u8> {
    seq![0x61u8, 0x75u8, 0x64u8]
}

/// The member name `aud`.
pub fn aud_name() -> (r: Vec<u8>)
    ensures
        r@ == name_aud(),
{
    vec![0x61u8, 0x75u8, 0x64u8]
}

/// The member name `exp`.
pub open spec fn name_exp() -> Seq<u8> {
    seq![0x65u8, 0x78u8, 0x70u8]
}

/// The member name `exp`.
pub fn exp_name() -> (r: Vec<u8>)
    ensures
        r@ == name_exp(),
{
    vec![0x65u8, 0x78u8, 0x70u8]
}

/// The member name `nbf`.
pub open spec fn name_nbf() -> Seq<u8> {
    seq![0x6Eu8, 0x62u8, 0x66u8]
}

/// The member name `nbf`.
pub fn nbf_name() -> (r: Vec<u8>)
    ensures
        r@ == name_nbf(),
{
    vec![0x6Eu8, 0x62u8, 0x66u8]
}

/// The member name `iat`.
pub open spec fn name_iat() -> Seq<u8> {
    seq![0x69u8, 0x61u8, 0x74u8]
}

/// The member name `iat`.
pub fn iat_name() -> (r: Vec<u8>)
    ensures
        r@ == name_iat(),
{
    vec![0x69u8, 0x61u8, 0x74u8]
}

/// The member name `nonce`.
pub open spec fn name_nonce() -> Seq<u8> {
    seq![0x6Eu8, 0x6Fu8, 0x6Eu8, 0x63u8, 0x65u8]
}

/// The member name `nonce`.
pub fn nonce_name() -> (r: Vec<u8>)
    ensures
        r@ == name_nonce(),
{
    vec![0x6Eu8, 0x6Fu8, 0x6Eu8, 0x63u8, 0x65u8]
}

/// The member name `auth_time`.
pub open spec fn name_auth_time() -> Seq<u8> {
    seq![0x61u8, 0x75u8, 0x74u8, 0x68u8, 0x5Fu8, 0x74u8, 0x69u8, 0x6Du8, 0x65u8]
}

/// The member name `auth_time`.
pub fn auth_time_name() -> (r: Vec<u8>)
    ensures
        r@ == name_auth_time(),
{
    vec![0x61u8, 0x75u8, 0x74u8, 0x68u8, 0x5Fu8, 0x74u8, 0x69u8, 0x6Du8, 0x65u8]
}

/// The member name `acr`.
pub open spec fn name_acr() -> Seq<u8> {
    seq![0x61u8, 0x63u8, 0x72u8]
}

/// The member name `acr`.
pub fn acr_name() -> (r: Vec<u8>)
    ensures
        r@ == name_acr(),
{
    vec![0x61u8, 0x63u8, 0x72u8]
}

/// The member name `alg`.
pub open spec fn name_alg() -> Seq<u8> {
    seq![0x61u8, 0x6Cu8, 0x67u8]
}

/// The member name `alg`.
pub fn alg_name() -> (r: Vec<u8>)
    ensures
        r@ == name_alg(),
{
    vec![0x61u8, 0x6Cu8, 0x67u8]
}

/// The member name `kid`.
pub open spec fn name_kid() -> Seq<u8> {
    seq![0x6Bu8, 0x69u8, 0x64u8]
}

/// The member name `kid`.
pub fn kid_name() -> (r: Vec<u8>)
    ensures
        r@ == name_kid(),
{
    vec![0x6Bu8, 0x69u8, 0x64u8]
}

/// The member name `typ`.
pub open spec fn name_typ() -> Seq<u8> {
    seq![0x74u8, 0x79u8, 0x70u8]
}

/// The member name `typ`.
pub fn typ_name() -> (r: Vec<u8>)
    ensures
        r@ == name_typ(),
{
    vec![0x74u8, 0x79u8, 0x70u8]
}

/// The value of the first member named `name`, if there is one.
pub open spec fn claim(ms: Seq<MemberView>, name: Seq<u8>) -> Option<JsonValueView>
    decreases ms.len(),
{
    if ms.len() == 0 {
        None
    } else if ms[0].name == name {
        Some(ms[0].value)
    } else {
        claim(ms.skip(1), name)
    }
}

/// The string that the claim `name` holds, if it is there and is a string.
pub open spec fn claim_str(ms: Seq<MemberView>, name: Seq<u8>) -> Option<Seq<u8>> {
    match claim(ms, name) {
        Some(JsonValueView::Str(x)) => Some(x),
        _ => None,
    }
}

/// The number that the claim `name` holds, if it is there and is a number.
pub open spec fn claim_num(ms: Seq<MemberView>, name: Seq<u8>) -> Option<u64> {
    match claim(ms, name) {
        Some(JsonValueView::Num(n)) => Some(n),
        _ => None,
    }
}

/// The audiences that the claim `aud` names: one where it is a string, all
/// of the list where it is a list, none otherwise.
pub open spec fn audiences(ms: Seq<MemberView>) -> Seq<Seq<u8>> {
    match claim(ms, name_aud()) {
        Some(JsonValueView::Str(x)) => seq![x],
        Some(JsonValueView::List(l)) => l,
        _ => Seq::<Seq<u8>>::empty(),
    }
}

/// Why a claim set was refused.
#[derive(Clone, Copy, Debug, PartialEq, Eq, Structural)]
pub enum ClaimsError {
    /// The issuer is missing or is not the expected one.
    IssuerMismatch,
    /// The expected audience is not among the audiences.
    AudienceMismatch,
    /// The expiry is missing, or a time is not a number.
    Malformed,
    /// The expiry is not in the future.
    Expired,
    /// The time before which the claims do not hold is in the future.
    NotYetValid,
    /// The nonce is missing or is not the expected one.
    NonceMismatch,
}

/// What is expected of a claim set.
pub struct Expectation {
    pub issuer: Seq<u8>,
    pub audience: Seq<u8>,
    pub now: u64,
    /// The nonce that the claims must echo, where one was sent.
    pub nonce: Option<Seq<u8>>,
    /// The algorithm that the token must be signed with, where one is
    /// expected. The claims do not show it; the token's key does.
    pub algorithm: Option<JsonWebSignatureAlg>,
}

/// The result of checking the claims `ms`. The checks are made in this
/// order, and the first that fails gives the error: the issuer is the
/// expected one; the expected audience is among the audiences; the expiry is
/// a number and in the future; the not-before time, where there is one, is a
/// number and not in the future; and the nonce, where one is expected, is the
/// expected one.
pub open spec fn spec_validate(ms: Seq<MemberView>, e: Expectation) -> Result<(), ClaimsError> {
    if claim_str(ms, name_iss()) != Some(e.issuer) {
        Err(ClaimsError::IssuerMismatch)
    } else if !audiences(ms).contains(e.audience) {
        Err(ClaimsError::AudienceMismatch)
    } else if claim_num(ms, name_exp()) is None {
        Err(ClaimsError::Malformed)
    } else if claim_num(ms, name_exp())->Some_0 <= e.now {
        Err(ClaimsError::Expired)
    } else if claim(ms, name_nbf()) is Some && claim_num(ms, name_nbf()) is None {
        Err(ClaimsError::Malformed)
    } else if claim_num(ms, name_nbf()) matches Some(t) && t > e.now {
        Err(ClaimsError::NotYetValid)
    } else if e.nonce is Some && claim_str(ms, name_nonce()) != e.nonce {
        Err(ClaimsError::NonceMismatch)
    } else {
        Ok(())
    }
}

/// A claim set: the members of a token's payload, in their order.
#[derive(Debug, PartialEq, Eq)]
pub struct Claims {
    pub members: Vec<Member>,
}

impl Claims {
    /// The value as a mathematical value, with its byte strings as sequences.
    pub open spec fn view(&self) -> Seq<MemberView> {
        members_view(self.members@)
    }

    /// The empty claim set.
    pub fn new() -> (r: Claims)
        ensures
            r@ == Seq::<MemberView>::empty(),
    {
        let r = Claims { members: Vec::new() };
        assert(r@ =~= Seq::<MemberView>::empty());
        r
    }

    /// Adds the member `name` with the value `value` at the end.
    pub fn push(&mut self, name: Vec<u8>, value: JsonValue)
        ensures
            final(self)@ == old(self)@.push(MemberView { name: name@, value: value@ }),
    {
        let ghost before = self@;
        self.members.push(Member { name, value });
        proof {
            assert(self@ =~= before.push(MemberView { name: name@, value: value@ }));
        }
    }

    /// The value of the first member named `name`.
    pub fn get(&self, name: &[u8]) -> (r: Option<&JsonValue>)
        ensures
            match r {
                Some(v) => claim(self@, name@) == Some(v@),
                None => claim(self@, name@) is None,
            },
    {
        let mut i: usize = 0;
        proof {
            assert(self@.skip(0) =~= self@);
        }
        while i < self.members.len()
            invariant
                i <= self.members@.len(),
                claim(self@, name@) == claim(self@.skip(i as int), name@),
            decreases self.members@.len() - i,
        {
            proof {
                assert(self@.skip(i as int)[0] == self.members@[i as int]@);
                assert(self@.skip(i as int).skip(1) =~= self@.skip(i as int + 1));
            }
            if bytes_eq(self.members[i].name.as_slice(), name) {
                return Some(&self.members[i].value);
            }
            i = i + 1;
        }
        None
    }

    /// The string that the claim `name` holds.
    pub fn get_str(&self, name: &[u8]) -> (r: Option<&Vec<u8>>)
        ensures
            match r {
                Some(x) => claim_str(self@, name@) == Some(x@),
                None => claim_str(self@, name@) is None,
            },
    {
        match self.get(name) {
            Some(JsonValue::Str(x)) => Some(x),
            _ => None,
        }
    }

    /// The number that the claim `name` holds.
    pub fn get_num(&self, name: &[u8]) -> (r: Option<u64>)
        ensures
            r == claim_num(self@, name@),
    {
        match self.get(name) {
            Some(JsonValue::Num(n)) => Some(*n),
            _ => None,
        }
    }

    /// Whether `audience` is among the audiences of the claims.
    pub fn has_audience(&self, audience: &[u8]) -> (r: bool)
        ensures
            r == audiences(self@).contains(audience@),
    {
        match self.get(aud_name().as_slice()) {
            Some(JsonValue::Str(x)) => {
                let r = bytes_eq(x.as_slice(), audience);
                proof {
                    let l = seq![x@];
                    if r {
                        assert(l[0] == audience@);
                    }
                }
                r
            },
            Some(JsonValue::List(l)) => list_contains(l, audience),
            _ => false,
        }
    }

    /// Checks the registered claims against what is expected of them.
    pub fn validate(
        &self,
        expected_issuer: &[u8],
        expected_audience: &[u8],
        now: u64,
        expected_nonce: Option<&[u8]>,
    ) -> (r: Result<(), ClaimsError>)
        ensures
            r == spec_validate(
                self@,
                Expectation {
                    issuer: expected_issuer@,
                    audience: expected_audience@,
                    now,
                    nonce: crate::bytes::opt_slice_view(expected_nonce),
                    algorithm: None,
                },
            ),
    {
        let issuer_ok = match self.get_str(iss_name().as_slice()) {
            Some(x) => bytes_eq(x.as_slice(), expected_issuer),
            None => false,
        };
        if !issuer_ok {
            return Err(ClaimsError::IssuerMismatch);
        }
        if !self.has_audience(expected_audience) {
            return Err(ClaimsError::AudienceMismatch);
        }
        match self.get_num(exp_name().as_slice()) {
            None => {
                return Err(ClaimsError::Malformed);
            },
            Some(exp) => {
                if exp <= now {
                    return Err(ClaimsError::Expired);
                }
            },
        }
        let nbf = nbf_name();
        match self.get(nbf.as_slice()) {
            None => {},
            Some(JsonValue::Num(t)) => {
                if *t > now {
                    return Err(ClaimsError::NotYetValid);
                }
            },
            Some(_) => {
                return Err(ClaimsError::Malformed);
            },
        }
        match expected_nonce {
            None => Ok(()),
            Some(n) => {
                let nonce_ok = match self.get_str(nonce_name().as_slice()) {
                    Some(x) => bytes_eq(x.as_slice(), n),
                    None => false,
                };
                if nonce_ok {
                    Ok(())
                } else {
                    Err(ClaimsError::NonceMismatch)
                }
            },
        }
    }

    /// A copy of the claims.
    pub fn clone(&self) -> (r: Claims)
        ensures
            r@ == self@,
    {
        Claims { members: clone_members(&self.members) }
    }
}

/// The claims of an ID token.
#[derive(Debug, PartialEq, Eq)]
pub struct IdTokenClaims {
    pub issuer: Vec<u8>,
    pub subject: Vec<u8>,
    pub audience: Vec<u8>,
    pub issued_at: u64,
    pub expires_at: u64,
    /// The nonce of the authorization request.
    pub nonce: Option<Vec<u8>>,
    /// When the user authenticated.
    pub auth_time: u64,
    /// The authentication context class reference.
    pub acr: Option<Vec<u8>>,
}

/// ID token claims as a mathematical value.
pub struct IdTokenClaimsView {
    pub issuer: Seq<u8>,
    pub subject: Seq<u8>,
    pub audience: Seq<u8>,
    pub issued_at: u64,
    pub expires_at: u64,
    pub nonce: Option<Seq<u8>>,
    pub auth_time: u64,
    pub acr: Option<Seq<u8>>,
}

/// A member that holds a string.
pub open spec fn str_member(name: Seq<u8>, x: Seq<u8>) -> MemberView {
    MemberView { name, value: JsonValueView::Str(x) }
}

/// A member that holds a number.
pub open spec fn num_member(name: Seq<u8>, n: u64) -> MemberView {
    MemberView { name, value: JsonValueView::Num(n) }
}

/// The member `name` with the string `x`, or nothing where there is no
/// string.
pub open spec fn opt_member(name: Seq<u8>, x: Option<Seq<u8>>) -> Seq<MemberView> {
    match x {
        Some(v) => seq![str_member(name, v)],
        None => Seq::<MemberView>::empty(),
    }
}

impl IdTokenClaimsView {
    /// The members of the claim set, in the order in which they are
    /// written: `iss`, `sub`, `aud`, `iat`, `exp`, `auth_time`, then `nonce`
    /// and `acr` where they are there.
    pub open spec fn members(self) -> Seq<MemberView> {
        seq![
            str_member(name_iss(), self.issuer),
            str_member(name_sub(), self.subject),
            str_member(name_aud(), self.audience),
            num_member(name_iat(), self.issued_at),
            num_member(name_exp(), self.expires_at),
            num_member(name_auth_time(), self.auth_time),
        ] + opt_member(name_nonce(), self.nonce) + opt_member(name_acr(), self.acr)
    }
}

impl IdTokenClaims {
    /// The value as a mathematical value, with its byte strings as sequences.
    pub open spec fn view(&self) -> IdTokenClaimsView {
        IdTokenClaimsView {
            issuer: self.issuer@,
            subject: self.subject@,
            audience: self.audience@,
            issued_at: self.issued_at,
            expires_at: self.expires_at,
            nonce: opt_bytes_view(self.nonce),
            auth_time: self.auth_time,
            acr: opt_bytes_view(self.acr),
        }
    }

    /// The claim set of these claims.
    pub fn to_claims(&self) -> (r: Claims)
        ensures
            r@ == self@.members(),
    {
        let mut c = Claims::new();
        c.push(iss_name(), JsonValue::Str(to_vec(self.issuer.as_slice())));
        c.push(sub_name(), JsonValue::Str(to_vec(self.subject.as_slice())));
        c.push(aud_name(), JsonValue::Str(to_vec(self.audience.as_slice())));
        c.push(iat_name(), JsonValue::Num(self.issued_at));
        c.push(exp_name(), JsonValue::Num(self.expires_at));
        c.push(auth_time_name(), JsonValue::Num(self.auth_time));
        match &self.nonce {
            Some(n) => c.push(nonce_name(), JsonValue::Str(to_vec(n.as_slice()))),
            None => {},
        }
        match &self.acr {
            Some(a) => c.push(acr_name(), JsonValue::Str(to_vec(a.as_slice()))),
            None => {},
        }
        proof {
            assert(c@ =~= self@.members());
        }
        c
    }
}

/// The claim set of an ID token holds what the ID token claims hold: each
/// registered claim is found under its name with its value.
pub proof fn lemma_id_token_claims(c: IdTokenClaimsView)
    ensures
        claim_str(c.members(), name_iss()) == Some(c.issuer),
        claim_str(c.members(), name_sub()) == Some(c.subject),
        audiences(c.members()) == seq![c.audience],
        claim_num(c.members(), name_iat()) == Some(c.issued_at),
        claim_num(c.members(), name_exp()) == Some(c.expires_at),
        claim_num(c.members(), name_auth_time()) == Some(c.auth_time),
        claim(c.members(), name_nbf()) is None,
        claim_str(c.members(), name_nonce()) == c.nonce,
        claim_str(c.members(), name_acr()) == c.acr,
{
    let ms = c.members();
    reveal_with_fuel(claim, 10);
    lemma_names_differ();
    assert(ms.len() >= 6);
    assert(ms.skip(1).skip(1) =~= ms.skip(2));
    assert(ms.skip(2).skip(1) =~= ms.skip(3));
    assert(ms.skip(3).skip(1) =~= ms.skip(4));
    assert(ms.skip(4).skip(1) =~= ms.skip(5));
    assert(ms.skip(5).skip(1) =~= ms.skip(6));
    assert(ms.skip(6) =~= opt_member(name_nonce(), c.nonce) + opt_member(name_acr(), c.acr));
    assert(ms.skip(1)[0] == ms[1] && ms.skip(2)[0] == ms[2] && ms.skip(3)[0] == ms[3] && ms.skip(
        4,
    )[0] == ms[4] && ms.skip(5)[0] == ms[5]);
    let rest = ms.skip(6);
    if rest.len() > 0 {
        assert(rest.skip(1).len() == rest.len() - 1);
        if rest.len() > 1 {
            assert(rest.skip(1)[0] == rest[1]);
            assert(rest.skip(1).skip(1).len() == 0);
        }
    }
}

/// The names of the registered claims differ from one another.
pub proof fn lemma_names_differ()
    ensures
        name_iss() != name_sub(),
        name_iss() != name_aud(),
        name_iss() != name_iat(),
        name_iss() != name_exp(),
        name_iss() != name_auth_time(),
        name_iss() != name_nbf(),
        name_iss() != name_nonce(),
        name_iss() != name_acr(),
        name_sub() != name_aud(),
        name_sub() != name_iat(),
        name_sub() != name_exp(),
        name_sub() != name_auth_time(),
        name_sub() != name_nbf(),
        name_sub() != name_nonce(),
        name_sub() != name_acr(),
        name_aud() != name_iat(),
        name_aud() != name_exp(),
        name_aud() != name_auth_time(),
        name_aud() != name_nbf(),
        name_aud() != name_nonce(),
        name_aud() != name_acr(),
        name_iat() != name_exp(),
        name_iat() != name_auth_time(),
        name_iat() != name_nbf(),
        name_iat() != name_nonce(),
        name_iat() != name_acr(),
        name_exp() != name_auth_time(),
        name_exp() != name_nbf(),
        name_exp() != name_nonce(),
        name_exp() != name_acr(),
        name_auth_time() != name_nbf(),
        name_auth_time() != name_nonce(),
        name_auth_time() != name_acr(),
        name_nbf() != name_nonce(),
        name_nbf() != name_acr(),
        name_nonce() != name_acr(),
        name_alg() != name_kid(),
        name_alg() != name_typ(),
        name_kid() != name_typ(),
{
    assert(name_iss()[0] == 0x69 && name_iss()[1] == 0x73 && name_iss().len() == 3);
    assert(name_sub()[0] == 0x73 && name_sub().len() == 3);
    assert(name_aud()[0] == 0x61 && name_aud()[1] == 0x75 && name_aud().len() == 3);
    assert(name_iat()[0] == 0x69 && name_iat()[1] == 0x61 && name_iat().len() == 3);
    assert(name_exp()[0] == 0x65 && name_exp().len() == 3);
    assert(name_nbf()[0] == 0x6E && name_nbf().len() == 3);
    assert(name_acr()[0] == 0x61 && name_acr()[1] == 0x63 && name_acr().len() == 3);
    assert(name_nonce().len() == 5);
    assert(name_auth_time().len() == 9);
    assert(name_alg()[0] == 0x61 && name_alg().len() == 3);
    assert(name_kid()[0] == 0x6B && name_kid().len() == 3);
    assert(name_typ()[0] == 0x74 && name_typ().len() == 3);
}

} // verus!

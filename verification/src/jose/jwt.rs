//! Signed tokens in compact form: the header, the payload and the signature,
//! each as unpadded base64url text, joined by dots.

use vstd::prelude::*;
use crate::base64url;
use crate::bytes::{append, bytes_eq, ct_eq, to_vec};
use crate::iana::JsonWebSignatureAlg;
use crate::jose::claims::{
    alg_name, audiences, claim, claim_num, claim_str, kid_name, lemma_names_differ, name_alg,
    name_exp, name_iss, name_kid, name_typ, spec_validate, str_member, typ_name, Claims,
    ClaimsError, Expectation,
};
use crate::jose::json::{
    enc_object, lemma_read_object, p_object, parse_object, write_object, JsonValue, MemberView,
};
use crate::jose::jwk::{
    is_supported, key_index, keys_wf, signature, signing_index, spec_signature, JsonWebKeySet,
    JsonWebKeyView, PublicJsonWebKey,
};

verus! {

/// The byte `.`, which joins the parts of a token.
pub const DOT: u8 = 0x2E;

/// Why signing or verification failed.
#[derive(Clone, Copy, Debug, PartialEq, Eq, Structural)]
pub enum JoseError {
    /// No key of the set is the current signing key of the algorithm.
    NoSigningKey,
    /// The token is not three base64url texts joined by dots, its header or
    /// payload is not an object, or a member that must be there is missing or
    /// of the wrong kind.
    MalformedToken,
    /// The header names the algorithm `none`, or another algorithm than the
    /// one the key is bound to.
    AlgorithmMismatch,
    /// The header names a key that the set does not hold.
    UnknownKey,
    /// The signature is not the signature of the header and the payload.
    InvalidSignature,
    /// The expiry is not in the future.
    Expired,
    /// The time before which the token does not hold is in the future.
    NotYetValid,
    /// The issuer is missing or is not the expected one.
    IssuerMismatch,
    /// The expected audience is not among the audiences.
    AudienceMismatch,
    /// The nonce is missing or is not the expected one.
    NonceMismatch,
}

/// The error of the token whose claims were refused with `e`.
pub open spec fn spec_claims_error(e: ClaimsError) -> JoseError {
    match e {
        ClaimsError::IssuerMismatch => JoseError::IssuerMismatch,
        ClaimsError::AudienceMismatch => JoseError::AudienceMismatch,
        ClaimsError::Malformed => JoseError::MalformedToken,
        ClaimsError::Expired => JoseError::Expired,
        ClaimsError::NotYetValid => JoseError::NotYetValid,
        ClaimsError::NonceMismatch => JoseError::NonceMismatch,
    }
}

/// The error of the token whose claims were refused with `e`.
pub fn claims_error(e: ClaimsError) -> (r: JoseError)
    ensures
        r == spec_claims_error(e),
{
    match e {
        ClaimsError::IssuerMismatch => JoseError::IssuerMismatch,
        ClaimsError::AudienceMismatch => JoseError::AudienceMismatch,
        ClaimsError::Malformed => JoseError::MalformedToken,
        ClaimsError::Expired => JoseError::Expired,
        ClaimsError::NotYetValid => JoseError::NotYetValid,
        ClaimsError::NonceMismatch => JoseError::NonceMismatch,
    }
}

/// The text `JWT`.
pub open spec fn jwt_text() -> Seq<u8> {
    seq![0x4Au8, 0x57u8, 0x54u8]
}

/// Where the first dot at or after `from` stands, or the length of `s` where
/// there is none.
pub open spec fn dot_index(s: Seq<u8>, from: int) -> int
    decreases s.len() - from,
{
    if from < 0 || from >= s.len() {
        s.len() as int
    } else if s[from] == DOT {
        from
    } else {
        dot_index(s, from + 1)
    }
}

/// The three parts of a token: what stands before the first dot, between the
/// first and the second, and after the second. A text with fewer or more
/// than two dots has none.
pub open spec fn token_parts(t: Seq<u8>) -> Option<(Seq<u8>, Seq<u8>, Seq<u8>)> {
    let d1 = dot_index(t, 0);
    let d2 = dot_index(t, d1 + 1);
    if d1 >= t.len() || d2 >= t.len() || dot_index(t, d2 + 1) < t.len() {
        None
    } else {
        Some((t.subrange(0, d1), t.subrange(d1 + 1, d2), t.subrange(d2 + 1, t.len() as int)))
    }
}

/// What is signed: the header text, a dot, the payload text.
pub open spec fn signing_input(header: Seq<u8>, payload: Seq<u8>) -> Seq<u8> {
    header + seq![DOT] + payload
}

/// The token with the header text `header`, the payload text `payload` and
/// the signature text `sig`.
pub open spec fn compact(header: Seq<u8>, payload: Seq<u8>, sig: Seq<u8>) -> Seq<u8> {
    signing_input(header, payload) + seq![DOT] + sig
}

/// The members of the header of a token signed with `alg` by the key `kid`.
pub open spec fn header_members(alg: JsonWebSignatureAlg, kid: Seq<u8>) -> Seq<MemberView> {
    seq![
        str_member(name_alg(), alg.spec_name()),
        str_member(name_kid(), kid),
        str_member(name_typ(), jwt_text()),
    ]
}

/// The token that signing `claims` with `alg` gives: the current signing key
/// of `alg` signs the header, which names the algorithm and the key, and the
/// claims. Without such a key there is no token.
pub open spec fn spec_sign(
    keys: Seq<JsonWebKeyView>,
    claims: Seq<MemberView>,
    alg: JsonWebSignatureAlg,
) -> Result<Seq<u8>, JoseError> {
    match signing_index(keys, alg) {
        None => Err(JoseError::NoSigningKey),
        Some(i) => {
            let header = base64url::spec_encode(enc_object(header_members(alg, keys[i].kid)));
            let payload = base64url::spec_encode(enc_object(claims));
            match spec_signature(alg, keys[i].secret, signing_input(header, payload)) {
                Some(sig) => Ok(compact(header, payload, base64url::spec_encode(sig))),
                None => Err(JoseError::NoSigningKey),
            }
        },
    }
}

/// What the header and the signature of a token show, the claims aside:
/// the token has three parts, each the base64url text of some bytes; the
/// header is an object that names an algorithm and a key; the algorithm is
/// not `none`; the set holds the key; the key is bound to the algorithm,
/// which is the expected one where one is expected; and the signature is
/// the key's signature of the first two parts. The
/// checks are made in this order, and the first that fails gives the error.
/// Where all pass, the result is the bytes of the payload.
pub open spec fn spec_open(
    keys: Seq<JsonWebKeyView>,
    token: Seq<u8>,
    expected: Option<JsonWebSignatureAlg>,
) -> Result<Seq<u8>, JoseError> {
    match token_parts(token) {
        None => Err(JoseError::MalformedToken),
        Some((h, p, g)) => match (
            base64url::spec_decode(h),
            base64url::spec_decode(p),
            base64url::spec_decode(g),
        ) {
            (Some(header), Some(payload), Some(sig)) => match p_object(header) {
                None => Err(JoseError::MalformedToken),
                Some(hm) => match (claim_str(hm, name_alg()), claim_str(hm, name_kid())) {
                    (Some(alg), Some(kid)) => if alg == JsonWebSignatureAlg::Unsecured.spec_name() {
                        Err(JoseError::AlgorithmMismatch)
                    } else {
                        match key_index(keys, kid) {
                            None => Err(JoseError::UnknownKey),
                            Some(k) => if keys[k].alg.spec_name() != alg || (expected is Some
                                && expected != Some(keys[k].alg)) {
                                Err(JoseError::AlgorithmMismatch)
                            } else if spec_signature(
                                keys[k].alg,
                                keys[k].secret,
                                signing_input(h, p),
                            ) != Some(sig) {
                                Err(JoseError::InvalidSignature)
                            } else {
                                Ok(payload)
                            },
                        }
                    },
                    _ => Err(JoseError::MalformedToken),
                },
            },
            _ => Err(JoseError::MalformedToken),
        },
    }
}

/// The claims of a token that verifies, or why it does not: the header and
/// the signature are checked first; then the payload must be an object; then
/// its claims are checked against what is expected.
pub open spec fn spec_verify(keys: Seq<JsonWebKeyView>, token: Seq<u8>, e: Expectation) -> Result<
    Seq<MemberView>,
    JoseError,
> {
    match spec_open(keys, token, e.algorithm) {
        Err(err) => Err(err),
        Ok(payload) => match p_object(payload) {
            None => Err(JoseError::MalformedToken),
            Some(claims) => match spec_validate(claims, e) {
                Err(err) => Err(spec_claims_error(err)),
                Ok(_) => Ok(claims),
            },
        },
    }
}

/// Where the first dot at or after `from` stands.
fn find_dot(s: &[u8], from: usize) -> (r: usize)
    requires
        from <= s@.len(),
    ensures
        from <= r <= s@.len(),
        r == dot_index(s@, from as int),
        r < s@.len() ==> s@[r as int] == DOT,
{
    let mut i: usize = from;
    while i < s.len()
        invariant
            from <= i <= s@.len(),
            dot_index(s@, from as int) == dot_index(s@, i as int),
        decreases s@.len() - i,
    {
        if s[i] == DOT {
            return i;
        }
        i = i + 1;
    }
    i
}

/// The three parts of a token.
pub fn split_token(t: &[u8]) -> (r: Option<(&[u8], &[u8], &[u8])>)
    ensures
        match r {
            Some((h, p, g)) => {
                &&& token_parts(t@) == Some((h@, p@, g@))
                &&& h@.len() + 1 + p@.len() < t@.len()
                &&& signing_input(h@, p@) == t@.subrange(0, (h@.len() + 1 + p@.len()) as int)
            },
            None => token_parts(t@) is None,
        },
{
    let d1 = find_dot(t, 0);
    if d1 >= t.len() {
        return None;
    }
    let d2 = find_dot(t, d1 + 1);
    if d2 >= t.len() {
        return None;
    }
    let d3 = find_dot(t, d2 + 1);
    if d3 < t.len() {
        return None;
    }
    let h = vstd::slice::slice_subrange(t, 0, d1);
    let p = vstd::slice::slice_subrange(t, d1 + 1, d2);
    let g = vstd::slice::slice_subrange(t, d2 + 1, t.len());
    proof {
        assert(signing_input(h@, p@) =~= t@.subrange(0, d2 as int));
    }
    Some((h, p, g))
}

/// The token made of what was signed and its signature: the header and
/// payload texts as they were signed, a dot, and the signature as unpadded
/// base64url text.
pub fn seal(signed: Vec<u8>, sig: &[u8]) -> (r: Vec<u8>)
    ensures
        r@ == signed@ + seq![DOT] + base64url::spec_encode(sig@),
{
    let mut token = signed;
    let sig_text = base64url::encode(sig);
    token.push(DOT);
    append(&mut token, sig_text.as_slice());
    token
}

/// A signer and verifier of tokens. It holds a snapshot of the key set; a
/// new set replaces the snapshot whole.
pub struct JoseEngine {
    keys: JsonWebKeySet,
}

impl JoseEngine {
    /// The keys of the snapshot.
    pub closed spec fn view(&self) -> Seq<JsonWebKeyView> {
        self.keys@
    }

    /// The keys are those of a set.
    pub open spec fn wf(&self) -> bool {
        keys_wf(self@)
    }

    /// An engine over the key set `keys`.
    pub fn new(keys: JsonWebKeySet) -> (r: JoseEngine)
        ensures
            r@ == keys@,
    {
        JoseEngine { keys }
    }

    /// Replaces the snapshot by `keys` and returns the old one.
    pub fn replace_keys(&mut self, keys: JsonWebKeySet) -> (old_keys: JsonWebKeySet)
        ensures
            final(self)@ == keys@,
            old_keys@ == old(self)@,
    {
        let mut next = keys;
        std::mem::swap(&mut self.keys, &mut next);
        next
    }

    /// The keys of the snapshot.
    pub fn keys(&self) -> (r: &JsonWebKeySet)
        ensures
            r@ == self@,
    {
        &self.keys
    }

    /// What is published of the keys: identifiers and algorithms, no secret.
    pub fn public_jwks(&self) -> (r: Vec<PublicJsonWebKey>)
        ensures
            crate::jose::jwk::public_keys_view(r@) == self@.map_values(
                |k: JsonWebKeyView| k.public(),
            ),
    {
        self.keys.public_jwks()
    }

    /// Signs `claims` with the current signing key of `alg`.
    pub fn sign(&self, claims: &Claims, alg: JsonWebSignatureAlg) -> (r: Result<Vec<u8>, JoseError>)
        requires
            self.wf(),
        ensures
            match r {
                Ok(token) => spec_sign(self@, claims@, alg) == Ok::<_, JoseError>(token@),
                Err(e) => spec_sign(self@, claims@, alg) == Err::<Seq<u8>, _>(e),
            },
    {
        let key = match self.keys.signing_key(alg) {
            Some(k) => k,
            None => {
                return Err(JoseError::NoSigningKey);
            },
        };
        let mut header = Claims::new();
        header.push(alg_name(), JsonValue::Str(alg.name()));
        header.push(kid_name(), JsonValue::Str(to_vec(key.kid.as_slice())));
        header.push(typ_name(), JsonValue::Str(vec![0x4Au8, 0x57u8, 0x54u8]));
        proof {
            assert(header@ =~= header_members(alg, key@.kid));
        }
        let header_text = base64url::encode(write_object(&header.members).as_slice());
        let payload_text = base64url::encode(write_object(&claims.members).as_slice());
        let mut token: Vec<u8> = Vec::new();
        append(&mut token, header_text.as_slice());
        token.push(DOT);
        append(&mut token, payload_text.as_slice());
        proof {
            assert(token@ =~= signing_input(header_text@, payload_text@));
        }
        let sig = match signature(alg, key.secret.as_slice(), token.as_slice()) {
            Some(s) => s,
            None => {
                return Err(JoseError::NoSigningKey);
            },
        };
        Ok(seal(token, sig.as_slice()))
    }

    /// Checks the header and the signature of `token` and returns the bytes
    /// of its payload. The signature is computed again and compared with the
    /// one presented without stopping at the first difference.
    pub fn open(&self, token: &[u8], expected_alg: Option<JsonWebSignatureAlg>) -> (r: Result<
        Vec<u8>,
        JoseError,
    >)
        requires
            self.wf(),
        ensures
            match r {
                Ok(payload) => spec_open(self@, token@, expected_alg) == Ok::<_, JoseError>(
                    payload@,
                ),
                Err(e) => spec_open(self@, token@, expected_alg) == Err::<Seq<u8>, _>(e),
            },
    {
        let (h, p, g) = match split_token(token) {
            Some(parts) => parts,
            None => {
                return Err(JoseError::MalformedToken);
            },
        };
        let header = match base64url::decode(h) {
            Some(x) => x,
            None => {
                return Err(JoseError::MalformedToken);
            },
        };
        let payload = match base64url::decode(p) {
            Some(x) => x,
            None => {
                return Err(JoseError::MalformedToken);
            },
        };
        let sig = match base64url::decode(g) {
            Some(x) => x,
            None => {
                return Err(JoseError::MalformedToken);
            },
        };
        let hm = match parse_object(header.as_slice()) {
            Some(ms) => Claims { members: ms },
            None => {
                return Err(JoseError::MalformedToken);
            },
        };
        let alg = match hm.get_str(alg_name().as_slice()) {
            Some(x) => x,
            None => {
                return Err(JoseError::MalformedToken);
            },
        };
        let kid = match hm.get_str(kid_name().as_slice()) {
            Some(x) => x,
            None => {
                return Err(JoseError::MalformedToken);
            },
        };
        if bytes_eq(alg.as_slice(), JsonWebSignatureAlg::Unsecured.name().as_slice()) {
            return Err(JoseError::AlgorithmMismatch);
        }
        let key = match self.keys.find(kid.as_slice()) {
            Some(k) => k,
            None => {
                return Err(JoseError::UnknownKey);
            },
        };
        if !bytes_eq(key.alg.name().as_slice(), alg.as_slice()) {
            return Err(JoseError::AlgorithmMismatch);
        }
        match expected_alg {
            Some(a) => {
                if a != key.alg {
                    return Err(JoseError::AlgorithmMismatch);
                }
            },
            None => {},
        }
        let total = token.len();
        assert(h@.len() + 1 + p@.len() < total);
        let signed = vstd::slice::slice_subrange(token, 0, h.len() + 1 + p.len());
        let matches = match signature(key.alg, key.secret.as_slice(), signed) {
            Some(expected) => ct_eq(expected.as_slice(), sig.as_slice()),
            None => false,
        };
        if !matches {
            return Err(JoseError::InvalidSignature);
        }
        Ok(payload)
    }

    /// Verifies `token`: its header and signature, then its claims against
    /// the expected issuer and audience, the time `now`, and the nonce where
    /// one is expected. Where an algorithm is expected, the token's key must
    /// be bound to it. Returns the claims.
    pub fn verify(
        &self,
        token: &[u8],
        expected_issuer: &[u8],
        expected_audience: &[u8],
        now: u64,
        expected_nonce: Option<&[u8]>,
        expected_alg: Option<JsonWebSignatureAlg>,
    ) -> (r: Result<Claims, JoseError>)
        requires
            self.wf(),
        ensures
            match r {
                Ok(claims) => spec_verify(
                    self@,
                    token@,
                    Expectation {
                        issuer: expected_issuer@,
                        audience: expected_audience@,
                        now,
                        nonce: crate::bytes::opt_slice_view(expected_nonce),
                        algorithm: expected_alg,
                    },
                ) == Ok::<_, JoseError>(claims@),
                Err(e) => spec_verify(
                    self@,
                    token@,
                    Expectation {
                        issuer: expected_issuer@,
                        audience: expected_audience@,
                        now,
                        nonce: crate::bytes::opt_slice_view(expected_nonce),
                        algorithm: expected_alg,
                    },
                ) == Err::<Seq<MemberView>, _>(e),
            },
    {
        let payload = match self.open(token, expected_alg) {
            Ok(p) => p,
            Err(e) => {
                return Err(e);
            },
        };
        let claims = match parse_object(payload.as_slice()) {
            Some(ms) => Claims { members: ms },
            None => {
                return Err(JoseError::MalformedToken);
            },
        };
        match claims.validate(expected_issuer, expected_audience, now, expected_nonce) {
            Ok(_) => Ok(claims),
            Err(e) => Err(claims_error(e)),
        }
    }
}

/// Whether `s` holds no dot.
pub open spec fn no_dot(s: Seq<u8>) -> bool {
    forall|k: int| 0 <= k < s.len() ==> #[trigger] s[k] != DOT
}

/// The first dot at or after `from` stands at `d` where no dot stands
/// between them.
pub proof fn lemma_dot_index(t: Seq<u8>, from: int, d: int)
    requires
        0 <= from <= d <= t.len(),
        forall|k: int| from <= k < d ==> #[trigger] t[k] != DOT,
        d == t.len() || t[d] == DOT,
    ensures
        dot_index(t, from) == d,
    decreases d - from,
{
    if from < d {
        lemma_dot_index(t, from + 1, d);
    }
}

/// What `dot_index` finds: a dot, or the end, and no dot before it.
pub proof fn lemma_dot_index_is_first(t: Seq<u8>, from: int)
    requires
        0 <= from <= t.len(),
    ensures
        from <= dot_index(t, from) <= t.len(),
        dot_index(t, from) < t.len() ==> t[dot_index(t, from)] == DOT,
        forall|k: int| from <= k < dot_index(t, from) ==> #[trigger] t[k] != DOT,
    decreases t.len() - from,
{
    if from < t.len() && t[from] != DOT {
        lemma_dot_index_is_first(t, from + 1);
    }
}

/// A base64url text holds no dot.
pub proof fn lemma_text_has_no_dot(d: Seq<u8>)
    ensures
        no_dot(base64url::spec_encode(d)),
{
    base64url::lemma_encode_alphabet(d);
    let s = base64url::spec_encode(d);
    assert forall|k: int| 0 <= k < s.len() implies #[trigger] s[k] != DOT by {
        assert(base64url::char_sextet(s[k]) is Some);
    }
}

/// The parts of a token made of three texts without dots are those texts.
pub proof fn lemma_parts_of_compact(h: Seq<u8>, p: Seq<u8>, g: Seq<u8>)
    requires
        no_dot(h),
        no_dot(p),
        no_dot(g),
    ensures
        token_parts(compact(h, p, g)) == Some((h, p, g)),
{
    let t = compact(h, p, g);
    let d1 = h.len() as int;
    let d2 = d1 + 1 + p.len();
    assert forall|k: int| 0 <= k < d1 implies #[trigger] t[k] != DOT by {
        assert(t[k] == h[k]);
    }
    assert(t[d1] == DOT);
    lemma_dot_index(t, 0, d1);
    assert forall|k: int| d1 + 1 <= k < d2 implies #[trigger] t[k] != DOT by {
        assert(t[k] == p[k - d1 - 1]);
    }
    assert(t[d2] == DOT);
    lemma_dot_index(t, d1 + 1, d2);
    assert forall|k: int| d2 + 1 <= k < t.len() implies #[trigger] t[k] != DOT by {
        assert(t[k] == g[k - d2 - 1]);
    }
    lemma_dot_index(t, d2 + 1, t.len() as int);
    assert(t.subrange(0, d1) =~= h);
    assert(t.subrange(d1 + 1, d2) =~= p);
    assert(t.subrange(d2 + 1, t.len() as int) =~= g);
}

/// The header of a token names its algorithm and its key.
pub proof fn lemma_header_members(alg: JsonWebSignatureAlg, kid: Seq<u8>)
    ensures
        claim_str(header_members(alg, kid), name_alg()) == Some(alg.spec_name()),
        claim_str(header_members(alg, kid), name_kid()) == Some(kid),
{
    let hm = header_members(alg, kid);
    reveal_with_fuel(claim, 3);
    lemma_names_differ();
    assert(hm.skip(1)[0] == hm[1]);
}

/// Signing and verifying round trip: a token signed by the current signing
/// key of `alg` verifies against every expectation that its claims meet, and
/// verification returns the claims that were signed.
pub proof fn lemma_sign_verify(
    keys: Seq<JsonWebKeyView>,
    claims: Seq<MemberView>,
    alg: JsonWebSignatureAlg,
    e: Expectation,
)
    requires
        keys_wf(keys),
        signing_index(keys, alg) is Some,
        spec_validate(claims, e) is Ok,
        e.algorithm is None || e.algorithm == Some(alg),
    ensures
        spec_sign(keys, claims, alg) is Ok,
        spec_verify(keys, spec_sign(keys, claims, alg)->Ok_0, e) == Ok::<_, JoseError>(claims),
{
    let i = signing_index(keys, alg)->Some_0;
    assert(keys[i].alg == alg && keys[i].signing);
    assert(is_supported(keys[i].alg));
    let kid = keys[i].kid;
    let hm = header_members(alg, kid);
    let header = enc_object(hm);
    let payload = enc_object(claims);
    let h = base64url::spec_encode(header);
    let p = base64url::spec_encode(payload);
    let sig = spec_signature(alg, keys[i].secret, signing_input(h, p))->Some_0;
    let g = base64url::spec_encode(sig);
    let token = compact(h, p, g);
    assert(spec_sign(keys, claims, alg) == Ok::<_, JoseError>(token));
    lemma_text_has_no_dot(header);
    lemma_text_has_no_dot(payload);
    lemma_text_has_no_dot(sig);
    lemma_parts_of_compact(h, p, g);
    base64url::lemma_decode_encode(header);
    base64url::lemma_decode_encode(payload);
    base64url::lemma_decode_encode(sig);
    lemma_read_object(hm);
    lemma_read_object(claims);
    lemma_header_members(alg, kid);
    assert(alg.spec_name() != JsonWebSignatureAlg::Unsecured.spec_name()) by {
        if alg.spec_name() == JsonWebSignatureAlg::Unsecured.spec_name() {
            JsonWebSignatureAlg::lemma_name_injective(alg, JsonWebSignatureAlg::Unsecured);
        }
    }
    let w = key_index(keys, kid)->Some_0;
    assert(w == i) by {
        if w < i {
            assert(keys[w].kid != keys[i].kid);
        } else if w > i {
            assert(keys[i].kid != keys[w].kid);
        }
    }
    assert(spec_open(keys, token, e.algorithm) == Ok::<_, JoseError>(payload));
}

/// A token whose signature has one byte changed does not verify: either it
/// is no longer a token, or its signature is not the signature of its header
/// and payload.
pub proof fn lemma_tampered_signature(
    keys: Seq<JsonWebKeyView>,
    token: Seq<u8>,
    e: Expectation,
    at: int,
    byte: u8,
)
    requires
        keys_wf(keys),
        spec_verify(keys, token, e) is Ok,
        token_parts(token) matches Some((h, p, g)) && h.len() + p.len() + 2 <= at < token.len(),
        byte != token[at],
    ensures
        spec_verify(keys, token.update(at, byte), e) is Err,
        spec_verify(keys, token.update(at, byte), e)->Err_0 == JoseError::MalformedToken
            || spec_verify(keys, token.update(at, byte), e)->Err_0 == JoseError::InvalidSignature,
{
    let (h, p, g) = token_parts(token)->Some_0;
    let changed = token.update(at, byte);
    let d1 = dot_index(token, 0);
    lemma_dot_index_is_first(token, 0);
    let d2 = dot_index(token, d1 + 1);
    lemma_dot_index_is_first(token, d1 + 1);
    lemma_dot_index_is_first(token, d2 + 1);
    assert(h.len() == d1 && p.len() == d2 - d1 - 1);
    assert forall|k: int| 0 <= k < d1 implies #[trigger] changed[k] != DOT by {
        assert(changed[k] == token[k]);
    }
    lemma_dot_index(changed, 0, d1);
    assert forall|k: int| d1 + 1 <= k < d2 implies #[trigger] changed[k] != DOT by {
        assert(changed[k] == token[k]);
    }
    lemma_dot_index(changed, d1 + 1, d2);
    lemma_dot_index_is_first(changed, d2 + 1);
    if dot_index(changed, d2 + 1) >= changed.len() {
        let g2 = changed.subrange(d2 + 1, changed.len() as int);
        assert(changed.subrange(0, d1) =~= h);
        assert(changed.subrange(d1 + 1, d2) =~= p);
        assert(token_parts(changed) == Some((h, p, g2)));
        assert(g2 != g) by {
            assert(g2[at - d2 - 1] == byte);
            assert(g[at - d2 - 1] == token[at]);
        }
        if base64url::spec_decode(g2) is Some {
            let sig = base64url::spec_decode(g)->Some_0;
            let sig2 = base64url::spec_decode(g2)->Some_0;
            base64url::lemma_encode_decode(g);
            base64url::lemma_encode_decode(g2);
            assert(sig != sig2);
        }
    }
}

/// What of a text with two dots is signed: all that stands before the
/// second dot.
pub open spec fn signed_text(t: Seq<u8>) -> Seq<u8> {
    t.subrange(0, dot_index(t, dot_index(t, 0) + 1))
}

/// A token whose payload has one byte changed does not verify, unless the
/// key's signature of the changed header and payload happens to be the
/// signature of the unchanged ones: either it is no longer a token, or its
/// signature is not the signature of its header and payload.
pub proof fn lemma_tampered_payload(
    keys: Seq<JsonWebKeyView>,
    token: Seq<u8>,
    e: Expectation,
    at: int,
    byte: u8,
)
    requires
        keys_wf(keys),
        spec_verify(keys, token, e) is Ok,
        token_parts(token) matches Some((h, p, g)) && h.len() + 1 <= at < h.len() + 1 + p.len(),
        byte != token[at],
        forall|k: int|
            0 <= k < keys.len() ==> spec_signature(
                (#[trigger] keys[k]).alg,
                keys[k].secret,
                signed_text(token.update(at, byte)),
            ) != spec_signature(keys[k].alg, keys[k].secret, signed_text(token)),
    ensures
        spec_verify(keys, token.update(at, byte), e) is Err,
        spec_verify(keys, token.update(at, byte), e)->Err_0 == JoseError::MalformedToken
            || spec_verify(keys, token.update(at, byte), e)->Err_0 == JoseError::InvalidSignature,
{
    let (h, p, g) = token_parts(token)->Some_0;
    let changed = token.update(at, byte);
    let d1 = dot_index(token, 0);
    lemma_dot_index_is_first(token, 0);
    let d2 = dot_index(token, d1 + 1);
    lemma_dot_index_is_first(token, d1 + 1);
    lemma_dot_index_is_first(token, d2 + 1);
    assert(h.len() == d1 && p.len() == d2 - d1 - 1);
    assert forall|k: int| 0 <= k < d1 implies #[trigger] changed[k] != DOT by {
        assert(changed[k] == token[k]);
    }
    lemma_dot_index(changed, 0, d1);
    if byte == DOT {
        lemma_dot_index_is_first(changed, d1 + 1);
        let e2 = dot_index(changed, d1 + 1);
        assert(e2 <= at) by {
            if e2 > at {
                assert(changed[at] != DOT);
            }
        }
        lemma_dot_index_is_first(changed, e2 + 1);
        let e3 = dot_index(changed, e2 + 1);
        assert(e3 <= d2) by {
            if e3 > d2 {
                assert(changed[d2] != DOT);
            }
        }
        assert(token_parts(changed) is None);
    } else {
        assert forall|k: int| d1 + 1 <= k < d2 implies #[trigger] changed[k] != DOT by {
            if k != at {
                assert(changed[k] == token[k]);
            }
        }
        lemma_dot_index(changed, d1 + 1, d2);
        assert forall|k: int| d2 + 1 <= k < changed.len() implies #[trigger] changed[k] != DOT by {
            assert(changed[k] == token[k]);
        }
        lemma_dot_index(changed, d2 + 1, changed.len() as int);
        let changed_payload = changed.subrange(d1 + 1, d2);
        assert(changed.subrange(0, d1) =~= h);
        assert(changed.subrange(d2 + 1, changed.len() as int) =~= g);
        assert(token_parts(changed) == Some((h, changed_payload, g)));
        assert(signing_input(h, changed_payload) =~= changed.subrange(0, d2));
        assert(signing_input(h, p) =~= token.subrange(0, d2));
    }
}

/// No token that verifies has expired: the claims that verification returns
/// hold an expiry that lies in the future. So a token whose expiry has
/// passed fails, whatever its signature, issuer and audience; and where
/// those are in order it fails as expired.
pub proof fn lemma_expired_never_verifies(keys: Seq<JsonWebKeyView>, token: Seq<u8>, e: Expectation)
    ensures
        spec_verify(keys, token, e) matches Ok(claims) ==> (claim_num(claims, name_exp()) matches Some(
            exp,
        ) && exp > e.now),
        ({
            &&& spec_open(keys, token, e.algorithm) matches Ok(payload)
            &&& p_object(payload) matches Some(claims)
            &&& claim_str(claims, name_iss()) == Some(e.issuer)
            &&& audiences(claims).contains(e.audience)
            &&& claim_num(claims, name_exp()) matches Some(exp)
            &&& exp <= e.now
        }) ==> spec_verify(keys, token, e) == Err::<Seq<MemberView>, _>(JoseError::Expired),
{
}

/// A token that names the algorithm `none`, or an algorithm other than the
/// one its key is bound to, or whose key is not bound to the expected
/// algorithm, is refused: in a token that passes, the header names the
/// algorithm of the key, and that is the expected one.
pub proof fn lemma_algorithm_is_bound_to_key(
    keys: Seq<JsonWebKeyView>,
    token: Seq<u8>,
    expected: Option<JsonWebSignatureAlg>,
)
    requires
        keys_wf(keys),
        spec_open(keys, token, expected) is Ok,
    ensures
        ({
            let h = token_parts(token)->Some_0.0;
            let hm = p_object(base64url::spec_decode(h)->Some_0)->Some_0;
            let alg = claim_str(hm, name_alg())->Some_0;
            let kid = claim_str(hm, name_kid())->Some_0;
            &&& alg != JsonWebSignatureAlg::Unsecured.spec_name()
            &&& key_index(keys, kid) matches Some(k)
            &&& keys[k].alg.spec_name() == alg
            &&& expected matches Some(a) ==> keys[k].alg == a
        }),
{
}

} // verus!

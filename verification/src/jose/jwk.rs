//! Signing keys and the key set. A key set is never changed in place:
//! rotation and retirement give a new set, which replaces the old one whole.

use vstd::prelude::*;
use crate::bytes::{bytes_eq, to_vec};
use crate::digest::{
    hmac_sha256, hmac_sha256_tag, hmac_sha384, hmac_sha384_tag, hmac_sha512, hmac_sha512_tag,
};
use crate::iana::JsonWebSignatureAlg;

verus! {

/// Whether keys of this library can sign with `alg`: the HMAC algorithms.
pub open spec fn is_supported(alg: JsonWebSignatureAlg) -> bool {
    alg == JsonWebSignatureAlg::Hs256 || alg == JsonWebSignatureAlg::Hs384 || alg
        == JsonWebSignatureAlg::Hs512
}

/// The signature of `message` under `secret` with `alg`, for the algorithms
/// that are supported.
pub open spec fn spec_signature(alg: JsonWebSignatureAlg, secret: Seq<u8>, message: Seq<u8>) -> Option<
    Seq<u8>,
> {
    match alg {
        JsonWebSignatureAlg::Hs256 => Some(hmac_sha256(secret, message)),
        JsonWebSignatureAlg::Hs384 => Some(hmac_sha384(secret, message)),
        JsonWebSignatureAlg::Hs512 => Some(hmac_sha512(secret, message)),
        _ => None,
    }
}

/// The signature of `message` under `secret` with `alg`.
pub fn signature(alg: JsonWebSignatureAlg, secret: &[u8], message: &[u8]) -> (r: Option<Vec<u8>>)
    ensures
        match r {
            Some(sig) => spec_signature(alg, secret@, message@) == Some(sig@),
            None => spec_signature(alg, secret@, message@) is None,
        },
{
    match alg {
        JsonWebSignatureAlg::Hs256 => Some(hmac_sha256_tag(secret, message)),
        JsonWebSignatureAlg::Hs384 => Some(hmac_sha384_tag(secret, message)),
        JsonWebSignatureAlg::Hs512 => Some(hmac_sha512_tag(secret, message)),
        _ => None,
    }
}

/// Whether `alg` is one of the HMAC algorithms.
pub fn supports(alg: JsonWebSignatureAlg) -> (r: bool)
    ensures
        r == is_supported(alg),
{
    match alg {
        JsonWebSignatureAlg::Hs256 | JsonWebSignatureAlg::Hs384 | JsonWebSignatureAlg::Hs512 => true,
        _ => false,
    }
}

/// A key: its identifier, the algorithm it is bound to, its secret, and
/// whether it is the current signing key of its algorithm or kept for
/// verification only.
#[derive(PartialEq, Eq)]
pub struct JsonWebKey {
    pub kid: Vec<u8>,
    pub alg: JsonWebSignatureAlg,
    pub secret: Vec<u8>,
    pub signing: bool,
}

/// A key as a mathematical value.
pub struct JsonWebKeyView {
    pub kid: Seq<u8>,
    pub alg: JsonWebSignatureAlg,
    pub secret: Seq<u8>,
    pub signing: bool,
}

/// What is published of a key: its identifier and its algorithm, and whether
/// tokens are currently signed with it. The secret is not part of it.
#[derive(Debug, PartialEq, Eq)]
pub struct PublicJsonWebKey {
    pub kid: Vec<u8>,
    pub alg: JsonWebSignatureAlg,
    pub signing: bool,
}

/// The published part of a key as a mathematical value.
pub struct PublicJsonWebKeyView {
    pub kid: Seq<u8>,
    pub alg: JsonWebSignatureAlg,
    pub signing: bool,
}

impl JsonWebKeyView {
    /// What is published of the key.
    pub open spec fn public(self) -> PublicJsonWebKeyView {
        PublicJsonWebKeyView { kid: self.kid, alg: self.alg, signing: self.signing }
    }
}

impl PublicJsonWebKey {
    /// The value as a mathematical value, with its byte strings as sequences.
    pub open spec fn view(&self) -> PublicJsonWebKeyView {
        PublicJsonWebKeyView { kid: self.kid@, alg: self.alg, signing: self.signing }
    }
}

impl JsonWebKey {
    /// The value as a mathematical value, with its byte strings as sequences.
    pub open spec fn view(&self) -> JsonWebKeyView {
        JsonWebKeyView { kid: self.kid@, alg: self.alg, secret: self.secret@, signing: self.signing }
    }

    /// A copy of the key.
    pub fn clone(&self) -> (r: JsonWebKey)
        ensures
            r@ == self@,
    {
        JsonWebKey {
            kid: to_vec(self.kid.as_slice()),
            alg: self.alg,
            secret: to_vec(self.secret.as_slice()),
            signing: self.signing,
        }
    }
}

/// The views of a list of keys.
pub open spec fn keys_view(s: Seq<JsonWebKey>) -> Seq<JsonWebKeyView> {
    s.map_values(|k: JsonWebKey| k@)
}

/// The views of a list of published keys.
pub open spec fn public_keys_view(s: Seq<PublicJsonWebKey>) -> Seq<PublicJsonWebKeyView> {
    s.map_values(|k: PublicJsonWebKey| k@)
}

/// Where in `s` the key with the identifier `kid` stands, if it is there.
pub open spec fn key_index(s: Seq<JsonWebKeyView>, kid: Seq<u8>) -> Option<int> {
    if exists|i: int| 0 <= i < s.len() && (#[trigger] s[i]).kid == kid {
        Some(choose|i: int| 0 <= i < s.len() && (#[trigger] s[i]).kid == kid)
    } else {
        None
    }
}

/// Where in `s` the current signing key of `alg` stands, if there is one.
pub open spec fn signing_index(s: Seq<JsonWebKeyView>, alg: JsonWebSignatureAlg) -> Option<int> {
    if exists|i: int| 0 <= i < s.len() && (#[trigger] s[i]).alg == alg && s[i].signing {
        Some(choose|i: int| 0 <= i < s.len() && (#[trigger] s[i]).alg == alg && s[i].signing)
    } else {
        None
    }
}

/// What holds of the keys of a set: no identifier occurs twice, every key is
/// bound to a supported algorithm, and no algorithm has two current signing
/// keys.
pub open spec fn keys_wf(s: Seq<JsonWebKeyView>) -> bool {
    &&& forall|i: int, j: int|
        0 <= i < j < s.len() ==> (#[trigger] s[i]).kid != (#[trigger] s[j]).kid
    &&& forall|i: int| 0 <= i < s.len() ==> is_supported((#[trigger] s[i]).alg)
    &&& forall|i: int, j: int|
        0 <= i < j < s.len() && (#[trigger] s[i]).signing && (#[trigger] s[j]).signing
            ==> s[i].alg != s[j].alg
}

/// The keys after a rotation to a new signing key: the key that signed for
/// the same algorithm until now is kept, for verification only, and the new
/// key is added as the current signing key. No key is removed.
pub open spec fn spec_rotate(s: Seq<JsonWebKeyView>, key: JsonWebKeyView) -> Seq<JsonWebKeyView> {
    s.map_values(
        |k: JsonWebKeyView|
            if k.alg == key.alg {
                JsonWebKeyView { signing: false, ..k }
            } else {
                k
            },
    ).push(JsonWebKeyView { signing: true, ..key })
}

/// Why a key set was not changed.
#[derive(Clone, Copy, Debug, PartialEq, Eq, Structural)]
pub enum KeyError {
    /// The algorithm is not one that keys of this library can sign with.
    UnsupportedAlgorithm,
    /// The set already holds a key with this identifier.
    DuplicateKeyId,
    /// The set holds no key with this identifier.
    UnknownKey,
    /// The key is the current signing key of its algorithm.
    KeyInUse,
}

/// A set of keys.
pub struct JsonWebKeySet {
    keys: Vec<JsonWebKey>,
}

impl JsonWebKeySet {
    /// The keys, oldest first.
    pub closed spec fn view(&self) -> Seq<JsonWebKeyView> {
        keys_view(self.keys@)
    }

    /// The keys are those of a set.
    pub open spec fn wf(&self) -> bool {
        keys_wf(self@)
    }

    /// The empty set.
    pub fn new() -> (r: JsonWebKeySet)
        ensures
            r.wf(),
            r@ == Seq::<JsonWebKeyView>::empty(),
    {
        let r = JsonWebKeySet { keys: Vec::new() };
        assert(r@ =~= Seq::<JsonWebKeyView>::empty());
        r
    }

    /// The number of keys.
    pub fn len(&self) -> (n: usize)
        ensures
            n == self@.len(),
    {
        self.keys.len()
    }

    /// The key with the identifier `kid`.
    pub fn find(&self, kid: &[u8]) -> (r: Option<&JsonWebKey>)
        requires
            self.wf(),
        ensures
            match r {
                Some(k) => key_index(self@, kid@) matches Some(i) && self@[i] == k@,
                None => key_index(self@, kid@) is None,
            },
    {
        let mut i: usize = 0;
        while i < self.keys.len()
            invariant
                i <= self.keys@.len(),
                self.wf(),
                forall|j: int| 0 <= j < i ==> (#[trigger] self@[j]).kid != kid@,
            decreases self.keys@.len() - i,
        {
            if bytes_eq(self.keys[i].kid.as_slice(), kid) {
                proof {
                    assert(self@[i as int].kid == kid@);
                    let w = choose|k: int|
                        0 <= k < self@.len() && (#[trigger] self@[k]).kid == kid@;
                    assert(w == i);
                }
                return Some(&self.keys[i]);
            }
            assert(self@[i as int].kid != kid@);
            i = i + 1;
        }
        None
    }

    /// The current signing key of `alg`.
    pub fn signing_key(&self, alg: JsonWebSignatureAlg) -> (r: Option<&JsonWebKey>)
        requires
            self.wf(),
        ensures
            match r {
                Some(k) => signing_index(self@, alg) matches Some(i) && self@[i] == k@,
                None => signing_index(self@, alg) is None,
            },
    {
        let mut i: usize = 0;
        while i < self.keys.len()
            invariant
                i <= self.keys@.len(),
                self.wf(),
                forall|j: int| 0 <= j < i ==> !((#[trigger] self@[j]).alg == alg && self@[j].signing),
            decreases self.keys@.len() - i,
        {
            if self.keys[i].alg == alg && self.keys[i].signing {
                proof {
                    assert(self@[i as int].alg == alg && self@[i as int].signing);
                    let w = choose|k: int|
                        0 <= k < self@.len() && (#[trigger] self@[k]).alg == alg
                            && self@[k].signing;
                    assert(w == i);
                }
                return Some(&self.keys[i]);
            }
            assert(!(self@[i as int].alg == alg && self@[i as int].signing));
            i = i + 1;
        }
        None
    }

    /// The set after a rotation to the signing key `kid` for `alg`: a new
    /// set, in which the key that signed for `alg` until now is kept for
    /// verification only. This set is not changed.
    pub fn rotate(&self, kid: Vec<u8>, alg: JsonWebSignatureAlg, secret: Vec<u8>) -> (r: Result<
        JsonWebKeySet,
        KeyError,
    >)
        requires
            self.wf(),
        ensures
            match r {
                Ok(set) => {
                    &&& set.wf()
                    &&& is_supported(alg)
                    &&& key_index(self@, kid@) is None
                    &&& set@ == spec_rotate(
                        self@,
                        JsonWebKeyView { kid: kid@, alg, secret: secret@, signing: true },
                    )
                },
                Err(e) => if !is_supported(alg) {
                    e == KeyError::UnsupportedAlgorithm
                } else {
                    e == KeyError::DuplicateKeyId && key_index(self@, kid@) is Some
                },
            },
    {
        if !supports(alg) {
            return Err(KeyError::UnsupportedAlgorithm);
        }
        if self.find(kid.as_slice()).is_some() {
            return Err(KeyError::DuplicateKeyId);
        }
        let ghost key = JsonWebKeyView { kid: kid@, alg, secret: secret@, signing: true };
        let ghost demote = |k: JsonWebKeyView|
            if k.alg == key.alg {
                JsonWebKeyView { signing: false, ..k }
            } else {
                k
            };
        let mut keys: Vec<JsonWebKey> = Vec::new();
        let mut i: usize = 0;
        while i < self.keys.len()
            invariant
                i <= self.keys@.len(),
                self.wf(),
                demote == |k: JsonWebKeyView|
                    if k.alg == key.alg {
                        JsonWebKeyView { signing: false, ..k }
                    } else {
                        k
                    },
                key.alg == alg,
                keys_view(keys@) == self@.map_values(demote).take(i as int),
            decreases self.keys@.len() - i,
        {
            let mut k = self.keys[i].clone();
            if k.alg == alg {
                k.signing = false;
            }
            let ghost before = keys_view(keys@);
            let ghost kv = k@;
            keys.push(k);
            proof {
                assert(kv == demote(self@[i as int]));
                assert(keys_view(keys@) =~= before.push(kv));
                assert(self@.map_values(demote).take(i as int + 1) =~= self@.map_values(
                    demote,
                ).take(i as int).push(kv));
            }
            i = i + 1;
        }
        let ghost before = keys_view(keys@);
        keys.push(JsonWebKey { kid, alg, secret, signing: true });
        let set = JsonWebKeySet { keys };
        proof {
            assert(self@.map_values(demote).take(self.keys@.len() as int) =~= self@.map_values(
                demote,
            ));
            assert(set@ =~= before.push(key));
            assert(set@ =~= spec_rotate(self@, key));
            let n = self@.len() as int;
            assert forall|a: int, b: int| 0 <= a < b < set@.len() implies (#[trigger] set@[a]).kid
                != (#[trigger] set@[b]).kid by {
                assert(set@[a].kid == self@[a].kid);
                if b < n {
                    assert(set@[b].kid == self@[b].kid);
                }
            }
            assert forall|a: int| 0 <= a < set@.len() implies is_supported(
                (#[trigger] set@[a]).alg,
            ) by {
                if a < n {
                    assert(set@[a].alg == self@[a].alg);
                }
            }
            assert forall|a: int, b: int|
                0 <= a < b < set@.len() && (#[trigger] set@[a]).signing && (
                #[trigger] set@[b]).signing implies set@[a].alg != set@[b].alg by {
                assert(set@[a] == demote(self@[a]));
                if b < n {
                    assert(set@[b] == demote(self@[b]));
                }
            }
        }
        Ok(set)
    }

    /// The set without the key `kid`, which must be one that is kept for
    /// verification only. This set is not changed.
    pub fn retire(&self, kid: &[u8]) -> (r: Result<JsonWebKeySet, KeyError>)
        requires
            self.wf(),
        ensures
            match r {
                Ok(set) => {
                    &&& set.wf()
                    &&& key_index(self@, kid@) matches Some(i)
                    &&& !self@[i].signing
                    &&& set@ == self@.remove(i)
                },
                Err(e) => match key_index(self@, kid@) {
                    None => e == KeyError::UnknownKey,
                    Some(i) => e == KeyError::KeyInUse && self@[i].signing,
                },
            },
    {
        match self.find(kid) {
            None => {
                return Err(KeyError::UnknownKey);
            },
            Some(k) => {
                if k.signing {
                    return Err(KeyError::KeyInUse);
                }
            },
        }
        let ghost at = key_index(self@, kid@)->Some_0;
        let mut keys: Vec<JsonWebKey> = Vec::new();
        let mut i: usize = 0;
        while i < self.keys.len()
            invariant
                i <= self.keys@.len(),
                self.wf(),
                0 <= at < self@.len(),
                self@[at].kid == kid@,
                keys_view(keys@) == if i <= at {
                    self@.take(i as int)
                } else {
                    self@.remove(at).take(i as int - 1)
                },
            decreases self.keys@.len() - i,
        {
            let same = bytes_eq(self.keys[i].kid.as_slice(), kid);
            proof {
                assert(self@[i as int] == self.keys@[i as int]@);
                if same {
                    if i < at {
                        assert(self@[i as int].kid != self@[at].kid);
                    } else if i > at {
                        assert(self@[at].kid != self@[i as int].kid);
                    }
                    assert(i == at);
                }
            }
            if !same {
                let ghost before = keys_view(keys@);
                keys.push(self.keys[i].clone());
                proof {
                    assert(keys_view(keys@) =~= before.push(self@[i as int]));
                    if i < at {
                        assert(self@.take(i as int + 1) =~= self@.take(i as int).push(
                            self@[i as int],
                        ));
                    } else {
                        assert(self@.remove(at).take(i as int) =~= self@.remove(at).take(
                            i as int - 1,
                        ).push(self@[i as int]));
                    }
                }
            } else {
                proof {
                    assert(self@.remove(at).take(i as int) =~= self@.take(i as int));
                }
            }
            i = i + 1;
        }
        let set = JsonWebKeySet { keys };
        proof {
            let n = self@.len() as int;
            assert(self@.remove(at).take(n - 1) =~= self@.remove(at));
            assert(set@ == self@.remove(at));
            assert forall|a: int| 0 <= a < set@.len() implies #[trigger] set@[a] == self@[if a
                < at {
                a
            } else {
                a + 1
            }] by {}
            assert forall|a: int, b: int| 0 <= a < b < set@.len() implies (#[trigger] set@[a]).kid
                != (#[trigger] set@[b]).kid by {
                let x = if a < at { a } else { a + 1 };
                let y = if b < at { b } else { b + 1 };
                assert(set@[a] == self@[x]);
                assert(set@[b] == self@[y]);
            }
            assert forall|a: int| 0 <= a < set@.len() implies is_supported(
                (#[trigger] set@[a]).alg,
            ) by {
                let x = if a < at { a } else { a + 1 };
                assert(set@[a] == self@[x]);
            }
            assert forall|a: int, b: int|
                0 <= a < b < set@.len() && (#[trigger] set@[a]).signing && (
                #[trigger] set@[b]).signing implies set@[a].alg != set@[b].alg by {
                let x = if a < at { a } else { a + 1 };
                let y = if b < at { b } else { b + 1 };
                assert(set@[a] == self@[x]);
                assert(set@[b] == self@[y]);
            }
        }
        Ok(set)
    }

    /// What is published of the keys: for each key its identifier and its
    /// algorithm, and no secret.
    pub fn public_jwks(&self) -> (r: Vec<PublicJsonWebKey>)
        ensures
            public_keys_view(r@) == self@.map_values(|k: JsonWebKeyView| k.public()),
    {
        let ghost publish = |k: JsonWebKeyView| k.public();
        let mut out: Vec<PublicJsonWebKey> = Vec::new();
        let mut i: usize = 0;
        while i < self.keys.len()
            invariant
                i <= self.keys@.len(),
                publish == |k: JsonWebKeyView| k.public(),
                public_keys_view(out@) == self@.map_values(publish).take(i as int),
            decreases self.keys@.len() - i,
        {
            let k = &self.keys[i];
            let p = PublicJsonWebKey {
                kid: to_vec(k.kid.as_slice()),
                alg: k.alg,
                signing: k.signing,
            };
            let ghost before = public_keys_view(out@);
            let ghost pv = p@;
            out.push(p);
            proof {
                assert(pv == publish(self@[i as int]));
                assert(public_keys_view(out@) =~= before.push(pv));
                assert(self@.map_values(publish).take(i as int + 1) =~= self@.map_values(
                    publish,
                ).take(i as int).push(pv));
            }
            i = i + 1;
        }
        proof {
            assert(self@.map_values(publish).take(self.keys@.len() as int) =~= self@.map_values(
                publish,
            ));
        }
        out
    }

    /// A copy of the set.
    pub fn clone(&self) -> (r: JsonWebKeySet)
        ensures
            r@ == self@,
    {
        let mut keys: Vec<JsonWebKey> = Vec::new();
        let mut i: usize = 0;
        while i < self.keys.len()
            invariant
                i <= self.keys@.len(),
                keys_view(keys@) == self@.take(i as int),
            decreases self.keys@.len() - i,
        {
            let ghost before = keys_view(keys@);
            keys.push(self.keys[i].clone());
            proof {
                assert(keys_view(keys@) =~= before.push(self@[i as int]));
                assert(self@.take(i as int + 1) =~= self@.take(i as int).push(self@[i as int]));
            }
            i = i + 1;
        }
        proof {
            assert(self@.take(self.keys@.len() as int) =~= self@);
        }
        JsonWebKeySet { keys }
    }
}

/// A rotation never removes a key: every key of the old set is in the new
/// one, under its identifier, with its algorithm and its secret, so what the
/// old set verified the new one verifies. And the new key is the one current
/// signing key of its algorithm.
pub proof fn lemma_rotate_keeps_keys(s: Seq<JsonWebKeyView>, key: JsonWebKeyView, i: int)
    requires
        keys_wf(s),
        key_index(s, key.kid) is None,
        0 <= i < s.len(),
    ensures
        ({
            let after = spec_rotate(s, key);
            &&& after.len() == s.len() + 1
            &&& after[i].kid == s[i].kid
            &&& after[i].alg == s[i].alg
            &&& after[i].secret == s[i].secret
            &&& key_index(after, s[i].kid) == Some(i)
            &&& signing_index(after, key.alg) == Some(s.len() as int)
            &&& after[s.len() as int] == JsonWebKeyView { signing: true, ..key }
        }),
{
    let after = spec_rotate(s, key);
    assert(after[i].kid == s[i].kid);
    assert forall|k: int| 0 <= k < after.len() && k != i implies (#[trigger] after[k]).kid
        != s[i].kid by {
        if k < s.len() {
            assert(after[k].kid == s[k].kid);
            if k < i {
                assert(s[k].kid != s[i].kid);
            } else {
                assert(s[i].kid != s[k].kid);
            }
        } else {
            assert(after[k].kid == key.kid);
            assert(s[i].kid != key.kid);
        }
    }
    let n = s.len() as int;
    assert(after[n].alg == key.alg && after[n].signing);
    assert forall|k: int| 0 <= k < after.len() && k != n implies !((#[trigger] after[k]).alg
        == key.alg && after[k].signing) by {
        assert(after[k].alg == s[k].alg);
    }
}

} // verus!

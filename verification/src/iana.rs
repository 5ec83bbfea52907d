//! Registered protocol parameter values: signature algorithms and client
//! authentication methods, with their names on the wire.

use vstd::prelude::*;
use crate::bytes::bytes_eq;

verus! {

/// A JSON Web Signature `alg` header parameter value.
#[derive(Clone, Copy, Debug, PartialEq, Eq, Structural)]
pub enum JsonWebSignatureAlg {
    /// `HS256`: HMAC using SHA-256
    Hs256,
    /// `HS384`: HMAC using SHA-384
    Hs384,
    /// `HS512`: HMAC using SHA-512
    Hs512,
    /// `RS256`: RSASSA-PKCS1-v1_5 using SHA-256
    Rs256,
    /// `RS384`: RSASSA-PKCS1-v1_5 using SHA-384
    Rs384,
    /// `RS512`: RSASSA-PKCS1-v1_5 using SHA-512
    Rs512,
    /// `ES256`: ECDSA using P-256 and SHA-256
    Es256,
    /// `ES384`: ECDSA using P-384 and SHA-384
    Es384,
    /// `ES512`: ECDSA using P-521 and SHA-512
    Es512,
    /// `PS256`: RSASSA-PSS using SHA-256
    Ps256,
    /// `PS384`: RSASSA-PSS using SHA-384
    Ps384,
    /// `PS512`: RSASSA-PSS using SHA-512
    Ps512,
    /// `none`: no digital signature or MAC
    Unsecured,
    /// `EdDSA`: EdDSA signature algorithms
    EdDsa,
    /// `ES256K`: ECDSA using secp256k1 and SHA-256
    Es256K,
}

impl JsonWebSignatureAlg {
    /// The registered name of this value, as ASCII bytes.
    pub open spec fn spec_name(self) -> Seq<u8> {
        match self {
            // HS256
            JsonWebSignatureAlg::Hs256 => seq![72u8, 83u8, 50u8, 53u8, 54u8],
            // HS384
            JsonWebSignatureAlg::Hs384 => seq![72u8, 83u8, 51u8, 56u8, 52u8],
            // HS512
            JsonWebSignatureAlg::Hs512 => seq![72u8, 83u8, 53u8, 49u8, 50u8],
            // RS256
            JsonWebSignatureAlg::Rs256 => seq![82u8, 83u8, 50u8, 53u8, 54u8],
            // RS384
            JsonWebSignatureAlg::Rs384 => seq![82u8, 83u8, 51u8, 56u8, 52u8],
            // RS512
            JsonWebSignatureAlg::Rs512 => seq![82u8, 83u8, 53u8, 49u8, 50u8],
            // ES256
            JsonWebSignatureAlg::Es256 => seq![69u8, 83u8, 50u8, 53u8, 54u8],
            // ES384
            JsonWebSignatureAlg::Es384 => seq![69u8, 83u8, 51u8, 56u8, 52u8],
            // ES512
            JsonWebSignatureAlg::Es512 => seq![69u8, 83u8, 53u8, 49u8, 50u8],
            // PS256
            JsonWebSignatureAlg::Ps256 => seq![80u8, 83u8, 50u8, 53u8, 54u8],
            // PS384
            JsonWebSignatureAlg::Ps384 => seq![80u8, 83u8, 51u8, 56u8, 52u8],
            // PS512
            JsonWebSignatureAlg::Ps512 => seq![80u8, 83u8, 53u8, 49u8, 50u8],
            // none
            JsonWebSignatureAlg::Unsecured => seq![110u8, 111u8, 110u8, 101u8],
            // EdDSA
            JsonWebSignatureAlg::EdDsa => seq![69u8, 100u8, 68u8, 83u8, 65u8],
            // ES256K
            JsonWebSignatureAlg::Es256K => seq![69u8, 83u8, 50u8, 53u8, 54u8, 75u8],
        }
    }

    /// The registered name of this value, as ASCII bytes.
    pub fn name(&self) -> (r: Vec<u8>)
        ensures
            r@ == self.spec_name(),
    {
        match self {
            JsonWebSignatureAlg::Hs256 => vec![72u8, 83u8, 50u8, 53u8, 54u8],
            JsonWebSignatureAlg::Hs384 => vec![72u8, 83u8, 51u8, 56u8, 52u8],
            JsonWebSignatureAlg::Hs512 => vec![72u8, 83u8, 53u8, 49u8, 50u8],
            JsonWebSignatureAlg::Rs256 => vec![82u8, 83u8, 50u8, 53u8, 54u8],
            JsonWebSignatureAlg::Rs384 => vec![82u8, 83u8, 51u8, 56u8, 52u8],
            JsonWebSignatureAlg::Rs512 => vec![82u8, 83u8, 53u8, 49u8, 50u8],
            JsonWebSignatureAlg::Es256 => vec![69u8, 83u8, 50u8, 53u8, 54u8],
            JsonWebSignatureAlg::Es384 => vec![69u8, 83u8, 51u8, 56u8, 52u8],
            JsonWebSignatureAlg::Es512 => vec![69u8, 83u8, 53u8, 49u8, 50u8],
            JsonWebSignatureAlg::Ps256 => vec![80u8, 83u8, 50u8, 53u8, 54u8],
            JsonWebSignatureAlg::Ps384 => vec![80u8, 83u8, 51u8, 56u8, 52u8],
            JsonWebSignatureAlg::Ps512 => vec![80u8, 83u8, 53u8, 49u8, 50u8],
            JsonWebSignatureAlg::Unsecured => vec![110u8, 111u8, 110u8, 101u8],
            JsonWebSignatureAlg::EdDsa => vec![69u8, 100u8, 68u8, 83u8, 65u8],
            JsonWebSignatureAlg::Es256K => vec![69u8, 83u8, 50u8, 53u8, 54u8, 75u8],
        }
    }

    /// The value that `s` names, if it names one.
    pub open spec fn spec_parse(s: Seq<u8>) -> Option<JsonWebSignatureAlg> {
        if exists|v: JsonWebSignatureAlg| #[trigger] v.spec_name() == s {
            Some(choose|v: JsonWebSignatureAlg| #[trigger] v.spec_name() == s)
        } else {
            None
        }
    }

    /// Reads a registered name. Names are matched exactly, byte for byte.
    pub fn parse(s: &[u8]) -> (r: Option<JsonWebSignatureAlg>)
        ensures
            r == JsonWebSignatureAlg::spec_parse(s@),
            r matches Some(v) ==> v.spec_name() == s@,
            r is None ==> forall|v: JsonWebSignatureAlg| v.spec_name() != s@,
    {
        if bytes_eq(s, JsonWebSignatureAlg::Hs256.name().as_slice()) {
            proof {
                assert(JsonWebSignatureAlg::Hs256.spec_name() == s@);
                let w = choose|v: JsonWebSignatureAlg| #[trigger] v.spec_name() == s@;
                JsonWebSignatureAlg::lemma_name_injective(w, JsonWebSignatureAlg::Hs256);
            }
            return Some(JsonWebSignatureAlg::Hs256);
        }
        if bytes_eq(s, JsonWebSignatureAlg::Hs384.name().as_slice()) {
            proof {
                assert(JsonWebSignatureAlg::Hs384.spec_name() == s@);
                let w = choose|v: JsonWebSignatureAlg| #[trigger] v.spec_name() == s@;
                JsonWebSignatureAlg::lemma_name_injective(w, JsonWebSignatureAlg::Hs384);
            }
            return Some(JsonWebSignatureAlg::Hs384);
        }
        if bytes_eq(s, JsonWebSignatureAlg::Hs512.name().as_slice()) {
            proof {
                assert(JsonWebSignatureAlg::Hs512.spec_name() == s@);
                let w = choose|v: JsonWebSignatureAlg| #[trigger] v.spec_name() == s@;
                JsonWebSignatureAlg::lemma_name_injective(w, JsonWebSignatureAlg::Hs512);
            }
            return Some(JsonWebSignatureAlg::Hs512);
        }
        if bytes_eq(s, JsonWebSignatureAlg::Rs256.name().as_slice()) {
            proof {
                assert(JsonWebSignatureAlg::Rs256.spec_name() == s@);
                let w = choose|v: JsonWebSignatureAlg| #[trigger] v.spec_name() == s@;
                JsonWebSignatureAlg::lemma_name_injective(w, JsonWebSignatureAlg::Rs256);
            }
            return Some(JsonWebSignatureAlg::Rs256);
        }
        if bytes_eq(s, JsonWebSignatureAlg::Rs384.name().as_slice()) {
            proof {
                assert(JsonWebSignatureAlg::Rs384.spec_name() == s@);
                let w = choose|v: JsonWebSignatureAlg| #[trigger] v.spec_name() == s@;
                JsonWebSignatureAlg::lemma_name_injective(w, JsonWebSignatureAlg::Rs384);
            }
            return Some(JsonWebSignatureAlg::Rs384);
        }
        if bytes_eq(s, JsonWebSignatureAlg::Rs512.name().as_slice()) {
            proof {
                assert(JsonWebSignatureAlg::Rs512.spec_name() == s@);
                let w = choose|v: JsonWebSignatureAlg| #[trigger] v.spec_name() == s@;
                JsonWebSignatureAlg::lemma_name_injective(w, JsonWebSignatureAlg::Rs512);
            }
            return Some(JsonWebSignatureAlg::Rs512);
        }
        if bytes_eq(s, JsonWebSignatureAlg::Es256.name().as_slice()) {
            proof {
                assert(JsonWebSignatureAlg::Es256.spec_name() == s@);
                let w = choose|v: JsonWebSignatureAlg| #[trigger] v.spec_name() == s@;
                JsonWebSignatureAlg::lemma_name_injective(w, JsonWebSignatureAlg::Es256);
            }
            return Some(JsonWebSignatureAlg::Es256);
        }
        if bytes_eq(s, JsonWebSignatureAlg::Es384.name().as_slice()) {
            proof {
                assert(JsonWebSignatureAlg::Es384.spec_name() == s@);
                let w = choose|v: JsonWebSignatureAlg| #[trigger] v.spec_name() == s@;
                JsonWebSignatureAlg::lemma_name_injective(w, JsonWebSignatureAlg::Es384);
            }
            return Some(JsonWebSignatureAlg::Es384);
        }
        if bytes_eq(s, JsonWebSignatureAlg::Es512.name().as_slice()) {
            proof {
                assert(JsonWebSignatureAlg::Es512.spec_name() == s@);
                let w = choose|v: JsonWebSignatureAlg| #[trigger] v.spec_name() == s@;
                JsonWebSignatureAlg::lemma_name_injective(w, JsonWebSignatureAlg::Es512);
            }
            return Some(JsonWebSignatureAlg::Es512);
        }
        if bytes_eq(s, JsonWebSignatureAlg::Ps256.name().as_slice()) {
            proof {
                assert(JsonWebSignatureAlg::Ps256.spec_name() == s@);
                let w = choose|v: JsonWebSignatureAlg| #[trigger] v.spec_name() == s@;
                JsonWebSignatureAlg::lemma_name_injective(w, JsonWebSignatureAlg::Ps256);
            }
            return Some(JsonWebSignatureAlg::Ps256);
        }
        if bytes_eq(s, JsonWebSignatureAlg::Ps384.name().as_slice()) {
            proof {
                assert(JsonWebSignatureAlg::Ps384.spec_name() == s@);
                let w = choose|v: JsonWebSignatureAlg| #[trigger] v.spec_name() == s@;
                JsonWebSignatureAlg::lemma_name_injective(w, JsonWebSignatureAlg::Ps384);
            }
            return Some(JsonWebSignatureAlg::Ps384);
        }
        if bytes_eq(s, JsonWebSignatureAlg::Ps512.name().as_slice()) {
            proof {
                assert(JsonWebSignatureAlg::Ps512.spec_name() == s@);
                let w = choose|v: JsonWebSignatureAlg| #[trigger] v.spec_name() == s@;
                JsonWebSignatureAlg::lemma_name_injective(w, JsonWebSignatureAlg::Ps512);
            }
            return Some(JsonWebSignatureAlg::Ps512);
        }
        if bytes_eq(s, JsonWebSignatureAlg::Unsecured.name().as_slice()) {
            proof {
                assert(JsonWebSignatureAlg::Unsecured.spec_name() == s@);
                let w = choose|v: JsonWebSignatureAlg| #[trigger] v.spec_name() == s@;
                JsonWebSignatureAlg::lemma_name_injective(w, JsonWebSignatureAlg::Unsecured);
            }
            return Some(JsonWebSignatureAlg::Unsecured);
        }
        if bytes_eq(s, JsonWebSignatureAlg::EdDsa.name().as_slice()) {
            proof {
                assert(JsonWebSignatureAlg::EdDsa.spec_name() == s@);
                let w = choose|v: JsonWebSignatureAlg| #[trigger] v.spec_name() == s@;
                JsonWebSignatureAlg::lemma_name_injective(w, JsonWebSignatureAlg::EdDsa);
            }
            return Some(JsonWebSignatureAlg::EdDsa);
        }
        if bytes_eq(s, JsonWebSignatureAlg::Es256K.name().as_slice()) {
            proof {
                assert(JsonWebSignatureAlg::Es256K.spec_name() == s@);
                let w = choose|v: JsonWebSignatureAlg| #[trigger] v.spec_name() == s@;
                JsonWebSignatureAlg::lemma_name_injective(w, JsonWebSignatureAlg::Es256K);
            }
            return Some(JsonWebSignatureAlg::Es256K);
        }
        None
    }

    /// Distinct values have distinct names, so a name read back gives the
    /// value it was written from.
    pub proof fn lemma_name_injective(a: JsonWebSignatureAlg, b: JsonWebSignatureAlg)
        requires
            a.spec_name() == b.spec_name(),
        ensures
            a == b,
    {
        let x = a.spec_name();
        let y = b.spec_name();
        match a {
            JsonWebSignatureAlg::Hs256 => {
                assert(x.len() == 5);
                assert(x[0] == 72u8);
                assert(x[1] == 83u8);
                assert(x[2] == 50u8);
                assert(x[3] == 53u8);
                assert(x[4] == 54u8);
            },
            JsonWebSignatureAlg::Hs384 => {
                assert(x.len() == 5);
                assert(x[0] == 72u8);
                assert(x[1] == 83u8);
                assert(x[2] == 51u8);
                assert(x[3] == 56u8);
                assert(x[4] == 52u8);
            },
            JsonWebSignatureAlg::Hs512 => {
                assert(x.len() == 5);
                assert(x[0] == 72u8);
                assert(x[1] == 83u8);
                assert(x[2] == 53u8);
                assert(x[3] == 49u8);
                assert(x[4] == 50u8);
            },
            JsonWebSignatureAlg::Rs256 => {
                assert(x.len() == 5);
                assert(x[0] == 82u8);
                assert(x[1] == 83u8);
                assert(x[2] == 50u8);
                assert(x[3] == 53u8);
                assert(x[4] == 54u8);
            },
            JsonWebSignatureAlg::Rs384 => {
                assert(x.len() == 5);
                assert(x[0] == 82u8);
                assert(x[1] == 83u8);
                assert(x[2] == 51u8);
                assert(x[3] == 56u8);
                assert(x[4] == 52u8);
            },
            JsonWebSignatureAlg::Rs512 => {
                assert(x.len() == 5);
                assert(x[0] == 82u8);
                assert(x[1] == 83u8);
                assert(x[2] == 53u8);
                assert(x[3] == 49u8);
                assert(x[4] == 50u8);
            },
            JsonWebSignatureAlg::Es256 => {
                assert(x.len() == 5);
                assert(x[0] == 69u8);
                assert(x[1] == 83u8);
                assert(x[2] == 50u8);
                assert(x[3] == 53u8);
                assert(x[4] == 54u8);
            },
            JsonWebSignatureAlg::Es384 => {
                assert(x.len() == 5);
                assert(x[0] == 69u8);
                assert(x[1] == 83u8);
                assert(x[2] == 51u8);
                assert(x[3] == 56u8);
                assert(x[4] == 52u8);
            },
            JsonWebSignatureAlg::Es512 => {
                assert(x.len() == 5);
                assert(x[0] == 69u8);
                assert(x[1] == 83u8);
                assert(x[2] == 53u8);
                assert(x[3] == 49u8);
                assert(x[4] == 50u8);
            },
            JsonWebSignatureAlg::Ps256 => {
                assert(x.len() == 5);
                assert(x[0] == 80u8);
                assert(x[1] == 83u8);
                assert(x[2] == 50u8);
                assert(x[3] == 53u8);
                assert(x[4] == 54u8);
            },
            JsonWebSignatureAlg::Ps384 => {
                assert(x.len() == 5);
                assert(x[0] == 80u8);
                assert(x[1] == 83u8);
                assert(x[2] == 51u8);
                assert(x[3] == 56u8);
                assert(x[4] == 52u8);
            },
            JsonWebSignatureAlg::Ps512 => {
                assert(x.len() == 5);
                assert(x[0] == 80u8);
                assert(x[1] == 83u8);
                assert(x[2] == 53u8);
                assert(x[3] == 49u8);
                assert(x[4] == 50u8);
            },
            JsonWebSignatureAlg::Unsecured => {
                assert(x.len() == 4);
                assert(x[0] == 110u8);
                assert(x[1] == 111u8);
                assert(x[2] == 110u8);
                assert(x[3] == 101u8);
            },
            JsonWebSignatureAlg::EdDsa => {
                assert(x.len() == 5);
                assert(x[0] == 69u8);
                assert(x[1] == 100u8);
                assert(x[2] == 68u8);
                assert(x[3] == 83u8);
                assert(x[4] == 65u8);
            },
            JsonWebSignatureAlg::Es256K => {
                assert(x.len() == 6);
                assert(x[0] == 69u8);
                assert(x[1] == 83u8);
                assert(x[2] == 50u8);
                assert(x[3] == 53u8);
                assert(x[4] == 54u8);
                assert(x[5] == 75u8);
            },
        }
        match b {
            JsonWebSignatureAlg::Hs256 => {
                assert(y.len() == 5);
                assert(y[0] == 72u8);
                assert(y[1] == 83u8);
                assert(y[2] == 50u8);
                assert(y[3] == 53u8);
                assert(y[4] == 54u8);
            },
            JsonWebSignatureAlg::Hs384 => {
                assert(y.len() == 5);
                assert(y[0] == 72u8);
                assert(y[1] == 83u8);
                assert(y[2] == 51u8);
                assert(y[3] == 56u8);
                assert(y[4] == 52u8);
            },
            JsonWebSignatureAlg::Hs512 => {
                assert(y.len() == 5);
                assert(y[0] == 72u8);
                assert(y[1] == 83u8);
                assert(y[2] == 53u8);
                assert(y[3] == 49u8);
                assert(y[4] == 50u8);
            },
            JsonWebSignatureAlg::Rs256 => {
                assert(y.len() == 5);
                assert(y[0] == 82u8);
                assert(y[1] == 83u8);
                assert(y[2] == 50u8);
                assert(y[3] == 53u8);
                assert(y[4] == 54u8);
            },
            JsonWebSignatureAlg::Rs384 => {
                assert(y.len() == 5);
                assert(y[0] == 82u8);
                assert(y[1] == 83u8);
                assert(y[2] == 51u8);
                assert(y[3] == 56u8);
                assert(y[4] == 52u8);
            },
            JsonWebSignatureAlg::Rs512 => {
                assert(y.len() == 5);
                assert(y[0] == 82u8);
                assert(y[1] == 83u8);
                assert(y[2] == 53u8);
                assert(y[3] == 49u8);
                assert(y[4] == 50u8);
            },
            JsonWebSignatureAlg::Es256 => {
                assert(y.len() == 5);
                assert(y[0] == 69u8);
                assert(y[1] == 83u8);
                assert(y[2] == 50u8);
                assert(y[3] == 53u8);
                assert(y[4] == 54u8);
            },
            JsonWebSignatureAlg::Es384 => {
                assert(y.len() == 5);
                assert(y[0] == 69u8);
                assert(y[1] == 83u8);
                assert(y[2] == 51u8);
                assert(y[3] == 56u8);
                assert(y[4] == 52u8);
            },
            JsonWebSignatureAlg::Es512 => {
                assert(y.len() == 5);
                assert(y[0] == 69u8);
                assert(y[1] == 83u8);
                assert(y[2] == 53u8);
                assert(y[3] == 49u8);
                assert(y[4] == 50u8);
            },
            JsonWebSignatureAlg::Ps256 => {
                assert(y.len() == 5);
                assert(y[0] == 80u8);
                assert(y[1] == 83u8);
                assert(y[2] == 50u8);
                assert(y[3] == 53u8);
                assert(y[4] == 54u8);
            },
            JsonWebSignatureAlg::Ps384 => {
                assert(y.len() == 5);
                assert(y[0] == 80u8);
                assert(y[1] == 83u8);
                assert(y[2] == 51u8);
                assert(y[3] == 56u8);
                assert(y[4] == 52u8);
            },
            JsonWebSignatureAlg::Ps512 => {
                assert(y.len() == 5);
                assert(y[0] == 80u8);
                assert(y[1] == 83u8);
                assert(y[2] == 53u8);
                assert(y[3] == 49u8);
                assert(y[4] == 50u8);
            },
            JsonWebSignatureAlg::Unsecured => {
                assert(y.len() == 4);
                assert(y[0] == 110u8);
                assert(y[1] == 111u8);
                assert(y[2] == 110u8);
                assert(y[3] == 101u8);
            },
            JsonWebSignatureAlg::EdDsa => {
                assert(y.len() == 5);
                assert(y[0] == 69u8);
                assert(y[1] == 100u8);
                assert(y[2] == 68u8);
                assert(y[3] == 83u8);
                assert(y[4] == 65u8);
            },
            JsonWebSignatureAlg::Es256K => {
                assert(y.len() == 6);
                assert(y[0] == 69u8);
                assert(y[1] == 83u8);
                assert(y[2] == 50u8);
                assert(y[3] == 53u8);
                assert(y[4] == 54u8);
                assert(y[5] == 75u8);
            },
        }
    }
}

/// An OAuth token endpoint authentication method.
#[derive(Clone, Copy, Debug, PartialEq, Eq, Structural)]
pub enum OAuthClientAuthenticationMethod {
    /// `none`
    NoAuthentication,
    /// `client_secret_post`
    ClientSecretPost,
    /// `client_secret_basic`
    ClientSecretBasic,
    /// `client_secret_jwt`
    ClientSecretJwt,
    /// `private_key_jwt`
    PrivateKeyJwt,
    /// `tls_client_auth`
    TlsClientAuth,
    /// `self_signed_tls_client_auth`
    SelfSignedTlsClientAuth,
}

impl OAuthClientAuthenticationMethod {
    /// The registered name of this value, as ASCII bytes.
    pub open spec fn spec_name(self) -> Seq<u8> {
        match self {
            // none
            OAuthClientAuthenticationMethod::NoAuthentication => seq![110u8, 111u8, 110u8, 101u8],
            // client_secret_post
            OAuthClientAuthenticationMethod::ClientSecretPost => seq![99u8, 108u8, 105u8, 101u8, 110u8, 116u8, 95u8, 115u8, 101u8, 99u8, 114u8, 101u8, 116u8, 95u8, 112u8, 111u8, 115u8, 116u8],
            // client_secret_basic
            OAuthClientAuthenticationMethod::ClientSecretBasic => seq![99u8, 108u8, 105u8, 101u8, 110u8, 116u8, 95u8, 115u8, 101u8, 99u8, 114u8, 101u8, 116u8, 95u8, 98u8, 97u8, 115u8, 105u8, 99u8],
            // client_secret_jwt
            OAuthClientAuthenticationMethod::ClientSecretJwt => seq![99u8, 108u8, 105u8, 101u8, 110u8, 116u8, 95u8, 115u8, 101u8, 99u8, 114u8, 101u8, 116u8, 95u8, 106u8, 119u8, 116u8],
            // private_key_jwt
            OAuthClientAuthenticationMethod::PrivateKeyJwt => seq![112u8, 114u8, 105u8, 118u8, 97u8, 116u8, 101u8, 95u8, 107u8, 101u8, 121u8, 95u8, 106u8, 119u8, 116u8],
            // tls_client_auth
            OAuthClientAuthenticationMethod::TlsClientAuth => seq![116u8, 108u8, 115u8, 95u8, 99u8, 108u8, 105u8, 101u8, 110u8, 116u8, 95u8, 97u8, 117u8, 116u8, 104u8],
            // self_signed_tls_client_auth
            OAuthClientAuthenticationMethod::SelfSignedTlsClientAuth => seq![115u8, 101u8, 108u8, 102u8, 95u8, 115u8, 105u8, 103u8, 110u8, 101u8, 100u8, 95u8, 116u8, 108u8, 115u8, 95u8, 99u8, 108u8, 105u8, 101u8, 110u8, 116u8, 95u8, 97u8, 117u8, 116u8, 104u8],
        }
    }

    /// The registered name of this value, as ASCII bytes.
    pub fn name(&self) -> (r: Vec<u8>)
        ensures
            r@ == self.spec_name(),
    {
        match self {
            OAuthClientAuthenticationMethod::NoAuthentication => vec![110u8, 111u8, 110u8, 101u8],
            OAuthClientAuthenticationMethod::ClientSecretPost => vec![99u8, 108u8, 105u8, 101u8, 110u8, 116u8, 95u8, 115u8, 101u8, 99u8, 114u8, 101u8, 116u8, 95u8, 112u8, 111u8, 115u8, 116u8],
            OAuthClientAuthenticationMethod::ClientSecretBasic => vec![99u8, 108u8, 105u8, 101u8, 110u8, 116u8, 95u8, 115u8, 101u8, 99u8, 114u8, 101u8, 116u8, 95u8, 98u8, 97u8, 115u8, 105u8, 99u8],
            OAuthClientAuthenticationMethod::ClientSecretJwt => vec![99u8, 108u8, 105u8, 101u8, 110u8, 116u8, 95u8, 115u8, 101u8, 99u8, 114u8, 101u8, 116u8, 95u8, 106u8, 119u8, 116u8],
            OAuthClientAuthenticationMethod::PrivateKeyJwt => vec![112u8, 114u8, 105u8, 118u8, 97u8, 116u8, 101u8, 95u8, 107u8, 101u8, 121u8, 95u8, 106u8, 119u8, 116u8],
            OAuthClientAuthenticationMethod::TlsClientAuth => vec![116u8, 108u8, 115u8, 95u8, 99u8, 108u8, 105u8, 101u8, 110u8, 116u8, 95u8, 97u8, 117u8, 116u8, 104u8],
            OAuthClientAuthenticationMethod::SelfSignedTlsClientAuth => vec![115u8, 101u8, 108u8, 102u8, 95u8, 115u8, 105u8, 103u8, 110u8, 101u8, 100u8, 95u8, 116u8, 108u8, 115u8, 95u8, 99u8, 108u8, 105u8, 101u8, 110u8, 116u8, 95u8, 97u8, 117u8, 116u8, 104u8],
        }
    }

    /// The value that `s` names, if it names one.
    pub open spec fn spec_parse(s: Seq<u8>) -> Option<OAuthClientAuthenticationMethod> {
        if exists|v: OAuthClientAuthenticationMethod| #[trigger] v.spec_name() == s {
            Some(choose|v: OAuthClientAuthenticationMethod| #[trigger] v.spec_name() == s)
        } else {
            None
        }
    }

    /// Reads a registered name. Names are matched exactly, byte for byte.
    pub fn parse(s: &[u8]) -> (r: Option<OAuthClientAuthenticationMethod>)
        ensures
            r == OAuthClientAuthenticationMethod::spec_parse(s@),
            r matches Some(v) ==> v.spec_name() == s@,
            r is None ==> forall|v: OAuthClientAuthenticationMethod| v.spec_name() != s@,
    {
        if bytes_eq(s, OAuthClientAuthenticationMethod::NoAuthentication.name().as_slice()) {
            proof {
                assert(OAuthClientAuthenticationMethod::NoAuthentication.spec_name() == s@);
                let w = choose|v: OAuthClientAuthenticationMethod| #[trigger] v.spec_name() == s@;
                OAuthClientAuthenticationMethod::lemma_name_injective(w, OAuthClientAuthenticationMethod::NoAuthentication);
            }
            return Some(OAuthClientAuthenticationMethod::NoAuthentication);
        }
        if bytes_eq(s, OAuthClientAuthenticationMethod::ClientSecretPost.name().as_slice()) {
            proof {
                assert(OAuthClientAuthenticationMethod::ClientSecretPost.spec_name() == s@);
                let w = choose|v: OAuthClientAuthenticationMethod| #[trigger] v.spec_name() == s@;
                OAuthClientAuthenticationMethod::lemma_name_injective(w, OAuthClientAuthenticationMethod::ClientSecretPost);
            }
            return Some(OAuthClientAuthenticationMethod::ClientSecretPost);
        }
        if bytes_eq(s, OAuthClientAuthenticationMethod::ClientSecretBasic.name().as_slice()) {
            proof {
                assert(OAuthClientAuthenticationMethod::ClientSecretBasic.spec_name() == s@);
                let w = choose|v: OAuthClientAuthenticationMethod| #[trigger] v.spec_name() == s@;
                OAuthClientAuthenticationMethod::lemma_name_injective(w, OAuthClientAuthenticationMethod::ClientSecretBasic);
            }
            return Some(OAuthClientAuthenticationMethod::ClientSecretBasic);
        }
        if bytes_eq(s, OAuthClientAuthenticationMethod::ClientSecretJwt.name().as_slice()) {
            proof {
                assert(OAuthClientAuthenticationMethod::ClientSecretJwt.spec_name() == s@);
                let w = choose|v: OAuthClientAuthenticationMethod| #[trigger] v.spec_name() == s@;
                OAuthClientAuthenticationMethod::lemma_name_injective(w, OAuthClientAuthenticationMethod::ClientSecretJwt);
            }
            return Some(OAuthClientAuthenticationMethod::ClientSecretJwt);
        }
        if bytes_eq(s, OAuthClientAuthenticationMethod::PrivateKeyJwt.name().as_slice()) {
            proof {
                assert(OAuthClientAuthenticationMethod::PrivateKeyJwt.spec_name() == s@);
                let w = choose|v: OAuthClientAuthenticationMethod| #[trigger] v.spec_name() == s@;
                OAuthClientAuthenticationMethod::lemma_name_injective(w, OAuthClientAuthenticationMethod::PrivateKeyJwt);
            }
            return Some(OAuthClientAuthenticationMethod::PrivateKeyJwt);
        }
        if bytes_eq(s, OAuthClientAuthenticationMethod::TlsClientAuth.name().as_slice()) {
            proof {
                assert(OAuthClientAuthenticationMethod::TlsClientAuth.spec_name() == s@);
                let w = choose|v: OAuthClientAuthenticationMethod| #[trigger] v.spec_name() == s@;
                OAuthClientAuthenticationMethod::lemma_name_injective(w, OAuthClientAuthenticationMethod::TlsClientAuth);
            }
            return Some(OAuthClientAuthenticationMethod::TlsClientAuth);
        }
        if bytes_eq(s, OAuthClientAuthenticationMethod::SelfSignedTlsClientAuth.name().as_slice()) {
            proof {
                assert(OAuthClientAuthenticationMethod::SelfSignedTlsClientAuth.spec_name() == s@);
                let w = choose|v: OAuthClientAuthenticationMethod| #[trigger] v.spec_name() == s@;
                OAuthClientAuthenticationMethod::lemma_name_injective(w, OAuthClientAuthenticationMethod::SelfSignedTlsClientAuth);
            }
            return Some(OAuthClientAuthenticationMethod::SelfSignedTlsClientAuth);
        }
        None
    }

    /// Distinct values have distinct names, so a name read back gives the
    /// value it was written from.
    pub proof fn lemma_name_injective(a: OAuthClientAuthenticationMethod, b: OAuthClientAuthenticationMethod)
        requires
            a.spec_name() == b.spec_name(),
        ensures
            a == b,
    {
        let x = a.spec_name();
        let y = b.spec_name();
        match a {
            OAuthClientAuthenticationMethod::NoAuthentication => {
                assert(x.len() == 4);
                assert(x[0] == 110u8);
                assert(x[1] == 111u8);
                assert(x[2] == 110u8);
                assert(x[3] == 101u8);
            },
            OAuthClientAuthenticationMethod::ClientSecretPost => {
                assert(x.len() == 18);
                assert(x[0] == 99u8);
                assert(x[1] == 108u8);
                assert(x[2] == 105u8);
                assert(x[3] == 101u8);
                assert(x[4] == 110u8);
                assert(x[5] == 116u8);
                assert(x[6] == 95u8);
                assert(x[7] == 115u8);
                assert(x[8] == 101u8);
                assert(x[9] == 99u8);
                assert(x[10] == 114u8);
                assert(x[11] == 101u8);
                assert(x[12] == 116u8);
                assert(x[13] == 95u8);
                assert(x[14] == 112u8);
                assert(x[15] == 111u8);
                assert(x[16] == 115u8);
                assert(x[17] == 116u8);
            },
            OAuthClientAuthenticationMethod::ClientSecretBasic => {
                assert(x.len() == 19);
                assert(x[0] == 99u8);
                assert(x[1] == 108u8);
                assert(x[2] == 105u8);
                assert(x[3] == 101u8);
                assert(x[4] == 110u8);
                assert(x[5] == 116u8);
                assert(x[6] == 95u8);
                assert(x[7] == 115u8);
                assert(x[8] == 101u8);
                assert(x[9] == 99u8);
                assert(x[10] == 114u8);
                assert(x[11] == 101u8);
                assert(x[12] == 116u8);
                assert(x[13] == 95u8);
                assert(x[14] == 98u8);
                assert(x[15] == 97u8);
                assert(x[16] == 115u8);
                assert(x[17] == 105u8);
                assert(x[18] == 99u8);
            },
            OAuthClientAuthenticationMethod::ClientSecretJwt => {
                assert(x.len() == 17);
                assert(x[0] == 99u8);
                assert(x[1] == 108u8);
                assert(x[2] == 105u8);
                assert(x[3] == 101u8);
                assert(x[4] == 110u8);
                assert(x[5] == 116u8);
                assert(x[6] == 95u8);
                assert(x[7] == 115u8);
                assert(x[8] == 101u8);
                assert(x[9] == 99u8);
                assert(x[10] == 114u8);
                assert(x[11] == 101u8);
                assert(x[12] == 116u8);
                assert(x[13] == 95u8);
                assert(x[14] == 106u8);
                assert(x[15] == 119u8);
                assert(x[16] == 116u8);
            },
            OAuthClientAuthenticationMethod::PrivateKeyJwt => {
                assert(x.len() == 15);
                assert(x[0] == 112u8);
                assert(x[1] == 114u8);
                assert(x[2] == 105u8);
                assert(x[3] == 118u8);
                assert(x[4] == 97u8);
                assert(x[5] == 116u8);
                assert(x[6] == 101u8);
                assert(x[7] == 95u8);
                assert(x[8] == 107u8);
                assert(x[9] == 101u8);
                assert(x[10] == 121u8);
                assert(x[11] == 95u8);
                assert(x[12] == 106u8);
                assert(x[13] == 119u8);
                assert(x[14] == 116u8);
            },
            OAuthClientAuthenticationMethod::TlsClientAuth => {
                assert(x.len() == 15);
                assert(x[0] == 116u8);
                assert(x[1] == 108u8);
                assert(x[2] == 115u8);
                assert(x[3] == 95u8);
                assert(x[4] == 99u8);
                assert(x[5] == 108u8);
                assert(x[6] == 105u8);
                assert(x[7] == 101u8);
                assert(x[8] == 110u8);
                assert(x[9] == 116u8);
                assert(x[10] == 95u8);
                assert(x[11] == 97u8);
                assert(x[12] == 117u8);
                assert(x[13] == 116u8);
                assert(x[14] == 104u8);
            },
            OAuthClientAuthenticationMethod::SelfSignedTlsClientAuth => {
                assert(x.len() == 27);
                assert(x[0] == 115u8);
                assert(x[1] == 101u8);
                assert(x[2] == 108u8);
                assert(x[3] == 102u8);
                assert(x[4] == 95u8);
                assert(x[5] == 115u8);
                assert(x[6] == 105u8);
                assert(x[7] == 103u8);
                assert(x[8] == 110u8);
                assert(x[9] == 101u8);
                assert(x[10] == 100u8);
                assert(x[11] == 95u8);
                assert(x[12] == 116u8);
                assert(x[13] == 108u8);
                assert(x[14] == 115u8);
                assert(x[15] == 95u8);
                assert(x[16] == 99u8);
                assert(x[17] == 108u8);
                assert(x[18] == 105u8);
                assert(x[19] == 101u8);
                assert(x[20] == 110u8);
                assert(x[21] == 116u8);
                assert(x[22] == 95u8);
                assert(x[23] == 97u8);
                assert(x[24] == 117u8);
                assert(x[25] == 116u8);
                assert(x[26] == 104u8);
            },
        }
        match b {
            OAuthClientAuthenticationMethod::NoAuthentication => {
                assert(y.len() == 4);
                assert(y[0] == 110u8);
                assert(y[1] == 111u8);
                assert(y[2] == 110u8);
                assert(y[3] == 101u8);
            },
            OAuthClientAuthenticationMethod::ClientSecretPost => {
                assert(y.len() == 18);
                assert(y[0] == 99u8);
                assert(y[1] == 108u8);
                assert(y[2] == 105u8);
                assert(y[3] == 101u8);
                assert(y[4] == 110u8);
                assert(y[5] == 116u8);
                assert(y[6] == 95u8);
                assert(y[7] == 115u8);
                assert(y[8] == 101u8);
                assert(y[9] == 99u8);
                assert(y[10] == 114u8);
                assert(y[11] == 101u8);
                assert(y[12] == 116u8);
                assert(y[13] == 95u8);
                assert(y[14] == 112u8);
                assert(y[15] == 111u8);
                assert(y[16] == 115u8);
                assert(y[17] == 116u8);
            },
            OAuthClientAuthenticationMethod::ClientSecretBasic => {
                assert(y.len() == 19);
                assert(y[0] == 99u8);
                assert(y[1] == 108u8);
                assert(y[2] == 105u8);
                assert(y[3] == 101u8);
                assert(y[4] == 110u8);
                assert(y[5] == 116u8);
                assert(y[6] == 95u8);
                assert(y[7] == 115u8);
                assert(y[8] == 101u8);
                assert(y[9] == 99u8);
                assert(y[10] == 114u8);
                assert(y[11] == 101u8);
                assert(y[12] == 116u8);
                assert(y[13] == 95u8);
                assert(y[14] == 98u8);
                assert(y[15] == 97u8);
                assert(y[16] == 115u8);
                assert(y[17] == 105u8);
                assert(y[18] == 99u8);
            },
            OAuthClientAuthenticationMethod::ClientSecretJwt => {
                assert(y.len() == 17);
                assert(y[0] == 99u8);
                assert(y[1] == 108u8);
                assert(y[2] == 105u8);
                assert(y[3] == 101u8);
                assert(y[4] == 110u8);
                assert(y[5] == 116u8);
                assert(y[6] == 95u8);
                assert(y[7] == 115u8);
                assert(y[8] == 101u8);
                assert(y[9] == 99u8);
                assert(y[10] == 114u8);
                assert(y[11] == 101u8);
                assert(y[12] == 116u8);
                assert(y[13] == 95u8);
                assert(y[14] == 106u8);
                assert(y[15] == 119u8);
                assert(y[16] == 116u8);
            },
            OAuthClientAuthenticationMethod::PrivateKeyJwt => {
                assert(y.len() == 15);
                assert(y[0] == 112u8);
                assert(y[1] == 114u8);
                assert(y[2] == 105u8);
                assert(y[3] == 118u8);
                assert(y[4] == 97u8);
                assert(y[5] == 116u8);
                assert(y[6] == 101u8);
                assert(y[7] == 95u8);
                assert(y[8] == 107u8);
                assert(y[9] == 101u8);
                assert(y[10] == 121u8);
                assert(y[11] == 95u8);
                assert(y[12] == 106u8);
                assert(y[13] == 119u8);
                assert(y[14] == 116u8);
            },
            OAuthClientAuthenticationMethod::TlsClientAuth => {
                assert(y.len() == 15);
                assert(y[0] == 116u8);
                assert(y[1] == 108u8);
                assert(y[2] == 115u8);
                assert(y[3] == 95u8);
                assert(y[4] == 99u8);
                assert(y[5] == 108u8);
                assert(y[6] == 105u8);
                assert(y[7] == 101u8);
                assert(y[8] == 110u8);
                assert(y[9] == 116u8);
                assert(y[10] == 95u8);
                assert(y[11] == 97u8);
                assert(y[12] == 117u8);
                assert(y[13] == 116u8);
                assert(y[14] == 104u8);
            },
            OAuthClientAuthenticationMethod::SelfSignedTlsClientAuth => {
                assert(y.len() == 27);
                assert(y[0] == 115u8);
                assert(y[1] == 101u8);
                assert(y[2] == 108u8);
                assert(y[3] == 102u8);
                assert(y[4] == 95u8);
                assert(y[5] == 115u8);
                assert(y[6] == 105u8);
                assert(y[7] == 103u8);
                assert(y[8] == 110u8);
                assert(y[9] == 101u8);
                assert(y[10] == 100u8);
                assert(y[11] == 95u8);
                assert(y[12] == 116u8);
                assert(y[13] == 108u8);
                assert(y[14] == 115u8);
                assert(y[15] == 95u8);
                assert(y[16] == 99u8);
                assert(y[17] == 108u8);
                assert(y[18] == 105u8);
                assert(y[19] == 101u8);
                assert(y[20] == 110u8);
                assert(y[21] == 116u8);
                assert(y[22] == 95u8);
                assert(y[23] == 97u8);
                assert(y[24] == 117u8);
                assert(y[25] == 116u8);
                assert(y[26] == 104u8);
            },
        }
    }
}

/// A PKCE code challenge method.
#[derive(Clone, Copy, Debug, PartialEq, Eq, Structural)]
pub enum PkceCodeChallengeMethod {
    /// `plain`: the challenge is the verifier
    Plain,
    /// `S256`: the challenge is the unpadded base64url text of the verifier's SHA-256 digest
    S256,
}

impl PkceCodeChallengeMethod {
    /// The registered name of this value, as ASCII bytes.
    pub open spec fn spec_name(self) -> Seq<u8> {
        match self {
            // plain
            PkceCodeChallengeMethod::Plain => seq![112u8, 108u8, 97u8, 105u8, 110u8],
            // S256
            PkceCodeChallengeMethod::S256 => seq![83u8, 50u8, 53u8, 54u8],
        }
    }

    /// The registered name of this value, as ASCII bytes.
    pub fn name(&self) -> (r: Vec<u8>)
        ensures
            r@ == self.spec_name(),
    {
        match self {
            PkceCodeChallengeMethod::Plain => vec![112u8, 108u8, 97u8, 105u8, 110u8],
            PkceCodeChallengeMethod::S256 => vec![83u8, 50u8, 53u8, 54u8],
        }
    }

    /// The value that `s` names, if it names one.
    pub open spec fn spec_parse(s: Seq<u8>) -> Option<PkceCodeChallengeMethod> {
        if exists|v: PkceCodeChallengeMethod| #[trigger] v.spec_name() == s {
            Some(choose|v: PkceCodeChallengeMethod| #[trigger] v.spec_name() == s)
        } else {
            None
        }
    }

    /// Reads a registered name. Names are matched exactly, byte for byte.
    pub fn parse(s: &[u8]) -> (r: Option<PkceCodeChallengeMethod>)
        ensures
            r == PkceCodeChallengeMethod::spec_parse(s@),
            r matches Some(v) ==> v.spec_name() == s@,
            r is None ==> forall|v: PkceCodeChallengeMethod| v.spec_name() != s@,
    {
        if bytes_eq(s, PkceCodeChallengeMethod::Plain.name().as_slice()) {
            proof {
                assert(PkceCodeChallengeMethod::Plain.spec_name() == s@);
                let w = choose|v: PkceCodeChallengeMethod| #[trigger] v.spec_name() == s@;
                PkceCodeChallengeMethod::lemma_name_injective(w, PkceCodeChallengeMethod::Plain);
            }
            return Some(PkceCodeChallengeMethod::Plain);
        }
        if bytes_eq(s, PkceCodeChallengeMethod::S256.name().as_slice()) {
            proof {
                assert(PkceCodeChallengeMethod::S256.spec_name() == s@);
                let w = choose|v: PkceCodeChallengeMethod| #[trigger] v.spec_name() == s@;
                PkceCodeChallengeMethod::lemma_name_injective(w, PkceCodeChallengeMethod::S256);
            }
            return Some(PkceCodeChallengeMethod::S256);
        }
        None
    }

    /// Distinct values have distinct names, so a name read back gives the
    /// value it was written from.
    pub proof fn lemma_name_injective(a: PkceCodeChallengeMethod, b: PkceCodeChallengeMethod)
        requires
            a.spec_name() == b.spec_name(),
        ensures
            a == b,
    {
        let x = a.spec_name();
        let y = b.spec_name();
        match a {
            PkceCodeChallengeMethod::Plain => {
                assert(x.len() == 5);
                assert(x[0] == 112u8);
                assert(x[1] == 108u8);
                assert(x[2] == 97u8);
                assert(x[3] == 105u8);
                assert(x[4] == 110u8);
            },
            PkceCodeChallengeMethod::S256 => {
                assert(x.len() == 4);
                assert(x[0] == 83u8);
                assert(x[1] == 50u8);
                assert(x[2] == 53u8);
                assert(x[3] == 54u8);
            },
        }
        match b {
            PkceCodeChallengeMethod::Plain => {
                assert(y.len() == 5);
                assert(y[0] == 112u8);
                assert(y[1] == 108u8);
                assert(y[2] == 97u8);
                assert(y[3] == 105u8);
                assert(y[4] == 110u8);
            },
            PkceCodeChallengeMethod::S256 => {
                assert(y.len() == 4);
                assert(y[0] == 83u8);
                assert(y[1] == 50u8);
                assert(y[2] == 53u8);
                assert(y[3] == 54u8);
            },
        }
    }
}

/// An OAuth 2.0 grant type.
#[derive(Clone, Copy, Debug, PartialEq, Eq, Structural)]
pub enum GrantType {
    /// `authorization_code`
    AuthorizationCode,
    /// `refresh_token`
    RefreshToken,
}

impl GrantType {
    /// The registered name of this value, as ASCII bytes.
    pub open spec fn spec_name(self) -> Seq<u8> {
        match self {
            // authorization_code
            GrantType::AuthorizationCode => seq![97u8, 117u8, 116u8, 104u8, 111u8, 114u8, 105u8, 122u8, 97u8, 116u8, 105u8, 111u8, 110u8, 95u8, 99u8, 111u8, 100u8, 101u8],
            // refresh_token
            GrantType::RefreshToken => seq![114u8, 101u8, 102u8, 114u8, 101u8, 115u8, 104u8, 95u8, 116u8, 111u8, 107u8, 101u8, 110u8],
        }
    }

    /// The registered name of this value, as ASCII bytes.
    pub fn name(&self) -> (r: Vec<u8>)
        ensures
            r@ == self.spec_name(),
    {
        match self {
            GrantType::AuthorizationCode => vec![97u8, 117u8, 116u8, 104u8, 111u8, 114u8, 105u8, 122u8, 97u8, 116u8, 105u8, 111u8, 110u8, 95u8, 99u8, 111u8, 100u8, 101u8],
            GrantType::RefreshToken => vec![114u8, 101u8, 102u8, 114u8, 101u8, 115u8, 104u8, 95u8, 116u8, 111u8, 107u8, 101u8, 110u8],
        }
    }

    /// The value that `s` names, if it names one.
    pub open spec fn spec_parse(s: Seq<u8>) -> Option<GrantType> {
        if exists|v: GrantType| #[trigger] v.spec_name() == s {
            Some(choose|v: GrantType| #[trigger] v.spec_name() == s)
        } else {
            None
        }
    }

    /// Reads a registered name. Names are matched exactly, byte for byte.
    pub fn parse(s: &[u8]) -> (r: Option<GrantType>)
        ensures
            r == GrantType::spec_parse(s@),
            r matches Some(v) ==> v.spec_name() == s@,
            r is None ==> forall|v: GrantType| v.spec_name() != s@,
    {
        if bytes_eq(s, GrantType::AuthorizationCode.name().as_slice()) {
            proof {
                assert(GrantType::AuthorizationCode.spec_name() == s@);
                let w = choose|v: GrantType| #[trigger] v.spec_name() == s@;
                GrantType::lemma_name_injective(w, GrantType::AuthorizationCode);
            }
            return Some(GrantType::AuthorizationCode);
        }
        if bytes_eq(s, GrantType::RefreshToken.name().as_slice()) {
            proof {
                assert(GrantType::RefreshToken.spec_name() == s@);
                let w = choose|v: GrantType| #[trigger] v.spec_name() == s@;
                GrantType::lemma_name_injective(w, GrantType::RefreshToken);
            }
            return Some(GrantType::RefreshToken);
        }
        None
    }

    /// Distinct values have distinct names, so a name read back gives the
    /// value it was written from.
    pub proof fn lemma_name_injective(a: GrantType, b: GrantType)
        requires
            a.spec_name() == b.spec_name(),
        ensures
            a == b,
    {
        let x = a.spec_name();
        let y = b.spec_name();
        match a {
            GrantType::AuthorizationCode => {
                assert(x.len() == 18);
                assert(x[0] == 97u8);
                assert(x[1] == 117u8);
                assert(x[2] == 116u8);
                assert(x[3] == 104u8);
                assert(x[4] == 111u8);
                assert(x[5] == 114u8);
                assert(x[6] == 105u8);
                assert(x[7] == 122u8);
                assert(x[8] == 97u8);
                assert(x[9] == 116u8);
                assert(x[10] == 105u8);
                assert(x[11] == 111u8);
                assert(x[12] == 110u8);
                assert(x[13] == 95u8);
                assert(x[14] == 99u8);
                assert(x[15] == 111u8);
                assert(x[16] == 100u8);
                assert(x[17] == 101u8);
            },
            GrantType::RefreshToken => {
                assert(x.len() == 13);
                assert(x[0] == 114u8);
                assert(x[1] == 101u8);
                assert(x[2] == 102u8);
                assert(x[3] == 114u8);
                assert(x[4] == 101u8);
                assert(x[5] == 115u8);
                assert(x[6] == 104u8);
                assert(x[7] == 95u8);
                assert(x[8] == 116u8);
                assert(x[9] == 111u8);
                assert(x[10] == 107u8);
                assert(x[11] == 101u8);
                assert(x[12] == 110u8);
            },
        }
        match b {
            GrantType::AuthorizationCode => {
                assert(y.len() == 18);
                assert(y[0] == 97u8);
                assert(y[1] == 117u8);
                assert(y[2] == 116u8);
                assert(y[3] == 104u8);
                assert(y[4] == 111u8);
                assert(y[5] == 114u8);
                assert(y[6] == 105u8);
                assert(y[7] == 122u8);
                assert(y[8] == 97u8);
                assert(y[9] == 116u8);
                assert(y[10] == 105u8);
                assert(y[11] == 111u8);
                assert(y[12] == 110u8);
                assert(y[13] == 95u8);
                assert(y[14] == 99u8);
                assert(y[15] == 111u8);
                assert(y[16] == 100u8);
                assert(y[17] == 101u8);
            },
            GrantType::RefreshToken => {
                assert(y.len() == 13);
                assert(y[0] == 114u8);
                assert(y[1] == 101u8);
                assert(y[2] == 102u8);
                assert(y[3] == 114u8);
                assert(y[4] == 101u8);
                assert(y[5] == 115u8);
                assert(y[6] == 104u8);
                assert(y[7] == 95u8);
                assert(y[8] == 116u8);
                assert(y[9] == 111u8);
                assert(y[10] == 107u8);
                assert(y[11] == 101u8);
                assert(y[12] == 110u8);
            },
        }
    }
}

/// An OAuth 2.0 response type of the authorization-code flow.
#[derive(Clone, Copy, Debug, PartialEq, Eq, Structural)]
pub enum ResponseType {
    /// `code`
    Code,
    /// `code id_token`
    CodeIdToken,
}

impl ResponseType {
    /// The registered name of this value, as ASCII bytes.
    pub open spec fn spec_name(self) -> Seq<u8> {
        match self {
            // code
            ResponseType::Code => seq![99u8, 111u8, 100u8, 101u8],
            // code id_token
            ResponseType::CodeIdToken => seq![99u8, 111u8, 100u8, 101u8, 32u8, 105u8, 100u8, 95u8, 116u8, 111u8, 107u8, 101u8, 110u8],
        }
    }

    /// The registered name of this value, as ASCII bytes.
    pub fn name(&self) -> (r: Vec<u8>)
        ensures
            r@ == self.spec_name(),
    {
        match self {
            ResponseType::Code => vec![99u8, 111u8, 100u8, 101u8],
            ResponseType::CodeIdToken => vec![99u8, 111u8, 100u8, 101u8, 32u8, 105u8, 100u8, 95u8, 116u8, 111u8, 107u8, 101u8, 110u8],
        }
    }

    /// The value that `s` names, if it names one.
    pub open spec fn spec_parse(s: Seq<u8>) -> Option<ResponseType> {
        if exists|v: ResponseType| #[trigger] v.spec_name() == s {
            Some(choose|v: ResponseType| #[trigger] v.spec_name() == s)
        } else {
            None
        }
    }

    /// Reads a registered name. Names are matched exactly, byte for byte.
    pub fn parse(s: &[u8]) -> (r: Option<ResponseType>)
        ensures
            r == ResponseType::spec_parse(s@),
            r matches Some(v) ==> v.spec_name() == s@,
            r is None ==> forall|v: ResponseType| v.spec_name() != s@,
    {
        if bytes_eq(s, ResponseType::Code.name().as_slice()) {
            proof {
                assert(ResponseType::Code.spec_name() == s@);
                let w = choose|v: ResponseType| #[trigger] v.spec_name() == s@;
                ResponseType::lemma_name_injective(w, ResponseType::Code);
            }
            return Some(ResponseType::Code);
        }
        if bytes_eq(s, ResponseType::CodeIdToken.name().as_slice()) {
            proof {
                assert(ResponseType::CodeIdToken.spec_name() == s@);
                let w = choose|v: ResponseType| #[trigger] v.spec_name() == s@;
                ResponseType::lemma_name_injective(w, ResponseType::CodeIdToken);
            }
            return Some(ResponseType::CodeIdToken);
        }
        None
    }

    /// Distinct values have distinct names, so a name read back gives the
    /// value it was written from.
    pub proof fn lemma_name_injective(a: ResponseType, b: ResponseType)
        requires
            a.spec_name() == b.spec_name(),
        ensures
            a == b,
    {
        let x = a.spec_name();
        let y = b.spec_name();
        match a {
            ResponseType::Code => {
                assert(x.len() == 4);
                assert(x[0] == 99u8);
                assert(x[1] == 111u8);
                assert(x[2] == 100u8);
                assert(x[3] == 101u8);
            },
            ResponseType::CodeIdToken => {
                assert(x.len() == 13);
                assert(x[0] == 99u8);
                assert(x[1] == 111u8);
                assert(x[2] == 100u8);
                assert(x[3] == 101u8);
                assert(x[4] == 32u8);
                assert(x[5] == 105u8);
                assert(x[6] == 100u8);
                assert(x[7] == 95u8);
                assert(x[8] == 116u8);
                assert(x[9] == 111u8);
                assert(x[10] == 107u8);
                assert(x[11] == 101u8);
                assert(x[12] == 110u8);
            },
        }
        match b {
            ResponseType::Code => {
                assert(y.len() == 4);
                assert(y[0] == 99u8);
                assert(y[1] == 111u8);
                assert(y[2] == 100u8);
                assert(y[3] == 101u8);
            },
            ResponseType::CodeIdToken => {
                assert(y.len() == 13);
                assert(y[0] == 99u8);
                assert(y[1] == 111u8);
                assert(y[2] == 100u8);
                assert(y[3] == 101u8);
                assert(y[4] == 32u8);
                assert(y[5] == 105u8);
                assert(y[6] == 100u8);
                assert(y[7] == 95u8);
                assert(y[8] == 116u8);
                assert(y[9] == 111u8);
                assert(y[10] == 107u8);
                assert(y[11] == 101u8);
                assert(y[12] == 110u8);
            },
        }
    }
}

/// An error code of the authorization and token endpoints.
#[derive(Clone, Copy, Debug, PartialEq, Eq, Structural)]
pub enum OAuthErrorCode {
    /// `invalid_request`
    InvalidRequest,
    /// `invalid_client`
    InvalidClient,
    /// `invalid_grant`
    InvalidGrant,
    /// `unauthorized_client`
    UnauthorizedClient,
    /// `unsupported_grant_type`
    UnsupportedGrantType,
    /// `invalid_scope`
    InvalidScope,
    /// `access_denied`
    AccessDenied,
    /// `server_error`
    ServerError,
}

impl OAuthErrorCode {
    /// The registered name of this value, as ASCII bytes.
    pub open spec fn spec_name(self) -> Seq<u8> {
        match self {
            // invalid_request
            OAuthErrorCode::InvalidRequest => seq![105u8, 110u8, 118u8, 97u8, 108u8, 105u8, 100u8, 95u8, 114u8, 101u8, 113u8, 117u8, 101u8, 115u8, 116u8],
            // invalid_client
            OAuthErrorCode::InvalidClient => seq![105u8, 110u8, 118u8, 97u8, 108u8, 105u8, 100u8, 95u8, 99u8, 108u8, 105u8, 101u8, 110u8, 116u8],
            // invalid_grant
            OAuthErrorCode::InvalidGrant => seq![105u8, 110u8, 118u8, 97u8, 108u8, 105u8, 100u8, 95u8, 103u8, 114u8, 97u8, 110u8, 116u8],
            // unauthorized_client
            OAuthErrorCode::UnauthorizedClient => seq![117u8, 110u8, 97u8, 117u8, 116u8, 104u8, 111u8, 114u8, 105u8, 122u8, 101u8, 100u8, 95u8, 99u8, 108u8, 105u8, 101u8, 110u8, 116u8],
            // unsupported_grant_type
            OAuthErrorCode::UnsupportedGrantType => seq![117u8, 110u8, 115u8, 117u8, 112u8, 112u8, 111u8, 114u8, 116u8, 101u8, 100u8, 95u8, 103u8, 114u8, 97u8, 110u8, 116u8, 95u8, 116u8, 121u8, 112u8, 101u8],
            // invalid_scope
            OAuthErrorCode::InvalidScope => seq![105u8, 110u8, 118u8, 97u8, 108u8, 105u8, 100u8, 95u8, 115u8, 99u8, 111u8, 112u8, 101u8],
            // access_denied
            OAuthErrorCode::AccessDenied => seq![97u8, 99u8, 99u8, 101u8, 115u8, 115u8, 95u8, 100u8, 101u8, 110u8, 105u8, 101u8, 100u8],
            // server_error
            OAuthErrorCode::ServerError => seq![115u8, 101u8, 114u8, 118u8, 101u8, 114u8, 95u8, 101u8, 114u8, 114u8, 111u8, 114u8],
        }
    }

    /// The registered name of this value, as ASCII bytes.
    pub fn name(&self) -> (r: Vec<u8>)
        ensures
            r@ == self.spec_name(),
    {
        match self {
            OAuthErrorCode::InvalidRequest => vec![105u8, 110u8, 118u8, 97u8, 108u8, 105u8, 100u8, 95u8, 114u8, 101u8, 113u8, 117u8, 101u8, 115u8, 116u8],
            OAuthErrorCode::InvalidClient => vec![105u8, 110u8, 118u8, 97u8, 108u8, 105u8, 100u8, 95u8, 99u8, 108u8, 105u8, 101u8, 110u8, 116u8],
            OAuthErrorCode::InvalidGrant => vec![105u8, 110u8, 118u8, 97u8, 108u8, 105u8, 100u8, 95u8, 103u8, 114u8, 97u8, 110u8, 116u8],
            OAuthErrorCode::UnauthorizedClient => vec![117u8, 110u8, 97u8, 117u8, 116u8, 104u8, 111u8, 114u8, 105u8, 122u8, 101u8, 100u8, 95u8, 99u8, 108u8, 105u8, 101u8, 110u8, 116u8],
            OAuthErrorCode::UnsupportedGrantType => vec![117u8, 110u8, 115u8, 117u8, 112u8, 112u8, 111u8, 114u8, 116u8, 101u8, 100u8, 95u8, 103u8, 114u8, 97u8, 110u8, 116u8, 95u8, 116u8, 121u8, 112u8, 101u8],
            OAuthErrorCode::InvalidScope => vec![105u8, 110u8, 118u8, 97u8, 108u8, 105u8, 100u8, 95u8, 115u8, 99u8, 111u8, 112u8, 101u8],
            OAuthErrorCode::AccessDenied => vec![97u8, 99u8, 99u8, 101u8, 115u8, 115u8, 95u8, 100u8, 101u8, 110u8, 105u8, 101u8, 100u8],
            OAuthErrorCode::ServerError => vec![115u8, 101u8, 114u8, 118u8, 101u8, 114u8, 95u8, 101u8, 114u8, 114u8, 111u8, 114u8],
        }
    }

    /// The value that `s` names, if it names one.
    pub open spec fn spec_parse(s: Seq<u8>) -> Option<OAuthErrorCode> {
        if exists|v: OAuthErrorCode| #[trigger] v.spec_name() == s {
            Some(choose|v: OAuthErrorCode| #[trigger] v.spec_name() == s)
        } else {
            None
        }
    }

    /// Reads a registered name. Names are matched exactly, byte for byte.
    pub fn parse(s: &[u8]) -> (r: Option<OAuthErrorCode>)
        ensures
            r == OAuthErrorCode::spec_parse(s@),
            r matches Some(v) ==> v.spec_name() == s@,
            r is None ==> forall|v: OAuthErrorCode| v.spec_name() != s@,
    {
        if bytes_eq(s, OAuthErrorCode::InvalidRequest.name().as_slice()) {
            proof {
                assert(OAuthErrorCode::InvalidRequest.spec_name() == s@);
                let w = choose|v: OAuthErrorCode| #[trigger] v.spec_name() == s@;
                OAuthErrorCode::lemma_name_injective(w, OAuthErrorCode::InvalidRequest);
            }
            return Some(OAuthErrorCode::InvalidRequest);
        }
        if bytes_eq(s, OAuthErrorCode::InvalidClient.name().as_slice()) {
            proof {
                assert(OAuthErrorCode::InvalidClient.spec_name() == s@);
                let w = choose|v: OAuthErrorCode| #[trigger] v.spec_name() == s@;
                OAuthErrorCode::lemma_name_injective(w, OAuthErrorCode::InvalidClient);
            }
            return Some(OAuthErrorCode::InvalidClient);
        }
        if bytes_eq(s, OAuthErrorCode::InvalidGrant.name().as_slice()) {
            proof {
                assert(OAuthErrorCode::InvalidGrant.spec_name() == s@);
                let w = choose|v: OAuthErrorCode| #[trigger] v.spec_name() == s@;
                OAuthErrorCode::lemma_name_injective(w, OAuthErrorCode::InvalidGrant);
            }
            return Some(OAuthErrorCode::InvalidGrant);
        }
        if bytes_eq(s, OAuthErrorCode::UnauthorizedClient.name().as_slice()) {
            proof {
                assert(OAuthErrorCode::UnauthorizedClient.spec_name() == s@);
                let w = choose|v: OAuthErrorCode| #[trigger] v.spec_name() == s@;
                OAuthErrorCode::lemma_name_injective(w, OAuthErrorCode::UnauthorizedClient);
            }
            return Some(OAuthErrorCode::UnauthorizedClient);
        }
        if bytes_eq(s, OAuthErrorCode::UnsupportedGrantType.name().as_slice()) {
            proof {
                assert(OAuthErrorCode::UnsupportedGrantType.spec_name() == s@);
                let w = choose|v: OAuthErrorCode| #[trigger] v.spec_name() == s@;
                OAuthErrorCode::lemma_name_injective(w, OAuthErrorCode::UnsupportedGrantType);
            }
            return Some(OAuthErrorCode::UnsupportedGrantType);
        }
        if bytes_eq(s, OAuthErrorCode::InvalidScope.name().as_slice()) {
            proof {
                assert(OAuthErrorCode::InvalidScope.spec_name() == s@);
                let w = choose|v: OAuthErrorCode| #[trigger] v.spec_name() == s@;
                OAuthErrorCode::lemma_name_injective(w, OAuthErrorCode::InvalidScope);
            }
            return Some(OAuthErrorCode::InvalidScope);
        }
        if bytes_eq(s, OAuthErrorCode::AccessDenied.name().as_slice()) {
            proof {
                assert(OAuthErrorCode::AccessDenied.spec_name() == s@);
                let w = choose|v: OAuthErrorCode| #[trigger] v.spec_name() == s@;
                OAuthErrorCode::lemma_name_injective(w, OAuthErrorCode::AccessDenied);
            }
            return Some(OAuthErrorCode::AccessDenied);
        }
        if bytes_eq(s, OAuthErrorCode::ServerError.name().as_slice()) {
            proof {
                assert(OAuthErrorCode::ServerError.spec_name() == s@);
                let w = choose|v: OAuthErrorCode| #[trigger] v.spec_name() == s@;
                OAuthErrorCode::lemma_name_injective(w, OAuthErrorCode::ServerError);
            }
            return Some(OAuthErrorCode::ServerError);
        }
        None
    }

    /// Distinct values have distinct names, so a name read back gives the
    /// value it was written from.
    pub proof fn lemma_name_injective(a: OAuthErrorCode, b: OAuthErrorCode)
        requires
            a.spec_name() == b.spec_name(),
        ensures
            a == b,
    {
        let x = a.spec_name();
        let y = b.spec_name();
        match a {
            OAuthErrorCode::InvalidRequest => {
                assert(x.len() == 15);
                assert(x[0] == 105u8);
                assert(x[1] == 110u8);
                assert(x[2] == 118u8);
                assert(x[3] == 97u8);
                assert(x[4] == 108u8);
                assert(x[5] == 105u8);
                assert(x[6] == 100u8);
                assert(x[7] == 95u8);
                assert(x[8] == 114u8);
                assert(x[9] == 101u8);
                assert(x[10] == 113u8);
                assert(x[11] == 117u8);
                assert(x[12] == 101u8);
                assert(x[13] == 115u8);
                assert(x[14] == 116u8);
            },
            OAuthErrorCode::InvalidClient => {
                assert(x.len() == 14);
                assert(x[0] == 105u8);
                assert(x[1] == 110u8);
                assert(x[2] == 118u8);
                assert(x[3] == 97u8);
                assert(x[4] == 108u8);
                assert(x[5] == 105u8);
                assert(x[6] == 100u8);
                assert(x[7] == 95u8);
                assert(x[8] == 99u8);
                assert(x[9] == 108u8);
                assert(x[10] == 105u8);
                assert(x[11] == 101u8);
                assert(x[12] == 110u8);
                assert(x[13] == 116u8);
            },
            OAuthErrorCode::InvalidGrant => {
                assert(x.len() == 13);
                assert(x[0] == 105u8);
                assert(x[1] == 110u8);
                assert(x[2] == 118u8);
                assert(x[3] == 97u8);
                assert(x[4] == 108u8);
                assert(x[5] == 105u8);
                assert(x[6] == 100u8);
                assert(x[7] == 95u8);
                assert(x[8] == 103u8);
                assert(x[9] == 114u8);
                assert(x[10] == 97u8);
                assert(x[11] == 110u8);
                assert(x[12] == 116u8);
            },
            OAuthErrorCode::UnauthorizedClient => {
                assert(x.len() == 19);
                assert(x[0] == 117u8);
                assert(x[1] == 110u8);
                assert(x[2] == 97u8);
                assert(x[3] == 117u8);
                assert(x[4] == 116u8);
                assert(x[5] == 104u8);
                assert(x[6] == 111u8);
                assert(x[7] == 114u8);
                assert(x[8] == 105u8);
                assert(x[9] == 122u8);
                assert(x[10] == 101u8);
                assert(x[11] == 100u8);
                assert(x[12] == 95u8);
                assert(x[13] == 99u8);
                assert(x[14] == 108u8);
                assert(x[15] == 105u8);
                assert(x[16] == 101u8);
                assert(x[17] == 110u8);
                assert(x[18] == 116u8);
            },
            OAuthErrorCode::UnsupportedGrantType => {
                assert(x.len() == 22);
                assert(x[0] == 117u8);
                assert(x[1] == 110u8);
                assert(x[2] == 115u8);
                assert(x[3] == 117u8);
                assert(x[4] == 112u8);
                assert(x[5] == 112u8);
                assert(x[6] == 111u8);
                assert(x[7] == 114u8);
                assert(x[8] == 116u8);
                assert(x[9] == 101u8);
                assert(x[10] == 100u8);
                assert(x[11] == 95u8);
                assert(x[12] == 103u8);
                assert(x[13] == 114u8);
                assert(x[14] == 97u8);
                assert(x[15] == 110u8);
                assert(x[16] == 116u8);
                assert(x[17] == 95u8);
                assert(x[18] == 116u8);
                assert(x[19] == 121u8);
                assert(x[20] == 112u8);
                assert(x[21] == 101u8);
            },
            OAuthErrorCode::InvalidScope => {
                assert(x.len() == 13);
                assert(x[0] == 105u8);
                assert(x[1] == 110u8);
                assert(x[2] == 118u8);
                assert(x[3] == 97u8);
                assert(x[4] == 108u8);
                assert(x[5] == 105u8);
                assert(x[6] == 100u8);
                assert(x[7] == 95u8);
                assert(x[8] == 115u8);
                assert(x[9] == 99u8);
                assert(x[10] == 111u8);
                assert(x[11] == 112u8);
                assert(x[12] == 101u8);
            },
            OAuthErrorCode::AccessDenied => {
                assert(x.len() == 13);
                assert(x[0] == 97u8);
                assert(x[1] == 99u8);
                assert(x[2] == 99u8);
                assert(x[3] == 101u8);
                assert(x[4] == 115u8);
                assert(x[5] == 115u8);
                assert(x[6] == 95u8);
                assert(x[7] == 100u8);
                assert(x[8] == 101u8);
                assert(x[9] == 110u8);
                assert(x[10] == 105u8);
                assert(x[11] == 101u8);
                assert(x[12] == 100u8);
            },
            OAuthErrorCode::ServerError => {
                assert(x.len() == 12);
                assert(x[0] == 115u8);
                assert(x[1] == 101u8);
                assert(x[2] == 114u8);
                assert(x[3] == 118u8);
                assert(x[4] == 101u8);
                assert(x[5] == 114u8);
                assert(x[6] == 95u8);
                assert(x[7] == 101u8);
                assert(x[8] == 114u8);
                assert(x[9] == 114u8);
                assert(x[10] == 111u8);
                assert(x[11] == 114u8);
            },
        }
        match b {
            OAuthErrorCode::InvalidRequest => {
                assert(y.len() == 15);
                assert(y[0] == 105u8);
                assert(y[1] == 110u8);
                assert(y[2] == 118u8);
                assert(y[3] == 97u8);
                assert(y[4] == 108u8);
                assert(y[5] == 105u8);
                assert(y[6] == 100u8);
                assert(y[7] == 95u8);
                assert(y[8] == 114u8);
                assert(y[9] == 101u8);
                assert(y[10] == 113u8);
                assert(y[11] == 117u8);
                assert(y[12] == 101u8);
                assert(y[13] == 115u8);
                assert(y[14] == 116u8);
            },
            OAuthErrorCode::InvalidClient => {
                assert(y.len() == 14);
                assert(y[0] == 105u8);
                assert(y[1] == 110u8);
                assert(y[2] == 118u8);
                assert(y[3] == 97u8);
                assert(y[4] == 108u8);
                assert(y[5] == 105u8);
                assert(y[6] == 100u8);
                assert(y[7] == 95u8);
                assert(y[8] == 99u8);
                assert(y[9] == 108u8);
                assert(y[10] == 105u8);
                assert(y[11] == 101u8);
                assert(y[12] == 110u8);
                assert(y[13] == 116u8);
            },
            OAuthErrorCode::InvalidGrant => {
                assert(y.len() == 13);
                assert(y[0] == 105u8);
                assert(y[1] == 110u8);
                assert(y[2] == 118u8);
                assert(y[3] == 97u8);
                assert(y[4] == 108u8);
                assert(y[5] == 105u8);
                assert(y[6] == 100u8);
                assert(y[7] == 95u8);
                assert(y[8] == 103u8);
                assert(y[9] == 114u8);
                assert(y[10] == 97u8);
                assert(y[11] == 110u8);
                assert(y[12] == 116u8);
            },
            OAuthErrorCode::UnauthorizedClient => {
                assert(y.len() == 19);
                assert(y[0] == 117u8);
                assert(y[1] == 110u8);
                assert(y[2] == 97u8);
                assert(y[3] == 117u8);
                assert(y[4] == 116u8);
                assert(y[5] == 104u8);
                assert(y[6] == 111u8);
                assert(y[7] == 114u8);
                assert(y[8] == 105u8);
                assert(y[9] == 122u8);
                assert(y[10] == 101u8);
                assert(y[11] == 100u8);
                assert(y[12] == 95u8);
                assert(y[13] == 99u8);
                assert(y[14] == 108u8);
                assert(y[15] == 105u8);
                assert(y[16] == 101u8);
                assert(y[17] == 110u8);
                assert(y[18] == 116u8);
            },
            OAuthErrorCode::UnsupportedGrantType => {
                assert(y.len() == 22);
                assert(y[0] == 117u8);
                assert(y[1] == 110u8);
                assert(y[2] == 115u8);
                assert(y[3] == 117u8);
                assert(y[4] == 112u8);
                assert(y[5] == 112u8);
                assert(y[6] == 111u8);
                assert(y[7] == 114u8);
                assert(y[8] == 116u8);
                assert(y[9] == 101u8);
                assert(y[10] == 100u8);
                assert(y[11] == 95u8);
                assert(y[12] == 103u8);
                assert(y[13] == 114u8);
                assert(y[14] == 97u8);
                assert(y[15] == 110u8);
                assert(y[16] == 116u8);
                assert(y[17] == 95u8);
                assert(y[18] == 116u8);
                assert(y[19] == 121u8);
                assert(y[20] == 112u8);
                assert(y[21] == 101u8);
            },
            OAuthErrorCode::InvalidScope => {
                assert(y.len() == 13);
                assert(y[0] == 105u8);
                assert(y[1] == 110u8);
                assert(y[2] == 118u8);
                assert(y[3] == 97u8);
                assert(y[4] == 108u8);
                assert(y[5] == 105u8);
                assert(y[6] == 100u8);
                assert(y[7] == 95u8);
                assert(y[8] == 115u8);
                assert(y[9] == 99u8);
                assert(y[10] == 111u8);
                assert(y[11] == 112u8);
                assert(y[12] == 101u8);
            },
            OAuthErrorCode::AccessDenied => {
                assert(y.len() == 13);
                assert(y[0] == 97u8);
                assert(y[1] == 99u8);
                assert(y[2] == 99u8);
                assert(y[3] == 101u8);
                assert(y[4] == 115u8);
                assert(y[5] == 115u8);
                assert(y[6] == 95u8);
                assert(y[7] == 100u8);
                assert(y[8] == 101u8);
                assert(y[9] == 110u8);
                assert(y[10] == 105u8);
                assert(y[11] == 101u8);
                assert(y[12] == 100u8);
            },
            OAuthErrorCode::ServerError => {
                assert(y.len() == 12);
                assert(y[0] == 115u8);
                assert(y[1] == 101u8);
                assert(y[2] == 114u8);
                assert(y[3] == 118u8);
                assert(y[4] == 101u8);
                assert(y[5] == 114u8);
                assert(y[6] == 95u8);
                assert(y[7] == 101u8);
                assert(y[8] == 114u8);
                assert(y[9] == 114u8);
                assert(y[10] == 111u8);
                assert(y[11] == 114u8);
            },
        }
    }
}

} // verus!

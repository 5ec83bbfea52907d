//! Authorization-server core: the authorization-code grant state machine,
//! token issuance with refresh rotation, signed-token handling, and the
//! upstream federation flow, with their contracts proved by Verus.

pub mod base64url;
pub mod bytes;
pub mod client;
pub mod digest;
pub mod endpoints;
pub mod grant;
pub mod iana;
pub mod ident;
pub mod jose;
pub mod pkce;
pub mod protocol;
pub mod scope;
pub mod server;
pub mod session;
pub mod storage;
pub mod token;
pub mod upstream;

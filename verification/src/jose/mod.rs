//! Signed tokens: their JSON text, their keys, and their signing and
//! verification.

pub mod claims;
pub mod json;
pub mod jwk;
pub mod jwt;
pub mod text;

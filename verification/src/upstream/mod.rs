//! Delegated login against upstream OAuth 2.0 / OpenID Connect providers.

pub mod federation;
pub mod flow;
pub mod provider;
pub mod repository;

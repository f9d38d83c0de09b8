//! The identity and state-consistency core of a social feed service: it
//! hashes and verifies credentials, issues and checks signed time-bounded
//! tokens, gates requests on a bearer credential, and keeps the derived
//! counters of the account and content stores (post counts, like counts,
//! like membership) equal to the underlying rows through every operation.

pub mod auth;
pub mod errors;
pub mod handlers;
pub mod ids;
pub mod middleware;
pub mod models;
pub mod store;
pub mod text;
pub mod validate;

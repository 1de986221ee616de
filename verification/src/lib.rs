//! A fixed-capacity message board: a bounded append-only log of short text
//! messages with a cached JSON snapshot, behind a small HTTP-style router.
pub mod http;
pub mod laws;
pub mod json;
pub mod message;
pub mod route;

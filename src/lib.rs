//! A bridge that lets many concurrent callers share one connection to a
//! browser extension: each request carries a fresh correlation identifier,
//! and each inbound reply is routed back to the caller that owns it.
//!
//! - `registry`: the live requests, keyed by identifier.
//! - `bridge`: the shared state of the connection and its request lifecycle.
//! - `wire`: the text of outbound frames and the reading of inbound ones.
//! - `laws`: what holds of routing over whole sequences of replies.
//! - `tools`: file paths and CSV text for the persistence tools.
pub mod bridge;
pub mod laws;
pub mod registry;
pub mod tools;
pub mod wire;

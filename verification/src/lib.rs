//! An idempotent side-effect execution engine for a newsletter service.
//!
//! The core guarantee: a request carrying a caller-supplied idempotency key
//! triggers its side effect at most once per (account, key) pair, and any
//! duplicate submission receives a byte-identical replay of the original
//! response instead of re-running the side effect.

pub mod domain;
pub mod idempotency;
pub mod routes;

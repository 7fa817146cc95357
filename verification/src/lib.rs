//! A permissioned identity-verification registry.
//!
//! The registry tracks which identities are authorized identity providers
//! (IDPs), which subjects currently hold a valid identity commitment issued
//! by an IDP, and which one-time anonymous tokens (nullifiers), scoped by
//! use-case domain, have already been consumed. Commitments and nullifiers
//! are opaque 32-byte values produced off-chain; the registry never inspects
//! them — it only enforces who may write which facts and that facts are
//! recorded at most once.
//!
//! The surrounding host supplies caller identity, wall-clock time, durable
//! storage and an event sink, and guarantees exclusive, atomic execution per
//! call. The host shell hands this library plain values and persists the
//! state it returns; every state transition is decided here.

pub mod laws;
pub mod registry;
pub mod store;
pub mod types;

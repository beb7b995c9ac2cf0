//! The agent's wire schema and its two binary serializations.
//!
//! `jaeger` holds the value types mirroring the agent's schema and the
//! conversions from finished-span records; `agent` wraps a batch in the
//! one-way `emitBatch` message envelope; `protocol` holds the shared
//! primitives of the compact and the plain binary serialization.

pub mod agent;
pub mod jaeger;
pub mod protocol;

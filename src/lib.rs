//! Decisions behind generating language bindings for an SDK's public API:
//! filtering the symbol manifest, writing the synthetic root header,
//! resolving configured paths and flags, and planning the backend call.

pub mod header;
pub mod laws;
pub mod number;
pub mod opts;
pub mod plan;
pub mod symbols;
pub mod text;

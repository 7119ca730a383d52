//! Controller logic for a self-certifying identifier that is anchored by
//! witnesses: rotation planning, witness location lookup, event publication
//! and attestation handling.
//!
//! The library decides; it performs no I/O. Callers hand it what peers
//! answered and carry out the actions it returns.

pub mod api;
pub mod attestation;
pub mod bytes;
pub mod controller;
pub mod directory;
pub mod envelope;
pub mod error;
pub mod keystate;
pub mod publication;
pub mod receipts;
pub mod resolution;
pub mod rollout;
pub mod rotation;
pub mod signature;
pub mod text;
pub mod textmap;
pub mod witness;

//! Admission control for an edge gateway: a per-service quota table, token
//! buckets, sticky client sessions with idle expiry, and the per-call
//! admission gate that ties them together.

pub mod admission;
pub mod ankr;
pub mod ankr_types;
pub mod assoc;
pub mod bucket;
pub mod errors;
pub mod fingerprint;
pub mod laws;
pub mod liveness;
pub mod rules;
pub mod session;
pub mod store;

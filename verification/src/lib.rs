//! A verified core for a small container control plane: `Application` and
//! `Service` records, a deterministic image-tag (slug) derivation, the
//! reduction of a streamed build log, and the lifecycle transitions that keep
//! a service's persisted `container_id` consistent with the container
//! backend's actual state.
//!
//! The record store semantics (lookup, insert, delete, and the conditional
//! container-id updates that make `start`/`stop` race-free) are verified over
//! an in-memory `Store`; the surrounding process wires the same transitions
//! to a real database and container engine.

pub mod api;
pub mod application;
pub mod buildlog;
pub mod errors;
pub mod identity;
pub mod laws;
pub mod service;
pub mod store;

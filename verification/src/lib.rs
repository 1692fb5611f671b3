//! An academic-credentialing ledger's intake lifecycle and scheduling engine.
//!
//! The heart of the crate is [`engine::IntakeLifecycleEngine`]: it tracks
//! admission windows keyed by (institution, window index), indexes them by
//! closing time so a scheduler sweep can expire them, and enforces a strict
//! application/acceptance state machine under authorization checks that are
//! delegated to an institution directory.

pub mod applications;
pub mod closing;
pub mod directory;
pub mod document;
pub mod engine;
pub mod errors;
pub mod intake;
pub mod laws;
pub mod primitives;
pub mod records;
pub mod registry;
pub mod umap;

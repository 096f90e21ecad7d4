//! Core of a parallel recursive file copier.
//!
//! The crate verifies the decision logic of the copier: the walk over a
//! source tree that plans directory creation and per-entry work items, the
//! per-file copy state machine that chooses between reflink, sparse and
//! dense strategies, and the deduplicating progress channel. The
//! surrounding process (syscalls, threads, the actual walk of the disk)
//! drives these decisions from outside the verified core.

pub mod config;
pub mod drivers;
pub mod errors;
pub mod feedback;
pub mod operations;
pub mod paths;

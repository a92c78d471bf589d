//! Measuring how a file-level sandbox for command policies works out.
//!
//! The harness scans executables, builds sandbox rules for them, and runs smoke
//! tests in which a supervisor, a sandboxed session and a shim play together.
//! What it decides and computes stands here; the caller talks to the operating
//! system.
use vstd::prelude::*;

pub mod collect;
pub mod ipc;
pub mod measure;
pub mod message_laws;
pub mod probe;
pub mod process;
pub mod process_laws;
pub mod roles;
pub mod rule_laws;
pub mod rules;
pub mod scan;
pub mod scan_laws;
pub mod session;
pub mod smoke;
pub mod summary;
pub mod terminal;
pub mod view_laws;

verus! {

/// Tells files apart, whatever their names.
#[derive(Debug, Clone, Copy, PartialEq, Eq, Structural)]
pub struct FileId {
    pub dev: u64,
    pub ino: u64,
}

} // verus!

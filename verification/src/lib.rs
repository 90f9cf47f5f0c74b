//! Verified core of a guest-build orchestration pipeline.
//!
//! The library assembles cross-compilation invocations for a restricted
//! virtual execution environment, scans the build tool's diagnostic output
//! for freshly produced binary artifacts, resolves declared targets against
//! the discovered paths, and renders embeddable source constants for the
//! resolved binaries.  Everything here is pure computation; spawning the
//! child process, touching the filesystem and reading the ambient
//! environment are left to an unverified front end that feeds this library
//! plain values.

pub mod builder;
pub mod entry;
pub mod errors;
pub mod executor;
pub mod model;
pub mod numfmt;
pub mod resolve;
pub mod risc0;
pub mod scan;
pub mod sep;
pub mod text;
pub mod zk;

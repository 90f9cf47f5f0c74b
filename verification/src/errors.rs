//! The pipeline's failure taxonomy.  Every failure is terminal for the
//! invocation that raised it; nothing here is retried or downgraded.

use vstd::prelude::*;

verus! {

#[derive(Debug)]
pub enum BuildError {
    /// The requested toolchain could not be resolved to its tools.
    ToolchainResolution,
    /// The child build process exited with a non-zero status; the code is
    /// propagated, not reinterpreted.
    ChildExecutionFailure(i32),
    /// The diagnostic output never announced a produced artifact.
    NoArtifactsDiscovered,
    /// A declared target matched no discovered candidate; the payload is
    /// the declared name.
    ArtifactNotFound(String),
    /// Copying or reading a resolved binary failed.
    Materialization(String),
    /// A path destined for generated source text held the delimiter that
    /// would break out of the emitted literal.
    UnsafePathRejected,
}

} // verus!

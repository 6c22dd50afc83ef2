//! The ways in which assembling a commit can fail.

use vstd::prelude::*;

use crate::paths::RelPath;

verus! {

/// Why a commit could not be assembled or published.
pub enum CommitError {
    /// A required option was not given.
    MissingConfiguration { name: String },
    /// A file could not be read, or its metadata was unavailable.
    IoError { message: String },
    /// A candidate does not lie under the configured source root.
    PathTransformError { path: RelPath },
    /// Two distinct source paths map to one destination.
    PathConflict { path: RelPath, other: RelPath },
    /// The permission bits are neither executable nor readable.
    UnsupportedMode { mode: u32 },
    /// The remote service refused to create a blob, tree or commit.
    RemoteOperationFailed { message: String },
    /// The reference may not move to the new commit without force.
    RefUpdateRejected { message: String },
    /// The source root resolves outside the workspace.
    WorkspaceBoundaryViolation { source: RelPath },
}

} // verus!

//! What can go wrong around Wine.

use vstd::prelude::*;

verus! {

/// Why a step around Wine failed.
pub enum WineError {
    /// No usable release could be had.
    Fetch,
    /// There is no runtime of this name.
    UnimplementedRuntime(String),
    /// The directory that the user chose does not look like a Proton install.
    CustomProtonInvalid(String),
    /// The command ended with this exit code, or by a signal (`None`).
    Command { output: String, exit: Option<i32> },
}

} // verus!

//! The library's error kinds.

use vstd::prelude::*;

verus! {

/// Why an operation did not complete.
#[derive(Debug, Clone, Copy, PartialEq, Eq, Structural)]
pub enum DotfilesError {
    /// The backup or source directory is absent where it is required.
    MissingDirectory,
    /// The file to back up or copy does not exist.
    MissingSource,
    /// No backup matches the request.
    NotFound,
    /// No file name can be taken from the path.
    InvalidPath,
    /// The configuration file could not be parsed.
    InvalidConfig,
}

} // verus!

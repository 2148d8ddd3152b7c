//! The library's error taxonomy.

use vstd::prelude::*;

verus! {

/// Why a sandboxed path operation was refused or failed.
#[derive(Debug, PartialEq, Eq)]
pub enum FsError {
    /// The resolved path lies outside both permitted roots.
    NotWhitelisted,
    /// The operation requires the target to exist and it does not.
    NotFound,
    /// An ancestor test was given a relative path, or a root was given
    /// that is not a canonical absolute path.
    NotAbsolutePath,
    /// No candidate save-data location passed marker validation, or the
    /// platform could not report a home directory.
    SaveDataLocationUnresolvable,
    /// The path has no final component to derive a name or parent from.
    NoFinalComponent,
    /// Byte content read as text is not valid text.
    Utf8DecodeError,
    /// An underlying OS error, passed through as its message.
    Os(String),
}

} // verus!

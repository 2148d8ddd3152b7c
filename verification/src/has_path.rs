//! Everything in the sandbox wraps a single path and reports it canonically.

use vstd::prelude::*;

verus! {

/// A located entity: a value wrapping one path string.
pub trait HasPath {
    /// The wrapped path exactly as stored.
    spec fn raw_path(&self) -> Seq<char>;

    /// The canonical string form the entity reports: forward slashes, with a
    /// trailing separator exactly for directories.
    spec fn canonical_path(&self) -> Seq<char>;

    /// The canonical string form.
    fn path(&self) -> (r: String)
        ensures
            r@ == self.canonical_path(),
    ;
}

} // verus!

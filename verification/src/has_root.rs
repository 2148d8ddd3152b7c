//! Deriving which permitted root contains an entity.

use vstd::prelude::*;
use crate::directory::Directory;
use crate::errors::FsError;
use crate::has_path::HasPath;
use crate::paths::{same_or_under, str_same_or_under, clean_abs};
use crate::roots::Roots;

verus! {

/// The root chosen for a canonical path: the installation root when the
/// path is it or lies beneath it, the save-data root otherwise.
pub open spec fn root_of(c: Seq<char>, inst: Seq<char>, save: Seq<char>) -> Seq<char> {
    if same_or_under(c, inst) {
        inst
    } else {
        save
    }
}

pub trait HasRoot: HasPath {
    /// The permitted root containing this entity, as a directory value.
    fn root(&self, roots: &Roots) -> (r: Result<Directory, FsError>)
        ensures
            r is Ok,
            r.unwrap().path@ == root_of(self.canonical_path(), roots.inst(), roots.save()),
            clean_abs(r.unwrap().path@),
    ;
}

/// Shared implementation behind `HasRoot::root`.
pub(crate) fn root_impl(canonical: &String, roots: &Roots) -> (r: Result<Directory, FsError>)
    ensures
        r is Ok,
        r.unwrap().path@ == root_of(canonical@, roots.inst(), roots.save()),
        clean_abs(r.unwrap().path@),
{
    if str_same_or_under(canonical.as_str(), roots.installation_root().as_str()) {
        Ok(Directory { path: roots.installation_root().clone() })
    } else {
        Ok(Directory { path: roots.save_data_root().clone() })
    }
}

} // verus!

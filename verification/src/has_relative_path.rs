//! Deriving an entity's path relative to the root that contains it.

use vstd::prelude::*;
use crate::directory::Directory;
use crate::errors::FsError;
use crate::has_path::HasPath;
use crate::has_root::{HasRoot, root_of, root_impl};
use crate::paths::{is_abs, clean_path, strip1, starts_with_text};
use crate::roots::Roots;

verus! {

pub trait HasRelativePath: HasRoot {
    /// The path relative to whichever root contains this entity: empty when
    /// the entity is its own root, never beginning with a separator.
    fn relative_path(&self, roots: &Roots) -> (r: Result<String, FsError>)
        ensures
            r is Ok,
            !is_abs(self.canonical_path()) ==> r.unwrap()@ == Seq::<char>::empty(),
            is_abs(self.canonical_path()) && clean_path(strip1(self.canonical_path())) && strip1(
                self.canonical_path(),
            ) == root_of(self.canonical_path(), roots.inst(), roots.save()) ==> r.unwrap()@
                == Seq::<char>::empty(),
            is_abs(self.canonical_path()) && clean_path(strip1(self.canonical_path()))
                && starts_with_text(
                strip1(self.canonical_path()),
                root_of(self.canonical_path(), roots.inst(), roots.save()).push('/'),
            ) ==> r.unwrap()@ == strip1(self.canonical_path()).subrange(
                root_of(self.canonical_path(), roots.inst(), roots.save()).len() + 1int,
                strip1(self.canonical_path()).len() as int,
            ) || r.unwrap()@ == strip1(self.canonical_path()).subrange(
                root_of(self.canonical_path(), roots.inst(), roots.save()).len() + 1int,
                strip1(self.canonical_path()).len() as int,
            ).push('/'),
            is_abs(self.canonical_path()) && clean_path(strip1(self.canonical_path()))
                && r.unwrap()@.len() > 0 ==> r.unwrap()@[0] != '/',
    ;
}

/// Shared implementation behind `HasRelativePath::relative_path`: relativize
/// the canonical path against its own root, the empty string when the two
/// share no relative spelling.
pub(crate) fn relative_path_impl(canonical: &String, roots: &Roots) -> (r: Result<String, FsError>)
    ensures
        r is Ok,
        !is_abs(canonical@) ==> r.unwrap()@ == Seq::<char>::empty(),
        is_abs(canonical@) && clean_path(strip1(canonical@)) && strip1(canonical@) == root_of(
            canonical@,
            roots.inst(),
            roots.save(),
        ) ==> r.unwrap()@ == Seq::<char>::empty(),
        is_abs(canonical@) && clean_path(strip1(canonical@)) && starts_with_text(
            strip1(canonical@),
            root_of(canonical@, roots.inst(), roots.save()).push('/'),
        ) ==> r.unwrap()@ == strip1(canonical@).subrange(
            root_of(canonical@, roots.inst(), roots.save()).len() + 1int,
            strip1(canonical@).len() as int,
        ) || r.unwrap()@ == strip1(canonical@).subrange(
            root_of(canonical@, roots.inst(), roots.save()).len() + 1int,
            strip1(canonical@).len() as int,
        ).push('/'),
        is_abs(canonical@) && clean_path(strip1(canonical@)) && r.unwrap()@.len() > 0
            ==> r.unwrap()@[0] != '/',
{
    let d = match root_impl(canonical, roots) {
        Ok(d) => d,
        Err(e) => {
            return Err(e);
        },
    };
    match d.relativize(canonical.as_str()) {
        Some(s) => Ok(s),
        None => Ok(String::new()),
    }
}

} // verus!

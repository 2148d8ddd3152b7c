//! Deriving the immediate containing directory, re-validated against the
//! whitelist before it is handed out.

use vstd::prelude::*;
use crate::directory::Directory;
use crate::errors::FsError;
use crate::has_path::HasPath;
use crate::path_filter::{PathFilter, whitelisted_spec};
use crate::paths::{norm_spec, normalize, parent_of, parent_str, clean_abs, same_or_under,
    strip1, contains_char, suffix_after_last, lemma_last_occurrence, lemma_clean_prefix_at_slash};
use crate::roots::Roots;

verus! {

pub trait HasParent: HasPath {
    /// The immediate containing directory. Fails with `NoFinalComponent`
    /// when there is none to derive, and with `NotWhitelisted` when the
    /// parent lies outside both roots — notably, the parent of a root
    /// directory itself.
    fn parent(&self, roots: &Roots) -> (r: Result<Directory, FsError>)
        ensures
            parent_of(norm_spec(self.raw_path())) is None ==> (r matches Err(
                FsError::NoFinalComponent,
            )),
            parent_of(norm_spec(self.raw_path())) is Some && whitelisted_spec(
                parent_of(norm_spec(self.raw_path())).unwrap(),
                roots.inst(),
                roots.save(),
            ) ==> r is Ok && r.unwrap().path@ == parent_of(norm_spec(self.raw_path())).unwrap(),
            parent_of(norm_spec(self.raw_path())) is Some && !whitelisted_spec(
                parent_of(norm_spec(self.raw_path())).unwrap(),
                roots.inst(),
                roots.save(),
            ) ==> (r matches Err(FsError::NotWhitelisted)),
            parent_of(norm_spec(self.raw_path())) is Some && clean_abs(
                parent_of(norm_spec(self.raw_path())).unwrap(),
            ) && !same_or_under(parent_of(norm_spec(self.raw_path())).unwrap(), roots.inst())
                && !same_or_under(parent_of(norm_spec(self.raw_path())).unwrap(), roots.save())
                ==> (r matches Err(FsError::NotWhitelisted)),
    ;
}

/// Shared implementation behind `HasParent::parent`: normalize, derive the
/// containing path, and pass it through the whitelist.
pub(crate) fn parent_impl(raw: &str, roots: &Roots) -> (r: Result<Directory, FsError>)
    ensures
        parent_of(norm_spec(raw@)) is None ==> (r matches Err(FsError::NoFinalComponent)),
        parent_of(norm_spec(raw@)) is Some && whitelisted_spec(
            parent_of(norm_spec(raw@)).unwrap(),
            roots.inst(),
            roots.save(),
        ) ==> r is Ok && r.unwrap().path@ == parent_of(norm_spec(raw@)).unwrap(),
        parent_of(norm_spec(raw@)) is Some && !whitelisted_spec(
            parent_of(norm_spec(raw@)).unwrap(),
            roots.inst(),
            roots.save(),
        ) ==> (r matches Err(FsError::NotWhitelisted)),
        parent_of(norm_spec(raw@)) is Some && clean_abs(parent_of(norm_spec(raw@)).unwrap())
            && !same_or_under(parent_of(norm_spec(raw@)).unwrap(), roots.inst())
            && !same_or_under(parent_of(norm_spec(raw@)).unwrap(), roots.save()) ==> (
        r matches Err(FsError::NotWhitelisted)),
{
    let n = normalize(raw);
    match parent_str(n.as_str()) {
        None => Err(FsError::NoFinalComponent),
        Some(p) => {
            if PathFilter::is_whitelisted(p.as_str(), roots) {
                Ok(Directory { path: p })
            } else {
                Err(FsError::NotWhitelisted)
            }
        },
    }
}

/// A root directory's own parent lies strictly outside that root: it is a
/// proper prefix, canonical and absolute, and never contained in the root
/// it was derived from.
pub proof fn lemma_root_parent_outside(root: Seq<char>)
    requires
        clean_abs(root),
        root.len() > 1,
    ensures
        parent_of(root) is Some,
        clean_abs(parent_of(root).unwrap()),
        !same_or_under(parent_of(root).unwrap(), root),
{
    assert(root[root.len() - 1] != '/');
    assert(strip1(root) =~= root);
    assert(contains_char(root, '/'));
    lemma_last_occurrence(root, '/');
    let k = root.len() - suffix_after_last(root, '/').len() - 1;
    assert(root != seq!['/']);
    if k == 0 {
        let p = parent_of(root).unwrap();
        assert(p =~= seq!['/']);
        assert(!contains_char(p, '\\')) by {
            if contains_char(p, '\\') {
                let i = choose|i: int| 0 <= i < p.len() && p[i] == '\\';
                assert(p[0] == '/');
            }
        }
        assert(clean_abs(p));
        assert(!same_or_under(p, root));
    } else {
        lemma_clean_prefix_at_slash(root, k);
        assert(parent_of(root).unwrap() == root.subrange(0, k));
        assert(parent_of(root).unwrap().len() < root.len());
        assert(!same_or_under(parent_of(root).unwrap(), root));
    }
}

} // verus!

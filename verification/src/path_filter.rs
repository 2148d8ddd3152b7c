//! The whitelist decision: a path is permitted iff its absolutized form is
//! one of the two roots or nested beneath either of them.

use vstd::prelude::*;
use crate::paths::{clean_abs, same_or_under, str_same_or_under, join_segment};
use crate::fsops::{absolutized, absolutize_from, path_exists};
use crate::roots::Roots;

verus! {

pub struct PathFilter {}

/// Whether `p`, absolutized against the installation root, is one of the
/// two roots or nested beneath either, the boundary falling on a separator.
pub open spec fn whitelisted_spec(p: Seq<char>, inst: Seq<char>, save: Seq<char>) -> bool {
    same_or_under(absolutized(p, inst), inst) || same_or_under(absolutized(p, inst), save)
}

impl PathFilter {
    /// The whitelist decision. For a path already in canonical absolute form
    /// the decision is a component-boundary containment test against the two
    /// roots; any other path is first resolved against the installation root.
    pub fn is_whitelisted(path: &str, roots: &Roots) -> (r: bool)
        ensures
            r == whitelisted_spec(path@, roots.inst(), roots.save()),
            clean_abs(path@) ==> r == (same_or_under(path@, roots.inst()) || same_or_under(
                path@,
                roots.save(),
            )),
    {
        let abs = absolutize_from(path, roots.installation_root().as_str());
        str_same_or_under(abs.as_str(), roots.installation_root().as_str()) || str_same_or_under(
            abs.as_str(),
            roots.save_data_root().as_str(),
        )
    }

    /// A candidate save-data location is genuine exactly when the marker
    /// file exists inside it; the marker's content is never read.
    pub fn is_save_data_location_valid(path: &str) -> bool {
        let marker = join_segment(path, "io_test.txt");
        path_exists(marker.as_str())
    }
}

} // verus!

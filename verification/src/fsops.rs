//! Trusted boundary to the outside world: lexical path resolution through
//! `path_absolutize` and `pathdiff`, and filesystem probes through `std` and
//! `walkdir`. Everything else in the crate is verified against the contracts
//! stated here.

use vstd::prelude::*;
use path_absolutize::Absolutize;
use crate::paths::{is_abs, clean_path, clean_abs, strip1, starts_with_text, contains_char,
    slash_count, dotdots};

verus! {

/// What `path_absolutize` computes: the absolute, `.`/`..`-resolved form of
/// `path` interpreted against the base directory `base`. A function of its
/// arguments alone.
pub uninterp spec fn absolutized(path: Seq<char>, base: Seq<char>) -> Seq<char>;

/// Both arguments are of like kind (absolute or relative) and in canonical
/// component form once a single trailing separator is dropped.
pub open spec fn like_kind_clean(pa: Seq<char>, ba: Seq<char>) -> bool {
    is_abs(pa) == is_abs(ba) && clean_path(strip1(pa)) && clean_path(strip1(ba))
}

/// Relies on `path_absolutize::Absolutize::absolutize_from`: resolves `path`
/// lexically against `base` (no filesystem access). A canonical absolute path
/// comes back unchanged; an empty path resolves to `base` itself; and for a
/// canonical absolute base the result is canonical absolute, provided the
/// path brings no backslash in (a backslash is an ordinary name character
/// here and would survive into the result).
#[verifier::external_body]
pub(crate) fn absolutize_from(path: &str, base: &str) -> (r: String)
    ensures
        r@ == absolutized(path@, base@),
        clean_abs(path@) ==> r@ == path@,
        path@.len() == 0 ==> r@ == base@,
        clean_abs(base@) && !contains_char(path@, '\\') ==> clean_abs(r@),
{
    let cow = std::path::Path::new(path).absolutize_from(std::path::Path::new(base));
    cow.to_string_lossy().into_owned()
}

/// Relies on `pathdiff::diff_paths`: the spelling of `path` relative to
/// `base`, with `..` segments for ancestor traversal. Mixing one absolute and
/// one relative argument yields the absolute path itself or nothing; for two
/// canonical paths of like kind the result is pinned down for the same-path,
/// descendant and ancestor cases, never starts with a separator, and
/// introduces no backslash.
#[verifier::external_body]
pub(crate) fn diff_paths(path: &str, base: &str) -> (r: Option<String>)
    ensures
        !is_abs(path@) && is_abs(base@) ==> r is None,
        is_abs(path@) && !is_abs(base@) ==> r is Some && r.unwrap()@ == path@,
        like_kind_clean(path@, base@) ==> r is Some,
        like_kind_clean(path@, base@) && strip1(path@) == strip1(base@) ==> r.unwrap()@
            == Seq::<char>::empty(),
        like_kind_clean(path@, base@) && starts_with_text(
            strip1(path@),
            strip1(base@).push('/'),
        ) ==> r.unwrap()@ == strip1(path@).subrange(
            strip1(base@).len() + 1int,
            strip1(path@).len() as int,
        ),
        like_kind_clean(path@, base@) && starts_with_text(
            strip1(base@),
            strip1(path@).push('/'),
        ) ==> r.unwrap()@ == dotdots(
            slash_count(strip1(base@).subrange(strip1(path@).len() + 1int, strip1(base@).len() as int))
                + 1,
        ),
        like_kind_clean(path@, base@) && strip1(base@) == seq!['/'] && strip1(path@) != strip1(
            base@,
        ) ==> r.unwrap()@ == strip1(path@).subrange(1, strip1(path@).len() as int),
        like_kind_clean(path@, base@) && strip1(path@) == seq!['/'] && strip1(base@) != strip1(
            path@,
        ) ==> r.unwrap()@ == dotdots(
            slash_count(strip1(base@).subrange(1, strip1(base@).len() as int)) + 1,
        ),
        like_kind_clean(path@, base@) && r.unwrap()@.len() > 0 ==> r.unwrap()@[0] != '/',
        like_kind_clean(path@, base@) ==> !contains_char(r.unwrap()@, '\\'),
{
    pathdiff::diff_paths(path, base).map(|p| p.to_string_lossy().into_owned())
}

/// Relies on `std::path::Path::exists`; the answer depends on the state of
/// the filesystem at the moment of the call, so nothing is promised of it.
#[verifier::external_body]
pub(crate) fn path_exists(path: &str) -> bool {
    std::path::Path::new(path).exists()
}

/// Relies on `std::path::Path::is_dir` (following symlinks); the answer
/// depends on the state of the filesystem, so nothing is promised of it.
#[verifier::external_body]
pub(crate) fn path_is_dir(path: &str) -> bool {
    std::path::Path::new(path).is_dir()
}

/// One immediate child of a directory, as reported by a directory walk.
pub struct ChildEntry {
    pub path: String,
    pub is_file: bool,
    pub is_dir: bool,
}

/// A child's path extends the walk root it came from.
pub open spec fn child_extends(e: ChildEntry, base: Seq<char>) -> bool {
    &&& e.path@.len() > base.len()
    &&& e.path@.subrange(0, base.len() as int) == base
    &&& (base[base.len() - 1] != '/' ==> e.path@[base.len() as int] == '/')
}

/// Relies on `walkdir::WalkDir` at depth exactly one, following symlinks:
/// yields the directory's immediate children with their kinds. Each child's
/// path is the walk root joined with the child's own name, so it textually
/// extends the root.
#[verifier::external_body]
pub(crate) fn list_dir(path: &str) -> (r: Result<Vec<ChildEntry>, String>)
    requires
        path@.len() > 0,
    ensures
        r is Ok ==> forall|i: int|
            0 <= i < r.unwrap()@.len() ==> child_extends(#[trigger] r.unwrap()@[i], path@),
{
    let mut out = Vec::new();
    let walk = walkdir::WalkDir::new(path).min_depth(1).max_depth(1).follow_links(true);
    for entry in walk {
        match entry {
            Err(e) => return Err(e.to_string()),
            Ok(e) => out.push(ChildEntry {
                path: e.path().to_string_lossy().into_owned(),
                is_file: e.file_type().is_file(),
                is_dir: e.file_type().is_dir(),
            }),
        }
    }
    Ok(out)
}

} // verus!

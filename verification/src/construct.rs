//! Constructing sandboxed values from caller-supplied path strings: anchor,
//! resolve, check the whitelist, and only then wrap.

use vstd::prelude::*;
use vstd::string::*;
use crate::directory::Directory;
use crate::errors::FsError;
use crate::file::File;
use crate::fsops::{absolutized, absolutize_from};
use crate::path_filter::{PathFilter, whitelisted_spec};
use crate::paths::{anchored, clean_abs, push_char, norm_spec, lemma_norm_no_backslash,
    lemma_anchored_no_backslash};
use crate::roots::Roots;

verus! {

/// The canonical absolute form a caller-supplied path resolves to:
/// separator-normalized, anchored, then absolutized against the
/// installation root.
pub open spec fn resolved(p: Seq<char>, inst: Seq<char>) -> Seq<char> {
    absolutized(anchored(norm_spec(p)), inst)
}

/// Prefix a naked relative path with `./`, so that resolution treats
/// `some_file.txt` as relative to the current directory; absolute, `.`- and
/// `..`-led paths pass through unchanged.
pub fn normalize(path: &str) -> (r: String)
    requires
        path@.len() > 0,
    ensures
        r@ == anchored(path@),
{
    let len = path.unicode_len();
    let c0 = path.get_char(0);
    let pass = if c0 == '/' {
        true
    } else if c0 == '.' {
        if len == 1 {
            true
        } else {
            let c1 = path.get_char(1);
            if c1 == '/' {
                true
            } else if c1 == '.' {
                len == 2 || path.get_char(2) == '/'
            } else {
                false
            }
        }
    } else {
        false
    };
    if pass {
        path.to_owned()
    } else {
        let mut out = String::new();
        push_char(&mut out, '.');
        push_char(&mut out, '/');
        proof {
            assert(out@ =~= seq!['.', '/']);
        }
        out.concat(path)
    }
}

/// Resolve `path` and pass it through the whitelist gate, yielding the
/// canonical absolute path that a wrapped value will store.
pub(crate) fn gate(path: &str, roots: &Roots) -> (r: Result<String, FsError>)
    requires
        path@.len() > 0,
    ensures
        r is Ok <==> whitelisted_spec(anchored(norm_spec(path@)), roots.inst(), roots.save()) && resolved(
            path@,
            roots.inst(),
        ).len() > 1,
        r is Ok ==> r.unwrap()@ == resolved(path@, roots.inst()) && clean_abs(r.unwrap()@),
        !whitelisted_spec(anchored(norm_spec(path@)), roots.inst(), roots.save()) ==> r matches Err(
            FsError::NotWhitelisted,
        ),
        whitelisted_spec(anchored(norm_spec(path@)), roots.inst(), roots.save()) && resolved(
            path@,
            roots.inst(),
        ).len() <= 1 ==> r matches Err(FsError::NoFinalComponent),
{
    let slashed = crate::paths::normalize(path);
    let anchored_path = normalize(slashed.as_str());
    if !PathFilter::is_whitelisted(anchored_path.as_str(), roots) {
        return Err(FsError::NotWhitelisted);
    }
    let abs = absolutize_from(anchored_path.as_str(), roots.installation_root().as_str());
    proof {
        lemma_norm_no_backslash(path@);
        lemma_anchored_no_backslash(norm_spec(path@));
    }
    if abs.as_str().unicode_len() <= 1 {
        Err(FsError::NoFinalComponent)
    } else {
        Ok(abs)
    }
}

/// Construct a `File` for `path`: succeeds exactly when the resolved path is
/// whitelisted and has a final component, and stores the resolved form.
pub fn file(path: &str, roots: &Roots) -> (r: Result<File, FsError>)
    requires
        path@.len() > 0,
    ensures
        r is Ok <==> whitelisted_spec(anchored(norm_spec(path@)), roots.inst(), roots.save()) && resolved(
            path@,
            roots.inst(),
        ).len() > 1,
        r is Ok ==> r.unwrap().path@ == resolved(path@, roots.inst()) && clean_abs(
            r.unwrap().path@,
        ),
        !whitelisted_spec(anchored(norm_spec(path@)), roots.inst(), roots.save()) ==> r matches Err(
            FsError::NotWhitelisted,
        ),
        r is Err ==> (r matches Err(FsError::NotWhitelisted)) || (r matches Err(
            FsError::NoFinalComponent,
        )),
{
    match gate(path, roots) {
        Ok(p) => Ok(File { path: p }),
        Err(e) => Err(e),
    }
}

/// Construct a `Directory` for `path`: succeeds exactly when the resolved
/// path is whitelisted and has a final component, and stores the resolved
/// form.
pub fn directory(path: &str, roots: &Roots) -> (r: Result<Directory, FsError>)
    requires
        path@.len() > 0,
    ensures
        r is Ok <==> whitelisted_spec(anchored(norm_spec(path@)), roots.inst(), roots.save()) && resolved(
            path@,
            roots.inst(),
        ).len() > 1,
        r is Ok ==> r.unwrap().path@ == resolved(path@, roots.inst()) && clean_abs(
            r.unwrap().path@,
        ),
        !whitelisted_spec(anchored(norm_spec(path@)), roots.inst(), roots.save()) ==> r matches Err(
            FsError::NotWhitelisted,
        ),
        r is Err ==> (r matches Err(FsError::NotWhitelisted)) || (r matches Err(
            FsError::NoFinalComponent,
        )),
{
    match gate(path, roots) {
        Ok(p) => Ok(Directory { path: p }),
        Err(e) => Err(e),
    }
}

} // verus!

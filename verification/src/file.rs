//! The `File` value: an immutable wrapper around one file path.

use vstd::prelude::*;
use vstd::string::*;
use crate::directory::Directory;
use crate::errors::FsError;
use crate::has_path::HasPath;
use crate::has_parent::{HasParent, parent_impl};
use crate::has_relative_path::{HasRelativePath, relative_path_impl};
use crate::has_root::{HasRoot, root_impl};
use crate::roots::Roots;
use crate::paths::{norm_spec, normalize, basename_spec, base_name, ext_of, stem_of,
    lemma_suffix_after, lemma_suffix_whole, rfind_char};
use crate::fsops::path_exists;

verus! {

/// An immutable file value wrapping a single path. Construction alone proves
/// nothing about whitelisting; the gated operations re-check it.
pub struct File {
    pub path: String,
}

impl File {
    /// Wrap a path string as given, without validation.
    pub fn from(path: &str) -> (r: File)
        ensures
            r.path@ == path@,
    {
        File { path: path.to_owned() }
    }

    /// The file's name: the final segment of its path.
    pub fn name(&self) -> (r: String)
        ensures
            r@ == basename_spec(self.path@),
    {
        base_name(self.path.as_str())
    }

    /// The file's name with the extension removed.
    pub fn name_without_extension(&self) -> (r: String)
        ensures
            r@ == stem_of(basename_spec(self.path@)),
    {
        let name = base_name(self.path.as_str());
        match rfind_char(name.as_str(), '.') {
            None => {
                proof {
                    lemma_suffix_whole(name@, '.');
                }
                name
            },
            Some(k) => {
                proof {
                    lemma_suffix_after(name@, '.', k as int);
                }
                if k == 0 {
                    name
                } else {
                    name.as_str().substring_char(0, k).to_owned()
                }
            },
        }
    }

    /// The extension: the final `.`-delimited part of the name, absent if
    /// the name has none.
    pub fn extension(&self) -> (r: Option<String>)
        ensures
            r is Some <==> ext_of(basename_spec(self.path@)) is Some,
            r is Some ==> r.unwrap()@ == ext_of(basename_spec(self.path@)).unwrap(),
    {
        let name = base_name(self.path.as_str());
        let len = name.as_str().unicode_len();
        match rfind_char(name.as_str(), '.') {
            None => {
                proof {
                    lemma_suffix_whole(name@, '.');
                }
                None
            },
            Some(k) => {
                proof {
                    lemma_suffix_after(name@, '.', k as int);
                }
                if k == 0 {
                    None
                } else {
                    Some(name.as_str().substring_char(k + 1, len).to_owned())
                }
            },
        }
    }

    /// Whether the path currently exists on the filesystem.
    pub fn exists_on_disk(&self) -> bool {
        path_exists(self.path.as_str())
    }
}

/// A file's canonical path never ends with a separator, for any stored
/// path that does not itself end with one (in either spelling).
pub proof fn lemma_file_path_no_trailing_slash(f: File)
    requires
        f.path@.len() > 0,
        f.path@[f.path@.len() - 1] != '/',
        f.path@[f.path@.len() - 1] != '\\',
    ensures
        f.canonical_path().len() > 0,
        f.canonical_path()[f.canonical_path().len() - 1] != '/',
{
    assert(f.canonical_path()[f.canonical_path().len() - 1] == if f.path@[f.path@.len() - 1]
        == '\\' {
        '/'
    } else {
        f.path@[f.path@.len() - 1]
    });
}

impl HasPath for File {
    open spec fn raw_path(&self) -> Seq<char> {
        self.path@
    }

    open spec fn canonical_path(&self) -> Seq<char> {
        norm_spec(self.path@)
    }

    /// Files report their path without a trailing slash.
    fn path(&self) -> (r: String) {
        normalize(self.path.as_str())
    }
}

impl HasParent for File {
    fn parent(&self, roots: &Roots) -> (r: Result<Directory, FsError>) {
        parent_impl(self.path.as_str(), roots)
    }
}

impl HasRoot for File {
    fn root(&self, roots: &Roots) -> (r: Result<Directory, FsError>) {
        let c = self.path();
        root_impl(&c, roots)
    }
}

impl HasRelativePath for File {
    fn relative_path(&self, roots: &Roots) -> (r: Result<String, FsError>) {
        let c = self.path();
        relative_path_impl(&c, roots)
    }
}

} // verus!

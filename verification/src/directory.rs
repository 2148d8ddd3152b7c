//! The `Directory` value: an immutable wrapper around one directory path.

use vstd::prelude::*;
use vstd::string::*;
use crate::errors::FsError;
use crate::has_path::HasPath;
use crate::has_parent::{HasParent, parent_impl};
use crate::has_relative_path::{HasRelativePath, relative_path_impl};
use crate::has_root::{HasRoot, root_impl};
use crate::roots::Roots;
use crate::construct::{gate, resolved};
use crate::file::File;
use crate::path_filter::whitelisted_spec;
use crate::paths::{norm_spec, normalize, basename_spec, base_name, is_abs, starts_with_text,
    str_starts_with, push_char, lemma_norm_id, spell, strip1, dotdots, slash_count, anchored,
    same_or_under, str_same_or_under,
    clean_abs, joined, join_segment, clean_path, simple_seg, lemma_clean_append_seg,
    lemma_slash_count_zero, contains_char, lemma_norm_no_backslash};
use crate::fsops::{path_exists, path_is_dir, diff_paths, like_kind_clean, list_dir, child_extends,
    ChildEntry};

verus! {

/// An immutable directory value wrapping a single path. Construction alone
/// proves nothing about whitelisting; the gated operations re-check it.
pub struct Directory {
    pub path: String,
}

impl Directory {
    /// Wrap a path string as given, without validation.
    pub fn from(path: &str) -> (r: Directory)
        ensures
            r.path@ == path@,
    {
        Directory { path: path.to_owned() }
    }

    /// The directory's name: the final segment of its path.
    pub fn name(&self) -> (r: String)
        ensures
            r@ == basename_spec(self.path@),
    {
        base_name(self.path.as_str())
    }

    /// Whether the path currently exists on the filesystem.
    pub fn exists_on_disk(&self) -> bool {
        path_exists(self.path.as_str())
    }

    /// Component-boundary ancestor test: true iff `path` is this directory
    /// itself or lies beneath it, whole components matching. The argument
    /// must already be absolute; a relative argument is refused rather than
    /// silently resolved.
    pub fn is_ancestor(&self, path: &str) -> (r: Result<bool, FsError>)
        ensures
            r is Ok <==> is_abs(path@),
            r is Ok ==> r.unwrap() == same_or_under(path@, strip1(self.path@)),
            r is Err ==> r matches Err(FsError::NotAbsolutePath),
    {
        if path.unicode_len() > 0 && path.get_char(0) == '/' {
            let len = self.path.as_str().unicode_len();
            let base: &str = if len > 1 && self.path.as_str().get_char(len - 1) == '/' {
                self.path.as_str().substring_char(0, len - 1)
            } else {
                self.path.as_str()
            };
            proof {
                assert(base@ =~= strip1(self.path@));
            }
            Ok(str_same_or_under(path, base))
        } else {
            Err(FsError::NotAbsolutePath)
        }
    }
    /// Immediate children of this directory that are files, each wrapping
    /// the child's full path; what is listed depends on the filesystem, but
    /// every listed path textually extends this directory's path.
    pub fn files(&self) -> (r: Result<Vec<File>, FsError>)
        requires
            self.path@.len() > 0,
        ensures
            r is Ok ==> forall|i: int|
                0 <= i < r.unwrap()@.len() ==> (#[trigger] r.unwrap()@[i]).path@.len()
                    > self.path@.len() && r.unwrap()@[i].path@.subrange(
                    0,
                    self.path@.len() as int,
                ) == self.path@,
    {
        if !self.exists_on_disk() {
            return Err(FsError::NotFound);
        }
        match list_dir(self.path.as_str()) {
            Err(m) => Err(FsError::Os(m)),
            Ok(entries) => {
                let out = files_from_entries(&entries);
                proof {
                    assert forall|i: int|
                        0 <= i < out@.len() implies (#[trigger] out@[i]).path@.len()
                        > self.path@.len() && out@[i].path@.subrange(0, self.path@.len() as int)
                        == self.path@ by {
                        lemma_file_paths_witness(entries@, i);
                        let k = choose|k: int|
                            0 <= k < entries@.len() && file_paths_of(entries@)[i]
                                == entries@[k].path@ && entries@[k].is_file;
                        assert(out@[i].path@ == file_paths_of(entries@)[i]);
                        assert(child_extends(entries@[k], self.path@));
                    }
                }
                Ok(out)
            },
        }
    }

    /// Immediate children of this directory that are directories; what is
    /// listed depends on the filesystem, but every listed path textually
    /// extends this directory's path.
    pub fn directories(&self) -> (r: Result<Vec<Directory>, FsError>)
        requires
            self.path@.len() > 0,
        ensures
            r is Ok ==> forall|i: int|
                0 <= i < r.unwrap()@.len() ==> (#[trigger] r.unwrap()@[i]).path@.len()
                    > self.path@.len() && r.unwrap()@[i].path@.subrange(
                    0,
                    self.path@.len() as int,
                ) == self.path@,
    {
        if !self.exists_on_disk() {
            return Err(FsError::NotFound);
        }
        match list_dir(self.path.as_str()) {
            Err(m) => Err(FsError::Os(m)),
            Ok(entries) => {
                let out = directories_from_entries(&entries);
                proof {
                    assert forall|i: int|
                        0 <= i < out@.len() implies (#[trigger] out@[i]).path@.len()
                        > self.path@.len() && out@[i].path@.subrange(0, self.path@.len() as int)
                        == self.path@ by {
                        lemma_directory_paths_witness(entries@, i);
                        let k = choose|k: int|
                            0 <= k < entries@.len() && directory_paths_of(entries@)[i]
                                == entries@[k].path@ && entries@[k].is_dir;
                        assert(out@[i].path@ == directory_paths_of(entries@)[i]);
                        assert(child_extends(entries@[k], self.path@));
                    }
                }
                Ok(out)
            },
        }
    }

    /// `Directory.file(segments...)`: join the segments beneath this
    /// directory, then construct the file through the whitelist gate.
    pub fn file(&self, segments: &Vec<String>, roots: &Roots) -> (r: Result<File, FsError>)
        requires
            self.path@.len() > 0,
        ensures
            r is Ok <==> whitelisted_spec(
                anchored(norm_spec(joined(self.path@, segments.deep_view()))),
                roots.inst(),
                roots.save(),
            ) && resolved(joined(self.path@, segments.deep_view()), roots.inst()).len() > 1,
            r is Ok ==> r.unwrap().path@ == resolved(
                joined(self.path@, segments.deep_view()),
                roots.inst(),
            ) && clean_abs(r.unwrap().path@),
            r is Err ==> (r matches Err(FsError::NotWhitelisted)) || (r matches Err(
                FsError::NoFinalComponent,
            )),
    {
        let joined_path = self.join_all(segments);
        match gate(joined_path.as_str(), roots) {
            Ok(p) => Ok(File { path: p }),
            Err(e) => Err(e),
        }
    }

    /// `Directory.directory(segments...)`: join the segments beneath this
    /// directory, then construct the directory through the whitelist gate.
    pub fn directory(&self, segments: &Vec<String>, roots: &Roots) -> (r: Result<
        Directory,
        FsError,
    >)
        requires
            self.path@.len() > 0,
        ensures
            r is Ok <==> whitelisted_spec(
                anchored(norm_spec(joined(self.path@, segments.deep_view()))),
                roots.inst(),
                roots.save(),
            ) && resolved(joined(self.path@, segments.deep_view()), roots.inst()).len() > 1,
            r is Ok ==> r.unwrap().path@ == resolved(
                joined(self.path@, segments.deep_view()),
                roots.inst(),
            ) && clean_abs(r.unwrap().path@),
            r is Err ==> (r matches Err(FsError::NotWhitelisted)) || (r matches Err(
                FsError::NoFinalComponent,
            )),
    {
        let joined_path = self.join_all(segments);
        match gate(joined_path.as_str(), roots) {
            Ok(p) => Ok(Directory { path: p }),
            Err(e) => Err(e),
        }
    }

    /// This directory's path joined with each segment in turn.
    fn join_all(&self, segments: &Vec<String>) -> (r: String)
        requires
            self.path@.len() > 0,
        ensures
            r@ == joined(self.path@, segments.deep_view()),
            r@.len() > 0,
    {
        let mut acc = self.path.clone();
        let mut i: usize = 0;
        proof {
            assert(segments.deep_view().subrange(0, segments.deep_view().len() as int)
                =~= segments.deep_view());
        }
        while i < segments.len()
            invariant
                i <= segments.len(),
                acc@.len() > 0,
                joined(self.path@, segments.deep_view()) == joined(
                    acc@,
                    segments.deep_view().subrange(i as int, segments.deep_view().len() as int),
                ),
            decreases segments.len() - i,
        {
            proof {
                let rem = segments.deep_view().subrange(
                    i as int,
                    segments.deep_view().len() as int,
                );
                assert(rem[0] == segments.deep_view()[i as int]);
                assert(rem.subrange(1, rem.len() as int) =~= segments.deep_view().subrange(
                    i + 1,
                    segments.deep_view().len() as int,
                ));
            }
            acc = join_segment(acc.as_str(), segments[i].as_str());
            i = i + 1;
        }
        proof {
            assert(segments.deep_view().subrange(
                segments.deep_view().len() as int,
                segments.deep_view().len() as int,
            ) =~= Seq::<Seq<char>>::empty());
        }
        acc
    }

    /// Relative spelling of `path` with respect to this directory, the
    /// target's directory-ness supplied by the caller: `spell` appends the
    /// trailing separator for directories.
    pub fn relativize_spelled(&self, path: &str, target_is_dir: bool) -> (r: Option<String>)
        ensures
            !is_abs(path@) && is_abs(self.path@) ==> r is None,
            is_abs(path@) && !is_abs(self.path@) ==> r is Some && r.unwrap()@ == spell(
                norm_spec(path@),
                target_is_dir,
            ),
            like_kind_clean(path@, self.path@) ==> r is Some,
            like_kind_clean(path@, self.path@) && strip1(path@) == strip1(self.path@)
                ==> r.unwrap()@ == Seq::<char>::empty(),
            like_kind_clean(path@, self.path@) && starts_with_text(
                strip1(path@),
                strip1(self.path@).push('/'),
            ) ==> r.unwrap()@ == spell(
                strip1(path@).subrange(strip1(self.path@).len() + 1int, strip1(path@).len() as int),
                target_is_dir,
            ),
            like_kind_clean(path@, self.path@) && starts_with_text(
                strip1(self.path@),
                strip1(path@).push('/'),
            ) ==> r.unwrap()@ == spell(
                dotdots(
                    slash_count(
                        strip1(self.path@).subrange(
                            strip1(path@).len() + 1int,
                            strip1(self.path@).len() as int,
                        ),
                    ) + 1,
                ),
                target_is_dir,
            ),
            like_kind_clean(path@, self.path@) && strip1(self.path@) == seq!['/'] && strip1(path@)
                != strip1(self.path@) ==> r.unwrap()@ == spell(
                strip1(path@).subrange(1, strip1(path@).len() as int),
                target_is_dir,
            ),
            like_kind_clean(path@, self.path@) && r.unwrap()@.len() > 0 ==> r.unwrap()@[0] != '/',
            r is Some ==> !contains_char(r.unwrap()@, '\\'),
    {
        match diff_paths(path, self.path.as_str()) {
            None => None,
            Some(d0) => {
                let mut n = normalize(d0.as_str());
                proof {
                    if like_kind_clean(path@, self.path@) {
                        lemma_norm_id(d0@);
                    }
                    lemma_norm_no_backslash(d0@);
                }
                if target_is_dir && n.as_str().unicode_len() > 0 {
                    push_char(&mut n, '/');
                    proof {
                        assert(!contains_char(n@, '\\')) by {
                            if contains_char(n@, '\\') {
                                let i = choose|i: int| 0 <= i < n@.len() && n@[i] == '\\';
                                assert(n@[i] == n@.drop_last()[i] || n@[i] == '/');
                            }
                        }
                    }
                    Some(n)
                } else {
                    Some(n)
                }
            },
        }
    }

    /// Relative spelling of `path` with respect to this directory, with a
    /// trailing separator exactly when `path` names a directory on the real
    /// filesystem at the moment of the call.
    pub fn relativize(&self, path: &str) -> (r: Option<String>)
        ensures
            !is_abs(path@) && is_abs(self.path@) ==> r is None,
            like_kind_clean(path@, self.path@) ==> r is Some,
            like_kind_clean(path@, self.path@) && strip1(path@) == strip1(self.path@)
                ==> r.unwrap()@ == Seq::<char>::empty(),
            like_kind_clean(path@, self.path@) && starts_with_text(
                strip1(path@),
                strip1(self.path@).push('/'),
            ) ==> r.unwrap()@ == strip1(path@).subrange(
                strip1(self.path@).len() + 1int,
                strip1(path@).len() as int,
            ) || r.unwrap()@ == strip1(path@).subrange(
                strip1(self.path@).len() + 1int,
                strip1(path@).len() as int,
            ).push('/'),
            like_kind_clean(path@, self.path@) && starts_with_text(
                strip1(self.path@),
                strip1(path@).push('/'),
            ) ==> r.unwrap()@ == dotdots(
                slash_count(
                    strip1(self.path@).subrange(
                        strip1(path@).len() + 1int,
                        strip1(self.path@).len() as int,
                    ),
                ) + 1,
            ) || r.unwrap()@ == dotdots(
                slash_count(
                    strip1(self.path@).subrange(
                        strip1(path@).len() + 1int,
                        strip1(self.path@).len() as int,
                    ),
                ) + 1,
            ).push('/'),
            like_kind_clean(path@, self.path@) && r.unwrap()@.len() > 0 ==> r.unwrap()@[0] != '/',
            r is Some ==> !contains_char(r.unwrap()@, '\\'),
    {
        let target_is_dir = path_is_dir(path);
        self.relativize_spelled(path, target_is_dir)
    }
}

/// The paths of the file entries in a listing, in order.
pub open spec fn file_paths_of(entries: Seq<ChildEntry>) -> Seq<Seq<char>>
    decreases entries.len(),
{
    if entries.len() == 0 {
        Seq::empty()
    } else if entries[entries.len() - 1].is_file {
        file_paths_of(entries.drop_last()).push(entries[entries.len() - 1].path@)
    } else {
        file_paths_of(entries.drop_last())
    }
}

/// The paths of the directory entries in a listing, in order.
pub open spec fn directory_paths_of(entries: Seq<ChildEntry>) -> Seq<Seq<char>>
    decreases entries.len(),
{
    if entries.len() == 0 {
        Seq::empty()
    } else if entries[entries.len() - 1].is_dir {
        directory_paths_of(entries.drop_last()).push(entries[entries.len() - 1].path@)
    } else {
        directory_paths_of(entries.drop_last())
    }
}

/// The file children among listed entries, wrapped in listing order: the
/// paths of the result are exactly the paths of the entries marked as files.
pub fn files_from_entries(entries: &Vec<ChildEntry>) -> (r: Vec<File>)
    ensures
        r@.len() == file_paths_of(entries@).len(),
        forall|i: int| 0 <= i < r@.len() ==> (#[trigger] r@[i]).path@ == file_paths_of(entries@)[i],
{
    let mut out: Vec<File> = Vec::new();
    let mut i: usize = 0;
    proof {
        assert(entries@.subrange(0, 0) =~= Seq::<ChildEntry>::empty());
    }
    while i < entries.len()
        invariant
            i <= entries@.len(),
            out@.len() == file_paths_of(entries@.subrange(0, i as int)).len(),
            forall|j: int|
                0 <= j < out@.len() ==> (#[trigger] out@[j]).path@ == file_paths_of(
                    entries@.subrange(0, i as int),
                )[j],
        decreases entries@.len() - i,
    {
        let e = &entries[i];
        if e.is_file {
            out.push(File { path: e.path.clone() });
        }
        i = i + 1;
        proof {
            let pre = entries@.subrange(0, i - 1);
            let nxt = entries@.subrange(0, i as int);
            assert(nxt.drop_last() =~= pre);
            assert(nxt[nxt.len() - 1] == entries@[i - 1]);
        }
    }
    proof {
        assert(entries@.subrange(0, entries@.len() as int) =~= entries@);
    }
    out
}

/// Each listed file path is the path of a file entry of the listing.
pub proof fn lemma_file_paths_witness(entries: Seq<ChildEntry>, j: int)
    requires
        0 <= j < file_paths_of(entries).len(),
    ensures
        exists|k: int|
            0 <= k < entries.len() && file_paths_of(entries)[j] == entries[k].path@
                && entries[k].is_file,
    decreases entries.len(),
{
    let last = entries[entries.len() - 1];
    if last.is_file && j == file_paths_of(entries).len() - 1 {
        assert(file_paths_of(entries)[j] == last.path@);
    } else {
        lemma_file_paths_witness(entries.drop_last(), j);
        let k = choose|k: int|
            0 <= k < entries.drop_last().len() && file_paths_of(entries.drop_last())[j]
                == entries.drop_last()[k].path@ && entries.drop_last()[k].is_file;
        assert(entries[k].path@ == entries.drop_last()[k].path@);
        assert(entries[k].is_file);
    }
}

/// Each listed directory path is the path of a directory entry of the
/// listing.
pub proof fn lemma_directory_paths_witness(entries: Seq<ChildEntry>, j: int)
    requires
        0 <= j < directory_paths_of(entries).len(),
    ensures
        exists|k: int|
            0 <= k < entries.len() && directory_paths_of(entries)[j] == entries[k].path@
                && entries[k].is_dir,
    decreases entries.len(),
{
    let last = entries[entries.len() - 1];
    if last.is_dir && j == directory_paths_of(entries).len() - 1 {
        assert(directory_paths_of(entries)[j] == last.path@);
    } else {
        lemma_directory_paths_witness(entries.drop_last(), j);
        let k = choose|k: int|
            0 <= k < entries.drop_last().len() && directory_paths_of(entries.drop_last())[j]
                == entries.drop_last()[k].path@ && entries.drop_last()[k].is_dir;
        assert(entries[k].path@ == entries.drop_last()[k].path@);
        assert(entries[k].is_dir);
    }
}

/// The directory children among listed entries, wrapped in listing order:
/// the paths of the result are exactly the paths of the entries marked as
/// directories.
pub fn directories_from_entries(entries: &Vec<ChildEntry>) -> (r: Vec<Directory>)
    ensures
        r@.len() == directory_paths_of(entries@).len(),
        forall|i: int|
            0 <= i < r@.len() ==> (#[trigger] r@[i]).path@ == directory_paths_of(entries@)[i],
{
    let mut out: Vec<Directory> = Vec::new();
    let mut i: usize = 0;
    proof {
        assert(entries@.subrange(0, 0) =~= Seq::<ChildEntry>::empty());
    }
    while i < entries.len()
        invariant
            i <= entries@.len(),
            out@.len() == directory_paths_of(entries@.subrange(0, i as int)).len(),
            forall|j: int|
                0 <= j < out@.len() ==> (#[trigger] out@[j]).path@ == directory_paths_of(
                    entries@.subrange(0, i as int),
                )[j],
        decreases entries@.len() - i,
    {
        let e = &entries[i];
        if e.is_dir {
            out.push(Directory { path: e.path.clone() });
        }
        i = i + 1;
        proof {
            let pre = entries@.subrange(0, i - 1);
            let nxt = entries@.subrange(0, i as int);
            assert(nxt.drop_last() =~= pre);
            assert(nxt[nxt.len() - 1] == entries@[i - 1]);
        }
    }
    proof {
        assert(entries@.subrange(0, entries@.len() as int) =~= entries@);
    }
    out
}

/// Law: relativizing a direct child path `base/child` against `base` yields
/// the child's bare name. The guards of `relativize`'s descendant clause
/// hold for the pair, and the relative spelling they pin down is exactly
/// `child`.
pub proof fn lemma_relativize_child(base: Seq<char>, child: Seq<char>)
    requires
        clean_path(base),
        base[base.len() - 1] != '/',
        simple_seg(child),
    ensures
        like_kind_clean(base + seq!['/'] + child, base),
        starts_with_text(strip1(base + seq!['/'] + child), strip1(base).push('/')),
        strip1(base + seq!['/'] + child).subrange(
            strip1(base).len() + 1int,
            strip1(base + seq!['/'] + child).len() as int,
        ) == child,
{
    lemma_clean_append_seg(base, child);
    let p = base + seq!['/'] + child;
    assert(strip1(p) =~= p);
    assert(strip1(base) =~= base);
}

/// Law: relativizing `base` against its direct child `base/x` yields the
/// lone parent-traversal segment `..`. The guards of `relativize`'s
/// ancestor clause hold for the pair, and the spelling they pin down is
/// exactly `..`.
pub proof fn lemma_relativize_parent(base: Seq<char>, x: Seq<char>)
    requires
        clean_path(base),
        base[base.len() - 1] != '/',
        simple_seg(x),
    ensures
        like_kind_clean(base, base + seq!['/'] + x),
        starts_with_text(strip1(base + seq!['/'] + x), strip1(base).push('/')),
        dotdots(
            slash_count(
                strip1(base + seq!['/'] + x).subrange(
                    strip1(base).len() + 1int,
                    strip1(base + seq!['/'] + x).len() as int,
                ),
            ) + 1,
        ) == seq!['.', '.'],
{
    lemma_clean_append_seg(base, x);
    let p = base + seq!['/'] + x;
    assert(strip1(p) =~= p);
    assert(strip1(base) =~= base);
    assert(p.subrange(base.len() + 1int, p.len() as int) == x);
    lemma_slash_count_zero(x);
    assert(dotdots(1) =~= seq!['.', '.']);
}

/// A directory's canonical path always ends with a separator.
pub proof fn lemma_directory_path_trailing_slash(d: Directory)
    ensures
        d.canonical_path().len() > 0,
        d.canonical_path()[d.canonical_path().len() - 1] == '/',
{
}

impl HasPath for Directory {
    open spec fn raw_path(&self) -> Seq<char> {
        self.path@
    }

    open spec fn canonical_path(&self) -> Seq<char> {
        norm_spec(self.path@).push('/')
    }

    /// Directories report their path with a trailing slash.
    fn path(&self) -> (r: String) {
        let mut n = normalize(self.path.as_str());
        push_char(&mut n, '/');
        n
    }
}

impl HasParent for Directory {
    fn parent(&self, roots: &Roots) -> (r: Result<Directory, FsError>) {
        parent_impl(self.path.as_str(), roots)
    }
}

impl HasRoot for Directory {
    fn root(&self, roots: &Roots) -> (r: Result<Directory, FsError>) {
        let c = self.path();
        root_impl(&c, roots)
    }
}

impl HasRelativePath for Directory {
    fn relative_path(&self, roots: &Roots) -> (r: Result<String, FsError>) {
        let c = self.path();
        relative_path_impl(&c, roots)
    }
}

} // verus!

//! The two permitted root directories, and discovery of the save-data root
//! through an ordered candidate search validated by a marker file.

use vstd::prelude::*;
use vstd::string::*;
use crate::errors::FsError;
use crate::paths::{clean_abs, is_clean, join_spec, join_segment, norm_spec, normalize,
    lemma_norm_no_backslash};
use crate::fsops::{absolutized, absolutize_from};
use crate::path_filter::PathFilter;

verus! {

/// The two resolved sandbox roots, both canonical absolute paths: the
/// installation directory and the save-data directory.
pub struct Roots {
    installation: String,
    save_data: String,
}

impl Roots {
    /// The installation root's path.
    pub closed spec fn inst(&self) -> Seq<char> {
        self.installation@
    }

    /// The save-data root's path.
    pub closed spec fn save(&self) -> Seq<char> {
        self.save_data@
    }

    /// Both roots are canonical absolute paths.
    #[verifier::type_invariant]
    pub closed spec fn wf(&self) -> bool {
        clean_abs(self.inst()) && clean_abs(self.save())
    }

    /// Pair the two permitted roots; each must be a canonical absolute path.
    pub fn new(installation: String, save_data: String) -> (r: Result<Roots, FsError>)
        ensures
            r is Ok <==> clean_abs(installation@) && clean_abs(save_data@),
            r is Ok ==> r.unwrap().inst() == installation@ && r.unwrap().save() == save_data@,
            r is Err ==> r matches Err(FsError::NotAbsolutePath),
    {
        let inst_ok = is_clean(installation.as_str()) && installation.as_str().get_char(0) == '/';
        let save_ok = is_clean(save_data.as_str()) && save_data.as_str().get_char(0) == '/';
        if inst_ok && save_ok {
            Ok(Roots { installation, save_data })
        } else {
            Err(FsError::NotAbsolutePath)
        }
    }

    /// The installation root as a string.
    pub fn installation_root(&self) -> (r: &String)
        ensures
            r@ == self.inst(),
            clean_abs(r@),
    {
        proof {
            use_type_invariant(self);
        }
        &self.installation
    }

    /// The save-data root as a string.
    pub fn save_data_root(&self) -> (r: &String)
        ensures
            r@ == self.save(),
            clean_abs(r@),
    {
        proof {
            use_type_invariant(self);
        }
        &self.save_data
    }
}

/// What the operating system reported about the current user: constructed by
/// the caller at startup, present only when a home directory could be
/// determined, and carrying the user's documents folder when one exists.
pub struct UserProfile {
    pub document_dir: Option<String>,
}

impl UserProfile {
    /// The documents folder's path, if any.
    pub open spec fn doc_view(&self) -> Option<Seq<char>> {
        match self.document_dir {
            Some(ref d) => Some(d@),
            None => None,
        }
    }
}

/// The ordered candidate save-data directories for a user profile: the
/// documents-folder game path when there is one, then the
/// compatibility-layer prefix, then the installation-relative fallback.
pub open spec fn candidates_spec(doc: Option<Seq<char>>) -> Seq<Seq<char>> {
    let tail = seq!["./../../steamapps/compatdata/590380/pfx/"@, "./user"@];
    match doc {
        Some(d) => seq![join_spec(d, "My Games/Into The Breach"@)] + tail,
        None => tail,
    }
}

/// Build the candidate list for `profile`, in search order.
fn build_candidates(profile: &UserProfile) -> (r: Vec<String>)
    ensures
        r.deep_view() == candidates_spec(profile.doc_view()),
{
    let mut out: Vec<String> = Vec::new();
    match &profile.document_dir {
        Some(d) => {
            out.push(join_segment(d.as_str(), "My Games/Into The Breach"));
        },
        None => {},
    }
    out.push(String::from_str("./../../steamapps/compatdata/590380/pfx/"));
    out.push(String::from_str("./user"));
    proof {
        assert(out.deep_view() =~= candidates_spec(profile.doc_view()));
    }
    out
}

/// Determines the save-data root once per process: an ordered candidate
/// search, validated by the marker file, memoized on success and retried in
/// full after a failure.
pub struct RootResolver {
    installation: String,
    profile: Option<UserProfile>,
    cached_save_root: Option<String>,
}

impl RootResolver {
    /// The installation root's path.
    pub closed spec fn inst(&self) -> Seq<char> {
        self.installation@
    }

    /// The user profile, as far as the OS reported one.
    pub closed spec fn profile_view(&self) -> Option<Option<Seq<char>>> {
        match self.profile {
            Some(ref p) => Some(p.doc_view()),
            None => None,
        }
    }

    /// The memoized save-data root, if resolution has succeeded before.
    pub closed spec fn cached(&self) -> Option<Seq<char>> {
        match self.cached_save_root {
            Some(ref s) => Some(s@),
            None => None,
        }
    }

    /// The installation root is canonical absolute, and so is any memoized
    /// save-data root.
    pub open spec fn wf(&self) -> bool {
        &&& clean_abs(self.inst())
        &&& (self.cached() is Some ==> clean_abs(self.cached().unwrap()))
    }

    /// Start a resolver with nothing memoized. The installation root must be
    /// a canonical absolute path.
    pub fn new(installation: String, profile: Option<UserProfile>) -> (r: Result<
        RootResolver,
        FsError,
    >)
        ensures
            r is Ok <==> clean_abs(installation@),
            r is Ok ==> r.unwrap().wf() && r.unwrap().inst() == installation@ && r.unwrap().cached()
                is None && r.unwrap().profile_view() == profile_opt_view(profile),
            r is Err ==> r matches Err(FsError::NotAbsolutePath),
    {
        let inst_ok = is_clean(installation.as_str()) && installation.as_str().get_char(0) == '/';
        if inst_ok {
            Ok(RootResolver { installation, profile, cached_save_root: None })
        } else {
            Err(FsError::NotAbsolutePath)
        }
    }

    /// The installation root as a string.
    pub fn installation_root(&self) -> (r: &String)
        ensures
            r@ == self.inst(),
    {
        &self.installation
    }

    /// Resolve the save-data root. A memoized result is returned as is, with
    /// no renewed search; otherwise each candidate is probed in order for
    /// the marker file and `select_save_data_root` picks the first hit,
    /// which is memoized; failure leaves the resolver exactly as it was, so
    /// a later call searches again.
    pub fn save_data_root(&mut self) -> (r: Result<String, FsError>)
        requires
            old(self).wf(),
        ensures
            final(self).wf(),
            final(self).inst() == old(self).inst(),
            final(self).profile_view() == old(self).profile_view(),
            old(self).cached() is Some ==> r is Ok && r.unwrap()@ == old(self).cached().unwrap()
                && final(self).cached() == old(self).cached(),
            r is Ok ==> final(self).cached() == Some(r.unwrap()@) && clean_abs(r.unwrap()@),
            r is Err ==> (r matches Err(FsError::SaveDataLocationUnresolvable)) && *final(self)
                == *old(self) && old(self).cached() is None,
            old(self).profile_view() is None && old(self).cached() is None ==> r is Err,
            r is Ok && old(self).cached() is None ==> old(self).profile_view() is Some && (exists|
                i: int,
            |
                0 <= i < candidates_spec(old(self).profile_view().unwrap()).len() && r.unwrap()@
                    == absolutized(
                    norm_spec(candidates_spec(old(self).profile_view().unwrap())[i]),
                    old(self).inst(),
                )),
    {
        match &self.cached_save_root {
            Some(s) => {
                return Ok(s.clone());
            },
            None => {},
        }
        let cands = match &self.profile {
            None => {
                return Err(FsError::SaveDataLocationUnresolvable);
            },
            Some(p) => build_candidates(p),
        };
        let mut answers: Vec<bool> = Vec::new();
        let mut idx: usize = 0;
        while idx < cands.len()
            invariant
                idx <= cands.len(),
                answers@.len() == idx,
            decreases cands.len() - idx,
        {
            answers.push(PathFilter::is_save_data_location_valid(cands[idx].as_str()));
            idx = idx + 1;
        }
        match select_save_data_root(&cands, &answers, &self.installation) {
            Ok(abs) => {
                proof {
                    let i = choose|i: int|
                        0 <= i < answers@.len() && answers@[i] && (forall|j: int|
                            0 <= j < i ==> !answers@[j]) && abs@ == absolutized(
                            norm_spec(cands@[i]@),
                            self.installation@,
                        );
                    assert(cands.deep_view()[i] == cands@[i]@);
                    assert(0 <= i < candidates_spec(old(self).profile_view().unwrap()).len()
                        && abs@ == absolutized(
                        norm_spec(candidates_spec(old(self).profile_view().unwrap())[i]),
                        old(self).inst(),
                    ));
                }
                self.cached_save_root = Some(abs.clone());
                Ok(abs)
            },
            Err(e) => Err(e),
        }
    }
}

/// Select the save-data root from the candidates and their marker answers:
/// the first candidate whose probe answered true, separator-normalized and
/// absolutized against the installation root; unresolvable exactly when no
/// probe answered true.
pub fn select_save_data_root(cands: &Vec<String>, answers: &Vec<bool>, installation: &String) -> (r:
    Result<String, FsError>)
    requires
        cands@.len() == answers@.len(),
        clean_abs(installation@),
    ensures
        r is Ok <==> exists|i: int| 0 <= i < answers@.len() && answers@[i],
        r is Ok ==> exists|i: int|
            0 <= i < answers@.len() && answers@[i] && (forall|j: int| 0 <= j < i ==> !answers@[j])
                && r.unwrap()@ == absolutized(norm_spec(cands@[i]@), installation@),
        r is Ok ==> clean_abs(r.unwrap()@),
        r is Err ==> r matches Err(FsError::SaveDataLocationUnresolvable),
{
    let mut i: usize = 0;
    while i < answers.len()
        invariant
            i <= answers@.len(),
            cands@.len() == answers@.len(),
            clean_abs(installation@),
            forall|j: int| 0 <= j < i ==> !answers@[j],
        decreases answers.len() - i,
    {
        if answers[i] {
            let slashed = normalize(cands[i].as_str());
            proof {
                lemma_norm_no_backslash(cands@[i as int]@);
            }
            let abs = absolutize_from(slashed.as_str(), installation.as_str());
            return Ok(abs);
        }
        i = i + 1;
    }
    Err(FsError::SaveDataLocationUnresolvable)
}

/// The profile a resolver was started with, seen as its view.
pub open spec fn profile_opt_view(profile: Option<UserProfile>) -> Option<Option<Seq<char>>> {
    match profile {
        Some(p) => Some(p.doc_view()),
        None => None,
    }
}

} // verus!

//! Normalised repository paths, modelled as their canonical textual form,
//! and the check whether a path lies inside a git work tree.

use vstd::prelude::*;

use crate::error::{CustomErrorTrait, WithBacktrace};

verus! {

/// A repository path in canonical form. The filesystem work of normalising
/// (resolving against the working directory, canonicalising, walking to the
/// repository root) is the caller's; this type carries the result.
#[derive(Clone, Debug)]
pub struct NormalisedGitPath {
    path: String,
}

impl View for NormalisedGitPath {
    type V = Seq<char>;

    closed spec fn view(&self) -> Seq<char> {
        self.path@
    }
}

impl DeepView for NormalisedGitPath {
    type V = Seq<char>;

    closed spec fn deep_view(&self) -> Seq<char> {
        self.path@
    }
}

impl NormalisedGitPath {
    /// Wraps an already-canonical path.
    pub fn from_canonical(path: String) -> (r: Self)
        ensures
            r@ == path@,
            r.deep_view() == path@,
    {
        NormalisedGitPath { path }
    }

    /// The canonical path.
    pub fn path(&self) -> (r: &String)
        ensures
            r@ == self@,
    {
        &self.path
    }
}

/// Why a path could not be normalised.
#[derive(Debug)]
pub enum NormalisedPathError {
    PathNotExists(String, String),
    PathNotGitRepository(String, String),
    Other(String, String),
}

impl WithBacktrace for NormalisedPathError {
    fn backtrace(&self) -> &String {
        match self {
            NormalisedPathError::PathNotExists(_, s) => s,
            NormalisedPathError::PathNotGitRepository(_, s) => s,
            NormalisedPathError::Other(_, s) => s,
        }
    }
}

impl CustomErrorTrait for NormalisedPathError {
}

/// Is the path inside a git work tree? The caller supplies, for the path
/// and each of its ancestors in turn, whether that directory holds a `.git`
/// entry; the path is inside a work tree exactly when any of them does.
pub fn is_git(git_entry_along_path: &Vec<bool>) -> (r: bool)
    ensures
        r == exists|i: int|
            0 <= i < git_entry_along_path@.len() && git_entry_along_path@[i],
{
    let mut i: usize = 0;
    while i < git_entry_along_path.len()
        invariant
            i <= git_entry_along_path@.len(),
            forall|j: int| 0 <= j < i ==> !git_entry_along_path@[j],
        decreases git_entry_along_path@.len() - i,
    {
        if git_entry_along_path[i] {
            return true;
        }
        i += 1;
    }
    false
}

} // verus!

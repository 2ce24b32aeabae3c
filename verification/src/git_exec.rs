//! Finding the real `git` executable on `PATH` (which may hold this very
//! program under the name `git`).

use vstd::prelude::*;

verus! {

/// What is known of a file on the search path: whether it is a regular
/// file, whether it is a symbolic link, and its Unix permission bits.
pub open spec fn runnable(is_file: bool, is_symlink: bool, mode: u32) -> bool {
    if is_file {
        mode & 0o111 != 0
    } else {
        is_symlink
    }
}

/// A regular file counts as runnable where someone may execute it; anything
/// else only where it is a symbolic link.
pub fn is_runnable(is_file: bool, is_symlink: bool, mode: u32) -> (res: bool)
    ensures
        res == runnable(is_file, is_symlink, mode),
{
    if is_file {
        mode & 0o111 != 0
    } else {
        is_symlink
    }
}

/// A `git` found in one directory of `PATH`.
#[derive(Debug, Clone, Copy)]
pub struct GitCandidate {
    /// The file can be run.
    pub runnable: bool,
    /// Its canonical path could be found.
    pub resolved: bool,
    /// Its canonical path is that of this program.
    pub is_self: bool,
}

/// A candidate that can stand in for the real `git`.
pub open spec fn acceptable(c: GitCandidate) -> bool {
    c.runnable && c.resolved && !c.is_self
}

/// The first acceptable candidate, in `PATH` order.
pub fn pick_git_candidate(candidates: &[GitCandidate]) -> (res: Option<usize>)
    ensures
        res matches Some(i) ==> i < candidates@.len() && acceptable(candidates@[i as int])
            && forall|j: int| 0 <= j < i ==> !acceptable(#[trigger] candidates@[j]),
        res is None ==> forall|j: int|
            0 <= j < candidates@.len() ==> !acceptable(#[trigger] candidates@[j]),
{
    for i in 0..candidates.len()
        invariant
            forall|j: int| 0 <= j < i ==> !acceptable(#[trigger] candidates@[j]),
    {
        let c = candidates[i];
        if c.runnable && c.resolved && !c.is_self {
            return Some(i);
        }
    }
    None
}

} // verus!

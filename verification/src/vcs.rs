//! Which version control system a directory belongs to.
//!
//! The walk up the directory tree is driven by the caller, which looks for
//! the `.jj` and `.git` markers of each directory in turn; the decisions are
//! made here.

use vstd::prelude::*;
use crate::error::Error;

verus! {

/// Type of VCS detected.
#[derive(Debug, Clone, Copy, PartialEq, Eq, Structural)]
pub enum VcsType {
    /// Pure Git repository
    Git,
    /// Pure jj repository (non-colocated)
    Jj,
    /// Colocated jj repository (both .git and .jj exist)
    JjColocated,
}

impl VcsType {
    /// Whether jj manages the repository.
    pub fn is_jj(&self) -> (r: bool)
        ensures
            r == (*self == VcsType::Jj || *self == VcsType::JjColocated),
    {
        match self {
            VcsType::Jj | VcsType::JjColocated => true,
            VcsType::Git => false,
        }
    }
}

/// The markers of one directory: whether `.jj` is a directory there and
/// whether `.git` exists there.
#[derive(Debug, Clone, Copy, PartialEq, Eq, Structural)]
pub struct Markers {
    pub has_jj: bool,
    pub has_git: bool,
}

/// What the markers of one directory say: jj first, colocated when `.git`
/// is there too; else git; else nothing.
pub open spec fn vcs_of_markers(m: Markers) -> Option<VcsType> {
    if m.has_jj {
        if m.has_git {
            Some(VcsType::JjColocated)
        } else {
            Some(VcsType::Jj)
        }
    } else if m.has_git {
        Some(VcsType::Git)
    } else {
        None
    }
}

/// What the markers of one directory say.
pub fn classify_markers(m: Markers) -> (r: Option<VcsType>)
    ensures
        r == vcs_of_markers(m),
{
    if m.has_jj {
        if m.has_git {
            return Some(VcsType::JjColocated);
        }
        return Some(VcsType::Jj);
    }
    if m.has_git {
        return Some(VcsType::Git);
    }
    None
}

/// The VCS of the nearest directory, from the start upwards, whose markers
/// name one.
pub open spec fn nearest_vcs(ms: Seq<Markers>) -> Option<VcsType>
    decreases ms.len(),
{
    if ms.len() == 0 {
        None
    } else {
        match vcs_of_markers(ms[0]) {
            Some(v) => Some(v),
            None => nearest_vcs(ms.drop_first()),
        }
    }
}

/// Walk up the directory tree: `markers` holds those of the start directory
/// and of each of its ancestors, in order, up to the root.
pub fn find_vcs_root(markers: &[Markers]) -> (r: Option<VcsType>)
    ensures
        r == nearest_vcs(markers@),
{
    let mut i: usize = 0;
    proof {
        assert(markers@.skip(0) =~= markers@);
    }
    while i < markers.len()
        invariant
            i <= markers.len(),
            nearest_vcs(markers@) == nearest_vcs(markers@.skip(i as int)),
        decreases markers.len() - i,
    {
        proof {
            assert(markers@.skip(i as int).drop_first() =~= markers@.skip(i + 1));
            assert(markers@.skip(i as int)[0] == markers@[i as int]);
        }
        match classify_markers(markers[i]) {
            Some(v) => {
                return Some(v);
            },
            None => {},
        }
        i = i + 1;
    }
    None
}

/// The next step of the walk up the tree from one directory.
#[derive(Debug, Clone, Copy, PartialEq, Eq, Structural)]
pub enum WalkStep {
    /// The directory's markers name a VCS.
    Found(VcsType),
    /// Look at the parent directory.
    Up,
    /// The root was reached without finding one.
    NotFound,
}

/// One step of the walk: what a directory's markers say, or where to go.
pub fn walk_step(m: Markers, has_parent: bool) -> (r: WalkStep)
    ensures
        match vcs_of_markers(m) {
            Some(v) => r == WalkStep::Found(v),
            None => r == (if has_parent {
                WalkStep::Up
            } else {
                WalkStep::NotFound
            }),
        },
{
    match classify_markers(m) {
        Some(v) => WalkStep::Found(v),
        None => if has_parent {
            WalkStep::Up
        } else {
            WalkStep::NotFound
        },
    }
}

/// The VCS by the `jj root` and `git rev-parse --git-dir` commands: jj
/// first, colocated when git answers too; else git; else none.
pub open spec fn vcs_by_commands(jj_ok: bool, git_ok: bool) -> Result<VcsType, Error> {
    if jj_ok {
        if git_ok {
            Ok(VcsType::JjColocated)
        } else {
            Ok(VcsType::Jj)
        }
    } else if git_ok {
        Ok(VcsType::Git)
    } else {
        Err(Error::NotInAnyRepo)
    }
}

/// Detect the VCS at a path: by the markers found walking up the tree, or,
/// where they name none, by whether the `jj` and `git` commands recognise
/// the path.
pub fn detect_vcs_at(found: Option<VcsType>, jj_ok: bool, git_ok: bool) -> (r: Result<VcsType, Error>)
    ensures
        match found {
            Some(v) => r == Ok::<VcsType, Error>(v),
            None => r == vcs_by_commands(jj_ok, git_ok),
        },
{
    if let Some(vcs_type) = found {
        return Ok(vcs_type);
    }
    if jj_ok {
        if git_ok {
            return Ok(VcsType::JjColocated);
        }
        return Ok(VcsType::Jj);
    }
    if git_ok {
        return Ok(VcsType::Git);
    }
    Err(Error::NotInAnyRepo)
}

/// The walk stops at the first directory with a marker: markers further up
/// do not matter once one is found.
pub proof fn law_nearest_marker_wins(ms: Seq<Markers>, more: Seq<Markers>)
    requires
        nearest_vcs(ms) is Some,
    ensures
        nearest_vcs(ms + more) == nearest_vcs(ms),
    decreases ms.len(),
{
    assert((ms + more)[0] == ms[0]);
    if vcs_of_markers(ms[0]) is None {
        assert((ms + more).drop_first() =~= ms.drop_first() + more);
        law_nearest_marker_wins(ms.drop_first(), more);
    }
}

} // verus!

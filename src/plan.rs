//! The decisions between selection and publication: permission bits to
//! tree modes, candidates to destinations with conflict detection, and
//! whether a commit is needed.

use vstd::prelude::*;

use crate::error::CommitError;
use crate::paths::{destination, destination_of, opt_view, RelPath};

verus! {

/// The tree mode of an executable file.
pub const EXECUTABLE_MODE: u32 = 0o100755;

/// The tree mode of a regular file.
pub const REGULAR_MODE: u32 = 0o100644;

/// The tree mode for POSIX permission bits: executable where any execute
/// bit is set, else regular where any read bit is set, else none.
pub open spec fn mode_class(mode: u32) -> Option<u32> {
    if mode & 0o111u32 != 0 {
        Some(EXECUTABLE_MODE)
    } else if mode & 0o444u32 != 0 {
        Some(REGULAR_MODE)
    } else {
        None
    }
}

/// Classifies POSIX permission bits as a tree mode.
pub fn classify_mode(mode: u32) -> (r: Result<u32, CommitError>)
    ensures
        mode_class(mode) is Some ==> r == Ok::<u32, CommitError>(mode_class(mode)->0),
        mode_class(mode) is None ==> (r matches Err(CommitError::UnsupportedMode { mode: m }) && m == mode),
{
    if mode & 0o111u32 != 0 {
        Ok(EXECUTABLE_MODE)
    } else if mode & 0o444u32 != 0 {
        Ok(REGULAR_MODE)
    } else {
        Err(CommitError::UnsupportedMode { mode })
    }
}

/// A regular file slated for the commit: its path and permission bits.
pub struct LocalFile {
    pub path: RelPath,
    pub mode: u32,
}

/// A blob to be added to the tree: where it comes from, where it goes, and
/// its tree mode.
pub struct PlannedEntry {
    pub source: RelPath,
    pub destination: RelPath,
    pub mode: u32,
}

/// How the destination of each candidate is computed.
pub struct PathRules {
    pub source: Option<RelPath>,
    pub flatten: bool,
    pub target: Option<RelPath>,
}

/// The destination of `p` under `rules`.
pub open spec fn dest_for(rules: PathRules, p: Seq<Seq<char>>) -> Option<Seq<Seq<char>>> {
    destination_of(p, opt_view(rules.source), rules.flatten, opt_view(rules.target))
}

/// Files `j` and `k` have one and the same destination.
pub open spec fn collides(files: Seq<LocalFile>, rules: PathRules, j: int, k: int) -> bool {
    &&& dest_for(rules, files[j].path@) is Some
    &&& dest_for(rules, files[j].path@) == dest_for(rules, files[k].path@)
}

/// File `k` has a destination, shares it with no earlier file, and has a
/// supported mode.
pub open spec fn entry_ok(files: Seq<LocalFile>, rules: PathRules, k: int) -> bool {
    &&& dest_for(rules, files[k].path@) is Some
    &&& forall|j: int| 0 <= j < k ==> !collides(files, rules, j, k)
    &&& mode_class(files[k].mode) is Some
}

/// Every file can be placed in the tree.
pub open spec fn plan_ok(files: Seq<LocalFile>, rules: PathRules) -> bool {
    forall|k: int| 0 <= k < files.len() ==> entry_ok(files, rules, k)
}

/// `e` is the error for file `k`, the first that cannot be placed: its path
/// is not under the source root; else it collides with the earliest file
/// `j` that has its destination; else its mode is unsupported.
pub open spec fn error_for(files: Seq<LocalFile>, rules: PathRules, k: int, e: CommitError) -> bool {
    if dest_for(rules, files[k].path@) is None {
        (e matches CommitError::PathTransformError { path } && path@ == files[k].path@)
    } else if exists|j: int| 0 <= j < k && collides(files, rules, j, k) {
        exists|j: int|
            #![trigger collides(files, rules, j, k)]
            0 <= j < k && collides(files, rules, j, k) && (forall|i: int|
                0 <= i < j ==> !collides(files, rules, i, k)) && (e matches CommitError::PathConflict {
                path,
                other,
            } && path@ == files[k].path@ && other@ == files[j].path@)
    } else {
        (e matches CommitError::UnsupportedMode { mode } && mode == files[k].mode)
    }
}

/// The first planned entry whose destination is `dest`.
fn first_collision(planned: &Vec<PlannedEntry>, dest: &RelPath) -> (r: Option<usize>)
    ensures
        r is Some ==> r->0 < planned@.len() && planned@[r->0 as int].destination@ == dest@,
        r is Some ==> forall|i: int| 0 <= i < r->0 ==> (#[trigger] planned@[i]).destination@ != dest@,
        r is None ==> forall|i: int| 0 <= i < planned@.len() ==> (#[trigger] planned@[i]).destination@ != dest@,
{
    let mut j: usize = 0;
    while j < planned.len()
        invariant
            j <= planned@.len(),
            forall|i: int| 0 <= i < j ==> (#[trigger] planned@[i]).destination@ != dest@,
        decreases planned@.len() - j,
    {
        if planned[j].destination.same(dest) {
            return Some(j);
        }
        j = j + 1;
    }
    None
}

/// Turns the candidate files into tree entries, in order, before anything
/// is written remotely: each file's destination, checked against every
/// earlier destination, and its tree mode.
pub fn plan_entries(files: &Vec<LocalFile>, rules: &PathRules) -> (r: Result<Vec<PlannedEntry>, CommitError>)
    ensures
        r is Ok <==> plan_ok(files@, *rules),
        r is Ok ==> r->Ok_0.len() == files.len() && forall|k: int|
            0 <= k < files.len() ==> {
                &&& (#[trigger] r->Ok_0@[k]).source@ == files@[k].path@
                &&& Some(r->Ok_0@[k].destination@) == dest_for(*rules, files@[k].path@)
                &&& Some(r->Ok_0@[k].mode) == mode_class(files@[k].mode)
            },
        r is Err ==> exists|k: int|
            0 <= k < files.len() && (forall|i: int| 0 <= i < k ==> entry_ok(files@, *rules, i))
                && !entry_ok(files@, *rules, k) && error_for(files@, *rules, k, r->Err_0),
{
    let mut planned: Vec<PlannedEntry> = Vec::new();
    let mut k: usize = 0;
    while k < files.len()
        invariant
            k <= files@.len(),
            planned@.len() == k,
            forall|i: int| 0 <= i < k ==> entry_ok(files@, *rules, i),
            forall|i: int|
                0 <= i < k ==> {
                    &&& (#[trigger] planned@[i]).source@ == files@[i].path@
                    &&& Some(planned@[i].destination@) == dest_for(*rules, files@[i].path@)
                    &&& Some(planned@[i].mode) == mode_class(files@[i].mode)
                },
        decreases files@.len() - k,
    {
        let file = &files[k];
        let dest = match destination(&file.path, &rules.source, rules.flatten, &rules.target) {
            Some(d) => d,
            None => {
                let e = CommitError::PathTransformError { path: file.path.duplicate() };
                assert(!entry_ok(files@, *rules, k as int));
                assert(error_for(files@, *rules, k as int, e));
                return Err(e);
            },
        };
        match first_collision(&planned, &dest) {
            Some(j) => {
                assert(collides(files@, *rules, j as int, k as int));
                assert forall|i: int| 0 <= i < j implies !collides(files@, *rules, i, k as int) by {
                    assert(planned@[i].destination@ != dest@);
                }
                let p = files[k].path.duplicate();
                let o = files[j].path.duplicate();
                let e = CommitError::PathConflict { path: p, other: o };
                assert(!entry_ok(files@, *rules, k as int));
                assert(error_for(files@, *rules, k as int, e));
                return Err(e);
            },
            None => {
                assert forall|i: int| 0 <= i < k implies !collides(files@, *rules, i, k as int) by {
                    assert(planned@[i].destination@ != dest@);
                }
            },
        }
        let mode = match classify_mode(file.mode) {
            Ok(m) => m,
            Err(e) => {
                assert(!entry_ok(files@, *rules, k as int));
                assert(!(exists|i: int| 0 <= i < k && collides(files@, *rules, i, k as int)));
                assert(error_for(files@, *rules, k as int, e));
                return Err(e);
            },
        };
        assert(entry_ok(files@, *rules, k as int));
        planned.push(PlannedEntry { source: file.path.duplicate(), destination: dest, mode });
        k = k + 1;
    }
    Ok(planned)
}

/// What to do once the entries are known.
pub enum CommitAction {
    /// Nothing changed: the reference keeps the base commit.
    KeepBase,
    /// Commit the base tree as it stands.
    CommitBaseTree,
    /// Commit the base tree with the new entries layered onto it.
    CommitMergedTree,
}

/// The commit gate: with no entries and without `always`, nothing is
/// committed; otherwise a commit is made, on the base tree itself where
/// there are no entries.
pub open spec fn action_for(always: Option<bool>, entry_count: nat) -> CommitAction {
    if entry_count == 0 {
        if always == Some(true) {
            CommitAction::CommitBaseTree
        } else {
            CommitAction::KeepBase
        }
    } else {
        CommitAction::CommitMergedTree
    }
}

/// Decides whether and how to commit, from the final number of entries.
pub fn decide_commit(always: Option<bool>, entry_count: usize) -> (r: CommitAction)
    ensures
        r == action_for(always, entry_count as nat),
{
    if entry_count == 0 {
        match always {
            Some(true) => CommitAction::CommitBaseTree,
            _ => CommitAction::KeepBase,
        }
    } else {
        CommitAction::CommitMergedTree
    }
}

/// Two distinct candidates that map to one destination make the whole plan
/// fail, wherever they stand among the candidates.
pub proof fn lemma_conflict_fails_plan(files: Seq<LocalFile>, rules: PathRules, i: int, j: int)
    requires
        0 <= i < j < files.len(),
        files[i].path@ != files[j].path@,
        dest_for(rules, files[i].path@) is Some,
        dest_for(rules, files[i].path@) == dest_for(rules, files[j].path@),
    ensures
        !plan_ok(files, rules),
{
    assert(collides(files, rules, i, j));
    assert(!entry_ok(files, rules, j));
}

} // verus!

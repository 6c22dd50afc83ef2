//! Candidate selection: the paths that the include patterns matched, less
//! those the remote tree already holds unchanged and those the exclude
//! patterns matched.

use vstd::prelude::*;

use crate::paths::RelPath;
use crate::plan::{action_for, CommitAction};

verus! {

/// Some path of `v` has the components `p`.
pub open spec fn has_path(v: Seq<RelPath>, p: Seq<Seq<char>>) -> bool {
    exists|i: int| 0 <= i < v.len() && (#[trigger] v[i])@ == p
}

/// No two paths of `v` have the same components.
pub open spec fn distinct_paths(v: Seq<RelPath>) -> bool {
    forall|i: int, j: int| 0 <= i < j < v.len() ==> (#[trigger] v[i])@ != (#[trigger] v[j])@
}

/// `p` belongs to the candidate set: an include pattern matched it, it is
/// not unchanged, and no exclude pattern matched it.
pub open spec fn selected(
    included: Seq<RelPath>,
    excluded: Seq<RelPath>,
    unchanged: Seq<RelPath>,
    p: Seq<Seq<char>>,
) -> bool {
    has_path(included, p) && !has_path(unchanged, p) && !has_path(excluded, p)
}

/// Whether some path of `v` has the components of `p`.
pub fn contains_path(v: &Vec<RelPath>, p: &RelPath) -> (r: bool)
    ensures
        r == has_path(v@, p@),
{
    let mut i: usize = 0;
    while i < v.len()
        invariant
            i <= v@.len(),
            forall|j: int| 0 <= j < i ==> (#[trigger] v@[j])@ != p@,
        decreases v@.len() - i,
    {
        if v[i].same(p) {
            return true;
        }
        i = i + 1;
    }
    false
}

/// The candidate set: every path that an include pattern matched, unless
/// it is unchanged or an exclude pattern matched it. `included` and
/// `excluded` hold the matches of all patterns of each list; a path may
/// occur in them more than once. The result holds each path once.
pub fn select_candidates(
    included: &Vec<RelPath>,
    excluded: &Vec<RelPath>,
    unchanged: &Vec<RelPath>,
) -> (r: Vec<RelPath>)
    ensures
        distinct_paths(r@),
        forall|p: Seq<Seq<char>>| has_path(r@, p) <==> selected(included@, excluded@, unchanged@, p),
{
    let mut r: Vec<RelPath> = Vec::new();
    let mut k: usize = 0;
    while k < included.len()
        invariant
            k <= included@.len(),
            distinct_paths(r@),
            forall|p: Seq<Seq<char>>|
                has_path(r@, p) <==> (has_path(included@.subrange(0, k as int), p) && !has_path(
                    unchanged@,
                    p,
                ) && !has_path(excluded@, p)),
        decreases included@.len() - k,
    {
        let c = &included[k];
        let keep = !contains_path(unchanged, c) && !contains_path(excluded, c) && !contains_path(&r, c);
        let ghost before = r@;
        let ghost q = c@;
        if keep {
            r.push(c.duplicate());
        }
        proof {
            let sub = included@.subrange(0, k + 1);
            assert(sub =~= included@.subrange(0, k as int).push(included@[k as int]));
            assert forall|p: Seq<Seq<char>>|
                has_path(r@, p) <==> (has_path(sub, p) && !has_path(unchanged@, p) && !has_path(
                    excluded@,
                    p,
                )) by {
                if has_path(sub, p) {
                    let i = choose|i: int| 0 <= i < sub.len() && (#[trigger] sub[i])@ == p;
                    if i < k {
                        assert(included@.subrange(0, k as int)[i] == sub[i]);
                        assert(has_path(included@.subrange(0, k as int), p));
                    }
                }
                if has_path(included@.subrange(0, k as int), p) {
                    let i = choose|i: int|
                        0 <= i < k && (#[trigger] included@.subrange(0, k as int)[i])@ == p;
                    assert(sub[i] == included@.subrange(0, k as int)[i]);
                }
                if has_path(r@, p) {
                    let i = choose|i: int| 0 <= i < r@.len() && (#[trigger] r@[i])@ == p;
                    if i < before.len() {
                        assert(before[i] == r@[i]);
                    }
                }
                if has_path(before, p) {
                    let i = choose|i: int| 0 <= i < before.len() && (#[trigger] before[i])@ == p;
                    assert(before[i] == r@[i]);
                }
                if p == q {
                    assert(sub[k as int]@ == q);
                    if keep {
                        assert(r@[before.len() as int]@ == q);
                    }
                }
            }
        }
        k = k + 1;
    }
    assert(included@.subrange(0, k as int) =~= included@);
    r
}

/// A blob entry of the remote tree: its path from the tree's root, its
/// content id and its tree mode.
pub struct RemoteBlob {
    pub path: RelPath,
    pub content_id: String,
    pub mode: u32,
}

/// Remote blob `i` is known to hold what the local file at its path holds.
pub open spec fn same_content(remote: Seq<RemoteBlob>, local: Seq<Option<String>>, i: int) -> bool {
    local[i] is Some && local[i]->0@ == remote[i].content_id@
}

/// The paths whose local content id equals that of the remote blob at the
/// same path. `local[i]` is the content id of the local file at the path of
/// `remote[i]`, or `None` where it could not be computed: such a path is
/// never unchanged.
pub fn unchanged_paths(remote: &Vec<RemoteBlob>, local: &Vec<Option<String>>) -> (r: Vec<RelPath>)
    requires
        remote@.len() == local@.len(),
    ensures
        r@.len() <= remote@.len(),
        forall|p: Seq<Seq<char>>|
            has_path(r@, p) <==> exists|i: int|
                0 <= i < remote@.len() && (#[trigger] remote@[i]).path@ == p && same_content(
                    remote@,
                    local@,
                    i,
                ),
{
    let mut r: Vec<RelPath> = Vec::new();
    let mut k: usize = 0;
    while k < remote.len()
        invariant
            k <= remote@.len() == local@.len(),
            r@.len() <= k,
            forall|p: Seq<Seq<char>>|
                has_path(r@, p) <==> exists|i: int|
                    0 <= i < k && (#[trigger] remote@[i]).path@ == p && same_content(remote@, local@, i),
        decreases remote@.len() - k,
    {
        let ghost before = r@;
        let same = match &local[k] {
            Some(id) => *id == remote[k].content_id,
            None => false,
        };
        if same {
            r.push(remote[k].path.duplicate());
        }
        proof {
            assert forall|p: Seq<Seq<char>>|
                has_path(r@, p) <==> exists|i: int|
                    0 <= i < k + 1 && (#[trigger] remote@[i]).path@ == p && same_content(
                        remote@,
                        local@,
                        i,
                    ) by {
                if has_path(r@, p) {
                    let i = choose|i: int| 0 <= i < r@.len() && (#[trigger] r@[i])@ == p;
                    if i < before.len() {
                        assert(before[i] == r@[i]);
                        assert(has_path(before, p));
                    } else {
                        assert(remote@[k as int].path@ == p);
                    }
                }
                if exists|i: int|
                    0 <= i < k + 1 && (#[trigger] remote@[i]).path@ == p && same_content(remote@, local@, i) {
                    let i = choose|i: int|
                        0 <= i < k + 1 && (#[trigger] remote@[i]).path@ == p && same_content(
                            remote@,
                            local@,
                            i,
                        );
                    if i < k {
                        assert(has_path(before, p));
                        let j = choose|j: int| 0 <= j < before.len() && (#[trigger] before[j])@ == p;
                        assert(r@[j] == before[j]);
                    } else {
                        assert(r@[before.len() as int]@ == p);
                    }
                }
            }
        }
        k = k + 1;
    }
    r
}

/// Where every matched path is unchanged, a candidate list that meets the
/// selection has no entry, and unless a commit is forced through `always`
/// the reference stays on the base commit.
pub proof fn lemma_all_unchanged_keeps_base(
    included: Seq<RelPath>,
    excluded: Seq<RelPath>,
    unchanged: Seq<RelPath>,
    always: Option<bool>,
)
    requires
        forall|p: Seq<Seq<char>>| has_path(included, p) ==> has_path(unchanged, p),
        always != Some(true),
    ensures
        forall|r: Seq<RelPath>|
            (forall|p: Seq<Seq<char>>| has_path(r, p) <==> selected(included, excluded, unchanged, p))
                ==> r.len() == 0,
        action_for(always, 0) == CommitAction::KeepBase,
{
    assert forall|r: Seq<RelPath>|
        (forall|p: Seq<Seq<char>>| has_path(r, p) <==> selected(included, excluded, unchanged, p))
            implies r.len() == 0 by {
        if r.len() > 0 {
            assert(has_path(r, r[0]@));
        }
    }
}

} // verus!

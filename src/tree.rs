//! The listing of a remote tree: its own blobs, and the blobs of each
//! subtree that could be fetched, under the subtree's path.

use vstd::prelude::*;

use crate::paths::RelPath;
use crate::select::RemoteBlob;

verus! {

/// An entry of a remote tree listing.
pub enum RemoteEntry {
    Blob { path: RelPath, content_id: String, mode: u32 },
    Tree { path: RelPath, content_id: String },
}

/// The path, content id and mode of a remote blob.
pub open spec fn blob_view(b: RemoteBlob) -> (Seq<Seq<char>>, Seq<char>, u32) {
    (b.path@, b.content_id@, b.mode)
}

/// The path, content id and mode of each blob, in order.
pub open spec fn blob_views(s: Seq<RemoteBlob>) -> Seq<(Seq<Seq<char>>, Seq<char>, u32)> {
    s.map_values(|b: RemoteBlob| blob_view(b))
}

/// The blobs among `entries`, each with `parent` put in front of its path.
pub open spec fn blobs_within(parent: Seq<Seq<char>>, entries: Seq<RemoteEntry>) -> Seq<
    (Seq<Seq<char>>, Seq<char>, u32),
>
    decreases entries.len(),
{
    if entries.len() == 0 {
        Seq::empty()
    } else {
        let rest = blobs_within(parent, entries.drop_last());
        match entries.last() {
            RemoteEntry::Blob { path, content_id, mode } => rest.push((parent + path@, content_id@, mode)),
            RemoteEntry::Tree { .. } => rest,
        }
    }
}

/// The blobs of the first `n` top-level entries: a blob itself; for a
/// subtree, the blobs of its fetched listing, or none where the fetch
/// failed.
pub open spec fn scanned(top: Seq<RemoteEntry>, fetched: Seq<Option<Vec<RemoteEntry>>>, n: nat) -> Seq<
    (Seq<Seq<char>>, Seq<char>, u32),
>
    decreases n,
{
    if n == 0 {
        Seq::empty()
    } else {
        let rest = scanned(top, fetched, (n - 1) as nat);
        match top[n - 1] {
            RemoteEntry::Blob { path, content_id, mode } => rest.push((path@, content_id@, mode)),
            RemoteEntry::Tree { path, .. } => match fetched[n - 1] {
                Some(sub) => rest + blobs_within(path@, sub@),
                None => rest,
            },
        }
    }
}

/// The paths of the subtrees among the first `n` top-level entries whose
/// fetch failed.
pub open spec fn failed_trees(top: Seq<RemoteEntry>, fetched: Seq<Option<Vec<RemoteEntry>>>, n: nat) -> Seq<
    Seq<Seq<char>>,
>
    decreases n,
{
    if n == 0 {
        Seq::empty()
    } else {
        let rest = failed_trees(top, fetched, (n - 1) as nat);
        match top[n - 1] {
            RemoteEntry::Tree { path, .. } => if fetched[n - 1] is None {
                rest.push(path@)
            } else {
                rest
            },
            RemoteEntry::Blob { .. } => rest,
        }
    }
}

/// What a scan found: the blobs it could list, and the subtrees it could
/// not fetch.
pub struct ScanResult {
    pub blobs: Vec<RemoteBlob>,
    pub failed: Vec<RelPath>,
}

proof fn lemma_blob_views_push(s: Seq<RemoteBlob>, b: RemoteBlob)
    ensures
        blob_views(s.push(b)) == blob_views(s).push(blob_view(b)),
{
    assert(blob_views(s.push(b)) =~= blob_views(s).push(blob_view(b)));
}

proof fn lemma_parts_view_push(s: Seq<RelPath>, p: RelPath)
    ensures
        s.push(p).map_values(|q: RelPath| q@) == s.map_values(|q: RelPath| q@).push(p@),
{
    assert(s.push(p).map_values(|q: RelPath| q@) =~= s.map_values(|q: RelPath| q@).push(p@));
}

/// Appends the blobs among `entries` to `out`, each under `parent`.
fn push_blobs_within(out: &mut Vec<RemoteBlob>, parent: &RelPath, entries: &Vec<RemoteEntry>)
    ensures
        blob_views(final(out)@) == blob_views(old(out)@) + blobs_within(parent@, entries@),
{
    let ghost start = blob_views(out@);
    let mut k: usize = 0;
    while k < entries.len()
        invariant
            k <= entries@.len(),
            blob_views(out@) == start + blobs_within(parent@, entries@.subrange(0, k as int)),
        decreases entries@.len() - k,
    {
        let ghost sub = entries@.subrange(0, k + 1);
        proof {
            assert(sub.drop_last() =~= entries@.subrange(0, k as int));
            assert(sub.last() == entries@[k as int]);
        }
        match &entries[k] {
            RemoteEntry::Blob { path, content_id, mode } => {
                let b = RemoteBlob { path: parent.join(path), content_id: content_id.clone(), mode: *mode };
                let ghost before = out@;
                out.push(b);
                proof {
                    lemma_blob_views_push(before, b);
                }
            },
            RemoteEntry::Tree { .. } => {},
        }
        k = k + 1;
    }
    assert(entries@.subrange(0, k as int) =~= entries@);
}

/// Lists the blobs of a remote tree from its top-level entries and the
/// listing fetched for each of them: `fetched[i]` is the full listing of
/// subtree `top[i]`, or `None` where it is a blob or its fetch failed. A
/// failed subtree contributes no blob and is recorded in `failed`.
pub fn scan_listing(top: &Vec<RemoteEntry>, fetched: &Vec<Option<Vec<RemoteEntry>>>) -> (r: ScanResult)
    requires
        top@.len() == fetched@.len(),
    ensures
        blob_views(r.blobs@) == scanned(top@, fetched@, top@.len()),
        r.failed@.map_values(|q: RelPath| q@) == failed_trees(top@, fetched@, top@.len()),
{
    let mut blobs: Vec<RemoteBlob> = Vec::new();
    let mut failed: Vec<RelPath> = Vec::new();
    let mut k: usize = 0;
    while k < top.len()
        invariant
            k <= top@.len() == fetched@.len(),
            blob_views(blobs@) == scanned(top@, fetched@, k as nat),
            failed@.map_values(|q: RelPath| q@) == failed_trees(top@, fetched@, k as nat),
        decreases top@.len() - k,
    {
        match &top[k] {
            RemoteEntry::Blob { path, content_id, mode } => {
                let b = RemoteBlob { path: path.duplicate(), content_id: content_id.clone(), mode: *mode };
                let ghost before = blobs@;
                blobs.push(b);
                proof {
                    lemma_blob_views_push(before, b);
                }
            },
            RemoteEntry::Tree { path, .. } => match &fetched[k] {
                Some(sub) => {
                    push_blobs_within(&mut blobs, path, sub);
                },
                None => {
                    let p = path.duplicate();
                    let ghost before = failed@;
                    failed.push(p);
                    proof {
                        lemma_parts_view_push(before, p);
                    }
                },
            },
        }
        k = k + 1;
    }
    ScanResult { blobs, failed }
}

/// A tree as a map from each blob's path to its content id and mode.
pub type TreeModel = Map<Seq<Seq<char>>, (Seq<char>, u32)>;

/// The tree built on `base` with the new blob entries layered onto it, in
/// order: each entry takes its path, and every other path keeps what `base`
/// has there.
pub open spec fn layered(base: TreeModel, entries: Seq<(Seq<Seq<char>>, Seq<char>, u32)>) -> TreeModel
    decreases entries.len(),
{
    if entries.len() == 0 {
        base
    } else {
        let e = entries.last();
        layered(base, entries.drop_last()).insert(e.0, (e.1, e.2))
    }
}

/// Layering one new blob onto a tree of `n` entries at a path it does not
/// hold gives a tree of `n + 1` entries, in which each original entry is
/// unaltered.
pub proof fn lemma_layered_keeps_entries(base: TreeModel, path: Seq<Seq<char>>, content_id: Seq<char>, mode: u32)
    requires
        base.dom().finite(),
        !base.dom().contains(path),
    ensures
        layered(base, seq![(path, content_id, mode)]).dom().len() == base.dom().len() + 1,
        layered(base, seq![(path, content_id, mode)])[path] == (content_id, mode),
        forall|p: Seq<Seq<char>>|
            #[trigger] base.dom().contains(p) ==> layered(base, seq![(path, content_id, mode)]).dom().contains(p)
                && layered(base, seq![(path, content_id, mode)])[p] == base[p],
{
    let entries = seq![(path, content_id, mode)];
    assert(entries.drop_last() =~= Seq::<(Seq<Seq<char>>, Seq<char>, u32)>::empty());
    assert(layered(base, entries.drop_last()) == base);
    assert(entries.last() == (path, content_id, mode));
    assert(layered(base, entries) == base.insert(path, (content_id, mode)));
    assert(base.insert(path, (content_id, mode)).dom() =~= base.dom().insert(path));
}

} // verus!

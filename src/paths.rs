//! Relative paths as sequences of components, and the rewriting of a
//! candidate's path into its destination in the commit.

use vstd::prelude::*;

verus! {

/// A path as its sequence of components (`build/a/x.txt` is
/// `["build", "a", "x.txt"]`).
pub struct RelPath {
    pub parts: Vec<String>,
}

/// The characters of each component.
pub open spec fn parts_view(v: Seq<String>) -> Seq<Seq<char>> {
    v.map_values(|s: String| s@)
}

proof fn lemma_parts_push(v: Seq<String>, x: String)
    ensures
        parts_view(v.push(x)) == parts_view(v).push(x@),
{
    assert(parts_view(v.push(x)) =~= parts_view(v).push(x@));
}

impl View for RelPath {
    type V = Seq<Seq<char>>;

    open spec fn view(&self) -> Seq<Seq<char>> {
        parts_view(self.parts@)
    }
}

/// `prefix` is made of the first components of `p`.
pub open spec fn starts_with(p: Seq<Seq<char>>, prefix: Seq<Seq<char>>) -> bool {
    prefix.len() <= p.len() && p.subrange(0, prefix.len() as int) == prefix
}

/// `p` with its parent directories dropped: its file name alone, or `p`
/// itself where it has no component.
pub open spec fn flattened(p: Seq<Seq<char>>) -> Seq<Seq<char>> {
    if p.len() == 0 {
        p
    } else {
        seq![p.last()]
    }
}

/// The destination of `p`: `source` stripped as a required prefix, then the
/// parents dropped where `flatten` holds, then `target` put in front.
/// `None` where `p` does not lie under `source`.
pub open spec fn destination_of(
    p: Seq<Seq<char>>,
    source: Option<Seq<Seq<char>>>,
    flatten: bool,
    target: Option<Seq<Seq<char>>>,
) -> Option<Seq<Seq<char>>> {
    let stripped = match source {
        Some(s) => if starts_with(p, s) {
            Some(p.subrange(s.len() as int, p.len() as int))
        } else {
            None
        },
        None => Some(p),
    };
    match stripped {
        Some(q) => {
            let f = if flatten {
                flattened(q)
            } else {
                q
            };
            Some(
                match target {
                    Some(t) => t + f,
                    None => f,
                },
            )
        },
        None => None,
    }
}

/// The view of an optional path.
pub open spec fn opt_view(p: Option<RelPath>) -> Option<Seq<Seq<char>>> {
    match p {
        Some(q) => Some(q@),
        None => None,
    }
}

impl RelPath {
    /// The path made of `parts`, in order.
    pub fn new(parts: Vec<String>) -> (r: RelPath)
        ensures
            r.parts@ == parts@,
    {
        RelPath { parts }
    }

    /// The empty path.
    pub fn empty() -> (r: RelPath)
        ensures
            r@.len() == 0,
    {
        RelPath { parts: Vec::new() }
    }

    /// The number of components.
    pub fn len(&self) -> (r: usize)
        ensures
            r == self@.len(),
    {
        self.parts.len()
    }

    /// A copy of the path.
    pub fn duplicate(&self) -> (r: RelPath)
        ensures
            r@ == self@,
    {
        self.slice(0, self.parts.len())
    }

    /// The components from `start` up to `end`.
    fn slice(&self, start: usize, end: usize) -> (r: RelPath)
        requires
            start <= end <= self@.len(),
        ensures
            r@ == self@.subrange(start as int, end as int),
    {
        let mut parts: Vec<String> = Vec::new();
        let mut i: usize = start;
        while i < end
            invariant
                start <= i <= end <= self.parts@.len(),
                parts_view(parts@) == self@.subrange(start as int, i as int),
            decreases end - i,
        {
            let part = self.parts[i].clone();
            assert(part@ == self@[i as int]);
            let ghost before = parts@;
            parts.push(part);
            proof {
                lemma_parts_push(before, part);
                assert(parts_view(parts@) =~= self@.subrange(start as int, i + 1));
            }
            i = i + 1;
        }
        RelPath { parts }
    }

    /// Whether the two paths have the same components.
    pub fn same(&self, other: &RelPath) -> (r: bool)
        ensures
            r == (self@ == other@),
    {
        if self.parts.len() != other.parts.len() {
            return false;
        }
        let mut i: usize = 0;
        while i < self.parts.len()
            invariant
                i <= self.parts@.len() == other.parts@.len(),
                self@.subrange(0, i as int) == other@.subrange(0, i as int),
            decreases self.parts@.len() - i,
        {
            if self.parts[i] != other.parts[i] {
                assert(self@[i as int] != other@[i as int]);
                return false;
            }
            proof {
                assert(self@.subrange(0, i + 1) =~= self@.subrange(0, i as int).push(self@[i as int]));
                assert(other@.subrange(0, i + 1) =~= other@.subrange(0, i as int).push(other@[i as int]));
            }
            i = i + 1;
        }
        assert(self@ =~= self@.subrange(0, i as int));
        assert(other@ =~= other@.subrange(0, i as int));
        true
    }

    /// Whether `prefix` is made of the first components of this path.
    pub fn starts_with(&self, prefix: &RelPath) -> (r: bool)
        ensures
            r == starts_with(self@, prefix@),
    {
        if prefix.parts.len() > self.parts.len() {
            return false;
        }
        let head = self.slice(0, prefix.parts.len());
        head.same(prefix)
    }

    /// The path with `prefix` taken off its front; `None` where the path
    /// does not start with it.
    pub fn strip_prefix(&self, prefix: &RelPath) -> (r: Option<RelPath>)
        ensures
            r is Some <==> starts_with(self@, prefix@),
            r is Some ==> r->0@ == self@.subrange(prefix@.len() as int, self@.len() as int),
    {
        if self.starts_with(prefix) {
            Some(self.slice(prefix.parts.len(), self.parts.len()))
        } else {
            None
        }
    }

    /// The file name alone, or the empty path where there is none.
    pub fn flattened(&self) -> (r: RelPath)
        ensures
            r@ == flattened(self@),
    {
        let n = self.parts.len();
        if n == 0 {
            RelPath::empty()
        } else {
            let r = self.slice(n - 1, n);
            assert(r@ =~= flattened(self@));
            r
        }
    }

    /// This path followed by the components of `tail`.
    pub fn join(&self, tail: &RelPath) -> (r: RelPath)
        ensures
            r@ == self@ + tail@,
    {
        let mut r = self.duplicate();
        let mut i: usize = 0;
        while i < tail.parts.len()
            invariant
                i <= tail.parts@.len(),
                r@ == self@ + tail@.subrange(0, i as int),
            decreases tail.parts@.len() - i,
        {
            let part = tail.parts[i].clone();
            assert(part@ == tail@[i as int]);
            let ghost before = r.parts@;
            r.parts.push(part);
            proof {
                lemma_parts_push(before, part);
                assert(r@ =~= self@ + tail@.subrange(0, i + 1));
            }
            i = i + 1;
        }
        assert(tail@.subrange(0, i as int) =~= tail@);
        r
    }
}

/// The destination of `path`, or `None` where it does not lie under
/// `source`.
pub fn destination(
    path: &RelPath,
    source: &Option<RelPath>,
    flatten: bool,
    target: &Option<RelPath>,
) -> (r: Option<RelPath>)
    ensures
        opt_view(r) == destination_of(path@, opt_view(*source), flatten, opt_view(*target)),
{
    let stripped = match source {
        Some(s) => path.strip_prefix(s),
        None => Some(path.duplicate()),
    };
    match stripped {
        Some(q) => {
            let f = if flatten {
                q.flattened()
            } else {
                q
            };
            match target {
                Some(t) => Some(t.join(&f)),
                None => Some(f),
            }
        },
        None => None,
    }
}

} // verus!

//! The exclusion-aware walk over a set of root paths.
//!
//! Reading directories is file-system work, so the crawler is the verified
//! half of a two-party protocol.  It keeps the depth-first stack of paths
//! still to visit; the embedding program asks it for the next path to
//! visit (`run`), looks that path up, and reports what it found (`visit`);
//! when the answer is a directory the crawler is handed the children
//! (`push_children`).  Exclusion is a subtree cut: an excluded path is
//! never handed out, is never enqueued for classification, and its
//! children are never asked for.

use vstd::prelude::*;

use crate::text::contains_substr;
use crate::text::has_substr;

verus! {

/// A path is excluded when its rendering contains any of the exclude
/// fragments.  This is literal substring containment, not path-segment
/// matching: downstream behaviour depends on that.
pub open spec fn excluded(path: Seq<char>, excludes: Seq<Seq<char>>) -> bool {
    exists|i: int| 0 <= i < excludes.len() && has_substr(path, excludes[i])
}

/// What the file system reported for a visited path.
#[derive(Clone, Copy, Debug, PartialEq, Eq, Structural)]
pub enum PathKind {
    /// The path no longer exists: a transient race, skipped silently.
    Missing,
    /// The path exists and is not a directory.
    File,
    /// The path exists and is a directory.
    Directory,
}

/// What the walk does with a visited path.
#[derive(Clone, Copy, Debug, PartialEq, Eq, Structural)]
pub enum VisitAction {
    /// Neither enqueued nor descended into.
    Skip,
    /// Enqueued for classification.
    Enqueue,
    /// Enqueued for classification, and its children are visited next.
    ///
    /// Directories are deliberately enqueued too, not special-cased:
    /// classification fails for them naturally downstream, at the cost of
    /// one diagnostic per directory.
    EnqueueAndDescend,
}

/// The action owed for a path of the given kind.
pub open spec fn spec_visit(path: Seq<char>, kind: PathKind, excludes: Seq<Seq<char>>) -> VisitAction {
    if kind == PathKind::Missing || excluded(path, excludes) {
        VisitAction::Skip
    } else if kind == PathKind::Directory {
        VisitAction::EnqueueAndDescend
    } else {
        VisitAction::Enqueue
    }
}

/// What `run` does to a pending stack: pop excluded paths until a
/// non-excluded one is on top, hand that one out, or end the walk.
pub open spec fn spec_run(pending: Seq<Seq<char>>, excludes: Seq<Seq<char>>) -> (Option<
    Seq<char>,
>, Seq<Seq<char>>)
    decreases pending.len(),
{
    if pending.len() == 0 {
        (None, pending)
    } else if excluded(pending.last(), excludes) {
        spec_run(pending.drop_last(), excludes)
    } else {
        (Some(pending.last()), pending.drop_last())
    }
}

/// The walk never hands out an excluded path.
pub proof fn lemma_run_skips_excluded(pending: Seq<Seq<char>>, excludes: Seq<Seq<char>>)
    ensures
        forall|p: Seq<char>|
            spec_run(pending, excludes).0 == Some(p) ==> !excluded(p, excludes),
    decreases pending.len(),
{
    if pending.len() > 0 && excluded(pending.last(), excludes) {
        lemma_run_skips_excluded(pending.drop_last(), excludes);
    }
}

/// Exclusion cuts the whole subtree, it does not merely filter output: an
/// excluded path is never handed out by `run`, and whatever kind it has,
/// its visit is a `Skip` — it is not enqueued and its children are never
/// asked for, so no descendant of it is ever visited.
pub proof fn lemma_exclusion_is_subtree_cut(
    path: Seq<char>,
    kind: PathKind,
    pending: Seq<Seq<char>>,
    excludes: Seq<Seq<char>>,
)
    requires
        excluded(path, excludes),
    ensures
        spec_visit(path, kind, excludes) == VisitAction::Skip,
        spec_run(pending, excludes).0 != Some(path),
{
    lemma_run_skips_excluded(pending, excludes);
}

/// File crawler that feeds the list of files to scan.
///
/// It visits the requested roots depth-first and decides, per path, what
/// the walk does with it; the embedding program performs the actual
/// directory reads and pushes every enqueued path onto the shared queue.
pub struct FileCrawler {
    excludes: Vec<String>,
    pending: Vec<String>,
}

impl FileCrawler {
    /// The exclude fragments the walk applies.
    pub closed spec fn spec_excludes(self) -> Seq<Seq<char>> {
        self.excludes.deep_view()
    }

    /// The paths still to visit, deepest stacked last.
    pub closed spec fn spec_pending(self) -> Seq<Seq<char>> {
        self.pending.deep_view()
    }

    /// A crawler over the given roots, visited in order, with the given
    /// exclude fragments.
    pub fn new(paths: Vec<String>, excludes: Vec<String>) -> (r: FileCrawler)
        ensures
            r.spec_excludes() == excludes.deep_view(),
            r.spec_pending() == paths.deep_view().reverse(),
    {
        let n = paths.len();
        let mut pending: Vec<String> = Vec::new();
        let mut i: usize = 0;
        while i < n
            invariant
                n == paths@.len(),
                i <= n,
                pending.deep_view().len() == i,
                forall|k: int|
                    0 <= k < i ==> pending.deep_view()[k] == paths.deep_view()[n - 1 - k],
            decreases n - i,
        {
            let ghost pre = pending.deep_view();
            pending.push(paths[n - 1 - i].clone());
            proof {
                assert(pending.deep_view() =~= pre.push(paths.deep_view()[n - 1 - i]));
            }
            i += 1;
        }
        proof {
            assert(pending.deep_view() =~= paths.deep_view().reverse());
        }
        FileCrawler { excludes, pending }
    }

    fn is_excluded(&self, path: &str) -> (r: bool)
        ensures
            r == excluded(path@, self.spec_excludes()),
    {
        let n = self.excludes.len();
        let mut i: usize = 0;
        while i < n
            invariant
                n == self.spec_excludes().len(),
                i <= n,
                forall|k: int| 0 <= k < i ==> !has_substr(path@, self.spec_excludes()[k]),
            decreases n - i,
        {
            if contains_substr(path, self.excludes[i].as_str()) {
                proof {
                    assert(has_substr(path@, self.spec_excludes()[i as int]));
                }
                return true;
            }
            i += 1;
        }
        false
    }

    /// Advances the walk to the next visited path and hands it out, or
    /// ends the walk.  Pending paths whose rendering contains an exclude
    /// fragment are dropped on the way, never handed out.
    pub fn run(&mut self) -> (r: Option<String>)
        ensures
            final(self).spec_excludes() == old(self).spec_excludes(),
            (match r {
                Some(p) => Some(p@),
                None => None,
            }, final(self).spec_pending()) == spec_run(
                old(self).spec_pending(),
                old(self).spec_excludes(),
            ),
            match r {
                Some(p) => !excluded(p@, old(self).spec_excludes()),
                None => true,
            },
    {
        loop
            invariant
                self.spec_excludes() == old(self).spec_excludes(),
                spec_run(self.spec_pending(), self.spec_excludes()) == spec_run(
                    old(self).spec_pending(),
                    old(self).spec_excludes(),
                ),
            decreases self.spec_pending().len(),
        {
            let ghost before = self.spec_pending();
            let ghost excl = self.spec_excludes();
            match self.pending.pop() {
                None => {
                    return None;
                },
                Some(p) => {
                    proof {
                        assert(self.spec_pending() =~= before.drop_last());
                        assert(p@ == before.last());
                    }
                    if !self.is_excluded(p.as_str()) {
                        proof {
                            assert(spec_run(before, excl) == (
                                Some(p@),
                                self.spec_pending(),
                            ));
                        }
                        return Some(p);
                    } else {
                        proof {
                            assert(spec_run(before, excl) == spec_run(
                                self.spec_pending(),
                                excl,
                            ));
                        }
                    }
                },
            }
        }
    }

    /// Decides what the walk does with a visited path of the given kind.
    pub fn visit(&self, path: &str, kind: PathKind) -> (a: VisitAction)
        ensures
            a == spec_visit(path@, kind, self.spec_excludes()),
    {
        if kind == PathKind::Missing || self.is_excluded(path) {
            VisitAction::Skip
        } else if kind == PathKind::Directory {
            VisitAction::EnqueueAndDescend
        } else {
            VisitAction::Enqueue
        }
    }

    /// Stacks a visited directory's children, in directory order, to be
    /// visited before anything that was already pending: the walk is
    /// depth-first.
    pub fn push_children(&mut self, children: Vec<String>)
        ensures
            final(self).spec_excludes() == old(self).spec_excludes(),
            final(self).spec_pending() == old(self).spec_pending() + children.deep_view().reverse(),
    {
        let n = children.len();
        let mut i: usize = 0;
        while i < n
            invariant
                n == children@.len(),
                i <= n,
                self.spec_excludes() == old(self).spec_excludes(),
                self.spec_pending().len() == old(self).spec_pending().len() + i,
                forall|k: int|
                    0 <= k < old(self).spec_pending().len() ==> self.spec_pending()[k] == old(
                        self,
                    ).spec_pending()[k],
                forall|k: int|
                    0 <= k < i ==> #[trigger] self.spec_pending()[old(
                        self,
                    ).spec_pending().len() + k] == children.deep_view()[n - 1 - k],
            decreases n - i,
        {
            let ghost pre = self.spec_pending();
            self.pending.push(children[n - 1 - i].clone());
            proof {
                assert(self.spec_pending() =~= pre.push(children.deep_view()[n - 1 - i]));
            }
            i += 1;
        }
        proof {
            let base = old(self).spec_pending();
            let kids = children.deep_view();
            assert forall|j: int| 0 <= j < self.spec_pending().len() implies self.spec_pending()[j]
                == (base + kids.reverse())[j] by {
                if j >= base.len() {
                    let k = j - base.len();
                    assert(self.spec_pending()[base.len() + k] == kids[n - 1 - k]);
                    assert(kids.reverse()[k] == kids[kids.len() - 1 - k]);
                }
            }
            assert(self.spec_pending() =~= base + kids.reverse());
        }
    }
}

} // verus!

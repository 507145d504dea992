use vstd::prelude::*;
use crate::path::{FsPath, PathView};

verus! {

/// What a path is.
#[derive(Debug, Clone, Copy, PartialEq, Eq, Structural)]
pub enum EntryKind {
    File,
    Directory,
    Symlink,
}

/// One name of a directory listing, as the caller read it: its kind without
/// following a link, what a link points at (none where its target is
/// missing), and the metadata (of the target, for a followed link).
#[derive(Debug, Clone, PartialEq, Eq)]
pub struct DirChild {
    pub name: String,
    pub kind: EntryKind,
    pub target: Option<EntryKind>,
    pub size: u64,
    pub attributes: u32,
    pub mtime: u64,
    pub ctime: u64,
}

/// One entry of a walk: its path under the root, its kind once the link
/// policy is applied, whether it is a link whose target is missing, and its
/// metadata.
#[derive(Debug, Clone, PartialEq, Eq)]
pub struct PathEntry {
    pub relative_path: FsPath,
    pub kind: EntryKind,
    pub dangling: bool,
    pub size: u64,
    pub attributes: u32,
    pub mtime: u64,
    pub ctime: u64,
}

/// What the walk needs or yields next.
#[derive(Debug, Clone, PartialEq, Eq)]
pub enum WalkStep {
    /// The listing of this directory (relative to the root) is needed.
    NeedListing(FsPath),
    /// The next entry.
    Entry(PathEntry),
    /// The walk is over.
    Done,
}

/// The kind an entry is reported with: a link is reported as what it points
/// at when links are followed and its target exists.
pub open spec fn resolved_kind(c: DirChild, follow: bool) -> EntryKind {
    if c.kind == EntryKind::Symlink && follow && c.target is Some {
        c.target->0
    } else {
        c.kind
    }
}

pub open spec fn is_dangling(c: DirChild) -> bool {
    c.kind == EntryKind::Symlink && c.target is None
}

/// `e` is the entry for child `c` of directory `d`.
pub open spec fn entry_for(e: PathEntry, d: PathView, c: DirChild, follow: bool) -> bool {
    &&& e.relative_path@ == (d.0, d.1.push(c.name@))
    &&& e.kind == resolved_kind(c, follow)
    &&& e.dangling == is_dangling(c)
    &&& e.size == c.size
    &&& e.attributes == c.attributes
    &&& e.mtime == c.mtime
    &&& e.ctime == c.ctime
}

pub open spec fn parent_of(p: PathView) -> PathView {
    (p.0, p.1.drop_last())
}

/// A path directly under the root.
pub open spec fn top_level(p: PathView) -> bool {
    p.1.len() == 1
}

/// Every yielded path is directly under the root or has its parent yielded
/// before it.
pub open spec fn parents_first(y: Seq<PathView>) -> bool {
    forall|i: int| 0 <= i < y.len() ==> {
        &&& (#[trigger] y[i]).1.len() >= 1
        &&& (top_level(y[i]) || exists|j: int| 0 <= j < i && y[j] == parent_of(y[i]))
    }
}

/// A depth-first walk of a directory tree. The caller reads directories;
/// the walker decides the order. A directory is yielded before anything
/// under it, and its listing is asked for right after it is yielded.
pub struct TreeWalker {
    pub follow_symlinks: bool,
    /// Entries still to yield; the last is next.
    pub pending: Vec<PathEntry>,
    /// The directory whose listing is awaited.
    pub awaiting: Option<FsPath>,
    /// The paths yielded so far, in order.
    pub yielded: Ghost<Seq<PathView>>,
}

impl TreeWalker {
    pub open spec fn wf(&self) -> bool {
        &&& parents_first(self.yielded@)
        &&& forall|k: int| 0 <= k < self.pending@.len() ==> {
            let p = (#[trigger] self.pending@[k]).relative_path@;
            &&& p.1.len() >= 1
            &&& (top_level(p) || self.yielded@.contains(parent_of(p)))
        }
        &&& self.awaiting matches Some(d) ==> (d@.1.len() == 0 || self.yielded@.contains(d@))
    }

    /// A walk of a root whose listing is asked for first.
    pub fn new(follow_symlinks: bool) -> (r: TreeWalker)
        ensures
            r.wf(),
            r.follow_symlinks == follow_symlinks,
            r.yielded@.len() == 0,
            r.pending@.len() == 0,
            r.awaiting matches Some(d) && d@.1.len() == 0,
    {
        TreeWalker {
            follow_symlinks,
            pending: Vec::new(),
            awaiting: Some(FsPath::empty()),
            yielded: Ghost(Seq::empty()),
        }
    }

    /// The next thing the walk needs or yields. A yielded directory is
    /// followed by the request for its listing.
    pub fn step(&mut self) -> (r: WalkStep)
        requires
            old(self).wf(),
        ensures
            final(self).wf(),
            final(self).follow_symlinks == old(self).follow_symlinks,
            old(self).awaiting matches Some(d) ==> (r matches WalkStep::NeedListing(p) && p@ == d@
                && final(self).pending@ == old(self).pending@ && final(self).yielded@ == old(self).yielded@),
            old(self).awaiting is None && old(self).pending@.len() == 0 ==> r is Done,
            r is Done ==> old(self).awaiting is None && old(self).pending@.len() == 0,
            old(self).awaiting is None && old(self).pending@.len() > 0 ==> (r matches WalkStep::Entry(e)
                && e == old(self).pending@.last()
                && final(self).pending@ == old(self).pending@.drop_last()
                && final(self).yielded@ == old(self).yielded@.push(e.relative_path@)
                && (e.kind == EntryKind::Directory ==> (final(self).awaiting matches Some(d) && d@ == e.relative_path@))
                && (e.kind != EntryKind::Directory ==> final(self).awaiting is None)),
    {
        match &self.awaiting {
            Some(d) => {
                return WalkStep::NeedListing(d.duplicate());
            },
            None => {},
        }
        match self.pending.pop() {
            None => WalkStep::Done,
            Some(e) => {
                let ghost y = self.yielded@;
                let ghost p = e.relative_path@;
                assert(p.1.len() >= 1 && (top_level(p) || y.contains(parent_of(p))));
                self.yielded = Ghost(y.push(p));
                assert(self.yielded@[y.len() as int] == p);
                assert forall|i: int| 0 <= i < self.yielded@.len() implies {
                    &&& (#[trigger] self.yielded@[i]).1.len() >= 1
                    &&& (top_level(self.yielded@[i]) || exists|j: int| 0 <= j < i && self.yielded@[j] == parent_of(self.yielded@[i]))
                } by {
                    if i < y.len() {
                        assert(self.yielded@[i] == y[i]);
                        if !top_level(y[i]) {
                            let j = choose|j: int| 0 <= j < i && y[j] == parent_of(y[i]);
                            assert(self.yielded@[j] == y[j]);
                        }
                    } else if !top_level(p) {
                        let j = choose|j: int| 0 <= j < y.len() && y[j] == parent_of(p);
                        assert(self.yielded@[j] == y[j]);
                    }
                }
                assert forall|k: int| 0 <= k < self.pending@.len() implies {
                    let q = (#[trigger] self.pending@[k]).relative_path@;
                    &&& q.1.len() >= 1
                    &&& (top_level(q) || self.yielded@.contains(parent_of(q)))
                } by {
                    let q = self.pending@[k].relative_path@;
                    assert(old(self).pending@[k] == self.pending@[k]);
                    if !top_level(q) {
                        let j = choose|j: int| 0 <= j < y.len() && y[j] == parent_of(q);
                        assert(self.yielded@[j] == y[j]);
                    }
                }
                if e.kind == EntryKind::Directory {
                    self.awaiting = Some(e.relative_path.duplicate());
                }
                WalkStep::Entry(e)
            },
        }
    }

    /// Hands the walker the listing of the awaited directory; its children
    /// will be yielded in the order of the listing. Without an awaited
    /// directory nothing changes.
    pub fn supply_listing(&mut self, children: Vec<DirChild>)
        requires
            old(self).wf(),
        ensures
            final(self).wf(),
            final(self).follow_symlinks == old(self).follow_symlinks,
            final(self).yielded@ == old(self).yielded@,
            final(self).awaiting is None,
            old(self).awaiting is None ==> final(self).pending@ == old(self).pending@,
            old(self).awaiting matches Some(d) ==> {
                &&& final(self).pending@.len() == old(self).pending@.len() + children@.len()
                &&& final(self).pending@.subrange(0, old(self).pending@.len() as int) == old(self).pending@
                &&& forall|i: int| 0 <= i < children@.len() ==> entry_for(
                    #[trigger] final(self).pending@[old(self).pending@.len() + i],
                    d@,
                    children@[children@.len() - 1 - i],
                    old(self).follow_symlinks,
                )
            },
    {
        let d = match self.awaiting.take() {
            None => {
                return;
            },
            Some(d) => d,
        };
        let ghost n0 = self.pending@.len();
        let ghost y = self.yielded@;
        assert(d@.1.len() == 0 || y.contains(d@));
        let mut i: usize = children.len();
        while i > 0
            invariant
                i <= children@.len(),
                self.yielded@ == y,
                self.awaiting is None,
                self.follow_symlinks == old(self).follow_symlinks,
                d@.1.len() == 0 || y.contains(d@),
                parents_first(y),
                self.pending@.len() == n0 + (children@.len() - i),
                self.pending@.subrange(0, n0 as int) == old(self).pending@,
                n0 == old(self).pending@.len(),
                forall|k: int| 0 <= k < self.pending@.len() ==> {
                    let p = (#[trigger] self.pending@[k]).relative_path@;
                    &&& p.1.len() >= 1
                    &&& (top_level(p) || y.contains(parent_of(p)))
                },
                forall|m: int| 0 <= m < children@.len() - i ==> entry_for(
                    #[trigger] self.pending@[n0 + m],
                    d@,
                    children@[children@.len() - 1 - m],
                    self.follow_symlinks,
                ),
            decreases i,
        {
            i = i - 1;
            let c = &children[i];
            let kind = if c.kind == EntryKind::Symlink && self.follow_symlinks {
                match c.target {
                    Some(k) => k,
                    None => EntryKind::Symlink,
                }
            } else {
                c.kind
            };
            let dangling = c.kind == EntryKind::Symlink && c.target.is_none();
            let e = PathEntry {
                relative_path: d.child(&c.name),
                kind,
                dangling,
                size: c.size,
                attributes: c.attributes,
                mtime: c.mtime,
                ctime: c.ctime,
            };
            proof {
                let p = e.relative_path@;
                assert(parent_of(p).1 =~= d@.1);
                if d@.1.len() == 0 {
                    assert(top_level(p));
                }
            }
            let ghost before = self.pending@;
            self.pending.push(e);
            assert(self.pending@.subrange(0, n0 as int) =~= before.subrange(0, n0 as int));
            assert forall|m: int| 0 <= m < children@.len() - i implies entry_for(
                #[trigger] self.pending@[n0 + m],
                d@,
                children@[children@.len() - 1 - m],
                self.follow_symlinks,
            ) by {
                if m < children@.len() - i - 1 {
                    assert(self.pending@[n0 + m] == before[n0 + m]);
                }
            }
        }
    }

    /// Tells the walker that the awaited directory could not be read; the
    /// walk goes on with its siblings. Gives back that directory, if any.
    pub fn supply_error(&mut self) -> (r: Option<FsPath>)
        requires
            old(self).wf(),
        ensures
            final(self).wf(),
            final(self).follow_symlinks == old(self).follow_symlinks,
            final(self).yielded@ == old(self).yielded@,
            final(self).pending@ == old(self).pending@,
            final(self).awaiting is None,
            r == old(self).awaiting,
    {
        self.awaiting.take()
    }
}

/// In every walk, each entry comes after its parent directory: for a tree
/// holding `a/b/c.txt`, `a` comes before `a/b`, and `a/b` before
/// `a/b/c.txt`.
pub proof fn lemma_parents_first(w: &TreeWalker, i: int)
    requires
        w.wf(),
        0 <= i < w.yielded@.len(),
        !top_level(w.yielded@[i]),
    ensures
        exists|j: int| 0 <= j < i && w.yielded@[j] == parent_of(w.yielded@[i]),
{
    assert(w.yielded@[i].1.len() >= 1);
}

} // verus!

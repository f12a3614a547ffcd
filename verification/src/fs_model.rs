//! A value-level model of the content tree: the set of paths under a content
//! root, each marked as a directory or a file.  The resolution and listing
//! logic reads the tree only through this model; the surrounding program
//! fills it in from disk and keeps it unchanged for the process lifetime.
use vstd::prelude::*;

use crate::strutil::{segs_eq, str_eq};

verus! {

/// What a path names in the tree.
#[derive(Clone, Copy, PartialEq, Eq, Structural, Debug)]
pub enum NodeKind {
    Dir,
    File,
    Missing,
}

/// One path in the tree, relative to the content root, with its kind.
pub struct FsEntry {
    pub path: Vec<String>,
    pub is_dir: bool,
}

/// Spec-level image of an entry.
pub struct FsEntryV {
    pub path: Seq<Seq<char>>,
    pub is_dir: bool,
}

impl View for FsEntry {
    type V = FsEntryV;

    open spec fn view(&self) -> FsEntryV {
        FsEntryV { path: self.path.deep_view(), is_dir: self.is_dir }
    }
}

impl DeepView for FsEntry {
    type V = FsEntryV;

    open spec fn deep_view(&self) -> FsEntryV {
        self.view()
    }
}

/// The tree under one content root: the root's own path, and every path
/// below it together with its kind.  The root itself is always a directory
/// and is not listed among the entries.
pub struct FsSnapshot {
    pub root: Vec<String>,
    pub entries: Vec<FsEntry>,
}

/// Spec-level image of a snapshot.
pub struct FsSnapshotV {
    pub root: Seq<Seq<char>>,
    pub entries: Seq<FsEntryV>,
}

impl View for FsSnapshot {
    type V = FsSnapshotV;

    open spec fn view(&self) -> FsSnapshotV {
        FsSnapshotV { root: self.root.deep_view(), entries: self.entries.deep_view() }
    }
}

/// The kind of the first entry whose path is `rel`, scanning in order.
pub open spec fn node_in_entries(entries: Seq<FsEntryV>, rel: Seq<Seq<char>>) -> NodeKind
    decreases entries.len(),
{
    if entries.len() == 0 {
        NodeKind::Missing
    } else if entries[0].path == rel {
        if entries[0].is_dir {
            NodeKind::Dir
        } else {
            NodeKind::File
        }
    } else {
        node_in_entries(entries.skip(1), rel)
    }
}

impl FsSnapshotV {
    /// The kind of the node at `rel`, a path relative to the root.  The
    /// empty path is the root itself, a directory.
    pub open spec fn node_at(self, rel: Seq<Seq<char>>) -> NodeKind {
        if rel.len() == 0 {
            NodeKind::Dir
        } else {
            node_in_entries(self.entries, rel)
        }
    }

    /// The kind of the node at `full`, a path that must extend the root.
    pub open spec fn node_at_full(self, full: Seq<Seq<char>>) -> NodeKind {
        if full.len() >= self.root.len() && full.take(self.root.len() as int) == self.root {
            self.node_at(full.skip(self.root.len() as int))
        } else {
            NodeKind::Missing
        }
    }

    /// Whether `full` names anything at all.
    pub open spec fn exists_full(self, full: Seq<Seq<char>>) -> bool {
        self.node_at_full(full) != NodeKind::Missing
    }
}

impl FsSnapshot {
    /// The kind of the node at `rel`, executably.
    pub fn node_at(&self, rel: &Vec<String>) -> (k: NodeKind)
        ensures
            k == self@.node_at(rel.deep_view()),
    {
        if rel.len() == 0 {
            return NodeKind::Dir;
        }
        let ghost entriesv = self@.entries;
        proof {
            assert(entriesv.skip(0) =~= entriesv);
        }
        let mut i: usize = 0;
        loop
            invariant
                0 <= i <= self.entries.len(),
                rel.deep_view().len() > 0,
                entriesv == self@.entries,
                entriesv.len() == self.entries@.len(),
                forall|k: int| 0 <= k < entriesv.len() ==> entriesv[k] == #[trigger] self.entries@[k]@,
                node_in_entries(entriesv, rel.deep_view()) == node_in_entries(
                    entriesv.skip(i as int),
                    rel.deep_view(),
                ),
            decreases self.entries.len() - i,
        {
            if i == self.entries.len() {
                proof {
                    assert(entriesv.skip(i as int) =~= Seq::<FsEntryV>::empty());
                }
                return NodeKind::Missing;
            }
            proof {
                assert(entriesv.skip(i as int)[0] == entriesv[i as int]);
            }
            if segs_eq(&self.entries[i].path, rel) {
                proof {
                    assert(entriesv[i as int].path == rel.deep_view());
                    assert(entriesv.skip(i as int).len() > 0);
                }
                if self.entries[i].is_dir {
                    return NodeKind::Dir;
                } else {
                    return NodeKind::File;
                }
            }
            proof {
                assert(entriesv.skip(i as int).skip(1) =~= entriesv.skip(i + 1));
            }
            i = i + 1;
        }
    }

    /// Strips the root prefix off `full`, or reports that `full` does not
    /// extend the root.
    pub fn strip_root(&self, full: &Vec<String>) -> (r: Option<Vec<String>>)
        ensures
            match r {
                Some(rel) => full.deep_view().len() >= self@.root.len() && full.deep_view().take(
                    self@.root.len() as int,
                ) == self@.root && rel.deep_view() == full.deep_view().skip(
                    self@.root.len() as int,
                ),
                None => !(full.deep_view().len() >= self@.root.len() && full.deep_view().take(
                    self@.root.len() as int,
                ) == self@.root),
            },
    {
        let nroot = self.root.len();
        if full.len() < nroot {
            return None;
        }
        let mut i: usize = 0;
        while i < nroot
            invariant
                0 <= i <= nroot,
                nroot == self.root@.len(),
                full@.len() >= nroot,
                forall|k: int|
                    0 <= k < i ==> full.deep_view()[k] == #[trigger] self.root.deep_view()[k],
            decreases nroot - i,
        {
            if !str_eq(full[i].as_str(), self.root[i].as_str()) {
                proof {
                    assert(full.deep_view().take(nroot as int)[i as int] != self.root.deep_view()[i as int]);
                }
                return None;
            }
            i = i + 1;
        }
        proof {
            assert(full.deep_view().take(nroot as int) =~= self.root.deep_view());
        }
        let mut rel: Vec<String> = Vec::new();
        let mut j: usize = nroot;
        while j < full.len()
            invariant
                nroot <= j <= full@.len(),
                nroot == self.root@.len(),
                rel@.len() == j - nroot,
                forall|k: int|
                    0 <= k < rel@.len() ==> #[trigger] rel.deep_view()[k] == full.deep_view()[
                        nroot + k
                    ],
            decreases full.len() - j,
        {
            let ghost prev = rel.deep_view();
            rel.push(full[j].clone());
            proof {
                assert forall|k: int|
                    0 <= k < rel@.len() implies #[trigger] rel.deep_view()[k]
                        == full.deep_view()[nroot + k] by {
                    if k < rel@.len() - 1 {
                        assert(rel.deep_view()[k] == prev[k]);
                    } else {
                        assert(rel.deep_view()[k] == full@[j as int]@);
                    }
                }
            }
            j = j + 1;
        }
        proof {
            assert(rel.deep_view() =~= full.deep_view().skip(nroot as int));
        }
        Some(rel)
    }

    /// The kind of the node at `full`, a path that must extend the root.
    pub fn node_at_full(&self, full: &Vec<String>) -> (k: NodeKind)
        ensures
            k == self@.node_at_full(full.deep_view()),
    {
        match self.strip_root(full) {
            Some(rel) => self.node_at(&rel),
            None => NodeKind::Missing,
        }
    }
}

} // verus!

//! Request-path sanitization, the ancestor fallback search, and the
//! classification of a request path against the content tree.
use vstd::prelude::*;

use crate::fs_model::{FsSnapshot, FsSnapshotV, NodeKind};
use crate::strutil::{ext_of, extension_of, str_eq};

verus! {

// ---------------------------------------------------------------------------
// Sanitization: a request segment must not be empty, a dot, a double dot,
// or contain a path separator, so that no request can name anything outside
// the content root.
// ---------------------------------------------------------------------------

/// A single request segment that cannot climb out of the content root.
pub open spec fn seg_ok(s: Seq<char>) -> bool {
    &&& s.len() > 0
    &&& s != "."@
    &&& s != ".."@
    &&& !s.contains('/')
    &&& !s.contains('\\')
}

/// Every segment of the request is acceptable.
pub open spec fn segs_ok(p: Seq<Seq<char>>) -> bool {
    forall|i: int| 0 <= i < p.len() ==> seg_ok(#[trigger] p[i])
}

/// Checks one request segment.
pub fn check_segment(s: &str) -> (r: bool)
    ensures
        r == seg_ok(s@),
{
    let n = s.unicode_len();
    if n == 0 {
        return false;
    }
    if str_eq(s, ".") || str_eq(s, "..") {
        return false;
    }
    let mut i: usize = 0;
    loop
        invariant
            0 <= i <= n,
            n == s@.len(),
            n > 0,
            s@ != "."@,
            s@ != ".."@,
            forall|k: int| 0 <= k < i ==> s@[k] != '/' && s@[k] != '\\',
        decreases n - i,
    {
        if i == n {
            return true;
        }
        let c = s.get_char(i);
        if c == '/' || c == '\\' {
            return false;
        }
        i = i + 1;
    }
}

/// Checks a whole request path.
pub fn check_segments(p: &Vec<String>) -> (r: bool)
    ensures
        r == segs_ok(p.deep_view()),
{
    let mut i: usize = 0;
    loop
        invariant
            0 <= i <= p@.len(),
            forall|k: int| 0 <= k < i ==> seg_ok(#[trigger] p.deep_view()[k]),
        decreases p@.len() - i,
    {
        if i == p.len() {
            return true;
        }
        if !check_segment(p[i].as_str()) {
            proof {
                assert(!seg_ok(p.deep_view()[i as int]));
            }
            return false;
        }
        i = i + 1;
    }
}

// ---------------------------------------------------------------------------
// Fallback search: when a path does not exist, retry with the same leaf one
// directory level higher, dropping the two most specific segments before
// re-attaching the leaf, until a candidate exists or fewer than two
// segments remain to drop.  The filesystem path and the logical path move
// in lockstep.
// ---------------------------------------------------------------------------

/// Where the fallback search ends up, starting from a full filesystem path
/// and the matching logical path.
pub open spec fn search_parent_spec(
    fs: FsSnapshotV,
    path: Seq<Seq<char>>,
    web: Seq<Seq<char>>,
) -> Option<(Seq<Seq<char>>, Seq<Seq<char>>)>
    decreases path.len(),
{
    if fs.exists_full(path) {
        Some((path, web))
    } else if path.len() >= 2 && web.len() >= 2 {
        search_parent_spec(
            fs,
            path.take(path.len() - 2).push(path.last()),
            web.take(web.len() - 2).push(path.last()),
        )
    } else {
        None
    }
}

/// The search moves the two paths in lockstep: when the filesystem path
/// starts as `base` followed by the logical path, whatever it finds keeps
/// that shape, so the found filesystem path determines the found logical
/// path.
pub proof fn lemma_search_parent_lockstep(
    fs: FsSnapshotV,
    base: Seq<Seq<char>>,
    path: Seq<Seq<char>>,
    web: Seq<Seq<char>>,
)
    requires
        path == base + web,
    ensures
        search_parent_spec(fs, path, web) matches Some(pw) ==> pw.0 == base + pw.1
            && pw.1.len() <= web.len(),
    decreases path.len(),
{
    if !fs.exists_full(path) && path.len() >= 2 && web.len() >= 2 {
        let p1 = path.take(path.len() - 2).push(path.last());
        let w1 = web.take(web.len() - 2).push(path.last());
        assert(p1 =~= base + w1);
        lemma_search_parent_lockstep(fs, base, p1, w1);
    }
}

/// Drops the two most specific segments of `v` and appends `leaf` instead:
/// with `leaf` the last segment of `a/b/c/x.md`, it becomes `a/b/x.md`.
pub fn two_up_with_leaf(v: &Vec<String>, leaf: &String) -> (r: Vec<String>)
    requires
        v@.len() >= 2,
    ensures
        r.deep_view() == v.deep_view().take(v.deep_view().len() - 2).push(leaf@),
{
    let n = v.len();
    let mut r: Vec<String> = Vec::new();
    let mut i: usize = 0;
    while i < n - 2
        invariant
            0 <= i <= n - 2,
            n == v@.len(),
            n >= 2,
            r@.len() == i,
            forall|k: int| 0 <= k < i ==> #[trigger] r.deep_view()[k] == v.deep_view()[k],
        decreases n - 2 - i,
    {
        let ghost prev = r.deep_view();
        r.push(v[i].clone());
        proof {
            assert forall|k: int|
                0 <= k < r@.len() implies #[trigger] r.deep_view()[k] == v.deep_view()[k] by {
                if k < r@.len() - 1 {
                    assert(r.deep_view()[k] == prev[k]);
                } else {
                    assert(r.deep_view()[k] == v@[i as int]@);
                }
            }
        }
        i = i + 1;
    }
    let ghost prev = r.deep_view();
    r.push(leaf.clone());
    proof {
        let dv = v.deep_view();
        let goal = dv.take(dv.len() - 2).push(leaf@);
        assert forall|k: int| 0 <= k < r@.len() implies #[trigger] r.deep_view()[k] == goal[k] by {
            if k < r@.len() - 1 {
                assert(r.deep_view()[k] == prev[k]);
            } else {
                assert(r.deep_view()[k] == leaf@);
            }
        }
        assert(r.deep_view() =~= goal);
    }
    r
}

/// Copies a segment vector.
pub fn clone_segments(v: &Vec<String>) -> (r: Vec<String>)
    ensures
        r.deep_view() == v.deep_view(),
{
    let n = v.len();
    let mut r: Vec<String> = Vec::new();
    let mut i: usize = 0;
    while i < n
        invariant
            0 <= i <= n,
            n == v@.len(),
            r@.len() == i,
            forall|k: int| 0 <= k < i ==> #[trigger] r.deep_view()[k] == v.deep_view()[k],
        decreases n - i,
    {
        let ghost prev = r.deep_view();
        r.push(v[i].clone());
        proof {
            assert forall|k: int|
                0 <= k < r@.len() implies #[trigger] r.deep_view()[k] == v.deep_view()[k] by {
                if k < r@.len() - 1 {
                    assert(r.deep_view()[k] == prev[k]);
                } else {
                    assert(r.deep_view()[k] == v@[i as int]@);
                }
            }
        }
        i = i + 1;
    }
    proof {
        assert(r.deep_view() =~= v.deep_view());
    }
    r
}

/// Drops the first `n` segments: the part of `v` below a prefix.
pub fn skip_segments(v: &Vec<String>, n: usize) -> (r: Vec<String>)
    requires
        n <= v@.len(),
    ensures
        r.deep_view() == v.deep_view().skip(n as int),
{
    let len = v.len();
    let mut r: Vec<String> = Vec::new();
    let mut i: usize = n;
    while i < len
        invariant
            n <= i <= len,
            len == v@.len(),
            r@.len() == i - n,
            forall|k: int| 0 <= k < i - n ==> #[trigger] r.deep_view()[k] == v.deep_view()[k + n],
        decreases len - i,
    {
        let ghost prev = r.deep_view();
        r.push(v[i].clone());
        proof {
            assert forall|k: int|
                0 <= k < r@.len() implies #[trigger] r.deep_view()[k] == v.deep_view()[k + n] by {
                if k < r@.len() - 1 {
                    assert(r.deep_view()[k] == prev[k]);
                } else {
                    assert(r.deep_view()[k] == v@[i as int]@);
                }
            }
        }
        i = i + 1;
    }
    proof {
        assert(r.deep_view() =~= v.deep_view().skip(n as int));
    }
    r
}

/// Drops the last segment: `a/b/c` becomes `a/b`.
pub fn parent_candidate(v: &Vec<String>) -> (r: Vec<String>)
    requires
        v@.len() >= 1,
    ensures
        r.deep_view() == v.deep_view().drop_last(),
{
    let n = v.len();
    let mut r: Vec<String> = Vec::new();
    let mut i: usize = 0;
    while i < n - 1
        invariant
            0 <= i <= n - 1,
            n == v@.len(),
            n >= 1,
            r@.len() == i,
            forall|k: int| 0 <= k < i ==> #[trigger] r.deep_view()[k] == v.deep_view()[k],
        decreases n - 1 - i,
    {
        let ghost prev = r.deep_view();
        r.push(v[i].clone());
        proof {
            assert forall|k: int|
                0 <= k < r@.len() implies #[trigger] r.deep_view()[k] == v.deep_view()[k] by {
                if k < r@.len() - 1 {
                    assert(r.deep_view()[k] == prev[k]);
                } else {
                    assert(r.deep_view()[k] == v@[i as int]@);
                }
            }
        }
        i = i + 1;
    }
    proof {
        assert(r.deep_view() =~= v.deep_view().drop_last());
    }
    r
}

/// Fallback search over the content tree.  Returns the first existing
/// candidate, walking upward as the specification describes, or `None`
/// when the root is exhausted.
pub fn search_parent(fs: &FsSnapshot, path: Vec<String>, web: Vec<String>) -> (r: Option<
    (Vec<String>, Vec<String>),
>)
    ensures
        match r {
            Some(pw) => search_parent_spec(fs@, path.deep_view(), web.deep_view()) == Some(
                (pw.0.deep_view(), pw.1.deep_view()),
            ),
            None => search_parent_spec(fs@, path.deep_view(), web.deep_view()) is None,
        },
{
    let ghost orig_path = path.deep_view();
    let ghost orig_web = web.deep_view();
    let mut p = path;
    let mut w = web;
    loop
        invariant
            orig_path == path.deep_view(),
            orig_web == web.deep_view(),
            search_parent_spec(fs@, orig_path, orig_web) == search_parent_spec(
                fs@,
                p.deep_view(),
                w.deep_view(),
            ),
        decreases p@.len(),
    {
        let kind = fs.node_at_full(&p);
        if !matches!(kind, NodeKind::Missing) {
            proof {
                assert(search_parent_spec(fs@, p.deep_view(), w.deep_view()) == Some(
                    (p.deep_view(), w.deep_view()),
                ));
            }
            return Some((p, w));
        }
        let n = p.len();
        if n >= 2 && w.len() >= 2 {
            let leaf = p[n - 1].clone();
            proof {
                assert(leaf@ == p.deep_view().last());
            }
            let p2 = two_up_with_leaf(&p, &leaf);
            let w2 = two_up_with_leaf(&w, &leaf);
            p = p2;
            w = w2;
        } else {
            return None;
        }
    }
}

// ---------------------------------------------------------------------------
// Classification.
// ---------------------------------------------------------------------------

/// The outcome of resolving a request path: what it names and where.  The
/// filesystem path always extends the content root; the logical path is the
/// corresponding request-visible path.
pub enum ResolvedTarget {
    Article { fs_path: Vec<String>, logical: Vec<String> },
    RenderedPage { fs_path: Vec<String> },
    Directory { fs_path: Vec<String>, logical: Vec<String> },
    StaticAsset { fs_path: Vec<String> },
    NotFound,
}

/// Spec-level image of a resolution outcome.
pub enum ResolvedTargetV {
    Article { fs_path: Seq<Seq<char>>, logical: Seq<Seq<char>> },
    RenderedPage { fs_path: Seq<Seq<char>> },
    Directory { fs_path: Seq<Seq<char>>, logical: Seq<Seq<char>> },
    StaticAsset { fs_path: Seq<Seq<char>> },
    NotFound,
}

impl View for ResolvedTarget {
    type V = ResolvedTargetV;

    open spec fn view(&self) -> ResolvedTargetV {
        match self {
            ResolvedTarget::Article { fs_path, logical } => ResolvedTargetV::Article {
                fs_path: fs_path.deep_view(),
                logical: logical.deep_view(),
            },
            ResolvedTarget::RenderedPage { fs_path } => ResolvedTargetV::RenderedPage {
                fs_path: fs_path.deep_view(),
            },
            ResolvedTarget::Directory { fs_path, logical } => ResolvedTargetV::Directory {
                fs_path: fs_path.deep_view(),
                logical: logical.deep_view(),
            },
            ResolvedTarget::StaticAsset { fs_path } => ResolvedTargetV::StaticAsset {
                fs_path: fs_path.deep_view(),
            },
            ResolvedTarget::NotFound => ResolvedTargetV::NotFound,
        }
    }
}

/// What a found node classifies as, given where it was found.
pub open spec fn classify_found(
    fs: FsSnapshotV,
    fs_path: Seq<Seq<char>>,
    logical: Seq<Seq<char>>,
) -> ResolvedTargetV {
    match fs.node_at_full(fs_path) {
        NodeKind::Dir => ResolvedTargetV::Directory { fs_path, logical },
        NodeKind::File => if ext_of(fs_path.last()) == Some("md"@) {
            ResolvedTargetV::Article { fs_path, logical }
        } else if ext_of(fs_path.last()) == Some("html"@) {
            ResolvedTargetV::RenderedPage { fs_path }
        } else {
            ResolvedTargetV::StaticAsset { fs_path }
        },
        NodeKind::Missing => ResolvedTargetV::NotFound,
    }
}

/// How a request path resolves against the tree under `base`: rejected
/// requests and exhausted fallback searches are `NotFound`, anything found
/// is classified by its node kind and extension.
pub open spec fn classify_spec(
    fs: FsSnapshotV,
    base: Seq<Seq<char>>,
    req: Seq<Seq<char>>,
) -> ResolvedTargetV {
    if !segs_ok(req) {
        ResolvedTargetV::NotFound
    } else {
        match search_parent_spec(fs, base + req, req) {
            Some(pw) => classify_found(fs, pw.0, pw.1),
            None => ResolvedTargetV::NotFound,
        }
    }
}

/// Joins `base` and `req` into one segment vector.
pub fn concat_segments(base: &Vec<String>, req: &Vec<String>) -> (r: Vec<String>)
    ensures
        r.deep_view() == base.deep_view() + req.deep_view(),
{
    let mut r: Vec<String> = Vec::new();
    let nb = base.len();
    let mut i: usize = 0;
    while i < nb
        invariant
            0 <= i <= nb,
            nb == base@.len(),
            r@.len() == i,
            forall|k: int| 0 <= k < i ==> #[trigger] r.deep_view()[k] == base.deep_view()[k],
        decreases nb - i,
    {
        let ghost prev = r.deep_view();
        r.push(base[i].clone());
        proof {
            assert forall|k: int|
                0 <= k < r@.len() implies #[trigger] r.deep_view()[k] == base.deep_view()[k] by {
                if k < r@.len() - 1 {
                    assert(r.deep_view()[k] == prev[k]);
                } else {
                    assert(r.deep_view()[k] == base@[i as int]@);
                }
            }
        }
        i = i + 1;
    }
    let nr = req.len();
    let mut j: usize = 0;
    while j < nr
        invariant
            0 <= j <= nr,
            nb == base@.len(),
            nr == req@.len(),
            r@.len() == nb + j,
            forall|k: int| 0 <= k < nb ==> #[trigger] r.deep_view()[k] == base.deep_view()[k],
            forall|k: int|
                nb <= k < nb + j ==> #[trigger] r.deep_view()[k] == req.deep_view()[k - nb],
        decreases nr - j,
    {
        let ghost prev = r.deep_view();
        r.push(req[j].clone());
        proof {
            assert forall|k: int|
                0 <= k < r@.len() implies #[trigger] r.deep_view()[k] == prev.push(
                    req@[j as int]@,
                )[k] by {
                if k < r@.len() - 1 {
                    assert(r.deep_view()[k] == prev[k]);
                } else {
                    assert(r.deep_view()[k] == req@[j as int]@);
                }
            }
        }
        j = j + 1;
    }
    proof {
        assert(r.deep_view() =~= base.deep_view() + req.deep_view());
    }
    r
}

/// Classifies a request path against the tree under `base`.
pub fn classify(fs: &FsSnapshot, base: &Vec<String>, req: &Vec<String>) -> (r: ResolvedTarget)
    ensures
        r@ == classify_spec(fs@, base.deep_view(), req.deep_view()),
{
    if !check_segments(req) {
        return ResolvedTarget::NotFound;
    }
    let full = concat_segments(base, req);
    match search_parent(fs, full, clone_segments(req)) {
        None => ResolvedTarget::NotFound,
        Some((fs_path, logical)) => {
            let kind = fs.node_at_full(&fs_path);
            match kind {
                NodeKind::Dir => ResolvedTarget::Directory { fs_path, logical },
                NodeKind::File => {
                    proof {
                        assert(fs_path.deep_view().last() == fs_path@[fs_path@.len() - 1]@);
                    }
                    let n = fs_path.len();
                    assert(n > 0) by {
                        assert(fs@.node_at_full(fs_path.deep_view()) == NodeKind::File);
                    }
                    let ext = extension_of(fs_path[n - 1].as_str());
                    match ext {
                        Some(e) => {
                            if str_eq(e.as_str(), "md") {
                                ResolvedTarget::Article { fs_path, logical }
                            } else if str_eq(e.as_str(), "html") {
                                ResolvedTarget::RenderedPage { fs_path }
                            } else {
                                ResolvedTarget::StaticAsset { fs_path }
                            }
                        },
                        None => ResolvedTarget::StaticAsset { fs_path },
                    }
                },
                NodeKind::Missing => ResolvedTarget::NotFound,
            }
        },
    }
}


/// What kind of node each classification outcome stands on: articles,
/// pre-rendered pages and static assets are files of the tree, directory
/// listings are directories.
pub proof fn lemma_classify_target_kind(fs: FsSnapshotV, base: Seq<Seq<char>>, req: Seq<Seq<char>>)
    ensures
        classify_spec(fs, base, req) matches ResolvedTargetV::Article { fs_path, .. } ==> fs.node_at_full(fs_path) == NodeKind::File,
        classify_spec(fs, base, req) matches ResolvedTargetV::RenderedPage { fs_path } ==> fs.node_at_full(fs_path) == NodeKind::File,
        classify_spec(fs, base, req) matches ResolvedTargetV::Directory { fs_path, .. } ==> fs.node_at_full(fs_path) == NodeKind::Dir,
        classify_spec(fs, base, req) matches ResolvedTargetV::StaticAsset { fs_path } ==> fs.node_at_full(fs_path) == NodeKind::File,
{
}


/// Where the serve-time retry for a file ends up: a directory is no file
/// to serve; a missing path is retried with the same leaf one directory
/// level higher until the root is exhausted.
pub open spec fn resolve_file_spec(fs: FsSnapshotV, path: Seq<Seq<char>>) -> Option<Seq<Seq<char>>>
    decreases path.len(),
{
    if fs.node_at_full(path) == NodeKind::Dir {
        None
    } else if fs.node_at_full(path) == NodeKind::File {
        Some(path)
    } else if path.len() >= 2 {
        resolve_file_spec(fs, path.take(path.len() - 2).push(path.last()))
    } else {
        None
    }
}

/// Finds the file to serve for `path`: the path itself when it is a file,
/// else the same leaf retried one directory level higher, repeatedly.  A
/// directory, or an exhausted search, yields nothing.  The caller performs
/// the actual open or read.
pub fn resolve_file_upward(fs: &FsSnapshot, path: Vec<String>) -> (r: Option<Vec<String>>)
    ensures
        match r {
            Some(p) => resolve_file_spec(fs@, path.deep_view()) == Some(p.deep_view()),
            None => resolve_file_spec(fs@, path.deep_view()) is None,
        },
{
    let ghost orig = path.deep_view();
    let mut p = path;
    loop
        invariant
            orig == path.deep_view(),
            resolve_file_spec(fs@, orig) == resolve_file_spec(fs@, p.deep_view()),
        decreases p@.len(),
    {
        match fs.node_at_full(&p) {
            NodeKind::Dir => {
                return None;
            },
            NodeKind::File => {
                return Some(p);
            },
            NodeKind::Missing => {
                if p.len() >= 2 {
                    let n = p.len();
                    let leaf = p[n - 1].clone();
                    proof {
                        assert(leaf@ == p.deep_view().last());
                    }
                    p = two_up_with_leaf(&p, &leaf);
                } else {
                    return None;
                }
            },
        }
    }
}

} // verus!

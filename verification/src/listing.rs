//! Directory listings: the immediate children of a directory, filtered to
//! sub-directories and markdown articles, sorted by name, and turned into
//! titled links.
use vstd::prelude::*;

use crate::fs_model::{FsEntryV, FsSnapshot, NodeKind};
use crate::strutil::{
    ext_of, extension_of, join_segs, lemma_join_segs_push, lex_le, lex_le_str, stem_of,
    stem_of_name, str_eq,
};

verus! {

// ---------------------------------------------------------------------------
// Listing entries.
// ---------------------------------------------------------------------------

/// One entry of a directory listing: a sub-directory or an article, with a
/// display title and an absolute link.
#[derive(Debug)]
pub enum ArticleItem {
    Directory { title: String, link: String },
    Article { title: String, link: String },
}

/// Spec-level image of a listing entry.
pub enum ArticleItemV {
    Directory { title: Seq<char>, link: Seq<char> },
    Article { title: Seq<char>, link: Seq<char> },
}

impl ArticleItemV {
    /// The title, whichever the variant.
    pub open spec fn title(self) -> Seq<char> {
        match self {
            ArticleItemV::Directory { title, .. } => title,
            ArticleItemV::Article { title, .. } => title,
        }
    }

    /// The link, whichever the variant.
    pub open spec fn link(self) -> Seq<char> {
        match self {
            ArticleItemV::Directory { link, .. } => link,
            ArticleItemV::Article { link, .. } => link,
        }
    }
}

impl View for ArticleItem {
    type V = ArticleItemV;

    open spec fn view(&self) -> ArticleItemV {
        match self {
            ArticleItem::Directory { title, link } => ArticleItemV::Directory {
                title: title@,
                link: link@,
            },
            ArticleItem::Article { title, link } => ArticleItemV::Article {
                title: title@,
                link: link@,
            },
        }
    }
}

impl DeepView for ArticleItem {
    type V = ArticleItemV;

    open spec fn deep_view(&self) -> ArticleItemV {
        self.view()
    }
}

impl ArticleItem {
    /// The title, whichever the variant.
    pub fn title(&self) -> (t: String)
        ensures
            t@ == self@.title(),
    {
        match self {
            ArticleItem::Directory { title, .. } => title.clone(),
            ArticleItem::Article { title, .. } => title.clone(),
        }
    }

    /// The link, whichever the variant.
    pub fn link(&self) -> (l: String)
        ensures
            l@ == self@.link(),
    {
        match self {
            ArticleItem::Directory { link, .. } => link.clone(),
            ArticleItem::Article { link, .. } => link.clone(),
        }
    }
}

// ---------------------------------------------------------------------------
// Children of a directory, in entry order.
// ---------------------------------------------------------------------------

/// `p` names an immediate child of `dir`.
pub open spec fn is_child_of(p: Seq<Seq<char>>, dir: Seq<Seq<char>>) -> bool {
    p.len() == dir.len() + 1 && p.take(dir.len() as int) == dir
}

/// The immediate children of `dir` among `entries`, in entry order, each as
/// its leaf name and kind.
pub open spec fn children_of(entries: Seq<FsEntryV>, dir: Seq<Seq<char>>) -> Seq<
    (Seq<char>, bool),
>
    decreases entries.len(),
{
    if entries.len() == 0 {
        Seq::empty()
    } else {
        let rest = children_of(entries.drop_last(), dir);
        if is_child_of(entries.last().path, dir) {
            rest.push((entries.last().path.last(), entries.last().is_dir))
        } else {
            rest
        }
    }
}

/// One child of a directory: its leaf name and whether it is a directory.
pub struct ChildEntry {
    pub name: String,
    pub is_dir: bool,
}

impl DeepView for ChildEntry {
    type V = (Seq<char>, bool);

    open spec fn deep_view(&self) -> (Seq<char>, bool) {
        (self.name@, self.is_dir)
    }
}

/// Whether `p` names an immediate child of `dir`, executably.
pub fn is_child(p: &Vec<String>, dir: &Vec<String>) -> (r: bool)
    ensures
        r == is_child_of(p.deep_view(), dir.deep_view()),
{
    let nd = dir.len();
    if p.len() == 0 || p.len() - 1 != nd {
        return false;
    }
    let mut i: usize = 0;
    while i < nd
        invariant
            0 <= i <= nd,
            nd == dir@.len(),
            p@.len() == nd + 1,
            forall|k: int| 0 <= k < i ==> #[trigger] p.deep_view()[k] == dir.deep_view()[k],
        decreases nd - i,
    {
        if !str_eq(p[i].as_str(), dir[i].as_str()) {
            proof {
                assert(p.deep_view().take(nd as int)[i as int] != dir.deep_view()[i as int]);
            }
            return false;
        }
        i = i + 1;
    }
    proof {
        assert(p.deep_view().take(nd as int) =~= dir.deep_view());
    }
    true
}

/// Collects the immediate children of `dir_rel` (a path relative to the
/// snapshot root), in entry order.
pub fn collect_children(fs: &FsSnapshot, dir_rel: &Vec<String>) -> (r: Vec<ChildEntry>)
    ensures
        r.deep_view() == children_of(fs@.entries, dir_rel.deep_view()),
{
    let ghost entriesv = fs@.entries;
    let ghost dirv = dir_rel.deep_view();
    let mut r: Vec<ChildEntry> = Vec::new();
    let mut i: usize = 0;
    loop
        invariant
            0 <= i <= fs.entries.len(),
            entriesv == fs@.entries,
            dirv == dir_rel.deep_view(),
            entriesv.len() == fs.entries@.len(),
            forall|k: int| 0 <= k < entriesv.len() ==> entriesv[k] == #[trigger] fs.entries@[k]@,
            r.deep_view() == children_of(entriesv.take(i as int), dirv),
        decreases fs.entries.len() - i,
    {
        if i == fs.entries.len() {
            proof {
                assert(entriesv.take(i as int) =~= entriesv);
            }
            return r;
        }
        proof {
            assert(entriesv.take(i + 1).drop_last() =~= entriesv.take(i as int));
            assert(entriesv.take(i + 1).last() == entriesv[i as int]);
        }
        if is_child(&fs.entries[i].path, dir_rel) {
            let np = fs.entries[i].path.len();
            assert(np >= 1);
            proof {
                assert(entriesv[i as int].path == fs.entries@[i as int].path.deep_view());
                assert(entriesv[i as int].path.last() == fs.entries@[i as int].path@[np - 1]@);
            }
            let ghost prev = r.deep_view();
            let name = fs.entries[i].path[np - 1].clone();
            let is_dir = fs.entries[i].is_dir;
            r.push(ChildEntry { name, is_dir });
            proof {
                let x = (entriesv[i as int].path.last(), entriesv[i as int].is_dir);
                assert forall|k: int|
                    0 <= k < r@.len() implies #[trigger] r.deep_view()[k] == prev.push(x)[k] by {
                    if k < r@.len() - 1 {
                        assert(r.deep_view()[k] == prev[k]);
                    }
                }
                assert(r.deep_view() =~= prev.push(x));
                assert(r.deep_view() == children_of(entriesv.take(i + 1), dirv));
            }
        }
        i = i + 1;
    }
}

// ---------------------------------------------------------------------------
// Sorting children by name, in code-point lexicographic order.
// ---------------------------------------------------------------------------

/// Inserts `x` into `s` before the first entry whose name is not smaller.
pub open spec fn sorted_insert(s: Seq<(Seq<char>, bool)>, x: (Seq<char>, bool)) -> Seq<
    (Seq<char>, bool),
>
    decreases s.len(),
{
    if s.len() == 0 {
        seq![x]
    } else if lex_le(x.0, s[0].0) {
        seq![x] + s
    } else {
        seq![s[0]] + sorted_insert(s.skip(1), x)
    }
}

/// Insertion sort of children by name.
pub open spec fn sort_children(s: Seq<(Seq<char>, bool)>) -> Seq<(Seq<char>, bool)>
    decreases s.len(),
{
    if s.len() == 0 {
        Seq::empty()
    } else {
        sorted_insert(sort_children(s.drop_last()), s.last())
    }
}

/// Where an insertion lands: before the first entry that is not smaller.
proof fn lemma_sorted_insert_at(s: Seq<(Seq<char>, bool)>, x: (Seq<char>, bool), j: int)
    requires
        0 <= j <= s.len(),
        forall|k: int| 0 <= k < j ==> !lex_le(x.0, #[trigger] s[k].0),
        j < s.len() ==> lex_le(x.0, s[j].0),
    ensures
        sorted_insert(s, x) == s.take(j).push(x) + s.skip(j),
    decreases j,
{
    if j == 0 {
        if s.len() == 0 {
            assert(sorted_insert(s, x) == seq![x]);
            assert(s.take(0).push(x) + s.skip(0) =~= seq![x]);
        } else {
            assert(lex_le(x.0, s[0].0));
            assert(sorted_insert(s, x) == seq![x] + s);
            assert(s.take(0).push(x) + s.skip(0) =~= seq![x] + s);
        }
    } else {
        assert(!lex_le(x.0, s[0].0));
        assert(forall|k: int| 0 <= k < j - 1 ==> !lex_le(x.0, #[trigger] s.skip(1)[k].0));
        assert(j - 1 < s.skip(1).len() ==> lex_le(x.0, s.skip(1)[j - 1].0));
        lemma_sorted_insert_at(s.skip(1), x, j - 1);
        assert(seq![s[0]] + (s.skip(1).take(j - 1).push(x) + s.skip(1).skip(j - 1)) =~= s.take(
            j,
        ).push(x) + s.skip(j));
    }
}

/// Finds the insertion point for `name` among the already sorted `out`.
fn find_insert_pos(out: &Vec<ChildEntry>, name: &String) -> (j: usize)
    ensures
        0 <= j <= out@.len(),
        forall|k: int| 0 <= k < j ==> !lex_le(name@, #[trigger] out.deep_view()[k].0),
        j < out@.len() ==> lex_le(name@, out.deep_view()[j as int].0),
{
    let n = out.len();
    let mut j: usize = 0;
    loop
        invariant
            0 <= j <= n,
            n == out@.len(),
            forall|k: int| 0 <= k < j ==> !lex_le(name@, #[trigger] out.deep_view()[k].0),
        decreases n - j,
    {
        if j == n {
            return j;
        }
        if lex_le_str(name.as_str(), out[j].name.as_str()) {
            proof {
                assert(out.deep_view()[j as int].0 == out@[j as int].name@);
            }
            return j;
        }
        proof {
            assert(out.deep_view()[j as int].0 == out@[j as int].name@);
        }
        j = j + 1;
    }
}

/// Sorts children by name, in code-point lexicographic order.
pub fn sort_children_exec(v: Vec<ChildEntry>) -> (r: Vec<ChildEntry>)
    ensures
        r.deep_view() == sort_children(v.deep_view()),
{
    let ghost dv = v.deep_view();
    let mut out: Vec<ChildEntry> = Vec::new();
    let mut i: usize = 0;
    loop
        invariant
            0 <= i <= v@.len(),
            dv == v.deep_view(),
            dv.len() == v@.len(),
            forall|k: int| 0 <= k < dv.len() ==> dv[k] == #[trigger] v@[k].deep_view(),
            out.deep_view() == sort_children(dv.take(i as int)),
        decreases v@.len() - i,
    {
        if i == v.len() {
            proof {
                assert(dv.take(i as int) =~= dv);
            }
            return out;
        }
        let name = v[i].name.clone();
        let is_dir = v[i].is_dir;
        let entry = ChildEntry { name, is_dir };
        let ghost ev = entry;
        let j = find_insert_pos(&out, &entry.name);
        let ghost prevv = out@;
        let ghost prev = out.deep_view();
        out.insert(j, entry);
        proof {
            let x = dv[i as int];
            assert(ev.deep_view() == x);
            lemma_sorted_insert_at(prev, x, j as int);
            let goal = prev.take(j as int).push(x) + prev.skip(j as int);
            assert forall|k: int|
                0 <= k < out@.len() implies #[trigger] out.deep_view()[k] == goal[k] by {
                if k < j as int {
                    assert(out@[k] == prevv[k]);
                    assert(prev[k] == prevv[k].deep_view());
                } else if k == j as int {
                    assert(out@[k] == ev);
                } else {
                    assert(out@[k] == prevv[k - 1]);
                    assert(prev[k - 1] == prevv[k - 1].deep_view());
                }
            }
            assert(out.deep_view() =~= goal);
            assert(dv.take(i + 1).drop_last() =~= dv.take(i as int));
            assert(dv.take(i + 1).last() == x);
            assert(out.deep_view() == sort_children(dv.take(i + 1)));
        }
        i = i + 1;
    }
}

// ---------------------------------------------------------------------------
// Filtering to sub-directories and articles, and turning each into a link.
// ---------------------------------------------------------------------------

/// A child stays in the listing when it is a sub-directory or a markdown
/// article; every other file is excluded.
pub open spec fn keep_child(p: (Seq<char>, bool)) -> bool {
    p.1 || ext_of(p.0) == Some("md"@)
}

/// The link of a listing entry: `/` + prefix + `/` + the logical path and
/// the entry name joined with `/`, and a trailing `/` for directories.
pub open spec fn item_link(
    prefix: Seq<char>,
    logical: Seq<Seq<char>>,
    name: Seq<char>,
    trailing_slash: bool,
) -> Seq<char> {
    seq!['/'] + prefix + seq!['/'] + join_segs(logical.push(name)) + if trailing_slash {
        seq!['/']
    } else {
        Seq::<char>::empty()
    }
}

/// The listing entry made from one kept child.
pub open spec fn item_of(p: (Seq<char>, bool), prefix: Seq<char>, logical: Seq<Seq<char>>) -> ArticleItemV {
    if p.1 {
        ArticleItemV::Directory { title: p.0, link: item_link(prefix, logical, p.0, true) }
    } else {
        ArticleItemV::Article {
            title: stem_of(p.0),
            link: item_link(prefix, logical, p.0, false),
        }
    }
}

/// The listing entries of the kept children of `s`, in order.
pub open spec fn kept_items(
    s: Seq<(Seq<char>, bool)>,
    prefix: Seq<char>,
    logical: Seq<Seq<char>>,
) -> Seq<ArticleItemV>
    decreases s.len(),
{
    if s.len() == 0 {
        Seq::empty()
    } else {
        let rest = kept_items(s.drop_last(), prefix, logical);
        if keep_child(s.last()) {
            rest.push(item_of(s.last(), prefix, logical))
        } else {
            rest
        }
    }
}

/// The segments each followed by a `/`.
pub open spec fn slashed(s: Seq<Seq<char>>) -> Seq<char>
    decreases s.len(),
{
    if s.len() == 0 {
        Seq::empty()
    } else {
        slashed(s.drop_last()) + s.last() + seq!['/']
    }
}

proof fn lemma_slashed_join(l: Seq<Seq<char>>, n: Seq<char>)
    ensures
        slashed(l) + n == join_segs(l.push(n)),
    decreases l.len(),
{
    lemma_join_segs_push(l, n);
    if l.len() == 0 {
        assert(slashed(l) + n =~= n);
    } else {
        lemma_slashed_join(l.drop_last(), l.last());
        assert(l.drop_last().push(l.last()) =~= l);
        assert(slashed(l) =~= join_segs(l) + seq!['/']);
        assert(slashed(l) + n =~= join_segs(l) + seq!['/'] + n);
    }
}

/// Builds the link of one listing entry.
pub fn build_item_link(prefix: &String, logical: &Vec<String>, name: &String, trailing: bool) -> (r:
    String)
    ensures
        r@ == item_link(prefix@, logical.deep_view(), name@, trailing),
{
    let ghost ldv = logical.deep_view();
    let mut r = String::new();
    r.append("/");
    r.append(prefix.as_str());
    r.append("/");
    proof {
        reveal_strlit("/");
        assert("/"@ =~= seq!['/']);
        assert(ldv.take(0) =~= Seq::<Seq<char>>::empty());
        assert(r@ =~= seq!['/'] + prefix@ + seq!['/'] + slashed(ldv.take(0)));
    }
    let mut i: usize = 0;
    while i < logical.len()
        invariant
            0 <= i <= logical@.len(),
            ldv == logical.deep_view(),
            ldv.len() == logical@.len(),
            r@ == seq!['/'] + prefix@ + seq!['/'] + slashed(ldv.take(i as int)),
        decreases logical@.len() - i,
    {
        r.append(logical[i].as_str());
        r.append("/");
        proof {
            reveal_strlit("/");
            assert("/"@ =~= seq!['/']);
            assert(ldv.take(i + 1).drop_last() =~= ldv.take(i as int));
            assert(ldv.take(i + 1).last() == ldv[i as int]);
            assert(logical@[i as int]@ == ldv[i as int]);
            assert(r@ =~= seq!['/'] + prefix@ + seq!['/'] + slashed(ldv.take(i + 1)));
        }
        i = i + 1;
    }
    proof {
        assert(ldv.take(ldv.len() as int) =~= ldv);
    }
    r.append(name.as_str());
    proof {
        lemma_slashed_join(ldv, name@);
        assert(r@ =~= seq!['/'] + prefix@ + seq!['/'] + join_segs(ldv.push(name@)));
    }
    if trailing {
        r.append("/");
        proof {
            reveal_strlit("/");
            assert("/"@ =~= seq!['/']);
            assert(r@ =~= item_link(prefix@, ldv, name@, true));
        }
    } else {
        proof {
            assert(r@ =~= item_link(prefix@, ldv, name@, false));
        }
    }
    r
}

// ---------------------------------------------------------------------------
// Enumeration.
// ---------------------------------------------------------------------------

/// What enumerating a directory yields: `None` when `fs_dir` is not a
/// directory of the tree, else the kept children sorted by name, each with
/// its title and link.
pub open spec fn enumerate_spec(
    fs: crate::fs_model::FsSnapshotV,
    fs_dir: Seq<Seq<char>>,
    web: Seq<Seq<char>>,
    prefix: Seq<char>,
) -> Option<Seq<ArticleItemV>> {
    if fs.node_at_full(fs_dir) != NodeKind::Dir {
        None
    } else {
        Some(
            kept_items(
                sort_children(children_of(fs.entries, fs_dir.skip(fs.root.len() as int))),
                prefix,
                web,
            ),
        )
    }
}

/// Enumerates the listing of the directory at `fs_dir` (a full path under
/// the snapshot root), linking entries under `/` + `prefix` + `/` +
/// `web_path`.  Returns `None` when `fs_dir` is not a directory.
pub fn enumerate_items(
    fs: &FsSnapshot,
    fs_dir: &Vec<String>,
    web_path: &Vec<String>,
    prefix: &String,
) -> (r: Option<Vec<ArticleItem>>)
    ensures
        match r {
            Some(items) => enumerate_spec(
                fs@,
                fs_dir.deep_view(),
                web_path.deep_view(),
                prefix@,
            ) == Some(items.deep_view()),
            None => enumerate_spec(fs@, fs_dir.deep_view(), web_path.deep_view(), prefix@) is None,
        },
{
    let rel = match fs.strip_root(fs_dir) {
        Some(rel) => rel,
        None => {
            return None;
        },
    };
    match fs.node_at(&rel) {
        NodeKind::Dir => {},
        _ => {
            return None;
        },
    }
    let children = collect_children(fs, &rel);
    let sorted = sort_children_exec(children);
    let ghost sdv = sorted.deep_view();
    let ghost wdv = web_path.deep_view();
    let mut out: Vec<ArticleItem> = Vec::new();
    let mut i: usize = 0;
    loop
        invariant
            0 <= i <= sorted@.len(),
            sdv == sorted.deep_view(),
            wdv == web_path.deep_view(),
            sdv.len() == sorted@.len(),
            forall|k: int| 0 <= k < sdv.len() ==> sdv[k] == #[trigger] sorted@[k].deep_view(),
            sdv == sort_children(children_of(fs@.entries, fs_dir.deep_view().skip(fs@.root.len() as int))),
            fs@.node_at_full(fs_dir.deep_view()) == NodeKind::Dir,
            out.deep_view() == kept_items(sdv.take(i as int), prefix@, wdv),
        decreases sorted@.len() - i,
    {
        if i == sorted.len() {
            proof {
                assert(sdv.take(i as int) =~= sdv);
            }
            return Some(out);
        }
        proof {
            assert(sdv.take(i + 1).drop_last() =~= sdv.take(i as int));
            assert(sdv.take(i + 1).last() == sdv[i as int]);
        }
        let is_dir = sorted[i].is_dir;
        let keep = if is_dir {
            true
        } else {
            match extension_of(sorted[i].name.as_str()) {
                Some(e) => str_eq(e.as_str(), "md"),
                None => false,
            }
        };
        proof {
            assert(keep == keep_child(sdv[i as int]));
        }
        if keep {
            let name = sorted[i].name.clone();
            let link = build_item_link(prefix, web_path, &name, is_dir);
            let item = if is_dir {
                ArticleItem::Directory { title: name, link }
            } else {
                let title = stem_of_name(name.as_str());
                ArticleItem::Article { title, link }
            };
            let ghost itemg = item;
            let ghost prev = out.deep_view();
            out.push(item);
            proof {
                assert(itemg@ == item_of(sdv[i as int], prefix@, wdv));
                assert forall|k: int|
                    0 <= k < out@.len() implies #[trigger] out.deep_view()[k] == prev.push(
                    itemg@,
                )[k] by {
                    if k < out@.len() - 1 {
                        assert(out.deep_view()[k] == prev[k]);
                    } else {
                        assert(out@[k] == itemg);
                    }
                }
                assert(out.deep_view() =~= prev.push(itemg@));
                assert(out.deep_view() == kept_items(sdv.take(i + 1), prefix@, wdv));
            }
        }
        i = i + 1;
    }
}

} // verus!

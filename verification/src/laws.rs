//! The properties the pipeline is held to, each proved from the public
//! contracts: direct classification of existing articles, the exact
//! stepping of the fallback search, determinism and order of listings,
//! what a listing may contain, the redirect on a fallback hit of a
//! pre-rendered page, and the rejection of traversal requests.
use vstd::multiset::Multiset;
use vstd::prelude::*;

use crate::fs_model::{FsSnapshotV, NodeKind};
use crate::handler::{abs_link, handle_contract, HandleStepV, MyHandler, PageResponseV};
use crate::listing::{
    item_of, keep_child, kept_items, sort_children, sorted_insert, ArticleItemV,
};
use crate::resolve::{
    classify_spec, lemma_classify_target_kind, search_parent_spec, seg_ok, segs_ok,
    ResolvedTargetV,
};
use crate::strutil::{ext_of, lemma_lex_le_total, lemma_lex_le_transitive, lex_le};

verus! {

// ---------------------------------------------------------------------------
// Direct hits.
// ---------------------------------------------------------------------------

/// A request whose joined path is a markdown file of the tree classifies
/// as that article, at exactly the requested path: the fallback search is
/// not consulted.
pub proof fn lemma_direct_md_is_article(
    fs: FsSnapshotV,
    base: Seq<Seq<char>>,
    req: Seq<Seq<char>>,
)
    requires
        segs_ok(req),
        fs.node_at_full(base + req) == NodeKind::File,
        ext_of((base + req).last()) == Some("md"@),
    ensures
        classify_spec(fs, base, req) == (ResolvedTargetV::Article {
            fs_path: base + req,
            logical: req,
        }),
{
    assert(fs.exists_full(base + req));
    assert(search_parent_spec(fs, base + req, req) == Some((base + req, req)));
}

// ---------------------------------------------------------------------------
// The fallback search's exact stepping.
// ---------------------------------------------------------------------------

/// One retry of the fallback search on a missing path: the two most
/// specific segments before the leaf are dropped, on the filesystem path
/// and the logical path alike.
pub proof fn lemma_fallback_two_segment_step(
    fs: FsSnapshotV,
    path: Seq<Seq<char>>,
    web: Seq<Seq<char>>,
)
    requires
        !fs.exists_full(path),
        path.len() >= 2,
        web.len() >= 2,
    ensures
        search_parent_spec(fs, path, web) == search_parent_spec(
            fs,
            path.take(path.len() - 2).push(path.last()),
            web.take(web.len() - 2).push(path.last()),
        ),
{
}

/// A path missing at full depth but present two segments up with the same
/// leaf is found there.
pub proof fn lemma_fallback_finds_two_up(
    fs: FsSnapshotV,
    path: Seq<Seq<char>>,
    web: Seq<Seq<char>>,
)
    requires
        !fs.exists_full(path),
        path.len() >= 2,
        web.len() >= 2,
        fs.exists_full(path.take(path.len() - 2).push(path.last())),
    ensures
        search_parent_spec(fs, path, web) == Some(
            (
                path.take(path.len() - 2).push(path.last()),
                web.take(web.len() - 2).push(path.last()),
            ),
        ),
{
    let p1 = path.take(path.len() - 2).push(path.last());
    let w1 = web.take(web.len() - 2).push(path.last());
    assert(search_parent_spec(fs, path, web) == search_parent_spec(fs, p1, w1));
    assert(search_parent_spec(fs, p1, w1) == Some((p1, w1)));
}

/// The path after `k` two-segment skips: `k` directory levels dropped, the
/// leaf kept.
pub open spec fn skipped_path(p: Seq<Seq<char>>, k: nat) -> Seq<Seq<char>>
    recommends
        p.len() >= k + 1,
{
    p.take(p.len() - 1 - k).push(p.last())
}

/// The logical path after `k` two-segment skips of a search that started
/// at `p` and `w`.
pub open spec fn skipped_web(p: Seq<Seq<char>>, w: Seq<Seq<char>>, k: nat) -> Seq<Seq<char>>
    recommends
        w.len() >= k + 1,
{
    if k == 0 {
        w
    } else {
        w.take(w.len() - 1 - k).push(p.last())
    }
}

/// The fallback search repeats the two-segment skip exactly: when the
/// first `k` candidates are missing and the `k`-th skip exists, the search
/// lands there, with the logical path skipped in lockstep.
pub proof fn lemma_fallback_repeats_skips(
    fs: FsSnapshotV,
    path: Seq<Seq<char>>,
    web: Seq<Seq<char>>,
    k: nat,
)
    requires
        path.len() >= k + 1,
        web.len() >= k + 1,
        path.len() >= 1,
        forall|j: nat| j < k ==> !fs.exists_full(#[trigger] skipped_path(path, j)),
        fs.exists_full(skipped_path(path, k)),
    ensures
        search_parent_spec(fs, path, web) == Some(
            (skipped_path(path, k), skipped_web(path, web, k)),
        ),
    decreases k,
{
    assert(skipped_path(path, 0) =~= path);
    if k == 0 {
        assert(fs.exists_full(path));
    } else {
        assert(!fs.exists_full(skipped_path(path, 0)));
        assert(!fs.exists_full(path));
        let p1 = path.take(path.len() - 2).push(path.last());
        let w1 = web.take(web.len() - 2).push(path.last());
        assert(search_parent_spec(fs, path, web) == search_parent_spec(fs, p1, w1));
        assert(p1.last() == path.last());
        assert(p1.len() == path.len() - 1);
        assert(w1.len() == web.len() - 1);
        assert forall|j: nat| j < (k - 1) as nat implies !fs.exists_full(
            #[trigger] skipped_path(p1, j),
        ) by {
            assert(skipped_path(p1, j) =~= skipped_path(path, (j + 1) as nat));
            assert(!fs.exists_full(skipped_path(path, (j + 1) as nat)));
        }
        assert(skipped_path(p1, (k - 1) as nat) =~= skipped_path(path, k));
        lemma_fallback_repeats_skips(fs, p1, w1, (k - 1) as nat);
        if k == 1 {
            assert(skipped_web(p1, w1, 0) == w1);
            assert(w1 =~= skipped_web(path, web, 1));
        } else {
            assert(skipped_web(p1, w1, (k - 1) as nat) =~= skipped_web(path, web, k));
        }
    }
}

// ---------------------------------------------------------------------------
// Listings: determinism, order, and what they may contain.
// ---------------------------------------------------------------------------

/// A listing is a function of the tree, the directory and the link context
/// alone: enumerating an unchanged directory twice yields identical
/// results, in identical order.
pub proof fn lemma_enumeration_deterministic(
    fs: FsSnapshotV,
    fs_dir: Seq<Seq<char>>,
    web: Seq<Seq<char>>,
    prefix: Seq<char>,
    r1: Option<Seq<ArticleItemV>>,
    r2: Option<Seq<ArticleItemV>>,
)
    requires
        r1 == crate::listing::enumerate_spec(fs, fs_dir, web, prefix),
        r2 == crate::listing::enumerate_spec(fs, fs_dir, web, prefix),
    ensures
        r1 == r2,
{
}

/// The children are listed in code-point lexicographic order of their
/// names.
pub open spec fn sorted_by_name(s: Seq<(Seq<char>, bool)>) -> bool {
    forall|i: int, j: int| 0 <= i < j < s.len() ==> lex_le(#[trigger] s[i].0, #[trigger] s[j].0)
}

proof fn lemma_sorted_insert_sorted(s: Seq<(Seq<char>, bool)>, x: (Seq<char>, bool))
    requires
        sorted_by_name(s),
    ensures
        sorted_by_name(sorted_insert(s, x)),
        forall|p: (Seq<char>, bool)| #[trigger] sorted_insert(s, x).contains(p) ==> s.contains(p)
            || p == x,
    decreases s.len(),
{
    let out = sorted_insert(s, x);
    if s.len() == 0 {
        assert(forall|p: (Seq<char>, bool)| out.contains(p) ==> p == out[0]);
    } else if lex_le(x.0, s[0].0) {
        assert(out =~= seq![x] + s);
        assert forall|i: int, j: int| 0 <= i < j < out.len() implies lex_le(
            #[trigger] out[i].0,
            #[trigger] out[j].0,
        ) by {
            if i == 0 {
                if j > 1 {
                    lemma_lex_le_transitive(x.0, s[0].0, s[j - 1].0);
                }
            }
        }
    } else {
        lemma_lex_le_total(x.0, s[0].0);
        assert(lex_le(s[0].0, x.0));
        lemma_sorted_insert_sorted(s.skip(1), x);
        let rest = sorted_insert(s.skip(1), x);
        assert(out =~= seq![s[0]] + rest);
        assert forall|i: int, j: int| 0 <= i < j < out.len() implies lex_le(
            #[trigger] out[i].0,
            #[trigger] out[j].0,
        ) by {
            if i == 0 {
                assert(rest.contains(rest[j - 1]));
                let p = rest[j - 1];
                if p == x {
                    assert(lex_le(out[0].0, p.0));
                } else {
                    assert(s.skip(1).contains(p));
                    let m = choose|m: int| 0 <= m < s.skip(1).len() && s.skip(1)[m] == p;
                    assert(s[m + 1] == p);
                    assert(lex_le(s[0].0, s[m + 1].0));
                }
            } else {
                assert(lex_le(rest[i - 1].0, rest[j - 1].0));
            }
        }
        assert forall|p: (Seq<char>, bool)| #[trigger] out.contains(p) implies s.contains(p)
            || p == x by {
            let m = choose|m: int| 0 <= m < out.len() && out[m] == p;
            if m == 0 {
                assert(s[0] == p);
                assert(s.contains(p));
            } else {
                assert(rest.contains(rest[m - 1]));
                if rest[m - 1] == x {
                } else {
                    assert(s.skip(1).contains(p));
                    let m2 = choose|m2: int| 0 <= m2 < s.skip(1).len() && s.skip(1)[m2] == p;
                    assert(s[m2 + 1] == p);
                    assert(s.contains(p));
                }
            }
        }
    }
}

/// Sorting the children of a directory yields a listing sorted by name.
pub proof fn lemma_sort_children_sorted(s: Seq<(Seq<char>, bool)>)
    ensures
        sorted_by_name(sort_children(s)),
    decreases s.len(),
{
    if s.len() > 0 {
        lemma_sort_children_sorted(s.drop_last());
        lemma_sorted_insert_sorted(sort_children(s.drop_last()), s.last());
    }
}

/// Every entry of a listing comes from a kept child: a sub-directory, or a
/// file with the markdown extension.  Nothing else ever appears.
pub open spec fn listing_item_from_kept(
    s: Seq<(Seq<char>, bool)>,
    prefix: Seq<char>,
    logical: Seq<Seq<char>>,
    i: int,
) -> bool {
    exists|j: int|
        0 <= j < s.len() && keep_child(#[trigger] s[j]) && kept_items(s, prefix, logical)[i]
            == item_of(s[j], prefix, logical)
}

/// A listing contains only sub-directories and markdown files: each of its
/// entries is the image of a kept child of the directory.
pub proof fn lemma_listing_excludes_other_files(
    s: Seq<(Seq<char>, bool)>,
    prefix: Seq<char>,
    logical: Seq<Seq<char>>,
    i: int,
)
    requires
        0 <= i < kept_items(s, prefix, logical).len(),
    ensures
        listing_item_from_kept(s, prefix, logical, i),
    decreases s.len(),
{
    let rest = kept_items(s.drop_last(), prefix, logical);
    if keep_child(s.last()) && i == rest.len() {
        assert(s[s.len() - 1] == s.last());
        assert(keep_child(s[s.len() - 1]));
        assert(kept_items(s, prefix, logical)[i] == item_of(s[s.len() - 1], prefix, logical));
    } else {
        lemma_listing_excludes_other_files(s.drop_last(), prefix, logical, i);
        let j = choose|j: int|
            0 <= j < s.drop_last().len() && keep_child(#[trigger] s.drop_last()[j]) && kept_items(
                s.drop_last(),
                prefix,
                logical,
            )[i] == item_of(s.drop_last()[j], prefix, logical);
        assert(s.drop_last()[j] == s[j]);
        assert(keep_child(s[j]));
        assert(kept_items(s, prefix, logical)[i] == item_of(s[j], prefix, logical));
    }
}

// ---------------------------------------------------------------------------
// Pre-rendered pages: redirect on a fallback hit, not-found on a miss.
// ---------------------------------------------------------------------------

/// A pre-rendered page that the fallback finds away from its requested
/// location is answered with a redirect to its canonical URL, never with
/// its content.
pub proof fn lemma_html_fallback_redirects(
    h: MyHandler,
    fs: FsSnapshotV,
    req: Seq<Seq<char>>,
    r: HandleStepV,
    fs_path: Seq<Seq<char>>,
)
    requires
        handle_contract(h, fs, req, r),
        classify_spec(fs, h.base_path.deep_view(), req) == (ResolvedTargetV::RenderedPage {
            fs_path,
        }),
        fs_path != h.base_path.deep_view() + req,
    ensures
        r == (HandleStepV::Done {
            response: PageResponseV::Redirect {
                location: abs_link(
                    h.article_prefix@,
                    fs_path.skip(h.base_path.deep_view().len() as int),
                ),
            },
        }),
{
}

/// A request that misses even after the fallback search is answered with
/// the fixed not-found response.
pub proof fn lemma_miss_is_not_found(
    h: MyHandler,
    fs: FsSnapshotV,
    req: Seq<Seq<char>>,
    r: HandleStepV,
)
    requires
        handle_contract(h, fs, req, r),
        classify_spec(fs, h.base_path.deep_view(), req) == ResolvedTargetV::NotFound,
    ensures
        r == (HandleStepV::Done { response: PageResponseV::NotFound }),
{
}

// ---------------------------------------------------------------------------
// Traversal requests.
// ---------------------------------------------------------------------------

/// A request with an upward-traversal segment is rejected before any
/// lookup: it classifies as missing, whatever the tree holds.
pub proof fn lemma_traversal_classifies_not_found(
    fs: FsSnapshotV,
    base: Seq<Seq<char>>,
    req: Seq<Seq<char>>,
    i: int,
)
    requires
        0 <= i < req.len(),
        req[i] == ".."@,
    ensures
        classify_spec(fs, base, req) == ResolvedTargetV::NotFound,
{
    assert(!seg_ok(req[i]));
    assert(!segs_ok(req));
}

/// ... and the handler answers it with the not-found response.
pub proof fn lemma_traversal_is_not_found(
    h: MyHandler,
    fs: FsSnapshotV,
    req: Seq<Seq<char>>,
    r: HandleStepV,
    i: int,
)
    requires
        handle_contract(h, fs, req, r),
        0 <= i < req.len(),
        req[i] == ".."@,
    ensures
        r == (HandleStepV::Done { response: PageResponseV::NotFound }),
{
    lemma_traversal_classifies_not_found(fs, h.base_path.deep_view(), req, i);
}

/// Whatever a request resolves to, the path it is served from names a node
/// of the tree and extends the content root: no resolution escapes it.
pub proof fn lemma_resolved_within_root(fs: FsSnapshotV, base: Seq<Seq<char>>, req: Seq<Seq<char>>)
    ensures
        classify_spec(fs, base, req) matches ResolvedTargetV::Article { fs_path, .. } ==> fs_path.len()
            >= fs.root.len() && fs_path.take(fs.root.len() as int) == fs.root,
        classify_spec(fs, base, req) matches ResolvedTargetV::RenderedPage { fs_path } ==> fs_path.len()
            >= fs.root.len() && fs_path.take(fs.root.len() as int) == fs.root,
        classify_spec(fs, base, req) matches ResolvedTargetV::Directory { fs_path, .. } ==> fs_path.len()
            >= fs.root.len() && fs_path.take(fs.root.len() as int) == fs.root,
        classify_spec(fs, base, req) matches ResolvedTargetV::StaticAsset { fs_path } ==> fs_path.len()
            >= fs.root.len() && fs_path.take(fs.root.len() as int) == fs.root,
{
    lemma_classify_target_kind(fs, base, req);
}


proof fn lemma_sorted_insert_multiset(s: Seq<(Seq<char>, bool)>, x: (Seq<char>, bool))
    ensures
        sorted_insert(s, x).to_multiset() =~= s.to_multiset().insert(x),
    decreases s.len(),
{
    broadcast use vstd::seq_lib::group_to_multiset_ensures;
    broadcast use vstd::multiset::group_multiset_axioms;

    let empty = Seq::<(Seq<char>, bool)>::empty();
    assert(seq![x] =~= empty.push(x));
    assert(empty.to_multiset() =~= Multiset::<(Seq<char>, bool)>::empty());
    if s.len() == 0 {
    } else if lex_le(x.0, s[0].0) {
        vstd::seq_lib::lemma_multiset_commutative(seq![x], s);
    } else {
        lemma_sorted_insert_multiset(s.skip(1), x);
        vstd::seq_lib::lemma_multiset_commutative(seq![s[0]], sorted_insert(s.skip(1), x));
        assert(s =~= seq![s[0]] + s.skip(1));
        vstd::seq_lib::lemma_multiset_commutative(seq![s[0]], s.skip(1));
    }
}

/// Sorting the children only reorders them: the sorted sequence holds
/// exactly the children of the directory, with their multiplicities.
pub proof fn lemma_sort_children_permutes(s: Seq<(Seq<char>, bool)>)
    ensures
        sort_children(s).to_multiset() =~= s.to_multiset(),
    decreases s.len(),
{
    broadcast use vstd::seq_lib::group_to_multiset_ensures;
    broadcast use vstd::multiset::group_multiset_axioms;

    if s.len() > 0 {
        lemma_sort_children_permutes(s.drop_last());
        lemma_sorted_insert_multiset(sort_children(s.drop_last()), s.last());
        assert(s =~= s.drop_last().push(s.last()));
    }
}

} // verus!

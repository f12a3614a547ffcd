//! The request handlers: the section handler that resolves, enumerates and
//! renders, and the two thin file handlers.  Each decides a response from
//! the request path and the content tree; the surrounding program performs
//! the file reads and sends the bytes.
use vstd::prelude::*;

use crate::fs_model::{FsSnapshot, FsSnapshotV, NodeKind};
use crate::listing::{enumerate_items, enumerate_spec, ArticleItem};
use crate::render::{
    article_render_of, article_render_ok, dir_render_of, dir_render_ok, items_view,
    markdown_html_of, markdown_to_html, template_compiles, TemplateSet,
};
use crate::resolve::{
    classify, classify_spec, concat_segments, parent_candidate, segs_ok, ResolvedTarget,
    ResolvedTargetV,
};
use crate::strutil::{join_segments, join_segs, segs_eq};

verus! {

// ---------------------------------------------------------------------------
// Responses.
// ---------------------------------------------------------------------------

/// The response decided for one request: a rendered page, a file to send,
/// a redirect to the canonical location, or one of the two failure pages.
pub enum PageResponse {
    Html { body: String },
    File { fs_path: Vec<String> },
    Redirect { location: String },
    NotFound,
    ServerError,
}

/// Spec-level image of a response.
pub enum PageResponseV {
    Html { body: Seq<char> },
    File { fs_path: Seq<Seq<char>> },
    Redirect { location: Seq<char> },
    NotFound,
    ServerError,
}

impl View for PageResponse {
    type V = PageResponseV;

    open spec fn view(&self) -> PageResponseV {
        match self {
            PageResponse::Html { body } => PageResponseV::Html { body: body@ },
            PageResponse::File { fs_path } => PageResponseV::File { fs_path: fs_path.deep_view() },
            PageResponse::Redirect { location } => PageResponseV::Redirect {
                location: location@,
            },
            PageResponse::NotFound => PageResponseV::NotFound,
            PageResponse::ServerError => PageResponseV::ServerError,
        }
    }
}

/// What the handler decides for a request.  Everything but an article
/// completes at once; an article needs its markdown read first, so the
/// handler hands back where to read and the page context to come back with.
pub enum HandleStep {
    Done { response: PageResponse },
    ReadArticle { fs_path: Vec<String>, parent_link: String, current_dir: String },
}

/// Spec-level image of a handler step.
pub enum HandleStepV {
    Done { response: PageResponseV },
    ReadArticle { fs_path: Seq<Seq<char>>, parent_link: Seq<char>, current_dir: Seq<char> },
}

impl View for HandleStep {
    type V = HandleStepV;

    open spec fn view(&self) -> HandleStepV {
        match self {
            HandleStep::Done { response } => HandleStepV::Done { response: response@ },
            HandleStep::ReadArticle { fs_path, parent_link, current_dir } => {
                HandleStepV::ReadArticle {
                    fs_path: fs_path.deep_view(),
                    parent_link: parent_link@,
                    current_dir: current_dir@,
                }
            },
        }
    }
}

/// How reading an article's text went: the caller reads the file and
/// reports the text, its absence, or a read failure.
pub enum ArticleRead {
    Content { text: String },
    Absent,
    Unreadable,
}

// ---------------------------------------------------------------------------
// Page context: parent link and current directory.
// ---------------------------------------------------------------------------

/// An absolute link: `/` + prefix + `/` + the segments joined with `/`.
pub open spec fn abs_link(prefix: Seq<char>, segs: Seq<Seq<char>>) -> Seq<char> {
    seq!['/'] + prefix + seq!['/'] + join_segs(segs)
}

/// The parent link of a resolved logical path: the link of its parent
/// directory, or the empty string at the section root.
pub open spec fn parent_link_of(prefix: Seq<char>, logical: Seq<Seq<char>>) -> Seq<char> {
    if logical.len() == 0 {
        Seq::empty()
    } else {
        abs_link(prefix, logical.drop_last())
    }
}

/// The directory a resolved target sits in: the logical path itself for a
/// directory, its parent for a file.
pub open spec fn current_dir_of(
    fs: FsSnapshotV,
    fs_path: Seq<Seq<char>>,
    logical: Seq<Seq<char>>,
) -> Seq<Seq<char>> {
    if fs.node_at_full(fs_path) == NodeKind::Dir {
        logical
    } else if logical.len() == 0 {
        logical
    } else {
        logical.drop_last()
    }
}

/// Builds an absolute link, executably.
pub fn build_abs_link(prefix: &String, segs: &Vec<String>) -> (r: String)
    ensures
        r@ == abs_link(prefix@, segs.deep_view()),
{
    let mut r = String::new();
    r.append("/");
    r.append(prefix.as_str());
    r.append("/");
    let joined = join_segments(segs);
    r.append(joined.as_str());
    proof {
        reveal_strlit("/");
        assert("/"@ =~= seq!['/']);
        assert(r@ =~= abs_link(prefix@, segs.deep_view()));
    }
    r
}

/// Computes the parent link and current directory of a resolved target.
fn page_context(
    fs: &FsSnapshot,
    prefix: &String,
    fs_path: &Vec<String>,
    logical: &Vec<String>,
) -> (r: (String, String))
    ensures
        r.0@ == parent_link_of(prefix@, logical.deep_view()),
        r.1@ == join_segs(current_dir_of(fs@, fs_path.deep_view(), logical.deep_view())),
{
    let parent_link = if logical.len() == 0 {
        String::new()
    } else {
        let parent = parent_candidate(logical);
        build_abs_link(prefix, &parent)
    };
    let kind = fs.node_at_full(fs_path);
    let current_dir = if matches!(kind, NodeKind::Dir) {
        join_segments(logical)
    } else if logical.len() == 0 {
        String::new()
    } else {
        let parent = parent_candidate(logical);
        join_segments(&parent)
    };
    (parent_link, current_dir)
}

/// What `MyHandler::handle` promises of its decided step `r`, for every
/// request: the step follows the classification of the request, with the
/// page context and, for directories, the rendered listing.
pub open spec fn handle_contract(
    h: MyHandler,
    fs: FsSnapshotV,
    req: Seq<Seq<char>>,
    r: HandleStepV,
) -> bool {
    match classify_spec(fs, h.base_path.deep_view(), req) {
        ResolvedTargetV::Article { fs_path, logical } => r == HandleStepV::ReadArticle {
            fs_path,
            parent_link: parent_link_of(h.article_prefix@, logical),
            current_dir: join_segs(current_dir_of(fs, fs_path, logical)),
        },
        ResolvedTargetV::Directory { fs_path, logical } => ({
            let pairs = crate::render::item_pairs(
                enumerate_spec(fs, fs_path, logical, h.article_prefix@)->Some_0,
            );
            let pl = parent_link_of(h.article_prefix@, logical);
            let cd = join_segs(current_dir_of(fs, fs_path, logical));
            if dir_render_ok(
                h.article_template.article_tpl(),
                h.article_template.dir_tpl(),
                pairs,
                pl,
                cd,
            ) {
                r == HandleStepV::Done {
                    response: PageResponseV::Html {
                        body: dir_render_of(
                            h.article_template.article_tpl(),
                            h.article_template.dir_tpl(),
                            pairs,
                            pl,
                            cd,
                        ),
                    },
                }
            } else {
                r == HandleStepV::Done { response: PageResponseV::ServerError }
            }
        }),
        ResolvedTargetV::RenderedPage { fs_path } => {
            if fs_path == h.base_path.deep_view() + req {
                r == HandleStepV::Done { response: PageResponseV::File { fs_path } }
            } else {
                r == HandleStepV::Done {
                    response: PageResponseV::Redirect {
                        location: abs_link(
                            h.article_prefix@,
                            fs_path.skip(h.base_path.deep_view().len() as int),
                        ),
                    },
                }
            }
        },
        ResolvedTargetV::StaticAsset { fs_path } => r == HandleStepV::Done {
            response: PageResponseV::File { fs_path },
        },
        ResolvedTargetV::NotFound => r == HandleStepV::Done {
            response: PageResponseV::NotFound,
        },
    }
}

// ---------------------------------------------------------------------------
// The section handler.
// ---------------------------------------------------------------------------

/// One hosted section: its content root, its link prefix, and its two
/// templates.
pub struct MyHandler {
    pub base_path: Vec<String>,
    pub article_prefix: String,
    pub article_template: TemplateSet,
}

impl MyHandler {
    /// Builds a section handler from the two template texts.  Succeeds
    /// exactly when both templates compile.
    pub fn new(
        base_path: Vec<String>,
        article_template: &str,
        dir_template: &str,
        article_prefix: String,
    ) -> (r: Result<MyHandler, handlebars::TemplateError>)
        ensures
            (r is Ok) == (template_compiles(article_template@) && template_compiles(dir_template@)),
            r matches Ok(h) ==> h.base_path == base_path && h.article_prefix == article_prefix
                && h.article_template.article_tpl() == article_template@
                && h.article_template.dir_tpl() == dir_template@,
    {
        match TemplateSet::new(article_template, dir_template) {
            Ok(tset) => Ok(
                MyHandler { base_path, article_prefix, article_template: tset },
            ),
            Err(e) => Err(e),
        }
    }

    /// Enumerates the listing of the directory at `path` (a full path under
    /// the snapshot root), linked under this section's prefix and
    /// `web_path`.  Returns `None` when `path` is not a directory.
    pub fn enumerate_article_items(
        &self,
        fs: &FsSnapshot,
        path: &Vec<String>,
        web_path: &Vec<String>,
    ) -> (r: Option<Vec<ArticleItem>>)
        ensures
            match r {
                Some(items) => enumerate_spec(
                    fs@,
                    path.deep_view(),
                    web_path.deep_view(),
                    self.article_prefix@,
                ) == Some(items.deep_view()),
                None => enumerate_spec(
                    fs@,
                    path.deep_view(),
                    web_path.deep_view(),
                    self.article_prefix@,
                ) is None,
            },
    {
        enumerate_items(fs, path, web_path, &self.article_prefix)
    }

    /// Decides the response for one request path.  A directory is rendered
    /// at once; an article is handed back to be read; a pre-rendered page
    /// found by fallback becomes a redirect to its canonical location;
    /// anything else is a file to send or a not-found page.
    pub fn handle(&self, fs: &FsSnapshot, req: &Vec<String>) -> (r: HandleStep)
        ensures
            handle_contract(*self, fs@, req.deep_view(), r@),
    {
        let target = classify(fs, &self.base_path, req);
        proof {
            crate::resolve::lemma_classify_target_kind(
                fs@,
                self.base_path.deep_view(),
                req.deep_view(),
            );
        }
        match target {
            ResolvedTarget::Article { fs_path, logical } => {
                let (parent_link, current_dir) = page_context(
                    fs,
                    &self.article_prefix,
                    &fs_path,
                    &logical,
                );
                HandleStep::ReadArticle { fs_path, parent_link, current_dir }
            },
            ResolvedTarget::Directory { fs_path, logical } => {
                let (parent_link, current_dir) = page_context(
                    fs,
                    &self.article_prefix,
                    &fs_path,
                    &logical,
                );
                match enumerate_items(fs, &fs_path, &logical, &self.article_prefix) {
                    Some(items) => {
                        proof {
                            assert(items_view(items@) =~= crate::render::item_pairs(
                                items.deep_view(),
                            ));
                        }
                        match self.article_template.render_dir_raw(
                            &items,
                            parent_link.as_str(),
                            current_dir.as_str(),
                        ) {
                            Ok(body) => HandleStep::Done {
                                response: PageResponse::Html { body },
                            },
                            Err(_) => HandleStep::Done {
                                response: PageResponse::ServerError,
                            },
                        }
                    },
                    None => {
                        proof {
                            assert(false);
                        }
                        HandleStep::Done { response: PageResponse::NotFound }
                    },
                }
            },
            ResolvedTarget::RenderedPage { fs_path } => {
                let full = concat_segments(&self.base_path, req);
                if segs_eq(&fs_path, &full) {
                    HandleStep::Done { response: PageResponse::File { fs_path } }
                } else {
                    proof {
                        crate::resolve::lemma_search_parent_lockstep(
                            fs@,
                            self.base_path.deep_view(),
                            self.base_path.deep_view() + req.deep_view(),
                            req.deep_view(),
                        );
                        assert(fs_path.deep_view().len() >= self.base_path@.len());
                    }
                    let rel = crate::resolve::skip_segments(&fs_path, self.base_path.len());
                    let location = build_abs_link(&self.article_prefix, &rel);
                    HandleStep::Done { response: PageResponse::Redirect { location } }
                }
            },
            ResolvedTarget::StaticAsset { fs_path } => HandleStep::Done {
                response: PageResponse::File { fs_path },
            },
            ResolvedTarget::NotFound => HandleStep::Done { response: PageResponse::NotFound },
        }
    }

    /// Finishes an article request once its text has been read: converts
    /// the markdown and renders the article template.  An absent file is
    /// the not-found page; an unreadable one or a failed render is the
    /// server-error page.
    pub fn render_article_read(
        &self,
        read: ArticleRead,
        parent_link: &str,
        current_dir: &str,
    ) -> (r: PageResponse)
        ensures
            read matches ArticleRead::Content { text } ==> ({
                if article_render_ok(
                    self.article_template.article_tpl(),
                    self.article_template.dir_tpl(),
                    markdown_html_of(text@),
                    parent_link@,
                    current_dir@,
                ) {
                    r@ == PageResponseV::Html {
                        body: article_render_of(
                            self.article_template.article_tpl(),
                            self.article_template.dir_tpl(),
                            markdown_html_of(text@),
                            parent_link@,
                            current_dir@,
                        ),
                    }
                } else {
                    r@ == PageResponseV::ServerError
                }
            }),
            read is Absent ==> r@ == PageResponseV::NotFound,
            read is Unreadable ==> r@ == PageResponseV::ServerError,
    {
        match read {
            ArticleRead::Content { text } => {
                let content = markdown_to_html(text.as_str());
                match self.article_template.render_article_raw(
                    content.as_str(),
                    parent_link,
                    current_dir,
                ) {
                    Ok(body) => PageResponse::Html { body },
                    Err(_) => PageResponse::ServerError,
                }
            },
            ArticleRead::Absent => PageResponse::NotFound,
            ArticleRead::Unreadable => PageResponse::ServerError,
        }
    }
}

// ---------------------------------------------------------------------------
// The thin file handlers.
// ---------------------------------------------------------------------------

/// Serves raw files under one base directory.
pub struct StaticFileHandler {
    pub base_path: Vec<String>,
}

impl StaticFileHandler {
    /// A static handler over `p`.
    pub fn new(p: Vec<String>) -> (h: StaticFileHandler)
        ensures
            h.base_path == p,
    {
        StaticFileHandler { base_path: p }
    }

    /// Decides the file to serve for a raw request path: the joined path
    /// under the base for an acceptable request, nothing otherwise.
    pub fn handle(&self, req: &Vec<String>) -> (r: Option<Vec<String>>)
        ensures
            segs_ok(req.deep_view()) ==> (r matches Some(p) && p.deep_view()
                == self.base_path.deep_view() + req.deep_view()),
            !segs_ok(req.deep_view()) ==> r is None,
    {
        if !crate::resolve::check_segments(req) {
            return None;
        }
        Some(concat_segments(&self.base_path, req))
    }
}

/// Serves one fixed file, whatever the request.
pub struct HardFileHandler {
    pub file: Vec<String>,
}

impl HardFileHandler {
    /// A hard handler for the file at `p`.
    pub fn new(p: Vec<String>) -> (h: HardFileHandler)
        ensures
            h.file == p,
    {
        HardFileHandler { file: p }
    }

    /// The file this handler always serves.
    pub fn handle(&self) -> (r: Vec<String>)
        ensures
            r.deep_view() == self.file.deep_view(),
    {
        crate::resolve::clone_segments(&self.file)
    }
}

} // verus!

use simple_page::fs_model::{FsEntry, FsSnapshot, NodeKind};
use simple_page::handler::{
    ArticleRead, HandleStep, HardFileHandler, MyHandler, PageResponse, StaticFileHandler,
};
use simple_page::listing::ArticleItem;
use simple_page::regulate_link;
use simple_page::resolve::{classify, search_parent, ResolvedTarget};

fn segs(v: &[&str]) -> Vec<String> {
    v.iter().map(|s| s.to_string()).collect()
}

fn entry(path: &[&str], is_dir: bool) -> FsEntry {
    FsEntry { path: segs(path), is_dir }
}

fn sample_tree() -> FsSnapshot {
    FsSnapshot {
        root: segs(&["data"]),
        entries: vec![
            entry(&["a"], true),
            entry(&["a", "b.md"], false),
            entry(&["a", "pic.png"], false),
            entry(&["x.md"], false),
            entry(&["page.html"], false),
            entry(&["a", "page.html"], false),
        ],
    }
}

fn handler_with(article_tpl: &str, dir_tpl: &str) -> MyHandler {
    MyHandler::new(segs(&["data"]), article_tpl, dir_tpl, "articles".to_string()).unwrap()
}

// --- classification -------------------------------------------------------

#[test]
fn classify_direct_md_is_article() {
    let fs = sample_tree();
    let target = classify(&fs, &segs(&["data"]), &segs(&["a", "b.md"]));
    match target {
        ResolvedTarget::Article { fs_path, logical } => {
            assert_eq!(fs_path, segs(&["data", "a", "b.md"]));
            assert_eq!(logical, segs(&["a", "b.md"]));
        }
        _ => panic!("expected an article"),
    }
}

#[test]
fn classify_directory() {
    let fs = sample_tree();
    let target = classify(&fs, &segs(&["data"]), &segs(&["a"]));
    match target {
        ResolvedTarget::Directory { fs_path, logical } => {
            assert_eq!(fs_path, segs(&["data", "a"]));
            assert_eq!(logical, segs(&["a"]));
        }
        _ => panic!("expected a directory"),
    }
}

#[test]
fn classify_static_asset() {
    let fs = sample_tree();
    let target = classify(&fs, &segs(&["data"]), &segs(&["a", "pic.png"]));
    match target {
        ResolvedTarget::StaticAsset { fs_path } => {
            assert_eq!(fs_path, segs(&["data", "a", "pic.png"]));
        }
        _ => panic!("expected a static asset"),
    }
}

#[test]
fn classify_missing_is_not_found() {
    let fs = sample_tree();
    let target = classify(&fs, &segs(&["data"]), &segs(&["nowhere.txt"]));
    assert!(matches!(target, ResolvedTarget::NotFound));
}

#[test]
fn classify_traversal_is_not_found() {
    let fs = sample_tree();
    let target = classify(&fs, &segs(&["data"]), &segs(&["..", "a", "b.md"]));
    assert!(matches!(target, ResolvedTarget::NotFound));
    let target = classify(&fs, &segs(&["data"]), &segs(&["a", "..", "b.md"]));
    assert!(matches!(target, ResolvedTarget::NotFound));
    let target = classify(&fs, &segs(&["data"]), &segs(&[".", "x.md"]));
    assert!(matches!(target, ResolvedTarget::NotFound));
}

// --- fallback search ------------------------------------------------------

#[test]
fn fallback_two_segment_skip() {
    let fs = sample_tree();
    // data/a/c/b.md is missing; one two-segment skip lands on data/a/b.md.
    let r = search_parent(&fs, segs(&["data", "a", "c", "b.md"]), segs(&["a", "c", "b.md"]));
    assert_eq!(r, Some((segs(&["data", "a", "b.md"]), segs(&["a", "b.md"]))));
}

#[test]
fn fallback_repeats_skip_over_missing_levels() {
    let fs = sample_tree();
    // Two skips in a row: data/q/r/x.md, then data/q/x.md, then data/x.md.
    let r = search_parent(&fs, segs(&["data", "q", "r", "x.md"]), segs(&["q", "r", "x.md"]));
    assert_eq!(r, Some((segs(&["data", "x.md"]), segs(&["x.md"]))));
}

#[test]
fn fallback_takes_nearest_ancestor_not_two() {
    // The skip drops the two most specific segments before the leaf, which
    // is one directory level: with the page present both one and two levels
    // up, the nearer one wins.
    let fs = FsSnapshot {
        root: segs(&["data"]),
        entries: vec![
            entry(&["a"], true),
            entry(&["a", "b"], true),
            entry(&["a", "b", "x.md"], false),
            entry(&["a", "x.md"], false),
        ],
    };
    let r = search_parent(
        &fs,
        segs(&["data", "a", "b", "c", "x.md"]),
        segs(&["a", "b", "c", "x.md"]),
    );
    assert_eq!(r, Some((segs(&["data", "a", "b", "x.md"]), segs(&["a", "b", "x.md"]))));
}

#[test]
fn fallback_existing_path_returned_unchanged() {
    let fs = sample_tree();
    let r = search_parent(&fs, segs(&["data", "a", "b.md"]), segs(&["a", "b.md"]));
    assert_eq!(r, Some((segs(&["data", "a", "b.md"]), segs(&["a", "b.md"]))));
}

#[test]
fn fallback_exhausted_is_none() {
    let fs = sample_tree();
    let r = search_parent(&fs, segs(&["data", "nope.md"]), segs(&["nope.md"]));
    assert_eq!(r, None);
}

#[test]
fn missing_extensionless_path_keeps_leaf() {
    // The skip is the same with or without an extension: the leaf is kept
    // and the directory level before it dropped, so a/q/sub finds a/sub.
    let fs = FsSnapshot {
        root: segs(&["data"]),
        entries: vec![
            entry(&["a"], true),
            entry(&["a", "sub"], true),
        ],
    };
    let r = search_parent(&fs, segs(&["data", "a", "q", "sub"]), segs(&["a", "q", "sub"]));
    assert_eq!(r, Some((segs(&["data", "a", "sub"]), segs(&["a", "sub"]))));
    let target = classify(&fs, &segs(&["data"]), &segs(&["a", "q", "sub"]));
    match target {
        ResolvedTarget::Directory { fs_path, logical } => {
            assert_eq!(fs_path, segs(&["data", "a", "sub"]));
            assert_eq!(logical, segs(&["a", "sub"]));
        }
        _ => panic!("expected the directory found by the skip"),
    }
}

#[test]
fn missing_extensionless_leaf_is_not_found() {
    // The leaf is never dropped: a request for a missing name inside an
    // existing directory does not resolve to that directory.
    let fs = sample_tree();
    let target = classify(&fs, &segs(&["data"]), &segs(&["a", "zzz"]));
    assert!(matches!(target, ResolvedTarget::NotFound));
}

// --- node lookup ----------------------------------------------------------

#[test]
fn node_kinds() {
    let fs = sample_tree();
    assert_eq!(fs.node_at(&segs(&[])), NodeKind::Dir);
    assert_eq!(fs.node_at(&segs(&["a"])), NodeKind::Dir);
    assert_eq!(fs.node_at(&segs(&["a", "b.md"])), NodeKind::File);
    assert_eq!(fs.node_at(&segs(&["a", "zzz"])), NodeKind::Missing);
    assert_eq!(fs.node_at_full(&segs(&["data", "a"])), NodeKind::Dir);
    assert_eq!(fs.node_at_full(&segs(&["elsewhere", "a"])), NodeKind::Missing);
}

// --- enumeration ----------------------------------------------------------

#[test]
fn enumeration_excludes_and_sorts() {
    // a.md, b.txt and the sub-directory c: the listing holds exactly a.md
    // and c, in that order.
    let fs = FsSnapshot {
        root: segs(&["data"]),
        entries: vec![
            entry(&["d"], true),
            entry(&["d", "c"], true),
            entry(&["d", "b.txt"], false),
            entry(&["d", "a.md"], false),
        ],
    };
    let h = handler_with("{{content}}", "{{#each items}}{{title}};{{/each}}");
    let items = h
        .enumerate_article_items(&fs, &segs(&["data", "d"]), &segs(&["d"]))
        .unwrap();
    assert_eq!(items.len(), 2);
    match &items[0] {
        ArticleItem::Article { title, link } => {
            assert_eq!(title, "a");
            assert_eq!(link, "/articles/d/a.md");
        }
        _ => panic!("expected an article first"),
    }
    match &items[1] {
        ArticleItem::Directory { title, link } => {
            assert_eq!(title, "c");
            assert_eq!(link, "/articles/d/c/");
        }
        _ => panic!("expected the sub-directory second"),
    }
}

#[test]
fn enumeration_deterministic() {
    let fs = sample_tree();
    let h = handler_with("{{content}}", "{{#each items}}{{title}};{{/each}}");
    let a = h
        .enumerate_article_items(&fs, &segs(&["data"]), &segs(&[]))
        .unwrap();
    let b = h
        .enumerate_article_items(&fs, &segs(&["data"]), &segs(&[]))
        .unwrap();
    assert_eq!(a.len(), b.len());
    for (x, y) in a.iter().zip(b.iter()) {
        assert_eq!(x.title(), y.title());
        assert_eq!(x.link(), y.link());
    }
}

#[test]
fn enumeration_of_file_is_none() {
    let fs = sample_tree();
    let h = handler_with("{{content}}", "{{#each items}}{{title}};{{/each}}");
    assert!(h
        .enumerate_article_items(&fs, &segs(&["data", "a", "b.md"]), &segs(&["a", "b.md"]))
        .is_none());
}

#[test]
fn enumeration_empty_directory_is_empty() {
    let fs = FsSnapshot { root: segs(&["data"]), entries: vec![entry(&["e"], true)] };
    let h = handler_with("{{content}}", "{{#each items}}{{title}};{{/each}}");
    let items = h
        .enumerate_article_items(&fs, &segs(&["data", "e"]), &segs(&["e"]))
        .unwrap();
    assert!(items.is_empty());
}

// --- the handler ----------------------------------------------------------

#[test]
fn handle_article_hands_back_read_step() {
    let fs = sample_tree();
    let h = handler_with("{{content}}", "{{#each items}}{{title}};{{/each}}");
    let step = h.handle(&fs, &segs(&["a", "b.md"]));
    match step {
        HandleStep::ReadArticle { fs_path, parent_link, current_dir } => {
            assert_eq!(fs_path, segs(&["data", "a", "b.md"]));
            assert_eq!(parent_link, "/articles/a");
            assert_eq!(current_dir, "a");
        }
        _ => panic!("expected a read step"),
    }
}

#[test]
fn handle_directory_renders_listing() {
    let fs = sample_tree();
    let h = handler_with(
        "{{content}}",
        "D|{{#each items}}{{title}}={{link}};{{/each}}|{{parent_link}}|{{current_dir}}",
    );
    let step = h.handle(&fs, &segs(&["a"]));
    match step {
        HandleStep::Done { response: PageResponse::Html { body } } => {
            assert_eq!(body, "D|b=/articles/a/b.md;|/articles/|a");
        }
        _ => panic!("expected a rendered listing"),
    }
}

#[test]
fn handle_section_root_lists_root() {
    let fs = sample_tree();
    let h = handler_with(
        "{{content}}",
        "{{#each items}}{{title}}={{link}};{{/each}}|{{parent_link}}|{{current_dir}}",
    );
    let step = h.handle(&fs, &segs(&[]));
    match step {
        HandleStep::Done { response: PageResponse::Html { body } } => {
            assert_eq!(body, "a=/articles/a/;x=/articles/x.md;||");
        }
        _ => panic!("expected a rendered listing"),
    }
}

#[test]
fn handle_html_direct_serves_file() {
    let fs = sample_tree();
    let h = handler_with("{{content}}", "{{#each items}}{{title}};{{/each}}");
    let step = h.handle(&fs, &segs(&["page.html"]));
    match step {
        HandleStep::Done { response: PageResponse::File { fs_path } } => {
            assert_eq!(fs_path, segs(&["data", "page.html"]));
        }
        _ => panic!("expected the file itself"),
    }
}

#[test]
fn handle_html_fallback_redirects() {
    let fs = sample_tree();
    let h = handler_with("{{content}}", "{{#each items}}{{title}};{{/each}}");
    // a/q/page.html is missing; the fallback finds a/page.html: the answer
    // is a redirect to the canonical URL, not the content.
    let step = h.handle(&fs, &segs(&["a", "q", "page.html"]));
    match step {
        HandleStep::Done { response: PageResponse::Redirect { location } } => {
            assert_eq!(location, "/articles/a/page.html");
        }
        _ => panic!("expected a redirect"),
    }
}

#[test]
fn redirect_location_is_relative_to_section_base() {
    // The section base sits below the snapshot root; the canonical URL is
    // built from the base-relative path, not the root-relative one.
    let fs = FsSnapshot {
        root: segs(&["data"]),
        entries: vec![
            entry(&["misc"], true),
            entry(&["misc", "page.html"], false),
        ],
    };
    let h = MyHandler::new(
        segs(&["data", "misc"]),
        "{{content}}",
        "{{#each items}}{{title}};{{/each}}",
        "articles".to_string(),
    )
    .unwrap();
    let step = h.handle(&fs, &segs(&["q", "page.html"]));
    match step {
        HandleStep::Done { response: PageResponse::Redirect { location } } => {
            assert_eq!(location, "/articles/page.html");
        }
        _ => panic!("expected a redirect"),
    }
}

#[test]
fn handle_html_miss_is_not_found() {
    let fs = sample_tree();
    let h = handler_with("{{content}}", "{{#each items}}{{title}};{{/each}}");
    let step = h.handle(&fs, &segs(&["gone.html"]));
    assert!(matches!(step, HandleStep::Done { response: PageResponse::NotFound }));
}

#[test]
fn handle_traversal_is_not_found() {
    let fs = sample_tree();
    let h = handler_with("{{content}}", "{{#each items}}{{title}};{{/each}}");
    let step = h.handle(&fs, &segs(&["..", "data", "a", "b.md"]));
    assert!(matches!(step, HandleStep::Done { response: PageResponse::NotFound }));
}

#[test]
fn handle_static_passthrough() {
    let fs = sample_tree();
    let h = handler_with("{{content}}", "{{#each items}}{{title}};{{/each}}");
    let step = h.handle(&fs, &segs(&["a", "pic.png"]));
    match step {
        HandleStep::Done { response: PageResponse::File { fs_path } } => {
            assert_eq!(fs_path, segs(&["data", "a", "pic.png"]));
        }
        _ => panic!("expected the asset"),
    }
}

// --- rendering ------------------------------------------------------------

#[test]
fn bold_markdown_renders_unescaped() {
    let h = handler_with("A[{{content}}]B|{{parent_link}}|{{current_dir}}", "{{content}}");
    let r = h.render_article_read(
        ArticleRead::Content { text: "**bold**".to_string() },
        "/articles/",
        "a",
    );
    match r {
        PageResponse::Html { body } => {
            assert!(body.contains("<strong>bold</strong>"));
            assert!(body.starts_with("A["));
            assert!(body.ends_with("]B|/articles/|a"));
        }
        _ => panic!("expected a page"),
    }
}

#[test]
fn raw_html_passes_through_unescaped() {
    let h = handler_with("{{content}}", "{{content}}");
    let r = h.render_article_read(
        ArticleRead::Content { text: "before <em data-x=\"1\">kept</em> after".to_string() },
        "",
        "",
    );
    match r {
        PageResponse::Html { body } => {
            assert!(body.contains("<em data-x=\"1\">kept</em>"));
            assert!(!body.contains("&lt;em"));
        }
        _ => panic!("expected a page"),
    }
}

#[test]
fn absent_article_is_not_found() {
    let h = handler_with("{{content}}", "{{content}}");
    let r = h.render_article_read(ArticleRead::Absent, "", "");
    assert!(matches!(r, PageResponse::NotFound));
}

#[test]
fn unreadable_article_is_server_error() {
    let h = handler_with("{{content}}", "{{content}}");
    let r = h.render_article_read(ArticleRead::Unreadable, "", "");
    assert!(matches!(r, PageResponse::ServerError));
}

#[test]
fn malformed_template_is_rejected() {
    let r = MyHandler::new(
        segs(&["data"]),
        "{{#if}}{{content}}",
        "{{content}}",
        "articles".to_string(),
    );
    assert!(r.is_err());
}

// --- the thin handlers ----------------------------------------------------

#[test]
fn static_handler_joins_under_base() {
    let h = StaticFileHandler::new(segs(&["static"]));
    assert_eq!(h.handle(&segs(&["css", "site.css"])), Some(segs(&["static", "css", "site.css"])));
}

#[test]
fn static_handler_rejects_traversal() {
    let h = StaticFileHandler::new(segs(&["static"]));
    assert_eq!(h.handle(&segs(&["..", "secret"])), None);
    assert_eq!(h.handle(&segs(&["a", ""])), None);
}

#[test]
fn hard_handler_serves_fixed_file() {
    let h = HardFileHandler::new(segs(&["sample", "index.html"]));
    assert_eq!(h.handle(), segs(&["sample", "index.html"]));
}

// --- small pieces ---------------------------------------------------------

#[test]
fn regulate_link_appends_slash() {
    assert_eq!(regulate_link(""), "");
    assert_eq!(regulate_link("a/b"), "a/b/");
}

#[test]
fn article_item_getters() {
    let a = ArticleItem::Article { title: "t".to_string(), link: "/l".to_string() };
    let d = ArticleItem::Directory { title: "u".to_string(), link: "/m/".to_string() };
    assert_eq!(a.title(), "t");
    assert_eq!(a.link(), "/l");
    assert_eq!(d.title(), "u");
    assert_eq!(d.link(), "/m/");
}

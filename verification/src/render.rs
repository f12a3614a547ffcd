//! Rendering: markdown conversion and the two page templates.  The outside
//! calls stand behind trusted wrappers; everything that can be checked is
//! stated over names for their results.
use vstd::prelude::*;

use crate::listing::ArticleItem;
use handlebars::Handlebars;

verus! {

// ---------------------------------------------------------------------------
// Declared outside types.
// ---------------------------------------------------------------------------

#[verifier::external_type_specification]
#[verifier::external_body]
pub struct ExHandlebars<'reg>(Handlebars<'reg>);

#[verifier::external_type_specification]
#[verifier::external_body]
pub struct ExTemplateError(handlebars::TemplateError);

#[verifier::external_type_specification]
#[verifier::external_body]
pub struct ExRenderError(handlebars::RenderError);

// ---------------------------------------------------------------------------
// Names for the outside results.  Each is a function of its arguments
// alone; nothing more is assumed of it.
// ---------------------------------------------------------------------------

/// The HTML that the markdown converter produces for a text.
pub uninterp spec fn markdown_html_of(s: Seq<char>) -> Seq<char>;

/// Whether a template text compiles.
pub uninterp spec fn template_compiles(tpl: Seq<char>) -> bool;

/// The page that the article template produces for given slot values.
/// Both registered template texts are arguments: a template may pull the
/// other one in as a partial.
pub uninterp spec fn article_render_of(
    article_tpl: Seq<char>,
    dir_tpl: Seq<char>,
    content: Seq<char>,
    parent_link: Seq<char>,
    current_dir: Seq<char>,
) -> Seq<char>;

/// The page that the directory template produces for given items and slot
/// values.  Both registered template texts are arguments: a template may
/// pull the other one in as a partial.
pub uninterp spec fn dir_render_of(
    article_tpl: Seq<char>,
    dir_tpl: Seq<char>,
    items: Seq<(Seq<char>, Seq<char>)>,
    parent_link: Seq<char>,
    current_dir: Seq<char>,
) -> Seq<char>;

/// Whether rendering the article template succeeds.  Success depends on
/// the same arguments as the page itself: the two registered template
/// texts and the slot values.
pub uninterp spec fn article_render_ok(
    article_tpl: Seq<char>,
    dir_tpl: Seq<char>,
    content: Seq<char>,
    parent_link: Seq<char>,
    current_dir: Seq<char>,
) -> bool;

/// Whether rendering the directory template succeeds.  Success depends on
/// the same arguments as the page itself: the two registered template
/// texts, the items, and the slot values.
pub uninterp spec fn dir_render_ok(
    article_tpl: Seq<char>,
    dir_tpl: Seq<char>,
    items: Seq<(Seq<char>, Seq<char>)>,
    parent_link: Seq<char>,
    current_dir: Seq<char>,
) -> bool;

/// The title and link of each listing entry, in order.
pub open spec fn items_view(items: Seq<ArticleItem>) -> Seq<(Seq<char>, Seq<char>)> {
    Seq::new(items.len(), |i: int| (items[i]@.title(), items[i]@.link()))
}

/// The title and link of each spec-level listing entry, in order.
pub open spec fn item_pairs(items: Seq<crate::listing::ArticleItemV>) -> Seq<
    (Seq<char>, Seq<char>),
> {
    Seq::new(items.len(), |i: int| (items[i].title(), items[i].link()))
}

// ---------------------------------------------------------------------------
// Markdown.
// ---------------------------------------------------------------------------

/// Relies on pulldown_cmark's `Parser::new_ext` and `html::push_html`:
/// converts markdown to HTML with the strikethrough and table extensions
/// enabled.  The result depends on the input text alone.
#[verifier::external_body]
pub(crate) fn markdown_to_html(src: &str) -> (r: String)
    ensures
        r@ == markdown_html_of(src@),
{
    let mut opts = pulldown_cmark::Options::empty();
    opts.insert(pulldown_cmark::Options::ENABLE_STRIKETHROUGH);
    opts.insert(pulldown_cmark::Options::ENABLE_TABLES);
    let parser = pulldown_cmark::Parser::new_ext(src, opts);
    let mut out = String::new();
    pulldown_cmark::html::push_html(&mut out, parser);
    out
}

// ---------------------------------------------------------------------------
// Templates.
// ---------------------------------------------------------------------------

/// The two compiled page templates of one section, with their sources kept
/// for specification purposes.  The fields are private so that the
/// registry and the recorded sources cannot come apart: only
/// `TemplateSet::new` builds a value.
pub struct TemplateSet {
    reg: Handlebars<'static>,
    article_src: Ghost<Seq<char>>,
    dir_src: Ghost<Seq<char>>,
}

/// Relies on handlebars::Handlebars::register_template_string: compiling a
/// template succeeds or fails on the template text alone.  Escaping is
/// disabled, so inserted values pass through verbatim.
#[verifier::external_body]
fn compile_templates(article_src: &str, dir_src: &str) -> (r: Result<Handlebars<'static>, handlebars::TemplateError>)
    ensures
        (r is Ok) == (template_compiles(article_src@) && template_compiles(dir_src@)),
{
    let mut reg = Handlebars::new();
    reg.unregister_escape_fn();
    reg.register_escape_fn(handlebars::no_escape);
    reg.register_template_string("article_template", article_src)?;
    reg.register_template_string("dir_template", dir_src)?;
    Ok(reg)
}

impl TemplateSet {
    /// The text the article template was compiled from.
    pub closed spec fn article_tpl(self) -> Seq<char> {
        self.article_src@
    }

    /// The text the directory template was compiled from.
    pub closed spec fn dir_tpl(self) -> Seq<char> {
        self.dir_src@
    }

    /// Compiles the article and directory templates.  Succeeds exactly when
    /// both template texts compile.
    pub fn new(article_src: &str, dir_src: &str) -> (r: Result<TemplateSet, handlebars::TemplateError>)
        ensures
            (r is Ok) == (template_compiles(article_src@) && template_compiles(dir_src@)),
            r matches Ok(t) ==> t.article_tpl() == article_src@ && t.dir_tpl() == dir_src@,
    {
        match compile_templates(article_src, dir_src) {
            Ok(reg) => Ok(
                TemplateSet {
                    reg,
                    article_src: Ghost(article_src@),
                    dir_src: Ghost(dir_src@),
                },
            ),
            Err(e) => Err(e),
        }
    }

    /// Relies on handlebars::Handlebars::render of the article template:
    /// the page it produces depends only on the two registered template
    /// texts and the `content`, `parent_link` and `current_dir` slot
    /// values.
    #[verifier::external_body]
    pub(crate) fn render_article_raw(&self, content: &str, parent_link: &str, current_dir: &str) -> (r: Result<String, handlebars::RenderError>)
        ensures
            (r is Ok) == article_render_ok(
                self.article_tpl(),
                self.dir_tpl(),
                content@,
                parent_link@,
                current_dir@,
            ),
            r matches Ok(s) ==> s@ == article_render_of(
                self.article_tpl(),
                self.dir_tpl(),
                content@,
                parent_link@,
                current_dir@,
            ),
    {
        let mut data = serde_json::Map::new();
        data.insert("content".to_string(), serde_json::Value::String(content.to_string()));
        data.insert("parent_link".to_string(), serde_json::Value::String(parent_link.to_string()));
        data.insert("current_dir".to_string(), serde_json::Value::String(current_dir.to_string()));
        self.reg.render("article_template", &serde_json::Value::Object(data))
    }

    /// Relies on handlebars::Handlebars::render of the directory template:
    /// the page it produces depends only on the two registered template
    /// texts, the items' titles and links, and the `parent_link` and
    /// `current_dir` slot values.
    #[verifier::external_body]
    pub(crate) fn render_dir_raw(&self, items: &Vec<ArticleItem>, parent_link: &str, current_dir: &str) -> (r: Result<String, handlebars::RenderError>)
        ensures
            (r is Ok) == dir_render_ok(
                self.article_tpl(),
                self.dir_tpl(),
                items_view(items@),
                parent_link@,
                current_dir@,
            ),
            r matches Ok(s) ==> s@ == dir_render_of(
                self.article_tpl(),
                self.dir_tpl(),
                items_view(items@),
                parent_link@,
                current_dir@,
            ),
    {
        let arr: Vec<serde_json::Value> = items
            .iter()
            .map(|p| {
                let mut m = serde_json::Map::new();
                m.insert("title".to_string(), serde_json::Value::String(p.title()));
                m.insert("link".to_string(), serde_json::Value::String(p.link()));
                serde_json::Value::Object(m)
            })
            .collect();
        let mut data = serde_json::Map::new();
        data.insert("items".to_string(), serde_json::Value::Array(arr));
        data.insert("parent_link".to_string(), serde_json::Value::String(parent_link.to_string()));
        data.insert("current_dir".to_string(), serde_json::Value::String(current_dir.to_string()));
        self.reg.render("dir_template", &serde_json::Value::Object(data))
    }
}

} // verus!

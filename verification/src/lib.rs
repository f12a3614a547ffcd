//! A small document server's core: request paths are resolved against a
//! tree of markdown articles, pre-rendered pages and static assets, with
//! an ancestor fallback search for moved files; directories become sorted,
//! navigable listings; markdown is rendered to HTML and wrapped in a page
//! template.  The tree is handed in as a value, so every routing and
//! resolution decision here is verified; the surrounding program walks the
//! disk, reads files and sends the bytes.
pub mod dispatch;
pub mod fs_model;
pub mod handler;
pub mod laws;
pub mod listing;
pub mod render;
pub mod resolve;
pub mod strutil;
pub mod types;

use vstd::prelude::*;

verus! {

/// Appends a trailing slash to a non-empty link fragment; leaves an empty
/// fragment untouched.
pub fn regulate_link(s: &str) -> (r: String)
    ensures
        s@.len() == 0 ==> r@ == Seq::<char>::empty(),
        s@.len() > 0 ==> r@ == s@ + "/"@,
{
    if s.unicode_len() == 0 {
        String::new()
    } else {
        let mut r = s.to_owned();
        r.append("/");
        r
    }
}

} // verus!

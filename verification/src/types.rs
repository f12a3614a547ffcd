//! Path-carrying types of the routing surface: an extension-tagged file
//! path, a directory path, the fixed directories, and the special files of
//! the site root.  Paths are sequences of segments.
use vstd::prelude::*;

use crate::resolve::two_up_with_leaf;
use crate::strutil::{ext_of, extension_of, join_segments, join_segs, str_eq};

pub use crate::listing::ArticleItem;
pub use crate::listing::ArticleItemV;

verus! {

/// The parent of a segment path: the path without its last segment, or the
/// empty path if there is nothing to drop.
pub open spec fn parent_segs(p: Seq<Seq<char>>) -> Seq<Seq<char>> {
    if p.len() == 0 {
        p
    } else {
        p.drop_last()
    }
}

/// Drops the last segment, executably; an empty path stays empty.
fn parent_segs_exec(p: &Vec<String>) -> (r: Vec<String>)
    ensures
        r.deep_view() == parent_segs(p.deep_view()),
{
    if p.len() == 0 {
        Vec::new()
    } else {
        crate::resolve::parent_candidate(p)
    }
}

/// A file path whose leaf carries a required extension.
pub struct FileWithExt {
    pub path: Vec<String>,
    pub ext: String,
}

impl FileWithExt {
    /// Accepts a segment path whose leaf has exactly the extension `ext`.
    pub fn from_segments(segs: Vec<String>, ext: &str) -> (r: Option<FileWithExt>)
        ensures
            match r {
                Some(f) => segs.deep_view().len() > 0 && ext_of(segs.deep_view().last()) == Some(
                    ext@,
                ) && f.path.deep_view() == segs.deep_view() && f.ext@ == ext@,
                None => !(segs.deep_view().len() > 0 && ext_of(segs.deep_view().last()) == Some(
                    ext@,
                )),
            },
    {
        let n = segs.len();
        if n == 0 {
            return None;
        }
        proof {
            assert(segs.deep_view().last() == segs@[n - 1]@);
        }
        match extension_of(segs[n - 1].as_str()) {
            Some(e) => {
                if str_eq(e.as_str(), ext) {
                    Some(FileWithExt { path: segs, ext: e })
                } else {
                    None
                }
            },
            None => None,
        }
    }

    /// A short description: the extension and the path.
    pub fn show(&self) -> (r: String)
        ensures
            r@ == "File with Extension "@ + self.ext@ + " "@ + join_segs(self.path.deep_view()),
    {
        let mut result = String::new();
        result.append("File with Extension ");
        result.append(self.ext.as_str());
        result.append(" ");
        let joined = join_segments(&self.path);
        result.append(joined.as_str());
        proof {
            assert(result@ =~= "File with Extension "@ + self.ext@ + " "@ + join_segs(
                self.path.deep_view(),
            ));
        }
        result
    }

    /// The same leaf one directory level higher: the two most specific
    /// segments before the leaf are dropped and the leaf kept.  Nothing is
    /// above a path of fewer than two segments.
    pub fn upper_level(&self) -> (r: Option<FileWithExt>)
        ensures
            match r {
                Some(f) => self.path.deep_view().len() >= 2 && f.path.deep_view()
                    == self.path.deep_view().take(self.path.deep_view().len() - 2).push(
                    self.path.deep_view().last(),
                ) && f.ext@ == self.ext@,
                None => self.path.deep_view().len() < 2,
            },
    {
        let n = self.path.len();
        if n >= 2 {
            let leaf = self.path[n - 1].clone();
            proof {
                assert(leaf@ == self.path.deep_view().last());
            }
            let p = two_up_with_leaf(&self.path, &leaf);
            Some(FileWithExt { path: p, ext: self.ext.clone() })
        } else {
            None
        }
    }

    /// The directory the file sits in.
    pub fn current_dir(&self) -> (r: Vec<String>)
        ensures
            r.deep_view() == parent_segs(self.path.deep_view()),
    {
        parent_segs_exec(&self.path)
    }

    /// The directory above the one the file sits in.
    pub fn parent_dir(&self) -> (r: Vec<String>)
        ensures
            r.deep_view() == parent_segs(parent_segs(self.path.deep_view())),
    {
        let cur = self.current_dir();
        parent_segs_exec(&cur)
    }
}

/// A request path without an extension: a directory.
pub struct DirPath(pub Vec<String>);

impl DirPath {
    /// Accepts a segment path whose leaf has no extension.
    pub fn from_segments(segs: Vec<String>) -> (r: Option<DirPath>)
        ensures
            match r {
                Some(d) => (segs.deep_view().len() == 0 || ext_of(segs.deep_view().last()) is None)
                    && d.0.deep_view() == segs.deep_view(),
                None => segs.deep_view().len() > 0 && ext_of(segs.deep_view().last()) is Some,
            },
    {
        let n = segs.len();
        if n == 0 {
            return Some(DirPath(segs));
        }
        proof {
            assert(segs.deep_view().last() == segs@[n - 1]@);
        }
        match extension_of(segs[n - 1].as_str()) {
            Some(_) => None,
            None => Some(DirPath(segs)),
        }
    }

    /// Accepts a single request segment without an extension.
    pub fn from_param(param: &str) -> (r: Option<DirPath>)
        ensures
            match r {
                Some(d) => ext_of(param@) is None && d.0.deep_view() =~= seq![param@],
                None => ext_of(param@) is Some,
            },
    {
        match extension_of(param) {
            Some(_) => None,
            None => {
                let mut v: Vec<String> = Vec::new();
                v.push(param.to_owned());
                proof {
                    assert(v.deep_view() =~= seq![param@]);
                }
                Some(DirPath(v))
            },
        }
    }

    /// The directory above this one.
    pub fn parent_dir(&self) -> (r: Vec<String>)
        ensures
            r.deep_view() == parent_segs(self.0.deep_view()),
    {
        parent_segs_exec(&self.0)
    }
}

/// The directory raw static assets are served from.
pub struct StaticDir(pub Vec<String>);

/// The directory the document tree lives under.
pub struct DataDir(pub Vec<String>);

/// One of the fixed files of the site root.
pub struct SpecialFile(pub Vec<String>);

/// A compiled template registry.
pub struct Template<'reg>(pub handlebars::Handlebars<'reg>);

/// The fixed file a special root request maps to: the empty path and
/// `index.html` to the index file, and the two well-known files to their
/// fixed names.
pub open spec fn special_file_of(name: Seq<char>) -> Option<Seq<Seq<char>>> {
    if name == ""@ || name == "index.html"@ {
        Some(seq!["index.html"@])
    } else if name == "favicon.ico"@ {
        Some(seq!["favicon.ico"@])
    } else if name == "robots.txt"@ {
        Some(seq!["robots.txt"@])
    } else {
        None
    }
}

impl SpecialFile {
    /// Maps the hard-wired root requests to their files: the empty path and
    /// `index.html` to the index file, and the two well-known files to
    /// their fixed names.  Anything else is not special.
    pub fn from_param(param: &str) -> (r: Option<SpecialFile>)
        ensures
            match r {
                Some(f) => special_file_of(param@) == Some(f.0.deep_view()),
                None => special_file_of(param@) is None,
            },
    {
        proof {
            reveal_strlit("");
            reveal_strlit("index.html");
            reveal_strlit("favicon.ico");
            reveal_strlit("robots.txt");
            assert("robots.txt"@[0] == 'r');
            assert("index.html"@[0] == 'i');
            assert("robots.txt"@ != "index.html"@);
        }
        let fname: &str = if str_eq(param, "") || str_eq(param, "index.html") {
            "index.html"
        } else if str_eq(param, "favicon.ico") {
            "favicon.ico"
        } else if str_eq(param, "robots.txt") {
            "robots.txt"
        } else {
            return None;
        };
        let mut v: Vec<String> = Vec::new();
        v.push(fname.to_owned());
        proof {
            assert(v.deep_view() =~= seq![fname@]);
            if param@ == "favicon.ico"@ {
                assert(fname@ == "favicon.ico"@);
                assert(v.deep_view() =~= seq!["favicon.ico"@]);
            }
            if param@ == "robots.txt"@ {
                assert(fname@ == "robots.txt"@);
                assert(v.deep_view() =~= seq!["robots.txt"@]);
            }
            if param@ == ""@ || param@ == "index.html"@ {
                assert(fname@ == "index.html"@);
                assert(v.deep_view() =~= seq!["index.html"@]);
            }
        }
        Some(SpecialFile(v))
    }
}

} // verus!

use simple_page::fs_model::{FsEntry, FsSnapshot};
use simple_page::resolve::resolve_file_upward;
use simple_page::strutil::{extension_of, join_segments, lex_le_str, stem_of_name, str_eq};
use simple_page::types::{DirPath, FileWithExt, SpecialFile};

fn path_of(v: &[&str]) -> Vec<String> {
    v.iter().map(|s| s.to_string()).collect()
}

fn tree() -> FsSnapshot {
    FsSnapshot {
        root: path_of(&["data"]),
        entries: vec![
            FsEntry { path: path_of(&["a"]), is_dir: true },
            FsEntry { path: path_of(&["a", "b.md"]), is_dir: false },
        ],
    }
}

// --- string helpers -------------------------------------------------------

#[test]
fn extension_after_last_dot() {
    assert_eq!(extension_of("a.tar.gz"), Some("gz".to_string()));
    assert_eq!(extension_of("b.md"), Some("md".to_string()));
    assert_eq!(extension_of("plain"), None);
    assert_eq!(extension_of(".hidden"), None);
    assert_eq!(extension_of("dotted."), Some(String::new()));
}

#[test]
fn stem_before_last_dot() {
    assert_eq!(stem_of_name("a.tar.gz"), "a.tar");
    assert_eq!(stem_of_name("b.md"), "b");
    assert_eq!(stem_of_name("plain"), "plain");
    assert_eq!(stem_of_name(".hidden"), ".hidden");
}

#[test]
fn string_equality_by_characters() {
    assert!(str_eq("abc", "abc"));
    assert!(!str_eq("abc", "abd"));
    assert!(!str_eq("abc", "ab"));
    assert!(str_eq("", ""));
}

#[test]
fn lexicographic_order_on_code_points() {
    assert!(lex_le_str("a.md", "b.txt"));
    assert!(!lex_le_str("c", "b.txt"));
    assert!(lex_le_str("abc", "abcd"));
    assert!(!lex_le_str("abcd", "abc"));
    assert!(lex_le_str("", "a"));
    assert!(lex_le_str("x", "x"));
}

#[test]
fn joining_segments_with_slashes() {
    assert_eq!(join_segments(&path_of(&[])), "");
    assert_eq!(join_segments(&path_of(&["a"])), "a");
    assert_eq!(join_segments(&path_of(&["a", "b", "c.md"])), "a/b/c.md");
}

// --- the serve-time upward retry ------------------------------------------

#[test]
fn resolve_file_retries_upward() {
    let fs = tree();
    assert_eq!(
        resolve_file_upward(&fs, path_of(&["data", "a", "b.md"])),
        Some(path_of(&["data", "a", "b.md"]))
    );
    assert_eq!(
        resolve_file_upward(&fs, path_of(&["data", "a", "q", "b.md"])),
        Some(path_of(&["data", "a", "b.md"]))
    );
    assert_eq!(resolve_file_upward(&fs, path_of(&["data", "a"])), None);
    assert_eq!(resolve_file_upward(&fs, path_of(&["data", "nope.md"])), None);
}

// --- the path types -------------------------------------------------------

#[test]
fn file_with_ext_accepts_matching_extension() {
    let f = FileWithExt::from_segments(path_of(&["a", "b.md"]), "md").unwrap();
    assert_eq!(f.path, path_of(&["a", "b.md"]));
    assert_eq!(f.ext, "md");
    assert!(FileWithExt::from_segments(path_of(&["a", "b.md"]), "html").is_none());
    assert!(FileWithExt::from_segments(path_of(&["a", "plain"]), "md").is_none());
    assert!(FileWithExt::from_segments(path_of(&[]), "md").is_none());
}

#[test]
fn file_with_ext_show() {
    let f = FileWithExt::from_segments(path_of(&["a", "b.md"]), "md").unwrap();
    assert_eq!(f.show(), "File with Extension md a/b.md");
}

#[test]
fn file_with_ext_upper_level_keeps_leaf() {
    let f = FileWithExt::from_segments(path_of(&["a", "b", "c.md"]), "md").unwrap();
    let up = f.upper_level().unwrap();
    assert_eq!(up.path, path_of(&["a", "c.md"]));
    let top = FileWithExt::from_segments(path_of(&["c.md"]), "md").unwrap();
    assert!(top.upper_level().is_none());
}

#[test]
fn file_with_ext_directories() {
    let f = FileWithExt::from_segments(path_of(&["a", "b", "c.md"]), "md").unwrap();
    assert_eq!(f.current_dir(), path_of(&["a", "b"]));
    assert_eq!(f.parent_dir(), path_of(&["a"]));
    let top = FileWithExt::from_segments(path_of(&["c.md"]), "md").unwrap();
    assert_eq!(top.current_dir(), path_of(&[]));
    assert_eq!(top.parent_dir(), path_of(&[]));
}

#[test]
fn dir_path_accepts_extensionless() {
    let d = DirPath::from_segments(path_of(&["a", "b"])).unwrap();
    assert_eq!(d.0, path_of(&["a", "b"]));
    assert!(DirPath::from_segments(path_of(&["a", "b.md"])).is_none());
    assert!(DirPath::from_segments(path_of(&[])).is_some());
}

#[test]
fn dir_path_from_param() {
    let d = DirPath::from_param("notes").unwrap();
    assert_eq!(d.0, path_of(&["notes"]));
    assert!(DirPath::from_param("notes.md").is_none());
}

#[test]
fn dir_path_parent() {
    let d = DirPath::from_segments(path_of(&["a", "b"])).unwrap();
    assert_eq!(d.parent_dir(), path_of(&["a"]));
}

#[test]
fn special_files_of_the_root() {
    assert_eq!(SpecialFile::from_param("").unwrap().0, path_of(&["index.html"]));
    assert_eq!(SpecialFile::from_param("index.html").unwrap().0, path_of(&["index.html"]));
    assert_eq!(SpecialFile::from_param("favicon.ico").unwrap().0, path_of(&["favicon.ico"]));
    assert_eq!(SpecialFile::from_param("robots.txt").unwrap().0, path_of(&["robots.txt"]));
    assert!(SpecialFile::from_param("other.txt").is_none());
}

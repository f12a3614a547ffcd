use simple_page::dispatch::{dispatch, Route};

fn p(v: &[&str]) -> Vec<String> {
    v.iter().map(|s| s.to_string()).collect()
}

fn mounts() -> Vec<String> {
    p(&["articles", "misc"])
}

#[test]
fn root_maps_to_index() {
    match dispatch(&mounts(), &p(&[])) {
        Route::Special { file } => assert_eq!(file, p(&["index.html"])),
        _ => panic!("expected the index file"),
    }
}

#[test]
fn special_root_files() {
    match dispatch(&mounts(), &p(&["index.html"])) {
        Route::Special { file } => assert_eq!(file, p(&["index.html"])),
        _ => panic!("expected the index file"),
    }
    match dispatch(&mounts(), &p(&["favicon.ico"])) {
        Route::Special { file } => assert_eq!(file, p(&["favicon.ico"])),
        _ => panic!("expected the icon"),
    }
    match dispatch(&mounts(), &p(&["robots.txt"])) {
        Route::Special { file } => assert_eq!(file, p(&["robots.txt"])),
        _ => panic!("expected the robots file"),
    }
}

#[test]
fn static_mount() {
    match dispatch(&mounts(), &p(&["static", "css", "site.css"])) {
        Route::Static { rest } => assert_eq!(rest, p(&["css", "site.css"])),
        _ => panic!("expected the static mount"),
    }
}

#[test]
fn first_matching_section_wins() {
    match dispatch(&mounts(), &p(&["articles", "a", "b.md"])) {
        Route::Section { index, rest } => {
            assert_eq!(index, 0);
            assert_eq!(rest, p(&["a", "b.md"]));
        }
        _ => panic!("expected the first section"),
    }
    match dispatch(&mounts(), &p(&["misc"])) {
        Route::Section { index, rest } => {
            assert_eq!(index, 1);
            assert_eq!(rest, p(&[]));
        }
        _ => panic!("expected the second section"),
    }
}

#[test]
fn unknown_mount_is_unrouted() {
    assert!(matches!(dispatch(&mounts(), &p(&["elsewhere", "x"])), Route::Unrouted));
}

#[test]
fn special_and_static_outrank_sections() {
    // Even a section named like a special file or the static mount loses
    // to the more specific matcher.
    let shadowing = p(&["favicon.ico", "static"]);
    assert!(matches!(dispatch(&shadowing, &p(&["favicon.ico"])), Route::Special { .. }));
    assert!(matches!(dispatch(&shadowing, &p(&["static", "x"])), Route::Static { .. }));
    // With a second segment the request is no longer the special file.
    assert!(matches!(
        dispatch(&shadowing, &p(&["favicon.ico", "x"])),
        Route::Section { index: 0, .. }
    ));
}

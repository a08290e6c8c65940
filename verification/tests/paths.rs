use batch_run::paths::{
    file_name_of, path_text_le, replace_extension, stage, IGNORE_ALL, IGNORE_FILE, WIP_DIR,
};

#[test]
fn extension_is_replaced() {
    assert_eq!(replace_extension("tests/a.rs", "stderr"), "tests/a.stderr");
    assert_eq!(replace_extension("tests/a.rs", "snapshot"), "tests/a.snapshot");
    assert_eq!(replace_extension("a.tar.gz", "stderr"), "a.tar.stderr");
    assert_eq!(replace_extension("dir.d/file", "stderr"), "dir.d/file.stderr");
    assert_eq!(replace_extension("/abs/x.y/z.rs", "stderr"), "/abs/x.y/z.stderr");
}

#[test]
fn extension_is_added_where_there_is_none() {
    assert_eq!(replace_extension("a", "stderr"), "a.stderr");
    assert_eq!(replace_extension(".hidden", "stderr"), ".hidden.stderr");
    assert_eq!(replace_extension("foo.", "stderr"), "foo.stderr");
    assert_eq!(replace_extension("dir/...", "x"), "dir/...x");
}

#[test]
fn paths_without_file_name_stay() {
    assert_eq!(replace_extension("", "stderr"), "");
    assert_eq!(replace_extension("..", "stderr"), "..");
    assert_eq!(replace_extension("a/..", "stderr"), "a/..");
    assert_eq!(replace_extension("a/../", "stderr"), "a/../");
    assert_eq!(replace_extension(".", "stderr"), ".");
    assert_eq!(replace_extension("./", "stderr"), "./");
    assert_eq!(replace_extension("/", "stderr"), "/");
    assert_eq!(replace_extension("//.", "stderr"), "//.");
}

#[test]
fn what_follows_the_file_name_is_left_aside() {
    assert_eq!(replace_extension("dir/", "stderr"), "dir.stderr");
    assert_eq!(replace_extension("tests/a.rs/", "stderr"), "tests/a.stderr");
    assert_eq!(replace_extension("tests/a.rs/.", "stderr"), "tests/a.stderr");
    assert_eq!(replace_extension("tests/a.rs//./", "snapshot"), "tests/a.snapshot");
    assert_eq!(replace_extension("a.rs", ""), "a");
    assert_eq!(replace_extension("a", ""), "a");
    assert_eq!(file_name_of("a/"), Some(String::from("a")));
    assert_eq!(file_name_of("a/b/."), Some(String::from("b")));
    assert_eq!(file_name_of("a/.b/./"), Some(String::from(".b")));
    assert_eq!(file_name_of("x./"), Some(String::from("x.")));
}

#[test]
fn file_name_is_the_last_part() {
    assert_eq!(file_name_of("tests/ui/a.rs"), Some(String::from("a.rs")));
    assert_eq!(file_name_of("a.rs"), Some(String::from("a.rs")));
    assert_eq!(file_name_of("/x"), Some(String::from("x")));
    assert_eq!(file_name_of("a/.b"), Some(String::from(".b")));
    assert_eq!(file_name_of("a/..."), Some(String::from("...")));
    assert_eq!(file_name_of(""), None);
    assert_eq!(file_name_of("."), None);
    assert_eq!(file_name_of(".."), None);
    assert_eq!(file_name_of("x/.."), None);
    assert_eq!(file_name_of("/"), None);
    assert_eq!(file_name_of("./."), None);
}

#[test]
fn staged_files_lie_in_the_review_directory() {
    assert_eq!(stage("tests/ui/a.stderr"), Some(String::from("wip/a.stderr")));
    assert_eq!(stage("b.snapshot"), Some(String::from("wip/b.snapshot")));
    assert_eq!(stage("tests/"), Some(String::from("wip/tests")));
    assert_eq!(stage("tests/.."), None);
    assert_eq!(stage(""), None);
    assert_eq!(WIP_DIR, "wip");
    assert_eq!(IGNORE_FILE, "wip/.gitignore");
    assert_eq!(IGNORE_ALL, "*\n");
}

#[test]
fn replacing_agrees_with_the_standard_library_for_files() {
    for path in [
        "a.rs", "tests/ui/a.rs", "a", ".hidden", "x/.hidden.rs", "a.tar.gz", "/abs/file.", "d.d/f", "...", "a/b..c",
        "", ".", "..", "/", "//", "./", "/.", "a/", "a//", "a/.", "a/./", "a/./.", "a.rs/", "x/a.rs/.", "a/..",
        "a/../", "./a.rs", "a//b.rs", "a/.b./", ".a/", "x/..y/.",
    ] {
        for extension in ["stderr", "snapshot", "rs", ""] {
            let expected = std::path::Path::new(path).with_extension(extension);
            assert_eq!(replace_extension(path, extension), expected.to_string_lossy());
        }
        let name = std::path::Path::new(path).file_name().map(|n| n.to_string_lossy().into_owned());
        assert_eq!(file_name_of(path), name);
    }
}

#[test]
fn paths_are_ordered_part_by_part() {
    let le = |a: &str, b: &str| path_text_le(&a.chars().collect(), &b.chars().collect());
    assert!(le("a/b", "a-b/c"));
    assert!(!le("a-b/c", "a/b"));
    assert!(le("a", "a/b"));
    assert!(!le("a/b", "a"));
    assert!(le("a/b", "ab"));
    assert!(le("a/z", "a.b"));
    assert!(le("", "a"));
    assert!(le("x", "x"));
    assert!(le("a/b", "a/b/c"));
    assert!(le("a/B", "a/b"));
    assert!(!le("b", "a/c"));
}

#[test]
fn the_order_agrees_with_the_standard_library() {
    let paths = [
        "", "a", "a/b", "a-b", "a-b/c", "a.b", "a/b/c", "ab", "b", "B", "a b/c", "a+b", "/a", "/a/b", "/",
        "tests/ui-runner/x.rs", "tests/ui-cases/x.rs", "tests/ui/x.rs", "tests/ui.rs", "tests/ui",
        "h\u{e9}/x", "h\u{e9}-x", "a\u{0}b", "a/\u{10000}",
    ];
    for a in paths {
        for b in paths {
            let expected = std::path::Path::new(a) <= std::path::Path::new(b);
            assert_eq!(path_text_le(&a.chars().collect(), &b.chars().collect()), expected);
        }
    }
}

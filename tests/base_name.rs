use std::path::Path;

use zipper::error::ArchiveError;
use zipper::paths::{base_name, entry_name};

fn std_file_name(p: &str) -> Option<String> {
    Path::new(p).file_name().map(|n| n.to_str().unwrap().to_string())
}

#[test]
fn base_name_strips_directories() {
    assert_eq!(base_name("dir/sub/report.txt"), Some("report.txt".to_string()));
    assert_eq!(base_name("/abs/path/data.bin"), Some("data.bin".to_string()));
    assert_eq!(base_name("plain.txt"), Some("plain.txt".to_string()));
}

#[test]
fn base_name_ignores_trailing_separators_and_dots() {
    assert_eq!(base_name("dir/name/"), Some("name".to_string()));
    assert_eq!(base_name("dir/name//"), Some("name".to_string()));
    assert_eq!(base_name("dir/name/."), Some("name".to_string()));
    assert_eq!(base_name("a//b"), Some("b".to_string()));
    assert_eq!(base_name("./x"), Some("x".to_string()));
    assert_eq!(base_name("a/../b"), Some("b".to_string()));
}

#[test]
fn base_name_none_without_a_name() {
    assert_eq!(base_name(""), None);
    assert_eq!(base_name("/"), None);
    assert_eq!(base_name("//"), None);
    assert_eq!(base_name("."), None);
    assert_eq!(base_name("./"), None);
    assert_eq!(base_name(".."), None);
    assert_eq!(base_name("dir/.."), None);
    assert_eq!(base_name("dir/../"), None);
    assert_eq!(base_name("../."), None);
}

#[test]
fn base_name_keeps_other_characters() {
    assert_eq!(base_name("d/...").as_deref(), Some("..."));
    assert_eq!(base_name("d/.hidden").as_deref(), Some(".hidden"));
    assert_eq!(base_name("d/ü ñ.txt").as_deref(), Some("ü ñ.txt"));
}

#[test]
fn base_name_agrees_with_std_path() {
    let cases = [
        "", "/", "//", ".", "./", "..", "../", "a", "a/", "a/.", "a/..", "a/../b", "/a/b/c",
        "./a/./b/.", "a//b///", "...", ".a", "a/.b/", "x/y/../", "ü/ñ",
    ];
    for c in cases {
        assert_eq!(base_name(c), std_file_name(c), "path {:?}", c);
    }
}

#[test]
fn entry_name_refuses_path_without_name() {
    assert_eq!(entry_name("notes/todo.md").ok(), Some("todo.md".to_string()));
    match entry_name("/") {
        Err(ArchiveError::InvalidFileName { path }) => assert_eq!(path, "/"),
        _ => panic!("expected InvalidFileName"),
    }
    match entry_name("") {
        Err(ArchiveError::InvalidFileName { path }) => assert_eq!(path, ""),
        _ => panic!("expected InvalidFileName"),
    }
}

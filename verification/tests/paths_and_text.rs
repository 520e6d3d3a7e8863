use phantom_editor::path::{file_name, join, parent, split_file_name};
use phantom_editor::text::{chars_of, decimal_chars, ends_with, replace_text, starts_with, string_from_chars, text_eq, trim_text};

#[test]
fn file_names() {
    assert_eq!(file_name("/a/b.txt").as_deref(), Some("b.txt"));
    assert_eq!(file_name("/a/b/").as_deref(), Some("b"));
    assert_eq!(file_name("name").as_deref(), Some("name"));
    assert_eq!(file_name("/"), None);
    assert_eq!(file_name(""), None);
    assert_eq!(file_name("a/.."), None);
}

#[test]
fn parents() {
    assert_eq!(parent("/foo").as_deref(), Some("/"));
    assert_eq!(parent("foo").as_deref(), Some(""));
    assert_eq!(parent("/a/b/c").as_deref(), Some("/a/b"));
    assert_eq!(parent("/a/b//").as_deref(), Some("/a"));
    assert_eq!(parent("/"), None);
    assert_eq!(parent(""), None);
}

#[test]
fn joins() {
    assert_eq!(join("a", "b"), "a/b");
    assert_eq!(join("a/", "b"), "a/b");
    assert_eq!(join("a", "/b"), "/b");
    assert_eq!(join("", "b"), "b");
}

#[test]
fn stems_and_extensions() {
    assert_eq!(split_file_name("a.tar.gz"), ("a.tar".to_string(), Some("gz".to_string())));
    assert_eq!(split_file_name(".bashrc"), (".bashrc".to_string(), None));
    assert_eq!(split_file_name("a."), ("a".to_string(), Some(String::new())));
    assert_eq!(split_file_name("plain"), ("plain".to_string(), None));
    assert_eq!(split_file_name("..x"), (".".to_string(), Some("x".to_string())));
}

#[test]
fn text_helpers() {
    assert_eq!(decimal_chars(0), vec!['0']);
    assert_eq!(string_from_chars(&decimal_chars(1700000000123)), "1700000000123");
    assert_eq!(string_from_chars(&chars_of("héllo")), "héllo");
    assert_eq!(replace_text("aaa", "aa", "b"), "ba");
    assert_eq!(replace_text("a b  c", " ", ""), "abc");
    assert_eq!(trim_text("\u{a0} x y\n"), "x y");
    assert!(starts_with("winit::window", "winit"));
    assert!(!starts_with("win", "winit"));
    assert!(ends_with("_hot_1.so", ".so"));
    assert!(text_eq("Name", "Name"));
    assert!(!text_eq("Name", "name"));
}

#[test]
fn dot_components_are_skipped() {
    assert_eq!(file_name("foo.txt/.").as_deref(), Some("foo.txt"));
    assert_eq!(file_name("a/./.").as_deref(), Some("a"));
    assert_eq!(file_name("a/./b").as_deref(), Some("b"));
    assert_eq!(file_name("."), None);
    assert_eq!(file_name("./."), None);
    assert_eq!(file_name("/."), None);
    assert_eq!(parent("foo/.").as_deref(), Some(""));
    assert_eq!(parent("a/./b").as_deref(), Some("a"));
    assert_eq!(parent("a/./x/b").as_deref(), Some("a/./x"));
    assert_eq!(parent("./a").as_deref(), Some("."));
    assert_eq!(parent("/./a").as_deref(), Some("/"));
    assert_eq!(parent(".").as_deref(), Some(""));
    assert_eq!(parent("/."), None);
}

use gitti::content::{
    binary_placeholder, content_placeholder, extension_of, has_nul, is_binary_extension, is_binary_path, new_side_text,
    placeholder_hunks,
};
use gitti::types::LineTag;

#[test]
fn binary_extensions_are_recognised_in_any_case() {
    assert!(is_binary_path("logo.png"));
    assert!(is_binary_path("assets/IMG.PNG"));
    assert!(is_binary_path("lib/x.Dylib"));
    assert!(is_binary_path("target/deps/foo.d"));
    assert!(!is_binary_path("src/main.rs"));
    assert!(!is_binary_path("Makefile"));
    assert!(!is_binary_path(".png"));
    assert!(!is_binary_path("pics.png/readme"));
}

#[test]
fn extension_list_is_exact() {
    assert!(is_binary_extension("jpeg"));
    assert!(is_binary_extension("a"));
    assert!(!is_binary_extension("PNG"));
    assert!(!is_binary_extension("pngx"));
    assert!(!is_binary_extension(""));
}

#[test]
fn extension_follows_the_last_dot_of_the_name() {
    assert_eq!(extension_of("a/b.tar.gz"), Some("gz".to_string()));
    assert_eq!(extension_of("a.b/c"), None);
    assert_eq!(extension_of(".bashrc"), None);
    assert_eq!(extension_of("x."), Some("".to_string()));
}

#[test]
fn nul_bytes_are_found() {
    assert!(has_nul("ab\0c"));
    assert!(!has_nul("abc"));
    assert!(!has_nul(""));
}

#[test]
fn binary_file_gets_one_placeholder_line() {
    let hunks = binary_placeholder("icon.png", "plain text\n", "more text\n").unwrap();
    assert_eq!(hunks.len(), 1);
    assert_eq!(hunks[0].lines.len(), 1);
    let l = &hunks[0].lines[0];
    assert_eq!(l.content, "[Binary file]");
    assert_eq!(l.tag, LineTag::Insert);
    assert_eq!(l.old_num, None);
    assert_eq!(l.new_num, Some(1));
    assert!(l.highlighted.is_none());
}

#[test]
fn nul_content_counts_as_binary() {
    assert!(binary_placeholder("data.txt", "a\0", "b").is_some());
    assert!(binary_placeholder("data.txt", "a", "\0").is_some());
    assert!(binary_placeholder("data.txt", "a", "b").is_none());
}

#[test]
fn unreadable_placeholder() {
    let hunks = placeholder_hunks("[Unable to read file]");
    assert_eq!(hunks.len(), 1);
    assert_eq!(hunks[0].lines[0].content, "[Unable to read file]");
}

#[test]
fn new_side_prefers_disk_unless_staged() {
    let disk = || Some("disk".to_string());
    let index = || Some("index".to_string());
    assert_eq!(new_side_text(false, disk(), index()), "disk");
    assert_eq!(new_side_text(false, None, index()), "index");
    assert_eq!(new_side_text(true, disk(), index()), "index");
    assert_eq!(new_side_text(true, disk(), None), "");
    assert_eq!(new_side_text(false, None, None), "");
}

#[test]
fn content_policy_orders_binary_unreadable_and_diff() {
    let binary = content_placeholder("pic.PNG", None).unwrap();
    assert_eq!(binary[0].lines[0].content, "[Binary file]");
    let binary = content_placeholder("pic.png", Some(("a\n", "b\n"))).unwrap();
    assert_eq!(binary[0].lines[0].content, "[Binary file]");
    let unreadable = content_placeholder("notes.txt", None).unwrap();
    assert_eq!(unreadable.len(), 1);
    assert_eq!(unreadable[0].lines[0].content, "[Unable to read file]");
    let nul = content_placeholder("notes.txt", Some(("a\0", "b"))).unwrap();
    assert_eq!(nul[0].lines[0].content, "[Binary file]");
    assert!(content_placeholder("notes.txt", Some(("a\n", "b\n"))).is_none());
}

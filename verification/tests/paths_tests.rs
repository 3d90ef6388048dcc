use tarpaulin::paths::{bytes_eq, is_absolute, is_prefix, join};

fn b(s: &str) -> Vec<u8> {
    s.as_bytes().to_vec()
}

#[test]
fn join_inserts_separator() {
    assert_eq!(join(&b("/proj/src"), &b("lib.rs")), b("/proj/src/lib.rs"));
}

#[test]
fn join_keeps_trailing_separator() {
    assert_eq!(join(&b("/proj/"), &b("lib.rs")), b("/proj/lib.rs"));
}

#[test]
fn join_onto_empty_base() {
    assert_eq!(join(&b(""), &b("lib.rs")), b("lib.rs"));
}

#[test]
fn join_absolute_name_replaces_base() {
    assert_eq!(join(&b("/proj"), &b("/abs/file.rs")), b("/abs/file.rs"));
}

#[test]
fn prefix_respects_component_boundary() {
    assert!(is_prefix(&b("/proj"), &b("/proj/src")));
    assert!(is_prefix(&b("/proj"), &b("/proj")));
    assert!(!is_prefix(&b("/proj"), &b("/project/src")));
}

#[test]
fn prefix_of_relative_target() {
    assert!(is_prefix(&b("target"), &b("target/debug/build.rs")));
    assert!(!is_prefix(&b("target"), &b("targetfoo/debug")));
}

#[test]
fn prefix_with_trailing_separator() {
    assert!(is_prefix(&b("/"), &b("/proj")));
}

#[test]
fn absolute_detection() {
    assert!(is_absolute(&b("/proj")));
    assert!(!is_absolute(&b("src")));
    assert!(!is_absolute(&b("")));
}

#[test]
fn byte_equality() {
    assert!(bytes_eq(&b("a/b"), &b("a/b")));
    assert!(!bytes_eq(&b("a/b"), &b("a/c")));
    assert!(!bytes_eq(&b("a"), &b("ab")));
}

use tarpaulin::globs::glob_to_regex;

fn b(s: &str) -> Vec<u8> {
    s.as_bytes().to_vec()
}

#[test]
fn dots_are_escaped_and_stars_widened() {
    assert_eq!(glob_to_regex(&b("src/*.rs")), b(r"src/.*\.rs"));
}

#[test]
fn plain_text_passes_through() {
    assert_eq!(glob_to_regex(&b("src/lib")), b("src/lib"));
}

#[test]
fn empty_glob_stays_empty() {
    assert_eq!(glob_to_regex(&b("")), b(""));
}

#[test]
fn escaped_glob_compiles_as_regex() {
    let text = String::from_utf8(glob_to_regex(&b("tests/*.rs"))).unwrap();
    let re = regex::Regex::new(&text).unwrap();
    assert!(re.is_match("tests/it_works.rs"));
    assert!(!re.is_match("tests/it_works_rs"));
}

use tarpaulin::classify::{classify_linkage, classify_name, contains_bytes};
use tarpaulin::types::FunctionType;

fn b(s: &str) -> Vec<u8> {
    s.as_bytes().to_vec()
}

#[test]
fn name_in_tests_module_is_test() {
    assert_eq!(classify_name(&b("mycrate::tests::it_works")), FunctionType::Test);
}

#[test]
fn harness_main_is_generated() {
    assert_eq!(classify_name(&b("mycrate::__test::main")), FunctionType::Generated);
}

#[test]
fn plain_name_is_standard() {
    assert_eq!(classify_name(&b("mycrate::run")), FunctionType::Standard);
}

#[test]
fn tests_module_wins_over_harness_main() {
    assert_eq!(classify_name(&b("tests::__test::main")), FunctionType::Test);
}

#[test]
fn mangled_test_name_is_demangled_before_classification() {
    // the mangled bytes hold no `tests::`; only the demangled form does
    let mangled = "_ZN7mycrate5tests8it_works17h0123456789abcdefE";
    assert!(!contains_bytes(&b(mangled), &b("tests::")));
    assert_eq!(classify_linkage(mangled), FunctionType::Test);
}

#[test]
fn mangled_harness_main_is_generated() {
    let mangled = "_ZN6__test4main17h0123456789abcdefE";
    assert_eq!(classify_linkage(mangled), FunctionType::Generated);
}

#[test]
fn mangled_standard_name_stays_standard() {
    let mangled = "_ZN7mycrate3run17h0123456789abcdefE";
    assert_eq!(classify_linkage(mangled), FunctionType::Standard);
}

#[test]
fn substring_search() {
    assert!(contains_bytes(&b("abcde"), &b("bcd")));
    assert!(contains_bytes(&b("abcde"), &b("")));
    assert!(!contains_bytes(&b("abcde"), &b("bd")));
    assert!(!contains_bytes(&b("ab"), &b("abc")));
}

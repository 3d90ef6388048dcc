//! Classification of functions from their linkage names.
//!
//! A linkage name is demangled and then judged: names inside a `tests`
//! module mark test functions, the generated harness entry point is
//! recognised by its `__test::main` path, and everything else is standard
//! code.

use vstd::prelude::*;
use crate::types::FunctionType;

verus! {

/// What `rustc_demangle::demangle` renders for a mangled name; a function
/// of the name alone.
pub uninterp spec fn demangled_of(s: Seq<char>) -> Seq<u8>;

/// Relies on rustc_demangle::demangle: renders the demangled form of a
/// symbol name; the result depends on the input name alone.
#[verifier::external_body]
fn demangle_bytes(s: &str) -> (r: Vec<u8>)
    ensures
        r@ == demangled_of(s@),
{
    rustc_demangle::demangle(s).to_string().into_bytes()
}

/// `needle` occurs as a contiguous subsequence of `hay`.
pub open spec fn contains_sub(hay: Seq<u8>, needle: Seq<u8>) -> bool {
    exists|i: int|
        0 <= i && i + needle.len() <= hay.len() && #[trigger] hay.subrange(i, i + needle.len())
            == needle
}

/// The bytes of `tests::`.
pub open spec fn tests_mod_pat() -> Seq<u8> {
    seq![116u8, 101u8, 115u8, 116u8, 115u8, 58u8, 58u8]
}

/// The bytes of `__test::main`.
pub open spec fn harness_main_pat() -> Seq<u8> {
    seq![95u8, 95u8, 116u8, 101u8, 115u8, 116u8, 58u8, 58u8, 109u8, 97u8, 105u8, 110u8]
}

/// How a demangled name is classified.
pub open spec fn classify_spec(name: Seq<u8>) -> FunctionType {
    if contains_sub(name, tests_mod_pat()) {
        FunctionType::Test
    } else if contains_sub(name, harness_main_pat()) {
        FunctionType::Generated
    } else {
        FunctionType::Standard
    }
}

/// Builds the `tests::` pattern.
pub fn tests_mod_bytes() -> (r: Vec<u8>)
    ensures
        r@ == tests_mod_pat(),
{
    let mut v: Vec<u8> = Vec::new();
    v.push(116u8);
    v.push(101u8);
    v.push(115u8);
    v.push(116u8);
    v.push(115u8);
    v.push(58u8);
    v.push(58u8);
    proof {
        assert(v@ =~= tests_mod_pat());
    }
    v
}

/// Builds the `__test::main` pattern.
pub fn harness_main_bytes() -> (r: Vec<u8>)
    ensures
        r@ == harness_main_pat(),
{
    let mut v: Vec<u8> = Vec::new();
    v.push(95u8);
    v.push(95u8);
    v.push(116u8);
    v.push(101u8);
    v.push(115u8);
    v.push(116u8);
    v.push(58u8);
    v.push(58u8);
    v.push(109u8);
    v.push(97u8);
    v.push(105u8);
    v.push(110u8);
    proof {
        assert(v@ =~= harness_main_pat());
    }
    v
}

/// The bytes of `hay` match `needle` starting at `at`.
fn matches_at(hay: &Vec<u8>, needle: &Vec<u8>, at: usize) -> (r: bool)
    requires
        at + needle@.len() <= hay@.len(),
    ensures
        r == (hay@.subrange(at as int, at + needle@.len()) == needle@),
{
    let mut j: usize = 0;
    while j < needle.len()
        invariant
            at + needle@.len() <= hay@.len(),
            j <= needle@.len(),
            forall|k: int| 0 <= k < j ==> hay@[at + k] == needle@[k],
        decreases needle@.len() - j,
    {
        let hl = hay.len();
        proof {
            assert(at + j < hl);
        }
        if hay[at + j] != needle[j] {
            proof {
                assert(hay@.subrange(at as int, at + needle@.len())[j as int] != needle@[j as int]);
            }
            return false;
        }
        j += 1;
    }
    proof {
        assert(hay@.subrange(at as int, at + needle@.len()) =~= needle@);
    }
    true
}

/// Decides whether `needle` occurs inside `hay`.
pub fn contains_bytes(hay: &Vec<u8>, needle: &Vec<u8>) -> (r: bool)
    ensures
        r == contains_sub(hay@, needle@),
{
    if needle.len() > hay.len() {
        return false;
    }
    if needle.len() == 0 {
        proof {
            assert(hay@.subrange(0, 0 + needle@.len() as int) =~= needle@);
            assert(contains_sub(hay@, needle@));
        }
        return true;
    }
    let mut i: usize = 0;
    while i <= hay.len() - needle.len()
        invariant
            0 < needle@.len() <= hay@.len(),
            i <= hay@.len() - needle@.len() + 1,
            forall|k: int|
                0 <= k < i ==> #[trigger] hay@.subrange(k, k + needle@.len()) != needle@,
        decreases hay@.len() - needle@.len() + 1 - i,
    {
        if matches_at(hay, needle, i) {
            return true;
        }
        i += 1;
    }
    false
}

/// Classifies an already demangled name.
pub fn classify_name(name: &Vec<u8>) -> (r: FunctionType)
    ensures
        r == classify_spec(name@),
{
    let tests_pat = tests_mod_bytes();
    if contains_bytes(name, &tests_pat) {
        return FunctionType::Test;
    }
    let main_pat = harness_main_bytes();
    if contains_bytes(name, &main_pat) {
        return FunctionType::Generated;
    }
    FunctionType::Standard
}

/// Demangles a linkage name and classifies the result.
pub fn classify_linkage(linkage: &str) -> (r: FunctionType)
    ensures
        r == classify_spec(demangled_of(linkage@)),
{
    let name = demangle_bytes(linkage);
    classify_name(&name)
}

} // verus!

//! A byte-level model of filesystem paths.
//!
//! Paths are held as byte vectors with `/` as the component separator; a
//! path is absolute iff it starts with `/`. Prefix tests are component-wise,
//! as a path library would do them: `/a/b` has `/a` as a prefix, `/ab` does
//! not.

use vstd::prelude::*;

verus! {

/// The path separator byte, `/`.
pub open spec fn sep() -> u8 {
    47u8
}

/// A path is absolute when it starts with the separator.
pub open spec fn is_absolute_path(p: Seq<u8>) -> bool {
    p.len() > 0 && p[0] == sep()
}

/// Component-wise path prefix: `pre` is a prefix of `p` when `p` starts with
/// the bytes of `pre` and the match ends on a component boundary.
pub open spec fn is_path_prefix(pre: Seq<u8>, p: Seq<u8>) -> bool {
    &&& pre.len() <= p.len()
    &&& p.subrange(0, pre.len() as int) == pre
    &&& (pre.len() == 0 || p.len() == pre.len() || p[pre.len() as int] == sep()
        || pre[pre.len() - 1] == sep())
}

/// Joining a file name onto a base path: an absolute name replaces the base,
/// a name joined to an empty base stands alone, otherwise a separator is
/// inserted unless the base already ends with one.
pub open spec fn joined(base: Seq<u8>, name: Seq<u8>) -> Seq<u8> {
    if name.len() > 0 && name[0] == sep() {
        name
    } else if base.len() == 0 {
        name
    } else if base[base.len() - 1] == sep() {
        base + name
    } else {
        base + seq![sep()] + name
    }
}

/// The bytes of `target`, the build-output subtree's name.
pub open spec fn target_seg() -> Seq<u8> {
    seq![116u8, 97u8, 114u8, 103u8, 101u8, 116u8]
}

/// The bytes of `tests`, the integration-test subtree's name.
pub open spec fn tests_seg() -> Seq<u8> {
    seq![116u8, 101u8, 115u8, 116u8, 115u8]
}

/// Builds the `target` segment.
pub fn target_bytes() -> (r: Vec<u8>)
    ensures
        r@ == target_seg(),
{
    let mut v: Vec<u8> = Vec::new();
    v.push(116u8);
    v.push(97u8);
    v.push(114u8);
    v.push(103u8);
    v.push(101u8);
    v.push(116u8);
    proof {
        assert(v@ =~= target_seg());
    }
    v
}

/// Builds the `tests` segment.
pub fn tests_bytes() -> (r: Vec<u8>)
    ensures
        r@ == tests_seg(),
{
    let mut v: Vec<u8> = Vec::new();
    v.push(116u8);
    v.push(101u8);
    v.push(115u8);
    v.push(116u8);
    v.push(115u8);
    proof {
        assert(v@ =~= tests_seg());
    }
    v
}

/// Byte-for-byte copy of a path.
pub fn clone_bytes(v: &Vec<u8>) -> (r: Vec<u8>)
    ensures
        r@ == v@,
{
    let mut r: Vec<u8> = Vec::new();
    let mut i: usize = 0;
    while i < v.len()
        invariant
            i <= v@.len(),
            r@ == v@.subrange(0, i as int),
        decreases v@.len() - i,
    {
        r.push(v[i]);
        proof {
            assert(r@ =~= v@.subrange(0, i + 1 as int));
        }
        i += 1;
    }
    proof {
        assert(r@ =~= v@);
    }
    r
}

/// Byte-for-byte equality of two paths.
pub fn bytes_eq(a: &Vec<u8>, b: &Vec<u8>) -> (r: bool)
    ensures
        r == (a@ == b@),
{
    if a.len() != b.len() {
        return false;
    }
    let mut i: usize = 0;
    while i < a.len()
        invariant
            a@.len() == b@.len(),
            i <= a@.len(),
            forall|j: int| 0 <= j < i ==> a@[j] == b@[j],
        decreases a@.len() - i,
    {
        if a[i] != b[i] {
            return false;
        }
        i += 1;
    }
    proof {
        assert(a@ =~= b@);
    }
    true
}

/// Decides whether `p` is absolute.
pub fn is_absolute(p: &Vec<u8>) -> (r: bool)
    ensures
        r == is_absolute_path(p@),
{
    p.len() > 0 && p[0] == 47u8
}

/// Decides the component-wise prefix relation.
pub fn is_prefix(pre: &Vec<u8>, p: &Vec<u8>) -> (r: bool)
    ensures
        r == is_path_prefix(pre@, p@),
{
    if pre.len() > p.len() {
        return false;
    }
    let mut i: usize = 0;
    while i < pre.len()
        invariant
            pre@.len() <= p@.len(),
            i <= pre@.len(),
            forall|j: int| 0 <= j < i ==> p@[j] == pre@[j],
        decreases pre@.len() - i,
    {
        if p[i] != pre[i] {
            proof {
                assert(p@.subrange(0, pre@.len() as int)[i as int] != pre@[i as int]);
            }
            return false;
        }
        i += 1;
    }
    proof {
        assert(p@.subrange(0, pre@.len() as int) =~= pre@);
    }
    if pre.len() == 0 {
        return true;
    }
    if p.len() == pre.len() {
        return true;
    }
    if p[pre.len()] == 47u8 {
        return true;
    }
    pre[pre.len() - 1] == 47u8
}

/// Joins a file name onto a base path, following `joined`.
pub fn join(base: &Vec<u8>, name: &Vec<u8>) -> (r: Vec<u8>)
    ensures
        r@ == joined(base@, name@),
{
    if name.len() > 0 && name[0] == 47u8 {
        return clone_bytes(name);
    }
    if base.len() == 0 {
        return clone_bytes(name);
    }
    let mut r = clone_bytes(base);
    if base[base.len() - 1] != 47u8 {
        r.push(47u8);
        proof {
            assert(r@ =~= base@ + seq![sep()]);
        }
    }
    let ghost stem: Seq<u8> = r@;
    let mut i: usize = 0;
    while i < name.len()
        invariant
            i <= name@.len(),
            r@ == stem + name@.subrange(0, i as int),
        decreases name@.len() - i,
    {
        r.push(name[i]);
        proof {
            assert(r@ =~= stem + name@.subrange(0, i + 1 as int));
        }
        i += 1;
    }
    proof {
        assert(name@.subrange(0, name@.len() as int) =~= name@);
        assert(r@ =~= joined(base@, name@));
    }
    r
}

} // verus!

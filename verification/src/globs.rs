//! Translation of file-exclusion globs into regular-expression text.
//!
//! An exclusion pattern treats `.` as a literal and `*` as "any run of
//! characters": each `.` is escaped and each `*` becomes `.*`; every other
//! byte passes through unchanged. Compiling the resulting text is the
//! caller's affair.

use vstd::prelude::*;

verus! {

/// The regular-expression text a glob translates to, byte by byte.
pub open spec fn glob_escaped(s: Seq<u8>) -> Seq<u8>
    decreases s.len(),
{
    if s.len() == 0 {
        Seq::<u8>::empty()
    } else {
        let head = if s[0] == 46u8 {
            seq![92u8, 46u8]
        } else if s[0] == 42u8 {
            seq![46u8, 42u8]
        } else {
            seq![s[0]]
        };
        head + glob_escaped(s.drop_first())
    }
}

/// Translates one exclusion glob into regular-expression text: `.` is
/// escaped to `\.` and `*` widened to `.*`.
pub fn glob_to_regex(s: &Vec<u8>) -> (r: Vec<u8>)
    ensures
        r@ == glob_escaped(s@),
{
    let mut r: Vec<u8> = Vec::new();
    let mut i: usize = 0;
    proof {
        assert(s@.subrange(0, s@.len() as int) =~= s@);
    }
    while i < s.len()
        invariant
            i <= s@.len(),
            glob_escaped(s@) == r@ + glob_escaped(s@.subrange(i as int, s@.len() as int)),
        decreases s@.len() - i,
    {
        let ghost tail = s@.subrange(i as int, s@.len() as int);
        proof {
            assert(tail[0] == s@[i as int]);
            assert(tail.drop_first() =~= s@.subrange(i + 1 as int, s@.len() as int));
        }
        let ghost pre = r@;
        let b = s[i];
        if b == 46u8 {
            r.push(92u8);
            r.push(46u8);
            proof {
                assert(r@ =~= pre + seq![92u8, 46u8]);
            }
        } else if b == 42u8 {
            r.push(46u8);
            r.push(42u8);
            proof {
                assert(r@ =~= pre + seq![46u8, 42u8]);
            }
        } else {
            r.push(b);
            proof {
                assert(r@ =~= pre + seq![b]);
            }
        }
        proof {
            assert(glob_escaped(s@) == pre + glob_escaped(tail));
            assert(glob_escaped(tail) == (if tail[0] == 46u8 {
                seq![92u8, 46u8]
            } else if tail[0] == 42u8 {
                seq![46u8, 42u8]
            } else {
                seq![tail[0]]
            }) + glob_escaped(tail.drop_first()));
            assert((pre + (if tail[0] == 46u8 {
                seq![92u8, 46u8]
            } else if tail[0] == 42u8 {
                seq![46u8, 42u8]
            } else {
                seq![tail[0]]
            })) + glob_escaped(tail.drop_first()) =~= pre + ((if tail[0] == 46u8 {
                seq![92u8, 46u8]
            } else if tail[0] == 42u8 {
                seq![46u8, 42u8]
            } else {
                seq![tail[0]]
            }) + glob_escaped(tail.drop_first())));
        }
        i += 1;
    }
    proof {
        assert(glob_escaped(s@.subrange(s@.len() as int, s@.len() as int)) =~= Seq::<u8>::empty());
        assert(r@ =~= r@ + Seq::<u8>::empty());
    }
    r
}

} // verus!

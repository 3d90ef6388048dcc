//! Static derivation of trace points from debug information.
//!
//! A caller walks the binary's compilation units and hands this module plain
//! values: per subprogram entry its low address, high-PC offset and linkage
//! name, and per line-program row its directory, file name, line and
//! address. The module builds function descriptors, seeds a table of entry
//! classifications by address, and decides which rows become coverage
//! records.

use vstd::prelude::*;
use crate::classify::{classify_linkage, classify_spec, demangled_of};
use crate::paths::{
    is_absolute, is_absolute_path, is_path_prefix, is_prefix, join, joined, target_bytes,
    target_seg, tests_bytes, tests_seg,
};
use crate::types::{FuncDesc, FunctionType, LineType, TracerData};

verus! {

/// Builds a function descriptor from a subprogram entry's attributes.
/// An absent (or unreadable) attribute degrades to its default: address 0,
/// offset 0, and a standard classification when no linkage name is given.
pub fn make_func_desc(low: Option<u64>, high: Option<u64>, linkage: Option<&str>) -> (r:
    FuncDesc)
    ensures
        r.low == (match low {
            Option::Some(x) => x,
            Option::None => 0u64,
        }),
        r.high == (match high {
            Option::Some(x) => x,
            Option::None => 0u64,
        }),
        r.kind == (match linkage {
            Option::Some(name) => classify_spec(demangled_of(name@)),
            Option::None => FunctionType::Standard,
        }),
{
    let low_pc = match low {
        Option::Some(x) => x,
        Option::None => 0u64,
    };
    let high_off = match high {
        Option::Some(x) => x,
        Option::None => 0u64,
    };
    let kind = match linkage {
        Option::Some(name) => classify_linkage(name),
        Option::None => FunctionType::Standard,
    };
    FuncDesc { low: low_pc, high: high_off, kind }
}

/// The seed classification that one descriptor contributes, keyed by its
/// low address.
pub open spec fn seed_of(d: FuncDesc) -> (u64, LineType) {
    match d.kind {
        FunctionType::Test => (d.low, LineType::TestEntry(d.high)),
        FunctionType::Standard => (d.low, LineType::FunctionEntry(d.high)),
        FunctionType::Generated => (d.low, LineType::TestMain),
    }
}

/// Turns a compilation unit's descriptors into the address-keyed seed table.
pub fn seed_entries(descs: &Vec<FuncDesc>) -> (r: Vec<(u64, LineType)>)
    ensures
        r@.len() == descs@.len(),
        forall|i: int| 0 <= i < descs@.len() ==> r@[i] == seed_of(descs@[i]),
{
    let mut r: Vec<(u64, LineType)> = Vec::new();
    let mut i: usize = 0;
    while i < descs.len()
        invariant
            i <= descs@.len(),
            r@.len() == i,
            forall|j: int| 0 <= j < i ==> r@[j] == seed_of(descs@[j]),
        decreases descs@.len() - i,
    {
        let d = descs[i];
        let entry = match d.kind {
            FunctionType::Test => (d.low, LineType::TestEntry(d.high)),
            FunctionType::Standard => (d.low, LineType::FunctionEntry(d.high)),
            FunctionType::Generated => (d.low, LineType::TestMain),
        };
        r.push(entry);
        i += 1;
    }
    r
}

/// First classification found for an address in the seed table, or
/// `Unknown` when no entry's low address matches exactly.
pub open spec fn lookup_spec(es: Seq<(u64, LineType)>, addr: u64) -> LineType
    decreases es.len(),
{
    if es.len() == 0 {
        LineType::Unknown
    } else if es[0].0 == addr {
        es[0].1
    } else {
        lookup_spec(es.drop_first(), addr)
    }
}

/// Looks an address up in the seed table.
pub fn lookup_entry(es: &Vec<(u64, LineType)>, addr: u64) -> (r: LineType)
    ensures
        r == lookup_spec(es@, addr),
{
    let mut i: usize = 0;
    proof {
        assert(es@.subrange(0, es@.len() as int) =~= es@);
    }
    while i < es.len()
        invariant
            i <= es@.len(),
            lookup_spec(es@, addr) == lookup_spec(es@.subrange(i as int, es@.len() as int), addr),
        decreases es@.len() - i,
    {
        let tail = Ghost(es@.subrange(i as int, es@.len() as int));
        if es[i].0 == addr {
            proof {
                assert(tail@[0] == es@[i as int]);
            }
            return es[i].1;
        }
        proof {
            assert(tail@[0] == es@[i as int]);
            assert(tail@.drop_first() =~= es@.subrange(i + 1 as int, es@.len() as int));
        }
        i += 1;
    }
    proof {
        assert(es@.subrange(i as int, es@.len() as int).len() == 0);
    }
    LineType::Unknown
}

/// How a row's directory path is resolved before acceptance.
pub enum DirResolution {
    /// The row lies under the build-output subtree and is rejected outright.
    RejectedTarget,
    /// A relative path outside the build-output subtree; the caller should
    /// canonicalize it against the filesystem, best effort, and pass the
    /// result (or this path unchanged, on failure) on to acceptance.
    NeedsCanonical(Vec<u8>),
    /// An absolute path outside the build-output subtree, ready for
    /// acceptance as it stands.
    Ready(Vec<u8>),
}

/// The directory path a row names: its directory entry, or empty.
pub open spec fn dir_view(dir: Option<Vec<u8>>) -> Seq<u8> {
    match dir {
        Option::Some(v) => v@,
        Option::None => Seq::<u8>::empty(),
    }
}

/// Resolves a row's directory entry. A relative path starting with the
/// build-output segment is rejected; any other relative path is handed back
/// for canonicalization; an absolute path is tested against the project's
/// build-output subtree directly.
pub fn resolve_row_dir(dir: Option<Vec<u8>>, project: &Vec<u8>) -> (r: DirResolution)
    ensures
        ({
            let d = dir_view(dir);
            match r {
                DirResolution::RejectedTarget => (!is_absolute_path(d) && is_path_prefix(
                    target_seg(),
                    d,
                )) || (is_absolute_path(d) && is_path_prefix(joined(project@, target_seg()), d)),
                DirResolution::NeedsCanonical(p) => !is_absolute_path(d) && !is_path_prefix(
                    target_seg(),
                    d,
                ) && p@ == d,
                DirResolution::Ready(p) => is_absolute_path(d) && !is_path_prefix(
                    joined(project@, target_seg()),
                    d,
                ) && p@ == d,
            }
        }),
{
    let path: Vec<u8> = match dir {
        Option::Some(v) => v,
        Option::None => Vec::new(),
    };
    let tgt = target_bytes();
    if !is_absolute(&path) {
        if is_prefix(&tgt, &path) {
            DirResolution::RejectedTarget
        } else {
            DirResolution::NeedsCanonical(path)
        }
    } else {
        let project_target = join(project, &tgt);
        if is_prefix(&project_target, &path) {
            DirResolution::RejectedTarget
        } else {
            DirResolution::Ready(path)
        }
    }
}

/// A row is accepted when its record path — the resolved directory joined
/// with the row's file name — lies within the project root and outside the
/// build-output subtree, the row maps to a line, and the path names an
/// existing regular file.
pub open spec fn row_accepted(
    full: Seq<u8>,
    project: Seq<u8>,
    line: Option<u64>,
    file_is_regular: bool,
) -> bool {
    &&& is_path_prefix(project, full)
    &&& !is_path_prefix(joined(project, target_seg()), full)
    &&& line is Some
    &&& file_is_regular
}

/// The classification an accepted row receives: the seed table's entry for
/// its address, with a function entry under the integration-test subtree
/// forced to a test entry carrying the same extent offset.
pub open spec fn row_type_spec(
    es: Seq<(u64, LineType)>,
    addr: u64,
    full: Seq<u8>,
    project: Seq<u8>,
) -> LineType {
    let base = lookup_spec(es, addr);
    if is_path_prefix(joined(project, tests_seg()), full) {
        match base {
            LineType::FunctionEntry(e) => LineType::TestEntry(e),
            _ => base,
        }
    } else {
        base
    }
}

/// Decides whether one line-program row becomes a coverage record.
/// `file_is_regular` reports whether the joined path names an existing
/// regular file on disk; the caller supplies it, as only the filesystem can
/// answer. An accepted record's path always lies within the project root
/// and outside the build-output subtree.
pub fn accept_row(
    dir_path: &Vec<u8>,
    project: &Vec<u8>,
    file_name: &Vec<u8>,
    line: Option<u64>,
    address: u64,
    entries: &Vec<(u64, LineType)>,
    file_is_regular: bool,
) -> (r: Option<TracerData>)
    ensures
        (r is Some) == row_accepted(
            joined(dir_path@, file_name@),
            project@,
            line,
            file_is_regular,
        ),
        (match r {
            Option::Some(rec) => rec.path@ == joined(dir_path@, file_name@) && rec.line
                == line.unwrap() && rec.address == address && rec.trace_type == row_type_spec(
                entries@,
                address,
                joined(dir_path@, file_name@),
                project@,
            ) && rec.hits == 0 && is_path_prefix(project@, rec.path@) && !is_path_prefix(
                joined(project@, target_seg()),
                rec.path@,
            ),
            Option::None => true,
        }),
{
    let full = join(dir_path, file_name);
    if !is_prefix(project, &full) {
        return Option::None;
    }
    let tgt = target_bytes();
    let project_target = join(project, &tgt);
    if is_prefix(&project_target, &full) {
        return Option::None;
    }
    let l = match line {
        Option::Some(l) => l,
        Option::None => {
            return Option::None;
        },
    };
    if !file_is_regular {
        return Option::None;
    }
    let tests_seg_v = tests_bytes();
    let tests_dir = join(project, &tests_seg_v);
    let force_test = is_prefix(&tests_dir, &full);
    let base = lookup_entry(entries, address);
    let ty = if force_test {
        match base {
            LineType::FunctionEntry(e) => LineType::TestEntry(e),
            x => x,
        }
    } else {
        base
    };
    Option::Some(TracerData { path: full, line: l, address, trace_type: ty, hits: 0 })
}

} // verus!

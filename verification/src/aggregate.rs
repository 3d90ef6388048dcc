//! Aggregation of emitted coverage records.
//!
//! The concatenated per-unit record list is post-processed: harness-main
//! records are dropped, test-subtree records are dropped when tests are
//! ignored, externally ignored positions are dropped, positions are
//! deduplicated keeping the first record seen, and each surviving test
//! entry's extent offset is tightened to the largest surviving address
//! delta within its original bound.

use vstd::prelude::*;
use crate::paths::{
    bytes_eq, is_path_prefix, is_prefix, join, joined, target_seg, tests_bytes, tests_seg,
};
use crate::types::{position_is, record_eq, same_position, LineType, TracerData};

verus! {

/// An ignore entry names exactly this source position.
pub open spec fn ignore_matches(entry: (Vec<u8>, u64), path: Seq<u8>, line: u64) -> bool {
    entry.0@ == path && entry.1 == line
}

/// The position is present in the externally supplied ignore set.
pub open spec fn in_ignore(ignore: Seq<(Vec<u8>, u64)>, path: Seq<u8>, line: u64) -> bool {
    exists|i: int| 0 <= i < ignore.len() && ignore_matches(#[trigger] ignore[i], path, line)
}

/// A record survives the aggregation filters: it is not a harness main,
/// not under the integration-test subtree when tests are ignored, and not
/// at an ignored position.
pub open spec fn keeps(
    r: TracerData,
    project: Seq<u8>,
    ignore: Seq<(Vec<u8>, u64)>,
    ignore_tests: bool,
) -> bool {
    &&& r.trace_type != LineType::TestMain
    &&& !(ignore_tests && is_path_prefix(joined(project, tests_seg()), r.path@))
    &&& !in_ignore(ignore, r.path@, r.line)
}

/// Some record in `s` sits at the given position.
pub open spec fn has_position(s: Seq<TracerData>, path: Seq<u8>, line: u64) -> bool {
    exists|j: int| 0 <= j < s.len() && position_is(#[trigger] s[j], path, line)
}

/// The trace-point addresses of a record list, in order.
pub open spec fn addresses_of(s: Seq<TracerData>) -> Seq<u64> {
    Seq::new(s.len(), |i: int| s[i].address)
}

/// The largest delta `a - base` over the addresses `a` in `addrs` that is
/// positive and at most `bound`; 0 when none qualifies.
pub open spec fn max_qual_delta(addrs: Seq<u64>, base: u64, bound: u64) -> u64
    decreases addrs.len(),
{
    if addrs.len() == 0 {
        0u64
    } else {
        let rest = max_qual_delta(addrs.drop_last(), base, bound);
        let x = addrs.last();
        if x > base && x - base > rest && x - base <= bound {
            (x - base) as u64
        } else {
            rest
        }
    }
}

/// The recomputed extent offset never exceeds the original bound, is a
/// qualifying delta of some listed address unless it is 0, and is the
/// largest qualifying delta.
pub proof fn lemma_max_qual_delta(addrs: Seq<u64>, base: u64, bound: u64)
    ensures
        max_qual_delta(addrs, base, bound) <= bound,
        max_qual_delta(addrs, base, bound) == 0 || exists|i: int|
            0 <= i < addrs.len() && #[trigger] addrs[i] > base && addrs[i] - base
                == max_qual_delta(addrs, base, bound),
        forall|i: int|
            0 <= i < addrs.len() && #[trigger] addrs[i] > base && addrs[i] - base <= bound
                ==> addrs[i] - base <= max_qual_delta(addrs, base, bound),
    decreases addrs.len(),
{
    if addrs.len() > 0 {
        lemma_max_qual_delta(addrs.drop_last(), base, bound);
        assert forall|i: int|
            0 <= i < addrs.len() && #[trigger] addrs[i] > base && addrs[i] - base
                <= bound implies addrs[i] - base <= max_qual_delta(addrs, base, bound) by {
            if i < addrs.len() - 1 {
                assert(addrs.drop_last()[i] == addrs[i]);
            }
        }
        if max_qual_delta(addrs, base, bound) != 0 {
            if max_qual_delta(addrs, base, bound) == max_qual_delta(
                addrs.drop_last(),
                base,
                bound,
            ) {
                let i = choose|i: int|
                    0 <= i < addrs.drop_last().len() && #[trigger] addrs.drop_last()[i] > base
                        && addrs.drop_last()[i] - base == max_qual_delta(
                        addrs.drop_last(),
                        base,
                        bound,
                    );
                assert(addrs[i] == addrs.drop_last()[i]);
            } else {
                assert(addrs[addrs.len() - 1] == addrs.last());
            }
        }
    }
}

/// The classification a record carries after the extent recomputation over
/// the surviving addresses.
pub open spec fn retargeted_type(r: TracerData, addrs: Seq<u64>) -> LineType {
    match r.trace_type {
        LineType::TestEntry(e) => LineType::TestEntry(max_qual_delta(addrs, r.address, e)),
        t => t,
    }
}

/// `input[i]` is the first record among `input` that survives the filters
/// at its own source position.
pub open spec fn first_kept_at(
    input: Seq<TracerData>,
    i: int,
    project: Seq<u8>,
    ignore: Seq<(Vec<u8>, u64)>,
    ignore_tests: bool,
) -> bool {
    &&& 0 <= i < input.len()
    &&& keeps(input[i], project, ignore, ignore_tests)
    &&& forall|i2: int|
        0 <= i2 < i && keeps(#[trigger] input[i2], project, ignore, ignore_tests)
            ==> !same_position(input[i2], input[i])
}

/// Every emitted record's path lies within the project root and outside
/// the build-output subtree (row acceptance guarantees this of its
/// records), and aggregation only ever hands back records at the same
/// source positions, so the same holds of every surviving record.
pub proof fn lemma_surviving_paths_stay_in_project(
    input: Seq<TracerData>,
    out: Seq<TracerData>,
    origins: Seq<int>,
    project: Seq<u8>,
)
    requires
        forall|i: int|
            0 <= i < input.len() ==> is_path_prefix(project, (#[trigger] input[i]).path@)
                && !is_path_prefix(joined(project, target_seg()), input[i].path@),
        origins.len() == out.len(),
        forall|j: int|
            0 <= j < out.len() ==> 0 <= #[trigger] origins[j] < input.len() && same_position(
                out[j],
                input[origins[j]],
            ),
    ensures
        forall|j: int|
            0 <= j < out.len() ==> is_path_prefix(project, (#[trigger] out[j]).path@)
                && !is_path_prefix(joined(project, target_seg()), out[j].path@),
{
    assert forall|j: int|
        0 <= j < out.len() implies is_path_prefix(project, (#[trigger] out[j]).path@)
        && !is_path_prefix(joined(project, target_seg()), out[j].path@) by {
        assert(out[j].path@ == input[origins[j]].path@);
    }
}

/// Tests whether the ignore set names this position.
fn in_ignore_list(ignore: &Vec<(Vec<u8>, u64)>, path: &Vec<u8>, line: u64) -> (r: bool)
    ensures
        r == in_ignore(ignore@, path@, line),
{
    let mut i: usize = 0;
    while i < ignore.len()
        invariant
            i <= ignore@.len(),
            forall|k: int| 0 <= k < i ==> !ignore_matches(#[trigger] ignore@[k], path@, line),
        decreases ignore@.len() - i,
    {
        let entry = &ignore[i];
        if entry.1 == line && bytes_eq(&entry.0, path) {
            return true;
        }
        i += 1;
    }
    false
}

/// Tests whether a record at this position was already kept.
fn contains_position(v: &Vec<TracerData>, path: &Vec<u8>, line: u64) -> (r: bool)
    ensures
        r == has_position(v@, path@, line),
{
    let mut j: usize = 0;
    while j < v.len()
        invariant
            j <= v@.len(),
            forall|k: int| 0 <= k < j ==> !position_is(#[trigger] v@[k], path@, line),
        decreases v@.len() - j,
    {
        let rec = &v[j];
        if rec.line == line && bytes_eq(&rec.path, path) {
            return true;
        }
        j += 1;
    }
    false
}

/// Tests the aggregation filters on one record.
fn keeps_record(
    r: &TracerData,
    project: &Vec<u8>,
    ignore: &Vec<(Vec<u8>, u64)>,
    ignore_tests: bool,
) -> (res: bool)
    ensures
        res == keeps(*r, project@, ignore@, ignore_tests),
{
    if r.trace_type == LineType::TestMain {
        return false;
    }
    if ignore_tests {
        let tests_seg_v = tests_bytes();
        let tests_dir = join(project, &tests_seg_v);
        if is_prefix(&tests_dir, &r.path) {
            return false;
        }
    }
    !in_ignore_list(ignore, &r.path, r.line)
}

/// The largest qualifying address delta, computed as the spec states it.
fn max_delta(addrs: &Vec<u64>, base: u64, bound: u64) -> (r: u64)
    ensures
        r == max_qual_delta(addrs@, base, bound),
{
    let mut acc: u64 = 0;
    let mut i: usize = 0;
    while i < addrs.len()
        invariant
            i <= addrs@.len(),
            acc == max_qual_delta(addrs@.subrange(0, i as int), base, bound),
        decreases addrs@.len() - i,
    {
        let x = addrs[i];
        proof {
            assert(addrs@.subrange(0, i + 1 as int).drop_last() =~= addrs@.subrange(0, i as int));
            assert(addrs@.subrange(0, i + 1 as int).last() == addrs@[i as int]);
        }
        if x > base {
            let d = x - base;
            if d > acc && d <= bound {
                acc = d;
            }
        }
        i += 1;
    }
    proof {
        assert(addrs@.subrange(0, addrs@.len() as int) =~= addrs@);
    }
    acc
}
/// Aggregates the emitted records, in order: drops harness mains, drops
/// test-subtree records when `ignore_tests` is set, drops ignored
/// positions, keeps only the first record per source position, and
/// recomputes each surviving test entry's extent offset over the surviving
/// addresses. Alongside the records it returns, as ghost data, the index
/// in `input` each surviving record came from: the indices are strictly
/// increasing, and each names the first surviving input record at its
/// position.
pub fn aggregate_tracer_data(
    input: &Vec<TracerData>,
    project: &Vec<u8>,
    ignore: &Vec<(Vec<u8>, u64)>,
    ignore_tests: bool,
) -> (res: (Vec<TracerData>, Ghost<Seq<int>>))
    ensures
        ({
            let r = res.0;
            let og = res.1@;
            &&& forall|j: int|
                0 <= j < r@.len() ==> keeps(#[trigger] r@[j], project@, ignore@, ignore_tests)
            &&& forall|j: int, k: int| 0 <= j < k < r@.len() ==> !same_position(r@[j], r@[k])
            &&& forall|i: int|
                0 <= i < input@.len() && keeps(
                    #[trigger] input@[i],
                    project@,
                    ignore@,
                    ignore_tests,
                ) ==> has_position(r@, input@[i].path@, input@[i].line)
            &&& og.len() == r@.len()
            &&& forall|j: int, k: int| 0 <= j < k < og.len() ==> og[j] < og[k]
            &&& forall|j: int|
                0 <= j < r@.len() ==> {
                    &&& first_kept_at(input@, #[trigger] og[j], project@, ignore@, ignore_tests)
                    &&& same_position(r@[j], input@[og[j]])
                    &&& r@[j].address == input@[og[j]].address
                    &&& r@[j].hits == input@[og[j]].hits
                    &&& r@[j].trace_type == retargeted_type(input@[og[j]], addresses_of(r@))
                }
        }),
{
    let mut kept: Vec<TracerData> = Vec::new();
    let ghost mut origins: Seq<int> = Seq::empty();
    let mut idx: usize = 0;
    while idx < input.len()
        invariant
            idx <= input@.len(),
            origins.len() == kept@.len(),
            forall|j: int, k: int| 0 <= j < k < origins.len() ==> origins[j] < origins[k],
            forall|j: int| 0 <= j < origins.len() ==> 0 <= #[trigger] origins[j] < idx,
            forall|j: int|
                0 <= j < kept@.len() ==> first_kept_at(
                    input@,
                    #[trigger] origins[j],
                    project@,
                    ignore@,
                    ignore_tests,
                ) && record_eq(kept@[j], input@[origins[j]]),
            forall|j: int, k: int| 0 <= j < k < kept@.len() ==> !same_position(kept@[j], kept@[k]),
            forall|i: int|
                0 <= i < idx && keeps(#[trigger] input@[i], project@, ignore@, ignore_tests)
                    ==> has_position(kept@, input@[i].path@, input@[i].line),
        decreases input@.len() - idx,
    {
        let ghost pre = kept@;
        let rec = input[idx].duplicate();
        let ghost grec = rec;
        let keep = keeps_record(&rec, project, ignore, ignore_tests);
        if keep {
            if !contains_position(&kept, &rec.path, rec.line) {
                kept.push(rec);
                proof {
                    origins = origins.push(idx as int);
                    assert(kept@ == pre.push(grec));
                    assert(record_eq(grec, input@[idx as int]));
                    assert(keeps(input@[idx as int], project@, ignore@, ignore_tests));
                    // no earlier surviving input shares the new record's position
                    assert forall|i2: int|
                        0 <= i2 < idx && keeps(
                            #[trigger] input@[i2],
                            project@,
                            ignore@,
                            ignore_tests,
                        ) implies !same_position(input@[i2], input@[idx as int]) by {
                        if same_position(input@[i2], input@[idx as int]) {
                            let jw = choose|jw: int|
                                0 <= jw < pre.len() && position_is(
                                    #[trigger] pre[jw],
                                    input@[i2].path@,
                                    input@[i2].line,
                                );
                            assert(position_is(pre[jw], grec.path@, grec.line));
                        }
                    }
                    assert(first_kept_at(input@, idx as int, project@, ignore@, ignore_tests));
                    // the new record's position clashes with no earlier kept one
                    assert forall|j: int, k: int|
                        0 <= j < k < kept@.len() implies !same_position(kept@[j], kept@[k]) by {
                        if k < pre.len() {
                            assert(kept@[j] == pre[j] && kept@[k] == pre[k]);
                        } else {
                            assert(kept@[j] == pre[j] && kept@[k] == grec);
                            assert(!position_is(pre[j], grec.path@, grec.line));
                        }
                    }
                    // every kept input position up to and including idx is present
                    assert forall|i: int|
                        0 <= i < idx + 1 && keeps(
                            #[trigger] input@[i],
                            project@,
                            ignore@,
                            ignore_tests,
                        ) implies has_position(kept@, input@[i].path@, input@[i].line) by {
                        if i < idx {
                            let jw = choose|jw: int|
                                0 <= jw < pre.len() && position_is(
                                    #[trigger] pre[jw],
                                    input@[i].path@,
                                    input@[i].line,
                                );
                            assert(position_is(kept@[jw], input@[i].path@, input@[i].line));
                        } else {
                            assert(position_is(
                                kept@[pre.len() as int],
                                input@[i].path@,
                                input@[i].line,
                            ));
                        }
                    }
                }
            } else {
                proof {
                    assert(record_eq(grec, input@[idx as int]));
                    assert(has_position(kept@, input@[idx as int].path@, input@[idx as int].line));
                }
            }
        } else {
            proof {
                assert(record_eq(grec, input@[idx as int]));
                assert(!keeps(input@[idx as int], project@, ignore@, ignore_tests));
            }
        }
        idx += 1;
    }
    let mut addrs: Vec<u64> = Vec::new();
    let mut i: usize = 0;
    while i < kept.len()
        invariant
            i <= kept@.len(),
            addrs@.len() == i,
            forall|j: int| 0 <= j < i ==> addrs@[j] == kept@[j].address,
        decreases kept@.len() - i,
    {
        addrs.push(kept[i].address);
        i += 1;
    }
    proof {
        assert(addrs@ =~= addresses_of(kept@));
    }
    let mut out: Vec<TracerData> = Vec::new();
    let mut j: usize = 0;
    while j < kept.len()
        invariant
            j <= kept@.len(),
            addrs@ == addresses_of(kept@),
            out@.len() == j,
            forall|k: int|
                0 <= k < j ==> same_position(#[trigger] out@[k], kept@[k]) && out@[k].address
                    == kept@[k].address && out@[k].hits == kept@[k].hits && out@[k].trace_type
                    == retargeted_type(kept@[k], addrs@),
        decreases kept@.len() - j,
    {
        let rec = kept[j].duplicate();
        let new_type = match rec.trace_type {
            LineType::TestEntry(e) => LineType::TestEntry(max_delta(&addrs, rec.address, e)),
            t => t,
        };
        out.push(
            TracerData {
                path: rec.path,
                line: rec.line,
                address: rec.address,
                trace_type: new_type,
                hits: rec.hits,
            },
        );
        j += 1;
    }
    proof {
        assert(addresses_of(out@) =~= addresses_of(kept@));
        assert forall|k: int| 0 <= k < out@.len() implies keeps(
            #[trigger] out@[k],
            project@,
            ignore@,
            ignore_tests,
        ) by {
            assert(first_kept_at(input@, origins[k], project@, ignore@, ignore_tests));
            assert(record_eq(kept@[k], input@[origins[k]]));
            assert(keeps(input@[origins[k]], project@, ignore@, ignore_tests));
            assert(keeps(kept@[k], project@, ignore@, ignore_tests));
            assert(out@[k].path@ == kept@[k].path@ && out@[k].line == kept@[k].line);
        }
        assert forall|j2: int, k: int|
            0 <= j2 < k < out@.len() implies !same_position(out@[j2], out@[k]) by {
            assert(!same_position(kept@[j2], kept@[k]));
        }
        assert forall|i0: int|
            0 <= i0 < input@.len() && keeps(
                #[trigger] input@[i0],
                project@,
                ignore@,
                ignore_tests,
            ) implies has_position(out@, input@[i0].path@, input@[i0].line) by {
            let jw = choose|jw: int|
                0 <= jw < kept@.len() && position_is(
                    #[trigger] kept@[jw],
                    input@[i0].path@,
                    input@[i0].line,
                );
            assert(position_is(out@[jw], input@[i0].path@, input@[i0].line));
        }
        assert forall|k: int| 0 <= k < out@.len() implies {
            &&& first_kept_at(input@, #[trigger] origins[k], project@, ignore@, ignore_tests)
            &&& same_position(out@[k], input@[origins[k]])
            &&& out@[k].address == input@[origins[k]].address
            &&& out@[k].hits == input@[origins[k]].hits
            &&& out@[k].trace_type == retargeted_type(input@[origins[k]], addresses_of(out@))
        } by {
            assert(record_eq(kept@[k], input@[origins[k]]));
            assert(same_position(out@[k], kept@[k]));
            assert(out@[k].trace_type == retargeted_type(kept@[k], addrs@));
        }
    }
    (out, Ghost(origins))
}

} // verus!

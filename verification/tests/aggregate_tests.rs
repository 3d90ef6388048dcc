use tarpaulin::aggregate::aggregate_tracer_data;
use tarpaulin::tracer::{accept_row, make_func_desc, seed_entries};
use tarpaulin::types::{LineType, TracerData};

fn b(s: &str) -> Vec<u8> {
    s.as_bytes().to_vec()
}

fn rec(path: &str, line: u64, address: u64, trace_type: LineType) -> TracerData {
    TracerData { path: b(path), line, address, trace_type, hits: 0 }
}

#[test]
fn test_main_records_never_survive() {
    let input = vec![
        rec("/proj/src/lib.rs", 1, 0x100, LineType::TestMain),
        rec("/proj/src/lib.rs", 2, 0x110, LineType::Statement),
    ];
    let (out, _) = aggregate_tracer_data(&input, &b("/proj"), &vec![], false);
    assert_eq!(out.len(), 1);
    assert_eq!(out[0].line, 2);
}

#[test]
fn deduplication_keeps_first_address() {
    let input = vec![
        rec("/proj/src/lib.rs", 5, 0x100, LineType::Statement),
        rec("/proj/src/lib.rs", 5, 0x140, LineType::Statement),
        rec("/proj/src/lib.rs", 5, 0x180, LineType::Statement),
    ];
    let (out, _) = aggregate_tracer_data(&input, &b("/proj"), &vec![], false);
    assert_eq!(out.len(), 1);
    assert_eq!(out[0].address, 0x100);
}

#[test]
fn ignore_tests_drops_tests_subtree() {
    let input = vec![
        rec("/proj/tests/it.rs", 1, 0x100, LineType::Statement),
        rec("/proj/src/lib.rs", 1, 0x200, LineType::Statement),
    ];
    let (out, _) = aggregate_tracer_data(&input, &b("/proj"), &vec![], true);
    assert_eq!(out.len(), 1);
    assert_eq!(out[0].path, b("/proj/src/lib.rs"));

    let (both, _) = aggregate_tracer_data(&input, &b("/proj"), &vec![], false);
    assert_eq!(both.len(), 2);
}

#[test]
fn ignored_positions_are_absent() {
    let input = vec![
        rec("/proj/src/lib.rs", 7, 0x100, LineType::Statement),
        rec("/proj/src/lib.rs", 8, 0x110, LineType::Statement),
    ];
    let ignore = vec![(b("/proj/src/lib.rs"), 7u64)];
    let (out, _) = aggregate_tracer_data(&input, &b("/proj"), &ignore, false);
    assert_eq!(out.len(), 1);
    assert_eq!(out[0].line, 8);
}

#[test]
fn test_entry_extent_is_tightened() {
    let input = vec![
        rec("/proj/src/lib.rs", 1, 100, LineType::TestEntry(50)),
        rec("/proj/src/lib.rs", 2, 120, LineType::Statement),
        rec("/proj/src/lib.rs", 3, 130, LineType::Statement),
        rec("/proj/src/lib.rs", 4, 160, LineType::Statement),
        rec("/proj/src/lib.rs", 5, 300, LineType::Statement),
    ];
    let (out, _) = aggregate_tracer_data(&input, &b("/proj"), &vec![], false);
    // deltas from 100: 20, 30, 60, 200; only 20 and 30 stay within 50
    assert_eq!(out[0].trace_type, LineType::TestEntry(30));
}

#[test]
fn test_entry_extent_zero_when_none_qualifies() {
    let input = vec![
        rec("/proj/src/lib.rs", 1, 100, LineType::TestEntry(5)),
        rec("/proj/src/lib.rs", 2, 300, LineType::Statement),
    ];
    let (out, _) = aggregate_tracer_data(&input, &b("/proj"), &vec![], false);
    assert_eq!(out[0].trace_type, LineType::TestEntry(0));
}

#[test]
fn aggregation_of_empty_input_is_empty() {
    let (out, _) = aggregate_tracer_data(&vec![], &b("/proj"), &vec![], true);
    assert!(out.is_empty());
}

#[test]
fn three_unit_scenario_yields_two_records() {
    let project = b("/proj");
    // unit a: a project function at 0x100, line 10 of src/lib.rs
    let desc_a = make_func_desc(Some(0x100), Some(0x10), Some("mycrate::run"));
    let entries_a = seed_entries(&vec![desc_a]);
    let row_a = accept_row(
        &b("/proj/src"),
        &project,
        &b("lib.rs"),
        Some(10),
        0x100,
        &entries_a,
        true,
    )
    .expect("row a accepted");
    // unit b: a test function at 0x200, line 20 of src/lib.rs
    let desc_b = make_func_desc(Some(0x200), Some(0x20), Some("mycrate::tests::it_works"));
    let entries_b = seed_entries(&vec![desc_b]);
    let row_b = accept_row(
        &b("/proj/src"),
        &project,
        &b("lib.rs"),
        Some(20),
        0x200,
        &entries_b,
        true,
    )
    .expect("row b accepted");
    // unit c: the harness entry at 0x300
    let desc_c = make_func_desc(Some(0x300), Some(0x30), Some("mycrate::__test::main"));
    let entries_c = seed_entries(&vec![desc_c]);
    let row_c = accept_row(
        &b("/proj/src"),
        &project,
        &b("lib.rs"),
        Some(30),
        0x300,
        &entries_c,
        true,
    )
    .expect("row c accepted");

    let input = vec![row_a, row_b, row_c];
    let (out, _) = aggregate_tracer_data(&input, &project, &vec![], false);
    assert_eq!(out.len(), 2);
    assert_eq!(out[0].path, b("/proj/src/lib.rs"));
    assert_eq!(out[0].line, 10);
    assert!(matches!(out[0].trace_type, LineType::FunctionEntry(_)));
    assert_eq!(out[1].path, b("/proj/src/lib.rs"));
    assert_eq!(out[1].line, 20);
    assert!(matches!(out[1].trace_type, LineType::TestEntry(_)));
    assert!(out.iter().all(|r| r.address != 0x300));
}

#[test]
fn dropped_harness_main_does_not_shadow_a_later_record() {
    // the harness-main record is dropped before deduplication, so the later
    // record at the same position survives
    let input = vec![
        rec("/proj/src/lib.rs", 9, 0x100, LineType::TestMain),
        rec("/proj/src/lib.rs", 9, 0x140, LineType::Statement),
    ];
    let (out, _) = aggregate_tracer_data(&input, &b("/proj"), &vec![], false);
    assert_eq!(out.len(), 1);
    assert_eq!(out[0].address, 0x140);
    assert_eq!(out[0].trace_type, LineType::Statement);
}

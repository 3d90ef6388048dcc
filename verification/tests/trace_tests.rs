use tarpaulin::trace_run::{
    record_hits, run_trace, tracer_step, Breakpoints, TraceAction, TraceFailure, TraceState,
    WaitEvent,
};
use tarpaulin::types::{LineType, TracerData};

fn rec(line: u64, address: u64) -> TracerData {
    TracerData {
        path: b"/proj/src/lib.rs".to_vec(),
        line,
        address,
        trace_type: LineType::Statement,
        hits: 0,
    }
}

#[test]
fn initial_stop_resumes_the_child() {
    let (s, a) = tracer_step(TraceState::Execing, WaitEvent::InitialStop);
    assert_eq!(s, TraceState::Running);
    assert_eq!(a, TraceAction::ResumeChild);
}

#[test]
fn unexpected_first_wait_fails_the_child() {
    let (s, a) = tracer_step(TraceState::Execing, WaitEvent::ChildExit(1));
    assert_eq!(s, TraceState::Failed(TraceFailure::UnexpectedInitialWait));
    assert_eq!(a, TraceAction::ReportFailure);
    let (s2, _) = tracer_step(TraceState::Execing, WaitEvent::OtherStop);
    assert_eq!(s2, TraceState::Failed(TraceFailure::UnexpectedInitialWait));
}

#[test]
fn breakpoint_trap_is_handled_and_run_continues() {
    let (s, a) = tracer_step(TraceState::Running, WaitEvent::BreakpointTrap(0x100));
    assert_eq!(s, TraceState::Running);
    assert_eq!(a, TraceAction::HandleTracePoint(0x100));
}

#[test]
fn child_exit_is_reported_with_status() {
    let (s, a) = tracer_step(TraceState::Running, WaitEvent::ChildExit(3));
    assert_eq!(s, TraceState::Exited(3));
    assert_eq!(a, TraceAction::ReportExit(3));
}

#[test]
fn trivial_run_with_no_trace_points_exits_zero() {
    // the child execs, stops, is resumed, and exits with status 0
    let events = vec![WaitEvent::InitialStop, WaitEvent::ChildExit(0)];
    assert_eq!(run_trace(&events), TraceState::Exited(0));
    // nothing hit any trace point, so hit counts stay 0
    let mut records: Vec<TracerData> = vec![];
    record_hits(&mut records, 0x100);
    assert!(records.iter().all(|r| r.hits == 0));
}

#[test]
fn failed_child_leaves_later_runs_unaffected() {
    // the first child dies before the initial stop is seen
    let first = run_trace(&vec![WaitEvent::ChildExit(1)]);
    assert_eq!(first, TraceState::Failed(TraceFailure::UnexpectedInitialWait));
    // the next binary's run starts fresh and completes normally
    let second = run_trace(&vec![
        WaitEvent::InitialStop,
        WaitEvent::BreakpointTrap(0x100),
        WaitEvent::ChildExit(0),
    ]);
    assert_eq!(second, TraceState::Exited(0));
}

#[test]
fn hits_are_counted_per_address() {
    let mut records = vec![rec(1, 0x100), rec(2, 0x200), rec(3, 0x100)];
    record_hits(&mut records, 0x100);
    record_hits(&mut records, 0x100);
    record_hits(&mut records, 0x200);
    assert_eq!(records[0].hits, 2);
    assert_eq!(records[1].hits, 1);
    assert_eq!(records[2].hits, 2);
}

#[test]
fn breakpoint_table_saves_and_restores() {
    let mut bps = Breakpoints::new();
    assert!(bps.save(0x100, 0xCC00AA), "fresh address accepted");
    assert!(bps.save(0x200, 0xCC00BB));
    assert!(!bps.save(0x100, 0xCC00FF), "occupied address refused");
    assert_eq!(bps.lookup(0x100), Some(0xCC00AA));
    assert_eq!(bps.lookup(0x300), None);
    assert_eq!(bps.take(0x100), Some(0xCC00AA));
    assert_eq!(bps.lookup(0x100), None);
    assert_eq!(bps.lookup(0x200), Some(0xCC00BB));
    assert_eq!(bps.take(0x100), None);
}

#[test]
fn hit_count_saturates_at_the_counter_range() {
    let mut records = vec![TracerData {
        path: b"/proj/src/lib.rs".to_vec(),
        line: 1,
        address: 0x100,
        trace_type: LineType::Statement,
        hits: u64::MAX,
    }];
    record_hits(&mut records, 0x100);
    assert_eq!(records[0].hits, u64::MAX);
}

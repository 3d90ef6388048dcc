//! Decision logic of the process tracer.
//!
//! A caller forks a child per test binary, asks for tracing control and
//! execs the test executable in the child, then pumps this state machine
//! with the results of its blocking waits. The machine decides the next
//! state and the action to perform; the caller performs the action (resume
//! the child, patch a breakpoint, report) and hands back the next wait
//! result. Hit counts and saved breakpoint words are modelled here as
//! well, so that each child's table is exclusively owned by its run.

use vstd::prelude::*;
use crate::types::TracerData;

verus! {

/// Why tracing of one child was abandoned.
#[derive(Debug, Clone, Copy, PartialEq, Eq, Structural)]
pub enum TraceFailure {
    /// The first wait after the exec reported something other than the
    /// initial stop.
    UnexpectedInitialWait,
    /// A wait on the running child failed.
    WaitFailed,
}

/// The lifecycle of one traced child.
#[derive(Debug, Clone, Copy, PartialEq, Eq, Structural)]
pub enum TraceState {
    /// No child process exists yet.
    NotStarted,
    /// The child was forked and is execing the test binary; the tracer
    /// waits for the stop the tracing mechanism guarantees after the exec.
    Execing,
    /// The child runs freely under tracing control.
    Running,
    /// The child terminated with this exit status.
    Exited(i32),
    /// Tracing was abandoned; other children are unaffected.
    Failed(TraceFailure),
}

/// What one blocking wait on the child reported.
#[derive(Debug, Clone, Copy, PartialEq, Eq, Structural)]
pub enum WaitEvent {
    /// The initial stop after the exec, before any user instruction.
    InitialStop,
    /// A trap at a known trace-point address.
    BreakpointTrap(u64),
    /// The child exited with this status.
    ChildExit(i32),
    /// Any other stop (a signal, or a trap at no known trace point).
    OtherStop,
    /// The wait itself failed.
    WaitError,
}

/// What the caller must do next.
#[derive(Debug, Clone, Copy, PartialEq, Eq, Structural)]
pub enum TraceAction {
    /// Let the child continue running.
    ResumeChild,
    /// Count a hit at this address, restore the original code there,
    /// single-step past it, reinsert the trap, then resume.
    HandleTracePoint(u64),
    /// Report the child's exit status together with the final hit counts.
    ReportExit(i32),
    /// Log the failure and abandon this child.
    ReportFailure,
}

/// The transition table of the tracer.
pub open spec fn tracer_step_spec(s: TraceState, e: WaitEvent) -> (TraceState, TraceAction) {
    match s {
        TraceState::Execing => match e {
            WaitEvent::InitialStop => (TraceState::Running, TraceAction::ResumeChild),
            _ => (
                TraceState::Failed(TraceFailure::UnexpectedInitialWait),
                TraceAction::ReportFailure,
            ),
        },
        TraceState::Running => match e {
            WaitEvent::BreakpointTrap(a) => (TraceState::Running, TraceAction::HandleTracePoint(a)),
            WaitEvent::ChildExit(c) => (TraceState::Exited(c), TraceAction::ReportExit(c)),
            WaitEvent::InitialStop => (TraceState::Running, TraceAction::ResumeChild),
            WaitEvent::OtherStop => (TraceState::Running, TraceAction::ResumeChild),
            WaitEvent::WaitError => (
                TraceState::Failed(TraceFailure::WaitFailed),
                TraceAction::ReportFailure,
            ),
        },
        _ => (s, TraceAction::ReportFailure),
    }
}

/// Steps the tracer on one wait result. Anything but the initial stop
/// observed while execing abandons this child; a child that exits while
/// running is reported with its status.
pub fn tracer_step(s: TraceState, e: WaitEvent) -> (r: (TraceState, TraceAction))
    requires
        s is Execing || s is Running,
    ensures
        r == tracer_step_spec(s, e),
        s is Execing && !(e is InitialStop) ==> r.0 is Failed,
        s is Running ==> (e matches WaitEvent::ChildExit(c) ==> r.0 == TraceState::Exited(c)),
{
    match s {
        TraceState::Execing => match e {
            WaitEvent::InitialStop => (TraceState::Running, TraceAction::ResumeChild),
            _ => (
                TraceState::Failed(TraceFailure::UnexpectedInitialWait),
                TraceAction::ReportFailure,
            ),
        },
        TraceState::Running => match e {
            WaitEvent::BreakpointTrap(a) => (TraceState::Running, TraceAction::HandleTracePoint(a)),
            WaitEvent::ChildExit(c) => (TraceState::Exited(c), TraceAction::ReportExit(c)),
            WaitEvent::InitialStop => (TraceState::Running, TraceAction::ResumeChild),
            WaitEvent::OtherStop => (TraceState::Running, TraceAction::ResumeChild),
            WaitEvent::WaitError => (
                TraceState::Failed(TraceFailure::WaitFailed),
                TraceAction::ReportFailure,
            ),
        },
        _ => (s, TraceAction::ReportFailure),
    }
}

/// The state reached from `s` after consuming the wait results in order;
/// a terminal state absorbs whatever follows.
pub open spec fn trace_outcome(s: TraceState, events: Seq<WaitEvent>) -> TraceState
    decreases events.len(),
{
    if !(s is Execing || s is Running) {
        s
    } else if events.len() == 0 {
        s
    } else {
        trace_outcome(tracer_step_spec(s, events[0]).0, events.drop_first())
    }
}

/// Replays one child's wait results from the exec onwards and returns the
/// state its tracing run ends in.
pub fn run_trace(events: &Vec<WaitEvent>) -> (r: TraceState)
    ensures
        r == trace_outcome(TraceState::Execing, events@),
{
    let mut st = TraceState::Execing;
    let mut i: usize = 0;
    proof {
        assert(events@.subrange(0, events@.len() as int) =~= events@);
    }
    while i < events.len() && (st == TraceState::Execing || st == TraceState::Running)
        invariant
            i <= events@.len(),
            trace_outcome(TraceState::Execing, events@) == trace_outcome(
                st,
                events@.subrange(i as int, events@.len() as int),
            ),
        decreases events@.len() - i,
    {
        let ghost tail = events@.subrange(i as int, events@.len() as int);
        proof {
            assert(tail[0] == events@[i as int]);
            assert(tail.drop_first() =~= events@.subrange(i + 1 as int, events@.len() as int));
        }
        let step = tracer_step(st, events[i]);
        st = step.0;
        i += 1;
    }
    proof {
        if i < events@.len() {
            assert(!(st is Execing || st is Running));
        } else {
            assert(events@.subrange(i as int, events@.len() as int).len() == 0);
        }
    }
    st
}

/// A hit count one higher, capped at the counter's range.
pub open spec fn bumped(h: u64) -> u64 {
    if h == u64::MAX {
        h
    } else {
        (h + 1) as u64
    }
}

/// Counts a hit on every record whose trace point is this address. No
/// other field changes, and no hit count ever decreases.
pub fn record_hits(records: &mut Vec<TracerData>, address: u64)
    ensures
        final(records)@.len() == old(records)@.len(),
        forall|i: int|
            0 <= i < old(records)@.len() ==> {
                &&& (#[trigger] final(records)@[i]).path@ == old(records)@[i].path@
                &&& final(records)@[i].line == old(records)@[i].line
                &&& final(records)@[i].address == old(records)@[i].address
                &&& final(records)@[i].trace_type == old(records)@[i].trace_type
                &&& final(records)@[i].hits == (if old(records)@[i].address == address {
                    bumped(old(records)@[i].hits)
                } else {
                    old(records)@[i].hits
                })
                &&& final(records)@[i].hits >= old(records)@[i].hits
            },
{
    let ghost orig = records@;
    let mut out: Vec<TracerData> = Vec::new();
    let mut i: usize = 0;
    while i < records.len()
        invariant
            records@ == orig,
            i <= orig.len(),
            out@.len() == i,
            forall|j: int|
                0 <= j < i ==> {
                    &&& (#[trigger] out@[j]).path@ == orig[j].path@
                    &&& out@[j].line == orig[j].line
                    &&& out@[j].address == orig[j].address
                    &&& out@[j].trace_type == orig[j].trace_type
                    &&& out@[j].hits == (if orig[j].address == address {
                        bumped(orig[j].hits)
                    } else {
                        orig[j].hits
                    })
                },
        decreases orig.len() - i,
    {
        let mut rec = records[i].duplicate();
        if rec.address == address {
            if rec.hits < u64::MAX {
                rec.hits = rec.hits + 1;
            }
        }
        out.push(rec);
        i += 1;
    }
    *records = out;
}

/// Saved original code words, keyed by breakpoint address. One table is
/// exclusively owned by the tracer of one child; addresses are unique.
#[derive(Debug)]
pub struct Breakpoints {
    entries: Vec<(u64, u64)>,
}

/// The word saved for an address: that of the first entry carrying it.
pub open spec fn saved_in(s: Seq<(u64, u64)>, addr: u64) -> Option<u64>
    decreases s.len(),
{
    if s.len() == 0 {
        Option::None
    } else if s[0].0 == addr {
        Option::Some(s[0].1)
    } else {
        saved_in(s.drop_first(), addr)
    }
}

proof fn lemma_saved_in_push(s: Seq<(u64, u64)>, addr: u64, word: u64, a: u64)
    ensures
        saved_in(s.push((addr, word)), a) == (if saved_in(s, a) is Some {
            saved_in(s, a)
        } else if a == addr {
            Option::Some(word)
        } else {
            Option::<u64>::None
        }),
    decreases s.len(),
{
    if s.len() == 0 {
        assert(s.push((addr, word)).drop_first() =~= s);
    } else {
        lemma_saved_in_push(s.drop_first(), addr, word, a);
        assert(s.push((addr, word)).drop_first() =~= s.drop_first().push((addr, word)));
    }
}

proof fn lemma_saved_in_remove(s: Seq<(u64, u64)>, at: int, a: u64)
    requires
        0 <= at < s.len(),
        forall|i: int, j: int| 0 <= i < j < s.len() ==> s[i].0 != s[j].0,
    ensures
        s[at].0 == a ==> saved_in(s.remove(at), a) is None,
        s[at].0 != a ==> saved_in(s.remove(at), a) == saved_in(s, a),
    decreases s.len(),
{
    if at == 0 {
        assert(s.remove(0) =~= s.drop_first());
        if s[0].0 == a {
            // uniqueness: no later entry carries `a`
            lemma_saved_in_absent(s.drop_first(), a);
        }
    } else {
        assert(s.remove(at).drop_first() =~= s.drop_first().remove(at - 1));
        lemma_saved_in_remove(s.drop_first(), at - 1, a);
    }
}

proof fn lemma_saved_in_absent(s: Seq<(u64, u64)>, a: u64)
    requires
        forall|i: int| 0 <= i < s.len() ==> (#[trigger] s[i]).0 != a,
    ensures
        saved_in(s, a) is None,
    decreases s.len(),
{
    if s.len() > 0 {
        lemma_saved_in_absent(s.drop_first(), a);
    }
}

proof fn lemma_saved_in_present(s: Seq<(u64, u64)>, a: u64)
    requires
        saved_in(s, a) is Some,
    ensures
        exists|i: int| 0 <= i < s.len() && (#[trigger] s[i]).0 == a,
    decreases s.len(),
{
    if s.len() > 0 && s[0].0 != a {
        lemma_saved_in_present(s.drop_first(), a);
        let i = choose|i: int| 0 <= i < s.drop_first().len() && (#[trigger] s.drop_first()[i]).0 == a;
        assert(s[i + 1].0 == a);
    }
}

impl Breakpoints {
    /// Addresses are pairwise distinct.
    pub closed spec fn wf(&self) -> bool {
        forall|i: int, j: int|
            0 <= i < j < self.entries@.len() ==> self.entries@[i].0 != self.entries@[j].0
    }

    /// The word saved at an address, if a breakpoint sits there.
    pub closed spec fn saved(&self, addr: u64) -> Option<u64> {
        saved_in(self.entries@, addr)
    }

    /// An empty table: nothing saved anywhere.
    pub fn new() -> (r: Self)
        ensures
            r.wf(),
            forall|a: u64| #[trigger] r.saved(a) is None,
    {
        Breakpoints { entries: Vec::new() }
    }

    /// Looks up the word saved at an address.
    pub fn lookup(&self, addr: u64) -> (r: Option<u64>)
        ensures
            r == self.saved(addr),
    {
        let mut i: usize = 0;
        proof {
            assert(self.entries@.subrange(0, self.entries@.len() as int) =~= self.entries@);
        }
        while i < self.entries.len()
            invariant
                i <= self.entries@.len(),
                saved_in(self.entries@, addr) == saved_in(
                    self.entries@.subrange(i as int, self.entries@.len() as int),
                    addr,
                ),
            decreases self.entries@.len() - i,
        {
            let tail = Ghost(self.entries@.subrange(i as int, self.entries@.len() as int));
            proof {
                assert(tail@[0] == self.entries@[i as int]);
                assert(tail@.drop_first() =~= self.entries@.subrange(
                    i + 1 as int,
                    self.entries@.len() as int,
                ));
            }
            if self.entries[i].0 == addr {
                return Option::Some(self.entries[i].1);
            }
            i += 1;
        }
        Option::None
    }

    /// Saves the original word at an address about to be patched. Refused
    /// when a breakpoint already sits there; nothing else changes either
    /// way.
    pub fn save(&mut self, addr: u64, word: u64) -> (ok: bool)
        requires
            old(self).wf(),
        ensures
            final(self).wf(),
            ok == (old(self).saved(addr) is None),
            ok ==> final(self).saved(addr) == Option::Some(word),
            !ok ==> final(self).saved(addr) == old(self).saved(addr),
            forall|a: u64| a != addr ==> #[trigger] final(self).saved(a) == old(self).saved(a),
    {
        let existing = self.lookup(addr);
        if existing.is_some() {
            return false;
        }
        let ghost pre = self.entries@;
        self.entries.push((addr, word));
        proof {
            lemma_saved_in_absent_from_none(pre, addr);
            assert forall|i: int, j: int|
                0 <= i < j < self.entries@.len() implies self.entries@[i].0
                != self.entries@[j].0 by {
                if j < pre.len() {
                    assert(self.entries@[i] == pre[i] && self.entries@[j] == pre[j]);
                } else {
                    assert(self.entries@[i] == pre[i]);
                    assert(pre[i].0 != addr);
                }
            }
            assert forall|a: u64| true implies #[trigger] saved_in(self.entries@, a) == (if saved_in(
                pre,
                a,
            ) is Some {
                saved_in(pre, a)
            } else if a == addr {
                Option::Some(word)
            } else {
                Option::<u64>::None
            }) by {
                lemma_saved_in_push(pre, addr, word, a);
            }
        }
        true
    }

    /// Removes and returns the word saved at an address, restoring the
    /// table to having nothing there.
    pub fn take(&mut self, addr: u64) -> (r: Option<u64>)
        requires
            old(self).wf(),
        ensures
            final(self).wf(),
            r == old(self).saved(addr),
            final(self).saved(addr) is None,
            forall|a: u64| a != addr ==> #[trigger] final(self).saved(a) == old(self).saved(a),
    {
        let ghost pre = self.entries@;
        let mut i: usize = 0;
        while i < self.entries.len()
            invariant
                self.entries@ == pre,
                old(self).entries@ == pre,
                i <= pre.len(),
                forall|i2: int, j2: int| 0 <= i2 < j2 < pre.len() ==> pre[i2].0 != pre[j2].0,
                forall|k: int| 0 <= k < i ==> (#[trigger] pre[k]).0 != addr,
            decreases pre.len() - i,
        {
            if self.entries[i].0 == addr {
                let entry = self.entries.remove(i);
                proof {
                    assert(self.entries@ =~= pre.remove(i as int));
                    assert forall|a: u64| a != addr implies #[trigger] saved_in(self.entries@, a)
                        == saved_in(pre, a) by {
                        lemma_saved_in_remove(pre, i as int, a);
                    }
                    lemma_saved_in_remove(pre, i as int, addr);
                    // the removed entry is the first (and only) one at `addr`
                    lemma_saved_first_at(pre, i as int);
                    assert forall|i2: int, j2: int|
                        0 <= i2 < j2 < self.entries@.len() implies self.entries@[i2].0
                        != self.entries@[j2].0 by {
                        let pi2 = if i2 < i as int {
                            i2
                        } else {
                            i2 + 1
                        };
                        let pj2 = if j2 < i as int {
                            j2
                        } else {
                            j2 + 1
                        };
                        assert(self.entries@[i2] == pre[pi2] && self.entries@[j2] == pre[pj2]);
                    }
                }
                return Option::Some(entry.1);
            }
            i += 1;
        }
        proof {
            lemma_saved_in_absent(pre, addr);
        }
        Option::None
    }
}

/// A `None` lookup means no entry carries the address.
proof fn lemma_saved_in_absent_from_none(s: Seq<(u64, u64)>, a: u64)
    requires
        saved_in(s, a) is None,
    ensures
        forall|i: int| 0 <= i < s.len() ==> (#[trigger] s[i]).0 != a,
    decreases s.len(),
{
    if s.len() > 0 {
        lemma_saved_in_absent_from_none(s.drop_first(), a);
        assert forall|i: int| 0 <= i < s.len() implies (#[trigger] s[i]).0 != a by {
            if i > 0 {
                assert(s.drop_first()[i - 1] == s[i]);
            }
        }
    }
}

/// With pairwise distinct addresses, the entry found at an index is what
/// `saved_in` reports for its address.
proof fn lemma_saved_first_at(s: Seq<(u64, u64)>, at: int)
    requires
        0 <= at < s.len(),
        forall|i: int, j: int| 0 <= i < j < s.len() ==> s[i].0 != s[j].0,
    ensures
        saved_in(s, s[at].0) == Option::Some(s[at].1),
    decreases at,
{
    if at > 0 {
        assert(s.drop_first()[at - 1] == s[at]);
        lemma_saved_first_at(s.drop_first(), at - 1);
    }
}

} // verus!

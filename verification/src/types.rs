//! The coverage data model: line classifications, function kinds, and
//! per-line coverage records.

use vstd::prelude::*;
use crate::paths::clone_bytes;

verus! {

/// What kind of function a subprogram entry describes, judged from its
/// demangled linkage name.
#[derive(Debug, Clone, Copy, PartialEq, Eq, Structural)]
pub enum FunctionType {
    /// The generated test-harness entry point; never traced.
    Generated,
    /// A function inside a `tests` module.
    Test,
    /// Any other function.
    Standard,
}

/// Classification of a single traced source line. The payload of the two
/// entry variants is a byte-offset upper bound on the function's
/// instruction range, used as a heuristic return boundary.
#[derive(Debug, Clone, Copy, PartialEq, Eq, Structural)]
pub enum LineType {
    /// Generated test main. Shouldn't be traced.
    TestMain,
    /// Entry of a function known to be a test.
    TestEntry(u64),
    /// Entry of a function. May or may not be a test.
    FunctionEntry(u64),
    /// Standard statement.
    Statement,
    /// Condition.
    Condition,
    /// Unknown type.
    Unknown,
}

/// One coverage record: a source line, the machine address chosen as its
/// trace point, its classification, and the number of observed hits.
#[derive(Debug)]
pub struct TracerData {
    /// Absolute path of the source file, in the byte-path model.
    pub path: Vec<u8>,
    /// Line number within that file.
    pub line: u64,
    /// Machine address of the trace point.
    pub address: u64,
    /// Classification of the line.
    pub trace_type: LineType,
    /// Number of times the trace point was observed to run.
    pub hits: u64,
}

/// A function descriptor from one subprogram entry: low address, high-PC
/// offset, and the classification of the function.
#[derive(Debug, Clone, Copy, PartialEq, Eq, Structural)]
pub struct FuncDesc {
    /// The function's low program-counter address.
    pub low: u64,
    /// Offset from `low` bounding the function's instructions.
    pub high: u64,
    /// What kind of function this is.
    pub kind: FunctionType,
}

/// Records are deduplicated by source position: file path and line.
pub open spec fn same_position(a: TracerData, b: TracerData) -> bool {
    a.path@ == b.path@ && a.line == b.line
}

/// A record sits at the given source position.
pub open spec fn position_is(r: TracerData, path: Seq<u8>, line: u64) -> bool {
    r.path@ == path && r.line == line
}

/// Two records agree on every field.
pub open spec fn record_eq(a: TracerData, b: TracerData) -> bool {
    &&& a.path@ == b.path@
    &&& a.line == b.line
    &&& a.address == b.address
    &&& a.trace_type == b.trace_type
    &&& a.hits == b.hits
}

impl TracerData {
    /// Field-for-field copy of the record.
    pub fn duplicate(&self) -> (r: TracerData)
        ensures
            record_eq(r, *self),
    {
        TracerData {
            path: clone_bytes(&self.path),
            line: self.line,
            address: self.address,
            trace_type: self.trace_type,
            hits: self.hits,
        }
    }
}

} // verus!

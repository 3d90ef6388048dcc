//! Coverage analysis for compiled test binaries.
//!
//! The crate derives, from a binary's debug information, the set of source
//! lines worth tracing (classified per line), aggregates them into
//! deduplicated coverage records, and drives the decision logic of a
//! process tracer that records which lines actually ran.

pub mod aggregate;
pub mod classify;
pub mod globs;
pub mod paths;
pub mod trace_run;
pub mod tracer;
pub mod types;

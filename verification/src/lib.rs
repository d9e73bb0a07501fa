//! A small cooperative suspend/resume execution core.
//!
//! A unit of work is written as an explicit state machine: a segment tag
//! plus the locals that must survive across its suspension points.  A
//! single-threaded executor drives such a machine with virtual time, a
//! join combinator runs several machines side by side and reports their
//! results in construction order, and errors short-circuit a machine to
//! its terminal outcome.

pub mod demos;
pub mod executor;
pub mod fetch;
pub mod join;
pub mod laws;
pub mod outcome;
pub mod task;
pub mod text;

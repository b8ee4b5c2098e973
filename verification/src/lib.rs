//! Verified core of a small set of timing harnesses.
//!
//! Two measurements are supported: a counter that a fixed number of workers
//! increment under a mutual-exclusion lock, and a run of heap allocations of
//! one power-of-two size. This crate holds everything about them that is a
//! function of plain values: how arguments are read, how the work is split,
//! what the counter holds when every worker is done, and which allocation
//! sizes are acceptable. Clocks, threads and the allocator belong to the
//! program that links this crate.

pub mod allocation;
pub mod baseline;
pub mod completion;
pub mod counter;
pub mod error;
pub mod harness;
pub mod parse;
pub mod partition;
pub mod schedule;

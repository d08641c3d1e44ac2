//! Verified core of an aggregator of static-analysis tools for Ethereum
//! smart contracts.
//!
//! The library owns everything that can be stated and proved: the mapping
//! from analysis depths to per-tool parameters, the command lines handed to
//! the sandbox runtime, the parsers for each tool's output, the JSON values
//! the report is made of, and the classification rules of the pass/fail
//! summary.  Launching the sandboxed subprocesses, threads and file writes
//! live outside the library; they hand captured bytes in and take plain
//! values back.

pub mod json;
pub mod report;
pub mod solium;
pub mod strutil;
pub mod tool_output;
pub mod tools;

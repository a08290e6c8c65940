//! A batch snapshot-test runner for standalone source files.
//!
//! Each registered entry is a source file that is compiled on its own. A
//! compile-fail entry must fail to compile with the diagnostics recorded in
//! its `.stderr` file; a run-match entry must build and, when run, produce the
//! exit status and output recorded in its `.snapshot` file.
//!
//! This crate holds the rules: how diagnostics are normalized, how entries
//! are resolved, how the compiler invocation is derived from the build
//! tool's output, and how actual output is reconciled with a recorded
//! expectation. Running processes and touching files is left to the caller.

pub mod batch;
pub mod binary;
pub mod cargo_rustc;
pub mod config;
pub mod entry;
pub mod error;
pub mod mismatch;
pub mod normalize;
pub mod paths;
pub mod result;
pub mod runner;
pub mod snapshot;
pub mod text;

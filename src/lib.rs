//! Incremental build and test orchestration: a content-fingerprint staleness
//! store, path and classpath rules, a compile dispatcher and a batched test
//! harness, each driven by plain values so that the process, file and
//! managed-runtime work can stay with the caller.
pub mod cache;
pub mod classpath;
pub mod cli;
pub mod config;
pub mod dispatch;
pub mod harness;
pub mod incremental;
pub mod paths;
pub mod plan;
pub mod runtime;

//! Core logic of an HTTP benchmarking run: configuration validation,
//! work partitioning across concurrent workers, per-request outcome
//! accounting, and latency-histogram aggregation.

pub mod config;
pub mod latency;
pub mod outcome;
pub mod partition;
pub mod runner;
pub mod text;

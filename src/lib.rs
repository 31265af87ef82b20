//! Measurement and scheduling engine of a micro-benchmark harness, with the
//! small integer payloads it drives.
//!
//! - `measure`: tick counter and saturating elapsed deltas
//! - `affinity`: CPU pinning sessions and the pin guard
//! - `rng`, `schedule`: seeded generator and the shuffled task order
//! - `harness`: run configuration and the record of a run
//! - `stats`: aggregation with optional outlier trimming
//! - `verify`: holding variant outputs against the reference
//! - `payload`: the benchmarked computations
//! - `layout`: width, truncation and ordering rules of the report

pub mod affinity;
pub mod harness;
pub mod layout;
pub mod measure;
pub mod payload;
pub mod rng;
pub mod schedule;
pub mod stats;
pub mod verify;

//! Progress and throughput reporting.

pub mod progress;
pub mod stats;

//! Load-generation benchmark engine: per-connection phase timing, wave
//! scheduling of concurrent requests, aggregation of timings and
//! nearest-rank percentiles.

pub mod stats;
pub mod percentile;
pub mod exchange;
pub mod schedule;
pub mod framing;
pub mod head;
pub mod args;

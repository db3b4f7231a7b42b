//! A micro-benchmark sampling pipeline.
//!
//! A fixed set of CPU-bound work units is run repeatedly; each run yields a
//! timing sample `(name, duration)`. Samples flow into one of two delivery
//! stages: a streaming stage that serializes each sample as one JSON line for
//! a remote collector, or an aggregating stage that folds samples into
//! per-name running statistics and periodically flushes them to a file by an
//! atomic replace. Durations are carried as whole nanoseconds.

use vstd::prelude::*;

pub mod codec;
pub mod flush;
pub mod pipeline;
pub mod sender;
pub mod stats;
pub mod statsmap;
pub mod workunits;

verus! {

/// Language tag carried in every streamed record.
pub const LANGUAGE_NAME: &'static str = "Rust";

/// Capacity of the bounded sample queue (streaming variant).
pub const QUEUE_CAPACITY: usize = 1000;

/// Seconds between connection attempts after a failure (streaming variant).
pub const RETRY_INTERVAL_SECS: u64 = 2;

/// Seconds between flushes of the aggregated statistics (aggregating variant).
pub const FLUSH_INTERVAL_SECS: u64 = 10;

} // verus!

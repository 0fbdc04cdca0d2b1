//! The concurrent measurement core of a metrics instrumentation library:
//! bucketed histograms with shared atomic state, thread-confined local
//! buffers, scoped timers and label-keyed partitions.

pub mod binary64;
pub mod buckets;
pub mod cells;
pub mod clock;
pub mod errors;
pub mod histogram;
pub mod local;
pub mod vec;


//! Per-process memory and CPU-time sampling: snapshot types, per-process
//! history aggregation, averaging, and the sampling run's phase machine.
pub mod snapshot;
pub mod average;
pub mod aggregator;
pub mod laws;
pub mod sampler;
pub mod driver;

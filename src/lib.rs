//! The sampling-and-retention engine of a server monitor: bounded rolling series of
//! samples, throughput from cumulative counters, derived percentages, and the
//! authentication events read from a log, taken in as the durable store accepts them.

pub mod auth;
pub mod engine;
pub mod rate;
pub mod rolling;
pub mod scan;

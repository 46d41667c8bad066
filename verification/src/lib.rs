// A host telemetry collection framework: immutable Samples of named
// cumulative counters are turned into per-interval rates, held by
// per-source Collectors, and driven by a Scheduler with per-collector
// failure isolation, storage liveness decisions and age-based retention.

pub mod errors;
pub mod sample;
pub mod metric;
pub mod rate;
pub mod store;
pub mod collector;
pub mod scheduler;
pub mod config;
pub mod clock;
pub mod text;
pub mod encode;
pub mod cpu;
pub mod io;
pub mod network;
pub mod memory;
pub mod load_avg;
pub mod fs;
pub mod nginx;
pub mod postgres;
pub mod docker;

// The container-runtime source, in two parts: the data the runtime's
// API reports for one container, and the derivation of per-interval
// usage deltas from two timestamped snapshots.

pub mod client;
pub mod metric;

// The shared error taxonomy: acquisition, computation, persistence and
// encoding failures, recovered locally per collector by the scheduler.

use vstd::prelude::*;

verus! {

/// An error while acquiring or computing one source's metric.
///
/// Acquisition failures (`FailedToRead`, `FailedToParse`, `RequestFailed`,
/// `DatabaseQueryFailed`, `DockerClientFailed`) come from a source adapter;
/// `NotConfigured` marks an optional source that is disabled; and
/// `InvalidInterval` is the one computation failure: two samples whose
/// timestamps are not strictly increasing.
#[derive(Debug)]
pub enum MetricCollectionError {
    FailedToRead { description: String },
    FailedToParse { description: String },
    RequestFailed { description: String },
    DatabaseQueryFailed { description: String },
    NotConfigured { description: String },
    DockerClientFailed { description: String },
    InvalidInterval,
}

/// An error while persisting a metric.
#[derive(Debug)]
pub enum MetricSaveError {
    DatabaseQueryFailed { description: String },
}

/// An error while pruning persisted metrics.
#[derive(Debug)]
pub enum MetricCleanupError {
    DatabaseQueryFailed { description: String },
}

/// An error while encoding the current metric for inspection.
#[derive(Debug)]
pub enum MetricEncodingError {
    NoRecord,
    FailedToSerialize { description: String },
}

impl MetricCollectionError {
    /// A short human-readable description of the failure.
    pub fn message(&self) -> String {
        match self {
            MetricCollectionError::FailedToRead { description } => {
                String::from_str("failed to read metric: ").concat(description.as_str())
            },
            MetricCollectionError::FailedToParse { description } => {
                String::from_str("failed to parse metric: ").concat(description.as_str())
            },
            MetricCollectionError::RequestFailed { description } => {
                String::from_str("request failed: ").concat(description.as_str())
            },
            MetricCollectionError::DatabaseQueryFailed { description } => {
                String::from_str("database query failed: ").concat(description.as_str())
            },
            MetricCollectionError::NotConfigured { description } => {
                String::from_str("not configured: ").concat(description.as_str())
            },
            MetricCollectionError::DockerClientFailed { description } => {
                String::from_str("docker client error: ").concat(description.as_str())
            },
            MetricCollectionError::InvalidInterval => {
                String::from_str("invalid interval between samples")
            },
        }
    }

    /// Whether the failure marks a disabled optional source rather than a fault.
    pub fn is_not_configured(&self) -> (r: bool)
        ensures
            r == (self matches MetricCollectionError::NotConfigured { .. }),
    {
        match self {
            MetricCollectionError::NotConfigured { .. } => true,
            _ => false,
        }
    }
}

impl MetricSaveError {
    /// A short human-readable description of the failure.
    pub fn message(&self) -> String {
        match self {
            MetricSaveError::DatabaseQueryFailed { description } => {
                String::from_str("database query failed: ").concat(description.as_str())
            },
        }
    }
}

impl MetricCleanupError {
    /// A short human-readable description of the failure.
    pub fn message(&self) -> String {
        match self {
            MetricCleanupError::DatabaseQueryFailed { description } => {
                String::from_str("database query failed: ").concat(description.as_str())
            },
        }
    }
}

impl MetricEncodingError {
    /// A short human-readable description of the failure.
    pub fn message(&self) -> String {
        match self {
            MetricEncodingError::NoRecord => String::from_str("no record"),
            MetricEncodingError::FailedToSerialize { description } => {
                String::from_str("failed to serialize: ").concat(description.as_str())
            },
        }
    }
}

} // verus!

// Configuration defaulting: the polling interval and the retention
// horizon, each computed from an optionally configured value.  Reading
// the environment happens at the caller; the defaulting rules are here.

use vstd::prelude::*;

verus! {

/// The default polling interval, in seconds: every minute.
pub const DEFAULT_REPORT_INTERVAL_SECS: u16 = 60;

/// The default retention horizon, in hours: two weeks.
pub const DEFAULT_MAX_METRICS_AGE_HOURS: u64 = 336;

/// Milliseconds per hour.
pub const MILLIS_PER_HOUR: u64 = 3600000;

/// The polling interval in seconds: the configured value, or one minute
/// when none is set.
pub fn get_metric_report_interval(configured_secs: Option<u16>) -> (r: u16)
    ensures
        r == match configured_secs {
            Some(v) => v,
            None => DEFAULT_REPORT_INTERVAL_SECS,
        },
{
    match configured_secs {
        Some(v) => v,
        None => DEFAULT_REPORT_INTERVAL_SECS,
    }
}

/// The retention horizon in milliseconds: the configured number of
/// hours, or two weeks when none is set; a horizon too large to
/// represent saturates.
pub fn get_max_metrics_age(configured_hours: Option<u64>) -> (r: u64)
    ensures
        r == match configured_hours {
            Some(h) => if h <= u64::MAX / MILLIS_PER_HOUR {
                (h * MILLIS_PER_HOUR) as u64
            } else {
                u64::MAX
            },
            None => (DEFAULT_MAX_METRICS_AGE_HOURS * MILLIS_PER_HOUR) as u64,
        },
{
    match configured_hours {
        Some(h) => {
            if h <= u64::MAX / MILLIS_PER_HOUR {
                h * MILLIS_PER_HOUR
            } else {
                u64::MAX
            }
        },
        None => DEFAULT_MAX_METRICS_AGE_HOURS * MILLIS_PER_HOUR,
    }
}

} // verus!

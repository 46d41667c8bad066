// The one reading the framework takes from the outside world itself:
// the current wall-clock time, used to stamp samples and to anchor the
// retention cutoff.

use vstd::prelude::*;

verus! {

/// Relies on chrono::Utc::now: the current wall-clock time, converted
/// to milliseconds since the Unix epoch.  Nothing can be promised of a
/// clock reading; every caller must hold for any value.
#[verifier::external_body]
pub fn current_timestamp_ms() -> u64 {
    chrono::Utc::now().timestamp_millis() as u64
}

} // verus!

//! Access to the wall clock. The broker's logic takes timestamps as plain
//! arguments; this is the one place that reads the clock for it.

use vstd::prelude::*;

verus! {

/// Relies on chrono's `Utc::now` and `DateTime::timestamp_millis`: the current
/// wall-clock time as milliseconds since the Unix epoch. Nothing can be
/// promised of a clock reading; callers treat the value as arbitrary.
#[verifier::external_body]
pub fn now_ms() -> i64 {
    chrono::Utc::now().timestamp_millis()
}

} // verus!

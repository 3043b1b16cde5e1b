use chrono::Local;
use vstd::prelude::*;

verus! {

/// Relies on chrono's `Local::now` and `DateTime::timestamp`: the current
/// Unix time in seconds. The result depends on the clock, so nothing is
/// stated of it; callers treat any value as a valid timestamp.
#[verifier::external_body]
pub fn get_current_timestamp() -> i64 {
    Local::now().timestamp()
}

} // verus!

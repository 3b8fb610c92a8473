use vstd::prelude::*;

verus! {

/// Relies on chrono's `Local::now`, read as milliseconds since the Unix
/// epoch by `DateTime::timestamp_millis`. The value depends on the clock, so
/// nothing is promised of it.
#[verifier::external_body]
pub(crate) fn now_millis() -> (r: i64) {
    chrono::Local::now().timestamp_millis()
}

} // verus!

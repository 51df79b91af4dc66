use vstd::prelude::*;

verus! {

/// The current wall-clock time, in microseconds since the Unix epoch.
///
/// Relies on chrono's `Utc::now` and `DateTime::timestamp_micros`. The clock
/// is read from the system, so nothing is promised of the value but that it
/// is not before the epoch (`Utc::now` builds it from a duration since the
/// epoch).
#[verifier::external_body]
pub fn now_micros() -> (t: i64)
    ensures
        t >= 0,
{
    chrono::Utc::now().timestamp_micros()
}

} // verus!

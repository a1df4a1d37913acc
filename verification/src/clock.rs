//! The wall clock, as the logic that depends on it reads it.

use vstd::prelude::*;

verus! {

/// Whether `t` can be a reading of the wall clock, in any unit since the Unix
/// epoch: it is not negative.
pub open spec fn clock_reading(t: i64) -> bool {
    t >= 0
}

/// Calls `chrono::Utc::now()` and reads it with `DateTime::timestamp_micros`:
/// the wall clock in microseconds since the Unix epoch. It is never negative
/// when the call returns; the call panics where the system clock reads a
/// time before the epoch, which no condition on the arguments can rule out.
/// Nothing else is stated: the value is the clock's.
#[verifier::external_body]
pub(crate) fn now_micros() -> (res: i64)
    ensures
        res >= 0,
{
    chrono::Utc::now().timestamp_micros()
}

} // verus!

//! The clock.

use vstd::prelude::*;

verus! {

/// The time in milliseconds since 1970, from `chrono::Utc::now` and
/// `timestamp_millis`.
///
/// Taken on trust of it: the number is not negative. Nothing else is said of
/// it: it is what the system clock shows. The call panics if the clock stands
/// before 1970 or past the years that `chrono` can count.
#[verifier::external_body]
pub(crate) fn now_millis() -> (r: i64)
    ensures
        r >= 0,
{
    chrono::Utc::now().timestamp_millis()
}

} // verus!

//! The wall clock, and the comparison of times.

use vstd::prelude::*;

verus! {

/// The current time in seconds since the Unix epoch, read with
/// `chrono::Utc::now` and `DateTime::timestamp`. Trusted, and nothing is
/// claimed of the value: two readings may differ in any way.
#[verifier::external_body]
pub(crate) fn unix_now() -> i64 {
    chrono::Utc::now().timestamp()
}

/// Whether `last` lies more than `timeout` seconds before `now`, without
/// overflow for any three values.
pub fn older_than(last: i64, now: i64, timeout: i64) -> (r: bool)
    ensures
        r == (now - last > timeout),
{
    let elapsed: i128 = now as i128 - last as i128;
    elapsed > timeout as i128
}

} // verus!

//! The wall clock, as milliseconds since the Unix epoch (UTC).

use vstd::prelude::*;

verus! {

/// Whether a millisecond timestamp lies within the range of chrono's
/// `DateTime<Utc>`: from the start of year -262,143 to the end of year
/// 262,142.
pub open spec fn in_clock_range(ms: int) -> bool {
    -8_334_601_315_200_000 <= ms <= 8_210_266_876_799_999
}

/// The current time in milliseconds since the Unix epoch, from
/// `chrono::Utc::now` and `DateTime::timestamp_millis`. It depends on the
/// clock; all that is stated is that it lies within the range of chrono's
/// `DateTime<Utc>`.
#[verifier::external_body]
pub fn now_millis() -> (r: i64)
    ensures
        in_clock_range(r as int),
{
    chrono::Utc::now().timestamp_millis()
}

} // verus!

//! Wall-clock reading and overflow-safe timestamp arithmetic. Timestamps
//! are seconds since the Unix epoch, as signed 64-bit integers.

use vstd::prelude::*;

verus! {

/// How far in the future an offline account's tokens are stamped to
/// expire: one hundred years, so refresh logic never triggers for them.
pub const OFFLINE_LIFETIME_SECONDS: i64 = 36500 * 86400;

/// Mathematical addition clamped to the `i64` range.
pub open spec fn clamped_add(a: int, b: int) -> int {
    if a + b > i64::MAX {
        i64::MAX as int
    } else if a + b < i64::MIN {
        i64::MIN as int
    } else {
        a + b
    }
}

/// Saturating addition of two timestamps/durations.
pub fn saturating_add_i64(a: i64, b: i64) -> (r: i64)
    ensures
        r as int == clamped_add(a as int, b as int),
{
    if b >= 0 {
        if a <= i64::MAX - b {
            a + b
        } else {
            i64::MAX
        }
    } else {
        if a >= i64::MIN - b {
            a + b
        } else {
            i64::MIN
        }
    }
}

/// Relies on `chrono::Utc::now` and `chrono::DateTime::timestamp`: the
/// current wall-clock time as seconds since the Unix epoch. `Utc::now`
/// only returns when the system clock is at or after the epoch and within
/// chrono's representable range, so the result is nonnegative; nothing
/// else is assumed of it.
#[verifier::external_body]
pub(crate) fn utc_now_seconds() -> (r: i64)
    ensures
        0 <= r,
{
    chrono::Utc::now().timestamp()
}

} // verus!

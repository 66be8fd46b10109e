//! Milliseconds between two readings of the wall clock.

use vstd::prelude::*;

verus! {

/// The milliseconds from `then_ms` to `now_ms`, as far as 64 bits hold them.
pub open spec fn elapsed_between(now_ms: i64, then_ms: i64) -> int {
    if now_ms - then_ms > i64::MAX {
        i64::MAX as int
    } else if now_ms - then_ms < i64::MIN {
        i64::MIN as int
    } else {
        now_ms - then_ms
    }
}

/// The milliseconds from `then_ms` to `now_ms`, saturating at the ends of 64 bits.
pub fn elapsed_ms(now_ms: i64, then_ms: i64) -> (elapsed: i64)
    ensures
        elapsed == elapsed_between(now_ms, then_ms),
{
    match now_ms.checked_sub(then_ms) {
        Some(elapsed) => elapsed,
        None => if then_ms < 0 {
            i64::MAX
        } else {
            i64::MIN
        },
    }
}

/// The time that passed is the difference of the two readings, and only a difference that 64 bits
/// do not hold is cut to the nearest one they do.
pub proof fn law_elapsed_time_is_the_difference(now_ms: i64, then_ms: i64, elapsed: i64)
    requires
        call_ensures(elapsed_ms, (now_ms, then_ms), elapsed),
    ensures
        i64::MIN <= now_ms - then_ms <= i64::MAX ==> elapsed == now_ms - then_ms,
        now_ms - then_ms > i64::MAX ==> elapsed == i64::MAX,
        now_ms - then_ms < i64::MIN ==> elapsed == i64::MIN,
{
}

} // verus!

//! The 60 Hz clock of the two timers, counted in whole periods.

use vstd::prelude::*;

verus! {

/// The length of one timer period in nanoseconds: a sixtieth of a second,
/// rounded to the nearest nanosecond.
pub const TIMER_PERIOD_NANOS: u64 = 16_666_667;

/// Splits a time span into the whole timer periods that it holds and the
/// nanoseconds left over, which belong to the period under way.
pub fn elapsed_periods(elapsed_nanos: u64) -> (split: (u64, u64))
    ensures
        split.0 * TIMER_PERIOD_NANOS + split.1 == elapsed_nanos,
        split.1 < TIMER_PERIOD_NANOS,
{
    let periods: u64 = elapsed_nanos / TIMER_PERIOD_NANOS;
    let rest: u64 = elapsed_nanos % TIMER_PERIOD_NANOS;
    assert(periods * TIMER_PERIOD_NANOS + rest == elapsed_nanos) by (nonlinear_arith)
        requires
            periods == elapsed_nanos / TIMER_PERIOD_NANOS,
            rest == elapsed_nanos % TIMER_PERIOD_NANOS,
            TIMER_PERIOD_NANOS > 0,
    ;
    (periods, rest)
}

} // verus!

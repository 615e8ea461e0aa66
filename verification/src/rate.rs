//! The pace of a task: how far apart its ticks are.

use vstd::arithmetic::div_mod::{
    lemma_div_is_ordered, lemma_div_is_ordered_by_denominator, lemma_div_multiples_vanish,
    lemma_fundamental_div_mod,
};
use vstd::prelude::*;

verus! {

/// Nanoseconds in a second.
pub const NANOS_PER_SECOND: u64 = 1_000_000_000;

/// The time between two ticks of a task that runs at `rate` operations a
/// second, in whole nanoseconds.
pub open spec fn tick_period_of(rate: nat) -> nat {
    NANOS_PER_SECOND as nat / rate
}

/// The ticks that have fired once `elapsed` nanoseconds have passed since the
/// first. Ticks are anchored to the clock: the first fires at once, and
/// each further one a period after the one before, whatever the operations
/// take.
pub open spec fn ticks_fired(period: nat, elapsed: nat) -> nat {
    elapsed / period + 1
}

/// The time between two ticks at `rate` operations a second, in nanoseconds.
/// There is none for a rate of 0, nor for one above a tick a nanosecond.
pub fn tick_period_nanos(rate: usize) -> (period: Option<u64>)
    ensures
        period is Some <==> 1 <= rate <= NANOS_PER_SECOND,
        period matches Some(nanos) ==> nanos == tick_period_of(rate as nat) && nanos >= 1,
{
    if rate == 0 || rate as u64 > NANOS_PER_SECOND {
        None
    } else {
        proof {
            lemma_div_is_ordered_by_denominator(
                NANOS_PER_SECOND as int,
                rate as int,
                NANOS_PER_SECOND as int,
            );
        }
        Some(NANOS_PER_SECOND / (rate as u64))
    }
}

/// At a rate that divides a second into whole nanoseconds, the ticks fired
/// within a window of `seconds` seconds, both ends counted, are the rate times
/// the seconds and the one tick that opens the window: within one tick of
/// rate times window.
pub proof fn lemma_rate_conformance(rate: nat, seconds: nat)
    requires
        1 <= rate <= NANOS_PER_SECOND,
        NANOS_PER_SECOND as nat % rate == 0,
    ensures
        ticks_fired(tick_period_of(rate), seconds * NANOS_PER_SECOND as nat) == rate * seconds + 1,
{
    let second = NANOS_PER_SECOND as int;
    let period = tick_period_of(rate) as int;
    lemma_fundamental_div_mod(second, rate as int);
    assert(second == rate * period);
    assert(seconds * second == period * (rate * seconds)) by (nonlinear_arith)
        requires
            second == rate * period,
    ;
    lemma_div_multiples_vanish((rate * seconds) as int, period);
}

/// At any rate, the ticks fired within a window of `seconds` seconds are no
/// fewer than the rate times the seconds.
pub proof fn lemma_rate_is_met(rate: nat, seconds: nat)
    requires
        1 <= rate <= NANOS_PER_SECOND,
    ensures
        ticks_fired(tick_period_of(rate), seconds * NANOS_PER_SECOND as nat) >= rate * seconds + 1,
{
    let second = NANOS_PER_SECOND as int;
    let period = tick_period_of(rate) as int;
    lemma_fundamental_div_mod(second, rate as int);
    lemma_div_is_ordered_by_denominator(second, rate as int, second);
    assert(period >= 1);
    assert(period * (rate * seconds) <= seconds * second) by (nonlinear_arith)
        requires
            rate * period <= second,
            rate >= 1,
            period >= 1,
            seconds >= 0,
    ;
    lemma_div_is_ordered(period * (rate * seconds), seconds * second, period);
    lemma_div_multiples_vanish((rate * seconds) as int, period);
}

} // verus!

//! Ultrasonic range finder: the distance to an obstacle from the length of
//! the echo pulse, measured in system timer ticks.

use vstd::prelude::*;

verus! {

/// Timer ticks are first divided by this.
pub const TICK_DIVISOR: u64 = 40;

/// Microseconds of echo (there and back) per centimetre of distance.
pub const MICROS_PER_CM: u64 = 58;

/// The distance in whole centimetres for an echo pulse that rose at timer
/// tick `start` and fell at tick `end`.
pub fn echo_distance_cm(start: u64, end: u64) -> (cm: u64)
    requires
        start <= end,
    ensures
        cm == (end - start) / TICK_DIVISOR as int / MICROS_PER_CM as int,
        cm == (end - start) / 2320,
{
    let duration = end - start;
    let cm = duration / TICK_DIVISOR / MICROS_PER_CM;
    proof {
        vstd::arithmetic::div_mod::lemma_div_denominator(duration as int, 40, 58);
    }
    cm
}

} // verus!

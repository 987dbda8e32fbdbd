//! Hobby servo: the angle of the horn is set by the width of a pulse sent
//! every 20 ms. A pulse of 2 % of the period turns it to 0°, one of 12 % to
//! 180°, and the widths in between grow in proportion to the angle.

use vstd::prelude::*;

verus! {

/// Ticks of the PWM timer in one 20 ms period (the timer counts 0 to
/// 19 999 at 50 Hz).
pub const PERIOD_TICKS: u16 = 20000;

/// Pulse width for 0°: 2 % of the period.
pub const MIN_PULSE_TICKS: u16 = 400;

/// Pulse width for 180°: 12 % of the period.
pub const MAX_PULSE_TICKS: u16 = 2400;

/// The largest angle, in degrees.
pub const MAX_ANGLE: u16 = 180;

/// The pulse width, in timer ticks, for an angle in degrees.
pub open spec fn pulse_ticks_for(degrees: int) -> int {
    MIN_PULSE_TICKS + degrees * (MAX_PULSE_TICKS - MIN_PULSE_TICKS) / MAX_ANGLE as int
}

/// The pulse width, in timer ticks, that turns the servo to `degrees`.
pub fn pulse_ticks(degrees: u16) -> (ticks: u16)
    requires
        degrees <= MAX_ANGLE,
    ensures
        ticks == pulse_ticks_for(degrees as int),
        MIN_PULSE_TICKS <= ticks <= MAX_PULSE_TICKS,
        180 * (ticks - 400) <= 2000 * degrees < 180 * (ticks - 400) + 180,
{
    proof { lemma_pulse_linear(degrees as int, degrees as int); }
    let d = degrees as u32;
    assert(d * 2000 <= 360000) by (nonlinear_arith)
        requires
            d <= 180,
    ;
    let span = d * 2000 / 180;
    assert(span <= 2000) by (nonlinear_arith)
        requires
            d <= 180,
            span == d * 2000 / 180,
    ;
    (400 + span) as u16
}

/// Across the whole range the pulse width is the linear width
/// `400 + degrees * 2000 / 180` rounded down (within one tick below it), and
/// a larger angle always takes a strictly longer pulse.
pub proof fn lemma_pulse_linear(a: int, b: int)
    ensures
        0 <= a <= MAX_ANGLE ==> 180 * (pulse_ticks_for(a) - 400) <= 2000 * a < 180 * (pulse_ticks_for(a) - 400) + 180,
        0 <= a < b <= MAX_ANGLE ==> pulse_ticks_for(a) < pulse_ticks_for(b),
{
    if 0 <= a <= MAX_ANGLE {
        let q = a * 2000 / 180;
        assert(180 * q <= a * 2000 < 180 * q + 180) by (nonlinear_arith)
            requires
                0 <= a,
                q == a * 2000 / 180,
        ;
    }
    if 0 <= a < b <= MAX_ANGLE {
        let qa = a * 2000 / 180;
        let qb = b * 2000 / 180;
        assert(qa < qb) by (nonlinear_arith)
            requires
                0 <= a < b,
                qa == a * 2000 / 180,
                qb == b * 2000 / 180,
        ;
    }
}

/// 0° takes a pulse of 2 % of the period, 90° one of 7 %, 180° one of 12 %;
/// a larger angle never takes a shorter pulse.
pub proof fn lemma_pulse_widths(a: int, b: int)
    ensures
        pulse_ticks_for(0) * 100 == 2 * PERIOD_TICKS,
        pulse_ticks_for(90) * 100 == 7 * PERIOD_TICKS,
        pulse_ticks_for(180) * 100 == 12 * PERIOD_TICKS,
        0 <= a <= b <= MAX_ANGLE ==> pulse_ticks_for(a) <= pulse_ticks_for(b),
{
    if 0 <= a <= b <= MAX_ANGLE {
        assert(a * 2000 / 180 <= b * 2000 / 180) by (nonlinear_arith)
            requires
                0 <= a <= b,
        ;
    }
}

} // verus!

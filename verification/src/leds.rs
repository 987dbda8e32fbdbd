//! A push button that toggles a row of LEDs: while the button reads low
//! nothing changes; while it reads high every LED is switched over.

use vstd::prelude::*;

verus! {

/// What the button reading was.
#[derive(PartialEq, Eq, Structural, Debug, Clone, Copy)]
pub enum ButtonReport {
    /// The button input read low: the LEDs were left as they were.
    NotPressed,
    /// The button input read high: every LED was switched over.
    Pressed,
}

/// Every level switched over.
pub open spec fn toggled(levels: Seq<bool>) -> Seq<bool> {
    levels.map_values(|level: bool| !level)
}

/// Applies one button reading to the LED output levels (`true` is high).
pub fn toggle_pins(leds: &mut Vec<bool>, button_low: bool) -> (report: ButtonReport)
    ensures
        button_low ==> report == ButtonReport::NotPressed && final(leds)@ == old(leds)@,
        !button_low ==> report == ButtonReport::Pressed && final(leds)@ == toggled(old(leds)@),
        final(leds)@.len() == old(leds)@.len(),
        forall|i: int| 0 <= i < old(leds)@.len() ==> (final(leds)@[i] != old(leds)@[i]) == !button_low,
{
    if button_low {
        return ButtonReport::NotPressed;
    }
    let n = leds.len();
    let mut i: usize = 0;
    while i < n
        invariant
            n == leds.len(),
            n == old(leds)@.len(),
            i <= n,
            forall|j: int| 0 <= j < i ==> leds@[j] == !old(leds)@[j],
            forall|j: int| i <= j < n ==> leds@[j] == old(leds)@[j],
        decreases n - i,
    {
        let level = leds[i];
        leds.set(i, !level);
        i = i + 1;
    }
    assert(leds@ =~= toggled(old(leds)@));
    ButtonReport::Pressed
}

/// Switching over keeps the number of LEDs and changes every one of them.
pub proof fn lemma_toggle_changes_each(levels: Seq<bool>)
    ensures
        toggled(levels).len() == levels.len(),
        forall|i: int| 0 <= i < levels.len() ==> toggled(levels)[i] != levels[i],
{
}

/// Two presses bring every LED back to where it was.
pub proof fn lemma_toggle_twice(levels: Seq<bool>)
    ensures
        toggled(toggled(levels)) == levels,
{
    assert(toggled(toggled(levels)) =~= levels);
}

} // verus!

use board_logic::servo::{pulse_ticks, MAX_ANGLE, MAX_PULSE_TICKS, MIN_PULSE_TICKS, PERIOD_TICKS};

#[test]
fn pulse_widths_at_the_set_positions() {
    assert_eq!(pulse_ticks(0), 400);
    assert_eq!(pulse_ticks(90), 1400);
    assert_eq!(pulse_ticks(180), 2400);
    assert_eq!(pulse_ticks(45), 900);
    assert_eq!(pulse_ticks(1), 411);
}

#[test]
fn pulse_widths_are_two_to_twelve_percent() {
    assert_eq!(MIN_PULSE_TICKS as u32 * 100, 2 * PERIOD_TICKS as u32);
    assert_eq!(MAX_PULSE_TICKS as u32 * 100, 12 * PERIOD_TICKS as u32);
    let mut last = 0;
    for angle in 0..=MAX_ANGLE {
        let ticks = pulse_ticks(angle);
        assert!(ticks >= last);
        assert!((MIN_PULSE_TICKS..=MAX_PULSE_TICKS).contains(&ticks));
        last = ticks;
    }
}

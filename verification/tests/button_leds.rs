use board_logic::leds::{toggle_pins, ButtonReport};

#[test]
fn low_button_leaves_leds() {
    let mut leds = vec![false, true];
    assert_eq!(toggle_pins(&mut leds, true), ButtonReport::NotPressed);
    assert_eq!(leds, vec![false, true]);
}

#[test]
fn high_button_toggles_leds() {
    let mut leds = vec![false, true];
    assert_eq!(toggle_pins(&mut leds, false), ButtonReport::Pressed);
    assert_eq!(leds, vec![true, false]);
    assert_eq!(toggle_pins(&mut leds, false), ButtonReport::Pressed);
    assert_eq!(leds, vec![false, true]);
}

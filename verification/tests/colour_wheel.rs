use board_logic::rainbow::{color_wheel, wheel_color, Rgb, WHEEL_HUES};

fn rgb(r: u8, g: u8, b: u8) -> Rgb {
    Rgb { r, g, b }
}

#[test]
fn primary_hues() {
    assert_eq!(wheel_color(0), rgb(10, 0, 0));
    assert_eq!(wheel_color(85), rgb(0, 10, 0));
    assert_eq!(wheel_color(170), rgb(0, 0, 10));
    assert_eq!(wheel_color(255), rgb(10, 0, 0));
}

#[test]
fn gamma_then_dimming() {
    // 126 alone would dim to 5; gamma correction first brings it to 35, then 1.
    assert_eq!(wheel_color(21), rgb(10, 1, 0));
    assert_eq!(wheel_color(64), rgb(1, 10, 0));
    assert_eq!(wheel_color(200), rgb(4, 0, 10));
    assert_eq!(wheel_color(42), rgb(10, 10, 0));
}

#[test]
fn full_turn() {
    let colors = color_wheel();
    assert_eq!(colors.len(), WHEEL_HUES);
    for (hue, color) in colors.iter().enumerate() {
        assert_eq!(*color, wheel_color(hue as u8));
        assert!(color.r <= 10 && color.g <= 10 && color.b <= 10);
    }
}

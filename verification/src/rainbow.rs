//! RGB colour wheel: each hue of a fully saturated, fully bright colour is
//! converted to RGB, gamma corrected and dimmed, through the `smart_leds`
//! crate.

use vstd::prelude::*;

verus! {

/// An RGB colour, one byte per channel.
#[derive(PartialEq, Eq, Structural, Debug, Clone, Copy)]
pub struct Rgb {
    pub r: u8,
    pub g: u8,
    pub b: u8,
}

/// Saturation of the wheel's colours.
pub const WHEEL_SATURATION: u8 = 255;

/// Value (brightness before dimming) of the wheel's colours.
pub const WHEEL_VALUE: u8 = 255;

/// Dimming level applied to the wheel's colours.
pub const WHEEL_BRIGHTNESS: u8 = 10;

/// Number of hues on the wheel.
pub const WHEEL_HUES: usize = 256;

/// The RGB colour, as (red, green, blue), of a hue, saturation and value,
/// each from 0 to 255: the hue circle is cut into six sectors of about 43
/// hues, and within a sector one channel is at `val`, one at the floor
/// `val * (255 - sat) / 255`, and the third moves between them.
pub open spec fn hsv_color(hue: u8, sat: u8, val: u8) -> (u8, u8, u8) {
    let v = val as int;
    let s = sat as int;
    let f = ((hue as int * 2) % 85) * 3;
    let p = (v * (255 - s) / 255) as u8;
    let q = (v * (255 - s * f / 255) / 255) as u8;
    let t = (v * (255 - s * (255 - f) / 255) / 255) as u8;
    if hue <= 42 {
        (val, t, p)
    } else if hue <= 84 {
        (q, val, p)
    } else if hue <= 127 {
        (p, val, t)
    } else if hue <= 169 {
        (p, q, val)
    } else if hue <= 212 {
        (t, p, val)
    } else if hue <= 254 {
        (val, p, q)
    } else {
        (val, t, p)
    }
}

/// The gamma correction table: entry `v` is the corrected level of `v`.
pub open spec fn gamma_table() -> Seq<u8> {
    seq![
        0u8, 0, 0, 0, 0, 0, 0, 0, 0, 0, 0, 0, 0, 0, 0, 0,
        0, 0, 0, 0, 0, 0, 0, 0, 0, 0, 0, 0, 1, 1, 1, 1,
        1, 1, 1, 1, 1, 1, 1, 1, 1, 2, 2, 2, 2, 2, 2, 2,
        2, 3, 3, 3, 3, 3, 3, 3, 4, 4, 4, 4, 4, 5, 5, 5,
        5, 6, 6, 6, 6, 7, 7, 7, 7, 8, 8, 8, 9, 9, 9, 10,
        10, 10, 11, 11, 11, 12, 12, 13, 13, 13, 14, 14, 15, 15, 16, 16,
        17, 17, 18, 18, 19, 19, 20, 20, 21, 21, 22, 22, 23, 24, 24, 25,
        25, 26, 27, 27, 28, 29, 29, 30, 31, 32, 32, 33, 34, 35, 35, 36,
        37, 38, 39, 39, 40, 41, 42, 43, 44, 45, 46, 47, 48, 49, 50, 50,
        51, 52, 54, 55, 56, 57, 58, 59, 60, 61, 62, 63, 64, 66, 67, 68,
        69, 70, 72, 73, 74, 75, 77, 78, 79, 81, 82, 83, 85, 86, 87, 89,
        90, 92, 93, 95, 96, 98, 99, 101, 102, 104, 105, 107, 109, 110, 112, 114,
        115, 117, 119, 120, 122, 124, 126, 127, 129, 131, 133, 135, 137, 138, 140, 142,
        144, 146, 148, 150, 152, 154, 156, 158, 160, 162, 164, 167, 169, 171, 173, 175,
        177, 180, 182, 184, 186, 189, 191, 193, 196, 198, 200, 203, 205, 208, 210, 213,
        215, 218, 220, 223, 225, 228, 231, 233, 236, 239, 241, 244, 247, 249, 252, 255,
    ]
}

/// The gamma-corrected level of a channel level.
pub open spec fn gamma_level(level: u8) -> u8 {
    gamma_table()[level as int]
}

/// A channel level after `smart_leds::brightness` with `brightness`.
pub open spec fn dimmed_level(level: u8, brightness: u8) -> u8 {
    ((level as int * (brightness as int + 1)) / 256) as u8
}

/// `smart_leds::hsv::hsv2rgb`: the RGB colour of a hue, saturation and
/// value, as `hsv_color` gives it.
#[verifier::external_body]
fn hsv_to_rgb(hue: u8, sat: u8, val: u8) -> (color: Rgb)
    ensures
        color.r == hsv_color(hue, sat, val).0,
        color.g == hsv_color(hue, sat, val).1,
        color.b == hsv_color(hue, sat, val).2,
{
    let c = smart_leds::hsv::hsv2rgb(smart_leds::hsv::Hsv { hue, sat, val });
    Rgb { r: c.r, g: c.g, b: c.b }
}

/// `smart_leds::gamma` applied to a single colour: each channel is looked
/// up in the same table, `gamma_table`; one colour in gives one colour out.
#[verifier::external_body]
fn gamma_correct(color: Rgb) -> (corrected: Option<Rgb>)
    ensures
        corrected == Some((Rgb { r: gamma_level(color.r), g: gamma_level(color.g), b: gamma_level(color.b) })),
{
    let input = smart_leds::RGB8 { r: color.r, g: color.g, b: color.b };
    smart_leds::gamma(core::iter::once(input)).next().map(|c| Rgb { r: c.r, g: c.g, b: c.b })
}

/// `smart_leds::brightness` applied to a single colour: each channel level
/// `v` becomes `v * (brightness + 1) / 256`; one colour in gives one colour
/// out.
#[verifier::external_body]
fn dim(color: Rgb, brightness: u8) -> (dimmed: Option<Rgb>)
    ensures
        dimmed == Some((Rgb { r: dimmed_level(color.r, brightness), g: dimmed_level(color.g, brightness), b: dimmed_level(color.b, brightness) })),
{
    let input = smart_leds::RGB8 { r: color.r, g: color.g, b: color.b };
    smart_leds::brightness(core::iter::once(input), brightness).next().map(|c| Rgb { r: c.r, g: c.g, b: c.b })
}

/// The wheel's colour for `hue`: the hue at full saturation and value,
/// gamma corrected, then dimmed to [`WHEEL_BRIGHTNESS`].
pub open spec fn wheel_color_of(hue: u8) -> Rgb {
    let c = hsv_color(hue, WHEEL_SATURATION, WHEEL_VALUE);
    Rgb {
        r: dimmed_level(gamma_level(c.0), WHEEL_BRIGHTNESS),
        g: dimmed_level(gamma_level(c.1), WHEEL_BRIGHTNESS),
        b: dimmed_level(gamma_level(c.2), WHEEL_BRIGHTNESS),
    }
}

/// Each channel of the wheel's colour for a hue is the same channel of the
/// hue's full-saturation, full-value RGB colour, gamma corrected and then
/// dimmed to brightness 10; no channel is taken from another.
pub proof fn lemma_wheel_channels(hue: u8)
    ensures
        wheel_color_of(hue).r == dimmed_level(gamma_level(hsv_color(hue, 255, 255).0), 10),
        wheel_color_of(hue).g == dimmed_level(gamma_level(hsv_color(hue, 255, 255).1), 10),
        wheel_color_of(hue).b == dimmed_level(gamma_level(hsv_color(hue, 255, 255).2), 10),
{
}

/// Around the wheel, one channel is at the full dimmed level and another is
/// off in each sixth: red full and blue off up to hue 42, green full and blue
/// off up to 84, green full and red off up to 127, blue full and red off up
/// to 169, blue full and green off up to 212, red full and green off up to
/// 255.
pub proof fn lemma_wheel_sectors(hue: u8)
    ensures
        hue <= 42 ==> wheel_color_of(hue).r == 10 && wheel_color_of(hue).b == 0,
        43 <= hue <= 84 ==> wheel_color_of(hue).g == 10 && wheel_color_of(hue).b == 0,
        85 <= hue <= 127 ==> wheel_color_of(hue).g == 10 && wheel_color_of(hue).r == 0,
        128 <= hue <= 169 ==> wheel_color_of(hue).b == 10 && wheel_color_of(hue).r == 0,
        170 <= hue <= 212 ==> wheel_color_of(hue).b == 10 && wheel_color_of(hue).g == 0,
        213 <= hue ==> wheel_color_of(hue).r == 10 && wheel_color_of(hue).g == 0,
{
    assert(gamma_level(0) == 0);
    assert(gamma_level(255) == 255);
    assert(dimmed_level(0, 10) == 0);
    assert(dimmed_level(255, 10) == 10);
}

/// The wheel closes: the last hue has the colour of the first.
pub proof fn lemma_wheel_closes()
    ensures
        wheel_color_of(255) == wheel_color_of(0),
{
    assert(hsv_color(255, WHEEL_SATURATION, WHEEL_VALUE) == hsv_color(0, WHEEL_SATURATION, WHEEL_VALUE));
}

/// Dimming to `brightness` leaves no channel above `brightness`.
pub proof fn lemma_dimmed_at_most(level: u8, brightness: u8)
    ensures
        dimmed_level(level, brightness) <= brightness,
{
    let p = level as int * (brightness as int + 1);
    assert(p <= 255 * (brightness as int + 1)) by (nonlinear_arith)
        requires
            0 <= level <= 255,
            0 <= brightness,
            p == level as int * (brightness as int + 1),
    ;
    assert(p / 256 <= brightness as int) by (nonlinear_arith)
        requires
            0 <= p <= 255 * (brightness as int + 1),
            0 <= brightness <= 255,
    ;
}

/// The wheel's colour for `hue`; no channel exceeds [`WHEEL_BRIGHTNESS`].
pub fn wheel_color(hue: u8) -> (color: Rgb)
    ensures
        color == wheel_color_of(hue),
        color.r == dimmed_level(gamma_level(hsv_color(hue, 255, 255).0), 10),
        color.g == dimmed_level(gamma_level(hsv_color(hue, 255, 255).1), 10),
        color.b == dimmed_level(gamma_level(hsv_color(hue, 255, 255).2), 10),
        color.r <= WHEEL_BRIGHTNESS,
        color.g <= WHEEL_BRIGHTNESS,
        color.b <= WHEEL_BRIGHTNESS,
{
    let full = hsv_to_rgb(hue, WHEEL_SATURATION, WHEEL_VALUE);
    let corrected = match gamma_correct(full) {
        Some(c) => c,
        None => full,
    };
    let dimmed = match dim(corrected, WHEEL_BRIGHTNESS) {
        Some(c) => c,
        None => corrected,
    };
    proof {
        lemma_dimmed_at_most(corrected.r, WHEEL_BRIGHTNESS);
        lemma_dimmed_at_most(corrected.g, WHEEL_BRIGHTNESS);
        lemma_dimmed_at_most(corrected.b, WHEEL_BRIGHTNESS);
    }
    dimmed
}

/// One turn of the wheel: the colours of hues 0 to 255, in order.
pub fn color_wheel() -> (colors: Vec<Rgb>)
    ensures
        colors.len() == WHEEL_HUES,
        forall|h: int| 0 <= h < WHEEL_HUES ==> colors@[h] == wheel_color_of(h as u8),
        forall|h: int|
            0 <= h < WHEEL_HUES ==> (#[trigger] colors@[h]).r == dimmed_level(gamma_level(hsv_color(h as u8, 255, 255).0), 10)
                && colors@[h].g == dimmed_level(gamma_level(hsv_color(h as u8, 255, 255).1), 10)
                && colors@[h].b == dimmed_level(gamma_level(hsv_color(h as u8, 255, 255).2), 10),
{
    let mut colors: Vec<Rgb> = Vec::new();
    let mut hue: usize = 0;
    while hue < WHEEL_HUES
        invariant
            hue <= WHEEL_HUES,
            colors.len() == hue,
            forall|h: int| 0 <= h < hue ==> colors@[h] == wheel_color_of(h as u8),
        decreases WHEEL_HUES - hue,
    {
        colors.push(wheel_color(hue as u8));
        hue = hue + 1;
    }
    colors
}

} // verus!

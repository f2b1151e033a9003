use opensprig_rs::bridge::RGB;
use opensprig_rs::colour::{rgb, Colour};

fn float_rgb(r: u8, g: u8, b: u8) -> u16 {
    let r = ((r as f32 / 255f32) * 31f32) as u8;
    let b = ((b as f32 / 255f32) * 31f32) as u8;
    let g = ((g as f32 / 255f32) * 63f32) as u8;
    ((r as u16 & 0b11111000) << 8) | ((b as u16 & 0b11111100) << 3) | (g as u16 >> 3)
}

#[test]
fn rgb_matches_float_scaling_on_every_channel_value() {
    for v in 0..=255u8 {
        assert_eq!(rgb(v, 0, 0), float_rgb(v, 0, 0));
        assert_eq!(rgb(0, v, 0), float_rgb(0, v, 0));
        assert_eq!(rgb(0, 0, v), float_rgb(0, 0, v));
        assert_eq!(rgb(v, v, v), float_rgb(v, v, v));
    }
}

#[test]
fn rgb_exact_values() {
    assert_eq!(rgb(0, 0, 0), 0);
    assert_eq!(rgb(255, 255, 255), 6375);
    assert_eq!(rgb(255, 0, 0), 6144);
    assert_eq!(rgb(0, 255, 0), 7);
    assert_eq!(rgb(0, 0, 255), 224);
    assert_eq!(rgb(100, 100, 255), 2048 * (12 / 8) + 32 * (31 / 4) + 24 / 8);
}

#[test]
fn colour_as_16bit_is_rgb_of_its_channels() {
    let c = Colour::new(115, 115, 115);
    assert_eq!(c.as_16bit(), rgb(115, 115, 115));
    assert_eq!(Colour::new(231, 12, 200).as_16bit(), rgb(231, 12, 200));
}

#[test]
fn bridge_rgb_is_rgb() {
    assert_eq!(RGB(100, 100, 255), rgb(100, 100, 255));
    assert_eq!(RGB(1, 2, 3), rgb(1, 2, 3));
}

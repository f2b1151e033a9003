use opensprig_rs::colour::{rgb, Colour};
use opensprig_rs::dpad_indicator::DPadIndicator;
use opensprig_rs::screen::{Screen, SCREEN_SIZE};

fn full_font() -> Vec<u32> {
    vec![0x00FF_FFFF; 96]
}

#[test]
fn set_pixel_reads_back() {
    let mut s = Screen::new(Vec::new());
    let c = Colour::new(255, 0, 0);
    assert!(s.set_pixel(&c, 10, 20).is_ok());
    assert_eq!(s.pixel(10, 20), rgb(255, 0, 0));
    assert_eq!(s.pixel(10, 21), 0);
}

#[test]
fn set_pixel_out_of_bounds() {
    let mut s = Screen::new(Vec::new());
    let c = Colour::new(255, 0, 0);
    let r = s.set_pixel(&c, 161, 0);
    assert_eq!(r.err().unwrap().message(), "Position out of screen bounds");
    let r = s.set_pixel(&c, 0, 129);
    assert_eq!(r.err().unwrap().message(), "Position out of screen bounds");
}

#[test]
fn set_pixel_on_the_last_row_boundary_wraps_into_the_next_column() {
    let mut s = Screen::new(Vec::new());
    let c = Colour::new(0, 255, 0);
    assert!(s.set_pixel(&c, 3, 128).is_ok());
    assert_eq!(s.pixel(4, 0), rgb(0, 255, 0));
}

#[test]
fn draw_flood_fills_everything() {
    let mut s = Screen::new(Vec::new());
    s.draw_flood(&Colour::new(100, 100, 255));
    let c = rgb(100, 100, 255);
    assert_eq!(s.pixel(0, 0), c);
    assert_eq!(s.pixel(159, 127), c);
    assert_eq!(s.frame_bytes().len(), 2 * SCREEN_SIZE);
}

#[test]
fn draw_rectangle_fills_only_the_rectangle() {
    let mut s = Screen::new(Vec::new());
    let c = Colour::new(255, 255, 255);
    assert!(s.draw_rectangle(&c, 10, 20, 3, 2).is_ok());
    let w = rgb(255, 255, 255);
    assert_eq!(s.pixel(10, 20), w);
    assert_eq!(s.pixel(12, 21), w);
    assert_eq!(s.pixel(13, 20), 0);
    assert_eq!(s.pixel(10, 22), 0);
    assert_eq!(s.pixel(9, 20), 0);
    assert_eq!(s.pixel(10, 19), 0);
}

#[test]
fn draw_rectangle_errors() {
    let mut s = Screen::new(Vec::new());
    let c = Colour::new(255, 255, 255);
    assert_eq!(s.draw_rectangle(&c, 161, 0, 1, 1).err().unwrap().message(), "Position out of screen bounds");
    assert_eq!(s.draw_rectangle(&c, 150, 0, 11, 1).err().unwrap().message(), "Rectangle out of screen bounds");
    assert_eq!(s.draw_rectangle(&c, 0, 120, 1, 9).err().unwrap().message(), "Rectangle out of screen bounds");
    assert_eq!(s.draw_rectangle(&c, 0, 0, 0, 5).err().unwrap().message(), "Rectangle size out of bounds");
    assert_eq!(s.pixel(0, 0), 0);
}

#[test]
fn draw_rectangle_twice_is_once() {
    let mut a = Screen::new(Vec::new());
    let mut b = Screen::new(Vec::new());
    let c = Colour::new(9, 99, 199);
    a.draw_rectangle(&c, 5, 5, 7, 9).unwrap();
    b.draw_rectangle(&c, 5, 5, 7, 9).unwrap();
    b.draw_rectangle(&c, 5, 5, 7, 9).unwrap();
    assert_eq!(a.frame_bytes(), b.frame_bytes());
}

#[test]
fn draw_character_lights_its_glyph_bits() {
    // bit 0 lights (x + 4, y + 6); bit 23 lights (x + 1, y + 1)
    let mut font = vec![0u32; 96];
    font[1] = (1 << 0) | (1 << 23);
    let mut s = Screen::new(font);
    let c = Colour::new(255, 255, 255);
    assert!(s.draw_character(&c, 33, 10, 10).is_ok());
    let w = rgb(255, 255, 255);
    assert_eq!(s.pixel(14, 16), w);
    assert_eq!(s.pixel(11, 11), w);
    assert_eq!(s.pixel(12, 12), 0);
}

#[test]
fn draw_character_errors() {
    let mut s = Screen::new(full_font());
    let c = Colour::new(255, 255, 255);
    assert_eq!(s.draw_character(&c, 32 + 96, 0, 0).err().unwrap().message(), "Ordinal out of range");
    assert_eq!(s.draw_character(&c, 65, 158, 0).err().unwrap().message(), "Position out of screen bounds");
    assert_eq!(s.draw_character(&c, 10, 0, 0).err().unwrap().message(), "Ordinal out of range");
    assert_eq!(s.draw_character(&c, 0, 0, 0).err().unwrap().message(), "Ordinal out of range");
}

#[test]
fn draw_text_advances_four_pixels_per_byte() {
    let mut font = vec![0u32; 96];
    font[('A' as usize) - 32] = 1 << 23;
    font[('B' as usize) - 32] = 1 << 23;
    let mut s = Screen::new(font);
    let c = Colour::new(255, 255, 255);
    assert!(s.draw_text(&c, "AB", 0, 0).is_ok());
    let w = rgb(255, 255, 255);
    assert_eq!(s.pixel(1, 1), w);
    assert_eq!(s.pixel(5, 1), w);
    assert_eq!(s.pixel(9, 1), 0);
}

#[test]
fn draw_text_stops_at_the_first_error() {
    let mut font = vec![0u32; 96];
    font[('A' as usize) - 32] = 1 << 23;
    let mut s = Screen::new(font);
    let c = Colour::new(255, 255, 255);
    let r = s.draw_text(&c, "A\u{e9}A", 0, 0);
    assert_eq!(r.err().unwrap().message(), "Ordinal out of range");
    assert_eq!(s.pixel(1, 1), rgb(255, 255, 255));
    assert_eq!(s.pixel(9, 1), 0);
    assert_eq!(s.pixel(13, 1), 0);
}

#[test]
fn frame_bytes_are_little_endian() {
    let mut s = Screen::new(Vec::new());
    s.set_pixel(&Colour::new(255, 255, 255), 0, 1).unwrap();
    let b = s.frame_bytes();
    assert_eq!(b[0], 0);
    assert_eq!(b[2], (6375 % 256) as u8);
    assert_eq!(b[3], (6375 / 256) as u8);
}

#[test]
fn dpad_lights_pressed_directions() {
    let mut s = Screen::new(Vec::new());
    let mut d = DPadIndicator::new(12, 40);
    d.set_pressed(true, false, false, false);
    assert!(d.blit(&mut s).is_ok());
    // top arrow bar at (12 + 15, 40 + 0)
    assert_eq!(s.pixel(27, 40), rgb(231, 231, 231));
    // right arrow bar at (12 + 32, 40 + 15)
    assert_eq!(s.pixel(44, 55), rgb(66, 66, 66));
    // the centre stays blank
    assert_eq!(s.pixel(12 + 22, 40 + 22), 0);
}

#[test]
fn dpad_fails_past_the_screen() {
    let mut s = Screen::new(Vec::new());
    let d = DPadIndicator::new(150, 0);
    assert_eq!(d.blit(&mut s).err().unwrap().message(), "Position out of screen bounds");
    let d = DPadIndicator::new(120, 0);
    assert_eq!(d.blit(&mut s).err().unwrap().message(), "Rectangle out of screen bounds");
}

#[test]
fn safety_checks_of_text() {
    let s = Screen::new(full_font());
    assert!(s.text_is_safe("Hello, World!", 5, 5));
    assert!(s.text_is_safe("\n", 5, 5));
    // lighting column 160 passes the bounds check but lies past the buffer
    assert!(!s.character_is_safe(65, 156, 0));
    // past the bounds check the drawing stops with an error instead
    assert!(s.character_is_safe(65, 157, 0));
    assert!(s.character_is_safe(65, 0, 0));
    assert!(s.character_is_safe(31, 0, 0));
}

#[test]
fn text_with_a_control_character_fails_at_it() {
    let mut s = Screen::new(full_font());
    let c = Colour::new(255, 255, 255);
    let r = s.draw_text(&c, "A\nB", 5, 5);
    assert_eq!(r.err().unwrap().message(), "Ordinal out of range");
    // the glyph before the newline was drawn, the one after it was not
    assert_eq!(s.pixel(6, 6), c.as_16bit());
    assert_eq!(s.pixel(14, 6), 0);
}

#[test]
fn dpad_stays_in_its_area() {
    let mut s = Screen::new(Vec::new());
    let mut d = DPadIndicator::new(12, 40);
    d.set_pressed(true, true, true, true);
    assert!(d.blit(&mut s).is_ok());
    // right arrow reaches column 12 + 43, down arrow row 40 + 44
    assert_eq!(s.pixel(12 + 43, 40 + 20), rgb(231, 231, 231));
    assert_eq!(s.pixel(12 + 20, 40 + 44), rgb(231, 231, 231));
    assert_eq!(s.pixel(12 + 44, 40 + 20), 0);
    assert_eq!(s.pixel(12 + 20, 40 + 45), 0);
    assert_eq!(s.pixel(11, 40 + 20), 0);
}

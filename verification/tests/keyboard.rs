use opensprig_rs::colour::rgb;
use opensprig_rs::keyboard::Keyboard;
use opensprig_rs::screen::Screen;

fn full_font() -> Vec<u32> {
    vec![0x00FF_FFFF; 96]
}

#[test]
fn new_keyboard_is_empty() {
    let k = Keyboard::new(3, 4);
    assert_eq!(k.get_content(), "");
    assert_eq!(k.len(), 0);
}

#[test]
fn pressing_types_the_selected_key() {
    let mut k = Keyboard::new(0, 0);
    k.press();
    k.unpress();
    k.right();
    k.press();
    k.down();
    k.press();
    assert_eq!(k.get_content(), "12W");
}

#[test]
fn delete_undoes_press() {
    let mut k = Keyboard::new(0, 0);
    k.down();
    k.press();
    k.right();
    k.press();
    assert_eq!(k.get_content(), "QW");
    k.delete();
    assert_eq!(k.get_content(), "Q");
    k.delete();
    k.delete();
    assert_eq!(k.get_content(), "");
}

#[test]
fn moves_stop_at_the_edges() {
    let mut k = Keyboard::new(0, 0);
    k.left();
    k.up();
    k.press();
    assert_eq!(k.get_content(), "1");
    for _ in 0..50 {
        k.right();
    }
    k.press();
    for _ in 0..10 {
        k.down();
    }
    k.press();
    assert_eq!(k.get_content(), "1++");
}

#[test]
fn right_wraps_to_the_next_row_and_back() {
    let mut k = Keyboard::new(0, 0);
    for _ in 0..10 {
        k.right();
    }
    k.press();
    k.left();
    k.press();
    k.right();
    k.left();
    k.up();
    k.down();
    k.press();
    assert_eq!(k.get_content(), "Q0P");
}

#[test]
fn buffer_holds_two_hundred_fifty_six_characters() {
    let mut k = Keyboard::new(0, 0);
    for _ in 0..256 {
        k.press();
    }
    assert_eq!(k.len(), 256);
    assert_eq!(k.get_content().len(), 256);
    k.delete();
    assert_eq!(k.len(), 255);
}

#[test]
fn blit_draws_keys_and_labels() {
    let mut screen = Screen::new(full_font());
    let mut k = Keyboard::new(0, 0);
    k.right();
    assert!(k.blit(&mut screen).is_ok());
    let bg = rgb(115, 115, 115);
    let hover = rgb(140, 140, 140);
    let white = rgb(255, 255, 255);
    // key 0 box at (0, 8)
    assert_eq!(screen.pixel(0, 8), bg);
    // key 1 is selected: box at (6, 8)
    assert_eq!(screen.pixel(6, 8), hover);
    // label of key 0 lights (2..=5, 10..=15)
    assert_eq!(screen.pixel(2, 10), white);
    assert_eq!(screen.pixel(5, 15), white);
    assert_eq!(screen.pixel(1, 9), bg);
    // text box at the top
    assert_eq!(screen.pixel(59, 0), hover);
    // nothing below the keyboard
    assert_eq!(screen.pixel(0, 40), 0);
    assert_eq!(screen.pixel(60, 0), 0);
}

#[test]
fn blit_shows_pressed_key() {
    let mut screen = Screen::new(full_font());
    let mut k = Keyboard::new(0, 0);
    k.press();
    assert!(k.blit(&mut screen).is_ok());
    assert_eq!(screen.pixel(0, 8), rgb(230, 230, 230));
}

#[test]
fn blit_fails_past_the_screen() {
    let mut screen = Screen::new(full_font());
    let k = Keyboard::new(120, 0);
    let r = k.blit(&mut screen);
    assert_eq!(r.err().unwrap().message(), "Rectangle out of screen bounds");
}

#[test]
fn blit_fails_without_glyphs() {
    let mut screen = Screen::new(Vec::new());
    let k = Keyboard::new(0, 0);
    let r = k.blit(&mut screen);
    assert_eq!(r.err().unwrap().message(), "Ordinal out of range");
    // the first key's box was drawn before the failure
    assert_eq!(screen.pixel(0, 8), rgb(140, 140, 140));
}

//! The pure state of the presentation components: the text rendering of
//! the framebuffer, the status bar, and the keyboard mapping.

use chip8_emu::action::{get_key_from_char, Action};
use chip8_emu::components::screen::Screen;
use chip8_emu::components::status::StatusBar;

#[test]
fn screen_renders_pixels_two_chars_wide() {
    let mut data = vec![0u8; 256];
    data[0] = 0x80; // leftmost pixel of the top row
    data[1] = 0x01; // rightmost pixel of the second byte group
    let mut screen = Screen::new();
    let r = screen.update(Action::Redraw(data));
    assert!(r.is_none());
    let rows = screen.rows();
    assert_eq!(rows.len(), 32);
    assert_eq!(rows[0].len(), 128);
    assert_eq!(rows[0][0], '█');
    assert_eq!(rows[0][1], '█');
    assert_eq!(rows[0][2], ' ');
    assert_eq!(rows[0][30], '█');
    assert_eq!(rows[0][31], '█');
    assert_eq!(rows[0][29], ' ');
    assert!(rows[1].iter().all(|c| *c == ' '));
}

#[test]
fn screen_tracks_running_state() {
    let mut screen = Screen::new();
    screen.update(Action::StartEmulation);
    screen.update(Action::Tick);
    screen.update(Action::StopEmulation);
    let r = screen.update(Action::Quit);
    assert!(r.is_none());
}

#[test]
fn status_bar_shows_latest_opcode() {
    let mut status = StatusBar::new();
    assert_eq!(status.opcode(), 0);
    let r = status.update(Action::UpdateOpcode(0xABCD));
    assert!(r.is_none());
    assert_eq!(status.opcode(), 0xABCD);
    status.update(Action::Tick);
    assert_eq!(status.opcode(), 0xABCD);
}

#[test]
fn keyboard_block_maps_to_keypad() {
    assert_eq!(get_key_from_char(&'1'), 1);
    assert_eq!(get_key_from_char(&'4'), 12);
    assert_eq!(get_key_from_char(&'q'), 4);
    assert_eq!(get_key_from_char(&'r'), 13);
    assert_eq!(get_key_from_char(&'a'), 7);
    assert_eq!(get_key_from_char(&'f'), 14);
    assert_eq!(get_key_from_char(&'z'), 10);
    assert_eq!(get_key_from_char(&'x'), 0);
    assert_eq!(get_key_from_char(&'c'), 11);
    assert_eq!(get_key_from_char(&'v'), 15);
    assert_eq!(get_key_from_char(&'p'), 255);
}

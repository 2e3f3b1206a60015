//! Keypad behaviour: press and release bounds, the key skips, and the
//! blocking key-wait instruction.

use chip8_emu::emulator::{Chip8Emu, EmulationErr};

fn loaded(rom: &[u8]) -> Chip8Emu {
    let mut emu = Chip8Emu::new();
    emu.load_rom(&rom.to_vec());
    emu
}

#[test]
fn press_of_key_out_of_range_is_refused() {
    let mut emu = Chip8Emu::new();
    assert!(matches!(emu.press(&16), Err(EmulationErr::InvalidKeycode)));
    assert!(matches!(emu.release(&16), Err(EmulationErr::InvalidKeycode)));
    assert!(emu.press(&15).is_ok());
    assert!(emu.release(&15).is_ok());
}

#[test]
fn skip_if_key_pressed() {
    // EX9E with V0=5: skips only while key 5 is down.
    let mut emu = loaded(&[0x60, 0x05, 0xE0, 0x9E]);
    emu.press(&5).unwrap();
    emu.step(0).unwrap();
    emu.step(0).unwrap();
    assert_eq!(emu.get_program_counter(), 0x206);

    let mut emu = loaded(&[0x60, 0x05, 0xE0, 0x9E]);
    emu.step(0).unwrap();
    emu.step(0).unwrap();
    assert_eq!(emu.get_program_counter(), 0x204);
}

#[test]
fn skip_if_key_not_pressed() {
    let mut emu = loaded(&[0x60, 0x05, 0xE0, 0xA1]);
    emu.step(0).unwrap();
    emu.step(0).unwrap();
    assert_eq!(emu.get_program_counter(), 0x206);

    let mut emu = loaded(&[0x60, 0x05, 0xE0, 0xA1]);
    emu.press(&5).unwrap();
    emu.step(0).unwrap();
    emu.step(0).unwrap();
    assert_eq!(emu.get_program_counter(), 0x204);
}

#[test]
fn key_wait_blocks_until_key_arrives() {
    // FX0A with no key down: the program counter must not move across
    // repeated cycles.  Once a key is pressed, VX takes the lowest
    // pressed index and the counter resumes advancing.
    let mut emu = loaded(&[0xF0, 0x0A]);
    for _ in 0..5 {
        emu.step(0).unwrap();
        assert_eq!(emu.get_program_counter(), 0x200);
    }
    emu.press(&9).unwrap();
    emu.press(&4).unwrap();
    emu.step(0).unwrap();
    assert_eq!(emu.get_register(0), 4);
    assert_eq!(emu.get_program_counter(), 0x202);
}

#[test]
fn released_key_no_longer_satisfies_wait() {
    let mut emu = loaded(&[0xF0, 0x0A]);
    emu.press(&3).unwrap();
    emu.release(&3).unwrap();
    emu.step(0).unwrap();
    assert_eq!(emu.get_program_counter(), 0x200);
}

//! The SUPER-CHIP instruction group: gating by the quirk, the scrolls,
//! the exit instruction, the resolution toggles and the RPL flag store.

use chip8_emu::emulator::{Chip8Emu, EmulationErr, Quirks};

fn superchip(rom: &[u8]) -> Chip8Emu {
    let quirks = Quirks {
        superchip_opcodes: true,
        superchip_shift: false,
        superchip_offset_jump: false,
        superchip_memory: false,
    };
    let mut emu = Chip8Emu::new_with_quirks(quirks);
    emu.load_rom(&rom.to_vec());
    emu
}

#[test]
fn superchip_opcode_needs_the_quirk() {
    // 00FD is the SUPER-CHIP exit: without the quirk it is unknown.
    let mut emu = Chip8Emu::new();
    emu.load_rom(&vec![0x00, 0xFD]);
    assert!(matches!(emu.step(0), Err(EmulationErr::UnknownOpcode(0x00FD))));

    let mut emu = superchip(&[0x00, 0xFD]);
    assert!(matches!(emu.step(0), Err(EmulationErr::ProgramExited)));
}

#[test]
fn unknown_opcode_with_superchip_enabled_still_fails() {
    let mut emu = superchip(&[0x00, 0x02]);
    assert!(matches!(emu.step(0), Err(EmulationErr::UnknownOpcode(0x0002))));
}

#[test]
fn scroll_down_moves_rows_and_blanks_top() {
    // Draw glyph 0 at the corner, then scroll two byte-rows down.
    let mut emu = superchip(&[0xF0, 0x29, 0xD0, 0x15, 0x00, 0xC2]);
    for _ in 0..3 {
        emu.step(0).unwrap();
    }
    let screen = emu.screen();
    assert_eq!(screen[0], 0x00);
    assert_eq!(screen[8], 0x00);
    assert_eq!(screen[16], 0xF0);
    assert_eq!(screen[24], 0x90);
}

#[test]
fn scroll_right_shifts_each_row_four_pixels() {
    let mut emu = superchip(&[0xF0, 0x29, 0xD0, 0x15, 0x00, 0xFB]);
    for _ in 0..3 {
        emu.step(0).unwrap();
    }
    let screen = emu.screen();
    // Row 0 held 0xF0: its high nibble moves into the low nibble, and
    // nothing spills into the next byte.
    assert_eq!(screen[0], 0x0F);
    assert_eq!(screen[1], 0x00);
}

#[test]
fn resolution_toggles_flip_the_flag() {
    let mut emu = superchip(&[0x00, 0xFF, 0x00, 0xFE]);
    assert!(!emu.is_hi_res());
    emu.step(0).unwrap();
    assert!(emu.is_hi_res());
    emu.step(0).unwrap();
    assert!(!emu.is_hi_res());
}

#[test]
fn rpl_store_and_restore_round_trip() {
    let mut emu = superchip(&[
        0x60, 0x11, 0x61, 0x22, // V0, V1
        0xF1, 0x75, // store V0..V1
        0x60, 0x00, 0x61, 0x00, // clobber
        0xF1, 0x85, // restore
    ]);
    for _ in 0..6 {
        emu.step(0).unwrap();
    }
    assert_eq!(emu.get_register(0), 0x11);
    assert_eq!(emu.get_register(1), 0x22);
}

#[test]
fn rpl_survives_a_rom_load() {
    let mut emu = superchip(&[0x60, 0x5A, 0xF0, 0x75]);
    emu.step(0).unwrap();
    emu.step(0).unwrap();
    emu.load_rom(&vec![0xF0, 0x85]);
    emu.step(0).unwrap();
    assert_eq!(emu.get_register(0), 0x5A);
}

#[test]
fn rpl_register_beyond_seven_is_refused() {
    let mut emu = superchip(&[0xF8, 0x75]);
    assert!(matches!(emu.step(0), Err(EmulationErr::InvalidRegisterReference)));
    let mut emu = superchip(&[0xF8, 0x85]);
    assert!(matches!(emu.step(0), Err(EmulationErr::InvalidRegisterReference)));
}

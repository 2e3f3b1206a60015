//! The loader: the memory layout after a load, the round trip of the
//! program bytes, and the opcode listing of the program region.

use chip8_emu::emulator::{Chip8Emu, Quirks};

#[test]
fn loader_round_trip_reproduces_rom_bytes() {
    // Loading an N-byte ROM and reading memory back from 0x200 gives the
    // original bytes; everything outside the font table and the loaded
    // region is zero.
    let rom = vec![0x12u8, 0x34, 0x56, 0x78, 0x9A];
    let mut emu = Chip8Emu::new();
    emu.load_rom(&rom);
    for (i, b) in rom.iter().enumerate() {
        assert_eq!(emu.get_memory(0x200 + i as u16), *b);
    }
    for a in 0..0x50u16 {
        assert_eq!(emu.get_memory(a), 0);
    }
    for a in 0xA0..0x200u16 {
        assert_eq!(emu.get_memory(a), 0);
    }
    for a in (0x200 + rom.len() as u16)..4096 {
        assert_eq!(emu.get_memory(a), 0);
    }
}

#[test]
fn loader_places_font_at_fixed_offset() {
    let mut emu = Chip8Emu::new();
    emu.load_rom(&vec![]);
    // Glyph 0 begins the table; glyph F ends it.
    assert_eq!(emu.get_memory(0x50), 0xF0);
    assert_eq!(emu.get_memory(0x51), 0x90);
    assert_eq!(emu.get_memory(0x9B), 0xF0);
    assert_eq!(emu.get_memory(0x9F), 0x80);
}

#[test]
fn loader_resets_machine_state() {
    let mut emu = Chip8Emu::new();
    emu.load_rom(&vec![0x60, 0x07, 0x12, 0x00]);
    emu.step(0).unwrap();
    emu.step(0).unwrap();
    assert_eq!(emu.get_register(0), 7);
    emu.load_rom(&vec![0x00, 0xE0]);
    assert_eq!(emu.get_register(0), 0);
    assert_eq!(emu.get_program_counter(), 0x200);
    assert_eq!(emu.get_opcode(), 0);
}

#[test]
fn loader_keeps_quirks() {
    let quirks = Quirks {
        superchip_opcodes: true,
        superchip_shift: false,
        superchip_offset_jump: false,
        superchip_memory: false,
    };
    let mut emu = Chip8Emu::new_with_quirks(quirks);
    emu.load_rom(&vec![0x00, 0xFD]);
    // The SUPER-CHIP exit instruction still dispatches after the load,
    // so the quirk survived it.
    assert!(emu.step(0).is_err());
}

#[test]
fn oversized_rom_is_truncated_at_program_area() {
    let rom = vec![0xABu8; 4000];
    let mut emu = Chip8Emu::new();
    emu.load_rom(&rom);
    assert_eq!(emu.get_memory(4095), 0xAB);
    assert_eq!(emu.get_memory(0x200), 0xAB);
}

#[test]
fn opcode_listing_pairs_program_bytes_big_endian() {
    let mut emu = Chip8Emu::new();
    emu.load_rom(&vec![0x60, 0x05, 0x00, 0xE0, 0x12, 0x00]);
    let ops = emu.get_opcodes();
    assert_eq!(ops.len(), 1792);
    assert_eq!(ops[0], 0x6005);
    assert_eq!(ops[1], 0x00E0);
    assert_eq!(ops[2], 0x1200);
    assert_eq!(ops[3], 0x0000);
}

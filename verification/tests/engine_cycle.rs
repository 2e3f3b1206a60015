//! One-instruction and small-program behaviour of the engine: program
//! counter movement, arithmetic and shift flags, index overflow, and the
//! error conditions of the base instruction set.

use chip8_emu::emulator::{Chip8Emu, EmulationErr};

fn loaded(rom: &[u8]) -> Chip8Emu {
    let mut emu = Chip8Emu::new();
    emu.load_rom(&rom.to_vec());
    emu
}

fn run(rom: &[u8], cycles: usize) -> Chip8Emu {
    let mut emu = loaded(rom);
    for _ in 0..cycles {
        emu.step(0).expect("cycle failed");
    }
    emu
}

#[test]
fn plain_instruction_advances_pc_by_two() {
    let mut emu = loaded(&[0x60, 0x05]);
    assert_eq!(emu.get_program_counter(), 0x200);
    emu.step(0).unwrap();
    assert_eq!(emu.get_program_counter(), 0x202);
    assert_eq!(emu.get_opcode(), 0x6005);
}

#[test]
fn add_with_carry_wraps_and_sets_flag() {
    // 8XY4 with VX=0xFF, VY=0x01 wraps to 0x00 and reports the carry.
    let emu = run(&[0x60, 0xFF, 0x61, 0x01, 0x80, 0x14], 3);
    assert_eq!(emu.get_register(0), 0x00);
    assert_eq!(emu.get_register(15), 1);
}

#[test]
fn sub_with_borrow_clears_flag() {
    // 8XY5 with VX=0x01, VY=0x02 wraps to 0xFF; VF=0 means borrowed.
    let emu = run(&[0x60, 0x01, 0x61, 0x02, 0x80, 0x15], 3);
    assert_eq!(emu.get_register(0), 0xFF);
    assert_eq!(emu.get_register(15), 0);
}

#[test]
fn sub_without_borrow_sets_flag() {
    // 8XY5 with VX=0x02, VY=0x01 gives 0x01; VF=1 means no borrow.
    let emu = run(&[0x60, 0x02, 0x61, 0x01, 0x80, 0x15], 3);
    assert_eq!(emu.get_register(0), 0x01);
    assert_eq!(emu.get_register(15), 1);
}

#[test]
fn shift_right_reports_low_bit() {
    // 8XY6 with VY=0x03: VX takes 0x01 and VF the shifted-out 1.
    let emu = run(&[0x61, 0x03, 0x80, 0x16], 2);
    assert_eq!(emu.get_register(0), 0x01);
    assert_eq!(emu.get_register(15), 1);
}

#[test]
fn shift_left_reports_high_bit() {
    // 8XYE with VY=0x81: VX takes 0x02 and VF the shifted-out 1.
    let emu = run(&[0x61, 0x81, 0x80, 0x1E], 2);
    assert_eq!(emu.get_register(0), 0x02);
    assert_eq!(emu.get_register(15), 1);
}

#[test]
fn logic_group_or_and_xor() {
    let emu = run(&[0x60, 0x0C, 0x61, 0x0A, 0x80, 0x11], 3);
    assert_eq!(emu.get_register(0), 0x0E);
    let emu = run(&[0x60, 0x0C, 0x61, 0x0A, 0x80, 0x12], 3);
    assert_eq!(emu.get_register(0), 0x08);
    let emu = run(&[0x60, 0x0C, 0x61, 0x0A, 0x80, 0x13], 3);
    assert_eq!(emu.get_register(0), 0x06);
}

#[test]
fn add_immediate_wraps_without_flag() {
    // 7XNN wraps and must not touch VF.
    let emu = run(&[0x60, 0xFF, 0x70, 0x02], 2);
    assert_eq!(emu.get_register(0), 0x01);
    assert_eq!(emu.get_register(15), 0);
}

#[test]
fn index_overflow_wraps_and_sets_flag() {
    // FX1E from 0x0FFF plus 2 wraps to 0x0001 with VF=1.
    let emu = run(&[0xAF, 0xFF, 0x62, 0x02, 0xF2, 0x1E], 3);
    assert_eq!(emu.get_index_register(), 0x0001);
    assert_eq!(emu.get_register(15), 1);
}

#[test]
fn index_add_without_overflow_clears_flag() {
    let emu = run(&[0xA0, 0x10, 0x62, 0x02, 0xF2, 0x1E], 3);
    assert_eq!(emu.get_index_register(), 0x0012);
    assert_eq!(emu.get_register(15), 0);
}

#[test]
fn unknown_opcode_reports_value_and_keeps_state() {
    // 0x0001 matches no handler while SUPER-CHIP is disabled.
    let mut emu = loaded(&[0x00, 0x01]);
    let before_screen = emu.screen();
    let r = emu.step(0);
    assert!(matches!(r, Err(EmulationErr::UnknownOpcode(0x0001))));
    assert_eq!(emu.get_program_counter(), 0x202);
    assert_eq!(emu.get_opcode(), 0x0001);
    for i in 0..16 {
        assert_eq!(emu.get_register(i), 0);
    }
    assert_eq!(emu.get_index_register(), 0);
    assert_eq!(emu.screen(), before_screen);
}

#[test]
fn jump_sets_pc() {
    let emu = run(&[0x12, 0x34], 1);
    assert_eq!(emu.get_program_counter(), 0x234);
}

#[test]
fn jump_with_offset_adds_v0() {
    let emu = run(&[0x60, 0x04, 0xB2, 0x06], 2);
    assert_eq!(emu.get_program_counter(), 0x20A);
}

#[test]
fn call_and_return_round_trip() {
    // Call 0x204, return to the instruction after the call.
    let mut emu = loaded(&[0x22, 0x04, 0x00, 0x00, 0x00, 0xEE]);
    emu.step(0).unwrap();
    assert_eq!(emu.get_program_counter(), 0x204);
    emu.step(0).unwrap();
    assert_eq!(emu.get_program_counter(), 0x202);
}

#[test]
fn return_with_empty_stack_fails_and_keeps_state() {
    let mut emu = loaded(&[0x00, 0xEE]);
    let r = emu.step(0);
    assert!(matches!(r, Err(EmulationErr::NoSubroutineToExit)));
    assert_eq!(emu.get_program_counter(), 0x202);
}

#[test]
fn sixteenth_nested_call_overflows_stack() {
    // Fifteen nested calls fill the stack; the sixteenth is refused.
    let mut rom = Vec::new();
    for i in 0..16u16 {
        let target = 0x202 + 2 * i;
        rom.push(0x20 | (target >> 8) as u8);
        rom.push((target & 0xFF) as u8);
    }
    let mut emu = loaded(&rom);
    for _ in 0..15 {
        emu.step(0).expect("call within capacity failed");
    }
    let r = emu.step(0);
    assert!(matches!(r, Err(EmulationErr::StackOverflow)));
}

#[test]
fn skips_compare_register_and_immediate() {
    // 3XNN skips when equal.
    let emu = run(&[0x60, 0x07, 0x30, 0x07], 2);
    assert_eq!(emu.get_program_counter(), 0x206);
    let emu = run(&[0x60, 0x07, 0x30, 0x08], 2);
    assert_eq!(emu.get_program_counter(), 0x204);
    // 4XNN skips when different.
    let emu = run(&[0x60, 0x07, 0x40, 0x08], 2);
    assert_eq!(emu.get_program_counter(), 0x206);
    let emu = run(&[0x60, 0x07, 0x40, 0x07], 2);
    assert_eq!(emu.get_program_counter(), 0x204);
}

#[test]
fn skips_compare_two_registers() {
    let emu = run(&[0x60, 0x07, 0x61, 0x07, 0x50, 0x10], 3);
    assert_eq!(emu.get_program_counter(), 0x208);
    let emu = run(&[0x60, 0x07, 0x61, 0x08, 0x50, 0x10], 3);
    assert_eq!(emu.get_program_counter(), 0x206);
    let emu = run(&[0x60, 0x07, 0x61, 0x08, 0x90, 0x10], 3);
    assert_eq!(emu.get_program_counter(), 0x208);
    let emu = run(&[0x60, 0x07, 0x61, 0x07, 0x90, 0x10], 3);
    assert_eq!(emu.get_program_counter(), 0x206);
}

#[test]
fn register_copy_takes_vy() {
    let emu = run(&[0x61, 0x2A, 0x80, 0x10], 2);
    assert_eq!(emu.get_register(0), 0x2A);
}

#[test]
fn font_index_of_invalid_digit_is_refused() {
    let mut emu = loaded(&[0x60, 0x10, 0xF0, 0x29]);
    emu.step(0).unwrap();
    let r = emu.step(0);
    assert!(matches!(r, Err(EmulationErr::InvalidValueInRegister(0, 0x10))));
}

#[test]
fn font_index_points_at_glyph() {
    let emu = run(&[0x60, 0x0A, 0xF0, 0x29], 2);
    assert_eq!(emu.get_index_register(), 0x50 + 5 * 0xA);
}

#[test]
fn bcd_writes_three_digits() {
    let emu = run(&[0x60, 0x7B, 0xA3, 0x00, 0xF0, 0x33], 3);
    assert_eq!(emu.get_memory(0x300), 1);
    assert_eq!(emu.get_memory(0x301), 2);
    assert_eq!(emu.get_memory(0x302), 3);
}

#[test]
fn store_and_fill_registers_round_trip() {
    // FX55 stores V0..V2, FX65 reads them back after they were clobbered.
    let emu = run(
        &[
            0x60, 0x11, 0x61, 0x22, 0x62, 0x33, // V0..V2
            0xA3, 0x00, 0xF2, 0x55, // store at 0x300
            0x60, 0x00, 0x61, 0x00, 0x62, 0x00, // clobber
            0xF2, 0x65, // fill back
        ],
        9,
    );
    assert_eq!(emu.get_memory(0x300), 0x11);
    assert_eq!(emu.get_memory(0x301), 0x22);
    assert_eq!(emu.get_memory(0x302), 0x33);
    assert_eq!(emu.get_register(0), 0x11);
    assert_eq!(emu.get_register(1), 0x22);
    assert_eq!(emu.get_register(2), 0x33);
}

#[test]
fn store_leaves_register_after_x_alone() {
    let emu = run(&[0x60, 0x11, 0x63, 0x44, 0xA3, 0x00, 0xF0, 0x55], 4);
    assert_eq!(emu.get_memory(0x300), 0x11);
    assert_eq!(emu.get_memory(0x301), 0x00);
}

#[test]
fn delay_timer_round_trip() {
    let mut emu = loaded(&[0x60, 0x05, 0xF0, 0x15, 0xF1, 0x07]);
    emu.step(0).unwrap();
    emu.step(0).unwrap();
    emu.update_delay_timer();
    emu.step(0).unwrap();
    assert_eq!(emu.get_register(1), 4);
}

#[test]
fn sound_timer_beeps_while_running() {
    let mut emu = loaded(&[0x60, 0x02, 0xF0, 0x18]);
    emu.step(0).unwrap();
    emu.step(0).unwrap();
    assert!(emu.update_sound_timer());
    assert!(emu.update_sound_timer());
    assert!(!emu.update_sound_timer());
}

#[test]
fn random_mask_zero_forces_zero() {
    // CXNN with mask 0 must store 0 whatever byte was drawn.
    let mut emu = loaded(&[0x60, 0xFF, 0xC0, 0x00]);
    emu.step(0).unwrap();
    emu.emulate_cycle().unwrap();
    assert_eq!(emu.get_register(0), 0);
}

#[test]
fn random_byte_is_masked() {
    // The caller-supplied byte reaches VX through the mask.
    let mut emu = loaded(&[0xC0, 0x0F]);
    emu.step(0xAB).unwrap();
    assert_eq!(emu.get_register(0), 0x0B);
}

#[test]
fn can_cycle_refuses_out_of_range_fetch() {
    let mut emu = loaded(&[0x1F, 0xFF]);
    assert!(emu.can_cycle());
    emu.step(0).unwrap();
    // The jump parked the counter at 0xFFF; the next fetch would leave
    // the address space.
    assert_eq!(emu.get_program_counter(), 0xFFF);
    assert!(!emu.can_cycle());
}

#[test]
fn can_cycle_refuses_out_of_range_block_copy() {
    let mut emu = loaded(&[0xAF, 0xFF, 0xF2, 0x55]);
    emu.step(0).unwrap();
    assert!(!emu.can_cycle());
}

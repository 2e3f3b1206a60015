//! The mathematical model of the CHIP-8 machine and of one
//! fetch-decode-execute cycle.
//!
//! `MachineView` is the abstraction of the executable machine: every
//! executable transition in `emulator` is specified against the spec
//! functions of this module, with `cycle_step` giving the exact result of
//! one cycle as a function of the starting state and of the byte drawn for
//! the random-value instruction.

use vstd::prelude::*;

use crate::emulator::{EmulationErr, Quirks};

verus! {

/// The abstract state of the machine: one field for every component of the
/// executable machine, with sequences in place of vectors.
#[verifier::ext_equal]
pub ghost struct MachineView {
    /// The most recently fetched instruction word.
    pub opcode: u16,
    /// The 4096-byte addressable memory.
    pub memory: Seq<u8>,
    /// The sixteen general-purpose registers V0..VF.
    pub registers: Seq<u8>,
    /// The 16-bit index register.
    pub index: u16,
    /// The program counter.
    pub pc: u16,
    /// The packed framebuffer: 8 bytes per row, 32 rows, MSB-first.
    pub gfx: Seq<u8>,
    /// The delay timer.
    pub delay: u8,
    /// The sound timer.
    pub sound: u8,
    /// The call stack of return addresses.
    pub stack: Seq<u16>,
    /// The stack pointer; slot 0 is never occupied.
    pub sp: u16,
    /// The sixteen keypad states.
    pub keys: Seq<bool>,
    /// The behaviour toggles, fixed at construction.
    pub quirks: Quirks,
    /// The 8-byte RPL flag store of the SUPER-CHIP extension.
    pub rpl: Seq<u8>,
    /// The SUPER-CHIP high-resolution display flag.
    pub hires: bool,
}

impl MachineView {
    /// Well-formedness: the fixed capacities of every component, and the
    /// index register staying inside the address space.
    pub open spec fn wf(self) -> bool {
        &&& self.memory.len() == 4096
        &&& self.registers.len() == 16
        &&& self.gfx.len() == 256
        &&& self.stack.len() == 16
        &&& self.keys.len() == 16
        &&& self.rpl.len() == 8
        &&& self.index < 4096
        &&& self.sp < 16
    }
}

/// The big-endian 16-bit word formed from two consecutive memory bytes.
pub open spec fn word_at(mem: Seq<u8>, a: int) -> u16 {
    ((mem[a] as u16) << 8) | (mem[a + 1] as u16)
}

/// The instruction word at the program counter.
pub open spec fn fetched(s: MachineView) -> u16 {
    word_at(s.memory, s.pc as int)
}

/// Field `x` of an opcode: bits 8..11, a register index.
pub open spec fn op_x(op: u16) -> int {
    ((op & 0x0F00) >> 8) as int
}

/// Field `y` of an opcode: bits 4..7, a register index.
pub open spec fn op_y(op: u16) -> int {
    ((op & 0x00F0) >> 4) as int
}

/// Field `n` of an opcode: bits 0..3, a nibble immediate.
pub open spec fn op_n(op: u16) -> u8 {
    (op & 0x000F) as u8
}

/// Field `nn` of an opcode: bits 0..7, a byte immediate.
pub open spec fn op_nn(op: u16) -> u8 {
    (op & 0x00FF) as u8
}

/// Field `nnn` of an opcode: bits 0..11, an address immediate.
pub open spec fn op_nnn(op: u16) -> u16 {
    op & 0x0FFF
}

/// The fixed font table: sixteen glyphs of five bytes each.
pub open spec fn font_seq() -> Seq<u8> {
    seq![
        0xF0u8, 0x90, 0x90, 0x90, 0xF0, // 0
        0x20, 0x60, 0x20, 0x20, 0x70, // 1
        0xF0, 0x10, 0xF0, 0x80, 0xF0, // 2
        0xF0, 0x10, 0xF0, 0x10, 0xF0, // 3
        0x90, 0x90, 0xF0, 0x10, 0x10, // 4
        0xF0, 0x80, 0xF0, 0x10, 0xF0, // 5
        0xF0, 0x80, 0xF0, 0x90, 0xF0, // 6
        0xF0, 0x10, 0x20, 0x40, 0x40, // 7
        0xF0, 0x90, 0xF0, 0x90, 0xF0, // 8
        0xF0, 0x90, 0xF0, 0x10, 0xF0, // 9
        0xF0, 0x90, 0xF0, 0x90, 0x90, // A
        0xE0, 0x90, 0xE0, 0x90, 0xE0, // B
        0xF0, 0x80, 0x80, 0x80, 0xF0, // C
        0xE0, 0x90, 0x90, 0x90, 0xE0, // D
        0xF0, 0x80, 0xF0, 0x80, 0xF0, // E
        0xF0, 0x80, 0xF0, 0x80, 0x80, // F
    ]
}

/// The memory offset of the font glyph for hexadecimal digit `v`.
pub open spec fn font_addr(v: u8) -> u16 {
    (0x50 + 5 * (v as u16)) as u16
}

/// The memory image after a program is loaded: the reserved low region,
/// the font table at offset 0x50, zeroes up to 0x200, the program bytes,
/// and zeroes to the end.  Program bytes beyond the 3584-byte program area
/// are ignored.
pub open spec fn loaded_memory(rom: Seq<u8>) -> Seq<u8> {
    Seq::new(
        4096,
        |i: int|
            if i < 0x50 {
                0u8
            } else if i < 0xA0 {
                font_seq()[i - 0x50]
            } else if i < 0x200 {
                0u8
            } else if i - 0x200 < rom.len() && i - 0x200 < 3584 {
                rom[i - 0x200]
            } else {
                0u8
            },
    )
}

/// The power-on state, under a given set of quirks and an inherited RPL
/// store (the RPL flags persist across resets).
pub open spec fn reset_view(q: Quirks, rpl: Seq<u8>) -> MachineView {
    MachineView {
        opcode: 0,
        memory: Seq::new(4096, |i: int| 0u8),
        registers: Seq::new(16, |i: int| 0u8),
        index: 0,
        pc: 0x200,
        gfx: Seq::new(256, |i: int| 0u8),
        delay: 0,
        sound: 0,
        stack: Seq::new(16, |i: int| 0u16),
        sp: 0,
        keys: Seq::new(16, |i: int| false),
        quirks: q,
        rpl: rpl,
        hires: false,
    }
}

/// The lowest-indexed pressed key at or after position `i`, if any.
pub open spec fn first_pressed_from(keys: Seq<bool>, i: int) -> Option<u8>
    decreases 16 - i,
{
    if i < 0 || i >= 16 {
        None
    } else if keys[i] {
        Some(i as u8)
    } else {
        first_pressed_from(keys, i + 1)
    }
}

/// The framebuffer byte written by sprite row `row` for a sprite anchored
/// at column `cx`: the row offset wraps at the bottom of the 256-byte
/// framebuffer, exactly as the 8-bit offset arithmetic wraps.
pub open spec fn draw_byte_index(cx: u8, cy: u8, row: int) -> int {
    ((cy as int) * 8 + (cx as int) / 8 + row * 8) % 256
}

/// One sprite row XORed into the framebuffer, with the collision test on
/// the first destination byte: the pre-draw destination, shifted left by
/// the column offset, ANDed with the incoming row data.
pub open spec fn draw_row(gfx: Seq<u8>, data: u8, cx: u8, cy: u8, row: int) -> (Seq<u8>, bool) {
    let sbi = draw_byte_index(cx, cy, row);
    let shift = (cx % 8) as u8;
    let initial = gfx[sbi];
    let g1 = gfx.update(sbi, initial ^ (data >> shift));
    let g2 = if shift != 0 && cx < 56 {
        g1.update(sbi + 1, g1[sbi + 1] ^ (data << (8 - shift) as u8))
    } else {
        g1
    };
    ((g2, ((initial << shift) & data) != 0u8))
}

/// Sprite rows `0..r` drawn in order, with the collision flags of the rows
/// ORed together.
pub open spec fn draw_rows(
    gfx: Seq<u8>,
    mem: Seq<u8>,
    index: int,
    cx: u8,
    cy: u8,
    r: int,
) -> (Seq<u8>, bool)
    decreases r,
{
    if r <= 0 {
        ((gfx, false))
    } else {
        let prev = draw_rows(gfx, mem, index, cx, cy, r - 1);
        let cur = draw_row(prev.0, mem[index + (r - 1)], cx, cy, r - 1);
        ((cur.0, prev.1 || cur.1))
    }
}

/// The framebuffer scrolled down by `n` byte-rows: blank rows enter at the
/// top, the bottom `n` rows leave.
pub open spec fn scrolled_down(gfx: Seq<u8>, n: u8) -> Seq<u8> {
    Seq::new(256, |i: int| if i < 8 * (n as int) { 0u8 } else { gfx[i - 8 * (n as int)] })
}

/// The framebuffer scrolled right by 4 pixels: within each 8-byte row,
/// every byte keeps its neighbour's low nibble as its own high nibble.
pub open spec fn scrolled_right(gfx: Seq<u8>) -> Seq<u8> {
    Seq::new(
        256,
        |i: int|
            if i % 8 == 0 {
                gfx[i] >> 4
            } else {
                (gfx[i] >> 4) | ((gfx[i - 1] & 0x0F) << 4)
            },
    )
}

/// Registers V0..Vx stored into memory at the index register.
pub open spec fn stored_regs(s: MachineView, x: int) -> Seq<u8> {
    Seq::new(
        s.memory.len(),
        |i: int|
            if s.index <= i <= s.index + x {
                s.registers[i - s.index]
            } else {
                s.memory[i]
            },
    )
}

/// Registers V0..Vx filled from memory at the index register.
pub open spec fn filled_regs(s: MachineView, x: int) -> Seq<u8> {
    Seq::new(16, |i: int| if i <= x { s.memory[s.index + i] } else { s.registers[i] })
}

/// The three-digit decimal expansion of Vx written at the index register.
pub open spec fn bcd_memory(s: MachineView, vx: u8) -> Seq<u8> {
    s.memory.update(s.index as int, vx / 100).update(
        s.index as int + 1,
        (vx % 100) / 10,
    ).update(s.index as int + 2, vx % 10)
}

/// The arithmetic and logical group 8XYN, as a pure function of the state
/// after the fetch.  When `x` is 15 the flag write lands last, exactly as
/// the machine writes it.
pub open spec fn alu_step(s: MachineView, x: int, y: int, n: u8) -> (
    MachineView,
    Result<(), EmulationErr>,
) {
    let vx = s.registers[x];
    let vy = s.registers[y];
    if n == 0 {
        ((MachineView { registers: s.registers.update(x, vy), ..s }, Ok(())))
    } else if n == 1 {
        ((MachineView { registers: s.registers.update(x, vx | vy), ..s }, Ok(())))
    } else if n == 2 {
        ((MachineView { registers: s.registers.update(x, vx & vy), ..s }, Ok(())))
    } else if n == 3 {
        ((MachineView { registers: s.registers.update(x, vx ^ vy), ..s }, Ok(())))
    } else if n == 4 {
        let sum = vx as int + vy as int;
        let carry: u8 = if sum > 255 { 1u8 } else { 0u8 };
        ((
            MachineView {
                registers: s.registers.update(x, (sum % 256) as u8).update(15, carry),
                ..s
            },
            Ok(()),
        ))
    } else if n == 5 {
        let no_borrow: u8 = if vx >= vy { 1u8 } else { 0u8 };
        ((
            MachineView {
                registers: s.registers.update(
                    x,
                    ((vx as int - vy as int + 256) % 256) as u8,
                ).update(15, no_borrow),
                ..s
            },
            Ok(()),
        ))
    } else if n == 6 {
        ((
            MachineView {
                registers: s.registers.update(x, vy >> 1).update(15, vy & 1),
                ..s
            },
            Ok(()),
        ))
    } else if n == 7 {
        let no_borrow: u8 = if vy >= vx { 1u8 } else { 0u8 };
        ((
            MachineView {
                registers: s.registers.update(
                    x,
                    ((vy as int - vx as int + 256) % 256) as u8,
                ).update(15, no_borrow),
                ..s
            },
            Ok(()),
        ))
    } else if n == 0xE {
        let out: u8 = if vy >= 128 { 1u8 } else { 0u8 };
        ((
            MachineView { registers: s.registers.update(x, vy << 1u8).update(15, out), ..s },
            Ok(()),
        ))
    } else {
        ((s, Err(EmulationErr::UnknownOpcode(s.opcode))))
    }
}

/// The SUPER-CHIP instruction group, reached only when no base instruction
/// matches and the SUPER-CHIP quirk is enabled.
pub open spec fn superchip_step(s: MachineView, op: u16) -> (MachineView, Result<(), EmulationErr>) {
    let x = op_x(op);
    let n = op_n(op);
    if 0x00C0 <= op && op <= 0x00CF {
        ((MachineView { gfx: scrolled_down(s.gfx, n), ..s }, Ok(())))
    } else if op == 0x00FB {
        ((MachineView { gfx: scrolled_right(s.gfx), ..s }, Ok(())))
    } else if op == 0x00FD {
        ((s, Err(EmulationErr::ProgramExited)))
    } else if op == 0x00FE {
        ((MachineView { hires: false, ..s }, Ok(())))
    } else if op == 0x00FF {
        ((MachineView { hires: true, ..s }, Ok(())))
    } else if op & 0xF0FF == 0xF075 {
        if x > 7 {
            ((s, Err(EmulationErr::InvalidRegisterReference)))
        } else {
            ((
                MachineView {
                    rpl: Seq::new(8, |i: int| if i <= x { s.registers[i] } else { s.rpl[i] }),
                    ..s
                },
                Ok(()),
            ))
        }
    } else if op & 0xF0FF == 0xF085 {
        if x > 7 {
            ((s, Err(EmulationErr::InvalidRegisterReference)))
        } else {
            ((
                MachineView {
                    registers: Seq::new(
                        16,
                        |i: int| if i <= x { s.rpl[i] } else { s.registers[i] },
                    ),
                    ..s
                },
                Ok(()),
            ))
        }
    } else {
        ((s, Err(EmulationErr::UnknownOpcode(op))))
    }
}

/// 00E0: the framebuffer is cleared.
pub open spec fn clear_step(s: MachineView) -> (MachineView, Result<(), EmulationErr>) {
    ((MachineView { gfx: Seq::new(256, |i: int| 0u8), ..s }, Ok(())))
}

/// 00EE: return from a subroutine.  With an empty stack the state is left
/// alone and the no-subroutine condition is reported.
pub open spec fn ret_step(s: MachineView) -> (MachineView, Result<(), EmulationErr>) {
    if s.sp == 0 {
        ((s, Err(EmulationErr::NoSubroutineToExit)))
    } else {
        ((MachineView { pc: s.stack[s.sp as int], sp: (s.sp - 1) as u16, ..s }, Ok(())))
    }
}

/// 1NNN: jump.
pub open spec fn jump_step(s: MachineView) -> (MachineView, Result<(), EmulationErr>) {
    ((MachineView { pc: op_nnn(s.opcode), ..s }, Ok(())))
}

/// 2NNN: call a subroutine.  A sixteenth nested call would leave the
/// stack, so it is refused with the stack-overflow condition.
pub open spec fn call_step(s: MachineView) -> (MachineView, Result<(), EmulationErr>) {
    if s.sp >= 15 {
        ((s, Err(EmulationErr::StackOverflow)))
    } else {
        ((
            MachineView {
                stack: s.stack.update(s.sp + 1, s.pc),
                sp: (s.sp + 1) as u16,
                pc: op_nnn(s.opcode),
                ..s
            },
            Ok(()),
        ))
    }
}

/// 3XNN / 4XNN: skip the next instruction when VX equals (or, with
/// `want_eq` false, differs from) the immediate byte.
pub open spec fn skip_imm_step(s: MachineView, want_eq: bool) -> (
    MachineView,
    Result<(), EmulationErr>,
) {
    let hit = (s.registers[op_x(s.opcode)] == op_nn(s.opcode)) == want_eq;
    ((MachineView { pc: if hit { (s.pc + 2) as u16 } else { s.pc }, ..s }, Ok(())))
}

/// 5XY0 / 9XY0: skip the next instruction when VX equals (or differs
/// from) VY.
pub open spec fn skip_reg_step(s: MachineView, want_eq: bool) -> (
    MachineView,
    Result<(), EmulationErr>,
) {
    let hit = (s.registers[op_x(s.opcode)] == s.registers[op_y(s.opcode)]) == want_eq;
    ((MachineView { pc: if hit { (s.pc + 2) as u16 } else { s.pc }, ..s }, Ok(())))
}

/// 6XNN: VX takes the immediate byte.
pub open spec fn set_imm_step(s: MachineView) -> (MachineView, Result<(), EmulationErr>) {
    ((MachineView { registers: s.registers.update(op_x(s.opcode), op_nn(s.opcode)), ..s }, Ok(())))
}

/// 7XNN: the immediate byte is added to VX, wrapping, with no flag
/// effect.
pub open spec fn add_imm_step(s: MachineView) -> (MachineView, Result<(), EmulationErr>) {
    let vx = s.registers[op_x(s.opcode)];
    ((
        MachineView {
            registers: s.registers.update(
                op_x(s.opcode),
                ((vx as int + op_nn(s.opcode) as int) % 256) as u8,
            ),
            ..s
        },
        Ok(()),
    ))
}

/// ANNN: the index register takes the address immediate.
pub open spec fn set_index_step(s: MachineView) -> (MachineView, Result<(), EmulationErr>) {
    ((MachineView { index: op_nnn(s.opcode), ..s }, Ok(())))
}

/// BNNN: jump to the address immediate plus V0 (the legacy addressing).
pub open spec fn jump_offset_step(s: MachineView) -> (MachineView, Result<(), EmulationErr>) {
    ((MachineView { pc: (op_nnn(s.opcode) + s.registers[0] as u16) as u16, ..s }, Ok(())))
}

/// CXNN: VX takes the drawn byte masked by the immediate.
pub open spec fn rand_step(s: MachineView, rb: u8) -> (MachineView, Result<(), EmulationErr>) {
    ((MachineView { registers: s.registers.update(op_x(s.opcode), rb & op_nn(s.opcode)), ..s }, Ok(())))
}

/// DXYN: the sprite draw.  VF reports whether any set bit of a first
/// destination byte was hit.
pub open spec fn draw_step(s: MachineView) -> (MachineView, Result<(), EmulationErr>) {
    let cx = s.registers[op_x(s.opcode)] & 0x3F;
    let cy = s.registers[op_y(s.opcode)] & 0x1F;
    let drawn = draw_rows(s.gfx, s.memory, s.index as int, cx, cy, op_n(s.opcode) as int);
    ((
        MachineView {
            gfx: drawn.0,
            registers: s.registers.update(15, if drawn.1 { 1u8 } else { 0u8 }),
            ..s
        },
        Ok(()),
    ))
}

/// EX9E / EXA1: skip the next instruction when the key named by the low
/// nibble of VX is pressed (or, with `want_down` false, released).
pub open spec fn skip_key_step(s: MachineView, want_down: bool) -> (
    MachineView,
    Result<(), EmulationErr>,
) {
    let hit = s.keys[(s.registers[op_x(s.opcode)] & 0x0F) as int] == want_down;
    ((MachineView { pc: if hit { (s.pc + 2) as u16 } else { s.pc }, ..s }, Ok(())))
}

/// FX07: VX takes the delay timer.
pub open spec fn read_delay_step(s: MachineView) -> (MachineView, Result<(), EmulationErr>) {
    ((MachineView { registers: s.registers.update(op_x(s.opcode), s.delay), ..s }, Ok(())))
}

/// FX15: the delay timer takes VX.
pub open spec fn set_delay_step(s: MachineView) -> (MachineView, Result<(), EmulationErr>) {
    ((MachineView { delay: s.registers[op_x(s.opcode)], ..s }, Ok(())))
}

/// FX18: the sound timer takes VX.
pub open spec fn set_sound_step(s: MachineView) -> (MachineView, Result<(), EmulationErr>) {
    ((MachineView { sound: s.registers[op_x(s.opcode)], ..s }, Ok(())))
}

/// FX1E: VX is added to the index register; VF reports the wrap at the
/// 4096-byte boundary.
pub open spec fn add_index_step(s: MachineView) -> (MachineView, Result<(), EmulationErr>) {
    let sum = s.index as int + s.registers[op_x(s.opcode)] as int;
    if sum > 4095 {
        ((
            MachineView { index: (sum - 4096) as u16, registers: s.registers.update(15, 1u8), ..s },
            Ok(()),
        ))
    } else {
        ((
            MachineView { index: sum as u16, registers: s.registers.update(15, 0u8), ..s },
            Ok(()),
        ))
    }
}

/// FX0A: wait for a key.  With a key down, VX takes the lowest pressed
/// index; with none, the program counter rewinds by 2 so that the same
/// instruction re-executes on the next cycle.
pub open spec fn wait_key_step(s: MachineView) -> (MachineView, Result<(), EmulationErr>) {
    match first_pressed_from(s.keys, 0) {
        Some(k) => ((MachineView { registers: s.registers.update(op_x(s.opcode), k), ..s }, Ok(()))),
        None => ((MachineView { pc: (s.pc - 2) as u16, ..s }, Ok(()))),
    }
}

/// FX29: the index register takes the font table offset of the glyph for
/// the low hexadecimal digit held in VX; a value above 0xF has no glyph
/// and is reported as an invalid register value.
pub open spec fn font_index_step(s: MachineView) -> (MachineView, Result<(), EmulationErr>) {
    let vx = s.registers[op_x(s.opcode)];
    if vx <= 0xF {
        ((MachineView { index: font_addr(vx), ..s }, Ok(())))
    } else {
        ((s, Err(EmulationErr::InvalidValueInRegister(op_x(s.opcode) as u8, vx))))
    }
}

/// FX33: the decimal expansion of VX is written at the index register.
pub open spec fn bcd_step(s: MachineView) -> (MachineView, Result<(), EmulationErr>) {
    ((MachineView { memory: bcd_memory(s, s.registers[op_x(s.opcode)]), ..s }, Ok(())))
}

/// FX55: V0..VX are stored into memory at the index register.
pub open spec fn store_regs_step(s: MachineView) -> (MachineView, Result<(), EmulationErr>) {
    ((MachineView { memory: stored_regs(s, op_x(s.opcode)), ..s }, Ok(())))
}

/// FX65: V0..VX are filled from memory at the index register.
pub open spec fn fill_regs_step(s: MachineView) -> (MachineView, Result<(), EmulationErr>) {
    ((MachineView { registers: filled_regs(s, op_x(s.opcode)), ..s }, Ok(())))
}

/// One instruction executed against the state left by the fetch (opcode
/// stored, program counter already advanced by 2).  `rb` is the byte drawn
/// for the random-value instruction; no other instruction reads it.  The
/// dispatch mirrors the machine: exact words first, then the top-nibble
/// ranges, then the 0xF0FF-masked groups, and finally the SUPER-CHIP
/// fallthrough, gated by its quirk.
pub open spec fn execute(s: MachineView, rb: u8) -> (MachineView, Result<(), EmulationErr>) {
    let op = s.opcode;
    if op == 0x00E0 {
        clear_step(s)
    } else if op == 0x00EE {
        ret_step(s)
    } else if 0x1000 <= op && op <= 0x1FFF {
        jump_step(s)
    } else if 0x2000 <= op && op <= 0x2FFF {
        call_step(s)
    } else if 0x3000 <= op && op <= 0x3FFF {
        skip_imm_step(s, true)
    } else if 0x4000 <= op && op <= 0x4FFF {
        skip_imm_step(s, false)
    } else if 0x5000 <= op && op <= 0x5FF0 {
        skip_reg_step(s, true)
    } else if 0x6000 <= op && op <= 0x6FFF {
        set_imm_step(s)
    } else if 0x7000 <= op && op <= 0x7FFF {
        add_imm_step(s)
    } else if 0x8000 <= op && op <= 0x8FFF {
        alu_step(s, op_x(op), op_y(op), op_n(op))
    } else if 0x9000 <= op && op <= 0x9FF0 {
        skip_reg_step(s, false)
    } else if 0xA000 <= op && op <= 0xAFFF {
        set_index_step(s)
    } else if 0xB000 <= op && op <= 0xBFFF {
        jump_offset_step(s)
    } else if 0xC000 <= op && op <= 0xCFFF {
        rand_step(s, rb)
    } else if 0xD000 <= op && op <= 0xDFFF {
        draw_step(s)
    } else if op & 0xF0FF == 0xE09E {
        skip_key_step(s, true)
    } else if op & 0xF0FF == 0xE0A1 {
        skip_key_step(s, false)
    } else if op & 0xF0FF == 0xF007 {
        read_delay_step(s)
    } else if op & 0xF0FF == 0xF015 {
        set_delay_step(s)
    } else if op & 0xF0FF == 0xF018 {
        set_sound_step(s)
    } else if op & 0xF0FF == 0xF01E {
        add_index_step(s)
    } else if op & 0xF0FF == 0xF00A {
        wait_key_step(s)
    } else if op & 0xF0FF == 0xF029 {
        font_index_step(s)
    } else if op & 0xF0FF == 0xF033 {
        bcd_step(s)
    } else if op & 0xF0FF == 0xF055 {
        store_regs_step(s)
    } else if op & 0xF0FF == 0xF065 {
        fill_regs_step(s)
    } else if s.quirks.superchip_opcodes {
        superchip_step(s, op)
    } else {
        ((s, Err(EmulationErr::UnknownOpcode(op))))
    }
}

/// One full cycle: fetch the word at the program counter, store it,
/// advance the counter by 2, then execute.
pub open spec fn cycle_step(pre: MachineView, rb: u8) -> (MachineView, Result<(), EmulationErr>) {
    let op = fetched(pre);
    let s = MachineView { opcode: op, pc: (pre.pc + 2) as u16, ..pre };
    execute(s, rb)
}

/// Every memory access of the instruction about to be fetched stays inside
/// the 4096-byte space.  The host must check this before asking for a
/// cycle: the machine refuses to model the out-of-bounds accesses that a
/// runaway program can otherwise request.
pub open spec fn cycle_safe(s: MachineView) -> bool {
    s.pc as int + 1 < 4096 && {
        let op = fetched(s);
        let x = op_x(op);
        let n = op_n(op);
        &&& (0xD000 <= op && op <= 0xDFFF ==> s.index as int + n as int <= 4096)
        &&& (op & 0xF0FF == 0xF033 ==> s.index as int + 2 < 4096)
        &&& (op & 0xF0FF == 0xF055 ==> s.index as int + x < 4096)
        &&& (op & 0xF0FF == 0xF065 ==> s.index as int + x < 4096)
    }
}

/// The group facts of the masked dispatch: an opcode that matches one of
/// the 0xF0FF-masked patterns lies in the address range of its top
/// nibble.
pub proof fn lemma_opcode_groups(op: u16)
    ensures
        op & 0xF0FF == 0xE09E ==> 0xE000 <= op && op <= 0xEFFF,
        op & 0xF0FF == 0xE0A1 ==> 0xE000 <= op && op <= 0xEFFF,
        op & 0xF0FF == 0xF007 ==> 0xF000 <= op,
        op & 0xF0FF == 0xF015 ==> 0xF000 <= op,
        op & 0xF0FF == 0xF018 ==> 0xF000 <= op,
        op & 0xF0FF == 0xF01E ==> 0xF000 <= op,
        op & 0xF0FF == 0xF00A ==> 0xF000 <= op,
        op & 0xF0FF == 0xF029 ==> 0xF000 <= op,
        op & 0xF0FF == 0xF033 ==> 0xF000 <= op,
        op & 0xF0FF == 0xF055 ==> 0xF000 <= op,
        op & 0xF0FF == 0xF065 ==> 0xF000 <= op,
        op & 0xF0FF == 0xF075 ==> 0xF000 <= op,
        op & 0xF0FF == 0xF085 ==> 0xF000 <= op,
{
    assert((op & 0xF0FF == 0xE09E ==> 0xE000 <= op && op <= 0xEFFF) && (op & 0xF0FF == 0xE0A1
        ==> 0xE000 <= op && op <= 0xEFFF) && (op & 0xF0FF == 0xF007 ==> 0xF000 <= op) && (op
        & 0xF0FF == 0xF015 ==> 0xF000 <= op) && (op & 0xF0FF == 0xF018 ==> 0xF000 <= op) && (op
        & 0xF0FF == 0xF01E ==> 0xF000 <= op) && (op & 0xF0FF == 0xF00A ==> 0xF000 <= op) && (op
        & 0xF0FF == 0xF029 ==> 0xF000 <= op) && (op & 0xF0FF == 0xF033 ==> 0xF000 <= op) && (op
        & 0xF0FF == 0xF055 ==> 0xF000 <= op) && (op & 0xF0FF == 0xF065 ==> 0xF000 <= op) && (op
        & 0xF0FF == 0xF075 ==> 0xF000 <= op) && (op & 0xF0FF == 0xF085 ==> 0xF000 <= op))
        by (bit_vector);
}

} // verus!

//! The executable CHIP-8 machine.
//!
//! Every method is specified against the abstract machine of
//! [`crate::semantics`]: one cycle executes exactly one instruction, and
//! the contract of [`Chip8Emu::step`] gives the resulting state as a
//! function of the starting state and of the byte drawn for the
//! random-value instruction.

use vstd::prelude::*;

use rand::Rng;
use vstd::pervasive::VecAdditionalExecFns;

use crate::semantics::{
    add_imm_step, add_index_step, alu_step, bcd_step, call_step, clear_step, cycle_safe,
    cycle_step, draw_byte_index, draw_rows, draw_step, execute, fetched, fill_regs_step,
    filled_regs, first_pressed_from, font_index_step, font_seq, jump_offset_step, jump_step,
    lemma_opcode_groups, loaded_memory, op_n, op_nn, op_nnn, op_x, op_y, rand_step,
    read_delay_step, reset_view, ret_step, scrolled_down, scrolled_right, set_delay_step,
    set_imm_step, set_index_step, set_sound_step, skip_imm_step, skip_key_step, skip_reg_step,
    store_regs_step, stored_regs, superchip_step, wait_key_step, word_at, MachineView,
};

verus! {

/// The failure conditions of the machine.  Every handler reports a typed
/// failure; the verified engine never panics.
#[derive(Debug, Clone)]
pub enum EmulationErr {
    /// The opcode matches no handler in either instruction set.
    UnknownOpcode(u16),
    /// A subroutine call would exceed the 16-slot call stack.
    StackOverflow,
    /// A register holds a value with no defined mapping (register, value).
    InvalidValueInRegister(u8, u8),
    /// The ROM byte source could not be read.
    FileError(String),
    /// A return was executed with an empty call stack.
    NoSubroutineToExit,
    /// A key index outside 0..=15 was supplied.
    InvalidKeycode,
    /// The SUPER-CHIP explicit halt instruction was executed.
    ProgramExited,
    /// An RPL flag opcode addressed a register beyond index 7.
    InvalidRegisterReference,
}

/// The behaviour toggles selecting SUPER-CHIP-era variants.  They are
/// configuration, fixed at construction, not run-time state.
///
/// Only `superchip_opcodes` is read by the engine today: the shift,
/// offset-jump and memory handlers follow the legacy behaviour whatever
/// the other three hold.  The fields stay as configuration hooks.
#[derive(Debug, Clone, Copy)]
pub struct Quirks {
    /// Enables the opcodes that were added in SUPER-CHIP.
    pub superchip_opcodes: bool,
    /// Hook for the SUPER-CHIP behaviour of 8XY6 and 8XYE.
    pub superchip_shift: bool,
    /// Hook for the SUPER-CHIP behaviour of BNNN.
    pub superchip_offset_jump: bool,
    /// Hook for the SUPER-CHIP behaviour of FX55 and FX65.
    pub superchip_memory: bool,
}

/// The default configuration: every toggle off.
pub open spec fn default_quirks() -> Quirks {
    Quirks {
        superchip_opcodes: false,
        superchip_shift: false,
        superchip_offset_jump: false,
        superchip_memory: false,
    }
}

impl Default for Quirks {
    /// All toggles off: the plain CHIP-8 instruction set.
    fn default() -> (q: Self)
        ensures
            q == default_quirks(),
    {
        Quirks {
            superchip_opcodes: false,
            superchip_shift: false,
            superchip_offset_jump: false,
            superchip_memory: false,
        }
    }
}

/// The CHIP-8 machine: memory image, registers, timers, call stack,
/// keypad and framebuffer.
pub struct Chip8Emu {
    opcode: u16,
    memory: Vec<u8>,
    registers: Vec<u8>,
    index_register: u16,
    program_counter: u16,
    gfx: Vec<u8>,
    delay_timer: u8,
    sound_timer: u8,
    stack: Vec<u16>,
    stack_pointer: u16,
    keys: Vec<bool>,
    quirks: Quirks,
    rpl: Vec<u8>,
    is_hi_res_mode: bool,
}

impl View for Chip8Emu {
    type V = MachineView;

    closed spec fn view(&self) -> MachineView {
        MachineView {
            opcode: self.opcode,
            memory: self.memory@,
            registers: self.registers@,
            index: self.index_register,
            pc: self.program_counter,
            gfx: self.gfx@,
            delay: self.delay_timer,
            sound: self.sound_timer,
            stack: self.stack@,
            sp: self.stack_pointer,
            keys: self.keys@,
            quirks: self.quirks,
            rpl: self.rpl@,
            hires: self.is_hi_res_mode,
        }
    }
}

impl Chip8Emu {
    /// The machine is well formed: every component has its fixed capacity.
    pub open spec fn wf(&self) -> bool {
        self@.wf()
    }

    /// A machine with the given behaviour toggles, in its power-on state.
    pub fn new_with_quirks(quirks: Quirks) -> (r: Self)
        ensures
            r@ == reset_view(quirks, Seq::new(8, |i: int| 0u8)),
            r.wf(),
    {
        let r = Chip8Emu {
            opcode: 0x0000,
            memory: vec![0x00u8; 4096],
            registers: vec![0x00u8; 16],
            index_register: 0x0000,
            program_counter: 0x0200,
            gfx: vec![0x00u8; 8 * 32],
            delay_timer: 0x00,
            sound_timer: 0x00,
            stack: vec![0x0000u16; 16],
            stack_pointer: 0x0000,
            keys: vec![false; 16],
            quirks,
            rpl: vec![0x00u8; 8],
            is_hi_res_mode: false,
        };
        proof {
            assert(r@ =~= reset_view(quirks, Seq::new(8, |i: int| 0u8)));
        }
        r
    }

    /// A plain CHIP-8 machine, with every quirk off.
    pub fn new() -> (r: Self)
        ensures
            r@ == reset_view(default_quirks(), Seq::new(8, |i: int| 0u8)),
            r.wf(),
    {
        Self::new_with_quirks(Quirks::default())
    }

    /// A copy of the packed framebuffer: 8 bytes per row, 32 rows, bit 7
    /// of each byte the leftmost pixel of its group.
    pub fn screen(&self) -> (r: Vec<u8>)
        ensures
            r@ == self@.gfx,
    {
        let r = self.gfx.clone();
        proof {
            assert(r@ =~= self@.gfx);
        }
        r
    }

    /// The most recently fetched instruction word.
    pub fn get_opcode(&self) -> (r: u16)
        ensures
            r == self@.opcode,
    {
        self.opcode
    }

    /// The current program counter.
    pub fn get_program_counter(&self) -> (r: u16)
        ensures
            r == self@.pc,
    {
        self.program_counter
    }

    /// The value of general-purpose register `r`.
    pub fn get_register(&self, r: u8) -> (v: u8)
        requires
            self.wf(),
            r < 16,
        ensures
            v == self@.registers[r as int],
    {
        self.registers[r as usize]
    }

    /// The value of the index register.
    pub fn get_index_register(&self) -> (r: u16)
        ensures
            r == self@.index,
    {
        self.index_register
    }

    /// Whether the SUPER-CHIP high-resolution display flag is set.
    pub fn is_hi_res(&self) -> (r: bool)
        ensures
            r == self@.hires,
    {
        self.is_hi_res_mode
    }

    /// The memory byte at `addr`.
    pub fn get_memory(&self, addr: u16) -> (v: u8)
        requires
            self.wf(),
            addr < 4096,
        ensures
            v == self@.memory[addr as int],
    {
        self.memory[addr as usize]
    }

    /// The program region paired big-endian into instruction words, for
    /// listing and inspection.
    pub fn get_opcodes(&self) -> (r: Vec<u16>)
        requires
            self.wf(),
        ensures
            r@.len() == 1792,
            forall|i: int| 0 <= i < 1792 ==> r@[i] == word_at(self@.memory, 0x200 + 2 * i),
    {
        let mut result: Vec<u16> = Vec::new();
        let mut i: usize = 0;
        while i < 1792
            invariant
                self.wf(),
                i <= 1792,
                result@.len() == i,
                forall|j: int| 0 <= j < i ==> result@[j] == word_at(self@.memory, 0x200 + 2 * j),
            decreases 1792 - i,
        {
            let first_byte = self.memory[512 + 2 * i] as u16;
            let second_byte = self.memory[512 + 2 * i + 1] as u16;
            result.push((first_byte << 8u16) | second_byte);
            i = i + 1;
        }
        result
    }

    /// One host-paced tick of the delay timer: it counts down to zero and
    /// stops.
    pub fn update_delay_timer(&mut self)
        ensures
            final(self)@ == (MachineView {
                delay: if old(self)@.delay > 0 {
                    (old(self)@.delay - 1) as u8
                } else {
                    0u8
                },
                ..old(self)@
            }),
    {
        if self.delay_timer > 0 {
            self.delay_timer = self.delay_timer - 1;
        }
        proof {
            assert(self@ =~= (MachineView {
                delay: if old(self)@.delay > 0 {
                    (old(self)@.delay - 1) as u8
                } else {
                    0u8
                },
                ..old(self)@
            }));
        }
    }

    /// One host-paced tick of the sound timer.  Returns true while a beep
    /// should sound, that is while the timer was still running.
    pub fn update_sound_timer(&mut self) -> (beep: bool)
        ensures
            beep == (old(self)@.sound > 0),
            final(self)@ == (MachineView {
                sound: if old(self)@.sound > 0 {
                    (old(self)@.sound - 1) as u8
                } else {
                    0u8
                },
                ..old(self)@
            }),
    {
        let beep = self.sound_timer > 0;
        if self.sound_timer > 0 {
            self.sound_timer = self.sound_timer - 1;
        }
        proof {
            assert(self@ =~= (MachineView {
                sound: if old(self)@.sound > 0 {
                    (old(self)@.sound - 1) as u8
                } else {
                    0u8
                },
                ..old(self)@
            }));
        }
        beep
    }

    /// A host key-down event.  Keys 0..=15 are accepted; any other index
    /// fails with an invalid-keycode condition and changes nothing.
    pub fn press(&mut self, key: &u8) -> (r: Result<(), EmulationErr>)
        requires
            old(self).wf(),
        ensures
            final(self).wf(),
            *key <= 15 ==> r is Ok && final(self)@ == (MachineView {
                keys: old(self)@.keys.update(*key as int, true),
                ..old(self)@
            }),
            *key > 15 ==> (r matches Err(EmulationErr::InvalidKeycode)) && final(self)@
                == old(self)@,
    {
        if *key <= 15 {
            self.keys.set(*key as usize, true);
            Ok(())
        } else {
            Err(EmulationErr::InvalidKeycode)
        }
    }

    /// Power-on state: every component cleared, the program counter at
    /// 0x200.  The behaviour toggles and the persistent RPL store survive.
    fn reset(&mut self)
        ensures
            final(self)@ == reset_view(old(self)@.quirks, old(self)@.rpl),
    {
        self.opcode = 0x0000;
        self.memory = vec![0x00u8; 4096];
        self.registers = vec![0x00u8; 16];
        self.index_register = 0x0000;
        self.program_counter = 0x0200;
        self.gfx = vec![0x00u8; 8 * 32];
        self.delay_timer = 0x00;
        self.sound_timer = 0x00;
        self.stack = vec![0x0000u16; 16];
        self.stack_pointer = 0x0000;
        self.keys = vec![false; 16];
        self.is_hi_res_mode = false;
        proof {
            assert(self@ =~= reset_view(old(self)@.quirks, old(self)@.rpl));
        }
    }

    /// Loads a program: the machine is reset, the font table is written
    /// at its reserved offset, and the ROM bytes are copied to offset
    /// 0x200.  Bytes beyond the 3584-byte program area are ignored.
    pub fn load_rom(&mut self, rom: &Vec<u8>)
        requires
            old(self).wf(),
        ensures
            final(self)@ == (MachineView {
                memory: loaded_memory(rom@),
                ..reset_view(old(self)@.quirks, old(self)@.rpl)
            }),
            final(self).wf(),
    {
        self.reset();
        let glyphs = font();
        let mut mem: Vec<u8> = vec![0x00u8; 4096];
        let mut i: usize = 0;
        while i < 80
            invariant
                i <= 80,
                glyphs@ == font_seq(),
                mem@.len() == 4096,
                forall|j: int| 0 <= j < 0x50 ==> mem@[j] == 0u8,
                forall|j: int| 0x50 <= j < 0x50 + i ==> mem@[j] == font_seq()[j - 0x50],
                forall|j: int| 0x50 + i <= j < 4096 ==> mem@[j] == 0u8,
            decreases 80 - i,
        {
            mem.set(0x50 + i, glyphs[i]);
            i = i + 1;
        }
        let count = if rom.len() > 3584 {
            3584
        } else {
            rom.len()
        };
        let mut k: usize = 0;
        while k < count
            invariant
                k <= count,
                count <= rom@.len(),
                count <= 3584,
                count == if rom@.len() > 3584 {
                    3584int
                } else {
                    rom@.len() as int
                },
                mem@.len() == 4096,
                forall|j: int| 0 <= j < 0x50 ==> mem@[j] == 0u8,
                forall|j: int| 0x50 <= j < 0xA0 ==> mem@[j] == font_seq()[j - 0x50],
                forall|j: int| 0xA0 <= j < 0x200 ==> mem@[j] == 0u8,
                forall|j: int| 0x200 <= j < 0x200 + k ==> mem@[j] == rom@[j - 0x200],
                forall|j: int| 0x200 + k <= j < 4096 ==> mem@[j] == 0u8,
            decreases count - k,
        {
            mem.set(0x200 + k, rom[k]);
            k = k + 1;
        }
        self.memory = mem;
        proof {
            assert(self@.memory =~= loaded_memory(rom@));
            assert(self@ =~= (MachineView {
                memory: loaded_memory(rom@),
                ..reset_view(old(self)@.quirks, old(self)@.rpl)
            }));
        }
    }

    /// A host key-up event; the mirror image of [`Self::press`].
    pub fn release(&mut self, key: &u8) -> (r: Result<(), EmulationErr>)
        requires
            old(self).wf(),
        ensures
            final(self).wf(),
            *key <= 15 ==> r is Ok && final(self)@ == (MachineView {
                keys: old(self)@.keys.update(*key as int, false),
                ..old(self)@
            }),
            *key > 15 ==> (r matches Err(EmulationErr::InvalidKeycode)) && final(self)@
                == old(self)@,
    {
        if *key <= 15 {
            self.keys.set(*key as usize, false);
            Ok(())
        } else {
            Err(EmulationErr::InvalidKeycode)
        }
    }
}

/// The fixed font table: sixteen five-byte glyphs for the hexadecimal
/// digits.
fn font() -> (f: Vec<u8>)
    ensures
        f@ == font_seq(),
{
    let f: Vec<u8> = vec![
        0xF0, 0x90, 0x90, 0x90, 0xF0, // 0
        0x20, 0x60, 0x20, 0x20, 0x70, // 1
        0xF0, 0x10, 0xF0, 0x80, 0xF0, // 2
        0xF0, 0x10, 0xF0, 0x10, 0xF0, // 3
        0x90, 0x90, 0xF0, 0x10, 0x10, // 4
        0xF0, 0x80, 0xF0, 0x10, 0xF0, // 5
        0xF0, 0x80, 0xF0, 0x90, 0xF0, // 6
        0xF0, 0x10, 0x20, 0x40, 0x40, // 7
        0xF0, 0x90, 0xF0, 0x90, 0xF0, // 8
        0xF0, 0x90, 0xF0, 0x10, 0xF0, // 9
        0xF0, 0x90, 0xF0, 0x90, 0x90, // A
        0xE0, 0x90, 0xE0, 0x90, 0xE0, // B
        0xF0, 0x80, 0x80, 0x80, 0xF0, // C
        0xE0, 0x90, 0x90, 0x90, 0xE0, // D
        0xF0, 0x80, 0xF0, 0x80, 0xF0, // E
        0xF0, 0x80, 0xF0, 0x80, 0x80, // F
    ];
    proof {
        assert(f@ =~= font_seq());
    }
    f
}

/// XORs an `n`-row sprite read from `mem` at `index` into the packed
/// framebuffer at column `cx`, row `cy`, and reports whether any set bit
/// of a first destination byte was hit.
fn draw_sprite(gfx: &mut Vec<u8>, mem: &Vec<u8>, index: u16, cx: u8, cy: u8, n: u8) -> (col: bool)
    requires
        old(gfx)@.len() == 256,
        mem@.len() == 4096,
        index < 4096,
        n < 16,
        index as int + n as int <= 4096,
        cx < 64,
        cy < 32,
    ensures
        (final(gfx)@, col) == draw_rows(old(gfx)@, mem@, index as int, cx, cy, n as int),
        final(gfx)@.len() == 256,
{
    let mut col = false;
    let mut row: usize = 0;
    while row < n as usize
        invariant
            row <= n as int,
            n < 16,
            cx < 64,
            cy < 32,
            index as int + n as int <= 4096,
            mem@.len() == 4096,
            gfx@.len() == 256,
            (gfx@, col) == draw_rows(old(gfx)@, mem@, index as int, cx, cy, row as int),
        decreases n as int - row,
    {
        let row_data: u8 = mem[index as usize + row];
        let sbi_full: usize = (cy as usize) * 8 + (cx as usize) / 8 + row * 8;
        let sbi: usize = sbi_full % 256;
        let shift: u8 = cx % 8;
        proof {
            assert(sbi == draw_byte_index(cx, cy, row as int));
        }
        let initial: u8 = gfx[sbi];
        gfx.set(sbi, initial ^ (row_data >> shift));
        if shift != 0 && cx < 56 {
            proof {
                assert(sbi % 8 == (cx as int) / 8) by {
                    assert(sbi_full == 8 * ((cy as int) + (row as int)) + (cx as int) / 8);
                };
                assert(sbi + 1 < 256);
            }
            let next = gfx[sbi + 1];
            gfx.set(sbi + 1, next ^ (row_data << (8 - shift)));
        }
        if (initial << shift) & row_data != 0 {
            col = true;
        }
        proof {
            assert((gfx@, col) =~= draw_rows(old(gfx)@, mem@, index as int, cx, cy, row as int + 1));
        }
        row = row + 1;
    }
    col
}

/// The lowest-indexed currently pressed key, if any key is down.
fn first_pressed(keys: &Vec<bool>) -> (r: Option<u8>)
    requires
        keys@.len() == 16,
    ensures
        r == first_pressed_from(keys@, 0),
{
    let mut i: usize = 0;
    while i < 16
        invariant
            i <= 16,
            keys@.len() == 16,
            first_pressed_from(keys@, 0) == first_pressed_from(keys@, i as int),
        decreases 16 - i,
    {
        if keys[i] {
            return Some(i as u8);
        }
        i = i + 1;
    }
    None
}

/// Scrolls the framebuffer down by `n` byte-rows: blank rows enter at the
/// top, the bottom rows leave.
fn scroll_down(gfx: &mut Vec<u8>, n: u8)
    requires
        old(gfx)@.len() == 256,
        n < 16,
    ensures
        final(gfx)@ == scrolled_down(old(gfx)@, n),
{
    let offset: usize = 8 * n as usize;
    let mut g: Vec<u8> = vec![0x00u8; 256];
    let mut i: usize = offset;
    while i < 256
        invariant
            offset == 8 * n as int,
            offset <= i <= 256,
            g@.len() == 256,
            gfx@.len() == 256,
            gfx@ == old(gfx)@,
            forall|j: int| 0 <= j < offset ==> g@[j] == 0u8,
            forall|j: int| offset <= j < i ==> g@[j] == gfx@[j - offset],
        decreases 256 - i,
    {
        g.set(i, gfx[i - offset]);
        i = i + 1;
    }
    *gfx = g;
    proof {
        assert(gfx@ =~= scrolled_down(old(gfx)@, n));
    }
}

/// Scrolls the framebuffer right by 4 pixels: within each 8-byte row,
/// every byte keeps its left neighbour's low nibble as its own high
/// nibble.
fn scroll_right(gfx: &mut Vec<u8>)
    requires
        old(gfx)@.len() == 256,
    ensures
        final(gfx)@ == scrolled_right(old(gfx)@),
{
    let mut g: Vec<u8> = vec![0x00u8; 256];
    let mut i: usize = 0;
    while i < 256
        invariant
            i <= 256,
            g@.len() == 256,
            gfx@.len() == 256,
            gfx@ == old(gfx)@,
            forall|j: int| 0 <= j < i ==> g@[j] == scrolled_right(gfx@)[j],
        decreases 256 - i,
    {
        if i % 8 == 0 {
            g.set(i, gfx[i] >> 4u8);
        } else {
            g.set(i, (gfx[i] >> 4u8) | ((gfx[i - 1] & 0x0F) << 4u8));
        }
        i = i + 1;
    }
    *gfx = g;
    proof {
        assert(gfx@ =~= scrolled_right(old(gfx)@));
    }
}

impl Chip8Emu {
    /// Whether one cycle can run from the current state: the fetch and
    /// every memory access of the fetched instruction stay inside the
    /// 4096-byte space.  A host checks this before each cycle; a program
    /// counter or index register driven out of range by a runaway program
    /// is reported here rather than by a fault inside the cycle.
    pub fn can_cycle(&self) -> (r: bool)
        requires
            self.wf(),
        ensures
            r == cycle_safe(self@),
    {
        if self.program_counter >= 4095 {
            return false;
        }
        let pc = self.program_counter as usize;
        let op: u16 = ((self.memory[pc] as u16) << 8u16) | (self.memory[pc + 1] as u16);
        let x = ((op & 0x0F00) >> 8u16) as usize;
        let n = ((op & 0x000F) as u8) as usize;
        let index = self.index_register as usize;
        proof {
            assert(op == fetched(self@));
            assert(x as int == op_x(op) && n as int == op_n(op) as int);
        }
        if op >= 0xD000 && op <= 0xDFFF && index + n > 4096 {
            return false;
        }
        if op & 0xF0FF == 0xF033 && index + 2 >= 4096 {
            return false;
        }
        if op & 0xF0FF == 0xF055 && index + x >= 4096 {
            return false;
        }
        if op & 0xF0FF == 0xF065 && index + x >= 4096 {
            return false;
        }
        true
    }

    /// One fetch-decode-execute cycle, with the byte for the random-value
    /// instruction supplied by the caller.  The resulting state and
    /// result are exactly those of the abstract machine: the fetched word
    /// is stored, the program counter advances by 2, and the instruction
    /// is executed.
    #[verifier::loop_isolation(false)]
    #[verifier::rlimit(100)]
    pub fn step(&mut self, rand_byte: u8) -> (res: Result<(), EmulationErr>)
        requires
            old(self).wf(),
            cycle_safe(old(self)@),
        ensures
            final(self).wf(),
            final(self)@ == cycle_step(old(self)@, rand_byte).0,
            res == cycle_step(old(self)@, rand_byte).1,
    {
        let pc = self.program_counter as usize;
        let first_byte = self.memory[pc] as u16;
        let second_byte = self.memory[pc + 1] as u16;
        let op: u16 = (first_byte << 8u16) | second_byte;
        self.opcode = op;
        self.program_counter = self.program_counter + 2;

        let ghost mid = self@;
        proof {
            assert(op == fetched(old(self)@));
            assert(mid =~= (MachineView {
                opcode: fetched(old(self)@),
                pc: (old(self)@.pc + 2) as u16,
                ..old(self)@
            }));
            assert(cycle_step(old(self)@, rand_byte) == execute(mid, rand_byte));
            lemma_opcode_groups(op);
        }

        let x = ((op & 0x0F00) >> 8u16) as usize;
        let y = ((op & 0x00F0) >> 4u16) as usize;
        let n: u8 = (op & 0x000F) as u8;
        let nn: u8 = (op & 0x00FF) as u8;
        let nnn: u16 = op & 0x0FFF;
        proof {
            assert(x == op_x(op) && y == op_y(op) && n == op_n(op) && nn == op_nn(op) && nnn
                == op_nnn(op));
            assert(((op & 0x0F00) >> 8u16) < 16 && ((op & 0x00F0) >> 4u16) < 16 && (op & 0x000F)
                < 16 && (op & 0x0FFF) < 4096) by (bit_vector);
        }

        if op == 0x00E0 {
            // 00E0 - clear the screen
            self.gfx = vec![0x00u8; 8 * 32];
            proof {
                assert(self@ =~= clear_step(mid).0);
            }
            Ok(())
        } else if op == 0x00EE {
            // 00EE - exit from the current subroutine
            if self.stack_pointer == 0 {
                return Err(EmulationErr::NoSubroutineToExit);
            }
            self.program_counter = self.stack[self.stack_pointer as usize];
            self.stack_pointer = self.stack_pointer - 1;
            proof {
                assert(self@ =~= ret_step(mid).0);
            }
            Ok(())
        } else if op >= 0x1000 && op <= 0x1FFF {
            // 1NNN - jump to NNN
            self.program_counter = nnn;
            proof {
                assert(self@ =~= jump_step(mid).0);
            }
            Ok(())
        } else if op >= 0x2000 && op <= 0x2FFF {
            // 2NNN - call the subroutine at NNN
            if self.stack_pointer >= 15 {
                return Err(EmulationErr::StackOverflow);
            }
            self.stack_pointer = self.stack_pointer + 1;
            let ret = self.program_counter;
            self.stack.set(self.stack_pointer as usize, ret);
            self.program_counter = nnn;
            proof {
                assert(self@ =~= call_step(mid).0);
            }
            Ok(())
        } else if op >= 0x3000 && op <= 0x3FFF {
            // 3XNN - skip one instruction if VX == NN
            if self.registers[x] == nn {
                self.program_counter = self.program_counter + 2;
            }
            proof {
                assert(self@ =~= skip_imm_step(mid, true).0);
            }
            Ok(())
        } else if op >= 0x4000 && op <= 0x4FFF {
            // 4XNN - skip one instruction if VX != NN
            if self.registers[x] != nn {
                self.program_counter = self.program_counter + 2;
            }
            proof {
                assert(self@ =~= skip_imm_step(mid, false).0);
            }
            Ok(())
        } else if op >= 0x5000 && op <= 0x5FF0 {
            // 5XY0 - skip one instruction if VX == VY
            if self.registers[x] == self.registers[y] {
                self.program_counter = self.program_counter + 2;
            }
            proof {
                assert(self@ =~= skip_reg_step(mid, true).0);
            }
            Ok(())
        } else if op >= 0x6000 && op <= 0x6FFF {
            // 6XNN - set VX to NN
            self.registers.set(x, nn);
            proof {
                assert(self@ =~= set_imm_step(mid).0);
            }
            Ok(())
        } else if op >= 0x7000 && op <= 0x7FFF {
            // 7XNN - add NN to VX, wrapping, without touching the flag
            let sum: u16 = self.registers[x] as u16 + nn as u16;
            self.registers.set(x, (sum % 256) as u8);
            proof {
                assert(self@ =~= add_imm_step(mid).0);
            }
            Ok(())
        } else if op >= 0x8000 && op <= 0x8FFF {
            self.alu(x, y, n)
        } else if op >= 0x9000 && op <= 0x9FF0 {
            // 9XY0 - skip one instruction if VX != VY
            if self.registers[x] != self.registers[y] {
                self.program_counter = self.program_counter + 2;
            }
            proof {
                assert(self@ =~= skip_reg_step(mid, false).0);
            }
            Ok(())
        } else if op >= 0xA000 && op <= 0xAFFF {
            // ANNN - set the index register to NNN
            self.index_register = nnn;
            proof {
                assert(self@ =~= set_index_step(mid).0);
            }
            Ok(())
        } else if op >= 0xB000 && op <= 0xBFFF {
            // BNNN - jump to NNN plus V0 (legacy addressing)
            self.program_counter = nnn + self.registers[0] as u16;
            proof {
                assert(self@ =~= jump_offset_step(mid).0);
            }
            Ok(())
        } else if op >= 0xC000 && op <= 0xCFFF {
            // CXNN - set VX to a random byte masked by NN
            self.registers.set(x, rand_byte & nn);
            proof {
                assert(self@ =~= rand_step(mid, rand_byte).0);
            }
            Ok(())
        } else if op >= 0xD000 && op <= 0xDFFF {
            // DXYN - draw an N-row sprite from the index register at (VX, VY)
            let cx: u8 = self.registers[x] & 0x3F;
            let cy: u8 = self.registers[y] & 0x1F;
            proof {
                let vxv = self.registers@[x as int];
                let vyv = self.registers@[y as int];
                assert(vxv & 0x3F < 64 && vyv & 0x1F < 32) by (bit_vector);
            }
            let col = draw_sprite(&mut self.gfx, &self.memory, self.index_register, cx, cy, n);
            self.registers.set(15, if col { 0x01u8 } else { 0x00u8 });
            proof {
                assert(self@ =~= draw_step(mid).0);
            }
            Ok(())
        } else if op & 0xF0FF == 0xE09E {
            // EX9E - skip if the key named by VX is pressed
            let k = (self.registers[x] & 0x0F) as usize;
            proof {
                let vxv = self.registers@[x as int];
                assert(vxv & 0x0F < 16) by (bit_vector);
            }
            if self.keys[k] {
                self.program_counter = self.program_counter + 2;
            }
            proof {
                assert(self@ =~= skip_key_step(mid, true).0);
            }
            Ok(())
        } else if op & 0xF0FF == 0xE0A1 {
            // EXA1 - skip if the key named by VX is not pressed
            let k = (self.registers[x] & 0x0F) as usize;
            proof {
                let vxv = self.registers@[x as int];
                assert(vxv & 0x0F < 16) by (bit_vector);
            }
            if !self.keys[k] {
                self.program_counter = self.program_counter + 2;
            }
            proof {
                assert(self@ =~= skip_key_step(mid, false).0);
            }
            Ok(())
        } else if op & 0xF0FF == 0xF007 {
            // FX07 - read the delay timer into VX
            let d = self.delay_timer;
            self.registers.set(x, d);
            proof {
                assert(self@ =~= read_delay_step(mid).0);
            }
            Ok(())
        } else if op & 0xF0FF == 0xF015 {
            // FX15 - set the delay timer to VX
            self.delay_timer = self.registers[x];
            proof {
                assert(self@ =~= set_delay_step(mid).0);
            }
            Ok(())
        } else if op & 0xF0FF == 0xF018 {
            // FX18 - set the sound timer to VX
            self.sound_timer = self.registers[x];
            proof {
                assert(self@ =~= set_sound_step(mid).0);
            }
            Ok(())
        } else if op & 0xF0FF == 0xF01E {
            // FX1E - add VX to the index register, wrapping at 4096 into VF
            self.index_register = self.index_register + self.registers[x] as u16;
            if self.index_register > 4095 {
                self.registers.set(15, 0x01u8);
                self.index_register = self.index_register - 4096;
            } else {
                self.registers.set(15, 0x00u8);
            }
            proof {
                assert(self@ =~= add_index_step(mid).0);
            }
            Ok(())
        } else if op & 0xF0FF == 0xF00A {
            // FX0A - wait for a key: rewind the program counter until one
            // is pressed, then store the lowest pressed key in VX
            let pressed = first_pressed(&self.keys);
            match pressed {
                Some(k) => {
                    self.registers.set(x, k);
                },
                None => {
                    self.program_counter = self.program_counter - 2;
                },
            }
            proof {
                assert(self@ =~= wait_key_step(mid).0);
            }
            Ok(())
        } else if op & 0xF0FF == 0xF029 {
            // FX29 - point the index register at the font glyph for VX
            let vx = self.registers[x];
            if vx > 0xF {
                return Err(EmulationErr::InvalidValueInRegister(x as u8, vx));
            }
            self.index_register = 0x50 + 5 * (vx as u16);
            proof {
                assert(self@ =~= font_index_step(mid).0);
            }
            Ok(())
        } else if op & 0xF0FF == 0xF033 {
            // FX33 - store the decimal expansion of VX at the index register
            let vx = self.registers[x];
            let idx = self.index_register as usize;
            self.memory.set(idx, vx / 100);
            self.memory.set(idx + 1, (vx % 100) / 10);
            self.memory.set(idx + 2, vx % 10);
            proof {
                assert(self@ =~= bcd_step(mid).0);
            }
            Ok(())
        } else if op & 0xF0FF == 0xF055 {
            // FX55 - store V0..VX into memory at the index register
            let idx = self.index_register as usize;
            let mut offset: usize = 0;
            while offset <= x
                invariant
                    x < 16,
                    offset <= x + 1,
                    idx == mid.index as int,
                    idx + x < 4096,
                    self@.memory.len() == 4096,
                    forall|j: int| idx <= j < idx + offset ==> self@.memory[j]
                        == mid.registers[j - idx],
                    forall|j: int|
                        (0 <= j < 4096 && !(idx <= j < idx + offset)) ==> self@.memory[j]
                            == mid.memory[j],
                    self@ == (MachineView { memory: self@.memory, ..mid }),
                decreases x + 1 - offset,
            {
                let v = self.registers[offset];
                self.memory.set(idx + offset, v);
                offset = offset + 1;
            }
            proof {
                assert(self@.memory =~= stored_regs(mid, x as int));
                assert(self@ =~= store_regs_step(mid).0);
            }
            Ok(())
        } else if op & 0xF0FF == 0xF065 {
            // FX65 - load V0..VX from memory at the index register
            let idx = self.index_register as usize;
            let mut offset: usize = 0;
            while offset <= x
                invariant
                    x < 16,
                    offset <= x + 1,
                    idx == mid.index as int,
                    idx + x < 4096,
                    self@.registers.len() == 16,
                    forall|j: int| 0 <= j < offset ==> self@.registers[j] == mid.memory[idx + j],
                    forall|j: int| offset <= j < 16 ==> self@.registers[j] == mid.registers[j],
                    self@ == (MachineView { registers: self@.registers, ..mid }),
                decreases x + 1 - offset,
            {
                let v = self.memory[idx + offset];
                self.registers.set(offset, v);
                offset = offset + 1;
            }
            proof {
                assert(self@.registers =~= filled_regs(mid, x as int));
                assert(self@ =~= fill_regs_step(mid).0);
            }
            Ok(())
        } else {
            if self.quirks.superchip_opcodes {
                let res = self.handle_superchip_opcode(op, x, n);
                proof {
                    assert(self@ == superchip_step(mid, op).0);
                }
                res
            } else {
                Err(EmulationErr::UnknownOpcode(op))
            }
        }
    }

    /// The SUPER-CHIP instruction group, entered when no base instruction
    /// matched and the SUPER-CHIP quirk is enabled.
    #[verifier::loop_isolation(false)]
    #[verifier::rlimit(60)]
    fn handle_superchip_opcode(&mut self, op: u16, x: usize, n: u8) -> (res: Result<
        (),
        EmulationErr,
    >)
        requires
            old(self).wf(),
            x == op_x(op),
            n == op_n(op),
            x < 16,
            n < 16,
        ensures
            final(self).wf(),
            final(self)@ == superchip_step(old(self)@, op).0,
            res == superchip_step(old(self)@, op).1,
    {
        proof {
            lemma_opcode_groups(op);
        }
        if op >= 0x00C0 && op <= 0x00CF {
            // 00CN - scroll the display N byte-rows down
            scroll_down(&mut self.gfx, n);
            proof {
                assert(self@ =~= superchip_step(old(self)@, op).0);
            }
            Ok(())
        } else if op == 0x00FB {
            // 00FB - scroll the display 4 pixels right
            scroll_right(&mut self.gfx);
            proof {
                assert(self@ =~= superchip_step(old(self)@, op).0);
            }
            Ok(())
        } else if op == 0x00FD {
            // 00FD - the program asks to exit; the host decides
            Err(EmulationErr::ProgramExited)
        } else if op == 0x00FE {
            // 00FE - leave high-resolution mode
            self.is_hi_res_mode = false;
            proof {
                assert(self@ =~= superchip_step(old(self)@, op).0);
            }
            Ok(())
        } else if op == 0x00FF {
            // 00FF - enter high-resolution mode
            self.is_hi_res_mode = true;
            proof {
                assert(self@ =~= superchip_step(old(self)@, op).0);
            }
            Ok(())
        } else if op & 0xF0FF == 0xF075 {
            // FX75 - store V0..VX in the RPL flag store (X <= 7)
            if x > 7 {
                return Err(EmulationErr::InvalidRegisterReference);
            }
            let mut i: usize = 0;
            while i <= x
                invariant
                    x < 8,
                    i <= x + 1,
                    self@.rpl.len() == 8,
                    forall|j: int| 0 <= j < i ==> self@.rpl[j] == old(self)@.registers[j],
                    forall|j: int| i <= j < 8 ==> self@.rpl[j] == old(self)@.rpl[j],
                    self@ == (MachineView { rpl: self@.rpl, ..old(self)@ }),
                decreases x + 1 - i,
            {
                let v = self.registers[i];
                self.rpl.set(i, v);
                i = i + 1;
            }
            proof {
                assert(self@.rpl =~= Seq::new(
                    8,
                    |j: int|
                        if j <= x {
                            old(self)@.registers[j]
                        } else {
                            old(self)@.rpl[j]
                        },
                ));
                assert(self@ =~= superchip_step(old(self)@, op).0);
            }
            Ok(())
        } else if op & 0xF0FF == 0xF085 {
            // FX85 - read V0..VX back from the RPL flag store (X <= 7)
            if x > 7 {
                return Err(EmulationErr::InvalidRegisterReference);
            }
            let mut i: usize = 0;
            while i <= x
                invariant
                    x < 8,
                    i <= x + 1,
                    self@.registers.len() == 16,
                    forall|j: int| 0 <= j < i ==> self@.registers[j] == old(self)@.rpl[j],
                    forall|j: int| i <= j < 16 ==> self@.registers[j] == old(self)@.registers[j],
                    self@ == (MachineView { registers: self@.registers, ..old(self)@ }),
                decreases x + 1 - i,
            {
                let v = self.rpl[i];
                self.registers.set(i, v);
                i = i + 1;
            }
            proof {
                assert(self@.registers =~= Seq::new(
                    16,
                    |j: int|
                        if j <= x {
                            old(self)@.rpl[j]
                        } else {
                            old(self)@.registers[j]
                        },
                ));
                assert(self@ =~= superchip_step(old(self)@, op).0);
            }
            Ok(())
        } else {
            Err(EmulationErr::UnknownOpcode(op))
        }
    }

    /// The arithmetic and logical group 8XYN.
    fn alu(&mut self, x: usize, y: usize, n: u8) -> (res: Result<(), EmulationErr>)
        requires
            old(self).wf(),
            x == op_x(old(self)@.opcode),
            y == op_y(old(self)@.opcode),
            n == op_n(old(self)@.opcode),
            x < 16,
            y < 16,
        ensures
            final(self).wf(),
            final(self)@ == alu_step(old(self)@, x as int, y as int, n).0,
            res == alu_step(old(self)@, x as int, y as int, n).1,
    {
        let vx = self.registers[x];
        let vy = self.registers[y];
        if n == 0 {
            // 8XY0 - VX takes the value of VY
            self.registers.set(x, vy);
            proof {
                assert(self@ =~= alu_step(old(self)@, x as int, y as int, n).0);
            }
            Ok(())
        } else if n == 1 {
            // 8XY1 - VX takes VX OR VY
            self.registers.set(x, vx | vy);
            proof {
                assert(self@ =~= alu_step(old(self)@, x as int, y as int, n).0);
            }
            Ok(())
        } else if n == 2 {
            // 8XY2 - VX takes VX AND VY
            self.registers.set(x, vx & vy);
            proof {
                assert(self@ =~= alu_step(old(self)@, x as int, y as int, n).0);
            }
            Ok(())
        } else if n == 3 {
            // 8XY3 - VX takes VX XOR VY
            self.registers.set(x, vx ^ vy);
            proof {
                assert(self@ =~= alu_step(old(self)@, x as int, y as int, n).0);
            }
            Ok(())
        } else if n == 4 {
            // 8XY4 - VX takes VX + VY wrapping; VF reports the carry
            let sum: u16 = vx as u16 + vy as u16;
            self.registers.set(x, (sum % 256) as u8);
            self.registers.set(15, if sum > 255 { 0x01u8 } else { 0x00u8 });
            proof {
                assert(self@ =~= alu_step(old(self)@, x as int, y as int, n).0);
            }
            Ok(())
        } else if n == 5 {
            // 8XY5 - VX takes VX - VY wrapping; VF is 1 when nothing was
            // borrowed
            let diff: u16 = (vx as u16 + 256) - vy as u16;
            self.registers.set(x, (diff % 256) as u8);
            self.registers.set(15, if vx >= vy { 0x01u8 } else { 0x00u8 });
            proof {
                assert(self@ =~= alu_step(old(self)@, x as int, y as int, n).0);
            }
            Ok(())
        } else if n == 6 {
            // 8XY6 - VX takes VY shifted right; VF takes the bit shifted out
            self.registers.set(x, vy >> 1u8);
            self.registers.set(15, vy & 1);
            proof {
                assert(self@ =~= alu_step(old(self)@, x as int, y as int, n).0);
            }
            Ok(())
        } else if n == 7 {
            // 8XY7 - VX takes VY - VX wrapping; VF is 1 when nothing was
            // borrowed
            let diff: u16 = (vy as u16 + 256) - vx as u16;
            self.registers.set(x, (diff % 256) as u8);
            self.registers.set(15, if vy >= vx { 0x01u8 } else { 0x00u8 });
            proof {
                assert(self@ =~= alu_step(old(self)@, x as int, y as int, n).0);
            }
            Ok(())
        } else if n == 0xE {
            // 8XYE - VX takes VY shifted left; VF takes the bit shifted out
            self.registers.set(x, vy << 1u8);
            self.registers.set(15, if vy >= 128 { 0x01u8 } else { 0x00u8 });
            proof {
                assert(self@ =~= alu_step(old(self)@, x as int, y as int, n).0);
            }
            Ok(())
        } else {
            Err(EmulationErr::UnknownOpcode(self.opcode))
        }
    }
}

/// Relies on rand::thread_rng and rand::Rng::gen_range over the full byte
/// range: one random byte.  Nothing is promised of the value; every
/// caller must hold for every byte that can come back.
#[verifier::external_body]
fn random_byte() -> u8 {
    rand::thread_rng().gen_range(0..=255u8)
}

impl Chip8Emu {
    /// One fetch-decode-execute cycle.  The byte for the random-value
    /// instruction is drawn from the host's generator, so the contract
    /// promises exactly the transitions of [`cycle_step`] under some drawn
    /// byte; [`Self::step`] gives the same cycle with the byte pinned.
    pub fn emulate_cycle(&mut self) -> (res: Result<(), EmulationErr>)
        requires
            old(self).wf(),
            cycle_safe(old(self)@),
        ensures
            final(self).wf(),
            exists|rb: u8| (final(self)@, res) == #[trigger] cycle_step(old(self)@, rb),
    {
        let rb = random_byte();
        let res = self.step(rb);
        proof {
            assert((self@, res) == cycle_step(old(self)@, rb));
        }
        res
    }
}

} // verus!

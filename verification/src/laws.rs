//! The engine-wide laws: properties of whole cycles, stated over the
//! abstract machine of [`crate::semantics`] and proved from the spec
//! functions that the executable contracts use.

use vstd::prelude::*;

use crate::emulator::EmulationErr;
use crate::semantics::{
    cycle_safe, cycle_step, draw_byte_index, draw_row, draw_rows, fetched, first_pressed_from,
    lemma_opcode_groups, loaded_memory, op_n, op_nn, op_x, op_y, MachineView,
};

verus! {

/// The fetched instruction is one of those that overwrite the program
/// counter: a return, a jump, a call, a skip whose condition holds, or a
/// key-wait with no key down.
pub open spec fn overwrites_pc(s: MachineView) -> bool {
    let op = fetched(s);
    ||| op == 0x00EE
    ||| (0x1000 <= op && op <= 0x2FFF)
    ||| (0x3000 <= op && op <= 0x3FFF && s.registers[op_x(op)] == op_nn(op))
    ||| (0x4000 <= op && op <= 0x4FFF && s.registers[op_x(op)] != op_nn(op))
    ||| (0x5000 <= op && op <= 0x5FF0 && s.registers[op_x(op)] == s.registers[op_y(op)])
    ||| (0x9000 <= op && op <= 0x9FF0 && s.registers[op_x(op)] != s.registers[op_y(op)])
    ||| (0xB000 <= op && op <= 0xBFFF)
    ||| (op & 0xF0FF == 0xE09E && s.keys[(s.registers[op_x(op)] & 0x0F) as int])
    ||| (op & 0xF0FF == 0xE0A1 && !s.keys[(s.registers[op_x(op)] & 0x0F) as int])
    ||| (op & 0xF0FF == 0xF00A && first_pressed_from(s.keys, 0) is None)
}

/// Law: a cycle advances the program counter by exactly 2 before
/// dispatch, and only the handlers named by [`overwrites_pc`] — return,
/// jump, call, taken skips and the blocking key-wait — ever overwrite it.
#[verifier::rlimit(100)]
pub proof fn lemma_cycle_advances_pc(s: MachineView, rb: u8)
    requires
        s.wf(),
        cycle_safe(s),
        !overwrites_pc(s),
    ensures
        cycle_step(s, rb).0.pc == s.pc + 2,
{
    lemma_opcode_groups(fetched(s));
}

/// No key at or after position `i` is down, so the search for a pressed
/// key finds none.
proof fn lemma_no_key_pressed(keys: Seq<bool>, i: int)
    requires
        forall|j: int| 0 <= j < 16 ==> !keys[j],
    ensures
        first_pressed_from(keys, i) is None,
    decreases 16 - i,
{
    if 0 <= i < 16 {
        lemma_no_key_pressed(keys, i + 1);
    }
}

/// Law: the key-wait instruction makes no progress while no key is down.
/// The cycle succeeds but returns the machine exactly as it was, the
/// stored opcode aside — in particular the program counter is unchanged,
/// so repeated cycles re-execute the same instruction until a key event
/// arrives.
pub proof fn lemma_wait_key_blocks(s: MachineView, rb: u8)
    requires
        s.wf(),
        cycle_safe(s),
        fetched(s) & 0xF0FF == 0xF00A,
        forall|i: int| 0 <= i < 16 ==> !s.keys[i],
    ensures
        cycle_step(s, rb).0 == (MachineView { opcode: fetched(s), ..s }),
        cycle_step(s, rb).1 is Ok,
{
    lemma_opcode_groups(fetched(s));
    lemma_no_key_pressed(s.keys, 0);
    assert(cycle_step(s, rb).0 =~= (MachineView { opcode: fetched(s), ..s }));
}

/// Law: once a key is down, the key-wait instruction stores the lowest
/// pressed key index in VX and the program counter resumes advancing.
pub proof fn lemma_wait_key_captures(s: MachineView, rb: u8, k: u8)
    requires
        s.wf(),
        fetched(s) & 0xF0FF == 0xF00A,
        first_pressed_from(s.keys, 0) == Some(k),
    ensures
        cycle_step(s, rb).0 == (MachineView {
            opcode: fetched(s),
            pc: (s.pc + 2) as u16,
            registers: s.registers.update(op_x(fetched(s)), k),
            ..s
        }),
        cycle_step(s, rb).1 is Ok,
{
    lemma_opcode_groups(fetched(s));
    assert(cycle_step(s, rb).0 =~= (MachineView {
        opcode: fetched(s),
        pc: (s.pc + 2) as u16,
        registers: s.registers.update(op_x(fetched(s)), k),
        ..s
    }));
}

/// The fetched word matches some handler of the base instruction set.
pub open spec fn base_handled(op: u16) -> bool {
    ||| op == 0x00E0
    ||| op == 0x00EE
    ||| (0x1000 <= op && op <= 0x9FF0 && !(0x5FF0 < op && op < 0x6000) && !(0x8FFF < op && op
        < 0x9000))
    ||| (0xA000 <= op && op <= 0xDFFF)
    ||| op & 0xF0FF == 0xE09E
    ||| op & 0xF0FF == 0xE0A1
    ||| op & 0xF0FF == 0xF007
    ||| op & 0xF0FF == 0xF015
    ||| op & 0xF0FF == 0xF018
    ||| op & 0xF0FF == 0xF01E
    ||| op & 0xF0FF == 0xF00A
    ||| op & 0xF0FF == 0xF029
    ||| op & 0xF0FF == 0xF033
    ||| op & 0xF0FF == 0xF055
    ||| op & 0xF0FF == 0xF065
}

/// Law: with the SUPER-CHIP set disabled, an opcode that matches no base
/// handler fails with that opcode wrapped in the unknown-opcode
/// condition, and every component but the already-advanced program
/// counter and the stored opcode is left unchanged.
pub proof fn lemma_unknown_opcode(s: MachineView, rb: u8)
    requires
        s.wf(),
        !base_handled(fetched(s)),
        !s.quirks.superchip_opcodes,
    ensures
        cycle_step(s, rb).0 == (MachineView { opcode: fetched(s), pc: (s.pc + 2) as u16, ..s }),
        cycle_step(s, rb).1 == Err::<(), EmulationErr>(EmulationErr::UnknownOpcode(fetched(s))),
{
    assert(cycle_step(s, rb).0 =~= (MachineView {
        opcode: fetched(s),
        pc: (s.pc + 2) as u16,
        ..s
    }));
}

/// Law: the loader is a round trip.  Every loaded program byte inside
/// the 3584-byte program area reads back from offset 0x200 exactly, and
/// all memory outside the font table and the loaded region is zero.
pub proof fn lemma_loader_round_trip(rom: Seq<u8>)
    ensures
        forall|i: int|
            0 <= i < rom.len() && i < 3584 ==> loaded_memory(rom)[0x200 + i] == rom[i],
        forall|a: int| 0 <= a < 0x50 ==> loaded_memory(rom)[a] == 0u8,
        forall|a: int| 0xA0 <= a < 0x200 ==> loaded_memory(rom)[a] == 0u8,
        forall|a: int|
            0x200 + rom.len() <= a < 4096 ==> loaded_memory(rom)[a] == 0u8,
{
}


/// A value below 512 reduced modulo 256 either stays or drops by 256.
proof fn lemma_small_mod(a: int)
    requires
        0 <= a < 512,
    ensures
        a % 256 == if a < 256 {
            a
        } else {
            a - 256
        },
{
}

/// The destination byte of a sprite row lies in the framebuffer, and its
/// position modulo 8 is the byte column of the sprite, so the spill byte
/// of a sprite that needs one lies in the framebuffer too.
proof fn lemma_byte_index_range(cx: u8, cy: u8, row: int)
    requires
        cx < 64,
        cy < 32,
        0 <= row < 16,
    ensures
        0 <= draw_byte_index(cx, cy, row) < 256,
        cx < 56 ==> draw_byte_index(cx, cy, row) + 1 < 256,
{
    let a = (cy as int) * 8 + (cx as int) / 8 + row * 8;
    assert(a == 8 * (cy as int + row) + (cx as int) / 8);
    lemma_small_mod(a);
}

/// Distinct rows of one sprite draw land on distinct framebuffer bytes,
/// and neither row's spill byte is the other row's destination byte.
proof fn lemma_rows_distinct(cx: u8, cy: u8, j: int, k: int)
    requires
        cx < 64,
        cy < 32,
        0 <= j < 16,
        0 <= k < 16,
        j != k,
    ensures
        draw_byte_index(cx, cy, j) != draw_byte_index(cx, cy, k),
        draw_byte_index(cx, cy, j) + 1 != draw_byte_index(cx, cy, k),
        draw_byte_index(cx, cy, j) != draw_byte_index(cx, cy, k) + 1,
{
    let aj = (cy as int) * 8 + (cx as int) / 8 + j * 8;
    let ak = (cy as int) * 8 + (cx as int) / 8 + k * 8;
    lemma_small_mod(aj);
    lemma_small_mod(ak);
}

/// A sprite row leaves every framebuffer byte outside its own two bytes
/// unchanged.
proof fn lemma_draw_row_preserves(g: Seq<u8>, d: u8, cx: u8, cy: u8, row: int, b: int)
    requires
        g.len() == 256,
        cx < 64,
        cy < 32,
        0 <= row < 16,
        0 <= b < 256,
        b != draw_byte_index(cx, cy, row),
        b != draw_byte_index(cx, cy, row) + 1,
    ensures
        draw_row(g, d, cx, cy, row).0[b] == g[b],
        draw_row(g, d, cx, cy, row).0.len() == 256,
{
    lemma_byte_index_range(cx, cy, row);
}

/// Drawing the rows of one sprite keeps the framebuffer 256 bytes long.
proof fn lemma_draw_rows_len(g: Seq<u8>, mem: Seq<u8>, index: int, cx: u8, cy: u8, r: int)
    requires
        g.len() == 256,
        cx < 64,
        cy < 32,
        r <= 16,
    ensures
        draw_rows(g, mem, index, cx, cy, r).0.len() == 256,
    decreases r,
{
    if r > 0 {
        lemma_draw_rows_len(g, mem, index, cx, cy, r - 1);
        lemma_byte_index_range(cx, cy, r - 1);
    }
}

/// The rows from `m` up to `r` leave a byte that none of them writes
/// unchanged.
proof fn lemma_tail_rows_preserve(
    g: Seq<u8>,
    mem: Seq<u8>,
    index: int,
    cx: u8,
    cy: u8,
    m: int,
    r: int,
    b: int,
)
    requires
        g.len() == 256,
        cx < 64,
        cy < 32,
        0 <= m <= r <= 16,
        0 <= b < 256,
        forall|j: int|
            m <= j < r ==> b != draw_byte_index(cx, cy, j) && b != draw_byte_index(cx, cy, j) + 1,
    ensures
        draw_rows(g, mem, index, cx, cy, r).0[b] == draw_rows(g, mem, index, cx, cy, m).0[b],
    decreases r - m,
{
    if r > m {
        lemma_tail_rows_preserve(g, mem, index, cx, cy, m, r - 1, b);
        lemma_draw_rows_len(g, mem, index, cx, cy, r - 1);
        lemma_draw_row_preserves(
            draw_rows(g, mem, index, cx, cy, r - 1).0,
            mem[index + (r - 1)],
            cx,
            cy,
            r - 1,
            b,
        );
    }
}

/// Two sprite rows of one draw write disjoint bytes and read only their
/// own, so they commute.
proof fn lemma_draw_row_comm(g: Seq<u8>, d1: u8, j: int, d2: u8, k: int, cx: u8, cy: u8)
    requires
        g.len() == 256,
        cx < 64,
        cy < 32,
        0 <= j < 16,
        0 <= k < 16,
        j != k,
    ensures
        draw_row(draw_row(g, d1, cx, cy, j).0, d2, cx, cy, k).0 == draw_row(
            draw_row(g, d2, cx, cy, k).0,
            d1,
            cx,
            cy,
            j,
        ).0,
{
    lemma_byte_index_range(cx, cy, j);
    lemma_byte_index_range(cx, cy, k);
    lemma_rows_distinct(cx, cy, j, k);
    lemma_rows_distinct(cx, cy, k, j);
    assert(draw_row(draw_row(g, d1, cx, cy, j).0, d2, cx, cy, k).0 =~= draw_row(
        draw_row(g, d2, cx, cy, k).0,
        d1,
        cx,
        cy,
        j,
    ).0);
}

/// Drawing one later row first and the rows before `r` afterwards gives
/// the same framebuffer as drawing them the other way around.
proof fn lemma_rows_after_row(
    g: Seq<u8>,
    mem: Seq<u8>,
    index: int,
    cx: u8,
    cy: u8,
    r: int,
    d: u8,
    k: int,
)
    requires
        g.len() == 256,
        cx < 64,
        cy < 32,
        0 <= r <= k < 16,
    ensures
        draw_rows(draw_row(g, d, cx, cy, k).0, mem, index, cx, cy, r).0 == draw_row(
            draw_rows(g, mem, index, cx, cy, r).0,
            d,
            cx,
            cy,
            k,
        ).0,
    decreases r,
{
    lemma_byte_index_range(cx, cy, k);
    if r > 0 {
        lemma_rows_after_row(g, mem, index, cx, cy, r - 1, d, k);
        lemma_draw_rows_len(g, mem, index, cx, cy, r - 1);
        lemma_draw_row_comm(
            draw_rows(g, mem, index, cx, cy, r - 1).0,
            mem[index + (r - 1)],
            r - 1,
            d,
            k,
            cx,
            cy,
        );
    }
}

/// One sprite row XORed in twice restores its two bytes.
proof fn lemma_draw_row_self_inverse(g: Seq<u8>, d: u8, cx: u8, cy: u8, row: int)
    requires
        g.len() == 256,
        cx < 64,
        cy < 32,
        0 <= row < 16,
    ensures
        draw_row(draw_row(g, d, cx, cy, row).0, d, cx, cy, row).0 == g,
{
    lemma_byte_index_range(cx, cy, row);
    let shift = (cx % 8) as u8;
    assert(forall|a: u8, m: u8| (a ^ m) ^ m == a) by (bit_vector);
    assert(draw_row(draw_row(g, d, cx, cy, row).0, d, cx, cy, row).0 =~= g);
}

/// Law: the sprite draw is XOR self-inverse.  Drawing the same sprite —
/// the same rows, read from the same memory — twice at the same
/// coordinates returns the framebuffer to its state before the first
/// draw, whatever that state was.
pub proof fn lemma_draw_twice_restores(
    g: Seq<u8>,
    mem: Seq<u8>,
    index: int,
    cx: u8,
    cy: u8,
    r: int,
)
    requires
        g.len() == 256,
        cx < 64,
        cy < 32,
        0 <= r <= 15,
    ensures
        draw_rows(draw_rows(g, mem, index, cx, cy, r).0, mem, index, cx, cy, r).0 == g,
    decreases r,
{
    if r > 0 {
        let d = mem[index + (r - 1)];
        let prev = draw_rows(g, mem, index, cx, cy, r - 1).0;
        lemma_draw_twice_restores(g, mem, index, cx, cy, r - 1);
        lemma_draw_rows_len(g, mem, index, cx, cy, r - 1);
        lemma_draw_rows_len(g, mem, index, cx, cy, r);
        lemma_rows_after_row(prev, mem, index, cx, cy, r - 1, d, r - 1);
        lemma_draw_row_self_inverse(
            draw_rows(prev, mem, index, cx, cy, r - 1).0,
            d,
            cx,
            cy,
            r - 1,
        );
        assert(draw_rows(draw_rows(g, mem, index, cx, cy, r).0, mem, index, cx, cy, r).0
            == draw_row(
            draw_rows(draw_row(prev, d, cx, cy, r - 1).0, mem, index, cx, cy, r - 1).0,
            d,
            cx,
            cy,
            r - 1,
        ).0);
        assert(draw_rows(draw_row(prev, d, cx, cy, r - 1).0, mem, index, cx, cy, r - 1).0
            == draw_row(draw_rows(prev, mem, index, cx, cy, r - 1).0, d, cx, cy, r - 1).0);
        assert(draw_row(
            draw_row(draw_rows(prev, mem, index, cx, cy, r - 1).0, d, cx, cy, r - 1).0,
            d,
            cx,
            cy,
            r - 1,
        ).0 == draw_rows(prev, mem, index, cx, cy, r - 1).0);
    }
}

/// A row whose collision test fires makes the whole draw report a
/// collision.
proof fn lemma_rows_flag(g: Seq<u8>, mem: Seq<u8>, index: int, cx: u8, cy: u8, r: int, k: int)
    requires
        0 <= k < r,
        draw_row(draw_rows(g, mem, index, cx, cy, k).0, mem[index + k], cx, cy, k).1,
    ensures
        draw_rows(g, mem, index, cx, cy, r).1,
    decreases r,
{
    if k < r - 1 {
        lemma_rows_flag(g, mem, index, cx, cy, r - 1, k);
    }
}

/// Law: drawing the same sprite twice at the same coordinates makes the
/// second draw report a collision, provided some sprite row has a set
/// bit among those that land in its first destination byte, and that
/// byte starts clear.  (A row whose set bits all spill into the
/// neighbouring byte is invisible to the machine's collision test, which
/// reads the first byte alone.)
pub proof fn lemma_draw_twice_collides(
    g: Seq<u8>,
    mem: Seq<u8>,
    index: int,
    cx: u8,
    cy: u8,
    r: int,
    k: int,
)
    requires
        g.len() == 256,
        cx < 64,
        cy < 32,
        0 <= k < r <= 15,
        g[draw_byte_index(cx, cy, k)] == 0,
        mem[index + k] >> ((cx % 8) as u8) != 0,
    ensures
        draw_rows(draw_rows(g, mem, index, cx, cy, r).0, mem, index, cx, cy, r).1,
{
    let s = (cx % 8) as u8;
    let d = mem[index + k];
    let b = draw_byte_index(cx, cy, k);
    let first = draw_rows(g, mem, index, cx, cy, r).0;
    lemma_byte_index_range(cx, cy, k);
    lemma_draw_rows_len(g, mem, index, cx, cy, k);
    lemma_draw_rows_len(g, mem, index, cx, cy, k + 1);
    lemma_draw_rows_len(g, mem, index, cx, cy, r);

    // Before row `k` of the first draw, its destination byte still holds 0.
    assert(forall|j: int|
        0 <= j < k ==> b != draw_byte_index(cx, cy, j) && b != draw_byte_index(cx, cy, j)
            + 1) by {
        assert forall|j: int| 0 <= j < k implies b != draw_byte_index(cx, cy, j) && b
            != draw_byte_index(cx, cy, j) + 1 by {
            lemma_rows_distinct(cx, cy, k, j);
        }
    };
    lemma_tail_rows_preserve(g, mem, index, cx, cy, 0, k, b);
    assert(draw_rows(g, mem, index, cx, cy, k).0[b] == 0);

    // Row `k` writes its shifted data there, and no later row touches it.
    assert(draw_rows(g, mem, index, cx, cy, k + 1).0[b] == (0u8 ^ (d >> s)));
    assert(forall|j: int|
        k + 1 <= j < r ==> b != draw_byte_index(cx, cy, j) && b != draw_byte_index(cx, cy, j)
            + 1) by {
        assert forall|j: int| k + 1 <= j < r implies b != draw_byte_index(cx, cy, j) && b
            != draw_byte_index(cx, cy, j) + 1 by {
            lemma_rows_distinct(cx, cy, k, j);
        }
    };
    lemma_tail_rows_preserve(g, mem, index, cx, cy, k + 1, r, b);
    assert(first[b] == (0u8 ^ (d >> s)));

    // In the second draw the byte is untouched until row `k`, whose test
    // then finds the bits the first draw set.
    lemma_tail_rows_preserve(first, mem, index, cx, cy, 0, k, b);
    lemma_draw_rows_len(first, mem, index, cx, cy, k);
    assert(draw_rows(first, mem, index, cx, cy, k).0[b] == (0u8 ^ (d >> s)));
    assert(s < 8);
    assert(d >> s != 0 ==> (((0u8 ^ (d >> s)) << s) & d) != 0) by (bit_vector)
        requires
            s < 8,
    ;
    assert(draw_row(draw_rows(first, mem, index, cx, cy, k).0, mem[index + k], cx, cy, k).1);
    lemma_rows_flag(first, mem, index, cx, cy, r, k);
}


} // verus!

//! Facts about single steps, proved from the definition of a step.

use crate::cpu::{fetch_in_bounds, spec_step, Machine, StepError};
use crate::display::{
    col_offset, collides, drawn, lemma_col_offset, lemma_offsets_in_range, lemma_row_offset,
    pixel_index, row_offset, sprite_bit, sprite_lit,
};
use vstd::prelude::*;

verus! {

/// The register index in the low nibble of the first byte of the word at the
/// program counter.
pub open spec fn operand_a(m: Machine) -> int {
    m.memory[m.pc as int] as int % 16
}

/// The register index in the high nibble of the second byte of the word at
/// the program counter.
pub open spec fn operand_b(m: Machine) -> int {
    m.memory[m.pc + 1] as int / 16
}

/// The family of the word at the program counter: the high nibble of its
/// first byte.
pub open spec fn family(m: Machine) -> int {
    m.memory[m.pc as int] as int / 16
}

/// Whether the skip instruction at the program counter skips: families 3 and
/// 4 compare a register with the second byte, families 5 and 9 compare two
/// registers; 3 and 5 skip on equal, 4 and 9 on unequal.
pub open spec fn skip_taken(m: Machine) -> bool {
    let a = m.var_regs[operand_a(m)];
    let b = m.var_regs[operand_b(m)];
    let imm = m.memory[m.pc + 1];
    if family(m) == 0x3 {
        a == imm
    } else if family(m) == 0x4 {
        a != imm
    } else if family(m) == 0x5 {
        a == b
    } else {
        a != b
    }
}

/// A jump sets the program counter to exactly the 12-bit address that the
/// instruction encodes, and changes nothing else.
pub proof fn jump_sets_pc(m: Machine, random: u8, addr: u16)
    requires
        m.wf(),
        fetch_in_bounds(m),
        addr < 4096,
        m.memory[m.pc as int] == 0x10 + addr / 256,
        m.memory[m.pc + 1] == addr % 256,
    ensures
        spec_step(m, random) == Ok::<Machine, StepError>(Machine { pc: addr, ..m }),
{
}

/// A call pushes the address of the instruction after it and continues at
/// the address it encodes; a return fetched there brings the program counter
/// back to the pushed address and leaves the stack as it was before the
/// call.
pub proof fn call_then_return_restores_pc(m: Machine, random: u8, addr: u16)
    requires
        m.wf(),
        fetch_in_bounds(m),
        addr < 4095,
        m.memory[m.pc as int] == 0x20 + addr / 256,
        m.memory[m.pc + 1] == addr % 256,
        m.memory[addr as int] == 0x00,
        m.memory[addr + 1] == 0xEE,
    ensures
        spec_step(m, random) == Ok::<Machine, StepError>(
            Machine { pc: addr, stack: m.stack.push((m.pc + 2) as u16), ..m },
        ),
        spec_step(spec_step(m, random)->Ok_0, random) == Ok::<Machine, StepError>(
            Machine { pc: (m.pc + 2) as u16, ..m },
        ),
{
    let called = Machine { pc: addr, stack: m.stack.push((m.pc + 2) as u16), ..m };
    assert(spec_step(m, random) == Ok::<Machine, StepError>(called));
    assert(called.stack.drop_last() =~= m.stack);
}

/// A skip instruction moves the program counter by exactly 4 when it skips
/// and by exactly 2 when it does not, and changes nothing else.
pub proof fn skip_advances_pc(m: Machine, random: u8)
    requires
        m.wf(),
        fetch_in_bounds(m),
        family(m) == 0x3 || family(m) == 0x4 || family(m) == 0x5 || family(m) == 0x9,
    ensures
        skip_taken(m) ==> spec_step(m, random) == Ok::<Machine, StepError>(
            Machine { pc: (m.pc + 4) as u16, ..m },
        ),
        !skip_taken(m) ==> spec_step(m, random) == Ok::<Machine, StepError>(
            Machine { pc: (m.pc + 2) as u16, ..m },
        ),
{
}

/// After a random-and-mask instruction the destination register holds no bit
/// outside the mask, whatever byte the random source gave; nothing else
/// changes but the program counter, which moves by 2.
pub proof fn random_is_masked(m: Machine, random: u8)
    requires
        m.wf(),
        fetch_in_bounds(m),
        family(m) == 0xC,
    ensures
        spec_step(m, random) is Ok,
        spec_step(m, random)->Ok_0 == (Machine {
            pc: (m.pc + 2) as u16,
            var_regs: m.var_regs.update(operand_a(m), random & m.memory[m.pc + 1]),
            ..m
        }),
        spec_step(m, random)->Ok_0.var_regs[operand_a(m)] & !m.memory[m.pc + 1] == 0,
{
    let mask = m.memory[m.pc + 1];
    assert((random & mask) & !mask == 0) by (bit_vector);
}

/// Drawing a sprite flips the pixel `j` columns right of and `i` rows below
/// its origin exactly when bit `j` of sprite row `i` is set, with columns and
/// rows taken round the edges.
pub proof fn drawn_pixel(before: Seq<bool>, x: u8, y: u8, sprite: Seq<u8>, i: int, j: int)
    requires
        before.len() == 2048,
        sprite.len() <= 32,
        0 <= i < sprite.len(),
        0 <= j < 8,
    ensures
        0 <= pixel_index(x + j, y + i) < 2048,
        drawn(before, x, y, sprite)[pixel_index(x + j, y + i)] == (before[pixel_index(
            x + j,
            y + i,
        )] != sprite_bit(sprite[i], j)),
{
    let row = (y + i) % 32;
    lemma_col_offset(x, row, j);
    lemma_row_offset(y, i);
    assert(pixel_index(x + j, y + i) == pixel_index(x + j, row));
}

/// Bit `j` of sprite row `i` is set and falls on a pixel that is lit in
/// `before`, the sprite's origin being column `x` of row `y`.
pub open spec fn bit_on_lit_pixel(
    before: Seq<bool>,
    x: u8,
    y: u8,
    sprite: Seq<u8>,
    i: int,
    j: int,
) -> bool {
    &&& 0 <= i < sprite.len()
    &&& 0 <= j < 8
    &&& sprite_bit(sprite[i], j)
    &&& before[pixel_index(x + j, y + i)]
}

/// A draw collides exactly when some set bit of the sprite falls on a pixel
/// that was lit.
pub proof fn collides_on_lit_pixel(before: Seq<bool>, x: u8, y: u8, sprite: Seq<u8>)
    requires
        before.len() == 2048,
        sprite.len() <= 32,
    ensures
        collides(before, x, y, sprite) <==> exists|i: int, j: int| #[trigger]
            bit_on_lit_pixel(before, x, y, sprite, i, j),
{
    if collides(before, x, y, sprite) {
        let p = choose|p: int| 0 <= p < 2048 && before[p] && #[trigger] sprite_lit(x, y, sprite, p);
        let i = row_offset(y, p);
        let j = col_offset(x, p);
        lemma_offsets_in_range(x, y);
        lemma_row_offset(y, i);
        lemma_col_offset(x, p / 64, j);
        assert(pixel_index(x + j, y + i) == pixel_index(x + j, p / 64));
        assert(bit_on_lit_pixel(before, x, y, sprite, i, j));
    }
    if exists|i: int, j: int| #[trigger] bit_on_lit_pixel(before, x, y, sprite, i, j) {
        let (i, j) = choose|i: int, j: int| #[trigger]
            bit_on_lit_pixel(before, x, y, sprite, i, j);
        let p = pixel_index(x + j, y + i);
        lemma_row_offset(y, i);
        lemma_col_offset(x, (y + i) % 32, j);
        assert(p == pixel_index(x + j, (y + i) % 32));
        assert(sprite_lit(x, y, sprite, p));
    }
}

/// Drawing a sprite leaves every pixel outside its 8-column, `sprite.len()`-row
/// rectangle as it was.
pub proof fn drawn_outside(before: Seq<bool>, x: u8, y: u8, sprite: Seq<u8>, p: int)
    requires
        before.len() == 2048,
        0 <= p < 2048,
        col_offset(x, p) >= 8 || row_offset(y, p) >= sprite.len(),
    ensures
        drawn(before, x, y, sprite)[p] == before[p],
{
}

} // verus!

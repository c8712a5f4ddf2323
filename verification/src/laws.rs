//! Laws relating successive machine steps: what a jump means for the next
//! fetch, when the add-immediate opcode is a no-op, and how a draw near the
//! display edge clips.
use vstd::prelude::*;

use crate::decode::{op_family, op_n, op_nn, op_nnn, op_x};
use crate::font::font_seq;
use crate::vm::{
    draw_hits, draw_x0, draw_y0, pixel, spec_instruction, step_spec, word_at, wrap_add, Chip8VM,
};

verus! {

/// Law: no step writes memory, so a machine whose font region holds the
/// font table still holds it after any supported instruction — the region
/// 0x50..0xA0 keeps the font for the lifetime of the machine as long as no
/// program is loaded over it.
pub proof fn lemma_font_preserved(pre: Chip8VM, post: Chip8VM, w: u16)
    requires
        step_spec(pre, post, w),
        forall|i: int| 0x50 <= i < 0xA0 ==> pre.memory@[i] == font_seq()[i - 0x50],
    ensures
        forall|i: int| 0x50 <= i < 0xA0 ==> post.memory@[i] == font_seq()[i - 0x50],
{
}

/// Law: a jump sets the program counter to exactly NNN, and the next fetch
/// therefore reads the instruction word stored at address NNN.
pub proof fn lemma_jump_then_fetch(pre: Chip8VM, post: Chip8VM)
    requires
        op_family(spec_instruction(pre)) == 0x1,
        step_spec(pre, post, spec_instruction(pre)),
    ensures
        post.registers.PC == op_nnn(spec_instruction(pre)),
        spec_instruction(post) == word_at(pre.memory@, op_nnn(spec_instruction(pre)) as int),
{
}

/// Law: adding an immediate of zero leaves every general-purpose register as
/// it was, so repeating it any number of times changes nothing — the opcode
/// is idempotent when NN is zero, and it never touches a flag.
pub proof fn lemma_add_zero_keeps_registers(pre: Chip8VM, post: Chip8VM)
    requires
        op_family(spec_instruction(pre)) == 0x7,
        op_nn(spec_instruction(pre)) == 0,
        step_spec(pre, post, spec_instruction(pre)),
    ensures
        post.registers.general_purpose@ == pre.registers.general_purpose@,
{
    let w = spec_instruction(pre);
    let x = op_x(w) as int;
    assert(wrap_add(pre.registers.general_purpose@[x], 0) == pre.registers.general_purpose@[x]);
    assert(post.registers.general_purpose@ =~= pre.registers.general_purpose@);
}

/// Law: a draw clips at the display edges instead of wrapping — every cell
/// outside the sprite's clipped target rectangle keeps its prior state, so a
/// sprite aimed past the right or bottom edge touches only in-bounds cells
/// and never reappears on the opposite side.
pub proof fn lemma_draw_clips(pre: Chip8VM, post: Chip8VM, x: int, y: int)
    requires
        op_family(spec_instruction(pre)) == 0xD,
        step_spec(pre, post, spec_instruction(pre)),
        0 <= x < 64,
        0 <= y < 32,
        x < draw_x0(pre, spec_instruction(pre)) || x >= draw_x0(pre, spec_instruction(pre)) + 8
            || y < draw_y0(pre, spec_instruction(pre)) || y >= draw_y0(pre, spec_instruction(pre))
            + op_n(spec_instruction(pre)),
    ensures
        pixel(post, x, y) == pixel(pre, x, y),
{
    let w = spec_instruction(pre);
    assert(!draw_hits(
        pre.memory@,
        pre.registers.I as int,
        draw_x0(pre, w),
        draw_y0(pre, w),
        op_n(w) as int,
        x,
        y,
    ));
}

} // verus!

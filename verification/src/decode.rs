//! Instruction decoding: a 16-bit instruction word splits into the opcode
//! family (top nibble), two register indices X and Y, a 4-bit immediate N,
//! an 8-bit immediate NN, and a 12-bit address NNN.
use vstd::prelude::*;

verus! {

/// Opcode family: bits 12..=15 of the instruction word.
pub open spec fn op_family(w: u16) -> u16 {
    w / 0x1000
}

/// Register index X: bits 8..=11 of the instruction word.
pub open spec fn op_x(w: u16) -> u16 {
    (w / 0x100) % 0x10
}

/// Register index Y: bits 4..=7 of the instruction word.
pub open spec fn op_y(w: u16) -> u16 {
    (w / 0x10) % 0x10
}

/// Immediate N: bits 0..=3 of the instruction word.
pub open spec fn op_n(w: u16) -> u16 {
    w % 0x10
}

/// Immediate NN: bits 0..=7 of the instruction word.
pub open spec fn op_nn(w: u16) -> u16 {
    w % 0x100
}

/// Address NNN: bits 0..=11 of the instruction word.
pub open spec fn op_nnn(w: u16) -> u16 {
    w % 0x1000
}

/// The implemented instruction subset: clear-display (00E0), jump (1NNN),
/// load immediate (6XNN), add immediate (7XNN), set address register (ANNN),
/// and draw sprite (DXYN). Every other word is unsupported.
pub open spec fn op_supported(w: u16) -> bool {
    ||| (op_family(w) == 0x0 && op_nnn(w) == 0x0E0)
    ||| op_family(w) == 0x1
    ||| op_family(w) == 0x6
    ||| op_family(w) == 0x7
    ||| op_family(w) == 0xA
    ||| op_family(w) == 0xD
}

/// Law: for every 16-bit word, the decoded fields coincide with direct
/// bit-masking — family = bits 12..=15, X = bits 8..=11, Y = bits 4..=7,
/// N = bits 0..=3, NN = bits 0..=7, NNN = bits 0..=11.
pub proof fn lemma_decode_matches_masks(w: u16)
    ensures
        op_family(w) == (w & 0xF000) >> 12,
        op_x(w) == (w & 0x0F00) >> 8,
        op_y(w) == (w & 0x00F0) >> 4,
        op_n(w) == w & 0x000F,
        op_nn(w) == w & 0x00FF,
        op_nnn(w) == w & 0x0FFF,
{
    assert(w / 0x1000 == (w & 0xF000) >> 12) by (bit_vector);
    assert((w / 0x100) % 0x10 == (w & 0x0F00) >> 8) by (bit_vector);
    assert((w / 0x10) % 0x10 == (w & 0x00F0) >> 4) by (bit_vector);
    assert(w % 0x10 == w & 0x000F) by (bit_vector);
    assert(w % 0x100 == w & 0x00FF) by (bit_vector);
    assert(w % 0x1000 == w & 0x0FFF) by (bit_vector);
}

/// Law: an instruction word whose family nibble is 0x2, 0x3, 0x4, 0x5, 0x8,
/// 0x9, 0xB, 0xC, 0xE or 0xF is never supported, whatever its low bits hold.
pub proof fn lemma_unsupported_families(w: u16)
    requires
        op_family(w) == 0x2 || op_family(w) == 0x3 || op_family(w) == 0x4 || op_family(w) == 0x5
            || op_family(w) == 0x8 || op_family(w) == 0x9 || op_family(w) == 0xB || op_family(w)
            == 0xC || op_family(w) == 0xE || op_family(w) == 0xF,
    ensures
        !op_supported(w),
{
}

} // verus!

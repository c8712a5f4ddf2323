//! The virtual machine core: a 4096-byte memory, the register file, the
//! 64x32 display buffer, and the fetch-decode-execute step.
use vstd::prelude::*;

use crate::decode::{
    lemma_decode_matches_masks, op_family, op_n, op_nn, op_nnn, op_supported, op_x, op_y,
};
use crate::font::{font_seq, font_table};

verus! {

/// The register file: sixteen 8-bit general-purpose registers V0..VF (VF
/// doubles as the draw collision flag), the 16-bit address register I (only
/// its low 12 bits are meaningful), the delay and sound timers DT and ST
/// (held but never decremented by this core), the program counter, the stack
/// pointer, and a sixteen-entry stack of return addresses.
pub struct Registers {
    pub general_purpose: [u8; 16],
    pub I: u16,
    pub DT: u8,
    pub ST: u8,
    pub PC: usize,
    pub SP: u8,
    pub stack: [u16; 16],
}

impl Registers {
    /// Every register zeroed, except the program counter, which starts at
    /// 0x200, the conventional program origin.
    pub fn new() -> (r: Registers)
        ensures
            forall|i: int| 0 <= i < 16 ==> r.general_purpose@[i] == 0u8,
            r.I == 0u16,
            r.DT == 0u8,
            r.ST == 0u8,
            r.PC == 0x200usize,
            r.SP == 0u8,
            forall|i: int| 0 <= i < 16 ==> r.stack@[i] == 0u16,
    {
        Registers {
            general_purpose: [0; 16],
            I: 0,
            DT: 0,
            ST: 0,
            PC: 0x200,
            SP: 0,
            stack: [0; 16],
        }
    }
}

/// The single failure a step can report: the fetched instruction word does
/// not belong to the implemented subset. It is detected before any state
/// changes, so a failed step leaves the machine exactly as it was.
#[derive(Clone, Copy, Debug, PartialEq, Eq, Structural)]
pub enum VmError {
    UnsupportedOpcode(u16),
}

/// The machine: memory, registers, display buffer, and the two fields the
/// external driver consults for pacing — the tick rate and the run flag.
pub struct Chip8VM {
    pub memory: [u8; 4096],
    pub registers: Registers,
    pub display_buffer: [[bool; 32]; 64],
    pub tick_rate: u16,
    pub running: bool,
}

/// The big-endian 16-bit word formed by the two memory bytes at `pc`.
pub open spec fn word_at(mem: Seq<u8>, pc: int) -> u16
    recommends
        0 <= pc,
        pc + 1 < mem.len(),
{
    (mem[pc] * 256 + mem[pc + 1]) as u16
}

/// The instruction word the next step will fetch: the two bytes at the
/// program counter, big-endian.
pub open spec fn spec_instruction(vm: Chip8VM) -> u16 {
    word_at(vm.memory@, vm.registers.PC as int)
}

/// The state of the display cell at column `x`, row `y`.
pub open spec fn pixel(vm: Chip8VM, x: int, y: int) -> bool
    recommends
        0 <= x < 64,
        0 <= y < 32,
{
    vm.display_buffer@[x]@[y]
}

/// The mask selecting bit `k` of a sprite byte, most significant bit first.
pub open spec fn bit_mask(k: int) -> u8
    recommends
        0 <= k < 8,
{
    if k == 0 {
        0x80u8
    } else if k == 1 {
        0x40u8
    } else if k == 2 {
        0x20u8
    } else if k == 3 {
        0x10u8
    } else if k == 4 {
        0x08u8
    } else if k == 5 {
        0x04u8
    } else if k == 6 {
        0x02u8
    } else {
        0x01u8
    }
}

/// Whether bit `k` (most significant first) of sprite byte `b` is set.
pub open spec fn sprite_bit(b: u8, k: int) -> bool
    recommends
        0 <= k < 8,
{
    b & bit_mask(k) != 0
}

/// Whether a draw of `rows` sprite rows read from memory at `ireg`, with its
/// top-left corner at `(x0, y0)`, toggles the cell `(x, y)`. Cells beyond the
/// right or bottom edge are never toggled: the draw clips, it does not wrap.
pub open spec fn draw_hits(
    mem: Seq<u8>,
    ireg: int,
    x0: int,
    y0: int,
    rows: int,
    x: int,
    y: int,
) -> bool
    recommends
        0 <= x < 64,
        0 <= y < 32,
{
    &&& x0 <= x < x0 + 8
    &&& y0 <= y < y0 + rows
    &&& sprite_bit(mem[ireg + (y - y0)], x - x0)
}

/// The starting column of the draw instruction `w` in state `pre`: the value
/// of register VX, taken modulo the display width.
pub open spec fn draw_x0(pre: Chip8VM, w: u16) -> int {
    (pre.registers.general_purpose@[op_x(w) as int] % 64) as int
}

/// The starting row of the draw instruction `w` in state `pre`: the value of
/// register VY, taken modulo the display height.
pub open spec fn draw_y0(pre: Chip8VM, w: u16) -> int {
    (pre.registers.general_purpose@[op_y(w) as int] % 32) as int
}

/// Whether the draw instruction `w`, executed in state `pre`, turns some lit
/// cell off — the condition under which it sets the collision flag VF.
pub open spec fn draw_collides(pre: Chip8VM, w: u16) -> bool {
    exists|x: int, y: int|
        0 <= x < 64 && 0 <= y < 32 && #[trigger] draw_hits(
            pre.memory@,
            pre.registers.I as int,
            draw_x0(pre, w),
            draw_y0(pre, w),
            op_n(w) as int,
            x,
            y,
        ) && pixel(pre, x, y)
}

/// 8-bit wraparound addition, the arithmetic of the add-immediate opcode.
pub open spec fn wrap_add(a: u8, b: u8) -> u8 {
    ((a + b) % 256) as u8
}

/// The cells a partially executed draw has toggled so far: every cell of the
/// `rows_done` fully processed sprite rows, plus the first `cols_done` sprite
/// columns of the row currently being processed.
spec fn hit_before(
    mem: Seq<u8>,
    ireg: int,
    x0: int,
    y0: int,
    rows_done: int,
    cols_done: int,
    x: int,
    y: int,
) -> bool {
    ||| draw_hits(mem, ireg, x0, y0, rows_done, x, y)
    ||| (y == y0 + rows_done && x0 <= x < x0 + cols_done && sprite_bit(
        mem[ireg + rows_done],
        x - x0,
    ))
}

/// A draw that has completed no column of a row has toggled exactly the
/// cells of the rows before it.
proof fn lemma_row_start(mem: Seq<u8>, ireg: int, x0: int, y0: int, rows: int)
    ensures
        forall|px: int, py: int|
            #[trigger] hit_before(mem, ireg, x0, y0, rows, 0, px, py) == draw_hits(
                mem,
                ireg,
                x0,
                y0,
                rows,
                px,
                py,
            ),
{
}

/// Finishing the columns of one row — all eight, or as many as fit left of
/// the right edge — toggles the same in-range cells as one more full row.
proof fn lemma_row_end(mem: Seq<u8>, ireg: int, x0: int, y0: int, row: int, cols: int)
    requires
        0 <= row,
        cols == 8 || (x0 + cols == 64 && 0 <= cols < 8),
    ensures
        forall|px: int, py: int|
            0 <= px < 64 ==> (#[trigger] hit_before(mem, ireg, x0, y0, row, cols, px, py)
                == hit_before(mem, ireg, x0, y0, row + 1, 0, px, py)),
{
}

/// Rows clipped at the bottom edge toggle no in-range cell: a draw of
/// `max_rows` rows and one of `rows` rows agree on the whole display.
proof fn lemma_clip_rows(mem: Seq<u8>, ireg: int, x0: int, y0: int, max_rows: int, rows: int)
    requires
        max_rows == rows || (y0 + max_rows == 32 && 0 <= max_rows <= rows),
    ensures
        forall|px: int, py: int|
            0 <= py < 32 ==> (#[trigger] hit_before(mem, ireg, x0, y0, max_rows, 0, px, py)
                == hit_before(mem, ireg, x0, y0, rows, 0, px, py)),
{
}

/// Two draw stages that toggle the same cells find a lit cell among them
/// under exactly the same circumstances.
proof fn lemma_collides_transfer(
    d: Seq<[bool; 32]>,
    mem: Seq<u8>,
    ireg: int,
    x0: int,
    y0: int,
    ra: int,
    ca: int,
    rb: int,
    cb: int,
)
    requires
        forall|px: int, py: int|
            0 <= px < 64 && 0 <= py < 32 ==> (#[trigger] hit_before(
                mem,
                ireg,
                x0,
                y0,
                ra,
                ca,
                px,
                py,
            ) == hit_before(mem, ireg, x0, y0, rb, cb, px, py)),
    ensures
        (exists|px: int, py: int|
            0 <= px < 64 && 0 <= py < 32 && #[trigger] hit_before(
                mem,
                ireg,
                x0,
                y0,
                ra,
                ca,
                px,
                py,
            ) && d[px]@[py]) <==> (exists|px: int, py: int|
            0 <= px < 64 && 0 <= py < 32 && #[trigger] hit_before(
                mem,
                ireg,
                x0,
                y0,
                rb,
                cb,
                px,
                py,
            ) && d[px]@[py]),
{
    if exists|px: int, py: int|
        0 <= px < 64 && 0 <= py < 32 && #[trigger] hit_before(mem, ireg, x0, y0, ra, ca, px, py)
            && d[px]@[py] {
        let (px, py) = choose|px: int, py: int|
            0 <= px < 64 && 0 <= py < 32 && #[trigger] hit_before(
                mem,
                ireg,
                x0,
                y0,
                ra,
                ca,
                px,
                py,
            ) && d[px]@[py];
        assert(hit_before(mem, ireg, x0, y0, rb, cb, px, py));
    }
    if exists|px: int, py: int|
        0 <= px < 64 && 0 <= py < 32 && #[trigger] hit_before(mem, ireg, x0, y0, rb, cb, px, py)
            && d[px]@[py] {
        let (px, py) = choose|px: int, py: int|
            0 <= px < 64 && 0 <= py < 32 && #[trigger] hit_before(
                mem,
                ireg,
                x0,
                y0,
                rb,
                cb,
                px,
                py,
            ) && d[px]@[py];
        assert(hit_before(mem, ireg, x0, y0, ra, ca, px, py));
    }
}

/// How one successful step on the supported instruction word `w` transforms
/// the machine state `pre` into `post`. Memory, the timers, the stack and the
/// pacing fields never change; the program counter advances by two, except
/// that a jump sets it to NNN outright; and the affected register, address
/// register or display cells change exactly as the opcode family prescribes.
pub open spec fn step_spec(pre: Chip8VM, post: Chip8VM, w: u16) -> bool {
    let f = op_family(w);
    &&& post.memory@ == pre.memory@
    &&& post.tick_rate == pre.tick_rate
    &&& post.running == pre.running
    &&& post.registers.DT == pre.registers.DT
    &&& post.registers.ST == pre.registers.ST
    &&& post.registers.SP == pre.registers.SP
    &&& post.registers.stack@ == pre.registers.stack@
    &&& post.registers.PC == if f == 0x1 {
        op_nnn(w) as int
    } else {
        pre.registers.PC + 2
    }
    &&& post.registers.I == if f == 0xA {
        op_nnn(w)
    } else {
        pre.registers.I
    }
    &&& post.registers.general_purpose@ == if f == 0x6 {
        pre.registers.general_purpose@.update(op_x(w) as int, op_nn(w) as u8)
    } else if f == 0x7 {
        pre.registers.general_purpose@.update(
            op_x(w) as int,
            wrap_add(pre.registers.general_purpose@[op_x(w) as int], op_nn(w) as u8),
        )
    } else if f == 0xD {
        pre.registers.general_purpose@.update(
            15,
            if draw_collides(pre, w) {
                1u8
            } else {
                0u8
            },
        )
    } else {
        pre.registers.general_purpose@
    }
    &&& if f == 0x0 {
        forall|x: int, y: int| 0 <= x < 64 && 0 <= y < 32 ==> !pixel(post, x, y)
    } else if f == 0xD {
        forall|x: int, y: int|
            0 <= x < 64 && 0 <= y < 32 ==> pixel(post, x, y) == (pixel(pre, x, y)
                != draw_hits(
                pre.memory@,
                pre.registers.I as int,
                draw_x0(pre, w),
                draw_y0(pre, w),
                op_n(w) as int,
                x,
                y,
            ))
    } else {
        post.display_buffer@ == pre.display_buffer@
    }
}

impl Chip8VM {
    /// A freshly constructed machine: memory all zero except for the font
    /// table at 0x50..0xA0, registers defaulted with the program counter at
    /// 0x200, every display cell off, the tick rate at its default of 10
    /// steps per time unit, and the run flag down.
    pub fn new() -> (vm: Chip8VM)
        ensures
            forall|i: int|
                0 <= i < 4096 ==> vm.memory@[i] == (if 0x50 <= i < 0xA0 {
                    font_seq()[i - 0x50]
                } else {
                    0u8
                }),
            forall|i: int| 0 <= i < 16 ==> vm.registers.general_purpose@[i] == 0u8,
            vm.registers.I == 0u16,
            vm.registers.DT == 0u8,
            vm.registers.ST == 0u8,
            vm.registers.PC == 0x200usize,
            vm.registers.SP == 0u8,
            forall|i: int| 0 <= i < 16 ==> vm.registers.stack@[i] == 0u16,
            forall|x: int, y: int| 0 <= x < 64 && 0 <= y < 32 ==> !vm.display_buffer@[x]@[y],
            vm.tick_rate == 10u16,
            vm.running == false,
    {
        let mut memory: [u8; 4096] = [0; 4096];
        let table: [u8; 80] = font_table();
        let mut i: usize = 0;
        while i < 80
            invariant
                i <= 80,
                table@ == font_seq(),
                forall|j: int| 0 <= j < i ==> memory@[0x50 + j] == font_seq()[j],
                forall|k: int| 0 <= k < 4096 && !(0x50 <= k < 0x50 + i) ==> memory@[k] == 0u8,
            decreases 80 - i,
        {
            memory[0x50 + i] = table[i];
            i = i + 1;
        }
        Chip8VM {
            memory,
            registers: Registers::new(),
            display_buffer: [[false; 32]; 64],
            tick_rate: 10,
            running: false,
        }
    }

    /// The instruction word at the program counter: the byte at PC is the
    /// high half, the byte at PC + 1 the low half.
    pub fn instruction(&self) -> (w: u16)
        requires
            self.registers.PC + 1 < 4096,
        ensures
            w == spec_instruction(*self),
    {
        let left: u16 = self.memory[self.registers.PC] as u16;
        let right: u16 = self.memory[self.registers.PC + 1] as u16;
        let w: u16 = left << 8 | right;
        proof {
            assert(w == left * 256 + right) by (bit_vector)
                requires
                    left < 256,
                    right < 256,
                    w == left << 8u16 | right,
            ;
        }
        w
    }

    /// One fetch-decode-execute cycle. The instruction word at the program
    /// counter is fetched and decoded; an unsupported word is reported as an
    /// error before any state has changed. A supported word is executed as
    /// `step_spec` prescribes: the program counter advances by two (a jump
    /// sets it to NNN instead), and exactly the state the opcode owns —
    /// one register, the address register, or the display buffer — changes.
    #[verifier::loop_isolation(false)]
    #[verifier::rlimit(100)]
    pub fn tick(&mut self) -> (r: Result<(), VmError>)
        requires
            old(self).registers.PC + 1 < 4096,
            op_family(spec_instruction(*old(self))) == 0xD ==> old(self).registers.I + op_n(
                spec_instruction(*old(self)),
            ) <= 4096,
        ensures
            op_supported(spec_instruction(*old(self))) ==> r == Ok::<(), VmError>(())
                && step_spec(*old(self), *final (self), spec_instruction(*old(self))),
            !op_supported(spec_instruction(*old(self))) ==> r == Err::<(), VmError>(
                VmError::UnsupportedOpcode(spec_instruction(*old(self))),
            ) && *final (self) == *old(self),
    {
        let w: u16 = self.instruction();
        let family: u16 = (w & 0xF000) >> 12;
        let xi: usize = ((w & 0x0F00) >> 8) as usize;
        let yi: usize = ((w & 0x00F0) >> 4) as usize;
        let n: u16 = w & 0x000F;
        let nn: u8 = (w & 0x00FF) as u8;
        let nnn: u16 = w & 0x0FFF;
        proof {
            lemma_decode_matches_masks(w);
        }
        if !(family == 0x1 || family == 0x6 || family == 0x7 || family == 0xA || family == 0xD || (
        family == 0x0 && nnn == 0x0E0)) {
            return Err(VmError::UnsupportedOpcode(w));
        }
        self.registers.PC = self.registers.PC + 2;
        match family {
            0x0 => {
                self.display_buffer = [[false; 32]; 64];
                proof {
                    assert forall|x: int, y: int| 0 <= x < 64 && 0 <= y < 32 implies !pixel(
                        *self,
                        x,
                        y,
                    ) by {
                        assert(self.display_buffer@[x]@[y] == false);
                    }
                }
            },
            0x1 => {
                self.registers.PC = nnn as usize;
            },
            0x6 => {
                self.registers.general_purpose[xi] = nn;
            },
            0x7 => {
                let vx: u8 = self.registers.general_purpose[xi];
                self.registers.general_purpose[xi] = vx.wrapping_add(nn);
            },
            0xA => {
                self.registers.I = nnn;
            },
            _ => {
                assert(family == 0xD);
                let x0: usize = (self.registers.general_purpose[xi] % 64) as usize;
                let y0: usize = (self.registers.general_purpose[yi] % 32) as usize;
                let ireg: usize = self.registers.I as usize;
                let rows: usize = n as usize;
                let max_rows: usize = if rows < 32 - y0 {
                    rows
                } else {
                    32 - y0
                };
                let max_cols: usize = if 64 - x0 < 8 {
                    64 - x0
                } else {
                    8
                };
                let ghost mem = self.memory@;
                let ghost d0 = self.display_buffer@;
                let ghost gi = ireg as int;
                let ghost gx0 = x0 as int;
                let ghost gy0 = y0 as int;
                let masks: [u8; 8] = [0x80, 0x40, 0x20, 0x10, 0x08, 0x04, 0x02, 0x01];
                proof {
                    assert(forall|k: int| 0 <= k < 8 ==> masks@[k] == bit_mask(k));
                }
                let mut disp: [[bool; 32]; 64] = self.display_buffer;
                let mut collided: bool = false;
                let mut row: usize = 0;
                while row < max_rows
                    invariant
                        row <= max_rows,
                        forall|px: int, py: int|
                            0 <= px < 64 && 0 <= py < 32 ==> disp@[px]@[py] == (d0[px]@[py]
                                != hit_before(mem, gi, gx0, gy0, row as int, 0, px, py)),
                        collided <==> (exists|px: int, py: int|
                            0 <= px < 64 && 0 <= py < 32 && #[trigger] hit_before(
                                mem,
                                gi,
                                gx0,
                                gy0,
                                row as int,
                                0,
                                px,
                                py,
                            ) && d0[px]@[py]),
                    decreases max_rows - row,
                {
                    let sprite: u8 = self.memory[ireg + row];
                    let mut col: usize = 0;
                    while col < max_cols
                        invariant
                            col <= max_cols,
                            row < max_rows,
                            forall|px: int, py: int|
                                0 <= px < 64 && 0 <= py < 32 ==> disp@[px]@[py] == (d0[px]@[py]
                                    != hit_before(mem, gi, gx0, gy0, row as int, col as int, px, py)),
                            collided <==> (exists|px: int, py: int|
                                0 <= px < 64 && 0 <= py < 32 && #[trigger] hit_before(
                                    mem,
                                    gi,
                                    gx0,
                                    gy0,
                                    row as int,
                                    col as int,
                                    px,
                                    py,
                                ) && d0[px]@[py]),
                        decreases max_cols - col,
                    {
                        let ghost r = row as int;
                        let ghost c = col as int;
                        if sprite & masks[col] != 0 {
                            let cx: usize = x0 + col;
                            let cy: usize = y0 + row;
                            proof {
                                assert(masks@[c] == bit_mask(c));
                                assert(sprite_bit(sprite, c));
                                assert(!hit_before(mem, gi, gx0, gy0, r, c, cx as int, cy as int));
                            }
                            let ghost od = disp@;
                            let ghost was_collided = collided;
                            let newv: bool = !disp[cx][cy];
                            let mut column: [bool; 32] = disp[cx];
                            column[cy] = newv;
                            disp[cx] = column;
                            if !newv {
                                collided = true;
                            }
                            proof {
                                let ci = cx as int;
                                let cj = cy as int;
                                assert(disp@[ci]@[cj] == newv);
                                assert(od[ci]@[cj] == d0[ci]@[cj]);
                                assert(hit_before(mem, gi, gx0, gy0, r, c + 1, ci, cj));
                                assert forall|px: int, py: int|
                                    0 <= px < 64 && 0 <= py < 32 implies disp@[px]@[py] == (
                                d0[px]@[py] != hit_before(
                                    mem,
                                    gi,
                                    gx0,
                                    gy0,
                                    r,
                                    c + 1,
                                    px,
                                    py,
                                )) by {
                                    if px == ci && py == cj {
                                    } else {
                                        assert(hit_before(mem, gi, gx0, gy0, r, c + 1, px, py)
                                            == hit_before(mem, gi, gx0, gy0, r, c, px, py));
                                        assert(disp@[px]@[py] == od[px]@[py]);
                                    }
                                }
                                if collided {
                                    if was_collided {
                                        let (wx, wy) = choose|px: int, py: int|
                                            0 <= px < 64 && 0 <= py < 32 && #[trigger] hit_before(
                                                mem,
                                                gi,
                                                gx0,
                                                gy0,
                                                r,
                                                c,
                                                px,
                                                py,
                                            ) && d0[px]@[py];
                                        assert(hit_before(mem, gi, gx0, gy0, r, c + 1, wx, wy));
                                    } else {
                                        assert(!newv);
                                        assert(d0[ci]@[cj]);
                                        assert(hit_before(mem, gi, gx0, gy0, r, c + 1, ci, cj)
                                            && d0[ci]@[cj]);
                                    }
                                } else {
                                    assert(newv);
                                    assert(!d0[ci]@[cj]);
                                    assert forall|px: int, py: int|
                                        0 <= px < 64 && 0 <= py < 32 implies !(hit_before(
                                        mem,
                                        gi,
                                        gx0,
                                        gy0,
                                        r,
                                        c + 1,
                                        px,
                                        py,
                                    ) && d0[px]@[py]) by {
                                        if px == ci && py == cj {
                                            assert(!d0[ci]@[cj]);
                                        } else {
                                            assert(hit_before(mem, gi, gx0, gy0, r, c + 1, px, py)
                                                == hit_before(mem, gi, gx0, gy0, r, c, px, py));
                                        }
                                    }
                                }
                            }
                        } else {
                            proof {
                                assert(masks@[c] == bit_mask(c));
                                assert(!sprite_bit(sprite, c));
                                assert forall|px: int, py: int|
                                    0 <= px < 64 && 0 <= py < 32 implies #[trigger] hit_before(
                                    mem,
                                    gi,
                                    gx0,
                                    gy0,
                                    r,
                                    c + 1,
                                    px,
                                    py,
                                ) == hit_before(mem, gi, gx0, gy0, r, c, px, py) by {}
                                lemma_collides_transfer(d0, mem, gi, gx0, gy0, r, c, r, c + 1);
                            }
                        }
                        col = col + 1;
                    }
                    proof {
                        lemma_row_end(mem, gi, gx0, gy0, row as int, max_cols as int);
                        assert forall|px: int, py: int|
                            0 <= px < 64 && 0 <= py < 32 implies disp@[px]@[py] == (d0[px]@[py]
                            != hit_before(mem, gi, gx0, gy0, row + 1, 0, px, py)) by {
                            assert(disp@[px]@[py] == (d0[px]@[py] != hit_before(
                                mem,
                                gi,
                                gx0,
                                gy0,
                                row as int,
                                max_cols as int,
                                px,
                                py,
                            )));
                            assert(hit_before(mem, gi, gx0, gy0, row as int, max_cols as int, px, py)
                                == hit_before(mem, gi, gx0, gy0, row + 1, 0, px, py));
                        }
                        lemma_collides_transfer(
                            d0,
                            mem,
                            gi,
                            gx0,
                            gy0,
                            row as int,
                            max_cols as int,
                            row + 1,
                            0,
                        );
                    }
                    row = row + 1;
                }
                proof {
                    lemma_clip_rows(mem, gi, gx0, gy0, max_rows as int, rows as int);
                    lemma_collides_transfer(
                        d0,
                        mem,
                        gi,
                        gx0,
                        gy0,
                        max_rows as int,
                        0,
                        rows as int,
                        0,
                    );
                    lemma_row_start(mem, gi, gx0, gy0, rows as int);
                }
                self.display_buffer = disp;
                self.registers.general_purpose[15] = if collided {
                    1
                } else {
                    0
                };
                proof {
                    let pre = *old(self);
                    assert(gx0 == draw_x0(pre, w));
                    assert(gy0 == draw_y0(pre, w));
                    assert(collided == draw_collides(pre, w)) by {
                        if collided {
                            let (wx, wy) = choose|px: int, py: int|
                                0 <= px < 64 && 0 <= py < 32 && #[trigger] hit_before(
                                    mem,
                                    gi,
                                    gx0,
                                    gy0,
                                    rows as int,
                                    0,
                                    px,
                                    py,
                                ) && d0[px]@[py];
                            assert(draw_hits(mem, gi, gx0, gy0, rows as int, wx, wy));
                            assert(pixel(pre, wx, wy));
                        } else {
                            if draw_collides(pre, w) {
                                let (wx, wy) = choose|px: int, py: int|
                                    0 <= px < 64 && 0 <= py < 32 && #[trigger] draw_hits(
                                        pre.memory@,
                                        pre.registers.I as int,
                                        draw_x0(pre, w),
                                        draw_y0(pre, w),
                                        op_n(w) as int,
                                        px,
                                        py,
                                    ) && pixel(pre, px, py);
                                assert(hit_before(mem, gi, gx0, gy0, rows as int, 0, wx, wy)
                                    && d0[wx]@[wy]);
                                assert(false);
                            }
                        }
                    }
                    assert forall|px: int, py: int| 0 <= px < 64 && 0 <= py < 32 implies pixel(
                        *self,
                        px,
                        py,
                    ) == (pixel(pre, px, py) != draw_hits(
                        pre.memory@,
                        pre.registers.I as int,
                        draw_x0(pre, w),
                        draw_y0(pre, w),
                        op_n(w) as int,
                        px,
                        py,
                    )) by {
                        assert(disp@[px]@[py] == (d0[px]@[py] != hit_before(
                            mem,
                            gi,
                            gx0,
                            gy0,
                            max_rows as int,
                            0,
                            px,
                            py,
                        )));
                    }
                }
            },
        }
        Ok(())
    }

    /// Copies `bytes` into memory starting at `starting`, one byte per
    /// address in order. The program plus its offset must fit in memory;
    /// nothing else — registers, display, pacing — changes.
    pub fn load(&mut self, starting: usize, bytes: &[u8])
        requires
            starting + bytes@.len() <= 4096,
        ensures
            forall|i: int|
                0 <= i < 4096 ==> final(self).memory@[i] == (if starting <= i < starting
                    + bytes@.len() {
                    bytes@[i - starting]
                } else {
                    old(self).memory@[i]
                }),
            final(self).registers == old(self).registers,
            final(self).display_buffer == old(self).display_buffer,
            final(self).tick_rate == old(self).tick_rate,
            final(self).running == old(self).running,
    {
        let mut k: usize = 0;
        while k < bytes.len()
            invariant
                k <= bytes@.len(),
                starting + bytes@.len() <= 4096,
                forall|i: int|
                    0 <= i < 4096 ==> self.memory@[i] == (if starting <= i < starting + k {
                        bytes@[i - starting]
                    } else {
                        old(self).memory@[i]
                    }),
                self.registers == old(self).registers,
                self.display_buffer == old(self).display_buffer,
                self.tick_rate == old(self).tick_rate,
                self.running == old(self).running,
            decreases bytes@.len() - k,
        {
            self.memory[starting + k] = bytes[k];
            k = k + 1;
        }
    }
}

} // verus!

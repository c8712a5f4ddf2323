//! Diagnostics: the memory dump rendered as text, one line per 16-bit word,
//! in address order — "[addr] HHLL" with the even address in decimal and the
//! two bytes in uppercase hexadecimal. The driver decides what to do with
//! the lines (print them, or terminate silently in a non-debuggable build).
use vstd::prelude::*;

use crate::vm::Chip8VM;

verus! {

/// The character for one decimal digit value.
pub open spec fn dec_digit(n: int) -> char
    recommends
        0 <= n < 10,
{
    if n == 0 {
        '0'
    } else if n == 1 {
        '1'
    } else if n == 2 {
        '2'
    } else if n == 3 {
        '3'
    } else if n == 4 {
        '4'
    } else if n == 5 {
        '5'
    } else if n == 6 {
        '6'
    } else if n == 7 {
        '7'
    } else if n == 8 {
        '8'
    } else {
        '9'
    }
}

/// The character for one hexadecimal digit value, upper case.
pub open spec fn hex_digit(n: int) -> char
    recommends
        0 <= n < 16,
{
    if n < 10 {
        dec_digit(n)
    } else if n == 10 {
        'A'
    } else if n == 11 {
        'B'
    } else if n == 12 {
        'C'
    } else if n == 13 {
        'D'
    } else if n == 14 {
        'E'
    } else {
        'F'
    }
}

/// The decimal representation of `n`, most significant digit first, with no
/// leading zeros (a single zero for n = 0).
pub open spec fn dec_rep(n: nat) -> Seq<char>
    decreases n,
{
    if n < 10 {
        seq![dec_digit(n as int)]
    } else {
        dec_rep(n / 10).push(dec_digit((n % 10) as int))
    }
}

/// The two hexadecimal digits of one byte, high nibble first.
pub open spec fn hex_byte(b: u8) -> Seq<char> {
    seq![hex_digit(b as int / 16), hex_digit(b as int % 16)]
}

/// One dump line for the word whose bytes are `hi` then `lo` at the even
/// address `addr`: the address in brackets, a space, then four hex digits.
pub open spec fn dump_line(addr: nat, hi: u8, lo: u8) -> Seq<char> {
    seq!['['] + dec_rep(addr) + seq![']', ' '] + hex_byte(hi) + hex_byte(lo)
}

/// The character for a decimal digit, as executable code.
fn dec_digit_char(n: u8) -> (c: char)
    requires
        n < 10,
    ensures
        c == dec_digit(n as int),
{
    if n == 0 {
        '0'
    } else if n == 1 {
        '1'
    } else if n == 2 {
        '2'
    } else if n == 3 {
        '3'
    } else if n == 4 {
        '4'
    } else if n == 5 {
        '5'
    } else if n == 6 {
        '6'
    } else if n == 7 {
        '7'
    } else if n == 8 {
        '8'
    } else {
        '9'
    }
}

/// The character for a hexadecimal digit, as executable code.
fn hex_digit_char(n: u8) -> (c: char)
    requires
        n < 16,
    ensures
        c == hex_digit(n as int),
{
    if n < 10 {
        dec_digit_char(n)
    } else if n == 10 {
        'A'
    } else if n == 11 {
        'B'
    } else if n == 12 {
        'C'
    } else if n == 13 {
        'D'
    } else if n == 14 {
        'E'
    } else {
        'F'
    }
}

/// Appends the decimal representation of `n` to `out`.
fn push_dec(out: &mut Vec<char>, n: usize)
    ensures
        final (out)@ == old(out)@ + dec_rep(n as nat),
    decreases n,
{
    if n < 10 {
        out.push(dec_digit_char(n as u8));
        assert(final (out)@ =~= old(out)@ + dec_rep(n as nat));
    } else {
        push_dec(out, n / 10);
        out.push(dec_digit_char((n % 10) as u8));
        assert(final (out)@ =~= old(out)@ + dec_rep(n as nat));
    }
}

/// Appends the two hex digits of `b` to `out`, high nibble first.
fn push_hex_byte(out: &mut Vec<char>, b: u8)
    ensures
        final (out)@ == old(out)@ + hex_byte(b),
{
    out.push(hex_digit_char(b / 16));
    out.push(hex_digit_char(b % 16));
    assert(final (out)@ =~= old(out)@ + hex_byte(b));
}

impl Chip8VM {
    /// The memory dump: 2048 lines, one per byte pair in address order, each
    /// reading "[addr] HHLL" — the pair's even starting address in decimal
    /// and its two bytes as four uppercase hexadecimal digits.
    pub fn dump_lines(&self) -> (lines: Vec<Vec<char>>)
        ensures
            lines@.len() == 2048,
            forall|i: int|
                0 <= i < 2048 ==> lines@[i]@ == dump_line(
                    (2 * i) as nat,
                    self.memory@[2 * i],
                    self.memory@[2 * i + 1],
                ),
    {
        let mut lines: Vec<Vec<char>> = Vec::new();
        let mut i: usize = 0;
        while i < 2048
            invariant
                i <= 2048,
                lines@.len() == i,
                forall|j: int|
                    0 <= j < i ==> lines@[j]@ == dump_line(
                        (2 * j) as nat,
                        self.memory@[2 * j],
                        self.memory@[2 * j + 1],
                    ),
            decreases 2048 - i,
        {
            let hi: u8 = self.memory[2 * i];
            let lo: u8 = self.memory[2 * i + 1];
            let mut line: Vec<char> = Vec::new();
            line.push('[');
            push_dec(&mut line, 2 * i);
            line.push(']');
            line.push(' ');
            push_hex_byte(&mut line, hi);
            push_hex_byte(&mut line, lo);
            proof {
                assert(line@ =~= dump_line((2 * i) as nat, hi, lo));
            }
            lines.push(line);
            i = i + 1;
        }
        lines
    }
}

} // verus!

//! A verified CHIP-8 virtual machine core: a 4096-byte memory seeded with a
//! hexadecimal font table, a register file, a 64x32 monochrome display buffer,
//! and a fetch-decode-execute step for a subset of the instruction set.
//! Presentation (windowing, rendering, pacing) is left to an external driver.
#![allow(non_snake_case)]

pub mod decode;
pub mod diag;
pub mod font;
pub mod laws;
pub mod vm;

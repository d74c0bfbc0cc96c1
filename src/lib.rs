//! A virtual machine for the sixteen-bit instruction set of the classic
//! hexadecimal-keypad interpreter: memory, registers, framebuffer, keypad
//! latch and the fetch-decode-execute engine that drives them.
use vstd::prelude::*;

pub mod bus;
pub mod chip8;
pub mod cpu;
pub mod display;
pub mod laws;
pub mod ram;
pub mod semantics;

verus! {

} // verus!

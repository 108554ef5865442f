//! A verified interpreter core for the classic CHIP-8 virtual machine:
//! the machine state, the fetch-decode-execute cycle, the 60 Hz timer
//! tick, and the per-instruction semantics, each specified against a
//! mathematical model of the machine.

use vstd::prelude::*;

pub mod decode;
pub mod laws;
pub mod machine;
pub mod model;
pub mod scale;
pub mod sem;

verus! {

/// Number of addressable memory bytes; addresses at or past this are faults.
pub const MEMORY_SIZE: usize = 4092;

/// Number of general-purpose registers V0..VF.
pub const REGISTER_COUNT: usize = 16;

/// Capacity of the call stack, in return addresses.
pub const STACK_SIZE: usize = 16;

/// Number of keys on the input pad.
pub const KEYPAD_SIZE: usize = 16;

/// Width of the monochrome framebuffer, in pixels.
pub const VIDEO_WIDTH: usize = 64;

/// Height of the monochrome framebuffer, in pixels.
pub const VIDEO_HEIGHT: usize = 32;

/// Address at which loaded program images begin; also the initial
/// program counter.
pub const START_ADDRESS: usize = 0x200;

/// Index of the flags register VF, overloaded as the carry, borrow and
/// collision indicator.
pub const FLAGS_REGISTER: usize = 15;

} // verus!

//! A CHIP-8 interpreter with verified execution semantics: a fixed memory
//! space, sixteen general-purpose registers, a call stack, two countdown
//! timers and a monochrome framebuffer, driven by a fetch-decode-execute
//! cycle over 2-byte big-endian opcodes.
//!
//! `state` holds the mathematical model of the machine and the meaning of
//! every instruction; `decode` the opcode table; `buffer` the bounds-checked
//! store that backs memory, registers, stack, plane and keys; `chip8` the
//! interpreter itself, proved to follow the model cycle by cycle; `laws`
//! properties that relate several instructions to one another. Rendering,
//! input events, audio and program files belong to collaborators outside
//! the library.

use vstd::prelude::*;

pub mod buffer;
pub mod decode;
pub mod state;
pub mod chip8;
pub mod keymap;
pub mod laws;

verus! {

/// The error taxonomy of the interpreter: an index past a store's capacity,
/// or a program image that cannot be placed into memory.
#[derive(Clone, Copy, Debug, PartialEq, Eq, Structural)]
pub enum VmError {
    OutOfBounds,
    IOError,
}

} // verus!

//! The faults that the machine can raise.

use vstd::prelude::*;

verus! {

/// Why an operation of the machine was refused.
///
/// A fault never leaves a partial effect behind: the state is as it was
/// before the call.
#[derive(Clone, Copy, Debug, PartialEq, Eq, Structural)]
pub enum Fault {
    /// A memory address at or beyond the capacity, or a sprite that does not
    /// fit into the display.
    OutOfBounds,
    /// A return while the call stack is empty.
    StackUnderflow,
    /// A call while the call stack is full.
    StackOverflow,
    /// A key index above 15.
    InvalidKey,
    /// An opcode that matches no instruction, with the program counter at
    /// which it was fetched.
    UnknownOpcode { opcode: u16, pc: u16 },
}

} // verus!

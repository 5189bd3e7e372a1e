//! An interpreter for a small 8-bit virtual machine: 4 KiB of byte-addressable
//! memory, sixteen 8-bit registers, a 64x32 monochrome display, a sixteen-key
//! pad and a delay timer.
//!
//! Every operation that can fail returns a [`Fault`]; nothing here panics.

pub mod bus;
pub mod cpu;
pub mod emulator;
pub mod fault;
pub mod instruction;
pub mod keyboard;
pub mod ram;
pub mod screen;
pub mod theorems;
pub mod timer;

//! The machine's memory: a flat store of bytes.

use vstd::prelude::*;
use crate::fault::Fault;

verus! {

/// Number of bytes of memory.
pub const RAM_SIZE: usize = 4096;

/// The byte store. Its view is the sequence of its `RAM_SIZE` bytes.
pub struct Ram {
    bytes: [u8; RAM_SIZE],
}

impl View for Ram {
    type V = Seq<u8>;

    closed spec fn view(&self) -> Seq<u8> {
        self.bytes@
    }
}

impl Ram {
    /// Memory with every byte zero.
    pub fn new() -> (ram: Ram)
        ensures
            ram@ == Seq::new(RAM_SIZE as nat, |i: int| 0u8),
    {
        Ram { bytes: [0u8; RAM_SIZE] }
    }

    /// The view always has `RAM_SIZE` bytes.
    pub broadcast proof fn lemma_len(&self)
        ensures
            #[trigger] self@.len() == RAM_SIZE,
    {
    }

    /// Reads the byte at `address`; faults beyond the last byte.
    pub fn read_byte(&self, address: usize) -> (r: Result<u8, Fault>)
        ensures
            self@.len() == RAM_SIZE,
            address < RAM_SIZE ==> r == Ok::<u8, Fault>(self@[address as int]),
            address >= RAM_SIZE ==> r == Err::<u8, Fault>(Fault::OutOfBounds),
    {
        if address < RAM_SIZE {
            Ok(self.bytes[address])
        } else {
            Err(Fault::OutOfBounds)
        }
    }

    /// Writes `value` at `address`; faults beyond the last byte and then
    /// leaves the memory as it was.
    pub fn write_byte(&mut self, address: usize, value: u8) -> (r: Result<(), Fault>)
        ensures
            old(self)@.len() == RAM_SIZE,
            final(self)@.len() == RAM_SIZE,
            address < RAM_SIZE ==> r.is_ok() && final(self)@ == old(self)@.update(
                address as int,
                value,
            ),
            address >= RAM_SIZE ==> r == Err::<(), Fault>(Fault::OutOfBounds) && final(self)@
                == old(self)@,
    {
        if address < RAM_SIZE {
            self.bytes[address] = value;
            Ok(())
        } else {
            Err(Fault::OutOfBounds)
        }
    }
}

} // verus!

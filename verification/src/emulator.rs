//! The whole machine: a processor and the bus it drives.

use vstd::prelude::*;
use crate::bus::Bus;
use crate::bus::BusState;
use crate::cpu::agrees;
use crate::cpu::stepped;
use crate::cpu::Cpu;
use crate::cpu::CpuState;
use crate::cpu::PROGRAM_START;
use crate::fault::Fault;
use crate::ram::RAM_SIZE;

verus! {

/// Greatest number of bytes in a program image.
pub const PROGRAM_LIMIT: usize = 3584;

/// `memory` with the bytes of `image` copied to `PROGRAM_START` and the
/// addresses that follow.
pub open spec fn loaded(memory: Seq<u8>, image: Seq<u8>) -> Seq<u8> {
    Seq::new(
        memory.len(),
        |address: int|
            if PROGRAM_START <= address < PROGRAM_START + image.len() {
                image[address - PROGRAM_START]
            } else {
                memory[address]
            },
    )
}

/// A processor together with its bus.
pub struct Emulator {
    pub cpu: Cpu,
    pub bus: Bus,
}

impl Emulator {
    /// A machine in its initial state, with no program in memory.
    pub fn new() -> (emulator: Emulator)
        ensures
            emulator.cpu@ == CpuState::initial(),
            emulator.bus@ == BusState::initial(),
    {
        Emulator { cpu: Cpu::new(), bus: Bus::new() }
    }

    /// Copies the program image `game` into memory, from `PROGRAM_START` on.
    /// The image has to fit between there and the end of memory.
    pub fn write_game_to_ram(&mut self, game: Vec<u8>)
        requires
            game@.len() <= PROGRAM_LIMIT,
        ensures
            final(self).bus@.valid(),
            final(self).cpu@ == old(self).cpu@,
            final(self).bus@ == (BusState {
                memory: loaded(old(self).bus@.memory, game@),
                ..old(self).bus@
            }),
    {
        let ghost before = self.bus@;
        proof {
            self.bus.lemma_valid();
            assert(loaded(before.memory, game@.take(0)) =~= before.memory);
        }
        let mut count: usize = 0;
        while count < game.len()
            invariant
                count <= game@.len() <= PROGRAM_LIMIT,
                before.memory.len() == RAM_SIZE,
                self.cpu@ == old(self).cpu@,
                self.bus@ == (BusState {
                    memory: loaded(before.memory, game@.take(count as int)),
                    ..before
                }),
            decreases game@.len() - count,
        {
            match self.bus.ram_write_byte(PROGRAM_START as usize + count, game[count]) {
                Ok(()) => {},
                Err(_) => {
                    assert(false);
                },
            }
            count += 1;
            assert(self.bus@.memory =~= loaded(before.memory, game@.take(count as int)));
        }
        assert(game@.take(count as int) =~= game@);
        proof {
            self.bus.lemma_valid();
        }
    }

    /// Runs one step of the processor on the bus. On a fault the machine
    /// has not changed.
    pub fn run_instructions(&mut self) -> (r: Result<(), Fault>)
        ensures
            final(self).cpu@.valid(),
            final(self).bus@.valid(),
            agrees(
                stepped(old(self).cpu@, old(self).bus@),
                (old(self).cpu@, old(self).bus@),
                r,
                final(self).cpu@,
                final(self).bus@,
            ),
    {
        self.cpu.run_instructions(&mut self.bus)
    }
}

} // verus!

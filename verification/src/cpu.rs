//! The processor: registers, program counter, index register and call
//! stack, and the step that fetches, decodes and executes one instruction.
//!
//! What a step does is defined by [`stepped`], a function from the state of
//! processor and bus to the state after the step, or to the fault that
//! stopped it. [`Cpu::run_instructions`] is proved to compute it.

use vstd::prelude::*;
use crate::bus::Bus;
use crate::bus::BusState;
use crate::fault::Fault;
use crate::instruction::decoded;
use crate::instruction::Instruction;
use crate::keyboard::KEY_COUNT;
use crate::ram::RAM_SIZE;
use crate::screen::blank_grid;
use crate::screen::collides;
use crate::screen::drawn;
use crate::screen::fits;
use crate::screen::lemma_draw_nothing;

verus! {

/// Address at which a program is loaded and starts.
pub const PROGRAM_START: u16 = 0x200;

/// Number of general registers.
pub const REGISTER_COUNT: usize = 16;

/// Number of the flag register `VF`.
pub const FLAG_REGISTER: u8 = 15;

/// Greatest number of return addresses on the call stack.
pub const STACK_LIMIT: usize = 16;

/// What the processor holds, as mathematical values.
#[verifier::ext_equal]
pub struct CpuState {
    /// The `REGISTER_COUNT` general registers.
    pub registers: Seq<u8>,
    /// The index register.
    pub index: u16,
    /// The program counter.
    pub pc: u16,
    /// The return addresses, the most recent call last.
    pub stack: Seq<u16>,
}

impl CpuState {
    /// Whether there are `REGISTER_COUNT` registers and at most
    /// `STACK_LIMIT` return addresses.
    pub open spec fn valid(self) -> bool {
        &&& self.registers.len() == REGISTER_COUNT
        &&& self.stack.len() <= STACK_LIMIT
    }

    /// The state of a processor that was just created.
    pub open spec fn initial() -> CpuState {
        CpuState {
            registers: Seq::new(REGISTER_COUNT as nat, |r: int| 0u8),
            index: 0,
            pc: PROGRAM_START,
            stack: Seq::empty(),
        }
    }

    /// What register `x` holds.
    pub open spec fn register(self, x: u8) -> u8 {
        self.registers[x as int]
    }

    /// The state with `value` in register `x`.
    pub open spec fn with_register(self, x: u8, value: u8) -> CpuState {
        CpuState { registers: self.registers.update(x as int, value), ..self }
    }

    /// The state with the first `count` registers filled from `memory`,
    /// starting at the index register.
    pub open spec fn with_registers_loaded(self, memory: Seq<u8>, count: int) -> CpuState {
        CpuState {
            registers: Seq::new(
                REGISTER_COUNT as nat,
                |r: int|
                    if r < count {
                        memory[self.index + r]
                    } else {
                        self.registers[r]
                    },
            ),
            ..self
        }
    }

    /// The state with the program counter moved forward by `count`
    /// instructions of two bytes each.
    pub open spec fn advanced(self, count: int) -> CpuState {
        CpuState { pc: (self.pc + 2 * count) as u16, ..self }
    }
}

/// 1 for a flag that is set, 0 for one that is not.
pub open spec fn flag(set: bool) -> u8 {
    if set {
        1
    } else {
        0
    }
}

/// The `height` bytes of `memory` from `index` on.
pub open spec fn sprite_at(memory: Seq<u8>, index: u16, height: u8) -> Seq<u8> {
    Seq::new(height as nat, |row: int| memory[index + row])
}

/// Whether the sprite of `height` rows at the index register, to be drawn at
/// the coordinates in registers `x` and `y`, reaches beyond memory or beyond
/// the display. A sprite without rows reaches nowhere.
pub open spec fn sprite_out_of_bounds(cpu: CpuState, x: u8, y: u8, height: u8) -> bool {
    height > 0 && (cpu.index + height > RAM_SIZE || !fits(
        cpu.register(x) as int,
        cpu.register(y) as int,
        height as int,
    ))
}

/// The opcode at the program counter: the byte there is its high half, the
/// next byte its low half. Both bytes have to lie in memory.
pub open spec fn fetched(cpu: CpuState, bus: BusState) -> Result<u16, Fault> {
    if cpu.pc + 1 < RAM_SIZE {
        Ok((bus.memory[cpu.pc as int] * 256 + bus.memory[cpu.pc + 1]) as u16)
    } else {
        Err(Fault::OutOfBounds)
    }
}

/// The effect of `instruction` on processor and bus, or the fault that it
/// raises.
pub open spec fn executed(instruction: Instruction, cpu: CpuState, bus: BusState) -> Result<
    (CpuState, BusState),
    Fault,
> {
    match instruction {
        Instruction::ClearScreen => Ok((cpu.advanced(1), BusState { pixels: blank_grid(), ..bus })),
        Instruction::Return => if cpu.stack.len() == 0 {
            Err(Fault::StackUnderflow)
        } else {
            Ok((CpuState { pc: cpu.stack.last(), stack: cpu.stack.drop_last(), ..cpu }, bus))
        },
        Instruction::Jump { target } => Ok((CpuState { pc: target, ..cpu }, bus)),
        Instruction::Call { target } => if cpu.stack.len() >= STACK_LIMIT {
            Err(Fault::StackOverflow)
        } else {
            Ok(
                (
                    CpuState { pc: target, stack: cpu.stack.push((cpu.pc + 2) as u16), ..cpu },
                    bus,
                ),
            )
        },
        Instruction::SkipIfEqual { x, value } => Ok(
            (cpu.advanced(if cpu.register(x) == value { 2 } else { 1 }), bus),
        ),
        Instruction::Load { x, value } => Ok((cpu.with_register(x, value).advanced(1), bus)),
        Instruction::AddImmediate { x, value } => Ok(
            (cpu.with_register(x, ((cpu.register(x) + value) % 256) as u8).advanced(1), bus),
        ),
        Instruction::Move { x, y } => Ok((cpu.with_register(x, cpu.register(y)).advanced(1), bus)),
        Instruction::And { x, y } => Ok(
            (cpu.with_register(x, cpu.register(x) & cpu.register(y)).advanced(1), bus),
        ),
        Instruction::Xor { x, y } => Ok(
            (cpu.with_register(x, cpu.register(x) ^ cpu.register(y)).advanced(1), bus),
        ),
        Instruction::Add { x, y } => {
            let sum = cpu.register(x) + cpu.register(y);
            Ok(
                (
                    cpu.with_register(x, (sum % 256) as u8).with_register(
                        FLAG_REGISTER,
                        flag(sum > 255),
                    ).advanced(1),
                    bus,
                ),
            )
        },
        Instruction::Subtract { x, y } => {
            let difference = cpu.register(x) - cpu.register(y);
            Ok(
                (
                    cpu.with_register(x, (difference % 256) as u8).with_register(
                        FLAG_REGISTER,
                        flag(difference < 0),
                    ).advanced(1),
                    bus,
                ),
            )
        },
        Instruction::ShiftRight { x, y } => {
            let source = cpu.register(y);
            Ok(
                (
                    cpu.with_register(FLAG_REGISTER, source % 2).with_register(
                        y,
                        source / 2,
                    ).with_register(x, source / 2).advanced(1),
                    bus,
                ),
            )
        },
        Instruction::LoadIndex { address } => Ok(
            (CpuState { index: address, ..cpu }.advanced(1), bus),
        ),
        Instruction::Draw { x, y, height } => {
            let left = cpu.register(x) as int;
            let top = cpu.register(y) as int;
            let sprite = sprite_at(bus.memory, cpu.index, height);
            if sprite_out_of_bounds(cpu, x, y, height) {
                Err(Fault::OutOfBounds)
            } else {
                Ok(
                    (
                        cpu.with_register(
                            FLAG_REGISTER,
                            flag(collides(bus.pixels, sprite, left, top)),
                        ).advanced(1),
                        BusState { pixels: drawn(bus.pixels, sprite, left, top), ..bus },
                    ),
                )
            }
        },
        Instruction::SkipIfPressed { x } => if cpu.register(x) >= KEY_COUNT {
            Err(Fault::InvalidKey)
        } else {
            Ok((cpu.advanced(if bus.keys[cpu.register(x) as int] { 2 } else { 1 }), bus))
        },
        Instruction::SkipIfReleased { x } => if cpu.register(x) >= KEY_COUNT {
            Err(Fault::InvalidKey)
        } else {
            Ok((cpu.advanced(if bus.keys[cpu.register(x) as int] { 1 } else { 2 }), bus))
        },
        Instruction::ReadTimer { x } => Ok((cpu.with_register(x, bus.timer).advanced(1), bus)),
        Instruction::SetTimer { x } => Ok(
            (cpu.advanced(1), BusState { timer: cpu.register(x), ..bus }),
        ),
        Instruction::AddToIndex { x } => Ok(
            (
                CpuState { index: ((cpu.index + cpu.register(x)) % 0x10000) as u16, ..cpu }.advanced(
                    1,
                ),
                bus,
            ),
        ),
        Instruction::LoadRegisters { x } => if cpu.index + x >= RAM_SIZE {
            Err(Fault::OutOfBounds)
        } else {
            Ok((cpu.with_registers_loaded(bus.memory, x as int + 1).advanced(1), bus))
        },
    }
}

/// One step of the machine: fetch the opcode at the program counter, decode
/// it and execute the instruction. An opcode that stands for no instruction
/// is a fault that carries the opcode and the program counter.
pub open spec fn stepped(cpu: CpuState, bus: BusState) -> Result<(CpuState, BusState), Fault> {
    match fetched(cpu, bus) {
        Err(fault) => Err(fault),
        Ok(opcode) => match decoded(opcode) {
            None => Err(Fault::UnknownOpcode { opcode, pc: cpu.pc }),
            Some(instruction) => executed(instruction, cpu, bus),
        },
    }
}

/// Whether a call that returned `result` and left processor and bus in
/// `cpu` and `bus` did what `expected` says: on success the new state, on a
/// fault the state `before` the call.
pub open spec fn agrees(
    expected: Result<(CpuState, BusState), Fault>,
    before: (CpuState, BusState),
    result: Result<(), Fault>,
    cpu: CpuState,
    bus: BusState,
) -> bool {
    match expected {
        Ok(after) => result is Ok && (cpu, bus) == after,
        Err(fault) => result == Err::<(), Fault>(fault) && (cpu, bus) == before,
    }
}

/// A step keeps the sizes of the machine: sixteen registers, a call stack
/// within its limit, memory, keys and pixel grid of their fixed sizes.
pub proof fn lemma_step_keeps_valid(cpu: CpuState, bus: BusState)
    requires
        cpu.valid(),
        bus.valid(),
    ensures
        stepped(cpu, bus) matches Ok((next, after)) ==> next.valid() && after.valid(),
{
}

/// The processor.
pub struct Cpu {
    vx: [u8; REGISTER_COUNT],
    pc: u16,
    ret_stack: [u16; STACK_LIMIT],
    depth: usize,
    i: u16,
}

impl View for Cpu {
    type V = CpuState;

    closed spec fn view(&self) -> CpuState {
        CpuState {
            registers: self.vx@,
            index: self.i,
            pc: self.pc,
            stack: self.ret_stack@.take(self.depth as int),
        }
    }
}

impl Cpu {
    #[verifier::type_invariant]
    spec fn stack_within_limit(self) -> bool {
        self.depth <= STACK_LIMIT
    }

    /// A processor with cleared registers and an empty call stack, about to
    /// run the program at `PROGRAM_START`.
    pub fn new() -> (cpu: Cpu)
        ensures
            cpu@ == CpuState::initial(),
    {
        let cpu = Cpu {
            vx: [0u8; REGISTER_COUNT],
            pc: PROGRAM_START,
            ret_stack: [0u16; STACK_LIMIT],
            depth: 0,
            i: 0,
        };
        assert(cpu@ =~~= CpuState::initial());
        cpu
    }

    /// The program counter.
    pub fn pc(&self) -> (pc: u16)
        ensures
            pc == self@.pc,
            self@.valid(),
    {
        proof {
            use_type_invariant(self);
        }
        self.pc
    }

    /// The index register.
    pub fn index(&self) -> (index: u16)
        ensures
            index == self@.index,
            self@.valid(),
    {
        proof {
            use_type_invariant(self);
        }
        self.i
    }

    /// Number of return addresses on the call stack.
    pub fn stack_depth(&self) -> (depth: usize)
        ensures
            depth == self@.stack.len(),
            self@.valid(),
    {
        proof {
            use_type_invariant(self);
        }
        self.depth
    }

    /// What register `index` holds. The processor stays as it is.
    pub fn read_vx_register(&mut self, index: u8) -> (value: u8)
        requires
            index < REGISTER_COUNT,
        ensures
            value == old(self)@.register(index),
            *final(self) == *old(self),
            old(self)@.valid(),
    {
        proof {
            use_type_invariant(&*self);
        }
        self.vx[index as usize]
    }

    /// Puts `value` into register `index`.
    pub fn write_vx_register(&mut self, index: u8, value: u8)
        requires
            index < REGISTER_COUNT,
        ensures
            final(self)@ == old(self)@.with_register(index, value),
            final(self)@.valid(),
    {
        proof {
            use_type_invariant(&*self);
        }
        self.vx[index as usize] = value;
    }

    /// Reads the opcode at the program counter.
    fn fetch(&self, bus: &Bus) -> (r: Result<u16, Fault>)
        ensures
            r == fetched(self@, bus@),
    {
        let at = self.pc as usize;
        let high = match bus.ram_read_byte(at) {
            Ok(byte) => byte,
            Err(fault) => {
                return Err(fault);
            },
        };
        let low = match bus.ram_read_byte(at + 1) {
            Ok(byte) => byte,
            Err(fault) => {
                return Err(fault);
            },
        };
        assert(((high as u16) << 8) | (low as u16) == high * 256 + low) by (bit_vector);
        Ok(((high as u16) << 8) | (low as u16))
    }

    /// Draws the `height` bytes at the index register as a sprite at the
    /// coordinates held by registers `x` and `y`, and records in `VF`
    /// whether a lit pixel went dark. Faults before anything is drawn if
    /// the sprite reaches beyond memory or beyond the display.
    fn debug_draw_sprites(&mut self, x: u8, y: u8, height: u8, bus: &mut Bus) -> (r: Result<
        (),
        Fault,
    >)
        requires
            (Instruction::Draw { x, y, height }).well_formed(),
        ensures
            sprite_out_of_bounds(old(self)@, x, y, height) ==> r == Err::<(), Fault>(
                Fault::OutOfBounds,
            ) && final(self)@ == old(self)@ && final(bus)@ == old(bus)@,
            !sprite_out_of_bounds(old(self)@, x, y, height) ==> r is Ok && ({
                let left = old(self)@.register(x) as int;
                let top = old(self)@.register(y) as int;
                let sprite = sprite_at(old(bus)@.memory, old(self)@.index, height);
                &&& final(self)@ == old(self)@.with_register(
                    FLAG_REGISTER,
                    flag(collides(old(bus)@.pixels, sprite, left, top)),
                )
                &&& final(bus)@ == (BusState {
                    pixels: drawn(old(bus)@.pixels, sprite, left, top),
                    ..old(bus)@
                })
            }),
    {
        proof {
            use_type_invariant(&*self);
            bus.lemma_valid();
        }
        let left = self.vx[x as usize];
        let top = self.vx[y as usize];
        let start = self.i as usize;
        let ghost memory = bus@.memory;
        if height == 0 {
            proof {
                assert(sprite_at(memory, self.i, height) =~= Seq::<u8>::empty());
                lemma_draw_nothing(bus@.pixels, left as int, top as int);
            }
            self.write_vx_register(FLAG_REGISTER, 0);
            return Ok(());
        }
        if start + height as usize > RAM_SIZE || left > 56 || top as usize + height as usize > 32 {
            return Err(Fault::OutOfBounds);
        }
        let mut sprite: Vec<u8> = Vec::new();
        let mut row: u8 = 0;
        while row < height
            invariant
                row <= height,
                start + height <= RAM_SIZE,
                start == self.i,
                memory == bus@.memory,
                sprite@ == sprite_at(memory, self.i, row),
            decreases height - row,
        {
            let byte = match bus.ram_read_byte(start + row as usize) {
                Ok(byte) => byte,
                Err(fault) => {
                    return Err(fault);
                },
            };
            sprite.push(byte);
            row += 1;
            assert(sprite@ =~= sprite_at(memory, self.i, row));
        }
        let collided = bus.draw_sprite(left, top, sprite.as_slice());
        self.write_vx_register(FLAG_REGISTER, if collided { 1 } else { 0 });
        Ok(())
    }

    /// Fills registers 0 to `last` from memory, starting at the index
    /// register. Faults before any register is written if the bytes reach
    /// beyond memory.
    fn load_registers(&mut self, last: u8, bus: &Bus) -> (r: Result<(), Fault>)
        requires
            last < REGISTER_COUNT,
        ensures
            old(self)@.index + last >= RAM_SIZE ==> r == Err::<(), Fault>(Fault::OutOfBounds)
                && final(self)@ == old(self)@,
            old(self)@.index + last < RAM_SIZE ==> r is Ok && final(self)@ == old(self)@.with_registers_loaded(bus@.memory, last as int + 1),
    {
        proof {
            use_type_invariant(&*self);
        }
        let start = self.i as usize;
        if start + last as usize >= RAM_SIZE {
            return Err(Fault::OutOfBounds);
        }
        let ghost before = self@;
        let mut index: u8 = 0;
        while index <= last
            invariant
                index <= last + 1,
                last < REGISTER_COUNT,
                start + last < RAM_SIZE,
                before == old(self)@,
                self@ == before.with_registers_loaded(bus@.memory, index as int),
                start == before.index,
            decreases last + 1 - index,
        {
            let value = match bus.ram_read_byte(start + index as usize) {
                Ok(byte) => byte,
                Err(fault) => {
                    return Err(fault);
                },
            };
            self.write_vx_register(index, value);
            index += 1;
            assert(self@ =~~= before.with_registers_loaded(bus@.memory, index as int));
        }
        Ok(())
    }

    /// Moves the program counter forward by `count` instructions.
    fn advance(&mut self, count: u16)
        requires
            old(self)@.pc + 2 * count <= u16::MAX,
        ensures
            final(self)@ == old(self)@.advanced(count as int),
    {
        proof {
            use_type_invariant(&*self);
        }
        self.pc = self.pc + 2 * count;
    }

    /// Carries out an instruction that only computes on registers.
    fn execute_arithmetic(&mut self, instruction: Instruction, Ghost(bus): Ghost<BusState>)
        requires
            instruction.well_formed(),
            instruction.is_arithmetic(),
            old(self)@.pc + 1 < RAM_SIZE,
        ensures
            executed(instruction, old(self)@, bus) == Ok::<(CpuState, BusState), Fault>(
                (final(self)@, bus),
            ),
    {
        match instruction {
            Instruction::Load { x, value } => {
                self.write_vx_register(x, value);
            },
            Instruction::AddImmediate { x, value } => {
                let vx = self.read_vx_register(x);
                self.write_vx_register(x, vx.wrapping_add(value));
            },
            Instruction::Move { x, y } => {
                let vy = self.read_vx_register(y);
                self.write_vx_register(x, vy);
            },
            Instruction::And { x, y } => {
                let vx = self.read_vx_register(x);
                let vy = self.read_vx_register(y);
                self.write_vx_register(x, vx & vy);
            },
            Instruction::Xor { x, y } => {
                let vx = self.read_vx_register(x);
                let vy = self.read_vx_register(y);
                self.write_vx_register(x, vx ^ vy);
            },
            Instruction::Add { x, y } => {
                let vx = self.read_vx_register(x);
                let vy = self.read_vx_register(y);
                let carry = vx as u16 + vy as u16 > 0xFF;
                self.write_vx_register(x, vx.wrapping_add(vy));
                self.write_vx_register(FLAG_REGISTER, if carry { 1 } else { 0 });
            },
            Instruction::Subtract { x, y } => {
                let vx = self.read_vx_register(x);
                let vy = self.read_vx_register(y);
                let borrow = vx < vy;
                self.write_vx_register(x, vx.wrapping_sub(vy));
                self.write_vx_register(FLAG_REGISTER, if borrow { 1 } else { 0 });
            },
            Instruction::ShiftRight { x, y } => {
                let vy = self.read_vx_register(y);
                assert(vy & 1 == vy % 2) by (bit_vector);
                assert(vy >> 1 == vy / 2) by (bit_vector);
                self.write_vx_register(FLAG_REGISTER, vy & 1);
                self.write_vx_register(y, vy >> 1);
                self.write_vx_register(x, vy >> 1);
            },
            _ => {},
        }
        self.advance(1);
    }

    /// Carries out a return, a jump or a call.
    fn execute_jump(&mut self, instruction: Instruction, Ghost(bus): Ghost<BusState>) -> (r:
        Result<(), Fault>)
        requires
            instruction.is_jump(),
            old(self)@.pc + 1 < RAM_SIZE,
        ensures
            agrees(executed(instruction, old(self)@, bus), (old(self)@, bus), r, final(self)@, bus),
    {
        proof {
            use_type_invariant(&*self);
        }
        let ghost before = self@;
        match instruction {
            Instruction::Return => {
                if self.depth == 0 {
                    return Err(Fault::StackUnderflow);
                }
                self.depth = self.depth - 1;
                self.pc = self.ret_stack[self.depth];
                assert(self@.stack =~= before.stack.drop_last());
            },
            Instruction::Jump { target } => {
                self.pc = target;
            },
            Instruction::Call { target } => {
                if self.depth >= STACK_LIMIT {
                    return Err(Fault::StackOverflow);
                }
                self.ret_stack[self.depth] = self.pc + 2;
                self.depth = self.depth + 1;
                self.pc = target;
                assert(self@.stack =~= before.stack.push((before.pc + 2) as u16));
            },
            _ => {},
        }
        Ok(())
    }

    /// Carries out a conditional skip.
    fn execute_skip(&mut self, instruction: Instruction, bus: &Bus) -> (r: Result<(), Fault>)
        requires
            instruction.well_formed(),
            instruction.is_skip(),
            old(self)@.pc + 1 < RAM_SIZE,
        ensures
            agrees(
                executed(instruction, old(self)@, bus@),
                (old(self)@, bus@),
                r,
                final(self)@,
                bus@,
            ),
    {
        proof {
            bus.lemma_valid();
        }
        let skip = match instruction {
            Instruction::SkipIfEqual { x, value } => self.read_vx_register(x) == value,
            Instruction::SkipIfPressed { x } => {
                let key = self.read_vx_register(x);
                match bus.key_pressed(key) {
                    Ok(pressed) => pressed,
                    Err(fault) => {
                        return Err(fault);
                    },
                }
            },
            Instruction::SkipIfReleased { x } => {
                let key = self.read_vx_register(x);
                match bus.key_pressed(key) {
                    Ok(pressed) => !pressed,
                    Err(fault) => {
                        return Err(fault);
                    },
                }
            },
            _ => false,
        };
        self.advance(if skip { 2 } else { 1 });
        Ok(())
    }

    /// Carries out an instruction that reaches a peripheral or the index
    /// register.
    fn execute_peripheral(&mut self, instruction: Instruction, bus: &mut Bus) -> (r: Result<
        (),
        Fault,
    >)
        requires
            instruction.well_formed(),
            !instruction.is_arithmetic(),
            !instruction.is_jump(),
            !instruction.is_skip(),
            old(self)@.pc + 1 < RAM_SIZE,
        ensures
            agrees(
                executed(instruction, old(self)@, old(bus)@),
                (old(self)@, old(bus)@),
                r,
                final(self)@,
                final(bus)@,
            ),
    {
        proof {
            use_type_invariant(&*self);
        }
        match instruction {
            Instruction::ClearScreen => {
                bus.clear_screen();
            },
            Instruction::LoadIndex { address } => {
                self.i = address;
            },
            Instruction::Draw { x, y, height } => {
                match self.debug_draw_sprites(x, y, height, bus) {
                    Ok(()) => {},
                    Err(fault) => {
                        return Err(fault);
                    },
                }
            },
            Instruction::ReadTimer { x } => {
                self.write_vx_register(x, bus.get_delay_timer());
            },
            Instruction::SetTimer { x } => {
                let vx = self.read_vx_register(x);
                bus.set_delay_timer(vx);
            },
            Instruction::AddToIndex { x } => {
                let vx = self.read_vx_register(x);
                self.i = self.i.wrapping_add(vx as u16);
            },
            Instruction::LoadRegisters { x } => {
                match self.load_registers(x, bus) {
                    Ok(()) => {},
                    Err(fault) => {
                        return Err(fault);
                    },
                }
            },
            _ => {},
        }
        self.advance(1);
        Ok(())
    }

    /// Carries out `instruction`.
    fn execute(&mut self, instruction: Instruction, bus: &mut Bus) -> (r: Result<(), Fault>)
        requires
            instruction.well_formed(),
            old(self)@.pc + 1 < RAM_SIZE,
        ensures
            agrees(
                executed(instruction, old(self)@, old(bus)@),
                (old(self)@, old(bus)@),
                r,
                final(self)@,
                final(bus)@,
            ),
    {
        match instruction {
            Instruction::Load { .. }
            | Instruction::AddImmediate { .. }
            | Instruction::Move { .. }
            | Instruction::And { .. }
            | Instruction::Xor { .. }
            | Instruction::Add { .. }
            | Instruction::Subtract { .. }
            | Instruction::ShiftRight { .. } => {
                self.execute_arithmetic(instruction, Ghost(bus@));
                Ok(())
            },
            Instruction::Return | Instruction::Jump { .. } | Instruction::Call { .. } => {
                self.execute_jump(instruction, Ghost(bus@))
            },
            Instruction::SkipIfEqual { .. }
            | Instruction::SkipIfPressed { .. }
            | Instruction::SkipIfReleased { .. } => self.execute_skip(instruction, bus),
            _ => self.execute_peripheral(instruction, bus),
        }
    }

    /// Runs one step: fetches the opcode at the program counter, decodes it
    /// and carries out the instruction. On a fault neither the processor nor
    /// the bus has changed.
    pub fn run_instructions(&mut self, bus: &mut Bus) -> (r: Result<(), Fault>)
        ensures
            final(self)@.valid(),
            final(bus)@.valid(),
            agrees(
                stepped(old(self)@, old(bus)@),
                (old(self)@, old(bus)@),
                r,
                final(self)@,
                final(bus)@,
            ),
    {
        proof {
            use_type_invariant(&*self);
            bus.lemma_valid();
            lemma_step_keeps_valid(self@, bus@);
        }
        let opcode = match self.fetch(bus) {
            Ok(opcode) => opcode,
            Err(fault) => {
                return Err(fault);
            },
        };
        match Instruction::decode(opcode) {
            Some(instruction) => self.execute(instruction, bus),
            None => Err(Fault::UnknownOpcode { opcode, pc: self.pc }),
        }
    }
}

} // verus!

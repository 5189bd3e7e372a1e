//! Laws of the instruction set, proved from the definition of a step.
//!
//! Each law speaks of [`stepped`], the function that
//! [`Cpu::run_instructions`](crate::cpu::Cpu::run_instructions) computes.

use vstd::prelude::*;
use crate::bus::BusState;
use crate::cpu::fetched;
use crate::cpu::flag;
use crate::cpu::stepped;
use crate::cpu::CpuState;
use crate::cpu::FLAG_REGISTER;
use crate::cpu::REGISTER_COUNT;
use crate::cpu::STACK_LIMIT;
use crate::fault::Fault;
use crate::instruction::decoded;
use crate::instruction::family_of;
use crate::instruction::kk_of;
use crate::instruction::n_of;
use crate::instruction::nnn_of;
use crate::instruction::x_of;
use crate::instruction::y_of;
use crate::instruction::Instruction;

verus! {

/// The opcode with first nibble `family` and the operands `x` and `kk`.
pub open spec fn opcode_xkk(family: int, x: u8, kk: u8) -> u16 {
    (family * 0x1000 + x * 0x100 + kk) as u16
}

/// The opcode with first nibble `family` and the operands `x`, `y` and `n`.
pub open spec fn opcode_xyn(family: int, x: u8, y: u8, n: u8) -> u16 {
    (family * 0x1000 + x * 0x100 + y * 0x10 + n) as u16
}

/// The opcode with first nibble `family` and the address operand `nnn`.
pub open spec fn opcode_nnn(family: int, nnn: u16) -> u16 {
    (family * 0x1000 + nnn) as u16
}

/// An opcode put together from a family, a register and a byte has these as
/// its operands.
pub proof fn lemma_operands_xkk(family: int, x: u8, kk: u8)
    requires
        0 <= family < 16,
        x < 16,
    ensures
        family_of(opcode_xkk(family, x, kk)) == family,
        x_of(opcode_xkk(family, x, kk)) == x,
        kk_of(opcode_xkk(family, x, kk)) == kk,
{
    let opcode = family * 0x1000 + x * 0x100 + kk;
    assert(opcode / 0x1000 == family);
    assert(opcode / 0x100 == family * 0x10 + x);
    assert(opcode % 0x100 == kk);
}

/// An opcode put together from a family, two registers and a nibble has
/// these as its operands.
pub proof fn lemma_operands_xyn(family: int, x: u8, y: u8, n: u8)
    requires
        0 <= family < 16,
        x < 16,
        y < 16,
        n < 16,
    ensures
        family_of(opcode_xyn(family, x, y, n)) == family,
        x_of(opcode_xyn(family, x, y, n)) == x,
        y_of(opcode_xyn(family, x, y, n)) == y,
        n_of(opcode_xyn(family, x, y, n)) == n,
{
    let opcode = family * 0x1000 + x * 0x100 + y * 0x10 + n;
    assert(opcode / 0x1000 == family);
    assert(opcode / 0x100 == family * 0x10 + x);
    assert(opcode / 0x10 == family * 0x100 + x * 0x10 + y);
    assert(opcode % 0x10 == n);
}

/// An opcode put together from a family and an address has these as its
/// operands.
pub proof fn lemma_operands_nnn(family: int, nnn: u16)
    requires
        0 <= family < 16,
        nnn < 0x1000,
    ensures
        family_of(opcode_nnn(family, nnn)) == family,
        nnn_of(opcode_nnn(family, nnn)) == nnn,
{
}

/// `6xkk` puts `kk` into register `x`, moves the program counter forward by
/// exactly 2 and changes no other register, nor anything else.
pub proof fn lemma_load_immediate(cpu: CpuState, bus: BusState, x: u8, kk: u8)
    requires
        cpu.valid(),
        x < REGISTER_COUNT,
        fetched(cpu, bus) == Ok::<u16, Fault>(opcode_xkk(0x6, x, kk)),
    ensures
        stepped(cpu, bus) matches Ok((next, after)) && {
            &&& next.register(x) == kk
            &&& next.pc == cpu.pc + 2
            &&& forall|r: u8| r < REGISTER_COUNT && r != x ==> next.register(r) == cpu.register(r)
            &&& next.registers.len() == REGISTER_COUNT
            &&& next.index == cpu.index
            &&& next.stack == cpu.stack
            &&& after == bus
        },
{
    lemma_operands_xkk(0x6, x, kk);
    assert(decoded(opcode_xkk(0x6, x, kk)) == Some(Instruction::Load { x, value: kk }));
}

/// `7xkk` adds `kk` to register `x` modulo 256 and changes no other
/// register: `VF` keeps its value unless it is register `x` itself.
pub proof fn lemma_add_immediate(cpu: CpuState, bus: BusState, x: u8, kk: u8)
    requires
        cpu.valid(),
        x < REGISTER_COUNT,
        fetched(cpu, bus) == Ok::<u16, Fault>(opcode_xkk(0x7, x, kk)),
    ensures
        stepped(cpu, bus) matches Ok((next, after)) && {
            &&& next.register(x) == (cpu.register(x) + kk) % 256
            &&& forall|r: u8| r < REGISTER_COUNT && r != x ==> next.register(r) == cpu.register(r)
            &&& next.pc == cpu.pc + 2
            &&& after == bus
        },
{
    lemma_operands_xkk(0x7, x, kk);
    assert(decoded(opcode_xkk(0x7, x, kk)) == Some(Instruction::AddImmediate { x, value: kk }));
}

/// `7xkk` on a register that holds 250, with `kk` = 10, leaves 4 in it: the
/// sum wraps. `VF` is unchanged where `x` is another register.
pub proof fn lemma_add_immediate_wraps(cpu: CpuState, bus: BusState, x: u8)
    requires
        cpu.valid(),
        x < REGISTER_COUNT,
        cpu.register(x) == 250,
        fetched(cpu, bus) == Ok::<u16, Fault>(opcode_xkk(0x7, x, 10)),
    ensures
        stepped(cpu, bus) matches Ok((next, after)) && {
            &&& next.register(x) == 4
            &&& x != FLAG_REGISTER ==> next.register(FLAG_REGISTER) == cpu.register(FLAG_REGISTER)
        },
{
    lemma_add_immediate(cpu, bus, x, 10);
}

/// `8xy4` sets `VF` to 1 if the sum of registers `x` and `y` exceeds 255 and
/// to 0 if not. Register `x`, where it is not `VF`, receives the sum modulo
/// 256; every other register keeps its value.
pub proof fn lemma_add_registers(cpu: CpuState, bus: BusState, x: u8, y: u8)
    requires
        cpu.valid(),
        x < REGISTER_COUNT,
        y < REGISTER_COUNT,
        fetched(cpu, bus) == Ok::<u16, Fault>(opcode_xyn(0x8, x, y, 4)),
    ensures
        stepped(cpu, bus) matches Ok((next, after)) && {
            let sum = cpu.register(x) + cpu.register(y);
            &&& next.register(FLAG_REGISTER) == flag(sum > 255)
            &&& x != FLAG_REGISTER ==> next.register(x) == sum % 256
            &&& forall|r: u8|
                r < REGISTER_COUNT && r != x && r != FLAG_REGISTER ==> next.register(r)
                    == cpu.register(r)
            &&& next.pc == cpu.pc + 2
            &&& after == bus
        },
{
    lemma_operands_xyn(0x8, x, y, 4);
    assert(decoded(opcode_xyn(0x8, x, y, 4)) == Some(Instruction::Add { x, y }));
}

/// `8xy4` with 200 in register `x` and 100 in register `y` leaves 44 in
/// register `x` and 1 in `VF`: the sum, 300, exceeds 255. Register `x` is
/// not `VF` here.
pub proof fn lemma_add_registers_carries(cpu: CpuState, bus: BusState, x: u8, y: u8)
    requires
        cpu.valid(),
        x < REGISTER_COUNT,
        y < REGISTER_COUNT,
        x != FLAG_REGISTER,
        cpu.register(x) == 200,
        cpu.register(y) == 100,
        fetched(cpu, bus) == Ok::<u16, Fault>(opcode_xyn(0x8, x, y, 4)),
    ensures
        stepped(cpu, bus) matches Ok((next, after)) && {
            &&& next.register(x) == 44
            &&& next.register(FLAG_REGISTER) == 1
        },
{
    lemma_add_registers(cpu, bus, x, y);
}

/// `8xy4` with 10 in register `x` and 20 in register `y` leaves 30 in
/// register `x` and 0 in `VF`. Register `x` is not `VF` here.
pub proof fn lemma_add_registers_without_carry(cpu: CpuState, bus: BusState, x: u8, y: u8)
    requires
        cpu.valid(),
        x < REGISTER_COUNT,
        y < REGISTER_COUNT,
        x != FLAG_REGISTER,
        cpu.register(x) == 10,
        cpu.register(y) == 20,
        fetched(cpu, bus) == Ok::<u16, Fault>(opcode_xyn(0x8, x, y, 4)),
    ensures
        stepped(cpu, bus) matches Ok((next, after)) && {
            &&& next.register(x) == 30
            &&& next.register(FLAG_REGISTER) == 0
        },
{
    lemma_add_registers(cpu, bus, x, y);
}

/// `2nnn` continues at `nnn`; a `00EE` executed there continues at the
/// instruction that follows the `2nnn`, with the call stack as it was
/// before the call.
pub proof fn lemma_call_then_return(cpu: CpuState, bus: BusState, nnn: u16)
    requires
        cpu.valid(),
        cpu.stack.len() < STACK_LIMIT,
        nnn < 0x1000,
        fetched(cpu, bus) == Ok::<u16, Fault>(opcode_nnn(0x2, nnn)),
        fetched(CpuState { pc: nnn, ..cpu }, bus) == Ok::<u16, Fault>(0x00EE),
    ensures
        stepped(cpu, bus) matches Ok((called, during)) && {
            &&& called.pc == nnn
            &&& during == bus
            &&& stepped(called, during) matches Ok((returned, after)) && {
                &&& returned.pc == cpu.pc + 2
                &&& returned == CpuState { pc: returned.pc, ..cpu }
                &&& after == bus
            }
        },
{
    lemma_operands_nnn(0x2, nnn);
    assert(decoded(opcode_nnn(0x2, nnn)) == Some(Instruction::Call { target: nnn }));
    let called = stepped(cpu, bus)->Ok_0.0;
    assert(fetched(called, bus) == fetched(CpuState { pc: nnn, ..cpu }, bus));
    assert(decoded(0x00EE) == Some(Instruction::Return));
    let returned = stepped(called, bus)->Ok_0.0;
    assert(returned.stack =~= cpu.stack);
}

/// `2nnn` with a full call stack faults with `StackOverflow`.
pub proof fn lemma_call_overflows(cpu: CpuState, bus: BusState, nnn: u16)
    requires
        cpu.stack.len() >= STACK_LIMIT,
        nnn < 0x1000,
        fetched(cpu, bus) == Ok::<u16, Fault>(opcode_nnn(0x2, nnn)),
    ensures
        stepped(cpu, bus) == Err::<(CpuState, BusState), Fault>(Fault::StackOverflow),
{
    lemma_operands_nnn(0x2, nnn);
    assert(decoded(opcode_nnn(0x2, nnn)) == Some(Instruction::Call { target: nnn }));
}

/// `00EE` with an empty call stack faults with `StackUnderflow`.
pub proof fn lemma_return_underflows(cpu: CpuState, bus: BusState)
    requires
        cpu.stack.len() == 0,
        fetched(cpu, bus) == Ok::<u16, Fault>(0x00EE),
    ensures
        stepped(cpu, bus) == Err::<(CpuState, BusState), Fault>(Fault::StackUnderflow),
{
    assert(decoded(0x00EE) == Some(Instruction::Return));
}

/// The opcode `FFFF` stands for no instruction: the step faults with
/// `UnknownOpcode`, which carries the opcode and the program counter.
pub proof fn lemma_unknown_opcode(cpu: CpuState, bus: BusState)
    requires
        fetched(cpu, bus) == Ok::<u16, Fault>(0xFFFF),
    ensures
        stepped(cpu, bus) == Err::<(CpuState, BusState), Fault>(
            Fault::UnknownOpcode { opcode: 0xFFFF, pc: cpu.pc },
        ),
{
    assert(decoded(0xFFFF) is None);
}

/// A step whose two opcode bytes do not both lie in memory faults with
/// `OutOfBounds`.
pub proof fn lemma_fetch_beyond_memory(cpu: CpuState, bus: BusState)
    requires
        cpu.pc + 1 >= crate::ram::RAM_SIZE,
    ensures
        stepped(cpu, bus) == Err::<(CpuState, BusState), Fault>(Fault::OutOfBounds),
{
}

} // verus!

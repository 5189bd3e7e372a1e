//! The instruction set: what a 16-bit opcode means.
//!
//! An opcode is read as four nibbles. The first selects the family; the
//! others are operands: `x` (bits 8 to 11) and `y` (bits 4 to 7) name
//! registers, `kk` (the low byte) is an immediate value, `n` (the low nibble)
//! a small immediate and `nnn` (the low 12 bits) an address.

use vstd::prelude::*;

verus! {

/// One decoded instruction.
///
/// `x` and `y` are register numbers. `VF` is register 15.
#[derive(Clone, Copy, Debug, PartialEq, Eq, Structural)]
pub enum Instruction {
    /// `00E0`: turn every pixel dark.
    ClearScreen,
    /// `00EE`: return to the address on top of the call stack.
    Return,
    /// `1nnn`: continue at `target`.
    Jump { target: u16 },
    /// `2nnn`: remember the next instruction's address and continue at `target`.
    Call { target: u16 },
    /// `3xkk`: skip the next instruction if register `x` holds `value`.
    SkipIfEqual { x: u8, value: u8 },
    /// `6xkk`: put `value` into register `x`.
    Load { x: u8, value: u8 },
    /// `7xkk`: add `value` to register `x`, modulo 256, without a carry flag.
    AddImmediate { x: u8, value: u8 },
    /// `8xy0`: copy register `y` into register `x`.
    Move { x: u8, y: u8 },
    /// `8xy2`: bitwise and of registers `x` and `y`, into `x`.
    And { x: u8, y: u8 },
    /// `8xy3`: bitwise exclusive or of registers `x` and `y`, into `x`.
    Xor { x: u8, y: u8 },
    /// `8xy4`: add register `y` to register `x`, modulo 256; then `VF`
    /// becomes 1 if the sum exceeded 255 and 0 if not.
    Add { x: u8, y: u8 },
    /// `8xy5`: subtract register `y` from register `x`, modulo 256; then
    /// `VF` becomes 1 if the subtraction borrowed and 0 if not.
    Subtract { x: u8, y: u8 },
    /// `8xy6`: `VF` becomes the lowest bit of register `y`; then register
    /// `y`, and after it register `x`, become the former register `y`
    /// shifted right by one.
    ShiftRight { x: u8, y: u8 },
    /// `Annn`: put `address` into the index register.
    LoadIndex { address: u16 },
    /// `Dxyn`: draw the `height` bytes at the index register as a sprite at
    /// the coordinates held by registers `x` and `y`; then `VF` becomes 1 if
    /// a lit pixel went dark and 0 if not.
    Draw { x: u8, y: u8, height: u8 },
    /// `Ex9E`: skip the next instruction if the key named by register `x`
    /// is held down.
    SkipIfPressed { x: u8 },
    /// `ExA1`: skip the next instruction if the key named by register `x`
    /// is not held down.
    SkipIfReleased { x: u8 },
    /// `Fx07`: put the delay timer into register `x`.
    ReadTimer { x: u8 },
    /// `Fx15`: put register `x` into the delay timer.
    SetTimer { x: u8 },
    /// `Fx1E`: add register `x` to the index register, modulo 65536.
    AddToIndex { x: u8 },
    /// `Fx65`: fill registers 0 to `x` from memory, starting at the index
    /// register.
    LoadRegisters { x: u8 },
}

/// First nibble of an opcode.
pub open spec fn family_of(opcode: u16) -> int {
    opcode as int / 0x1000
}

/// The address operand `nnn`.
pub open spec fn nnn_of(opcode: u16) -> u16 {
    (opcode as int % 0x1000) as u16
}

/// The immediate operand `kk`.
pub open spec fn kk_of(opcode: u16) -> u8 {
    (opcode as int % 0x100) as u8
}

/// The small immediate operand `n`.
pub open spec fn n_of(opcode: u16) -> u8 {
    (opcode as int % 0x10) as u8
}

/// The register operand `x`.
pub open spec fn x_of(opcode: u16) -> u8 {
    (opcode as int / 0x100 % 0x10) as u8
}

/// The register operand `y`.
pub open spec fn y_of(opcode: u16) -> u8 {
    (opcode as int / 0x10 % 0x10) as u8
}

/// The instruction that `opcode` stands for, if it stands for one.
pub open spec fn decoded(opcode: u16) -> Option<Instruction> {
    let nnn = nnn_of(opcode);
    let kk = kk_of(opcode);
    let n = n_of(opcode);
    let x = x_of(opcode);
    let y = y_of(opcode);
    let family = family_of(opcode);
    if opcode == 0x00E0 {
        Some(Instruction::ClearScreen)
    } else if opcode == 0x00EE {
        Some(Instruction::Return)
    } else if family == 0x1 {
        Some(Instruction::Jump { target: nnn })
    } else if family == 0x2 {
        Some(Instruction::Call { target: nnn })
    } else if family == 0x3 {
        Some(Instruction::SkipIfEqual { x, value: kk })
    } else if family == 0x6 {
        Some(Instruction::Load { x, value: kk })
    } else if family == 0x7 {
        Some(Instruction::AddImmediate { x, value: kk })
    } else if family == 0x8 && n == 0x0 {
        Some(Instruction::Move { x, y })
    } else if family == 0x8 && n == 0x2 {
        Some(Instruction::And { x, y })
    } else if family == 0x8 && n == 0x3 {
        Some(Instruction::Xor { x, y })
    } else if family == 0x8 && n == 0x4 {
        Some(Instruction::Add { x, y })
    } else if family == 0x8 && n == 0x5 {
        Some(Instruction::Subtract { x, y })
    } else if family == 0x8 && n == 0x6 {
        Some(Instruction::ShiftRight { x, y })
    } else if family == 0xA {
        Some(Instruction::LoadIndex { address: nnn })
    } else if family == 0xD {
        Some(Instruction::Draw { x, y, height: n })
    } else if family == 0xE && kk == 0x9E {
        Some(Instruction::SkipIfPressed { x })
    } else if family == 0xE && kk == 0xA1 {
        Some(Instruction::SkipIfReleased { x })
    } else if family == 0xF && kk == 0x07 {
        Some(Instruction::ReadTimer { x })
    } else if family == 0xF && kk == 0x15 {
        Some(Instruction::SetTimer { x })
    } else if family == 0xF && kk == 0x1E {
        Some(Instruction::AddToIndex { x })
    } else if family == 0xF && kk == 0x65 {
        Some(Instruction::LoadRegisters { x })
    } else {
        None
    }
}

impl Instruction {
    /// Whether the operands are in range: register numbers and the sprite
    /// height below 16, addresses below 4096.
    pub open spec fn well_formed(self) -> bool {
        match self {
            Instruction::ClearScreen | Instruction::Return => true,
            Instruction::Jump { target } | Instruction::Call { target } => target < 0x1000,
            Instruction::SkipIfEqual { x, .. }
            | Instruction::Load { x, .. }
            | Instruction::AddImmediate { x, .. } => x < 16,
            Instruction::Move { x, y }
            | Instruction::And { x, y }
            | Instruction::Xor { x, y }
            | Instruction::Add { x, y }
            | Instruction::Subtract { x, y }
            | Instruction::ShiftRight { x, y } => x < 16 && y < 16,
            Instruction::LoadIndex { address } => address < 0x1000,
            Instruction::Draw { x, y, height } => x < 16 && y < 16 && height < 16,
            Instruction::SkipIfPressed { x }
            | Instruction::SkipIfReleased { x }
            | Instruction::ReadTimer { x }
            | Instruction::SetTimer { x }
            | Instruction::AddToIndex { x }
            | Instruction::LoadRegisters { x } => x < 16,
        }
    }

    /// Whether the instruction only computes on registers.
    pub open spec fn is_arithmetic(self) -> bool {
        self is Load || self is AddImmediate || self is Move || self is And || self is Xor
            || self is Add || self is Subtract || self is ShiftRight
    }

    /// Whether the instruction is a return, a jump or a call.
    pub open spec fn is_jump(self) -> bool {
        self is Return || self is Jump || self is Call
    }

    /// Whether the instruction is a conditional skip.
    pub open spec fn is_skip(self) -> bool {
        self is SkipIfEqual || self is SkipIfPressed || self is SkipIfReleased
    }

    /// Decodes `opcode`; `None` if it matches no instruction.
    pub fn decode(opcode: u16) -> (instruction: Option<Instruction>)
        ensures
            instruction == decoded(opcode),
            instruction matches Some(i) ==> i.well_formed(),
    {
        let nnn: u16 = opcode & 0x0FFF;
        let kk: u8 = (opcode & 0x00FF) as u8;
        let n: u8 = (opcode & 0x000F) as u8;
        let x: u8 = ((opcode & 0x0F00) >> 8) as u8;
        let y: u8 = ((opcode & 0x00F0) >> 4) as u8;
        let family: u16 = opcode >> 12;
        assert(opcode & 0x0FFF == opcode % 0x1000) by (bit_vector);
        assert(opcode & 0x00FF == opcode % 0x100) by (bit_vector);
        assert(opcode & 0x000F == opcode % 0x10) by (bit_vector);
        assert((opcode & 0x0F00) >> 8 == opcode / 0x100 % 0x10) by (bit_vector);
        assert((opcode & 0x00F0) >> 4 == opcode / 0x10 % 0x10) by (bit_vector);
        assert(opcode >> 12 == opcode / 0x1000) by (bit_vector);
        if opcode == 0x00E0 {
            Some(Instruction::ClearScreen)
        } else if opcode == 0x00EE {
            Some(Instruction::Return)
        } else if family == 0x1 {
            Some(Instruction::Jump { target: nnn })
        } else if family == 0x2 {
            Some(Instruction::Call { target: nnn })
        } else if family == 0x3 {
            Some(Instruction::SkipIfEqual { x, value: kk })
        } else if family == 0x6 {
            Some(Instruction::Load { x, value: kk })
        } else if family == 0x7 {
            Some(Instruction::AddImmediate { x, value: kk })
        } else if family == 0x8 {
            match n {
                0x0 => Some(Instruction::Move { x, y }),
                0x2 => Some(Instruction::And { x, y }),
                0x3 => Some(Instruction::Xor { x, y }),
                0x4 => Some(Instruction::Add { x, y }),
                0x5 => Some(Instruction::Subtract { x, y }),
                0x6 => Some(Instruction::ShiftRight { x, y }),
                _ => None,
            }
        } else if family == 0xA {
            Some(Instruction::LoadIndex { address: nnn })
        } else if family == 0xD {
            Some(Instruction::Draw { x, y, height: n })
        } else if family == 0xE {
            match kk {
                0x9E => Some(Instruction::SkipIfPressed { x }),
                0xA1 => Some(Instruction::SkipIfReleased { x }),
                _ => None,
            }
        } else if family == 0xF {
            match kk {
                0x07 => Some(Instruction::ReadTimer { x }),
                0x15 => Some(Instruction::SetTimer { x }),
                0x1E => Some(Instruction::AddToIndex { x }),
                0x65 => Some(Instruction::LoadRegisters { x }),
                _ => None,
            }
        } else {
            None
        }
    }
}

} // verus!

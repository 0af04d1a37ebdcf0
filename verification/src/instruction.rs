//! Instruction words and their decoding.

use vstd::prelude::*;

verus! {

/// One decoded instruction. `x` and `y` name registers, `n` is a nibble, `nn`
/// a byte and `nnn` a twelve-bit address, all taken from the instruction word.
#[derive(Debug, Clone, Copy, PartialEq, Eq, Structural)]
pub enum Instruction {
    /// `00E0`: clear the display.
    ClearScreen,
    /// `00EE`: return from a subroutine.
    Return,
    /// `1NNN`: jump to `nnn`.
    Jump { nnn: u16 },
    /// `2NNN`: call the subroutine at `nnn`.
    Call { nnn: u16 },
    /// `3XNN`: skip the next instruction if `Vx == nn`.
    SkipEqual { x: u8, nn: u8 },
    /// `4XNN`: skip the next instruction if `Vx != nn`.
    SkipNotEqual { x: u8, nn: u8 },
    /// `5XY0`: skip the next instruction if `Vx == Vy`.
    SkipRegistersEqual { x: u8, y: u8 },
    /// `6XNN`: `Vx = nn`.
    Load { x: u8, nn: u8 },
    /// `7XNN`: `Vx = Vx + nn`, wrapping, flag untouched.
    Add { x: u8, nn: u8 },
    /// `8XY0`: `Vx = Vy`.
    Move { x: u8, y: u8 },
    /// `8XY1`: `Vx = Vx | Vy`, flag cleared.
    Or { x: u8, y: u8 },
    /// `8XY2`: `Vx = Vx & Vy`, flag cleared.
    And { x: u8, y: u8 },
    /// `8XY3`: `Vx = Vx ^ Vy`, flag cleared.
    Xor { x: u8, y: u8 },
    /// `8XY4`: `Vx = Vx + Vy`, wrapping, flag set on carry.
    AddRegister { x: u8, y: u8 },
    /// `8XY5`: `Vx = Vx - Vy`, wrapping, flag set unless a borrow occurred.
    Subtract { x: u8, y: u8 },
    /// `8XY6`: shift right by one, flag set to the bit shifted out.
    ShiftRight { x: u8, y: u8 },
    /// `8XY7`: `Vx = Vy - Vx`, wrapping, flag set unless a borrow occurred.
    SubtractFrom { x: u8, y: u8 },
    /// `8XYE`: shift left by one, flag set to the bit shifted out.
    ShiftLeft { x: u8, y: u8 },
    /// `9XYN`: skip the next instruction if `Vx != Vy`.
    SkipRegistersNotEqual { x: u8, y: u8 },
    /// `ANNN`: `I = nnn`.
    LoadIndex { nnn: u16 },
    /// `BNNN`: jump to `nnn` plus a register.
    JumpOffset { x: u8, nnn: u16 },
    /// `CXNN`: `Vx = random byte & nn`.
    Random { x: u8, nn: u8 },
    /// `DXYN`: draw the `n`-row sprite at `I` at column `Vx`, row `Vy`.
    Draw { x: u8, y: u8, n: u8 },
    /// `EX9E`: skip the next instruction if key `Vx` is held.
    SkipKeyPressed { x: u8 },
    /// `EXA1`: skip the next instruction if key `Vx` is not held.
    SkipKeyNotPressed { x: u8 },
    /// `FX07`: `Vx = delay timer`.
    ReadDelay { x: u8 },
    /// `FX0A`: wait for a key press and store the key in `Vx`.
    WaitKey { x: u8 },
    /// `FX15`: `delay timer = Vx`.
    SetDelay { x: u8 },
    /// `FX18`: `sound timer = Vx`.
    SetSound { x: u8 },
    /// `FX1E`: `I = I + Vx`, wrapping.
    AddIndex { x: u8 },
    /// `FX29`: `I` = address of the glyph of the low nibble of `Vx`.
    Glyph { x: u8 },
    /// `FX33`: store the three decimal digits of `Vx` at `I`, `I+1`, `I+2`.
    Decimal { x: u8 },
    /// `FX55`: store `V0..=Vx` at `I`.
    Store { x: u8 },
    /// `FX65`: load `V0..=Vx` from `I`.
    Restore { x: u8 },
}

/// Bits 15 to 12 of an instruction word.
pub open spec fn class_of(opcode: u16) -> u16 {
    opcode / 0x1000
}

/// Bits 11 to 8 of an instruction word.
pub open spec fn x_of(opcode: u16) -> u8 {
    ((opcode / 0x100) % 0x10) as u8
}

/// Bits 7 to 4 of an instruction word.
pub open spec fn y_of(opcode: u16) -> u8 {
    ((opcode / 0x10) % 0x10) as u8
}

/// Bits 3 to 0 of an instruction word.
pub open spec fn n_of(opcode: u16) -> u8 {
    (opcode % 0x10) as u8
}

/// Bits 7 to 0 of an instruction word.
pub open spec fn nn_of(opcode: u16) -> u8 {
    (opcode % 0x100) as u8
}

/// Bits 11 to 0 of an instruction word.
pub open spec fn nnn_of(opcode: u16) -> u16 {
    opcode % 0x1000
}

/// The instruction that a word encodes, or `None` where no rule matches.
pub open spec fn decoded(opcode: u16) -> Option<Instruction> {
    let x = x_of(opcode);
    let y = y_of(opcode);
    let n = n_of(opcode);
    let nn = nn_of(opcode);
    let nnn = nnn_of(opcode);
    let class = class_of(opcode);
    if class == 0x0 {
        if opcode == 0x00E0 {
            Some(Instruction::ClearScreen)
        } else if opcode == 0x00EE {
            Some(Instruction::Return)
        } else {
            None
        }
    } else if class == 0x1 {
        Some(Instruction::Jump { nnn })
    } else if class == 0x2 {
        Some(Instruction::Call { nnn })
    } else if class == 0x3 {
        Some(Instruction::SkipEqual { x, nn })
    } else if class == 0x4 {
        Some(Instruction::SkipNotEqual { x, nn })
    } else if class == 0x5 {
        if n == 0 {
            Some(Instruction::SkipRegistersEqual { x, y })
        } else {
            None
        }
    } else if class == 0x6 {
        Some(Instruction::Load { x, nn })
    } else if class == 0x7 {
        Some(Instruction::Add { x, nn })
    } else if class == 0x8 {
        if n == 0x0 {
            Some(Instruction::Move { x, y })
        } else if n == 0x1 {
            Some(Instruction::Or { x, y })
        } else if n == 0x2 {
            Some(Instruction::And { x, y })
        } else if n == 0x3 {
            Some(Instruction::Xor { x, y })
        } else if n == 0x4 {
            Some(Instruction::AddRegister { x, y })
        } else if n == 0x5 {
            Some(Instruction::Subtract { x, y })
        } else if n == 0x6 {
            Some(Instruction::ShiftRight { x, y })
        } else if n == 0x7 {
            Some(Instruction::SubtractFrom { x, y })
        } else if n == 0xE {
            Some(Instruction::ShiftLeft { x, y })
        } else {
            None
        }
    } else if class == 0x9 {
        Some(Instruction::SkipRegistersNotEqual { x, y })
    } else if class == 0xA {
        Some(Instruction::LoadIndex { nnn })
    } else if class == 0xB {
        Some(Instruction::JumpOffset { x, nnn })
    } else if class == 0xC {
        Some(Instruction::Random { x, nn })
    } else if class == 0xD {
        Some(Instruction::Draw { x, y, n })
    } else if class == 0xE {
        if nn == 0x9E {
            Some(Instruction::SkipKeyPressed { x })
        } else if nn == 0xA1 {
            Some(Instruction::SkipKeyNotPressed { x })
        } else {
            None
        }
    } else {
        if nn == 0x07 {
            Some(Instruction::ReadDelay { x })
        } else if nn == 0x0A {
            Some(Instruction::WaitKey { x })
        } else if nn == 0x15 {
            Some(Instruction::SetDelay { x })
        } else if nn == 0x18 {
            Some(Instruction::SetSound { x })
        } else if nn == 0x1E {
            Some(Instruction::AddIndex { x })
        } else if nn == 0x29 {
            Some(Instruction::Glyph { x })
        } else if nn == 0x33 {
            Some(Instruction::Decimal { x })
        } else if nn == 0x55 {
            Some(Instruction::Store { x })
        } else if nn == 0x65 {
            Some(Instruction::Restore { x })
        } else {
            None
        }
    }
}

impl Instruction {
    /// Register numbers and the nibble are below sixteen, addresses below 4096.
    pub open spec fn wf(self) -> bool {
        match self {
            Instruction::ClearScreen | Instruction::Return => true,
            Instruction::Jump { nnn } | Instruction::Call { nnn } | Instruction::LoadIndex {
                nnn,
            } => nnn < 0x1000,
            Instruction::SkipEqual { x, .. }
            | Instruction::SkipNotEqual { x, .. }
            | Instruction::Load { x, .. }
            | Instruction::Add { x, .. }
            | Instruction::Random { x, .. }
            | Instruction::SkipKeyPressed { x }
            | Instruction::SkipKeyNotPressed { x }
            | Instruction::ReadDelay { x }
            | Instruction::WaitKey { x }
            | Instruction::SetDelay { x }
            | Instruction::SetSound { x }
            | Instruction::AddIndex { x }
            | Instruction::Glyph { x }
            | Instruction::Decimal { x }
            | Instruction::Store { x }
            | Instruction::Restore { x } => x < 16,
            Instruction::SkipRegistersEqual { x, y }
            | Instruction::Move { x, y }
            | Instruction::Or { x, y }
            | Instruction::And { x, y }
            | Instruction::Xor { x, y }
            | Instruction::AddRegister { x, y }
            | Instruction::Subtract { x, y }
            | Instruction::ShiftRight { x, y }
            | Instruction::SubtractFrom { x, y }
            | Instruction::ShiftLeft { x, y }
            | Instruction::SkipRegistersNotEqual { x, y } => x < 16 && y < 16,
            Instruction::JumpOffset { x, nnn } => x < 16 && nnn < 0x1000,
            Instruction::Draw { x, y, n } => x < 16 && y < 16 && n < 16,
        }
    }
}

/// Whatever a word decodes to is well formed.
pub proof fn lemma_decoded_wf(opcode: u16)
    ensures
        decoded(opcode) matches Some(instruction) ==> instruction.wf(),
{
}

/// Decodes one instruction word.
pub fn decode(opcode: u16) -> (instruction: Option<Instruction>)
    ensures
        instruction == decoded(opcode),
{
    let class: u16 = (opcode & 0xF000) >> 12;
    let x: u8 = ((opcode & 0x0F00) >> 8) as u8;
    let y: u8 = ((opcode & 0x00F0) >> 4) as u8;
    let n: u8 = (opcode & 0x000F) as u8;
    let nn: u8 = (opcode & 0x00FF) as u8;
    let nnn: u16 = opcode & 0x0FFF;
    assert(class == class_of(opcode)) by (bit_vector)
        requires
            class == (opcode & 0xF000) >> 12,
    ;
    assert(x == x_of(opcode)) by (bit_vector)
        requires
            x == ((opcode & 0x0F00) >> 8) as u8,
    ;
    assert(y == y_of(opcode)) by (bit_vector)
        requires
            y == ((opcode & 0x00F0) >> 4) as u8,
    ;
    assert(n == n_of(opcode)) by (bit_vector)
        requires
            n == (opcode & 0x000F) as u8,
    ;
    assert(nn == nn_of(opcode)) by (bit_vector)
        requires
            nn == (opcode & 0x00FF) as u8,
    ;
    assert(nnn == nnn_of(opcode)) by (bit_vector)
        requires
            nnn == opcode & 0x0FFF,
    ;
    match class {
        0x0 => match opcode {
            0x00E0 => Some(Instruction::ClearScreen),
            0x00EE => Some(Instruction::Return),
            _ => None,
        },
        0x1 => Some(Instruction::Jump { nnn }),
        0x2 => Some(Instruction::Call { nnn }),
        0x3 => Some(Instruction::SkipEqual { x, nn }),
        0x4 => Some(Instruction::SkipNotEqual { x, nn }),
        0x5 => match n {
            0 => Some(Instruction::SkipRegistersEqual { x, y }),
            _ => None,
        },
        0x6 => Some(Instruction::Load { x, nn }),
        0x7 => Some(Instruction::Add { x, nn }),
        0x8 => match n {
            0x0 => Some(Instruction::Move { x, y }),
            0x1 => Some(Instruction::Or { x, y }),
            0x2 => Some(Instruction::And { x, y }),
            0x3 => Some(Instruction::Xor { x, y }),
            0x4 => Some(Instruction::AddRegister { x, y }),
            0x5 => Some(Instruction::Subtract { x, y }),
            0x6 => Some(Instruction::ShiftRight { x, y }),
            0x7 => Some(Instruction::SubtractFrom { x, y }),
            0xE => Some(Instruction::ShiftLeft { x, y }),
            _ => None,
        },
        0x9 => Some(Instruction::SkipRegistersNotEqual { x, y }),
        0xA => Some(Instruction::LoadIndex { nnn }),
        0xB => Some(Instruction::JumpOffset { x, nnn }),
        0xC => Some(Instruction::Random { x, nn }),
        0xD => Some(Instruction::Draw { x, y, n }),
        0xE => match nn {
            0x9E => Some(Instruction::SkipKeyPressed { x }),
            0xA1 => Some(Instruction::SkipKeyNotPressed { x }),
            _ => None,
        },
        0xF => match nn {
            0x07 => Some(Instruction::ReadDelay { x }),
            0x0A => Some(Instruction::WaitKey { x }),
            0x15 => Some(Instruction::SetDelay { x }),
            0x18 => Some(Instruction::SetSound { x }),
            0x1E => Some(Instruction::AddIndex { x }),
            0x29 => Some(Instruction::Glyph { x }),
            0x33 => Some(Instruction::Decimal { x }),
            0x55 => Some(Instruction::Store { x }),
            0x65 => Some(Instruction::Restore { x }),
            _ => None,
        },
        _ => None,
    }
}

} // verus!

//! Failures of the machine.

use vstd::prelude::*;

verus! {

/// Why an operation of the machine was refused.
///
/// A refused operation leaves every component as it was.
#[derive(Debug, Clone, Copy, PartialEq, Eq, Structural)]
pub enum Chip8Error {
    /// No decoding rule matches the instruction word.
    UnknownOpcode(u16),
    /// A return was executed while no call was outstanding.
    StackUnderflow,
    /// A call was executed while the call stack was full.
    StackOverflow,
    /// An address outside the memory image was used.
    OutOfBounds,
}

/// The digits of upper-case hexadecimal notation.
pub const HEX_DIGITS: [char; 16] = [
    '0', '1', '2', '3', '4', '5', '6', '7', '8', '9', 'A', 'B', 'C', 'D', 'E', 'F',
];

/// The four hexadecimal digits of `word`, most significant first.
pub open spec fn hex_word(word: u16) -> Seq<char> {
    seq![
        HEX_DIGITS[word as int / 0x1000],
        HEX_DIGITS[(word as int / 0x100) % 0x10],
        HEX_DIGITS[(word as int / 0x10) % 0x10],
        HEX_DIGITS[word as int % 0x10],
    ]
}

/// `String::push` of the standard library appends one character to the end
/// of the string.
pub assume_specification[ String::push ](text: &mut String, ch: char)
    ensures
        final(text)@ == old(text)@.push(ch),
;

impl Chip8Error {
    /// The text of the error: for an unknown instruction word the word itself
    /// in hexadecimal, as in `Unknown opcode: 0x00FF`.
    pub open spec fn description(self) -> Seq<char> {
        match self {
            Chip8Error::UnknownOpcode(opcode) => "Unknown opcode: 0x"@ + hex_word(opcode),
            Chip8Error::StackUnderflow => "Stack underflow"@,
            Chip8Error::StackOverflow => "Stack overflow"@,
            Chip8Error::OutOfBounds => "Address out of bounds"@,
        }
    }

    /// The error as text for the user.
    pub fn message(&self) -> (text: String)
        ensures
            text@ == self.description(),
    {
        match self {
            Chip8Error::UnknownOpcode(opcode) => {
                let word: u16 = *opcode;
                let mut text = "Unknown opcode: 0x".to_owned();
                text.push(HEX_DIGITS[(word / 0x1000) as usize]);
                text.push(HEX_DIGITS[((word / 0x100) % 0x10) as usize]);
                text.push(HEX_DIGITS[((word / 0x10) % 0x10) as usize]);
                text.push(HEX_DIGITS[(word % 0x10) as usize]);
                assert(text@ =~= "Unknown opcode: 0x"@ + hex_word(word));
                text
            },
            Chip8Error::StackUnderflow => "Stack underflow".to_owned(),
            Chip8Error::StackOverflow => "Stack overflow".to_owned(),
            Chip8Error::OutOfBounds => "Address out of bounds".to_owned(),
        }
    }
}

} // verus!

//! The machine as a mathematical object: what the processor, the memory, the
//! display and the keyboard hold, and what one instruction makes of them.

use vstd::prelude::*;
use crate::constants::{
    FLAG_REGISTER, FONT_DATA_START_ADDRESS, GLYPH_HEIGHT, MEMORY_SIZE, ORIGINAL_HEIGHT,
    ORIGINAL_WIDTH, PROGRAM_START_ADDRESS, REGISTER_COUNT, STACK_CAPACITY,
};
use crate::display::DisplayView;
use crate::error::Chip8Error;
use crate::instruction::{decoded, Instruction};
use crate::keyboard::KeyboardView;
use crate::quirks::Quirks;

verus! {

/// `value` reduced to eight bits.
pub open spec fn wrap8(value: int) -> u8 {
    (value % 0x100) as u8
}

/// `value` reduced to sixteen bits.
pub open spec fn wrap16(value: int) -> u16 {
    (value % 0x1_0000) as u16
}

/// What the processor holds.
#[verifier::ext_equal]
pub struct CpuView {
    /// Address of the next instruction.
    pub pc: u16,
    /// The general-purpose registers `V0` to `VF`.
    pub v: Seq<u8>,
    /// The index register `I`.
    pub i: u16,
    /// Return addresses of the calls that are outstanding, the latest last.
    pub stack: Seq<u16>,
    /// Counts down while a tone is due.
    pub sound_timer: u8,
    /// Counts down for the program's own use.
    pub delay_timer: u8,
    /// The conventions chosen when the processor was built.
    pub quirks: Quirks,
    /// The register that receives the key of the latest key wait.
    pub key_register: u8,
}

impl CpuView {
    /// Sixteen registers, a call stack within its capacity, and a key
    /// register that exists.
    pub open spec fn wf(self) -> bool {
        &&& self.v.len() == REGISTER_COUNT
        &&& self.stack.len() <= STACK_CAPACITY
        &&& self.key_register < REGISTER_COUNT
    }

    /// A processor before its first instruction.
    pub open spec fn initial(quirks: Quirks) -> CpuView {
        CpuView {
            pc: PROGRAM_START_ADDRESS,
            v: Seq::new(REGISTER_COUNT as nat, |r: int| 0u8),
            i: 0,
            stack: Seq::empty(),
            sound_timer: 0,
            delay_timer: 0,
            quirks,
            key_register: 0,
        }
    }

    /// The processor with register `x` set to `value`.
    pub open spec fn with_register(self, x: u8, value: u8) -> CpuView {
        CpuView { v: self.v.update(x as int, value), ..self }
    }

    /// The processor with the flag register set to `value`.
    pub open spec fn with_flag(self, value: u8) -> CpuView {
        CpuView { v: self.v.update(FLAG_REGISTER as int, value), ..self }
    }

    /// The processor with the program counter moved to the next instruction.
    pub open spec fn advanced(self) -> CpuView {
        CpuView { pc: wrap16(self.pc + 2), ..self }
    }

    /// The processor with the next instruction skipped where `condition` holds.
    pub open spec fn skipping(self, condition: bool) -> CpuView {
        if condition {
            self.advanced()
        } else {
            self
        }
    }

    /// The error that `instruction` meets on this processor, if any: a return
    /// without a call, a call beyond the capacity of the stack, or an access
    /// past the end of memory. A sprite row that falls below the display is
    /// not read.
    pub open spec fn fault(self, instruction: Instruction) -> Option<Chip8Error> {
        match instruction {
            Instruction::Return => if self.stack.len() == 0 {
                Some(Chip8Error::StackUnderflow)
            } else {
                None
            },
            Instruction::Call { .. } => if self.stack.len() >= STACK_CAPACITY {
                Some(Chip8Error::StackOverflow)
            } else {
                None
            },
            Instruction::Draw { y, n, .. } => {
                let top = self.with_flag(0).v[y as int] % (ORIGINAL_HEIGHT as u8);
                let rows = visible_rows(top as int, n as int);
                if rows > 0 && self.i + rows > MEMORY_SIZE {
                    Some(Chip8Error::OutOfBounds)
                } else {
                    None
                }
            },
            Instruction::Decimal { .. } => if self.i + 2 >= MEMORY_SIZE {
                Some(Chip8Error::OutOfBounds)
            } else {
                None
            },
            Instruction::Store { x } | Instruction::Restore { x } => if self.i + x
                >= MEMORY_SIZE {
                Some(Chip8Error::OutOfBounds)
            } else {
                None
            },
            _ => None,
        }
    }

    /// The processor, its program counter already past the instruction, after
    /// a jump, call, return or skip. A call records the address after the
    /// call; a return takes up the latest recorded address. Skips test the
    /// keys of `keyboard` where they ask for a key.
    pub open spec fn branched(self, instruction: Instruction, keyboard: KeyboardView) -> CpuView {
        let v = self.v;
        match instruction {
            Instruction::Return => CpuView {
                pc: self.stack.last(),
                stack: self.stack.drop_last(),
                ..self
            },
            Instruction::Jump { nnn } => CpuView { pc: nnn, ..self },
            Instruction::Call { nnn } => CpuView {
                pc: nnn,
                stack: self.stack.push(self.pc),
                ..self
            },
            Instruction::JumpOffset { x, nnn } => {
                let offset = if self.quirks.jump_quirk {
                    v[0]
                } else {
                    v[x as int]
                };
                CpuView { pc: wrap16(nnn + offset), ..self }
            },
            Instruction::SkipEqual { x, nn } => self.skipping(v[x as int] == nn),
            Instruction::SkipNotEqual { x, nn } => self.skipping(v[x as int] != nn),
            Instruction::SkipRegistersEqual { x, y } => self.skipping(v[x as int] == v[y as int]),
            Instruction::SkipRegistersNotEqual { x, y } => self.skipping(
                v[x as int] != v[y as int],
            ),
            Instruction::SkipKeyPressed { x } => self.skipping(keyboard.is_pressed(v[x as int])),
            Instruction::SkipKeyNotPressed { x } => self.skipping(
                !keyboard.is_pressed(v[x as int]),
            ),
            _ => self,
        }
    }

    /// The operand of a shift: `Vy` under the shift quirk, else `Vx`.
    pub open spec fn shift_source(self, x: u8, y: u8) -> u8 {
        if self.quirks.shift_quirk {
            self.v[y as int]
        } else {
            self.v[x as int]
        }
    }

    /// The processor after an instruction that computes register `Vx`. The
    /// flag register is written after `Vx`, so it holds the flag where `x`
    /// names the flag register itself. `random` is the byte that the random
    /// instruction draws.
    pub open spec fn computed(self, instruction: Instruction, random: u8) -> CpuView {
        let v = self.v;
        match instruction {
            Instruction::Load { x, nn } => self.with_register(x, nn),
            Instruction::Add { x, nn } => self.with_register(x, wrap8(v[x as int] + nn)),
            Instruction::Move { x, y } => self.with_register(x, v[y as int]),
            Instruction::Or { x, y } => self.with_register(x, v[x as int] | v[y as int]).with_flag(
                0,
            ),
            Instruction::And { x, y } => self.with_register(x, v[x as int] & v[y as int]).with_flag(
                0,
            ),
            Instruction::Xor { x, y } => self.with_register(x, v[x as int] ^ v[y as int]).with_flag(
                0,
            ),
            Instruction::AddRegister { x, y } => self.with_register(
                x,
                wrap8(v[x as int] + v[y as int]),
            ).with_flag(
                if v[x as int] + v[y as int] > 0xFF {
                    1
                } else {
                    0
                },
            ),
            Instruction::Subtract { x, y } => self.with_register(
                x,
                wrap8(v[x as int] - v[y as int]),
            ).with_flag(
                if v[x as int] >= v[y as int] {
                    1
                } else {
                    0
                },
            ),
            Instruction::ShiftRight { x, y } => self.with_register(
                x,
                self.shift_source(x, y) / 2,
            ).with_flag(self.shift_source(x, y) % 2),
            Instruction::SubtractFrom { x, y } => self.with_register(
                x,
                wrap8(v[y as int] - v[x as int]),
            ).with_flag(
                if v[y as int] >= v[x as int] {
                    1
                } else {
                    0
                },
            ),
            Instruction::ShiftLeft { x, y } => self.with_register(
                x,
                wrap8(self.shift_source(x, y) * 2),
            ).with_flag(self.shift_source(x, y) / 0x80),
            Instruction::Random { x, nn } => self.with_register(x, random & nn),
            Instruction::ReadDelay { x } => self.with_register(x, self.delay_timer),
            _ => self,
        }
    }

    /// The processor after an instruction that sets a timer or the index
    /// register.
    pub open spec fn assigned(self, instruction: Instruction) -> CpuView {
        let v = self.v;
        match instruction {
            Instruction::LoadIndex { nnn } => CpuView { i: nnn, ..self },
            Instruction::SetDelay { x } => CpuView { delay_timer: v[x as int], ..self },
            Instruction::SetSound { x } => CpuView { sound_timer: v[x as int], ..self },
            Instruction::AddIndex { x } => CpuView { i: wrap16(self.i + v[x as int]), ..self },
            Instruction::Glyph { x } => CpuView {
                i: (FONT_DATA_START_ADDRESS + GLYPH_HEIGHT * (v[x as int] % 0x10)) as u16,
                ..self
            },
            _ => self,
        }
    }

    /// The processor after registers `V0..=Vx` have been stored or loaded:
    /// under the memory quirk the index register has moved past the block.
    pub open spec fn past_block(self, x: u8) -> CpuView {
        if self.quirks.memory_quirk {
            CpuView { i: wrap16(self.i + x + 1), ..self }
        } else {
            self
        }
    }

    /// The processor after one tick of the timer clock: each timer that is
    /// running loses one, and a timer at zero stays there.
    pub open spec fn ticked(self) -> CpuView {
        CpuView {
            sound_timer: if self.sound_timer > 0 {
                (self.sound_timer - 1) as u8
            } else {
                0
            },
            delay_timer: if self.delay_timer > 0 {
                (self.delay_timer - 1) as u8
            } else {
                0
            },
            ..self
        }
    }

    /// The processor after `ticks` ticks of the timer clock.
    pub open spec fn ticked_times(self, ticks: nat) -> CpuView
        decreases ticks,
    {
        if ticks == 0 {
            self
        } else {
            self.ticked().ticked_times((ticks - 1) as nat)
        }
    }
}

/// The four components together.
#[verifier::ext_equal]
pub struct Machine {
    pub cpu: CpuView,
    pub memory: Seq<u8>,
    pub display: DisplayView,
    pub keyboard: KeyboardView,
}

/// The instruction word at `address`, high byte first; `None` where the word
/// does not lie within the memory.
pub open spec fn word_at(memory: Seq<u8>, address: u16) -> Option<u16> {
    if address + 1 < memory.len() {
        Some((memory[address as int] * 0x100 + memory[address + 1]) as u16)
    } else {
        None
    }
}

/// The `n` sprite rows that start at `address`.
pub open spec fn sprite_rows(memory: Seq<u8>, address: u16, n: u8) -> Seq<u8> {
    Seq::new(n as nat, |r: int| memory[address + r])
}

/// The memory after registers `V0..=Vx` of `v` have been stored from `address`
/// on.
pub open spec fn block_stored(memory: Seq<u8>, address: u16, v: Seq<u8>, x: u8) -> Seq<u8> {
    Seq::new(
        memory.len(),
        |a: int|
            if address <= a <= address + x {
                v[a - address]
            } else {
                memory[a]
            },
    )
}

/// The registers after `V0..=Vx` have been loaded from `address` on.
pub open spec fn block_loaded(v: Seq<u8>, memory: Seq<u8>, address: u16, x: u8) -> Seq<u8> {
    Seq::new(
        v.len(),
        |r: int|
            if r <= x {
                memory[address + r]
            } else {
                v[r]
            },
    )
}

/// The memory after the decimal digits of `value` have been stored at
/// `address`: hundreds, tens, ones.
pub open spec fn decimal_stored(memory: Seq<u8>, address: u16, value: u8) -> Seq<u8> {
    memory.update(address as int, value / 100).update(address + 1, (value / 10) % 10).update(
        address + 2,
        value % 10,
    )
}

/// The number of sprite rows that fit on the display from row `top` on.
pub open spec fn visible_rows(top: int, n: int) -> int {
    if top + n <= ORIGINAL_HEIGHT {
        n
    } else {
        ORIGINAL_HEIGHT - top
    }
}

impl Machine {
    /// The machine made of the four components.
    pub open spec fn of(
        cpu: CpuView,
        memory: Seq<u8>,
        display: DisplayView,
        keyboard: KeyboardView,
    ) -> Machine {
        Machine { cpu, memory, display, keyboard }
    }

    /// Every component is well formed.
    pub open spec fn wf(self) -> bool {
        &&& self.cpu.wf()
        &&& self.memory.len() == MEMORY_SIZE
        &&& self.display.wf()
        &&& self.keyboard.wf()
    }

    /// The instruction word at the program counter.
    pub open spec fn fetched(self) -> Option<u16> {
        word_at(self.memory, self.cpu.pc)
    }

    /// The machine once a key that ended a wait has been handed over: the key
    /// register holds the key, and the keyboard's slot is empty.
    pub open spec fn delivered(self) -> Machine {
        match self.keyboard.last_key {
            Some(key) => Machine {
                cpu: self.cpu.with_register(self.cpu.key_register, key),
                keyboard: self.keyboard.taken(),
                ..self
            },
            None => self,
        }
    }

    /// The machine after `instruction`, which meets no error here, has been
    /// carried out. The program counter first moves past the instruction;
    /// jumps, calls and returns then replace it, and skips move it once more.
    /// `random` is the byte that the random instruction draws.
    pub open spec fn apply(self, instruction: Instruction, random: u8) -> Machine {
        let cpu = self.cpu.advanced();
        match instruction {
            Instruction::ClearScreen => Machine { cpu, display: DisplayView::blank(), ..self },
            Instruction::Draw { x, y, n } => {
                let cleared = cpu.with_flag(0);
                let left = (cleared.v[x as int] % (ORIGINAL_WIDTH as u8)) as int;
                let top = (cleared.v[y as int] % (ORIGINAL_HEIGHT as u8)) as int;
                let rows = sprite_rows(self.memory, cpu.i, n);
                Machine {
                    cpu: cleared.with_flag(
                        if self.display.sprite_collides(rows, left, top) {
                            1
                        } else {
                            0
                        },
                    ),
                    display: self.display.with_sprite(rows, left, top),
                    ..self
                }
            },
            Instruction::WaitKey { x } => Machine {
                cpu: CpuView { key_register: x, ..cpu },
                keyboard: self.keyboard.awaiting(),
                ..self
            },
            Instruction::Decimal { x } => Machine {
                cpu,
                memory: decimal_stored(self.memory, cpu.i, cpu.v[x as int]),
                ..self
            },
            Instruction::Store { x } => Machine {
                cpu: cpu.past_block(x),
                memory: block_stored(self.memory, cpu.i, cpu.v, x),
                ..self
            },
            Instruction::Restore { x } => Machine {
                cpu: CpuView { v: block_loaded(cpu.v, self.memory, cpu.i, x), ..cpu }.past_block(x),
                ..self
            },
            Instruction::Return
            | Instruction::Jump { .. }
            | Instruction::Call { .. }
            | Instruction::JumpOffset { .. }
            | Instruction::SkipEqual { .. }
            | Instruction::SkipNotEqual { .. }
            | Instruction::SkipRegistersEqual { .. }
            | Instruction::SkipRegistersNotEqual { .. }
            | Instruction::SkipKeyPressed { .. }
            | Instruction::SkipKeyNotPressed { .. } => Machine {
                cpu: cpu.branched(instruction, self.keyboard),
                ..self
            },
            Instruction::Load { .. }
            | Instruction::Add { .. }
            | Instruction::Move { .. }
            | Instruction::Or { .. }
            | Instruction::And { .. }
            | Instruction::Xor { .. }
            | Instruction::AddRegister { .. }
            | Instruction::Subtract { .. }
            | Instruction::ShiftRight { .. }
            | Instruction::SubtractFrom { .. }
            | Instruction::ShiftLeft { .. }
            | Instruction::Random { .. }
            | Instruction::ReadDelay { .. } => Machine {
                cpu: cpu.computed(instruction, random),
                ..self
            },
            Instruction::LoadIndex { .. }
            | Instruction::SetDelay { .. }
            | Instruction::SetSound { .. }
            | Instruction::AddIndex { .. }
            | Instruction::Glyph { .. } => Machine { cpu: cpu.assigned(instruction), ..self },
        }
    }

    /// What executing the instruction word `opcode` makes of the machine: a
    /// delivered key is handed over, then the instruction is carried out. A
    /// word that decodes to nothing, or an instruction that meets an error,
    /// yields that error.
    pub open spec fn executed(self, opcode: u16, random: u8) -> Result<Machine, Chip8Error> {
        match decoded(opcode) {
            None => Err(Chip8Error::UnknownOpcode(opcode)),
            Some(instruction) => match self.delivered().cpu.fault(instruction) {
                Some(error) => Err(error),
                None => Ok(self.delivered().apply(instruction, random)),
            },
        }
    }

    /// What one step makes of the machine: nothing while the processor waits
    /// for a key, else the instruction at the program counter is fetched and
    /// executed.
    pub open spec fn stepped(self, random: u8) -> Result<Machine, Chip8Error> {
        if self.keyboard.waiting {
            Ok(self)
        } else {
            match self.fetched() {
                None => Err(Chip8Error::OutOfBounds),
                Some(opcode) => self.executed(opcode, random),
            }
        }
    }

    /// What a run of steps makes of the machine, one step for each byte of
    /// `randoms`, which are the bytes that the random instruction draws. The
    /// run ends at the first error.
    pub open spec fn stepped_times(self, randoms: Seq<u8>) -> Result<Machine, Chip8Error>
        decreases randoms.len(),
    {
        if randoms.len() == 0 {
            Ok(self)
        } else {
            match self.stepped(randoms.first()) {
                Ok(next) => next.stepped_times(randoms.drop_first()),
                Err(error) => Err(error),
            }
        }
    }

    /// Whether an operation that was to make `expected` of the machine
    /// `before` did so: on success it returned `Ok` and left the machine that
    /// `expected` holds, on failure it returned the error and left the machine
    /// as it was.
    pub open spec fn turned_into(
        before: Machine,
        expected: Result<Machine, Chip8Error>,
        result: Result<(), Chip8Error>,
        after: Machine,
    ) -> bool {
        match expected {
            Ok(next) => result is Ok && after == next,
            Err(error) => result == Err::<(), Chip8Error>(error) && after == before,
        }
    }

    /// Whether the next step draws a random byte.
    pub open spec fn draws_random(self) -> bool {
        &&& !self.keyboard.waiting
        &&& self.fetched() matches Some(opcode)
        &&& decoded(opcode) matches Some(Instruction::Random { .. })
    }
}

} // verus!

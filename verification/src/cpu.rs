//! The processor: registers, program counter, call stack and timers, and the
//! fetch-decode-execute step.

use vstd::prelude::*;
use crate::constants::{
    FLAG_REGISTER, FONT_DATA_START_ADDRESS, GLYPH_HEIGHT, MEMORY_SIZE, ORIGINAL_HEIGHT,
    ORIGINAL_WIDTH, PROGRAM_START_ADDRESS, REGISTER_COUNT, SPRITE_WIDTH, STACK_CAPACITY,
};
use crate::display::{sprite_covers, Display, DisplayView};
use crate::error::Chip8Error;
use crate::instruction::{class_of, decode, lemma_decoded_wf, Instruction};
use crate::keyboard::{Keyboard, KeyboardView};
use crate::machine::{
    block_loaded, block_stored, decimal_stored, sprite_rows, visible_rows, word_at, CpuView, Machine,
};
use crate::memory::Memory;
use crate::quirks::Quirks;
use crate::random::random_byte;

verus! {

/// Whether the cell at column `x`, row `y` comes before the cell at sprite
/// column `col` of sprite row `row` in the order in which a sprite placed at
/// column `left`, row `top` is drawn.
spec fn drawn_before(left: int, top: int, row: int, col: int, x: int, y: int) -> bool {
    y < top + row || (y == top + row && x < left + col)
}

/// Whether the sprite hits a pixel at column `x`, row `y` that is drawn before
/// sprite column `col` of sprite row `row`.
spec fn hit_before(
    display: DisplayView,
    rows: Seq<u8>,
    left: int,
    top: int,
    row: int,
    col: int,
    x: int,
    y: int,
) -> bool {
    display.sprite_hits(rows, left, top, x, y) && drawn_before(left, top, row, col, x, y)
}

/// The execution core.
///
/// The call stack holds at most `STACK_CAPACITY` return addresses: a call
/// beyond that is refused with `StackOverflow`.
pub struct CPU {
    pc: u16,
    v: [u8; 16],
    i: u16,
    stack: [u16; 16],
    depth: usize,
    sound_timer: u8,
    delay_timer: u8,
    quirks: Quirks,
    key_register: u8,
}

impl View for CPU {
    type V = CpuView;

    closed spec fn view(&self) -> CpuView {
        CpuView {
            pc: self.pc,
            v: self.v@,
            i: self.i,
            stack: self.stack@.take(self.depth as int),
            sound_timer: self.sound_timer,
            delay_timer: self.delay_timer,
            quirks: self.quirks,
            key_register: self.key_register,
        }
    }
}

impl CPU {
    #[verifier::type_invariant]
    spec fn within_limits(self) -> bool {
        &&& self.depth <= STACK_CAPACITY
        &&& self.key_register < REGISTER_COUNT
    }

    /// A processor before its first instruction, with the given quirks.
    pub fn new(quirks: Quirks) -> (cpu: Self)
        ensures
            cpu@ == CpuView::initial(quirks),
            cpu@.wf(),
    {
        let cpu = Self {
            pc: PROGRAM_START_ADDRESS,
            v: [0; 16],
            i: 0,
            stack: [0; 16],
            depth: 0,
            sound_timer: 0,
            delay_timer: 0,
            quirks,
            key_register: 0,
        };
        assert(cpu@.v =~= CpuView::initial(quirks).v);
        assert(cpu@.stack =~= CpuView::initial(quirks).stack);
        cpu
    }

    /// The address of the next instruction.
    pub fn pc(&self) -> (pc: u16)
        ensures
            pc == self@.pc,
    {
        self.pc
    }

    /// The registers `V0` to `VF`.
    pub fn registers(&self) -> (v: [u8; 16])
        ensures
            v@ == self@.v,
    {
        self.v
    }

    /// The index register.
    pub fn index(&self) -> (i: u16)
        ensures
            i == self@.i,
    {
        self.i
    }

    /// The number of calls that are outstanding.
    pub fn stack_depth(&self) -> (depth: usize)
        ensures
            depth == self@.stack.len(),
            depth <= STACK_CAPACITY,
    {
        proof {
            use_type_invariant(self);
        }
        self.depth
    }

    /// The sound timer.
    pub fn sound_timer(&self) -> (timer: u8)
        ensures
            timer == self@.sound_timer,
    {
        self.sound_timer
    }

    /// The delay timer.
    pub fn delay_timer(&self) -> (timer: u8)
        ensures
            timer == self@.delay_timer,
    {
        self.delay_timer
    }

    /// One tick of the timer clock. Each running timer loses one; a timer at
    /// zero stays at zero. Returns whether the tone is due for this tick, which
    /// is the case while the sound timer runs.
    pub fn update_timers(&mut self) -> (tone: bool)
        ensures
            final(self)@ == old(self)@.ticked(),
            final(self)@.wf(),
            tone == (old(self)@.sound_timer > 0),
    {
        proof {
            use_type_invariant(&*self);
        }
        let tone = self.sound_timer > 0;
        if self.sound_timer > 0 {
            self.sound_timer = self.sound_timer.wrapping_sub(1);
        }
        if self.delay_timer > 0 {
            self.delay_timer = self.delay_timer.wrapping_sub(1);
        }
        tone
    }

    fn advance_pc(&mut self)
        ensures
            final(self)@ == old(self)@.advanced(),
    {
        proof {
            use_type_invariant(&*self);
        }
        self.pc = self.pc.wrapping_add(2);
    }

    fn skip_if(&mut self, condition: bool)
        ensures
            final(self)@ == old(self)@.skipping(condition),
    {
        if condition {
            self.advance_pc();
        }
    }

    fn fetch(&self, memory: &Memory) -> (opcode: Result<u16, Chip8Error>)
        ensures
            opcode == match word_at(memory@, self@.pc) {
                Some(word) => Ok::<u16, Chip8Error>(word),
                None => Err::<u16, Chip8Error>(Chip8Error::OutOfBounds),
            },
    {
        proof {
            memory.lemma_size();
        }
        let address = self.pc as usize;
        if address + 1 >= MEMORY_SIZE {
            return Err(Chip8Error::OutOfBounds);
        }
        let high_byte = memory.read_byte(address)? as u16;
        let low_byte = memory.read_byte(address + 1)? as u16;
        assert((high_byte << 8) | low_byte == high_byte * 0x100 + low_byte) by (bit_vector)
            requires
                high_byte < 0x100,
                low_byte < 0x100,
        ;
        Ok((high_byte << 8) | low_byte)
    }

    /// The error that `instruction` would meet once the registers are `v`.
    fn fault(&self, instruction: Instruction, v: &[u8; 16]) -> (fault: Option<Chip8Error>)
        requires
            instruction.wf(),
        ensures
            fault == (CpuView { v: v@, ..self@ }).fault(instruction),
    {
        proof {
            use_type_invariant(self);
        }
        let index = self.i as usize;
        match instruction {
            Instruction::Return => {
                if self.depth == 0 {
                    Some(Chip8Error::StackUnderflow)
                } else {
                    None
                }
            },
            Instruction::Call { .. } => {
                if self.depth >= STACK_CAPACITY {
                    Some(Chip8Error::StackOverflow)
                } else {
                    None
                }
            },
            Instruction::Draw { y, n, .. } => {
                let vy: u8 = if y as usize == FLAG_REGISTER {
                    0
                } else {
                    v[y as usize]
                };
                let top = vy as usize % ORIGINAL_HEIGHT;
                let height = n as usize;
                let rows = if top + height <= ORIGINAL_HEIGHT {
                    height
                } else {
                    ORIGINAL_HEIGHT - top
                };
                if rows > 0 && index + rows > MEMORY_SIZE {
                    Some(Chip8Error::OutOfBounds)
                } else {
                    None
                }
            },
            Instruction::Decimal { .. } => {
                if index + 2 >= MEMORY_SIZE {
                    Some(Chip8Error::OutOfBounds)
                } else {
                    None
                }
            },
            Instruction::Store { x } => {
                if index + x as usize >= MEMORY_SIZE {
                    Some(Chip8Error::OutOfBounds)
                } else {
                    None
                }
            },
            Instruction::Restore { x } => {
                if index + x as usize >= MEMORY_SIZE {
                    Some(Chip8Error::OutOfBounds)
                } else {
                    None
                }
            },
            _ => None,
        }
    }

    fn set_register(&mut self, x: u8, value: u8)
        requires
            x < REGISTER_COUNT,
        ensures
            final(self)@ == old(self)@.with_register(x, value),
    {
        proof {
            use_type_invariant(&*self);
        }
        self.v[x as usize] = value;
    }

    fn set_flag(&mut self, value: u8)
        ensures
            final(self)@ == old(self)@.with_flag(value),
    {
        proof {
            use_type_invariant(&*self);
        }
        self.v[FLAG_REGISTER] = value;
    }

    fn set_index(&mut self, value: u16)
        ensures
            final(self)@ == (CpuView { i: value, ..old(self)@ }),
    {
        proof {
            use_type_invariant(&*self);
        }
        self.i = value;
    }

    fn jump(&mut self, target: u16)
        ensures
            final(self)@ == (CpuView { pc: target, ..old(self)@ }),
    {
        proof {
            use_type_invariant(&*self);
        }
        self.pc = target;
    }

    /// Moves the index register past a block of `x + 1` registers where the
    /// memory quirk asks for it.
    fn index_past_block(&mut self, x: u8)
        ensures
            final(self)@ == old(self)@.past_block(x),
    {
        proof {
            use_type_invariant(&*self);
        }
        if self.quirks.memory_quirk {
            self.i = self.i.wrapping_add(x as u16 + 1);
        }
    }

    /// The operand of a shift: `Vy` under the shift quirk, else `Vx`.
    fn shift_source(&self, x: u8, y: u8) -> (source: u8)
        requires
            x < REGISTER_COUNT,
            y < REGISTER_COUNT,
        ensures
            source == self@.shift_source(x, y),
    {
        if self.quirks.shift_quirk {
            self.v[y as usize]
        } else {
            self.v[x as usize]
        }
    }

    /// Stores the decimal digits of `Vx` at the index register.
    fn store_decimal(&self, x: u8, memory: &mut Memory) -> (result: Result<(), Chip8Error>)
        requires
            x < REGISTER_COUNT,
            self@.i + 2 < MEMORY_SIZE,
        ensures
            result is Ok,
            final(memory)@ == decimal_stored(old(memory)@, self@.i, self@.v[x as int]),
    {
        proof {
            memory.lemma_size();
        }
        let value = self.v[x as usize];
        let hundreds = value / 100;
        let tens = (value / 10) % 10;
        let ones = value % 10;
        let address = self.i as usize;
        memory.write_byte(address, hundreds)?;
        memory.write_byte(address + 1, tens)?;
        memory.write_byte(address + 2, ones)?;
        Ok(())
    }

    /// Stores `V0..=Vx` from the index register on.
    fn store_registers(&self, x: u8, memory: &mut Memory) -> (result: Result<(), Chip8Error>)
        requires
            x < REGISTER_COUNT,
            self@.i + x < MEMORY_SIZE,
        ensures
            result is Ok,
            final(memory)@ == block_stored(old(memory)@, self@.i, self@.v, x),
    {
        proof {
            memory.lemma_size();
        }
        let start = self.i as usize;
        let last = x as usize;
        let mut j: usize = 0;
        while j <= last
            invariant
                j <= last + 1,
                last == x,
                x < REGISTER_COUNT,
                start == self.i,
                start + last < MEMORY_SIZE,
                memory@.len() == MEMORY_SIZE,
                forall|a: int|
                    0 <= a < MEMORY_SIZE ==> memory@[a] == (if start <= a < start + j {
                        self.v@[a - start]
                    } else {
                        old(memory)@[a]
                    }),
            decreases last + 1 - j,
        {
            memory.write_byte(start + j, self.v[j])?;
            proof {
                memory.lemma_size();
            }
            j += 1;
        }
        assert(memory@ =~= block_stored(old(memory)@, self@.i, self@.v, x));
        Ok(())
    }

    /// Loads `V0..=Vx` from the index register on.
    fn load_registers(&mut self, x: u8, memory: &Memory) -> (result: Result<(), Chip8Error>)
        requires
            x < REGISTER_COUNT,
            old(self)@.i + x < MEMORY_SIZE,
        ensures
            result is Ok,
            final(self)@ == (CpuView {
                v: block_loaded(old(self)@.v, memory@, old(self)@.i, x),
                ..old(self)@
            }),
    {
        proof {
            use_type_invariant(&*self);
            memory.lemma_size();
        }
        let start = self.i as usize;
        let last = x as usize;
        let mut v = self.v;
        let mut j: usize = 0;
        while j <= last
            invariant
                j <= last + 1,
                last == x,
                x < REGISTER_COUNT,
                start == old(self).i,
                start + last < MEMORY_SIZE,
                memory@.len() == MEMORY_SIZE,
                forall|r: int|
                    0 <= r < REGISTER_COUNT ==> v@[r] == (if r < j {
                        memory@[start + r]
                    } else {
                        old(self).v@[r]
                    }),
            decreases last + 1 - j,
        {
            v[j] = memory.read_byte(start + j)?;
            j += 1;
        }
        self.v = v;
        assert(self@.v =~= block_loaded(old(self)@.v, memory@, old(self)@.i, x));
        Ok(())
    }

    /// Draws the `n`-row sprite at the index register with its top left corner
    /// at column `Vx` modulo the width, row `Vy` modulo the height, after the
    /// flag has been cleared; the flag ends as 1 if a pixel was turned off.
    fn draw_sprite(&mut self, x: u8, y: u8, n: u8, memory: &Memory, display: &mut Display) -> (result:
        Result<(), Chip8Error>)
        requires
            x < REGISTER_COUNT,
            y < REGISTER_COUNT,
            n < 16,
            old(self)@.fault(Instruction::Draw { x, y, n }) is None,
        ensures
            result is Ok,
            ({
                let cleared = old(self)@.with_flag(0);
                let left = (cleared.v[x as int] % (ORIGINAL_WIDTH as u8)) as int;
                let top = (cleared.v[y as int] % (ORIGINAL_HEIGHT as u8)) as int;
                let rows = sprite_rows(memory@, old(self)@.i, n);
                &&& final(display)@ == old(display)@.with_sprite(rows, left, top)
                &&& final(self)@ == cleared.with_flag(
                    if old(display)@.sprite_collides(rows, left, top) {
                        1
                    } else {
                        0
                    },
                )
            }),
    {
        proof {
            use_type_invariant(&*self);
            memory.lemma_size();
            display.lemma_wf();
        }
        self.set_flag(0);
        let x_coord = self.v[x as usize] as usize % ORIGINAL_WIDTH;
        let y_coord = self.v[y as usize] as usize % ORIGINAL_HEIGHT;
        let height = n as usize;
        let start = self.i as usize;
        let ghost before = display@;
        let ghost rows = sprite_rows(memory@, self@.i, n);
        let ghost left = x_coord as int;
        let ghost top = y_coord as int;
        let mut collided = false;
        let mut row: usize = 0;
        while row < height
            invariant
                row <= height,
                height == n,
                n < 16,
                left == x_coord,
                top == y_coord,
                x_coord < ORIGINAL_WIDTH,
                y_coord < ORIGINAL_HEIGHT,
                start < 0x1_0000,
                memory@.len() == MEMORY_SIZE,
                visible_rows(top, n as int) > 0 ==> start + visible_rows(top, n as int)
                    <= MEMORY_SIZE,
                rows == sprite_rows(memory@, start as u16, n),
                before.wf(),
                display@.changed == (before.changed || row > 0),
                forall|cx: int, cy: int|
                    0 <= cx < ORIGINAL_WIDTH && 0 <= cy < ORIGINAL_HEIGHT ==> #[trigger] display@.pixel(
                        cx,
                        cy,
                    ) == (before.pixel(cx, cy) ^ (sprite_covers(rows, left, top, cx, cy)
                        && drawn_before(left, top, row as int, 0, cx, cy))),
                collided <==> exists|cx: int, cy: int| #[trigger]
                    hit_before(before, rows, left, top, row as int, 0, cx, cy),
            decreases height - row,
        {
            if y_coord + row < ORIGINAL_HEIGHT {
                let sprite_byte = memory.read_byte(start + row)?;
                let mut col: usize = 0;
                while col < SPRITE_WIDTH
                    invariant
                        col <= SPRITE_WIDTH,
                        row < height,
                        height == n,
                        n < 16,
                        left == x_coord,
                        top == y_coord,
                        x_coord < ORIGINAL_WIDTH,
                        y_coord + row < ORIGINAL_HEIGHT,
                        rows.len() == n,
                        sprite_byte == rows[row as int],
                        before.wf(),
                        display@.changed == (before.changed || row > 0 || col > 0),
                        forall|cx: int, cy: int|
                            0 <= cx < ORIGINAL_WIDTH && 0 <= cy < ORIGINAL_HEIGHT
                                ==> #[trigger] display@.pixel(cx, cy) == (before.pixel(cx, cy) ^ (
                            sprite_covers(rows, left, top, cx, cy) && drawn_before(
                                left,
                                top,
                                row as int,
                                col as int,
                                cx,
                                cy,
                            ))),
                        collided <==> exists|cx: int, cy: int| #[trigger]
                            hit_before(before, rows, left, top, row as int, col as int, cx, cy),
                    decreases SPRITE_WIDTH - col,
                {
                    let ghost shown = display@;
                    let ghost was_collided = collided;
                    if x_coord + col < ORIGINAL_WIDTH {
                        let to_draw = (sprite_byte & (0x80u8 >> (col as u8))) != 0;
                        proof {
                            display.lemma_wf();
                            assert(to_draw == sprite_covers(rows, left, top, left + col, top + row));
                            assert(shown.pixel(left + col, top + row) == before.pixel(
                                left + col,
                                top + row,
                            ));
                        }
                        if display.draw_pixel(x_coord + col, y_coord + row, to_draw) {
                            collided = true;
                        }
                        proof {
                            assert forall|cx: int, cy: int|
                                0 <= cx < ORIGINAL_WIDTH && 0 <= cy < ORIGINAL_HEIGHT implies #[trigger] display@.pixel(
                                cx,
                                cy,
                            ) == (before.pixel(cx, cy) ^ (sprite_covers(rows, left, top, cx, cy)
                                && drawn_before(left, top, row as int, col + 1, cx, cy))) by {
                                assert(shown.pixel(cx, cy) == (before.pixel(cx, cy) ^ (sprite_covers(
                                    rows,
                                    left,
                                    top,
                                    cx,
                                    cy,
                                ) && drawn_before(left, top, row as int, col as int, cx, cy))));
                            }
                        }
                    }
                    proof {
                        // The cells hit so far are those hit before, and the
                        // cell just drawn if it collided.
                        if was_collided {
                            let (hx, hy) = choose|cx: int, cy: int| #[trigger]
                                hit_before(before, rows, left, top, row as int, col as int, cx, cy);
                            assert(hit_before(before, rows, left, top, row as int, col + 1, hx, hy));
                        } else if collided {
                            assert(hit_before(
                                before,
                                rows,
                                left,
                                top,
                                row as int,
                                col + 1,
                                left + col,
                                top + row,
                            ));
                        } else {
                            assert forall|cx: int, cy: int|
                                !#[trigger] hit_before(
                                    before,
                                    rows,
                                    left,
                                    top,
                                    row as int,
                                    col + 1,
                                    cx,
                                    cy,
                                ) by {
                                assert(!hit_before(
                                    before,
                                    rows,
                                    left,
                                    top,
                                    row as int,
                                    col as int,
                                    cx,
                                    cy,
                                ));
                            }
                        }
                    }
                    col += 1;
                }
            }
            proof {
                // A row that is done, or that lies below the display, adds no
                // cell beyond those of the columns drawn.
                let done: int = if top + row < ORIGINAL_HEIGHT {
                    SPRITE_WIDTH as int
                } else {
                    0
                };
                assert forall|cx: int, cy: int|
                    #![trigger hit_before(before, rows, left, top, row + 1, 0, cx, cy)]
                    #![trigger hit_before(before, rows, left, top, row as int, done, cx, cy)]
                    hit_before(before, rows, left, top, row + 1, 0, cx, cy) == hit_before(
                        before,
                        rows,
                        left,
                        top,
                        row as int,
                        done,
                        cx,
                        cy,
                    ) by {}
            }
            row += 1;
        }
        proof {
            let after = before.with_sprite(rows, left, top);
            assert forall|cy: int| 0 <= cy < ORIGINAL_HEIGHT implies #[trigger] display@.pixels[cy]
                =~= after.pixels[cy] by {
                assert forall|cx: int| 0 <= cx < ORIGINAL_WIDTH implies display@.pixels[cy][cx]
                    == after.pixels[cy][cx] by {
                    assert(display@.pixel(cx, cy) == (before.pixel(cx, cy) ^ (sprite_covers(
                        rows,
                        left,
                        top,
                        cx,
                        cy,
                    ) && drawn_before(left, top, height as int, 0, cx, cy))));
                }
            }
            assert(display@.pixels =~= after.pixels);
            if collided {
                let (hx, hy) = choose|cx: int, cy: int| #[trigger]
                    hit_before(before, rows, left, top, height as int, 0, cx, cy);
                assert(before.sprite_hits(rows, left, top, hx, hy));
            } else {
                assert forall|cx: int, cy: int| !#[trigger] before.sprite_hits(
                    rows,
                    left,
                    top,
                    cx,
                    cy,
                ) by {
                    assert(!hit_before(before, rows, left, top, height as int, 0, cx, cy));
                }
            }
        }
        if collided {
            self.set_flag(1);
        }
        Ok(())
    }

    /// Carries out an instruction that only moves the program counter or the
    /// call stack.
    fn run_control(&mut self, instruction: Instruction, keyboard: &Keyboard)
        requires
            instruction.wf(),
            old(self)@.fault(instruction) is None,
        ensures
            final(self)@ == old(self)@.branched(instruction, keyboard@),
    {
        proof {
            use_type_invariant(&*self);
        }
        match instruction {
            Instruction::Return => {
                let ghost calls = self@.stack;
                self.depth -= 1;
                self.pc = self.stack[self.depth];
                assert(self@.stack =~= calls.drop_last());
            },
            Instruction::Jump { nnn } => {
                self.jump(nnn);
            },
            Instruction::Call { nnn } => {
                let ghost calls = self@.stack;
                self.stack[self.depth] = self.pc;
                self.depth += 1;
                assert(self@.stack =~= calls.push(self.pc));
                self.pc = nnn;
            },
            Instruction::SkipEqual { x, nn } => {
                let condition = self.v[x as usize] == nn;
                self.skip_if(condition);
            },
            Instruction::SkipNotEqual { x, nn } => {
                let condition = self.v[x as usize] != nn;
                self.skip_if(condition);
            },
            Instruction::SkipRegistersEqual { x, y } => {
                let condition = self.v[x as usize] == self.v[y as usize];
                self.skip_if(condition);
            },
            Instruction::SkipRegistersNotEqual { x, y } => {
                let condition = self.v[x as usize] != self.v[y as usize];
                self.skip_if(condition);
            },
            Instruction::JumpOffset { x, nnn } => {
                let offset = if self.quirks.jump_quirk {
                    self.v[0]
                } else {
                    self.v[x as usize]
                };
                self.jump(nnn.wrapping_add(offset as u16));
            },
            Instruction::SkipKeyPressed { x } => {
                let condition = keyboard.is_key_pressed(self.v[x as usize]);
                self.skip_if(condition);
            },
            Instruction::SkipKeyNotPressed { x } => {
                let condition = !keyboard.is_key_pressed(self.v[x as usize]);
                self.skip_if(condition);
            },
            _ => {},
        }
    }

    /// Carries out an instruction that computes a register from registers, an
    /// immediate value, the delay timer or the random byte.
    fn run_arithmetic(&mut self, instruction: Instruction, random: u8)
        requires
            instruction.wf(),
        ensures
            final(self)@ == old(self)@.computed(instruction, random),
    {
        proof {
            use_type_invariant(&*self);
        }
        match instruction {
            Instruction::Load { x, nn } => {
                self.set_register(x, nn);
            },
            Instruction::Add { x, nn } => {
                let sum = self.v[x as usize].wrapping_add(nn);
                self.set_register(x, sum);
            },
            Instruction::Move { x, y } => {
                let value = self.v[y as usize];
                self.set_register(x, value);
            },
            Instruction::Or { x, y } => {
                let value = self.v[x as usize] | self.v[y as usize];
                self.set_register(x, value);
                self.set_flag(0);
            },
            Instruction::And { x, y } => {
                let value = self.v[x as usize] & self.v[y as usize];
                self.set_register(x, value);
                self.set_flag(0);
            },
            Instruction::Xor { x, y } => {
                let value = self.v[x as usize] ^ self.v[y as usize];
                self.set_register(x, value);
                self.set_flag(0);
            },
            Instruction::AddRegister { x, y } => {
                let vx = self.v[x as usize];
                let vy = self.v[y as usize];
                let carry: u8 = if vx as u16 + vy as u16 > 0xFF {
                    1
                } else {
                    0
                };
                self.set_register(x, vx.wrapping_add(vy));
                self.set_flag(carry);
            },
            Instruction::Subtract { x, y } => {
                let vx = self.v[x as usize];
                let vy = self.v[y as usize];
                let no_borrow: u8 = if vx >= vy {
                    1
                } else {
                    0
                };
                self.set_register(x, vx.wrapping_sub(vy));
                self.set_flag(no_borrow);
            },
            Instruction::ShiftRight { x, y } => {
                let source = self.shift_source(x, y);
                assert(source >> 1 == source / 2 && source & 1 == source % 2) by (bit_vector);
                self.set_register(x, source >> 1);
                self.set_flag(source & 1);
            },
            Instruction::SubtractFrom { x, y } => {
                let vx = self.v[x as usize];
                let vy = self.v[y as usize];
                let no_borrow: u8 = if vy >= vx {
                    1
                } else {
                    0
                };
                self.set_register(x, vy.wrapping_sub(vx));
                self.set_flag(no_borrow);
            },
            Instruction::ShiftLeft { x, y } => {
                let source = self.shift_source(x, y);
                assert(source << 1 == (source * 2) % 0x100 && (source >> 7) & 1 == source / 0x80)
                    by (bit_vector);
                self.set_register(x, source << 1);
                self.set_flag((source >> 7) & 1);
            },
            Instruction::Random { x, nn } => {
                self.set_register(x, random & nn);
            },
            Instruction::ReadDelay { x } => {
                let value = self.delay_timer;
                self.set_register(x, value);
            },
            _ => {},
        }
    }

    /// Carries out an instruction that sets a timer or the index register.
    fn run_timers_and_index(&mut self, instruction: Instruction)
        requires
            instruction.wf(),
        ensures
            final(self)@ == old(self)@.assigned(instruction),
    {
        proof {
            use_type_invariant(&*self);
        }
        match instruction {
            Instruction::LoadIndex { nnn } => {
                self.set_index(nnn);
            },
            Instruction::SetDelay { x } => {
                self.delay_timer = self.v[x as usize];
            },
            Instruction::SetSound { x } => {
                self.sound_timer = self.v[x as usize];
            },
            Instruction::AddIndex { x } => {
                let sum = self.i.wrapping_add(self.v[x as usize] as u16);
                self.set_index(sum);
            },
            Instruction::Glyph { x } => {
                let value = self.v[x as usize];
                let digit = value & 0x0F;
                assert(digit == value % 0x10) by (bit_vector)
                    requires
                        digit == value & 0x0F,
                ;
                self.set_index(FONT_DATA_START_ADDRESS + GLYPH_HEIGHT * digit as u16);
            },
            _ => {},
        }
    }

    /// Carries out an instruction that reads or writes a block of memory.
    fn run_memory(&mut self, instruction: Instruction, memory: &mut Memory) -> (result: Result<
        (),
        Chip8Error,
    >)
        requires
            instruction.wf(),
            instruction is Decimal || instruction is Store || instruction is Restore,
            old(self)@.fault(instruction) is None,
        ensures
            result is Ok,
            forall|display: DisplayView, keyboard: KeyboardView, random: u8|
                Machine::of(final(self)@, final(memory)@, display, keyboard) == #[trigger] Machine::of(
                    old(self)@,
                    old(memory)@,
                    display,
                    keyboard,
                ).apply(instruction, random),
    {
        proof {
            use_type_invariant(&*self);
        }
        self.advance_pc();
        proof {
            use_type_invariant(&*self);
        }
        match instruction {
            Instruction::Decimal { x } => {
                self.store_decimal(x, memory)?;
            },
            Instruction::Store { x } => {
                self.store_registers(x, memory)?;
                self.index_past_block(x);
            },
            Instruction::Restore { x } => {
                self.load_registers(x, memory)?;
                self.index_past_block(x);
            },
            _ => {},
        }
        Ok(())
    }

    /// Carries out `instruction`, which meets no error in this state.
    fn run(
        &mut self,
        instruction: Instruction,
        random: u8,
        memory: &mut Memory,
        display: &mut Display,
        keyboard: &mut Keyboard,
    ) -> (result: Result<(), Chip8Error>)
        requires
            instruction.wf(),
            old(self)@.fault(instruction) is None,
        ensures
            result is Ok,
            Machine::of(final(self)@, final(memory)@, final(display)@, final(keyboard)@)
                == Machine::of(old(self)@, old(memory)@, old(display)@, old(keyboard)@).apply(
                instruction,
                random,
            ),
    {
        proof {
            use_type_invariant(&*self);
        }
        let ghost before = Machine::of(self@, memory@, display@, keyboard@);
        match instruction {
            Instruction::ClearScreen => {
                self.advance_pc();
                display.clear();
            },
            Instruction::Draw { x, y, n } => {
                self.advance_pc();
                self.draw_sprite(x, y, n, memory, display)?;
            },
            Instruction::WaitKey { x } => {
                self.advance_pc();
                proof {
                    use_type_invariant(&*self);
                }
                self.key_register = x;
                keyboard.wait_for_key();
            },
            Instruction::Return
            | Instruction::Jump { .. }
            | Instruction::Call { .. }
            | Instruction::SkipEqual { .. }
            | Instruction::SkipNotEqual { .. }
            | Instruction::SkipRegistersEqual { .. }
            | Instruction::SkipRegistersNotEqual { .. }
            | Instruction::JumpOffset { .. }
            | Instruction::SkipKeyPressed { .. }
            | Instruction::SkipKeyNotPressed { .. } => {
                self.advance_pc();
                self.run_control(instruction, keyboard);
            },
            Instruction::Load { .. }
            | Instruction::Add { .. }
            | Instruction::Move { .. }
            | Instruction::Or { .. }
            | Instruction::And { .. }
            | Instruction::Xor { .. }
            | Instruction::AddRegister { .. }
            | Instruction::Subtract { .. }
            | Instruction::ShiftRight { .. }
            | Instruction::SubtractFrom { .. }
            | Instruction::ShiftLeft { .. }
            | Instruction::Random { .. }
            | Instruction::ReadDelay { .. } => {
                self.advance_pc();
                self.run_arithmetic(instruction, random);
            },
            Instruction::LoadIndex { .. }
            | Instruction::SetDelay { .. }
            | Instruction::SetSound { .. }
            | Instruction::AddIndex { .. }
            | Instruction::Glyph { .. } => {
                self.advance_pc();
                self.run_timers_and_index(instruction);
            },
            Instruction::Decimal { .. } | Instruction::Store { .. } | Instruction::Restore { .. } => {
                self.run_memory(instruction, memory)?;
            },
        }
        assert(Machine::of(self@, memory@, display@, keyboard@) == before.apply(instruction, random));
        Ok(())
    }

    /// Executes the instruction word `opcode`. A key that ended a wait is
    /// first stored in the register that the wait named; then the instruction
    /// is carried out, with `random` as the byte that the random instruction
    /// draws. A word that no rule decodes is refused with `UnknownOpcode`, a
    /// return without a call with `StackUnderflow`, a call beyond the capacity
    /// of the stack with `StackOverflow`, and an access past the end of memory
    /// with `OutOfBounds`; a refused instruction changes nothing.
    pub fn execute(
        &mut self,
        opcode: u16,
        random: u8,
        memory: &mut Memory,
        display: &mut Display,
        keyboard: &mut Keyboard,
    ) -> (result: Result<(), Chip8Error>)
        ensures
            Machine::turned_into(
                Machine::of(old(self)@, old(memory)@, old(display)@, old(keyboard)@),
                Machine::of(old(self)@, old(memory)@, old(display)@, old(keyboard)@).executed(
                    opcode,
                    random,
                ),
                result,
                Machine::of(final(self)@, final(memory)@, final(display)@, final(keyboard)@),
            ),
            final(self)@.wf(),
    {
        proof {
            use_type_invariant(&*self);
            lemma_decoded_wf(opcode);
        }
        let instruction = match decode(opcode) {
            Some(instruction) => instruction,
            None => {
                return Err(Chip8Error::UnknownOpcode(opcode));
            },
        };
        let pending = keyboard.last_key();
        let mut v = self.v;
        if let Some(key) = pending {
            v[self.key_register as usize] = key;
        }
        if let Some(error) = self.fault(instruction, &v) {
            return Err(error);
        }
        self.v = v;
        if pending.is_some() {
            keyboard.take_key();
        }
        let result = self.run(instruction, random, memory, display, keyboard);
        proof {
            use_type_invariant(&*self);
        }
        result
    }

    /// One step of the processor. While the keyboard waits for a key nothing
    /// happens. Otherwise the instruction word at the program counter is
    /// fetched (`OutOfBounds` where it does not lie within memory) and executed
    /// as [`CPU::execute`] says, with a fresh random byte where the
    /// instruction draws one.
    pub fn step(&mut self, memory: &mut Memory, display: &mut Display, keyboard: &mut Keyboard) -> (result:
        Result<(), Chip8Error>)
        ensures
            ({
                let before = Machine::of(old(self)@, old(memory)@, old(display)@, old(keyboard)@);
                let after = Machine::of(
                    final(self)@,
                    final(memory)@,
                    final(display)@,
                    final(keyboard)@,
                );
                &&& !before.draws_random() ==> Machine::turned_into(
                    before,
                    before.stepped(0),
                    result,
                    after,
                )
                &&& before.draws_random() ==> exists|random: u8|
                    Machine::turned_into(before, #[trigger] before.stepped(random), result, after)
            }),
            final(self)@.wf(),
    {
        proof {
            use_type_invariant(&*self);
        }
        if keyboard.is_waiting_for_key() {
            return Ok(());
        }
        let opcode = self.fetch(memory)?;
        let draws = opcode & 0xF000 == 0xC000;
        assert(draws == (class_of(opcode) == 0xC)) by (bit_vector)
            requires
                draws == (opcode & 0xF000 == 0xC000),
        ;
        let random = if draws {
            random_byte()
        } else {
            0
        };
        let ghost before = Machine::of(self@, memory@, display@, keyboard@);
        let result = self.execute(opcode, random, memory, display, keyboard);
        proof {
            assert(before.stepped(random) == before.executed(opcode, random));
            if !before.draws_random() {
                assert(before.executed(opcode, random) == before.executed(opcode, 0));
            }
        }
        result
    }
}

} // verus!

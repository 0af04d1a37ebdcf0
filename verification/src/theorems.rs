//! What holds of every machine: statements about the model of [`crate::machine`],
//! each proved once and for all.

use vstd::prelude::*;
use crate::constants::{
    ORIGINAL_HEIGHT, ORIGINAL_WIDTH, REGISTER_COUNT, SPRITE_WIDTH, STACK_CAPACITY,
};
use crate::display::{sprite_bit, sprite_covers, DisplayView};
use crate::error::Chip8Error;
use crate::instruction::{
    class_of, decoded, lemma_decoded_wf, nn_of, nnn_of, x_of, Instruction,
};
use crate::machine::{wrap16, CpuView, Machine};

verus! {

/// The jump, the call and the jump with offset leave the program counter at
/// their target, never two past it. The target of a jump or call is `nnn`;
/// that of a jump with offset is `nnn` plus `Vx`, or plus `V0` under the jump
/// quirk. A call on a full stack is the one case in which such a step fails.
pub proof fn lemma_jumps_land_on_target(m: Machine, opcode: u16, random: u8)
    requires
        m.wf(),
        !m.keyboard.waiting,
        m.fetched() == Some(opcode),
        class_of(opcode) == 0x1 || class_of(opcode) == 0x2 || class_of(opcode) == 0xB,
    ensures
        match m.stepped(random) {
            Ok(next) => {
                let v = m.delivered().cpu.v;
                &&& class_of(opcode) == 0x1 || class_of(opcode) == 0x2 ==> next.cpu.pc == nnn_of(
                    opcode,
                )
                &&& class_of(opcode) == 0xB && !m.cpu.quirks.jump_quirk ==> next.cpu.pc == nnn_of(
                    opcode,
                ) + v[x_of(opcode) as int]
                &&& class_of(opcode) == 0xB && m.cpu.quirks.jump_quirk ==> next.cpu.pc == nnn_of(
                    opcode,
                ) + v[0]
            },
            Err(error) => {
                &&& class_of(opcode) == 0x2
                &&& error == Chip8Error::StackOverflow
                &&& m.cpu.stack.len() == STACK_CAPACITY
            },
        },
{
    let nnn = nnn_of(opcode);
    let x = x_of(opcode);
    let handed = m.delivered();
    assert(handed.cpu.v.len() == REGISTER_COUNT);
    assert(handed.cpu.stack == m.cpu.stack);
    assert(m.stepped(random) == m.executed(opcode, random));
    if class_of(opcode) == 0x1 {
        assert(decoded(opcode) == Some(Instruction::Jump { nnn }));
    } else if class_of(opcode) == 0x2 {
        assert(decoded(opcode) == Some(Instruction::Call { nnn }));
    } else {
        assert(decoded(opcode) == Some(Instruction::JumpOffset { x, nnn }));
        let offset = if m.cpu.quirks.jump_quirk {
            handed.cpu.v[0]
        } else {
            handed.cpu.v[x as int]
        };
        assert(nnn + offset < 0x1_0000);
        assert(wrap16(nnn + offset) == nnn + offset);
    }
}

/// A call records the address of the instruction after it, and the return
/// that follows goes back there.
pub proof fn lemma_return_undoes_call(m: Machine, nnn: u16, random: u8)
    requires
        m.wf(),
        m.cpu.stack.len() < STACK_CAPACITY,
    ensures
        ({
            let called = m.apply(Instruction::Call { nnn }, random);
            let returned = called.apply(Instruction::Return, random);
            &&& called.cpu.fault(Instruction::Return) is None
            &&& called.cpu.stack.last() == m.cpu.advanced().pc
            &&& returned.cpu.pc == m.cpu.advanced().pc
            &&& returned.cpu.stack == m.cpu.stack
        }),
{
    let called = m.apply(Instruction::Call { nnn }, random);
    let returned = called.apply(Instruction::Return, random);
    assert(returned.cpu.stack =~= m.cpu.stack);
}

/// A return while no call is outstanding fails with `StackUnderflow`, and an
/// operation that meets it leaves the whole machine, registers and program
/// counter included, as it was.
pub proof fn lemma_return_on_empty_stack(
    m: Machine,
    random: u8,
    result: Result<(), Chip8Error>,
    after: Machine,
)
    requires
        m.wf(),
        !m.keyboard.waiting,
        m.fetched() == Some(0x00EEu16),
        m.cpu.stack.len() == 0,
        Machine::turned_into(m, m.stepped(random), result, after),
    ensures
        m.stepped(random) == Err::<Machine, Chip8Error>(Chip8Error::StackUnderflow),
        result == Err::<(), Chip8Error>(Chip8Error::StackUnderflow),
        after == m,
        after.cpu.v == m.cpu.v,
        after.cpu.pc == m.cpu.pc,
{
}

/// A failed step or execution changes nothing, whatever the error.
pub proof fn lemma_errors_change_nothing(
    m: Machine,
    expected: Result<Machine, Chip8Error>,
    result: Result<(), Chip8Error>,
    after: Machine,
)
    requires
        Machine::turned_into(m, expected, result, after),
        result is Err,
    ensures
        after == m,
        expected == Err::<Machine, Chip8Error>(result->Err_0),
{
}

/// The skip on equality with a byte moves the program counter by four where
/// `Vx` equals the byte and by two where it does not.
pub proof fn lemma_skip_moves_by_two_or_four(m: Machine, opcode: u16, random: u8)
    requires
        m.wf(),
        !m.keyboard.waiting,
        m.fetched() == Some(opcode),
        class_of(opcode) == 0x3,
    ensures
        m.stepped(random) matches Ok(next) && next.cpu.pc == m.cpu.pc + (if m.delivered().cpu.v[x_of(
            opcode,
        ) as int] == nn_of(opcode) {
            4int
        } else {
            2int
        }),
{
}

/// Without the shift quirk a shift takes its operand from `Vx` and never
/// reads `Vy`; under the quirk the operand is `Vy`, which overwrites `Vx`
/// before the shift. Either way the flag receives the bit shifted out.
pub proof fn lemma_shift_operand(cpu: CpuView, x: u8, y: u8, random: u8)
    requires
        cpu.wf(),
        x < REGISTER_COUNT,
        y < REGISTER_COUNT,
    ensures
        ({
            let source = if cpu.quirks.shift_quirk {
                cpu.v[y as int]
            } else {
                cpu.v[x as int]
            };
            let right = cpu.computed(Instruction::ShiftRight { x, y }, random);
            let left = cpu.computed(Instruction::ShiftLeft { x, y }, random);
            &&& right.v[0xF] == source % 2
            &&& left.v[0xF] == source / 0x80
            &&& x != 0xF ==> right.v[x as int] == source / 2
            &&& x != 0xF ==> left.v[x as int] == (source * 2) % 0x100
        }),
{
}

/// Drawing a set bit twice at one place of a blank display first turns the
/// pixel on without a collision, then reports a collision and turns it off
/// again.
pub proof fn lemma_draw_twice_erases(x: int, y: int)
    requires
        0 <= x < ORIGINAL_WIDTH,
        0 <= y < ORIGINAL_HEIGHT,
    ensures
        !DisplayView::blank().collides(x, y, true),
        DisplayView::blank().with_pixel(x, y, true).pixel(x, y),
        DisplayView::blank().with_pixel(x, y, true).collides(x, y, true),
        !DisplayView::blank().with_pixel(x, y, true).with_pixel(x, y, true).pixel(x, y),
        DisplayView::blank().with_pixel(x, y, true).with_pixel(x, y, true) == DisplayView::blank(),
{
    let once = DisplayView::blank().with_pixel(x, y, true);
    let twice = once.with_pixel(x, y, true);
    assert(twice.pixels =~~= DisplayView::blank().pixels);
}

/// A sprite is clipped at the right and the bottom edge: the grid keeps its
/// size, every cell of it is flipped exactly where the sprite has a set bit on
/// it, and no cell outside the sprite's window changes, so nothing wraps round
/// to the left or the top.
pub proof fn lemma_sprite_is_clipped(display: DisplayView, rows: Seq<u8>, left: int, top: int)
    requires
        display.wf(),
        0 <= left < ORIGINAL_WIDTH,
        0 <= top < ORIGINAL_HEIGHT,
    ensures
        display.with_sprite(rows, left, top).wf(),
        forall|x: int, y: int|
            0 <= x < ORIGINAL_WIDTH && 0 <= y < ORIGINAL_HEIGHT ==> #[trigger] display.with_sprite(
                rows,
                left,
                top,
            ).pixel(x, y) == (display.pixel(x, y) ^ sprite_covers(rows, left, top, x, y)),
        forall|x: int, y: int|
            0 <= x < ORIGINAL_WIDTH && 0 <= y < ORIGINAL_HEIGHT && (x < left || x >= left
                + SPRITE_WIDTH || y < top || y >= top + rows.len()) ==> #[trigger] display.with_sprite(
                rows,
                left,
                top,
            ).pixel(x, y) == display.pixel(x, y),
{
}

/// Drawing a sprite twice at one place restores every pixel.
pub proof fn lemma_sprite_twice_restores(display: DisplayView, rows: Seq<u8>, left: int, top: int)
    requires
        display.wf(),
        0 <= left < ORIGINAL_WIDTH,
        0 <= top < ORIGINAL_HEIGHT,
    ensures
        display.with_sprite(rows, left, top).with_sprite(rows, left, top).pixels == display.pixels,
{
    let once = display.with_sprite(rows, left, top);
    let twice = once.with_sprite(rows, left, top);
    assert forall|y: int| 0 <= y < ORIGINAL_HEIGHT implies #[trigger] twice.pixels[y]
        =~= display.pixels[y] by {
        assert forall|x: int| 0 <= x < ORIGINAL_WIDTH implies twice.pixels[y][x]
            == display.pixels[y][x] by {
            assert(once.pixel(x, y) == (display.pixel(x, y) ^ sprite_covers(rows, left, top, x, y)));
        }
    }
    assert(twice.pixels =~= display.pixels);
}

/// The sprite of one set pixel, drawn twice at one place of a blank display:
/// the first draw turns the pixel on and reports no collision, the second
/// reports a collision and turns the pixel off again.
pub proof fn lemma_single_pixel_sprite_twice(left: int, top: int)
    requires
        0 <= left < ORIGINAL_WIDTH,
        0 <= top < ORIGINAL_HEIGHT,
    ensures
        ({
            let rows = seq![0x80u8];
            let blank = DisplayView::blank();
            let once = blank.with_sprite(rows, left, top);
            let twice = once.with_sprite(rows, left, top);
            &&& !blank.sprite_collides(rows, left, top)
            &&& once.pixel(left, top)
            &&& once.sprite_collides(rows, left, top)
            &&& !twice.pixel(left, top)
            &&& twice == blank
        }),
{
    let rows = seq![0x80u8];
    let blank = DisplayView::blank();
    let once = blank.with_sprite(rows, left, top);
    let twice = once.with_sprite(rows, left, top);
    assert((0x80u8 & (0x80u8 >> 0u8)) != 0) by (bit_vector);
    assert(sprite_bit(0x80u8, 0));
    assert(sprite_covers(rows, left, top, left, top));
    assert(once.sprite_hits(rows, left, top, left, top));
    lemma_sprite_twice_restores(blank, rows, left, top);
    assert(twice.pixels =~= blank.pixels);
}

/// A timer at zero stays at zero however often the timer clock ticks, and a
/// running timer never passes below zero: after `ticks` ticks it holds what is
/// left of it.
pub proof fn lemma_timers_settle_at_zero(cpu: CpuView, ticks: nat)
    ensures
        cpu.sound_timer == 0 ==> cpu.ticked_times(ticks).sound_timer == 0,
        cpu.delay_timer == 0 ==> cpu.ticked_times(ticks).delay_timer == 0,
        cpu.ticked_times(ticks).sound_timer == (if cpu.sound_timer >= ticks {
            cpu.sound_timer - ticks
        } else {
            0
        }),
        cpu.ticked_times(ticks).delay_timer == (if cpu.delay_timer >= ticks {
            cpu.delay_timer - ticks
        } else {
            0
        }),
    decreases ticks,
{
    if ticks > 0 {
        lemma_timers_settle_at_zero(cpu.ticked(), (ticks - 1) as nat);
    }
}

/// Registers stored with the memory quirk off and loaded back from the same
/// address come back exactly as they were.
pub proof fn lemma_store_then_load(m: Machine, x: u8, random: u8)
    requires
        m.wf(),
        x < REGISTER_COUNT,
        !m.cpu.quirks.memory_quirk,
        m.cpu.fault(Instruction::Store { x }) is None,
    ensures
        ({
            let stored = m.apply(Instruction::Store { x }, random);
            let loaded = stored.apply(Instruction::Restore { x }, random);
            &&& stored.cpu.i == m.cpu.i
            &&& stored.cpu.fault(Instruction::Restore { x }) is None
            &&& loaded.cpu.v == m.cpu.v
        }),
{
    let stored = m.apply(Instruction::Store { x }, random);
    let loaded = stored.apply(Instruction::Restore { x }, random);
    assert(loaded.cpu.v =~= m.cpu.v);
}

/// While the keyboard waits for a key, steps change nothing, however many
/// are made: the program counter stays where it is.
pub proof fn lemma_waiting_suspends(m: Machine, randoms: Seq<u8>)
    requires
        m.keyboard.waiting,
    ensures
        m.stepped_times(randoms) == Ok::<Machine, Chip8Error>(m),
    decreases randoms.len(),
{
    if randoms.len() > 0 {
        lemma_waiting_suspends(m, randoms.drop_first());
    }
}

/// The key wait from its start to its end. The wait instruction names the
/// register and blocks the processor; the press of a key of the keypad ends
/// the wait and delivers the key; the next step hands exactly that key to the
/// named register, empties the slot, and goes on as any step does from a
/// machine that holds the key in that register: it fetches and executes the
/// instruction at the program counter.
pub proof fn lemma_key_wait(m: Machine, x: u8, key: u8, random: u8)
    requires
        m.wf(),
        x < REGISTER_COUNT,
        key < 16,
    ensures
        ({
            let blocked = m.apply(Instruction::WaitKey { x }, random);
            let released = Machine { keyboard: blocked.keyboard.pressed(Some(key)), ..blocked };
            let handed = released.delivered();
            &&& blocked.keyboard.waiting
            &&& blocked.stepped(random) == Ok::<Machine, Chip8Error>(blocked)
            &&& !released.keyboard.waiting
            &&& released.keyboard.last_key == Some(key)
            &&& released.cpu == blocked.cpu
            &&& handed.cpu.v == blocked.cpu.v.update(x as int, key)
            &&& handed.cpu.v[x as int] == key
            &&& handed.cpu.pc == blocked.cpu.pc
            &&& handed.keyboard.last_key is None
            &&& !handed.keyboard.waiting
            &&& released.stepped(random) == handed.stepped(random)
        }),
{
}

/// Handing over a delivered key keeps a machine well formed.
pub proof fn lemma_delivery_keeps_wf(m: Machine)
    requires
        m.wf(),
    ensures
        m.delivered().wf(),
{
}

/// An instruction that meets no error keeps a machine well formed.
pub proof fn lemma_instruction_keeps_wf(m: Machine, instruction: Instruction, random: u8)
    requires
        m.wf(),
        instruction.wf(),
        m.cpu.fault(instruction) is None,
    ensures
        m.apply(instruction, random).wf(),
{
    let cpu = m.cpu.advanced();
    assert(cpu.wf());
    assert(cpu.branched(instruction, m.keyboard).wf());
    assert(cpu.computed(instruction, random).wf());
    assert(cpu.assigned(instruction).wf());
    match instruction {
        Instruction::Draw { x, y, n } => {
            assert(m.apply(instruction, random).display.wf());
        },
        Instruction::Restore { x } => {
            assert(m.apply(instruction, random).cpu.wf());
        },
        _ => {},
    }
}

/// Whatever a step or an instruction word makes of a well-formed machine is
/// well formed.
pub proof fn lemma_execution_keeps_wf(m: Machine, opcode: u16, random: u8)
    requires
        m.wf(),
    ensures
        m.executed(opcode, random) matches Ok(next) ==> next.wf(),
        m.stepped(random) matches Ok(next) ==> next.wf(),
{
    lemma_delivery_keeps_wf(m);
    lemma_decoded_wf(opcode);
    if let Some(instruction) = decoded(opcode) {
        if m.delivered().cpu.fault(instruction) is None {
            lemma_instruction_keeps_wf(m.delivered(), instruction, random);
        }
    }
    if !m.keyboard.waiting {
        if let Some(word) = m.fetched() {
            lemma_decoded_wf(word);
            if let Some(instruction) = decoded(word) {
                if m.delivered().cpu.fault(instruction) is None {
                    lemma_instruction_keeps_wf(m.delivered(), instruction, random);
                }
            }
        }
    }
}

} // verus!

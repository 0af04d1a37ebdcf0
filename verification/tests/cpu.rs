use chip8::cpu::CPU;
use chip8::display::Display;
use chip8::error::Chip8Error;
use chip8::keyboard::Keyboard;
use chip8::memory::Memory;
use chip8::quirks::Quirks;

struct Machine {
    cpu: CPU,
    memory: Memory,
    display: Display,
    keyboard: Keyboard,
}

impl Machine {
    fn new(quirks: Quirks) -> Self {
        Machine {
            cpu: CPU::new(quirks),
            memory: Memory::new(),
            display: Display::new(),
            keyboard: Keyboard::new(),
        }
    }

    fn plain() -> Self {
        Machine::new(Quirks::none())
    }

    fn with_program(quirks: Quirks, program: &[u16]) -> Self {
        let mut machine = Machine::new(quirks);
        let mut bytes = Vec::new();
        for word in program {
            bytes.push((word >> 8) as u8);
            bytes.push((word & 0xFF) as u8);
        }
        machine.memory.load_rom(&bytes).unwrap();
        machine
    }

    fn execute(&mut self, opcode: u16) -> Result<(), Chip8Error> {
        self.cpu.execute(opcode, 0, &mut self.memory, &mut self.display, &mut self.keyboard)
    }

    fn execute_with(&mut self, opcode: u16, random: u8) -> Result<(), Chip8Error> {
        self.cpu.execute(opcode, random, &mut self.memory, &mut self.display, &mut self.keyboard)
    }

    fn step(&mut self) -> Result<(), Chip8Error> {
        self.cpu.step(&mut self.memory, &mut self.display, &mut self.keyboard)
    }

    fn set(&mut self, x: u16, value: u8) {
        self.execute(0x6000 | (x << 8) | value as u16).unwrap();
    }

    fn v(&self, x: usize) -> u8 {
        self.cpu.registers()[x]
    }

    fn lit(&self) -> Vec<(usize, usize)> {
        let mut cells = Vec::new();
        for y in 0..32 {
            for x in 0..64 {
                if self.display.pixels[y][x] {
                    cells.push((x, y));
                }
            }
        }
        cells
    }

    fn snapshot(&self) -> (u16, [u8; 16], u16, usize, u8, u8, Vec<u8>, Vec<(usize, usize)>, bool, bool, Option<u8>) {
        let memory = (0..4096).map(|a| self.memory.read_byte(a).unwrap()).collect();
        (
            self.cpu.pc(),
            self.cpu.registers(),
            self.cpu.index(),
            self.cpu.stack_depth(),
            self.cpu.delay_timer(),
            self.cpu.sound_timer(),
            memory,
            self.lit(),
            self.display.changed,
            self.keyboard.is_waiting_for_key(),
            self.keyboard.last_key(),
        )
    }
}

const SHIFT: Quirks = Quirks { shift_quirk: true, jump_quirk: false, memory_quirk: false };
const JUMP: Quirks = Quirks { shift_quirk: false, jump_quirk: true, memory_quirk: false };
const MEMORY: Quirks = Quirks { shift_quirk: false, jump_quirk: false, memory_quirk: true };

#[test]
fn a_new_processor_starts_at_the_program() {
    let machine = Machine::plain();
    assert_eq!(machine.cpu.pc(), 0x200);
    assert_eq!(machine.cpu.registers(), [0; 16]);
    assert_eq!(machine.cpu.index(), 0);
    assert_eq!(machine.cpu.stack_depth(), 0);
    assert_eq!(machine.cpu.delay_timer(), 0);
    assert_eq!(machine.cpu.sound_timer(), 0);
}

#[test]
fn jump_lands_on_its_target() {
    let mut machine = Machine::plain();
    assert_eq!(machine.execute(0x1ABC), Ok(()));
    assert_eq!(machine.cpu.pc(), 0xABC);
    assert_eq!(machine.cpu.stack_depth(), 0);
}

#[test]
fn call_lands_on_its_target_and_return_comes_back() {
    let mut machine = Machine::plain();
    assert_eq!(machine.execute(0x2ABC), Ok(()));
    assert_eq!(machine.cpu.pc(), 0xABC);
    assert_eq!(machine.cpu.stack_depth(), 1);
    assert_eq!(machine.execute(0x00EE), Ok(()));
    assert_eq!(machine.cpu.pc(), 0x202);
    assert_eq!(machine.cpu.stack_depth(), 0);
}

#[test]
fn nested_calls_return_in_reverse_order() {
    let mut machine = Machine::with_program(Quirks::none(), &[0x2300]);
    machine.memory.write_byte(0x300, 0x24).unwrap();
    machine.memory.write_byte(0x301, 0x00).unwrap();
    machine.memory.write_byte(0x400, 0x00).unwrap();
    machine.memory.write_byte(0x401, 0xEE).unwrap();
    machine.memory.write_byte(0x302, 0x00).unwrap();
    machine.memory.write_byte(0x303, 0xEE).unwrap();
    assert_eq!(machine.step(), Ok(()));
    assert_eq!(machine.cpu.pc(), 0x300);
    assert_eq!(machine.step(), Ok(()));
    assert_eq!(machine.cpu.pc(), 0x400);
    assert_eq!(machine.cpu.stack_depth(), 2);
    assert_eq!(machine.step(), Ok(()));
    assert_eq!(machine.cpu.pc(), 0x302);
    assert_eq!(machine.step(), Ok(()));
    assert_eq!(machine.cpu.pc(), 0x202);
    assert_eq!(machine.cpu.stack_depth(), 0);
}

#[test]
fn jump_with_offset_adds_vx() {
    let mut machine = Machine::plain();
    machine.set(0, 0x10);
    machine.set(3, 0x05);
    assert_eq!(machine.execute(0xB300), Ok(()));
    assert_eq!(machine.cpu.pc(), 0x305);
}

#[test]
fn jump_with_offset_adds_v0_under_the_jump_quirk() {
    let mut machine = Machine::new(JUMP);
    machine.set(0, 0x10);
    machine.set(3, 0x05);
    assert_eq!(machine.execute(0xB300), Ok(()));
    assert_eq!(machine.cpu.pc(), 0x310);
}

#[test]
fn jump_with_offset_can_leave_the_twelve_bits() {
    let mut machine = Machine::plain();
    machine.set(0xF, 0xFF);
    assert_eq!(machine.execute(0xBFFF), Ok(()));
    assert_eq!(machine.cpu.pc(), 0x10FE);
}

#[test]
fn return_on_an_empty_stack_is_an_underflow_and_changes_nothing() {
    let mut machine = Machine::plain();
    machine.set(1, 0x11);
    machine.set(0xF, 0x22);
    let before = machine.snapshot();
    assert_eq!(machine.execute(0x00EE), Err(Chip8Error::StackUnderflow));
    assert_eq!(machine.snapshot(), before);
}

#[test]
fn return_on_an_empty_stack_through_step() {
    let mut machine = Machine::with_program(Quirks::none(), &[0x00EE]);
    let before = machine.snapshot();
    assert_eq!(machine.step(), Err(Chip8Error::StackUnderflow));
    assert_eq!(machine.snapshot(), before);
    assert_eq!(machine.cpu.pc(), 0x200);
}

#[test]
fn the_seventeenth_nested_call_overflows() {
    let mut machine = Machine::plain();
    for depth in 0..16 {
        assert_eq!(machine.cpu.stack_depth(), depth);
        assert_eq!(machine.execute(0x2300), Ok(()));
    }
    let before = machine.snapshot();
    assert_eq!(machine.execute(0x2300), Err(Chip8Error::StackOverflow));
    assert_eq!(machine.snapshot(), before);
    assert_eq!(machine.cpu.stack_depth(), 16);
    assert_eq!(machine.execute(0x00EE), Ok(()));
    assert_eq!(machine.cpu.pc(), 0x302);
    assert_eq!(machine.execute(0x2400), Ok(()));
}

#[test]
fn skip_if_equal_moves_by_four_or_two() {
    let mut machine = Machine::plain();
    machine.set(0, 0x10);
    let pc = machine.cpu.pc();
    assert_eq!(machine.execute(0x3010), Ok(()));
    assert_eq!(machine.cpu.pc(), pc + 4);
    let pc = machine.cpu.pc();
    assert_eq!(machine.execute(0x3011), Ok(()));
    assert_eq!(machine.cpu.pc(), pc + 2);
}

#[test]
fn skip_if_equal_through_step() {
    let mut machine = Machine::with_program(Quirks::none(), &[0x6010, 0x3010, 0x0000, 0x3011]);
    machine.step().unwrap();
    assert_eq!(machine.cpu.pc(), 0x202);
    machine.step().unwrap();
    assert_eq!(machine.cpu.pc(), 0x206);
    machine.step().unwrap();
    assert_eq!(machine.cpu.pc(), 0x208);
}

#[test]
fn skip_if_not_equal() {
    let mut machine = Machine::plain();
    machine.set(5, 0x10);
    let pc = machine.cpu.pc();
    assert_eq!(machine.execute(0x4510), Ok(()));
    assert_eq!(machine.cpu.pc(), pc + 2);
    assert_eq!(machine.execute(0x4511), Ok(()));
    assert_eq!(machine.cpu.pc(), pc + 6);
}

#[test]
fn skip_on_registers() {
    let mut machine = Machine::plain();
    machine.set(1, 7);
    machine.set(2, 7);
    machine.set(3, 8);
    let pc = machine.cpu.pc();
    assert_eq!(machine.execute(0x5120), Ok(()));
    assert_eq!(machine.cpu.pc(), pc + 4);
    assert_eq!(machine.execute(0x5130), Ok(()));
    assert_eq!(machine.cpu.pc(), pc + 6);
    assert_eq!(machine.execute(0x9120), Ok(()));
    assert_eq!(machine.cpu.pc(), pc + 8);
    assert_eq!(machine.execute(0x9130), Ok(()));
    assert_eq!(machine.cpu.pc(), pc + 12);
}

#[test]
fn skip_on_keys() {
    let mut machine = Machine::plain();
    machine.set(1, 0x5);
    machine.set(2, 0x6);
    machine.set(3, 0x15);
    machine.keyboard.press_key(26);
    let pc = machine.cpu.pc();
    assert_eq!(machine.execute(0xE19E), Ok(()));
    assert_eq!(machine.cpu.pc(), pc + 4);
    assert_eq!(machine.execute(0xE29E), Ok(()));
    assert_eq!(machine.cpu.pc(), pc + 6);
    assert_eq!(machine.execute(0xE39E), Ok(()));
    assert_eq!(machine.cpu.pc(), pc + 8);
    assert_eq!(machine.execute(0xE1A1), Ok(()));
    assert_eq!(machine.cpu.pc(), pc + 10);
    assert_eq!(machine.execute(0xE2A1), Ok(()));
    assert_eq!(machine.cpu.pc(), pc + 14);
    assert_eq!(machine.execute(0xE3A1), Ok(()));
    assert_eq!(machine.cpu.pc(), pc + 18);
}

#[test]
fn load_and_move() {
    let mut machine = Machine::plain();
    assert_eq!(machine.execute(0x6A42), Ok(()));
    assert_eq!(machine.v(0xA), 0x42);
    assert_eq!(machine.cpu.pc(), 0x202);
    assert_eq!(machine.execute(0x8BA0), Ok(()));
    assert_eq!(machine.v(0xB), 0x42);
    assert_eq!(machine.v(0xF), 0);
}

#[test]
fn add_immediate_wraps_without_flag() {
    let mut machine = Machine::plain();
    machine.set(1, 0xFF);
    machine.set(0xF, 0x77);
    assert_eq!(machine.execute(0x7102), Ok(()));
    assert_eq!(machine.v(1), 0x01);
    assert_eq!(machine.v(0xF), 0x77);
    assert_eq!(machine.execute(0x7110), Ok(()));
    assert_eq!(machine.v(1), 0x11);
}

#[test]
fn bitwise_operations_clear_the_flag() {
    let mut machine = Machine::plain();
    machine.set(1, 0b1100);
    machine.set(2, 0b1010);
    machine.set(0xF, 1);
    assert_eq!(machine.execute(0x8121), Ok(()));
    assert_eq!(machine.v(1), 0b1110);
    assert_eq!(machine.v(0xF), 0);
    machine.set(1, 0b1100);
    machine.set(0xF, 1);
    assert_eq!(machine.execute(0x8122), Ok(()));
    assert_eq!(machine.v(1), 0b1000);
    assert_eq!(machine.v(0xF), 0);
    machine.set(1, 0b1100);
    machine.set(0xF, 1);
    assert_eq!(machine.execute(0x8123), Ok(()));
    assert_eq!(machine.v(1), 0b0110);
    assert_eq!(machine.v(0xF), 0);
}

#[test]
fn bitwise_operation_on_the_flag_register_leaves_zero() {
    let mut machine = Machine::plain();
    machine.set(0xF, 0b1100);
    machine.set(2, 0b1010);
    assert_eq!(machine.execute(0x8F21), Ok(()));
    assert_eq!(machine.v(0xF), 0);
}

#[test]
fn add_with_carry() {
    let mut machine = Machine::plain();
    machine.set(1, 0xFF);
    machine.set(2, 0x01);
    assert_eq!(machine.execute(0x8124), Ok(()));
    assert_eq!(machine.v(1), 0x00);
    assert_eq!(machine.v(0xF), 1);
    machine.set(1, 0x01);
    machine.set(2, 0x01);
    assert_eq!(machine.execute(0x8124), Ok(()));
    assert_eq!(machine.v(1), 0x02);
    assert_eq!(machine.v(0xF), 0);
    machine.set(1, 0xFF);
    machine.set(2, 0xFF);
    assert_eq!(machine.execute(0x8124), Ok(()));
    assert_eq!(machine.v(1), 0xFE);
    assert_eq!(machine.v(0xF), 1);
}

#[test]
fn add_with_carry_into_the_flag_register_keeps_the_flag() {
    let mut machine = Machine::plain();
    machine.set(0xF, 0xF0);
    machine.set(2, 0x20);
    assert_eq!(machine.execute(0x8F24), Ok(()));
    assert_eq!(machine.v(0xF), 1);
    machine.set(0xF, 0x10);
    assert_eq!(machine.execute(0x8F24), Ok(()));
    assert_eq!(machine.v(0xF), 0);
}

#[test]
fn subtract_with_borrow() {
    let mut machine = Machine::plain();
    machine.set(1, 0x05);
    machine.set(2, 0x01);
    assert_eq!(machine.execute(0x8125), Ok(()));
    assert_eq!(machine.v(1), 0x04);
    assert_eq!(machine.v(0xF), 1);
    machine.set(1, 0x01);
    machine.set(2, 0x05);
    assert_eq!(machine.execute(0x8125), Ok(()));
    assert_eq!(machine.v(1), 0xFC);
    assert_eq!(machine.v(0xF), 0);
    machine.set(1, 0x05);
    machine.set(2, 0x05);
    assert_eq!(machine.execute(0x8125), Ok(()));
    assert_eq!(machine.v(1), 0x00);
    assert_eq!(machine.v(0xF), 1);
}

#[test]
fn reverse_subtract_with_borrow() {
    let mut machine = Machine::plain();
    machine.set(1, 0x01);
    machine.set(2, 0x05);
    assert_eq!(machine.execute(0x8127), Ok(()));
    assert_eq!(machine.v(1), 0x04);
    assert_eq!(machine.v(2), 0x05);
    assert_eq!(machine.v(0xF), 1);
    machine.set(1, 0x05);
    machine.set(2, 0x01);
    assert_eq!(machine.execute(0x8127), Ok(()));
    assert_eq!(machine.v(1), 0xFC);
    assert_eq!(machine.v(0xF), 0);
}

#[test]
fn shift_right_without_the_quirk_ignores_vy() {
    for vy in [0x00u8, 0x01, 0xFE, 0xFF] {
        let mut machine = Machine::plain();
        machine.set(1, 0b0000_0011);
        machine.set(2, vy);
        assert_eq!(machine.execute(0x8126), Ok(()));
        assert_eq!(machine.v(1), 0b0000_0001);
        assert_eq!(machine.v(0xF), 1);
        assert_eq!(machine.v(2), vy);
    }
    let mut machine = Machine::plain();
    machine.set(1, 0b0000_0010);
    machine.set(2, 0xFF);
    assert_eq!(machine.execute(0x8126), Ok(()));
    assert_eq!(machine.v(1), 0b0000_0001);
    assert_eq!(machine.v(0xF), 0);
}

#[test]
fn shift_right_under_the_quirk_takes_vy() {
    let mut machine = Machine::new(SHIFT);
    machine.set(1, 0b0000_0011);
    machine.set(2, 0b1000_0100);
    assert_eq!(machine.execute(0x8126), Ok(()));
    assert_eq!(machine.v(1), 0b0100_0010);
    assert_eq!(machine.v(2), 0b1000_0100);
    assert_eq!(machine.v(0xF), 0);
    machine.set(2, 0b0000_0101);
    assert_eq!(machine.execute(0x8126), Ok(()));
    assert_eq!(machine.v(1), 0b0000_0010);
    assert_eq!(machine.v(0xF), 1);
}

#[test]
fn shift_left_without_the_quirk() {
    let mut machine = Machine::plain();
    machine.set(1, 0b1000_0001);
    machine.set(2, 0b0000_0100);
    assert_eq!(machine.execute(0x812E), Ok(()));
    assert_eq!(machine.v(1), 0b0000_0010);
    assert_eq!(machine.v(0xF), 1);
    assert_eq!(machine.execute(0x812E), Ok(()));
    assert_eq!(machine.v(1), 0b0000_0100);
    assert_eq!(machine.v(0xF), 0);
}

#[test]
fn shift_left_under_the_quirk_takes_vy() {
    let mut machine = Machine::new(SHIFT);
    machine.set(1, 0b1000_0001);
    machine.set(2, 0b0100_0100);
    assert_eq!(machine.execute(0x812E), Ok(()));
    assert_eq!(machine.v(1), 0b1000_1000);
    assert_eq!(machine.v(0xF), 0);
    machine.set(2, 0b1100_0000);
    assert_eq!(machine.execute(0x812E), Ok(()));
    assert_eq!(machine.v(1), 0b1000_0000);
    assert_eq!(machine.v(0xF), 1);
}

#[test]
fn index_operations() {
    let mut machine = Machine::plain();
    assert_eq!(machine.execute(0xA123), Ok(()));
    assert_eq!(machine.cpu.index(), 0x123);
    machine.set(1, 0xFF);
    assert_eq!(machine.execute(0xF11E), Ok(()));
    assert_eq!(machine.cpu.index(), 0x222);
}

#[test]
fn add_to_index_wraps_at_sixteen_bits() {
    let mut machine = Machine::plain();
    machine.execute(0xAFFF).unwrap();
    machine.set(1, 0xFF);
    for _ in 0..240 {
        machine.execute(0xF11E).unwrap();
    }
    // 0xFFF + 240 * 255 = 0xFF0F
    assert_eq!(machine.cpu.index(), 0xFF0F);
    machine.execute(0xF11E).unwrap();
    assert_eq!(machine.cpu.index(), 0x000E);
    assert_eq!(machine.v(0xF), 0);
}

#[test]
fn glyph_address_uses_the_low_nibble() {
    let mut machine = Machine::plain();
    machine.set(1, 0x0A);
    assert_eq!(machine.execute(0xF129), Ok(()));
    assert_eq!(machine.cpu.index(), 0x50 + 5 * 0xA);
    machine.set(1, 0xF3);
    assert_eq!(machine.execute(0xF129), Ok(()));
    assert_eq!(machine.cpu.index(), 0x50 + 5 * 3);
    machine.set(1, 0x00);
    assert_eq!(machine.execute(0xF129), Ok(()));
    assert_eq!(machine.cpu.index(), 0x50);
}

#[test]
fn random_is_masked() {
    let mut machine = Machine::plain();
    assert_eq!(machine.execute_with(0xC10F, 0xAB), Ok(()));
    assert_eq!(machine.v(1), 0x0B);
    assert_eq!(machine.execute_with(0xC2F0, 0xAB), Ok(()));
    assert_eq!(machine.v(2), 0xA0);
    assert_eq!(machine.execute_with(0xC300, 0xFF), Ok(()));
    assert_eq!(machine.v(3), 0x00);
    assert_eq!(machine.execute_with(0xC4FF, 0x5C), Ok(()));
    assert_eq!(machine.v(4), 0x5C);
}

#[test]
fn random_through_step_stays_under_the_mask() {
    let mut machine = Machine::with_program(Quirks::none(), &[0xC10F, 0x1200]);
    let mut seen = [false; 16];
    for _ in 0..2000 {
        assert_eq!(machine.step(), Ok(()));
        assert_eq!(machine.cpu.pc(), 0x202);
        assert!(machine.v(1) <= 0x0F);
        seen[machine.v(1) as usize] = true;
        assert_eq!(machine.step(), Ok(()));
    }
    assert!(seen.iter().filter(|s| **s).count() > 1);
}

#[test]
fn the_random_byte_is_ignored_by_other_instructions() {
    let mut with_zero = Machine::plain();
    let mut with_ones = Machine::plain();
    for opcode in [0x6112u16, 0x7101, 0x8124, 0xA300, 0xF133, 0xD125, 0x2400] {
        assert_eq!(with_zero.execute_with(opcode, 0x00), with_ones.execute_with(opcode, 0xFF));
        assert_eq!(with_zero.snapshot(), with_ones.snapshot());
    }
}

#[test]
fn timers_are_set_read_and_count_down() {
    let mut machine = Machine::plain();
    machine.set(1, 3);
    machine.set(2, 2);
    assert_eq!(machine.execute(0xF115), Ok(()));
    assert_eq!(machine.execute(0xF218), Ok(()));
    assert_eq!(machine.cpu.delay_timer(), 3);
    assert_eq!(machine.cpu.sound_timer(), 2);
    assert!(machine.cpu.update_timers());
    assert_eq!(machine.cpu.delay_timer(), 2);
    assert_eq!(machine.cpu.sound_timer(), 1);
    assert_eq!(machine.execute(0xF307), Ok(()));
    assert_eq!(machine.v(3), 2);
    assert!(machine.cpu.update_timers());
    assert_eq!(machine.cpu.delay_timer(), 1);
    assert_eq!(machine.cpu.sound_timer(), 0);
    assert!(!machine.cpu.update_timers());
    assert_eq!(machine.cpu.delay_timer(), 0);
    assert_eq!(machine.cpu.sound_timer(), 0);
}

#[test]
fn timers_stay_at_zero() {
    let mut machine = Machine::plain();
    let before = machine.snapshot();
    for _ in 0..1000 {
        assert!(!machine.cpu.update_timers());
        assert_eq!(machine.cpu.delay_timer(), 0);
        assert_eq!(machine.cpu.sound_timer(), 0);
    }
    assert_eq!(machine.snapshot(), before);
}

#[test]
fn timers_do_not_follow_the_instructions() {
    let mut machine = Machine::plain();
    machine.set(1, 9);
    machine.execute(0xF115).unwrap();
    for _ in 0..50 {
        machine.execute(0x7201).unwrap();
    }
    assert_eq!(machine.cpu.delay_timer(), 9);
}

#[test]
fn a_full_timer_runs_down_in_255_ticks() {
    let mut machine = Machine::plain();
    machine.set(1, 0xFF);
    machine.execute(0xF118).unwrap();
    let mut tones = 0;
    for _ in 0..300 {
        if machine.cpu.update_timers() {
            tones += 1;
        }
    }
    assert_eq!(tones, 255);
    assert_eq!(machine.cpu.sound_timer(), 0);
}

#[test]
fn decimal_digits() {
    let mut machine = Machine::plain();
    machine.execute(0xA300).unwrap();
    machine.set(1, 254);
    assert_eq!(machine.execute(0xF133), Ok(()));
    assert_eq!(machine.memory.read_byte(0x300), Ok(2));
    assert_eq!(machine.memory.read_byte(0x301), Ok(5));
    assert_eq!(machine.memory.read_byte(0x302), Ok(4));
    assert_eq!(machine.memory.read_byte(0x303), Ok(0));
    assert_eq!(machine.cpu.index(), 0x300);
    machine.set(1, 7);
    assert_eq!(machine.execute(0xF133), Ok(()));
    assert_eq!(machine.memory.read_byte(0x300), Ok(0));
    assert_eq!(machine.memory.read_byte(0x301), Ok(0));
    assert_eq!(machine.memory.read_byte(0x302), Ok(7));
    machine.set(1, 100);
    assert_eq!(machine.execute(0xF133), Ok(()));
    assert_eq!(machine.memory.read_byte(0x300), Ok(1));
    assert_eq!(machine.memory.read_byte(0x301), Ok(0));
    assert_eq!(machine.memory.read_byte(0x302), Ok(0));
}

#[test]
fn decimal_digits_at_the_end_of_memory() {
    let mut machine = Machine::plain();
    machine.execute(0xAFFD).unwrap();
    machine.set(1, 123);
    assert_eq!(machine.execute(0xF133), Ok(()));
    assert_eq!(machine.memory.read_byte(0xFFD), Ok(1));
    assert_eq!(machine.memory.read_byte(0xFFE), Ok(2));
    assert_eq!(machine.memory.read_byte(0xFFF), Ok(3));
    machine.execute(0xAFFE).unwrap();
    let before = machine.snapshot();
    assert_eq!(machine.execute(0xF133), Err(Chip8Error::OutOfBounds));
    assert_eq!(machine.snapshot(), before);
}

#[test]
fn store_then_load_gives_the_registers_back() {
    for x in 0..16u16 {
        let mut machine = Machine::plain();
        for r in 0..16u16 {
            machine.set(r, 0x10 + r as u8);
        }
        machine.execute(0xA300).unwrap();
        let registers = machine.cpu.registers();
        assert_eq!(machine.execute(0xF055 | (x << 8)), Ok(()));
        assert_eq!(machine.cpu.index(), 0x300);
        for r in 0..16usize {
            let expected = if r <= x as usize { registers[r] } else { 0 };
            assert_eq!(machine.memory.read_byte(0x300 + r), Ok(expected));
        }
        assert_eq!(machine.execute(0xF065 | (x << 8)), Ok(()));
        assert_eq!(machine.cpu.registers(), registers);
        assert_eq!(machine.cpu.index(), 0x300);
    }
}

#[test]
fn load_overwrites_only_the_block() {
    let mut machine = Machine::plain();
    for r in 0..16u16 {
        machine.set(r, 0xEE);
    }
    machine.execute(0xA300).unwrap();
    for a in 0..16usize {
        machine.memory.write_byte(0x300 + a, a as u8 + 1).unwrap();
    }
    assert_eq!(machine.execute(0xF365), Ok(()));
    let registers = machine.cpu.registers();
    assert_eq!(&registers[..4], &[1, 2, 3, 4]);
    assert!(registers[4..].iter().all(|v| *v == 0xEE));
}

#[test]
fn the_memory_quirk_moves_the_index_past_the_block() {
    let mut machine = Machine::new(MEMORY);
    machine.execute(0xA300).unwrap();
    assert_eq!(machine.execute(0xF355), Ok(()));
    assert_eq!(machine.cpu.index(), 0x304);
    assert_eq!(machine.execute(0xF065), Ok(()));
    assert_eq!(machine.cpu.index(), 0x305);
}

#[test]
fn store_and_load_past_the_end_are_refused() {
    let mut machine = Machine::plain();
    for r in 0..16u16 {
        machine.set(r, 0x77);
    }
    machine.execute(0xAFFE).unwrap();
    assert_eq!(machine.execute(0xF155), Ok(()));
    assert_eq!(machine.memory.read_byte(0xFFE), Ok(0x77));
    assert_eq!(machine.memory.read_byte(0xFFF), Ok(0x77));
    let before = machine.snapshot();
    assert_eq!(machine.execute(0xF255), Err(Chip8Error::OutOfBounds));
    assert_eq!(machine.snapshot(), before);
    assert_eq!(machine.execute(0xF265), Err(Chip8Error::OutOfBounds));
    assert_eq!(machine.snapshot(), before);
    assert_eq!(machine.execute(0xF165), Ok(()));
}

#[test]
fn unknown_opcodes_are_refused_and_change_nothing() {
    for opcode in [0x0000u16, 0x00E1, 0x0FFF, 0x5011, 0x8008, 0x800F, 0xE000, 0xE09F, 0xF000, 0xF0FF] {
        let mut machine = Machine::plain();
        machine.set(1, 5);
        let before = machine.snapshot();
        assert_eq!(machine.execute(opcode), Err(Chip8Error::UnknownOpcode(opcode)));
        assert_eq!(machine.snapshot(), before);
    }
}

#[test]
fn an_unknown_opcode_stops_the_program() {
    let mut machine = Machine::with_program(Quirks::none(), &[0x6105, 0xFFFF]);
    assert_eq!(machine.step(), Ok(()));
    assert_eq!(machine.step(), Err(Chip8Error::UnknownOpcode(0xFFFF)));
    assert_eq!(machine.cpu.pc(), 0x202);
    assert_eq!(machine.step(), Err(Chip8Error::UnknownOpcode(0xFFFF)));
    assert_eq!(machine.v(1), 5);
}

#[test]
fn fetch_is_big_endian() {
    let mut machine = Machine::plain();
    machine.memory.load_rom(&[0x6A, 0xBC]).unwrap();
    assert_eq!(machine.step(), Ok(()));
    assert_eq!(machine.v(0xA), 0xBC);
    assert_eq!(machine.cpu.pc(), 0x202);
}

#[test]
fn fetch_past_the_end_of_memory_is_refused() {
    let mut machine = Machine::plain();
    machine.execute(0x1FFE).unwrap();
    machine.memory.write_byte(0xFFE, 0x1F).unwrap();
    machine.memory.write_byte(0xFFF, 0xFF).unwrap();
    assert_eq!(machine.step(), Ok(()));
    assert_eq!(machine.cpu.pc(), 0xFFF);
    let before = machine.snapshot();
    assert_eq!(machine.step(), Err(Chip8Error::OutOfBounds));
    assert_eq!(machine.snapshot(), before);
}

#[test]
fn running_off_the_end_of_memory_is_refused() {
    let mut machine = Machine::plain();
    machine.execute(0x1FFE).unwrap();
    machine.memory.write_byte(0xFFE, 0x61).unwrap();
    machine.memory.write_byte(0xFFF, 0x01).unwrap();
    assert_eq!(machine.step(), Ok(()));
    assert_eq!(machine.cpu.pc(), 0x1000);
    assert_eq!(machine.step(), Err(Chip8Error::OutOfBounds));
    assert_eq!(machine.cpu.pc(), 0x1000);
}

#[test]
fn clear_screen() {
    let mut machine = Machine::plain();
    machine.display.draw_pixel(3, 3, true);
    machine.display.changed = false;
    assert_eq!(machine.execute(0x00E0), Ok(()));
    assert!(machine.lit().is_empty());
    assert!(machine.display.changed);
    assert_eq!(machine.cpu.pc(), 0x202);
}

fn single_pixel_sprite(machine: &mut Machine) {
    machine.memory.write_byte(0x300, 0x80).unwrap();
    machine.execute(0xA300).unwrap();
}

#[test]
fn a_single_pixel_sprite_drawn_twice_is_erased() {
    let mut machine = Machine::plain();
    single_pixel_sprite(&mut machine);
    machine.set(1, 10);
    machine.set(2, 5);
    machine.execute(0x00E0).unwrap();
    assert_eq!(machine.execute(0xD121), Ok(()));
    assert_eq!(machine.v(0xF), 0);
    assert_eq!(machine.lit(), vec![(10, 5)]);
    assert_eq!(machine.execute(0xD121), Ok(()));
    assert_eq!(machine.v(0xF), 1);
    assert!(machine.lit().is_empty());
}

#[test]
fn a_single_pixel_sprite_drawn_twice_at_every_place() {
    for y in 0..32u8 {
        for x in 0..64u8 {
            let mut machine = Machine::plain();
            single_pixel_sprite(&mut machine);
            machine.set(1, x);
            machine.set(2, y);
            assert_eq!(machine.execute(0xD121), Ok(()));
            assert_eq!(machine.v(0xF), 0);
            assert_eq!(machine.lit(), vec![(x as usize, y as usize)]);
            assert_eq!(machine.execute(0xD121), Ok(()));
            assert_eq!(machine.v(0xF), 1);
            assert!(machine.lit().is_empty());
        }
    }
}

#[test]
fn draw_shows_a_glyph() {
    let mut machine = Machine::plain();
    machine.set(0, 0);
    machine.execute(0xF029).unwrap();
    machine.set(1, 2);
    machine.set(2, 1);
    machine.display.changed = false;
    assert_eq!(machine.execute(0xD125), Ok(()));
    assert!(machine.display.changed);
    assert_eq!(machine.v(0xF), 0);
    // the glyph of 0: F0 90 90 90 F0
    let expected = vec![
        (2, 1), (3, 1), (4, 1), (5, 1),
        (2, 2), (5, 2),
        (2, 3), (5, 3),
        (2, 4), (5, 4),
        (2, 5), (3, 5), (4, 5), (5, 5),
    ];
    assert_eq!(machine.lit(), expected);
}

#[test]
fn draw_reports_a_collision_and_keeps_it() {
    let mut machine = Machine::plain();
    machine.memory.write_byte(0x300, 0xFF).unwrap();
    machine.memory.write_byte(0x301, 0xFF).unwrap();
    machine.execute(0xA300).unwrap();
    machine.display.draw_pixel(0, 0, true);
    machine.set(1, 0);
    machine.set(2, 0);
    assert_eq!(machine.execute(0xD122), Ok(()));
    assert_eq!(machine.v(0xF), 1);
    assert!(!machine.display.pixels[0][0]);
    for x in 1..8 {
        assert!(machine.display.pixels[0][x]);
    }
    for x in 0..8 {
        assert!(machine.display.pixels[1][x]);
    }
    assert_eq!(machine.lit().len(), 15);
}

#[test]
fn draw_clears_a_stale_flag() {
    let mut machine = Machine::plain();
    single_pixel_sprite(&mut machine);
    machine.set(0xF, 1);
    machine.set(1, 0);
    assert_eq!(machine.execute(0xD111), Ok(()));
    assert_eq!(machine.v(0xF), 0);
}

#[test]
fn draw_is_clipped_at_the_right_edge() {
    let mut machine = Machine::plain();
    machine.memory.write_byte(0x300, 0xFF).unwrap();
    machine.execute(0xA300).unwrap();
    machine.set(1, 60);
    machine.set(2, 3);
    assert_eq!(machine.execute(0xD121), Ok(()));
    assert_eq!(machine.lit(), vec![(60, 3), (61, 3), (62, 3), (63, 3)]);
    assert_eq!(machine.v(0xF), 0);
}

#[test]
fn draw_is_clipped_at_the_bottom_edge() {
    let mut machine = Machine::plain();
    for row in 0..4 {
        machine.memory.write_byte(0x300 + row, 0x80).unwrap();
    }
    machine.execute(0xA300).unwrap();
    machine.set(1, 7);
    machine.set(2, 30);
    assert_eq!(machine.execute(0xD124), Ok(()));
    assert_eq!(machine.lit(), vec![(7, 30), (7, 31)]);
}

#[test]
fn draw_is_clipped_at_the_corner() {
    let mut machine = Machine::plain();
    for row in 0..15 {
        machine.memory.write_byte(0x300 + row, 0xFF).unwrap();
    }
    machine.execute(0xA300).unwrap();
    machine.set(1, 63);
    machine.set(2, 31);
    assert_eq!(machine.execute(0xD12F), Ok(()));
    assert_eq!(machine.lit(), vec![(63, 31)]);
}

#[test]
fn draw_wraps_the_start_coordinates_only() {
    let mut machine = Machine::plain();
    machine.memory.write_byte(0x300, 0xC0).unwrap();
    machine.memory.write_byte(0x301, 0xC0).unwrap();
    machine.execute(0xA300).unwrap();
    machine.set(1, 64 + 63);
    machine.set(2, 32 * 7 + 31);
    assert_eq!(machine.execute(0xD122), Ok(()));
    assert_eq!(machine.lit(), vec![(63, 31)]);
    let mut machine = Machine::plain();
    machine.memory.write_byte(0x300, 0xC0).unwrap();
    machine.execute(0xA300).unwrap();
    machine.set(1, 200);
    machine.set(2, 100);
    assert_eq!(machine.execute(0xD121), Ok(()));
    assert_eq!(machine.lit(), vec![(200 % 64, 100 % 32), (200 % 64 + 1, 100 % 32)]);
}

#[test]
fn draw_with_no_rows_draws_nothing() {
    let mut machine = Machine::plain();
    machine.execute(0xA300).unwrap();
    machine.set(0xF, 1);
    machine.display.changed = false;
    assert_eq!(machine.execute(0xD120), Ok(()));
    assert!(machine.lit().is_empty());
    assert!(!machine.display.changed);
    assert_eq!(machine.v(0xF), 0);
}

#[test]
fn draw_with_the_flag_register_as_coordinate_starts_at_zero() {
    let mut machine = Machine::plain();
    single_pixel_sprite(&mut machine);
    machine.set(0xF, 9);
    machine.set(1, 4);
    assert_eq!(machine.execute(0xDF11), Ok(()));
    assert_eq!(machine.lit(), vec![(0, 4)]);
    machine.execute(0x00E0).unwrap();
    machine.set(0xF, 9);
    assert_eq!(machine.execute(0xD1F1), Ok(()));
    assert_eq!(machine.lit(), vec![(4, 0)]);
}

#[test]
fn draw_reads_no_row_below_the_display() {
    let mut machine = Machine::plain();
    machine.memory.write_byte(0xFFF, 0x80).unwrap();
    machine.execute(0xAFFF).unwrap();
    machine.set(1, 0);
    machine.set(2, 31);
    assert_eq!(machine.execute(0xD12F), Ok(()));
    assert_eq!(machine.lit(), vec![(0, 31)]);
}

#[test]
fn draw_past_the_end_of_memory_is_refused() {
    let mut machine = Machine::plain();
    machine.memory.write_byte(0xFFF, 0x80).unwrap();
    machine.execute(0xAFFF).unwrap();
    machine.set(1, 0);
    machine.set(2, 30);
    machine.set(0xF, 1);
    machine.display.changed = false;
    let before = machine.snapshot();
    assert_eq!(machine.execute(0xD122), Err(Chip8Error::OutOfBounds));
    assert_eq!(machine.snapshot(), before);
    assert_eq!(machine.execute(0xD121), Ok(()));
    assert_eq!(machine.lit(), vec![(0, 30)]);
}

#[test]
fn the_key_wait_blocks_until_a_key_is_pressed() {
    let mut machine = Machine::with_program(Quirks::none(), &[0xF30A, 0x6122, 0x6233]);
    assert_eq!(machine.step(), Ok(()));
    assert!(machine.keyboard.is_waiting_for_key());
    assert_eq!(machine.cpu.pc(), 0x202);
    let blocked = machine.snapshot();
    for _ in 0..100 {
        assert_eq!(machine.step(), Ok(()));
        assert_eq!(machine.snapshot(), blocked);
    }
    machine.keyboard.press_key(26);
    assert!(!machine.keyboard.is_waiting_for_key());
    assert_eq!(machine.keyboard.last_key(), Some(0x5));
    assert_eq!(machine.cpu.pc(), 0x202);
    assert_eq!(machine.v(3), 0);
    assert_eq!(machine.step(), Ok(()));
    assert_eq!(machine.v(3), 0x5);
    assert_eq!(machine.v(1), 0x22);
    assert_eq!(machine.cpu.pc(), 0x204);
    assert_eq!(machine.keyboard.last_key(), None);
    assert_eq!(machine.step(), Ok(()));
    assert_eq!(machine.v(2), 0x33);
    assert_eq!(machine.v(3), 0x5);
    assert_eq!(machine.cpu.pc(), 0x206);
}

#[test]
fn the_key_goes_to_the_register_named_by_the_wait() {
    // the instruction after the wait names another register in its x field
    let mut machine = Machine::with_program(Quirks::none(), &[0xF70A, 0x8120]);
    machine.step().unwrap();
    machine.keyboard.press_key(25);
    machine.step().unwrap();
    assert_eq!(machine.v(7), 0xF);
    assert_eq!(machine.v(1), 0);
}

#[test]
fn the_delivered_key_is_seen_by_the_next_instruction() {
    let mut machine = Machine::with_program(Quirks::none(), &[0xF10A, 0x3109, 0x0000, 0x6001]);
    machine.step().unwrap();
    machine.keyboard.press_key(7);
    machine.step().unwrap();
    assert_eq!(machine.v(1), 0x9);
    assert_eq!(machine.cpu.pc(), 0x206);
}

#[test]
fn keys_outside_the_keypad_do_not_end_the_wait() {
    let mut machine = Machine::with_program(Quirks::none(), &[0xF30A, 0x6122]);
    machine.step().unwrap();
    machine.keyboard.press_key(41);
    machine.keyboard.release_key(26);
    assert_eq!(machine.step(), Ok(()));
    assert_eq!(machine.cpu.pc(), 0x202);
    assert_eq!(machine.v(1), 0);
    assert!(machine.keyboard.is_waiting_for_key());
}

#[test]
fn timers_run_during_a_key_wait() {
    let mut machine = Machine::with_program(Quirks::none(), &[0x6103, 0xF115, 0xF20A]);
    machine.step().unwrap();
    machine.step().unwrap();
    machine.step().unwrap();
    assert!(machine.keyboard.is_waiting_for_key());
    machine.cpu.update_timers();
    machine.step().unwrap();
    machine.cpu.update_timers();
    assert_eq!(machine.cpu.delay_timer(), 1);
    assert_eq!(machine.cpu.pc(), 0x206);
}

#[test]
fn a_failed_step_keeps_the_delivered_key() {
    let mut machine = Machine::with_program(Quirks::none(), &[0xF30A, 0xFFFF]);
    machine.step().unwrap();
    machine.keyboard.press_key(26);
    let before = machine.snapshot();
    assert_eq!(machine.step(), Err(Chip8Error::UnknownOpcode(0xFFFF)));
    assert_eq!(machine.snapshot(), before);
    assert_eq!(machine.keyboard.last_key(), Some(0x5));
    assert_eq!(machine.v(3), 0);
}

#[test]
fn a_small_program_counts_to_ten() {
    // V0 = 0; loop: V0 += 1; if V0 != 10 goto loop; I = 0x300; store decimal
    let mut machine = Machine::with_program(
        Quirks::none(),
        &[0x6000, 0x7001, 0x300A, 0x1202, 0xA300, 0xF033, 0x120C],
    );
    let mut steps = 0;
    while machine.cpu.pc() != 0x20C {
        assert_eq!(machine.step(), Ok(()));
        steps += 1;
        assert!(steps < 1000);
    }
    assert_eq!(machine.v(0), 10);
    assert_eq!(machine.memory.read_byte(0x300), Ok(0));
    assert_eq!(machine.memory.read_byte(0x301), Ok(1));
    assert_eq!(machine.memory.read_byte(0x302), Ok(0));
    assert_eq!(steps, 1 + 10 * 3 - 1 + 2);
}

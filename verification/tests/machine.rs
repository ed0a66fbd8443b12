use lib::emu::Emu;
use lib::machine::{tick_due, Chip8, NANOS_PER_INSTRUCTION};
use lib::model::{Effect, DISPLAY_SIZE, NUM_REG, PROGRAM_START, RAM_SIZE};

fn machine_with(assignments: &[(u16, i8)]) -> Chip8 {
    let mut m = Chip8::new();
    for &(x, v) in assignments {
        let instr = 0x6000 | (x << 8) | (v as u8 as u16);
        assert_eq!(m.execute(instr), Effect::Continue);
    }
    m
}

#[test]
fn emu_new_builds_a_machine() {
    let _emu = Emu::new();
}

#[test]
fn new_machine_is_clear() {
    let m = Chip8::new();
    assert_eq!(m.pc(), PROGRAM_START);
    assert_eq!(m.i_reg(), 0);
    assert!(m.stack().is_empty());
    for x in 0..NUM_REG {
        assert_eq!(m.register(x), 0);
    }
    for a in 0..RAM_SIZE {
        assert_eq!(m.memory_at(a), 0);
    }
    for p in 0..DISPLAY_SIZE {
        assert!(!m.pixel(p));
    }
}

#[test]
fn combine_u8_reads_signed_byte() {
    let m = Chip8::new();
    assert_eq!(m.combine_u8(0x1, 0x2), 0x12);
    assert_eq!(m.combine_u8(0x7, 0xF), 127);
    assert_eq!(m.combine_u8(0x8, 0x0), -128);
    assert_eq!(m.combine_u8(0xF, 0xF), -1);
}

#[test]
fn combine_u16_builds_address() {
    let m = Chip8::new();
    assert_eq!(m.combine_u16(0x2, 0x3, 0x4), 0x36);
    assert_eq!(m.combine_u16(0xA, 0xB, 0xC), 0xBE);
    assert_eq!(m.combine_u16(0x0, 0x0, 0x0), 0);
    assert_eq!(m.combine_u16(0x0, 0x2, 0x0), 0x20);
    assert_eq!(m.combine_u16(0xF, 0xF, 0xF), 0xFF);
}

#[test]
fn load_rom_copies_program() {
    let mut m = Chip8::new();
    m.load_rom(&[0xAB, 0xCD, 0xEF]);
    assert_eq!(m.memory_at(0x1FF), 0);
    assert_eq!(m.memory_at(0x200), 0xAB);
    assert_eq!(m.memory_at(0x201), 0xCD);
    assert_eq!(m.memory_at(0x202), 0xEF);
    assert_eq!(m.memory_at(0x203), 0);
    assert_eq!(m.pc(), 0x200);
}

#[test]
fn load_rom_fills_memory_to_the_end() {
    let mut m = Chip8::new();
    let rom = vec![7u8; 3584];
    m.load_rom(&rom);
    assert_eq!(m.memory_at(0x1FF), 0);
    assert_eq!(m.memory_at(0x200), 7);
    assert_eq!(m.memory_at(RAM_SIZE - 1), 7);
}

#[test]
fn fetch_reads_high_byte_first() {
    let mut m = Chip8::new();
    m.load_rom(&[0x12, 0x34, 0x56, 0x78]);
    assert_eq!(m.fetch(), 0x1234);
    assert_eq!(m.pc(), 0x202);
    assert_eq!(m.fetch(), 0x5678);
    assert_eq!(m.pc(), 0x204);
}

#[test]
fn clear_screen_asks_for_redraw() {
    let mut m = Chip8::new();
    assert_eq!(m.execute(0x00E0), Effect::Redraw);
    for p in 0..DISPLAY_SIZE {
        assert!(!m.pixel(p));
    }
}

#[test]
fn jump_sets_pc() {
    let mut m = Chip8::new();
    assert_eq!(m.execute(0x1ABC), Effect::Continue);
    assert_eq!(m.pc(), 0xBE);
    assert_eq!(m.execute(0x1020), Effect::Continue);
    assert_eq!(m.pc(), 0x20);
    assert!(m.stack().is_empty());
}

#[test]
fn call_then_return_restores_pc_and_stack() {
    let mut m = Chip8::new();
    assert_eq!(m.execute(0x2345), Effect::Continue);
    assert_eq!(m.pc(), 0x47);
    assert_eq!(m.stack(), &[0x200]);
    assert_eq!(m.execute(0x2456), Effect::Continue);
    assert_eq!(m.pc(), 0x56);
    assert_eq!(m.stack(), &[0x200, 0x47]);
    assert_eq!(m.execute(0x00EE), Effect::Continue);
    assert_eq!(m.pc(), 0x47);
    assert_eq!(m.execute(0x00EE), Effect::Continue);
    assert_eq!(m.pc(), 0x200);
    assert!(m.stack().is_empty());
}

#[test]
fn return_needs_a_call() {
    let mut m = Chip8::new();
    assert!(!m.can_execute(0x00EE));
    m.execute(0x2300);
    assert!(m.can_execute(0x00EE));
}

#[test]
fn skip_if_equal_byte() {
    let mut m = machine_with(&[(3, 0x42)]);
    m.execute(0x3342);
    assert_eq!(m.pc(), 0x202);
    m.execute(0x3343);
    assert_eq!(m.pc(), 0x202);
}

#[test]
fn skip_if_not_equal_byte() {
    let mut m = machine_with(&[(3, 0x42)]);
    m.execute(0x4342);
    assert_eq!(m.pc(), 0x200);
    m.execute(0x4343);
    assert_eq!(m.pc(), 0x202);
}

#[test]
fn skip_byte_compares_signed() {
    let mut m = machine_with(&[(1, -1)]);
    m.execute(0x31FF);
    assert_eq!(m.pc(), 0x202);
}

#[test]
fn skip_if_equal_registers() {
    let mut m = machine_with(&[(1, 5), (2, 5), (3, 6)]);
    m.execute(0x5120);
    assert_eq!(m.pc(), 0x202);
    m.execute(0x5130);
    assert_eq!(m.pc(), 0x202);
}

#[test]
fn skip_if_not_equal_registers() {
    let mut m = machine_with(&[(1, 5), (2, 5), (3, 6)]);
    m.execute(0x9120);
    assert_eq!(m.pc(), 0x200);
    m.execute(0x9130);
    assert_eq!(m.pc(), 0x202);
}

#[test]
fn skip_needs_room_in_pc() {
    let mut m = Chip8::new();
    m.execute(0x2FFF);
    m.execute(0x6000);
    assert!(m.can_execute(0x3000));
}

#[test]
fn load_byte_sets_register() {
    let mut m = Chip8::new();
    m.execute(0x6A7F);
    assert_eq!(m.register(0xA), 127);
    m.execute(0x6A80);
    assert_eq!(m.register(0xA), -128);
    for x in 0..NUM_REG {
        if x != 0xA {
            assert_eq!(m.register(x), 0);
        }
    }
}

#[test]
fn add_byte_wraps() {
    let mut m = machine_with(&[(2, 0x7F)]);
    m.execute(0x7201);
    assert_eq!(m.register(2), -128);
    m.execute(0x72FF);
    assert_eq!(m.register(2), 127);
    assert_eq!(m.register(0xF), 0);
}

#[test]
fn move_or_and_xor() {
    let mut m = machine_with(&[(1, 0b0101), (2, 0b0011)]);
    m.execute(0x8121);
    assert_eq!(m.register(1), 0b0111);
    let mut m = machine_with(&[(1, 0b0101), (2, 0b0011)]);
    m.execute(0x8122);
    assert_eq!(m.register(1), 0b0001);
    let mut m = machine_with(&[(1, 0b0101), (2, 0b0011)]);
    m.execute(0x8123);
    assert_eq!(m.register(1), 0b0110);
    let mut m = machine_with(&[(1, 0b0101), (2, 0b0011)]);
    m.execute(0x8120);
    assert_eq!(m.register(1), 0b0011);
    assert_eq!(m.register(2), 0b0011);
}

#[test]
fn add_registers_sets_flag_on_overflow() {
    let mut m = machine_with(&[(1, 100), (2, 100)]);
    m.execute(0x8124);
    assert_eq!(m.register(1), -56);
    assert_eq!(m.register(0xF), 1);

    let mut m = machine_with(&[(1, -100), (2, -100)]);
    m.execute(0x8124);
    assert_eq!(m.register(1), 56);
    assert_eq!(m.register(0xF), 1);

    let mut m = machine_with(&[(1, 1), (2, 2), (0xF, 9)]);
    m.execute(0x8124);
    assert_eq!(m.register(1), 3);
    assert_eq!(m.register(0xF), 0);

    let mut m = machine_with(&[(1, 100), (2, -100)]);
    m.execute(0x8124);
    assert_eq!(m.register(1), 0);
    assert_eq!(m.register(0xF), 0);
}

#[test]
fn add_registers_min_plus_min_sets_flag() {
    let mut m = machine_with(&[(1, -128), (2, -128)]);
    m.execute(0x8124);
    assert_eq!(m.register(1), 0);
    assert_eq!(m.register(0xF), 1);

    let mut m = machine_with(&[(1, -1), (2, -128)]);
    m.execute(0x8124);
    assert_eq!(m.register(1), 127);
    assert_eq!(m.register(0xF), 1);

    let mut m = machine_with(&[(1, -1), (2, -127)]);
    m.execute(0x8124);
    assert_eq!(m.register(1), -128);
    assert_eq!(m.register(0xF), 0);
}

#[test]
fn add_into_flag_register_keeps_flag() {
    let mut m = machine_with(&[(0xF, 100), (2, 100)]);
    m.execute(0x8F24);
    assert_eq!(m.register(0xF), 1);
}

#[test]
fn sub_registers_flag_is_no_borrow() {
    let mut m = machine_with(&[(1, 5), (2, 3)]);
    m.execute(0x8125);
    assert_eq!(m.register(1), 2);
    assert_eq!(m.register(0xF), 1);

    let mut m = machine_with(&[(1, 3), (2, 5)]);
    m.execute(0x8125);
    assert_eq!(m.register(1), -2);
    assert_eq!(m.register(0xF), 0);

    let mut m = machine_with(&[(1, 100), (2, -100)]);
    m.execute(0x8125);
    assert_eq!(m.register(1), -56);
    assert_eq!(m.register(0xF), 1);

    let mut m = machine_with(&[(1, 4), (2, 4)]);
    m.execute(0x8125);
    assert_eq!(m.register(1), 0);
    assert_eq!(m.register(0xF), 1);
}

#[test]
fn reverse_sub_registers() {
    let mut m = machine_with(&[(1, 3), (2, 5)]);
    m.execute(0x8127);
    assert_eq!(m.register(1), 2);
    assert_eq!(m.register(0xF), 1);

    let mut m = machine_with(&[(1, 5), (2, 3)]);
    m.execute(0x8127);
    assert_eq!(m.register(1), -2);
    assert_eq!(m.register(0xF), 0);
}

#[test]
fn shift_right_keeps_low_bit_in_flag() {
    let mut m = machine_with(&[(1, 5)]);
    m.execute(0x8106);
    assert_eq!(m.register(1), 2);
    assert_eq!(m.register(0xF), 1);

    let mut m = machine_with(&[(1, 4)]);
    m.execute(0x8106);
    assert_eq!(m.register(1), 2);
    assert_eq!(m.register(0xF), 0);

    let mut m = machine_with(&[(1, -3)]);
    m.execute(0x8106);
    assert_eq!(m.register(1), -2);
    assert_eq!(m.register(0xF), 1);
}

#[test]
fn shift_left_flag_is_shifted_out_bit() {
    let mut m = machine_with(&[(1, 0x10)]);
    m.execute(0x810E);
    assert_eq!(m.register(1), 0x20);
    assert_eq!(m.register(0xF), 0);

    let mut m = machine_with(&[(1, 3)]);
    m.execute(0x810E);
    assert_eq!(m.register(1), 6);
    assert_eq!(m.register(0xF), 0);

    let mut m = machine_with(&[(1, -128)]);
    m.execute(0x810E);
    assert_eq!(m.register(1), 0);
    assert_eq!(m.register(0xF), 1);

    let mut m = machine_with(&[(1, -1)]);
    m.execute(0x810E);
    assert_eq!(m.register(1), -2);
    assert_eq!(m.register(0xF), 1);

    let mut m = machine_with(&[(1, 0x40)]);
    m.execute(0x810E);
    assert_eq!(m.register(1), -128);
    assert_eq!(m.register(0xF), 0);
}

#[test]
fn invalid_opcodes_change_nothing() {
    for instr in [0xA123u16, 0x0123, 0x5121, 0x8008, 0x800F, 0xF00A, 0x00EF, 0x9121] {
        let mut m = machine_with(&[(1, 7)]);
        assert_eq!(m.execute(instr), Effect::InvalidOpcode);
        assert_eq!(m.pc(), 0x200);
        assert_eq!(m.register(1), 7);
        assert!(m.stack().is_empty());
    }
}

#[test]
fn tick_fetches_and_executes() {
    let mut m = Chip8::new();
    m.load_rom(&[0x60, 0x05, 0x70, 0x03, 0x10, 0x20]);
    assert!(m.can_tick());
    assert_eq!(m.tick(), Effect::Continue);
    assert_eq!(m.register(0), 5);
    assert_eq!(m.pc(), 0x202);
    assert_eq!(m.tick(), Effect::Continue);
    assert_eq!(m.register(0), 8);
    assert_eq!(m.tick(), Effect::Continue);
    assert_eq!(m.pc(), 0x20);
}

#[test]
fn tick_skip_jumps_over_instruction() {
    let mut m = Chip8::new();
    m.load_rom(&[0x30, 0x00, 0x60, 0x09, 0x61, 0x01]);
    m.tick();
    assert_eq!(m.pc(), 0x204);
    m.tick();
    assert_eq!(m.register(0), 0);
    assert_eq!(m.register(1), 1);
}

#[test]
fn tick_reports_invalid_and_moves_on() {
    let mut m = Chip8::new();
    m.load_rom(&[0xA1, 0x23]);
    assert_eq!(m.tick(), Effect::InvalidOpcode);
    assert_eq!(m.pc(), 0x202);
}

#[test]
fn cannot_tick_past_end_of_memory() {
    let mut m = Chip8::new();
    let rom: Vec<u8> = [0x60u8, 0x01].repeat(1792);
    m.load_rom(&rom);
    for _ in 0..1791 {
        assert!(m.can_tick());
        assert_eq!(m.tick(), Effect::Continue);
    }
    assert_eq!(m.pc(), 0xFFE);
    assert!(m.can_tick());
    m.tick();
    assert_eq!(m.pc(), 0x1000);
    assert!(!m.can_tick());
}

#[test]
fn cannot_tick_into_return_on_empty_stack() {
    let mut m = Chip8::new();
    m.load_rom(&[0x00, 0xEE]);
    assert!(!m.can_tick());
}

#[test]
fn frame_of_clear_display() {
    let m = Chip8::new();
    let text = m.frame();
    assert_eq!(text.len(), 32 * 65);
    for r in 0..32 {
        for c in 0..64 {
            assert_eq!(text[r * 65 + c], ' ');
        }
        assert_eq!(text[r * 65 + 64], '\n');
    }
}

#[test]
fn tick_due_at_seven_hundred_hertz() {
    assert_eq!(NANOS_PER_INSTRUCTION, 1_428_571);
    assert!(!tick_due(0));
    assert!(!tick_due(1_428_570));
    assert!(tick_due(1_428_571));
    assert!(tick_due(16_000_000));
}

use vstd::prelude::*;

use crate::machine::loaded_memory;
use crate::model::{
    after_fetch, can_fetch, can_step, decode, fetched_word, jump_target, nibble2, reg, skip_taken,
    step, well_shaped, wrap_i8, Effect, MachineState, DISPLAY_SIZE, FLAG_REGISTER,
    MAX_PROGRAM_SIZE, NUM_REG, PROGRAM_START,
};

verus! {

/// No instruction changes the sizes of memory, registers and display.
pub proof fn lemma_step_keeps_shape(s: MachineState, instr: u16)
    requires
        well_shaped(s),
    ensures
        well_shaped(step(s, instr).0),
{
}

/// No instruction writes memory or the index register.
pub proof fn lemma_step_keeps_memory(s: MachineState, instr: u16)
    ensures
        step(s, instr).0.memory == s.memory,
        step(s, instr).0.i_reg == s.i_reg,
{
}

/// Only `00E0` touches the display: it clears every pixel and asks the host to redraw;
/// every other instruction leaves the display as it was and asks for no redraw.
pub proof fn lemma_only_clear_touches_display(s: MachineState, instr: u16)
    ensures
        instr == 0x00E0 ==> forall|i: int|
            0 <= i < DISPLAY_SIZE ==> !#[trigger] step(s, instr).0.display[i],
        instr == 0x00E0 ==> step(s, instr).0.display.len() == DISPLAY_SIZE,
        instr != 0x00E0 ==> step(s, instr).0.display == s.display,
        (step(s, instr).1 == Effect::Redraw) <==> instr == 0x00E0,
{
}

/// An instruction that is not recognised changes nothing and is reported to the host.
pub proof fn lemma_invalid_changes_nothing(s: MachineState, instr: u16)
    ensures
        (step(s, instr).1 == Effect::InvalidOpcode) <==> decode(instr) is Invalid,
        step(s, instr).1 == Effect::InvalidOpcode ==> step(s, instr).0 == s,
{
}

/// An instruction writes at most its own register `Vx` and the flag register `VF`.
pub proof fn lemma_step_writes_only_x_and_flag(s: MachineState, instr: u16, i: int)
    requires
        well_shaped(s),
        0 <= i < NUM_REG,
        i != nibble2(instr),
        i != FLAG_REGISTER,
    ensures
        step(s, instr).0.registers[i] == s.registers[i],
{
}

/// The call stack is last in, first out: a call `2NNN` followed by a return brings the
/// machine back to exactly the state before the call.
pub proof fn lemma_call_then_return(s: MachineState, addr: u16)
    requires
        addr < 0x1000,
    ensures
        can_step(step(s, (0x2000 + addr) as u16).0, 0x00EE),
        step(step(s, (0x2000 + addr) as u16).0, 0x00EE).0 == s,
        step(s, (0x2000 + addr) as u16).0.pc == jump_target((0x2000 + addr) as u16),
{
    let call = (0x2000 + addr) as u16;
    assert(call / 0x1000 == 2);
    assert(call % 0x1000 == addr);
    let after = step(s, call).0;
    assert(after.stack.drop_last() =~= s.stack);
}

/// `3XNN` and `4XNN` are complementary: for the same register and byte exactly one of them
/// skips the next instruction.
pub proof fn lemma_skip_byte_complementary(s: MachineState, x: u8, nn: u8)
    requires
        x < 16,
        s.pc + 2 <= u16::MAX,
    ensures
        ({
            let eq = (0x3000 + x * 0x100 + nn) as u16;
            let ne = (0x4000 + x * 0x100 + nn) as u16;
            &&& skip_taken(s, decode(eq)) != skip_taken(s, decode(ne))
            &&& step(s, eq).0.pc + step(s, ne).0.pc == 2 * s.pc + 2
        }),
{
    let eq = (0x3000 + x * 0x100 + nn) as u16;
    let ne = (0x4000 + x * 0x100 + nn) as u16;
    assert(eq / 0x1000 == 3 && ne / 0x1000 == 4);
    assert(eq / 0x100 % 0x10 == x && ne / 0x100 % 0x10 == x);
    assert(eq % 0x100 == nn && ne % 0x100 == nn);
}

/// `5XY0` and `9XY0` are complementary: for the same registers exactly one of them skips
/// the next instruction.
pub proof fn lemma_skip_reg_complementary(s: MachineState, x: u8, y: u8)
    requires
        x < 16,
        y < 16,
        s.pc + 2 <= u16::MAX,
    ensures
        ({
            let eq = (0x5000 + x * 0x100 + y * 0x10) as u16;
            let ne = (0x9000 + x * 0x100 + y * 0x10) as u16;
            &&& skip_taken(s, decode(eq)) != skip_taken(s, decode(ne))
            &&& step(s, eq).0.pc + step(s, ne).0.pc == 2 * s.pc + 2
        }),
{
    let eq = (0x5000 + x * 0x100 + y * 0x10) as u16;
    let ne = (0x9000 + x * 0x100 + y * 0x10) as u16;
    assert(eq / 0x1000 == 5 && ne / 0x1000 == 9);
    assert(eq / 0x100 % 0x10 == x && ne / 0x100 % 0x10 == x);
    assert(eq / 0x10 % 0x10 == y && ne / 0x10 % 0x10 == y);
    assert(eq % 0x10 == 0 && ne % 0x10 == 0);
}

/// `8XY4` adds modulo 256 and sets `VF` to 1 exactly when the signed sum overflows the
/// range of a byte.
pub proof fn lemma_add_flag_is_overflow(s: MachineState, x: u8, y: u8)
    requires
        well_shaped(s),
        x < 16,
        y < 16,
    ensures
        ({
            let t = step(s, (0x8004 + x * 0x100 + y * 0x10) as u16).0;
            let sum = reg(s, x) + reg(s, y);
            &&& t.registers[FLAG_REGISTER as int] == (if sum < i8::MIN || sum > i8::MAX {
                1i8
            } else {
                0i8
            })
            &&& x != FLAG_REGISTER ==> (t.registers[x as int] - sum) % 256 == 0
        }),
{
    let instr = (0x8004 + x * 0x100 + y * 0x10) as u16;
    assert(instr / 0x1000 == 8);
    assert(instr / 0x100 % 0x10 == x);
    assert(instr / 0x10 % 0x10 == y);
    assert(instr % 0x10 == 4);
}

/// `8XY5` subtracts modulo 256 and sets `VF` to 1 when `VX >= VY` and to 0 when the
/// subtraction borrows.
pub proof fn lemma_sub_flag_is_no_borrow(s: MachineState, x: u8, y: u8)
    requires
        well_shaped(s),
        x < 16,
        y < 16,
    ensures
        ({
            let t = step(s, (0x8005 + x * 0x100 + y * 0x10) as u16).0;
            let diff = reg(s, x) - reg(s, y);
            &&& t.registers[FLAG_REGISTER as int] == (if reg(s, x) >= reg(s, y) {
                1i8
            } else {
                0i8
            })
            &&& x != FLAG_REGISTER ==> (t.registers[x as int] - diff) % 256 == 0
        }),
{
    let instr = (0x8005 + x * 0x100 + y * 0x10) as u16;
    assert(instr / 0x1000 == 8);
    assert(instr / 0x100 % 0x10 == x);
    assert(instr / 0x10 % 0x10 == y);
    assert(instr % 0x10 == 5);
}

/// `8XY6` shifts `VX` right by one bit and puts the bit shifted out in `VF`, so that twice
/// the new `VX` plus `VF` is the old `VX`.
pub proof fn lemma_shift_right_keeps_shifted_bit(s: MachineState, x: u8, y: u8)
    requires
        well_shaped(s),
        x < 16,
        y < 16,
        x != FLAG_REGISTER,
    ensures
        ({
            let t = step(s, (0x8006 + x * 0x100 + y * 0x10) as u16).0;
            &&& 0 <= t.registers[FLAG_REGISTER as int] <= 1
            &&& 2 * t.registers[x as int] + t.registers[FLAG_REGISTER as int] == reg(s, x)
        }),
{
    let instr = (0x8006 + x * 0x100 + y * 0x10) as u16;
    assert(instr / 0x1000 == 8);
    assert(instr / 0x100 % 0x10 == x);
    assert(instr % 0x10 == 6);
}

/// `8XYE` shifts `VX` left by one bit modulo 256 and puts the bit shifted out, the old
/// sign bit, in `VF`.
pub proof fn lemma_shift_left_flag(s: MachineState, x: u8, y: u8)
    requires
        well_shaped(s),
        x < 16,
        y < 16,
    ensures
        ({
            let t = step(s, (0x800E + x * 0x100 + y * 0x10) as u16).0;
            &&& t.registers[FLAG_REGISTER as int] == (if reg(s, x) < 0 { 1i8 } else { 0i8 })
            &&& x != FLAG_REGISTER ==> t.registers[x as int] == wrap_i8(2 * reg(s, x))
        }),
{
    let instr = (0x800E + x * 0x100 + y * 0x10) as u16;
    assert(instr / 0x1000 == 8);
    assert(instr / 0x100 % 0x10 == x);
    assert(instr % 0x10 == 0xE);
}

/// After a program is loaded, fetching anywhere inside it reads its bytes back, two at a
/// time and high byte first.
pub proof fn lemma_fetch_reads_loaded_program(s: MachineState, rom: Seq<u8>)
    requires
        well_shaped(s),
        rom.len() <= MAX_PROGRAM_SIZE,
        PROGRAM_START <= s.pc,
        s.pc + 1 < PROGRAM_START + rom.len(),
    ensures
        ({
            let t = MachineState { memory: loaded_memory(s.memory, rom), ..s };
            &&& can_fetch(t)
            &&& fetched_word(t) == rom[s.pc - PROGRAM_START] * 0x100 + rom[s.pc + 1 - PROGRAM_START]
            &&& after_fetch(t).pc == s.pc + 2
        }),
{
}

} // verus!

use vstd::prelude::*;

use vstd::arithmetic::div_mod::lemma_fundamental_div_mod_converse;

use crate::emu::power_on_state;
use crate::machine::{initial_state, is_frame_of, loaded_memory, pixel_char};
use crate::model::{
    after_fetch, can_step, can_tick, fetched_word, step, tick_result, well_shaped, Effect,
    MachineState,
};

verus! {

/// The word with nibbles `a`, `b`, `c`, `d`, from the most significant.
pub open spec fn word(a: int, b: int, c: int, d: int) -> u16 {
    (a * 0x1000 + b * 0x100 + c * 0x10 + d) as u16
}

/// A word built from four nibbles is taken apart into the same four nibbles.
proof fn lemma_word_fields(a: int, b: int, c: int, d: int)
    requires
        0 <= a < 16,
        0 <= b < 16,
        0 <= c < 16,
        0 <= d < 16,
    ensures
        word(a, b, c, d) as int == a * 0x1000 + b * 0x100 + c * 0x10 + d,
        word(a, b, c, d) / 0x1000 == a,
        word(a, b, c, d) / 0x100 % 0x10 == b,
        word(a, b, c, d) / 0x10 % 0x10 == c,
        word(a, b, c, d) % 0x10 == d,
        word(a, b, c, d) % 0x100 == c * 0x10 + d,
        word(a, b, c, d) % 0x1000 == b * 0x100 + c * 0x10 + d,
{
    let w = a * 0x1000 + b * 0x100 + c * 0x10 + d;
    lemma_fundamental_div_mod_converse(w, 0x1000, a, b * 0x100 + c * 0x10 + d);
    lemma_fundamental_div_mod_converse(w, 0x100, a * 0x10 + b, c * 0x10 + d);
    lemma_fundamental_div_mod_converse(a * 0x10 + b, 0x10, a, b);
    lemma_fundamental_div_mod_converse(w, 0x10, a * 0x100 + b * 0x10 + c, d);
    lemma_fundamental_div_mod_converse(a * 0x100 + b * 0x10 + c, 0x10, a * 0x10 + b, c);
}

/// A machine just switched on starts at address 0x200 with everything else clear.
pub proof fn lemma_power_on_starts_at_0x200()
    ensures
        power_on_state().pc == 0x200,
        power_on_state().i_reg == 0,
        power_on_state().sp == 0,
        power_on_state().dt == 0,
        power_on_state().st == 0,
        power_on_state().ram.len() == 4096,
        forall|i: int| 0 <= i < 4096 ==> power_on_state().ram[i] == 0,
        forall|i: int| 0 <= i < 16 ==> power_on_state().v_reg[i] == 0,
        forall|i: int| 0 <= i < 16 ==> power_on_state().stack[i] == 0,
        forall|i: int| 0 <= i < 2048 ==> !power_on_state().screen[i],
        forall|i: int| 0 <= i < 16 ==> !power_on_state().keys[i],
{
}

/// An interpreter with nothing loaded starts at address 0x200 with an empty stack and
/// clear memory, registers and display.
pub proof fn lemma_initial_state_starts_at_0x200()
    ensures
        initial_state().pc == 0x200,
        initial_state().i_reg == 0,
        initial_state().stack.len() == 0,
        well_shaped(initial_state()),
        forall|i: int| 0 <= i < 4096 ==> initial_state().memory[i] == 0,
        forall|i: int| 0 <= i < 16 ==> initial_state().registers[i] == 0,
        forall|i: int| 0 <= i < 2048 ==> !initial_state().display[i],
{
}

/// `00E0` turns every pixel off, changes nothing else and asks for a redraw.
pub proof fn lemma_clear_screen(s: MachineState)
    ensures
        ({
            let (t, e) = step(s, 0x00E0);
            &&& e == Effect::Redraw
            &&& t.display.len() == 2048
            &&& forall|i: int| 0 <= i < 2048 ==> !t.display[i]
            &&& t == (MachineState { display: t.display, ..s })
        }),
{
}

/// `1ABC` moves the program counter to `C | A` plus sixteen times `B`, and changes nothing else.
pub proof fn lemma_jump(s: MachineState, a: u8, b: u8, c: u8)
    requires
        a < 16,
        b < 16,
        c < 16,
    ensures
        step(s, word(1, a as int, b as int, c as int)) == (
            MachineState { pc: (b * 16 + (a | c)) as u16, ..s },
            Effect::Continue,
        ),
{
    lemma_word_fields(1, a as int, b as int, c as int);
}

/// `2ABC` pushes the current program counter and then jumps as `1ABC` does.
pub proof fn lemma_call(s: MachineState, a: u8, b: u8, c: u8)
    requires
        a < 16,
        b < 16,
        c < 16,
    ensures
        step(s, word(2, a as int, b as int, c as int)) == (
            MachineState { pc: (b * 16 + (a | c)) as u16, stack: s.stack.push(s.pc), ..s },
            Effect::Continue,
        ),
{
    lemma_word_fields(2, a as int, b as int, c as int);
}

/// `00EE` pops the most recent return address into the program counter.
pub proof fn lemma_return(s: MachineState)
    requires
        s.stack.len() > 0,
    ensures
        ({
            let (t, e) = step(s, 0x00EE);
            &&& e == Effect::Continue
            &&& t.pc == s.stack[s.stack.len() - 1]
            &&& t.stack == s.stack.subrange(0, s.stack.len() - 1)
            &&& t == (MachineState { pc: t.pc, stack: t.stack, ..s })
        }),
{
}

/// `3XNN` skips the next instruction exactly when the bits of `VX` are `NN`, and changes
/// nothing else.
pub proof fn lemma_skip_if_equal_byte(s: MachineState, x: u8, nn: u8)
    requires
        well_shaped(s),
        x < 16,
    ensures
        step(s, word(3, x as int, nn as int / 16, nn as int % 16)) == (
            MachineState {
                pc: if (s.registers[x as int] - nn) % 256 == 0 {
                    (s.pc + 2) as u16
                } else {
                    s.pc
                },
                ..s
            },
            Effect::Continue,
        ),
{
    lemma_word_fields(3, x as int, nn as int / 16, nn as int % 16);
}

/// `4XNN` skips the next instruction exactly when the bits of `VX` are not `NN`, and
/// changes nothing else.
pub proof fn lemma_skip_if_not_equal_byte(s: MachineState, x: u8, nn: u8)
    requires
        well_shaped(s),
        x < 16,
    ensures
        step(s, word(4, x as int, nn as int / 16, nn as int % 16)) == (
            MachineState {
                pc: if (s.registers[x as int] - nn) % 256 != 0 {
                    (s.pc + 2) as u16
                } else {
                    s.pc
                },
                ..s
            },
            Effect::Continue,
        ),
{
    lemma_word_fields(4, x as int, nn as int / 16, nn as int % 16);
}

/// `5XY0` skips the next instruction exactly when `VX` equals `VY`.
pub proof fn lemma_skip_if_equal_reg(s: MachineState, x: u8, y: u8)
    requires
        well_shaped(s),
        x < 16,
        y < 16,
    ensures
        step(s, word(5, x as int, y as int, 0)) == (
            MachineState {
                pc: if s.registers[x as int] == s.registers[y as int] {
                    (s.pc + 2) as u16
                } else {
                    s.pc
                },
                ..s
            },
            Effect::Continue,
        ),
{
    lemma_word_fields(5, x as int, y as int, 0);
}

/// `9XY0` skips the next instruction exactly when `VX` differs from `VY`.
pub proof fn lemma_skip_if_not_equal_reg(s: MachineState, x: u8, y: u8)
    requires
        well_shaped(s),
        x < 16,
        y < 16,
    ensures
        step(s, word(9, x as int, y as int, 0)) == (
            MachineState {
                pc: if s.registers[x as int] != s.registers[y as int] {
                    (s.pc + 2) as u16
                } else {
                    s.pc
                },
                ..s
            },
            Effect::Continue,
        ),
{
    lemma_word_fields(9, x as int, y as int, 0);
}

/// `s` with register `x` set to `v`, and nothing else changed.
pub open spec fn only_register_changed(s: MachineState, t: MachineState, x: int) -> bool {
    t == (MachineState { registers: s.registers.update(x, t.registers[x]), ..s })
}

/// `s` with register `x` and then `VF` set, and nothing else changed.
pub open spec fn only_register_and_flag_changed(s: MachineState, t: MachineState, x: int) -> bool {
    t == (MachineState {
        registers: s.registers.update(x, t.registers[x]).update(15, t.registers[15]),
        ..s
    })
}

/// `6XNN` gives `VX` the bits `NN` and changes nothing else.
pub proof fn lemma_load_byte(s: MachineState, x: u8, nn: u8)
    requires
        well_shaped(s),
        x < 16,
    ensures
        ({
            let (t, e) = step(s, word(6, x as int, nn as int / 16, nn as int % 16));
            &&& e == Effect::Continue
            &&& (t.registers[x as int] - nn) % 256 == 0
            &&& only_register_changed(s, t, x as int)
        }),
{
    lemma_word_fields(6, x as int, nn as int / 16, nn as int % 16);
    let t = step(s, word(6, x as int, nn as int / 16, nn as int % 16)).0;
    assert(t.registers =~= s.registers.update(x as int, t.registers[x as int]));
}

/// `7XNN` adds `NN` to `VX` modulo 256, whatever the other registers hold, and changes
/// nothing else; in particular `VF` is neither read nor written.
pub proof fn lemma_add_byte(s: MachineState, x: u8, nn: u8)
    requires
        well_shaped(s),
        x < 16,
    ensures
        ({
            let (t, e) = step(s, word(7, x as int, nn as int / 16, nn as int % 16));
            &&& e == Effect::Continue
            &&& (t.registers[x as int] - s.registers[x as int] - nn) % 256 == 0
            &&& only_register_changed(s, t, x as int)
        }),
{
    lemma_word_fields(7, x as int, nn as int / 16, nn as int % 16);
    let t = step(s, word(7, x as int, nn as int / 16, nn as int % 16)).0;
    assert(t.registers =~= s.registers.update(x as int, t.registers[x as int]));
}

/// `8XY0`, `8XY1`, `8XY2` and `8XY3` set `VX` to `VY`, `VX | VY`, `VX & VY` and `VX ^ VY`,
/// and change nothing else.
pub proof fn lemma_logic(s: MachineState, x: u8, y: u8)
    requires
        well_shaped(s),
        x < 16,
        y < 16,
    ensures
        ({
            let vx = s.registers[x as int];
            let vy = s.registers[y as int];
            &&& step(s, word(8, x as int, y as int, 0)) == (
                MachineState { registers: s.registers.update(x as int, vy), ..s },
                Effect::Continue,
            )
            &&& step(s, word(8, x as int, y as int, 1)) == (
                MachineState { registers: s.registers.update(x as int, vx | vy), ..s },
                Effect::Continue,
            )
            &&& step(s, word(8, x as int, y as int, 2)) == (
                MachineState { registers: s.registers.update(x as int, vx & vy), ..s },
                Effect::Continue,
            )
            &&& step(s, word(8, x as int, y as int, 3)) == (
                MachineState { registers: s.registers.update(x as int, vx ^ vy), ..s },
                Effect::Continue,
            )
        }),
{
    lemma_word_fields(8, x as int, y as int, 0);
    lemma_word_fields(8, x as int, y as int, 1);
    lemma_word_fields(8, x as int, y as int, 2);
    lemma_word_fields(8, x as int, y as int, 3);
}

/// `8XY4` adds `VY` to `VX` modulo 256 and then sets `VF` to 1 when the signed sum left
/// the range -128..=127 and to 0 when not; nothing else changes.
pub proof fn lemma_add_registers(s: MachineState, x: u8, y: u8)
    requires
        well_shaped(s),
        x < 16,
        y < 16,
    ensures
        ({
            let vx = s.registers[x as int];
            let vy = s.registers[y as int];
            let (t, e) = step(s, word(8, x as int, y as int, 4));
            &&& e == Effect::Continue
            &&& t.registers[15] == (if vx + vy < -128 || vx + vy > 127 { 1i8 } else { 0i8 })
            &&& x != 15 ==> (t.registers[x as int] - vx - vy) % 256 == 0
            &&& only_register_and_flag_changed(s, t, x as int)
        }),
{
    lemma_word_fields(8, x as int, y as int, 4);
    let t = step(s, word(8, x as int, y as int, 4)).0;
    assert(t.registers =~= s.registers.update(x as int, t.registers[x as int]).update(
        15,
        t.registers[15],
    ));
}

/// `8XY5` sets `VX` to `VX - VY` modulo 256 and then `VF` to 1 when `VX >= VY` (no borrow)
/// and to 0 when not; nothing else changes.
pub proof fn lemma_sub_registers(s: MachineState, x: u8, y: u8)
    requires
        well_shaped(s),
        x < 16,
        y < 16,
    ensures
        ({
            let vx = s.registers[x as int];
            let vy = s.registers[y as int];
            let (t, e) = step(s, word(8, x as int, y as int, 5));
            &&& e == Effect::Continue
            &&& t.registers[15] == (if vx >= vy { 1i8 } else { 0i8 })
            &&& x != 15 ==> (t.registers[x as int] - (vx - vy)) % 256 == 0
            &&& only_register_and_flag_changed(s, t, x as int)
        }),
{
    lemma_word_fields(8, x as int, y as int, 5);
    let t = step(s, word(8, x as int, y as int, 5)).0;
    assert(t.registers =~= s.registers.update(x as int, t.registers[x as int]).update(
        15,
        t.registers[15],
    ));
}

/// `8XY7` sets `VX` to `VY - VX` modulo 256 and then `VF` to 1 when `VY >= VX` (no borrow)
/// and to 0 when not; nothing else changes.
pub proof fn lemma_reverse_sub_registers(s: MachineState, x: u8, y: u8)
    requires
        well_shaped(s),
        x < 16,
        y < 16,
    ensures
        ({
            let vx = s.registers[x as int];
            let vy = s.registers[y as int];
            let (t, e) = step(s, word(8, x as int, y as int, 7));
            &&& e == Effect::Continue
            &&& t.registers[15] == (if vy >= vx { 1i8 } else { 0i8 })
            &&& x != 15 ==> (t.registers[x as int] - (vy - vx)) % 256 == 0
            &&& only_register_and_flag_changed(s, t, x as int)
        }),
{
    lemma_word_fields(8, x as int, y as int, 7);
    let t = step(s, word(8, x as int, y as int, 7)).0;
    assert(t.registers =~= s.registers.update(x as int, t.registers[x as int]).update(
        15,
        t.registers[15],
    ));
}

/// `8XY6` halves `VX`, rounding down, and puts the bit shifted out in `VF`; nothing else
/// changes.
pub proof fn lemma_shift_right(s: MachineState, x: u8, y: u8)
    requires
        well_shaped(s),
        x < 16,
        y < 16,
    ensures
        ({
            let vx = s.registers[x as int];
            let (t, e) = step(s, word(8, x as int, y as int, 6));
            &&& e == Effect::Continue
            &&& t.registers[15] == (if vx % 2 == 1 { 1i8 } else { 0i8 })
            &&& x != 15 ==> 2 * t.registers[x as int] + t.registers[15] == vx
            &&& only_register_and_flag_changed(s, t, x as int)
        }),
{
    lemma_word_fields(8, x as int, y as int, 6);
    let t = step(s, word(8, x as int, y as int, 6)).0;
    assert(t.registers =~= s.registers.update(x as int, t.registers[x as int]).update(
        15,
        t.registers[15],
    ));
}

/// `8XYE` doubles `VX` modulo 256 and puts the bit shifted out, the old sign bit, in `VF`;
/// nothing else changes.
pub proof fn lemma_shift_left(s: MachineState, x: u8, y: u8)
    requires
        well_shaped(s),
        x < 16,
        y < 16,
    ensures
        ({
            let vx = s.registers[x as int];
            let (t, e) = step(s, word(8, x as int, y as int, 0xE));
            &&& e == Effect::Continue
            &&& t.registers[15] == (if vx < 0 { 1i8 } else { 0i8 })
            &&& x != 15 ==> (t.registers[x as int] - 2 * vx) % 256 == 0
            &&& only_register_and_flag_changed(s, t, x as int)
        }),
{
    lemma_word_fields(8, x as int, y as int, 0xE);
    let t = step(s, word(8, x as int, y as int, 0xE)).0;
    assert(t.registers =~= s.registers.update(x as int, t.registers[x as int]).update(
        15,
        t.registers[15],
    ));
}

/// One cycle reads the word at the program counter, high byte first, moves the program
/// counter past it, and then runs that word.
pub proof fn lemma_tick_is_fetch_then_step(s: MachineState)
    requires
        s.pc + 1 < s.memory.len(),
    ensures
        tick_result(s) == step(
            MachineState { pc: (s.pc + 2) as u16, ..s },
            (s.memory[s.pc as int] * 256 + s.memory[s.pc + 1]) as u16,
        ),
{
}

/// A call run by a cycle saves the address of the instruction after the call, so that the
/// matching return resumes right behind it.
pub proof fn lemma_tick_call_saves_next_address(s: MachineState)
    requires
        well_shaped(s),
        s.pc + 1 < s.memory.len(),
        s.memory[s.pc as int] / 16 == 2,
    ensures
        tick_result(s).0.stack == s.stack.push((s.pc + 2) as u16),
        step(tick_result(s).0, 0x00EE).0.pc == s.pc + 2,
        step(tick_result(s).0, 0x00EE).0.stack == s.stack,
{
    let b0 = s.memory[s.pc as int];
    let b1 = s.memory[s.pc + 1];
    let w = (b0 * 256 + b1) as u16;
    assert(w / 0x1000 == 2);
    let t = tick_result(s).0;
    assert(t.stack.drop_last() =~= s.stack);
}

/// Words that name no instruction: those starting with a nibble from A to F, those
/// starting with 0 other than `00E0` and `00EE`, `5XYN` and `9XYN` with `N` not 0, and
/// `8XYN` with `N` one of 8, 9, A, B, C, D, F. They change nothing and are reported.
pub proof fn lemma_unknown_words(s: MachineState, a: u8, b: u8, c: u8, d: u8)
    requires
        a < 16,
        b < 16,
        c < 16,
        d < 16,
        a >= 0xA || (a == 0 && !(b == 0 && c == 0xE && (d == 0 || d == 0xE))) || ((a == 5
            || a == 9) && d != 0) || (a == 8 && (8 <= d <= 0xD || d == 0xF)),
    ensures
        step(s, word(a as int, b as int, c as int, d as int)) == (s, Effect::InvalidOpcode),
{
    lemma_word_fields(a as int, b as int, c as int, d as int);
}

/// Fetching reads the byte at the program counter as the high byte and the next one as
/// the low byte, and moves the program counter on by two.
pub proof fn lemma_fetch(s: MachineState)
    ensures
        fetched_word(s) as int == s.memory[s.pc as int] * 256 + s.memory[s.pc + 1],
        after_fetch(s) == (MachineState { pc: (s.pc + 2) as u16, ..s }),
{
}

/// A return can run exactly when the stack is not empty; a skip can run unless it would
/// move the program counter past 0xFFFF; every other word can always run.
pub proof fn lemma_when_a_word_can_run(s: MachineState, a: u8, b: u8, c: u8, d: u8)
    requires
        well_shaped(s),
        a < 16,
        b < 16,
        c < 16,
        d < 16,
    ensures
        ({
            let w = word(a as int, b as int, c as int, d as int);
            &&& w == 0x00EE ==> (can_step(s, w) <==> s.stack.len() > 0)
            &&& s.pc + 2 <= 0xFFFF && w != 0x00EE ==> can_step(s, w)
            &&& !(w == 0x00EE || a == 3 || a == 4 || a == 5 || a == 9) ==> can_step(s, w)
        }),
{
    lemma_word_fields(a as int, b as int, c as int, d as int);
}

/// A cycle can run exactly when the word at the program counter lies inside memory and is
/// not a return on an empty stack.
pub proof fn lemma_when_a_cycle_can_run(s: MachineState)
    requires
        well_shaped(s),
    ensures
        can_tick(s) <==> (s.pc + 1 < 4096 && ((s.memory[s.pc as int] == 0 && s.memory[s.pc
            + 1] == 0xEE) ==> s.stack.len() > 0)),
{
    if s.pc + 1 < 4096 {
        let w = fetched_word(s);
        assert(w == 0x00EE <==> (s.memory[s.pc as int] == 0 && s.memory[s.pc + 1] == 0xEE));
    }
}

/// Loading a program writes byte `i` of it at address `0x200 + i` and leaves every other
/// byte of memory as it was.
pub proof fn lemma_load(memory: Seq<u8>, rom: Seq<u8>)
    ensures
        loaded_memory(memory, rom).len() == memory.len(),
        forall|i: int|
            0 <= i < rom.len() && 0x200 + i < memory.len() ==> #[trigger] loaded_memory(
                memory,
                rom,
            )[0x200 + i] == rom[i],
        forall|k: int|
            0 <= k < memory.len() && !(0x200 <= k < 0x200 + rom.len()) ==> #[trigger] loaded_memory(
                memory,
                rom,
            )[k] == memory[k],
{
}

/// In a frame a lit pixel is a full block, an unlit one a space, and each of the 32 rows
/// of 64 pixels ends in a line break.
pub proof fn lemma_frame(text: Seq<char>, display: Seq<bool>)
    requires
        is_frame_of(text, display),
    ensures
        text.len() == 32 * 65,
        forall|r: int, c: int|
            0 <= r < 32 && 0 <= c < 64 ==> #[trigger] text[r * 65 + c] == (if display[r * 64
                + c] {
                '\u{2588}'
            } else {
                ' '
            }),
        forall|r: int| 0 <= r < 32 ==> #[trigger] text[r * 65 + 64] == '\n',
{
    assert forall|r: int, c: int| 0 <= r < 32 && 0 <= c < 64 implies #[trigger] text[r * 65
        + c] == (if display[r * 64 + c] {
        '\u{2588}'
    } else {
        ' '
    }) by {
        assert(text[r * 65 + c] == pixel_char(display[r * 64 + c]));
    }
}

} // verus!

use vstd::prelude::*;

verus! {

/// Height of the display, in pixels.
pub const SCREEN_HEIGHT: usize = 32;
/// Width of the display, in pixels.
pub const SCREEN_WIDTH: usize = 64;
/// Number of pixels of the display.
pub const DISPLAY_SIZE: usize = 2048;
/// Bytes of addressable memory.
pub const RAM_SIZE: usize = 4096;
/// Number of registers `V0` to `VF`.
pub const NUM_REG: usize = 16;
/// Room reserved for the call stack when a machine is built.
pub const STACK_SIZE: usize = 16;
/// Bits in a byte.
pub const BYTE: usize = 8;
/// Index of `VF`, the register that arithmetic and shift instructions use as a flag.
pub const FLAG_REGISTER: usize = 0xF;
/// Address at which programs are loaded and execution begins.
pub const PROGRAM_START: u16 = 0x200;
/// Largest program that fits between [`PROGRAM_START`] and the end of memory.
pub const MAX_PROGRAM_SIZE: usize = 3584;

/// What the host has to do after an instruction has run.
#[derive(PartialEq, Eq, Structural, Debug, Clone, Copy)]
pub enum Effect {
    /// Nothing.
    Continue,
    /// The display changed and is to be drawn again.
    Redraw,
    /// The instruction is not one the machine knows; the host reports it.
    InvalidOpcode,
}

/// The mathematical state of a [`crate::machine::Chip8`].
pub struct MachineState {
    pub memory: Seq<u8>,
    pub i_reg: u16,
    pub pc: u16,
    pub stack: Seq<u16>,
    pub registers: Seq<i8>,
    pub display: Seq<bool>,
}

/// The sizes that every state of a machine has.
pub open spec fn well_shaped(s: MachineState) -> bool {
    &&& s.memory.len() == RAM_SIZE
    &&& s.registers.len() == NUM_REG
    &&& s.display.len() == DISPLAY_SIZE
}

/// A decoded instruction. `x` and `y` name registers, `byte` is the immediate operand
/// read as a signed byte, `addr` is the target that [`jump_target`] computes.
pub enum Instruction {
    /// `00E0`
    ClearScreen,
    /// `1NNN`
    Jump { addr: u16 },
    /// `2NNN`
    Call { addr: u16 },
    /// `00EE`
    Return,
    /// `3XNN`
    SkipIfEqualByte { x: u8, byte: i8 },
    /// `4XNN`
    SkipIfNotEqualByte { x: u8, byte: i8 },
    /// `5XY0`
    SkipIfEqualReg { x: u8, y: u8 },
    /// `9XY0`
    SkipIfNotEqualReg { x: u8, y: u8 },
    /// `6XNN`
    LoadByte { x: u8, byte: i8 },
    /// `7XNN`
    AddByte { x: u8, byte: i8 },
    /// `8XY0`
    Move { x: u8, y: u8 },
    /// `8XY1`
    Or { x: u8, y: u8 },
    /// `8XY2`
    And { x: u8, y: u8 },
    /// `8XY3`
    Xor { x: u8, y: u8 },
    /// `8XY4`
    AddReg { x: u8, y: u8 },
    /// `8XY5`
    SubReg { x: u8, y: u8 },
    /// `8XY7`
    SubRevReg { x: u8, y: u8 },
    /// `8XY6`
    ShiftRight { x: u8 },
    /// `8XYE`
    ShiftLeft { x: u8 },
    /// anything else
    Invalid,
}

/// The most significant nibble of an instruction word.
pub open spec fn nibble1(instr: u16) -> u8 {
    (instr / 0x1000) as u8
}

/// The second nibble of an instruction word.
pub open spec fn nibble2(instr: u16) -> u8 {
    (instr / 0x100 % 0x10) as u8
}

/// The third nibble of an instruction word.
pub open spec fn nibble3(instr: u16) -> u8 {
    (instr / 0x10 % 0x10) as u8
}

/// The least significant nibble of an instruction word.
pub open spec fn nibble4(instr: u16) -> u8 {
    (instr % 0x10) as u8
}

/// The target of a jump or call `1NNN`/`2NNN`: the third nibble becomes the second nibble
/// of the address, and the second and fourth nibbles are or-ed into its low nibble (the
/// shift that was to move the second nibble up by a byte wraps around to no shift at all).
pub open spec fn jump_target(instr: u16) -> u16 {
    (nibble3(instr) * 0x10 + (nibble2(instr) | nibble4(instr))) as u16
}

/// A byte `b` (`0 <= b < 256`) read as a two's complement signed byte.
pub open spec fn signed_byte(b: int) -> i8 {
    if b < 0x80 {
        b as i8
    } else {
        (b - 0x100) as i8
    }
}

/// The low byte of an instruction word, read as a signed byte.
pub open spec fn byte_of(instr: u16) -> i8 {
    signed_byte(instr as int % 0x100)
}

/// `v` brought into the range of `i8` modulo 256; `v` is a sum or difference of two `i8`.
pub open spec fn wrap_i8(v: int) -> i8 {
    if v > i8::MAX {
        (v - 0x100) as i8
    } else if v < i8::MIN {
        (v + 0x100) as i8
    } else {
        v as i8
    }
}

/// Decoding an instruction word, in the order in which the machine tries the patterns.
pub open spec fn decode(instr: u16) -> Instruction {
    let n1 = nibble1(instr);
    let x = nibble2(instr);
    let y = nibble3(instr);
    let n4 = nibble4(instr);
    if instr == 0x00E0 {
        Instruction::ClearScreen
    } else if n1 == 1 {
        Instruction::Jump { addr: jump_target(instr) }
    } else if n1 == 2 {
        Instruction::Call { addr: jump_target(instr) }
    } else if instr == 0x00EE {
        Instruction::Return
    } else if n1 == 3 {
        Instruction::SkipIfEqualByte { x, byte: byte_of(instr) }
    } else if n1 == 4 {
        Instruction::SkipIfNotEqualByte { x, byte: byte_of(instr) }
    } else if n1 == 5 && n4 == 0 {
        Instruction::SkipIfEqualReg { x, y }
    } else if n1 == 9 && n4 == 0 {
        Instruction::SkipIfNotEqualReg { x, y }
    } else if n1 == 6 {
        Instruction::LoadByte { x, byte: byte_of(instr) }
    } else if n1 == 7 {
        Instruction::AddByte { x, byte: byte_of(instr) }
    } else if n1 == 8 && n4 == 0 {
        Instruction::Move { x, y }
    } else if n1 == 8 && n4 == 1 {
        Instruction::Or { x, y }
    } else if n1 == 8 && n4 == 2 {
        Instruction::And { x, y }
    } else if n1 == 8 && n4 == 3 {
        Instruction::Xor { x, y }
    } else if n1 == 8 && n4 == 4 {
        Instruction::AddReg { x, y }
    } else if n1 == 8 && n4 == 5 {
        Instruction::SubReg { x, y }
    } else if n1 == 8 && n4 == 7 {
        Instruction::SubRevReg { x, y }
    } else if n1 == 8 && n4 == 6 {
        Instruction::ShiftRight { x }
    } else if n1 == 8 && n4 == 0xE {
        Instruction::ShiftLeft { x }
    } else {
        Instruction::Invalid
    }
}

/// The value of register `x`.
pub open spec fn reg(s: MachineState, x: u8) -> i8 {
    s.registers[x as int]
}

/// `s` with register `x` set to `v`.
pub open spec fn with_reg(s: MachineState, x: u8, v: i8) -> MachineState {
    MachineState { registers: s.registers.update(x as int, v), ..s }
}

/// `s` with register `x` set to `v`, and then `VF` set to 1 if `flag` holds and to 0 if not.
pub open spec fn with_reg_and_flag(s: MachineState, x: u8, v: i8, flag: bool) -> MachineState {
    MachineState {
        registers: s.registers.update(x as int, v).update(FLAG_REGISTER as int, if flag { 1i8 } else { 0i8 }),
        ..s
    }
}

/// `s` with the next instruction skipped when `cond` holds.
pub open spec fn skip_when(s: MachineState, cond: bool) -> MachineState {
    if cond {
        MachineState { pc: (s.pc + 2) as u16, ..s }
    } else {
        s
    }
}

/// The flag that `8XY4` sets: the signed sum of the two operands leaves the range of a byte.
pub open spec fn add_overflows(a: i8, b: i8) -> bool {
    a + b < i8::MIN || a + b > i8::MAX
}

/// The bit that a shift left by one pushes out of a signed byte: its sign bit.
pub open spec fn sign_bit(v: i8) -> bool {
    v < 0
}

/// Whether a conditional skip of `ins` is taken in state `s`.
pub open spec fn skip_taken(s: MachineState, ins: Instruction) -> bool {
    match ins {
        Instruction::SkipIfEqualByte { x, byte } => reg(s, x) == byte,
        Instruction::SkipIfNotEqualByte { x, byte } => reg(s, x) != byte,
        Instruction::SkipIfEqualReg { x, y } => reg(s, x) == reg(s, y),
        Instruction::SkipIfNotEqualReg { x, y } => reg(s, x) != reg(s, y),
        _ => false,
    }
}

/// The inputs on which an instruction runs without a fault: a return needs a
/// non-empty stack, and a skip needs room in the program counter.
pub open spec fn can_step(s: MachineState, instr: u16) -> bool {
    &&& (decode(instr) is Return ==> s.stack.len() > 0)
    &&& (skip_taken(s, decode(instr)) ==> s.pc + 2 <= u16::MAX)
}

/// The state after running `instr` in `s`, and what the host then has to do.
pub open spec fn step(s: MachineState, instr: u16) -> (MachineState, Effect) {
    let ins = decode(instr);
    match ins {
        Instruction::ClearScreen => (
            MachineState { display: Seq::new(DISPLAY_SIZE as nat, |i: int| false), ..s },
            Effect::Redraw,
        ),
        Instruction::Jump { addr } => (MachineState { pc: addr, ..s }, Effect::Continue),
        Instruction::Call { addr } => (
            MachineState { stack: s.stack.push(s.pc), pc: addr, ..s },
            Effect::Continue,
        ),
        Instruction::Return => (
            MachineState { pc: s.stack.last(), stack: s.stack.drop_last(), ..s },
            Effect::Continue,
        ),
        Instruction::SkipIfEqualByte { .. } | Instruction::SkipIfNotEqualByte { .. }
        | Instruction::SkipIfEqualReg { .. } | Instruction::SkipIfNotEqualReg { .. } => (
            skip_when(s, skip_taken(s, ins)),
            Effect::Continue,
        ),
        Instruction::LoadByte { x, byte } => (with_reg(s, x, byte), Effect::Continue),
        Instruction::AddByte { x, byte } => (
            with_reg(s, x, wrap_i8(reg(s, x) + byte)),
            Effect::Continue,
        ),
        Instruction::Move { x, y } => (with_reg(s, x, reg(s, y)), Effect::Continue),
        Instruction::Or { x, y } => (with_reg(s, x, reg(s, x) | reg(s, y)), Effect::Continue),
        Instruction::And { x, y } => (with_reg(s, x, reg(s, x) & reg(s, y)), Effect::Continue),
        Instruction::Xor { x, y } => (with_reg(s, x, reg(s, x) ^ reg(s, y)), Effect::Continue),
        Instruction::AddReg { x, y } => {
            let sum = wrap_i8(reg(s, x) + reg(s, y));
            (with_reg_and_flag(s, x, sum, add_overflows(reg(s, x), reg(s, y))), Effect::Continue)
        },
        Instruction::SubReg { x, y } => (
            with_reg_and_flag(
                s,
                x,
                wrap_i8(reg(s, x) - reg(s, y)),
                reg(s, x) >= reg(s, y),
            ),
            Effect::Continue,
        ),
        Instruction::SubRevReg { x, y } => (
            with_reg_and_flag(
                s,
                x,
                wrap_i8(reg(s, y) - reg(s, x)),
                reg(s, y) >= reg(s, x),
            ),
            Effect::Continue,
        ),
        Instruction::ShiftRight { x } => (
            with_reg_and_flag(s, x, (reg(s, x) as int / 2) as i8, reg(s, x) as int % 2 == 1),
            Effect::Continue,
        ),
        Instruction::ShiftLeft { x } => (
            with_reg_and_flag(s, x, wrap_i8(2 * reg(s, x)), sign_bit(reg(s, x))),
            Effect::Continue,
        ),
        Instruction::Invalid => (s, Effect::InvalidOpcode),
    }
}

/// The instruction word at the program counter: the byte at `pc` is its high byte.
pub open spec fn fetched_word(s: MachineState) -> u16 {
    (s.memory[s.pc as int] as int * 0x100 + s.memory[s.pc + 1] as int) as u16
}

/// `s` after the instruction at the program counter has been read.
pub open spec fn after_fetch(s: MachineState) -> MachineState {
    MachineState { pc: (s.pc + 2) as u16, ..s }
}

/// Whether the instruction at the program counter can be read.
pub open spec fn can_fetch(s: MachineState) -> bool {
    s.pc + 1 < RAM_SIZE
}

/// Whether one fetch-and-execute cycle runs without a fault.
pub open spec fn can_tick(s: MachineState) -> bool {
    can_fetch(s) && can_step(after_fetch(s), fetched_word(s))
}

/// One fetch-and-execute cycle.
pub open spec fn tick_result(s: MachineState) -> (MachineState, Effect) {
    step(after_fetch(s), fetched_word(s))
}

} // verus!

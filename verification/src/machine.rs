use vstd::prelude::*;

use crate::model::{
    after_fetch, can_fetch, can_step, can_tick, fetched_word, nibble1, nibble2, nibble3,
    nibble4, signed_byte, step, tick_result, well_shaped, wrap_i8, Effect, MachineState, BYTE,
    DISPLAY_SIZE, FLAG_REGISTER, MAX_PROGRAM_SIZE, NUM_REG, PROGRAM_START, RAM_SIZE, SCREEN_HEIGHT,
    SCREEN_WIDTH, STACK_SIZE,
};

verus! {

/// A CHIP-8 interpreter: memory, the index register, the program counter, the call
/// stack, sixteen signed registers and a monochrome display.
pub struct Chip8 {
    memory: [u8; RAM_SIZE],
    i_reg: u16,
    pc: u16,
    stack: Vec<u16>,
    registers: [i8; NUM_REG],
    display: [bool; DISPLAY_SIZE],
}

impl View for Chip8 {
    type V = MachineState;

    closed spec fn view(&self) -> MachineState {
        MachineState {
            memory: self.memory@,
            i_reg: self.i_reg,
            pc: self.pc,
            stack: self.stack@,
            registers: self.registers@,
            display: self.display@,
        }
    }
}

/// The state of a machine before a program is loaded: memory, registers, stack and
/// display clear, execution to start at [`PROGRAM_START`].
pub open spec fn initial_state() -> MachineState {
    MachineState {
        memory: Seq::new(RAM_SIZE as nat, |i: int| 0u8),
        i_reg: 0,
        pc: PROGRAM_START,
        stack: Seq::empty(),
        registers: Seq::new(NUM_REG as nat, |i: int| 0i8),
        display: Seq::new(DISPLAY_SIZE as nat, |i: int| false),
    }
}

/// Memory after a program has been copied to [`PROGRAM_START`].
pub open spec fn loaded_memory(memory: Seq<u8>, rom: Seq<u8>) -> Seq<u8> {
    Seq::new(
        memory.len(),
        |i: int|
            if PROGRAM_START <= i < PROGRAM_START + rom.len() {
                rom[i - PROGRAM_START]
            } else {
                memory[i]
            },
    )
}

impl Chip8 {
    /// Every state of a machine has the sizes of [`well_shaped`].
    pub proof fn lemma_well_shaped(&self)
        ensures
            well_shaped(self@),
    {
    }

    /// A machine with nothing loaded.
    pub fn new() -> (machine: Self)
        ensures
            machine@ == initial_state(),
            machine@.pc == 0x200,
            machine@.i_reg == 0,
            machine@.stack.len() == 0,
            forall|i: int| 0 <= i < 4096 ==> machine@.memory[i] == 0,
            forall|i: int| 0 <= i < 16 ==> machine@.registers[i] == 0,
            forall|i: int| 0 <= i < 2048 ==> !machine@.display[i],
    {
        let machine = Chip8 {
            memory: [0u8; 4096],
            pc: 0x200,
            stack: Vec::with_capacity(STACK_SIZE),
            registers: [0i8; 16],
            i_reg: 0,
            display: [false; 2048],
        };
        assert(machine@.memory =~= initial_state().memory);
        assert(machine@.registers =~= initial_state().registers);
        assert(machine@.display =~= initial_state().display);
        assert(machine@.stack =~= initial_state().stack);
        machine
    }

    /// The signed byte whose high nibble is `hi` and whose low nibble is `lo`.
    pub fn combine_u8(&self, hi: u8, lo: u8) -> (value: i8)
        ensures
            value == ((hi << 4u8) | lo) as i8,
            hi < 16 && lo < 16 ==> value == signed_byte(hi * 16 + lo),
    {
        proof {
            if hi < 16 && lo < 16 {
                assert(((hi << 4u8) | lo) as i8 as int == if hi * 16 + lo < 0x80 {
                    hi * 16 + lo
                } else {
                    hi * 16 + lo - 0x100
                }) by (bit_vector)
                    requires
                        hi < 16,
                        lo < 16,
                ;
            }
        }
        ((hi << 4) | lo) as i8
    }

    /// The address formed from three nibbles. The high nibble is shifted by the width of a
    /// byte within a byte, and that shift count wraps around to zero, so `hi` is or-ed into
    /// the low nibble together with `lo`, while `mid` becomes the second nibble.
    pub fn combine_u16(&self, hi: u8, mid: u8, lo: u8) -> (addr: u16)
        ensures
            addr == (hi | (mid << 4u8) | lo) as u16,
            hi < 16 && mid < 16 && lo < 16 ==> addr == mid * 0x10 + (hi | lo),
    {
        proof {
            assert(hi << (8u32 % 8u32) == hi) by (bit_vector);
            assert(((hi as u16) | ((mid << 4u8) as u16) | (lo as u16)) == (hi | (mid << 4u8) | lo) as u16)
                by (bit_vector);
            if hi < 16 && mid < 16 && lo < 16 {
                assert((hi | (mid << 4u8) | lo) as u16 == mid * 0x10 + (hi | lo)) by (bit_vector)
                    requires
                        hi < 16,
                        mid < 16,
                        lo < 16,
                ;
            }
        }
        hi.wrapping_shl(8) as u16 | (mid << 4) as u16 | lo as u16
    }

    /// Reads the instruction word at the program counter, high byte first, and moves the
    /// program counter past it.
    pub fn fetch(&mut self) -> (instr: u16)
        requires
            can_fetch(old(self)@),
        ensures
            instr == fetched_word(old(self)@),
            final(self)@ == after_fetch(old(self)@),
    {
        let instr_hi = self.memory[self.pc as usize];
        let instr_lo = self.memory[self.pc as usize + 1];
        let instr = (instr_hi as u16) << BYTE | instr_lo as u16;
        proof {
            assert((instr_hi as u16) << 8usize | instr_lo as u16 == instr_hi * 0x100 + instr_lo) by (bit_vector);
        }
        self.pc += 2;
        instr
    }

    /// Decodes `instr` and runs it: the new state and the host's part are those of [`step`].
    pub fn execute(&mut self, instr: u16) -> (effect: Effect)
        requires
            can_step(old(self)@, instr),
        ensures
            (final(self)@, effect) == step(old(self)@, instr),
    {
        let nibble1: u8 = ((instr & 0xF000) >> 12) as u8;
        let nibble2: u8 = ((instr & 0xF00) >> 8) as u8;
        let nibble3: u8 = ((instr & 0xF0) >> 4) as u8;
        let nibble4: u8 = (instr & 0xF) as u8;
        proof {
            lemma_nibbles(instr);
        }
        let ghost s = self@;
        match (nibble1, nibble2, nibble3, nibble4) {
            (0x0, 0x0, 0xE, 0x0) => {
                self.display = [false; 2048];
                assert(self@.display =~= step(s, instr).0.display);
                Effect::Redraw
            },
            (0x1, _, _, _) => {
                let addr = self.combine_u16(nibble2, nibble3, nibble4);
                self.pc = addr;
                Effect::Continue
            },
            (0x2, _, _, _) => {
                let addr = self.combine_u16(nibble2, nibble3, nibble4);
                self.stack.push(self.pc);
                self.pc = addr;
                Effect::Continue
            },
            (0x0, 0x0, 0xE, 0xE) => {
                match self.stack.pop() {
                    Some(ret) => {
                        self.pc = ret;
                    },
                    None => {},
                }
                Effect::Continue
            },
            (0x3, _, _, _) => {
                let regx = self.registers[nibble2 as usize];
                let value = self.combine_u8(nibble3, nibble4);
                if regx == value {
                    self.pc += 2;
                }
                Effect::Continue
            },
            (0x4, _, _, _) => {
                let regx = self.registers[nibble2 as usize];
                let value = self.combine_u8(nibble3, nibble4);
                if regx != value {
                    self.pc += 2;
                }
                Effect::Continue
            },
            (0x5, _, _, 0) => {
                let regx = self.registers[nibble2 as usize];
                let regy = self.registers[nibble3 as usize];
                if regx == regy {
                    self.pc += 2;
                }
                Effect::Continue
            },
            (0x9, _, _, 0) => {
                let regx = self.registers[nibble2 as usize];
                let regy = self.registers[nibble3 as usize];
                if regx != regy {
                    self.pc += 2;
                }
                Effect::Continue
            },
            (0x6, _, _, _) => {
                let value = self.combine_u8(nibble3, nibble4);
                self.registers[nibble2 as usize] = value;
                Effect::Continue
            },
            (0x7, _, _, _) => {
                let value = self.combine_u8(nibble3, nibble4);
                let regx = self.registers[nibble2 as usize];
                self.registers[nibble2 as usize] = regx.wrapping_add(value);
                Effect::Continue
            },
            (0x8, _, _, 0) => {
                self.registers[nibble2 as usize] = self.registers[nibble3 as usize];
                Effect::Continue
            },
            (0x8, _, _, 1) => {
                self.registers[nibble2 as usize] = self.registers[nibble2 as usize]
                    | self.registers[nibble3 as usize];
                Effect::Continue
            },
            (0x8, _, _, 2) => {
                self.registers[nibble2 as usize] = self.registers[nibble2 as usize]
                    & self.registers[nibble3 as usize];
                Effect::Continue
            },
            (0x8, _, _, 3) => {
                self.registers[nibble2 as usize] = self.registers[nibble2 as usize]
                    ^ self.registers[nibble3 as usize];
                Effect::Continue
            },
            (0x8, _, _, 4) => {
                let regx = self.registers[nibble2 as usize];
                let regy = self.registers[nibble3 as usize];
                let result = regx.wrapping_add(regy);
                self.registers[nibble2 as usize] = result;
                if (regx < 0 && regy < 0 && result >= 0) || (regx > 0 && regy > 0 && result < 0) {
                    self.registers[FLAG_REGISTER] = 1;
                } else {
                    self.registers[FLAG_REGISTER] = 0;
                }
                Effect::Continue
            },
            (0x8, _, _, 5) => {
                let regx = self.registers[nibble2 as usize];
                let regy = self.registers[nibble3 as usize];
                self.registers[nibble2 as usize] = regx.wrapping_sub(regy);
                if regx >= regy {
                    self.registers[FLAG_REGISTER] = 1;
                } else {
                    self.registers[FLAG_REGISTER] = 0;
                }
                Effect::Continue
            },
            (0x8, _, _, 7) => {
                let regx = self.registers[nibble2 as usize];
                let regy = self.registers[nibble3 as usize];
                self.registers[nibble2 as usize] = regy.wrapping_sub(regx);
                if regy >= regx {
                    self.registers[FLAG_REGISTER] = 1;
                } else {
                    self.registers[FLAG_REGISTER] = 0;
                }
                Effect::Continue
            },
            (0x8, _, _, 6) => {
                let regx = self.registers[nibble2 as usize];
                let rightmost_bit = regx & 0x1;
                proof {
                    lemma_shift_right(regx);
                }
                self.registers[nibble2 as usize] = regx >> 1;
                if rightmost_bit == 1 {
                    self.registers[FLAG_REGISTER] = 1;
                } else {
                    self.registers[FLAG_REGISTER] = 0;
                }
                Effect::Continue
            },
            (0x8, _, _, 0xE) => {
                let regx = self.registers[nibble2 as usize];
                let leftmost_bit = (regx as u8) & 0x80;
                proof {
                    lemma_shift_left(regx);
                }
                self.registers[nibble2 as usize] = regx << 1;
                if leftmost_bit == 0x80 {
                    self.registers[FLAG_REGISTER] = 1;
                } else {
                    self.registers[FLAG_REGISTER] = 0;
                }
                Effect::Continue
            },
            (_, _, _, _) => Effect::InvalidOpcode,
        }
    }
}

impl Chip8 {
    /// One cycle: reads the instruction at the program counter, then runs it.
    pub fn tick(&mut self) -> (effect: Effect)
        requires
            can_tick(old(self)@),
        ensures
            (final(self)@, effect) == tick_result(old(self)@),
    {
        let instr = self.fetch();
        self.execute(instr)
    }

    /// Whether `execute(instr)` runs without a fault in the current state.
    pub fn can_execute(&self, instr: u16) -> (ok: bool)
        ensures
            ok == can_step(self@, instr),
    {
        proof {
            lemma_nibbles(instr);
        }
        if instr == 0x00EE {
            return self.stack.len() > 0;
        }
        let nibble1: u8 = ((instr & 0xF000) >> 12) as u8;
        let nibble2: u8 = ((instr & 0xF00) >> 8) as u8;
        let nibble3: u8 = ((instr & 0xF0) >> 4) as u8;
        let nibble4: u8 = (instr & 0xF) as u8;
        let x = nibble2 as usize;
        let y = nibble3 as usize;
        let byte = self.combine_u8(nibble3, nibble4);
        let taken = if nibble1 == 3 {
            self.registers[x] == byte
        } else if nibble1 == 4 {
            self.registers[x] != byte
        } else if nibble1 == 5 && nibble4 == 0 {
            self.registers[x] == self.registers[y]
        } else if nibble1 == 9 && nibble4 == 0 {
            self.registers[x] != self.registers[y]
        } else {
            false
        };
        !taken || self.pc <= u16::MAX - 2
    }

    /// Whether `tick` runs without a fault in the current state.
    pub fn can_tick(&self) -> (ok: bool)
        ensures
            ok == can_tick(self@),
    {
        if self.pc as usize + 1 >= RAM_SIZE {
            return false;
        }
        let instr_hi = self.memory[self.pc as usize];
        let instr_lo = self.memory[self.pc as usize + 1];
        let instr = (instr_hi as u16) << BYTE | instr_lo as u16;
        proof {
            assert((instr_hi as u16) << 8usize | instr_lo as u16 == instr_hi * 0x100 + instr_lo) by (bit_vector);
            lemma_nibbles(instr);
        }
        if instr == 0x00EE {
            self.stack.len() > 0
        } else {
            true
        }
    }

    /// Copies a program into memory from [`PROGRAM_START`] on.
    pub fn load_rom(&mut self, rom: &[u8])
        requires
            rom@.len() <= MAX_PROGRAM_SIZE,
        ensures
            final(self)@ == (MachineState {
                memory: loaded_memory(old(self)@.memory, rom@),
                ..old(self)@
            }),
    {
        let ghost old_memory = self@.memory;
        let mut i: usize = 0;
        while i < rom.len()
            invariant
                i <= rom@.len() <= MAX_PROGRAM_SIZE,
                self@ == (MachineState { memory: self@.memory, ..old(self)@ }),
                forall|k: int|
                    0 <= k < RAM_SIZE ==> #[trigger] self@.memory[k] == if PROGRAM_START <= k
                        < PROGRAM_START + i {
                        rom@[k - PROGRAM_START]
                    } else {
                        old_memory[k]
                    },
            decreases rom@.len() - i,
        {
            self.memory[0x200 + i] = rom[i];
            i += 1;
        }
        assert(self@.memory =~= loaded_memory(old_memory, rom@));
    }
}

/// The character that shows a pixel: a full block when it is lit, a space when not.
pub open spec fn pixel_char(lit: bool) -> char {
    if lit {
        '\u{2588}'
    } else {
        ' '
    }
}

/// Characters in one line of a frame: one per pixel, then a line break.
pub const LINE_LENGTH: usize = 65;

/// Characters in a whole frame.
pub const FRAME_LENGTH: usize = 2080;

/// The text of a frame: row after row of the display, each row one character per pixel
/// followed by a line break.
pub open spec fn is_frame_of(text: Seq<char>, display: Seq<bool>) -> bool {
    &&& text.len() == FRAME_LENGTH
    &&& forall|r: int, c: int|
        0 <= r < SCREEN_HEIGHT && 0 <= c < SCREEN_WIDTH ==> #[trigger] text[r * LINE_LENGTH + c]
            == pixel_char(display[r * SCREEN_WIDTH + c])
    &&& forall|r: int| 0 <= r < SCREEN_HEIGHT ==> #[trigger] text[r * LINE_LENGTH + 64] == '\n'
}

impl Chip8 {
    /// The display as text, to be drawn by the host from the top left corner of the screen.
    pub fn frame(&self) -> (text: Vec<char>)
        ensures
            is_frame_of(text@, self@.display),
    {
        let mut text: Vec<char> = Vec::new();
        let mut row: usize = 0;
        while row < SCREEN_HEIGHT
            invariant
                row <= SCREEN_HEIGHT,
                text@.len() == row * LINE_LENGTH,
                forall|r: int, c: int|
                    0 <= r < row && 0 <= c < SCREEN_WIDTH ==> #[trigger] text@[r * LINE_LENGTH + c]
                        == pixel_char(self@.display[r * SCREEN_WIDTH + c]),
                forall|r: int| 0 <= r < row ==> #[trigger] text@[r * LINE_LENGTH + 64] == '\n',
            decreases SCREEN_HEIGHT - row,
        {
            let mut col: usize = 0;
            while col < SCREEN_WIDTH
                invariant
                    row < SCREEN_HEIGHT,
                    col <= SCREEN_WIDTH,
                    text@.len() == row * LINE_LENGTH + col,
                    forall|r: int, c: int|
                        0 <= r < row && 0 <= c < SCREEN_WIDTH ==> #[trigger] text@[r * LINE_LENGTH
                            + c] == pixel_char(self@.display[r * SCREEN_WIDTH + c]),
                    forall|c: int|
                        0 <= c < col ==> #[trigger] text@[row * LINE_LENGTH + c] == pixel_char(
                            self@.display[row * SCREEN_WIDTH + c],
                        ),
                    forall|r: int| 0 <= r < row ==> #[trigger] text@[r * LINE_LENGTH + 64] == '\n',
                decreases SCREEN_WIDTH - col,
            {
                if self.display[row * SCREEN_WIDTH + col] {
                    text.push('\u{2588}');
                } else {
                    text.push(' ');
                }
                col += 1;
            }
            text.push('\n');
            row += 1;
        }
        text
    }
}

/// Instructions run per second.
pub const INSTRUCTIONS_PER_SECOND: u64 = 700;

/// Nanoseconds between two instructions.
pub const NANOS_PER_INSTRUCTION: u64 = 1_000_000_000 / INSTRUCTIONS_PER_SECOND;

/// Whether enough time has passed since the last instruction for the next one to run.
pub fn tick_due(elapsed_nanos: u128) -> (due: bool)
    ensures
        due == (elapsed_nanos >= NANOS_PER_INSTRUCTION),
{
    elapsed_nanos >= NANOS_PER_INSTRUCTION as u128
}

impl Chip8 {
    /// The program counter.
    pub fn pc(&self) -> (pc: u16)
        ensures
            pc == self@.pc,
    {
        self.pc
    }

    /// The index register.
    pub fn i_reg(&self) -> (i_reg: u16)
        ensures
            i_reg == self@.i_reg,
    {
        self.i_reg
    }

    /// Register `Vx`.
    pub fn register(&self, x: usize) -> (value: i8)
        requires
            x < NUM_REG,
        ensures
            value == self@.registers[x as int],
    {
        self.registers[x]
    }

    /// The byte at `addr`.
    pub fn memory_at(&self, addr: usize) -> (byte: u8)
        requires
            addr < RAM_SIZE,
        ensures
            byte == self@.memory[addr as int],
    {
        self.memory[addr]
    }

    /// The return addresses on the call stack, the most recent last.
    pub fn stack(&self) -> (stack: &[u16])
        ensures
            stack@ == self@.stack,
    {
        self.stack.as_slice()
    }

    /// Whether pixel `index` (row times [`SCREEN_WIDTH`] plus column) is lit.
    pub fn pixel(&self, index: usize) -> (lit: bool)
        requires
            index < DISPLAY_SIZE,
        ensures
            lit == self@.display[index as int],
    {
        self.display[index]
    }
}

/// The nibbles that `execute` takes apart are those of [`nibble1`] to [`nibble4`].
proof fn lemma_nibbles(instr: u16)
    ensures
        ((instr & 0xF000) >> 12) as u8 == nibble1(instr),
        ((instr & 0xF00) >> 8) as u8 == nibble2(instr),
        ((instr & 0xF0) >> 4) as u8 == nibble3(instr),
        (instr & 0xF) as u8 == nibble4(instr),
        nibble2(instr) < 16,
        nibble3(instr) < 16,
        nibble4(instr) < 16,
        nibble3(instr) * 16 + nibble4(instr) == instr % 0x100,
        nibble2(instr) * 0x100 + nibble3(instr) * 0x10 + nibble4(instr) == instr % 0x1000,
        instr == 0x00E0 <==> (nibble1(instr) == 0 && nibble2(instr) == 0 && nibble3(instr) == 0xE
            && nibble4(instr) == 0),
        instr == 0x00EE <==> (nibble1(instr) == 0 && nibble2(instr) == 0 && nibble3(instr) == 0xE
            && nibble4(instr) == 0xE),
{
    assert(((instr & 0xF000) >> 12) == instr / 0x1000) by (bit_vector);
    assert(((instr & 0xF00) >> 8) == instr / 0x100 % 0x10) by (bit_vector);
    assert(((instr & 0xF0) >> 4) == instr / 0x10 % 0x10) by (bit_vector);
    assert((instr & 0xF) == instr % 0x10) by (bit_vector);
}

/// An arithmetic shift right by one halves, rounding down, and the low bit is the remainder.
proof fn lemma_shift_right(v: i8)
    ensures
        v >> 1 == (v as int / 2) as i8,
        (v & 1) == 1 <==> v as int % 2 == 1,
{
    assert(v >> 1 == (v as int / 2) as i8) by (bit_vector);
    assert((v & 1) == 1 <==> v as int % 2 == 1) by (bit_vector);
}

/// A shift left by one doubles modulo 256; the bit pushed out is the sign bit.
proof fn lemma_shift_left(v: i8)
    ensures
        v << 1 == wrap_i8(2 * v),
        ((v as u8) & 0x80) == 0x80 <==> v < 0,
{
    assert(v << 1 == wrap_i8(2 * v)) by (bit_vector);
    assert(((v as u8) & 0x80) == 0x80 <==> v < 0) by (bit_vector);
}

} // verus!

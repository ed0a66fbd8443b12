use vstd::prelude::*;

verus! {

/// Height of the display of an [`Emu`], in pixels.
pub const SCREEN_HEIGHT: usize = 64;
/// Width of the display of an [`Emu`], in pixels.
pub const SCREEN_WIDTH: usize = 32;
/// Number of pixels of the display of an [`Emu`].
pub const SCREEN_SIZE: usize = 2048;
/// Bytes of addressable memory.
pub const RAM_SIZE: usize = 4096;
/// Number of general purpose registers `V0` to `VF`.
pub const NUM_REGS: usize = 16;
/// Depth of the call stack.
pub const STACK_SIZE: usize = 16;
/// Number of keys of the hexadecimal keypad.
pub const NUM_KEYS: usize = 16;
/// Address at which programs are loaded and execution begins.
pub const START_ADDR: u16 = 0x200;

/// A CHIP-8 machine: memory, display, registers, call stack, keypad and timers.
pub struct Emu {
    pc: u16,
    ram: [u8; RAM_SIZE],
    screen: [bool; SCREEN_SIZE],
    v_reg: [u8; NUM_REGS],
    i_reg: u16,
    stack: [u16; STACK_SIZE],
    sp: u16,
    keys: [bool; NUM_KEYS],
    dt: u8,
    st: u8,
}

/// The mathematical state of an [`Emu`].
pub struct EmuModel {
    pub pc: u16,
    pub ram: Seq<u8>,
    pub screen: Seq<bool>,
    pub v_reg: Seq<u8>,
    pub i_reg: u16,
    pub stack: Seq<u16>,
    pub sp: u16,
    pub keys: Seq<bool>,
    pub dt: u8,
    pub st: u8,
}

impl View for Emu {
    type V = EmuModel;

    closed spec fn view(&self) -> EmuModel {
        EmuModel {
            pc: self.pc,
            ram: self.ram@,
            screen: self.screen@,
            v_reg: self.v_reg@,
            i_reg: self.i_reg,
            stack: self.stack@,
            sp: self.sp,
            keys: self.keys@,
            dt: self.dt,
            st: self.st,
        }
    }
}

/// The state of a machine that has just been switched on: execution starts at
/// [`START_ADDR`], and memory, display, registers, stack, keypad and timers are all clear.
pub open spec fn power_on_state() -> EmuModel {
    EmuModel {
        pc: START_ADDR,
        ram: Seq::new(RAM_SIZE as nat, |i: int| 0u8),
        screen: Seq::new(SCREEN_SIZE as nat, |i: int| false),
        v_reg: Seq::new(NUM_REGS as nat, |i: int| 0u8),
        i_reg: 0,
        stack: Seq::new(STACK_SIZE as nat, |i: int| 0u16),
        sp: 0,
        keys: Seq::new(NUM_KEYS as nat, |i: int| false),
        dt: 0,
        st: 0,
    }
}

impl Emu {
    /// A machine in its power-on state: execution starts at address 0x200, and memory,
    /// display, registers, stack, keypad and timers are all clear.
    pub fn new() -> (emu: Self)
        ensures
            emu@ == power_on_state(),
            emu@.pc == 0x200,
            emu@.i_reg == 0 && emu@.sp == 0 && emu@.dt == 0 && emu@.st == 0,
            emu@.ram.len() == 4096 && forall|i: int| 0 <= i < 4096 ==> emu@.ram[i] == 0,
            emu@.screen.len() == 2048 && forall|i: int| 0 <= i < 2048 ==> !emu@.screen[i],
            emu@.v_reg.len() == 16 && forall|i: int| 0 <= i < 16 ==> emu@.v_reg[i] == 0,
            emu@.stack.len() == 16 && forall|i: int| 0 <= i < 16 ==> emu@.stack[i] == 0,
            emu@.keys.len() == 16 && forall|i: int| 0 <= i < 16 ==> !emu@.keys[i],
    {
        let emu = Self {
            pc: START_ADDR,
            ram: [0u8; 4096],
            screen: [false; 2048],
            v_reg: [0u8; 16],
            i_reg: 0,
            stack: [0u16; 16],
            sp: 0,
            keys: [false; 16],
            dt: 0,
            st: 0,
        };
        assert(emu@.ram =~= power_on_state().ram);
        assert(emu@.screen =~= power_on_state().screen);
        assert(emu@.v_reg =~= power_on_state().v_reg);
        assert(emu@.stack =~= power_on_state().stack);
        assert(emu@.keys =~= power_on_state().keys);
        emu
    }
}

} // verus!

//! A CHIP-8 interpreter whose instruction semantics are specified and verified.
//!
//! - `emu`: the machine state of the CHIP-8 core.
//! - `model`: constants, the mathematical state, instruction decoding and the step relation.
//! - `machine`: the interpreter that runs instructions according to the model.
//! - `laws`: properties of the instruction set that hold of every state.
//! - `instruction_laws`: what each instruction, a cycle, loading and drawing do, stated
//!   directly over instruction words and memory bytes.

pub mod emu;
pub mod model;
pub mod machine;
pub mod laws;
pub mod instruction_laws;

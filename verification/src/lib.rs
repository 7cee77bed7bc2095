//! A small stack-based bytecode machine with labelled jumps.
//!
//! A program is a sequence of [`Instruction`]s, each carrying a label and an
//! [`OpCode`]. A [`VirtualMachine`] owns one program, an operand stack of
//! 32-bit signed integers and a program counter, and interprets the program
//! one instruction at a time: [`VirtualMachine::step`] carries out a single
//! instruction, [`VirtualMachine::execute`] runs until the machine halts.
//!
//! What the machine does is stated against [`Machine`], the same machine as
//! plain values: one step is [`Machine::step`], a run is [`Machine::run`].
//! The module [`theorems`] holds what follows from them for every program.

pub mod instruction;
pub mod machine;
pub mod model;
pub mod outcome;
pub mod program;
pub mod theorems;

pub use crate::instruction::{Instruction, OpCode};
pub use crate::machine::{Report, VirtualMachine};
pub use crate::model::{Machine, Run, StackLimit};
pub use crate::outcome::{Fault, Outcome, Step};
pub use crate::program::Program;

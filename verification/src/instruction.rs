//! Opcodes and labelled instructions.

use vstd::prelude::*;

verus! {

/// One operation of the machine, with its immediate operand where it has one.
#[allow(non_camel_case_types)]
#[derive(Clone, Copy, Debug, PartialEq, Eq, PartialOrd, Ord, Structural)]
pub enum OpCode {
    /// Push the literal.
    PUSH(i32),
    /// Pop two values and push their wrapping sum.
    ADD,
    /// Pop two values and push 1 if they are equal, 0 if they differ.
    CMP,
    /// Pop a condition; jump to the label if the condition is 1.
    JMP_IF1(usize),
    /// Jump to the label.
    JMP(usize),
    /// Pop a value and emit it.
    PRINT,
    /// Stop.
    HALT,
}

impl OpCode {
    /// The number of operands that the opcode takes from the stack.
    pub open spec fn operands(self) -> nat {
        match self {
            OpCode::ADD | OpCode::CMP => 2,
            OpCode::JMP_IF1(_) | OpCode::PRINT => 1,
            OpCode::PUSH(_) | OpCode::JMP(_) | OpCode::HALT => 0,
        }
    }

    /// Counts the operands that the opcode takes from the stack.
    pub fn operand_count(&self) -> (count: usize)
        ensures
            count == self.operands(),
    {
        match self {
            OpCode::ADD | OpCode::CMP => 2,
            OpCode::JMP_IF1(_) | OpCode::PRINT => 1,
            OpCode::PUSH(_) | OpCode::JMP(_) | OpCode::HALT => 0,
        }
    }
}

/// An opcode together with the label under which jumps address it.
///
/// A label is a name, not a position: labels need not be contiguous, sorted or
/// equal to the instruction's index in its program.
#[derive(Clone, Copy, Debug, PartialEq, Eq, Structural)]
pub struct Instruction {
    pub label: usize,
    pub opcode: OpCode,
}

impl Instruction {
    /// Pairs a label with an opcode. Nothing is checked here: whether a label
    /// is unique in a program only matters once a jump looks it up.
    pub fn new(label: usize, opcode: OpCode) -> (ins: Self)
        ensures
            ins.label == label,
            ins.opcode == opcode,
    {
        Self { label, opcode }
    }
}

} // verus!

//! The machine as a mathematical object: its configuration and state as plain
//! values, one step as a function on them, and a run as repeated steps.

use vstd::prelude::*;

use crate::instruction::{Instruction, OpCode};
use crate::outcome::{Fault, Outcome, Step};
use crate::program::resolve;

verus! {

/// How many values the operand stack may hold.
#[derive(Clone, Copy, Debug, PartialEq, Eq, Structural)]
pub enum StackLimit {
    /// The stack grows as far as pushes take it.
    Unbounded,
    /// The stack holds at most this many values.
    Bounded(usize),
}

impl StackLimit {
    /// Whether a stack that holds `len` values may take one more.
    pub open spec fn has_room(self, len: nat) -> bool {
        match self {
            StackLimit::Unbounded => true,
            StackLimit::Bounded(capacity) => len < capacity,
        }
    }

    /// Whether a stack may hold `len` values at once.
    pub open spec fn can_hold(self, len: nat) -> bool {
        match self {
            StackLimit::Unbounded => true,
            StackLimit::Bounded(capacity) => len <= capacity,
        }
    }

    /// Decides whether a stack that holds `len` values may take one more.
    pub fn admits(&self, len: usize) -> (ok: bool)
        ensures
            ok == self.has_room(len as nat),
    {
        match self {
            StackLimit::Unbounded => true,
            StackLimit::Bounded(capacity) => len < *capacity,
        }
    }
}

/// The sum of two 32-bit values in two's complement: the mathematical sum
/// brought back into range by adding or subtracting 2^32 once.
pub open spec fn wrapping_sum(a: i32, b: i32) -> i32 {
    let sum = a + b;
    if sum > i32::MAX {
        (sum - 0x1_0000_0000) as i32
    } else if sum < i32::MIN {
        (sum + 0x1_0000_0000) as i32
    } else {
        sum as i32
    }
}

/// The value that a comparison pushes: 1 for equal operands, 0 otherwise.
pub open spec fn equality_flag(a: i32, b: i32) -> i32 {
    if a == b {
        1
    } else {
        0
    }
}

/// A machine as plain values: what it was configured with, the program it
/// holds, its operand stack (bottom first) and its program counter, which is
/// a position in the program, not a label.
#[verifier::ext_equal]
pub struct Machine {
    pub program: Seq<Instruction>,
    pub stack_limit: StackLimit,
    pub step_limit: u64,
    pub stack: Seq<i32>,
    pub pc: nat,
}

/// Where a run ended, what it emitted on the way, in order, and why it ended.
#[verifier::ext_equal]
pub struct Run {
    pub machine: Machine,
    pub output: Seq<i32>,
    pub outcome: Outcome,
}

impl Step {
    /// The values that a step emitted: one for a print, none otherwise.
    pub open spec fn emitted(self) -> Seq<i32> {
        match self {
            Step::Printed(value) => seq![value],
            _ => Seq::empty(),
        }
    }
}

impl Machine {
    /// A machine with this configuration that has just been given `program`:
    /// empty stack, program counter at the first instruction.
    pub open spec fn loaded(self, program: Seq<Instruction>) -> Machine {
        Machine { program, stack: Seq::empty(), pc: 0, ..self }
    }

    /// This machine with the program counter back at the first instruction.
    pub open spec fn restarted(self) -> Machine {
        Machine { pc: 0, ..self }
    }

    /// This machine after an instruction that left `stack` and fell through
    /// to the next position.
    pub open spec fn advanced(self, stack: Seq<i32>) -> Machine {
        Machine { stack, pc: self.pc + 1, ..self }
    }

    /// This machine after an instruction that left `stack` and jumped to `pos`.
    pub open spec fn jumped(self, stack: Seq<i32>, pos: int) -> Machine {
        Machine { stack, pc: pos as nat, ..self }
    }

    /// The stack without its top `count` values.
    pub open spec fn below_top(self, count: int) -> Seq<i32> {
        self.stack.take(self.stack.len() - count)
    }

    /// The value `depth` places below the top of the stack; the top is at depth 0.
    pub open spec fn operand(self, depth: int) -> i32 {
        self.stack[self.stack.len() - 1 - depth]
    }

    /// The stopped machine: nothing has changed, and the step reports `fault`.
    pub open spec fn faulted(self, fault: Fault) -> (Machine, Step) {
        (self, Step::Stopped(Outcome::Fault(fault)))
    }

    /// One step: the machine afterwards, and what the step did.
    ///
    /// A program counter past the last instruction stops the machine. So
    /// does an instruction that finds fewer values on the stack than it
    /// takes, a push that finds no room, a jump taken to a label that no
    /// instruction carries, and `HALT`. A step that stops the machine leaves
    /// it exactly as it was. Any other instruction takes effect, and the
    /// program counter then either moves on by one or goes to the position
    /// that the jump's label resolves to.
    ///
    /// Operands come from the top of the stack: the first popped is the
    /// value pushed last. A conditional jump always takes its condition off
    /// the stack and looks up its label only where the condition is 1.
    pub open spec fn step(self) -> (Machine, Step) {
        if self.pc >= self.program.len() {
            (self, Step::Stopped(Outcome::EndOfProgram))
        } else {
            let opcode = self.program[self.pc as int].opcode;
            if self.stack.len() < opcode.operands() {
                self.faulted(Fault::StackUnderflow)
            } else {
                match opcode {
                    OpCode::PUSH(value) => {
                        if self.stack_limit.has_room(self.stack.len()) {
                            (self.advanced(self.stack.push(value)), Step::Advanced)
                        } else {
                            self.faulted(Fault::StackOverflow)
                        }
                    },
                    OpCode::ADD => {
                        let sum = wrapping_sum(self.operand(0), self.operand(1));
                        (self.advanced(self.below_top(2).push(sum)), Step::Advanced)
                    },
                    OpCode::CMP => {
                        let flag = equality_flag(self.operand(0), self.operand(1));
                        (self.advanced(self.below_top(2).push(flag)), Step::Advanced)
                    },
                    OpCode::JMP_IF1(target) => {
                        if self.operand(0) != 1 {
                            (self.advanced(self.below_top(1)), Step::Advanced)
                        } else {
                            match resolve(self.program, target) {
                                Some(pos) => (self.jumped(self.below_top(1), pos), Step::Advanced),
                                None => self.faulted(Fault::UnresolvedJumpTarget),
                            }
                        }
                    },
                    OpCode::JMP(target) => {
                        match resolve(self.program, target) {
                            Some(pos) => (self.jumped(self.stack, pos), Step::Advanced),
                            None => self.faulted(Fault::UnresolvedJumpTarget),
                        }
                    },
                    OpCode::PRINT => {
                        (self.advanced(self.below_top(1)), Step::Printed(self.operand(0)))
                    },
                    OpCode::HALT => (self, Step::Stopped(Outcome::Halt)),
                }
            }
        }
    }

    /// A run of at most `steps` steps from this machine.
    ///
    /// The limit is looked at before each step: with none left the run ends
    /// where it stands, with `StepLimit`. Otherwise a step that stops the
    /// machine ends the run with that step's reason, and any other step is
    /// followed by the run of what it left, with one step fewer.
    pub open spec fn run(self, steps: nat) -> Run
        decreases steps,
    {
        if steps == 0 {
            Run { machine: self, output: Seq::empty(), outcome: Outcome::StepLimit }
        } else {
            match self.step() {
                (_, Step::Stopped(outcome)) => Run {
                    machine: self,
                    output: Seq::empty(),
                    outcome,
                },
                (next, step) => {
                    let rest = next.run((steps - 1) as nat);
                    Run {
                        machine: rest.machine,
                        output: step.emitted() + rest.output,
                        outcome: rest.outcome,
                    }
                },
            }
        }
    }

    /// The run that `execute` makes: from the first instruction, on the stack
    /// as it stands, within the step limit of the machine.
    pub open spec fn execute(self) -> Run {
        self.restarted().run(self.step_limit as nat)
    }
}

} // verus!

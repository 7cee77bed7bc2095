//! The executable machine.

use vstd::prelude::*;

use crate::instruction::{Instruction, OpCode};
use crate::model::{Machine, Run, StackLimit};
use crate::outcome::{Fault, Outcome, Step};
use crate::program::Program;

verus! {

/// What a call of [`VirtualMachine::execute`] hands back: why the run ended,
/// where the program counter then stood (after a fault, on the instruction
/// that raised it), and the values that the run emitted, in the order in
/// which they were printed.
#[derive(Debug)]
pub struct Report {
    pub outcome: Outcome,
    pub pc: usize,
    pub output: Vec<i32>,
}

/// A stack machine that owns its program, its operand stack and its program
/// counter. Its view is the same machine as plain values.
pub struct VirtualMachine {
    program: Program,
    stack: Vec<i32>,
    pc: usize,
    stack_limit: StackLimit,
    step_limit: u64,
}

impl View for VirtualMachine {
    type V = Machine;

    closed spec fn view(&self) -> Machine {
        Machine {
            program: self.program@,
            stack_limit: self.stack_limit,
            step_limit: self.step_limit,
            stack: self.stack@,
            pc: self.pc as nat,
        }
    }
}

impl VirtualMachine {
    /// A machine without a program, whose stack may grow without bound and
    /// whose runs may take as many steps as a `u64` counts.
    pub fn new() -> (vm: Self)
        ensures
            vm@ == (Machine {
                program: Seq::empty(),
                stack_limit: StackLimit::Unbounded,
                step_limit: u64::MAX,
                stack: Seq::empty(),
                pc: 0,
            }),
    {
        Self::with_limits(StackLimit::Unbounded, u64::MAX)
    }

    /// A machine without a program, with the given capacity of the operand
    /// stack and the given number of steps that one run may take.
    pub fn with_limits(stack_limit: StackLimit, step_limit: u64) -> (vm: Self)
        ensures
            vm@ == (Machine {
                program: Seq::empty(),
                stack_limit,
                step_limit,
                stack: Seq::empty(),
                pc: 0,
            }),
    {
        VirtualMachine {
            program: Program::new(Vec::new()),
            stack: Vec::new(),
            pc: 0,
            stack_limit,
            step_limit,
        }
    }

    /// The operand stack, bottom first.
    pub fn stack(&self) -> (stack: &Vec<i32>)
        ensures
            stack@ == self@.stack,
    {
        &self.stack
    }

    /// The program counter: the position of the instruction that the next
    /// step looks at.
    pub fn pc(&self) -> (pc: usize)
        ensures
            pc == self@.pc,
    {
        self.pc
    }

    /// The program that the machine holds.
    pub fn program(&self) -> (program: &Program)
        ensures
            program@ == self@.program,
    {
        &self.program
    }

    /// The capacity that the operand stack was configured with.
    pub fn stack_limit(&self) -> (limit: StackLimit)
        ensures
            limit == self@.stack_limit,
    {
        self.stack_limit
    }

    /// The number of steps that one run may take.
    pub fn step_limit(&self) -> (limit: u64)
        ensures
            limit == self@.step_limit,
    {
        self.step_limit
    }

    /// Installs `program` in place of the one held so far. Nothing of an
    /// earlier run is kept: the stack is emptied and the program counter is
    /// set to the first instruction. The limits stay as configured.
    pub fn load_program(&mut self, program: Vec<Instruction>)
        ensures
            final(self)@ == old(self)@.loaded(program@),
    {
        self.program = Program::new(program);
        self.stack.clear();
        self.pc = 0;
    }

    /// Carries out the instruction under the program counter, or reports why
    /// the machine has halted and leaves it as it is.
    pub fn step(&mut self) -> (step: Step)
        ensures
            (final(self)@, step) == old(self)@.step(),
    {
        let instruction = match self.program.fetch(self.pc) {
            Some(instruction) => instruction,
            None => {
                return Step::Stopped(Outcome::EndOfProgram);
            },
        };
        proof {
            self.program.lemma_len_bounded();
        }
        let depth = self.stack.len();
        if depth < instruction.opcode.operand_count() {
            return Step::Stopped(Outcome::Fault(Fault::StackUnderflow));
        }
        match instruction.opcode {
            OpCode::PUSH(value) => {
                if !self.stack_limit.admits(depth) {
                    return Step::Stopped(Outcome::Fault(Fault::StackOverflow));
                }
                self.stack.push(value);
                self.pc = self.pc + 1;
                Step::Advanced
            },
            OpCode::ADD => {
                let first = self.stack.pop().unwrap();
                let second = self.stack.pop().unwrap();
                self.stack.push(first.wrapping_add(second));
                self.pc = self.pc + 1;
                Step::Advanced
            },
            OpCode::CMP => {
                let first = self.stack.pop().unwrap();
                let second = self.stack.pop().unwrap();
                self.stack.push(if first == second { 1 } else { 0 });
                self.pc = self.pc + 1;
                Step::Advanced
            },
            OpCode::JMP_IF1(target) => {
                if self.stack[depth - 1] != 1 {
                    self.stack.pop();
                    self.pc = self.pc + 1;
                    return Step::Advanced;
                }
                match self.program.position_of(target) {
                    Some(pos) => {
                        self.stack.pop();
                        self.pc = pos;
                        Step::Advanced
                    },
                    None => Step::Stopped(Outcome::Fault(Fault::UnresolvedJumpTarget)),
                }
            },
            OpCode::JMP(target) => {
                match self.program.position_of(target) {
                    Some(pos) => {
                        self.pc = pos;
                        Step::Advanced
                    },
                    None => Step::Stopped(Outcome::Fault(Fault::UnresolvedJumpTarget)),
                }
            },
            OpCode::PRINT => {
                let value = self.stack.pop().unwrap();
                self.pc = self.pc + 1;
                Step::Printed(value)
            },
            OpCode::HALT => Step::Stopped(Outcome::Halt),
        }
    }

    /// Runs the program from its first instruction, on the stack as it stands,
    /// until the machine halts or the step limit is used up, and reports why
    /// the run ended and what it printed.
    ///
    /// The machine is left where the run ended: after a fault the stack is the
    /// one that the faulting instruction found and the program counter points
    /// at that instruction.
    pub fn execute(&mut self) -> (report: Report)
        ensures
            final(self)@ == old(self)@.execute().machine,
            report.outcome == old(self)@.execute().outcome,
            report.pc == old(self)@.execute().machine.pc,
            report.output@ == old(self)@.execute().output,
    {
        self.pc = 0;
        let mut output: Vec<i32> = Vec::new();
        let mut taken: u64 = 0;
        while taken < self.step_limit
            invariant
                taken <= self.step_limit,
                old(self)@.execute() == (Run {
                    output: output@ + self@.run((self.step_limit - taken) as nat).output,
                    ..self@.run((self.step_limit - taken) as nat)
                }),
            decreases self.step_limit - taken,
        {
            let ghost before = self@;
            let ghost printed = output@;
            match self.step() {
                Step::Stopped(outcome) => {
                    assert(output@ + Seq::<i32>::empty() == output@);
                    return Report { outcome, pc: self.pc, output };
                },
                Step::Printed(value) => {
                    output.push(value);
                },
                Step::Advanced => {},
            }
            taken = taken + 1;
            proof {
                let left = (self.step_limit - taken) as nat;
                let rest = self@.run(left);
                let step = before.step().1;
                assert(before.run(left + 1).output == step.emitted() + rest.output);
                assert(output@ + rest.output == printed + (step.emitted() + rest.output));
            }
        }
        assert(output@ + Seq::<i32>::empty() == output@);
        Report { outcome: Outcome::StepLimit, pc: self.pc, output }
    }
}

} // verus!

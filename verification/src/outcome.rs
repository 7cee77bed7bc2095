//! What a step of the machine, and a whole run, can end in.

use vstd::prelude::*;

verus! {

/// A fault that stops a run. The instruction that raised it has had no effect
/// on the machine, and the program counter still points at it.
#[derive(Clone, Copy, Debug, PartialEq, Eq, Structural)]
pub enum Fault {
    /// An instruction found fewer operands on the stack than it consumes.
    StackUnderflow,
    /// A push found the stack at its configured capacity.
    StackOverflow,
    /// A jump was taken to a label that no instruction of the program carries.
    UnresolvedJumpTarget,
}

impl Fault {
    /// The text of the diagnostic line for this fault.
    pub open spec fn message_text(self) -> Seq<char> {
        match self {
            Fault::StackUnderflow => "[ERROR] Stack underflow!"@,
            Fault::StackOverflow => "[ERROR] Stack overflow!"@,
            Fault::UnresolvedJumpTarget => "[ERROR] Jump to invalid location!"@,
        }
    }

    /// The diagnostic line that a host prints for this fault.
    pub fn message(&self) -> (text: &'static str)
        ensures
            text@ == self.message_text(),
    {
        match self {
            Fault::StackUnderflow => "[ERROR] Stack underflow!",
            Fault::StackOverflow => "[ERROR] Stack overflow!",
            Fault::UnresolvedJumpTarget => "[ERROR] Jump to invalid location!",
        }
    }
}

/// Why a run came to its end.
#[derive(Clone, Copy, Debug, PartialEq, Eq, Structural)]
pub enum Outcome {
    /// A `HALT` instruction was reached.
    Halt,
    /// The program counter ran past the last instruction.
    EndOfProgram,
    /// An instruction could not be carried out.
    Fault(Fault),
    /// The step limit was used up while the machine was still running.
    StepLimit,
}

/// What one step of the machine did.
#[derive(Clone, Copy, Debug, PartialEq, Eq, Structural)]
pub enum Step {
    /// An instruction was carried out and emitted nothing.
    Advanced,
    /// A `PRINT` was carried out and emitted this value.
    Printed(i32),
    /// No instruction was carried out: the machine has halted, for this reason.
    Stopped(Outcome),
}

} // verus!

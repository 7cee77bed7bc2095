//! What holds of every machine and every program, proved from the model.

use vstd::prelude::*;

use crate::instruction::{Instruction, OpCode};
use crate::model::{equality_flag, wrapping_sum, Machine, Run};
use crate::outcome::{Fault, Outcome, Step};
use crate::program::{has_label, lemma_resolve};

verus! {

/// Whether `program` is one push for each of `values`, in order, and then a
/// `HALT`.
pub open spec fn pushes_then_halt(program: Seq<Instruction>, values: Seq<i32>) -> bool {
    &&& program.len() == values.len() + 1
    &&& forall|i: int|
        0 <= i < values.len() ==> (#[trigger] program[i]).opcode == OpCode::PUSH(values[i])
    &&& program[values.len() as int].opcode == OpCode::HALT
}

/// Whether `program` pushes `a`, then `b`, and then carries out `operation`.
pub open spec fn pushes_then(program: Seq<Instruction>, a: i32, b: i32, operation: OpCode) -> bool {
    &&& program.len() == 3
    &&& program[0].opcode == OpCode::PUSH(a)
    &&& program[1].opcode == OpCode::PUSH(b)
    &&& program[2].opcode == operation
}

/// Whether every label that a jump of `program` names is carried by one of
/// its instructions.
pub open spec fn targets_present(program: Seq<Instruction>) -> bool {
    forall|i: int|
        0 <= i < program.len() ==> match (#[trigger] program[i]).opcode {
            OpCode::JMP(target) | OpCode::JMP_IF1(target) => has_label(program, target),
            _ => true,
        }
}

/// A run changes neither the program nor the limits of the machine.
pub proof fn theorem_run_keeps_configuration(machine: Machine, steps: nat)
    ensures
        machine.run(steps).machine.program == machine.program,
        machine.run(steps).machine.stack_limit == machine.stack_limit,
        machine.run(steps).machine.step_limit == machine.step_limit,
    decreases steps,
{
    if steps > 0 {
        let (next, step) = machine.step();
        if !(step is Stopped) {
            theorem_run_keeps_configuration(next, (steps - 1) as nat);
        }
    }
}

/// A stack that is within the limit of its machine stays within it, step
/// after step.
pub proof fn theorem_stack_stays_within_limit(machine: Machine, steps: nat)
    requires
        machine.stack_limit.can_hold(machine.stack.len()),
    ensures
        machine.stack_limit.can_hold(machine.step().0.stack.len()),
        machine.stack_limit.can_hold(machine.run(steps).machine.stack.len()),
    decreases steps,
{
    if steps > 0 {
        let (next, step) = machine.step();
        if !(step is Stopped) {
            theorem_stack_stays_within_limit(next, (steps - 1) as nat);
        }
    }
}

/// A machine that has stopped stays as it is: every further step stops for
/// the same reason, and every run of at least one step from it ends at once,
/// there and for that reason.
pub proof fn theorem_stopped_machine_stays(machine: Machine, outcome: Outcome, steps: nat)
    requires
        machine.step().1 == Step::Stopped(outcome),
    ensures
        machine.step().0 == machine,
        steps >= 1 ==> machine.run(steps) == (Run { machine, output: Seq::empty(), outcome }),
{
}

/// A run ends where the machine stops, unless the step limit ends it first:
/// with any outcome but `StepLimit`, the next step of the machine that the
/// run leaves would stop with that outcome. A step never stops with
/// `StepLimit`.
pub proof fn theorem_run_ends_where_machine_stops(machine: Machine, steps: nat)
    ensures
        machine.step().1 != Step::Stopped(Outcome::StepLimit),
        machine.run(steps).outcome != Outcome::StepLimit ==> machine.run(steps).machine.step().1
            == Step::Stopped(machine.run(steps).outcome),
    decreases steps,
{
    if steps > 0 {
        let (next, step) = machine.step();
        if !(step is Stopped) {
            theorem_run_ends_where_machine_stops(next, (steps - 1) as nat);
        }
    }
}

/// In a program whose jumps all name labels that are present, no step and no
/// run ends with `UnresolvedJumpTarget`.
pub proof fn theorem_present_targets_always_resolve(machine: Machine, steps: nat)
    requires
        targets_present(machine.program),
    ensures
        machine.step().1 != Step::Stopped(Outcome::Fault(Fault::UnresolvedJumpTarget)),
        machine.run(steps).outcome != Outcome::Fault(Fault::UnresolvedJumpTarget),
    decreases steps,
{
    if steps > 0 {
        let (next, step) = machine.step();
        if !(step is Stopped) {
            theorem_present_targets_always_resolve(next, (steps - 1) as nat);
        }
    }
}

/// The outcome of a run that has nothing left to do but halt: with a step
/// left it halts, without one the step limit ends it.
pub open spec fn halt_within(steps: nat) -> Outcome {
    if steps >= 1 {
        Outcome::Halt
    } else {
        Outcome::StepLimit
    }
}

/// Pushes up to the `done`-th are behind the machine: the rest of the run
/// carries out the others and, with a step left for it, the halt.
proof fn lemma_remaining_pushes(machine: Machine, values: Seq<i32>, done: nat, steps: nat)
    requires
        pushes_then_halt(machine.program, values),
        done <= values.len(),
        machine.pc == done,
        machine.stack == values.take(done as int),
        machine.stack_limit.can_hold(values.len()),
        steps >= values.len() - done,
    ensures
        machine.run(steps) == (Run {
            machine: Machine { stack: values, pc: values.len(), ..machine },
            output: Seq::empty(),
            outcome: halt_within((steps - (values.len() - done)) as nat),
        }),
    decreases values.len() - done,
{
    if done == values.len() {
        assert(values.take(done as int) == values);
    } else {
        let next = machine.advanced(machine.stack.push(values[done as int]));
        assert(machine.program[done as int].opcode == OpCode::PUSH(values[done as int]));
        assert(machine.step() == (next, Step::Advanced));
        assert(next.stack == values.take((done + 1) as int));
        lemma_remaining_pushes(next, values, done + 1, (steps - 1) as nat);
        assert(Step::Advanced.emitted() + Seq::<i32>::empty() == Seq::<i32>::empty());
    }
}

/// A program that only pushes `values` and then halts, loaded and run, ends
/// with exactly `values` on the stack, in the order of the pushes, with the
/// program counter on the `HALT`, and has printed nothing. This holds wherever
/// the stack may hold that many values and the step limit covers the pushes;
/// the run ends with `Halt` where the limit covers the `HALT` as well.
pub proof fn theorem_pushes_then_halt(machine: Machine, program: Seq<Instruction>, values: Seq<i32>)
    requires
        pushes_then_halt(program, values),
        machine.stack_limit.can_hold(values.len()),
        values.len() <= machine.step_limit,
    ensures
        machine.loaded(program).execute() == (Run {
            machine: Machine { stack: values, pc: values.len(), ..machine.loaded(program) },
            output: Seq::empty(),
            outcome: halt_within((machine.step_limit - values.len()) as nat),
        }),
{
    let start = machine.loaded(program).restarted();
    assert(start.stack == values.take(0));
    lemma_remaining_pushes(start, values, 0, machine.step_limit as nat);
}

/// Whether a run of two pushes and a third instruction is cut short between
/// them: a first value gets onto the stack, but the step limit or the room on
/// the stack ends the run before the third instruction has been carried out.
pub open spec fn cut_after_a_push(machine: Machine) -> bool {
    &&& machine.step_limit >= 1
    &&& machine.stack_limit.has_room(0)
    &&& (machine.step_limit < 3 || !machine.stack_limit.has_room(1))
}

/// Stack, program counter and outcome at the end of the run of a program that
/// pushes `x`, pushes `y` and then replaces both by `result`, under the given
/// limits.
spec fn after_two_pushes(machine: Machine, x: i32, y: i32, result: i32) -> (
    Seq<i32>,
    nat,
    Outcome,
) {
    if machine.step_limit == 0 {
        (Seq::empty(), 0, Outcome::StepLimit)
    } else if !machine.stack_limit.has_room(0) {
        (Seq::empty(), 0, Outcome::Fault(Fault::StackOverflow))
    } else if machine.step_limit == 1 {
        (seq![x], 1, Outcome::StepLimit)
    } else if !machine.stack_limit.has_room(1) {
        (seq![x], 1, Outcome::Fault(Fault::StackOverflow))
    } else if machine.step_limit == 2 {
        (seq![x, y], 2, Outcome::StepLimit)
    } else if machine.step_limit == 3 {
        (seq![result], 3, Outcome::StepLimit)
    } else {
        (seq![result], 3, Outcome::EndOfProgram)
    }
}

/// The run of a program of two pushes and an addition or a comparison ends as
/// `after_two_pushes` says, and prints nothing.
proof fn lemma_two_pushes_then(
    machine: Machine,
    program: Seq<Instruction>,
    x: i32,
    y: i32,
    operation: OpCode,
    result: i32,
)
    requires
        pushes_then(program, x, y, operation),
        operation == OpCode::ADD && result == wrapping_sum(y, x) || operation == OpCode::CMP
            && result == equality_flag(y, x),
    ensures
        ({
            let run = machine.loaded(program).execute();
            &&& (run.machine.stack, run.machine.pc, run.outcome) == after_two_pushes(
                machine,
                x,
                y,
                result,
            )
            &&& run.output == Seq::<i32>::empty()
        }),
{
    let limit = machine.step_limit as nat;
    let start = machine.loaded(program).restarted();
    let first = start.advanced(seq![x]);
    let second = first.advanced(seq![x, y]);
    let third = second.advanced(seq![result]);
    let none = Seq::<i32>::empty();
    assert(none + none == none);
    if limit >= 1 && machine.stack_limit.has_room(0) {
        assert(start.stack.push(x) == seq![x]);
        assert(start.step() == (first, Step::Advanced));
        if limit >= 2 && machine.stack_limit.has_room(1) {
            assert(first.stack.push(y) == seq![x, y]);
            assert(first.step() == (second, Step::Advanced));
            if limit >= 3 {
                assert(second.below_top(2).push(result) == seq![result]);
                assert(second.step() == (third, Step::Advanced));
                assert(third.run((limit - 3) as nat).machine == third);
                assert(third.run((limit - 3) as nat).output == none);
            }
            assert(second.run((limit - 2) as nat).output == none);
        }
        assert(first.run((limit - 1) as nat).output == none);
    }
}

/// Addition does not depend on the order of its operands: pushing `a` and
/// `b` and adding leaves what pushing `b` and `a` and adding leaves. The two
/// runs end with the same stack, at the same position, for the same reason,
/// and where all three instructions are carried out the stack holds the
/// wrapping sum alone. The two programs may differ in their labels.
///
/// Left out are the runs of different values that are cut short between the
/// pushes: what is then on the stack are operands, not a sum.
pub proof fn theorem_add_commutes(
    machine: Machine,
    a_then_b: Seq<Instruction>,
    b_then_a: Seq<Instruction>,
    a: i32,
    b: i32,
)
    requires
        pushes_then(a_then_b, a, b, OpCode::ADD),
        pushes_then(b_then_a, b, a, OpCode::ADD),
        a == b || !cut_after_a_push(machine),
    ensures
        wrapping_sum(a, b) == wrapping_sum(b, a),
        ({
            let one = machine.loaded(a_then_b).execute();
            let other = machine.loaded(b_then_a).execute();
            &&& other.machine.stack == one.machine.stack
            &&& other.machine.pc == one.machine.pc
            &&& other.output == one.output
            &&& other.outcome == one.outcome
            &&& machine.step_limit >= 3 && machine.stack_limit.can_hold(2)
                ==> one.machine.stack == seq![wrapping_sum(a, b)]
        }),
{
    lemma_two_pushes_then(machine, a_then_b, a, b, OpCode::ADD, wrapping_sum(a, b));
    lemma_two_pushes_then(machine, b_then_a, b, a, OpCode::ADD, wrapping_sum(a, b));
}

/// An addition takes the same step whichever way round its two operands
/// lie on the stack.
pub proof fn theorem_add_ignores_operand_order(machine: Machine, swapped: Machine)
    requires
        machine.pc < machine.program.len(),
        machine.program[machine.pc as int].opcode == OpCode::ADD,
        machine.stack.len() >= 2,
        swapped == (Machine {
            stack: machine.below_top(2).push(machine.operand(0)).push(machine.operand(1)),
            ..machine
        }),
    ensures
        swapped.step() == machine.step(),
{
    assert(swapped.below_top(2) == machine.below_top(2));
}

/// A comparison replaces its two operands by 1 where they are equal and by 0
/// where they differ, and moves on to the next instruction.
pub proof fn theorem_compare_yields_flag(machine: Machine)
    requires
        machine.pc < machine.program.len(),
        machine.program[machine.pc as int].opcode == OpCode::CMP,
        machine.stack.len() >= 2,
    ensures
        machine.step().1 == Step::Advanced,
        machine.step().0.pc == machine.pc + 1,
        machine.step().0.stack.len() == machine.stack.len() - 1,
        machine.step().0.stack.drop_last() == machine.stack.take(machine.stack.len() - 2),
        machine.operand(0) == machine.operand(1) ==> machine.step().0.stack.last() == 1,
        machine.operand(0) != machine.operand(1) ==> machine.step().0.stack.last() == 0,
{
    let flag = equality_flag(machine.operand(0), machine.operand(1));
    assert(machine.below_top(2).push(flag).drop_last() == machine.below_top(2));
}

/// Comparing a value with itself leaves 1, comparing two different values
/// leaves 0: the program that pushes `a` and `b` and compares them ends with
/// that flag alone on the stack, wherever the stack may hold two values and
/// the step limit covers the three instructions.
pub proof fn theorem_compare_program(machine: Machine, program: Seq<Instruction>, a: i32, b: i32)
    requires
        pushes_then(program, a, b, OpCode::CMP),
        machine.stack_limit.can_hold(2),
        machine.step_limit >= 3,
    ensures
        machine.loaded(program).execute().machine.stack == if a == b {
            seq![1i32]
        } else {
            seq![0i32]
        },
{
    lemma_two_pushes_then(machine, program, a, b, OpCode::CMP, equality_flag(a, b));
}

/// A jump that is taken to a label which no instruction carries stops the
/// machine with `UnresolvedJumpTarget` and leaves it as it was, and so ends
/// every run that reaches it with a step left. The jump is taken if it is unconditional, or if
/// it is conditional and finds 1 on top of the stack.
pub proof fn theorem_jump_to_missing_label(machine: Machine, target: usize, steps: nat)
    requires
        machine.pc < machine.program.len(),
        !has_label(machine.program, target),
        machine.program[machine.pc as int].opcode == OpCode::JMP(target) || (
        machine.program[machine.pc as int].opcode == OpCode::JMP_IF1(target)
            && machine.stack.len() >= 1 && machine.operand(0) == 1),
    ensures
        machine.step() == (machine, Step::Stopped(Outcome::Fault(Fault::UnresolvedJumpTarget))),
        steps >= 1 ==> machine.run(steps) == (Run {
            machine,
            output: Seq::empty(),
            outcome: Outcome::Fault(Fault::UnresolvedJumpTarget),
        }),
{
    lemma_resolve(machine.program, target);
}

/// An instruction that finds fewer values on the stack than it takes stops
/// the machine with `StackUnderflow` and changes nothing: stack and program
/// counter are as the instruction found them, and every run that reaches it
/// with a step left ends there.
pub proof fn theorem_underflow_changes_nothing(machine: Machine, steps: nat)
    requires
        machine.pc < machine.program.len(),
        machine.stack.len() < machine.program[machine.pc as int].opcode.operands(),
    ensures
        machine.step() == (machine, Step::Stopped(Outcome::Fault(Fault::StackUnderflow))),
        steps >= 1 ==> machine.run(steps) == (Run {
            machine,
            output: Seq::empty(),
            outcome: Outcome::Fault(Fault::StackUnderflow),
        }),
{
}

/// Loading forgets what ran before: a machine that has run, however far and
/// on whatever program, is after loading `program` exactly what it would have
/// been had it loaded `program` at once. Neither the old stack nor the old
/// program counter is left.
pub proof fn theorem_reload_forgets_run(machine: Machine, steps: nat, program: Seq<Instruction>)
    ensures
        machine.run(steps).machine.loaded(program) == machine.loaded(program),
        machine.execute().machine.loaded(program) == machine.loaded(program),
        machine.loaded(program).stack == Seq::<i32>::empty(),
        machine.loaded(program).pc == 0,
{
    theorem_run_keeps_configuration(machine, steps);
    theorem_run_keeps_configuration(machine.restarted(), machine.step_limit as nat);
}

} // verus!

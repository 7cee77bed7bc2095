use stack_vm::{Fault, Instruction, OpCode, Outcome, StackLimit, Step, VirtualMachine};

fn endless_loop() -> Vec<Instruction> {
    vec![
        Instruction::new(1, OpCode::PUSH(9)),
        Instruction::new(2, OpCode::PRINT),
        Instruction::new(3, OpCode::JMP(1)),
    ]
}

#[test]
fn new_machine_is_empty_and_unbounded() {
    let vm = VirtualMachine::new();
    assert!(vm.stack().is_empty());
    assert_eq!(vm.pc(), 0);
    assert_eq!(vm.program().len(), 0);
    assert_eq!(vm.stack_limit(), StackLimit::Unbounded);
    assert_eq!(vm.step_limit(), u64::MAX);
}

#[test]
fn configured_machine_keeps_its_limits() {
    let mut vm = VirtualMachine::with_limits(StackLimit::Bounded(8), 100);
    assert_eq!(vm.stack_limit(), StackLimit::Bounded(8));
    assert_eq!(vm.step_limit(), 100);
    vm.load_program(vec![Instruction::new(1, OpCode::PUSH(1))]);
    vm.execute();
    assert_eq!(vm.stack_limit(), StackLimit::Bounded(8));
    assert_eq!(vm.step_limit(), 100);
}

#[test]
fn loading_installs_the_program_in_order() {
    let mut vm = VirtualMachine::new();
    vm.load_program(vec![
        Instruction::new(4, OpCode::PUSH(1)),
        Instruction::new(2, OpCode::HALT),
    ]);
    assert_eq!(vm.program().len(), 2);
    assert_eq!(vm.program().fetch(0), Some(Instruction::new(4, OpCode::PUSH(1))));
    assert_eq!(vm.program().fetch(1), Some(Instruction::new(2, OpCode::HALT)));
    assert_eq!(vm.program().fetch(2), None);
    assert_eq!(vm.pc(), 0);
    assert!(vm.stack().is_empty());
}

#[test]
fn reloading_forgets_stack_and_program_counter() {
    let mut vm = VirtualMachine::new();
    vm.load_program(vec![
        Instruction::new(1, OpCode::PUSH(11)),
        Instruction::new(2, OpCode::PUSH(22)),
        Instruction::new(3, OpCode::HALT),
    ]);
    let first = vm.execute();
    assert_eq!(first.outcome, Outcome::Halt);
    assert_eq!(vm.stack(), &vec![11, 22]);
    assert_eq!(vm.pc(), 2);

    vm.load_program(vec![
        Instruction::new(1, OpCode::PUSH(5)),
        Instruction::new(2, OpCode::PRINT),
    ]);
    assert!(vm.stack().is_empty());
    assert_eq!(vm.pc(), 0);
    assert_eq!(vm.program().len(), 2);

    let second = vm.execute();
    assert_eq!(second.outcome, Outcome::EndOfProgram);
    assert_eq!(second.output, vec![5]);
    assert!(vm.stack().is_empty());
}

#[test]
fn reloaded_machine_runs_like_a_fresh_one() {
    let program = vec![
        Instruction::new(1, OpCode::ADD),
        Instruction::new(2, OpCode::HALT),
    ];

    let mut used = VirtualMachine::new();
    used.load_program(vec![
        Instruction::new(1, OpCode::PUSH(1)),
        Instruction::new(2, OpCode::PUSH(2)),
        Instruction::new(3, OpCode::JMP(77)),
    ]);
    assert_eq!(used.execute().outcome, Outcome::Fault(Fault::UnresolvedJumpTarget));
    used.load_program(program.clone());
    let after_reload = used.execute();

    let mut fresh = VirtualMachine::new();
    fresh.load_program(program);
    let at_once = fresh.execute();

    assert_eq!(after_reload.outcome, Outcome::Fault(Fault::StackUnderflow));
    assert_eq!(after_reload.outcome, at_once.outcome);
    assert_eq!(after_reload.output, at_once.output);
    assert_eq!(used.stack(), fresh.stack());
    assert_eq!(used.pc(), fresh.pc());
}

#[test]
fn second_run_starts_at_the_first_instruction_on_the_stack_left() {
    let mut vm = VirtualMachine::new();
    vm.load_program(vec![
        Instruction::new(1, OpCode::PUSH(1)),
        Instruction::new(2, OpCode::HALT),
    ]);
    vm.execute();
    assert_eq!(vm.stack(), &vec![1]);
    assert_eq!(vm.pc(), 1);
    let again = vm.execute();
    assert_eq!(again.outcome, Outcome::Halt);
    assert_eq!(vm.stack(), &vec![1, 1]);
    assert_eq!(vm.pc(), 1);
}

#[test]
fn step_limit_ends_an_endless_loop() {
    let mut vm = VirtualMachine::with_limits(StackLimit::Unbounded, 7);
    vm.load_program(endless_loop());
    let report = vm.execute();
    assert_eq!(report.outcome, Outcome::StepLimit);
    assert_eq!(report.pc, 1);
    // push, print, jump, push, print, jump, push
    assert_eq!(report.output, vec![9, 9]);
    assert_eq!(vm.stack(), &vec![9]);
    assert_eq!(vm.pc(), 1);
}

#[test]
fn step_limit_of_zero_takes_no_step() {
    let mut vm = VirtualMachine::with_limits(StackLimit::Unbounded, 0);
    vm.load_program(vec![Instruction::new(1, OpCode::HALT)]);
    let report = vm.execute();
    assert_eq!(report.outcome, Outcome::StepLimit);
    assert_eq!(vm.pc(), 0);
}

#[test]
fn halt_needs_a_step_of_its_own() {
    let program = vec![
        Instruction::new(1, OpCode::PUSH(1)),
        Instruction::new(2, OpCode::HALT),
    ];
    let mut short = VirtualMachine::with_limits(StackLimit::Unbounded, 1);
    short.load_program(program.clone());
    assert_eq!(short.execute().outcome, Outcome::StepLimit);
    assert_eq!(short.stack(), &vec![1]);

    let mut enough = VirtualMachine::with_limits(StackLimit::Unbounded, 2);
    enough.load_program(program);
    assert_eq!(enough.execute().outcome, Outcome::Halt);
    assert_eq!(enough.stack(), &vec![1]);
}

#[test]
fn single_steps_report_what_they_did() {
    let mut vm = VirtualMachine::new();
    vm.load_program(vec![
        Instruction::new(1, OpCode::PUSH(5)),
        Instruction::new(2, OpCode::PUSH(3)),
        Instruction::new(3, OpCode::ADD),
        Instruction::new(4, OpCode::PRINT),
        Instruction::new(5, OpCode::HALT),
    ]);
    assert_eq!(vm.step(), Step::Advanced);
    assert_eq!((vm.pc(), vm.stack().clone()), (1, vec![5]));
    assert_eq!(vm.step(), Step::Advanced);
    assert_eq!((vm.pc(), vm.stack().clone()), (2, vec![5, 3]));
    assert_eq!(vm.step(), Step::Advanced);
    assert_eq!((vm.pc(), vm.stack().clone()), (3, vec![8]));
    assert_eq!(vm.step(), Step::Printed(8));
    assert_eq!((vm.pc(), vm.stack().clone()), (4, vec![]));
    assert_eq!(vm.step(), Step::Stopped(Outcome::Halt));
    assert_eq!((vm.pc(), vm.stack().clone()), (4, vec![]));
    assert_eq!(vm.step(), Step::Stopped(Outcome::Halt));
}

#[test]
fn step_on_a_fault_leaves_the_machine_and_repeats_the_fault() {
    let mut vm = VirtualMachine::new();
    vm.load_program(vec![
        Instruction::new(1, OpCode::PUSH(5)),
        Instruction::new(2, OpCode::CMP),
    ]);
    assert_eq!(vm.step(), Step::Advanced);
    assert_eq!(vm.step(), Step::Stopped(Outcome::Fault(Fault::StackUnderflow)));
    assert_eq!((vm.pc(), vm.stack().clone()), (1, vec![5]));
    assert_eq!(vm.step(), Step::Stopped(Outcome::Fault(Fault::StackUnderflow)));
    assert_eq!((vm.pc(), vm.stack().clone()), (1, vec![5]));
}

#[test]
fn step_past_the_end_reports_the_end() {
    let mut vm = VirtualMachine::new();
    assert_eq!(vm.step(), Step::Stopped(Outcome::EndOfProgram));
    vm.load_program(vec![Instruction::new(1, OpCode::PUSH(5))]);
    assert_eq!(vm.step(), Step::Advanced);
    assert_eq!(vm.step(), Step::Stopped(Outcome::EndOfProgram));
    assert_eq!(vm.pc(), 1);
}

#[test]
fn step_takes_a_jump_to_the_position_of_its_label() {
    let mut vm = VirtualMachine::new();
    vm.load_program(vec![
        Instruction::new(30, OpCode::JMP(10)),
        Instruction::new(20, OpCode::HALT),
        Instruction::new(10, OpCode::PUSH(1)),
        Instruction::new(40, OpCode::JMP_IF1(20)),
    ]);
    assert_eq!(vm.step(), Step::Advanced);
    assert_eq!(vm.pc(), 2);
    assert_eq!(vm.step(), Step::Advanced);
    assert_eq!(vm.pc(), 3);
    assert_eq!(vm.step(), Step::Advanced);
    assert_eq!(vm.pc(), 1);
    assert!(vm.stack().is_empty());
    assert_eq!(vm.step(), Step::Stopped(Outcome::Halt));
}

#[test]
fn stack_limit_admits_lengths_below_its_capacity() {
    assert!(StackLimit::Unbounded.admits(0));
    assert!(StackLimit::Unbounded.admits(usize::MAX));
    assert!(StackLimit::Bounded(3).admits(0));
    assert!(StackLimit::Bounded(3).admits(2));
    assert!(!StackLimit::Bounded(3).admits(3));
    assert!(!StackLimit::Bounded(3).admits(4));
    assert!(!StackLimit::Bounded(0).admits(0));
}

#[test]
fn each_fault_has_its_diagnostic_line() {
    assert_eq!(Fault::StackUnderflow.message(), "[ERROR] Stack underflow!");
    assert_eq!(Fault::StackOverflow.message(), "[ERROR] Stack overflow!");
    assert_eq!(Fault::UnresolvedJumpTarget.message(), "[ERROR] Jump to invalid location!");
}

#[test]
fn instruction_keeps_label_and_opcode() {
    let ins = Instruction::new(12, OpCode::JMP_IF1(3));
    assert_eq!(ins.label, 12);
    assert_eq!(ins.opcode, OpCode::JMP_IF1(3));
    let ins = Instruction::new(0, OpCode::PUSH(-5));
    assert_eq!(ins.label, 0);
    assert_eq!(ins.opcode, OpCode::PUSH(-5));
}

#[test]
fn opcodes_take_their_operands_from_the_stack() {
    assert_eq!(OpCode::PUSH(1).operand_count(), 0);
    assert_eq!(OpCode::ADD.operand_count(), 2);
    assert_eq!(OpCode::CMP.operand_count(), 2);
    assert_eq!(OpCode::JMP_IF1(4).operand_count(), 1);
    assert_eq!(OpCode::JMP(4).operand_count(), 0);
    assert_eq!(OpCode::PRINT.operand_count(), 1);
    assert_eq!(OpCode::HALT.operand_count(), 0);
}

#[test]
fn stack_never_grows_beyond_its_bound() {
    let mut vm = VirtualMachine::with_limits(StackLimit::Bounded(3), 1000);
    vm.load_program(vec![
        Instruction::new(1, OpCode::PUSH(1)),
        Instruction::new(2, OpCode::PUSH(1)),
        Instruction::new(3, OpCode::CMP),
        Instruction::new(4, OpCode::PUSH(5)),
        Instruction::new(5, OpCode::JMP(1)),
    ]);
    loop {
        let step = vm.step();
        assert!(vm.stack().len() <= 3);
        if let Step::Stopped(outcome) = step {
            assert_eq!(outcome, Outcome::Fault(Fault::StackOverflow));
            break;
        }
    }
    assert_eq!(vm.stack(), &vec![1, 5, 1]);
    assert_eq!(vm.pc(), 1);
}

#[test]
fn stopped_machine_stays_stopped_over_runs() {
    let mut vm = VirtualMachine::new();
    vm.load_program(vec![
        Instruction::new(1, OpCode::PUSH(1)),
        Instruction::new(2, OpCode::JMP(8)),
    ]);
    assert_eq!(vm.step(), Step::Advanced);
    for _ in 0..3 {
        assert_eq!(vm.step(), Step::Stopped(Outcome::Fault(Fault::UnresolvedJumpTarget)));
        assert_eq!((vm.pc(), vm.stack().clone()), (1, vec![1]));
    }
}

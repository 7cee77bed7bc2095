use stack_vm::{Instruction, OpCode, Program};

#[test]
fn position_of_finds_each_label() {
    let program = Program::new(vec![
        Instruction::new(30, OpCode::PUSH(1)),
        Instruction::new(10, OpCode::ADD),
        Instruction::new(20, OpCode::HALT),
    ]);
    assert_eq!(program.position_of(30), Some(0));
    assert_eq!(program.position_of(10), Some(1));
    assert_eq!(program.position_of(20), Some(2));
}

#[test]
fn position_of_absent_label_is_none() {
    let program = Program::new(vec![
        Instruction::new(1, OpCode::PUSH(1)),
        Instruction::new(2, OpCode::HALT),
    ]);
    assert_eq!(program.position_of(0), None);
    assert_eq!(program.position_of(3), None);
    assert_eq!(program.position_of(usize::MAX), None);
}

#[test]
fn position_of_is_a_position_not_the_label() {
    let program = Program::new(vec![
        Instruction::new(2, OpCode::HALT),
        Instruction::new(0, OpCode::HALT),
        Instruction::new(1, OpCode::HALT),
    ]);
    assert_eq!(program.position_of(0), Some(1));
    assert_eq!(program.position_of(1), Some(2));
    assert_eq!(program.position_of(2), Some(0));
}

#[test]
fn position_of_repeated_label_is_the_first() {
    let program = Program::new(vec![
        Instruction::new(5, OpCode::HALT),
        Instruction::new(9, OpCode::PUSH(1)),
        Instruction::new(9, OpCode::PUSH(2)),
        Instruction::new(5, OpCode::PUSH(3)),
        Instruction::new(9, OpCode::PUSH(4)),
    ]);
    assert_eq!(program.position_of(9), Some(1));
    assert_eq!(program.position_of(5), Some(0));
}

#[test]
fn empty_program_has_no_labels() {
    let program = Program::new(Vec::new());
    assert_eq!(program.len(), 0);
    assert_eq!(program.position_of(0), None);
    assert_eq!(program.fetch(0), None);
}

#[test]
fn fetch_returns_the_instruction_at_a_position() {
    let program = Program::new(vec![
        Instruction::new(7, OpCode::PUSH(1)),
        Instruction::new(3, OpCode::JMP(7)),
    ]);
    assert_eq!(program.len(), 2);
    assert_eq!(program.fetch(0), Some(Instruction::new(7, OpCode::PUSH(1))));
    assert_eq!(program.fetch(1), Some(Instruction::new(3, OpCode::JMP(7))));
    assert_eq!(program.fetch(2), None);
    assert_eq!(program.fetch(usize::MAX), None);
}

use bfdbg::executor::{ExecutionError, ExecutionState, ExecutorState};
use bfdbg::instruction::ExecutorCommand;
use bfdbg::translate::translate_into_commands;

fn run(source: &str) -> (ExecutorState, Result<ExecutionState, ExecutionError>) {
    let (cmds, _) = translate_into_commands(source, false).unwrap();
    let mut state = ExecutorState::new(cmds);
    loop {
        match state.execute_once() {
            Ok(ExecutionState::Running) => {}
            other => return (state, other),
        }
    }
}

#[test]
fn addition_loop() {
    let (state, r) = run("++>+++<[->+<]");
    assert_eq!(r, Ok(ExecutionState::Finished));
    assert_eq!(state.get_cell(0), Some(0));
    assert_eq!(state.get_cell(1), Some(5));
    assert_eq!(state.get_cells(), &vec![0, 5]);
}

#[test]
fn new_machine_starts_at_zero() {
    let state = ExecutorState::new(vec![ExecutorCommand::Increment]);
    assert_eq!(state.get_pc(), 0);
    assert_eq!(state.get_pointer(), 0);
    assert_eq!(state.get_cells(), &vec![0]);
    assert_eq!(state.get_array_len(), 1);
    assert_eq!(state.get_commands_len(), 1);
    assert_eq!(state.get_commands(), &vec![ExecutorCommand::Increment]);
    assert_eq!(state.get_command(0), Some(ExecutorCommand::Increment));
    assert_eq!(state.get_command(1), None);
    assert_eq!(state.get_cell(1), None);
}

#[test]
fn empty_program_finishes_at_once() {
    let mut state = ExecutorState::new(vec![]);
    assert_eq!(state.execute_once(), Ok(ExecutionState::Finished));
    assert_eq!(state.get_pc(), 0);
}

#[test]
fn move_left_at_origin_fails() {
    let mut state = ExecutorState::new(vec![ExecutorCommand::MoveLeft]);
    assert_eq!(state.execute_once(), Err(ExecutionError::TooFarLeft));
    assert_eq!(state.get_pointer(), 0);
    assert_eq!(state.get_pc(), 0);
}

#[test]
fn increment_at_max_overflows() {
    let mut state = ExecutorState::new(vec![ExecutorCommand::Increment]);
    assert!(state.set_cell_value(0, i128::MAX));
    assert_eq!(state.execute_once(), Err(ExecutionError::Overflow));
    assert_eq!(state.get_cell(0), Some(i128::MAX));
}

#[test]
fn decrement_at_min_underflows() {
    let mut state = ExecutorState::new(vec![ExecutorCommand::Decrement]);
    assert!(state.set_cell_value(0, i128::MIN));
    assert_eq!(state.execute_once(), Err(ExecutionError::Underflow));
    assert_eq!(state.get_cell(0), Some(i128::MIN));
}

#[test]
fn move_right_grows_the_tape() {
    let (state, _) = run(">>+");
    assert_eq!(state.get_cells(), &vec![0, 0, 1]);
    assert_eq!(state.get_pointer(), 2);
}

#[test]
fn output_writes_the_character() {
    let source = "+".repeat(65) + ".+.";
    let (mut state, r) = run(&source);
    assert_eq!(r, Ok(ExecutionState::Finished));
    assert_eq!(state.take_output(), vec!['A', 'B']);
    assert!(state.take_output().is_empty());
}

#[test]
fn output_of_a_negative_value_fails() {
    let (_, r) = run("-.");
    assert_eq!(r, Err(ExecutionError::InvalidCharacter));
}

#[test]
fn output_of_a_surrogate_fails() {
    let mut state = ExecutorState::new(vec![ExecutorCommand::Output]);
    state.set_cell_value(0, 0xD800);
    assert_eq!(state.execute_once(), Err(ExecutionError::InvalidCharacter));
}

#[test]
fn output_of_a_value_past_unicode_fails() {
    let mut state = ExecutorState::new(vec![ExecutorCommand::Output]);
    state.set_cell_value(0, 0x110000);
    assert_eq!(state.execute_once(), Err(ExecutionError::InvalidCharacter));
    state.set_cell_value(0, 0x10FFFF);
    assert_eq!(state.execute_once(), Ok(ExecutionState::Running));
    assert_eq!(state.take_output(), vec!['\u{10FFFF}']);
}

#[test]
fn input_reads_one_byte() {
    let mut state = ExecutorState::new(vec![ExecutorCommand::Input, ExecutorCommand::Input]);
    assert!(state.needs_input());
    state.provide_input(7);
    state.provide_input(9);
    assert!(state.has_input());
    assert!(!state.needs_input());
    assert_eq!(state.execute_once(), Ok(ExecutionState::Running));
    assert_eq!(state.get_cell(0), Some(7));
    assert_eq!(state.execute_once(), Ok(ExecutionState::Running));
    assert_eq!(state.get_cell(0), Some(9));
    assert!(!state.has_input());
}

#[test]
fn input_without_a_byte_fails() {
    let mut state = ExecutorState::new(vec![ExecutorCommand::Input]);
    assert_eq!(state.execute_once(), Err(ExecutionError::InputError));
    assert_eq!(state.get_pc(), 0);
}

#[test]
fn jump_forward_past_the_program_fails() {
    let mut state = ExecutorState::new(vec![ExecutorCommand::Increment]);
    assert_eq!(state.execute_command(ExecutorCommand::JumpForward(2)), Err(ExecutionError::TooFarRight));
}

#[test]
fn injected_command_keeps_the_pc() {
    let mut state = ExecutorState::new(vec![ExecutorCommand::MoveRight, ExecutorCommand::MoveRight]);
    assert_eq!(state.execute_command(ExecutorCommand::Increment), Ok(0));
    assert_eq!(state.get_cell(0), Some(1));
    assert_eq!(state.get_pc(), 0);
}

#[test]
fn injected_command_after_the_end_fails() {
    let mut state = ExecutorState::new(vec![]);
    assert_eq!(
        state.execute_command(ExecutorCommand::Increment),
        Err(ExecutionError::ProgramCounterOutOfRange)
    );
}

#[test]
fn jump_forward_skips_the_loop_on_zero() {
    let (state, r) = run("[+]+");
    assert_eq!(r, Ok(ExecutionState::Finished));
    assert_eq!(state.get_cell(0), Some(1));
    assert_eq!(state.get_pc(), 4);
}

#[test]
fn setters_check_their_index() {
    let mut state = ExecutorState::new(vec![ExecutorCommand::MoveRight]);
    assert!(state.validate_command_index(0));
    assert!(!state.validate_command_index(1));
    assert!(state.validate_cell_index(0));
    assert!(!state.validate_cell_index(1));
    assert!(!state.set_pc(1));
    assert!(state.set_pc(0));
    assert!(!state.set_pointer(1));
    assert!(!state.set_cell_value(1, 3));
    state.increment_pc();
    assert_eq!(state.get_pc(), 1);
    state.restore_pc(0);
    assert_eq!(state.get_pc(), 0);
}

#[test]
fn execution_error_messages() {
    assert_eq!(ExecutionError::TooFarLeft.message(), "Index Error: You have gone too far to the left!");
    assert_eq!(
        ExecutionError::Overflow.message(),
        "Overflow Error: The number in the cell has reached its maximum!"
    );
    assert_eq!(ExecutionError::InputError.message(), "IO Error: Unable to get character input!");
}

#[test]
fn forward_jump_past_the_program_fails_as_a_step() {
    let mut state = ExecutorState::new(vec![ExecutorCommand::JumpForward(5)]);
    assert_eq!(state.execute_once(), Err(ExecutionError::TooFarRight));
    assert_eq!(state.get_pc(), 0);
}

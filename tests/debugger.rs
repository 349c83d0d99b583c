use bfdbg::command::{DebuggerCommand, DebuggerCommandParseError};
use bfdbg::debugger::{DebuggerState, DebuggingError, DebuggingState, Report};
use bfdbg::executor::ExecutionError;
use bfdbg::instruction::ExecutorCommand;
use bfdbg::translate::translate_into_commands;

fn session(source: &str) -> DebuggerState {
    let (cmds, bps) = translate_into_commands(source, true).unwrap();
    DebuggerState::new(cmds, bps)
}

fn exec(d: &mut DebuggerState, line: &str) -> Result<Result<DebuggingState, DebuggingError>, DebuggerCommandParseError> {
    d.execute_debugger_command(line.to_string())
}

fn ok(state: DebuggingState) -> Result<Result<DebuggingState, DebuggingError>, DebuggerCommandParseError> {
    Ok(Ok(state))
}

fn current_pc(d: &mut DebuggerState) -> usize {
    d.take_reports();
    assert_eq!(exec(d, "pi"), ok(DebuggingState::Running));
    match d.take_reports().as_slice() {
        [Report::Instruction { index, .. }] => *index,
        other => panic!("unexpected reports {:?}", other),
    }
}

fn cell(d: &mut DebuggerState, index: usize) -> i128 {
    d.take_reports();
    assert_eq!(exec(d, &format!("pc {}", index)), ok(DebuggingState::Running));
    match d.take_reports().as_slice() {
        [Report::Cell { value, .. }] => *value,
        other => panic!("unexpected reports {:?}", other),
    }
}

#[test]
fn blank_line_is_a_no_op() {
    let mut d = session("+>+");
    assert_eq!(exec(&mut d, ""), ok(DebuggingState::Running));
    assert_eq!(exec(&mut d, "   \n"), ok(DebuggingState::Running));
    assert!(d.take_reports().is_empty());
    assert_eq!(current_pc(&mut d), 0);
}

#[test]
fn print_instruction_aliases_agree() {
    let mut a = session("+>+-");
    let mut b = session("+>+-");
    assert_eq!(exec(&mut a, "pi 2"), ok(DebuggingState::Running));
    assert_eq!(exec(&mut b, "print_instruction 2"), ok(DebuggingState::Running));
    let ra = a.take_reports();
    assert_eq!(ra, b.take_reports());
    assert_eq!(
        ra,
        vec![Report::Instruction { index: 2, command: ExecutorCommand::Increment, mark: None, breakpoint: false }]
    );
    assert_eq!(exec(&mut a, "pi 2"), ok(DebuggingState::Running));
    assert_eq!(a.take_reports(), ra);
}

#[test]
fn commands_are_lowercased_and_trimmed() {
    let mut d = session("+>+-");
    assert_eq!(exec(&mut d, "  PI 1\n"), ok(DebuggingState::Running));
    assert_eq!(
        d.take_reports(),
        vec![Report::Instruction { index: 1, command: ExecutorCommand::MoveRight, mark: None, breakpoint: false }]
    );
}

#[test]
fn remarking_moves_the_label() {
    let mut d = session("+++++");
    assert_eq!(exec(&mut d, "m x 1"), ok(DebuggingState::Running));
    assert_eq!(exec(&mut d, "m x 3"), ok(DebuggingState::Running));
    d.take_reports();
    assert_eq!(exec(&mut d, "pi 1"), ok(DebuggingState::Running));
    assert_eq!(exec(&mut d, "pi 3"), ok(DebuggingState::Running));
    assert_eq!(
        d.take_reports(),
        vec![
            Report::Instruction { index: 1, command: ExecutorCommand::Increment, mark: None, breakpoint: false },
            Report::Instruction {
                index: 3,
                command: ExecutorCommand::Increment,
                mark: Some("x".to_string()),
                breakpoint: false,
            },
        ]
    );
    assert_eq!(exec(&mut d, "jm x"), ok(DebuggingState::Running));
    assert_eq!(current_pc(&mut d), 3);
}

#[test]
fn jump_then_jump_back_restores_pc() {
    let mut d = session("++++++++");
    assert_eq!(exec(&mut d, "j 2"), ok(DebuggingState::Running));
    assert_eq!(exec(&mut d, "j 5"), ok(DebuggingState::Running));
    assert_eq!(current_pc(&mut d), 5);
    assert_eq!(exec(&mut d, "jb"), ok(DebuggingState::Running));
    assert_eq!(current_pc(&mut d), 2);
    assert_eq!(exec(&mut d, "jump_back"), ok(DebuggingState::Running));
    assert_eq!(current_pc(&mut d), 0);
    assert_eq!(exec(&mut d, "jb"), Ok(Err(DebuggingError::JumpHistoryEmpty)));
}

#[test]
fn jump_out_of_range_fails() {
    let mut d = session("++");
    assert_eq!(exec(&mut d, "j 2"), Ok(Err(DebuggingError::IndexOutOfBounds)));
    assert_eq!(exec(&mut d, "jc 1"), Ok(Err(DebuggingError::IndexOutOfBounds)));
}

#[test]
fn jump_cell_and_back() {
    let mut d = session(">>");
    assert_eq!(exec(&mut d, "ris >>"), ok(DebuggingState::Running));
    assert_eq!(exec(&mut d, "jc 0"), ok(DebuggingState::Running));
    assert_eq!(exec(&mut d, "ri +"), ok(DebuggingState::Running));
    assert_eq!(exec(&mut d, "jbc"), ok(DebuggingState::Running));
    assert_eq!(exec(&mut d, "ri +"), ok(DebuggingState::Running));
    assert_eq!(cell(&mut d, 0), 1);
    assert_eq!(cell(&mut d, 2), 1);
    assert_eq!(exec(&mut d, "jbc"), Ok(Err(DebuggingError::JumpHistoryEmpty)));
}

#[test]
fn continue_pauses_at_breakpoint() {
    let mut d = session("+++:+++");
    let mut r = exec(&mut d, "ctb").unwrap();
    while r == Ok(DebuggingState::Continuing) {
        r = d.resume();
    }
    assert_eq!(r, Ok(DebuggingState::Paused));
    assert_eq!(current_pc(&mut d), 3);
    assert_eq!(cell(&mut d, 0), 3);
}

#[test]
fn continue_without_breakpoint_finishes() {
    let mut d = session("++[-]");
    let mut r = exec(&mut d, "continue_to_breakpoint").unwrap();
    while r == Ok(DebuggingState::Continuing) {
        r = d.resume();
    }
    assert_eq!(r, Ok(DebuggingState::Finished));
}

#[test]
fn step_runs_one_instruction_and_shows_the_next() {
    let mut d = session("+>");
    assert_eq!(exec(&mut d, "s"), ok(DebuggingState::Running));
    assert_eq!(
        d.take_reports(),
        vec![Report::Instruction { index: 1, command: ExecutorCommand::MoveRight, mark: None, breakpoint: false }]
    );
    assert_eq!(exec(&mut d, "step"), ok(DebuggingState::Running));
    assert_eq!(exec(&mut d, "s"), ok(DebuggingState::Finished));
}

#[test]
fn step_reports_engine_error_and_finishes() {
    let mut d = session("<");
    assert_eq!(exec(&mut d, "s"), ok(DebuggingState::Finished));
    assert_eq!(
        d.take_reports(),
        vec![
            Report::Failure(ExecutionError::TooFarLeft),
            Report::Instruction { index: 0, command: ExecutorCommand::MoveLeft, mark: None, breakpoint: false },
        ]
    );
}

#[test]
fn step_writes_output() {
    let mut d = session(".");
    assert_eq!(exec(&mut d, "sc 104"), ok(DebuggingState::Running));
    assert_eq!(exec(&mut d, "s"), ok(DebuggingState::Running));
    assert_eq!(d.take_reports(), vec![Report::Written('h')]);
}

#[test]
fn step_waits_for_input() {
    let mut d = session(",");
    assert_eq!(exec(&mut d, "s"), ok(DebuggingState::AwaitingInput));
    d.supply_input(Some(66));
    assert_eq!(d.resume(), Ok(DebuggingState::Running));
    assert_eq!(cell(&mut d, 0), 66);
}

#[test]
fn input_after_end_of_input_fails() {
    let mut d = session(",");
    d.supply_input(None);
    assert_eq!(exec(&mut d, "s"), ok(DebuggingState::Finished));
    assert_eq!(d.take_reports()[0], Report::Failure(ExecutionError::InputError));
}

#[test]
fn run_instructions_resume_after_input() {
    let mut d = session("+");
    assert_eq!(exec(&mut d, "ris +,+"), ok(DebuggingState::AwaitingInput));
    d.supply_input(Some(5));
    assert_eq!(d.resume(), Ok(DebuggingState::Running));
    assert_eq!(d.resume(), Ok(DebuggingState::Running));
    assert_eq!(cell(&mut d, 0), 6);
}

#[test]
fn run_instruction_does_not_move_pc() {
    let mut d = session("++");
    assert_eq!(exec(&mut d, "ri -"), ok(DebuggingState::Running));
    assert_eq!(cell(&mut d, 0), -1);
    assert_eq!(current_pc(&mut d), 0);
}

#[test]
fn run_instruction_rejects_brackets() {
    let mut d = session("+");
    assert_eq!(exec(&mut d, "ri ["), Ok(Err(DebuggingError::InvalidInstruction)));
    assert_eq!(exec(&mut d, "ris +x+"), Ok(Err(DebuggingError::InvalidInstruction)));
    assert_eq!(cell(&mut d, 0), 1);
}

#[test]
fn run_instruction_engine_error_ends_session() {
    let mut d = session("+");
    assert_eq!(exec(&mut d, "ri <"), ok(DebuggingState::Finished));
    assert_eq!(d.take_reports(), vec![Report::Failure(ExecutionError::TooFarLeft)]);
    assert_eq!(exec(&mut d, "ris +<+"), ok(DebuggingState::Finished));
    assert_eq!(cell(&mut d, 0), 1);
}

#[test]
fn set_and_print_cell() {
    let mut d = session("+");
    assert_eq!(exec(&mut d, "sc 65"), ok(DebuggingState::Running));
    assert_eq!(exec(&mut d, "mc a"), ok(DebuggingState::Running));
    d.take_reports();
    assert_eq!(exec(&mut d, "pc"), ok(DebuggingState::Running));
    assert_eq!(
        d.take_reports(),
        vec![Report::Cell { index: 0, value: 65, character: Some('A'), mark: Some("a".to_string()) }]
    );
    assert_eq!(exec(&mut d, "smc -1 a"), ok(DebuggingState::Running));
    assert_eq!(exec(&mut d, "print_cell 0"), ok(DebuggingState::Running));
    assert_eq!(
        d.take_reports(),
        vec![Report::Cell { index: 0, value: -1, character: None, mark: Some("a".to_string()) }]
    );
    assert_eq!(exec(&mut d, "smc 1 b"), Ok(Err(DebuggingError::MarkNotFound)));
    assert_eq!(exec(&mut d, "sc 1 1"), Ok(Err(DebuggingError::IndexOutOfBounds)));
    assert_eq!(exec(&mut d, "pc 1"), Ok(Err(DebuggingError::IndexOutOfBounds)));
}

#[test]
fn set_cell_takes_extreme_values() {
    let mut d = session("+");
    assert_eq!(exec(&mut d, "sc -170141183460469231731687303715884105728"), ok(DebuggingState::Running));
    assert_eq!(cell(&mut d, 0), i128::MIN);
    assert_eq!(exec(&mut d, "sc +170141183460469231731687303715884105727"), ok(DebuggingState::Running));
    assert_eq!(cell(&mut d, 0), i128::MAX);
    assert_eq!(
        exec(&mut d, "sc 170141183460469231731687303715884105728"),
        Err(DebuggerCommandParseError::InvalidParameter)
    );
}

#[test]
fn listings_are_clamped() {
    let mut d = session("+-><.,");
    assert_eq!(exec(&mut d, "lli 1 2"), ok(DebuggingState::Running));
    let indices: Vec<usize> = d
        .take_reports()
        .iter()
        .map(|r| match r {
            Report::InstructionEntry { index, .. } => *index,
            other => panic!("unexpected report {:?}", other),
        })
        .collect();
    assert_eq!(indices, vec![1, 2, 3]);
    assert_eq!(exec(&mut d, "li"), ok(DebuggingState::Running));
    assert_eq!(d.take_reports().len(), 6);
    assert_eq!(exec(&mut d, "lli 100 5"), ok(DebuggingState::Running));
    assert_eq!(d.take_reports().len(), 6);
    assert_eq!(exec(&mut d, "li 6"), Ok(Err(DebuggingError::IndexOutOfBounds)));
}

#[test]
fn cell_listings() {
    let mut d = session("+");
    assert_eq!(exec(&mut d, "ris >>>+"), ok(DebuggingState::Running));
    assert_eq!(exec(&mut d, "mc top"), ok(DebuggingState::Running));
    assert_eq!(exec(&mut d, "llmc 1 top"), ok(DebuggingState::Running));
    assert_eq!(
        d.take_reports(),
        vec![
            Report::CellEntry { index: 2, value: 0, mark: None },
            Report::CellEntry { index: 3, value: 1, mark: Some("top".to_string()) },
        ]
    );
    assert_eq!(exec(&mut d, "pac"), ok(DebuggingState::Running));
    assert_eq!(d.take_reports().len(), 4);
    assert_eq!(exec(&mut d, "lc 0"), ok(DebuggingState::Running));
    assert_eq!(d.take_reports().len(), 4);
    assert_eq!(exec(&mut d, "lmc nope"), Ok(Err(DebuggingError::MarkNotFound)));
}

#[test]
fn marked_instruction_listing() {
    let mut d = session("++++++++++++");
    assert_eq!(exec(&mut d, "m mid 6"), ok(DebuggingState::Running));
    assert_eq!(exec(&mut d, "lmi mid"), ok(DebuggingState::Running));
    assert_eq!(d.take_reports().len(), 11);
    assert_eq!(exec(&mut d, "llmi 0 mid"), ok(DebuggingState::Running));
    assert_eq!(
        d.take_reports(),
        vec![Report::InstructionEntry {
            index: 6,
            command: ExecutorCommand::Increment,
            mark: Some("mid".to_string()),
            breakpoint: false,
        }]
    );
    assert_eq!(exec(&mut d, "pai"), ok(DebuggingState::Running));
    assert_eq!(d.take_reports().len(), 12);
    assert_eq!(exec(&mut d, "m far 12"), Ok(Err(DebuggingError::IndexOutOfBounds)));
}

#[test]
fn breakpoints_can_be_set_and_removed() {
    let mut d = session("+++");
    assert_eq!(exec(&mut d, "b 1"), ok(DebuggingState::Running));
    assert_eq!(exec(&mut d, "m two 2"), ok(DebuggingState::Running));
    assert_eq!(exec(&mut d, "bm two"), ok(DebuggingState::Running));
    d.take_reports();
    assert_eq!(exec(&mut d, "pi 2"), ok(DebuggingState::Running));
    assert_eq!(
        d.take_reports(),
        vec![Report::Instruction {
            index: 2,
            command: ExecutorCommand::Increment,
            mark: Some("two".to_string()),
            breakpoint: true,
        }]
    );
    assert_eq!(exec(&mut d, "rb 1"), ok(DebuggingState::Running));
    assert_eq!(exec(&mut d, "rb 1"), Ok(Err(DebuggingError::BreakpointNotFound)));
    assert_eq!(exec(&mut d, "rbm two"), ok(DebuggingState::Running));
    assert_eq!(exec(&mut d, "rbm two"), Ok(Err(DebuggingError::BreakpointNotFound)));
    assert_eq!(exec(&mut d, "bm none"), Ok(Err(DebuggingError::MarkNotFound)));
    assert_eq!(exec(&mut d, "b 3"), Ok(Err(DebuggingError::IndexOutOfBounds)));
}

#[test]
fn quit_finishes() {
    let mut d = session("+");
    assert_eq!(exec(&mut d, "q"), ok(DebuggingState::Finished));
    assert_eq!(exec(&mut d, "quit"), ok(DebuggingState::Finished));
}

#[test]
fn parse_errors_change_nothing() {
    let mut d = session("++");
    assert_eq!(exec(&mut d, "pi x"), Err(DebuggerCommandParseError::InvalidParameter));
    assert_eq!(exec(&mut d, "pi 1 2"), Err(DebuggerCommandParseError::InvalidCommandFormat));
    assert_eq!(exec(&mut d, "frobnicate"), Err(DebuggerCommandParseError::InvalidCommandFormat));
    assert_eq!(exec(&mut d, "pi  1"), Err(DebuggerCommandParseError::InvalidCommandFormat));
    assert_eq!(exec(&mut d, "ri ab"), Err(DebuggerCommandParseError::InvalidParameter));
    assert_eq!(exec(&mut d, "ri é"), Err(DebuggerCommandParseError::InvalidParameter));
    assert_eq!(exec(&mut d, "j"), Err(DebuggerCommandParseError::InvalidCommandFormat));
    assert_eq!(exec(&mut d, "j -1"), Err(DebuggerCommandParseError::InvalidParameter));
    assert_eq!(exec(&mut d, "s now"), Err(DebuggerCommandParseError::InvalidCommandFormat));
    assert!(d.take_reports().is_empty());
    assert_eq!(current_pc(&mut d), 0);
}

#[test]
fn parser_builds_commands() {
    assert_eq!(DebuggerCommand::try_from_line("lli 3"), Ok(DebuggerCommand::LongListInstruction(3, None)));
    assert_eq!(
        DebuggerCommand::try_from_line("MARK Loop 4"),
        Ok(DebuggerCommand::Mark("loop".to_string(), Some(4)))
    );
    assert_eq!(DebuggerCommand::try_from_line("sc +7 2"), Ok(DebuggerCommand::SetCell(7, Some(2))));
    assert_eq!(DebuggerCommand::try_from_line("ri ,"), Ok(DebuggerCommand::RunInstruction(',')));
    assert_eq!(DebuggerCommand::try_from_line("\t"), Ok(DebuggerCommand::NoOp));
    assert_eq!(DebuggerCommand::from_lowered("jbc"), Ok(DebuggerCommand::JumpBackCell));
    assert_eq!(
        DebuggerCommand::from_lowered("ctb"),
        Ok(DebuggerCommand::ContinueToBreakpoint)
    );
}

#[test]
fn error_messages() {
    assert_eq!(DebuggingError::IndexOutOfBounds.message(), "The index is out of bounds!");
    assert_eq!(DebuggingError::JumpHistoryEmpty.message(), "There is no jump back destination!");
    assert_eq!(DebuggerCommandParseError::InvalidParameter.message(), "Invalid parameter!");
    assert_eq!(DebuggerCommandParseError::InvalidCommandFormat.message(), "Invalid command format!");
}

#[test]
fn marking_a_labelled_index_evicts_the_old_name() {
    let mut d = session("+++");
    assert_eq!(exec(&mut d, "m old 1"), ok(DebuggingState::Running));
    assert_eq!(exec(&mut d, "m new 1"), ok(DebuggingState::Running));
    assert_eq!(exec(&mut d, "jm old"), Ok(Err(DebuggingError::MarkNotFound)));
    assert_eq!(exec(&mut d, "jm new"), ok(DebuggingState::Running));
    assert_eq!(current_pc(&mut d), 1);
    assert_eq!(exec(&mut d, "pi 1"), ok(DebuggingState::Running));
    assert_eq!(
        d.take_reports(),
        vec![Report::Instruction {
            index: 1,
            command: ExecutorCommand::Increment,
            mark: Some("new".to_string()),
            breakpoint: false,
        }]
    );
}

#[test]
fn handlers_can_be_called_directly() {
    let mut d = session("++++++");
    assert_eq!(d.mark("x".to_string(), Some(1)), Ok(DebuggingState::Running));
    assert_eq!(d.mark("x".to_string(), Some(4)), Ok(DebuggingState::Running));
    assert_eq!(d.print_instruction(Some(1)), Ok(DebuggingState::Running));
    assert_eq!(d.jump(5), Ok(DebuggingState::Running));
    assert_eq!(d.jump_back(), Ok(DebuggingState::Running));
    assert_eq!(
        d.take_reports(),
        vec![Report::Instruction { index: 1, command: ExecutorCommand::Increment, mark: None, breakpoint: false }]
    );
    assert_eq!(current_pc(&mut d), 0);
    assert_eq!(d.jump_back(), Err(DebuggingError::JumpHistoryEmpty));
}

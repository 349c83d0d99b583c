use bfdbg::instruction::ExecutorCommand;
use bfdbg::translate::{translate_into_commands, SyntaxError};

#[test]
fn unmatched_close_bracket() {
    assert_eq!(translate_into_commands("]", false), Err(SyntaxError::UnmatchedCloseBracket));
}

#[test]
fn unmatched_open_bracket() {
    assert_eq!(translate_into_commands("[", false), Err(SyntaxError::UnmatchedOpenBracket));
}

#[test]
fn close_before_open_is_unmatched_close() {
    assert_eq!(translate_into_commands("][", false), Err(SyntaxError::UnmatchedCloseBracket));
}

#[test]
fn empty_source_is_empty_program() {
    assert_eq!(translate_into_commands("", false), Ok((vec![], vec![])));
}

#[test]
fn comments_are_skipped() {
    let (cmds, bps) = translate_into_commands("a+ b-\n>x<.,", false).unwrap();
    assert_eq!(
        cmds,
        vec![
            ExecutorCommand::Increment,
            ExecutorCommand::Decrement,
            ExecutorCommand::MoveRight,
            ExecutorCommand::MoveLeft,
            ExecutorCommand::Output,
            ExecutorCommand::Input,
        ]
    );
    assert!(bps.is_empty());
}

#[test]
fn nested_jumps_are_paired() {
    let (cmds, _) = translate_into_commands("+[>[-]<-]", false).unwrap();
    assert_eq!(
        cmds,
        vec![
            ExecutorCommand::Increment,
            ExecutorCommand::JumpForward(8),
            ExecutorCommand::MoveRight,
            ExecutorCommand::JumpForward(5),
            ExecutorCommand::Decrement,
            ExecutorCommand::JumpBack(3),
            ExecutorCommand::MoveLeft,
            ExecutorCommand::Decrement,
            ExecutorCommand::JumpBack(1),
        ]
    );
}

#[test]
fn every_jump_targets_its_partner() {
    let (cmds, _) = translate_into_commands("[[]][[[]]][]", false).unwrap();
    for (i, c) in cmds.iter().enumerate() {
        match c {
            ExecutorCommand::JumpForward(t) => assert_eq!(cmds[*t], ExecutorCommand::JumpBack(i)),
            ExecutorCommand::JumpBack(t) => assert_eq!(cmds[*t], ExecutorCommand::JumpForward(i)),
            _ => {}
        }
    }
}

#[test]
fn breakpoints_in_debug_mode() {
    let (cmds, bps) = translate_into_commands(":+:+:+:", true).unwrap();
    assert_eq!(cmds.len(), 3);
    assert_eq!(bps, vec![0, 1, 2, 3]);
}

#[test]
fn colon_is_a_comment_outside_debug_mode() {
    let (cmds, bps) = translate_into_commands("+:+", false).unwrap();
    assert_eq!(cmds.len(), 2);
    assert!(bps.is_empty());
}

#[test]
fn syntax_error_messages() {
    assert!(SyntaxError::UnmatchedCloseBracket.message().contains("more ']'s than '['s"));
    assert!(SyntaxError::UnmatchedOpenBracket.message().contains("more '['s than ']'s"));
}

#[test]
fn jumps_fit_the_machine() {
    let (cmds, _) = translate_into_commands("[[]]", false).unwrap();
    assert!(bfdbg::translate::back_jumps_fit_in(&cmds));
    assert!(!bfdbg::translate::back_jumps_fit_in(&vec![ExecutorCommand::JumpBack(usize::MAX)]));
}

use vstd::prelude::*;

verus! {

/// One instruction of the tape machine. Jump instructions carry the resolved index of
/// their matching partner.
#[derive(Clone, Copy, Debug, PartialEq, Eq, Structural)]
pub enum ExecutorCommand {
    MoveRight,
    MoveLeft,
    Increment,
    Decrement,
    Output,
    Input,
    JumpForward(usize),
    JumpBack(usize),
}

/// The name the instruction type also goes by.
pub type Command = ExecutorCommand;

impl ExecutorCommand {
    /// The source character that produces this kind of instruction.
    pub open spec fn symbol(self) -> char {
        match self {
            ExecutorCommand::MoveRight => '>',
            ExecutorCommand::MoveLeft => '<',
            ExecutorCommand::Increment => '+',
            ExecutorCommand::Decrement => '-',
            ExecutorCommand::Output => '.',
            ExecutorCommand::Input => ',',
            ExecutorCommand::JumpForward(_) => '[',
            ExecutorCommand::JumpBack(_) => ']',
        }
    }
}

} // verus!

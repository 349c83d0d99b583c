use vstd::prelude::*;

use crate::text::{
    i128_of, is_either, is_single_byte, lower_of, lowercase, parse_i128, parse_usize,
    split_on_spaces, split_spaces, trim, trimmed, usize_of, views, is_white_space,
    lemma_blank_trims_to_empty,
};

verus! {

/// Why a line of text is not a debugger command.
#[derive(Clone, Copy, Debug, PartialEq, Eq, Structural)]
pub enum DebuggerCommandParseError {
    /// A parameter does not read as the type that the command expects.
    InvalidParameter,
    /// The verb is unknown, or the number of parameters is wrong.
    InvalidCommandFormat,
}

impl DebuggerCommandParseError {
    /// The text shown to the operator.
    pub fn message(&self) -> (r: &'static str) {
        match self {
            DebuggerCommandParseError::InvalidParameter => "Invalid parameter!",
            DebuggerCommandParseError::InvalidCommandFormat => "Invalid command format!",
        }
    }
}

/// A signed integer parameter at token `i`; what follows is left to the next parameter.
pub open spec fn int_at(t: Seq<Seq<char>>, i: int) -> Result<i128, DebuggerCommandParseError> {
    if i >= t.len() {
        Err(DebuggerCommandParseError::InvalidCommandFormat)
    } else {
        match i128_of(t[i]) {
            Some(v) => Ok(v),
            None => Err(DebuggerCommandParseError::InvalidParameter),
        }
    }
}

/// An unsigned integer parameter at token `i`; when `last`, no token may follow it.
pub open spec fn usize_at(t: Seq<Seq<char>>, i: int, last: bool) -> Result<
    usize,
    DebuggerCommandParseError,
> {
    if i >= t.len() || (last && i + 1 < t.len()) {
        Err(DebuggerCommandParseError::InvalidCommandFormat)
    } else {
        match usize_of(t[i]) {
            Some(v) => Ok(v),
            None => Err(DebuggerCommandParseError::InvalidParameter),
        }
    }
}

/// A bare string parameter at token `i`; when `last`, no token may follow it.
pub open spec fn string_at(t: Seq<Seq<char>>, i: int, last: bool) -> Result<
    Seq<char>,
    DebuggerCommandParseError,
> {
    if i >= t.len() || (last && i + 1 < t.len()) {
        Err(DebuggerCommandParseError::InvalidCommandFormat)
    } else {
        Ok(t[i])
    }
}

/// A one-byte character parameter at token `i`, the last token.
pub open spec fn char_at(t: Seq<Seq<char>>, i: int) -> Result<char, DebuggerCommandParseError> {
    if i >= t.len() || i + 1 < t.len() {
        Err(DebuggerCommandParseError::InvalidCommandFormat)
    } else if is_single_byte(t[i]) {
        Ok(t[i][0])
    } else {
        Err(DebuggerCommandParseError::InvalidParameter)
    }
}

/// An optional unsigned integer parameter at token `i`, the last token if present.
pub open spec fn optional_usize_at(t: Seq<Seq<char>>, i: int) -> Result<
    Option<usize>,
    DebuggerCommandParseError,
> {
    if i >= t.len() {
        Ok(None)
    } else if i + 1 < t.len() {
        Err(DebuggerCommandParseError::InvalidCommandFormat)
    } else {
        match usize_of(t[i]) {
            Some(v) => Ok(Some(v)),
            None => Err(DebuggerCommandParseError::InvalidParameter),
        }
    }
}

pub open spec fn parsed_view(r: Result<DebuggerCommand, DebuggerCommandParseError>) -> Result<
    CommandView,
    DebuggerCommandParseError,
> {
    match r {
        Ok(c) => Ok(c@),
        Err(e) => Err(e),
    }
}

/// The command that a line of text denotes, where `lowered` is what lowercasing the
/// trimmed line gives.
pub open spec fn line_command(lowered: Seq<char>) -> Result<CommandView, DebuggerCommandParseError> {
    command_spec(split_spaces(lowered))
}

fn parse_int_value(t: &Vec<String>, at: usize) -> (r: Result<i128, DebuggerCommandParseError>)
    ensures
        r == int_at(views(t@), at as int),
{
    if at >= t.len() {
        Err(DebuggerCommandParseError::InvalidCommandFormat)
    } else {
        match parse_i128(t[at].as_str()) {
            Some(v) => Ok(v),
            None => Err(DebuggerCommandParseError::InvalidParameter),
        }
    }
}

fn parse_usize_value(t: &Vec<String>, at: usize, last: bool) -> (r: Result<
    usize,
    DebuggerCommandParseError,
>)
    ensures
        r == usize_at(views(t@), at as int, last),
{
    if at >= t.len() || (last && at + 1 < t.len()) {
        Err(DebuggerCommandParseError::InvalidCommandFormat)
    } else {
        match parse_usize(t[at].as_str()) {
            Some(v) => Ok(v),
            None => Err(DebuggerCommandParseError::InvalidParameter),
        }
    }
}

fn parse_string_value(t: &Vec<String>, at: usize, last: bool) -> (r: Result<
    String,
    DebuggerCommandParseError,
>)
    ensures
        match r {
            Ok(s) => string_at(views(t@), at as int, last) == Ok::<Seq<char>, DebuggerCommandParseError>(s@),
            Err(e) => string_at(views(t@), at as int, last) == Err::<Seq<char>, DebuggerCommandParseError>(e),
        },
{
    if at >= t.len() || (last && at + 1 < t.len()) {
        Err(DebuggerCommandParseError::InvalidCommandFormat)
    } else {
        Ok(t[at].clone())
    }
}

fn parse_char_value(t: &Vec<String>, at: usize) -> (r: Result<char, DebuggerCommandParseError>)
    ensures
        r == char_at(views(t@), at as int),
{
    if at >= t.len() || at + 1 < t.len() {
        Err(DebuggerCommandParseError::InvalidCommandFormat)
    } else {
        let s = t[at].as_str();
        if s.unicode_len() == 1 && (s.get_char(0) as u32) < 128 {
            Ok(s.get_char(0))
        } else {
            Err(DebuggerCommandParseError::InvalidParameter)
        }
    }
}

fn parse_optional_usize(t: &Vec<String>, at: usize) -> (r: Result<
    Option<usize>,
    DebuggerCommandParseError,
>)
    ensures
        r == optional_usize_at(views(t@), at as int),
{
    if at >= t.len() {
        Ok(None)
    } else if at + 1 < t.len() {
        Err(DebuggerCommandParseError::InvalidCommandFormat)
    } else {
        match parse_usize(t[at].as_str()) {
            Some(v) => Ok(Some(v)),
            None => Err(DebuggerCommandParseError::InvalidParameter),
        }
    }
}

/// A command of the debugger, as parsed from one line of text.
#[derive(Clone, Debug, PartialEq, Eq)]
pub enum DebuggerCommand {
    /// A no-op command that does not do anything.
    NoOp,
    /// Prints the instruction at an index; without one, at the program counter.
    PrintInstruction(Option<usize>),
    /// Prints the cell at an index; without one, at the data pointer.
    PrintCell(Option<usize>),
    /// Prints every instruction of the program.
    PrintAllInstructions,
    /// Prints every cell of the tape.
    PrintAllCells,
    /// Lists the instructions within five places of an index (default: the program counter).
    ListInstruction(Option<usize>),
    /// Lists the instructions within `n` places of an index (default: the program counter).
    LongListInstruction(usize, Option<usize>),
    /// Lists the instructions within five places of a marked instruction.
    ListMarkedInstruction(String),
    /// Lists the instructions within `n` places of a marked instruction.
    LongListMarkedInstruction(usize, String),
    /// Lists the cells within five places of an index (default: the data pointer).
    ListCell(Option<usize>),
    /// Lists the cells within `n` places of an index (default: the data pointer).
    LongListCell(usize, Option<usize>),
    /// Lists the cells within five places of a marked cell.
    ListMarkedCell(String),
    /// Lists the cells within `n` places of a marked cell.
    LongListMarkedCell(usize, String),
    /// Sets the value of the cell at an index (default: the data pointer).
    SetCell(i128, Option<usize>),
    /// Sets the value of a marked cell.
    SetMarkedCell(i128, String),
    /// Runs one of the six instructions other than the brackets.
    RunInstruction(char),
    /// Runs a sequence of the six instructions other than the brackets.
    RunInstructions(String),
    /// Names an instruction by its index (default: the program counter).
    Mark(String, Option<usize>),
    /// Names a cell by its index (default: the data pointer).
    MarkCell(String, Option<usize>),
    /// Sets the program counter to an index.
    Jump(usize),
    /// Sets the program counter to a marked instruction.
    JumpMark(String),
    /// Sets the data pointer to an index.
    JumpCell(usize),
    /// Sets the data pointer to a marked cell.
    JumpMarkedCell(String),
    /// Restores the program counter from before the last jump.
    JumpBack,
    /// Restores the data pointer from before the last cell jump.
    JumpBackCell,
    /// Sets a breakpoint at an index (default: the program counter).
    Breakpoint(Option<usize>),
    /// Sets a breakpoint at a marked instruction.
    BreakpointMark(String),
    /// Removes the breakpoint at an index (default: the program counter).
    RemoveBreakpoint(Option<usize>),
    /// Removes the breakpoint at a marked instruction.
    RemoveBreakpointMark(String),
    /// Runs the next instruction of the program.
    Step,
    /// Runs until the program counter reaches a breakpoint.
    ContinueToBreakpoint,
    /// Quits the debugger.
    Quit,
}

/// A debugger command with its strings seen as sequences of characters.
pub enum CommandView {
    NoOp,
    PrintInstruction(Option<usize>),
    PrintCell(Option<usize>),
    PrintAllInstructions,
    PrintAllCells,
    ListInstruction(Option<usize>),
    LongListInstruction(usize, Option<usize>),
    ListMarkedInstruction(Seq<char>),
    LongListMarkedInstruction(usize, Seq<char>),
    ListCell(Option<usize>),
    LongListCell(usize, Option<usize>),
    ListMarkedCell(Seq<char>),
    LongListMarkedCell(usize, Seq<char>),
    SetCell(i128, Option<usize>),
    SetMarkedCell(i128, Seq<char>),
    RunInstruction(char),
    RunInstructions(Seq<char>),
    Mark(Seq<char>, Option<usize>),
    MarkCell(Seq<char>, Option<usize>),
    Jump(usize),
    JumpMark(Seq<char>),
    JumpCell(usize),
    JumpMarkedCell(Seq<char>),
    JumpBack,
    JumpBackCell,
    Breakpoint(Option<usize>),
    BreakpointMark(Seq<char>),
    RemoveBreakpoint(Option<usize>),
    RemoveBreakpointMark(Seq<char>),
    Step,
    ContinueToBreakpoint,
    Quit,
}

impl View for DebuggerCommand {
    type V = CommandView;

    open spec fn view(&self) -> CommandView {
        match self {
            DebuggerCommand::NoOp => CommandView::NoOp,
            DebuggerCommand::PrintInstruction(x0) => CommandView::PrintInstruction(*x0),
            DebuggerCommand::PrintCell(x0) => CommandView::PrintCell(*x0),
            DebuggerCommand::PrintAllInstructions => CommandView::PrintAllInstructions,
            DebuggerCommand::PrintAllCells => CommandView::PrintAllCells,
            DebuggerCommand::ListInstruction(x0) => CommandView::ListInstruction(*x0),
            DebuggerCommand::LongListInstruction(x0, x1) => CommandView::LongListInstruction(*x0, *x1),
            DebuggerCommand::ListMarkedInstruction(x0) => CommandView::ListMarkedInstruction(x0@),
            DebuggerCommand::LongListMarkedInstruction(x0, x1) => CommandView::LongListMarkedInstruction(*x0, x1@),
            DebuggerCommand::ListCell(x0) => CommandView::ListCell(*x0),
            DebuggerCommand::LongListCell(x0, x1) => CommandView::LongListCell(*x0, *x1),
            DebuggerCommand::ListMarkedCell(x0) => CommandView::ListMarkedCell(x0@),
            DebuggerCommand::LongListMarkedCell(x0, x1) => CommandView::LongListMarkedCell(*x0, x1@),
            DebuggerCommand::SetCell(x0, x1) => CommandView::SetCell(*x0, *x1),
            DebuggerCommand::SetMarkedCell(x0, x1) => CommandView::SetMarkedCell(*x0, x1@),
            DebuggerCommand::RunInstruction(x0) => CommandView::RunInstruction(*x0),
            DebuggerCommand::RunInstructions(x0) => CommandView::RunInstructions(x0@),
            DebuggerCommand::Mark(x0, x1) => CommandView::Mark(x0@, *x1),
            DebuggerCommand::MarkCell(x0, x1) => CommandView::MarkCell(x0@, *x1),
            DebuggerCommand::Jump(x0) => CommandView::Jump(*x0),
            DebuggerCommand::JumpMark(x0) => CommandView::JumpMark(x0@),
            DebuggerCommand::JumpCell(x0) => CommandView::JumpCell(*x0),
            DebuggerCommand::JumpMarkedCell(x0) => CommandView::JumpMarkedCell(x0@),
            DebuggerCommand::JumpBack => CommandView::JumpBack,
            DebuggerCommand::JumpBackCell => CommandView::JumpBackCell,
            DebuggerCommand::Breakpoint(x0) => CommandView::Breakpoint(*x0),
            DebuggerCommand::BreakpointMark(x0) => CommandView::BreakpointMark(x0@),
            DebuggerCommand::RemoveBreakpoint(x0) => CommandView::RemoveBreakpoint(*x0),
            DebuggerCommand::RemoveBreakpointMark(x0) => CommandView::RemoveBreakpointMark(x0@),
            DebuggerCommand::Step => CommandView::Step,
            DebuggerCommand::ContinueToBreakpoint => CommandView::ContinueToBreakpoint,
            DebuggerCommand::Quit => CommandView::Quit,
        }
    }
}

/// The command that the tokens `t` of a line spell, or why they spell none.
pub open spec fn command_spec(t: Seq<Seq<char>>) -> Result<CommandView, DebuggerCommandParseError> {
    if t.len() == 0 {
        Ok(CommandView::NoOp)
    } else {
        let v = t[0];
        if v.len() == 0 {
            Ok(CommandView::NoOp)
        } else if v == "pi"@ || v == "print_instruction"@ {
            match optional_usize_at(t, 1) {
                Err(e) => Err(e),
                Ok(x0) => {
                    Ok(CommandView::PrintInstruction(x0))
                },
            }
        } else if v == "pc"@ || v == "print_cell"@ {
            match optional_usize_at(t, 1) {
                Err(e) => Err(e),
                Ok(x0) => {
                    Ok(CommandView::PrintCell(x0))
                },
            }
        } else if v == "pai"@ || v == "print_all_instructions"@ {
            if t.len() > 1 {
                Err(DebuggerCommandParseError::InvalidCommandFormat)
            } else {
                Ok(CommandView::PrintAllInstructions)
            }
        } else if v == "pac"@ || v == "print_all_cells"@ {
            if t.len() > 1 {
                Err(DebuggerCommandParseError::InvalidCommandFormat)
            } else {
                Ok(CommandView::PrintAllCells)
            }
        } else if v == "li"@ || v == "list_instruction"@ {
            match optional_usize_at(t, 1) {
                Err(e) => Err(e),
                Ok(x0) => {
                    Ok(CommandView::ListInstruction(x0))
                },
            }
        } else if v == "lli"@ || v == "long_list_instruction"@ {
            match usize_at(t, 1, false) {
                Err(e) => Err(e),
                Ok(x0) => {
                    match optional_usize_at(t, 2) {
                        Err(e) => Err(e),
                        Ok(x1) => {
                            Ok(CommandView::LongListInstruction(x0, x1))
                        },
                    }
                },
            }
        } else if v == "lmi"@ || v == "list_marked_instruction"@ {
            match string_at(t, 1, true) {
                Err(e) => Err(e),
                Ok(x0) => {
                    Ok(CommandView::ListMarkedInstruction(x0))
                },
            }
        } else if v == "llmi"@ || v == "long_list_marked_instruction"@ {
            match usize_at(t, 1, false) {
                Err(e) => Err(e),
                Ok(x0) => {
                    match string_at(t, 2, true) {
                        Err(e) => Err(e),
                        Ok(x1) => {
                            Ok(CommandView::LongListMarkedInstruction(x0, x1))
                        },
                    }
                },
            }
        } else if v == "lc"@ || v == "list_cell"@ {
            match optional_usize_at(t, 1) {
                Err(e) => Err(e),
                Ok(x0) => {
                    Ok(CommandView::ListCell(x0))
                },
            }
        } else if v == "llc"@ || v == "long_list_cell"@ {
            match usize_at(t, 1, false) {
                Err(e) => Err(e),
                Ok(x0) => {
                    match optional_usize_at(t, 2) {
                        Err(e) => Err(e),
                        Ok(x1) => {
                            Ok(CommandView::LongListCell(x0, x1))
                        },
                    }
                },
            }
        } else if v == "lmc"@ || v == "list_marked_cell"@ {
            match string_at(t, 1, true) {
                Err(e) => Err(e),
                Ok(x0) => {
                    Ok(CommandView::ListMarkedCell(x0))
                },
            }
        } else if v == "llmc"@ || v == "long_list_marked_cell"@ {
            match usize_at(t, 1, false) {
                Err(e) => Err(e),
                Ok(x0) => {
                    match string_at(t, 2, true) {
                        Err(e) => Err(e),
                        Ok(x1) => {
                            Ok(CommandView::LongListMarkedCell(x0, x1))
                        },
                    }
                },
            }
        } else if v == "sc"@ || v == "set_cell"@ {
            match int_at(t, 1) {
                Err(e) => Err(e),
                Ok(x0) => {
                    match optional_usize_at(t, 2) {
                        Err(e) => Err(e),
                        Ok(x1) => {
                            Ok(CommandView::SetCell(x0, x1))
                        },
                    }
                },
            }
        } else if v == "smc"@ || v == "set_marked_cell"@ {
            match int_at(t, 1) {
                Err(e) => Err(e),
                Ok(x0) => {
                    match string_at(t, 2, true) {
                        Err(e) => Err(e),
                        Ok(x1) => {
                            Ok(CommandView::SetMarkedCell(x0, x1))
                        },
                    }
                },
            }
        } else if v == "ri"@ || v == "run_instruction"@ {
            match char_at(t, 1) {
                Err(e) => Err(e),
                Ok(x0) => {
                    Ok(CommandView::RunInstruction(x0))
                },
            }
        } else if v == "ris"@ || v == "run_instructions"@ {
            match string_at(t, 1, true) {
                Err(e) => Err(e),
                Ok(x0) => {
                    Ok(CommandView::RunInstructions(x0))
                },
            }
        } else if v == "m"@ || v == "mark"@ {
            match string_at(t, 1, false) {
                Err(e) => Err(e),
                Ok(x0) => {
                    match optional_usize_at(t, 2) {
                        Err(e) => Err(e),
                        Ok(x1) => {
                            Ok(CommandView::Mark(x0, x1))
                        },
                    }
                },
            }
        } else if v == "mc"@ || v == "mark_cell"@ {
            match string_at(t, 1, false) {
                Err(e) => Err(e),
                Ok(x0) => {
                    match optional_usize_at(t, 2) {
                        Err(e) => Err(e),
                        Ok(x1) => {
                            Ok(CommandView::MarkCell(x0, x1))
                        },
                    }
                },
            }
        } else if v == "j"@ || v == "jump"@ {
            match usize_at(t, 1, true) {
                Err(e) => Err(e),
                Ok(x0) => {
                    Ok(CommandView::Jump(x0))
                },
            }
        } else if v == "jm"@ || v == "jump_mark"@ {
            match string_at(t, 1, true) {
                Err(e) => Err(e),
                Ok(x0) => {
                    Ok(CommandView::JumpMark(x0))
                },
            }
        } else if v == "jc"@ || v == "jump_cell"@ {
            match usize_at(t, 1, true) {
                Err(e) => Err(e),
                Ok(x0) => {
                    Ok(CommandView::JumpCell(x0))
                },
            }
        } else if v == "jmc"@ || v == "jump_marked_cell"@ {
            match string_at(t, 1, true) {
                Err(e) => Err(e),
                Ok(x0) => {
                    Ok(CommandView::JumpMarkedCell(x0))
                },
            }
        } else if v == "jb"@ || v == "jump_back"@ {
            if t.len() > 1 {
                Err(DebuggerCommandParseError::InvalidCommandFormat)
            } else {
                Ok(CommandView::JumpBack)
            }
        } else if v == "jbc"@ || v == "jump_back_cell"@ {
            if t.len() > 1 {
                Err(DebuggerCommandParseError::InvalidCommandFormat)
            } else {
                Ok(CommandView::JumpBackCell)
            }
        } else if v == "b"@ || v == "breakpoint"@ {
            match optional_usize_at(t, 1) {
                Err(e) => Err(e),
                Ok(x0) => {
                    Ok(CommandView::Breakpoint(x0))
                },
            }
        } else if v == "bm"@ || v == "breakpoint_mark"@ {
            match string_at(t, 1, true) {
                Err(e) => Err(e),
                Ok(x0) => {
                    Ok(CommandView::BreakpointMark(x0))
                },
            }
        } else if v == "rb"@ || v == "remove_breakpoint"@ {
            match optional_usize_at(t, 1) {
                Err(e) => Err(e),
                Ok(x0) => {
                    Ok(CommandView::RemoveBreakpoint(x0))
                },
            }
        } else if v == "rbm"@ || v == "remove_breakpoint_mark"@ {
            match string_at(t, 1, true) {
                Err(e) => Err(e),
                Ok(x0) => {
                    Ok(CommandView::RemoveBreakpointMark(x0))
                },
            }
        } else if v == "s"@ || v == "step"@ {
            if t.len() > 1 {
                Err(DebuggerCommandParseError::InvalidCommandFormat)
            } else {
                Ok(CommandView::Step)
            }
        } else if v == "ctb"@ || v == "continue_to_breakpoint"@ {
            if t.len() > 1 {
                Err(DebuggerCommandParseError::InvalidCommandFormat)
            } else {
                Ok(CommandView::ContinueToBreakpoint)
            }
        } else if v == "q"@ || v == "quit"@ {
            if t.len() > 1 {
                Err(DebuggerCommandParseError::InvalidCommandFormat)
            } else {
                Ok(CommandView::Quit)
            }
        } else {
            Err(DebuggerCommandParseError::InvalidCommandFormat)
        }
    }
}

impl DebuggerCommand {
    /// Parses the tokens of a line that was already trimmed and lowercased.
    pub fn from_tokens(t: &Vec<String>) -> (r: Result<DebuggerCommand, DebuggerCommandParseError>)
        ensures
            parsed_view(r) == command_spec(views(t@)),
    {
        if t.len() == 0 {
            return Ok(DebuggerCommand::NoOp);
        }
        let v = &t[0];
        if v.as_str().unicode_len() == 0 {
            Ok(DebuggerCommand::NoOp)
        } else if is_either(v, "pi", "print_instruction") {
            match parse_optional_usize(t, 1) {
                Err(e) => Err(e),
                Ok(x0) => {
                    Ok(DebuggerCommand::PrintInstruction(x0))
                },
            }
        } else if is_either(v, "pc", "print_cell") {
            match parse_optional_usize(t, 1) {
                Err(e) => Err(e),
                Ok(x0) => {
                    Ok(DebuggerCommand::PrintCell(x0))
                },
            }
        } else if is_either(v, "pai", "print_all_instructions") {
            if t.len() > 1 {
                Err(DebuggerCommandParseError::InvalidCommandFormat)
            } else {
                Ok(DebuggerCommand::PrintAllInstructions)
            }
        } else if is_either(v, "pac", "print_all_cells") {
            if t.len() > 1 {
                Err(DebuggerCommandParseError::InvalidCommandFormat)
            } else {
                Ok(DebuggerCommand::PrintAllCells)
            }
        } else if is_either(v, "li", "list_instruction") {
            match parse_optional_usize(t, 1) {
                Err(e) => Err(e),
                Ok(x0) => {
                    Ok(DebuggerCommand::ListInstruction(x0))
                },
            }
        } else if is_either(v, "lli", "long_list_instruction") {
            match parse_usize_value(t, 1, false) {
                Err(e) => Err(e),
                Ok(x0) => {
                    match parse_optional_usize(t, 2) {
                        Err(e) => Err(e),
                        Ok(x1) => {
                            Ok(DebuggerCommand::LongListInstruction(x0, x1))
                        },
                    }
                },
            }
        } else if is_either(v, "lmi", "list_marked_instruction") {
            match parse_string_value(t, 1, true) {
                Err(e) => Err(e),
                Ok(x0) => {
                    Ok(DebuggerCommand::ListMarkedInstruction(x0))
                },
            }
        } else if is_either(v, "llmi", "long_list_marked_instruction") {
            match parse_usize_value(t, 1, false) {
                Err(e) => Err(e),
                Ok(x0) => {
                    match parse_string_value(t, 2, true) {
                        Err(e) => Err(e),
                        Ok(x1) => {
                            Ok(DebuggerCommand::LongListMarkedInstruction(x0, x1))
                        },
                    }
                },
            }
        } else if is_either(v, "lc", "list_cell") {
            match parse_optional_usize(t, 1) {
                Err(e) => Err(e),
                Ok(x0) => {
                    Ok(DebuggerCommand::ListCell(x0))
                },
            }
        } else if is_either(v, "llc", "long_list_cell") {
            match parse_usize_value(t, 1, false) {
                Err(e) => Err(e),
                Ok(x0) => {
                    match parse_optional_usize(t, 2) {
                        Err(e) => Err(e),
                        Ok(x1) => {
                            Ok(DebuggerCommand::LongListCell(x0, x1))
                        },
                    }
                },
            }
        } else if is_either(v, "lmc", "list_marked_cell") {
            match parse_string_value(t, 1, true) {
                Err(e) => Err(e),
                Ok(x0) => {
                    Ok(DebuggerCommand::ListMarkedCell(x0))
                },
            }
        } else if is_either(v, "llmc", "long_list_marked_cell") {
            match parse_usize_value(t, 1, false) {
                Err(e) => Err(e),
                Ok(x0) => {
                    match parse_string_value(t, 2, true) {
                        Err(e) => Err(e),
                        Ok(x1) => {
                            Ok(DebuggerCommand::LongListMarkedCell(x0, x1))
                        },
                    }
                },
            }
        } else if is_either(v, "sc", "set_cell") {
            match parse_int_value(t, 1) {
                Err(e) => Err(e),
                Ok(x0) => {
                    match parse_optional_usize(t, 2) {
                        Err(e) => Err(e),
                        Ok(x1) => {
                            Ok(DebuggerCommand::SetCell(x0, x1))
                        },
                    }
                },
            }
        } else if is_either(v, "smc", "set_marked_cell") {
            match parse_int_value(t, 1) {
                Err(e) => Err(e),
                Ok(x0) => {
                    match parse_string_value(t, 2, true) {
                        Err(e) => Err(e),
                        Ok(x1) => {
                            Ok(DebuggerCommand::SetMarkedCell(x0, x1))
                        },
                    }
                },
            }
        } else if is_either(v, "ri", "run_instruction") {
            match parse_char_value(t, 1) {
                Err(e) => Err(e),
                Ok(x0) => {
                    Ok(DebuggerCommand::RunInstruction(x0))
                },
            }
        } else if is_either(v, "ris", "run_instructions") {
            match parse_string_value(t, 1, true) {
                Err(e) => Err(e),
                Ok(x0) => {
                    Ok(DebuggerCommand::RunInstructions(x0))
                },
            }
        } else if is_either(v, "m", "mark") {
            match parse_string_value(t, 1, false) {
                Err(e) => Err(e),
                Ok(x0) => {
                    match parse_optional_usize(t, 2) {
                        Err(e) => Err(e),
                        Ok(x1) => {
                            Ok(DebuggerCommand::Mark(x0, x1))
                        },
                    }
                },
            }
        } else if is_either(v, "mc", "mark_cell") {
            match parse_string_value(t, 1, false) {
                Err(e) => Err(e),
                Ok(x0) => {
                    match parse_optional_usize(t, 2) {
                        Err(e) => Err(e),
                        Ok(x1) => {
                            Ok(DebuggerCommand::MarkCell(x0, x1))
                        },
                    }
                },
            }
        } else if is_either(v, "j", "jump") {
            match parse_usize_value(t, 1, true) {
                Err(e) => Err(e),
                Ok(x0) => {
                    Ok(DebuggerCommand::Jump(x0))
                },
            }
        } else if is_either(v, "jm", "jump_mark") {
            match parse_string_value(t, 1, true) {
                Err(e) => Err(e),
                Ok(x0) => {
                    Ok(DebuggerCommand::JumpMark(x0))
                },
            }
        } else if is_either(v, "jc", "jump_cell") {
            match parse_usize_value(t, 1, true) {
                Err(e) => Err(e),
                Ok(x0) => {
                    Ok(DebuggerCommand::JumpCell(x0))
                },
            }
        } else if is_either(v, "jmc", "jump_marked_cell") {
            match parse_string_value(t, 1, true) {
                Err(e) => Err(e),
                Ok(x0) => {
                    Ok(DebuggerCommand::JumpMarkedCell(x0))
                },
            }
        } else if is_either(v, "jb", "jump_back") {
            if t.len() > 1 {
                Err(DebuggerCommandParseError::InvalidCommandFormat)
            } else {
                Ok(DebuggerCommand::JumpBack)
            }
        } else if is_either(v, "jbc", "jump_back_cell") {
            if t.len() > 1 {
                Err(DebuggerCommandParseError::InvalidCommandFormat)
            } else {
                Ok(DebuggerCommand::JumpBackCell)
            }
        } else if is_either(v, "b", "breakpoint") {
            match parse_optional_usize(t, 1) {
                Err(e) => Err(e),
                Ok(x0) => {
                    Ok(DebuggerCommand::Breakpoint(x0))
                },
            }
        } else if is_either(v, "bm", "breakpoint_mark") {
            match parse_string_value(t, 1, true) {
                Err(e) => Err(e),
                Ok(x0) => {
                    Ok(DebuggerCommand::BreakpointMark(x0))
                },
            }
        } else if is_either(v, "rb", "remove_breakpoint") {
            match parse_optional_usize(t, 1) {
                Err(e) => Err(e),
                Ok(x0) => {
                    Ok(DebuggerCommand::RemoveBreakpoint(x0))
                },
            }
        } else if is_either(v, "rbm", "remove_breakpoint_mark") {
            match parse_string_value(t, 1, true) {
                Err(e) => Err(e),
                Ok(x0) => {
                    Ok(DebuggerCommand::RemoveBreakpointMark(x0))
                },
            }
        } else if is_either(v, "s", "step") {
            if t.len() > 1 {
                Err(DebuggerCommandParseError::InvalidCommandFormat)
            } else {
                Ok(DebuggerCommand::Step)
            }
        } else if is_either(v, "ctb", "continue_to_breakpoint") {
            if t.len() > 1 {
                Err(DebuggerCommandParseError::InvalidCommandFormat)
            } else {
                Ok(DebuggerCommand::ContinueToBreakpoint)
            }
        } else if is_either(v, "q", "quit") {
            if t.len() > 1 {
                Err(DebuggerCommandParseError::InvalidCommandFormat)
            } else {
                Ok(DebuggerCommand::Quit)
            }
        } else {
            Err(DebuggerCommandParseError::InvalidCommandFormat)
        }
    }
}
/// Two token sequences that differ at most in their first token give the same parameters.
proof fn lemma_same_parameters(a: Seq<Seq<char>>, b: Seq<Seq<char>>)
    requires
        a.len() == b.len(),
        forall|j: int| 1 <= j < a.len() ==> a[j] == b[j],
    ensures
        int_at(a, 1) == int_at(b, 1),
        char_at(a, 1) == char_at(b, 1),
        optional_usize_at(a, 1) == optional_usize_at(b, 1),
        usize_at(a, 1, true) == usize_at(b, 1, true),
        string_at(a, 1, true) == string_at(b, 1, true),
        usize_at(a, 1, false) == usize_at(b, 1, false),
        string_at(a, 1, false) == string_at(b, 1, false),
        int_at(a, 2) == int_at(b, 2),
        char_at(a, 2) == char_at(b, 2),
        optional_usize_at(a, 2) == optional_usize_at(b, 2),
        usize_at(a, 2, true) == usize_at(b, 2, true),
        string_at(a, 2, true) == string_at(b, 2, true),
        usize_at(a, 2, false) == usize_at(b, 2, false),
        string_at(a, 2, false) == string_at(b, 2, false),
{
}

/// Each command's short and long name mean the same command, whatever parameters follow;
/// the result is a function of the tokens alone.
#[verifier::rlimit(100)]
pub proof fn lemma_aliases_agree(rest: Seq<Seq<char>>)
    ensures
        command_spec(seq!["pi"@] + rest) == command_spec(seq!["print_instruction"@] + rest),
        command_spec(seq!["pc"@] + rest) == command_spec(seq!["print_cell"@] + rest),
        command_spec(seq!["pai"@] + rest) == command_spec(seq!["print_all_instructions"@] + rest),
        command_spec(seq!["pac"@] + rest) == command_spec(seq!["print_all_cells"@] + rest),
        command_spec(seq!["li"@] + rest) == command_spec(seq!["list_instruction"@] + rest),
        command_spec(seq!["lli"@] + rest) == command_spec(seq!["long_list_instruction"@] + rest),
        command_spec(seq!["lmi"@] + rest) == command_spec(seq!["list_marked_instruction"@] + rest),
        command_spec(seq!["llmi"@] + rest) == command_spec(seq!["long_list_marked_instruction"@] + rest),
        command_spec(seq!["lc"@] + rest) == command_spec(seq!["list_cell"@] + rest),
        command_spec(seq!["llc"@] + rest) == command_spec(seq!["long_list_cell"@] + rest),
        command_spec(seq!["lmc"@] + rest) == command_spec(seq!["list_marked_cell"@] + rest),
        command_spec(seq!["llmc"@] + rest) == command_spec(seq!["long_list_marked_cell"@] + rest),
        command_spec(seq!["sc"@] + rest) == command_spec(seq!["set_cell"@] + rest),
        command_spec(seq!["smc"@] + rest) == command_spec(seq!["set_marked_cell"@] + rest),
        command_spec(seq!["ri"@] + rest) == command_spec(seq!["run_instruction"@] + rest),
        command_spec(seq!["ris"@] + rest) == command_spec(seq!["run_instructions"@] + rest),
        command_spec(seq!["m"@] + rest) == command_spec(seq!["mark"@] + rest),
        command_spec(seq!["mc"@] + rest) == command_spec(seq!["mark_cell"@] + rest),
        command_spec(seq!["j"@] + rest) == command_spec(seq!["jump"@] + rest),
        command_spec(seq!["jm"@] + rest) == command_spec(seq!["jump_mark"@] + rest),
        command_spec(seq!["jc"@] + rest) == command_spec(seq!["jump_cell"@] + rest),
        command_spec(seq!["jmc"@] + rest) == command_spec(seq!["jump_marked_cell"@] + rest),
        command_spec(seq!["jb"@] + rest) == command_spec(seq!["jump_back"@] + rest),
        command_spec(seq!["jbc"@] + rest) == command_spec(seq!["jump_back_cell"@] + rest),
        command_spec(seq!["b"@] + rest) == command_spec(seq!["breakpoint"@] + rest),
        command_spec(seq!["bm"@] + rest) == command_spec(seq!["breakpoint_mark"@] + rest),
        command_spec(seq!["rb"@] + rest) == command_spec(seq!["remove_breakpoint"@] + rest),
        command_spec(seq!["rbm"@] + rest) == command_spec(seq!["remove_breakpoint_mark"@] + rest),
        command_spec(seq!["s"@] + rest) == command_spec(seq!["step"@] + rest),
        command_spec(seq!["ctb"@] + rest) == command_spec(seq!["continue_to_breakpoint"@] + rest),
        command_spec(seq!["q"@] + rest) == command_spec(seq!["quit"@] + rest),
{
    reveal_strlit("pi");
    reveal_strlit("print_instruction");
    lemma_same_parameters(seq!["pi"@] + rest, seq!["print_instruction"@] + rest);
    reveal_strlit("pc");
    reveal_strlit("print_cell");
    lemma_same_parameters(seq!["pc"@] + rest, seq!["print_cell"@] + rest);
    reveal_strlit("pai");
    reveal_strlit("print_all_instructions");
    lemma_same_parameters(seq!["pai"@] + rest, seq!["print_all_instructions"@] + rest);
    reveal_strlit("pac");
    reveal_strlit("print_all_cells");
    lemma_same_parameters(seq!["pac"@] + rest, seq!["print_all_cells"@] + rest);
    reveal_strlit("li");
    reveal_strlit("list_instruction");
    lemma_same_parameters(seq!["li"@] + rest, seq!["list_instruction"@] + rest);
    reveal_strlit("lli");
    reveal_strlit("long_list_instruction");
    lemma_same_parameters(seq!["lli"@] + rest, seq!["long_list_instruction"@] + rest);
    reveal_strlit("lmi");
    reveal_strlit("list_marked_instruction");
    lemma_same_parameters(seq!["lmi"@] + rest, seq!["list_marked_instruction"@] + rest);
    reveal_strlit("llmi");
    reveal_strlit("long_list_marked_instruction");
    lemma_same_parameters(seq!["llmi"@] + rest, seq!["long_list_marked_instruction"@] + rest);
    reveal_strlit("lc");
    reveal_strlit("list_cell");
    lemma_same_parameters(seq!["lc"@] + rest, seq!["list_cell"@] + rest);
    reveal_strlit("llc");
    reveal_strlit("long_list_cell");
    lemma_same_parameters(seq!["llc"@] + rest, seq!["long_list_cell"@] + rest);
    reveal_strlit("lmc");
    reveal_strlit("list_marked_cell");
    lemma_same_parameters(seq!["lmc"@] + rest, seq!["list_marked_cell"@] + rest);
    reveal_strlit("llmc");
    reveal_strlit("long_list_marked_cell");
    lemma_same_parameters(seq!["llmc"@] + rest, seq!["long_list_marked_cell"@] + rest);
    reveal_strlit("sc");
    reveal_strlit("set_cell");
    lemma_same_parameters(seq!["sc"@] + rest, seq!["set_cell"@] + rest);
    reveal_strlit("smc");
    reveal_strlit("set_marked_cell");
    lemma_same_parameters(seq!["smc"@] + rest, seq!["set_marked_cell"@] + rest);
    reveal_strlit("ri");
    reveal_strlit("run_instruction");
    lemma_same_parameters(seq!["ri"@] + rest, seq!["run_instruction"@] + rest);
    reveal_strlit("ris");
    reveal_strlit("run_instructions");
    lemma_same_parameters(seq!["ris"@] + rest, seq!["run_instructions"@] + rest);
    reveal_strlit("m");
    reveal_strlit("mark");
    lemma_same_parameters(seq!["m"@] + rest, seq!["mark"@] + rest);
    reveal_strlit("mc");
    reveal_strlit("mark_cell");
    lemma_same_parameters(seq!["mc"@] + rest, seq!["mark_cell"@] + rest);
    reveal_strlit("j");
    reveal_strlit("jump");
    lemma_same_parameters(seq!["j"@] + rest, seq!["jump"@] + rest);
    reveal_strlit("jm");
    reveal_strlit("jump_mark");
    lemma_same_parameters(seq!["jm"@] + rest, seq!["jump_mark"@] + rest);
    reveal_strlit("jc");
    reveal_strlit("jump_cell");
    lemma_same_parameters(seq!["jc"@] + rest, seq!["jump_cell"@] + rest);
    reveal_strlit("jmc");
    reveal_strlit("jump_marked_cell");
    lemma_same_parameters(seq!["jmc"@] + rest, seq!["jump_marked_cell"@] + rest);
    reveal_strlit("jb");
    reveal_strlit("jump_back");
    lemma_same_parameters(seq!["jb"@] + rest, seq!["jump_back"@] + rest);
    reveal_strlit("jbc");
    reveal_strlit("jump_back_cell");
    lemma_same_parameters(seq!["jbc"@] + rest, seq!["jump_back_cell"@] + rest);
    reveal_strlit("b");
    reveal_strlit("breakpoint");
    lemma_same_parameters(seq!["b"@] + rest, seq!["breakpoint"@] + rest);
    reveal_strlit("bm");
    reveal_strlit("breakpoint_mark");
    lemma_same_parameters(seq!["bm"@] + rest, seq!["breakpoint_mark"@] + rest);
    reveal_strlit("rb");
    reveal_strlit("remove_breakpoint");
    lemma_same_parameters(seq!["rb"@] + rest, seq!["remove_breakpoint"@] + rest);
    reveal_strlit("rbm");
    reveal_strlit("remove_breakpoint_mark");
    lemma_same_parameters(seq!["rbm"@] + rest, seq!["remove_breakpoint_mark"@] + rest);
    reveal_strlit("s");
    reveal_strlit("step");
    lemma_same_parameters(seq!["s"@] + rest, seq!["step"@] + rest);
    reveal_strlit("ctb");
    reveal_strlit("continue_to_breakpoint");
    lemma_same_parameters(seq!["ctb"@] + rest, seq!["continue_to_breakpoint"@] + rest);
    reveal_strlit("q");
    reveal_strlit("quit");
    lemma_same_parameters(seq!["q"@] + rest, seq!["quit"@] + rest);
    assert("pc"@[1] != "pi"@[1]);
    assert("pac"@[2] != "pai"@[2]);
    assert("li"@[0] != "pi"@[0]);
    assert("li"@[0] != "pc"@[0]);
    assert("lli"@[0] != "pai"@[0]);
    assert("lli"@[0] != "pac"@[0]);
    assert("lmi"@[0] != "pai"@[0]);
    assert("lmi"@[0] != "pac"@[0]);
    assert("lmi"@[1] != "lli"@[1]);
    assert("lc"@[0] != "pi"@[0]);
    assert("lc"@[0] != "pc"@[0]);
    assert("lc"@[1] != "li"@[1]);
    assert("llc"@[0] != "pai"@[0]);
    assert("llc"@[0] != "pac"@[0]);
    assert("llc"@[2] != "lli"@[2]);
    assert("llc"@[1] != "lmi"@[1]);
    assert("lmc"@[0] != "pai"@[0]);
    assert("lmc"@[0] != "pac"@[0]);
    assert("lmc"@[1] != "lli"@[1]);
    assert("lmc"@[2] != "lmi"@[2]);
    assert("lmc"@[1] != "llc"@[1]);
    assert("list_marked_cell"@[5] != "list_instruction"@[5]);
    assert("llmc"@[3] != "llmi"@[3]);
    assert("long_list_marked_cell"@[10] != "long_list_instruction"@[10]);
    assert("sc"@[0] != "pi"@[0]);
    assert("sc"@[0] != "pc"@[0]);
    assert("sc"@[0] != "li"@[0]);
    assert("sc"@[0] != "lc"@[0]);
    assert("smc"@[0] != "pai"@[0]);
    assert("smc"@[0] != "pac"@[0]);
    assert("smc"@[0] != "lli"@[0]);
    assert("smc"@[0] != "lmi"@[0]);
    assert("smc"@[0] != "llc"@[0]);
    assert("smc"@[0] != "lmc"@[0]);
    assert("set_marked_cell"@[0] != "print_all_cells"@[0]);
    assert("ri"@[0] != "pi"@[0]);
    assert("ri"@[0] != "pc"@[0]);
    assert("ri"@[0] != "li"@[0]);
    assert("ri"@[0] != "lc"@[0]);
    assert("ri"@[0] != "sc"@[0]);
    assert("run_instruction"@[0] != "print_all_cells"@[0]);
    assert("run_instruction"@[0] != "set_marked_cell"@[0]);
    assert("ris"@[0] != "pai"@[0]);
    assert("ris"@[0] != "pac"@[0]);
    assert("ris"@[0] != "lli"@[0]);
    assert("ris"@[0] != "lmi"@[0]);
    assert("ris"@[0] != "llc"@[0]);
    assert("ris"@[0] != "lmc"@[0]);
    assert("ris"@[0] != "smc"@[0]);
    assert("run_instructions"@[0] != "list_instruction"@[0]);
    assert("run_instructions"@[0] != "list_marked_cell"@[0]);
    assert("mark"@[0] != "llmi"@[0]);
    assert("mark"@[0] != "llmc"@[0]);
    assert("mc"@[0] != "pi"@[0]);
    assert("mc"@[0] != "pc"@[0]);
    assert("mc"@[0] != "li"@[0]);
    assert("mc"@[0] != "lc"@[0]);
    assert("mc"@[0] != "sc"@[0]);
    assert("mc"@[0] != "ri"@[0]);
    assert("mark_cell"@[0] != "list_cell"@[0]);
    assert("j"@[0] != "m"@[0]);
    assert("jump"@[0] != "llmi"@[0]);
    assert("jump"@[0] != "llmc"@[0]);
    assert("jump"@[0] != "mark"@[0]);
    assert("jm"@[0] != "pi"@[0]);
    assert("jm"@[0] != "pc"@[0]);
    assert("jm"@[0] != "li"@[0]);
    assert("jm"@[0] != "lc"@[0]);
    assert("jm"@[0] != "sc"@[0]);
    assert("jm"@[0] != "ri"@[0]);
    assert("jm"@[0] != "mc"@[0]);
    assert("jump_mark"@[0] != "list_cell"@[0]);
    assert("jump_mark"@[0] != "mark_cell"@[0]);
    assert("jc"@[0] != "pi"@[0]);
    assert("jc"@[0] != "pc"@[0]);
    assert("jc"@[0] != "li"@[0]);
    assert("jc"@[0] != "lc"@[0]);
    assert("jc"@[0] != "sc"@[0]);
    assert("jc"@[0] != "ri"@[0]);
    assert("jc"@[0] != "mc"@[0]);
    assert("jc"@[1] != "jm"@[1]);
    assert("jump_cell"@[0] != "list_cell"@[0]);
    assert("jump_cell"@[0] != "mark_cell"@[0]);
    assert("jump_cell"@[5] != "jump_mark"@[5]);
    assert("jmc"@[0] != "pai"@[0]);
    assert("jmc"@[0] != "pac"@[0]);
    assert("jmc"@[0] != "lli"@[0]);
    assert("jmc"@[0] != "lmi"@[0]);
    assert("jmc"@[0] != "llc"@[0]);
    assert("jmc"@[0] != "lmc"@[0]);
    assert("jmc"@[0] != "smc"@[0]);
    assert("jmc"@[0] != "ris"@[0]);
    assert("jump_marked_cell"@[0] != "list_instruction"@[0]);
    assert("jump_marked_cell"@[0] != "list_marked_cell"@[0]);
    assert("jump_marked_cell"@[0] != "run_instructions"@[0]);
    assert("jb"@[0] != "pi"@[0]);
    assert("jb"@[0] != "pc"@[0]);
    assert("jb"@[0] != "li"@[0]);
    assert("jb"@[0] != "lc"@[0]);
    assert("jb"@[0] != "sc"@[0]);
    assert("jb"@[0] != "ri"@[0]);
    assert("jb"@[0] != "mc"@[0]);
    assert("jb"@[1] != "jm"@[1]);
    assert("jb"@[1] != "jc"@[1]);
    assert("jump_back"@[0] != "list_cell"@[0]);
    assert("jump_back"@[0] != "mark_cell"@[0]);
    assert("jump_back"@[5] != "jump_mark"@[5]);
    assert("jump_back"@[5] != "jump_cell"@[5]);
    assert("jbc"@[0] != "pai"@[0]);
    assert("jbc"@[0] != "pac"@[0]);
    assert("jbc"@[0] != "lli"@[0]);
    assert("jbc"@[0] != "lmi"@[0]);
    assert("jbc"@[0] != "llc"@[0]);
    assert("jbc"@[0] != "lmc"@[0]);
    assert("jbc"@[0] != "smc"@[0]);
    assert("jbc"@[0] != "ris"@[0]);
    assert("jbc"@[1] != "jmc"@[1]);
    assert("jump_back_cell"@[0] != "long_list_cell"@[0]);
    assert("b"@[0] != "m"@[0]);
    assert("b"@[0] != "j"@[0]);
    assert("breakpoint"@[0] != "print_cell"@[0]);
    assert("bm"@[0] != "pi"@[0]);
    assert("bm"@[0] != "pc"@[0]);
    assert("bm"@[0] != "li"@[0]);
    assert("bm"@[0] != "lc"@[0]);
    assert("bm"@[0] != "sc"@[0]);
    assert("bm"@[0] != "ri"@[0]);
    assert("bm"@[0] != "mc"@[0]);
    assert("bm"@[0] != "jm"@[0]);
    assert("bm"@[0] != "jc"@[0]);
    assert("bm"@[0] != "jb"@[0]);
    assert("breakpoint_mark"@[0] != "print_all_cells"@[0]);
    assert("breakpoint_mark"@[0] != "set_marked_cell"@[0]);
    assert("breakpoint_mark"@[0] != "run_instruction"@[0]);
    assert("rb"@[0] != "pi"@[0]);
    assert("rb"@[0] != "pc"@[0]);
    assert("rb"@[0] != "li"@[0]);
    assert("rb"@[0] != "lc"@[0]);
    assert("rb"@[0] != "sc"@[0]);
    assert("rb"@[1] != "ri"@[1]);
    assert("rb"@[0] != "mc"@[0]);
    assert("rb"@[0] != "jm"@[0]);
    assert("rb"@[0] != "jc"@[0]);
    assert("rb"@[0] != "jb"@[0]);
    assert("rb"@[0] != "bm"@[0]);
    assert("remove_breakpoint"@[0] != "print_instruction"@[0]);
    assert("rbm"@[0] != "pai"@[0]);
    assert("rbm"@[0] != "pac"@[0]);
    assert("rbm"@[0] != "lli"@[0]);
    assert("rbm"@[0] != "lmi"@[0]);
    assert("rbm"@[0] != "llc"@[0]);
    assert("rbm"@[0] != "lmc"@[0]);
    assert("rbm"@[0] != "smc"@[0]);
    assert("rbm"@[1] != "ris"@[1]);
    assert("rbm"@[0] != "jmc"@[0]);
    assert("rbm"@[0] != "jbc"@[0]);
    assert("remove_breakpoint_mark"@[0] != "print_all_instructions"@[0]);
    assert("s"@[0] != "m"@[0]);
    assert("s"@[0] != "j"@[0]);
    assert("s"@[0] != "b"@[0]);
    assert("step"@[0] != "llmi"@[0]);
    assert("step"@[0] != "llmc"@[0]);
    assert("step"@[0] != "mark"@[0]);
    assert("step"@[0] != "jump"@[0]);
    assert("ctb"@[0] != "pai"@[0]);
    assert("ctb"@[0] != "pac"@[0]);
    assert("ctb"@[0] != "lli"@[0]);
    assert("ctb"@[0] != "lmi"@[0]);
    assert("ctb"@[0] != "llc"@[0]);
    assert("ctb"@[0] != "lmc"@[0]);
    assert("ctb"@[0] != "smc"@[0]);
    assert("ctb"@[0] != "ris"@[0]);
    assert("ctb"@[0] != "jmc"@[0]);
    assert("ctb"@[0] != "jbc"@[0]);
    assert("ctb"@[0] != "rbm"@[0]);
    assert("continue_to_breakpoint"@[0] != "print_all_instructions"@[0]);
    assert("continue_to_breakpoint"@[0] != "remove_breakpoint_mark"@[0]);
    assert("q"@[0] != "m"@[0]);
    assert("q"@[0] != "j"@[0]);
    assert("q"@[0] != "b"@[0]);
    assert("q"@[0] != "s"@[0]);
    assert("quit"@[0] != "llmi"@[0]);
    assert("quit"@[0] != "llmc"@[0]);
    assert("quit"@[0] != "mark"@[0]);
    assert("quit"@[0] != "jump"@[0]);
    assert("quit"@[0] != "step"@[0]);
}

impl DebuggerCommand {
    /// Parses a line that was already trimmed and lowercased: the tokens are the pieces
    /// between single spaces.
    pub fn from_lowered(line: &str) -> (r: Result<DebuggerCommand, DebuggerCommandParseError>)
        ensures
            parsed_view(r) == line_command(line@),
    {
        let t = split_on_spaces(line);
        DebuggerCommand::from_tokens(&t)
    }

    /// Parses one line of operator input: it is trimmed and lowercased, then split at
    /// single spaces.
    pub fn try_from_line(line: &str) -> (r: Result<DebuggerCommand, DebuggerCommandParseError>)
        ensures
            parsed_view(r) == line_command(lower_of(trimmed(line@))),
            (forall|i: int| 0 <= i < line@.len() ==> is_white_space(#[trigger] line@[i]))
                ==> parsed_view(r) == Ok::<CommandView, DebuggerCommandParseError>(
                CommandView::NoOp,
            ),
    {
        let trimmed_line = trim(line);
        proof {
            if forall|i: int| 0 <= i < line@.len() ==> is_white_space(#[trigger] line@[i]) {
                lemma_blank_trims_to_empty(line@);
            }
        }
        let lowered = lowercase(trimmed_line);
        proof {
            if lowered@.len() == 0 {
                assert(lowered@ =~= Seq::<char>::empty());
                assert(split_spaces(lowered@) =~= seq![Seq::<char>::empty()]);
            }
        }
        DebuggerCommand::from_lowered(lowered.as_str())
    }
}

} // verus!

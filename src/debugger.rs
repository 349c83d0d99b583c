use vstd::prelude::*;

use std::collections::HashSet;

use crate::command::{line_command, CommandView, DebuggerCommand, DebuggerCommandParseError};
use crate::debugger_model::{
    cell_entries, cell_entry, command_spec_outcome, continue_spec, instruction_entries,
    instruction_entry, jump_back_cell_spec, jump_back_spec, jump_cell_spec, jump_marked_cell_spec,
    jump_mark_spec, jump_spec, label, long_list_cell_spec, long_list_instruction_spec,
    long_list_marked_cell_spec, long_list_marked_instruction_spec, mark_cell_spec, mark_spec,
    output_reports, perform_spec, print_all_cells_spec, print_all_instructions_spec,
    print_cell_spec, print_instruction_spec, remove_breakpoint_mark_spec, remove_breakpoint_spec,
    run_instruction_spec, run_instructions_spec, set_cell_spec, set_marked_cell_spec, step_spec,
    with_engine, with_report, breakpoint_mark_spec, breakpoint_spec, DebuggerView,
};
use crate::executor::{EngineView, ExecutionError, ExecutionState, ExecutorState, Int};
use crate::instruction::ExecutorCommand;
use crate::marks::{marks_consistent, MarkTable};
use crate::text::{chars_of, decode_char, is_white_space, lower_of, trimmed};
use crate::translate::back_jumps_fit;

verus! {

/// Where a debugger session stands after a command.
#[derive(Clone, Copy, Debug, PartialEq, Eq, Structural)]
pub enum DebuggingState {
    /// Ready for the next command.
    Running,
    /// A continue stopped at a breakpoint.
    Paused,
    /// The session is over.
    Finished,
    /// The command needs one byte of input before it can go on: hand it over with
    /// `supply_input`, then call `resume`.
    AwaitingInput,
    /// A continue has taken one step and has not reached a breakpoint: call `resume`.
    Continuing,
}

/// Why a debugger command could not be carried out. None of them ends the session.
#[derive(Clone, Copy, Debug, PartialEq, Eq, Structural)]
pub enum DebuggingError {
    IndexOutOfBounds,
    MarkNotFound,
    JumpHistoryEmpty,
    BreakpointNotFound,
    InvalidInstruction,
}

impl DebuggingError {
    /// The text shown to the operator.
    pub fn message(&self) -> (r: &'static str) {
        match self {
            DebuggingError::IndexOutOfBounds => "The index is out of bounds!",
            DebuggingError::MarkNotFound => "The mark does not exist!",
            DebuggingError::JumpHistoryEmpty => "There is no jump back destination!",
            DebuggingError::BreakpointNotFound => "The breakpoint does not exist!",
            DebuggingError::InvalidInstruction => "The instruction is invalid!",
        }
    }
}

pub type DebuggingResult = Result<DebuggingState, DebuggingError>;

/// Something the debugger has to show the operator.
#[derive(Clone, Debug, PartialEq, Eq)]
pub enum Report {
    /// One instruction in detail: its mark, and whether it is a breakpoint.
    Instruction { index: usize, command: ExecutorCommand, mark: Option<String>, breakpoint: bool },
    /// One cell in detail: its value, the character it decodes to, and its mark.
    Cell { index: usize, value: Int, character: Option<char>, mark: Option<String> },
    /// One line of a listing of instructions.
    InstructionEntry {
        index: usize,
        command: ExecutorCommand,
        mark: Option<String>,
        breakpoint: bool,
    },
    /// One line of a listing of cells.
    CellEntry { index: usize, value: Int, mark: Option<String> },
    /// A character that the program wrote.
    Written(char),
    /// An instruction failed, which ends the session.
    Failure(ExecutionError),
}

/// A report with its strings seen as sequences of characters.
pub enum ReportView {
    Instruction(usize, ExecutorCommand, Option<Seq<char>>, bool),
    Cell(usize, Int, Option<char>, Option<Seq<char>>),
    InstructionEntry(usize, ExecutorCommand, Option<Seq<char>>, bool),
    CellEntry(usize, Int, Option<Seq<char>>),
    Written(char),
    Failure(ExecutionError),
}

pub open spec fn opt_view(o: Option<String>) -> Option<Seq<char>> {
    match o {
        Some(s) => Some(s@),
        None => None,
    }
}

impl View for Report {
    type V = ReportView;

    open spec fn view(&self) -> ReportView {
        match self {
            Report::Instruction { index, command, mark, breakpoint } => ReportView::Instruction(
                *index,
                *command,
                opt_view(*mark),
                *breakpoint,
            ),
            Report::Cell { index, value, character, mark } => ReportView::Cell(
                *index,
                *value,
                *character,
                opt_view(*mark),
            ),
            Report::InstructionEntry { index, command, mark, breakpoint } => ReportView::InstructionEntry(
                *index,
                *command,
                opt_view(*mark),
                *breakpoint,
            ),
            Report::CellEntry { index, value, mark } => ReportView::CellEntry(
                *index,
                *value,
                opt_view(*mark),
            ),
            Report::Written(c) => ReportView::Written(*c),
            Report::Failure(e) => ReportView::Failure(*e),
        }
    }
}

pub open spec fn reports_view(v: Seq<Report>) -> Seq<ReportView> {
    v.map_values(|r: Report| r@)
}

pub open spec fn pending_view(p: Option<DebuggerCommand>) -> Option<CommandView> {
    match p {
        Some(c) => Some(c@),
        None => None,
    }
}

/// A debugger session over one program.
pub struct DebuggerState {
    state: ExecutorState,
    i_marks: MarkTable,
    c_marks: MarkTable,
    breakpoints: HashSet<usize>,
    jump_history: Vec<usize>,
    jump_cell_history: Vec<usize>,
    input_closed: bool,
    pending: Option<DebuggerCommand>,
    reports: Vec<Report>,
}

impl View for DebuggerState {
    type V = DebuggerView;

    closed spec fn view(&self) -> DebuggerView {
        DebuggerView {
            engine: self.state@,
            instruction_marks: self.i_marks@,
            cell_marks: self.c_marks@,
            breakpoints: self.breakpoints@,
            jump_history: self.jump_history@,
            cell_history: self.jump_cell_history@,
            input_closed: self.input_closed,
            pending: pending_view(self.pending),
            reports: reports_view(self.reports@),
        }
    }
}

impl DebuggerState {
    /// In a valid session each mark table's labels agree with its names.
    pub proof fn lemma_marks_consistent(&self)
        requires
            self.wf(),
        ensures
            marks_consistent(self@.instruction_marks),
            marks_consistent(self@.cell_marks),
    {
        self.i_marks.lemma_consistent();
        self.c_marks.lemma_consistent();
    }

    pub closed spec fn wf(&self) -> bool {
        &&& self.state.wf()
        &&& self.i_marks.wf()
        &&& self.c_marks.wf()
        &&& self.state@.output.len() == 0
    }

    /// A session at the start of `commands`, with breakpoints at `breakpoints` and no
    /// marks, history or pending command.
    pub fn new(commands: Vec<ExecutorCommand>, breakpoints: Vec<usize>) -> (r: DebuggerState)
        requires
            back_jumps_fit(commands@),
            commands@.len() < usize::MAX,
        ensures
            r.wf(),
            r@.engine == (EngineView {
                tape: seq![0],
                pointer: 0,
                pc: 0,
                program: commands@,
                input: Seq::empty(),
                output: Seq::empty(),
            }),
            r@.instruction_marks.names.is_empty(),
            r@.instruction_marks.labels.is_empty(),
            r@.cell_marks.names.is_empty(),
            r@.cell_marks.labels.is_empty(),
            r@.breakpoints == breakpoints@.to_set(),
            r@.jump_history.len() == 0,
            r@.cell_history.len() == 0,
            !r@.input_closed,
            r@.pending is None,
            r@.reports.len() == 0,
    {
        broadcast use vstd::std_specs::hash::group_hash_axioms;
        let mut set: HashSet<usize> = HashSet::new();
        let mut k: usize = 0;
        while k < breakpoints.len()
            invariant
                k <= breakpoints.len(),
                set@ == breakpoints@.take(k as int).to_set(),
            decreases breakpoints.len() - k,
        {
            let b = breakpoints[k];
            proof {
                assert(breakpoints@.take(k + 1) =~= breakpoints@.take(k as int) + seq![b]);
                Seq::<usize>::lemma_to_set_insert_commutes(breakpoints@.take(k as int), b);
            }
            set.insert(b);
            k = k + 1;
        }
        assert(breakpoints@.take(breakpoints@.len() as int) =~= breakpoints@);
        let r = DebuggerState {
            state: ExecutorState::new(commands),
            i_marks: MarkTable::new(),
            c_marks: MarkTable::new(),
            breakpoints: set,
            jump_history: Vec::new(),
            jump_cell_history: Vec::new(),
            input_closed: false,
            pending: None,
            reports: Vec::new(),
        };
        assert(r@.reports =~= Seq::<ReportView>::empty());
        r
    }

    /// Takes the reports made since the last call, oldest first.
    pub fn take_reports(&mut self) -> (r: Vec<Report>)
        requires
            old(self).wf(),
        ensures
            final(self).wf(),
            reports_view(r@) == old(self)@.reports,
            final(self)@ == (DebuggerView { reports: Seq::empty(), ..old(self)@ }),
    {
        let mut out: Vec<Report> = Vec::new();
        std::mem::swap(&mut out, &mut self.reports);
        assert(reports_view(self.reports@) =~= Seq::<ReportView>::empty());
        out
    }

    /// Hands the program one byte of input, or records with `None` that input has run out:
    /// an instruction that reads then fails instead of waiting.
    pub fn supply_input(&mut self, byte: Option<u8>)
        requires
            old(self).wf(),
        ensures
            final(self).wf(),
            final(self)@ == match byte {
                Some(b) => DebuggerView {
                    engine: EngineView { input: old(self)@.engine.input.push(b), ..old(self)@.engine },
                    ..old(self)@
                },
                None => DebuggerView { input_closed: true, ..old(self)@ },
            },
    {
        match byte {
            Some(b) => self.state.provide_input(b),
            None => {
                self.input_closed = true;
            },
        }
    }

    fn report(&mut self, r: Report)
        requires
            old(self).wf(),
        ensures
            final(self).wf(),
            final(self)@ == with_report(old(self)@, r@),
    {
        let ghost before = self.reports@;
        self.reports.push(r);
        assert(reports_view(self.reports@) =~= reports_view(before).push(r@));
    }

    /// Moves what the program wrote into the reports.
    fn flush_output(&mut self)
        requires
            old(self).state.wf(),
            old(self).i_marks.wf(),
            old(self).c_marks.wf(),
        ensures
            final(self).wf(),
            final(self)@ == with_engine(old(self)@, old(self)@.engine),
    {
        let out = self.state.take_output();
        let ghost m = old(self)@;
        let ghost written = out@;
        assert(written.take(0) =~= Seq::<char>::empty());
        assert(m.reports + Seq::<ReportView>::empty() =~= m.reports);
        let mut k: usize = 0;
        while k < out.len()
            invariant
                self.wf(),
                out@ == written,
                k <= written.len(),
                self@ == (DebuggerView {
                    engine: EngineView { output: Seq::empty(), ..m.engine },
                    reports: m.reports + output_reports(written.take(k as int)),
                    ..m
                }),
            decreases written.len() - k,
        {
            let c = out[k];
            self.report(Report::Written(c));
            assert(written.take(k + 1).drop_last() =~= written.take(k as int));
            assert(written.take(k + 1).last() == c);
            assert(output_reports(written.take(k + 1)) == output_reports(written.take(k as int)).push(
                ReportView::Written(c),
            ));
            assert((m.reports + output_reports(written.take(k as int))).push(
                ReportView::Written(c),
            ) =~= m.reports + output_reports(written.take(k + 1)));
            k = k + 1;
        }
        assert(written.take(written.len() as int) =~= written);
    }

    fn instruction_mark(&self, i: usize) -> (r: Option<String>)
        requires
            self.wf(),
        ensures
            opt_view(r) == label(self@.instruction_marks.labels, i),
    {
        self.i_marks.name_of(i)
    }

    fn cell_mark(&self, i: usize) -> (r: Option<String>)
        requires
            self.wf(),
        ensures
            opt_view(r) == label(self@.cell_marks.labels, i),
    {
        self.c_marks.name_of(i)
    }

    fn is_breakpoint(&self, i: usize) -> (r: bool)
        requires
            self.wf(),
        ensures
            r == self@.breakpoints.contains(i),
    {
        broadcast use vstd::std_specs::hash::group_hash_axioms;
        self.breakpoints.contains(&i)
    }

    /// Shows instruction `index` (default: the program counter).
    pub fn print_instruction(&mut self, index: Option<usize>) -> (r: DebuggingResult)
        requires
            old(self).wf(),
        ensures
            final(self).wf(),
            (final(self)@, r) == print_instruction_spec(old(self)@, index),
    {
        let i = match index {
            Some(i) => i,
            None => self.state.get_pc(),
        };
        match self.state.get_command(i) {
            Some(command) => {
                let mark = self.instruction_mark(i);
                let breakpoint = self.is_breakpoint(i);
                self.report(Report::Instruction { index: i, command, mark, breakpoint });
                Ok(DebuggingState::Running)
            },
            None => Err(DebuggingError::IndexOutOfBounds),
        }
    }

    /// Shows cell `index` (default: the data pointer).
    pub fn print_cell(&mut self, index: Option<usize>) -> (r: DebuggingResult)
        requires
            old(self).wf(),
        ensures
            final(self).wf(),
            (final(self)@, r) == print_cell_spec(old(self)@, index),
    {
        let i = match index {
            Some(i) => i,
            None => self.state.get_pointer(),
        };
        match self.state.get_cell(i) {
            Some(value) => {
                let character = decode_char(value);
                let mark = self.cell_mark(i);
                self.report(Report::Cell { index: i, value, character, mark });
                Ok(DebuggingState::Running)
            },
            None => Err(DebuggingError::IndexOutOfBounds),
        }
    }

    /// Lists instructions `lo..end`.
    fn list_instructions(&mut self, lo: usize, end: usize)
        requires
            old(self).wf(),
            lo <= end <= old(self)@.engine.program.len(),
        ensures
            final(self).wf(),
            final(self)@ == (DebuggerView {
                reports: old(self)@.reports + instruction_entries(old(self)@, lo as int, end - 1),
                ..old(self)@
            }),
    {
        let ghost m = self@;
        let mut k: usize = lo;
        while k < end
            invariant
                self.wf(),
                lo <= k <= end <= m.engine.program.len(),
                self@ == (DebuggerView {
                    reports: m.reports + instruction_entries(m, lo as int, k - 1),
                    ..m
                }),
            decreases end - k,
        {
            let command = self.state.get_command(k).unwrap();
            let mark = self.instruction_mark(k);
            let breakpoint = self.is_breakpoint(k);
            self.report(Report::InstructionEntry { index: k, command, mark, breakpoint });
            assert(instruction_entries(m, lo as int, k as int) =~= instruction_entries(m, lo as int, k - 1).push(
                instruction_entry(m, k),
            ));
            k = k + 1;
        }
    }

    /// Lists cells `lo..end`.
    fn list_cells(&mut self, lo: usize, end: usize)
        requires
            old(self).wf(),
            lo <= end <= old(self)@.engine.tape.len(),
        ensures
            final(self).wf(),
            final(self)@ == (DebuggerView {
                reports: old(self)@.reports + cell_entries(old(self)@, lo as int, end - 1),
                ..old(self)@
            }),
    {
        let ghost m = self@;
        let mut k: usize = lo;
        while k < end
            invariant
                self.wf(),
                lo <= k <= end <= m.engine.tape.len(),
                self@ == (DebuggerView {
                    reports: m.reports + cell_entries(m, lo as int, k - 1),
                    ..m
                }),
            decreases end - k,
        {
            let value = self.state.get_cell(k).unwrap();
            let mark = self.cell_mark(k);
            self.report(Report::CellEntry { index: k, value, mark });
            assert(cell_entries(m, lo as int, k as int) =~= cell_entries(m, lo as int, k - 1).push(
                cell_entry(m, k),
            ));
            k = k + 1;
        }
    }

    /// Lists every instruction.
    pub fn print_all_instructions(&mut self) -> (r: DebuggingResult)
        requires
            old(self).wf(),
        ensures
            final(self).wf(),
            (final(self)@, r) == print_all_instructions_spec(old(self)@),
    {
        let n = self.state.get_commands_len();
        self.list_instructions(0, n);
        Ok(DebuggingState::Running)
    }

    /// Lists every cell.
    pub fn print_all_cells(&mut self) -> (r: DebuggingResult)
        requires
            old(self).wf(),
        ensures
            final(self).wf(),
            (final(self)@, r) == print_all_cells_spec(old(self)@),
    {
        let n = self.state.get_array_len();
        self.list_cells(0, n);
        Ok(DebuggingState::Running)
    }

    /// Lists the instructions within `length` places of `index` (default: the program counter).
    pub fn long_list_instruction(&mut self, length: usize, index: Option<usize>) -> (r: DebuggingResult)
        requires
            old(self).wf(),
        ensures
            final(self).wf(),
            (final(self)@, r) == long_list_instruction_spec(old(self)@, length, index),
    {
        let index = match index {
            Some(i) => i,
            None => self.state.get_pc(),
        };
        if !self.state.validate_command_index(index) {
            return Err(DebuggingError::IndexOutOfBounds);
        }
        let commands_len = self.state.get_commands_len();
        let lower_bound = if index >= length {
            index - length
        } else {
            0
        };
        let upper_bound = if length >= commands_len - index {
            commands_len - 1
        } else {
            index + length
        };
        self.list_instructions(lower_bound, upper_bound + 1);
        Ok(DebuggingState::Running)
    }

    /// Lists the cells within `length` places of `index` (default: the data pointer).
    pub fn long_list_cell(&mut self, length: usize, index: Option<usize>) -> (r: DebuggingResult)
        requires
            old(self).wf(),
        ensures
            final(self).wf(),
            (final(self)@, r) == long_list_cell_spec(old(self)@, length, index),
    {
        let index = match index {
            Some(i) => i,
            None => self.state.get_pointer(),
        };
        if !self.state.validate_cell_index(index) {
            return Err(DebuggingError::IndexOutOfBounds);
        }
        let array_len = self.state.get_array_len();
        let lower_bound = if index >= length {
            index - length
        } else {
            0
        };
        let upper_bound = if length >= array_len - index {
            array_len - 1
        } else {
            index + length
        };
        self.list_cells(lower_bound, upper_bound + 1);
        Ok(DebuggingState::Running)
    }

    /// Lists the instructions within `length` places of the instruction marked `mark`.
    pub fn long_list_marked_instruction(&mut self, length: usize, mark: String) -> (r: DebuggingResult)
        requires
            old(self).wf(),
        ensures
            final(self).wf(),
            (final(self)@, r) == long_list_marked_instruction_spec(old(self)@, length, mark@),
    {
        match self.i_marks.index_of(&mark) {
            Some(index) => self.long_list_instruction(length, Some(index)),
            None => Err(DebuggingError::MarkNotFound),
        }
    }

    /// Lists the cells within `length` places of the cell marked `mark`.
    pub fn long_list_marked_cell(&mut self, length: usize, mark: String) -> (r: DebuggingResult)
        requires
            old(self).wf(),
        ensures
            final(self).wf(),
            (final(self)@, r) == long_list_marked_cell_spec(old(self)@, length, mark@),
    {
        match self.c_marks.index_of(&mark) {
            Some(index) => self.long_list_cell(length, Some(index)),
            None => Err(DebuggingError::MarkNotFound),
        }
    }

    /// Overwrites cell `index` (default: the data pointer).
    pub fn set_cell(&mut self, value: Int, index: Option<usize>) -> (r: DebuggingResult)
        requires
            old(self).wf(),
        ensures
            final(self).wf(),
            (final(self)@, r) == set_cell_spec(old(self)@, value, index),
    {
        let index = match index {
            Some(i) => i,
            None => self.state.get_pointer(),
        };
        if self.state.set_cell_value(index, value) {
            Ok(DebuggingState::Running)
        } else {
            Err(DebuggingError::IndexOutOfBounds)
        }
    }

    /// Overwrites the cell marked `mark`.
    pub fn set_marked_cell(&mut self, value: Int, mark: String) -> (r: DebuggingResult)
        requires
            old(self).wf(),
        ensures
            final(self).wf(),
            (final(self)@, r) == set_marked_cell_spec(old(self)@, value, mark@),
    {
        match self.c_marks.index_of(&mark) {
            Some(index) => self.set_cell(value, Some(index)),
            None => Err(DebuggingError::MarkNotFound),
        }
    }

    /// Runs one instruction character without moving the program counter.
    pub fn run_instruction(&mut self, instruction: char) -> (r: DebuggingResult)
        requires
            old(self).wf(),
        ensures
            final(self).wf(),
            (final(self)@, r) == run_instruction_spec(old(self)@, instruction),
    {
        let command = if instruction == '+' {
            ExecutorCommand::Increment
        } else if instruction == '-' {
            ExecutorCommand::Decrement
        } else if instruction == '>' {
            ExecutorCommand::MoveRight
        } else if instruction == '<' {
            ExecutorCommand::MoveLeft
        } else if instruction == '.' {
            ExecutorCommand::Output
        } else if instruction == ',' {
            ExecutorCommand::Input
        } else {
            return Err(DebuggingError::InvalidInstruction);
        };
        if command == ExecutorCommand::Input && !self.state.has_input() && !self.input_closed {
            self.pending = Some(DebuggerCommand::RunInstruction(instruction));
            return Ok(DebuggingState::AwaitingInput);
        }
        match self.state.execute_command(command) {
            Ok(_) => {
                self.flush_output();
                Ok(DebuggingState::Running)
            },
            Err(err) => {
                self.report(Report::Failure(err));
                Ok(DebuggingState::Finished)
            },
        }
    }

    /// Runs instruction characters in order until one fails, ends the session or waits.
    pub fn run_instructions(&mut self, instructions: String) -> (r: DebuggingResult)
        requires
            old(self).wf(),
        ensures
            final(self).wf(),
            (final(self)@, r) == run_instructions_spec(old(self)@, instructions@),
    {
        let text = instructions.as_str();
        let v = chars_of(text);
        let n = v.len();
        let mut i: usize = 0;
        assert(instructions@.subrange(0, n as int) =~= instructions@);
        while i < n
            invariant
                self.wf(),
                v@ == instructions@,
                text@ == instructions@,
                n == v.len(),
                i <= n,
                run_instructions_spec(old(self)@, instructions@) == run_instructions_spec(
                    self@,
                    instructions@.subrange(i as int, n as int),
                ),
            decreases n - i,
        {
            let ghost rest = instructions@.subrange(i as int, n as int);
            assert(rest[0] == v@[i as int]);
            assert(rest.drop_first() =~= instructions@.subrange(i + 1, n as int));
            let r = self.run_instruction(v[i]);
            match r {
                Ok(DebuggingState::Running) => {},
                Ok(DebuggingState::AwaitingInput) => {
                    let remaining = String::from_str(text.substring_char(i, n));
                    self.pending = Some(DebuggerCommand::RunInstructions(remaining));
                    return r;
                },
                _ => {
                    return r;
                },
            }
            i = i + 1;
        }
        assert(instructions@.subrange(n as int, n as int) =~= Seq::<char>::empty());
        Ok(DebuggingState::Running)
    }

    /// Names instruction `index` (default: the program counter) `mark`.
    pub fn mark(&mut self, mark: String, index: Option<usize>) -> (r: DebuggingResult)
        requires
            old(self).wf(),
        ensures
            final(self).wf(),
            (final(self)@, r) == mark_spec(old(self)@, mark@, index),
    {
        let index = match index {
            Some(i) => i,
            None => self.state.get_pc(),
        };
        if self.state.validate_command_index(index) {
            self.i_marks.mark(mark, index);
            Ok(DebuggingState::Running)
        } else {
            Err(DebuggingError::IndexOutOfBounds)
        }
    }

    /// Names cell `index` (default: the data pointer) `mark`.
    pub fn mark_cell(&mut self, mark: String, index: Option<usize>) -> (r: DebuggingResult)
        requires
            old(self).wf(),
        ensures
            final(self).wf(),
            (final(self)@, r) == mark_cell_spec(old(self)@, mark@, index),
    {
        let index = match index {
            Some(i) => i,
            None => self.state.get_pointer(),
        };
        if self.state.validate_cell_index(index) {
            self.c_marks.mark(mark, index);
            Ok(DebuggingState::Running)
        } else {
            Err(DebuggingError::IndexOutOfBounds)
        }
    }

    /// Puts the program counter on `index`, remembering where it was.
    pub fn jump(&mut self, index: usize) -> (r: DebuggingResult)
        requires
            old(self).wf(),
        ensures
            final(self).wf(),
            (final(self)@, r) == jump_spec(old(self)@, index),
    {
        let current_pc = self.state.get_pc();
        if self.state.set_pc(index) {
            self.jump_history.push(current_pc);
            Ok(DebuggingState::Running)
        } else {
            Err(DebuggingError::IndexOutOfBounds)
        }
    }

    /// Puts the program counter on the instruction marked `mark`.
    pub fn jump_mark(&mut self, mark: String) -> (r: DebuggingResult)
        requires
            old(self).wf(),
        ensures
            final(self).wf(),
            (final(self)@, r) == jump_mark_spec(old(self)@, mark@),
    {
        match self.i_marks.index_of(&mark) {
            Some(index) => self.jump(index),
            None => Err(DebuggingError::MarkNotFound),
        }
    }

    /// Puts the data pointer on `index`, remembering where it was.
    pub fn jump_cell(&mut self, index: usize) -> (r: DebuggingResult)
        requires
            old(self).wf(),
        ensures
            final(self).wf(),
            (final(self)@, r) == jump_cell_spec(old(self)@, index),
    {
        let current_pointer = self.state.get_pointer();
        if self.state.set_pointer(index) {
            self.jump_cell_history.push(current_pointer);
            Ok(DebuggingState::Running)
        } else {
            Err(DebuggingError::IndexOutOfBounds)
        }
    }

    /// Puts the data pointer on the cell marked `mark`.
    pub fn jump_marked_cell(&mut self, mark: String) -> (r: DebuggingResult)
        requires
            old(self).wf(),
        ensures
            final(self).wf(),
            (final(self)@, r) == jump_marked_cell_spec(old(self)@, mark@),
    {
        match self.c_marks.index_of(&mark) {
            Some(index) => self.jump_cell(index),
            None => Err(DebuggingError::MarkNotFound),
        }
    }

    /// Puts the program counter back where it was before the last jump.
    pub fn jump_back(&mut self) -> (r: DebuggingResult)
        requires
            old(self).wf(),
        ensures
            final(self).wf(),
            (final(self)@, r) == jump_back_spec(old(self)@),
    {
        match self.jump_history.pop() {
            Some(pc) => {
                self.state.restore_pc(pc);
                Ok(DebuggingState::Running)
            },
            None => Err(DebuggingError::JumpHistoryEmpty),
        }
    }

    /// Puts the data pointer back where it was before the last cell jump.
    pub fn jump_back_cell(&mut self) -> (r: DebuggingResult)
        requires
            old(self).wf(),
        ensures
            final(self).wf(),
            (final(self)@, r) == jump_back_cell_spec(old(self)@),
    {
        match self.jump_cell_history.pop() {
            Some(pointer) => {
                self.state.set_pointer(pointer);
                Ok(DebuggingState::Running)
            },
            None => Err(DebuggingError::JumpHistoryEmpty),
        }
    }

    /// Sets a breakpoint at `index` (default: the program counter).
    pub fn breakpoint(&mut self, index: Option<usize>) -> (r: DebuggingResult)
        requires
            old(self).wf(),
        ensures
            final(self).wf(),
            (final(self)@, r) == breakpoint_spec(old(self)@, index),
    {
        broadcast use vstd::std_specs::hash::group_hash_axioms;
        let index = match index {
            Some(i) => i,
            None => self.state.get_pc(),
        };
        if self.state.validate_command_index(index) {
            self.breakpoints.insert(index);
            Ok(DebuggingState::Running)
        } else {
            Err(DebuggingError::IndexOutOfBounds)
        }
    }

    /// Sets a breakpoint at the instruction marked `mark`.
    pub fn breakpoint_mark(&mut self, mark: String) -> (r: DebuggingResult)
        requires
            old(self).wf(),
        ensures
            final(self).wf(),
            (final(self)@, r) == breakpoint_mark_spec(old(self)@, mark@),
    {
        match self.i_marks.index_of(&mark) {
            Some(index) => self.breakpoint(Some(index)),
            None => Err(DebuggingError::MarkNotFound),
        }
    }

    /// Removes the breakpoint at `index` (default: the program counter).
    pub fn remove_breakpoint(&mut self, index: Option<usize>) -> (r: DebuggingResult)
        requires
            old(self).wf(),
        ensures
            final(self).wf(),
            (final(self)@, r) == remove_breakpoint_spec(old(self)@, index),
    {
        broadcast use vstd::std_specs::hash::group_hash_axioms;
        let index = match index {
            Some(i) => i,
            None => self.state.get_pc(),
        };
        if self.breakpoints.contains(&index) {
            self.breakpoints.remove(&index);
            Ok(DebuggingState::Running)
        } else {
            Err(DebuggingError::BreakpointNotFound)
        }
    }

    /// Removes the breakpoint at the instruction marked `mark`.
    pub fn remove_breakpoint_mark(&mut self, mark: String) -> (r: DebuggingResult)
        requires
            old(self).wf(),
        ensures
            final(self).wf(),
            (final(self)@, r) == remove_breakpoint_mark_spec(old(self)@, mark@),
    {
        match self.i_marks.index_of(&mark) {
            Some(index) => self.remove_breakpoint(Some(index)),
            None => Err(DebuggingError::MarkNotFound),
        }
    }

    /// Runs one step of the program and shows the instruction it arrives at.
    pub fn step(&mut self) -> (r: DebuggingResult)
        requires
            old(self).wf(),
        ensures
            final(self).wf(),
            (final(self)@, r) == step_spec(old(self)@),
    {
        if self.state.needs_input() && !self.input_closed {
            self.pending = Some(DebuggerCommand::Step);
            return Ok(DebuggingState::AwaitingInput);
        }
        let result = match self.state.execute_once() {
            Ok(ExecutionState::Running) => {
                self.flush_output();
                Ok(DebuggingState::Running)
            },
            Ok(ExecutionState::Finished) => {
                self.flush_output();
                Ok(DebuggingState::Finished)
            },
            Err(err) => {
                self.report(Report::Failure(err));
                Ok(DebuggingState::Finished)
            },
        };
        let _ = self.print_instruction(None);
        result
    }

    /// Takes one step of a continue: finishes, pauses on a breakpoint, or goes on.
    pub fn continue_to_breakpoint(&mut self) -> (r: DebuggingResult)
        requires
            old(self).wf(),
        ensures
            final(self).wf(),
            (final(self)@, r) == continue_spec(old(self)@),
    {
        let r = self.step();
        match r {
            Ok(DebuggingState::AwaitingInput) => {
                self.pending = Some(DebuggerCommand::ContinueToBreakpoint);
                r
            },
            Ok(DebuggingState::Running) => {
                let pc = self.state.get_pc();
                if self.is_breakpoint(pc) {
                    Ok(DebuggingState::Paused)
                } else {
                    self.pending = Some(DebuggerCommand::ContinueToBreakpoint);
                    Ok(DebuggingState::Continuing)
                }
            },
            _ => r,
        }
    }

    /// Ends the session.
    pub fn quit(&self) -> (r: DebuggingResult)
        ensures
            r == Ok::<DebuggingState, DebuggingError>(DebuggingState::Finished),
    {
        Ok(DebuggingState::Finished)
    }

    fn perform(&mut self, command: DebuggerCommand) -> (r: DebuggingResult)
        requires
            old(self).wf(),
        ensures
            final(self).wf(),
            (final(self)@, r) == perform_spec(old(self)@, command@),
    {
        match command {
            DebuggerCommand::NoOp => Ok(DebuggingState::Running),
            DebuggerCommand::PrintInstruction(i) => self.print_instruction(i),
            DebuggerCommand::PrintCell(i) => self.print_cell(i),
            DebuggerCommand::PrintAllInstructions => self.print_all_instructions(),
            DebuggerCommand::PrintAllCells => self.print_all_cells(),
            DebuggerCommand::ListInstruction(i) => self.long_list_instruction(5, i),
            DebuggerCommand::LongListInstruction(n, i) => self.long_list_instruction(n, i),
            DebuggerCommand::ListMarkedInstruction(m) => self.long_list_marked_instruction(5, m),
            DebuggerCommand::LongListMarkedInstruction(n, m) => self.long_list_marked_instruction(n, m),
            DebuggerCommand::ListCell(i) => self.long_list_cell(5, i),
            DebuggerCommand::LongListCell(n, i) => self.long_list_cell(n, i),
            DebuggerCommand::ListMarkedCell(m) => self.long_list_marked_cell(5, m),
            DebuggerCommand::LongListMarkedCell(n, m) => self.long_list_marked_cell(n, m),
            DebuggerCommand::SetCell(v, i) => self.set_cell(v, i),
            DebuggerCommand::SetMarkedCell(v, m) => self.set_marked_cell(v, m),
            DebuggerCommand::RunInstruction(c) => self.run_instruction(c),
            DebuggerCommand::RunInstructions(t) => self.run_instructions(t),
            DebuggerCommand::Mark(m, i) => self.mark(m, i),
            DebuggerCommand::MarkCell(m, i) => self.mark_cell(m, i),
            DebuggerCommand::Jump(i) => self.jump(i),
            DebuggerCommand::JumpMark(m) => self.jump_mark(m),
            DebuggerCommand::JumpCell(i) => self.jump_cell(i),
            DebuggerCommand::JumpMarkedCell(m) => self.jump_marked_cell(m),
            DebuggerCommand::JumpBack => self.jump_back(),
            DebuggerCommand::JumpBackCell => self.jump_back_cell(),
            DebuggerCommand::Breakpoint(i) => self.breakpoint(i),
            DebuggerCommand::BreakpointMark(m) => self.breakpoint_mark(m),
            DebuggerCommand::RemoveBreakpoint(i) => self.remove_breakpoint(i),
            DebuggerCommand::RemoveBreakpointMark(m) => self.remove_breakpoint_mark(m),
            DebuggerCommand::Step => self.step(),
            DebuggerCommand::ContinueToBreakpoint => self.continue_to_breakpoint(),
            DebuggerCommand::Quit => self.quit(),
        }
    }

    /// Parses one line of operator input and carries the command out. A line that is no
    /// command, or is blank, changes nothing; any other command drops whatever was pending
    /// before it runs.
    pub fn execute_debugger_command(&mut self, command: String) -> (r: Result<
        DebuggingResult,
        DebuggerCommandParseError,
    >)
        requires
            old(self).wf(),
        ensures
            final(self).wf(),
            match line_command(lower_of(trimmed(command@))) {
                Err(e) => r == Err::<DebuggingResult, DebuggerCommandParseError>(e) && final(self)@
                    == old(self)@,
                Ok(c) => r is Ok && (final(self)@, r->Ok_0) == command_spec_outcome(old(self)@, c),
            },
            (forall|i: int| 0 <= i < command@.len() ==> is_white_space(#[trigger] command@[i]))
                ==> r == Ok::<DebuggingResult, DebuggerCommandParseError>(
                Ok(DebuggingState::Running),
            ) && final(self)@ == old(self)@,
    {
        let parsed = DebuggerCommand::try_from_line(command.as_str());
        match parsed {
            Ok(DebuggerCommand::NoOp) => Ok(Ok(DebuggingState::Running)),
            Ok(c) => {
                self.pending = None;
                Ok(self.perform(c))
            },
            Err(e) => Err(e),
        }
    }

    /// Goes on with the command that stopped to wait for input or to let a continue take
    /// its next step; with nothing pending it does nothing.
    pub fn resume(&mut self) -> (r: DebuggingResult)
        requires
            old(self).wf(),
        ensures
            final(self).wf(),
            match old(self)@.pending {
                Some(c) => (final(self)@, r) == perform_spec(
                    DebuggerView { pending: None, ..old(self)@ },
                    c,
                ),
                None => final(self)@ == old(self)@ && r == Ok::<DebuggingState, DebuggingError>(
                    DebuggingState::Running,
                ),
            },
    {
        let mut pending: Option<DebuggerCommand> = None;
        std::mem::swap(&mut pending, &mut self.pending);
        match pending {
            Some(c) => self.perform(c),
            None => Ok(DebuggingState::Running),
        }
    }
}

} // verus!

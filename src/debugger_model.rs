use vstd::prelude::*;

use crate::command::CommandView;
use crate::debugger::{DebuggingError, DebuggingResult, DebuggingState, ReportView};
use crate::executor::{command_outcome, step, EngineView, ExecutionState, Int};
use crate::instruction::ExecutorCommand;
use crate::marks::{lemma_remark_moves_label, marked, marks_consistent, MarksView};
use crate::text::char_of;

verus! {

/// A debugger session: the machine, the two mark tables, the breakpoints, the two jump
/// histories, whether input has run out, the command to resume, and the reports not yet
/// taken.
pub struct DebuggerView {
    pub engine: EngineView,
    pub instruction_marks: MarksView,
    pub cell_marks: MarksView,
    pub breakpoints: Set<usize>,
    pub jump_history: Seq<usize>,
    pub cell_history: Seq<usize>,
    pub input_closed: bool,
    pub pending: Option<CommandView>,
    pub reports: Seq<ReportView>,
}

/// What a command leaves behind, and what it returns.
pub type Outcome = (DebuggerView, DebuggingResult);

pub open spec fn label(t: Map<usize, Seq<char>>, i: usize) -> Option<Seq<char>> {
    if t.contains_key(i) {
        Some(t[i])
    } else {
        None
    }
}

pub open spec fn or_default(index: Option<usize>, d: usize) -> usize {
    match index {
        Some(i) => i,
        None => d,
    }
}

pub open spec fn running(m: DebuggerView) -> Outcome {
    (m, Ok(DebuggingState::Running))
}

pub open spec fn failing(m: DebuggerView, e: DebuggingError) -> Outcome {
    (m, Err(e))
}

pub open spec fn with_report(m: DebuggerView, r: ReportView) -> DebuggerView {
    DebuggerView { reports: m.reports.push(r), ..m }
}

pub open spec fn instruction_detail(m: DebuggerView, i: usize) -> ReportView {
    ReportView::Instruction(
        i,
        m.engine.program[i as int],
        label(m.instruction_marks.labels, i),
        m.breakpoints.contains(i),
    )
}

pub open spec fn cell_detail(m: DebuggerView, i: usize) -> ReportView {
    ReportView::Cell(
        i,
        m.engine.tape[i as int],
        char_of(m.engine.tape[i as int] as int),
        label(m.cell_marks.labels, i),
    )
}

pub open spec fn instruction_entry(m: DebuggerView, i: usize) -> ReportView {
    ReportView::InstructionEntry(
        i,
        m.engine.program[i as int],
        label(m.instruction_marks.labels, i),
        m.breakpoints.contains(i),
    )
}

pub open spec fn cell_entry(m: DebuggerView, i: usize) -> ReportView {
    ReportView::CellEntry(i, m.engine.tape[i as int], label(m.cell_marks.labels, i))
}

/// The listing of instructions `lo..=hi`.
pub open spec fn instruction_entries(m: DebuggerView, lo: int, hi: int) -> Seq<ReportView> {
    Seq::new((hi + 1 - lo) as nat, |k: int| instruction_entry(m, (lo + k) as usize))
}

/// The listing of cells `lo..=hi`.
pub open spec fn cell_entries(m: DebuggerView, lo: int, hi: int) -> Seq<ReportView> {
    Seq::new((hi + 1 - lo) as nat, |k: int| cell_entry(m, (lo + k) as usize))
}

/// The first index of a window of `n` places on each side of `i`.
pub open spec fn window_low(i: int, n: int) -> int {
    if i >= n {
        i - n
    } else {
        0
    }
}

/// The last index of a window of `n` places on each side of `i`, clamped to `len - 1`.
pub open spec fn window_high(i: int, n: int, len: int) -> int {
    if i + n >= len {
        len - 1
    } else {
        i + n
    }
}

pub open spec fn print_instruction_spec(m: DebuggerView, index: Option<usize>) -> Outcome {
    let i = or_default(index, m.engine.pc);
    if i < m.engine.program.len() {
        running(with_report(m, instruction_detail(m, i)))
    } else {
        failing(m, DebuggingError::IndexOutOfBounds)
    }
}

pub open spec fn print_cell_spec(m: DebuggerView, index: Option<usize>) -> Outcome {
    let i = or_default(index, m.engine.pointer);
    if i < m.engine.tape.len() {
        running(with_report(m, cell_detail(m, i)))
    } else {
        failing(m, DebuggingError::IndexOutOfBounds)
    }
}

pub open spec fn print_all_instructions_spec(m: DebuggerView) -> Outcome {
    running(
        DebuggerView {
            reports: m.reports + instruction_entries(m, 0, m.engine.program.len() - 1),
            ..m
        },
    )
}

pub open spec fn print_all_cells_spec(m: DebuggerView) -> Outcome {
    running(DebuggerView { reports: m.reports + cell_entries(m, 0, m.engine.tape.len() - 1), ..m })
}

pub open spec fn long_list_instruction_spec(
    m: DebuggerView,
    length: usize,
    index: Option<usize>,
) -> Outcome {
    let i = or_default(index, m.engine.pc);
    let len = m.engine.program.len() as int;
    if i < len {
        running(
            DebuggerView {
                reports: m.reports + instruction_entries(
                    m,
                    window_low(i as int, length as int),
                    window_high(i as int, length as int, len),
                ),
                ..m
            },
        )
    } else {
        failing(m, DebuggingError::IndexOutOfBounds)
    }
}

pub open spec fn long_list_cell_spec(m: DebuggerView, length: usize, index: Option<usize>) -> Outcome {
    let i = or_default(index, m.engine.pointer);
    let len = m.engine.tape.len() as int;
    if i < len {
        running(
            DebuggerView {
                reports: m.reports + cell_entries(
                    m,
                    window_low(i as int, length as int),
                    window_high(i as int, length as int, len),
                ),
                ..m
            },
        )
    } else {
        failing(m, DebuggingError::IndexOutOfBounds)
    }
}

pub open spec fn long_list_marked_instruction_spec(
    m: DebuggerView,
    length: usize,
    name: Seq<char>,
) -> Outcome {
    if m.instruction_marks.names.contains_key(name) {
        long_list_instruction_spec(m, length, Some(m.instruction_marks.names[name]))
    } else {
        failing(m, DebuggingError::MarkNotFound)
    }
}

pub open spec fn long_list_marked_cell_spec(m: DebuggerView, length: usize, name: Seq<char>) -> Outcome {
    if m.cell_marks.names.contains_key(name) {
        long_list_cell_spec(m, length, Some(m.cell_marks.names[name]))
    } else {
        failing(m, DebuggingError::MarkNotFound)
    }
}

pub open spec fn set_cell_spec(m: DebuggerView, value: Int, index: Option<usize>) -> Outcome {
    let i = or_default(index, m.engine.pointer);
    if i < m.engine.tape.len() {
        running(
            DebuggerView {
                engine: EngineView { tape: m.engine.tape.update(i as int, value), ..m.engine },
                ..m
            },
        )
    } else {
        failing(m, DebuggingError::IndexOutOfBounds)
    }
}

pub open spec fn set_marked_cell_spec(m: DebuggerView, value: Int, name: Seq<char>) -> Outcome {
    if m.cell_marks.names.contains_key(name) {
        set_cell_spec(m, value, Some(m.cell_marks.names[name]))
    } else {
        failing(m, DebuggingError::MarkNotFound)
    }
}

/// The instruction that a character of `run_instruction` stands for.
pub open spec fn injected(c: char) -> Option<ExecutorCommand> {
    if c == '+' {
        Some(ExecutorCommand::Increment)
    } else if c == '-' {
        Some(ExecutorCommand::Decrement)
    } else if c == '>' {
        Some(ExecutorCommand::MoveRight)
    } else if c == '<' {
        Some(ExecutorCommand::MoveLeft)
    } else if c == '.' {
        Some(ExecutorCommand::Output)
    } else if c == ',' {
        Some(ExecutorCommand::Input)
    } else {
        None
    }
}

/// One report for each character written.
pub open spec fn output_reports(s: Seq<char>) -> Seq<ReportView>
    decreases s.len(),
{
    if s.len() == 0 {
        Seq::empty()
    } else {
        output_reports(s.drop_last()).push(written_report(s.last()))
    }
}

/// The report of one written character.
pub open spec fn written_report(c: char) -> ReportView {
    ReportView::Written(c)
}

/// The engine `e` installed, with the characters it wrote moved into the reports.
pub open spec fn with_engine(m: DebuggerView, e: EngineView) -> DebuggerView {
    DebuggerView {
        engine: EngineView { output: Seq::empty(), ..e },
        reports: m.reports + output_reports(e.output),
        ..m
    }
}

/// Whether running `c` has to wait for a byte of input first.
pub open spec fn must_wait(m: DebuggerView, c: ExecutorCommand) -> bool {
    c == ExecutorCommand::Input && m.engine.input.len() == 0 && !m.input_closed
}

pub open spec fn awaiting(m: DebuggerView, resume: CommandView) -> Outcome {
    (DebuggerView { pending: Some(resume), ..m }, Ok(DebuggingState::AwaitingInput))
}

pub open spec fn run_instruction_spec(m: DebuggerView, c: char) -> Outcome {
    match injected(c) {
        None => failing(m, DebuggingError::InvalidInstruction),
        Some(cmd) => if must_wait(m, cmd) {
            awaiting(m, CommandView::RunInstruction(c))
        } else {
            match command_outcome(m.engine, cmd) {
                Ok(e) => running(with_engine(m, e)),
                Err(err) => (with_report(m, ReportView::Failure(err)), Ok(DebuggingState::Finished)),
            }
        },
    }
}

/// Runs the characters of `s` in order; stops at the first that fails, ends the session
/// or has to wait for input.
pub open spec fn run_instructions_spec(m: DebuggerView, s: Seq<char>) -> Outcome
    decreases s.len(),
{
    if s.len() == 0 {
        running(m)
    } else {
        let (m1, r1) = run_instruction_spec(m, s[0]);
        match r1 {
            Ok(DebuggingState::Running) => run_instructions_spec(m1, s.drop_first()),
            Ok(DebuggingState::AwaitingInput) => awaiting(m1, CommandView::RunInstructions(s)),
            _ => (m1, r1),
        }
    }
}

pub open spec fn mark_spec(m: DebuggerView, name: Seq<char>, index: Option<usize>) -> Outcome {
    let i = or_default(index, m.engine.pc);
    if i < m.engine.program.len() {
        running(DebuggerView { instruction_marks: marked(m.instruction_marks, name, i), ..m })
    } else {
        failing(m, DebuggingError::IndexOutOfBounds)
    }
}

pub open spec fn mark_cell_spec(m: DebuggerView, name: Seq<char>, index: Option<usize>) -> Outcome {
    let i = or_default(index, m.engine.pointer);
    if i < m.engine.tape.len() {
        running(DebuggerView { cell_marks: marked(m.cell_marks, name, i), ..m })
    } else {
        failing(m, DebuggingError::IndexOutOfBounds)
    }
}

pub open spec fn jump_spec(m: DebuggerView, index: usize) -> Outcome {
    if index < m.engine.program.len() {
        running(
            DebuggerView {
                engine: EngineView { pc: index, ..m.engine },
                jump_history: m.jump_history.push(m.engine.pc),
                ..m
            },
        )
    } else {
        failing(m, DebuggingError::IndexOutOfBounds)
    }
}

pub open spec fn jump_mark_spec(m: DebuggerView, name: Seq<char>) -> Outcome {
    if m.instruction_marks.names.contains_key(name) {
        jump_spec(m, m.instruction_marks.names[name])
    } else {
        failing(m, DebuggingError::MarkNotFound)
    }
}

pub open spec fn jump_cell_spec(m: DebuggerView, index: usize) -> Outcome {
    if index < m.engine.tape.len() {
        running(
            DebuggerView {
                engine: EngineView { pointer: index, ..m.engine },
                cell_history: m.cell_history.push(m.engine.pointer),
                ..m
            },
        )
    } else {
        failing(m, DebuggingError::IndexOutOfBounds)
    }
}

pub open spec fn jump_marked_cell_spec(m: DebuggerView, name: Seq<char>) -> Outcome {
    if m.cell_marks.names.contains_key(name) {
        jump_cell_spec(m, m.cell_marks.names[name])
    } else {
        failing(m, DebuggingError::MarkNotFound)
    }
}

pub open spec fn jump_back_spec(m: DebuggerView) -> Outcome {
    if m.jump_history.len() == 0 {
        failing(m, DebuggingError::JumpHistoryEmpty)
    } else {
        running(
            DebuggerView {
                engine: EngineView { pc: m.jump_history.last(), ..m.engine },
                jump_history: m.jump_history.drop_last(),
                ..m
            },
        )
    }
}

pub open spec fn jump_back_cell_spec(m: DebuggerView) -> Outcome {
    if m.cell_history.len() == 0 {
        failing(m, DebuggingError::JumpHistoryEmpty)
    } else {
        let h = m.cell_history.last();
        running(
            DebuggerView {
                engine: if h < m.engine.tape.len() {
                    EngineView { pointer: h, ..m.engine }
                } else {
                    m.engine
                },
                cell_history: m.cell_history.drop_last(),
                ..m
            },
        )
    }
}

pub open spec fn breakpoint_spec(m: DebuggerView, index: Option<usize>) -> Outcome {
    let i = or_default(index, m.engine.pc);
    if i < m.engine.program.len() {
        running(DebuggerView { breakpoints: m.breakpoints.insert(i), ..m })
    } else {
        failing(m, DebuggingError::IndexOutOfBounds)
    }
}

pub open spec fn breakpoint_mark_spec(m: DebuggerView, name: Seq<char>) -> Outcome {
    if m.instruction_marks.names.contains_key(name) {
        breakpoint_spec(m, Some(m.instruction_marks.names[name]))
    } else {
        failing(m, DebuggingError::MarkNotFound)
    }
}

pub open spec fn remove_breakpoint_spec(m: DebuggerView, index: Option<usize>) -> Outcome {
    let i = or_default(index, m.engine.pc);
    if m.breakpoints.contains(i) {
        running(DebuggerView { breakpoints: m.breakpoints.remove(i), ..m })
    } else {
        failing(m, DebuggingError::BreakpointNotFound)
    }
}

pub open spec fn remove_breakpoint_mark_spec(m: DebuggerView, name: Seq<char>) -> Outcome {
    if m.instruction_marks.names.contains_key(name) {
        remove_breakpoint_spec(m, Some(m.instruction_marks.names[name]))
    } else {
        failing(m, DebuggingError::MarkNotFound)
    }
}

/// The instruction now at the program counter is shown, if there is one.
pub open spec fn show_current(m: DebuggerView) -> DebuggerView {
    print_instruction_spec(m, None).0
}

/// One step of the program; the instruction at the new program counter is shown after it.
pub open spec fn step_spec(m: DebuggerView) -> Outcome {
    let e = m.engine;
    if e.pc < e.program.len() && must_wait(m, e.program[e.pc as int]) {
        awaiting(m, CommandView::Step)
    } else {
        match step(e) {
            Ok((w, ExecutionState::Running)) => running(show_current(with_engine(m, w))),
            Ok((w, ExecutionState::Finished)) => (
                show_current(with_engine(m, w)),
                Ok(DebuggingState::Finished),
            ),
            Err(err) => (
                show_current(with_report(m, ReportView::Failure(err))),
                Ok(DebuggingState::Finished),
            ),
        }
    }
}

/// One step of a continue: it ends with the program, pauses on a breakpoint, or goes on.
pub open spec fn continue_spec(m: DebuggerView) -> Outcome {
    let (m1, r1) = step_spec(m);
    match r1 {
        Ok(DebuggingState::AwaitingInput) => awaiting(m1, CommandView::ContinueToBreakpoint),
        Ok(DebuggingState::Running) => if m1.breakpoints.contains(m1.engine.pc) {
            (m1, Ok(DebuggingState::Paused))
        } else {
            (
                DebuggerView { pending: Some(CommandView::ContinueToBreakpoint), ..m1 },
                Ok(DebuggingState::Continuing),
            )
        },
        _ => (m1, r1),
    }
}

/// What carrying out command `c` does to the session `m` (whose pending command is
/// already cleared).
pub open spec fn perform_spec(m: DebuggerView, c: CommandView) -> Outcome {
    match c {
        CommandView::NoOp => running(m),
        CommandView::PrintInstruction(i) => print_instruction_spec(m, i),
        CommandView::PrintCell(i) => print_cell_spec(m, i),
        CommandView::PrintAllInstructions => print_all_instructions_spec(m),
        CommandView::PrintAllCells => print_all_cells_spec(m),
        CommandView::ListInstruction(i) => long_list_instruction_spec(m, 5, i),
        CommandView::LongListInstruction(n, i) => long_list_instruction_spec(m, n, i),
        CommandView::ListMarkedInstruction(s) => long_list_marked_instruction_spec(m, 5, s),
        CommandView::LongListMarkedInstruction(n, s) => long_list_marked_instruction_spec(m, n, s),
        CommandView::ListCell(i) => long_list_cell_spec(m, 5, i),
        CommandView::LongListCell(n, i) => long_list_cell_spec(m, n, i),
        CommandView::ListMarkedCell(s) => long_list_marked_cell_spec(m, 5, s),
        CommandView::LongListMarkedCell(n, s) => long_list_marked_cell_spec(m, n, s),
        CommandView::SetCell(v, i) => set_cell_spec(m, v, i),
        CommandView::SetMarkedCell(v, s) => set_marked_cell_spec(m, v, s),
        CommandView::RunInstruction(ch) => run_instruction_spec(m, ch),
        CommandView::RunInstructions(s) => run_instructions_spec(m, s),
        CommandView::Mark(s, i) => mark_spec(m, s, i),
        CommandView::MarkCell(s, i) => mark_cell_spec(m, s, i),
        CommandView::Jump(i) => jump_spec(m, i),
        CommandView::JumpMark(s) => jump_mark_spec(m, s),
        CommandView::JumpCell(i) => jump_cell_spec(m, i),
        CommandView::JumpMarkedCell(s) => jump_marked_cell_spec(m, s),
        CommandView::JumpBack => jump_back_spec(m),
        CommandView::JumpBackCell => jump_back_cell_spec(m),
        CommandView::Breakpoint(i) => breakpoint_spec(m, i),
        CommandView::BreakpointMark(s) => breakpoint_mark_spec(m, s),
        CommandView::RemoveBreakpoint(i) => remove_breakpoint_spec(m, i),
        CommandView::RemoveBreakpointMark(s) => remove_breakpoint_mark_spec(m, s),
        CommandView::Step => step_spec(m),
        CommandView::ContinueToBreakpoint => continue_spec(m),
        CommandView::Quit => (m, Ok(DebuggingState::Finished)),
    }
}

/// Command `c` given afresh: a blank line changes nothing, and any other command drops
/// whatever was pending before it runs.
pub open spec fn command_spec_outcome(m: DebuggerView, c: CommandView) -> Outcome {
    match c {
        CommandView::NoOp => running(m),
        _ => perform_spec(DebuggerView { pending: None, ..m }, c),
    }
}

/// A jump to an instruction followed by a jump back puts the program counter back where it
/// was before the jump.
pub proof fn lemma_jump_then_back(m: DebuggerView, index: usize)
    requires
        index < m.engine.program.len(),
    ensures
        jump_spec(m, index).1 == Ok::<DebuggingState, DebuggingError>(DebuggingState::Running),
        jump_back_spec(jump_spec(m, index).0).1 == Ok::<DebuggingState, DebuggingError>(
            DebuggingState::Running,
        ),
        jump_back_spec(jump_spec(m, index).0).0.engine.pc == m.engine.pc,
        jump_back_spec(jump_spec(m, index).0).0.jump_history == m.jump_history,
{
    assert(jump_spec(m, index).0.jump_history.drop_last() =~= m.jump_history);
}

/// A continue that pauses has stopped with the program counter on a breakpoint.
pub proof fn lemma_paused_on_breakpoint(m: DebuggerView)
    requires
        continue_spec(m).1 == Ok::<DebuggingState, DebuggingError>(DebuggingState::Paused),
    ensures
        continue_spec(m).0.breakpoints.contains(continue_spec(m).0.engine.pc),
{
}

/// Marking one name at instruction `i` and then at another instruction `j` succeeds both
/// times, takes the label off `i`, and leaves `j` as the one instruction that shows the name.
pub proof fn lemma_remark_instruction(m: DebuggerView, x: Seq<char>, i: usize, j: usize)
    requires
        marks_consistent(m.instruction_marks),
        i < m.engine.program.len(),
        j < m.engine.program.len(),
        i != j,
    ensures
        ({
            let (m1, r1) = mark_spec(m, x, Some(i));
            let (m2, r2) = mark_spec(m1, x, Some(j));
            let t = m2.instruction_marks;
            &&& r1 == Ok::<DebuggingState, DebuggingError>(DebuggingState::Running)
            &&& r2 == Ok::<DebuggingState, DebuggingError>(DebuggingState::Running)
            &&& !t.labels.contains_key(i)
            &&& t.names.contains_key(x) && t.names[x] == j
            &&& t.labels.contains_key(j) && t.labels[j] == x
            &&& forall|k: usize| #[trigger] t.labels.contains_key(k) && t.labels[k] == x ==> k == j
        }),
{
    lemma_remark_moves_label(m.instruction_marks, x, i, j);
}

/// Marking one name at cell `i` and then at another cell `j` succeeds both times, takes the
/// label off `i`, and leaves `j` as the one cell that shows the name.
pub proof fn lemma_remark_cell(m: DebuggerView, x: Seq<char>, i: usize, j: usize)
    requires
        marks_consistent(m.cell_marks),
        i < m.engine.tape.len(),
        j < m.engine.tape.len(),
        i != j,
    ensures
        ({
            let (m1, r1) = mark_cell_spec(m, x, Some(i));
            let (m2, r2) = mark_cell_spec(m1, x, Some(j));
            let t = m2.cell_marks;
            &&& r1 == Ok::<DebuggingState, DebuggingError>(DebuggingState::Running)
            &&& r2 == Ok::<DebuggingState, DebuggingError>(DebuggingState::Running)
            &&& !t.labels.contains_key(i)
            &&& t.names.contains_key(x) && t.names[x] == j
            &&& t.labels.contains_key(j) && t.labels[j] == x
            &&& forall|k: usize| #[trigger] t.labels.contains_key(k) && t.labels[k] == x ==> k == j
        }),
{
    lemma_remark_moves_label(m.cell_marks, x, i, j);
}

} // verus!

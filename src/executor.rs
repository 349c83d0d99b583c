use vstd::prelude::*;

use crate::instruction::ExecutorCommand;
use crate::text::{char_of, decode_char};
use crate::translate::back_jumps_fit;

verus! {

/// The value of one tape cell.
pub type Int = i128;

/// Whether a run goes on after a step.
#[derive(Clone, Copy, Debug, PartialEq, Eq, Structural)]
pub enum ExecutionState {
    Running,
    Finished,
}

/// Why an instruction could not run. Each one ends the run.
#[derive(Clone, Copy, Debug, PartialEq, Eq, Structural)]
pub enum ExecutionError {
    ProgramCounterOutOfRange,
    TooFarLeft,
    TooFarRight,
    Overflow,
    Underflow,
    InvalidCharacter,
    InputError,
}

impl ExecutionError {
    /// The text shown to the user.
    pub fn message(&self) -> (r: &'static str) {
        match self {
            ExecutionError::ProgramCounterOutOfRange => "Index Error: The program counter is out of range.",
            ExecutionError::TooFarLeft => "Index Error: You have gone too far to the left!",
            ExecutionError::TooFarRight => "Index Error: You have gone too far to the right!",
            ExecutionError::Overflow => "Overflow Error: The number in the cell has reached its maximum!",
            ExecutionError::Underflow => "Overflow Error: The number in the cell has reached its minimum!",
            ExecutionError::InvalidCharacter => "Value Error: The value in the cell is not a valid Unicode character!",
            ExecutionError::InputError => "IO Error: Unable to get character input!",
        }
    }
}

/// The state of the machine: tape, data pointer, program counter, program, the input
/// bytes not read yet and the characters written and not yet taken.
pub struct EngineView {
    pub tape: Seq<Int>,
    pub pointer: usize,
    pub pc: usize,
    pub program: Seq<ExecutorCommand>,
    pub input: Seq<u8>,
    pub output: Seq<char>,
}

/// What running instruction `c` does to the machine `v`, whose data pointer is on the tape.
pub open spec fn apply(v: EngineView, c: ExecutorCommand) -> Result<EngineView, ExecutionError> {
    let p = v.pointer as int;
    match c {
        ExecutorCommand::MoveRight => Ok(
            EngineView {
                pointer: (v.pointer + 1) as usize,
                tape: if p + 1 == v.tape.len() {
                    v.tape.push(0)
                } else {
                    v.tape
                },
                ..v
            },
        ),
        ExecutorCommand::MoveLeft => if v.pointer == 0 {
            Err(ExecutionError::TooFarLeft)
        } else {
            Ok(EngineView { pointer: (v.pointer - 1) as usize, ..v })
        },
        ExecutorCommand::Increment => if v.tape[p] == Int::MAX {
            Err(ExecutionError::Overflow)
        } else {
            Ok(EngineView { tape: v.tape.update(p, (v.tape[p] + 1) as Int), ..v })
        },
        ExecutorCommand::Decrement => if v.tape[p] == Int::MIN {
            Err(ExecutionError::Underflow)
        } else {
            Ok(EngineView { tape: v.tape.update(p, (v.tape[p] - 1) as Int), ..v })
        },
        ExecutorCommand::Output => match char_of(v.tape[p] as int) {
            Some(ch) => Ok(EngineView { output: v.output.push(ch), ..v }),
            None => Err(ExecutionError::InvalidCharacter),
        },
        ExecutorCommand::Input => if v.input.len() == 0 {
            Err(ExecutionError::InputError)
        } else {
            Ok(EngineView { tape: v.tape.update(p, v.input[0] as Int), input: v.input.drop_first(), ..v })
        },
        ExecutorCommand::JumpForward(t) => if t > v.program.len() {
            Err(ExecutionError::TooFarRight)
        } else if v.tape[p] == 0 {
            Ok(EngineView { pc: t, ..v })
        } else {
            Ok(v)
        },
        ExecutorCommand::JumpBack(t) => if v.tape[p] != 0 {
            Ok(EngineView { pc: t, ..v })
        } else {
            Ok(v)
        },
    }
}

/// What injecting instruction `c` does: it needs the program counter on the program.
pub open spec fn command_outcome(v: EngineView, c: ExecutorCommand) -> Result<
    EngineView,
    ExecutionError,
> {
    if v.pc >= v.program.len() {
        Err(ExecutionError::ProgramCounterOutOfRange)
    } else if v.pointer >= v.tape.len() {
        Err(ExecutionError::TooFarRight)
    } else {
        apply(v, c)
    }
}

/// One step of the program: the instruction at the program counter runs, then the program
/// counter moves on by one; past the last instruction the run is finished.
pub open spec fn step(v: EngineView) -> Result<(EngineView, ExecutionState), ExecutionError> {
    if v.pc >= v.program.len() {
        Ok((v, ExecutionState::Finished))
    } else {
        match apply(v, v.program[v.pc as int]) {
            Ok(w) => Ok((EngineView { pc: (w.pc + 1) as usize, ..w }, ExecutionState::Running)),
            Err(e) => Err(e),
        }
    }
}

/// The tape machine that runs a translated program.
pub struct ExecutorState {
    pointer: usize,
    array: Vec<Int>,
    pc: usize,
    commands: Vec<ExecutorCommand>,
    input: Vec<u8>,
    output: Vec<char>,
}

impl View for ExecutorState {
    type V = EngineView;

    closed spec fn view(&self) -> EngineView {
        EngineView {
            tape: self.array@,
            pointer: self.pointer,
            pc: self.pc,
            program: self.commands@,
            input: self.input@,
            output: self.output@,
        }
    }
}

/// The tape is never empty, the data pointer is on it, and the program counter can move on
/// by one after any backward jump.
pub open spec fn engine_wf(v: EngineView) -> bool {
    &&& v.tape.len() >= 1
    &&& v.pointer < v.tape.len()
    &&& back_jumps_fit(v.program)
    &&& v.program.len() < usize::MAX
}

impl ExecutorState {
    pub open spec fn wf(&self) -> bool {
        engine_wf(self@)
    }

    /// A machine at the start of `commands`: one zero cell, pointer and program counter at 0.
    pub fn new(commands: Vec<ExecutorCommand>) -> (r: ExecutorState)
        requires
            back_jumps_fit(commands@),
            commands@.len() < usize::MAX,
        ensures
            r.wf(),
            r@ == (EngineView {
                tape: seq![0],
                pointer: 0,
                pc: 0,
                program: commands@,
                input: Seq::empty(),
                output: Seq::empty(),
            }),
    {
        let mut array: Vec<Int> = Vec::new();
        array.push(0);
        let r = ExecutorState {
            pointer: 0,
            array,
            pc: 0,
            commands,
            input: Vec::new(),
            output: Vec::new(),
        };
        assert(r@.tape =~= seq![0]);
        r
    }

    /// Runs the instruction at the program counter and moves the program counter on, or
    /// reports that the program is finished.
    pub fn execute_once(&mut self) -> (r: Result<ExecutionState, ExecutionError>)
        requires
            old(self).wf(),
        ensures
            final(self).wf(),
            match step(old(self)@) {
                Ok((w, s)) => r == Ok::<ExecutionState, ExecutionError>(s) && final(self)@ == w,
                Err(e) => r == Err::<ExecutionState, ExecutionError>(e) && final(self)@ == old(
                    self,
                )@,
            },
    {
        if self.pc >= self.commands.len() {
            return Ok(ExecutionState::Finished);
        }
        let current_cmd = self.commands[self.pc];
        assert(current_cmd is JumpBack ==> current_cmd->JumpBack_0 < usize::MAX);
        match self.execute_command(current_cmd) {
            Ok(_) => {},
            Err(e) => {
                return Err(e);
            },
        }
        self.increment_pc();
        Ok(ExecutionState::Running)
    }

    /// Runs instruction `command` without moving the program counter on; the program
    /// counter must be on the program.
    pub fn execute_command(&mut self, command: ExecutorCommand) -> (r: Result<
        usize,
        ExecutionError,
    >)
        requires
            old(self).wf(),
        ensures
            final(self).wf(),
            match command_outcome(old(self)@, command) {
                Ok(w) => r == Ok::<usize, ExecutionError>(w.pc) && final(self)@ == w,
                Err(e) => r == Err::<usize, ExecutionError>(e) && final(self)@ == old(self)@,
            },
    {
        match self.check_state_valid() {
            Ok(()) => {},
            Err(e) => {
                return Err(e);
            },
        }
        let r = match command {
            ExecutorCommand::MoveRight => self.move_to_the_right(),
            ExecutorCommand::MoveLeft => self.move_to_the_left(),
            ExecutorCommand::Increment => self.increment(),
            ExecutorCommand::Decrement => self.decrement(),
            ExecutorCommand::Input => self.input(),
            ExecutorCommand::Output => self.output(),
            ExecutorCommand::JumpForward(pos) => self.jump_forward(pos),
            ExecutorCommand::JumpBack(pos) => self.jump_back(pos),
        };
        match r {
            Ok(_) => Ok(self.pc),
            Err(e) => Err(e),
        }
    }

    /// Moves the program counter on by one.
    pub fn increment_pc(&mut self)
        requires
            old(self)@.pc < usize::MAX,
        ensures
            final(self)@ == (EngineView { pc: (old(self)@.pc + 1) as usize, ..old(self)@ }),
    {
        self.pc = self.pc + 1;
    }

    pub fn get_cells(&self) -> (r: &Vec<Int>)
        ensures
            r@ == self@.tape,
    {
        &self.array
    }

    pub fn get_commands(&self) -> (r: &Vec<ExecutorCommand>)
        ensures
            r@ == self@.program,
    {
        &self.commands
    }

    pub fn get_pc(&self) -> (r: usize)
        ensures
            r == self@.pc,
    {
        self.pc
    }

    pub fn get_pointer(&self) -> (r: usize)
        ensures
            r == self@.pointer,
    {
        self.pointer
    }

    pub fn get_cell(&self, index: usize) -> (r: Option<Int>)
        ensures
            r == if index < self@.tape.len() {
                Some(self@.tape[index as int])
            } else {
                None::<Int>
            },
    {
        if index < self.array.len() {
            Some(self.array[index])
        } else {
            None
        }
    }

    pub fn get_command(&self, index: usize) -> (r: Option<ExecutorCommand>)
        ensures
            r == if index < self@.program.len() {
                Some(self@.program[index as int])
            } else {
                None::<ExecutorCommand>
            },
    {
        if index < self.commands.len() {
            Some(self.commands[index])
        } else {
            None
        }
    }

    pub fn get_array_len(&self) -> (r: usize)
        ensures
            r == self@.tape.len(),
    {
        self.array.len()
    }

    pub fn get_commands_len(&self) -> (r: usize)
        ensures
            r == self@.program.len(),
    {
        self.commands.len()
    }

    /// Puts the program counter on instruction `index`, if there is one.
    pub fn set_pc(&mut self, index: usize) -> (r: bool)
        ensures
            r == (index < old(self)@.program.len()),
            final(self)@ == if r {
                EngineView { pc: index, ..old(self)@ }
            } else {
                old(self)@
            },
    {
        if self.validate_command_index(index) {
            self.pc = index;
            true
        } else {
            false
        }
    }

    /// Puts the program counter back where it was; a value past the program means that the
    /// program has finished.
    pub fn restore_pc(&mut self, pc: usize)
        ensures
            final(self)@ == (EngineView { pc, ..old(self)@ }),
    {
        self.pc = pc;
    }

    /// Puts the data pointer on cell `index`, if there is one.
    pub fn set_pointer(&mut self, index: usize) -> (r: bool)
        ensures
            r == (index < old(self)@.tape.len()),
            final(self)@ == if r {
                EngineView { pointer: index, ..old(self)@ }
            } else {
                old(self)@
            },
    {
        if self.validate_cell_index(index) {
            self.pointer = index;
            true
        } else {
            false
        }
    }

    /// Overwrites cell `index`, if there is one.
    pub fn set_cell_value(&mut self, index: usize, value: Int) -> (r: bool)
        ensures
            r == (index < old(self)@.tape.len()),
            final(self)@ == if r {
                EngineView { tape: old(self)@.tape.update(index as int, value), ..old(self)@ }
            } else {
                old(self)@
            },
    {
        if self.validate_cell_index(index) {
            self.array.set(index, value);
            true
        } else {
            false
        }
    }

    pub fn validate_command_index(&self, index: usize) -> (r: bool)
        ensures
            r == (index < self@.program.len()),
    {
        index < self.commands.len()
    }

    pub fn validate_cell_index(&self, index: usize) -> (r: bool)
        ensures
            r == (index < self@.tape.len()),
    {
        index < self.array.len()
    }

    /// Whether the next step reads input and none is waiting.
    pub fn needs_input(&self) -> (r: bool)
        ensures
            r == (self@.pc < self@.program.len() && self@.program[self@.pc as int]
                == ExecutorCommand::Input && self@.input.len() == 0),
    {
        self.pc < self.commands.len() && self.commands[self.pc] == ExecutorCommand::Input
            && self.input.len() == 0
    }

    /// Whether a byte of input is waiting to be read.
    pub fn has_input(&self) -> (r: bool)
        ensures
            r == (self@.input.len() > 0),
    {
        self.input.len() > 0
    }

    /// Hands the machine one more byte of input.
    pub fn provide_input(&mut self, byte: u8)
        ensures
            final(self)@ == (EngineView { input: old(self)@.input.push(byte), ..old(self)@ }),
    {
        self.input.push(byte);
    }

    /// Takes the characters written since the last call.
    pub fn take_output(&mut self) -> (r: Vec<char>)
        ensures
            r@ == old(self)@.output,
            final(self)@ == (EngineView { output: Seq::empty(), ..old(self)@ }),
    {
        let mut out: Vec<char> = Vec::new();
        std::mem::swap(&mut out, &mut self.output);
        out
    }

    fn check_state_valid(&self) -> (r: Result<(), ExecutionError>)
        ensures
            r == if self@.pc >= self@.program.len() {
                Err(ExecutionError::ProgramCounterOutOfRange)
            } else if self@.pointer >= self@.tape.len() {
                Err(ExecutionError::TooFarRight)
            } else {
                Ok(())
            },
    {
        if self.pc >= self.commands.len() {
            Err(ExecutionError::ProgramCounterOutOfRange)
        } else if self.pointer >= self.array.len() {
            Err(ExecutionError::TooFarRight)
        } else {
            Ok(())
        }
    }

    fn move_to_the_right(&mut self) -> (r: Result<ExecutionState, ExecutionError>)
        requires
            old(self).wf(),
        ensures
            final(self).wf(),
            match apply(old(self)@, ExecutorCommand::MoveRight) {
                Ok(w) => r is Ok && final(self)@ == w,
                Err(e) => r == Err::<ExecutionState, ExecutionError>(e) && final(self)@ == old(self)@,
            },
    {
        let len = self.array.len();
        self.pointer = self.pointer + 1;
        if self.pointer >= len {
            self.array.push(0);
        }
        Ok(ExecutionState::Running)
    }

    fn move_to_the_left(&mut self) -> (r: Result<ExecutionState, ExecutionError>)
        requires
            old(self).wf(),
        ensures
            final(self).wf(),
            match apply(old(self)@, ExecutorCommand::MoveLeft) {
                Ok(w) => r is Ok && final(self)@ == w,
                Err(e) => r == Err::<ExecutionState, ExecutionError>(e) && final(self)@ == old(self)@,
            },
    {
        if self.pointer == 0 {
            Err(ExecutionError::TooFarLeft)
        } else {
            self.pointer = self.pointer - 1;
            Ok(ExecutionState::Running)
        }
    }

    fn increment(&mut self) -> (r: Result<ExecutionState, ExecutionError>)
        requires
            old(self).wf(),
        ensures
            final(self).wf(),
            match apply(old(self)@, ExecutorCommand::Increment) {
                Ok(w) => r is Ok && final(self)@ == w,
                Err(e) => r == Err::<ExecutionState, ExecutionError>(e) && final(self)@ == old(self)@,
            },
    {
        let value = self.array[self.pointer];
        if value == Int::MAX {
            Err(ExecutionError::Overflow)
        } else {
            self.array.set(self.pointer, value + 1);
            Ok(ExecutionState::Running)
        }
    }

    fn decrement(&mut self) -> (r: Result<ExecutionState, ExecutionError>)
        requires
            old(self).wf(),
        ensures
            final(self).wf(),
            match apply(old(self)@, ExecutorCommand::Decrement) {
                Ok(w) => r is Ok && final(self)@ == w,
                Err(e) => r == Err::<ExecutionState, ExecutionError>(e) && final(self)@ == old(self)@,
            },
    {
        let value = self.array[self.pointer];
        if value == Int::MIN {
            Err(ExecutionError::Underflow)
        } else {
            self.array.set(self.pointer, value - 1);
            Ok(ExecutionState::Running)
        }
    }

    fn output(&mut self) -> (r: Result<ExecutionState, ExecutionError>)
        requires
            old(self).wf(),
        ensures
            final(self).wf(),
            match apply(old(self)@, ExecutorCommand::Output) {
                Ok(w) => r is Ok && final(self)@ == w,
                Err(e) => r == Err::<ExecutionState, ExecutionError>(e) && final(self)@ == old(self)@,
            },
    {
        match decode_char(self.array[self.pointer]) {
            Some(c) => {
                self.output.push(c);
                Ok(ExecutionState::Running)
            },
            None => Err(ExecutionError::InvalidCharacter),
        }
    }

    fn input(&mut self) -> (r: Result<ExecutionState, ExecutionError>)
        requires
            old(self).wf(),
        ensures
            final(self).wf(),
            match apply(old(self)@, ExecutorCommand::Input) {
                Ok(w) => r is Ok && final(self)@ == w,
                Err(e) => r == Err::<ExecutionState, ExecutionError>(e) && final(self)@ == old(self)@,
            },
    {
        if self.input.len() == 0 {
            return Err(ExecutionError::InputError);
        }
        let byte = self.input.remove(0);
        self.array.set(self.pointer, byte as Int);
        Ok(ExecutionState::Running)
    }

    fn jump_forward(&mut self, pos: usize) -> (r: Result<ExecutionState, ExecutionError>)
        requires
            old(self).wf(),
        ensures
            final(self).wf(),
            match apply(old(self)@, ExecutorCommand::JumpForward(pos)) {
                Ok(w) => r is Ok && final(self)@ == w,
                Err(e) => r == Err::<ExecutionState, ExecutionError>(e) && final(self)@ == old(self)@,
            },
    {
        if pos > self.commands.len() {
            Err(ExecutionError::TooFarRight)
        } else {
            if self.array[self.pointer] == 0 {
                self.pc = pos;
            }
            Ok(ExecutionState::Running)
        }
    }

    fn jump_back(&mut self, pos: usize) -> (r: Result<ExecutionState, ExecutionError>)
        requires
            old(self).wf(),
        ensures
            final(self).wf(),
            match apply(old(self)@, ExecutorCommand::JumpBack(pos)) {
                Ok(w) => r is Ok && final(self)@ == w,
                Err(e) => r == Err::<ExecutionState, ExecutionError>(e) && final(self)@ == old(self)@,
            },
    {
        if self.array[self.pointer] != 0 {
            self.pc = pos;
        }
        Ok(ExecutionState::Running)
    }
}

/// Moving left from the first cell always fails with `TooFarLeft`, injected or as a step of
/// the program; the failed instruction changes nothing.
pub proof fn lemma_move_left_at_origin(v: EngineView)
    requires
        engine_wf(v),
        v.pointer == 0,
    ensures
        v.pc < v.program.len() ==> command_outcome(v, ExecutorCommand::MoveLeft) == Err::<
            EngineView,
            ExecutionError,
        >(ExecutionError::TooFarLeft),
        v.pc < v.program.len() && v.program[v.pc as int] == ExecutorCommand::MoveLeft ==> step(v)
            == Err::<(EngineView, ExecutionState), ExecutionError>(ExecutionError::TooFarLeft),
{
}

/// Incrementing a cell that holds the largest value always fails with `Overflow`, injected
/// or as a step of the program; the failed instruction changes nothing.
pub proof fn lemma_increment_at_max(v: EngineView)
    requires
        engine_wf(v),
        v.tape[v.pointer as int] == Int::MAX,
    ensures
        v.pc < v.program.len() ==> command_outcome(v, ExecutorCommand::Increment) == Err::<
            EngineView,
            ExecutionError,
        >(ExecutionError::Overflow),
        v.pc < v.program.len() && v.program[v.pc as int] == ExecutorCommand::Increment ==> step(v)
            == Err::<(EngineView, ExecutionState), ExecutionError>(ExecutionError::Overflow),
{
}

} // verus!

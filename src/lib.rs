//! A tape-and-pointer language: a translator from source text to instructions with
//! resolved jumps, the machine that runs them, and a debugger driven by text commands.
use vstd::prelude::*;

pub mod command;
pub mod command_line_args;
pub mod debugger;
pub mod debugger_model;
pub mod executor;
pub mod instruction;
pub mod marks;
pub mod text;
pub mod translate;

verus! {

} // verus!

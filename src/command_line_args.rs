use vstd::prelude::*;

verus! {

/// What the user asks for on the command line: the source file, and whether to debug it.
#[derive(Clone, Debug, PartialEq, Eq)]
pub struct Args {
    /// The path of the source file.
    pub path: String,
    /// Whether to run the program under the debugger.
    pub debug: bool,
}

} // verus!

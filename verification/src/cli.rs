//! The plain shape of the command line: the run mode and an output path.
//! Argument parsing itself is the command-line front end's concern; these
//! types only carry what it decided.

use vstd::prelude::*;

verus! {

/// Either an interactive session or a source file to run.
#[derive(Debug)]
pub struct Mode {
    pub interactive: bool,
    pub file: Option<String>,
}

#[derive(Debug)]
pub struct Cli {
    pub mode: Mode,
    pub output: Option<String>,
}

} // verus!

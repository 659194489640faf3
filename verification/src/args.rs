//! The command line of the tool.
use vstd::prelude::*;

verus! {

/// What the command line asks for.
pub struct Arguments {
    /// The file to fix, or, with `multi`, the directory of files to fix.
    pub input: String,
    /// The file to write, or, with `multi`, the directory to write into.
    pub output: String,
    /// Whether the files of a directory are fixed on threads of their own.
    pub multithread: bool,
    /// Whether `input` and `output` are directories.
    pub multi: bool,
}

} // verus!

use vstd::prelude::*;

verus! {

/// A line/column pair pointing into the source text, used by error reports.
#[derive(Debug, Copy, Clone, PartialEq, Eq, Structural)]
pub struct FilePosition {
    pub line: usize,
    pub column: usize,
}

impl FilePosition {
    /// The position of the very first character of the source text.
    pub fn new() -> (p: Self)
        ensures
            p == (FilePosition { line: 0, column: 0 }),
    {
        FilePosition { line: 0, column: 0 }
    }
}

/// Which compiler stage rejected the program.
#[derive(Debug, Copy, Clone, PartialEq, Eq, Structural)]
pub enum ErrorType {
    Tokenizer,
    Parser,
    Typechecker,
}

/// A compilation failure. The first error found aborts the whole pipeline;
/// there is no recovery or multi-error mode.
#[derive(Debug)]
pub struct SwindleError {
    pub message: String,
    pub file_posn: FilePosition,
    pub error_type: ErrorType,
}

} // verus!

//! Diagnostics: source locations, severity levels and collected messages.

use vstd::prelude::*;

verus! {

/// A location in a source file; line and column are 1-based.
#[derive(Debug)]
pub struct SourceLoc {
    /// The source file name.
    pub file: String,
    /// The line number (1-based).
    pub line: usize,
    /// The column number (1-based).
    pub column: usize,
}

impl SourceLoc {
    /// Creates a source location; line and column are 1-based.
    pub fn new(file: String, line: usize, column: usize) -> (r: SourceLoc)
        requires
            line != 0,
            column != 0,
        ensures
            r.file == file,
            r.line == line,
            r.column == column,
            !r.spec_is_dummy(),
    {
        SourceLoc { file, line, column }
    }

    /// The dummy location: an unknown place.
    pub fn dummy() -> (r: SourceLoc)
        ensures
            r.spec_is_dummy(),
    {
        SourceLoc { file: String::from_str("<unknown>"), line: 0, column: 0 }
    }

    /// Whether this is the dummy location.
    pub open spec fn spec_is_dummy(self) -> bool {
        self.line == 0 || self.column == 0
    }

    /// Whether this is the dummy location.
    pub fn is_dummy(&self) -> (r: bool)
        ensures
            r == self.spec_is_dummy(),
    {
        self.line == 0 || self.column == 0
    }
}

/// The severity of a diagnostic.
#[derive(Clone, Copy, PartialEq, Eq, Structural, Debug)]
pub enum DiagnosticLevel {
    Error,
    Warning,
    Info,
}

/// One reported diagnostic.
#[derive(Debug)]
pub struct Diagnostic {
    pub level: DiagnosticLevel,
    pub loc: SourceLoc,
    pub message: String,
}

/// The diagnostics collected while processing one translation unit.
#[derive(Debug)]
pub struct DiagnosticContext {
    pub diagnostics: Vec<Diagnostic>,
}

} // verus!

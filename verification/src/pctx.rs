//! The stateless parse context: a lexer's view of one source buffer.

use vstd::prelude::*;

use crate::tok::Token;

verus! {

/// A parse context scanning C source code.
#[derive(Debug)]
pub struct ParseContext<'a> {
    /// The source code being parsed.
    pub source: &'a [u8],
    /// The buffer for macro expansion tokens.
    pub macro_expand_buf: Vec<Token>,
    /// The current position in the source code.
    pub pos: usize,
    /// The current position in the macro expansion buffer.
    pub macro_expand_pos: usize,
    /// The current line number (1-based).
    pub line: u32,
    /// The current column number (1-based).
    pub col: u32,
}

/// Configuration of a parse; nothing is configurable yet.
#[derive(Debug)]
pub struct ParseConfig {}

impl<'a> ParseContext<'a> {
    /// A fresh context at the start of the given source code.
    pub fn new(source: &'a [u8]) -> (r: ParseContext<'a>)
        ensures
            r.source == source,
            r.macro_expand_buf@.len() == 0,
            r.pos == 0,
            r.macro_expand_pos == 0,
            r.line == 1,
            r.col == 1,
    {
        ParseContext {
            source,
            macro_expand_buf: Vec::new(),
            pos: 0,
            macro_expand_pos: 0,
            line: 1,
            col: 1,
        }
    }
}

} // verus!

//! C macro definitions, as the preprocessor records them: a name, an
//! optional parameter list, and a replacement token sequence.

use vstd::prelude::*;

use crate::tok::Token;

verus! {

/// One token of a macro replacement list: either a reference to the
/// definition's parameter at an index, or a plain token.
#[derive(Debug)]
pub enum MacroToken {
    Parameter(usize),
    Token(Token),
}

/// One macro definition.
#[derive(Debug)]
pub struct MacroDefinition {
    pub name: String,
    /// The parameter names; absent for an object-like macro.
    pub params: Option<Vec<String>>,
    /// The replacement token sequence.
    pub replacement: Vec<Token>,
}

impl MacroDefinition {
    /// Expands nothing: callers read `replacement` directly, and recursive
    /// argument substitution lies outside this crate's verified surface.
    /// The call observably has no effect: it takes only shared references
    /// and returns nothing.
    pub fn expand_rec(&self, args: Option<&Vec<Vec<Token>>>, registry: &Vec<MacroDefinition>) {
    }
}

} // verus!

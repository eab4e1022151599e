//! The registry's structural type references: identifiers, arrays and
//! pointers.

use vstd::prelude::*;

use crate::expr::CExpr;
use crate::ident::Identifier;

verus! {

/// A registry type reference.
#[derive(Debug)]
pub enum Type {
    IdentifierType(Box<IdentifierType>),
    ArrayType(Box<ArrayType>),
    PointerType(Box<PointerType>),
}

/// A reference to a named type.
#[derive(Debug)]
pub struct IdentifierType {
    pub ident: Identifier,
}

/// An array type: its element, its optional length expression, and its
/// `const` qualification.
#[derive(Debug)]
pub struct ArrayType {
    pub element: Type,
    pub length: Option<CExpr>,
    pub is_const: bool,
}

/// A pointer type.
#[derive(Debug)]
pub struct PointerType {
    pub pointee: Type,
    pub is_const: bool,
    pub pointer_to_one: bool,
    pub nullable: bool,
}

impl Type {
    /// A reference to the named type `ident`.
    pub fn identifier(ident: Identifier) -> (r: Type)
        ensures
            r matches Type::IdentifierType(t) && t.ident == ident,
    {
        Type::IdentifierType(Box::new(IdentifierType { ident }))
    }
}

} // verus!

//! Plain-value mirrors of the external AST front end's cursors and types.
//!
//! The front end (outside this crate) walks its own cursor handles and hands
//! the mapper these owned values: kind, spelling, unique source reference,
//! anonymity and definition flags, ordered children, the cursor's type, and
//! compile-time literal evaluation results. No cursor handle is ever
//! retained here.

use vstd::prelude::*;

use crate::ty::CPrimitive;

verus! {

/// The kind of a mirrored cursor.
#[derive(Clone, Copy, PartialEq, Eq, Structural, Debug)]
pub enum AstKind {
    VarDecl,
    TypedefDecl,
    FunctionDecl,
    StructDecl,
    UnionDecl,
    EnumDecl,
    FieldDecl,
    ParmDecl,
    EnumConstantDecl,
    /// A declaration kind the mapper does not support.
    OtherDecl,
    IntegerLiteral,
    CharacterLiteral,
    DeclRefExpr,
    ArraySubscriptExpr,
    CallExpr,
    MemberRefExpr,
    UnaryOperator,
    BinaryOperator,
    CompoundAssignOperator,
    ConditionalOperator,
    ParenExpr,
    CStyleCastExpr,
    UnexposedExpr,
    /// An expression kind the mapper does not support.
    OtherExpr,
    /// Anything else.
    Other,
}

/// The unary operator kind reported by the front end for a
/// `UnaryOperator` cursor.
#[derive(Clone, Copy, PartialEq, Eq, Structural, Debug)]
pub enum AstUnaryOp {
    PostInc,
    PostDec,
    PreInc,
    PreDec,
    AddrOf,
    Deref,
    Plus,
    Minus,
    Not,
    LNot,
    Other,
}

/// The binary operator kind reported by the front end for a
/// `BinaryOperator` or `CompoundAssignOperator` cursor.
#[derive(Clone, Copy, PartialEq, Eq, Structural, Debug)]
pub enum AstBinOp {
    Mul,
    Div,
    Rem,
    Add,
    Sub,
    Shl,
    Shr,
    Lt,
    Gt,
    Le,
    Ge,
    Eq,
    Ne,
    And,
    Xor,
    Or,
    LAnd,
    LOr,
    Assign,
    MulAssign,
    DivAssign,
    RemAssign,
    AddAssign,
    SubAssign,
    ShlAssign,
    ShrAssign,
    AndAssign,
    XorAssign,
    OrAssign,
    Comma,
    Other,
}

/// A compile-time literal evaluation result supplied by the front end.
#[derive(Debug)]
pub enum AstEval {
    /// No evaluation applies to this cursor.
    Absent,
    /// An integer result: its two's-complement bits and whether the front
    /// end reported it as unsigned.
    Int { bits: u64, is_unsigned: bool },
    /// A textual result (for character literals, already escaped).
    Text { text: String },
    /// Evaluation was attempted and failed.
    Failed,
}

/// A mirrored type, as obtained from type introspection alone.
#[derive(Debug)]
pub struct AstType {
    pub is_const: bool,
    pub kind: AstTypeKind,
}

/// The kind of a mirrored type.
#[derive(Debug)]
pub enum AstTypeKind {
    Primitive(CPrimitive),
    Pointer(Box<AstType>),
    FunctionProto { ret: Box<AstType>, params: Vec<AstType> },
    FunctionNoProto { ret: Box<AstType> },
    ConstantArray { element: Box<AstType>, size: i64 },
    IncompleteArray { element: Box<AstType> },
    /// An elaborated reference (`struct Foo`, `enum Bar`); `named` is the
    /// underlying named type.
    Elaborated { named: Box<AstType> },
    Typedef { name: String },
    /// A record reference; `usr` identifies it when anonymous, `spelling`
    /// names it (possibly `struct `/`union `-prefixed) when not.
    Record { is_struct: bool, anonymous: bool, usr: String, spelling: String },
    Enum { spelling: String },
    /// A type kind the mapper does not support.
    Other { spelling: String, kind_spelling: String },
}

/// A mirrored cursor.
#[derive(Debug)]
pub struct AstNode {
    pub kind: AstKind,
    /// The cursor spelling (its bare name).
    pub spelling: String,
    /// The cursor display name.
    pub display: String,
    /// The unique source reference of the cursor.
    pub usr: String,
    pub is_anonymous: bool,
    pub is_definition: bool,
    /// The cursor's type.
    pub ty: AstType,
    /// For a typedef cursor, the underlying type.
    pub underlying: Option<AstType>,
    /// For an enum constant, its unsigned value.
    pub value: u64,
    /// For a unary operator cursor, the operator.
    pub unary_op: AstUnaryOp,
    /// For a binary or compound-assignment operator cursor, the operator.
    pub bin_op: AstBinOp,
    /// The literal evaluation result, where one applies.
    pub eval: AstEval,
    /// The ordered children of the cursor.
    pub children: Vec<AstNode>,
}

} // verus!

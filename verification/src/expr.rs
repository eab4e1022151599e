//! The IR model of C expressions: a tagged tree mirroring C expression
//! syntax. Integer and char literals store their evaluated canonical text
//! (hexadecimal) plus a type suffix; all other forms are preserved
//! structurally, unevaluated, for later reproduction.

use vstd::prelude::*;

use crate::ident::Identifier;

verus! {

/// A C expression.
#[derive(Debug)]
pub enum CExpr {
    IntLiteral(Box<CIntLiteralExpr>),
    FloatLiteral(Box<CFloatLiteralExpr>),
    CharLiteral(Box<CCharLiteralExpr>),
    StringLiteral(Box<CStringLiteralExpr>),
    Identifier(Box<CIdentifierExpr>),
    Index(Box<CIndexExpr>),
    Call(Box<CCallExpr>),
    Member(Box<CMemberExpr>),
    PtrMember(Box<CPtrMemberExpr>),
    PostfixIncDec(Box<CPostfixIncDecExpr>),
    Unary(Box<CUnaryExpr>),
    Cast(Box<CCastExpr>),
    Binary(Box<CBinaryExpr>),
    Conditional(Box<CConditionalExpr>),
    Paren(Box<CParenExpr>),
}

/// An integer literal: its evaluated canonical text and its type suffix.
#[derive(Debug)]
pub struct CIntLiteralExpr {
    pub value: String,
    pub suffix: String,
}

impl CIntLiteralExpr {
    /// An integer literal with an empty suffix.
    pub fn new(value: String) -> (r: Self)
        ensures
            r.value == value,
            r.suffix@ == Seq::<char>::empty(),
    {
        Self { value, suffix: String::new() }
    }
}

/// A floating-point literal: its source text and its type suffix.
#[derive(Debug)]
pub struct CFloatLiteralExpr {
    pub value: String,
    pub suffix: String,
}

impl CFloatLiteralExpr {
    /// A floating-point literal with an empty suffix.
    pub fn new(value: String) -> (r: Self)
        ensures
            r.value == value,
            r.suffix@ == Seq::<char>::empty(),
    {
        Self { value, suffix: String::new() }
    }
}

/// A character literal: its evaluated text.
#[derive(Debug)]
pub struct CCharLiteralExpr {
    pub value: String,
}

/// A string literal.
#[derive(Debug)]
pub struct CStringLiteralExpr {
    pub value: String,
}

/// A reference to a named entity.
#[derive(Debug)]
pub struct CIdentifierExpr {
    pub ident: Identifier,
}

/// An array subscript: `base[index]`.
#[derive(Debug)]
pub struct CIndexExpr {
    pub base: CExpr,
    pub index: CExpr,
}

/// A call: `callee(args...)`.
#[derive(Debug)]
pub struct CCallExpr {
    pub callee: CExpr,
    pub args: Vec<CExpr>,
}

/// A member access: `obj.member`.
#[derive(Debug)]
pub struct CMemberExpr {
    pub obj: CExpr,
    pub member: Identifier,
}

/// A pointer member access: `(*obj).member`.
#[derive(Debug)]
pub struct CPtrMemberExpr {
    pub obj: CExpr,
    pub member: Identifier,
}

/// A postfix increment or decrement operator.
#[derive(Clone, Copy, PartialEq, Eq, Structural, Hash, Debug)]
pub enum CPostfixIncDecOp {
    Inc,
    Dec,
}

/// A postfix increment or decrement: `expr++` or `expr--`.
#[derive(Debug)]
pub struct CPostfixIncDecExpr {
    pub expr: CExpr,
    pub op: CPostfixIncDecOp,
}

/// A prefix unary operator.
#[derive(Clone, Copy, PartialEq, Eq, Structural, Hash, Debug)]
pub enum CUnaryOp {
    Plus,
    Minus,
    Not,
    BitNot,
    Deref,
    AddrOf,
    SizeOf,
    AlignOf,
    Inc,
    Dec,
}

/// A unary expression.
#[derive(Debug)]
pub struct CUnaryExpr {
    pub expr: CExpr,
    pub op: CUnaryOp,
}

/// A cast: the casted expression and the type written as an expression.
#[derive(Debug)]
pub struct CCastExpr {
    pub expr: CExpr,
    pub ty: CExpr,
}

/// A binary (or compound-assignment) operator.
#[derive(Clone, Copy, PartialEq, Eq, Structural, Hash, Debug)]
pub enum CBinaryOp {
    Mul,
    Div,
    Mod,
    Add,
    Sub,
    Shl,
    Shr,
    Less,
    Greater,
    LessEq,
    GreaterEq,
    Eq,
    NotEq,
    BitAnd,
    BitXor,
    BitOr,
    And,
    Or,
    Xor,
    Assign,
    MulAssign,
    DivAssign,
    ModAssign,
    AddAssign,
    SubAssign,
    ShlAssign,
    ShrAssign,
    BitAndAssign,
    BitXorAssign,
    BitOrAssign,
    AndAssign,
    OrAssign,
    XorAssign,
    Comma,
}

/// A binary expression.
#[derive(Debug)]
pub struct CBinaryExpr {
    pub op: CBinaryOp,
    pub lhs: CExpr,
    pub rhs: CExpr,
}

/// A conditional expression: `cond ? then : otherwise`.
#[derive(Debug)]
pub struct CConditionalExpr {
    pub cond: CExpr,
    pub then_branch: CExpr,
    pub otherwise: CExpr,
}

/// A parenthesized expression.
#[derive(Debug)]
pub struct CParenExpr {
    pub expr: CExpr,
}

impl CExpr {
    /// An identifier expression.
    pub fn identifier(ident: Identifier) -> (r: CExpr)
        ensures
            r matches CExpr::Identifier(e) && e.ident == ident,
    {
        CExpr::Identifier(Box::new(CIdentifierExpr { ident }))
    }
}

/// The source text of a binary operator.
pub open spec fn spec_bin_op_text(op: CBinaryOp) -> Seq<char> {
    match op {
        CBinaryOp::Mul => "*"@,
        CBinaryOp::Div => "/"@,
        CBinaryOp::Mod => "%"@,
        CBinaryOp::Add => "+"@,
        CBinaryOp::Sub => "-"@,
        CBinaryOp::Shl => "<<"@,
        CBinaryOp::Shr => ">>"@,
        CBinaryOp::Less => "<"@,
        CBinaryOp::Greater => ">"@,
        CBinaryOp::LessEq => "<="@,
        CBinaryOp::GreaterEq => ">="@,
        CBinaryOp::Eq => "=="@,
        CBinaryOp::NotEq => "!="@,
        CBinaryOp::BitAnd => "&"@,
        CBinaryOp::BitXor => "^"@,
        CBinaryOp::BitOr => "|"@,
        CBinaryOp::And => "&&"@,
        CBinaryOp::Or => "||"@,
        CBinaryOp::Xor => "^"@,
        CBinaryOp::Assign => "="@,
        CBinaryOp::MulAssign => "*="@,
        CBinaryOp::DivAssign => "/="@,
        CBinaryOp::ModAssign => "%="@,
        CBinaryOp::AddAssign => "+="@,
        CBinaryOp::SubAssign => "-="@,
        CBinaryOp::ShlAssign => "<<="@,
        CBinaryOp::ShrAssign => ">>="@,
        CBinaryOp::BitAndAssign => "&="@,
        CBinaryOp::BitXorAssign => "^="@,
        CBinaryOp::BitOrAssign => "|="@,
        CBinaryOp::AndAssign => "&&="@,
        CBinaryOp::OrAssign => "||="@,
        CBinaryOp::XorAssign => "^="@,
        CBinaryOp::Comma => ","@,
    }
}

/// The source text of a binary operator.
pub fn bin_op_describe(op: CBinaryOp) -> (r: &'static str)
    ensures
        r@ == spec_bin_op_text(op),
{
    match op {
        CBinaryOp::Mul => "*",
        CBinaryOp::Div => "/",
        CBinaryOp::Mod => "%",
        CBinaryOp::Add => "+",
        CBinaryOp::Sub => "-",
        CBinaryOp::Shl => "<<",
        CBinaryOp::Shr => ">>",
        CBinaryOp::Less => "<",
        CBinaryOp::Greater => ">",
        CBinaryOp::LessEq => "<=",
        CBinaryOp::GreaterEq => ">=",
        CBinaryOp::Eq => "==",
        CBinaryOp::NotEq => "!=",
        CBinaryOp::BitAnd => "&",
        CBinaryOp::BitXor => "^",
        CBinaryOp::BitOr => "|",
        CBinaryOp::And => "&&",
        CBinaryOp::Or => "||",
        CBinaryOp::Xor => "^",
        CBinaryOp::Assign => "=",
        CBinaryOp::MulAssign => "*=",
        CBinaryOp::DivAssign => "/=",
        CBinaryOp::ModAssign => "%=",
        CBinaryOp::AddAssign => "+=",
        CBinaryOp::SubAssign => "-=",
        CBinaryOp::ShlAssign => "<<=",
        CBinaryOp::ShrAssign => ">>=",
        CBinaryOp::BitAndAssign => "&=",
        CBinaryOp::BitXorAssign => "^=",
        CBinaryOp::BitOrAssign => "|=",
        CBinaryOp::AndAssign => "&&=",
        CBinaryOp::OrAssign => "||=",
        CBinaryOp::XorAssign => "^=",
        CBinaryOp::Comma => ",",
    }
}

/// The source text of a prefix unary operator. `sizeof` and `alignof` are
/// not prefix punctuation and have no text here.
pub open spec fn spec_pre_op_text(op: CUnaryOp) -> Seq<char> {
    match op {
        CUnaryOp::Plus => "+"@,
        CUnaryOp::Minus => "-"@,
        CUnaryOp::Not => "!"@,
        CUnaryOp::BitNot => "~"@,
        CUnaryOp::Deref => "*"@,
        CUnaryOp::AddrOf => "&"@,
        CUnaryOp::Inc => "++"@,
        CUnaryOp::Dec => "--"@,
        CUnaryOp::SizeOf | CUnaryOp::AlignOf => Seq::<char>::empty(),
    }
}

/// The source text of a prefix unary operator.
pub fn pre_op_describe(op: CUnaryOp) -> (r: &'static str)
    requires
        op != CUnaryOp::SizeOf,
        op != CUnaryOp::AlignOf,
    ensures
        r@ == spec_pre_op_text(op),
{
    match op {
        CUnaryOp::Plus => "+",
        CUnaryOp::Minus => "-",
        CUnaryOp::Not => "!",
        CUnaryOp::BitNot => "~",
        CUnaryOp::Deref => "*",
        CUnaryOp::AddrOf => "&",
        CUnaryOp::Inc => "++",
        CUnaryOp::Dec => "--",
        CUnaryOp::SizeOf | CUnaryOp::AlignOf => "",
    }
}

/// The source text of a postfix increment or decrement operator.
pub open spec fn spec_post_op_text(op: CPostfixIncDecOp) -> Seq<char> {
    match op {
        CPostfixIncDecOp::Inc => "++"@,
        CPostfixIncDecOp::Dec => "--"@,
    }
}

/// The source text of a postfix increment or decrement operator.
pub fn post_op_describe(op: CPostfixIncDecOp) -> (r: &'static str)
    ensures
        r@ == spec_post_op_text(op),
{
    match op {
        CPostfixIncDecOp::Inc => "++",
        CPostfixIncDecOp::Dec => "--",
    }
}

} // verus!

//! C token kinds and tokens, as the C23 standard's lexical grammar lays
//! them out: keywords, identifiers, constants, string literals and
//! punctuators.

#![allow(non_camel_case_types)]

use vstd::prelude::*;

use crate::diag::SourceLoc;

verus! {

/// A C token kind. `P_` names a punctuator, `KW_` a keyword; an
/// enumeration constant is lexed as an identifier, and the predefined
/// constants are lexed as keywords.
#[derive(Clone, Copy, PartialEq, Eq, Structural, Hash, Debug)]
pub enum TokenKind {
    Identifier,
    StringLiteral,
    IntLiteral,
    FloatLiteral,
    CharLiteral,
    P_LBracket,
    P_RBracket,
    P_LParen,
    P_RParen,
    P_LBrace,
    P_RBrace,
    P_Dot,
    P_Arrow,
    P_DPlus,
    P_DMinus,
    P_Amp,
    P_Aster,
    P_Plus,
    P_Minus,
    P_Tilde,
    P_Excl,
    P_Slash,
    P_Percent,
    P_DLt,
    P_DGt,
    P_Lt,
    P_Lte,
    P_Gt,
    P_Gte,
    P_DEq,
    P_ExclEq,
    P_Caret,
    P_Pipe,
    P_DAmp,
    P_DPipe,
    P_Ques,
    P_Colon,
    P_DColon,
    P_Semicolon,
    P_Ellipsis,
    P_Eq,
    P_AsterEq,
    P_SlashEq,
    P_PercentEq,
    P_PlusEq,
    P_MinusEq,
    P_DLtEq,
    P_DGtEq,
    P_AmpEq,
    P_CaretEq,
    P_PipeEq,
    P_Comma,
    KW_Alignas,
    KW_Alignof,
    KW_Auto,
    KW_Bool,
    KW_Break,
    KW_Case,
    KW_Char,
    KW_Const,
    KW_Constexpr,
    KW_Continue,
    KW_Default,
    KW_Do,
    KW_Double,
    KW_Else,
    KW_Enum,
    KW_Extern,
    KW_False,
    KW_Float,
    KW_For,
    KW_Goto,
    KW_If,
    KW_Inline,
    KW_Int,
    KW_Long,
    KW_Nullptr,
    KW_Register,
    KW_Restrict,
    KW_Return,
    KW_Short,
    KW_Signed,
    KW_Sizeof,
    KW_Static,
    KW_StaticAssert,
    KW_Struct,
    KW_Switch,
    KW_ThreadLocal,
    KW_True,
    KW_Typedef,
    KW_Typeof,
    KW_TypeofUnqual,
    KW_Union,
    KW_Unsigned,
    KW_Void,
    KW_Volatile,
    KW_While,
    KW_Atomic,
    KW_BigInt,
    KW_Complex,
    KW_Decimal128,
    KW_Decimal32,
    KW_Decimal64,
    KW_Generic,
    KW_Imaginary,
    KW_Noreturn,
}

/// The kinds whose tokens carry a lexeme: identifiers and the literal
/// constants.
pub open spec fn kind_has_lexeme(k: TokenKind) -> bool {
    match k {
        TokenKind::Identifier | TokenKind::StringLiteral | TokenKind::IntLiteral
        | TokenKind::FloatLiteral | TokenKind::CharLiteral => true,
        _ => false,
    }
}

/// The display text of a token kind: the punctuator or keyword itself, or
/// a placeholder for the lexeme-bearing kinds.
pub open spec fn spec_token_kind_text(k: TokenKind) -> Seq<char> {
    match k {
        TokenKind::Identifier => "<identifier>"@,
        TokenKind::StringLiteral => "<string>"@,
        TokenKind::IntLiteral => "<int>"@,
        TokenKind::FloatLiteral => "<float>"@,
        TokenKind::CharLiteral => "<char>"@,
        TokenKind::P_LBracket => "["@,
        TokenKind::P_RBracket => "]"@,
        TokenKind::P_LParen => "("@,
        TokenKind::P_RParen => ")"@,
        TokenKind::P_LBrace => "{"@,
        TokenKind::P_RBrace => "}"@,
        TokenKind::P_Dot => "."@,
        TokenKind::P_Arrow => "->"@,
        TokenKind::P_DPlus => "++"@,
        TokenKind::P_DMinus => "--"@,
        TokenKind::P_Amp => "&"@,
        TokenKind::P_Aster => "*"@,
        TokenKind::P_Plus => "+"@,
        TokenKind::P_Minus => "-"@,
        TokenKind::P_Tilde => "~"@,
        TokenKind::P_Excl => "!"@,
        TokenKind::P_Slash => "/"@,
        TokenKind::P_Percent => "%"@,
        TokenKind::P_DLt => "<<"@,
        TokenKind::P_DGt => ">>"@,
        TokenKind::P_Lt => "<"@,
        TokenKind::P_Lte => "<="@,
        TokenKind::P_Gt => ">"@,
        TokenKind::P_Gte => ">="@,
        TokenKind::P_DEq => "=="@,
        TokenKind::P_ExclEq => "!="@,
        TokenKind::P_Caret => "^"@,
        TokenKind::P_Pipe => "|"@,
        TokenKind::P_DAmp => "&&"@,
        TokenKind::P_DPipe => "||"@,
        TokenKind::P_Ques => "?"@,
        TokenKind::P_Colon => ":"@,
        TokenKind::P_DColon => "::"@,
        TokenKind::P_Semicolon => ";"@,
        TokenKind::P_Ellipsis => "..."@,
        TokenKind::P_Eq => "="@,
        TokenKind::P_AsterEq => "*="@,
        TokenKind::P_SlashEq => "/="@,
        TokenKind::P_PercentEq => "%="@,
        TokenKind::P_PlusEq => "+="@,
        TokenKind::P_MinusEq => "-="@,
        TokenKind::P_DLtEq => "<<="@,
        TokenKind::P_DGtEq => ">>="@,
        TokenKind::P_AmpEq => "&="@,
        TokenKind::P_CaretEq => "^="@,
        TokenKind::P_PipeEq => "|="@,
        TokenKind::P_Comma => ","@,
        TokenKind::KW_Alignas => "alignas"@,
        TokenKind::KW_Alignof => "alignof"@,
        TokenKind::KW_Auto => "auto"@,
        TokenKind::KW_Bool => "bool"@,
        TokenKind::KW_Break => "break"@,
        TokenKind::KW_Case => "case"@,
        TokenKind::KW_Char => "char"@,
        TokenKind::KW_Const => "const"@,
        TokenKind::KW_Constexpr => "constexpr"@,
        TokenKind::KW_Continue => "continue"@,
        TokenKind::KW_Default => "default"@,
        TokenKind::KW_Do => "do"@,
        TokenKind::KW_Double => "double"@,
        TokenKind::KW_Else => "else"@,
        TokenKind::KW_Enum => "enum"@,
        TokenKind::KW_Extern => "extern"@,
        TokenKind::KW_False => "false"@,
        TokenKind::KW_Float => "float"@,
        TokenKind::KW_For => "for"@,
        TokenKind::KW_Goto => "goto"@,
        TokenKind::KW_If => "if"@,
        TokenKind::KW_Inline => "inline"@,
        TokenKind::KW_Int => "int"@,
        TokenKind::KW_Long => "long"@,
        TokenKind::KW_Nullptr => "nullptr"@,
        TokenKind::KW_Register => "register"@,
        TokenKind::KW_Restrict => "restrict"@,
        TokenKind::KW_Return => "return"@,
        TokenKind::KW_Short => "short"@,
        TokenKind::KW_Signed => "signed"@,
        TokenKind::KW_Sizeof => "sizeof"@,
        TokenKind::KW_Static => "static"@,
        TokenKind::KW_StaticAssert => "static_assert"@,
        TokenKind::KW_Struct => "struct"@,
        TokenKind::KW_Switch => "switch"@,
        TokenKind::KW_ThreadLocal => "thread_local"@,
        TokenKind::KW_True => "true"@,
        TokenKind::KW_Typedef => "typedef"@,
        TokenKind::KW_Typeof => "typeof"@,
        TokenKind::KW_TypeofUnqual => "typeof_unqual"@,
        TokenKind::KW_Union => "union"@,
        TokenKind::KW_Unsigned => "unsigned"@,
        TokenKind::KW_Void => "void"@,
        TokenKind::KW_Volatile => "volatile"@,
        TokenKind::KW_While => "while"@,
        TokenKind::KW_Atomic => "_Atomic"@,
        TokenKind::KW_BigInt => "_BigInt"@,
        TokenKind::KW_Complex => "_Complex"@,
        TokenKind::KW_Decimal128 => "_Decimal128"@,
        TokenKind::KW_Decimal32 => "_Decimal32"@,
        TokenKind::KW_Decimal64 => "_Decimal64"@,
        TokenKind::KW_Generic => "_Generic"@,
        TokenKind::KW_Imaginary => "_Imaginary"@,
        TokenKind::KW_Noreturn => "_Noreturn"@,
    }
}

/// A C token: its kind, its lexeme where the kind carries one, and its
/// source location.
#[derive(Debug)]
pub struct Token {
    pub kind: TokenKind,
    /// The lexeme; present exactly for identifiers and literal constants.
    pub lexeme: Option<String>,
    /// The source location of the token.
    pub loc: SourceLoc,
}

impl TokenKind {
    /// Renders this kind.
    pub fn fmt(&self) -> (r: &'static str)
        ensures
            r@ == spec_token_kind_text(*self),
    {
        match self {
        TokenKind::Identifier => "<identifier>",
        TokenKind::StringLiteral => "<string>",
        TokenKind::IntLiteral => "<int>",
        TokenKind::FloatLiteral => "<float>",
        TokenKind::CharLiteral => "<char>",
        TokenKind::P_LBracket => "[",
        TokenKind::P_RBracket => "]",
        TokenKind::P_LParen => "(",
        TokenKind::P_RParen => ")",
        TokenKind::P_LBrace => "{",
        TokenKind::P_RBrace => "}",
        TokenKind::P_Dot => ".",
        TokenKind::P_Arrow => "->",
        TokenKind::P_DPlus => "++",
        TokenKind::P_DMinus => "--",
        TokenKind::P_Amp => "&",
        TokenKind::P_Aster => "*",
        TokenKind::P_Plus => "+",
        TokenKind::P_Minus => "-",
        TokenKind::P_Tilde => "~",
        TokenKind::P_Excl => "!",
        TokenKind::P_Slash => "/",
        TokenKind::P_Percent => "%",
        TokenKind::P_DLt => "<<",
        TokenKind::P_DGt => ">>",
        TokenKind::P_Lt => "<",
        TokenKind::P_Lte => "<=",
        TokenKind::P_Gt => ">",
        TokenKind::P_Gte => ">=",
        TokenKind::P_DEq => "==",
        TokenKind::P_ExclEq => "!=",
        TokenKind::P_Caret => "^",
        TokenKind::P_Pipe => "|",
        TokenKind::P_DAmp => "&&",
        TokenKind::P_DPipe => "||",
        TokenKind::P_Ques => "?",
        TokenKind::P_Colon => ":",
        TokenKind::P_DColon => "::",
        TokenKind::P_Semicolon => ";",
        TokenKind::P_Ellipsis => "...",
        TokenKind::P_Eq => "=",
        TokenKind::P_AsterEq => "*=",
        TokenKind::P_SlashEq => "/=",
        TokenKind::P_PercentEq => "%=",
        TokenKind::P_PlusEq => "+=",
        TokenKind::P_MinusEq => "-=",
        TokenKind::P_DLtEq => "<<=",
        TokenKind::P_DGtEq => ">>=",
        TokenKind::P_AmpEq => "&=",
        TokenKind::P_CaretEq => "^=",
        TokenKind::P_PipeEq => "|=",
        TokenKind::P_Comma => ",",
        TokenKind::KW_Alignas => "alignas",
        TokenKind::KW_Alignof => "alignof",
        TokenKind::KW_Auto => "auto",
        TokenKind::KW_Bool => "bool",
        TokenKind::KW_Break => "break",
        TokenKind::KW_Case => "case",
        TokenKind::KW_Char => "char",
        TokenKind::KW_Const => "const",
        TokenKind::KW_Constexpr => "constexpr",
        TokenKind::KW_Continue => "continue",
        TokenKind::KW_Default => "default",
        TokenKind::KW_Do => "do",
        TokenKind::KW_Double => "double",
        TokenKind::KW_Else => "else",
        TokenKind::KW_Enum => "enum",
        TokenKind::KW_Extern => "extern",
        TokenKind::KW_False => "false",
        TokenKind::KW_Float => "float",
        TokenKind::KW_For => "for",
        TokenKind::KW_Goto => "goto",
        TokenKind::KW_If => "if",
        TokenKind::KW_Inline => "inline",
        TokenKind::KW_Int => "int",
        TokenKind::KW_Long => "long",
        TokenKind::KW_Nullptr => "nullptr",
        TokenKind::KW_Register => "register",
        TokenKind::KW_Restrict => "restrict",
        TokenKind::KW_Return => "return",
        TokenKind::KW_Short => "short",
        TokenKind::KW_Signed => "signed",
        TokenKind::KW_Sizeof => "sizeof",
        TokenKind::KW_Static => "static",
        TokenKind::KW_StaticAssert => "static_assert",
        TokenKind::KW_Struct => "struct",
        TokenKind::KW_Switch => "switch",
        TokenKind::KW_ThreadLocal => "thread_local",
        TokenKind::KW_True => "true",
        TokenKind::KW_Typedef => "typedef",
        TokenKind::KW_Typeof => "typeof",
        TokenKind::KW_TypeofUnqual => "typeof_unqual",
        TokenKind::KW_Union => "union",
        TokenKind::KW_Unsigned => "unsigned",
        TokenKind::KW_Void => "void",
        TokenKind::KW_Volatile => "volatile",
        TokenKind::KW_While => "while",
        TokenKind::KW_Atomic => "_Atomic",
        TokenKind::KW_BigInt => "_BigInt",
        TokenKind::KW_Complex => "_Complex",
        TokenKind::KW_Decimal128 => "_Decimal128",
        TokenKind::KW_Decimal32 => "_Decimal32",
        TokenKind::KW_Decimal64 => "_Decimal64",
        TokenKind::KW_Generic => "_Generic",
        TokenKind::KW_Imaginary => "_Imaginary",
        TokenKind::KW_Noreturn => "_Noreturn",
        }
    }
}

impl Token {
    /// A token of a kind that carries no lexeme.
    pub fn new(kind: TokenKind, loc: SourceLoc) -> (r: Token)
        requires
            !kind_has_lexeme(kind),
        ensures
            r.kind == kind,
            r.lexeme is None,
            r.loc == loc,
    {
        Token { kind, lexeme: None, loc }
    }

    /// A token of a kind that carries a lexeme.
    pub fn with_lexeme(kind: TokenKind, lexeme: String, loc: SourceLoc) -> (r: Token)
        requires
            kind_has_lexeme(kind),
        ensures
            r.kind == kind,
            r.lexeme == Some(lexeme),
            r.loc == loc,
    {
        Token { kind, lexeme: Some(lexeme), loc }
    }
}

} // verus!

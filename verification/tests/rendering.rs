use sennaar::decl::{CDecl, CFieldDecl, CStructDecl, CVarDecl};
use sennaar::expr::{bin_op_describe, post_op_describe, pre_op_describe, CBinaryOp,
    CPostfixIncDecOp, CUnaryOp};
use sennaar::diag::SourceLoc;
use sennaar::ident::Interner;
use sennaar::platform::{Arch, PlatformSpecifierState, PlatformValue};
use sennaar::text::{decimal_string, hex_literal_string};
use sennaar::tok::{Token, TokenKind};
use sennaar::ty::{CBaseType, CParam, CPrimitive, CType, RecordName};

#[test]
fn numbers_render_canonically() {
    assert_eq!(decimal_string(0), "0");
    assert_eq!(decimal_string(12345), "12345");
    assert_eq!(hex_literal_string(0x1BF52), "0x1BF52");
}

#[test]
fn types_render_like_c() {
    let mut table = Interner::new();
    let int_ty = CType { is_const: false, ty: CBaseType::Primitive(CPrimitive::Int) };
    assert_eq!(int_ty.fmt(&table), "int");
    let konst_uint = CType { is_const: true, ty: CBaseType::Primitive(CPrimitive::UInt) };
    assert_eq!(konst_uint.fmt(&table), "const unsigned int");

    let ptr = CType {
        is_const: false,
        ty: CBaseType::Pointer(Box::new(int_ty)),
    };
    assert_eq!(ptr.fmt(&table), "int *");

    let arr = CType {
        is_const: false,
        ty: CBaseType::Array(
            Box::new(CType { is_const: false, ty: CBaseType::Primitive(CPrimitive::CharS) }),
            Some(4),
        ),
    };
    assert_eq!(arr.fmt(&table), "char[4]");

    let s = table.intern("Nest").unwrap();
    let named = CType { is_const: false, ty: CBaseType::Record(true, RecordName::Named(s)) };
    assert_eq!(named.fmt(&table), "struct Nest");
}

#[test]
fn function_types_render_with_parameters() {
    let mut table = Interner::new();
    let int_ty = || CType { is_const: false, ty: CBaseType::Primitive(CPrimitive::Int) };
    let a = table.intern("a").unwrap();
    let params = vec![CParam { name: Some(a), ty: int_ty() }, CParam { name: None, ty: int_ty() }];
    let text = CType::fmt_fun(&table, &int_ty(), &params, Some("add"), false, false);
    assert_eq!(text, "int add(int a, int)");
}

#[test]
fn declarations_render_like_c() {
    let mut table = Interner::new();
    let int_ty = || CType { is_const: false, ty: CBaseType::Primitive(CPrimitive::Int) };
    let name = table.intern("counter").unwrap();
    let var = CDecl::Var(Box::new(CVarDecl { name, ty: int_ty() }));
    assert_eq!(var.fmt(&table), "int counter;");

    let nest = table.intern("Nest").unwrap();
    let value = table.intern("value").unwrap();
    let record = CDecl::Struct(Box::new(CStructDecl {
        name: RecordName::Named(nest),
        fields: vec![CFieldDecl { name: value, ty: int_ty() }],
        is_definition: true,
        subrecords: Vec::new(),
    }));
    assert_eq!(record.fmt(&table), "struct Nest { int value; };");
}

#[test]
fn operators_render_to_their_source_text() {
    assert_eq!(bin_op_describe(CBinaryOp::AddAssign), "+=");
    assert_eq!(bin_op_describe(CBinaryOp::Shl), "<<");
    assert_eq!(pre_op_describe(CUnaryOp::AddrOf), "&");
    assert_eq!(post_op_describe(CPostfixIncDecOp::Inc), "++");
}

#[test]
fn token_kinds_render_to_their_source_text() {
    assert_eq!(TokenKind::P_Arrow.fmt(), "->");
    assert_eq!(TokenKind::KW_Typedef.fmt(), "typedef");
    assert_eq!(TokenKind::Identifier.fmt(), "<identifier>");
    let loc = SourceLoc::new("unit.c".to_string(), 1, 1);
    let t = Token::new(TokenKind::P_Semicolon, loc);
    assert!(t.lexeme.is_none());
    let loc2 = SourceLoc::dummy();
    assert!(loc2.is_dummy());
    let t2 = Token::with_lexeme(TokenKind::Identifier, "x".to_string(), loc2);
    assert_eq!(t2.lexeme.as_deref(), Some("x"));
}

#[test]
fn platform_dimensions_parse_and_render() {
    let arch: PlatformSpecifierState<Arch> =
        PlatformSpecifierState::parse_with_other_and_any("amd64", "other_arch", "any_arch")
            .unwrap();
    assert!(matches!(arch, PlatformSpecifierState::Exact { value: Arch::amd64 }));
    assert_eq!(arch.write_with_other_and_any("other_arch", "any_arch"), "amd64");
    let any: PlatformSpecifierState<Arch> =
        PlatformSpecifierState::parse_with_other_and_any("any_arch", "other_arch", "any_arch")
            .unwrap();
    assert!(matches!(any, PlatformSpecifierState::Any));
    let custom: PlatformSpecifierState<Arch> =
        PlatformSpecifierState::parse_with_other_and_any("mips", "other_arch", "any_arch")
            .unwrap();
    match custom {
        PlatformSpecifierState::Exact { value: Arch::Custom(s) } => assert_eq!(s, "mips"),
        _ => panic!("expected a custom architecture"),
    }
    let _ = Arch::amd64.value_text();
}

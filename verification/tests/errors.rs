use sennaar::ast::{AstBinOp, AstEval, AstKind, AstNode, AstType, AstTypeKind, AstUnaryOp};
use sennaar::decl::{CDecl, CFnDecl, CStructDecl, CTypedefDecl};
use sennaar::ident::Interner;
use sennaar::mapper::{map_decl, map_expr, map_field, map_ty, MapError};
use sennaar::materialize::{to_registry_decl, to_registry_type, RegistryError};
use sennaar::namer::{name_unnamed_structs, NamerError};
use sennaar::registry::RegistryBase;
use sennaar::ty::{CBaseType, CParam, CPrimitive, CType, RecordName};

fn node(kind: AstKind) -> AstNode {
    AstNode {
        kind,
        spelling: String::new(),
        display: String::new(),
        usr: String::new(),
        is_anonymous: false,
        is_definition: false,
        ty: AstType { is_const: false, kind: AstTypeKind::Primitive(CPrimitive::Void) },
        underlying: None,
        value: 0,
        unary_op: AstUnaryOp::Other,
        bin_op: AstBinOp::Other,
        eval: AstEval::Absent,
        children: Vec::new(),
    }
}

#[test]
fn unexpected_cursor_kind_is_reported() {
    let mut table = Interner::new();
    let n = node(AstKind::ParmDecl);
    match map_field(&mut table, &n) {
        Err(MapError::UnexpectedCursorKind { expected, actual }) => {
            assert_eq!(expected, AstKind::FieldDecl);
            assert_eq!(actual, AstKind::ParmDecl);
        }
        other => panic!("expected a cursor-kind mismatch, got {:?}", other),
    }
}

#[test]
fn unsupported_declaration_kind_is_fatal_but_returned() {
    let mut table = Interner::new();
    let mut extra = Vec::new();
    let n = node(AstKind::Other);
    assert!(matches!(
        map_decl(&mut table, &n, &mut extra),
        Err(MapError::UnsupportedConstruct { .. })
    ));
    assert!(extra.is_empty());
}

#[test]
fn reserved_separator_in_a_type_name_is_rejected() {
    let mut table = Interner::new();
    let t = AstType {
        is_const: false,
        kind: AstTypeKind::Typedef { name: "bad:name".to_string() },
    };
    assert!(matches!(map_ty(&mut table, &t), Err(MapError::InvalidName)));
}

#[test]
fn failed_literal_evaluation_is_reported() {
    let mut table = Interner::new();
    let mut n = node(AstKind::IntegerLiteral);
    n.eval = AstEval::Failed;
    n.ty = AstType { is_const: false, kind: AstTypeKind::Primitive(CPrimitive::Int) };
    assert!(matches!(map_expr(&mut table, &n), Err(MapError::LiteralEvalError)));
}

#[test]
fn elaborated_references_unwrap() {
    let mut table = Interner::new();
    let t = AstType {
        is_const: true,
        kind: AstTypeKind::Elaborated {
            named: Box::new(AstType {
                is_const: false,
                kind: AstTypeKind::Record {
                    is_struct: true,
                    anonymous: false,
                    usr: String::new(),
                    spelling: "struct Widget".to_string(),
                },
            }),
        },
    };
    let mapped = map_ty(&mut table, &t).unwrap();
    assert!(mapped.is_const);
    match mapped.ty {
        CBaseType::Record(true, RecordName::Named(id)) => {
            assert_eq!(id.original(&table), "Widget")
        }
        other => panic!("expected a named struct reference, got {:?}", other),
    }
}

#[test]
fn a_usr_without_a_recorded_usage_aborts_loudly() {
    let mut table = Interner::new();
    let name = table.intern("Orphan").unwrap();
    // a typedef is not walked by usage collection, so the anonymous record
    // it references has no recorded usage and naming must fail
    let decls = vec![CDecl::Typedef(Box::new(CTypedefDecl {
        name,
        underlying: CType {
            is_const: false,
            ty: CBaseType::Record(true, RecordName::Anonymous("usr-lost".to_string())),
        },
    }))];
    assert!(matches!(
        name_unnamed_structs(decls, &mut table),
        Err(NamerError::UnresolvedRecord { .. })
    ));
}

#[test]
fn bare_function_prototypes_cannot_convert() {
    let mut table = Interner::new();
    let proto = CType {
        is_const: false,
        ty: CBaseType::FunProto(
            Box::new(CType { is_const: false, ty: CBaseType::Primitive(CPrimitive::Void) }),
            Vec::new(),
        ),
    };
    assert!(matches!(
        to_registry_type(&mut table, &proto),
        Err(RegistryError::FunProtoType)
    ));
}

#[test]
fn surviving_anonymous_records_cannot_convert() {
    let mut table = Interner::new();
    let t = CType {
        is_const: false,
        ty: CBaseType::Record(true, RecordName::Anonymous("usr-left-over".to_string())),
    };
    assert!(matches!(
        to_registry_type(&mut table, &t),
        Err(RegistryError::AnonymousType)
    ));
}

#[test]
fn unresolved_and_non_record_typedef_targets_are_hard_errors() {
    let mut table = Interner::new();
    let h = table.intern("H").unwrap();
    let ghost_name = table.intern("_Missing").unwrap();
    let typedef = CDecl::Typedef(Box::new(CTypedefDecl {
        name: h,
        underlying: CType {
            is_const: false,
            ty: CBaseType::Pointer(Box::new(CType {
                is_const: false,
                ty: CBaseType::Record(true, RecordName::Named(ghost_name)),
            })),
        },
    }));
    let mut registry = RegistryBase::new("unit".to_string());
    let decls = vec![];
    assert!(matches!(
        to_registry_decl(&mut registry, &mut table, &typedef, &decls),
        Err(RegistryError::UnresolvedRecord { .. })
    ));

    // the name resolves, but to a function, not a record
    let clash = CDecl::Fn(Box::new(CFnDecl {
        name: ghost_name,
        ret: Box::new(CType { is_const: false, ty: CBaseType::Primitive(CPrimitive::Void) }),
        parameters: Vec::new(),
    }));
    let decls2 = vec![clash];
    assert!(matches!(
        to_registry_decl(&mut registry, &mut table, &typedef, &decls2),
        Err(RegistryError::NotARecord { .. })
    ));
}

#[test]
fn records_must_be_named_definitions_to_materialize() {
    let mut table = Interner::new();
    let mut registry = RegistryBase::new("unit".to_string());
    let anon = CDecl::Struct(Box::new(CStructDecl {
        name: RecordName::Anonymous("usr-anon".to_string()),
        fields: Vec::new(),
        is_definition: true,
        subrecords: Vec::new(),
    }));
    let decls = vec![];
    assert!(matches!(
        to_registry_decl(&mut registry, &mut table, &anon, &decls),
        Err(RegistryError::InvalidRecordDecl)
    ));
    assert_eq!(registry.structs.len(), 0);
}

#[test]
fn function_parameters_with_prototype_types_are_rejected() {
    let mut table = Interner::new();
    let f = table.intern("f").unwrap();
    let proto_param = CParam {
        name: None,
        ty: CType {
            is_const: false,
            ty: CBaseType::FunProto(
                Box::new(CType {
                    is_const: false,
                    ty: CBaseType::Primitive(CPrimitive::Void),
                }),
                Vec::new(),
            ),
        },
    };
    let decl = CDecl::Fn(Box::new(CFnDecl {
        name: f,
        ret: Box::new(CType { is_const: false, ty: CBaseType::Primitive(CPrimitive::Void) }),
        parameters: vec![proto_param],
    }));
    let mut registry = RegistryBase::new("unit".to_string());
    let decls = vec![];
    assert!(matches!(
        to_registry_decl(&mut registry, &mut table, &decl, &decls),
        Err(RegistryError::FunProtoType)
    ));
    assert_eq!(registry.commands.len(), 0);
}

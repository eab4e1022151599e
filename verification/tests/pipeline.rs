use sennaar::ast::{AstBinOp, AstEval, AstKind, AstNode, AstType, AstTypeKind, AstUnaryOp};
use sennaar::decl::{CDecl, CEnumConstantDecl, CEnumDecl, CFnDecl, CStructDecl, CTypedefDecl};
use sennaar::expr::CExpr;
use sennaar::ident::Interner;
use sennaar::mapper::{any_usage, map_decl, map_expr, map_int_literal};
use sennaar::materialize::to_registry_decl;
use sennaar::namer::name_unnamed_structs;
use sennaar::rawtype::Type;
use sennaar::registry::RegistryBase;
use sennaar::ty::{CBaseType, CParam, CPrimitive, CType, RecordName};

fn bare_node(kind: AstKind, spelling: &str) -> AstNode {
    AstNode {
        kind,
        spelling: spelling.to_string(),
        display: spelling.to_string(),
        usr: String::new(),
        is_anonymous: false,
        is_definition: false,
        ty: prim_ty(CPrimitive::Void),
        underlying: None,
        value: 0,
        unary_op: AstUnaryOp::Other,
        bin_op: AstBinOp::Other,
        eval: AstEval::Absent,
        children: Vec::new(),
    }
}

fn prim_ty(p: CPrimitive) -> AstType {
    AstType { is_const: false, kind: AstTypeKind::Primitive(p) }
}

fn anon_record_ty(is_struct: bool, usr: &str) -> AstType {
    AstType {
        is_const: false,
        kind: AstTypeKind::Record {
            is_struct,
            anonymous: true,
            usr: usr.to_string(),
            spelling: String::new(),
        },
    }
}

#[test]
fn test_any_usage() {
    let usr = "some usr".to_string();
    let in_ty = CType::konst(CBaseType::Pointer(Box::new(CType::konst(CBaseType::Record(
        true,
        RecordName::Anonymous(usr.clone()),
    )))));
    let mut table = Interner::new();
    let some_typedef = table.intern("some_typedef").unwrap();
    // the usage of the USR is not seen through an alias of the record
    let not_in = CType::konst(CBaseType::Typedef(some_typedef));
    assert_eq!(any_usage(&in_ty, &usr), true);
    assert_eq!(any_usage(&not_in, &usr), false);
}

/// Subrecord suppression: the anonymous struct reached through the field
/// `walue` is absorbed by it, while the anonymous union that no field
/// reaches becomes a subrecord and is named from the enclosing record plus
/// its nesting index.
#[test]
fn subrecord_suppression_and_naming() {
    let mut table = Interner::new();

    let mut inner_struct = bare_node(AstKind::StructDecl, "");
    inner_struct.is_anonymous = true;
    inner_struct.is_definition = true;
    inner_struct.usr = "usr-inner-struct".to_string();
    let mut value_field = bare_node(AstKind::FieldDecl, "value");
    value_field.ty = prim_ty(CPrimitive::Int);
    inner_struct.children.push(value_field);

    let mut walue_field = bare_node(AstKind::FieldDecl, "walue");
    walue_field.ty = anon_record_ty(true, "usr-inner-struct");

    let mut inner_union = bare_node(AstKind::UnionDecl, "");
    inner_union.is_anonymous = true;
    inner_union.is_definition = true;
    inner_union.usr = "usr-inner-union".to_string();
    let mut a_field = bare_node(AstKind::FieldDecl, "a");
    a_field.ty = prim_ty(CPrimitive::Int);
    let mut b_field = bare_node(AstKind::FieldDecl, "b");
    b_field.ty = prim_ty(CPrimitive::Int);
    inner_union.children.push(a_field);
    inner_union.children.push(b_field);

    let mut nest = bare_node(AstKind::StructDecl, "Nest");
    nest.is_definition = true;
    nest.children.push(inner_struct);
    nest.children.push(walue_field);
    nest.children.push(inner_union);

    let mut extra = Vec::new();
    let decl = map_decl(&mut table, &nest, &mut extra).unwrap();

    let rd = decl.get_record_decl().unwrap();
    assert_eq!(rd.fields.len(), 1);
    assert_eq!(rd.subrecords.len(), 1);
    match &rd.subrecords[0] {
        RecordName::Anonymous(u) => assert_eq!(u, "usr-inner-union"),
        RecordName::Named(_) => panic!("subrecord should still be anonymous before naming"),
    }
    assert_eq!(extra.len(), 2);

    let mut all = extra;
    all.push(decl);
    let named = name_unnamed_structs(all, &mut table).unwrap();

    // naming totality: no anonymous reference remains anywhere
    for d in &named {
        if let Some(rd) = d.get_record_decl() {
            assert!(matches!(rd.name, RecordName::Named(_)));
            for sub in &rd.subrecords {
                assert!(matches!(sub, RecordName::Named(_)));
            }
        }
    }

    // the absorbed struct is named from the field that reaches it
    let inner = named[0].get_record_decl().unwrap();
    match inner.name {
        RecordName::Named(id) => {
            assert_eq!(id.original(&table), "struct_de_struct_Nest_de_field_walue")
        }
        _ => unreachable!(),
    }
    // the union is named from the enclosing record plus its nesting index
    let union_decl = named[1].get_record_decl().unwrap();
    match union_decl.name {
        RecordName::Named(id) => {
            assert_eq!(id.original(&table), "union_de_struct_Nest_de_nest_0")
        }
        _ => unreachable!(),
    }
    // the subrecord entry carries the same name: the prefix follows the
    // union's own tag, not the enclosing struct's
    let nest_decl = named[2].get_record_decl().unwrap();
    match nest_decl.subrecords[0] {
        RecordName::Named(id) => {
            assert_eq!(id.original(&table), "union_de_struct_Nest_de_nest_0")
        }
        _ => unreachable!(),
    }
}

/// Naming determinism: two runs over the same input produce identical
/// resolved names.
#[test]
fn naming_is_deterministic() {
    let build = |table: &mut Interner| {
        let mut inner = bare_node(AstKind::StructDecl, "");
        inner.is_anonymous = true;
        inner.is_definition = true;
        inner.usr = "usr-x".to_string();
        let mut f = bare_node(AstKind::FieldDecl, "value");
        f.ty = prim_ty(CPrimitive::Int);
        inner.children.push(f);

        let mut holder = bare_node(AstKind::StructDecl, "Holder");
        holder.is_definition = true;
        let mut field = bare_node(AstKind::FieldDecl, "inner");
        field.ty = anon_record_ty(true, "usr-x");
        holder.children.push(inner);
        holder.children.push(field);

        let mut extra = Vec::new();
        let decl = map_decl(table, &holder, &mut extra).unwrap();
        extra.push(decl);
        name_unnamed_structs(extra, table).unwrap()
    };
    let mut t1 = Interner::new();
    let mut t2 = Interner::new();
    let run1 = build(&mut t1);
    let run2 = build(&mut t2);
    let name1 = match run1[0].get_record_decl().unwrap().name {
        RecordName::Named(id) => id.original(&t1).to_string(),
        _ => unreachable!(),
    };
    let name2 = match run2[0].get_record_decl().unwrap().name {
        RecordName::Named(id) => id.original(&t2).to_string(),
        _ => unreachable!(),
    };
    assert_eq!(name1, name2);
    assert_eq!(name1, "struct_de_struct_Holder_de_field_inner");
}

/// Enrichment: for `typedef void (*F)(void (*g)(int x), int y);`, both `x`
/// and `y` carry their source names in the enriched type even though the
/// introspected type carries none.
#[test]
fn enrichment_recovers_parameter_names() {
    let mut table = Interner::new();

    let void_t = || prim_ty(CPrimitive::Void);
    let int_t = || prim_ty(CPrimitive::Int);
    let g_fnptr = AstType {
        is_const: false,
        kind: AstTypeKind::Pointer(Box::new(AstType {
            is_const: false,
            kind: AstTypeKind::FunctionProto { ret: Box::new(void_t()), params: vec![int_t()] },
        })),
    };
    let underlying = AstType {
        is_const: false,
        kind: AstTypeKind::Pointer(Box::new(AstType {
            is_const: false,
            kind: AstTypeKind::FunctionProto {
                ret: Box::new(void_t()),
                params: vec![g_fnptr, int_t()],
            },
        })),
    };

    let mut g_parm = bare_node(AstKind::ParmDecl, "g");
    let mut x_parm = bare_node(AstKind::ParmDecl, "x");
    x_parm.ty = int_t();
    g_parm.children.push(x_parm);
    let mut y_parm = bare_node(AstKind::ParmDecl, "y");
    y_parm.ty = int_t();

    let mut typedef = bare_node(AstKind::TypedefDecl, "F");
    typedef.underlying = Some(underlying);
    typedef.children.push(g_parm);
    typedef.children.push(y_parm);

    let mut extra = Vec::new();
    let decl = map_decl(&mut table, &typedef, &mut extra).unwrap();
    let td = match decl {
        CDecl::Typedef(td) => td,
        _ => panic!("expected a typedef"),
    };
    let outer = match &td.underlying.ty {
        CBaseType::Pointer(inner) => match &inner.ty {
            CBaseType::FunProto(_, params) => params,
            _ => panic!("expected a function prototype behind the pointer"),
        },
        _ => panic!("expected a pointer"),
    };
    assert_eq!(outer.len(), 2);
    assert_eq!(outer[0].name.unwrap().original(&table), "g");
    assert_eq!(outer[1].name.unwrap().original(&table), "y");
    let inner_params = match &outer[0].ty.ty {
        CBaseType::Pointer(inner) => match &inner.ty {
            CBaseType::FunProto(_, params) => params,
            _ => panic!("expected a nested function prototype"),
        },
        _ => panic!("expected a pointer parameter"),
    };
    assert_eq!(inner_params.len(), 1);
    assert_eq!(inner_params[0].name.unwrap().original(&table), "x");
}

/// End to end: an opaque handle typedef, a plain alias, a command and an
/// enumeration all classify into the registry.
#[test]
fn end_to_end_registry() {
    let mut table = Interner::new();
    let h = table.intern("H").unwrap();
    let under_h = table.intern("_H").unwrap();
    let my_int = table.intern("MyInt").unwrap();
    let add_name = table.intern("add").unwrap();
    let a = table.intern("a").unwrap();
    let b = table.intern("b").unwrap();
    let color = table.intern("Color").unwrap();
    let red = table.intern("RED").unwrap();
    let green = table.intern("GREEN").unwrap();
    let blue = table.intern("BLUE").unwrap();

    let int_ty = || CType { is_const: false, ty: CBaseType::Primitive(CPrimitive::Int) };

    let decls: Vec<CDecl> = vec![
        // struct _H;  (declaration only, no definition)
        CDecl::Struct(Box::new(CStructDecl {
            name: RecordName::Named(under_h),
            fields: Vec::new(),
            is_definition: false,
            subrecords: Vec::new(),
        })),
        // typedef struct _H* H;
        CDecl::Typedef(Box::new(CTypedefDecl {
            name: h,
            underlying: CType {
                is_const: false,
                ty: CBaseType::Pointer(Box::new(CType {
                    is_const: false,
                    ty: CBaseType::Record(true, RecordName::Named(under_h)),
                })),
            },
        })),
        // typedef int MyInt;
        CDecl::Typedef(Box::new(CTypedefDecl { name: my_int, underlying: int_ty() })),
        // int add(int a, int b);
        CDecl::Fn(Box::new(CFnDecl {
            name: add_name,
            ret: Box::new(int_ty()),
            parameters: vec![
                CParam { name: Some(a), ty: int_ty() },
                CParam { name: Some(b), ty: int_ty() },
            ],
        })),
        // enum Color { RED, GREEN = 5, BLUE };
        CDecl::Enum(Box::new(CEnumDecl {
            name: color,
            ty: int_ty(),
            members: vec![
                CEnumConstantDecl { name: red, explicit: false, value: 0 },
                CEnumConstantDecl { name: green, explicit: true, value: 5 },
                CEnumConstantDecl { name: blue, explicit: false, value: 6 },
            ],
        })),
    ];

    let mut registry = RegistryBase::new("unit".to_string());
    for i in 1..decls.len() {
        to_registry_decl(&mut registry, &mut table, &decls[i], &decls).unwrap();
    }

    let handle = registry.opaque_handle_typedefs.get(h).unwrap();
    assert_eq!(handle.name.original(&table), "H");

    let alias = registry.aliases.get(my_int).unwrap();
    match &alias.target {
        Type::IdentifierType(t) => assert_eq!(t.ident.original(&table), "int"),
        _ => panic!("expected an identifier type"),
    }

    let command = registry.commands.get(add_name).unwrap();
    assert_eq!(command.params.len(), 2);
    assert_eq!(command.params[0].name.original(&table), "a");
    assert_eq!(command.params[1].name.original(&table), "b");
    match &command.result {
        Type::IdentifierType(t) => assert_eq!(t.ident.original(&table), "int"),
        _ => panic!("expected an identifier result type"),
    }

    let colors = registry.enumerations.get(color).unwrap();
    assert_eq!(colors.variants.len(), 3);
    assert_eq!(colors.variants[1].name.original(&table), "GREEN");
    assert!(colors.variants[1].explicit);
    assert!(!colors.variants[0].explicit);
    assert!(!colors.variants[2].explicit);
    match &colors.variants[1].value {
        CExpr::IntLiteral(l) => assert_eq!(l.value, "0x5"),
        _ => panic!("expected an integer literal"),
    }
    assert!(decls[4].get_record_decl().is_none());
}

#[test]
fn int_literals_are_canonical_hexadecimal() {
    assert_eq!(map_int_literal(0x1BF52).value, "0x1BF52");
    assert_eq!(map_int_literal(0).value, "0x0");
    assert_eq!(map_int_literal(255).value, "0xFF");
    assert_eq!(map_int_literal(0x1BF52).suffix, "");
}

#[test]
fn expression_mapping_canonicalizes_literals() {
    let mut table = Interner::new();
    let mut lit = bare_node(AstKind::IntegerLiteral, "");
    lit.eval = AstEval::Int { bits: 0x114514, is_unsigned: false };
    lit.ty = prim_ty(CPrimitive::UInt);
    let e = map_expr(&mut table, &lit).unwrap();
    match e {
        CExpr::IntLiteral(l) => {
            assert_eq!(l.value, "0x114514");
            assert_eq!(l.suffix, "U");
        }
        _ => panic!("expected an integer literal"),
    }
}

#[test]
fn expression_mapping_builds_compound_assignment() {
    let mut table = Interner::new();
    let mut lhs = bare_node(AstKind::DeclRefExpr, "a");
    lhs.display = "a".to_string();
    let mut rhs = bare_node(AstKind::DeclRefExpr, "b");
    rhs.display = "b".to_string();
    let mut op = bare_node(AstKind::CompoundAssignOperator, "");
    op.bin_op = AstBinOp::AddAssign;
    op.children.push(lhs);
    op.children.push(rhs);
    let e = map_expr(&mut table, &op).unwrap();
    match e {
        CExpr::Binary(bin) => {
            assert_eq!(sennaar::expr::bin_op_describe(bin.op), "+=");
            match (&bin.lhs, &bin.rhs) {
                (CExpr::Identifier(l), CExpr::Identifier(r)) => {
                    assert_eq!(l.ident.original(&table), "a");
                    assert_eq!(r.ident.original(&table), "b");
                }
                _ => panic!("expected identifier operands"),
            }
        }
        _ => panic!("expected a binary expression"),
    }
}

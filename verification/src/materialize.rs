//! The registry materializer: classifies each rewritten declaration into
//! the registry, distinguishing aliases, opaque handles, opaque typedefs,
//! function-pointer typedefs, records, enums and commands.

use vstd::prelude::*;

use crate::decl::{CDecl, CStructDecl};
use crate::entity::{Command, EnumVariant, Enumeration, FunctionTypedef, Member, OpaqueHandleTypedef,
    OpaqueTypedef, Param, Structure, Typedef};
use crate::ident::{has_sep, Identifier, Interner};
use crate::rawtype::{ArrayType, IdentifierType, PointerType, Type};
use crate::registry::RegistryBase;
use crate::ty::{spec_primitive_text, CBaseType, CParam, CType, RecordName};

verus! {

/// Why materializing failed. These errors signal malformed input or
/// pipeline misordering and are never swallowed.
#[derive(Debug)]
pub enum RegistryError {
    /// A typedef refers to a record the resolver cannot find.
    UnresolvedRecord { name: Identifier },
    /// The resolver found the name, but not on a record declaration.
    NotARecord { name: Identifier },
    /// A bare function prototype reached type conversion.
    FunProtoType,
    /// An anonymous record survived past naming.
    AnonymousType,
    /// A record declaration that should have been materialized is not a
    /// definition, or is still anonymous.
    InvalidRecordDecl,
}

/// Only the `aliases` map may differ between the two registry bodies.
pub open spec fn same_but_aliases(prev: RegistryBase, cur: RegistryBase) -> bool {
    &&& cur.name == prev.name
    &&& cur.metadefs == prev.metadefs
    &&& cur.imports == prev.imports
    &&& cur.bitmasks == prev.bitmasks
    &&& cur.constants == prev.constants
    &&& cur.commands == prev.commands
    &&& cur.enumerations == prev.enumerations
    &&& cur.function_typedefs == prev.function_typedefs
    &&& cur.opaque_typedefs == prev.opaque_typedefs
    &&& cur.opaque_handle_typedefs == prev.opaque_handle_typedefs
    &&& cur.structs == prev.structs
    &&& cur.unions == prev.unions
}

/// Only the `bitmasks` map may differ between the two registry bodies.
pub open spec fn same_but_bitmasks(prev: RegistryBase, cur: RegistryBase) -> bool {
    &&& cur.name == prev.name
    &&& cur.metadefs == prev.metadefs
    &&& cur.imports == prev.imports
    &&& cur.aliases == prev.aliases
    &&& cur.constants == prev.constants
    &&& cur.commands == prev.commands
    &&& cur.enumerations == prev.enumerations
    &&& cur.function_typedefs == prev.function_typedefs
    &&& cur.opaque_typedefs == prev.opaque_typedefs
    &&& cur.opaque_handle_typedefs == prev.opaque_handle_typedefs
    &&& cur.structs == prev.structs
    &&& cur.unions == prev.unions
}

/// Only the `constants` map may differ between the two registry bodies.
pub open spec fn same_but_constants(prev: RegistryBase, cur: RegistryBase) -> bool {
    &&& cur.name == prev.name
    &&& cur.metadefs == prev.metadefs
    &&& cur.imports == prev.imports
    &&& cur.aliases == prev.aliases
    &&& cur.bitmasks == prev.bitmasks
    &&& cur.commands == prev.commands
    &&& cur.enumerations == prev.enumerations
    &&& cur.function_typedefs == prev.function_typedefs
    &&& cur.opaque_typedefs == prev.opaque_typedefs
    &&& cur.opaque_handle_typedefs == prev.opaque_handle_typedefs
    &&& cur.structs == prev.structs
    &&& cur.unions == prev.unions
}

/// Only the `commands` map may differ between the two registry bodies.
pub open spec fn same_but_commands(prev: RegistryBase, cur: RegistryBase) -> bool {
    &&& cur.name == prev.name
    &&& cur.metadefs == prev.metadefs
    &&& cur.imports == prev.imports
    &&& cur.aliases == prev.aliases
    &&& cur.bitmasks == prev.bitmasks
    &&& cur.constants == prev.constants
    &&& cur.enumerations == prev.enumerations
    &&& cur.function_typedefs == prev.function_typedefs
    &&& cur.opaque_typedefs == prev.opaque_typedefs
    &&& cur.opaque_handle_typedefs == prev.opaque_handle_typedefs
    &&& cur.structs == prev.structs
    &&& cur.unions == prev.unions
}

/// Only the `enumerations` map may differ between the two registry bodies.
pub open spec fn same_but_enumerations(prev: RegistryBase, cur: RegistryBase) -> bool {
    &&& cur.name == prev.name
    &&& cur.metadefs == prev.metadefs
    &&& cur.imports == prev.imports
    &&& cur.aliases == prev.aliases
    &&& cur.bitmasks == prev.bitmasks
    &&& cur.constants == prev.constants
    &&& cur.commands == prev.commands
    &&& cur.function_typedefs == prev.function_typedefs
    &&& cur.opaque_typedefs == prev.opaque_typedefs
    &&& cur.opaque_handle_typedefs == prev.opaque_handle_typedefs
    &&& cur.structs == prev.structs
    &&& cur.unions == prev.unions
}

/// Only the `function_typedefs` map may differ between the two registry bodies.
pub open spec fn same_but_function_typedefs(prev: RegistryBase, cur: RegistryBase) -> bool {
    &&& cur.name == prev.name
    &&& cur.metadefs == prev.metadefs
    &&& cur.imports == prev.imports
    &&& cur.aliases == prev.aliases
    &&& cur.bitmasks == prev.bitmasks
    &&& cur.constants == prev.constants
    &&& cur.commands == prev.commands
    &&& cur.enumerations == prev.enumerations
    &&& cur.opaque_typedefs == prev.opaque_typedefs
    &&& cur.opaque_handle_typedefs == prev.opaque_handle_typedefs
    &&& cur.structs == prev.structs
    &&& cur.unions == prev.unions
}

/// Only the `opaque_typedefs` map may differ between the two registry bodies.
pub open spec fn same_but_opaque_typedefs(prev: RegistryBase, cur: RegistryBase) -> bool {
    &&& cur.name == prev.name
    &&& cur.metadefs == prev.metadefs
    &&& cur.imports == prev.imports
    &&& cur.aliases == prev.aliases
    &&& cur.bitmasks == prev.bitmasks
    &&& cur.constants == prev.constants
    &&& cur.commands == prev.commands
    &&& cur.enumerations == prev.enumerations
    &&& cur.function_typedefs == prev.function_typedefs
    &&& cur.opaque_handle_typedefs == prev.opaque_handle_typedefs
    &&& cur.structs == prev.structs
    &&& cur.unions == prev.unions
}

/// Only the `opaque_handle_typedefs` map may differ between the two registry bodies.
pub open spec fn same_but_opaque_handle_typedefs(prev: RegistryBase, cur: RegistryBase) -> bool {
    &&& cur.name == prev.name
    &&& cur.metadefs == prev.metadefs
    &&& cur.imports == prev.imports
    &&& cur.aliases == prev.aliases
    &&& cur.bitmasks == prev.bitmasks
    &&& cur.constants == prev.constants
    &&& cur.commands == prev.commands
    &&& cur.enumerations == prev.enumerations
    &&& cur.function_typedefs == prev.function_typedefs
    &&& cur.opaque_typedefs == prev.opaque_typedefs
    &&& cur.structs == prev.structs
    &&& cur.unions == prev.unions
}

/// Only the `structs` map may differ between the two registry bodies.
pub open spec fn same_but_structs(prev: RegistryBase, cur: RegistryBase) -> bool {
    &&& cur.name == prev.name
    &&& cur.metadefs == prev.metadefs
    &&& cur.imports == prev.imports
    &&& cur.aliases == prev.aliases
    &&& cur.bitmasks == prev.bitmasks
    &&& cur.constants == prev.constants
    &&& cur.commands == prev.commands
    &&& cur.enumerations == prev.enumerations
    &&& cur.function_typedefs == prev.function_typedefs
    &&& cur.opaque_typedefs == prev.opaque_typedefs
    &&& cur.opaque_handle_typedefs == prev.opaque_handle_typedefs
    &&& cur.unions == prev.unions
}

/// Only the `unions` map may differ between the two registry bodies.
pub open spec fn same_but_unions(prev: RegistryBase, cur: RegistryBase) -> bool {
    &&& cur.name == prev.name
    &&& cur.metadefs == prev.metadefs
    &&& cur.imports == prev.imports
    &&& cur.aliases == prev.aliases
    &&& cur.bitmasks == prev.bitmasks
    &&& cur.constants == prev.constants
    &&& cur.commands == prev.commands
    &&& cur.enumerations == prev.enumerations
    &&& cur.function_typedefs == prev.function_typedefs
    &&& cur.opaque_typedefs == prev.opaque_typedefs
    &&& cur.opaque_handle_typedefs == prev.opaque_handle_typedefs
    &&& cur.structs == prev.structs
}

/// The type is convertible: it holds no function prototype and no
/// anonymous record anywhere.
pub open spec fn reg_ty_ok(b: CBaseType) -> bool
    decreases b, 0int,
{
    match b {
        CBaseType::Primitive(_) => true,
        CBaseType::Array(e, _) => reg_ty_ok(e.ty),
        CBaseType::Pointer(e) => reg_ty_ok(e.ty),
        CBaseType::FunProto(_, _) => false,
        CBaseType::Record(_, RecordName::Named(_)) => true,
        CBaseType::Record(_, RecordName::Anonymous(_)) => false,
        CBaseType::Enum(_) => true,
        CBaseType::Typedef(_) => true,
    }
}

/// The converted registry type corresponds to the IR type structurally:
/// primitives become identifier references to their rendered names, array
/// lengths become canonical hexadecimal literals, pointers default to
/// not-pointer-to-one and not-nullable.
pub open spec fn reg_ty_rel(it: Interner, out: Type, b: CBaseType, is_const: bool) -> bool
    decreases b, 0int,
{
    match b {
        CBaseType::Primitive(p) => out matches Type::IdentifierType(t) && it.holds(t.ident)
            && it.text_at(t.ident.idx as int) == spec_primitive_text(p),
        CBaseType::Array(e, len) => out matches Type::ArrayType(a) && {
            &&& a.is_const == is_const
            &&& reg_ty_rel(it, a.element, e.ty, e.is_const)
            &&& (match len {
                Some(n) => a.length matches Some(le) && (le matches CExpr::IntLiteral(l)
                    && l.value@ == crate::text::spec_hex_literal(n as int) && l.suffix@
                    == Seq::<char>::empty()),
                None => a.length is None,
            })
        },
        CBaseType::Pointer(e) => out matches Type::PointerType(p) && {
            &&& p.is_const == e.is_const
            &&& !p.pointer_to_one
            &&& !p.nullable
            &&& reg_ty_rel(it, p.pointee, e.ty, e.is_const)
        },
        CBaseType::Record(_, RecordName::Named(id)) => out matches Type::IdentifierType(t)
            && t.ident == id,
        CBaseType::Enum(id) => out matches Type::IdentifierType(t) && t.ident == id,
        CBaseType::Typedef(id) => out matches Type::IdentifierType(t) && t.ident == id,
        _ => false,
    }
}

use crate::expr::CExpr;

proof fn lemma_primitive_text_sep_free(p: crate::ty::CPrimitive)
    ensures
        !has_sep(spec_primitive_text(p)),
{
    reveal_strlit("void");
    reveal_strlit("bool");
    reveal_strlit("char");
    reveal_strlit("short");
    reveal_strlit("int");
    reveal_strlit("long");
    reveal_strlit("long long");
    reveal_strlit("float");
    reveal_strlit("double");
    reveal_strlit("long double");
    reveal_strlit("signed ");
    reveal_strlit("unsigned ");
    let s = spec_primitive_text(p);
    assert forall|i: int| 0 <= i < s.len() implies s[i] != ':' by {}
}

proof fn lemma_decimal_sep_free(n: int)
    ensures
        !has_sep(crate::text::spec_decimal(n)),
    decreases n,
{
    if n >= 10 {
        lemma_decimal_sep_free(n / 10);
    }
    let s = crate::text::spec_decimal(n);
    assert forall|i: int| 0 <= i < s.len() implies s[i] != ':' by {
        if n >= 10 {
            if i < crate::text::spec_decimal(n / 10).len() {
                assert(s[i] == crate::text::spec_decimal(n / 10)[i]);
            }
        }
    }
}

/// Converts an IR type to a registry type. A bare function prototype or a
/// surviving anonymous record is a hard error: both signal that the
/// pipeline ran out of order.
pub fn to_registry_type(table: &mut Interner, cty: &CType) -> (r: Result<Type, RegistryError>)
    requires
        old(table).wf(),
    ensures
        final(table).wf(),
        final(table).extends(*old(table)),
        crate::ident::renames_frozen(*old(table), *final(table)),
        match r {
            Ok(out) => reg_ty_ok(cty.ty) && reg_ty_rel(*final(table), out, cty.ty, cty.is_const),
            Err(_) => !reg_ty_ok(cty.ty),
        },
    decreases *cty, 0int,
{
    match &cty.ty {
        CBaseType::Primitive(p) => {
            let text = p.fmt();
            proof {
                lemma_primitive_text_sep_free(*p);
            }
            match table.intern(text.as_str()) {
                Ok(id) => Ok(Type::identifier(id)),
                Err(_) => {
                    proof {
                        assert(false);
                    }
                    Err(RegistryError::FunProtoType)
                },
            }
        },
        CBaseType::Array(e, len) => {
            let element = to_registry_type(table, e)?;
            let length: Option<CExpr> = match len {
                Some(n) => Some(
                    CExpr::IntLiteral(Box::new(crate::mapper::map_int_literal(*n))),
                ),
                None => None,
            };
            Ok(
                Type::ArrayType(
                    Box::new(ArrayType { element, length, is_const: cty.is_const }),
                ),
            )
        },
        CBaseType::Pointer(e) => {
            let pointee = to_registry_type(table, e)?;
            Ok(
                Type::PointerType(
                    Box::new(
                        PointerType {
                            pointee,
                            is_const: e.is_const,
                            pointer_to_one: false,
                            nullable: false,
                        },
                    ),
                ),
            )
        },
        CBaseType::FunProto(_, _) => Err(RegistryError::FunProtoType),
        CBaseType::Record(_, RecordName::Anonymous(_)) => Err(RegistryError::AnonymousType),
        CBaseType::Record(_, RecordName::Named(id)) => Ok(Type::identifier(*id)),
        CBaseType::Enum(id) => Ok(Type::identifier(*id)),
        CBaseType::Typedef(id) => Ok(Type::identifier(*id)),
    }
}

/// The converted parameter's name: the parameter's own, or `param` plus
/// its position when unnamed.
pub open spec fn reg_param_name_ok(it: Interner, p: Param, inp: CParam, idx: int) -> bool {
    match inp.name {
        Some(id) => p.name == id,
        None => it.holds(p.name) && it.text_at(p.name.idx as int) == "param"@
            + crate::text::spec_decimal(idx),
    }
}

/// The converted parameter: its type converted, not optional, no length
/// annotation; these enrichments belong to a later pass.
pub open spec fn reg_param_rel(it: Interner, p: Param, inp: CParam, idx: int) -> bool {
    &&& reg_param_name_ok(it, p, inp, idx)
    &&& reg_ty_rel(it, p.ty, inp.ty.ty, inp.ty.is_const)
    &&& !p.optional
    &&& p.len is None
    &&& p.metadata@.len() == 0
}

/// Converts one parameter; `idx` names an unnamed parameter.
pub fn to_registry_param(table: &mut Interner, param: &CParam, idx: usize) -> (r: Result<
    Param,
    RegistryError,
>)
    requires
        old(table).wf(),
    ensures
        final(table).wf(),
        final(table).extends(*old(table)),
        crate::ident::renames_frozen(*old(table), *final(table)),
        match r {
            Ok(p) => reg_ty_ok(param.ty.ty) && reg_param_rel(*final(table), p, *param, idx as int),
            Err(_) => !reg_ty_ok(param.ty.ty),
        },
{
    let name = match param.name {
        Some(id) => id,
        None => {
            let mut s = String::from_str("param");
            s.append(crate::text::decimal_string(idx as u64).as_str());
            proof {
                reveal_strlit("param");
                lemma_decimal_sep_free(idx as int);
                assert(!has_sep(s@)) by {
                    assert forall|i: int| 0 <= i < s@.len() implies s@[i] != ':' by {
                        if i >= "param"@.len() {
                            assert(s@[i] == crate::text::spec_decimal(idx as int)[i
                                - "param"@.len()]);
                        }
                    }
                }
            }
            match table.intern(s.as_str()) {
                Ok(id) => id,
                Err(_) => {
                    proof {
                        assert(false);
                    }
                    return Err(RegistryError::FunProtoType);
                },
            }
        },
    };
    let ghost mid = *table;
    let ty = to_registry_type(table, &param.ty)?;
    Ok(Param::new(name, ty, false, None))
}


/// Type conversion facts survive later interning.
pub proof fn lemma_reg_ty_rel_mono(
    it1: Interner,
    it2: Interner,
    out: Type,
    b: CBaseType,
    is_const: bool,
)
    requires
        it2.extends(it1),
        reg_ty_rel(it1, out, b, is_const),
    ensures
        reg_ty_rel(it2, out, b, is_const),
    decreases b, 0int,
{
    match b {
        CBaseType::Array(e, _) => {
            if let Type::ArrayType(a) = out {
                lemma_reg_ty_rel_mono(it1, it2, a.element, e.ty, e.is_const);
            }
        },
        CBaseType::Pointer(e) => {
            if let Type::PointerType(p) = out {
                lemma_reg_ty_rel_mono(it1, it2, p.pointee, e.ty, e.is_const);
            }
        },
        _ => {},
    }
}

proof fn lemma_reg_param_rel_mono(it1: Interner, it2: Interner, p: Param, inp: CParam, idx: int)
    requires
        it2.extends(it1),
        reg_param_rel(it1, p, inp, idx),
    ensures
        reg_param_rel(it2, p, inp, idx),
{
    lemma_reg_ty_rel_mono(it1, it2, p.ty, inp.ty.ty, inp.ty.is_const);
}

fn to_registry_params(table: &mut Interner, params: &Vec<CParam>, i: usize) -> (r: Result<
    Vec<Param>,
    RegistryError,
>)
    requires
        old(table).wf(),
        i <= params@.len(),
    ensures
        final(table).wf(),
        final(table).extends(*old(table)),
        crate::ident::renames_frozen(*old(table), *final(table)),
        match r {
            Ok(v) => {
                &&& v@.len() == params@.len() - i
                &&& forall|j: int|
                    0 <= j < v@.len() ==> reg_param_rel(
                        *final(table),
                        #[trigger] v@[j],
                        params@[i + j],
                        i + j,
                    )
                &&& forall|j: int|
                    i <= j < params@.len() ==> reg_ty_ok((#[trigger] params@[j]).ty.ty)
            },
            Err(_) => exists|j: int|
                i <= j < params@.len() && !reg_ty_ok((#[trigger] params@[j]).ty.ty),
        },
    decreases params@.len() - i,
{
    if i == params.len() {
        Ok(Vec::new())
    } else {
        let head = to_registry_param(table, &params[i], i)?;
        let ghost mid = *table;
        let mut rest = to_registry_params(table, params, i + 1)?;
        proof {
            lemma_reg_param_rel_mono(mid, *table, head, params@[i as int], i as int);
        }
        let ghost rest0 = rest@;
        rest.insert(0, head);
        proof {
            assert forall|j: int|
                0 <= j < rest@.len() implies reg_param_rel(
                *table,
                #[trigger] rest@[j],
                params@[i + j],
                i + j,
            ) by {
                if j > 0 {
                    assert(rest@[j] == rest0[j - 1]);
                    assert(reg_param_rel(
                        *table,
                        rest0[j - 1],
                        params@[(i + 1) as int + (j - 1)],
                        (i + 1) as int + (j - 1),
                    ));
                    assert((i + 1) as int + (j - 1) == i + j);
                } else {
                    assert(rest@[0] == head);
                }
            }
            assert forall|j: int|
                i <= j < params@.len() implies reg_ty_ok((#[trigger] params@[j]).ty.ty) by {
                if j > i {
                    assert(reg_ty_ok(params@[j].ty.ty));
                }
            }
        }
        Ok(rest)
    }
}

/// The materialized function typedef: its converted result and parameters,
/// its pointer flag, and nothing promised to a later pass.
pub open spec fn ftd_rel(
    it: Interner,
    ftd: FunctionTypedef,
    name: Identifier,
    ret: CType,
    ps: Seq<CParam>,
    is_pointer: bool,
) -> bool {
    &&& ftd.name == name
    &&& reg_ty_rel(it, ftd.result, ret.ty, ret.is_const)
    &&& ftd.is_pointer == is_pointer
    &&& !ftd.is_native_api
    &&& ftd.params@.len() == ps.len()
    &&& forall|j: int|
        0 <= j < ps.len() ==> reg_param_rel(it, #[trigger] ftd.params@[j], ps[j], j)
}

/// The materialized command: its converted result and parameters; success
/// and error codes and the alias target are left empty for a later pass.
pub open spec fn command_rel(
    it: Interner,
    c: Command,
    name: Identifier,
    ret: CType,
    ps: Seq<CParam>,
) -> bool {
    &&& c.name == name
    &&& reg_ty_rel(it, c.result, ret.ty, ret.is_const)
    &&& c.success_codes@.len() == 0
    &&& c.error_codes@.len() == 0
    &&& c.alias_to is None
    &&& c.params@.len() == ps.len()
    &&& forall|j: int| 0 <= j < ps.len() ==> reg_param_rel(it, #[trigger] c.params@[j], ps[j], j)
}

/// Materializes a function typedef into the registry.
pub fn to_registry_command(
    registry: &mut RegistryBase,
    table: &mut Interner,
    name: Identifier,
    ret: &CType,
    params: &Vec<CParam>,
    is_pointer: bool,
) -> (r: Result<(), RegistryError>)
    requires
        old(table).wf(),
        old(registry).function_typedefs.wf(),
    ensures
        final(table).wf(),
        final(table).extends(*old(table)),
        crate::ident::renames_frozen(*old(table), *final(table)),
        final(registry).function_typedefs.wf(),
        match r {
            Ok(()) => {
                &&& same_but_function_typedefs(*old(registry), *final(registry))
                &&& (match final(registry).function_typedefs.spec_get(name) {
                    Some(ftd) => ftd_rel(*final(table), ftd, name, *ret, params@, is_pointer),
                    None => false,
                })
                &&& forall|k: Identifier|
                    k != name ==> #[trigger] final(registry).function_typedefs.spec_get(k)
                        == old(registry).function_typedefs.spec_get(k)
                &&& reg_ty_ok(ret.ty) && forall|j: int|
                    0 <= j < params@.len() ==> reg_ty_ok((#[trigger] params@[j]).ty.ty)
            },
            Err(_) => *final(registry) == *old(registry) && (!reg_ty_ok(ret.ty) || exists|j: int|
                0 <= j < params@.len() && !reg_ty_ok((#[trigger] params@[j]).ty.ty)),
        },
{
    let reg_params = to_registry_params(table, params, 0)?;
    let ghost mid = *table;
    let result = to_registry_type(table, ret)?;
    proof {
        assert forall|j: int| 0 <= j < params@.len() implies reg_param_rel(
            *table,
            #[trigger] reg_params@[j],
            params@[j],
            j,
        ) && reg_ty_ok((#[trigger] params@[j]).ty.ty) by {
            assert(reg_ty_ok(params@[0 + j].ty.ty) && reg_param_rel(
                mid,
                reg_params@[j],
                params@[0 + j],
                0 + j,
            ));
            lemma_reg_param_rel_mono(mid, *table, reg_params@[j], params@[j], j);
        }
    }
    let def = FunctionTypedef::new(name, reg_params, result, is_pointer, false);
    registry.function_typedefs.insert(name, def);
    Ok(())
}

/// The materialized structure member: its name and converted type;
/// bit-width, initializer, optionality and length are left absent.
pub open spec fn member_rel(it: Interner, m: Member, f: crate::decl::CFieldDecl) -> bool {
    &&& m.name == f.name
    &&& reg_ty_rel(it, m.ty, f.ty.ty, f.ty.is_const)
    &&& m.bits is None
    &&& m.init is None
    &&& !m.optional
    &&& m.len is None
}

fn to_registry_members(table: &mut Interner, fields: &Vec<crate::decl::CFieldDecl>, i: usize) -> (r:
    Result<Vec<Member>, RegistryError>)
    requires
        old(table).wf(),
        i <= fields@.len(),
    ensures
        final(table).wf(),
        final(table).extends(*old(table)),
        crate::ident::renames_frozen(*old(table), *final(table)),
        match r {
            Ok(v) => {
                &&& v@.len() == fields@.len() - i
                &&& forall|j: int|
                    0 <= j < v@.len() ==> member_rel(
                        *final(table),
                        #[trigger] v@[j],
                        fields@[i + j],
                    )
                &&& forall|j: int|
                    i <= j < fields@.len() ==> reg_ty_ok((#[trigger] fields@[j]).ty.ty)
            },
            Err(_) => exists|j: int|
                i <= j < fields@.len() && !reg_ty_ok((#[trigger] fields@[j]).ty.ty),
        },
    decreases fields@.len() - i,
{
    if i == fields.len() {
        Ok(Vec::new())
    } else {
        let f = &fields[i];
        let ty = to_registry_type(table, &f.ty)?;
        let head = Member::new(f.name, ty, None, None, false, None);
        let ghost mid = *table;
        let mut rest = to_registry_members(table, fields, i + 1)?;
        proof {
            lemma_reg_ty_rel_mono(
                mid,
                *table,
                head.ty,
                fields@[i as int].ty.ty,
                fields@[i as int].ty.is_const,
            );
        }
        let ghost rest0 = rest@;
        rest.insert(0, head);
        proof {
            assert forall|j: int|
                0 <= j < rest@.len() implies member_rel(
                *table,
                #[trigger] rest@[j],
                fields@[i + j],
            ) by {
                if j > 0 {
                    assert(rest@[j] == rest0[j - 1]);
                    assert(member_rel(
                        *table,
                        rest0[j - 1],
                        fields@[(i + 1) as int + (j - 1)],
                    ));
                    assert((i + 1) as int + (j - 1) == i + j);
                } else {
                    assert(rest@[0] == head);
                }
            }
            assert forall|j: int|
                i <= j < fields@.len() implies reg_ty_ok((#[trigger] fields@[j]).ty.ty) by {
                if j > i {
                    assert(reg_ty_ok(fields@[j].ty.ty));
                }
            }
        }
        Ok(rest)
    }
}

/// The materialized enumeration variant: its name, its `explicit` flag
/// carried verbatim, and its literal value as a canonical hexadecimal
/// integer expression.
pub open spec fn variant_rel(v: EnumVariant, c: crate::decl::CEnumConstantDecl) -> bool {
    &&& v.name == c.name
    &&& v.explicit == c.explicit
    &&& v.value matches CExpr::IntLiteral(l) && l.value@ == crate::text::spec_hex_literal(
        c.value as int,
    ) && l.suffix@ == Seq::<char>::empty()
}

fn to_registry_variants(members: &Vec<crate::decl::CEnumConstantDecl>, i: usize) -> (r: Vec<
    EnumVariant,
>)
    requires
        i <= members@.len(),
    ensures
        r@.len() == members@.len() - i,
        forall|j: int| 0 <= j < r@.len() ==> variant_rel(#[trigger] r@[j], members@[i + j]),
    decreases members@.len() - i,
{
    if i == members.len() {
        Vec::new()
    } else {
        let c = &members[i];
        let head = EnumVariant::new(
            c.name,
            CExpr::IntLiteral(Box::new(crate::mapper::map_int_literal(c.value))),
            c.explicit,
        );
        let mut rest = to_registry_variants(members, i + 1);
        let ghost rest0 = rest@;
        rest.insert(0, head);
        proof {
            assert forall|j: int| 0 <= j < rest@.len() implies variant_rel(
                #[trigger] rest@[j],
                members@[i + j],
            ) by {
                if j > 0 {
                    assert(rest@[j] == rest0[j - 1]);
                    assert(members@[(i + 1) + (j - 1)] == members@[i + j]);
                }
            }
        }
        rest
    }
}

/// `i` is the position of the first declaration named `name`.
pub open spec fn first_named(decls: Seq<CDecl>, name: Identifier, i: int) -> bool {
    &&& 0 <= i < decls.len()
    &&& decls[i].spec_name() == RecordName::Named(name)
    &&& forall|j: int|
        0 <= j < i ==> (#[trigger] decls[j].spec_name()) != RecordName::Named(name)
}

/// The resolver over the rewritten set finds the name on a record
/// declaration that is not a definition: the opaque cases of typedef
/// classification.
pub open spec fn resolves_to_opaque(decls: Seq<CDecl>, name: Identifier) -> bool {
    exists|i: int|
        #[trigger] first_named(decls, name, i) && (match decls[i] {
            CDecl::Struct(rd) => !rd.is_definition,
            CDecl::Union(rd) => !rd.is_definition,
            _ => false,
        })
}

/// The resolver finds the name on a defined record: the typedef falls
/// through to the alias case.
pub open spec fn resolves_to_definition(decls: Seq<CDecl>, name: Identifier) -> bool {
    exists|i: int|
        #[trigger] first_named(decls, name, i) && (match decls[i] {
            CDecl::Struct(rd) => rd.is_definition,
            CDecl::Union(rd) => rd.is_definition,
            _ => false,
        })
}

/// The resolver fails: the name is absent, or found on something that is
/// not a record.
pub open spec fn resolver_fails(decls: Seq<CDecl>, name: Identifier) -> bool {
    !resolves_to_opaque(decls, name) && !resolves_to_definition(decls, name)
}

/// Resolves an identifier to the first declaration carrying it.
pub fn resolve_decl(decls: &Vec<CDecl>, name: Identifier) -> (r: Option<usize>)
    ensures
        match r {
            Some(i) => first_named(decls@, name, i as int),
            None => forall|j: int|
                0 <= j < decls@.len() ==> (#[trigger] decls@[j].spec_name())
                    != RecordName::Named(name),
        },
{
    let n = decls.len();
    let mut i: usize = 0;
    while i < n
        invariant
            i <= n,
            n == decls@.len(),
            forall|j: int|
                0 <= j < i ==> (#[trigger] decls@[j].spec_name()) != RecordName::Named(name),
        decreases n - i,
    {
        let matched = match decls[i].name() {
            RecordName::Named(id) => id == name,
            RecordName::Anonymous(_) => false,
        };
        if matched {
            return Some(i);
        }
        i = i + 1;
    }
    None
}


proof fn lemma_first_named_unique(decls: Seq<CDecl>, name: Identifier, i: int, j: int)
    requires
        first_named(decls, name, i),
        first_named(decls, name, j),
    ensures
        i == j,
{
    if i < j {
        assert(decls[i].spec_name() != RecordName::Named(name));
    }
    if j < i {
        assert(decls[j].spec_name() != RecordName::Named(name));
    }
}

/// The materialized alias: the typedef's name bound to its converted
/// underlying type.
pub open spec fn alias_rel(it: Interner, t: Typedef, name: Identifier, underlying: CType) -> bool {
    &&& t.name == name
    &&& reg_ty_rel(it, t.target, underlying.ty, underlying.is_const)
}

fn typedef_alias(
    registry: &mut RegistryBase,
    table: &mut Interner,
    name: Identifier,
    underlying: &CType,
) -> (r: Result<(), RegistryError>)
    requires
        old(table).wf(),
        old(registry).aliases.wf(),
    ensures
        final(table).wf(),
        final(table).extends(*old(table)),
        crate::ident::renames_frozen(*old(table), *final(table)),
        final(registry).aliases.wf(),
        match r {
            Ok(()) => {
                &&& reg_ty_ok(underlying.ty)
                &&& same_but_aliases(*old(registry), *final(registry))
                &&& (match final(registry).aliases.spec_get(name) {
                    Some(t) => alias_rel(*final(table), t, name, *underlying),
                    None => false,
                })
                &&& forall|k: Identifier|
                    k != name ==> #[trigger] final(registry).aliases.spec_get(k) == old(registry).aliases.spec_get(k)
            },
            Err(_) => *final(registry) == *old(registry) && !reg_ty_ok(underlying.ty),
        },
{
    let target = to_registry_type(table, underlying)?;
    let entity = Typedef::new(name, target);
    registry.aliases.insert(name, entity);
    Ok(())
}

/// Classifies one rewritten declaration into the registry, using the
/// resolver over the full rewritten set for typedef classification:
/// a typedef of a (pointer to a) function prototype becomes a function
/// typedef; a typedef of a (pointer to a) record that resolves to a
/// non-definition becomes an opaque (handle) typedef; any other typedef
/// becomes an alias; a function becomes a command; a defined, named
/// record becomes a structure or union; an enum becomes an enumeration.
/// A variable contributes no registry entity. A record that is not a
/// named definition, a bare function prototype or a surviving anonymous
/// record in a converted type, and a failed resolver lookup are hard
/// errors that leave the registry unchanged.
#[verifier::rlimit(100)]
pub fn to_registry_decl(
    registry: &mut RegistryBase,
    table: &mut Interner,
    decl: &CDecl,
    decls: &Vec<CDecl>,
) -> (r: Result<(), RegistryError>)
    requires
        old(table).wf(),
        crate::registry::base_wf(*old(registry)),
    ensures
        final(table).wf(),
        final(table).extends(*old(table)),
        crate::ident::renames_frozen(*old(table), *final(table)),
        crate::registry::base_wf(*final(registry)),
        match *decl {
            CDecl::Typedef(td) => {
                if (td.underlying.ty matches CBaseType::Pointer(p) && p.ty matches
                CBaseType::FunProto(ret, ps)) {
                    match td.underlying.ty {
                        CBaseType::Pointer(p) => (match p.ty {
                            CBaseType::FunProto(ret, ps) => (match r {
                                Ok(()) => same_but_function_typedefs(
                                    *old(registry),
                                    *final(registry),
                                ) && (match final(registry).function_typedefs.spec_get(
                                    td.name,
                                ) {
                                    Some(ftd) => ftd_rel(
                                        *final(table),
                                        ftd,
                                        td.name,
                                        *ret,
                                        ps@,
                                        true,
                                    ),
                                    None => false,
                                }),
                                Err(_) => *final(registry) == *old(registry),
                            }),
                            _ => false,
                        }),
                        _ => false,
                    }
                } else if (td.underlying.ty matches CBaseType::Pointer(p) && p.ty matches
                CBaseType::Record(s, RecordName::Named(nm))) {
                    match td.underlying.ty {
                        CBaseType::Pointer(p) => (match p.ty {
                            CBaseType::Record(_, RecordName::Named(nm)) => {
                                if resolves_to_opaque(decls@, nm) {
                                    match r {
                                        Ok(()) => same_but_opaque_handle_typedefs(
                                            *old(registry),
                                            *final(registry),
                                        ) && (match final(registry).opaque_handle_typedefs.spec_get(
                                            td.name,
                                        ) {
                                            Some(h) => h.name == td.name,
                                            None => false,
                                        }) && (forall|k: Identifier|
                                            k != td.name ==> #[trigger] final(registry).opaque_handle_typedefs.spec_get(k) == old(registry).opaque_handle_typedefs.spec_get(k)),
                                        Err(_) => false,
                                    }
                                } else if resolves_to_definition(decls@, nm) {
                                    match r {
                                        Ok(()) => same_but_aliases(
                                            *old(registry),
                                            *final(registry),
                                        ) && (match final(registry).aliases.spec_get(td.name) {
                                            Some(t) => alias_rel(
                                                *final(table),
                                                t,
                                                td.name,
                                                td.underlying,
                                            ),
                                            None => false,
                                        }) && (forall|k: Identifier|
                                            k != td.name ==> #[trigger] final(registry).aliases.spec_get(k) == old(registry).aliases.spec_get(k)),
                                        Err(_) => false,
                                    }
                                } else {
                                    r is Err && *final(registry) == *old(registry)
                                }
                            },
                            _ => false,
                        }),
                        _ => false,
                    }
                } else if (td.underlying.ty matches CBaseType::Record(s, RecordName::Named(
                    nm,
                ))) {
                    match td.underlying.ty {
                        CBaseType::Record(_, RecordName::Named(nm)) => {
                            if resolves_to_opaque(decls@, nm) {
                                match r {
                                    Ok(()) => same_but_opaque_typedefs(
                                        *old(registry),
                                        *final(registry),
                                    ) && (match final(registry).opaque_typedefs.spec_get(
                                        td.name,
                                    ) {
                                        Some(h) => h.name == td.name,
                                        None => false,
                                    }) && (forall|k: Identifier|
                                        k != td.name ==> #[trigger] final(registry).opaque_typedefs.spec_get(k) == old(registry).opaque_typedefs.spec_get(k)),
                                    Err(_) => false,
                                }
                            } else if resolves_to_definition(decls@, nm) {
                                match r {
                                    Ok(()) => same_but_aliases(
                                        *old(registry),
                                        *final(registry),
                                    ) && (match final(registry).aliases.spec_get(td.name) {
                                        Some(t) => alias_rel(
                                            *final(table),
                                            t,
                                            td.name,
                                            td.underlying,
                                        ),
                                        None => false,
                                    }) && (forall|k: Identifier|
                                        k != td.name ==> #[trigger] final(registry).aliases.spec_get(k) == old(registry).aliases.spec_get(k)),
                                    Err(_) => false,
                                }
                            } else {
                                r is Err && *final(registry) == *old(registry)
                            }
                        },
                        _ => false,
                    }
                } else if (td.underlying.ty matches CBaseType::FunProto(ret, ps)) {
                    match td.underlying.ty {
                        CBaseType::FunProto(ret, ps) => (match r {
                            Ok(()) => same_but_function_typedefs(
                                *old(registry),
                                *final(registry),
                            ) && (match final(registry).function_typedefs.spec_get(td.name) {
                                Some(ftd) => ftd_rel(
                                    *final(table),
                                    ftd,
                                    td.name,
                                    *ret,
                                    ps@,
                                    false,
                                ),
                                None => false,
                            }),
                            Err(_) => *final(registry) == *old(registry),
                        }),
                        _ => false,
                    }
                } else {
                    match r {
                        Ok(()) => reg_ty_ok(td.underlying.ty) && same_but_aliases(
                            *old(registry),
                            *final(registry),
                        ) && (match final(registry).aliases.spec_get(td.name) {
                            Some(t) => alias_rel(*final(table), t, td.name, td.underlying),
                            None => false,
                        }) && (forall|k: Identifier|
                            k != td.name ==> #[trigger] final(registry).aliases.spec_get(k)
                                == old(registry).aliases.spec_get(k)),
                        Err(_) => *final(registry) == *old(registry) && !reg_ty_ok(
                            td.underlying.ty,
                        ),
                    }
                }
            },
            CDecl::Fn(fd) => (match r {
                Ok(()) => same_but_commands(*old(registry), *final(registry)) && (
                match final(registry).commands.spec_get(fd.name) {
                    Some(c) => command_rel(*final(table), c, fd.name, *fd.ret, fd.parameters@),
                    None => false,
                }) && (forall|k: Identifier|
                    k != fd.name ==> #[trigger] final(registry).commands.spec_get(k) == old(registry).commands.spec_get(k)),
                Err(_) => *final(registry) == *old(registry) && (!reg_ty_ok(fd.ret.ty) || exists|
                    j: int,
                |
                    0 <= j < fd.parameters@.len() && !reg_ty_ok(
                        (#[trigger] fd.parameters@[j]).ty.ty,
                    )),
            }),
            CDecl::Struct(rd) => record_classified(
                *old(registry),
                *final(registry),
                *final(table),
                *rd,
                true,
                r,
            ),
            CDecl::Union(rd) => record_classified(
                *old(registry),
                *final(registry),
                *final(table),
                *rd,
                false,
                r,
            ),
            CDecl::Enum(ed) => (match r {
                Ok(()) => same_but_enumerations(*old(registry), *final(registry)) && (
                match final(registry).enumerations.spec_get(ed.name) {
                    Some(e) => e.name == ed.name && e.variants@.len() == ed.members@.len()
                        && forall|j: int|
                        0 <= j < ed.members@.len() ==> variant_rel(
                            #[trigger] e.variants@[j],
                            ed.members@[j],
                        ),
                    None => false,
                }) && (forall|k: Identifier|
                    k != ed.name ==> #[trigger] final(registry).enumerations.spec_get(k)
                        == old(registry).enumerations.spec_get(k)),
                Err(_) => false,
            }),
            CDecl::Var(_) => r is Ok && *final(registry) == *old(registry),
        },
{
    match decl {
        CDecl::Typedef(td) => {
            match &td.underlying.ty {
                CBaseType::Pointer(p) => {
                    match &p.ty {
                        CBaseType::FunProto(ret, ps) => {
                            to_registry_command(registry, table, td.name, ret, ps, true)
                        },
                        CBaseType::Record(_, RecordName::Named(nm)) => {
                            match resolve_decl(decls, *nm) {
                                None => {
                                    proof {
                                        lemma_no_match_means_fails(decls@, *nm);
                                    }
                                    Err(RegistryError::UnresolvedRecord { name: *nm })
                                },
                                Some(i) => {
                                    match decls[i].get_record_decl() {
                                        None => {
                                            proof {
                                                lemma_non_record_means_fails(
                                                    decls@,
                                                    *nm,
                                                    i as int,
                                                );
                                            }
                                            Err(RegistryError::NotARecord { name: *nm })
                                        },
                                        Some(rd) => {
                                            if !rd.is_definition {
                                                proof {
                                                    assert(resolves_to_opaque(decls@, *nm));
                                                }
                                                let h = OpaqueHandleTypedef::new(td.name);
                                                registry.opaque_handle_typedefs.insert(
                                                    td.name,
                                                    h,
                                                );
                                                Ok(())
                                            } else {
                                                proof {
                                                    assert(resolves_to_definition(decls@, *nm));
                                                    lemma_opaque_definition_exclusive(
                                                        decls@,
                                                        *nm,
                                                        i as int,
                                                    );
                                                    assert(reg_ty_ok(p.ty));
                                                    assert(reg_ty_ok(td.underlying.ty));
                                                }
                                                typedef_alias(
                                                    registry,
                                                    table,
                                                    td.name,
                                                    &td.underlying,
                                                )
                                            }
                                        },
                                    }
                                },
                            }
                        },
                        _ => typedef_alias(registry, table, td.name, &td.underlying),
                    }
                },
                CBaseType::Record(_, RecordName::Named(nm)) => {
                    match resolve_decl(decls, *nm) {
                        None => {
                            proof {
                                lemma_no_match_means_fails(decls@, *nm);
                            }
                            Err(RegistryError::UnresolvedRecord { name: *nm })
                        },
                        Some(i) => {
                            match decls[i].get_record_decl() {
                                None => {
                                    proof {
                                        lemma_non_record_means_fails(decls@, *nm, i as int);
                                    }
                                    Err(RegistryError::NotARecord { name: *nm })
                                },
                                Some(rd) => {
                                    if !rd.is_definition {
                                        proof {
                                            assert(resolves_to_opaque(decls@, *nm));
                                        }
                                        let h = OpaqueTypedef::new(td.name);
                                        registry.opaque_typedefs.insert(td.name, h);
                                        Ok(())
                                    } else {
                                        proof {
                                            assert(resolves_to_definition(decls@, *nm));
                                            lemma_opaque_definition_exclusive(
                                                decls@,
                                                *nm,
                                                i as int,
                                            );
                                            assert(reg_ty_ok(td.underlying.ty));
                                        }
                                        typedef_alias(registry, table, td.name, &td.underlying)
                                    }
                                },
                            }
                        },
                    }
                },
                CBaseType::FunProto(ret, ps) => {
                    to_registry_command(registry, table, td.name, ret, ps, false)
                },
                _ => typedef_alias(registry, table, td.name, &td.underlying),
            }
        },
        CDecl::Fn(fd) => {
            let reg_params = to_registry_params(table, &fd.parameters, 0)?;
            let ghost mid = *table;
            let ret = to_registry_type(table, &fd.ret)?;
            proof {
                assert forall|j: int| 0 <= j < fd.parameters@.len() implies reg_param_rel(
                    *table,
                    #[trigger] reg_params@[j],
                    fd.parameters@[j],
                    j,
                ) by {
                    assert(reg_param_rel(mid, reg_params@[j], fd.parameters@[0 + j], 0 + j));
                    lemma_reg_param_rel_mono(
                        mid,
                        *table,
                        reg_params@[j],
                        fd.parameters@[j],
                        j,
                    );
                }
            }
            let command = Command::new(fd.name, reg_params, ret, Vec::new(), Vec::new(), None);
            registry.commands.insert(fd.name, command);
            Ok(())
        },
        CDecl::Struct(rd) => materialize_record(registry, table, rd, true),
        CDecl::Union(rd) => materialize_record(registry, table, rd, false),
        CDecl::Enum(ed) => {
            let variants = to_registry_variants(&ed.members, 0);
            let enume = Enumeration::new(ed.name, variants);
            registry.enumerations.insert(ed.name, enume);
            Ok(())
        },
        CDecl::Var(_) => Ok(()),
    }
}

proof fn lemma_no_match_means_fails(decls: Seq<CDecl>, name: Identifier)
    requires
        forall|j: int|
            0 <= j < decls.len() ==> (#[trigger] decls[j].spec_name()) != RecordName::Named(
                name,
            ),
    ensures
        !resolves_to_opaque(decls, name),
        !resolves_to_definition(decls, name),
{
    if resolves_to_opaque(decls, name) {
        let i = choose|i: int|
            #[trigger] first_named(decls, name, i) && (match decls[i] {
                CDecl::Struct(rd) => !rd.is_definition,
                CDecl::Union(rd) => !rd.is_definition,
                _ => false,
            });
        assert(decls[i].spec_name() == RecordName::Named(name));
    }
    if resolves_to_definition(decls, name) {
        let i = choose|i: int|
            #[trigger] first_named(decls, name, i) && (match decls[i] {
                CDecl::Struct(rd) => rd.is_definition,
                CDecl::Union(rd) => rd.is_definition,
                _ => false,
            });
        assert(decls[i].spec_name() == RecordName::Named(name));
    }
}

proof fn lemma_non_record_means_fails(decls: Seq<CDecl>, name: Identifier, i: int)
    requires
        first_named(decls, name, i),
        !(decls[i] is Struct),
        !(decls[i] is Union),
    ensures
        !resolves_to_opaque(decls, name),
        !resolves_to_definition(decls, name),
{
    if resolves_to_opaque(decls, name) {
        let j = choose|j: int|
            #[trigger] first_named(decls, name, j) && (match decls[j] {
                CDecl::Struct(rd) => !rd.is_definition,
                CDecl::Union(rd) => !rd.is_definition,
                _ => false,
            });
        lemma_first_named_unique(decls, name, i, j);
    }
    if resolves_to_definition(decls, name) {
        let j = choose|j: int|
            #[trigger] first_named(decls, name, j) && (match decls[j] {
                CDecl::Struct(rd) => rd.is_definition,
                CDecl::Union(rd) => rd.is_definition,
                _ => false,
            });
        lemma_first_named_unique(decls, name, i, j);
    }
}

proof fn lemma_opaque_definition_exclusive(decls: Seq<CDecl>, name: Identifier, i: int)
    requires
        first_named(decls, name, i),
        (match decls[i] {
            CDecl::Struct(rd) => rd.is_definition,
            CDecl::Union(rd) => rd.is_definition,
            _ => false,
        }),
    ensures
        !resolves_to_opaque(decls, name),
{
    if resolves_to_opaque(decls, name) {
        let j = choose|j: int|
            #[trigger] first_named(decls, name, j) && (match decls[j] {
                CDecl::Struct(rd) => !rd.is_definition,
                CDecl::Union(rd) => !rd.is_definition,
                _ => false,
            });
        lemma_first_named_unique(decls, name, i, j);
    }
}

/// How a record declaration materializes: a named definition becomes a
/// structure (or union) with its converted members; anything else is a
/// hard error that leaves the registry unchanged.
pub open spec fn record_classified(
    prev: RegistryBase,
    cur: RegistryBase,
    it: Interner,
    rd: CStructDecl,
    is_struct: bool,
    r: Result<(), RegistryError>,
) -> bool {
    if rd.is_definition && rd.name is Named {
        match r {
            Ok(()) => {
                &&& (if is_struct {
                    same_but_structs(prev, cur)
                } else {
                    same_but_unions(prev, cur)
                })
                &&& (match rd.name {
                    RecordName::Named(id) => (match (if is_struct {
                        cur.structs.spec_get(id)
                    } else {
                        cur.unions.spec_get(id)
                    }) {
                        Some(st) => st.name == id && st.members@.len() == rd.fields@.len()
                            && forall|j: int|
                            0 <= j < rd.fields@.len() ==> member_rel(
                                it,
                                #[trigger] st.members@[j],
                                rd.fields@[j],
                            ),
                        None => false,
                    }) && (forall|k: Identifier|
                        k != id ==> (if is_struct {
                            #[trigger] cur.structs.spec_get(k) == prev.structs.spec_get(k)
                        } else {
                            cur.unions.spec_get(k) == prev.unions.spec_get(k)
                        })),
                    RecordName::Anonymous(_) => false,
                })
            },
            Err(_) => cur == prev && exists|j: int|
                0 <= j < rd.fields@.len() && !reg_ty_ok((#[trigger] rd.fields@[j]).ty.ty),
        }
    } else {
        r is Err && cur == prev
    }
}

fn materialize_record(
    registry: &mut RegistryBase,
    table: &mut Interner,
    rd: &CStructDecl,
    is_struct: bool,
) -> (r: Result<(), RegistryError>)
    requires
        old(table).wf(),
        crate::registry::base_wf(*old(registry)),
    ensures
        final(table).wf(),
        final(table).extends(*old(table)),
        crate::ident::renames_frozen(*old(table), *final(table)),
        crate::registry::base_wf(*final(registry)),
        record_classified(
            *old(registry),
            *final(registry),
            *final(table),
            *rd,
            is_struct,
            r,
        ),
{
    if !rd.is_definition {
        return Err(RegistryError::InvalidRecordDecl);
    }
    let ident = match &rd.name {
        RecordName::Named(id) => *id,
        RecordName::Anonymous(_) => {
            return Err(RegistryError::InvalidRecordDecl);
        },
    };
    let members = to_registry_members(table, &rd.fields, 0)?;
    let strukt = Structure::new(ident, members);
    if is_struct {
        registry.structs.insert(ident, strukt);
    } else {
        registry.unions.insert(ident, strukt);
    }
    Ok(())
}

} // verus!

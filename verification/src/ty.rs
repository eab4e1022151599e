//! The IR model of C types: primitives, arrays, pointers, function
//! prototypes, records, enums and typedef references, with `const`
//! qualification.

use vstd::prelude::*;

use crate::ident::{Identifier, Interner};

verus! {

/// The signedness class of a primitive type.
#[derive(Clone, Copy, PartialEq, Eq, Structural, Debug)]
pub enum CSign {
    Signed,
    ExplicitSigned,
    Unsigned,
}

/// A C primitive type kind.
#[derive(Clone, Copy, PartialEq, Eq, Structural, Debug)]
pub enum CPrimitive {
    Void,
    Bool,
    UChar,
    CharS,
    SChar,
    UShort,
    Short,
    UInt,
    Int,
    ULong,
    Long,
    ULongLong,
    LongLong,
    Float,
    Double,
    LongDouble,
}

/// The name of a record (struct or union): either a proper identifier or,
/// before the namer has run, the opaque USR of an anonymous record.
#[derive(Debug)]
pub enum RecordName {
    Named(Identifier),
    Anonymous(String),
}

/// A C type: a base type with its `const` qualification.
#[derive(Debug)]
pub struct CType {
    pub is_const: bool,
    pub ty: CBaseType,
}

/// A parameter slot of a function prototype: an optional name and a type.
#[derive(Debug)]
pub struct CParam {
    pub name: Option<Identifier>,
    pub ty: CType,
}

/// The base of a C type.
#[derive(Debug)]
pub enum CBaseType {
    Primitive(CPrimitive),
    Array(Box<CType>, Option<u64>),
    Pointer(Box<CType>),
    FunProto(Box<CType>, Vec<CParam>),
    /// A struct (`true`) or union (`false`) reference by name.
    Record(bool, RecordName),
    Enum(Identifier),
    Typedef(Identifier),
}

impl CPrimitive {
    /// The signedness of this primitive, if signedness applies to it.
    pub open spec fn spec_sign(self) -> Option<CSign> {
        match self {
            CPrimitive::UChar | CPrimitive::UShort | CPrimitive::UInt | CPrimitive::ULong
            | CPrimitive::ULongLong => Some(CSign::Unsigned),
            CPrimitive::SChar => Some(CSign::ExplicitSigned),
            CPrimitive::Void | CPrimitive::Bool | CPrimitive::Float | CPrimitive::Double
            | CPrimitive::LongDouble => None,
            _ => Some(CSign::Signed),
        }
    }

    /// The signedness of this primitive, if signedness applies to it.
    pub fn sign(&self) -> (r: Option<CSign>)
        ensures
            r == self.spec_sign(),
    {
        match self {
            CPrimitive::UChar | CPrimitive::UShort | CPrimitive::UInt | CPrimitive::ULong
            | CPrimitive::ULongLong => Some(CSign::Unsigned),
            CPrimitive::SChar => Some(CSign::ExplicitSigned),
            CPrimitive::Void | CPrimitive::Bool | CPrimitive::Float | CPrimitive::Double
            | CPrimitive::LongDouble => None,
            _ => Some(CSign::Signed),
        }
    }

    /// The type name of this primitive, without any signedness qualifier.
    pub open spec fn spec_base_name(self) -> Seq<char> {
        match self {
            CPrimitive::Void => "void"@,
            CPrimitive::Bool => "bool"@,
            CPrimitive::UChar | CPrimitive::CharS | CPrimitive::SChar => "char"@,
            CPrimitive::UShort | CPrimitive::Short => "short"@,
            CPrimitive::UInt | CPrimitive::Int => "int"@,
            CPrimitive::ULong | CPrimitive::Long => "long"@,
            CPrimitive::ULongLong | CPrimitive::LongLong => "long long"@,
            CPrimitive::Float => "float"@,
            CPrimitive::Double => "double"@,
            CPrimitive::LongDouble => "long double"@,
        }
    }

    /// The type name of this primitive, without any signedness qualifier.
    pub fn base_name(&self) -> (r: &'static str)
        ensures
            r@ == self.spec_base_name(),
    {
        match self {
            CPrimitive::Void => "void",
            CPrimitive::Bool => "bool",
            CPrimitive::UChar | CPrimitive::CharS | CPrimitive::SChar => "char",
            CPrimitive::UShort | CPrimitive::Short => "short",
            CPrimitive::UInt | CPrimitive::Int => "int",
            CPrimitive::ULong | CPrimitive::Long => "long",
            CPrimitive::ULongLong | CPrimitive::LongLong => "long long",
            CPrimitive::Float => "float",
            CPrimitive::Double => "double",
            CPrimitive::LongDouble => "long double",
        }
    }
}

impl CBaseType {
    /// Whether this base type is a pointer.
    pub fn is_pointer(&self) -> (r: bool)
        ensures
            r == (self is Pointer),
    {
        match self {
            CBaseType::Pointer(_) => true,
            _ => false,
        }
    }

    /// Whether `const` is rendered as an ordinary prefix for this base type
    /// (arrays, pointers and function prototypes place it elsewhere).
    pub open spec fn spec_normal_const(self) -> bool {
        match self {
            CBaseType::Array(_, _) => false,
            CBaseType::Pointer(_) => false,
            CBaseType::FunProto(_, _) => false,
            _ => true,
        }
    }

    /// Whether `const` is rendered as an ordinary prefix for this base type.
    pub fn normal_const(&self) -> (r: bool)
        ensures
            r == self.spec_normal_const(),
    {
        match self {
            CBaseType::Array(_, _) => false,
            CBaseType::Pointer(_) => false,
            CBaseType::FunProto(_, _) => false,
            _ => true,
        }
    }
}

impl CType {
    /// Wraps a base type as a `const`-qualified type.
    pub fn konst(ty: CBaseType) -> (r: CType)
        ensures
            r.is_const,
            r.ty == ty,
    {
        CType { is_const: true, ty }
    }

    /// Wraps a base type as an unqualified type.
    pub fn unkonst(ty: CBaseType) -> (r: CType)
        ensures
            !r.is_const,
            r.ty == ty,
    {
        CType { is_const: false, ty }
    }

    /// Whether `const` is rendered as an ordinary prefix for this type.
    pub fn normal_const(&self) -> (r: bool)
        ensures
            r == self.ty.spec_normal_const(),
    {
        self.ty.normal_const()
    }
}

/// All identifiers mentioned by a base type point into `t`.
pub open spec fn base_ids_ok(t: Interner, b: CBaseType) -> bool
    decreases b,
{
    match b {
        CBaseType::Primitive(_) => true,
        CBaseType::Array(ct, _) => base_ids_ok(t, ct.ty),
        CBaseType::Pointer(ct) => base_ids_ok(t, ct.ty),
        CBaseType::FunProto(ret, ps) => base_ids_ok(t, ret.ty) && forall|i: int|
            0 <= i < ps.len() ==> param_ids_ok(t, #[trigger] ps[i]),
        CBaseType::Record(_, RecordName::Named(id)) => t.holds(id),
        CBaseType::Record(_, RecordName::Anonymous(_)) => true,
        CBaseType::Enum(id) => t.holds(id),
        CBaseType::Typedef(id) => t.holds(id),
    }
}

/// All identifiers mentioned by a parameter point into `t`.
pub open spec fn param_ids_ok(t: Interner, p: CParam) -> bool
    decreases p,
{
    &&& match p.name {
        Some(id) => t.holds(id),
        None => true,
    }
    &&& base_ids_ok(t, p.ty.ty)
}

/// All identifiers mentioned by a type point into `t`.
pub open spec fn ty_ids_ok(t: Interner, ty: CType) -> bool {
    base_ids_ok(t, ty.ty)
}

/// The `const ` prefix: present when the type is qualified and renders its
/// qualifier in the ordinary position.
pub open spec fn spec_const_prefix(is_const: bool, b: CBaseType) -> Seq<char> {
    if is_const && b.spec_normal_const() {
        "const "@
    } else {
        Seq::<char>::empty()
    }
}

/// The rendering of a primitive: its signedness qualifier, then its name.
pub open spec fn spec_primitive_text(p: CPrimitive) -> Seq<char> {
    match p.spec_sign() {
        Some(CSign::ExplicitSigned) => "signed "@ + p.spec_base_name(),
        Some(CSign::Unsigned) => "unsigned "@ + p.spec_base_name(),
        _ => p.spec_base_name(),
    }
}

/// The rendering of one parameter: its type, then its name (with no space
/// after a pointer type).
pub open spec fn spec_one_param_text(t: Interner, p: CParam) -> Seq<char>
    decreases p, 1int,
{
    spec_base_text(t, p.ty.ty, p.ty.is_const) + match p.name {
        Some(id) => if p.ty.ty is Pointer {
            id.spec_value(t)
        } else {
            " "@ + id.spec_value(t)
        },
        None => Seq::<char>::empty(),
    }
}

/// The rendering of the parameter list from position `i` on, separated by
/// commas.
pub open spec fn spec_params_text_from(t: Interner, ps: Seq<CParam>, i: int) -> Seq<char>
    decreases ps, ps.len() - i,
{
    if i < 0 || i >= ps.len() {
        Seq::<char>::empty()
    } else if i == ps.len() - 1 {
        spec_one_param_text(t, ps[i])
    } else {
        spec_one_param_text(t, ps[i]) + ", "@ + spec_params_text_from(t, ps, i + 1)
    }
}

/// The rendering of a function type: return type, optional (possibly
/// pointer-wrapped) name, and parenthesized parameter list.
pub open spec fn spec_fun_text(
    t: Interner,
    ret: CType,
    ps: Seq<CParam>,
    name: Option<Seq<char>>,
    is_ptr: bool,
    is_const: bool,
) -> Seq<char> {
    spec_base_text(t, ret.ty, ret.is_const) + " "@ + (match name {
        Some(nm) => if is_ptr {
            "(*"@ + (if is_const {
                "const "@
            } else {
                Seq::<char>::empty()
            }) + nm + ")"@
        } else {
            nm
        },
        None => Seq::<char>::empty(),
    }) + "("@ + spec_params_text_from(t, ps, 0) + ")"@
}

/// The rendering of a base type under a `const` qualification.
pub open spec fn spec_base_text(t: Interner, b: CBaseType, is_const: bool) -> Seq<char>
    decreases b, 0int,
{
    spec_const_prefix(is_const, b) + match b {
        CBaseType::Primitive(p) => spec_primitive_text(p),
        CBaseType::Array(ct, size) => spec_base_text(t, ct.ty, ct.is_const) + "["@ + (match size {
            Some(s) => crate::text::spec_decimal(s as int),
            None => if is_const {
                "const"@
            } else {
                Seq::<char>::empty()
            },
        }) + "]"@,
        CBaseType::Pointer(inner) => match inner.ty {
            CBaseType::FunProto(ret, ps) => spec_base_text(t, ret.ty, ret.is_const) + " "@ + "(*"@
                + (if is_const {
                "const "@
            } else {
                Seq::<char>::empty()
            }) + ")"@ + "("@ + spec_params_text_from(t, ps@, 0) + ")"@,
            _ => spec_base_text(t, inner.ty, inner.is_const) + (if inner.ty is Pointer {
                "*"@
            } else {
                " *"@
            }) + (if is_const {
                "const"@
            } else {
                Seq::<char>::empty()
            }),
        },
        CBaseType::FunProto(ret, ps) => spec_base_text(t, ret.ty, ret.is_const) + " "@ + "("@
            + spec_params_text_from(t, ps@, 0) + ")"@,
        CBaseType::Typedef(id) => id.spec_value(t),
        CBaseType::Record(is_struct, RecordName::Named(id)) => (if is_struct {
            "struct "@
        } else {
            "union "@
        }) + id.spec_value(t),
        CBaseType::Record(is_struct, RecordName::Anonymous(usr)) => (if is_struct {
            "struct <USR: "@
        } else {
            "union <USR: "@
        }) + usr@ + ">"@,
        CBaseType::Enum(id) => "enum "@ + id.spec_value(t),
    }
}

/// The rendering of a type: its base under its own qualification.
pub open spec fn spec_type_text(t: Interner, ty: CType) -> Seq<char> {
    spec_base_text(t, ty.ty, ty.is_const)
}

/// The parameter view of a sequence of parameter-like values.
pub open spec fn params_of<P: CParamLike>(ps: Seq<P>) -> Seq<CParam> {
    ps.map_values(|p: P| CParam { name: p.spec_name(), ty: p.spec_ty() })
}

impl CPrimitive {
    /// Renders this primitive.
    pub fn fmt(&self) -> (r: String)
        ensures
            r@ == spec_primitive_text(*self),
    {
        let mut s = String::new();
        match self.sign() {
            Some(CSign::ExplicitSigned) => s.append("signed "),
            Some(CSign::Unsigned) => s.append("unsigned "),
            _ => {},
        }
        s.append(self.base_name());
        proof {
            assert(s@ =~= spec_primitive_text(*self));
        }
        s
    }
}

impl CBaseType {
    /// Renders this base type under the given `const` qualification.
    pub fn fmt(&self, table: &Interner, is_const: bool) -> (r: String)
        requires
            base_ids_ok(*table, *self),
        ensures
            r@ == spec_base_text(*table, *self, is_const),
        decreases *self, 0int,
    {
        let mut s = String::new();
        if is_const && self.normal_const() {
            s.append("const ");
        }
        match self {
            CBaseType::Primitive(p) => {
                s.append(p.fmt().as_str());
            },
            CBaseType::Array(ct, size) => {
                s.append(ct.ty.fmt(table, ct.is_const).as_str());
                s.append("[");
                match size {
                    Some(sz) => {
                        s.append(crate::text::decimal_string(*sz).as_str());
                    },
                    None => {
                        if is_const {
                            s.append("const");
                        }
                    },
                }
                s.append("]");
            },
            CBaseType::Pointer(inner) => {
                match &inner.ty {
                    CBaseType::FunProto(ret, ps) => {
                        proof {
                            assert(base_ids_ok(*table, inner.ty));
                        }
                        s.append(ret.ty.fmt(table, ret.is_const).as_str());
                        s.append(" ");
                        s.append("(*");
                        if is_const {
                            s.append("const ");
                        }
                        s.append(")");
                        s.append("(");
                        s.append(params_text_from(table, ps, 0).as_str());
                        s.append(")");
                    },
                    _ => {
                        s.append(inner.ty.fmt(table, inner.is_const).as_str());
                        if inner.ty.is_pointer() {
                            s.append("*");
                        } else {
                            s.append(" *");
                        }
                        if is_const {
                            s.append("const");
                        }
                    },
                }
            },
            CBaseType::FunProto(ret, ps) => {
                s.append(ret.ty.fmt(table, ret.is_const).as_str());
                s.append(" ");
                s.append("(");
                s.append(params_text_from(table, ps, 0).as_str());
                s.append(")");
            },
            CBaseType::Typedef(id) => {
                s.append(id.value(table));
            },
            CBaseType::Record(is_struct, name) => {
                match name {
                    RecordName::Named(id) => {
                        if *is_struct {
                            s.append("struct ");
                        } else {
                            s.append("union ");
                        }
                        s.append(id.value(table));
                    },
                    RecordName::Anonymous(usr) => {
                        if *is_struct {
                            s.append("struct <USR: ");
                        } else {
                            s.append("union <USR: ");
                        }
                        s.append(usr.as_str());
                        s.append(">");
                    },
                }
            },
            CBaseType::Enum(id) => {
                s.append("enum ");
                s.append(id.value(table));
            },
        }
        proof {
            assert(s@ =~= spec_base_text(*table, *self, is_const));
        }
        s
    }
}

impl CParam {
    /// Renders this parameter: its type, then its name.
    pub fn fmt(&self, table: &Interner) -> (r: String)
        requires
            param_ids_ok(*table, *self),
        ensures
            r@ == spec_one_param_text(*table, *self),
        decreases *self, 1int,
    {
        let mut s = self.ty.ty.fmt(table, self.ty.is_const);
        match self.name {
            Some(id) => {
                if self.ty.ty.is_pointer() {
                    s.append(id.value(table));
                } else {
                    s.append(" ");
                    s.append(id.value(table));
                }
            },
            None => {},
        }
        proof {
            assert(s@ =~= spec_one_param_text(*table, *self));
        }
        s
    }
}

fn params_text_from(table: &Interner, ps: &Vec<CParam>, i: usize) -> (r: String)
    requires
        forall|j: int| 0 <= j < ps@.len() ==> param_ids_ok(*table, #[trigger] ps@[j]),
    ensures
        r@ == spec_params_text_from(*table, ps@, i as int),
    decreases ps@, ps@.len() - i,
{
    if i >= ps.len() {
        String::new()
    } else {
        let p = &ps[i];
        let mut s = p.fmt(table);
        if i + 1 < ps.len() {
            s.append(", ");
            s.append(params_text_from(table, ps, i + 1).as_str());
        }
        proof {
            assert(s@ =~= spec_params_text_from(*table, ps@, i as int));
        }
        s
    }
}

impl CType {
    /// Renders this type.
    pub fn fmt(&self, table: &Interner) -> (r: String)
        requires
            ty_ids_ok(*table, *self),
        ensures
            r@ == spec_type_text(*table, *self),
    {
        self.ty.fmt(table, self.is_const)
    }

    /// Renders a function type: the return type, an optional name (wrapped
    /// as `(*name)` for pointers, with `const` inside when qualified), and
    /// the parenthesized parameter list.
    pub fn fmt_fun<P: CParamLike>(
        table: &Interner,
        ret: &CType,
        params: &Vec<P>,
        name: Option<&str>,
        is_ptr: bool,
        is_const: bool,
    ) -> (r: String)
        requires
            base_ids_ok(*table, ret.ty),
            forall|j: int|
                0 <= j < params@.len() ==> param_ids_ok(
                    *table,
                    #[trigger] params_of(params@)[j],
                ),
        ensures
            r@ == spec_fun_text(
                *table,
                *ret,
                params_of(params@),
                match name {
                    Some(n) => Some(n@),
                    None => None,
                },
                is_ptr,
                is_const,
            ),
    {
        let mut s = ret.ty.fmt(table, ret.is_const);
        s.append(" ");
        match name {
            Some(nm) => {
                if is_ptr {
                    s.append("(*");
                    if is_const {
                        s.append("const ");
                    }
                    s.append(nm);
                    s.append(")");
                } else {
                    s.append(nm);
                }
            },
            None => {},
        }
        s.append("(");
        s.append(params_text_from_like(table, params, 0).as_str());
        s.append(")");
        proof {
            assert(s@ =~= spec_fun_text(
                *table,
                *ret,
                params_of(params@),
                match name {
                    Some(n) => Some(n@),
                    None => None,
                },
                is_ptr,
                is_const,
            ));
        }
        s
    }
}

fn params_text_from_like<P: CParamLike>(table: &Interner, ps: &Vec<P>, i: usize) -> (r: String)
    requires
        forall|j: int|
            0 <= j < ps@.len() ==> param_ids_ok(*table, #[trigger] params_of(ps@)[j]),
    ensures
        r@ == spec_params_text_from(*table, params_of(ps@), i as int),
    decreases ps@.len() - i,
{
    if i >= ps.len() {
        String::new()
    } else {
        let p = &ps[i];
        assert(params_of(ps@)[i as int] == CParam { name: p.spec_name(), ty: p.spec_ty() });
        let pty = p.ty();
        let mut s = pty.ty.fmt(table, pty.is_const);
        match p.name() {
            Some(id) => {
                if pty.ty.is_pointer() {
                    s.append(id.value(table));
                } else {
                    s.append(" ");
                    s.append(id.value(table));
                }
            },
            None => {},
        }
        proof {
            assert(s@ =~= spec_one_param_text(*table, params_of(ps@)[i as int]));
        }
        if i + 1 < ps.len() {
            s.append(", ");
            s.append(params_text_from_like(table, ps, i + 1).as_str());
        }
        proof {
            assert(s@ =~= spec_params_text_from(*table, params_of(ps@), i as int));
        }
        s
    }
}

/// Something that can stand in a parameter position: it has an optional
/// name and a type.
pub trait CParamLike {
    /// The parameter name, if any.
    spec fn spec_name(&self) -> Option<Identifier>;

    /// The parameter type.
    spec fn spec_ty(&self) -> CType;

    /// The parameter name, if any.
    fn name(&self) -> (r: Option<Identifier>)
        ensures
            r == self.spec_name(),
    ;

    /// The parameter type.
    fn ty(&self) -> (r: &CType)
        ensures
            *r == self.spec_ty(),
    ;
}

impl CParamLike for CType {
    open spec fn spec_name(&self) -> Option<Identifier> {
        None
    }

    open spec fn spec_ty(&self) -> CType {
        *self
    }

    fn name(&self) -> (r: Option<Identifier>) {
        None
    }

    fn ty(&self) -> (r: &CType) {
        self
    }
}

impl CParamLike for CParam {
    open spec fn spec_name(&self) -> Option<Identifier> {
        self.name
    }

    open spec fn spec_ty(&self) -> CType {
        self.ty
    }

    fn name(&self) -> (r: Option<Identifier>) {
        self.name
    }

    fn ty(&self) -> (r: &CType) {
        &self.ty
    }
}


/// Rendering only reads table slots the type already mentions, so it is
/// unchanged by later interning.
pub proof fn lemma_base_text_mono(it1: Interner, it2: Interner, b: CBaseType, is_const: bool)
    requires
        it2.extends(it1),
        base_ids_ok(it1, b),
        forall|i: int| 0 <= i < it1.spec_len() ==> it2.rename_at(i) == it1.rename_at(i),
    ensures
        spec_base_text(it2, b, is_const) == spec_base_text(it1, b, is_const),
    decreases b, 0int,
{
    match b {
        CBaseType::Primitive(_) => {},
        CBaseType::Array(ct, _) => {
            lemma_base_text_mono(it1, it2, ct.ty, ct.is_const);
        },
        CBaseType::Pointer(inner) => {
            match inner.ty {
                CBaseType::FunProto(ret, ps) => {
                    assert(base_ids_ok(it1, inner.ty));
                    lemma_base_text_mono(it1, it2, ret.ty, ret.is_const);
                    lemma_params_text_mono(it1, it2, ps@, 0);
                },
                _ => {
                    lemma_base_text_mono(it1, it2, inner.ty, inner.is_const);
                },
            }
        },
        CBaseType::FunProto(ret, ps) => {
            lemma_base_text_mono(it1, it2, ret.ty, ret.is_const);
            lemma_params_text_mono(it1, it2, ps@, 0);
        },
        CBaseType::Typedef(id) => {},
        CBaseType::Record(_, _) => {},
        CBaseType::Enum(_) => {},
    }
}

proof fn lemma_params_text_mono(it1: Interner, it2: Interner, ps: Seq<CParam>, i: int)
    requires
        it2.extends(it1),
        forall|j: int| 0 <= j < ps.len() ==> param_ids_ok(it1, #[trigger] ps[j]),
        forall|k: int| 0 <= k < it1.spec_len() ==> it2.rename_at(k) == it1.rename_at(k),
    ensures
        spec_params_text_from(it2, ps, i) == spec_params_text_from(it1, ps, i),
    decreases ps, ps.len() - i,
{
    if 0 <= i < ps.len() {
        assert(param_ids_ok(it1, ps[i]));
        lemma_base_text_mono(it1, it2, ps[i].ty.ty, ps[i].ty.is_const);
        match ps[i].name {
            Some(id) => {
                assert(it2.text_at(id.idx as int) == it1.text_at(id.idx as int));
                assert(it2.rename_at(id.idx as int) == it1.rename_at(id.idx as int));
            },
            None => {},
        }
        assert(spec_one_param_text(it2, ps[i]) == spec_one_param_text(it1, ps[i]));
        if i < ps.len() - 1 {
            lemma_params_text_mono(it1, it2, ps, i + 1);
        }
    }
}


/// No anonymous record reference occurs in the base type.
pub open spec fn base_no_anon(b: CBaseType) -> bool
    decreases b, 0int,
{
    match b {
        CBaseType::Record(_, RecordName::Anonymous(_)) => false,
        CBaseType::Record(_, RecordName::Named(_)) => true,
        CBaseType::Array(e, _) => base_no_anon(e.ty),
        CBaseType::Pointer(e) => base_no_anon(e.ty),
        CBaseType::FunProto(ret, ps) => base_no_anon(ret.ty) && forall|i: int|
            0 <= i < ps.len() ==> base_no_anon((#[trigger] ps[i]).ty.ty),
        _ => true,
    }
}

/// The rendering of a primitive never carries the reserved separator.
pub proof fn lemma_primitive_text_sep_free(p: CPrimitive)
    ensures
        !crate::ident::has_sep(spec_primitive_text(p)),
{
    reveal_strlit("void");
    reveal_strlit("bool");
    reveal_strlit("char");
    reveal_strlit("short");
    reveal_strlit("int");
    reveal_strlit("long");
    reveal_strlit("long long");
    reveal_strlit("float");
    reveal_strlit("double");
    reveal_strlit("long double");
    reveal_strlit("signed ");
    reveal_strlit("unsigned ");
    let s = spec_primitive_text(p);
    assert forall|i: int| 0 <= i < s.len() implies s[i] != ':' by {}
}

proof fn lemma_sep_concat(a: Seq<char>, b: Seq<char>)
    ensures
        crate::ident::has_sep(a + b) == (crate::ident::has_sep(a) || crate::ident::has_sep(b)),
{
    if crate::ident::has_sep(a) {
        let i = choose|i: int| 0 <= i < a.len() && a[i] == ':';
        assert((a + b)[i] == ':');
    }
    if crate::ident::has_sep(b) {
        let i = choose|i: int| 0 <= i < b.len() && b[i] == ':';
        assert((a + b)[a.len() + i] == ':');
    }
    if crate::ident::has_sep(a + b) {
        let i = choose|i: int| 0 <= i < (a + b).len() && (a + b)[i] == ':';
        if i < a.len() {
            assert(a[i] == ':');
        } else {
            assert(b[i - a.len()] == ':');
        }
    }
}

proof fn lemma_decimal_sep_free_ty(n: int)
    ensures
        !crate::ident::has_sep(crate::text::spec_decimal(n)),
    decreases n,
{
    if n >= 10 {
        lemma_decimal_sep_free_ty(n / 10);
    }
    let s = crate::text::spec_decimal(n);
    assert forall|i: int| 0 <= i < s.len() implies s[i] != ':' by {
        if n >= 10 {
            if i < crate::text::spec_decimal(n / 10).len() {
                assert(s[i] == crate::text::spec_decimal(n / 10)[i]);
            }
        }
    }
}

proof fn lemma_value_sep_free(it: Interner, id: Identifier)
    requires
        it.wf(),
        it.holds(id),
    ensures
        !crate::ident::has_sep(id.spec_value(it)),
{
    assert(!crate::ident::has_sep(it.text_at(id.idx as int)));
    match it.rename_at(id.idx as int) {
        Some(r) => {
            assert(!crate::ident::has_sep(r));
        },
        None => {},
    }
}

/// The rendering of a type with no anonymous record reference never
/// carries the reserved separator: every piece is a keyword, a bracket, a
/// number, or an interned display text, all separator-free.
pub proof fn lemma_base_text_sep_free(it: Interner, b: CBaseType, is_const: bool)
    requires
        it.wf(),
        base_ids_ok(it, b),
        base_no_anon(b),
    ensures
        !crate::ident::has_sep(spec_base_text(it, b, is_const)),
    decreases b, 0int,
{
    reveal_strlit("const ");
    reveal_strlit("const");
    reveal_strlit("[");
    reveal_strlit("]");
    reveal_strlit("*");
    reveal_strlit(" *");
    reveal_strlit("struct ");
    reveal_strlit("union ");
    reveal_strlit("enum ");
    reveal_strlit(" ");
    reveal_strlit("(*");
    reveal_strlit(")");
    reveal_strlit("(");
    let prefix = spec_const_prefix(is_const, b);
    assert(!crate::ident::has_sep(prefix)) by {
        assert forall|i: int| 0 <= i < prefix.len() implies prefix[i] != ':' by {}
    }
    match b {
        CBaseType::Primitive(p) => {
            lemma_primitive_text_sep_free(p);
            lemma_sep_concat(prefix, spec_primitive_text(p));
        },
        CBaseType::Array(ct, size) => {
            lemma_base_text_sep_free(it, ct.ty, ct.is_const);
            let core = spec_base_text(it, ct.ty, ct.is_const);
            let mid = match size {
                Some(sz) => crate::text::spec_decimal(sz as int),
                None => if is_const {
                    "const"@
                } else {
                    Seq::<char>::empty()
                },
            };
            assert(!crate::ident::has_sep(mid)) by {
                match size {
                    Some(sz) => {
                        lemma_decimal_sep_free_ty(sz as int);
                    },
                    None => {
                        assert forall|i: int| 0 <= i < mid.len() implies mid[i] != ':' by {}
                    },
                }
            }
            lemma_sep_concat(core, "["@);
            lemma_sep_concat(core + "["@, mid);
            lemma_sep_concat(core + "["@ + mid, "]"@);
            lemma_sep_concat(prefix, core + "["@ + mid + "]"@);
        },
        CBaseType::Pointer(inner) => {
            match inner.ty {
                CBaseType::FunProto(ret, ps) => {
                    assert(base_ids_ok(it, inner.ty));
                    assert(base_no_anon(inner.ty));
                    lemma_base_text_sep_free(it, ret.ty, ret.is_const);
                    lemma_params_text_sep_free(it, ps@, 0);
                    let r0 = spec_base_text(it, ret.ty, ret.is_const);
                    let cbit: Seq<char> = if is_const {
                        "const "@
                    } else {
                        Seq::<char>::empty()
                    };
                    assert(!crate::ident::has_sep(cbit)) by {
                        assert forall|i: int| 0 <= i < cbit.len() implies cbit[i] != ':' by {}
                    }
                    let pstext = spec_params_text_from(it, ps@, 0);
                    lemma_sep_concat(r0, " "@);
                    lemma_sep_concat(r0 + " "@, "(*"@);
                    lemma_sep_concat(r0 + " "@ + "(*"@, cbit);
                    lemma_sep_concat(r0 + " "@ + "(*"@ + cbit, ")"@);
                    lemma_sep_concat(r0 + " "@ + "(*"@ + cbit + ")"@, "("@);
                    lemma_sep_concat(r0 + " "@ + "(*"@ + cbit + ")"@ + "("@, pstext);
                    lemma_sep_concat(
                        r0 + " "@ + "(*"@ + cbit + ")"@ + "("@ + pstext,
                        ")"@,
                    );
                    lemma_sep_concat(
                        prefix,
                        r0 + " "@ + "(*"@ + cbit + ")"@ + "("@ + pstext + ")"@,
                    );
                },
                _ => {
                    lemma_base_text_sep_free(it, inner.ty, inner.is_const);
                    let core = spec_base_text(it, inner.ty, inner.is_const);
                    let star: Seq<char> = if inner.ty is Pointer {
                        "*"@
                    } else {
                        " *"@
                    };
                    let cbit: Seq<char> = if is_const {
                        "const"@
                    } else {
                        Seq::<char>::empty()
                    };
                    assert(!crate::ident::has_sep(star)) by {
                        assert forall|i: int| 0 <= i < star.len() implies star[i] != ':' by {}
                    }
                    assert(!crate::ident::has_sep(cbit)) by {
                        assert forall|i: int| 0 <= i < cbit.len() implies cbit[i] != ':' by {}
                    }
                    lemma_sep_concat(core, star);
                    lemma_sep_concat(core + star, cbit);
                    lemma_sep_concat(prefix, core + star + cbit);
                },
            }
        },
        CBaseType::FunProto(ret, ps) => {
            lemma_base_text_sep_free(it, ret.ty, ret.is_const);
            lemma_params_text_sep_free(it, ps@, 0);
            let r0 = spec_base_text(it, ret.ty, ret.is_const);
            let pstext = spec_params_text_from(it, ps@, 0);
            lemma_sep_concat(r0, " "@);
            lemma_sep_concat(r0 + " "@, "("@);
            lemma_sep_concat(r0 + " "@ + "("@, pstext);
            lemma_sep_concat(r0 + " "@ + "("@ + pstext, ")"@);
            lemma_sep_concat(prefix, r0 + " "@ + "("@ + pstext + ")"@);
        },
        CBaseType::Typedef(id) => {
            lemma_value_sep_free(it, id);
            lemma_sep_concat(prefix, id.spec_value(it));
        },
        CBaseType::Record(is_struct, RecordName::Named(id)) => {
            lemma_value_sep_free(it, id);
            let kw: Seq<char> = if is_struct {
                "struct "@
            } else {
                "union "@
            };
            assert(!crate::ident::has_sep(kw)) by {
                assert forall|i: int| 0 <= i < kw.len() implies kw[i] != ':' by {}
            }
            lemma_sep_concat(kw, id.spec_value(it));
            lemma_sep_concat(prefix, kw + id.spec_value(it));
        },
        CBaseType::Record(_, RecordName::Anonymous(_)) => {},
        CBaseType::Enum(id) => {
            lemma_value_sep_free(it, id);
            lemma_sep_concat("enum "@, id.spec_value(it));
            lemma_sep_concat(prefix, "enum "@ + id.spec_value(it));
        },
    }
}

proof fn lemma_params_text_sep_free(it: Interner, ps: Seq<CParam>, i: int)
    requires
        it.wf(),
        forall|j: int| 0 <= j < ps.len() ==> param_ids_ok(it, #[trigger] ps[j]),
        forall|j: int| 0 <= j < ps.len() ==> base_no_anon((#[trigger] ps[j]).ty.ty),
    ensures
        !crate::ident::has_sep(spec_params_text_from(it, ps, i)),
    decreases ps, 1int, ps.len() - i,
{
    reveal_strlit(", ");
    reveal_strlit(" ");
    if 0 <= i < ps.len() {
        assert(param_ids_ok(it, ps[i]));
        lemma_base_text_sep_free(it, ps[i].ty.ty, ps[i].ty.is_const);
        let core = spec_base_text(it, ps[i].ty.ty, ps[i].ty.is_const);
        let nm: Seq<char> = match ps[i].name {
            Some(id) => if ps[i].ty.ty is Pointer {
                id.spec_value(it)
            } else {
                " "@ + id.spec_value(it)
            },
            None => Seq::<char>::empty(),
        };
        assert(!crate::ident::has_sep(nm)) by {
            match ps[i].name {
                Some(id) => {
                    lemma_value_sep_free(it, id);
                    if !(ps[i].ty.ty is Pointer) {
                        lemma_sep_concat(" "@, id.spec_value(it));
                    }
                },
                None => {},
            }
        }
        lemma_sep_concat(core, nm);
        assert(spec_one_param_text(it, ps[i]) == core + nm);
        if i < ps.len() - 1 {
            lemma_params_text_sep_free(it, ps, i + 1);
            lemma_sep_concat(core + nm, ", "@);
            lemma_sep_concat(core + nm + ", "@, spec_params_text_from(it, ps, i + 1));
        }
    }
}

} // verus!

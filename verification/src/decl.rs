//! The IR model of C declarations: typedefs, functions, records (structs
//! and unions), enums and variables.

use vstd::prelude::*;

use crate::ident::{Identifier, Interner};
use crate::ty::{
    base_ids_ok, param_ids_ok, spec_fun_text, spec_params_text_from, spec_type_text, CParam,
    CType, RecordName,
};

verus! {

/// A C declaration.
#[derive(Debug)]
pub enum CDecl {
    Typedef(Box<CTypedefDecl>),
    Fn(Box<CFnDecl>),
    Struct(Box<CStructDecl>),
    Union(Box<CStructDecl>),
    Enum(Box<CEnumDecl>),
    Var(Box<CVarDecl>),
}

/// A typedef declaration.
#[derive(Debug)]
pub struct CTypedefDecl {
    pub name: Identifier,
    pub underlying: CType,
}

/// A function declaration.
#[derive(Debug)]
pub struct CFnDecl {
    pub name: Identifier,
    pub ret: Box<CType>,
    pub parameters: Vec<CParam>,
}

/// A struct or union declaration. `is_definition == false` implies `fields`
/// and `subrecords` are empty. `subrecords` lists only anonymous records
/// nested directly inside this record that are not reachable through any of
/// this record's own field types.
#[derive(Debug)]
pub struct CStructDecl {
    pub name: RecordName,
    pub fields: Vec<CFieldDecl>,
    pub is_definition: bool,
    pub subrecords: Vec<RecordName>,
}

/// A field of a record.
#[derive(Debug)]
pub struct CFieldDecl {
    pub name: Identifier,
    pub ty: CType,
}

/// An enum declaration.
#[derive(Debug)]
pub struct CEnumDecl {
    pub name: Identifier,
    pub ty: CType,
    pub members: Vec<CEnumConstantDecl>,
}

/// One enum constant; `explicit` says whether its value was written in the
/// source.
#[derive(Debug)]
pub struct CEnumConstantDecl {
    pub name: Identifier,
    pub explicit: bool,
    pub value: u64,
}

/// A variable declaration.
#[derive(Debug)]
pub struct CVarDecl {
    pub name: Identifier,
    pub ty: CType,
}

impl RecordName {
    /// Duplicates this name. (The recursive IR types carry no `Clone`; this
    /// is the one duplication the model needs.)
    pub fn dup(&self) -> (r: RecordName)
        ensures
            r == *self,
    {
        match self {
            RecordName::Named(id) => RecordName::Named(*id),
            RecordName::Anonymous(usr) => RecordName::Anonymous(usr.clone()),
        }
    }
}

impl CDecl {
    /// The name of this declaration; a record may still be anonymous.
    pub open spec fn spec_name(self) -> RecordName {
        match self {
            CDecl::Typedef(d) => RecordName::Named(d.name),
            CDecl::Fn(d) => RecordName::Named(d.name),
            CDecl::Struct(d) => d.name,
            CDecl::Union(d) => d.name,
            CDecl::Enum(d) => RecordName::Named(d.name),
            CDecl::Var(d) => RecordName::Named(d.name),
        }
    }

    /// The name of this declaration; a record may still be anonymous.
    pub fn name(&self) -> (r: RecordName)
        ensures
            r == self.spec_name(),
    {
        match self {
            CDecl::Typedef(d) => RecordName::Named(d.name),
            CDecl::Fn(d) => RecordName::Named(d.name),
            CDecl::Struct(d) => d.name.dup(),
            CDecl::Union(d) => d.name.dup(),
            CDecl::Enum(d) => RecordName::Named(d.name),
            CDecl::Var(d) => RecordName::Named(d.name),
        }
    }

    /// The record declaration behind this declaration, if it is one.
    pub fn get_record_decl(&self) -> (r: Option<&CStructDecl>)
        ensures
            match r {
                Some(d) => (self matches CDecl::Struct(b) && *d == *b) || (
                self matches CDecl::Union(b) && *d == *b),
                None => !(self is Struct) && !(self is Union),
            },
    {
        match self {
            CDecl::Struct(decl) => Some(decl),
            CDecl::Union(decl) => Some(decl),
            _ => None,
        }
    }

    /// Moves the record declaration out of this declaration, if it is one.
    pub fn move_record_decl(self) -> (r: Option<CStructDecl>)
        ensures
            match r {
                Some(d) => (self matches CDecl::Struct(b) && d == *b) || (
                self matches CDecl::Union(b) && d == *b),
                None => !(self is Struct) && !(self is Union),
            },
    {
        match self {
            CDecl::Struct(record) => Some(*record),
            CDecl::Union(record) => Some(*record),
            CDecl::Typedef(_) | CDecl::Fn(_) | CDecl::Enum(_) | CDecl::Var(_) => None,
        }
    }
}

/// All identifiers mentioned by a record declaration point into `t`.
pub open spec fn record_ids_ok(t: Interner, d: CStructDecl) -> bool {
    &&& match d.name {
        RecordName::Named(id) => t.holds(id),
        RecordName::Anonymous(_) => true,
    }
    &&& forall|i: int|
        0 <= i < d.fields.len() ==> t.holds(#[trigger] d.fields[i].name) && base_ids_ok(
            t,
            d.fields[i].ty.ty,
        )
    &&& forall|i: int|
        0 <= i < d.subrecords.len() ==> match #[trigger] d.subrecords[i] {
            RecordName::Named(id) => t.holds(id),
            RecordName::Anonymous(_) => true,
        }
}

/// All identifiers mentioned by a declaration point into `t`.
pub open spec fn decl_ids_ok(t: Interner, d: CDecl) -> bool {
    match d {
        CDecl::Typedef(td) => t.holds(td.name) && base_ids_ok(t, td.underlying.ty),
        CDecl::Fn(fd) => t.holds(fd.name) && base_ids_ok(t, fd.ret.ty) && forall|i: int|
            0 <= i < fd.parameters.len() ==> param_ids_ok(t, #[trigger] fd.parameters[i]),
        CDecl::Struct(rd) => record_ids_ok(t, *rd),
        CDecl::Union(rd) => record_ids_ok(t, *rd),
        CDecl::Enum(ed) => t.holds(ed.name) && forall|i: int|
            0 <= i < ed.members.len() ==> t.holds(#[trigger] ed.members[i].name),
        CDecl::Var(vd) => t.holds(vd.name) && base_ids_ok(t, vd.ty.ty),
    }
}

/// The rendering of a record's name: the identifier, or a USR comment.
pub open spec fn spec_record_head_text(t: Interner, n: RecordName) -> Seq<char> {
    match n {
        RecordName::Named(id) => id.spec_value(t),
        RecordName::Anonymous(usr) => "/* USR: "@ + usr@ + " */"@,
    }
}

/// The rendering of the fields of a record from position `i` on.
pub open spec fn spec_fields_text_from(t: Interner, fields: Seq<CFieldDecl>, i: int) -> Seq<char>
    decreases fields.len() - i,
{
    if i < 0 || i >= fields.len() {
        Seq::<char>::empty()
    } else {
        " "@ + spec_type_text(t, fields[i].ty) + " "@ + fields[i].name.spec_value(t) + ";"@
            + spec_fields_text_from(t, fields, i + 1)
    }
}

/// The rendering of the subrecord entries of a record from position `i` on.
pub open spec fn spec_subrecords_text_from(t: Interner, subs: Seq<RecordName>, i: int) -> Seq<
    char,
>
    decreases subs.len() - i,
{
    if i < 0 || i >= subs.len() {
        Seq::<char>::empty()
    } else {
        " <subdecl "@ + (match subs[i] {
            RecordName::Named(id) => id.spec_value(t),
            RecordName::Anonymous(usr) => "USR: "@ + usr@,
        }) + ">;"@ + spec_subrecords_text_from(t, subs, i + 1)
    }
}

/// The rendering of a struct or union declaration under a keyword.
pub open spec fn spec_struct_like_text(t: Interner, keyword: Seq<char>, d: CStructDecl) -> Seq<
    char,
> {
    keyword + " "@ + spec_record_head_text(t, d.name) + (if d.is_definition {
        " {"@ + spec_fields_text_from(t, d.fields@, 0) + spec_subrecords_text_from(
            t,
            d.subrecords@,
            0,
        ) + " }"@
    } else {
        Seq::<char>::empty()
    }) + ";"@
}

/// The rendering of the members of an enum from position `i` on.
pub open spec fn spec_enum_members_text_from(
    t: Interner,
    members: Seq<CEnumConstantDecl>,
    i: int,
) -> Seq<char>
    decreases members.len() - i,
{
    if i < 0 || i >= members.len() {
        Seq::<char>::empty()
    } else {
        (if i > 0 {
            ", "@
        } else {
            Seq::<char>::empty()
        }) + members[i].name.spec_value(t) + (if members[i].explicit {
            " = "@ + crate::text::spec_decimal(members[i].value as int)
        } else {
            Seq::<char>::empty()
        }) + spec_enum_members_text_from(t, members, i + 1)
    }
}

/// The rendering of a declaration.
pub open spec fn spec_decl_text(t: Interner, d: CDecl) -> Seq<char> {
    match d {
        CDecl::Typedef(td) => "typedef "@ + spec_type_text(t, td.underlying) + " "@
            + td.name.spec_value(t) + ";"@,
        CDecl::Fn(fd) => spec_fun_text(
            t,
            *fd.ret,
            fd.parameters@,
            Some(fd.name.spec_value(t)),
            false,
            false,
        ) + ";"@,
        CDecl::Struct(rd) => spec_struct_like_text(t, "struct"@, *rd),
        CDecl::Union(rd) => spec_struct_like_text(t, "union"@, *rd),
        CDecl::Enum(ed) => "enum "@ + ed.name.spec_value(t) + " { "@
            + spec_enum_members_text_from(t, ed.members@, 0) + " };"@,
        CDecl::Var(vd) => spec_type_text(t, vd.ty) + " "@ + vd.name.spec_value(t) + ";"@,
    }
}

fn fields_text_from(table: &Interner, fields: &Vec<CFieldDecl>, i: usize) -> (r: String)
    requires
        forall|j: int|
            0 <= j < fields@.len() ==> table.holds(#[trigger] fields@[j].name) && base_ids_ok(
                *table,
                fields@[j].ty.ty,
            ),
    ensures
        r@ == spec_fields_text_from(*table, fields@, i as int),
    decreases fields@.len() - i,
{
    let mut s = String::new();
    if i < fields.len() {
        let field = &fields[i];
        proof {
            assert(table.holds(fields@[i as int].name) && base_ids_ok(
                *table,
                fields@[i as int].ty.ty,
            ));
        }
        s.append(" ");
        s.append(field.ty.fmt(table).as_str());
        s.append(" ");
        s.append(field.name.value(table));
        s.append(";");
        s.append(fields_text_from(table, fields, i + 1).as_str());
        proof {
            assert(s@ =~= spec_fields_text_from(*table, fields@, i as int));
        }
    }
    s
}

fn subrecords_text_from(table: &Interner, subs: &Vec<RecordName>, i: usize) -> (r: String)
    requires
        forall|j: int|
            0 <= j < subs@.len() ==> match #[trigger] subs@[j] {
                RecordName::Named(id) => table.holds(id),
                RecordName::Anonymous(_) => true,
            },
    ensures
        r@ == spec_subrecords_text_from(*table, subs@, i as int),
    decreases subs@.len() - i,
{
    let mut s = String::new();
    if i < subs.len() {
        s.append(" <subdecl ");
        match &subs[i] {
            RecordName::Named(id) => {
                s.append(id.value(table));
            },
            RecordName::Anonymous(usr) => {
                s.append("USR: ");
                s.append(usr.as_str());
            },
        }
        s.append(">;");
        s.append(subrecords_text_from(table, subs, i + 1).as_str());
        proof {
            assert(s@ =~= spec_subrecords_text_from(*table, subs@, i as int));
        }
    }
    s
}

fn enum_members_text_from(table: &Interner, members: &Vec<CEnumConstantDecl>, i: usize) -> (r:
    String)
    requires
        forall|j: int| 0 <= j < members@.len() ==> table.holds(#[trigger] members@[j].name),
    ensures
        r@ == spec_enum_members_text_from(*table, members@, i as int),
    decreases members@.len() - i,
{
    let mut s = String::new();
    if i < members.len() {
        if i > 0 {
            s.append(", ");
        }
        let member = &members[i];
        s.append(member.name.value(table));
        if member.explicit {
            s.append(" = ");
            s.append(crate::text::decimal_string(member.value).as_str());
        }
        s.append(enum_members_text_from(table, members, i + 1).as_str());
        proof {
            assert(s@ =~= spec_enum_members_text_from(*table, members@, i as int));
        }
    }
    s
}

impl CDecl {
    /// Renders a struct or union declaration under the given keyword.
    pub fn fmt_struct_like(table: &Interner, keyword: &str, decl: &CStructDecl) -> (r: String)
        requires
            record_ids_ok(*table, *decl),
        ensures
            r@ == spec_struct_like_text(*table, keyword@, *decl),
    {
        let mut s = String::from_str(keyword);
        s.append(" ");
        match &decl.name {
            RecordName::Named(id) => {
                s.append(id.value(table));
            },
            RecordName::Anonymous(usr) => {
                s.append("/* USR: ");
                s.append(usr.as_str());
                s.append(" */");
            },
        }
        if decl.is_definition {
            s.append(" {");
            s.append(fields_text_from(table, &decl.fields, 0).as_str());
            s.append(subrecords_text_from(table, &decl.subrecords, 0).as_str());
            s.append(" }");
        }
        s.append(";");
        proof {
            assert(s@ =~= spec_struct_like_text(*table, keyword@, *decl));
        }
        s
    }

    /// Renders this declaration.
    pub fn fmt(&self, table: &Interner) -> (r: String)
        requires
            decl_ids_ok(*table, *self),
        ensures
            r@ == spec_decl_text(*table, *self),
    {
        match self {
            CDecl::Typedef(td) => {
                let mut s = String::from_str("typedef ");
                s.append(td.underlying.fmt(table).as_str());
                s.append(" ");
                s.append(td.name.value(table));
                s.append(";");
                proof {
                    assert(s@ =~= spec_decl_text(*table, *self));
                }
                s
            },
            CDecl::Fn(fd) => {
                proof {
                    assert(crate::ty::params_of(fd.parameters@) =~= fd.parameters@);
                }
                let mut s = CType::fmt_fun(
                    table,
                    &fd.ret,
                    &fd.parameters,
                    Some(fd.name.value(table)),
                    false,
                    false,
                );
                s.append(";");
                proof {
                    assert(s@ =~= spec_decl_text(*table, *self));
                }
                s
            },
            CDecl::Struct(rd) => CDecl::fmt_struct_like(table, "struct", rd),
            CDecl::Union(rd) => CDecl::fmt_struct_like(table, "union", rd),
            CDecl::Enum(ed) => {
                let mut s = String::from_str("enum ");
                s.append(ed.name.value(table));
                s.append(" { ");
                s.append(enum_members_text_from(table, &ed.members, 0).as_str());
                s.append(" };");
                proof {
                    assert(s@ =~= spec_decl_text(*table, *self));
                }
                s
            },
            CDecl::Var(vd) => {
                let mut s = vd.ty.fmt(table);
                s.append(" ");
                s.append(vd.name.value(table));
                s.append(";");
                proof {
                    assert(s@ =~= spec_decl_text(*table, *self));
                }
                s
            },
        }
    }
}

} // verus!

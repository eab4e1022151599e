//! The AST mapper: walks mirrored front-end cursors into IR declarations,
//! types and expressions, interning every name.

use vstd::prelude::*;

use crate::ast::{AstNode, AstType, AstTypeKind};
use crate::ident::{has_sep, Identifier, Interner};
use crate::ty::{CBaseType, CParam, CType, RecordName};

verus! {

/// Why mapping a cursor was aborted. Mapping of the offending cursor stops,
/// but nothing panics: errors are values.
#[derive(Debug)]
pub enum MapError {
    /// A cursor of one kind stood where another was expected.
    UnexpectedCursorKind { expected: crate::ast::AstKind, actual: crate::ast::AstKind },
    /// A declaration, expression or type kind the mapper does not support.
    UnsupportedConstruct { description: String },
    /// A name could not be decoded as text.
    TextDecodeError,
    /// A name contains the reserved separator and cannot be interned.
    InvalidName,
    /// The front end could not evaluate a literal.
    LiteralEvalError,
}

/// `s` starts with `p`.
pub open spec fn spec_has_prefix(s: Seq<char>, p: Seq<char>) -> bool {
    s.len() >= p.len() && s.subrange(0, p.len() as int) == p
}

/// `s` with the prefix `p` removed when present, else `s` itself.
pub open spec fn spec_strip_prefix(s: Seq<char>, p: Seq<char>) -> Seq<char> {
    if spec_has_prefix(s, p) {
        s.subrange(p.len() as int, s.len() as int)
    } else {
        s
    }
}

/// The record keyword prefix for a tag.
pub open spec fn spec_record_prefix(is_struct: bool) -> Seq<char> {
    if is_struct {
        "struct "@
    } else {
        "union "@
    }
}

/// The name of a named record reference: its spelling with the keyword
/// prefix removed when present.
pub open spec fn spec_record_spelling_name(is_struct: bool, spelling: Seq<char>) -> Seq<char> {
    spec_strip_prefix(spelling, spec_record_prefix(is_struct))
}

/// The name of an enum reference: its spelling with `enum ` removed.
pub open spec fn spec_enum_spelling_name(spelling: Seq<char>) -> Seq<char> {
    spec_strip_prefix(spelling, "enum "@)
}

/// Whether mapping this mirrored type succeeds: every nested name is
/// intern-able, array sizes are non-negative, an elaborated reference wraps
/// an unqualified type, a named record or enum spelling yields a usable
/// name, and no unsupported kind occurs.
pub open spec fn map_ty_ok(inp: AstType) -> bool
    decreases inp,
{
    match inp.kind {
        AstTypeKind::Primitive(_) => true,
        AstTypeKind::Pointer(p) => map_ty_ok(*p),
        AstTypeKind::FunctionProto { ret, params } => map_ty_ok(*ret) && forall|i: int|
            0 <= i < params.len() ==> map_ty_ok(#[trigger] params[i]),
        AstTypeKind::FunctionNoProto { ret } => map_ty_ok(*ret),
        AstTypeKind::ConstantArray { element, size } => size >= 0 && map_ty_ok(*element),
        AstTypeKind::IncompleteArray { element } => map_ty_ok(*element),
        AstTypeKind::Elaborated { named } => !named.is_const && map_ty_ok(*named),
        AstTypeKind::Typedef { name } => !has_sep(name@),
        AstTypeKind::Record { is_struct, anonymous, usr, spelling } => anonymous || {
            &&& spec_record_spelling_name(is_struct, spelling@).len() > 0
            &&& !has_sep(spec_record_spelling_name(is_struct, spelling@))
        },
        AstTypeKind::Enum { spelling } => spec_has_prefix(spelling@, "enum "@) && !has_sep(
            spec_enum_spelling_name(spelling@),
        ),
        AstTypeKind::Other { .. } => false,
    }
}

/// The mapped base type corresponds to the mirrored type: same structure,
/// same qualifiers, every name interned with the right text, anonymity
/// carried as a USR.
pub open spec fn base_corresponds(it: Interner, b: CBaseType, inp: AstType) -> bool
    decreases inp,
{
    match inp.kind {
        AstTypeKind::Primitive(p) => b == CBaseType::Primitive(p),
        AstTypeKind::Pointer(pt) => b matches CBaseType::Pointer(o) && o.is_const == pt.is_const
            && base_corresponds(it, o.ty, *pt),
        AstTypeKind::FunctionProto { ret, params } => {
            &&& b matches CBaseType::FunProto(oret, oparams)
            &&& (b matches CBaseType::FunProto(oret, oparams) ==> {
                &&& oret.is_const == ret.is_const
                &&& base_corresponds(it, oret.ty, *ret)
                &&& oparams.len() == params.len()
                &&& forall|i: int|
                    0 <= i < params.len() ==> {
                        &&& (#[trigger] oparams[i]).name is None
                        &&& oparams[i].ty.is_const == params[i].is_const
                        &&& base_corresponds(it, oparams[i].ty.ty, params[i])
                    }
            })
        },
        AstTypeKind::FunctionNoProto { ret } => b matches CBaseType::FunProto(oret, oparams)
            && oparams.len() == 0 && oret.is_const == ret.is_const && base_corresponds(
            it,
            oret.ty,
            *ret,
        ),
        AstTypeKind::ConstantArray { element, size } => b matches CBaseType::Array(
            oe,
            Some(sz),
        ) && sz == size as u64 && oe.is_const == element.is_const && base_corresponds(
            it,
            oe.ty,
            *element,
        ),
        AstTypeKind::IncompleteArray { element } => b matches CBaseType::Array(oe, None)
            && oe.is_const == element.is_const && base_corresponds(it, oe.ty, *element),
        AstTypeKind::Elaborated { named } => base_corresponds(it, b, *named),
        AstTypeKind::Typedef { name } => b matches CBaseType::Typedef(id) && it.holds(id)
            && it.text_at(id.idx as int) == name@,
        AstTypeKind::Record { is_struct, anonymous, usr, spelling } => if anonymous {
            b == CBaseType::Record(is_struct, RecordName::Anonymous(usr))
        } else {
            b matches CBaseType::Record(s2, RecordName::Named(id)) && s2 == is_struct
                && it.holds(id) && it.text_at(id.idx as int) == spec_record_spelling_name(
                is_struct,
                spelling@,
            )
        },
        AstTypeKind::Enum { spelling } => b matches CBaseType::Enum(id) && it.holds(id)
            && it.text_at(id.idx as int) == spec_enum_spelling_name(spelling@),
        AstTypeKind::Other { .. } => false,
    }
}

/// The mapped type corresponds to the mirrored type.
pub open spec fn ty_corresponds(it: Interner, out: CType, inp: AstType) -> bool {
    out.is_const == inp.is_const && base_corresponds(it, out.ty, inp)
}

/// Correspondence only mentions slots the table already has, so it survives
/// later interning.
pub proof fn lemma_base_corresponds_mono(it1: Interner, it2: Interner, b: CBaseType, inp: AstType)
    requires
        it2.extends(it1),
        base_corresponds(it1, b, inp),
    ensures
        base_corresponds(it2, b, inp),
    decreases inp,
{
    match inp.kind {
        AstTypeKind::Primitive(_) => {},
        AstTypeKind::Pointer(pt) => {
            if let CBaseType::Pointer(o) = b {
                lemma_base_corresponds_mono(it1, it2, o.ty, *pt);
            }
        },
        AstTypeKind::FunctionProto { ret, params } => {
            if let CBaseType::FunProto(oret, oparams) = b {
                lemma_base_corresponds_mono(it1, it2, oret.ty, *ret);
                assert forall|i: int| 0 <= i < params.len() implies {
                    &&& (#[trigger] oparams[i]).name is None
                    &&& oparams[i].ty.is_const == params[i].is_const
                    &&& base_corresponds(it2, oparams[i].ty.ty, params[i])
                } by {
                    lemma_base_corresponds_mono(it1, it2, oparams[i].ty.ty, params[i]);
                }
            }
        },
        AstTypeKind::FunctionNoProto { ret } => {
            if let CBaseType::FunProto(oret, _) = b {
                lemma_base_corresponds_mono(it1, it2, oret.ty, *ret);
            }
        },
        AstTypeKind::ConstantArray { element, .. } => {
            if let CBaseType::Array(oe, _) = b {
                lemma_base_corresponds_mono(it1, it2, oe.ty, *element);
            }
        },
        AstTypeKind::IncompleteArray { element } => {
            if let CBaseType::Array(oe, _) = b {
                lemma_base_corresponds_mono(it1, it2, oe.ty, *element);
            }
        },
        AstTypeKind::Elaborated { named } => {
            lemma_base_corresponds_mono(it1, it2, b, *named);
        },
        AstTypeKind::Typedef { .. } => {},
        AstTypeKind::Record { .. } => {},
        AstTypeKind::Enum { .. } => {},
        AstTypeKind::Other { .. } => {},
    }
}

fn strip_prefix_str<'a>(s: &'a str, p: &str) -> (r: Option<&'a str>)
    ensures
        match r {
            Some(rest) => spec_has_prefix(s@, p@) && rest@ == s@.subrange(
                p@.len() as int,
                s@.len() as int,
            ),
            None => !spec_has_prefix(s@, p@),
        },
{
    let sn = s.unicode_len();
    let pn = p.unicode_len();
    if sn < pn {
        return None;
    }
    let mut i: usize = 0;
    while i < pn
        invariant
            i <= pn,
            pn <= sn,
            sn == s@.len(),
            pn == p@.len(),
            forall|j: int| 0 <= j < i ==> s@[j] == p@[j],
        decreases pn - i,
    {
        if s.get_char(i) != p.get_char(i) {
            assert(s@[i as int] != p@[i as int]);
            assert(!spec_has_prefix(s@, p@)) by {
                if spec_has_prefix(s@, p@) {
                    assert(s@.subrange(0, p@.len() as int)[i as int] == p@[i as int]);
                }
            }
            return None;
        }
        i = i + 1;
    }
    let rest = s.substring_char(pn, sn);
    proof {
        assert(s@.subrange(0, p@.len() as int) =~= p@);
    }
    Some(rest)
}

/// Maps a mirrored type, obtained from type introspection alone, to an IR
/// type. Parameter names are never present here: they live on
/// declaration-site cursors and are added by enrichment.
pub fn map_ty(table: &mut Interner, inp: &AstType) -> (r: Result<CType, MapError>)
    requires
        old(table).wf(),
    ensures
        final(table).wf(),
        final(table).extends(*old(table)),
        crate::ident::renames_frozen(*old(table), *final(table)),
        match r {
            Ok(out) => map_ty_ok(*inp) && ty_corresponds(*final(table), out, *inp),
            Err(_) => !map_ty_ok(*inp),
        },
    decreases *inp, 0int,
{
    let is_const = inp.is_const;
    match &inp.kind {
        AstTypeKind::Primitive(p) => Ok(CType { is_const, ty: CBaseType::Primitive(*p) }),
        AstTypeKind::Pointer(pointee) => {
            let mapped = map_ty(table, pointee)?;
            Ok(CType { is_const, ty: CBaseType::Pointer(Box::new(mapped)) })
        },
        AstTypeKind::FunctionProto { ret, params } => {
            let mapped_ret = map_ty(table, ret)?;
            let ghost mid = *table;
            let mapped_params = map_bare_params(table, params, 0)?;
            proof {
                lemma_base_corresponds_mono(mid, *table, mapped_ret.ty, **ret);
                assert forall|j: int| 0 <= j < params@.len() implies {
                    &&& map_ty_ok(#[trigger] params@[j])
                    &&& mapped_params@[j].name is None
                    &&& mapped_params@[j].ty.is_const == params@[j].is_const
                    &&& base_corresponds(*table, mapped_params@[j].ty.ty, params@[j])
                } by {
                    assert(mapped_params@[j].name is None);
                    assert(params@[0 + j] == params@[j]);
                }
            }
            Ok(
                CType {
                    is_const,
                    ty: CBaseType::FunProto(Box::new(mapped_ret), mapped_params),
                },
            )
        },
        AstTypeKind::FunctionNoProto { ret } => {
            let mapped_ret = map_ty(table, ret)?;
            Ok(CType { is_const, ty: CBaseType::FunProto(Box::new(mapped_ret), Vec::new()) })
        },
        AstTypeKind::ConstantArray { element, size } => {
            if *size < 0 {
                return Err(
                    MapError::UnsupportedConstruct {
                        description: String::from_str("array with unknown constant size"),
                    },
                );
            }
            let mapped = map_ty(table, element)?;
            Ok(
                CType {
                    is_const,
                    ty: CBaseType::Array(Box::new(mapped), Some(*size as u64)),
                },
            )
        },
        AstTypeKind::IncompleteArray { element } => {
            let mapped = map_ty(table, element)?;
            Ok(CType { is_const, ty: CBaseType::Array(Box::new(mapped), None) })
        },
        AstTypeKind::Elaborated { named } => {
            if named.is_const {
                return Err(
                    MapError::UnsupportedConstruct {
                        description: String::from_str("const-qualified elaborated type"),
                    },
                );
            }
            let mapped = map_ty(table, named)?;
            Ok(CType { is_const, ty: mapped.ty })
        },
        AstTypeKind::Typedef { name } => {
            match table.intern(name.as_str()) {
                Ok(id) => Ok(CType { is_const, ty: CBaseType::Typedef(id) }),
                Err(_) => Err(MapError::InvalidName),
            }
        },
        AstTypeKind::Record { is_struct, anonymous, usr, spelling } => {
            if *anonymous {
                Ok(
                    CType {
                        is_const,
                        ty: CBaseType::Record(*is_struct, RecordName::Anonymous(usr.clone())),
                    },
                )
            } else {
                let keyword = if *is_struct {
                    "struct "
                } else {
                    "union "
                };
                let name = match strip_prefix_str(spelling.as_str(), keyword) {
                    Some(rest) => rest,
                    None => {
                        if spelling.as_str().unicode_len() == 0 {
                            return Err(
                                MapError::UnsupportedConstruct {
                                    description: String::from_str(
                                        "record reference with an empty spelling",
                                    ),
                                },
                            );
                        }
                        spelling.as_str()
                    },
                };
                proof {
                    assert(name@ == spec_record_spelling_name(*is_struct, spelling@));
                }
                if name.unicode_len() == 0 {
                    return Err(
                        MapError::UnsupportedConstruct {
                            description: String::from_str(
                                "record reference with an empty spelling",
                            ),
                        },
                    );
                }
                match table.intern(name) {
                    Ok(id) => Ok(
                        CType {
                            is_const,
                            ty: CBaseType::Record(*is_struct, RecordName::Named(id)),
                        },
                    ),
                    Err(_) => Err(MapError::InvalidName),
                }
            }
        },
        AstTypeKind::Enum { spelling } => {
            let name = match strip_prefix_str(spelling.as_str(), "enum ") {
                Some(rest) => rest,
                None => {
                    return Err(
                        MapError::UnsupportedConstruct {
                            description: String::from_str(
                                "enum reference without an enum keyword",
                            ),
                        },
                    );
                },
            };
            match table.intern(name) {
                Ok(id) => Ok(CType { is_const, ty: CBaseType::Enum(id) }),
                Err(_) => Err(MapError::InvalidName),
            }
        },
        AstTypeKind::Other { spelling, kind_spelling } => {
            let mut description = String::from_str("unhandled type ");
            description.append(spelling.as_str());
            description.append(" with kind ");
            description.append(kind_spelling.as_str());
            Err(MapError::UnsupportedConstruct { description })
        },
    }
}

/// Some parameter-declaration cursor in this subtree carries a name that
/// cannot be interned.
pub open spec fn node_has_bad_param_name(n: AstNode) -> bool
    decreases n, 0int,
{
    (n.kind == crate::ast::AstKind::ParmDecl && has_sep(n.spelling@)) || forest_has_bad_param_name(
        n.children@,
    )
}

/// Some parameter-declaration cursor in this forest carries a name that
/// cannot be interned.
pub open spec fn forest_has_bad_param_name(nodes: Seq<AstNode>) -> bool
    decreases nodes, 1int,
{
    exists|i: int| 0 <= i < nodes.len() && node_has_bad_param_name(#[trigger] nodes[i])
}

/// The number of cursors consumed when enriching a type from position
/// `p0` in a window of `nodes_len` cursors: inside a function prototype the
/// return type consumes first, then each parameter consumes one cursor
/// while any remain.
pub open spec fn spec_consumed(inp: CType, nodes_len: int, p0: int) -> int
    decreases inp,
{
    match inp.ty {
        CBaseType::Array(e, _) => spec_consumed(*e, nodes_len, p0),
        CBaseType::Pointer(e) => spec_consumed(*e, nodes_len, p0),
        CBaseType::FunProto(ret, params) => spec_params_consumed(
            params@.len() as int,
            nodes_len,
            spec_consumed(*ret, nodes_len, p0),
        ),
        _ => p0,
    }
}

/// The position after a parameter list consumed one cursor per parameter,
/// stopping at the end of the window.
pub open spec fn spec_params_consumed(n_params: int, nodes_len: int, p0: int) -> int {
    if p0 + n_params <= nodes_len {
        p0 + n_params
    } else {
        nodes_len
    }
}

proof fn lemma_consumed_bounds(inp: CType, nodes_len: int, p0: int)
    requires
        0 <= p0 <= nodes_len,
    ensures
        p0 <= spec_consumed(inp, nodes_len, p0) <= nodes_len,
    decreases inp,
{
    match inp.ty {
        CBaseType::Array(e, _) => {
            lemma_consumed_bounds(*e, nodes_len, p0);
        },
        CBaseType::Pointer(e) => {
            lemma_consumed_bounds(*e, nodes_len, p0);
        },
        CBaseType::FunProto(ret, _) => {
            lemma_consumed_bounds(*ret, nodes_len, p0);
        },
        _ => {},
    }
}

/// Enrichment of a type against the cursors of `nodes` from position `p0`:
/// the structure and every leaf are kept; inside a function prototype the
/// return type is enriched first, then the parameters are zipped with the
/// remaining cursors.
pub open spec fn enrich_rel(
    it: Interner,
    out: CType,
    inp: CType,
    nodes: Seq<AstNode>,
    p0: int,
) -> bool
    decreases inp, 0int,
{
    match inp.ty {
        CBaseType::Array(e, len) => out.is_const == inp.is_const && (out.ty matches
        CBaseType::Array(oe, olen) && olen == len && enrich_rel(it, *oe, *e, nodes, p0)),
        CBaseType::Pointer(e) => out.is_const == inp.is_const && (out.ty matches
        CBaseType::Pointer(oe) && enrich_rel(it, *oe, *e, nodes, p0)),
        CBaseType::FunProto(ret, params) => out.is_const == inp.is_const && (out.ty matches
        CBaseType::FunProto(oret, oparams) && enrich_rel(it, *oret, *ret, nodes, p0)
            && params_enrich_rel(
            it,
            oparams@,
            params@,
            nodes,
            spec_consumed(*ret, nodes.len() as int, p0),
        )),
        _ => out == inp,
    }
}

/// Enrichment of a parameter list against the cursors of `nodes` from
/// position `p0`, one cursor per parameter: a parameter-declaration cursor
/// with a non-empty spelling names the parameter and its own children
/// enrich the parameter's type; any other pairing keeps the parameter; the
/// zip stops at the shorter sequence without error.
pub open spec fn params_enrich_rel(
    it: Interner,
    outs: Seq<CParam>,
    ins: Seq<CParam>,
    nodes: Seq<AstNode>,
    p0: int,
) -> bool
    decreases ins, 1int,
{
    if ins.len() == 0 {
        outs.len() == 0
    } else if p0 < 0 || p0 >= nodes.len() {
        outs == ins
    } else {
        &&& outs.len() == ins.len()
        &&& if nodes[p0].kind == crate::ast::AstKind::ParmDecl && nodes[p0].spelling@.len()
            > 0 {
            &&& outs[0].name matches Some(id) && it.holds(id) && it.text_at(id.idx as int)
                == nodes[p0].spelling@
            &&& enrich_rel(it, outs[0].ty, ins[0].ty, nodes[p0].children@, 0)
        } else {
            outs[0] == ins[0]
        }
        &&& params_enrich_rel(it, outs.drop_first(), ins.drop_first(), nodes, p0 + 1)
    }
}

/// Enrichment only mentions table slots it already has, so it survives
/// later interning.
pub proof fn lemma_enrich_rel_mono(
    it1: Interner,
    it2: Interner,
    out: CType,
    inp: CType,
    nodes: Seq<AstNode>,
    p0: int,
)
    requires
        it2.extends(it1),
        enrich_rel(it1, out, inp, nodes, p0),
    ensures
        enrich_rel(it2, out, inp, nodes, p0),
    decreases inp, 0int,
{
    match inp.ty {
        CBaseType::Array(e, _) => {
            if let CBaseType::Array(oe, _) = out.ty {
                lemma_enrich_rel_mono(it1, it2, *oe, *e, nodes, p0);
            }
        },
        CBaseType::Pointer(e) => {
            if let CBaseType::Pointer(oe) = out.ty {
                lemma_enrich_rel_mono(it1, it2, *oe, *e, nodes, p0);
            }
        },
        CBaseType::FunProto(ret, params) => {
            if let CBaseType::FunProto(oret, oparams) = out.ty {
                lemma_enrich_rel_mono(it1, it2, *oret, *ret, nodes, p0);
                lemma_params_enrich_rel_mono(
                    it1,
                    it2,
                    oparams@,
                    params@,
                    nodes,
                    spec_consumed(*ret, nodes.len() as int, p0),
                );
            }
        },
        _ => {},
    }
}

proof fn lemma_params_enrich_rel_mono(
    it1: Interner,
    it2: Interner,
    outs: Seq<CParam>,
    ins: Seq<CParam>,
    nodes: Seq<AstNode>,
    p0: int,
)
    requires
        it2.extends(it1),
        params_enrich_rel(it1, outs, ins, nodes, p0),
    ensures
        params_enrich_rel(it2, outs, ins, nodes, p0),
    decreases ins, 1int,
{
    if ins.len() == 0 {
    } else if p0 < 0 || p0 >= nodes.len() {
    } else {
        if nodes[p0].kind == crate::ast::AstKind::ParmDecl && nodes[p0].spelling@.len() > 0 {
            lemma_enrich_rel_mono(it1, it2, outs[0].ty, ins[0].ty, nodes[p0].children@, 0);
        }
        lemma_params_enrich_rel_mono(
            it1,
            it2,
            outs.drop_first(),
            ins.drop_first(),
            nodes,
            p0 + 1,
        );
    }
}

/// Enriches a type with the parameter names found on the declaration-site
/// cursors `nodes`, consuming cursors from `*pos` in lockstep. The type
/// obtained from introspection alone loses parameter names; they live on
/// the cursor children. A mismatch in length stops enrichment at the
/// shorter sequence without error.
pub fn enrich_param(table: &mut Interner, ty: CType, nodes: &Vec<AstNode>, pos: &mut usize) -> (r:
    Result<CType, MapError>)
    requires
        old(table).wf(),
        *old(pos) <= nodes@.len(),
    ensures
        final(table).wf(),
        final(table).extends(*old(table)),
        crate::ident::renames_frozen(*old(table), *final(table)),
        *final(pos) <= nodes@.len(),
        *final(pos) >= *old(pos),
        match r {
            Ok(out) => enrich_rel(*final(table), out, ty, nodes@, *old(pos) as int)
                && *final(pos) == spec_consumed(ty, nodes@.len() as int, *old(pos) as int),
            Err(_) => forest_has_bad_param_name(nodes@),
        },
    decreases ty, 0int,
{
    let is_const = ty.is_const;
    match ty.ty {
        CBaseType::Array(e, len) => {
            let enriched = enrich_param(table, *e, nodes, pos)?;
            Ok(CType { is_const, ty: CBaseType::Array(Box::new(enriched), len) })
        },
        CBaseType::Pointer(e) => {
            let enriched = enrich_param(table, *e, nodes, pos)?;
            Ok(CType { is_const, ty: CBaseType::Pointer(Box::new(enriched)) })
        },
        CBaseType::FunProto(ret, params) => {
            let ghost p_start = *pos;
            let enriched_ret = enrich_param(table, *ret, nodes, pos)?;
            let ghost mid = *table;
            let enriched_params = enrich_params(table, params, nodes, pos)?;
            proof {
                lemma_enrich_rel_mono(
                    mid,
                    *table,
                    enriched_ret,
                    *ret,
                    nodes@,
                    p_start as int,
                );
            }
            Ok(
                CType {
                    is_const,
                    ty: CBaseType::FunProto(Box::new(enriched_ret), enriched_params),
                },
            )
        },
        b => Ok(CType { is_const, ty: b }),
    }
}

fn enrich_params(table: &mut Interner, ins: Vec<CParam>, nodes: &Vec<AstNode>, pos: &mut usize) -> (
    r: Result<Vec<CParam>, MapError>)
    requires
        old(table).wf(),
        *old(pos) <= nodes@.len(),
    ensures
        final(table).wf(),
        final(table).extends(*old(table)),
        crate::ident::renames_frozen(*old(table), *final(table)),
        *final(pos) <= nodes@.len(),
        *final(pos) >= *old(pos),
        match r {
            Ok(outs) => params_enrich_rel(
                *final(table),
                outs@,
                ins@,
                nodes@,
                *old(pos) as int,
            ) && *final(pos) == spec_params_consumed(
                ins@.len() as int,
                nodes@.len() as int,
                *old(pos) as int,
            ),
            Err(_) => forest_has_bad_param_name(nodes@),
        },
    decreases ins@, 1int,
{
    let ghost entry_ins = ins@;
    let mut ins = ins;
    if ins.len() == 0 {
        return Ok(ins);
    }
    if *pos >= nodes.len() {
        return Ok(ins);
    }
    let ghost p0 = *pos as int;
    let node = &nodes[*pos];
    *pos = *pos + 1;
    let head = ins.remove(0);
    proof {
        assert(ins@ =~= entry_ins.subrange(1, entry_ins.len() as int));
        assert(entry_ins.drop_first() =~= ins@);
    }
    if node.kind == crate::ast::AstKind::ParmDecl && node.spelling.as_str().unicode_len() > 0 {
        let id = match table.intern(node.spelling.as_str()) {
            Ok(id) => id,
            Err(_) => {
                proof {
                    assert(node_has_bad_param_name(nodes@[p0]));
                }
                return Err(MapError::InvalidName);
            },
        };
        let mut subpos: usize = 0;
        let enriched_ty = match enrich_param(table, head.ty, &node.children, &mut subpos) {
            Ok(t) => t,
            Err(e) => {
                proof {
                    assert(node_has_bad_param_name(nodes@[p0]));
                }
                return Err(e);
            },
        };
        let ghost mid = *table;
        let mut rest = match enrich_params(table, ins, nodes, pos) {
            Ok(v) => v,
            Err(e) => {
                return Err(e);
            },
        };
        proof {
            lemma_enrich_rel_mono(
                mid,
                *table,
                enriched_ty,
                entry_ins[0].ty,
                nodes@[p0].children@,
                0,
            );
        }
        let ghost rest0 = rest@;
        rest.insert(0, CParam { name: Some(id), ty: enriched_ty });
        proof {
            assert(rest@.drop_first() =~= rest0);
            assert(table.holds(id) && table.text_at(id.idx as int) == nodes@[p0].spelling@);
            assert(params_enrich_rel(*table, rest@, entry_ins, nodes@, p0));
        }
        Ok(rest)
    } else {
        let mut rest = enrich_params(table, ins, nodes, pos)?;
        let ghost rest0 = rest@;
        rest.insert(0, head);
        proof {
            assert(rest@.drop_first() =~= rest0);
            assert(rest@[0] == entry_ins[0]);
            assert(params_enrich_rel(*table, rest@, entry_ins, nodes@, p0));
        }
        Ok(rest)
    }
}

fn map_bare_params(table: &mut Interner, params: &Vec<AstType>, i: usize) -> (r: Result<
    Vec<CParam>,
    MapError,
>)
    requires
        old(table).wf(),
        i <= params@.len(),
    ensures
        final(table).wf(),
        final(table).extends(*old(table)),
        crate::ident::renames_frozen(*old(table), *final(table)),
        match r {
            Ok(out) => {
                &&& out@.len() == params@.len() - i
                &&& forall|j: int|
                    0 <= j < out@.len() ==> {
                        &&& (#[trigger] out@[j]).name is None
                        &&& out@[j].ty.is_const == params@[i + j].is_const
                        &&& base_corresponds(*final(table), out@[j].ty.ty, params@[i + j])
                        &&& map_ty_ok(params@[i + j])
                    }
            },
            Err(_) => exists|j: int| i <= j < params@.len() && !map_ty_ok(#[trigger] params@[j]),
        },
    decreases params@, params@.len() - i,
{
    if i == params.len() {
        Ok(Vec::new())
    } else {
        let p = &params[i];
        let mapped = map_ty(table, p)?;
        let ghost mid = *table;
        let mut rest = map_bare_params(table, params, i + 1)?;
        proof {
            lemma_base_corresponds_mono(mid, *table, mapped.ty, params@[i as int]);
        }
        rest.insert(0, CParam { name: None, ty: mapped });
        Ok(rest)
    }
}


/// The base type mentions the anonymous record with this USR, searched
/// recursively through arrays, pointers and function-prototype positions.
pub open spec fn spec_base_usage(b: CBaseType, name: Seq<char>) -> bool
    decreases b, 0int,
{
    match b {
        CBaseType::Record(_, RecordName::Anonymous(usr)) => usr@ == name,
        CBaseType::Array(ty, _) => spec_base_usage(ty.ty, name),
        CBaseType::Pointer(ty) => spec_base_usage(ty.ty, name),
        CBaseType::FunProto(ret, params) => spec_base_usage(ret.ty, name)
            || params_usage(params@, name, 0),
        _ => false,
    }
}

/// Some parameter from position `i` on mentions the anonymous record.
pub open spec fn params_usage(params: Seq<CParam>, name: Seq<char>, i: int) -> bool
    decreases params, 1int, params.len() - i,
{
    if i < 0 || i >= params.len() {
        false
    } else {
        spec_base_usage(params[i].ty.ty, name) || params_usage(params, name, i + 1)
    }
}

/// Whether the type mentions the anonymous record with this USR. A typedef
/// that merely aliases the record is not a usage.
pub fn any_usage(ty: &CType, name: &str) -> (r: bool)
    ensures
        r == spec_base_usage(ty.ty, name@),
    decreases *ty, 0int, 0int,
{
    match &ty.ty {
        CBaseType::Record(_, RecordName::Anonymous(usr)) => crate::text::str_eq(usr.as_str(), name),
        CBaseType::Array(e, _) => any_usage(e, name),
        CBaseType::Pointer(e) => any_usage(e, name),
        CBaseType::FunProto(ret, params) => any_usage(ret, name) || any_params_usage(
            params,
            name,
            0,
        ),
        _ => false,
    }
}

fn any_params_usage(params: &Vec<CParam>, name: &str, i: usize) -> (r: bool)
    ensures
        r == params_usage(params@, name@, i as int),
    decreases params@, 1int, params@.len() - i,
{
    if i >= params.len() {
        false
    } else {
        any_usage(&params[i].ty, name) || any_params_usage(params, name, i + 1)
    }
}

/// A mapped field corresponds to a field-declaration cursor: its name is
/// the cursor's display name, its type the introspected type enriched by
/// the cursor's own children.
pub open spec fn field_matches(it: Interner, f: crate::decl::CFieldDecl, node: AstNode) -> bool {
    &&& node.kind == crate::ast::AstKind::FieldDecl
    &&& it.holds(f.name)
    &&& it.text_at(f.name.idx as int) == node.display@
    &&& exists|m: CType|
        {
            &&& #[trigger] ty_corresponds(it, m, node.ty)
            &&& enrich_rel(it, f.ty, m, node.children@, 0)
        }
}

/// A mapped parameter corresponds to a parameter-declaration cursor.
pub open spec fn param_matches(it: Interner, p: CParam, node: AstNode) -> bool {
    &&& node.kind == crate::ast::AstKind::ParmDecl
    &&& p.name matches Some(id) && it.holds(id) && it.text_at(id.idx as int) == node.spelling@
    &&& ty_corresponds(it, p.ty, node.ty)
}

/// A mapped enum constant corresponds to its cursor: `explicit` is true
/// exactly when the cursor has a child (the initializer expression), and
/// the value is the front end's unsigned evaluation.
pub open spec fn enum_const_matches(
    it: Interner,
    c: crate::decl::CEnumConstantDecl,
    node: AstNode,
) -> bool {
    &&& node.kind == crate::ast::AstKind::EnumConstantDecl
    &&& it.holds(c.name)
    &&& it.text_at(c.name.idx as int) == node.spelling@
    &&& c.explicit == (node.children@.len() > 0)
    &&& c.value == node.value
}

/// Maps a field-declaration cursor to an IR field.
pub fn map_field(table: &mut Interner, node: &AstNode) -> (r: Result<
    crate::decl::CFieldDecl,
    MapError,
>)
    requires
        old(table).wf(),
    ensures
        final(table).wf(),
        final(table).extends(*old(table)),
        crate::ident::renames_frozen(*old(table), *final(table)),
        match r {
            Ok(f) => field_matches(*final(table), f, *node),
            Err(_) => node.kind != crate::ast::AstKind::FieldDecl || !map_ty_ok(node.ty)
                || has_sep(node.display@) || forest_has_bad_param_name(node.children@),
        },
{
    if !matches!(node.kind, crate::ast::AstKind::FieldDecl) {
        return Err(
            MapError::UnexpectedCursorKind {
                expected: crate::ast::AstKind::FieldDecl,
                actual: node.kind,
            },
        );
    }
    let name = match table.intern(node.display.as_str()) {
        Ok(id) => id,
        Err(_) => {
            return Err(MapError::InvalidName);
        },
    };
    let bare = map_ty(table, &node.ty)?;
    let ghost m = bare;
    let ghost mid = *table;
    let mut pos: usize = 0;
    let ty = enrich_param(table, bare, &node.children, &mut pos)?;
    proof {
        lemma_base_corresponds_mono(mid, *table, m.ty, node.ty);
        assert(ty_corresponds(*table, m, node.ty) && enrich_rel(*table, ty, m, node.children@, 0));
    }
    Ok(crate::decl::CFieldDecl { name, ty })
}

/// Maps a parameter-declaration cursor to an IR parameter. The name is the
/// cursor spelling; nothing is enriched here.
pub fn map_param(table: &mut Interner, node: &AstNode) -> (r: Result<CParam, MapError>)
    requires
        old(table).wf(),
    ensures
        final(table).wf(),
        final(table).extends(*old(table)),
        crate::ident::renames_frozen(*old(table), *final(table)),
        match r {
            Ok(p) => param_matches(*final(table), p, *node),
            Err(_) => node.kind != crate::ast::AstKind::ParmDecl || !map_ty_ok(node.ty)
                || has_sep(node.spelling@),
        },
{
    if !matches!(node.kind, crate::ast::AstKind::ParmDecl) {
        return Err(
            MapError::UnexpectedCursorKind {
                expected: crate::ast::AstKind::ParmDecl,
                actual: node.kind,
            },
        );
    }
    let name = match table.intern(node.spelling.as_str()) {
        Ok(id) => id,
        Err(_) => {
            return Err(MapError::InvalidName);
        },
    };
    let ty = map_ty(table, &node.ty)?;
    Ok(CParam { name: Some(name), ty })
}

/// Maps an enum-constant cursor to an IR enum constant.
pub fn map_enum_const(table: &mut Interner, node: &AstNode) -> (r: Result<
    crate::decl::CEnumConstantDecl,
    MapError,
>)
    requires
        old(table).wf(),
    ensures
        final(table).wf(),
        final(table).extends(*old(table)),
        crate::ident::renames_frozen(*old(table), *final(table)),
        match r {
            Ok(c) => enum_const_matches(*final(table), c, *node),
            Err(_) => node.kind != crate::ast::AstKind::EnumConstantDecl || has_sep(
                node.spelling@,
            ),
        },
{
    if !matches!(node.kind, crate::ast::AstKind::EnumConstantDecl) {
        return Err(
            MapError::UnexpectedCursorKind {
                expected: crate::ast::AstKind::EnumConstantDecl,
                actual: node.kind,
            },
        );
    }
    let name = match table.intern(node.spelling.as_str()) {
        Ok(id) => id,
        Err(_) => {
            return Err(MapError::InvalidName);
        },
    };
    let explicit = node.children.len() > 0;
    Ok(crate::decl::CEnumConstantDecl { name, explicit, value: node.value })
}


/// The introspected type is (after unwrapping elaborated references) a
/// function prototype.
pub open spec fn ast_is_fun(t: AstType) -> bool
    decreases t,
{
    match t.kind {
        AstTypeKind::FunctionProto { .. } => true,
        AstTypeKind::FunctionNoProto { .. } => true,
        AstTypeKind::Elaborated { named } => ast_is_fun(*named),
        _ => false,
    }
}

/// A corresponding mapped type is a function prototype exactly when the
/// mirrored type is one.
pub proof fn lemma_corresponds_fun_shape(it: Interner, m: CType, inp: AstType)
    requires
        base_corresponds(it, m.ty, inp),
    ensures
        (m.ty is FunProto) == ast_is_fun(inp),
    decreases inp,
{
    match inp.kind {
        AstTypeKind::Elaborated { named } => {
            lemma_corresponds_fun_shape(it, m, *named);
        },
        _ => {},
    }
}

/// The field-declaration children of a cursor from position `i` on.
pub open spec fn spec_field_filter(children: Seq<AstNode>, i: int) -> Seq<AstNode>
    decreases children.len() - i,
{
    if i < 0 || i >= children.len() {
        Seq::<AstNode>::empty()
    } else {
        let rest = spec_field_filter(children, i + 1);
        if children[i].kind == crate::ast::AstKind::FieldDecl {
            seq![children[i]] + rest
        } else {
            rest
        }
    }
}

/// The parameter-declaration children of a cursor from position `i` on.
pub open spec fn spec_parm_filter(children: Seq<AstNode>, i: int) -> Seq<AstNode>
    decreases children.len() - i,
{
    if i < 0 || i >= children.len() {
        Seq::<AstNode>::empty()
    } else {
        let rest = spec_parm_filter(children, i + 1);
        if children[i].kind == crate::ast::AstKind::ParmDecl {
            seq![children[i]] + rest
        } else {
            rest
        }
    }
}

/// Some field's type mentions the anonymous record with this USR.
pub open spec fn fields_use(fields: Seq<crate::decl::CFieldDecl>, u: Seq<char>) -> bool {
    exists|j: int| 0 <= j < fields.len() && spec_base_usage(#[trigger] fields[j].ty.ty, u)
}

/// A mapped record declaration corresponds to its cursor: the name is the
/// spelling (or the USR while anonymous), the definition flag is kept, the
/// fields are the field-declaration children in order, and `subrecords`
/// holds exactly the anonymous nested records that no field's type
/// reaches — a field that names the anonymous record absorbs it, so it
/// must not also appear as a synthetic subrecord.
pub open spec fn record_matches(it: Interner, d: crate::decl::CStructDecl, node: AstNode) -> bool {
    let fnodes = spec_field_filter(node.children@, 0);
    &&& (node.is_anonymous ==> d.name == RecordName::Anonymous(node.usr))
    &&& (!node.is_anonymous ==> (match d.name {
        RecordName::Named(id) => it.holds(id) && it.text_at(id.idx as int) == node.spelling@,
        RecordName::Anonymous(_) => false,
    }))
    &&& d.is_definition == node.is_definition
    &&& (!node.is_definition ==> d.fields@.len() == 0 && d.subrecords@.len() == 0)
    &&& (node.is_definition ==> {
        &&& d.fields@.len() == fnodes.len()
        &&& forall|i: int|
            0 <= i < fnodes.len() ==> field_matches(it, #[trigger] d.fields@[i], fnodes[i])
        &&& forall|k: int|
            0 <= k < node.children@.len() ==> (#[trigger] node.children@[k]).kind
                == crate::ast::AstKind::FieldDecl || node.children@[k].kind
                == crate::ast::AstKind::StructDecl || node.children@[k].kind
                == crate::ast::AstKind::UnionDecl
        &&& forall|i: int|
            0 <= i < d.subrecords@.len() ==> (match #[trigger] d.subrecords@[i] {
                RecordName::Anonymous(u) => !fields_use(d.fields@, u@) && exists|k: int|
                    {
                        &&& 0 <= k < node.children@.len()
                        &&& (#[trigger] node.children@[k]).kind
                            != crate::ast::AstKind::FieldDecl
                        &&& node.children@[k].is_anonymous
                        &&& node.children@[k].usr@ == u@
                    },
                RecordName::Named(_) => false,
            })
        &&& forall|k: int|
            {
                (0 <= k < node.children@.len() && (#[trigger] node.children@[k]).kind
                    != crate::ast::AstKind::FieldDecl && node.children@[k].is_anonymous
                    && !fields_use(d.fields@, node.children@[k].usr@)) ==> exists|i: int|
                    {
                        &&& 0 <= i < d.subrecords@.len()
                        &&& #[trigger] d.subrecords@[i] matches RecordName::Anonymous(u)
                        &&& u@ == node.children@[k].usr@
                    }
            }
    })
}

/// A mapped declaration corresponds to its cursor.
pub open spec fn decl_matches(it: Interner, d: crate::decl::CDecl, node: AstNode) -> bool {
    match node.kind {
        crate::ast::AstKind::VarDecl => d matches crate::decl::CDecl::Var(vd) && it.holds(
            vd.name,
        ) && it.text_at(vd.name.idx as int) == node.spelling@ && ty_corresponds(
            it,
            vd.ty,
            node.ty,
        ),
        crate::ast::AstKind::TypedefDecl => d matches crate::decl::CDecl::Typedef(td)
            && it.holds(td.name) && it.text_at(td.name.idx as int) == node.spelling@ && (match
        node.underlying {
            Some(u) => exists|m: CType|
                {
                    &&& #[trigger] ty_corresponds(it, m, u)
                    &&& enrich_rel(it, td.underlying, m, node.children@, 0)
                },
            None => false,
        }),
        crate::ast::AstKind::FunctionDecl => d matches crate::decl::CDecl::Fn(fd) && it.holds(
            fd.name,
        ) && it.text_at(fd.name.idx as int) == node.spelling@ && (exists|m: CType|
            {
                &&& #[trigger] ty_corresponds(it, m, node.ty)
                &&& m.ty matches CBaseType::FunProto(r, _) && *fd.ret == *r
            }) && {
            let pnodes = spec_parm_filter(node.children@, 0);
            &&& fd.parameters@.len() == pnodes.len()
            &&& forall|i: int|
                0 <= i < pnodes.len() ==> param_matches(
                    it,
                    #[trigger] fd.parameters@[i],
                    pnodes[i],
                )
        },
        crate::ast::AstKind::EnumDecl => d matches crate::decl::CDecl::Enum(ed) && it.holds(
            ed.name,
        ) && it.text_at(ed.name.idx as int) == node.spelling@ && ty_corresponds(
            it,
            ed.ty,
            node.ty,
        ) && ed.members@.len() == node.children@.len() && forall|i: int|
            0 <= i < node.children@.len() ==> enum_const_matches(
                it,
                #[trigger] ed.members@[i],
                node.children@[i],
            ),
        crate::ast::AstKind::StructDecl => d matches crate::decl::CDecl::Struct(rd)
            && record_matches(it, *rd, node),
        crate::ast::AstKind::UnionDecl => d matches crate::decl::CDecl::Union(rd)
            && record_matches(it, *rd, node),
        _ => false,
    }
}

/// Whether mapping this declaration cursor succeeds: its own name and all
/// nested names are intern-able and every construct is supported.
pub open spec fn decl_map_ok(node: AstNode) -> bool
    decreases node, 2int,
{
    match node.kind {
        crate::ast::AstKind::VarDecl => !has_sep(node.spelling@) && map_ty_ok(node.ty),
        crate::ast::AstKind::TypedefDecl => !has_sep(node.spelling@) && (match node.underlying {
            Some(u) => map_ty_ok(u),
            None => false,
        }) && !forest_has_bad_param_name(node.children@),
        crate::ast::AstKind::FunctionDecl => !has_sep(node.spelling@) && map_ty_ok(node.ty)
            && ast_is_fun(node.ty) && forall|i: int|
            0 <= i < node.children@.len() ==> ((#[trigger] node.children@[i]).kind
                == crate::ast::AstKind::ParmDecl ==> !has_sep(node.children@[i].spelling@)
                && map_ty_ok(node.children@[i].ty)),
        crate::ast::AstKind::EnumDecl => !has_sep(node.spelling@) && map_ty_ok(node.ty)
            && forall|i: int|
            0 <= i < node.children@.len() ==> (#[trigger] node.children@[i]).kind
                == crate::ast::AstKind::EnumConstantDecl && !has_sep(
                node.children@[i].spelling@,
            ),
        crate::ast::AstKind::StructDecl | crate::ast::AstKind::UnionDecl => {
            &&& (node.is_anonymous || !has_sep(node.spelling@))
            &&& (node.is_definition ==> children_map_ok(node.children@))
        },
        _ => false,
    }
}

/// Whether every child of a record-definition cursor can be mapped: a
/// field child has a usable display name and type; any other child is a
/// nested record that itself maps.
pub open spec fn children_map_ok(children: Seq<AstNode>) -> bool
    decreases children, 2int,
{
    forall|i: int|
        0 <= i < children.len() ==> child_map_ok(#[trigger] children[i])
}

/// Whether one child of a record definition can be mapped.
pub open spec fn child_map_ok(child: AstNode) -> bool
    decreases child, 3int,
{
    if child.kind == crate::ast::AstKind::FieldDecl {
        !has_sep(child.display@) && map_ty_ok(child.ty) && !forest_has_bad_param_name(
            child.children@,
        )
    } else {
        (child.kind == crate::ast::AstKind::StructDecl || child.kind
            == crate::ast::AstKind::UnionDecl) && decl_map_ok(child)
    }
}


/// `b` extends `a`, and everything appended is a record declaration.
pub open spec fn records_appended(a: Seq<crate::decl::CDecl>, b: Seq<crate::decl::CDecl>) -> bool {
    &&& a.len() <= b.len()
    &&& forall|k: int| 0 <= k < a.len() ==> #[trigger] b[k] == a[k]
    &&& forall|k: int|
        a.len() <= k < b.len() ==> (#[trigger] b[k]) is Struct || b[k] is Union
}

proof fn lemma_records_appended_trans(
    a: Seq<crate::decl::CDecl>,
    b: Seq<crate::decl::CDecl>,
    c: Seq<crate::decl::CDecl>,
)
    requires
        records_appended(a, b),
        records_appended(b, c),
    ensures
        records_appended(a, c),
{
    assert forall|k: int| a.len() <= k < c.len() implies (#[trigger] c[k]) is Struct
        || c[k] is Union by {
        if k < b.len() {
            assert(c[k] == b[k]);
            assert(b[k] is Struct || b[k] is Union);
        }
    }
}

proof fn lemma_field_matches_mono(
    it1: Interner,
    it2: Interner,
    f: crate::decl::CFieldDecl,
    node: AstNode,
)
    requires
        it2.extends(it1),
        field_matches(it1, f, node),
    ensures
        field_matches(it2, f, node),
{
    let m = choose|m: CType|
        {
            &&& #[trigger] ty_corresponds(it1, m, node.ty)
            &&& enrich_rel(it1, f.ty, m, node.children@, 0)
        };
    lemma_base_corresponds_mono(it1, it2, m.ty, node.ty);
    lemma_enrich_rel_mono(it1, it2, f.ty, m, node.children@, 0);
    assert(ty_corresponds(it2, m, node.ty) && enrich_rel(it2, f.ty, m, node.children@, 0));
}

proof fn lemma_param_matches_mono(it1: Interner, it2: Interner, p: CParam, node: AstNode)
    requires
        it2.extends(it1),
        param_matches(it1, p, node),
    ensures
        param_matches(it2, p, node),
{
    lemma_base_corresponds_mono(it1, it2, p.ty.ty, node.ty);
}

fn fields_any_usage(fields: &Vec<crate::decl::CFieldDecl>, usr: &str) -> (r: bool)
    ensures
        r == fields_use(fields@, usr@),
{
    let n = fields.len();
    let mut i: usize = 0;
    while i < n
        invariant
            i <= n,
            n == fields@.len(),
            forall|j: int| 0 <= j < i ==> !spec_base_usage(#[trigger] fields@[j].ty.ty, usr@),
        decreases n - i,
    {
        if any_usage(&fields[i].ty, usr) {
            return true;
        }
        i = i + 1;
    }
    false
}

fn map_parm_children(table: &mut Interner, children: &Vec<AstNode>, i: usize) -> (r: Result<
    Vec<CParam>,
    MapError,
>)
    requires
        old(table).wf(),
    ensures
        final(table).wf(),
        final(table).extends(*old(table)),
        crate::ident::renames_frozen(*old(table), *final(table)),
        match r {
            Ok(v) => v@.len() == spec_parm_filter(children@, i as int).len() && forall|j: int|
                0 <= j < v@.len() ==> param_matches(
                    *final(table),
                    #[trigger] v@[j],
                    spec_parm_filter(children@, i as int)[j],
                ),
            Err(_) => exists|k: int|
                {
                    &&& i <= k < children@.len()
                    &&& (#[trigger] children@[k]).kind == crate::ast::AstKind::ParmDecl
                    &&& (has_sep(children@[k].spelling@) || !map_ty_ok(children@[k].ty))
                },
        },
    decreases children@.len() - i,
{
    if i >= children.len() {
        Ok(Vec::new())
    } else {
        let child = &children[i];
        if matches!(child.kind, crate::ast::AstKind::ParmDecl) {
            let head = map_param(table, child)?;
            let ghost mid = *table;
            let mut rest = map_parm_children(table, children, i + 1)?;
            proof {
                lemma_param_matches_mono(mid, *table, head, children@[i as int]);
            }
            let ghost rest0 = rest@;
            rest.insert(0, head);
            proof {
                let f = spec_parm_filter(children@, i as int);
                assert(f =~= seq![children@[i as int]] + spec_parm_filter(
                    children@,
                    i + 1 as int,
                ));
                assert forall|j: int| 0 <= j < rest@.len() implies param_matches(
                    *table,
                    #[trigger] rest@[j],
                    f[j],
                ) by {
                    if j > 0 {
                        assert(rest@[j] == rest0[j - 1]);
                        assert(f[j] == spec_parm_filter(children@, i + 1 as int)[j - 1]);
                    }
                }
            }
            Ok(rest)
        } else {
            let r = map_parm_children(table, children, i + 1);
            proof {
                assert(spec_parm_filter(children@, i as int) =~= spec_parm_filter(
                    children@,
                    i + 1 as int,
                ));
            }
            r
        }
    }
}

fn map_enum_members(table: &mut Interner, children: &Vec<AstNode>, i: usize) -> (r: Result<
    Vec<crate::decl::CEnumConstantDecl>,
    MapError,
>)
    requires
        old(table).wf(),
        i <= children@.len(),
    ensures
        final(table).wf(),
        final(table).extends(*old(table)),
        crate::ident::renames_frozen(*old(table), *final(table)),
        match r {
            Ok(v) => v@.len() == children@.len() - i && forall|j: int|
                0 <= j < v@.len() ==> enum_const_matches(
                    *final(table),
                    #[trigger] v@[j],
                    children@[i + j],
                ),
            Err(_) => exists|k: int|
                {
                    &&& i <= k < children@.len()
                    &&& ((#[trigger] children@[k]).kind != crate::ast::AstKind::EnumConstantDecl
                        || has_sep(children@[k].spelling@))
                },
        },
    decreases children@.len() - i,
{
    if i >= children.len() {
        Ok(Vec::new())
    } else {
        let head = map_enum_const(table, &children[i])?;
        let ghost mid = *table;
        let mut rest = map_enum_members(table, children, i + 1)?;
        let ghost rest0 = rest@;
        rest.insert(0, head);
        proof {
            assert(table.extends(mid));
            assert(table.holds(head.name));
            assert(table.text_at(head.name.idx as int) == mid.text_at(head.name.idx as int));
            assert(enum_const_matches(*table, head, children@[i as int]));
            assert forall|j: int| 0 <= j < rest@.len() implies enum_const_matches(
                *table,
                #[trigger] rest@[j],
                children@[i + j],
            ) by {
                if j > 0 {
                    assert(rest@[j] == rest0[j - 1]);
                } else {
                    assert(rest@[0] == head);
                }
            }
        }
        Ok(rest)
    }
}

fn map_record_fields(table: &mut Interner, children: &Vec<AstNode>, i: usize) -> (r: Result<
    Vec<crate::decl::CFieldDecl>,
    MapError,
>)
    requires
        old(table).wf(),
    ensures
        final(table).wf(),
        final(table).extends(*old(table)),
        crate::ident::renames_frozen(*old(table), *final(table)),
        match r {
            Ok(v) => v@.len() == spec_field_filter(children@, i as int).len() && forall|j: int|
                0 <= j < v@.len() ==> field_matches(
                    *final(table),
                    #[trigger] v@[j],
                    spec_field_filter(children@, i as int)[j],
                ),
            Err(_) => exists|k: int|
                {
                    &&& i <= k < children@.len()
                    &&& (#[trigger] children@[k]).kind == crate::ast::AstKind::FieldDecl
                    &&& !child_map_ok(children@[k])
                },
        },
    decreases children@.len() - i,
{
    if i >= children.len() {
        Ok(Vec::new())
    } else {
        let child = &children[i];
        if matches!(child.kind, crate::ast::AstKind::FieldDecl) {
            let head = match map_field(table, child) {
                Ok(f) => f,
                Err(e) => {
                    proof {
                        assert(!child_map_ok(children@[i as int]));
                    }
                    return Err(e);
                },
            };
            let ghost mid = *table;
            let mut rest = map_record_fields(table, children, i + 1)?;
            proof {
                lemma_field_matches_mono(mid, *table, head, children@[i as int]);
            }
            let ghost rest0 = rest@;
            rest.insert(0, head);
            proof {
                let f = spec_field_filter(children@, i as int);
                assert(f =~= seq![children@[i as int]] + spec_field_filter(
                    children@,
                    i + 1 as int,
                ));
                assert forall|j: int| 0 <= j < rest@.len() implies field_matches(
                    *table,
                    #[trigger] rest@[j],
                    f[j],
                ) by {
                    if j > 0 {
                        assert(rest@[j] == rest0[j - 1]);
                        assert(f[j] == spec_field_filter(children@, i + 1 as int)[j - 1]);
                    }
                }
            }
            Ok(rest)
        } else {
            let r = map_record_fields(table, children, i + 1);
            proof {
                assert(spec_field_filter(children@, i as int) =~= spec_field_filter(
                    children@,
                    i + 1 as int,
                ));
            }
            r
        }
    }
}


fn process_delayed(
    table: &mut Interner,
    children: &Vec<AstNode>,
    i: usize,
    fields: &Vec<crate::decl::CFieldDecl>,
    subrecords: &mut Vec<RecordName>,
    extra_decls: &mut Vec<crate::decl::CDecl>,
) -> (r: Result<(), MapError>)
    requires
        old(table).wf(),
    ensures
        final(table).wf(),
        final(table).extends(*old(table)),
        crate::ident::renames_frozen(*old(table), *final(table)),
        records_appended(old(extra_decls)@, final(extra_decls)@),
        final(subrecords)@.len() >= old(subrecords)@.len(),
        final(subrecords)@.subrange(0, old(subrecords)@.len() as int) == old(subrecords)@,
        match r {
            Ok(()) => {
                &&& forall|x: int|
                    old(subrecords)@.len() <= x < final(subrecords)@.len() ==> (match #[trigger]
                    final(subrecords)@[x] {
                        RecordName::Anonymous(u) => !fields_use(fields@, u@) && exists|k: int|
                            {
                                &&& i <= k < children@.len()
                                &&& (#[trigger] children@[k]).kind
                                    != crate::ast::AstKind::FieldDecl
                                &&& children@[k].is_anonymous
                                &&& children@[k].usr@ == u@
                            },
                        RecordName::Named(_) => false,
                    })
                &&& forall|k: int|
                    i <= k < children@.len() ==> ((#[trigger] children@[k]).kind
                        == crate::ast::AstKind::FieldDecl || children@[k].kind
                        == crate::ast::AstKind::StructDecl || children@[k].kind
                        == crate::ast::AstKind::UnionDecl)
                &&& forall|k: int|
                    {
                        (i <= k < children@.len() && (#[trigger] children@[k]).kind
                            != crate::ast::AstKind::FieldDecl && children@[k].is_anonymous
                            && !fields_use(fields@, children@[k].usr@)) ==> exists|x: int|
                            {
                                &&& old(subrecords)@.len() <= x < final(subrecords)@.len()
                                &&& (match #[trigger] final(subrecords)@[x] {
                                    RecordName::Anonymous(u) => u@ == children@[k].usr@,
                                    RecordName::Named(_) => false,
                                })
                            }
                    }
                &&& final(extra_decls)@.len() == old(extra_decls)@.len() + extras_count_from(
                    children@,
                    i as int,
                )
                &&& forall|k: int|
                    (i <= k < children@.len() && (#[trigger] children@[k]).kind
                        != crate::ast::AstKind::FieldDecl) ==> exists|x: int|
                        {
                            &&& old(extra_decls)@.len() <= x < final(extra_decls)@.len()
                            &&& decl_matches(
                                *final(table),
                                #[trigger] final(extra_decls)@[x],
                                children@[k],
                            )
                        }
            },
            Err(_) => exists|k: int|
                {
                    &&& i <= k < children@.len()
                    &&& (#[trigger] children@[k]).kind != crate::ast::AstKind::FieldDecl
                    &&& !child_map_ok(children@[k])
                },
        },
    decreases children@, 1int, children@.len() - i,
{
    if i >= children.len() {
        return Ok(());
    }
    let child = &children[i];
    if matches!(child.kind, crate::ast::AstKind::FieldDecl) {
        let r = process_delayed(table, children, i + 1, fields, subrecords, extra_decls);
        return r;
    }
    if !matches!(child.kind, crate::ast::AstKind::StructDecl)
        && !matches!(child.kind, crate::ast::AstKind::UnionDecl) {
        proof {
            assert(!child_map_ok(children@[i as int]));
        }
        return Err(
            MapError::UnsupportedConstruct {
                description: String::from_str(
                    "only a struct or union declaration can appear inside another record",
                ),
            },
        );
    }
    let ghost extra_pre = extra_decls@;
    let subdecl = match map_decl(table, child, extra_decls) {
        Ok(d) => d,
        Err(e) => {
            proof {
                assert(!child_map_ok(children@[i as int]));
            }
            return Err(e);
        },
    };
    let ghost t1 = *table;
    let ghost gsub = subdecl;
    let ghost subs0 = subrecords@;
    match subdecl.get_record_decl() {
        Some(rd) => {
            match &rd.name {
                RecordName::Anonymous(usr) => {
                    let used = fields_any_usage(fields, usr.as_str());
                    if !used {
                        subrecords.push(RecordName::Anonymous(usr.clone()));
                    }
                },
                RecordName::Named(_) => {},
            }
        },
        None => {},
    }
    proof {
        assert(children@[i as int].is_anonymous ==> (match subdecl.spec_name() {
            RecordName::Anonymous(u) => u@ == children@[i as int].usr@,
            RecordName::Named(_) => false,
        }));
        assert(subrecords@.subrange(0, subs0.len() as int) =~= subs0);
    }
    let ghost extra0 = extra_decls@;
    extra_decls.push(subdecl);
    let ghost subs1 = subrecords@;
    let ghost extra1 = extra_decls@;
    let r = process_delayed(table, children, i + 1, fields, subrecords, extra_decls);
    proof {
        lemma_records_appended_trans(extra0, extra1, extra_decls@);
        assert(subrecords@.subrange(0, subs1.len() as int) == subs1);
        assert forall|x: int| 0 <= x < subs0.len() implies subrecords@[x] == subs0[x] by {
            assert(subrecords@.subrange(0, subs1.len() as int)[x] == subs1[x]);
            assert(subs1.subrange(0, subs0.len() as int)[x] == subs0[x]);
        }
        assert(subrecords@.subrange(0, subs0.len() as int) =~= subs0);
        match r {
            Ok(()) => {
                assert forall|x: int|
                    subs0.len() <= x < subrecords@.len() implies (match #[trigger] subrecords@[x] {
                    RecordName::Anonymous(u) => !fields_use(fields@, u@) && exists|k: int|
                        {
                            &&& i <= k < children@.len()
                            &&& (#[trigger] children@[k]).kind != crate::ast::AstKind::FieldDecl
                            &&& children@[k].is_anonymous
                            &&& children@[k].usr@ == u@
                        },
                    RecordName::Named(_) => false,
                }) by {
                    if x < subs1.len() {
                        assert(subrecords@.subrange(0, subs1.len() as int)[x] == subs1[x]);
                        assert(subrecords@[x] == subs1[x]);
                        assert(children@[i as int].kind != crate::ast::AstKind::FieldDecl);
                    }
                }
                assert forall|k: int|
                    {
                        (i <= k < children@.len() && (#[trigger] children@[k]).kind
                            != crate::ast::AstKind::FieldDecl && children@[k].is_anonymous
                            && !fields_use(fields@, children@[k].usr@)) ==> exists|x: int|
                            {
                                &&& subs0.len() <= x < subrecords@.len()
                                &&& (match #[trigger] subrecords@[x] {
                                    RecordName::Anonymous(u) => u@ == children@[k].usr@,
                                    RecordName::Named(_) => false,
                                })
                            }
                    } by {
                    if i <= k < children@.len() && children@[k].kind
                        != crate::ast::AstKind::FieldDecl && children@[k].is_anonymous
                        && !fields_use(fields@, children@[k].usr@) {
                        if k == i {
                            assert(subs1.len() == subs0.len() + 1);
                            assert(subrecords@.subrange(0, subs1.len() as int)[subs0.len() as int]
                                == subs1[subs0.len() as int]);
                            assert(subrecords@[subs0.len() as int] == subs1[subs0.len() as int]);
                        }
                    }
                }
                assert(extra_decls@[extra0.len() as int] == gsub) by {
                    assert(extra1[extra0.len() as int] == gsub);
                }
                lemma_decl_matches_mono(t1, *table, gsub, children@[i as int]);
                assert forall|k: int|
                    (i <= k < children@.len() && (#[trigger] children@[k]).kind
                        != crate::ast::AstKind::FieldDecl) implies exists|x: int|
                    {
                        &&& extra_pre.len() <= x < extra_decls@.len()
                        &&& decl_matches(
                            *table,
                            #[trigger] extra_decls@[x],
                            children@[k],
                        )
                    } by {
                    if k == i {
                        assert(extra_pre.len() <= extra0.len() < extra_decls@.len());
                        assert(decl_matches(*table, extra_decls@[extra0.len() as int], children@[i as int]));
                    }
                }
            },
            Err(_) => {},
        }
    }
    r
}


/// Maps a declaration cursor to an IR declaration. Nested anonymous
/// records discovered while mapping a struct or union body are appended to
/// `extra_decls`; a nested record's USR joins the parent's `subrecords`
/// only when no field's type already reaches it.
pub fn map_decl(
    table: &mut Interner,
    node: &AstNode,
    extra_decls: &mut Vec<crate::decl::CDecl>,
) -> (r: Result<crate::decl::CDecl, MapError>)
    requires
        old(table).wf(),
    ensures
        final(table).wf(),
        final(table).extends(*old(table)),
        crate::ident::renames_frozen(*old(table), *final(table)),
        records_appended(old(extra_decls)@, final(extra_decls)@),
        match r {
            Ok(d) => {
                &&& decl_matches(*final(table), d, *node)
                &&& final(extra_decls)@.len() == old(extra_decls)@.len() + spec_extra_count(
                    *node,
                )
                &&& forall|k: int|
                    ((node.kind == crate::ast::AstKind::StructDecl || node.kind
                        == crate::ast::AstKind::UnionDecl) && node.is_definition && 0 <= k
                        < node.children@.len() && (#[trigger] node.children@[k]).kind
                        != crate::ast::AstKind::FieldDecl) ==> exists|x: int|
                        {
                            &&& old(extra_decls)@.len() <= x < final(extra_decls)@.len()
                            &&& decl_matches(
                                *final(table),
                                #[trigger] final(extra_decls)@[x],
                                node.children@[k],
                            )
                        }
            },
            Err(_) => !decl_map_ok(*node),
        },
    decreases *node, 0int, 0int,
{
    match node.kind {
        crate::ast::AstKind::VarDecl => {
            let ty = map_ty(table, &node.ty)?;
            let ghost mid = *table;
            let name = match table.intern(node.spelling.as_str()) {
                Ok(id) => id,
                Err(_) => {
                    return Err(MapError::InvalidName);
                },
            };
            proof {
                lemma_base_corresponds_mono(mid, *table, ty.ty, node.ty);
            }
            Ok(
                crate::decl::CDecl::Var(
                    Box::new(crate::decl::CVarDecl { name, ty }),
                ),
            )
        },
        crate::ast::AstKind::TypedefDecl => {
            let under = match &node.underlying {
                Some(u) => u,
                None => {
                    return Err(
                        MapError::UnsupportedConstruct {
                            description: String::from_str(
                                "typedef cursor without an underlying type",
                            ),
                        },
                    );
                },
            };
            let bare = map_ty(table, under)?;
            let ghost m = bare;
            let ghost mid = *table;
            let mut pos: usize = 0;
            let underlying = enrich_param(table, bare, &node.children, &mut pos)?;
            let ghost mid2 = *table;
            let name = match table.intern(node.spelling.as_str()) {
                Ok(id) => id,
                Err(_) => {
                    return Err(MapError::InvalidName);
                },
            };
            proof {
                lemma_base_corresponds_mono(mid, mid2, m.ty, *under);
                lemma_base_corresponds_mono(mid2, *table, m.ty, *under);
                lemma_enrich_rel_mono(mid2, *table, underlying, m, node.children@, 0);
                assert(ty_corresponds(*table, m, *under) && enrich_rel(
                    *table,
                    underlying,
                    m,
                    node.children@,
                    0,
                ));
            }
            Ok(
                crate::decl::CDecl::Typedef(
                    Box::new(crate::decl::CTypedefDecl { name, underlying }),
                ),
            )
        },
        crate::ast::AstKind::FunctionDecl => {
            let cty = map_ty(table, &node.ty)?;
            let ghost m = cty;
            let ghost mid = *table;
            let parameters = map_parm_children(table, &node.children, 0)?;
            let ghost mid2 = *table;
            let name = match table.intern(node.spelling.as_str()) {
                Ok(id) => id,
                Err(_) => {
                    return Err(MapError::InvalidName);
                },
            };
            proof {
                lemma_base_corresponds_mono(mid, mid2, m.ty, node.ty);
                lemma_base_corresponds_mono(mid2, *table, m.ty, node.ty);
                lemma_corresponds_fun_shape(*table, m, node.ty);
            }
            match cty.ty {
                CBaseType::FunProto(ret, _) => {
                    proof {
                        assert forall|j: int| 0 <= j < parameters@.len() implies param_matches(
                            *table,
                            #[trigger] parameters@[j],
                            spec_parm_filter(node.children@, 0)[j],
                        ) by {
                            lemma_param_matches_mono(
                                mid2,
                                *table,
                                parameters@[j],
                                spec_parm_filter(node.children@, 0)[j],
                            );
                        }
                    }
                    let d = crate::decl::CDecl::Fn(
                        Box::new(crate::decl::CFnDecl { name, ret, parameters }),
                    );
                    proof {
                        assert(ty_corresponds(*table, m, node.ty));
                        assert(m.ty matches CBaseType::FunProto(r, _));
                        assert(decl_matches(*table, d, *node));
                    }
                    Ok(d)
                },
                _ => {
                    proof {
                        assert(!ast_is_fun(node.ty));
                    }
                    Err(
                        MapError::UnsupportedConstruct {
                            description: String::from_str(
                                "function declaration whose type is not a function prototype",
                            ),
                        },
                    )
                },
            }
        },
        crate::ast::AstKind::EnumDecl => {
            let ty = map_ty(table, &node.ty)?;
            let ghost mid = *table;
            let members = map_enum_members(table, &node.children, 0)?;
            let ghost mid2 = *table;
            let name = match table.intern(node.spelling.as_str()) {
                Ok(id) => id,
                Err(_) => {
                    return Err(MapError::InvalidName);
                },
            };
            proof {
                lemma_base_corresponds_mono(mid, mid2, ty.ty, node.ty);
                lemma_base_corresponds_mono(mid2, *table, ty.ty, node.ty);
                assert forall|j: int| 0 <= j < members@.len() implies enum_const_matches(
                    *table,
                    #[trigger] members@[j],
                    node.children@[j],
                ) by {
                    assert(enum_const_matches(mid2, members@[j], node.children@[0 + j]));
                }
            }
            Ok(
                crate::decl::CDecl::Enum(
                    Box::new(crate::decl::CEnumDecl { name, ty, members }),
                ),
            )
        },
        crate::ast::AstKind::StructDecl | crate::ast::AstKind::UnionDecl => {
            let is_struct_kind = matches!(node.kind, crate::ast::AstKind::StructDecl);
            let name = if !node.is_anonymous {
                match table.intern(node.spelling.as_str()) {
                    Ok(id) => RecordName::Named(id),
                    Err(_) => {
                        return Err(MapError::InvalidName);
                    },
                }
            } else {
                RecordName::Anonymous(node.usr.clone())
            };
            let ghost mid1 = *table;
            let ghost gname = name;
            let is_definition = node.is_definition;
            let mut subrecords: Vec<RecordName> = Vec::new();
            if is_definition {
                let fields = match map_record_fields(table, &node.children, 0) {
                    Ok(v) => v,
                    Err(e) => {
                        proof {
                            assert(!children_map_ok(node.children@));
                        }
                        return Err(e);
                    },
                };
                let ghost mid2 = *table;
                match process_delayed(table, &node.children, 0, &fields, &mut subrecords,
                    extra_decls) {
                    Ok(()) => {},
                    Err(e) => {
                        proof {
                            assert(!children_map_ok(node.children@));
                        }
                        return Err(e);
                    },
                }
                proof {
                    assert forall|j: int| 0 <= j < fields@.len() implies field_matches(
                        *table,
                        #[trigger] fields@[j],
                        spec_field_filter(node.children@, 0)[j],
                    ) by {
                        lemma_field_matches_mono(
                            mid2,
                            *table,
                            fields@[j],
                            spec_field_filter(node.children@, 0)[j],
                        );
                    }
                }
                proof {
                    if !node.is_anonymous {
                        match gname {
                            RecordName::Named(id) => {
                                assert(table.holds(id));
                                assert(mid2.text_at(id.idx as int) == mid1.text_at(
                                    id.idx as int,
                                ));
                                assert(table.text_at(id.idx as int) == mid2.text_at(
                                    id.idx as int,
                                ));
                            },
                            RecordName::Anonymous(_) => {},
                        }
                    }
                }
                let decl = crate::decl::CStructDecl { name, fields, is_definition, subrecords };
                proof {
                    assert(record_matches(*table, decl, *node));
                }
                if is_struct_kind {
                    Ok(crate::decl::CDecl::Struct(Box::new(decl)))
                } else {
                    Ok(crate::decl::CDecl::Union(Box::new(decl)))
                }
            } else {
                let decl = crate::decl::CStructDecl {
                    name,
                    fields: Vec::new(),
                    is_definition,
                    subrecords,
                };
                if is_struct_kind {
                    Ok(crate::decl::CDecl::Struct(Box::new(decl)))
                } else {
                    Ok(crate::decl::CDecl::Union(Box::new(decl)))
                }
            }
        },
        _ => {
            let mut description = String::from_str("unknown cursor kind on declaration ");
            description.append(node.spelling.as_str());
            Err(MapError::UnsupportedConstruct { description })
        },
    }
}


/// The escaped text of a character, as the Rust standard library's default
/// escaping produces it.
pub uninterp spec fn spec_escaped_char(c: char) -> Seq<char>;

/// Relies on char::escape_default: the escaped text depends on the
/// character alone.
#[verifier::external_body]
fn escape_char(c: char) -> (r: String)
    ensures
        r@ == spec_escaped_char(c),
{
    c.escape_default().to_string()
}

/// Relies on char::from_u32: a code point is a character exactly when it is
/// not a surrogate and does not exceed the maximum scalar value.
#[verifier::external_body]
fn char_from_codepoint(u: u32) -> (r: Option<char>)
    ensures
        match r {
            Some(c) => c as u32 == u && (u < 0xD800 || (0xE000 <= u && u <= 0x10FFFF)),
            None => (0xD800 <= u && u < 0xE000) || u > 0x10FFFF,
        },
{
    char::from_u32(u)
}

/// An integer literal whose canonical text is the hexadecimal rendering of
/// `value`, with no suffix.
pub fn map_int_literal(value: u64) -> (r: crate::expr::CIntLiteralExpr)
    ensures
        r.value@ == crate::text::spec_hex_literal(value as int),
        r.suffix@ == Seq::<char>::empty(),
{
    crate::expr::CIntLiteralExpr::new(crate::text::hex_literal_string(value))
}

/// The literal type suffix for a primitive type, when the type can carry an
/// evaluated literal.
pub open spec fn spec_suffix_of(p: crate::ty::CPrimitive) -> Option<Seq<char>> {
    match p {
        crate::ty::CPrimitive::Int => Some(Seq::<char>::empty()),
        crate::ty::CPrimitive::UInt => Some("U"@),
        crate::ty::CPrimitive::ULong => Some("UL"@),
        crate::ty::CPrimitive::ULongLong => Some("ULL"@),
        crate::ty::CPrimitive::Long => Some("L"@),
        crate::ty::CPrimitive::LongLong => Some("LL"@),
        crate::ty::CPrimitive::Float => Some("F"@),
        crate::ty::CPrimitive::Double => Some(Seq::<char>::empty()),
        crate::ty::CPrimitive::LongDouble => Some("L"@),
        _ => None,
    }
}

/// The literal type suffix of a mirrored type, when it is a primitive that
/// can carry one.
pub open spec fn spec_ast_suffix(t: AstType) -> Option<Seq<char>> {
    match t.kind {
        AstTypeKind::Primitive(p) => spec_suffix_of(p),
        _ => None,
    }
}

fn get_suffix(t: &AstType) -> (r: Option<&'static str>)
    ensures
        match r {
            Some(sfx) => spec_ast_suffix(*t) == Some(sfx@),
            None => spec_ast_suffix(*t) is None,
        },
{
    proof {
        reveal_strlit("");
    }
    match &t.kind {
        AstTypeKind::Primitive(p) => {
            match p {
                crate::ty::CPrimitive::Int => Some(""),
                crate::ty::CPrimitive::UInt => Some("U"),
                crate::ty::CPrimitive::ULong => Some("UL"),
                crate::ty::CPrimitive::ULongLong => Some("ULL"),
                crate::ty::CPrimitive::Long => Some("L"),
                crate::ty::CPrimitive::LongLong => Some("LL"),
                crate::ty::CPrimitive::Float => Some("F"),
                crate::ty::CPrimitive::Double => Some(""),
                crate::ty::CPrimitive::LongDouble => Some("L"),
                _ => None,
            }
        },
        _ => None,
    }
}

/// The IR binary operator for a front-end operator kind.
pub open spec fn spec_bin_op_of(op: crate::ast::AstBinOp) -> Option<crate::expr::CBinaryOp> {
    match op {
        crate::ast::AstBinOp::Mul => Some(crate::expr::CBinaryOp::Mul),
        crate::ast::AstBinOp::Div => Some(crate::expr::CBinaryOp::Div),
        crate::ast::AstBinOp::Rem => Some(crate::expr::CBinaryOp::Mod),
        crate::ast::AstBinOp::Add => Some(crate::expr::CBinaryOp::Add),
        crate::ast::AstBinOp::Sub => Some(crate::expr::CBinaryOp::Sub),
        crate::ast::AstBinOp::Shl => Some(crate::expr::CBinaryOp::Shl),
        crate::ast::AstBinOp::Shr => Some(crate::expr::CBinaryOp::Shr),
        crate::ast::AstBinOp::Lt => Some(crate::expr::CBinaryOp::Less),
        crate::ast::AstBinOp::Gt => Some(crate::expr::CBinaryOp::Greater),
        crate::ast::AstBinOp::Le => Some(crate::expr::CBinaryOp::LessEq),
        crate::ast::AstBinOp::Ge => Some(crate::expr::CBinaryOp::GreaterEq),
        crate::ast::AstBinOp::Eq => Some(crate::expr::CBinaryOp::Eq),
        crate::ast::AstBinOp::Ne => Some(crate::expr::CBinaryOp::NotEq),
        crate::ast::AstBinOp::And => Some(crate::expr::CBinaryOp::BitAnd),
        crate::ast::AstBinOp::Xor => Some(crate::expr::CBinaryOp::BitXor),
        crate::ast::AstBinOp::Or => Some(crate::expr::CBinaryOp::BitOr),
        crate::ast::AstBinOp::LAnd => Some(crate::expr::CBinaryOp::And),
        crate::ast::AstBinOp::LOr => Some(crate::expr::CBinaryOp::Or),
        crate::ast::AstBinOp::Assign => Some(crate::expr::CBinaryOp::Assign),
        crate::ast::AstBinOp::MulAssign => Some(crate::expr::CBinaryOp::MulAssign),
        crate::ast::AstBinOp::DivAssign => Some(crate::expr::CBinaryOp::DivAssign),
        crate::ast::AstBinOp::RemAssign => Some(crate::expr::CBinaryOp::ModAssign),
        crate::ast::AstBinOp::AddAssign => Some(crate::expr::CBinaryOp::AddAssign),
        crate::ast::AstBinOp::SubAssign => Some(crate::expr::CBinaryOp::SubAssign),
        crate::ast::AstBinOp::ShlAssign => Some(crate::expr::CBinaryOp::ShlAssign),
        crate::ast::AstBinOp::ShrAssign => Some(crate::expr::CBinaryOp::ShrAssign),
        crate::ast::AstBinOp::AndAssign => Some(crate::expr::CBinaryOp::BitAndAssign),
        crate::ast::AstBinOp::XorAssign => Some(crate::expr::CBinaryOp::BitXorAssign),
        crate::ast::AstBinOp::OrAssign => Some(crate::expr::CBinaryOp::BitOrAssign),
        crate::ast::AstBinOp::Comma => Some(crate::expr::CBinaryOp::Comma),
        crate::ast::AstBinOp::Other => None,
    }
}

fn bin_op_of(op: crate::ast::AstBinOp) -> (r: Option<crate::expr::CBinaryOp>)
    ensures
        r == spec_bin_op_of(op),
{
    match op {
        crate::ast::AstBinOp::Mul => Some(crate::expr::CBinaryOp::Mul),
        crate::ast::AstBinOp::Div => Some(crate::expr::CBinaryOp::Div),
        crate::ast::AstBinOp::Rem => Some(crate::expr::CBinaryOp::Mod),
        crate::ast::AstBinOp::Add => Some(crate::expr::CBinaryOp::Add),
        crate::ast::AstBinOp::Sub => Some(crate::expr::CBinaryOp::Sub),
        crate::ast::AstBinOp::Shl => Some(crate::expr::CBinaryOp::Shl),
        crate::ast::AstBinOp::Shr => Some(crate::expr::CBinaryOp::Shr),
        crate::ast::AstBinOp::Lt => Some(crate::expr::CBinaryOp::Less),
        crate::ast::AstBinOp::Gt => Some(crate::expr::CBinaryOp::Greater),
        crate::ast::AstBinOp::Le => Some(crate::expr::CBinaryOp::LessEq),
        crate::ast::AstBinOp::Ge => Some(crate::expr::CBinaryOp::GreaterEq),
        crate::ast::AstBinOp::Eq => Some(crate::expr::CBinaryOp::Eq),
        crate::ast::AstBinOp::Ne => Some(crate::expr::CBinaryOp::NotEq),
        crate::ast::AstBinOp::And => Some(crate::expr::CBinaryOp::BitAnd),
        crate::ast::AstBinOp::Xor => Some(crate::expr::CBinaryOp::BitXor),
        crate::ast::AstBinOp::Or => Some(crate::expr::CBinaryOp::BitOr),
        crate::ast::AstBinOp::LAnd => Some(crate::expr::CBinaryOp::And),
        crate::ast::AstBinOp::LOr => Some(crate::expr::CBinaryOp::Or),
        crate::ast::AstBinOp::Assign => Some(crate::expr::CBinaryOp::Assign),
        crate::ast::AstBinOp::MulAssign => Some(crate::expr::CBinaryOp::MulAssign),
        crate::ast::AstBinOp::DivAssign => Some(crate::expr::CBinaryOp::DivAssign),
        crate::ast::AstBinOp::RemAssign => Some(crate::expr::CBinaryOp::ModAssign),
        crate::ast::AstBinOp::AddAssign => Some(crate::expr::CBinaryOp::AddAssign),
        crate::ast::AstBinOp::SubAssign => Some(crate::expr::CBinaryOp::SubAssign),
        crate::ast::AstBinOp::ShlAssign => Some(crate::expr::CBinaryOp::ShlAssign),
        crate::ast::AstBinOp::ShrAssign => Some(crate::expr::CBinaryOp::ShrAssign),
        crate::ast::AstBinOp::AndAssign => Some(crate::expr::CBinaryOp::BitAndAssign),
        crate::ast::AstBinOp::XorAssign => Some(crate::expr::CBinaryOp::BitXorAssign),
        crate::ast::AstBinOp::OrAssign => Some(crate::expr::CBinaryOp::BitOrAssign),
        crate::ast::AstBinOp::Comma => Some(crate::expr::CBinaryOp::Comma),
        crate::ast::AstBinOp::Other => None,
    }
}


/// The mirrored type mentions no anonymous record.
pub open spec fn ast_no_anon(t: AstType) -> bool
    decreases t,
{
    match t.kind {
        AstTypeKind::Primitive(_) => true,
        AstTypeKind::Pointer(p) => ast_no_anon(*p),
        AstTypeKind::FunctionProto { ret, params } => ast_no_anon(*ret) && forall|i: int|
            0 <= i < params.len() ==> ast_no_anon(#[trigger] params[i]),
        AstTypeKind::FunctionNoProto { ret } => ast_no_anon(*ret),
        AstTypeKind::ConstantArray { element, .. } => ast_no_anon(*element),
        AstTypeKind::IncompleteArray { element } => ast_no_anon(*element),
        AstTypeKind::Elaborated { named } => ast_no_anon(*named),
        AstTypeKind::Record { anonymous, .. } => !anonymous,
        _ => true,
    }
}

/// A corresponding mapped type only mentions table slots the table holds.
pub proof fn lemma_corresponds_ids_ok(it: Interner, b: CBaseType, inp: AstType)
    requires
        base_corresponds(it, b, inp),
    ensures
        crate::ty::base_ids_ok(it, b),
    decreases inp,
{
    match inp.kind {
        AstTypeKind::Pointer(pt) => {
            if let CBaseType::Pointer(o) = b {
                lemma_corresponds_ids_ok(it, o.ty, *pt);
            }
        },
        AstTypeKind::FunctionProto { ret, params } => {
            if let CBaseType::FunProto(oret, oparams) = b {
                lemma_corresponds_ids_ok(it, oret.ty, *ret);
                assert forall|i: int| 0 <= i < oparams.len() implies crate::ty::param_ids_ok(
                    it,
                    #[trigger] oparams[i],
                ) by {
                    assert(base_corresponds(it, oparams@[i].ty.ty, params[i]));
                    lemma_corresponds_ids_ok(it, oparams[i].ty.ty, params[i]);
                }
            }
        },
        AstTypeKind::FunctionNoProto { ret } => {
            if let CBaseType::FunProto(oret, oparams) = b {
                lemma_corresponds_ids_ok(it, oret.ty, *ret);
                assert(oparams@.len() == 0);
            }
        },
        AstTypeKind::ConstantArray { element, .. } => {
            if let CBaseType::Array(oe, _) = b {
                lemma_corresponds_ids_ok(it, oe.ty, *element);
            }
        },
        AstTypeKind::IncompleteArray { element } => {
            if let CBaseType::Array(oe, _) = b {
                lemma_corresponds_ids_ok(it, oe.ty, *element);
            }
        },
        AstTypeKind::Elaborated { named } => {
            lemma_corresponds_ids_ok(it, b, *named);
        },
        _ => {},
    }
}

/// A mapped expression corresponds to its cursor: literals carry their
/// evaluated canonical text (hexadecimal for integers) and type suffix,
/// every other form is preserved structurally, and an unexposed wrapper is
/// transparent.
pub open spec fn expr_matches(it: Interner, e: crate::expr::CExpr, node: AstNode) -> bool
    decreases node, 0int,
{
    match node.kind {
        crate::ast::AstKind::IntegerLiteral => (match node.eval {
            crate::ast::AstEval::Int { bits, .. } => e matches crate::expr::CExpr::IntLiteral(l)
                && l.value@ == crate::text::spec_hex_literal(bits as int) && Some(l.suffix@)
                == spec_ast_suffix(node.ty),
            _ => false,
        }),
        crate::ast::AstKind::CharacterLiteral => (match node.eval {
            crate::ast::AstEval::Int { bits, .. } => e matches crate::expr::CExpr::CharLiteral(
                c,
            ) && exists|ch: char| ch as u32 == bits as u32 && c.value@ == spec_escaped_char(ch),
            _ => false,
        }),
        crate::ast::AstKind::DeclRefExpr => e matches crate::expr::CExpr::Identifier(i)
            && it.holds(i.ident) && it.text_at(i.ident.idx as int) == node.display@,
        crate::ast::AstKind::ArraySubscriptExpr => node.children@.len() == 2 && (e matches
        crate::expr::CExpr::Index(ix) && expr_matches(it, ix.base, node.children@[0])
            && expr_matches(it, ix.index, node.children@[1])),
        crate::ast::AstKind::CallExpr => node.children@.len() >= 1 && (e matches
        crate::expr::CExpr::Call(c) && expr_matches(it, c.callee, node.children@[0])
            && c.args@.len() == node.children@.len() - 1 && forall|j: int|
            0 <= j < c.args@.len() ==> expr_matches(
                it,
                #[trigger] c.args@[j],
                node.children@[j + 1],
            )),
        crate::ast::AstKind::MemberRefExpr => node.children@.len() == 1 && (e matches
        crate::expr::CExpr::Member(m) && it.holds(m.member) && it.text_at(m.member.idx as int)
            == node.display@ && expr_matches(it, m.obj, node.children@[0])),
        crate::ast::AstKind::UnaryOperator => node.children@.len() == 1 && (match node.unary_op {
            crate::ast::AstUnaryOp::PostInc => e matches crate::expr::CExpr::PostfixIncDec(p)
                && p.op == crate::expr::CPostfixIncDecOp::Inc && expr_matches(
                it,
                p.expr,
                node.children@[0],
            ),
            crate::ast::AstUnaryOp::PostDec => e matches crate::expr::CExpr::PostfixIncDec(p)
                && p.op == crate::expr::CPostfixIncDecOp::Dec && expr_matches(
                it,
                p.expr,
                node.children@[0],
            ),
            crate::ast::AstUnaryOp::Other => false,
            _ => e matches crate::expr::CExpr::Unary(u) && Some(u.op) == spec_unary_op_of(
                node.unary_op,
            ) && expr_matches(it, u.expr, node.children@[0]),
        }),
        crate::ast::AstKind::CStyleCastExpr => node.children@.len() == 1 && (e matches
        crate::expr::CExpr::Cast(c) && expr_matches(it, c.expr, node.children@[0]) && (c.ty
            matches crate::expr::CExpr::Identifier(ie) && it.holds(ie.ident) && exists|m: CType|
            {
                &&& #[trigger] ty_corresponds(it, m, node.ty)
                &&& it.text_at(ie.ident.idx as int) == crate::ty::spec_type_text(it, m)
            })),
        crate::ast::AstKind::BinaryOperator | crate::ast::AstKind::CompoundAssignOperator => node
            .children@.len() == 2 && (e matches crate::expr::CExpr::Binary(b) && Some(b.op)
            == spec_bin_op_of(node.bin_op) && expr_matches(it, b.lhs, node.children@[0])
            && expr_matches(it, b.rhs, node.children@[1])),
        crate::ast::AstKind::ConditionalOperator => node.children@.len() == 3 && (e matches
        crate::expr::CExpr::Conditional(c) && expr_matches(it, c.cond, node.children@[0])
            && expr_matches(it, c.then_branch, node.children@[1]) && expr_matches(
            it,
            c.otherwise,
            node.children@[2],
        )),
        crate::ast::AstKind::ParenExpr => node.children@.len() == 1 && (e matches
        crate::expr::CExpr::Paren(p) && expr_matches(it, p.expr, node.children@[0])),
        crate::ast::AstKind::UnexposedExpr => node.children@.len() == 1 && expr_matches(
            it,
            e,
            node.children@[0],
        ),
        _ => false,
    }
}

/// The prefix unary operator for a front-end operator kind that maps to a
/// plain unary expression.
pub open spec fn spec_unary_op_of(op: crate::ast::AstUnaryOp) -> Option<crate::expr::CUnaryOp> {
    match op {
        crate::ast::AstUnaryOp::PreInc => Some(crate::expr::CUnaryOp::Inc),
        crate::ast::AstUnaryOp::PreDec => Some(crate::expr::CUnaryOp::Dec),
        crate::ast::AstUnaryOp::AddrOf => Some(crate::expr::CUnaryOp::AddrOf),
        crate::ast::AstUnaryOp::Deref => Some(crate::expr::CUnaryOp::Deref),
        crate::ast::AstUnaryOp::Plus => Some(crate::expr::CUnaryOp::Plus),
        crate::ast::AstUnaryOp::Minus => Some(crate::expr::CUnaryOp::Minus),
        crate::ast::AstUnaryOp::Not => Some(crate::expr::CUnaryOp::BitNot),
        crate::ast::AstUnaryOp::LNot => Some(crate::expr::CUnaryOp::Not),
        _ => None,
    }
}

/// Whether mapping this expression cursor is promised to succeed. A
/// cast's promise additionally needs its type free of anonymous records:
/// only a rendered anonymous reference can put the reserved separator into
/// the text the cast's type interns as.
pub open spec fn expr_map_ok(node: AstNode) -> bool
    decreases node, 1int,
{
    match node.kind {
        crate::ast::AstKind::IntegerLiteral => node.eval is Int && spec_ast_suffix(
            node.ty,
        ) is Some,
        crate::ast::AstKind::CharacterLiteral => (match node.eval {
            crate::ast::AstEval::Int { bits, .. } => (bits as u32) < 0xD800 || (0xE000 <= (
            bits as u32) && (bits as u32) <= 0x10FFFF),
            _ => false,
        }),
        crate::ast::AstKind::DeclRefExpr => !has_sep(node.display@),
        crate::ast::AstKind::ArraySubscriptExpr => node.children@.len() == 2 && expr_map_ok(
            node.children@[0],
        ) && expr_map_ok(node.children@[1]),
        crate::ast::AstKind::CallExpr => node.children@.len() >= 1 && forall|j: int|
            0 <= j < node.children@.len() ==> expr_map_ok(#[trigger] node.children@[j]),
        crate::ast::AstKind::MemberRefExpr => node.children@.len() == 1 && !has_sep(
            node.display@,
        ) && expr_map_ok(node.children@[0]),
        crate::ast::AstKind::UnaryOperator => node.children@.len() == 1 && node.unary_op
            != crate::ast::AstUnaryOp::Other && expr_map_ok(node.children@[0]),
        crate::ast::AstKind::CStyleCastExpr => node.children@.len() == 1 && map_ty_ok(
            node.ty,
        ) && ast_no_anon(node.ty) && expr_map_ok(node.children@[0]),
        crate::ast::AstKind::BinaryOperator | crate::ast::AstKind::CompoundAssignOperator => node
            .children@.len() == 2 && node.bin_op != crate::ast::AstBinOp::Other && expr_map_ok(
            node.children@[0],
        ) && expr_map_ok(node.children@[1]),
        crate::ast::AstKind::ConditionalOperator => node.children@.len() == 3 && expr_map_ok(
            node.children@[0],
        ) && expr_map_ok(node.children@[1]) && expr_map_ok(node.children@[2]),
        crate::ast::AstKind::ParenExpr => node.children@.len() == 1 && expr_map_ok(
            node.children@[0],
        ),
        crate::ast::AstKind::UnexposedExpr => node.children@.len() == 1 && expr_map_ok(
            node.children@[0],
        ),
        _ => false,
    }
}

/// Expression correspondence mentions only slots the table already has, so
/// it survives later interning.
pub proof fn lemma_expr_matches_mono(
    it1: Interner,
    it2: Interner,
    e: crate::expr::CExpr,
    node: AstNode,
)
    requires
        it2.extends(it1),
        crate::ident::renames_frozen(it1, it2),
        expr_matches(it1, e, node),
    ensures
        expr_matches(it2, e, node),
    decreases node, 0int,
{
    match node.kind {
        crate::ast::AstKind::ArraySubscriptExpr => {
            if let crate::expr::CExpr::Index(ix) = e {
                lemma_expr_matches_mono(it1, it2, ix.base, node.children@[0]);
                lemma_expr_matches_mono(it1, it2, ix.index, node.children@[1]);
            }
        },
        crate::ast::AstKind::CallExpr => {
            if let crate::expr::CExpr::Call(c) = e {
                lemma_expr_matches_mono(it1, it2, c.callee, node.children@[0]);
                assert forall|j: int| 0 <= j < c.args@.len() implies expr_matches(
                    it2,
                    #[trigger] c.args@[j],
                    node.children@[j + 1],
                ) by {
                    lemma_expr_matches_mono(it1, it2, c.args@[j], node.children@[j + 1]);
                }
            }
        },
        crate::ast::AstKind::MemberRefExpr => {
            if let crate::expr::CExpr::Member(m) = e {
                lemma_expr_matches_mono(it1, it2, m.obj, node.children@[0]);
            }
        },
        crate::ast::AstKind::UnaryOperator => {
            match e {
                crate::expr::CExpr::PostfixIncDec(p) => {
                    lemma_expr_matches_mono(it1, it2, p.expr, node.children@[0]);
                },
                crate::expr::CExpr::Unary(u) => {
                    lemma_expr_matches_mono(it1, it2, u.expr, node.children@[0]);
                },
                _ => {},
            }
        },
        crate::ast::AstKind::CStyleCastExpr => {
            if let crate::expr::CExpr::Cast(c) = e {
                lemma_expr_matches_mono(it1, it2, c.expr, node.children@[0]);
                if let crate::expr::CExpr::Identifier(ie) = c.ty {
                    let m = choose|m: CType|
                        {
                            &&& #[trigger] ty_corresponds(it1, m, node.ty)
                            &&& it1.text_at(ie.ident.idx as int) == crate::ty::spec_type_text(
                                it1,
                                m,
                            )
                        };
                    lemma_base_corresponds_mono(it1, it2, m.ty, node.ty);
                    lemma_corresponds_ids_ok(it1, m.ty, node.ty);
                    crate::ty::lemma_base_text_mono(it1, it2, m.ty, m.is_const);
                    assert(ty_corresponds(it2, m, node.ty) && it2.text_at(ie.ident.idx as int)
                        == crate::ty::spec_type_text(it2, m));
                }
            }
        },
        crate::ast::AstKind::BinaryOperator | crate::ast::AstKind::CompoundAssignOperator => {
            if let crate::expr::CExpr::Binary(b) = e {
                lemma_expr_matches_mono(it1, it2, b.lhs, node.children@[0]);
                lemma_expr_matches_mono(it1, it2, b.rhs, node.children@[1]);
            }
        },
        crate::ast::AstKind::ConditionalOperator => {
            if let crate::expr::CExpr::Conditional(c) = e {
                lemma_expr_matches_mono(it1, it2, c.cond, node.children@[0]);
                lemma_expr_matches_mono(it1, it2, c.then_branch, node.children@[1]);
                lemma_expr_matches_mono(it1, it2, c.otherwise, node.children@[2]);
            }
        },
        crate::ast::AstKind::ParenExpr => {
            if let crate::expr::CExpr::Paren(p) = e {
                lemma_expr_matches_mono(it1, it2, p.expr, node.children@[0]);
            }
        },
        crate::ast::AstKind::UnexposedExpr => {
            if node.children@.len() == 1 {
                lemma_expr_matches_mono(it1, it2, e, node.children@[0]);
            }
        },
        _ => {},
    }
}


/// Maps an expression cursor to an IR expression.
#[verifier::rlimit(100)]
#[verifier::spinoff_prover]
pub fn map_expr(table: &mut Interner, node: &AstNode) -> (r: Result<crate::expr::CExpr, MapError>)
    requires
        old(table).wf(),
    ensures
        final(table).wf(),
        final(table).extends(*old(table)),
        crate::ident::renames_frozen(*old(table), *final(table)),
        match r {
            Ok(e) => expr_matches(*final(table), e, *node),
            Err(_) => !expr_map_ok(*node),
        },
    decreases *node, 0int, 1int,
{
    match node.kind {
        crate::ast::AstKind::IntegerLiteral => {
            match &node.eval {
                crate::ast::AstEval::Int { bits, .. } => {
                    let suffix = match get_suffix(&node.ty) {
                        Some(sfx) => sfx,
                        None => {
                            return Err(MapError::LiteralEvalError);
                        },
                    };
                    Ok(
                        crate::expr::CExpr::IntLiteral(
                            Box::new(
                                crate::expr::CIntLiteralExpr {
                                    value: crate::text::hex_literal_string(*bits),
                                    suffix: String::from_str(suffix),
                                },
                            ),
                        ),
                    )
                },
                _ => Err(MapError::LiteralEvalError),
            }
        },
        crate::ast::AstKind::CharacterLiteral => {
            match &node.eval {
                crate::ast::AstEval::Int { bits, .. } => {
                    let cp = *bits as u32;
                    match char_from_codepoint(cp) {
                        Some(c) => Ok(
                            crate::expr::CExpr::CharLiteral(
                                Box::new(
                                    crate::expr::CCharLiteralExpr { value: escape_char(c) },
                                ),
                            ),
                        ),
                        None => Err(MapError::LiteralEvalError),
                    }
                },
                _ => Err(MapError::LiteralEvalError),
            }
        },
        crate::ast::AstKind::DeclRefExpr => {
            match table.intern(node.display.as_str()) {
                Ok(id) => Ok(crate::expr::CExpr::identifier(id)),
                Err(_) => Err(MapError::InvalidName),
            }
        },
        crate::ast::AstKind::ArraySubscriptExpr => {
            if node.children.len() != 2 {
                return Err(
                    MapError::UnsupportedConstruct {
                        description: String::from_str(
                            "array subscript without exactly two operands",
                        ),
                    },
                );
            }
            let base = map_expr(table, &node.children[0])?;
            let ghost mid = *table;
            let index = map_expr(table, &node.children[1])?;
            proof {
                lemma_expr_matches_mono(mid, *table, base, node.children@[0]);
            }
            Ok(crate::expr::CExpr::Index(Box::new(crate::expr::CIndexExpr { base, index })))
        },
        crate::ast::AstKind::CallExpr => {
            if node.children.len() == 0 {
                return Err(
                    MapError::UnsupportedConstruct {
                        description: String::from_str("call without a callee"),
                    },
                );
            }
            let callee = map_expr(table, &node.children[0])?;
            let ghost mid = *table;
            let args = map_expr_args(table, &node.children, 1)?;
            proof {
                lemma_expr_matches_mono(mid, *table, callee, node.children@[0]);
            }
            Ok(crate::expr::CExpr::Call(Box::new(crate::expr::CCallExpr { callee, args })))
        },
        crate::ast::AstKind::MemberRefExpr => {
            if node.children.len() != 1 {
                return Err(
                    MapError::UnsupportedConstruct {
                        description: String::from_str(
                            "member reference without exactly one object",
                        ),
                    },
                );
            }
            let member = match table.intern(node.display.as_str()) {
                Ok(id) => id,
                Err(_) => {
                    return Err(MapError::InvalidName);
                },
            };
            let obj = map_expr(table, &node.children[0])?;
            Ok(crate::expr::CExpr::Member(Box::new(crate::expr::CMemberExpr { obj, member })))
        },
        crate::ast::AstKind::UnaryOperator => map_expr_unary(table, node),
        crate::ast::AstKind::CStyleCastExpr => map_expr_cast(table, node),
        crate::ast::AstKind::BinaryOperator | crate::ast::AstKind::CompoundAssignOperator => {
            let op = match bin_op_of(node.bin_op) {
                Some(op) => op,
                None => {
                    return Err(
                        MapError::UnsupportedConstruct {
                            description: String::from_str("unhandled binary operator"),
                        },
                    );
                },
            };
            if node.children.len() != 2 {
                return Err(
                    MapError::UnsupportedConstruct {
                        description: String::from_str(
                            "binary operator without exactly two operands",
                        ),
                    },
                );
            }
            let lhs = map_expr(table, &node.children[0])?;
            let ghost mid = *table;
            let rhs = map_expr(table, &node.children[1])?;
            proof {
                lemma_expr_matches_mono(mid, *table, lhs, node.children@[0]);
            }
            Ok(crate::expr::CExpr::Binary(Box::new(crate::expr::CBinaryExpr { op, lhs, rhs })))
        },
        crate::ast::AstKind::ConditionalOperator => {
            if node.children.len() != 3 {
                return Err(
                    MapError::UnsupportedConstruct {
                        description: String::from_str(
                            "conditional without exactly three operands",
                        ),
                    },
                );
            }
            let cond = map_expr(table, &node.children[0])?;
            let ghost mid1 = *table;
            let then_branch = map_expr(table, &node.children[1])?;
            let ghost mid2 = *table;
            let otherwise = map_expr(table, &node.children[2])?;
            proof {
                lemma_expr_matches_mono(mid1, mid2, cond, node.children@[0]);
                lemma_expr_matches_mono(mid2, *table, cond, node.children@[0]);
                lemma_expr_matches_mono(mid2, *table, then_branch, node.children@[1]);
            }
            Ok(
                crate::expr::CExpr::Conditional(
                    Box::new(
                        crate::expr::CConditionalExpr { cond, then_branch, otherwise },
                    ),
                ),
            )
        },
        crate::ast::AstKind::ParenExpr => {
            if node.children.len() != 1 {
                return Err(
                    MapError::UnsupportedConstruct {
                        description: String::from_str(
                            "parenthesized expression without exactly one operand",
                        ),
                    },
                );
            }
            let expr = map_expr(table, &node.children[0])?;
            Ok(crate::expr::CExpr::Paren(Box::new(crate::expr::CParenExpr { expr })))
        },
        crate::ast::AstKind::UnexposedExpr => {
            if node.children.len() != 1 {
                return Err(
                    MapError::UnsupportedConstruct {
                        description: String::from_str(
                            "unexposed expression without exactly one operand",
                        ),
                    },
                );
            }
            let inner = map_expr(table, &node.children[0])?;
            Ok(inner)
        },
        _ => Err(
            MapError::UnsupportedConstruct {
                description: String::from_str("cursor does not point to an expression"),
            },
        ),
    }
}

fn map_expr_args(table: &mut Interner, children: &Vec<AstNode>, i: usize) -> (r: Result<
    Vec<crate::expr::CExpr>,
    MapError,
>)
    requires
        old(table).wf(),
        1 <= i <= children@.len(),
    ensures
        final(table).wf(),
        final(table).extends(*old(table)),
        crate::ident::renames_frozen(*old(table), *final(table)),
        match r {
            Ok(v) => v@.len() == children@.len() - i && forall|j: int|
                0 <= j < v@.len() ==> expr_matches(
                    *final(table),
                    #[trigger] v@[j],
                    children@[i + j],
                ),
            Err(_) => exists|k: int|
                i <= k < children@.len() && !expr_map_ok(#[trigger] children@[k]),
        },
    decreases children@, 1int, children@.len() - i,
{
    if i == children.len() {
        Ok(Vec::new())
    } else {
        let head = map_expr(table, &children[i])?;
        let ghost mid = *table;
        let mut rest = map_expr_args(table, children, i + 1)?;
        proof {
            lemma_expr_matches_mono(mid, *table, head, children@[i as int]);
        }
        let ghost rest0 = rest@;
        rest.insert(0, head);
        proof {
            assert forall|j: int| 0 <= j < rest@.len() implies expr_matches(
                *table,
                #[trigger] rest@[j],
                children@[i + j],
            ) by {
                if j > 0 {
                    assert(rest@[j] == rest0[j - 1]);
                } else {
                    assert(rest@[0] == head);
                }
            }
        }
        Ok(rest)
    }
}


fn map_expr_unary(table: &mut Interner, node: &AstNode) -> (r: Result<crate::expr::CExpr, MapError>)
    requires
        old(table).wf(),
        node.kind == crate::ast::AstKind::UnaryOperator,
    ensures
        final(table).wf(),
        final(table).extends(*old(table)),
        crate::ident::renames_frozen(*old(table), *final(table)),
        match r {
            Ok(e) => expr_matches(*final(table), e, *node),
            Err(_) => !expr_map_ok(*node),
        },
    decreases *node, 0int, 0int,
{
            if node.children.len() != 1 {
                return Err(
                    MapError::UnsupportedConstruct {
                        description: String::from_str(
                            "unary operator without exactly one operand",
                        ),
                    },
                );
            }
            let expr = map_expr(table, &node.children[0])?;
            match node.unary_op {
                crate::ast::AstUnaryOp::PostInc => Ok(
                    crate::expr::CExpr::PostfixIncDec(
                        Box::new(
                            crate::expr::CPostfixIncDecExpr {
                                expr,
                                op: crate::expr::CPostfixIncDecOp::Inc,
                            },
                        ),
                    ),
                ),
                crate::ast::AstUnaryOp::PostDec => Ok(
                    crate::expr::CExpr::PostfixIncDec(
                        Box::new(
                            crate::expr::CPostfixIncDecExpr {
                                expr,
                                op: crate::expr::CPostfixIncDecOp::Dec,
                            },
                        ),
                    ),
                ),
                crate::ast::AstUnaryOp::PreInc => Ok(
                    crate::expr::CExpr::Unary(
                        Box::new(
                            crate::expr::CUnaryExpr { expr, op: crate::expr::CUnaryOp::Inc },
                        ),
                    ),
                ),
                crate::ast::AstUnaryOp::PreDec => Ok(
                    crate::expr::CExpr::Unary(
                        Box::new(
                            crate::expr::CUnaryExpr { expr, op: crate::expr::CUnaryOp::Dec },
                        ),
                    ),
                ),
                crate::ast::AstUnaryOp::AddrOf => Ok(
                    crate::expr::CExpr::Unary(
                        Box::new(
                            crate::expr::CUnaryExpr {
                                expr,
                                op: crate::expr::CUnaryOp::AddrOf,
                            },
                        ),
                    ),
                ),
                crate::ast::AstUnaryOp::Deref => Ok(
                    crate::expr::CExpr::Unary(
                        Box::new(
                            crate::expr::CUnaryExpr { expr, op: crate::expr::CUnaryOp::Deref },
                        ),
                    ),
                ),
                crate::ast::AstUnaryOp::Plus => Ok(
                    crate::expr::CExpr::Unary(
                        Box::new(
                            crate::expr::CUnaryExpr { expr, op: crate::expr::CUnaryOp::Plus },
                        ),
                    ),
                ),
                crate::ast::AstUnaryOp::Minus => Ok(
                    crate::expr::CExpr::Unary(
                        Box::new(
                            crate::expr::CUnaryExpr { expr, op: crate::expr::CUnaryOp::Minus },
                        ),
                    ),
                ),
                crate::ast::AstUnaryOp::Not => Ok(
                    crate::expr::CExpr::Unary(
                        Box::new(
                            crate::expr::CUnaryExpr {
                                expr,
                                op: crate::expr::CUnaryOp::BitNot,
                            },
                        ),
                    ),
                ),
                crate::ast::AstUnaryOp::LNot => Ok(
                    crate::expr::CExpr::Unary(
                        Box::new(
                            crate::expr::CUnaryExpr { expr, op: crate::expr::CUnaryOp::Not },
                        ),
                    ),
                ),
                crate::ast::AstUnaryOp::Other => Err(
                    MapError::UnsupportedConstruct {
                        description: String::from_str("unhandled unary operator"),
                    },
                ),
            }
}

#[verifier::rlimit(100)]
fn map_expr_cast(table: &mut Interner, node: &AstNode) -> (r: Result<crate::expr::CExpr, MapError>)
    requires
        old(table).wf(),
        node.kind == crate::ast::AstKind::CStyleCastExpr,
    ensures
        final(table).wf(),
        final(table).extends(*old(table)),
        crate::ident::renames_frozen(*old(table), *final(table)),
        match r {
            Ok(e) => expr_matches(*final(table), e, *node),
            Err(_) => !expr_map_ok(*node),
        },
    decreases *node, 0int, 0int,
{
            if node.children.len() != 1 {
                return Err(
                    MapError::UnsupportedConstruct {
                        description: String::from_str("cast without exactly one operand"),
                    },
                );
            }
            let expr = map_expr(table, &node.children[0])?;
            let ghost mid0 = *table;
            let cty = map_ty(table, &node.ty)?;
            let ghost m = cty;
            let ghost mid = *table;
            proof {
                lemma_corresponds_ids_ok(*table, cty.ty, node.ty);
            }
            let text = cty.fmt(table);
            let id = match table.intern(text.as_str()) {
                Ok(id) => id,
                Err(_) => {
                    proof {
                        if ast_no_anon(node.ty) {
                            lemma_corresponds_no_anon(mid, m.ty, node.ty);
                            crate::ty::lemma_base_text_sep_free(mid, m.ty, m.is_const);
                            assert(false);
                        }
                    }
                    return Err(MapError::InvalidName);
                },
            };
            proof {
                lemma_expr_matches_mono(mid0, mid, expr, node.children@[0]);
                lemma_expr_matches_mono(mid, *table, expr, node.children@[0]);
                lemma_base_corresponds_mono(mid, *table, m.ty, node.ty);
                lemma_corresponds_ids_ok(mid, m.ty, node.ty);
                crate::ty::lemma_base_text_mono(mid, *table, m.ty, m.is_const);
                assert(ty_corresponds(*table, m, node.ty) && table.text_at(id.idx as int)
                    == crate::ty::spec_type_text(*table, m));
            }
            Ok(
                crate::expr::CExpr::Cast(
                    Box::new(
                        crate::expr::CCastExpr { expr, ty: crate::expr::CExpr::identifier(id) },
                    ),
                ),
            )
}


/// Declaration correspondence mentions only slots the table already has,
/// so it survives later interning.
pub proof fn lemma_decl_matches_mono(
    it1: Interner,
    it2: Interner,
    d: crate::decl::CDecl,
    node: AstNode,
)
    requires
        it2.extends(it1),
        decl_matches(it1, d, node),
    ensures
        decl_matches(it2, d, node),
{
    match node.kind {
        crate::ast::AstKind::VarDecl => {
            if let crate::decl::CDecl::Var(vd) = d {
                lemma_base_corresponds_mono(it1, it2, vd.ty.ty, node.ty);
            }
        },
        crate::ast::AstKind::TypedefDecl => {
            if let crate::decl::CDecl::Typedef(td) = d {
                if let Some(u) = node.underlying {
                    let m = choose|m: CType|
                        {
                            &&& #[trigger] ty_corresponds(it1, m, u)
                            &&& enrich_rel(it1, td.underlying, m, node.children@, 0)
                        };
                    lemma_base_corresponds_mono(it1, it2, m.ty, u);
                    lemma_enrich_rel_mono(it1, it2, td.underlying, m, node.children@, 0);
                    assert(ty_corresponds(it2, m, u) && enrich_rel(
                        it2,
                        td.underlying,
                        m,
                        node.children@,
                        0,
                    ));
                }
            }
        },
        crate::ast::AstKind::FunctionDecl => {
            if let crate::decl::CDecl::Fn(fd) = d {
                let m = choose|m: CType|
                    {
                        &&& #[trigger] ty_corresponds(it1, m, node.ty)
                        &&& m.ty matches CBaseType::FunProto(r, _) && *fd.ret == *r
                    };
                lemma_base_corresponds_mono(it1, it2, m.ty, node.ty);
                assert(ty_corresponds(it2, m, node.ty));
                let pnodes = spec_parm_filter(node.children@, 0);
                assert forall|i: int| 0 <= i < pnodes.len() implies param_matches(
                    it2,
                    #[trigger] fd.parameters@[i],
                    pnodes[i],
                ) by {
                    lemma_param_matches_mono(it1, it2, fd.parameters@[i], pnodes[i]);
                }
            }
        },
        crate::ast::AstKind::EnumDecl => {
            if let crate::decl::CDecl::Enum(ed) = d {
                lemma_base_corresponds_mono(it1, it2, ed.ty.ty, node.ty);
            }
        },
        crate::ast::AstKind::StructDecl => {
            if let crate::decl::CDecl::Struct(rd) = d {
                lemma_record_matches_mono(it1, it2, *rd, node);
            }
        },
        crate::ast::AstKind::UnionDecl => {
            if let crate::decl::CDecl::Union(rd) = d {
                lemma_record_matches_mono(it1, it2, *rd, node);
            }
        },
        _ => {},
    }
}

proof fn lemma_record_matches_mono(
    it1: Interner,
    it2: Interner,
    rd: crate::decl::CStructDecl,
    node: AstNode,
)
    requires
        it2.extends(it1),
        record_matches(it1, rd, node),
    ensures
        record_matches(it2, rd, node),
{
    let fnodes = spec_field_filter(node.children@, 0);
    if node.is_definition {
        assert forall|i: int| 0 <= i < fnodes.len() implies field_matches(
            it2,
            #[trigger] rd.fields@[i],
            fnodes[i],
        ) by {
            lemma_field_matches_mono(it1, it2, rd.fields@[i], fnodes[i]);
        }
    }
}

/// How many extra declarations mapping this cursor appends: one per nested
/// record of a definition, recursively.
pub open spec fn spec_extra_count(node: AstNode) -> nat
    decreases node, 0int, 0int,
{
    match node.kind {
        crate::ast::AstKind::StructDecl | crate::ast::AstKind::UnionDecl => if node.is_definition {
            extras_count_from(node.children@, 0)
        } else {
            0
        },
        _ => 0,
    }
}

/// How many extra declarations the non-field children from position `i`
/// on contribute.
pub open spec fn extras_count_from(children: Seq<AstNode>, i: int) -> nat
    decreases children, 1int, children.len() - i,
{
    if i < 0 || i >= children.len() {
        0
    } else {
        (if children[i].kind == crate::ast::AstKind::FieldDecl {
            0
        } else {
            1 + spec_extra_count(children[i])
        }) + extras_count_from(children, i + 1)
    }
}


/// A corresponding mapped type holds an anonymous record exactly where the
/// mirrored type does.
pub proof fn lemma_corresponds_no_anon(it: Interner, b: CBaseType, inp: AstType)
    requires
        base_corresponds(it, b, inp),
        ast_no_anon(inp),
    ensures
        crate::ty::base_no_anon(b),
    decreases inp,
{
    match inp.kind {
        AstTypeKind::Pointer(pt) => {
            if let CBaseType::Pointer(o) = b {
                lemma_corresponds_no_anon(it, o.ty, *pt);
            }
        },
        AstTypeKind::FunctionProto { ret, params } => {
            if let CBaseType::FunProto(oret, oparams) = b {
                lemma_corresponds_no_anon(it, oret.ty, *ret);
                assert forall|i: int|
                    0 <= i < oparams.len() implies crate::ty::base_no_anon(
                    (#[trigger] oparams[i]).ty.ty,
                ) by {
                    assert(base_corresponds(it, oparams@[i].ty.ty, params[i]));
                    lemma_corresponds_no_anon(it, oparams[i].ty.ty, params[i]);
                }
            }
        },
        AstTypeKind::FunctionNoProto { ret } => {
            if let CBaseType::FunProto(oret, oparams) = b {
                lemma_corresponds_no_anon(it, oret.ty, *ret);
                assert(oparams@.len() == 0);
            }
        },
        AstTypeKind::ConstantArray { element, .. } => {
            if let CBaseType::Array(oe, _) = b {
                lemma_corresponds_no_anon(it, oe.ty, *element);
            }
        },
        AstTypeKind::IncompleteArray { element } => {
            if let CBaseType::Array(oe, _) = b {
                lemma_corresponds_no_anon(it, oe.ty, *element);
            }
        },
        AstTypeKind::Elaborated { named } => {
            lemma_corresponds_no_anon(it, b, *named);
        },
        _ => {},
    }
}

} // verus!

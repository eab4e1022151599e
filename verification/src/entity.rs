//! Registry entities: the classified, serializable forms of declarations.
//! Every entity carries its name, a metadata table, documentation lines
//! and an optional platform constraint.

use vstd::prelude::*;

use crate::expr::CExpr;
use crate::ident::Identifier;
use crate::metadata::Metadata;
use crate::platform::Platform;
use crate::rawtype::Type;

verus! {

/// Anything that carries entity metadata.
pub trait Entity {
    /// The metadata table.
    spec fn spec_metadata(&self) -> Seq<(String, Metadata)>;

    /// The metadata table.
    fn entity_metadata(&self) -> (r: &Vec<(String, Metadata)>)
        ensures
            r@ == self.spec_metadata(),
    ;
}

/// The width of a bitmask.
#[derive(Clone, Copy, PartialEq, Eq, Structural, Debug)]
pub enum Bitwidth {
    Bit32,
    Bit64,
}

/// The shared base shape of an entity.
#[derive(Debug)]
pub struct EntityBase {
    pub name: Identifier,
    pub metadata: Vec<(String, Metadata)>,
    pub doc: Vec<String>,
    pub platform: Option<Platform>,
}

impl EntityBase {
    /// A fresh entity with empty metadata, no documentation and no
    /// platform constraint.
    pub fn new(name: Identifier) -> (r: EntityBase)
        ensures
            r.name == name,
            r.metadata@.len() == 0,
            r.doc@.len() == 0,
            r.platform is None,
    {
        EntityBase {
            name,
            metadata: Vec::new(),
            doc: Vec::new(),
            platform: None,
        }
    }
}

impl Entity for EntityBase {
    open spec fn spec_metadata(&self) -> Seq<(String, Metadata)> {
        self.metadata@
    }

    fn entity_metadata(&self) -> (r: &Vec<(String, Metadata)>) {
        &self.metadata
    }
}

/// A typedef alias: a name for a converted type.
#[derive(Debug)]
pub struct Typedef {
    pub name: Identifier,
    pub metadata: Vec<(String, Metadata)>,
    pub doc: Vec<String>,
    pub platform: Option<Platform>,
    pub target: Type,
}

impl Typedef {
    /// A fresh entity with empty metadata, no documentation and no
    /// platform constraint.
    pub fn new(name: Identifier, target: Type) -> (r: Typedef)
        ensures
            r.name == name,
            r.metadata@.len() == 0,
            r.doc@.len() == 0,
            r.platform is None,
            r.target == target,
    {
        Typedef {
            name,
            metadata: Vec::new(),
            doc: Vec::new(),
            platform: None,
            target,
        }
    }
}

impl Entity for Typedef {
    open spec fn spec_metadata(&self) -> Seq<(String, Metadata)> {
        self.metadata@
    }

    fn entity_metadata(&self) -> (r: &Vec<(String, Metadata)>) {
        &self.metadata
    }
}

/// A bitmask with its width and flags.
#[derive(Debug)]
pub struct Bitmask {
    pub name: Identifier,
    pub metadata: Vec<(String, Metadata)>,
    pub doc: Vec<String>,
    pub platform: Option<Platform>,
    pub bitwidth: Bitwidth,
    pub bitflags: Vec<Bitflag>,
}

impl Bitmask {
    /// A fresh entity with empty metadata, no documentation and no
    /// platform constraint.
    pub fn new(name: Identifier, bitwidth: Bitwidth, bitflags: Vec<Bitflag>) -> (r: Bitmask)
        ensures
            r.name == name,
            r.metadata@.len() == 0,
            r.doc@.len() == 0,
            r.platform is None,
            r.bitwidth == bitwidth,
            r.bitflags == bitflags,
    {
        Bitmask {
            name,
            metadata: Vec::new(),
            doc: Vec::new(),
            platform: None,
            bitwidth,
            bitflags,
        }
    }
}

impl Entity for Bitmask {
    open spec fn spec_metadata(&self) -> Seq<(String, Metadata)> {
        self.metadata@
    }

    fn entity_metadata(&self) -> (r: &Vec<(String, Metadata)>) {
        &self.metadata
    }
}

/// One flag of a bitmask.
#[derive(Debug)]
pub struct Bitflag {
    pub name: Identifier,
    pub metadata: Vec<(String, Metadata)>,
    pub doc: Vec<String>,
    pub platform: Option<Platform>,
    pub value: CExpr,
}

impl Bitflag {
    /// A fresh entity with empty metadata, no documentation and no
    /// platform constraint.
    pub fn new(name: Identifier, value: CExpr) -> (r: Bitflag)
        ensures
            r.name == name,
            r.metadata@.len() == 0,
            r.doc@.len() == 0,
            r.platform is None,
            r.value == value,
    {
        Bitflag {
            name,
            metadata: Vec::new(),
            doc: Vec::new(),
            platform: None,
            value,
        }
    }
}

impl Entity for Bitflag {
    open spec fn spec_metadata(&self) -> Seq<(String, Metadata)> {
        self.metadata@
    }

    fn entity_metadata(&self) -> (r: &Vec<(String, Metadata)>) {
        &self.metadata
    }
}

/// A command: a function of the API.
#[derive(Debug)]
pub struct Command {
    pub name: Identifier,
    pub metadata: Vec<(String, Metadata)>,
    pub doc: Vec<String>,
    pub platform: Option<Platform>,
    pub params: Vec<Param>,
    pub result: Type,
    pub success_codes: Vec<CExpr>,
    pub error_codes: Vec<CExpr>,
    pub alias_to: Option<Identifier>,
}

impl Command {
    /// A fresh entity with empty metadata, no documentation and no
    /// platform constraint.
    pub fn new(name: Identifier, params: Vec<Param>, result: Type, success_codes: Vec<CExpr>, error_codes: Vec<CExpr>, alias_to: Option<Identifier>) -> (r: Command)
        ensures
            r.name == name,
            r.metadata@.len() == 0,
            r.doc@.len() == 0,
            r.platform is None,
            r.params == params,
            r.result == result,
            r.success_codes == success_codes,
            r.error_codes == error_codes,
            r.alias_to == alias_to,
    {
        Command {
            name,
            metadata: Vec::new(),
            doc: Vec::new(),
            platform: None,
            params,
            result,
            success_codes,
            error_codes,
            alias_to,
        }
    }
}

impl Entity for Command {
    open spec fn spec_metadata(&self) -> Seq<(String, Metadata)> {
        self.metadata@
    }

    fn entity_metadata(&self) -> (r: &Vec<(String, Metadata)>) {
        &self.metadata
    }
}

/// One parameter of a command or function typedef.
#[derive(Debug)]
pub struct Param {
    pub name: Identifier,
    pub metadata: Vec<(String, Metadata)>,
    pub doc: Vec<String>,
    pub platform: Option<Platform>,
    pub ty: Type,
    pub optional: bool,
    pub len: Option<CExpr>,
}

impl Param {
    /// A fresh entity with empty metadata, no documentation and no
    /// platform constraint.
    pub fn new(name: Identifier, ty: Type, optional: bool, len: Option<CExpr>) -> (r: Param)
        ensures
            r.name == name,
            r.metadata@.len() == 0,
            r.doc@.len() == 0,
            r.platform is None,
            r.ty == ty,
            r.optional == optional,
            r.len == len,
    {
        Param {
            name,
            metadata: Vec::new(),
            doc: Vec::new(),
            platform: None,
            ty,
            optional,
            len,
        }
    }
}

impl Entity for Param {
    open spec fn spec_metadata(&self) -> Seq<(String, Metadata)> {
        self.metadata@
    }

    fn entity_metadata(&self) -> (r: &Vec<(String, Metadata)>) {
        &self.metadata
    }
}

/// A named constant.
#[derive(Debug)]
pub struct Constant {
    pub name: Identifier,
    pub metadata: Vec<(String, Metadata)>,
    pub doc: Vec<String>,
    pub platform: Option<Platform>,
    pub ty: Type,
    pub expr: CExpr,
}

impl Constant {
    /// A fresh entity with empty metadata, no documentation and no
    /// platform constraint.
    pub fn new(name: Identifier, ty: Type, expr: CExpr) -> (r: Constant)
        ensures
            r.name == name,
            r.metadata@.len() == 0,
            r.doc@.len() == 0,
            r.platform is None,
            r.ty == ty,
            r.expr == expr,
    {
        Constant {
            name,
            metadata: Vec::new(),
            doc: Vec::new(),
            platform: None,
            ty,
            expr,
        }
    }
}

impl Entity for Constant {
    open spec fn spec_metadata(&self) -> Seq<(String, Metadata)> {
        self.metadata@
    }

    fn entity_metadata(&self) -> (r: &Vec<(String, Metadata)>) {
        &self.metadata
    }
}

/// An enumeration with its variants.
#[derive(Debug)]
pub struct Enumeration {
    pub name: Identifier,
    pub metadata: Vec<(String, Metadata)>,
    pub doc: Vec<String>,
    pub platform: Option<Platform>,
    pub variants: Vec<EnumVariant>,
}

impl Enumeration {
    /// A fresh entity with empty metadata, no documentation and no
    /// platform constraint.
    pub fn new(name: Identifier, variants: Vec<EnumVariant>) -> (r: Enumeration)
        ensures
            r.name == name,
            r.metadata@.len() == 0,
            r.doc@.len() == 0,
            r.platform is None,
            r.variants == variants,
    {
        Enumeration {
            name,
            metadata: Vec::new(),
            doc: Vec::new(),
            platform: None,
            variants,
        }
    }
}

impl Entity for Enumeration {
    open spec fn spec_metadata(&self) -> Seq<(String, Metadata)> {
        self.metadata@
    }

    fn entity_metadata(&self) -> (r: &Vec<(String, Metadata)>) {
        &self.metadata
    }
}

/// One variant of an enumeration: its literal value expression and,
/// verbatim, whether the value was written in the source.
#[derive(Debug)]
pub struct EnumVariant {
    pub name: Identifier,
    pub metadata: Vec<(String, Metadata)>,
    pub doc: Vec<String>,
    pub platform: Option<Platform>,
    pub value: CExpr,
    pub explicit: bool,
}

impl EnumVariant {
    /// A fresh entity with empty metadata, no documentation and no
    /// platform constraint.
    pub fn new(name: Identifier, value: CExpr, explicit: bool) -> (r: EnumVariant)
        ensures
            r.name == name,
            r.metadata@.len() == 0,
            r.doc@.len() == 0,
            r.platform is None,
            r.value == value,
            r.explicit == explicit,
    {
        EnumVariant {
            name,
            metadata: Vec::new(),
            doc: Vec::new(),
            platform: None,
            value,
            explicit,
        }
    }
}

impl Entity for EnumVariant {
    open spec fn spec_metadata(&self) -> Seq<(String, Metadata)> {
        self.metadata@
    }

    fn entity_metadata(&self) -> (r: &Vec<(String, Metadata)>) {
        &self.metadata
    }
}

/// A function typedef: a named function shape, possibly behind a pointer.
#[derive(Debug)]
pub struct FunctionTypedef {
    pub name: Identifier,
    pub metadata: Vec<(String, Metadata)>,
    pub doc: Vec<String>,
    pub platform: Option<Platform>,
    pub params: Vec<Param>,
    pub result: Type,
    pub is_pointer: bool,
    pub is_native_api: bool,
}

impl FunctionTypedef {
    /// A fresh entity with empty metadata, no documentation and no
    /// platform constraint.
    pub fn new(name: Identifier, params: Vec<Param>, result: Type, is_pointer: bool, is_native_api: bool) -> (r: FunctionTypedef)
        ensures
            r.name == name,
            r.metadata@.len() == 0,
            r.doc@.len() == 0,
            r.platform is None,
            r.params == params,
            r.result == result,
            r.is_pointer == is_pointer,
            r.is_native_api == is_native_api,
    {
        FunctionTypedef {
            name,
            metadata: Vec::new(),
            doc: Vec::new(),
            platform: None,
            params,
            result,
            is_pointer,
            is_native_api,
        }
    }
}

impl Entity for FunctionTypedef {
    open spec fn spec_metadata(&self) -> Seq<(String, Metadata)> {
        self.metadata@
    }

    fn entity_metadata(&self) -> (r: &Vec<(String, Metadata)>) {
        &self.metadata
    }
}

/// An opaque typedef: a name for an undefined record.
#[derive(Debug)]
pub struct OpaqueTypedef {
    pub name: Identifier,
    pub metadata: Vec<(String, Metadata)>,
    pub doc: Vec<String>,
    pub platform: Option<Platform>,
}

impl OpaqueTypedef {
    /// A fresh entity with empty metadata, no documentation and no
    /// platform constraint.
    pub fn new(name: Identifier) -> (r: OpaqueTypedef)
        ensures
            r.name == name,
            r.metadata@.len() == 0,
            r.doc@.len() == 0,
            r.platform is None,
    {
        OpaqueTypedef {
            name,
            metadata: Vec::new(),
            doc: Vec::new(),
            platform: None,
        }
    }
}

impl Entity for OpaqueTypedef {
    open spec fn spec_metadata(&self) -> Seq<(String, Metadata)> {
        self.metadata@
    }

    fn entity_metadata(&self) -> (r: &Vec<(String, Metadata)>) {
        &self.metadata
    }
}

/// An opaque handle typedef: a pointer to an undefined record.
#[derive(Debug)]
pub struct OpaqueHandleTypedef {
    pub name: Identifier,
    pub metadata: Vec<(String, Metadata)>,
    pub doc: Vec<String>,
    pub platform: Option<Platform>,
}

impl OpaqueHandleTypedef {
    /// A fresh entity with empty metadata, no documentation and no
    /// platform constraint.
    pub fn new(name: Identifier) -> (r: OpaqueHandleTypedef)
        ensures
            r.name == name,
            r.metadata@.len() == 0,
            r.doc@.len() == 0,
            r.platform is None,
    {
        OpaqueHandleTypedef {
            name,
            metadata: Vec::new(),
            doc: Vec::new(),
            platform: None,
        }
    }
}

impl Entity for OpaqueHandleTypedef {
    open spec fn spec_metadata(&self) -> Seq<(String, Metadata)> {
        self.metadata@
    }

    fn entity_metadata(&self) -> (r: &Vec<(String, Metadata)>) {
        &self.metadata
    }
}

/// A struct or union with its members.
#[derive(Debug)]
pub struct Structure {
    pub name: Identifier,
    pub metadata: Vec<(String, Metadata)>,
    pub doc: Vec<String>,
    pub platform: Option<Platform>,
    pub members: Vec<Member>,
}

impl Structure {
    /// A fresh entity with empty metadata, no documentation and no
    /// platform constraint.
    pub fn new(name: Identifier, members: Vec<Member>) -> (r: Structure)
        ensures
            r.name == name,
            r.metadata@.len() == 0,
            r.doc@.len() == 0,
            r.platform is None,
            r.members == members,
    {
        Structure {
            name,
            metadata: Vec::new(),
            doc: Vec::new(),
            platform: None,
            members,
        }
    }
}

impl Entity for Structure {
    open spec fn spec_metadata(&self) -> Seq<(String, Metadata)> {
        self.metadata@
    }

    fn entity_metadata(&self) -> (r: &Vec<(String, Metadata)>) {
        &self.metadata
    }
}

/// One member of a structure.
#[derive(Debug)]
pub struct Member {
    pub name: Identifier,
    pub metadata: Vec<(String, Metadata)>,
    pub doc: Vec<String>,
    pub platform: Option<Platform>,
    pub ty: Type,
    pub bits: Option<usize>,
    pub init: Option<CExpr>,
    pub optional: bool,
    pub len: Option<CExpr>,
}

impl Member {
    /// A fresh entity with empty metadata, no documentation and no
    /// platform constraint.
    pub fn new(name: Identifier, ty: Type, bits: Option<usize>, init: Option<CExpr>, optional: bool, len: Option<CExpr>) -> (r: Member)
        ensures
            r.name == name,
            r.metadata@.len() == 0,
            r.doc@.len() == 0,
            r.platform is None,
            r.ty == ty,
            r.bits == bits,
            r.init == init,
            r.optional == optional,
            r.len == len,
    {
        Member {
            name,
            metadata: Vec::new(),
            doc: Vec::new(),
            platform: None,
            ty,
            bits,
            init,
            optional,
            len,
        }
    }
}

impl Entity for Member {
    open spec fn spec_metadata(&self) -> Seq<(String, Metadata)> {
        self.metadata@
    }

    fn entity_metadata(&self) -> (r: &Vec<(String, Metadata)>) {
        &self.metadata
    }
}

/// The entity kinds a typedef declaration can classify into.
#[derive(Debug)]
pub enum Entities {
    Typedef(Typedef),
    FunctionTypedef(FunctionTypedef),
    Command(Command),
}

/// A registry import: a named dependency on another registry.
#[derive(Debug)]
pub struct Import {
    pub name: Identifier,
    pub version: Option<String>,
    pub depend: bool,
}

/// A parameter's pointer nullability agrees with its optionality.
pub open spec fn param_consistent(p: Param) -> bool {
    match p.ty {
        Type::PointerType(pt) => pt.nullable == p.optional,
        _ => true,
    }
}

impl Param {
    /// Checks the parameter's consistency; the caller must already know it
    /// holds.
    pub fn sanitize(&self)
        requires
            param_consistent(*self),
    {
    }

    /// Restores consistency: the pointer's nullability is made to agree
    /// with the parameter's optionality. Nothing else changes.
    pub fn sanitize_fix(&mut self)
        ensures
            param_consistent(*final(self)),
            final(self).name == old(self).name,
            final(self).metadata == old(self).metadata,
            final(self).doc == old(self).doc,
            final(self).platform == old(self).platform,
            final(self).optional == old(self).optional,
            final(self).len == old(self).len,
            match old(self).ty {
                Type::PointerType(pt) => final(self).ty matches Type::PointerType(npt)
                    && npt.pointee == pt.pointee && npt.is_const == pt.is_const
                    && npt.pointer_to_one == pt.pointer_to_one && npt.nullable == old(
                    self,
                ).optional,
                _ => final(self).ty == old(self).ty,
            },
    {
        let optional = self.optional;
        match &mut self.ty {
            Type::PointerType(pt) => {
                pt.nullable = optional;
            },
            _ => {},
        }
    }
}

/// Every parameter of the list is consistent.
pub open spec fn params_consistent(ps: Seq<Param>) -> bool {
    forall|i: int| 0 <= i < ps.len() ==> param_consistent(#[trigger] ps[i])
}

fn sanitize_fix_params(params: &mut Vec<Param>)
    ensures
        final(params)@.len() == old(params)@.len(),
        params_consistent(final(params)@),
{
    let n = params.len();
    let mut i: usize = 0;
    while i < n
        invariant
            i <= n,
            n == params@.len(),
            forall|j: int| 0 <= j < i ==> param_consistent(#[trigger] params@[j]),
        decreases n - i,
    {
        params[i].sanitize_fix();
        proof {
            assert forall|j: int| 0 <= j < i + 1 implies param_consistent(
                #[trigger] params@[j],
            ) by {}
        }
        i = i + 1;
    }
}

impl Command {
    /// Checks every parameter's consistency; the caller must already know
    /// it holds.
    pub fn sanitize(&self)
        requires
            params_consistent(self.params@),
    {
    }

    /// Restores every parameter's consistency.
    pub fn sanitize_fix(&mut self)
        ensures
            final(self).params@.len() == old(self).params@.len(),
            params_consistent(final(self).params@),
    {
        sanitize_fix_params(&mut self.params);
    }
}

impl FunctionTypedef {
    /// Checks every parameter's consistency; the caller must already know
    /// it holds.
    pub fn sanitize(&self)
        requires
            params_consistent(self.params@),
    {
    }

    /// Restores every parameter's consistency.
    pub fn sanitize_fix(&mut self)
        ensures
            final(self).params@.len() == old(self).params@.len(),
            params_consistent(final(self).params@),
    {
        sanitize_fix_params(&mut self.params);
    }
}

} // verus!

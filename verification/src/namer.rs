//! The anonymous record namer: resolves every anonymous struct/union in a
//! flat declaration sequence to a synthesized, descriptive identifier built
//! from one place the record is used, then rewrites the sequence so that no
//! anonymous reference remains.

use vstd::prelude::*;

use crate::decl::{CDecl, CFieldDecl, CStructDecl, CVarDecl};
use crate::ident::{has_sep, Interner};
use crate::mapper::spec_base_usage;
use crate::ty::{base_no_anon, CBaseType, CParam, CType, RecordName};

verus! {

/// The name under which an enclosing record appears on a context path:
/// its display text if it is named, else its USR, to be resolved on
/// demand.
#[derive(Debug)]
pub enum PathKey {
    Named(String),
    Anonymous(String),
}

/// One step of the context path recording where an anonymous record is
/// used. Texts are captured when the usage is recorded.
#[derive(Debug)]
pub enum ContextPathNode {
    /// The usage lies inside this struct.
    Struct(PathKey),
    /// The usage lies inside this union.
    Union(PathKey),
    /// The usage lies in a function return position.
    FunRet,
    /// The usage lies behind a pointer.
    Ptr,
    /// The usage lies in an array element position.
    Array,
    /// The usage is the type of this field.
    Field(String),
    /// The usage is the type of this function parameter.
    FunParam(String),
    /// The usage is the type of this variable.
    Var(String),
    /// The usage is the parent's nested subrecord at this index.
    Nest(usize),
}

/// One recorded usage: the ordered path of context steps.
#[derive(Debug)]
pub struct Usage {
    pub path: Vec<ContextPathNode>,
}

/// All recorded usages of one anonymous record, keyed by its USR.
#[derive(Debug)]
pub struct UsageEntry {
    pub usr: String,
    pub usages: Vec<Usage>,
}

/// The namer's working index for one translation unit: one usage entry per
/// anonymous record USR, in first-seen order, plus each declared anonymous
/// record's own struct/union tag.
#[derive(Debug)]
pub struct UsageMap {
    pub entries: Vec<UsageEntry>,
    pub tags: TagMap,
}

impl UsageMap {
    /// Number of keys.
    pub open spec fn spec_len(self) -> nat {
        self.entries@.len()
    }

    /// The USR text of entry `i`.
    pub open spec fn key_at(self, i: int) -> Seq<char> {
        self.entries@[i].usr@
    }

    /// Some entry carries `u` as its key.
    pub open spec fn contains_key(self, u: Seq<char>) -> bool {
        exists|i: int| 0 <= i < self.spec_len() && self.key_at(i) == u
    }

    /// Map invariant: keys are distinct, every entry has at least one
    /// usage, and the tag table's keys are distinct.
    pub open spec fn wf(self) -> bool {
        &&& forall|i: int, j: int|
            0 <= i < j < self.spec_len() ==> self.key_at(i) != self.key_at(j)
        &&& forall|i: int|
            0 <= i < self.spec_len() ==> (#[trigger] self.entries@[i].usages@).len() > 0
        &&& self.tags.wf()
    }

    /// Creates an empty usage map.
    pub fn new() -> (r: UsageMap)
        ensures
            r.spec_len() == 0,
            r.wf(),
    {
        UsageMap { entries: Vec::new(), tags: TagMap { entries: Vec::new() } }
    }

    fn find_key(&self, u: &str) -> (r: Option<usize>)
        ensures
            match r {
                Some(i) => i < self.spec_len() && self.key_at(i as int) == u@,
                None => !self.contains_key(u@),
            },
    {
        let n = self.entries.len();
        let mut i: usize = 0;
        while i < n
            invariant
                i <= n,
                n == self.spec_len(),
                forall|j: int| 0 <= j < i ==> self.key_at(j) != u@,
            decreases n - i,
        {
            if crate::text::str_eq(self.entries[i].usr.as_str(), u) {
                return Some(i);
            }
            i = i + 1;
        }
        None
    }

    /// Appends one usage for `u`, creating the entry if absent.
    fn add_usage(&mut self, u: &str, usage: Usage)
        requires
            old(self).wf(),
        ensures
            final(self).wf(),
            map_keys_extended(*old(self), *final(self)),
            final(self).contains_key(u@),
            forall|k: Seq<char>|
                #[trigger] final(self).contains_key(k) ==> old(self).contains_key(k) || k == u@,
            forall|k: Seq<char>|
                #[trigger] old(self).contains_key(k) ==> final(self).first_usage_view(k) == old(
                    self,
                ).first_usage_view(k),
            !old(self).contains_key(u@) ==> final(self).first_usage_view(u@) == path_view(
                usage.path@,
            ),
            final(self).tags == old(self).tags,
    {
        match self.find_key(u) {
            Some(i) => {
                self.entries[i].usages.push(usage);
                proof {
                    assert(self.entries@[i as int].usr == old(self).entries@[i as int].usr);
                    assert(self.entries@.len() == old(self).entries@.len());
                    assert forall|a: int, b: int|
                        0 <= a < b < self.spec_len() implies self.key_at(a) != self.key_at(
                        b,
                    ) by {
                        assert(self.entries@[a].usr == old(self).entries@[a].usr);
                        assert(self.entries@[b].usr == old(self).entries@[b].usr);
                        assert(old(self).key_at(a) != old(self).key_at(b));
                    }
                    assert forall|a: int|
                        0 <= a < self.spec_len() implies (#[trigger] self.entries@[a].usages@).len()
                        > 0 by {
                        if a != i {
                            assert(self.entries@[a] == old(self).entries@[a]);
                        }
                    }
                    assert forall|a: int| 0 <= a < old(self).spec_len() implies self.key_at(a)
                        == old(self).key_at(a) by {
                        if a != i {
                            assert(self.entries@[a] == old(self).entries@[a]);
                        }
                    }
                    assert(self.key_at(i as int) == u@);
                    assert forall|k: Seq<char>| #[trigger] old(self).contains_key(
                        k,
                    ) implies self.contains_key(k) by {
                        let a = choose|a: int|
                            0 <= a < old(self).spec_len() && old(self).key_at(a) == k;
                        assert(self.key_at(a) == k);
                    }
                    assert forall|k: Seq<char>| #[trigger] self.contains_key(k) implies old(
                        self,
                    ).contains_key(k) || k == u@ by {
                        let a = choose|a: int| 0 <= a < self.spec_len() && self.key_at(a) == k;
                        assert(old(self).key_at(a) == k);
                    }
                    assert forall|k: Seq<char>| #[trigger] old(self).contains_key(
                        k,
                    ) implies self.first_usage_view(k) == old(self).first_usage_view(k) by {
                        let j1 = choose|j: int|
                            0 <= j < old(self).spec_len() && old(self).key_at(j) == k;
                        let j2 = choose|j: int|
                            0 <= j < self.spec_len() && self.key_at(j) == k;
                        assert(self.key_at(j1) == k);
                        if j1 != j2 {
                            if j1 < j2 {
                                assert(self.key_at(j1) != self.key_at(j2));
                            } else {
                                assert(self.key_at(j2) != self.key_at(j1));
                            }
                        }
                        if j2 == i {
                            assert(self.entries@[j2].usages@[0] == old(
                                self,
                            ).entries@[j2].usages@[0]);
                        } else {
                            assert(self.entries@[j2] == old(self).entries@[j2]);
                        }
                    }
                }
            },
            None => {
                let mut usages = Vec::new();
                usages.push(usage);
                self.entries.push(UsageEntry { usr: u.to_owned(), usages });
                proof {
                    let n = old(self).spec_len() as int;
                    assert forall|a: int| 0 <= a < self.spec_len() implies self.key_at(a) == (
                    if a < n {
                        old(self).key_at(a)
                    } else {
                        u@
                    }) by {
                        if a < n {
                            assert(self.entries@[a] == old(self).entries@[a]);
                        }
                    }
                    assert forall|a: int|
                        0 <= a < self.spec_len() implies (#[trigger] self.entries@[a].usages@).len()
                        > 0 by {
                        if a < n {
                            assert(self.entries@[a] == old(self).entries@[a]);
                        }
                    }
                    assert(self.key_at(n) == u@);
                    assert forall|k: Seq<char>| #[trigger] old(self).contains_key(
                        k,
                    ) implies self.contains_key(k) by {
                        let a = choose|a: int|
                            0 <= a < old(self).spec_len() && old(self).key_at(a) == k;
                        assert(self.key_at(a) == k);
                    }
                    assert forall|k: Seq<char>| #[trigger] self.contains_key(k) implies old(
                        self,
                    ).contains_key(k) || k == u@ by {
                        let a = choose|a: int| 0 <= a < self.spec_len() && self.key_at(a) == k;
                        if a < n {
                            assert(old(self).key_at(a) == k);
                        } else {
                            assert(self.key_at(a) == u@);
                        }
                    }
                    assert forall|k: Seq<char>| #[trigger] old(self).contains_key(
                        k,
                    ) implies self.first_usage_view(k) == old(self).first_usage_view(k) by {
                        let j1 = choose|j: int|
                            0 <= j < old(self).spec_len() && old(self).key_at(j) == k;
                        let j2 = choose|j: int|
                            0 <= j < self.spec_len() && self.key_at(j) == k;
                        assert(self.key_at(j1) == k);
                        if j1 != j2 {
                            if j1 < j2 {
                                assert(self.key_at(j1) != self.key_at(j2));
                            } else {
                                assert(self.key_at(j2) != self.key_at(j1));
                            }
                        }
                        assert(j2 < n);
                        assert(self.entries@[j2] == old(self).entries@[j2]);
                    }
                    if !old(self).contains_key(u@) {
                        let j3 = choose|j: int|
                            0 <= j < self.spec_len() && self.key_at(j) == u@;
                        if j3 != n {
                            assert(old(self).key_at(j3) == u@);
                        }
                        assert(self.entries@[n].usages@[0] == usage);
                        assert(self.first_usage_view(u@) == path_view(usage.path@));
                    }
                }
            },
        }
    }

    /// Replaces the usages recorded for `u` by this single usage, creating
    /// the entry if absent. (A record that reaches the map as a parent's
    /// subrecord is not referenced by any field, so its synthesized usage
    /// stands alone.)
    fn set_usage(&mut self, u: &str, usage: Usage)
        requires
            old(self).wf(),
        ensures
            final(self).wf(),
            map_keys_extended(*old(self), *final(self)),
            final(self).contains_key(u@),
            forall|k: Seq<char>|
                #[trigger] final(self).contains_key(k) ==> old(self).contains_key(k) || k == u@,
            forall|k: Seq<char>|
                #[trigger] old(self).contains_key(k) && k != u@ ==> final(self).first_usage_view(k) == old(self).first_usage_view(k),
            final(self).first_usage_view(u@) == path_view(usage.path@),
            final(self).tags == old(self).tags,
    {
        match self.find_key(u) {
            Some(i) => {
                let mut usages = Vec::new();
                usages.push(usage);
                self.entries[i].usages = usages;
                proof {
                    assert forall|a: int, b: int|
                        0 <= a < b < self.spec_len() implies self.key_at(a) != self.key_at(
                        b,
                    ) by {
                        assert(self.entries@[a].usr == old(self).entries@[a].usr);
                        assert(self.entries@[b].usr == old(self).entries@[b].usr);
                        assert(old(self).key_at(a) != old(self).key_at(b));
                    }
                    assert forall|a: int|
                        0 <= a < self.spec_len() implies (#[trigger] self.entries@[a].usages@).len()
                        > 0 by {
                        if a != i {
                            assert(self.entries@[a] == old(self).entries@[a]);
                        }
                    }
                    assert forall|a: int| 0 <= a < old(self).spec_len() implies self.key_at(a)
                        == old(self).key_at(a) by {
                        if a != i {
                            assert(self.entries@[a] == old(self).entries@[a]);
                        }
                    }
                    assert(self.key_at(i as int) == u@);
                    assert forall|k: Seq<char>| #[trigger] old(self).contains_key(
                        k,
                    ) implies self.contains_key(k) by {
                        let a = choose|a: int|
                            0 <= a < old(self).spec_len() && old(self).key_at(a) == k;
                        assert(self.key_at(a) == k);
                    }
                    assert forall|k: Seq<char>| #[trigger] self.contains_key(k) implies old(
                        self,
                    ).contains_key(k) || k == u@ by {
                        let a = choose|a: int| 0 <= a < self.spec_len() && self.key_at(a) == k;
                        assert(old(self).key_at(a) == k);
                    }
                    let ji = choose|j: int| 0 <= j < self.spec_len() && self.key_at(j) == u@;
                    if ji != i {
                        if ji < i {
                            assert(self.key_at(ji) != self.key_at(i as int));
                        } else {
                            assert(self.key_at(i as int) != self.key_at(ji));
                        }
                    }
                    assert(self.entries@[i as int].usages@[0] == usage);
                    assert(self.first_usage_view(u@) == path_view(usage.path@));
                    assert forall|k: Seq<char>|
                        #[trigger] old(self).contains_key(k) && k != u@ implies self.first_usage_view(
                        k,
                    ) == old(self).first_usage_view(k) by {
                        let j1 = choose|j: int|
                            0 <= j < old(self).spec_len() && old(self).key_at(j) == k;
                        let j2 = choose|j: int|
                            0 <= j < self.spec_len() && self.key_at(j) == k;
                        assert(self.key_at(j1) == k);
                        if j1 != j2 {
                            if j1 < j2 {
                                assert(self.key_at(j1) != self.key_at(j2));
                            } else {
                                assert(self.key_at(j2) != self.key_at(j1));
                            }
                        }
                        assert(j2 != i);
                        assert(self.entries@[j2] == old(self).entries@[j2]);
                    }
                }
            },
            None => {
                let mut usages = Vec::new();
                usages.push(usage);
                self.entries.push(UsageEntry { usr: u.to_owned(), usages });
                proof {
                    let n = old(self).spec_len() as int;
                    assert forall|a: int| 0 <= a < self.spec_len() implies self.key_at(a) == (
                    if a < n {
                        old(self).key_at(a)
                    } else {
                        u@
                    }) by {
                        if a < n {
                            assert(self.entries@[a] == old(self).entries@[a]);
                        }
                    }
                    assert forall|a: int|
                        0 <= a < self.spec_len() implies (#[trigger] self.entries@[a].usages@).len()
                        > 0 by {
                        if a < n {
                            assert(self.entries@[a] == old(self).entries@[a]);
                        }
                    }
                    assert(self.key_at(n) == u@);
                    assert forall|k: Seq<char>| #[trigger] old(self).contains_key(
                        k,
                    ) implies self.contains_key(k) by {
                        let a = choose|a: int|
                            0 <= a < old(self).spec_len() && old(self).key_at(a) == k;
                        assert(self.key_at(a) == k);
                    }
                    assert forall|k: Seq<char>| #[trigger] self.contains_key(k) implies old(
                        self,
                    ).contains_key(k) || k == u@ by {
                        let a = choose|a: int| 0 <= a < self.spec_len() && self.key_at(a) == k;
                        if a < n {
                            assert(old(self).key_at(a) == k);
                        } else {
                            assert(self.key_at(a) == u@);
                        }
                    }
                    let j3 = choose|j: int| 0 <= j < self.spec_len() && self.key_at(j) == u@;
                    if j3 != n {
                        assert(old(self).key_at(j3) == u@);
                        assert(old(self).contains_key(u@));
                        assert(false);
                    }
                    assert(self.entries@[n].usages@[0] == usage);
                    assert(self.first_usage_view(u@) == path_view(usage.path@));
                    assert forall|k: Seq<char>|
                        #[trigger] old(self).contains_key(k) && k != u@ implies self.first_usage_view(
                        k,
                    ) == old(self).first_usage_view(k) by {
                        let j1 = choose|j: int|
                            0 <= j < old(self).spec_len() && old(self).key_at(j) == k;
                        let j2 = choose|j: int|
                            0 <= j < self.spec_len() && self.key_at(j) == k;
                        assert(self.key_at(j1) == k);
                        if j1 != j2 {
                            if j1 < j2 {
                                assert(self.key_at(j1) != self.key_at(j2));
                            } else {
                                assert(self.key_at(j2) != self.key_at(j1));
                            }
                        }
                        assert(j2 < n);
                        assert(self.entries@[j2] == old(self).entries@[j2]);
                    }
                }
            },
        }
    }
}

/// Every key of the old map is still a key of the new one.
pub open spec fn map_keys_extended(prev: UsageMap, cur: UsageMap) -> bool {
    forall|k: Seq<char>| #[trigger] prev.contains_key(k) ==> cur.contains_key(k)
}

fn dup_path_key(k: &PathKey) -> (r: PathKey)
    ensures
        r == *k,
{
    match k {
        PathKey::Named(s) => PathKey::Named(s.clone()),
        PathKey::Anonymous(s) => PathKey::Anonymous(s.clone()),
    }
}

fn dup_node(n: &ContextPathNode) -> (r: ContextPathNode)
    ensures
        r == *n,
{
    match n {
        ContextPathNode::Struct(k) => ContextPathNode::Struct(dup_path_key(k)),
        ContextPathNode::Union(k) => ContextPathNode::Union(dup_path_key(k)),
        ContextPathNode::FunRet => ContextPathNode::FunRet,
        ContextPathNode::Ptr => ContextPathNode::Ptr,
        ContextPathNode::Array => ContextPathNode::Array,
        ContextPathNode::Field(s) => ContextPathNode::Field(s.clone()),
        ContextPathNode::FunParam(s) => ContextPathNode::FunParam(s.clone()),
        ContextPathNode::Var(s) => ContextPathNode::Var(s.clone()),
        ContextPathNode::Nest(i) => ContextPathNode::Nest(*i),
    }
}

fn clone_context(ctx: &Vec<ContextPathNode>) -> (r: Vec<ContextPathNode>)
    ensures
        r@ == ctx@,
{
    let n = ctx.len();
    let mut out: Vec<ContextPathNode> = Vec::new();
    let mut i: usize = 0;
    while i < n
        invariant
            i <= n,
            n == ctx@.len(),
            out@.len() == i,
            forall|j: int| 0 <= j < i ==> out@[j] == ctx@[j],
        decreases n - i,
    {
        out.push(dup_node(&ctx[i]));
        i = i + 1;
    }
    proof {
        assert(out@ =~= ctx@);
    }
    out
}


/// The view of a context-path key: the texts alone.
pub enum PathKeyView {
    Named(Seq<char>),
    Anonymous(Seq<char>),
}

/// The view of one context step: the texts alone.
pub enum PathStep {
    Struct(PathKeyView),
    Union(PathKeyView),
    FunRet,
    Ptr,
    Array,
    Field(Seq<char>),
    FunParam(Seq<char>),
    Var(Seq<char>),
    Nest(int),
}

/// The view of a key.
pub open spec fn key_view(k: PathKey) -> PathKeyView {
    match k {
        PathKey::Named(s) => PathKeyView::Named(s@),
        PathKey::Anonymous(s) => PathKeyView::Anonymous(s@),
    }
}

/// The view of one context step.
pub open spec fn node_view(n: ContextPathNode) -> PathStep {
    match n {
        ContextPathNode::Struct(k) => PathStep::Struct(key_view(k)),
        ContextPathNode::Union(k) => PathStep::Union(key_view(k)),
        ContextPathNode::FunRet => PathStep::FunRet,
        ContextPathNode::Ptr => PathStep::Ptr,
        ContextPathNode::Array => PathStep::Array,
        ContextPathNode::Field(s) => PathStep::Field(s@),
        ContextPathNode::FunParam(s) => PathStep::FunParam(s@),
        ContextPathNode::Var(s) => PathStep::Var(s@),
        ContextPathNode::Nest(i) => PathStep::Nest(i as int),
    }
}

/// The view of a context path.
pub open spec fn path_view(p: Seq<ContextPathNode>) -> Seq<PathStep> {
    p.map_values(|n: ContextPathNode| node_view(n))
}

impl UsageMap {
    /// The view of the first recorded usage path of `u` (meaningful when
    /// the map holds `u`).
    pub open spec fn first_usage_view(self, u: Seq<char>) -> Seq<PathStep> {
        let i = choose|i: int| 0 <= i < self.spec_len() && self.key_at(i) == u;
        path_view(self.entries@[i].usages@[0].path@)
    }
}

/// The display text a parameter contributes to a context path: its name,
/// or `param` plus its position when unnamed.
pub open spec fn param_display(p: CParam, i: int, t: Interner) -> Seq<char> {
    match p.name {
        Some(id) => id.spec_value(t),
        None => "param"@ + crate::text::spec_decimal(i),
    }
}

/// The first place (in walk order) where the type reaches the anonymous
/// record `u`: the context extended by the walk steps to that place.
pub open spec fn ty_first_path(
    b: CBaseType,
    ctx: Seq<PathStep>,
    u: Seq<char>,
    t: Interner,
) -> Option<Seq<PathStep>>
    decreases b, 0int,
{
    match b {
        CBaseType::Array(e, _) => ty_first_path(e.ty, ctx.push(PathStep::Array), u, t),
        CBaseType::Pointer(e) => ty_first_path(e.ty, ctx.push(PathStep::Ptr), u, t),
        CBaseType::FunProto(ret, ps) => match ty_first_path(
            ret.ty,
            ctx.push(PathStep::FunRet),
            u,
            t,
        ) {
            Some(p) => Some(p),
            None => params_first_path(ps@, ctx, 0, u, t),
        },
        CBaseType::Record(_, RecordName::Anonymous(x)) => if x@ == u {
            Some(ctx)
        } else {
            None
        },
        _ => None,
    }
}

/// The first place among the parameters from position `i` on where the
/// walk reaches `u`.
pub open spec fn params_first_path(
    ps: Seq<CParam>,
    ctx: Seq<PathStep>,
    i: int,
    u: Seq<char>,
    t: Interner,
) -> Option<Seq<PathStep>>
    decreases ps, 1int, ps.len() - i,
{
    if i < 0 || i >= ps.len() {
        None
    } else {
        match ty_first_path(
            ps[i].ty.ty,
            ctx.push(PathStep::FunParam(param_display(ps[i], i, t))),
            u,
            t,
        ) {
            Some(p) => Some(p),
            None => params_first_path(ps, ctx, i + 1, u, t),
        }
    }
}

/// The context step standing for a record that encloses a usage.
pub open spec fn record_node_view(rd: CStructDecl, is_struct: bool, t: Interner) -> PathStep {
    let k = match rd.name {
        RecordName::Named(id) => PathKeyView::Named(id.spec_value(t)),
        RecordName::Anonymous(x) => PathKeyView::Anonymous(x@),
    };
    if is_struct {
        PathStep::Struct(k)
    } else {
        PathStep::Union(k)
    }
}

/// The first field among positions below `k` whose type reaches `u`.
pub open spec fn fields_first_upto(
    fields: Seq<CFieldDecl>,
    node: PathStep,
    u: Seq<char>,
    t: Interner,
    k: int,
) -> Option<Seq<PathStep>>
    decreases k,
{
    if k <= 0 || k > fields.len() {
        None
    } else {
        match fields_first_upto(fields, node, u, t, k - 1) {
            Some(p) => Some(p),
            None => ty_first_path(
                fields[k - 1].ty.ty,
                seq![node, PathStep::Field(fields[k - 1].name.spec_value(t))],
                u,
                t,
            ),
        }
    }
}

/// The last subrecord entry below position `k` that carries `u`: its
/// synthesized nested usage.
pub open spec fn subs_last_upto(
    subs: Seq<RecordName>,
    node: PathStep,
    u: Seq<char>,
    k: int,
) -> Option<Seq<PathStep>>
    decreases k,
{
    if k <= 0 || k > subs.len() {
        None
    } else if (subs[k - 1] matches RecordName::Anonymous(x) && x@ == u) {
        Some(seq![node, PathStep::Nest(k - 1)])
    } else {
        subs_last_upto(subs, node, u, k - 1)
    }
}

/// The first walk usage of `u` that one declaration contributes: a
/// variable's type, or a defined record's fields in order.
pub open spec fn decl_walk_first(d: CDecl, u: Seq<char>, t: Interner) -> Option<Seq<PathStep>> {
    match d {
        CDecl::Var(vd) => ty_first_path(
            vd.ty.ty,
            seq![PathStep::Var(vd.name.spec_value(t))],
            u,
            t,
        ),
        CDecl::Struct(rd) => if rd.is_definition {
            fields_first_upto(
                rd.fields@,
                record_node_view(*rd, true, t),
                u,
                t,
                rd.fields@.len() as int,
            )
        } else {
            None
        },
        CDecl::Union(rd) => if rd.is_definition {
            fields_first_upto(
                rd.fields@,
                record_node_view(*rd, false, t),
                u,
                t,
                rd.fields@.len() as int,
            )
        } else {
            None
        },
        _ => None,
    }
}

/// The synthesized nested usage of `u` that one declaration contributes:
/// its last subrecord entry carrying `u`, if it is a defined record.
pub open spec fn decl_sub_last(d: CDecl, u: Seq<char>, t: Interner) -> Option<Seq<PathStep>> {
    match d {
        CDecl::Struct(rd) => if rd.is_definition {
            subs_last_upto(
                rd.subrecords@,
                record_node_view(*rd, true, t),
                u,
                rd.subrecords@.len() as int,
            )
        } else {
            None
        },
        CDecl::Union(rd) => if rd.is_definition {
            subs_last_upto(
                rd.subrecords@,
                record_node_view(*rd, false, t),
                u,
                rd.subrecords@.len() as int,
            )
        } else {
            None
        },
        _ => None,
    }
}

/// The first walk usage of `u` among the declarations below position `k`.
pub open spec fn walk_upto(decls: Seq<CDecl>, u: Seq<char>, t: Interner, k: int) -> Option<
    Seq<PathStep>,
>
    decreases k,
{
    if k <= 0 || k > decls.len() {
        None
    } else {
        match walk_upto(decls, u, t, k - 1) {
            Some(p) => Some(p),
            None => decl_walk_first(decls[k - 1], u, t),
        }
    }
}

/// The last synthesized nested usage of `u` among the declarations below
/// position `k`.
pub open spec fn sub_upto(decls: Seq<CDecl>, u: Seq<char>, t: Interner, k: int) -> Option<
    Seq<PathStep>,
>
    decreases k,
{
    if k <= 0 || k > decls.len() {
        None
    } else {
        match decl_sub_last(decls[k - 1], u, t) {
            Some(p) => Some(p),
            None => sub_upto(decls, u, t, k - 1),
        }
    }
}

/// The usage that resolution reads for `u`, as phase one records it: a
/// subrecord entry's synthesized usage replaces anything collected before
/// it (the last one standing), and otherwise the first usage found in the
/// walk stays first.
pub open spec fn spec_first_usage(decls: Seq<CDecl>, u: Seq<char>, t: Interner) -> Option<
    Seq<PathStep>,
> {
    match sub_upto(decls, u, t, decls.len() as int) {
        Some(p) => Some(p),
        None => walk_upto(decls, u, t, decls.len() as int),
    }
}

/// The map is exactly what phase one collects from the declarations: it
/// holds a key for an anonymous record exactly when the walk reaches it,
/// and the first recorded usage of each key is the one resolution is
/// defined on.
pub open spec fn collected_from(m: UsageMap, decls: Seq<CDecl>, t: Interner) -> bool {
    &&& m.wf()
    &&& forall|u: Seq<char>|
        #[trigger] m.contains_key(u) <==> spec_first_usage(decls, u, t) is Some
    &&& forall|u: Seq<char>|
        #[trigger] m.contains_key(u) ==> Some(m.first_usage_view(u)) == spec_first_usage(
            decls,
            u,
            t,
        )
}

/// Every anonymous record the base type reaches has a key in the map.
pub open spec fn ty_usages_covered(m: UsageMap, b: CBaseType) -> bool {
    forall|u: Seq<char>| #[trigger] spec_base_usage(b, u) ==> m.contains_key(u)
}

/// Phase one, one type: walks the type recursively through array, pointer
/// and function-prototype structure and records one usage, built from the
/// path walked so far, at every anonymous record reference it reaches.
/// A type's walk reaches the anonymous record exactly when the first-place
/// search finds a path for it; the context does not decide reachability.
pub proof fn lemma_ty_first_some(b: CBaseType, ctx: Seq<PathStep>, u: Seq<char>, t: Interner)
    ensures
        (ty_first_path(b, ctx, u, t) is Some) == spec_base_usage(b, u),
    decreases b, 0int,
{
    match b {
        CBaseType::Array(e, _) => {
            lemma_ty_first_some(e.ty, ctx.push(PathStep::Array), u, t);
        },
        CBaseType::Pointer(e) => {
            lemma_ty_first_some(e.ty, ctx.push(PathStep::Ptr), u, t);
        },
        CBaseType::FunProto(ret, ps) => {
            lemma_ty_first_some(ret.ty, ctx.push(PathStep::FunRet), u, t);
            lemma_params_first_some(ps@, ctx, 0, u, t);
        },
        _ => {},
    }
}

proof fn lemma_params_first_some(
    ps: Seq<CParam>,
    ctx: Seq<PathStep>,
    i: int,
    u: Seq<char>,
    t: Interner,
)
    ensures
        (params_first_path(ps, ctx, i, u, t) is Some) == crate::mapper::params_usage(ps, u, i),
    decreases ps, 1int, ps.len() - i,
{
    if 0 <= i < ps.len() {
        lemma_ty_first_some(
            ps[i].ty.ty,
            ctx.push(PathStep::FunParam(param_display(ps[i], i, t))),
            u,
            t,
        );
        lemma_params_first_some(ps, ctx, i + 1, u, t);
    }
}

proof fn lemma_path_view_push(p: Seq<ContextPathNode>, n: ContextPathNode)
    ensures
        path_view(p.push(n)) =~= path_view(p).push(node_view(n)),
{
}

/// Phase one, one type: walks the type recursively through array, pointer
/// and function-prototype structure and records one usage, built from the
/// path walked so far, at every anonymous record reference it reaches. A
/// key already present keeps its first recorded usage; a fresh key's first
/// usage is the first place the walk reaches it.
pub fn collect_usage_on_ty(
    table: &Interner,
    ty: &CType,
    dest: &mut UsageMap,
    context: Vec<ContextPathNode>,
)
    requires
        old(dest).wf(),
        crate::ty::ty_ids_ok(*table, *ty),
    ensures
        final(dest).wf(),
        map_keys_extended(*old(dest), *final(dest)),
        ty_usages_covered(*final(dest), ty.ty),
        forall|k: Seq<char>|
            #[trigger] final(dest).contains_key(k) ==> old(dest).contains_key(k)
                || spec_base_usage(ty.ty, k),
        forall|k: Seq<char>|
            #[trigger] old(dest).contains_key(k) ==> final(dest).first_usage_view(k) == old(
                dest,
            ).first_usage_view(k),
        forall|k: Seq<char>|
            !old(dest).contains_key(k) && #[trigger] spec_base_usage(ty.ty, k) ==> Some(
                final(dest).first_usage_view(k),
            ) == ty_first_path(ty.ty, path_view(context@), k, *table),
        final(dest).tags == old(dest).tags,
    decreases *ty, 0int, 0int,
{
    let ghost ctx0 = context@;
    let mut context = context;
    match &ty.ty {
        CBaseType::Array(e, _) => {
            context.push(ContextPathNode::Array);
            let ghost ctx1 = context@;
            collect_usage_on_ty(table, e, dest, context);
            proof {
                lemma_path_view_push(ctx0, ContextPathNode::Array);
                assert forall|u: Seq<char>| #[trigger] spec_base_usage(ty.ty, u) implies dest
                    .contains_key(u) by {
                    assert(spec_base_usage(e.ty, u));
                }
                assert forall|k: Seq<char>|
                    !old(dest).contains_key(k) && #[trigger] spec_base_usage(
                        ty.ty,
                        k,
                    ) implies Some(dest.first_usage_view(k)) == ty_first_path(
                    ty.ty,
                    path_view(ctx0),
                    k,
                    *table,
                ) by {
                    assert(spec_base_usage(e.ty, k));
                    assert(Some(dest.first_usage_view(k)) == ty_first_path(
                        e.ty,
                        path_view(ctx1),
                        k,
                        *table,
                    ));
                    assert(path_view(ctx1) == path_view(ctx0).push(PathStep::Array));
                }
            }
        },
        CBaseType::Pointer(e) => {
            context.push(ContextPathNode::Ptr);
            let ghost ctx1 = context@;
            collect_usage_on_ty(table, e, dest, context);
            proof {
                lemma_path_view_push(ctx0, ContextPathNode::Ptr);
                assert forall|u: Seq<char>| #[trigger] spec_base_usage(ty.ty, u) implies dest
                    .contains_key(u) by {
                    assert(spec_base_usage(e.ty, u));
                }
                assert forall|k: Seq<char>|
                    !old(dest).contains_key(k) && #[trigger] spec_base_usage(
                        ty.ty,
                        k,
                    ) implies Some(dest.first_usage_view(k)) == ty_first_path(
                    ty.ty,
                    path_view(ctx0),
                    k,
                    *table,
                ) by {
                    assert(spec_base_usage(e.ty, k));
                    assert(Some(dest.first_usage_view(k)) == ty_first_path(
                        e.ty,
                        path_view(ctx1),
                        k,
                        *table,
                    ));
                    assert(path_view(ctx1) == path_view(ctx0).push(PathStep::Ptr));
                }
            }
        },
        CBaseType::FunProto(ret, params) => {
            let mut ret_ctx = clone_context(&context);
            ret_ctx.push(ContextPathNode::FunRet);
            let ghost ctx1 = ret_ctx@;
            collect_usage_on_ty(table, ret, dest, ret_ctx);
            let ghost mid = *dest;
            collect_usages_on_params(table, params, 0, dest, &context);
            proof {
                lemma_path_view_push(ctx0, ContextPathNode::FunRet);
                assert forall|u: Seq<char>| #[trigger] spec_base_usage(ty.ty, u) implies dest
                    .contains_key(u) by {
                    if spec_base_usage(ret.ty, u) {
                        assert(mid.contains_key(u));
                    } else {
                        assert(crate::mapper::params_usage(params@, u, 0));
                    }
                }
                assert forall|k: Seq<char>|
                    !old(dest).contains_key(k) && #[trigger] spec_base_usage(
                        ty.ty,
                        k,
                    ) implies Some(dest.first_usage_view(k)) == ty_first_path(
                    ty.ty,
                    path_view(ctx0),
                    k,
                    *table,
                ) by {
                    lemma_ty_first_some(ret.ty, path_view(ctx0).push(PathStep::FunRet), k, *table);
                    if spec_base_usage(ret.ty, k) {
                        assert(Some(mid.first_usage_view(k)) == ty_first_path(
                            ret.ty,
                            path_view(ctx1),
                            k,
                            *table,
                        ));
                        assert(mid.contains_key(k));
                        assert(dest.first_usage_view(k) == mid.first_usage_view(k));
                        assert(path_view(ctx1) == path_view(ctx0).push(PathStep::FunRet));
                    } else {
                        assert(!mid.contains_key(k));
                        assert(crate::mapper::params_usage(params@, k, 0));
                        assert(Some(dest.first_usage_view(k)) == params_first_path(
                            params@,
                            path_view(ctx0),
                            0,
                            k,
                            *table,
                        ));
                    }
                }
            }
        },
        CBaseType::Record(_, RecordName::Anonymous(usr)) => {
            dest.add_usage(usr.as_str(), Usage { path: context });
            proof {
                assert forall|u: Seq<char>| #[trigger] spec_base_usage(ty.ty, u) implies dest
                    .contains_key(u) by {
                    assert(u == usr@);
                }
                assert forall|k: Seq<char>|
                    !old(dest).contains_key(k) && #[trigger] spec_base_usage(
                        ty.ty,
                        k,
                    ) implies Some(dest.first_usage_view(k)) == ty_first_path(
                    ty.ty,
                    path_view(ctx0),
                    k,
                    *table,
                ) by {
                    assert(k == usr@);
                    assert(dest.first_usage_view(k) == path_view(ctx0));
                }
            }
        },
        _ => {},
    }
}

fn collect_usages_on_params(
    table: &Interner,
    params: &Vec<CParam>,
    i: usize,
    dest: &mut UsageMap,
    context: &Vec<ContextPathNode>,
)
    requires
        old(dest).wf(),
        forall|j: int|
            0 <= j < params@.len() ==> crate::ty::param_ids_ok(*table, #[trigger] params@[j]),
    ensures
        final(dest).wf(),
        map_keys_extended(*old(dest), *final(dest)),
        forall|u: Seq<char>|
            #[trigger] crate::mapper::params_usage(params@, u, i as int)
                ==> final(dest).contains_key(u),
        forall|k: Seq<char>|
            #[trigger] final(dest).contains_key(k) ==> old(dest).contains_key(k)
                || crate::mapper::params_usage(params@, k, i as int),
        forall|k: Seq<char>|
            #[trigger] old(dest).contains_key(k) ==> final(dest).first_usage_view(k) == old(
                dest,
            ).first_usage_view(k),
        forall|k: Seq<char>|
            !old(dest).contains_key(k) && #[trigger] crate::mapper::params_usage(
                params@,
                k,
                i as int,
            ) ==> Some(final(dest).first_usage_view(k)) == params_first_path(
                params@,
                path_view(context@),
                i as int,
                k,
                *table,
            ),
        final(dest).tags == old(dest).tags,
    decreases params@, 1int, params@.len() - i,
{
    if i >= params.len() {
        return ;
    }
    let p = &params[i];
    let name: String = match p.name {
        Some(id) => id.value(table).to_owned(),
        None => {
            let mut s = String::from_str("param");
            s.append(crate::text::decimal_string(i as u64).as_str());
            s
        },
    };
    proof {
        assert(name@ == param_display(params@[i as int], i as int, *table));
    }
    let mut pctx = clone_context(context);
    pctx.push(ContextPathNode::FunParam(name));
    let ghost ctx1 = pctx@;
    collect_usage_on_ty(table, &p.ty, dest, pctx);
    let ghost mid = *dest;
    collect_usages_on_params(table, params, i + 1, dest, context);
    proof {
        assert(path_view(ctx1) =~= path_view(context@).push(
            PathStep::FunParam(param_display(params@[i as int], i as int, *table)),
        ));
        assert forall|u: Seq<char>|
            #[trigger] crate::mapper::params_usage(params@, u, i as int) implies dest.contains_key(
            u,
        ) by {
            if spec_base_usage(params@[i as int].ty.ty, u) {
                assert(mid.contains_key(u));
            } else {
                assert(i as int + 1 == (i + 1) as int);
                assert(crate::mapper::params_usage(params@, u, (i + 1) as int));
            }
        }
        assert forall|k: Seq<char>|
            !old(dest).contains_key(k) && #[trigger] crate::mapper::params_usage(
                params@,
                k,
                i as int,
            ) implies Some(dest.first_usage_view(k)) == params_first_path(
            params@,
            path_view(context@),
            i as int,
            k,
            *table,
        ) by {
            lemma_ty_first_some(
                params@[i as int].ty.ty,
                path_view(context@).push(
                    PathStep::FunParam(param_display(params@[i as int], i as int, *table)),
                ),
                k,
                *table,
            );
            if spec_base_usage(params@[i as int].ty.ty, k) {
                assert(Some(mid.first_usage_view(k)) == ty_first_path(
                    params@[i as int].ty.ty,
                    path_view(ctx1),
                    k,
                    *table,
                ));
                assert(mid.contains_key(k));
                assert(dest.first_usage_view(k) == mid.first_usage_view(k));
            } else {
                assert(!mid.contains_key(k));
                assert(i as int + 1 == (i + 1) as int);
                assert(crate::mapper::params_usage(params@, k, (i + 1) as int));
                assert(Some(dest.first_usage_view(k)) == params_first_path(
                    params@,
                    path_view(context@),
                    i as int + 1,
                    k,
                    *table,
                ));
            }
        }
    }
}

/// Whether every usage a declaration contributes is covered by the map.
pub open spec fn decl_usages_covered(m: UsageMap, d: CDecl) -> bool {
    match d {
        CDecl::Var(vd) => ty_usages_covered(m, vd.ty.ty),
        CDecl::Struct(rd) => record_usages_covered(m, *rd),
        CDecl::Union(rd) => record_usages_covered(m, *rd),
        _ => true,
    }
}

/// Whether every usage a defined record contributes is covered: each
/// field's type, and each anonymous subrecord entry.
pub open spec fn record_usages_covered(m: UsageMap, rd: CStructDecl) -> bool {
    rd.is_definition ==> {
        &&& forall|j: int|
            0 <= j < rd.fields@.len() ==> ty_usages_covered(
                m,
                (#[trigger] rd.fields@[j]).ty.ty,
            )
        &&& forall|j: int|
            0 <= j < rd.subrecords@.len() ==> (match #[trigger] rd.subrecords@[j] {
                RecordName::Anonymous(u) => m.contains_key(u@),
                RecordName::Named(_) => true,
            })
    }
}

/// Phase one: collects, for every variable declaration and every field of
/// every defined record, one usage per anonymous record reference its type
/// reaches; and for every defined record's subrecord entries, one
/// synthesized nested usage each.
/// The usage resolution reads among the first `k` declarations.
pub open spec fn first_upto(decls: Seq<CDecl>, u: Seq<char>, t: Interner, k: int) -> Option<
    Seq<PathStep>,
> {
    match sub_upto(decls, u, t, k) {
        Some(p) => Some(p),
        None => walk_upto(decls, u, t, k),
    }
}

/// Phase one: collects, for every variable declaration and every field of
/// every defined record, one usage per anonymous record reference its type
/// reaches; and for every defined record's subrecord entries, one
/// synthesized nested usage each. The result is pinned: it holds exactly
/// the reachable USRs, each with the first usage resolution is defined on.
pub fn collect_usages(table: &Interner, decls: &Vec<CDecl>) -> (m: UsageMap)
    requires
        forall|i: int|
            0 <= i < decls@.len() ==> crate::decl::decl_ids_ok(*table, #[trigger] decls@[i]),
    ensures
        m.wf(),
        forall|i: int|
            0 <= i < decls@.len() ==> decl_usages_covered(m, #[trigger] decls@[i]),
        collected_from(m, decls@, *table),
{
    let mut m = UsageMap::new();
    let n = decls.len();
    let mut i: usize = 0;
    while i < n
        invariant
            i <= n,
            n == decls@.len(),
            m.wf(),
            forall|j: int|
                0 <= j < decls@.len() ==> crate::decl::decl_ids_ok(*table, #[trigger] decls@[j]),
            forall|j: int| 0 <= j < i ==> decl_usages_covered(m, #[trigger] decls@[j]),
            forall|u: Seq<char>|
                #[trigger] m.contains_key(u) <==> first_upto(decls@, u, *table, i as int) is Some,
            forall|u: Seq<char>|
                #[trigger] m.contains_key(u) ==> Some(m.first_usage_view(u)) == first_upto(
                    decls@,
                    u,
                    *table,
                    i as int,
                ),
        decreases n - i,
    {
        let ghost before = m;
        match &decls[i] {
            CDecl::Var(vd) => {
                let mut ctx: Vec<ContextPathNode> = Vec::new();
                ctx.push(ContextPathNode::Var(vd.name.value(table).to_owned()));
                let ghost gctx = ctx@;
                collect_usage_on_ty(table, &vd.ty, &mut m, ctx);
                proof {
                    assert(path_view(gctx) =~= seq![
                        PathStep::Var(vd.name.spec_value(*table)),
                    ]);
                    assert forall|u: Seq<char>|
                        (#[trigger] m.contains_key(u) <==> first_upto(
                            decls@,
                            u,
                            *table,
                            i + 1,
                        ) is Some) && (m.contains_key(u) ==> Some(m.first_usage_view(u))
                        == first_upto(decls@, u, *table, i + 1)) by {
                        lemma_ty_first_some(vd.ty.ty, path_view(gctx), u, *table);
                        assert(decl_sub_last(decls@[i as int], u, *table) is None);
                        assert(decl_walk_first(decls@[i as int], u, *table) == ty_first_path(
                            vd.ty.ty,
                            path_view(gctx),
                            u,
                            *table,
                        ));
                        if before.contains_key(u) {
                            assert(m.first_usage_view(u) == before.first_usage_view(u));
                        }
                    }
                }
            },
            CDecl::Struct(rd) => {
                collect_record_usages(table, rd, true, &mut m);
                proof {
                    lemma_record_step(before, m, decls@, i as int, *table, **rd, true);
                }
            },
            CDecl::Union(rd) => {
                collect_record_usages(table, rd, false, &mut m);
                proof {
                    lemma_record_step(before, m, decls@, i as int, *table, **rd, false);
                }
            },
            _ => {
                proof {
                    assert forall|u: Seq<char>|
                        (#[trigger] m.contains_key(u) <==> first_upto(
                            decls@,
                            u,
                            *table,
                            i + 1,
                        ) is Some) && (m.contains_key(u) ==> Some(m.first_usage_view(u))
                        == first_upto(decls@, u, *table, i + 1)) by {
                        assert(decl_sub_last(decls@[i as int], u, *table) is None);
                        assert(decl_walk_first(decls@[i as int], u, *table) is None);
                    }
                }
            },
        }
        proof {
            assert forall|j: int| 0 <= j < i + 1 implies decl_usages_covered(
                m,
                #[trigger] decls@[j],
            ) by {
                if j < i {
                    lemma_covered_mono(before, m, decls@[j]);
                }
            }
        }
        i = i + 1;
    }
    proof {
        assert forall|u: Seq<char>|
            #[trigger] m.contains_key(u) <==> spec_first_usage(decls@, u, *table) is Some by {}
        assert forall|u: Seq<char>| #[trigger] m.contains_key(u) implies Some(
            m.first_usage_view(u),
        ) == spec_first_usage(decls@, u, *table) by {}
    }
    m
}

proof fn lemma_record_step(
    before: UsageMap,
    cur: UsageMap,
    decls: Seq<CDecl>,
    i: int,
    t: Interner,
    rd: CStructDecl,
    is_struct: bool,
)
    requires
        0 <= i < decls.len(),
        (if is_struct {
            decls[i] matches CDecl::Struct(b) && *b == rd
        } else {
            decls[i] matches CDecl::Union(b) && *b == rd
        }),
        forall|u: Seq<char>|
            #[trigger] before.contains_key(u) <==> first_upto(decls, u, t, i) is Some,
        forall|u: Seq<char>|
            #[trigger] before.contains_key(u) ==> Some(before.first_usage_view(u)) == first_upto(
                decls,
                u,
                t,
                i,
            ),
        !rd.is_definition ==> cur == before,
        forall|k: Seq<char>|
            #[trigger] cur.contains_key(k) <==> before.contains_key(k) || (subs_last_upto(
                rd.subrecords@,
                record_node_view(rd, is_struct, t),
                k,
                rd.subrecords@.len() as int,
            ) is Some && rd.is_definition) || (fields_first_upto(
                rd.fields@,
                record_node_view(rd, is_struct, t),
                k,
                t,
                rd.fields@.len() as int,
            ) is Some && rd.is_definition),
        forall|k: Seq<char>|
            #[trigger] cur.contains_key(k) ==> Some(cur.first_usage_view(k)) == (match (if
            rd.is_definition {
                subs_last_upto(
                    rd.subrecords@,
                    record_node_view(rd, is_struct, t),
                    k,
                    rd.subrecords@.len() as int,
                )
            } else {
                Option::<Seq<PathStep>>::None
            }) {
                Some(p) => Some(p),
                None => if before.contains_key(k) {
                    Some(before.first_usage_view(k))
                } else {
                    fields_first_upto(
                        rd.fields@,
                        record_node_view(rd, is_struct, t),
                        k,
                        t,
                        rd.fields@.len() as int,
                    )
                },
            }),
    ensures
        forall|u: Seq<char>|
            #[trigger] cur.contains_key(u) <==> first_upto(decls, u, t, i + 1) is Some,
        forall|u: Seq<char>|
            #[trigger] cur.contains_key(u) ==> Some(cur.first_usage_view(u)) == first_upto(
                decls,
                u,
                t,
                i + 1,
            ),
{
    assert forall|u: Seq<char>|
        (#[trigger] cur.contains_key(u) <==> first_upto(decls, u, t, i + 1) is Some) && (
        cur.contains_key(u) ==> Some(cur.first_usage_view(u)) == first_upto(
            decls,
            u,
            t,
            i + 1,
        )) by {
        assert(decl_sub_last(decls[i], u, t) == (if rd.is_definition {
            subs_last_upto(
                rd.subrecords@,
                record_node_view(rd, is_struct, t),
                u,
                rd.subrecords@.len() as int,
            )
        } else {
            Option::<Seq<PathStep>>::None
        }));
        assert(decl_walk_first(decls[i], u, t) == (if rd.is_definition {
            fields_first_upto(
                rd.fields@,
                record_node_view(rd, is_struct, t),
                u,
                t,
                rd.fields@.len() as int,
            )
        } else {
            Option::<Seq<PathStep>>::None
        }));
    }
}

proof fn lemma_collected_same_entries(m1: UsageMap, m2: UsageMap, decls: Seq<CDecl>, t: Interner)
    requires
        m1.entries == m2.entries,
        m2.wf(),
        collected_from(m1, decls, t),
    ensures
        collected_from(m2, decls, t),
{
    assert forall|u: Seq<char>| #[trigger] m1.contains_key(u) == m2.contains_key(u) by {
        if m1.contains_key(u) {
            let i = choose|i: int| 0 <= i < m1.spec_len() && m1.key_at(i) == u;
            assert(m2.key_at(i) == u);
        }
        if m2.contains_key(u) {
            let i = choose|i: int| 0 <= i < m2.spec_len() && m2.key_at(i) == u;
            assert(m1.key_at(i) == u);
        }
    }
    assert forall|u: Seq<char>| #[trigger] m2.contains_key(u) implies Some(
        m2.first_usage_view(u),
    ) == spec_first_usage(decls, u, t) by {
        assert(m1.contains_key(u) == m2.contains_key(u));
        assert(m1.contains_key(u));
        let i1 = choose|i: int| 0 <= i < m1.spec_len() && m1.key_at(i) == u;
        let i2 = choose|i: int| 0 <= i < m2.spec_len() && m2.key_at(i) == u;
        assert(m2.entries@[i1] == m1.entries@[i1]);
        assert(m2.key_at(i1) == u);
        if i1 != i2 {
            if i1 < i2 {
                assert(m2.key_at(i1) != m2.key_at(i2));
            } else {
                assert(m2.key_at(i2) != m2.key_at(i1));
            }
        }
        assert(m2.entries@[i2] == m1.entries@[i2]);
        assert(m2.first_usage_view(u) == m1.first_usage_view(u));
    }
    assert forall|u: Seq<char>|
        #[trigger] m2.contains_key(u) <==> spec_first_usage(decls, u, t) is Some by {
        assert(m1.contains_key(u) == m2.contains_key(u));
    }
}

proof fn lemma_covered_same_entries(m1: UsageMap, m2: UsageMap, d: CDecl)
    requires
        m1.entries == m2.entries,
        decl_usages_covered(m1, d),
    ensures
        decl_usages_covered(m2, d),
{
    assert forall|u: Seq<char>| #[trigger] m1.contains_key(u) implies m2.contains_key(u) by {
        let i = choose|i: int| 0 <= i < m1.spec_len() && m1.key_at(i) == u;
        assert(m2.key_at(i) == u);
    }
}

proof fn lemma_covered_mono(m1: UsageMap, m2: UsageMap, d: CDecl)
    requires
        map_keys_extended(m1, m2),
        decl_usages_covered(m1, d),
    ensures
        decl_usages_covered(m2, d),
{
}

fn collect_record_usages(table: &Interner, rd: &CStructDecl, is_struct: bool, m: &mut UsageMap)
    requires
        old(m).wf(),
        crate::decl::record_ids_ok(*table, *rd),
    ensures
        final(m).wf(),
        map_keys_extended(*old(m), *final(m)),
        record_usages_covered(*final(m), *rd),
        final(m).tags == old(m).tags,
        !rd.is_definition ==> *final(m) == *old(m),
        forall|k: Seq<char>|
            #[trigger] final(m).contains_key(k) <==> old(m).contains_key(k) || (subs_last_upto(
                rd.subrecords@,
                record_node_view(*rd, is_struct, *table),
                k,
                rd.subrecords@.len() as int,
            ) is Some && rd.is_definition) || (fields_first_upto(
                rd.fields@,
                record_node_view(*rd, is_struct, *table),
                k,
                *table,
                rd.fields@.len() as int,
            ) is Some && rd.is_definition),
        forall|k: Seq<char>|
            #[trigger] final(m).contains_key(k) ==> Some(final(m).first_usage_view(k)) == (
            match (if rd.is_definition {
                subs_last_upto(
                    rd.subrecords@,
                    record_node_view(*rd, is_struct, *table),
                    k,
                    rd.subrecords@.len() as int,
                )
            } else {
                Option::<Seq<PathStep>>::None
            }) {
                Some(p) => Some(p),
                None => if old(m).contains_key(k) {
                    Some(old(m).first_usage_view(k))
                } else {
                    fields_first_upto(
                        rd.fields@,
                        record_node_view(*rd, is_struct, *table),
                        k,
                        *table,
                        rd.fields@.len() as int,
                    )
                },
            }),
{
    if !rd.is_definition {
        return ;
    }
    let node = match &rd.name {
        RecordName::Named(id) => {
            let key = PathKey::Named(id.value(table).to_owned());
            if is_struct {
                ContextPathNode::Struct(key)
            } else {
                ContextPathNode::Union(key)
            }
        },
        RecordName::Anonymous(usr) => {
            let key = PathKey::Anonymous(usr.clone());
            if is_struct {
                ContextPathNode::Struct(key)
            } else {
                ContextPathNode::Union(key)
            }
        },
    };
    let ghost nv = record_node_view(*rd, is_struct, *table);
    proof {
        assert(node_view(node) == nv);
    }
    let nf = rd.fields.len();
    let mut i: usize = 0;
    while i < nf
        invariant
            i <= nf,
            nf == rd.fields@.len(),
            m.wf(),
            crate::decl::record_ids_ok(*table, *rd),
            map_keys_extended(*old(m), *m),
            node_view(node) == nv,
            nv == record_node_view(*rd, is_struct, *table),
            m.tags == old(m).tags,
            forall|j: int|
                0 <= j < i ==> ty_usages_covered(*m, (#[trigger] rd.fields@[j]).ty.ty),
            forall|k: Seq<char>|
                #[trigger] m.contains_key(k) <==> old(m).contains_key(k) || fields_first_upto(
                    rd.fields@,
                    nv,
                    k,
                    *table,
                    i as int,
                ) is Some,
            forall|k: Seq<char>|
                #[trigger] old(m).contains_key(k) ==> m.first_usage_view(k) == old(
                    m,
                ).first_usage_view(k),
            forall|k: Seq<char>|
                m.contains_key(k) && !old(m).contains_key(k) ==> Some(
                    #[trigger] m.first_usage_view(k),
                ) == fields_first_upto(rd.fields@, nv, k, *table, i as int),
        decreases nf - i,
    {
        let ghost before = *m;
        let field = &rd.fields[i];
        proof {
            assert(table.holds(rd.fields@[i as int].name) && crate::ty::base_ids_ok(
                *table,
                rd.fields@[i as int].ty.ty,
            ));
        }
        let mut ctx: Vec<ContextPathNode> = Vec::new();
        ctx.push(dup_node(&node));
        ctx.push(ContextPathNode::Field(field.name.value(table).to_owned()));
        let ghost gctx = ctx@;
        collect_usage_on_ty(table, &field.ty, m, ctx);
        proof {
            assert(path_view(gctx) =~= seq![
                nv,
                PathStep::Field(rd.fields@[i as int].name.spec_value(*table)),
            ]);
            assert forall|j: int| 0 <= j < i + 1 implies ty_usages_covered(
                *m,
                (#[trigger] rd.fields@[j]).ty.ty,
            ) by {}
            assert forall|k: Seq<char>|
                #[trigger] m.contains_key(k) <==> old(m).contains_key(k) || fields_first_upto(
                    rd.fields@,
                    nv,
                    k,
                    *table,
                    i + 1,
                ) is Some by {
                lemma_ty_first_some(rd.fields@[i as int].ty.ty, path_view(gctx), k, *table);
                if m.contains_key(k) {
                    if !old(m).contains_key(k) && !before.contains_key(k) {
                        assert(spec_base_usage(rd.fields@[i as int].ty.ty, k));
                    }
                }
                if fields_first_upto(rd.fields@, nv, k, *table, i + 1) is Some {
                    if fields_first_upto(rd.fields@, nv, k, *table, i as int) is Some {
                        assert(before.contains_key(k));
                    } else {
                        assert(spec_base_usage(rd.fields@[i as int].ty.ty, k));
                        assert(m.contains_key(k));
                    }
                }
            }
            assert forall|k: Seq<char>|
                m.contains_key(k) && !old(m).contains_key(k) implies Some(
                #[trigger] m.first_usage_view(k),
            ) == fields_first_upto(rd.fields@, nv, k, *table, i + 1) by {
                lemma_ty_first_some(rd.fields@[i as int].ty.ty, path_view(gctx), k, *table);
                if before.contains_key(k) {
                    assert(m.first_usage_view(k) == before.first_usage_view(k));
                    assert(fields_first_upto(rd.fields@, nv, k, *table, i as int) is Some);
                } else {
                    assert(spec_base_usage(rd.fields@[i as int].ty.ty, k));
                    assert(Some(m.first_usage_view(k)) == ty_first_path(
                        rd.fields@[i as int].ty.ty,
                        path_view(gctx),
                        k,
                        *table,
                    ));
                    assert(fields_first_upto(rd.fields@, nv, k, *table, i as int) is None);
                }
            }
        }
        i = i + 1;
    }
    let ghost mfields = *m;
    let ns = rd.subrecords.len();
    let mut k: usize = 0;
    while k < ns
        invariant
            k <= ns,
            ns == rd.subrecords@.len(),
            m.wf(),
            map_keys_extended(*old(m), *m),
            map_keys_extended(mfields, *m),
            node_view(node) == nv,
            nv == record_node_view(*rd, is_struct, *table),
            m.tags == mfields.tags,
            mfields.tags == old(m).tags,
            forall|j: int|
                0 <= j < rd.fields@.len() ==> ty_usages_covered(
                    *m,
                    (#[trigger] rd.fields@[j]).ty.ty,
                ),
            forall|j: int|
                0 <= j < k ==> (match #[trigger] rd.subrecords@[j] {
                    RecordName::Anonymous(u) => m.contains_key(u@),
                    RecordName::Named(_) => true,
                }),
            forall|u: Seq<char>|
                #[trigger] m.contains_key(u) <==> mfields.contains_key(u) || subs_last_upto(
                    rd.subrecords@,
                    nv,
                    u,
                    k as int,
                ) is Some,
            forall|u: Seq<char>|
                #[trigger] m.contains_key(u) ==> Some(m.first_usage_view(u)) == (
                match subs_last_upto(rd.subrecords@, nv, u, k as int) {
                    Some(p) => Some(p),
                    None => Some(mfields.first_usage_view(u)),
                }),
        decreases ns - k,
    {
        let ghost before = *m;
        match &rd.subrecords[k] {
            RecordName::Anonymous(usr) => {
                let mut path: Vec<ContextPathNode> = Vec::new();
                path.push(dup_node(&node));
                path.push(ContextPathNode::Nest(k));
                let ghost gpath = path@;
                m.set_usage(usr.as_str(), Usage { path });
                proof {
                    assert(path_view(gpath) =~= seq![nv, PathStep::Nest(k as int)]);
                    assert(m.first_usage_view(usr@) == path_view(gpath));
                }
            },
            RecordName::Named(_) => {},
        }
        proof {
            assert forall|u: Seq<char>|
                #[trigger] m.contains_key(u) <==> mfields.contains_key(u) || subs_last_upto(
                    rd.subrecords@,
                    nv,
                    u,
                    k + 1,
                ) is Some by {}
            assert forall|u: Seq<char>|
                #[trigger] m.contains_key(u) implies Some(m.first_usage_view(u)) == (
            match subs_last_upto(rd.subrecords@, nv, u, k + 1) {
                Some(p) => Some(p),
                None => Some(mfields.first_usage_view(u)),
            }) by {
                match rd.subrecords@[k as int] {
                    RecordName::Anonymous(x) => {
                        if u == x@ {
                            assert(m.first_usage_view(u) == seq![nv, PathStep::Nest(k as int)]);
                        } else {
                            assert(m.first_usage_view(u) == before.first_usage_view(u));
                        }
                    },
                    RecordName::Named(_) => {},
                }
            }
        }
        k = k + 1;
    }
    proof {
        assert forall|u: Seq<char>|
            #[trigger] m.contains_key(u) implies Some(m.first_usage_view(u)) == (
        match subs_last_upto(rd.subrecords@, nv, u, rd.subrecords@.len() as int) {
            Some(p) => Some(p),
            None => if old(m).contains_key(u) {
                Some(old(m).first_usage_view(u))
            } else {
                fields_first_upto(rd.fields@, nv, u, *table, rd.fields@.len() as int)
            },
        }) by {
            if subs_last_upto(rd.subrecords@, nv, u, rd.subrecords@.len() as int) is None {
                assert(mfields.contains_key(u));
                assert(m.first_usage_view(u) == mfields.first_usage_view(u));
            }
        }
    }
}

/// The rendered fragment of one context step; an anonymous enclosing
/// record resolves on demand.
pub open spec fn spec_fragment(m: UsageMap, node: ContextPathNode, fuel: nat) -> Option<Seq<char>>
    decreases fuel, 1int, 0int,
{
    match node {
        ContextPathNode::Struct(PathKey::Named(s)) => Some("struct_"@ + s@),
        ContextPathNode::Struct(PathKey::Anonymous(r)) => match spec_resolve(m, r@, fuel) {
            Some(n) => Some("struct_"@ + n),
            None => None,
        },
        ContextPathNode::Union(PathKey::Named(s)) => Some("union_"@ + s@),
        ContextPathNode::Union(PathKey::Anonymous(r)) => match spec_resolve(m, r@, fuel) {
            Some(n) => Some("union_"@ + n),
            None => None,
        },
        ContextPathNode::FunRet => Some("f"@),
        ContextPathNode::Ptr => Some("p"@),
        ContextPathNode::Array => Some("arr"@),
        ContextPathNode::Field(s) => Some("de_field_"@ + s@),
        ContextPathNode::FunParam(s) => Some("de_param_"@ + s@),
        ContextPathNode::Var(s) => Some("var_"@ + s@),
        ContextPathNode::Nest(i) => Some("de_nest_"@ + crate::text::spec_decimal(i as int)),
    }
}

/// The rendered path from step `i` on, fragments joined with `_`.
pub open spec fn spec_render_path(
    m: UsageMap,
    nodes: Seq<ContextPathNode>,
    i: int,
    fuel: nat,
) -> Option<Seq<char>>
    decreases fuel, 2int, nodes.len() - i,
{
    if i < 0 || i >= nodes.len() {
        Some(Seq::<char>::empty())
    } else {
        match spec_fragment(m, nodes[i], fuel) {
            None => None,
            Some(f) => if i == nodes.len() - 1 {
                Some(f)
            } else {
                match spec_render_path(m, nodes, i + 1, fuel) {
                    None => None,
                    Some(rest) => Some(f + "_"@ + rest),
                }
            },
        }
    }
}

/// The unprefixed synthesized name for a USR: the rendering of its first
/// recorded usage path. `None` when the USR has no recorded usage (a
/// consistency failure) or when the recursion budget is exhausted (a
/// cyclic chain of anonymous records).
pub open spec fn spec_resolve(m: UsageMap, usr: Seq<char>, fuel: nat) -> Option<Seq<char>>
    decreases fuel, 0int, 0int,
{
    if fuel == 0 {
        None
    } else if !m.contains_key(usr) {
        None
    } else {
        let i = choose|i: int| 0 <= i < m.spec_len() && m.key_at(i) == usr;
        let us = m.entries@[i].usages@;
        if us.len() == 0 {
            None
        } else {
            spec_render_path(m, us[0].path@, 0, (fuel - 1) as nat)
        }
    }
}

/// The full synthesized name for a USR referenced under a tag:
/// `struct_de_` or `union_de_`, then the rendered usage path.
pub open spec fn spec_full_name(m: UsageMap, usr: Seq<char>, is_struct: bool, fuel: nat) -> Option<
    Seq<char>,
> {
    match spec_resolve(m, usr, fuel) {
        Some(n) => Some(
            (if is_struct {
                "struct"@
            } else {
                "union"@
            }) + "_de_"@ + n,
        ),
        None => None,
    }
}

/// The synthesized name of a USR under a tag, with the recursion budget
/// that one translation unit can ever need: one more than the number of
/// distinct anonymous records. A longer chain of enclosing anonymous
/// records must repeat a USR, so exhaustion means a cyclic reference.
pub open spec fn spec_resolved(m: UsageMap, usr: Seq<char>, is_struct: bool) -> Option<Seq<char>> {
    spec_full_name(m, usr, is_struct, (m.entries@.len() + 1) as nat)
}

fn resolve_rec(m: &UsageMap, usr: &str, fuel: u128) -> (r: Option<String>)
    requires
        m.wf(),
    ensures
        match r {
            Some(s) => spec_resolve(*m, usr@, fuel as nat) == Some(s@),
            None => spec_resolve(*m, usr@, fuel as nat) is None,
        },
    decreases fuel, 0int, 0int,
{
    if fuel == 0 {
        return None;
    }
    let i = match m.find_key(usr) {
        Some(i) => i,
        None => {
            return None;
        },
    };
    proof {
        let j = choose|j: int| 0 <= j < m.spec_len() && m.key_at(j) == usr@;
        if j != i {
            assert(m.key_at(j) != m.key_at(i as int));
        }
    }
    let entry = &m.entries[i];
    if entry.usages.len() == 0 {
        return None;
    }
    render_path_rec(m, &entry.usages[0].path, 0, fuel - 1)
}

fn render_path_rec(m: &UsageMap, nodes: &Vec<ContextPathNode>, i: usize, fuel: u128) -> (r: Option<
    String,
>)
    requires
        m.wf(),
    ensures
        match r {
            Some(s) => spec_render_path(*m, nodes@, i as int, fuel as nat) == Some(s@),
            None => spec_render_path(*m, nodes@, i as int, fuel as nat) is None,
        },
    decreases fuel, 2int, nodes@.len() - i,
{
    if i >= nodes.len() {
        return Some(String::new());
    }
    let f = match fragment_rec(m, &nodes[i], fuel) {
        Some(f) => f,
        None => {
            return None;
        },
    };
    if i == nodes.len() - 1 {
        return Some(f);
    }
    match render_path_rec(m, nodes, i + 1, fuel) {
        Some(rest) => {
            let mut s = f;
            s.append("_");
            s.append(rest.as_str());
            proof {
                reveal_strlit("_");
            }
            Some(s)
        },
        None => None,
    }
}

fn fragment_rec(m: &UsageMap, node: &ContextPathNode, fuel: u128) -> (r: Option<String>)
    requires
        m.wf(),
    ensures
        match r {
            Some(s) => spec_fragment(*m, *node, fuel as nat) == Some(s@),
            None => spec_fragment(*m, *node, fuel as nat) is None,
        },
    decreases fuel, 1int, 0int,
{
    match node {
        ContextPathNode::Struct(PathKey::Named(nm)) => {
            let mut s = String::from_str("struct_");
            s.append(nm.as_str());
            Some(s)
        },
        ContextPathNode::Struct(PathKey::Anonymous(r0)) => {
            match resolve_rec(m, r0.as_str(), fuel) {
                Some(n) => {
                    let mut s = String::from_str("struct_");
                    s.append(n.as_str());
                    Some(s)
                },
                None => None,
            }
        },
        ContextPathNode::Union(PathKey::Named(nm)) => {
            let mut s = String::from_str("union_");
            s.append(nm.as_str());
            Some(s)
        },
        ContextPathNode::Union(PathKey::Anonymous(r0)) => {
            match resolve_rec(m, r0.as_str(), fuel) {
                Some(n) => {
                    let mut s = String::from_str("union_");
                    s.append(n.as_str());
                    Some(s)
                },
                None => None,
            }
        },
        ContextPathNode::FunRet => Some(String::from_str("f")),
        ContextPathNode::Ptr => Some(String::from_str("p")),
        ContextPathNode::Array => Some(String::from_str("arr")),
        ContextPathNode::Field(nm) => {
            let mut s = String::from_str("de_field_");
            s.append(nm.as_str());
            Some(s)
        },
        ContextPathNode::FunParam(nm) => {
            let mut s = String::from_str("de_param_");
            s.append(nm.as_str());
            Some(s)
        },
        ContextPathNode::Var(nm) => {
            let mut s = String::from_str("var_");
            s.append(nm.as_str());
            Some(s)
        },
        ContextPathNode::Nest(idx) => {
            let mut s = String::from_str("de_nest_");
            s.append(crate::text::decimal_string(*idx as u64).as_str());
            Some(s)
        },
    }
}

/// Phase two: synthesizes the full name of the anonymous record with this
/// USR, referenced under the given tag.
pub fn resolve_name(m: &UsageMap, usr: &str, is_struct: bool) -> (r: Option<String>)
    requires
        m.wf(),
    ensures
        match r {
            Some(s) => spec_resolved(*m, usr@, is_struct) == Some(s@),
            None => spec_resolved(*m, usr@, is_struct) is None,
        },
{
    let fuel: u128 = m.entries.len() as u128 + 1;
    match resolve_rec(m, usr, fuel) {
        Some(n) => {
            let mut s = if is_struct {
                String::from_str("struct")
            } else {
                String::from_str("union")
            };
            s.append("_de_");
            s.append(n.as_str());
            proof {
                assert(s@ =~= match spec_resolved(*m, usr@, is_struct) {
                    Some(t) => t,
                    None => Seq::<char>::empty(),
                });
            }
            Some(s)
        },
        None => None,
    }
}

/// Two context steps carry the same texts.
pub open spec fn path_node_equiv(a: ContextPathNode, b: ContextPathNode) -> bool {
    match a {
        ContextPathNode::Struct(PathKey::Named(x)) => b matches ContextPathNode::Struct(
            PathKey::Named(y),
        ) && x@ == y@,
        ContextPathNode::Struct(PathKey::Anonymous(x)) => b matches ContextPathNode::Struct(
            PathKey::Anonymous(y),
        ) && x@ == y@,
        ContextPathNode::Union(PathKey::Named(x)) => b matches ContextPathNode::Union(
            PathKey::Named(y),
        ) && x@ == y@,
        ContextPathNode::Union(PathKey::Anonymous(x)) => b matches ContextPathNode::Union(
            PathKey::Anonymous(y),
        ) && x@ == y@,
        ContextPathNode::FunRet => b is FunRet,
        ContextPathNode::Ptr => b is Ptr,
        ContextPathNode::Array => b is Array,
        ContextPathNode::Field(x) => b matches ContextPathNode::Field(y) && x@ == y@,
        ContextPathNode::FunParam(x) => b matches ContextPathNode::FunParam(y) && x@ == y@,
        ContextPathNode::Var(x) => b matches ContextPathNode::Var(y) && x@ == y@,
        ContextPathNode::Nest(x) => b matches ContextPathNode::Nest(y) && x == y,
    }
}

/// Two usage maps record the same discovery: the same key set, and for
/// each key the same first usage path.
pub open spec fn map_equiv(m1: UsageMap, m2: UsageMap) -> bool {
    &&& m1.spec_len() == m2.spec_len()
    &&& forall|u: Seq<char>| #[trigger] m1.contains_key(u) ==> m2.contains_key(u)
    &&& forall|u: Seq<char>| #[trigger] m2.contains_key(u) ==> m1.contains_key(u)
    &&& forall|u: Seq<char>|
        #[trigger] m1.contains_key(u) ==> m1.first_usage_view(u) == m2.first_usage_view(u)
}

proof fn lemma_view_eq_equiv(a: ContextPathNode, b: ContextPathNode)
    requires
        node_view(a) == node_view(b),
    ensures
        path_node_equiv(a, b),
{
}

proof fn lemma_fragment_deterministic(
    m1: UsageMap,
    m2: UsageMap,
    a: ContextPathNode,
    b: ContextPathNode,
    fuel: nat,
)
    requires
        m1.wf(),
        m2.wf(),
        map_equiv(m1, m2),
        path_node_equiv(a, b),
    ensures
        spec_fragment(m1, a, fuel) == spec_fragment(m2, b, fuel),
    decreases fuel, 1int, 0int,
{
    match a {
        ContextPathNode::Struct(PathKey::Anonymous(x)) => {
            if let ContextPathNode::Struct(PathKey::Anonymous(y)) = b {
                lemma_resolve_deterministic(m1, m2, x@, fuel);
            }
        },
        ContextPathNode::Union(PathKey::Anonymous(x)) => {
            if let ContextPathNode::Union(PathKey::Anonymous(y)) = b {
                lemma_resolve_deterministic(m1, m2, x@, fuel);
            }
        },
        _ => {},
    }
}

proof fn lemma_render_deterministic(
    m1: UsageMap,
    m2: UsageMap,
    n1: Seq<ContextPathNode>,
    n2: Seq<ContextPathNode>,
    i: int,
    fuel: nat,
)
    requires
        m1.wf(),
        m2.wf(),
        map_equiv(m1, m2),
        n1.len() == n2.len(),
        forall|k: int| 0 <= k < n1.len() ==> path_node_equiv(#[trigger] n1[k], n2[k]),
    ensures
        spec_render_path(m1, n1, i, fuel) == spec_render_path(m2, n2, i, fuel),
    decreases fuel, 2int, n1.len() - i,
{
    if 0 <= i < n1.len() {
        lemma_fragment_deterministic(m1, m2, n1[i], n2[i], fuel);
        if i < n1.len() - 1 {
            lemma_render_deterministic(m1, m2, n1, n2, i + 1, fuel);
        }
    }
}

proof fn lemma_resolve_deterministic(m1: UsageMap, m2: UsageMap, usr: Seq<char>, fuel: nat)
    requires
        m1.wf(),
        m2.wf(),
        map_equiv(m1, m2),
    ensures
        spec_resolve(m1, usr, fuel) == spec_resolve(m2, usr, fuel),
    decreases fuel, 0int, 0int,
{
    if fuel == 0 {
    } else if m1.contains_key(usr) {
        let i1 = choose|i: int| 0 <= i < m1.spec_len() && m1.key_at(i) == usr;
        let i2 = choose|i: int| 0 <= i < m2.spec_len() && m2.key_at(i) == usr;
        let us1 = m1.entries@[i1].usages@;
        let us2 = m2.entries@[i2].usages@;
        assert(us1.len() > 0 && us2.len() > 0);
        assert(m1.first_usage_view(usr) == m2.first_usage_view(usr));
        assert(path_view(us1[0].path@) == path_view(us2[0].path@));
        assert(us1[0].path@.len() == us2[0].path@.len()) by {
            assert(path_view(us1[0].path@).len() == us1[0].path@.len());
            assert(path_view(us2[0].path@).len() == us2[0].path@.len());
        }
        assert forall|k: int| 0 <= k < us1[0].path@.len() implies path_node_equiv(
            #[trigger] us1[0].path@[k],
            us2[0].path@[k],
        ) by {
            assert(path_view(us1[0].path@)[k] == node_view(us1[0].path@[k]));
            assert(path_view(us2[0].path@)[k] == node_view(us2[0].path@[k]));
            lemma_view_eq_equiv(us1[0].path@[k], us2[0].path@[k]);
        }
        lemma_render_deterministic(m1, m2, us1[0].path@, us2[0].path@, 0, (fuel - 1) as nat);
    }
}

/// Resolution is deterministic: two maps that record the same discovery —
/// the same key set with the same first usage path each — synthesize the
/// same name for every USR.
pub proof fn lemma_resolution_deterministic(
    m1: UsageMap,
    m2: UsageMap,
    usr: Seq<char>,
    is_struct: bool,
)
    requires
        m1.wf(),
        m2.wf(),
        map_equiv(m1, m2),
    ensures
        spec_resolved(m1, usr, is_struct) == spec_resolved(m2, usr, is_struct),
{
    lemma_resolve_deterministic(m1, m2, usr, (m1.entries@.len() + 1) as nat);
}

/// Two phase-one runs over the same declarations record equivalent maps.
pub proof fn lemma_collected_equiv(m1: UsageMap, m2: UsageMap, decls: Seq<CDecl>, t: Interner)
    requires
        collected_from(m1, decls, t),
        collected_from(m2, decls, t),
    ensures
        map_equiv(m1, m2),
{
    assert forall|u: Seq<char>| #[trigger] m1.contains_key(u) implies m2.contains_key(u) by {}
    assert forall|u: Seq<char>| #[trigger] m2.contains_key(u) implies m1.contains_key(u) by {}
    let s1 = Seq::new(m1.spec_len(), |i: int| m1.key_at(i));
    let s2 = Seq::new(m2.spec_len(), |i: int| m2.key_at(i));
    assert(s1.no_duplicates()) by {
        assert forall|i: int, j: int|
            0 <= i < s1.len() && 0 <= j < s1.len() && i != j implies s1[i] != s1[j] by {
            if i < j {
                assert(m1.key_at(i) != m1.key_at(j));
            } else {
                assert(m1.key_at(j) != m1.key_at(i));
            }
        }
    }
    assert(s2.no_duplicates()) by {
        assert forall|i: int, j: int|
            0 <= i < s2.len() && 0 <= j < s2.len() && i != j implies s2[i] != s2[j] by {
            if i < j {
                assert(m2.key_at(i) != m2.key_at(j));
            } else {
                assert(m2.key_at(j) != m2.key_at(i));
            }
        }
    }
    s1.unique_seq_to_set();
    s2.unique_seq_to_set();
    assert(s1.to_set() =~= s2.to_set()) by {
        assert forall|u: Seq<char>| s1.to_set().contains(u) == s2.to_set().contains(u) by {
            assert(s1.to_set().contains(u) == s1.contains(u));
            assert(s2.to_set().contains(u) == s2.contains(u));
            assert(s1.contains(u) == m1.contains_key(u)) by {
                if s1.contains(u) {
                    let i = choose|i: int| 0 <= i < s1.len() && s1[i] == u;
                    assert(m1.key_at(i) == u);
                }
                if m1.contains_key(u) {
                    let i = choose|i: int| 0 <= i < m1.spec_len() && m1.key_at(i) == u;
                    assert(s1[i] == u);
                }
            }
            assert(s2.contains(u) == m2.contains_key(u)) by {
                if s2.contains(u) {
                    let i = choose|i: int| 0 <= i < s2.len() && s2[i] == u;
                    assert(m2.key_at(i) == u);
                }
                if m2.contains_key(u) {
                    let i = choose|i: int| 0 <= i < m2.spec_len() && m2.key_at(i) == u;
                    assert(s2[i] == u);
                }
            }
        }
    }
    assert(s1.len() == s2.len());
}

/// Naming is deterministic end to end: two runs over the same input — the
/// same declaration sequence, read against the same table texts, hence the
/// same discovery order — collect equivalent usage maps and tag tables,
/// and synthesize the identical name for every anonymous record, whatever
/// tag its reference site carries.
pub proof fn lemma_naming_deterministic(
    m1: UsageMap,
    m2: UsageMap,
    decls: Seq<CDecl>,
    t: Interner,
    usr: Seq<char>,
    site: bool,
)
    requires
        collected_from(m1, decls, t),
        collected_from(m2, decls, t),
        tags_collected(m1.tags, decls),
        tags_collected(m2.tags, decls),
    ensures
        spec_resolved(m1, usr, m1.tags.spec_effective(usr, site)) == spec_resolved(
            m2,
            usr,
            m2.tags.spec_effective(usr, site),
        ),
{
    lemma_collected_equiv(m1, m2, decls, t);
    assert(m1.tags.spec_tag(usr) == m2.tags.spec_tag(usr));
    lemma_resolution_deterministic(m1, m2, usr, m1.tags.spec_effective(usr, site));
}


/// The struct/union tag of one anonymous record, keyed by its USR.
#[derive(Debug)]
pub struct TagEntry {
    pub usr: String,
    pub is_struct: bool,
}

/// The tags of the anonymous records of one translation unit: for each
/// USR, whether its own declaration is a struct or a union.
#[derive(Debug)]
pub struct TagMap {
    pub entries: Vec<TagEntry>,
}

/// Position `i` holds the first record declaration of the sequence whose
/// own name is the anonymous record `u`.
pub open spec fn first_anon_record(decls: Seq<CDecl>, u: Seq<char>, i: int) -> bool {
    &&& 0 <= i < decls.len()
    &&& anon_record_at(decls, u, i)
    &&& forall|j: int| 0 <= j < i ==> !anon_record_at(decls, u, j)
}

/// The declaration at `i` is a record whose own name is the anonymous
/// record `u`.
pub open spec fn anon_record_at(decls: Seq<CDecl>, u: Seq<char>, i: int) -> bool {
    match decls[i] {
        CDecl::Struct(rd) => rd.name matches RecordName::Anonymous(x) && x@ == u,
        CDecl::Union(rd) => rd.name matches RecordName::Anonymous(x) && x@ == u,
        _ => false,
    }
}

impl TagMap {
    /// Number of entries.
    pub open spec fn spec_len(self) -> nat {
        self.entries@.len()
    }

    /// The USR text of entry `i`.
    pub open spec fn key_at(self, i: int) -> Seq<char> {
        self.entries@[i].usr@
    }

    /// Some entry carries `u` as its key.
    pub open spec fn contains_key(self, u: Seq<char>) -> bool {
        exists|i: int| 0 <= i < self.spec_len() && self.key_at(i) == u
    }

    /// The recorded tag of `u`, if any.
    pub open spec fn spec_tag(self, u: Seq<char>) -> Option<bool> {
        if self.contains_key(u) {
            let i = choose|i: int| 0 <= i < self.spec_len() && self.key_at(i) == u;
            Some(self.entries@[i].is_struct)
        } else {
            None
        }
    }

    /// Map invariant: keys are distinct.
    pub open spec fn wf(self) -> bool {
        forall|i: int, j: int|
            0 <= i < j < self.spec_len() ==> self.key_at(i) != self.key_at(j)
    }

    fn find_key(&self, u: &str) -> (r: Option<usize>)
        ensures
            match r {
                Some(i) => i < self.spec_len() && self.key_at(i as int) == u@,
                None => !self.contains_key(u@),
            },
    {
        let n = self.entries.len();
        let mut i: usize = 0;
        while i < n
            invariant
                i <= n,
                n == self.spec_len(),
                forall|j: int| 0 <= j < i ==> self.key_at(j) != u@,
            decreases n - i,
        {
            if crate::text::str_eq(self.entries[i].usr.as_str(), u) {
                return Some(i);
            }
            i = i + 1;
        }
        None
    }

    /// The tag to use for a reference to `u` seen under `site`: the tag of
    /// the record's own declaration where one was recorded, else the tag
    /// the reference itself carries.
    pub open spec fn spec_effective(self, u: Seq<char>, site: bool) -> bool {
        match self.spec_tag(u) {
            Some(t) => t,
            None => site,
        }
    }

    /// The tag to use for a reference to `u` seen under `site`.
    pub fn effective(&self, u: &str, site: bool) -> (r: bool)
        requires
            self.wf(),
        ensures
            r == self.spec_effective(u@, site),
    {
        match self.find_key(u) {
            Some(i) => {
                proof {
                    let j = choose|j: int| 0 <= j < self.spec_len() && self.key_at(j) == u@;
                    if j != i {
                        if j < i {
                            assert(self.key_at(j) != self.key_at(i as int));
                        } else {
                            assert(self.key_at(i as int) != self.key_at(j));
                        }
                    }
                }
                self.entries[i].is_struct
            },
            None => site,
        }
    }
}

/// The tag map records exactly the anonymous records declared in the
/// sequence, each under the tag of its first declaration.
pub open spec fn tags_collected(tags: TagMap, decls: Seq<CDecl>) -> bool {
    &&& tags.wf()
    &&& forall|u: Seq<char>|
        #[trigger] tags.spec_tag(u) == (if (exists|i: int| first_anon_record(decls, u, i)) {
            Some(
                (match decls[choose|i: int| first_anon_record(decls, u, i)] {
                    CDecl::Struct(_) => true,
                    _ => false,
                }),
            )
        } else {
            Option::<bool>::None
        })
}

/// Records, for each anonymous record declared in the sequence, whether it
/// is a struct or a union; the first declaration of a USR decides.
pub fn collect_tags(decls: &Vec<CDecl>) -> (tags: TagMap)
    ensures
        tags_collected(tags, decls@),
{
    let mut tags = TagMap { entries: Vec::new() };
    let n = decls.len();
    let mut i: usize = 0;
    while i < n
        invariant
            i <= n,
            n == decls@.len(),
            tags.wf(),
            forall|u: Seq<char>|
                #[trigger] tags.spec_tag(u) == (if (exists|j: int|
                    0 <= j < i && first_anon_record(decls@, u, j)) {
                    Some(
                        (match decls@[choose|j: int| first_anon_record(decls@, u, j)] {
                            CDecl::Struct(_) => true,
                            _ => false,
                        }),
                    )
                } else {
                    Option::<bool>::None
                }),
        decreases n - i,
    {
        let ghost before = tags;
        let entry = match &decls[i] {
            CDecl::Struct(rd) => {
                match &rd.name {
                    RecordName::Anonymous(usr) => Some(
                        TagEntry { usr: usr.clone(), is_struct: true },
                    ),
                    RecordName::Named(_) => None,
                }
            },
            CDecl::Union(rd) => {
                match &rd.name {
                    RecordName::Anonymous(usr) => Some(
                        TagEntry { usr: usr.clone(), is_struct: false },
                    ),
                    RecordName::Named(_) => None,
                }
            },
            _ => None,
        };
        match entry {
            Some(e) => {
                let ghost gu = e.usr@;
                match tags.find_key(e.usr.as_str()) {
                    Some(_) => {
                        proof {
                            lemma_tags_step_existing(before, decls@, gu, i as int);
                        }
                    },
                    None => {
                        tags.entries.push(e);
                        proof {
                            lemma_tags_step_fresh(before, tags, decls@, gu, i as int);
                        }
                    },
                }
            },
            None => {
                proof {
                    assert forall|u: Seq<char>|
                        #[trigger] tags.spec_tag(u) == (if (exists|j: int|
                            0 <= j < i + 1 && first_anon_record(decls@, u, j)) {
                            Some(
                                (match decls@[choose|j: int|
                                    first_anon_record(decls@, u, j)] {
                                    CDecl::Struct(_) => true,
                                    _ => false,
                                }),
                            )
                        } else {
                            Option::<bool>::None
                        }) by {
                        if exists|j: int| 0 <= j < i + 1 && first_anon_record(decls@, u, j) {
                            let j = choose|j: int|
                                0 <= j < i + 1 && first_anon_record(decls@, u, j);
                            assert(!anon_record_at(decls@, u, i as int));
                            assert(j < i);
                        }
                    }
                }
            },
        }
        i = i + 1;
    }
    proof {
        assert forall|u: Seq<char>| #[trigger] tags.spec_tag(u) == (if (exists|i2: int|
            first_anon_record(decls@, u, i2)) {
            Some(
                (match decls@[choose|i2: int| first_anon_record(decls@, u, i2)] {
                    CDecl::Struct(_) => true,
                    _ => false,
                }),
            )
        } else {
            Option::<bool>::None
        }) by {
            assert((exists|i2: int| first_anon_record(decls@, u, i2)) == (exists|j: int|
                0 <= j < n && first_anon_record(decls@, u, j)));
        }
    }
    tags
}

proof fn lemma_first_anon_unique(decls: Seq<CDecl>, u: Seq<char>, i: int, j: int)
    requires
        first_anon_record(decls, u, i),
        first_anon_record(decls, u, j),
    ensures
        i == j,
{
    if i < j {
        assert(!anon_record_at(decls, u, i));
    }
    if j < i {
        assert(!anon_record_at(decls, u, j));
    }
}

proof fn lemma_tags_step_existing(tags: TagMap, decls: Seq<CDecl>, u0: Seq<char>, i: int)
    requires
        0 <= i < decls.len(),
        anon_record_at(decls, u0, i),
        tags.contains_key(u0),
        forall|u: Seq<char>|
            #[trigger] tags.spec_tag(u) == (if (exists|j: int|
                0 <= j < i && first_anon_record(decls, u, j)) {
                Some(
                    (match decls[choose|j: int| first_anon_record(decls, u, j)] {
                        CDecl::Struct(_) => true,
                        _ => false,
                    }),
                )
            } else {
                Option::<bool>::None
            }),
    ensures
        forall|u: Seq<char>|
            #[trigger] tags.spec_tag(u) == (if (exists|j: int|
                0 <= j < i + 1 && first_anon_record(decls, u, j)) {
                Some(
                    (match decls[choose|j: int| first_anon_record(decls, u, j)] {
                        CDecl::Struct(_) => true,
                        _ => false,
                    }),
                )
            } else {
                Option::<bool>::None
            }),
{
    assert forall|u: Seq<char>|
        #[trigger] tags.spec_tag(u) == (if (exists|j: int|
            0 <= j < i + 1 && first_anon_record(decls, u, j)) {
            Some(
                (match decls[choose|j: int| first_anon_record(decls, u, j)] {
                    CDecl::Struct(_) => true,
                    _ => false,
                }),
            )
        } else {
            Option::<bool>::None
        }) by {
        if exists|j: int| 0 <= j < i + 1 && first_anon_record(decls, u, j) {
            let j = choose|j: int| 0 <= j < i + 1 && first_anon_record(decls, u, j);
            if j == i {
                if u == u0 {
                    assert(tags.spec_tag(u0) is Some);
                    assert(!(exists|j2: int|
                        0 <= j2 < i && first_anon_record(decls, u0, j2)));
                    assert(false);
                } else {
                    assert(anon_record_at(decls, u, i) && anon_record_at(decls, u0, i));
                    assert(false);
                }
            } else {
                assert(exists|j2: int| 0 <= j2 < i && first_anon_record(decls, u, j2));
            }
        } else {
            assert(!(exists|j: int| 0 <= j < i && first_anon_record(decls, u, j)));
        }
    }
}

proof fn lemma_tags_step_fresh(before: TagMap, cur: TagMap, decls: Seq<CDecl>, u0: Seq<char>, i: int)
    requires
        0 <= i < decls.len(),
        anon_record_at(decls, u0, i),
        before.wf(),
        !before.contains_key(u0),
        cur.spec_len() == before.spec_len() + 1,
        forall|a: int| 0 <= a < before.spec_len() ==> cur.entries@[a] == before.entries@[a],
        cur.key_at(before.spec_len() as int) == u0,
        cur.entries@[before.spec_len() as int].is_struct == (decls[i] is Struct),
        forall|u: Seq<char>|
            #[trigger] before.spec_tag(u) == (if (exists|j: int|
                0 <= j < i && first_anon_record(decls, u, j)) {
                Some(
                    (match decls[choose|j: int| first_anon_record(decls, u, j)] {
                        CDecl::Struct(_) => true,
                        _ => false,
                    }),
                )
            } else {
                Option::<bool>::None
            }),
    ensures
        cur.wf(),
        forall|u: Seq<char>|
            #[trigger] cur.spec_tag(u) == (if (exists|j: int|
                0 <= j < i + 1 && first_anon_record(decls, u, j)) {
                Some(
                    (match decls[choose|j: int| first_anon_record(decls, u, j)] {
                        CDecl::Struct(_) => true,
                        _ => false,
                    }),
                )
            } else {
                Option::<bool>::None
            }),
{
    let n = before.spec_len() as int;
    assert forall|a: int, b: int| 0 <= a < b < cur.spec_len() implies cur.key_at(a)
        != cur.key_at(b) by {
        if b < n {
            assert(cur.entries@[a] == before.entries@[a]);
            assert(cur.entries@[b] == before.entries@[b]);
            assert(before.key_at(a) != before.key_at(b));
        } else {
            assert(cur.entries@[a] == before.entries@[a]);
            assert(before.key_at(a) == cur.key_at(a));
            assert(!before.contains_key(u0));
        }
    }
    assert forall|u: Seq<char>|
        #[trigger] cur.spec_tag(u) == (if (exists|j: int|
            0 <= j < i + 1 && first_anon_record(decls, u, j)) {
            Some(
                (match decls[choose|j: int| first_anon_record(decls, u, j)] {
                    CDecl::Struct(_) => true,
                    _ => false,
                }),
            )
        } else {
            Option::<bool>::None
        }) by {
        if u == u0 {
            assert(cur.contains_key(u0));
            let a = choose|a: int| 0 <= a < cur.spec_len() && cur.key_at(a) == u0;
            if a != n {
                assert(cur.entries@[a] == before.entries@[a]);
                assert(before.key_at(a) == u0);
                assert(before.contains_key(u0));
                assert(false);
            }
            assert(cur.spec_tag(u0) == Some(decls[i] is Struct));
            assert(!(exists|j: int| 0 <= j < i && first_anon_record(decls, u0, j))) by {
                if exists|j: int| 0 <= j < i && first_anon_record(decls, u0, j) {
                    assert(before.spec_tag(u0) is Some);
                }
            }
            assert(first_anon_record(decls, u0, i)) by {
                assert forall|j: int| 0 <= j < i implies !anon_record_at(decls, u0, j) by {
                    if anon_record_at(decls, u0, j) {
                        lemma_anon_somewhere_first(decls, u0, j);
                        assert(before.spec_tag(u0) is Some);
                    }
                }
            }
            let j = choose|j: int| first_anon_record(decls, u0, j);
            lemma_first_anon_unique(decls, u0, i, j);
        } else {
            assert(cur.contains_key(u) == before.contains_key(u)) by {
                if cur.contains_key(u) {
                    let a = choose|a: int| 0 <= a < cur.spec_len() && cur.key_at(a) == u;
                    assert(a != n);
                    assert(cur.entries@[a] == before.entries@[a]);
                    assert(before.key_at(a) == u);
                }
                if before.contains_key(u) {
                    let a = choose|a: int|
                        0 <= a < before.spec_len() && before.key_at(a) == u;
                    assert(cur.entries@[a] == before.entries@[a]);
                    assert(cur.key_at(a) == u);
                }
            }
            if cur.contains_key(u) {
                let a = choose|a: int| 0 <= a < cur.spec_len() && cur.key_at(a) == u;
                assert(a != n);
                assert(cur.entries@[a] == before.entries@[a]);
                let b = choose|b: int| 0 <= b < before.spec_len() && before.key_at(b) == u;
                if a != b {
                    if a < b {
                        assert(before.key_at(a) != before.key_at(b));
                    } else {
                        assert(before.key_at(b) != before.key_at(a));
                    }
                }
                assert(cur.spec_tag(u) == before.spec_tag(u));
            }
            assert((exists|j: int| 0 <= j < i + 1 && first_anon_record(decls, u, j)) == (
            exists|j: int| 0 <= j < i && first_anon_record(decls, u, j))) by {
                if exists|j: int| 0 <= j < i + 1 && first_anon_record(decls, u, j) {
                    let j = choose|j: int|
                        0 <= j < i + 1 && first_anon_record(decls, u, j);
                    if j == i {
                        assert(anon_record_at(decls, u, i) && anon_record_at(decls, u0, i));
                        assert(false);
                    }
                }
            }
        }
    }
}

proof fn lemma_anon_somewhere_first(decls: Seq<CDecl>, u: Seq<char>, j: int)
    requires
        0 <= j < decls.len(),
        anon_record_at(decls, u, j),
    ensures
        exists|k: int| 0 <= k <= j && first_anon_record(decls, u, k),
    decreases j,
{
    if forall|x: int| 0 <= x < j ==> !anon_record_at(decls, u, x) {
        assert(first_anon_record(decls, u, j));
    } else {
        let x = choose|x: int| 0 <= x < j && anon_record_at(decls, u, x);
        lemma_anon_somewhere_first(decls, u, x);
    }
}


/// Why naming failed. These are consistency failures of the pipeline and
/// are never swallowed.
#[derive(Debug)]
pub enum NamerError {
    /// An anonymous record's USR has no recorded usage, or sits on a
    /// cyclic chain of anonymous records.
    UnresolvedRecord { usr: String },
    /// A synthesized name could not be interned.
    InvalidSynthesizedName,
}

/// No anonymous record reference remains anywhere in the declaration.
pub open spec fn decl_no_anon(d: CDecl) -> bool {
    match d {
        CDecl::Typedef(td) => base_no_anon(td.underlying.ty),
        CDecl::Fn(fd) => base_no_anon(fd.ret.ty) && forall|i: int|
            0 <= i < fd.parameters@.len() ==> base_no_anon(
                (#[trigger] fd.parameters@[i]).ty.ty,
            ),
        CDecl::Enum(ed) => base_no_anon(ed.ty.ty),
        CDecl::Var(vd) => base_no_anon(vd.ty.ty),
        CDecl::Struct(rd) => record_no_anon(*rd),
        CDecl::Union(rd) => record_no_anon(*rd),
    }
}

/// No anonymous reference remains in the record: not its own name, none in
/// a field type, none among the subrecord entries.
pub open spec fn record_no_anon(rd: CStructDecl) -> bool {
    &&& rd.name is Named
    &&& forall|i: int| 0 <= i < rd.fields@.len() ==> base_no_anon((#[trigger] rd.fields@[i]).ty.ty)
    &&& forall|i: int| 0 <= i < rd.subrecords@.len() ==> (#[trigger] rd.subrecords@[i]) is Named
}

/// Every anonymous reference in the base type resolves to an internable
/// name under its own tag.
pub open spec fn base_resolvable(m: UsageMap, b: CBaseType) -> bool
    decreases b, 0int,
{
    match b {
        CBaseType::Record(s, RecordName::Anonymous(u)) => match spec_resolved(
            m,
            u@,
            m.tags.spec_effective(u@, s),
        ) {
            Some(n) => !has_sep(n),
            None => false,
        },
        CBaseType::Array(e, _) => base_resolvable(m, e.ty),
        CBaseType::Pointer(e) => base_resolvable(m, e.ty),
        CBaseType::FunProto(ret, ps) => base_resolvable(m, ret.ty) && forall|i: int|
            0 <= i < ps.len() ==> base_resolvable(m, (#[trigger] ps[i]).ty.ty),
        _ => true,
    }
}

/// Every anonymous reference in the declaration resolves; a record's own
/// name resolves under its own tag, its subrecord entries under the
/// parent's tag.
pub open spec fn decl_resolvable(m: UsageMap, d: CDecl) -> bool {
    match d {
        CDecl::Typedef(td) => base_resolvable(m, td.underlying.ty),
        CDecl::Fn(fd) => base_resolvable(m, fd.ret.ty) && forall|i: int|
            0 <= i < fd.parameters@.len() ==> base_resolvable(
                m,
                (#[trigger] fd.parameters@[i]).ty.ty,
            ),
        CDecl::Enum(ed) => base_resolvable(m, ed.ty.ty),
        CDecl::Var(vd) => base_resolvable(m, vd.ty.ty),
        CDecl::Struct(rd) => record_resolvable(m, *rd, true),
        CDecl::Union(rd) => record_resolvable(m, *rd, false),
    }
}

/// Every anonymous reference of the record resolves.
pub open spec fn record_resolvable(m: UsageMap, rd: CStructDecl, is_struct: bool) -> bool {
    &&& (match rd.name {
        RecordName::Anonymous(u) => match spec_resolved(
            m,
            u@,
            m.tags.spec_effective(u@, is_struct),
        ) {
            Some(n) => !has_sep(n),
            None => false,
        },
        RecordName::Named(_) => true,
    })
    &&& forall|i: int|
        0 <= i < rd.fields@.len() ==> base_resolvable(m, (#[trigger] rd.fields@[i]).ty.ty)
    &&& forall|i: int|
        0 <= i < rd.subrecords@.len() ==> (match #[trigger] rd.subrecords@[i] {
            RecordName::Anonymous(u) => match spec_resolved(
                m,
                u@,
                m.tags.spec_effective(u@, is_struct),
            ) {
                Some(n) => !has_sep(n),
                None => false,
            },
            RecordName::Named(_) => true,
        })
}

/// A rewritten record name: a named reference is kept; an anonymous one is
/// replaced by an identifier whose original text is the synthesized name.
/// The prefix follows the USR's own struct/union tag where the record is
/// declared in the sequence; `site` — the tag the reference itself
/// carries — stands in only for a USR with no declaration.
pub open spec fn name_rewritten(
    it: Interner,
    out: RecordName,
    inp: RecordName,
    m: UsageMap,
    site: bool,
) -> bool {
    match inp {
        RecordName::Named(id) => out == RecordName::Named(id),
        RecordName::Anonymous(u) => out matches RecordName::Named(id) && it.holds(id) && Some(
            it.text_at(id.idx as int),
        ) == spec_resolved(m, u@, m.tags.spec_effective(u@, site)),
    }
}

/// The rewritten base type: the same structure, with every anonymous
/// record reference replaced by its synthesized named form.
pub open spec fn base_rewritten(it: Interner, out: CBaseType, inp: CBaseType, m: UsageMap) -> bool
    decreases inp, 0int,
{
    match inp {
        CBaseType::Record(s, nm) => out matches CBaseType::Record(s2, nm2) && s2 == s
            && name_rewritten(it, nm2, nm, m, s),
        CBaseType::Array(e, len) => out matches CBaseType::Array(oe, olen) && olen == len
            && oe.is_const == e.is_const && base_rewritten(it, oe.ty, e.ty, m),
        CBaseType::Pointer(e) => out matches CBaseType::Pointer(oe) && oe.is_const == e.is_const
            && base_rewritten(it, oe.ty, e.ty, m),
        CBaseType::FunProto(ret, ps) => out matches CBaseType::FunProto(oret, ops) && {
            &&& oret.is_const == ret.is_const
            &&& base_rewritten(it, oret.ty, ret.ty, m)
            &&& ops.len() == ps.len()
            &&& forall|i: int|
                0 <= i < ps.len() ==> {
                    &&& (#[trigger] ops[i]).name == ps[i].name
                    &&& ops[i].ty.is_const == ps[i].ty.is_const
                    &&& base_rewritten(it, ops[i].ty.ty, ps[i].ty.ty, m)
                }
        },
        _ => out == inp,
    }
}

/// Rewriting facts only mention slots the table already has, so they
/// survive later interning.
pub proof fn lemma_base_rewritten_mono(
    it1: Interner,
    it2: Interner,
    out: CBaseType,
    inp: CBaseType,
    m: UsageMap,
)
    requires
        it2.extends(it1),
        base_rewritten(it1, out, inp, m),
    ensures
        base_rewritten(it2, out, inp, m),
    decreases inp, 0int,
{
    match inp {
        CBaseType::Array(e, _) => {
            if let CBaseType::Array(oe, _) = out {
                lemma_base_rewritten_mono(it1, it2, oe.ty, e.ty, m);
            }
        },
        CBaseType::Pointer(e) => {
            if let CBaseType::Pointer(oe) = out {
                lemma_base_rewritten_mono(it1, it2, oe.ty, e.ty, m);
            }
        },
        CBaseType::FunProto(ret, ps) => {
            if let CBaseType::FunProto(oret, ops) = out {
                lemma_base_rewritten_mono(it1, it2, oret.ty, ret.ty, m);
                assert forall|i: int| 0 <= i < ps.len() implies {
                    &&& (#[trigger] ops[i]).name == ps[i].name
                    &&& ops[i].ty.is_const == ps[i].ty.is_const
                    &&& base_rewritten(it2, ops[i].ty.ty, ps[i].ty.ty, m)
                } by {
                    lemma_base_rewritten_mono(it1, it2, ops[i].ty.ty, ps[i].ty.ty, m);
                }
            }
        },
        _ => {},
    }
}

fn rewrite_record_name(
    table: &mut Interner,
    m: &UsageMap,
    name: RecordName,
    is_struct: bool,
) -> (r: Result<RecordName, NamerError>)
    requires
        old(table).wf(),
        m.wf(),
    ensures
        final(table).wf(),
        final(table).extends(*old(table)),
        crate::ident::renames_frozen(*old(table), *final(table)),
        match r {
            Ok(out) => name_rewritten(*final(table), out, name, *m, is_struct) && out is Named,
            Err(_) => (match name {
                RecordName::Anonymous(u) => match spec_resolved(
                    *m,
                    u@,
                    m.tags.spec_effective(u@, is_struct),
                ) {
                    Some(n) => has_sep(n),
                    None => true,
                },
                RecordName::Named(_) => false,
            }),
        },
{
    match name {
        RecordName::Named(id) => Ok(RecordName::Named(id)),
        RecordName::Anonymous(usr) => {
            let tag = m.tags.effective(usr.as_str(), is_struct);
            match resolve_name(m, usr.as_str(), tag) {
                Some(text) => {
                    match table.intern(text.as_str()) {
                        Ok(id) => Ok(RecordName::Named(id)),
                        Err(_) => Err(NamerError::InvalidSynthesizedName),
                    }
                },
                None => Err(NamerError::UnresolvedRecord { usr }),
            }
        },
    }
}

fn rewrite_base(table: &mut Interner, m: &UsageMap, b: CBaseType) -> (r: Result<
    CBaseType,
    NamerError,
>)
    requires
        old(table).wf(),
        m.wf(),
    ensures
        final(table).wf(),
        final(table).extends(*old(table)),
        crate::ident::renames_frozen(*old(table), *final(table)),
        match r {
            Ok(out) => base_rewritten(*final(table), out, b, *m) && base_no_anon(out),
            Err(_) => !base_resolvable(*m, b),
        },
    decreases b, 0int,
{
    match b {
        CBaseType::Record(s, nm) => {
            let out = rewrite_record_name(table, m, nm, s)?;
            Ok(CBaseType::Record(s, out))
        },
        CBaseType::Array(e, len) => {
            let inner = rewrite_base(table, m, e.ty)?;
            Ok(CBaseType::Array(Box::new(CType { is_const: e.is_const, ty: inner }), len))
        },
        CBaseType::Pointer(e) => {
            let inner = rewrite_base(table, m, e.ty)?;
            Ok(CBaseType::Pointer(Box::new(CType { is_const: e.is_const, ty: inner })))
        },
        CBaseType::FunProto(ret, ps) => {
            let ret_inner = *ret;
            let ret_const = ret_inner.is_const;
            let ghost gret = ret_inner;
            let r2 = rewrite_base(table, m, ret_inner.ty)?;
            let ghost mid = *table;
            let ops = rewrite_params(table, m, ps)?;
            proof {
                lemma_base_rewritten_mono(mid, *table, r2, gret.ty, *m);
            }
            Ok(CBaseType::FunProto(Box::new(CType { is_const: ret_const, ty: r2 }), ops))
        },
        other => Ok(other),
    }
}

fn rewrite_params(table: &mut Interner, m: &UsageMap, ins: Vec<CParam>) -> (r: Result<
    Vec<CParam>,
    NamerError,
>)
    requires
        old(table).wf(),
        m.wf(),
    ensures
        final(table).wf(),
        final(table).extends(*old(table)),
        crate::ident::renames_frozen(*old(table), *final(table)),
        match r {
            Ok(outs) => outs@.len() == ins@.len() && forall|i: int|
                0 <= i < ins@.len() ==> {
                    &&& (#[trigger] outs@[i]).name == ins@[i].name
                    &&& outs@[i].ty.is_const == ins@[i].ty.is_const
                    &&& base_rewritten(*final(table), outs@[i].ty.ty, ins@[i].ty.ty, *m)
                    &&& base_no_anon(outs@[i].ty.ty)
                },
            Err(_) => exists|i: int|
                0 <= i < ins@.len() && !base_resolvable(*m, (#[trigger] ins@[i]).ty.ty),
        },
    decreases ins@, 1int,
{
    let ghost entry_ins = ins@;
    let mut ins = ins;
    if ins.len() == 0 {
        return Ok(ins);
    }
    let head = ins.remove(0);
    proof {
        assert(ins@ =~= entry_ins.subrange(1, entry_ins.len() as int));
    }
    let hb = rewrite_base(table, m, head.ty.ty)?;
    let ghost mid = *table;
    let mut rest = rewrite_params(table, m, ins)?;
    proof {
        lemma_base_rewritten_mono(mid, *table, hb, entry_ins[0].ty.ty, *m);
    }
    let ghost rest0 = rest@;
    rest.insert(
        0,
        CParam { name: head.name, ty: CType { is_const: head.ty.is_const, ty: hb } },
    );
    proof {
        assert forall|i: int| 0 <= i < entry_ins.len() implies {
            &&& (#[trigger] rest@[i]).name == entry_ins[i].name
            &&& rest@[i].ty.is_const == entry_ins[i].ty.is_const
            &&& base_rewritten(*table, rest@[i].ty.ty, entry_ins[i].ty.ty, *m)
            &&& base_no_anon(rest@[i].ty.ty)
        } by {
            if i > 0 {
                assert(rest@[i] == rest0[i - 1]);
                assert(entry_ins.subrange(1, entry_ins.len() as int)[i - 1] == entry_ins[i]);
            }
        }
    }
    Ok(rest)
}

fn rewrite_ty(table: &mut Interner, m: &UsageMap, ty: CType) -> (r: Result<CType, NamerError>)
    requires
        old(table).wf(),
        m.wf(),
    ensures
        final(table).wf(),
        final(table).extends(*old(table)),
        crate::ident::renames_frozen(*old(table), *final(table)),
        match r {
            Ok(out) => out.is_const == ty.is_const && base_rewritten(
                *final(table),
                out.ty,
                ty.ty,
                *m,
            ) && base_no_anon(out.ty),
            Err(_) => !base_resolvable(*m, ty.ty),
        },
{
    let is_const = ty.is_const;
    let b = rewrite_base(table, m, ty.ty)?;
    Ok(CType { is_const, ty: b })
}


/// The rewritten record declaration: name, fields and subrecord entries
/// resolved; everything else kept.
pub open spec fn record_rewritten(
    it: Interner,
    ord: CStructDecl,
    rd: CStructDecl,
    m: UsageMap,
    is_struct: bool,
) -> bool {
    &&& name_rewritten(it, ord.name, rd.name, m, is_struct)
    &&& ord.is_definition == rd.is_definition
    &&& ord.fields@.len() == rd.fields@.len()
    &&& forall|i: int|
        0 <= i < rd.fields@.len() ==> {
            &&& (#[trigger] ord.fields@[i]).name == rd.fields@[i].name
            &&& ord.fields@[i].ty.is_const == rd.fields@[i].ty.is_const
            &&& base_rewritten(it, ord.fields@[i].ty.ty, rd.fields@[i].ty.ty, m)
        }
    &&& ord.subrecords@.len() == rd.subrecords@.len()
    &&& forall|i: int|
        0 <= i < rd.subrecords@.len() ==> name_rewritten(
            it,
            #[trigger] ord.subrecords@[i],
            rd.subrecords@[i],
            m,
            is_struct,
        )
}

/// The rewritten declaration: every anonymous record reference replaced by
/// its synthesized named form, everything else kept.
pub open spec fn decl_rewritten(it: Interner, out: CDecl, inp: CDecl, m: UsageMap) -> bool {
    match inp {
        CDecl::Typedef(td) => out matches CDecl::Typedef(otd) && otd.name == td.name
            && otd.underlying.is_const == td.underlying.is_const && base_rewritten(
            it,
            otd.underlying.ty,
            td.underlying.ty,
            m,
        ),
        CDecl::Fn(fd) => out matches CDecl::Fn(ofd) && {
            &&& ofd.name == fd.name
            &&& ofd.ret.is_const == fd.ret.is_const
            &&& base_rewritten(it, ofd.ret.ty, fd.ret.ty, m)
            &&& ofd.parameters@.len() == fd.parameters@.len()
            &&& forall|i: int|
                0 <= i < fd.parameters@.len() ==> {
                    &&& (#[trigger] ofd.parameters@[i]).name == fd.parameters@[i].name
                    &&& ofd.parameters@[i].ty.is_const == fd.parameters@[i].ty.is_const
                    &&& base_rewritten(
                        it,
                        ofd.parameters@[i].ty.ty,
                        fd.parameters@[i].ty.ty,
                        m,
                    )
                }
        },
        CDecl::Enum(ed) => out matches CDecl::Enum(oed) && oed.name == ed.name && oed.members@
            == ed.members@ && oed.ty.is_const == ed.ty.is_const && base_rewritten(
            it,
            oed.ty.ty,
            ed.ty.ty,
            m,
        ),
        CDecl::Var(vd) => out matches CDecl::Var(ovd) && ovd.name == vd.name
            && ovd.ty.is_const == vd.ty.is_const && base_rewritten(it, ovd.ty.ty, vd.ty.ty, m),
        CDecl::Struct(rd) => out matches CDecl::Struct(ord) && record_rewritten(
            it,
            *ord,
            *rd,
            m,
            true,
        ),
        CDecl::Union(rd) => out matches CDecl::Union(ord) && record_rewritten(
            it,
            *ord,
            *rd,
            m,
            false,
        ),
    }
}

/// Rewriting facts survive later interning.
pub proof fn lemma_decl_rewritten_mono(
    it1: Interner,
    it2: Interner,
    out: CDecl,
    inp: CDecl,
    m: UsageMap,
)
    requires
        it2.extends(it1),
        decl_rewritten(it1, out, inp, m),
    ensures
        decl_rewritten(it2, out, inp, m),
{
    match inp {
        CDecl::Typedef(td) => {
            if let CDecl::Typedef(otd) = out {
                lemma_base_rewritten_mono(it1, it2, otd.underlying.ty, td.underlying.ty, m);
            }
        },
        CDecl::Fn(fd) => {
            if let CDecl::Fn(ofd) = out {
                lemma_base_rewritten_mono(it1, it2, ofd.ret.ty, fd.ret.ty, m);
                assert forall|i: int| 0 <= i < fd.parameters@.len() implies {
                    &&& (#[trigger] ofd.parameters@[i]).name == fd.parameters@[i].name
                    &&& ofd.parameters@[i].ty.is_const == fd.parameters@[i].ty.is_const
                    &&& base_rewritten(
                        it2,
                        ofd.parameters@[i].ty.ty,
                        fd.parameters@[i].ty.ty,
                        m,
                    )
                } by {
                    lemma_base_rewritten_mono(
                        it1,
                        it2,
                        ofd.parameters@[i].ty.ty,
                        fd.parameters@[i].ty.ty,
                        m,
                    );
                }
            }
        },
        CDecl::Enum(ed) => {
            if let CDecl::Enum(oed) = out {
                lemma_base_rewritten_mono(it1, it2, oed.ty.ty, ed.ty.ty, m);
            }
        },
        CDecl::Var(vd) => {
            if let CDecl::Var(ovd) = out {
                lemma_base_rewritten_mono(it1, it2, ovd.ty.ty, vd.ty.ty, m);
            }
        },
        CDecl::Struct(rd) => {
            if let CDecl::Struct(ord) = out {
                lemma_record_rewritten_mono(it1, it2, *ord, *rd, m, true);
            }
        },
        CDecl::Union(rd) => {
            if let CDecl::Union(ord) = out {
                lemma_record_rewritten_mono(it1, it2, *ord, *rd, m, false);
            }
        },
    }
}

proof fn lemma_record_rewritten_mono(
    it1: Interner,
    it2: Interner,
    ord: CStructDecl,
    rd: CStructDecl,
    m: UsageMap,
    is_struct: bool,
)
    requires
        it2.extends(it1),
        record_rewritten(it1, ord, rd, m, is_struct),
    ensures
        record_rewritten(it2, ord, rd, m, is_struct),
{
    assert forall|i: int| 0 <= i < rd.fields@.len() implies {
        &&& (#[trigger] ord.fields@[i]).name == rd.fields@[i].name
        &&& ord.fields@[i].ty.is_const == rd.fields@[i].ty.is_const
        &&& base_rewritten(it2, ord.fields@[i].ty.ty, rd.fields@[i].ty.ty, m)
    } by {
        lemma_base_rewritten_mono(it1, it2, ord.fields@[i].ty.ty, rd.fields@[i].ty.ty, m);
    }
}

fn rewrite_fields(table: &mut Interner, m: &UsageMap, ins: Vec<CFieldDecl>) -> (r: Result<
    Vec<CFieldDecl>,
    NamerError,
>)
    requires
        old(table).wf(),
        m.wf(),
    ensures
        final(table).wf(),
        final(table).extends(*old(table)),
        crate::ident::renames_frozen(*old(table), *final(table)),
        match r {
            Ok(outs) => outs@.len() == ins@.len() && forall|i: int|
                0 <= i < ins@.len() ==> {
                    &&& (#[trigger] outs@[i]).name == ins@[i].name
                    &&& outs@[i].ty.is_const == ins@[i].ty.is_const
                    &&& base_rewritten(*final(table), outs@[i].ty.ty, ins@[i].ty.ty, *m)
                    &&& base_no_anon(outs@[i].ty.ty)
                },
            Err(_) => exists|i: int|
                0 <= i < ins@.len() && !base_resolvable(*m, (#[trigger] ins@[i]).ty.ty),
        },
    decreases ins@, 1int,
{
    let ghost entry_ins = ins@;
    let mut ins = ins;
    if ins.len() == 0 {
        return Ok(ins);
    }
    let head = ins.remove(0);
    proof {
        assert(ins@ =~= entry_ins.subrange(1, entry_ins.len() as int));
    }
    let hty = rewrite_ty(table, m, head.ty)?;
    let ghost mid = *table;
    let mut rest = rewrite_fields(table, m, ins)?;
    proof {
        lemma_base_rewritten_mono(mid, *table, hty.ty, entry_ins[0].ty.ty, *m);
    }
    let ghost rest0 = rest@;
    rest.insert(0, CFieldDecl { name: head.name, ty: hty });
    proof {
        assert forall|i: int| 0 <= i < entry_ins.len() implies {
            &&& (#[trigger] rest@[i]).name == entry_ins[i].name
            &&& rest@[i].ty.is_const == entry_ins[i].ty.is_const
            &&& base_rewritten(*table, rest@[i].ty.ty, entry_ins[i].ty.ty, *m)
            &&& base_no_anon(rest@[i].ty.ty)
        } by {
            if i > 0 {
                assert(rest@[i] == rest0[i - 1]);
                assert(entry_ins.subrange(1, entry_ins.len() as int)[i - 1] == entry_ins[i]);
            }
        }
    }
    Ok(rest)
}

fn rewrite_subnames(
    table: &mut Interner,
    m: &UsageMap,
    ins: Vec<RecordName>,
    is_struct: bool,
) -> (r: Result<Vec<RecordName>, NamerError>)
    requires
        old(table).wf(),
        m.wf(),
    ensures
        final(table).wf(),
        final(table).extends(*old(table)),
        crate::ident::renames_frozen(*old(table), *final(table)),
        match r {
            Ok(outs) => outs@.len() == ins@.len() && forall|i: int|
                0 <= i < ins@.len() ==> name_rewritten(
                    *final(table),
                    #[trigger] outs@[i],
                    ins@[i],
                    *m,
                    is_struct,
                ) && outs@[i] is Named,
            Err(_) => exists|i: int|
                {
                    &&& 0 <= i < ins@.len()
                    &&& (match #[trigger] ins@[i] {
                        RecordName::Anonymous(u) => match spec_resolved(
                            *m,
                            u@,
                            m.tags.spec_effective(u@, is_struct),
                        ) {
                            Some(n) => has_sep(n),
                            None => true,
                        },
                        RecordName::Named(_) => false,
                    })
                },
        },
    decreases ins@, 1int,
{
    let ghost entry_ins = ins@;
    let mut ins = ins;
    if ins.len() == 0 {
        return Ok(ins);
    }
    let head = ins.remove(0);
    proof {
        assert(ins@ =~= entry_ins.subrange(1, entry_ins.len() as int));
    }
    let hn = rewrite_record_name(table, m, head, is_struct)?;
    let mut rest = rewrite_subnames(table, m, ins, is_struct)?;
    let ghost rest0 = rest@;
    rest.insert(0, hn);
    proof {
        assert forall|i: int| 0 <= i < entry_ins.len() implies name_rewritten(
            *table,
            #[trigger] rest@[i],
            entry_ins[i],
            *m,
            is_struct,
        ) && rest@[i] is Named by {
            if i > 0 {
                assert(rest@[i] == rest0[i - 1]);
                assert(entry_ins.subrange(1, entry_ins.len() as int)[i - 1] == entry_ins[i]);
            }
        }
    }
    Ok(rest)
}

fn rewrite_decl(table: &mut Interner, m: &UsageMap, d: CDecl) -> (r: Result<CDecl, NamerError>)
    requires
        old(table).wf(),
        m.wf(),
    ensures
        final(table).wf(),
        final(table).extends(*old(table)),
        crate::ident::renames_frozen(*old(table), *final(table)),
        match r {
            Ok(nd) => decl_rewritten(*final(table), nd, d, *m) && decl_no_anon(nd),
            Err(_) => !decl_resolvable(*m, d),
        },
{
    match d {
        CDecl::Typedef(td) => {
            let name = td.name;
            let underlying = rewrite_ty(table, m, td.underlying)?;
            Ok(CDecl::Typedef(Box::new(crate::decl::CTypedefDecl { name, underlying })))
        },
        CDecl::Fn(fd) => {
            let name = fd.name;
            let ret_inner = *fd.ret;
            let ghost gret = ret_inner;
            let nret = rewrite_ty(table, m, ret_inner)?;
            let ghost mid = *table;
            let nparams = rewrite_params(table, m, fd.parameters)?;
            proof {
                lemma_base_rewritten_mono(mid, *table, nret.ty, gret.ty, *m);
            }
            Ok(
                CDecl::Fn(
                    Box::new(
                        crate::decl::CFnDecl {
                            name,
                            ret: Box::new(nret),
                            parameters: nparams,
                        },
                    ),
                ),
            )
        },
        CDecl::Enum(ed) => {
            let name = ed.name;
            let members = ed.members;
            let nty = rewrite_ty(table, m, ed.ty)?;
            Ok(CDecl::Enum(Box::new(crate::decl::CEnumDecl { name, ty: nty, members })))
        },
        CDecl::Var(vd) => {
            let name = vd.name;
            let nty = rewrite_ty(table, m, vd.ty)?;
            Ok(CDecl::Var(Box::new(CVarDecl { name, ty: nty })))
        },
        CDecl::Struct(rd) => {
            let out = rewrite_record(table, m, *rd, true)?;
            Ok(CDecl::Struct(Box::new(out)))
        },
        CDecl::Union(rd) => {
            let out = rewrite_record(table, m, *rd, false)?;
            Ok(CDecl::Union(Box::new(out)))
        },
    }
}

fn rewrite_record(table: &mut Interner, m: &UsageMap, rd: CStructDecl, is_struct: bool) -> (r:
    Result<CStructDecl, NamerError>)
    requires
        old(table).wf(),
        m.wf(),
    ensures
        final(table).wf(),
        final(table).extends(*old(table)),
        crate::ident::renames_frozen(*old(table), *final(table)),
        match r {
            Ok(out) => record_rewritten(*final(table), out, rd, *m, is_struct)
                && record_no_anon(out),
            Err(_) => !record_resolvable(*m, rd, is_struct),
        },
{
    let ghost grd = rd;
    let is_definition = rd.is_definition;
    let name = rewrite_record_name(table, m, rd.name, is_struct)?;
    let ghost mid1 = *table;
    let fields = rewrite_fields(table, m, rd.fields)?;
    let ghost mid2 = *table;
    let subrecords = rewrite_subnames(table, m, rd.subrecords, is_struct)?;
    proof {
        match grd.name {
            RecordName::Named(_) => {},
            RecordName::Anonymous(_) => {
                assert(mid2.text_at(name->Named_0.idx as int) == mid1.text_at(
                    name->Named_0.idx as int,
                ));
                assert(table.text_at(name->Named_0.idx as int) == mid2.text_at(
                    name->Named_0.idx as int,
                ));
            },
        }
        assert forall|i: int| 0 <= i < grd.fields@.len() implies {
            &&& (#[trigger] fields@[i]).name == grd.fields@[i].name
            &&& fields@[i].ty.is_const == grd.fields@[i].ty.is_const
            &&& base_rewritten(*table, fields@[i].ty.ty, grd.fields@[i].ty.ty, *m)
        } by {
            lemma_base_rewritten_mono(mid2, *table, fields@[i].ty.ty, grd.fields@[i].ty.ty, *m);
        }
    }
    Ok(CStructDecl { name, fields, is_definition, subrecords })
}

/// Every output declaration is the rewritten form of its input.
pub open spec fn all_rewritten(it: Interner, out: Seq<CDecl>, ds: Seq<CDecl>, m: UsageMap) -> bool {
    forall|i: int| 0 <= i < ds.len() ==> decl_rewritten(it, #[trigger] out[i], ds[i], m)
}

/// Some declaration of the sequence has an unresolvable anonymous record.
pub open spec fn some_unresolvable(m: UsageMap, ds: Seq<CDecl>) -> bool {
    exists|i: int| 0 <= i < ds.len() && !decl_resolvable(m, #[trigger] ds[i])
}

/// Rewrites a flat declaration sequence so that no anonymous record
/// reference remains: every anonymous record's own name, every occurrence
/// inside a type, and every subrecord entry is replaced by its synthesized
/// `Named` form. A USR with no recorded usage, or one on a cyclic chain of
/// anonymous records, aborts loudly.
pub fn name_unnamed_structs(decls: Vec<CDecl>, table: &mut Interner) -> (r: Result<
    Vec<CDecl>,
    NamerError,
>)
    requires
        old(table).wf(),
        forall|i: int|
            0 <= i < decls@.len() ==> crate::decl::decl_ids_ok(
                *old(table),
                #[trigger] decls@[i],
            ),
    ensures
        final(table).wf(),
        final(table).extends(*old(table)),
        crate::ident::renames_frozen(*old(table), *final(table)),
        match r {
            Ok(out) => {
                &&& out@.len() == decls@.len()
                &&& forall|i: int| 0 <= i < out@.len() ==> decl_no_anon(#[trigger] out@[i])
                &&& exists|m: UsageMap|
                    {
                        &&& #[trigger] m.wf()
                        &&& collected_from(m, decls@, *old(table))
                        &&& tags_collected(m.tags, decls@)
                        &&& all_rewritten(*final(table), out@, decls@, m)
                    }
            },
            Err(_) => exists|m: UsageMap|
                {
                    &&& #[trigger] m.wf()
                    &&& collected_from(m, decls@, *old(table))
                    &&& tags_collected(m.tags, decls@)
                    &&& some_unresolvable(m, decls@)
                },
        },
{
    let mut m = collect_usages(table, &decls);
    let ghost m0 = m;
    m.tags = collect_tags(&decls);
    proof {
        assert(m.entries == m0.entries);
        assert forall|i: int, j: int| 0 <= i < j < m.spec_len() implies m.key_at(i)
            != m.key_at(j) by {
            assert(m0.key_at(i) != m0.key_at(j));
        }
        assert forall|i: int|
            0 <= i < m.spec_len() implies (#[trigger] m.entries@[i].usages@).len() > 0 by {
            assert(m0.entries@[i].usages@.len() > 0);
        }
        assert(m.wf());
        assert forall|i: int| 0 <= i < decls@.len() implies decl_usages_covered(
            m,
            #[trigger] decls@[i],
        ) by {
            lemma_covered_same_entries(m0, m, decls@[i]);
        }
        lemma_collected_same_entries(m0, m, decls@, *table);
    }
    let ghost orig = decls@;
    let mut rest = decls;
    let mut out: Vec<CDecl> = Vec::new();
    while rest.len() > 0
        invariant
            orig == decls@,
            m.wf(),
            tags_collected(m.tags, orig),
            collected_from(m, orig, *old(table)),
            forall|j: int|
                0 <= j < orig.len() ==> decl_usages_covered(m, #[trigger] orig[j]),
            table.wf(),
            table.extends(*old(table)),
            crate::ident::renames_frozen(*old(table), *table),
            out@.len() + rest@.len() == orig.len(),
            forall|j: int| 0 <= j < rest@.len() ==> #[trigger] rest@[j] == orig[out@.len() + j],
            forall|j: int|
                0 <= j < out@.len() ==> decl_rewritten(*table, #[trigger] out@[j], orig[j], m)
                    && decl_no_anon(out@[j]),
        decreases rest@.len(),
    {
        let ghost rest_before = rest@;
        let d = rest.remove(0);
        proof {
            assert(rest@ =~= rest_before.subrange(1, rest_before.len() as int));
            assert forall|j: int| 0 <= j < rest@.len() implies #[trigger] rest@[j] == orig[out@.len()
                + 1 + j] by {
                assert(rest@[j] == rest_before[j + 1]);
            }
        }
        let ghost mid = *table;
        let nd = match rewrite_decl(table, &m, d) {
            Ok(nd) => nd,
            Err(e) => {
                proof {
                    assert(d == orig[out@.len() as int]);
                    assert(m.wf());
                    assert(0 <= out@.len() < orig.len() && !decl_resolvable(
                        m,
                        orig[out@.len() as int],
                    ));
                    assert(some_unresolvable(m, orig));
                    assert(collected_from(m, orig, *old(table)));
                    assert(tags_collected(m.tags, orig));
                }
                return Err(e);
            },
        };
        proof {
            assert forall|j: int| 0 <= j < out@.len() implies decl_rewritten(
                *table,
                #[trigger] out@[j],
                orig[j],
                m,
            ) && decl_no_anon(out@[j]) by {
                lemma_decl_rewritten_mono(mid, *table, out@[j], orig[j], m);
            }
        }
        out.push(nd);
    }
    proof {
        assert(out@.len() == orig.len());
        assert(collected_from(m, orig, *old(table)));
        assert(tags_collected(m.tags, orig));
        assert(all_rewritten(*table, out@, orig, m));
        assert(m.wf());
    }
    Ok(out)
}

} // verus!

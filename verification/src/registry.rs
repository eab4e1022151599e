//! The registry: the canonical document describing one translation unit's
//! API, with one map per entity kind, keyed by identifier.

use vstd::prelude::*;

use crate::entity::{
    params_consistent, Bitmask, Command, Constant, Enumeration, FunctionTypedef, Import,
    OpaqueHandleTypedef, OpaqueTypedef, Structure, Typedef,
};
use crate::ident::Identifier;

verus! {

/// A map from identifiers to entities: an association vector with unique
/// keys, in insertion order.
#[derive(Debug)]
pub struct IdMap<T> {
    pub entries: Vec<(Identifier, T)>,
}

impl<T> IdMap<T> {
    /// Number of entries.
    pub open spec fn spec_len(self) -> nat {
        self.entries@.len()
    }

    /// The key of entry `i`.
    pub open spec fn key_at(self, i: int) -> Identifier {
        self.entries@[i].0
    }

    /// Some entry carries this key.
    pub open spec fn contains(self, k: Identifier) -> bool {
        exists|i: int| 0 <= i < self.spec_len() && self.key_at(i) == k
    }

    /// The value stored under a key, if any.
    pub open spec fn spec_get(self, k: Identifier) -> Option<T> {
        if self.contains(k) {
            let i = choose|i: int| 0 <= i < self.spec_len() && self.key_at(i) == k;
            Some(self.entries@[i].1)
        } else {
            None
        }
    }

    /// Map invariant: keys are distinct.
    pub open spec fn wf(self) -> bool {
        forall|i: int, j: int| 0 <= i < j < self.spec_len() ==> self.key_at(i) != self.key_at(j)
    }

    /// Creates an empty map.
    pub fn new() -> (r: IdMap<T>)
        ensures
            r.spec_len() == 0,
            r.wf(),
    {
        IdMap { entries: Vec::new() }
    }

    /// Number of entries.
    pub fn len(&self) -> (r: usize)
        ensures
            r == self.spec_len(),
    {
        self.entries.len()
    }

    fn find(&self, k: Identifier) -> (r: Option<usize>)
        ensures
            match r {
                Some(i) => i < self.spec_len() && self.key_at(i as int) == k,
                None => !self.contains(k),
            },
    {
        let n = self.entries.len();
        let mut i: usize = 0;
        while i < n
            invariant
                i <= n,
                n == self.spec_len(),
                forall|j: int| 0 <= j < i ==> self.key_at(j) != k,
            decreases n - i,
        {
            if self.entries[i].0 == k {
                return Some(i);
            }
            i = i + 1;
        }
        None
    }

    /// The value stored under a key, if any.
    pub fn get(&self, k: Identifier) -> (r: Option<&T>)
        requires
            self.wf(),
        ensures
            match r {
                Some(v) => self.spec_get(k) == Some(*v),
                None => self.spec_get(k) is None,
            },
    {
        match self.find(k) {
            Some(i) => {
                proof {
                    let j = choose|j: int| 0 <= j < self.spec_len() && self.key_at(j) == k;
                    if j != i {
                        if j < i {
                            assert(self.key_at(j) != self.key_at(i as int));
                        } else {
                            assert(self.key_at(i as int) != self.key_at(j));
                        }
                    }
                }
                Some(&self.entries[i].1)
            },
            None => None,
        }
    }

    /// Inserts a value under a key, replacing any existing value. The
    /// newcomer wins; this is the documented collision policy of a merge.
    pub fn insert(&mut self, k: Identifier, v: T)
        requires
            old(self).wf(),
        ensures
            final(self).wf(),
            final(self).spec_get(k) == Some(v),
            forall|k2: Identifier|
                k2 != k ==> #[trigger] final(self).spec_get(k2) == old(self).spec_get(k2),
            final(self).spec_len() == old(self).spec_len() || final(self).spec_len() == old(self).spec_len() + 1,
    {
        let ghost gv = v;
        match self.find(k) {
            Some(i) => {
                self.entries[i].1 = v;
                proof {
                    assert forall|a: int, b: int|
                        0 <= a < b < self.spec_len() implies self.key_at(a) != self.key_at(
                        b,
                    ) by {
                        assert(self.key_at(a) == old(self).key_at(a));
                        assert(self.key_at(b) == old(self).key_at(b));
                    }
                    lemma_get_after_update(*old(self), *self, i as int, k, gv);
                }
            },
            None => {
                self.entries.push((k, v));
                proof {
                    let n = old(self).spec_len() as int;
                    assert forall|a: int, b: int|
                        0 <= a < b < self.spec_len() implies self.key_at(a) != self.key_at(
                        b,
                    ) by {
                        if b < n {
                            assert(self.key_at(a) == old(self).key_at(a));
                            assert(self.key_at(b) == old(self).key_at(b));
                        } else {
                            if a < n {
                                assert(self.key_at(a) == old(self).key_at(a));
                                assert(!old(self).contains(k));
                            }
                        }
                    }
                    assert(self.key_at(n) == k);
                    assert(self.contains(k));
                    let j = choose|j: int| 0 <= j < self.spec_len() && self.key_at(j) == k;
                    if j != n {
                        assert(old(self).key_at(j) == k);
                    }
                    assert(self.spec_get(k) == Some(gv));
                    assert forall|k2: Identifier| k2 != k implies #[trigger] self.spec_get(k2)
                        == old(self).spec_get(k2) by {
                        lemma_get_after_push(*old(self), *self, k, k2);
                    }
                }
            },
        }
    }
}

proof fn lemma_get_after_update<T>(prev: IdMap<T>, cur: IdMap<T>, i: int, k: Identifier, v: T)
    requires
        prev.wf(),
        cur.wf(),
        0 <= i < prev.spec_len(),
        cur.spec_len() == prev.spec_len(),
        prev.key_at(i) == k,
        forall|a: int| 0 <= a < prev.spec_len() ==> cur.key_at(a) == prev.key_at(a),
        cur.entries@[i].1 == v,
        forall|a: int| 0 <= a < prev.spec_len() && a != i ==> cur.entries@[a] == prev.entries@[a],
    ensures
        cur.spec_get(k) == Some(v),
        forall|k2: Identifier| k2 != k ==> #[trigger] cur.spec_get(k2) == prev.spec_get(k2),
{
    assert(cur.contains(k));
    let j = choose|j: int| 0 <= j < cur.spec_len() && cur.key_at(j) == k;
    if j != i {
        if j < i {
            assert(cur.key_at(j) != cur.key_at(i));
        } else {
            assert(cur.key_at(i) != cur.key_at(j));
        }
    }
    assert(cur.spec_get(k) == Some(v));
    assert forall|k2: Identifier| k2 != k implies #[trigger] cur.spec_get(k2) == prev.spec_get(
        k2,
    ) by {
        if cur.contains(k2) {
            let a = choose|a: int| 0 <= a < cur.spec_len() && cur.key_at(a) == k2;
            assert(prev.key_at(a) == k2);
            assert(prev.contains(k2));
            let b = choose|b: int| 0 <= b < prev.spec_len() && prev.key_at(b) == k2;
            if a != b {
                if a < b {
                    assert(prev.key_at(a) != prev.key_at(b));
                } else {
                    assert(prev.key_at(b) != prev.key_at(a));
                }
            }
            assert(cur.entries@[a] == prev.entries@[a]);
        } else {
            if prev.contains(k2) {
                let b = choose|b: int| 0 <= b < prev.spec_len() && prev.key_at(b) == k2;
                assert(cur.key_at(b) == k2);
            }
        }
    }
}

proof fn lemma_get_after_push<T>(prev: IdMap<T>, cur: IdMap<T>, k: Identifier, k2: Identifier)
    requires
        prev.wf(),
        cur.wf(),
        cur.spec_len() == prev.spec_len() + 1,
        forall|a: int| 0 <= a < prev.spec_len() ==> cur.entries@[a] == prev.entries@[a],
        cur.key_at(prev.spec_len() as int) == k,
        k2 != k,
    ensures
        cur.spec_get(k2) == prev.spec_get(k2),
{
    let n = prev.spec_len() as int;
    if cur.contains(k2) {
        let a = choose|a: int| 0 <= a < cur.spec_len() && cur.key_at(a) == k2;
        assert(a != n);
        assert(prev.key_at(a) == k2);
        assert(prev.contains(k2));
        let b = choose|b: int| 0 <= b < prev.spec_len() && prev.key_at(b) == k2;
        if a != b {
            if a < b {
                assert(prev.key_at(a) != prev.key_at(b));
            } else {
                assert(prev.key_at(b) != prev.key_at(a));
            }
        }
        assert(cur.entries@[a] == prev.entries@[a]);
    } else {
        if prev.contains(k2) {
            let b = choose|b: int| 0 <= b < prev.spec_len() && prev.key_at(b) == k2;
            assert(cur.key_at(b) == k2);
        }
    }
}

/// The merged map: for every key, the newcomer's value where it has one,
/// else the original's.
pub open spec fn map_merged<T>(prev: IdMap<T>, other: IdMap<T>, cur: IdMap<T>) -> bool {
    forall|k: Identifier|
        #[trigger] cur.spec_get(k) == (if other.contains(k) {
            other.spec_get(k)
        } else {
            prev.spec_get(k)
        })
}

/// `s` has an entry with this key.
pub open spec fn seq_has_key<T>(s: Seq<(Identifier, T)>, k: Identifier) -> bool {
    exists|i: int| 0 <= i < s.len() && s[i].0 == k
}

/// The value `s` carries under this key.
pub open spec fn seq_val_of<T>(s: Seq<(Identifier, T)>, k: Identifier) -> T {
    s[choose|i: int| 0 <= i < s.len() && s[i].0 == k].1
}

fn extend_entries<T>(m: &mut IdMap<T>, rest: Vec<(Identifier, T)>)
    requires
        old(m).wf(),
        forall|i: int, j: int| 0 <= i < j < rest@.len() ==> rest@[i].0 != rest@[j].0,
    ensures
        final(m).wf(),
        forall|k2: Identifier|
            #[trigger] final(m).spec_get(k2) == (if seq_has_key(rest@, k2) {
                Some(seq_val_of(rest@, k2))
            } else {
                old(m).spec_get(k2)
            }),
    decreases rest@.len(),
{
    let ghost entry_rest = rest@;
    let mut rest = rest;
    if rest.len() == 0 {
        return ;
    }
    let pair = rest.remove(0);
    proof {
        assert(rest@ =~= entry_rest.subrange(1, entry_rest.len() as int));
    }
    let (k0, v0) = pair;
    m.insert(k0, v0);
    let ghost mid = *m;
    extend_entries(m, rest);
    proof {
        assert forall|k2: Identifier|
            #[trigger] m.spec_get(k2) == (if seq_has_key(entry_rest, k2) {
                Some(seq_val_of(entry_rest, k2))
            } else {
                old(m).spec_get(k2)
            }) by {
            let tail = entry_rest.subrange(1, entry_rest.len() as int);
            if k2 == k0 {
                assert(!seq_has_key(tail, k2)) by {
                    if seq_has_key(tail, k2) {
                        let i = choose|i: int| 0 <= i < tail.len() && tail[i].0 == k2;
                        assert(entry_rest[i + 1].0 == k2);
                        assert(entry_rest[0].0 != entry_rest[i + 1].0);
                    }
                }
                assert(m.spec_get(k2) == mid.spec_get(k2));
                assert(mid.spec_get(k2) == Some(v0));
                assert(entry_rest[0].0 == k2);
                assert(seq_has_key(entry_rest, k2));
                let i = choose|i: int| 0 <= i < entry_rest.len() && entry_rest[i].0 == k2;
                if i != 0 {
                    assert(entry_rest[0].0 != entry_rest[i].0);
                }
                assert(seq_val_of(entry_rest, k2) == v0);
            } else {
                if seq_has_key(entry_rest, k2) {
                    let i = choose|i: int| 0 <= i < entry_rest.len() && entry_rest[i].0 == k2;
                    assert(i != 0);
                    assert(tail[i - 1].0 == k2);
                    assert(seq_has_key(tail, k2));
                    let j = choose|j: int| 0 <= j < tail.len() && tail[j].0 == k2;
                    if j + 1 != i {
                        assert(entry_rest[j + 1].0 == k2);
                        if j + 1 < i {
                            assert(entry_rest[j + 1].0 != entry_rest[i].0);
                        } else {
                            assert(entry_rest[i].0 != entry_rest[j + 1].0);
                        }
                    }
                    assert(seq_val_of(tail, k2) == tail[j].1);
                    assert(entry_rest[j + 1].1 == tail[j].1);
                    assert(seq_val_of(entry_rest, k2) == entry_rest[i].1);
                } else {
                    assert(!seq_has_key(tail, k2)) by {
                        if seq_has_key(tail, k2) {
                            let j = choose|j: int| 0 <= j < tail.len() && tail[j].0 == k2;
                            assert(entry_rest[j + 1].0 == k2);
                        }
                    }
                    assert(m.spec_get(k2) == mid.spec_get(k2));
                    assert(mid.spec_get(k2) == old(m).spec_get(k2));
                }
            }
        }
    }
}

impl<T> IdMap<T> {
    /// Merges another map into this one; on a key collision the newcomer
    /// wins. This is the documented collision policy.
    pub fn extend(&mut self, other: IdMap<T>)
        requires
            old(self).wf(),
            other.wf(),
        ensures
            final(self).wf(),
            map_merged(*old(self), other, *final(self)),
    {
        let ghost gother = other;
        proof {
            assert forall|i: int, j: int|
                0 <= i < j < other.entries@.len() implies other.entries@[i].0
                != other.entries@[j].0 by {
                assert(gother.key_at(i) != gother.key_at(j));
            }
        }
        extend_entries(self, other.entries);
        proof {
            assert forall|k2: Identifier|
                #[trigger] self.spec_get(k2) == (if gother.contains(k2) {
                    gother.spec_get(k2)
                } else {
                    old(self).spec_get(k2)
                }) by {
                if gother.contains(k2) {
                    let i = choose|i: int|
                        0 <= i < gother.spec_len() && gother.key_at(i) == k2;
                    assert(gother.entries@[i].0 == k2);
                    assert(seq_has_key(gother.entries@, k2));
                    let j = choose|j: int|
                        0 <= j < gother.entries@.len() && gother.entries@[j].0 == k2;
                    if i != j {
                        if i < j {
                            assert(gother.key_at(i) != gother.key_at(j));
                        } else {
                            assert(gother.key_at(j) != gother.key_at(i));
                        }
                    }
                    assert(seq_val_of(gother.entries@, k2) == gother.entries@[i].1);
                } else {
                    if seq_has_key(gother.entries@, k2) {
                        let j = choose|j: int|
                            0 <= j < gother.entries@.len() && gother.entries@[j].0 == k2;
                        assert(gother.key_at(j) == k2);
                    }
                }
            }
        }
    }
}


/// Some entry of the imports list carries this name.
pub open spec fn has_import_named(imports: Seq<Import>, name: Identifier) -> bool {
    exists|i: int| 0 <= i < imports.len() && (#[trigger] imports[i]).name == name
}

/// The imports list holds at most one import per name.
pub open spec fn imports_wf(imports: Seq<Import>) -> bool {
    forall|i: int, j: int| 0 <= i < j < imports.len() ==> imports[i].name != imports[j].name
}

/// Every map of the registry has distinct keys, and the imports hold one
/// entry per name.
pub open spec fn base_wf(r: RegistryBase) -> bool {
    &&& r.aliases.wf()
    &&& r.bitmasks.wf()
    &&& r.constants.wf()
    &&& r.commands.wf()
    &&& r.enumerations.wf()
    &&& r.function_typedefs.wf()
    &&& r.opaque_typedefs.wf()
    &&& r.opaque_handle_typedefs.wf()
    &&& r.structs.wf()
    &&& r.unions.wf()
    &&& imports_wf(r.imports@)
}

/// The registry body: metadata definitions, imports, and one map per
/// entity kind. `metadefs` is an association list read front to back: an
/// earlier entry shadows a later one with the same key.
#[derive(Debug)]
pub struct RegistryBase {
    pub name: String,
    pub metadefs: Vec<(String, String)>,
    pub imports: Vec<Import>,
    pub aliases: IdMap<Typedef>,
    pub bitmasks: IdMap<Bitmask>,
    pub constants: IdMap<Constant>,
    pub commands: IdMap<Command>,
    pub enumerations: IdMap<Enumeration>,
    pub function_typedefs: IdMap<FunctionTypedef>,
    pub opaque_typedefs: IdMap<OpaqueTypedef>,
    pub opaque_handle_typedefs: IdMap<OpaqueHandleTypedef>,
    pub structs: IdMap<Structure>,
    pub unions: IdMap<Structure>,
}

impl RegistryBase {
    /// An empty registry body under a name.
    pub fn new(name: String) -> (r: RegistryBase)
        ensures
            r.name == name,
            base_wf(r),
            r.metadefs@.len() == 0,
            r.imports@.len() == 0,
            r.aliases.spec_len() == 0,
            r.bitmasks.spec_len() == 0,
            r.constants.spec_len() == 0,
            r.commands.spec_len() == 0,
            r.enumerations.spec_len() == 0,
            r.function_typedefs.spec_len() == 0,
            r.opaque_typedefs.spec_len() == 0,
            r.opaque_handle_typedefs.spec_len() == 0,
            r.structs.spec_len() == 0,
            r.unions.spec_len() == 0,
    {
        RegistryBase {
            name,
            metadefs: Vec::new(),
            imports: Vec::new(),
            aliases: IdMap::new(),
            bitmasks: IdMap::new(),
            constants: IdMap::new(),
            commands: IdMap::new(),
            enumerations: IdMap::new(),
            function_typedefs: IdMap::new(),
            opaque_typedefs: IdMap::new(),
            opaque_handle_typedefs: IdMap::new(),
            structs: IdMap::new(),
            unions: IdMap::new(),
        }
    }

    /// Adds an import unless one with the same name is present: the first
    /// import of a name wins.
    pub fn add_import(&mut self, import: Import)
        requires
            imports_wf(old(self).imports@),
        ensures
            imports_wf(final(self).imports@),
            final(self).name == old(self).name,
            final(self).metadefs == old(self).metadefs,
            has_import_named(final(self).imports@, import.name),
            has_import_named(old(self).imports@, import.name) ==> final(self).imports@ == old(self).imports@,
            !has_import_named(old(self).imports@, import.name) ==> final(self).imports@ == old(self).imports@.push(import),
            final(self).aliases == old(self).aliases,
            final(self).bitmasks == old(self).bitmasks,
            final(self).constants == old(self).constants,
            final(self).commands == old(self).commands,
            final(self).enumerations == old(self).enumerations,
            final(self).function_typedefs == old(self).function_typedefs,
            final(self).opaque_typedefs == old(self).opaque_typedefs,
            final(self).opaque_handle_typedefs == old(self).opaque_handle_typedefs,
            final(self).structs == old(self).structs,
            final(self).unions == old(self).unions,
    {
        let n = self.imports.len();
        let mut i: usize = 0;
        while i < n
            invariant
                i <= n,
                n == self.imports@.len(),
                *self == *old(self),
                imports_wf(self.imports@),
                forall|j: int| 0 <= j < i ==> (#[trigger] self.imports@[j]).name != import.name,
        decreases n - i,
        {
            if self.imports[i].name == import.name {
                proof {
                    assert(self.imports@[i as int].name == import.name);
                }
                return ;
            }
            i = i + 1;
        }
        self.imports.push(import);
        proof {
            assert(self.imports@[old(self).imports@.len() as int].name == import.name);
            assert(!(exists|i: int|
                0 <= i < old(self).imports@.len() && (#[trigger] old(self).imports@[i]).name
                    == import.name));
            assert forall|a: int, b: int|
                0 <= a < b < self.imports@.len() implies self.imports@[a].name
                != self.imports@[b].name by {
                if b < old(self).imports@.len() {
                    assert(self.imports@[a] == old(self).imports@[a]);
                    assert(self.imports@[b] == old(self).imports@[b]);
                } else {
                    assert(self.imports@[a] == old(self).imports@[a]);
                }
            }
        }
    }

    /// Merges another registry body into this one. On a key collision in
    /// any entity map the newcomer wins; metadata definitions are
    /// appended; imports keep the first entry per name. The merged-in
    /// registry's own name is dropped.
    pub fn merge_base_with(&mut self, other: RegistryBase)
        requires
            base_wf(*old(self)),
            base_wf(other),
        ensures
            base_wf(*final(self)),
            final(self).name == old(self).name,
            map_merged(old(self).aliases, other.aliases, final(self).aliases),
            map_merged(old(self).bitmasks, other.bitmasks, final(self).bitmasks),
            map_merged(old(self).constants, other.constants, final(self).constants),
            map_merged(old(self).commands, other.commands, final(self).commands),
            map_merged(old(self).enumerations, other.enumerations, final(self).enumerations),
            map_merged(old(self).function_typedefs, other.function_typedefs, final(self).function_typedefs),
            map_merged(old(self).opaque_typedefs, other.opaque_typedefs, final(self).opaque_typedefs),
            map_merged(old(self).opaque_handle_typedefs, other.opaque_handle_typedefs, final(self).opaque_handle_typedefs),
            map_merged(old(self).structs, other.structs, final(self).structs),
            map_merged(old(self).unions, other.unions, final(self).unions),
            final(self).metadefs@ == old(self).metadefs@ + other.metadefs@,
            final(self).imports@.len() >= old(self).imports@.len(),
            forall|i: int|
                0 <= i < old(self).imports@.len() ==> #[trigger] final(self).imports@[i] == old(self).imports@[i],
            forall|j: int|
                0 <= j < other.imports@.len() ==> has_import_named(
                    final(self).imports@,
                    (#[trigger] other.imports@[j]).name,
                ),
            forall|i: int|
                old(self).imports@.len() <= i < final(self).imports@.len() ==> (exists|j: int|
                    0 <= j < other.imports@.len() && #[trigger] final(self).imports@[i]
                        == other.imports@[j]) && !has_import_named(
                    old(self).imports@,
                    final(self).imports@[i].name,
                ),
    {
        let ghost gother = other;
        let mut metadefs = other.metadefs;
        self.metadefs.append(&mut metadefs);
        self.aliases.extend(other.aliases);
        self.bitmasks.extend(other.bitmasks);
        self.constants.extend(other.constants);
        self.commands.extend(other.commands);
        self.enumerations.extend(other.enumerations);
        self.function_typedefs.extend(other.function_typedefs);
        self.opaque_typedefs.extend(other.opaque_typedefs);
        self.opaque_handle_typedefs.extend(other.opaque_handle_typedefs);
        self.structs.extend(other.structs);
        self.unions.extend(other.unions);
        let ghost snap = *self;
        let ghost mut done: int = 0;
        let mut imports = other.imports;
        while imports.len() > 0
            invariant
                imports_wf(self.imports@),
                0 <= done,
                done + imports@.len() == gother.imports@.len(),
                imports@ =~= gother.imports@.skip(done),
                self.imports@.len() >= old(self).imports@.len(),
                forall|i: int|
                    0 <= i < old(self).imports@.len() ==> #[trigger] self.imports@[i] == old(self).imports@[i],
                forall|j: int|
                    0 <= j < gother.imports@.len() - imports@.len() ==> has_import_named(
                        self.imports@,
                        (#[trigger] gother.imports@[j]).name,
                    ),
                forall|i: int|
                    old(self).imports@.len() <= i < self.imports@.len() ==> (exists|j: int|
                        0 <= j < gother.imports@.len() && #[trigger] self.imports@[i]
                            == gother.imports@[j]) && !has_import_named(
                        old(self).imports@,
                        self.imports@[i].name,
                    ),
                self.name == snap.name,
                self.metadefs == snap.metadefs,
                self.aliases == snap.aliases,
                self.bitmasks == snap.bitmasks,
                self.constants == snap.constants,
                self.commands == snap.commands,
                self.enumerations == snap.enumerations,
                self.function_typedefs == snap.function_typedefs,
                self.opaque_typedefs == snap.opaque_typedefs,
                self.opaque_handle_typedefs == snap.opaque_handle_typedefs,
                self.structs == snap.structs,
                self.unions == snap.unions,
                snap.name == old(self).name,
                map_merged(old(self).aliases, gother.aliases, snap.aliases),
                map_merged(old(self).bitmasks, gother.bitmasks, snap.bitmasks),
                map_merged(old(self).constants, gother.constants, snap.constants),
                map_merged(old(self).commands, gother.commands, snap.commands),
                map_merged(old(self).enumerations, gother.enumerations, snap.enumerations),
                map_merged(old(self).function_typedefs, gother.function_typedefs, snap.function_typedefs),
                map_merged(old(self).opaque_typedefs, gother.opaque_typedefs, snap.opaque_typedefs),
                map_merged(old(self).opaque_handle_typedefs, gother.opaque_handle_typedefs, snap.opaque_handle_typedefs),
                map_merged(old(self).structs, gother.structs, snap.structs),
                map_merged(old(self).unions, gother.unions, snap.unions),
            decreases imports@.len(),
        {
            let ghost before = *self;
            let ghost rest_before = imports@;
            let import = imports.remove(0);
            proof {
                assert(gother.imports@.skip(done)[0] == gother.imports@[done]);
                assert(rest_before[0] == gother.imports@[done]);
                assert forall|x: int| 0 <= x < imports@.len() implies imports@[x]
                    == gother.imports@.skip(done + 1)[x] by {
                    assert(imports@[x] == rest_before[x + 1]);
                    assert(rest_before[x + 1] == gother.imports@.skip(done)[x + 1]);
                    assert(gother.imports@.skip(done)[x + 1] == gother.imports@[done + 1 + x]);
                    assert(gother.imports@.skip(done + 1)[x] == gother.imports@[done + 1 + x]);
                }
                assert(imports@ =~= gother.imports@.skip(done + 1));
            }
            self.add_import(import);
            proof {
                assert forall|j: int| 0 <= j < done + 1 implies has_import_named(
                    self.imports@,
                    (#[trigger] gother.imports@[j]).name,
                ) by {
                    if j < done {
                        let i0 = choose|i0: int|
                            0 <= i0 < before.imports@.len() && (#[trigger] before.imports@[
                            i0]).name == gother.imports@[j].name;
                        assert(self.imports@[i0].name == gother.imports@[j].name);
                    } else {
                        let i0 = choose|i0: int|
                            0 <= i0 < self.imports@.len() && (#[trigger] self.imports@[
                            i0]).name == import.name;
                        assert(self.imports@[i0].name == gother.imports@[done].name);
                    }
                }
                assert forall|i: int|
                    old(self).imports@.len() <= i < self.imports@.len() implies (exists|j: int|
                    0 <= j < gother.imports@.len() && #[trigger] self.imports@[i]
                        == gother.imports@[j]) && !has_import_named(
                    old(self).imports@,
                    self.imports@[i].name,
                ) by {
                    if i < before.imports@.len() {
                        assert(self.imports@[i] == before.imports@[i]);
                    } else {
                        assert(self.imports@ == before.imports@.push(import));
                        assert(self.imports@[i] == import);
                        assert(self.imports@[i] == gother.imports@[done]);
                        if has_import_named(old(self).imports@, self.imports@[i].name) {
                            let a = choose|a: int|
                                0 <= a < old(self).imports@.len() && (#[trigger] old(self).imports@[a]).name == self.imports@[i].name;
                            assert(before.imports@[a].name == import.name);
                        }
                    }
                }
                done = done + 1;
            }
        }
    }

    /// Checks parameter consistency of every command and function typedef;
    /// the caller must already know it holds.
    pub fn sanitize(&self)
        requires
            forall|i: int|
                0 <= i < self.commands.spec_len() ==> params_consistent(
                    (#[trigger] self.commands.entries@[i]).1.params@,
                ),
            forall|i: int|
                0 <= i < self.function_typedefs.spec_len() ==> params_consistent(
                    (#[trigger] self.function_typedefs.entries@[i]).1.params@,
                ),
    {
    }

    /// Restores parameter consistency of every command and function
    /// typedef.
    pub fn sanitize_fix(&mut self)
        ensures
            forall|i: int|
                0 <= i < final(self).commands.spec_len() ==> params_consistent(
                    (#[trigger] final(self).commands.entries@[i]).1.params@,
                ),
            forall|i: int|
                0 <= i < final(self).function_typedefs.spec_len() ==> params_consistent(
                    (#[trigger] final(self).function_typedefs.entries@[i]).1.params@,
                ),
    {
        let n = self.commands.entries.len();
        let mut i: usize = 0;
        while i < n
            invariant
                i <= n,
                n == self.commands.spec_len(),
                forall|j: int|
                    0 <= j < i ==> params_consistent(
                        (#[trigger] self.commands.entries@[j]).1.params@,
                    ),
            decreases n - i,
        {
            self.commands.entries[i].1.sanitize_fix();
            i = i + 1;
        }
        let ghost cmds = self.commands;
        let n2 = self.function_typedefs.entries.len();
        let mut k: usize = 0;
        while k < n2
            invariant
                k <= n2,
                n2 == self.function_typedefs.spec_len(),
                self.commands == cmds,
                forall|j: int|
                    0 <= j < cmds.spec_len() ==> params_consistent(
                        (#[trigger] cmds.entries@[j]).1.params@,
                    ),
                forall|j: int|
                    0 <= j < k ==> params_consistent(
                        (#[trigger] self.function_typedefs.entries@[j]).1.params@,
                    ),
            decreases n2 - k,
        {
            self.function_typedefs.entries[k].1.sanitize_fix();
            k = k + 1;
        }
    }
}


#[verifier::external_type_specification]
#[verifier::external_body]
pub struct ExJsonValue(serde_json::Value);

/// Relies on serde_json::Value::Null: the null JSON value, used as the
/// default extension payload.
#[verifier::external_body]
fn json_null() -> serde_json::Value {
    serde_json::Value::Null
}

/// A registry with an opaque JSON extension payload.
#[derive(Debug)]
pub struct Registry {
    pub base: RegistryBase,
    pub ext: serde_json::Value,
}

impl Registry {
    /// An empty registry under a name, with a null extension payload.
    pub fn new(name: String) -> (r: Registry)
        ensures
            r.base.name == name,
            base_wf(r.base),
            r.base.metadefs@.len() == 0,
            r.base.imports@.len() == 0,
            r.base.aliases.spec_len() == 0,
            r.base.commands.spec_len() == 0,
            r.base.structs.spec_len() == 0,
            r.base.unions.spec_len() == 0,
            r.base.enumerations.spec_len() == 0,
            r.base.function_typedefs.spec_len() == 0,
            r.base.opaque_typedefs.spec_len() == 0,
            r.base.opaque_handle_typedefs.spec_len() == 0,
            r.base.bitmasks.spec_len() == 0,
            r.base.constants.spec_len() == 0,
    {
        Registry { base: RegistryBase::new(name), ext: json_null() }
    }

    /// The registry body.
    pub fn as_base(&self) -> (r: &RegistryBase)
        ensures
            *r == self.base,
    {
        &self.base
    }

    /// Checks parameter consistency of every command and function typedef;
    /// the caller must already know it holds.
    pub fn sanitize(&self)
        requires
            forall|i: int|
                0 <= i < self.base.commands.spec_len() ==> params_consistent(
                    (#[trigger] self.base.commands.entries@[i]).1.params@,
                ),
            forall|i: int|
                0 <= i < self.base.function_typedefs.spec_len() ==> params_consistent(
                    (#[trigger] self.base.function_typedefs.entries@[i]).1.params@,
                ),
    {
    }

    /// Restores parameter consistency of every command and function
    /// typedef.
    pub fn sanitize_fix(&mut self)
        ensures
            forall|i: int|
                0 <= i < final(self).base.commands.spec_len() ==> params_consistent(
                    (#[trigger] final(self).base.commands.entries@[i]).1.params@,
                ),
            forall|i: int|
                0 <= i < final(self).base.function_typedefs.spec_len() ==> params_consistent(
                    (#[trigger] final(self).base.function_typedefs.entries@[i]).1.params@,
                ),
    {
        self.base.sanitize_fix();
    }
}

/// A registry with a typed extension payload.
#[derive(Debug)]
pub struct RegistryTE<EXT> {
    pub base: RegistryBase,
    pub ext: EXT,
}

impl<EXT: Default> RegistryTE<EXT> {
    /// An empty registry under a name, with the default extension payload.
    pub fn new(name: String) -> (r: RegistryTE<EXT>)
        ensures
            r.base.name == name,
            base_wf(r.base),
            r.base.aliases.spec_len() == 0,
            r.base.commands.spec_len() == 0,
            r.base.structs.spec_len() == 0,
            r.base.unions.spec_len() == 0,
    {
        RegistryTE { base: RegistryBase::new(name), ext: EXT::default() }
    }
}

impl<EXT> RegistryTE<EXT> {
    /// An empty registry under a name, with the given extension payload.
    pub fn new_with_ext(name: String, ext: EXT) -> (r: RegistryTE<EXT>)
        ensures
            r.base.name == name,
            base_wf(r.base),
            r.ext == ext,
            r.base.aliases.spec_len() == 0,
            r.base.commands.spec_len() == 0,
            r.base.structs.spec_len() == 0,
            r.base.unions.spec_len() == 0,
    {
        RegistryTE { base: RegistryBase::new(name), ext }
    }

    /// The registry body.
    pub fn as_base(&self) -> (r: &RegistryBase)
        ensures
            *r == self.base,
    {
        &self.base
    }

    /// Checks parameter consistency of every command and function typedef;
    /// the caller must already know it holds.
    pub fn sanitize(&self)
        requires
            forall|i: int|
                0 <= i < self.base.commands.spec_len() ==> params_consistent(
                    (#[trigger] self.base.commands.entries@[i]).1.params@,
                ),
            forall|i: int|
                0 <= i < self.base.function_typedefs.spec_len() ==> params_consistent(
                    (#[trigger] self.base.function_typedefs.entries@[i]).1.params@,
                ),
    {
    }

    /// Restores parameter consistency of every command and function
    /// typedef.
    pub fn sanitize_fix(&mut self)
        ensures
            forall|i: int|
                0 <= i < final(self).base.commands.spec_len() ==> params_consistent(
                    (#[trigger] final(self).base.commands.entries@[i]).1.params@,
                ),
            forall|i: int|
                0 <= i < final(self).base.function_typedefs.spec_len() ==> params_consistent(
                    (#[trigger] final(self).base.function_typedefs.entries@[i]).1.params@,
                ),
    {
        self.base.sanitize_fix();
    }
}

} // verus!

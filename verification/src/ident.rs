//! The identifier interner: canonical identity and an optional one-time
//! rename for name strings.
//!
//! The intern table is an explicit, caller-owned context. An `Identifier` is a
//! small arena index into that table; equality and hashing are integer
//! comparisons. One interned slot exists per distinct original text within an
//! interning epoch, and renaming never changes the lookup key.

use vstd::prelude::*;

verus! {

/// True when the text holds the reserved separator `:` somewhere.
pub open spec fn has_sep(s: Seq<char>) -> bool {
    exists|i: int| 0 <= i < s.len() && s[i] == ':'
}

/// `i` is the position of the first `:` in `s`.
pub open spec fn is_first_sep(s: Seq<char>, i: int) -> bool {
    &&& 0 <= i < s.len()
    &&& s[i] == ':'
    &&& forall|j: int| 0 <= j < i ==> s[j] != ':'
}

/// The position of the first `:` in `s` (meaningful only when `has_sep(s)`).
pub open spec fn first_sep_of(s: Seq<char>) -> int {
    choose|i: int| is_first_sep(s, i)
}

proof fn lemma_first_sep_below(s: Seq<char>, k: int)
    requires
        0 <= k < s.len(),
        s[k] == ':',
    ensures
        exists|i: int| is_first_sep(s, i),
    decreases k,
{
    if forall|j: int| 0 <= j < k ==> s[j] != ':' {
        assert(is_first_sep(s, k));
    } else {
        let j = choose|j: int| 0 <= j < k && s[j] == ':';
        lemma_first_sep_below(s, j);
    }
}

/// A text with a separator has a well-defined first separator position.
pub proof fn lemma_first_sep_exists(s: Seq<char>)
    requires
        has_sep(s),
    ensures
        is_first_sep(s, first_sep_of(s)),
{
    let k = choose|k: int| 0 <= k < s.len() && s[k] == ':';
    lemma_first_sep_below(s, k);
    let i = choose|i: int| is_first_sep(s, i);
    assert(is_first_sep(s, i));
}

/// One slot of the intern table: the immutable original text and the
/// optional, settable-once rename.
pub struct IdentEntry {
    pub original: String,
    pub renamed: Option<String>,
}

/// An interned handle: an index into the caller-owned `Interner` arena.
/// Identity and equality are by slot; two handles from one epoch are equal
/// exactly when their original texts are equal.
#[derive(Clone, Copy, PartialEq, Eq, Structural, Hash, Debug)]
pub struct Identifier {
    pub idx: usize,
}

/// The caller-owned intern table. It owns the only mapping from text to
/// handle; everything else holds handles.
pub struct Interner {
    pub entries: Vec<IdentEntry>,
}

impl Interner {
    /// Number of interned slots.
    pub open spec fn spec_len(self) -> nat {
        self.entries@.len()
    }

    /// The original text of slot `i`.
    pub open spec fn text_at(self, i: int) -> Seq<char> {
        self.entries@[i].original@
    }

    /// The rename of slot `i`, if one was set.
    pub open spec fn rename_at(self, i: int) -> Option<Seq<char>> {
        match self.entries@[i].renamed {
            Some(r) => Some(r@),
            None => None,
        }
    }

    /// The handle `id` points into this table.
    pub open spec fn holds(self, id: Identifier) -> bool {
        id.idx < self.entries@.len()
    }

    /// Some slot carries `t` as its original text.
    pub open spec fn contains_text(self, t: Seq<char>) -> bool {
        exists|i: int| 0 <= i < self.spec_len() && self.text_at(i) == t
    }

    /// Table invariant: original texts are distinct and separator-free, and
    /// every rename is separator-free.
    pub open spec fn wf(self) -> bool {
        &&& forall|i: int, j: int|
            0 <= i < j < self.spec_len() ==> self.text_at(i) != self.text_at(j)
        &&& forall|i: int| 0 <= i < self.spec_len() ==> !has_sep(#[trigger] self.text_at(i))
        &&& forall|i: int|
            0 <= i < self.spec_len() ==> match #[trigger] self.rename_at(i) {
                Some(r) => !has_sep(r),
                None => true,
            }
    }

    /// The new table keeps every old slot's original text, and never unsets
    /// or changes a rename that was already set.
    pub open spec fn extends(self, prev: Self) -> bool {
        &&& prev.spec_len() <= self.spec_len()
        &&& forall|i: int| 0 <= i < prev.spec_len() ==> self.text_at(i) == prev.text_at(i)
        &&& forall|i: int|
            0 <= i < prev.spec_len() ==> match #[trigger] prev.rename_at(i) {
                Some(r) => self.rename_at(i) == Some(r),
                None => true,
            }
    }

    /// Creates an empty intern table.
    pub fn new() -> (r: Interner)
        ensures
            r.spec_len() == 0,
            r.wf(),
    {
        Interner { entries: Vec::new() }
    }

    /// Number of interned slots.
    pub fn len(&self) -> (r: usize)
        ensures
            r == self.spec_len(),
    {
        self.entries.len()
    }

    fn find_text(&self, text: &str) -> (r: Option<usize>)
        ensures
            match r {
                Some(i) => i < self.spec_len() && self.text_at(i as int) == text@,
                None => !self.contains_text(text@),
            },
    {
        let n = self.entries.len();
        let mut i: usize = 0;
        while i < n
            invariant
                i <= n,
                n == self.spec_len(),
                forall|j: int| 0 <= j < i ==> self.text_at(j) != text@,
            decreases n - i,
        {
            if crate::text::str_eq(self.entries[i].original.as_str(), text) {
                return Some(i);
            }
            i = i + 1;
        }
        None
    }

    /// Interns `text`: returns the existing handle for it if present, else
    /// creates a fresh slot. Fails exactly when `text` contains the reserved
    /// separator `:`.
    pub fn intern(&mut self, text: &str) -> (r: Result<Identifier, InternError>)
        requires
            old(self).wf(),
        ensures
            final(self).wf(),
            final(self).extends(*old(self)),
            renames_frozen(*old(self), *final(self)),
            match r {
                Ok(id) => !has_sep(text@) && interned_outcome(
                    *old(self),
                    *final(self),
                    id,
                    text@,
                ),
                Err(InternError::ReservedSeparator) => {
                    &&& has_sep(text@)
                    &&& *final(self) == *old(self)
                },
            },
    {
        if contains_colon(text) {
            return Err(InternError::ReservedSeparator);
        }
        match self.find_text(text) {
            Some(i) => Ok(Identifier { idx: i }),
            None => {
                let idx = self.entries.len();
                let entry = IdentEntry { original: text.to_owned(), renamed: None };
                self.entries.push(entry);
                proof {
                    let n = old(self).spec_len() as int;
                    assert forall|i: int| 0 <= i < self.spec_len() implies
                        self.text_at(i) == (if i < n { old(self).text_at(i) } else { text@ }) by {
                        if i < n {
                            assert(self.entries@[i] == old(self).entries@[i]);
                        }
                    }
                    assert forall|i: int| 0 <= i < self.spec_len() implies
                        self.rename_at(i) == (if i < n { old(self).rename_at(i) } else {
                            Option::<Seq<char>>::None
                        }) by {
                        if i < n {
                            assert(self.entries@[i] == old(self).entries@[i]);
                        }
                    }
                    assert forall|i: int| 0 <= i < n implies self.text_at(i) != text@ by {
                        assert(old(self).text_at(i) != text@);
                    }
                }
                Ok(Identifier { idx })
            },
        }
    }
}

/// The table keeps every rename of `prev`'s slots exactly as it was.
pub open spec fn renames_frozen(prev: Interner, cur: Interner) -> bool {
    forall|k: int| 0 <= k < prev.spec_len() ==> cur.rename_at(k) == prev.rename_at(k)
}

/// What a successful intern of `text` did to the table: it reused the slot
/// that already carried `text`, leaving the table as it was, or appended one
/// fresh slot with no rename.
pub open spec fn interned_outcome(
    prev: Interner,
    cur: Interner,
    id: Identifier,
    text: Seq<char>,
) -> bool {
    &&& cur.extends(prev)
    &&& cur.holds(id)
    &&& cur.text_at(id.idx as int) == text
    &&& (prev.contains_text(text) ==> cur == prev && id.idx < prev.spec_len())
    &&& (!prev.contains_text(text) ==> {
        &&& id.idx == prev.spec_len()
        &&& cur.spec_len() == prev.spec_len() + 1
        &&& cur.rename_at(id.idx as int) is None
    })
    &&& forall|k: int| 0 <= k < prev.spec_len() ==> cur.rename_at(k) == prev.rename_at(k)
}

/// The reason interning was refused.
#[derive(Clone, Copy, PartialEq, Eq, Structural, Debug)]
pub enum InternError {
    /// The text contains the reserved separator `:`.
    ReservedSeparator,
}

/// The reason a rename was refused.
#[derive(Debug)]
pub enum RenameError {
    /// The requested rename contains the reserved separator `:`.
    ReservedSeparator,
    /// The identifier already carries a different rename; both values are
    /// reported.
    Conflict { current: String, requested: String },
}

impl Identifier {
    /// The immutable original text of this handle.
    pub fn original<'a>(self, table: &'a Interner) -> (r: &'a str)
        requires
            table.holds(self),
        ensures
            r@ == table.text_at(self.idx as int),
    {
        table.entries[self.idx].original.as_str()
    }

    /// The rename of this handle, if one was set.
    pub fn renamed<'a>(self, table: &'a Interner) -> (r: Option<&'a str>)
        requires
            table.holds(self),
        ensures
            match r {
                Some(s) => table.rename_at(self.idx as int) == Some(s@),
                None => table.rename_at(self.idx as int) is None,
            },
    {
        match &table.entries[self.idx].renamed {
            Some(s) => Some(s.as_str()),
            None => None,
        }
    }

    /// The display text: the rename if present, else the original text.
    pub open spec fn spec_value(self, table: Interner) -> Seq<char> {
        match table.rename_at(self.idx as int) {
            Some(s) => s,
            None => table.text_at(self.idx as int),
        }
    }

    /// The display text: the rename if present, else the original text.
    pub fn value<'a>(self, table: &'a Interner) -> (r: &'a str)
        requires
            table.holds(self),
        ensures
            r@ == self.spec_value(*table),
    {
        match &table.entries[self.idx].renamed {
            Some(s) => s.as_str(),
            None => table.entries[self.idx].original.as_str(),
        }
    }

    /// Renames this handle, once. Setting the same value again is a no-op;
    /// a different existing rename is a conflict naming both values; the
    /// requested text must be separator-free. The original text never
    /// changes.
    pub fn try_rename(self, table: &mut Interner, new_name: &str) -> (r: Result<
        (),
        RenameError,
    >)
        requires
            old(table).wf(),
            old(table).holds(self),
        ensures
            final(table).wf(),
            final(table).spec_len() == old(table).spec_len(),
            forall|i: int|
                0 <= i < old(table).spec_len() ==> final(table).text_at(i) == old(
                    table,
                ).text_at(i),
            forall|i: int|
                0 <= i < old(table).spec_len() && i != self.idx ==> final(table).rename_at(
                    i,
                ) == old(table).rename_at(i),
            match r {
                Ok(()) => {
                    &&& !has_sep(new_name@)
                    &&& final(table).rename_at(self.idx as int) == Some(new_name@)
                    &&& (old(table).rename_at(self.idx as int) is None || old(
                        table,
                    ).rename_at(self.idx as int) == Some(new_name@))
                },
                Err(RenameError::ReservedSeparator) => {
                    &&& has_sep(new_name@)
                    &&& *final(table) == *old(table)
                },
                Err(RenameError::Conflict { current, requested }) => {
                    &&& !has_sep(new_name@)
                    &&& old(table).rename_at(self.idx as int) == Some(current@)
                    &&& current@ != new_name@
                    &&& requested@ == new_name@
                    &&& *final(table) == *old(table)
                },
            },
    {
        if contains_colon(new_name) {
            return Err(RenameError::ReservedSeparator);
        }
        let idx = self.idx;
        let already = match &table.entries[idx].renamed {
            Some(current) => Some(crate::text::str_eq(current.as_str(), new_name)),
            None => None,
        };
        match already {
            Some(true) => Ok(()),
            Some(false) => {
                let current = match &table.entries[idx].renamed {
                    Some(c) => c.clone(),
                    None => String::new(),
                };
                Err(RenameError::Conflict { current, requested: new_name.to_owned() })
            },
            None => {
                table.entries[idx].renamed = Some(new_name.to_owned());
                proof {
                    assert forall|i: int|
                        0 <= i < old(table).spec_len() && i != idx implies table.rename_at(
                        i,
                    ) == old(table).rename_at(i) by {
                        assert(table.entries@[i] == old(table).entries@[i]);
                    }
                    assert forall|i: int|
                        0 <= i < old(table).spec_len() implies table.text_at(i) == old(
                        table,
                    ).text_at(i) by {
                        if i != idx {
                            assert(table.entries@[i] == old(table).entries@[i]);
                        }
                    }
                }
                Ok(())
            },
        }
    }

    /// Renames this handle; the caller must know the rename cannot fail.
    pub fn rename(self, table: &mut Interner, new_name: &str)
        requires
            old(table).wf(),
            old(table).holds(self),
            !has_sep(new_name@),
            old(table).rename_at(self.idx as int) is None || old(table).rename_at(
                self.idx as int,
            ) == Some(new_name@),
        ensures
            final(table).wf(),
            final(table).spec_len() == old(table).spec_len(),
            forall|i: int|
                0 <= i < old(table).spec_len() ==> final(table).text_at(i) == old(
                    table,
                ).text_at(i),
            forall|i: int|
                0 <= i < old(table).spec_len() && i != self.idx ==> final(table).rename_at(
                    i,
                ) == old(table).rename_at(i),
            final(table).rename_at(self.idx as int) == Some(new_name@),
    {
        let r = self.try_rename(table, new_name);
        proof {
            assert(r is Ok);
        }
    }
}

/// The serialized form of slot `i`: the original text alone when unrenamed,
/// else the original text, one `:`, and the rename.
pub open spec fn spec_serialized(t: Interner, i: int) -> Seq<char> {
    match t.rename_at(i) {
        Some(r) => t.text_at(i) + seq![':'] + r,
        None => t.text_at(i),
    }
}

/// What deserializing `s` into a table did: with no separator `s` is simply
/// interned; with one, the part before the first separator is interned and
/// the part after it is replayed as a rename, surfacing the same conflict
/// error a direct rename would.
pub open spec fn deserialize_outcome(
    prev: Interner,
    cur: Interner,
    s: Seq<char>,
    r: Result<Identifier, RenameError>,
) -> bool {
    if !has_sep(s) {
        match r {
            Ok(id) => interned_outcome(prev, cur, id, s),
            Err(_) => false,
        }
    } else {
        let i = first_sep_of(s);
        let origin = s.subrange(0, i);
        let ren = s.subrange(i + 1, s.len() as int);
        match r {
            Ok(id) => {
                &&& !has_sep(ren)
                &&& cur.extends(prev)
                &&& cur.holds(id)
                &&& cur.text_at(id.idx as int) == origin
                &&& cur.rename_at(id.idx as int) == Some(ren)
                &&& (prev.contains_text(origin) ==> {
                    &&& cur.spec_len() == prev.spec_len()
                    &&& id.idx < prev.spec_len()
                    &&& (prev.rename_at(id.idx as int) is None || prev.rename_at(
                        id.idx as int,
                    ) == Some(ren))
                })
                &&& (!prev.contains_text(origin) ==> {
                    &&& id.idx == prev.spec_len()
                    &&& cur.spec_len() == prev.spec_len() + 1
                })
                &&& forall|k: int|
                    0 <= k < prev.spec_len() && k != id.idx ==> cur.rename_at(k)
                        == prev.rename_at(k)
            },
            Err(RenameError::ReservedSeparator) => {
                &&& has_sep(ren)
                &&& cur.extends(prev)
                &&& cur.contains_text(origin)
                &&& cur.spec_len() <= prev.spec_len() + 1
                &&& forall|k: int|
                    0 <= k < prev.spec_len() ==> cur.rename_at(k) == prev.rename_at(k)
            },
            Err(RenameError::Conflict { current, requested }) => {
                &&& !has_sep(ren)
                &&& cur == prev
                &&& requested@ == ren
                &&& exists|k: int|
                    {
                        &&& 0 <= k < prev.spec_len()
                        &&& #[trigger] prev.text_at(k) == origin
                        &&& prev.rename_at(k) == Some(current@)
                        &&& current@ != ren
                    }
            },
        }
    }
}

impl Identifier {
    /// Serializes this handle: `original` if unrenamed, else
    /// `original:renamed`.
    pub fn serialize(self, table: &Interner) -> (r: String)
        requires
            table.holds(self),
        ensures
            r@ == spec_serialized(*table, self.idx as int),
    {
        let mut s = String::new();
        s.append(table.entries[self.idx].original.as_str());
        match &table.entries[self.idx].renamed {
            Some(ren) => {
                s.append(":");
                s.append(ren.as_str());
                proof {
                    reveal_strlit(":");
                    assert(s@ =~= spec_serialized(*table, self.idx as int));
                }
            },
            None => {},
        }
        s
    }

    /// Deserializes a handle from its serialized form, splitting on the
    /// first `:` (original texts never contain one, so the split is
    /// unambiguous) and replaying intern plus rename.
    pub fn deserialize(table: &mut Interner, s: &str) -> (r: Result<Identifier, RenameError>)
        requires
            old(table).wf(),
        ensures
            final(table).wf(),
            final(table).extends(*old(table)),
            deserialize_outcome(*old(table), *final(table), s@, r),
    {
        let n = s.unicode_len();
        let sep = find_first_sep(s);
        match sep {
            None => {
                assert(!has_sep(s@));
                match table.intern(s) {
                    Ok(id) => Ok(id),
                    Err(_) => {
                        proof {
                            assert(false);
                        }
                        Err(RenameError::ReservedSeparator)
                    },
                }
            },
            Some(i) => {
                proof {
                    assert(is_first_sep(s@, i as int));
                    lemma_first_sep_exists(s@);
                    assert(first_sep_of(s@) == i as int) by {
                        let f = first_sep_of(s@);
                        if f < i {
                            assert(s@[f] == ':');
                        }
                        if f > i {
                            assert(s@[i as int] != ':');
                        }
                    }
                }
                let origin = s.substring_char(0, i);
                let ren = s.substring_char(i + 1, n);
                proof {
                    assert forall|j: int| 0 <= j < origin@.len() implies origin@[j] != ':' by {
                        assert(origin@[j] == s@[j]);
                    }
                }
                match table.intern(origin) {
                    Ok(id) => {
                        let ghost prev = *old(table);
                        let ghost mid = *table;
                        match id.try_rename(table, ren) {
                            Ok(()) => {
                                proof {
                                    lemma_table_step(prev, mid, *table, id);
                                }
                                Ok(id)
                            },
                            Err(e) => {
                                proof {
                                    lemma_table_step(prev, mid, *table, id);
                                    match e {
                                        RenameError::ReservedSeparator => {},
                                        RenameError::Conflict { .. } => {
                                            if !prev.contains_text(origin@) {
                                                assert(mid.rename_at(id.idx as int) is None);
                                                assert(false);
                                            }
                                            assert(*table == prev);
                                            assert(prev.text_at(id.idx as int) == origin@);
                                        },
                                    }
                                    assert(table.text_at(id.idx as int) == origin@);
                                }
                                Err(e)
                            },
                        }
                    },
                    Err(_) => {
                        proof {
                            assert(false);
                        }
                        Err(RenameError::ReservedSeparator)
                    },
                }
            },
        }
    }
}

/// Clears the intern table, beginning a fresh interning epoch. Handles
/// issued before the reset are un-linked: they must not be mixed with the
/// cleared table. Intended for test isolation only.
pub fn reset_identifier_renames(table: &mut Interner)
    ensures
        final(table).spec_len() == 0,
        final(table).wf(),
{
    table.entries = Vec::new();
}

/// Anything carrying a text that can be interned.
pub trait Internalize {
    /// The text to intern.
    spec fn text(&self) -> Seq<char>;

    /// Interns the text into `table`.
    fn interned(&self, table: &mut Interner) -> (r: Result<Identifier, InternError>)
        requires
            old(table).wf(),
        ensures
            final(table).wf(),
            final(table).extends(*old(table)),
            match r {
                Ok(id) => !has_sep(self.text()) && interned_outcome(
                    *old(table),
                    *final(table),
                    id,
                    self.text(),
                ),
                Err(_) => has_sep(self.text()) && *final(table) == *old(table),
            },
    ;
}

impl Internalize for str {
    open spec fn text(&self) -> Seq<char> {
        self@
    }

    fn interned(&self, table: &mut Interner) -> (r: Result<Identifier, InternError>) {
        table.intern(self)
    }
}

impl Internalize for String {
    open spec fn text(&self) -> Seq<char> {
        self@
    }

    fn interned(&self, table: &mut Interner) -> (r: Result<Identifier, InternError>) {
        table.intern(self.as_str())
    }
}

/// Round trip within one epoch: deserializing the serialized form of a
/// handle, against the table that issued it, must yield that same handle and
/// leave the table observationally unchanged — for renamed and unrenamed
/// identifiers alike.
pub proof fn lemma_serialize_round_trip(
    t: Interner,
    t2: Interner,
    id: Identifier,
    r: Result<Identifier, RenameError>,
)
    requires
        t.wf(),
        t2.wf(),
        t.holds(id),
        deserialize_outcome(t, t2, spec_serialized(t, id.idx as int), r),
    ensures
        r == Result::<Identifier, RenameError>::Ok(id),
        t2.spec_len() == t.spec_len(),
        forall|i: int| 0 <= i < t.spec_len() ==> t2.text_at(i) == t.text_at(i),
        forall|i: int| 0 <= i < t.spec_len() ==> t2.rename_at(i) == t.rename_at(i),
{
    let s = spec_serialized(t, id.idx as int);
    let text = t.text_at(id.idx as int);
    match t.rename_at(id.idx as int) {
        None => {
            assert(s == text);
            assert(!has_sep(s));
            assert(t.contains_text(s));
            match r {
                Ok(nid) => {
                    assert(t2 == t);
                    lemma_intern_identity(t, nid, id);
                },
                Err(_) => {
                    assert(false);
                },
            }
        },
        Some(ren) => {
            let ll = text.len() as int;
            assert(s == text + seq![':'] + ren);
            assert(s[ll] == ':');
            assert(has_sep(s));
            lemma_first_sep_exists(s);
            let f = first_sep_of(s);
            assert forall|j: int| 0 <= j < ll implies s[j] != ':' by {
                assert(s[j] == text[j]);
            }
            assert(is_first_sep(s, ll));
            assert(f == ll) by {
                if f < ll {
                    assert(s[f] == ':');
                }
                if f > ll {
                    assert(s[ll] != ':');
                }
            }
            let origin = s.subrange(0, ll);
            let ren2 = s.subrange(ll + 1, s.len() as int);
            assert(origin =~= text);
            assert(ren2 =~= ren);
            assert(!has_sep(ren2));
            assert(t.contains_text(origin));
            match r {
                Ok(nid) => {
                    assert(t2.text_at(nid.idx as int) == text);
                    assert(t2.text_at(id.idx as int) == text);
                    lemma_intern_identity(t2, nid, id);
                    assert(nid == id);
                    assert(t2.rename_at(id.idx as int) == Some(ren));
                },
                Err(RenameError::ReservedSeparator) => {
                    assert(false);
                },
                Err(RenameError::Conflict { current, requested }) => {
                    let k = choose|k: int|
                        {
                            &&& 0 <= k < t.spec_len()
                            &&& #[trigger] t.text_at(k) == origin
                            &&& t.rename_at(k) == Some(current@)
                            &&& current@ != ren2
                        };
                    lemma_intern_identity(t, Identifier { idx: k as usize }, id);
                    assert(k == id.idx);
                    assert(false);
                },
            }
        },
    }
}

/// Round trip into a fresh epoch: deserializing the serialized form of a
/// handle into an empty table yields a handle with the same original text
/// and the same rename state.
pub proof fn lemma_serialize_round_trip_fresh(
    t: Interner,
    start: Interner,
    t2: Interner,
    id: Identifier,
    r: Result<Identifier, RenameError>,
)
    requires
        t.wf(),
        t2.wf(),
        t.holds(id),
        start.spec_len() == 0,
        deserialize_outcome(start, t2, spec_serialized(t, id.idx as int), r),
    ensures
        match r {
            Ok(nid) => {
                &&& t2.holds(nid)
                &&& t2.text_at(nid.idx as int) == t.text_at(id.idx as int)
                &&& t2.rename_at(nid.idx as int) == t.rename_at(id.idx as int)
            },
            Err(_) => false,
        },
{
    let s = spec_serialized(t, id.idx as int);
    let text = t.text_at(id.idx as int);
    assert(!start.contains_text(text));
    match t.rename_at(id.idx as int) {
        None => {
            assert(s == text);
            assert(!has_sep(s));
            match r {
                Ok(nid) => {},
                Err(_) => {
                    assert(false);
                },
            }
        },
        Some(ren) => {
            let ll = text.len() as int;
            assert(s == text + seq![':'] + ren);
            assert(s[ll] == ':');
            assert(has_sep(s));
            lemma_first_sep_exists(s);
            let f = first_sep_of(s);
            assert forall|j: int| 0 <= j < ll implies s[j] != ':' by {
                assert(s[j] == text[j]);
            }
            assert(is_first_sep(s, ll));
            assert(f == ll) by {
                if f < ll {
                    assert(s[f] == ':');
                }
                if f > ll {
                    assert(s[ll] != ':');
                }
            }
            let origin = s.subrange(0, ll);
            let ren2 = s.subrange(ll + 1, s.len() as int);
            assert(origin =~= text);
            assert(ren2 =~= ren);
            assert(!has_sep(ren2));
            match r {
                Ok(nid) => {
                    assert(t2.rename_at(nid.idx as int) == Some(ren));
                },
                Err(RenameError::ReservedSeparator) => {
                    assert(false);
                },
                Err(RenameError::Conflict { .. }) => {
                    assert(false);
                },
            }
        },
    }
}

/// Interning is injective: within one table, two handles are equal exactly
/// when their original texts are equal.
pub proof fn lemma_intern_identity(t: Interner, a: Identifier, b: Identifier)
    requires
        t.wf(),
        t.holds(a),
        t.holds(b),
    ensures
        (a == b) <==> (t.text_at(a.idx as int) == t.text_at(b.idx as int)),
{
    if a.idx != b.idx {
        if a.idx < b.idx {
            assert(t.text_at(a.idx as int) != t.text_at(b.idx as int));
        } else {
            assert(t.text_at(b.idx as int) != t.text_at(a.idx as int));
        }
    }
}

proof fn lemma_table_step(prev: Interner, mid: Interner, cur: Interner, id: Identifier)
    requires
        mid.extends(prev),
        mid.holds(id),
        forall|k: int| 0 <= k < prev.spec_len() ==> mid.rename_at(k) == prev.rename_at(k),
        cur.spec_len() == mid.spec_len(),
        forall|i: int| 0 <= i < mid.spec_len() ==> cur.text_at(i) == mid.text_at(i),
        forall|i: int|
            0 <= i < mid.spec_len() && i != id.idx ==> cur.rename_at(i) == mid.rename_at(i),
        mid.rename_at(id.idx as int) is Some ==> cur.rename_at(id.idx as int) == mid.rename_at(
            id.idx as int,
        ),
    ensures
        cur.extends(prev),
        forall|k: int|
            0 <= k < prev.spec_len() && k != id.idx ==> cur.rename_at(k) == prev.rename_at(k),
{
    assert forall|i: int| 0 <= i < prev.spec_len() implies cur.text_at(i) == prev.text_at(
        i,
    ) by {
        assert(mid.text_at(i) == prev.text_at(i));
    }
    assert forall|i: int|
        0 <= i < prev.spec_len() && prev.rename_at(i) is Some implies cur.rename_at(i)
        == prev.rename_at(i) by {
        assert(mid.rename_at(i) == prev.rename_at(i));
    }
    assert forall|k: int|
        0 <= k < prev.spec_len() && k != id.idx implies cur.rename_at(k) == prev.rename_at(
        k,
    ) by {
        assert(mid.rename_at(k) == prev.rename_at(k));
    }
}


/// Lexicographic order on texts: `a` comes strictly before `b`.
pub open spec fn lex_lt(a: Seq<char>, b: Seq<char>) -> bool
    decreases a.len(),
{
    if b.len() == 0 {
        false
    } else if a.len() == 0 {
        true
    } else if a[0] != b[0] {
        a[0] < b[0]
    } else {
        lex_lt(a.drop_first(), b.drop_first())
    }
}

impl Identifier {
    /// The total order on identifiers: lexicographic by original text.
    /// Original texts are the unique keys of an epoch, so this order is
    /// deterministic and free of duplicates.
    pub fn lt(self, other: Identifier, table: &Interner) -> (r: bool)
        requires
            table.holds(self),
            table.holds(other),
        ensures
            r == lex_lt(table.text_at(self.idx as int), table.text_at(other.idx as int)),
    {
        let a = table.entries[self.idx].original.as_str();
        let b = table.entries[other.idx].original.as_str();
        let na = a.unicode_len();
        let nb = b.unicode_len();
        let mut i: usize = 0;
        proof {
            assert(a@.skip(0) =~= a@);
            assert(b@.skip(0) =~= b@);
        }
        loop
            invariant
                i <= na,
                i <= nb,
                na == a@.len(),
                nb == b@.len(),
                a@ == table.text_at(self.idx as int),
                b@ == table.text_at(other.idx as int),
                forall|j: int| 0 <= j < i ==> a@[j] == b@[j],
                lex_lt(a@, b@) == lex_lt(a@.skip(i as int), b@.skip(i as int)),
            decreases na - i,
        {
            if i >= nb {
                proof {
                    assert(b@.skip(i as int).len() == 0);
                }
                return false;
            }
            if i >= na {
                proof {
                    assert(a@.skip(i as int).len() == 0 && b@.skip(i as int).len() > 0);
                }
                return true;
            }
            let ca = a.get_char(i);
            let cb = b.get_char(i);
            if ca != cb {
                proof {
                    assert(a@.skip(i as int)[0] == a@[i as int]);
                    assert(b@.skip(i as int)[0] == b@[i as int]);
                }
                return ca < cb;
            }
            proof {
                assert(a@.skip(i as int)[0] == b@.skip(i as int)[0]);
                assert(a@.skip(i as int).drop_first() =~= a@.skip(i as int + 1));
                assert(b@.skip(i as int).drop_first() =~= b@.skip(i as int + 1));
            }
            i = i + 1;
        }
    }
}

fn find_first_sep(s: &str) -> (r: Option<usize>)
    ensures
        match r {
            Some(i) => is_first_sep(s@, i as int),
            None => !has_sep(s@),
        },
{
    let n = s.unicode_len();
    let mut i: usize = 0;
    while i < n
        invariant
            i <= n,
            n == s@.len(),
            forall|j: int| 0 <= j < i ==> s@[j] != ':',
        decreases n - i,
    {
        if s.get_char(i) == ':' {
            assert(s@[i as int] == ':');
            return Some(i);
        }
        i = i + 1;
    }
    None
}

fn contains_colon(s: &str) -> (b: bool)
    ensures
        b == has_sep(s@),
{
    let n = s.unicode_len();
    let mut i: usize = 0;
    while i < n
        invariant
            i <= n,
            n == s@.len(),
            forall|j: int| 0 <= j < i ==> s@[j] != ':',
        decreases n - i,
    {
        if s.get_char(i) == ':' {
            assert(s@[i as int] == ':');
            return true;
        }
        i = i + 1;
    }
    false
}

} // verus!

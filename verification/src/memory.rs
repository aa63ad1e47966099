//! Per-runner scratch memory.
//!
//! A runner's transient state — loop counters, timers, cached operands, and
//! the values expression instructions hand to their consumers — lives in a
//! store keyed by an instruction identity and a label. Entries are created
//! lazily and removed when an instruction's local state ends. Keys are never
//! duplicated, and a stored value is never itself a memory reference.

use vstd::prelude::*;

use crate::value::{CoercionError, Id, Label, Val, Value};

verus! {

/// Why a runner stops fatally.
#[derive(Clone, Copy, Debug, PartialEq, Eq, Structural)]
pub enum RunError {
    /// A value could not be coerced to the type an operation requires.
    Coercion(CoercionError),
    /// A referenced scratch entry, object or variable is absent.
    LookupFailure,
    /// An ordering comparison was asked of non-numeric operands.
    TypeMismatch,
}

/// One scratch entry.
#[derive(Debug)]
pub struct MemEntry {
    pub id: Id,
    pub label: Label,
    pub value: Value,
}

/// The mathematical form of a scratch entry.
pub struct EntryV {
    pub id: Seq<char>,
    pub label: Label,
    pub value: Val,
}

impl View for MemEntry {
    type V = EntryV;

    open spec fn view(&self) -> EntryV {
        EntryV { id: self.id@, label: self.label, value: self.value@ }
    }
}

/// Whether an entry carries the given key.
pub open spec fn key_is(e: EntryV, id: Seq<char>, label: Label) -> bool {
    e.id == id && e.label == label
}

/// The value stored under a key: the first entry that carries it.
pub open spec fn lookup(s: Seq<EntryV>, id: Seq<char>, label: Label) -> Option<Val>
    decreases s.len(),
{
    if s.len() == 0 {
        None
    } else if key_is(s[0], id, label) {
        Some(s[0].value)
    } else {
        lookup(s.drop_first(), id, label)
    }
}

/// The index of the first entry of a key, or a negative number.
pub open spec fn mem_find(s: Seq<EntryV>, id: Seq<char>, label: Label) -> int
    decreases s.len(),
{
    if s.len() == 0 {
        -1
    } else if key_is(s[0], id, label) {
        0
    } else if mem_find(s.drop_first(), id, label) < 0 {
        -1
    } else {
        1 + mem_find(s.drop_first(), id, label)
    }
}

/// The store after writing a value under a key: the first entry of the key
/// is replaced, or a fresh entry is appended.
pub open spec fn mem_insert_spec(s: Seq<EntryV>, id: Seq<char>, label: Label, value: Val) -> Seq<
    EntryV,
> {
    let e = EntryV { id, label, value };
    let i = mem_find(s, id, label);
    if i >= 0 {
        s.update(i, e)
    } else {
        s.push(e)
    }
}

/// The store after erasing a key.
pub open spec fn mem_remove_spec(s: Seq<EntryV>, id: Seq<char>, label: Label) -> Seq<EntryV> {
    let i = mem_find(s, id, label);
    if i >= 0 {
        s.remove(i)
    } else {
        s
    }
}

/// No two entries carry the same key.
pub open spec fn mem_unique(s: Seq<EntryV>) -> bool {
    forall|i: int, j: int|
        0 <= i < j < s.len() ==> !(#[trigger] s[i].id == #[trigger] s[j].id && s[i].label
            == s[j].label)
}

/// No stored value is itself a memory reference.
pub open spec fn mem_no_refs(s: Seq<EntryV>) -> bool {
    forall|i: int| 0 <= i < s.len() ==> !(#[trigger] s[i].value).is_ref()
}

/// A well-formed scratch store.
pub open spec fn mem_wf(s: Seq<EntryV>) -> bool {
    mem_unique(s) && mem_no_refs(s)
}

/// `mem_find` names the first entry of a key, when there is one.
pub proof fn lemma_mem_find(s: Seq<EntryV>, id: Seq<char>, label: Label)
    ensures
        mem_find(s, id, label) < 0 ==> forall|j: int|
            0 <= j < s.len() ==> !key_is(#[trigger] s[j], id, label),
        mem_find(s, id, label) >= 0 ==> {
            &&& mem_find(s, id, label) < s.len()
            &&& key_is(s[mem_find(s, id, label)], id, label)
            &&& forall|j: int| 0 <= j < mem_find(s, id, label) ==> !key_is(#[trigger] s[j], id, label)
        },
    decreases s.len(),
{
    if s.len() > 0 && !key_is(s[0], id, label) {
        lemma_mem_find(s.drop_first(), id, label);
        let sub = mem_find(s.drop_first(), id, label);
        if sub < 0 {
            assert forall|j: int| 0 <= j < s.len() implies !key_is(#[trigger] s[j], id, label) by {
                if j > 0 {
                    assert(s[j] == s.drop_first()[j - 1]);
                }
            }
        } else {
            assert(s[1 + sub] == s.drop_first()[sub]);
            assert forall|j: int|
                0 <= j < mem_find(s, id, label) implies !key_is(#[trigger] s[j], id, label) by {
                if j > 0 {
                    assert(s[j] == s.drop_first()[j - 1]);
                }
            }
        }
    }
}

/// When an entry matches at `i` and none before, the lookup yields it.
proof fn lemma_lookup_at(s: Seq<EntryV>, id: Seq<char>, label: Label, i: int)
    requires
        0 <= i < s.len(),
        key_is(s[i], id, label),
        forall|j: int| 0 <= j < i ==> !key_is(#[trigger] s[j], id, label),
    ensures
        lookup(s, id, label) == Some(s[i].value),
    decreases i,
{
    if i > 0 {
        lemma_lookup_at(s.drop_first(), id, label, i - 1);
    }
}

/// When no entry matches, the lookup yields nothing.
proof fn lemma_lookup_none(s: Seq<EntryV>, id: Seq<char>, label: Label)
    requires
        forall|j: int| 0 <= j < s.len() ==> !key_is(#[trigger] s[j], id, label),
    ensures
        lookup(s, id, label) == None::<Val>,
    decreases s.len(),
{
    if s.len() > 0 {
        lemma_lookup_none(s.drop_first(), id, label);
    }
}

/// Replacing the first entry of a key changes the lookup at that key alone.
proof fn lemma_lookup_update(s: Seq<EntryV>, i: int, e: EntryV, id: Seq<char>, label: Label)
    requires
        0 <= i < s.len(),
        key_is(s[i], e.id, e.label),
        forall|j: int| 0 <= j < i ==> !key_is(#[trigger] s[j], e.id, e.label),
    ensures
        lookup(s.update(i, e), id, label) == if key_is(e, id, label) {
            Some(e.value)
        } else {
            lookup(s, id, label)
        },
    decreases i,
{
    if i == 0 {
        if !key_is(e, id, label) {
            assert(s.update(0, e).drop_first() =~= s.drop_first());
        }
    } else {
        assert(s.update(i, e)[0] == s[0]);
        if !key_is(s[0], id, label) {
            assert(s.update(i, e).drop_first() =~= s.drop_first().update(i - 1, e));
            lemma_lookup_update(s.drop_first(), i - 1, e, id, label);
        }
    }
}

/// Appending an entry of a fresh key changes the lookup at that key alone.
proof fn lemma_lookup_push(s: Seq<EntryV>, e: EntryV, id: Seq<char>, label: Label)
    requires
        forall|j: int| 0 <= j < s.len() ==> !key_is(#[trigger] s[j], e.id, e.label),
    ensures
        lookup(s.push(e), id, label) == if key_is(e, id, label) {
            Some(e.value)
        } else {
            lookup(s, id, label)
        },
    decreases s.len(),
{
    assert(s.push(e).len() == s.len() + 1);
    if s.len() == 0 {
        assert(s.push(e)[0] == e);
        if !key_is(e, id, label) {
            assert(s.push(e).drop_first() =~= Seq::<EntryV>::empty());
            assert(lookup(Seq::<EntryV>::empty(), id, label) is None);
        } else {
            assert(lookup(s.push(e), id, label) == Some(e.value));
        }
    } else {
        assert(s.push(e)[0] == s[0]);
        if !key_is(s[0], id, label) {
            assert(s.push(e).drop_first() =~= s.drop_first().push(e));
            assert(forall|j: int|
                0 <= j < s.drop_first().len() ==> #[trigger] s.drop_first()[j] == s[j + 1]);
            lemma_lookup_push(s.drop_first(), e, id, label);
        }
    }
}

/// Removing the sole entry of a key erases the lookup at that key alone.
proof fn lemma_lookup_remove(s: Seq<EntryV>, i: int, id: Seq<char>, label: Label)
    requires
        0 <= i < s.len(),
        mem_unique(s),
        forall|j: int| 0 <= j < i ==> !key_is(#[trigger] s[j], s[i].id, s[i].label),
    ensures
        lookup(s.remove(i), id, label) == if key_is(s[i], id, label) {
            None::<Val>
        } else {
            lookup(s, id, label)
        },
    decreases i,
{
    if i == 0 {
        assert(s.remove(0) =~= s.drop_first());
        if key_is(s[0], id, label) {
            assert(forall|j: int|
                0 <= j < s.drop_first().len() ==> !key_is(#[trigger] s.drop_first()[j], id, label));
            lemma_lookup_none(s.drop_first(), id, label);
        }
    } else {
        assert(s.remove(i)[0] == s[0]);
        if !key_is(s[0], id, label) {
            assert(s.remove(i).drop_first() =~= s.drop_first().remove(i - 1));
            assert(mem_unique(s.drop_first()));
            lemma_lookup_remove(s.drop_first(), i - 1, id, label);
        }
    }
}

/// What writing a key does to every lookup, and to well-formedness.
pub proof fn lemma_insert(s: Seq<EntryV>, id: Seq<char>, label: Label, value: Val)
    requires
        mem_unique(s),
    ensures
        forall|k: Seq<char>, l: Label|
            #[trigger] lookup(mem_insert_spec(s, id, label, value), k, l) == if k == id && l
                == label {
                Some(value)
            } else {
                lookup(s, k, l)
            },
        mem_unique(mem_insert_spec(s, id, label, value)),
        mem_no_refs(s) && !value.is_ref() ==> mem_no_refs(mem_insert_spec(s, id, label, value)),
{
    lemma_mem_find(s, id, label);
    let e = EntryV { id, label, value };
    let i = mem_find(s, id, label);
    if i >= 0 {
        assert forall|k: Seq<char>, l: Label|
            #[trigger] lookup(mem_insert_spec(s, id, label, value), k, l) == if k == id && l
                == label {
                Some(value)
            } else {
                lookup(s, k, l)
            } by {
            lemma_lookup_update(s, i, e, k, l);
        }
    } else {
        assert forall|k: Seq<char>, l: Label|
            #[trigger] lookup(mem_insert_spec(s, id, label, value), k, l) == if k == id && l
                == label {
                Some(value)
            } else {
                lookup(s, k, l)
            } by {
            lemma_lookup_push(s, e, k, l);
        }
        assert(s.push(e).len() == s.len() + 1);
        assert(forall|j: int| 0 <= j < s.len() ==> s.push(e)[j] == s[j]);
        assert(s.push(e)[s.len() as int] == e);
    }
}

/// What erasing a key does to every lookup, and to well-formedness.
pub proof fn lemma_remove(s: Seq<EntryV>, id: Seq<char>, label: Label)
    requires
        mem_unique(s),
    ensures
        forall|k: Seq<char>, l: Label|
            #[trigger] lookup(mem_remove_spec(s, id, label), k, l) == if k == id && l == label {
                None::<Val>
            } else {
                lookup(s, k, l)
            },
        mem_unique(mem_remove_spec(s, id, label)),
        mem_no_refs(s) ==> mem_no_refs(mem_remove_spec(s, id, label)),
{
    lemma_mem_find(s, id, label);
    let i = mem_find(s, id, label);
    if i >= 0 {
        assert forall|k: Seq<char>, l: Label|
            #[trigger] lookup(mem_remove_spec(s, id, label), k, l) == if k == id && l == label {
                None::<Val>
            } else {
                lookup(s, k, l)
            } by {
            lemma_lookup_remove(s, i, k, l);
        }
        assert(forall|j: int| 0 <= j < i ==> s.remove(i)[j] == s[j]);
        assert(forall|j: int| i <= j < s.len() - 1 ==> s.remove(i)[j] == s[j + 1]);
    } else {
        lemma_lookup_none(s, id, label);
        assert forall|k: Seq<char>, l: Label|
            #[trigger] lookup(mem_remove_spec(s, id, label), k, l) == if k == id && l == label {
                None::<Val>
            } else {
                lookup(s, k, l)
            } by {
            if k == id && l == label {
                lemma_lookup_none(s, k, l);
            }
        }
    }
}

/// When a key is present, the lookup yields the found entry's value.
pub proof fn lemma_lookup_found(s: Seq<EntryV>, id: Seq<char>, label: Label)
    ensures
        mem_find(s, id, label) >= 0 ==> lookup(s, id, label) == Some(
            s[mem_find(s, id, label)].value,
        ),
        mem_find(s, id, label) < 0 ==> lookup(s, id, label) is None,
{
    lemma_mem_find(s, id, label);
    if mem_find(s, id, label) >= 0 {
        lemma_lookup_at(s, id, label, mem_find(s, id, label));
    } else {
        lemma_lookup_none(s, id, label);
    }
}

/// A runner's scratch store.
#[derive(Debug)]
pub struct Memory {
    entries: Vec<MemEntry>,
}

impl View for Memory {
    type V = Seq<EntryV>;

    closed spec fn view(&self) -> Seq<EntryV> {
        self.entries@.map_values(|e: MemEntry| e@)
    }
}

impl Memory {
    /// An empty store.
    pub fn new() -> (r: Memory)
        ensures
            r@ =~= Seq::<EntryV>::empty(),
            mem_wf(r@),
    {
        Memory { entries: Vec::new() }
    }

    /// The index of the first entry of a key, if any.
    fn find(&self, block_id: &Id, label: Label) -> (r: Option<usize>)
        ensures
            match r {
                Some(i) => i == mem_find(self@, block_id@, label),
                None => mem_find(self@, block_id@, label) < 0,
            },
    {
        proof {
            lemma_mem_find(self@, block_id@, label);
        }
        let n: usize = self.entries.len();
        let mut i: usize = 0;
        while i < n
            invariant
                i <= n,
                n == self@.len(),
                self@ == self.entries@.map_values(|e: MemEntry| e@),
                forall|j: int| 0 <= j < i ==> !key_is(#[trigger] self@[j], block_id@, label),
                mem_find(self@, block_id@, label) >= 0 ==> {
                    &&& mem_find(self@, block_id@, label) < self@.len()
                    &&& key_is(self@[mem_find(self@, block_id@, label)], block_id@, label)
                },
                mem_find(self@, block_id@, label) < 0 ==> forall|j: int|
                    0 <= j < self@.len() ==> !key_is(#[trigger] self@[j], block_id@, label),
            decreases n - i,
        {
            let e = &self.entries[i];
            if e.id.id_eq(block_id) && e.label == label {
                proof {
                    assert(self@[i as int] == self.entries@[i as int]@);
                    assert(key_is(self@[i as int], block_id@, label));
                    lemma_mem_find(self@, block_id@, label);
                    let mf = mem_find(self@, block_id@, label);
                    assert(mf >= 0);
                    if mf < i as int {
                        assert(!key_is(self@[mf], block_id@, label));
                    }
                    assert(i as int == mf);
                }
                return Some(i);
            }
            i = i + 1;
        }
        None
    }

    /// The value stored under a key.
    pub fn get(&self, block_id: &Id, label: Label) -> (r: Option<&Value>)
        ensures
            match r {
                Some(v) => lookup(self@, block_id@, label) == Some(v@),
                None => lookup(self@, block_id@, label) is None,
            },
    {
        proof {
            lemma_mem_find(self@, block_id@, label);
            lemma_lookup_found(self@, block_id@, label);
        }
        match self.find(block_id, label) {
            Some(i) => {
                proof {
                    assert(self@[i as int] == self.entries@[i as int]@);
                }
                Some(&self.entries[i].value)
            },
            None => None,
        }
    }

    /// Stores a value under a key and returns what the key held before.
    pub fn insert(&mut self, block_id: &Id, label: Label, value: Value) -> (r: Option<Value>)
        ensures
            final(self)@ == mem_insert_spec(old(self)@, block_id@, label, value@),
            match r {
                Some(w) => lookup(old(self)@, block_id@, label) == Some(w@),
                None => lookup(old(self)@, block_id@, label) is None,
            },
    {
        proof {
            lemma_mem_find(self@, block_id@, label);
            lemma_lookup_found(self@, block_id@, label);
        }
        let e = MemEntry { id: block_id.clone(), label, value };
        match self.find(block_id, label) {
            Some(i) => {
                proof {
                    assert(self@[i as int] == self.entries@[i as int]@);
                }
                let old_value = self.entries[i].value.clone();
                self.entries.set(i, e);
                proof {
                    assert(self@ =~= mem_insert_spec(old(self)@, block_id@, label, value@));
                }
                Some(old_value)
            },
            None => {
                self.entries.push(e);
                proof {
                    assert(self@ =~= mem_insert_spec(old(self)@, block_id@, label, value@));
                }
                None
            },
        }
    }

    /// Removes a key and returns what it held.
    pub fn remove(&mut self, block_id: &Id, label: Label) -> (r: Option<Value>)
        ensures
            final(self)@ == mem_remove_spec(old(self)@, block_id@, label),
            match r {
                Some(w) => lookup(old(self)@, block_id@, label) == Some(w@),
                None => lookup(old(self)@, block_id@, label) is None,
            },
    {
        proof {
            lemma_mem_find(self@, block_id@, label);
            lemma_lookup_found(self@, block_id@, label);
        }
        match self.find(block_id, label) {
            Some(i) => {
                proof {
                    assert(self@[i as int] == self.entries@[i as int]@);
                }
                let e = self.entries.remove(i);
                proof {
                    assert(self@ =~= mem_remove_spec(old(self)@, block_id@, label));
                }
                Some(e.value)
            },
            None => None,
        }
    }
}

/// A cached resolution: what the key already holds, or else the operand
/// resolved once and stored, so that re-evaluation cannot repeat an effect.
pub open spec fn cache_spec(mem: Seq<EntryV>, id: Seq<char>, label: Label, v: Val) -> Result<
    (Val, Seq<EntryV>),
    RunError,
> {
    match lookup(mem, id, label) {
        Some(w) => Ok((w, mem)),
        None => match resolve_spec(v, mem) {
            Ok(w) => Ok((w, mem_insert_spec(mem, id, label, w))),
            Err(e) => Err(e),
        },
    }
}

impl Memory {
    /// The value cached under a key, or the operand resolved once and cached.
    pub fn cache(&mut self, block_id: &Id, label: Label, value: &Value) -> (r: Result<
        Value,
        RunError,
    >)
        ensures
            ({
                let sp = cache_spec(old(self)@, block_id@, label, value@);
                match r {
                    Ok(w) => sp matches Ok(p) && w@ == p.0 && final(self)@ == p.1,
                    Err(e) => sp == Err::<(Val, Seq<EntryV>), RunError>(e) && final(self)@ == old(
                        self,
                    )@,
                }
            }),
    {
        let existing: Option<Value> = match self.get(block_id, label) {
            Some(v) => Some(v.clone()),
            None => None,
        };
        match existing {
            Some(w) => Ok(w),
            None => match value.to_raw_value(self) {
                Ok(w) => {
                    self.insert(block_id, label, w.clone());
                    Ok(w)
                },
                Err(e) => Err(e),
            },
        }
    }
}

/// Resolves one memory indirection against a store: a reference is looked
/// up, any other value stands for itself.
pub open spec fn resolve_spec(v: Val, mem: Seq<EntryV>) -> Result<Val, RunError> {
    match v {
        Val::Memory(id, label) => match lookup(mem, id, label) {
            Some(w) => Ok(w),
            None => Err(RunError::LookupFailure),
        },
        _ => Ok(v),
    }
}

impl Value {
    /// The value behind at most one memory indirection; fails when the
    /// referenced entry is absent, which correct compilation rules out.
    pub fn to_raw_value(&self, memory: &Memory) -> (r: Result<Value, RunError>)
        ensures
            match r {
                Ok(w) => resolve_spec(self@, memory@) == Ok::<Val, RunError>(w@),
                Err(e) => resolve_spec(self@, memory@) == Err::<Val, RunError>(e),
            },
    {
        match self {
            Value::Memory(id, label) => match memory.get(id, *label) {
                Some(w) => Ok(w.clone()),
                None => Err(RunError::LookupFailure),
            },
            _ => Ok(self.clone()),
        }
    }
}

} // verus!

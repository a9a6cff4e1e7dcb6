//! Insertion-ordered objects: string-keyed dictionaries whose values are heap
//! indices. Environments and object values share this representation.

use crate::context::{forward, forward_handle};
use indexmap::IndexMap;
use vstd::prelude::*;

verus! {

/// `indexmap::IndexMap`, the insertion-ordered hash map, as an opaque type.
#[verifier::external_type_specification]
#[verifier::external_body]
#[verifier::reject_recursive_types(K)]
#[verifier::reject_recursive_types(V)]
#[verifier::reject_recursive_types(S)]
pub struct ExIndexMap<K, V, S>(IndexMap<K, V, S>);

/// The entries that an `indexmap::IndexMap` holds, in insertion order: the
/// order is that of the first insertion of each key, whatever the hasher.
pub uninterp spec fn dict_entries(m: IndexMap<String, usize>) -> Seq<(Seq<char>, usize)>;

/// Position of the first entry stored under `key`, if there is one.
pub open spec fn entry_index(entries: Seq<(Seq<char>, usize)>, key: Seq<char>) -> Option<int>
    decreases entries.len(),
{
    if entries.len() == 0 {
        None
    } else if entries[0].0 == key {
        Some(0int)
    } else {
        match entry_index(entries.drop_first(), key) {
            Some(i) => Some(i + 1),
            None => None,
        }
    }
}

/// The value stored under `key`, if there is one.
pub open spec fn entry_lookup(entries: Seq<(Seq<char>, usize)>, key: Seq<char>) -> Option<usize> {
    match entry_index(entries, key) {
        Some(i) => Some(entries[i].1),
        None => None,
    }
}

/// The entries after storing `value` under `key`: an existing entry keeps
/// its place and takes the new value, a new key goes last.
pub open spec fn entry_store(entries: Seq<(Seq<char>, usize)>, key: Seq<char>, value: usize) -> Seq<
    (Seq<char>, usize),
> {
    match entry_index(entries, key) {
        Some(i) => entries.update(i, (key, value)),
        None => entries.push((key, value)),
    }
}

/// The values of the entries, in order.
pub open spec fn entry_values(entries: Seq<(Seq<char>, usize)>) -> Seq<usize> {
    Seq::new(entries.len(), |i: int| entries[i].1)
}

/// The entries with every stored index forwarded through `table`.
pub open spec fn entries_forwarded(entries: Seq<(Seq<char>, usize)>, table: Seq<usize>) -> Seq<
    (Seq<char>, usize),
> {
    Seq::new(entries.len(), |i: int| (entries[i].0, forward(table, entries[i].1)))
}

/// The entries after storing each entry of `extra`, in order.
pub open spec fn entries_merged(base: Seq<(Seq<char>, usize)>, extra: Seq<(Seq<char>, usize)>) -> Seq<
    (Seq<char>, usize),
>
    decreases extra.len(),
{
    if extra.len() == 0 {
        base
    } else {
        entry_store(entries_merged(base, extra.drop_last()), extra.last().0, extra.last().1)
    }
}

/// The entries that bind each name to the handle at the same place; none
/// where the two differ in length.
pub open spec fn entries_bound(names: Seq<Seq<char>>, handles: Seq<usize>) -> Seq<(Seq<char>, usize)>
    decreases names.len(),
{
    if names.len() == 0 || names.len() != handles.len() {
        Seq::empty()
    } else {
        entry_store(entries_bound(names.drop_last(), handles.drop_last()), names.last(), handles.last())
    }
}

/// `entry_index` finds an entry with the key, and none stands before it.
pub proof fn lemma_entry_index(entries: Seq<(Seq<char>, usize)>, key: Seq<char>)
    ensures
        match entry_index(entries, key) {
            Some(i) => 0 <= i < entries.len() && entries[i].0 == key && forall|j: int|
                0 <= j < i ==> entries[j].0 != key,
            None => forall|j: int| 0 <= j < entries.len() ==> entries[j].0 != key,
        },
    decreases entries.len(),
{
    if entries.len() > 0 && entries[0].0 != key {
        let rest = entries.drop_first();
        lemma_entry_index(rest, key);
        match entry_index(rest, key) {
            Some(i) => {
                assert forall|j: int| 0 <= j < i + 1 implies entries[j].0 != key by {
                    if j > 0 {
                        assert(rest[j - 1] == entries[j]);
                    }
                }
            },
            None => {
                assert forall|j: int| 0 <= j < entries.len() implies entries[j].0 != key by {
                    if j > 0 {
                        assert(rest[j - 1] == entries[j]);
                    }
                }
            },
        }
    }
}

/// A position that holds the key, with none before it, is what `entry_index`
/// finds.
pub proof fn lemma_entry_index_unique(entries: Seq<(Seq<char>, usize)>, key: Seq<char>, i: int)
    requires
        0 <= i < entries.len(),
        entries[i].0 == key,
        forall|j: int| 0 <= j < i ==> entries[j].0 != key,
    ensures
        entry_index(entries, key) == Some(i),
{
    lemma_entry_index(entries, key);
}

/// What was stored under a key is what a lookup of that key finds, and the
/// entries under other keys are found as before.
pub proof fn lemma_store_lookup(
    entries: Seq<(Seq<char>, usize)>,
    key: Seq<char>,
    value: usize,
    other: Seq<char>,
)
    ensures
        entry_lookup(entry_store(entries, key, value), key) == Some(value),
        other != key ==> entry_lookup(entry_store(entries, key, value), other) == entry_lookup(
            entries,
            other,
        ),
{
    let stored = entry_store(entries, key, value);
    lemma_entry_index(entries, key);
    lemma_entry_index(entries, other);
    match entry_index(entries, key) {
        Some(i) => {
            lemma_entry_index_unique(stored, key, i);
            if other != key {
                match entry_index(entries, other) {
                    Some(k) => {
                        lemma_entry_index_unique(stored, other, k);
                    },
                    None => {
                        lemma_entry_index(stored, other);
                    },
                }
            }
        },
        None => {
            lemma_entry_index_unique(stored, key, entries.len() as int);
            if other != key {
                match entry_index(entries, other) {
                    Some(k) => {
                        lemma_entry_index_unique(stored, other, k);
                    },
                    None => {
                        lemma_entry_index(stored, other);
                    },
                }
            }
        },
    }
}

/// `indexmap::IndexMap::new`: the new map holds no entry.
#[verifier::external_body]
pub(crate) fn dict_new() -> (r: IndexMap<String, usize>)
    ensures
        dict_entries(r) == Seq::<(Seq<char>, usize)>::empty(),
{
    IndexMap::new()
}

/// `indexmap::IndexMap::len`: the number of entries.
#[verifier::external_body]
pub(crate) fn dict_len(m: &IndexMap<String, usize>) -> (r: usize)
    ensures
        r == dict_entries(*m).len(),
{
    m.len()
}

/// `indexmap::IndexMap::get`: the value of the entry with an equal key, or
/// nothing where no entry has it.
#[verifier::external_body]
pub(crate) fn dict_get(m: &IndexMap<String, usize>, key: &str) -> (r: Option<usize>)
    ensures
        r == entry_lookup(dict_entries(*m), key@),
{
    m.get(key).copied()
}

/// `indexmap::IndexMap::insert`: an entry with an equal key keeps its key
/// and place and takes the new value, which is returned as it was before;
/// otherwise the pair becomes the last entry and nothing is returned.
#[verifier::external_body]
pub(crate) fn dict_insert(m: &mut IndexMap<String, usize>, key: String, value: usize) -> (r:
    Option<usize>)
    ensures
        dict_entries(*final(m)) == entry_store(dict_entries(*old(m)), key@, value),
        r == entry_lookup(dict_entries(*old(m)), key@),
{
    m.insert(key, value)
}

/// `indexmap::IndexMap::get_index`: the key and value at a position in
/// insertion order, or nothing where the position is past the end.
#[verifier::external_body]
pub(crate) fn dict_get_index(m: &IndexMap<String, usize>, index: usize) -> (r: Option<
    (&String, &usize),
>)
    ensures
        match r {
            Some((k, v)) => index < dict_entries(*m).len() && k@ == dict_entries(*m)[index as int].0
                && *v == dict_entries(*m)[index as int].1,
            None => index >= dict_entries(*m).len(),
        },
{
    m.get_index(index)
}

/// `indexmap::IndexMap::get_index_mut`, used to replace the value at a
/// position: the key and every other entry stay as they are.
#[verifier::external_body]
pub(crate) fn dict_set_index(m: &mut IndexMap<String, usize>, index: usize, value: usize)
    requires
        index < dict_entries(*old(m)).len(),
    ensures
        dict_entries(*final(m)) == dict_entries(*old(m)).update(
            index as int,
            (dict_entries(*old(m))[index as int].0, value),
        ),
{
    *m.get_index_mut(index).unwrap().1 = value;
}

/// `Clone::clone` of `indexmap::IndexMap`: the copy holds the same entries
/// in the same order.
#[verifier::external_body]
pub(crate) fn dict_clone(m: &IndexMap<String, usize>) -> (r: IndexMap<String, usize>)
    ensures
        dict_entries(r) == dict_entries(*m),
{
    m.clone()
}

/// An insertion-ordered mapping from names to heap indices.
#[derive(Debug)]
pub struct NyarObject {
    dict: IndexMap<String, usize>,
}

impl View for NyarObject {
    type V = Seq<(Seq<char>, usize)>;

    closed spec fn view(&self) -> Seq<(Seq<char>, usize)> {
        dict_entries(self.dict)
    }
}

impl NyarObject {
    /// An object without entries.
    pub fn new() -> (r: Self)
        ensures
            r@ == Seq::<(Seq<char>, usize)>::empty(),
    {
        NyarObject { dict: dict_new() }
    }

    /// The number of entries.
    pub fn len(&self) -> (r: usize)
        ensures
            r == self@.len(),
    {
        dict_len(&self.dict)
    }

    /// The index stored under `name`, if any.
    pub fn get(&self, name: &str) -> (r: Option<usize>)
        ensures
            r == entry_lookup(self@, name@),
    {
        dict_get(&self.dict, name)
    }

    /// Stores `value` under `name` and returns what was stored there before.
    pub fn insert(&mut self, name: String, value: usize) -> (r: Option<usize>)
        ensures
            final(self)@ == entry_store(old(self)@, name@, value),
            r == entry_lookup(old(self)@, name@),
    {
        dict_insert(&mut self.dict, name, value)
    }

    /// The name and index at position `index`, if it is within the object.
    pub fn get_index(&self, index: usize) -> (r: Option<(&String, usize)>)
        ensures
            match r {
                Some((k, v)) => index < self@.len() && k@ == self@[index as int].0 && v
                    == self@[index as int].1,
                None => index >= self@.len(),
            },
    {
        match dict_get_index(&self.dict, index) {
            Some((k, v)) => Some((k, *v)),
            None => None,
        }
    }

    /// Replaces the index stored at position `index`, keeping its name.
    pub fn set_index(&mut self, index: usize, value: usize)
        requires
            index < old(self)@.len(),
        ensures
            final(self)@ == old(self)@.update(index as int, (old(self)@[index as int].0, value)),
    {
        dict_set_index(&mut self.dict, index, value)
    }

    /// A copy with the same entries in the same order.
    pub fn duplicate(&self) -> (r: Self)
        ensures
            r@ == self@,
    {
        NyarObject { dict: dict_clone(&self.dict) }
    }

    /// Rewrites every stored index through the table; names and order stay.
    pub fn rewrite(&mut self, table: &Vec<usize>)
        ensures
            final(self)@ == entries_forwarded(old(self)@, table@),
    {
        let n = self.len();
        let mut i: usize = 0;
        while i < n
            invariant
                n == self@.len(),
                n == old(self)@.len(),
                i <= n,
                forall|j: int|
                    0 <= j < i ==> self@[j] == (
                        old(self)@[j].0,
                        forward(table@, old(self)@[j].1),
                    ),
                forall|j: int| i <= j < n ==> self@[j] == old(self)@[j],
            decreases n - i,
        {
            match self.get_index(i) {
                Some((_, v)) => {
                    let w = forward_handle(table, v);
                    self.set_index(i, w);
                },
                None => {},
            }
            i = i + 1;
        }
        assert(self@ =~= entries_forwarded(old(self)@, table@));
    }

    /// Stores every entry of `other`, in order: an entry of `other`
    /// replaces the one that this object has under the same name.
    pub fn absorb(&mut self, other: &NyarObject)
        ensures
            final(self)@ == entries_merged(old(self)@, other@),
    {
        let n = other.len();
        let mut i: usize = 0;
        while i < n
            invariant
                n == other@.len(),
                i <= n,
                self@ == entries_merged(old(self)@, other@.subrange(0, i as int)),
            decreases n - i,
        {
            proof {
                let next = other@.subrange(0, i + 1);
                assert(next.drop_last() == other@.subrange(0, i as int));
                assert(next.last() == other@[i as int]);
            }
            match other.get_index(i) {
                Some((k, v)) => {
                    self.insert(k.clone(), v);
                },
                None => {},
            }
            i = i + 1;
        }
        assert(other@.subrange(0, n as int) == other@);
    }

    /// An object that binds each name to the handle at the same place.
    pub fn bind(names: &Vec<String>, handles: &Vec<usize>) -> (r: Self)
        requires
            names@.len() == handles@.len(),
        ensures
            r@ == entries_bound(crate::value::names_view(names@), handles@),
    {
        let ghost all = crate::value::names_view(names@);
        let n = names.len();
        let mut object = NyarObject::new();
        let mut i: usize = 0;
        while i < n
            invariant
                n == names@.len(),
                n == handles@.len(),
                all == crate::value::names_view(names@),
                i <= n,
                object@ == entries_bound(all.subrange(0, i as int), handles@.subrange(0, i as int)),
            decreases n - i,
        {
            proof {
                let next_names = all.subrange(0, i + 1);
                let next_handles = handles@.subrange(0, i + 1);
                assert(next_names.drop_last() == all.subrange(0, i as int));
                assert(next_handles.drop_last() == handles@.subrange(0, i as int));
                assert(next_names.last() == names@[i as int]@);
                assert(next_handles.last() == handles@[i as int]);
            }
            object.insert(names[i].clone(), handles[i]);
            i = i + 1;
        }
        assert(all.subrange(0, n as int) == all);
        assert(handles@.subrange(0, n as int) == handles@);
        object
    }

    /// The stored indices, in insertion order.
    pub fn values(&self) -> (r: Vec<usize>)
        ensures
            r@ == entry_values(self@),
    {
        let n = self.len();
        let mut out: Vec<usize> = Vec::new();
        let mut i: usize = 0;
        while i < n
            invariant
                n == self@.len(),
                i <= n,
                out@ == entry_values(self@).subrange(0, i as int),
            decreases n - i,
        {
            match self.get_index(i) {
                Some((_, v)) => {
                    out.push(v);
                },
                None => {},
            }
            assert(entry_values(self@).subrange(0, i + 1) == entry_values(self@).subrange(
                0,
                i as int,
            ).push(entry_values(self@)[i as int]));
            i = i + 1;
        }
        assert(entry_values(self@).subrange(0, n as int) == entry_values(self@));
        out
    }
}

} // verus!

//! An insertion-ordered table keyed by text.

use vstd::prelude::*;
use indexmap::IndexMap;
use crate::assoc;

verus! {

/// `indexmap::IndexMap`, a hash table that keeps the order in which its
/// keys came. Nothing inside it is seen here: what it holds is
/// `index_entries`.
#[verifier::external_type_specification]
#[verifier::external_body]
#[verifier::reject_recursive_types(K)]
#[verifier::reject_recursive_types(V)]
#[verifier::reject_recursive_types(S)]
pub struct ExIndexMap<K, V, S>(IndexMap<K, V, S>);

/// The entries of an index, in its order: each key with the slot it names.
pub uninterp spec fn index_entries(index: IndexMap<String, usize>) -> Seq<(Seq<char>, usize)>;

/// `IndexMap::new`: a new index has no entries.
#[verifier::external_body]
fn index_new() -> (index: IndexMap<String, usize>)
    ensures
        index_entries(index) == Seq::<(Seq<char>, usize)>::empty(),
{
    IndexMap::new()
}

/// `IndexMap::insert`: a key that the index has keeps its place and gets the
/// new slot, a key that it lacks becomes its last entry; the result is the
/// slot that stood under the key before.
#[verifier::external_body]
fn index_insert(index: &mut IndexMap<String, usize>, key: String, slot: usize) -> (before: Option<
    usize,
>)
    ensures
        index_entries(*final(index)) == assoc::put(index_entries(*old(index)), key@, slot),
        before == assoc::get(index_entries(*old(index)), key@),
{
    index.insert(key, slot)
}

/// `IndexMap::get`: the slot under `key`, if the index has that key.
#[verifier::external_body]
fn index_get(index: &IndexMap<String, usize>, key: &str) -> (slot: Option<usize>)
    ensures
        slot == assoc::get(index_entries(*index), key@),
{
    index.get(key).copied()
}

/// `IndexMap::get_index`: the key of the entry at place `at`, if the index
/// has that many entries.
#[verifier::external_body]
fn index_key(index: &IndexMap<String, usize>, at: usize) -> (key: Option<&String>)
    ensures
        at < index_entries(*index).len() ==> key is Some && key->0@ == index_entries(
            *index,
        )[at as int].0,
        at >= index_entries(*index).len() ==> key is None,
{
    index.get_index(at).map(|entry| entry.0)
}

/// A table from text keys to values that keeps its entries in the order
/// in which their keys first came.
#[derive(Debug)]
pub struct OrderedMap<V> {
    index: IndexMap<String, usize>,
    values: Vec<V>,
}

impl<V: DeepView> DeepView for OrderedMap<V> {
    type V = Seq<(Seq<char>, V::V)>;

    /// The entries of the table, in order, each value by its own model.
    open spec fn deep_view(&self) -> Seq<(Seq<char>, V::V)> {
        assoc::deep(self.entries())
    }
}

impl<V: DeepView> Default for OrderedMap<V> {
    fn default() -> (table: OrderedMap<V>)
        ensures
            table.deep_view() == Seq::<(Seq<char>, V::V)>::empty(),
    {
        OrderedMap::new()
    }
}

impl<V> OrderedMap<V> {
    #[verifier::type_invariant]
    spec fn well_formed(self) -> bool {
        &&& index_entries(self.index).len() == self.values.len()
        &&& forall|i: int|
            0 <= i < self.values.len() ==> (#[trigger] index_entries(self.index)[i]).1 == i
        &&& assoc::distinct(index_entries(self.index))
    }

    /// The entries of the table, in order.
    pub closed spec fn entries(self) -> Seq<(Seq<char>, V)> {
        Seq::new(
            self.values.len() as nat,
            |i: int| (index_entries(self.index)[i].0, self.values[i]),
        )
    }
}

impl<V: DeepView> OrderedMap<V> {
    /// A table without entries.
    pub fn new() -> (table: Self)
        ensures
            table.entries() == Seq::<(Seq<char>, V)>::empty(),
            table.deep_view() == Seq::<(Seq<char>, V::V)>::empty(),
    {
        let table = OrderedMap { index: index_new(), values: Vec::new() };
        assert(table.entries() =~= Seq::<(Seq<char>, V)>::empty());
        assert(table.deep_view() =~= Seq::<(Seq<char>, V::V)>::empty());
        table
    }

    /// The number of entries.
    pub fn len(&self) -> (n: usize)
        ensures
            n == self.entries().len(),
            n == self.deep_view().len(),
            assoc::distinct(self.entries()),
            assoc::distinct(self.deep_view()),
    {
        proof {
            use_type_invariant(self);
            assoc::lemma_deep_distinct(self.entries());
        }
        self.values.len()
    }

    /// Does nothing but tell the caller that no two entries of the table
    /// stand under one key.
    pub fn keys_are_distinct(&self)
        ensures
            assoc::distinct(self.entries()),
            assoc::distinct(self.deep_view()),
    {
        proof {
            use_type_invariant(self);
            assoc::lemma_deep_distinct(self.entries());
        }
    }

    /// Whether the table has no entries.
    pub fn is_empty(&self) -> (empty: bool)
        ensures
            empty == (self.entries().len() == 0),
            empty == (self.deep_view().len() == 0),
    {
        self.values.len() == 0
    }

    /// The place of the entry under `key`.
    pub fn index_of(&self, key: &str) -> (place: Option<usize>)
        ensures
            assoc::distinct(self.entries()),
            match place {
                Some(at) => assoc::index_of(self.entries(), key@) == Some(at as int)
                    && assoc::index_of(self.deep_view(), key@) == Some(at as int),
                None => assoc::index_of(self.entries(), key@) is None && assoc::index_of(
                    self.deep_view(),
                    key@,
                ) is None,
            },
    {
        proof {
            use_type_invariant(self);
            assoc::lemma_index_of(index_entries(self.index), key@);
            assoc::lemma_same_keys(index_entries(self.index), self.entries(), key@);
            assoc::lemma_deep(self.entries(), key@);
        }
        index_get(&self.index, key)
    }

    /// Whether an entry stands under `key`.
    pub fn contains_key(&self, key: &str) -> (found: bool)
        ensures
            found == assoc::has_key(self.entries(), key@),
            found == assoc::has_key(self.deep_view(), key@),
    {
        self.index_of(key).is_some()
    }

    /// The value under `key`.
    pub fn get(&self, key: &str) -> (value: Option<&V>)
        ensures
            match value {
                Some(v) => assoc::get(self.entries(), key@) == Some(*v),
                None => assoc::get(self.entries(), key@) is None,
            },
            value.deep_view() == assoc::get(self.deep_view(), key@),
    {
        proof {
            assoc::lemma_deep(self.entries(), key@);
        }
        match self.index_of(key) {
            Some(at) => {
                proof {
                    assoc::lemma_index_of(self.entries(), key@);
                }
                Some(&self.values[at])
            },
            None => None,
        }
    }

    /// The entry at place `at`, counted from zero in the table's order.
    pub fn get_index(&self, at: usize) -> (entry: Option<(&String, &V)>)
        ensures
            assoc::distinct(self.entries()),
            assoc::distinct(self.deep_view()),
            match entry {
                Some((key, value)) => at < self.entries().len() && self.entries()[at as int] == (
                    key@,
                    *value,
                ) && self.deep_view()[at as int] == (key@, value.deep_view()),
                None => at >= self.entries().len(),
            },
    {
        proof {
            use_type_invariant(self);
            assoc::lemma_deep_distinct(self.entries());
        }
        match index_key(&self.index, at) {
            Some(key) => Some((key, &self.values[at])),
            None => None,
        }
    }

    /// The keys of the table, in order.
    pub fn keys(&self) -> (names: Vec<String>)
        ensures
            names.deep_view() == assoc::keys(self.deep_view()),
    {
        let mut names: Vec<String> = Vec::new();
        let mut i: usize = 0;
        while i < self.len()
            invariant
                i <= self.deep_view().len(),
                names.len() == i,
                forall|j: int| 0 <= j < i ==> names[j]@ == self.deep_view()[j].0,
            decreases self.deep_view().len() - i,
        {
            match self.get_index(i) {
                Some((name, _)) => {
                    names.push(name.clone());
                },
                None => {},
            }
            i += 1;
        }
        assert(names.deep_view() =~= assoc::keys(self.deep_view()));
        names
    }

    /// Puts `value` under `key`: in the place of the entry under that key
    /// where there is one, else as the last entry. Returns the value that
    /// stood under the key before.
    pub fn insert(&mut self, key: String, value: V) -> (before: Option<V>)
        ensures
            final(self).entries() == assoc::put(old(self).entries(), key@, value),
            final(self).deep_view() == assoc::put(
                old(self).deep_view(),
                key@,
                value.deep_view(),
            ),
            before == assoc::get(old(self).entries(), key@),
            before.deep_view() == assoc::get(old(self).deep_view(), key@),
    {
        let mut taken = OrderedMap::new();
        core::mem::swap(self, &mut taken);
        proof {
            use_type_invariant(&taken);
        }
        let ghost model = taken.entries();
        let OrderedMap { mut index, mut values } = taken;
        let ghost keys = index_entries(index);
        let found = index_get(&index, key.as_str());
        let slot = match found {
            Some(slot) => slot,
            None => values.len(),
        };
        proof {
            assoc::lemma_index_of(keys, key@);
            assoc::lemma_put(keys, key@, slot);
            assoc::lemma_same_keys(keys, model, key@);
            assoc::lemma_deep(model, key@);
            assoc::lemma_deep_put(model, key@, value);
        }
        index_insert(&mut index, key, slot);
        values.push(value);
        let before = if found.is_some() {
            Some(values.swap_remove(slot))
        } else {
            None
        };
        let table = OrderedMap { index, values };
        assert(table.entries() =~= assoc::put(model, key@, value));
        *self = table;
        before
    }
}

} // verus!

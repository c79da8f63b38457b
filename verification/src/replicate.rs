//! Copies that are known to equal what they were made from.

use vstd::prelude::*;
use crate::assoc;
use crate::ordered::OrderedMap;
use crate::value::Value;

verus! {

/// A type whose values can be copied: a copy has the model of the value
/// it was made from.
pub trait Replicate: Sized + DeepView {
    /// A copy of the value.
    fn replicate(&self) -> (copy: Self)
        ensures
            copy.deep_view() == self.deep_view(),
    ;
}

impl Replicate for String {
    fn replicate(&self) -> (copy: String) {
        self.clone()
    }
}

impl Replicate for Value {
    fn replicate(&self) -> (copy: Value) {
        match self {
            Value::String(s) => Value::String(s.clone()),
            Value::Bool(b) => Value::Bool(*b),
            Value::U8(n) => Value::U8(*n),
            Value::U16(n) => Value::U16(*n),
            Value::U32(n) => Value::U32(*n),
            Value::U64(n) => Value::U64(*n),
            Value::I8(n) => Value::I8(*n),
            Value::I16(n) => Value::I16(*n),
            Value::I32(n) => Value::I32(*n),
            Value::I64(n) => Value::I64(*n),
            Value::Uuid(u) => Value::Uuid(*u),
        }
    }
}

impl Clone for Value {
    fn clone(&self) -> (copy: Value)
        ensures
            copy.deep_view() == self.deep_view(),
    {
        self.replicate()
    }
}

impl<V: Replicate> Replicate for OrderedMap<V> {
    fn replicate(&self) -> (copy: OrderedMap<V>) {
        let mut copy: OrderedMap<V> = OrderedMap::new();
        let mut i: usize = 0;
        assert(copy.deep_view() =~= self.deep_view().take(0));
        while i < self.len()
            invariant
                i <= self.deep_view().len(),
                copy.deep_view() == self.deep_view().take(i as int),
            decreases self.deep_view().len() - i,
        {
            let ghost before = copy.deep_view();
            match self.get_index(i) {
                Some((key, value)) => {
                    proof {
                        assert forall|j: int| 0 <= j < before.len() implies before[j].0
                            != key@ by {
                            assert(before[j] == self.deep_view()[j]);
                        }
                        assoc::lemma_index_of_none(before, key@);
                    }
                    copy.insert(key.clone(), value.replicate());
                    assert(copy.deep_view() =~= self.deep_view().take(i + 1));
                },
                None => {},
            }
            i += 1;
        }
        assert(self.deep_view().take(i as int) =~= self.deep_view());
        copy
    }
}

impl<V: Replicate> Clone for OrderedMap<V> {
    fn clone(&self) -> (copy: OrderedMap<V>)
        ensures
            copy.deep_view() == self.deep_view(),
    {
        self.replicate()
    }
}

impl<V: Replicate> Replicate for Option<V> {
    fn replicate(&self) -> (copy: Option<V>) {
        match self {
            Some(value) => Some(value.replicate()),
            None => None,
        }
    }
}

impl<V: Replicate> Replicate for Vec<V> {
    fn replicate(&self) -> (copy: Vec<V>) {
        let mut copy: Vec<V> = Vec::new();
        let mut i: usize = 0;
        while i < self.len()
            invariant
                i <= self.len(),
                copy.len() == i,
                forall|j: int| 0 <= j < i ==> copy[j].deep_view() == self[j].deep_view(),
            decreases self.len() - i,
        {
            copy.push(self[i].replicate());
            i += 1;
        }
        assert(copy.deep_view() =~= self.deep_view());
        copy
    }
}

} // verus!

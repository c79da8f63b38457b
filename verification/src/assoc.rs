//! Association sequences: the mathematical model of an ordered table, a
//! sequence of entries that are found by key and keep their place.

use vstd::prelude::*;

verus! {

/// The place of the first entry of `entries` under `key`.
pub open spec fn index_of<T>(entries: Seq<(Seq<char>, T)>, key: Seq<char>) -> Option<int>
    decreases entries.len(),
{
    if entries.len() == 0 {
        None
    } else {
        match index_of(entries.drop_last(), key) {
            Some(i) => Some(i),
            None => if entries.last().0 == key {
                Some(entries.len() - 1)
            } else {
                None
            },
        }
    }
}

/// The value of the first entry of `entries` under `key`.
pub open spec fn get<T>(entries: Seq<(Seq<char>, T)>, key: Seq<char>) -> Option<T> {
    match index_of(entries, key) {
        Some(i) => Some(entries[i].1),
        None => None,
    }
}

/// Whether some entry of `entries` stands under `key`.
pub open spec fn has_key<T>(entries: Seq<(Seq<char>, T)>, key: Seq<char>) -> bool {
    index_of(entries, key) is Some
}

/// `entries` with `value` under `key`: in the place of the first entry under
/// that key where there is one, else as a new last entry.
pub open spec fn put<T>(entries: Seq<(Seq<char>, T)>, key: Seq<char>, value: T) -> Seq<
    (Seq<char>, T),
> {
    match index_of(entries, key) {
        Some(i) => entries.update(i, (key, value)),
        None => entries.push((key, value)),
    }
}

/// No two entries of `entries` stand under one key.
pub open spec fn distinct<T>(entries: Seq<(Seq<char>, T)>) -> bool {
    forall|i: int, j: int|
        0 <= i < entries.len() && 0 <= j < entries.len() && i != j ==> entries[i].0
            != entries[j].0
}

/// Whether `holds` is true of every value of `entries`.
pub open spec fn all_values<T>(entries: Seq<(Seq<char>, T)>, holds: spec_fn(T) -> bool) -> bool {
    forall|i: int| 0 <= i < entries.len() ==> holds((#[trigger] entries[i]).1)
}

/// The keys of `entries`, in order.
pub open spec fn keys<T>(entries: Seq<(Seq<char>, T)>) -> Seq<Seq<char>> {
    Seq::new(entries.len(), |i: int| entries[i].0)
}

/// What `index_of` finds is the first entry under the key, and it finds
/// nothing only where no entry stands under it.
pub proof fn lemma_index_of<T>(entries: Seq<(Seq<char>, T)>, key: Seq<char>)
    ensures
        match index_of(entries, key) {
            Some(i) => {
                &&& 0 <= i < entries.len()
                &&& entries[i].0 == key
                &&& forall|j: int| 0 <= j < i ==> entries[j].0 != key
            },
            None => forall|j: int| 0 <= j < entries.len() ==> entries[j].0 != key,
        },
    decreases entries.len(),
{
    if entries.len() > 0 {
        let front = entries.drop_last();
        lemma_index_of(front, key);
        assert forall|j: int| 0 <= j < front.len() implies front[j] == entries[j] by {}
        match index_of(front, key) {
            Some(i) => {
                assert(front[i] == entries[i]);
            },
            None => {
                assert forall|j: int| 0 <= j < entries.len() - 1 implies entries[j].0 != key by {
                    assert(front[j] == entries[j]);
                }
            },
        }
    }
}

/// An entry under `key` with no earlier entry under it is the one that
/// `index_of` finds.
pub proof fn lemma_index_of_first<T>(entries: Seq<(Seq<char>, T)>, key: Seq<char>, i: int)
    requires
        0 <= i < entries.len(),
        entries[i].0 == key,
        forall|j: int| 0 <= j < i ==> entries[j].0 != key,
    ensures
        index_of(entries, key) == Some(i),
{
    lemma_index_of(entries, key);
}

/// Where no entry stands under `key`, `index_of` finds nothing.
pub proof fn lemma_index_of_none<T>(entries: Seq<(Seq<char>, T)>, key: Seq<char>)
    requires
        forall|j: int| 0 <= j < entries.len() ==> entries[j].0 != key,
    ensures
        index_of(entries, key) is None,
{
    lemma_index_of(entries, key);
}

/// `put` keeps a table of distinct keys one, holds the new value under the
/// key, and leaves what stands under every other key alone.
pub proof fn lemma_put<T>(entries: Seq<(Seq<char>, T)>, key: Seq<char>, value: T)
    ensures
        get(put(entries, key, value), key) == Some(value),
        distinct(entries) ==> distinct(put(entries, key, value)),
        forall|other: Seq<char>|
            other != key ==> #[trigger] index_of(put(entries, key, value), other) == index_of(
                entries,
                other,
            ) && get(put(entries, key, value), other) == get(entries, other),
        put(entries, key, value).len() == if has_key(entries, key) {
            entries.len()
        } else {
            entries.len() + 1
        },
{
    let after = put(entries, key, value);
    lemma_index_of(entries, key);
    match index_of(entries, key) {
        Some(i) => {
            lemma_index_of_first(after, key, i);
        },
        None => {
            lemma_index_of_first(after, key, entries.len() as int);
        },
    }
    assert forall|other: Seq<char>| other != key implies #[trigger] index_of(after, other)
        == index_of(entries, other) && get(after, other) == get(entries, other) by {
        lemma_index_of(entries, other);
        match index_of(entries, other) {
            Some(i) => {
                lemma_index_of_first(after, other, i);
            },
            None => {
                lemma_index_of_none(after, other);
            },
        }
    }
}

/// A second `put` under the same key undoes the first.
pub proof fn lemma_put_twice<T>(entries: Seq<(Seq<char>, T)>, key: Seq<char>, first: T, second: T)
    ensures
        put(put(entries, key, first), key, second) == put(entries, key, second),
{
    lemma_index_of(entries, key);
    match index_of(entries, key) {
        Some(i) => {
            lemma_index_of_first(put(entries, key, first), key, i);
        },
        None => {
            lemma_index_of_first(put(entries, key, first), key, entries.len() as int);
        },
    }
    assert(put(put(entries, key, first), key, second) =~= put(entries, key, second));
}

/// Every entry of a table after `put` is the new entry or an entry of the
/// table before.
pub proof fn lemma_put_entries<T>(entries: Seq<(Seq<char>, T)>, key: Seq<char>, value: T)
    ensures
        forall|i: int|
            0 <= i < put(entries, key, value).len() ==> #[trigger] put(entries, key, value)[i] == (
                key,
                value,
            ) || (0 <= i < entries.len() && put(entries, key, value)[i] == entries[i]),
{
    lemma_index_of(entries, key);
}

/// The table of the models of the values of `entries`, under the same keys.
pub open spec fn deep<V: DeepView>(entries: Seq<(Seq<char>, V)>) -> Seq<(Seq<char>, V::V)> {
    Seq::new(entries.len(), |i: int| (entries[i].0, entries[i].1.deep_view()))
}

/// Two tables with the same keys in the same places find a key in the
/// same place.
pub proof fn lemma_same_keys<A, B>(
    left: Seq<(Seq<char>, A)>,
    right: Seq<(Seq<char>, B)>,
    key: Seq<char>,
)
    requires
        left.len() == right.len(),
        forall|i: int| 0 <= i < left.len() ==> left[i].0 == right[i].0,
    ensures
        index_of(left, key) == index_of(right, key),
{
    lemma_index_of(left, key);
    lemma_index_of(right, key);
    match index_of(left, key) {
        Some(i) => {
            lemma_index_of_first(right, key, i);
        },
        None => {
            lemma_index_of_none(right, key);
        },
    }
}

/// The table of models has distinct keys where the table has.
pub proof fn lemma_deep_distinct<V: DeepView>(entries: Seq<(Seq<char>, V)>)
    ensures
        distinct(deep(entries)) == distinct(entries),
        keys(deep(entries)) == keys(entries),
{
    assert(keys(deep(entries)) =~= keys(entries));
    if distinct(entries) {
        assert forall|i: int, j: int|
            0 <= i < entries.len() && 0 <= j < entries.len() && i != j implies deep(entries)[i].0
            != deep(entries)[j].0 by {
            assert(entries[i].0 != entries[j].0);
        }
    }
    if distinct(deep(entries)) {
        assert forall|i: int, j: int|
            0 <= i < entries.len() && 0 <= j < entries.len() && i != j implies entries[i].0
            != entries[j].0 by {
            assert(deep(entries)[i].0 != deep(entries)[j].0);
        }
    }
}

/// A key is found in the table of models where it is found in the table,
/// and what is found there is the model of what is found here.
pub proof fn lemma_deep<V: DeepView>(entries: Seq<(Seq<char>, V)>, key: Seq<char>)
    ensures
        index_of(deep(entries), key) == index_of(entries, key),
        get(deep(entries), key) == get(entries, key).deep_view(),
        has_key(deep(entries), key) == has_key(entries, key),
{
    lemma_same_keys(deep(entries), entries, key);
    lemma_index_of(entries, key);
}

/// The model of a table after `put` is the table of models after the same
/// `put` of the value's model.
pub proof fn lemma_deep_put<V: DeepView>(entries: Seq<(Seq<char>, V)>, key: Seq<char>, value: V)
    ensures
        deep(put(entries, key, value)) == put(deep(entries), key, value.deep_view()),
{
    lemma_deep(entries, key);
    lemma_index_of(entries, key);
    assert(deep(put(entries, key, value)) =~= put(deep(entries), key, value.deep_view()));
}

/// What `step` makes of `init` and the items in order, as far as it
/// succeeds: the first failure is the result.
pub open spec fn try_fold<X, S, E>(items: Seq<X>, init: S, step: spec_fn(S, X) -> Result<S, E>)
    -> Result<S, E>
    decreases items.len(),
{
    if items.len() == 0 {
        Ok(init)
    } else {
        match try_fold(items.drop_last(), init, step) {
            Err(error) => Err(error),
            Ok(state) => step(state, items.last()),
        }
    }
}

/// Folding one item more is one step from the fold so far.
pub proof fn lemma_try_fold_step<X, S, E>(
    items: Seq<X>,
    init: S,
    step: spec_fn(S, X) -> Result<S, E>,
    done: int,
)
    requires
        0 <= done < items.len(),
    ensures
        try_fold(items.take(done + 1), init, step) == match try_fold(
            items.take(done),
            init,
            step,
        ) {
            Err(error) => Err(error),
            Ok(state) => step(state, items[done]),
        },
        done + 1 == items.len() ==> items.take(done + 1) == items,
        try_fold(items.take(0), init, step) == Ok::<S, E>(init),
{
    assert(items.take(done + 1).drop_last() =~= items.take(done));
    if done + 1 == items.len() {
        assert(items.take(done + 1) =~= items);
    }
}

/// A fold that has failed on the first items fails in the same way on all.
pub proof fn lemma_try_fold_fails<X, S, E>(
    items: Seq<X>,
    init: S,
    step: spec_fn(S, X) -> Result<S, E>,
    done: int,
)
    requires
        0 <= done <= items.len(),
    ensures
        try_fold(items.take(done), init, step) is Err ==> try_fold(items, init, step) == try_fold(
            items.take(done),
            init,
            step,
        ),
    decreases items.len() - done,
{
    if !(try_fold(items.take(done), init, step) is Err) {
    } else if done < items.len() {
        lemma_try_fold_step(items, init, step, done);
        lemma_try_fold_fails(items, init, step, done + 1);
    } else {
        assert(items.take(done) =~= items);
    }
}

/// What holds of the start of a fold and is kept by every step that
/// succeeds holds of what the fold gives.
pub proof fn lemma_try_fold_keeps<X, S, E>(
    items: Seq<X>,
    init: S,
    step: spec_fn(S, X) -> Result<S, E>,
    kept: spec_fn(S) -> bool,
)
    requires
        kept(init),
        forall|state: S, at: int|
            0 <= at < items.len() && kept(state) && (#[trigger] step(state, items[at])) is Ok
                ==> kept(step(state, items[at])->Ok_0),
    ensures
        try_fold(items, init, step) matches Ok(result) ==> kept(result),
    decreases items.len(),
{
    if items.len() > 0 {
        let front = items.drop_last();
        assert forall|state: S, at: int|
            0 <= at < front.len() && kept(state) && (#[trigger] step(state, front[at])) is Ok
            implies kept(step(state, front[at])->Ok_0) by {
            assert(front[at] == items[at]);
        }
        lemma_try_fold_keeps(front, init, step, kept);
        assert(items.last() == items[items.len() - 1]);
    }
}

/// Where something holds of every value of a table and of a new value, it
/// holds of every value of the table after `put`.
pub proof fn lemma_put_all<T>(
    entries: Seq<(Seq<char>, T)>,
    key: Seq<char>,
    value: T,
    holds: spec_fn(T) -> bool,
)
    requires
        all_values(entries, holds),
        holds(value),
    ensures
        all_values(put(entries, key, value), holds),
{
    lemma_put_entries(entries, key, value);
    let after = put(entries, key, value);
    assert forall|i: int| 0 <= i < after.len() implies holds((#[trigger] after[i]).1) by {
        if after[i] == (key, value) {
        } else {
            assert(after[i] == entries[i]);
        }
    }
}

/// A fold fails where one of the items makes the step fail whatever came
/// before it.
pub proof fn lemma_try_fold_stops<X, S, E>(
    items: Seq<X>,
    init: S,
    step: spec_fn(S, X) -> Result<S, E>,
    at: int,
)
    requires
        0 <= at < items.len(),
        forall|state: S| #[trigger] step(state, items[at]) is Err,
    ensures
        try_fold(items, init, step) is Err,
{
    lemma_try_fold_step(items, init, step, at);
    lemma_try_fold_fails(items, init, step, at + 1);
}

/// A fold succeeds where no item makes the step fail.
pub proof fn lemma_try_fold_succeeds<X, S, E>(
    items: Seq<X>,
    init: S,
    step: spec_fn(S, X) -> Result<S, E>,
)
    requires
        forall|state: S, at: int| 0 <= at < items.len() ==> #[trigger] step(state, items[at]) is Ok,
    ensures
        try_fold(items, init, step) is Ok,
    decreases items.len(),
{
    if items.len() > 0 {
        let front = items.drop_last();
        assert forall|state: S, at: int| 0 <= at < front.len() implies #[trigger] step(
            state,
            front[at],
        ) is Ok by {
            assert(front[at] == items[at]);
        }
        lemma_try_fold_succeeds(front, init, step);
        assert(items.last() == items[items.len() - 1]);
    }
}

/// A table has an entry under a key exactly where the key is one of its
/// keys.
pub proof fn lemma_keys<T>(entries: Seq<(Seq<char>, T)>, key: Seq<char>)
    ensures
        keys(entries).contains(key) == has_key(entries, key),
{
    lemma_index_of(entries, key);
    if has_key(entries, key) {
        let at = index_of(entries, key)->0;
        assert(keys(entries)[at] == key);
    }
    if keys(entries).contains(key) {
        let at = choose|at: int| 0 <= at < keys(entries).len() && keys(entries)[at] == key;
        assert(entries[at].0 == key);
    }
}

/// The keys of `keys` that are not `except` and under which `other` has no
/// entry, in order.
pub open spec fn unmatched<T>(keys: Seq<Seq<char>>, other: Seq<(Seq<char>, T)>, except: Seq<char>)
    -> Seq<Seq<char>>
    decreases keys.len(),
{
    if keys.len() == 0 {
        Seq::empty()
    } else {
        let before = unmatched(keys.drop_last(), other, except);
        if keys.last() != except && !has_key(other, keys.last()) {
            before.push(keys.last())
        } else {
            before
        }
    }
}

/// `unmatched` holds exactly the keys that are not `except` and that
/// `other` lacks.
pub proof fn lemma_unmatched<T>(
    keys: Seq<Seq<char>>,
    other: Seq<(Seq<char>, T)>,
    except: Seq<char>,
)
    ensures
        forall|key: Seq<char>| #[trigger]
            unmatched(keys, other, except).contains(key) <==> keys.contains(key) && key != except
                && !has_key(other, key),
    decreases keys.len(),
{
    let all = unmatched(keys, other, except);
    if keys.len() > 0 {
        let front = keys.drop_last();
        let before = unmatched(front, other, except);
        lemma_unmatched(front, other, except);
        assert forall|key: Seq<char>| #[trigger]
            all.contains(key) <==> keys.contains(key) && key != except && !has_key(other, key) by {
            if all.contains(key) {
                let i = choose|i: int| 0 <= i < all.len() && all[i] == key;
                if i < before.len() {
                    assert(before[i] == key);
                    assert(before.contains(key));
                    let j = choose|j: int| 0 <= j < front.len() && front[j] == key;
                    assert(keys[j] == key);
                } else {
                    assert(keys[keys.len() - 1] == key);
                }
            }
            if keys.contains(key) && key != except && !has_key(other, key) {
                let j = choose|j: int| 0 <= j < keys.len() && keys[j] == key;
                if j < front.len() {
                    assert(front[j] == key);
                    assert(front.contains(key));
                    assert(before.contains(key));
                    let i = choose|i: int| 0 <= i < before.len() && before[i] == key;
                    assert(all[i] == key);
                } else {
                    assert(all[all.len() - 1] == key);
                }
            }
        }
    }
}

} // verus!

//! The mathematical model of a flat map: its entries in insertion order.

use crate::value::ValueView;
use vstd::prelude::*;

verus! {

/// The entries of a flat map, oldest key first.
pub type Entries = Seq<(u32, ValueView)>;

/// The least index at which `key` stands in `es`, if it stands there at all.
pub open spec fn index_of(es: Entries, key: u32) -> Option<int>
    decreases es.len(),
{
    if es.len() == 0 {
        None
    } else {
        match index_of(es.drop_last(), key) {
            Some(i) => Some(i),
            None => if es.last().0 == key {
                Some(es.len() - 1)
            } else {
                None
            },
        }
    }
}

/// The value stored under `key`, if any.
pub open spec fn lookup(es: Entries, key: u32) -> Option<ValueView> {
    match index_of(es, key) {
        Some(i) => Some(es[i].1),
        None => None,
    }
}

/// `es` after `value` was stored under `key`: a key already present keeps its
/// place and takes the new value; a new key goes last.
pub open spec fn inserted(es: Entries, key: u32, value: ValueView) -> Entries {
    match index_of(es, key) {
        Some(i) => es.update(i, (key, value)),
        None => es.push((key, value)),
    }
}

/// `es` after the entries of `more` were stored one by one, first to last.
pub open spec fn inserted_all(es: Entries, more: Entries) -> Entries
    decreases more.len(),
{
    if more.len() == 0 {
        es
    } else {
        inserted(inserted_all(es, more.drop_last()), more.last().0, more.last().1)
    }
}

/// No key stands at two places.
pub open spec fn keys_unique(es: Entries) -> bool {
    forall|i: int, j: int| 0 <= i < j < es.len() ==> (#[trigger] es[i]).0 != (#[trigger] es[j]).0
}

/// `index_of` finds a place that holds the key, and none where the key is
/// absent.
pub proof fn lemma_index_of(es: Entries, key: u32)
    ensures
        match index_of(es, key) {
            Some(i) => 0 <= i < es.len() && es[i].0 == key && forall|j: int|
                0 <= j < i ==> (#[trigger] es[j]).0 != key,
            None => forall|j: int| 0 <= j < es.len() ==> (#[trigger] es[j]).0 != key,
        },
    decreases es.len(),
{
    if es.len() > 0 {
        lemma_index_of(es.drop_last(), key);
        assert(forall|j: int| 0 <= j < es.len() - 1 ==> es.drop_last()[j] == es[j]);
    }
}

/// Storing one more entry is one insertion after the others.
pub proof fn lemma_inserted_all_push(es: Entries, more: Entries, key: u32, value: ValueView)
    ensures
        inserted_all(es, more.push((key, value))) == inserted(
            inserted_all(es, more),
            key,
            value,
        ),
{
    assert(more.push((key, value)).drop_last() =~= more);
}

/// An insertion keeps the keys unique.
pub proof fn lemma_inserted_unique(es: Entries, key: u32, value: ValueView)
    requires
        keys_unique(es),
    ensures
        keys_unique(inserted(es, key, value)),
{
    lemma_index_of(es, key);
}

/// A run of insertions keeps the keys unique.
pub proof fn lemma_inserted_all_unique(es: Entries, more: Entries)
    requires
        keys_unique(es),
    ensures
        keys_unique(inserted_all(es, more)),
    decreases more.len(),
{
    if more.len() > 0 {
        lemma_inserted_all_unique(es, more.drop_last());
        lemma_inserted_unique(
            inserted_all(es, more.drop_last()),
            more.last().0,
            more.last().1,
        );
    }
}

/// The value last stored under a key is the one found there.
pub proof fn lemma_lookup_inserted_same(es: Entries, key: u32, value: ValueView)
    ensures
        lookup(inserted(es, key, value), key) == Some(value),
{
    lemma_index_of(es, key);
    let after = inserted(es, key, value);
    lemma_index_of(after, key);
    match index_of(es, key) {
        Some(at) => {
            assert(after[at].0 == key);
        },
        None => {},
    }
}

/// Storing under one key leaves what is found under every other key.
pub proof fn lemma_lookup_inserted_other(es: Entries, key: u32, value: ValueView, other: u32)
    requires
        other != key,
    ensures
        lookup(inserted(es, key, value), other) == lookup(es, other),
{
    lemma_index_of(es, key);
    lemma_index_of(es, other);
    let after = inserted(es, key, value);
    lemma_index_of(after, other);
    assert forall|j: int| 0 <= j < es.len() implies (#[trigger] after[j]).0 == es[j].0 by {}
    match index_of(es, other) {
        Some(at) => {
            assert(after[at] == es[at]);
        },
        None => {},
    }
}

/// The value of the last entry of `es` under `key`, if there is one.
pub open spec fn last_value(es: Entries, key: u32) -> Option<ValueView>
    decreases es.len(),
{
    if es.len() == 0 {
        None
    } else if es.last().0 == key {
        Some(es.last().1)
    } else {
        last_value(es.drop_last(), key)
    }
}

/// After a run of insertions a key holds the value stored under it last, or
/// what it held before where the run does not name it.
pub proof fn lemma_lookup_inserted_all(es: Entries, more: Entries, key: u32)
    ensures
        lookup(inserted_all(es, more), key) == match last_value(more, key) {
            Some(v) => Some(v),
            None => lookup(es, key),
        },
    decreases more.len(),
{
    if more.len() > 0 {
        lemma_lookup_inserted_all(es, more.drop_last(), key);
        let before = inserted_all(es, more.drop_last());
        if more.last().0 == key {
            lemma_lookup_inserted_same(before, key, more.last().1);
        } else {
            lemma_lookup_inserted_other(before, more.last().0, more.last().1, key);
        }
    }
}

/// A key that was present keeps its place through a run of insertions.
pub proof fn lemma_inserted_all_keeps_places(es: Entries, more: Entries)
    ensures
        es.len() <= inserted_all(es, more).len(),
        forall|i: int| 0 <= i < es.len() ==> (#[trigger] inserted_all(es, more)[i]).0 == es[i].0,
    decreases more.len(),
{
    if more.len() > 0 {
        lemma_inserted_all_keeps_places(es, more.drop_last());
        lemma_index_of(inserted_all(es, more.drop_last()), more.last().0);
    }
}

} // verus!

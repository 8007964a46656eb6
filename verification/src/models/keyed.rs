//! Lists of values under text keys, in the order in which the keys came.
//!
//! A group holds its entries and its subgroups in such lists. A list that is
//! filled through `insert` holds each key once and so stands for a mapping;
//! what is said of the functions here holds of every list, and a key that
//! occurs twice is found where it occurs first.

use crate::models::text::same_text;
use vstd::prelude::*;

verus! {

/// Whether `i` is the first place of `items` that holds `key`.
pub open spec fn first_at<V>(items: Seq<(String, V)>, key: Seq<char>, i: int) -> bool {
    &&& 0 <= i < items.len()
    &&& items[i].0@ == key
    &&& forall|j: int| 0 <= j < i ==> (#[trigger] items[j]).0@ != key
}

/// Whether `items` holds `key`.
pub open spec fn has_key<V>(items: Seq<(String, V)>, key: Seq<char>) -> bool {
    exists|i: int| 0 <= i < items.len() && (#[trigger] items[i]).0@ == key
}

/// The first place of `items` that holds `key`, if there is one.
pub open spec fn index_of<V>(items: Seq<(String, V)>, key: Seq<char>) -> Option<int> {
    if exists|i: int| first_at(items, key, i) {
        Some(choose|i: int| first_at(items, key, i))
    } else {
        None
    }
}

/// The value that `items` holds under `key`, if it holds one.
pub open spec fn lookup<V>(items: Seq<(String, V)>, key: Seq<char>) -> Option<V> {
    match index_of(items, key) {
        Some(i) => Some(items[i].1),
        None => None,
    }
}

/// Whether no key occurs twice in `items`.
pub open spec fn distinct_keys<V>(items: Seq<(String, V)>) -> bool {
    forall|i: int, j: int|
        0 <= i < j < items.len() ==> (#[trigger] items[i]).0@ != (#[trigger] items[j]).0@
}

/// The list after `value` was put under `key`: in the place of the value
/// that was there, or at the end.
pub open spec fn put<V>(items: Seq<(String, V)>, key: String, value: V) -> Seq<(String, V)> {
    match index_of(items, key@) {
        Some(i) => items.update(i, (key, value)),
        None => items.push((key, value)),
    }
}

/// The list without what it held under `key`.
pub open spec fn without<V>(items: Seq<(String, V)>, key: Seq<char>) -> Seq<(String, V)> {
    match index_of(items, key) {
        Some(i) => items.remove(i),
        None => items,
    }
}

/// A key has one first place at most, and a first place exactly when the
/// list holds it.
pub proof fn lemma_index_of<V>(items: Seq<(String, V)>, key: Seq<char>)
    ensures
        forall|i: int| first_at(items, key, i) ==> index_of(items, key) == Some(i),
        index_of(items, key) matches Some(i) ==> first_at(items, key, i),
        index_of(items, key) is Some <==> has_key(items, key),
{
    assert forall|i: int| first_at(items, key, i) implies index_of(items, key) == Some(i) by {
        let c = choose|c: int| first_at(items, key, c);
        assert(first_at(items, key, c));
        if c < i {
            assert(items[c].0@ != key);
        }
        if i < c {
            assert(items[i].0@ != key);
        }
    }
    if has_key(items, key) {
        lemma_first_exists(items, key, items.len() as int);
    }
}

/// A key that occurs before the place `upto` has a first place.
proof fn lemma_first_exists<V>(items: Seq<(String, V)>, key: Seq<char>, upto: int)
    requires
        0 <= upto <= items.len(),
        exists|i: int| 0 <= i < upto && (#[trigger] items[i]).0@ == key,
    ensures
        exists|i: int| first_at(items, key, i),
    decreases upto,
{
    let w = choose|i: int| 0 <= i < upto && (#[trigger] items[i]).0@ == key;
    if exists|j: int| 0 <= j < w && (#[trigger] items[j]).0@ == key {
        lemma_first_exists(items, key, w);
    } else {
        assert(first_at(items, key, w));
    }
}

/// Putting a value under a key makes it the value under that key, leaves
/// the other keys as they are, and keeps the keys distinct.
pub proof fn lemma_put<V>(items: Seq<(String, V)>, key: String, value: V, other: Seq<char>)
    ensures
        lookup(put(items, key, value), key@) == Some(value),
        other != key@ ==> lookup(put(items, key, value), other) == lookup(items, other),
        distinct_keys(items) ==> distinct_keys(put(items, key, value)),
{
    let after = put(items, key, value);
    lemma_index_of(items, key@);
    lemma_index_of(items, other);
    match index_of(items, key@) {
        Some(i) => {
            assert(first_at(after, key@, i)) by {
                assert forall|j: int| 0 <= j < i implies (#[trigger] after[j]).0@ != key@ by {
                    assert(after[j] == items[j]);
                }
            }
            if other != key@ {
                match index_of(items, other) {
                    Some(k) => {
                        assert(first_at(after, other, k)) by {
                            assert forall|j: int| 0 <= j < k implies (#[trigger] after[j]).0@
                                != other by {
                                if j != i {
                                    assert(after[j] == items[j]);
                                }
                            }
                        }
                    },
                    None => {
                        assert forall|j: int| 0 <= j < after.len() implies (#[trigger] after[j]).0@
                            != other by {
                            if j != i {
                                assert(after[j] == items[j]);
                                assert(items[j].0@ != other);
                            }
                        }
                    },
                }
            }
            if distinct_keys(items) {
                assert forall|a: int, b: int| 0 <= a < b < after.len() implies (#[trigger] after[a]).0@
                    != (#[trigger] after[b]).0@ by {
                    assert(items[a].0@ != items[b].0@);
                    assert(after[a].0@ == items[a].0@);
                    assert(after[b].0@ == items[b].0@);
                }
            }
        },
        None => {
            let n = items.len() as int;
            assert(first_at(after, key@, n)) by {
                assert forall|j: int| 0 <= j < n implies (#[trigger] after[j]).0@ != key@ by {
                    assert(after[j] == items[j]);
                    assert(items[j].0@ != key@);
                }
            }
            if other != key@ {
                match index_of(items, other) {
                    Some(k) => {
                        assert(first_at(after, other, k)) by {
                            assert forall|j: int| 0 <= j < k implies (#[trigger] after[j]).0@
                                != other by {
                                assert(after[j] == items[j]);
                            }
                        }
                    },
                    None => {
                        assert forall|j: int| 0 <= j < after.len() implies (#[trigger] after[j]).0@
                            != other by {
                            if j < n {
                                assert(after[j] == items[j]);
                                assert(items[j].0@ != other);
                            }
                        }
                    },
                }
            }
            if distinct_keys(items) {
                assert forall|a: int, b: int| 0 <= a < b < after.len() implies (#[trigger] after[a]).0@
                    != (#[trigger] after[b]).0@ by {
                    if b < n {
                        assert(items[a].0@ != items[b].0@);
                    } else {
                        assert(items[a].0@ != key@);
                    }
                }
            }
        },
    }
    lemma_index_of(after, key@);
    lemma_index_of(after, other);
}

/// Of a list with distinct keys, taking a key out leaves nothing under it,
/// leaves the other keys as they are, and keeps the keys distinct.
pub proof fn lemma_without<V>(items: Seq<(String, V)>, key: Seq<char>, other: Seq<char>)
    requires
        distinct_keys(items),
    ensures
        lookup(without(items, key), key) is None,
        other != key ==> lookup(without(items, key), other) == lookup(items, other),
        distinct_keys(without(items, key)),
{
    let after = without(items, key);
    lemma_index_of(items, key);
    lemma_index_of(items, other);
    match index_of(items, key) {
        Some(i) => {
            assert forall|j: int| 0 <= j < after.len() implies (#[trigger] after[j]).0@ != key by {
                if j < i {
                    assert(after[j] == items[j]);
                } else {
                    assert(after[j] == items[j + 1]);
                    assert(items[i].0@ != items[j + 1].0@);
                }
            }
            assert forall|a: int, b: int| 0 <= a < b < after.len() implies (#[trigger] after[a]).0@
                != (#[trigger] after[b]).0@ by {
                let a0 = if a < i { a } else { a + 1 };
                let b0 = if b < i { b } else { b + 1 };
                assert(after[a] == items[a0]);
                assert(after[b] == items[b0]);
                assert(items[a0].0@ != items[b0].0@);
            }
            if other != key {
                match index_of(items, other) {
                    Some(k) => {
                        let k1 = if k < i { k } else { k - 1 };
                        assert(after[k1] == items[k]);
                        assert(first_at(after, other, k1)) by {
                            assert forall|j: int| 0 <= j < k1 implies (#[trigger] after[j]).0@
                                != other by {
                                let j0 = if j < i { j } else { j + 1 };
                                assert(after[j] == items[j0]);
                                assert(items[j0].0@ != other);
                            }
                        }
                    },
                    None => {
                        assert forall|j: int| 0 <= j < after.len() implies (#[trigger] after[j]).0@
                            != other by {
                            let j0 = if j < i { j } else { j + 1 };
                            assert(after[j] == items[j0]);
                            assert(items[j0].0@ != other);
                        }
                    },
                }
            }
        },
        None => {},
    }
    lemma_index_of(after, key);
    lemma_index_of(after, other);
}

/// Finds the first place that holds `key`.
pub fn position<V>(items: &Vec<(String, V)>, key: &str) -> (at: Option<usize>)
    ensures
        match at {
            Some(i) => index_of(items@, key@) == Some(i as int) && first_at(items@, key@, i as int),
            None => index_of(items@, key@) is None && !has_key(items@, key@),
        },
{
    let n = items.len();
    let mut i: usize = 0;
    while i < n
        invariant
            n == items@.len(),
            i <= n,
            forall|j: int| 0 <= j < i ==> (#[trigger] items@[j]).0@ != key@,
        decreases n - i,
    {
        if same_text(items[i].0.as_str(), key) {
            proof {
                assert(first_at(items@, key@, i as int));
                lemma_index_of(items@, key@);
            }
            return Some(i);
        }
        i += 1;
    }
    proof {
        lemma_index_of(items@, key@);
    }
    None
}

/// Puts `value` under `key`: in the place of the value that was there, or at
/// the end. Returns the place.
pub fn insert<V>(items: &mut Vec<(String, V)>, key: String, value: V) -> (at: usize)
    ensures
        final(items)@ == put(old(items)@, key, value),
        first_at(final(items)@, key@, at as int),
        final(items)@[at as int] == (key, value),
{
    let found = position(items, key.as_str());
    let ghost before = items@;
    let at = match found {
        Some(i) => {
            items[i] = (key, value);
            i
        },
        None => {
            let n = items.len();
            items.push((key, value));
            n
        },
    };
    proof {
        lemma_put(before, key, value, key@);
        lemma_index_of(items@, key@);
        assert(items@[at as int] == (key, value));
        assert(first_at(items@, key@, at as int)) by {
            assert forall|j: int| 0 <= j < at implies (#[trigger] items@[j]).0@ != key@ by {
                assert(items@[j] == before[j]);
            }
        }
    }
    at
}

/// Takes out what the list holds under `key`, and returns the value.
pub fn take<V>(items: &mut Vec<(String, V)>, key: &str) -> (taken: Option<V>)
    ensures
        taken == lookup(old(items)@, key@),
        final(items)@ == without(old(items)@, key@),
{
    match position(items, key) {
        Some(i) => {
            let (_, value) = items.remove(i);
            Some(value)
        },
        None => None,
    }
}

/// Whether no key occurs twice in the list.
pub fn has_distinct_keys<V>(items: &Vec<(String, V)>) -> (distinct: bool)
    ensures
        distinct == distinct_keys(items@),
{
    let n = items.len();
    let mut i: usize = 0;
    while i < n
        invariant
            n == items@.len(),
            i <= n,
            forall|a: int, b: int|
                0 <= a < b < n && a < i ==> (#[trigger] items@[a]).0@ != (#[trigger] items@[b]).0@,
        decreases n - i,
    {
        let mut j: usize = i + 1;
        while j < n
            invariant
                n == items@.len(),
                i < j <= n,
                forall|b: int| i < b < j ==> items@[i as int].0@ != (#[trigger] items@[b]).0@,
            decreases n - j,
        {
            if same_text(items[i].0.as_str(), items[j].0.as_str()) {
                assert(items@[i as int].0@ == items@[j as int].0@);
                return false;
            }
            j += 1;
        }
        i += 1;
    }
    true
}

} // verus!

//! The mathematical model of a map's contents: a sequence of entries, each a
//! key and a value, in the order in which the keys were first inserted.
//!
//! The contracts of [`crate::object::StrMap`] are stated over the functions of
//! this module, and the theorems at its end say what those contracts add up to.

use vstd::prelude::*;
use vstd::std_specs::cmp::PartialEqSpec;

verus! {

/// The index of the first entry stored under `key`, if there is one.
pub open spec fn position<V>(entries: Seq<(Seq<char>, V)>, key: Seq<char>) -> Option<int>
    decreases entries.len(),
{
    if entries.len() == 0 {
        None
    } else {
        match position(entries.drop_last(), key) {
            Some(i) => Some(i),
            None => if entries.last().0 == key {
                Some(entries.len() - 1)
            } else {
                None
            },
        }
    }
}

/// The value stored under `key`, if there is one.
pub open spec fn lookup<V>(entries: Seq<(Seq<char>, V)>, key: Seq<char>) -> Option<V> {
    match position(entries, key) {
        Some(i) => Some(entries[i].1),
        None => None,
    }
}

/// `entries` after storing `value` under `key`: an entry that already has the
/// key keeps its place and gets the new value, a new key goes to the end.
pub open spec fn upsert<V>(entries: Seq<(Seq<char>, V)>, key: Seq<char>, value: V) -> Seq<
    (Seq<char>, V),
> {
    match position(entries, key) {
        Some(i) => entries.update(i, (key, value)),
        None => entries.push((key, value)),
    }
}

/// `entries` without the entry stored under `key`; the others keep their order.
pub open spec fn without<V>(entries: Seq<(Seq<char>, V)>, key: Seq<char>) -> Seq<(Seq<char>, V)> {
    match position(entries, key) {
        Some(i) => entries.remove(i),
        None => entries,
    }
}

/// No key occurs in two entries.
pub open spec fn distinct_keys<V>(entries: Seq<(Seq<char>, V)>) -> bool {
    forall|i: int, j: int|
        0 <= i < entries.len() && 0 <= j < entries.len() && i != j ==> (#[trigger] entries[i]).0
            != (#[trigger] entries[j]).0
}

/// What `position` returns, spelled out: the index it gives holds the key and
/// is the first to do so; it gives none only when no entry holds the key.
pub proof fn lemma_position<V>(entries: Seq<(Seq<char>, V)>, key: Seq<char>)
    ensures
        match position(entries, key) {
            Some(i) => {
                &&& 0 <= i < entries.len()
                &&& entries[i].0 == key
                &&& forall|j: int| 0 <= j < i ==> (#[trigger] entries[j]).0 != key
            },
            None => forall|j: int| 0 <= j < entries.len() ==> (#[trigger] entries[j]).0 != key,
        },
    decreases entries.len(),
{
    if entries.len() > 0 {
        let front = entries.drop_last();
        lemma_position(front, key);
        assert(forall|j: int| 0 <= j < front.len() ==> front[j] == entries[j]);
    }
}

/// An index that holds the key, with no earlier one that does, is the key's position.
pub proof fn lemma_position_is<V>(entries: Seq<(Seq<char>, V)>, key: Seq<char>, i: int)
    requires
        0 <= i < entries.len(),
        entries[i].0 == key,
        forall|j: int| 0 <= j < i ==> (#[trigger] entries[j]).0 != key,
    ensures
        position(entries, key) == Some(i),
{
    lemma_position(entries, key);
}


/// When two lists of entries count as equal: they are equally long, and every
/// key of the first is a key of the second with an equal value. The order of
/// the entries plays no part.
pub open spec fn entries_eq<V: PartialEq>(
    a: Seq<(Seq<char>, V)>,
    b: Seq<(Seq<char>, V)>,
) -> bool {
    &&& a.len() == b.len()
    &&& forall|i: int|
        0 <= i < a.len() ==> match lookup(b, (#[trigger] a[i]).0) {
            Some(v) => v.eq_spec(&a[i].1),
            None => false,
        }
}

/// `position` looks at keys only.
pub proof fn lemma_position_same_keys<V, W>(
    a: Seq<(Seq<char>, V)>,
    b: Seq<(Seq<char>, W)>,
    key: Seq<char>,
)
    requires
        a.len() == b.len(),
        forall|i: int| 0 <= i < a.len() ==> (#[trigger] a[i]).0 == b[i].0,
    ensures
        position(a, key) == position(b, key),
{
    lemma_position(a, key);
    lemma_position(b, key);
    match position(a, key) {
        Some(i) => {
            assert(b[i].0 == key);
            assert forall|j: int| 0 <= j < i implies (#[trigger] b[j]).0 != key by {
                assert(a[j].0 != key);
            }
            lemma_position_is(b, key, i);
        },
        None => {
            if position(b, key) is Some {
                let j = position(b, key).unwrap();
                assert(a[j].0 == key);
            }
        },
    }
}

/// Storing a value keeps every key where it is: a key that was present keeps
/// its index and only its value changes, a new key is appended behind all
/// others, and the values of all other keys stay as they were.
pub proof fn theorem_insert_keeps_order<V>(entries: Seq<(Seq<char>, V)>, key: Seq<char>, value: V)
    requires
        distinct_keys(entries),
    ensures
        distinct_keys(upsert(entries, key, value)),
        forall|i: int|
            0 <= i < entries.len() ==> (#[trigger] upsert(entries, key, value)[i]).0
                == entries[i].0,
        lookup(upsert(entries, key, value), key) == Some(value),
        forall|other: Seq<char>|
            other != key ==> #[trigger] lookup(upsert(entries, key, value), other) == lookup(
                entries,
                other,
            ),
        match position(entries, key) {
            Some(i) => {
                &&& upsert(entries, key, value).len() == entries.len()
                &&& position(upsert(entries, key, value), key) == Some(i)
            },
            None => upsert(entries, key, value) == entries.push((key, value)),
        },
{
    let after = upsert(entries, key, value);
    lemma_position(entries, key);
    match position(entries, key) {
        Some(i) => {
            lemma_position_same_keys(entries, after, key);
            assert forall|other: Seq<char>| other != key implies #[trigger] lookup(after, other)
                == lookup(entries, other) by {
                lemma_position_same_keys(entries, after, other);
                lemma_position(entries, other);
            }
            assert forall|a: int, b: int|
                0 <= a < after.len() && 0 <= b < after.len() && a != b implies (#[trigger] after[a]).0
                != (#[trigger] after[b]).0 by {
                assert(after[a].0 == entries[a].0);
                assert(after[b].0 == entries[b].0);
            }
        },
        None => {
            assert(after.drop_last() =~= entries);
            assert forall|other: Seq<char>| other != key implies #[trigger] lookup(after, other)
                == lookup(entries, other) by {
                lemma_position(entries, other);
            }
            assert forall|a: int, b: int|
                0 <= a < after.len() && 0 <= b < after.len() && a != b implies (#[trigger] after[a]).0
                != (#[trigger] after[b]).0 by {
                if a < entries.len() {
                    assert(after[a] == entries[a]);
                }
                if b < entries.len() {
                    assert(after[b] == entries[b]);
                }
            }
        },
    }
}

/// The entries after the inserts `ops`, made one after the other on `entries`.
pub open spec fn insert_all<V>(entries: Seq<(Seq<char>, V)>, ops: Seq<(Seq<char>, V)>) -> Seq<
    (Seq<char>, V),
>
    decreases ops.len(),
{
    if ops.len() == 0 {
        entries
    } else {
        upsert(insert_all(entries, ops.drop_last()), ops.last().0, ops.last().1)
    }
}

/// The value of the last insert in `ops` that was made under `key`.
pub open spec fn latest<V>(ops: Seq<(Seq<char>, V)>, key: Seq<char>) -> Option<V>
    decreases ops.len(),
{
    if ops.len() == 0 {
        None
    } else if ops.last().0 == key {
        Some(ops.last().1)
    } else {
        latest(ops.drop_last(), key)
    }
}

/// `entries` shows the inserts `ops` in the order of insertion: no key twice,
/// every key at the place that its first insert earned it, and every key with
/// the value of its last insert.
pub open spec fn in_insertion_order<V>(entries: Seq<(Seq<char>, V)>, ops: Seq<(Seq<char>, V)>) -> bool {
    &&& distinct_keys(entries)
    &&& forall|i: int| 0 <= i < entries.len() ==> position(ops, (#[trigger] entries[i]).0) is Some
    &&& forall|i: int, j: int|
        0 <= i < j < entries.len() ==> position(ops, (#[trigger] entries[i]).0).unwrap()
            < position(ops, (#[trigger] entries[j]).0).unwrap()
    &&& forall|key: Seq<char>| #[trigger] lookup(entries, key) == latest(ops, key)
}

/// A key has a latest insert exactly if it has a first one.
pub proof fn lemma_latest_position<V>(ops: Seq<(Seq<char>, V)>, key: Seq<char>)
    ensures
        latest(ops, key) is Some <==> position(ops, key) is Some,
    decreases ops.len(),
{
    if ops.len() > 0 {
        lemma_latest_position(ops.drop_last(), key);
    }
}

/// Whatever the inserts and whatever the hashes of their keys: a map that
/// starts empty holds the keys in the order in which each was first inserted,
/// and under each key the value that was inserted last.
pub proof fn theorem_insertion_order<V>(ops: Seq<(Seq<char>, V)>)
    ensures
        in_insertion_order(insert_all(Seq::empty(), ops), ops),
    decreases ops.len(),
{
    let entries = insert_all(Seq::<(Seq<char>, V)>::empty(), ops);
    if ops.len() == 0 {
        assert forall|key: Seq<char>| #[trigger] lookup(entries, key) == latest(ops, key) by {}
    } else {
        let before = ops.drop_last();
        let prev = insert_all(Seq::<(Seq<char>, V)>::empty(), before);
        let key = ops.last().0;
        let value = ops.last().1;
        theorem_insertion_order(before);
        theorem_insert_keeps_order(prev, key, value);
        lemma_position(prev, key);
        lemma_latest_position(before, key);
        assert(lookup(prev, key) == latest(before, key));
        assert forall|i: int| 0 <= i < entries.len() implies position(
            ops,
            (#[trigger] entries[i]).0,
        ) is Some by {
            if i < prev.len() {
                assert(entries[i].0 == prev[i].0);
                assert(position(before, prev[i].0) is Some);
            }
        }
        assert forall|i: int, j: int| 0 <= i < j < entries.len() implies position(
            ops,
            (#[trigger] entries[i]).0,
        ).unwrap() < position(ops, (#[trigger] entries[j]).0).unwrap() by {
            assert(entries[i].0 == prev[i].0);
            assert(position(before, prev[i].0) is Some);
            lemma_position(before, prev[i].0);
            if j < prev.len() {
                assert(entries[j].0 == prev[j].0);
                assert(position(before, prev[j].0) is Some);
            } else {
                assert(position(before, key) is None);
            }
        }
        assert forall|other: Seq<char>| #[trigger] lookup(entries, other) == latest(ops, other) by {
            if other != key {
                assert(lookup(entries, other) == lookup(prev, other));
                assert(lookup(prev, other) == latest(before, other));
            }
        }
    }
}

/// Removing a key leaves a map without it that is one entry shorter, in which
/// the other entries follow each other as before. Removing a key that is not
/// there changes nothing.
pub proof fn theorem_remove<V>(entries: Seq<(Seq<char>, V)>, key: Seq<char>)
    requires
        distinct_keys(entries),
    ensures
        lookup(without(entries, key), key) is None,
        distinct_keys(without(entries, key)),
        match position(entries, key) {
            Some(i) => {
                &&& without(entries, key).len() == entries.len() - 1
                &&& forall|j: int| 0 <= j < i ==> #[trigger] without(entries, key)[j] == entries[j]
                &&& forall|j: int|
                    i <= j < entries.len() - 1 ==> #[trigger] without(entries, key)[j] == entries[j
                        + 1]
            },
            None => without(entries, key) == entries,
        },
        forall|other: Seq<char>|
            other != key ==> #[trigger] lookup(without(entries, key), other) == lookup(
                entries,
                other,
            ),
{
    let after = without(entries, key);
    lemma_position(entries, key);
    lemma_position(after, key);
    match position(entries, key) {
        Some(i) => {
            assert forall|a: int, b: int|
                0 <= a < after.len() && 0 <= b < after.len() && a != b implies (#[trigger] after[a]).0
                != (#[trigger] after[b]).0 by {
                let a0 = if a < i { a } else { a + 1 };
                let b0 = if b < i { b } else { b + 1 };
                assert(after[a] == entries[a0]);
                assert(after[b] == entries[b0]);
            }
            if position(after, key) is Some {
                let j = position(after, key).unwrap();
                let j0 = if j < i { j } else { j + 1 };
                assert(after[j] == entries[j0]);
            }
            assert forall|other: Seq<char>| other != key implies #[trigger] lookup(after, other)
                == lookup(entries, other) by {
                lemma_position(entries, other);
                lemma_position(after, other);
                match position(entries, other) {
                    Some(p) => {
                        let q = if p < i { p } else { p - 1 };
                        assert(after[q] == entries[p]);
                        assert forall|j: int| 0 <= j < q implies (#[trigger] after[j]).0
                            != other by {
                            let j0 = if j < i { j } else { j + 1 };
                            assert(after[j] == entries[j0]);
                        }
                        lemma_position_is(after, other, q);
                    },
                    None => {
                        if position(after, other) is Some {
                            let j = position(after, other).unwrap();
                            let j0 = if j < i { j } else { j + 1 };
                            assert(after[j] == entries[j0]);
                        }
                    },
                }
            }
        },
        None => {},
    }
}

/// Equality does not look at the order: two lists of distinct keys that hold
/// the same entries, arranged differently, are equal, provided that every
/// value equals itself.
pub proof fn theorem_eq_ignores_order<V: PartialEq>(
    a: Seq<(Seq<char>, V)>,
    b: Seq<(Seq<char>, V)>,
)
    requires
        distinct_keys(a),
        distinct_keys(b),
        a.to_multiset() == b.to_multiset(),
        forall|i: int| 0 <= i < a.len() ==> (#[trigger] a[i]).1.eq_spec(&a[i].1),
    ensures
        entries_eq(a, b),
{
    a.to_multiset_ensures();
    b.to_multiset_ensures();
    assert forall|i: int| 0 <= i < a.len() implies match lookup(b, (#[trigger] a[i]).0) {
        Some(v) => v.eq_spec(&a[i].1),
        None => false,
    } by {
        assert(a.contains(a[i]));
        assert(a.to_multiset().count(a[i]) > 0);
        assert(b.contains(a[i]));
        let j = choose|j: int| 0 <= j < b.len() && b[j] == a[i];
        lemma_position(b, a[i].0);
    }
}

} // verus!

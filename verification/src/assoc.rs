//! Association sequences: keyed entries that keep the order in which their
//! keys first came.

use vstd::prelude::*;

verus! {

/// The position of the first entry of `keys` that equals `key`; the length of
/// `keys` if there is none.
pub open spec fn position(keys: Seq<Seq<char>>, key: Seq<char>) -> int
    decreases keys.len(),
{
    if keys.len() == 0 {
        0
    } else if keys[0] == key {
        0
    } else {
        1 + position(keys.drop_first(), key)
    }
}

/// Whether `key` occurs among `keys`.
pub open spec fn has_key(keys: Seq<Seq<char>>, key: Seq<char>) -> bool {
    position(keys, key) < keys.len()
}

/// Whether no key occurs twice.
pub open spec fn distinct(keys: Seq<Seq<char>>) -> bool {
    forall|i: int, j: int| 0 <= i < j < keys.len() ==> keys[i] != keys[j]
}

/// The keys of the entries, in order.
pub open spec fn keys_of<V>(entries: Seq<(Seq<char>, V)>) -> Seq<Seq<char>> {
    Seq::new(entries.len(), |i: int| entries[i].0)
}

/// The value stored under `key`, if any.
pub open spec fn lookup<V>(entries: Seq<(Seq<char>, V)>, key: Seq<char>) -> Option<V> {
    let p = position(keys_of(entries), key);
    if p < entries.len() {
        Some(entries[p].1)
    } else {
        None
    }
}

/// The entries with `value` stored under `key`: in the slot that `key`
/// already has, or else in a new slot at the end.
pub open spec fn put<V>(entries: Seq<(Seq<char>, V)>, key: Seq<char>, value: V) -> Seq<
    (Seq<char>, V),
> {
    let p = position(keys_of(entries), key);
    if p < entries.len() {
        entries.update(p, (key, value))
    } else {
        entries.push((key, value))
    }
}

/// The groups with `item` added at the end of the group of `key`; a key
/// without a group gets a new one at the end.
pub open spec fn put_in_group<V>(
    groups: Seq<(Seq<char>, Seq<V>)>,
    key: Seq<char>,
    item: V,
) -> Seq<(Seq<char>, Seq<V>)> {
    let p = position(keys_of(groups), key);
    if p < groups.len() {
        groups.update(p, (key, groups[p].1.push(item)))
    } else {
        groups.push((key, seq![item]))
    }
}

/// The items grouped under `key`, in the order in which they were added;
/// none if the key has no group.
pub open spec fn group_of<V>(groups: Seq<(Seq<char>, Seq<V>)>, key: Seq<char>) -> Seq<V> {
    match lookup(groups, key) {
        Some(items) => items,
        None => Seq::empty(),
    }
}

/// `position` finds the first occurrence, and nothing before it.
pub proof fn lemma_position(keys: Seq<Seq<char>>, key: Seq<char>)
    ensures
        0 <= position(keys, key) <= keys.len(),
        position(keys, key) < keys.len() ==> keys[position(keys, key)] == key,
        forall|i: int| 0 <= i < position(keys, key) ==> keys[i] != key,
    decreases keys.len(),
{
    if keys.len() > 0 && keys[0] != key {
        let rest = keys.drop_first();
        lemma_position(rest, key);
        assert forall|i: int| 0 <= i < position(keys, key) implies keys[i] != key by {
            if i > 0 {
                assert(keys[i] == rest[i - 1]);
            }
        }
    }
}

/// An index that holds `key`, with no earlier one that does, is its position.
pub proof fn lemma_position_is(keys: Seq<Seq<char>>, key: Seq<char>, p: int)
    requires
        0 <= p <= keys.len(),
        p < keys.len() ==> keys[p] == key,
        forall|i: int| 0 <= i < p ==> keys[i] != key,
    ensures
        position(keys, key) == p,
{
    lemma_position(keys, key);
}

/// Among distinct keys each key stands at its own position.
pub proof fn lemma_position_distinct(keys: Seq<Seq<char>>, i: int)
    requires
        distinct(keys),
        0 <= i < keys.len(),
    ensures
        position(keys, keys[i]) == i,
{
    lemma_position(keys, keys[i]);
}

/// A key occurs among the keys exactly if some entry equals it.
pub proof fn lemma_has_key(keys: Seq<Seq<char>>, key: Seq<char>)
    ensures
        has_key(keys, key) <==> exists|i: int| 0 <= i < keys.len() && keys[i] == key,
{
    lemma_position(keys, key);
}

/// Storing under a key keeps the order of the keys: a key that is there
/// keeps its slot, a new key comes last.
pub proof fn lemma_put_keys<V>(entries: Seq<(Seq<char>, V)>, key: Seq<char>, value: V)
    ensures
        keys_of(put(entries, key, value)) == if has_key(keys_of(entries), key) {
            keys_of(entries)
        } else {
            keys_of(entries).push(key)
        },
{
    lemma_position(keys_of(entries), key);
    assert(keys_of(put(entries, key, value)) =~= if has_key(keys_of(entries), key) {
        keys_of(entries)
    } else {
        keys_of(entries).push(key)
    });
}

/// Adding to a group keeps the order of the keys likewise.
pub proof fn lemma_put_in_group_keys<V>(groups: Seq<(Seq<char>, Seq<V>)>, key: Seq<char>, item: V)
    ensures
        keys_of(put_in_group(groups, key, item)) == if has_key(keys_of(groups), key) {
            keys_of(groups)
        } else {
            keys_of(groups).push(key)
        },
{
    lemma_position(keys_of(groups), key);
    assert(keys_of(put_in_group(groups, key, item)) =~= if has_key(keys_of(groups), key) {
        keys_of(groups)
    } else {
        keys_of(groups).push(key)
    });
}

/// A new key at the end keeps the keys distinct, and is then the only key
/// that was not there before.
pub proof fn lemma_push_key(keys: Seq<Seq<char>>, key: Seq<char>)
    requires
        !has_key(keys, key),
    ensures
        distinct(keys) ==> distinct(keys.push(key)),
        forall|other: Seq<char>|
            has_key(keys.push(key), other) <==> other == key || has_key(keys, other),
{
    lemma_has_key(keys, key);
    let pushed = keys.push(key);
    assert forall|other: Seq<char>|
        has_key(pushed, other) <==> other == key || has_key(keys, other) by {
        lemma_has_key(pushed, other);
        lemma_has_key(keys, other);
        if has_key(keys, other) {
            let i = choose|i: int| 0 <= i < keys.len() && keys[i] == other;
            assert(pushed[i] == other);
        }
        if other == key {
            assert(pushed[keys.len() as int] == other);
        }
        if has_key(pushed, other) {
            let i = choose|i: int| 0 <= i < pushed.len() && pushed[i] == other;
            if i < keys.len() {
                assert(keys[i] == other);
            }
        }
    }
    if distinct(keys) {
        assert forall|i: int, j: int| 0 <= i < j < pushed.len() implies pushed[i] != pushed[j] by {
            if j == keys.len() {
                assert(keys[i] == pushed[i]);
            } else {
                assert(keys[i] == pushed[i] && keys[j] == pushed[j]);
            }
        }
    }
}

/// What is stored under a key is found there, and storing under one key
/// leaves what is under the others.
pub proof fn lemma_put_lookup<V>(
    entries: Seq<(Seq<char>, V)>,
    key: Seq<char>,
    value: V,
    other: Seq<char>,
)
    ensures
        lookup(put(entries, key, value), other) == if other == key {
            Some(value)
        } else {
            lookup(entries, other)
        },
{
    let keys = keys_of(entries);
    let after = put(entries, key, value);
    lemma_put_keys(entries, key, value);
    lemma_position(keys, key);
    lemma_position(keys, other);
    if has_key(keys, key) {
        assert(keys_of(after) == keys);
    } else {
        let pushed = keys.push(key);
        assert forall|i: int| 0 <= i < position(keys, other) implies pushed[i] != other by {
            assert(pushed[i] == keys[i]);
        }
        if other == key {
            lemma_position_is(pushed, other, keys.len() as int);
        } else if has_key(keys, other) {
            lemma_position_is(pushed, other, position(keys, other));
        } else {
            lemma_position_is(pushed, other, pushed.len() as int);
        }
    }
}

/// An item added under a key comes last in the group of that key, and the
/// other groups stay as they are.
pub proof fn lemma_put_in_group_lookup<V>(
    groups: Seq<(Seq<char>, Seq<V>)>,
    key: Seq<char>,
    item: V,
    other: Seq<char>,
)
    ensures
        group_of(put_in_group(groups, key, item), other) == if other == key {
            group_of(groups, key).push(item)
        } else {
            group_of(groups, other)
        },
{
    let keys = keys_of(groups);
    let after = put_in_group(groups, key, item);
    lemma_put_in_group_keys(groups, key, item);
    lemma_position(keys, key);
    lemma_position(keys, other);
    if has_key(keys, key) {
        assert(keys_of(after) == keys);
    } else {
        let pushed = keys.push(key);
        assert forall|i: int| 0 <= i < position(keys, other) implies pushed[i] != other by {
            assert(pushed[i] == keys[i]);
        }
        if other == key {
            lemma_position_is(pushed, other, keys.len() as int);
            assert(group_of(groups, key).push(item) =~= seq![item]);
        } else if has_key(keys, other) {
            lemma_position_is(pushed, other, position(keys, other));
        } else {
            lemma_position_is(pushed, other, pushed.len() as int);
        }
    }
}

/// In two runs of keys put end to end, a key is found in the first run if it
/// occurs there, and else where it stands in the second.
pub proof fn lemma_position_concat(first: Seq<Seq<char>>, second: Seq<Seq<char>>, key: Seq<char>)
    ensures
        position(first + second, key) == if has_key(first, key) {
            position(first, key)
        } else {
            first.len() + position(second, key)
        },
{
    let both = first + second;
    lemma_position(first, key);
    lemma_position(second, key);
    if has_key(first, key) {
        let p = position(first, key);
        assert(both[p] == first[p]);
        assert forall|i: int| 0 <= i < p implies both[i] != key by {
            assert(both[i] == first[i]);
        }
        lemma_position_is(both, key, p);
    } else {
        let p = first.len() + position(second, key);
        assert forall|i: int| 0 <= i < p implies both[i] != key by {
            if i < first.len() {
                assert(both[i] == first[i]);
            } else {
                assert(both[i] == second[i - first.len()]);
            }
        }
        if p < both.len() {
            assert(both[p] == second[p - first.len()]);
        }
        lemma_position_is(both, key, p);
    }
}

/// The keys of entries put end to end are their keys put end to end.
pub proof fn lemma_keys_concat<V>(first: Seq<(Seq<char>, V)>, second: Seq<(Seq<char>, V)>)
    ensures
        keys_of(first + second) == keys_of(first) + keys_of(second),
{
    assert(keys_of(first + second) =~= keys_of(first) + keys_of(second));
}

/// What is looked up in entries put end to end is found in the first run if
/// the key occurs there, and else in the second.
pub proof fn lemma_lookup_concat<V>(
    first: Seq<(Seq<char>, V)>,
    second: Seq<(Seq<char>, V)>,
    key: Seq<char>,
)
    ensures
        lookup(first + second, key) == if has_key(keys_of(first), key) {
            lookup(first, key)
        } else {
            lookup(second, key)
        },
{
    lemma_keys_concat(first, second);
    lemma_position_concat(keys_of(first), keys_of(second), key);
    lemma_position(keys_of(first), key);
    lemma_position(keys_of(second), key);
}

/// Finds the first of `keys` that equals `key`.
pub fn find_key(keys: &Vec<String>, key: &String) -> (found: Option<usize>)
    ensures
        match found {
            Some(p) => p < keys.len() && p == position(key_views(keys@), key@),
            None => position(key_views(keys@), key@) == keys.len(),
        },
{
    let mut i: usize = 0;
    while i < keys.len()
        invariant
            i <= keys.len(),
            forall|j: int| 0 <= j < i ==> key_views(keys@)[j] != key@,
        decreases keys.len() - i,
    {
        if keys[i] == *key {
            proof {
                lemma_position_is(key_views(keys@), key@, i as int);
            }
            return Some(i);
        }
        i = i + 1;
    }
    proof {
        lemma_position_is(key_views(keys@), key@, i as int);
    }
    None
}

/// The texts of the keys.
pub open spec fn key_views(keys: Seq<String>) -> Seq<Seq<char>> {
    Seq::new(keys.len(), |i: int| keys[i]@)
}

} // verus!

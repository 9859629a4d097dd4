//! Keyed stores for the pallets: association lists from `String` keys to
//! values, abstracted as finite maps keyed by the keys' character sequences.

use vstd::prelude::*;

verus! {

/// The finite map that an association list denotes. Later entries shadow
/// earlier ones, though every store in this crate keeps its keys distinct.
pub open spec fn map_of<V: View>(entries: Seq<(String, V)>) -> Map<Seq<char>, V::V>
    decreases entries.len(),
{
    if entries.len() == 0 {
        Map::empty()
    } else {
        map_of(entries.drop_last()).insert(entries.last().0@, entries.last().1@)
    }
}

/// No two entries of the list hold the same key.
pub open spec fn keys_distinct<V>(entries: Seq<(String, V)>) -> bool {
    forall|i: int, j: int| 0 <= i < j < entries.len() ==> entries[i].0@ != entries[j].0@
}

proof fn lemma_keys_distinct_drop_last<V>(entries: Seq<(String, V)>)
    requires
        keys_distinct(entries),
        entries.len() > 0,
    ensures
        keys_distinct(entries.drop_last()),
{
    assert forall|i: int, j: int|
        0 <= i < j < entries.drop_last().len() implies entries.drop_last()[i].0@
        != entries.drop_last()[j].0@ by {
        assert(entries[i].0@ != entries[j].0@);
    }
}

/// The entry at index `i` is what the denoted map stores for its key.
proof fn lemma_map_of_entry<V: View>(entries: Seq<(String, V)>, i: int)
    requires
        keys_distinct(entries),
        0 <= i < entries.len(),
    ensures
        map_of(entries).contains_key(entries[i].0@),
        map_of(entries)[entries[i].0@] == entries[i].1@,
    decreases entries.len(),
{
    if i < entries.len() - 1 {
        lemma_keys_distinct_drop_last(entries);
        lemma_map_of_entry(entries.drop_last(), i);
        assert(entries[i].0@ != entries[entries.len() - 1].0@);
    }
}

/// A key that no entry holds is absent from the denoted map.
proof fn lemma_map_of_absent<V: View>(entries: Seq<(String, V)>, key: Seq<char>)
    requires
        forall|i: int| 0 <= i < entries.len() ==> entries[i].0@ != key,
    ensures
        !map_of(entries).contains_key(key),
    decreases entries.len(),
{
    if entries.len() > 0 {
        lemma_map_of_absent(entries.drop_last(), key);
    }
}

/// Removing the entry at index `i` removes exactly its key from the map.
proof fn lemma_map_of_remove<V: View>(entries: Seq<(String, V)>, i: int)
    requires
        keys_distinct(entries),
        0 <= i < entries.len(),
    ensures
        keys_distinct(entries.remove(i)),
        map_of(entries.remove(i)) == map_of(entries).remove(entries[i].0@),
    decreases entries.len(),
{
    let key = entries[i].0@;
    assert forall|p: int, q: int|
        0 <= p < q < entries.remove(i).len() implies entries.remove(i)[p].0@
        != entries.remove(i)[q].0@ by {
        let p0 = if p < i { p } else { p + 1 };
        let q0 = if q < i { q } else { q + 1 };
        assert(entries[p0].0@ != entries[q0].0@);
    }
    if i == entries.len() - 1 {
        assert(entries.remove(i) =~= entries.drop_last());
        assert forall|j: int| 0 <= j < entries.drop_last().len() implies entries.drop_last()[j].0@
            != key by {
            assert(entries[j].0@ != entries[entries.len() - 1].0@);
        }
        lemma_map_of_absent(entries.drop_last(), key);
        assert(map_of(entries.drop_last()) =~= map_of(entries).remove(key));
    } else {
        lemma_keys_distinct_drop_last(entries);
        lemma_map_of_remove(entries.drop_last(), i);
        assert(entries.remove(i).drop_last() =~= entries.drop_last().remove(i));
        assert(entries.remove(i).last() == entries.last());
        assert(entries.last().0@ != key);
        assert(map_of(entries.remove(i)) == map_of(entries.drop_last()).remove(key).insert(
            entries.last().0@,
            entries.last().1@,
        ));
        assert(map_of(entries.drop_last()).remove(key).insert(entries.last().0@, entries.last().1@)
            =~= map_of(entries).remove(key));
    }
}

/// Appending an entry denotes inserting its key.
proof fn lemma_map_of_push<V: View>(entries: Seq<(String, V)>, key: String, value: V)
    ensures
        map_of(entries.push((key, value))) == map_of(entries).insert(key@, value@),
{
    assert(entries.push((key, value)).drop_last() =~= entries);
}

/// Find the value stored for `key`, if any.
pub fn lookup<'a, V: View>(entries: &'a Vec<(String, V)>, key: &String) -> (result: Option<&'a V>)
    requires
        keys_distinct(entries@),
    ensures
        match result {
            Some(value) => map_of(entries@).contains_key(key@) && value@ == map_of(entries@)[key@],
            None => !map_of(entries@).contains_key(key@),
        },
{
    let n = entries.len();
    let mut i: usize = 0;
    while i < n
        invariant
            n == entries@.len(),
            0 <= i <= n,
            keys_distinct(entries@),
            forall|j: int| 0 <= j < i ==> entries@[j].0@ != key@,
        decreases n - i,
    {
        if entries[i].0.eq(key) {
            proof {
                lemma_map_of_entry(entries@, i as int);
            }
            return Some(&entries[i].1);
        }
        i = i + 1;
    }
    proof {
        lemma_map_of_absent(entries@, key@);
    }
    None
}

/// Insert, or overwrite, the value stored for `key`.
pub fn upsert<V: View>(entries: &mut Vec<(String, V)>, key: String, value: V)
    requires
        keys_distinct(old(entries)@),
    ensures
        keys_distinct(final(entries)@),
        map_of(final(entries)@) == map_of(old(entries)@).insert(key@, value@),
{
    let n = entries.len();
    let mut i: usize = 0;
    while i < n
        invariant
            n == entries@.len(),
            0 <= i <= n,
            entries@ == old(entries)@,
            keys_distinct(entries@),
            forall|j: int| 0 <= j < i ==> entries@[j].0@ != key@,
        decreases n - i,
    {
        if entries[i].0.eq(&key) {
            proof {
                lemma_map_of_remove(entries@, i as int);
            }
            let ghost removed = entries@.remove(i as int);
            entries.remove(i);
            proof {
                lemma_map_of_push(removed, key, value);
            }
            entries.push((key, value));
            proof {
                assert forall|p: int, q: int|
                    0 <= p < q < entries@.len() implies entries@[p].0@ != entries@[q].0@ by {
                    if q == entries@.len() - 1 {
                        let p0 = if p < i { p } else { p + 1 };
                        assert(old(entries)@[p0].0@ != old(entries)@[i as int].0@);
                    }
                }
                assert(map_of(entries@) =~= map_of(old(entries)@).insert(key@, value@));
            }
            return;
        }
        i = i + 1;
    }
    proof {
        lemma_map_of_push(entries@, key, value);
        lemma_map_of_absent(entries@, key@);
        assert(map_of(old(entries)@).remove(key@) =~= map_of(old(entries)@));
    }
    entries.push((key, value));
}

/// Remove the entry stored for `key`, if any.
pub fn delete<V: View>(entries: &mut Vec<(String, V)>, key: &String)
    requires
        keys_distinct(old(entries)@),
    ensures
        keys_distinct(final(entries)@),
        map_of(final(entries)@) == map_of(old(entries)@).remove(key@),
{
    let n = entries.len();
    let mut i: usize = 0;
    while i < n
        invariant
            n == entries@.len(),
            0 <= i <= n,
            entries@ == old(entries)@,
            keys_distinct(entries@),
            forall|j: int| 0 <= j < i ==> entries@[j].0@ != key@,
        decreases n - i,
    {
        if entries[i].0.eq(key) {
            proof {
                lemma_map_of_remove(entries@, i as int);
            }
            entries.remove(i);
            return;
        }
        i = i + 1;
    }
    proof {
        lemma_map_of_absent(entries@, key@);
        assert(map_of(entries@) =~= map_of(entries@).remove(key@));
    }
}

} // verus!

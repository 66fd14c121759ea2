use vstd::prelude::*;

verus! {

/// A record that is kept under a key of its own.
pub trait Keyed {
    type Key;

    /// The key under which the record is kept.
    spec fn key(&self) -> Self::Key;
}

/// Whether one of `entries` is kept under `key`.
pub open spec fn has_key<T: Keyed>(entries: Seq<T>, key: T::Key) -> bool {
    exists|i: int| 0 <= i < entries.len() && (#[trigger] entries[i]).key() == key
}

/// Where in `entries` the record under `key` is kept.
pub open spec fn index_of<T: Keyed>(entries: Seq<T>, key: T::Key) -> int {
    choose|i: int| 0 <= i < entries.len() && (#[trigger] entries[i]).key() == key
}

/// No two of `entries` are kept under one key.
pub open spec fn distinct_keys<T: Keyed>(entries: Seq<T>) -> bool {
    forall|i: int, j: int|
        0 <= i < j < entries.len() ==> (#[trigger] entries[i]).key() != (#[trigger] entries[j]).key()
}

/// The records of `entries`, each under its key.
pub open spec fn as_map<T: Keyed>(entries: Seq<T>) -> Map<T::Key, T> {
    Map::new(|key: T::Key| has_key(entries, key), |key: T::Key| entries[index_of(entries, key)])
}

/// Among distinct keys a record is found where it is kept.
pub proof fn lemma_lookup<T: Keyed>(entries: Seq<T>, i: int)
    requires
        distinct_keys(entries),
        0 <= i < entries.len(),
    ensures
        has_key(entries, entries[i].key()),
        index_of(entries, entries[i].key()) == i,
        as_map(entries).dom().contains(entries[i].key()),
        as_map(entries)[entries[i].key()] == entries[i],
{
    let j = index_of(entries, entries[i].key());
    if j < i {
        assert(entries[j].key() != entries[i].key());
    } else if i < j {
        assert(entries[i].key() != entries[j].key());
    }
}

/// A record appended under a key that was not in use is kept under it, and
/// the others stay where they were.
pub proof fn lemma_push<T: Keyed>(entries: Seq<T>, entry: T)
    requires
        distinct_keys(entries),
        !has_key(entries, entry.key()),
    ensures
        distinct_keys(entries.push(entry)),
        as_map(entries.push(entry)) == as_map(entries).insert(entry.key(), entry),
{
    let after = entries.push(entry);
    assert forall|i: int, j: int| 0 <= i < j < after.len() implies (#[trigger] after[i]).key() != (
    #[trigger] after[j]).key() by {
        if j == entries.len() {
            assert(entries[i].key() != entry.key());
        } else {
            assert(entries[i].key() != entries[j].key());
        }
    }
    assert forall|key: T::Key| has_key(after, key) <==> (has_key(entries, key) || key
        == entry.key()) by {
        if has_key(after, key) {
            let i = index_of(after, key);
            if i < entries.len() {
                assert(entries[i].key() == key);
            }
        }
        if has_key(entries, key) {
            let i = index_of(entries, key);
            assert(after[i].key() == key);
        }
        if key == entry.key() {
            assert(after[entries.len() as int].key() == key);
        }
    }
    assert forall|key: T::Key| has_key(after, key) implies #[trigger] as_map(after)[key] == as_map(
        entries,
    ).insert(entry.key(), entry)[key] by {
        if key == entry.key() {
            lemma_lookup(after, entries.len() as int);
        } else {
            let i = index_of(entries, key);
            assert(after[i].key() == key);
            lemma_lookup(after, i);
        }
    }
    assert(as_map(after) =~= as_map(entries).insert(entry.key(), entry));
}

/// A record replaced by one of the same key is kept under that key, and the
/// others stay where they were.
pub proof fn lemma_update<T: Keyed>(entries: Seq<T>, i: int, entry: T)
    requires
        distinct_keys(entries),
        0 <= i < entries.len(),
        entry.key() == entries[i].key(),
    ensures
        distinct_keys(entries.update(i, entry)),
        as_map(entries.update(i, entry)) == as_map(entries).insert(entry.key(), entry),
{
    let after = entries.update(i, entry);
    assert forall|j: int| 0 <= j < after.len() implies (#[trigger] after[j]).key()
        == entries[j].key() by {}
    assert forall|j: int, k: int| 0 <= j < k < after.len() implies (#[trigger] after[j]).key() != (
    #[trigger] after[k]).key() by {
        assert(entries[j].key() != entries[k].key());
    }
    assert forall|key: T::Key| has_key(after, key) <==> has_key(entries, key) by {
        if has_key(after, key) {
            let j = index_of(after, key);
            assert(entries[j].key() == key);
        }
        if has_key(entries, key) {
            let j = index_of(entries, key);
            assert(after[j].key() == key);
        }
    }
    lemma_lookup(entries, i);
    assert forall|key: T::Key| has_key(after, key) implies #[trigger] as_map(after)[key] == as_map(
        entries,
    ).insert(entry.key(), entry)[key] by {
        let j = index_of(entries, key);
        assert(after[j].key() == key);
        lemma_lookup(after, j);
    }
    assert(as_map(after) =~= as_map(entries).insert(entry.key(), entry));
}

} // verus!

//! The generic key/value storage capability and an in-memory backend.

use vstd::prelude::*;
use crate::key::FinternetUID;

verus! {

/// Error raised by a storage backend. The capability as specified has no
/// failure mode of its own: the contracts below promise `Ok` from every
/// operation, and the single variant is a placeholder for backends (a
/// persistent or remote engine) whose operations can fail.
#[derive(Debug)]
pub enum FStorageError {
    /// The backing engine could not serve the request.
    BackendUnavailable,
}

/// A uniform key/value persistence capability, parameterized over the
/// key and value types.
///
/// The abstract state of a backend is the map `contents()` from keys to
/// stored values; each key maps to at most one value. `set` inserts or
/// overwrites, `remove` deletes, and `get` and `key_exists` read without
/// changing the state. No failure mode is specified for the capability, so
/// every operation is promised to return `Ok`.
pub trait FStorage<K, V>: Sized where V: Clone + core::fmt::Debug {
    /// The map from keys to currently stored values.
    spec fn contents(&self) -> Map<K, V>;

    /// Stores a value under a key, overwriting any value already there.
    fn set(&mut self, key: K, value: V) -> (r: Result<(), FStorageError>)
        ensures
            r is Ok,
            final(self).contents() == old(self).contents().insert(key, value),
    ;

    /// Retrieves the value stored under a key, or `None` if the key is
    /// absent. The store itself is not changed.
    fn get(&self, key: K) -> (r: Result<Option<V>, FStorageError>)
        ensures
            r is Ok,
            r matches Ok(o) ==> {
                &&& o is Some <==> self.contents().contains_key(key)
                &&& o matches Some(v) ==> v == self.contents()[key]
            },
    ;

    /// Reports whether a key is present, exactly when `contents()`
    /// contains it. The default implementation derives the answer from
    /// `get`.
    fn key_exists(&self, key: K) -> (r: Result<bool, FStorageError>)
        ensures
            r == Ok::<bool, FStorageError>(self.contents().contains_key(key)),
    {
        match self.get(key) {
            Ok(o) => Ok(o.is_some()),
            Err(e) => Err(e),
        }
    }

    /// Removes the value stored under a key; removing an absent key is a
    /// no-op that still succeeds.
    fn remove(&mut self, key: K) -> (r: Result<(), FStorageError>)
        ensures
            r is Ok,
            final(self).contents() == old(self).contents().remove(key),
    ;
}

/// The map described by a sequence of key/value entries, a later entry
/// overriding an earlier one with the same key.
pub open spec fn map_of<V>(entries: Seq<(FinternetUID, V)>) -> Map<FinternetUID, V>
    decreases entries.len(),
{
    if entries.len() == 0 {
        Map::empty()
    } else {
        map_of(entries.drop_last()).insert(entries.last().0, entries.last().1)
    }
}

proof fn lemma_map_of_take_step<V>(s: Seq<(FinternetUID, V)>, i: int)
    requires
        0 <= i < s.len(),
    ensures
        map_of(s.take(i + 1)) == map_of(s.take(i)).insert(s[i].0, s[i].1),
{
    assert(s.take(i + 1).drop_last() =~= s.take(i));
    assert(s.take(i + 1).last() == s[i]);
}

/// An in-memory storage backend keyed by the ledger's identifier type,
/// holding its entries as a vector in which the latest entry for a key
/// wins. It exists so that the `FStorage` capability can be exercised
/// without a persistent engine.
pub struct InMemoryStorage<V> {
    entries: Vec<(FinternetUID, V)>,
}

impl<V: Copy + core::fmt::Debug> InMemoryStorage<V> {
    /// An empty store.
    pub fn new() -> (r: InMemoryStorage<V>)
        ensures
            r.contents() == Map::<FinternetUID, V>::empty(),
    {
        InMemoryStorage { entries: Vec::new() }
    }
}

impl<V: Copy + core::fmt::Debug> FStorage<FinternetUID, V> for InMemoryStorage<V> {
    closed spec fn contents(&self) -> Map<FinternetUID, V> {
        map_of(self.entries@)
    }

    fn set(&mut self, key: FinternetUID, value: V) -> (r: Result<(), FStorageError>) {
        self.entries.push((key, value));
        proof {
            assert(self.entries@.drop_last() =~= old(self).entries@);
        }
        Ok(())
    }

    fn get(&self, key: FinternetUID) -> (r: Result<Option<V>, FStorageError>) {
        let mut found: Option<V> = None;
        let mut i: usize = 0;
        while i < self.entries.len()
            invariant
                i <= self.entries@.len(),
                found is Some <==> map_of(self.entries@.take(i as int)).contains_key(key),
                found matches Some(v) ==> v == map_of(self.entries@.take(i as int))[key],
            decreases self.entries@.len() - i,
        {
            proof {
                lemma_map_of_take_step(self.entries@, i as int);
            }
            let e = &self.entries[i];
            if e.0.eq_bytes(&key) {
                found = Some(e.1);
            }
            i += 1;
        }
        proof {
            assert(self.entries@.take(self.entries@.len() as int) =~= self.entries@);
        }
        Ok(found)
    }

    fn remove(&mut self, key: FinternetUID) -> (r: Result<(), FStorageError>) {
        let mut kept: Vec<(FinternetUID, V)> = Vec::new();
        let mut i: usize = 0;
        while i < self.entries.len()
            invariant
                i <= self.entries@.len(),
                self.entries@ == old(self).entries@,
                map_of(kept@) == map_of(self.entries@.take(i as int)).remove(key),
            decreases self.entries@.len() - i,
        {
            proof {
                lemma_map_of_take_step(self.entries@, i as int);
            }
            let ghost kept_before = kept@;
            let e_key = self.entries[i].0.clone();
            let e_val = self.entries[i].1;
            if e_key.eq_bytes(&key) {
                proof {
                    assert(map_of(self.entries@.take(i + 1)).remove(key) =~= map_of(
                        self.entries@.take(i as int),
                    ).remove(key));
                }
            } else {
                kept.push((e_key, e_val));
                proof {
                    assert(kept@.drop_last() =~= kept_before);
                    assert(map_of(self.entries@.take(i + 1)).remove(key) =~= map_of(
                        self.entries@.take(i as int),
                    ).remove(key).insert(self.entries@[i as int].0, self.entries@[i as int].1));
                }
            }
            i += 1;
        }
        proof {
            assert(self.entries@.take(self.entries@.len() as int) =~= self.entries@);
        }
        self.entries = kept;
        Ok(())
    }
}

/// A value stored under a key is the value read back: after `set(k, v)`
/// the contents contain `k` and hold `v` there, so `get(k)` returns
/// `Ok(Some(v))`.
pub proof fn lemma_set_then_get<K, V>(m: Map<K, V>, k: K, v: V)
    ensures
        m.insert(k, v).contains_key(k),
        m.insert(k, v)[k] == v,
{
}

/// A key exists exactly while it is stored: after `set(k, _)` the key is
/// present, it stays present across a `set` or `remove` of a different
/// key, and it is absent once `remove(k)` follows; `key_exists(k)` returns
/// exactly that presence.
pub proof fn lemma_exists_tracks_set_and_remove<K, V>(m: Map<K, V>, k: K, v: V, k2: K, v2: V)
    requires
        k2 != k,
    ensures
        m.insert(k, v).contains_key(k),
        m.insert(k, v).insert(k2, v2).contains_key(k),
        m.insert(k, v).remove(k2).contains_key(k),
        !m.insert(k, v).remove(k).contains_key(k),
{
}

/// A removed key reads back as absent: after `remove(k)` the contents no
/// longer contain `k`, so `get(k)` returns `Ok(None)`.
pub proof fn lemma_remove_then_get<K, V>(m: Map<K, V>, k: K)
    ensures
        !m.remove(k).contains_key(k),
{
}

} // verus!

//! A small map that keeps its entries in a vector.
//!
//! The keys are [`Identifier`]s, so a lookup is a linear scan with a proved
//! result. The type's model is a `Map`; the order of the entries is not part
//! of it.

use crate::lists::contains_id;
use crate::primitives::Identifier;
use vstd::prelude::*;

verus! {

/// A finite map from `K` to `V`.
pub struct VecMap<K, V> {
    entries: Vec<(K, V)>,
}

/// The keys of a sequence of entries, in order.
pub open spec fn entry_keys<K, V>(entries: Seq<(K, V)>) -> Seq<K> {
    entries.map_values(|e: (K, V)| e.0)
}

impl<K: Identifier, V> VecMap<K, V> {
    /// No key occurs twice.
    pub closed spec fn wf(&self) -> bool {
        entry_keys(self.entries@).no_duplicates()
    }

    /// The map that the entries stand for.
    pub closed spec fn view(&self) -> Map<K, V> {
        Map::new(
            |k: K| entry_keys(self.entries@).contains(k),
            |k: K| self.entries@[entry_keys(self.entries@).index_of(k)].1,
        )
    }

    /// The number of entries.
    pub closed spec fn spec_len(&self) -> nat {
        self.entries@.len()
    }

    /// The key of the entry at a position.
    pub closed spec fn spec_key_at(&self, i: int) -> K {
        self.entries@[i].0
    }

    /// The value of the entry at a position.
    pub closed spec fn spec_value_at(&self, i: int) -> V {
        self.entries@[i].1
    }

    /// Every position holds an entry of the map, and every entry of the map
    /// stands at exactly one position.
    pub proof fn lemma_positions(&self)
        requires
            self.wf(),
        ensures
            forall|i: int|
                0 <= i < self.spec_len() ==> #[trigger] self@.dom().contains(self.spec_key_at(i))
                    && self@[self.spec_key_at(i)] == self.spec_value_at(i),
            forall|k: K| #[trigger]
                self@.dom().contains(k) ==> exists|i: int|
                    0 <= i < self.spec_len() && self.spec_key_at(i) == k,
            forall|i: int, j: int|
                0 <= i < self.spec_len() && 0 <= j < self.spec_len() && i != j
                    ==> self.spec_key_at(i) != self.spec_key_at(j),
            self@.dom().finite(),
            self@.dom().len() == self.spec_len(),
    {
        let keys = entry_keys(self.entries@);
        assert forall|i: int| 0 <= i < self.spec_len() implies #[trigger] self@.dom().contains(
            self.spec_key_at(i),
        ) && self@[self.spec_key_at(i)] == self.spec_value_at(i) by {
            assert(keys[i] == self.entries@[i].0);
            let j = keys.index_of(keys[i]);
            assert(keys[j] == keys[i]);
        }
        assert forall|k: K| #[trigger] self@.dom().contains(k) implies exists|i: int|
            0 <= i < self.spec_len() && self.spec_key_at(i) == k by {
            let i = keys.index_of(k);
            assert(keys[i] == k);
            assert(0 <= i < self.spec_len() && self.spec_key_at(i) == k);
        }
        assert forall|i: int, j: int|
            0 <= i < self.spec_len() && 0 <= j < self.spec_len() && i != j implies self.spec_key_at(
            i,
        ) != self.spec_key_at(j) by {
            assert(keys[i] == self.entries@[i].0);
            assert(keys[j] == self.entries@[j].0);
        }
        assert(self@.dom() =~= keys.to_set());
        keys.unique_seq_to_set();
        vstd::seq_lib::seq_to_set_is_finite(keys);
    }

    /// An empty map.
    pub fn new() -> (m: Self)
        ensures
            m.wf(),
            m@ == Map::<K, V>::empty(),
            m.spec_len() == 0,
    {
        let m = VecMap { entries: Vec::new() };
        assert(m@ =~= Map::<K, V>::empty());
        m
    }

    /// The number of entries.
    pub fn len(&self) -> (n: usize)
        ensures
            n == self.spec_len(),
    {
        self.entries.len()
    }

    /// The position at which a key stands, if the map has it.
    pub fn position(&self, key: &K) -> (r: Option<usize>)
        requires
            self.wf(),
        ensures
            match r {
                Some(i) => i < self.spec_len() && self.spec_key_at(i as int) == *key
                    && self@.dom().contains(*key) && self@[*key] == self.spec_value_at(i as int),
                None => !self@.dom().contains(*key),
            },
    {
        let mut i: usize = 0;
        while i < self.entries.len()
            invariant
                self.wf(),
                i <= self.entries.len(),
                forall|j: int| 0 <= j < i ==> self.entries@[j].0 != *key,
            decreases self.entries.len() - i,
        {
            if self.entries[i].0.same(key) {
                proof {
                    self.lemma_positions();
                    assert(self@.dom().contains(self.spec_key_at(i as int)));
                }
                return Some(i);
            }
            i += 1;
        }
        proof {
            self.lemma_positions();
        }
        assert(!self@.dom().contains(*key)) by {
            if self@.dom().contains(*key) {
                let j = choose|j: int| 0 <= j < self.spec_len() && self.spec_key_at(j) == *key;
                assert(self.entries@[j].0 == *key);
            }
        }
        None
    }

    /// Whether the map has the key.
    pub fn contains_key(&self, key: &K) -> (r: bool)
        requires
            self.wf(),
        ensures
            r == self@.dom().contains(*key),
    {
        self.position(key).is_some()
    }

    /// The value under a key.
    pub fn get(&self, key: &K) -> (r: Option<&V>)
        requires
            self.wf(),
        ensures
            match r {
                Some(v) => self@.dom().contains(*key) && *v == self@[*key],
                None => !self@.dom().contains(*key),
            },
    {
        match self.position(key) {
            Some(i) => Some(&self.entries[i].1),
            None => None,
        }
    }

    /// The value at a position.
    pub fn value_at(&self, i: usize) -> (v: &V)
        requires
            i < self.spec_len(),
        ensures
            *v == self.spec_value_at(i as int),
    {
        &self.entries[i].1
    }

    /// Puts a value under a key and hands back the value that was there.
    pub fn insert(&mut self, key: K, value: V) -> (previous: Option<V>)
        requires
            old(self).wf(),
        ensures
            final(self).wf(),
            final(self)@ == old(self)@.insert(key, value),
            previous == (if old(self)@.dom().contains(key) {
                Some(old(self)@[key])
            } else {
                None
            }),
    {
        proof {
            self.lemma_positions();
        }
        match self.position(&key) {
            Some(i) => {
                let ghost before = self.entries@;
                self.entries.push((key, value));
                let previous = self.entries.swap_remove(i);
                proof {
                    let after = self.entries@;
                    assert(after.len() == before.len());
                    assert(entry_keys(after) =~= entry_keys(before)) by {
                        assert forall|j: int| 0 <= j < before.len() implies entry_keys(after)[j]
                            == entry_keys(before)[j] by {
                            if j == i as int {
                                assert(after[j].0 == key);
                            } else {
                                assert(after[j] == before[j]);
                            }
                        }
                    }
                    self.lemma_positions();
                    assert(self@ =~= old(self)@.insert(key, value)) by {
                        assert forall|k: K| self@.dom().contains(k) implies #[trigger] self@[k]
                            == old(self)@.insert(key, value)[k] by {
                            let j = choose|j: int| 0 <= j < self.spec_len() && self.spec_key_at(j) == k;
                            assert(self@[self.spec_key_at(j)] == self.spec_value_at(j));
                            if j != i as int {
                                assert(after[j] == before[j]);
                                assert(old(self)@[old(self).spec_key_at(j)] == old(
                                    self,
                                ).spec_value_at(j));
                            }
                        }
                    }
                }
                Some(previous.1)
            },
            None => {
                let ghost before = self.entries@;
                self.entries.push((key, value));
                proof {
                    let after = self.entries@;
                    assert(entry_keys(after) =~= entry_keys(before).push(key));
                    assert(!entry_keys(before).contains(key));
                    self.lemma_positions();
                    assert(self@ =~= old(self)@.insert(key, value)) by {
                        assert forall|k: K| self@.dom().contains(k) implies #[trigger] self@[k]
                            == old(self)@.insert(key, value)[k] by {
                            let j = choose|j: int| 0 <= j < self.spec_len() && self.spec_key_at(j) == k;
                            assert(self@[self.spec_key_at(j)] == self.spec_value_at(j));
                            if j < before.len() {
                                assert(after[j] == before[j]);
                                assert(old(self)@[old(self).spec_key_at(j)] == old(
                                    self,
                                ).spec_value_at(j));
                            }
                        }
                        assert forall|k: K| old(self)@.insert(key, value).dom().contains(
                            k,
                        ) implies #[trigger] self@.dom().contains(k) by {
                            if k == key {
                                assert(self.spec_key_at(before.len() as int) == key);
                            } else {
                                let j = choose|j: int|
                                    0 <= j < old(self).spec_len() && old(self).spec_key_at(j) == k;
                                assert(after[j] == before[j]);
                                assert(self.spec_key_at(j) == k);
                            }
                        }
                    }
                }
                None
            },
        }
    }

    /// Takes the entry under a key out of the map.
    pub fn remove(&mut self, key: &K) -> (removed: Option<V>)
        requires
            old(self).wf(),
        ensures
            final(self).wf(),
            final(self)@ == old(self)@.remove(*key),
            removed == (if old(self)@.dom().contains(*key) {
                Some(old(self)@[*key])
            } else {
                None
            }),
    {
        proof {
            self.lemma_positions();
        }
        match self.position(key) {
            Some(i) => {
                let ghost before = self.entries@;
                let removed = self.entries.remove(i);
                proof {
                    let after = self.entries@;
                    assert(entry_keys(after) =~= entry_keys(before).remove(i as int));
                    assert(entry_keys(after).no_duplicates()) by {
                        assert forall|a: int, b: int|
                            0 <= a < after.len() && 0 <= b < after.len() && a != b implies entry_keys(
                            after,
                        )[a] != entry_keys(after)[b] by {
                            let a0 = if a < i { a } else { a + 1 };
                            let b0 = if b < i { b } else { b + 1 };
                            assert(entry_keys(after)[a] == entry_keys(before)[a0]);
                            assert(entry_keys(after)[b] == entry_keys(before)[b0]);
                        }
                    }
                    self.lemma_positions();
                    assert(self@ =~= old(self)@.remove(*key)) by {
                        assert forall|k: K| self@.dom().contains(k) implies old(self)@.remove(
                            *key,
                        ).dom().contains(k) && #[trigger] self@[k] == old(self)@.remove(*key)[k] by {
                            let j = choose|j: int| 0 <= j < self.spec_len() && self.spec_key_at(j) == k;
                            let j0 = if j < i { j } else { j + 1 };
                            assert(after[j] == before[j0]);
                            assert(self@[self.spec_key_at(j)] == self.spec_value_at(j));
                            assert(old(self)@[old(self).spec_key_at(j0)] == old(self).spec_value_at(
                                j0,
                            ));
                            assert(old(self).spec_key_at(j0) != old(self).spec_key_at(i as int));
                        }
                        assert forall|k: K| old(self)@.remove(*key).dom().contains(
                            k,
                        ) implies #[trigger] self@.dom().contains(k) by {
                            let j0 = choose|j: int|
                                0 <= j < old(self).spec_len() && old(self).spec_key_at(j) == k;
                            let j = if j0 < i { j0 } else { j0 - 1 };
                            assert(after[j] == before[j0]);
                            assert(self.spec_key_at(j) == k);
                        }
                    }
                }
                Some(removed.1)
            },
            None => {
                assert(self@ =~= old(self)@.remove(*key));
                None
            },
        }
    }

    /// The keys of the map, each once.
    pub fn keys(&self) -> (keys: Vec<K>)
        requires
            self.wf(),
        ensures
            keys@.no_duplicates(),
            keys@.to_set() == self@.dom(),
    {
        let mut keys: Vec<K> = Vec::new();
        let mut i: usize = 0;
        while i < self.entries.len()
            invariant
                i <= self.entries.len(),
                keys@ == entry_keys(self.entries@).take(i as int),
            decreases self.entries.len() - i,
        {
            keys.push(self.entries[i].0);
            assert(entry_keys(self.entries@).take(i + 1) =~= entry_keys(self.entries@).take(
                i as int,
            ).push(self.entries@[i as int].0));
            i += 1;
        }
        assert(keys@ =~= entry_keys(self.entries@));
        assert(keys@.to_set() =~= self@.dom());
        keys
    }

    /// Drops every entry whose key is not in `keep`.
    pub fn retain_in(&mut self, keep: &Vec<K>)
        requires
            old(self).wf(),
        ensures
            final(self).wf(),
            final(self)@ == old(self)@.restrict(keep@.to_set()),
    {
        let candidates = self.keys();
        let mut i: usize = 0;
        while i < candidates.len()
            invariant
                self.wf(),
                i <= candidates.len(),
                candidates@.to_set() == old(self)@.dom(),
                forall|k: K| #[trigger]
                    self@.dom().contains(k) <==> old(self)@.dom().contains(k) && (keep@.contains(k)
                        || !candidates@.take(i as int).contains(k)),
                forall|k: K| self@.dom().contains(k) ==> #[trigger] self@[k] == old(self)@[k],
            decreases candidates.len() - i,
        {
            let key = candidates[i];
            let ghost before = self@;
            assert(candidates@.take(i + 1) =~= candidates@.take(i as int).push(key));
            if !contains_id(keep, &key) {
                self.remove(&key);
            }
            proof {
                let done = candidates@.take(i as int);
                let next = candidates@.take(i + 1);
                assert forall|k: K| #[trigger]
                    self@.dom().contains(k) <==> old(self)@.dom().contains(k) && (keep@.contains(k)
                        || !next.contains(k)) by {
                    assert(before.dom().contains(k) <==> old(self)@.dom().contains(k) && (
                    keep@.contains(k) || !done.contains(k)));
                    if next.contains(k) {
                        let j = choose|j: int| 0 <= j < next.len() && next[j] == k;
                        if j < i {
                            assert(done[j] == k);
                        }
                    }
                    if done.contains(k) {
                        let j = choose|j: int| 0 <= j < done.len() && done[j] == k;
                        assert(next[j] == k);
                    }
                    assert(next[i as int] == key);
                    if k == key {
                        assert(candidates@.to_set().contains(key)) by {
                            assert(candidates@[i as int] == key);
                        }
                    }
                }
            }
            i += 1;
        }
        assert(candidates@.take(candidates.len() as int) =~= candidates@);
        assert forall|k: K| old(self)@.dom().contains(k) implies candidates@.contains(k) by {
            assert(candidates@.to_set().contains(k));
        }
        assert(self@ =~= old(self)@.restrict(keep@.to_set()));
    }
}

} // verus!

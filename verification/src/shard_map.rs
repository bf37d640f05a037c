//! A map keyed by shard that remembers the order of insertion.
use crate::ids::ShardIdent;
use vstd::prelude::*;

verus! {

/// At most one value for each shard.
pub struct ShardMap<V> {
    pub keys: Vec<ShardIdent>,
    pub values: Vec<V>,
}

impl<V> View for ShardMap<V> {
    type V = Map<ShardIdent, V>;

    open spec fn view(&self) -> Map<ShardIdent, V> {
        Map::new(
            |k: ShardIdent| self.keys@.contains(k),
            |k: ShardIdent| self.values@[self.keys@.index_of(k)],
        )
    }
}

impl<V> ShardMap<V> {
    /// No shard has two values.
    pub open spec fn wf(&self) -> bool {
        &&& self.keys@.len() == self.values@.len()
        &&& self.keys@.no_duplicates()
    }

    /// The value stored under the key at a position.
    pub proof fn lemma_at(&self, i: int)
        requires
            self.wf(),
            0 <= i < self.keys@.len(),
        ensures
            self@.dom().contains(self.keys@[i]),
            self@[self.keys@[i]] == self.values@[i],
    {
        let k = self.keys@[i];
        assert(self.keys@.contains(k));
        let j = self.keys@.index_of(k);
        assert(self.keys@[j] == k);
        assert(i == j);
    }

    /// The empty map.
    pub fn new() -> (r: Self)
        ensures
            r.wf(),
            r@ == Map::<ShardIdent, V>::empty(),
            r.keys@.len() == 0,
    {
        let r = ShardMap { keys: Vec::new(), values: Vec::new() };
        assert(r@ =~= Map::<ShardIdent, V>::empty());
        r
    }

    /// How many shards have a value.
    pub fn len(&self) -> (r: usize)
        requires
            self.wf(),
        ensures
            r == self.keys@.len(),
    {
        self.keys.len()
    }

    /// Where a shard stands in the order of insertion.
    pub fn position(&self, key: &ShardIdent) -> (r: Option<usize>)
        requires
            self.wf(),
        ensures
            r is Some <==> self@.dom().contains(*key),
            r matches Some(i) ==> i < self.keys@.len() && self.keys@[i as int] == *key
                && self.values@[i as int] == self@[*key],
    {
        let mut i: usize = 0;
        while i < self.keys.len()
            invariant
                self.wf(),
                i <= self.keys@.len(),
                forall|j: int| 0 <= j < i ==> self.keys@[j] != *key,
            decreases self.keys@.len() - i,
        {
            if self.keys[i] == *key {
                proof {
                    self.lemma_at(i as int);
                }
                return Some(i);
            }
            i = i + 1;
        }
        None
    }

    /// The value of a shard.
    pub fn get(&self, key: &ShardIdent) -> (r: Option<&V>)
        requires
            self.wf(),
        ensures
            r is Some <==> self@.dom().contains(*key),
            r matches Some(v) ==> *v == self@[*key],
    {
        match self.position(key) {
            Some(i) => Some(&self.values[i]),
            None => None,
        }
    }

    /// Whether a shard has a value.
    pub fn contains_key(&self, key: &ShardIdent) -> (r: bool)
        requires
            self.wf(),
        ensures
            r == self@.dom().contains(*key),
    {
        self.position(key).is_some()
    }

    /// Replaces the value at a position.
    pub fn set_at(&mut self, i: usize, value: V)
        requires
            old(self).wf(),
            i < old(self).keys@.len(),
        ensures
            final(self).wf(),
            final(self).keys@ == old(self).keys@,
            final(self).values@ == old(self).values@.update(i as int, value),
            final(self)@ == old(self)@.insert(old(self).keys@[i as int], value),
    {
        let ghost before = *self;
        self.values.set(i, value);
        proof {
            let k = before.keys@[i as int];
            assert(self@.dom() =~= before@.insert(k, value).dom()) by {
                before.lemma_at(i as int);
            }
            assert forall|s: ShardIdent| self@.dom().contains(s) implies self@[s]
                == before@.insert(k, value)[s] by {
                let j = before.keys@.index_of(s);
                self.lemma_at(j);
                before.lemma_at(j);
            }
            assert(self@ =~= before@.insert(k, value));
        }
    }

    /// Stores the value of a shard in place of an earlier one.
    pub fn insert(&mut self, key: ShardIdent, value: V)
        requires
            old(self).wf(),
        ensures
            final(self).wf(),
            final(self)@ == old(self)@.insert(key, value),
            old(self)@.dom().contains(key) ==> final(self).keys@ == old(self).keys@,
            !old(self)@.dom().contains(key) ==> final(self).keys@ == old(self).keys@.push(key)
                && final(self).values@ == old(self).values@.push(value),
    {
        match self.position(&key) {
            Some(i) => {
                self.set_at(i, value);
            },
            None => {
                let ghost before = *self;
                self.keys.push(key);
                self.values.push(value);
                proof {
                    assert(self.keys@.no_duplicates());
                    assert forall|s: ShardIdent| self@.dom().contains(s) == before@.insert(
                        key,
                        value,
                    ).dom().contains(s) by {
                        if before.keys@.contains(s) {
                            let j = before.keys@.index_of(s);
                            assert(self.keys@[j] == s);
                        }
                        if s == key {
                            assert(self.keys@[before.keys@.len() as int] == key);
                        }
                    }
                    assert forall|s: ShardIdent| self@.dom().contains(s) implies self@[s]
                        == before@.insert(key, value)[s] by {
                        let j = self.keys@.index_of(s);
                        self.lemma_at(j);
                        if s != key {
                            before.lemma_at(j);
                        }
                    }
                    assert(self@ =~= before@.insert(key, value));
                }
            },
        }
    }

    /// Takes out the entry at a position.
    pub fn remove_at(&mut self, i: usize) -> (r: V)
        requires
            old(self).wf(),
            i < old(self).keys@.len(),
        ensures
            final(self).wf(),
            final(self).keys@ == old(self).keys@.remove(i as int),
            final(self).values@ == old(self).values@.remove(i as int),
            final(self)@ == old(self)@.remove(old(self).keys@[i as int]),
            r == old(self).values@[i as int],
    {
        let ghost before = *self;
        let ghost key = self.keys@[i as int];
        let _k = self.keys.remove(i);
        let v = self.values.remove(i);
        proof {
            let after_keys = before.keys@.remove(i as int);
            assert(self.keys@ == after_keys);
            assert forall|a: int, b: int| 0 <= a < b < after_keys.len() implies after_keys[a]
                != after_keys[b] by {
                let a0 = if a < i { a } else { a + 1 };
                let b0 = if b < i { b } else { b + 1 };
                assert(after_keys[a] == before.keys@[a0]);
                assert(after_keys[b] == before.keys@[b0]);
            }
            assert(self.keys@.no_duplicates());
            assert forall|s: ShardIdent| self@.dom().contains(s) == before@.remove(
                key,
            ).dom().contains(s) by {
                if before.keys@.contains(s) && s != key {
                    let j = before.keys@.index_of(s);
                    if j < i {
                        assert(after_keys[j] == s);
                    } else {
                        assert(after_keys[j - 1] == s);
                    }
                }
                if after_keys.contains(s) {
                    let j = after_keys.index_of(s);
                    let j0 = if j < i { j } else { j + 1 };
                    assert(before.keys@[j0] == s);
                }
            }
            assert forall|s: ShardIdent| self@.dom().contains(s) implies self@[s] == before@.remove(
                key,
            )[s] by {
                let j = self.keys@.index_of(s);
                self.lemma_at(j);
                let j0 = if j < i { j } else { j + 1 };
                before.lemma_at(j0);
                assert(before.keys@[j0] == s);
            }
            assert(self@ =~= before@.remove(key));
        }
        v
    }

    /// Takes the value of a shard out of the map.
    pub fn remove(&mut self, key: &ShardIdent) -> (r: Option<V>)
        requires
            old(self).wf(),
        ensures
            final(self).wf(),
            final(self)@ == old(self)@.remove(*key),
            r is Some <==> old(self)@.dom().contains(*key),
            r matches Some(v) ==> v == old(self)@[*key],
    {
        match self.position(key) {
            Some(i) => Some(self.remove_at(i)),
            None => {
                assert(self@.remove(*key) =~= self@);
                None
            },
        }
    }

    /// Takes out every shard of the masterchain.
    pub fn remove_masterchain(&mut self)
        requires
            old(self).wf(),
        ensures
            final(self).wf(),
            final(self)@ == without_masterchain(old(self)@),
    {
        let mut i: usize = 0;
        while i < self.keys.len()
            invariant
                self.wf(),
                i <= self.keys@.len(),
                forall|j: int| 0 <= j < i ==> !(#[trigger] self.keys@[j]).is_masterchain(),
                self@.submap_of(old(self)@),
                forall|s: ShardIdent|
                    old(self)@.dom().contains(s) && !s.is_masterchain() ==> #[trigger] self@.dom().contains(s),
            decreases self.keys@.len() - i,
        {
            let key = self.keys[i];
            if key.is_masterchain() {
                let ghost before = *self;
                proof {
                    self.lemma_at(i as int);
                }
                let _removed = self.remove_at(i);
            } else {
                i = i + 1;
            }
        }
        proof {
            assert forall|s: ShardIdent| #[trigger] self@.dom().contains(s) implies !s.is_masterchain() by {
                let j = self.keys@.index_of(s);
                assert(self.keys@[j] == s);
            }
            assert(self@ =~= without_masterchain(old(self)@));
        }
    }
}

/// The entries of a map that do not belong to the masterchain.
pub open spec fn without_masterchain<V>(m: Map<ShardIdent, V>) -> Map<ShardIdent, V> {
    m.restrict(m.dom().filter(|s: ShardIdent| !s.is_masterchain()))
}

/// Without the masterchain the entries of all other shards stay, and only these.
pub proof fn law_other_shards_stay<V>(m: Map<ShardIdent, V>, shard: ShardIdent)
    ensures
        without_masterchain(m).dom().contains(shard) <==> m.dom().contains(shard) && shard.workchain
            != -1,
        without_masterchain(m).dom().contains(shard) ==> without_masterchain(m)[shard] == m[shard],
{
}

} // verus!

//! A map keyed by block number.
use crate::outside::{
    tree_get, tree_insert, tree_new, tree_range_upto, tree_remove, tree_remove_upto,
};
use vstd::prelude::*;

verus! {

/// At most one value for each block number. The tree orders the numbers and
/// gives the slot of each value. Slots that are free are used again.
pub struct SeqnoMap<V> {
    pub tree: scc::TreeIndex<u32, u64>,
    pub slots: Vec<Option<V>>,
    pub free: Vec<u64>,
}

impl<V> View for SeqnoMap<V> {
    type V = Map<u32, V>;

    open spec fn view(&self) -> Map<u32, V> {
        Map::new(
            |k: u32| self.index().dom().contains(k),
            |k: u32| self.slots@[self.index()[k] as int]->0,
        )
    }
}

impl<V> SeqnoMap<V> {
    /// The slot of each block number.
    pub open spec fn index(&self) -> Map<u32, u64> {
        crate::outside::tree_contents(self.tree)
    }

    /// Whether a number has its value in a slot.
    pub open spec fn is_used(&self, slot: int) -> bool {
        exists|k: u32| #[trigger] self.index().dom().contains(k) && self.index()[k] == slot
    }

    /// Whether every free slot is listed once, and only empty slots are free.
    pub open spec fn free_wf(&self) -> bool {
        &&& self.free@.no_duplicates()
        &&& forall|i: int|
            0 <= i < self.free@.len() ==> (#[trigger] self.free@[i]) < self.slots@.len()
                && self.slots@[self.free@[i] as int] is None
        &&& forall|slot: int|
            0 <= slot < self.slots@.len() && (#[trigger] self.slots@[slot]) is None
                ==> self.free@.contains(slot as u64)
    }

    /// Every number has a slot of its own, with a value in it, and every other slot
    /// is free.
    pub open spec fn wf(&self) -> bool {
        &&& self.free_wf()
        &&& forall|slot: int|
            0 <= slot < self.slots@.len() && (#[trigger] self.slots@[slot]) is Some
                ==> self.is_used(slot)
        &&& forall|k: u32| #[trigger]
            self.index().dom().contains(k) ==> self.index()[k] < self.slots@.len()
                && self.slots@[self.index()[k] as int] is Some
        &&& forall|k: u32, l: u32|
            #![trigger self.index().dom().contains(k), self.index().dom().contains(l)]
            self.index().dom().contains(k) && self.index().dom().contains(l) && self.index()[k]
                == self.index()[l] ==> k == l
    }

    /// The empty map.
    pub fn new() -> (r: Self)
        ensures
            r.wf(),
            r@ == Map::<u32, V>::empty(),
    {
        let r = SeqnoMap { tree: tree_new(), slots: Vec::new(), free: Vec::new() };
        assert(r@ =~= Map::<u32, V>::empty());
        r
    }

    /// The value of a block number.
    pub fn get(&self, key: u32) -> (r: Option<&V>)
        requires
            self.wf(),
        ensures
            r is Some <==> self@.dom().contains(key),
            r matches Some(v) ==> *v == self@[key],
    {
        match tree_get(&self.tree, key) {
            Some(slot) => {
                let n: usize = self.slots.len();
                assert(slot < n);
                self.slots[slot as usize].as_ref()
            },
            None => None,
        }
    }

    /// Adds a value unless the number has one; says whether it did. A new slot is made
    /// only where none is free.
    pub fn insert(&mut self, key: u32, value: V) -> (r: bool)
        requires
            old(self).wf(),
        ensures
            final(self).wf(),
            r == !old(self)@.dom().contains(key),
            final(self)@ == (if r {
                old(self)@.insert(key, value)
            } else {
                old(self)@
            }),
            final(self).slots@.len() == old(self).slots@.len() + (if r && old(self).free@.len() == 0 {
                1int
            } else {
                0int
            }),
    {
        let ghost before = *self;
        let n: usize = self.free.len();
        let slot: u64 = if n == 0 {
            self.slots.len() as u64
        } else {
            self.free[n - 1]
        };
        if !tree_insert(&mut self.tree, key, slot) {
            proof {
                assert(self.index() == before.index());
                assert forall|s: int|
                    0 <= s < self.slots@.len() && (
                    #[trigger] self.slots@[s]) is Some implies self.is_used(s) by {
                    assert(before.is_used(s));
                    let k = choose|k: u32| #[trigger]
                        before.index().dom().contains(k) && before.index()[k] == s;
                    assert(self.index().dom().contains(k));
                }
                assert(self@ =~= before@);
            }
            return false;
        }
        if n == 0 {
            self.slots.push(Some(value));
        } else {
            let _slot = self.free.pop();
            let len: usize = self.slots.len();
            assert(before.free@[n - 1] < len);
            self.slots.set(slot as usize, Some(value));
        }
        proof {
            assert(self.index().dom().contains(key));
            assert forall|s: int|
                0 <= s < self.slots@.len() && (
                #[trigger] self.slots@[s]) is Some implies self.is_used(s) by {
                if s != slot {
                    assert(before.slots@[s] is Some);
                    assert(before.is_used(s));
                    let k = choose|k: u32| #[trigger]
                        before.index().dom().contains(k) && before.index()[k] == s;
                    assert(self.index().dom().contains(k));
                }
            }
            assert forall|i: int| 0 <= i < self.free@.len() implies (#[trigger] self.free@[i])
                < self.slots@.len() && self.slots@[self.free@[i] as int] is None by {
                assert(self.free@[i] == before.free@[i]);
                assert(before.free@[i] != before.free@[n - 1]);
            }
            assert forall|s: int|
                0 <= s < self.slots@.len() && (
                #[trigger] self.slots@[s]) is None implies self.free@.contains(s as u64) by {
                assert(before.slots@[s] is None);
                assert(before.free@.contains(s as u64));
                let i = before.free@.index_of(s as u64);
                assert(self.free@[i] == s as u64);
            }
            assert forall|k: u32| #[trigger] self.index().dom().contains(k) implies self.index()[k]
                < self.slots@.len() && self.slots@[self.index()[k] as int] is Some by {
                if k != key {
                    assert(before.index().dom().contains(k));
                }
            }
            assert forall|k: u32, l: u32|
                #![trigger self.index().dom().contains(k), self.index().dom().contains(l)]
                self.index().dom().contains(k) && self.index().dom().contains(l) && self.index()[k]
                    == self.index()[l] implies k == l by {
                if k != key {
                    assert(before.index().dom().contains(k));
                }
                if l != key {
                    assert(before.index().dom().contains(l));
                }
            }
            assert forall|k: u32| self@.dom().contains(k) implies self@[k] == before@.insert(
                key,
                value,
            )[k] by {
                if k != key {
                    assert(before.index().dom().contains(k));
                }
            }
            assert(self@ =~= before@.insert(key, value));
        }
        true
    }

    /// Takes a number out and returns its value.
    pub fn remove(&mut self, key: u32) -> (r: Option<V>)
        requires
            old(self).wf(),
        ensures
            final(self).wf(),
            final(self)@ == old(self)@.remove(key),
            final(self).slots@.len() == old(self).slots@.len(),
            r is Some <==> old(self)@.dom().contains(key),
            r matches Some(v) ==> v == old(self)@[key],
    {
        let ghost before = *self;
        let slot: Option<u64> = tree_get(&self.tree, key);
        let _known = tree_remove(&mut self.tree, key);
        let removed: Option<V> = match slot {
            Some(slot) => {
                let n: usize = self.slots.len();
                assert(slot < n);
                self.free.push(slot);
                self.slots[slot as usize].take()
            },
            None => None,
        };
        proof {
            assert forall|s: int|
                0 <= s < self.slots@.len() && (
                #[trigger] self.slots@[s]) is Some implies self.is_used(s) by {
                assert(before.slots@[s] is Some);
                assert(before.is_used(s));
                let k = choose|k: u32| #[trigger]
                    before.index().dom().contains(k) && before.index()[k] == s;
                assert(k != key);
                assert(self.index().dom().contains(k));
            }
            assert forall|s: int|
                0 <= s < self.slots@.len() && (
                #[trigger] self.slots@[s]) is None implies self.free@.contains(s as u64) by {
                if before.slots@[s] is None {
                    let i = before.free@.index_of(s as u64);
                    assert(self.free@[i] == s as u64);
                } else {
                    assert(self.free@[self.free@.len() - 1] == s as u64);
                }
            }
            assert(self.free_wf());
            assert forall|k: u32| #[trigger] self.index().dom().contains(k) implies self.index()[k]
                < self.slots@.len() && self.slots@[self.index()[k] as int] is Some && self@[k]
                == before@[k] by {
                assert(before.index().dom().contains(k));
                if before.index().dom().contains(key) {
                    assert(before.index()[k] != before.index()[key]);
                }
            }
            assert forall|k: u32, l: u32|
                #![trigger self.index().dom().contains(k), self.index().dom().contains(l)]
                self.index().dom().contains(k) && self.index().dom().contains(l) && self.index()[k]
                    == self.index()[l] implies k == l by {
                assert(before.index().dom().contains(k) && before.index().dom().contains(l));
            }
            assert(self@ =~= before@.remove(key));
        }
        removed
    }

    /// The numbers up to `key` that have a value, in ascending order.
    pub fn keys_upto(&self, key: u32) -> (r: Vec<u32>)
        requires
            self.wf(),
        ensures
            forall|i: int, j: int| 0 <= i < j < r@.len() ==> r@[i] < r@[j],
            forall|k: u32| #[trigger]
                r@.contains(k) <==> self@.dom().contains(k) && k <= key,
    {
        let entries = tree_range_upto(&self.tree, key);
        let mut keys: Vec<u32> = Vec::new();
        let mut i: usize = 0;
        while i < entries.len()
            invariant
                i <= entries@.len(),
                keys@.len() == i,
                forall|j: int| 0 <= j < i ==> keys@[j] == (#[trigger] entries@[j]).0,
            decreases entries@.len() - i,
        {
            let (k, _slot): (u32, u64) = entries[i];
            keys.push(k);
            i = i + 1;
        }
        proof {
            assert forall|a: int, b: int| 0 <= a < b < keys@.len() implies keys@[a] < keys@[b] by {
                assert(entries@[a].0 < entries@[b].0);
            }
            assert forall|k: u32| #[trigger]
                keys@.contains(k) <==> self@.dom().contains(k) && k <= key by {
                if keys@.contains(k) {
                    let j = keys@.index_of(k);
                    assert(entries@[j].0 == k);
                }
                if self.index().dom().contains(k) && k <= key {
                    let j = choose|j: int| 0 <= j < entries@.len() && (#[trigger] entries@[j]).0 == k;
                    assert(keys@[j] == k);
                }
            }
        }
        keys
    }

    /// Takes out every number up to `key`.
    pub fn remove_upto(&mut self, key: u32)
        requires
            old(self).wf(),
        ensures
            final(self).wf(),
            final(self)@ == old(self)@.restrict(old(self)@.dom().filter(|k: u32| k > key)),
            final(self).slots@.len() == old(self).slots@.len(),
    {
        let ghost before = *self;
        let entries = tree_range_upto(&self.tree, key);
        tree_remove_upto(&mut self.tree, key);
        let mut i: usize = 0;
        while i < entries.len()
            invariant
                before.wf(),
                i <= entries@.len(),
                self.slots@.len() == before.slots@.len(),
                self.free_wf(),
                forall|a: int, b: int|
                    0 <= a < b < entries@.len() ==> (#[trigger] entries@[a]).0 < (
                    #[trigger] entries@[b]).0,
                forall|j: int|
                    i <= j < entries@.len() ==> self.slots@[(#[trigger] entries@[j]).1 as int]
                        is Some,
                forall|s: int|
                    0 <= s < self.slots@.len() && (#[trigger] self.slots@[s]) is Some
                        ==> before.slots@[s] is Some && forall|j: int|
                        0 <= j < i ==> (#[trigger] entries@[j]).1 != s,
                self.index() == before.index().restrict(
                    before.index().dom().filter(|k: u32| k > key),
                ),
                forall|j: int|
                    0 <= j < entries@.len() ==> (#[trigger] entries@[j]).0 <= key
                        && before.index().dom().contains(entries@[j].0) && before.index()[entries@[j].0]
                        == entries@[j].1,
                forall|k: u32| #[trigger]
                    self.index().dom().contains(k) ==> self.slots@[before.index()[k] as int]
                        == before.slots@[before.index()[k] as int],
            decreases entries@.len() - i,
        {
            let (k, slot): (u32, u64) = entries[i];
            assert(before.index().dom().contains(entries@[i as int].0));
            let n: usize = self.slots.len();
            assert(slot < n);
            let ghost mid = *self;
            self.slots.set(slot as usize, None);
            self.free.push(slot);
            proof {
                assert(mid.slots@[entries@[i as int].1 as int] is Some);
                assert forall|s: int|
                    0 <= s < self.slots@.len() && (
                    #[trigger] self.slots@[s]) is None implies self.free@.contains(s as u64) by {
                    if s == slot {
                        assert(self.free@[self.free@.len() - 1] == s as u64);
                    } else {
                        assert(mid.slots@[s] is None);
                        let f = mid.free@.index_of(s as u64);
                        assert(self.free@[f] == s as u64);
                    }
                }
                assert(self.free_wf());
                assert forall|j: int| i + 1 <= j < entries@.len() implies self.slots@[(
                #[trigger] entries@[j]).1 as int] is Some by {
                    assert(entries@[i as int].0 < entries@[j].0);
                    assert(before.index().dom().contains(entries@[j].0));
                    assert(entries@[j].1 != slot);
                    assert(mid.slots@[entries@[j].1 as int] is Some);
                }
                assert forall|s: int|
                    0 <= s < self.slots@.len() && (
                    #[trigger] self.slots@[s]) is Some implies before.slots@[s] is Some && forall|j: int|
                    0 <= j < i + 1 ==> (#[trigger] entries@[j]).1 != s by {
                    assert(mid.slots@[s] is Some);
                }
                assert forall|l: u32| #[trigger]
                    self.index().dom().contains(l) implies self.slots@[before.index()[l] as int]
                    == before.slots@[before.index()[l] as int] by {
                    assert(before.index().dom().contains(l));
                    assert(before.index()[l] != before.index()[k]);
                }
            }
            i = i + 1;
        }
        proof {
            assert forall|s: int|
                0 <= s < self.slots@.len() && (
                #[trigger] self.slots@[s]) is Some implies self.is_used(s) by {
                assert(before.slots@[s] is Some);
                assert(before.is_used(s));
                let k = choose|k: u32| #[trigger]
                    before.index().dom().contains(k) && before.index()[k] == s;
                if k <= key {
                    let j = choose|j: int| 0 <= j < entries@.len() && (#[trigger] entries@[j]).0 == k;
                    assert(entries@[j].1 != s);
                }
                assert(self.index().dom().contains(k));
            }
            assert forall|k: u32| #[trigger] self.index().dom().contains(k) implies self.index()[k]
                < self.slots@.len() && self.slots@[self.index()[k] as int] is Some && self@[k]
                == before@[k] by {
                assert(before.index().dom().contains(k));
            }
            assert forall|k: u32, l: u32|
                #![trigger self.index().dom().contains(k), self.index().dom().contains(l)]
                self.index().dom().contains(k) && self.index().dom().contains(l) && self.index()[k]
                    == self.index()[l] implies k == l by {
                assert(before.index().dom().contains(k) && before.index().dom().contains(l));
            }
            assert(self@ =~= before@.restrict(before@.dom().filter(|k: u32| k > key)));
        }
    }
}

} // verus!

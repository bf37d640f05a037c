//! Keys by which queue messages are ordered.
use crate::ids::HashBytes;
use vstd::prelude::*;

verus! {

/// The place of a message in the queue: logical time, then hash.
#[derive(Clone, Copy, Debug, PartialEq, Eq)]
pub struct QueueKey {
    pub lt: u64,
    pub hash: HashBytes,
}

impl Default for QueueKey {
    fn default() -> (r: Self)
        ensures
            r.lt == 0,
            r.hash.is_zero(),
    {
        QueueKey { lt: 0, hash: HashBytes::zero() }
    }
}

impl vstd::std_specs::convert::FromSpecImpl<(u64, HashBytes)> for QueueKey {
    open spec fn obeys_from_spec() -> bool {
        true
    }

    open spec fn from_spec(v: (u64, HashBytes)) -> Self {
        QueueKey { lt: v.0, hash: v.1 }
    }
}

impl From<(u64, HashBytes)> for QueueKey {
    fn from(v: (u64, HashBytes)) -> (r: Self) {
        QueueKey { lt: v.0, hash: v.1 }
    }
}

impl QueueKey {
    /// The order of keys.
    pub open spec fn precedes(&self, other: &Self) -> bool {
        self.lt < other.lt || (self.lt == other.lt && self.hash.value() < other.hash.value())
    }

    /// Whether `next` is this key plus one: the hash grows by one and carries
    /// into the logical time. The greatest key stays as it is.
    pub open spec fn next_is(&self, next: &Self) -> bool {
        if self.is_max() {
            *next == *self
        } else if self.hash.is_max() {
            next.lt == self.lt + 1 && next.hash.is_zero()
        } else {
            next.lt == self.lt && next.hash.value() == self.hash.value() + 1
        }
    }

    /// Whether no key is greater.
    pub open spec fn is_max(&self) -> bool {
        self.lt == u64::MAX && self.hash.is_max()
    }

    /// The least key.
    pub fn min() -> (r: Self)
        ensures
            r.lt == 0,
            r.hash.is_zero(),
    {
        QueueKey { lt: 0, hash: HashBytes::zero() }
    }

    /// The greatest key.
    pub fn max() -> (r: Self)
        ensures
            r.is_max(),
    {
        QueueKey { lt: u64::MAX, hash: HashBytes::max() }
    }

    /// The least key at a logical time.
    pub fn min_for_lt(lt: u64) -> (r: Self)
        ensures
            r.lt == lt,
            r.hash.is_zero(),
    {
        QueueKey { lt, hash: HashBytes::zero() }
    }

    /// The greatest key at a logical time.
    pub fn max_for_lt(lt: u64) -> (r: Self)
        ensures
            r.lt == lt,
            r.hash.is_max(),
    {
        QueueKey { lt, hash: HashBytes::max() }
    }

    /// Whether two keys are the same.
    pub fn same(&self, other: &Self) -> (r: bool)
        ensures
            r == (*self == *other),
    {
        self.lt == other.lt && self.hash.same(&other.hash)
    }

    /// Whether `self` comes before `other`.
    pub fn less(&self, other: &Self) -> (r: bool)
        ensures
            r == self.precedes(other),
    {
        self.lt < other.lt || (self.lt == other.lt && self.hash.less(&other.hash))
    }

    /// The key after this one.
    pub fn next_value(&self) -> (r: Self)
        ensures
            self.next_is(&r),
    {
        let mut bytes: [u8; 32] = self.hash.0;
        let mut i: usize = 32;
        while i > 0
            invariant
                i <= 32,
                forall|j: int| 0 <= j < i ==> bytes@[j] == self.hash@[j],
                forall|j: int| i <= j < 32 ==> self.hash@[j] == 255,
                forall|j: int| i <= j < 32 ==> bytes@[j] == 0,
            decreases i,
        {
            i = i - 1;
            if bytes[i] < 255 {
                bytes[i] = bytes[i] + 1;
                proof {
                    crate::bytes::lemma_be_nat_increment(self.hash@, bytes@, i as int);
                }
                return QueueKey { lt: self.lt, hash: HashBytes(bytes) };
            }
            bytes[i] = 0;
        }
        if self.lt == u64::MAX {
            return *self;
        }
        QueueKey { lt: self.lt + 1, hash: HashBytes(bytes) }
    }

    /// The logical time and the hash.
    pub fn split(self) -> (r: (u64, HashBytes))
        ensures
            r == (self.lt, self.hash),
    {
        (self.lt, self.hash)
    }
}

/// Two keys neither of which precedes the other are the same key.
pub proof fn law_key_order_is_total(a: QueueKey, b: QueueKey)
    ensures
        a == b || a.precedes(&b) || b.precedes(&a),
        !(a.precedes(&b) && b.precedes(&a)),
{
    if a.lt == b.lt && a.hash.value() == b.hash.value() {
        crate::bytes::lemma_be_nat_injective(a.hash@, b.hash@);
        crate::ids::lemma_hash_ext(a.hash, b.hash);
    }
}

/// The next key is the successor: it comes after the key, unless that is the
/// greatest, and no key lies between the two.
pub proof fn law_next_value_is_the_successor(key: QueueKey, next: QueueKey, other: QueueKey)
    requires
        !key.is_max(),
        key.next_is(&next),
    ensures
        key.precedes(&next),
        key.precedes(&other) ==> other == next || next.precedes(&other),
{
    law_key_order_is_total(other, next);
    if key.hash.is_max() {
        crate::bytes::lemma_be_nat_max(other.hash@, key.hash@);
        crate::bytes::lemma_be_nat_zero(next.hash@);
    }
}

/// Every key of a logical time lies between the least and the greatest of it.
pub proof fn law_lt_bounds(key: QueueKey, low: QueueKey, high: QueueKey)
    requires
        low.lt == key.lt,
        high.lt == key.lt,
        low.hash.is_zero(),
        high.hash.is_max(),
    ensures
        !key.precedes(&low),
        !high.precedes(&key),
{
    crate::bytes::lemma_be_nat_zero(low.hash@);
    crate::bytes::lemma_be_nat_max(key.hash@, high.hash@);
}

/// The greatest key comes after every other one, and no other key does.
pub proof fn law_greatest_key_comes_last(key: QueueKey, other: QueueKey)
    ensures
        key.is_max() ==> !key.precedes(&other),
        key.is_max() && other.is_max() ==> key == other,
        key.is_max() && !other.is_max() ==> other.precedes(&key),
{
    if key.is_max() {
        crate::bytes::lemma_be_nat_max(other.hash@, key.hash@);
        law_key_order_is_total(key, other);
        if other.is_max() {
            crate::bytes::lemma_be_nat_max(key.hash@, other.hash@);
        }
    }
}

} // verus!

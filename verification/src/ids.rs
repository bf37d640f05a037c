//! Identifiers shared by every part of the node.
use crate::bytes::{bytes_equal, bytes_less};
use vstd::prelude::*;

verus! {

/// The workchain of the masterchain.
pub const MASTERCHAIN_WORKCHAIN: i32 = -1;

/// The prefix of a shard that covers its whole workchain.
pub const PREFIX_FULL: u64 = 0x8000_0000_0000_0000;

/// The bits of a shard prefix that no valid shard uses.
pub const UNUSED_PREFIX_BITS: u64 = 7;

/// A 256-bit hash, ordered as a big-endian number.
#[derive(Clone, Copy, Debug, PartialEq, Eq)]
pub struct HashBytes(pub [u8; 32]);

impl View for HashBytes {
    type V = Seq<u8>;

    open spec fn view(&self) -> Seq<u8> {
        self.0@
    }
}

impl HashBytes {
    /// Whether two hashes are the same.
    pub fn same(&self, other: &Self) -> (r: bool)
        ensures
            r == (*self == *other),
    {
        let r = bytes_equal(self.0.as_slice(), other.0.as_slice());
        proof {
            if r {
                lemma_hash_ext(*self, *other);
            }
        }
        r
    }

    /// The hash read as a number.
    pub open spec fn value(&self) -> nat {
        crate::bytes::be_nat(self@)
    }

    /// Whether `self` precedes `other`.
    pub fn less(&self, other: &Self) -> (r: bool)
        ensures
            r == (self.value() < other.value()),
    {
        bytes_less(self.0.as_slice(), other.0.as_slice())
    }

    /// Whether no bit is set.
    pub open spec fn is_zero(&self) -> bool {
        forall|i: int| 0 <= i < 32 ==> self@[i] == 0
    }

    /// Whether every bit is set.
    pub open spec fn is_max(&self) -> bool {
        forall|i: int| 0 <= i < 32 ==> self@[i] == 255
    }

    /// The hash that has no bit set.
    pub fn zero() -> (r: Self)
        ensures
            r.is_zero(),
    {
        let bytes: [u8; 32] = [0u8; 32];
        proof {
            vstd::array::axiom_spec_array_fill_for_copy_type::<u8, 32>(0u8);
        }
        HashBytes(bytes)
    }

    /// The hash that has every bit set.
    pub fn max() -> (r: Self)
        ensures
            r.is_max(),
    {
        let bytes: [u8; 32] = [255u8; 32];
        proof {
            vstd::array::axiom_spec_array_fill_for_copy_type::<u8, 32>(255u8);
        }
        HashBytes(bytes)
    }
}

/// Hashes with the same bytes are the same hash.
pub proof fn lemma_hash_ext(a: HashBytes, b: HashBytes)
    requires
        a@ == b@,
    ensures
        a == b,
{
    assert(a.0 =~= b.0);
}

/// Hashes that read as the same number are the same hash.
pub proof fn lemma_hash_values(a: HashBytes, b: HashBytes)
    ensures
        a.value() == b.value() ==> a == b,
{
    if a.value() == b.value() {
        crate::bytes::lemma_be_nat_injective(a@, b@);
        lemma_hash_ext(a, b);
    }
}

/// A part of a workchain: the accounts whose addresses start with a prefix.
/// The lowest set bit of `prefix` ends the prefix and is not part of it.
#[derive(Clone, Copy, Debug, PartialEq, Eq, Structural, PartialOrd, Ord, Hash)]
pub struct ShardIdent {
    pub workchain: i32,
    pub prefix: u64,
}

impl ShardIdent {
    /// Whether the parts form a shard that can exist.
    pub open spec fn valid_parts(workchain: i32, prefix: u64) -> bool {
        &&& prefix != 0
        &&& prefix & UNUSED_PREFIX_BITS == 0
        &&& workchain == MASTERCHAIN_WORKCHAIN ==> prefix == PREFIX_FULL
    }

    /// Whether this shard can exist.
    pub open spec fn valid(&self) -> bool {
        Self::valid_parts(self.workchain, self.prefix)
    }

    /// The order of shards: by workchain, then by prefix.
    pub open spec fn precedes(&self, other: &Self) -> bool {
        self.workchain < other.workchain || (self.workchain == other.workchain && self.prefix
            < other.prefix)
    }

    /// Makes a shard from its parts, if they are valid.
    pub fn new(workchain: i32, prefix: u64) -> (r: Option<Self>)
        ensures
            r is Some <==> Self::valid_parts(workchain, prefix),
            r matches Some(s) ==> s.workchain == workchain && s.prefix == prefix,
    {
        if prefix == 0 || prefix & UNUSED_PREFIX_BITS != 0 || (workchain == MASTERCHAIN_WORKCHAIN
            && prefix != PREFIX_FULL) {
            None
        } else {
            Some(ShardIdent { workchain, prefix })
        }
    }

    /// The shard that covers a whole workchain.
    #[verifier::allow_in_spec]
    pub fn new_full(workchain: i32) -> Self
        returns
            (ShardIdent { workchain, prefix: PREFIX_FULL }),
    {
        ShardIdent { workchain, prefix: PREFIX_FULL }
    }

    /// The only shard of the masterchain.
    #[verifier::allow_in_spec]
    pub fn masterchain() -> Self
        returns
            (ShardIdent { workchain: MASTERCHAIN_WORKCHAIN, prefix: PREFIX_FULL }),
    {
        ShardIdent { workchain: MASTERCHAIN_WORKCHAIN, prefix: PREFIX_FULL }
    }

    /// The shard of the base workchain before any split.
    #[verifier::allow_in_spec]
    pub fn basechain() -> Self
        returns
            (ShardIdent { workchain: 0, prefix: PREFIX_FULL }),
    {
        ShardIdent { workchain: 0, prefix: PREFIX_FULL }
    }

    /// Whether the shard belongs to the masterchain.
    #[verifier::allow_in_spec]
    pub fn is_masterchain(&self) -> bool
        returns
            self.workchain == MASTERCHAIN_WORKCHAIN,
    {
        self.workchain == MASTERCHAIN_WORKCHAIN
    }

    /// Whether `self` comes before `other`.
    pub fn less(&self, other: &Self) -> (r: bool)
        ensures
            r == self.precedes(other),
    {
        self.workchain < other.workchain || (self.workchain == other.workchain && self.prefix
            < other.prefix)
    }
}

/// A block id without its hashes.
#[derive(Clone, Copy, Debug, PartialEq, Eq, Structural, PartialOrd, Ord, Hash)]
pub struct BlockIdShort {
    pub shard: ShardIdent,
    pub seqno: u32,
}

impl BlockIdShort {
    /// Whether the block belongs to the masterchain.
    #[verifier::allow_in_spec]
    pub fn is_masterchain(&self) -> bool
        returns
            self.shard.is_masterchain(),
    {
        self.shard.is_masterchain()
    }

    /// The id of the block that follows in the same shard.
    pub fn get_next_id_short(&self) -> (r: BlockIdShort)
        requires
            self.seqno < u32::MAX,
        ensures
            r.shard == self.shard,
            r.seqno == self.seqno + 1,
    {
        BlockIdShort { shard: self.shard, seqno: self.seqno + 1 }
    }
}

/// A full block id.
#[derive(Clone, Copy, Debug, PartialEq, Eq)]
pub struct BlockId {
    pub shard: ShardIdent,
    pub seqno: u32,
    pub root_hash: HashBytes,
    pub file_hash: HashBytes,
}

impl BlockId {
    /// Whether two ids are the same.
    pub fn same(&self, other: &Self) -> (r: bool)
        ensures
            r == (*self == *other),
    {
        self.shard == other.shard && self.seqno == other.seqno && self.root_hash.same(
            &other.root_hash,
        ) && self.file_hash.same(&other.file_hash)
    }

    /// Whether the block belongs to the masterchain.
    #[verifier::allow_in_spec]
    pub fn is_masterchain(&self) -> bool
        returns
            self.shard.is_masterchain(),
    {
        self.shard.is_masterchain()
    }

    /// The id without the hashes.
    #[verifier::allow_in_spec]
    pub fn as_short_id(&self) -> BlockIdShort
        returns
            (BlockIdShort { shard: self.shard, seqno: self.seqno }),
    {
        BlockIdShort { shard: self.shard, seqno: self.seqno }
    }

    /// The id of the block that follows in the same shard.
    pub fn get_next_id_short(&self) -> (r: BlockIdShort)
        requires
            self.seqno < u32::MAX,
        ensures
            r.shard == self.shard,
            r.seqno == self.seqno + 1,
    {
        BlockIdShort { shard: self.shard, seqno: self.seqno + 1 }
    }

    /// The order of block ids: by shard, number, root hash, file hash.
    pub open spec fn precedes(&self, other: &Self) -> bool {
        ||| self.shard.precedes(&other.shard)
        ||| self.shard == other.shard && self.seqno < other.seqno
        ||| self.shard == other.shard && self.seqno == other.seqno && self.root_hash.value()
            < other.root_hash.value()
        ||| self.shard == other.shard && self.seqno == other.seqno && self.root_hash
            == other.root_hash && self.file_hash.value() < other.file_hash.value()
    }

    /// Whether `self` comes before `other`.
    pub fn less(&self, other: &Self) -> (r: bool)
        ensures
            r == self.precedes(other),
    {
        if self.shard.less(&other.shard) {
            return true;
        }
        if self.shard != other.shard {
            return false;
        }
        if self.seqno != other.seqno {
            return self.seqno < other.seqno;
        }
        if self.root_hash.less(&other.root_hash) {
            return true;
        }
        self.root_hash.same(&other.root_hash) && self.file_hash.less(&other.file_hash)
    }

    /// The placeholder id: the masterchain, number zero, zero hashes.
    pub open spec fn is_default(&self) -> bool {
        &&& self.shard == ShardIdent::masterchain()
        &&& self.seqno == 0
        &&& self.root_hash.is_zero()
        &&& self.file_hash.is_zero()
    }
}

impl Default for BlockId {
    fn default() -> (r: Self)
        ensures
            r.is_default(),
    {
        BlockId {
            shard: ShardIdent::masterchain(),
            seqno: 0,
            root_hash: HashBytes::zero(),
            file_hash: HashBytes::zero(),
        }
    }
}

/// A shard can exist if its prefix ends somewhere, at most sixty bits long. The
/// masterchain is not divided.
pub proof fn law_shards_that_can_exist(workchain: i32, prefix: u64)
    ensures
        ShardIdent::valid_parts(workchain, prefix) <==> prefix != 0 && prefix % 8 == 0 && (workchain
            == -1 ==> prefix == 0x8000_0000_0000_0000),
{
    assert(prefix & 7 == prefix % 8) by (bit_vector);
}

/// Shards are ordered: by workchain first.
pub proof fn law_shard_order_is_total(a: ShardIdent, b: ShardIdent, c: ShardIdent)
    ensures
        a == b || a.precedes(&b) || b.precedes(&a),
        !(a.precedes(&b) && b.precedes(&a)),
        a.precedes(&b) && b.precedes(&c) ==> a.precedes(&c),
        a.workchain < b.workchain ==> a.precedes(&b),
        a.workchain == b.workchain && a.prefix < b.prefix ==> a.precedes(&b),
{
}

/// Block ids are ordered: by shard, then by number, then by hashes.
pub proof fn law_block_order_is_total(a: BlockId, b: BlockId)
    ensures
        a == b || a.precedes(&b) || b.precedes(&a),
        !(a.precedes(&b) && b.precedes(&a)),
        a.shard.precedes(&b.shard) ==> a.precedes(&b),
        a.shard == b.shard && a.seqno < b.seqno ==> a.precedes(&b),
        a.shard == b.shard && a.seqno == b.seqno && a.root_hash.value() < b.root_hash.value()
            ==> a.precedes(&b),
{
    lemma_hash_values(a.root_hash, b.root_hash);
    lemma_hash_values(a.file_hash, b.file_hash);
}

/// No hash is below that without bits, and none above that with all bits.
pub proof fn law_hashes_lie_between_zero_and_max(low: HashBytes, hash: HashBytes, high: HashBytes)
    requires
        low.is_zero(),
        high.is_max(),
    ensures
        low.value() == 0,
        hash.value() <= high.value(),
{
    crate::bytes::lemma_be_nat_zero(low@);
    crate::bytes::lemma_be_nat_max(hash@, high@);
}

/// The placeholder id is one: no other id takes its place.
pub proof fn law_placeholder_is_unique(a: BlockId, b: BlockId)
    requires
        a.is_default(),
    ensures
        a.seqno == 0,
        a.shard.workchain == -1,
        a.root_hash.value() == 0,
        a.file_hash.value() == 0,
        b.is_default() ==> a == b,
{
    crate::bytes::lemma_be_nat_zero(a.root_hash@);
    crate::bytes::lemma_be_nat_zero(a.file_hash@);
    if b.is_default() {
        crate::bytes::lemma_be_nat_zero(b.root_hash@);
        crate::bytes::lemma_be_nat_zero(b.file_hash@);
        lemma_hash_values(a.root_hash, b.root_hash);
        lemma_hash_values(a.file_hash, b.file_hash);
    }
}

/// A whole workchain is the shard whose prefix ends at once. The masterchain is that of
/// workchain -1, the base workchain that of workchain 0; both can exist.
pub proof fn law_whole_workchains(workchain: i32)
    ensures
        ShardIdent::new_full(workchain).workchain == workchain,
        ShardIdent::new_full(workchain).prefix == 0x8000_0000_0000_0000,
        ShardIdent::new_full(workchain).valid(),
        ShardIdent::masterchain() == ShardIdent::new_full((-1) as i32),
        ShardIdent::basechain() == ShardIdent::new_full(0),
        ShardIdent::new_full(workchain).is_masterchain() <==> workchain == -1,
{
    law_shards_that_can_exist(workchain, 0x8000_0000_0000_0000);
}

/// A short id names the same place, and a block belongs to the masterchain if its shard
/// does.
pub proof fn law_short_id_names_the_place(id: BlockId)
    ensures
        id.as_short_id().shard == id.shard,
        id.as_short_id().seqno == id.seqno,
        id.is_masterchain() <==> id.shard.workchain == -1,
        id.as_short_id().is_masterchain() <==> id.is_masterchain(),
{
}

} // verus!

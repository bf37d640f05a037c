//! Types that the collator, the validator and the manager share.
use crate::ids::{BlockId, HashBytes, ShardIdent, PREFIX_FULL};
use crate::queue::addr::{IntAddr, ProcessedTo};
use crate::shard_map::ShardMap;
use vstd::prelude::*;

verus! {

pub const CAP_CREATE_STATS_ENABLED: u64 = 0x2;

pub const CAP_BOUNCE_MSG_BODY: u64 = 0x4;

pub const CAP_REPORT_VERSION: u64 = 0x8;

pub const CAP_SHORT_DEQUEUE: u64 = 0x20;

pub const CAP_FAST_STORAGE_STAT: u64 = 0x80;

pub const CAP_INIT_CODE_HASH: u64 = 0x100;

pub const CAP_OFF_HYPERCUBE: u64 = 0x200;

pub const CAP_MY_CODE: u64 = 0x400;

pub const CAP_FIX_TUPLE_INDEX_BUG: u64 = 0x1000;

pub const CAP_FULL_BODY_IN_BOUNCED: u64 = 0x1_0000;

pub const CAP_STORAGE_FEE_TO_TVM: u64 = 0x2_0000;

pub const CAPS_TVM_BUGFIXES_2022: u64 = 0x20_0000;

pub const CAP_WORKCHAINS: u64 = 0x40_0000;

pub const CAP_STCONT_NEW_FORMAT: u64 = 0x80_0000;

pub const CAP_FAST_STORAGE_STAT_BUGFIX: u64 = 0x100_0000;

pub const CAP_RESOLVE_MERKLE_CELL: u64 = 0x200_0000;

pub const CAP_BOUNCE_AFTER_FAILED_ACTION: u64 = 0x800_0000;

pub const CAP_FEE_IN_GAS_UNITS: u64 = 0x2000_0000;

pub const CAP_SUSPENDED_LIST: u64 = 0x8000_0000;

/// A set of protocol features, one bit for each.
#[derive(Clone, Copy, Debug, PartialEq, Eq, Structural)]
pub struct GlobalCapabilities(pub u64);

/// The features that blocks made here rely on.
#[verifier::allow_in_spec]
pub fn supported_capabilities() -> GlobalCapabilities
    returns
        GlobalCapabilities(
            CAP_CREATE_STATS_ENABLED | CAP_BOUNCE_MSG_BODY | CAP_REPORT_VERSION | CAP_SHORT_DEQUEUE
                | CAP_INIT_CODE_HASH | CAP_OFF_HYPERCUBE | CAP_FIX_TUPLE_INDEX_BUG
                | CAP_FAST_STORAGE_STAT | CAP_MY_CODE | CAP_FULL_BODY_IN_BOUNCED
                | CAP_STORAGE_FEE_TO_TVM | CAP_WORKCHAINS | CAP_STCONT_NEW_FORMAT
                | CAP_FAST_STORAGE_STAT_BUGFIX | CAP_RESOLVE_MERKLE_CELL | CAP_FEE_IN_GAS_UNITS
                | CAP_BOUNCE_AFTER_FAILED_ACTION | CAP_SUSPENDED_LIST | CAPS_TVM_BUGFIXES_2022,
        ),
{
    GlobalCapabilities(
        CAP_CREATE_STATS_ENABLED | CAP_BOUNCE_MSG_BODY | CAP_REPORT_VERSION | CAP_SHORT_DEQUEUE
            | CAP_INIT_CODE_HASH | CAP_OFF_HYPERCUBE | CAP_FIX_TUPLE_INDEX_BUG
            | CAP_FAST_STORAGE_STAT | CAP_MY_CODE | CAP_FULL_BODY_IN_BOUNCED
            | CAP_STORAGE_FEE_TO_TVM | CAP_WORKCHAINS | CAP_STCONT_NEW_FORMAT
            | CAP_FAST_STORAGE_STAT_BUGFIX | CAP_RESOLVE_MERKLE_CELL | CAP_FEE_IN_GAS_UNITS
            | CAP_BOUNCE_AFTER_FAILED_ACTION | CAP_SUSPENDED_LIST | CAPS_TVM_BUGFIXES_2022,
    )
}

/// How the collator behaves.
#[derive(Clone, Copy, Debug, PartialEq, Eq, Structural)]
pub struct CollatorConfig {
    pub supported_block_version: u32,
    pub supported_capabilities: GlobalCapabilities,
    pub min_mc_block_delta_from_bc_to_sync: u32,
    pub check_value_flow: bool,
    pub validate_config: bool,
    pub fast_sync: bool,
}

impl CollatorConfig {
    /// The configuration made of the settings that a file can hold. The block
    /// version and the capabilities are those of this node.
    pub fn from_settings(
        min_mc_block_delta_from_bc_to_sync: u32,
        check_value_flow: bool,
        validate_config: bool,
        fast_sync: Option<bool>,
    ) -> (r: Self)
        ensures
            r.supported_block_version == 100,
            r.supported_capabilities == supported_capabilities(),
            r.min_mc_block_delta_from_bc_to_sync == min_mc_block_delta_from_bc_to_sync,
            r.check_value_flow == check_value_flow,
            r.validate_config == validate_config,
            r.fast_sync == (fast_sync is None || fast_sync->0),
    {
        CollatorConfig {
            supported_block_version: 100,
            supported_capabilities: supported_capabilities(),
            min_mc_block_delta_from_bc_to_sync,
            check_value_flow,
            validate_config,
            fast_sync: match fast_sync {
                Some(x) => x,
                None => true,
            },
        }
    }
}

impl Default for CollatorConfig {
    fn default() -> (r: Self)
        ensures
            r == (CollatorConfig {
                supported_block_version: 100,
                supported_capabilities: supported_capabilities(),
                min_mc_block_delta_from_bc_to_sync: 3,
                check_value_flow: false,
                validate_config: true,
                fast_sync: true,
            }),
    {
        CollatorConfig::from_settings(3, false, true, None)
    }
}

/// What the masterchain knows of the top block of a shard.
#[derive(Clone, Copy, Debug, PartialEq, Eq)]
pub struct ShardDescriptionShort {
    pub ext_processed_to_anchor_id: u32,
    pub top_sc_block_updated: bool,
    pub end_lt: u64,
    pub seqno: u32,
    pub root_hash: HashBytes,
    pub file_hash: HashBytes,
}

impl ShardDescriptionShort {
    /// The id of the top block of the shard.
    #[verifier::allow_in_spec]
    pub fn get_block_id(&self, shard_id: ShardIdent) -> BlockId
        returns
            (BlockId {
                shard: shard_id,
                seqno: self.seqno,
                root_hash: self.root_hash,
                file_hash: self.file_hash,
            }),
    {
        BlockId {
            shard: shard_id,
            seqno: self.seqno,
            root_hash: self.root_hash,
            file_hash: self.file_hash,
        }
    }
}

/// A reference to a block by its hashes.
#[derive(Clone, Copy, Debug, PartialEq, Eq)]
pub struct BlockRef {
    pub end_lt: u64,
    pub seqno: u32,
    pub root_hash: HashBytes,
    pub file_hash: HashBytes,
}

/// How far the messages of each shard are processed in one queue partition.
#[derive(Debug, PartialEq, Eq)]
pub struct PartitionProcessedTo {
    pub partition: u16,
    pub processed_to: Vec<ProcessedTo>,
}

/// How far messages are processed, by partition.
pub type ProcessedToByPartitions = Vec<PartitionProcessedTo>;

/// What a master state says that the manager needs.
pub struct McState {
    pub global_id: i32,
    pub block_id: BlockId,
    /// Whether the block of this state is a key block.
    pub after_key_block: bool,
    /// The number of the last key block before this one.
    pub last_key_block_seqno: Option<u32>,
    pub gen_lt: u64,
    pub gen_chain_time: u64,
    pub shards: Vec<(ShardIdent, ShardDescriptionShort)>,
    pub catchain_seqno: u32,
    /// The least anchor to which the master block itself has processed externals.
    pub mc_processed_to_anchor_id: u32,
}

/// Whether an anchor is the least of those to which the master block and its top
/// shard blocks have processed.
pub open spec fn is_top_processed_to_anchor(
    anchor: u32,
    shards: Seq<(ShardIdent, ShardDescriptionShort)>,
    mc_processed_to_anchor_id: u32,
) -> bool {
    &&& anchor <= mc_processed_to_anchor_id
    &&& forall|i: int|
        0 <= i < shards.len() ==> anchor <= (#[trigger] shards[i]).1.ext_processed_to_anchor_id
    &&& anchor == mc_processed_to_anchor_id || exists|i: int|
        0 <= i < shards.len() && anchor == (#[trigger] shards[i]).1.ext_processed_to_anchor_id
}

/// Finds the least anchor to which the master block and its top shard blocks have
/// processed.
pub fn detect_top_processed_to_anchor(
    shards: &Vec<(ShardIdent, ShardDescriptionShort)>,
    mc_processed_to_anchor_id: u32,
) -> (r: u32)
    ensures
        is_top_processed_to_anchor(r, shards@, mc_processed_to_anchor_id),
{
    let mut anchor: u32 = mc_processed_to_anchor_id;
    let mut i: usize = 0;
    while i < shards.len()
        invariant
            i <= shards@.len(),
            is_top_processed_to_anchor(anchor, shards@.take(i as int), mc_processed_to_anchor_id),
        decreases shards@.len() - i,
    {
        let ghost seen = shards@.take(i as int);
        let ghost next = shards@.take(i + 1);
        let shard_anchor: u32 = shards[i].1.ext_processed_to_anchor_id;
        proof {
            assert(next =~= seen.push(shards@[i as int]));
            assert(next[i as int].1.ext_processed_to_anchor_id == shard_anchor);
            if anchor != mc_processed_to_anchor_id {
                let j = choose|j: int|
                    0 <= j < seen.len() && anchor == (#[trigger] seen[j]).1.ext_processed_to_anchor_id;
                assert(next[j] == seen[j]);
            }
        }
        if shard_anchor < anchor {
            anchor = shard_anchor;
        }
        i = i + 1;
    }
    assert(shards@.take(i as int) =~= shards@);
    anchor
}

/// A master state together with what its shards have processed.
pub struct McData {
    pub global_id: i32,
    pub block_id: BlockId,
    /// The last known key block, which is this block if it is one.
    pub prev_key_block_seqno: u32,
    pub gen_lt: u64,
    pub gen_chain_time: u64,
    pub shards: Vec<(ShardIdent, ShardDescriptionShort)>,
    pub catchain_seqno: u32,
    /// The least of the anchors to which the master block and its top shard blocks
    /// have processed.
    pub top_processed_to_anchor: u32,
    pub shards_processed_to_by_partitions: ShardMap<(bool, ProcessedToByPartitions)>,
}

impl McData {
    /// Collects what the manager needs from a master state. What the master
    /// itself has processed is not kept with the shards.
    pub fn load_from_state(
        state: McState,
        all_shards_processed_to_by_partitions: ShardMap<(bool, ProcessedToByPartitions)>,
    ) -> (r: McData)
        requires
            all_shards_processed_to_by_partitions.wf(),
        ensures
            r.global_id == state.global_id,
            r.block_id == state.block_id,
            r.prev_key_block_seqno == (if state.after_key_block {
                state.block_id.seqno
            } else if state.last_key_block_seqno is Some {
                state.last_key_block_seqno->0
            } else {
                0
            }),
            r.gen_lt == state.gen_lt,
            r.gen_chain_time == state.gen_chain_time,
            r.shards@ == state.shards@,
            r.catchain_seqno == state.catchain_seqno,
            is_top_processed_to_anchor(
                r.top_processed_to_anchor,
                state.shards@,
                state.mc_processed_to_anchor_id,
            ),
            r.shards_processed_to_by_partitions.wf(),
            r.shards_processed_to_by_partitions@ == crate::shard_map::without_masterchain(
                all_shards_processed_to_by_partitions@,
            ),
    {
        let prev_key_block_seqno: u32 = if state.after_key_block {
            state.block_id.seqno
        } else {
            match state.last_key_block_seqno {
                Some(seqno) => seqno,
                None => 0,
            }
        };
        let top_processed_to_anchor: u32 = detect_top_processed_to_anchor(
            &state.shards,
            state.mc_processed_to_anchor_id,
        );
        let mut processed = all_shards_processed_to_by_partitions;
        processed.remove_masterchain();
        McData {
            global_id: state.global_id,
            block_id: state.block_id,
            prev_key_block_seqno,
            gen_lt: state.gen_lt,
            gen_chain_time: state.gen_chain_time,
            shards: state.shards,
            catchain_seqno: state.catchain_seqno,
            top_processed_to_anchor,
            shards_processed_to_by_partitions: processed,
        }
    }

    /// A reference to the block of this state.
    pub fn make_block_ref(&self) -> (r: BlockRef)
        ensures
            r == (BlockRef {
                end_lt: self.gen_lt,
                seqno: self.block_id.seqno,
                root_hash: self.block_id.root_hash,
                file_hash: self.block_id.file_hash,
            }),
    {
        BlockRef {
            end_lt: self.gen_lt,
            seqno: self.block_id.seqno,
            root_hash: self.block_id.root_hash,
            file_hash: self.block_id.file_hash,
        }
    }

    /// The step to which logical times are aligned.
    pub fn lt_align(&self) -> (r: u64)
        ensures
            r == 1_000_000,
    {
        1_000_000
    }
}

/// A signature.
pub type ArcSignature = [u8; 64];

/// Signatures by the key that made them.
#[derive(Debug)]
pub struct BlockSignatures {
    pub signatures: Vec<(HashBytes, ArcSignature)>,
}

/// A block with the outcome of its validation.
#[derive(Debug)]
pub struct ValidatedBlock {
    pub block: BlockId,
    pub signatures: BlockSignatures,
    pub valid: bool,
}

impl ValidatedBlock {
    pub fn new(block: BlockId, signatures: BlockSignatures, valid: bool) -> (r: Self)
        ensures
            r.block == block,
            r.signatures == signatures,
            r.valid == valid,
    {
        ValidatedBlock { block, signatures, valid }
    }

    pub fn id(&self) -> (r: &BlockId)
        ensures
            *r == self.block,
    {
        &self.block
    }

    pub fn signatures(&self) -> (r: &BlockSignatures)
        ensures
            *r == self.signatures,
    {
        &self.signatures
    }

    pub fn is_valid(&self) -> (r: bool)
        ensures
            r == self.valid,
    {
        self.valid
    }

    pub fn extract_signatures(self) -> (r: BlockSignatures)
        ensures
            r == self.signatures,
    {
        self.signatures
    }
}

/// A validator as the masterchain lists it.
#[derive(Clone, Copy, Debug, PartialEq, Eq)]
pub struct ValidatorDescription {
    pub public_key: HashBytes,
    pub weight: u64,
    pub adnl_addr: Option<HashBytes>,
}

/// The validators of a session.
#[derive(Debug)]
pub struct ValidatorSubsetInfo {
    pub validators: Vec<ValidatorDescription>,
    pub short_hash: u32,
}

/// Names a collation session: shard, number, hash of the validators.
pub type CollationSessionId = (ShardIdent, u32, u32);

/// Names a validation session: number, hash of the validators.
pub type ValidationSessionId = (u32, u32);

/// A collation session of this node.
#[derive(Debug)]
pub struct CollationSessionInfo {
    pub shard: ShardIdent,
    pub seqno: u32,
    pub collators: ValidatorSubsetInfo,
    /// The key by which this node takes part.
    pub current_collator_pubkey: Option<HashBytes>,
}

impl CollationSessionInfo {
    pub fn new(
        shard: ShardIdent,
        seqno: u32,
        collators: ValidatorSubsetInfo,
        current_collator_pubkey: Option<HashBytes>,
    ) -> (r: Self)
        ensures
            r.shard == shard,
            r.seqno == seqno,
            r.collators == collators,
            r.current_collator_pubkey == current_collator_pubkey,
    {
        CollationSessionInfo { shard, seqno, collators, current_collator_pubkey }
    }

    #[verifier::allow_in_spec]
    pub fn id(&self) -> CollationSessionId
        returns
            (self.shard, self.seqno, self.collators.short_hash),
    {
        (self.shard, self.seqno, self.collators.short_hash)
    }

    #[verifier::allow_in_spec]
    pub fn get_validation_session_id(&self) -> ValidationSessionId
        returns
            (self.seqno, self.collators.short_hash),
    {
        (self.seqno, self.collators.short_hash)
    }

    pub fn shard(&self) -> (r: ShardIdent)
        ensures
            r == self.shard,
    {
        self.shard
    }

    pub fn seqno(&self) -> (r: u32)
        ensures
            r == self.seqno,
    {
        self.seqno
    }

    pub fn collators(&self) -> (r: &ValidatorSubsetInfo)
        ensures
            *r == self.collators,
    {
        &self.collators
    }

    pub fn current_collator_pubkey(&self) -> (r: Option<HashBytes>)
        ensures
            r == self.current_collator_pubkey,
    {
        self.current_collator_pubkey
    }
}

/// An address cut down to its first 64 bits.
#[derive(Clone, Copy, Debug, PartialEq, Eq, Structural)]
pub struct ShortAddr {
    pub workchain: i32,
    pub prefix: u64,
}

impl ShortAddr {
    pub fn new(workchain: i32, prefix: u64) -> (r: Self)
        ensures
            r.workchain == workchain,
            r.prefix == prefix,
    {
        ShortAddr { workchain, prefix }
    }

    pub fn workchain(&self) -> (r: i32)
        ensures
            r == self.workchain,
    {
        self.workchain
    }

    pub fn prefix(&self) -> (r: u64)
        ensures
            r == self.prefix,
    {
        self.prefix
    }
}

impl IntAddr {
    /// The account of an address. The account of a variable address is taken
    /// from its bytes, of which there have to be 32.
    pub fn get_address(&self) -> (r: HashBytes)
        requires
            self matches IntAddr::Var(addr) ==> addr.address@.len() == 32,
        ensures
            match self {
                IntAddr::Std(addr) => r == addr.address,
                IntAddr::Var(addr) => r@ == addr.address@,
            },
    {
        match self {
            IntAddr::Std(addr) => addr.address,
            IntAddr::Var(addr) => {
                let mut bytes: [u8; 32] = [0u8; 32];
                let mut i: usize = 0;
                while i < 32
                    invariant
                        i <= 32,
                        addr.address@.len() == 32,
                        forall|j: int| 0 <= j < i ==> bytes@[j] == addr.address@[j],
                    decreases 32 - i,
                {
                    bytes[i] = addr.address[i];
                    i = i + 1;
                }
                assert(bytes@ =~= addr.address@);
                HashBytes(bytes)
            },
        }
    }
}

impl ShardIdent {
    /// How many bits the prefix has.
    pub open spec fn spec_prefix_len(&self) -> int {
        if self.prefix == 0 {
            64
        } else {
            63 - vstd::std_specs::bits::u64_trailing_zeros(self.prefix)
        }
    }

    /// How many bits the prefix has.
    pub fn prefix_len(&self) -> (r: u16)
        ensures
            r == self.spec_prefix_len(),
            r <= 64,
            r == 0 <==> self.prefix == PREFIX_FULL,
    {
        proof {
            vstd::std_specs::bits::axiom_u64_trailing_zeros(self.prefix);
            let p = self.prefix;
            let n = vstd::std_specs::bits::u64_trailing_zeros(p) as u64;
            let k = (64 - n) as u64;
            assert(k == 1 && p << k == 0 && p != 0 ==> p == 0x8000_0000_0000_0000u64)
                by (bit_vector);
            assert(p == 0x8000_0000_0000_0000u64 && n < 64 && (p >> n) & 1u64 == 1u64 ==> n == 63)
                by (bit_vector);
        }
        if self.prefix == 0 {
            64
        } else {
            63 - self.prefix.trailing_zeros() as u16
        }
    }

    /// Whether the addresses that start with the given bits can lie in this
    /// shard: the workchains agree, and so do the bits of the shard's prefix.
    pub fn contains_prefix(&self, workchain_id: i32, prefix_without_tag: u64) -> (r: bool)
        ensures
            r == (self.workchain == workchain_id && (self.prefix == PREFIX_FULL || self.prefix >> (
            64 - self.spec_prefix_len()) as u64 == prefix_without_tag >> (64
                - self.spec_prefix_len()) as u64)),
    {
        if self.workchain == workchain_id {
            if self.prefix == PREFIX_FULL {
                return true;
            }
            let shift: u64 = 64 - self.prefix_len() as u64;
            return (self.prefix >> shift) == (prefix_without_tag >> shift);
        }
        false
    }
}

/// The least anchor is one of those to which was processed, and there is only one.
pub proof fn law_least_anchor_is_unique(
    a: u32,
    b: u32,
    shards: Seq<(ShardIdent, ShardDescriptionShort)>,
    mc_processed_to_anchor_id: u32,
    i: int,
)
    requires
        is_top_processed_to_anchor(a, shards, mc_processed_to_anchor_id),
    ensures
        is_top_processed_to_anchor(b, shards, mc_processed_to_anchor_id) ==> a == b,
        a <= mc_processed_to_anchor_id,
        0 <= i < shards.len() ==> a <= shards[i].1.ext_processed_to_anchor_id,
        shards.len() == 0 ==> a == mc_processed_to_anchor_id,
{
}

/// Behind its prefix a shard has one bit that is set, and then none.
pub proof fn law_one_bit_ends_the_prefix(shard: ShardIdent)
    requires
        shard.prefix != 0,
    ensures
        0 <= shard.spec_prefix_len() <= 63,
        (shard.prefix >> ((63 - shard.spec_prefix_len()) as u64)) & 1u64 == 1u64,
        shard.spec_prefix_len() < 63 ==> shard.prefix << ((1 + shard.spec_prefix_len()) as u64)
            == 0u64,
{
    vstd::std_specs::bits::axiom_u64_trailing_zeros(shard.prefix);
    let n = vstd::std_specs::bits::u64_trailing_zeros(shard.prefix);
    assert((63 - shard.spec_prefix_len()) as u64 == n as u64);
    assert((1 + shard.spec_prefix_len()) as u64 == (64 - n) as u64);
}

/// A session is named by its shard, its number and the hash of its collators, and the
/// session of its validators by the last two.
pub proof fn law_session_is_named_by_its_collators(
    session: CollationSessionInfo,
    shard: ShardDescriptionShort,
    shard_id: ShardIdent,
)
    ensures
        session.id().0 == session.shard,
        session.id().1 == session.get_validation_session_id().0,
        session.id().2 == session.get_validation_session_id().1,
        session.id().1 == session.seqno,
        session.id().2 == session.collators.short_hash,
        shard.get_block_id(shard_id).shard == shard_id,
        shard.get_block_id(shard_id).seqno == shard.seqno,
        shard.get_block_id(shard_id).root_hash == shard.root_hash,
        shard.get_block_id(shard_id).file_hash == shard.file_hash,
{
}

} // verus!

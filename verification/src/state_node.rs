//! What the collator hears of applied blocks.
use crate::cells::{build_block_signatures, build_signature_dict, ConsensusInfo};
use crate::ids::{BlockId, BlockIdShort, HashBytes, ShardIdent};
use crate::models::parts::{PeerId, Signature};
use crate::outside::public_key_tl_hash;
use vstd::prelude::*;

verus! {

/// How far behind the node is: which states it receives.
#[derive(Clone, Copy, Debug, PartialEq, Eq, Structural)]
pub enum CollatorSyncContext {
    Persistent,
    Historical,
    Recent,
}

/// A block that this node made and that was accepted.
#[derive(Debug)]
pub struct AcceptedBlock {
    pub id: BlockId,
    /// The last shard blocks that a master block names.
    pub top_shard_blocks_ids: Vec<BlockId>,
}

/// A state that nobody was told of yet.
#[derive(Clone, Copy, Debug)]
pub struct DelayedState {
    pub block_id: BlockId,
    /// Whether the block came from the network.
    pub is_external: bool,
    pub sync_context: CollatorSyncContext,
}

/// What is waited for.
#[derive(Clone, Copy, Debug)]
pub enum BlockIdToWait {
    Short(BlockIdShort),
    Full(BlockId),
}

impl BlockIdToWait {
    /// The shard of the block.
    #[verifier::allow_in_spec]
    pub fn shard(&self) -> ShardIdent
        returns
            (match *self {
                BlockIdToWait::Short(id) => id.shard,
                BlockIdToWait::Full(id) => id.shard,
            }),
    {
        match self {
            BlockIdToWait::Short(id) => id.shard,
            BlockIdToWait::Full(id) => id.shard,
        }
    }

    /// The number of the block.
    #[verifier::allow_in_spec]
    pub fn seqno(&self) -> u32
        returns
            (match *self {
                BlockIdToWait::Short(id) => id.seqno,
                BlockIdToWait::Full(id) => id.seqno,
            }),
    {
        match self {
            BlockIdToWait::Short(id) => id.seqno,
            BlockIdToWait::Full(id) => id.seqno,
        }
    }

    /// Whether a block is waited for: any block with the shard and the number, or
    /// the one with exactly this id.
    pub open spec fn awaits(self, id: BlockId) -> bool {
        match self {
            BlockIdToWait::Short(short) => short.shard == id.shard && short.seqno == id.seqno,
            BlockIdToWait::Full(full) => full == id,
        }
    }

    /// Whether a block is the one that is waited for.
    pub fn is(&self, other: &BlockId) -> (r: bool)
        ensures
            r == self.awaits(*other),
    {
        match self {
            BlockIdToWait::Short(short) => short.shard == other.shard && short.seqno
                == other.seqno,
            BlockIdToWait::Full(full) => full.same(other),
        }
    }

    /// The block after another one.
    pub fn next(prev_block_id: &BlockId) -> (r: Self)
        requires
            prev_block_id.seqno < u32::MAX,
        ensures
            r.shard() == prev_block_id.shard,
            r.seqno() == prev_block_id.seqno + 1,
            r is Short,
    {
        BlockIdToWait::Short(
            BlockIdShort { shard: prev_block_id.shard, seqno: prev_block_id.seqno + 1 },
        )
    }
}

/// Accepted blocks and the state that was not told of.
#[derive(Debug)]
pub struct StateNode {
    pub blocks: Vec<AcceptedBlock>,
    pub sync_context: CollatorSyncContext,
    pub delayed: Option<DelayedState>,
}

/// The place of a block by shard and number.
pub open spec fn place_of(blocks: Seq<AcceptedBlock>, shard: ShardIdent, seqno: u32) -> Option<
    int,
> {
    if exists|i: int|
        0 <= i < blocks.len() && (#[trigger] blocks[i]).id.shard == shard && blocks[i].id.seqno
            == seqno {
        Some(
            choose|i: int|
                0 <= i < blocks.len() && (#[trigger] blocks[i]).id.shard == shard
                    && blocks[i].id.seqno == seqno,
        )
    } else {
        None
    }
}

/// Whether a block is the last master block before a number.
pub open spec fn is_prev_master(blocks: Seq<AcceptedBlock>, i: int, seqno: u32) -> bool {
    &&& 0 <= i < blocks.len()
    &&& blocks[i].id.shard.is_masterchain()
    &&& blocks[i].id.seqno < seqno
    &&& forall|j: int|
        0 <= j < blocks.len() && (#[trigger] blocks[j]).id.shard.is_masterchain()
            && blocks[j].id.seqno < seqno ==> blocks[j].id.seqno <= blocks[i].id.seqno
}

/// Whether a master block makes a block obsolete: it is that block or one before
/// it, or one of the shard blocks that it names or one before them.
pub open spec fn obsolete_after(master: AcceptedBlock, id: BlockId) -> bool {
    ||| id.shard == master.id.shard && id.seqno <= master.id.seqno
    ||| exists|k: int|
        0 <= k < master.top_shard_blocks_ids@.len() && (
        #[trigger] master.top_shard_blocks_ids@[k]).shard == id.shard && id.seqno
            <= master.top_shard_blocks_ids@[k].seqno
}

/// The blocks of a list that a master block does not make obsolete.
pub open spec fn still_needed(blocks: Seq<AcceptedBlock>, master: AcceptedBlock) -> Seq<
    AcceptedBlock,
> {
    blocks.filter(|b: AcceptedBlock| !obsolete_after(master, b.id))
}

/// Whether two blocks have the same shard and number.
pub open spec fn same_place(a: AcceptedBlock, b: AcceptedBlock) -> bool {
    a.id.shard == b.id.shard && a.id.seqno == b.id.seqno
}

/// Whether no two blocks have the same shard and number.
pub open spec fn distinct_blocks(blocks: Seq<AcceptedBlock>) -> bool {
    forall|i: int, j: int|
        #![trigger blocks[i], blocks[j]]
        0 <= i < j < blocks.len() ==> !same_place(blocks[i], blocks[j])
}

impl StateNode {
    /// Whether no block is listed twice, and a state is kept only from a time at
    /// which the node was behind.
    pub open spec fn wf(&self) -> bool {
        &&& distinct_blocks(self.blocks@)
        &&& self.delayed matches Some(state) ==> state.sync_context
            != CollatorSyncContext::Recent
    }

    /// A node without blocks.
    pub fn new(initial_sync_context: CollatorSyncContext) -> (r: Self)
        ensures
            r.wf(),
            r.blocks@.len() == 0,
            r.sync_context == initial_sync_context,
            r.delayed is None,
    {
        StateNode { blocks: Vec::new(), sync_context: initial_sync_context, delayed: None }
    }

    /// Finds a block by shard and number.
    pub fn find(&self, shard: &ShardIdent, seqno: u32) -> (r: Option<usize>)
        requires
            self.wf(),
        ensures
            match (r, place_of(self.blocks@, *shard, seqno)) {
                (Some(i), Some(j)) => i == j && i < self.blocks@.len()
                    && self.blocks@[i as int].id.shard == *shard
                    && self.blocks@[i as int].id.seqno == seqno,
                (None, None) => true,
                _ => false,
            },
    {
        let mut i: usize = 0;
        while i < self.blocks.len()
            invariant
                self.wf(),
                i <= self.blocks@.len(),
                forall|j: int|
                    0 <= j < i ==> !((#[trigger] self.blocks@[j]).id.shard == *shard
                        && self.blocks@[j].id.seqno == seqno),
            decreases self.blocks@.len() - i,
        {
            if self.blocks[i].id.shard == *shard && self.blocks[i].id.seqno == seqno {
                return Some(i);
            }
            i = i + 1;
        }
        None
    }

    /// Takes note of a block that was accepted, in the place of one with the same
    /// shard and number.
    pub fn accept_block(&mut self, block: AcceptedBlock)
        requires
            old(self).wf(),
        ensures
            final(self).wf(),
            final(self).sync_context == old(self).sync_context,
            final(self).delayed == old(self).delayed,
            final(self).blocks@ == (match place_of(
                old(self).blocks@,
                block.id.shard,
                block.id.seqno,
            ) {
                Some(i) => old(self).blocks@.update(i, block),
                None => old(self).blocks@.push(block),
            }),
    {
        match self.find(&block.id.shard, block.id.seqno) {
            Some(i) => {
                self.blocks.set(i, block);
            },
            None => {
                self.blocks.push(block);
            },
        }
    }

    /// The block that is waited for, if it was accepted. One with the same shard and
    /// number but other hashes is not an answer to a full id.
    pub fn find_awaited(&self, wait: &BlockIdToWait) -> (r: Option<&AcceptedBlock>)
        requires
            self.wf(),
        ensures
            r matches Some(block) ==> self.blocks@.contains(*block) && wait.awaits(block.id),
            r is None ==> forall|i: int|
                0 <= i < self.blocks@.len() ==> !wait.awaits((#[trigger] self.blocks@[i]).id),
    {
        match self.find(&wait.shard(), wait.seqno()) {
            Some(i) => {
                if wait.is(&self.blocks[i].id) {
                    Some(&self.blocks[i])
                } else {
                    proof {
                        assert forall|j: int| 0 <= j < self.blocks@.len() implies !wait.awaits(
                            (#[trigger] self.blocks@[j]).id,
                        ) by {
                            if j != i {
                                assert(!same_place(self.blocks@[j], self.blocks@[i as int]));
                            }
                        }
                    }
                    None
                }
            },
            None => None,
        }
    }

    /// Finds the last master block before a number.
    fn find_prev_master(&self, seqno: u32) -> (r: Option<usize>)
        ensures
            match r {
                Some(i) => is_prev_master(self.blocks@, i as int, seqno),
                None => forall|j: int|
                    0 <= j < self.blocks@.len() ==> !((
                    #[trigger] self.blocks@[j]).id.shard.is_masterchain() && self.blocks@[j].id.seqno
                        < seqno),
            },
    {
        let mut best: Option<usize> = None;
        let mut i: usize = 0;
        while i < self.blocks.len()
            invariant
                i <= self.blocks@.len(),
                match best {
                    Some(b) => {
                        &&& b < i
                        &&& self.blocks@[b as int].id.shard.is_masterchain()
                        &&& self.blocks@[b as int].id.seqno < seqno
                        &&& forall|j: int|
                            0 <= j < i && (#[trigger] self.blocks@[j]).id.shard.is_masterchain()
                                && self.blocks@[j].id.seqno < seqno ==> self.blocks@[j].id.seqno
                                <= self.blocks@[b as int].id.seqno
                    },
                    None => forall|j: int|
                        0 <= j < i ==> !((#[trigger] self.blocks@[j]).id.shard.is_masterchain()
                            && self.blocks@[j].id.seqno < seqno),
                },
            decreases self.blocks@.len() - i,
        {
            let id: &BlockId = &self.blocks[i].id;
            if id.shard.is_masterchain() && id.seqno < seqno {
                let better = match best {
                    Some(b) => self.blocks[b].id.seqno < id.seqno,
                    None => true,
                };
                if better {
                    best = Some(i);
                }
            }
            i = i + 1;
        }
        best
    }

    /// Handles the state of a block that was applied. The one who listens is told
    /// at once if the node receives recent states: whether the block came from
    /// the network is returned. Otherwise the state is kept in the place of an
    /// earlier one. With a master block, what the one before it made obsolete is
    /// forgotten.
    pub fn handle_state(&mut self, block_id: &BlockId) -> (r: Option<bool>)
        requires
            old(self).wf(),
        ensures
            final(self).wf(),
            final(self).sync_context == old(self).sync_context,
            ({
                let is_external = place_of(old(self).blocks@, block_id.shard, block_id.seqno)
                    is None;
                if old(self).sync_context == CollatorSyncContext::Recent {
                    r == Some(is_external) && final(self).delayed is None
                } else {
                    r is None && final(self).delayed == Some(
                        DelayedState {
                            block_id: *block_id,
                            is_external,
                            sync_context: old(self).sync_context,
                        },
                    )
                }
            }),
            if block_id.shard.is_masterchain() && exists|i: int|
                is_prev_master(old(self).blocks@, i, block_id.seqno) {
                exists|i: int|
                    is_prev_master(old(self).blocks@, i, block_id.seqno) && final(self).blocks@
                        == still_needed(old(self).blocks@, #[trigger] old(self).blocks@[i])
            } else {
                final(self).blocks@ == old(self).blocks@
            },
    {
        let is_external = self.find(&block_id.shard, block_id.seqno).is_none();
        let r = if self.sync_context == CollatorSyncContext::Recent {
            self.delayed = None;
            Some(is_external)
        } else {
            self.delayed =
            Some(
                DelayedState { block_id: *block_id, is_external, sync_context: self.sync_context },
            );
            None
        };
        if block_id.shard.is_masterchain() {
            if let Some(i) = self.find_prev_master(block_id.seqno) {
                self.forget_obsolete(i);
                assert(is_prev_master(old(self).blocks@, i as int, block_id.seqno));
            }
        }
        r
    }

    /// Forgets what a master block made obsolete.
    fn forget_obsolete(&mut self, i: usize)
        requires
            old(self).wf(),
            i < old(self).blocks@.len(),
        ensures
            final(self).wf(),
            final(self).sync_context == old(self).sync_context,
            final(self).delayed == old(self).delayed,
            final(self).blocks@ == still_needed(old(self).blocks@, old(self).blocks@[i as int]),
    {
        let ghost all = self.blocks@;
        let ghost master = self.blocks@[i as int];
        let bounds = obsolete_bounds(&self.blocks[i]);
        let mut kept: Vec<AcceptedBlock> = Vec::new();
        let ghost mut n: int = 0;
        proof {
            reveal(Seq::filter);
            assert(all.take(0).filter(|b: AcceptedBlock| !obsolete_after(master, b.id))
                =~= Seq::<AcceptedBlock>::empty());
            assert(all.skip(0) =~= all);
        }
        while self.blocks.len() > 0
            invariant
                self.sync_context == old(self).sync_context,
                self.delayed == old(self).delayed,
                0 <= n <= all.len(),
                self.blocks@ == all.skip(n),
                bounds_of(master, bounds@),
                kept@ == still_needed(all.take(n), master),
                distinct_blocks(all),
                distinct_blocks(kept@),
                forall|a: int, j: int|
                    #![trigger kept@[a], all[j]]
                    0 <= a < kept@.len() && n <= j < all.len() ==> !same_place(kept@[a], all[j]),
            decreases self.blocks@.len(),
        {
            let block = self.blocks.remove(0);
            let obsolete = is_below(&bounds, &block.id);
            proof {
                lemma_bounds(master, bounds@, block.id);
                reveal(Seq::filter);
                assert(all.take(n + 1).drop_last() =~= all.take(n));
                assert(all.take(n + 1).last() == all[n]);
                assert(all.skip(n).remove(0) =~= all.skip(n + 1));
                assert(block == all[n]);
                n = n + 1;
            }
            if !obsolete {
                kept.push(block);
            }
        }
        assert(all.take(n) =~= all);
        self.blocks = kept;
    }

    /// Sets how far behind the node is, and gives the state that has to be told of
    /// now: one that was kept while the node was behind.
    pub fn set_sync_context(&mut self, sync_context: CollatorSyncContext) -> (r: Option<
        DelayedState,
    >)
        requires
            old(self).wf(),
        ensures
            final(self).wf(),
            final(self).blocks == old(self).blocks,
            final(self).sync_context == sync_context,
            ({
                let send = old(self).sync_context != sync_context && sync_context
                    == CollatorSyncContext::Recent && (old(self).delayed matches Some(state)
                    && state.sync_context != CollatorSyncContext::Recent);
                &&& r == (if send {
                    old(self).delayed
                } else {
                    None
                })
                &&& final(self).delayed == (if send {
                    None
                } else {
                    old(self).delayed
                })
            }),
    {
        if self.sync_context == sync_context {
            return None;
        }
        self.sync_context = sync_context;
        match self.delayed {
            Some(state) => {
                if sync_context == CollatorSyncContext::Recent && state.sync_context
                    != CollatorSyncContext::Recent {
                    self.delayed = None;
                    Some(state)
                } else {
                    None
                }
            },
            None => None,
        }
    }
}

/// The signatures under a block, as they are stored with its proof.
#[derive(Debug)]
pub struct ProofSignatures {
    pub validator_list_hash_short: u32,
    pub catchain_seqno: u32,
    pub signature_count: u32,
    pub total_weight: u64,
    /// By number: the short id of the node and its signature.
    pub signatures: Vec<(u16, HashBytes, Signature)>,
}

/// Whether the signatures under a block are stored as they should: numbered, each
/// with the hash of the public key of its node.
pub open spec fn are_proof_signatures(
    proof: ProofSignatures,
    validator_list_hash_short: u32,
    session_seqno: u32,
    total_weight: u64,
    signatures: Seq<(PeerId, Signature)>,
) -> bool {
    &&& proof.validator_list_hash_short == validator_list_hash_short
    &&& proof.catchain_seqno == session_seqno
    &&& proof.signature_count == signatures.len()
    &&& proof.total_weight == total_weight
    &&& proof.signatures@.len() == signatures.len()
    &&& forall|i: int|
        0 <= i < signatures.len() ==> (#[trigger] proof.signatures@[i]).0 == i
            && proof.signatures@[i].1@ == crate::outside::tl_hash_of(
            crate::outside::public_key_tl(signatures[i].0@),
        ) && proof.signatures@[i].2 == signatures[i].1
}

/// Numbers the signatures under a block, and names each node by the hash of its
/// public key.
pub fn process_signatures(
    gen_validator_list_hash_short: u32,
    gen_session_seqno: u32,
    total_weight: u64,
    block_signatures: &Vec<(PeerId, Signature)>,
) -> (r: ProofSignatures)
    requires
        block_signatures@.len() <= 0x1_0000,
    ensures
        are_proof_signatures(
            r,
            gen_validator_list_hash_short,
            gen_session_seqno,
            total_weight,
            block_signatures@,
        ),
{
    let mut signatures: Vec<(u16, HashBytes, Signature)> = Vec::new();
    let mut i: usize = 0;
    while i < block_signatures.len()
        invariant
            i <= block_signatures@.len() <= 0x1_0000,
            signatures@.len() == i,
            forall|j: int|
                0 <= j < i ==> (#[trigger] signatures@[j]).0 == j && signatures@[j].1@
                    == crate::outside::tl_hash_of(
                    crate::outside::public_key_tl(block_signatures@[j].0@),
                ) && signatures@[j].2 == block_signatures@[j].1,
        decreases block_signatures@.len() - i,
    {
        let (peer, signature): (PeerId, Signature) = block_signatures[i];
        signatures.push((i as u16, public_key_tl_hash(&peer), signature));
        i = i + 1;
    }
    ProofSignatures {
        validator_list_hash_short: gen_validator_list_hash_short,
        catchain_seqno: gen_session_seqno,
        signature_count: block_signatures.len() as u32,
        total_weight,
        signatures,
    }
}

/// The signatures that go into the proof of a block: only a master block has any.
pub fn block_proof_signatures(
    block_id: &BlockId,
    gen_validator_list_hash_short: u32,
    gen_session_seqno: u32,
    total_weight: u64,
    block_signatures: &Vec<(PeerId, Signature)>,
) -> (r: Option<ProofSignatures>)
    requires
        block_signatures@.len() <= 0x1_0000,
    ensures
        r is Some <==> block_id.is_masterchain(),
        r matches Some(proof) ==> are_proof_signatures(
            proof,
            gen_validator_list_hash_short,
            gen_session_seqno,
            total_weight,
            block_signatures@,
        ),
{
    if block_id.is_masterchain() {
        Some(
            process_signatures(
                gen_validator_list_hash_short,
                gen_session_seqno,
                total_weight,
                block_signatures,
            ),
        )
    } else {
        None
    }
}

/// The bag of cells in which the signatures under a block are stored.
pub open spec fn stored_signatures(proof: ProofSignatures, info: ConsensusInfo) -> Option<Seq<u8>> {
    match crate::cells::signature_dict_boc(proof.signatures@) {
        None => None,
        Some(dict) => crate::cells::block_signatures_boc(
            proof.validator_list_hash_short,
            proof.catchain_seqno,
            info,
            proof.signature_count,
            proof.total_weight,
            dict,
        ),
    }
}

/// Stores the signatures under a block.
pub fn store_signatures(proof: &ProofSignatures, info: &ConsensusInfo) -> (r: Option<Vec<u8>>)
    ensures
        crate::cells::opt_view(r) == stored_signatures(*proof, *info),
{
    match build_signature_dict(&proof.signatures) {
        None => None,
        Some(dict) => build_block_signatures(
            proof.validator_list_hash_short,
            proof.catchain_seqno,
            info,
            proof.signature_count,
            proof.total_weight,
            &dict,
        ),
    }
}

/// Whether bounds are those of a master block: its own and those of the shard
/// blocks that it names.
spec fn bounds_of(master: AcceptedBlock, bounds: Seq<(ShardIdent, u32)>) -> bool {
    bounds == master.top_shard_blocks_ids@.map_values(
        |id: BlockId| (id.shard, id.seqno),
    ).push((master.id.shard, master.id.seqno))
}

/// Whether a block is not above one of the bounds.
spec fn below(bounds: Seq<(ShardIdent, u32)>, id: BlockId) -> bool {
    exists|k: int|
        0 <= k < bounds.len() && (#[trigger] bounds[k]).0 == id.shard && id.seqno <= bounds[k].1
}

proof fn lemma_bounds(master: AcceptedBlock, bounds: Seq<(ShardIdent, u32)>, id: BlockId)
    requires
        bounds_of(master, bounds),
    ensures
        below(bounds, id) == obsolete_after(master, id),
{
    let tops = master.top_shard_blocks_ids@;
    if below(bounds, id) {
        let k = choose|k: int|
            0 <= k < bounds.len() && (#[trigger] bounds[k]).0 == id.shard && id.seqno
                <= bounds[k].1;
        if k < tops.len() {
            assert(bounds[k] == (tops[k].shard, tops[k].seqno));
            assert(tops[k].shard == id.shard);
        }
    }
    if obsolete_after(master, id) {
        if id.shard == master.id.shard && id.seqno <= master.id.seqno {
            assert(bounds[tops.len() as int] == (master.id.shard, master.id.seqno));
        } else {
            let k = choose|k: int|
                0 <= k < tops.len() && (#[trigger] tops[k]).shard == id.shard && id.seqno
                    <= tops[k].seqno;
            assert(bounds[k] == (tops[k].shard, tops[k].seqno));
        }
    }
}

/// The bounds of a master block.
fn obsolete_bounds(master: &AcceptedBlock) -> (r: Vec<(ShardIdent, u32)>)
    ensures
        bounds_of(*master, r@),
{
    let ghost tops = master.top_shard_blocks_ids@.map_values(|id: BlockId| (id.shard, id.seqno));
    let mut bounds: Vec<(ShardIdent, u32)> = Vec::new();
    let mut k: usize = 0;
    while k < master.top_shard_blocks_ids.len()
        invariant
            k <= master.top_shard_blocks_ids@.len(),
            tops == master.top_shard_blocks_ids@.map_values(|id: BlockId| (id.shard, id.seqno)),
            bounds@ == tops.take(k as int),
        decreases master.top_shard_blocks_ids@.len() - k,
    {
        let id: &BlockId = &master.top_shard_blocks_ids[k];
        bounds.push((id.shard, id.seqno));
        k = k + 1;
        assert(tops.take(k as int) =~= tops.take(k - 1).push(tops[k - 1]));
    }
    assert(tops.take(k as int) =~= tops);
    bounds.push((master.id.shard, master.id.seqno));
    bounds
}

/// Whether a block is not above one of the bounds.
fn is_below(bounds: &Vec<(ShardIdent, u32)>, id: &BlockId) -> (r: bool)
    ensures
        r == below(bounds@, *id),
{
    let mut k: usize = 0;
    while k < bounds.len()
        invariant
            k <= bounds@.len(),
            forall|j: int|
                0 <= j < k ==> !((#[trigger] bounds@[j]).0 == id.shard && id.seqno <= bounds@[j].1),
        decreases bounds@.len() - k,
    {
        if bounds[k].0 == id.shard && id.seqno <= bounds[k].1 {
            return true;
        }
        k = k + 1;
    }
    false
}

/// What is waited for is of the named shard and number. A full id is only that of one
/// block; a short one is that of every block at its place.
pub proof fn law_awaited_block_is_at_its_place(wanted: BlockIdToWait, id: BlockId, other: BlockId)
    ensures
        wanted.awaits(id) ==> id.shard == wanted.shard() && id.seqno == wanted.seqno(),
        wanted is Full && wanted.awaits(id) && wanted.awaits(other) ==> id == other,
        wanted is Full ==> wanted.awaits(wanted->Full_0),
        wanted is Short && id.shard == wanted.shard() && id.seqno == wanted.seqno()
            ==> wanted.awaits(id),
{
}

/// A listed block is found by its shard and number, and what is not listed is not.
pub proof fn law_listed_block_is_found(
    blocks: Seq<AcceptedBlock>,
    shard: ShardIdent,
    seqno: u32,
    i: int,
)
    requires
        distinct_blocks(blocks),
    ensures
        0 <= i < blocks.len() && blocks[i].id.shard == shard && blocks[i].id.seqno == seqno
            ==> place_of(blocks, shard, seqno) == Some(i),
        place_of(blocks, shard, seqno) is Some ==> 0 <= place_of(blocks, shard, seqno)->0
            < blocks.len() && blocks[place_of(blocks, shard, seqno)->0].id.shard == shard
            && blocks[place_of(blocks, shard, seqno)->0].id.seqno == seqno,
{
    if 0 <= i < blocks.len() && blocks[i].id.shard == shard && blocks[i].id.seqno == seqno {
        let j = place_of(blocks, shard, seqno)->0;
        if i < j {
            assert(!same_place(blocks[i], blocks[j]));
        }
        if j < i {
            assert(!same_place(blocks[j], blocks[i]));
        }
    }
}

/// Between a number and the last master block before it there is no other one.
pub proof fn law_previous_master_block_is_the_nearest(
    blocks: Seq<AcceptedBlock>,
    i: int,
    seqno: u32,
    j: int,
)
    requires
        is_prev_master(blocks, i, seqno),
        0 <= j < blocks.len(),
        blocks[j].id.shard.workchain == -1,
        blocks[j].id.shard.is_masterchain(),
    ensures
        blocks[i].id.shard.workchain == -1,
        blocks[i].id.seqno < seqno,
        blocks[j].id.seqno <= blocks[i].id.seqno || blocks[j].id.seqno >= seqno,
{
}

/// A master block makes itself obsolete, and the blocks that it names, and all before
/// them in their shards. What comes after them stays, and so do shards that it does
/// not name.
pub proof fn law_named_blocks_become_obsolete(master: AcceptedBlock, id: BlockId, k: int)
    requires
        forall|j: int|
            0 <= j < master.top_shard_blocks_ids@.len() ==> (
            #[trigger] master.top_shard_blocks_ids@[j]).shard != master.id.shard,
        forall|i: int, j: int|
            0 <= i < j < master.top_shard_blocks_ids@.len() ==> (
            #[trigger] master.top_shard_blocks_ids@[i]).shard != (
            #[trigger] master.top_shard_blocks_ids@[j]).shard,
    ensures
        id.shard == master.id.shard ==> (obsolete_after(master, id) <==> id.seqno
            <= master.id.seqno),
        0 <= k < master.top_shard_blocks_ids@.len() && id.shard
            == master.top_shard_blocks_ids@[k].shard ==> (obsolete_after(master, id) <==> id.seqno
            <= master.top_shard_blocks_ids@[k].seqno),
        id.shard != master.id.shard && (forall|j: int|
            0 <= j < master.top_shard_blocks_ids@.len() ==> (
            #[trigger] master.top_shard_blocks_ids@[j]).shard != id.shard) ==> !obsolete_after(
            master,
            id,
        ),
{
}

/// Of the accepted blocks those that have become obsolete are dropped, and no others.
pub proof fn law_needed_blocks_are_kept(
    blocks: Seq<AcceptedBlock>,
    master: AcceptedBlock,
    block: AcceptedBlock,
)
    ensures
        still_needed(blocks, master).contains(block) <==> blocks.contains(block) && !obsolete_after(
            master,
            block.id,
        ),
{
    let needed = |b: AcceptedBlock| !obsolete_after(master, b.id);
    if blocks.contains(block) && needed(block) {
        let i = choose|i: int| 0 <= i < blocks.len() && blocks[i] == block;
        blocks.lemma_filter_contains(needed, i);
    }
    if still_needed(blocks, master).contains(block) {
        blocks.lemma_filter_contains_rev(needed, block);
        let kept = blocks.filter(needed);
        let i = choose|i: int| 0 <= i < kept.len() && kept[i] == block;
        blocks.lemma_filter_pred(needed, i);
    }
}

/// Every signature is stored under its number, counted from zero, with the hash of the
/// public key that made it.
pub proof fn law_signatures_are_numbered(
    proof: ProofSignatures,
    validator_list_hash_short: u32,
    session_seqno: u32,
    total_weight: u64,
    signatures: Seq<(PeerId, Signature)>,
    i: int,
)
    requires
        are_proof_signatures(
            proof,
            validator_list_hash_short,
            session_seqno,
            total_weight,
            signatures,
        ),
        0 <= i < signatures.len(),
    ensures
        proof.signatures@[i].0 == i,
        proof.signatures@[i].1@ == crate::outside::tl_hash_of(
            crate::outside::public_key_tl(signatures[i].0@),
        ),
        proof.signatures@[i].2 == signatures[i].1,
        proof.signatures@.len() == signatures.len(),
        proof.signature_count == signatures.len(),
        proof.total_weight == total_weight,
        proof.catchain_seqno == session_seqno,
        proof.validator_list_hash_short == validator_list_hash_short,
{
}

/// If there is a master block before a number, one of them is the last.
pub proof fn law_previous_master_block_exists(blocks: Seq<AcceptedBlock>, seqno: u32, k: int)
    requires
        0 <= k < blocks.len(),
        blocks[k].id.shard.is_masterchain(),
        blocks[k].id.seqno < seqno,
    ensures
        exists|i: int| is_prev_master(blocks, i, seqno),
    decreases seqno - blocks[k].id.seqno,
{
    if !is_prev_master(blocks, k, seqno) {
        let j = choose|j: int|
            0 <= j < blocks.len() && (#[trigger] blocks[j]).id.shard.is_masterchain()
                && blocks[j].id.seqno < seqno && blocks[j].id.seqno > blocks[k].id.seqno;
        law_previous_master_block_exists(blocks, seqno, j);
    }
}

/// No two blocks of a node have the same shard and number.
pub proof fn law_blocks_have_their_own_places(node: StateNode, i: int, j: int)
    requires
        node.wf(),
        0 <= i < j < node.blocks@.len(),
    ensures
        node.blocks@[i].id.shard != node.blocks@[j].id.shard || node.blocks@[i].id.seqno
            != node.blocks@[j].id.seqno,
{
    assert(!same_place(node.blocks@[i], node.blocks@[j]));
}

} // verus!

//! Synchronisation with the master blocks that the network has applied.
use crate::ids::{BlockId, BlockIdShort, ShardIdent};
use crate::manager::sync_state::ActiveSync;
use crate::manager::CollationManager;
use vstd::prelude::*;

verus! {

/// What happens to a master state that was reached by synchronisation.
#[derive(Clone, Copy, Debug, PartialEq, Eq, Structural)]
pub enum ProcessMcStateUpdateMode {
    StartCollation { reset_collators: bool },
    SkipCollation,
}

/// What a synchronisation starts with.
#[derive(Clone, Copy, Debug)]
pub struct SyncStart {
    /// The first and the last master block that were received and applied.
    pub first_applied: BlockIdShort,
    pub last_applied: BlockIdShort,
    /// Drop what the queue has not committed.
    pub clear_uncommitted: bool,
    /// The master block up to whose top blocks queue diffs need not be applied
    /// again.
    pub skip_upto: Option<BlockId>,
}

/// The later of the master block that was synchronised to and the one that was
/// collated last. The collated one counts when both have the same number.
pub open spec fn top_mc_block(synced: Option<BlockId>, collated: Option<BlockId>) -> Option<
    BlockId,
> {
    match (synced, collated) {
        (Some(s), Some(c)) => if s.seqno > c.seqno {
            Some(s)
        } else {
            Some(c)
        },
        (Some(s), None) => Some(s),
        (None, c) => c,
    }
}

/// The master block up to which all queue diffs are applied: the one from which
/// collation would go on, or the one that the queue has committed last when the
/// node has just started.
pub open spec fn applied_upto_mc_block(
    synced: Option<BlockId>,
    collated: Option<BlockId>,
    committed: Option<BlockId>,
) -> Option<BlockId> {
    match top_mc_block(synced, collated) {
        Some(id) => Some(id),
        None => committed,
    }
}

impl CollationManager {
    /// Nothing differs but the synchronisation part of the shared state.
    pub open spec fn same_but_sync(&self, other: &Self) -> bool {
        &&& self.config == other.config
        &&& self.public_key == other.public_key
        &&& self.active_collation_sessions == other.active_collation_sessions
        &&& self.collation_sessions_to_finish == other.collation_sessions_to_finish
        &&& self.active_collators == other.active_collators
        &&& self.collators_to_stop == other.collators_to_stop
        &&& self.last_processed_mc_block_id == other.last_processed_mc_block_id
        &&& self.delayed_mc_state_update == other.delayed_mc_state_update
    }

    /// Nor does the collation pace.
    pub open spec fn same_pace(&self, other: &Self) -> bool {
        &&& self.same_but_sync(other)
        &&& self.collation_sync_state.states == other.collation_sync_state.states
        &&& self.collation_sync_state.mc_block_latest_chain_time
            == other.collation_sync_state.mc_block_latest_chain_time
        &&& self.collation_sync_state.mc_collation_forced_for_all
            == other.collation_sync_state.mc_collation_forced_for_all
    }

    /// The master block from which the next collation would go on.
    pub fn get_top_mc_block_id_for_next_collation(
        &self,
        last_collated_mc_block_id: Option<BlockId>,
    ) -> (r: Option<BlockId>)
        ensures
            r == top_mc_block(
                self.collation_sync_state.last_synced_to_mc_block_id,
                last_collated_mc_block_id,
            ),
    {
        match (self.collation_sync_state.last_synced_to_mc_block_id, last_collated_mc_block_id) {
            (Some(synced), Some(collated)) => if synced.seqno > collated.seqno {
                Some(synced)
            } else {
                Some(collated)
            },
            (Some(synced), None) => Some(synced),
            (None, collated) => collated,
        }
    }

    /// The master block up to which all queue diffs are applied: the one from
    /// which collation would go on, or the one that the queue has committed
    /// last when the node has just started.
    pub fn get_queue_diffs_applied_to_mc_block_id(
        &self,
        last_collated_mc_block_id: Option<BlockId>,
        last_committed_mc_block_id: Option<BlockId>,
    ) -> (r: Option<BlockId>)
        ensures
            r == applied_upto_mc_block(
                self.collation_sync_state.last_synced_to_mc_block_id,
                last_collated_mc_block_id,
                last_committed_mc_block_id,
            ),
    {
        match self.get_top_mc_block_id_for_next_collation(last_collated_mc_block_id) {
            Some(id) => Some(id),
            None => last_committed_mc_block_id,
        }
    }

    /// The block up to which queue diffs need not be applied again. Every diff
    /// is applied unless fast synchronisation is on.
    pub fn skip_diffs_upto(
        &self,
        last_collated_mc_block_id: Option<BlockId>,
        last_committed_mc_block_id: Option<BlockId>,
    ) -> (r: Option<BlockId>)
        ensures
            r == (if !self.config.fast_sync {
                None
            } else {
                applied_upto_mc_block(
                    self.collation_sync_state.last_synced_to_mc_block_id,
                    last_collated_mc_block_id,
                    last_committed_mc_block_id,
                )
            }),
    {
        if self.config.fast_sync {
            self.get_queue_diffs_applied_to_mc_block_id(
                last_collated_mc_block_id,
                last_committed_mc_block_id,
            )
        } else {
            None
        }
    }

    /// Begins a synchronisation with the applied master blocks, if there are any.
    /// Fails with the target of one that still runs. `new_genesis` says whether
    /// the mempool is to start from a later genesis than the last applied block
    /// knows of: then messages that are not committed are dropped.
    pub fn begin_sync(
        &mut self,
        applied_range: Option<(u32, u32)>,
        last_collated_mc_block_id: Option<BlockId>,
        last_committed_mc_block_id: Option<BlockId>,
        new_genesis: bool,
    ) -> (r: Result<Option<SyncStart>, u32>)
        requires
            old(self).wf(),
        ensures
            final(self).wf(),
            final(self).same_pace(old(self)),
            final(self).collation_sync_state.last_received_mc_block_seqno == old(
                self,
            ).collation_sync_state.last_received_mc_block_seqno,
            final(self).collation_sync_state.last_synced_to_mc_block_id == old(
                self,
            ).collation_sync_state.last_synced_to_mc_block_id,
            ({
                let active = old(self).collation_sync_state.active_sync_to_applied;
                match applied_range {
                    None => {
                        &&& r == Ok::<Option<SyncStart>, u32>(None)
                        &&& final(self).collation_sync_state.active_sync_to_applied == active
                    },
                    Some((first, last)) => match active {
                        Some(running) => {
                            &&& r == Err::<Option<SyncStart>, u32>(running.target_mc_block_seqno)
                            &&& final(self).collation_sync_state.active_sync_to_applied == active
                        },
                        None => {
                            &&& r matches Ok(Some(start))
                            &&& start.first_applied == BlockIdShort {
                                shard: ShardIdent::masterchain(),
                                seqno: first,
                            }
                            &&& start.last_applied == BlockIdShort {
                                shard: ShardIdent::masterchain(),
                                seqno: last,
                            }
                            &&& start.clear_uncommitted == new_genesis
                            &&& start.skip_upto == if !old(self).config.fast_sync {
                                None
                            } else {
                                applied_upto_mc_block(
                                    old(self).collation_sync_state.last_synced_to_mc_block_id,
                                    last_collated_mc_block_id,
                                    last_committed_mc_block_id,
                                )
                            }
                            &&& final(self).collation_sync_state.active_sync_to_applied == Some(
                                ActiveSync { target_mc_block_seqno: last, cancelled: false },
                            )
                        },
                    },
                }
            }),
    {
        let (first, last): (u32, u32) = match applied_range {
            Some(range) => range,
            None => return Ok(None),
        };
        if let Err(target) = self.set_active_sync_info(last) {
            return Err(target);
        }
        let skip_upto = self.skip_diffs_upto(last_collated_mc_block_id, last_committed_mc_block_id);
        Ok(
            Some(
                SyncStart {
                    first_applied: BlockIdShort { shard: ShardIdent::masterchain(), seqno: first },
                    last_applied: BlockIdShort { shard: ShardIdent::masterchain(), seqno: last },
                    clear_uncommitted: new_genesis,
                    skip_upto,
                },
            ),
        )
    }

    /// Notes that a synchronisation has begun. Fails with the target of the one
    /// that still runs.
    pub fn set_active_sync_info(&mut self, target_mc_block_seqno: u32) -> (r: Result<(), u32>)
        requires
            old(self).wf(),
        ensures
            final(self).wf(),
            final(self).same_pace(old(self)),
            final(self).collation_sync_state.last_received_mc_block_seqno == old(
                self,
            ).collation_sync_state.last_received_mc_block_seqno,
            final(self).collation_sync_state.last_synced_to_mc_block_id == old(
                self,
            ).collation_sync_state.last_synced_to_mc_block_id,
            match old(self).collation_sync_state.active_sync_to_applied {
                Some(active) => r == Err::<(), u32>(active.target_mc_block_seqno)
                    && final(self).collation_sync_state.active_sync_to_applied == Some(active),
                None => r is Ok && final(self).collation_sync_state.active_sync_to_applied == Some(
                    ActiveSync { target_mc_block_seqno, cancelled: false },
                ),
            },
    {
        if let Some(active) = self.collation_sync_state.active_sync_to_applied {
            return Err(active.target_mc_block_seqno);
        }
        self.collation_sync_state.active_sync_to_applied = Some(
            ActiveSync { target_mc_block_seqno, cancelled: false },
        );
        Ok(())
    }

    /// Notes that the synchronisation has ended, after all that it does or where the
    /// queue could not be restored.
    pub fn clean_active_sync_info(&mut self)
        requires
            old(self).wf(),
        ensures
            final(self).wf(),
            final(self).same_pace(old(self)),
            final(self).collation_sync_state.last_received_mc_block_seqno == old(
                self,
            ).collation_sync_state.last_received_mc_block_seqno,
            final(self).collation_sync_state.last_synced_to_mc_block_id == old(
                self,
            ).collation_sync_state.last_synced_to_mc_block_id,
            final(self).collation_sync_state.active_sync_to_applied is None,
    {
        self.collation_sync_state.active_sync_to_applied = None;
    }

    /// Notes a block received from the network. A synchronisation that runs is
    /// cancelled when a master block far ahead of its target arrives. Returns
    /// whether one was.
    pub fn enqueue_handle_block_from_bc(&mut self, received_block_id: &BlockId) -> (r: bool)
        requires
            old(self).wf(),
        ensures
            final(self).wf(),
            final(self).same_pace(old(self)),
            final(self).collation_sync_state.last_synced_to_mc_block_id == old(
                self,
            ).collation_sync_state.last_synced_to_mc_block_id,
            final(self).collation_sync_state.last_received_mc_block_seqno == (
            if received_block_id.is_masterchain() {
                Some(received_block_id.seqno)
            } else {
                old(self).collation_sync_state.last_received_mc_block_seqno
            }),
            r == sync_is_outrun(
                old(self).collation_sync_state.active_sync_to_applied,
                *received_block_id,
                old(self).config.min_mc_block_delta_from_bc_to_sync,
            ),
            final(self).collation_sync_state.active_sync_to_applied == (if r {
                Some(
                    ActiveSync {
                        cancelled: true,
                        ..old(self).collation_sync_state.active_sync_to_applied->0
                    },
                )
            } else {
                old(self).collation_sync_state.active_sync_to_applied
            }),
    {
        if !received_block_id.is_masterchain() {
            return false;
        }
        self.collation_sync_state.last_received_mc_block_seqno = Some(received_block_id.seqno);
        self.finish_active_sync_to_applied(received_block_id)
    }

    /// Cancels a running synchronisation when a master block far ahead of its
    /// target was received. Returns whether it did.
    pub fn finish_active_sync_to_applied(&mut self, received_block_id: &BlockId) -> (r: bool)
        requires
            old(self).wf(),
        ensures
            final(self).wf(),
            final(self).same_pace(old(self)),
            final(self).collation_sync_state.last_received_mc_block_seqno == old(
                self,
            ).collation_sync_state.last_received_mc_block_seqno,
            final(self).collation_sync_state.last_synced_to_mc_block_id == old(
                self,
            ).collation_sync_state.last_synced_to_mc_block_id,
            r == sync_is_outrun(
                old(self).collation_sync_state.active_sync_to_applied,
                *received_block_id,
                old(self).config.min_mc_block_delta_from_bc_to_sync,
            ),
            final(self).collation_sync_state.active_sync_to_applied == (if r {
                Some(
                    ActiveSync {
                        cancelled: true,
                        ..old(self).collation_sync_state.active_sync_to_applied->0
                    },
                )
            } else {
                old(self).collation_sync_state.active_sync_to_applied
            }),
    {
        if !received_block_id.is_masterchain() {
            return false;
        }
        if let Some(active) = self.collation_sync_state.active_sync_to_applied {
            let ahead: u32 = received_block_id.seqno.saturating_sub(active.target_mc_block_seqno);
            if ahead >= self.config.min_mc_block_delta_from_bc_to_sync {
                self.collation_sync_state.active_sync_to_applied = Some(
                    ActiveSync {
                        target_mc_block_seqno: active.target_mc_block_seqno,
                        cancelled: true,
                    },
                );
                return true;
            }
        }
        false
    }

    /// Takes over the master state up to which the queue was restored: its chain time
    /// starts the next interval, unless it is the zerostate, no shard waits any more,
    /// and the block counts as synchronised to. The mempool is told of the state next;
    /// until then the synchronisation runs on and can be cancelled.
    pub fn complete_sync(&mut self, last_mc_block_id: &BlockId, gen_chain_time: u64)
        requires
            old(self).wf(),
        ensures
            final(self).wf(),
            final(self).same_but_sync(old(self)),
            final(self).collation_sync_state.active_sync_to_applied == old(
                self,
            ).collation_sync_state.active_sync_to_applied,
            final(self).collation_sync_state.last_received_mc_block_seqno == old(
                self,
            ).collation_sync_state.last_received_mc_block_seqno,
            final(self).collation_sync_state.last_synced_to_mc_block_id == Some(*last_mc_block_id),
            final(self).collation_sync_state@ == (if last_mc_block_id.seqno != 0 {
                old(self).collation_sync_state@.renew(gen_chain_time).all_in_progress()
            } else {
                old(self).collation_sync_state@.all_in_progress()
            }),
    {
        if last_mc_block_id.seqno != 0 {
            Self::renew_mc_block_latest_chain_time(&mut self.collation_sync_state, gen_chain_time);
        }
        Self::reset_collation_sync_status(&mut self.collation_sync_state);
        self.collation_sync_state.last_synced_to_mc_block_id = Some(*last_mc_block_id);
    }

    /// How the state that was synchronised to is processed, once the mempool knows of
    /// it: collation starts again unless the synchronisation was cancelled meanwhile.
    pub fn get_sync_update_mode(&self) -> (r: ProcessMcStateUpdateMode)
        ensures
            r == (match self.collation_sync_state.active_sync_to_applied {
                Some(active) if active.cancelled => ProcessMcStateUpdateMode::SkipCollation,
                _ => ProcessMcStateUpdateMode::StartCollation { reset_collators: true },
            }),
    {
        let cancelled = match self.collation_sync_state.active_sync_to_applied {
            Some(active) => active.cancelled,
            None => false,
        };
        if cancelled {
            ProcessMcStateUpdateMode::SkipCollation
        } else {
            ProcessMcStateUpdateMode::StartCollation { reset_collators: true }
        }
    }

    /// How far a master block is ahead of another, and whether it is the same.
    /// `(0, false)` when there is no other.
    pub fn compare_mc_block_with(
        mc_block_id: &BlockId,
        other_mc_block_id_opt: Option<&BlockId>,
    ) -> (r: (i32, bool))
        ensures
            match other_mc_block_id_opt {
                None => r == (0i32, false),
                Some(other) => r.0 == seqno_delta(mc_block_id.seqno, other.seqno) && r.1 == (
                *mc_block_id == *other),
            },
    {
        match other_mc_block_id_opt {
            None => (0, false),
            Some(other) => {
                let mut delta: i64 = mc_block_id.seqno as i64 - other.seqno as i64;
                if delta > 0x7fff_ffff {
                    delta = delta - 0x1_0000_0000;
                } else if delta < -0x8000_0000 {
                    delta = delta + 0x1_0000_0000;
                }
                (delta as i32, mc_block_id.same(other))
            },
        }
    }

    /// Whether a master block is to be processed: not when it is behind the last
    /// one processed, and not when it is that block. Another block with the same
    /// number is. The block is noted when it is.
    pub fn check_should_process_and_update_last_processed_mc_block(&mut self, block_id: &BlockId) -> (r:
        bool)
        ensures
            r == should_process(old(self).last_processed_mc_block_id, *block_id),
            *final(self) == (CollationManager {
                last_processed_mc_block_id: if r {
                    Some(*block_id)
                } else {
                    old(self).last_processed_mc_block_id
                },
                ..*old(self)
            }),
    {
        let behind_or_equal = match &self.last_processed_mc_block_id {
            Some(other) => block_id.seqno < other.seqno || block_id.same(other),
            None => false,
        };
        if !behind_or_equal {
            self.last_processed_mc_block_id = Some(*block_id);
        }
        !behind_or_equal
    }
}

/// Whether a received block is so far ahead of the target of a synchronisation
/// that it is better to start again.
pub open spec fn sync_is_outrun(
    active: Option<ActiveSync>,
    received: BlockId,
    min_delta: u32,
) -> bool {
    &&& received.is_masterchain()
    &&& active is Some
    &&& min_delta == 0 || received.seqno - active->0.target_mc_block_seqno >= min_delta
}

/// How far a number is ahead of another, as a signed number of 32 bits. A difference
/// that does not fit wraps around.
pub open spec fn seqno_delta(seqno: u32, other: u32) -> int {
    let delta = seqno - other;
    if delta > i32::MAX {
        delta - 0x1_0000_0000
    } else if delta < i32::MIN {
        delta + 0x1_0000_0000
    } else {
        delta
    }
}

/// Whether a master block is to be processed after `last`.
pub open spec fn should_process(last: Option<BlockId>, block: BlockId) -> bool {
    match last {
        None => true,
        Some(other) => block.seqno >= other.seqno && block != other,
    }
}

/// The number of the last processed master block never falls, and no block is
/// processed twice in a row.
pub proof fn law_processed_blocks_advance(last: Option<BlockId>, block: BlockId)
    requires
        should_process(last, block),
    ensures
        last matches Some(other) ==> other.seqno <= block.seqno,
        !should_process(Some(block), block),
{
}

/// Collation goes on from the block that was synchronised to, or from one that is
/// not before it.
pub proof fn law_sync_moves_the_top(synced: BlockId, collated: Option<BlockId>)
    ensures
        top_mc_block(Some(synced), collated) matches Some(top) && top.seqno >= synced.seqno,
        collated matches Some(c) && c.seqno < synced.seqno ==> top_mc_block(Some(synced), collated)
            == Some(synced),
{
}

/// The last master block among those received together; synchronisation is
/// skipped for the ones before it.
pub fn find_last_mc_block(batch: &Vec<BlockId>) -> (r: Option<BlockId>)
    ensures
        match r {
            Some(id) => is_last_mc_block(batch@, id),
            None => forall|i: int|
                0 <= i < batch@.len() ==> !(#[trigger] batch@[i]).is_masterchain(),
        },
{
    let mut i: usize = batch.len();
    while i > 0
        invariant
            i <= batch@.len(),
            forall|j: int| i <= j < batch@.len() ==> !(#[trigger] batch@[j]).is_masterchain(),
        decreases i,
    {
        i = i - 1;
        if batch[i].is_masterchain() {
            return Some(batch[i]);
        }
    }
    None
}

/// Whether a block is the last master block of a batch.
pub open spec fn is_last_mc_block(batch: Seq<BlockId>, id: BlockId) -> bool {
    exists|i: int|
        #![trigger batch[i]]
        0 <= i < batch.len() && batch[i] == id && id.is_masterchain() && forall|j: int|
            i < j < batch.len() ==> !(#[trigger] batch[j]).is_masterchain()
}

/// For each of the blocks received together whether it is the last master block:
/// only after that one a synchronisation can start.
pub fn mark_last_mc_block(batch: &Vec<BlockId>) -> (r: Vec<bool>)
    ensures
        r@.len() == batch@.len(),
        forall|i: int|
            0 <= i < r@.len() ==> #[trigger] r@[i] == is_last_mc_block(batch@, batch@[i]),
{
    let last = find_last_mc_block(batch);
    let mut marks: Vec<bool> = Vec::new();
    let mut i: usize = 0;
    while i < batch.len()
        invariant
            i <= batch@.len(),
            marks@.len() == i,
            match last {
                Some(id) => is_last_mc_block(batch@, id),
                None => forall|j: int|
                    0 <= j < batch@.len() ==> !(#[trigger] batch@[j]).is_masterchain(),
            },
            forall|j: int|
                0 <= j < i ==> #[trigger] marks@[j] == is_last_mc_block(batch@, batch@[j]),
        decreases batch@.len() - i,
    {
        let mark = match &last {
            Some(id) => batch[i].same(id),
            None => false,
        };
        marks.push(mark);
        i = i + 1;
    }
    marks
}

/// The top block is one of the two that are given, there is one exactly if one of them is,
/// and it is not below either; the collated one counts when the numbers are the same.
pub proof fn law_top_block_is_the_later_one(synced: Option<BlockId>, collated: Option<BlockId>)
    ensures
        top_mc_block(synced, collated) is None <==> synced is None && collated is None,
        top_mc_block(synced, collated) is Some ==> top_mc_block(synced, collated) == synced
            || top_mc_block(synced, collated) == collated,
        synced matches Some(s) ==> top_mc_block(synced, collated)->0.seqno >= s.seqno,
        collated matches Some(c) ==> top_mc_block(synced, collated)->0.seqno >= c.seqno,
        synced is Some && collated is Some && synced->0.seqno == collated->0.seqno ==> top_mc_block(
            synced,
            collated,
        ) == collated,
{
}

/// Diffs are applied up to the top block, or up to the block that was committed last where
/// there is no top block.
pub proof fn law_diffs_are_applied_up_to_the_top(
    synced: Option<BlockId>,
    collated: Option<BlockId>,
    committed: Option<BlockId>,
)
    ensures
        synced is None && collated is None ==> applied_upto_mc_block(synced, collated, committed)
            == committed,
        synced is Some || collated is Some ==> applied_upto_mc_block(synced, collated, committed)
            == applied_upto_mc_block(synced, collated, None) && applied_upto_mc_block(
            synced,
            collated,
            None,
        ) is Some,
        synced is Some && collated is None ==> applied_upto_mc_block(synced, collated, committed)
            == synced,
        synced is None && collated is Some ==> applied_upto_mc_block(synced, collated, committed)
            == collated,
        synced is Some && collated is Some ==> applied_upto_mc_block(synced, collated, committed)
            == if synced->0.seqno > collated->0.seqno {
            synced
        } else {
            collated
        },
{
}

/// A synchronisation is cancelled exactly if it runs and a master block was received that
/// is ahead of its target by at least the set number.
pub proof fn law_sync_is_cancelled_by_a_far_block(
    active: Option<ActiveSync>,
    received: BlockId,
    min_delta: u32,
)
    ensures
        sync_is_outrun(active, received, min_delta) <==> received.shard.workchain == -1 && (
        active matches Some(sync) && (received.seqno >= sync.target_mc_block_seqno + min_delta
            || min_delta == 0)),
{
}

/// The difference of two numbers is the true one where it fits in 32 bits with a sign, and
/// equal to it up to a multiple of 2^32 elsewhere.
pub proof fn law_seqno_delta_is_the_difference(seqno: u32, other: u32)
    ensures
        i32::MIN <= seqno_delta(seqno, other) <= i32::MAX,
        (seqno - other - seqno_delta(seqno, other)) % 0x1_0000_0000 == 0,
        i32::MIN <= seqno - other <= i32::MAX ==> seqno_delta(seqno, other) == seqno - other,
{
}

/// A master block is processed exactly if none was before, or if it is not behind the last
/// one and is not that one.
pub proof fn law_master_block_is_processed_once(last: Option<BlockId>, block: BlockId)
    ensures
        should_process(last, block) <==> (last matches Some(other) ==> other.seqno <= block.seqno
            && !(other.seqno == block.seqno && other.shard == block.shard && other.root_hash
            == block.root_hash && other.file_hash == block.file_hash)),
{
}

/// The last master block of a batch is a master block of it behind which there is none,
/// and there is only one such block.
pub proof fn law_one_last_master_block(batch: Seq<BlockId>, a: BlockId, b: BlockId)
    requires
        is_last_mc_block(batch, a),
        is_last_mc_block(batch, b),
    ensures
        a == b,
        a.shard.workchain == -1,
        batch.contains(a),
        exists|i: int|
            0 <= i < batch.len() && (#[trigger] batch[i]) == a && forall|j: int|
                i < j < batch.len() ==> (#[trigger] batch[j]).shard.workchain != -1,
{
    let i = choose|i: int|
        #![trigger batch[i]]
        0 <= i < batch.len() && batch[i] == a && a.is_masterchain() && forall|j: int|
            i < j < batch.len() ==> !(#[trigger] batch[j]).is_masterchain();
    let k = choose|k: int|
        #![trigger batch[k]]
        0 <= k < batch.len() && batch[k] == b && b.is_masterchain() && forall|j: int|
            k < j < batch.len() ==> !(#[trigger] batch[j]).is_masterchain();
    assert(i == k);
}

/// Where nothing but the sync differs, sessions and collators are the same, and where the
/// pace is the same too, so is everything that it is made of.
pub proof fn law_sync_changes_alone(a: CollationManager, b: CollationManager)
    requires
        a.same_but_sync(&b),
    ensures
        a.config == b.config,
        a.public_key == b.public_key,
        a.active_collation_sessions == b.active_collation_sessions,
        a.collation_sessions_to_finish == b.collation_sessions_to_finish,
        a.active_collators == b.active_collators,
        a.collators_to_stop == b.collators_to_stop,
        a.last_processed_mc_block_id == b.last_processed_mc_block_id,
        a.delayed_mc_state_update == b.delayed_mc_state_update,
        a.same_pace(&b) ==> a.collation_sync_state@ == b.collation_sync_state@,
{
}

} // verus!

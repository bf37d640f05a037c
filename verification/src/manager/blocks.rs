//! What follows a collated block and a block received from the network.
use crate::ids::{BlockId, ShardIdent};
use crate::manager::collators::StepPlan;
use crate::manager::sync_state::ForceMasterCollation;
use crate::manager::{CollationManager, CollatorState};
use crate::types::{CollationSessionId, McData};
use vstd::prelude::*;

verus! {

/// What the cache of blocks says after it has stored one.
#[derive(Clone, Copy, Debug)]
pub struct BlockCacheStoreResult {
    /// The block was both collated here and received.
    pub received_and_collated: bool,
    /// The block differs from the one that was stored before.
    pub block_mismatch: bool,
    pub last_collated_mc_block_id: Option<BlockId>,
    /// The first and the last number of the master blocks that were received
    /// and applied.
    pub applied_mc_queue_range: Option<(u32, u32)>,
}

/// What to do with a collated block first.
#[derive(Clone, Copy, Debug, PartialEq, Eq, Structural)]
pub enum CandidateStart {
    /// Drop it: its session is over.
    Skip,
    /// Do not store it: the collator was cancelled. What the queue has not
    /// committed is to be dropped.
    Cancelled,
    /// Store it.
    Store,
}

/// What to do with a collated master block that is not given up.
pub enum MasterNext {
    /// Its state waits until the block is validated.
    Delayed,
    /// Its state is made known and processed at once.
    Process(McData),
}

/// What follows a collated block.
pub enum CandidateNext {
    /// Synchronise with the applied master blocks.
    Sync,
    /// Synchronise later: other collators still run.
    WaitForCollators,
    /// Go on with a master block. It is committed if it was received as well,
    /// and validated otherwise.
    Master { commit: bool, next: MasterNext },
    /// Go on with a shard block.
    Shard(StepPlan),
}

/// What to do after a collated block.
pub struct CandidatePlan {
    /// Drop what the queue has not committed.
    pub clear_uncommitted: bool,
    pub next: CandidateNext,
}

/// What follows a received block.
#[derive(Clone, Copy, Debug, PartialEq, Eq, Structural)]
pub enum ReceivedNext {
    Nothing,
    /// Synchronise with the applied master blocks.
    Sync,
    /// Commit the block, which was collated here before.
    Commit,
}

/// What to do after a received block.
#[derive(Debug)]
pub struct ReceivedPlan {
    /// Drop what the queue has not committed.
    pub clear_uncommitted: bool,
    /// Stop validations up to the block.
    pub cancel_validation: bool,
    /// Ask these collators to cancel what they collate.
    pub cancel_collations: Vec<ShardIdent>,
    pub next: ReceivedNext,
}

/// How far `a` is ahead of `b`, zero when it is behind.
pub open spec fn ahead(a: u32, b: u32) -> int {
    if a > b {
        a - b
    } else {
        0
    }
}

/// Whether a master block beyond the one after the applied range was received:
/// synchronising with the applied range would be in vain.
pub open spec fn newer_received(range: Option<(u32, u32)>, last_received: Option<u32>) -> bool {
    range is Some && last_received is Some && last_received->0 - (range->0).1 > 1
}

/// Whether to synchronise instead of going on with a collated block.
pub open spec fn candidate_should_sync(
    collation_cancelled: bool,
    res: BlockCacheStoreResult,
    last_received: Option<u32>,
    min_delta: u32,
) -> bool {
    let range = res.applied_mc_queue_range;
    &&& !newer_received(range, last_received)
    &&& collation_cancelled || (range is Some && (res.last_collated_mc_block_id is None || ahead(
        (range->0).1,
        res.last_collated_mc_block_id->0.seqno,
    ) >= min_delta))
}

/// Whether the applied range is far enough ahead of the block from which
/// collation would go on. A node that does not collate the masterchain follows
/// every key block.
pub open spec fn applied_far_ahead(
    range: Option<(u32, u32)>,
    top: BlockId,
    is_key_block: bool,
    collates_master: bool,
    min_delta: u32,
) -> bool {
    &&& range is Some
    &&& ahead((range->0).1, top.seqno) >= if is_key_block && !collates_master {
        1
    } else {
        min_delta
    }
}

/// Collators after a collated block differed from the received one.
pub open spec fn after_candidate_mismatch(
    collators: Map<ShardIdent, CollatorState>,
    block_id: BlockId,
) -> Map<ShardIdent, CollatorState> {
    let own = crate::manager::collators::with_state(
        collators,
        block_id.shard,
        CollatorState::Cancelled,
    );
    if block_id.is_masterchain() {
        crate::manager::collators::interrupt_others(own, block_id.shard)
    } else {
        own
    }
}

/// Collators after a received block differed from the collated one.
pub open spec fn after_received_mismatch(
    collators: Map<ShardIdent, CollatorState>,
    block_id: BlockId,
) -> Map<ShardIdent, CollatorState> {
    let own = if collators.dom().contains(block_id.shard) {
        collators.insert(
            block_id.shard,
            crate::manager::collators::interrupted(collators[block_id.shard]),
        )
    } else {
        collators
    };
    if block_id.is_masterchain() {
        crate::manager::collators::interrupt_others(own, block_id.shard)
    } else {
        own
    }
}

/// Decides whether to synchronise instead of going on with a collated block.
pub fn check_candidate_should_sync(
    collation_cancelled: bool,
    store_res: &BlockCacheStoreResult,
    last_received_mc_block_seqno: Option<u32>,
    min_mc_block_delta_from_bc_to_sync: u32,
) -> (r: bool)
    ensures
        r == candidate_should_sync(
            collation_cancelled,
            *store_res,
            last_received_mc_block_seqno,
            min_mc_block_delta_from_bc_to_sync,
        ),
{
    if check_newer_received(store_res.applied_mc_queue_range, last_received_mc_block_seqno) {
        return false;
    }
    if collation_cancelled {
        return true;
    }
    match store_res.applied_mc_queue_range {
        Some((_first, applied_range_end)) => match store_res.last_collated_mc_block_id {
            Some(last_collated) => applied_range_end.saturating_sub(last_collated.seqno)
                >= min_mc_block_delta_from_bc_to_sync,
            None => true,
        },
        None => false,
    }
}

fn check_newer_received(range: Option<(u32, u32)>, last_received: Option<u32>) -> (r: bool)
    ensures
        r == newer_received(range, last_received),
{
    match (range, last_received) {
        (Some((_first, end)), Some(last)) => last.saturating_sub(end) > 1,
        _ => false,
    }
}

impl CollationManager {
    /// The first look at a collated block: whether its session is still the
    /// active one of its shard, and whether its collator was cancelled.
    pub fn begin_collated_block_candidate(
        &mut self,
        block_id: &BlockId,
        collation_session_id: CollationSessionId,
    ) -> (r: CandidateStart)
        requires
            old(self).wf(),
        ensures
            final(self).wf(),
            final(self).same_but_collators(old(self)),
            ({
                let sessions = old(self).active_collation_sessions@;
                let known = sessions.dom().contains(block_id.shard)
                    && sessions[block_id.shard].id() == collation_session_id;
                let collators = old(self).active_collators@;
                let settled = crate::manager::collators::settle(collators, block_id.shard);
                if !known {
                    &&& r is Skip
                    &&& final(self).active_collators@ == crate::manager::collators::with_state(
                        collators,
                        block_id.shard,
                        CollatorState::Waiting,
                    )
                } else {
                    &&& r == if settled.dom().contains(block_id.shard) && settled[block_id.shard]
                        == CollatorState::Cancelled {
                        CandidateStart::Cancelled
                    } else {
                        CandidateStart::Store
                    }
                    &&& final(self).active_collators@ == settled
                }
            }),
    {
        let known = match self.active_collation_sessions.get(&block_id.shard) {
            Some(session) => {
                let (shard, seqno, short_hash): (ShardIdent, u32, u32) = session.id();
                shard == collation_session_id.0 && seqno == collation_session_id.1 && short_hash
                    == collation_session_id.2
            },
            None => false,
        };
        if !known {
            let _known = self.set_collator_state(&block_id.shard, CollatorState::Waiting);
            return CandidateStart::Skip;
        }
        let updated = self.settle_collator(&block_id.shard);
        if updated == Some(CollatorState::Cancelled) {
            CandidateStart::Cancelled
        } else {
            CandidateStart::Store
        }
    }

    /// Decides what follows a collated block, once the cache has stored it or
    /// has left it out because its collator was cancelled.
    pub fn handle_collated_block_candidate(
        &mut self,
        block_id: &BlockId,
        collator_cancelled: bool,
        store_res: &BlockCacheStoreResult,
        prev_mc_block_id: &BlockId,
        candidate_chain_time: u64,
        force_next_mc_block: ForceMasterCollation,
        mc_block_min_interval_ms: u64,
        consensus_config_changed: Option<bool>,
        mc_data: Option<McData>,
    ) -> (plan: CandidatePlan)
        requires
            old(self).wf(),
            block_id.is_masterchain() == (mc_data is Some),
            !block_id.is_masterchain() ==> old(self).can_step(
                block_id.shard,
                candidate_chain_time,
                force_next_mc_block,
                mc_block_min_interval_ms,
                *prev_mc_block_id,
            ),
        ensures
            final(self).wf(),
            ({
                let mismatch = !collator_cancelled && store_res.block_mismatch;
                let collators = if mismatch {
                    after_candidate_mismatch(old(self).active_collators@, *block_id)
                } else {
                    old(self).active_collators@
                };
                let cancelled = crate::manager::collators::with_state(
                    collators,
                    block_id.shard,
                    CollatorState::Cancelled,
                );
                let sync = candidate_should_sync(
                    collator_cancelled || store_res.block_mismatch,
                    *store_res,
                    old(self).collation_sync_state.last_received_mc_block_seqno,
                    old(self).config.min_mc_block_delta_from_bc_to_sync,
                );
                let delay = consensus_config_changed == Some(true);
                &&& plan.clear_uncommitted == mismatch
                &&& if sync && block_id.is_masterchain() {
                    &&& plan.next is Sync
                    &&& final(self).active_collators@ == collators
                    &&& final(self).same_but_collators(old(self))
                } else if sync {
                    &&& if crate::manager::collators::any_runs(cancelled) {
                        plan.next is WaitForCollators
                    } else {
                        plan.next is Sync
                    }
                    &&& final(self).active_collators@ == cancelled
                    &&& final(self).same_but_collators(old(self))
                } else if block_id.is_masterchain() {
                    &&& plan.next matches CandidateNext::Master { commit, next } && commit
                        == store_res.received_and_collated && next == if delay {
                        MasterNext::Delayed
                    } else {
                        MasterNext::Process(mc_data->0)
                    }
                    &&& final(self).delayed_mc_state_update == if delay {
                        mc_data
                    } else {
                        old(self).delayed_mc_state_update
                    }
                    &&& final(self).active_collators@ == collators
                    &&& (CollationManager {
                        delayed_mc_state_update: old(self).delayed_mc_state_update,
                        ..*final(self)
                    }).same_but_collators(old(self))
                } else {
                    &&& final(self).same_but_collators_and_pace(old(self))
                    &&& plan.next matches CandidateNext::Shard(step_plan)
                        && crate::manager::collators::stepped(
                        old(self).collation_sync_state@,
                        final(self).collation_sync_state@,
                        old(self).active_collation_sessions.keys@,
                        collators,
                        final(self).active_collators@,
                        *prev_mc_block_id,
                        block_id.shard,
                        candidate_chain_time,
                        force_next_mc_block,
                        mc_block_min_interval_ms,
                        step_plan,
                    )
                }
            }),
    {
        let mismatch = !collator_cancelled && store_res.block_mismatch;
        if mismatch {
            let _known = self.set_collator_state(&block_id.shard, CollatorState::Cancelled);
            if block_id.is_masterchain() {
                self.interrupt_other_collators(&block_id.shard);
            }
        }
        let should_sync = check_candidate_should_sync(
            collator_cancelled || store_res.block_mismatch,
            store_res,
            self.collation_sync_state.last_received_mc_block_seqno,
            self.config.min_mc_block_delta_from_bc_to_sync,
        );
        let next = if should_sync {
            if block_id.is_masterchain() {
                CandidateNext::Sync
            } else {
                let _known = self.set_collator_state(&block_id.shard, CollatorState::Cancelled);
                if self.has_active() {
                    CandidateNext::WaitForCollators
                } else {
                    CandidateNext::Sync
                }
            }
        } else if block_id.is_masterchain() {
            let commit = store_res.received_and_collated;
            let delay = match consensus_config_changed {
                Some(changed) => changed,
                None => false,
            };
            match mc_data {
                Some(data) => {
                    if delay {
                        self.delayed_mc_state_update = Some(data);
                        CandidateNext::Master { commit, next: MasterNext::Delayed }
                    } else {
                        CandidateNext::Master { commit, next: MasterNext::Process(data) }
                    }
                },
                None => CandidateNext::Sync,
            }
        } else {
            CandidateNext::Shard(
                self.run_next_collation_step(
                    prev_mc_block_id,
                    block_id.shard,
                    candidate_chain_time,
                    force_next_mc_block,
                    mc_block_min_interval_ms,
                ),
            )
        };
        CandidatePlan { clear_uncommitted: mismatch, next }
    }

    /// Decides what follows a received block, once the cache has stored it.
    pub fn handle_block_from_bc(
        &mut self,
        block_id: &BlockId,
        store_res: &BlockCacheStoreResult,
        is_last_mc_block_in_batch: bool,
        is_key_block: bool,
    ) -> (plan: ReceivedPlan)
        requires
            old(self).wf(),
        ensures
            final(self).wf(),
            final(self).same_but_collators(old(self)),
            plan.clear_uncommitted == store_res.block_mismatch,
            plan.cancel_validation == block_id.is_masterchain(),
            final(self).active_collators@ == (if store_res.block_mismatch {
                after_received_mismatch(old(self).active_collators@, *block_id)
            } else {
                old(self).active_collators@
            }),
            ({
                let range = store_res.applied_mc_queue_range;
                let collators = final(self).active_collators@;
                let top = crate::manager::sync::top_mc_block(
                    old(self).collation_sync_state.last_synced_to_mc_block_id,
                    store_res.last_collated_mc_block_id,
                );
                let may_sync = block_id.is_masterchain() && (is_last_mc_block_in_batch
                    || is_key_block) && !newer_received(
                    range,
                    old(self).collation_sync_state.last_received_mc_block_seqno,
                );
                let far_ahead = may_sync && top is Some && applied_far_ahead(
                    range,
                    top->0,
                    is_key_block,
                    collators.dom().contains(ShardIdent::masterchain()),
                    old(self).config.min_mc_block_delta_from_bc_to_sync,
                );
                let sync = may_sync && (top is None || (far_ahead
                    && !crate::manager::collators::any_runs(collators)));
                &&& plan.next == if sync {
                    ReceivedNext::Sync
                } else if block_id.is_masterchain() && store_res.received_and_collated {
                    ReceivedNext::Commit
                } else {
                    ReceivedNext::Nothing
                }
                &&& plan.cancel_collations@.no_duplicates()
                &&& forall|s: ShardIdent| #[trigger]
                    plan.cancel_collations@.contains(s) <==> far_ahead && collators.dom().contains(
                        s,
                    ) && crate::manager::collators::runs(collators[s])
            }),
    {
        if store_res.block_mismatch {
            self.interrupt_collator(&block_id.shard);
            if block_id.is_masterchain() {
                self.interrupt_other_collators(&block_id.shard);
            }
        }
        if !block_id.is_masterchain() {
            return ReceivedPlan {
                clear_uncommitted: store_res.block_mismatch,
                cancel_validation: false,
                cancel_collations: Vec::new(),
                next: ReceivedNext::Nothing,
            };
        }
        let mut cancel_collations: Vec<ShardIdent> = Vec::new();
        let may_sync = (is_last_mc_block_in_batch || is_key_block) && !check_newer_received(
            store_res.applied_mc_queue_range,
            self.collation_sync_state.last_received_mc_block_seqno,
        );
        let should_sync = if !may_sync {
            false
        } else {
            match self.get_top_mc_block_id_for_next_collation(
                store_res.last_collated_mc_block_id,
            ) {
                None => true,
                Some(top) => match store_res.applied_mc_queue_range {
                    None => false,
                    Some((_first, applied_range_end)) => {
                        let delta: u32 = applied_range_end.saturating_sub(top.seqno);
                        let required: u32 = if is_key_block && !self.active_collators.contains_key(
                            &ShardIdent::masterchain(),
                        ) {
                            1
                        } else {
                            self.config.min_mc_block_delta_from_bc_to_sync
                        };
                        if delta < required {
                            false
                        } else {
                            cancel_collations = self.running_collators();
                            !self.has_active()
                        }
                    },
                },
            }
        };
        let next = if should_sync {
            ReceivedNext::Sync
        } else if store_res.received_and_collated {
            ReceivedNext::Commit
        } else {
            ReceivedNext::Nothing
        };
        ReceivedPlan {
            clear_uncommitted: store_res.block_mismatch,
            cancel_validation: true,
            cancel_collations,
            next,
        }
    }
}

/// When collation was interrupted by a differing master block, no collator is
/// left active, so once the running ones have ended a synchronisation can start.
pub proof fn law_mismatch_stops_collation(
    collators: Map<ShardIdent, CollatorState>,
    block_id: BlockId,
    shard: ShardIdent,
)
    requires
        block_id.is_masterchain(),
        collators.dom().contains(shard),
    ensures
        after_received_mismatch(collators, block_id).dom().contains(shard),
        after_received_mismatch(collators, block_id)[shard] != CollatorState::Active,
        after_received_mismatch(collators, block_id)[shard] != CollatorState::Waiting,
        after_candidate_mismatch(collators, block_id)[shard] != CollatorState::Active,
        after_candidate_mismatch(collators, block_id)[shard] != CollatorState::Waiting,
{
}

/// A collated block gives way to a synchronisation exactly if no master block beyond the
/// next one after the applied ones was received, and its collation was cancelled, or the
/// applied ones are ahead of the last collated one by at least the set number, or nothing
/// was collated before.
pub proof fn law_collation_gives_way_to_the_chain(
    collation_cancelled: bool,
    res: BlockCacheStoreResult,
    last_received: Option<u32>,
    min_delta: u32,
)
    ensures
        candidate_should_sync(collation_cancelled, res, last_received, min_delta) <==> {
            &&& !(res.applied_mc_queue_range matches Some((_, end)) && last_received matches Some(
                last,
            ) && last > end + 1)
            &&& collation_cancelled || (res.applied_mc_queue_range matches Some((_, end)) && (
            res.last_collated_mc_block_id matches Some(collated) ==> end >= collated.seqno
                + min_delta || min_delta == 0))
        },
{
}

/// The applied master blocks are far ahead exactly if they lead by the set number, or by
/// one in the case of a key block on a node that does not collate the masterchain.
pub proof fn law_chain_is_far_ahead(
    range: Option<(u32, u32)>,
    top: BlockId,
    is_key_block: bool,
    collates_master: bool,
    min_delta: u32,
)
    ensures
        applied_far_ahead(range, top, is_key_block, collates_master, min_delta) <==> (
        range matches Some((_, end)) && if is_key_block && !collates_master {
            end > top.seqno
        } else {
            end >= top.seqno + min_delta || min_delta == 0
        }),
        newer_received(range, Some(top.seqno)) <==> (range matches Some((_, end)) && top.seqno > end
            + 1),
        !newer_received(range, None),
{
}

/// After a mismatch of a block the collator of its shard is cancelled: at once if it was
/// collated here or does not run, otherwise when it ends. A mismatch of a master block
/// does the same to the other collators, that of a shard block leaves them alone. No
/// collator is added or removed.
pub proof fn law_mismatch_reaches_the_collators(
    collators: Map<ShardIdent, CollatorState>,
    block_id: BlockId,
    shard: ShardIdent,
)
    ensures
        ({
            let collated = after_candidate_mismatch(collators, block_id);
            let received = after_received_mismatch(collators, block_id);
            let known = collators.dom().contains(shard);
            let runs = collators[shard] == CollatorState::Active || collators[shard]
                == CollatorState::CancelPending;
            let stopped = if runs {
                CollatorState::CancelPending
            } else {
                CollatorState::Cancelled
            };
            &&& collated.dom().contains(shard) == known
            &&& received.dom().contains(shard) == known
            &&& known && shard == block_id.shard ==> collated[shard] == CollatorState::Cancelled
                && received[shard] == stopped
            &&& known && shard != block_id.shard && block_id.shard.workchain == -1
                ==> collated[shard] == stopped && received[shard] == stopped
            &&& known && shard != block_id.shard && block_id.shard.workchain != -1
                ==> collated[shard] == collators[shard] && received[shard] == collators[shard]
        }),
{
}

} // verus!

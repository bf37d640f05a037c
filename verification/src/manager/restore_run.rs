//! The course of restoring the message queue on synchronisation, one step at a
//! time: what is to be loaded, asked and applied next.
use crate::ids::{BlockId, ShardIdent};
use crate::manager::restore::{QueueRestore, ScanAction, ShardScan};
use crate::queue::key::QueueKey;
use crate::shard_map::ShardMap;
use vstd::prelude::*;

verus! {

/// What is waited for.
#[derive(Clone, Copy, Debug)]
pub enum RestoreStage {
    /// The next pending block of the first shard is to be looked at.
    Scan,
    /// The number of the master block that references a shard block.
    AwaitRef(BlockId),
    /// The diff of a block.
    AwaitDiff(BlockId),
    /// A block whose diff is required.
    AwaitBlock(BlockId),
    /// The required diffs of the first shard are to be applied.
    Apply,
    /// A master block that was received, with its shard blocks.
    AwaitSubgraph,
    /// The blocks of a subgraph are to be looked at.
    Received { is_last: bool },
    /// Whether the queue has the diff of a received block.
    AwaitExists { id: BlockId, is_last: bool },
    /// The diffs of a subgraph are applied.
    SubgraphDone { is_last: bool },
    /// Nothing.
    Over,
}

/// What has happened.
#[derive(Debug)]
pub enum RestoreEvent {
    /// What was asked for is done, or nothing was asked for.
    Go,
    RefByMcSeqno(u32),
    /// The last message of a diff. `None` when the diff could not be loaded.
    Diff(Option<QueueKey>),
    /// The blocks before a block.
    Block((BlockId, Option<BlockId>)),
    /// A subgraph: the number of its master block; its blocks, each with the last
    /// message of its diff, the master block first; and whether it is the last.
    Subgraph { mc_seqno: u32, blocks: Vec<(BlockId, QueueKey)>, is_last: bool },
    DiffExists(bool),
}

/// What is to be done.
#[derive(Clone, Copy, Debug)]
pub enum RestoreAction {
    /// Nothing; go on.
    Again,
    LoadRefByMcSeqno(BlockId),
    LoadDiff(BlockId),
    LoadBlock(BlockId),
    /// Apply the diff of a stored block, and check that it continues the sequence
    /// of diffs applied before, if it has to.
    ApplyStored { id: BlockId, check_sequence: bool },
    /// Take the next subgraph out of the cache.
    PopSubgraph,
    AskDiffExists(BlockId),
    /// Apply the diff of a received block, with the same check.
    ApplyReceived { id: BlockId, check_sequence: bool },
    /// The cache may forget the blocks up to those of the subgraph.
    SetGcBoundary,
    /// Commit the diffs, and drop what the queue has not committed.
    Finish,
    /// Give up: a diff is missing.
    Cancel,
}

/// The course of a restore.
pub struct RestoreRun {
    pub restore: QueueRestore,
    pub min_processed_to: ShardMap<QueueKey>,
    /// The shards whose older blocks are still to be looked at.
    pub scans: Vec<ShardScan>,
    /// The received blocks still to be looked at.
    pub received: Vec<(BlockId, QueueKey)>,
    pub stage: RestoreStage,
}

/// What is to be looked at in the shards of a list: those with blocks before the
/// ones received, from these on.
pub open spec fn to_scan(
    keys: Seq<ShardIdent>,
    bounds: Seq<QueueKey>,
    tails: Map<ShardIdent, Vec<BlockId>>,
) -> Seq<(ShardIdent, QueueKey, Seq<BlockId>)>
    decreases keys.len(),
{
    if keys.len() == 0 {
        Seq::empty()
    } else {
        let before = to_scan(keys.drop_last(), bounds.drop_last(), tails);
        if tails.dom().contains(keys.last()) {
            before.push((keys.last(), bounds.last(), tails[keys.last()]@))
        } else {
            before
        }
    }
}

/// What scans start with.
pub open spec fn starts(scans: Seq<ShardScan>) -> Seq<(ShardIdent, QueueKey, Seq<BlockId>)> {
    scans.map_values(|s: ShardScan| (s.shard_id, s.min_processed_to, s.pending@))
}

/// Whether a block has a diff that is not applied yet.
pub open spec fn not_applied(upto: Map<ShardIdent, u32>, shard: ShardIdent, id: BlockId) -> bool {
    id.seqno != 0 && !crate::manager::restore::covered(upto, shard, id.seqno)
}

/// The stage and the action after a pending block was looked at.
pub open spec fn after_scan(action: ScanAction) -> (RestoreStage, RestoreAction) {
    match action {
        ScanAction::Finished => (RestoreStage::Apply, RestoreAction::Again),
        ScanAction::Skip => (RestoreStage::Scan, RestoreAction::Again),
        ScanAction::LoadRefByMcSeqno(id) => (
            RestoreStage::AwaitRef(id),
            RestoreAction::LoadRefByMcSeqno(id),
        ),
        ScanAction::LoadDiff(id) => (RestoreStage::AwaitDiff(id), RestoreAction::LoadDiff(id)),
    }
}

/// Whether an event is one that is waited for.
pub open spec fn is_awaited(stage: RestoreStage, event: RestoreEvent) -> bool {
    match stage {
        RestoreStage::Scan => event is Go,
        RestoreStage::AwaitRef(_) => event is RefByMcSeqno,
        RestoreStage::AwaitDiff(_) => event is Diff,
        RestoreStage::AwaitBlock(_) => event is Block,
        RestoreStage::Apply => event is Go,
        RestoreStage::AwaitSubgraph => event is Subgraph,
        RestoreStage::Received { .. } => event is Go,
        RestoreStage::AwaitExists { .. } => event is DiffExists,
        RestoreStage::SubgraphDone { .. } => event is Go,
        RestoreStage::Over => false,
    }
}

/// One step. The shards are scanned one after the other; the diffs that are
/// required in a shard are applied before the next one is scanned. Then come the
/// received subgraphs, except that with the zerostate there is nothing to apply.
pub open spec fn restore_step(
    before: RestoreRun,
    event: RestoreEvent,
    after: RestoreRun,
    action: RestoreAction,
) -> bool {
    let scan = before.scans@[0];
    &&& after.min_processed_to == before.min_processed_to
    &&& match (before.stage, event) {
        (RestoreStage::Scan, RestoreEvent::Go) => {
            &&& after.received == before.received
            &&& if before.scans@.len() == 0 {
                &&& after.scans@ == before.scans@
                &&& after.restore == before.restore
                &&& after.stage is AwaitSubgraph
                &&& action is PopSubgraph
            } else {
                &&& after.scans@ == before.scans@.update(0, after.scans@[0])
                &&& exists|found: ScanAction|
                    #[trigger] crate::manager::restore::block_looked_at(
                        before.restore,
                        after.restore,
                        scan,
                        after.scans@[0],
                        found,
                    ) && (after.stage, action) == after_scan(found)
            }
        },
        (RestoreStage::AwaitRef(id), RestoreEvent::RefByMcSeqno(seqno)) => {
            &&& after.received == before.received
            &&& after.scans@ == before.scans@
            &&& exists|found: ScanAction|
                #[trigger] crate::manager::restore::ref_looked_at(
                    before.restore,
                    after.restore,
                    id,
                    seqno,
                    found,
                ) && (after.stage, action) == after_scan(found)
        },
        (RestoreStage::AwaitDiff(id), RestoreEvent::Diff(max_message)) => {
            &&& after.received == before.received
            &&& after.scans@ == before.scans@
            &&& match max_message {
                None => after.restore == before.restore && after.stage is Over && action is Cancel,
                Some(max_message) => {
                    let required = scan.min_processed_to.precedes(&max_message);
                    &&& crate::manager::restore::diff_looked_at(
                        before.restore,
                        after.restore,
                        scan,
                        id,
                        max_message,
                        required,
                    )
                    &&& if required {
                        after.stage == RestoreStage::AwaitBlock(id) && action
                            == RestoreAction::LoadBlock(id)
                    } else {
                        after.stage is Scan && action is Again
                    }
                },
            }
        },
        (RestoreStage::AwaitBlock(id), RestoreEvent::Block(prev_ids)) => {
            &&& after.received == before.received
            &&& after.restore == before.restore
            &&& after.scans@ == before.scans@.update(0, after.scans@[0])
            &&& crate::manager::restore::block_required(scan, after.scans@[0], id, prev_ids)
            &&& after.stage is Scan
            &&& action is Again
        },
        (RestoreStage::Apply, RestoreEvent::Go) => {
            &&& after.received == before.received
            &&& if scan.required@.len() == 0 {
                &&& after.restore == before.restore
                &&& after.scans@ == before.scans@.skip(1)
                &&& after.stage is Scan
                &&& action is Again
            } else {
                let id = scan.required@.last();
                let check_sequence = before.restore.needs_sequence(id);
                &&& after.scans@ == before.scans@.update(0, after.scans@[0])
                &&& crate::manager::restore::diff_taken(
                    before.restore,
                    after.restore,
                    scan,
                    after.scans@[0],
                    Some((id, check_sequence)),
                )
                &&& after.stage is Apply
                &&& action == (RestoreAction::ApplyStored { id, check_sequence })
            }
        },
        (
            RestoreStage::AwaitSubgraph,
            RestoreEvent::Subgraph { mc_seqno, blocks, is_last },
        ) => {
            &&& after.restore == before.restore
            &&& after.scans@ == before.scans@
            &&& after.received@ == if mc_seqno == 0 {
                Seq::empty()
            } else {
                blocks@
            }
            &&& after.stage == (RestoreStage::Received { is_last })
            &&& action is Again
        },
        (RestoreStage::Received { is_last }, RestoreEvent::Go) => {
            &&& after.restore == before.restore
            &&& after.scans@ == before.scans@
            &&& if before.received@.len() == 0 {
                &&& after.received@ == before.received@
                &&& after.stage == (RestoreStage::SubgraphDone { is_last })
                &&& action is SetGcBoundary
            } else {
                let (id, max_message) = before.received@[0];
                let bounds = before.min_processed_to@;
                let bound = if bounds.dom().contains(id.shard) {
                    Some(bounds[id.shard])
                } else {
                    None
                };
                &&& after.received@ == before.received@.skip(1)
                &&& if before.restore.may_need(id, max_message, bound) {
                    &&& after.stage == (RestoreStage::AwaitExists { id, is_last })
                    &&& action == RestoreAction::AskDiffExists(id)
                } else {
                    &&& after.stage == (RestoreStage::Received { is_last })
                    &&& action is Again
                }
            }
        },
        (RestoreStage::AwaitExists { id, is_last }, RestoreEvent::DiffExists(exists_in_queue)) => {
            &&& after.received == before.received
            &&& after.scans@ == before.scans@
            &&& after.stage == (RestoreStage::Received { is_last })
            &&& exists|r: Option<bool>|
                #[trigger] crate::manager::restore::existence_known(
                    before.restore,
                    after.restore,
                    id,
                    exists_in_queue,
                    r,
                ) && action == match r {
                    Some(check_sequence) => RestoreAction::ApplyReceived { id, check_sequence },
                    None => RestoreAction::Again,
                }
        },
        (RestoreStage::SubgraphDone { is_last }, RestoreEvent::Go) => {
            &&& after.restore == before.restore
            &&& after.scans@ == before.scans@
            &&& after.received == before.received
            &&& if is_last {
                after.stage is Over && action is Finish
            } else {
                after.stage is AwaitSubgraph && action is PopSubgraph
            }
        },
        _ => false,
    }
}

impl RestoreRun {
    /// Whether the parts belong together, and no diff is chosen that is applied
    /// already.
    pub open spec fn wf(&self) -> bool {
        let upto = self.restore.applied_upto@;
        &&& self.restore.wf()
        &&& self.min_processed_to.wf()
        &&& forall|i: int, j: int|
            #![trigger self.scans@[i].required@[j]]
            0 <= i < self.scans@.len() && 0 <= j < self.scans@[i].required@.len() ==> not_applied(
                upto,
                self.scans@[i].shard_id,
                self.scans@[i].required@[j],
            )
        &&& match self.stage {
            RestoreStage::AwaitRef(id) | RestoreStage::AwaitDiff(id) | RestoreStage::AwaitBlock(
                id,
            ) => self.scans@.len() > 0 && not_applied(upto, self.scans@[0].shard_id, id),
            RestoreStage::Apply => self.scans@.len() > 0,
            RestoreStage::AwaitExists { id, .. } => not_applied(upto, id.shard, id),
            _ => true,
        }
    }

    /// The start: each shard is scanned for which it is known how far its messages
    /// are processed and which blocks come before those received.
    pub fn new(
        init_mc_block_id: Option<BlockId>,
        applied_upto: ShardMap<u32>,
        min_processed_to: ShardMap<QueueKey>,
        before_tail_block_ids: ShardMap<Vec<BlockId>>,
    ) -> (r: Self)
        requires
            applied_upto.wf(),
            min_processed_to.wf(),
            before_tail_block_ids.wf(),
        ensures
            r.wf(),
            r.restore.init_mc_block_id == init_mc_block_id,
            r.restore.applied_upto == applied_upto,
            r.restore.first_required_diffs@ == Map::<ShardIdent, BlockId>::empty(),
            r.restore.init_mc_block_reached_on@ == Map::<ShardIdent, u32>::empty(),
            r.restore.applied_diffs_ids@.len() == 0,
            r.min_processed_to == min_processed_to,
            starts(r.scans@) == to_scan(
                min_processed_to.keys@,
                min_processed_to.values@,
                before_tail_block_ids@,
            ),
            forall|i: int|
                0 <= i < r.scans@.len() ==> (#[trigger] r.scans@[i]).required@.len() == 0,
            r.received@.len() == 0,
            r.stage is Scan,
    {
        let ghost tails = before_tail_block_ids@;
        let ghost keys = min_processed_to.keys@;
        let ghost bounds = min_processed_to.values@;
        let mut before_tail_block_ids = before_tail_block_ids;
        let mut scans: Vec<ShardScan> = Vec::new();
        let mut i: usize = 0;
        assert(starts(scans@) =~= to_scan(keys.take(0), bounds.take(0), tails));
        while i < min_processed_to.keys.len()
            invariant
                min_processed_to.wf(),
                before_tail_block_ids.wf(),
                keys == min_processed_to.keys@,
                bounds == min_processed_to.values@,
                i <= keys.len(),
                starts(scans@) == to_scan(keys.take(i as int), bounds.take(i as int), tails),
                forall|j: int|
                    0 <= j < scans@.len() ==> (#[trigger] scans@[j]).required@.len() == 0,
                forall|j: int|
                    i <= j < keys.len() ==> before_tail_block_ids@.dom().contains(
                        #[trigger] keys[j],
                    ) == tails.dom().contains(keys[j]),
                forall|s: ShardIdent| #[trigger]
                    before_tail_block_ids@.dom().contains(s) ==> tails.dom().contains(s)
                        && before_tail_block_ids@[s] == tails[s],
            decreases keys.len() - i,
        {
            let shard: ShardIdent = min_processed_to.keys[i];
            let bound: QueueKey = min_processed_to.values[i];
            let ghost scanned = starts(scans@);
            proof {
                assert(keys.take(i + 1).drop_last() =~= keys.take(i as int));
                assert(bounds.take(i + 1).drop_last() =~= bounds.take(i as int));
                assert(keys[i as int] == shard);
            }
            if let Some(prev_block_ids) = before_tail_block_ids.remove(&shard) {
                scans.push(ShardScan::new(shard, bound, prev_block_ids));
                assert(starts(scans@) =~= scanned.push((shard, bound, tails[shard]@)));
            }
            i = i + 1;
        }
        proof {
            assert(keys.take(i as int) =~= keys);
            assert(bounds.take(i as int) =~= bounds);
        }
        RestoreRun {
            restore: QueueRestore::new(init_mc_block_id, applied_upto),
            min_processed_to,
            scans,
            received: Vec::new(),
            stage: RestoreStage::Scan,
        }
    }

    /// Goes on after a block was looked at.
    fn follow(&mut self, found: ScanAction) -> (action: RestoreAction)
        ensures
            *final(self) == (RestoreRun { stage: after_scan(found).0, ..*old(self) }),
            action == after_scan(found).1,
    {
        match found {
            ScanAction::Finished => {
                self.stage = RestoreStage::Apply;
                RestoreAction::Again
            },
            ScanAction::Skip => {
                self.stage = RestoreStage::Scan;
                RestoreAction::Again
            },
            ScanAction::LoadRefByMcSeqno(id) => {
                self.stage = RestoreStage::AwaitRef(id);
                RestoreAction::LoadRefByMcSeqno(id)
            },
            ScanAction::LoadDiff(id) => {
                self.stage = RestoreStage::AwaitDiff(id);
                RestoreAction::LoadDiff(id)
            },
        }
    }

    /// Looks at the next pending block of the first shard.
    fn scan_next(&mut self) -> (action: RestoreAction)
        requires
            old(self).wf(),
            old(self).stage is Scan,
        ensures
            final(self).wf(),
            restore_step(*old(self), RestoreEvent::Go, *final(self), action),
    {
        if self.scans.len() == 0 {
            self.stage = RestoreStage::AwaitSubgraph;
            return RestoreAction::PopSubgraph;
        }
        let mut scan = self.scans.remove(0);
        let found = self.restore.next_block(&mut scan);
        self.scans.insert(0, scan);
        assert(self.scans@ =~= old(self).scans@.update(0, self.scans@[0]));
        self.follow(found)
    }

    /// Takes the next required diff of the first shard, or leaves the shard.
    fn apply_next(&mut self) -> (action: RestoreAction)
        requires
            old(self).wf(),
            old(self).stage is Apply,
        ensures
            final(self).wf(),
            restore_step(*old(self), RestoreEvent::Go, *final(self), action),
    {
        let mut scan = self.scans.remove(0);
        assert(self.scans@ =~= old(self).scans@.skip(1));
        match self.restore.next_diff_to_apply(&mut scan) {
            Some((id, check_sequence)) => {
                self.scans.insert(0, scan);
                assert(self.scans@ =~= old(self).scans@.update(0, self.scans@[0]));
                RestoreAction::ApplyStored { id, check_sequence }
            },
            None => {
                self.stage = RestoreStage::Scan;
                RestoreAction::Again
            },
        }
    }

    /// Looks at the next received block, or ends the subgraph.
    fn look_at_received(&mut self, is_last: bool) -> (action: RestoreAction)
        requires
            old(self).wf(),
            old(self).stage == (RestoreStage::Received { is_last }),
        ensures
            final(self).wf(),
            restore_step(*old(self), RestoreEvent::Go, *final(self), action),
    {
        if self.received.len() == 0 {
            self.stage = RestoreStage::SubgraphDone { is_last };
            return RestoreAction::SetGcBoundary;
        }
        let (id, max_message): (BlockId, QueueKey) = self.received.remove(0);
        assert(self.received@ =~= old(self).received@.skip(1));
        let bound = self.min_processed_to.get(&id.shard);
        if self.restore.cached_diff_needed(&id, &max_message, bound) {
            self.stage = RestoreStage::AwaitExists { id, is_last };
            RestoreAction::AskDiffExists(id)
        } else {
            RestoreAction::Again
        }
    }

    /// Takes an event into account and says what to do next.
    pub fn step(&mut self, event: RestoreEvent) -> (action: RestoreAction)
        requires
            old(self).wf(),
            is_awaited(old(self).stage, event),
        ensures
            final(self).wf(),
            restore_step(*old(self), event, *final(self), action),
    {
        match self.stage {
            RestoreStage::Scan => self.scan_next(),
            RestoreStage::AwaitRef(id) => match event {
                RestoreEvent::RefByMcSeqno(seqno) => {
                    let found = self.restore.on_ref_by_mc_seqno(&id, seqno);
                    self.follow(found)
                },
                _ => RestoreAction::Again,
            },
            RestoreStage::AwaitDiff(id) => match event {
                RestoreEvent::Diff(None) => {
                    self.stage = RestoreStage::Over;
                    RestoreAction::Cancel
                },
                RestoreEvent::Diff(Some(max_message)) => {
                    let required = self.restore.on_diff(&self.scans[0], &id, &max_message);
                    if required {
                        self.stage = RestoreStage::AwaitBlock(id);
                        RestoreAction::LoadBlock(id)
                    } else {
                        self.stage = RestoreStage::Scan;
                        RestoreAction::Again
                    }
                },
                _ => RestoreAction::Again,
            },
            RestoreStage::AwaitBlock(id) => match event {
                RestoreEvent::Block(prev_ids) => {
                    let mut scan = self.scans.remove(0);
                    scan.on_block(id, prev_ids);
                    self.scans.insert(0, scan);
                    self.stage = RestoreStage::Scan;
                    assert(self.scans@ =~= old(self).scans@.update(0, self.scans@[0]));
                    RestoreAction::Again
                },
                _ => RestoreAction::Again,
            },
            RestoreStage::Apply => self.apply_next(),
            RestoreStage::AwaitSubgraph => match event {
                RestoreEvent::Subgraph { mc_seqno, blocks, is_last } => {
                    self.received = if mc_seqno == 0 {
                        Vec::new()
                    } else {
                        blocks
                    };
                    self.stage = RestoreStage::Received { is_last };
                    RestoreAction::Again
                },
                _ => RestoreAction::Again,
            },
            RestoreStage::Received { is_last } => self.look_at_received(is_last),
            RestoreStage::AwaitExists { id, is_last } => match event {
                RestoreEvent::DiffExists(exists_in_queue) => {
                    self.stage = RestoreStage::Received { is_last };
                    match self.restore.on_diff_exists(&id, exists_in_queue) {
                        Some(check_sequence) => RestoreAction::ApplyReceived { id, check_sequence },
                        None => RestoreAction::Again,
                    }
                },
                _ => RestoreAction::Again,
            },
            RestoreStage::SubgraphDone { is_last } => {
                if is_last {
                    self.stage = RestoreStage::Over;
                    RestoreAction::Finish
                } else {
                    self.stage = RestoreStage::AwaitSubgraph;
                    RestoreAction::PopSubgraph
                }
            },
            RestoreStage::Over => RestoreAction::Again,
        }
    }
}

/// A diff that is applied already is never chosen to be applied again.
pub proof fn law_applied_diffs_are_new(
    before: RestoreRun,
    event: RestoreEvent,
    after: RestoreRun,
    action: RestoreAction,
)
    requires
        before.wf(),
        restore_step(before, event, after, action),
    ensures
        action matches RestoreAction::ApplyStored { id, .. } ==> not_applied(
            before.restore.applied_upto@,
            before.scans@[0].shard_id,
            id,
        ),
        action matches RestoreAction::ApplyReceived { id, .. } ==> not_applied(
            before.restore.applied_upto@,
            id.shard,
            id,
        ),
        after.restore.applied_upto == before.restore.applied_upto,
{
    if let RestoreAction::ApplyStored { .. } = action {
        let required = before.scans@[0].required@;
        assert(before.scans@[0].required@[required.len() - 1] == required.last());
    }
}

/// What is applied is noted, and nothing else is: each step that applies a diff
/// adds its block to those whose diffs were applied.
pub proof fn law_applied_diffs_are_noted(
    before: RestoreRun,
    event: RestoreEvent,
    after: RestoreRun,
    action: RestoreAction,
)
    requires
        restore_step(before, event, after, action),
    ensures
        after.restore.applied_diffs_ids@ == (match action {
            RestoreAction::ApplyStored { id, .. } => before.restore.applied_diffs_ids@.push(id),
            RestoreAction::ApplyReceived { id, .. } => before.restore.applied_diffs_ids@.push(id),
            _ => before.restore.applied_diffs_ids@,
        }),
{
}

/// A step does what its event calls for: what is loaded is about the block that is asked
/// for, required diffs are applied before the next shard is looked at, and all shards
/// before the received blocks. A diff that cannot be loaded ends the restore without a
/// result, and it ends with one only after the last subgraph.
pub proof fn law_restore_goes_through_its_stages(
    before: RestoreRun,
    event: RestoreEvent,
    after: RestoreRun,
    action: RestoreAction,
)
    requires
        before.wf(),
        restore_step(before, event, after, action),
    ensures
        action is Cancel <==> before.stage is AwaitDiff && (event matches RestoreEvent::Diff(
            message,
        ) && message is None),
        action is Finish <==> (before.stage matches RestoreStage::SubgraphDone { is_last }
            && is_last),
        action is Cancel || action is Finish <==> after.stage is Over,
        action is PopSubgraph <==> after.stage is AwaitSubgraph,
        action is PopSubgraph ==> before.scans@.len() == 0 || before.stage is SubgraphDone,
        action is SetGcBoundary <==> before.stage is Received && before.received@.len() == 0,
        action is ApplyStored ==> before.stage is Apply && after.stage is Apply,
        after.scans@.len() < before.scans@.len() ==> before.stage is Apply
            && before.scans@[0].required@.len() == 0 && after.scans@ == before.scans@.skip(1),
        after.scans@.len() <= before.scans@.len(),
        action matches RestoreAction::LoadDiff(id) ==> after.stage == RestoreStage::AwaitDiff(id),
        action matches RestoreAction::LoadBlock(id) ==> after.stage == RestoreStage::AwaitBlock(id)
            && before.stage == RestoreStage::AwaitDiff(id),
        action matches RestoreAction::LoadRefByMcSeqno(id) ==> after.stage
            == RestoreStage::AwaitRef(id),
        action matches RestoreAction::AskDiffExists(id) ==> before.received@.len() > 0 && id
            == before.received@[0].0,
        action matches RestoreAction::ApplyReceived { id, .. } ==> (
        before.stage matches RestoreStage::AwaitExists { id: asked, .. } && asked == id && event
            == RestoreEvent::DiffExists(false)),
{
}

/// While a shard is looked at, each pending block leads to what its look says: a block that
/// is passed over to the next one, the end of the list to the diffs that are required, and
/// a diff that is required to its block.
pub proof fn law_scan_follows_what_is_found(
    before: RestoreRun,
    event: RestoreEvent,
    after: RestoreRun,
    action: RestoreAction,
)
    requires
        restore_step(before, event, after, action),
    ensures
        before.stage is Scan && before.scans@.len() > 0 && before.scans@[0].pending@.len() == 0
            ==> after.stage is Apply && action is Again,
        before.stage is Scan && before.scans@.len() > 0 && before.scans@[0].pending@.len() > 0 ==> (
        action is Again <==> after.stage is Scan) && (action matches RestoreAction::LoadDiff(id)
            ==> id == before.scans@[0].pending@[0]) && (
        action matches RestoreAction::LoadRefByMcSeqno(id) ==> id
            == before.scans@[0].pending@[0]) && (action is Again || action is LoadDiff || action
            is LoadRefByMcSeqno),
        (before.stage matches RestoreStage::AwaitDiff(id) && event matches RestoreEvent::Diff(
            message,
        ) && message is Some) ==> ({
            let bound = before.scans@[0].min_processed_to;
            let last = event->Diff_0->0;
            let required = bound.lt < last.lt || (bound.lt == last.lt && bound.hash.value()
                < last.hash.value());
            &&& required <==> action is LoadBlock
            &&& !required <==> action is Again && after.stage is Scan
        }),
        before.stage is Apply && before.scans@[0].required@.len() > 0 ==> (
        action matches RestoreAction::ApplyStored { id, .. } && id
            == before.scans@[0].required@.last()),
        before.stage is AwaitBlock ==> after.stage is Scan && action is Again,
{
}

/// The blocks of a subgraph are looked at one after the other, except that with the
/// zerostate there are none. A block is asked for exactly if its diff may be needed; and
/// the stage keeps whether the subgraph is the last.
pub proof fn law_subgraph_is_looked_at_whole(
    before: RestoreRun,
    event: RestoreEvent,
    after: RestoreRun,
    action: RestoreAction,
)
    requires
        restore_step(before, event, after, action),
    ensures
        event matches RestoreEvent::Subgraph { mc_seqno, blocks, is_last } ==> after.stage == (
        RestoreStage::Received { is_last }) && (mc_seqno == 0 ==> after.received@.len() == 0) && (
        mc_seqno > 0 ==> after.received@ == blocks@),
        before.stage matches RestoreStage::Received { is_last } ==> (if before.received@.len() == 0 {
            after.stage == (RestoreStage::SubgraphDone { is_last })
        } else {
            let (id, last) = before.received@[0];
            let bounds = before.min_processed_to@;
            let upto = before.restore.applied_upto@;
            let needed = id.seqno > 0 && !(upto.dom().contains(id.shard) && upto[id.shard]
                >= id.seqno) && (bounds.dom().contains(id.shard) ==> bounds[id.shard].lt < last.lt
                || (bounds[id.shard].lt == last.lt && bounds[id.shard].hash.value()
                < last.hash.value()));
            &&& after.received@ == before.received@.skip(1)
            &&& needed <==> action == RestoreAction::AskDiffExists(id) && after.stage == (
            RestoreStage::AwaitExists { id, is_last })
            &&& !needed <==> action is Again && after.stage == (RestoreStage::Received { is_last })
        }),
        before.stage matches RestoreStage::AwaitExists { id, is_last } ==> after.stage == (
        RestoreStage::Received { is_last }) && (action is Again <==> event
            == RestoreEvent::DiffExists(true)),
{
}

/// A shard is looked at exactly if messages are processed to some key there and there are
/// blocks before the received ones; it starts with both.
pub proof fn law_shards_with_older_blocks_are_scanned(
    keys: Seq<ShardIdent>,
    bounds: Seq<QueueKey>,
    tails: Map<ShardIdent, Vec<BlockId>>,
    i: int,
)
    requires
        keys.len() == bounds.len(),
        0 <= i < keys.len(),
    ensures
        to_scan(keys, bounds, tails).len() <= keys.len(),
        tails.dom().contains(keys[i]) ==> to_scan(keys, bounds, tails).contains(
            (keys[i], bounds[i], tails[keys[i]]@),
        ),
        forall|k: int|
            0 <= k < to_scan(keys, bounds, tails).len() ==> tails.dom().contains(
                (#[trigger] to_scan(keys, bounds, tails)[k]).0,
            ) && to_scan(keys, bounds, tails)[k].2 == tails[to_scan(keys, bounds, tails)[k].0]@
                && exists|j: int|
                0 <= j < keys.len() && (#[trigger] keys[j]) == to_scan(keys, bounds, tails)[k].0
                    && bounds[j] == to_scan(keys, bounds, tails)[k].1,
    decreases keys.len(),
{
    let n = keys.len() - 1;
    let rest = to_scan(keys.drop_last(), bounds.drop_last(), tails);
    let all = to_scan(keys, bounds, tails);
    if n > 0 {
        law_shards_with_older_blocks_are_scanned(
            keys.drop_last(),
            bounds.drop_last(),
            tails,
            if i < n {
                i
            } else {
                0
            },
        );
    } else {
        assert(rest.len() == 0);
    }
    if tails.dom().contains(keys[i]) {
        let e = (keys[i], bounds[i], tails[keys[i]]@);
        if i < n {
            assert(keys.drop_last()[i] == keys[i]);
            let k = rest.index_of(e);
            assert(all[k] == e);
        } else {
            assert(all[rest.len() as int] == e);
        }
    }
    assert forall|k: int| 0 <= k < all.len() implies tails.dom().contains((#[trigger] all[k]).0)
        && all[k].2 == tails[all[k].0]@ && exists|j: int|
        0 <= j < keys.len() && (#[trigger] keys[j]) == all[k].0 && bounds[j] == all[k].1 by {
        if k < rest.len() {
            assert(all[k] == rest[k]);
            let j = choose|j: int|
                0 <= j < n && (#[trigger] keys.drop_last()[j]) == rest[k].0
                    && bounds.drop_last()[j] == rest[k].1;
            assert(keys[j] == all[k].0);
        } else {
            assert(keys[n] == all[k].0);
        }
    }
}

/// A block has a diff to apply unless it is a zerostate or at or below what is applied in
/// its shard.
pub proof fn law_diff_above_the_applied_ones_counts(
    upto: Map<ShardIdent, u32>,
    shard: ShardIdent,
    id: BlockId,
)
    ensures
        not_applied(upto, shard, id) <==> id.seqno > 0 && (upto.dom().contains(shard) ==> id.seqno
            > upto[shard]),
{
}

/// Each request has its own answer. Where nothing is asked for, the run just goes on, and
/// after its end nothing is waited for.
pub proof fn law_each_request_has_its_answer(stage: RestoreStage, event: RestoreEvent)
    ensures
        is_awaited(stage, event) ==> !(stage is Over),
        is_awaited(stage, event) && event is RefByMcSeqno ==> stage is AwaitRef,
        is_awaited(stage, event) && event is Diff ==> stage is AwaitDiff,
        is_awaited(stage, event) && event is Block ==> stage is AwaitBlock,
        is_awaited(stage, event) && event is Subgraph ==> stage is AwaitSubgraph,
        is_awaited(stage, event) && event is DiffExists ==> stage is AwaitExists,
        is_awaited(stage, event) && event is Go ==> stage is Scan || stage is Apply || stage
            is Received || stage is SubgraphDone,
        stage is AwaitRef && event is RefByMcSeqno || stage is AwaitDiff && event is Diff || stage
            is AwaitBlock && event is Block || stage is AwaitSubgraph && event is Subgraph || stage
            is AwaitExists && event is DiffExists || (stage is Scan || stage is Apply || stage
            is Received || stage is SubgraphDone) && event is Go ==> is_awaited(stage, event),
{
}

} // verus!

//! Restoring the message queue on synchronisation: which diffs have to be
//! applied, and which of them have to continue an unbroken sequence.
use crate::ids::{BlockId, ShardIdent};
use crate::queue::key::QueueKey;
use crate::shard_map::ShardMap;
use vstd::prelude::*;

verus! {

/// What is known while the queue is restored.
pub struct QueueRestore {
    /// The master block of the persistent state that the node started from. The
    /// queue was already restored up to it.
    pub init_mc_block_id: Option<BlockId>,
    /// The blocks of each shard up to which diffs are applied already.
    pub applied_upto: ShardMap<u32>,
    /// The first diff of each shard that is required. The default id stands for
    /// one before all that follow.
    pub first_required_diffs: ShardMap<BlockId>,
    /// The block of each shard found to be covered by the persistent state.
    pub init_mc_block_reached_on: ShardMap<u32>,
    /// The blocks whose diffs were applied.
    pub applied_diffs_ids: Vec<BlockId>,
}

/// The search for the required diffs of one shard, from newer to older blocks.
pub struct ShardScan {
    pub shard_id: ShardIdent,
    pub min_processed_to: QueueKey,
    /// Blocks still to be looked at, the next one first.
    pub pending: Vec<BlockId>,
    /// Blocks whose diffs are required, in the order found.
    pub required: Vec<BlockId>,
}

/// What the search needs next.
#[derive(Clone, Copy, Debug)]
pub enum ScanAction {
    /// Nothing is pending.
    Finished,
    /// The diff of the block is not needed.
    Skip,
    /// The number of the master block that references this shard block.
    LoadRefByMcSeqno(BlockId),
    /// The diff of the block.
    LoadDiff(BlockId),
}

/// Whether a shard has diffs applied up to a block number.
pub open spec fn covered(upto: Map<ShardIdent, u32>, shard: ShardIdent, seqno: u32) -> bool {
    upto.dom().contains(shard) && seqno <= upto[shard]
}

/// Whether every later diff of a shard continues a sequence.
pub open spec fn marked(first: Map<ShardIdent, BlockId>, shard: ShardIdent) -> bool {
    first.dom().contains(shard) && first[shard].is_default()
}

/// The first required diff of a shard is marked as one before all that follow; the
/// others stay.
pub open spec fn marked_in(
    before: Map<ShardIdent, BlockId>,
    after: Map<ShardIdent, BlockId>,
    shard: ShardIdent,
) -> bool {
    &&& marked(after, shard)
    &&& after.dom() == before.dom().insert(shard)
    &&& forall|s: ShardIdent|
        s != shard && before.dom().contains(s) ==> #[trigger] after[s] == before[s]
}

/// Nothing but the first required diffs differs.
pub open spec fn same_but_first(before: QueueRestore, after: QueueRestore) -> bool {
    &&& after.applied_upto == before.applied_upto
    &&& after.init_mc_block_id == before.init_mc_block_id
    &&& after.init_mc_block_reached_on == before.init_mc_block_reached_on
    &&& after.applied_diffs_ids == before.applied_diffs_ids
}

/// The next pending block was looked at. The zerostate has no diff, a diff that is
/// applied already is not needed, nor is one that the persistent state covers;
/// whether it covers a shard block is told by the master block that references it.
pub open spec fn block_looked_at(
    before: QueueRestore,
    after: QueueRestore,
    scan_before: ShardScan,
    scan_after: ShardScan,
    r: ScanAction,
) -> bool {
    let first = before.first_required_diffs;
    &&& same_but_first(before, after)
    &&& scan_after.shard_id == scan_before.shard_id
    &&& scan_after.min_processed_to == scan_before.min_processed_to
    &&& scan_after.required == scan_before.required
    &&& if scan_before.pending@.len() == 0 {
        &&& r is Finished
        &&& scan_after.pending@ == scan_before.pending@
        &&& after.first_required_diffs == first
    } else {
        let id = scan_before.pending@[0];
        let init = before.init_mc_block_id;
        &&& scan_after.pending@ == scan_before.pending@.skip(1)
        &&& if id.seqno == 0 || covered(before.applied_upto@, scan_before.shard_id, id.seqno) {
            &&& r is Skip
            &&& after.first_required_diffs == first
        } else if init is None {
            &&& r == ScanAction::LoadDiff(id)
            &&& after.first_required_diffs == first
        } else if (id.is_masterchain() && id.seqno <= init->0.seqno) || (!id.is_masterchain()
            && covered(before.init_mc_block_reached_on@, id.shard, id.seqno)) {
            &&& r is Skip
            &&& marked_in(first@, after.first_required_diffs@, id.shard)
        } else {
            &&& r == if id.is_masterchain() {
                ScanAction::LoadDiff(id)
            } else {
                ScanAction::LoadRefByMcSeqno(id)
            }
            &&& after.first_required_diffs == first
        }
    }
}

/// The master block that references a shard block became known: the persistent
/// state covers the shard block, or its diff is needed.
pub open spec fn ref_looked_at(
    before: QueueRestore,
    after: QueueRestore,
    id: BlockId,
    ref_by_mc_seqno: u32,
    r: ScanAction,
) -> bool {
    match before.init_mc_block_id {
        Some(init) if ref_by_mc_seqno <= init.seqno => {
            &&& r is Skip
            &&& after.applied_upto == before.applied_upto
            &&& after.init_mc_block_id == before.init_mc_block_id
            &&& after.applied_diffs_ids == before.applied_diffs_ids
            &&& marked_in(before.first_required_diffs@, after.first_required_diffs@, id.shard)
            &&& after.init_mc_block_reached_on@ == before.init_mc_block_reached_on@.insert(
                id.shard,
                id.seqno,
            )
        },
        _ => r == ScanAction::LoadDiff(id) && after == before,
    }
}

/// A diff became known: it is required if not all of its messages are processed.
pub open spec fn diff_looked_at(
    before: QueueRestore,
    after: QueueRestore,
    scan: ShardScan,
    id: BlockId,
    max_message: QueueKey,
    required: bool,
) -> bool {
    &&& required == scan.min_processed_to.precedes(&max_message)
    &&& same_but_first(before, after)
    &&& after.first_required_diffs@ == if required {
        before.first_required_diffs@.insert(id.shard, id)
    } else {
        before.first_required_diffs@
    }
}

/// A block with a required diff became known: the blocks before it are pending.
pub open spec fn block_required(
    before: ShardScan,
    after: ShardScan,
    id: BlockId,
    prev_ids: (BlockId, Option<BlockId>),
) -> bool {
    &&& after.shard_id == before.shard_id
    &&& after.min_processed_to == before.min_processed_to
    &&& after.required@ == before.required@.push(id)
    &&& after.pending@ == match prev_ids.1 {
        Some(second) => before.pending@.push(prev_ids.0).push(second),
        None => before.pending@.push(prev_ids.0),
    }
}

/// The required diff that was found last was taken to be applied.
pub open spec fn diff_taken(
    before: QueueRestore,
    after: QueueRestore,
    scan_before: ShardScan,
    scan_after: ShardScan,
    r: Option<(BlockId, bool)>,
) -> bool {
    &&& scan_after.shard_id == scan_before.shard_id
    &&& scan_after.min_processed_to == scan_before.min_processed_to
    &&& scan_after.pending == scan_before.pending
    &&& if scan_before.required@.len() == 0 {
        &&& r is None
        &&& scan_after.required@ == scan_before.required@
        &&& after == before
    } else {
        let id = scan_before.required@.last();
        &&& r == Some((id, before.needs_sequence(id)))
        &&& scan_after.required@ == scan_before.required@.drop_last()
        &&& after.applied_diffs_ids@ == before.applied_diffs_ids@.push(id)
        &&& after == (QueueRestore { applied_diffs_ids: after.applied_diffs_ids, ..before })
    }
}

/// It became known whether the queue has the diff of a received block.
pub open spec fn existence_known(
    before: QueueRestore,
    after: QueueRestore,
    id: BlockId,
    exists_in_queue: bool,
    r: Option<bool>,
) -> bool {
    let first = before.first_required_diffs@;
    &&& after.applied_upto == before.applied_upto
    &&& after.init_mc_block_id == before.init_mc_block_id
    &&& after.init_mc_block_reached_on == before.init_mc_block_reached_on
    &&& if exists_in_queue {
        &&& r is None
        &&& marked_in(first, after.first_required_diffs@, id.shard)
        &&& after.applied_diffs_ids == before.applied_diffs_ids
    } else {
        let known = first.dom().contains(id.shard);
        &&& r == Some(known && before.needs_sequence(id))
        &&& after.first_required_diffs@ == if known {
            first
        } else {
            first.insert(id.shard, id)
        }
        &&& after.applied_diffs_ids@ == before.applied_diffs_ids@.push(id)
    }
}

impl QueueRestore {
    /// Whether the diff of a received block may have to be applied.
    pub open spec fn may_need(
        &self,
        id: BlockId,
        max_message: QueueKey,
        min_processed_to: Option<QueueKey>,
    ) -> bool {
        &&& id.seqno != 0
        &&& !covered(self.applied_upto@, id.shard, id.seqno)
        &&& min_processed_to matches Some(min) ==> min.precedes(&max_message)
    }

    /// No shard is listed twice.
    pub open spec fn wf(&self) -> bool {
        &&& self.applied_upto.wf()
        &&& self.first_required_diffs.wf()
        &&& self.init_mc_block_reached_on.wf()
    }

    /// Whether the sequence of a diff has to be checked: it has, unless the diff
    /// is the first one required in its shard.
    pub open spec fn needs_sequence(&self, block_id: BlockId) -> bool {
        let first = self.first_required_diffs@;
        !(first.dom().contains(block_id.shard) && first[block_id.shard] == block_id)
    }

    /// What is known before the search.
    pub fn new(init_mc_block_id: Option<BlockId>, applied_upto: ShardMap<u32>) -> (r: Self)
        requires
            applied_upto.wf(),
        ensures
            r.wf(),
            r.init_mc_block_id == init_mc_block_id,
            r.applied_upto == applied_upto,
            r.first_required_diffs@ == Map::<ShardIdent, BlockId>::empty(),
            r.init_mc_block_reached_on@ == Map::<ShardIdent, u32>::empty(),
            r.applied_diffs_ids@.len() == 0,
    {
        QueueRestore {
            init_mc_block_id,
            applied_upto,
            first_required_diffs: ShardMap::new(),
            init_mc_block_reached_on: ShardMap::new(),
            applied_diffs_ids: Vec::new(),
        }
    }

    /// Whether the diffs of a shard are applied up to a block number.
    fn is_applied(&self, shard: &ShardIdent, seqno: u32) -> (r: bool)
        requires
            self.wf(),
        ensures
            r == covered(self.applied_upto@, *shard, seqno),
    {
        match self.applied_upto.get(shard) {
            Some(border) => seqno <= *border,
            None => false,
        }
    }

    /// The persistent state covers a block: all later diffs of its shard
    /// continue a sequence.
    fn mark(&mut self, shard: ShardIdent)
        requires
            old(self).wf(),
        ensures
            final(self).wf(),
            marked_in(
                old(self).first_required_diffs@,
                final(self).first_required_diffs@,
                shard,
            ),
            *final(self) == (QueueRestore {
                first_required_diffs: final(self).first_required_diffs,
                ..*old(self)
            }),
    {
        self.first_required_diffs.insert(shard, BlockId::default());
    }

    /// Looks at the next pending block. The zerostate has no diff, a diff that
    /// is applied already is not needed, nor is one that the persistent state
    /// covers; whether it covers a shard block is told by the master block that
    /// references it.
    pub fn next_block(&mut self, scan: &mut ShardScan) -> (r: ScanAction)
        requires
            old(self).wf(),
        ensures
            final(self).wf(),
            block_looked_at(*old(self), *final(self), *old(scan), *final(scan), r),
    {
        if scan.pending.len() == 0 {
            return ScanAction::Finished;
        }
        let id: BlockId = scan.pending.remove(0);
        assert(scan.pending@ =~= old(scan).pending@.skip(1));
        if id.seqno == 0 || self.is_applied(&scan.shard_id, id.seqno) {
            return ScanAction::Skip;
        }
        match self.init_mc_block_id {
            None => ScanAction::LoadDiff(id),
            Some(init) => {
                if id.is_masterchain() {
                    if id.seqno <= init.seqno {
                        self.mark(id.shard);
                        ScanAction::Skip
                    } else {
                        ScanAction::LoadDiff(id)
                    }
                } else {
                    let reached = match self.init_mc_block_reached_on.get(&id.shard) {
                        Some(seqno) => id.seqno <= *seqno,
                        None => false,
                    };
                    if reached {
                        self.mark(id.shard);
                        ScanAction::Skip
                    } else {
                        ScanAction::LoadRefByMcSeqno(id)
                    }
                }
            },
        }
    }

    /// Goes on with a shard block once the master block that references it is
    /// known.
    pub fn on_ref_by_mc_seqno(&mut self, id: &BlockId, ref_by_mc_seqno: u32) -> (r: ScanAction)
        requires
            old(self).wf(),
        ensures
            final(self).wf(),
            ref_looked_at(*old(self), *final(self), *id, ref_by_mc_seqno, r),
    {
        match self.init_mc_block_id {
            Some(init) => {
                if ref_by_mc_seqno <= init.seqno {
                    self.init_mc_block_reached_on.insert(id.shard, id.seqno);
                    self.mark(id.shard);
                    return ScanAction::Skip;
                }
            },
            None => {},
        }
        ScanAction::LoadDiff(*id)
    }

    /// Whether a diff is required: not all of its messages are processed. Older
    /// diffs are looked at only behind a required one, so it counts as the first
    /// required until an older one is found.
    pub fn on_diff(&mut self, scan: &ShardScan, id: &BlockId, max_message: &QueueKey) -> (r: bool)
        requires
            old(self).wf(),
        ensures
            final(self).wf(),
            diff_looked_at(*old(self), *final(self), *scan, *id, *max_message, r),
    {
        if scan.min_processed_to.less(max_message) {
            self.first_required_diffs.insert(id.shard, *id);
            true
        } else {
            false
        }
    }

    /// The next required diff to apply, the oldest first, and whether it has to
    /// continue the sequence of diffs applied before.
    pub fn next_diff_to_apply(&mut self, scan: &mut ShardScan) -> (r: Option<(BlockId, bool)>)
        requires
            old(self).wf(),
        ensures
            final(self).wf(),
            diff_taken(*old(self), *final(self), *old(scan), *final(scan), r),
    {
        match scan.required.pop() {
            None => None,
            Some(id) => {
                let check = match self.first_required_diffs.get(&id.shard) {
                    Some(first) => !first.same(&id),
                    None => true,
                };
                self.applied_diffs_ids.push(id);
                Some((id, check))
            },
        }
    }

    /// Whether the diff of a received block may have to be applied: not that of
    /// the zerostate, not one applied before, and not one whose messages are all
    /// processed. Whether the queue has it is to be asked next.
    pub fn cached_diff_needed(
        &self,
        id: &BlockId,
        max_message: &QueueKey,
        min_processed_to: Option<&QueueKey>,
    ) -> (r: bool)
        requires
            self.wf(),
        ensures
            r == self.may_need(
                *id,
                *max_message,
                match min_processed_to {
                    Some(min) => Some(*min),
                    None => None,
                },
            ),
    {
        if id.seqno == 0 || self.is_applied(&id.shard, id.seqno) {
            return false;
        }
        match min_processed_to {
            Some(min) => min.less(max_message),
            None => true,
        }
    }

    /// Goes on with the diff of a received block once it is known whether the
    /// queue has it: `None` if so. Otherwise the diff is applied, and the result
    /// says whether it has to continue the sequence of diffs applied before.
    pub fn on_diff_exists(&mut self, id: &BlockId, exists_in_queue: bool) -> (r: Option<bool>)
        requires
            old(self).wf(),
        ensures
            final(self).wf(),
            existence_known(*old(self), *final(self), *id, exists_in_queue, r),
    {
        if exists_in_queue {
            self.mark(id.shard);
            return None;
        }
        let check: Option<bool> = match self.first_required_diffs.get(&id.shard) {
            Some(first) => Some(!first.same(id)),
            None => None,
        };
        self.applied_diffs_ids.push(*id);
        match check {
            Some(check) => Some(check),
            None => {
                self.first_required_diffs.insert(id.shard, *id);
                Some(false)
            },
        }
    }
}

impl ShardScan {
    /// The search starts at the blocks before those received.
    pub fn new(shard_id: ShardIdent, min_processed_to: QueueKey, prev_block_ids: Vec<BlockId>) -> (r:
        Self)
        ensures
            r.shard_id == shard_id,
            r.min_processed_to == min_processed_to,
            r.pending == prev_block_ids,
            r.required@.len() == 0,
    {
        ShardScan { shard_id, min_processed_to, pending: prev_block_ids, required: Vec::new() }
    }

    /// Adds a required diff, and looks behind it at the blocks that its block
    /// follows.
    pub fn on_block(&mut self, id: BlockId, prev_ids: (BlockId, Option<BlockId>))
        ensures
            block_required(*old(self), *final(self), id, prev_ids),
    {
        self.required.push(id);
        self.pending.push(prev_ids.0);
        if let Some(second) = prev_ids.1 {
            self.pending.push(second);
        }
    }
}

/// At most one diff of a shard is applied without a check of its sequence.
pub proof fn law_one_unchecked_diff_per_shard(restore: QueueRestore, a: BlockId, b: BlockId)
    requires
        a.shard == b.shard,
        !restore.needs_sequence(a),
        !restore.needs_sequence(b),
    ensures
        a == b,
{
}

/// Once the persistent state or the queue itself is found to cover a block of a
/// shard, every diff of that shard is checked.
pub proof fn law_marked_shard_is_checked(restore: QueueRestore, id: BlockId)
    requires
        marked(restore.first_required_diffs@, id.shard),
        id.seqno != 0,
    ensures
        restore.needs_sequence(id),
{
}

/// The next pending block of a shard is taken off the list. Its diff is passed over exactly
/// if it is the zerostate, if diffs of the shard are applied up to it, or if the persistent
/// state is known to cover it. For a shard block of which that is not known yet, with a
/// persistent state, the master block that references it is asked for; otherwise the diff
/// is.
pub proof fn law_pending_block_is_looked_at(
    before: QueueRestore,
    after: QueueRestore,
    scan_before: ShardScan,
    scan_after: ShardScan,
    r: ScanAction,
)
    requires
        block_looked_at(before, after, scan_before, scan_after, r),
    ensures
        r is Finished <==> scan_before.pending@.len() == 0,
        scan_after.required@ == scan_before.required@,
        after.applied_diffs_ids@ == before.applied_diffs_ids@,
        scan_before.pending@.len() > 0 ==> ({
            let id = scan_before.pending@[0];
            let upto = before.applied_upto@;
            let reached = before.init_mc_block_reached_on@;
            let applied = id.seqno == 0 || (upto.dom().contains(scan_before.shard_id) && id.seqno
                <= upto[scan_before.shard_id]);
            let covered_by_state = before.init_mc_block_id matches Some(init) && if id.shard.workchain
                == -1 {
                id.seqno <= init.seqno
            } else {
                reached.dom().contains(id.shard) && id.seqno <= reached[id.shard]
            };
            &&& scan_after.pending@ == scan_before.pending@.skip(1)
            &&& r is Skip <==> applied || covered_by_state
            &&& r == ScanAction::LoadRefByMcSeqno(id) <==> !applied && !covered_by_state
                && id.shard.workchain != -1 && before.init_mc_block_id is Some
            &&& r == ScanAction::LoadDiff(id) <==> !applied && !covered_by_state && (
            id.shard.workchain == -1 || before.init_mc_block_id is None)
            &&& covered_by_state && !applied ==> after.first_required_diffs@.dom().contains(
                id.shard,
            ) && after.needs_sequence(id)
            &&& !(covered_by_state && !applied) ==> after.first_required_diffs@
                == before.first_required_diffs@
        }),
{
}

/// A shard block is covered by the persistent state exactly if the master block that
/// references it is not after that of the state; its place is then remembered. Otherwise
/// its diff is asked for, and nothing changes.
pub proof fn law_reference_tells_what_is_covered(
    before: QueueRestore,
    after: QueueRestore,
    id: BlockId,
    ref_by_mc_seqno: u32,
    r: ScanAction,
)
    requires
        ref_looked_at(before, after, id, ref_by_mc_seqno, r),
    ensures
        ({
            let is_covered = before.init_mc_block_id matches Some(init) && ref_by_mc_seqno
                <= init.seqno;
            &&& r is Skip <==> is_covered
            &&& r == ScanAction::LoadDiff(id) <==> !is_covered
            &&& !is_covered ==> after == before
            &&& is_covered ==> after.init_mc_block_reached_on@.dom().contains(id.shard)
                && after.init_mc_block_reached_on@[id.shard] == id.seqno
            &&& after.applied_diffs_ids@ == before.applied_diffs_ids@
        }),
{
}

/// A diff is required exactly if its last message is after the one to which messages are
/// processed; the first one required of its shard is then the latest that was found.
pub proof fn law_unprocessed_diff_is_required(
    before: QueueRestore,
    after: QueueRestore,
    scan: ShardScan,
    id: BlockId,
    max_message: QueueKey,
    required: bool,
)
    requires
        diff_looked_at(before, after, scan, id, max_message, required),
    ensures
        required <==> scan.min_processed_to.lt < max_message.lt || (scan.min_processed_to.lt
            == max_message.lt && scan.min_processed_to.hash.value() < max_message.hash.value()),
        required ==> after.first_required_diffs@.dom().contains(id.shard)
            && after.first_required_diffs@[id.shard] == id && !after.needs_sequence(id),
        !required ==> after.first_required_diffs@ == before.first_required_diffs@,
        after.applied_diffs_ids@ == before.applied_diffs_ids@,
{
}

/// Required diffs are applied in the order opposite to that in which they were found, the
/// oldest first: the last one is taken off. It is checked exactly if it is not the first
/// one required of its shard.
pub proof fn law_required_diffs_are_applied_in_order(
    before: QueueRestore,
    after: QueueRestore,
    scan_before: ShardScan,
    scan_after: ShardScan,
    r: Option<(BlockId, bool)>,
)
    requires
        diff_taken(before, after, scan_before, scan_after, r),
    ensures
        r is None <==> scan_before.required@.len() == 0,
        r matches Some((id, check)) ==> {
            let first = before.first_required_diffs@;
            &&& scan_before.required@ == scan_after.required@.push(id)
            &&& after.applied_diffs_ids@ == before.applied_diffs_ids@.push(id)
            &&& check <==> !(first.dom().contains(id.shard) && first[id.shard] == id)
        },
        after.first_required_diffs@ == before.first_required_diffs@,
{
    if scan_before.required@.len() > 0 {
        assert(scan_before.required@ =~= scan_before.required@.drop_last().push(
            scan_before.required@.last(),
        ));
    }
}

/// The blocks before a block with a required diff are looked at after those that are
/// pending, and the block is remembered behind those found before.
pub proof fn law_blocks_before_are_pending(
    before: ShardScan,
    after: ShardScan,
    id: BlockId,
    prev_ids: (BlockId, Option<BlockId>),
)
    requires
        block_required(before, after, id, prev_ids),
    ensures
        after.required@.len() == before.required@.len() + 1,
        after.required@.last() == id,
        after.required@.drop_last() == before.required@,
        after.pending@.len() == before.pending@.len() + if prev_ids.1 is Some {
            2int
        } else {
            1
        },
        after.pending@.take(before.pending@.len() as int) == before.pending@,
        after.pending@[before.pending@.len() as int] == prev_ids.0,
        prev_ids.1 matches Some(second) ==> after.pending@[before.pending@.len() as int + 1]
            == second,
{
    assert(after.required@.drop_last() =~= before.required@);
    assert(after.pending@.take(before.pending@.len() as int) =~= before.pending@);
}

/// A received diff that the queue has is not applied, and every later one of its shard is
/// checked. One that it has not is applied, and it is checked exactly if another one of
/// its shard was required first.
pub proof fn law_missing_diff_is_applied(
    before: QueueRestore,
    after: QueueRestore,
    id: BlockId,
    exists_in_queue: bool,
    r: Option<bool>,
)
    requires
        existence_known(before, after, id, exists_in_queue, r),
    ensures
        ({
            let first = before.first_required_diffs@;
            let first_after = after.first_required_diffs@;
            &&& r is None <==> exists_in_queue
            &&& r matches Some(check) ==> (check <==> first.dom().contains(id.shard)
                && first[id.shard] != id)
            &&& after.applied_diffs_ids@ == if exists_in_queue {
                before.applied_diffs_ids@
            } else {
                before.applied_diffs_ids@.push(id)
            }
            &&& first_after.dom().contains(id.shard)
            &&& !exists_in_queue && first.dom().contains(id.shard) ==> first_after[id.shard]
                == first[id.shard]
            &&& !exists_in_queue && !first.dom().contains(id.shard) ==> first_after[id.shard] == id
            &&& exists_in_queue ==> first_after[id.shard].is_default()
        }),
{
}

/// A received diff may have to be applied exactly if it is not that of a zerostate, diffs
/// of its shard are not applied up to it, and its last message is after the one to which
/// messages of the shard are processed, where that is known.
pub proof fn law_received_diff_may_be_needed(
    restore: QueueRestore,
    id: BlockId,
    max_message: QueueKey,
    min_processed_to: Option<QueueKey>,
)
    ensures
        restore.may_need(id, max_message, min_processed_to) <==> id.seqno > 0 && !(
        restore.applied_upto@.dom().contains(id.shard) && restore.applied_upto@[id.shard]
            >= id.seqno) && (min_processed_to matches Some(min) ==> min.lt < max_message.lt || (
        min.lt == max_message.lt && min.hash.value() < max_message.hash.value())),
{
}

/// A mark concerns one shard: afterwards its first required diff comes before all others,
/// and those of other shards stay.
pub proof fn law_mark_concerns_one_shard(
    before: Map<ShardIdent, BlockId>,
    after: Map<ShardIdent, BlockId>,
    shard: ShardIdent,
    other: ShardIdent,
)
    requires
        marked_in(before, after, shard),
    ensures
        marked(after, shard),
        other != shard ==> (after.dom().contains(other) <==> before.dom().contains(other)),
        other != shard && before.dom().contains(other) ==> after[other] == before[other],
{
}

/// Looking at blocks changes no diff that was applied, and neither the state that the
/// node started from nor how far it reaches.
pub proof fn law_looking_applies_nothing(
    before: QueueRestore,
    after: QueueRestore,
    scan_before: ShardScan,
    scan_after: ShardScan,
    r: ScanAction,
)
    requires
        block_looked_at(before, after, scan_before, scan_after, r),
    ensures
        after.applied_upto == before.applied_upto,
        after.init_mc_block_id == before.init_mc_block_id,
        after.init_mc_block_reached_on == before.init_mc_block_reached_on,
        after.applied_diffs_ids == before.applied_diffs_ids,
        scan_after.shard_id == scan_before.shard_id,
        scan_after.min_processed_to == scan_before.min_processed_to,
        scan_after.required == scan_before.required,
{
}

/// Whether the queue has a diff or not, what was restored before stays: how far shards
/// are applied, the state that the node started from and how far it reaches.
pub proof fn law_existence_changes_no_boundary(
    before: QueueRestore,
    after: QueueRestore,
    id: BlockId,
    exists_in_queue: bool,
    r: Option<bool>,
)
    requires
        existence_known(before, after, id, exists_in_queue, r),
    ensures
        after.applied_upto == before.applied_upto,
        after.init_mc_block_id == before.init_mc_block_id,
        after.init_mc_block_reached_on == before.init_mc_block_reached_on,
        r is None <==> exists_in_queue,
        exists_in_queue ==> after.applied_diffs_ids == before.applied_diffs_ids,
        !exists_in_queue ==> after.applied_diffs_ids@ == before.applied_diffs_ids@.push(id),
{
}

} // verus!

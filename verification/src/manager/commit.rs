//! Committing validated master blocks.
use crate::ids::{BlockId, ShardIdent};
use crate::manager::CollationManager;
use crate::shard_map::ShardMap;
use crate::types::{
    detect_top_processed_to_anchor, McData, PartitionProcessedTo, ProcessedToByPartitions,
    ShardDescriptionShort,
};
use vstd::prelude::*;

verus! {

/// What the cache knows of a master block whose subgraph it hands out.
#[derive(Clone, Copy, Debug, PartialEq, Eq, Structural)]
pub enum ExtractedBlock {
    /// The subgraph was handed out before.
    AlreadyExtracted,
    Extracted {
        /// The block was collated here.
        collated: bool,
        /// The block was received after it had been collated.
        received_after_collation: bool,
        top_processed_to_anchor: Option<u32>,
    },
}

/// What is left to do to commit a master block.
#[derive(Clone, Copy, Debug, PartialEq, Eq, Structural)]
pub struct CommitPlan {
    /// Send the block and its shard blocks to be applied.
    pub send_to_sync: bool,
    /// Commit the queue diff, and drop cached blocks up to this one.
    pub commit_diff: bool,
    /// The anchor to report to the mempool as processed.
    pub notify_anchor: Option<u32>,
}

/// Where the boundary of a top block is found.
#[derive(Clone, Copy, Debug, PartialEq, Eq, Structural)]
pub enum ProcessedToSource {
    Cache,
    /// The zerostate has processed nothing.
    Nothing,
    State,
}

/// The top shard blocks of a master block.
#[derive(Debug)]
pub enum TopShardBlocks {
    Known(Vec<(ShardIdent, u32)>),
    /// Neither the cache nor the storage has them.
    NotFound,
}

/// A map with the entries of a list put in, in their order.
pub open spec fn extended(m: Map<ShardIdent, u32>, list: Seq<(ShardIdent, u32)>) -> Map<
    ShardIdent,
    u32,
>
    decreases list.len(),
{
    if list.len() == 0 {
        m
    } else {
        extended(m, list.drop_last()).insert(list.last().0, list.last().1)
    }
}

/// What is left to do to commit a master block. A block made here and not yet
/// received is sent to be applied, and its anchor is reported only once it was;
/// for a block that was received that event has passed.
pub fn plan_commit(extracted: ExtractedBlock, delayed_anchor: Option<u32>) -> (r: CommitPlan)
    ensures
        r == (match extracted {
            ExtractedBlock::AlreadyExtracted => CommitPlan {
                send_to_sync: false,
                commit_diff: false,
                notify_anchor: delayed_anchor,
            },
            ExtractedBlock::Extracted {
                collated,
                received_after_collation,
                top_processed_to_anchor,
            } => if collated && !received_after_collation {
                CommitPlan { send_to_sync: true, commit_diff: true, notify_anchor: None }
            } else {
                CommitPlan {
                    send_to_sync: false,
                    commit_diff: true,
                    notify_anchor: top_processed_to_anchor,
                }
            },
        }),
{
    match extracted {
        ExtractedBlock::AlreadyExtracted => CommitPlan {
            send_to_sync: false,
            commit_diff: false,
            notify_anchor: delayed_anchor,
        },
        ExtractedBlock::Extracted { collated, received_after_collation, top_processed_to_anchor } =>
        if collated && !received_after_collation {
            CommitPlan { send_to_sync: true, commit_diff: true, notify_anchor: None }
        } else {
            CommitPlan {
                send_to_sync: false,
                commit_diff: true,
                notify_anchor: top_processed_to_anchor,
            }
        },
    }
}

/// Whether a block is sent to be applied: it was made here, was not received,
/// and was not sent before.
pub fn should_send_to_sync(collated: bool, received_after_collation: bool, synced: bool) -> (r: bool)
    ensures
        r == (collated && !received_after_collation && !synced),
{
    collated && !received_after_collation && !synced
}

/// The blocks whose queue diffs are committed with a master block: its top shard
/// blocks and the block itself, which is always new. `None` for a shard block.
pub fn blocks_to_commit(block_id: &BlockId, top_shard_blocks_info: &Vec<(BlockId, bool)>) -> (r:
    Option<Vec<(BlockId, bool)>>)
    ensures
        r is Some <==> block_id.is_masterchain(),
        r matches Some(blocks) ==> blocks@ == top_shard_blocks_info@.push((*block_id, true)),
{
    if !block_id.is_masterchain() {
        return None;
    }
    let mut blocks: Vec<(BlockId, bool)> = Vec::new();
    let mut i: usize = 0;
    while i < top_shard_blocks_info.len()
        invariant
            i <= top_shard_blocks_info@.len(),
            blocks@ == top_shard_blocks_info@.take(i as int),
        decreases top_shard_blocks_info@.len() - i,
    {
        blocks.push(top_shard_blocks_info[i]);
        i = i + 1;
        assert(blocks@ =~= top_shard_blocks_info@.take(i as int));
    }
    assert(top_shard_blocks_info@.take(i as int) =~= top_shard_blocks_info@);
    blocks.push((*block_id, true));
    Some(blocks)
}

/// The numbers of the top blocks of all shards of a master block, the master
/// block included; nothing when its top shard blocks are not found.
pub fn get_top_blocks_seqno(mc_block_id: &BlockId, top_shard_blocks: &TopShardBlocks) -> (r:
    ShardMap<u32>)
    ensures
        r.wf(),
        r@ == (match top_shard_blocks {
            TopShardBlocks::NotFound => Map::<ShardIdent, u32>::empty(),
            TopShardBlocks::Known(list) => extended(
                Map::<ShardIdent, u32>::empty().insert(mc_block_id.shard, mc_block_id.seqno),
                list@,
            ),
        }),
{
    let mut result: ShardMap<u32> = ShardMap::new();
    match top_shard_blocks {
        TopShardBlocks::NotFound => {},
        TopShardBlocks::Known(list) => {
            result.insert(mc_block_id.shard, mc_block_id.seqno);
            let ghost first = result@;
            let mut i: usize = 0;
            while i < list.len()
                invariant
                    i <= list@.len(),
                    result.wf(),
                    result@ == extended(first, list@.take(i as int)),
                decreases list@.len() - i,
            {
                let (shard, seqno): (ShardIdent, u32) = list[i];
                result.insert(shard, seqno);
                i = i + 1;
                assert(list@.take(i as int).drop_last() =~= list@.take(i - 1));
            }
            assert(list@.take(i as int) =~= list@);
        },
    }
    result
}

/// Where to find how far a top block has processed messages.
pub fn processed_to_source(top_block_id: &BlockId, cached: bool) -> (r: ProcessedToSource)
    ensures
        r == (if cached {
            ProcessedToSource::Cache
        } else if top_block_id.seqno == 0 {
            ProcessedToSource::Nothing
        } else {
            ProcessedToSource::State
        }),
{
    if cached {
        ProcessedToSource::Cache
    } else if top_block_id.seqno == 0 {
        ProcessedToSource::Nothing
    } else {
        ProcessedToSource::State
    }
}

/// A top block of a master block, with how far it has processed messages, where
/// the cache knows it.
#[derive(Debug)]
pub struct TopBlock {
    pub id: BlockId,
    pub updated: bool,
    pub processed_to: Option<ProcessedToByPartitions>,
}

impl TopBlock {
    /// Whether the boundary has to be read from the state of the block.
    pub open spec fn is_read(&self) -> bool {
        self.processed_to is None && self.id.seqno != 0
    }
}

/// The blocks of a list whose states have to be read.
pub open spec fn blocks_to_read(list: Seq<TopBlock>) -> Seq<BlockId>
    decreases list.len(),
{
    if list.len() == 0 {
        Seq::empty()
    } else if list.last().is_read() {
        blocks_to_read(list.drop_last()).push(list.last().id)
    } else {
        blocks_to_read(list.drop_last())
    }
}

/// How far the shards of a list of top blocks have processed messages, given what
/// was read from states.
pub open spec fn boundaries(
    list: Seq<TopBlock>,
    read: Seq<ProcessedToByPartitions>,
) -> Map<ShardIdent, (bool, Seq<PartitionProcessedTo>)>
    decreases list.len(),
{
    if list.len() == 0 {
        Map::empty()
    } else {
        let last = list.last();
        if last.is_read() {
            boundaries(list.drop_last(), read.drop_last()).insert(
                last.id.shard,
                (last.updated, read.last()@),
            )
        } else {
            boundaries(list.drop_last(), read).insert(
                last.id.shard,
                (
                    last.updated,
                    match last.processed_to {
                        Some(known) => known@,
                        None => Seq::empty(),
                    },
                ),
            )
        }
    }
}

/// What a map of boundaries holds.
pub open spec fn shown(m: Map<ShardIdent, (bool, ProcessedToByPartitions)>) -> Map<
    ShardIdent,
    (bool, Seq<PartitionProcessedTo>),
> {
    m.map_values(|v: (bool, ProcessedToByPartitions)| (v.0, v.1@))
}

proof fn lemma_shown_insert(
    m: Map<ShardIdent, (bool, ProcessedToByPartitions)>,
    shard: ShardIdent,
    v: (bool, ProcessedToByPartitions),
)
    ensures
        shown(m.insert(shard, v)) == shown(m).insert(shard, (v.0, v.1@)),
{
    assert(shown(m.insert(shard, v)) =~= shown(m).insert(shard, (v.0, v.1@)));
}

proof fn lemma_read_prefix(list: Seq<TopBlock>, n: int)
    requires
        0 <= n <= list.len(),
    ensures
        blocks_to_read(list.take(n)).len() <= blocks_to_read(list).len(),
    decreases list.len() - n,
{
    if n < list.len() {
        lemma_read_prefix(list, n + 1);
        assert(list.take(n + 1).drop_last() =~= list.take(n));
    } else {
        assert(list.take(n) =~= list);
    }
}

/// The top blocks whose states have to be read to know how far they have processed
/// messages. The zerostate has processed nothing.
pub fn states_to_read(mc_seqno: u32, from_cache: &Vec<TopBlock>) -> (r: Vec<BlockId>)
    ensures
        r@ == (if mc_seqno == 0 {
            Seq::empty()
        } else {
            blocks_to_read(from_cache@)
        }),
{
    let mut ids: Vec<BlockId> = Vec::new();
    if mc_seqno == 0 {
        return ids;
    }
    let mut i: usize = 0;
    while i < from_cache.len()
        invariant
            i <= from_cache@.len(),
            ids@ == blocks_to_read(from_cache@.take(i as int)),
        decreases from_cache@.len() - i,
    {
        let source = processed_to_source(&from_cache[i].id, from_cache[i].processed_to.is_some());
        if source == ProcessedToSource::State {
            ids.push(from_cache[i].id);
        }
        i = i + 1;
        assert(from_cache@.take(i as int).drop_last() =~= from_cache@.take(i - 1));
    }
    assert(from_cache@.take(i as int) =~= from_cache@);
    ids
}

/// How far the shards of a master block have processed messages: nothing for the
/// zerostate. `read` holds what was read for [`states_to_read`], in its order.
pub fn get_all_shards_processed_to_by_partitions_for_mc_block(
    mc_seqno: u32,
    from_cache: Vec<TopBlock>,
    read: Vec<ProcessedToByPartitions>,
) -> (r: ShardMap<(bool, ProcessedToByPartitions)>)
    requires
        mc_seqno != 0 ==> read@.len() == blocks_to_read(from_cache@).len(),
    ensures
        r.wf(),
        shown(r@) == (if mc_seqno == 0 {
            Map::empty()
        } else {
            boundaries(from_cache@, read@)
        }),
{
    let mut result: ShardMap<(bool, ProcessedToByPartitions)> = ShardMap::new();
    let ghost all = from_cache@;
    let ghost all_read = read@;
    assert(shown(result@) =~= Map::empty());
    if mc_seqno == 0 {
        return result;
    }
    let mut rest = from_cache;
    let mut rest_read = read;
    let ghost mut done: int = 0;
    let ghost mut used: int = 0;
    assert(all.take(0) =~= Seq::empty());
    assert(all_read.take(0) =~= Seq::empty());
    while rest.len() > 0
        invariant
            result.wf(),
            0 <= done <= all.len(),
            0 <= used <= all_read.len(),
            rest@ == all.skip(done),
            rest_read@ == all_read.skip(used),
            used == blocks_to_read(all.take(done)).len(),
            all_read.len() == blocks_to_read(all).len(),
            shown(result@) == boundaries(all.take(done), all_read.take(used)),
        decreases rest@.len(),
    {
        let top = rest.remove(0);
        let ghost next = all.take(done + 1);
        proof {
            assert(next.drop_last() =~= all.take(done));
            assert(next.last() == top);
            lemma_read_prefix(all, done + 1);
            assert(rest@ =~= all.skip(done + 1));
        }
        let shard = top.id.shard;
        let updated = top.updated;
        let ghost was_read = top.is_read();
        let value: ProcessedToByPartitions = match top.processed_to {
            Some(known) => known,
            None => if top.id.seqno == 0 {
                Vec::new()
            } else {
                rest_read.remove(0)
            },
        };
        proof {
            lemma_shown_insert(result@, shard, (updated, value));
            if was_read {
                let taken = all_read.take(used + 1);
                assert(taken.drop_last() =~= all_read.take(used));
                assert(taken.last() == value);
                assert(rest_read@ =~= all_read.skip(used + 1));
                used = used + 1;
            } else {
                assert(value@ =~= match top.processed_to {
                    Some(known) => known@,
                    None => Seq::empty(),
                });
            }
            done = done + 1;
        }
        result.insert(shard, (updated, value));
    }
    assert(all.take(done) =~= all);
    assert(all_read.take(used) =~= all_read);
    result
}

/// What the mempool is told of the state of a block: the number of a master block,
/// and the least anchor to which it and its top shard blocks have processed. Nothing
/// of a shard block.
pub fn notice_to_mempool(
    block_id: &BlockId,
    shards: &Vec<(ShardIdent, ShardDescriptionShort)>,
    mc_processed_to_anchor_id: u32,
) -> (r: Option<(u32, u32)>)
    ensures
        r is Some <==> block_id.is_masterchain(),
        r matches Some((seqno, anchor)) ==> seqno == block_id.seqno
            && crate::types::is_top_processed_to_anchor(
            anchor,
            shards@,
            mc_processed_to_anchor_id,
        ),
{
    if block_id.is_masterchain() {
        Some(
            (block_id.seqno, detect_top_processed_to_anchor(shards, mc_processed_to_anchor_id)),
        )
    } else {
        None
    }
}

impl CollationManager {
    /// Takes the delayed master state that a committed block releases: the state
    /// of that very block. One of an earlier block is dropped, one of a later
    /// block stays.
    pub fn take_delayed_mc_state_update(&mut self, block_id: &BlockId) -> (r: Option<McData>)
        ensures
            *final(self) == (CollationManager {
                delayed_mc_state_update: final(self).delayed_mc_state_update,
                ..*old(self)
            }),
            match old(self).delayed_mc_state_update {
                None => r is None && final(self).delayed_mc_state_update is None,
                Some(mc) => if block_id.precedes(&mc.block_id) {
                    r is None && final(self).delayed_mc_state_update == Some(mc)
                } else {
                    final(self).delayed_mc_state_update is None && r == if mc.block_id
                        == *block_id {
                        Some(mc)
                    } else {
                        None
                    }
                },
            },
    {
        let later = match &self.delayed_mc_state_update {
            None => return None,
            Some(mc) => block_id.less(&mc.block_id),
        };
        if later {
            return None;
        }
        match self.delayed_mc_state_update.take() {
            Some(mc) => if mc.block_id.same(block_id) {
                Some(mc)
            } else {
                None
            },
            None => None,
        }
    }
}

/// Of each shard the last entry of a list counts, and where it has none what was there.
pub proof fn law_last_entry_of_a_shard_counts(
    m: Map<ShardIdent, u32>,
    list: Seq<(ShardIdent, u32)>,
    shard: ShardIdent,
)
    ensures
        forall|i: int|
            0 <= i < list.len() && (#[trigger] list[i]).0 == shard && (forall|j: int|
                i < j < list.len() ==> (#[trigger] list[j]).0 != shard) ==> extended(
                m,
                list,
            ).dom().contains(shard) && extended(m, list)[shard] == list[i].1,
        (forall|i: int| 0 <= i < list.len() ==> (#[trigger] list[i]).0 != shard) ==> (extended(
            m,
            list,
        ).dom().contains(shard) <==> m.dom().contains(shard)) && extended(m, list)[shard]
            == m[shard],
    decreases list.len(),
{
    if list.len() > 0 {
        let n = list.len() - 1;
        let rest = list.drop_last();
        law_last_entry_of_a_shard_counts(m, rest, shard);
        assert forall|i: int|
            0 <= i < list.len() && (#[trigger] list[i]).0 == shard && (forall|j: int|
                i < j < list.len() ==> (#[trigger] list[j]).0 != shard) implies extended(
            m,
            list,
        ).dom().contains(shard) && extended(m, list)[shard] == list[i].1 by {
            if i < n {
                assert(list[n].0 != shard);
                assert(rest[i] == list[i]);
                assert forall|j: int| i < j < rest.len() implies (#[trigger] rest[j]).0 != shard by {
                    assert(rest[j] == list[j]);
                }
            }
        }
        if forall|i: int| 0 <= i < list.len() ==> (#[trigger] list[i]).0 != shard {
            assert(list[n].0 != shard);
            assert forall|i: int| 0 <= i < rest.len() implies (#[trigger] rest[i]).0 != shard by {
                assert(rest[i] == list[i]);
            }
        }
    }
}

/// A state is read exactly for each top block of which the cache does not know how far it
/// has processed, except for zerostates, in the order of the blocks. What is known of the
/// shard of a block, if no other block of the shard follows, is what the cache knows, what
/// was read for this block, or nothing for a zerostate.
pub proof fn law_boundaries_come_from_their_blocks(
    list: Seq<TopBlock>,
    read: Seq<ProcessedToByPartitions>,
    i: int,
)
    requires
        0 <= i < list.len(),
        read.len() == blocks_to_read(list).len(),
        forall|j: int| i < j < list.len() ==> (#[trigger] list[j]).id.shard != list[i].id.shard,
    ensures
        ({
            let k = blocks_to_read(list.take(i)).len() as int;
            let shard = list[i].id.shard;
            let unknown = list[i].processed_to is None && list[i].id.seqno != 0;
            &&& unknown ==> k < read.len() && blocks_to_read(list)[k] == list[i].id
            &&& blocks_to_read(list.take(i + 1)).len() - k == if unknown {
                1int
            } else {
                0
            }
            &&& boundaries(list, read).dom().contains(shard)
            &&& boundaries(list, read)[shard].0 == list[i].updated
            &&& unknown ==> boundaries(list, read)[shard].1 == read[k]@
            &&& list[i].processed_to matches Some(known) ==> boundaries(list, read)[shard].1
                == known@
            &&& list[i].processed_to is None && list[i].id.seqno == 0 ==> boundaries(
                list,
                read,
            )[shard].1.len() == 0
        }),
    decreases list.len(),
{
    let n = list.len() - 1;
    let rest = list.drop_last();
    assert(list.take(i + 1).drop_last() =~= list.take(i));
    if i < n {
        let less = if list.last().is_read() {
            read.drop_last()
        } else {
            read
        };
        assert(rest[i] == list[i]);
        assert forall|j: int| i < j < rest.len() implies (#[trigger] rest[j]).id.shard
            != rest[i].id.shard by {
            assert(rest[j] == list[j]);
        }
        law_boundaries_come_from_their_blocks(rest, less, i);
        assert(rest.take(i) =~= list.take(i));
        assert(rest.take(i + 1) =~= list.take(i + 1));
        assert(list[n].id.shard != list[i].id.shard);
    } else {
        assert(list.take(i) =~= rest);
        assert(list.take(i + 1) =~= list);
    }
}

/// Only shards of listed blocks have boundaries.
pub proof fn law_boundaries_are_of_listed_shards(
    list: Seq<TopBlock>,
    read: Seq<ProcessedToByPartitions>,
    shard: ShardIdent,
)
    ensures
        boundaries(list, read).dom().contains(shard) <==> exists|i: int|
            0 <= i < list.len() && (#[trigger] list[i]).id.shard == shard,
    decreases list.len(),
{
    if list.len() > 0 {
        let n = list.len() - 1;
        let rest = list.drop_last();
        let less = if list.last().is_read() {
            read.drop_last()
        } else {
            read
        };
        law_boundaries_are_of_listed_shards(rest, less, shard);
        if exists|i: int| 0 <= i < rest.len() && (#[trigger] rest[i]).id.shard == shard {
            let i = choose|i: int| 0 <= i < rest.len() && (#[trigger] rest[i]).id.shard == shard;
            assert(list[i] == rest[i]);
        }
        if exists|i: int| 0 <= i < list.len() && (#[trigger] list[i]).id.shard == shard {
            let i = choose|i: int| 0 <= i < list.len() && (#[trigger] list[i]).id.shard == shard;
            if i < n {
                assert(rest[i] == list[i]);
            }
        }
        assert(list[n] == list.last());
    }
}

/// A boundary is read from a state exactly if it is not known and the block is not a
/// zerostate. The states are read in the order of the blocks, each once.
pub proof fn law_unknown_boundaries_are_read(list: Seq<TopBlock>, block: TopBlock)
    ensures
        block.is_read() <==> block.processed_to is None && block.id.seqno > 0,
        blocks_to_read(Seq::empty()).len() == 0,
        block.is_read() ==> blocks_to_read(list.push(block)) == blocks_to_read(list).push(block.id),
        !block.is_read() ==> blocks_to_read(list.push(block)) == blocks_to_read(list),
{
    assert(list.push(block).drop_last() =~= list);
}

} // verus!

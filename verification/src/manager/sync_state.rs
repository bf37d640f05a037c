//! The state by which master and shard collation keep pace with each other.
use crate::ids::{BlockId, ShardIdent};
use crate::shard_map::ShardMap;
use vstd::prelude::*;

verus! {

/// Why a collator asks for a master block at once.
#[derive(Clone, Copy, Debug, PartialEq, Eq, Structural)]
pub enum ForceMasterCollation {
    No,
    ByUncommittedChain,
    ByUprocessedMessages,
}

impl ForceMasterCollation {
    /// Whether a master block is asked for.
    #[verifier::allow_in_spec]
    pub fn is_forced(&self) -> bool
        returns
            *self != ForceMasterCollation::No,
    {
        *self != ForceMasterCollation::No
    }
}

/// What the collator of one shard is doing.
#[derive(Clone, Copy, Debug, PartialEq, Eq, Structural)]
pub enum CollationStatus {
    AttemptsInProgress,
    WaitForMasterStatus,
}

/// What follows an imported anchor or a collated shard block.
#[derive(Debug)]
pub enum NextCollationStep {
    WaitForMasterStatus,
    ResumeAttemptsIn(Vec<ShardIdent>),
    CollateMaster(u64),
}

/// The collation status of one shard. `last_imported_chain_times` holds the
/// chain time of each anchor imported since the last master block, and whether
/// a master block was asked for with it.
pub struct CollationState {
    pub status: CollationStatus,
    pub last_imported_chain_times: Vec<(u64, bool)>,
    pub mc_collation_forced: bool,
}

/// The mathematical content of a [`CollationState`].
#[verifier::ext_equal]
pub struct ShardProgress {
    pub status: CollationStatus,
    pub times: Seq<(u64, bool)>,
    pub forced: bool,
}

impl View for CollationState {
    type V = ShardProgress;

    open spec fn view(&self) -> ShardProgress {
        ShardProgress {
            status: self.status,
            times: self.last_imported_chain_times@,
            forced: self.mc_collation_forced,
        }
    }
}

impl ShardProgress {
    /// A shard that has reported nothing.
    pub open spec fn fresh() -> Self {
        ShardProgress {
            status: CollationStatus::AttemptsInProgress,
            times: Seq::empty(),
            forced: false,
        }
    }

    /// The same shard with another status.
    pub open spec fn with_status(self, status: CollationStatus) -> Self {
        ShardProgress { status, ..self }
    }

    /// The same shard with one more imported anchor.
    pub open spec fn record(self, ct: u64, forced: bool) -> Self {
        ShardProgress {
            times: self.times.push((ct, forced)),
            forced: self.forced || forced,
            ..self
        }
    }

    /// The same shard without the anchors up to a chain time.
    pub open spec fn prune(self, ct: u64) -> Self {
        let times = self.times.filter(|e: (u64, bool)| e.0 > ct);
        ShardProgress {
            times,
            forced: exists|i: int| 0 <= i < times.len() && (#[trigger] times[i]).1,
            ..self
        }
    }
}

/// A running synchronisation with applied master blocks.
#[derive(Clone, Copy, Debug, PartialEq, Eq, Structural)]
pub struct ActiveSync {
    pub target_mc_block_seqno: u32,
    pub cancelled: bool,
}

/// The state shared by all collators.
pub struct CollationSyncState {
    pub states: ShardMap<CollationState>,
    pub mc_block_latest_chain_time: u64,
    pub mc_collation_forced_for_all: bool,
    pub active_sync_to_applied: Option<ActiveSync>,
    pub last_received_mc_block_seqno: Option<u32>,
    pub last_synced_to_mc_block_id: Option<BlockId>,
}

/// What of a [`CollationSyncState`] decides the next collation step.
#[verifier::ext_equal]
pub struct Pace {
    pub shards: Map<ShardIdent, ShardProgress>,
    pub latest: u64,
    pub forced_for_all: bool,
}

impl View for CollationSyncState {
    type V = Pace;

    open spec fn view(&self) -> Pace {
        Pace {
            shards: self.states@.map_values(|c: CollationState| c@),
            latest: self.mc_block_latest_chain_time,
            forced_for_all: self.mc_collation_forced_for_all,
        }
    }
}

/// Whether an imported anchor calls for a master block.
pub open spec fn calls_for_master(e: (u64, bool), latest: u64, interval: u64) -> bool {
    e.1 || e.0 - latest > interval
}

/// The chain time of the first anchor that calls for a master block.
pub open spec fn first_call(times: Seq<(u64, bool)>, latest: u64, interval: u64) -> Option<u64>
    decreases times.len(),
{
    if times.len() == 0 {
        None
    } else if calls_for_master(times[0], latest, interval) {
        Some(times[0].0)
    } else {
        first_call(times.drop_first(), latest, interval)
    }
}

/// The chain time at which a shard is ready for a master block. When one is
/// forced for all shards, any imported anchor will do.
pub open spec fn ready_time(
    times: Seq<(u64, bool)>,
    latest: u64,
    interval: u64,
    forced_for_all: bool,
) -> Option<u64> {
    match first_call(times, latest, interval) {
        Some(ct) => Some(ct),
        None => if forced_for_all && times.len() > 0 {
            Some(times[0].0)
        } else {
            None
        },
    }
}

proof fn lemma_first_call_at(times: Seq<(u64, bool)>, latest: u64, interval: u64, i: int)
    requires
        0 <= i < times.len(),
        forall|j: int| 0 <= j < i ==> !calls_for_master(times[j], latest, interval),
        calls_for_master(times[i], latest, interval),
    ensures
        first_call(times, latest, interval) == Some(times[i].0),
    decreases i,
{
    if i > 0 {
        assert(!calls_for_master(times[0], latest, interval));
        assert forall|j: int| 0 <= j < i - 1 implies !calls_for_master(
            times.drop_first()[j],
            latest,
            interval,
        ) by {
            assert(times.drop_first()[j] == times[j + 1]);
        }
        lemma_first_call_at(times.drop_first(), latest, interval, i - 1);
    }
}

proof fn lemma_first_call_none(times: Seq<(u64, bool)>, latest: u64, interval: u64)
    requires
        forall|j: int| 0 <= j < times.len() ==> !calls_for_master(times[j], latest, interval),
    ensures
        first_call(times, latest, interval) is None,
    decreases times.len(),
{
    if times.len() > 0 {
        assert(!calls_for_master(times[0], latest, interval));
        assert forall|j: int| 0 <= j < times.drop_first().len() implies !calls_for_master(
            times.drop_first()[j],
            latest,
            interval,
        ) by {
            assert(times.drop_first()[j] == times[j + 1]);
        }
        lemma_first_call_none(times.drop_first(), latest, interval);
    }
}

impl CollationState {
    /// The state of a shard that has reported nothing.
    pub fn new() -> (r: Self)
        ensures
            r@ == ShardProgress::fresh(),
    {
        let r = CollationState {
            status: CollationStatus::AttemptsInProgress,
            last_imported_chain_times: Vec::new(),
            mc_collation_forced: false,
        };
        assert(r@ =~= ShardProgress::fresh());
        r
    }

    /// When this shard is ready for a master block.
    pub fn find_ready_time(&self, latest: u64, interval: u64, forced_for_all: bool) -> (r: Option<
        u64,
    >)
        ensures
            r == ready_time(self@.times, latest, interval, forced_for_all),
    {
        let mut i: usize = 0;
        while i < self.last_imported_chain_times.len()
            invariant
                i <= self.last_imported_chain_times@.len(),
                forall|j: int|
                    0 <= j < i ==> !calls_for_master(
                        self.last_imported_chain_times@[j],
                        latest,
                        interval,
                    ),
            decreases self.last_imported_chain_times@.len() - i,
        {
            let (ct, forced): (u64, bool) = self.last_imported_chain_times[i];
            if forced || (ct > latest && ct - latest > interval) {
                proof {
                    lemma_first_call_at(self@.times, latest, interval, i as int);
                }
                return Some(ct);
            }
            i = i + 1;
        }
        proof {
            lemma_first_call_none(self@.times, latest, interval);
        }
        if forced_for_all && self.last_imported_chain_times.len() > 0 {
            let (ct, _forced): (u64, bool) = self.last_imported_chain_times[0];
            Some(ct)
        } else {
            None
        }
    }

    /// Forgets the anchors up to a chain time.
    pub fn prune(&mut self, chain_time: u64)
        ensures
            final(self)@ == old(self)@.prune(chain_time),
    {
        let ghost keep = |e: (u64, bool)| e.0 > chain_time;
        let ghost times = self.last_imported_chain_times@;
        let mut kept: Vec<(u64, bool)> = Vec::new();
        let mut forced = false;
        let mut i: usize = 0;
        assert(times.take(0).filter(keep) =~= Seq::<(u64, bool)>::empty()) by {
            reveal(Seq::filter);
        }
        while i < self.last_imported_chain_times.len()
            invariant
                i <= times.len(),
                times == self.last_imported_chain_times@,
                keep == (|e: (u64, bool)| e.0 > chain_time),
                kept@ == times.take(i as int).filter(keep),
                forced == exists|j: int| 0 <= j < kept@.len() && (#[trigger] kept@[j]).1,
            decreases times.len() - i,
        {
            let (ct, f): (u64, bool) = self.last_imported_chain_times[i];
            let ghost before = kept@;
            proof {
                assert(times.take(i + 1).drop_last() =~= times.take(i as int));
                assert(times.take(i + 1).last() == times[i as int]);
                reveal(Seq::filter);
            }
            if ct > chain_time {
                kept.push((ct, f));
                forced = forced || f;
                proof {
                    if f {
                        assert(kept@[before.len() as int].1);
                    }
                    if exists|j: int| 0 <= j < before.len() && (#[trigger] before[j]).1 {
                        let j = choose|j: int| 0 <= j < before.len() && (#[trigger] before[j]).1;
                        assert(kept@[j].1);
                    }
                    if exists|j: int| 0 <= j < kept@.len() && (#[trigger] kept@[j]).1 {
                        let j = choose|j: int| 0 <= j < kept@.len() && (#[trigger] kept@[j]).1;
                        if j < before.len() {
                            assert(before[j].1);
                        }
                    }
                }
            }
            i = i + 1;
        }
        assert(times.take(times.len() as int) =~= times);
        self.last_imported_chain_times = kept;
        self.mc_collation_forced = forced;
    }
}

proof fn lemma_first_call_by_position(times: Seq<(u64, bool)>, latest: u64, interval: u64)
    ensures
        match first_call(times, latest, interval) {
            Some(ct) => exists|i: int|
                0 <= i < times.len() && (#[trigger] times[i]).0 == ct && (times[i].1 || times[i].0
                    > latest + interval) && forall|j: int|
                    0 <= j < i ==> !((#[trigger] times[j]).1 || times[j].0 > latest + interval),
            None => forall|j: int|
                0 <= j < times.len() ==> !((#[trigger] times[j]).1 || times[j].0 > latest
                    + interval),
        },
    decreases times.len(),
{
    if times.len() > 0 && !calls_for_master(times[0], latest, interval) {
        let rest = times.drop_first();
        lemma_first_call_by_position(rest, latest, interval);
        match first_call(rest, latest, interval) {
            Some(ct) => {
                let i = choose|i: int|
                    0 <= i < rest.len() && (#[trigger] rest[i]).0 == ct && (rest[i].1 || rest[i].0
                        > latest + interval) && forall|j: int|
                        0 <= j < i ==> !((#[trigger] rest[j]).1 || rest[j].0 > latest + interval);
                assert(times[i + 1] == rest[i]);
                assert forall|j: int| 0 <= j < i + 1 implies !((#[trigger] times[j]).1
                    || times[j].0 > latest + interval) by {
                    if j > 0 {
                        assert(times[j] == rest[j - 1]);
                    }
                }
            },
            None => {
                assert forall|j: int| 0 <= j < times.len() implies !((#[trigger] times[j]).1
                    || times[j].0 > latest + interval) by {
                    if j > 0 {
                        assert(times[j] == rest[j - 1]);
                    }
                }
            },
        }
    }
}

/// A shard is ready at the first of its anchors with which a master block was asked
/// for, or which is later than the last master block by more than the interval.
/// Without such an anchor it is ready only if a master block is forced for all shards,
/// and then at the first anchor of all; otherwise it is not ready.
pub proof fn law_ready_at_the_first_cause(
    times: Seq<(u64, bool)>,
    latest: u64,
    interval: u64,
    forced_for_all: bool,
)
    ensures
        ready_time(times, latest, interval, forced_for_all) is None <==> (times.len() == 0
            || !forced_for_all) && forall|j: int|
            0 <= j < times.len() ==> !(#[trigger] times[j]).1 && times[j].0 <= latest + interval,
        forall|i: int|
            0 <= i < times.len() && ((#[trigger] times[i]).1 || times[i].0 > latest + interval) && (
            forall|j: int|
                0 <= j < i ==> !(#[trigger] times[j]).1 && times[j].0 <= latest + interval)
                ==> ready_time(times, latest, interval, forced_for_all) == Some(times[i].0),
        times.len() > 0 && forced_for_all && (forall|j: int|
            0 <= j < times.len() ==> !(#[trigger] times[j]).1 && times[j].0 <= latest + interval)
            ==> ready_time(times, latest, interval, forced_for_all) == Some(times[0].0),
{
    lemma_first_call_by_position(times, latest, interval);
    assert forall|i: int|
        0 <= i < times.len() && ((#[trigger] times[i]).1 || times[i].0 > latest + interval) && (
        forall|j: int|
            0 <= j < i ==> !(#[trigger] times[j]).1 && times[j].0 <= latest
                + interval) implies ready_time(times, latest, interval, forced_for_all) == Some(
        times[i].0,
    ) by {
        lemma_first_call_at(times, latest, interval, i);
    }
    if forall|j: int|
        0 <= j < times.len() ==> !(#[trigger] times[j]).1 && times[j].0 <= latest + interval {
        lemma_first_call_none(times, latest, interval);
    }
}

/// Where anchors are imported in ascending order and a master block is forced for all
/// shards, a shard without an anchor of its own that asks for one is ready no later
/// than at any of its anchors.
pub proof fn law_forced_shard_is_ready_early(
    times: Seq<(u64, bool)>,
    latest: u64,
    interval: u64,
    k: int,
)
    requires
        0 <= k < times.len(),
        forall|i: int, j: int|
            0 <= i <= j < times.len() ==> (#[trigger] times[i]).0 <= (#[trigger] times[j]).0,
        forall|j: int|
            0 <= j < times.len() ==> !(#[trigger] times[j]).1 && times[j].0 <= latest + interval,
    ensures
        ready_time(times, latest, interval, true) matches Some(ct) && ct <= times[k].0,
{
    law_ready_at_the_first_cause(times, latest, interval, true);
}

/// What decides the next step is what the collators have reported: of each shard its
/// status, its anchors and whether a master block is asked for.
pub proof fn law_pace_says_what_was_reported(state: CollationSyncState, shard: ShardIdent)
    ensures
        state@.latest == state.mc_block_latest_chain_time,
        state@.forced_for_all == state.mc_collation_forced_for_all,
        state@.shards.dom().contains(shard) <==> state.states@.dom().contains(shard),
        state.states@.dom().contains(shard) ==> {
            let progress = state@.shards[shard];
            &&& progress.status == state.states@[shard].status
            &&& progress.times == state.states@[shard].last_imported_chain_times@
            &&& progress.forced == state.states@[shard].mc_collation_forced
        },
{
}

/// A shard that reports an anchor has it last, and stays forced once it is.
pub proof fn law_reported_anchor_comes_last(progress: ShardProgress, ct: u64, forced: bool)
    ensures
        progress.record(ct, forced).times == progress.times.push((ct, forced)),
        progress.record(ct, forced).forced <==> progress.forced || forced,
        progress.record(ct, forced).status == progress.status,
        ShardProgress::fresh().times.len() == 0,
        !ShardProgress::fresh().forced,
        ShardProgress::fresh().status == CollationStatus::AttemptsInProgress,
{
}

/// A master block is asked for by uncommitted chains and by unprocessed messages.
pub proof fn law_every_reason_forces(force: ForceMasterCollation)
    ensures
        force.is_forced() <==> force is ByUncommittedChain || force is ByUprocessedMessages,
        !force.is_forced() <==> force is No,
{
}

} // verus!

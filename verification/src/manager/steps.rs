//! The next collation step after an anchor or a shard block.
use crate::ids::ShardIdent;
use crate::manager::sync_state::{
    CollationState, CollationStatus, CollationSyncState, ForceMasterCollation, NextCollationStep,
    Pace, ShardProgress,
};
use crate::manager::CollationManager;
use crate::shard_map::ShardMap;
use vstd::prelude::*;

verus! {

impl Pace {
    /// The progress of a shard, also of one that has reported nothing.
    pub open spec fn progress(self, shard: ShardIdent) -> ShardProgress {
        if self.shards.dom().contains(shard) {
            self.shards[shard]
        } else {
            ShardProgress::fresh()
        }
    }

    /// The master block at `ct` becomes the latest, and what was imported up to
    /// its chain time is forgotten in every shard.
    pub open spec fn renew(self, ct: u64) -> Self {
        Pace {
            shards: self.shards.map_values(|p: ShardProgress| p.prune(ct)),
            latest: if self.latest < ct {
                ct
            } else {
                self.latest
            },
            ..self
        }
    }

    /// No shard waits for the master status any more.
    pub open spec fn all_in_progress(self) -> Self {
        Pace {
            shards: self.shards.map_values(
                |p: ShardProgress| p.with_status(CollationStatus::AttemptsInProgress),
            ),
            ..self
        }
    }

    /// Whether the master collator has reported since the last master block, or
    /// is the one that reports.
    pub open spec fn master_reported(self, shard: ShardIdent) -> bool {
        shard.is_masterchain() || self.progress(ShardIdent::masterchain()).times.len() > 0
    }

    /// The pace with the anchor that `shard` has just imported.
    pub open spec fn record(self, shard: ShardIdent, ct: u64, force: ForceMasterCollation) -> Self {
        Pace {
            shards: self.shards.insert(shard, self.progress(shard).record(ct, force.is_forced())),
            forced_for_all: self.forced_for_all || (shard.is_masterchain() && force
                == ForceMasterCollation::ByUprocessedMessages),
            ..self
        }
    }

    /// Whether a shard that has just imported `ct` wants a master block.
    pub open spec fn wants_master(self, ct: u64, force: ForceMasterCollation, interval: u64) -> bool {
        self.forced_for_all || force.is_forced() || ct - self.latest > interval
    }

    /// When a shard is ready for the next master block.
    pub open spec fn ready(self, shard: ShardIdent, interval: u64) -> Option<u64> {
        crate::manager::sync_state::ready_time(
            self.progress(shard).times,
            self.latest,
            interval,
            self.forced_for_all,
        )
    }

    /// Whether every shard is ready for the next master block.
    pub open spec fn all_ready(self, active: Seq<ShardIdent>, interval: u64) -> bool {
        forall|i: int| 0 <= i < active.len() ==> self.ready(#[trigger] active[i], interval) is Some
    }

    /// Whether a shard waits for the master status.
    pub open spec fn waits(self, shard: ShardIdent) -> bool {
        &&& self.shards.dom().contains(shard)
        &&& self.shards[shard].status == CollationStatus::WaitForMasterStatus
    }

    /// One shard gets another status.
    pub open spec fn set_status(self, shard: ShardIdent, status: CollationStatus) -> Self {
        Pace {
            shards: self.shards.insert(shard, self.progress(shard).with_status(status)),
            ..self
        }
    }

    /// The shards that waited for the master status go on.
    pub open spec fn wake(self) -> Self {
        Pace {
            shards: self.shards.map_entries(
                |s: ShardIdent, p: ShardProgress|
                    if s.is_masterchain() {
                        p
                    } else {
                        p.with_status(CollationStatus::AttemptsInProgress)
                    },
            ),
            ..self
        }
    }
}

impl CollationSyncState {
    /// No shard is listed twice.
    pub open spec fn wf(&self) -> bool {
        self.states.wf()
    }

    /// What the collation pace does not cover stays as it was.
    pub open spec fn same_sync(&self, other: &Self) -> bool {
        &&& self.active_sync_to_applied == other.active_sync_to_applied
        &&& self.last_received_mc_block_seqno == other.last_received_mc_block_seqno
        &&& self.last_synced_to_mc_block_id == other.last_synced_to_mc_block_id
    }

    /// Whether a shard listed before position `i` waits for the master status.
    spec fn waits_before(&self, i: int, s: ShardIdent) -> bool {
        exists|j: int|
            0 <= j < i && #[trigger] self.states.keys@[j] == s && self.states.values@[j].status
                == CollationStatus::WaitForMasterStatus
    }

    /// The view of a state by position.
    pub proof fn lemma_progress_at(&self, i: int)
        requires
            self.wf(),
            0 <= i < self.states.keys@.len(),
        ensures
            self@.shards.dom().contains(self.states.keys@[i]),
            self@.shards[self.states.keys@[i]] == self.states.values@[i]@,
    {
        self.states.lemma_at(i);
    }

    /// A state is determined by the progress of the shard at each position.
    proof fn lemma_progress_by_position(&self, shards: Map<ShardIdent, ShardProgress>)
        requires
            self.wf(),
            shards.dom() =~= self@.shards.dom(),
            forall|i: int|
                0 <= i < self.states.keys@.len() ==> shards[#[trigger] self.states.keys@[i]]
                    == self.states.values@[i]@,
        ensures
            self@.shards == shards,
    {
        assert forall|s: ShardIdent| self@.shards.dom().contains(s) implies self@.shards[s]
            == shards[s] by {
            let i = self.states.keys@.index_of(s);
            self.lemma_progress_at(i);
            assert(self.states.keys@[i] == s);
        }
        assert(self@.shards =~= shards);
    }

    /// The state before anything was collated.
    pub fn new() -> (r: Self)
        ensures
            r.wf(),
            r@ == (Pace {
                shards: Map::<ShardIdent, ShardProgress>::empty(),
                latest: 0,
                forced_for_all: false,
            }),
            r.active_sync_to_applied is None,
            r.last_received_mc_block_seqno is None,
            r.last_synced_to_mc_block_id is None,
    {
        let r = CollationSyncState {
            states: ShardMap::new(),
            mc_block_latest_chain_time: 0,
            mc_collation_forced_for_all: false,
            active_sync_to_applied: None,
            last_received_mc_block_seqno: None,
            last_synced_to_mc_block_id: None,
        };
        assert(r@.shards =~= Map::<ShardIdent, ShardProgress>::empty());
        r
    }

    /// The position of a shard, which is added when it has reported nothing.
    fn position_of(&mut self, shard: ShardIdent) -> (i: usize)
        requires
            old(self).wf(),
        ensures
            final(self).wf(),
            final(self).same_sync(old(self)),
            final(self)@ == (Pace {
                shards: old(self)@.shards.insert(shard, old(self)@.progress(shard)),
                ..old(self)@
            }),
            i < final(self).states.keys@.len(),
            final(self).states.keys@[i as int] == shard,
    {
        match self.states.position(&shard) {
            Some(i) => {
                proof {
                    self.lemma_progress_at(i as int);
                    assert(self@.shards.insert(shard, self@.progress(shard)) =~= self@.shards);
                }
                i
            },
            None => {
                let ghost before = self@;
                let n = self.states.keys.len();
                self.states.insert(shard, CollationState::new());
                assert(self@.shards =~= before.shards.insert(shard, ShardProgress::fresh()));
                n
            },
        }
    }

    /// Gives one shard another status.
    fn set_status(&mut self, shard: ShardIdent, status: CollationStatus)
        requires
            old(self).wf(),
        ensures
            final(self).wf(),
            final(self).same_sync(old(self)),
            final(self)@ == old(self)@.set_status(shard, status),
    {
        let i = self.position_of(shard);
        let ghost mid = *self;
        self.states.values[i].status = status;
        proof {
            mid.lemma_progress_at(i as int);
            assert forall|j: int| 0 <= j < self.states.keys@.len() implies old(self)@.set_status(
                shard,
                status,
            ).shards[#[trigger] self.states.keys@[j]] == self.states.values@[j]@ by {
                mid.lemma_progress_at(j);
            }
            self.lemma_progress_by_position(old(self)@.set_status(shard, status).shards);
        }
    }

    /// Notes the anchor that a shard has imported.
    fn record(&mut self, shard: ShardIdent, ct: u64, force: ForceMasterCollation)
        requires
            old(self).wf(),
        ensures
            final(self).wf(),
            final(self).same_sync(old(self)),
            final(self)@ == old(self)@.record(shard, ct, force),
    {
        if shard.is_masterchain() && force == ForceMasterCollation::ByUprocessedMessages {
            self.mc_collation_forced_for_all = true;
        }
        let ghost before = *self;
        let i = self.position_of(shard);
        let ghost mid = *self;
        let forced = force.is_forced();
        self.states.values[i].last_imported_chain_times.push((ct, forced));
        if forced {
            self.states.values[i].mc_collation_forced = true;
        }
        proof {
            mid.lemma_progress_at(i as int);
            let target = old(self)@.record(shard, ct, force).shards;
            assert forall|j: int| 0 <= j < self.states.keys@.len() implies target[
                #[trigger] self.states.keys@[j]
            ] == self.states.values@[j]@ by {
                mid.lemma_progress_at(j);
                if j == i {
                    assert(self.states.values@[j]@ =~= mid.states.values@[j]@.record(ct, forced));
                }
            }
            self.lemma_progress_by_position(target);
        }
    }
}

impl CollationManager {
    /// Sets the chain time of the latest master block, which starts the next
    /// interval, and forgets everything imported up to it.
    pub fn renew_mc_block_latest_chain_time(guard: &mut CollationSyncState, chain_time: u64)
        requires
            old(guard).wf(),
        ensures
            final(guard).wf(),
            final(guard).same_sync(old(guard)),
            final(guard)@ == old(guard)@.renew(chain_time),
    {
        if guard.mc_block_latest_chain_time < chain_time {
            guard.mc_block_latest_chain_time = chain_time;
        }
        let mut i: usize = 0;
        while i < guard.states.values.len()
            invariant
                guard.wf(),
                i <= guard.states.values@.len(),
                guard.states.keys@ == old(guard).states.keys@,
                guard.states.values@.len() == old(guard).states.values@.len(),
                guard.mc_block_latest_chain_time == old(guard)@.renew(chain_time).latest,
                guard.mc_collation_forced_for_all == old(guard).mc_collation_forced_for_all,
                guard.same_sync(old(guard)),
                forall|j: int|
                    0 <= j < i ==> (#[trigger] guard.states.values@[j])@ == old(
                        guard,
                    ).states.values@[j]@.prune(chain_time),
                forall|j: int|
                    i <= j < guard.states.values@.len() ==> guard.states.values@[j] == old(
                        guard,
                    ).states.values@[j],
            decreases guard.states.values@.len() - i,
        {
            guard.states.values[i].prune(chain_time);
            i = i + 1;
        }
        proof {
            let target = old(guard)@.renew(chain_time).shards;
            assert forall|j: int| 0 <= j < guard.states.keys@.len() implies target[
                #[trigger] guard.states.keys@[j]
            ] == guard.states.values@[j]@ by {
                old(guard).lemma_progress_at(j);
            }
            guard.lemma_progress_by_position(target);
        }
    }

    /// Every shard goes on with its attempts. This comes before collation is
    /// resumed after a synchronisation: a shard that still waited would be
    /// resumed a second time by the next master report.
    pub fn reset_collation_sync_status(guard: &mut CollationSyncState)
        requires
            old(guard).wf(),
        ensures
            final(guard).wf(),
            final(guard).same_sync(old(guard)),
            final(guard)@ == old(guard)@.all_in_progress(),
    {
        let mut i: usize = 0;
        while i < guard.states.values.len()
            invariant
                guard.wf(),
                i <= guard.states.values@.len(),
                guard.states.keys@ == old(guard).states.keys@,
                guard.states.values@.len() == old(guard).states.values@.len(),
                guard.mc_block_latest_chain_time == old(guard).mc_block_latest_chain_time,
                guard.mc_collation_forced_for_all == old(guard).mc_collation_forced_for_all,
                guard.same_sync(old(guard)),
                forall|j: int|
                    0 <= j < i ==> (#[trigger] guard.states.values@[j])@ == old(
                        guard,
                    ).states.values@[j]@.with_status(CollationStatus::AttemptsInProgress),
                forall|j: int|
                    i <= j < guard.states.values@.len() ==> guard.states.values@[j] == old(
                        guard,
                    ).states.values@[j],
            decreases guard.states.values@.len() - i,
        {
            guard.states.values[i].status = CollationStatus::AttemptsInProgress;
            i = i + 1;
        }
        proof {
            let target = old(guard)@.all_in_progress().shards;
            assert forall|j: int| 0 <= j < guard.states.keys@.len() implies target[
                #[trigger] guard.states.keys@[j]
            ] == guard.states.values@[j]@ by {
                old(guard).lemma_progress_at(j);
            }
            guard.lemma_progress_by_position(target);
        }
    }

    /// Wakes the shards that waited for the master status and adds them to the
    /// list.
    fn wake_waiting(guard: &mut CollationSyncState, resumed: &mut Vec<ShardIdent>)
        requires
            old(guard).wf(),
            old(resumed)@.no_duplicates(),
            forall|s: ShardIdent| #[trigger] old(resumed)@.contains(s) ==> s.is_masterchain(),
        ensures
            final(guard).wf(),
            final(guard).same_sync(old(guard)),
            final(guard)@ == old(guard)@.wake(),
            final(resumed)@.no_duplicates(),
            forall|s: ShardIdent| #[trigger]
                final(resumed)@.contains(s) <==> old(resumed)@.contains(s) || (!s.is_masterchain()
                    && old(guard)@.waits(s)),
    {
        let mut i: usize = 0;
        while i < guard.states.values.len()
            invariant
                guard.wf(),
                i <= guard.states.values@.len(),
                guard.states.keys@ == old(guard).states.keys@,
                guard.states.values@.len() == old(guard).states.values@.len(),
                guard.mc_block_latest_chain_time == old(guard).mc_block_latest_chain_time,
                guard.mc_collation_forced_for_all == old(guard).mc_collation_forced_for_all,
                guard.same_sync(old(guard)),
                forall|j: int|
                    0 <= j < i ==> (#[trigger] guard.states.values@[j])@ == (if guard.states.keys@[j].is_masterchain() {
                        old(guard).states.values@[j]@
                    } else {
                        old(guard).states.values@[j]@.with_status(
                            CollationStatus::AttemptsInProgress,
                        )
                    }),
                forall|j: int|
                    i <= j < guard.states.values@.len() ==> guard.states.values@[j] == old(
                        guard,
                    ).states.values@[j],
                resumed@.no_duplicates(),
                forall|s: ShardIdent| #[trigger] old(resumed)@.contains(s) ==> s.is_masterchain(),
                forall|s: ShardIdent| #[trigger]
                    resumed@.contains(s) <==> old(resumed)@.contains(s) || (!s.is_masterchain()
                        && old(guard).waits_before(i as int, s)),
            decreases guard.states.values@.len() - i,
        {
            let shard = guard.states.keys[i];
            let ghost before = resumed@;
            if !shard.is_masterchain() {
                if guard.states.values[i].status == CollationStatus::WaitForMasterStatus {
                    proof {
                        if before.contains(shard) {
                            assert(old(guard).waits_before(i as int, shard));
                            let j = choose|j: int|
                                0 <= j < i && #[trigger] old(guard).states.keys@[j] == shard
                                    && old(guard).states.values@[j].status
                                    == CollationStatus::WaitForMasterStatus;
                            assert(guard.states.keys@[j] == guard.states.keys@[i as int]);
                            assert(false);
                        }
                    }
                    guard.states.values[i].status = CollationStatus::AttemptsInProgress;
                    resumed.push(shard);
                    proof {
                        assert forall|s: ShardIdent| #[trigger]
                            resumed@.contains(s) <==> before.contains(s) || s == shard by {
                            if before.contains(s) {
                                assert(resumed@[before.index_of(s)] == s);
                            }
                            if s == shard {
                                assert(resumed@[before.len() as int] == s);
                            }
                        }
                    }
                }
            }
            i = i + 1;
        }
        proof {
            let target = old(guard)@.wake().shards;
            assert forall|j: int| 0 <= j < guard.states.keys@.len() implies target[
                #[trigger] guard.states.keys@[j]
            ] == guard.states.values@[j]@ by {
                old(guard).lemma_progress_at(j);
            }
            guard.lemma_progress_by_position(target);
            assert forall|s: ShardIdent| #[trigger] old(guard)@.waits(s) == old(guard).waits_before(
                old(guard).states.keys@.len() as int,
                s,
            ) by {
                if old(guard)@.waits(s) {
                    let j = old(guard).states.keys@.index_of(s);
                    old(guard).lemma_progress_at(j);
                    assert(old(guard).states.keys@[j] == s);
                }
                if old(guard).waits_before(old(guard).states.keys@.len() as int, s) {
                    let j = choose|j: int|
                        0 <= j < old(guard).states.keys@.len() && #[trigger] old(
                            guard,
                        ).states.keys@[j] == s && old(guard).states.values@[j].status
                            == CollationStatus::WaitForMasterStatus;
                    old(guard).lemma_progress_at(j);
                }
            }
        }
    }

    /// The latest of the chain times at which the shards are ready, if all are.
    fn find_master_time(guard: &CollationSyncState, active_shards: &Vec<ShardIdent>, interval: u64) -> (r:
        Option<u64>)
        requires
            guard.wf(),
            active_shards@.len() > 0,
        ensures
            r is Some <==> guard@.all_ready(active_shards@, interval),
            r matches Some(t) ==> {
                &&& exists|i: int|
                    0 <= i < active_shards@.len() && guard@.ready(
                        #[trigger] active_shards@[i],
                        interval,
                    ) == Some(t)
                &&& forall|i: int|
                    0 <= i < active_shards@.len() ==> guard@.ready(
                        #[trigger] active_shards@[i],
                        interval,
                    )->0 <= t
            },
    {
        let mut max: u64 = 0;
        let mut i: usize = 0;
        while i < active_shards.len()
            invariant
                guard.wf(),
                i <= active_shards@.len(),
                i > 0 ==> exists|j: int|
                    0 <= j < i && guard@.ready(#[trigger] active_shards@[j], interval) == Some(max),
                forall|j: int|
                    0 <= j < i ==> guard@.ready(#[trigger] active_shards@[j], interval) is Some
                        && guard@.ready(active_shards@[j], interval)->0 <= max,
            decreases active_shards@.len() - i,
        {
            let shard = active_shards[i];
            let ready: Option<u64> = match guard.states.get(&shard) {
                Some(state) => state.find_ready_time(
                    guard.mc_block_latest_chain_time,
                    interval,
                    guard.mc_collation_forced_for_all,
                ),
                None => None,
            };
            assert(ready == guard@.ready(active_shards@[i as int], interval));
            match ready {
                Some(ct) => {
                    if i == 0 || ct > max {
                        max = ct;
                    }
                },
                None => {
                    return None;
                },
            }
            i = i + 1;
        }
        Some(max)
    }

    /// Notes what the collator of `shard_id` has reported and decides what
    /// follows: a shard that reports before the master collator waits for it, a
    /// master block is collated once every active shard wants one, and
    /// otherwise attempts go on.
    pub fn detect_next_collation_step(
        guard: &mut CollationSyncState,
        active_shards: Vec<ShardIdent>,
        shard_id: ShardIdent,
        last_imported_anchor_ct: u64,
        force_mc_block: ForceMasterCollation,
        mc_block_min_interval_ms: u64,
    ) -> (step: NextCollationStep)
        requires
            old(guard).wf(),
            active_shards@.len() > 0 || !old(guard)@.record(
                shard_id,
                last_imported_anchor_ct,
                force_mc_block,
            ).wants_master(last_imported_anchor_ct, force_mc_block, mc_block_min_interval_ms),
        ensures
            final(guard).wf(),
            final(guard).same_sync(old(guard)),
            next_step_is(
                old(guard)@,
                final(guard)@,
                active_shards@,
                shard_id,
                last_imported_anchor_ct,
                force_mc_block,
                mc_block_min_interval_ms,
                step,
            ),
    {
        let mc_collation_state_exist = if shard_id.is_masterchain() {
            true
        } else {
            match guard.states.get(&ShardIdent::masterchain()) {
                Some(state) => state.last_imported_chain_times.len() > 0,
                None => false,
            }
        };
        assert(mc_collation_state_exist == old(guard)@.master_reported(shard_id));

        guard.record(shard_id, last_imported_anchor_ct, force_mc_block);
        let ghost recorded = guard@;

        let latest: u64 = guard.mc_block_latest_chain_time;
        let should_collate_by_current_shard = guard.mc_collation_forced_for_all
            || force_mc_block.is_forced() || (last_imported_anchor_ct > latest
            && last_imported_anchor_ct - latest > mc_block_min_interval_ms);

        let master_time: Option<u64> = if should_collate_by_current_shard {
            Self::find_master_time(guard, &active_shards, mc_block_min_interval_ms)
        } else {
            None
        };

        match master_time {
            Some(next_mc_block_chain_time) => {
                Self::reset_collation_sync_status(guard);
                Self::renew_mc_block_latest_chain_time(guard, next_mc_block_chain_time);
                guard.mc_collation_forced_for_all = false;
                NextCollationStep::CollateMaster(next_mc_block_chain_time)
            },
            None => {
                let mut resumed: Vec<ShardIdent> = Vec::new();
                if !should_collate_by_current_shard {
                    if !mc_collation_state_exist {
                        guard.set_status(shard_id, CollationStatus::WaitForMasterStatus);
                        return NextCollationStep::WaitForMasterStatus;
                    }
                    guard.set_status(shard_id, CollationStatus::AttemptsInProgress);
                    resumed.push(shard_id);
                    assert(resumed@[0] == shard_id);
                }
                let ghost first = resumed@;
                assert(forall|s: ShardIdent| #[trigger]
                    first.contains(s) <==> !should_collate_by_current_shard && s == shard_id);
                if shard_id.is_masterchain() {
                    Self::wake_waiting(guard, &mut resumed);
                    proof {
                        assert forall|s: ShardIdent| !s.is_masterchain() implies #[trigger] recorded.waits(
                            s,
                        ) == recorded.set_status(
                            shard_id,
                            CollationStatus::AttemptsInProgress,
                        ).waits(s) by {}
                    }
                }
                NextCollationStep::ResumeAttemptsIn(resumed)
            },
        }
    }
}

/// The step that follows a report, and the pace after it.
pub open spec fn next_step_is(
    before: Pace,
    after: Pace,
    active_shards: Seq<ShardIdent>,
    shard_id: ShardIdent,
    ct: u64,
    force: ForceMasterCollation,
    interval: u64,
    step: NextCollationStep,
) -> bool {
    let recorded = before.record(shard_id, ct, force);
    let wants = recorded.wants_master(ct, force, interval);
    match step {
        NextCollationStep::WaitForMasterStatus => {
            &&& !wants
            &&& !before.master_reported(shard_id)
            &&& after == recorded.set_status(shard_id, CollationStatus::WaitForMasterStatus)
        },
        NextCollationStep::ResumeAttemptsIn(shards) => {
            let current = if wants {
                recorded
            } else {
                recorded.set_status(shard_id, CollationStatus::AttemptsInProgress)
            };
            &&& if wants {
                !recorded.all_ready(active_shards, interval)
            } else {
                before.master_reported(shard_id)
            }
            &&& after == if shard_id.is_masterchain() {
                current.wake()
            } else {
                current
            }
            &&& shards@.no_duplicates()
            &&& forall|s: ShardIdent| #[trigger]
                shards@.contains(s) <==> (!wants && s == shard_id) || (shard_id.is_masterchain()
                    && !s.is_masterchain() && recorded.waits(s))
        },
        NextCollationStep::CollateMaster(time) => {
            &&& wants
            &&& recorded.all_ready(active_shards, interval)
            &&& exists|i: int|
                0 <= i < active_shards.len() && recorded.ready(#[trigger] active_shards[i], interval)
                    == Some(time)
            &&& forall|i: int|
                0 <= i < active_shards.len() ==> recorded.ready(
                    #[trigger] active_shards[i],
                    interval,
                )->0 <= time
            &&& after == Pace {
                forced_for_all: false,
                ..recorded.all_in_progress().renew(time)
            }
        },
    }
}

/// A master block starts afresh: its chain time is not after the latest, every
/// anchor still remembered is later, no shard waits, and nothing is forced for
/// all shards.
pub proof fn law_master_block_starts_afresh(
    before: Pace,
    after: Pace,
    active_shards: Seq<ShardIdent>,
    shard_id: ShardIdent,
    ct: u64,
    force: ForceMasterCollation,
    interval: u64,
    time: u64,
)
    requires
        next_step_is(
            before,
            after,
            active_shards,
            shard_id,
            ct,
            force,
            interval,
            NextCollationStep::CollateMaster(time),
        ),
    ensures
        time <= after.latest,
        before.latest <= after.latest,
        !after.forced_for_all,
        forall|s: ShardIdent| !#[trigger] after.waits(s),
        forall|s: ShardIdent, i: int|
            0 <= i < after.progress(s).times.len() ==> (#[trigger] after.progress(s).times[i]).0
                > time,
{
    let recorded = before.record(shard_id, ct, force);
    assert forall|s: ShardIdent, i: int| 0 <= i < after.progress(s).times.len() implies (
    #[trigger] after.progress(s).times[i]).0 > time by {
        let all = recorded.progress(s).times;
        let pred = |e: (u64, bool)| e.0 > time;
        let kept = after.progress(s).times;
        assert(after.shards.dom().contains(s));
        assert(kept == all.filter(pred));
        all.lemma_filter_pred(pred, i);
    }
}

/// A shard that waits for the master status is released by the next report of
/// the master collator: it is resumed, or a master block is collated.
pub proof fn law_master_report_releases_waiting_shards(
    before: Pace,
    after: Pace,
    active_shards: Seq<ShardIdent>,
    shard_id: ShardIdent,
    ct: u64,
    force: ForceMasterCollation,
    interval: u64,
    step: NextCollationStep,
    waiting: ShardIdent,
)
    requires
        next_step_is(before, after, active_shards, shard_id, ct, force, interval, step),
        shard_id.is_masterchain(),
        !waiting.is_masterchain(),
        before.waits(waiting),
    ensures
        !after.waits(waiting),
        step is CollateMaster || (step matches NextCollationStep::ResumeAttemptsIn(shards)
            && shards@.contains(waiting)),
{
    let recorded = before.record(shard_id, ct, force);
    assert(recorded.waits(waiting));
}

/// After a reset no shard waits, so the next report of the master collator
/// resumes no shard but the master itself.
pub proof fn law_reset_leaves_nothing_to_resume(
    start: Pace,
    after: Pace,
    active_shards: Seq<ShardIdent>,
    shard_id: ShardIdent,
    ct: u64,
    force: ForceMasterCollation,
    interval: u64,
    shards: Vec<ShardIdent>,
)
    requires
        next_step_is(
            start.all_in_progress(),
            after,
            active_shards,
            shard_id,
            ct,
            force,
            interval,
            NextCollationStep::ResumeAttemptsIn(shards),
        ),
        shard_id.is_masterchain(),
    ensures
        forall|s: ShardIdent| #[trigger] shards@.contains(s) ==> s == shard_id,
{
    let before = start.all_in_progress();
    assert forall|s: ShardIdent| #[trigger] shards@.contains(s) implies s == shard_id by {
        assert(!before.waits(s));
    }
}

/// One report leads to one step: the kind of the step, the time of a master
/// block, the shards resumed and the pace are all determined by the pace before.
pub proof fn law_step_is_determined(
    before: Pace,
    after1: Pace,
    after2: Pace,
    active_shards: Seq<ShardIdent>,
    shard_id: ShardIdent,
    ct: u64,
    force: ForceMasterCollation,
    interval: u64,
    step1: NextCollationStep,
    step2: NextCollationStep,
)
    requires
        next_step_is(before, after1, active_shards, shard_id, ct, force, interval, step1),
        next_step_is(before, after2, active_shards, shard_id, ct, force, interval, step2),
    ensures
        after1 == after2,
        match (step1, step2) {
            (NextCollationStep::WaitForMasterStatus, NextCollationStep::WaitForMasterStatus) => true,
            (NextCollationStep::CollateMaster(a), NextCollationStep::CollateMaster(b)) => a == b,
            (
                NextCollationStep::ResumeAttemptsIn(a),
                NextCollationStep::ResumeAttemptsIn(b),
            ) => a@.to_set() == b@.to_set(),
            _ => false,
        },
{
    match (step1, step2) {
        (NextCollationStep::ResumeAttemptsIn(a), NextCollationStep::ResumeAttemptsIn(b)) => {
            assert forall|s: ShardIdent| a@.to_set().contains(s) == b@.to_set().contains(s) by {
                assert(a@.contains(s) == b@.contains(s));
            }
            assert(a@.to_set() =~= b@.to_set());
        },
        (NextCollationStep::CollateMaster(a), NextCollationStep::CollateMaster(b)) => {
            let recorded = before.record(shard_id, ct, force);
            let i = choose|i: int|
                0 <= i < active_shards.len() && recorded.ready(#[trigger] active_shards[i], interval)
                    == Some(a);
            let j = choose|j: int|
                0 <= j < active_shards.len() && recorded.ready(#[trigger] active_shards[j], interval)
                    == Some(b);
            assert(a <= b && b <= a);
        },
        _ => {},
    }
}

/// The anchors that a shard has imported since the last master block, counting the one
/// that is just reported.
pub open spec fn imported(
    pace: Pace,
    shard: ShardIdent,
    reporting: ShardIdent,
    ct: u64,
    force: ForceMasterCollation,
) -> Seq<(u64, bool)> {
    let before = if pace.shards.dom().contains(shard) {
        pace.shards[shard].times
    } else {
        Seq::empty()
    };
    if shard == reporting {
        before.push((ct, force != ForceMasterCollation::No))
    } else {
        before
    }
}

/// A report asks for a master block if one is forced, by it or for all shards, or if its
/// anchor is later than the last master block by more than the interval. One that does
/// not waits for the master status exactly if it is of a shard and the master collator
/// has imported nothing. One that does leads to a master block exactly if every active
/// shard is ready.
pub proof fn law_step_follows_its_cause(
    before: Pace,
    after: Pace,
    active_shards: Seq<ShardIdent>,
    shard_id: ShardIdent,
    ct: u64,
    force: ForceMasterCollation,
    interval: u64,
    step: NextCollationStep,
)
    requires
        next_step_is(before, after, active_shards, shard_id, ct, force, interval, step),
    ensures
        ({
            let asks = before.forced_for_all || force != ForceMasterCollation::No || ct
                > before.latest + interval;
            let forced_for_all = before.forced_for_all || (shard_id.workchain == -1 && force
                == ForceMasterCollation::ByUprocessedMessages);
            &&& step is WaitForMasterStatus <==> !asks && shard_id.workchain != -1 && !(
            before.shards.dom().contains(ShardIdent::masterchain())
                && before.shards[ShardIdent::masterchain()].times.len() > 0)
            &&& step is CollateMaster <==> asks && forall|i: int|
                0 <= i < active_shards.len() ==> crate::manager::sync_state::ready_time(
                    imported(before, #[trigger] active_shards[i], shard_id, ct, force),
                    before.latest,
                    interval,
                    forced_for_all,
                ) is Some
        }),
{
    let recorded = before.record(shard_id, ct, force);
    assert forall|s: ShardIdent| #[trigger] recorded.progress(s).times == imported(
        before,
        s,
        shard_id,
        ct,
        force,
    ) by {}
}

/// A master block gets the latest of the chain times at which the active shards are
/// ready.
pub proof fn law_master_block_gets_the_latest_time(
    before: Pace,
    after: Pace,
    active_shards: Seq<ShardIdent>,
    shard_id: ShardIdent,
    ct: u64,
    force: ForceMasterCollation,
    interval: u64,
    time: u64,
)
    requires
        next_step_is(
            before,
            after,
            active_shards,
            shard_id,
            ct,
            force,
            interval,
            NextCollationStep::CollateMaster(time),
        ),
    ensures
        ({
            let forced_for_all = before.forced_for_all || (shard_id.workchain == -1 && force
                == ForceMasterCollation::ByUprocessedMessages);
            let ready = |s: ShardIdent|
                crate::manager::sync_state::ready_time(
                    imported(before, s, shard_id, ct, force),
                    before.latest,
                    interval,
                    forced_for_all,
                );
            &&& forall|i: int|
                0 <= i < active_shards.len() ==> (ready(#[trigger] active_shards[i]) matches Some(t)
                    && t <= time)
            &&& exists|i: int|
                0 <= i < active_shards.len() && ready(#[trigger] active_shards[i]) == Some(time)
        }),
{
    let recorded = before.record(shard_id, ct, force);
    assert forall|s: ShardIdent| #[trigger] recorded.progress(s).times == imported(
        before,
        s,
        shard_id,
        ct,
        force,
    ) by {}
    let i = choose|i: int|
        0 <= i < active_shards.len() && recorded.ready(#[trigger] active_shards[i], interval)
            == Some(time);
    assert(recorded.progress(active_shards[i]).times == imported(
        before,
        active_shards[i],
        shard_id,
        ct,
        force,
    ));
}

/// A master block forgets the anchors up to its time and no others: the later ones stay,
/// in number and with their marks. The time of the last master block does not fall.
pub proof fn law_later_anchors_are_remembered(
    before: Pace,
    after: Pace,
    active_shards: Seq<ShardIdent>,
    shard_id: ShardIdent,
    ct: u64,
    force: ForceMasterCollation,
    interval: u64,
    time: u64,
    shard: ShardIdent,
)
    requires
        next_step_is(
            before,
            after,
            active_shards,
            shard_id,
            ct,
            force,
            interval,
            NextCollationStep::CollateMaster(time),
        ),
    ensures
        after.latest == if time > before.latest {
            time
        } else {
            before.latest
        },
        after.shards.dom().contains(shard) <==> before.shards.dom().contains(shard) || shard
            == shard_id,
        after.shards.dom().contains(shard) ==> ({
            let all = imported(before, shard, shard_id, ct, force);
            let kept = after.shards[shard].times;
            &&& after.shards[shard].status == CollationStatus::AttemptsInProgress
            &&& after.shards[shard].forced <==> exists|i: int|
                0 <= i < all.len() && (#[trigger] all[i]).1 && all[i].0 > time
            &&& forall|e: (u64, bool)| #[trigger]
                kept.to_multiset().count(e) == if e.0 > time {
                    all.to_multiset().count(e)
                } else {
                    0
                }
        }),
{
    let recorded = before.record(shard_id, ct, force);
    if after.shards.dom().contains(shard) {
        let all = imported(before, shard, shard_id, ct, force);
        let kept = after.shards[shard].times;
        let pred = |e: (u64, bool)| e.0 > time;
        assert(recorded.progress(shard).times == all);
        assert(kept == all.filter(pred));
        lemma_filter_counts(all, kept, time);
        if after.shards[shard].forced {
            let i = choose|i: int| 0 <= i < kept.len() && (#[trigger] kept[i]).1;
            vstd::seq_lib::to_multiset_contains(kept, kept[i]);
            assert(all.to_multiset().count(kept[i]) > 0);
            vstd::seq_lib::to_multiset_contains(all, kept[i]);
        }
        if exists|i: int| 0 <= i < all.len() && (#[trigger] all[i]).1 && all[i].0 > time {
            let i = choose|i: int| 0 <= i < all.len() && (#[trigger] all[i]).1 && all[i].0 > time;
            vstd::seq_lib::to_multiset_contains(all, all[i]);
            assert(kept.to_multiset().count(all[i]) > 0);
            vstd::seq_lib::to_multiset_contains(kept, all[i]);
        }
    }
}

proof fn lemma_filter_counts(all: Seq<(u64, bool)>, kept: Seq<(u64, bool)>, time: u64)
    requires
        kept == all.filter(|e: (u64, bool)| e.0 > time),
    ensures
        forall|e: (u64, bool)| #[trigger]
            kept.to_multiset().count(e) == if e.0 > time {
                all.to_multiset().count(e)
            } else {
                0
            },
    decreases all.len(),
{
    broadcast use vstd::multiset::group_multiset_axioms;

    let pred = |e: (u64, bool)| e.0 > time;
    reveal(Seq::filter);
    if all.len() == 0 {
        assert(all.filter(pred) =~= Seq::<(u64, bool)>::empty());
        assert(all =~= Seq::<(u64, bool)>::empty());
        vstd::seq_lib::to_multiset_len(all);
    } else {
        let rest = all.drop_last();
        lemma_filter_counts(rest, rest.filter(pred), time);
        assert(rest.push(all.last()) =~= all);
        vstd::seq_lib::to_multiset_build(rest, all.last());
        vstd::seq_lib::to_multiset_build(rest.filter(pred), all.last());
    }
}

/// Where no master block is collated, nothing is forgotten: the report is added to the
/// anchors of its shard, those of other shards and the time of the last master block
/// stay. Only the shard that reports can come to wait, and it does so exactly if the
/// step says so. The shards that are resumed are the one that reports, unless it asks
/// for a master block, and with a report of the master collator those that waited.
pub proof fn law_attempts_keep_what_was_imported(
    before: Pace,
    after: Pace,
    active_shards: Seq<ShardIdent>,
    shard_id: ShardIdent,
    ct: u64,
    force: ForceMasterCollation,
    interval: u64,
    step: NextCollationStep,
    shard: ShardIdent,
)
    requires
        next_step_is(before, after, active_shards, shard_id, ct, force, interval, step),
        !(step is CollateMaster),
    ensures
        ({
            let asks = before.forced_for_all || force != ForceMasterCollation::No || ct
                > before.latest + interval;
            let waited = before.shards.dom().contains(shard) && before.shards[shard].status
                == CollationStatus::WaitForMasterStatus;
            let waits = after.shards.dom().contains(shard) && after.shards[shard].status
                == CollationStatus::WaitForMasterStatus;
            &&& after.latest == before.latest
            &&& after.forced_for_all == (before.forced_for_all || (shard_id.workchain == -1 && force
                == ForceMasterCollation::ByUprocessedMessages))
            &&& after.shards.dom().contains(shard) <==> before.shards.dom().contains(shard) || shard
                == shard_id
            &&& after.shards.dom().contains(shard) ==> after.shards[shard].times == imported(
                before,
                shard,
                shard_id,
                ct,
                force,
            ) && after.shards[shard].forced == ((before.shards.dom().contains(shard)
                && before.shards[shard].forced) || (shard == shard_id && force
                != ForceMasterCollation::No))
            &&& step is WaitForMasterStatus ==> waits == (waited || shard == shard_id)
            &&& step is ResumeAttemptsIn ==> waits == (waited && !(shard == shard_id && !asks) && !(
            shard_id.workchain == -1 && shard.workchain != -1))
            &&& step matches NextCollationStep::ResumeAttemptsIn(shards) ==> (shards@.contains(shard)
                <==> (shard == shard_id && !asks) || (shard_id.workchain == -1 && shard.workchain
                != -1 && waited))
        }),
{
}

} // verus!

//! The states of collators, and the step that follows a report.
use crate::ids::{BlockId, BlockIdShort, ShardIdent};
use crate::manager::sync_state::{ForceMasterCollation, NextCollationStep, Pace};
use crate::manager::{CollationManager, CollatorState};
use vstd::prelude::*;

verus! {

/// What is left to do after a collation step was chosen.
#[derive(Debug)]
pub enum StepPlan {
    /// Have the master collator make the next block. `None` when there is no
    /// master collator.
    CollateMaster(Option<(BlockIdShort, u64)>),
    /// Nothing: the collator of the shard waits.
    Wait,
    /// Start the next attempt in these shards.
    TryCollate(Vec<ShardIdent>),
}

/// The state of a collator after a foreign block turned out to differ: one that
/// runs is to be cancelled when it ends.
pub open spec fn interrupted(state: CollatorState) -> CollatorState {
    match state {
        CollatorState::Waiting | CollatorState::Cancelled => CollatorState::Cancelled,
        _ => CollatorState::CancelPending,
    }
}

/// Whether a collator runs.
pub open spec fn runs(state: CollatorState) -> bool {
    state == CollatorState::Active || state == CollatorState::CancelPending
}

/// Gives a collator a state, if there is one for the shard.
pub open spec fn with_state(
    collators: Map<ShardIdent, CollatorState>,
    shard: ShardIdent,
    state: CollatorState,
) -> Map<ShardIdent, CollatorState> {
    if collators.dom().contains(shard) {
        collators.insert(shard, state)
    } else {
        collators
    }
}

/// A cancellation that was pending takes effect.
pub open spec fn settle(collators: Map<ShardIdent, CollatorState>, shard: ShardIdent) -> Map<
    ShardIdent,
    CollatorState,
> {
    if collators.dom().contains(shard) && collators[shard] == CollatorState::CancelPending {
        collators.insert(shard, CollatorState::Cancelled)
    } else {
        collators
    }
}

/// Every collator but that of `shard` is interrupted.
pub open spec fn interrupt_others(
    collators: Map<ShardIdent, CollatorState>,
    shard: ShardIdent,
) -> Map<ShardIdent, CollatorState> {
    collators.map_entries(
        |s: ShardIdent, c: CollatorState|
            if s == shard {
                c
            } else {
                interrupted(c)
            },
    )
}

/// Whether any collator runs.
pub open spec fn any_runs(collators: Map<ShardIdent, CollatorState>) -> bool {
    exists|s: ShardIdent| #[trigger] collators.dom().contains(s) && runs(collators[s])
}

/// The shards of a list become active.
pub open spec fn activate_all(
    collators: Map<ShardIdent, CollatorState>,
    shards: Seq<ShardIdent>,
) -> Map<ShardIdent, CollatorState> {
    collators.map_entries(
        |s: ShardIdent, c: CollatorState|
            if shards.contains(s) {
                CollatorState::Active
            } else {
                c
            },
    )
}

/// What follows from a step: who collates, who waits, what is left to do.
pub open spec fn step_plan_is(
    step: NextCollationStep,
    prev_mc_block_id: BlockId,
    shard_id: ShardIdent,
    before: Map<ShardIdent, CollatorState>,
    after: Map<ShardIdent, CollatorState>,
    plan: StepPlan,
) -> bool {
    match step {
        NextCollationStep::CollateMaster(time) => {
            let waiting = if shard_id.is_masterchain() {
                before
            } else {
                with_state(before, shard_id, CollatorState::Waiting)
            };
            &&& after == with_state(waiting, ShardIdent::masterchain(), CollatorState::Active)
            &&& plan == StepPlan::CollateMaster(
                if before.dom().contains(ShardIdent::masterchain()) {
                    Some(
                        (
                            BlockIdShort {
                                shard: prev_mc_block_id.shard,
                                seqno: (prev_mc_block_id.seqno + 1) as u32,
                            },
                            time,
                        ),
                    )
                } else {
                    None
                },
            )
        },
        NextCollationStep::WaitForMasterStatus => {
            &&& after == with_state(before, shard_id, CollatorState::Waiting)
            &&& plan is Wait
        },
        NextCollationStep::ResumeAttemptsIn(shards) => {
            let active = activate_all(before, shards@);
            &&& after == if shards@.contains(shard_id) {
                active
            } else {
                with_state(active, shard_id, CollatorState::Waiting)
            }
            &&& plan matches StepPlan::TryCollate(todo) && todo@ == shards@.filter(
                |s: ShardIdent| before.dom().contains(s),
            )
        },
    }
}

/// A report was noted and led to a step with its plan.
pub open spec fn stepped(
    pace_before: Pace,
    pace_after: Pace,
    active_shards: Seq<ShardIdent>,
    collators_before: Map<ShardIdent, CollatorState>,
    collators_after: Map<ShardIdent, CollatorState>,
    prev_mc_block_id: BlockId,
    shard_id: ShardIdent,
    chain_time: u64,
    force: ForceMasterCollation,
    interval: u64,
    plan: StepPlan,
) -> bool {
    exists|step: NextCollationStep|
        #[trigger] step_plan_is(
            step,
            prev_mc_block_id,
            shard_id,
            collators_before,
            collators_after,
            plan,
        ) && crate::manager::steps::next_step_is(
            pace_before,
            pace_after,
            active_shards,
            shard_id,
            chain_time,
            force,
            interval,
            step,
        )
}

impl CollationManager {
    /// Sets the state of a collator and says whether there is one.
    pub fn set_collator_state(&mut self, shard: &ShardIdent, state: CollatorState) -> (r: bool)
        requires
            old(self).wf(),
        ensures
            final(self).wf(),
            final(self).same_but_collators(old(self)),
            r == old(self).active_collators@.dom().contains(*shard),
            final(self).active_collators@ == with_state(old(self).active_collators@, *shard, state),
            final(self).active_collators.keys@ == old(self).active_collators.keys@,
    {
        match self.active_collators.position(shard) {
            Some(i) => {
                self.active_collators.set_at(i, state);
                true
            },
            None => false,
        }
    }

    /// Lets a pending cancellation take effect and returns the state then.
    pub fn settle_collator(&mut self, shard: &ShardIdent) -> (r: Option<CollatorState>)
        requires
            old(self).wf(),
        ensures
            final(self).wf(),
            final(self).same_but_collators(old(self)),
            final(self).active_collators@ == settle(old(self).active_collators@, *shard),
            r == (if final(self).active_collators@.dom().contains(*shard) {
                Some(final(self).active_collators@[*shard])
            } else {
                None
            }),
    {
        match self.active_collators.position(shard) {
            Some(i) => {
                let state = self.active_collators.values[i];
                if state == CollatorState::CancelPending {
                    self.active_collators.set_at(i, CollatorState::Cancelled);
                    Some(CollatorState::Cancelled)
                } else {
                    Some(state)
                }
            },
            None => None,
        }
    }

    /// Interrupts every collator but that of `shard`.
    pub fn interrupt_other_collators(&mut self, shard: &ShardIdent)
        requires
            old(self).wf(),
        ensures
            final(self).wf(),
            final(self).same_but_collators(old(self)),
            final(self).active_collators@ == interrupt_others(old(self).active_collators@, *shard),
    {
        let mut i: usize = 0;
        while i < self.active_collators.keys.len()
            invariant
                self.wf(),
                self.same_but_collators(old(self)),
                self.active_collators.keys@ == old(self).active_collators.keys@,
                i <= self.active_collators.keys@.len(),
                forall|j: int|
                    0 <= j < i ==> #[trigger] self.active_collators.values@[j] == (if self.active_collators.keys@[j]
                        == *shard {
                        old(self).active_collators.values@[j]
                    } else {
                        interrupted(old(self).active_collators.values@[j])
                    }),
                forall|j: int|
                    i <= j < self.active_collators.keys@.len() ==> self.active_collators.values@[j]
                        == old(self).active_collators.values@[j],
            decreases self.active_collators.keys@.len() - i,
        {
            if self.active_collators.keys[i] != *shard {
                let state = match self.active_collators.values[i] {
                    CollatorState::Waiting => CollatorState::Cancelled,
                    CollatorState::Cancelled => CollatorState::Cancelled,
                    _ => CollatorState::CancelPending,
                };
                self.active_collators.set_at(i, state);
            }
            i = i + 1;
        }
        proof {
            let target = interrupt_others(old(self).active_collators@, *shard);
            assert forall|s: ShardIdent| target.dom().contains(s) implies self.active_collators@[s]
                == target[s] by {
                let j = self.active_collators.keys@.index_of(s);
                assert(self.active_collators.keys@[j] == s);
                self.active_collators.lemma_at(j);
                old(self).active_collators.lemma_at(j);
            }
            assert(self.active_collators@ =~= target);
        }
    }

    /// Interrupts the collator of a shard.
    pub fn interrupt_collator(&mut self, shard: &ShardIdent)
        requires
            old(self).wf(),
        ensures
            final(self).wf(),
            final(self).same_but_collators(old(self)),
            final(self).active_collators@ == (if old(self).active_collators@.dom().contains(
                *shard,
            ) {
                old(self).active_collators@.insert(
                    *shard,
                    interrupted(old(self).active_collators@[*shard]),
                )
            } else {
                old(self).active_collators@
            }),
    {
        match self.active_collators.position(shard) {
            Some(i) => {
                let state = match self.active_collators.values[i] {
                    CollatorState::Waiting => CollatorState::Cancelled,
                    CollatorState::Cancelled => CollatorState::Cancelled,
                    _ => CollatorState::CancelPending,
                };
                self.active_collators.set_at(i, state);
            },
            None => {},
        }
    }

    /// The shards whose collators run.
    pub fn running_collators(&self) -> (r: Vec<ShardIdent>)
        requires
            self.wf(),
        ensures
            r@.no_duplicates(),
            forall|s: ShardIdent| #[trigger]
                r@.contains(s) <==> self.active_collators@.dom().contains(s) && runs(
                    self.active_collators@[s],
                ),
    {
        let mut found: Vec<ShardIdent> = Vec::new();
        let mut i: usize = 0;
        while i < self.active_collators.keys.len()
            invariant
                self.wf(),
                i <= self.active_collators.keys@.len(),
                found@.no_duplicates(),
                forall|s: ShardIdent| #[trigger]
                    found@.contains(s) <==> self.runs_before(i as int, s),
            decreases self.active_collators.keys@.len() - i,
        {
            let shard = self.active_collators.keys[i];
            let state = self.active_collators.values[i];
            let ghost before = found@;
            assert(!self.runs_before(i as int, shard));
            assert(!before.contains(shard));
            if state == CollatorState::Active || state == CollatorState::CancelPending {
                found.push(shard);
            }
            proof {
                assert forall|s: ShardIdent| #[trigger]
                    found@.contains(s) <==> self.runs_before(i + 1, s) by {
                    if runs(state) {
                        assert(found@[before.len() as int] == shard);
                        if before.contains(s) {
                            assert(found@[before.index_of(s)] == s);
                        }
                    }
                    if s == shard && runs(state) {
                        assert(self.active_collators.keys@[i as int] == s);
                    }
                    if self.runs_before(i as int, s) {
                        let j = choose|j: int|
                            0 <= j < i && #[trigger] self.active_collators.keys@[j] == s && runs(
                                self.active_collators.values@[j],
                            );
                        assert(self.active_collators.keys@[j] == s);
                    }
                    assert(found@.contains(s) ==> before.contains(s) || (runs(state) && s == shard));
                }
            }
            i = i + 1;
        }
        proof {
            let n = self.active_collators.keys@.len() as int;
            assert forall|s: ShardIdent| self.runs_before(n, s) == (
            self.active_collators@.dom().contains(s) && runs(self.active_collators@[s])) by {
                if self.runs_before(n, s) {
                    let j = choose|j: int|
                        0 <= j < n && #[trigger] self.active_collators.keys@[j] == s && runs(
                            self.active_collators.values@[j],
                        );
                    self.active_collators.lemma_at(j);
                }
                if self.active_collators@.dom().contains(s) {
                    let j = self.active_collators.keys@.index_of(s);
                    assert(self.active_collators.keys@[j] == s);
                    self.active_collators.lemma_at(j);
                }
            }
        }
        found
    }

    /// Whether the collator of a shard listed before position `i` runs.
    spec fn runs_before(&self, i: int, s: ShardIdent) -> bool {
        exists|j: int|
            0 <= j < i && #[trigger] self.active_collators.keys@[j] == s && runs(
                self.active_collators.values@[j],
            )
    }

    /// Whether any collator runs.
    pub fn has_active(&self) -> (r: bool)
        requires
            self.wf(),
        ensures
            r == any_runs(self.active_collators@),
    {
        let running = self.running_collators();
        proof {
            if running@.len() > 0 {
                assert(running@.contains(running@[0]));
            }
            if any_runs(self.active_collators@) {
                let s = choose|s: ShardIdent| #[trigger]
                    self.active_collators@.dom().contains(s) && runs(self.active_collators@[s]);
                assert(running@.contains(s));
            }
        }
        running.len() > 0
    }

    /// Notes that the collation in a shard was cancelled. Returns whether to
    /// synchronise with the applied master blocks: that is when no collator runs
    /// any more.
    pub fn handle_collation_cancelled(&mut self, next_block_id_short: BlockIdShort) -> (r: bool)
        requires
            old(self).wf(),
        ensures
            final(self).wf(),
            final(self).same_but_collators(old(self)),
            final(self).active_collators@ == with_state(
                old(self).active_collators@,
                next_block_id_short.shard,
                CollatorState::Cancelled,
            ),
            r == !any_runs(final(self).active_collators@),
    {
        let _known = self.set_collator_state(
            &next_block_id_short.shard,
            CollatorState::Cancelled,
        );
        !self.has_active()
    }

    /// Whether a master block can be collated or is not asked for: the case in
    /// which a report leads to a step.
    pub open spec fn can_step(
        &self,
        shard_id: ShardIdent,
        chain_time: u64,
        force_mc_block: ForceMasterCollation,
        interval: u64,
        prev_mc_block_id: BlockId,
    ) -> bool {
        &&& prev_mc_block_id.seqno < u32::MAX
        &&& self.active_collation_sessions.keys@.len() > 0
            || !self.collation_sync_state@.record(shard_id, chain_time, force_mc_block).wants_master(
            chain_time,
            force_mc_block,
            interval,
        )
    }

    /// Notes what a collator has reported, chooses the next step, and sets the
    /// collators that collate and those that wait.
    pub fn run_next_collation_step(
        &mut self,
        prev_mc_block_id: &BlockId,
        shard_id: ShardIdent,
        chain_time: u64,
        force_mc_block: ForceMasterCollation,
        mc_block_min_interval_ms: u64,
    ) -> (plan: StepPlan)
        requires
            old(self).wf(),
            old(self).can_step(
                shard_id,
                chain_time,
                force_mc_block,
                mc_block_min_interval_ms,
                *prev_mc_block_id,
            ),
        ensures
            final(self).wf(),
            final(self).same_but_collators_and_pace(old(self)),
            stepped(
                old(self).collation_sync_state@,
                final(self).collation_sync_state@,
                old(self).active_collation_sessions.keys@,
                old(self).active_collators@,
                final(self).active_collators@,
                *prev_mc_block_id,
                shard_id,
                chain_time,
                force_mc_block,
                mc_block_min_interval_ms,
                plan,
            ),
    {
        let active_shards = copy_shards(&self.active_collation_sessions.keys);
        let step = Self::detect_next_collation_step(
            &mut self.collation_sync_state,
            active_shards,
            shard_id,
            chain_time,
            force_mc_block,
            mc_block_min_interval_ms,
        );
        let ghost the_step = step;
        let ghost before = self.active_collators@;
        let plan = match step {
            NextCollationStep::CollateMaster(time) => {
                if !shard_id.is_masterchain() {
                    let _known = self.set_collator_state(&shard_id, CollatorState::Waiting);
                }
                let known = self.set_collator_state(
                    &ShardIdent::masterchain(),
                    CollatorState::Active,
                );
                if known {
                    StepPlan::CollateMaster(Some((prev_mc_block_id.get_next_id_short(), time)))
                } else {
                    StepPlan::CollateMaster(None)
                }
            },
            NextCollationStep::WaitForMasterStatus => {
                let _known = self.set_collator_state(&shard_id, CollatorState::Waiting);
                StepPlan::Wait
            },
            NextCollationStep::ResumeAttemptsIn(shards) => {
                let mut todo: Vec<ShardIdent> = Vec::new();
                let mut current_shard_should_wait = true;
                let mut i: usize = 0;
                let ghost known = |s: ShardIdent| before.dom().contains(s);
                proof {
                    reveal(Seq::filter);
                    assert(shards@.take(0).filter(known) =~= Seq::<ShardIdent>::empty());
                    assert(activate_all(before, shards@.take(0)) =~= before);
                }
                while i < shards.len()
                    invariant
                        self.wf(),
                        self.same_but_collators_and_pace(old(self)),
                        i <= shards@.len(),
                        known == (|s: ShardIdent| before.dom().contains(s)),
                        self.active_collators@ == activate_all(before, shards@.take(i as int)),
                        current_shard_should_wait == !shards@.take(i as int).contains(shard_id),
                        todo@ == shards@.take(i as int).filter(known),
                        crate::manager::steps::next_step_is(
                            old(self).collation_sync_state@,
                            self.collation_sync_state@,
                            old(self).active_collation_sessions.keys@,
                            shard_id,
                            chain_time,
                            force_mc_block,
                            mc_block_min_interval_ms,
                            the_step,
                        ),
                    decreases shards@.len() - i,
                {
                    let shard = shards[i];
                    let ghost mid = self.active_collators@;
                    if shard == shard_id {
                        current_shard_should_wait = false;
                    }
                    let exists_collator = self.set_collator_state(&shard, CollatorState::Active);
                    if exists_collator {
                        todo.push(shard);
                    }
                    proof {
                        let part = shards@.take(i as int);
                        let next = shards@.take(i + 1);
                        assert(next =~= part.push(shard));
                        assert(next.drop_last() =~= part);
                        reveal(Seq::filter);
                        assert forall|s: ShardIdent| #[trigger]
                            next.contains(s) <==> part.contains(s) || s == shard by {
                            if part.contains(s) {
                                assert(next[part.index_of(s)] == s);
                            }
                            if s == shard {
                                assert(next[i as int] == s);
                            }
                        }
                        assert(self.active_collators@ =~= activate_all(before, next));
                    }
                    i = i + 1;
                }
                assert(shards@.take(shards@.len() as int) =~= shards@);
                if current_shard_should_wait {
                    let _known = self.set_collator_state(&shard_id, CollatorState::Waiting);
                }
                StepPlan::TryCollate(todo)
            },
        };
        assert(step_plan_is(
            the_step,
            *prev_mc_block_id,
            shard_id,
            old(self).active_collators@,
            self.active_collators@,
            plan,
        ));
        plan
    }

    /// Goes on after a collator had nothing to collate. `None` when the
    /// collator was cancelled before.
    pub fn handle_collation_skipped(
        &mut self,
        prev_mc_block_id: BlockId,
        next_block_id_short: BlockIdShort,
        anchor_chain_time: u64,
        force_mc_block: ForceMasterCollation,
        mc_block_min_interval_ms: u64,
    ) -> (r: Option<StepPlan>)
        requires
            old(self).wf(),
            old(self).can_step(
                next_block_id_short.shard,
                anchor_chain_time,
                force_mc_block,
                mc_block_min_interval_ms,
                prev_mc_block_id,
            ),
        ensures
            final(self).wf(),
            final(self).same_but_collators_and_pace(old(self)),
            ({
                let shard = next_block_id_short.shard;
                let settled = settle(old(self).active_collators@, shard);
                if settled.dom().contains(shard) && settled[shard] == CollatorState::Cancelled {
                    &&& r is None
                    &&& final(self).active_collators@ == settled
                    &&& final(self).collation_sync_state == old(self).collation_sync_state
                } else {
                    r matches Some(plan) && stepped(
                        old(self).collation_sync_state@,
                        final(self).collation_sync_state@,
                        old(self).active_collation_sessions.keys@,
                        settled,
                        final(self).active_collators@,
                        prev_mc_block_id,
                        shard,
                        anchor_chain_time,
                        force_mc_block,
                        mc_block_min_interval_ms,
                        plan,
                    )
                }
            }),
    {
        let updated = self.settle_collator(&next_block_id_short.shard);
        if updated == Some(CollatorState::Cancelled) {
            return None;
        }
        Some(
            self.run_next_collation_step(
                &prev_mc_block_id,
                next_block_id_short.shard,
                anchor_chain_time,
                force_mc_block,
                mc_block_min_interval_ms,
            ),
        )
    }
}

/// A copy of a list of shards.
pub(crate) fn copy_shards(shards: &Vec<ShardIdent>) -> (r: Vec<ShardIdent>)
    ensures
        r@ == shards@,
{
    let mut copy: Vec<ShardIdent> = Vec::new();
    let mut i: usize = 0;
    while i < shards.len()
        invariant
            i <= shards@.len(),
            copy@ == shards@.take(i as int),
        decreases shards@.len() - i,
    {
        copy.push(shards[i]);
        i = i + 1;
        assert(copy@ =~= shards@.take(i as int));
    }
    assert(shards@.take(shards@.len() as int) =~= shards@);
    copy
}

/// A cancellation that was pending takes effect, and only for the collator of the shard.
pub proof fn law_pending_cancellation_takes_effect(
    collators: Map<ShardIdent, CollatorState>,
    shard: ShardIdent,
    other: ShardIdent,
)
    ensures
        settle(collators, shard).dom() == collators.dom(),
        collators.dom().contains(shard) ==> settle(collators, shard)[shard]
            != CollatorState::CancelPending,
        collators.dom().contains(shard) && collators[shard] != CollatorState::CancelPending
            ==> settle(collators, shard)[shard] == collators[shard],
        collators.dom().contains(shard) && collators[shard] == CollatorState::CancelPending
            ==> settle(collators, shard)[shard] == CollatorState::Cancelled,
        other != shard && collators.dom().contains(other) ==> settle(collators, shard)[other]
            == collators[other],
{
    assert(settle(collators, shard).dom() =~= collators.dom());
}

/// Some collator runs exactly if one is active or about to be cancelled.
pub proof fn law_some_collator_runs(collators: Map<ShardIdent, CollatorState>)
    ensures
        any_runs(collators) <==> exists|s: ShardIdent|
            #[trigger] collators.dom().contains(s) && collators[s] != CollatorState::Waiting
                && collators[s] != CollatorState::Cancelled,
{
    if any_runs(collators) {
        let s = choose|s: ShardIdent| #[trigger] collators.dom().contains(s) && runs(collators[s]);
        assert(collators.dom().contains(s));
    }
    if exists|s: ShardIdent|
        #[trigger] collators.dom().contains(s) && collators[s] != CollatorState::Waiting
            && collators[s] != CollatorState::Cancelled {
        let s = choose|s: ShardIdent|
            #[trigger] collators.dom().contains(s) && collators[s] != CollatorState::Waiting
                && collators[s] != CollatorState::Cancelled;
        assert(runs(collators[s]));
    }
}

/// Those who collate next are active: the master collator for a master block, the shards
/// that are resumed otherwise. The shard that has reported waits unless it is one of them.
/// All other collators stay as they were, and none is added or removed. Shards without a
/// collator are not asked to collate, and the next master block has the next number.
pub proof fn law_step_moves_the_collators(
    step: NextCollationStep,
    prev_mc_block_id: BlockId,
    shard_id: ShardIdent,
    before: Map<ShardIdent, CollatorState>,
    after: Map<ShardIdent, CollatorState>,
    plan: StepPlan,
    shard: ShardIdent,
)
    requires
        step_plan_is(step, prev_mc_block_id, shard_id, before, after, plan),
        prev_mc_block_id.seqno < u32::MAX,
    ensures
        after.dom().contains(shard) <==> before.dom().contains(shard),
        before.dom().contains(shard) ==> after[shard] == ({
            let collates = match step {
                NextCollationStep::CollateMaster(_) => shard == ShardIdent::masterchain() || (shard
                    == shard_id && shard.workchain == -1 && before[shard] == CollatorState::Active),
                NextCollationStep::WaitForMasterStatus => false,
                NextCollationStep::ResumeAttemptsIn(shards) => shards@.contains(shard),
            };
            if collates {
                CollatorState::Active
            } else if shard == shard_id && !(step is CollateMaster && shard.workchain == -1) {
                CollatorState::Waiting
            } else {
                before[shard]
            }
        }),
        step is WaitForMasterStatus <==> plan is Wait,
        step matches NextCollationStep::ResumeAttemptsIn(shards) ==> (
        plan matches StepPlan::TryCollate(todo) && forall|s: ShardIdent| #[trigger]
            todo@.contains(s) <==> shards@.contains(s) && before.dom().contains(s)),
        step matches NextCollationStep::CollateMaster(time) ==> (
        plan matches StepPlan::CollateMaster(next) && (next is Some <==> before.dom().contains(
            ShardIdent::masterchain(),
        )) && (next matches Some((id, t)) ==> t == time && id.shard == prev_mc_block_id.shard
            && id.seqno == prev_mc_block_id.seqno + 1)),
{
    if let NextCollationStep::ResumeAttemptsIn(shards) = step {
        let pred = |s: ShardIdent| before.dom().contains(s);
        let todo = plan->TryCollate_0;
        assert forall|s: ShardIdent| #[trigger] todo@.contains(s) <==> shards@.contains(s)
            && before.dom().contains(s) by {
            if todo@.contains(s) {
                let k = todo@.index_of(s);
                shards@.lemma_filter_contains_rev(pred, s);
                shards@.lemma_filter_pred(pred, k);
            }
            if shards@.contains(s) && before.dom().contains(s) {
                shards@.lemma_filter_contains(pred, shards@.index_of(s));
            }
        }
    }
}

/// A step that was taken is the next one of the collation pace, and the collators and the
/// plan follow from that same step.
pub proof fn law_plan_follows_the_next_step(
    pace_before: Pace,
    pace_after: Pace,
    active_shards: Seq<ShardIdent>,
    collators_before: Map<ShardIdent, CollatorState>,
    collators_after: Map<ShardIdent, CollatorState>,
    prev_mc_block_id: BlockId,
    shard_id: ShardIdent,
    chain_time: u64,
    force: ForceMasterCollation,
    interval: u64,
    plan: StepPlan,
) -> (step: NextCollationStep)
    requires
        stepped(
            pace_before,
            pace_after,
            active_shards,
            collators_before,
            collators_after,
            prev_mc_block_id,
            shard_id,
            chain_time,
            force,
            interval,
            plan,
        ),
    ensures
        step_plan_is(
            step,
            prev_mc_block_id,
            shard_id,
            collators_before,
            collators_after,
            plan,
        ),
        crate::manager::steps::next_step_is(
            pace_before,
            pace_after,
            active_shards,
            shard_id,
            chain_time,
            force,
            interval,
            step,
        ),
{
    choose|step: NextCollationStep|
        #[trigger] step_plan_is(
            step,
            prev_mc_block_id,
            shard_id,
            collators_before,
            collators_after,
            plan,
        ) && crate::manager::steps::next_step_is(
            pace_before,
            pace_after,
            active_shards,
            shard_id,
            chain_time,
            force,
            interval,
            step,
        )
}

/// When all others are interrupted, those that run are to be cancelled when they end, and
/// those that do not are cancelled. The collator of the shard stays as it is.
pub proof fn law_others_are_interrupted(
    collators: Map<ShardIdent, CollatorState>,
    shard: ShardIdent,
    other: ShardIdent,
)
    requires
        collators.dom().contains(other),
    ensures
        interrupt_others(collators, shard).dom() == collators.dom(),
        other == shard ==> interrupt_others(collators, shard)[other] == collators[other],
        other != shard && runs(collators[other]) ==> interrupt_others(collators, shard)[other]
            == CollatorState::CancelPending,
        other != shard && !runs(collators[other]) ==> interrupt_others(collators, shard)[other]
            == CollatorState::Cancelled,
{
    assert(interrupt_others(collators, shard).dom() =~= collators.dom());
}

} // verus!

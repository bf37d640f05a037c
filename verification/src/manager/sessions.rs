//! Collation sessions: which to keep, to start and to finish when the master
//! state changes.
use crate::ids::{BlockId, HashBytes, ShardIdent};
use crate::manager::sync::ProcessMcStateUpdateMode;
use crate::manager::{CollationManager, CollatorState};
use crate::outside::compute_mc_subset;
use crate::shard_map::ShardMap;
use crate::types::{
    CollationSessionId, CollationSessionInfo, McData, ValidationSessionId, ValidatorDescription,
    ValidatorSubsetInfo,
};
use vstd::prelude::*;

verus! {

/// The validators that the masterchain lists. The first `main` of them can take
/// part in the masterchain.
#[derive(Debug)]
pub struct ValidatorSet {
    pub main: u16,
    pub list: Vec<ValidatorDescription>,
}

/// No subset of validators could be computed.
#[derive(Clone, Copy, Debug, PartialEq, Eq, Structural)]
pub struct SubsetError {
    pub session_seqno: u32,
}

/// What to do about sessions after the master state has changed.
pub struct RefreshPlan {
    /// Shards whose session goes on, with their top blocks.
    pub keep: ShardMap<BlockId>,
    /// Shards for which a session is to be started, with their top blocks.
    pub start: ShardMap<BlockId>,
    /// Sessions that are over.
    pub finish: ShardMap<CollationSessionInfo>,
    /// Shards whose collator is to be stopped, with the session it served.
    pub stop: ShardMap<CollationSessionId>,
    /// The number and the validators of the sessions to start.
    pub session_seqno: u32,
    pub subset: ValidatorSubsetInfo,
}

/// What follows the start of a session.
#[derive(Clone, Copy, Debug, PartialEq, Eq)]
pub struct SessionStart {
    /// The collator exists already and is to be resumed.
    pub resume: bool,
    /// The validation session to add, and the number of its first block. Only
    /// master blocks are validated.
    pub add_validation: Option<(ValidationSessionId, u32)>,
}

/// The shards of a master state with their top blocks; the masterchain is one
/// of them.
pub open spec fn shards_of(mc: McData, n: int) -> Map<ShardIdent, BlockId>
    decreases n,
{
    if n <= 0 {
        Map::<ShardIdent, BlockId>::empty().insert(ShardIdent::masterchain(), mc.block_id)
    } else {
        shards_of(mc, n - 1).insert(
            mc.shards@[n - 1].0,
            mc.shards@[n - 1].1.get_block_id(mc.shards@[n - 1].0),
        )
    }
}

/// Whether a list of validators holds a key.
pub open spec fn holds_key(validators: Seq<ValidatorDescription>, key: HashBytes) -> bool {
    exists|i: int| 0 <= i < validators.len() && (#[trigger] validators[i]).public_key == key
}

/// Adds a validator to a list, in the place of an earlier one with the same key.
pub open spec fn put_by_key(list: Seq<ValidatorDescription>, v: ValidatorDescription) -> Seq<
    ValidatorDescription,
> {
    if holds_key(list, v.public_key) {
        let i = choose|i: int|
            0 <= i < list.len() && (#[trigger] list[i]).public_key == v.public_key;
        list.update(i, v)
    } else {
        list.push(v)
    }
}

/// The validators of a list, each key once.
pub open spec fn by_key(list: Seq<ValidatorDescription>) -> Seq<ValidatorDescription>
    decreases list.len(),
{
    if list.len() == 0 {
        Seq::empty()
    } else {
        put_by_key(by_key(list.drop_last()), list.last())
    }
}

/// No key occurs twice.
pub open spec fn unique_keys(list: Seq<ValidatorDescription>) -> bool {
    forall|i: int, j: int|
        0 <= i < j < list.len() ==> (#[trigger] list[i]).public_key != (
        #[trigger] list[j]).public_key
}

/// Whether a session goes on: its shard still exists, this node is in the set,
/// and neither the number nor the validators have changed.
pub open spec fn goes_on(
    session: CollationSessionInfo,
    shard_exists: bool,
    in_set: bool,
    short_hash: u32,
    seqno: u32,
) -> bool {
    shard_exists && in_set && session.collators.short_hash == short_hash && session.seqno == seqno
}

/// The plan for sessions: those that go on are kept, all others are finished,
/// shards without a session get one if this node is in the set, and a collator
/// is stopped when its session ends and no other follows.
pub open spec fn refresh_plan_is(
    sessions: Map<ShardIdent, CollationSessionInfo>,
    collators: Map<ShardIdent, CollatorState>,
    new_shards: Map<ShardIdent, BlockId>,
    in_set: bool,
    seqno: u32,
    plan: RefreshPlan,
    sessions_after: Map<ShardIdent, CollationSessionInfo>,
    collators_after: Map<ShardIdent, CollatorState>,
) -> bool {
    let hash = plan.subset.short_hash;
    let kept = |s: ShardIdent|
        sessions.dom().contains(s) && goes_on(
            sessions[s],
            new_shards.dom().contains(s),
            in_set,
            hash,
            seqno,
        );
    let stopped = |s: ShardIdent|
        sessions.dom().contains(s) && collators.dom().contains(s) && (!in_set
            || !new_shards.dom().contains(s));
    &&& plan.keep.wf() && plan.start.wf() && plan.finish.wf() && plan.stop.wf()
    &&& plan.session_seqno == seqno
    &&& sessions_after == sessions.restrict(sessions.dom().filter(kept))
    &&& plan.finish@ == sessions.restrict(sessions.dom().filter(|s: ShardIdent| !kept(s)))
    &&& plan.keep@ == new_shards.restrict(new_shards.dom().filter(kept))
    &&& plan.start@ == new_shards.restrict(
        new_shards.dom().filter(|s: ShardIdent| in_set && !kept(s)),
    )
    &&& collators_after == collators.restrict(
        collators.dom().filter(|s: ShardIdent| !stopped(s)),
    )
    &&& plan.stop@ == Map::new(
        |s: ShardIdent| stopped(s),
        |s: ShardIdent| sessions[s].id(),
    )
}

/// The outcome of a refresh: nothing for a master block that was processed before;
/// otherwise the block counts as processed, and the sessions follow the plan for
/// the subset of validators, if there is one.
pub open spec fn refreshed(
    before: CollationManager,
    after: CollationManager,
    mc_data: McData,
    set: ValidatorSet,
    shuffle: bool,
    r: Result<Option<RefreshPlan>, SubsetError>,
) -> bool {
    let seqno = mc_data.catchain_seqno;
    if !crate::manager::sync::should_process(before.last_processed_mc_block_id, mc_data.block_id) {
        r == Ok::<Option<RefreshPlan>, SubsetError>(None) && after == before
    } else {
        &&& after == (CollationManager {
            last_processed_mc_block_id: Some(mc_data.block_id),
            active_collation_sessions: after.active_collation_sessions,
            active_collators: after.active_collators,
            ..before
        })
        &&& match crate::outside::mc_subset(set.list@, set.main, seqno, shuffle) {
            None => {
                &&& r == Err::<Option<RefreshPlan>, SubsetError>(
                    SubsetError { session_seqno: seqno },
                )
                &&& after.active_collation_sessions == before.active_collation_sessions
                &&& after.active_collators == before.active_collators
            },
            Some((validators, short_hash)) => {
                &&& r matches Ok(Some(plan))
                &&& plan.subset.validators@ == by_key(validators)
                &&& plan.subset.short_hash == short_hash
                &&& refresh_plan_is(
                    before.active_collation_sessions@,
                    before.active_collators@,
                    shards_of(mc_data, mc_data.shards@.len() as int),
                    holds_key(by_key(validators), before.public_key),
                    seqno,
                    plan,
                    after.active_collation_sessions@,
                    after.active_collators@,
                )
            },
        }
    }
}

/// Finds the key of this node among the validators.
pub fn find_us_in_collators_set(
    public_key: &HashBytes,
    set: &Vec<ValidatorDescription>,
) -> (r: Option<HashBytes>)
    ensures
        r == (if holds_key(set@, *public_key) {
            Some(*public_key)
        } else {
            None
        }),
{
    let mut i: usize = 0;
    while i < set.len()
        invariant
            i <= set@.len(),
            forall|j: int| 0 <= j < i ==> (#[trigger] set@[j]).public_key != *public_key,
        decreases set@.len() - i,
    {
        if set[i].public_key.same(public_key) {
            return Some(*public_key);
        }
        i = i + 1;
    }
    None
}

/// The validators of a list, each key once; the last one with a key counts.
fn collect_by_key(list: &Vec<ValidatorDescription>) -> (r: Vec<ValidatorDescription>)
    ensures
        r@ == by_key(list@),
        unique_keys(r@),
{
    let mut found: Vec<ValidatorDescription> = Vec::new();
    let mut i: usize = 0;
    while i < list.len()
        invariant
            i <= list@.len(),
            found@ == by_key(list@.take(i as int)),
            unique_keys(found@),
        decreases list@.len() - i,
    {
        let v = list[i];
        let mut at: usize = 0;
        while at < found.len() && !found[at].public_key.same(&v.public_key)
            invariant
                at <= found@.len(),
                forall|j: int| 0 <= j < at ==> (#[trigger] found@[j]).public_key != v.public_key,
            decreases found@.len() - at,
        {
            at = at + 1;
        }
        let ghost before = found@;
        if at < found.len() {
            assert(before[at as int].public_key == v.public_key);
            found.set(at, v);
        } else {
            found.push(v);
        }
        proof {
            assert(list@.take(i + 1).drop_last() =~= list@.take(i as int));
            assert(found@ =~= put_by_key(before, v));
        }
        i = i + 1;
    }
    assert(list@.take(i as int) =~= list@);
    found
}

/// The shards of a master state.
fn collect_new_shards(mc_data: &McData) -> (r: ShardMap<BlockId>)
    ensures
        r.wf(),
        r@ == shards_of(*mc_data, mc_data.shards@.len() as int),
{
    let mut shards: ShardMap<BlockId> = ShardMap::new();
    shards.insert(ShardIdent::masterchain(), mc_data.block_id);
    let mut i: usize = 0;
    while i < mc_data.shards.len()
        invariant
            i <= mc_data.shards@.len(),
            shards.wf(),
            shards@ == shards_of(*mc_data, i as int),
        decreases mc_data.shards@.len() - i,
    {
        let (shard_id, descr): (ShardIdent, crate::types::ShardDescriptionShort) =
            mc_data.shards[i];
        shards.insert(shard_id, descr.get_block_id(shard_id));
        i = i + 1;
    }
    shards
}

impl CollationManager {
    /// Ends the sessions that do not go on, and takes out the collators that
    /// serve none any more.
    #[verifier::spinoff_prover]
    fn end_sessions(
        &mut self,
        new_shards: &ShardMap<BlockId>,
        in_set: bool,
        short_hash: u32,
        seqno: u32,
    ) -> (r: (ShardMap<CollationSessionInfo>, ShardMap<CollationSessionId>))
        requires
            old(self).wf(),
            new_shards.wf(),
        ensures
            final(self).wf(),
            *final(self) == (CollationManager {
                active_collation_sessions: final(self).active_collation_sessions,
                active_collators: final(self).active_collators,
                ..*old(self)
            }),
            r.0.wf(),
            r.1.wf(),
            ({
                let sessions = old(self).active_collation_sessions@;
                let collators = old(self).active_collators@;
                let kept = |s: ShardIdent|
                    sessions.dom().contains(s) && goes_on(
                        sessions[s],
                        new_shards@.dom().contains(s),
                        in_set,
                        short_hash,
                        seqno,
                    );
                let stopped = |s: ShardIdent|
                    sessions.dom().contains(s) && collators.dom().contains(s) && (!in_set
                        || !new_shards@.dom().contains(s));
                &&& final(self).active_collation_sessions@ == sessions.restrict(
                    sessions.dom().filter(kept),
                )
                &&& r.0@ == sessions.restrict(sessions.dom().filter(|s: ShardIdent| !kept(s)))
                &&& final(self).active_collators@ == collators.restrict(
                    collators.dom().filter(|s: ShardIdent| !stopped(s)),
                )
                &&& r.1@ == Map::new(
                    |s: ShardIdent| stopped(s),
                    |s: ShardIdent| sessions[s].id(),
                )
            }),
    {
        let ghost sessions = self.active_collation_sessions@;
        let ghost collators = self.active_collators@;
        let mut finish: ShardMap<CollationSessionInfo> = ShardMap::new();
        let mut stop: ShardMap<CollationSessionId> = ShardMap::new();
        let mut i: usize = 0;
        while i < self.active_collation_sessions.keys.len()
            invariant
                self.wf(),
                new_shards.wf(),
                finish.wf(),
                stop.wf(),
                i <= self.active_collation_sessions.keys@.len(),
                *self == (CollationManager {
                    active_collation_sessions: self.active_collation_sessions,
                    active_collators: self.active_collators,
                    ..*old(self)
                }),
                forall|j: int|
                    0 <= j < i ==> goes_on(
                        #[trigger] self.active_collation_sessions.values@[j],
                        new_shards@.dom().contains(self.active_collation_sessions.keys@[j]),
                        in_set,
                        short_hash,
                        seqno,
                    ),
                forall|s: ShardIdent| #[trigger]
                    self.active_collation_sessions@.dom().contains(s) ==> sessions.dom().contains(s)
                        && self.active_collation_sessions@[s] == sessions[s],
                forall|s: ShardIdent| #[trigger]
                    finish@.dom().contains(s) ==> sessions.dom().contains(s) && finish@[s]
                        == sessions[s],
                forall|s: ShardIdent| #[trigger]
                    sessions.dom().contains(s) ==> (self.active_collation_sessions@.dom().contains(s)
                        <==> !finish@.dom().contains(s)),
                forall|s: ShardIdent| #[trigger]
                    finish@.dom().contains(s) ==> !goes_on(
                        sessions[s],
                        new_shards@.dom().contains(s),
                        in_set,
                        short_hash,
                        seqno,
                    ),
                self.active_collators@.submap_of(collators),
                forall|s: ShardIdent| #[trigger]
                    collators.dom().contains(s) ==> (self.active_collators@.dom().contains(s)
                        <==> !(finish@.dom().contains(s) && (!in_set || !new_shards@.dom().contains(s)))),
                forall|s: ShardIdent| #[trigger]
                    stop@.dom().contains(s) <==> finish@.dom().contains(s)
                        && collators.dom().contains(s) && (!in_set || !new_shards@.dom().contains(s)),
                forall|s: ShardIdent| #[trigger]
                    stop@.dom().contains(s) ==> stop@[s] == sessions[s].id(),
            decreases self.active_collation_sessions.keys@.len() - i,
        {
            let shard = self.active_collation_sessions.keys[i];
            let exists_shard = new_shards.contains_key(&shard);
            let on = exists_shard && in_set
                && self.active_collation_sessions.values[i].collators.short_hash == short_hash
                && self.active_collation_sessions.values[i].seqno == seqno;
            proof {
                self.active_collation_sessions.lemma_at(i as int);
                assert(self.active_collation_sessions@.dom().contains(shard));
            }
            if on {
                i = i + 1;
            } else {
                let session = self.active_collation_sessions.remove_at(i);
                let id = session.id();
                finish.insert(shard, session);
                if !in_set || !exists_shard {
                    let ghost held = self.active_collators@;
                    let collator = self.active_collators.remove(&shard);
                    proof {
                        assert(self.active_collators@ == held.remove(shard));
                        assert forall|s: ShardIdent| #[trigger]
                            self.active_collators@.dom().contains(s) implies collators.dom().contains(
                            s,
                        ) && self.active_collators@[s] == collators[s] by {
                            assert(held.dom().contains(s));
                        }
                        assert(self.active_collators@.submap_of(collators));
                    }
                    if collator.is_some() {
                        stop.insert(shard, id);
                    }
                }
            }
        }
        proof {
            let kept = |s: ShardIdent|
                sessions.dom().contains(s) && goes_on(
                    sessions[s],
                    new_shards@.dom().contains(s),
                    in_set,
                    short_hash,
                    seqno,
                );
            let stopped = |s: ShardIdent|
                sessions.dom().contains(s) && collators.dom().contains(s) && (!in_set
                    || !new_shards@.dom().contains(s));
            let left = self.active_collation_sessions@;
            assert forall|s: ShardIdent| #[trigger] left.dom().contains(s) implies kept(s) by {
                let j = self.active_collation_sessions.keys@.index_of(s);
                assert(self.active_collation_sessions.keys@[j] == s);
                self.active_collation_sessions.lemma_at(j);
            }
            assert(left =~= sessions.restrict(sessions.dom().filter(kept)));
            assert(finish@ =~= sessions.restrict(
                sessions.dom().filter(|s: ShardIdent| !kept(s)),
            ));
            assert forall|s: ShardIdent| stopped(s) implies finish@.dom().contains(s) by {}
            assert(self.active_collators@ =~= collators.restrict(
                collators.dom().filter(|s: ShardIdent| !stopped(s)),
            ));
            assert(stop@ =~= Map::new(
                |s: ShardIdent| stopped(s),
                |s: ShardIdent| sessions[s].id(),
            ));
        }
        (finish, stop)
    }

    /// Adapts the sessions to a new master state: `None` when the master block
    /// was processed before. Sessions that end and collators that stop are taken
    /// out; those to start are left to [`CollationManager::start_session`].
    pub fn refresh_collation_sessions(
        &mut self,
        mc_data: &McData,
        full_validators_set: &ValidatorSet,
        shuffle_mc_validators: bool,
    ) -> (r: Result<Option<RefreshPlan>, SubsetError>)
        requires
            old(self).wf(),
            full_validators_set.main > 0,
        ensures
            final(self).wf(),
            refreshed(
                *old(self),
                *final(self),
                *mc_data,
                *full_validators_set,
                shuffle_mc_validators,
                r,
            ),
    {
        if !self.check_should_process_and_update_last_processed_mc_block(&mc_data.block_id) {
            return Ok(None);
        }
        let subset = match compute_mc_subset(
            &full_validators_set.list,
            full_validators_set.main,
            mc_data.catchain_seqno,
            shuffle_mc_validators,
        ) {
            Some((validators, short_hash)) => ValidatorSubsetInfo {
                validators: collect_by_key(&validators),
                short_hash,
            },
            None => {
                return Err(SubsetError { session_seqno: mc_data.catchain_seqno });
            },
        };
        Ok(Some(self.plan_sessions(mc_data, subset)))
    }

    /// Processes a master state: adapts the sessions to it, unless collation is
    /// to be skipped.
    pub fn process_mc_state_update(
        &mut self,
        mc_data: &McData,
        full_validators_set: &ValidatorSet,
        shuffle_mc_validators: bool,
        mode: ProcessMcStateUpdateMode,
    ) -> (r: Result<Option<RefreshPlan>, SubsetError>)
        requires
            old(self).wf(),
            full_validators_set.main > 0,
        ensures
            final(self).wf(),
            mode is SkipCollation ==> r == Ok::<Option<RefreshPlan>, SubsetError>(None)
                && *final(self) == *old(self),
            mode is StartCollation ==> refreshed(
                *old(self),
                *final(self),
                *mc_data,
                *full_validators_set,
                shuffle_mc_validators,
                r,
            ),
    {
        match mode {
            ProcessMcStateUpdateMode::StartCollation { .. } => self.refresh_collation_sessions(
                mc_data,
                full_validators_set,
                shuffle_mc_validators,
            ),
            ProcessMcStateUpdateMode::SkipCollation => Ok(None),
        }
    }

    /// Adapts the sessions to the shards of a master state and to a subset of
    /// validators.
    pub fn plan_sessions(&mut self, mc_data: &McData, subset: ValidatorSubsetInfo) -> (plan:
        RefreshPlan)
        requires
            old(self).wf(),
        ensures
            final(self).wf(),
            *final(self) == (CollationManager {
                active_collation_sessions: final(self).active_collation_sessions,
                active_collators: final(self).active_collators,
                ..*old(self)
            }),
            plan.subset == subset,
            refresh_plan_is(
                old(self).active_collation_sessions@,
                old(self).active_collators@,
                shards_of(*mc_data, mc_data.shards@.len() as int),
                holds_key(subset.validators@, old(self).public_key),
                mc_data.catchain_seqno,
                plan,
                final(self).active_collation_sessions@,
                final(self).active_collators@,
            ),
    {
        let seqno: u32 = mc_data.catchain_seqno;
        let new_shards = collect_new_shards(mc_data);
        let in_set = find_us_in_collators_set(&self.public_key, &subset.validators).is_some();
        let ghost sessions = self.active_collation_sessions@;
        let (finish, stop) = self.end_sessions(&new_shards, in_set, subset.short_hash, seqno);
        let ghost kept = |s: ShardIdent|
            sessions.dom().contains(s) && goes_on(
                sessions[s],
                new_shards@.dom().contains(s),
                in_set,
                subset.short_hash,
                seqno,
            );
        let mut keep: ShardMap<BlockId> = ShardMap::new();
        let mut start: ShardMap<BlockId> = ShardMap::new();
        let mut i: usize = 0;
        while i < new_shards.keys.len()
            invariant
                self.wf(),
                new_shards.wf(),
                keep.wf(),
                start.wf(),
                i <= new_shards.keys@.len(),
                kept == (|s: ShardIdent|
                    sessions.dom().contains(s) && goes_on(
                        sessions[s],
                        new_shards@.dom().contains(s),
                        in_set,
                        subset.short_hash,
                        seqno,
                    )),
                self.active_collation_sessions@ == sessions.restrict(sessions.dom().filter(kept)),
                keep@.submap_of(new_shards@),
                start@.submap_of(new_shards@),
                forall|s: ShardIdent| #[trigger] keep@.dom().contains(s) ==> kept(s),
                forall|s: ShardIdent| #[trigger] start@.dom().contains(s) ==> in_set && !kept(s),
                forall|j: int|
                    0 <= j < i ==> (if kept(#[trigger] new_shards.keys@[j]) {
                        keep@.dom().contains(new_shards.keys@[j])
                    } else {
                        in_set ==> start@.dom().contains(new_shards.keys@[j])
                    }),
            decreases new_shards.keys@.len() - i,
        {
            let shard = new_shards.keys[i];
            let top = new_shards.values[i];
            proof {
                new_shards.lemma_at(i as int);
                assert(kept(shard) == self.active_collation_sessions@.dom().contains(shard));
            }
            if self.active_collation_sessions.contains_key(&shard) {
                keep.insert(shard, top);
            } else if in_set {
                start.insert(shard, top);
            }
            i = i + 1;
        }
        proof {
            assert forall|s: ShardIdent| #[trigger] new_shards@.dom().contains(s) implies (if kept(
                s,
            ) {
                keep@.dom().contains(s)
            } else {
                in_set ==> start@.dom().contains(s)
            }) by {
                let j = new_shards.keys@.index_of(s);
                assert(new_shards.keys@[j] == s);
            }
            assert(keep@ =~= new_shards@.restrict(new_shards@.dom().filter(kept)));
            assert(start@ =~= new_shards@.restrict(
                new_shards@.dom().filter(|s: ShardIdent| in_set && !kept(s)),
            ));
        }
        RefreshPlan { keep, start, finish, stop, session_seqno: seqno, subset }
    }

    /// Starts a session for a shard. `collator_started` says whether a new
    /// collator could be started; it does not matter when the shard has one.
    pub fn start_session(
        &mut self,
        shard_id: ShardIdent,
        prev_block_id: &BlockId,
        seqno: u32,
        subset: ValidatorSubsetInfo,
        collator_started: bool,
    ) -> (r: SessionStart)
        requires
            old(self).wf(),
            prev_block_id.seqno < u32::MAX,
        ensures
            final(self).wf(),
            *final(self) == (CollationManager {
                active_collation_sessions: final(self).active_collation_sessions,
                active_collators: final(self).active_collators,
                ..*old(self)
            }),
            final(self).active_collation_sessions@ == old(self).active_collation_sessions@.insert(
                shard_id,
                CollationSessionInfo {
                    shard: shard_id,
                    seqno,
                    collators: subset,
                    current_collator_pubkey: Some(old(self).public_key),
                },
            ),
            r.resume == old(self).active_collators@.dom().contains(shard_id),
            final(self).active_collators@ == (if !r.resume && collator_started {
                old(self).active_collators@.insert(shard_id, CollatorState::Active)
            } else {
                old(self).active_collators@
            }),
            r.add_validation == (if shard_id.is_masterchain() {
                Some(((seqno, subset.short_hash), (prev_block_id.seqno + 1) as u32))
            } else {
                None
            }),
    {
        let session = CollationSessionInfo::new(shard_id, seqno, subset, Some(self.public_key));
        let add_validation = if shard_id.is_masterchain() {
            Some((session.get_validation_session_id(), prev_block_id.get_next_id_short().seqno))
        } else {
            None
        };
        let resume = self.active_collators.contains_key(&shard_id);
        if !resume && collator_started {
            self.active_collators.insert(shard_id, CollatorState::Active);
        }
        self.active_collation_sessions.insert(shard_id, session);
        SessionStart { resume, add_validation }
    }

    /// Makes the collator of a kept session active again. `false` when the shard
    /// has no collator, which a kept session must have.
    pub fn resume_session(&mut self, shard_id: &ShardIdent) -> (r: bool)
        requires
            old(self).wf(),
        ensures
            final(self).wf(),
            final(self).same_but_collators(old(self)),
            r == old(self).active_collators@.dom().contains(*shard_id),
            final(self).active_collators@ == crate::manager::collators::with_state(
                old(self).active_collators@,
                *shard_id,
                CollatorState::Active,
            ),
    {
        self.set_collator_state(shard_id, CollatorState::Active)
    }

    /// Notes that the collator of a finished session is being stopped.
    pub fn stop_collator(&mut self, session_id: CollationSessionId)
        ensures
            *final(self) == (CollationManager {
                collators_to_stop: final(self).collators_to_stop,
                ..*old(self)
            }),
            final(self).collators_to_stop@ == old(self).collators_to_stop@.filter(
                |x: CollationSessionId| x != session_id,
            ).push(session_id),
    {
        remove_session_id(&mut self.collators_to_stop, session_id);
        self.collators_to_stop.push(session_id);
    }

    /// Forgets a session that is finished.
    pub fn finish_collation_session(&mut self, session_id: CollationSessionId)
        ensures
            *final(self) == (CollationManager {
                collation_sessions_to_finish: final(self).collation_sessions_to_finish,
                ..*old(self)
            }),
            final(self).collation_sessions_to_finish@ == old(
                self,
            ).collation_sessions_to_finish@.filter(|x: CollationSessionId| x != session_id),
    {
        remove_session_id(&mut self.collation_sessions_to_finish, session_id);
    }

    /// Forgets a collator that has stopped.
    pub fn handle_collator_stopped(&mut self, session_id: CollationSessionId)
        ensures
            *final(self) == (CollationManager {
                collators_to_stop: final(self).collators_to_stop,
                ..*old(self)
            }),
            final(self).collators_to_stop@ == old(self).collators_to_stop@.filter(
                |x: CollationSessionId| x != session_id,
            ),
    {
        remove_session_id(&mut self.collators_to_stop, session_id);
    }
}

/// Takes a session id out of a list.
fn remove_session_id(ids: &mut Vec<CollationSessionId>, id: CollationSessionId)
    ensures
        final(ids)@ == old(ids)@.filter(|x: CollationSessionId| x != id),
{
    let ghost other = |x: CollationSessionId| x != id;
    let ghost all = ids@;
    let mut kept: Vec<CollationSessionId> = Vec::new();
    let mut i: usize = 0;
    proof {
        reveal(Seq::filter);
        assert(all.take(0).filter(other) =~= Seq::<CollationSessionId>::empty());
    }
    while i < ids.len()
        invariant
            i <= ids@.len(),
            ids@ == all,
            other == (|x: CollationSessionId| x != id),
            kept@ == all.take(i as int).filter(other),
        decreases ids@.len() - i,
    {
        let x: CollationSessionId = ids[i];
        proof {
            reveal(Seq::filter);
            assert(all.take(i + 1).drop_last() =~= all.take(i as int));
            assert(all.take(i + 1).last() == x);
        }
        if x.0 != id.0 || x.1 != id.1 || x.2 != id.2 {
            kept.push(x);
        }
        i = i + 1;
    }
    assert(all.take(all.len() as int) =~= all);
    *ids = kept;
}

/// After a refresh every session that is left belongs to a shard of the master
/// state, and every shard is left with a session or gets one if this node is in
/// the set. A node outside the set is left without sessions and their collators.
pub proof fn law_refresh_covers_shards(
    sessions: Map<ShardIdent, CollationSessionInfo>,
    collators: Map<ShardIdent, CollatorState>,
    new_shards: Map<ShardIdent, BlockId>,
    in_set: bool,
    seqno: u32,
    plan: RefreshPlan,
    sessions_after: Map<ShardIdent, CollationSessionInfo>,
    collators_after: Map<ShardIdent, CollatorState>,
    shard: ShardIdent,
)
    requires
        refresh_plan_is(
            sessions,
            collators,
            new_shards,
            in_set,
            seqno,
            plan,
            sessions_after,
            collators_after,
        ),
    ensures
        sessions_after.dom().contains(shard) ==> new_shards.dom().contains(shard)
            && plan.keep@.dom().contains(shard),
        in_set && new_shards.dom().contains(shard) ==> (plan.keep@.dom().contains(shard)
            <==> !plan.start@.dom().contains(shard)),
        !in_set ==> !sessions_after.dom().contains(shard) && !plan.start@.dom().contains(shard),
        !in_set && sessions.dom().contains(shard) ==> !collators_after.dom().contains(shard),
        sessions.dom().contains(shard) ==> (sessions_after.dom().contains(shard)
            <==> !plan.finish@.dom().contains(shard)),
{
}

/// A session is kept exactly if its shard still exists, this node is in the set, and
/// neither the number nor the validators have changed; all others are finished. A session
/// is started exactly for the shards without a kept one if this node is in the set. A
/// collator is stopped exactly if its session ends because the shard is gone or this node
/// is not in the set; the others go on.
pub proof fn law_sessions_follow_the_set(
    sessions: Map<ShardIdent, CollationSessionInfo>,
    collators: Map<ShardIdent, CollatorState>,
    new_shards: Map<ShardIdent, BlockId>,
    in_set: bool,
    seqno: u32,
    plan: RefreshPlan,
    sessions_after: Map<ShardIdent, CollationSessionInfo>,
    collators_after: Map<ShardIdent, CollatorState>,
    shard: ShardIdent,
)
    requires
        refresh_plan_is(
            sessions,
            collators,
            new_shards,
            in_set,
            seqno,
            plan,
            sessions_after,
            collators_after,
        ),
    ensures
        ({
            let has_session = sessions.dom().contains(shard);
            let exists_now = new_shards.dom().contains(shard);
            let unchanged = sessions[shard].seqno == seqno && sessions[shard].collators.short_hash
                == plan.subset.short_hash;
            let stops = has_session && collators.dom().contains(shard) && !(in_set && exists_now);
            &&& plan.session_seqno == seqno
            &&& sessions_after.dom().contains(shard) <==> has_session && exists_now && in_set
                && unchanged
            &&& sessions_after.dom().contains(shard) ==> sessions_after[shard] == sessions[shard]
            &&& plan.finish@.dom().contains(shard) <==> has_session && !(exists_now && in_set
                && unchanged)
            &&& plan.finish@.dom().contains(shard) ==> plan.finish@[shard] == sessions[shard]
            &&& plan.keep@.dom().contains(shard) <==> has_session && exists_now && in_set
                && unchanged
            &&& plan.start@.dom().contains(shard) <==> exists_now && in_set && !(has_session
                && unchanged)
            &&& plan.keep@.dom().contains(shard) ==> plan.keep@[shard] == new_shards[shard]
            &&& plan.start@.dom().contains(shard) ==> plan.start@[shard] == new_shards[shard]
            &&& collators_after.dom().contains(shard) <==> collators.dom().contains(shard) && !stops
            &&& collators_after.dom().contains(shard) ==> collators_after[shard]
                == collators[shard]
            &&& plan.stop@.dom().contains(shard) <==> stops
            &&& stops ==> plan.stop@[shard] == (
                sessions[shard].shard,
                sessions[shard].seqno,
                sessions[shard].collators.short_hash,
            )
        }),
{
}

/// The shards of a master state are the masterchain, with the master block as its top, and
/// those that the state lists, each with the top block of its last entry.
pub proof fn law_shards_of_a_master_state(mc: McData, n: int, shard: ShardIdent)
    requires
        0 <= n <= mc.shards@.len(),
    ensures
        shards_of(mc, n).dom().contains(shard) <==> shard == ShardIdent::masterchain() || exists|
            i: int,
        |
            0 <= i < n && (#[trigger] mc.shards@[i]).0 == shard,
        forall|i: int|
            0 <= i < n && (#[trigger] mc.shards@[i]).0 == shard && (forall|j: int|
                i < j < n ==> (#[trigger] mc.shards@[j]).0 != shard) ==> shards_of(mc, n)[shard] == (
            BlockId {
                shard,
                seqno: mc.shards@[i].1.seqno,
                root_hash: mc.shards@[i].1.root_hash,
                file_hash: mc.shards@[i].1.file_hash,
            }),
        shard == ShardIdent::masterchain() && (forall|i: int|
            0 <= i < n ==> (#[trigger] mc.shards@[i]).0 != shard) ==> shards_of(mc, n)[shard]
            == mc.block_id,
    decreases n,
{
    if n > 0 {
        law_shards_of_a_master_state(mc, n - 1, shard);
        let last = mc.shards@[n - 1];
        assert(shards_of(mc, n).dom().contains(shard) == (shards_of(mc, n - 1).dom().contains(shard)
            || last.0 == shard));
    }
}

/// Of the validators with the same key the last one counts, and no key is added or lost.
pub proof fn law_last_validator_of_a_key_counts(list: Seq<ValidatorDescription>)
    ensures
        unique_keys(by_key(list)),
        forall|i: int|
            0 <= i < list.len() && (forall|j: int|
                i < j < list.len() ==> (#[trigger] list[j]).public_key != list[i].public_key)
                ==> by_key(list).contains(#[trigger] list[i]),
        forall|k: int|
            0 <= k < by_key(list).len() ==> exists|i: int|
                0 <= i < list.len() && (#[trigger] list[i]) == (#[trigger] by_key(list)[k])
                    && forall|j: int|
                    i < j < list.len() ==> (#[trigger] list[j]).public_key != list[i].public_key,
    decreases list.len(),
{
    if list.len() > 0 {
        let n = list.len() - 1;
        let rest = list.drop_last();
        law_last_validator_of_a_key_counts(rest);
        let before = by_key(rest);
        let last = list.last();
        let after = put_by_key(before, last);
        assert(after.contains(last)) by {
            if holds_key(before, last.public_key) {
                let i = choose|i: int|
                    0 <= i < before.len() && (#[trigger] before[i]).public_key
                        == last.public_key;
                assert(after[i] == last);
            } else {
                assert(after[before.len() as int] == last);
            }
        }
        assert(unique_keys(after));
        assert forall|i: int|
            0 <= i < list.len() && (forall|j: int|
                i < j < list.len() ==> (#[trigger] list[j]).public_key
                    != list[i].public_key) implies after.contains(#[trigger] list[i]) by {
            if i < n {
                assert(rest[i] == list[i]);
                assert(list[n].public_key != list[i].public_key);
                assert forall|j: int| i < j < rest.len() implies (#[trigger] rest[j]).public_key
                    != rest[i].public_key by {
                    assert(rest[j] == list[j]);
                }
                let k = before.index_of(list[i]);
                assert(after[k] == list[i]);
            }
        }
        assert forall|k: int| 0 <= k < after.len() implies exists|i: int|
            0 <= i < list.len() && (#[trigger] list[i]) == (#[trigger] after[k]) && forall|j: int|
                i < j < list.len() ==> (#[trigger] list[j]).public_key != list[i].public_key by {
            if after[k].public_key == last.public_key {
                let m = after.index_of(last);
                assert(after[m] == last);
                assert(k == m);
                assert(list[n] == after[k]);
            } else {
                assert(after[k] == before[k]);
                let i = choose|i: int|
                    0 <= i < rest.len() && (#[trigger] rest[i]) == before[k] && forall|j: int|
                        i < j < rest.len() ==> (#[trigger] rest[j]).public_key
                            != rest[i].public_key;
                assert(list[i] == rest[i]);
                assert forall|j: int| i < j < list.len() implies (#[trigger] list[j]).public_key
                    != list[i].public_key by {
                    if j < n {
                        assert(rest[j] == list[j]);
                    }
                }
            }
        }
    }
}

} // verus!

//! What the collation manager decides: which chain collates next, when to
//! synchronise with blocks received from the network, and which collation
//! sessions to keep, start and finish.
use crate::ids::{BlockId, HashBytes, ShardIdent};
use crate::manager::sync_state::CollationSyncState;
use crate::shard_map::ShardMap;
use crate::types::{CollationSessionId, CollationSessionInfo, CollatorConfig, McData};
use vstd::prelude::*;

pub mod blocks;
pub mod collators;
pub mod commit;
pub mod restore;
pub mod restore_run;
pub mod sessions;
pub mod steps;
pub mod sync;
pub mod sync_state;

verus! {

/// What the collator of a shard does at the moment.
#[derive(Clone, Copy, Debug, PartialEq, Eq, Structural)]
pub enum CollatorState {
    Active,
    Waiting,
    /// To be cancelled once the running collation ends.
    CancelPending,
    Cancelled,
}

/// The state by which the collation manager decides.
pub struct CollationManager {
    pub config: CollatorConfig,
    /// The key of this node.
    pub public_key: HashBytes,
    pub active_collation_sessions: ShardMap<CollationSessionInfo>,
    pub collation_sessions_to_finish: Vec<CollationSessionId>,
    pub active_collators: ShardMap<CollatorState>,
    pub collators_to_stop: Vec<CollationSessionId>,
    /// The last master block that was processed, after collation or
    /// synchronisation.
    pub last_processed_mc_block_id: Option<BlockId>,
    pub collation_sync_state: CollationSyncState,
    /// A master state whose processing waits until its block is validated.
    pub delayed_mc_state_update: Option<McData>,
}

impl CollationManager {
    /// No shard is listed twice, and each session stands under its own shard.
    pub open spec fn wf(&self) -> bool {
        &&& self.active_collation_sessions.wf()
        &&& forall|s: ShardIdent| #[trigger]
            self.active_collation_sessions@.dom().contains(s)
                ==> self.active_collation_sessions@[s].shard == s
        &&& self.active_collators.wf()
        &&& self.collation_sync_state.wf()
    }

    /// Nothing differs but the state of collators.
    pub open spec fn same_but_collators(&self, other: &Self) -> bool {
        &&& self.same_but_collators_and_pace(other)
        &&& self.collation_sync_state == other.collation_sync_state
    }

    /// Nothing differs but the state of collators and the collation pace.
    pub open spec fn same_but_collators_and_pace(&self, other: &Self) -> bool {
        &&& self.config == other.config
        &&& self.public_key == other.public_key
        &&& self.active_collation_sessions == other.active_collation_sessions
        &&& self.collation_sessions_to_finish == other.collation_sessions_to_finish
        &&& self.collators_to_stop == other.collators_to_stop
        &&& self.last_processed_mc_block_id == other.last_processed_mc_block_id
        &&& self.delayed_mc_state_update == other.delayed_mc_state_update
        &&& self.collation_sync_state.same_sync(&other.collation_sync_state)
    }

    /// A manager that has collated nothing.
    pub fn new(config: CollatorConfig, public_key: HashBytes) -> (r: Self)
        ensures
            r.wf(),
            r.config == config,
            r.public_key == public_key,
            r.active_collation_sessions@ == Map::<ShardIdent, CollationSessionInfo>::empty(),
            r.active_collators@ == Map::<ShardIdent, CollatorState>::empty(),
            r.collation_sessions_to_finish@.len() == 0,
            r.collators_to_stop@.len() == 0,
            r.last_processed_mc_block_id is None,
            r.delayed_mc_state_update is None,
            r.collation_sync_state.active_sync_to_applied is None,
            r.collation_sync_state.last_received_mc_block_seqno is None,
            r.collation_sync_state.last_synced_to_mc_block_id is None,
            r.collation_sync_state@.latest == 0,
            !r.collation_sync_state@.forced_for_all,
            r.collation_sync_state@.shards.dom() == Set::<ShardIdent>::empty(),
    {
        CollationManager {
            config,
            public_key,
            active_collation_sessions: ShardMap::new(),
            collation_sessions_to_finish: Vec::new(),
            active_collators: ShardMap::new(),
            collators_to_stop: Vec::new(),
            last_processed_mc_block_id: None,
            collation_sync_state: CollationSyncState::new(),
            delayed_mc_state_update: None,
        }
    }
}

/// Where nothing but collators differs, sessions, the sync and the pace are the same.
pub proof fn law_collators_change_alone(a: CollationManager, b: CollationManager)
    requires
        a.same_but_collators_and_pace(&b),
    ensures
        a.config == b.config,
        a.public_key == b.public_key,
        a.active_collation_sessions == b.active_collation_sessions,
        a.collation_sessions_to_finish == b.collation_sessions_to_finish,
        a.collators_to_stop == b.collators_to_stop,
        a.last_processed_mc_block_id == b.last_processed_mc_block_id,
        a.delayed_mc_state_update == b.delayed_mc_state_update,
        a.collation_sync_state.active_sync_to_applied
            == b.collation_sync_state.active_sync_to_applied,
        a.collation_sync_state.last_received_mc_block_seqno
            == b.collation_sync_state.last_received_mc_block_seqno,
        a.collation_sync_state.last_synced_to_mc_block_id
            == b.collation_sync_state.last_synced_to_mc_block_id,
        a.same_but_collators(&b) ==> a.collation_sync_state@ == b.collation_sync_state@,
{
}

} // verus!

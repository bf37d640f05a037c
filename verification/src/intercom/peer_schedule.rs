//! Which peers take part in which rounds.
use crate::engine::config::MempoolMergedConfig;
use crate::models::parts::{KeyPair, PeerId, Round};
use vstd::prelude::*;

verus! {

/// Whether a peer can be reached.
#[derive(Clone, Copy, Debug, PartialEq, Eq, Structural)]
pub enum PeerState {
    /// Not yet ready to connect or already disconnected. The local peer always is.
    Unknown,
    /// Ready to connect.
    Resolved,
}

/// The validators that a schedule starts with.
#[derive(Debug)]
pub struct InitPeers {
    pub prev_start_round: u32,
    pub prev_v_set: Vec<PeerId>,
    pub prev_v_subset: Vec<PeerId>,
    pub curr_start_round: u32,
    pub curr_v_set: Vec<PeerId>,
    pub curr_v_subset: Vec<PeerId>,
    pub next_v_set: Vec<PeerId>,
}

/// Copies a list of peers.
fn copy_peers(peers: &Vec<PeerId>) -> (r: Vec<PeerId>)
    ensures
        r@ == peers@,
{
    let mut copy: Vec<PeerId> = Vec::new();
    let mut i: usize = 0;
    while i < peers.len()
        invariant
            i <= peers@.len(),
            copy@ == peers@.take(i as int),
        decreases peers@.len() - i,
    {
        copy.push(peers[i]);
        i = i + 1;
        assert(peers@.take(i as int) =~= peers@.take(i - 1).push(peers@[i - 1]));
    }
    assert(peers@.take(i as int) =~= peers@);
    copy
}

impl InitPeers {
    /// Validators from the start, with nobody before or after them.
    pub fn new(curr_v_subset: Vec<PeerId>) -> (r: Self)
        ensures
            r.prev_start_round == 0,
            r.prev_v_set@.len() == 0,
            r.prev_v_subset@.len() == 0,
            r.curr_start_round == 0,
            r.curr_v_set@ == curr_v_subset@,
            r.curr_v_subset == curr_v_subset,
            r.next_v_set@.len() == 0,
    {
        InitPeers {
            prev_start_round: 0,
            prev_v_set: Vec::new(),
            prev_v_subset: Vec::new(),
            curr_start_round: 0,
            curr_v_set: copy_peers(&curr_v_subset),
            curr_v_subset,
            next_v_set: Vec::new(),
        }
    }
}

/// Peers by epoch: those of the previous one, of the current one, and of the
/// next one as soon as it is scheduled.
#[derive(Debug)]
pub struct PeerSchedule {
    pub local_keys: KeyPair,
    pub prev_start: Round,
    pub curr_start: Round,
    pub next_start: Option<Round>,
    pub prev_peers: Vec<PeerId>,
    pub curr_peers: Vec<PeerId>,
    pub next_peers: Vec<PeerId>,
    /// The whole validator set that is to be known next.
    pub next_set: Vec<PeerId>,
}

/// The mathematical content of a [`PeerSchedule`] without its keys.
#[verifier::ext_equal]
pub struct ScheduleModel {
    pub prev_start: u32,
    pub curr_start: u32,
    pub next_start: Option<u32>,
    pub prev_peers: Seq<PeerId>,
    pub curr_peers: Seq<PeerId>,
    pub next_peers: Seq<PeerId>,
    pub next_set: Seq<PeerId>,
}

impl View for PeerSchedule {
    type V = ScheduleModel;

    open spec fn view(&self) -> ScheduleModel {
        ScheduleModel {
            prev_start: self.prev_start.0,
            curr_start: self.curr_start.0,
            next_start: (match self.next_start {
                Some(round) => Some(round.0),
                None => None,
            }),
            prev_peers: self.prev_peers@,
            curr_peers: self.curr_peers@,
            next_peers: self.next_peers@,
            next_set: self.next_set@,
        }
    }
}

impl ScheduleModel {
    /// Whether the epochs follow each other.
    pub open spec fn wf(&self) -> bool {
        &&& self.prev_start <= self.curr_start
        &&& self.next_start matches Some(next) ==> self.curr_start < next
    }

    /// The schedule with the next epoch set, unless it is not later than the
    /// current one or has nobody in it.
    pub open spec fn with_next(
        &self,
        set: Seq<PeerId>,
        next_round: u32,
        subset: Seq<PeerId>,
    ) -> ScheduleModel {
        if next_round <= self.curr_start || subset.len() == 0 {
            *self
        } else {
            ScheduleModel {
                next_start: Some(next_round),
                next_peers: subset,
                next_set: set,
                ..*self
            }
        }
    }

    /// The schedule at a round: the next epoch becomes the current one if it has
    /// begun, and the oldest is forgotten.
    pub open spec fn advanced(&self, current: u32) -> ScheduleModel {
        match self.next_start {
            Some(next) if next <= current => ScheduleModel {
                prev_start: self.curr_start,
                curr_start: next,
                next_start: None,
                prev_peers: self.curr_peers,
                curr_peers: self.next_peers,
                next_peers: Seq::empty(),
                next_set: self.next_set,
            },
            _ => *self,
        }
    }

    /// The peers of a round.
    pub open spec fn peers_for(&self, round: u32) -> Seq<PeerId> {
        if self.next_start matches Some(next) && next <= round {
            self.next_peers
        } else if self.curr_start <= round {
            self.curr_peers
        } else if self.prev_start <= round {
            self.prev_peers
        } else {
            Seq::empty()
        }
    }

    /// The schedule with a set that is to be known next, if there is one.
    pub open spec fn with_next_set(&self, set: Seq<PeerId>) -> ScheduleModel {
        ScheduleModel { next_set: set, ..*self }
    }
}

/// Going on to the next epoch does not change who takes part in a round, from the
/// beginning of the current epoch on.
pub proof fn law_advance_keeps_peers(m: ScheduleModel, current: u32, round: u32)
    requires
        m.wf(),
        round >= m.curr_start,
    ensures
        m.advanced(current).peers_for(round) == m.peers_for(round),
        m.advanced(current).wf(),
{
}

/// What is scheduled for a round that has come is applied once and for all.
pub proof fn law_advance_is_idempotent(m: ScheduleModel, current: u32)
    ensures
        m.advanced(current).advanced(current) == m.advanced(current),
        m.advanced(current).next_start matches Some(next) ==> next > current,
{
}

/// The schedule of the current epoch and those before it cannot be changed.
pub proof fn law_past_is_fixed(
    m: ScheduleModel,
    set: Seq<PeerId>,
    next_round: u32,
    subset: Seq<PeerId>,
    round: u32,
)
    requires
        m.wf(),
        round <= m.curr_start,
    ensures
        m.with_next(set, next_round, subset).peers_for(round) == m.peers_for(round),
        m.with_next(set, next_round, subset).wf(),
{
}

/// The greater of two rounds.
pub open spec fn later_round(a: u32, b: u32) -> u32 {
    if a >= b {
        a
    } else {
        b
    }
}

/// The schedule of a mempool that starts: the genesis has an epoch of its own,
/// from the round before it on, in which only its author takes part; then come
/// the previous validators, if there is room for them, the current ones, and the
/// next set. A genesis in the first round is too early to have an epoch.
pub open spec fn initialized(
    m: ScheduleModel,
    genesis_round: u32,
    genesis_author: PeerId,
    init: InitPeers,
) -> ScheduleModel {
    let before = (genesis_round - 1) as u32;
    let after = (genesis_round + 1) as u32;
    let m1 = m.with_next(Seq::empty(), before, seq![genesis_author]).advanced(before);
    let prev_start = later_round(init.prev_start_round, after);
    let m2 = if init.curr_start_round > after {
        m1.with_next(init.prev_v_set@, prev_start, init.prev_v_subset@).advanced(prev_start)
    } else {
        m1
    };
    let curr_start = later_round(init.curr_start_round, after);
    let m3 = m2.with_next(init.curr_v_set@, curr_start, init.curr_v_subset@);
    if init.next_v_set@.len() > 0 {
        m3.advanced(curr_start).with_next_set(init.next_v_set@)
    } else {
        m3
    }
}

/// The schedule after new validators are known.
pub open spec fn with_peers(m: ScheduleModel, peers: InitPeers) -> ScheduleModel {
    let m1 = m.with_next(
        peers.prev_v_set@,
        peers.prev_start_round,
        peers.prev_v_subset@,
    ).advanced(peers.prev_start_round);
    let m2 = m1.with_next(peers.curr_v_set@, peers.curr_start_round, peers.curr_v_subset@);
    if peers.next_v_set@.len() > 0 {
        m2.advanced(peers.curr_start_round).with_next_set(peers.next_v_set@)
    } else {
        m2
    }
}

impl PeerSchedule {
    /// A schedule in which nobody takes part.
    pub fn new(local_keys: KeyPair) -> (r: Self)
        ensures
            r.local_keys == local_keys,
            r@.wf(),
            r@ == (ScheduleModel {
                prev_start: 0,
                curr_start: 0,
                next_start: None,
                prev_peers: Seq::empty(),
                curr_peers: Seq::empty(),
                next_peers: Seq::empty(),
                next_set: Seq::empty(),
            }),
    {
        PeerSchedule {
            local_keys,
            prev_start: Round::bottom(),
            curr_start: Round::bottom(),
            next_start: None,
            prev_peers: Vec::new(),
            curr_peers: Vec::new(),
            next_peers: Vec::new(),
            next_set: Vec::new(),
        }
    }

    /// Schedules the first validators.
    pub fn init(&mut self, merged_conf: &MempoolMergedConfig, init: &InitPeers)
        requires
            old(self)@.wf(),
            0 < merged_conf.conf.genesis_round.0 < u32::MAX,
        ensures
            final(self)@.wf(),
            final(self).local_keys == old(self).local_keys,
            exists|author: PeerId|
                #![trigger initialized(old(self)@, merged_conf.conf.genesis_round.0, author, *init)]
                author@ == crate::outside::public_key_of(merged_conf.overlay_id@) && final(self)@
                    == initialized(old(self)@, merged_conf.conf.genesis_round.0, author, *init),
    {
        let genesis_round: Round = merged_conf.conf.genesis_round;
        let author: PeerId = merged_conf.genesis_author();
        let mut genesis_subset: Vec<PeerId> = Vec::new();
        genesis_subset.push(author);
        assert(genesis_subset@ =~= seq![author]);
        self.set_next_subset(&Vec::new(), genesis_round.prev(), &genesis_subset);
        self.apply_scheduled(genesis_round.prev());

        let after_genesis: Round = genesis_round.next();

        if init.curr_start_round > after_genesis.0 {
            let prev_start = max_round(Round(init.prev_start_round), after_genesis);
            self.set_next_subset(&init.prev_v_set, prev_start, &init.prev_v_subset);
            self.apply_scheduled(prev_start);
        }
        let curr_start = max_round(Round(init.curr_start_round), after_genesis);
        self.set_next_subset(&init.curr_v_set, curr_start, &init.curr_v_subset);

        if init.next_v_set.len() > 0 {
            self.apply_scheduled(curr_start);
            self.next_set = copy_peers(&init.next_v_set);
        }
        assert(self@ =~= initialized(
            old(self)@,
            merged_conf.conf.genesis_round.0,
            author,
            *init,
        ));
    }

    /// Schedules other validators.
    pub fn set_peers(&mut self, peers: &InitPeers)
        requires
            old(self)@.wf(),
        ensures
            final(self)@.wf(),
            final(self).local_keys == old(self).local_keys,
            final(self)@ == with_peers(old(self)@, *peers),
    {
        self.set_next_subset(
            &peers.prev_v_set,
            Round(peers.prev_start_round),
            &peers.prev_v_subset,
        );
        self.apply_scheduled(Round(peers.prev_start_round));
        self.set_next_subset(
            &peers.curr_v_set,
            Round(peers.curr_start_round),
            &peers.curr_v_subset,
        );
        if peers.next_v_set.len() > 0 {
            self.apply_scheduled(Round(peers.curr_start_round));
            self.next_set = copy_peers(&peers.next_v_set);
        }
        assert(self@ =~= with_peers(old(self)@, *peers));
    }

    /// Schedules the next epoch.
    pub fn set_next_subset(
        &mut self,
        validator_set: &Vec<PeerId>,
        next_round: Round,
        working_subset: &Vec<PeerId>,
    )
        requires
            old(self)@.wf(),
        ensures
            final(self)@.wf(),
            final(self).local_keys == old(self).local_keys,
            final(self)@ == old(self)@.with_next(
                validator_set@,
                next_round.0,
                working_subset@,
            ),
    {
        if next_round.0 <= self.curr_start.0 || working_subset.len() == 0 {
            return;
        }
        self.next_set = copy_peers(validator_set);
        self.next_peers = copy_peers(working_subset);
        self.next_start = Some(next_round);
        assert(self@ =~= old(self)@.with_next(validator_set@, next_round.0, working_subset@));
    }

    /// Goes on to the next epoch if it has begun.
    pub fn apply_scheduled(&mut self, current: Round)
        requires
            old(self)@.wf(),
        ensures
            final(self)@.wf(),
            final(self).local_keys == old(self).local_keys,
            final(self)@ == old(self)@.advanced(current.0),
    {
        let next = match self.next_start {
            None => {
                return;
            },
            Some(scheduled) => {
                if scheduled.0 > current.0 {
                    return;
                }
                scheduled
            },
        };
        self.prev_start = self.curr_start;
        self.curr_start = next;
        self.next_start = None;
        self.prev_peers = copy_peers(&self.curr_peers);
        self.curr_peers = copy_peers(&self.next_peers);
        self.next_peers = Vec::new();
        assert(self@ =~= old(self)@.advanced(current.0));
    }

    /// The peers that take part in a round.
    pub fn peers_for(&self, round: Round) -> (r: Vec<PeerId>)
        ensures
            r@ == self@.peers_for(round.0),
    {
        if let Some(next) = self.next_start {
            if next.0 <= round.0 {
                return copy_peers(&self.next_peers);
            }
        }
        if self.curr_start.0 <= round.0 {
            copy_peers(&self.curr_peers)
        } else if self.prev_start.0 <= round.0 {
            copy_peers(&self.prev_peers)
        } else {
            Vec::new()
        }
    }

    /// The keys of this node, if it takes part in a round.
    pub fn local_keys(&self, round: Round) -> (r: Option<KeyPair>)
        ensures
            r == (if self@.peers_for(round.0).contains(self.local_keys.public) {
                Some(self.local_keys)
            } else {
                None
            }),
    {
        let peers = self.peers_for(round);
        let mut i: usize = 0;
        while i < peers.len()
            invariant
                i <= peers@.len(),
                peers@ == self@.peers_for(round.0),
                forall|j: int| 0 <= j < i ==> #[trigger] peers@[j] != self.local_keys.public,
            decreases peers@.len() - i,
        {
            if peers[i].same(&self.local_keys.public) {
                return Some(self.local_keys);
            }
            i = i + 1;
        }
        None
    }
}

/// The later of two rounds.
fn max_round(a: Round, b: Round) -> (r: Round)
    ensures
        r.0 == later_round(a.0, b.0),
{
    if a.0 >= b.0 {
        a
    } else {
        b
    }
}

/// What is heard about the peers of the overlay.
#[derive(Clone, Copy, Debug)]
pub enum EntriesEvent {
    Added(PeerId),
    Removed(PeerId),
    /// Events were lost.
    Lagged,
    /// There will be no more events.
    Closed,
}

/// What the updater does about an event.
#[derive(Clone, Copy, Debug)]
pub enum UpdateAction {
    /// The peer is not known any more; if that is news, the peers that are left
    /// have to be resolved again.
    Forget(PeerId),
    /// Nothing.
    Ignore,
    /// It stops.
    Stop,
}

/// Decides about an event of the overlay. The removal of this node itself does
/// not matter.
pub fn on_entries_event(local_id: &PeerId, event: EntriesEvent) -> (r: UpdateAction)
    ensures
        r == (match event {
            EntriesEvent::Removed(peer) if peer != *local_id => UpdateAction::Forget(peer),
            EntriesEvent::Closed => UpdateAction::Stop,
            _ => UpdateAction::Ignore,
        }),
{
    match event {
        EntriesEvent::Removed(peer) => if peer.same(local_id) {
            UpdateAction::Ignore
        } else {
            UpdateAction::Forget(peer)
        },
        EntriesEvent::Added(_) => UpdateAction::Ignore,
        EntriesEvent::Lagged => UpdateAction::Ignore,
        EntriesEvent::Closed => UpdateAction::Stop,
    }
}

/// Whether a peer of the overlay is waited for: another one that is not yet
/// resolved.
pub open spec fn is_awaited(local_id: PeerId, entry: (PeerId, PeerState)) -> bool {
    entry.0 != local_id && entry.1 != PeerState::Resolved
}

/// The peers that are waited for.
pub fn resolved_waiters(local_id: &PeerId, entries: &Vec<(PeerId, PeerState)>) -> (r: Vec<PeerId>)
    ensures
        r@ == entries@.filter(|e: (PeerId, PeerState)| is_awaited(*local_id, e)).map_values(
            |e: (PeerId, PeerState)| e.0,
        ),
{
    let ghost awaited = |e: (PeerId, PeerState)| is_awaited(*local_id, e);
    let ghost name = |e: (PeerId, PeerState)| e.0;
    let mut waiters: Vec<PeerId> = Vec::new();
    let mut i: usize = 0;
    proof {
        reveal(Seq::filter);
        assert(entries@.take(0).filter(awaited).map_values(name) =~= Seq::<PeerId>::empty());
    }
    while i < entries.len()
        invariant
            i <= entries@.len(),
            awaited == (|e: (PeerId, PeerState)| is_awaited(*local_id, e)),
            name == (|e: (PeerId, PeerState)| e.0),
            waiters@ == entries@.take(i as int).filter(awaited).map_values(name),
        decreases entries@.len() - i,
    {
        let (peer, state): (PeerId, PeerState) = entries[i];
        proof {
            reveal(Seq::filter);
            assert(entries@.take(i + 1).drop_last() =~= entries@.take(i as int));
        }
        if !peer.same(local_id) && state != PeerState::Resolved {
            waiters.push(peer);
        }
        assert(waiters@ =~= entries@.take(i + 1).filter(awaited).map_values(name));
        i = i + 1;
    }
    assert(entries@.take(i as int) =~= entries@);
    waiters
}

/// Who is scheduled for a later round takes part from that round on, whoever was
/// scheduled before. Until then those of the current epoch do. A schedule for the
/// current epoch or an earlier one changes nothing, nor does one of nobody.
pub proof fn law_scheduled_peers_take_over(
    m: ScheduleModel,
    set: Seq<PeerId>,
    next_round: u32,
    subset: Seq<PeerId>,
    round: u32,
)
    ensures
        next_round > m.curr_start && subset.len() > 0 && round >= next_round ==> m.with_next(
            set,
            next_round,
            subset,
        ).peers_for(round) == subset,
        next_round > m.curr_start && subset.len() > 0 && m.curr_start <= round < next_round
            ==> m.with_next(set, next_round, subset).peers_for(round) == m.curr_peers,
        next_round > m.curr_start && subset.len() > 0 ==> m.with_next(
            set,
            next_round,
            subset,
        ).next_set == set,
        next_round <= m.curr_start || subset.len() == 0 ==> m.with_next(set, next_round, subset)
            == m,
{
}

/// In a round the peers take part whose epoch has begun last.
pub proof fn law_latest_epoch_takes_part(m: ScheduleModel, round: u32)
    requires
        m.wf(),
    ensures
        m.next_start is Some && m.next_start->0 <= round ==> m.peers_for(round) == m.next_peers,
        (m.next_start is None || round < m.next_start->0) && m.curr_start <= round ==> m.peers_for(
            round,
        ) == m.curr_peers,
        m.prev_start <= round < m.curr_start ==> m.peers_for(round) == m.prev_peers,
        round < m.prev_start ==> m.peers_for(round).len() == 0,
{
}

/// An epoch becomes the current one in its first round and not before. What was
/// current is then the previous one, and nobody is known of what was before that.
/// Who is to be known next stays.
pub proof fn law_epoch_begins_in_its_round(m: ScheduleModel, current: u32, round: u32)
    requires
        m.wf(),
        m.next_start is Some,
    ensures
        current < m.next_start->0 ==> m.advanced(current) == m,
        current >= m.next_start->0 ==> m.advanced(current).curr_start == m.next_start->0
            && m.advanced(current).prev_start == m.curr_start && m.advanced(current).next_start
            is None,
        current >= m.next_start->0 && round >= m.next_start->0 ==> m.advanced(current).peers_for(
            round,
        ) == m.next_peers,
        current >= m.next_start->0 && m.curr_start <= round < m.next_start->0 ==> m.advanced(
            current,
        ).peers_for(round) == m.curr_peers,
        current >= m.next_start->0 && round < m.curr_start ==> m.advanced(current).peers_for(
            round,
        ).len() == 0,
        m.advanced(current).next_set == m.next_set,
{
}

/// In a mempool that starts, the author of the genesis is alone in the round of the
/// genesis and in the one before it. The current validators take part from their
/// first round on, though not before the genesis is over; the previous ones take part
/// before them. Who is before the genesis is nobody.
pub proof fn law_first_validators_follow_the_genesis(
    m: ScheduleModel,
    genesis_round: u32,
    author: PeerId,
    init: InitPeers,
    round: u32,
)
    requires
        1 < genesis_round < u32::MAX,
        m.prev_start == 0,
        m.curr_start == 0,
        m.next_start is None,
        m.curr_peers.len() == 0,
        init.curr_v_subset@.len() > 0,
        init.prev_start_round < init.curr_start_round || init.curr_start_round <= genesis_round + 1,
    ensures
        round > genesis_round && round >= init.curr_start_round ==> initialized(
            m,
            genesis_round,
            author,
            init,
        ).peers_for(round) == init.curr_v_subset@,
        init.prev_v_subset@.len() > 0 && round > genesis_round && init.prev_start_round <= round
            < init.curr_start_round ==> initialized(m, genesis_round, author, init).peers_for(round)
            == init.prev_v_subset@,
        init.next_v_set@.len() == 0 && genesis_round - 1 <= round <= genesis_round ==> initialized(
            m,
            genesis_round,
            author,
            init,
        ).peers_for(round) == seq![author],
        round < genesis_round - 1 ==> initialized(m, genesis_round, author, init).peers_for(
            round,
        ).len() == 0,
        initialized(m, genesis_round, author, init).next_set == (if init.next_v_set@.len() > 0 {
            init.next_v_set@
        } else {
            init.curr_v_set@
        }),
{
}

/// Validators that become known take part from their first rounds on, if these come
/// after the current epoch. The current epoch lasts until the first of them.
pub proof fn law_known_validators_take_part(m: ScheduleModel, peers: InitPeers, round: u32)
    requires
        m.wf(),
        peers.prev_v_subset@.len() > 0,
        peers.curr_v_subset@.len() > 0,
        m.curr_start < peers.prev_start_round < peers.curr_start_round,
    ensures
        round >= peers.curr_start_round ==> with_peers(m, peers).peers_for(round)
            == peers.curr_v_subset@,
        peers.prev_start_round <= round < peers.curr_start_round ==> with_peers(m, peers).peers_for(
            round,
        ) == peers.prev_v_subset@,
        peers.next_v_set@.len() == 0 && m.curr_start <= round < peers.prev_start_round
            ==> with_peers(m, peers).peers_for(round) == m.curr_peers,
        with_peers(m, peers).next_set == (if peers.next_v_set@.len() > 0 {
            peers.next_v_set@
        } else {
            peers.curr_v_set@
        }),
{
}

/// Validators of the current epoch or earlier ones that become known once more change
/// nobody's part, and those after them take part from their first round on.
pub proof fn law_known_validators_stay(m: ScheduleModel, peers: InitPeers, round: u32)
    requires
        m.wf(),
        peers.prev_start_round <= m.curr_start,
        peers.next_v_set@.len() == 0,
    ensures
        peers.curr_start_round <= m.curr_start ==> with_peers(m, peers) == m,
        peers.curr_start_round > m.curr_start && peers.curr_v_subset@.len() > 0 && round
            >= peers.curr_start_round ==> with_peers(m, peers).peers_for(round)
            == peers.curr_v_subset@,
        round <= m.curr_start ==> with_peers(m, peers).peers_for(round) == m.peers_for(round),
{
}

/// Every other peer that cannot be reached yet is waited for, and nobody else.
pub proof fn law_unknown_peers_are_awaited(local_id: PeerId, peer: PeerId)
    ensures
        is_awaited(local_id, (peer, PeerState::Unknown)) <==> peer != local_id,
        !is_awaited(local_id, (peer, PeerState::Resolved)),
{
}

/// Each epoch of a schedule counts with its own first round and its own peers.
pub proof fn law_schedule_says_what_it_holds(schedule: PeerSchedule)
    ensures
        schedule@.prev_start == schedule.prev_start.0,
        schedule@.curr_start == schedule.curr_start.0,
        schedule@.next_start is Some <==> schedule.next_start is Some,
        schedule.next_start is Some ==> schedule@.next_start->0 == (schedule.next_start->0).0,
        schedule@.prev_peers == schedule.prev_peers@,
        schedule@.curr_peers == schedule.curr_peers@,
        schedule@.next_peers == schedule.next_peers@,
        schedule@.next_set == schedule.next_set@,
{
}

} // verus!

//! The points of one round.
use crate::dag::location::{DagLocation, DagPoint};
use crate::dag::threshold::{PeerCount, Threshold};
use crate::engine::config::MempoolConfig;
use crate::intercom::peer_schedule::PeerSchedule;
use crate::models::link::PointId;
use crate::models::parts::{Digest, KeyPair, PeerId, Round};
use crate::models::point_info::PointInfo;
use vstd::prelude::*;

verus! {

/// A round of the DAG: a location for every peer that takes part in it.
#[derive(Debug)]
pub struct DagRound {
    pub round: Round,
    pub peer_count: PeerCount,
    pub peers: Vec<PeerId>,
    /// In the order of the peers.
    pub locations: Vec<DagLocation>,
    pub threshold: Threshold,
}

/// The number of peers of a round: it is counted after the genesis; the genesis
/// and the round before it have their own.
pub open spec fn round_peer_count(
    round: Round,
    genesis_round: Round,
    counted: Option<PeerCount>,
    genesis: PeerCount,
) -> PeerCount {
    if round.0 > genesis_round.0 {
        counted->0
    } else {
        genesis
    }
}

/// Whether no peer is listed twice.
pub open spec fn distinct_peers(peers: Seq<PeerId>) -> bool {
    forall|i: int, j: int|
        0 <= i < j < peers.len() ==> #[trigger] peers[i] != #[trigger] peers[j]
}

impl DagRound {
    /// Whether there is one location for each peer.
    pub open spec fn wf(&self) -> bool {
        &&& self.locations@.len() == self.peers@.len()
        &&& self.threshold.wf()
        &&& self.threshold.round == self.round
        &&& distinct_peers(self.peers@)
        &&& forall|i: int| 0 <= i < self.locations@.len() ==> (#[trigger] self.locations@[i]).wf()
    }

    /// The place of a peer.
    pub open spec fn place(&self, peer: PeerId) -> Option<int> {
        if exists|i: int| 0 <= i < self.peers@.len() && #[trigger] self.peers@[i] == peer {
            Some(choose|i: int| 0 <= i < self.peers@.len() && #[trigger] self.peers@[i] == peer)
        } else {
            None
        }
    }

    /// Whether nothing but the location of one peer differs.
    pub open spec fn differs_at(&self, other: &Self, i: int) -> bool {
        &&& self.round == other.round
        &&& self.peer_count == other.peer_count
        &&& self.peers == other.peers
        &&& self.locations@.len() == other.locations@.len()
        &&& forall|j: int|
            0 <= j < self.locations@.len() && j != i ==> #[trigger] self.locations@[j]
                == other.locations@[j]
    }

    /// Whether this is a round that has no points yet.
    pub open spec fn is_fresh(
        &self,
        round: Round,
        peer_schedule: PeerSchedule,
        counted: Option<PeerCount>,
        genesis: PeerCount,
        conf: MempoolConfig,
    ) -> bool {
        &&& self.wf()
        &&& self.round == round
        &&& self.peer_count == round_peer_count(round, conf.genesis_round, counted, genesis)
        &&& self.peers@ == peer_schedule@.peers_for(round.0)
        &&& forall|i: int|
            0 <= i < self.locations@.len() ==> (#[trigger] self.locations@[i]).versions@.len() == 0
                && self.locations@[i].state.resolved is None && self.locations@[i].state.valid
                is None
        &&& self.threshold.ready@.len() == 0
        &&& self.threshold.delayed@.len() == 0
        &&& self.threshold.channel@.len() == 0
        &&& self.threshold.target_count == self.peer_count.majority
        &&& self.threshold.full == self.peer_count.full
        &&& self.threshold.clock_skew.0 == conf.consensus.clock_skew_millis
        &&& !self.threshold.is_reached
    }

    /// The oldest round in memory.
    pub fn new_bottom(
        round: Round,
        peer_schedule: &PeerSchedule,
        counted: Option<PeerCount>,
        genesis: PeerCount,
        conf: &MempoolConfig,
    ) -> (r: Self)
        requires
            round.0 + 1 >= conf.genesis_round.0,
            round.0 > conf.genesis_round.0 ==> counted is Some,
            genesis.majority <= genesis.full,
            counted matches Some(c) ==> c.majority <= c.full,
            distinct_peers(peer_schedule@.peers_for(round.0)),
        ensures
            r.is_fresh(round, *peer_schedule, counted, genesis, *conf),
    {
        Self::new(round, peer_schedule, counted, genesis, conf)
    }

    /// The round after this one.
    pub fn new_next(
        &self,
        peer_schedule: &PeerSchedule,
        counted: Option<PeerCount>,
        genesis: PeerCount,
        conf: &MempoolConfig,
    ) -> (r: Self)
        requires
            self.round.0 < u32::MAX,
            self.round.0 + 2 >= conf.genesis_round.0,
            self.round.0 + 1 > conf.genesis_round.0 ==> counted is Some,
            genesis.majority <= genesis.full,
            counted matches Some(c) ==> c.majority <= c.full,
            distinct_peers(peer_schedule@.peers_for((self.round.0 + 1) as u32)),
        ensures
            r.is_fresh(
                Round((self.round.0 + 1) as u32),
                *peer_schedule,
                counted,
                genesis,
                *conf,
            ),
    {
        Self::new(self.round.next(), peer_schedule, counted, genesis, conf)
    }

    /// A round that has no points yet. `counted` is the number of its peers, if
    /// they are enough for a consensus; `genesis` that of the genesis.
    fn new(
        round: Round,
        peer_schedule: &PeerSchedule,
        counted: Option<PeerCount>,
        genesis: PeerCount,
        conf: &MempoolConfig,
    ) -> (r: Self)
        requires
            round.0 + 1 >= conf.genesis_round.0,
            round.0 > conf.genesis_round.0 ==> counted is Some,
            genesis.majority <= genesis.full,
            counted matches Some(c) ==> c.majority <= c.full,
            distinct_peers(peer_schedule@.peers_for(round.0)),
        ensures
            r.is_fresh(round, *peer_schedule, counted, genesis, *conf),
    {
        let peers = peer_schedule.peers_for(round);
        let peer_count = if round.0 > conf.genesis_round.0 {
            match counted {
                Some(count) => count,
                None => genesis,
            }
        } else {
            genesis
        };
        let mut locations: Vec<DagLocation> = Vec::new();
        let mut i: usize = 0;
        while i < peers.len()
            invariant
                i <= peers@.len(),
                locations@.len() == i,
                forall|j: int|
                    0 <= j < i ==> (#[trigger] locations@[j]).wf() && locations@[j].versions@.len()
                        == 0 && locations@[j].state.resolved is None
                        && locations@[j].state.valid is None,
            decreases peers@.len() - i,
        {
            locations.push(DagLocation::new());
            i = i + 1;
        }
        let threshold = Threshold::new(round, peer_count, conf);
        DagRound { round, peer_count, peers, locations, threshold }
    }

    /// The round.
    #[verifier::allow_in_spec]
    pub fn round(&self) -> Round
        returns
            self.round,
    {
        self.round
    }

    /// The number of its peers.
    #[verifier::allow_in_spec]
    pub fn peer_count(&self) -> PeerCount
        returns
            self.peer_count,
    {
        self.peer_count
    }

    /// Its threshold.
    pub fn threshold(&self) -> (r: &Threshold)
        ensures
            *r == self.threshold,
    {
        &self.threshold
    }

    /// Finds the place of a peer.
    fn find(&self, peer: &PeerId) -> (r: Option<usize>)
        requires
            self.wf(),
        ensures
            match (r, self.place(*peer)) {
                (Some(i), Some(j)) => i == j && i < self.peers@.len() && self.peers@[i as int]
                    == *peer,
                (None, None) => true,
                _ => false,
            },
    {
        let mut i: usize = 0;
        while i < self.peers.len()
            invariant
                self.wf(),
                i <= self.peers@.len(),
                forall|j: int| 0 <= j < i ==> #[trigger] self.peers@[j] != *peer,
            decreases self.peers@.len() - i,
        {
            if self.peers[i].same(peer) {
                return Some(i);
            }
            i = i + 1;
        }
        None
    }

    /// The location of a peer.
    pub fn view_location(&self, author: &PeerId) -> (r: Option<&DagLocation>)
        requires
            self.wf(),
        ensures
            match (r, self.place(*author)) {
                (Some(location), Some(i)) => *location == self.locations@[i],
                (None, None) => true,
                _ => false,
            },
    {
        match self.find(author) {
            Some(i) => Some(&self.locations[i]),
            None => None,
        }
    }

    /// Lists a version of the point of an author with the task that resolves it,
    /// unless it is listed, and gives the task that it had before.
    fn enter(&mut self, author: &PeerId, digest: Digest, task: u64) -> (r: Option<u64>)
        requires
            old(self).wf(),
            old(self).place(*author) is Some,
        ensures
            final(self).wf(),
            final(self).threshold == old(self).threshold,
            final(self).differs_at(old(self), old(self).place(*author)->0),
            entered(
                old(self).locations@[old(self).place(*author)->0],
                final(self).locations@[old(self).place(*author)->0],
                digest,
                task,
                r,
            ),
    {
        match self.find(author) {
            Some(i) => self.locations[i].enter(digest, task),
            None => None,
        }
    }

    /// Adds a point that this node made. It is made only once.
    pub fn add_local(&mut self, info: &PointInfo, task: u64)
        requires
            old(self).wf(),
            info.round == old(self).round,
            old(self).place(info.author) matches Some(i) && !old(self).locations@[i].has_version(
                info.digest,
            ),
        ensures
            final(self).wf(),
            final(self).threshold == old(self).threshold,
            ({
                let i = old(self).place(info.author)->0;
                &&& final(self).differs_at(old(self), i)
                &&& entered(
                    old(self).locations@[i],
                    final(self).locations@[i],
                    info.digest,
                    task,
                    None,
                )
            }),
    {
        let _known = self.enter(&info.author, info.digest, task);
    }

    /// Adds a point as it was stored. It is restored only once.
    pub fn restore(&mut self, id: &PointId, task: u64)
        requires
            old(self).wf(),
            id.round == old(self).round,
            old(self).place(id.author) matches Some(i) && !old(self).locations@[i].has_version(
                id.digest,
            ),
        ensures
            final(self).wf(),
            final(self).threshold == old(self).threshold,
            ({
                let i = old(self).place(id.author)->0;
                &&& final(self).differs_at(old(self), i)
                &&& entered(old(self).locations@[i], final(self).locations@[i], id.digest, task, None)
            }),
    {
        let _known = self.enter(&id.author, id.digest, task);
    }

    /// Adds a point that was broadcast and is ill formed. If it is known the task
    /// that waits for it gets it; otherwise the given task resolves it.
    pub fn add_ill_formed_broadcast(&mut self, info: &PointInfo, task: u64) -> (r: Option<u64>)
        requires
            old(self).wf(),
            info.round == old(self).round,
            old(self).place(info.author) is Some,
        ensures
            final(self).wf(),
            final(self).threshold == old(self).threshold,
            ({
                let i = old(self).place(info.author)->0;
                &&& final(self).differs_at(old(self), i)
                &&& entered(
                    old(self).locations@[i],
                    final(self).locations@[i],
                    info.digest,
                    task,
                    r,
                )
            }),
    {
        self.enter(&info.author, info.digest, task)
    }

    /// Adds a point that was broadcast and verified. If it is known the task that
    /// waits for it gets it; otherwise the given task resolves it.
    pub fn add_broadcast(&mut self, info: &PointInfo, task: u64) -> (r: Option<u64>)
        requires
            old(self).wf(),
            info.round == old(self).round,
            old(self).place(info.author) is Some,
        ensures
            final(self).wf(),
            final(self).threshold == old(self).threshold,
            ({
                let i = old(self).place(info.author)->0;
                &&& final(self).differs_at(old(self), i)
                &&& entered(
                    old(self).locations@[i],
                    final(self).locations@[i],
                    info.digest,
                    task,
                    r,
                )
            }),
    {
        self.enter(&info.author, info.digest, task)
    }

    /// Adds a point whose broadcast was dropped, so that only its digest is known.
    /// Unless it is known the given task downloads it. Says whether it does.
    pub fn add_pruned_broadcast(&mut self, author: &PeerId, digest: &Digest, task: u64) -> (r: bool)
        requires
            old(self).wf(),
            old(self).place(*author) is Some,
        ensures
            final(self).wf(),
            final(self).threshold == old(self).threshold,
            ({
                let i = old(self).place(*author)->0;
                let known = old(self).locations@[i].has_version(*digest);
                &&& r == !known
                &&& final(self).differs_at(old(self), i)
                &&& final(self).locations@[i].state == old(self).locations@[i].state
                &&& final(self).locations@[i].versions@ == if known {
                    old(self).locations@[i].versions@
                } else {
                    old(self).locations@[i].versions@.push((*digest, task))
                }
            }),
    {
        let known = self.enter(author, *digest, task);
        proof {
            if let Some(t) = known {
                let versions = old(self).locations@[old(self).place(*author)->0].versions@;
                let j = versions.index_of((*digest, t));
                assert(versions[j].0 == *digest);
            }
        }
        known.is_none()
    }

    /// Adds a point that another one depends on. If it is known its task hears of
    /// one more that depends on it; otherwise the given task downloads it.
    pub fn add_dependency(&mut self, author: &PeerId, digest: &Digest, task: u64) -> (r: Option<u64>)
        requires
            old(self).wf(),
            old(self).place(*author) is Some,
        ensures
            final(self).wf(),
            final(self).threshold == old(self).threshold,
            ({
                let i = old(self).place(*author)->0;
                &&& final(self).differs_at(old(self), i)
                &&& entered(old(self).locations@[i], final(self).locations@[i], *digest, task, r)
            }),
    {
        self.enter(author, *digest, task)
    }

    /// Takes note that a point of this round was checked. The first valid point
    /// of its author counts for the threshold. Says whether it does.
    pub fn resolve(&mut self, dag_point: &DagPoint, info: PointInfo) -> (r: bool)
        requires
            old(self).wf(),
            dag_point.wf(),
            info.round == old(self).round,
            info.author == dag_point.id.author,
            old(self).place(dag_point.id.author) matches Some(i)
                && old(self).locations@[i].state.agrees(*dag_point),
            dag_point.is_first_valid() ==> {
                &&& old(self).threshold.ready@.len() + old(self).threshold.delayed@.len()
                    + old(self).threshold.channel@.len() < old(self).threshold.full
                &&& forall|x: PointInfo| #[trigger]
                    old(self).threshold.items().count(x) > 0 ==> x.author != info.author
            },
        ensures
            final(self).wf(),
            r == dag_point.is_first_valid(),
            ({
                let i = old(self).place(dag_point.id.author)->0;
                &&& final(self).differs_at(old(self), i)
                &&& final(self).locations@[i].versions == old(self).locations@[i].versions
                &&& final(self).locations@[i].state.valid == old(self).locations@[i].state.valid
                &&& final(self).locations@[i].state.resolved
                    == crate::dag::location::resolved_after(
                    old(self).locations@[i].state.resolved,
                    *dag_point,
                )
                &&& old(self).locations@[i].state.decided() is Some
                    ==> final(self).locations@[i].state.decided()
                    == old(self).locations@[i].state.decided()
            }),
            if r {
                &&& final(self).threshold.same_settings(&old(self).threshold)
                &&& final(self).threshold.is_reached == old(self).threshold.is_reached
                &&& final(self).threshold.ready == old(self).threshold.ready
                &&& final(self).threshold.delayed == old(self).threshold.delayed
                &&& final(self).threshold.channel@ == old(self).threshold.channel@.push(info)
                &&& final(self).threshold.items() == old(self).threshold.items().insert(info)
            } else {
                final(self).threshold == old(self).threshold
            },
    {
        let counts = match self.find(&dag_point.id.author) {
            Some(i) => self.locations[i].state.resolve(dag_point),
            None => false,
        };
        if counts {
            self.threshold.add(info);
        }
        counts
    }
}

/// Whether a version was listed unless it was, and `known` is the task it had.
pub open spec fn entered(
    before: DagLocation,
    after: DagLocation,
    digest: Digest,
    task: u64,
    known: Option<u64>,
) -> bool {
    &&& after.state == before.state
    &&& match known {
        Some(t) => before.has_task(digest, t) && after.versions == before.versions,
        None => !before.has_version(digest) && after.versions@ == before.versions@.push(
            (digest, task),
        ),
    }
}

/// Whether rounds descend one by one.
pub open spec fn without_gaps(rounds: Seq<Round>) -> bool {
    forall|i: int, j: int|
        0 <= i <= j < rounds.len() ==> (#[trigger] rounds[j]).0 + (j - i) == (
        #[trigger] rounds[i]).0
}

impl DagRound {
    /// Finds a round among those that are still in memory, from the newest to the
    /// oldest. Rounds follow each other without gaps.
    pub fn scan(rounds: &Vec<Round>, round: Round) -> (r: Option<usize>)
        requires
            rounds@.len() > 0,
            without_gaps(rounds@),
            round.0 <= rounds@[0].0,
        ensures
            match r {
                Some(i) => i < rounds@.len() && rounds@[i as int] == round,
                None => round.0 < rounds@[rounds@.len() - 1].0,
            },
            r is Some <==> rounds@.contains(round),
    {
        let mut i: usize = 0;
        while i < rounds.len()
            invariant
                i <= rounds@.len(),
                forall|j: int| 0 <= j < i ==> (#[trigger] rounds@[j]).0 > round.0,
                without_gaps(rounds@),
                rounds@.len() > 0,
                round.0 <= rounds@[0].0,
            decreases rounds@.len() - i,
        {
            if rounds[i].0 == round.0 {
                assert(rounds@[i as int] == round);
                return Some(i);
            }
            proof {
                if i > 0 {
                    assert(rounds@[i as int].0 + 1 == rounds@[i - 1].0);
                }
            }
            i = i + 1;
        }
        None
    }
}

/// The keys that the node may use at a round.
#[derive(Clone, Copy, Debug)]
pub struct KeyGroup {
    pub to_produce: Option<KeyPair>,
    pub to_include: Option<KeyPair>,
    pub to_witness: Option<KeyPair>,
}

/// The keys that a node may use at a round: one that takes part in the round
/// produces a point, one that takes part in the next includes points, and one
/// that takes part in both witnesses them.
pub open spec fn keys_at(current: Round, peer_schedule: PeerSchedule) -> KeyGroup {
    let keys = peer_schedule.local_keys;
    let now = peer_schedule@.peers_for(current.0).contains(keys.public);
    let later = peer_schedule@.peers_for((current.0 + 1) as u32).contains(keys.public);
    KeyGroup {
        to_produce: if now {
            Some(keys)
        } else {
            None
        },
        to_include: if later {
            Some(keys)
        } else {
            None
        },
        to_witness: if now && later {
            Some(keys)
        } else {
            None
        },
    }
}

impl KeyGroup {
    /// The keys for the current round: a node that takes part in it produces a
    /// point, one that takes part in the next includes points, and one that takes
    /// part in both witnesses them.
    pub fn new(current: Round, peer_schedule: &PeerSchedule) -> (r: Self)
        requires
            current.0 < u32::MAX,
        ensures
            r == keys_at(current, *peer_schedule),
    {
        let to_include = peer_schedule.local_keys(current.next());
        let to_produce = peer_schedule.local_keys(current);
        let to_witness = match to_include {
            Some(_) => to_produce,
            None => None,
        };
        KeyGroup { to_produce, to_include, to_witness }
    }
}

/// The newest rounds of the DAG.
#[derive(Clone, Copy, Debug)]
pub struct DagHead {
    pub key_group: KeyGroup,
    pub prev: Round,
    pub current: Round,
    pub next: Round,
    pub last_back_bottom: Round,
}

impl DagHead {
    /// The head of a DAG whose rounds in memory, from the newest on, are given.
    /// The current round is the one before the newest.
    pub fn new(peer_schedule: &PeerSchedule, rounds: &Vec<Round>, last_back_bottom: Round) -> (r:
        Self)
        requires
            rounds@.len() >= 3,
            without_gaps(rounds@),
        ensures
            r.next == rounds@[0],
            r.current.0 + 1 == r.next.0,
            r.prev.0 + 1 == r.current.0,
            r.last_back_bottom == last_back_bottom,
            r.key_group == keys_at(r.current, *peer_schedule),
    {
        let next: Round = rounds[0];
        let current: Round = rounds[1];
        let prev: Round = rounds[2];
        assert(rounds@[1].0 + 1 == rounds@[0].0);
        assert(rounds@[2].0 + 1 == rounds@[1].0);
        DagHead {
            key_group: KeyGroup::new(current, peer_schedule),
            prev,
            current,
            next,
            last_back_bottom,
        }
    }

    /// The keys to use.
    #[verifier::allow_in_spec]
    pub fn keys(&self) -> KeyGroup
        returns
            self.key_group,
    {
        self.key_group
    }

    /// The round before the current one.
    #[verifier::allow_in_spec]
    pub fn prev(&self) -> Round
        returns
            self.prev,
    {
        self.prev
    }

    /// The current round.
    #[verifier::allow_in_spec]
    pub fn current(&self) -> Round
        returns
            self.current,
    {
        self.current
    }

    /// The round after the current one.
    #[verifier::allow_in_spec]
    pub fn next(&self) -> Round
        returns
            self.next,
    {
        self.next
    }

    /// The oldest round that the consensus still needs.
    #[verifier::allow_in_spec]
    pub fn last_back_bottom(&self) -> Round
        returns
            self.last_back_bottom,
    {
        self.last_back_bottom
    }
}

/// The peers are counted in every round after the genesis. Up to the genesis they are
/// those of the genesis, whatever was counted.
pub proof fn law_peers_are_counted_after_the_genesis(
    round: Round,
    genesis_round: Round,
    counted: PeerCount,
    genesis: PeerCount,
)
    ensures
        genesis_round.0 < round.0 ==> round_peer_count(round, genesis_round, Some(counted), genesis)
            == counted,
        round.0 <= genesis_round.0 ==> round_peer_count(
            round,
            genesis_round,
            Some(counted),
            genesis,
        ) == genesis && round_peer_count(round, genesis_round, None, genesis) == genesis,
{
}

/// In a round that begins exactly the scheduled peers have a place, each its own, with
/// nothing in it. No point is counted, and the majority is waited for.
pub proof fn law_fresh_round_waits_for_its_peers(
    dag_round: DagRound,
    round: Round,
    peer_schedule: PeerSchedule,
    counted: Option<PeerCount>,
    genesis: PeerCount,
    conf: MempoolConfig,
    peer: PeerId,
    digest: Digest,
)
    requires
        dag_round.is_fresh(round, peer_schedule, counted, genesis, conf),
    ensures
        dag_round.round == round,
        dag_round.place(peer) is Some <==> peer_schedule@.peers_for(round.0).contains(peer),
        dag_round.place(peer) is Some ==> {
            let location = dag_round.locations@[dag_round.place(peer)->0];
            &&& !location.has_version(digest)
            &&& location.state.resolved is None
            &&& location.state.valid is None
        },
        dag_round.locations@.len() == peer_schedule@.peers_for(round.0).len(),
        dag_round.threshold.items().len() == 0,
        !dag_round.threshold.is_reached,
        dag_round.threshold.clock_skew.0 == conf.consensus.clock_skew_millis,
        round.0 > conf.genesis_round.0 ==> dag_round.peer_count == counted->0
            && dag_round.threshold.target_count == counted->0.majority && dag_round.threshold.full
            == counted->0.full,
        round.0 <= conf.genesis_round.0 ==> dag_round.peer_count == genesis
            && dag_round.threshold.target_count == genesis.majority && dag_round.threshold.full
            == genesis.full,
{
    broadcast use vstd::multiset::group_multiset_axioms;

    vstd::seq_lib::to_multiset_len(dag_round.threshold.ready@);
    vstd::seq_lib::to_multiset_len(dag_round.threshold.delayed@);
    vstd::seq_lib::to_multiset_len(dag_round.threshold.channel@);
    if peer_schedule@.peers_for(round.0).contains(peer) {
        let i = choose|i: int| 0 <= i < dag_round.peers@.len() && dag_round.peers@[i] == peer;
        assert(dag_round.peers@[i] == peer);
    }
}

/// The place of a peer is where it is listed, and there is none for others.
pub proof fn law_peer_has_one_place(dag_round: DagRound, peer: PeerId, i: int)
    requires
        dag_round.wf(),
    ensures
        0 <= i < dag_round.peers@.len() && dag_round.peers@[i] == peer ==> dag_round.place(peer)
            == Some(i),
        dag_round.place(peer) is None <==> !dag_round.peers@.contains(peer),
{
    if dag_round.peers@.contains(peer) {
        let j = choose|j: int| 0 <= j < dag_round.peers@.len() && dag_round.peers@[j] == peer;
        assert(dag_round.peers@[j] == peer);
    }
}

/// A version that is entered is listed afterwards: with the task that it had, or with
/// the new one if it had none. No other version comes or goes, and what is decided
/// about the location stays.
pub proof fn law_version_is_entered_once(
    before: DagLocation,
    after: DagLocation,
    digest: Digest,
    task: u64,
    known: Option<u64>,
    other: Digest,
    other_task: u64,
)
    requires
        entered(before, after, digest, task, known),
    ensures
        known is Some ==> before.has_task(digest, known->0) && after.has_task(digest, known->0),
        known is None ==> !before.has_version(digest) && after.has_task(digest, task),
        after.has_version(digest),
        after.has_task(other, other_task) <==> before.has_task(other, other_task) || (known is None
            && other == digest && other_task == task),
        after.state == before.state,
        before.wf() ==> after.wf(),
{
    let old_list = before.versions@;
    let new_list = after.versions@;
    match known {
        Some(t) => {
            let i = choose|i: int| 0 <= i < old_list.len() && old_list[i] == (digest, t);
            assert(after.versions@[i].0 == digest);
        },
        None => {
            assert(new_list[old_list.len() as int] == (digest, task));
            assert(after.versions@[old_list.len() as int].0 == digest);
            if before.has_task(other, other_task) {
                let i = choose|i: int|
                    0 <= i < old_list.len() && old_list[i] == (other, other_task);
                assert(new_list[i] == (other, other_task));
            }
            if after.has_task(other, other_task) {
                let i = choose|i: int|
                    0 <= i < new_list.len() && new_list[i] == (other, other_task);
                if i < old_list.len() {
                    assert(old_list[i] == (other, other_task));
                }
            }
        },
    }
}

/// A node uses no keys but its own. It produces points exactly in the rounds in which
/// it takes part, includes points exactly before them, and witnesses exactly where it
/// does both.
pub proof fn law_keys_go_with_the_schedule(current: Round, peer_schedule: PeerSchedule)
    requires
        current.0 < u32::MAX,
    ensures
        keys_at(current, peer_schedule).to_produce is Some <==> peer_schedule@.peers_for(
            current.0,
        ).contains(peer_schedule.local_keys.public),
        keys_at(current, peer_schedule).to_include is Some <==> peer_schedule@.peers_for(
            (current.0 + 1) as u32,
        ).contains(peer_schedule.local_keys.public),
        keys_at(current, peer_schedule).to_witness is Some <==> keys_at(
            current,
            peer_schedule,
        ).to_produce is Some && keys_at(current, peer_schedule).to_include is Some,
        keys_at(current, peer_schedule).to_produce is Some ==> keys_at(
            current,
            peer_schedule,
        ).to_produce->0 == peer_schedule.local_keys,
        keys_at(current, peer_schedule).to_include is Some ==> keys_at(
            current,
            peer_schedule,
        ).to_include->0 == peer_schedule.local_keys,
        keys_at(current, peer_schedule).to_witness is Some ==> keys_at(
            current,
            peer_schedule,
        ).to_witness->0 == peer_schedule.local_keys,
{
}

/// Who includes points in a round produces one in the next.
pub proof fn law_included_points_lead_to_a_point(current: Round, peer_schedule: PeerSchedule)
    requires
        current.0 < u32::MAX,
    ensures
        keys_at(current, peer_schedule).to_include == keys_at(
            Round((current.0 + 1) as u32),
            peer_schedule,
        ).to_produce,
{
}

/// Among rounds without gaps the first is the newest, and each is one before the one
/// in front of it.
pub proof fn law_rounds_descend_one_by_one(rounds: Seq<Round>, i: int)
    requires
        without_gaps(rounds),
        0 <= i,
        i + 1 < rounds.len(),
    ensures
        rounds[i + 1].0 + 1 == rounds[i].0,
        rounds[i].0 + i == rounds[0].0,
{
    assert(rounds[i].0 == rounds[i + 1].0 + 1);
}

/// Where one location differs, the round, the peers and the locations of all others are
/// the same.
pub proof fn law_other_locations_stay(a: DagRound, b: DagRound, i: int, j: int)
    requires
        a.differs_at(&b, i),
    ensures
        a.round == b.round,
        a.peer_count == b.peer_count,
        a.peers == b.peers,
        a.locations@.len() == b.locations@.len(),
        0 <= j < a.locations@.len() && j != i ==> a.locations@[j] == b.locations@[j],
{
}

} // verus!

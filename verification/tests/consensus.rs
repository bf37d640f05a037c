//! Thresholds, locations, rounds and the peers that take part in them.
use rand::{thread_rng, Rng};
use tycho::dag::location::{
    DagLocation, DagPoint, FirstResolved, InclusionState, PointStatus, ValidPoint,
};
use tycho::dag::round::{DagHead, DagRound, KeyGroup};
use tycho::dag::threshold::{PeerCount, Threshold, ThresholdCount};
use tycho::engine::config::{
    ConfigError, GenesisInfo, MempoolConfig, MempoolConfigBuilder, MempoolNodeConfig, NodeConfig,
};
use tycho::ids::HashBytes;
use tycho::intercom::peer_schedule::{
    on_entries_event, resolved_waiters, EntriesEvent, InitPeers, PeerSchedule, PeerState,
    UpdateAction,
};
use tycho::models::link::{Link, PointId};
use tycho::models::parts::{Digest, KeyPair, Round, Signature, UnixTime};
use tycho::models::peer_map::PeerMap;
use tycho::models::point_info::{PointData, PointInfo};
use tycho::test_utils::{default_test_config, test_consensus_config};

fn conf() -> MempoolConfig {
    default_test_config(&mut NodeConfig::new(), Round(1)).conf
}

fn keys(byte: u8) -> KeyPair {
    KeyPair::from_secret(HashBytes([byte; 32]))
}

fn time(millis: u64) -> UnixTime {
    UnixTime::from_millis(millis)
}

fn info(author: HashBytes, round: u32, millis: u64) -> PointInfo {
    PointInfo::new(
        Digest::wrap(author.0),
        Signature([0; 64]),
        author,
        Round(round),
        0,
        0,
        PointData {
            time: time(millis),
            includes: PeerMap::new(),
            witness: PeerMap::new(),
            evidence: PeerMap::new(),
            anchor_trigger: Link::ToSelf,
            anchor_proof: Link::ToSelf,
            anchor_time: time(0),
        },
    )
}

#[test]
fn counts_are_packed() {
    let count = ThresholdCount {
        target: 3,
        ready: 1,
        delayed: 2,
        in_channel: 255,
    };
    assert_eq!(count.pack(), 0x03_01_02_ff);
    assert_eq!(ThresholdCount::unpack(count.pack()), count);
    assert_eq!(ThresholdCount::add_one_in_channel(count.pack()), None);
    assert_eq!(ThresholdCount::add_one_in_channel(0x03_01_02_00), Some(0x03_01_02_01));
    assert_eq!(ThresholdCount::set_decrease(0x03_01_02_05, 4, 0, 6), None);
    assert_eq!(
        ThresholdCount::set_decrease(0x03_01_02_05, 4, 0, 5),
        Some(0x03_04_00_00)
    );
    assert_eq!(ThresholdCount::unpack(0x03_01_02_04).total(), 7);
}

/// Points are added one after the other while the threshold is waited for; their
/// times lie up to some seconds ahead of the clock.
#[test]
fn test() {
    let total_peers: u8 = 10;
    let round = Round(5);
    let conf = conf();
    let peer_count = PeerCount {
        full: total_peers,
        majority: 7,
    };
    let mut thresh = Threshold::new(round, peer_count, &conf);
    let now = time(1_700_000_000_000);
    let mut clock = now;
    let mut max_time = time(0);
    let mut reached = false;
    for i in 1..=total_peers {
        clock = clock + time(100);
        let delay = time(thread_rng().gen_range(1000..8000));
        let key_pair = keys(i);
        thresh.add(info(key_pair.public, round.0, (now + delay).millis()));
        // whoever waits takes the points out of the channel until it is reached
        if !reached {
            max_time = thresh.receive(max_time, clock);
            reached = thresh.check_reached();
        }
    }
    while !reached {
        // a delayed point becomes ready when its time has come
        thresh.expire();
        reached = thresh.check_reached();
    }
    let count = thresh.count();
    assert!(count.ready >= peer_count.majority);
    assert_eq!(count.ready as usize, thresh.ready.len(), "ready count");
    assert_eq!(count.delayed as usize, thresh.delayed.len(), "delayed count");
    assert_eq!(count.in_channel as usize, thresh.channel.len(), "in-channel count");

    let result = thresh.get_reached(clock).len();
    let count = thresh.count();
    assert!(result >= peer_count.majority as usize, "must be reached");
    assert_eq!(count.ready as usize, result);
    assert_eq!(count.total(), total_peers, "all sent items must be counted");
    assert_eq!(count.ready as usize, thresh.ready.len(), "ready count");
    assert_eq!(count.delayed as usize, thresh.delayed.len(), "delayed count");
    assert_eq!(count.in_channel, 0, "all items must be drained from channel");
}

/// Two points are from the future; the threshold is reached by those whose time
/// has come.
#[test]
fn delayed_points_become_ready() {
    let count = PeerCount {
        full: 4,
        majority: 3,
    };
    let mut threshold = Threshold::new(Round(7), count, &conf());
    for (i, millis) in [(1u8, 1_000), (2, 9_000), (3, 7_000), (4, 2_000)] {
        threshold.add(info(HashBytes([i; 32]), 7, millis));
    }
    assert_eq!(threshold.count().in_channel, 4);
    assert!(!threshold.check_reached());

    // the clock shows 1000, and it may be wrong by 5000
    let mut max_time = time(0);
    for _ in 0..4 {
        max_time = threshold.receive(max_time, time(1_000));
    }
    assert_eq!(max_time, time(6_000));
    assert_eq!(
        threshold.count(),
        ThresholdCount {
            target: 3,
            ready: 2,
            delayed: 2,
            in_channel: 0
        }
    );
    assert!(!threshold.check_reached());
    assert_eq!(threshold.count().total(), 4);

    // the earlier of the delayed points becomes ready
    threshold.expire();
    assert!(threshold.check_reached());
    assert_eq!(threshold.get_reached(time(1_000)).len(), 3);
    assert_eq!(threshold.get_reached(time(4_000)).len(), 4);
    assert_eq!(threshold.count().ready, 4);
}

fn point_id(byte: u8, round: u32) -> PointId {
    PointId {
        author: HashBytes([1; 32]),
        round: Round(round),
        digest: Digest::wrap([byte; 32]),
    }
}

fn status(is_valid: bool) -> PointStatus {
    PointStatus {
        is_valid,
        is_first_resolved: false,
        is_first_valid: false,
    }
}

fn dag_point(byte: u8, round: u32, millis: u64, status: &PointStatus) -> DagPoint {
    DagPoint {
        id: point_id(byte, round),
        is_first_resolved: status.is_first_resolved,
        valid: if status.is_valid {
            Some(ValidPoint {
                id: point_id(byte, round),
                time: time(millis),
                is_first_valid: status.is_first_valid,
            })
        } else {
            None
        },
    }
}

#[test]
fn only_the_first_point_is_signed() {
    let mut state = InclusionState::new();
    let mut first = status(true);
    state.acquire(&point_id(1, 7), &mut first);
    assert!(first.is_first_resolved && first.is_first_valid);
    let mut second = status(true);
    state.acquire(&point_id(2, 7), &mut second);
    assert!(!second.is_first_resolved && !second.is_first_valid);
    // not in the DAG yet
    assert!(state.sign(Round(7), Some(&keys(5)), time(0), &conf()).is_none());
    assert!(state.resolve(&dag_point(1, 7, 100, &first)));
    assert!(!state.resolve(&dag_point(2, 7, 100, &second)));
    // a coming round, and no keys
    assert!(state.sign(Round(6), Some(&keys(5)), time(0), &conf()).is_none());
    assert!(state.sign(Round(7), None, time(0), &conf()).is_none());
    let signed = state
        .sign(Round(8), Some(&keys(5)), time(0), &conf())
        .unwrap()
        .unwrap();
    assert_eq!(signed.first_resolved.id, point_id(1, 7));
    assert!(signed
        .signature
        .verifies(&keys(5).public, &Digest::wrap([1; 32])));
    // the decision is final
    assert!(state.sign(Round(20), None, time(0), &conf()).unwrap().is_ok());
    assert!(state.get_or_reject().is_ok());
}

#[test]
fn points_are_rejected_or_wait() {
    // too old
    let mut state = InclusionState::new();
    let mut first = status(true);
    state.acquire(&point_id(1, 5), &mut first);
    state.resolve(&dag_point(1, 5, 100, &first));
    assert!(state
        .sign(Round(7), Some(&keys(5)), time(0), &conf())
        .unwrap()
        .is_err());

    // from the future
    let mut state = InclusionState::new();
    let mut first = status(true);
    state.acquire(&point_id(1, 7), &mut first);
    state.resolve(&dag_point(1, 7, 5_000, &first));
    assert!(state.sign(Round(7), Some(&keys(5)), time(0), &conf()).is_none());
    assert!(state
        .sign(Round(7), Some(&keys(5)), time(1), &conf())
        .unwrap()
        .is_ok());

    // the first point is not valid
    let mut state = InclusionState::new();
    let mut first = status(false);
    state.acquire(&point_id(1, 7), &mut first);
    let mut second = status(true);
    state.acquire(&point_id(2, 7), &mut second);
    assert!(first.is_first_resolved && !first.is_first_valid);
    assert!(!second.is_first_resolved && second.is_first_valid);
    assert!(state.get_or_reject().is_err());

    // closed before anything came
    let mut state = InclusionState::new();
    assert!(state.get_or_reject().is_err());
    assert!(matches!(state.resolved, Some(FirstResolved::Closed)));

    // restored with its marks
    let mut state = InclusionState::new();
    let stored = PointStatus {
        is_valid: true,
        is_first_resolved: true,
        is_first_valid: true,
    };
    state.acquire_restore(&point_id(1, 7), &stored);
    assert!(state.resolve(&dag_point(1, 7, 100, &stored)));
}

#[test]
fn versions_of_a_point() {
    let mut location = DagLocation::new();
    assert_eq!(location.enter(Digest::wrap([1; 32]), 10), None);
    assert_eq!(location.enter(Digest::wrap([2; 32]), 20), None);
    assert_eq!(location.enter(Digest::wrap([1; 32]), 30), Some(10));
    assert_eq!(location.version(&Digest::wrap([2; 32])), Some(20));
    assert_eq!(location.version(&Digest::wrap([3; 32])), None);
    assert_eq!(location.first_valid(), None);
    location.state.acquire(&point_id(2, 7), &mut status(true));
    assert_eq!(location.first_valid(), Some(20));
}

fn schedule() -> PeerSchedule {
    let mut schedule = PeerSchedule::new(keys(1));
    let mut init = InitPeers::new((1..=4).map(|i| keys(i).public).collect());
    init.curr_start_round = 5;
    let merged = default_test_config(&mut NodeConfig::new(), Round(2));
    schedule.init(&merged, &init);
    schedule
}

#[test]
fn other_validators_are_scheduled() {
    let all = |from: u8, to: u8| -> Vec<_> { (from..=to).map(|i| keys(i).public).collect() };
    let mut schedule = schedule();
    schedule.apply_scheduled(Round(5));
    schedule.set_peers(&InitPeers {
        prev_start_round: 7,
        prev_v_set: all(1, 6),
        prev_v_subset: all(2, 5),
        curr_start_round: 9,
        curr_v_set: all(1, 6),
        curr_v_subset: all(3, 6),
        next_v_set: vec![],
    });
    assert_eq!(schedule.curr_start, Round(7));
    assert_eq!(schedule.next_start, Some(Round(9)));
    assert_eq!(schedule.peers_for(Round(6)), all(1, 4));
    assert_eq!(schedule.peers_for(Round(8)), all(2, 5));
    assert_eq!(schedule.peers_for(Round(9)), all(3, 6));
    // the current ones are in force when the next ones are known
    schedule.set_peers(&InitPeers {
        prev_start_round: 7,
        prev_v_set: all(1, 6),
        prev_v_subset: all(2, 5),
        curr_start_round: 9,
        curr_v_set: all(1, 6),
        curr_v_subset: all(3, 6),
        next_v_set: all(4, 9),
    });
    assert_eq!(schedule.curr_start, Round(9));
    assert_eq!(schedule.next_start, None);
    assert_eq!(schedule.next_set, all(4, 9));
    assert_eq!(schedule.peers_for(Round(8)), all(2, 5));
    assert_eq!(schedule.peers_for(Round(9)), all(3, 6));
}

#[test]
fn epochs_follow_each_other() {
    let mut schedule = schedule();
    assert_eq!(schedule.peers_for(Round(2)).len(), 1);
    assert_eq!(schedule.peers_for(Round(5)).len(), 4);
    let next = vec![keys(2).public, keys(3).public, keys(9).public];
    schedule.apply_scheduled(Round(5));
    schedule.set_next_subset(&next, Round(10), &next);
    assert_eq!(schedule.peers_for(Round(9)).len(), 4);
    assert_eq!(schedule.peers_for(Round(10)), next);
    // not applied before its time
    schedule.apply_scheduled(Round(9));
    assert!(schedule.next_start.is_some());
    schedule.apply_scheduled(Round(10));
    assert!(schedule.next_start.is_none());
    assert_eq!(schedule.peers_for(Round(10)), next);
    assert_eq!(schedule.peers_for(Round(9)).len(), 4);
    // the past is fixed
    schedule.set_next_subset(&next, Round(10), &vec![keys(1).public]);
    assert_eq!(schedule.peers_for(Round(10)), next);
    // keys are there only for those who take part
    assert!(schedule.local_keys(Round(9)).is_some());
    assert!(schedule.local_keys(Round(10)).is_none());

    let group = KeyGroup::new(Round(8), &schedule);
    assert!(group.to_produce.is_some());
    assert!(group.to_include.is_some());
    assert!(group.to_witness.is_some());
    let group = KeyGroup::new(Round(9), &schedule);
    assert!(group.to_produce.is_some());
    assert!(group.to_include.is_none());
    assert!(group.to_witness.is_none());
}

#[test]
fn events_of_peers() {
    let local = keys(1).public;
    let other = keys(2).public;
    assert!(matches!(
        on_entries_event(&local, EntriesEvent::Removed(other)),
        UpdateAction::Forget(peer) if peer == other
    ));
    assert!(matches!(
        on_entries_event(&local, EntriesEvent::Removed(local)),
        UpdateAction::Ignore
    ));
    assert!(matches!(
        on_entries_event(&local, EntriesEvent::Lagged),
        UpdateAction::Ignore
    ));
    assert!(matches!(
        on_entries_event(&local, EntriesEvent::Closed),
        UpdateAction::Stop
    ));
    let entries = vec![
        (local, PeerState::Unknown),
        (other, PeerState::Unknown),
        (keys(3).public, PeerState::Resolved),
    ];
    assert_eq!(resolved_waiters(&local, &entries), vec![other]);
}

#[test]
fn points_of_a_round() {
    let schedule = schedule();
    let counted = PeerCount {
        full: 4,
        majority: 3,
    };
    let genesis = PeerCount {
        full: 1,
        majority: 1,
    };
    let mut round = DagRound::new_bottom(Round(6), &schedule, Some(counted), genesis, &conf());
    assert_eq!(round.round(), Round(6));
    assert_eq!(round.peer_count, counted);
    assert!(round.view_location(&keys(9).public).is_none());
    let author = keys(2).public;
    let point = info(author, 6, 100);
    assert_eq!(round.add_broadcast(&point, 40), None);
    assert_eq!(round.add_broadcast(&point, 41), Some(40));
    assert_eq!(round.add_dependency(&author, &Digest::wrap([7; 32]), 42), None);
    assert!(!round.add_pruned_broadcast(&author, &Digest::wrap([7; 32]), 50));
    assert!(round.add_pruned_broadcast(&author, &Digest::wrap([8; 32]), 51));
    assert_eq!(round.add_ill_formed_broadcast(&point, 52), Some(40));
    let stored = PointId {
        author: keys(3).public,
        round: Round(6),
        digest: Digest::wrap([9; 32]),
    };
    round.restore(&stored, 53);
    let location = round.view_location(&keys(3).public).unwrap();
    assert_eq!(location.version(&Digest::wrap([9; 32])), Some(53));
    round.add_local(&info(keys(1).public, 6, 100), 43);
    let location = round.view_location(&keys(1).public).unwrap();
    assert_eq!(location.versions.len(), 1);

    let mut first = PointStatus {
        is_valid: true,
        is_first_resolved: false,
        is_first_valid: false,
    };
    let id = PointId {
        author,
        round: Round(6),
        digest: point.digest,
    };
    round.locations[1].state.acquire(&id, &mut first);
    let in_dag = DagPoint {
        id,
        is_first_resolved: true,
        valid: Some(ValidPoint {
            id,
            time: time(100),
            is_first_valid: true,
        }),
    };
    assert!(round.resolve(&in_dag, point));
    assert!(!round.threshold.is_reached);
    assert!(round.threshold.ready.is_empty() && round.threshold.delayed.is_empty());
    assert_eq!(round.threshold.count().in_channel, 1);
    assert_eq!(round.threshold().count().total(), 1);
    let next = round.new_next(&schedule, Some(counted), genesis, &conf());
    assert_eq!((next.round(), next.peer_count()), (Round(7), counted));
    // the genesis has its own count
    let round = DagRound::new_bottom(Round(1), &schedule, None, genesis, &conf());
    assert_eq!(round.peer_count, genesis);
    assert_eq!(round.peers.len(), 1);
}

#[test]
fn rounds_behind_the_top() {
    let rounds = vec![Round(9), Round(8), Round(7), Round(6)];
    assert_eq!(DagRound::scan(&rounds, Round(9)), Some(0));
    assert_eq!(DagRound::scan(&rounds, Round(6)), Some(3));
    assert_eq!(DagRound::scan(&rounds, Round(5)), None);
    let head = DagHead::new(&schedule(), &rounds, Round(2));
    assert_eq!((head.next, head.current, head.prev), (Round(9), Round(8), Round(7)));
    assert_eq!(head.last_back_bottom(), Round(2));
    assert_eq!((head.next(), head.current(), head.prev()), (Round(9), Round(8), Round(7)));
    assert!(head.keys().to_witness.is_some());
}

#[test]
fn configurations() {
    let mut known = NodeConfig::new();
    let node = MempoolNodeConfig::default();
    let (mut builder, first) = MempoolConfigBuilder::new(&mut known, &node);
    assert!(first);
    assert_eq!(known.get(), &node);
    assert!(matches!(builder.build(Round(1)), Err(ConfigError::NoGenesis)));
    builder.set_genesis(GenesisInfo::default());
    assert!(matches!(
        builder.build(Round(1)),
        Err(ConfigError::NoConsensusConfig)
    ));
    let consensus = test_consensus_config();
    let mut wrong = consensus;
    wrong.max_consensus_lag_rounds = 0;
    assert_eq!(
        builder.set_consensus_config(&wrong),
        Err(ConfigError::LagBelowCommitDepth)
    );
    let mut wrong = consensus;
    wrong.payload_buffer_bytes = wrong.payload_batch_bytes - 1;
    assert_eq!(
        builder.set_consensus_config(&wrong),
        Err(ConfigError::BufferBelowBatch)
    );
    assert!(builder.set_consensus_config(&consensus).is_ok());
    assert_eq!(builder.get_consensus_config(), Some(consensus));
    assert_eq!(builder.get_genesis(), Some(GenesisInfo::default()));
    let a = builder.build(Round(1)).unwrap();
    let b = builder.build(Round(2)).unwrap();
    assert_ne!(a.overlay_id, b.overlay_id);
    assert_eq!(a.consensus(), &consensus);
    assert_eq!(a.genesis_info(), GenesisInfo::default());
    // other settings are noticed but do not count
    let mut other = node;
    other.max_blocking_tasks = 1;
    let (_builder, same) = MempoolConfigBuilder::new(&mut known, &other);
    assert!(!same);
    assert_eq!(known.get(), &node);
}

#[test]
fn the_overlay_is_named_by_a_streebog_hash() {
    let merged = default_test_config(&mut NodeConfig::new(), Round(1));
    let consensus = merged.consensus();
    let mut data = Vec::new();
    for number in [
        1u128,
        0,
        consensus.clock_skew_millis as u128,
        consensus.payload_batch_bytes as u128,
        consensus.commit_history_rounds as u128,
        consensus.deduplicate_rounds as u128,
        consensus.max_consensus_lag_rounds as u128,
        consensus.sync_support_rounds as u128,
    ] {
        data.extend_from_slice(&number.to_be_bytes());
    }
    let expected = <streebog::Streebog256 as streebog::Digest>::digest(&data);
    assert_eq!(&merged.overlay_id.0[..], &expected[..]);
    let author = merged.genesis_author();
    assert_eq!(author, KeyPair::from_secret(merged.overlay_id).public);
}

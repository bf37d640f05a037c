//! Decisions of the collation manager.
use tycho::ids::{BlockId, BlockIdShort, HashBytes, ShardIdent};
use tycho::manager::blocks::{
    check_candidate_should_sync, BlockCacheStoreResult, CandidateNext, CandidateStart, MasterNext,
    ReceivedNext,
};
use tycho::manager::collators::StepPlan;
use tycho::manager::commit::{
    blocks_to_commit, get_all_shards_processed_to_by_partitions_for_mc_block,
    get_top_blocks_seqno, notice_to_mempool, plan_commit, processed_to_source,
    should_send_to_sync, states_to_read, CommitPlan, ExtractedBlock, ProcessedToSource, TopBlock,
    TopShardBlocks,
};
use tycho::manager::restore::{QueueRestore, ScanAction, ShardScan};
use tycho::manager::restore_run::{RestoreAction, RestoreEvent, RestoreRun};
use tycho::manager::sessions::{find_us_in_collators_set, ValidatorSet};
use tycho::manager::sync::{find_last_mc_block, mark_last_mc_block, ProcessMcStateUpdateMode};
use tycho::manager::sync_state::ForceMasterCollation;
use tycho::manager::{CollationManager, CollatorState};
use tycho::queue::key::QueueKey;
use tycho::shard_map::ShardMap;
use tycho::types::{
    CollatorConfig, McData, PartitionProcessedTo, ShardDescriptionShort, ValidatorDescription,
    ValidatorSubsetInfo,
};

const OUR_KEY: HashBytes = HashBytes([7; 32]);

fn mc() -> ShardIdent {
    ShardIdent::masterchain()
}

fn sc() -> ShardIdent {
    ShardIdent::basechain()
}

fn block(shard: ShardIdent, seqno: u32) -> BlockId {
    BlockId {
        shard,
        seqno,
        root_hash: HashBytes([seqno as u8; 32]),
        file_hash: HashBytes([(seqno as u8).wrapping_add(1); 32]),
    }
}

fn config() -> CollatorConfig {
    CollatorConfig::from_settings(3, false, true, Some(true))
}

fn manager() -> CollationManager {
    CollationManager::new(config(), OUR_KEY)
}

fn mc_data(seqno: u32, catchain_seqno: u32, shards: &[ShardIdent]) -> McData {
    McData {
        global_id: 1,
        block_id: block(mc(), seqno),
        prev_key_block_seqno: 0,
        gen_lt: 100,
        gen_chain_time: 1000,
        shards: shards
            .iter()
            .map(|shard| {
                (
                    *shard,
                    ShardDescriptionShort {
                        ext_processed_to_anchor_id: 0,
                        top_sc_block_updated: true,
                        end_lt: 90,
                        seqno: 5,
                        root_hash: HashBytes([5; 32]),
                        file_hash: HashBytes([6; 32]),
                    },
                )
            })
            .collect(),
        catchain_seqno,
        top_processed_to_anchor: 0,
        shards_processed_to_by_partitions: ShardMap::new(),
    }
}

fn validator(byte: u8) -> ValidatorDescription {
    ValidatorDescription {
        public_key: HashBytes([byte; 32]),
        weight: 1,
        adnl_addr: None,
    }
}

fn subset(bytes: &[u8], short_hash: u32) -> ValidatorSubsetInfo {
    ValidatorSubsetInfo {
        validators: bytes.iter().map(|byte| validator(*byte)).collect(),
        short_hash,
    }
}

fn store_res() -> BlockCacheStoreResult {
    BlockCacheStoreResult {
        received_and_collated: false,
        block_mismatch: false,
        last_collated_mc_block_id: Some(block(mc(), 10)),
        applied_mc_queue_range: None,
    }
}

/// A manager that collates both chains.
fn collating() -> CollationManager {
    let mut manager = manager();
    for shard in [mc(), sc()] {
        let started = manager.start_session(shard, &block(shard, 4), 1, subset(&[7, 8], 9), true);
        assert!(!started.resume);
        assert_eq!(
            started.add_validation,
            if shard == mc() { Some(((1, 9), 5)) } else { None }
        );
    }
    manager
}

#[test]
fn sessions_follow_the_master_state() {
    let mut manager = collating();
    // nothing has changed
    let plan = manager.plan_sessions(&mc_data(5, 1, &[sc()]), subset(&[7, 8], 9));
    assert_eq!(plan.keep.len(), 2);
    assert_eq!(plan.start.len(), 0);
    assert_eq!(plan.finish.len(), 0);
    assert!(manager.resume_session(&sc()));

    // other validators: both sessions end and start again, the collators stay
    let plan = manager.plan_sessions(&mc_data(6, 1, &[sc()]), subset(&[7, 9], 10));
    assert_eq!(plan.keep.len(), 0);
    assert_eq!(plan.start.len(), 2);
    assert_eq!(plan.finish.len(), 2);
    assert_eq!(plan.stop.len(), 0);
    assert_eq!(plan.start.get(&sc()).map(|id| id.seqno), Some(5));
    let started = manager.start_session(mc(), &block(mc(), 6), 1, subset(&[7, 9], 10), true);
    assert!(started.resume);
    let started = manager.start_session(sc(), &block(sc(), 5), 1, subset(&[7, 9], 10), true);
    assert!(started.resume);

    // a shard is gone
    let plan = manager.plan_sessions(&mc_data(7, 1, &[]), subset(&[7, 9], 10));
    assert_eq!(plan.keep.len(), 1);
    assert_eq!(plan.stop.get(&sc()), Some(&(sc(), 1, 10)));
    manager.stop_collator((sc(), 1, 10));
    assert_eq!(manager.collators_to_stop.len(), 1);
    manager.handle_collator_stopped((sc(), 1, 10));
    assert_eq!(manager.collators_to_stop.len(), 0);
    let ended = plan.finish.get(&sc()).unwrap().id();
    manager.collation_sessions_to_finish.push(ended);
    manager.collation_sessions_to_finish.push((mc(), 9, 9));
    manager.finish_collation_session(ended);
    assert_eq!(manager.collation_sessions_to_finish, vec![(mc(), 9, 9)]);

    // this node is no longer in the set
    let plan = manager.plan_sessions(&mc_data(8, 1, &[]), subset(&[8, 9], 10));
    assert_eq!((plan.keep.len(), plan.start.len()), (0, 0));
    assert_eq!(plan.finish.len(), 1);
    assert_eq!(manager.active_collators.len(), 0);
}

#[test]
fn a_subset_is_computed_by_the_crate() {
    let set = ValidatorSet {
        main: 2,
        list: vec![validator(7), validator(8), validator(9)],
    };
    let mut manager = manager();
    let plan = manager
        .refresh_collation_sessions(&mc_data(5, 3, &[sc()]), &set, false)
        .ok()
        .unwrap()
        .unwrap();
    assert_eq!(plan.subset.validators.len(), 2);
    assert_eq!(plan.session_seqno, 3);
    let ours = plan
        .subset
        .validators
        .iter()
        .any(|v| v.public_key == OUR_KEY);
    assert_eq!(plan.start.len(), if ours { 2 } else { 0 });

    let reference = everscale_types::models::ValidatorSet {
        utime_since: 0,
        utime_until: 0,
        main: std::num::NonZeroU16::new(2).unwrap(),
        total_weight: 3,
        list: [7u8, 8, 9]
            .iter()
            .map(|byte| everscale_types::models::ValidatorDescription {
                public_key: everscale_types::cell::HashBytes([*byte; 32]),
                weight: 1,
                adnl_addr: None,
                mc_seqno_since: 0,
                prev_total_weight: 0,
            })
            .collect(),
    };
    let (validators, short_hash) = reference.compute_mc_subset(3, false).unwrap();
    assert_eq!(plan.subset.short_hash, short_hash);
    for (got, expected) in plan.subset.validators.iter().zip(validators.iter()) {
        assert_eq!(got.public_key.0, expected.public_key.0);
    }

    // the same block once more
    assert!(matches!(
        manager.refresh_collation_sessions(&mc_data(5, 3, &[sc()]), &set, false),
        Ok(None)
    ));
    // a later one without collation
    let later = mc_data(6, 3, &[sc()]);
    let skip = ProcessMcStateUpdateMode::SkipCollation;
    assert!(matches!(
        manager.process_mc_state_update(&later, &set, false, skip),
        Ok(None)
    ));
    assert_eq!(manager.last_processed_mc_block_id, Some(block(mc(), 5)));
    // a validator that is listed twice counts once
    let mut twice = ValidatorSet {
        main: 3,
        list: vec![validator(7), validator(8), validator(7)],
    };
    twice.list[2].weight = 5;
    let start = ProcessMcStateUpdateMode::StartCollation {
        reset_collators: true,
    };
    let mut second = CollationManager::new(config(), OUR_KEY);
    let plan = second
        .process_mc_state_update(&later, &twice, false, start)
        .ok()
        .unwrap()
        .unwrap();
    assert_eq!(plan.subset.validators.len(), 2);
    let ours = plan.subset.validators.iter().find(|v| v.public_key == OUR_KEY);
    assert!(ours.is_some());
    // nobody to choose from
    let empty = ValidatorSet {
        main: 1,
        list: vec![],
    };
    let plan = manager
        .refresh_collation_sessions(&mc_data(6, 4, &[sc()]), &empty, false)
        .ok()
        .unwrap()
        .unwrap();
    assert_eq!(plan.subset.validators.len(), 0);
    assert_eq!((plan.keep.len(), plan.start.len()), (0, 0));
}

#[test]
fn a_node_finds_itself() {
    let set = vec![validator(1), validator(7)];
    assert_eq!(find_us_in_collators_set(&OUR_KEY, &set), Some(OUR_KEY));
    assert_eq!(find_us_in_collators_set(&HashBytes([9; 32]), &set), None);
}

#[test]
fn candidates_of_old_sessions_are_dropped() {
    let mut manager = collating();
    assert_eq!(
        manager.begin_collated_block_candidate(&block(sc(), 5), (sc(), 2, 9)),
        CandidateStart::Skip
    );
    assert_eq!(
        manager.active_collators.get(&sc()),
        Some(&CollatorState::Waiting)
    );
    manager.set_collator_state(&sc(), CollatorState::CancelPending);
    assert_eq!(
        manager.begin_collated_block_candidate(&block(sc(), 5), (sc(), 1, 9)),
        CandidateStart::Cancelled
    );
    assert_eq!(
        manager.begin_collated_block_candidate(&block(mc(), 5), (mc(), 1, 9)),
        CandidateStart::Store
    );
}

#[test]
fn when_to_sync_after_a_candidate() {
    let mut res = store_res();
    assert!(!check_candidate_should_sync(false, &res, Some(11), 3));
    res.applied_mc_queue_range = Some((11, 12));
    assert!(!check_candidate_should_sync(false, &res, Some(12), 3));
    res.applied_mc_queue_range = Some((11, 13));
    assert!(check_candidate_should_sync(false, &res, Some(13), 3));
    // a newer block was received
    assert!(!check_candidate_should_sync(true, &res, Some(15), 3));
    assert!(check_candidate_should_sync(true, &res, Some(14), 3));
    res.last_collated_mc_block_id = None;
    assert!(check_candidate_should_sync(false, &res, None, 100));
}

#[test]
fn a_master_candidate_goes_on() {
    let mut manager = collating();
    let plan = manager.handle_collated_block_candidate(
        &block(mc(), 5),
        false,
        &store_res(),
        &block(mc(), 4),
        1000,
        ForceMasterCollation::No,
        2500,
        None,
        Some(mc_data(5, 1, &[sc()])),
    );
    assert!(!plan.clear_uncommitted);
    assert!(matches!(
        plan.next,
        CandidateNext::Master {
            commit: false,
            next: MasterNext::Process(data)
        } if data.block_id.seqno == 5
    ));
    // the consensus config has changed
    let mut res = store_res();
    res.received_and_collated = true;
    let plan = manager.handle_collated_block_candidate(
        &block(mc(), 6),
        false,
        &res,
        &block(mc(), 5),
        1000,
        ForceMasterCollation::No,
        2500,
        Some(true),
        Some(mc_data(6, 1, &[sc()])),
    );
    assert!(matches!(
        plan.next,
        CandidateNext::Master {
            commit: true,
            next: MasterNext::Delayed
        }
    ));
    // the delayed state waits for its own block
    assert!(manager.take_delayed_mc_state_update(&block(mc(), 5)).is_none());
    assert!(manager.delayed_mc_state_update.is_some());
    let state = manager.take_delayed_mc_state_update(&block(mc(), 6));
    assert_eq!(state.map(|data| data.block_id.seqno), Some(6));
    assert!(manager.delayed_mc_state_update.is_none());
}

#[test]
fn a_mismatch_stops_the_collators() {
    let mut manager = collating();
    let mut res = store_res();
    res.block_mismatch = true;
    let plan = manager.handle_collated_block_candidate(
        &block(mc(), 5),
        false,
        &res,
        &block(mc(), 4),
        1000,
        ForceMasterCollation::No,
        2500,
        None,
        Some(mc_data(5, 1, &[sc()])),
    );
    assert!(plan.clear_uncommitted);
    assert!(matches!(plan.next, CandidateNext::Sync));
    assert_eq!(
        manager.active_collators.get(&mc()),
        Some(&CollatorState::Cancelled)
    );
    assert_eq!(
        manager.active_collators.get(&sc()),
        Some(&CollatorState::CancelPending)
    );
    assert!(manager.has_active());
    assert!(manager.handle_collation_cancelled(BlockIdShort {
        shard: sc(),
        seqno: 6
    }));

    let mut manager = collating();
    let plan = manager.handle_block_from_bc(&block(mc(), 5), &res, true, false);
    assert!(plan.clear_uncommitted && plan.cancel_validation);
    assert_eq!(
        manager.active_collators.get(&mc()),
        Some(&CollatorState::CancelPending)
    );
}

#[test]
fn received_blocks() {
    let mut manager = collating();
    // a shard block changes nothing
    let plan = manager.handle_block_from_bc(&block(sc(), 5), &store_res(), true, false);
    assert_eq!(plan.next, ReceivedNext::Nothing);
    assert!(!plan.cancel_validation);
    // far ahead: the running collators are cancelled first
    let mut res = store_res();
    res.applied_mc_queue_range = Some((11, 13));
    let plan = manager.handle_block_from_bc(&block(mc(), 13), &res, true, false);
    assert_eq!(plan.next, ReceivedNext::Nothing);
    assert_eq!(plan.cancel_collations.len(), 2);
    // nobody runs
    for shard in [mc(), sc()] {
        manager.set_collator_state(&shard, CollatorState::Waiting);
    }
    let plan = manager.handle_block_from_bc(&block(mc(), 13), &res, true, false);
    assert_eq!(plan.next, ReceivedNext::Sync);
    // not the last one of its batch
    let plan = manager.handle_block_from_bc(&block(mc(), 13), &res, false, false);
    assert_eq!(plan.next, ReceivedNext::Nothing);
    // collated here before
    res.applied_mc_queue_range = None;
    res.received_and_collated = true;
    let plan = manager.handle_block_from_bc(&block(mc(), 11), &res, true, false);
    assert_eq!(plan.next, ReceivedNext::Commit);
    // nothing was collated or synchronised to yet
    res.last_collated_mc_block_id = None;
    let plan = manager.handle_block_from_bc(&block(mc(), 11), &res, true, false);
    assert_eq!(plan.next, ReceivedNext::Sync);
    // a key block counts at once where the masterchain is not collated
    let mut follower = CollationManager::new(config(), OUR_KEY);
    let mut res = store_res();
    res.applied_mc_queue_range = Some((11, 11));
    let plan = follower.handle_block_from_bc(&block(mc(), 11), &res, false, true);
    assert_eq!(plan.next, ReceivedNext::Sync);
}

#[test]
fn steps_move_the_collators() {
    let mut manager = collating();
    let prev = block(mc(), 4);
    // the shard reports first and waits for the master
    let plan = manager.run_next_collation_step(&prev, sc(), 1000, ForceMasterCollation::No, 2500);
    assert!(matches!(plan, StepPlan::Wait));
    assert_eq!(
        manager.active_collators.get(&sc()),
        Some(&CollatorState::Waiting)
    );
    // the master resumes both
    let plan = manager.run_next_collation_step(&prev, mc(), 1000, ForceMasterCollation::No, 2500);
    match plan {
        StepPlan::TryCollate(shards) => assert!(shards.contains(&mc()) && shards.contains(&sc())),
        _ => panic!("wrong plan"),
    }
    assert_eq!(
        manager.active_collators.get(&sc()),
        Some(&CollatorState::Active)
    );
    // both exceed the interval
    let plan = manager.handle_collation_skipped(
        prev,
        BlockIdShort {
            shard: sc(),
            seqno: 6,
        },
        3000,
        ForceMasterCollation::No,
        2500,
    );
    assert!(matches!(plan, Some(StepPlan::TryCollate(shards)) if shards.is_empty()));
    let plan = manager.run_next_collation_step(&prev, mc(), 3100, ForceMasterCollation::No, 2500);
    match plan {
        StepPlan::CollateMaster(Some((id, time))) => {
            assert_eq!((id.shard, id.seqno, time), (mc(), 5, 3100));
        }
        _ => panic!("wrong plan"),
    }
    // a cancelled collator does not go on
    manager.set_collator_state(&sc(), CollatorState::CancelPending);
    let plan = manager.handle_collation_skipped(
        prev,
        BlockIdShort {
            shard: sc(),
            seqno: 6,
        },
        3000,
        ForceMasterCollation::No,
        2500,
    );
    assert!(plan.is_none());
}

#[test]
fn a_shard_candidate_steps_or_waits_for_the_others() {
    let mut manager = collating();
    let plan = manager.handle_collated_block_candidate(
        &block(sc(), 6),
        false,
        &store_res(),
        &block(mc(), 4),
        1000,
        ForceMasterCollation::No,
        2500,
        None,
        None,
    );
    assert!(matches!(plan.next, CandidateNext::Shard(StepPlan::Wait)));
    let plan = manager.handle_collated_block_candidate(
        &block(sc(), 6),
        true,
        &store_res(),
        &block(mc(), 4),
        1000,
        ForceMasterCollation::No,
        2500,
        None,
        None,
    );
    assert!(matches!(plan.next, CandidateNext::WaitForCollators));
}

#[test]
fn synchronisation() {
    let mut manager = manager();
    assert_eq!(manager.set_active_sync_info(10), Ok(()));
    assert_eq!(manager.set_active_sync_info(20), Err(10));
    // far ahead of the target
    assert!(!manager.enqueue_handle_block_from_bc(&block(sc(), 50)));
    assert!(!manager.enqueue_handle_block_from_bc(&block(mc(), 12)));
    assert!(manager.enqueue_handle_block_from_bc(&block(mc(), 13)));
    manager.complete_sync(&block(mc(), 10), 5000);
    assert_eq!(
        manager.get_sync_update_mode(),
        ProcessMcStateUpdateMode::SkipCollation
    );
    manager.clean_active_sync_info();
    manager.complete_sync(&block(mc(), 11), 6000);
    assert_eq!(
        manager.get_sync_update_mode(),
        ProcessMcStateUpdateMode::StartCollation {
            reset_collators: true
        }
    );
    assert_eq!(manager.collation_sync_state.mc_block_latest_chain_time, 6000);
    assert_eq!(
        manager.get_top_mc_block_id_for_next_collation(Some(block(mc(), 9))),
        Some(block(mc(), 11))
    );
    assert_eq!(
        manager.skip_diffs_upto(None, Some(block(mc(), 3))),
        Some(block(mc(), 11))
    );
    let slow = CollationManager::new(
        CollatorConfig::from_settings(3, false, true, Some(false)),
        OUR_KEY,
    );
    assert_eq!(slow.skip_diffs_upto(None, Some(block(mc(), 3))), None);
    assert_eq!(
        slow.get_queue_diffs_applied_to_mc_block_id(None, Some(block(mc(), 3))),
        Some(block(mc(), 3))
    );
}

#[test]
fn the_course_of_a_synchronisation() {
    let mut manager = manager();
    assert!(matches!(manager.begin_sync(None, None, None, true), Ok(None)));
    let start = manager
        .begin_sync(Some((10, 12)), None, Some(block(mc(), 3)), true)
        .unwrap()
        .unwrap();
    assert_eq!((start.first_applied.seqno, start.last_applied.seqno), (10, 12));
    assert!(start.clear_uncommitted);
    assert_eq!(start.skip_upto, Some(block(mc(), 3)));
    assert!(matches!(
        manager.begin_sync(Some((10, 14)), None, None, false),
        Err(12)
    ));
    // the queue could not be restored
    manager.clean_active_sync_info();
    assert!(manager
        .begin_sync(Some((10, 12)), None, None, false)
        .unwrap()
        .is_some());
    manager.complete_sync(&block(mc(), 12), 5_000);
    assert_eq!(
        manager.get_sync_update_mode(),
        ProcessMcStateUpdateMode::StartCollation {
            reset_collators: true
        }
    );
    // a block far ahead that comes before the state is processed still cancels it
    assert!(manager.enqueue_handle_block_from_bc(&block(mc(), 30)));
    assert_eq!(
        manager.get_sync_update_mode(),
        ProcessMcStateUpdateMode::SkipCollation
    );
    manager.clean_active_sync_info();
    assert!(manager.begin_sync(Some((13, 14)), None, None, false).is_ok());
    assert_eq!(
        manager.get_top_mc_block_id_for_next_collation(Some(block(mc(), 11))),
        Some(block(mc(), 12))
    );
}

#[test]
fn the_queue_is_restored() {
    let key = |lt: u64| QueueKey {
        lt,
        hash: HashBytes([0; 32]),
    };
    let mut bounds = ShardMap::new();
    bounds.insert(mc(), key(20));
    bounds.insert(sc(), key(50));
    let mut tails = ShardMap::new();
    tails.insert(mc(), vec![block(mc(), 4)]);
    tails.insert(sc(), vec![block(sc(), 9)]);
    let mut run = RestoreRun::new(None, ShardMap::new(), bounds, tails);
    assert_eq!(run.scans.len(), 2);

    // each block has messages up to ten times its number
    let mut applied = Vec::new();
    let mut checked = Vec::new();
    let mut subgraphs = vec![(6, 11), (5, 10)];
    let mut gc = 0;
    let mut event = RestoreEvent::Go;
    let finished = loop {
        event = match run.step(event) {
            RestoreAction::Again => RestoreEvent::Go,
            RestoreAction::LoadRefByMcSeqno(_) => RestoreEvent::RefByMcSeqno(1),
            RestoreAction::LoadDiff(id) => RestoreEvent::Diff(Some(key(10 * id.seqno as u64))),
            RestoreAction::LoadBlock(id) => {
                RestoreEvent::Block((block(id.shard, id.seqno - 1), None))
            }
            RestoreAction::ApplyStored { id, check_sequence }
            | RestoreAction::ApplyReceived { id, check_sequence } => {
                applied.push((id.shard, id.seqno));
                checked.push(check_sequence);
                RestoreEvent::Go
            }
            RestoreAction::PopSubgraph => {
                let (mc_seqno, sc_seqno) = subgraphs.pop().unwrap();
                RestoreEvent::Subgraph {
                    mc_seqno,
                    blocks: vec![
                        (block(mc(), mc_seqno), key(10 * mc_seqno as u64)),
                        (block(sc(), sc_seqno), key(10 * sc_seqno as u64)),
                    ],
                    is_last: subgraphs.is_empty(),
                }
            }
            // the queue has the shard block 10
            RestoreAction::AskDiffExists(id) => {
                RestoreEvent::DiffExists(id.shard == sc() && id.seqno == 10)
            }
            RestoreAction::SetGcBoundary => {
                gc += 1;
                RestoreEvent::Go
            }
            RestoreAction::Finish => break true,
            RestoreAction::Cancel => break false,
        };
    };
    assert!(finished);
    assert_eq!(gc, 2);
    assert_eq!(
        applied,
        vec![
            (mc(), 3),
            (mc(), 4),
            (sc(), 6),
            (sc(), 7),
            (sc(), 8),
            (sc(), 9),
            (mc(), 5),
            (mc(), 6),
            (sc(), 11)
        ]
    );
    // only the first diff of each shard is not checked
    assert_eq!(
        checked,
        vec![false, true, false, true, true, true, true, true, true]
    );
    assert_eq!(run.restore.applied_diffs_ids.len(), 9);

    // a diff is missing
    let mut bounds = ShardMap::new();
    bounds.insert(mc(), key(20));
    let mut tails = ShardMap::new();
    tails.insert(mc(), vec![block(mc(), 4)]);
    let mut run = RestoreRun::new(None, ShardMap::new(), bounds, tails);
    assert!(matches!(run.step(RestoreEvent::Go), RestoreAction::LoadDiff(_)));
    assert!(matches!(run.step(RestoreEvent::Diff(None)), RestoreAction::Cancel));
}

#[test]
fn processed_blocks_advance() {
    let mut manager = manager();
    assert!(manager.check_should_process_and_update_last_processed_mc_block(&block(mc(), 5)));
    assert!(!manager.check_should_process_and_update_last_processed_mc_block(&block(mc(), 5)));
    assert!(!manager.check_should_process_and_update_last_processed_mc_block(&block(mc(), 4)));
    let mut other = block(mc(), 5);
    other.root_hash = HashBytes([99; 32]);
    assert!(manager.check_should_process_and_update_last_processed_mc_block(&other));
    // numbers of more than 31 bits are above those of fewer
    for seqno in [0x7fff_ffff, 0x8000_0000, u32::MAX] {
        let next = block(mc(), seqno);
        assert!(manager.check_should_process_and_update_last_processed_mc_block(&next));
        assert!(!manager.check_should_process_and_update_last_processed_mc_block(&other));
    }
    assert_eq!(
        CollationManager::compare_mc_block_with(
            &block(mc(), 0x8000_0000),
            Some(&block(mc(), 0x7fff_ffff))
        ),
        (1, false)
    );
    assert_eq!(
        CollationManager::compare_mc_block_with(&block(mc(), 4), Some(&block(mc(), 6))),
        (-2, false)
    );
    assert_eq!(
        CollationManager::compare_mc_block_with(&block(mc(), u32::MAX), Some(&block(mc(), 0))),
        (-1, false)
    );
    assert_eq!(
        CollationManager::compare_mc_block_with(&block(mc(), 4), None),
        (0, false)
    );
}

#[test]
fn the_last_master_block_of_a_batch() {
    let batch = vec![block(mc(), 1), block(sc(), 2), block(mc(), 3), block(sc(), 4)];
    assert_eq!(find_last_mc_block(&batch), Some(block(mc(), 3)));
    assert_eq!(find_last_mc_block(&vec![block(sc(), 2)]), None);
    let marks = mark_last_mc_block(&batch);
    for (id, mark) in batch.iter().zip(marks) {
        assert_eq!(mark, *id == block(mc(), 3));
    }
    assert_eq!(mark_last_mc_block(&vec![block(sc(), 2)]), vec![false]);
}

#[test]
fn commits() {
    let extracted = ExtractedBlock::Extracted {
        collated: true,
        received_after_collation: false,
        top_processed_to_anchor: Some(4),
    };
    assert_eq!(
        plan_commit(extracted, None),
        CommitPlan {
            send_to_sync: true,
            commit_diff: true,
            notify_anchor: None
        }
    );
    let received = ExtractedBlock::Extracted {
        collated: true,
        received_after_collation: true,
        top_processed_to_anchor: Some(4),
    };
    assert_eq!(plan_commit(received, None).notify_anchor, Some(4));
    assert_eq!(
        plan_commit(ExtractedBlock::AlreadyExtracted, Some(9)),
        CommitPlan {
            send_to_sync: false,
            commit_diff: false,
            notify_anchor: Some(9)
        }
    );
    assert!(should_send_to_sync(true, false, false));
    assert!(!should_send_to_sync(true, true, false));
    let top = vec![(block(sc(), 2), true)];
    let blocks = blocks_to_commit(&block(mc(), 3), &top).unwrap();
    assert_eq!(blocks, vec![(block(sc(), 2), true), (block(mc(), 3), true)]);
    assert_eq!(blocks_to_commit(&block(sc(), 3), &top), None);
    let seqno = get_top_blocks_seqno(&block(mc(), 3), &TopShardBlocks::Known(vec![(sc(), 8)]));
    assert_eq!(seqno.get(&mc()), Some(&3));
    assert_eq!(seqno.get(&sc()), Some(&8));
    assert_eq!(
        get_top_blocks_seqno(&block(mc(), 3), &TopShardBlocks::NotFound).len(),
        0
    );
    assert_eq!(
        processed_to_source(&block(mc(), 0), false),
        ProcessedToSource::Nothing
    );
    assert_eq!(
        processed_to_source(&block(mc(), 1), false),
        ProcessedToSource::State
    );
    assert_eq!(
        processed_to_source(&block(mc(), 1), true),
        ProcessedToSource::Cache
    );
}

#[test]
fn boundaries_are_collected_from_the_cache_and_from_states() {
    let boundary = |partition: u16| {
        vec![PartitionProcessedTo {
            partition,
            processed_to: Vec::new(),
        }]
    };
    let other = ShardIdent {
        workchain: 0,
        prefix: 0x4000_0000_0000_0000,
    };
    let from_cache = || {
        vec![
            TopBlock {
                id: block(mc(), 5),
                updated: true,
                processed_to: Some(boundary(1)),
            },
            TopBlock {
                id: block(sc(), 7),
                updated: false,
                processed_to: None,
            },
            TopBlock {
                id: block(other, 0),
                updated: true,
                processed_to: None,
            },
        ]
    };
    assert_eq!(states_to_read(5, &from_cache()), vec![block(sc(), 7)]);
    assert!(states_to_read(0, &from_cache()).is_empty());
    let found = get_all_shards_processed_to_by_partitions_for_mc_block(
        5,
        from_cache(),
        vec![boundary(2)],
    );
    assert_eq!(found.len(), 3);
    assert_eq!(found.get(&mc()), Some(&(true, boundary(1))));
    assert_eq!(found.get(&sc()), Some(&(false, boundary(2))));
    assert_eq!(found.get(&other), Some(&(true, Vec::new())));
    let nothing =
        get_all_shards_processed_to_by_partitions_for_mc_block(0, from_cache(), Vec::new());
    assert_eq!(nothing.len(), 0);

    assert_eq!(block(sc(), 5).as_short_id(), BlockIdShort { shard: sc(), seqno: 5 });
    let shards = mc_data(5, 0, &[sc()]).shards;
    assert_eq!(notice_to_mempool(&block(mc(), 5), &vec![], 9), Some((5, 9)));
    assert_eq!(notice_to_mempool(&block(mc(), 5), &shards, 9), Some((5, 0)));
    assert_eq!(notice_to_mempool(&block(sc(), 5), &shards, 9), None);
}

#[test]
fn required_diffs_are_found_and_applied_in_order() {
    let key = |lt: u64| QueueKey {
        lt,
        hash: HashBytes([0; 32]),
    };
    let mut restore = QueueRestore::new(None, ShardMap::new());
    let mut scan = ShardScan::new(sc(), key(50), vec![block(sc(), 9)]);
    // blocks 9 and 8 are required, 7 is processed
    for (seqno, max_lt, required) in [(9, 90, true), (8, 80, true), (7, 50, false)] {
        match restore.next_block(&mut scan) {
            ScanAction::LoadDiff(id) => {
                assert_eq!(id.seqno, seqno);
                assert_eq!(restore.on_diff(&scan, &id, &key(max_lt)), required);
                if required {
                    scan.on_block(id, (block(sc(), seqno - 1), None));
                }
            }
            _ => panic!("a diff is needed"),
        }
    }
    assert!(matches!(
        restore.next_block(&mut scan),
        ScanAction::Finished
    ));
    // the oldest comes first, and only it is not checked
    assert_eq!(
        restore.next_diff_to_apply(&mut scan),
        Some((block(sc(), 8), false))
    );
    assert_eq!(
        restore.next_diff_to_apply(&mut scan),
        Some((block(sc(), 9), true))
    );
    assert_eq!(restore.next_diff_to_apply(&mut scan), None);
    // the diffs of received blocks follow
    assert!(restore.cached_diff_needed(&block(sc(), 10), &key(100), Some(&key(50))));
    assert!(!restore.cached_diff_needed(&block(sc(), 10), &key(50), Some(&key(50))));
    assert!(!restore.cached_diff_needed(&block(sc(), 0), &key(100), None));
    assert_eq!(restore.on_diff_exists(&block(sc(), 10), false), Some(true));
    assert_eq!(restore.on_diff_exists(&block(mc(), 3), false), Some(false));
    assert_eq!(restore.on_diff_exists(&block(mc(), 4), true), None);
    assert_eq!(restore.on_diff_exists(&block(mc(), 5), false), Some(true));
    assert_eq!(restore.applied_diffs_ids.len(), 5);
}

#[test]
fn the_persistent_state_covers_older_blocks() {
    let key = QueueKey::min();
    let mut applied = ShardMap::new();
    applied.insert(sc(), 3);
    let mut restore = QueueRestore::new(Some(block(mc(), 5)), applied);
    let mut scan = ShardScan::new(mc(), key, vec![block(mc(), 6), block(mc(), 5), block(mc(), 0)]);
    assert!(matches!(restore.next_block(&mut scan), ScanAction::LoadDiff(id) if id.seqno == 6));
    assert!(matches!(restore.next_block(&mut scan), ScanAction::Skip));
    assert!(matches!(restore.next_block(&mut scan), ScanAction::Skip));
    // every diff behind a covered block continues a sequence
    assert_eq!(restore.on_diff_exists(&block(mc(), 6), false), Some(true));

    let mut scan = ShardScan::new(sc(), key, vec![block(sc(), 9), block(sc(), 8), block(sc(), 3)]);
    match restore.next_block(&mut scan) {
        ScanAction::LoadRefByMcSeqno(id) => {
            assert!(matches!(restore.on_ref_by_mc_seqno(&id, 6), ScanAction::LoadDiff(_)));
            assert!(matches!(restore.on_ref_by_mc_seqno(&id, 5), ScanAction::Skip));
        }
        _ => panic!("the master block is needed"),
    }
    // reached before
    assert!(matches!(restore.next_block(&mut scan), ScanAction::Skip));
    // applied before
    assert!(matches!(restore.next_block(&mut scan), ScanAction::Skip));
}

#[test]
fn shard_maps() {
    let mut map: ShardMap<u32> = ShardMap::new();
    map.insert(sc(), 1);
    map.insert(mc(), 2);
    map.insert(sc(), 3);
    assert_eq!(map.len(), 2);
    assert_eq!(map.get(&sc()), Some(&3));
    assert_eq!(map.remove(&sc()), Some(3));
    assert_eq!(map.remove(&sc()), None);
    map.remove_masterchain();
    assert!(!map.contains_key(&mc()));
}

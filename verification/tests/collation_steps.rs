//! When the next master block is collated.
use tycho::ids::ShardIdent;
use tycho::manager::sync_state::{CollationSyncState, ForceMasterCollation, NextCollationStep};
use tycho::manager::CollationManager;

const MC_BLOCK_MIN_INTERVAL_MS: u64 = 2500;

fn detect(
    state: &mut CollationSyncState,
    shard: ShardIdent,
    ct: u64,
    force: ForceMasterCollation,
) -> NextCollationStep {
    let active_shards = vec![ShardIdent::masterchain(), ShardIdent::new_full(0)];
    CollationManager::detect_next_collation_step(
        state,
        active_shards,
        shard,
        ct,
        force,
        MC_BLOCK_MIN_INTERVAL_MS,
    )
}

#[test]
fn test_detect_next_collation_step() {
    let mut state = CollationSyncState::new();
    let mc_shard_id = ShardIdent::masterchain();
    let sc_shard_id = ShardIdent::new_full(0);
    let mut mc_anchor_ct: u64 = 10000;
    let mut sc_anchor_ct: u64 = 10000;

    // the first anchor exceeds the interval: the master waits for the shards
    let next_step = detect(
        &mut state,
        mc_shard_id,
        mc_anchor_ct,
        ForceMasterCollation::No,
    );
    assert!(matches!(next_step, NextCollationStep::ResumeAttemptsIn(sl) if sl.is_empty()));

    // the shard has the same anchor: collate the master
    let next_step = detect(
        &mut state,
        sc_shard_id,
        sc_anchor_ct,
        ForceMasterCollation::No,
    );
    assert!(matches!(next_step, NextCollationStep::CollateMaster(ct) if ct == sc_anchor_ct));
    CollationManager::renew_mc_block_latest_chain_time(&mut state, sc_anchor_ct);

    // the shard does not exceed the interval, and the master has not answered yet
    sc_anchor_ct += 1000;
    let next_step = detect(
        &mut state,
        sc_shard_id,
        sc_anchor_ct,
        ForceMasterCollation::No,
    );
    assert!(matches!(next_step, NextCollationStep::WaitForMasterStatus));

    // nor does the master: both go on
    mc_anchor_ct += 1000;
    let next_step = detect(
        &mut state,
        mc_shard_id,
        mc_anchor_ct,
        ForceMasterCollation::No,
    );
    assert!(
        matches!(next_step, NextCollationStep::ResumeAttemptsIn(sl) if sl.contains(&mc_shard_id) && sl.contains(&sc_shard_id))
    );

    // the shard goes on
    sc_anchor_ct += 1000;
    let next_step = detect(
        &mut state,
        sc_shard_id,
        sc_anchor_ct,
        ForceMasterCollation::No,
    );
    assert!(
        matches!(next_step, NextCollationStep::ResumeAttemptsIn(sl) if sl.contains(&sc_shard_id))
    );

    // the shard exceeds the interval and waits
    sc_anchor_ct += 1000;
    let next_step = detect(
        &mut state,
        sc_shard_id,
        sc_anchor_ct,
        ForceMasterCollation::No,
    );
    assert!(matches!(next_step, NextCollationStep::ResumeAttemptsIn(sl) if sl.is_empty()));

    // the master goes on
    mc_anchor_ct += 1000;
    let next_step = detect(
        &mut state,
        mc_shard_id,
        mc_anchor_ct,
        ForceMasterCollation::No,
    );
    assert!(
        matches!(next_step, NextCollationStep::ResumeAttemptsIn(sl) if sl.contains(&mc_shard_id))
    );

    // the interval is exceeded in every shard
    mc_anchor_ct += 1000;
    let next_step = detect(
        &mut state,
        mc_shard_id,
        mc_anchor_ct,
        ForceMasterCollation::No,
    );
    assert!(matches!(next_step, NextCollationStep::CollateMaster(ct) if ct == mc_anchor_ct));
    CollationManager::renew_mc_block_latest_chain_time(&mut state, mc_anchor_ct);

    // the shard waits for the master
    sc_anchor_ct += 1000;
    let next_step = detect(
        &mut state,
        sc_shard_id,
        sc_anchor_ct,
        ForceMasterCollation::No,
    );
    assert!(matches!(next_step, NextCollationStep::WaitForMasterStatus));

    // the master is forced, and the shard waits already
    let next_step = detect(
        &mut state,
        mc_shard_id,
        mc_anchor_ct,
        ForceMasterCollation::ByUprocessedMessages,
    );
    assert!(matches!(next_step, NextCollationStep::CollateMaster(ct) if ct == sc_anchor_ct));
    CollationManager::renew_mc_block_latest_chain_time(&mut state, sc_anchor_ct);

    // the master is forced again and waits for the shard
    let next_step = detect(
        &mut state,
        mc_shard_id,
        mc_anchor_ct,
        ForceMasterCollation::ByUprocessedMessages,
    );
    assert!(matches!(next_step, NextCollationStep::ResumeAttemptsIn(sl) if sl.is_empty()));

    // the master was forced: collate it
    sc_anchor_ct += 1000;
    let next_step = detect(
        &mut state,
        sc_shard_id,
        sc_anchor_ct,
        ForceMasterCollation::No,
    );
    assert!(matches!(next_step, NextCollationStep::CollateMaster(ct) if ct == sc_anchor_ct));
    CollationManager::renew_mc_block_latest_chain_time(&mut state, sc_anchor_ct);

    // the master goes on
    mc_anchor_ct += 1000;
    let next_step = detect(
        &mut state,
        mc_shard_id,
        mc_anchor_ct,
        ForceMasterCollation::No,
    );
    assert!(
        matches!(next_step, NextCollationStep::ResumeAttemptsIn(sl) if sl.contains(&mc_shard_id))
    );

    // the master goes on
    mc_anchor_ct += 1000;
    let next_step = detect(
        &mut state,
        mc_shard_id,
        mc_anchor_ct,
        ForceMasterCollation::No,
    );
    assert!(
        matches!(next_step, NextCollationStep::ResumeAttemptsIn(sl) if sl.contains(&mc_shard_id))
    );

    // the uncommitted chain of the shard is too long: it waits
    let next_step = detect(
        &mut state,
        sc_shard_id,
        sc_anchor_ct,
        ForceMasterCollation::ByUncommittedChain,
    );
    assert!(matches!(next_step, NextCollationStep::ResumeAttemptsIn(sl) if sl.is_empty()));

    // the master goes on
    mc_anchor_ct += 1000;
    let next_step = detect(
        &mut state,
        mc_shard_id,
        mc_anchor_ct,
        ForceMasterCollation::No,
    );
    assert!(
        matches!(next_step, NextCollationStep::ResumeAttemptsIn(sl) if sl.contains(&mc_shard_id))
    );

    // the master goes on
    mc_anchor_ct += 1000;
    let next_step = detect(
        &mut state,
        mc_shard_id,
        mc_anchor_ct,
        ForceMasterCollation::No,
    );
    assert!(
        matches!(next_step, NextCollationStep::ResumeAttemptsIn(sl) if sl.contains(&mc_shard_id))
    );

    // the interval is exceeded in the master, and the shard was forced
    mc_anchor_ct += 1000;
    let next_step = detect(
        &mut state,
        mc_shard_id,
        mc_anchor_ct,
        ForceMasterCollation::No,
    );
    assert!(matches!(next_step, NextCollationStep::CollateMaster(ct) if ct == mc_anchor_ct));
    CollationManager::renew_mc_block_latest_chain_time(&mut state, mc_anchor_ct);

    // the shard takes many anchors at once and exceeds the interval
    sc_anchor_ct += 6000;
    let next_step = detect(
        &mut state,
        sc_shard_id,
        sc_anchor_ct,
        ForceMasterCollation::No,
    );
    assert!(matches!(next_step, NextCollationStep::ResumeAttemptsIn(sl) if sl.is_empty()));

    // the master goes on
    mc_anchor_ct += 1000;
    let next_step = detect(
        &mut state,
        mc_shard_id,
        mc_anchor_ct,
        ForceMasterCollation::No,
    );
    assert!(
        matches!(next_step, NextCollationStep::ResumeAttemptsIn(sl) if sl.contains(&mc_shard_id))
    );

    // the master goes on
    mc_anchor_ct += 1000;
    let next_step = detect(
        &mut state,
        mc_shard_id,
        mc_anchor_ct,
        ForceMasterCollation::No,
    );
    assert!(
        matches!(next_step, NextCollationStep::ResumeAttemptsIn(sl) if sl.contains(&mc_shard_id))
    );

    // the interval is exceeded everywhere
    mc_anchor_ct += 1000;
    let next_step = detect(
        &mut state,
        mc_shard_id,
        mc_anchor_ct,
        ForceMasterCollation::No,
    );
    assert!(matches!(next_step, NextCollationStep::CollateMaster(ct) if ct == mc_anchor_ct));
    CollationManager::renew_mc_block_latest_chain_time(&mut state, mc_anchor_ct);
}

//! A configuration to try things with.
use crate::engine::config::{
    ConsensusConfig, GenesisInfo, MempoolConfigBuilder, MempoolMergedConfig, MempoolNodeConfig,
    NodeConfig,
};
use crate::models::parts::Round;
use vstd::prelude::*;

verus! {

/// The consensus parameters of the configuration.
#[verifier::allow_in_spec]
pub fn test_consensus_config() -> ConsensusConfig
    returns
        (ConsensusConfig {
            clock_skew_millis: 5_000,
            payload_batch_bytes: 786_432,
            commit_history_rounds: 20,
            deduplicate_rounds: 20,
            max_consensus_lag_rounds: 20,
            payload_buffer_bytes: 52_428_800,
            broadcast_retry_millis: 150,
            download_retry_millis: 25,
            download_peers: 2,
            download_tasks: 1,
            sync_support_rounds: 15,
        }),
{
    ConsensusConfig {
        clock_skew_millis: 5_000,
        payload_batch_bytes: 786_432,
        commit_history_rounds: 20,
        deduplicate_rounds: 20,
        max_consensus_lag_rounds: 20,
        payload_buffer_bytes: 52_428_800,
        broadcast_retry_millis: 150,
        download_retry_millis: 25,
        download_peers: 2,
        download_tasks: 1,
        sync_support_rounds: 15,
    }
}

/// A configuration with a genesis at the given round. The settings of the node
/// are the default ones but for the period in which data are deleted.
pub fn default_test_config(known: &mut NodeConfig, genesis_round: Round) -> (r: MempoolMergedConfig)
    ensures
        r.conf.consensus == test_consensus_config(),
        r.conf.genesis_round == genesis_round,
        r.conf.point_max_bytes == crate::models::point::point_max_size(786_432),
        r.genesis_info == (GenesisInfo { start_round: 0, genesis_millis: 0 }),
        r.overlay_id@ == crate::outside::streebog256_of(
            crate::engine::config::overlay_data(genesis_round, 0, test_consensus_config()),
        ),
        old(known).value is None ==> final(known).value == Some(
            MempoolNodeConfig {
                log_truncate_long_values: true,
                clean_db_period_rounds: 10,
                cache_future_broadcasts_rounds: 105,
                max_blocking_tasks: 300,
            },
        ),
        old(known).value is Some ==> final(known).value == old(known).value,
{
    let consensus_config = test_consensus_config();
    let mut node_config = MempoolNodeConfig::default();
    node_config.clean_db_period_rounds = 10;
    let (mut builder, _same) = MempoolConfigBuilder::new(known, &node_config);
    builder.set_genesis(GenesisInfo::default());
    let set = builder.set_consensus_config(&consensus_config);
    assert(set is Ok);
    assert(crate::models::point::point_max_size(786_432) <= 0xffff_ffff) by {
        assert(crate::tl_bytes::bytes_size(48) == 52);
        assert(786_432nat / 48nat == 16_384);
    }
    match builder.build(genesis_round) {
        Ok(config) => config,
        Err(_) => vstd::pervasive::unreached(),
    }
}

} // verus!

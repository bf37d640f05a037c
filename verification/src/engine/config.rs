//! Configuration of the mempool.
use crate::bytes::write_be;
use crate::ids::HashBytes;
use crate::models::link::Link;
use crate::models::parts::{KeyPair, PeerId, Round, UnixTime};
use crate::models::peer_map::PeerMap;
use crate::models::point::Point;
use crate::models::point_info::PointData;
use crate::outside::streebog256;
use crate::tl::TlScheme;
use vstd::prelude::*;

verus! {

/// The parameters of the consensus that all nodes share.
#[derive(Clone, Copy, Debug, PartialEq, Eq, Structural)]
pub struct ConsensusConfig {
    pub clock_skew_millis: u16,
    pub payload_batch_bytes: u32,
    pub commit_history_rounds: u16,
    pub deduplicate_rounds: u16,
    pub max_consensus_lag_rounds: u16,
    pub payload_buffer_bytes: u32,
    pub broadcast_retry_millis: u16,
    pub download_retry_millis: u16,
    pub download_peers: u8,
    pub download_tasks: u16,
    pub sync_support_rounds: u16,
}

/// Where the mempool begins.
#[derive(Clone, Copy, Debug, PartialEq, Eq, Structural)]
pub struct GenesisInfo {
    pub start_round: u32,
    pub genesis_millis: u64,
}

impl Default for GenesisInfo {
    fn default() -> (r: Self)
        ensures
            r == (GenesisInfo { start_round: 0, genesis_millis: 0 }),
    {
        GenesisInfo { start_round: 0, genesis_millis: 0 }
    }
}

/// Settings of this node alone.
#[derive(Clone, Copy, Debug, PartialEq, Eq, Structural)]
pub struct MempoolNodeConfig {
    /// Whether long values are truncated in logs.
    pub log_truncate_long_values: bool,
    /// How often, in rounds, obsolete data are deleted. Not zero.
    pub clean_db_period_rounds: u16,
    /// How many rounds beyond the current one broadcasts are cached for.
    pub cache_future_broadcasts_rounds: u16,
    /// How many blocking tasks can run.
    pub max_blocking_tasks: u16,
}

impl Default for MempoolNodeConfig {
    fn default() -> (r: Self)
        ensures
            r == (MempoolNodeConfig {
                log_truncate_long_values: true,
                clean_db_period_rounds: 105,
                cache_future_broadcasts_rounds: 105,
                max_blocking_tasks: 300,
            }),
    {
        MempoolNodeConfig {
            log_truncate_long_values: true,
            clean_db_period_rounds: 105,
            cache_future_broadcasts_rounds: 105,
            max_blocking_tasks: 300,
        }
    }
}

/// Holds the settings of the node once they are known. They never change
/// afterwards.
#[derive(Clone, Copy, Debug)]
pub struct NodeConfig {
    pub value: Option<MempoolNodeConfig>,
}

impl NodeConfig {
    /// A holder without settings.
    pub fn new() -> (r: Self)
        ensures
            r.value is None,
    {
        NodeConfig { value: None }
    }

    /// The settings, which have to be known.
    pub fn get(&self) -> (r: &MempoolNodeConfig)
        requires
            self.value is Some,
        ensures
            *r == self.value->0,
    {
        match &self.value {
            Some(config) => config,
            None => vstd::pervasive::unreached(),
        }
    }

    /// Sets the settings unless they are known, and says whether they are now
    /// the given ones.
    pub fn get_or_init(&mut self, node_config: &MempoolNodeConfig) -> (r: bool)
        ensures
            final(self).value == Some(
                match old(self).value {
                    Some(known) => known,
                    None => *node_config,
                },
            ),
            r == (final(self).value == Some(*node_config)),
    {
        match self.value {
            Some(known) => known == *node_config,
            None => {
                self.value = Some(*node_config);
                true
            },
        }
    }
}

/// Values that can be changed at run time by a key block.
#[derive(Clone, Copy, Debug, PartialEq, Eq, Structural)]
pub struct MempoolConfig {
    pub consensus: ConsensusConfig,
    pub genesis_round: Round,
    /// Estimated hard limit on the size of a serialized point.
    pub point_max_bytes: usize,
}

/// The configuration that a mempool runs with.
#[derive(Clone, Copy, Debug)]
pub struct MempoolMergedConfig {
    pub genesis_info: GenesisInfo,
    pub conf: MempoolConfig,
    /// Names the overlay in which the nodes of the same configuration meet.
    pub overlay_id: HashBytes,
}

/// Why a configuration is not accepted.
#[derive(Clone, Copy, Debug, PartialEq, Eq, Structural)]
pub enum ConfigError {
    /// The greatest lag is less than the depth of a commit.
    LagBelowCommitDepth,
    /// The buffer of externals is smaller than one message of them.
    BufferBelowBatch,
    /// The genesis info is not known.
    NoGenesis,
    /// The consensus config is not known.
    NoConsensusConfig,
}

/// What the name of an overlay is made of: the numbers that nodes have to agree
/// in, each in 16 bytes.
pub open spec fn overlay_data(
    genesis_round: Round,
    genesis_millis: u64,
    consensus: ConsensusConfig,
) -> Seq<u8> {
    crate::bytes::be_bytes(16, genesis_round.0 as nat) + crate::bytes::be_bytes(
        16,
        genesis_millis as nat,
    ) + crate::bytes::be_bytes(
        16,
        consensus.clock_skew_millis as nat,
    ) + crate::bytes::be_bytes(16, consensus.payload_batch_bytes as nat) + crate::bytes::be_bytes(
        16,
        consensus.commit_history_rounds as nat,
    ) + crate::bytes::be_bytes(16, consensus.deduplicate_rounds as nat) + crate::bytes::be_bytes(
        16,
        consensus.max_consensus_lag_rounds as nat,
    ) + crate::bytes::be_bytes(16, consensus.sync_support_rounds as nat)
}

/// The bytes that name an overlay differ if any of the numbers differs that nodes
/// have to agree in.
pub proof fn law_overlay_data_is_injective(
    round_a: Round,
    millis_a: u64,
    a: ConsensusConfig,
    round_b: Round,
    millis_b: u64,
    b: ConsensusConfig,
)
    requires
        overlay_data(round_a, millis_a, a) == overlay_data(round_b, millis_b, b),
    ensures
        round_a == round_b,
        millis_a == millis_b,
        a.clock_skew_millis == b.clock_skew_millis,
        a.payload_batch_bytes == b.payload_batch_bytes,
        a.commit_history_rounds == b.commit_history_rounds,
        a.deduplicate_rounds == b.deduplicate_rounds,
        a.max_consensus_lag_rounds == b.max_consensus_lag_rounds,
        a.sync_support_rounds == b.sync_support_rounds,
{
    let s = overlay_data(round_a, millis_a, a);
    let t = overlay_data(round_b, millis_b, b);
    crate::bytes::lemma_be_bytes(16, round_a.0 as nat, round_b.0 as nat);
    crate::bytes::lemma_be_bytes(16, round_b.0 as nat, round_a.0 as nat);
    crate::bytes::lemma_be_bytes(16, millis_a as nat, millis_b as nat);
    crate::bytes::lemma_be_bytes(16, millis_b as nat, millis_a as nat);
    crate::bytes::lemma_be_bytes(16, a.clock_skew_millis as nat, b.clock_skew_millis as nat);
    crate::bytes::lemma_be_bytes(16, b.clock_skew_millis as nat, a.clock_skew_millis as nat);
    crate::bytes::lemma_be_bytes(16, a.payload_batch_bytes as nat, b.payload_batch_bytes as nat);
    crate::bytes::lemma_be_bytes(16, b.payload_batch_bytes as nat, a.payload_batch_bytes as nat);
    crate::bytes::lemma_be_bytes(16, a.commit_history_rounds as nat, b.commit_history_rounds as nat);
    crate::bytes::lemma_be_bytes(16, b.commit_history_rounds as nat, a.commit_history_rounds as nat);
    crate::bytes::lemma_be_bytes(16, a.deduplicate_rounds as nat, b.deduplicate_rounds as nat);
    crate::bytes::lemma_be_bytes(16, b.deduplicate_rounds as nat, a.deduplicate_rounds as nat);
    crate::bytes::lemma_be_bytes(16, a.max_consensus_lag_rounds as nat, b.max_consensus_lag_rounds as nat);
    crate::bytes::lemma_be_bytes(16, b.max_consensus_lag_rounds as nat, a.max_consensus_lag_rounds as nat);
    crate::bytes::lemma_be_bytes(16, a.sync_support_rounds as nat, b.sync_support_rounds as nat);
    crate::bytes::lemma_be_bytes(16, b.sync_support_rounds as nat, a.sync_support_rounds as nat);
    assert(s.subrange(0, 16) =~= crate::bytes::be_bytes(16, round_a.0 as nat));
    assert(t.subrange(0, 16) =~= crate::bytes::be_bytes(16, round_b.0 as nat));
    assert(s.subrange(16, 32) =~= crate::bytes::be_bytes(16, millis_a as nat));
    assert(t.subrange(16, 32) =~= crate::bytes::be_bytes(16, millis_b as nat));
    assert(s.subrange(32, 48) =~= crate::bytes::be_bytes(16, a.clock_skew_millis as nat));
    assert(t.subrange(32, 48) =~= crate::bytes::be_bytes(16, b.clock_skew_millis as nat));
    assert(s.subrange(48, 64) =~= crate::bytes::be_bytes(16, a.payload_batch_bytes as nat));
    assert(t.subrange(48, 64) =~= crate::bytes::be_bytes(16, b.payload_batch_bytes as nat));
    assert(s.subrange(64, 80) =~= crate::bytes::be_bytes(16, a.commit_history_rounds as nat));
    assert(t.subrange(64, 80) =~= crate::bytes::be_bytes(16, b.commit_history_rounds as nat));
    assert(s.subrange(80, 96) =~= crate::bytes::be_bytes(16, a.deduplicate_rounds as nat));
    assert(t.subrange(80, 96) =~= crate::bytes::be_bytes(16, b.deduplicate_rounds as nat));
    assert(s.subrange(96, 112) =~= crate::bytes::be_bytes(16, a.max_consensus_lag_rounds as nat));
    assert(t.subrange(96, 112) =~= crate::bytes::be_bytes(16, b.max_consensus_lag_rounds as nat));
    assert(s.subrange(112, 128) =~= crate::bytes::be_bytes(16, a.sync_support_rounds as nat));
    assert(t.subrange(112, 128) =~= crate::bytes::be_bytes(16, b.sync_support_rounds as nat));
}

impl MempoolMergedConfig {
    /// The genesis info.
    #[verifier::allow_in_spec]
    pub fn genesis_info(&self) -> GenesisInfo
        returns
            self.genesis_info,
    {
        self.genesis_info
    }

    /// The consensus parameters.
    pub fn consensus(&self) -> (r: &ConsensusConfig)
        ensures
            *r == self.conf.consensus,
    {
        &self.conf.consensus
    }

    /// The author of the genesis: the owner of the key that is the name of the
    /// overlay.
    pub fn genesis_author(&self) -> (r: PeerId)
        ensures
            r@ == crate::outside::public_key_of(self.overlay_id@),
    {
        KeyPair::from_secret(self.overlay_id).public
    }

    /// The first point: without payload and dependencies, and its own anchor.
    pub fn genesis(&self, ids: &TlScheme) -> (r: Point)
        requires
            self.conf.point_max_bytes <= isize::MAX as usize,
        ensures
            exists|key_pair: KeyPair, data: PointData|
                #![trigger genesis_parts(*self, key_pair, data)]
                genesis_parts(*self, key_pair, data) && crate::models::point::made_by(
                    *ids,
                    key_pair,
                    key_pair.public,
                    self.conf.genesis_round,
                    Seq::empty(),
                    data,
                    r,
                ),
    {
        let key_pair = KeyPair::from_secret(self.overlay_id);
        let millis = UnixTime::from_millis(self.genesis_info.genesis_millis);
        let payload: Vec<Vec<u8>> = Vec::new();
        assert(crate::tl_bytes::views(payload@) =~= Seq::<Seq<u8>>::empty());
        let data = PointData {
            time: millis,
            includes: PeerMap::new(),
            witness: PeerMap::new(),
            evidence: PeerMap::new(),
            anchor_trigger: Link::ToSelf,
            anchor_proof: Link::ToSelf,
            anchor_time: millis,
        };
        assert(genesis_parts(*self, key_pair, data));
        Point::new(
            ids,
            &key_pair,
            key_pair.public,
            self.conf.genesis_round,
            &payload,
            data,
            &self.conf,
        )
    }
}

/// The key pair and the data of a genesis.
pub open spec fn genesis_parts(
    config: MempoolMergedConfig,
    key_pair: KeyPair,
    data: PointData,
) -> bool {
    &&& key_pair.wf()
    &&& key_pair.secret == config.overlay_id
    &&& data.time.0 == config.genesis_info.genesis_millis
    &&& data.anchor_time == data.time
    &&& data.includes.entries@.len() == 0
    &&& data.witness.entries@.len() == 0
    &&& data.evidence.entries@.len() == 0
    &&& data.anchor_trigger is ToSelf
    &&& data.anchor_proof is ToSelf
}

/// Gathers what a configuration is made of.
#[derive(Clone, Copy, Debug)]
pub struct MempoolConfigBuilder {
    pub genesis_info: Option<GenesisInfo>,
    pub consensus_config: Option<ConsensusConfig>,
}

impl MempoolConfigBuilder {
    /// A builder that knows nothing yet. The settings of the node are set, unless
    /// they were before; the flag says whether they are the given ones.
    pub fn new(known: &mut NodeConfig, node_config: &MempoolNodeConfig) -> (r: (Self, bool))
        ensures
            r.0.genesis_info is None,
            r.0.consensus_config is None,
            final(known).value == Some(
                match old(known).value {
                    Some(value) => value,
                    None => *node_config,
                },
            ),
            r.1 == (final(known).value == Some(*node_config)),
    {
        let same = known.get_or_init(node_config);
        (MempoolConfigBuilder { genesis_info: None, consensus_config: None }, same)
    }

    /// Sets the consensus parameters if they fit together.
    pub fn set_consensus_config(&mut self, consensus_config: &ConsensusConfig) -> (r: Result<
        (),
        ConfigError,
    >)
        ensures
            final(self).genesis_info == old(self).genesis_info,
            r == (if consensus_config.max_consensus_lag_rounds
                < consensus_config.commit_history_rounds {
                Err::<(), ConfigError>(ConfigError::LagBelowCommitDepth)
            } else if consensus_config.payload_buffer_bytes < consensus_config.payload_batch_bytes {
                Err(ConfigError::BufferBelowBatch)
            } else {
                Ok(())
            }),
            final(self).consensus_config == (if r is Ok {
                Some(*consensus_config)
            } else {
                old(self).consensus_config
            }),
    {
        if consensus_config.max_consensus_lag_rounds < consensus_config.commit_history_rounds {
            return Err(ConfigError::LagBelowCommitDepth);
        }
        if consensus_config.payload_buffer_bytes < consensus_config.payload_batch_bytes {
            return Err(ConfigError::BufferBelowBatch);
        }
        self.consensus_config = Some(*consensus_config);
        Ok(())
    }

    /// Sets the genesis info.
    pub fn set_genesis(&mut self, info: GenesisInfo)
        ensures
            final(self).genesis_info == Some(info),
            final(self).consensus_config == old(self).consensus_config,
    {
        self.genesis_info = Some(info);
    }

    /// The consensus parameters.
    #[verifier::allow_in_spec]
    pub fn get_consensus_config(&self) -> Option<ConsensusConfig>
        returns
            self.consensus_config,
    {
        self.consensus_config
    }

    /// The genesis info.
    #[verifier::allow_in_spec]
    pub fn get_genesis(&self) -> Option<GenesisInfo>
        returns
            self.genesis_info,
    {
        self.genesis_info
    }

    /// The configuration, if everything is known. `genesis_round` is the start
    /// round aligned to the beginning of a wave.
    pub fn build(&self, genesis_round: Round) -> (r: Result<MempoolMergedConfig, ConfigError>)
        requires
            self.consensus_config matches Some(c) ==> crate::models::point::point_max_size(
                c.payload_batch_bytes as nat,
            ) <= usize::MAX,
        ensures
            match (self.genesis_info, self.consensus_config) {
                (None, _) => r == Err::<MempoolMergedConfig, ConfigError>(ConfigError::NoGenesis),
                (Some(_), None) => r == Err::<MempoolMergedConfig, ConfigError>(
                    ConfigError::NoConsensusConfig,
                ),
                (Some(genesis_info), Some(consensus)) => {
                    &&& r matches Ok(config)
                    &&& config.genesis_info == genesis_info
                    &&& config.conf.consensus == consensus
                    &&& config.conf.genesis_round == genesis_round
                    &&& config.conf.point_max_bytes == crate::models::point::point_max_size(
                        consensus.payload_batch_bytes as nat,
                    )
                    &&& config.overlay_id@ == crate::outside::streebog256_of(
                        overlay_data(genesis_round, genesis_info.genesis_millis, consensus),
                    )
                },
            },
    {
        let genesis_info = match self.genesis_info {
            Some(info) => info,
            None => return Err(ConfigError::NoGenesis),
        };
        let consensus = match self.consensus_config {
            Some(config) => config,
            None => return Err(ConfigError::NoConsensusConfig),
        };
        let conf = MempoolConfig {
            consensus,
            genesis_round,
            point_max_bytes: Point::max_byte_size(&consensus),
        };
        let mut data: Vec<u8> = Vec::new();
        write_be(&mut data, 16, genesis_round.0 as u64);
        write_be(&mut data, 16, genesis_info.genesis_millis);
        write_be(&mut data, 16, consensus.clock_skew_millis as u64);
        write_be(&mut data, 16, consensus.payload_batch_bytes as u64);
        write_be(&mut data, 16, consensus.commit_history_rounds as u64);
        write_be(&mut data, 16, consensus.deduplicate_rounds as u64);
        write_be(&mut data, 16, consensus.max_consensus_lag_rounds as u64);
        write_be(&mut data, 16, consensus.sync_support_rounds as u64);
        assert(data@ =~= overlay_data(genesis_round, genesis_info.genesis_millis, consensus));
        let overlay_id = streebog256(data.as_slice());
        Ok(MempoolMergedConfig { genesis_info, conf, overlay_id })
    }
}

/// Whether the history of points is read from the newest round on, and points
/// that were found invalid are validated again. By default they keep their
/// stored status and are read from the oldest round on.
#[derive(Clone, Copy, Debug, PartialEq, Eq, Structural)]
pub struct FixHistoryFlag(pub bool);

impl Default for FixHistoryFlag {
    fn default() -> (r: Self)
        ensures
            !r.0,
    {
        FixHistoryFlag(false)
    }
}

/// An overlay is named by eight numbers of sixteen bytes each, the highest byte first:
/// the round and the time of the genesis, then the clock skew, the size of a batch, the
/// depth of a commit, the rounds of deduplication, the greatest lag and the rounds of
/// sync.
pub proof fn law_overlay_data_layout(
    genesis_round: Round,
    genesis_millis: u64,
    consensus: ConsensusConfig,
)
    ensures
        ({
            let data = overlay_data(genesis_round, genesis_millis, consensus);
            &&& data.len() == 128
            &&& crate::bytes::be_nat(data.subrange(0, 16)) == genesis_round.0
            &&& crate::bytes::be_nat(data.subrange(16, 32)) == genesis_millis
            &&& crate::bytes::be_nat(data.subrange(32, 48)) == consensus.clock_skew_millis
            &&& crate::bytes::be_nat(data.subrange(48, 64)) == consensus.payload_batch_bytes
            &&& crate::bytes::be_nat(data.subrange(64, 80)) == consensus.commit_history_rounds
            &&& crate::bytes::be_nat(data.subrange(80, 96)) == consensus.deduplicate_rounds
            &&& crate::bytes::be_nat(data.subrange(96, 112)) == consensus.max_consensus_lag_rounds
            &&& crate::bytes::be_nat(data.subrange(112, 128)) == consensus.sync_support_rounds
        }),
{
    let data = overlay_data(genesis_round, genesis_millis, consensus);
    crate::bytes::law_sixteen_bytes_of_a_number(genesis_round.0 as u64);
    crate::bytes::law_sixteen_bytes_of_a_number(genesis_millis);
    crate::bytes::law_sixteen_bytes_of_a_number(consensus.clock_skew_millis as u64);
    crate::bytes::law_sixteen_bytes_of_a_number(consensus.payload_batch_bytes as u64);
    crate::bytes::law_sixteen_bytes_of_a_number(consensus.commit_history_rounds as u64);
    crate::bytes::law_sixteen_bytes_of_a_number(consensus.deduplicate_rounds as u64);
    crate::bytes::law_sixteen_bytes_of_a_number(consensus.max_consensus_lag_rounds as u64);
    crate::bytes::law_sixteen_bytes_of_a_number(consensus.sync_support_rounds as u64);
    assert(data.subrange(0, 16) =~= crate::bytes::be_bytes(16, genesis_round.0 as nat));
    assert(data.subrange(16, 32) =~= crate::bytes::be_bytes(16, genesis_millis as nat));
    assert(data.subrange(32, 48) =~= crate::bytes::be_bytes(
        16,
        consensus.clock_skew_millis as nat,
    ));
    assert(data.subrange(48, 64) =~= crate::bytes::be_bytes(
        16,
        consensus.payload_batch_bytes as nat,
    ));
    assert(data.subrange(64, 80) =~= crate::bytes::be_bytes(
        16,
        consensus.commit_history_rounds as nat,
    ));
    assert(data.subrange(80, 96) =~= crate::bytes::be_bytes(
        16,
        consensus.deduplicate_rounds as nat,
    ));
    assert(data.subrange(96, 112) =~= crate::bytes::be_bytes(
        16,
        consensus.max_consensus_lag_rounds as nat,
    ));
    assert(data.subrange(112, 128) =~= crate::bytes::be_bytes(
        16,
        consensus.sync_support_rounds as nat,
    ));
}

/// The genesis is made with the key that the name of the overlay is, at the time of the
/// genesis, which is that of its anchor too. It depends on no point and is its own
/// anchor.
pub proof fn law_genesis_depends_on_nothing(
    config: MempoolMergedConfig,
    key_pair: KeyPair,
    data: PointData,
)
    requires
        genesis_parts(config, key_pair, data),
    ensures
        key_pair.secret == config.overlay_id,
        key_pair.public@ == crate::outside::public_key_of(config.overlay_id@),
        data.time.0 == config.genesis_info.genesis_millis,
        data.anchor_time.0 == config.genesis_info.genesis_millis,
        data@.includes.len() == 0,
        data@.witness.len() == 0,
        data@.evidence.len() == 0,
        data.anchor_trigger is ToSelf,
        data.anchor_proof is ToSelf,
{
}

} // verus!

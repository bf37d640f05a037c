//! Blocks, zerostates, external messages, and what nodes hear of them.
use everscale_types::boc::{Boc, BocRepr};
use everscale_types::cell::{Cell, CellBuilder};
use everscale_types::merkle::MerkleUpdate;
use everscale_types::models::{self, Lazy};
use tycho::block::{blocks_by_shard, construct_prev_ids, BlockError, BlockStuff};
use tycho::cells::{BlockHeader, BocRoot, ConfigData, ConsensusInfo, PrevBlockRef};
use tycho::config_action::{
    check_config_data, create_message, prepare_action, signature_id, Action, ActionError,
    ConfigAccount,
};
use tycho::ids::{BlockId, BlockIdShort, HashBytes, ShardIdent};
use tycho::mempool::{check_message_root, Deduplicator, Parser};
use tycho::dag::threshold::ThresholdCount;
use tycho::models::parts::{Digest, KeyPair, Signature, UnixTime};
use tycho::prepare::{ActualState, Phase, PrepareError, PrepareState};
use tycho::queue::addr::{IntAddr, StdAddr, VarAddr};
use tycho::queue::key::QueueKey;
use tycho::shard_map::ShardMap;
use tycho::starter::{
    load_zerostate, make_zerostate_id, FileZerostateProvider, StarterConfig, ZerostateError,
};
use tycho::state_node::{
    block_proof_signatures, process_signatures, store_signatures, AcceptedBlock, BlockIdToWait,
    CollatorSyncContext, StateNode,
};
use tycho::text::{get_short_addr_string, get_short_hash_string};
use tycho::types::{
    supported_capabilities, BlockRef, BlockSignatures, CollationSessionInfo, CollatorConfig,
    detect_top_processed_to_anchor, McData, McState, ShardDescriptionShort, ShortAddr, ValidatedBlock, ValidatorSubsetInfo,
};

fn outside_shard(shard: ShardIdent) -> models::ShardIdent {
    models::ShardIdent::new(shard.workchain, shard.prefix).unwrap()
}

fn our_shard(shard: models::ShardIdent) -> ShardIdent {
    ShardIdent {
        workchain: shard.workchain(),
        prefix: shard.prefix(),
    }
}

fn id_of(shard: ShardIdent, seqno: u32, data: &[u8]) -> BlockId {
    BlockId {
        shard,
        seqno,
        root_hash: HashBytes(Boc::decode(data).unwrap().repr_hash().0),
        file_hash: HashBytes(*blake3::hash(data).as_bytes()),
    }
}

fn block_boc(info: &models::BlockInfo, extra: &models::BlockExtra) -> Vec<u8> {
    let block = models::Block {
        global_id: 0,
        info: Lazy::new(info).unwrap(),
        value_flow: Lazy::new(&models::ValueFlow::default()).unwrap(),
        state_update: Lazy::new(&MerkleUpdate::default()).unwrap(),
        out_msg_queue_updates: models::OutMsgQueueUpdates {
            diff_hash: Default::default(),
        },
        extra: Lazy::new(extra).unwrap(),
    };
    Boc::encode(CellBuilder::build_from(&block).unwrap())
}

fn sample_block(shard: ShardIdent, seqno: u32) -> (BlockId, Vec<u8>) {
    let mut info = models::BlockInfo {
        shard: outside_shard(shard),
        seqno,
        ..Default::default()
    };
    info.set_prev_ref_single(&models::BlockRef {
        end_lt: 7,
        seqno: seqno - 1,
        root_hash: everscale_types::cell::HashBytes([1; 32]),
        file_hash: everscale_types::cell::HashBytes([2; 32]),
    });
    let data = block_boc(&info, &models::BlockExtra::default());
    (id_of(shard, seqno, &data), data)
}

#[test]
fn a_block_is_read() {
    let (id, data) = sample_block(ShardIdent::basechain(), 5);
    let block = BlockStuff::deserialize_checked(&id, data.clone()).ok().unwrap();
    assert_eq!(block.id(), &id);
    assert_eq!(block.data_size(), data.len());
    let (prev, second) = block.construct_prev_id().ok().unwrap();
    assert_eq!((prev.shard, prev.seqno), (ShardIdent::basechain(), 4));
    assert_eq!(prev.root_hash, HashBytes([1; 32]));
    assert!(second.is_none());

    let mut other = id;
    other.file_hash = HashBytes([9; 32]);
    assert_eq!(
        BlockStuff::deserialize_checked(&other, data.clone()).err(),
        Some(BlockError::FileHashMismatch)
    );
    assert!(BlockStuff::deserialize(&other, data.clone()).is_ok());
    other.root_hash = HashBytes([9; 32]);
    assert_eq!(
        BlockStuff::deserialize(&other, data).err(),
        Some(BlockError::RootHashMismatch)
    );
    assert_eq!(
        BlockStuff::deserialize(&id, vec![1, 2, 3]).err(),
        Some(BlockError::InvalidBoc)
    );
    let cell = Boc::encode(Cell::default());
    assert_eq!(
        BlockStuff::deserialize(&id_of(id.shard, 5, &cell), cell).err(),
        Some(BlockError::InvalidBlock)
    );
}

#[test]
fn the_shards_of_a_master_block() {
    let descr = models::ShardDescription {
        seqno: 31,
        reg_mc_seqno: 0,
        start_lt: 0,
        end_lt: 40,
        root_hash: everscale_types::cell::HashBytes([3; 32]),
        file_hash: everscale_types::cell::HashBytes([4; 32]),
        before_split: false,
        before_merge: false,
        want_split: false,
        want_merge: false,
        nx_cc_updated: false,
        next_catchain_seqno: 0,
        ext_processed_to_anchor_id: 0,
        top_sc_block_updated: true,
        min_ref_mc_seqno: 0,
        gen_utime: 0,
        split_merge_at: None,
        fees_collected: Default::default(),
        funds_created: Default::default(),
        copyleft_rewards: Default::default(),
        proof_chain: None,
    };
    let shards = models::ShardHashes::from_shards([(&models::ShardIdent::BASECHAIN, &descr)])
        .unwrap();
    let custom = models::McBlockExtra {
        shards,
        fees: Default::default(),
        prev_block_signatures: Default::default(),
        recover_create_msg: None,
        mint_msg: None,
        copyleft_msgs: Default::default(),
        config: None,
    };
    let mut extra = models::BlockExtra::default();
    extra.custom = Some(Lazy::new(&custom).unwrap());
    let info = models::BlockInfo {
        seqno: 9,
        ..Default::default()
    };
    let data = block_boc(&info, &extra);
    let id = id_of(ShardIdent::masterchain(), 9, &data);
    let block = BlockStuff::deserialize(&id, data).ok().unwrap();
    let blocks = block.shard_blocks().ok().unwrap();
    assert_eq!(blocks.len(), 1);
    let top = blocks.get(&ShardIdent::basechain()).unwrap();
    assert_eq!((top.seqno, top.root_hash), (31, HashBytes([3; 32])));
    let numbers = block.shard_blocks_seqno().ok().unwrap();
    assert_eq!(numbers.get(&ShardIdent::basechain()), Some(&31));
    // a shard block names none
    let (id, data) = sample_block(ShardIdent::basechain(), 5);
    let block = BlockStuff::deserialize(&id, data).ok().unwrap();
    assert!(block.shard_blocks().is_err());
}

fn block_ref(seqno: u32) -> BlockRef {
    BlockRef {
        end_lt: 1,
        seqno,
        root_hash: HashBytes([seqno as u8; 32]),
        file_hash: HashBytes([seqno as u8; 32]),
    }
}

#[test]
fn blocks_after_splits_and_merges() {
    let whole = ShardIdent::basechain();
    let (left, right) = whole.split().unwrap();
    // the halves come from the same block
    let header = BlockHeader {
        shard: left,
        after_split: true,
        prev_ref: PrevBlockRef::Single(block_ref(4)),
    };
    let (prev, second) = construct_prev_ids(&header).ok().unwrap();
    assert_eq!(prev.shard, whole);
    assert!(second.is_none());
    // the whole comes from both halves
    let header = BlockHeader {
        shard: whole,
        after_split: false,
        prev_ref: PrevBlockRef::AfterMerge {
            left: block_ref(4),
            right: block_ref(5),
        },
    };
    let (prev, second) = construct_prev_ids(&header).ok().unwrap();
    assert_eq!((prev.shard, prev.seqno), (left, 4));
    assert_eq!(second.map(|id| (id.shard, id.seqno)), Some((right, 5)));
    // the whole cannot come from a split
    let header = BlockHeader {
        shard: whole,
        after_split: true,
        prev_ref: PrevBlockRef::Single(block_ref(4)),
    };
    assert_eq!(construct_prev_ids(&header).err(), Some(BlockError::CannotMerge));
    // a shard with the longest prefix has no halves
    let header = BlockHeader {
        shard: ShardIdent {
            workchain: 0,
            prefix: 1,
        },
        after_split: false,
        prev_ref: PrevBlockRef::AfterMerge {
            left: block_ref(4),
            right: block_ref(5),
        },
    };
    assert_eq!(construct_prev_ids(&header).err(), Some(BlockError::CannotSplit));
}

#[test]
fn shards_split_and_merge() {
    let mut shard = ShardIdent::basechain();
    for step in 0..20 {
        let (left, right) = shard.split().unwrap();
        let (outside_left, outside_right) = outside_shard(shard).split().unwrap();
        assert_eq!(our_shard(outside_left), left);
        assert_eq!(our_shard(outside_right), right);
        assert_eq!(left.merge(), Some(shard));
        assert_eq!(right.merge(), Some(shard));
        assert_eq!(left.prefix_len(), step + 1);
        shard = if step % 3 == 0 { left } else { right };
    }
    assert_eq!(ShardIdent::basechain().merge(), None);
}

#[test]
fn lists_of_blocks() {
    let (a, _) = sample_block(ShardIdent::basechain(), 5);
    let (b, _) = sample_block(ShardIdent::basechain(), 6);
    let map = blocks_by_shard(&vec![a, b]);
    assert_eq!(map.len(), 1);
    assert_eq!(map.get(&ShardIdent::basechain()), Some(&b));
}

#[test]
fn persistent_blocks() {
    // one for each period of 2^17 seconds
    assert!(BlockStuff::compute_is_persistent(1 << 17, (1 << 17) - 1));
    assert!(!BlockStuff::compute_is_persistent((1 << 17) + 1, 1 << 17));
    let time = 5u32 << 17;
    let left = BlockStuff::time_until_can_use_for_boot(time, time);
    assert!(left > 0);
    assert!(!BlockStuff::can_use_for_boot(time, time));
    let later = time + left as u32;
    assert_eq!(BlockStuff::time_until_can_use_for_boot(time, later), 0);
}

#[test]
fn zerostates() {
    let state = models::ShardStateUnsplit {
        shard_ident: models::ShardIdent::BASECHAIN,
        ..Default::default()
    };
    let data = Boc::encode(CellBuilder::build_from(&state).unwrap());
    let expected = id_of(ShardIdent::basechain(), 0, &data);
    let provider = FileZerostateProvider(vec![
        format!("a.boc"),
        format!("b.boc"),
        format!("c.boc"),
    ]);
    let ids = provider.load_zerostates(&vec![Some(data), None, Some(vec![1])]);
    assert_eq!(
        ids,
        vec![
            Ok(expected),
            Err(ZerostateError::Unreadable),
            Err(ZerostateError::InvalidBoc)
        ]
    );
    let later = models::ShardStateUnsplit {
        seqno: 3,
        ..Default::default()
    };
    let data = Boc::encode(CellBuilder::build_from(&later).unwrap());
    assert_eq!(
        load_zerostate(&Some(data)),
        Err(ZerostateError::NotZerostate)
    );
    let data = Boc::encode(Cell::default());
    assert_eq!(
        load_zerostate(&Some(data)),
        Err(ZerostateError::InvalidState)
    );
    let root = BocRoot {
        is_exotic: false,
        level: 0,
        repr_depth: 1,
        repr_hash: HashBytes([1; 32]),
    };
    let id = make_zerostate_id(Some(root), Some((ShardIdent::basechain(), 0)), HashBytes([2; 32]));
    assert_eq!(id.map(|id| id.root_hash), Ok(HashBytes([1; 32])));
    assert!(StarterConfig::default().custom_boot_offset.is_none());
}

fn ext_message(byte: u8) -> Vec<u8> {
    let message = models::OwnedMessage {
        info: models::MsgInfo::ExtIn(models::ExtInMsgInfo {
            dst: models::StdAddr::new(0, everscale_types::cell::HashBytes([byte; 32])).into(),
            ..Default::default()
        }),
        init: None,
        body: Default::default(),
        layout: None,
    };
    Boc::encode(CellBuilder::build_from(&message).unwrap())
}

#[test]
fn external_messages_are_found_once() {
    let (a, b) = (ext_message(1), ext_message(2));
    let mut parser = Parser::new(20);
    let big = vec![0u8; 65_536];
    let junk = vec![1u8, 2, 3];
    let cell = Boc::encode(Cell::default());
    let output = parser.parse_unique(5, vec![&a, &junk, &b, &a, &big, &cell]);
    assert_eq!(output.unique_messages.len(), 2);
    assert_eq!(output.unique_payload_bytes, a.len() + b.len());
    assert_eq!(output.unique_messages[0].data, a);
    assert_eq!(
        output.unique_messages[1].hash.0,
        Boc::decode(&b).unwrap().repr_hash().0
    );
    // the hash of the bytes is that of the crate
    let hash = <streebog::Streebog256 as streebog::Digest>::digest(&a);
    let mut bytes = [0u8; 32];
    bytes.copy_from_slice(&hash);
    assert_eq!(parser.by_bytes.seen.get(&HashBytes(bytes)), Some(&5));
    assert_eq!(parser.parse_unique(6, vec![&b]).unique_messages.len(), 0);
    // the first message is forgotten before the second one
    parser.clean(26);
    assert_eq!(parser.parse_unique(26, vec![&b]).unique_messages.len(), 0);
    assert_eq!(parser.parse_unique(26, vec![&a]).unique_messages.len(), 1);
    let mut root = BocRoot {
        is_exotic: false,
        level: 0,
        repr_depth: 512,
        repr_hash: HashBytes([1; 32]),
    };
    assert!(check_message_root(&root));
    root.repr_depth = 513;
    assert!(!check_message_root(&root));
}

#[test]
fn hashes_are_remembered() {
    let mut seen = Deduplicator::new(2);
    assert!(seen.check_unique(5, &HashBytes([1; 32])));
    assert!(!seen.check_unique(6, &HashBytes([1; 32])));
    seen.clean(8);
    assert!(!seen.check_unique(6, &HashBytes([1; 32])));
    seen.clean(9);
    assert!(seen.check_unique(9, &HashBytes([1; 32])));
}

#[test]
fn config_actions() {
    let keys = KeyPair::from_secret(HashBytes([3; 32]));
    let value = Boc::encode(Cell::default());
    let action = Action::SubmitParam {
        index: 8,
        value: value.clone(),
    };
    let (message, expire_at) =
        create_message(12, &config_addr(), action, &keys, None, 1_000, 40)
            .ok()
            .unwrap();
    assert_eq!(expire_at, 1_040);
    let cell = Boc::decode(&message).unwrap();
    let owned = cell.parse::<models::OwnedMessage>().unwrap();
    assert!(matches!(owned.info, models::MsgInfo::ExtIn(_)));
    let (body, range) = owned.body;
    let mut slice = range.apply(&body).unwrap();
    let mut signature = [0u8; 64];
    slice.load_raw(&mut signature, 512).unwrap();
    // what follows the signature is what was signed
    let mut rest = slice;
    assert_eq!(rest.load_u32().unwrap(), 0x4366_5021);
    assert_eq!(rest.load_u32().unwrap(), 12);
    assert_eq!(rest.load_u32().unwrap(), 1_040);
    assert_eq!(rest.load_u32().unwrap(), 8);
    let mut builder = CellBuilder::new();
    builder.store_slice(slice).unwrap();
    let signed = builder.build().unwrap();
    let public = everscale_crypto::ed25519::PublicKey::from_bytes(keys.public.0).unwrap();
    assert!(public.verify_raw(signed.repr_hash().as_slice(), &signature));

    let parts = Action::UpdateMasterKey {
        pubkey: keys.public,
    }
    .build();
    assert_eq!((parts.tag, parts.bits.len()), (0x5062_4b21, 32));
    let parts = Action::UpdateElectorCode {
        code: value.clone(),
        params: Some(value.clone()),
    }
    .build();
    assert_eq!(parts.tag, 0x4e43_ef05);
    assert_eq!(parts.tail, Some(value));
    let wrong = Action::UpdateConfigCode {
        code: vec![1, 2],
        params: None,
    };
    assert_eq!(
        create_message(12, &config_addr(), wrong, &keys, None, 1_000, 40).err(),
        Some(ActionError::InvalidCell)
    );
    assert_eq!(signature_id(true, 7), Some(7));
    assert_eq!(signature_id(false, 7), None);
}

fn config_addr() -> StdAddr {
    StdAddr {
        workchain: -1,
        address: HashBytes([0x55; 32]),
    }
}

#[test]
fn the_config_account_is_checked() {
    let keys = KeyPair::from_secret(HashBytes([3; 32]));
    let mut builder = CellBuilder::new();
    builder.store_u32(42).unwrap();
    builder.store_raw(&keys.public.0, 256).unwrap();
    let data = Boc::encode(builder.build().unwrap());
    let account = ConfigAccount::Active {
        data: Some(data.clone()),
    };
    assert_eq!(prepare_action(&account, &keys.public), Ok(42));
    assert_eq!(
        prepare_action(&account, &HashBytes([1; 32])),
        Err(ActionError::OtherPublicKey)
    );
    for (account, error) in [
        (ConfigAccount::Frozen, ActionError::AccountFrozen),
        (ConfigAccount::Uninit, ActionError::AccountUninit),
        (ConfigAccount::NotExists, ActionError::AccountNotFound),
        (ConfigAccount::Unchanged, ActionError::UnexpectedResponse),
        (ConfigAccount::Active { data: None }, ActionError::NoData),
        (
            ConfigAccount::Active {
                data: Some(vec![1]),
            },
            ActionError::InvalidData,
        ),
        (
            ConfigAccount::Active {
                data: Some(Boc::encode(Cell::default())),
            },
            ActionError::NoSeqno,
        ),
    ] {
        assert_eq!(prepare_action(&account, &keys.public), Err(error));
    }
    let no_key = ConfigData {
        seqno: Some(1),
        public_key: None,
    };
    assert_eq!(
        check_config_data(&no_key, &keys.public),
        Err(ActionError::NoPublicKey)
    );
    let mut invalid = [0u8; 32];
    while everscale_crypto::ed25519::PublicKey::from_bytes(invalid).is_some() {
        invalid[0] += 1;
    }
    let bad_key = ConfigData {
        seqno: Some(1),
        public_key: Some(HashBytes(invalid)),
    };
    assert_eq!(
        check_config_data(&bad_key, &keys.public),
        Err(ActionError::InvalidPublicKey)
    );
}

fn block(shard: ShardIdent, seqno: u32) -> BlockId {
    BlockId {
        shard,
        seqno,
        root_hash: HashBytes([seqno as u8; 32]),
        file_hash: HashBytes([seqno as u8; 32]),
    }
}

#[test]
fn states_are_told_of() {
    let mc = ShardIdent::masterchain();
    let sc = ShardIdent::basechain();
    let mut node = StateNode::new(CollatorSyncContext::Historical);
    node.accept_block(AcceptedBlock {
        id: block(mc, 5),
        top_shard_blocks_ids: vec![block(sc, 8)],
    });
    for seqno in [7, 8, 9] {
        node.accept_block(AcceptedBlock {
            id: block(sc, seqno),
            top_shard_blocks_ids: vec![],
        });
    }
    // the node is behind: the state waits
    assert_eq!(node.handle_state(&block(mc, 5)), None);
    let told = node.set_sync_context(CollatorSyncContext::Recent).unwrap();
    assert_eq!(told.block_id, block(mc, 5));
    assert!(!told.is_external);
    assert!(node.set_sync_context(CollatorSyncContext::Recent).is_none());
    // a block from the network; what the master block before made obsolete goes
    assert_eq!(node.handle_state(&block(mc, 6)), Some(true));
    assert_eq!(node.blocks.len(), 1);
    assert_eq!(node.find(&sc, 9), Some(0));
    assert_eq!(node.find(&sc, 8), None);
    let wait = BlockIdToWait::next(&block(sc, 8));
    assert!(wait.is(&block(sc, 9)));
    assert!(node.find_awaited(&wait).is_some());
    assert!(!BlockIdToWait::Full(block(sc, 8)).is(&block(sc, 9)));
    let short = BlockIdToWait::Short(BlockIdShort {
        shard: sc,
        seqno: 3,
    });
    assert_eq!((short.shard(), short.seqno()), (sc, 3));
    assert!(node.find_awaited(&short).is_none());
}

#[test]
fn only_the_awaited_block_is_found() {
    let sc = ShardIdent::basechain();
    let mut node = StateNode::new(CollatorSyncContext::Recent);
    let awaited = block(sc, 9);
    let other_root = BlockId {
        root_hash: HashBytes([77; 32]),
        ..awaited
    };
    let other_file = BlockId {
        file_hash: HashBytes([78; 32]),
        ..awaited
    };
    for other in [other_root, other_file] {
        node.accept_block(AcceptedBlock {
            id: other,
            top_shard_blocks_ids: vec![],
        });
        // the same shard and number, but another block
        assert!(node.find_awaited(&BlockIdToWait::Full(awaited)).is_none());
        let found = node.find_awaited(&BlockIdToWait::Full(other)).unwrap();
        assert_eq!(found.id, other);
        // by the block before it any block with that number will do
        let next = BlockIdToWait::next(&block(sc, 8));
        assert_eq!(node.find_awaited(&next).unwrap().id, other);
    }
    node.accept_block(AcceptedBlock {
        id: awaited,
        top_shard_blocks_ids: vec![],
    });
    let found = node.find_awaited(&BlockIdToWait::Full(awaited)).unwrap();
    assert_eq!(found.id, awaited);
    assert!(node.find_awaited(&BlockIdToWait::Full(other_root)).is_none());
}

#[test]
fn signatures_of_a_proof() {
    let keys = KeyPair::from_secret(HashBytes([3; 32]));
    let proof = process_signatures(1, 2, 30, &vec![(keys.public, Signature([9; 64]))]);
    assert_eq!(proof.signature_count, 1);
    assert_eq!(proof.total_weight, 30);
    let public = everscale_crypto::ed25519::PublicKey::from_bytes(keys.public.0).unwrap();
    let hash = tl_proto::hash(public.as_tl());
    assert_eq!(
        proof.signatures,
        vec![(0, HashBytes(hash), Signature([9; 64]))]
    );
    let signatures = vec![(keys.public, Signature([9; 64]))];
    let shard = block(ShardIdent::basechain(), 4);
    assert!(block_proof_signatures(&shard, 1, 2, 30, &signatures).is_none());
    let master = block(ShardIdent::masterchain(), 4);
    let proof = block_proof_signatures(&master, 1, 2, 30, &signatures).unwrap();
    assert_eq!((proof.validator_list_hash_short, proof.catchain_seqno), (1, 2));
}

#[test]
fn signatures_are_stored() {
    let info = ConsensusInfo {
        vset_switch_round: 10,
        prev_vset_switch_round: 11,
        genesis_round: 12,
        genesis_millis: 13,
        prev_shuffle_mc_validators: true,
    };
    let keys: Vec<HashBytes> = (1..4)
        .map(|i| KeyPair::from_secret(HashBytes([i; 32])).public)
        .collect();
    let signatures: Vec<_> = keys
        .iter()
        .enumerate()
        .map(|(i, key)| (*key, Signature([i as u8 + 1; 64])))
        .collect();
    let proof = process_signatures(1, 2, 30, &signatures);
    let boc = store_signatures(&proof, &info).unwrap();
    let stored = BocRepr::decode::<models::block::BlockSignatures, _>(&boc).unwrap();
    assert_eq!(stored.validator_info.validator_list_hash_short, 1);
    assert_eq!(stored.validator_info.catchain_seqno, 2);
    assert_eq!(stored.consensus_info.vset_switch_round, 10);
    assert_eq!(stored.consensus_info.prev_vset_switch_round, 11);
    assert_eq!(stored.consensus_info.genesis_round, 12);
    assert_eq!(stored.consensus_info.genesis_millis, 13);
    assert!(stored.consensus_info.prev_shuffle_mc_validators);
    assert_eq!((stored.signature_count, stored.total_weight), (3, 30));
    for (i, (number, node, signature)) in proof.signatures.iter().enumerate() {
        assert_eq!(*number as usize, i);
        let found = stored.signatures.get(*number).unwrap().unwrap();
        assert_eq!(found.node_id_short.0, node.0);
        assert_eq!(found.signature.0, signature.0);
    }
    // without signatures
    let none = process_signatures(1, 2, 30, &Vec::new());
    let boc = store_signatures(&none, &info).unwrap();
    let stored = BocRepr::decode::<models::block::BlockSignatures, _>(&boc).unwrap();
    assert!(stored.signatures.is_empty());
}

fn actual_state(shard_id: ShardIdent) -> ActualState {
    ActualState {
        shard_id,
        block_seqno: 5,
        gen_utime: 100,
        gen_chain_time: 100_000,
        start_lt: 1_000,
        next_lt: 1_001,
        rand_seed: HashBytes([1; 32]),
        global_id: 42,
        mc_state_gen_lt: 900,
        prev_state_gen_lt: 950,
        mc_shards_end_lt: vec![(ShardIdent::basechain(), 800)],
        collated_shards_end_lt: None,
    }
}

#[test]
fn a_collation_is_prepared() {
    let phase: Phase<PrepareState<u8, u8, u8>> =
        Phase::new(1, 2, 3, actual_state(ShardIdent::basechain()));
    assert_eq!(phase.extra.reader_state, 2);
    let (params, reader) = phase.run(true, true).ok().unwrap();
    assert_eq!(params.signature_with_id, Some(42));
    assert_eq!((params.block_lt, params.min_next_lt), (1_000, 1_001));
    assert!(params.full_body_in_bounced);
    assert_eq!(reader.mc_top_shards_end_lts, vec![(ShardIdent::basechain(), 800)]);
    assert_eq!(reader.next_chain_time, 100_000);
    // a master block needs its own shards
    let phase: Phase<PrepareState<u8, u8, u8>> =
        Phase::new(1, 2, 3, actual_state(ShardIdent::masterchain()));
    assert_eq!(phase.run(true, true).err(), Some(PrepareError::NoShards));
    let mut state = actual_state(ShardIdent::masterchain());
    state.collated_shards_end_lt = Some(vec![(ShardIdent::basechain(), 850)]);
    let phase: Phase<PrepareState<u8, u8, u8>> = Phase::new(1, 2, 3, state);
    let (params, reader) = phase.run(false, false).ok().unwrap();
    assert_eq!(params.signature_with_id, None);
    assert_eq!(reader.mc_top_shards_end_lts, vec![(ShardIdent::basechain(), 850)]);
    assert_eq!(
        Phase::<PrepareState<u8, u8, u8>>::finish(true, true),
        Err(PrepareError::Cancelled)
    );
    assert_eq!(Phase::<PrepareState<u8, u8, u8>>::finish(false, true), Ok(()));
}

#[test]
fn capabilities_are_those_of_the_crate() {
    let caps = models::GlobalCapabilities::from([
        models::GlobalCapability::CapCreateStatsEnabled,
        models::GlobalCapability::CapBounceMsgBody,
        models::GlobalCapability::CapReportVersion,
        models::GlobalCapability::CapShortDequeue,
        models::GlobalCapability::CapInitCodeHash,
        models::GlobalCapability::CapOffHypercube,
        models::GlobalCapability::CapFixTupleIndexBug,
        models::GlobalCapability::CapFastStorageStat,
        models::GlobalCapability::CapMyCode,
        models::GlobalCapability::CapFullBodyInBounced,
        models::GlobalCapability::CapStorageFeeToTvm,
        models::GlobalCapability::CapWorkchains,
        models::GlobalCapability::CapStcontNewFormat,
        models::GlobalCapability::CapFastStorageStatBugfix,
        models::GlobalCapability::CapResolveMerkleCell,
        models::GlobalCapability::CapFeeInGasUnits,
        models::GlobalCapability::CapBounceAfterFailedAction,
        models::GlobalCapability::CapSuspendedList,
        models::GlobalCapability::CapsTvmBugfixes2022,
    ]);
    assert_eq!(supported_capabilities().0, caps.into_inner());
}

#[test]
fn settings_of_the_collator() {
    let default = CollatorConfig::default();
    assert_eq!(default.supported_capabilities, supported_capabilities());
    assert!(default.fast_sync);
    let config = CollatorConfig::from_settings(7, true, false, None);
    assert_eq!(config.min_mc_block_delta_from_bc_to_sync, 7);
    assert!(config.check_value_flow && !config.validate_config);
    assert_eq!(config.fast_sync, default.fast_sync);
}

#[test]
fn master_data() {
    let shards = vec![(
        ShardIdent::basechain(),
        ShardDescriptionShort {
            ext_processed_to_anchor_id: 3,
            top_sc_block_updated: true,
            end_lt: 90,
            seqno: 5,
            root_hash: HashBytes([5; 32]),
            file_hash: HashBytes([6; 32]),
        },
    )];
    let id = shards[0].1.get_block_id(ShardIdent::basechain());
    assert_eq!((id.shard, id.seqno), (ShardIdent::basechain(), 5));
    let state = McState {
        global_id: 1,
        block_id: block(ShardIdent::masterchain(), 9),
        after_key_block: true,
        last_key_block_seqno: Some(4),
        gen_lt: 1_000_000,
        gen_chain_time: 77,
        shards,
        catchain_seqno: 2,
        mc_processed_to_anchor_id: 7,
    };
    let data = McData::load_from_state(state, ShardMap::new());
    assert_eq!(data.prev_key_block_seqno, 9);
    // a top shard block is behind the master block
    assert_eq!(data.top_processed_to_anchor, 3);
    assert_eq!(detect_top_processed_to_anchor(&data.shards, 2), 2);
    assert_eq!(detect_top_processed_to_anchor(&vec![], 8), 8);
    let block_ref = data.make_block_ref();
    assert_eq!((block_ref.end_lt, block_ref.seqno), (1_000_000, 9));
    assert_eq!(data.lt_align(), 1_000_000);
}

#[test]
fn sessions_and_validated_blocks() {
    let subset = ValidatorSubsetInfo {
        validators: vec![],
        short_hash: 9,
    };
    let session = CollationSessionInfo::new(
        ShardIdent::masterchain(),
        4,
        subset,
        Some(HashBytes([1; 32])),
    );
    assert_eq!(session.id(), (ShardIdent::masterchain(), 4, 9));
    assert_eq!(session.get_validation_session_id(), (4, 9));
    assert_eq!(session.seqno(), 4);
    assert_eq!(session.shard(), ShardIdent::masterchain());
    assert_eq!(session.collators().short_hash, 9);
    assert_eq!(session.current_collator_pubkey(), Some(HashBytes([1; 32])));
    let block_id = block(ShardIdent::masterchain(), 9);
    let validated = ValidatedBlock::new(block_id, BlockSignatures { signatures: vec![] }, true);
    assert_eq!(validated.id(), &block_id);
    assert!(validated.is_valid());
    assert!(validated.signatures().signatures.is_empty());
    assert!(validated.extract_signatures().signatures.is_empty());
}

#[test]
fn addresses_and_prefixes() {
    let addr = ShortAddr::new(0, 0x8000_0000_0000_0000);
    assert_eq!((addr.workchain(), addr.prefix()), (0, 0x8000_0000_0000_0000));
    let std = IntAddr::Std(StdAddr {
        workchain: 0,
        address: HashBytes([7; 32]),
    });
    assert_eq!(std.get_address(), HashBytes([7; 32]));
    let var = IntAddr::Var(VarAddr {
        workchain: 0,
        address: vec![8; 32],
    });
    assert_eq!(var.get_address(), HashBytes([8; 32]));
    let (left, right) = ShardIdent::basechain().split().unwrap();
    assert!(left.contains_prefix(0, 0x1111_1111_1111_1111));
    assert!(!right.contains_prefix(0, 0x1111_1111_1111_1111));
    assert!(!left.contains_prefix(1, 0x1111_1111_1111_1111));
    assert!(ShardIdent::masterchain().contains_prefix(-1, 5));
}

#[test]
fn short_texts() {
    let hash = HashBytes([0xab; 32]);
    assert_eq!(get_short_hash_string(&hash), "abababab");
    let addr = IntAddr::Std(StdAddr {
        workchain: -1,
        address: hash,
    });
    assert_eq!(get_short_addr_string(&addr), "-1:abababab");
    let key = QueueKey { lt: 120, hash };
    assert_eq!(key.to_display(), "LT_HASH(120_abababab)");
    assert_eq!(Digest::wrap([0x0f; 32]).to_display(Some(2)), "0f0f");
    assert_eq!(Digest::wrap([0x0f; 32]).to_display(None).len(), 64);
    assert_eq!(Signature([0xf0; 64]).to_display(Some(100)).len(), 128);
    assert_eq!(UnixTime::from_millis(1_700_000_000_123).to_display(), "1700000000123");
    let count = ThresholdCount {
        target: 3,
        ready: 1,
        delayed: 20,
        in_channel: 0,
    };
    assert_eq!(count.to_display(), "1+20+0/3");
}

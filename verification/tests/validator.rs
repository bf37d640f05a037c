//! Validator sessions.
use tycho::ids::{BlockId, HashBytes, ShardIdent};
use tycho::models::parts::{KeyPair, Signature};
use tycho::types::ValidatorDescription;
use tycho::validator::collect::{
    compute_session_overlay_id, CollectEvent, CollectStep, PeerAnswer, ReceiveNext,
};
use tycho::validator::seqno_map::SeqnoMap;
use tycho::validator::session::{
    Exchange, SessionError, ValidationError, ValidatorSession, ValidatorStdImplConfig,
};

fn keys(byte: u8) -> KeyPair {
    KeyPair::from_secret(HashBytes([byte; 32]))
}

fn block(seqno: u32) -> BlockId {
    BlockId {
        shard: ShardIdent::masterchain(),
        seqno,
        root_hash: HashBytes([seqno as u8; 32]),
        file_hash: HashBytes([seqno as u8 + 1; 32]),
    }
}

fn outside_id(id: &BlockId) -> everscale_types::models::BlockId {
    everscale_types::models::BlockId {
        shard: everscale_types::models::ShardIdent::MASTERCHAIN,
        seqno: id.seqno,
        root_hash: everscale_types::cell::HashBytes(id.root_hash.0),
        file_hash: everscale_types::cell::HashBytes(id.file_hash.0),
    }
}

/// The signature of another node.
fn signature_of(byte: u8, id: &BlockId) -> Signature {
    let data = everscale_types::models::Block::build_data_for_sign(&outside_id(id));
    let secret = everscale_crypto::ed25519::SecretKey::from_bytes([byte; 32]);
    let keys = everscale_crypto::ed25519::KeyPair::from(&secret);
    Signature(keys.sign_raw(&data))
}

fn validator(byte: u8, weight: u64) -> ValidatorDescription {
    ValidatorDescription {
        public_key: keys(byte).public,
        weight,
        adnl_addr: None,
    }
}

fn config() -> ValidatorStdImplConfig {
    ValidatorStdImplConfig {
        signature_cache_slots: 3,
        old_blocks_to_keep: 2,
    }
}

/// A session of four validators, each of weight one.
fn session() -> ValidatorSession {
    let validators = (1..=4).map(|i| validator(i, 1)).collect::<Vec<_>>();
    ValidatorSession::new(
        ShardIdent::masterchain(),
        (1, 2),
        10,
        &validators,
        keys(1).public,
        keys(1),
        config(),
    )
    .ok()
    .unwrap()
}

#[test]
fn the_threshold_is_more_than_two_thirds() {
    let session = session();
    assert_eq!(session.weight_threshold, 3);
    assert_eq!(session.own_weight, 1);
    assert_eq!(session.validators.len(), 3);
    assert_eq!(session.start_block_seqno(), 10);
    // the slots of the first blocks
    for seqno in 10..13 {
        assert!(session.cached_signatures.get(seqno).is_some());
    }
    assert!(session.cached_signatures.get(13).is_none());
}

#[test]
fn who_is_not_listed_cannot_validate() {
    let validators = vec![validator(2, 1)];
    let result = ValidatorSession::new(
        ShardIdent::masterchain(),
        (1, 2),
        10,
        &validators,
        keys(1).public,
        keys(1),
        config(),
    );
    assert!(matches!(result, Err(SessionError::NotInValidatorSet)));

    let mut invalid = validator(2, 1);
    // no point of the curve has this coordinate
    invalid.public_key = HashBytes([0xff; 32]);
    let mut found = false;
    for byte in 0..=255u8 {
        let mut bytes = [0u8; 32];
        bytes[0] = byte;
        if everscale_crypto::ed25519::PublicKey::from_bytes(bytes).is_none() {
            invalid.public_key = HashBytes(bytes);
            found = true;
            break;
        }
    }
    assert!(found);
    let result = ValidatorSession::new(
        ShardIdent::masterchain(),
        (1, 2),
        10,
        &vec![validator(1, 1), invalid],
        keys(1).public,
        keys(1),
        config(),
    );
    assert!(matches!(result, Err(SessionError::InvalidPublicKey)));
}

#[test]
fn signatures_are_exchanged() {
    let mut session = session();
    let id = block(10);
    // no block yet: the signature is cached, whatever it is
    assert_eq!(
        session.exchange_signatures(&keys(2).public, 10, &signature_of(2, &id)),
        Ok(Exchange::Cached)
    );
    assert_eq!(
        session.exchange_signatures(&keys(3).public, 10, &Signature([1; 64])),
        Ok(Exchange::Cached)
    );
    assert_eq!(
        session.exchange_signatures(&keys(3).public, 20, &Signature([1; 64])),
        Err(ValidationError::NoSlot)
    );
    assert_eq!(
        session.exchange_signatures(&keys(9).public, 10, &Signature([1; 64])),
        Err(ValidationError::UnknownPeer)
    );

    // the cached signature that verifies counts at once
    let mut run = session.validate_block(&id).unwrap();
    assert_eq!(run.own_signature, signature_of(1, &id));
    assert_eq!(run.total_weight, 2);
    assert_eq!(run.pending.len(), 2);
    assert!(run
        .pending
        .contains(&(keys(3).public, Some(Signature([1; 64])))));
    assert!(session.validate_block(&id).is_err());
    assert_eq!(
        session.on_collect_event(&mut run, CollectEvent::Started),
        CollectStep::Collect
    );
    assert_eq!(
        session.on_collect_event(&mut run, CollectEvent::NoMore),
        CollectStep::NotReached
    );
    assert_eq!(
        session.on_collect_event(&mut run, CollectEvent::BlockCancelled),
        CollectStep::Skipped
    );

    // an answer that does not verify, then one that does
    assert!(matches!(
        session.receive_signature(10, &keys(3).public, PeerAnswer::Nothing),
        ReceiveNext::Retry
    ));
    assert!(matches!(
        session.receive_signature(10, &keys(3).public, PeerAnswer::Cached(Signature([1; 64]))),
        ReceiveNext::Retry
    ));
    assert!(matches!(
        session.receive_signature(10, &keys(3).public, PeerAnswer::Complete(Signature([1; 64]))),
        ReceiveNext::RetryAfterPause
    ));
    let good = signature_of(3, &id);
    assert!(matches!(
        session.receive_signature(10, &keys(3).public, PeerAnswer::Complete(good)),
        ReceiveNext::Done(signature) if signature == good
    ));
    // what is in the slot counts
    assert!(matches!(
        session.receive_signature(10, &keys(3).public, PeerAnswer::Complete(Signature([2; 64]))),
        ReceiveNext::Done(signature) if signature == good
    ));
    assert_eq!(
        session.on_collect_event(&mut run, CollectEvent::Received(keys(3).public, good)),
        CollectStep::Complete
    );
    let complete = session.collected_signatures(&run);
    assert_eq!(complete.total_weight, 3);
    assert_eq!(complete.signatures.len(), 3);
    assert_eq!(
        complete.signatures[0],
        (keys(1).public, signature_of(1, &id))
    );
    let outside_id = everscale_types::models::BlockId {
        shard: everscale_types::models::ShardIdent::MASTERCHAIN,
        seqno: id.seqno,
        root_hash: everscale_types::cell::HashBytes(id.root_hash.0),
        file_hash: everscale_types::cell::HashBytes(id.file_hash.0),
    };
    let data = everscale_types::models::Block::build_data_for_sign(&outside_id);
    for (peer_id, signature) in &complete.signatures {
        let public = everscale_crypto::ed25519::PublicKey::from_bytes(peer_id.0).unwrap();
        assert!(public.verify_raw(&data, &signature.0));
    }

    // enough signatures: others are answered but not looked at
    assert_eq!(
        session.exchange_signatures(&keys(4).public, 10, &Signature([3; 64])),
        Ok(Exchange::Complete(signature_of(1, &id)))
    );
}

#[test]
fn wrong_signatures_are_refused() {
    let mut session = session();
    let id = block(10);
    session.validate_block(&id).unwrap();
    assert_eq!(
        session.exchange_signatures(&keys(2).public, 10, &signature_of(3, &id)),
        Err(ValidationError::InvalidSignature)
    );
    assert_eq!(
        session.exchange_signatures(&keys(2).public, 10, &signature_of(2, &id)),
        Ok(Exchange::Complete(signature_of(1, &id)))
    );
    assert_eq!(
        session.exchange_signatures(&keys(2).public, 10, &signature_of(2, &block(11))),
        Err(ValidationError::SignatureChanged)
    );
    session.cancel();
    assert_eq!(
        session.exchange_signatures(&keys(2).public, 10, &signature_of(2, &id)),
        Err(ValidationError::Cancelled)
    );
}

#[test]
fn old_blocks_are_given_up() {
    let mut session = session();
    for seqno in 10..14 {
        session.validate_block(&block(seqno)).unwrap();
    }
    session.cancel_until(12);
    assert!(session.block_signatures.get(10).is_none());
    assert!(session.block_signatures.get(11).unwrap().cancelled);
    assert!(session.block_signatures.get(12).unwrap().cancelled);
    assert!(!session.block_signatures.get(13).unwrap().cancelled);
    assert_eq!(session.min_seqno, 13);
}

#[test]
fn overlays_have_names() {
    let zerostate = block(0);
    let shard = ShardIdent::masterchain();
    let a = compute_session_overlay_id(5, &zerostate, &shard, &(1, 2));
    let b = compute_session_overlay_id(5, &zerostate, &shard, &(1, 3));
    let c = compute_session_overlay_id(5, &zerostate, &shard, &(2, 2));
    // only the number of the session counts
    assert_eq!(a, b);
    assert_ne!(a, c);
    let mut data = 5u32.to_le_bytes().to_vec();
    data.extend_from_slice(&zerostate.root_hash.0);
    data.extend_from_slice(&zerostate.file_hash.0);
    data.extend_from_slice(&shard.workchain.to_le_bytes());
    data.extend_from_slice(&shard.prefix.to_le_bytes());
    data.extend_from_slice(&1u32.to_le_bytes());
    let expected = tl_proto::hash(tl_proto::RawBytes::<tl_proto::Boxed>::new(&data));
    assert_eq!(a.0, expected);
}

#[test]
fn maps_by_number() {
    let mut map: SeqnoMap<u64> = SeqnoMap::new();
    assert!(map.insert(5, 50));
    assert!(map.insert(7, 70));
    assert!(!map.insert(5, 51));
    assert_eq!(map.get(5), Some(&50));
    assert_eq!(map.keys_upto(5), vec![5]);
    map.remove_upto(5);
    assert_eq!(map.get(5), None);
    assert_eq!(map.remove(7), Some(70));
    assert_eq!(map.remove(7), None);
    // slots that are free are used again
    assert_eq!((map.slots.len(), map.free.len()), (2, 2));
    for key in 10..100 {
        assert!(map.insert(key, key as u64));
        assert!(map.insert(key + 100, 0));
        map.remove(key + 100);
        map.remove_upto(key);
        assert_eq!((map.slots.len(), map.free.len()), (2, 2));
    }
    assert!(map.insert(200, 1));
    assert!(map.insert(201, 2));
    assert_eq!((map.get(200), map.get(201)), (Some(&1), Some(&2)));
    assert!(map.insert(202, 3));
    assert_eq!((map.slots.len(), map.free.len()), (3, 0));
}

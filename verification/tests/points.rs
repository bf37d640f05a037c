//! Points: making, signing, writing and reading.
use std::time::Instant;

use rand::{thread_rng, Rng, RngCore};
use rayon::iter::{IntoParallelRefIterator, ParallelIterator};
use tycho::engine::config::{MempoolConfig, NodeConfig};
use tycho::ids::HashBytes;
use tycho::models::link::{Link, PointId, Through};
use tycho::models::parts::{Digest, KeyPair, Round, Signature, UnixTime};
use tycho::models::peer_map::PeerMap;
use tycho::models::point::{write_body, PayloadArena, Point, PointIntegrityError};
use tycho::models::point_info::{PointData, PointInfo};
use tycho::test_utils::default_test_config;
use tycho::tl::{write_raw, write_u32, TlError, TlScheme};

const PEERS: usize = 100;

const MSG_BYTES: usize = 64 * 1024;

fn ids() -> TlScheme {
    TlScheme {
        queue_diff: 0xa1,
        queue_state: 0xa2,
        queue_state_header: 0xa3,
        point: 0xa4,
        point_info: 0xa5,
        link_to_self: 0xa6,
        link_direct: 0xa7,
        link_indirect: 0xa8,
        through_includes: 0xa9,
        through_witness: 0xaa,
    }
}

fn test_config() -> MempoolConfig {
    default_test_config(&mut NodeConfig::new(), Round(1)).conf
}

fn new_key_pair() -> KeyPair {
    let mut secret_bytes: [u8; 32] = [0; 32];
    thread_rng().fill_bytes(&mut secret_bytes);
    KeyPair::from_secret(HashBytes(secret_bytes))
}

fn payload(conf: &MempoolConfig) -> Vec<Vec<u8>> {
    let msg_count = conf.consensus.payload_batch_bytes as usize / MSG_BYTES;
    let mut payload = Vec::with_capacity(msg_count);
    let mut bytes = vec![0; MSG_BYTES];
    for _ in 0..msg_count {
        thread_rng().fill_bytes(bytes.as_mut_slice());
        payload.push(bytes.clone());
    }
    payload
}

fn prev_point_data() -> (Digest, Vec<(HashBytes, Signature)>) {
    let mut buf = [0; 32];
    thread_rng().fill_bytes(&mut buf);
    let digest = Digest::wrap(buf);
    let mut evidence = Vec::with_capacity(PEERS);
    for _ in 0..PEERS {
        let key_pair = new_key_pair();
        let sig = Signature::new(&key_pair, &digest);
        evidence.push((key_pair.public, sig));
    }
    (digest, evidence)
}

fn data_of(key_pair: &KeyPair, round: Round, anchor_time: UnixTime) -> PointData {
    let prev_digest = Digest::new(&[42]);
    let mut includes = PeerMap::new();
    includes.insert(key_pair.public, prev_digest);
    let mut evidence = PeerMap::new();
    let mut buf = [0; 32];
    for i in 0..PEERS {
        let key_pair = new_key_pair();
        let peer_id = key_pair.public;
        if i > 0 {
            thread_rng().fill_bytes(&mut buf);
            includes.insert(peer_id, Digest::wrap(buf));
        }
        evidence.insert(peer_id, Signature::new(&key_pair, &prev_digest));
    }
    let mut witness = PeerMap::new();
    witness.insert(HashBytes([1; 32]), Digest::new(&[1]));
    witness.insert(HashBytes([2; 32]), Digest::new(&[2]));
    PointData {
        time: anchor_time.next(),
        includes,
        witness,
        evidence,
        anchor_trigger: Link::Direct(Through::Witness(HashBytes([1; 32]))),
        anchor_proof: Link::Indirect {
            to: PointId {
                author: HashBytes([122; 32]),
                round: round - 6_u32,
                digest: Digest::new(&[2]),
            },
            path: Through::Witness(HashBytes([2; 32])),
        },
        anchor_time,
    }
}

fn point(key_pair: &KeyPair, payload: &Vec<Vec<u8>>, conf: &MempoolConfig) -> Point {
    let round = Round(thread_rng().gen_range(10..u32::MAX - 10));
    let data = data_of(key_pair, round, UnixTime::from_millis(1_700_000_000_000));
    Point::new(&ids(), key_pair, key_pair.public, round, payload, data, conf)
}

fn write_point(
    digest: &Digest,
    signature: &Signature,
    info: &PointInfo,
    payload: &Vec<Vec<u8>>,
    data: &mut Vec<u8>,
) {
    write_u32(data, ids().point);
    write_raw(data, &digest.0);
    write_raw(data, &signature.0);
    write_body(&ids(), &info.author, info.round, payload, &info.data, data);
}

#[test]
pub fn check_serialize() {
    let conf = test_config();
    let point = point(&new_key_pair(), &payload(&conf), &conf);

    let point_2 = Point::parse(&ids(), point.serialized().to_vec())
        .expect("parse point bytes")
        .expect("point integrity");
    assert!(point == point_2, "point serde roundtrip");

    let mut info_b = Vec::<u8>::new();
    point.info().write(&ids(), &mut info_b);
    let info_2 = PointInfo::deserialize(&ids(), &info_b).expect("point info");
    assert!(point.info() == &info_2, "compare deserialized info");
}

#[test]
pub fn check_sig() {
    let _conf = test_config();

    let (digest, data) = prev_point_data();

    let timer = Instant::now();
    for (peer_id, sig) in &data {
        sig.verifies(peer_id, &digest);
    }
    let elapsed = timer.elapsed();
    println!(
        "check {PEERS} sigs took {}",
        humantime::format_duration(elapsed)
    );

    let timer = Instant::now();
    assert!(
        data.par_iter()
            .all(|(peer_id, sig)| sig.verifies(peer_id, &digest)),
        "invalid signature"
    );
    let elapsed = timer.elapsed();
    println!(
        "check {PEERS} sigs in par iter took {}",
        humantime::format_duration(elapsed)
    );
}

#[test]
pub fn check_sig_on_rayon() {
    let _conf = test_config();

    let (digest, data) = prev_point_data();
    let (sender, receiver) = std::sync::mpsc::channel();
    rayon::spawn(move || {
        let valid = data
            .iter()
            .all(|(peer_id, sig)| sig.verifies(peer_id, &digest));
        sender.send(valid).unwrap();
    });
    assert!(receiver.recv().unwrap(), "invalid signature");
}

#[test]
pub fn check_new_point() {
    let conf = test_config();
    let point_key_pair = new_key_pair();
    let payload = payload(&conf);
    let point = point(&point_key_pair, &payload, &conf);
    let info = point.info();

    let mut data = Vec::<u8>::with_capacity(conf.point_max_bytes);
    let timer = Instant::now();
    write_point(&info.digest, &info.signature, info, &payload, &mut data);
    let tl_elapsed = timer.elapsed();
    assert_eq!(data, point.serialized());

    println!(
        "tl write {} bytes of point with {} bytes payload took {}",
        point.serialized().len(),
        info.payload_bytes,
        humantime::format_duration(tl_elapsed)
    );

    let digest = Digest::new(&point.serialized()[4 + 32 + 64..]);
    assert_eq!(digest, info.digest, "point digest");

    let sig = Signature::new(&point_key_pair, &digest);
    assert_eq!(sig, info.signature, "point signature");
}

#[test]
pub fn massive_point_deserialization() {
    let conf = test_config();
    let point = point(&new_key_pair(), &payload(&conf), &conf);

    let serialized = (0..PEERS)
        .map(|_| point.serialized().to_vec())
        .collect::<Vec<_>>();

    let timer = Instant::now();
    for bytes in serialized {
        assert!(Point::from_bytes(&ids(), bytes).is_ok());
    }

    let elapsed = timer.elapsed();
    println!(
        "tl read of {PEERS} point of size {} bytes of point with {} bytes payload took {}",
        point.serialized().len(),
        point.info().payload_bytes,
        humantime::format_duration(elapsed)
    );
}

#[test]
pub fn read_payload_from_tl() {
    let conf = test_config();
    let payload = payload(&conf);
    let point = point(&new_key_pair(), &payload, &conf);
    let info = point.info();

    let arena = PayloadArena::new();
    let payload_r = Point::read_payload_from_tl_bytes(&ids(), point.serialized(), &arena)
        .expect("payload of point bytes");

    assert_eq!(payload, payload_r);
    assert_eq!(payload.len(), info.payload_len as usize);
    assert_eq!(
        payload.iter().map(|m| m.len()).sum::<usize>(),
        info.payload_bytes as usize
    );
}

#[test]
pub fn massive_point_serialization() {
    let conf = test_config();
    let payload = payload(&conf);
    let point = point(&new_key_pair(), &payload, &conf);
    let info = point.info();

    let mut data = Vec::<u8>::with_capacity(conf.point_max_bytes);
    let timer = Instant::now();
    const POINTS_LEN: u32 = 100;
    for _ in 0..POINTS_LEN {
        data.clear();
        write_point(
            &Digest::wrap([0; 32]),
            &Signature([0; 64]),
            info,
            &payload,
            &mut data,
        );
    }
    assert_eq!(data.len(), point.serialized().len());

    let elapsed = timer.elapsed();
    println!(
        "tl write of {POINTS_LEN} point of size {} bytes of point with {} bytes payload took {}",
        point.serialized().len(),
        info.payload_bytes,
        humantime::format_duration(elapsed)
    );
}

#[test]
fn points_do_not_exceed_the_greatest_size() {
    let conf = test_config();
    assert_eq!(Point::max_byte_size(&conf.consensus), conf.point_max_bytes);
    let point = point(&new_key_pair(), &payload(&conf), &conf);
    assert!(point.serialized().len() <= conf.point_max_bytes);
}

#[test]
fn keys_and_digests_are_those_of_the_crates() {
    let secret = [7u8; 32];
    let keys = KeyPair::from_secret(HashBytes(secret));
    let expected = everscale_crypto::ed25519::KeyPair::from(
        &everscale_crypto::ed25519::SecretKey::from_bytes(secret),
    );
    assert_eq!(&keys.public.0, expected.public_key.as_bytes());
    let digest = Digest::new(b"abc");
    assert_eq!(&digest.0, blake3::hash(b"abc").as_bytes());
    let signature = Signature::new(&keys, &digest);
    assert_eq!(signature.0, expected.sign_raw(&digest.0));
    assert!(signature.verifies(&keys.public, &digest));
    assert!(!signature.verifies(&keys.public, &Digest::new(b"abd")));
    assert!(!signature.verifies(&HashBytes([0xff; 32]), &digest));
}

#[test]
fn a_point_of_someone_else_is_refused() {
    let conf = test_config();
    let keys = new_key_pair();
    let made = point(&keys, &vec![vec![1, 2, 3]], &conf);
    let mut bytes = made.serialized().to_vec();
    // the signature
    bytes[40] ^= 1;
    assert_eq!(
        Point::parse(&ids(), bytes),
        Ok(Err(PointIntegrityError::BadSig))
    );
    // the payload: the signature is that of the old digest
    let mut bytes = made.serialized().to_vec();
    let last = bytes.len() - 1;
    bytes[last] ^= 1;
    assert_eq!(
        Point::parse(&ids(), bytes),
        Ok(Err(PointIntegrityError::BadHash))
    );
    // the constructor
    let mut bytes = made.serialized().to_vec();
    bytes[0] ^= 1;
    assert_eq!(
        Point::parse(&ids(), bytes),
        Err(TlError::UnknownConstructor)
    );
    assert_eq!(
        Point::from_bytes(&ids(), vec![0xa4, 0, 0, 0, 1]),
        Err(TlError::UnexpectedEof)
    );
}

#[test]
fn maps_that_contradict_each_other_are_refused() {
    let conf = test_config();
    let keys = new_key_pair();
    let round = Round(100);
    // the evidence without the previous point
    let mut data = data_of(&keys, round, UnixTime::from_millis(5));
    data.includes = PeerMap::new();
    let made = Point::new(&ids(), &keys, keys.public, round, &vec![], data, &conf);
    assert!(!made.info().has_well_formed_maps());
    assert_eq!(
        Point::parse(&ids(), made.serialized().to_vec()),
        Ok(Err(PointIntegrityError::BadMaps))
    );
}

#[test]
fn evidence_has_to_verify() {
    let conf = test_config();
    let keys = new_key_pair();
    let round = Round(100);
    let data = data_of(&keys, round, UnixTime::from_millis(5));
    let made = Point::new(&ids(), &keys, keys.public, round, &vec![], data, &conf);
    assert!(made.info().is_evidence_ok());
    assert_eq!(made.info().prev_digest(), Some(&Digest::new(&[42])));

    let other = new_key_pair();
    let mut data = data_of(&keys, round, UnixTime::from_millis(5));
    data.evidence
        .insert(other.public, Signature::new(&other, &Digest::new(&[43])));
    let made = Point::new(&ids(), &keys, keys.public, round, &vec![], data, &conf);
    assert!(!made.info().is_evidence_ok());
}

#[test]
fn rounds_and_times() {
    assert_eq!(Round::bottom(), Round(0));
    assert_eq!(Round(5).next(), Round(6));
    assert_eq!(Round(5).prev(), Round(4));
    assert_eq!(Round(5) + 3_u8, Round(8));
    assert_eq!(Round(5) + 300_u16, Round(305));
    assert_eq!(Round(5) + u32::MAX, Round(u32::MAX));
    assert_eq!(Round(5) - 3_u8, Round(2));
    assert_eq!(Round(5) - 6_u16, Round(0));
    assert_eq!((Round(5) + 70_000_u32) - 70_000_u32, Round(5));
    let time = UnixTime::from_millis(10);
    assert_eq!(time.next().millis(), 11);
    assert_eq!(UnixTime::from_millis(u64::MAX).next().millis(), u64::MAX);
    assert_eq!((time + time).millis(), 20);
    assert_eq!((time - UnixTime::from_millis(11)).millis(), 0);
}

#[test]
fn peer_maps_are_sorted() {
    let mut map = PeerMap::new();
    map.insert(HashBytes([3; 32]), Digest::wrap([30; 32]));
    map.insert(HashBytes([1; 32]), Digest::wrap([10; 32]));
    map.insert(HashBytes([3; 32]), Digest::wrap([31; 32]));
    assert_eq!(map.len(), 2);
    assert!(!map.is_empty());
    assert_eq!(map.get(&HashBytes([3; 32])), Some(&Digest::wrap([31; 32])));
    assert!(!map.contains_key(&HashBytes([2; 32])));
    assert_eq!(map.entries[0].peer, HashBytes([1; 32]));
}

#[test]
fn the_genesis_is_signed_by_its_author() {
    let merged = default_test_config(&mut NodeConfig::new(), Round(1));
    let genesis = merged.genesis(&ids());
    assert_eq!(genesis.info().author, merged.genesis_author());
    assert_eq!(genesis.info().round, Round(1));
    let parsed = Point::parse(&ids(), genesis.serialized().to_vec());
    assert_eq!(parsed, Ok(Ok(genesis)));
}

#[test]
fn times_and_rounds_are_ordered() {
    let time = UnixTime::from_millis;
    for (a, b) in [(3, 5), (0, u64::MAX), (7, 7)] {
        assert_eq!(time(a) < time(b), a < b);
        assert_eq!(time(a) <= time(b), a <= b);
        assert_eq!(time(b) > time(a), b > a);
        assert_eq!(time(b) >= time(a), b >= a);
        assert_eq!((time(a) + time(b)).millis(), a.saturating_add(b));
        assert_eq!((time(a) - time(b)).millis(), a.saturating_sub(b));
        assert_eq!(time(a).cmp(&time(b)), a.cmp(&b));
    }
    assert!(Round(3) < Round(4) && Round(4) >= Round(4) && Round(u32::MAX) > Round(0));
    assert_eq!(Round(3).max(Round(9)), Round(9));
}

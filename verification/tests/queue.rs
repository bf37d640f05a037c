//! Queue keys, addresses, diffs and states.
use tycho::ids::{HashBytes, ShardIdent};
use tycho::queue::addr::{IntAddr, ProcessedTo, RouterAddr, RouterPartition, StdAddr, VarAddr};
use tycho::queue::diff::QueueDiff;
use tycho::queue::key::QueueKey;
use tycho::queue::state::{QueueState, QueueStateHeader, QueueStateRef};
use tycho::tl::{TlError, TlScheme};

fn ids() -> TlScheme {
    TlScheme {
        queue_diff: 0xa1,
        queue_state: 0xa2,
        queue_state_header: 0xa3,
        point: 0xa4,
        point_info: 0xa5,
        link_to_self: 0xa6,
        link_direct: 0xa7,
        link_indirect: 0xa8,
        through_includes: 0xa9,
        through_witness: 0xaa,
    }
}

fn key(lt: u64, byte: u8) -> QueueKey {
    QueueKey {
        lt,
        hash: HashBytes([byte; 32]),
    }
}

fn partitions() -> Vec<RouterPartition> {
    let addr1 = RouterAddr {
        workchain: 0,
        account: HashBytes([0x01; 32]),
    };
    let addr2 = RouterAddr {
        workchain: 1,
        account: HashBytes([0x02; 32]),
    };
    vec![RouterPartition {
        index: 1,
        accounts: vec![addr1, addr2],
    }]
}

fn sample_diff(seqno: u32, prev_hash: HashBytes) -> QueueDiff {
    QueueDiff {
        hash: HashBytes::zero(),
        prev_hash,
        shard_ident: ShardIdent::masterchain(),
        seqno,
        processed_to: vec![
            ProcessedTo {
                shard: ShardIdent::masterchain(),
                key: key(10 * seqno as u64, seqno as u8),
            },
            ProcessedTo {
                shard: ShardIdent::basechain(),
                key: key(123123 * seqno as u64, seqno as u8 * 2),
            },
        ],
        min_message: key(1, 0x11),
        max_message: key(123, 0x22),
        messages: vec![
            HashBytes([0x01; 32]),
            HashBytes([0x02; 32]),
            HashBytes([0x03; 32]),
        ],
        router_partitions_src: vec![],
        router_partitions_dst: partitions(),
    }
}

#[test]
fn queue_diff_binary_repr() {
    let mut diff = QueueDiff {
        hash: HashBytes::zero(),
        prev_hash: HashBytes([0x33; 32]),
        shard_ident: ShardIdent::masterchain(),
        seqno: 123,
        processed_to: vec![
            ProcessedTo {
                shard: ShardIdent::masterchain(),
                key: key(1, 0x11),
            },
            ProcessedTo {
                shard: ShardIdent::basechain(),
                key: key(123123, 0x22),
            },
        ],
        min_message: key(1, 0x11),
        max_message: key(123, 0x22),
        messages: vec![
            HashBytes([0x01; 32]),
            HashBytes([0x02; 32]),
            HashBytes([0x03; 32]),
        ],
        router_partitions_src: vec![],
        router_partitions_dst: partitions(),
    };

    let bytes = diff.serialize(&ids());
    assert_eq!(bytes.len(), diff.max_size_hint(&ids()));

    let parsed = QueueDiff::deserialize(&ids(), &bytes).unwrap();
    assert_eq!(parsed.hash, QueueDiff::compute_hash(&bytes));

    diff.hash = parsed.hash;
    assert_eq!(diff, parsed);
}

#[test]
fn queue_state_binary_repr() {
    let mut queue_diffs = Vec::<QueueDiff>::new();
    for seqno in 1..=10 {
        let prev_hash = queue_diffs
            .last()
            .map(|diff| diff.hash)
            .unwrap_or(HashBytes::zero());
        let mut diff = sample_diff(seqno, prev_hash);
        diff.recompute_hash(&ids());
        queue_diffs.push(diff);
    }
    queue_diffs.reverse();

    let state = QueueStateHeader {
        shard_ident: ShardIdent::masterchain(),
        seqno: 10,
        queue_diffs,
    };

    let bytes = state.serialize(&ids());
    assert_eq!(bytes.len(), state.max_size_hint(&ids()));

    let parsed = QueueStateHeader::deserialize(&ids(), &bytes).unwrap();
    assert_eq!(state, parsed);
}

#[test]
fn test_next_value() {
    // the hash is zero
    let key_zero = QueueKey {
        lt: 5,
        hash: HashBytes::zero(),
    };
    let next_zero = key_zero.next_value();
    assert_eq!(next_zero.lt, 5);
    let mut expected_hash_zero = [0u8; 32];
    expected_hash_zero[31] = 1;
    assert_eq!(next_zero.hash.0, expected_hash_zero);

    // the carry goes over two bytes
    let mut partial_ff = [0u8; 32];
    partial_ff[30] = 0xFF;
    partial_ff[31] = 0xFF;
    let key_partial_ff = QueueKey {
        lt: 10,
        hash: HashBytes(partial_ff),
    };
    let next_partial_ff = key_partial_ff.next_value();
    let mut expected_hash_partial = [0u8; 32];
    expected_hash_partial[29] = 0x01;
    assert_eq!(next_partial_ff.lt, 10);
    assert_eq!(next_partial_ff.hash.0, expected_hash_partial);

    // the hash is the greatest one
    let key_full_ff = QueueKey {
        lt: 999,
        hash: HashBytes([0xFF; 32]),
    };
    let next_full_ff = key_full_ff.next_value();
    assert_eq!(next_full_ff.lt, 1000);
    assert_eq!(next_full_ff.hash.0, [0u8; 32]);

    // the carry stops at a byte that is not zero
    let mut mid_hash = [0u8; 32];
    mid_hash[29] = 0x01;
    mid_hash[30] = 0xFF;
    mid_hash[31] = 0xFF;
    let key_mid = QueueKey {
        lt: 50,
        hash: HashBytes(mid_hash),
    };
    let next_mid = key_mid.next_value();
    let mut expected_mid_hash = [0u8; 32];
    expected_mid_hash[29] = 0x02;
    assert_eq!(next_mid.lt, 50);
    assert_eq!(next_mid.hash.0, expected_mid_hash);
}

#[test]
fn nothing_lies_between_a_key_and_the_next_one() {
    let low = key(7, 0xff);
    let next = low.next_value();
    assert!(low.less(&next));
    assert!(!next.less(&low));
    assert!(next.same(&QueueKey::min_for_lt(8)));
    assert!(QueueKey::max_for_lt(7).same(&low));
    assert!(QueueKey::min().less(&QueueKey::max()));
    assert_eq!(QueueKey::from((3, HashBytes([9; 32]))).split(), (3, HashBytes([9; 32])));
    assert!(QueueKey::default().same(&QueueKey::min()));
}

#[test]
fn the_hash_is_that_of_the_bytes() {
    let bytes = sample_diff(1, HashBytes::zero()).serialize(&ids());
    let hash = QueueDiff::compute_hash(&bytes);
    assert_eq!(&hash.0, blake3::hash(&bytes).as_bytes());
    let mut diff = sample_diff(1, HashBytes::zero());
    diff.recompute_hash(&ids());
    assert_eq!(diff.hash, hash);
}

#[test]
fn a_changed_byte_is_noticed() {
    let diff = sample_diff(3, HashBytes([7; 32]));
    let bytes = diff.serialize(&ids());
    // the first bytes are the constructor
    let mut other = bytes.clone();
    other[0] ^= 1;
    assert_eq!(
        QueueDiff::deserialize(&ids(), &other),
        Err(TlError::UnknownConstructor)
    );
    // a diff that is cut off
    assert_eq!(
        QueueDiff::deserialize(&ids(), &bytes[..bytes.len() - 1]),
        Err(TlError::UnexpectedEof)
    );
    // every diff that is read gives its own bytes again
    for i in 0..bytes.len() {
        let mut other = bytes.clone();
        other[i] ^= 0x40;
        if let Ok(parsed) = QueueDiff::deserialize(&ids(), &other) {
            assert_eq!(parsed.serialize(&ids()), other);
        }
    }
}

#[test]
fn messages_have_to_ascend() {
    let mut diff = sample_diff(3, HashBytes([7; 32]));
    diff.messages = vec![HashBytes([2; 32]), HashBytes([1; 32])];
    let bytes = diff.serialize(&ids());
    assert_eq!(
        QueueDiff::deserialize(&ids(), &bytes),
        Err(TlError::InvalidData)
    );
}

#[test]
fn a_broken_chain_is_refused() {
    let mut first = sample_diff(1, HashBytes::zero());
    first.recompute_hash(&ids());
    let mut second = sample_diff(2, HashBytes([1; 32]));
    second.recompute_hash(&ids());
    let header = QueueStateHeader {
        shard_ident: ShardIdent::masterchain(),
        seqno: 2,
        queue_diffs: vec![second, first],
    };
    let bytes = header.serialize(&ids());
    assert_eq!(
        QueueStateHeader::deserialize(&ids(), &bytes),
        Err(TlError::InvalidData)
    );
}

#[test]
fn a_state_is_read_back() {
    let mut diff = sample_diff(1, HashBytes::zero());
    diff.recompute_hash(&ids());
    let header = QueueStateHeader {
        shard_ident: ShardIdent::masterchain(),
        seqno: 1,
        queue_diffs: vec![diff],
    };
    let state = QueueState {
        header,
        messages: vec![vec![1, 2, 3], vec![], vec![5; 300]],
    };
    let bytes = state.serialize(&ids());
    assert_eq!(bytes.len(), state.max_size_hint(&ids()));
    assert_eq!(QueueState::deserialize(&ids(), &bytes), Ok(state));
    let borrowed = QueueStateRef::deserialize(&ids(), &bytes).unwrap();
    assert_eq!(borrowed.messages[2], &[5u8; 300][..]);
    assert_eq!(borrowed.messages.len(), 3);
    assert_eq!(borrowed.header.seqno, 1);
    // what is borrowed is written the same
    assert_eq!(borrowed.max_size_hint(&ids()), bytes.len());
    let again = borrowed.serialize(&ids());
    assert_eq!(again, bytes);
    assert_eq!(QueueStateRef::deserialize(&ids(), &again), Ok(borrowed));
}

#[test]
fn router_addresses() {
    let low = RouterAddr::min();
    let high = RouterAddr::max();
    assert!(low.less(&high));
    assert_eq!((low.workchain, high.workchain), (i8::MIN, i8::MAX));
    let std = StdAddr {
        workchain: 3,
        address: HashBytes([8; 32]),
    };
    let addr = RouterAddr::from(std.clone());
    assert_eq!(addr.workchain, 3);
    assert_eq!(addr.account, HashBytes([8; 32]));
    assert_eq!(RouterAddr::from_int_addr(&addr.to_int_addr()), Some(addr));
    assert_eq!(
        RouterAddr::from_int_addr(&IntAddr::Var(VarAddr {
            workchain: 0,
            address: vec![1],
        })),
        None
    );
}

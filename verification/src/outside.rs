//! Calls into other crates. Every contract in this file is believed, not
//! proved: each says in words what it takes from the function that it calls.
use crate::ids::{BlockId, HashBytes};
use crate::models::parts::Signature;
use crate::types::ValidatorDescription;
use everscale_crypto::ed25519;
use everscale_types::models;
use std::num::NonZeroU16;
use vstd::prelude::*;

verus! {

/// The BLAKE3 digest of a byte string.
pub uninterp spec fn blake3_digest(data: Seq<u8>) -> Seq<u8>;

/// Calls `everscale_types::boc::Boc::file_hash_blake`, which returns the BLAKE3
/// digest of the bytes. The digest is taken to be a function of the bytes.
#[verifier::external_body]
pub(crate) fn file_hash_blake(data: &[u8]) -> (r: HashBytes)
    ensures
        r@ == blake3_digest(data@),
{
    HashBytes(everscale_types::boc::Boc::file_hash_blake(data).0)
}

/// The BLAKE3 hash of a byte string, as the hash crate gives it.
pub uninterp spec fn blake3_of(data: Seq<u8>) -> Seq<u8>;

/// Calls `blake3::hash`. The hash is taken to be a function of the bytes.
#[verifier::external_body]
pub(crate) fn blake3_hash(data: &[u8]) -> (r: HashBytes)
    ensures
        r@ == blake3_of(data@),
{
    HashBytes(blake3::hash(data).into())
}

/// The Streebog hash, of 256 bits, of a byte string.
pub uninterp spec fn streebog256_of(data: Seq<u8>) -> Seq<u8>;

/// Calls `streebog::Streebog256` with the bytes as its only input. The hash is
/// taken to be a function of the bytes.
#[verifier::external_body]
pub(crate) fn streebog256(data: &[u8]) -> (r: HashBytes)
    ensures
        r@ == streebog256_of(data@),
{
    HashBytes(<streebog::Streebog256 as streebog::Digest>::digest(data).into())
}

/// The Ed25519 public key of a secret key.
pub uninterp spec fn public_key_of(secret: Seq<u8>) -> Seq<u8>;

/// The Ed25519 signature that a secret key makes under a message.
pub uninterp spec fn signature_of(secret: Seq<u8>, message: Seq<u8>) -> Seq<u8>;

/// Whether a signature under a message verifies with a public key. Bytes that
/// are no public key verify nothing.
pub uninterp spec fn signature_verifies(
    public: Seq<u8>,
    message: Seq<u8>,
    signature: Seq<u8>,
) -> bool;

/// Whether bytes are an Ed25519 public key.
pub uninterp spec fn is_public_key(public: Seq<u8>) -> bool;

/// Calls `From<&SecretKey>` of `everscale_crypto::ed25519::PublicKey`. The
/// public key is taken to be a function of the secret key.
#[verifier::external_body]
pub(crate) fn ed25519_public_key(secret: &HashBytes) -> (r: HashBytes)
    ensures
        r@ == public_key_of(secret@),
{
    HashBytes(ed25519::PublicKey::from(&ed25519::SecretKey::from_bytes(secret.0)).to_bytes())
}

/// Calls `everscale_crypto::ed25519::KeyPair::sign_raw`. It signs without
/// chance: the signature is taken to be a function of the secret key and the
/// message, and to verify with the public key.
#[verifier::external_body]
pub(crate) fn ed25519_sign(secret: &HashBytes, message: &[u8]) -> (r: Signature)
    ensures
        r@ == signature_of(secret@, message@),
        signature_verifies(public_key_of(secret@), message@, r@),
{
    let key_pair = ed25519::KeyPair::from(&ed25519::SecretKey::from_bytes(secret.0));
    Signature(key_pair.sign_raw(message))
}

/// Calls `everscale_crypto::ed25519::PublicKey::verify_raw` with the key that
/// the bytes denote. The answer is taken to be a function of the key, the
/// message and the signature.
#[verifier::external_body]
pub(crate) fn ed25519_verify(public: &HashBytes, message: &[u8], signature: &Signature) -> (r: bool)
    ensures
        r == signature_verifies(public@, message@, signature@),
{
    match ed25519::PublicKey::from_bytes(public.0) {
        Some(key) => key.verify_raw(message, &signature.0),
        None => false,
    }
}

/// Calls `everscale_crypto::ed25519::PublicKey::from_bytes`, which gives a key
/// if the bytes denote one. Whether they do is taken to be a function of them.
#[verifier::external_body]
pub(crate) fn ed25519_key_valid(public: &HashBytes) -> (r: bool)
    ensures
        r == is_public_key(public@),
{
    ed25519::PublicKey::from_bytes(public.0).is_some()
}

/// Calls `everscale_types::models::Block::build_data_for_sign`, which puts a
/// tag of four bytes before the root hash and the file hash of the block.
#[verifier::external_body]
pub(crate) fn build_data_for_sign(block_id: &BlockId) -> (r: Vec<u8>)
    ensures
        r@ == crate::validator::session::data_for_sign(*block_id),
{
    let id = models::BlockId {
        shard: models::ShardIdent::new(block_id.shard.workchain, block_id.shard.prefix)
            .unwrap_or_default(),
        seqno: block_id.seqno,
        root_hash: block_id.root_hash.0.into(),
        file_hash: block_id.file_hash.0.into(),
    };
    models::Block::build_data_for_sign(&id).to_vec()
}

/// What is signed of data where signatures are bound to a network: its number,
/// most significant byte first, stands before the data.
pub open spec fn with_signature_id(data: Seq<u8>, signature_id: Option<i32>) -> Seq<u8> {
    match signature_id {
        Some(id) => crate::bytes::be_bytes(
            4,
            crate::tl::i32_bits(id) as nat,
        ) + data,
        None => data,
    }
}

/// Calls `everscale_types::abi::extend_signature_with_id`, which puts the four
/// bytes of the number, if there is one, before the data.
#[verifier::external_body]
pub(crate) fn extend_signature_with_id(data: &[u8], signature_id: Option<i32>) -> (r: Vec<u8>)
    ensures
        r@ == with_signature_id(data@, signature_id),
{
    everscale_types::abi::extend_signature_with_id(data, signature_id).into_owned()
}

/// The hash of a TL representation.
pub uninterp spec fn tl_hash_of(data: Seq<u8>) -> Seq<u8>;

/// Calls `tl_proto::hash` on bytes that are a TL representation already. The
/// hash is taken to be a function of them.
#[verifier::external_body]
pub(crate) fn tl_hash(data: &[u8]) -> (r: HashBytes)
    ensures
        r@ == tl_hash_of(data@),
{
    HashBytes(tl_proto::hash(tl_proto::RawBytes::<tl_proto::Boxed>::new(data)))
}

/// The TL representation of an Ed25519 public key: the number of its
/// constructor, then the key.
pub open spec fn public_key_tl(key: Seq<u8>) -> Seq<u8> {
    crate::tl::le32(0x4813_b4c6) + key
}

/// Calls `tl_proto::hash` on `everscale_crypto::tl::PublicKey::Ed25519`, which
/// hashes the TL representation of the key.
#[verifier::external_body]
pub(crate) fn public_key_tl_hash(key: &HashBytes) -> (r: HashBytes)
    ensures
        r@ == tl_hash_of(public_key_tl(key@)),
{
    HashBytes(tl_proto::hash(everscale_crypto::tl::PublicKey::Ed25519 { key: &key.0 }))
}

/// Calls `tl_proto::bytes_max_size_hint`, which adds to a length the one or four
/// bytes that encode it and rounds up to a multiple of four.
#[verifier::external_body]
pub(crate) fn bytes_max_size_hint(len: usize) -> (r: usize)
    requires
        crate::tl_bytes::bytes_size(len as nat) <= usize::MAX,
    ensures
        r == crate::tl_bytes::bytes_size(len as nat),
{
    tl_proto::bytes_max_size_hint(len)
}

/// `bumpalo::Bump`, an arena of bytes.
#[verifier::external_type_specification]
#[verifier::external_body]
pub struct ExBump<const MIN_ALIGN: usize>(bumpalo::Bump<MIN_ALIGN>);

/// Calls `bumpalo::Bump::new`, which makes an arena without a limit.
#[verifier::external_body]
pub(crate) fn bump_new() -> bumpalo::Bump<1> {
    bumpalo::Bump::new()
}

/// Calls `bumpalo::Bump::alloc_slice_copy`, which copies bytes into the arena.
/// Like any allocation it gives up when there is no memory.
#[verifier::external_body]
pub(crate) fn bump_copy<'a>(bump: &'a bumpalo::Bump<1>, bytes: &[u8]) -> (r: &'a [u8])
    ensures
        r@ == bytes@,
{
    bump.alloc_slice_copy(bytes)
}

/// Calls `hex::encode`, which writes each byte as two hexadecimal digits in
/// lower case, the higher half first.
#[verifier::external_body]
pub(crate) fn hex_encode(data: &[u8]) -> (r: String)
    ensures
        r@ == crate::text::hex_text(data@),
{
    hex::encode(data)
}

/// The subset of validators that serves a session of the masterchain, with the
/// hash that names it.
pub uninterp spec fn mc_subset(
    list: Seq<ValidatorDescription>,
    main: u16,
    cc_seqno: u32,
    shuffle: bool,
) -> Option<(Seq<ValidatorDescription>, u32)>;

/// Calls `everscale_types::models::ValidatorSet::compute_mc_subset`. It takes
/// the first `main` validators of the list, in their order or, with `shuffle`,
/// in an order drawn from the session number, and hashes them. It always finds a
/// subset, an empty one if the list is empty. The result is taken to be a
/// function of the list, `main`, the number and the flag.
#[verifier::external_body]
pub(crate) fn compute_mc_subset(
    list: &Vec<ValidatorDescription>,
    main: u16,
    cc_seqno: u32,
    shuffle: bool,
) -> (r: Option<(Vec<ValidatorDescription>, u32)>)
    requires
        main > 0,
    ensures
        r is Some,
        match (r, mc_subset(list@, main, cc_seqno, shuffle)) {
            (Some((validators, hash)), Some((named, named_hash))) => validators@ == named && hash
                == named_hash,
            (None, None) => true,
            _ => false,
        },
        !shuffle ==> (r matches Some((validators, hash)) ==> validators@ == list@.take(
            if list@.len() < main {
                list@.len() as int
            } else {
                main as int
            },
        )),
{
    let entry = |v: &ValidatorDescription| models::ValidatorDescription {
        public_key: v.public_key.0.into(), weight: v.weight, mc_seqno_since: 0,
        adnl_addr: v.adnl_addr.map(|a| a.0.into()), prev_total_weight: 0,
    };
    let set = models::ValidatorSet {
        utime_since: 0, utime_until: 0, total_weight: 0, main: NonZeroU16::new(main)?,
        list: list.iter().map(entry).collect(),
    };
    let (subset, hash) = set.compute_mc_subset(cc_seqno, shuffle)?;
    let back = |v: &models::ValidatorDescription| ValidatorDescription {
        public_key: HashBytes(v.public_key.0), weight: v.weight,
        adnl_addr: v.adnl_addr.map(|a| HashBytes(a.0)),
    };
    Some((subset.iter().map(back).collect(), hash))
}

/// `scc::TreeIndex`, an ordered map that can be read without locks.
#[verifier::external_type_specification]
#[verifier::external_body]
#[verifier::reject_recursive_types(K)]
#[verifier::reject_recursive_types(V)]
pub struct ExTreeIndex<K, V>(scc::TreeIndex<K, V>);

/// A tree of slot numbers, keyed by block number.
pub type SeqnoTree = scc::TreeIndex<u32, u64>;

/// The entries of a tree.
pub uninterp spec fn tree_contents(tree: scc::TreeIndex<u32, u64>) -> Map<u32, u64>;

/// Calls `scc::TreeIndex::new`, which makes a tree without entries.
#[verifier::external_body]
pub(crate) fn tree_new() -> (r: SeqnoTree)
    ensures
        tree_contents(r).dom() == Set::<u32>::empty(),
{
    scc::TreeIndex::new()
}

/// Calls `scc::TreeIndex::insert`, which adds an entry unless its key is there
/// already; then it changes nothing and says so.
#[verifier::external_body]
pub(crate) fn tree_insert(tree: &mut SeqnoTree, key: u32, value: u64) -> (r: bool)
    ensures
        r == !tree_contents(*old(tree)).dom().contains(key),
        tree_contents(*final(tree)) == (if r {
            tree_contents(*old(tree)).insert(key, value)
        } else {
            tree_contents(*old(tree))
        }),
{
    tree.insert(key, value).is_ok()
}

/// Calls `scc::TreeIndex::peek_with`, which hands the value of a key to the
/// closure; the closure copies it.
#[verifier::external_body]
pub(crate) fn tree_get(tree: &SeqnoTree, key: u32) -> (r: Option<u64>)
    ensures
        r == (if tree_contents(*tree).dom().contains(key) {
            Some(tree_contents(*tree)[key])
        } else {
            None
        }),
{
    tree.peek_with(&key, |_key, value| *value)
}

/// Calls `scc::TreeIndex::remove`, which takes out the entry of a key and says
/// whether there was one.
#[verifier::external_body]
pub(crate) fn tree_remove(tree: &mut SeqnoTree, key: u32) -> (r: bool)
    ensures
        r == tree_contents(*old(tree)).dom().contains(key),
        tree_contents(*final(tree)) == tree_contents(*old(tree)).remove(key),
{
    tree.remove(&key)
}

/// Calls `scc::TreeIndex::remove_range` for all keys up to `key`, which takes
/// out every entry in the range.
#[verifier::external_body]
pub(crate) fn tree_remove_upto(tree: &mut SeqnoTree, key: u32)
    ensures
        tree_contents(*final(tree)) == tree_contents(*old(tree)).restrict(
            tree_contents(*old(tree)).dom().filter(|k: u32| k > key),
        ),
{
    tree.remove_range(..=key);
}

/// Calls `scc::TreeIndex::range` for all keys up to `key`, which scans the
/// entries in the range in ascending order of keys.
#[verifier::external_body]
pub(crate) fn tree_range_upto(tree: &SeqnoTree, key: u32) -> (r: Vec<(u32, u64)>)
    ensures
        forall|i: int, j: int| 0 <= i < j < r@.len() ==> (#[trigger] r@[i]).0 < (#[trigger] r@[j]).0,
        forall|i: int|
            0 <= i < r@.len() ==> (#[trigger] r@[i]).0 <= key && tree_contents(
                *tree,
            ).dom().contains(r@[i].0) && tree_contents(*tree)[r@[i].0] == r@[i].1,
        forall|k: u32| #[trigger]
            tree_contents(*tree).dom().contains(k) && k <= key ==> exists|i: int|
                0 <= i < r@.len() && (#[trigger] r@[i]).0 == k,
{
    let guard = scc::ebr::Guard::new();
    tree.range(..=key, &guard).map(|(k, v)| (*k, *v)).collect()
}

/// Where signatures are bound to a network, four bytes stand before what is signed:
/// the number of the network, most significant byte first. Otherwise nothing does.
pub proof fn law_network_stands_before_the_data(data: Seq<u8>, id: i32)
    ensures
        with_signature_id(data, None) == data,
        with_signature_id(data, Some(id)).len() == data.len() + 4,
        with_signature_id(data, Some(id)).skip(4) == data,
        ({
            let s = with_signature_id(data, Some(id));
            s[0] * 0x100_0000 + s[1] * 0x1_0000 + s[2] * 0x100 + s[3] == if id < 0 {
                id + 0x1_0000_0000
            } else {
                id as int
            }
        }),
{
    crate::bytes::law_four_bytes_of_a_number(crate::tl::i32_bits(id));
    assert(with_signature_id(data, Some(id)).skip(4) =~= data);
}

} // verus!

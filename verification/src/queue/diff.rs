//! Diffs of the message queue and their binary form.
use crate::bytes::bytes_equal;
use crate::ids::{HashBytes, ShardIdent};
use crate::outside::file_hash_blake;
use crate::queue::addr::{read_key, write_key, ProcessedTo, RouterPartition};
use crate::queue::key::QueueKey;
use crate::tl::{
    read_hash, read_shard, read_u32, write_hash, write_shard, write_u32, TlError, TlScheme,
};
use crate::tl_list::{list_size, read_list, write_list, TlItem};
use vstd::prelude::*;

verus! {

/// How many shards a diff can hold a boundary for.
pub const MAX_PROCESSED_TO: u32 = 1000;

/// How many messages a diff can list.
pub const MAX_MESSAGES: u32 = 10_000_000;

/// How many partitions a diff can list: one for each 16-bit number.
pub const MAX_PARTITIONS: u32 = 65_536;

/// Message hashes are listed in ascending order, and none is zero.
impl TlItem for HashBytes {
    type Model = Seq<u8>;

    open spec fn model(&self) -> Seq<u8> {
        self@
    }

    open spec fn fits(m: Seq<u8>) -> bool {
        true
    }

    open spec fn enc(ids: TlScheme, m: Seq<u8>) -> Seq<u8> {
        m
    }

    open spec fn dec(ids: TlScheme, prev: Option<Seq<u8>>, s: Seq<u8>, p: int) -> Result<
        (Seq<u8>, int),
        TlError,
    > {
        match crate::tl::get_raw(s, p, 32) {
            Err(e) => Err(e),
            Ok((m, e)) => if Self::valid(ids, prev, m) {
                Ok((m, e))
            } else {
                Err(TlError::InvalidData)
            },
        }
    }

    open spec fn valid(ids: TlScheme, prev: Option<Seq<u8>>, m: Seq<u8>) -> bool {
        &&& m.len() == 32
        &&& crate::bytes::be_nat(m) > (if prev is Some {
            crate::bytes::be_nat(prev->0)
        } else {
            0
        })
    }

    open spec fn strict() -> bool {
        true
    }

    proof fn lemma_round_trip(
        ids: TlScheme,
        prev: Option<Seq<u8>>,
        m: Seq<u8>,
        s: Seq<u8>,
        p: int,
    ) {
    }

    proof fn lemma_canonical(ids: TlScheme, prev: Option<Seq<u8>>, s: Seq<u8>, p: int) {
    }

    fn write(&self, ids: &TlScheme, packet: &mut Vec<u8>) {
        write_hash(packet, self);
    }

    fn size(&self, ids: &TlScheme) -> (r: usize) {
        32
    }

    fn read(ids: &TlScheme, prev: Option<&Self>, data: &[u8], pos: usize) -> (r: Result<
        (Self, usize),
        TlError,
    >) {
        match read_hash(data, pos) {
            Err(e) => Err(e),
            Ok((hash, end)) => {
                let in_order = match prev {
                    Some(before) => before.less(&hash),
                    None => {
                        let zero = HashBytes::zero();
                        proof {
                            crate::bytes::lemma_be_nat_zero(zero@);
                        }
                        zero.less(&hash)
                    },
                };
                if in_order {
                    Ok((hash, end))
                } else {
                    Err(TlError::InvalidData)
                }
            },
        }
    }
}

/// The changes that one block makes to the message queue.
#[derive(Debug, PartialEq, Eq)]
pub struct QueueDiff {
    /// The digest of the binary form, in which this field does not occur.
    pub hash: HashBytes,
    /// The digest of the diff before this one.
    pub prev_hash: HashBytes,
    /// The shard of the block.
    pub shard_ident: ShardIdent,
    /// The number of the block.
    pub seqno: u32,
    /// How far each shard is processed, in ascending order of shards.
    pub processed_to: Vec<ProcessedTo>,
    /// The least message key.
    pub min_message: QueueKey,
    /// The greatest message key.
    pub max_message: QueueKey,
    /// Message hashes in ascending order.
    pub messages: Vec<HashBytes>,
    /// Partitions by sender, in ascending order of their numbers.
    pub router_partitions_src: Vec<RouterPartition>,
    /// Partitions by receiver, in ascending order of their numbers.
    pub router_partitions_dst: Vec<RouterPartition>,
}

/// The mathematical content of a [`QueueDiff`].
#[verifier::ext_equal]
pub struct DiffModel {
    pub hash: Seq<u8>,
    pub prev_hash: Seq<u8>,
    pub shard_ident: ShardIdent,
    pub seqno: u32,
    pub processed_to: Seq<(ShardIdent, (u64, Seq<u8>))>,
    pub min_message: (u64, Seq<u8>),
    pub max_message: (u64, Seq<u8>),
    pub messages: Seq<Seq<u8>>,
    pub src: Seq<(u16, Seq<(i8, Seq<u8>)>)>,
    pub dst: Seq<(u16, Seq<(i8, Seq<u8>)>)>,
}

impl View for QueueDiff {
    type V = DiffModel;

    open spec fn view(&self) -> DiffModel {
        DiffModel {
            hash: self.hash@,
            prev_hash: self.prev_hash@,
            shard_ident: self.shard_ident,
            seqno: self.seqno,
            processed_to: crate::tl_list::models(self.processed_to@),
            min_message: crate::queue::addr::key_model(self.min_message),
            max_message: crate::queue::addr::key_model(self.max_message),
            messages: crate::tl_list::models(self.messages@),
            src: crate::tl_list::models(self.router_partitions_src@),
            dst: crate::tl_list::models(self.router_partitions_dst@),
        }
    }
}

/// The lists of messages and partitions that end a diff.
pub open spec fn enc_diff_lists(ids: TlScheme, m: DiffModel) -> Seq<u8> {
    crate::tl_list::enc_list::<HashBytes>(ids, m.messages) + (crate::tl_list::enc_list::<
        RouterPartition,
    >(ids, m.src) + crate::tl_list::enc_list::<RouterPartition>(ids, m.dst))
}

/// The part of a diff that follows the constructor number and the digest of the
/// diff before.
pub open spec fn enc_diff_tail(ids: TlScheme, m: DiffModel) -> Seq<u8> {
    crate::tl::le32(m.seqno) + (crate::tl_list::enc_list::<ProcessedTo>(ids, m.processed_to) + (
    crate::queue::addr::enc_key(m.min_message) + (crate::queue::addr::enc_key(m.max_message)
        + enc_diff_lists(ids, m))))
}

/// The bytes of a diff.
pub open spec fn enc_diff(ids: TlScheme, m: DiffModel) -> Seq<u8> {
    crate::tl::le32(ids.queue_diff) + (m.prev_hash + (crate::tl::enc_shard(m.shard_ident)
        + enc_diff_tail(ids, m)))
}

/// The lists of a diff, read at a position.
pub open spec fn get_diff_lists(ids: TlScheme, s: Seq<u8>, p: int) -> Result<
    (
        (
            Seq<Seq<u8>>,
            Seq<(u16, Seq<(i8, Seq<u8>)>)>,
            Seq<(u16, Seq<(i8, Seq<u8>)>)>,
        ),
        int,
    ),
    TlError,
> {
    match crate::tl_list::dec_list::<HashBytes>(ids, MAX_MESSAGES, s, p) {
        Err(e) => Err(e),
        Ok((messages, p1)) => match crate::tl_list::dec_list::<RouterPartition>(
            ids,
            MAX_PARTITIONS,
            s,
            p1,
        ) {
            Err(e) => Err(e),
            Ok((src, p2)) => match crate::tl_list::dec_list::<RouterPartition>(
                ids,
                MAX_PARTITIONS,
                s,
                p2,
            ) {
                Err(e) => Err(e),
                Ok((dst, p3)) => Ok(((messages, src, dst), p3)),
            },
        },
    }
}

/// A diff, read at a position. Its digest is that of the bytes read.
pub open spec fn get_diff(ids: TlScheme, s: Seq<u8>, p: int) -> Result<(DiffModel, int), TlError> {
    match crate::tl::get_u32(s, p) {
        Err(e) => Err(e),
        Ok((id, p1)) => if id != ids.queue_diff {
            Err(TlError::UnknownConstructor)
        } else {
            match crate::tl::get_raw(s, p1, 32) {
                Err(e) => Err(e),
                Ok((prev_hash, p2)) => match crate::tl::get_shard(s, p2) {
                    Err(e) => Err(e),
                    Ok((shard_ident, p3)) => get_diff_tail(ids, s, p, prev_hash, shard_ident, p3),
                },
            }
        },
    }
}

/// The rest of a diff that began at `p`.
pub open spec fn get_diff_tail(
    ids: TlScheme,
    s: Seq<u8>,
    p: int,
    prev_hash: Seq<u8>,
    shard_ident: ShardIdent,
    p3: int,
) -> Result<(DiffModel, int), TlError> {
    match crate::tl::get_u32(s, p3) {
        Err(e) => Err(e),
        Ok((seqno, p4)) => match crate::tl_list::dec_list::<ProcessedTo>(
            ids,
            MAX_PROCESSED_TO,
            s,
            p4,
        ) {
            Err(e) => Err(e),
            Ok((processed_to, p5)) => match crate::queue::addr::get_key(s, p5) {
                Err(e) => Err(e),
                Ok((min_message, p6)) => match crate::queue::addr::get_key(s, p6) {
                    Err(e) => Err(e),
                    Ok((max_message, p7)) => match get_diff_lists(ids, s, p7) {
                        Err(e) => Err(e),
                        Ok(((messages, src, dst), p8)) => if crate::queue::addr::key_less(
                            max_message,
                            min_message,
                        ) {
                            Err(TlError::InvalidData)
                        } else {
                            Ok(
                                (
                                    DiffModel {
                                        hash: crate::outside::blake3_digest(s.subrange(p, p8)),
                                        prev_hash,
                                        shard_ident,
                                        seqno,
                                        processed_to,
                                        min_message,
                                        max_message,
                                        messages,
                                        src,
                                        dst,
                                    },
                                    p8,
                                ),
                            )
                        },
                    },
                },
            },
        },
    }
}

/// Whether a diff can be written and read back.
pub open spec fn valid_diff(ids: TlScheme, m: DiffModel) -> bool {
    &&& m.hash == crate::outside::blake3_digest(enc_diff(ids, m))
    &&& m.prev_hash.len() == 32
    &&& m.shard_ident.valid()
    &&& crate::tl_list::valid_list::<ProcessedTo>(ids, MAX_PROCESSED_TO, m.processed_to)
    &&& m.min_message.1.len() == 32
    &&& m.max_message.1.len() == 32
    &&& !crate::queue::addr::key_less(m.max_message, m.min_message)
    &&& crate::tl_list::valid_list::<HashBytes>(ids, MAX_MESSAGES, m.messages)
    &&& crate::tl_list::valid_list::<RouterPartition>(ids, MAX_PARTITIONS, m.src)
    &&& crate::tl_list::valid_list::<RouterPartition>(ids, MAX_PARTITIONS, m.dst)
}

/// Whether the lists of a diff can be counted in 32 bits.
pub open spec fn diff_fits(m: DiffModel) -> bool {
    &&& m.processed_to.len() <= u32::MAX
    &&& m.messages.len() <= u32::MAX
    &&& crate::tl_list::list_fits::<RouterPartition>(m.src)
    &&& crate::tl_list::list_fits::<RouterPartition>(m.dst)
}

/// A written diff is read back, with its digest computed.
pub proof fn law_diff_round_trip(ids: TlScheme, m: DiffModel, s: Seq<u8>, p: int)
    requires
        valid_diff(ids, m),
        crate::tl::stands_at(s, p, enc_diff(ids, m)),
    ensures
        get_diff(ids, s, p) == Ok::<(DiffModel, int), TlError>((m, p + enc_diff(ids, m).len())),
{
    let id = crate::tl::le32(ids.queue_diff);
    let shard = crate::tl::enc_shard(m.shard_ident);
    let seqno = crate::tl::le32(m.seqno);
    let processed = crate::tl_list::enc_list::<ProcessedTo>(ids, m.processed_to);
    let low = crate::queue::addr::enc_key(m.min_message);
    let high = crate::queue::addr::enc_key(m.max_message);
    let messages = crate::tl_list::enc_list::<HashBytes>(ids, m.messages);
    let src = crate::tl_list::enc_list::<RouterPartition>(ids, m.src);
    let dst = crate::tl_list::enc_list::<RouterPartition>(ids, m.dst);
    let tail = enc_diff_tail(ids, m);
    let lists = enc_diff_lists(ids, m);
    crate::tl::lemma_le32(ids.queue_diff, Seq::empty());
    crate::tl::lemma_le32(m.seqno, Seq::empty());
    crate::tl::lemma_stands_split(s, p, id, m.prev_hash + (shard + tail));
    crate::tl::lemma_get_u32(s, p, ids.queue_diff);
    crate::tl::lemma_stands_split(s, p + 4, m.prev_hash, shard + tail);
    crate::tl::lemma_stands_split(s, p + 36, shard, tail);
    crate::tl::lemma_get_shard(s, p + 36, m.shard_ident);
    crate::tl::lemma_stands_split(s, p + 48, seqno, processed + (low + (high + lists)));
    crate::tl::lemma_get_u32(s, p + 48, m.seqno);
    crate::tl::lemma_stands_split(s, p + 52, processed, low + (high + lists));
    crate::tl_list::lemma_list_round_trip::<ProcessedTo>(
        ids,
        MAX_PROCESSED_TO,
        m.processed_to,
        s,
        p + 52,
    );
    let p5 = p + 52 + processed.len();
    crate::tl::lemma_stands_split(s, p5, low, high + lists);
    crate::queue::addr::lemma_get_key(s, p5, m.min_message);
    crate::tl::lemma_stands_split(s, p5 + 40, high, lists);
    crate::queue::addr::lemma_get_key(s, p5 + 40, m.max_message);
    let p7 = p5 + 80;
    crate::tl::lemma_stands_split(s, p7, messages, src + dst);
    crate::tl_list::lemma_list_round_trip::<HashBytes>(ids, MAX_MESSAGES, m.messages, s, p7);
    let p8 = p7 + messages.len();
    crate::tl::lemma_stands_split(s, p8, src, dst);
    crate::tl_list::lemma_list_round_trip::<RouterPartition>(ids, MAX_PARTITIONS, m.src, s, p8);
    crate::tl_list::lemma_list_round_trip::<RouterPartition>(
        ids,
        MAX_PARTITIONS,
        m.dst,
        s,
        p8 + src.len(),
    );
    assert(s.subrange(p, p8 + src.len() + dst.len()) =~= enc_diff(ids, m));
}

/// A diff that is read is acceptable and was written so.
pub proof fn law_diff_canonical(ids: TlScheme, s: Seq<u8>, p: int)
    requires
        0 <= p <= s.len(),
        get_diff(ids, s, p) is Ok,
    ensures
        ({
            let (m, e) = get_diff(ids, s, p)->Ok_0;
            &&& valid_diff(ids, m)
            &&& e == p + enc_diff(ids, m).len()
            &&& e <= s.len()
            &&& crate::tl::stands_at(s, p, enc_diff(ids, m))
        }),
{
    let (m, e) = get_diff(ids, s, p)->Ok_0;
    let id = crate::tl::le32(ids.queue_diff);
    let shard = crate::tl::enc_shard(m.shard_ident);
    let seqno = crate::tl::le32(m.seqno);
    let processed = crate::tl_list::enc_list::<ProcessedTo>(ids, m.processed_to);
    let low = crate::queue::addr::enc_key(m.min_message);
    let high = crate::queue::addr::enc_key(m.max_message);
    let messages = crate::tl_list::enc_list::<HashBytes>(ids, m.messages);
    let src = crate::tl_list::enc_list::<RouterPartition>(ids, m.src);
    let dst = crate::tl_list::enc_list::<RouterPartition>(ids, m.dst);
    let tail = enc_diff_tail(ids, m);
    let lists = enc_diff_lists(ids, m);
    crate::tl::lemma_get_u32(s, p, ids.queue_diff);
    crate::tl::lemma_get_shard(s, p + 36, m.shard_ident);
    crate::tl::lemma_get_u32(s, p + 48, m.seqno);
    crate::tl_list::lemma_list_canonical::<ProcessedTo>(ids, MAX_PROCESSED_TO, s, p + 52);
    let p5 = p + 52 + processed.len();
    crate::queue::addr::lemma_get_key(s, p5, m.min_message);
    crate::queue::addr::lemma_get_key(s, p5 + 40, m.max_message);
    let p7 = p5 + 80;
    crate::tl_list::lemma_list_canonical::<HashBytes>(ids, MAX_MESSAGES, s, p7);
    let p8 = p7 + messages.len();
    crate::tl_list::lemma_list_canonical::<RouterPartition>(ids, MAX_PARTITIONS, s, p8);
    crate::tl_list::lemma_list_canonical::<RouterPartition>(
        ids,
        MAX_PARTITIONS,
        s,
        p8 + src.len(),
    );
    crate::tl::lemma_stands_join(s, p8, src, dst);
    crate::tl::lemma_stands_join(s, p7, messages, src + dst);
    crate::tl::lemma_stands_join(s, p5 + 40, high, lists);
    crate::tl::lemma_stands_join(s, p5, low, high + lists);
    crate::tl::lemma_stands_join(s, p + 52, processed, low + (high + lists));
    crate::tl::lemma_stands_join(s, p + 48, seqno, processed + (low + (high + lists)));
    crate::tl::lemma_stands_join(s, p + 36, shard, tail);
    crate::tl::lemma_stands_join(s, p + 4, m.prev_hash, shard + tail);
    crate::tl::lemma_stands_join(s, p, id, m.prev_hash + (shard + tail));
}

/// Diffs of one shard follow each other from the newest to the oldest: numbers
/// descend, and each names the digest of the next.
pub open spec fn diff_follows(newer: DiffModel, older: DiffModel) -> bool {
    newer.seqno > older.seqno && newer.prev_hash == older.hash
}

impl TlItem for QueueDiff {
    type Model = DiffModel;

    open spec fn model(&self) -> DiffModel {
        self@
    }

    open spec fn fits(m: DiffModel) -> bool {
        diff_fits(m)
    }

    open spec fn enc(ids: TlScheme, m: DiffModel) -> Seq<u8> {
        enc_diff(ids, m)
    }

    open spec fn dec(ids: TlScheme, prev: Option<DiffModel>, s: Seq<u8>, p: int) -> Result<
        (DiffModel, int),
        TlError,
    > {
        match get_diff(ids, s, p) {
            Err(e) => Err(e),
            Ok((m, e)) => if prev is Some && !diff_follows(prev->0, m) {
                Err(TlError::InvalidData)
            } else {
                Ok((m, e))
            },
        }
    }

    open spec fn valid(ids: TlScheme, prev: Option<DiffModel>, m: DiffModel) -> bool {
        valid_diff(ids, m) && (prev is Some ==> diff_follows(prev->0, m))
    }

    open spec fn strict() -> bool {
        true
    }

    proof fn lemma_round_trip(
        ids: TlScheme,
        prev: Option<DiffModel>,
        m: DiffModel,
        s: Seq<u8>,
        p: int,
    ) {
        law_diff_round_trip(ids, m, s, p);
    }

    proof fn lemma_canonical(ids: TlScheme, prev: Option<DiffModel>, s: Seq<u8>, p: int) {
        law_diff_canonical(ids, s, p);
    }

    fn write(&self, ids: &TlScheme, packet: &mut Vec<u8>) {
        let ghost start = packet@;
        write_u32(packet, ids.queue_diff);
        write_hash(packet, &self.prev_hash);
        write_shard(packet, &self.shard_ident);
        self.write_tail(ids, packet);
        proof {
            let id = crate::tl::le32(ids.queue_diff);
            let shard = crate::tl::enc_shard(self.shard_ident);
            let tail = enc_diff_tail(*ids, self@);
            assert(packet@ =~= start + id + self.prev_hash@ + shard + tail);
            assert(start + id + self.prev_hash@ + shard + tail =~= start + (id + (self.prev_hash@
                + (shard + tail))));
        }
    }

    fn size(&self, ids: &TlScheme) -> (r: usize) {
        self.max_size_hint(ids)
    }

    fn read(ids: &TlScheme, prev: Option<&Self>, data: &[u8], pos: usize) -> (r: Result<
        (Self, usize),
        TlError,
    >) {
        match QueueDiff::read_at(ids, data, pos) {
            Err(e) => Err(e),
            Ok((diff, end)) => {
                let follows = match prev {
                    Some(newer) => newer.seqno > diff.seqno && bytes_equal(
                        newer.prev_hash.0.as_slice(),
                        diff.hash.0.as_slice(),
                    ),
                    None => true,
                };
                if follows {
                    Ok((diff, end))
                } else {
                    Err(TlError::InvalidData)
                }
            },
        }
    }
}

impl QueueDiff {
    /// Writes the lists of messages and partitions.
    fn write_lists(&self, ids: &TlScheme, packet: &mut Vec<u8>)
        requires
            diff_fits(self@),
        ensures
            final(packet)@ == old(packet)@ + enc_diff_lists(*ids, self@),
    {
        let ghost start = packet@;
        write_list(ids, &self.messages, packet);
        write_list(ids, &self.router_partitions_src, packet);
        write_list(ids, &self.router_partitions_dst, packet);
        proof {
            let messages = crate::tl_list::enc_list::<HashBytes>(*ids, self@.messages);
            let src = crate::tl_list::enc_list::<RouterPartition>(*ids, self@.src);
            let dst = crate::tl_list::enc_list::<RouterPartition>(*ids, self@.dst);
            assert(start + messages + src + dst =~= start + (messages + (src + dst)));
        }
    }

    /// Writes the number of the block and what follows it.
    fn write_tail(&self, ids: &TlScheme, packet: &mut Vec<u8>)
        requires
            diff_fits(self@),
        ensures
            final(packet)@ == old(packet)@ + enc_diff_tail(*ids, self@),
    {
        let ghost start = packet@;
        write_u32(packet, self.seqno);
        write_list(ids, &self.processed_to, packet);
        write_key(packet, &self.min_message);
        write_key(packet, &self.max_message);
        self.write_lists(ids, packet);
        proof {
            let seqno = crate::tl::le32(self.seqno);
            let processed = crate::tl_list::enc_list::<ProcessedTo>(*ids, self@.processed_to);
            let low = crate::queue::addr::enc_key(self@.min_message);
            let high = crate::queue::addr::enc_key(self@.max_message);
            let lists = enc_diff_lists(*ids, self@);
            assert(start + seqno + processed + low + high + lists =~= start + (seqno + (processed
                + (low + (high + lists)))));
        }
    }

    /// The digest of a diff in binary form.
    pub fn compute_hash(data: &[u8]) -> (r: HashBytes)
        ensures
            r@ == crate::outside::blake3_digest(data@),
    {
        file_hash_blake(data)
    }

    /// The size of the binary form.
    pub fn max_size_hint(&self, ids: &TlScheme) -> (r: usize)
        requires
            enc_diff(*ids, self@).len() <= usize::MAX,
        ensures
            r == enc_diff(*ids, self@).len(),
    {
        proof {
            let m = self@;
            crate::tl::lemma_le32(ids.queue_diff, Seq::empty());
            crate::tl::lemma_le32(m.seqno, Seq::empty());
            crate::tl::lemma_get_shard(Seq::empty(), 0, m.shard_ident);
            crate::queue::addr::lemma_get_key(Seq::empty(), 0, m.min_message);
            crate::queue::addr::lemma_get_key(Seq::empty(), 0, m.max_message);
        }
        4 + 32 + 12 + 4 + list_size(ids, &self.processed_to) + 80 + list_size(ids, &self.messages)
            + list_size(ids, &self.router_partitions_src) + list_size(
            ids,
            &self.router_partitions_dst,
        )
    }

    /// Sets the digest to that of the binary form.
    pub fn recompute_hash(&mut self, ids: &TlScheme)
        requires
            diff_fits(old(self)@),
        ensures
            final(self)@ == (DiffModel {
                hash: crate::outside::blake3_digest(enc_diff(*ids, old(self)@)),
                ..old(self)@
            }),
    {
        let bytes = self.serialize(ids);
        self.hash = Self::compute_hash(bytes.as_slice());
    }

    /// The binary form of the diff.
    pub fn serialize(&self, ids: &TlScheme) -> (r: Vec<u8>)
        requires
            diff_fits(self@),
        ensures
            r@ == enc_diff(*ids, self@),
    {
        let mut packet: Vec<u8> = Vec::new();
        self.write(ids, &mut packet);
        assert(packet@ =~= enc_diff(*ids, self@));
        packet
    }

    /// Reads a diff from the start of a byte string.
    pub fn deserialize(ids: &TlScheme, data: &[u8]) -> (r: Result<QueueDiff, TlError>)
        ensures
            match (r, get_diff(*ids, data@, 0)) {
                (Ok(v), Ok((m, e))) => v@ == m,
                (Err(a), Err(b)) => a == b,
                _ => false,
            },
    {
        match Self::read_at(ids, data, 0) {
            Ok((diff, _end)) => Ok(diff),
            Err(e) => Err(e),
        }
    }

    /// Reads a diff at a position, and computes its digest.
    pub fn read_at(ids: &TlScheme, data: &[u8], pos: usize) -> (r: Result<
        (QueueDiff, usize),
        TlError,
    >)
        requires
            pos <= data@.len(),
        ensures
            match (r, get_diff(*ids, data@, pos as int)) {
                (Ok((v, e)), Ok((m, e2))) => v@ == m && e == e2,
                (Err(a), Err(b)) => a == b,
                _ => false,
            },
    {
        let (id, p1) = match read_u32(data, pos) {
            Ok(x) => x,
            Err(e) => return Err(e),
        };
        if id != ids.queue_diff {
            return Err(TlError::UnknownConstructor);
        }
        let (prev_hash, p2) = match read_hash(data, p1) {
            Ok(x) => x,
            Err(e) => return Err(e),
        };
        let (shard_ident, p3) = match read_shard(data, p2) {
            Ok(x) => x,
            Err(e) => return Err(e),
        };
        let (seqno, p4) = match read_u32(data, p3) {
            Ok(x) => x,
            Err(e) => return Err(e),
        };
        let (processed_to, p5) = match read_list::<ProcessedTo>(ids, MAX_PROCESSED_TO, data, p4) {
            Ok(x) => x,
            Err(e) => return Err(e),
        };
        proof {
            crate::tl_list::lemma_list_canonical::<ProcessedTo>(
                *ids,
                MAX_PROCESSED_TO,
                data@,
                p4 as int,
            );
        }
        let (min_message, p6) = match read_key(data, p5) {
            Ok(x) => x,
            Err(e) => return Err(e),
        };
        let (max_message, p7) = match read_key(data, p6) {
            Ok(x) => x,
            Err(e) => return Err(e),
        };
        let (messages, p8) = match read_list::<HashBytes>(ids, MAX_MESSAGES, data, p7) {
            Ok(x) => x,
            Err(e) => return Err(e),
        };
        proof {
            crate::tl_list::lemma_list_canonical::<HashBytes>(
                *ids,
                MAX_MESSAGES,
                data@,
                p7 as int,
            );
        }
        let (src, p9) = match read_list::<RouterPartition>(ids, MAX_PARTITIONS, data, p8) {
            Ok(x) => x,
            Err(e) => return Err(e),
        };
        proof {
            crate::tl_list::lemma_list_canonical::<RouterPartition>(
                *ids,
                MAX_PARTITIONS,
                data@,
                p8 as int,
            );
        }
        let (dst, end) = match read_list::<RouterPartition>(ids, MAX_PARTITIONS, data, p9) {
            Ok(x) => x,
            Err(e) => return Err(e),
        };
        proof {
            crate::tl_list::lemma_list_canonical::<RouterPartition>(
                *ids,
                MAX_PARTITIONS,
                data@,
                p9 as int,
            );
        }
        if max_message.less(&min_message) {
            return Err(TlError::InvalidData);
        }
        let hash = Self::compute_hash(vstd::slice::slice_subrange(data, pos, end));
        let diff = QueueDiff {
            hash,
            prev_hash,
            shard_ident,
            seqno,
            processed_to,
            min_message,
            max_message,
            messages,
            router_partitions_src: src,
            router_partitions_dst: dst,
        };
        Ok((diff, end))
    }
}

/// A diff is its number, the digest of the one before, the shard, the number of the
/// block, the boundaries, the least and the greatest message, the hashes of messages, and
/// the partitions by sender and by receiver, in this order.
pub proof fn law_diff_layout(ids: TlScheme, m: DiffModel)
    ensures
        enc_diff(ids, m) == crate::tl::le32(ids.queue_diff) + m.prev_hash + crate::tl::enc_shard(
            m.shard_ident,
        ) + crate::tl::le32(m.seqno) + crate::tl_list::enc_list::<ProcessedTo>(ids, m.processed_to)
            + crate::queue::addr::enc_key(m.min_message) + crate::queue::addr::enc_key(
            m.max_message,
        ) + crate::tl_list::enc_list::<HashBytes>(ids, m.messages) + crate::tl_list::enc_list::<
            RouterPartition,
        >(ids, m.src) + crate::tl_list::enc_list::<RouterPartition>(ids, m.dst),
{
    assert(enc_diff(ids, m) =~= crate::tl::le32(ids.queue_diff) + m.prev_hash
        + crate::tl::enc_shard(m.shard_ident) + crate::tl::le32(m.seqno)
        + crate::tl_list::enc_list::<ProcessedTo>(ids, m.processed_to)
        + crate::queue::addr::enc_key(m.min_message) + crate::queue::addr::enc_key(m.max_message)
        + crate::tl_list::enc_list::<HashBytes>(ids, m.messages) + crate::tl_list::enc_list::<
        RouterPartition,
    >(ids, m.src) + crate::tl_list::enc_list::<RouterPartition>(ids, m.dst));
}

/// What a valid diff says: its digest is that of its bytes, its shard can exist, its
/// least message does not come after its greatest one, and its lists are not longer than
/// they may be. Hashes of messages ascend, and none is zero.
pub proof fn law_valid_diff_is_in_order(ids: TlScheme, m: DiffModel, i: int)
    requires
        valid_diff(ids, m),
    ensures
        m.hash == crate::outside::blake3_digest(enc_diff(ids, m)),
        m.shard_ident.valid(),
        m.min_message.0 <= m.max_message.0,
        m.min_message.0 == m.max_message.0 ==> crate::bytes::be_nat(m.min_message.1)
            <= crate::bytes::be_nat(m.max_message.1),
        m.processed_to.len() <= 1000,
        m.messages.len() <= 10_000_000,
        m.src.len() <= 65_536,
        m.dst.len() <= 65_536,
        0 <= i < m.messages.len() ==> m.messages[i].len() == 32 && crate::bytes::be_nat(
            m.messages[i],
        ) > 0,
        0 < i < m.messages.len() ==> crate::bytes::be_nat(m.messages[i - 1])
            < crate::bytes::be_nat(m.messages[i]),
{
    if 0 <= i < m.messages.len() {
        crate::tl_list::law_items_are_acceptable_in_turn::<HashBytes>(
            ids,
            MAX_MESSAGES,
            m.messages,
            i,
        );
    }
}

/// A hash is listed exactly if it has the length of one and is greater than the one
/// before it; the first one has only not to be zero.
pub proof fn law_hashes_are_listed_in_order(ids: TlScheme, before: Seq<u8>, m: Seq<u8>)
    ensures
        <HashBytes as TlItem>::valid(ids, None, m) <==> m.len() == 32 && crate::bytes::be_nat(m)
            != 0,
        <HashBytes as TlItem>::valid(ids, Some(before), m) <==> m.len() == 32
            && crate::bytes::be_nat(before) < crate::bytes::be_nat(m),
        <HashBytes as TlItem>::enc(ids, m) == m,
{
}

/// A diff comes directly before an older one exactly if its number is greater and it names
/// the digest of that one.
pub proof fn law_diff_names_the_one_before(newer: DiffModel, older: DiffModel)
    ensures
        diff_follows(newer, older) <==> older.seqno < newer.seqno && older.hash == newer.prev_hash,
{
}

/// Every field of a diff counts as what it is.
pub proof fn law_diff_says_what_it_holds(diff: QueueDiff)
    ensures
        diff@.hash == diff.hash@,
        diff@.prev_hash == diff.prev_hash@,
        diff@.shard_ident == diff.shard_ident,
        diff@.seqno == diff.seqno,
        diff@.processed_to == crate::tl_list::models(diff.processed_to@),
        diff@.min_message == (diff.min_message.lt, diff.min_message.hash@),
        diff@.max_message == (diff.max_message.lt, diff.max_message.hash@),
        diff@.messages == crate::tl_list::models(diff.messages@),
        diff@.src == crate::tl_list::models(diff.router_partitions_src@),
        diff@.dst == crate::tl_list::models(diff.router_partitions_dst@),
{
}

} // verus!

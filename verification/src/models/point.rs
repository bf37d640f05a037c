//! Points of the DAG and their binary form.
use crate::engine::config::{ConsensusConfig, MempoolConfig};
use crate::models::parts::{Digest, KeyPair, PeerId, Round, Signature};
use crate::models::peer_map::FixedBytes;
use crate::models::point_info::{PointData, PointInfo, MAX_INFO_BYTES};
use crate::outside::{bump_copy, bump_new, bytes_max_size_hint};
use crate::tl::{read_hash, read_u32, write_hash, write_u32, TlError, TlScheme};
use crate::tl_bytes::{read_payload_bounds, write_payload, PayloadBounds};
use vstd::prelude::*;

verus! {

/// Why bytes that can be read are no usable point.
#[derive(Clone, Copy, Debug, PartialEq, Eq, Structural)]
pub enum PointIntegrityError {
    /// The digest is not that of the body.
    BadHash,
    /// The signature is not one of the author. Someone else may have made the
    /// point.
    BadSig,
    /// A signature in the evidence map does not verify.
    EvidenceSig,
    /// The maps do not agree with each other.
    BadMaps,
}

/// The least size of an external message.
pub const MIN_EXT_MSG_BOC_SIZE: usize = 48;

/// The position of the signature: behind the constructor number and the digest.
pub const SIGNATURE_OFFSET: usize = 4 + 32;

/// The position of the body: behind the constructor number, the digest and the
/// signature.
pub const BODY_OFFSET: usize = 4 + 32 + 64;

/// The arena into which payloads are read.
pub struct PayloadArena {
    bump: bumpalo::Bump<1>,
}

impl PayloadArena {
    /// An empty arena.
    pub fn new() -> Self {
        PayloadArena { bump: bump_new() }
    }
}

/// A point: its bytes, and what is read from them.
#[derive(Debug, PartialEq, Eq)]
pub struct Point {
    pub serialized: Vec<u8>,
    pub info: PointInfo,
}

/// The bytes of a body.
pub open spec fn enc_body(
    ids: TlScheme,
    author: Seq<u8>,
    round: u32,
    payload: Seq<Seq<u8>>,
    data: crate::models::point_info::DataModel,
) -> Seq<u8> {
    author + (crate::tl::le32(round) + (crate::tl_bytes::enc_payload(payload)
        + crate::models::point_info::enc_data(ids, data)))
}

/// The bytes of a point.
pub open spec fn enc_point(
    ids: TlScheme,
    digest: Seq<u8>,
    signature: Seq<u8>,
    body: Seq<u8>,
) -> Seq<u8> {
    crate::tl::le32(ids.point) + (digest + (signature + body))
}

/// A number, or the greatest of 32 bits if it is greater.
pub open spec fn capped(n: nat) -> u32 {
    if n > u32::MAX {
        u32::MAX
    } else {
        n as u32
    }
}

/// Reads the constructor number, the digest and the signature. The body is what
/// follows.
pub open spec fn get_frame(ids: TlScheme, s: Seq<u8>) -> Result<(Seq<u8>, Seq<u8>), TlError> {
    match crate::tl::get_u32(s, 0) {
        Err(e) => Err(e),
        Ok((id, p1)) => if id != ids.point {
            Err(TlError::UnknownConstructor)
        } else {
            match crate::tl::get_raw(s, p1, 32) {
                Err(e) => Err(e),
                Ok((digest, p2)) => match crate::tl::get_raw(s, p2, 64) {
                    Err(e) => Err(e),
                    Ok((signature, p3)) => Ok((digest, signature)),
                },
            }
        },
    }
}

/// Reads the part of a body before its payload.
pub open spec fn get_body_head(s: Seq<u8>) -> Result<(Seq<u8>, u32), TlError> {
    match crate::tl::get_raw(s, BODY_OFFSET as int, 32) {
        Err(e) => Err(e),
        Ok((author, p1)) => match crate::tl::get_u32(s, p1) {
            Err(e) => Err(e),
            Ok((round, p2)) => Ok((author, round)),
        },
    }
}

/// What the bytes of a point say.
pub open spec fn get_point(ids: TlScheme, s: Seq<u8>) -> Result<
    crate::models::point_info::InfoModel,
    TlError,
> {
    match get_frame(ids, s) {
        Err(e) => Err(e),
        Ok((digest, signature)) => match get_body_head(s) {
            Err(e) => Err(e),
            Ok((author, round)) => match crate::tl_bytes::get_payload(s, BODY_OFFSET + 36) {
                Err(e) => Err(e),
                Ok((payload, p)) => match crate::models::point_info::get_data(ids, s, p) {
                    Err(e) => Err(e),
                    Ok((data, end)) => Ok(
                        crate::models::point_info::InfoModel {
                            digest,
                            signature,
                            author,
                            round,
                            payload_len: capped(payload.len()),
                            payload_bytes: capped(crate::tl_bytes::total_len(payload)),
                            data,
                        },
                    ),
                },
            },
        },
    }
}

/// The payload that the bytes of a point hold.
pub open spec fn get_point_payload(ids: TlScheme, s: Seq<u8>) -> Result<Seq<Seq<u8>>, TlError> {
    match get_frame(ids, s) {
        Err(e) => Err(e),
        Ok((digest, signature)) => match get_body_head(s) {
            Err(e) => Err(e),
            Ok((author, round)) => match crate::tl_bytes::get_payload(s, BODY_OFFSET + 36) {
                Err(e) => Err(e),
                Ok((payload, p)) => Ok(payload),
            },
        },
    }
}

/// Why the bytes of a point are refused before they are read whole: the
/// signature is not that of the author, or the digest not that of the body.
pub open spec fn frame_error(ids: TlScheme, s: Seq<u8>) -> Option<PointIntegrityError> {
    let (digest, signature) = get_frame(ids, s)->Ok_0;
    let author = s.subrange(BODY_OFFSET as int, BODY_OFFSET + 32);
    if !crate::outside::signature_verifies(author, digest, signature) {
        Some(PointIntegrityError::BadSig)
    } else if digest != crate::outside::blake3_of(s.skip(BODY_OFFSET as int)) {
        Some(PointIntegrityError::BadHash)
    } else {
        None
    }
}

/// The greatest size of a point whose payload is within the limit.
pub open spec fn point_max_size(payload_batch_bytes: nat) -> nat {
    (4 + crate::tl_bytes::bytes_size(MIN_EXT_MSG_BOC_SIZE as nat) * (1 + payload_batch_bytes
        / MIN_EXT_MSG_BOC_SIZE as nat) + MAX_INFO_BYTES) as nat
}

/// The digest, the signature and the body of a point.
proof fn lemma_frame(ids: TlScheme, digest: Seq<u8>, signature: Seq<u8>, body: Seq<u8>)
    requires
        digest.len() == 32,
        signature.len() == 64,
    ensures
        ({
            let s = enc_point(ids, digest, signature, body);
            &&& get_frame(ids, s) == Ok::<(Seq<u8>, Seq<u8>), TlError>((digest, signature))
            &&& s.len() == BODY_OFFSET + body.len()
            &&& s.skip(BODY_OFFSET as int) == body
        }),
{
    let s = enc_point(ids, digest, signature, body);
    let id = crate::tl::le32(ids.point);
    crate::tl::lemma_le32(ids.point, Seq::empty());
    assert(s.subrange(0, s.len() as int) =~= s);
    crate::tl::lemma_stands_split(s, 0, id, digest + (signature + body));
    crate::tl::lemma_get_u32(s, 0, ids.point);
    crate::tl::lemma_stands_split(s, 4, digest, signature + body);
    crate::tl::lemma_stands_split(s, 36, signature, body);
    assert(s.skip(100) =~= body);
}

/// A written point is read back.
pub proof fn law_point_round_trip(
    ids: TlScheme,
    digest: Seq<u8>,
    signature: Seq<u8>,
    author: Seq<u8>,
    round: u32,
    payload: Seq<Seq<u8>>,
    data: crate::models::point_info::DataModel,
)
    requires
        ids.distinct(),
        digest.len() == 32,
        signature.len() == 64,
        author.len() == 32,
        crate::tl_bytes::payload_fits(payload),
        crate::models::point_info::valid_data(ids, data),
    ensures
        ({
            let s = enc_point(ids, digest, signature, enc_body(ids, author, round, payload, data));
            &&& get_point(ids, s) == Ok::<crate::models::point_info::InfoModel, TlError>(
                crate::models::point_info::InfoModel {
                    digest,
                    signature,
                    author,
                    round,
                    payload_len: capped(payload.len()),
                    payload_bytes: capped(crate::tl_bytes::total_len(payload)),
                    data,
                },
            )
            &&& get_point_payload(ids, s) == Ok::<Seq<Seq<u8>>, TlError>(payload)
            &&& s.subrange(BODY_OFFSET as int, BODY_OFFSET + 32) == author
        }),
{
    let number = crate::tl::le32(round);
    let strings = crate::tl_bytes::enc_payload(payload);
    let rest = crate::models::point_info::enc_data(ids, data);
    let body = enc_body(ids, author, round, payload, data);
    let s = enc_point(ids, digest, signature, body);
    lemma_frame(ids, digest, signature, body);
    crate::tl::lemma_le32(round, Seq::empty());
    assert(s.subrange(100, (100 + body.len()) as int) =~= s.skip(100));
    crate::tl::lemma_stands_split(s, 100, author, number + (strings + rest));
    crate::tl::lemma_stands_split(s, 132, number, strings + rest);
    crate::tl::lemma_get_u32(s, 132, round);
    crate::tl::lemma_stands_split(s, 136, strings, rest);
    crate::tl_bytes::law_payload_round_trip(payload, s, 136);
    crate::models::point_info::lemma_data_round_trip(ids, data, s, (136 + strings.len()) as int);
}

/// The size of a payload of messages that are not too small.
proof fn lemma_payload_size(payload: Seq<Seq<u8>>)
    requires
        forall|i: int|
            0 <= i < payload.len() ==> (#[trigger] payload[i]).len() >= MIN_EXT_MSG_BOC_SIZE,
    ensures
        48 * crate::tl_bytes::enc_strings(payload).len() <= 52 * crate::tl_bytes::total_len(
            payload,
        ),
    decreases payload.len(),
{
    if payload.len() > 0 {
        let before = payload.drop_last();
        assert forall|i: int| 0 <= i < before.len() implies (#[trigger] before[i]).len()
            >= MIN_EXT_MSG_BOC_SIZE by {
            assert(before[i] == payload[i]);
        }
        lemma_payload_size(before);
        crate::tl_bytes::lemma_enc_bytes_len(payload.last());
        assert(payload[payload.len() - 1].len() >= MIN_EXT_MSG_BOC_SIZE);
    }
}

/// A point about at most [`MAX_PEERS`] peers, whose messages have at least the
/// least size and together no more than the limit, is not greater than the
/// greatest size.
///
/// [`MAX_PEERS`]: crate::models::point_info::MAX_PEERS
pub proof fn law_point_size(
    ids: TlScheme,
    digest: Seq<u8>,
    signature: Seq<u8>,
    author: Seq<u8>,
    round: u32,
    payload: Seq<Seq<u8>>,
    data: crate::models::point_info::DataModel,
    payload_batch_bytes: nat,
)
    requires
        digest.len() == 32,
        signature.len() == 64,
        author.len() == 32,
        crate::models::point_info::valid_data(ids, data),
        data.includes.len() <= crate::models::point_info::MAX_PEERS,
        data.witness.len() <= crate::models::point_info::MAX_PEERS,
        data.evidence.len() <= crate::models::point_info::MAX_PEERS,
        forall|i: int|
            0 <= i < payload.len() ==> (#[trigger] payload[i]).len() >= MIN_EXT_MSG_BOC_SIZE,
        crate::tl_bytes::total_len(payload) <= payload_batch_bytes,
    ensures
        enc_point(ids, digest, signature, enc_body(ids, author, round, payload, data)).len()
            <= point_max_size(payload_batch_bytes),
{
    crate::tl::lemma_le32(ids.point, Seq::empty());
    crate::tl::lemma_le32(round, Seq::empty());
    crate::tl::lemma_le32(payload.len() as u32, Seq::empty());
    crate::models::point_info::lemma_data_size(ids, data);
    lemma_payload_size(payload);
    let n = payload_batch_bytes / 48;
    assert(crate::tl_bytes::bytes_size(48) == 52);
    assert(payload_batch_bytes < 48 * (n + 1));
}

/// Whether a point is the one that a key pair makes of its parts: its digest is
/// that of the body, and its signature one under the digest.
pub open spec fn made_by(
    ids: TlScheme,
    key_pair: KeyPair,
    author: PeerId,
    round: Round,
    payload: Seq<Seq<u8>>,
    data: PointData,
    point: Point,
) -> bool {
    let body = enc_body(ids, author@, round.0, payload, data@);
    let digest = crate::outside::blake3_of(body);
    let signature = crate::outside::signature_of(key_pair.secret@, digest);
    &&& point.serialized@ == enc_point(ids, digest, signature, body)
    &&& point.info.digest@ == digest
    &&& point.info.signature@ == signature
    &&& point.info.author == author
    &&& point.info.round == round
    &&& point.info.payload_len == capped(payload.len())
    &&& point.info.payload_bytes == capped(crate::tl_bytes::total_len(payload))
    &&& point.info.data == data
    &&& crate::outside::signature_verifies(
        crate::outside::public_key_of(key_pair.secret@),
        digest,
        signature,
    )
}

/// A point that was made is read back the same, its payload too, and what can be
/// checked before it is read whole is in order.
pub proof fn law_made_point_is_read_back(
    ids: TlScheme,
    key_pair: KeyPair,
    author: PeerId,
    round: Round,
    payload: Seq<Seq<u8>>,
    data: PointData,
    point: Point,
)
    requires
        ids.distinct(),
        key_pair.wf(),
        author == key_pair.public,
        crate::tl_bytes::payload_fits(payload),
        data.wf(),
        crate::models::point_info::data_fits(data@),
        made_by(ids, key_pair, author, round, payload, data, point),
    ensures
        get_frame(ids, point.serialized@) is Ok,
        point.serialized@.len() >= BODY_OFFSET + 32,
        frame_error(ids, point.serialized@) is None,
        get_point(ids, point.serialized@) == Ok::<crate::models::point_info::InfoModel, TlError>(
            point.info@,
        ),
        get_point_payload(ids, point.serialized@) == Ok::<Seq<Seq<u8>>, TlError>(payload),
{
    let body = enc_body(ids, author@, round.0, payload, data@);
    crate::models::point_info::lemma_data_valid(ids, data);
    lemma_frame(ids, point.info.digest@, point.info.signature@, body);
    law_point_round_trip(
        ids,
        point.info.digest@,
        point.info.signature@,
        author@,
        round.0,
        payload,
        data@,
    );
}

/// A point that was made parses to itself if its maps agree and its evidence
/// verifies.
pub proof fn law_made_point_parses(
    ids: TlScheme,
    key_pair: KeyPair,
    author: PeerId,
    round: Round,
    payload: Seq<Seq<u8>>,
    data: PointData,
    point: Point,
    r: Result<Result<Point, PointIntegrityError>, TlError>,
)
    requires
        ids.distinct(),
        key_pair.wf(),
        author == key_pair.public,
        crate::tl_bytes::payload_fits(payload),
        data.wf(),
        crate::models::point_info::data_fits(data@),
        made_by(ids, key_pair, author, round, payload, data, point),
        point.info@.maps_agree(),
        point.info@.evidence_verifies(),
        parses_as(ids, point.serialized@, r),
    ensures
        r matches Ok(Ok(p)) && p.serialized@ == point.serialized@ && p.info@ == point.info@,
{
    law_made_point_is_read_back(ids, key_pair, author, round, payload, data, point);
}

/// A point that was made and whose signature was exchanged for one that does not
/// verify is refused for its signature.
pub proof fn law_foreign_signature_is_refused(
    ids: TlScheme,
    key_pair: KeyPair,
    author: PeerId,
    round: Round,
    payload: Seq<Seq<u8>>,
    data: PointData,
    point: Point,
    signature: Seq<u8>,
    r: Result<Result<Point, PointIntegrityError>, TlError>,
)
    requires
        made_by(ids, key_pair, author, round, payload, data, point),
        signature.len() == 64,
        !crate::outside::signature_verifies(author@, point.info.digest@, signature),
        parses_as(
            ids,
            point.serialized@.take(SIGNATURE_OFFSET as int) + signature + point.serialized@.skip(
                BODY_OFFSET as int,
            ),
            r,
        ),
    ensures
        r == Ok::<Result<Point, PointIntegrityError>, TlError>(Err(PointIntegrityError::BadSig)),
{
    let body = enc_body(ids, author@, round.0, payload, data@);
    let digest = point.info.digest@;
    let changed = point.serialized@.take(SIGNATURE_OFFSET as int) + signature
        + point.serialized@.skip(BODY_OFFSET as int);
    crate::tl::lemma_le32(ids.point, Seq::empty());
    lemma_frame(ids, digest, point.info.signature@, body);
    lemma_frame(ids, digest, signature, body);
    assert(changed =~= enc_point(ids, digest, signature, body));
    assert(changed.subrange(BODY_OFFSET as int, BODY_OFFSET + 32) =~= author@);
}

/// A point that was made and whose body was exchanged for another one of the same
/// author is refused for its digest, unless the two bodies have the same digest.
pub proof fn law_changed_body_is_refused(
    ids: TlScheme,
    key_pair: KeyPair,
    author: PeerId,
    round: Round,
    payload: Seq<Seq<u8>>,
    data: PointData,
    point: Point,
    body: Seq<u8>,
    r: Result<Result<Point, PointIntegrityError>, TlError>,
)
    requires
        key_pair.wf(),
        author == key_pair.public,
        made_by(ids, key_pair, author, round, payload, data, point),
        body.len() >= 32,
        body.take(32) == author@,
        crate::outside::blake3_of(body) != point.info.digest@,
        parses_as(ids, point.serialized@.take(BODY_OFFSET as int) + body, r),
    ensures
        r == Ok::<Result<Point, PointIntegrityError>, TlError>(Err(PointIntegrityError::BadHash)),
{
    let made = enc_body(ids, author@, round.0, payload, data@);
    let digest = point.info.digest@;
    let signature = point.info.signature@;
    let changed = point.serialized@.take(BODY_OFFSET as int) + body;
    crate::tl::lemma_le32(ids.point, Seq::empty());
    lemma_frame(ids, digest, signature, made);
    lemma_frame(ids, digest, signature, body);
    assert(changed =~= enc_point(ids, digest, signature, body));
    assert(changed.subrange(BODY_OFFSET as int, BODY_OFFSET + 32) =~= body.take(32));
}

/// A point that parses has the digest of its body, a signature of its author
/// under that digest, and evidence that verifies.
pub proof fn law_parsed_point_is_signed(
    ids: TlScheme,
    serialized: Seq<u8>,
    r: Result<Result<Point, PointIntegrityError>, TlError>,
)
    requires
        parses_as(ids, serialized, r),
        r matches Ok(Ok(_)),
    ensures
        ({
            let point = r->Ok_0->Ok_0;
            &&& point.info.digest@ == crate::outside::blake3_of(
                point.serialized@.skip(BODY_OFFSET as int),
            )
            &&& crate::outside::signature_verifies(
                point.info.author@,
                point.info.digest@,
                point.info.signature@,
            )
            &&& point.info@.evidence_verifies()
        }),
{
}

/// What a reader gives that hands back the bytes with what they say.
pub open spec fn point_reads_as(
    r: Result<Point, TlError>,
    serialized: Seq<u8>,
    d: Result<crate::models::point_info::InfoModel, TlError>,
) -> bool {
    match (r, d) {
        (Ok(point), Ok(m)) => point.serialized@ == serialized && point.info@ == m
            && point.info.wf(),
        (Err(a), Err(b)) => a == b,
        _ => false,
    }
}

/// Reads the constructor number, the digest and the signature.
fn read_frame(ids: &TlScheme, data: &[u8]) -> (r: Result<(Digest, Signature), TlError>)
    ensures
        match (r, get_frame(*ids, data@)) {
            (Ok((digest, signature)), Ok((d, s))) => digest@ == d && signature@ == s
                && data@.len() >= BODY_OFFSET,
            (Err(a), Err(b)) => a == b,
            _ => false,
        },
{
    let (id, p1) = match read_u32(data, 0) {
        Ok(x) => x,
        Err(e) => return Err(e),
    };
    if id != ids.point {
        return Err(TlError::UnknownConstructor);
    }
    let (digest, p2) = match Digest::take_from(data, p1) {
        Ok(x) => x,
        Err(e) => return Err(e),
    };
    match Signature::take_from(data, p2) {
        Ok((signature, _p3)) => Ok((digest, signature)),
        Err(e) => Err(e),
    }
}

/// Reads the author and the round.
fn read_body_head(data: &[u8]) -> (r: Result<(PeerId, Round), TlError>)
    requires
        data@.len() >= BODY_OFFSET,
    ensures
        match (r, get_body_head(data@)) {
            (Ok((author, round)), Ok((a, n))) => author@ == a && round.0 == n && data@.len()
                >= BODY_OFFSET + 36,
            (Err(a), Err(b)) => a == b,
            _ => false,
        },
{
    let (author, p1) = match read_hash(data, BODY_OFFSET) {
        Ok(x) => x,
        Err(e) => return Err(e),
    };
    match read_u32(data, p1) {
        Ok((round, _p2)) => Ok((author, Round(round))),
        Err(e) => Err(e),
    }
}

/// The number and the total length of byte strings, each capped.
fn payload_totals(bounds: &PayloadBounds, data: &[u8]) -> (r: (u32, u32))
    requires
        bounds.inside(data@),
        crate::tl_bytes::total_len(bounds.strings(data@)) <= data@.len(),
    ensures
        r.0 == capped(bounds.items@.len()),
        r.1 == capped(crate::tl_bytes::total_len(bounds.strings(data@))),
{
    let ghost strings = bounds.strings(data@);
    let size: usize = data.len();
    let mut total: usize = 0;
    let mut i: usize = 0;
    assert(strings.take(0) =~= Seq::<Seq<u8>>::empty());
    while i < bounds.items.len()
        invariant
            i <= bounds.items@.len(),
            bounds.inside(data@),
            strings == bounds.strings(data@),
            crate::tl_bytes::total_len(strings) <= size,
            total == crate::tl_bytes::total_len(strings.take(i as int)),
        decreases bounds.items@.len() - i,
    {
        proof {
            assert(strings.take(i + 1).drop_last() =~= strings.take(i as int));
            lemma_total_take(strings, i + 1);
            assert(strings[i as int].len() == bounds.items@[i as int].1);
        }
        total = total + bounds.items[i].1;
        i = i + 1;
    }
    assert(strings.take(i as int) =~= strings);
    (cap_u32(bounds.items.len()), cap_u32(total))
}

/// A part of byte strings is not longer than all of them.
pub proof fn lemma_total_take(strings: Seq<Seq<u8>>, i: int)
    requires
        0 <= i <= strings.len(),
    ensures
        crate::tl_bytes::total_len(strings.take(i)) <= crate::tl_bytes::total_len(strings),
    decreases strings.len(),
{
    if i == strings.len() {
        assert(strings.take(i) =~= strings);
    } else {
        lemma_total_take(strings.drop_last(), i);
        assert(strings.drop_last().take(i) =~= strings.take(i));
    }
}

/// A number, or the greatest of 32 bits if it is greater.
fn cap_u32(n: usize) -> (r: u32)
    ensures
        r == capped(n as nat),
{
    if n as u64 > u32::MAX as u64 {
        u32::MAX
    } else {
        n as u32
    }
}

/// The total length of byte strings.
fn payload_len(payload: &Vec<Vec<u8>>) -> (r: usize)
    requires
        crate::tl_bytes::total_len(crate::tl_bytes::views(payload@)) <= usize::MAX,
    ensures
        r == crate::tl_bytes::total_len(crate::tl_bytes::views(payload@)),
{
    let ghost strings = crate::tl_bytes::views(payload@);
    let mut total: usize = 0;
    let mut i: usize = 0;
    assert(strings.take(0) =~= Seq::<Seq<u8>>::empty());
    while i < payload.len()
        invariant
            i <= payload@.len(),
            strings == crate::tl_bytes::views(payload@),
            crate::tl_bytes::total_len(strings) <= usize::MAX,
            total == crate::tl_bytes::total_len(strings.take(i as int)),
        decreases payload@.len() - i,
    {
        proof {
            assert(strings.take(i + 1).drop_last() =~= strings.take(i as int));
            lemma_total_take(strings, i + 1);
            assert(strings[i as int] == payload@[i as int]@);
        }
        total = total + payload[i].len();
        i = i + 1;
    }
    assert(strings.take(i as int) =~= strings);
    total
}

/// Writes a body.
pub fn write_body(
    ids: &TlScheme,
    author: &PeerId,
    round: Round,
    payload: &Vec<Vec<u8>>,
    data: &PointData,
    packet: &mut Vec<u8>,
)
    requires
        crate::tl_bytes::payload_fits(crate::tl_bytes::views(payload@)),
        crate::models::point_info::data_fits(data@),
    ensures
        final(packet)@ == old(packet)@ + enc_body(
            *ids,
            author@,
            round.0,
            crate::tl_bytes::views(payload@),
            data@,
        ),
{
    let ghost start = packet@;
    write_hash(packet, author);
    write_u32(packet, round.0);
    write_payload(packet, payload);
    data.write(ids, packet);
    proof {
        let number = crate::tl::le32(round.0);
        let strings = crate::tl_bytes::enc_payload(crate::tl_bytes::views(payload@));
        let rest = crate::models::point_info::enc_data(*ids, data@);
        assert(start + author@ + number + strings + rest =~= start + (author@ + (number + (strings
            + rest))));
    }
}

impl Point {
    /// Estimates the greatest size of a point.
    pub fn max_byte_size(consensus_config: &ConsensusConfig) -> (r: usize)
        requires
            point_max_size(consensus_config.payload_batch_bytes as nat) <= usize::MAX,
        ensures
            r == point_max_size(consensus_config.payload_batch_bytes as nat),
    {
        let batch: usize = consensus_config.payload_batch_bytes as usize;
        let message: usize = bytes_max_size_hint(MIN_EXT_MSG_BOC_SIZE);
        assert(message == 52);
        let max_payload_size: usize = message * (1 + (batch / MIN_EXT_MSG_BOC_SIZE));
        4 + max_payload_size + MAX_INFO_BYTES
    }

    /// Makes a point. The author has to be the owner of the key pair.
    pub fn new(
        ids: &TlScheme,
        local_keypair: &KeyPair,
        author: PeerId,
        round: Round,
        payload: &Vec<Vec<u8>>,
        data: PointData,
        conf: &MempoolConfig,
    ) -> (r: Self)
        requires
            author == local_keypair.public,
            conf.point_max_bytes <= isize::MAX as usize,
            crate::tl_bytes::payload_fits(crate::tl_bytes::views(payload@)),
            crate::tl_bytes::total_len(crate::tl_bytes::views(payload@)) <= usize::MAX,
            crate::models::point_info::data_fits(data@),
        ensures
            made_by(
                *ids,
                *local_keypair,
                author,
                round,
                crate::tl_bytes::views(payload@),
                data,
                r,
            ),
    {
        let mut body: Vec<u8> = Vec::with_capacity(conf.point_max_bytes);
        write_body(ids, &author, round, payload, &data, &mut body);
        let ghost full = enc_body(
            *ids,
            author@,
            round.0,
            crate::tl_bytes::views(payload@),
            data@,
        );
        assert(body@ =~= full);
        let digest = Digest::new(body.as_slice());
        let signature = Signature::new(local_keypair, &digest);
        let mut serialized: Vec<u8> = Vec::with_capacity(conf.point_max_bytes);
        write_u32(&mut serialized, ids.point);
        digest.put(&mut serialized);
        signature.put(&mut serialized);
        serialized.append(&mut body);
        assert(serialized@ =~= enc_point(*ids, digest@, signature@, full));
        let payload_bytes: u32 = cap_u32(payload_len(payload));
        let info = PointInfo::new(
            digest,
            signature,
            author,
            round,
            cap_u32(payload.len()),
            payload_bytes,
            data,
        );
        Point { serialized, info }
    }

    /// Reads a point without checking it.
    pub fn from_bytes(ids: &TlScheme, serialized: Vec<u8>) -> (r: Result<Self, TlError>)
        ensures
            point_reads_as(r, serialized@, get_point(*ids, serialized@)),
    {
        let bytes: &[u8] = serialized.as_slice();
        let (digest, signature) = match read_frame(ids, bytes) {
            Ok(x) => x,
            Err(e) => return Err(e),
        };
        let (author, round) = match read_body_head(bytes) {
            Ok(x) => x,
            Err(e) => return Err(e),
        };
        let bounds = match read_payload_bounds(bytes, BODY_OFFSET + 36) {
            Ok(x) => x,
            Err(e) => return Err(e),
        };
        proof {
            let n = crate::tl::get_u32(bytes@, BODY_OFFSET + 36)->Ok_0.0;
            crate::tl_bytes::lemma_strings_end(n as nat, bytes@, BODY_OFFSET + 40);
        }
        let (payload_len, payload_bytes) = payload_totals(&bounds, bytes);
        match PointData::read(ids, bytes, bounds.end) {
            Err(e) => Err(e),
            Ok((data, _end)) => {
                let info = PointInfo::new(
                    digest,
                    signature,
                    author,
                    round,
                    payload_len,
                    payload_bytes,
                    data,
                );
                Ok(Point { serialized, info })
            },
        }
    }

    /// Reads a point and checks it: first that the signature is one of the
    /// author under the digest, which needs no more than the start of the body,
    /// and that the digest is that of the body; then what the point says.
    pub fn parse(ids: &TlScheme, serialized: Vec<u8>) -> (r: Result<
        Result<Self, PointIntegrityError>,
        TlError,
    >)
        ensures
            parses_as(*ids, serialized@, r),
    {
        let bytes: &[u8] = serialized.as_slice();
        let (digest, signature) = match read_frame(ids, bytes) {
            Ok(x) => x,
            Err(e) => return Err(e),
        };
        let (author, _p) = match read_hash(bytes, BODY_OFFSET) {
            Ok(x) => x,
            Err(e) => return Err(e),
        };
        if !signature.verifies(&author, &digest) {
            return Ok(Err(PointIntegrityError::BadSig));
        }
        let body = vstd::slice::slice_subrange(bytes, BODY_OFFSET, bytes.len());
        assert(body@ =~= serialized@.skip(BODY_OFFSET as int));
        if !digest.same(&Digest::new(body)) {
            return Ok(Err(PointIntegrityError::BadHash));
        }
        let point = match Self::from_bytes(ids, serialized) {
            Ok(x) => x,
            Err(e) => return Err(e),
        };
        if !point.info().has_well_formed_maps() {
            return Ok(Err(PointIntegrityError::BadMaps));
        }
        if !point.info().is_evidence_ok() {
            return Ok(Err(PointIntegrityError::EvidenceSig));
        }
        Ok(Ok(point))
    }

    /// The bytes of the point.
    pub fn serialized(&self) -> (r: &[u8])
        ensures
            r@ == self.serialized@,
    {
        self.serialized.as_slice()
    }

    /// What the point says.
    pub fn info(&self) -> (r: &PointInfo)
        ensures
            *r == self.info,
    {
        &self.info
    }

    /// Reads the payload of a point into an arena.
    pub fn read_payload_from_tl_bytes<'a>(
        ids: &TlScheme,
        data: &[u8],
        arena: &'a PayloadArena,
    ) -> (r: Result<Vec<&'a [u8]>, TlError>)
        ensures
            match (r, get_point_payload(*ids, data@)) {
                (Ok(v), Ok(strings)) => {
                    &&& v@.len() == strings.len()
                    &&& forall|i: int| 0 <= i < strings.len() ==> (#[trigger] v@[i])@ == strings[i]
                },
                (Err(a), Err(b)) => a == b,
                _ => false,
            },
    {
        match read_frame(ids, data) {
            Ok(_frame) => {},
            Err(e) => return Err(e),
        }
        match read_body_head(data) {
            Ok(_head) => {},
            Err(e) => return Err(e),
        }
        let bounds = match read_payload_bounds(data, BODY_OFFSET + 36) {
            Ok(x) => x,
            Err(e) => return Err(e),
        };
        let ghost strings = bounds.strings(data@);
        let size: usize = data.len();
        let mut items: Vec<&'a [u8]> = Vec::new();
        let mut i: usize = 0;
        while i < bounds.items.len()
            invariant
                size == data@.len(),
                i <= bounds.items@.len(),
                bounds.inside(data@),
                strings == bounds.strings(data@),
                items@.len() == i,
                forall|j: int| 0 <= j < i ==> (#[trigger] items@[j])@ == strings[j],
            decreases bounds.items@.len() - i,
        {
            let (start, len): (usize, usize) = bounds.items[i];
            assert(bounds.items@[i as int].0 + bounds.items@[i as int].1 <= data@.len());
            items.push(
                bump_copy(&arena.bump, vstd::slice::slice_subrange(data, start, start + len)),
            );
            i = i + 1;
        }
        Ok(items)
    }
}

/// What reading and checking the bytes of a point gives.
pub open spec fn parses_as(
    ids: TlScheme,
    serialized: Seq<u8>,
    r: Result<Result<Point, PointIntegrityError>, TlError>,
) -> bool {
    match get_frame(ids, serialized) {
        Err(e) => r == Err::<Result<Point, PointIntegrityError>, TlError>(e),
        Ok(_) => if serialized.len() < BODY_OFFSET + 32 {
            r == Err::<Result<Point, PointIntegrityError>, TlError>(TlError::UnexpectedEof)
        } else {
            match frame_error(ids, serialized) {
                Some(e) => r == Ok::<Result<Point, PointIntegrityError>, TlError>(Err(e)),
                None => match get_point(ids, serialized) {
                    Err(e) => r == Err::<Result<Point, PointIntegrityError>, TlError>(e),
                    Ok(m) => checked_point(r, serialized, m),
                },
            }
        },
    }
}

/// What is left to check of a point that was read whole.
pub open spec fn checked_point(
    r: Result<Result<Point, PointIntegrityError>, TlError>,
    serialized: Seq<u8>,
    m: crate::models::point_info::InfoModel,
) -> bool {
    if !m.maps_agree() {
        r == Ok::<Result<Point, PointIntegrityError>, TlError>(Err(PointIntegrityError::BadMaps))
    } else if !m.evidence_verifies() {
        r == Ok::<Result<Point, PointIntegrityError>, TlError>(
            Err(PointIntegrityError::EvidenceSig),
        )
    } else {
        r matches Ok(Ok(point)) && point.serialized@ == serialized && point.info@ == m
            && point.info.wf()
    }
}

/// A point starts with its number, the digest and the signature. Its body starts at the
/// hundredth byte with the author and the round; the messages follow, then the data.
pub proof fn law_point_layout(
    ids: TlScheme,
    digest: Seq<u8>,
    signature: Seq<u8>,
    author: Seq<u8>,
    round: u32,
    payload: Seq<Seq<u8>>,
    data: crate::models::point_info::DataModel,
)
    requires
        digest.len() == 32,
        signature.len() == 64,
        author.len() == 32,
    ensures
        ({
            let s = enc_point(ids, digest, signature, enc_body(ids, author, round, payload, data));
            let end = 136 + crate::tl_bytes::enc_payload(payload).len();
            &&& s.subrange(0, 4) == crate::tl::le32(ids.point)
            &&& s.subrange(4, 36) == digest
            &&& s.subrange(36, 100) == signature
            &&& s.subrange(100, 132) == author
            &&& s.subrange(132, 136) == crate::tl::le32(round)
            &&& s.subrange(136, end as int) == crate::tl_bytes::enc_payload(payload)
            &&& s.skip(end as int) == crate::models::point_info::enc_data(ids, data)
        }),
{
    let s = enc_point(ids, digest, signature, enc_body(ids, author, round, payload, data));
    let end = 136 + crate::tl_bytes::enc_payload(payload).len();
    crate::tl::lemma_le32(ids.point, Seq::empty());
    crate::tl::lemma_le32(round, Seq::empty());
    assert(s.subrange(0, 4) =~= crate::tl::le32(ids.point));
    assert(s.subrange(4, 36) =~= digest);
    assert(s.subrange(36, 100) =~= signature);
    assert(s.subrange(100, 132) =~= author);
    assert(s.subrange(132, 136) =~= crate::tl::le32(round));
    assert(s.subrange(136, end as int) =~= crate::tl_bytes::enc_payload(payload));
    assert(s.skip(end as int) =~= crate::models::point_info::enc_data(ids, data));
}

/// A number of 32 bits that a greater one is cut to is the greatest.
pub proof fn law_counts_are_capped(n: nat)
    ensures
        n <= u32::MAX ==> capped(n) == n,
        n > u32::MAX ==> capped(n) == u32::MAX,
{
}

/// Room is left for one more of the least messages than the limit holds: each
/// forty-eight bytes of the limit take fifty-two.
pub proof fn law_greatest_size_grows_with_the_messages(payload_batch_bytes: nat)
    ensures
        payload_batch_bytes < 48 ==> point_max_size(payload_batch_bytes) == 4 + 52 + MAX_INFO_BYTES,
        point_max_size(payload_batch_bytes + 48) == point_max_size(payload_batch_bytes) + 52,
{
    assert(crate::tl_bytes::bytes_size(48) == 52);
    assert((payload_batch_bytes + 48) / 48 == payload_batch_bytes / 48 + 1);
}

/// The bytes of a point pass their first check exactly if the signature is one of the
/// author under the digest, and the digest is that of everything behind it.
pub proof fn law_frame_is_signed_by_the_author(
    ids: TlScheme,
    digest: Seq<u8>,
    signature: Seq<u8>,
    author: Seq<u8>,
    rest: Seq<u8>,
)
    requires
        digest.len() == 32,
        signature.len() == 64,
        author.len() == 32,
    ensures
        ({
            let s = enc_point(ids, digest, signature, author + rest);
            &&& frame_error(ids, s) is None <==> crate::outside::signature_verifies(
                author,
                digest,
                signature,
            ) && digest == crate::outside::blake3_of(author + rest)
            &&& frame_error(ids, s) == Some(PointIntegrityError::BadSig)
                <==> !crate::outside::signature_verifies(author, digest, signature)
        }),
{
    lemma_frame(ids, digest, signature, author + rest);
    let s = enc_point(ids, digest, signature, author + rest);
    crate::tl::lemma_le32(ids.point, Seq::empty());
    assert(s.subrange(BODY_OFFSET as int, BODY_OFFSET + 32) =~= author);
}

/// A reader gives what the bytes say, together with the bytes, or the error that they
/// have.
pub proof fn law_reader_gives_what_the_bytes_say(
    r: Result<Point, TlError>,
    serialized: Seq<u8>,
    d: Result<crate::models::point_info::InfoModel, TlError>,
)
    requires
        point_reads_as(r, serialized, d),
    ensures
        r is Ok <==> d is Ok,
        r is Ok ==> r->Ok_0.serialized@ == serialized && r->Ok_0.info@ == d->Ok_0
            && r->Ok_0.info.wf(),
        r is Err ==> r->Err_0 == d->Err_0,
{
}

/// A point that is read whole is kept with its bytes exactly if its maps agree and its
/// evidence verifies. The maps are blamed first.
pub proof fn law_point_in_order_is_kept(
    r: Result<Result<Point, PointIntegrityError>, TlError>,
    serialized: Seq<u8>,
    m: crate::models::point_info::InfoModel,
)
    requires
        checked_point(r, serialized, m),
    ensures
        r is Ok,
        r->Ok_0 is Ok <==> m.maps_agree() && m.evidence_verifies(),
        r->Ok_0 is Ok ==> r->Ok_0->Ok_0.serialized@ == serialized && r->Ok_0->Ok_0.info@ == m,
        !m.maps_agree() ==> r->Ok_0 == Err::<Point, PointIntegrityError>(
            PointIntegrityError::BadMaps,
        ),
        m.maps_agree() && !m.evidence_verifies() ==> r->Ok_0 == Err::<Point, PointIntegrityError>(
            PointIntegrityError::EvidenceSig,
        ),
{
}

} // verus!

//! What a point says, without its payload.
use crate::models::link::Link;
use crate::models::parts::{Digest, PeerId, Round, Signature, UnixTime};
use crate::models::peer_map::{FixedBytes, PeerEntry, PeerMap};
use crate::tl::{read_hash, read_u32, read_u64, write_hash, write_u32, write_u64, TlError, TlScheme};
use crate::tl_list::{read_list, write_list};
use vstd::prelude::*;

verus! {

/// The greatest number of peers.
pub const MAX_PEERS: usize = 255;

/// The greatest size of a [`PointInfo`].
pub const MAX_INFO_BYTES: usize = 4 + 32 + 64 + 32 + 4 + 4 + 4 + 8 + 4 + 255 * 64 + 4 + 255 * 64 + 4
    + 255 * 96 + 108 + 108 + 8;

/// What a point says.
#[derive(Debug, PartialEq, Eq)]
pub struct PointData {
    /// The time at which the point was made.
    pub time: UnixTime,
    /// The points of the round before that this one depends on.
    pub includes: PeerMap<Digest>,
    /// Points of the round before that.
    pub witness: PeerMap<Digest>,
    /// The signatures under the previous point of the author.
    pub evidence: PeerMap<Signature>,
    /// The last point that triggers an anchor.
    pub anchor_trigger: Link,
    /// The last point that proves an anchor.
    pub anchor_proof: Link,
    /// The time of the anchor.
    pub anchor_time: UnixTime,
}

/// The mathematical content of a [`PointData`].
#[verifier::ext_equal]
pub struct DataModel {
    pub time: u64,
    pub includes: Seq<(Seq<u8>, Seq<u8>)>,
    pub witness: Seq<(Seq<u8>, Seq<u8>)>,
    pub evidence: Seq<(Seq<u8>, Seq<u8>)>,
    pub anchor_trigger: crate::models::link::LinkModel,
    pub anchor_proof: crate::models::link::LinkModel,
    pub anchor_time: u64,
}

impl View for PointData {
    type V = DataModel;

    open spec fn view(&self) -> DataModel {
        DataModel {
            time: self.time.0,
            includes: crate::tl_list::models(self.includes.entries@),
            witness: crate::tl_list::models(self.witness.entries@),
            evidence: crate::tl_list::models(self.evidence.entries@),
            anchor_trigger: self.anchor_trigger@,
            anchor_proof: self.anchor_proof@,
            anchor_time: self.anchor_time.0,
        }
    }
}

/// The end of the data: the two links and the time of the anchor.
pub open spec fn enc_data_links(ids: TlScheme, m: DataModel) -> Seq<u8> {
    crate::models::link::enc_link(ids, m.anchor_trigger) + (crate::models::link::enc_link(
        ids,
        m.anchor_proof,
    ) + crate::tl::le64(m.anchor_time))
}

/// The bytes of the data.
pub open spec fn enc_data(ids: TlScheme, m: DataModel) -> Seq<u8> {
    crate::tl::le64(m.time) + (crate::tl_list::enc_list::<PeerEntry<Digest>>(ids, m.includes) + (
    crate::tl_list::enc_list::<PeerEntry<Digest>>(ids, m.witness) + (crate::tl_list::enc_list::<
        PeerEntry<Signature>,
    >(ids, m.evidence) + enc_data_links(ids, m))))
}

/// Reads the end of the data.
pub open spec fn get_data_links(ids: TlScheme, s: Seq<u8>, p: int) -> Result<
    ((crate::models::link::LinkModel, crate::models::link::LinkModel, u64), int),
    TlError,
> {
    match crate::models::link::get_link(ids, s, p) {
        Err(e) => Err(e),
        Ok((trigger, p1)) => match crate::models::link::get_link(ids, s, p1) {
            Err(e) => Err(e),
            Ok((proof_link, p2)) => match crate::tl::get_u64(s, p2) {
                Err(e) => Err(e),
                Ok((time, p3)) => Ok(((trigger, proof_link, time), p3)),
            },
        },
    }
}

/// Reads the data.
pub open spec fn get_data(ids: TlScheme, s: Seq<u8>, p: int) -> Result<(DataModel, int), TlError> {
    match crate::tl::get_u64(s, p) {
        Err(e) => Err(e),
        Ok((time, p1)) => match crate::tl_list::dec_list::<PeerEntry<Digest>>(
            ids,
            u32::MAX,
            s,
            p1,
        ) {
            Err(e) => Err(e),
            Ok((includes, p2)) => match crate::tl_list::dec_list::<PeerEntry<Digest>>(
                ids,
                u32::MAX,
                s,
                p2,
            ) {
                Err(e) => Err(e),
                Ok((witness, p3)) => match crate::tl_list::dec_list::<PeerEntry<Signature>>(
                    ids,
                    u32::MAX,
                    s,
                    p3,
                ) {
                    Err(e) => Err(e),
                    Ok((evidence, p4)) => match get_data_links(ids, s, p4) {
                        Err(e) => Err(e),
                        Ok(((anchor_trigger, anchor_proof, anchor_time), p5)) => Ok(
                            (
                                DataModel {
                                    time,
                                    includes,
                                    witness,
                                    evidence,
                                    anchor_trigger,
                                    anchor_proof,
                                    anchor_time,
                                },
                                p5,
                            ),
                        ),
                    },
                },
            },
        },
    }
}

/// Whether the data can be written and read back.
pub open spec fn valid_data(ids: TlScheme, m: DataModel) -> bool {
    &&& crate::tl_list::valid_list::<PeerEntry<Digest>>(ids, u32::MAX, m.includes)
    &&& crate::tl_list::valid_list::<PeerEntry<Digest>>(ids, u32::MAX, m.witness)
    &&& crate::tl_list::valid_list::<PeerEntry<Signature>>(ids, u32::MAX, m.evidence)
    &&& crate::models::link::valid_link(m.anchor_trigger)
    &&& crate::models::link::valid_link(m.anchor_proof)
}

/// Whether the maps can be counted in 32 bits.
pub open spec fn data_fits(m: DataModel) -> bool {
    &&& m.includes.len() <= u32::MAX
    &&& m.witness.len() <= u32::MAX
    &&& m.evidence.len() <= u32::MAX
}

/// Written data are read back.
pub proof fn lemma_data_round_trip(ids: TlScheme, m: DataModel, s: Seq<u8>, p: int)
    requires
        ids.distinct(),
        valid_data(ids, m),
        crate::tl::stands_at(s, p, enc_data(ids, m)),
    ensures
        get_data(ids, s, p) == Ok::<(DataModel, int), TlError>((m, p + enc_data(ids, m).len())),
{
    let time = crate::tl::le64(m.time);
    let includes = crate::tl_list::enc_list::<PeerEntry<Digest>>(ids, m.includes);
    let witness = crate::tl_list::enc_list::<PeerEntry<Digest>>(ids, m.witness);
    let evidence = crate::tl_list::enc_list::<PeerEntry<Signature>>(ids, m.evidence);
    let links = enc_data_links(ids, m);
    let trigger = crate::models::link::enc_link(ids, m.anchor_trigger);
    let proof_link = crate::models::link::enc_link(ids, m.anchor_proof);
    crate::tl::lemma_le64(m.time, Seq::empty());
    crate::tl::lemma_le64(m.anchor_time, Seq::empty());
    crate::tl::lemma_stands_split(s, p, time, includes + (witness + (evidence + links)));
    crate::tl::lemma_get_u64(s, p, m.time);
    let p1 = p + 8;
    crate::tl::lemma_stands_split(s, p1, includes, witness + (evidence + links));
    crate::tl_list::lemma_list_round_trip::<PeerEntry<Digest>>(ids, u32::MAX, m.includes, s, p1);
    let p2 = p1 + includes.len();
    crate::tl::lemma_stands_split(s, p2, witness, evidence + links);
    crate::tl_list::lemma_list_round_trip::<PeerEntry<Digest>>(ids, u32::MAX, m.witness, s, p2);
    let p3 = p2 + witness.len();
    crate::tl::lemma_stands_split(s, p3, evidence, links);
    crate::tl_list::lemma_list_round_trip::<PeerEntry<Signature>>(ids, u32::MAX, m.evidence, s, p3);
    let p4 = p3 + evidence.len();
    crate::tl::lemma_stands_split(s, p4, trigger, proof_link + crate::tl::le64(m.anchor_time));
    crate::models::link::lemma_link_round_trip(ids, m.anchor_trigger, s, p4);
    let p5 = p4 + trigger.len();
    crate::tl::lemma_stands_split(s, p5, proof_link, crate::tl::le64(m.anchor_time));
    crate::models::link::lemma_link_round_trip(ids, m.anchor_proof, s, p5);
    crate::tl::lemma_get_u64(s, p5 + proof_link.len(), m.anchor_time);
}

/// The size of a list of entries.
pub proof fn lemma_entries_size<V: FixedBytes>(
    ids: TlScheme,
    prev: Option<(Seq<u8>, Seq<u8>)>,
    ms: Seq<(Seq<u8>, Seq<u8>)>,
)
    requires
        crate::tl_list::valid_items::<PeerEntry<V>>(ids, prev, ms),
    ensures
        crate::tl_list::enc_items::<PeerEntry<V>>(ids, ms).len() == ms.len() * (32 + V::width()),
    decreases ms.len(),
{
    let w = 32 + V::width();
    let n = ms.len();
    if n > 0 {
        let rest = ms.drop_first();
        lemma_entries_size::<V>(ids, Some(ms[0]), rest);
        assert(rest.len() * w + w == n * w) by (nonlinear_arith)
            requires
                rest.len() + 1 == n,
        ;
    } else {
        assert(n * w == 0) by (nonlinear_arith)
            requires
                n == 0,
        ;
    }
}

/// The size of data about a bounded number of peers.
pub proof fn lemma_data_size(ids: TlScheme, m: DataModel)
    requires
        valid_data(ids, m),
        m.includes.len() <= MAX_PEERS,
        m.witness.len() <= MAX_PEERS,
        m.evidence.len() <= MAX_PEERS,
    ensures
        enc_data(ids, m).len() <= MAX_INFO_BYTES - 144,
{
    crate::tl::lemma_le64(m.time, Seq::empty());
    crate::tl::lemma_le64(m.anchor_time, Seq::empty());
    crate::tl::lemma_le32(m.includes.len() as u32, Seq::empty());
    crate::tl::lemma_le32(m.witness.len() as u32, Seq::empty());
    crate::tl::lemma_le32(m.evidence.len() as u32, Seq::empty());
    lemma_entries_size::<Digest>(ids, None, m.includes);
    lemma_entries_size::<Digest>(ids, None, m.witness);
    lemma_entries_size::<Signature>(ids, None, m.evidence);
    crate::models::link::lemma_link_size(ids, m.anchor_trigger);
    crate::models::link::lemma_link_size(ids, m.anchor_proof);
    assert(m.includes.len() * (32 + Digest::width()) <= 255 * 64) by (nonlinear_arith)
        requires
            m.includes.len() <= 255,
            Digest::width() == 32,
    ;
    assert(m.witness.len() * (32 + Digest::width()) <= 255 * 64) by (nonlinear_arith)
        requires
            m.witness.len() <= 255,
            Digest::width() == 32,
    ;
    assert(m.evidence.len() * (32 + Signature::width()) <= 255 * 96) by (nonlinear_arith)
        requires
            m.evidence.len() <= 255,
            Signature::width() == 64,
    ;
}

/// Maps in order are acceptable to the format.
pub proof fn lemma_data_valid(ids: TlScheme, data: PointData)
    requires
        data.wf(),
        data_fits(data@),
    ensures
        valid_data(ids, data@),
{
    crate::models::peer_map::lemma_valid_items::<Digest>(ids, None, data.includes.entries@);
    crate::models::peer_map::lemma_valid_items::<Digest>(ids, None, data.witness.entries@);
    crate::models::peer_map::lemma_valid_items::<Signature>(ids, None, data.evidence.entries@);
}

impl PointData {
    /// Whether the maps are in order.
    pub open spec fn wf(&self) -> bool {
        self.includes.wf() && self.witness.wf() && self.evidence.wf()
    }

    /// Writes the data.
    pub fn write(&self, ids: &TlScheme, packet: &mut Vec<u8>)
        requires
            data_fits(self@),
        ensures
            final(packet)@ == old(packet)@ + enc_data(*ids, self@),
    {
        let ghost start = packet@;
        write_u64(packet, self.time.0);
        write_list(ids, &self.includes.entries, packet);
        write_list(ids, &self.witness.entries, packet);
        write_list(ids, &self.evidence.entries, packet);
        let ghost lists = packet@;
        self.anchor_trigger.write(ids, packet);
        self.anchor_proof.write(ids, packet);
        write_u64(packet, self.anchor_time.0);
        proof {
            let m = self@;
            let time = crate::tl::le64(m.time);
            let includes = crate::tl_list::enc_list::<PeerEntry<Digest>>(*ids, m.includes);
            let witness = crate::tl_list::enc_list::<PeerEntry<Digest>>(*ids, m.witness);
            let evidence = crate::tl_list::enc_list::<PeerEntry<Signature>>(*ids, m.evidence);
            assert(packet@ =~= lists + enc_data_links(*ids, m));
            assert(start + time + includes + witness + evidence + enc_data_links(*ids, m)
                =~= start + (time + (includes + (witness + (evidence + enc_data_links(*ids, m))))));
        }
    }

    /// Reads the data.
    pub fn read(ids: &TlScheme, data: &[u8], pos: usize) -> (r: Result<(PointData, usize), TlError>)
        requires
            pos <= data@.len(),
        ensures
            match (r, get_data(*ids, data@, pos as int)) {
                (Ok((v, e)), Ok((m, e2))) => v@ == m && e == e2 && v.wf() && e <= data@.len(),
                (Err(a), Err(b)) => a == b,
                _ => false,
            },
    {
        let (time, p1) = match read_u64(data, pos) {
            Ok(x) => x,
            Err(e) => return Err(e),
        };
        let (includes, p2) = match read_map::<Digest>(ids, data, p1) {
            Ok(x) => x,
            Err(e) => return Err(e),
        };
        let (witness, p3) = match read_map::<Digest>(ids, data, p2) {
            Ok(x) => x,
            Err(e) => return Err(e),
        };
        let (evidence, p4) = match read_map::<Signature>(ids, data, p3) {
            Ok(x) => x,
            Err(e) => return Err(e),
        };
        let (anchor_trigger, p5) = match Link::read(ids, data, p4) {
            Ok(x) => x,
            Err(e) => return Err(e),
        };
        let (anchor_proof, p6) = match Link::read(ids, data, p5) {
            Ok(x) => x,
            Err(e) => return Err(e),
        };
        let (anchor_time, p7) = match read_u64(data, p6) {
            Ok(x) => x,
            Err(e) => return Err(e),
        };
        Ok(
            (
                PointData {
                    time: UnixTime(time),
                    includes,
                    witness,
                    evidence,
                    anchor_trigger,
                    anchor_proof,
                    anchor_time: UnixTime(anchor_time),
                },
                p7,
            ),
        )
    }
}

/// Reads a map of peers.
fn read_map<V: FixedBytes>(ids: &TlScheme, data: &[u8], pos: usize) -> (r: Result<
    (PeerMap<V>, usize),
    TlError,
>)
    requires
        pos <= data@.len(),
    ensures
        match (
            r,
            crate::tl_list::dec_list::<PeerEntry<V>>(*ids, u32::MAX, data@, pos as int),
        ) {
            (Ok((v, e)), Ok((m, e2))) => crate::tl_list::models(v.entries@) == m && e == e2
                && v.wf() && e <= data@.len(),
            (Err(a), Err(b)) => a == b,
            _ => false,
        },
{
    match read_list::<PeerEntry<V>>(ids, u32::MAX, data, pos) {
        Err(e) => Err(e),
        Ok((entries, end)) => {
            proof {
                crate::tl_list::lemma_list_canonical::<PeerEntry<V>>(
                    *ids,
                    u32::MAX,
                    data@,
                    pos as int,
                );
                crate::models::peer_map::lemma_valid_items::<V>(*ids, None, entries@);
            }
            Ok((PeerMap { entries }, end))
        },
    }
}

/// What is known of a point without its payload.
#[derive(Debug, PartialEq, Eq)]
pub struct PointInfo {
    pub digest: Digest,
    pub signature: Signature,
    pub author: PeerId,
    pub round: Round,
    pub payload_len: u32,
    pub payload_bytes: u32,
    pub data: PointData,
}

/// The mathematical content of a [`PointInfo`].
#[verifier::ext_equal]
pub struct InfoModel {
    pub digest: Seq<u8>,
    pub signature: Seq<u8>,
    pub author: Seq<u8>,
    pub round: u32,
    pub payload_len: u32,
    pub payload_bytes: u32,
    pub data: DataModel,
}

/// Whether a list of entries has one for a peer.
pub open spec fn lists_peer(entries: Seq<(Seq<u8>, Seq<u8>)>, peer: Seq<u8>) -> bool {
    exists|i: int| 0 <= i < entries.len() && (#[trigger] entries[i]).0 == peer
}

impl InfoModel {
    /// Whether the maps agree with each other: the signatures under the previous
    /// point of the author come with that point, and only with it; the author
    /// does not sign for itself, and does not witness itself.
    pub open spec fn maps_agree(&self) -> bool {
        &&& lists_peer(self.data.includes, self.author) == (self.data.evidence.len() > 0)
        &&& !lists_peer(self.data.evidence, self.author)
        &&& !lists_peer(self.data.witness, self.author)
    }

    /// Whether every signature in evidence is one under the previous point of
    /// the author.
    pub open spec fn evidence_verifies(&self) -> bool {
        forall|i: int, j: int|
            #![trigger self.data.evidence[i], self.data.includes[j]]
            0 <= i < self.data.evidence.len() && 0 <= j < self.data.includes.len()
                && self.data.includes[j].0 == self.author ==> crate::outside::signature_verifies(
                self.data.evidence[i].0,
                self.data.includes[j].1,
                self.data.evidence[i].1,
            )
    }
}

/// A map has an entry for a peer if its list has.
proof fn lemma_lists_peer<V: FixedBytes>(map: PeerMap<V>, peer: PeerId)
    requires
        map.wf(),
    ensures
        map@.dom().contains(peer) == lists_peer(crate::tl_list::models(map.entries@), peer@),
{
    let ms = crate::tl_list::models(map.entries@);
    if map@.dom().contains(peer) {
        let i = choose|i: int|
            0 <= i < map.entries@.len() && (#[trigger] map.entries@[i]).peer == peer;
        assert(ms[i].0 == peer@);
    }
    if lists_peer(ms, peer@) {
        let i = choose|i: int| 0 <= i < ms.len() && (#[trigger] ms[i]).0 == peer@;
        crate::ids::lemma_hash_ext(map.entries@[i].peer, peer);
        crate::models::peer_map::lemma_entry(map.entries@, i);
    }
}

impl View for PointInfo {
    type V = InfoModel;

    open spec fn view(&self) -> InfoModel {
        InfoModel {
            digest: self.digest@,
            signature: self.signature@,
            author: self.author@,
            round: self.round.0,
            payload_len: self.payload_len,
            payload_bytes: self.payload_bytes,
            data: self.data@,
        }
    }
}

/// The bytes of an info.
pub open spec fn enc_info(ids: TlScheme, m: InfoModel) -> Seq<u8> {
    crate::tl::le32(ids.point_info) + (m.digest + (m.signature + (m.author + (crate::tl::le32(
        m.round,
    ) + (crate::tl::le32(m.payload_len) + (crate::tl::le32(m.payload_bytes) + enc_data(
        ids,
        m.data,
    )))))))
}

/// Reads the part of an info that follows the author.
pub open spec fn get_info_tail(ids: TlScheme, s: Seq<u8>, p: int) -> Result<
    ((u32, u32, u32, DataModel), int),
    TlError,
> {
    match crate::tl::get_u32(s, p) {
        Err(e) => Err(e),
        Ok((round, p1)) => match crate::tl::get_u32(s, p1) {
            Err(e) => Err(e),
            Ok((payload_len, p2)) => match crate::tl::get_u32(s, p2) {
                Err(e) => Err(e),
                Ok((payload_bytes, p3)) => match get_data(ids, s, p3) {
                    Err(e) => Err(e),
                    Ok((data, p4)) => Ok(((round, payload_len, payload_bytes, data), p4)),
                },
            },
        },
    }
}

/// Reads an info.
pub open spec fn get_info(ids: TlScheme, s: Seq<u8>, p: int) -> Result<(InfoModel, int), TlError> {
    match crate::tl::get_u32(s, p) {
        Err(e) => Err(e),
        Ok((id, p1)) => if id != ids.point_info {
            Err(TlError::UnknownConstructor)
        } else {
            match crate::tl::get_raw(s, p1, 32) {
                Err(e) => Err(e),
                Ok((digest, p2)) => match crate::tl::get_raw(s, p2, 64) {
                    Err(e) => Err(e),
                    Ok((signature, p3)) => match crate::tl::get_raw(s, p3, 32) {
                        Err(e) => Err(e),
                        Ok((author, p4)) => match get_info_tail(ids, s, p4) {
                            Err(e) => Err(e),
                            Ok(((round, payload_len, payload_bytes, data), p5)) => Ok(
                                (
                                    InfoModel {
                                        digest,
                                        signature,
                                        author,
                                        round,
                                        payload_len,
                                        payload_bytes,
                                        data,
                                    },
                                    p5,
                                ),
                            ),
                        },
                    },
                },
            }
        },
    }
}

/// Whether an info can be written and read back.
pub open spec fn valid_info(ids: TlScheme, m: InfoModel) -> bool {
    &&& m.digest.len() == 32
    &&& m.signature.len() == 64
    &&& m.author.len() == 32
    &&& valid_data(ids, m.data)
}

/// A written info is read back.
pub proof fn law_info_round_trip(ids: TlScheme, m: InfoModel, s: Seq<u8>, p: int)
    requires
        ids.distinct(),
        valid_info(ids, m),
        crate::tl::stands_at(s, p, enc_info(ids, m)),
    ensures
        get_info(ids, s, p) == Ok::<(InfoModel, int), TlError>((m, p + enc_info(ids, m).len())),
{
    let id = crate::tl::le32(ids.point_info);
    let round = crate::tl::le32(m.round);
    let len = crate::tl::le32(m.payload_len);
    let bytes = crate::tl::le32(m.payload_bytes);
    let data = enc_data(ids, m.data);
    crate::tl::lemma_le32(ids.point_info, Seq::empty());
    crate::tl::lemma_le32(m.round, Seq::empty());
    crate::tl::lemma_le32(m.payload_len, Seq::empty());
    crate::tl::lemma_le32(m.payload_bytes, Seq::empty());
    let r5 = bytes + data;
    let r4 = len + r5;
    let r3 = round + r4;
    let r2 = m.author + r3;
    let r1 = m.signature + r2;
    crate::tl::lemma_stands_split(s, p, id, m.digest + r1);
    crate::tl::lemma_get_u32(s, p, ids.point_info);
    crate::tl::lemma_stands_split(s, p + 4, m.digest, r1);
    crate::tl::lemma_stands_split(s, p + 36, m.signature, r2);
    crate::tl::lemma_stands_split(s, p + 100, m.author, r3);
    crate::tl::lemma_stands_split(s, p + 132, round, r4);
    crate::tl::lemma_get_u32(s, p + 132, m.round);
    crate::tl::lemma_stands_split(s, p + 136, len, r5);
    crate::tl::lemma_get_u32(s, p + 136, m.payload_len);
    crate::tl::lemma_stands_split(s, p + 140, bytes, data);
    crate::tl::lemma_get_u32(s, p + 140, m.payload_bytes);
    lemma_data_round_trip(ids, m.data, s, p + 144);
}

/// An info about a bounded number of peers has a bounded size.
pub proof fn law_info_size(ids: TlScheme, m: InfoModel)
    requires
        valid_info(ids, m),
        m.data.includes.len() <= MAX_PEERS,
        m.data.witness.len() <= MAX_PEERS,
        m.data.evidence.len() <= MAX_PEERS,
    ensures
        enc_info(ids, m).len() <= MAX_INFO_BYTES,
{
    crate::tl::lemma_le32(ids.point_info, Seq::empty());
    crate::tl::lemma_le32(m.round, Seq::empty());
    crate::tl::lemma_le32(m.payload_len, Seq::empty());
    crate::tl::lemma_le32(m.payload_bytes, Seq::empty());
    lemma_data_size(ids, m.data);
}

impl PointInfo {
    /// Whether the maps are in order.
    pub open spec fn wf(&self) -> bool {
        self.data.wf()
    }

    /// An info from its parts.
    pub fn new(
        digest: Digest,
        signature: Signature,
        author: PeerId,
        round: Round,
        payload_len: u32,
        payload_bytes: u32,
        data: PointData,
    ) -> (r: Self)
        ensures
            r == (PointInfo { digest, signature, author, round, payload_len, payload_bytes, data }),
    {
        PointInfo { digest, signature, author, round, payload_len, payload_bytes, data }
    }

    /// The digest of the previous point of the author.
    pub fn prev_digest(&self) -> (r: Option<&Digest>)
        requires
            self.wf(),
        ensures
            match r {
                Some(d) => self.data.includes@.dom().contains(self.author) && *d
                    == self.data.includes@[self.author],
                None => !self.data.includes@.dom().contains(self.author),
            },
    {
        self.data.includes.get(&self.author)
    }

    /// Whether the maps agree with each other.
    pub fn has_well_formed_maps(&self) -> (r: bool)
        requires
            self.wf(),
        ensures
            r == self@.maps_agree(),
    {
        proof {
            lemma_lists_peer(self.data.includes, self.author);
            lemma_lists_peer(self.data.evidence, self.author);
            lemma_lists_peer(self.data.witness, self.author);
        }
        self.data.includes.contains_key(&self.author) != self.data.evidence.is_empty()
            && !self.data.evidence.contains_key(&self.author) && !self.data.witness.contains_key(
            &self.author,
        )
    }

    /// Whether every signature in evidence is one under the previous point.
    pub fn is_evidence_ok(&self) -> (r: bool)
        requires
            self.wf(),
        ensures
            r == self@.evidence_verifies(),
    {
        let ghost m = self@.data;
        proof {
            lemma_lists_peer(self.data.includes, self.author);
        }
        let prev_digest: Digest = match self.prev_digest() {
            Some(digest) => *digest,
            None => {
                return true;
            },
        };
        let mut i: usize = 0;
        proof {
            assert forall|j: int|
                0 <= j < m.includes.len() && (#[trigger] m.includes[j]).0
                    == self.author@ implies m.includes[j].1 == prev_digest@ by {
                crate::ids::lemma_hash_ext(self.data.includes.entries@[j].peer, self.author);
                crate::models::peer_map::lemma_entry(self.data.includes.entries@, j);
            }
        }
        let ghost own = choose|j: int|
            0 <= j < m.includes.len() && (#[trigger] m.includes[j]).0 == self.author@;
        while i < self.data.evidence.entries.len()
            invariant
                m == self@.data,
                i <= self.data.evidence.entries@.len(),
                0 <= own < m.includes.len(),
                m.includes[own].0 == self.author@,
                m.includes[own].1 == prev_digest@,
                forall|j: int|
                    0 <= j < i ==> crate::outside::signature_verifies(
                        (#[trigger] m.evidence[j]).0,
                        prev_digest@,
                        m.evidence[j].1,
                    ),
            decreases self.data.evidence.entries@.len() - i,
        {
            let entry: &PeerEntry<Signature> = &self.data.evidence.entries[i];
            assert(m.evidence[i as int] == (entry.peer@, entry.value@));
            if !entry.value.verifies(&entry.peer, &prev_digest) {
                return false;
            }
            i = i + 1;
        }
        true
    }

    /// Writes the info.
    pub fn write(&self, ids: &TlScheme, packet: &mut Vec<u8>)
        requires
            data_fits(self@.data),
        ensures
            final(packet)@ == old(packet)@ + enc_info(*ids, self@),
    {
        let ghost start = packet@;
        write_u32(packet, ids.point_info);
        self.digest.put(packet);
        self.signature.put(packet);
        write_hash(packet, &self.author);
        let ghost head = packet@;
        write_u32(packet, self.round.0);
        write_u32(packet, self.payload_len);
        write_u32(packet, self.payload_bytes);
        self.data.write(ids, packet);
        proof {
            let m = self@;
            let id = crate::tl::le32(ids.point_info);
            let round = crate::tl::le32(m.round);
            let len = crate::tl::le32(m.payload_len);
            let bytes = crate::tl::le32(m.payload_bytes);
            let data = enc_data(*ids, m.data);
            let tail = round + (len + (bytes + data));
            assert(packet@ =~= head + tail);
            assert(start + id + m.digest + m.signature + m.author + tail =~= start + (id + (m.digest
                + (m.signature + (m.author + tail)))));
        }
    }

    /// Reads an info from the start of a byte string.
    pub fn deserialize(ids: &TlScheme, data: &[u8]) -> (r: Result<PointInfo, TlError>)
        ensures
            match (r, get_info(*ids, data@, 0)) {
                (Ok(v), Ok((m, e))) => v@ == m && v.wf(),
                (Err(a), Err(b)) => a == b,
                _ => false,
            },
    {
        let (id, p1) = match read_u32(data, 0) {
            Ok(x) => x,
            Err(e) => return Err(e),
        };
        if id != ids.point_info {
            return Err(TlError::UnknownConstructor);
        }
        let (digest, p2) = match Digest::take_from(data, p1) {
            Ok(x) => x,
            Err(e) => return Err(e),
        };
        let (signature, p3) = match Signature::take_from(data, p2) {
            Ok(x) => x,
            Err(e) => return Err(e),
        };
        let (author, p4) = match read_hash(data, p3) {
            Ok(x) => x,
            Err(e) => return Err(e),
        };
        let (round, p5) = match read_u32(data, p4) {
            Ok(x) => x,
            Err(e) => return Err(e),
        };
        let (payload_len, p6) = match read_u32(data, p5) {
            Ok(x) => x,
            Err(e) => return Err(e),
        };
        let (payload_bytes, p7) = match read_u32(data, p6) {
            Ok(x) => x,
            Err(e) => return Err(e),
        };
        match PointData::read(ids, data, p7) {
            Err(e) => Err(e),
            Ok((point_data, _end)) => Ok(
                PointInfo::new(
                    digest,
                    signature,
                    author,
                    Round(round),
                    payload_len,
                    payload_bytes,
                    point_data,
                ),
            ),
        }
    }
}

/// An info starts with its number, the digest, the signature and the author. The round,
/// the number of messages and their bytes follow, and from the 144th byte on the data.
pub proof fn law_info_layout(ids: TlScheme, m: InfoModel)
    requires
        m.digest.len() == 32,
        m.signature.len() == 64,
        m.author.len() == 32,
    ensures
        ({
            let s = enc_info(ids, m);
            &&& s.subrange(0, 4) == crate::tl::le32(ids.point_info)
            &&& s.subrange(4, 36) == m.digest
            &&& s.subrange(36, 100) == m.signature
            &&& s.subrange(100, 132) == m.author
            &&& s.subrange(132, 136) == crate::tl::le32(m.round)
            &&& s.subrange(136, 140) == crate::tl::le32(m.payload_len)
            &&& s.subrange(140, 144) == crate::tl::le32(m.payload_bytes)
            &&& s.skip(144) == enc_data(ids, m.data)
        }),
{
    let s = enc_info(ids, m);
    crate::tl::lemma_le32(ids.point_info, Seq::empty());
    crate::tl::lemma_le32(m.round, Seq::empty());
    crate::tl::lemma_le32(m.payload_len, Seq::empty());
    crate::tl::lemma_le32(m.payload_bytes, Seq::empty());
    assert(s.subrange(0, 4) =~= crate::tl::le32(ids.point_info));
    assert(s.subrange(4, 36) =~= m.digest);
    assert(s.subrange(36, 100) =~= m.signature);
    assert(s.subrange(100, 132) =~= m.author);
    assert(s.subrange(132, 136) =~= crate::tl::le32(m.round));
    assert(s.subrange(136, 140) =~= crate::tl::le32(m.payload_len));
    assert(s.subrange(140, 144) =~= crate::tl::le32(m.payload_bytes));
    assert(s.skip(144) =~= enc_data(ids, m.data));
}

/// The data are the time of the point, the points that it includes, those that it
/// witnesses, the signatures, the links to the trigger and to the proof of an anchor, and
/// the time of the anchor, in this order.
pub proof fn law_data_layout(ids: TlScheme, m: DataModel)
    ensures
        enc_data(ids, m) == crate::tl::le64(m.time) + crate::tl_list::enc_list::<PeerEntry<Digest>>(
            ids,
            m.includes,
        ) + crate::tl_list::enc_list::<PeerEntry<Digest>>(ids, m.witness)
            + crate::tl_list::enc_list::<PeerEntry<Signature>>(ids, m.evidence)
            + crate::models::link::enc_link(ids, m.anchor_trigger) + crate::models::link::enc_link(
            ids,
            m.anchor_proof,
        ) + crate::tl::le64(m.anchor_time),
{
    assert(enc_data(ids, m) =~= crate::tl::le64(m.time) + crate::tl_list::enc_list::<
        PeerEntry<Digest>,
    >(ids, m.includes) + crate::tl_list::enc_list::<PeerEntry<Digest>>(ids, m.witness)
        + crate::tl_list::enc_list::<PeerEntry<Signature>>(ids, m.evidence)
        + crate::models::link::enc_link(ids, m.anchor_trigger) + crate::models::link::enc_link(
        ids,
        m.anchor_proof,
    ) + crate::tl::le64(m.anchor_time));
}

/// The greatest size is met by an info about as many peers as there can be, with links
/// that are indirect.
pub proof fn law_greatest_info_size_is_met(ids: TlScheme, m: InfoModel)
    requires
        valid_info(ids, m),
        m.data.includes.len() == 255,
        m.data.witness.len() == 255,
        m.data.evidence.len() == 255,
        m.data.anchor_trigger is Indirect,
        m.data.anchor_proof is Indirect,
    ensures
        enc_info(ids, m).len() == MAX_INFO_BYTES,
{
    let d = m.data;
    crate::tl::lemma_le32(ids.point_info, Seq::empty());
    crate::tl::lemma_le32(m.round, Seq::empty());
    crate::tl::lemma_le32(m.payload_len, Seq::empty());
    crate::tl::lemma_le32(m.payload_bytes, Seq::empty());
    crate::tl::lemma_le64(d.time, Seq::empty());
    crate::tl::lemma_le64(d.anchor_time, Seq::empty());
    crate::tl::lemma_le32(255, Seq::empty());
    lemma_entries_size::<Digest>(ids, None, d.includes);
    lemma_entries_size::<Digest>(ids, None, d.witness);
    lemma_entries_size::<Signature>(ids, None, d.evidence);
    assert(Digest::width() == 32);
    assert(Signature::width() == 64);
    let t = d.anchor_trigger;
    crate::models::link::law_link_layout(ids, t->Indirect_0, t->1, t->2, (t->3).0, (t->3).1);
    let t = d.anchor_proof;
    crate::models::link::law_link_layout(ids, t->Indirect_0, t->1, t->2, (t->3).0, (t->3).1);
}

/// Maps agree if there are signatures exactly where the author names a previous point of
/// its own, none of them its own, and if it does not witness itself.
pub proof fn law_evidence_comes_with_the_previous_point(m: InfoModel)
    ensures
        m.maps_agree() <==> {
            &&& m.data.evidence.len() == 0 <==> forall|i: int|
                0 <= i < m.data.includes.len() ==> (#[trigger] m.data.includes[i]).0 != m.author
            &&& forall|i: int|
                0 <= i < m.data.evidence.len() ==> (#[trigger] m.data.evidence[i]).0 != m.author
            &&& forall|i: int|
                0 <= i < m.data.witness.len() ==> (#[trigger] m.data.witness[i]).0 != m.author
        },
{
}

/// A signature in evidence that verifies is one of its peer under the digest of the
/// previous point of the author.
pub proof fn law_evidence_signs_the_previous_point(m: InfoModel, i: int, j: int)
    requires
        0 <= i < m.data.evidence.len(),
        0 <= j < m.data.includes.len(),
        m.data.includes[j].0 == m.author,
    ensures
        m.evidence_verifies() ==> crate::outside::signature_verifies(
            m.data.evidence[i].0,
            m.data.includes[j].1,
            m.data.evidence[i].1,
        ),
        m.data.evidence.len() == 1 && (forall|k: int|
            0 <= k < m.data.includes.len() && k != j ==> (#[trigger] m.data.includes[k]).0
                != m.author) && crate::outside::signature_verifies(
            m.data.evidence[i].0,
            m.data.includes[j].1,
            m.data.evidence[i].1,
        ) ==> m.evidence_verifies(),
{
}

/// Every field of a point counts as what it is: each map as its own entries, each link and
/// each time as itself.
pub proof fn law_info_says_what_it_holds(info: PointInfo)
    ensures
        info@.digest == info.digest@,
        info@.signature == info.signature@,
        info@.author == info.author@,
        info@.round == info.round.0,
        info@.payload_len == info.payload_len,
        info@.payload_bytes == info.payload_bytes,
        info@.data.time == info.data.time.0,
        info@.data.includes == crate::tl_list::models(info.data.includes.entries@),
        info@.data.witness == crate::tl_list::models(info.data.witness.entries@),
        info@.data.evidence == crate::tl_list::models(info.data.evidence.entries@),
        info@.data.anchor_trigger == info.data.anchor_trigger@,
        info@.data.anchor_proof == info.data.anchor_proof@,
        info@.data.anchor_time == info.data.anchor_time.0,
{
}

} // verus!

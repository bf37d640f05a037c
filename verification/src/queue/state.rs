//! Persistent states of the message queue and their binary form.
use crate::ids::ShardIdent;
use crate::queue::diff::QueueDiff;
use crate::tl::{
    read_shard, read_u32, write_raw, write_shard, write_u32, TlError, TlScheme,
};
use crate::tl_list::{list_size, read_items, read_list, write_list, TlItem};
use vstd::prelude::*;

verus! {

/// How many diffs a state can hold.
pub const MAX_QUEUE_DIFFS: u32 = 1000;

/// How many chunks of messages a state can hold.
pub const MAX_CHUNKS: u32 = 10_000_000;

/// How long a chunk can be.
pub const MAX_CHUNK_SIZE: u32 = 104_857_600;

/// How many bytes fill a length up to a multiple of four.
pub open spec fn padding(len: int) -> int {
    (4 - len % 4) % 4
}

/// The bytes that fill a chunk up.
pub open spec fn zeros(n: int) -> Seq<u8> {
    Seq::new(n as nat, |i: int| 0u8)
}

/// The bytes of a chunk: its length, its content, filled up to a multiple of
/// four.
pub open spec fn enc_chunk(m: Seq<u8>) -> Seq<u8> {
    crate::tl::le32(m.len() as u32) + (m + zeros(padding(m.len() as int)))
}

/// A chunk, read at a position. What it is filled up with does not matter.
pub open spec fn get_chunk(s: Seq<u8>, p: int) -> Result<(Seq<u8>, int), TlError> {
    match crate::tl::get_u32(s, p) {
        Err(e) => Err(e),
        Ok((len, p1)) => if len > MAX_CHUNK_SIZE {
            Err(TlError::InvalidData)
        } else if p1 + len + padding(len as int) > s.len() {
            Err(TlError::UnexpectedEof)
        } else {
            Ok((s.subrange(p1, p1 + len), p1 + len + padding(len as int)))
        },
    }
}

/// Where the content of a chunk stands and where the next one begins.
fn read_chunk_range(data: &[u8], pos: usize) -> (r: Result<(usize, usize, usize), TlError>)
    requires
        pos <= data@.len(),
    ensures
        match (r, get_chunk(data@, pos as int)) {
            (Ok((from, to, e)), Ok((m, e2))) => from <= to <= e <= data@.len()
                && data@.subrange(from as int, to as int) == m && e == e2,
            (Err(a), Err(b)) => a == b,
            _ => false,
        },
{
    match read_u32(data, pos) {
        Err(e) => Err(e),
        Ok((len, p1)) => {
            if len > MAX_CHUNK_SIZE {
                return Err(TlError::InvalidData);
            }
            let fill: u32 = (4 - len % 4) % 4;
            let left: usize = data.len() - p1;
            if left < len as usize || left - (len as usize) < fill as usize {
                return Err(TlError::UnexpectedEof);
            }
            let to: usize = p1 + len as usize;
            Ok((p1, to, to + fill as usize))
        },
    }
}

/// Writes a chunk.
fn write_chunk(packet: &mut Vec<u8>, chunk: &[u8])
    requires
        chunk@.len() <= u32::MAX,
    ensures
        final(packet)@ == old(packet)@ + enc_chunk(chunk@),
{
    let ghost start = packet@;
    let len: u32 = chunk.len() as u32;
    write_u32(packet, len);
    write_raw(packet, chunk);
    let fill: u32 = (4 - len % 4) % 4;
    let mut i: u32 = 0;
    let ghost body = packet@;
    assert(body =~= body + zeros(0));
    while i < fill
        invariant
            i <= fill,
            packet@ == body + zeros(i as int),
        decreases fill - i,
    {
        packet.push(0u8);
        i = i + 1;
        assert(packet@ =~= body + zeros(i as int));
    }
    assert(packet@ =~= start + enc_chunk(chunk@));
}

/// Chunks are byte strings.
impl TlItem for Vec<u8> {
    type Model = Seq<u8>;

    open spec fn model(&self) -> Seq<u8> {
        self@
    }

    open spec fn fits(m: Seq<u8>) -> bool {
        m.len() <= u32::MAX
    }

    open spec fn enc(ids: TlScheme, m: Seq<u8>) -> Seq<u8> {
        enc_chunk(m)
    }

    open spec fn dec(ids: TlScheme, prev: Option<Seq<u8>>, s: Seq<u8>, p: int) -> Result<
        (Seq<u8>, int),
        TlError,
    > {
        get_chunk(s, p)
    }

    open spec fn valid(ids: TlScheme, prev: Option<Seq<u8>>, m: Seq<u8>) -> bool {
        m.len() <= MAX_CHUNK_SIZE
    }

    open spec fn strict() -> bool {
        false
    }

    proof fn lemma_round_trip(
        ids: TlScheme,
        prev: Option<Seq<u8>>,
        m: Seq<u8>,
        s: Seq<u8>,
        p: int,
    ) {
        let fill = zeros(padding(m.len() as int));
        crate::tl::lemma_le32(m.len() as u32, Seq::empty());
        crate::tl::lemma_get_u32(s, p, m.len() as u32);
        crate::tl::lemma_stands_split(s, p, crate::tl::le32(m.len() as u32), m + fill);
        crate::tl::lemma_stands_split(s, p + 4, m, fill);
    }

    proof fn lemma_canonical(ids: TlScheme, prev: Option<Seq<u8>>, s: Seq<u8>, p: int) {
        let (m, e) = get_chunk(s, p)->Ok_0;
        crate::tl::lemma_get_u32(s, p, m.len() as u32);
    }

    fn write(&self, ids: &TlScheme, packet: &mut Vec<u8>) {
        write_chunk(packet, self.as_slice());
    }

    fn size(&self, ids: &TlScheme) -> (r: usize) {
        proof {
            crate::tl::lemma_le32(self@.len() as u32, Seq::empty());
        }
        let len: usize = self.len();
        4 + len + (4 - len % 4) % 4
    }

    fn read(ids: &TlScheme, prev: Option<&Self>, data: &[u8], pos: usize) -> (r: Result<
        (Self, usize),
        TlError,
    >) {
        match read_chunk_range(data, pos) {
            Err(e) => Err(e),
            Ok((from, to, end)) => {
                let mut chunk: Vec<u8> = Vec::new();
                write_raw(&mut chunk, vstd::slice::slice_subrange(data, from, to));
                assert(chunk@ =~= data@.subrange(from as int, to as int));
                Ok((chunk, end))
            },
        }
    }
}

/// The diffs from which a queue state was made, the newest first.
#[derive(Debug, PartialEq, Eq)]
pub struct QueueStateHeader {
    pub shard_ident: ShardIdent,
    pub seqno: u32,
    pub queue_diffs: Vec<QueueDiff>,
}

/// The mathematical content of a [`QueueStateHeader`].
#[verifier::ext_equal]
pub struct HeaderModel {
    pub shard_ident: ShardIdent,
    pub seqno: u32,
    pub queue_diffs: Seq<crate::queue::diff::DiffModel>,
}

impl View for QueueStateHeader {
    type V = HeaderModel;

    open spec fn view(&self) -> HeaderModel {
        HeaderModel {
            shard_ident: self.shard_ident,
            seqno: self.seqno,
            queue_diffs: crate::tl_list::models(self.queue_diffs@),
        }
    }
}

/// The bytes of a header.
pub open spec fn enc_header(ids: TlScheme, m: HeaderModel) -> Seq<u8> {
    crate::tl::le32(ids.queue_state_header) + (crate::tl::enc_shard(m.shard_ident) + (
    crate::tl::le32(m.seqno) + crate::tl_list::enc_list::<QueueDiff>(ids, m.queue_diffs)))
}

/// The list of diffs, read at a position. It is not empty.
pub open spec fn get_diffs(ids: TlScheme, s: Seq<u8>, p: int) -> Result<
    (Seq<crate::queue::diff::DiffModel>, int),
    TlError,
> {
    match crate::tl::get_u32(s, p) {
        Err(e) => Err(e),
        Ok((n, p1)) => if n > MAX_QUEUE_DIFFS || n == 0 {
            Err(TlError::InvalidData)
        } else {
            crate::tl_list::dec_items::<QueueDiff>(ids, None, n as nat, s, p1)
        },
    }
}

/// A header, read at a position.
pub open spec fn get_header(ids: TlScheme, s: Seq<u8>, p: int) -> Result<
    (HeaderModel, int),
    TlError,
> {
    match crate::tl::get_u32(s, p) {
        Err(e) => Err(e),
        Ok((id, p1)) => if id != ids.queue_state_header {
            Err(TlError::UnknownConstructor)
        } else {
            match crate::tl::get_shard(s, p1) {
                Err(e) => Err(e),
                Ok((shard_ident, p2)) => match crate::tl::get_u32(s, p2) {
                    Err(e) => Err(e),
                    Ok((seqno, p3)) => match get_diffs(ids, s, p3) {
                        Err(e) => Err(e),
                        Ok((queue_diffs, p4)) => Ok(
                            (HeaderModel { shard_ident, seqno, queue_diffs }, p4),
                        ),
                    },
                },
            }
        },
    }
}

/// Whether a header can be written and read back.
pub open spec fn valid_header(ids: TlScheme, m: HeaderModel) -> bool {
    &&& m.shard_ident.valid()
    &&& m.queue_diffs.len() > 0
    &&& crate::tl_list::valid_list::<QueueDiff>(ids, MAX_QUEUE_DIFFS, m.queue_diffs)
}

/// A written header is read back.
pub proof fn law_header_round_trip(ids: TlScheme, m: HeaderModel, s: Seq<u8>, p: int)
    requires
        valid_header(ids, m),
        crate::tl::stands_at(s, p, enc_header(ids, m)),
    ensures
        get_header(ids, s, p) == Ok::<(HeaderModel, int), TlError>(
            (m, p + enc_header(ids, m).len()),
        ),
{
    let id = crate::tl::le32(ids.queue_state_header);
    let shard = crate::tl::enc_shard(m.shard_ident);
    let seqno = crate::tl::le32(m.seqno);
    let diffs = crate::tl_list::enc_list::<QueueDiff>(ids, m.queue_diffs);
    crate::tl::lemma_le32(ids.queue_state_header, Seq::empty());
    crate::tl::lemma_le32(m.seqno, Seq::empty());
    crate::tl::lemma_le32(m.queue_diffs.len() as u32, Seq::empty());
    crate::tl::lemma_stands_split(s, p, id, shard + (seqno + diffs));
    crate::tl::lemma_get_u32(s, p, ids.queue_state_header);
    crate::tl::lemma_stands_split(s, p + 4, shard, seqno + diffs);
    crate::tl::lemma_get_shard(s, p + 4, m.shard_ident);
    crate::tl::lemma_stands_split(s, p + 16, seqno, diffs);
    crate::tl::lemma_get_u32(s, p + 16, m.seqno);
    crate::tl::lemma_stands_split(
        s,
        p + 20,
        crate::tl::le32(m.queue_diffs.len() as u32),
        crate::tl_list::enc_items::<QueueDiff>(ids, m.queue_diffs),
    );
    crate::tl::lemma_get_u32(s, p + 20, m.queue_diffs.len() as u32);
    crate::tl_list::lemma_items_round_trip::<QueueDiff>(ids, None, m.queue_diffs, s, p + 24);
}

/// A header that is read is acceptable: its diffs form a chain that descends
/// from the newest to the oldest. Its bytes are the only ones it has.
pub proof fn law_header_canonical(ids: TlScheme, s: Seq<u8>, p: int)
    requires
        0 <= p <= s.len(),
        get_header(ids, s, p) is Ok,
    ensures
        ({
            let (m, e) = get_header(ids, s, p)->Ok_0;
            &&& valid_header(ids, m)
            &&& e == p + enc_header(ids, m).len()
            &&& e <= s.len()
            &&& crate::tl::stands_at(s, p, enc_header(ids, m))
        }),
{
    let (m, e) = get_header(ids, s, p)->Ok_0;
    let shard = crate::tl::enc_shard(m.shard_ident);
    let seqno = crate::tl::le32(m.seqno);
    let diffs = crate::tl_list::enc_list::<QueueDiff>(ids, m.queue_diffs);
    crate::tl::lemma_get_u32(s, p, ids.queue_state_header);
    crate::tl::lemma_get_shard(s, p + 4, m.shard_ident);
    crate::tl::lemma_get_u32(s, p + 16, m.seqno);
    assert(get_diffs(ids, s, p + 20) == crate::tl_list::dec_list::<QueueDiff>(
        ids,
        MAX_QUEUE_DIFFS,
        s,
        p + 20,
    ));
    crate::tl_list::lemma_list_canonical::<QueueDiff>(ids, MAX_QUEUE_DIFFS, s, p + 20);
    let n = crate::tl::get_u32(s, p + 20)->Ok_0.0;
    crate::tl::lemma_get_u32(s, p + 20, n);
    crate::tl_list::lemma_items_canonical::<QueueDiff>(ids, None, n as nat, s, p + 24);
    crate::tl::lemma_stands_join(s, p + 16, seqno, diffs);
    crate::tl::lemma_stands_join(s, p + 4, shard, seqno + diffs);
    crate::tl::lemma_stands_join(
        s,
        p,
        crate::tl::le32(ids.queue_state_header),
        shard + (seqno + diffs),
    );
}

/// Each diff of a valid list comes directly before an older one.
pub proof fn law_diffs_form_a_chain(
    ids: TlScheme,
    prev: Option<crate::queue::diff::DiffModel>,
    ms: Seq<crate::queue::diff::DiffModel>,
    i: int,
)
    requires
        crate::tl_list::valid_items::<QueueDiff>(ids, prev, ms),
        0 <= i < ms.len() - 1,
    ensures
        ms[i].seqno > ms[i + 1].seqno,
        ms[i].prev_hash == ms[i + 1].hash,
        ms[i + 1].hash == crate::outside::blake3_digest(
            crate::queue::diff::enc_diff(ids, ms[i + 1]),
        ),
    decreases ms.len(),
{
    let rest = ms.drop_first();
    if i == 0 {
        assert(crate::tl_list::valid_items::<QueueDiff>(ids, Some(ms[0]), rest));
        assert(rest[0] == ms[1]);
    } else {
        law_diffs_form_a_chain(ids, Some(ms[0]), rest, i - 1);
    }
}

impl QueueStateHeader {
    /// Whether the lists can be counted in 32 bits.
    pub open spec fn fits(&self) -> bool {
        crate::tl_list::list_fits::<QueueDiff>(self@.queue_diffs)
    }

    /// Writes the header.
    pub fn write(&self, ids: &TlScheme, packet: &mut Vec<u8>)
        requires
            self.fits(),
            self.queue_diffs@.len() > 0,
        ensures
            final(packet)@ == old(packet)@ + enc_header(*ids, self@),
    {
        let ghost start = packet@;
        write_u32(packet, ids.queue_state_header);
        write_shard(packet, &self.shard_ident);
        write_u32(packet, self.seqno);
        write_list(ids, &self.queue_diffs, packet);
        proof {
            let id = crate::tl::le32(ids.queue_state_header);
            let shard = crate::tl::enc_shard(self.shard_ident);
            let seqno = crate::tl::le32(self.seqno);
            let diffs = crate::tl_list::enc_list::<QueueDiff>(*ids, self@.queue_diffs);
            assert(start + id + shard + seqno + diffs =~= start + (id + (shard + (seqno + diffs))));
        }
    }

    /// The size of the binary form.
    pub fn max_size_hint(&self, ids: &TlScheme) -> (r: usize)
        requires
            enc_header(*ids, self@).len() <= usize::MAX,
        ensures
            r == enc_header(*ids, self@).len(),
    {
        proof {
            crate::tl::lemma_le32(ids.queue_state_header, Seq::empty());
            crate::tl::lemma_le32(self.seqno, Seq::empty());
            crate::tl::lemma_get_shard(Seq::empty(), 0, self.shard_ident);
        }
        20 + list_size(ids, &self.queue_diffs)
    }

    /// The binary form of the header.
    pub fn serialize(&self, ids: &TlScheme) -> (r: Vec<u8>)
        requires
            self.fits(),
            self.queue_diffs@.len() > 0,
        ensures
            r@ == enc_header(*ids, self@),
    {
        let mut packet: Vec<u8> = Vec::new();
        self.write(ids, &mut packet);
        assert(packet@ =~= enc_header(*ids, self@));
        packet
    }

    /// Reads a header at a position.
    pub fn read_at(ids: &TlScheme, data: &[u8], pos: usize) -> (r: Result<
        (QueueStateHeader, usize),
        TlError,
    >)
        requires
            pos <= data@.len(),
        ensures
            match (r, get_header(*ids, data@, pos as int)) {
                (Ok((v, e)), Ok((m, e2))) => v@ == m && e == e2,
                (Err(a), Err(b)) => a == b,
                _ => false,
            },
    {
        let (id, p1) = match read_u32(data, pos) {
            Ok(x) => x,
            Err(e) => return Err(e),
        };
        if id != ids.queue_state_header {
            return Err(TlError::UnknownConstructor);
        }
        let (shard_ident, p2) = match read_shard(data, p1) {
            Ok(x) => x,
            Err(e) => return Err(e),
        };
        let (seqno, p3) = match read_u32(data, p2) {
            Ok(x) => x,
            Err(e) => return Err(e),
        };
        let (n, p4) = match read_u32(data, p3) {
            Ok(x) => x,
            Err(e) => return Err(e),
        };
        if n > MAX_QUEUE_DIFFS || n == 0 {
            return Err(TlError::InvalidData);
        }
        match read_items::<QueueDiff>(ids, n, data, p4) {
            Ok((queue_diffs, end)) => Ok(
                (QueueStateHeader { shard_ident, seqno, queue_diffs }, end),
            ),
            Err(e) => Err(e),
        }
    }

    /// Reads a header from the start of a byte string.
    pub fn deserialize(ids: &TlScheme, data: &[u8]) -> (r: Result<QueueStateHeader, TlError>)
        ensures
            match (r, get_header(*ids, data@, 0)) {
                (Ok(v), Ok((m, e))) => v@ == m,
                (Err(a), Err(b)) => a == b,
                _ => false,
            },
    {
        match Self::read_at(ids, data, 0) {
            Ok((header, _end)) => Ok(header),
            Err(e) => Err(e),
        }
    }
}

/// A queue state: the header, and the messages in the order in which the diffs
/// list them, cut into chunks.
#[derive(Debug, PartialEq, Eq)]
pub struct QueueState {
    pub header: QueueStateHeader,
    pub messages: Vec<Vec<u8>>,
}

/// A queue state whose messages are borrowed from its binary form.
#[derive(Debug, PartialEq, Eq)]
pub struct QueueStateRef<'a> {
    pub header: QueueStateHeader,
    pub messages: Vec<&'a [u8]>,
}

/// The mathematical content of a queue state.
#[verifier::ext_equal]
pub struct StateModel {
    pub header: HeaderModel,
    pub messages: Seq<Seq<u8>>,
}

impl View for QueueState {
    type V = StateModel;

    open spec fn view(&self) -> StateModel {
        StateModel { header: self.header@, messages: crate::tl_list::models(self.messages@) }
    }
}

impl<'a> View for QueueStateRef<'a> {
    type V = StateModel;

    open spec fn view(&self) -> StateModel {
        StateModel {
            header: self.header@,
            messages: self.messages@.map_values(|c: &'a [u8]| c@),
        }
    }
}

/// The bytes of a queue state.
pub open spec fn enc_state(ids: TlScheme, m: StateModel) -> Seq<u8> {
    crate::tl::le32(ids.queue_state) + (enc_header(ids, m.header) + crate::tl_list::enc_list::<
        Vec<u8>,
    >(ids, m.messages))
}

/// A queue state, read at the start of a byte string.
pub open spec fn get_state(ids: TlScheme, s: Seq<u8>) -> Result<(StateModel, int), TlError> {
    match crate::tl::get_u32(s, 0) {
        Err(e) => Err(e),
        Ok((id, p1)) => if id != ids.queue_state {
            Err(TlError::UnknownConstructor)
        } else {
            match get_header(ids, s, p1) {
                Err(e) => Err(e),
                Ok((header, p2)) => match crate::tl_list::dec_list::<Vec<u8>>(
                    ids,
                    MAX_CHUNKS,
                    s,
                    p2,
                ) {
                    Err(e) => Err(e),
                    Ok((messages, p3)) => Ok((StateModel { header, messages }, p3)),
                },
            }
        },
    }
}

/// A written queue state is read back, whether its messages are its own or borrowed.
pub proof fn law_state_round_trip(ids: TlScheme, m: StateModel, rest: Seq<u8>)
    requires
        valid_header(ids, m.header),
        crate::tl_list::valid_list::<Vec<u8>>(ids, MAX_CHUNKS, m.messages),
    ensures
        get_state(ids, enc_state(ids, m) + rest) == Ok::<(StateModel, int), TlError>(
            (m, enc_state(ids, m).len() as int),
        ),
{
    let s = enc_state(ids, m) + rest;
    let id = crate::tl::le32(ids.queue_state);
    let header = enc_header(ids, m.header);
    let chunks = crate::tl_list::enc_list::<Vec<u8>>(ids, m.messages);
    assert(s.subrange(0, enc_state(ids, m).len() as int) =~= enc_state(ids, m));
    crate::tl::lemma_le32(ids.queue_state, Seq::empty());
    crate::tl::lemma_stands_split(s, 0, id, header + chunks);
    crate::tl::lemma_get_u32(s, 0, ids.queue_state);
    crate::tl::lemma_stands_split(s, 4, header, chunks);
    law_header_round_trip(ids, m.header, s, 4);
    crate::tl_list::lemma_list_round_trip::<Vec<u8>>(
        ids,
        MAX_CHUNKS,
        m.messages,
        s,
        (4 + header.len()) as int,
    );
}

impl QueueState {
    /// The size of the binary form.
    pub fn max_size_hint(&self, ids: &TlScheme) -> (r: usize)
        requires
            enc_state(*ids, self@).len() <= usize::MAX,
        ensures
            r == enc_state(*ids, self@).len(),
    {
        proof {
            crate::tl::lemma_le32(ids.queue_state, Seq::empty());
        }
        4 + self.header.max_size_hint(ids) + list_size(ids, &self.messages)
    }

    /// The binary form of the state.
    pub fn serialize(&self, ids: &TlScheme) -> (r: Vec<u8>)
        requires
            self.header.fits(),
            self.header.queue_diffs@.len() > 0,
            crate::tl_list::list_fits::<Vec<u8>>(self@.messages),
        ensures
            r@ == enc_state(*ids, self@),
    {
        let mut packet: Vec<u8> = Vec::new();
        write_u32(&mut packet, ids.queue_state);
        self.header.write(ids, &mut packet);
        write_list(ids, &self.messages, &mut packet);
        assert(packet@ =~= enc_state(*ids, self@));
        packet
    }

    /// Reads a state from the start of a byte string.
    pub fn deserialize(ids: &TlScheme, data: &[u8]) -> (r: Result<QueueState, TlError>)
        ensures
            match (r, get_state(*ids, data@)) {
                (Ok(v), Ok((m, e))) => v@ == m,
                (Err(a), Err(b)) => a == b,
                _ => false,
            },
    {
        let (id, p1) = match read_u32(data, 0) {
            Ok(x) => x,
            Err(e) => return Err(e),
        };
        if id != ids.queue_state {
            return Err(TlError::UnknownConstructor);
        }
        let (header, p2) = match QueueStateHeader::read_at(ids, data, p1) {
            Ok(x) => x,
            Err(e) => return Err(e),
        };
        proof {
            law_header_canonical(*ids, data@, p1 as int);
        }
        match read_list::<Vec<u8>>(ids, MAX_CHUNKS, data, p2) {
            Ok((messages, _end)) => Ok(QueueState { header, messages }),
            Err(e) => Err(e),
        }
    }
}

impl<'a> QueueStateRef<'a> {
    /// The size of the binary form.
    pub fn max_size_hint(&self, ids: &TlScheme) -> (r: usize)
        requires
            enc_state(*ids, self@).len() <= usize::MAX,
        ensures
            r == enc_state(*ids, self@).len(),
    {
        let ghost ms = self@.messages;
        proof {
            crate::tl::lemma_le32(ids.queue_state, Seq::empty());
            crate::tl::lemma_le32(ms.len() as u32, Seq::empty());
            assert(ms.take(0) =~= Seq::<Seq<u8>>::empty());
        }
        let head: usize = 4 + self.header.max_size_hint(ids);
        let mut size: usize = 4;
        let mut i: usize = 0;
        while i < self.messages.len()
            invariant
                i <= self.messages@.len(),
                ms == self@.messages,
                4 + crate::tl_list::enc_items::<Vec<u8>>(*ids, ms).len() <= usize::MAX,
                size == 4 + crate::tl_list::enc_items::<Vec<u8>>(*ids, ms.take(i as int)).len(),
            decreases self.messages@.len() - i,
        {
            let len: usize = self.messages[i].len();
            proof {
                let m = ms[i as int];
                assert(m == self.messages@[i as int]@);
                crate::tl::lemma_le32(m.len() as u32, Seq::empty());
                assert(ms.take(i + 1) =~= ms.take(i as int).push(m));
                crate::tl_list::lemma_enc_items_push::<Vec<u8>>(*ids, ms.take(i as int), m);
                crate::tl_list::lemma_enc_items_split::<Vec<u8>>(*ids, ms, i + 1);
            }
            size = size + (4 + len + (4 - len % 4) % 4);
            i = i + 1;
        }
        assert(ms.take(ms.len() as int) =~= ms);
        head + size
    }

    /// The binary form of the state, the same as that of a state with its own
    /// messages.
    pub fn serialize(&self, ids: &TlScheme) -> (r: Vec<u8>)
        requires
            self.header.fits(),
            self.header.queue_diffs@.len() > 0,
            crate::tl_list::list_fits::<Vec<u8>>(self@.messages),
        ensures
            r@ == enc_state(*ids, self@),
    {
        let ghost ms = self@.messages;
        let mut packet: Vec<u8> = Vec::new();
        write_u32(&mut packet, ids.queue_state);
        self.header.write(ids, &mut packet);
        write_u32(&mut packet, self.messages.len() as u32);
        let ghost head = packet@;
        let mut i: usize = 0;
        assert(ms.take(0) =~= Seq::<Seq<u8>>::empty());
        assert(head =~= head + crate::tl_list::enc_items::<Vec<u8>>(*ids, ms.take(0)));
        while i < self.messages.len()
            invariant
                i <= self.messages@.len(),
                ms == self@.messages,
                crate::tl_list::list_fits::<Vec<u8>>(ms),
                packet@ == head + crate::tl_list::enc_items::<Vec<u8>>(*ids, ms.take(i as int)),
            decreases self.messages@.len() - i,
        {
            let ghost m = ms[i as int];
            assert(m == self.messages@[i as int]@);
            assert(<Vec<u8> as TlItem>::fits(m));
            write_chunk(&mut packet, self.messages[i]);
            proof {
                assert(ms.take(i + 1) =~= ms.take(i as int).push(m));
                crate::tl_list::lemma_enc_items_push::<Vec<u8>>(*ids, ms.take(i as int), m);
                assert(packet@ =~= head + crate::tl_list::enc_items::<Vec<u8>>(
                    *ids,
                    ms.take(i + 1),
                ));
            }
            i = i + 1;
        }
        assert(ms.take(ms.len() as int) =~= ms);
        assert(packet@ =~= enc_state(*ids, self@));
        packet
    }

    /// Reads a state from the start of a byte string and borrows its chunks.
    pub fn deserialize(ids: &TlScheme, data: &'a [u8]) -> (r: Result<QueueStateRef<'a>, TlError>)
        ensures
            match (r, get_state(*ids, data@)) {
                (Ok(v), Ok((m, e))) => v@ == m,
                (Err(a), Err(b)) => a == b,
                _ => false,
            },
    {
        let (id, p1) = match read_u32(data, 0) {
            Ok(x) => x,
            Err(e) => return Err(e),
        };
        if id != ids.queue_state {
            return Err(TlError::UnknownConstructor);
        }
        let (header, p2) = match QueueStateHeader::read_at(ids, data, p1) {
            Ok(x) => x,
            Err(e) => return Err(e),
        };
        proof {
            law_header_canonical(*ids, data@, p1 as int);
        }
        let (n, p3) = match read_u32(data, p2) {
            Ok(x) => x,
            Err(e) => return Err(e),
        };
        if n > MAX_CHUNKS {
            return Err(TlError::InvalidData);
        }
        let mut messages: Vec<&'a [u8]> = Vec::new();
        let mut at: usize = p3;
        let mut i: u32 = 0;
        let ghost view = |c: &'a [u8]| c@;
        let ghost whole = crate::tl_list::dec_items::<Vec<u8>>(
            *ids,
            None,
            n as nat,
            data@,
            p3 as int,
        );
        let ghost mut prev: Option<Seq<u8>> = None;
        proof {
            assert(messages@.map_values(view) =~= Seq::<Seq<u8>>::empty());
            if whole is Ok {
                assert(Seq::<Seq<u8>>::empty() + whole->Ok_0.0 =~= whole->Ok_0.0);
            }
        }
        while i < n
            invariant
                i <= n,
                at <= data@.len(),
                messages@.len() == i,
                view == (|c: &'a [u8]| c@),
                whole == crate::tl_list::dec_items::<Vec<u8>>(
                    *ids,
                    None,
                    n as nat,
                    data@,
                    p3 as int,
                ),
                whole == crate::tl_list::prepend(
                    messages@.map_values(view),
                    crate::tl_list::dec_items::<Vec<u8>>(
                        *ids,
                        prev,
                        (n - i) as nat,
                        data@,
                        at as int,
                    ),
                ),
                get_state(*ids, data@) == (match whole {
                    Err(e) => Err::<(StateModel, int), TlError>(e),
                    Ok((ms, e)) => Ok((StateModel { header: header@, messages: ms }, e)),
                }),
            decreases n - i,
        {
            let ghost acc = messages@.map_values(view);
            match read_chunk_range(data, at) {
                Err(e) => {
                    return Err(e);
                },
                Ok((from, to, end)) => {
                    let chunk: &'a [u8] = vstd::slice::slice_subrange(data, from, to);
                    proof {
                        let m = chunk@;
                        let rest = crate::tl_list::dec_items::<Vec<u8>>(
                            *ids,
                            Some(m),
                            (n - i - 1) as nat,
                            data@,
                            end as int,
                        );
                        assert(crate::tl_list::dec_items::<Vec<u8>>(
                            *ids,
                            prev,
                            (n - i) as nat,
                            data@,
                            at as int,
                        ) == crate::tl_list::prepend(seq![m], rest));
                        if rest is Ok {
                            assert(acc + (seq![m] + rest->Ok_0.0) =~= acc.push(m)
                                + rest->Ok_0.0);
                        }
                        prev = Some(m);
                    }
                    messages.push(chunk);
                    assert(messages@.map_values(view) =~= acc.push(chunk@));
                    at = end;
                },
            }
            i = i + 1;
        }
        assert(messages@.map_values(view) + Seq::<Seq<u8>>::empty() =~= messages@.map_values(view));
        Ok(QueueStateRef { header, messages })
    }
}

/// A header is its number, the shard, the number of the block, and the diffs.
pub proof fn law_header_layout(ids: TlScheme, m: HeaderModel)
    ensures
        ({
            let s = enc_header(ids, m);
            &&& s.subrange(0, 4) == crate::tl::le32(ids.queue_state_header)
            &&& s.subrange(4, 16) == crate::tl::enc_shard(m.shard_ident)
            &&& s.subrange(16, 20) == crate::tl::le32(m.seqno)
            &&& s.skip(20) == crate::tl_list::enc_list::<QueueDiff>(ids, m.queue_diffs)
        }),
{
    let s = enc_header(ids, m);
    crate::tl::lemma_le32(ids.queue_state_header, Seq::empty());
    crate::tl::lemma_le32(m.seqno, Seq::empty());
    crate::tl::law_shard_layout(m.shard_ident);
    assert(s.subrange(0, 4) =~= crate::tl::le32(ids.queue_state_header));
    assert(s.subrange(4, 16) =~= crate::tl::enc_shard(m.shard_ident));
    assert(s.subrange(16, 20) =~= crate::tl::le32(m.seqno));
    assert(s.skip(20) =~= crate::tl_list::enc_list::<QueueDiff>(ids, m.queue_diffs));
}

/// A queue state is its number, the header, and the chunks of messages.
pub proof fn law_state_layout(ids: TlScheme, m: StateModel)
    ensures
        ({
            let s = enc_state(ids, m);
            let end = 4 + enc_header(ids, m.header).len();
            &&& s.subrange(0, 4) == crate::tl::le32(ids.queue_state)
            &&& s.subrange(4, end as int) == enc_header(ids, m.header)
            &&& s.skip(end as int) == crate::tl_list::enc_list::<Vec<u8>>(ids, m.messages)
        }),
{
    let s = enc_state(ids, m);
    let end = 4 + enc_header(ids, m.header).len();
    crate::tl::lemma_le32(ids.queue_state, Seq::empty());
    assert(s.subrange(0, 4) =~= crate::tl::le32(ids.queue_state));
    assert(s.subrange(4, end as int) =~= enc_header(ids, m.header));
    assert(s.skip(end as int) =~= crate::tl_list::enc_list::<Vec<u8>>(ids, m.messages));
}

/// A chunk is its length in four bytes, its content, and zeros up to the next multiple
/// of four.
pub proof fn law_chunk_layout(m: Seq<u8>)
    ensures
        ({
            let s = enc_chunk(m);
            &&& s.len() % 4 == 0
            &&& 4 + m.len() <= s.len() < 4 + m.len() + 4
            &&& s.take(4) == crate::tl::le32(m.len() as u32)
            &&& s.subrange(4, 4int + m.len()) == m
            &&& forall|i: int| 4 + m.len() <= i < s.len() ==> #[trigger] s[i] == 0
        }),
{
    let s = enc_chunk(m);
    crate::tl::lemma_le32(m.len() as u32, Seq::empty());
    assert(s.take(4) =~= crate::tl::le32(m.len() as u32));
    assert(s.subrange(4, 4int + m.len()) =~= m);
}

/// A chunk of more than a hundred megabytes is refused, however much is there. What is
/// read of another one has the length that it says.
pub proof fn law_long_chunk_is_refused(s: Seq<u8>, p: int)
    requires
        0 <= p,
        crate::tl::get_u32(s, p) is Ok,
    ensures
        crate::tl::get_u32(s, p)->Ok_0.0 > 100 * 1024 * 1024 ==> get_chunk(s, p) == Err::<
            (Seq<u8>, int),
            TlError,
        >(TlError::InvalidData),
        get_chunk(s, p) is Ok ==> get_chunk(s, p)->Ok_0.0.len() == crate::tl::get_u32(
            s,
            p,
        )->Ok_0.0,
{
}

/// A valid header has between one and a thousand diffs.
pub proof fn law_header_has_diffs(ids: TlScheme, m: HeaderModel)
    requires
        valid_header(ids, m),
    ensures
        1 <= m.queue_diffs.len() <= 1000,
        m.shard_ident.valid(),
{
}

/// Every field of a header counts as what it is.
pub proof fn law_header_says_what_it_holds(header: QueueStateHeader)
    ensures
        header@.shard_ident == header.shard_ident,
        header@.seqno == header.seqno,
        header@.queue_diffs == crate::tl_list::models(header.queue_diffs@),
{
}

} // verus!

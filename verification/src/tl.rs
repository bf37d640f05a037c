//! Binary encoding: little-endian integers, fixed-size byte strings and counted
//! lists, with the laws that connect writing and reading.
use crate::ids::{HashBytes, ShardIdent};
use vstd::prelude::*;

verus! {

/// Why a byte string cannot be read.
#[derive(Clone, Copy, Debug, PartialEq, Eq, Structural)]
pub enum TlError {
    UnexpectedEof,
    UnknownConstructor,
    InvalidData,
}

/// The constructor numbers of the schema that a node is built with.
#[derive(Clone, Copy, Debug, PartialEq, Eq, Structural)]
pub struct TlScheme {
    pub queue_diff: u32,
    pub queue_state: u32,
    pub queue_state_header: u32,
    pub point: u32,
    pub point_info: u32,
    pub link_to_self: u32,
    pub link_direct: u32,
    pub link_indirect: u32,
    pub through_includes: u32,
    pub through_witness: u32,
}

impl TlScheme {
    /// Whether the constructors of one type can be told apart.
    pub open spec fn distinct(&self) -> bool {
        &&& self.link_to_self != self.link_direct
        &&& self.link_to_self != self.link_indirect
        &&& self.link_direct != self.link_indirect
        &&& self.through_includes != self.through_witness
    }
}

/// The bytes of an integer, least significant first.
pub open spec fn le32(x: u32) -> Seq<u8> {
    vstd::bytes::spec_u32_to_le_bytes(x)
}

/// The bytes of an integer, least significant first.
pub open spec fn le64(x: u64) -> Seq<u8> {
    vstd::bytes::spec_u64_to_le_bytes(x)
}

/// The bits of a signed integer as an unsigned one.
pub open spec fn i32_bits(x: i32) -> u32 {
    if x >= 0 {
        x as u32
    } else {
        (x + 0x1_0000_0000) as u32
    }
}

/// The signed integer that has the given bits.
pub open spec fn i32_from_bits(x: u32) -> i32 {
    if x <= 0x7fff_ffff {
        x as i32
    } else {
        (x - 0x1_0000_0000) as i32
    }
}

/// A signed integer and its bits determine each other.
pub proof fn lemma_i32_bits(x: i32, y: u32)
    ensures
        i32_from_bits(i32_bits(x)) == x,
        i32_bits(i32_from_bits(y)) == y,
{
}

/// An integer and its bytes determine each other.
pub proof fn lemma_le32(x: u32, s: Seq<u8>)
    ensures
        le32(x).len() == 4,
        vstd::bytes::spec_u32_from_le_bytes(le32(x)) == x,
        s.len() == 4 ==> le32(vstd::bytes::spec_u32_from_le_bytes(s)) == s,
{
    vstd::bytes::lemma_auto_spec_u32_to_from_le_bytes();
    assert(vstd::bytes::spec_u32_to_le_bytes(x).len() == 4);
}

/// An integer and its bytes determine each other.
pub proof fn lemma_le64(x: u64, s: Seq<u8>)
    ensures
        le64(x).len() == 8,
        vstd::bytes::spec_u64_from_le_bytes(le64(x)) == x,
        s.len() == 8 ==> le64(vstd::bytes::spec_u64_from_le_bytes(s)) == s,
{
    vstd::bytes::lemma_auto_spec_u64_to_from_le_bytes();
    assert(vstd::bytes::spec_u64_to_le_bytes(x).len() == 8);
}

/// Whether `part` stands in `s` at position `p`.
pub open spec fn stands_at(s: Seq<u8>, p: int, part: Seq<u8>) -> bool {
    &&& 0 <= p
    &&& p + part.len() <= s.len()
    &&& s.subrange(p, p + part.len()) == part
}

/// What stands at a place splits as the parts do.
pub proof fn lemma_stands_split(s: Seq<u8>, p: int, a: Seq<u8>, b: Seq<u8>)
    requires
        stands_at(s, p, a + b),
    ensures
        stands_at(s, p, a),
        stands_at(s, p + a.len(), b),
{
    let all = s.subrange(p, p + a.len() + b.len());
    assert(all == a + b);
    assert(s.subrange(p, p + a.len()) =~= all.subrange(0, a.len() as int));
    assert(all.subrange(0, a.len() as int) =~= a);
    assert(s.subrange(p + a.len(), p + a.len() + b.len()) =~= all.subrange(
        a.len() as int,
        (a.len() + b.len()) as int,
    ));
    assert(all.subrange(a.len() as int, (a.len() + b.len()) as int) =~= b);
}

/// Parts that stand next to each other stand there as a whole.
pub proof fn lemma_stands_join(s: Seq<u8>, p: int, a: Seq<u8>, b: Seq<u8>)
    requires
        stands_at(s, p, a),
        stands_at(s, p + a.len(), b),
    ensures
        stands_at(s, p, a + b),
{
    assert(s.subrange(p, p + a.len() + b.len()) =~= s.subrange(p, p + a.len()) + s.subrange(
        p + a.len(),
        p + a.len() + b.len(),
    ));
}

/// Reads a 32-bit integer.
pub open spec fn get_u32(s: Seq<u8>, p: int) -> Result<(u32, int), TlError> {
    if p + 4 <= s.len() {
        Ok((vstd::bytes::spec_u32_from_le_bytes(s.subrange(p, p + 4)), p + 4))
    } else {
        Err(TlError::UnexpectedEof)
    }
}

/// Reads a 64-bit integer.
pub open spec fn get_u64(s: Seq<u8>, p: int) -> Result<(u64, int), TlError> {
    if p + 8 <= s.len() {
        Ok((vstd::bytes::spec_u64_from_le_bytes(s.subrange(p, p + 8)), p + 8))
    } else {
        Err(TlError::UnexpectedEof)
    }
}

/// Reads a signed 32-bit integer.
pub open spec fn get_i32(s: Seq<u8>, p: int) -> Result<(i32, int), TlError> {
    match get_u32(s, p) {
        Ok((x, e)) => Ok((i32_from_bits(x), e)),
        Err(e) => Err(e),
    }
}

/// Reads a byte string of a known length.
pub open spec fn get_raw(s: Seq<u8>, p: int, n: int) -> Result<(Seq<u8>, int), TlError> {
    if p + n <= s.len() {
        Ok((s.subrange(p, p + n), p + n))
    } else {
        Err(TlError::UnexpectedEof)
    }
}

/// The bytes of a shard: workchain, then prefix.
pub open spec fn enc_shard(shard: ShardIdent) -> Seq<u8> {
    le32(i32_bits(shard.workchain)) + le64(shard.prefix)
}

/// Reads a shard, which has to be a valid one.
pub open spec fn get_shard(s: Seq<u8>, p: int) -> Result<(ShardIdent, int), TlError> {
    match get_i32(s, p) {
        Err(e) => Err(e),
        Ok((workchain, p1)) => match get_u64(s, p1) {
            Err(e) => Err(e),
            Ok((prefix, p2)) => if ShardIdent::valid_parts(workchain, prefix) {
                Ok((ShardIdent { workchain, prefix }, p2))
            } else {
                Err(TlError::InvalidData)
            },
        },
    }
}

/// A written integer is read back.
pub proof fn lemma_get_u32(s: Seq<u8>, p: int, x: u32)
    requires
        0 <= p,
    ensures
        stands_at(s, p, le32(x)) ==> get_u32(s, p) == Ok::<(u32, int), TlError>((x, p + 4)),
        get_u32(s, p) matches Ok((y, e)) ==> stands_at(s, p, le32(y)) && e == p + 4 && le32(
            y,
        ).len() == 4,
{
    lemma_le32(x, s.subrange(p, p + 4));
    if p + 4 <= s.len() {
        let y = vstd::bytes::spec_u32_from_le_bytes(s.subrange(p, p + 4));
        lemma_le32(y, s.subrange(p, p + 4));
    }
}

/// A written integer is read back.
pub proof fn lemma_get_u64(s: Seq<u8>, p: int, x: u64)
    requires
        0 <= p,
    ensures
        stands_at(s, p, le64(x)) ==> get_u64(s, p) == Ok::<(u64, int), TlError>((x, p + 8)),
        get_u64(s, p) matches Ok((y, e)) ==> stands_at(s, p, le64(y)) && e == p + 8 && le64(
            y,
        ).len() == 8,
{
    lemma_le64(x, s.subrange(p, p + 8));
    if p + 8 <= s.len() {
        let y = vstd::bytes::spec_u64_from_le_bytes(s.subrange(p, p + 8));
        lemma_le64(y, s.subrange(p, p + 8));
    }
}

/// A written shard is read back, and what is read was written so.
pub proof fn lemma_get_shard(s: Seq<u8>, p: int, shard: ShardIdent)
    requires
        0 <= p,
    ensures
        enc_shard(shard).len() == 12,
        stands_at(s, p, enc_shard(shard)) && shard.valid() ==> get_shard(s, p) == Ok::<
            (ShardIdent, int),
            TlError,
        >((shard, p + 12)),
        get_shard(s, p) matches Ok((y, e)) ==> stands_at(s, p, enc_shard(y)) && e == p + 12
            && y.valid() && enc_shard(y).len() == 12,
{
    lemma_le32(i32_bits(shard.workchain), Seq::empty());
    lemma_le64(shard.prefix, Seq::empty());
    lemma_i32_bits(shard.workchain, 0);
    lemma_get_u32(s, p, i32_bits(shard.workchain));
    lemma_get_u64(s, p + 4, shard.prefix);
    if stands_at(s, p, enc_shard(shard)) {
        lemma_stands_split(s, p, le32(i32_bits(shard.workchain)), le64(shard.prefix));
    }
    if get_shard(s, p) is Ok {
        let x = get_u32(s, p)->Ok_0.0;
        let y = get_shard(s, p)->Ok_0.0;
        lemma_i32_bits(0, x);
        lemma_get_u64(s, p + 4, y.prefix);
        lemma_stands_join(s, p, le32(x), le64(y.prefix));
    }
}

/// Writes a 32-bit integer.
pub fn write_u32(packet: &mut Vec<u8>, x: u32)
    ensures
        final(packet)@ == old(packet)@ + le32(x),
{
    let mut bytes: Vec<u8> = vstd::bytes::u32_to_le_bytes(x);
    packet.append(&mut bytes);
}

/// Writes a 64-bit integer.
pub fn write_u64(packet: &mut Vec<u8>, x: u64)
    ensures
        final(packet)@ == old(packet)@ + le64(x),
{
    let mut bytes: Vec<u8> = vstd::bytes::u64_to_le_bytes(x);
    packet.append(&mut bytes);
}

/// Writes a signed 32-bit integer.
pub fn write_i32(packet: &mut Vec<u8>, x: i32)
    ensures
        final(packet)@ == old(packet)@ + le32(i32_bits(x)),
{
    let bits: u32 = if x >= 0 {
        x as u32
    } else {
        (x as i64 + 0x1_0000_0000) as u32
    };
    write_u32(packet, bits);
}

/// Writes a byte string as it is.
pub fn write_raw(packet: &mut Vec<u8>, bytes: &[u8])
    ensures
        final(packet)@ == old(packet)@ + bytes@,
{
    let mut i: usize = 0;
    while i < bytes.len()
        invariant
            i <= bytes@.len(),
            packet@ == old(packet)@ + bytes@.take(i as int),
        decreases bytes@.len() - i,
    {
        packet.push(bytes[i]);
        i = i + 1;
        assert(bytes@.take(i as int) =~= bytes@.take(i - 1).push(bytes@[i - 1]));
    }
    assert(bytes@.take(bytes@.len() as int) =~= bytes@);
}

/// Writes a hash.
pub fn write_hash(packet: &mut Vec<u8>, hash: &HashBytes)
    ensures
        final(packet)@ == old(packet)@ + hash@,
{
    write_raw(packet, hash.0.as_slice());
}

/// Writes a shard.
pub fn write_shard(packet: &mut Vec<u8>, shard: &ShardIdent)
    ensures
        final(packet)@ == old(packet)@ + enc_shard(*shard),
{
    write_i32(packet, shard.workchain);
    write_u64(packet, shard.prefix);
    assert(packet@ =~= old(packet)@ + enc_shard(*shard));
}

/// Whether a reader gives what the description of the format says.
pub open spec fn reads_as<T>(r: Result<(T, usize), TlError>, d: Result<(T, int), TlError>) -> bool {
    match (r, d) {
        (Ok((v, e)), Ok((m, e2))) => v == m && e == e2,
        (Err(a), Err(b)) => a == b,
        _ => false,
    }
}

/// Reads a 32-bit integer.
pub fn read_u32(data: &[u8], pos: usize) -> (r: Result<(u32, usize), TlError>)
    requires
        pos <= data@.len(),
    ensures
        reads_as(r, get_u32(data@, pos as int)),
{
    if data.len() - pos < 4 {
        return Err(TlError::UnexpectedEof);
    }
    let part = vstd::slice::slice_subrange(data, pos, pos + 4);
    Ok((vstd::bytes::u32_from_le_bytes(part), pos + 4))
}

/// Reads a 64-bit integer.
pub fn read_u64(data: &[u8], pos: usize) -> (r: Result<(u64, usize), TlError>)
    requires
        pos <= data@.len(),
    ensures
        reads_as(r, get_u64(data@, pos as int)),
{
    if data.len() - pos < 8 {
        return Err(TlError::UnexpectedEof);
    }
    let part = vstd::slice::slice_subrange(data, pos, pos + 8);
    Ok((vstd::bytes::u64_from_le_bytes(part), pos + 8))
}

/// Reads a signed 32-bit integer.
pub fn read_i32(data: &[u8], pos: usize) -> (r: Result<(i32, usize), TlError>)
    requires
        pos <= data@.len(),
    ensures
        reads_as(r, get_i32(data@, pos as int)),
{
    match read_u32(data, pos) {
        Ok((x, e)) => {
            let v: i32 = if x <= 0x7fff_ffff {
                x as i32
            } else {
                (x as i64 - 0x1_0000_0000) as i32
            };
            Ok((v, e))
        },
        Err(e) => Err(e),
    }
}

/// Reads a hash.
pub fn read_hash(data: &[u8], pos: usize) -> (r: Result<(HashBytes, usize), TlError>)
    requires
        pos <= data@.len(),
    ensures
        match (r, get_raw(data@, pos as int, 32)) {
            (Ok((v, e)), Ok((m, e2))) => v@ == m && e == e2,
            (Err(a), Err(b)) => a == b,
            _ => false,
        },
{
    let len: usize = data.len();
    if len - pos < 32 {
        return Err(TlError::UnexpectedEof);
    }
    let mut bytes: [u8; 32] = [0u8; 32];
    let mut i: usize = 0;
    while i < 32
        invariant
            i <= 32,
            pos + 32 <= len,
            len == data@.len(),
            forall|j: int| 0 <= j < i ==> bytes@[j] == data@[pos + j],
        decreases 32 - i,
    {
        bytes[i] = data[pos + i];
        i = i + 1;
    }
    assert(bytes@ =~= data@.subrange(pos as int, pos + 32));
    Ok((HashBytes(bytes), pos + 32))
}

/// Reads a shard.
pub fn read_shard(data: &[u8], pos: usize) -> (r: Result<(ShardIdent, usize), TlError>)
    requires
        pos <= data@.len(),
    ensures
        reads_as(r, get_shard(data@, pos as int)),
{
    match read_i32(data, pos) {
        Err(e) => Err(e),
        Ok((workchain, p1)) => match read_u64(data, p1) {
            Err(e) => Err(e),
            Ok((prefix, p2)) => match ShardIdent::new(workchain, prefix) {
                Some(shard) => Ok((shard, p2)),
                None => Err(TlError::InvalidData),
            },
        },
    }
}

/// The bits of a signed integer, read without a sign, denote the same number up to a
/// multiple of 2^32.
pub proof fn law_sign_is_a_matter_of_reading(x: i32)
    ensures
        i32_bits(x) == x || i32_bits(x) == x + 0x1_0000_0000,
        i32_bits(x) < 0x8000_0000 <==> x >= 0,
{
}

/// An integer takes four bytes, or eight. It is the one that they denote, the lowest
/// first.
pub proof fn law_integers_have_fixed_widths(x: u32, y: u64)
    ensures
        le32(x).len() == 4,
        vstd::bytes::spec_u32_from_le_bytes(le32(x)) == x,
        le64(y).len() == 8,
        vstd::bytes::spec_u64_from_le_bytes(le64(y)) == y,
{
    lemma_le32(x, Seq::empty());
    lemma_le64(y, Seq::empty());
}

/// A shard takes twelve bytes: four for the workchain, eight for the prefix.
pub proof fn law_shard_layout(shard: ShardIdent)
    ensures
        enc_shard(shard).len() == 12,
        enc_shard(shard).take(4) == le32(i32_bits(shard.workchain)),
        enc_shard(shard).skip(4) == le64(shard.prefix),
{
    lemma_le32(i32_bits(shard.workchain), Seq::empty());
    lemma_le64(shard.prefix, Seq::empty());
    assert(enc_shard(shard).take(4) =~= le32(i32_bits(shard.workchain)));
    assert(enc_shard(shard).skip(4) =~= le64(shard.prefix));
}

/// Reading fails only where bytes are missing, and takes no more than it has to.
pub proof fn law_reading_needs_the_bytes(s: Seq<u8>, p: int, n: int)
    requires
        0 <= p <= s.len(),
        0 <= n,
    ensures
        match get_u32(s, p) {
            Ok((_, end)) => end == p + 4 && p + 4 <= s.len(),
            Err(e) => e == TlError::UnexpectedEof && p + 4 > s.len(),
        },
        match get_u64(s, p) {
            Ok((_, end)) => end == p + 8 && p + 8 <= s.len(),
            Err(e) => e == TlError::UnexpectedEof && p + 8 > s.len(),
        },
        match get_i32(s, p) {
            Ok((x, end)) => end == p + 4 && get_u32(s, p) == Ok::<(u32, int), TlError>(
                (i32_bits(x), end),
            ),
            Err(e) => e == TlError::UnexpectedEof && p + 4 > s.len(),
        },
        match get_raw(s, p, n) {
            Ok((bytes, end)) => end == p + n && p + n <= s.len() && bytes == s.subrange(p, p + n),
            Err(e) => e == TlError::UnexpectedEof && p + n > s.len(),
        },
{
}

/// Twelve bytes are read as a shard unless none can have them.
pub proof fn law_only_existing_shards_are_read(s: Seq<u8>, p: int)
    requires
        0 <= p <= s.len(),
    ensures
        match get_shard(s, p) {
            Ok((shard, end)) => end == p + 12 && shard.valid(),
            Err(TlError::UnexpectedEof) => p + 12 > s.len(),
            Err(e) => e == TlError::InvalidData && p + 12 <= s.len() && !ShardIdent::valid_parts(
                get_i32(s, p)->Ok_0.0,
                get_u64(s, p + 4)->Ok_0.0,
            ),
        },
{
}

/// A reader gives what the bytes say and where they end, or their error.
pub proof fn law_reader_follows_the_format<T>(
    r: Result<(T, usize), TlError>,
    d: Result<(T, int), TlError>,
)
    requires
        reads_as(r, d),
    ensures
        r is Ok <==> d is Ok,
        r is Ok ==> r->Ok_0.0 == d->Ok_0.0 && r->Ok_0.1 == d->Ok_0.1,
        r is Err ==> r->Err_0 == d->Err_0,
{
}

} // verus!

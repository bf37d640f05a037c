//! Byte strings of any length: a length of one or four bytes, the bytes, and
//! padding to a multiple of four.
use crate::tl::{read_u32, write_raw, write_u32, TlError};
use vstd::prelude::*;

verus! {

/// The first byte of a length that takes four bytes.
pub const SIZE_MAGIC: u8 = 254;

/// The bytes before a string: its length, in one byte or, behind a mark, in three.
pub open spec fn bytes_prefix(len: nat) -> Seq<u8> {
    if len < 254 {
        seq![len as u8]
    } else {
        seq![SIZE_MAGIC, (len % 256) as u8, (len / 256 % 256) as u8, (len / 65536 % 256) as u8]
    }
}

/// How many bytes are missing to a multiple of four.
pub open spec fn padding(len: nat) -> nat {
    ((4 - (len % 4)) % 4) as nat
}

/// Bytes of value zero.
pub open spec fn zeros(n: nat) -> Seq<u8> {
    Seq::new(n, |i: int| 0u8)
}

/// The encoding of a byte string.
pub open spec fn enc_bytes(b: Seq<u8>) -> Seq<u8> {
    bytes_prefix(b.len()) + (b + zeros(padding(bytes_prefix(b.len()).len() + b.len())))
}

/// How many bytes a string of the given length takes.
pub open spec fn bytes_size(len: nat) -> nat {
    let len = if len < 254 {
        len + 1
    } else {
        len + 4
    };
    len + padding(len)
}

/// Where the byte string that begins at a position lies: its first byte, its
/// length, and the position behind its padding. The contents of the padding do
/// not matter, and neither does a length written longer than it has to be.
pub open spec fn bytes_meta(s: Seq<u8>, p: int) -> Result<(int, int, int), TlError> {
    if s.len() - p < 4 {
        Err(TlError::UnexpectedEof)
    } else {
        let (prefix, len) = if s[p] != SIZE_MAGIC {
            (1int, s[p] as int)
        } else {
            (4int, s[p + 1] + 256 * s[p + 2] + 65536 * s[p + 3])
        };
        let end = p + prefix + len + padding((prefix + len) as nat);
        if s.len() < end {
            Err(TlError::UnexpectedEof)
        } else {
            Ok((p + prefix, len, end))
        }
    }
}

/// Reads a byte string.
pub open spec fn get_bytes(s: Seq<u8>, p: int) -> Result<(Seq<u8>, int), TlError> {
    match bytes_meta(s, p) {
        Ok((start, len, end)) => Ok((s.subrange(start, start + len), end)),
        Err(e) => Err(e),
    }
}

/// Byte strings one after the other.
pub open spec fn enc_strings(items: Seq<Seq<u8>>) -> Seq<u8>
    decreases items.len(),
{
    if items.len() == 0 {
        Seq::empty()
    } else {
        enc_strings(items.drop_last()) + enc_bytes(items.last())
    }
}

/// A counted list of byte strings.
pub open spec fn enc_payload(items: Seq<Seq<u8>>) -> Seq<u8> {
    crate::tl::le32(items.len() as u32) + enc_strings(items)
}

/// Reads `n` byte strings.
pub open spec fn get_strings(n: nat, s: Seq<u8>, p: int) -> Result<(Seq<Seq<u8>>, int), TlError>
    decreases n,
{
    if n == 0 {
        Ok((Seq::empty(), p))
    } else {
        match get_strings((n - 1) as nat, s, p) {
            Err(e) => Err(e),
            Ok((items, p1)) => match get_bytes(s, p1) {
                Err(e) => Err(e),
                Ok((item, p2)) => Ok((items.push(item), p2)),
            },
        }
    }
}

/// Reads a counted list of byte strings. Each takes at least four bytes, so a
/// number that the rest has no room for is refused at once.
pub open spec fn get_payload(s: Seq<u8>, p: int) -> Result<(Seq<Seq<u8>>, int), TlError> {
    match crate::tl::get_u32(s, p) {
        Err(e) => Err(e),
        Ok((n, p1)) => if n * 4 > s.len() - p1 {
            Err(TlError::UnexpectedEof)
        } else {
            get_strings(n as nat, s, p1)
        },
    }
}

/// Whether the lengths can be written.
pub open spec fn payload_fits(items: Seq<Seq<u8>>) -> bool {
    &&& items.len() <= u32::MAX
    &&& forall|i: int| 0 <= i < items.len() ==> (#[trigger] items[i]).len() < 0x100_0000
}

/// The total length of byte strings.
pub open spec fn total_len(items: Seq<Seq<u8>>) -> nat
    decreases items.len(),
{
    if items.len() == 0 {
        0
    } else {
        total_len(items.drop_last()) + items.last().len()
    }
}

/// The contents of byte vectors.
pub open spec fn views(items: Seq<Vec<u8>>) -> Seq<Seq<u8>> {
    items.map_values(|v: Vec<u8>| v@)
}

/// The size of an encoded byte string.
pub proof fn lemma_enc_bytes_len(b: Seq<u8>)
    ensures
        enc_bytes(b).len() == bytes_size(b.len()),
        enc_bytes(b).len() >= 4,
        enc_bytes(b).len() % 4 == 0,
{
}

/// A written byte string is read back.
pub proof fn lemma_bytes_round_trip(b: Seq<u8>, s: Seq<u8>, p: int)
    requires
        b.len() < 0x100_0000,
        crate::tl::stands_at(s, p, enc_bytes(b)),
    ensures
        get_bytes(s, p) == Ok::<(Seq<u8>, int), TlError>((b, p + enc_bytes(b).len())),
{
    let prefix = bytes_prefix(b.len());
    let pad = zeros(padding(prefix.len() + b.len()));
    lemma_enc_bytes_len(b);
    crate::tl::lemma_stands_split(s, p, prefix, b + pad);
    crate::tl::lemma_stands_split(s, p + prefix.len(), b, pad);
    assert(forall|i: int|
        0 <= i < prefix.len() ==> s[p + i] == #[trigger] s.subrange(p, p + prefix.len())[i]);
    assert(s[p] == prefix[0]);
    if b.len() >= 254 {
        let n = b.len();
        assert(s[p + 1] == prefix[1]);
        assert(s[p + 2] == prefix[2]);
        assert(s[p + 3] == prefix[3]);
        assert(n == n % 256 + 256 * (n / 256 % 256) + 65536 * (n / 65536 % 256)) by (nonlinear_arith)
            requires
                n < 0x100_0000,
        ;
    }
}

/// Written byte strings are read back.
pub proof fn lemma_strings_round_trip(items: Seq<Seq<u8>>, s: Seq<u8>, p: int)
    requires
        payload_fits(items),
        crate::tl::stands_at(s, p, enc_strings(items)),
    ensures
        get_strings(items.len(), s, p) == Ok::<(Seq<Seq<u8>>, int), TlError>(
            (items, p + enc_strings(items).len()),
        ),
        items.len() * 4 <= enc_strings(items).len(),
    decreases items.len(),
{
    if items.len() == 0 {
        assert(items =~= Seq::empty());
    } else {
        let before = items.drop_last();
        crate::tl::lemma_stands_split(s, p, enc_strings(before), enc_bytes(items.last()));
        assert(payload_fits(before)) by {
            assert forall|i: int| 0 <= i < before.len() implies (#[trigger] before[i]).len()
                < 0x100_0000 by {
                assert(before[i] == items[i]);
            }
        }
        lemma_strings_round_trip(before, s, p);
        lemma_bytes_round_trip(items.last(), s, p + enc_strings(before).len());
        lemma_enc_bytes_len(items.last());
        assert(before.push(items.last()) =~= items);
    }
}

/// A written list of byte strings is read back.
pub proof fn law_payload_round_trip(items: Seq<Seq<u8>>, s: Seq<u8>, p: int)
    requires
        payload_fits(items),
        crate::tl::stands_at(s, p, enc_payload(items)),
    ensures
        get_payload(s, p) == Ok::<(Seq<Seq<u8>>, int), TlError>(
            (items, p + enc_payload(items).len()),
        ),
{
    let count = crate::tl::le32(items.len() as u32);
    crate::tl::lemma_le32(items.len() as u32, Seq::empty());
    crate::tl::lemma_stands_split(s, p, count, enc_strings(items));
    crate::tl::lemma_get_u32(s, p, items.len() as u32);
    lemma_strings_round_trip(items, s, p + 4);
}

/// What is read lies inside the bytes.
pub proof fn lemma_strings_end(n: nat, s: Seq<u8>, p: int)
    requires
        0 <= p <= s.len(),
        get_strings(n, s, p) is Ok,
    ensures
        p <= (get_strings(n, s, p)->Ok_0).1 <= s.len(),
        (get_strings(n, s, p)->Ok_0).0.len() == n,
        total_len((get_strings(n, s, p)->Ok_0).0) <= (get_strings(n, s, p)->Ok_0).1 - p,
    decreases n,
{
    if n > 0 {
        lemma_strings_end((n - 1) as nat, s, p);
        let (items, p1) = get_strings((n - 1) as nat, s, p)->Ok_0;
        let (item, p2) = get_bytes(s, p1)->Ok_0;
        assert(items.push(item).drop_last() =~= items);
    }
}

/// If reading fails at one string, reading more fails the same way.
proof fn lemma_strings_error(n: nat, m: nat, s: Seq<u8>, p: int)
    requires
        n <= m,
        get_strings(n, s, p) is Err,
    ensures
        get_strings(m, s, p) == get_strings(n, s, p),
    decreases m,
{
    if n < m {
        lemma_strings_error(n, (m - 1) as nat, s, p);
    }
}

/// Writes a byte string.
pub fn write_bytes(packet: &mut Vec<u8>, bytes: &[u8])
    requires
        bytes@.len() < 0x100_0000,
    ensures
        final(packet)@ == old(packet)@ + enc_bytes(bytes@),
{
    let ghost start = packet@;
    let len: usize = bytes.len();
    let written: usize = if len < 254 {
        packet.push(len as u8);
        1
    } else {
        packet.push(SIZE_MAGIC);
        packet.push((len % 256) as u8);
        packet.push((len / 256 % 256) as u8);
        packet.push((len / 65536 % 256) as u8);
        4
    };
    assert(packet@ =~= start + bytes_prefix(len as nat));
    write_raw(packet, bytes);
    let missing: usize = (4 - (written + len) % 4) % 4;
    let ghost head = packet@;
    let mut i: usize = 0;
    while i < missing
        invariant
            i <= missing,
            packet@ == head + zeros(i as nat),
        decreases missing - i,
    {
        packet.push(0u8);
        i = i + 1;
        assert(packet@ =~= head + zeros(i as nat));
    }
    assert(packet@ =~= start + enc_bytes(bytes@));
}

/// Finds a byte string: its first byte, its length, and what follows it.
pub fn read_bytes_meta(data: &[u8], pos: usize) -> (r: Result<(usize, usize, usize), TlError>)
    requires
        pos <= data@.len(),
    ensures
        match (r, bytes_meta(data@, pos as int)) {
            (Ok((start, len, end)), Ok((s, l, e))) => start == s && len == l && end == e && start
                + len <= end <= data@.len(),
            (Err(a), Err(b)) => a == b,
            _ => false,
        },
{
    let total: usize = data.len();
    if total - pos < 4 {
        return Err(TlError::UnexpectedEof);
    }
    let first: u8 = data[pos];
    let (prefix, len): (usize, usize) = if first != SIZE_MAGIC {
        (1, first as usize)
    } else {
        (
            4,
            data[pos + 1] as usize + 256 * data[pos + 2] as usize + 65536 * data[pos + 3] as usize,
        )
    };
    let missing: usize = (4 - (prefix + len) % 4) % 4;
    if total - pos < prefix + len + missing {
        return Err(TlError::UnexpectedEof);
    }
    Ok((pos + prefix, len, pos + prefix + len + missing))
}

/// Writes a counted list of byte strings.
pub fn write_payload(packet: &mut Vec<u8>, items: &Vec<Vec<u8>>)
    requires
        payload_fits(views(items@)),
    ensures
        final(packet)@ == old(packet)@ + enc_payload(views(items@)),
{
    write_u32(packet, items.len() as u32);
    let ghost head = packet@;
    let mut i: usize = 0;
    assert(views(items@).take(0) =~= Seq::<Seq<u8>>::empty());
    assert(head =~= head + enc_strings(views(items@).take(0)));
    while i < items.len()
        invariant
            i <= items@.len(),
            payload_fits(views(items@)),
            packet@ == head + enc_strings(views(items@).take(i as int)),
        decreases items@.len() - i,
    {
        let ghost all = views(items@);
        assert(all[i as int] == items@[i as int]@);
        write_bytes(packet, items[i].as_slice());
        i = i + 1;
        proof {
            assert(all.take(i as int).drop_last() =~= all.take(i - 1));
            assert(packet@ =~= head + enc_strings(all.take(i as int)));
        }
    }
    assert(views(items@).take(items@.len() as int) =~= views(items@));
    assert(packet@ =~= old(packet)@ + enc_payload(views(items@)));
}

/// Where the byte strings of a counted list lie.
#[derive(Debug)]
pub struct PayloadBounds {
    /// The first byte and the length of each.
    pub items: Vec<(usize, usize)>,
    /// The position behind the list.
    pub end: usize,
}

impl PayloadBounds {
    /// The byte strings.
    pub open spec fn strings(&self, s: Seq<u8>) -> Seq<Seq<u8>> {
        self.items@.map_values(|b: (usize, usize)| s.subrange(b.0 as int, b.0 + b.1))
    }

    /// Whether all of them lie inside the bytes.
    pub open spec fn inside(&self, s: Seq<u8>) -> bool {
        &&& self.end <= s.len()
        &&& forall|i: int|
            0 <= i < self.items@.len() ==> (#[trigger] self.items@[i]).0 + self.items@[i].1
                <= s.len()
    }
}

/// Finds the byte strings of a counted list.
pub fn read_payload_bounds(data: &[u8], pos: usize) -> (r: Result<PayloadBounds, TlError>)
    requires
        pos <= data@.len(),
    ensures
        match (r, get_payload(data@, pos as int)) {
            (Ok(b), Ok((items, e))) => b.inside(data@) && b.strings(data@) == items && b.end == e
                && b.items@.len() <= u32::MAX,
            (Err(a), Err(b)) => a == b,
            _ => false,
        },
{
    let (n, p1) = match read_u32(data, pos) {
        Ok(x) => x,
        Err(e) => return Err(e),
    };
    let left: usize = data.len() - p1;
    if n as u64 * 4 > left as u64 {
        return Err(TlError::UnexpectedEof);
    }
    let mut found = PayloadBounds { items: Vec::new(), end: p1 };
    let mut i: u32 = 0;
    assert(found.strings(data@) =~= Seq::<Seq<u8>>::empty());
    while i < n
        invariant
            i <= n,
            p1 <= data@.len(),
            crate::tl::get_u32(data@, pos as int) == Ok::<(u32, int), TlError>((n, p1 as int)),
            n * 4 <= data@.len() - p1,
            found.inside(data@),
            found.items@.len() == i,
            get_strings(i as nat, data@, p1 as int) == Ok::<(Seq<Seq<u8>>, int), TlError>(
                (found.strings(data@), found.end as int),
            ),
        decreases n - i,
    {
        let ghost before = found.strings(data@);
        match read_bytes_meta(data, found.end) {
            Err(e) => {
                proof {
                    assert(get_strings((i + 1) as nat, data@, p1 as int) is Err);
                    lemma_strings_error((i + 1) as nat, n as nat, data@, p1 as int);
                }
                return Err(e);
            },
            Ok((start, len, end)) => {
                found.items.push((start, len));
                found.end = end;
                assert(found.strings(data@) =~= before.push(
                    data@.subrange(start as int, start + len),
                ));
            },
        }
        i = i + 1;
    }
    Ok(found)
}

/// A byte string of up to 253 bytes has its length in one byte before it. A longer one
/// has a mark and three bytes of length, the lowest first. Zeros fill the whole up to
/// the next multiple of four.
pub proof fn law_byte_string_layout(b: Seq<u8>)
    requires
        b.len() < 0x100_0000,
    ensures
        ({
            let s = enc_bytes(b);
            let start = if b.len() < 254 {
                1int
            } else {
                4int
            };
            &&& s.len() % 4 == 0
            &&& start + b.len() <= s.len() < start + b.len() + 4
            &&& b.len() < 254 ==> s[0] == b.len()
            &&& b.len() >= 254 ==> s[0] == 254 && s[1] + 256 * s[2] + 65536 * s[3] == b.len()
            &&& s.subrange(start, start + b.len()) == b
            &&& forall|i: int| start + b.len() <= i < s.len() ==> #[trigger] s[i] == 0
        }),
{
    let s = enc_bytes(b);
    let start = bytes_prefix(b.len()).len() as int;
    assert(s.subrange(start, start + b.len()) =~= b);
}

/// What fills a length up makes it a multiple of four, and is as little as can be.
pub proof fn law_padding_is_the_least(len: nat)
    ensures
        (len + padding(len)) % 4 == 0,
        padding(len) < 4,
        forall|n: int| 0 <= n < padding(len) ==> #[trigger] ((len + n) % 4) != 0,
{
}

/// The lengths of byte strings add up.
pub proof fn law_lengths_add_up(items: Seq<Seq<u8>>, item: Seq<u8>)
    ensures
        total_len(Seq::empty()) == 0,
        total_len(items.push(item)) == total_len(items) + item.len(),
{
    assert(items.push(item).drop_last() =~= items);
}

/// A list of byte strings is counted in four bytes, and one more comes last.
pub proof fn law_strings_follow_their_number(items: Seq<Seq<u8>>, item: Seq<u8>)
    ensures
        enc_payload(items).take(4) == crate::tl::le32(items.len() as u32),
        enc_payload(items).skip(4) == enc_strings(items),
        enc_strings(items.push(item)) == enc_strings(items) + enc_bytes(item),
        enc_strings(Seq::empty()).len() == 0,
{
    crate::tl::lemma_le32(items.len() as u32, Seq::empty());
    assert(enc_payload(items).take(4) =~= crate::tl::le32(items.len() as u32));
    assert(enc_payload(items).skip(4) =~= enc_strings(items));
    assert(items.push(item).drop_last() =~= items);
}

} // verus!

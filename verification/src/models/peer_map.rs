//! Maps keyed by peers, in ascending order of keys.
use crate::models::parts::{Digest, PeerId, Signature};
use crate::tl::{read_hash, write_hash, write_raw, TlError, TlScheme};
use crate::tl_list::TlItem;
use vstd::prelude::*;

verus! {

/// A value that is written as a fixed number of bytes.
pub trait FixedBytes: Sized + Copy {
    /// The bytes of the value.
    spec fn bytes(&self) -> Seq<u8>;

    /// How many they are.
    spec fn width() -> nat;

    /// The bytes determine the value, and their number is fixed.
    proof fn lemma_bytes(a: Self, b: Self)
        ensures
            a.bytes().len() == Self::width(),
            a.bytes() == b.bytes() ==> a == b,
            Self::width() <= 64,
    ;

    /// Writes the bytes.
    fn put(&self, packet: &mut Vec<u8>)
        ensures
            final(packet)@ == old(packet)@ + self.bytes(),
    ;

    /// The number of bytes.
    fn byte_count() -> (r: usize)
        ensures
            r == Self::width(),
    ;

    /// Reads a value.
    fn take_from(data: &[u8], pos: usize) -> (r: Result<(Self, usize), TlError>)
        requires
            pos <= data@.len(),
        ensures
            match (r, crate::tl::get_raw(data@, pos as int, Self::width() as int)) {
                (Ok((v, e)), Ok((m, e2))) => v.bytes() == m && e == e2,
                (Err(a), Err(b)) => a == b,
                _ => false,
            },
    ;
}

impl FixedBytes for Digest {
    open spec fn bytes(&self) -> Seq<u8> {
        self@
    }

    open spec fn width() -> nat {
        32
    }

    proof fn lemma_bytes(a: Digest, b: Digest) {
        if a@ == b@ {
            crate::models::parts::lemma_digest_ext(a, b);
        }
    }

    fn put(&self, packet: &mut Vec<u8>) {
        write_raw(packet, self.0.as_slice());
    }

    fn byte_count() -> (r: usize) {
        32
    }

    fn take_from(data: &[u8], pos: usize) -> (r: Result<(Self, usize), TlError>) {
        match read_hash(data, pos) {
            Ok((hash, end)) => Ok((Digest(hash.0), end)),
            Err(e) => Err(e),
        }
    }
}

impl FixedBytes for Signature {
    open spec fn bytes(&self) -> Seq<u8> {
        self@
    }

    open spec fn width() -> nat {
        64
    }

    proof fn lemma_bytes(a: Signature, b: Signature) {
        if a@ == b@ {
            assert(a.0 =~= b.0);
        }
    }

    fn put(&self, packet: &mut Vec<u8>) {
        write_raw(packet, self.0.as_slice());
    }

    fn byte_count() -> (r: usize) {
        64
    }

    fn take_from(data: &[u8], pos: usize) -> (r: Result<(Self, usize), TlError>) {
        let len: usize = data.len();
        if len - pos < 64 {
            return Err(TlError::UnexpectedEof);
        }
        let mut bytes: [u8; 64] = [0u8; 64];
        let mut i: usize = 0;
        while i < 64
            invariant
                i <= 64,
                pos + 64 <= len,
                len == data@.len(),
                forall|j: int| 0 <= j < i ==> bytes@[j] == data@[pos + j],
            decreases 64 - i,
        {
            bytes[i] = data[pos + i];
            i = i + 1;
        }
        assert(bytes@ =~= data@.subrange(pos as int, pos + 64));
        Ok((Signature(bytes), pos + 64))
    }
}

/// An entry of a map.
#[derive(Debug, PartialEq, Eq)]
pub struct PeerEntry<V> {
    pub peer: PeerId,
    pub value: V,
}

/// Entries are listed in ascending order of peers.
impl<V: FixedBytes> TlItem for PeerEntry<V> {
    type Model = (Seq<u8>, Seq<u8>);

    open spec fn model(&self) -> (Seq<u8>, Seq<u8>) {
        (self.peer@, self.value.bytes())
    }

    open spec fn fits(m: (Seq<u8>, Seq<u8>)) -> bool {
        true
    }

    open spec fn enc(ids: TlScheme, m: (Seq<u8>, Seq<u8>)) -> Seq<u8> {
        m.0 + m.1
    }

    open spec fn dec(ids: TlScheme, prev: Option<(Seq<u8>, Seq<u8>)>, s: Seq<u8>, p: int) -> Result<
        ((Seq<u8>, Seq<u8>), int),
        TlError,
    > {
        match crate::tl::get_raw(s, p, 32) {
            Err(e) => Err(e),
            Ok((peer, p1)) => match crate::tl::get_raw(s, p1, V::width() as int) {
                Err(e) => Err(e),
                Ok((value, p2)) => if Self::valid(ids, prev, (peer, value)) {
                    Ok(((peer, value), p2))
                } else {
                    Err(TlError::InvalidData)
                },
            },
        }
    }

    open spec fn valid(
        ids: TlScheme,
        prev: Option<(Seq<u8>, Seq<u8>)>,
        m: (Seq<u8>, Seq<u8>),
    ) -> bool {
        &&& m.0.len() == 32
        &&& m.1.len() == V::width()
        &&& prev is Some ==> crate::bytes::be_nat((prev->0).0) < crate::bytes::be_nat(m.0)
    }

    open spec fn strict() -> bool {
        true
    }

    proof fn lemma_round_trip(
        ids: TlScheme,
        prev: Option<(Seq<u8>, Seq<u8>)>,
        m: (Seq<u8>, Seq<u8>),
        s: Seq<u8>,
        p: int,
    ) {
        crate::tl::lemma_stands_split(s, p, m.0, m.1);
    }

    proof fn lemma_canonical(
        ids: TlScheme,
        prev: Option<(Seq<u8>, Seq<u8>)>,
        s: Seq<u8>,
        p: int,
    ) {
        let ((peer, value), e) = Self::dec(ids, prev, s, p)->Ok_0;
        crate::tl::lemma_stands_join(s, p, peer, value);
    }

    fn write(&self, ids: &TlScheme, packet: &mut Vec<u8>) {
        let ghost start = packet@;
        write_hash(packet, &self.peer);
        self.value.put(packet);
        assert(packet@ =~= start + (self.peer@ + self.value.bytes()));
    }

    fn size(&self, ids: &TlScheme) -> (r: usize) {
        proof {
            V::lemma_bytes(self.value, self.value);
        }
        32 + V::byte_count()
    }

    fn read(ids: &TlScheme, prev: Option<&Self>, data: &[u8], pos: usize) -> (r: Result<
        (Self, usize),
        TlError,
    >) {
        match read_hash(data, pos) {
            Err(e) => Err(e),
            Ok((peer, p1)) => match V::take_from(data, p1) {
                Err(e) => Err(e),
                Ok((value, p2)) => {
                    proof {
                        V::lemma_bytes(value, value);
                    }
                    let in_order = match prev {
                        Some(before) => before.peer.less(&peer),
                        None => true,
                    };
                    if in_order {
                        Ok((PeerEntry { peer, value }, p2))
                    } else {
                        Err(TlError::InvalidData)
                    }
                },
            },
        }
    }
}

/// Whether entries are in ascending order of peers.
pub open spec fn ascending<V>(entries: Seq<PeerEntry<V>>) -> bool {
    forall|i: int, j: int|
        0 <= i < j < entries.len() ==> (#[trigger] entries[i]).peer.value() < (
        #[trigger] entries[j]).peer.value()
}

/// A map from peers to values.
#[derive(Debug, PartialEq, Eq)]
pub struct PeerMap<V> {
    pub entries: Vec<PeerEntry<V>>,
}

impl<V> View for PeerMap<V> {
    type V = Map<PeerId, V>;

    open spec fn view(&self) -> Map<PeerId, V> {
        entries_map(self.entries@)
    }
}

/// The map that entries make.
pub open spec fn entries_map<V>(entries: Seq<PeerEntry<V>>) -> Map<PeerId, V> {
    Map::new(
        |p: PeerId| exists|i: int| 0 <= i < entries.len() && (#[trigger] entries[i]).peer == p,
        |p: PeerId|
            entries[choose|i: int| 0 <= i < entries.len() && (#[trigger] entries[i]).peer
                == p].value,
    )
}

/// An entry stands in the map under its peer.
pub proof fn lemma_entry<V>(entries: Seq<PeerEntry<V>>, i: int)
    requires
        ascending(entries),
        0 <= i < entries.len(),
    ensures
        entries_map(entries).dom().contains(entries[i].peer),
        entries_map(entries)[entries[i].peer] == entries[i].value,
{
    let p = entries[i].peer;
    let k = choose|k: int| 0 <= k < entries.len() && (#[trigger] entries[k]).peer == p;
    assert(entries[i].peer == p);
    if k < i {
        assert(entries[k].peer.value() < entries[i].peer.value());
    } else if i < k {
        assert(entries[i].peer.value() < entries[k].peer.value());
    }
}

/// Entries that the format accepts are in ascending order, and entries in
/// ascending order are accepted.
pub proof fn lemma_valid_items<V: FixedBytes>(
    ids: TlScheme,
    prev: Option<PeerEntry<V>>,
    entries: Seq<PeerEntry<V>>,
)
    ensures
        crate::tl_list::valid_items::<PeerEntry<V>>(
            ids,
            (match prev {
                Some(x) => Some(x.model()),
                None => None,
            }),
            crate::tl_list::models(entries),
        ) <==> ascending(entries) && (prev is Some && entries.len() > 0 ==> (prev->0).peer.value()
            < entries[0].peer.value()),
    decreases entries.len(),
{
    let ms = crate::tl_list::models(entries);
    if entries.len() > 0 {
        let rest = entries.drop_first();
        lemma_valid_items(ids, Some(entries[0]), rest);
        assert(ms.drop_first() =~= crate::tl_list::models(rest));
        assert(ms[0] == entries[0].model());
        V::lemma_bytes(entries[0].value, entries[0].value);
        if ascending(entries) {
            assert forall|i: int, j: int| 0 <= i < j < rest.len() implies (
            #[trigger] rest[i]).peer.value() < (#[trigger] rest[j]).peer.value() by {
                assert(rest[i] == entries[i + 1]);
                assert(rest[j] == entries[j + 1]);
            }
            if rest.len() > 0 {
                assert(rest[0] == entries[1]);
            }
        }
        if ascending(rest) && (rest.len() > 0 ==> entries[0].peer.value() < rest[0].peer.value()) {
            assert forall|i: int, j: int| 0 <= i < j < entries.len() implies (
            #[trigger] entries[i]).peer.value() < (#[trigger] entries[j]).peer.value() by {
                assert(entries[j] == rest[j - 1]);
                if i > 0 {
                    assert(entries[i] == rest[i - 1]);
                } else if j > 1 {
                    assert(rest[0].peer.value() < rest[j - 1].peer.value());
                }
            }
        }
    }
}

impl<V> PeerMap<V> {
    /// Whether the entries are in order.
    pub open spec fn wf(&self) -> bool {
        ascending(self.entries@)
    }

    /// A map without entries.
    pub fn new() -> (r: Self)
        ensures
            r.wf(),
            r.entries@.len() == 0,
            r@ == Map::<PeerId, V>::empty(),
    {
        let r = PeerMap { entries: Vec::new() };
        assert(r@ =~= Map::<PeerId, V>::empty());
        r
    }

    /// The number of entries.
    pub fn len(&self) -> (r: usize)
        ensures
            r == self.entries@.len(),
    {
        self.entries.len()
    }

    /// Whether there is no entry.
    pub fn is_empty(&self) -> (r: bool)
        ensures
            r == (self.entries@.len() == 0),
    {
        self.entries.len() == 0
    }

    /// The place of a peer, or where it would have to stand.
    fn locate(&self, peer: &PeerId) -> (r: Result<usize, usize>)
        requires
            self.wf(),
        ensures
            match r {
                Ok(i) => i < self.entries@.len() && self.entries@[i as int].peer == *peer,
                Err(i) => {
                    &&& i <= self.entries@.len()
                    &&& forall|j: int|
                        0 <= j < i ==> (#[trigger] self.entries@[j]).peer.value() < peer.value()
                    &&& forall|j: int|
                        i <= j < self.entries@.len() ==> peer.value() < (
                        #[trigger] self.entries@[j]).peer.value()
                },
            },
    {
        let mut i: usize = 0;
        while i < self.entries.len()
            invariant
                self.wf(),
                i <= self.entries@.len(),
                forall|j: int|
                    0 <= j < i ==> (#[trigger] self.entries@[j]).peer.value() < peer.value(),
            decreases self.entries@.len() - i,
        {
            if self.entries[i].peer.same(peer) {
                return Ok(i);
            }
            if !self.entries[i].peer.less(peer) {
                proof {
                    crate::ids::lemma_hash_values(self.entries@[i as int].peer, *peer);
                }
                return Err(i);
            }
            i = i + 1;
        }
        Err(i)
    }

    /// The value of a peer.
    pub fn get(&self, peer: &PeerId) -> (r: Option<&V>)
        requires
            self.wf(),
        ensures
            match r {
                Some(v) => self@.dom().contains(*peer) && *v == self@[*peer],
                None => !self@.dom().contains(*peer),
            },
    {
        match self.locate(peer) {
            Ok(i) => {
                proof {
                    lemma_entry(self.entries@, i as int);
                }
                Some(&self.entries[i].value)
            },
            Err(_i) => None,
        }
    }

    /// Whether a peer has a value.
    pub fn contains_key(&self, peer: &PeerId) -> (r: bool)
        requires
            self.wf(),
        ensures
            r == self@.dom().contains(*peer),
    {
        self.get(peer).is_some()
    }

    /// Sets the value of a peer.
    pub fn insert(&mut self, peer: PeerId, value: V)
        requires
            old(self).wf(),
        ensures
            final(self).wf(),
            final(self)@ == old(self)@.insert(peer, value),
    {
        let ghost before = self.entries@;
        match self.locate(&peer) {
            Ok(i) => {
                self.entries.set(i, PeerEntry { peer, value });
                proof {
                    let after = self.entries@;
                    assert(after[i as int].peer == before[i as int].peer);
                    assert forall|a: int, b: int| 0 <= a < b < after.len() implies (
                    #[trigger] after[a]).peer.value() < (#[trigger] after[b]).peer.value() by {
                        assert(before[a].peer.value() < before[b].peer.value());
                    }
                    lemma_same_map(before, after, i as int, peer, value);
                }
            },
            Err(i) => {
                self.entries.insert(i, PeerEntry { peer, value });
                proof {
                    lemma_inserted(before, self.entries@, i as int, peer, value);
                }
            },
        }
    }
}

proof fn lemma_same_map<V>(
    before: Seq<PeerEntry<V>>,
    after: Seq<PeerEntry<V>>,
    i: int,
    peer: PeerId,
    value: V,
)
    requires
        ascending(before),
        ascending(after),
        0 <= i < before.len(),
        before[i].peer == peer,
        after == before.update(i, PeerEntry { peer, value }),
    ensures
        entries_map(after) == entries_map(before).insert(peer, value),
{
    let m = entries_map(before).insert(peer, value);
    assert forall|p: PeerId| entries_map(after).dom().contains(p) <==> m.dom().contains(p) by {
        if entries_map(before).dom().contains(p) {
            let k = choose|k: int| 0 <= k < before.len() && (#[trigger] before[k]).peer == p;
            assert(after[k].peer == p);
        }
        if entries_map(after).dom().contains(p) {
            let k = choose|k: int| 0 <= k < after.len() && (#[trigger] after[k]).peer == p;
            assert(before[k].peer == p);
        }
    }
    assert forall|p: PeerId| entries_map(after).dom().contains(p) implies #[trigger] entries_map(
        after,
    )[p] == m[p] by {
        let k = choose|k: int| 0 <= k < after.len() && (#[trigger] after[k]).peer == p;
        lemma_entry(after, k);
        lemma_entry(before, k);
        lemma_entry(after, i);
    }
    assert(entries_map(after) =~= m);
}

proof fn lemma_inserted<V>(
    before: Seq<PeerEntry<V>>,
    after: Seq<PeerEntry<V>>,
    i: int,
    peer: PeerId,
    value: V,
)
    requires
        ascending(before),
        0 <= i <= before.len(),
        after == before.insert(i, PeerEntry { peer, value }),
        forall|j: int| 0 <= j < i ==> (#[trigger] before[j]).peer.value() < peer.value(),
        forall|j: int|
            i <= j < before.len() ==> peer.value() < (#[trigger] before[j]).peer.value(),
    ensures
        ascending(after),
        entries_map(after) == entries_map(before).insert(peer, value),
{
    assert forall|a: int, b: int| 0 <= a < b < after.len() implies (
    #[trigger] after[a]).peer.value() < (#[trigger] after[b]).peer.value() by {
        let x = if a < i { a } else { a - 1 };
        let y = if b < i { b } else { b - 1 };
        if a != i && b != i {
            assert(after[a] == before[x]);
            assert(after[b] == before[y]);
        } else if a == i {
            assert(after[b] == before[y]);
        } else {
            assert(after[a] == before[x]);
        }
    }
    let m = entries_map(before).insert(peer, value);
    assert(after[i].peer == peer);
    assert forall|p: PeerId| entries_map(after).dom().contains(p) <==> m.dom().contains(p) by {
        if entries_map(before).dom().contains(p) {
            let k = choose|k: int| 0 <= k < before.len() && (#[trigger] before[k]).peer == p;
            assert(after[if k < i { k } else { k + 1 }].peer == p);
        }
        if entries_map(after).dom().contains(p) && p != peer {
            let k = choose|k: int| 0 <= k < after.len() && (#[trigger] after[k]).peer == p;
            assert(before[if k < i { k } else { k - 1 }].peer == p);
        }
    }
    assert forall|p: PeerId| entries_map(after).dom().contains(p) implies #[trigger] entries_map(
        after,
    )[p] == m[p] by {
        let k = choose|k: int| 0 <= k < after.len() && (#[trigger] after[k]).peer == p;
        lemma_entry(after, k);
        lemma_entry(after, i);
        if k != i {
            let b = if k < i { k } else { k - 1 };
            assert(after[k] == before[b]);
            lemma_entry(before, b);
            assert(p != peer) by {
                if k < i {
                    assert(after[k].peer.value() < after[i].peer.value());
                } else {
                    assert(after[i].peer.value() < after[k].peer.value());
                }
            }
        }
    }
    assert(entries_map(after) =~= m);
}

/// The peer of an entry comes first, then its value, and peers ascend.
pub proof fn law_entries_ascend<V: FixedBytes>(
    ids: TlScheme,
    max: u32,
    ms: Seq<(Seq<u8>, Seq<u8>)>,
    i: int,
)
    requires
        crate::tl_list::valid_list::<PeerEntry<V>>(ids, max, ms),
        0 <= i < ms.len(),
    ensures
        ms[i].0.len() == 32,
        ms[i].1.len() == V::width(),
        PeerEntry::<V>::enc(ids, ms[i]).take(32) == ms[i].0,
        PeerEntry::<V>::enc(ids, ms[i]).skip(32) == ms[i].1,
        i > 0 ==> crate::bytes::be_nat(ms[i - 1].0) < crate::bytes::be_nat(ms[i].0),
{
    crate::tl_list::law_items_are_acceptable_in_turn::<PeerEntry<V>>(ids, max, ms, i);
    assert(PeerEntry::<V>::enc(ids, ms[i]).take(32) =~= ms[i].0);
    assert(PeerEntry::<V>::enc(ids, ms[i]).skip(32) =~= ms[i].1);
}

} // verus!

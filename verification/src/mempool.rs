//! External messages out of the payloads of an anchor.
use crate::cells::{boc_decode, load_ext_in};
use crate::ids::HashBytes;
use crate::models::peer_map::PeerMap;
use crate::outside::streebog256;
use vstd::prelude::*;

verus! {

/// The greatest size of an external message.
pub const MAX_BOC_SIZE: usize = 65_535;

/// The greatest depth of an external message.
pub const MAX_REPR_DEPTH: u16 = 512;

/// Remembers hashes for a number of rounds.
#[derive(Debug)]
pub struct Deduplicator {
    pub round_threshold: u16,
    /// The round in which each hash was last seen.
    pub seen: PeerMap<u32>,
}

impl Deduplicator {
    /// Whether the hashes are in order.
    pub open spec fn wf(&self) -> bool {
        self.seen.wf()
    }

    /// A memory without hashes.
    pub fn new(round_threshold: u16) -> (r: Self)
        ensures
            r.wf(),
            r.round_threshold == round_threshold,
            r.seen@ == Map::<HashBytes, u32>::empty(),
    {
        Deduplicator { round_threshold, seen: PeerMap::new() }
    }

    /// Says whether a hash is new, and remembers it.
    pub fn check_unique(&mut self, round: u32, hash: &HashBytes) -> (r: bool)
        requires
            old(self).wf(),
        ensures
            final(self).wf(),
            final(self).round_threshold == old(self).round_threshold,
            r == !old(self).seen@.dom().contains(*hash),
            final(self).seen@ == old(self).seen@.insert(*hash, round),
    {
        let unique = !self.seen.contains_key(hash);
        self.seen.insert(*hash, round);
        unique
    }

    /// Forgets the hashes that were last seen longer ago than the threshold.
    pub fn clean(&mut self, round: u32)
        requires
            old(self).wf(),
        ensures
            final(self).wf(),
            final(self).round_threshold == old(self).round_threshold,
            final(self).seen@ == kept(old(self).seen@, round, old(self).round_threshold),
    {
        let ghost before = self.seen.entries@;
        let ghost all = self.seen@;
        let ghost keep = kept(all, round, self.round_threshold);
        let mut fresh: PeerMap<u32> = PeerMap::new();
        let mut i: usize = 0;
        while i < self.seen.entries.len()
            invariant
                self.wf(),
                *self == *old(self),
                fresh.wf(),
                before == self.seen.entries@,
                all == self.seen@,
                keep == kept(all, round, self.round_threshold),
                i <= before.len(),
                forall|h: HashBytes| #[trigger]
                    fresh@.dom().contains(h) ==> keep.dom().contains(h) && fresh@[h] == keep[h],
                forall|j: int|
                    0 <= j < i && keep.dom().contains((#[trigger] before[j]).peer)
                        ==> fresh@.dom().contains(before[j].peer),
            decreases before.len() - i,
        {
            let hash: HashBytes = self.seen.entries[i].peer;
            let last: u32 = self.seen.entries[i].value;
            proof {
                crate::models::peer_map::lemma_entry(before, i as int);
            }
            if last as u64 + self.round_threshold as u64 >= round as u64 {
                fresh.insert(hash, last);
            }
            i = i + 1;
        }
        proof {
            assert forall|h: HashBytes| keep.dom().contains(h) implies #[trigger]
                fresh@.dom().contains(h) by {
                let j = choose|j: int| 0 <= j < before.len() && (#[trigger] before[j]).peer == h;
                assert(before[j].peer == h);
            }
            assert(fresh@ =~= keep);
        }
        self.seen = fresh;
    }
}

/// The hashes that are not older than a threshold.
pub open spec fn kept(seen: Map<HashBytes, u32>, round: u32, threshold: u16) -> Map<
    HashBytes,
    u32,
> {
    seen.restrict(seen.dom().filter(|h: HashBytes| seen[h] + threshold >= round))
}

/// A message that was found in a payload.
#[derive(Debug)]
pub struct ExternalMessage {
    /// Its bytes, a bag of cells.
    pub data: Vec<u8>,
    /// The hash of its root.
    pub hash: HashBytes,
}

/// The messages that are new, and the size of their payloads.
#[derive(Debug)]
pub struct ParserOutput {
    pub unique_messages: Vec<ExternalMessage>,
    pub unique_payload_bytes: usize,
}

/// Reads external messages and drops those that were seen before, first by their
/// bytes, then by the hash of their root.
#[derive(Debug)]
pub struct Parser {
    pub by_bytes: Deduplicator,
    pub by_root: Deduplicator,
}

/// Whether a cell can be the root of a message: it is ordinary, has no level and
/// is not too deep.
pub open spec fn is_message_root(root: crate::cells::BocRoot) -> bool {
    !root.is_exotic && root.level == 0 && root.repr_depth <= MAX_REPR_DEPTH
}

/// The hash of the root of the message that bytes hold, if they hold one.
pub open spec fn message_hash(data: Seq<u8>) -> Option<HashBytes> {
    match crate::cells::boc_root(data) {
        None => None,
        Some(root) => if is_message_root(root) && crate::cells::is_ext_in_message(data) {
            Some(root.repr_hash)
        } else {
            None
        },
    }
}

/// What a parser has seen and found.
#[verifier::ext_equal]
pub struct Parsed {
    /// The hashes of payloads, each with the anchor in which it was last seen.
    pub bytes: Map<Seq<u8>, u32>,
    /// The hashes of roots, in the same way.
    pub roots: Map<HashBytes, u32>,
    /// The payloads that hold a new message.
    pub found: Seq<Seq<u8>>,
}

/// What is seen and found after some payloads of an anchor: one that is too big is
/// passed over; one whose bytes were seen does not count, and neither does one
/// that holds no message, or one with a root that was seen.
pub open spec fn parsed(start: Parsed, anchor_id: u32, payloads: Seq<Seq<u8>>) -> Parsed
    decreases payloads.len(),
{
    if payloads.len() == 0 {
        start
    } else {
        let before = parsed(start, anchor_id, payloads.drop_last());
        let data = payloads.last();
        let hash = crate::outside::streebog256_of(data);
        if data.len() > MAX_BOC_SIZE {
            before
        } else if before.bytes.dom().contains(hash) {
            Parsed { bytes: before.bytes.insert(hash, anchor_id), ..before }
        } else {
            match message_hash(data) {
                None => Parsed { bytes: before.bytes.insert(hash, anchor_id), ..before },
                Some(root) => Parsed {
                    bytes: before.bytes.insert(hash, anchor_id),
                    roots: before.roots.insert(root, anchor_id),
                    found: if before.roots.dom().contains(root) {
                        before.found
                    } else {
                        before.found.push(data)
                    },
                },
            }
        }
    }
}

/// What was seen, by the bytes of the hashes.
pub open spec fn by_hash_bytes(seen: Map<HashBytes, u32>) -> Map<Seq<u8>, u32> {
    Map::new(
        |s: Seq<u8>| exists|h: HashBytes| #[trigger] seen.dom().contains(h) && h@ == s,
        |s: Seq<u8>| seen[choose|h: HashBytes| #[trigger] seen.dom().contains(h) && h@ == s],
    )
}

proof fn lemma_by_hash_bytes(seen: Map<HashBytes, u32>, hash: HashBytes, round: u32)
    ensures
        by_hash_bytes(seen).dom().contains(hash@) == seen.dom().contains(hash),
        by_hash_bytes(seen.insert(hash, round)) == by_hash_bytes(seen).insert(hash@, round),
{
    if by_hash_bytes(seen).dom().contains(hash@) {
        let h = choose|h: HashBytes| #[trigger] seen.dom().contains(h) && h@ == hash@;
        crate::ids::lemma_hash_ext(h, hash);
    }
    let after = seen.insert(hash, round);
    let a = by_hash_bytes(after);
    let b = by_hash_bytes(seen).insert(hash@, round);
    assert forall|s: Seq<u8>| a.dom().contains(s) <==> b.dom().contains(s) by {
        if a.dom().contains(s) {
            let h = choose|h: HashBytes| #[trigger] after.dom().contains(h) && h@ == s;
            if h != hash {
                assert(seen.dom().contains(h));
            }
        }
        if by_hash_bytes(seen).dom().contains(s) {
            let h = choose|h: HashBytes| #[trigger] seen.dom().contains(h) && h@ == s;
            assert(after.dom().contains(h));
        }
        assert(after.dom().contains(hash));
    }
    assert forall|s: Seq<u8>| a.dom().contains(s) implies a[s] == b[s] by {
        let h = choose|h: HashBytes| #[trigger] after.dom().contains(h) && h@ == s;
        if s == hash@ {
            crate::ids::lemma_hash_ext(h, hash);
        } else {
            assert(seen.dom().contains(h));
            let g = choose|g: HashBytes| #[trigger] seen.dom().contains(g) && g@ == s;
            crate::ids::lemma_hash_ext(h, g);
        }
    }
    assert(a =~= b);
}

impl Parser {
    /// Whether the memories are in order.
    pub open spec fn wf(&self) -> bool {
        self.by_bytes.wf() && self.by_root.wf()
    }

    /// What was seen, with nothing found.
    pub open spec fn start(&self) -> Parsed {
        Parsed {
            bytes: by_hash_bytes(self.by_bytes.seen@),
            roots: self.by_root.seen@,
            found: Seq::empty(),
        }
    }

    /// A parser that has seen nothing.
    pub fn new(round_threshold: u16) -> (r: Self)
        ensures
            r.wf(),
            r.by_bytes.round_threshold == round_threshold,
            r.by_root.round_threshold == round_threshold,
            r.by_bytes.seen@ == Map::<HashBytes, u32>::empty(),
            r.by_root.seen@ == Map::<HashBytes, u32>::empty(),
    {
        Parser {
            by_bytes: Deduplicator::new(round_threshold),
            by_root: Deduplicator::new(round_threshold),
        }
    }

    /// Forgets what was seen too long ago.
    pub fn clean(&mut self, anchor_id: u32)
        requires
            old(self).wf(),
        ensures
            final(self).wf(),
            final(self).by_bytes.seen@ == kept(
                old(self).by_bytes.seen@,
                anchor_id,
                old(self).by_bytes.round_threshold,
            ),
            final(self).by_root.seen@ == kept(
                old(self).by_root.seen@,
                anchor_id,
                old(self).by_root.round_threshold,
            ),
            final(self).by_bytes.round_threshold == old(self).by_bytes.round_threshold,
            final(self).by_root.round_threshold == old(self).by_root.round_threshold,
    {
        self.by_bytes.clean(anchor_id);
        self.by_root.clean(anchor_id);
    }

    /// Finds the messages in payloads that are new.
    pub fn parse_unique(&mut self, anchor_id: u32, payloads: Vec<&[u8]>) -> (r: ParserOutput)
        requires
            old(self).wf(),
            crate::tl_bytes::total_len(slice_views(payloads@)) <= usize::MAX,
        ensures
            final(self).wf(),
            final(self).by_bytes.round_threshold == old(self).by_bytes.round_threshold,
            final(self).by_root.round_threshold == old(self).by_root.round_threshold,
            ({
                let end = parsed(old(self).start(), anchor_id, slice_views(payloads@));
                &&& by_hash_bytes(final(self).by_bytes.seen@) == end.bytes
                &&& final(self).by_root.seen@ == end.roots
                &&& messages_of(r.unique_messages@) == end.found
                &&& r.unique_payload_bytes == crate::tl_bytes::total_len(end.found)
            }),
            forall|i: int|
                0 <= i < r.unique_messages@.len() ==> message_hash(
                    (#[trigger] r.unique_messages@[i]).data@,
                ) == Some(r.unique_messages@[i].hash),
    {
        let ghost all = slice_views(payloads@);
        let ghost start = self.start();
        let mut messages: Vec<ExternalMessage> = Vec::new();
        let mut bytes: usize = 0;
        let mut i: usize = 0;
        proof {
            assert(all.take(0) =~= Seq::<Seq<u8>>::empty());
            assert(messages_of(messages@) =~= Seq::<Seq<u8>>::empty());
        }
        while i < payloads.len()
            invariant
                self.wf(),
                i <= payloads@.len(),
                all == slice_views(payloads@),
                crate::tl_bytes::total_len(all) <= usize::MAX,
                self.by_bytes.round_threshold == old(self).by_bytes.round_threshold,
                self.by_root.round_threshold == old(self).by_root.round_threshold,
                by_hash_bytes(self.by_bytes.seen@) == parsed(
                    start,
                    anchor_id,
                    all.take(i as int),
                ).bytes,
                self.by_root.seen@ == parsed(start, anchor_id, all.take(i as int)).roots,
                messages_of(messages@) == parsed(start, anchor_id, all.take(i as int)).found,
                bytes == crate::tl_bytes::total_len(
                    parsed(start, anchor_id, all.take(i as int)).found,
                ),
                bytes <= crate::tl_bytes::total_len(all.take(i as int)),
                start.found.len() == 0,
                forall|j: int|
                    0 <= j < messages@.len() ==> message_hash((#[trigger] messages@[j]).data@)
                        == Some(messages@[j].hash),
            decreases payloads@.len() - i,
        {
            let data: &[u8] = payloads[i];
            proof {
                assert(all.take(i + 1).drop_last() =~= all.take(i as int));
                assert(all.take(i + 1).last() == data@);
                lemma_total_take(all, i + 1);
            }
            if data.len() <= MAX_BOC_SIZE {
                let hash = streebog256(data);
                proof {
                    lemma_by_hash_bytes(self.by_bytes.seen@, hash, anchor_id);
                }
                if self.by_bytes.check_unique(anchor_id, &hash) {
                    if let Some(root) = Self::parse_message_bytes(data) {
                        let ghost before = messages@;
                        if self.by_root.check_unique(anchor_id, &root) {
                            let mut copy: Vec<u8> = Vec::new();
                            crate::tl::write_raw(&mut copy, data);
                            assert(copy@ =~= data@);
                            messages.push(ExternalMessage { data: copy, hash: root });
                            bytes = bytes + data.len();
                            assert(messages_of(messages@) =~= messages_of(before).push(data@));
                            assert(messages_of(before).push(data@).drop_last() =~= messages_of(
                                before,
                            ));
                        }
                    }
                }
            }
            i = i + 1;
        }
        assert(all.take(i as int) =~= all);
        ParserOutput { unique_messages: messages, unique_payload_bytes: bytes }
    }

    /// Reads a message: the hash of its root, if it is one.
    fn parse_message_bytes(data: &[u8]) -> (r: Option<HashBytes>)
        ensures
            r == message_hash(data@),
    {
        match boc_decode(data) {
            None => None,
            Some(root) => if !check_message_root(&root) || !load_ext_in(data) {
                None
            } else {
                Some(root.repr_hash)
            },
        }
    }
}

/// Whether a cell can be the root of a message.
pub fn check_message_root(root: &crate::cells::BocRoot) -> (r: bool)
    ensures
        r == is_message_root(*root),
{
    !root.is_exotic && root.level == 0 && root.repr_depth <= MAX_REPR_DEPTH
}

/// The contents of byte slices.
pub open spec fn slice_views(payloads: Seq<&[u8]>) -> Seq<Seq<u8>> {
    payloads.map_values(|p: &[u8]| p@)
}

/// The bytes of messages.
pub open spec fn messages_of(messages: Seq<ExternalMessage>) -> Seq<Seq<u8>> {
    messages.map_values(|m: ExternalMessage| m.data@)
}

proof fn lemma_total_take(strings: Seq<Seq<u8>>, i: int)
    requires
        0 < i <= strings.len(),
    ensures
        crate::tl_bytes::total_len(strings.take(i)) == crate::tl_bytes::total_len(
            strings.take(i - 1),
        ) + strings[i - 1].len(),
        crate::tl_bytes::total_len(strings.take(i)) <= crate::tl_bytes::total_len(strings),
{
    assert(strings.take(i).drop_last() =~= strings.take(i - 1));
    crate::models::point::lemma_total_take(strings, i);
}

/// A payload that comes again at once changes nothing.
pub proof fn law_repeated_payload_is_dropped(
    start: Parsed,
    anchor_id: u32,
    payloads: Seq<Seq<u8>>,
    data: Seq<u8>,
)
    requires
        payloads.len() > 0,
        payloads.last() == data,
    ensures
        parsed(start, anchor_id, payloads.push(data)) == parsed(start, anchor_id, payloads),
{
    let again = payloads.push(data);
    assert(again.drop_last() =~= payloads);
    if data.len() <= MAX_BOC_SIZE {
        let bytes = parsed(start, anchor_id, payloads).bytes;
        let hash = crate::outside::streebog256_of(data);
        assert(bytes.dom().contains(hash) && bytes[hash] == anchor_id);
        assert(bytes.insert(hash, anchor_id) =~= bytes);
    }
}

/// The messages that are found have different roots, none of which was seen
/// before.
pub proof fn law_found_messages_are_new(start: Parsed, anchor_id: u32, payloads: Seq<Seq<u8>>)
    requires
        start.found.len() == 0,
    ensures
        ({
            let end = parsed(start, anchor_id, payloads);
            &&& start.roots.dom().subset_of(end.roots.dom())
            &&& forall|i: int|
                #![trigger end.found[i]]
                0 <= i < end.found.len() ==> (message_hash(end.found[i]) matches Some(root)
                    && end.roots.dom().contains(root) && !start.roots.dom().contains(root))
            &&& forall|i: int, j: int|
                #![trigger end.found[i], end.found[j]]
                0 <= i < j < end.found.len() ==> message_hash(end.found[i]) != message_hash(
                    end.found[j],
                )
        }),
    decreases payloads.len(),
{
    if payloads.len() > 0 {
        law_found_messages_are_new(start, anchor_id, payloads.drop_last());
    }
}

/// Whether a payload is looked into: it is not too big, and no payload with the same
/// hash of its bytes came before it, in this anchor or earlier.
pub open spec fn is_looked_into(start: Parsed, payloads: Seq<Seq<u8>>, i: int) -> bool {
    &&& payloads[i].len() <= 65_535
    &&& !start.bytes.dom().contains(crate::outside::streebog256_of(payloads[i]))
    &&& forall|j: int|
        0 <= j < i && (#[trigger] payloads[j]).len() <= 65_535
            ==> crate::outside::streebog256_of(payloads[j]) != crate::outside::streebog256_of(
            payloads[i],
        )
}

/// Whether a payload holds a new message: it is looked into and holds one, and no payload
/// with the same root that was looked into came before it, in this anchor or earlier.
pub open spec fn holds_new_message(start: Parsed, payloads: Seq<Seq<u8>>, i: int) -> bool {
    &&& is_looked_into(start, payloads, i)
    &&& message_hash(payloads[i]) matches Some(root) && !start.roots.dom().contains(root)
    &&& forall|j: int|
        0 <= j < i && #[trigger] is_looked_into(start, payloads, j) ==> message_hash(payloads[j])
            != message_hash(payloads[i])
}

/// The positions of the payloads that hold new messages.
spec fn new_positions(start: Parsed, payloads: Seq<Seq<u8>>) -> Seq<int>
    decreases payloads.len(),
{
    if payloads.len() == 0 {
        Seq::empty()
    } else {
        let before = new_positions(start, payloads.drop_last());
        if holds_new_message(start, payloads, payloads.len() - 1) {
            before.push(payloads.len() - 1)
        } else {
            before
        }
    }
}

/// Whether earlier payloads are judged the same when more follow.
proof fn lemma_judged_by_what_comes_before(start: Parsed, payloads: Seq<Seq<u8>>, i: int)
    requires
        0 <= i < payloads.len() - 1,
    ensures
        is_looked_into(start, payloads.drop_last(), i) == is_looked_into(start, payloads, i),
        holds_new_message(start, payloads.drop_last(), i) == holds_new_message(start, payloads, i),
    decreases i,
{
    let rest = payloads.drop_last();
    assert forall|j: int| 0 <= j <= i implies rest[j] == payloads[j] by {}
    assert forall|j: int| 0 <= j <= i implies #[trigger] is_looked_into(start, rest, j)
        == is_looked_into(start, payloads, j) by {
        assert(rest[j] == payloads[j]);
        assert forall|k: int| 0 <= k < j implies rest[k] == payloads[k] by {}
        if is_looked_into(start, rest, j) {
            assert forall|k: int|
                0 <= k < j && (#[trigger] payloads[k]).len()
                    <= 65_535 implies crate::outside::streebog256_of(payloads[k])
                != crate::outside::streebog256_of(payloads[j]) by {
                assert(rest[k] == payloads[k]);
            }
        }
        if is_looked_into(start, payloads, j) {
            assert forall|k: int|
                0 <= k < j && (#[trigger] rest[k]).len()
                    <= 65_535 implies crate::outside::streebog256_of(rest[k])
                != crate::outside::streebog256_of(rest[j]) by {
                assert(rest[k] == payloads[k]);
            }
        }
    }
    if holds_new_message(start, rest, i) {
        assert forall|j: int| 0 <= j < i && #[trigger] is_looked_into(start, payloads, j) implies
        message_hash(payloads[j]) != message_hash(payloads[i]) by {
            assert(is_looked_into(start, rest, j));
            assert(rest[j] == payloads[j]);
        }
    }
    if holds_new_message(start, payloads, i) {
        assert forall|j: int| 0 <= j < i && #[trigger] is_looked_into(start, rest, j) implies
        message_hash(rest[j]) != message_hash(rest[i]) by {
            assert(is_looked_into(start, payloads, j));
            assert(rest[j] == payloads[j]);
        }
    }
}

/// What is remembered after an anchor: of the bytes every payload that is not too big, of
/// the roots those that were looked into, each with this anchor; everything else as it
/// was.
pub proof fn law_payloads_are_remembered(
    start: Parsed,
    anchor_id: u32,
    payloads: Seq<Seq<u8>>,
)
    ensures
        ({
            let end = parsed(start, anchor_id, payloads);
            &&& forall|h: Seq<u8>| #[trigger]
                end.bytes.dom().contains(h) <==> start.bytes.dom().contains(h) || exists|i: int|
                    0 <= i < payloads.len() && (#[trigger] payloads[i]).len() <= 65_535
                        && crate::outside::streebog256_of(payloads[i]) == h
            &&& forall|i: int|
                0 <= i < payloads.len() && (#[trigger] payloads[i]).len() <= 65_535
                    ==> end.bytes[crate::outside::streebog256_of(payloads[i])] == anchor_id
            &&& forall|h: Seq<u8>|
                #![trigger end.bytes[h]]
                start.bytes.dom().contains(h) && (forall|i: int|
                    0 <= i < payloads.len() && (#[trigger] payloads[i]).len() <= 65_535
                        ==> crate::outside::streebog256_of(payloads[i]) != h) ==> end.bytes[h]
                    == start.bytes[h]
            &&& forall|root: HashBytes| #[trigger]
                end.roots.dom().contains(root) <==> start.roots.dom().contains(root)
                    || exists|i: int|
                    0 <= i < payloads.len() && #[trigger] is_looked_into(start, payloads, i)
                        && message_hash(payloads[i]) == Some(root)
        }),
    decreases payloads.len(),
{
    if payloads.len() > 0 {
        let n = payloads.len() - 1;
        let rest = payloads.drop_last();
        law_payloads_are_remembered(start, anchor_id, rest);
        let before = parsed(start, anchor_id, rest);
        let end = parsed(start, anchor_id, payloads);
        let last = payloads[n];
        let hash = crate::outside::streebog256_of(last);
        assert forall|i: int| 0 <= i < n implies rest[i] == payloads[i] by {}
        assert(is_looked_into(start, payloads, n) <==> last.len() <= 65_535
            && !before.bytes.dom().contains(hash)) by {
            if last.len() <= 65_535 && !before.bytes.dom().contains(hash) {
                assert forall|j: int|
                    0 <= j < n && (#[trigger] payloads[j]).len()
                        <= 65_535 implies crate::outside::streebog256_of(payloads[j]) != hash by {
                    assert(rest[j] == payloads[j]);
                }
            }
            if is_looked_into(start, payloads, n) && before.bytes.dom().contains(hash) {
                let i = choose|i: int|
                    0 <= i < rest.len() && (#[trigger] rest[i]).len() <= 65_535
                        && crate::outside::streebog256_of(rest[i]) == hash;
                assert(payloads[i] == rest[i]);
            }
        }
        assert forall|h: Seq<u8>| #[trigger]
            end.bytes.dom().contains(h) <==> start.bytes.dom().contains(h) || exists|i: int|
                0 <= i < payloads.len() && (#[trigger] payloads[i]).len() <= 65_535
                    && crate::outside::streebog256_of(payloads[i]) == h by {
            if before.bytes.dom().contains(h) && !start.bytes.dom().contains(h) {
                let i = choose|i: int|
                    0 <= i < rest.len() && (#[trigger] rest[i]).len() <= 65_535
                        && crate::outside::streebog256_of(rest[i]) == h;
                assert(payloads[i] == rest[i]);
            }
            if exists|i: int|
                0 <= i < payloads.len() && (#[trigger] payloads[i]).len() <= 65_535
                    && crate::outside::streebog256_of(payloads[i]) == h {
                let i = choose|i: int|
                    0 <= i < payloads.len() && (#[trigger] payloads[i]).len() <= 65_535
                        && crate::outside::streebog256_of(payloads[i]) == h;
                if i < n {
                    assert(rest[i] == payloads[i]);
                    assert(before.bytes.dom().contains(h));
                }
            }
        }
        assert forall|i: int|
            0 <= i < payloads.len() && (#[trigger] payloads[i]).len()
                <= 65_535 implies end.bytes[crate::outside::streebog256_of(payloads[i])]
            == anchor_id by {
            if i < n {
                assert(rest[i] == payloads[i]);
            }
        }
        assert forall|h: Seq<u8>|
            #![trigger end.bytes[h]]
            start.bytes.dom().contains(h) && (forall|i: int|
                0 <= i < payloads.len() && (#[trigger] payloads[i]).len() <= 65_535
                    ==> crate::outside::streebog256_of(payloads[i]) != h) implies end.bytes[h]
            == start.bytes[h] by {
            assert forall|i: int|
                0 <= i < rest.len() && (#[trigger] rest[i]).len()
                    <= 65_535 implies crate::outside::streebog256_of(rest[i]) != h by {
                assert(payloads[i] == rest[i]);
            }
            assert(before.bytes[h] == start.bytes[h]);
            assert(last == payloads[n]);
        }
        assert forall|root: HashBytes| #[trigger]
            end.roots.dom().contains(root) <==> start.roots.dom().contains(root) || exists|i: int|
                0 <= i < payloads.len() && #[trigger] is_looked_into(start, payloads, i)
                    && message_hash(payloads[i]) == Some(root) by {
            if before.roots.dom().contains(root) && !start.roots.dom().contains(root) {
                let i = choose|i: int|
                    0 <= i < rest.len() && #[trigger] is_looked_into(start, rest, i)
                        && message_hash(rest[i]) == Some(root);
                lemma_judged_by_what_comes_before(start, payloads, i);
                assert(is_looked_into(start, payloads, i));
            }
            if exists|i: int|
                0 <= i < payloads.len() && #[trigger] is_looked_into(start, payloads, i)
                    && message_hash(payloads[i]) == Some(root) {
                let i = choose|i: int|
                    0 <= i < payloads.len() && #[trigger] is_looked_into(start, payloads, i)
                        && message_hash(payloads[i]) == Some(root);
                if i < n {
                    lemma_judged_by_what_comes_before(start, payloads, i);
                    assert(is_looked_into(start, rest, i));
                    assert(before.roots.dom().contains(root));
                }
            }
        }
    }
}

proof fn lemma_new_positions(start: Parsed, anchor_id: u32, payloads: Seq<Seq<u8>>)
    requires
        start.found.len() == 0,
    ensures
        ({
            let at = new_positions(start, payloads);
            let found = parsed(start, anchor_id, payloads).found;
            &&& at.len() == found.len()
            &&& forall|k: int|
                0 <= k < at.len() ==> 0 <= (#[trigger] at[k]) < payloads.len() && found[k]
                    == payloads[at[k]] && holds_new_message(start, payloads, at[k])
            &&& forall|k: int, l: int| 0 <= k < l < at.len() ==> at[k] < at[l]
            &&& forall|i: int|
                0 <= i < payloads.len() && #[trigger] holds_new_message(start, payloads, i)
                    ==> at.contains(i)
        }),
    decreases payloads.len(),
{
    if payloads.len() > 0 {
        let n = payloads.len() - 1;
        let rest = payloads.drop_last();
        lemma_new_positions(start, anchor_id, rest);
        law_payloads_are_remembered(start, anchor_id, rest);
        law_payloads_are_remembered(start, anchor_id, payloads);
        let before = parsed(start, anchor_id, rest);
        let last = payloads[n];
        let hash = crate::outside::streebog256_of(last);
        let at = new_positions(start, payloads);
        let at0 = new_positions(start, rest);
        let found = parsed(start, anchor_id, payloads).found;
        assert(is_looked_into(start, payloads, n) <==> last.len() <= 65_535
            && !before.bytes.dom().contains(hash)) by {
            if last.len() <= 65_535 && !before.bytes.dom().contains(hash) {
                assert forall|j: int|
                    0 <= j < n && (#[trigger] payloads[j]).len()
                        <= 65_535 implies crate::outside::streebog256_of(payloads[j]) != hash by {
                    assert(rest[j] == payloads[j]);
                }
            }
            if is_looked_into(start, payloads, n) && before.bytes.dom().contains(hash) {
                let i = choose|i: int|
                    0 <= i < rest.len() && (#[trigger] rest[i]).len() <= 65_535
                        && crate::outside::streebog256_of(rest[i]) == hash;
                assert(payloads[i] == rest[i]);
            }
        }
        assert(holds_new_message(start, payloads, n) <==> is_looked_into(start, payloads, n) && (
        message_hash(last) matches Some(root) && !before.roots.dom().contains(root))) by {
            if holds_new_message(start, payloads, n) {
                let root = message_hash(last)->0;
                if before.roots.dom().contains(root) {
                    let i = choose|i: int|
                        0 <= i < rest.len() && #[trigger] is_looked_into(start, rest, i)
                            && message_hash(rest[i]) == Some(root);
                    lemma_judged_by_what_comes_before(start, payloads, i);
                    assert(is_looked_into(start, payloads, i));
                    assert(payloads[i] == rest[i]);
                }
            }
            if is_looked_into(start, payloads, n) && (message_hash(last) matches Some(root)
                && !before.roots.dom().contains(root)) {
                assert forall|j: int|
                    0 <= j < n && #[trigger] is_looked_into(start, payloads, j) implies
                message_hash(payloads[j]) != message_hash(payloads[n]) by {
                    lemma_judged_by_what_comes_before(start, payloads, j);
                    assert(is_looked_into(start, rest, j));
                }
            }
        }
        assert forall|k: int| 0 <= k < at.len() implies 0 <= (#[trigger] at[k]) < payloads.len()
            && found[k] == payloads[at[k]] && holds_new_message(start, payloads, at[k]) by {
            if k < at0.len() {
                assert(at[k] == at0[k]);
                lemma_judged_by_what_comes_before(start, payloads, at0[k]);
            }
        }
        assert forall|i: int|
            0 <= i < payloads.len() && #[trigger] holds_new_message(
                start,
                payloads,
                i,
            ) implies at.contains(i) by {
            if i < n {
                lemma_judged_by_what_comes_before(start, payloads, i);
                assert(holds_new_message(start, rest, i));
                let k = at0.index_of(i);
                assert(at[k] == i);
            } else {
                assert(at[at.len() - 1] == n);
            }
        }
    }
}

/// The messages that are found are exactly the new ones, in the order of their payloads:
/// every payload that holds a new message is among them, at a place of its own, and
/// nothing else is.
pub proof fn law_every_new_message_is_found(
    start: Parsed,
    anchor_id: u32,
    payloads: Seq<Seq<u8>>,
)
    requires
        start.found.len() == 0,
    ensures
        ({
            let found = parsed(start, anchor_id, payloads).found;
            &&& forall|i: int|
                0 <= i < payloads.len() && #[trigger] holds_new_message(start, payloads, i)
                    ==> found.contains(payloads[i])
            &&& exists|at: Seq<int>|
                #![trigger at.len()]
                at.len() == found.len() && (forall|k: int|
                    0 <= k < at.len() ==> 0 <= (#[trigger] at[k]) < payloads.len() && found[k]
                        == payloads[at[k]] && holds_new_message(start, payloads, at[k])) && (
                forall|k: int, l: int| 0 <= k < l < at.len() ==> at[k] < at[l]) && (forall|i: int|
                    0 <= i < payloads.len() && #[trigger] holds_new_message(start, payloads, i)
                        ==> at.contains(i))
        }),
{
    lemma_new_positions(start, anchor_id, payloads);
    let at = new_positions(start, payloads);
    let found = parsed(start, anchor_id, payloads).found;
    assert forall|i: int|
        0 <= i < payloads.len() && #[trigger] holds_new_message(
            start,
            payloads,
            i,
        ) implies found.contains(payloads[i]) by {
        let k = at.index_of(i);
        assert(at[k] == i);
        assert(found[k] == payloads[i]);
    }
    assert(at.len() == found.len());
}

/// Payloads with different bytes and roots that were never seen, each a message that is
/// not too big, are all found.
pub proof fn law_fresh_messages_are_all_found(
    start: Parsed,
    anchor_id: u32,
    payloads: Seq<Seq<u8>>,
)
    requires
        start.found.len() == 0,
        forall|i: int|
            0 <= i < payloads.len() ==> (#[trigger] payloads[i]).len() <= 65_535
                && !start.bytes.dom().contains(crate::outside::streebog256_of(payloads[i])) && (
            message_hash(payloads[i]) matches Some(root) && !start.roots.dom().contains(root)),
        forall|i: int, j: int|
            0 <= i < j < payloads.len() ==> crate::outside::streebog256_of(
                #[trigger] payloads[i],
            ) != crate::outside::streebog256_of(#[trigger] payloads[j]) && message_hash(payloads[i])
                != message_hash(payloads[j]),
    ensures
        parsed(start, anchor_id, payloads).found == payloads,
    decreases payloads.len(),
{
    if payloads.len() > 0 {
        let n = payloads.len() - 1;
        let rest = payloads.drop_last();
        assert forall|i: int| 0 <= i < n implies rest[i] == payloads[i] by {}
        law_fresh_messages_are_all_found(start, anchor_id, rest);
        law_payloads_are_remembered(start, anchor_id, rest);
        let before = parsed(start, anchor_id, rest);
        let last = payloads[n];
        let hash = crate::outside::streebog256_of(last);
        if before.bytes.dom().contains(hash) {
            let i = choose|i: int|
                0 <= i < rest.len() && (#[trigger] rest[i]).len() <= 65_535
                    && crate::outside::streebog256_of(rest[i]) == hash;
            assert(payloads[i] == rest[i]);
        }
        let root = message_hash(last)->0;
        if before.roots.dom().contains(root) {
            let i = choose|i: int|
                0 <= i < rest.len() && #[trigger] is_looked_into(start, rest, i) && message_hash(
                    rest[i],
                ) == Some(root);
            assert(payloads[i] == rest[i]);
        }
        assert(parsed(start, anchor_id, payloads).found =~= payloads);
    } else {
        assert(parsed(start, anchor_id, payloads).found =~= payloads);
    }
}

/// Bytes hold a message exactly if they are a bag of cells with an ordinary root of level
/// zero that is at most 512 deep and begins with the header of an external message; its
/// hash is that of the root.
pub proof fn law_message_is_an_external_one(data: Seq<u8>)
    ensures
        message_hash(data) is Some <==> crate::cells::is_ext_in_message(data) && (
        crate::cells::boc_root(data) matches Some(root) && !root.is_exotic && root.level == 0
            && root.repr_depth <= 512),
        message_hash(data) matches Some(hash) ==> hash == crate::cells::boc_root(
            data,
        )->0.repr_hash,
{
}

/// A hash is forgotten exactly if more rounds than the threshold have passed since it was
/// last seen; what is kept keeps its round.
pub proof fn law_old_hashes_are_forgotten(
    seen: Map<HashBytes, u32>,
    round: u32,
    threshold: u16,
    hash: HashBytes,
)
    ensures
        kept(seen, round, threshold).dom().contains(hash) <==> seen.dom().contains(hash) && round
            - seen[hash] <= threshold,
        kept(seen, round, threshold).dom().contains(hash) ==> kept(seen, round, threshold)[hash]
            == seen[hash],
{
}

/// What was seen is found by the bytes of its hash, with the round in which it was seen.
pub proof fn law_seen_hash_is_found_by_its_bytes(seen: Map<HashBytes, u32>, hash: HashBytes)
    ensures
        by_hash_bytes(seen).dom().contains(hash@) <==> seen.dom().contains(hash),
        seen.dom().contains(hash) ==> by_hash_bytes(seen)[hash@] == seen[hash],
{
    lemma_by_hash_bytes(seen, hash, 0);
    if seen.dom().contains(hash) {
        let h = choose|h: HashBytes| #[trigger] seen.dom().contains(h) && h@ == hash@;
        crate::ids::lemma_hash_ext(h, hash);
    }
}

/// A payload is forgotten about at once exactly if it is longer than 65535 bytes: nothing
/// is remembered of it and nothing is found in it.
pub proof fn law_long_payload_is_ignored(
    start: Parsed,
    anchor_id: u32,
    payloads: Seq<Seq<u8>>,
    data: Seq<u8>,
)
    ensures
        data.len() > 65_535 ==> parsed(start, anchor_id, payloads.push(data)) == parsed(
            start,
            anchor_id,
            payloads,
        ),
        data.len() <= 65_535 ==> parsed(start, anchor_id, payloads.push(data)).bytes.dom().contains(
            crate::outside::streebog256_of(data),
        ),
{
    assert(payloads.push(data).drop_last() =~= payloads);
}

} // verus!

//! Waiting for enough points of a round.
use crate::engine::config::MempoolConfig;
use crate::models::parts::{Round, UnixTime};
use crate::models::point_info::PointInfo;
use vstd::multiset::Multiset;
use vstd::prelude::*;

verus! {

/// How many peers there are, and how many of them are a majority.
#[derive(Clone, Copy, Debug, PartialEq, Eq, Structural)]
pub struct PeerCount {
    pub full: u8,
    pub majority: u8,
}

/// How many points of a round there are. Each is ready, delayed, or still in the
/// channel; there is at most one of each peer, and peers fit in a byte.
#[derive(Clone, Copy, Debug, PartialEq, Eq, Structural)]
pub struct ThresholdCount {
    pub target: u8,
    pub ready: u8,
    pub delayed: u8,
    pub in_channel: u8,
}

impl ThresholdCount {
    /// The four numbers in one, the target in the highest byte.
    #[verifier::opaque]
    pub open spec fn packed(&self) -> u32 {
        (self.target * 0x100_0000 + self.ready * 0x1_0000 + self.delayed * 0x100
            + self.in_channel) as u32
    }

    /// The numbers that are packed in one.
    #[verifier::opaque]
    pub open spec fn unpacked(packed: u32) -> ThresholdCount {
        ThresholdCount {
            target: (packed / 0x100_0000) as u8,
            ready: (packed / 0x1_0000 % 0x100) as u8,
            delayed: (packed / 0x100 % 0x100) as u8,
            in_channel: (packed % 0x100) as u8,
        }
    }

    /// Packs the four numbers.
    pub fn pack(&self) -> (r: u32)
        ensures
            r == self.packed(),
    {
        reveal(ThresholdCount::packed);
        self.target as u32 * 0x100_0000 + self.ready as u32 * 0x1_0000 + self.delayed as u32
            * 0x100 + self.in_channel as u32
    }

    /// Unpacks the four numbers.
    pub fn unpack(packed: u32) -> (r: Self)
        ensures
            r == Self::unpacked(packed),
    {
        reveal(ThresholdCount::unpacked);
        ThresholdCount {
            target: (packed / 0x100_0000) as u8,
            ready: (packed / 0x1_0000 % 0x100) as u8,
            delayed: (packed / 0x100 % 0x100) as u8,
            in_channel: (packed % 0x100) as u8,
        }
    }

    /// How many points there are in all.
    pub fn total(&self) -> (r: u8)
        requires
            self.ready + self.delayed + self.in_channel <= u8::MAX,
        ensures
            r == self.ready + self.delayed + self.in_channel,
    {
        self.ready + self.delayed + self.in_channel
    }

    /// Counts one more point in the channel.
    pub fn add_one_in_channel(packed: u32) -> (r: Option<u32>)
        ensures
            ({
                let count = Self::unpacked(packed);
                r == (if count.in_channel == u8::MAX {
                    None::<u32>
                } else {
                    Some(
                        (ThresholdCount {
                            in_channel: (count.in_channel + 1) as u8,
                            ..count
                        }).packed(),
                    )
                })
            }),
    {
        let mut count = Self::unpack(packed);
        if count.in_channel == u8::MAX {
            return None;
        }
        count.in_channel = count.in_channel + 1;
        Some(count.pack())
    }

    /// Sets the numbers of ready and delayed points, and takes points out of the
    /// channel, unless there are fewer in it.
    pub fn set_decrease(packed: u32, ready: u8, delayed: u8, removed_from_channel: u8) -> (r:
        Option<u32>)
        ensures
            ({
                let count = Self::unpacked(packed);
                r == (if count.in_channel < removed_from_channel {
                    None::<u32>
                } else {
                    Some(
                        (ThresholdCount {
                            target: count.target,
                            ready,
                            delayed,
                            in_channel: (count.in_channel - removed_from_channel) as u8,
                        }).packed(),
                    )
                })
            }),
    {
        let mut count = Self::unpack(packed);
        if count.in_channel < removed_from_channel {
            return None;
        }
        count.ready = ready;
        count.delayed = delayed;
        count.in_channel = count.in_channel - removed_from_channel;
        Some(count.pack())
    }
}

/// Packing and unpacking undo each other.
pub proof fn law_pack_and_unpack(count: ThresholdCount, packed: u32)
    ensures
        ThresholdCount::unpacked(count.packed()) == count,
        ThresholdCount::unpacked(packed).packed() == packed,
{
    reveal(ThresholdCount::packed);
    reveal(ThresholdCount::unpacked);
    let t = count.target as u32;
    let r = count.ready as u32;
    let d = count.delayed as u32;
    let c = count.in_channel as u32;
    assert(({
        let p = (t * 0x100_0000 + r * 0x1_0000 + d * 0x100 + c) as u32;
        &&& p / 0x100_0000 == t
        &&& p / 0x1_0000 % 0x100 == r
        &&& p / 0x100 % 0x100 == d
        &&& p % 0x100 == c
    })) by (bit_vector)
        requires
            t < 256,
            r < 256,
            d < 256,
            c < 256,
    ;
    assert(packed == (packed / 0x100_0000) * 0x100_0000 + (packed / 0x1_0000 % 0x100) * 0x1_0000 + (
    packed / 0x100 % 0x100) * 0x100 + packed % 0x100) by (bit_vector);
    assert(packed / 0x100_0000 < 256) by (bit_vector);
}

/// Every point that was added is counted once.
pub proof fn law_every_point_is_counted(threshold: Threshold)
    requires
        threshold.wf(),
    ensures
        ({
            let count = ThresholdCount::unpacked(threshold.count);
            count.ready + count.delayed + count.in_channel == threshold.items().len()
        }),
{
    broadcast use vstd::multiset::group_multiset_axioms;

    law_pack_and_unpack(threshold.counted(), threshold.count);
    vstd::seq_lib::to_multiset_len(threshold.ready@);
    vstd::seq_lib::to_multiset_len(threshold.delayed@);
    vstd::seq_lib::to_multiset_len(threshold.channel@);
}

/// Points of a round on their way to be used. A point from the future is delayed
/// until its time.
#[derive(Debug)]
pub struct Threshold {
    pub round: Round,
    pub target_count: usize,
    pub full: usize,
    pub clock_skew: UnixTime,
    /// The packed [`ThresholdCount`].
    pub count: u32,
    pub is_reached: bool,
    pub ready: Vec<PointInfo>,
    /// In ascending order of times.
    pub delayed: Vec<PointInfo>,
    /// In order of arrival.
    pub channel: Vec<PointInfo>,
}

/// The time of a point.
pub open spec fn time_of(info: PointInfo) -> u64 {
    info.data.time.0
}

/// The greatest time that is not in the future: that of the clock, and the skew
/// that is allowed for.
pub open spec fn end_of_present(now: UnixTime, clock_skew: UnixTime) -> u64 {
    if now.0 + clock_skew.0 > u64::MAX {
        u64::MAX
    } else {
        (now.0 + clock_skew.0) as u64
    }
}

/// The points of a list that are not after a time.
pub open spec fn due(list: Seq<PointInfo>, max_time: u64) -> Seq<PointInfo> {
    list.filter(|info: PointInfo| time_of(info) <= max_time)
}

/// Whether points are in order of their times.
pub open spec fn by_time(list: Seq<PointInfo>) -> bool {
    forall|i: int, j: int|
        0 <= i < j < list.len() ==> time_of(#[trigger] list[i]) <= time_of(#[trigger] list[j])
}

/// Whether no author occurs twice.
pub open spec fn one_per_author(items: Multiset<PointInfo>) -> bool {
    &&& forall|x: PointInfo| #[trigger] items.count(x) <= 1
    &&& forall|x: PointInfo, y: PointInfo|
        #![trigger items.count(x), items.count(y)]
        items.count(x) > 0 && items.count(y) > 0 && x.author == y.author ==> x == y
}

/// An empty list has no items.
proof fn lemma_no_items(list: Seq<PointInfo>)
    requires
        list.len() == 0,
    ensures
        list.to_multiset() == Multiset::<PointInfo>::empty(),
{
    vstd::seq_lib::to_multiset_len(list);
    vstd::multiset::lemma_multiset_empty_len(list.to_multiset());
}

/// The points of a list that are due, the first one first.
proof fn lemma_due_first(list: Seq<PointInfo>, max_time: u64)
    requires
        list.len() > 0,
    ensures
        due(list, max_time) == (if time_of(list[0]) <= max_time {
            seq![list[0]] + due(list.drop_first(), max_time)
        } else {
            due(list.drop_first(), max_time)
        }),
{
    let pred = |info: PointInfo| time_of(info) <= max_time;
    let first = seq![list[0]];
    assert(first + list.drop_first() =~= list);
    Seq::filter_distributes_over_add(first, list.drop_first(), pred);
    reveal(Seq::filter);
    assert(first.drop_last() =~= Seq::<PointInfo>::empty());
    assert(first.drop_last().filter(pred) =~= Seq::<PointInfo>::empty());
    assert(first.filter(pred) =~= (if pred(list[0]) {
        first
    } else {
        Seq::<PointInfo>::empty()
    }));
    assert(Seq::<PointInfo>::empty() + due(list.drop_first(), max_time) =~= due(
        list.drop_first(),
        max_time,
    ));
}

/// Of a list of later points none is due.
proof fn lemma_none_due(list: Seq<PointInfo>, max_time: u64)
    requires
        forall|i: int| 0 <= i < list.len() ==> time_of(#[trigger] list[i]) > max_time,
    ensures
        due(list, max_time) == Seq::<PointInfo>::empty(),
    decreases list.len(),
{
    reveal(Seq::filter);
    if list.len() > 0 {
        lemma_none_due(list.drop_last(), max_time);
    }
}

impl Threshold {
    /// All points that were added.
    pub open spec fn items(&self) -> Multiset<PointInfo> {
        self.ready@.to_multiset().add(self.delayed@.to_multiset()).add(self.channel@.to_multiset())
    }

    /// How many points the lists hold.
    pub open spec fn counted(&self) -> ThresholdCount {
        ThresholdCount {
            target: self.target_count as u8,
            ready: self.ready@.len() as u8,
            delayed: self.delayed@.len() as u8,
            in_channel: self.channel@.len() as u8,
        }
    }

    /// The invariant: the count is that of the lists, and each point is in
    /// exactly one of them.
    pub open spec fn wf(&self) -> bool {
        &&& self.target_count <= self.full <= u8::MAX
        &&& self.ready@.len() + self.delayed@.len() + self.channel@.len() <= self.full
        &&& self.count == self.counted().packed()
        &&& by_time(self.delayed@)
        &&& one_per_author(self.items())
        &&& forall|x: PointInfo| #[trigger] self.items().count(x) > 0 ==> x.round == self.round
        &&& self.is_reached ==> self.ready@.len() >= self.target_count
    }

    /// Whether nothing but the lists and the count differs.
    pub open spec fn same_settings(&self, other: &Self) -> bool {
        &&& self.round == other.round
        &&& self.target_count == other.target_count
        &&& self.full == other.full
        &&& self.clock_skew == other.clock_skew
    }

    /// An empty threshold.
    pub fn new(round: Round, peer_count: PeerCount, conf: &MempoolConfig) -> (r: Self)
        requires
            peer_count.majority <= peer_count.full,
        ensures
            r.wf(),
            r.round == round,
            r.target_count == peer_count.majority,
            r.full == peer_count.full,
            r.clock_skew.0 == conf.consensus.clock_skew_millis,
            !r.is_reached,
            r.ready@.len() == 0,
            r.delayed@.len() == 0,
            r.channel@.len() == 0,
    {
        let count = ThresholdCount {
            target: peer_count.majority,
            ready: 0,
            delayed: 0,
            in_channel: 0,
        };
        let r = Threshold {
            round,
            target_count: peer_count.majority as usize,
            full: peer_count.full as usize,
            clock_skew: UnixTime::from_millis(conf.consensus.clock_skew_millis as u64),
            count: count.pack(),
            is_reached: false,
            ready: Vec::new(),
            delayed: Vec::new(),
            channel: Vec::new(),
        };
        proof {
            broadcast use vstd::multiset::group_multiset_axioms;

            lemma_no_items(r.ready@);
            lemma_no_items(r.delayed@);
            lemma_no_items(r.channel@);
            assert(r.items() =~= Multiset::<PointInfo>::empty());
        }
        r
    }

    /// How many points there are.
    pub fn count(&self) -> (r: ThresholdCount)
        ensures
            r == ThresholdCount::unpacked(self.count),
            self.wf() ==> r == self.counted(),
    {
        proof {
            law_pack_and_unpack(self.counted(), self.count);
        }
        ThresholdCount::unpack(self.count)
    }

    /// Adds a point of the round. There must be none of its author yet, and room
    /// for one more.
    pub fn add(&mut self, info: PointInfo)
        requires
            old(self).wf(),
            info.round == old(self).round,
            old(self).ready@.len() + old(self).delayed@.len() + old(self).channel@.len() < old(
                self,
            ).full,
            forall|x: PointInfo| #[trigger]
                old(self).items().count(x) > 0 ==> x.author != info.author,
        ensures
            final(self).wf(),
            final(self).same_settings(old(self)),
            final(self).is_reached == old(self).is_reached,
            final(self).ready == old(self).ready,
            final(self).delayed == old(self).delayed,
            final(self).channel@ == old(self).channel@.push(info),
            final(self).items() == old(self).items().insert(info),
    {
        proof {
            law_pack_and_unpack(self.counted(), self.count);
        }
        let ghost before = self.items();
        if let Some(count) = ThresholdCount::add_one_in_channel(self.count) {
            self.count = count;
        }
        self.channel.push(info);
        proof {
            broadcast use vstd::multiset::group_multiset_axioms;

            vstd::seq_lib::to_multiset_build(old(self).channel@, info);
            assert(self.items() =~= before.insert(info));
        }
    }

    /// Makes a point ready.
    fn push_ready(&mut self, info: PointInfo)
        ensures
            final(self).ready@ == old(self).ready@.push(info),
            *final(self) == (Threshold { ready: final(self).ready, ..*old(self) }),
    {
        self.ready.push(info);
    }

    /// Puts a point among the delayed ones, in order of time.
    fn push_delayed(&mut self, info: PointInfo)
        requires
            by_time(old(self).delayed@),
        ensures
            by_time(final(self).delayed@),
            final(self).delayed@.len() == old(self).delayed@.len() + 1,
            final(self).delayed@.to_multiset() == old(self).delayed@.to_multiset().insert(info),
            *final(self) == (Threshold { delayed: final(self).delayed, ..*old(self) }),
    {
        let ghost before = self.delayed@;
        let mut i: usize = 0;
        while i < self.delayed.len() && self.delayed[i].data.time.0 <= info.data.time.0
            invariant
                *self == *old(self),
                i <= self.delayed@.len(),
                forall|j: int| 0 <= j < i ==> time_of(#[trigger] self.delayed@[j]) <= time_of(info),
            decreases self.delayed@.len() - i,
        {
            i = i + 1;
        }
        proof {
            vstd::seq_lib::to_multiset_insert(before, i as int, info);
        }
        self.delayed.insert(i, info);
        proof {
            let after = self.delayed@;
            assert forall|a: int, b: int| 0 <= a < b < after.len() implies time_of(
                #[trigger] after[a],
            ) <= time_of(#[trigger] after[b]) by {
                let x = if a < i { a } else { a - 1 };
                let y = if b < i { b } else { b - 1 };
                if a != i {
                    assert(after[a] == before[x]);
                }
                if b != i {
                    assert(after[b] == before[y]);
                }
                if a == i {
                    assert(time_of(before[i as int]) <= time_of(before[y]));
                }
            }
        }
    }

    /// Takes the first point out of the channel: it becomes ready, or is delayed
    /// if it is from the future. `max_time` is the last known end of the present;
    /// it is renewed from the clock when the point does not fit. The end of the
    /// present is returned.
    pub fn receive(&mut self, max_time: UnixTime, now: UnixTime) -> (r: UnixTime)
        requires
            old(self).wf(),
            old(self).channel@.len() > 0,
        ensures
            final(self).wf(),
            final(self).same_settings(old(self)),
            final(self).is_reached == old(self).is_reached,
            final(self).channel@ == old(self).channel@.drop_first(),
            final(self).items() == old(self).items(),
            ({
                let info = old(self).channel@[0];
                &&& r.0 == (if time_of(info) > max_time.0 {
                    end_of_present(now, old(self).clock_skew)
                } else {
                    max_time.0
                })
                &&& if time_of(info) > r.0 {
                    &&& final(self).ready@ == old(self).ready@
                    &&& final(self).delayed@.to_multiset()
                        == old(self).delayed@.to_multiset().insert(info)
                } else {
                    &&& final(self).ready@ == old(self).ready@.push(info)
                    &&& final(self).delayed@ == old(self).delayed@
                }
            }),
    {
        proof {
            law_pack_and_unpack(self.counted(), self.count);
        }
        let ghost ready = self.ready@;
        let ghost delayed = self.delayed@;
        let ghost channel = self.channel@;
        let ghost before = self.items();
        let info = self.channel.remove(0);
        let mut max_time = max_time;
        if info.data.time.0 > max_time.0 {
            max_time = now + self.clock_skew;
        }
        if info.data.time.0 > max_time.0 {
            self.push_delayed(info);
        } else {
            self.push_ready(info);
        }
        proof {
            broadcast use vstd::multiset::group_multiset_axioms;

            vstd::seq_lib::to_multiset_remove(channel, 0);
            vstd::seq_lib::to_multiset_build(ready, info);
            vstd::seq_lib::to_multiset_contains(channel, info);
            assert(channel.contains(channel[0]));
            assert(self.items() =~= before);
            assert(channel.remove(0) =~= channel.drop_first());
        }
        if let Some(count) = ThresholdCount::set_decrease(
            self.count,
            self.ready.len() as u8,
            self.delayed.len() as u8,
            1,
        ) {
            self.count = count;
        }
        max_time
    }

    /// Makes the first delayed point ready, after its time has come.
    pub fn expire(&mut self)
        requires
            old(self).wf(),
            old(self).delayed@.len() > 0,
        ensures
            final(self).wf(),
            final(self).same_settings(old(self)),
            final(self).is_reached == old(self).is_reached,
            final(self).ready@ == old(self).ready@.push(old(self).delayed@[0]),
            final(self).delayed@ == old(self).delayed@.drop_first(),
            final(self).channel == old(self).channel,
            final(self).items() == old(self).items(),
    {
        proof {
            law_pack_and_unpack(self.counted(), self.count);
        }
        let ghost before = self.items();
        self.expire_one();
        if let Some(count) = ThresholdCount::set_decrease(
            self.count,
            self.ready.len() as u8,
            self.delayed.len() as u8,
            0,
        ) {
            self.count = count;
        }
        assert(self.items() == before);
    }

    /// Moves the first delayed point, leaving the count as it is.
    fn expire_one(&mut self)
        requires
            by_time(old(self).delayed@),
            old(self).delayed@.len() > 0,
        ensures
            by_time(final(self).delayed@),
            final(self).ready@ == old(self).ready@.push(old(self).delayed@[0]),
            final(self).delayed@ == old(self).delayed@.drop_first(),
            final(self).items() == old(self).items(),
            *final(self) == (Threshold {
                ready: final(self).ready,
                delayed: final(self).delayed,
                ..*old(self)
            }),
    {
        let ghost ready = self.ready@;
        let ghost delayed = self.delayed@;
        let ghost channel = self.channel@;
        let info = self.delayed.remove(0);
        self.push_ready(info);
        proof {
            broadcast use vstd::multiset::group_multiset_axioms;

            vstd::seq_lib::to_multiset_remove(delayed, 0);
            vstd::seq_lib::to_multiset_build(ready, info);
            vstd::seq_lib::to_multiset_contains(delayed, info);
            assert(delayed.contains(delayed[0]));
            assert(delayed.remove(0) =~= delayed.drop_first());
            assert(self.items() =~= old(self).items());
            let after = self.delayed@;
            assert forall|a: int, b: int| 0 <= a < b < after.len() implies time_of(
                #[trigger] after[a],
            ) <= time_of(#[trigger] after[b]) by {
                assert(after[a] == delayed[a + 1]);
                assert(after[b] == delayed[b + 1]);
            }
        }
    }

    /// Whether enough points are ready. Once reached, a threshold stays so.
    pub fn check_reached(&mut self) -> (r: bool)
        requires
            old(self).wf(),
        ensures
            final(self).wf(),
            r == (old(self).ready@.len() >= old(self).target_count),
            final(self).is_reached == r,
            *final(self) == (Threshold { is_reached: final(self).is_reached, ..*old(self) }),
    {
        if self.ready.len() >= self.target_count {
            self.is_reached = true;
            true
        } else {
            false
        }
    }

    /// Makes every delayed point ready whose time has come, leaving the count as
    /// it is.
    fn drain_delayed(&mut self, max_time: UnixTime)
        requires
            by_time(old(self).delayed@),
        ensures
            by_time(final(self).delayed@),
            final(self).ready@ == old(self).ready@ + due(old(self).delayed@, max_time.0),
            final(self).ready@.len() + final(self).delayed@.len() == old(self).ready@.len() + old(
                self,
            ).delayed@.len(),
            forall|i: int|
                0 <= i < final(self).delayed@.len() ==> time_of(#[trigger] final(self).delayed@[i])
                    > max_time.0,
            final(self).items() == old(self).items(),
            *final(self) == (Threshold {
                ready: final(self).ready,
                delayed: final(self).delayed,
                ..*old(self)
            }),
    {
        let ghost all = due(self.delayed@, max_time.0);
        assert(self.ready@ + all =~= old(self).ready@ + due(old(self).delayed@, max_time.0));
        while self.delayed.len() > 0 && self.delayed[0].data.time.0 <= max_time.0
            invariant
                by_time(self.delayed@),
                self.ready@ + due(self.delayed@, max_time.0) == old(self).ready@ + due(
                    old(self).delayed@,
                    max_time.0,
                ),
                self.ready@.len() + self.delayed@.len() == old(self).ready@.len() + old(
                    self,
                ).delayed@.len(),
                self.items() == old(self).items(),
                *self == (Threshold { ready: self.ready, delayed: self.delayed, ..*old(self) }),
            decreases self.delayed@.len(),
        {
            let ghost ready = self.ready@;
            let ghost delayed = self.delayed@;
            proof {
                lemma_due_first(delayed, max_time.0);
            }
            self.expire_one();
            assert(ready.push(delayed[0]) + due(delayed.drop_first(), max_time.0) =~= ready + (seq![
                delayed[0],
            ] + due(delayed.drop_first(), max_time.0)));
        }
        proof {
            if self.delayed@.len() > 0 {
                assert forall|i: int| 0 <= i < self.delayed@.len() implies time_of(
                    #[trigger] self.delayed@[i],
                ) > max_time.0 by {
                    assert(time_of(self.delayed@[0]) > max_time.0);
                }
            }
            lemma_none_due(self.delayed@, max_time.0);
            assert(self.ready@ + Seq::<PointInfo>::empty() =~= self.ready@);
        }
    }

    /// Empties the channel, leaving the count as it is, and says how many points
    /// were in it.
    fn drain_channel(&mut self, max_time: UnixTime) -> (r: u8)
        requires
            by_time(old(self).delayed@),
            forall|i: int|
                0 <= i < old(self).delayed@.len() ==> time_of(#[trigger] old(self).delayed@[i])
                    > max_time.0,
            old(self).channel@.len() <= u8::MAX,
        ensures
            by_time(final(self).delayed@),
            final(self).ready@ == old(self).ready@ + due(old(self).channel@, max_time.0),
            final(self).channel@.len() == 0,
            final(self).ready@.len() + final(self).delayed@.len() == old(self).ready@.len() + old(
                self,
            ).delayed@.len() + old(self).channel@.len(),
            forall|i: int|
                0 <= i < final(self).delayed@.len() ==> time_of(#[trigger] final(self).delayed@[i])
                    > max_time.0,
            final(self).items() == old(self).items(),
            *final(self) == (Threshold {
                ready: final(self).ready,
                delayed: final(self).delayed,
                channel: final(self).channel,
                ..*old(self)
            }),
            r == old(self).channel@.len(),
    {
        let mut removed: u8 = 0;
        while self.channel.len() > 0
            invariant
                by_time(self.delayed@),
                self.ready@ + due(self.channel@, max_time.0) == old(self).ready@ + due(
                    old(self).channel@,
                    max_time.0,
                ),
                self.ready@.len() + self.delayed@.len() + self.channel@.len() == old(
                    self,
                ).ready@.len() + old(self).delayed@.len() + old(self).channel@.len(),
                removed + self.channel@.len() == old(self).channel@.len(),
                old(self).channel@.len() <= u8::MAX,
                forall|i: int|
                    0 <= i < self.delayed@.len() ==> time_of(#[trigger] self.delayed@[i])
                        > max_time.0,
                self.items() == old(self).items(),
                *self == (Threshold {
                    ready: self.ready,
                    delayed: self.delayed,
                    channel: self.channel,
                    ..*old(self)
                }),
            decreases self.channel@.len(),
        {
            let ghost ready = self.ready@;
            let ghost delayed = self.delayed@;
            let ghost channel = self.channel@;
            let ghost before = self.items();
            proof {
                lemma_due_first(channel, max_time.0);
            }
            let info = self.channel.remove(0);
            removed = removed + 1;
            if info.data.time.0 > max_time.0 {
                self.push_delayed(info);
            } else {
                self.push_ready(info);
            }
            proof {
                broadcast use vstd::multiset::group_multiset_axioms;

                vstd::seq_lib::to_multiset_remove(channel, 0);
                vstd::seq_lib::to_multiset_build(ready, info);
                vstd::seq_lib::to_multiset_contains(channel, info);
                assert(channel.contains(channel[0]));
                assert(channel.remove(0) =~= channel.drop_first());
                assert(self.items() =~= before);
                let rest = due(channel.drop_first(), max_time.0);
                if time_of(info) <= max_time.0 {
                    assert(ready.push(info) + rest =~= ready + (seq![info] + rest));
                } else {
                    assert forall|i: int| 0 <= i < self.delayed@.len() implies time_of(
                        #[trigger] self.delayed@[i],
                    ) > max_time.0 by {
                        let x = self.delayed@[i];
                        vstd::seq_lib::to_multiset_contains(self.delayed@, x);
                        vstd::seq_lib::to_multiset_contains(delayed, x);
                        assert(self.delayed@.contains(x));
                    }
                }
            }
        }
        proof {
            lemma_none_due(self.channel@, max_time.0);
            assert(self.ready@ + Seq::<PointInfo>::empty() =~= self.ready@);
        }
        removed
    }

    /// Empties the channel and makes every point ready whose time has come. Only
    /// a reached threshold can be asked. The ready points are what is returned.
    pub fn get_reached(&mut self, now: UnixTime) -> (r: &Vec<PointInfo>)
        requires
            old(self).wf(),
            old(self).is_reached,
        ensures
            final(self).wf(),
            final(self).same_settings(old(self)),
            final(self).is_reached,
            final(self).items() == old(self).items(),
            final(self).channel@.len() == 0,
            ({
                let max_time = end_of_present(now, old(self).clock_skew);
                &&& final(self).ready@ == old(self).ready@ + due(old(self).delayed@, max_time)
                    + due(old(self).channel@, max_time)
                &&& forall|i: int|
                    0 <= i < final(self).delayed@.len() ==> time_of(
                        #[trigger] final(self).delayed@[i],
                    ) > max_time
            }),
            r@ == final(self).ready@,
            r@.len() >= old(self).target_count,
    {
        proof {
            law_pack_and_unpack(self.counted(), self.count);
        }
        let max_time = now + self.clock_skew;
        self.drain_delayed(max_time);
        let removed: u8 = self.drain_channel(max_time);
        if let Some(count) = ThresholdCount::set_decrease(
            self.count,
            self.ready.len() as u8,
            self.delayed.len() as u8,
            removed,
        ) {
            self.count = count;
        }
        &self.ready
    }
}

/// Each number has a byte of its own, the target the highest one, then the ready
/// points, the delayed ones and those in the channel. So one point more in the channel
/// makes the packed number greater by one.
pub proof fn law_packed_numbers_have_their_bytes(count: ThresholdCount)
    ensures
        count.packed() / 0x100_0000 == count.target,
        count.packed() / 0x1_0000 % 256 == count.ready,
        count.packed() / 0x100 % 256 == count.delayed,
        count.packed() % 256 == count.in_channel,
        count.in_channel < 255 ==> (ThresholdCount {
            in_channel: (count.in_channel + 1) as u8,
            ..count
        }).packed() == count.packed() + 1,
{
    law_pack_and_unpack(count, 0);
    reveal(ThresholdCount::packed);
    reveal(ThresholdCount::unpacked);
}

/// A point is in the future exactly if its time is later than the clock and the skew
/// that is allowed for tell.
pub proof fn law_future_begins_after_the_skew(info: PointInfo, now: UnixTime, clock_skew: UnixTime)
    ensures
        time_of(info) <= end_of_present(now, clock_skew) <==> info.data.time.0 <= now.0
            + clock_skew.0,
{
}

/// The points that are due are exactly those whose time has come, each as often as it
/// is listed.
pub proof fn law_due_points_are_in_time(list: Seq<PointInfo>, max_time: u64, info: PointInfo)
    ensures
        due(list, max_time).contains(info) <==> list.contains(info) && info.data.time.0 <= max_time,
        due(list, max_time).to_multiset().count(info) == if info.data.time.0 <= max_time {
            list.to_multiset().count(info)
        } else {
            0
        },
    decreases list.len(),
{
    broadcast use vstd::multiset::group_multiset_axioms;

    let pred = |info: PointInfo| time_of(info) <= max_time;
    reveal(Seq::filter);
    if list.len() == 0 {
        assert(due(list, max_time) =~= list);
        lemma_no_items(list);
    } else {
        let rest = list.drop_last();
        law_due_points_are_in_time(rest, max_time, info);
        assert(rest.push(list.last()) =~= list);
        vstd::seq_lib::to_multiset_build(rest, list.last());
        vstd::seq_lib::to_multiset_build(due(rest, max_time), list.last());
    }
    vstd::seq_lib::to_multiset_contains(list, info);
    vstd::seq_lib::to_multiset_contains(due(list, max_time), info);
}

/// Delayed points are in order of their times, there is at most one point of each author,
/// and all are of the round. A threshold that is reached has as many ready points as are
/// wanted.
pub proof fn law_points_are_kept_in_order(
    threshold: Threshold,
    i: int,
    j: int,
    x: PointInfo,
    y: PointInfo,
)
    requires
        threshold.wf(),
    ensures
        0 <= i < j < threshold.delayed@.len() ==> threshold.delayed@[i].data.time.0
            <= threshold.delayed@[j].data.time.0,
        threshold.items().count(x) <= 1,
        threshold.items().count(x) > 0 && threshold.items().count(y) > 0 && x.author == y.author
            ==> x == y,
        threshold.items().count(x) > 0 ==> x.round == threshold.round,
        threshold.is_reached ==> threshold.ready@.len() >= threshold.target_count,
{
}

/// What a threshold waits for stays: its round, how many points are wanted and can come,
/// and the skew that is allowed for.
pub proof fn law_threshold_keeps_its_target(a: Threshold, b: Threshold)
    requires
        a.same_settings(&b),
    ensures
        a.round == b.round,
        a.target_count == b.target_count,
        a.full == b.full,
        a.clock_skew == b.clock_skew,
{
}

} // verus!

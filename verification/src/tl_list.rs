//! Counted lists of items whose order may be part of the format.
use crate::tl::{read_u32, write_u32, TlError, TlScheme};
use vstd::prelude::*;

verus! {

/// An item of a list. `prev` is the item before it, which an ordered format
/// compares it with.
pub trait TlItem: Sized {
    /// The mathematical content of an item.
    type Model;

    /// The content of this item.
    spec fn model(&self) -> Self::Model;

    /// Whether the fields that a format counts in 32 bits fit them.
    spec fn fits(m: Self::Model) -> bool;

    /// The bytes of an item.
    spec fn enc(ids: TlScheme, m: Self::Model) -> Seq<u8>;

    /// What is read at a position.
    spec fn dec(ids: TlScheme, prev: Option<Self::Model>, s: Seq<u8>, p: int) -> Result<
        (Self::Model, int),
        TlError,
    >;

    /// Whether an item is acceptable after the one before it.
    spec fn valid(ids: TlScheme, prev: Option<Self::Model>, m: Self::Model) -> bool;

    /// Whether the bytes of an item are determined by its content alone.
    spec fn strict() -> bool;

    /// A written item is read back.
    proof fn lemma_round_trip(
        ids: TlScheme,
        prev: Option<Self::Model>,
        m: Self::Model,
        s: Seq<u8>,
        p: int,
    )
        requires
            Self::valid(ids, prev, m),
            crate::tl::stands_at(s, p, Self::enc(ids, m)),
        ensures
            Self::dec(ids, prev, s, p) == Ok::<(Self::Model, int), TlError>(
                (m, p + Self::enc(ids, m).len()),
            ),
    ;

    /// What is read is acceptable, and was written so.
    proof fn lemma_canonical(ids: TlScheme, prev: Option<Self::Model>, s: Seq<u8>, p: int)
        requires
            0 <= p <= s.len(),
            Self::dec(ids, prev, s, p) is Ok,
        ensures
            ({
                let (m, e) = Self::dec(ids, prev, s, p)->Ok_0;
                &&& Self::valid(ids, prev, m)
                &&& e == p + Self::enc(ids, m).len()
                &&& e <= s.len()
                &&& Self::strict() ==> crate::tl::stands_at(s, p, Self::enc(ids, m))
            }),
    ;

    /// Writes the item.
    fn write(&self, ids: &TlScheme, packet: &mut Vec<u8>)
        requires
            Self::fits(self.model()),
        ensures
            final(packet)@ == old(packet)@ + Self::enc(*ids, self.model()),
    ;

    /// The number of bytes of the item.
    fn size(&self, ids: &TlScheme) -> (r: usize)
        requires
            Self::enc(*ids, self.model()).len() <= usize::MAX,
        ensures
            r == Self::enc(*ids, self.model()).len(),
    ;

    /// Reads an item.
    fn read(ids: &TlScheme, prev: Option<&Self>, data: &[u8], pos: usize) -> (r: Result<
        (Self, usize),
        TlError,
    >)
        requires
            pos <= data@.len(),
        ensures
            match (
                r,
                Self::dec(
                    *ids,
                    (match prev {
                        Some(x) => Some(x.model()),
                        None => None,
                    }),
                    data@,
                    pos as int,
                ),
            ) {
                (Ok((v, e)), Ok((m, e2))) => v.model() == m && e == e2,
                (Err(a), Err(b)) => a == b,
                _ => false,
            },
    ;
}

/// The content of an optional item.
pub open spec fn opt_model<T: TlItem>(prev: Option<&T>) -> Option<T::Model> {
    match prev {
        Some(x) => Some(x.model()),
        None => None,
    }
}

/// The contents of the items of a list.
pub open spec fn models<T: TlItem>(items: Seq<T>) -> Seq<T::Model> {
    items.map_values(|t: T| t.model())
}

/// Items one after the other.
pub open spec fn enc_items<T: TlItem>(ids: TlScheme, ms: Seq<T::Model>) -> Seq<u8>
    decreases ms.len(),
{
    if ms.len() == 0 {
        Seq::empty()
    } else {
        T::enc(ids, ms[0]) + enc_items::<T>(ids, ms.drop_first())
    }
}

/// Whether each item is acceptable after the one before it.
pub open spec fn valid_items<T: TlItem>(
    ids: TlScheme,
    prev: Option<T::Model>,
    ms: Seq<T::Model>,
) -> bool
    decreases ms.len(),
{
    ms.len() == 0 || (T::valid(ids, prev, ms[0]) && valid_items::<T>(
        ids,
        Some(ms[0]),
        ms.drop_first(),
    ))
}

/// Items put before those that are read next.
pub open spec fn prepend<M>(first: Seq<M>, rest: Result<(Seq<M>, int), TlError>) -> Result<
    (Seq<M>, int),
    TlError,
> {
    match rest {
        Ok((ms, e)) => Ok((first + ms, e)),
        Err(e) => Err(e),
    }
}

/// Reads `n` items one after the other.
pub open spec fn dec_items<T: TlItem>(
    ids: TlScheme,
    prev: Option<T::Model>,
    n: nat,
    s: Seq<u8>,
    p: int,
) -> Result<(Seq<T::Model>, int), TlError>
    decreases n,
{
    if n == 0 {
        Ok((Seq::empty(), p))
    } else {
        match T::dec(ids, prev, s, p) {
            Err(e) => Err(e),
            Ok((m, p1)) => prepend(
                seq![m],
                dec_items::<T>(ids, Some(m), (n - 1) as nat, s, p1),
            ),
        }
    }
}

/// The bytes of a list: the number of items, then the items.
pub open spec fn enc_list<T: TlItem>(ids: TlScheme, ms: Seq<T::Model>) -> Seq<u8> {
    crate::tl::le32(ms.len() as u32) + enc_items::<T>(ids, ms)
}

/// Whether a list can be written and read back.
pub open spec fn valid_list<T: TlItem>(ids: TlScheme, max: u32, ms: Seq<T::Model>) -> bool {
    ms.len() <= max && valid_items::<T>(ids, None, ms)
}

/// Whether a list can be written.
pub open spec fn list_fits<T: TlItem>(ms: Seq<T::Model>) -> bool {
    &&& ms.len() <= u32::MAX
    &&& forall|i: int| 0 <= i < ms.len() ==> T::fits(#[trigger] ms[i])
}

/// Reads a list of at most `max` items.
pub open spec fn dec_list<T: TlItem>(ids: TlScheme, max: u32, s: Seq<u8>, p: int) -> Result<
    (Seq<T::Model>, int),
    TlError,
> {
    match crate::tl::get_u32(s, p) {
        Err(e) => Err(e),
        Ok((n, p1)) => if n > max {
            Err(TlError::InvalidData)
        } else {
            dec_items::<T>(ids, None, n as nat, s, p1)
        },
    }
}

/// The bytes of one more item come last.
pub proof fn lemma_enc_items_push<T: TlItem>(ids: TlScheme, ms: Seq<T::Model>, m: T::Model)
    ensures
        enc_items::<T>(ids, ms.push(m)) == enc_items::<T>(ids, ms) + T::enc(ids, m),
    decreases ms.len(),
{
    if ms.len() == 0 {
        reveal_with_fuel(enc_items, 2);
        assert(ms.push(m).drop_first() =~= Seq::<T::Model>::empty());
        assert(enc_items::<T>(ids, ms.push(m)) =~= T::enc(ids, m));
    } else {
        assert(ms.push(m).drop_first() =~= ms.drop_first().push(m));
        lemma_enc_items_push::<T>(ids, ms.drop_first(), m);
        assert(enc_items::<T>(ids, ms.push(m)) =~= enc_items::<T>(ids, ms) + T::enc(ids, m));
    }
}

/// The bytes of two lists of items, one after the other.
pub proof fn lemma_enc_items_split<T: TlItem>(ids: TlScheme, ms: Seq<T::Model>, i: int)
    requires
        0 <= i <= ms.len(),
    ensures
        enc_items::<T>(ids, ms) == enc_items::<T>(ids, ms.take(i)) + enc_items::<T>(
            ids,
            ms.skip(i),
        ),
    decreases ms.len(),
{
    if i == 0 {
        assert(ms.take(0) =~= Seq::<T::Model>::empty());
        assert(ms.skip(0) =~= ms);
        assert(enc_items::<T>(ids, ms) =~= Seq::<u8>::empty() + enc_items::<T>(ids, ms));
    } else {
        lemma_enc_items_split::<T>(ids, ms.drop_first(), i - 1);
        assert(ms.take(i).drop_first() =~= ms.drop_first().take(i - 1));
        assert(ms.skip(i) =~= ms.drop_first().skip(i - 1));
        assert(enc_items::<T>(ids, ms) =~= enc_items::<T>(ids, ms.take(i)) + enc_items::<T>(
            ids,
            ms.skip(i),
        ));
    }
}

/// Written items are read back.
pub proof fn lemma_items_round_trip<T: TlItem>(
    ids: TlScheme,
    prev: Option<T::Model>,
    ms: Seq<T::Model>,
    s: Seq<u8>,
    p: int,
)
    requires
        valid_items::<T>(ids, prev, ms),
        crate::tl::stands_at(s, p, enc_items::<T>(ids, ms)),
    ensures
        dec_items::<T>(ids, prev, ms.len(), s, p) == Ok::<(Seq<T::Model>, int), TlError>(
            (ms, p + enc_items::<T>(ids, ms).len()),
        ),
    decreases ms.len(),
{
    if ms.len() == 0 {
        assert(ms =~= Seq::<T::Model>::empty());
    } else {
        let first = T::enc(ids, ms[0]);
        let rest = enc_items::<T>(ids, ms.drop_first());
        crate::tl::lemma_stands_split(s, p, first, rest);
        T::lemma_round_trip(ids, prev, ms[0], s, p);
        lemma_items_round_trip::<T>(ids, Some(ms[0]), ms.drop_first(), s, p + first.len());
        assert(seq![ms[0]] + ms.drop_first() =~= ms);
    }
}

/// Items that are read are acceptable and were written so.
pub proof fn lemma_items_canonical<T: TlItem>(
    ids: TlScheme,
    prev: Option<T::Model>,
    n: nat,
    s: Seq<u8>,
    p: int,
)
    requires
        0 <= p <= s.len(),
        dec_items::<T>(ids, prev, n, s, p) is Ok,
    ensures
        ({
            let (ms, e) = dec_items::<T>(ids, prev, n, s, p)->Ok_0;
            &&& ms.len() == n
            &&& valid_items::<T>(ids, prev, ms)
            &&& e == p + enc_items::<T>(ids, ms).len()
            &&& e <= s.len()
            &&& T::strict() ==> crate::tl::stands_at(s, p, enc_items::<T>(ids, ms))
        }),
    decreases n,
{
    if n == 0 {
        assert(s.subrange(p, p) =~= Seq::<u8>::empty());
    } else {
        T::lemma_canonical(ids, prev, s, p);
        let (m, p1) = T::dec(ids, prev, s, p)->Ok_0;
        lemma_items_canonical::<T>(ids, Some(m), (n - 1) as nat, s, p1);
        let (rest, e) = dec_items::<T>(ids, Some(m), (n - 1) as nat, s, p1)->Ok_0;
        let ms = seq![m] + rest;
        assert(ms.drop_first() =~= rest);
        if T::strict() {
            crate::tl::lemma_stands_join(s, p, T::enc(ids, m), enc_items::<T>(ids, rest));
        }
    }
}

/// A written list is read back.
pub proof fn lemma_list_round_trip<T: TlItem>(
    ids: TlScheme,
    max: u32,
    ms: Seq<T::Model>,
    s: Seq<u8>,
    p: int,
)
    requires
        valid_list::<T>(ids, max, ms),
        crate::tl::stands_at(s, p, enc_list::<T>(ids, ms)),
    ensures
        dec_list::<T>(ids, max, s, p) == Ok::<(Seq<T::Model>, int), TlError>(
            (ms, p + enc_list::<T>(ids, ms).len()),
        ),
{
    let count = crate::tl::le32(ms.len() as u32);
    crate::tl::lemma_le32(ms.len() as u32, Seq::empty());
    crate::tl::lemma_stands_split(s, p, count, enc_items::<T>(ids, ms));
    crate::tl::lemma_get_u32(s, p, ms.len() as u32);
    lemma_items_round_trip::<T>(ids, None, ms, s, p + 4);
}

/// A list that is read is acceptable and was written so.
pub proof fn lemma_list_canonical<T: TlItem>(ids: TlScheme, max: u32, s: Seq<u8>, p: int)
    requires
        0 <= p <= s.len(),
        dec_list::<T>(ids, max, s, p) is Ok,
    ensures
        ({
            let (ms, e) = dec_list::<T>(ids, max, s, p)->Ok_0;
            &&& valid_list::<T>(ids, max, ms)
            &&& e == p + enc_list::<T>(ids, ms).len()
            &&& e <= s.len()
            &&& T::strict() ==> crate::tl::stands_at(s, p, enc_list::<T>(ids, ms))
        }),
{
    let (n, p1) = crate::tl::get_u32(s, p)->Ok_0;
    crate::tl::lemma_get_u32(s, p, n);
    lemma_items_canonical::<T>(ids, None, n as nat, s, p1);
    let (ms, e) = dec_list::<T>(ids, max, s, p)->Ok_0;
    if T::strict() {
        crate::tl::lemma_stands_join(s, p, crate::tl::le32(n), enc_items::<T>(ids, ms));
    }
}

/// Writes the number of items and the items.
pub fn write_list<T: TlItem>(ids: &TlScheme, items: &Vec<T>, packet: &mut Vec<u8>)
    requires
        list_fits::<T>(models(items@)),
    ensures
        final(packet)@ == old(packet)@ + enc_list::<T>(*ids, models(items@)),
{
    write_u32(packet, items.len() as u32);
    let ghost head = packet@;
    let mut i: usize = 0;
    assert(models(items@).take(0) =~= Seq::<T::Model>::empty());
    assert(head =~= head + enc_items::<T>(*ids, models(items@).take(0)));
    while i < items.len()
        invariant
            i <= items@.len(),
            list_fits::<T>(models(items@)),
            packet@ == head + enc_items::<T>(*ids, models(items@).take(i as int)),
        decreases items@.len() - i,
    {
        let ghost before = models(items@).take(i as int);
        assert(models(items@)[i as int] == items@[i as int].model());
        items[i].write(ids, packet);
        i = i + 1;
        proof {
            assert(models(items@).take(i as int) =~= before.push(items@[i - 1].model()));
            lemma_enc_items_push::<T>(*ids, before, items@[i - 1].model());
            assert(packet@ =~= head + enc_items::<T>(*ids, models(items@).take(i as int)));
        }
    }
    assert(models(items@).take(items@.len() as int) =~= models(items@));
    assert(packet@ =~= old(packet)@ + enc_list::<T>(*ids, models(items@)));
}

/// The number of bytes of a list.
pub fn list_size<T: TlItem>(ids: &TlScheme, items: &Vec<T>) -> (r: usize)
    requires
        enc_list::<T>(*ids, models(items@)).len() <= usize::MAX,
    ensures
        r == enc_list::<T>(*ids, models(items@)).len(),
{
    let ghost ms = models(items@);
    let mut size: usize = 4;
    let mut i: usize = 0;
    proof {
        crate::tl::lemma_le32(ms.len() as u32, Seq::empty());
        assert(ms.take(0) =~= Seq::<T::Model>::empty());
    }
    while i < items.len()
        invariant
            i <= items@.len(),
            ms == models(items@),
            4 + enc_items::<T>(*ids, ms).len() <= usize::MAX,
            size == 4 + enc_items::<T>(*ids, ms.take(i as int)).len(),
        decreases items@.len() - i,
    {
        proof {
            let m = items@[i as int].model();
            assert(ms[i as int] == m);
            assert(ms.take(i + 1) =~= ms.take(i as int).push(m));
            lemma_enc_items_push::<T>(*ids, ms.take(i as int), m);
            lemma_enc_items_split::<T>(*ids, ms, i + 1);
        }
        size = size + items[i].size(ids);
        i = i + 1;
    }
    assert(ms.take(ms.len() as int) =~= ms);
    size
}

/// Reads `n` items.
pub fn read_items<T: TlItem>(ids: &TlScheme, n: u32, data: &[u8], pos: usize) -> (r: Result<
    (Vec<T>, usize),
    TlError,
>)
    requires
        pos <= data@.len(),
    ensures
        list_reads_as(r, dec_items::<T>(*ids, None, n as nat, data@, pos as int)),
{
    let mut items: Vec<T> = Vec::new();
    let mut at: usize = pos;
    let mut i: u32 = 0;
    let ghost whole = dec_items::<T>(*ids, None, n as nat, data@, pos as int);
    let ghost mut prev: Option<T::Model> = None;
    assert(models(items@) =~= Seq::<T::Model>::empty());
    proof {
        let d = dec_items::<T>(*ids, None, n as nat, data@, pos as int);
        if d is Ok {
            assert(Seq::<T::Model>::empty() + d->Ok_0.0 =~= d->Ok_0.0);
        }
    }
    while i < n
        invariant
            i <= n,
            whole == dec_items::<T>(*ids, None, n as nat, data@, pos as int),
            at <= data@.len(),
            items@.len() == i,
            prev == (if i == 0 {
                None::<T::Model>
            } else {
                Some(items@[i - 1].model())
            }),
            whole == prepend(
                models(items@),
                dec_items::<T>(*ids, prev, (n - i) as nat, data@, at as int),
            ),
        decreases n - i,
    {
        let before: Option<&T> = if items.len() == 0 {
            None
        } else {
            Some(&items[items.len() - 1])
        };
        let ghost acc = models(items@);
        assert(opt_model(before) == prev);
        match T::read(ids, before, data, at) {
            Err(e) => {
                return Err(e);
            },
            Ok((item, end)) => {
                proof {
                    T::lemma_canonical(*ids, prev, data@, at as int);
                    let m = item.model();
                    let rest = dec_items::<T>(*ids, Some(m), (n - i - 1) as nat, data@, end as int);
                    assert(dec_items::<T>(*ids, prev, (n - i) as nat, data@, at as int) == prepend(
                        seq![m],
                        rest,
                    ));
                    if rest is Ok {
                        assert(acc + (seq![m] + rest->Ok_0.0) =~= acc.push(m) + rest->Ok_0.0);
                    }
                    prev = Some(m);
                }
                items.push(item);
                assert(models(items@) =~= acc.push(items@.last().model()));
                at = end;
            },
        }
        i = i + 1;
    }
    assert(models(items@) + Seq::<T::Model>::empty() =~= models(items@));
    Ok((items, at))
}

/// Whether a reader of a list gives what the description of the format says.
pub open spec fn list_reads_as<T: TlItem>(
    r: Result<(Vec<T>, usize), TlError>,
    d: Result<(Seq<T::Model>, int), TlError>,
) -> bool {
    match (r, d) {
        (Ok((v, e)), Ok((ms, e2))) => models(v@) == ms && e == e2,
        (Err(a), Err(b)) => a == b,
        _ => false,
    }
}

/// Reads a list of at most `max` items.
pub fn read_list<T: TlItem>(ids: &TlScheme, max: u32, data: &[u8], pos: usize) -> (r: Result<
    (Vec<T>, usize),
    TlError,
>)
    requires
        pos <= data@.len(),
    ensures
        list_reads_as(r, dec_list::<T>(*ids, max, data@, pos as int)),
{
    match read_u32(data, pos) {
        Err(e) => Err(e),
        Ok((n, p1)) => if n > max {
            Err(TlError::InvalidData)
        } else {
            read_items::<T>(ids, n, data, p1)
        },
    }
}

/// A list is counted in four bytes, and its items follow each other in order.
pub proof fn law_items_follow_their_number<T: TlItem>(
    ids: TlScheme,
    ms: Seq<T::Model>,
    m: T::Model,
)
    ensures
        enc_list::<T>(ids, ms).take(4) == crate::tl::le32(ms.len() as u32),
        enc_list::<T>(ids, ms).skip(4) == enc_items::<T>(ids, ms),
        enc_items::<T>(ids, ms.push(m)) == enc_items::<T>(ids, ms) + T::enc(ids, m),
        enc_items::<T>(ids, Seq::empty()).len() == 0,
{
    crate::tl::lemma_le32(ms.len() as u32, Seq::empty());
    assert(enc_list::<T>(ids, ms).take(4) =~= crate::tl::le32(ms.len() as u32));
    assert(enc_list::<T>(ids, ms).skip(4) =~= enc_items::<T>(ids, ms));
    lemma_enc_items_push::<T>(ids, ms, m);
}

/// Each item of a valid list is acceptable after the one before it, the first one
/// without any.
pub proof fn law_items_are_acceptable_in_turn<T: TlItem>(
    ids: TlScheme,
    max: u32,
    ms: Seq<T::Model>,
    i: int,
)
    requires
        valid_list::<T>(ids, max, ms),
        0 <= i < ms.len(),
    ensures
        ms.len() <= max,
        i == 0 ==> T::valid(ids, None, ms[i]),
        i > 0 ==> T::valid(ids, Some(ms[i - 1]), ms[i]),
{
    lemma_acceptable_in_turn::<T>(ids, None, ms, i);
}

proof fn lemma_acceptable_in_turn<T: TlItem>(
    ids: TlScheme,
    prev: Option<T::Model>,
    ms: Seq<T::Model>,
    i: int,
)
    requires
        valid_items::<T>(ids, prev, ms),
        0 <= i < ms.len(),
    ensures
        i == 0 ==> T::valid(ids, prev, ms[i]),
        i > 0 ==> T::valid(ids, Some(ms[i - 1]), ms[i]),
    decreases ms.len(),
{
    if i > 0 {
        lemma_acceptable_in_turn::<T>(ids, Some(ms[0]), ms.drop_first(), i - 1);
    }
}

/// A list that says to be longer than it may is refused at once.
pub proof fn law_long_list_is_refused<T: TlItem>(ids: TlScheme, max: u32, s: Seq<u8>, p: int)
    ensures
        crate::tl::get_u32(s, p) is Ok && crate::tl::get_u32(s, p)->Ok_0.0 > max ==> dec_list::<T>(
            ids,
            max,
            s,
            p,
        ) == Err::<(Seq<T::Model>, int), TlError>(TlError::InvalidData),
{
}

/// A reader of a list gives what the bytes say and where they end, or their error.
pub proof fn law_list_reader_follows_the_format<T: TlItem>(
    r: Result<(Vec<T>, usize), TlError>,
    d: Result<(Seq<T::Model>, int), TlError>,
)
    requires
        list_reads_as::<T>(r, d),
    ensures
        r is Ok <==> d is Ok,
        r is Ok ==> models(r->Ok_0.0@) == d->Ok_0.0 && r->Ok_0.1 == d->Ok_0.1,
        r is Err ==> r->Err_0 == d->Err_0,
{
}

} // verus!

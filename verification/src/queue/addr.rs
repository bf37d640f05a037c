//! Accounts that the queue routes to a partition of their own.
use crate::ids::HashBytes;
use crate::tl::{read_hash, read_i32, read_shard, read_u32, read_u64, write_hash, write_i32,
    write_shard, write_u32, write_u64, TlError, TlScheme};
use crate::tl_list::{list_size, read_list, write_list, TlItem};
use crate::ids::ShardIdent;
use crate::queue::key::QueueKey;
use vstd::prelude::*;

verus! {

/// How many accounts one partition can list.
pub const MAX_ADDRS_PER_PARTITION: u32 = 10_000_000;

/// An account address of a standard form.
#[derive(Clone, Copy, Debug, PartialEq, Eq)]
pub struct RouterAddr {
    pub workchain: i8,
    pub account: HashBytes,
}

/// An internal address: a standard one, or one of another form.
#[derive(Debug)]
pub enum IntAddr {
    Std(StdAddr),
    Var(VarAddr),
}

/// A standard address.
#[derive(Clone, Copy, Debug, PartialEq, Eq)]
pub struct StdAddr {
    pub workchain: i8,
    pub address: HashBytes,
}

/// An address of variable length, of which the bytes are kept.
#[derive(Debug)]
pub struct VarAddr {
    pub workchain: i32,
    pub address: Vec<u8>,
}

impl RouterAddr {
    /// The least address.
    pub fn min() -> (r: Self)
        ensures
            r.workchain == i8::MIN,
            r.account.is_zero(),
    {
        RouterAddr { workchain: i8::MIN, account: HashBytes::zero() }
    }

    /// The greatest address.
    pub fn max() -> (r: Self)
        ensures
            r.workchain == i8::MAX,
            r.account.is_max(),
    {
        RouterAddr { workchain: i8::MAX, account: HashBytes::max() }
    }

    /// The order of addresses: by workchain, then by account.
    pub open spec fn precedes(&self, other: &Self) -> bool {
        addr_less(self.model(), other.model())
    }

    /// Whether `self` comes before `other`.
    pub fn less(&self, other: &Self) -> (r: bool)
        ensures
            r == self.precedes(other),
    {
        self.workchain < other.workchain || (self.workchain == other.workchain
            && self.account.less(&other.account))
    }

    /// An address as an internal one.
    pub open spec fn as_int(self) -> IntAddr {
        IntAddr::Std(StdAddr { workchain: self.workchain, address: self.account })
    }

    /// The router address of an internal address.
    pub open spec fn of_int(addr: IntAddr) -> Option<RouterAddr> {
        match addr {
            IntAddr::Std(std) => Some(
                RouterAddr { workchain: std.workchain, account: std.address },
            ),
            IntAddr::Var(_) => None,
        }
    }

    /// The same address as an internal one.
    pub fn to_int_addr(&self) -> (r: IntAddr)
        ensures
            r == self.as_int(),
    {
        IntAddr::Std(StdAddr { workchain: self.workchain, address: self.account })
    }

    /// The router address of a standard internal address; others have none.
    pub fn from_int_addr(addr: &IntAddr) -> (r: Option<Self>)
        ensures
            r == Self::of_int(*addr),
    {
        match addr {
            IntAddr::Std(std) => Some(
                RouterAddr { workchain: std.workchain, account: std.address },
            ),
            IntAddr::Var(_) => None,
        }
    }
}

impl vstd::std_specs::convert::FromSpecImpl<StdAddr> for RouterAddr {
    open spec fn obeys_from_spec() -> bool {
        true
    }

    open spec fn from_spec(v: StdAddr) -> Self {
        RouterAddr { workchain: v.workchain, account: v.address }
    }
}

impl From<StdAddr> for RouterAddr {
    fn from(v: StdAddr) -> (r: Self) {
        RouterAddr { workchain: v.workchain, account: v.address }
    }
}

/// An address survives the way to an internal address and back, and no other
/// address becomes the same internal one.
pub proof fn law_router_addr_round_trip(addr: RouterAddr, int_addr: IntAddr)
    ensures
        RouterAddr::of_int(addr.as_int()) == Some(addr),
        RouterAddr::of_int(int_addr) matches Some(found) ==> found.as_int() == int_addr,
{
}

/// The order of addresses: by workchain, then by account.
pub open spec fn addr_less(a: (i8, Seq<u8>), b: (i8, Seq<u8>)) -> bool {
    a.0 < b.0 || (a.0 == b.0 && crate::bytes::be_nat(a.1) < crate::bytes::be_nat(b.1))
}

impl TlItem for RouterAddr {
    type Model = (i8, Seq<u8>);

    open spec fn model(&self) -> (i8, Seq<u8>) {
        (self.workchain, self.account@)
    }

    open spec fn fits(m: (i8, Seq<u8>)) -> bool {
        true
    }

    open spec fn enc(ids: TlScheme, m: (i8, Seq<u8>)) -> Seq<u8> {
        crate::tl::le32(crate::tl::i32_bits(m.0 as i32)) + m.1
    }

    open spec fn dec(ids: TlScheme, prev: Option<(i8, Seq<u8>)>, s: Seq<u8>, p: int) -> Result<
        ((i8, Seq<u8>), int),
        TlError,
    > {
        match crate::tl::get_i32(s, p) {
            Err(e) => Err(e),
            Ok((workchain, p1)) => if !(-128 <= workchain <= 127) {
                Err(TlError::InvalidData)
            } else {
                match crate::tl::get_raw(s, p1, 32) {
                    Err(e) => Err(e),
                    Ok((account, p2)) => {
                        let m = (workchain as i8, account);
                        if prev is Some && !addr_less(prev->0, m) {
                            Err(TlError::InvalidData)
                        } else {
                            Ok((m, p2))
                        }
                    },
                }
            },
        }
    }

    open spec fn valid(ids: TlScheme, prev: Option<(i8, Seq<u8>)>, m: (i8, Seq<u8>)) -> bool {
        m.1.len() == 32 && (prev is Some ==> addr_less(prev->0, m))
    }

    open spec fn strict() -> bool {
        true
    }

    proof fn lemma_round_trip(
        ids: TlScheme,
        prev: Option<(i8, Seq<u8>)>,
        m: (i8, Seq<u8>),
        s: Seq<u8>,
        p: int,
    ) {
        let bits = crate::tl::i32_bits(m.0 as i32);
        crate::tl::lemma_le32(bits, Seq::empty());
        crate::tl::lemma_i32_bits(m.0 as i32, 0);
        crate::tl::lemma_stands_split(s, p, crate::tl::le32(bits), m.1);
        crate::tl::lemma_get_u32(s, p, bits);
    }

    proof fn lemma_canonical(ids: TlScheme, prev: Option<(i8, Seq<u8>)>, s: Seq<u8>, p: int) {
        let (m, e) = Self::dec(ids, prev, s, p)->Ok_0;
        let x = crate::tl::get_u32(s, p)->Ok_0.0;
        crate::tl::lemma_get_u32(s, p, x);
        crate::tl::lemma_i32_bits(0, x);
        crate::tl::lemma_stands_join(s, p, crate::tl::le32(x), m.1);
    }

    fn write(&self, ids: &TlScheme, packet: &mut Vec<u8>) {
        write_i32(packet, self.workchain as i32);
        write_hash(packet, &self.account);
        assert(packet@ =~= old(packet)@ + Self::enc(*ids, self.model()));
    }

    fn size(&self, ids: &TlScheme) -> (r: usize) {
        proof {
            crate::tl::lemma_le32(crate::tl::i32_bits(self.workchain as i32), Seq::empty());
        }
        36
    }

    fn read(ids: &TlScheme, prev: Option<&Self>, data: &[u8], pos: usize) -> (r: Result<
        (Self, usize),
        TlError,
    >) {
        match read_i32(data, pos) {
            Err(e) => Err(e),
            Ok((workchain, p1)) => if workchain < -128 || workchain > 127 {
                Err(TlError::InvalidData)
            } else {
                match read_hash(data, p1) {
                    Err(e) => Err(e),
                    Ok((account, p2)) => {
                        let addr = RouterAddr { workchain: workchain as i8, account };
                        let in_order = match prev {
                            Some(before) => before.less(&addr),
                            None => true,
                        };
                        if in_order {
                            Ok((addr, p2))
                        } else {
                            Err(TlError::InvalidData)
                        }
                    },
                }
            },
        }
    }
}

/// A partition of the queue and the accounts routed to it, in ascending order.
#[derive(Debug, PartialEq, Eq)]
pub struct RouterPartition {
    pub index: u16,
    pub accounts: Vec<RouterAddr>,
}

impl TlItem for RouterPartition {
    type Model = (u16, Seq<(i8, Seq<u8>)>);

    open spec fn model(&self) -> (u16, Seq<(i8, Seq<u8>)>) {
        (self.index, crate::tl_list::models(self.accounts@))
    }

    open spec fn fits(m: (u16, Seq<(i8, Seq<u8>)>)) -> bool {
        m.1.len() <= u32::MAX
    }

    open spec fn enc(ids: TlScheme, m: (u16, Seq<(i8, Seq<u8>)>)) -> Seq<u8> {
        crate::tl::le32(m.0 as u32) + crate::tl_list::enc_list::<RouterAddr>(ids, m.1)
    }

    open spec fn dec(
        ids: TlScheme,
        prev: Option<(u16, Seq<(i8, Seq<u8>)>)>,
        s: Seq<u8>,
        p: int,
    ) -> Result<((u16, Seq<(i8, Seq<u8>)>), int), TlError> {
        match crate::tl::get_u32(s, p) {
            Err(e) => Err(e),
            Ok((index, p1)) => if index > 0xffff || (prev is Some && index <= (prev->0).0) {
                Err(TlError::InvalidData)
            } else {
                match crate::tl_list::dec_list::<RouterAddr>(ids, MAX_ADDRS_PER_PARTITION, s, p1) {
                    Err(e) => Err(e),
                    Ok((accounts, p2)) => Ok(((index as u16, accounts), p2)),
                }
            },
        }
    }

    open spec fn valid(
        ids: TlScheme,
        prev: Option<(u16, Seq<(i8, Seq<u8>)>)>,
        m: (u16, Seq<(i8, Seq<u8>)>),
    ) -> bool {
        &&& prev is Some ==> (prev->0).0 < m.0
        &&& crate::tl_list::valid_list::<RouterAddr>(ids, MAX_ADDRS_PER_PARTITION, m.1)
    }

    open spec fn strict() -> bool {
        true
    }

    proof fn lemma_round_trip(
        ids: TlScheme,
        prev: Option<(u16, Seq<(i8, Seq<u8>)>)>,
        m: (u16, Seq<(i8, Seq<u8>)>),
        s: Seq<u8>,
        p: int,
    ) {
        crate::tl::lemma_le32(m.0 as u32, Seq::empty());
        crate::tl::lemma_stands_split(
            s,
            p,
            crate::tl::le32(m.0 as u32),
            crate::tl_list::enc_list::<RouterAddr>(ids, m.1),
        );
        crate::tl::lemma_get_u32(s, p, m.0 as u32);
        crate::tl_list::lemma_list_round_trip::<RouterAddr>(
            ids,
            MAX_ADDRS_PER_PARTITION,
            m.1,
            s,
            p + 4,
        );
    }

    proof fn lemma_canonical(
        ids: TlScheme,
        prev: Option<(u16, Seq<(i8, Seq<u8>)>)>,
        s: Seq<u8>,
        p: int,
    ) {
        let (m, e) = Self::dec(ids, prev, s, p)->Ok_0;
        let x = crate::tl::get_u32(s, p)->Ok_0.0;
        crate::tl::lemma_get_u32(s, p, x);
        crate::tl_list::lemma_list_canonical::<RouterAddr>(ids, MAX_ADDRS_PER_PARTITION, s, p + 4);
        crate::tl::lemma_stands_join(
            s,
            p,
            crate::tl::le32(x),
            crate::tl_list::enc_list::<RouterAddr>(ids, m.1),
        );
    }

    fn write(&self, ids: &TlScheme, packet: &mut Vec<u8>) {
        write_u32(packet, self.index as u32);
        write_list(ids, &self.accounts, packet);
        assert(packet@ =~= old(packet)@ + Self::enc(*ids, self.model()));
    }

    fn size(&self, ids: &TlScheme) -> (r: usize) {
        proof {
            crate::tl::lemma_le32(self.index as u32, Seq::empty());
        }
        4 + list_size(ids, &self.accounts)
    }

    fn read(ids: &TlScheme, prev: Option<&Self>, data: &[u8], pos: usize) -> (r: Result<
        (Self, usize),
        TlError,
    >) {
        match read_u32(data, pos) {
            Err(e) => Err(e),
            Ok((index, p1)) => {
                let in_order = match prev {
                    Some(before) => (before.index as u32) < index,
                    None => true,
                };
                if index > 0xffff || !in_order {
                    return Err(TlError::InvalidData);
                }
                match read_list::<RouterAddr>(ids, MAX_ADDRS_PER_PARTITION, data, p1) {
                    Err(e) => Err(e),
                    Ok((accounts, p2)) => Ok(
                        (RouterPartition { index: index as u16, accounts }, p2),
                    ),
                }
            },
        }
    }
}

/// How far the messages of a shard are processed.
#[derive(Clone, Copy, Debug, PartialEq, Eq)]
pub struct ProcessedTo {
    pub shard: ShardIdent,
    pub key: QueueKey,
}

/// The content of a queue key.
pub open spec fn key_model(key: QueueKey) -> (u64, Seq<u8>) {
    (key.lt, key.hash@)
}

/// The bytes of a queue key.
pub open spec fn enc_key(m: (u64, Seq<u8>)) -> Seq<u8> {
    crate::tl::le64(m.0) + m.1
}

/// Reads a queue key.
pub open spec fn get_key(s: Seq<u8>, p: int) -> Result<((u64, Seq<u8>), int), TlError> {
    match crate::tl::get_u64(s, p) {
        Err(e) => Err(e),
        Ok((lt, p1)) => match crate::tl::get_raw(s, p1, 32) {
            Err(e) => Err(e),
            Ok((hash, p2)) => Ok(((lt, hash), p2)),
        },
    }
}

/// The order of queue keys.
pub open spec fn key_less(a: (u64, Seq<u8>), b: (u64, Seq<u8>)) -> bool {
    a.0 < b.0 || (a.0 == b.0 && crate::bytes::be_nat(a.1) < crate::bytes::be_nat(b.1))
}

/// A written key is read back, and what is read was written so.
pub proof fn lemma_get_key(s: Seq<u8>, p: int, m: (u64, Seq<u8>))
    requires
        0 <= p,
    ensures
        enc_key(m).len() == 8 + m.1.len(),
        stands_at_key(s, p, m) ==> get_key(s, p) == Ok::<((u64, Seq<u8>), int), TlError>(
            (m, p + 40),
        ),
        get_key(s, p) matches Ok((y, e)) ==> stands_at_key(s, p, y) && e == p + 40 && enc_key(
            y,
        ).len() == 40,
{
    crate::tl::lemma_le64(m.0, Seq::empty());
    crate::tl::lemma_get_u64(s, p, m.0);
    if stands_at_key(s, p, m) {
        crate::tl::lemma_stands_split(s, p, crate::tl::le64(m.0), m.1);
    }
    if get_key(s, p) is Ok {
        let y = get_key(s, p)->Ok_0.0;
        crate::tl::lemma_get_u64(s, p, y.0);
        crate::tl::lemma_stands_join(s, p, crate::tl::le64(y.0), y.1);
    }
}

/// Whether a key stands at a position.
pub open spec fn stands_at_key(s: Seq<u8>, p: int, m: (u64, Seq<u8>)) -> bool {
    m.1.len() == 32 && crate::tl::stands_at(s, p, enc_key(m))
}

/// Writes a queue key.
pub fn write_key(packet: &mut Vec<u8>, key: &QueueKey)
    ensures
        final(packet)@ == old(packet)@ + enc_key(key_model(*key)),
{
    write_u64(packet, key.lt);
    write_hash(packet, &key.hash);
    assert(packet@ =~= old(packet)@ + enc_key(key_model(*key)));
}

/// Reads a queue key.
pub fn read_key(data: &[u8], pos: usize) -> (r: Result<(QueueKey, usize), TlError>)
    requires
        pos <= data@.len(),
    ensures
        match (r, get_key(data@, pos as int)) {
            (Ok((v, e)), Ok((m, e2))) => key_model(v) == m && e == e2,
            (Err(a), Err(b)) => a == b,
            _ => false,
        },
{
    match read_u64(data, pos) {
        Err(e) => Err(e),
        Ok((lt, p1)) => match read_hash(data, p1) {
            Err(e) => Err(e),
            Ok((hash, p2)) => Ok((QueueKey { lt, hash }, p2)),
        },
    }
}

impl TlItem for ProcessedTo {
    type Model = (ShardIdent, (u64, Seq<u8>));

    open spec fn model(&self) -> (ShardIdent, (u64, Seq<u8>)) {
        (self.shard, key_model(self.key))
    }

    open spec fn fits(m: (ShardIdent, (u64, Seq<u8>))) -> bool {
        true
    }

    open spec fn enc(ids: TlScheme, m: (ShardIdent, (u64, Seq<u8>))) -> Seq<u8> {
        crate::tl::enc_shard(m.0) + enc_key(m.1)
    }

    open spec fn dec(
        ids: TlScheme,
        prev: Option<(ShardIdent, (u64, Seq<u8>))>,
        s: Seq<u8>,
        p: int,
    ) -> Result<((ShardIdent, (u64, Seq<u8>)), int), TlError> {
        match crate::tl::get_shard(s, p) {
            Err(e) => Err(e),
            Ok((shard, p1)) => if prev is Some && !(prev->0).0.precedes(&shard) {
                Err(TlError::InvalidData)
            } else {
                match get_key(s, p1) {
                    Err(e) => Err(e),
                    Ok((key, p2)) => Ok(((shard, key), p2)),
                }
            },
        }
    }

    open spec fn valid(
        ids: TlScheme,
        prev: Option<(ShardIdent, (u64, Seq<u8>))>,
        m: (ShardIdent, (u64, Seq<u8>)),
    ) -> bool {
        &&& m.0.valid()
        &&& (m.1).1.len() == 32
        &&& prev is Some ==> (prev->0).0.precedes(&m.0)
    }

    open spec fn strict() -> bool {
        true
    }

    proof fn lemma_round_trip(
        ids: TlScheme,
        prev: Option<(ShardIdent, (u64, Seq<u8>))>,
        m: (ShardIdent, (u64, Seq<u8>)),
        s: Seq<u8>,
        p: int,
    ) {
        crate::tl::lemma_stands_split(s, p, crate::tl::enc_shard(m.0), enc_key(m.1));
        crate::tl::lemma_get_shard(s, p, m.0);
        lemma_get_key(s, p + 12, m.1);
    }

    proof fn lemma_canonical(
        ids: TlScheme,
        prev: Option<(ShardIdent, (u64, Seq<u8>))>,
        s: Seq<u8>,
        p: int,
    ) {
        let (m, e) = Self::dec(ids, prev, s, p)->Ok_0;
        crate::tl::lemma_get_shard(s, p, m.0);
        lemma_get_key(s, p + 12, m.1);
        crate::tl::lemma_stands_join(s, p, crate::tl::enc_shard(m.0), enc_key(m.1));
    }

    fn write(&self, ids: &TlScheme, packet: &mut Vec<u8>) {
        write_shard(packet, &self.shard);
        write_key(packet, &self.key);
        assert(packet@ =~= old(packet)@ + Self::enc(*ids, self.model()));
    }

    fn size(&self, ids: &TlScheme) -> (r: usize) {
        proof {
            crate::tl::lemma_get_shard(Seq::empty(), 0, self.shard);
            lemma_get_key(Seq::empty(), 0, key_model(self.key));
        }
        52
    }

    fn read(ids: &TlScheme, prev: Option<&Self>, data: &[u8], pos: usize) -> (r: Result<
        (Self, usize),
        TlError,
    >) {
        match read_shard(data, pos) {
            Err(e) => Err(e),
            Ok((shard, p1)) => {
                let in_order = match prev {
                    Some(before) => before.shard.less(&shard),
                    None => true,
                };
                if !in_order {
                    return Err(TlError::InvalidData);
                }
                match read_key(data, p1) {
                    Err(e) => Err(e),
                    Ok((key, p2)) => Ok((ProcessedTo { shard, key }, p2)),
                }
            },
        }
    }
}

/// An address takes thirty-six bytes: the workchain, then the account.
pub proof fn law_address_layout(ids: TlScheme, m: (i8, Seq<u8>))
    requires
        m.1.len() == 32,
    ensures
        RouterAddr::enc(ids, m).len() == 36,
        RouterAddr::enc(ids, m).take(4) == crate::tl::le32(crate::tl::i32_bits(m.0 as i32)),
        RouterAddr::enc(ids, m).skip(4) == m.1,
{
    crate::tl::lemma_le32(crate::tl::i32_bits(m.0 as i32), Seq::empty());
    assert(RouterAddr::enc(ids, m).take(4) =~= crate::tl::le32(crate::tl::i32_bits(m.0 as i32)));
    assert(RouterAddr::enc(ids, m).skip(4) =~= m.1);
}

/// A partition is its number and the list of its accounts. Numbers ascend, and accounts
/// ascend in each.
pub proof fn law_partition_layout(
    ids: TlScheme,
    max: u32,
    ms: Seq<(u16, Seq<(i8, Seq<u8>)>)>,
    i: int,
    k: int,
)
    requires
        crate::tl_list::valid_list::<RouterPartition>(ids, max, ms),
        0 <= i < ms.len(),
    ensures
        RouterPartition::enc(ids, ms[i]).take(4) == crate::tl::le32(ms[i].0 as u32),
        RouterPartition::enc(ids, ms[i]).skip(4) == crate::tl_list::enc_list::<RouterAddr>(
            ids,
            ms[i].1,
        ),
        i > 0 ==> ms[i - 1].0 < ms[i].0,
        ms[i].1.len() <= 10_000_000,
        0 < k < ms[i].1.len() ==> addr_less(ms[i].1[k - 1], ms[i].1[k]),
{
    crate::tl::lemma_le32(ms[i].0 as u32, Seq::empty());
    assert(RouterPartition::enc(ids, ms[i]).take(4) =~= crate::tl::le32(ms[i].0 as u32));
    assert(RouterPartition::enc(ids, ms[i]).skip(4) =~= crate::tl_list::enc_list::<RouterAddr>(
        ids,
        ms[i].1,
    ));
    crate::tl_list::law_items_are_acceptable_in_turn::<RouterPartition>(ids, max, ms, i);
    if 0 < k < ms[i].1.len() {
        crate::tl_list::law_items_are_acceptable_in_turn::<RouterAddr>(
            ids,
            MAX_ADDRS_PER_PARTITION,
            ms[i].1,
            k,
        );
    }
}

/// Addresses are ordered: by workchain first, then by account.
pub proof fn law_address_order_is_total(a: RouterAddr, b: RouterAddr)
    ensures
        a == b || a.precedes(&b) || b.precedes(&a),
        !(a.precedes(&b) && b.precedes(&a)),
        a.workchain < b.workchain ==> a.precedes(&b),
        a.workchain == b.workchain && a.account.value() < b.account.value() ==> a.precedes(&b),
{
    crate::ids::lemma_hash_values(a.account, b.account);
}

/// Keys are written as their logical time and their hash, and read in the order that
/// they have.
pub proof fn law_key_layout(a: QueueKey, b: QueueKey)
    ensures
        enc_key(key_model(a)).len() == 40,
        enc_key(key_model(a)).take(8) == crate::tl::le64(a.lt),
        enc_key(key_model(a)).skip(8) == a.hash@,
        key_less(key_model(a), key_model(b)) <==> a.precedes(&b),
{
    crate::tl::lemma_le64(a.lt, Seq::empty());
    assert(enc_key(key_model(a)).take(8) =~= crate::tl::le64(a.lt));
    assert(enc_key(key_model(a)).skip(8) =~= a.hash@);
}

/// A boundary is that of an existing shard: its shard, then its key. Shards ascend.
pub proof fn law_boundary_layout(
    ids: TlScheme,
    max: u32,
    ms: Seq<(ShardIdent, (u64, Seq<u8>))>,
    i: int,
)
    requires
        crate::tl_list::valid_list::<ProcessedTo>(ids, max, ms),
        0 <= i < ms.len(),
    ensures
        ms[i].0.valid(),
        ProcessedTo::enc(ids, ms[i]).len() == 52,
        ProcessedTo::enc(ids, ms[i]).take(12) == crate::tl::enc_shard(ms[i].0),
        ProcessedTo::enc(ids, ms[i]).skip(12) == enc_key(ms[i].1),
        i > 0 ==> ms[i - 1].0.precedes(&ms[i].0),
{
    crate::tl_list::law_items_are_acceptable_in_turn::<ProcessedTo>(ids, max, ms, i);
    crate::tl::law_shard_layout(ms[i].0);
    crate::tl::lemma_le64((ms[i].1).0, Seq::empty());
    assert(ProcessedTo::enc(ids, ms[i]).take(12) =~= crate::tl::enc_shard(ms[i].0));
    assert(ProcessedTo::enc(ids, ms[i]).skip(12) =~= enc_key(ms[i].1));
}

} // verus!

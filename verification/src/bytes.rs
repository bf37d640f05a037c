//! Byte sequences read as big-endian numbers.
use vstd::prelude::*;

verus! {

/// The number that a byte sequence denotes, most significant byte first.
pub open spec fn be_nat(s: Seq<u8>) -> nat
    decreases s.len(),
{
    if s.len() == 0 {
        0
    } else {
        be_nat(s.drop_last()) * 256 + s.last() as nat
    }
}

/// Sequences of one length that agree up to `k` and then differ are ordered
/// by the byte at `k`.
pub proof fn lemma_be_nat_first_difference(a: Seq<u8>, b: Seq<u8>, k: int)
    requires
        a.len() == b.len(),
        0 <= k < a.len(),
        forall|j: int| 0 <= j < k ==> a[j] == b[j],
        a[k] < b[k],
    ensures
        be_nat(a) < be_nat(b),
    decreases a.len(),
{
    if k == a.len() - 1 {
        assert(a.drop_last() =~= b.drop_last());
    } else {
        lemma_be_nat_first_difference(a.drop_last(), b.drop_last(), k);
    }
}

/// A big-endian number determines its bytes once the length is known.
pub proof fn lemma_be_nat_injective(a: Seq<u8>, b: Seq<u8>)
    requires
        a.len() == b.len(),
        be_nat(a) == be_nat(b),
    ensures
        a == b,
    decreases a.len(),
{
    if a.len() > 0 {
        lemma_be_nat_injective(a.drop_last(), b.drop_last());
        assert(a =~= a.drop_last().push(a.last()));
        assert(b =~= b.drop_last().push(b.last()));
    } else {
        assert(a =~= b);
    }
}

/// Adding one to a big-endian number: the bytes after `k` wrap from 255 to 0
/// and the byte at `k` grows.
pub proof fn lemma_be_nat_increment(a: Seq<u8>, b: Seq<u8>, k: int)
    requires
        a.len() == b.len(),
        0 <= k < a.len(),
        forall|j: int| 0 <= j < k ==> a[j] == b[j],
        b[k] == a[k] + 1,
        forall|j: int| k < j < a.len() ==> a[j] == 255,
        forall|j: int| k < j < a.len() ==> b[j] == 0,
    ensures
        be_nat(b) == be_nat(a) + 1,
    decreases a.len(),
{
    if k == a.len() - 1 {
        assert(a.drop_last() =~= b.drop_last());
    } else {
        lemma_be_nat_increment(a.drop_last(), b.drop_last(), k);
    }
}

/// No number of a given length is below that of the zero bytes.
pub proof fn lemma_be_nat_zero(a: Seq<u8>)
    requires
        forall|j: int| 0 <= j < a.len() ==> a[j] == 0,
    ensures
        be_nat(a) == 0,
    decreases a.len(),
{
    if a.len() > 0 {
        lemma_be_nat_zero(a.drop_last());
    }
}

/// No number of a given length is above that of the bytes 255.
pub proof fn lemma_be_nat_max(a: Seq<u8>, max: Seq<u8>)
    requires
        a.len() == max.len(),
        forall|j: int| 0 <= j < max.len() ==> max[j] == 255,
    ensures
        be_nat(a) <= be_nat(max),
    decreases a.len(),
{
    if a.len() > 0 {
        lemma_be_nat_max(a.drop_last(), max.drop_last());
    }
}

/// The order of two equally long byte strings, as that of their numbers.
pub fn bytes_less(a: &[u8], b: &[u8]) -> (r: bool)
    requires
        a@.len() == b@.len(),
    ensures
        r == (be_nat(a@) < be_nat(b@)),
{
    let mut i: usize = 0;
    while i < a.len()
        invariant
            i <= a@.len(),
            a@.len() == b@.len(),
            forall|j: int| 0 <= j < i ==> a@[j] == b@[j],
        decreases a@.len() - i,
    {
        if a[i] < b[i] {
            proof {
                lemma_be_nat_first_difference(a@, b@, i as int);
            }
            return true;
        }
        if b[i] < a[i] {
            proof {
                lemma_be_nat_first_difference(b@, a@, i as int);
            }
            return false;
        }
        i = i + 1;
    }
    assert(a@ =~= b@);
    false
}

/// Whether two byte strings are the same.
pub fn bytes_equal(a: &[u8], b: &[u8]) -> (r: bool)
    ensures
        r == (a@ == b@),
{
    if a.len() != b.len() {
        return false;
    }
    let mut i: usize = 0;
    while i < a.len()
        invariant
            i <= a@.len(),
            a@.len() == b@.len(),
            forall|j: int| 0 <= j < i ==> a@[j] == b@[j],
        decreases a@.len() - i,
    {
        if a[i] != b[i] {
            return false;
        }
        i = i + 1;
    }
    assert(a@ =~= b@);
    true
}

/// The `n` bytes of a number, most significant first.
pub open spec fn be_bytes(n: nat, x: nat) -> Seq<u8>
    decreases n,
{
    if n == 0 {
        Seq::empty()
    } else {
        be_bytes((n - 1) as nat, x / 256).push((x % 256) as u8)
    }
}

/// Numbers of a fixed width have different bytes.
pub proof fn lemma_be_bytes(n: nat, x: nat, y: nat)
    ensures
        be_bytes(n, x).len() == n,
        be_bytes(n, x) == be_bytes(n, y) && n >= 16 && x < 0x1_0000_0000_0000_0000 && y
            < 0x1_0000_0000_0000_0000 ==> x == y,
{
    lemma_be_bytes_len(n, x);
    lemma_be_bytes_len(n, y);
    if be_bytes(n, x) == be_bytes(n, y) && n >= 16 && x < 0x1_0000_0000_0000_0000 && y
        < 0x1_0000_0000_0000_0000 {
        lemma_be_bytes_step(n, x, y, 8);
    }
}

pub proof fn lemma_be_bytes_len(n: nat, x: nat)
    ensures
        be_bytes(n, x).len() == n,
    decreases n,
{
    if n > 0 {
        lemma_be_bytes_len((n - 1) as nat, x / 256);
    }
}

/// A power of 256.
spec fn pow256(k: nat) -> nat
    decreases k,
{
    if k == 0 {
        1
    } else {
        256 * pow256((k - 1) as nat)
    }
}

proof fn lemma_be_bytes_step(n: nat, x: nat, y: nat, k: nat)
    requires
        k <= n,
        be_bytes(n, x) == be_bytes(n, y),
        x < pow256(k) || k == 8 && x < 0x1_0000_0000_0000_0000,
        y < pow256(k) || k == 8 && y < 0x1_0000_0000_0000_0000,
    ensures
        x == y,
    decreases k,
{
    reveal_with_fuel(pow256, 9);
    if k > 0 {
        let a = be_bytes((n - 1) as nat, x / 256);
        let b = be_bytes((n - 1) as nat, y / 256);
        assert(be_bytes(n, x).drop_last() =~= a);
        assert(be_bytes(n, y).drop_last() =~= b);
        assert(be_bytes(n, x).last() == (x % 256) as u8);
        assert(be_bytes(n, y).last() == (y % 256) as u8);
        lemma_be_bytes_step((n - 1) as nat, x / 256, y / 256, (k - 1) as nat);
    }
}

/// Writes the `n` bytes of a number, most significant first.
pub(crate) fn write_be(packet: &mut Vec<u8>, n: u8, x: u64)
    ensures
        final(packet)@ == old(packet)@ + be_bytes(n as nat, x as nat),
    decreases n,
{
    if n > 0 {
        write_be(packet, n - 1, x / 256);
        packet.push((x % 256) as u8);
    }
    assert(packet@ =~= old(packet)@ + be_bytes(n as nat, x as nat));
}

proof fn lemma_be_bytes_of(n: nat, x: nat)
    requires
        x < pow256(n),
    ensures
        be_nat(be_bytes(n, x)) == x,
    decreases n,
{
    if n > 0 {
        lemma_be_bytes_of((n - 1) as nat, x / 256);
        assert(be_bytes(n, x).drop_last() =~= be_bytes((n - 1) as nat, x / 256));
    }
}

/// The four bytes of a number of 32 bits, the highest first, denote it.
pub proof fn law_four_bytes_of_a_number(x: u32)
    ensures
        be_bytes(4, x as nat).len() == 4,
        be_nat(be_bytes(4, x as nat)) == x,
        be_bytes(4, x as nat)[0] == x / 0x100_0000,
        be_bytes(4, x as nat)[1] == x / 0x1_0000 % 256,
        be_bytes(4, x as nat)[2] == x / 0x100 % 256,
        be_bytes(4, x as nat)[3] == x % 256,
{
    reveal_with_fuel(pow256, 5);
    reveal_with_fuel(be_bytes, 5);
    lemma_be_bytes_len(4, x as nat);
    lemma_be_bytes_of(4, x as nat);
}

/// A byte behind others counts for itself, and makes each of them count 256 times.
pub proof fn law_number_of_bytes(s: Seq<u8>, b: u8)
    ensures
        be_nat(Seq::empty()) == 0,
        be_nat(s.push(b)) == 256 * be_nat(s) + b,
        s.len() == 0 ==> be_nat(s.push(b)) == b,
{
    assert(s.push(b).drop_last() =~= s);
}

/// The sixteen bytes of a number of 64 bits, the highest first, denote it.
pub proof fn law_sixteen_bytes_of_a_number(x: u64)
    ensures
        be_bytes(16, x as nat).len() == 16,
        be_nat(be_bytes(16, x as nat)) == x,
{
    reveal_with_fuel(pow256, 17);
    lemma_be_bytes_len(16, x as nat);
    lemma_be_bytes_of(16, x as nat);
}

} // verus!

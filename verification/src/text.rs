//! Short texts for hashes, addresses and numbers.
use crate::dag::threshold::ThresholdCount;
use crate::ids::HashBytes;
use crate::models::parts::{Digest, Signature, UnixTime};
use crate::outside::hex_encode;
use crate::queue::addr::IntAddr;
use crate::queue::key::QueueKey;
use vstd::prelude::*;
use vstd::string::StringExecFns;

verus! {

/// The decimal digit of a number below ten.
pub open spec fn digit_char(d: nat) -> char {
    ('0' as int + d) as char
}

/// A number in decimal.
pub open spec fn decimal(n: nat) -> Seq<char>
    decreases n,
{
    if n < 10 {
        seq![digit_char(n)]
    } else {
        decimal(n / 10).push(digit_char(n % 10))
    }
}

/// A signed number in decimal.
pub open spec fn decimal_int(n: int) -> Seq<char> {
    if n < 0 {
        seq!['-'] + decimal((-n) as nat)
    } else {
        decimal(n as nat)
    }
}

/// The hexadecimal digit of a number below sixteen, in lower case.
pub open spec fn hex_char(d: nat) -> char {
    if d < 10 {
        ('0' as int + d) as char
    } else {
        ('a' as int + d - 10) as char
    }
}

/// Bytes in hexadecimal, two digits each.
pub open spec fn hex_text(data: Seq<u8>) -> Seq<char> {
    Seq::new(
        2 * data.len(),
        |i: int|
            if i % 2 == 0 {
                hex_char((data[i / 2] / 16) as nat)
            } else {
                hex_char((data[i / 2] % 16) as nat)
            },
    )
}

/// Appends a decimal digit.
fn append_digit(out: &mut String, d: u64)
    requires
        d < 10,
    ensures
        final(out)@ == old(out)@.push(digit_char(d as nat)),
{
    proof {
        reveal_strlit("0");
        reveal_strlit("1");
        reveal_strlit("2");
        reveal_strlit("3");
        reveal_strlit("4");
        reveal_strlit("5");
        reveal_strlit("6");
        reveal_strlit("7");
        reveal_strlit("8");
        reveal_strlit("9");
    }
    let text: &str = if d == 0 {
        "0"
    } else if d == 1 {
        "1"
    } else if d == 2 {
        "2"
    } else if d == 3 {
        "3"
    } else if d == 4 {
        "4"
    } else if d == 5 {
        "5"
    } else if d == 6 {
        "6"
    } else if d == 7 {
        "7"
    } else if d == 8 {
        "8"
    } else {
        "9"
    };
    out.append(text);
    assert(out@ =~= old(out)@.push(digit_char(d as nat)));
}

/// Appends a number in decimal.
fn append_decimal(out: &mut String, n: u64)
    ensures
        final(out)@ == old(out)@ + decimal(n as nat),
    decreases n,
{
    let ghost start = out@;
    if n >= 10 {
        append_decimal(out, n / 10);
    }
    append_digit(out, n % 10);
    assert(out@ =~= start + decimal(n as nat));
}

/// The first four bytes of a hash in hexadecimal.
pub fn get_short_hash_string(hash: &HashBytes) -> (r: String)
    ensures
        r@ == hex_text(hash@.take(4)),
{
    let first = vstd::slice::slice_subrange(hash.0.as_slice(), 0, 4);
    assert(first@ =~= hash@.take(4));
    hex_encode(first)
}

/// The workchain of a standard address and the start of its account.
pub fn get_short_addr_string(addr: &IntAddr) -> (r: String)
    requires
        addr is Std,
    ensures
        addr matches IntAddr::Std(std) && r@ == decimal_int(std.workchain as int) + seq![':']
            + hex_text(std.address@.take(4)),
{
    let mut out = String::new();
    match addr {
        IntAddr::Std(std) => {
            proof {
                reveal_strlit("-");
                reveal_strlit(":");
            }
            if std.workchain < 0 {
                out.append("-");
                let abs: i64 = -(std.workchain as i64);
                append_decimal(&mut out, abs as u64);
            } else {
                append_decimal(&mut out, std.workchain as u64);
            }
            assert(out@ =~= decimal_int(std.workchain as int));
            out.append(":");
            let short = get_short_hash_string(&std.address);
            out.append(short.as_str());
            assert(out@ =~= decimal_int(std.workchain as int) + seq![':'] + hex_text(
                std.address@.take(4),
            ));
        },
        IntAddr::Var(_) => {},
    }
    out
}

impl QueueKey {
    /// A short text for the key.
    pub fn to_display(&self) -> (r: String)
        ensures
            r@ == "LT_HASH("@ + decimal(self.lt as nat) + seq!['_'] + hex_text(self.hash@.take(4))
                + seq![')'],
    {
        proof {
            reveal_strlit("_");
            reveal_strlit(")");
        }
        let mut out = String::new();
        out.append("LT_HASH(");
        append_decimal(&mut out, self.lt);
        out.append("_");
        let short = get_short_hash_string(&self.hash);
        out.append(short.as_str());
        out.append(")");
        assert(out@ =~= "LT_HASH("@ + decimal(self.lt as nat) + seq!['_'] + hex_text(
            self.hash@.take(4),
        ) + seq![')']);
        out
    }
}

/// The first bytes of a byte string in hexadecimal: all of them, or as many as
/// are asked for.
pub open spec fn hex_start(bytes: Seq<u8>, precision: Option<usize>) -> Seq<char> {
    match precision {
        Some(len) if len < bytes.len() => hex_text(bytes.take(len as int)),
        _ => hex_text(bytes),
    }
}

/// Writes the first bytes of a byte string in hexadecimal.
fn hex_prefix(bytes: &[u8], precision: Option<usize>) -> (r: String)
    ensures
        r@ == hex_start(bytes@, precision),
{
    match precision {
        Some(len) => if len < bytes.len() {
            let first = vstd::slice::slice_subrange(bytes, 0, len);
            assert(first@ =~= bytes@.take(len as int));
            hex_encode(first)
        } else {
            hex_encode(bytes)
        },
        None => hex_encode(bytes),
    }
}

impl Digest {
    /// The digest in hexadecimal, or as many of its first bytes as are asked for.
    pub fn to_display(&self, precision: Option<usize>) -> (r: String)
        ensures
            r@ == hex_start(self@, precision),
    {
        hex_prefix(self.0.as_slice(), precision)
    }
}

impl Signature {
    /// The signature in hexadecimal, or as many of its first bytes as are asked
    /// for.
    pub fn to_display(&self, precision: Option<usize>) -> (r: String)
        ensures
            r@ == hex_start(self@, precision),
    {
        hex_prefix(self.0.as_slice(), precision)
    }
}

impl UnixTime {
    /// The milliseconds in decimal.
    pub fn to_display(&self) -> (r: String)
        ensures
            r@ == decimal(self.0 as nat),
    {
        let mut out = String::new();
        append_decimal(&mut out, self.0);
        assert(out@ =~= decimal(self.0 as nat));
        out
    }
}

impl ThresholdCount {
    /// How many points are ready, delayed and in the channel, and how many are
    /// needed.
    pub fn to_display(&self) -> (r: String)
        ensures
            r@ == decimal(self.ready as nat) + seq!['+'] + decimal(self.delayed as nat) + seq!['+']
                + decimal(self.in_channel as nat) + seq!['/'] + decimal(self.target as nat),
    {
        proof {
            reveal_strlit("+");
            reveal_strlit("/");
        }
        let mut out = String::new();
        append_decimal(&mut out, self.ready as u64);
        out.append("+");
        append_decimal(&mut out, self.delayed as u64);
        out.append("+");
        append_decimal(&mut out, self.in_channel as u64);
        out.append("/");
        append_decimal(&mut out, self.target as u64);
        assert(out@ =~= decimal(self.ready as nat) + seq!['+'] + decimal(self.delayed as nat)
            + seq!['+'] + decimal(self.in_channel as nat) + seq!['/'] + decimal(
            self.target as nat,
        ));
        out
    }
}

/// The last digit of a number in decimal is what is left after tens, and the digits
/// before it are those of the tens. There are no zeros in front.
pub proof fn law_decimal_digits(n: nat)
    ensures
        decimal(n).len() > 0,
        decimal(n).last() as int == 48 + n % 10,
        n < 10 ==> decimal(n).len() == 1,
        n >= 10 ==> decimal(n).drop_last() == decimal(n / 10),
        n > 0 ==> decimal(n)[0] != '0',
    decreases n,
{
    if n >= 10 {
        law_decimal_digits(n / 10);
        assert(decimal(n).drop_last() =~= decimal(n / 10));
    }
}

/// A number below zero has a sign, and then the digits of the opposite number.
pub proof fn law_sign_stands_in_front(n: int)
    ensures
        n >= 0 ==> decimal_int(n) == decimal(n as nat),
        n < 0 ==> decimal_int(n)[0] == '-' && decimal_int(n).skip(1) == decimal((-n) as nat),
{
    if n < 0 {
        assert(decimal_int(n).skip(1) =~= decimal((-n) as nat));
    }
}

/// Each byte has two digits, the higher one first: zero to nine, then small letters.
pub proof fn law_hex_digits(data: Seq<u8>, i: int)
    requires
        0 <= i < data.len(),
    ensures
        hex_text(data).len() == 2 * data.len(),
        ({
            let high = hex_text(data)[2 * i] as int;
            let low = hex_text(data)[2 * i + 1] as int;
            let high = if high < 58 {
                high - 48
            } else {
                high - 87
            };
            let low = if low < 58 {
                low - 48
            } else {
                low - 87
            };
            0 <= high < 16 && 0 <= low < 16 && 16 * high + low == data[i]
        }),
{
}

/// As many bytes are written as are asked for, or all if there are fewer.
pub proof fn law_hex_start_is_a_prefix(bytes: Seq<u8>, len: usize)
    ensures
        hex_start(bytes, None) == hex_text(bytes),
        len >= bytes.len() ==> hex_start(bytes, Some(len)) == hex_text(bytes),
        len < bytes.len() ==> hex_start(bytes, Some(len)) == hex_text(bytes).take(2 * len),
{
    if len < bytes.len() {
        assert(hex_start(bytes, Some(len)) =~= hex_text(bytes).take(2 * len));
    }
}

} // verus!

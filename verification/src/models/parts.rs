//! Digests, signatures, rounds and times.
use crate::ids::HashBytes;
use crate::outside::{blake3_hash, ed25519_public_key, ed25519_sign, ed25519_verify};
use std::cmp::Ordering;
use vstd::prelude::*;
use vstd::std_specs::cmp::{PartialOrdIs, PartialOrdSpecImpl};
use vstd::std_specs::ops::{AddSpec, SubSpec};

verus! {

/// A member of the consensus, named by its public key.
pub type PeerId = HashBytes;

/// An Ed25519 key pair.
#[derive(Clone, Copy, Debug)]
pub struct KeyPair {
    pub secret: HashBytes,
    pub public: HashBytes,
}

impl KeyPair {
    /// Whether the keys belong together.
    pub open spec fn wf(&self) -> bool {
        self.public@ == crate::outside::public_key_of(self.secret@)
    }

    /// The pair of a secret key.
    pub fn from_secret(secret: HashBytes) -> (r: Self)
        ensures
            r.wf(),
            r.secret == secret,
    {
        let public = ed25519_public_key(&secret);
        KeyPair { secret, public }
    }
}

/// The digest of a point.
#[derive(Clone, Copy, Debug, PartialEq, Eq)]
pub struct Digest(pub [u8; 32]);

impl View for Digest {
    type V = Seq<u8>;

    open spec fn view(&self) -> Seq<u8> {
        self.0@
    }
}

impl Digest {
    /// The digest of bytes.
    pub fn new(bytes: &[u8]) -> (r: Self)
        ensures
            r@ == crate::outside::blake3_of(bytes@),
    {
        Digest(blake3_hash(bytes).0)
    }

    /// A digest from its bytes.
    pub fn wrap(value: [u8; 32]) -> (r: Self)
        ensures
            r@ == value@,
            r.0 == value,
    {
        Digest(value)
    }

    /// The bytes of the digest.
    pub fn inner(&self) -> (r: &[u8; 32])
        ensures
            *r == self.0,
    {
        &self.0
    }

    /// Whether two digests are the same.
    pub fn same(&self, other: &Self) -> (r: bool)
        ensures
            r == (*self == *other),
            r == (self@ == other@),
    {
        let r = crate::bytes::bytes_equal(self.0.as_slice(), other.0.as_slice());
        proof {
            if r {
                lemma_digest_ext(*self, *other);
            }
        }
        r
    }
}

/// Digests with the same bytes are the same digest.
pub proof fn lemma_digest_ext(a: Digest, b: Digest)
    requires
        a@ == b@,
    ensures
        a == b,
{
    assert(a.0 =~= b.0);
}

/// A signature under the digest of a point.
#[derive(Clone, Copy, Debug, PartialEq, Eq)]
pub struct Signature(pub [u8; 64]);

impl View for Signature {
    type V = Seq<u8>;

    open spec fn view(&self) -> Seq<u8> {
        self.0@
    }
}

impl Signature {
    /// Signs a digest. The signature verifies with the public key of the pair.
    pub fn new(local_keypair: &KeyPair, digest: &Digest) -> (r: Self)
        ensures
            r@ == crate::outside::signature_of(local_keypair.secret@, digest@),
            crate::outside::signature_verifies(
                crate::outside::public_key_of(local_keypair.secret@),
                digest@,
                r@,
            ),
            local_keypair.wf() ==> crate::outside::signature_verifies(
                local_keypair.public@,
                digest@,
                r@,
            ),
    {
        ed25519_sign(&local_keypair.secret, digest.0.as_slice())
    }

    /// Whether the signer made this signature under the digest.
    pub fn verifies(&self, signer: &PeerId, digest: &Digest) -> (r: bool)
        ensures
            r == crate::outside::signature_verifies(signer@, digest@, self@),
    {
        ed25519_verify(signer, digest.0.as_slice(), self)
    }

    /// The bytes of the signature.
    pub fn inner(&self) -> (r: &[u8; 64])
        ensures
            *r == self.0,
    {
        &self.0
    }

    /// Whether two signatures are the same.
    pub fn same(&self, other: &Self) -> (r: bool)
        ensures
            r == (*self == *other),
    {
        let r = crate::bytes::bytes_equal(self.0.as_slice(), other.0.as_slice());
        proof {
            if r {
                assert(self.0 =~= other.0);
            }
        }
        r
    }
}

/// The number of a DAG round.
#[derive(Clone, Copy, Debug, PartialEq, Eq, Structural, Ord, Hash)]
pub struct Round(pub u32);

impl PartialOrd for Round {
    fn partial_cmp(&self, other: &Self) -> (r: Option<Ordering>) {
        Some(
            if self.0 < other.0 {
                Ordering::Less
            } else if self.0 == other.0 {
                Ordering::Equal
            } else {
                Ordering::Greater
            },
        )
    }
}

impl PartialOrdSpecImpl for Round {
    open spec fn obeys_partial_cmp_spec() -> bool {
        true
    }

    open spec fn partial_cmp_spec(&self, other: &Self) -> Option<Ordering> {
        Some(
            if self.0 < other.0 {
                Ordering::Less
            } else if self.0 == other.0 {
                Ordering::Equal
            } else {
                Ordering::Greater
            },
        )
    }
}

impl Round {
    /// The stub round, which not even the genesis can use.
    #[verifier::allow_in_spec]
    pub fn bottom() -> Self
        returns
            Round(0),
    {
        Round(0)
    }

    /// The round before.
    pub fn prev(&self) -> (r: Self)
        requires
            self.0 > 0,
        ensures
            r.0 == self.0 - 1,
    {
        Round(self.0 - 1)
    }

    /// The round after.
    pub fn next(&self) -> (r: Self)
        requires
            self.0 < u32::MAX,
        ensures
            r.0 == self.0 + 1,
    {
        Round(self.0 + 1)
    }
}

/// The round that comes `n` rounds later, or the last one.
pub open spec fn later(round: Round, n: nat) -> Round {
    if round.0 + n > u32::MAX {
        Round(u32::MAX)
    } else {
        Round((round.0 + n) as u32)
    }
}

/// The round that came `n` rounds earlier, or the first one.
pub open spec fn earlier(round: Round, n: nat) -> Round {
    if round.0 < n {
        Round(0)
    } else {
        Round((round.0 - n) as u32)
    }
}

impl vstd::std_specs::ops::AddSpecImpl<u8> for Round {
    open spec fn obeys_add_spec() -> bool {
        true
    }

    open spec fn add_req(self, rhs: u8) -> bool {
        true
    }

    open spec fn add_spec(self, rhs: u8) -> Round {
        later(self, rhs as nat)
    }
}

impl std::ops::Add<u8> for Round {
    type Output = Round;

    fn add(self, rhs: u8) -> (r: Round) {
        Round(self.0.saturating_add(rhs as u32))
    }
}

impl vstd::std_specs::ops::SubSpecImpl<u8> for Round {
    open spec fn obeys_sub_spec() -> bool {
        true
    }

    open spec fn sub_req(self, rhs: u8) -> bool {
        true
    }

    open spec fn sub_spec(self, rhs: u8) -> Round {
        earlier(self, rhs as nat)
    }
}

impl std::ops::Sub<u8> for Round {
    type Output = Round;

    fn sub(self, rhs: u8) -> (r: Round) {
        Round(self.0.saturating_sub(rhs as u32))
    }
}

impl vstd::std_specs::ops::AddSpecImpl<u16> for Round {
    open spec fn obeys_add_spec() -> bool {
        true
    }

    open spec fn add_req(self, rhs: u16) -> bool {
        true
    }

    open spec fn add_spec(self, rhs: u16) -> Round {
        later(self, rhs as nat)
    }
}

impl std::ops::Add<u16> for Round {
    type Output = Round;

    fn add(self, rhs: u16) -> (r: Round) {
        Round(self.0.saturating_add(rhs as u32))
    }
}

impl vstd::std_specs::ops::SubSpecImpl<u16> for Round {
    open spec fn obeys_sub_spec() -> bool {
        true
    }

    open spec fn sub_req(self, rhs: u16) -> bool {
        true
    }

    open spec fn sub_spec(self, rhs: u16) -> Round {
        earlier(self, rhs as nat)
    }
}

impl std::ops::Sub<u16> for Round {
    type Output = Round;

    fn sub(self, rhs: u16) -> (r: Round) {
        Round(self.0.saturating_sub(rhs as u32))
    }
}

impl vstd::std_specs::ops::AddSpecImpl<u32> for Round {
    open spec fn obeys_add_spec() -> bool {
        true
    }

    open spec fn add_req(self, rhs: u32) -> bool {
        true
    }

    open spec fn add_spec(self, rhs: u32) -> Round {
        later(self, rhs as nat)
    }
}

impl std::ops::Add<u32> for Round {
    type Output = Round;

    fn add(self, rhs: u32) -> (r: Round) {
        Round(self.0.saturating_add(rhs))
    }
}

impl vstd::std_specs::ops::SubSpecImpl<u32> for Round {
    open spec fn obeys_sub_spec() -> bool {
        true
    }

    open spec fn sub_req(self, rhs: u32) -> bool {
        true
    }

    open spec fn sub_spec(self, rhs: u32) -> Round {
        earlier(self, rhs as nat)
    }
}

impl std::ops::Sub<u32> for Round {
    type Output = Round;

    fn sub(self, rhs: u32) -> (r: Round) {
        Round(self.0.saturating_sub(rhs))
    }
}

/// Going on by some rounds and back by as many leads to the same round, unless
/// the last round was met.
pub proof fn law_rounds_are_taken_back(round: Round, n: nat)
    requires
        round.0 + n <= u32::MAX,
    ensures
        earlier(later(round, n), n) == round,
{
}

/// Rounds are ordered as their numbers are.
pub proof fn law_rounds_are_ordered(a: Round, b: Round)
    ensures
        a.is_lt(&b) <==> a.0 < b.0,
        a.is_le(&b) <==> a.0 <= b.0,
        a.is_gt(&b) <==> a.0 > b.0,
        a.is_ge(&b) <==> a.0 >= b.0,
{
}

/// A time in milliseconds since the epoch.
#[derive(Clone, Copy, Debug, PartialEq, Eq, Structural, Ord)]
pub struct UnixTime(pub u64);

impl PartialOrd for UnixTime {
    fn partial_cmp(&self, other: &Self) -> (r: Option<Ordering>) {
        Some(
            if self.0 < other.0 {
                Ordering::Less
            } else if self.0 == other.0 {
                Ordering::Equal
            } else {
                Ordering::Greater
            },
        )
    }
}

impl PartialOrdSpecImpl for UnixTime {
    open spec fn obeys_partial_cmp_spec() -> bool {
        true
    }

    open spec fn partial_cmp_spec(&self, other: &Self) -> Option<Ordering> {
        Some(
            if self.0 < other.0 {
                Ordering::Less
            } else if self.0 == other.0 {
                Ordering::Equal
            } else {
                Ordering::Greater
            },
        )
    }
}

impl UnixTime {
    /// A time from its milliseconds.
    #[verifier::allow_in_spec]
    pub fn from_millis(millis: u64) -> Self
        returns
            UnixTime(millis),
    {
        UnixTime(millis)
    }

    /// The next millisecond; the last one stays.
    pub fn next(&self) -> (r: Self)
        ensures
            r.0 == (if self.0 == u64::MAX {
                self.0 as int
            } else {
                self.0 + 1
            }),
    {
        UnixTime(self.0.saturating_add(1))
    }

    /// The milliseconds.
    #[verifier::allow_in_spec]
    pub fn millis(&self) -> u64
        returns
            self.0,
    {
        self.0
    }
}

impl vstd::std_specs::ops::AddSpecImpl for UnixTime {
    open spec fn obeys_add_spec() -> bool {
        true
    }

    open spec fn add_req(self, rhs: UnixTime) -> bool {
        true
    }

    open spec fn add_spec(self, rhs: UnixTime) -> UnixTime {
        if self.0 + rhs.0 > u64::MAX {
            UnixTime(u64::MAX)
        } else {
            UnixTime((self.0 + rhs.0) as u64)
        }
    }
}

impl std::ops::Add for UnixTime {
    type Output = UnixTime;

    fn add(self, rhs: UnixTime) -> (r: UnixTime) {
        UnixTime(self.0.saturating_add(rhs.0))
    }
}

impl vstd::std_specs::ops::SubSpecImpl for UnixTime {
    open spec fn obeys_sub_spec() -> bool {
        true
    }

    open spec fn sub_req(self, rhs: UnixTime) -> bool {
        true
    }

    open spec fn sub_spec(self, rhs: UnixTime) -> UnixTime {
        if self.0 < rhs.0 {
            UnixTime(0)
        } else {
            UnixTime((self.0 - rhs.0) as u64)
        }
    }
}

impl std::ops::Sub for UnixTime {
    type Output = UnixTime;

    fn sub(self, rhs: UnixTime) -> (r: UnixTime) {
        UnixTime(self.0.saturating_sub(rhs.0))
    }
}

/// Times are their milliseconds: they are added and subtracted within the range of
/// times, and ordered, as these are.
pub proof fn law_times_are_milliseconds(a: u64, b: u64)
    ensures
        UnixTime::from_millis(a).millis() == a,
        UnixTime::from_millis(a).add_spec(UnixTime::from_millis(b)).millis() == (if a + b
            > u64::MAX {
            u64::MAX as int
        } else {
            a + b
        }),
        UnixTime::from_millis(a).sub_spec(UnixTime::from_millis(b)).millis() == (if a < b {
            0
        } else {
            a - b
        }),
        UnixTime::from_millis(a).is_lt(&UnixTime::from_millis(b)) <==> a < b,
        UnixTime::from_millis(a).is_le(&UnixTime::from_millis(b)) <==> a <= b,
        UnixTime::from_millis(a).is_gt(&UnixTime::from_millis(b)) <==> a > b,
        UnixTime::from_millis(a).is_ge(&UnixTime::from_millis(b)) <==> a >= b,
{
}

/// Rounds are counted one by one, up to the last one and down to the first one.
pub proof fn law_rounds_are_counted(round: Round, n: nat)
    ensures
        round.0 + n <= u32::MAX ==> later(round, n).0 == round.0 + n,
        round.0 + n > u32::MAX ==> later(round, n).0 == u32::MAX,
        n <= round.0 ==> earlier(round, n).0 == round.0 - n,
        n > round.0 ==> earlier(round, n).0 == 0,
{
}

} // verus!

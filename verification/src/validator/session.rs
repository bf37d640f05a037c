//! A session of validators that sign the same master blocks.
use crate::ids::{BlockId, ShardIdent};
use crate::models::parts::{KeyPair, PeerId, Signature};
use crate::outside::ed25519_key_valid;
use crate::types::{ValidationSessionId, ValidatorDescription};
use crate::validator::seqno_map::SeqnoMap;
use vstd::prelude::*;

verus! {

/// How many numbers ahead signatures are cached, and how many validated blocks
/// are kept.
#[derive(Clone, Copy, Debug, PartialEq, Eq, Structural)]
pub struct ValidatorStdImplConfig {
    pub signature_cache_slots: u32,
    pub old_blocks_to_keep: u32,
}

/// A validator: its public key, which also names it, and its weight.
#[derive(Clone, Copy, Debug, PartialEq, Eq)]
pub struct BriefValidatorDescr {
    pub peer_id: PeerId,
    pub weight: u64,
}

/// Why a signature is not accepted.
#[derive(Clone, Copy, Debug, PartialEq, Eq, Structural)]
pub enum ValidationError {
    /// The session is cancelled.
    Cancelled,
    /// There is no slot for the block number.
    NoSlot,
    /// The peer is not a known validator.
    UnknownPeer,
    /// The signature does not verify.
    InvalidSignature,
    /// The peer has sent another signature before.
    SignatureChanged,
}

/// Why a session cannot be made.
#[derive(Clone, Copy, Debug, PartialEq, Eq, Structural)]
pub enum SessionError {
    /// A listed validator has no valid public key.
    InvalidPublicKey,
    /// This node is not in the validator set.
    NotInValidatorSet,
}

/// The answer to a signature.
#[derive(Clone, Copy, Debug, PartialEq, Eq)]
pub enum Exchange {
    /// The own signature under the block.
    Complete(Signature),
    /// The block is not known yet; the signature is kept for later.
    Cached,
}

/// Enough signatures were collected.
#[derive(Debug)]
pub struct ValidationComplete {
    pub signatures: Vec<(PeerId, Signature)>,
    pub total_weight: u64,
}

/// The signatures under one block. The slots stand in the order of the
/// validators.
#[derive(Debug)]
pub struct BlockSignatures {
    pub block_id: BlockId,
    pub own_signature: Signature,
    pub other_signatures: Vec<Option<Signature>>,
    pub total_weight: u64,
    pub validated: bool,
    pub cancelled: bool,
}

/// Signatures received before their block. The slots stand in the order of the
/// validators.
#[derive(Debug)]
pub struct CachedSignatures {
    pub other_signatures: Vec<Option<Signature>>,
}

/// The weight of the validators whose slots hold a signature.
pub open spec fn signed_weight(
    slots: Seq<Option<Signature>>,
    validators: Seq<BriefValidatorDescr>,
) -> nat
    decreases slots.len(),
{
    if slots.len() == 0 || validators.len() == 0 {
        0
    } else {
        signed_weight(slots.drop_last(), validators.drop_last()) + (if slots.last() is Some {
            validators.last().weight as nat
        } else {
            0
        })
    }
}

/// The weight of all validators of a list.
pub open spec fn full_weight(validators: Seq<BriefValidatorDescr>) -> nat
    decreases validators.len(),
{
    if validators.len() == 0 {
        0
    } else {
        full_weight(validators.drop_last()) + validators.last().weight as nat
    }
}

/// The weight that is needed out of a total: more than two thirds.
pub open spec fn threshold_of(max_weight: nat) -> nat {
    (if 2 * max_weight > u64::MAX {
        u64::MAX as nat
    } else {
        2 * max_weight
    }) / 3 + 1
}

/// What validators sign of a block: a tag and the two hashes.
pub open spec fn data_for_sign(block_id: BlockId) -> Seq<u8> {
    seq![0x70u8, 0x6eu8, 0x0bu8, 0xc5u8] + block_id.root_hash@ + block_id.file_hash@
}

/// More than two thirds are needed, so two sets of validators that both suffice
/// have more than a third of the weight in common. Beyond the bound the double of
/// the total is cut off, and less is needed.
pub proof fn law_two_quorums_overlap(total: nat, a: nat, b: nat, common: nat)
    requires
        total <= 0x8000_0000_0000_0000,
        a >= threshold_of(total),
        b >= threshold_of(total),
        a + b <= total + common,
    ensures
        3 * common > total,
{
}

/// The weight that is needed is never zero, and never more than there is.
pub proof fn law_threshold_is_reachable(total: nat)
    requires
        0 < total <= u64::MAX,
    ensures
        0 < threshold_of(total) <= total,
{
}

pub proof fn lemma_signed_at_most_full(
    slots: Seq<Option<Signature>>,
    validators: Seq<BriefValidatorDescr>,
)
    requires
        slots.len() == validators.len(),
    ensures
        signed_weight(slots, validators) <= full_weight(validators),
    decreases slots.len(),
{
    if slots.len() > 0 {
        lemma_signed_at_most_full(slots.drop_last(), validators.drop_last());
    }
}

pub proof fn lemma_signed_fill(
    slots: Seq<Option<Signature>>,
    validators: Seq<BriefValidatorDescr>,
    i: int,
    signature: Signature,
)
    requires
        slots.len() == validators.len(),
        0 <= i < slots.len(),
        slots[i] is None,
    ensures
        signed_weight(slots.update(i, Some(signature)), validators) == signed_weight(
            slots,
            validators,
        ) + validators[i].weight,
    decreases slots.len(),
{
    let filled = slots.update(i, Some(signature));
    if i == slots.len() - 1 {
        assert(filled.drop_last() =~= slots.drop_last());
    } else {
        assert(filled.drop_last() =~= slots.drop_last().update(i, Some(signature)));
        lemma_signed_fill(slots.drop_last(), validators.drop_last(), i, signature);
    }
}

/// A validator session of this node.
pub struct ValidatorSession {
    pub shard_ident: ShardIdent,
    pub session_id: ValidationSessionId,
    pub start_block_seqno: u32,
    pub min_seqno: u32,
    pub config: ValidatorStdImplConfig,
    pub key_pair: KeyPair,
    pub peer_id: PeerId,
    pub own_weight: u64,
    pub weight_threshold: u64,
    /// The other validators, each once.
    pub validators: Vec<BriefValidatorDescr>,
    pub block_signatures: SeqnoMap<BlockSignatures>,
    pub cached_signatures: SeqnoMap<CachedSignatures>,
    pub cancelled: bool,
}

impl ValidatorSession {
    /// Whether the signatures under a block are in order: the own one verifies, every
    /// slot holds a signature that verifies or none, and the weight is the sum of
    /// those who have signed.
    pub open spec fn block_wf(&self, b: BlockSignatures) -> bool {
        &&& b.other_signatures@.len() == self.validators@.len()
        &&& b.own_signature@ == crate::outside::signature_of(
            self.key_pair.secret@,
            data_for_sign(b.block_id),
        )
        &&& crate::outside::signature_verifies(
            crate::outside::public_key_of(self.key_pair.secret@),
            data_for_sign(b.block_id),
            b.own_signature@,
        )
        &&& b.total_weight == self.own_weight + signed_weight(
            b.other_signatures@,
            self.validators@,
        )
        &&& b.validated == (b.total_weight >= self.weight_threshold)
        &&& forall|i: int|
            #![trigger b.other_signatures@[i]]
            0 <= i < b.other_signatures@.len() && b.other_signatures@[i] is Some
                ==> crate::outside::signature_verifies(
                self.validators@[i].peer_id@,
                data_for_sign(b.block_id),
                (b.other_signatures@[i]->0)@,
            )
    }

    /// Whether the parts of the session that do not change belong together.
    pub open spec fn fixed_wf(&self) -> bool {
        &&& self.own_weight + full_weight(self.validators@) <= u64::MAX
        &&& self.weight_threshold == threshold_of(
            self.own_weight as nat + full_weight(self.validators@),
        )
        &&& forall|i: int, j: int|
            0 <= i < j < self.validators@.len() ==> (#[trigger] self.validators@[i]).peer_id != (
            #[trigger] self.validators@[j]).peer_id
        &&& forall|i: int|
            0 <= i < self.validators@.len() ==> (#[trigger] self.validators@[i]).peer_id
                != self.peer_id
    }

    /// The invariant of a session.
    pub open spec fn wf(&self) -> bool {
        &&& self.fixed_wf()
        &&& self.block_signatures.wf()
        &&& self.cached_signatures.wf()
        &&& forall|k: u32| #[trigger]
            self.block_signatures@.dom().contains(k) ==> self.block_wf(self.block_signatures@[k])
                && self.block_signatures@[k].block_id.seqno == k
        &&& forall|k: u32| #[trigger]
            self.cached_signatures@.dom().contains(k)
                ==> self.cached_signatures@[k].other_signatures@.len() == self.validators@.len()
    }

    /// Whether nothing but the signatures, the least number and the
    /// cancellation differs.
    pub open spec fn same_session(&self, other: &Self) -> bool {
        &&& self.shard_ident == other.shard_ident
        &&& self.session_id == other.session_id
        &&& self.start_block_seqno == other.start_block_seqno
        &&& self.config == other.config
        &&& self.key_pair == other.key_pair
        &&& self.peer_id == other.peer_id
        &&& self.own_weight == other.own_weight
        &&& self.weight_threshold == other.weight_threshold
        &&& self.validators == other.validators
    }

    /// The place of a validator.
    pub open spec fn index_of_peer(&self, peer_id: PeerId) -> Option<int> {
        if exists|i: int|
            0 <= i < self.validators@.len() && (#[trigger] self.validators@[i]).peer_id == peer_id {
            Some(
                choose|i: int|
                    0 <= i < self.validators@.len() && (#[trigger] self.validators@[i]).peer_id
                        == peer_id,
            )
        } else {
            None
        }
    }

    /// Finds the place of a validator.
    pub(crate) fn find_peer(&self, peer_id: &PeerId) -> (r: Option<usize>)
        requires
            self.fixed_wf(),
        ensures
            match (r, self.index_of_peer(*peer_id)) {
                (Some(i), Some(j)) => i == j && i < self.validators@.len()
                    && self.validators@[i as int].peer_id == *peer_id,
                (None, None) => true,
                _ => false,
            },
    {
        let mut i: usize = 0;
        while i < self.validators.len()
            invariant
                self.fixed_wf(),
                i <= self.validators@.len(),
                forall|j: int| 0 <= j < i ==> (#[trigger] self.validators@[j]).peer_id != *peer_id,
            decreases self.validators@.len() - i,
        {
            if self.validators[i].peer_id.same(peer_id) {
                return Some(i);
            }
            i = i + 1;
        }
        None
    }
}

/// Adds a validator to a list, in the place of an earlier entry of the same peer.
pub open spec fn put_validator(
    list: Seq<BriefValidatorDescr>,
    v: BriefValidatorDescr,
) -> Seq<BriefValidatorDescr> {
    if exists|i: int| 0 <= i < list.len() && (#[trigger] list[i]).peer_id == v.peer_id {
        let i = choose|i: int| 0 <= i < list.len() && (#[trigger] list[i]).peer_id == v.peer_id;
        list.update(i, v)
    } else {
        list.push(v)
    }
}

/// The validators of a list, each peer once.
pub open spec fn collected(list: Seq<ValidatorDescription>) -> Seq<BriefValidatorDescr>
    decreases list.len(),
{
    if list.len() == 0 {
        Seq::empty()
    } else {
        put_validator(
            collected(list.drop_last()),
            BriefValidatorDescr { peer_id: list.last().public_key, weight: list.last().weight },
        )
    }
}

/// No peer occurs twice.
pub open spec fn unique_peers(list: Seq<BriefValidatorDescr>) -> bool {
    forall|i: int, j: int|
        0 <= i < j < list.len() ==> (#[trigger] list[i]).peer_id != (#[trigger] list[j]).peer_id
}

proof fn lemma_put_keeps_unique(list: Seq<BriefValidatorDescr>, v: BriefValidatorDescr)
    requires
        unique_peers(list),
    ensures
        unique_peers(put_validator(list, v)),
{
}

proof fn lemma_full_weight_remove(list: Seq<BriefValidatorDescr>, i: int)
    requires
        0 <= i < list.len(),
    ensures
        full_weight(list) == full_weight(list.remove(i)) + list[i].weight,
    decreases list.len(),
{
    if i == list.len() - 1 {
        assert(list.remove(i) =~= list.drop_last());
    } else {
        lemma_full_weight_remove(list.drop_last(), i);
        assert(list.remove(i).drop_last() =~= list.drop_last().remove(i));
    }
}

pub proof fn lemma_full_weight_take(list: Seq<BriefValidatorDescr>, i: int)
    requires
        0 <= i <= list.len(),
    ensures
        full_weight(list.take(i)) <= full_weight(list),
    decreases list.len() - i,
{
    if i < list.len() {
        lemma_full_weight_take(list, i + 1);
        assert(list.take(i + 1).drop_last() =~= list.take(i));
    } else {
        assert(list.take(i) =~= list);
    }
}

/// The sum of the weights.
fn sum_weights(list: &Vec<BriefValidatorDescr>) -> (r: u64)
    requires
        full_weight(list@) <= u64::MAX,
    ensures
        r == full_weight(list@),
{
    let mut sum: u64 = 0;
    let mut i: usize = 0;
    while i < list.len()
        invariant
            i <= list@.len(),
            full_weight(list@) <= u64::MAX,
            sum == full_weight(list@.take(i as int)),
        decreases list@.len() - i,
    {
        proof {
            lemma_full_weight_take(list@, i + 1);
            assert(list@.take(i + 1).drop_last() =~= list@.take(i as int));
        }
        sum = sum + list[i].weight;
        i = i + 1;
    }
    assert(list@.take(i as int) =~= list@);
    sum
}

/// Slots without a signature.
fn empty_slots(n: usize) -> (r: Vec<Option<Signature>>)
    ensures
        r@.len() == n,
        forall|i: int| 0 <= i < n ==> (#[trigger] r@[i]) is None,
{
    let mut slots: Vec<Option<Signature>> = Vec::new();
    let mut i: usize = 0;
    while i < n
        invariant
            i <= n,
            slots@.len() == i,
            forall|j: int| 0 <= j < i ==> (#[trigger] slots@[j]) is None,
        decreases n - i,
    {
        slots.push(None);
        i = i + 1;
    }
    slots
}

/// Whether slots hold no signature.
pub open spec fn all_empty(c: CachedSignatures, n: nat) -> bool {
    &&& c.other_signatures@.len() == n
    &&& forall|i: int| 0 <= i < n ==> (#[trigger] c.other_signatures@[i]) is None
}

impl ValidatorSession {
    /// Makes a session of the listed validators, of which this node has to be
    /// one. Slots for the signatures under the first blocks are made ready.
    pub fn new(
        shard_ident: ShardIdent,
        session_id: ValidationSessionId,
        start_block_seqno: u32,
        validators: &Vec<ValidatorDescription>,
        peer_id: PeerId,
        key_pair: KeyPair,
        config: ValidatorStdImplConfig,
    ) -> (r: Result<Self, SessionError>)
        requires
            full_weight(collected(validators@)) <= u64::MAX,
            start_block_seqno + config.signature_cache_slots <= u32::MAX,
        ensures
            ({
                let all = collected(validators@);
                let keys_valid = forall|i: int|
                    0 <= i < validators@.len() ==> crate::outside::is_public_key(
                        (#[trigger] validators@[i]).public_key@,
                    );
                let listed = exists|i: int|
                    0 <= i < all.len() && (#[trigger] all[i]).peer_id == peer_id;
                match r {
                    Err(SessionError::InvalidPublicKey) => !keys_valid,
                    Err(SessionError::NotInValidatorSet) => keys_valid && !listed,
                    Ok(s) => {
                        &&& keys_valid
                        &&& exists|i: int|
                            #![trigger all[i]]
                            0 <= i < all.len() && all[i].peer_id == peer_id && s.own_weight
                                == all[i].weight && s.validators@ == all.remove(i)
                        &&& s.wf()
                        &&& s.weight_threshold == threshold_of(full_weight(all))
                        &&& s.shard_ident == shard_ident
                        &&& s.session_id == session_id
                        &&& s.start_block_seqno == start_block_seqno
                        &&& s.min_seqno == start_block_seqno
                        &&& s.key_pair == key_pair
                        &&& s.peer_id == peer_id
                        &&& s.config == config
                        &&& !s.cancelled
                        &&& s.block_signatures@ == Map::<u32, BlockSignatures>::empty()
                        &&& forall|k: u32| #[trigger]
                            s.cached_signatures@.dom().contains(k) <==> start_block_seqno <= k
                                < start_block_seqno + config.signature_cache_slots
                        &&& forall|k: u32| #[trigger]
                            s.cached_signatures@.dom().contains(k) ==> all_empty(
                                s.cached_signatures@[k],
                                s.validators@.len(),
                            )
                    },
                }
            }),
    {
        let mut others: Vec<BriefValidatorDescr> = Vec::new();
        let mut i: usize = 0;
        assert(validators@.take(0) =~= Seq::<ValidatorDescription>::empty());
        while i < validators.len()
            invariant
                i <= validators@.len(),
                others@ == collected(validators@.take(i as int)),
                unique_peers(others@),
                forall|j: int|
                    0 <= j < i ==> crate::outside::is_public_key(
                        (#[trigger] validators@[j]).public_key@,
                    ),
            decreases validators@.len() - i,
        {
            let descr: ValidatorDescription = validators[i];
            if !ed25519_key_valid(&descr.public_key) {
                return Err(SessionError::InvalidPublicKey);
            }
            let brief = BriefValidatorDescr { peer_id: descr.public_key, weight: descr.weight };
            proof {
                assert(validators@.take(i + 1).drop_last() =~= validators@.take(i as int));
                lemma_put_keeps_unique(others@, brief);
            }
            put(&mut others, brief);
            i = i + 1;
        }
        assert(validators@.take(i as int) =~= validators@);
        let ghost all = others@;
        let max_weight: u64 = sum_weights(&others);
        let doubled: u64 = if max_weight > u64::MAX / 2 {
            u64::MAX
        } else {
            2 * max_weight
        };
        let weight_threshold: u64 = doubled / 3 + 1;
        let own = match position_of_peer(&others, &peer_id) {
            Some(own) => own,
            None => {
                return Err(SessionError::NotInValidatorSet);
            },
        };
        let own_weight: u64 = others[own].weight;
        let _own = others.remove(own);
        proof {
            lemma_full_weight_remove(all, own as int);
            let left = all.remove(own as int);
            assert forall|a: int, b: int| 0 <= a < b < left.len() implies (#[trigger] left[a]).peer_id
                != (#[trigger] left[b]).peer_id by {
                let a0 = if a < own { a } else { a + 1 };
                let b0 = if b < own { b } else { b + 1 };
                assert(left[a] == all[a0] && left[b] == all[b0]);
            }
            assert forall|a: int| 0 <= a < left.len() implies (#[trigger] left[a]).peer_id
                != peer_id by {
                let a0 = if a < own { a } else { a + 1 };
                assert(left[a] == all[a0]);
                assert(all[own as int].peer_id == peer_id);
            }
        }
        let mut session = ValidatorSession {
            shard_ident,
            session_id,
            start_block_seqno,
            min_seqno: start_block_seqno,
            config,
            key_pair,
            peer_id,
            own_weight,
            weight_threshold,
            validators: others,
            block_signatures: SeqnoMap::new(),
            cached_signatures: SeqnoMap::new(),
            cancelled: false,
        };
        session.create_cache_slots(start_block_seqno, config.signature_cache_slots);
        Ok(session)
    }

    /// The number of the first block of the session.
    pub fn start_block_seqno(&self) -> (r: u32)
        ensures
            r == self.start_block_seqno,
    {
        self.start_block_seqno
    }

    /// Makes slots ready for the signatures under `n` blocks, from a number or
    /// from the least one still of interest. Slots that exist stay.
    pub(crate) fn create_cache_slots(&mut self, from: u32, n: u32)
        requires
            old(self).wf(),
            from + n <= u32::MAX,
        ensures
            final(self).wf(),
            *final(self) == (ValidatorSession {
                cached_signatures: final(self).cached_signatures,
                ..*old(self)
            }),
            slots_created(
                old(self).cached_signatures@,
                final(self).cached_signatures@,
                old(self).min_seqno,
                from,
                n,
                old(self).validators@.len(),
            ),
    {
        let to: u32 = from + n;
        let start: u32 = if self.min_seqno > from {
            self.min_seqno
        } else {
            from
        };
        let mut seqno: u32 = start;
        while seqno < to
            invariant
                self.wf(),
                start <= seqno,
                start >= to ==> seqno == start,
                start < to ==> seqno <= to,
                *self == (ValidatorSession {
                    cached_signatures: self.cached_signatures,
                    ..*old(self)
                }),
                forall|k: u32| #[trigger]
                    self.cached_signatures@.dom().contains(k) <==> old(
                        self,
                    ).cached_signatures@.dom().contains(k) || start <= k < seqno,
                forall|k: u32| #[trigger]
                    self.cached_signatures@.dom().contains(k) ==> (if old(
                        self,
                    ).cached_signatures@.dom().contains(k) {
                        self.cached_signatures@[k] == old(self).cached_signatures@[k]
                    } else {
                        all_empty(self.cached_signatures@[k], self.validators@.len())
                    }),
            decreases to - seqno,
        {
            let slots = CachedSignatures {
                other_signatures: empty_slots(self.validators.len()),
            };
            let _new = self.cached_signatures.insert(seqno, slots);
            seqno = seqno + 1;
        }
    }

    /// Cancels the session.
    pub fn cancel(&mut self)
        requires
            old(self).wf(),
        ensures
            final(self).wf(),
            *final(self) == (ValidatorSession { cancelled: true, ..*old(self) }),
    {
        self.cancelled = true;
    }

    /// Gives up all blocks up to a number: their cached signatures are dropped,
    /// their validations cancelled, and those old enough are forgotten.
    pub fn cancel_until(&mut self, block_seqno: u32)
        requires
            old(self).wf(),
        ensures
            final(self).wf(),
            final(self).same_session(old(self)),
            final(self).cancelled == old(self).cancelled,
            final(self).min_seqno == (if old(self).min_seqno > block_seqno {
                old(self).min_seqno
            } else {
                block_seqno
            }),
            final(self).cached_signatures@ == old(self).cached_signatures@.restrict(
                old(self).cached_signatures@.dom().filter(|k: u32| k > block_seqno),
            ),
            ({
                let keep = old(self).config.old_blocks_to_keep;
                let until = if block_seqno > keep {
                    block_seqno - keep
                } else {
                    0
                };
                &&& forall|k: u32| #[trigger]
                    final(self).block_signatures@.dom().contains(k) <==> old(
                        self,
                    ).block_signatures@.dom().contains(k) && k > until
                &&& forall|k: u32| #[trigger]
                    final(self).block_signatures@.dom().contains(k)
                        ==> final(self).block_signatures@[k] == (if k <= block_seqno {
                        BlockSignatures { cancelled: true, ..old(self).block_signatures@[k] }
                    } else {
                        old(self).block_signatures@[k]
                    })
            }),
    {
        if self.min_seqno < block_seqno {
            self.min_seqno = block_seqno;
        }
        self.cached_signatures.remove_upto(block_seqno);
        let keys = self.block_signatures.keys_upto(block_seqno);
        let ghost blocks = self.block_signatures@;
        let mut i: usize = 0;
        while i < keys.len()
            invariant
                self.wf(),
                i <= keys@.len(),
                self.same_session(old(self)),
                self.cancelled == old(self).cancelled,
                self.min_seqno == (if old(self).min_seqno > block_seqno {
                    old(self).min_seqno
                } else {
                    block_seqno
                }),
                self.cached_signatures@ == old(self).cached_signatures@.restrict(
                    old(self).cached_signatures@.dom().filter(|k: u32| k > block_seqno),
                ),
                blocks == old(self).block_signatures@,
                forall|a: int, b: int| 0 <= a < b < keys@.len() ==> keys@[a] < keys@[b],
                forall|k: u32| #[trigger]
                    keys@.contains(k) <==> blocks.dom().contains(k) && k <= block_seqno,
                self.block_signatures@.dom() =~= blocks.dom(),
                forall|k: u32| #[trigger]
                    blocks.dom().contains(k) ==> self.block_signatures@[k] == (
                    if keys@.take(i as int).contains(k) {
                        BlockSignatures { cancelled: true, ..blocks[k] }
                    } else {
                        blocks[k]
                    }),
            decreases keys@.len() - i,
        {
            let key: u32 = keys[i];
            proof {
                assert(keys@.contains(key));
                assert(!keys@.take(i as int).contains(key));
                assert(keys@.take(i + 1) =~= keys@.take(i as int).push(key));
            }
            let ghost before = self.block_signatures@;
            match self.block_signatures.remove(key) {
                Some(mut block) => {
                    block.cancelled = true;
                    let _new = self.block_signatures.insert(key, block);
                },
                None => {},
            }
            proof {
                let part = keys@.take(i as int);
                let next = keys@.take(i + 1);
                assert forall|k: u32| #[trigger]
                    blocks.dom().contains(k) implies self.block_signatures@[k] == (
                if next.contains(k) {
                    BlockSignatures { cancelled: true, ..blocks[k] }
                } else {
                    blocks[k]
                }) by {
                    if part.contains(k) {
                        assert(next[part.index_of(k)] == k);
                    }
                    if k == key {
                        assert(next[i as int] == k);
                    }
                    if next.contains(k) && k != key {
                        assert(part[next.index_of(k)] == k);
                    }
                }
            }
            i = i + 1;
        }
        assert(keys@.take(i as int) =~= keys@);
        let until: u32 = block_seqno.saturating_sub(self.config.old_blocks_to_keep);
        self.block_signatures.remove_upto(until);
    }
}

/// The slots after more were made ready.
pub open spec fn slots_created(
    before: Map<u32, CachedSignatures>,
    after: Map<u32, CachedSignatures>,
    min_seqno: u32,
    from: u32,
    n: u32,
    validators: nat,
) -> bool {
    &&& forall|k: u32| #[trigger]
        after.dom().contains(k) <==> before.dom().contains(k) || (min_seqno <= k && from <= k < from
            + n)
    &&& forall|k: u32| #[trigger]
        after.dom().contains(k) ==> (if before.dom().contains(k) {
            after[k] == before[k]
        } else {
            all_empty(after[k], validators)
        })
}

/// Adds a validator to a list, in the place of an earlier entry of the same peer.
fn put(list: &mut Vec<BriefValidatorDescr>, v: BriefValidatorDescr)
    requires
        unique_peers(old(list)@),
    ensures
        final(list)@ == put_validator(old(list)@, v),
{
    match position_of_peer(list, &v.peer_id) {
        Some(i) => {
            list.set(i, v);
        },
        None => {
            list.push(v);
        },
    }
}

/// The place of a peer in a list.
fn position_of_peer(list: &Vec<BriefValidatorDescr>, peer_id: &PeerId) -> (r: Option<usize>)
    requires
        unique_peers(list@),
    ensures
        match r {
            Some(i) => i < list@.len() && list@[i as int].peer_id == *peer_id && (forall|j: int|
                0 <= j < list@.len() && (#[trigger] list@[j]).peer_id == *peer_id ==> j == i),
            None => forall|j: int| 0 <= j < list@.len() ==> (#[trigger] list@[j]).peer_id != *peer_id,
        },
{
    let mut i: usize = 0;
    while i < list.len()
        invariant
            unique_peers(list@),
            i <= list@.len(),
            forall|j: int| 0 <= j < i ==> (#[trigger] list@[j]).peer_id != *peer_id,
        decreases list@.len() - i,
    {
        if list[i].peer_id.same(peer_id) {
            return Some(i);
        }
        i = i + 1;
    }
    None
}

/// The weight that is needed is the least one above two thirds: a weight suffices exactly
/// if three times it is more than twice the total. Where the double of the total does not
/// fit in 64 bits it is cut off.
pub proof fn law_more_than_two_thirds_suffice(total: nat, weight: nat)
    ensures
        2 * total <= u64::MAX ==> (weight >= threshold_of(total) <==> 3 * weight > 2 * total),
        2 * total > u64::MAX ==> (weight >= threshold_of(total) <==> 3 * weight > u64::MAX),
{
}

/// The weight of a list is that of its parts, and a list of one has the weight of its
/// validator.
pub proof fn law_weights_add_up(a: Seq<BriefValidatorDescr>, b: Seq<BriefValidatorDescr>)
    ensures
        full_weight(a + b) == full_weight(a) + full_weight(b),
        a.len() == 0 ==> full_weight(a) == 0,
        a.len() == 1 ==> full_weight(a) == a[0].weight,
    decreases b.len(),
{
    if b.len() == 0 {
        assert(a + b =~= a);
    } else {
        law_weights_add_up(a, b.drop_last());
        assert((a + b).drop_last() =~= a + b.drop_last());
    }
    reveal_with_fuel(full_weight, 2);
}

/// The weight of those who have signed is that of the list of them: a slot that is filled
/// counts with the weight of its validator, and an empty one with nothing.
pub proof fn law_signed_weights_add_up(
    slots: Seq<Option<Signature>>,
    validators: Seq<BriefValidatorDescr>,
    slot: Option<Signature>,
    validator: BriefValidatorDescr,
)
    requires
        slots.len() == validators.len(),
    ensures
        signed_weight(Seq::empty(), Seq::empty()) == 0,
        signed_weight(slots.push(slot), validators.push(validator)) - signed_weight(
            slots,
            validators,
        ) == if slot is Some {
            validator.weight as int
        } else {
            0
        },
        (forall|i: int| 0 <= i < slots.len() ==> (#[trigger] slots[i]) is Some) ==> signed_weight(
            slots,
            validators,
        ) == full_weight(validators),
        (forall|i: int| 0 <= i < slots.len() ==> (#[trigger] slots[i]) is None) ==> signed_weight(
            slots,
            validators,
        ) == 0,
    decreases slots.len(),
{
    assert(slots.push(slot).drop_last() =~= slots);
    assert(validators.push(validator).drop_last() =~= validators);
    if slots.len() > 0 {
        let n = slots.len() - 1;
        law_signed_weights_add_up(slots.drop_last(), validators.drop_last(), slot, validator);
        assert forall|i: int| 0 <= i < n implies slots.drop_last()[i] == slots[i] by {}
        assert(slots[n] == slots.last());
    }
}

/// Of each peer that is listed, the last entry counts, and no other peer does.
pub proof fn law_last_entry_of_a_peer_counts(list: Seq<ValidatorDescription>)
    ensures
        unique_peers(collected(list)),
        forall|i: int|
            0 <= i < list.len() && (forall|j: int|
                i < j < list.len() ==> (#[trigger] list[j]).public_key != list[i].public_key)
                ==> collected(list).contains(
                (BriefValidatorDescr {
                    peer_id: (#[trigger] list[i]).public_key,
                    weight: list[i].weight,
                }),
            ),
        forall|k: int|
            0 <= k < collected(list).len() ==> exists|i: int|
                0 <= i < list.len() && (#[trigger] list[i]).public_key == (
                #[trigger] collected(list)[k]).peer_id && list[i].weight
                    == collected(list)[k].weight && forall|j: int|
                    i < j < list.len() ==> (#[trigger] list[j]).public_key != list[i].public_key,
    decreases list.len(),
{
    if list.len() > 0 {
        let n = list.len() - 1;
        let rest = list.drop_last();
        law_last_entry_of_a_peer_counts(rest);
        let before = collected(rest);
        let last = BriefValidatorDescr {
            peer_id: list.last().public_key,
            weight: list.last().weight,
        };
        let after = put_validator(before, last);
        lemma_put_keeps_unique(before, last);
        assert(after.contains(last)) by {
            if exists|i: int| 0 <= i < before.len() && (#[trigger] before[i]).peer_id
                == last.peer_id {
                let i = choose|i: int|
                    0 <= i < before.len() && (#[trigger] before[i]).peer_id == last.peer_id;
                assert(after[i] == last);
            } else {
                assert(after[before.len() as int] == last);
            }
        }
        assert forall|i: int|
            0 <= i < list.len() && (forall|j: int|
                i < j < list.len() ==> (#[trigger] list[j]).public_key
                    != list[i].public_key) implies after.contains(
            (BriefValidatorDescr {
                peer_id: (#[trigger] list[i]).public_key,
                weight: list[i].weight,
            }),
        ) by {
            if i < n {
                assert(rest[i] == list[i]);
                assert(list[n].public_key != list[i].public_key);
                assert forall|j: int| i < j < rest.len() implies (#[trigger] rest[j]).public_key
                    != rest[i].public_key by {
                    assert(rest[j] == list[j]);
                }
                let entry = BriefValidatorDescr {
                    peer_id: list[i].public_key,
                    weight: list[i].weight,
                };
                assert(before.contains(entry));
                let k = before.index_of(entry);
                assert(after[k] == entry);
            }
        }
        assert forall|k: int| 0 <= k < after.len() implies exists|i: int|
            0 <= i < list.len() && (#[trigger] list[i]).public_key == (#[trigger] after[k]).peer_id
                && list[i].weight == after[k].weight && forall|j: int|
                i < j < list.len() ==> (#[trigger] list[j]).public_key != list[i].public_key by {
            if after[k].peer_id == last.peer_id {
                let m = after.index_of(last);
                assert(after[m] == last);
                assert(k == m);
                assert(list[n].public_key == after[k].peer_id);
            } else {
                assert(after[k] == before[k]);
                let i = choose|i: int|
                    0 <= i < rest.len() && (#[trigger] rest[i]).public_key == before[k].peer_id
                        && rest[i].weight == before[k].weight && forall|j: int|
                        i < j < rest.len() ==> (#[trigger] rest[j]).public_key
                            != rest[i].public_key;
                assert(list[i] == rest[i]);
                assert forall|j: int| i < j < list.len() implies (#[trigger] list[j]).public_key
                    != list[i].public_key by {
                    if j < n {
                        assert(rest[j] == list[j]);
                    }
                }
            }
        }
    }
}

/// What validators sign of a block: four bytes of a tag, then the two hashes, so that
/// different blocks are signed differently.
pub proof fn law_signed_data_names_the_block(a: BlockId, b: BlockId)
    ensures
        data_for_sign(a).len() == 68,
        data_for_sign(a)[0] == 0x70,
        data_for_sign(a)[1] == 0x6e,
        data_for_sign(a)[2] == 0x0b,
        data_for_sign(a)[3] == 0xc5,
        data_for_sign(a).subrange(4, 36) == a.root_hash@,
        data_for_sign(a).subrange(36, 68) == a.file_hash@,
        data_for_sign(a) == data_for_sign(b) ==> a.root_hash@ == b.root_hash@ && a.file_hash@
            == b.file_hash@,
{
    assert(data_for_sign(a).subrange(4, 36) =~= a.root_hash@);
    assert(data_for_sign(a).subrange(36, 68) =~= a.file_hash@);
    assert(data_for_sign(b).subrange(4, 36) =~= b.root_hash@);
    assert(data_for_sign(b).subrange(36, 68) =~= b.file_hash@);
}

/// Slots are made ready for the numbers from the first one on, except for those below the
/// least one of interest, and those that exist keep what they hold.
pub proof fn law_new_slots_are_empty(
    before: Map<u32, CachedSignatures>,
    after: Map<u32, CachedSignatures>,
    min_seqno: u32,
    from: u32,
    n: u32,
    validators: nat,
    k: u32,
)
    requires
        slots_created(before, after, min_seqno, from, n, validators),
    ensures
        before.dom().contains(k) ==> after.dom().contains(k) && after[k] == before[k],
        !before.dom().contains(k) ==> (after.dom().contains(k) <==> k >= min_seqno && k >= from
            && k - from < n),
        !before.dom().contains(k) && after.dom().contains(k) ==> after[k].other_signatures@.len()
            == validators && forall|i: int|
            0 <= i < validators ==> (#[trigger] after[k].other_signatures@[i]) is None,
{
    let there = after.dom().contains(k);
    assert(there == (before.dom().contains(k) || (min_seqno <= k && from <= k < from + n)));
}

/// Signatures under a block that are in order: as many slots as validators, the weight of
/// the own validator and of all who have signed, and a verdict exactly if it suffices.
pub proof fn law_block_is_validated_by_weight(session: ValidatorSession, b: BlockSignatures, i: int)
    requires
        session.block_wf(b),
    ensures
        b.other_signatures@.len() == session.validators@.len(),
        b.total_weight == session.own_weight + signed_weight(
            b.other_signatures@,
            session.validators@,
        ),
        b.validated <==> b.total_weight >= session.weight_threshold,
        b.own_signature@ == crate::outside::signature_of(
            session.key_pair.secret@,
            data_for_sign(b.block_id),
        ),
        0 <= i < b.other_signatures@.len() && b.other_signatures@[i] is Some
            ==> crate::outside::signature_verifies(
            session.validators@[i].peer_id@,
            data_for_sign(b.block_id),
            (b.other_signatures@[i]->0)@,
        ),
{
}

/// What makes a session stays: its shard, its name, its first block, its settings, its
/// keys, its weights and its validators.
pub proof fn law_session_stays_the_same(a: ValidatorSession, b: ValidatorSession)
    requires
        a.same_session(&b),
    ensures
        a.shard_ident == b.shard_ident,
        a.session_id == b.session_id,
        a.start_block_seqno == b.start_block_seqno,
        a.config == b.config,
        a.key_pair == b.key_pair,
        a.peer_id == b.peer_id,
        a.own_weight == b.own_weight,
        a.weight_threshold == b.weight_threshold,
        a.validators == b.validators,
{
}

/// A validator is found where it is listed, and a stranger is not found.
pub proof fn law_validator_is_found_where_it_is(session: ValidatorSession, peer_id: PeerId)
    ensures
        session.index_of_peer(peer_id) is None <==> forall|i: int|
            0 <= i < session.validators@.len() ==> (#[trigger] session.validators@[i]).peer_id
                != peer_id,
        session.index_of_peer(peer_id) is Some ==> 0 <= session.index_of_peer(peer_id)->0
            < session.validators@.len() && session.validators@[session.index_of_peer(
            peer_id,
        )->0].peer_id == peer_id,
{
}

} // verus!

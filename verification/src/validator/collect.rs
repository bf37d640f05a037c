//! Collecting the signatures under one block.
use crate::ids::{BlockId, HashBytes, ShardIdent};
use crate::models::parts::{PeerId, Signature};
use crate::outside::{build_data_for_sign, ed25519_sign, ed25519_verify, tl_hash};
use crate::tl::{write_hash, write_shard, write_u32};
use crate::types::ValidationSessionId;
use crate::validator::session::{
    BlockSignatures, BriefValidatorDescr, CachedSignatures, Exchange, ValidationComplete,
    ValidationError, ValidatorSession,
};
use vstd::prelude::*;

verus! {

/// A validation of the same block number is already in progress.
#[derive(Clone, Copy, Debug, PartialEq, Eq, Structural)]
pub struct AlreadyInProgress {
    pub block_seqno: u32,
}

/// A validation that collects signatures. The slots stand in the order of the
/// validators.
#[derive(Debug)]
pub struct ValidationRun {
    pub block_id: BlockId,
    pub own_signature: Signature,
    pub slots: Vec<Option<Signature>>,
    pub total_weight: u64,
    /// The validators whose signature is still to be asked for, with the one
    /// that was cached from them.
    pub pending: Vec<(PeerId, Option<Signature>)>,
}

impl ValidationRun {
    /// Whether the weight is that of the own signature and of the slots.
    pub open spec fn wf(&self, session: &ValidatorSession) -> bool {
        &&& self.slots@.len() == session.validators@.len()
        &&& self.total_weight == session.own_weight + crate::validator::session::signed_weight(
            self.slots@,
            session.validators@,
        )
    }

    /// Whether the own signature was made with the key of the session, and it and
    /// those in the slots verify.
    pub open spec fn all_verify(&self, session: &ValidatorSession) -> bool {
        let data = crate::validator::session::data_for_sign(self.block_id);
        &&& self.own_signature@ == crate::outside::signature_of(session.key_pair.secret@, data)
        &&& crate::outside::signature_verifies(
            crate::outside::public_key_of(session.key_pair.secret@),
            data,
            self.own_signature@,
        )
        &&& slots_verify(self.slots@, session.validators@, data)
    }
}

/// Whether the signatures in slots are those of the validators under some bytes.
pub open spec fn slots_verify(
    slots: Seq<Option<Signature>>,
    validators: Seq<BriefValidatorDescr>,
    data: Seq<u8>,
) -> bool {
    forall|i: int|
        #![trigger slots[i]]
        0 <= i < slots.len() && slots[i] is Some ==> crate::outside::signature_verifies(
            validators[i].peer_id@,
            data,
            (slots[i]->0)@,
        )
}

/// What happens while signatures are collected.
#[derive(Clone, Copy, Debug)]
pub enum CollectEvent {
    /// The requests are on their way.
    Started,
    /// A signature of a validator was accepted.
    Received(PeerId, Signature),
    /// No validator is left to ask.
    NoMore,
    /// The session was cancelled.
    SessionCancelled,
    /// The validation of the block was cancelled.
    BlockCancelled,
}

/// What a validation does next.
#[derive(Clone, Copy, Debug, PartialEq, Eq, Structural)]
pub enum CollectStep {
    /// It waits for more signatures.
    Collect,
    /// It has enough.
    Complete,
    /// It is given up without a verdict.
    Skipped,
    /// It fails: there are no more signatures but the threshold is not reached.
    NotReached,
}

/// What follows a signature received from a peer.
#[derive(Clone, Copy, Debug)]
pub enum ReceiveNext {
    /// The signature counts.
    Done(Signature),
    /// The peer is to be asked, at once.
    Retry,
    /// The peer has sent a signature that is refused: it is to be asked again after
    /// the pause that follows a failed exchange.
    RetryAfterPause,
}

/// What is known of the signature of a peer.
#[derive(Clone, Copy, Debug)]
pub enum PeerAnswer {
    /// The peer has answered with its signature.
    Complete(Signature),
    /// It had sent its signature before the block was known.
    Cached(Signature),
    /// Nothing yet, or it did not answer properly.
    Nothing,
}

/// The slots that are left of cached signatures: those that verify.
pub open spec fn valid_slots(
    cached: Seq<Option<Signature>>,
    validators: Seq<BriefValidatorDescr>,
    data: Seq<u8>,
) -> Seq<Option<Signature>> {
    Seq::new(
        cached.len(),
        |i: int|
            if cached[i] is Some && crate::outside::signature_verifies(
                validators[i].peer_id@,
                data,
                (cached[i]->0)@,
            ) {
                cached[i]
            } else {
                None
            },
    )
}

/// What adding a signature of the validator at place `i` gives.
pub open spec fn add_result(
    validators: Seq<BriefValidatorDescr>,
    b: BlockSignatures,
    i: int,
    signature: Signature,
) -> Result<(), ValidationError> {
    match b.other_signatures@[i] {
        Some(saved) => if saved == signature {
            Ok(())
        } else {
            Err(ValidationError::SignatureChanged)
        },
        None => if crate::outside::signature_verifies(
            validators[i].peer_id@,
            crate::validator::session::data_for_sign(b.block_id),
            signature@,
        ) {
            Ok(())
        } else {
            Err(ValidationError::InvalidSignature)
        },
    }
}

/// The signatures under a block after one was accepted.
pub open spec fn block_after_add(
    before: BlockSignatures,
    after: BlockSignatures,
    weight: u64,
    threshold: u64,
    i: int,
    signature: Signature,
) -> bool {
    if before.other_signatures@[i] is Some {
        after == before
    } else {
        &&& after.other_signatures@ == before.other_signatures@.update(i, Some(signature))
        &&& after.total_weight == before.total_weight + weight
        &&& after.validated == (after.total_weight >= threshold)
        &&& after.block_id == before.block_id
        &&& after.own_signature == before.own_signature
        &&& after.cancelled == before.cancelled
    }
}

/// The pending peers of a block: those without a signature, with what was cached
/// from them.
pub open spec fn pending_of(
    slots: Seq<Option<Signature>>,
    cached: Seq<Option<Signature>>,
    validators: Seq<BriefValidatorDescr>,
) -> Seq<(PeerId, Option<Signature>)>
    decreases slots.len(),
{
    if slots.len() == 0 {
        Seq::empty()
    } else {
        let before = pending_of(slots.drop_last(), cached.drop_last(), validators.drop_last());
        if slots.last() is Some {
            before
        } else {
            before.push((validators.last().peer_id, cached.last()))
        }
    }
}

/// The peers that have signed a block, with their signatures.
pub open spec fn signed_of(
    slots: Seq<Option<Signature>>,
    validators: Seq<BriefValidatorDescr>,
) -> Seq<(PeerId, Signature)>
    decreases slots.len(),
{
    if slots.len() == 0 {
        Seq::empty()
    } else {
        let before = signed_of(slots.drop_last(), validators.drop_last());
        if slots.last() is Some {
            before.push((validators.last().peer_id, slots.last()->0))
        } else {
            before
        }
    }
}

/// The bytes whose hash names the overlay of a session: the zerostate, the
/// shard and the number of the session, behind the constructor number.
pub open spec fn overlay_data(
    constructor: u32,
    zerostate_id: BlockId,
    shard_ident: ShardIdent,
    session_seqno: u32,
) -> Seq<u8> {
    crate::tl::le32(constructor) + zerostate_id.root_hash@ + zerostate_id.file_hash@
        + crate::tl::enc_shard(shard_ident) + crate::tl::le32(session_seqno)
}

/// Names the overlay in which the validators of a session meet.
pub fn compute_session_overlay_id(
    constructor: u32,
    zerostate_id: &BlockId,
    shard_ident: &ShardIdent,
    session_id: &ValidationSessionId,
) -> (r: HashBytes)
    ensures
        r@ == crate::outside::tl_hash_of(
            overlay_data(constructor, *zerostate_id, *shard_ident, session_id.0),
        ),
{
    let mut data: Vec<u8> = Vec::new();
    write_u32(&mut data, constructor);
    write_hash(&mut data, &zerostate_id.root_hash);
    write_hash(&mut data, &zerostate_id.file_hash);
    write_shard(&mut data, shard_ident);
    write_u32(&mut data, session_id.0);
    assert(data@ =~= overlay_data(constructor, *zerostate_id, *shard_ident, session_id.0));
    tl_hash(data.as_slice())
}

impl ValidatorSession {
    /// The own signature under a block, and slots that hold those of the cached
    /// signatures that verify.
    fn prepare_signatures(&self, block_id: &BlockId, cached: Option<&CachedSignatures>) -> (r:
        BlockSignatures)
        requires
            self.wf(),
            cached matches Some(c) ==> c.other_signatures@.len() == self.validators@.len(),
        ensures
            self.block_wf(r),
            r.block_id == *block_id,
            !r.cancelled,
            match cached {
                None => forall|i: int|
                    0 <= i < r.other_signatures@.len() ==> (#[trigger] r.other_signatures@[i]) is None,
                Some(c) => r.other_signatures@ == valid_slots(
                    c.other_signatures@,
                    self.validators@,
                    crate::validator::session::data_for_sign(*block_id),
                ),
            },
    {
        let data = build_data_for_sign(block_id);
        let own_signature = ed25519_sign(&self.key_pair.secret, data.as_slice());
        let mut slots: Vec<Option<Signature>> = Vec::new();
        let mut total_weight: u64 = self.own_weight;
        let mut i: usize = 0;
        while i < self.validators.len()
            invariant
                self.wf(),
                i <= self.validators@.len(),
                slots@.len() == i,
                data@ == crate::validator::session::data_for_sign(*block_id),
                cached matches Some(c) ==> c.other_signatures@.len() == self.validators@.len(),
                total_weight == self.own_weight + signed_prefix(slots@, self.validators@, i as int),
                forall|j: int|
                    0 <= j < i ==> #[trigger] slots@[j] == (match cached {
                        None => None,
                        Some(c) => valid_slots(c.other_signatures@, self.validators@, data@)[j],
                    }),
            decreases self.validators@.len() - i,
        {
            let candidate: Option<Signature> = match cached {
                None => None,
                Some(c) => c.other_signatures[i],
            };
            let stored: Option<Signature> = match candidate {
                None => None,
                Some(signature) => if ed25519_verify(
                    &self.validators[i].peer_id,
                    data.as_slice(),
                    &signature,
                ) {
                    Some(signature)
                } else {
                    None
                },
            };
            let ghost before = slots@;
            slots.push(stored);
            proof {
                lemma_signed_prefix_push(before, self.validators@, stored);
                lemma_signed_prefix_bound(slots@, self.validators@);
            }
            if stored.is_some() {
                total_weight = total_weight + self.validators[i].weight;
            }
            i = i + 1;
        }
        proof {
            assert(self.validators@.take(i as int) =~= self.validators@);
            assert(slots@.take(i as int) =~= slots@);
            lemma_signed_prefix_bound(slots@, self.validators@);
            assert forall|j: int|
                #![trigger slots@[j]]
                0 <= j < slots@.len()
                    && slots@[j] is Some implies crate::outside::signature_verifies(
                self.validators@[j].peer_id@,
                data@,
                (slots@[j]->0)@,
            ) by {
                match cached {
                    Some(c) => {
                        assert(slots@[j] == valid_slots(
                            c.other_signatures@,
                            self.validators@,
                            data@,
                        )[j]);
                    },
                    None => {},
                }
            }
            match cached {
                Some(c) => {
                    assert(slots@ =~= valid_slots(c.other_signatures@, self.validators@, data@));
                },
                None => {},
            }
        }
        BlockSignatures {
            block_id: *block_id,
            own_signature,
            other_signatures: slots,
            total_weight,
            validated: total_weight >= self.weight_threshold,
            cancelled: false,
        }
    }

    /// Adds a signature of the validator at place `i` to a block that is being
    /// validated. A second signature of the same peer has to be the same, and a
    /// first one has to verify.
    fn add_signature(&mut self, block_seqno: u32, i: usize, signature: &Signature) -> (r: Result<
        (),
        ValidationError,
    >)
        requires
            old(self).wf(),
            old(self).block_signatures@.dom().contains(block_seqno),
            i < old(self).validators@.len(),
        ensures
            final(self).wf(),
            *final(self) == (ValidatorSession {
                block_signatures: final(self).block_signatures,
                ..*old(self)
            }),
            final(self).block_signatures@.dom() == old(self).block_signatures@.dom(),
            forall|k: u32|
                k != block_seqno && #[trigger] old(self).block_signatures@.dom().contains(k)
                    ==> final(self).block_signatures@[k] == old(self).block_signatures@[k],
            r == add_result(
                old(self).validators@,
                old(self).block_signatures@[block_seqno],
                i as int,
                *signature,
            ),
            if r is Ok {
                block_after_add(
                    old(self).block_signatures@[block_seqno],
                    final(self).block_signatures@[block_seqno],
                    old(self).validators@[i as int].weight,
                    old(self).weight_threshold,
                    i as int,
                    *signature,
                )
            } else {
                final(self).block_signatures@ == old(self).block_signatures@
            },
    {
        let ghost before = self.block_signatures@;
        let ghost block0 = before[block_seqno];
        let (block_id, saved): (BlockId, Option<Signature>) = match self.block_signatures.get(
            block_seqno,
        ) {
            Some(block) => (block.block_id, block.other_signatures[i]),
            None => {
                return Err(ValidationError::NoSlot);
            },
        };
        if let Some(saved) = saved {
            if saved.same(signature) {
                return Ok(());
            }
            return Err(ValidationError::SignatureChanged);
        }
        let data = build_data_for_sign(&block_id);
        if !ed25519_verify(&self.validators[i].peer_id, data.as_slice(), signature) {
            return Err(ValidationError::InvalidSignature);
        }
        match self.block_signatures.remove(block_seqno) {
            Some(mut block) => {
                proof {
                    lemma_fill(
                        block.other_signatures@,
                        self.validators@,
                        i as int,
                        *signature,
                    );
                }
                block.other_signatures.set(i, Some(*signature));
                block.total_weight = block.total_weight + self.validators[i].weight;
                block.validated = block.total_weight >= self.weight_threshold;
                let ghost after = block;
                let _new = self.block_signatures.insert(block_seqno, block);
                proof {
                    assert(self.block_signatures@ =~= before.insert(block_seqno, after));
                    assert(self.block_signatures@.dom() =~= before.dom());
                    assert forall|k: u32| #[trigger]
                        self.block_signatures@.dom().contains(k) implies self.block_wf(
                        self.block_signatures@[k],
                    ) && self.block_signatures@[k].block_id.seqno == k by {
                        assert(before.dom().contains(k));
                        if k == block_seqno {
                            assert(old(self).block_wf(block0));
                        } else {
                            assert(old(self).block_wf(before[k]));
                        }
                    }
                }
            },
            None => {},
        }
        Ok(())
    }

    /// Answers the signature of a peer. Under a block that is being validated it
    /// is added, unless enough signatures are there already, and the own one is
    /// given in return. For a block not known yet it is cached in the place of an
    /// earlier one, if there is a slot.
    pub fn exchange_signatures(
        &mut self,
        peer_id: &PeerId,
        block_seqno: u32,
        signature: &Signature,
    ) -> (r: Result<Exchange, ValidationError>)
        requires
            old(self).wf(),
        ensures
            final(self).wf(),
            final(self).same_session(old(self)),
            final(self).cancelled == old(self).cancelled,
            final(self).min_seqno == old(self).min_seqno,
            ({
                let blocks = old(self).block_signatures@;
                let caches = old(self).cached_signatures@;
                let place = old(self).index_of_peer(*peer_id);
                let unchanged = final(self).block_signatures@ == blocks
                    && final(self).cached_signatures@ == caches;
                if old(self).cancelled {
                    r == Err::<Exchange, ValidationError>(ValidationError::Cancelled) && unchanged
                } else if blocks.dom().contains(block_seqno) {
                    let block = blocks[block_seqno];
                    &&& final(self).cached_signatures@ == caches
                    &&& match place {
                        None => r == Err::<Exchange, ValidationError>(
                            ValidationError::UnknownPeer,
                        ) && unchanged,
                        Some(i) => if block.validated {
                            r == Ok::<Exchange, ValidationError>(
                                Exchange::Complete(block.own_signature),
                            ) && unchanged
                        } else {
                            match add_result(old(self).validators@, block, i, *signature) {
                                Err(e) => r == Err::<Exchange, ValidationError>(e) && unchanged,
                                Ok(_) => {
                                    &&& r == Ok::<Exchange, ValidationError>(
                                        Exchange::Complete(block.own_signature),
                                    )
                                    &&& final(self).block_signatures@.dom() == blocks.dom()
                                    &&& block_after_add(
                                        block,
                                        final(self).block_signatures@[block_seqno],
                                        old(self).validators@[i].weight,
                                        old(self).weight_threshold,
                                        i,
                                        *signature,
                                    )
                                    &&& forall|k: u32|
                                        k != block_seqno && #[trigger] blocks.dom().contains(k)
                                            ==> final(self).block_signatures@[k] == blocks[k]
                                },
                            }
                        },
                    }
                } else if !caches.dom().contains(block_seqno) {
                    r == Err::<Exchange, ValidationError>(ValidationError::NoSlot) && unchanged
                } else {
                    match place {
                        None => r == Err::<Exchange, ValidationError>(
                            ValidationError::UnknownPeer,
                        ) && unchanged,
                        Some(i) => {
                            &&& r == Ok::<Exchange, ValidationError>(Exchange::Cached)
                            &&& final(self).block_signatures@ == blocks
                            &&& final(self).cached_signatures@.dom() == caches.dom()
                            &&& final(self).cached_signatures@[block_seqno].other_signatures@
                                == caches[block_seqno].other_signatures@.update(
                                i,
                                Some(*signature),
                            )
                            &&& forall|k: u32|
                                k != block_seqno && #[trigger] caches.dom().contains(k)
                                    ==> final(self).cached_signatures@[k] == caches[k]
                        },
                    }
                }
            }),
    {
        if self.cancelled {
            return Err(ValidationError::Cancelled);
        }
        let known: Option<(Signature, bool)> = match self.block_signatures.get(block_seqno) {
            Some(block) => Some((block.own_signature, block.validated)),
            None => None,
        };
        match known {
            Some((own_signature, validated)) => match self.find_peer(peer_id) {
                None => Err(ValidationError::UnknownPeer),
                Some(i) => {
                    if !validated {
                        match self.add_signature(block_seqno, i, signature) {
                            Ok(()) => {},
                            Err(e) => {
                                return Err(e);
                            },
                        }
                    }
                    Ok(Exchange::Complete(own_signature))
                },
            },
            None => {
                if self.cached_signatures.get(block_seqno).is_none() {
                    return Err(ValidationError::NoSlot);
                }
                match self.find_peer(peer_id) {
                    None => Err(ValidationError::UnknownPeer),
                    Some(i) => {
                        let ghost caches = self.cached_signatures@;
                        match self.cached_signatures.remove(block_seqno) {
                            Some(mut slots) => {
                                slots.other_signatures.set(i, Some(*signature));
                                let ghost after = slots;
                                let _new = self.cached_signatures.insert(block_seqno, slots);
                                proof {
                                    assert(self.cached_signatures@ =~= caches.insert(
                                        block_seqno,
                                        after,
                                    ));
                                    assert(self.cached_signatures@.dom() =~= caches.dom());
                                }
                            },
                            None => {},
                        }
                        Ok(Exchange::Cached)
                    },
                }
            },
        }
    }

    /// Starts the validation of a block. Cached signatures under it that verify
    /// count at once; the others are to be asked for again. Only one validation
    /// of a number can run.
    pub fn validate_block(&mut self, block_id: &BlockId) -> (r: Result<
        ValidationRun,
        AlreadyInProgress,
    >)
        requires
            old(self).wf(),
            block_id.seqno + 1 + old(self).config.signature_cache_slots <= u32::MAX,
        ensures
            final(self).wf(),
            final(self).same_session(old(self)),
            final(self).cancelled == old(self).cancelled,
            final(self).min_seqno == (if old(self).min_seqno > block_id.seqno {
                old(self).min_seqno
            } else {
                block_id.seqno
            }),
            r is Err <==> old(self).block_signatures@.dom().contains(block_id.seqno),
            match r {
                Err(e) => {
                    &&& e.block_seqno == block_id.seqno
                    &&& final(self).block_signatures@ == old(self).block_signatures@
                    &&& crate::validator::session::slots_created(
                        old(self).cached_signatures@,
                        final(self).cached_signatures@,
                        final(self).min_seqno,
                        (block_id.seqno + 1) as u32,
                        old(self).config.signature_cache_slots,
                        old(self).validators@.len(),
                    )
                },
                Ok(run) => {
                    let block = final(self).block_signatures@[block_id.seqno];
                    let caches = old(self).cached_signatures@;
                    let cached = if caches.dom().contains(block_id.seqno) {
                        caches[block_id.seqno].other_signatures@
                    } else {
                        Seq::new(old(self).validators@.len(), |i: int| None::<Signature>)
                    };
                    &&& final(self).block_signatures@ == old(self).block_signatures@.insert(
                        block_id.seqno,
                        block,
                    )
                    &&& block.block_id == *block_id
                    &&& !block.cancelled
                    &&& block.other_signatures@ == valid_slots(
                        cached,
                        old(self).validators@,
                        crate::validator::session::data_for_sign(*block_id),
                    )
                    &&& !final(self).cached_signatures@.dom().contains(block_id.seqno)
                    &&& crate::validator::session::slots_created(
                        old(self).cached_signatures@.remove(block_id.seqno),
                        final(self).cached_signatures@,
                        final(self).min_seqno,
                        (block_id.seqno + 1) as u32,
                        old(self).config.signature_cache_slots,
                        old(self).validators@.len(),
                    )
                    &&& run.block_id == *block_id
                    &&& run.wf(old(self))
                    &&& run.all_verify(old(self))
                    &&& run.own_signature == block.own_signature
                    &&& run.slots@ == block.other_signatures@
                    &&& run.total_weight == block.total_weight
                    &&& run.pending@ == pending_of(
                        block.other_signatures@,
                        cached,
                        old(self).validators@,
                    )
                },
            },
    {
        if self.min_seqno < block_id.seqno {
            self.min_seqno = block_id.seqno;
        }
        let ghost caches = self.cached_signatures@;
        self.create_cache_slots(block_id.seqno + 1, self.config.signature_cache_slots);
        let ghost created = self.cached_signatures@;
        if self.block_signatures.get(block_id.seqno).is_some() {
            return Err(AlreadyInProgress { block_seqno: block_id.seqno });
        }
        let cached: Option<CachedSignatures> = self.cached_signatures.remove(block_id.seqno);
        let ghost cached_slots = if caches.dom().contains(block_id.seqno) {
            caches[block_id.seqno].other_signatures@
        } else {
            Seq::new(self.validators@.len(), |i: int| None::<Signature>)
        };
        let block = match &cached {
            Some(slots) => self.prepare_signatures(block_id, Some(slots)),
            None => self.prepare_signatures(block_id, None),
        };
        let data = Ghost(crate::validator::session::data_for_sign(*block_id));
        proof {
            assert(cached is Some == caches.dom().contains(block_id.seqno));
            assert(block.other_signatures@ =~= valid_slots(
                cached_slots,
                self.validators@,
                data@,
            ));
        }
        let mut slots: Vec<Option<Signature>> = Vec::new();
        let mut pending: Vec<(PeerId, Option<Signature>)> = Vec::new();
        let mut i: usize = 0;
        assert(pending@ =~= pending_of(
            block.other_signatures@.take(0),
            cached_slots.take(0),
            self.validators@.take(0),
        ));
        while i < self.validators.len()
            invariant
                i <= self.validators@.len(),
                block.other_signatures@.len() == self.validators@.len(),
                cached_slots.len() == self.validators@.len(),
                cached matches Some(c) ==> c.other_signatures@ == cached_slots,
                cached is None ==> cached_slots == Seq::new(
                    self.validators@.len(),
                    |i: int| None::<Signature>,
                ),
                slots@ == block.other_signatures@.take(i as int),
                pending@ == pending_of(
                    block.other_signatures@.take(i as int),
                    cached_slots.take(i as int),
                    self.validators@.take(i as int),
                ),
            decreases self.validators@.len() - i,
        {
            let peer: PeerId = self.validators[i].peer_id;
            let from_cache: Option<Signature> = match &cached {
                Some(slots) => slots.other_signatures[i],
                None => None,
            };
            proof {
                let n = i as int;
                assert(block.other_signatures@.take(n + 1).drop_last()
                    =~= block.other_signatures@.take(n));
                assert(block.other_signatures@.take(n + 1) =~= block.other_signatures@.take(n).push(
                    block.other_signatures@[n],
                ));
                assert(cached_slots.take(n + 1).drop_last() =~= cached_slots.take(n));
                assert(self.validators@.take(n + 1).drop_last() =~= self.validators@.take(n));
            }
            slots.push(block.other_signatures[i]);
            if block.other_signatures[i].is_none() {
                pending.push((peer, from_cache));
            }
            i = i + 1;
        }
        proof {
            assert(block.other_signatures@.take(i as int) =~= block.other_signatures@);
            assert(cached_slots.take(i as int) =~= cached_slots);
            assert(self.validators@.take(i as int) =~= self.validators@);
        }
        let own_signature: Signature = block.own_signature;
        let total_weight: u64 = block.total_weight;
        let ghost blocks = self.block_signatures@;
        let _new = self.block_signatures.insert(block_id.seqno, block);
        proof {
            assert forall|k: u32| #[trigger]
                self.block_signatures@.dom().contains(k) implies self.block_wf(
                self.block_signatures@[k],
            ) && self.block_signatures@[k].block_id.seqno == k by {
                if k != block_id.seqno {
                    assert(blocks.dom().contains(k));
                    assert(old(self).block_wf(blocks[k]));
                }
            }
        }
        Ok(ValidationRun { block_id: *block_id, own_signature, slots, total_weight, pending })
    }

    /// Decides about a signature that a peer has sent, or that was cached from
    /// it, while its block is validated. When the slot was filled in the
    /// meantime, what is in it counts.
    pub fn receive_signature(
        &mut self,
        block_seqno: u32,
        peer_id: &PeerId,
        answer: PeerAnswer,
    ) -> (r: ReceiveNext)
        requires
            old(self).wf(),
            old(self).block_signatures@.dom().contains(block_seqno),
            old(self).index_of_peer(*peer_id) is Some,
        ensures
            final(self).wf(),
            *final(self) == (ValidatorSession {
                block_signatures: final(self).block_signatures,
                ..*old(self)
            }),
            final(self).block_signatures@.dom() == old(self).block_signatures@.dom(),
            forall|k: u32|
                k != block_seqno && #[trigger] old(self).block_signatures@.dom().contains(k)
                    ==> final(self).block_signatures@[k] == old(self).block_signatures@[k],
            r matches ReceiveNext::Done(signature) ==> crate::outside::signature_verifies(
                peer_id@,
                crate::validator::session::data_for_sign(
                    old(self).block_signatures@[block_seqno].block_id,
                ),
                signature@,
            ),
            ({
                let i = old(self).index_of_peer(*peer_id)->0;
                let block = old(self).block_signatures@[block_seqno];
                let saved = block.other_signatures@[i];
                match answer {
                    PeerAnswer::Nothing => r is Retry && final(self).block_signatures@ == old(
                        self,
                    ).block_signatures@,
                    PeerAnswer::Complete(signature) | PeerAnswer::Cached(signature) => match add_result(
                        old(self).validators@,
                        block,
                        i,
                        signature,
                    ) {
                        Ok(_) => r == ReceiveNext::Done(signature) && block_after_add(
                            block,
                            final(self).block_signatures@[block_seqno],
                            old(self).validators@[i].weight,
                            old(self).weight_threshold,
                            i,
                            signature,
                        ),
                        Err(ValidationError::SignatureChanged) => saved is Some && r
                            == ReceiveNext::Done(saved->0) && final(self).block_signatures@ == old(
                            self,
                        ).block_signatures@,
                        Err(_) => {
                            &&& r == if answer is Cached {
                                ReceiveNext::Retry
                            } else {
                                ReceiveNext::RetryAfterPause
                            }
                            &&& final(self).block_signatures@ == old(self).block_signatures@
                        },
                    },
                }
            }),
    {
        let (signature, refused): (Signature, ReceiveNext) = match answer {
            PeerAnswer::Nothing => {
                return ReceiveNext::Retry;
            },
            PeerAnswer::Complete(signature) => (signature, ReceiveNext::RetryAfterPause),
            PeerAnswer::Cached(signature) => (signature, ReceiveNext::Retry),
        };
        let i = match self.find_peer(peer_id) {
            Some(i) => i,
            None => {
                return ReceiveNext::Retry;
            },
        };
        match self.add_signature(block_seqno, i, &signature) {
            Ok(()) => ReceiveNext::Done(signature),
            Err(ValidationError::SignatureChanged) => match self.block_signatures.get(block_seqno) {
                Some(block) => match block.other_signatures[i] {
                    Some(saved) => ReceiveNext::Done(saved),
                    None => ReceiveNext::Retry,
                },
                None => ReceiveNext::Retry,
            },
            Err(_) => refused,
        }
    }

    /// Takes an event into a validation and says what it does next.
    pub fn on_collect_event(&self, run: &mut ValidationRun, event: CollectEvent) -> (r: CollectStep)
        requires
            self.wf(),
            old(run).wf(self),
            event matches CollectEvent::Received(peer_id, _) ==> self.index_of_peer(peer_id)
                matches Some(i) && old(run).slots@[i] is None,
        ensures
            final(run).wf(self),
            old(run).all_verify(self) && (event matches CollectEvent::Received(peer_id, signature)
                ==> crate::outside::signature_verifies(
                peer_id@,
                crate::validator::session::data_for_sign(old(run).block_id),
                signature@,
            )) ==> final(run).all_verify(self),
            final(run).block_id == old(run).block_id,
            final(run).own_signature == old(run).own_signature,
            final(run).pending == old(run).pending,
            match event {
                CollectEvent::Received(peer_id, signature) => {
                    let i = self.index_of_peer(peer_id)->0;
                    &&& final(run).slots@ == old(run).slots@.update(i, Some(signature))
                    &&& final(run).total_weight == old(run).total_weight
                        + self.validators@[i].weight
                },
                _ => final(run).slots@ == old(run).slots@ && final(run).total_weight == old(
                    run,
                ).total_weight,
            },
            r == (match event {
                CollectEvent::Started | CollectEvent::Received(_, _) => if event is Started
                    && self.cancelled {
                    CollectStep::Skipped
                } else if final(run).total_weight >= self.weight_threshold {
                    CollectStep::Complete
                } else {
                    CollectStep::Collect
                },
                CollectEvent::NoMore => CollectStep::NotReached,
                CollectEvent::SessionCancelled | CollectEvent::BlockCancelled => CollectStep::Skipped,
            }),
    {
        match event {
            CollectEvent::Started => {
                if self.cancelled {
                    return CollectStep::Skipped;
                }
            },
            CollectEvent::Received(peer_id, signature) => match self.find_peer(&peer_id) {
                Some(i) => {
                    proof {
                        lemma_fill(run.slots@, self.validators@, i as int, signature);
                    }
                    run.slots.set(i, Some(signature));
                    run.total_weight = run.total_weight + self.validators[i].weight;
                },
                None => {},
            },
            CollectEvent::NoMore => {
                return CollectStep::NotReached;
            },
            CollectEvent::SessionCancelled => {
                return CollectStep::Skipped;
            },
            CollectEvent::BlockCancelled => {
                return CollectStep::Skipped;
            },
        }
        if run.total_weight >= self.weight_threshold {
            CollectStep::Complete
        } else {
            CollectStep::Collect
        }
    }

    /// What a validation has collected: the own signature, then those of the others.
    pub open spec fn collected_of(&self, run: ValidationRun) -> Seq<(PeerId, Signature)> {
        seq![(self.peer_id, run.own_signature)] + signed_of(run.slots@, self.validators@)
    }

    /// The collected signatures, the own one first.
    pub fn collected_signatures(&self, run: &ValidationRun) -> (r: ValidationComplete)
        requires
            run.wf(self),
        ensures
            r.signatures@ == self.collected_of(*run),
            r.total_weight == run.total_weight,
    {
        let mut signatures: Vec<(PeerId, Signature)> = Vec::new();
        signatures.push((self.peer_id, run.own_signature));
        let ghost own = signatures@;
        let mut i: usize = 0;
        assert(signatures@ =~= own + signed_of(run.slots@.take(0), self.validators@.take(0)));
        while i < self.validators.len()
            invariant
                i <= self.validators@.len(),
                run.slots@.len() == self.validators@.len(),
                signatures@ == own + signed_of(
                    run.slots@.take(i as int),
                    self.validators@.take(i as int),
                ),
            decreases self.validators@.len() - i,
        {
            proof {
                let n = i as int;
                assert(run.slots@.take(n + 1).drop_last() =~= run.slots@.take(n));
                assert(self.validators@.take(n + 1).drop_last() =~= self.validators@.take(n));
            }
            if let Some(signature) = run.slots[i] {
                signatures.push((self.validators[i].peer_id, signature));
            }
            assert(signatures@ =~= own + signed_of(
                run.slots@.take(i + 1),
                self.validators@.take(i + 1),
            ));
            i = i + 1;
        }
        proof {
            assert(run.slots@.take(i as int) =~= run.slots@);
            assert(self.validators@.take(i as int) =~= self.validators@);
            assert(own =~= seq![(self.peer_id, run.own_signature)]);
        }
        ValidationComplete { signatures, total_weight: run.total_weight }
    }
}

/// The weight of those who have signed among the first validators.
spec fn signed_prefix(
    slots: Seq<Option<Signature>>,
    validators: Seq<BriefValidatorDescr>,
    n: int,
) -> nat {
    crate::validator::session::signed_weight(slots.take(n), validators.take(n))
}

proof fn lemma_signed_prefix_push(
    slots: Seq<Option<Signature>>,
    validators: Seq<BriefValidatorDescr>,
    stored: Option<Signature>,
)
    requires
        slots.len() < validators.len(),
    ensures
        signed_prefix(slots.push(stored), validators, slots.len() as int + 1) == signed_prefix(
            slots,
            validators,
            slots.len() as int,
        ) + (if stored is Some {
            validators[slots.len() as int].weight as nat
        } else {
            0
        }),
{
    let n = slots.len() as int;
    let next = slots.push(stored);
    assert(next.take(n + 1).drop_last() =~= slots.take(n));
    assert(validators.take(n + 1).drop_last() =~= validators.take(n));
    assert(next.take(n + 1).last() == stored);
}

proof fn lemma_signed_prefix_bound(
    slots: Seq<Option<Signature>>,
    validators: Seq<BriefValidatorDescr>,
)
    requires
        slots.len() <= validators.len(),
    ensures
        signed_prefix(slots, validators, slots.len() as int)
            <= crate::validator::session::full_weight(validators),
{
    let n = slots.len() as int;
    crate::validator::session::lemma_signed_at_most_full(slots.take(n), validators.take(n));
    crate::validator::session::lemma_full_weight_take(validators, n);
}

proof fn lemma_fill(
    slots: Seq<Option<Signature>>,
    validators: Seq<BriefValidatorDescr>,
    i: int,
    signature: Signature,
)
    requires
        slots.len() == validators.len(),
        0 <= i < slots.len(),
        slots[i] is None,
    ensures
        crate::validator::session::signed_weight(slots.update(i, Some(signature)), validators)
            == crate::validator::session::signed_weight(slots, validators) + validators[i].weight,
        crate::validator::session::signed_weight(slots, validators) + validators[i].weight
            <= crate::validator::session::full_weight(validators),
{
    crate::validator::session::lemma_signed_fill(slots, validators, i, signature);
    crate::validator::session::lemma_signed_at_most_full(
        slots.update(i, Some(signature)),
        validators,
    );
}

proof fn lemma_signed_verify(
    slots: Seq<Option<Signature>>,
    validators: Seq<BriefValidatorDescr>,
    data: Seq<u8>,
    k: int,
)
    requires
        slots.len() == validators.len(),
        slots_verify(slots, validators, data),
        0 <= k < signed_of(slots, validators).len(),
    ensures
        crate::outside::signature_verifies(
            signed_of(slots, validators)[k].0@,
            data,
            signed_of(slots, validators)[k].1@,
        ),
    decreases slots.len(),
{
    if slots.len() > 0 {
        let before = signed_of(slots.drop_last(), validators.drop_last());
        if k < before.len() {
            assert forall|i: int|
                #![trigger slots.drop_last()[i]]
                0 <= i < slots.drop_last().len()
                    && slots.drop_last()[i] is Some implies crate::outside::signature_verifies(
                validators.drop_last()[i].peer_id@,
                data,
                (slots.drop_last()[i]->0)@,
            ) by {
                assert(slots[i] == slots.drop_last()[i]);
            }
            lemma_signed_verify(slots.drop_last(), validators.drop_last(), data, k);
        } else {
            assert(slots[slots.len() - 1] is Some);
        }
    }
}

/// Everything that a validation has collected verifies under its block: the own
/// signature with the key of the session, the others with the key of their validator.
pub proof fn law_collected_signatures_verify(session: ValidatorSession, run: ValidationRun, k: int)
    requires
        run.wf(&session),
        run.all_verify(&session),
        0 <= k < session.collected_of(run).len(),
    ensures
        ({
            let (peer_id, signature) = session.collected_of(run)[k];
            crate::outside::signature_verifies(
                if k == 0 {
                    crate::outside::public_key_of(session.key_pair.secret@)
                } else {
                    peer_id@
                },
                crate::validator::session::data_for_sign(run.block_id),
                signature@,
            )
        }),
{
    if k > 0 {
        lemma_signed_verify(
            run.slots@,
            session.validators@,
            crate::validator::session::data_for_sign(run.block_id),
            k - 1,
        );
    }
}

/// The signatures under a block only grow: a slot once filled keeps its
/// signature, so a block once validated stays validated.
pub proof fn law_signatures_only_grow(
    session: ValidatorSession,
    before: BlockSignatures,
    after: BlockSignatures,
    i: int,
    signature: Signature,
    j: int,
)
    requires
        session.block_wf(before),
        0 <= i < session.validators@.len(),
        0 <= j < session.validators@.len(),
        block_after_add(
            before,
            after,
            session.validators@[i].weight,
            session.weight_threshold,
            i,
            signature,
        ),
    ensures
        before.other_signatures@[j] is Some ==> after.other_signatures@[j]
            == before.other_signatures@[j],
        before.total_weight <= after.total_weight,
        before.validated ==> after.validated,
{
}

/// A signature is accepted exactly if it is the one that its slot holds, or if the slot is
/// empty and it verifies. Another one than the slot holds has changed; one for an empty
/// slot that does not verify is invalid.
pub proof fn law_signature_is_accepted_once(
    validators: Seq<BriefValidatorDescr>,
    b: BlockSignatures,
    i: int,
    signature: Signature,
)
    ensures
        ({
            let slot = b.other_signatures@[i];
            let verifies = crate::outside::signature_verifies(
                validators[i].peer_id@,
                crate::validator::session::data_for_sign(b.block_id),
                signature@,
            );
            let r = add_result(validators, b, i, signature);
            &&& r is Ok <==> slot == Some(signature) || (slot is None && verifies)
            &&& r == Err::<(), ValidationError>(ValidationError::SignatureChanged) <==> slot is Some
                && slot != Some(signature)
            &&& r == Err::<(), ValidationError>(ValidationError::InvalidSignature) <==> slot is None
                && !verifies
        }),
{
}

/// An accepted signature fills its slot and adds the weight of its validator, once; the
/// other slots stay. The block is validated exactly if the weight reaches what is needed.
pub proof fn law_accepted_signature_counts_once(
    before: BlockSignatures,
    after: BlockSignatures,
    weight: u64,
    threshold: u64,
    i: int,
    signature: Signature,
    j: int,
)
    requires
        block_after_add(before, after, weight, threshold, i, signature),
        0 <= i < before.other_signatures@.len(),
        0 <= j < before.other_signatures@.len(),
    ensures
        after.block_id == before.block_id,
        after.own_signature == before.own_signature,
        after.cancelled == before.cancelled,
        after.other_signatures@.len() == before.other_signatures@.len(),
        j != i ==> after.other_signatures@[j] == before.other_signatures@[j],
        after.other_signatures@[i] == if before.other_signatures@[i] is Some {
            before.other_signatures@[i]
        } else {
            Some(signature)
        },
        after.total_weight - before.total_weight == if before.other_signatures@[i] is Some {
            0
        } else {
            weight as int
        },
        before.other_signatures@[i] is None ==> (after.validated <==> after.total_weight
            >= threshold),
{
}

/// Of the cached signatures those that verify are taken over, and no others.
pub proof fn law_cached_signatures_are_verified(
    cached: Seq<Option<Signature>>,
    validators: Seq<BriefValidatorDescr>,
    data: Seq<u8>,
    i: int,
)
    requires
        0 <= i < cached.len(),
    ensures
        ({
            let slots = valid_slots(cached, validators, data);
            &&& slots.len() == cached.len()
            &&& slots[i] is Some ==> slots[i] == cached[i]
            &&& slots[i] is Some <==> (cached[i] matches Some(signature)
                && crate::outside::signature_verifies(validators[i].peer_id@, data, signature@))
        }),
{
}

/// Every validator has either signed or is still asked, in the order of the validators:
/// one who has signed is listed with its signature, one who has not with what was cached
/// from it.
pub proof fn law_every_validator_signs_or_is_asked(
    slots: Seq<Option<Signature>>,
    cached: Seq<Option<Signature>>,
    validators: Seq<BriefValidatorDescr>,
    i: int,
)
    requires
        slots.len() == validators.len(),
        cached.len() == validators.len(),
        0 <= i < slots.len(),
    ensures
        pending_of(slots, cached, validators).len() + signed_of(slots, validators).len()
            == slots.len(),
        slots[i] matches Some(signature) ==> signed_of(slots, validators).contains(
            (validators[i].peer_id, signature),
        ),
        slots[i] is None ==> pending_of(slots, cached, validators).contains(
            (validators[i].peer_id, cached[i]),
        ),
    decreases slots.len(),
{
    let n = slots.len() - 1;
    let (s, c, v) = (slots.drop_last(), cached.drop_last(), validators.drop_last());
    let pending = pending_of(s, c, v);
    let signed = signed_of(s, v);
    if n > 0 {
        law_every_validator_signs_or_is_asked(
            s,
            c,
            v,
            if i < n {
                i
            } else {
                0
            },
        );
    }
    if i < n {
        assert(s[i] == slots[i] && c[i] == cached[i] && v[i] == validators[i]);
        if slots[i] is None {
            let e = (validators[i].peer_id, cached[i]);
            let k = pending.index_of(e);
            assert(pending_of(slots, cached, validators)[k] == e);
        } else {
            let e = (validators[i].peer_id, slots[i]->0);
            let k = signed.index_of(e);
            assert(signed_of(slots, validators)[k] == e);
        }
    } else if slots[i] is None {
        assert(pending_of(slots, cached, validators)[pending.len() as int] == (
            validators[i].peer_id,
            cached[i],
        ));
    } else {
        assert(signed_of(slots, validators)[signed.len() as int] == (
            validators[i].peer_id,
            slots[i]->0,
        ));
    }
    if n == 0 {
        assert(pending.len() == 0 && signed.len() == 0);
    }
}

/// The name of an overlay is that of its zerostate, its shard and its session: a number,
/// the two hashes, the workchain and the prefix, and the number of the session.
pub proof fn law_overlay_names_its_session(
    constructor: u32,
    zerostate_id: BlockId,
    shard_ident: ShardIdent,
    session_seqno: u32,
)
    ensures
        ({
            let data = overlay_data(constructor, zerostate_id, shard_ident, session_seqno);
            &&& data.len() == 84
            &&& data.subrange(0, 4) == crate::tl::le32(constructor)
            &&& data.subrange(4, 36) == zerostate_id.root_hash@
            &&& data.subrange(36, 68) == zerostate_id.file_hash@
            &&& data.subrange(68, 80) == crate::tl::enc_shard(shard_ident)
            &&& data.subrange(80, 84) == crate::tl::le32(session_seqno)
        }),
{
    let data = overlay_data(constructor, zerostate_id, shard_ident, session_seqno);
    crate::tl::lemma_le32(constructor, Seq::empty());
    crate::tl::lemma_le32(session_seqno, Seq::empty());
    crate::tl::lemma_get_shard(Seq::empty(), 0, shard_ident);
    assert(data.subrange(0, 4) =~= crate::tl::le32(constructor));
    assert(data.subrange(4, 36) =~= zerostate_id.root_hash@);
    assert(data.subrange(36, 68) =~= zerostate_id.file_hash@);
    assert(data.subrange(68, 80) =~= crate::tl::enc_shard(shard_ident));
    assert(data.subrange(80, 84) =~= crate::tl::le32(session_seqno));
}

/// Where all signatures verify, the own one is made with the key of the session under the
/// data of the block, and every slot that is filled holds one of its validator under the
/// same data.
pub proof fn law_all_sign_the_same_data(
    session: ValidatorSession,
    run: ValidationRun,
    i: int,
)
    requires
        run.all_verify(&session),
    ensures
        ({
            let data = crate::validator::session::data_for_sign(run.block_id);
            &&& run.own_signature@ == crate::outside::signature_of(session.key_pair.secret@, data)
            &&& crate::outside::signature_verifies(
                crate::outside::public_key_of(session.key_pair.secret@),
                data,
                run.own_signature@,
            )
            &&& 0 <= i < run.slots@.len() && run.slots@[i] is Some
                ==> crate::outside::signature_verifies(
                session.validators@[i].peer_id@,
                data,
                (run.slots@[i]->0)@,
            )
        }),
{
}

/// One signature that does not verify is enough for the slots not to.
pub proof fn law_wrong_signature_is_noticed(
    slots: Seq<Option<Signature>>,
    validators: Seq<BriefValidatorDescr>,
    data: Seq<u8>,
    i: int,
)
    requires
        0 <= i < slots.len(),
        slots[i] is Some,
        !crate::outside::signature_verifies(validators[i].peer_id@, data, (slots[i]->0)@),
    ensures
        !slots_verify(slots, validators, data),
{
}

} // verus!

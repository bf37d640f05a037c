//! What is known of the points of one author in one round.
use crate::engine::config::MempoolConfig;
use crate::models::link::PointId;
use crate::models::parts::{Digest, KeyPair, Round, Signature, UnixTime};
use vstd::prelude::*;

verus! {

/// What is known of a point once it was checked.
#[derive(Clone, Copy, Debug, PartialEq, Eq, Structural)]
pub struct PointStatus {
    pub is_valid: bool,
    /// It was the first of its location to be checked.
    pub is_first_resolved: bool,
    /// It was the first of its location to be found valid.
    pub is_first_valid: bool,
}

/// A point that was found valid.
#[derive(Clone, Copy, Debug, PartialEq, Eq)]
pub struct ValidPoint {
    pub id: PointId,
    pub time: UnixTime,
    pub is_first_valid: bool,
}

/// A point that was checked.
#[derive(Clone, Copy, Debug)]
pub struct DagPoint {
    pub id: PointId,
    pub is_first_resolved: bool,
    pub valid: Option<ValidPoint>,
}

impl DagPoint {
    /// Whether what is known of the point is about the same point.
    pub open spec fn wf(&self) -> bool {
        self.valid matches Some(valid) ==> valid.id == self.id
    }

    /// Whether the point is the first valid one of its location.
    pub open spec fn is_first_valid(&self) -> bool {
        self.valid matches Some(valid) && valid.is_first_valid
    }
}

/// A point that can be signed, and the decision about it.
#[derive(Clone, Copy, Debug)]
pub struct Signable {
    pub valid: ValidPoint,
    /// The signature, or that there will be none.
    pub signature: Option<Result<Signature, ()>>,
}

/// A signed point.
#[derive(Clone, Copy, Debug)]
pub struct Signed {
    pub first_resolved: ValidPoint,
    pub signature: Signature,
}

/// The first point of a location that was checked.
#[derive(Clone, Copy, Debug)]
pub enum FirstResolved {
    /// It is valid. What can be signed is known later, or rejected.
    Valid(Digest, Option<Result<Signable, ()>>),
    /// It is not valid.
    NotValid(Digest),
    /// There was none in time, and nothing will be signed.
    Closed,
}

/// Which points of a location were first. Only the first one that was checked
/// can be signed; the first one that is valid counts.
#[derive(Clone, Copy, Debug)]
pub struct InclusionState {
    pub resolved: Option<FirstResolved>,
    pub valid: Option<Digest>,
}

/// The first point of a location with the given status.
pub open spec fn first_resolved_of(digest: Digest, is_valid: bool) -> FirstResolved {
    if is_valid {
        FirstResolved::Valid(digest, None)
    } else {
        FirstResolved::NotValid(digest)
    }
}

impl InclusionState {
    /// Whether what can be signed is the point that was first.
    pub open spec fn wf(&self) -> bool {
        self.resolved matches Some(FirstResolved::Valid(digest, Some(Ok(signable))))
            ==> signable.valid.id.digest == digest
    }

    /// The digest of the first point that was checked.
    pub open spec fn first_digest(&self) -> Option<Digest> {
        match self.resolved {
            Some(FirstResolved::Valid(digest, _)) => Some(digest),
            Some(FirstResolved::NotValid(digest)) => Some(digest),
            _ => None,
        }
    }

    /// What was decided about a signature: nothing yet, that there is none, or
    /// the one there is.
    pub open spec fn decided(&self) -> Option<Result<Signed, ()>> {
        match self.resolved {
            None => None,
            Some(FirstResolved::NotValid(_)) => Some(Err(())),
            Some(FirstResolved::Closed) => Some(Err(())),
            Some(FirstResolved::Valid(_, None)) => None,
            Some(FirstResolved::Valid(_, Some(Err(_)))) => Some(Err(())),
            Some(FirstResolved::Valid(_, Some(Ok(signable)))) => match signable.signature {
                None => None,
                Some(Err(_)) => Some(Err(())),
                Some(Ok(signature)) => Some(
                    Ok(Signed { first_resolved: signable.valid, signature }),
                ),
            },
        }
    }

    /// A location of which nothing is known.
    pub fn new() -> (r: Self)
        ensures
            r.wf(),
            r.resolved is None,
            r.valid is None,
    {
        InclusionState { resolved: None, valid: None }
    }

    /// Enters a point that was checked, and marks it if it is the first, or the
    /// first valid one. If the first point is valid it is the first valid one.
    pub fn acquire(&mut self, id: &PointId, status: &mut PointStatus)
        requires
            old(self).wf(),
            !old(status).is_first_resolved,
            !old(status).is_first_valid,
            old(self).resolved is None && old(status).is_valid ==> old(self).valid is None || old(
                self,
            ).valid == Some(id.digest),
        ensures
            final(self).wf(),
            old(self).decided() is Some ==> final(self).decided() == old(self).decided(),
            final(status).is_valid == old(status).is_valid,
            final(status).is_first_resolved == (old(self).resolved is None),
            final(status).is_first_valid == (old(status).is_valid && old(self).valid is None),
            final(self).resolved == (if old(self).resolved is None {
                Some(first_resolved_of(id.digest, old(status).is_valid))
            } else {
                old(self).resolved
            }),
            final(self).valid == (if final(status).is_first_valid {
                Some(id.digest)
            } else {
                old(self).valid
            }),
    {
        if self.resolved.is_none() {
            status.is_first_resolved = true;
            if status.is_valid {
                if self.valid.is_none() {
                    status.is_first_valid = true;
                    self.valid = Some(id.digest);
                }
                self.resolved = Some(FirstResolved::Valid(id.digest, None));
            } else {
                self.resolved = Some(FirstResolved::NotValid(id.digest));
            }
        }
        if !status.is_first_resolved && status.is_valid {
            if self.valid.is_none() {
                status.is_first_valid = true;
                self.valid = Some(id.digest);
            }
        }
    }

    /// Enters a point with the marks that it was stored with. The marks must not
    /// contradict those of another point.
    pub fn acquire_restore(&mut self, id: &PointId, status: &PointStatus)
        requires
            old(self).wf(),
            status.is_first_resolved && old(self).resolved is Some ==> old(self).first_digest()
                == Some(id.digest),
            status.is_first_valid ==> status.is_valid && (old(self).valid is None || old(self).valid
                == Some(id.digest)),
        ensures
            final(self).wf(),
            old(self).decided() is Some ==> final(self).decided() == old(self).decided(),
            final(self).resolved == (if status.is_first_resolved && old(self).resolved is None {
                Some(first_resolved_of(id.digest, status.is_valid))
            } else {
                old(self).resolved
            }),
            final(self).valid == (if status.is_first_valid {
                Some(id.digest)
            } else {
                old(self).valid
            }),
    {
        if status.is_first_resolved && self.resolved.is_none() {
            if status.is_valid {
                self.resolved = Some(FirstResolved::Valid(id.digest, None));
            } else {
                self.resolved = Some(FirstResolved::NotValid(id.digest));
            }
        }
        if status.is_first_valid && self.valid.is_none() {
            self.valid = Some(id.digest);
        }
    }

    /// Whether a point agrees with what was entered: it has the mark of the
    /// first point, or of the first valid one, if and only if it was entered so.
    /// Where the location was closed the first mark does not matter.
    pub open spec fn agrees(&self, point: DagPoint) -> bool {
        &&& if point.is_first_resolved {
            match self.resolved {
                None => false,
                Some(FirstResolved::Valid(digest, _)) => digest == point.id.digest
                    && point.valid is Some,
                Some(FirstResolved::NotValid(digest)) => digest == point.id.digest
                    && point.valid is None,
                Some(FirstResolved::Closed) => true,
            }
        } else {
            self.first_digest() != Some(point.id.digest)
        }
        &&& if point.is_first_valid() {
            self.valid == Some(point.id.digest)
        } else {
            self.valid != Some(point.id.digest)
        }
    }

    /// Takes note that a point is in the DAG. The first one can be signed from
    /// now on, unless it was rejected. Says whether the point counts: whether it
    /// is the first valid one.
    pub fn resolve(&mut self, dag_point: &DagPoint) -> (r: bool)
        requires
            old(self).wf(),
            dag_point.wf(),
            old(self).agrees(*dag_point),
        ensures
            final(self).wf(),
            old(self).decided() is Some ==> final(self).decided() == old(self).decided(),
            final(self).valid == old(self).valid,
            final(self).resolved == resolved_after(old(self).resolved, *dag_point),
            r == dag_point.is_first_valid(),
    {
        if dag_point.is_first_resolved {
            if let Some(FirstResolved::Valid(digest, None)) = self.resolved {
                if let Some(valid) = dag_point.valid {
                    self.resolved = Some(
                        FirstResolved::Valid(digest, Some(Ok(Signable { valid, signature: None }))),
                    );
                }
            }
        }
        match dag_point.valid {
            Some(valid) => valid.is_first_valid,
            None => false,
        }
    }

    /// Signs the first point, if it can be decided now: `None` if not yet. A
    /// decision is final. Nothing can be signed in the round before the first.
    pub fn sign(
        &mut self,
        at: Round,
        key_pair: Option<&KeyPair>,
        now: UnixTime,
        conf: &MempoolConfig,
    ) -> (r: Option<Result<Signed, ()>>)
        requires
            old(self).wf(),
            old(self).decided() is None && at.0 == 0 && key_pair is Some ==> (
            old(self).resolved matches Some(FirstResolved::Valid(_, Some(Ok(signable))))
                ==> sign_decision(
                signable.valid,
                at,
                true,
                now,
                conf.consensus.clock_skew_millis as u64,
            ) == Decision::Postpone),
        ensures
            final(self).wf(),
            final(self).valid == old(self).valid,
            final(self).first_digest() == old(self).first_digest(),
            r == final(self).decided(),
            match (old(self).decided(), old(self).resolved) {
                (None, Some(FirstResolved::Valid(digest, Some(Ok(signable))))) => {
                    let decision = sign_decision(
                        signable.valid,
                        at,
                        key_pair is Some,
                        now,
                        conf.consensus.clock_skew_millis as u64,
                    );
                    match decision {
                        Decision::Postpone => *final(self) == *old(self),
                        Decision::Reject => final(self).decided() == Some(
                            Err::<Signed, ()>(()),
                        ),
                        Decision::Sign => {
                            &&& final(self).decided() matches Some(Ok(signed))
                            &&& signed.first_resolved == signable.valid
                            &&& signed.signature@ == crate::outside::signature_of(
                                (key_pair->0).secret@,
                                signable.valid.id.digest@,
                            )
                        },
                    }
                },
                _ => *final(self) == *old(self),
            },
    {
        let (digest, mut signable) = match self.resolved {
            None => {
                return None;
            },
            Some(FirstResolved::NotValid(_)) => {
                return Some(Err(()));
            },
            Some(FirstResolved::Closed) => {
                return Some(Err(()));
            },
            Some(FirstResolved::Valid(_, None)) => {
                return None;
            },
            Some(FirstResolved::Valid(_, Some(Err(_)))) => {
                return Some(Err(()));
            },
            Some(FirstResolved::Valid(digest, Some(Ok(signable)))) => (digest, signable),
        };
        if signable.signature.is_none() {
            match decide(&signable.valid, at, key_pair.is_some(), now, conf) {
                Decision::Postpone => {
                    return None;
                },
                Decision::Reject => {
                    signable.signature = Some(Err(()));
                },
                Decision::Sign => match key_pair {
                    Some(key_pair) => {
                        let signature = Signature::new(key_pair, &signable.valid.id.digest);
                        signable.signature = Some(Ok(signature));
                    },
                    None => {},
                },
            }
            self.resolved = Some(FirstResolved::Valid(digest, Some(Ok(signable))));
        }
        match signable.signature {
            Some(Ok(signature)) => Some(Ok(Signed { first_resolved: signable.valid, signature })),
            Some(Err(_)) => Some(Err(())),
            None => None,
        }
    }

    /// Decides now: what was not signed yet never will be.
    pub fn get_or_reject(&mut self) -> (r: Result<Signed, ()>)
        requires
            old(self).wf(),
        ensures
            final(self).wf(),
            final(self).valid == old(self).valid,
            final(self).first_digest() == old(self).first_digest(),
            final(self).decided() == Some(r),
            r == (match old(self).decided() {
                Some(decided) => decided,
                None => Err::<Signed, ()>(()),
            }),
            old(self).decided() is Some ==> *final(self) == *old(self),
    {
        match self.resolved {
            None => {
                self.resolved = Some(FirstResolved::Closed);
                Err(())
            },
            Some(FirstResolved::NotValid(_)) => Err(()),
            Some(FirstResolved::Closed) => Err(()),
            Some(FirstResolved::Valid(digest, None)) => {
                self.resolved = Some(FirstResolved::Valid(digest, Some(Err(()))));
                Err(())
            },
            Some(FirstResolved::Valid(_, Some(Err(_)))) => Err(()),
            Some(FirstResolved::Valid(digest, Some(Ok(signable)))) => match signable.signature {
                Some(Ok(signature)) => Ok(Signed { first_resolved: signable.valid, signature }),
                Some(Err(_)) => Err(()),
                None => {
                    let rejected = Signable { valid: signable.valid, signature: Some(Err(())) };
                    self.resolved = Some(FirstResolved::Valid(digest, Some(Ok(rejected))));
                    Err(())
                },
            },
        }
    }
}

/// What is known of the first point of a location after a point is in the DAG: if
/// it is the first one and valid it can be signed from now on.
pub open spec fn resolved_after(
    resolved: Option<FirstResolved>,
    dag_point: DagPoint,
) -> Option<FirstResolved> {
    match (resolved, dag_point.valid) {
        (Some(FirstResolved::Valid(digest, None)), Some(
            valid,
        )) if dag_point.is_first_resolved => Some(
            FirstResolved::Valid(digest, Some(Ok(Signable { valid, signature: None }))),
        ),
        (resolved, _) => resolved,
    }
}

/// What can be done about a signature now.
#[derive(Clone, Copy, Debug, PartialEq, Eq, Structural)]
pub enum Decision {
    /// Nothing yet.
    Postpone,
    /// There will be none.
    Reject,
    /// The point is signed.
    Sign,
}

/// A point of a coming round, or of a time too far in the future, waits; one of
/// this round or the one before is signed, and an older one rejected. Without
/// keys a point of this round waits, and an older one is rejected.
pub open spec fn sign_decision(
    valid: ValidPoint,
    at: Round,
    has_keys: bool,
    now: UnixTime,
    clock_skew_millis: u64,
) -> Decision {
    let round = valid.id.round.0;
    let ahead = if valid.time.0 < now.0 {
        0
    } else {
        valid.time.0 - now.0
    };
    if has_keys {
        if round > at.0 || ahead >= clock_skew_millis {
            Decision::Postpone
        } else if round + 1 >= at.0 {
            Decision::Sign
        } else {
            Decision::Reject
        }
    } else if round >= at.0 {
        Decision::Postpone
    } else {
        Decision::Reject
    }
}

/// Decides about a signature.
fn decide(
    valid: &ValidPoint,
    at: Round,
    has_keys: bool,
    now: UnixTime,
    conf: &MempoolConfig,
) -> (r: Decision)
    requires
        at.0 == 0 && has_keys ==> sign_decision(
            *valid,
            at,
            has_keys,
            now,
            conf.consensus.clock_skew_millis as u64,
        ) == Decision::Postpone,
    ensures
        r == sign_decision(*valid, at, has_keys, now, conf.consensus.clock_skew_millis as u64),
{
    if has_keys {
        if valid.id.round.0 > at.0 {
            return Decision::Postpone;
        }
        let ahead = valid.time - now;
        if ahead.0 >= conf.consensus.clock_skew_millis as u64 {
            return Decision::Postpone;
        }
        if valid.id.round.0 >= at.prev().0 {
            Decision::Sign
        } else {
            Decision::Reject
        }
    } else if valid.id.round.0 >= at.0 {
        Decision::Postpone
    } else {
        Decision::Reject
    }
}

/// What is signed at a location is the point that was first.
pub proof fn law_only_first_point_is_signed(state: InclusionState)
    requires
        state.wf(),
    ensures
        state.decided() matches Some(Ok(signed)) ==> state.first_digest() == Some(
            signed.first_resolved.id.digest,
        ),
{
}

/// Without keys nothing is ever signed.
pub proof fn law_no_signature_without_keys(
    valid: ValidPoint,
    at: Round,
    now: UnixTime,
    clock_skew_millis: u64,
)
    ensures
        sign_decision(valid, at, false, now, clock_skew_millis) != Decision::Sign,
{
}

/// What is known of the points of one author in one round.
#[derive(Debug)]
pub struct DagLocation {
    pub state: InclusionState,
    /// The versions of the point, by digest, each with the number of the task that
    /// resolves it.
    pub versions: Vec<(Digest, u64)>,
}

impl DagLocation {
    /// Whether each version is listed once.
    pub open spec fn wf(&self) -> bool {
        &&& self.state.wf()
        &&& forall|i: int, j: int|
            0 <= i < j < self.versions@.len() ==> (#[trigger] self.versions@[i]).0 != (
            #[trigger] self.versions@[j]).0
    }

    /// Whether a version is listed.
    pub open spec fn has_version(&self, digest: Digest) -> bool {
        exists|i: int| 0 <= i < self.versions@.len() && (#[trigger] self.versions@[i]).0 == digest
    }

    /// Whether a version is listed with the given task.
    pub open spec fn has_task(&self, digest: Digest, task: u64) -> bool {
        self.versions@.contains((digest, task))
    }

    /// A location of which nothing is known.
    pub fn new() -> (r: Self)
        ensures
            r.wf(),
            r.versions@.len() == 0,
            r.state.resolved is None,
            r.state.valid is None,
    {
        DagLocation { state: InclusionState::new(), versions: Vec::new() }
    }

    /// The task of a version.
    pub fn version(&self, digest: &Digest) -> (r: Option<u64>)
        requires
            self.wf(),
        ensures
            match r {
                Some(task) => self.has_task(*digest, task),
                None => !self.has_version(*digest),
            },
    {
        let mut i: usize = 0;
        while i < self.versions.len()
            invariant
                i <= self.versions@.len(),
                forall|j: int| 0 <= j < i ==> (#[trigger] self.versions@[j]).0 != *digest,
            decreases self.versions@.len() - i,
        {
            if self.versions[i].0.same(digest) {
                let task: u64 = self.versions[i].1;
                assert(self.versions@[i as int] == (*digest, task));
                return Some(task);
            }
            i = i + 1;
        }
        None
    }

    /// The task of the first valid version, which is the one that counts.
    pub fn first_valid(&self) -> (r: Option<u64>)
        requires
            self.wf(),
        ensures
            match (self.state.valid, r) {
                (None, r) => r is None,
                (Some(digest), Some(task)) => self.has_task(digest, task),
                (Some(digest), None) => !self.has_version(digest),
            },
    {
        match &self.state.valid {
            Some(digest) => self.version(digest),
            None => None,
        }
    }

    /// Lists a version unless it is, and gives the task it had before.
    pub fn enter(&mut self, digest: Digest, task: u64) -> (r: Option<u64>)
        requires
            old(self).wf(),
        ensures
            final(self).wf(),
            final(self).state == old(self).state,
            match r {
                Some(known) => old(self).has_task(digest, known) && final(self).versions == old(
                    self,
                ).versions,
                None => !old(self).has_version(digest) && final(self).versions@ == old(
                    self,
                ).versions@.push((digest, task)),
            },
    {
        match self.version(&digest) {
            Some(known) => Some(known),
            None => {
                self.versions.push((digest, task));
                None
            },
        }
    }
}

/// With keys a valid first point is signed exactly if it is of the current round or the
/// one before, and its time is ahead of the clock by less than the skew. It waits exactly
/// if its round is still to come or its time is too far ahead. With no skew allowed every
/// point waits.
pub proof fn law_point_in_time_is_signed(
    valid: ValidPoint,
    at: Round,
    now: UnixTime,
    clock_skew_millis: u64,
)
    ensures
        ({
            let decision = sign_decision(valid, at, true, now, clock_skew_millis);
            let round = valid.id.round.0;
            let in_time = clock_skew_millis > 0 && valid.time.0 < now.0 + clock_skew_millis;
            &&& decision == Decision::Sign <==> in_time && (round == at.0 || round + 1 == at.0)
            &&& decision == Decision::Postpone <==> !in_time || round > at.0
            &&& decision == Decision::Reject <==> in_time && round + 1 < at.0
        }),
{
}

/// Once a point can be signed it can be at every later moment of the round, and a point
/// that is rejected stays so at every later moment and round.
pub proof fn law_time_does_not_take_a_decision_back(
    valid: ValidPoint,
    at: Round,
    later: Round,
    has_keys: bool,
    now: UnixTime,
    then: UnixTime,
    clock_skew_millis: u64,
)
    requires
        at.0 <= later.0,
        now.0 <= then.0,
    ensures
        sign_decision(valid, at, has_keys, now, clock_skew_millis) == Decision::Sign
            ==> sign_decision(valid, at, has_keys, then, clock_skew_millis) == Decision::Sign,
        sign_decision(valid, at, has_keys, now, clock_skew_millis) != Decision::Postpone
            ==> sign_decision(valid, later, has_keys, then, clock_skew_millis)
            != Decision::Postpone,
        sign_decision(valid, at, has_keys, now, clock_skew_millis) == Decision::Reject
            ==> sign_decision(valid, later, has_keys, then, clock_skew_millis)
            == Decision::Reject,
{
}

/// Without keys a point waits while its round is not over, and is rejected after it.
pub proof fn law_without_keys_a_point_is_rejected_after_its_round(
    valid: ValidPoint,
    at: Round,
    now: UnixTime,
    clock_skew_millis: u64,
)
    ensures
        sign_decision(valid, at, false, now, clock_skew_millis) == Decision::Reject
            <==> valid.id.round.0 < at.0,
        sign_decision(valid, at, false, now, clock_skew_millis) == Decision::Postpone
            <==> valid.id.round.0 >= at.0,
{
}

/// The first point that was entered is the only one that can become signable: it does so
/// when it is in the DAG and valid, and keeps what was decided before. Any other point
/// changes nothing.
pub proof fn law_only_the_first_point_becomes_signable(
    state: InclusionState,
    dag_point: DagPoint,
)
    requires
        state.agrees(dag_point),
        dag_point.wf(),
    ensures
        ({
            let after = InclusionState {
                resolved: resolved_after(state.resolved, dag_point),
                ..state
            };
            let waits = state.resolved matches Some(FirstResolved::Valid(_, None));
            &&& after.first_digest() == state.first_digest()
            &&& !(waits && dag_point.is_first_resolved) ==> after == state
            &&& waits && dag_point.is_first_resolved ==> {
                &&& after.first_digest() == Some(dag_point.id.digest)
                &&& after.decided() is None
                &&& after.resolved matches Some(FirstResolved::Valid(_, Some(Ok(signable))))
                &&& Some(signable.valid) == dag_point.valid
                &&& signable.signature is None
            }
        }),
{
}

/// A location is decided exactly if its first point is not valid, was rejected, or was
/// signed, or if it was closed without one. The signature that it then has is the one of
/// the first point.
pub proof fn law_decision_is_about_the_first_point(
    digest: Digest,
    signable: Signable,
    other: InclusionState,
)
    ensures
        ({
            let with = |resolved: FirstResolved|
                InclusionState { resolved: Some(resolved), ..other };
            &&& (InclusionState { resolved: None, ..other }).decided() is None
            &&& with(first_resolved_of(digest, true)).decided() is None
            &&& with(first_resolved_of(digest, false)).decided() == Some(Err::<Signed, ()>(()))
            &&& with(first_resolved_of(digest, true)).first_digest() == Some(digest)
            &&& with(first_resolved_of(digest, false)).first_digest() == Some(digest)
            &&& with(FirstResolved::Closed).decided() == Some(Err::<Signed, ()>(()))
            &&& with(FirstResolved::Valid(digest, Some(Err(())))).decided() == Some(
                Err::<Signed, ()>(()),
            )
            &&& match signable.signature {
                None => with(FirstResolved::Valid(digest, Some(Ok(signable)))).decided() is None,
                Some(Err(_)) => with(
                    FirstResolved::Valid(digest, Some(Ok(signable))),
                ).decided() == Some(Err::<Signed, ()>(())),
                Some(Ok(signature)) => with(
                    FirstResolved::Valid(digest, Some(Ok(signable))),
                ).decided() == Some(
                    Ok::<Signed, ()>(Signed { first_resolved: signable.valid, signature }),
                ),
            }
        }),
{
}

/// A version is listed exactly if it is with some task.
pub proof fn law_listed_version_has_a_task(location: DagLocation, digest: Digest)
    ensures
        location.has_version(digest) <==> exists|task: u64| location.has_task(digest, task),
{
    if location.has_version(digest) {
        let i = choose|i: int|
            0 <= i < location.versions@.len() && (#[trigger] location.versions@[i]).0 == digest;
        assert(location.versions@[i] == (digest, location.versions@[i].1));
        assert(location.has_task(digest, location.versions@[i].1));
    }
    if exists|task: u64| location.has_task(digest, task) {
        let task = choose|task: u64| location.has_task(digest, task);
        let i = choose|i: int|
            0 <= i < location.versions@.len() && location.versions@[i] == (digest, task);
        assert(location.versions@[i].0 == digest);
    }
}

} // verus!

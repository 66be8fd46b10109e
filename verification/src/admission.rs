//! First-frame admission of a detached send.
//!
//! `Pending -> Irrevocable -> Accepted` publishes success. `Pending -> Cancelled` wins over the
//! backend. `Irrevocable -> Cancelled` is the rollback of a claim that the backend did not take.
//! A caller is told `Cancelled` only of an admission that is cancelled, so no claim of it ever
//! succeeds.

use vstd::prelude::*;

use crate::class::SendCompletionOutcome;
use crate::did::Did;
use crate::error::Error;

verus! {

/// Where an admission stands.
#[derive(Clone, Copy, Debug, PartialEq, Eq, Hash, Structural)]
pub enum AdmissionPhase {
    /// Neither claimed nor cancelled.
    Pending,
    /// Claimed: the backend may hold the frame.
    Irrevocable,
    /// The backend accepted the frame.
    Accepted,
    /// No claim can succeed any more.
    Cancelled,
}

/// What can happen to an admission.
#[derive(Clone, Copy, Debug, PartialEq, Eq, Hash, Structural)]
pub enum AdmissionEvent {
    /// The caller gives up.
    Cancel,
    /// The backend is about to take the frame.
    MarkIrrevocable,
    /// The backend took the frame.
    Accept,
    /// The backend did not take the claimed frame.
    Rollback,
}

/// The phase after `event`, if `event` applies in `phase`.
pub open spec fn transition(phase: AdmissionPhase, event: AdmissionEvent) -> Option<
    AdmissionPhase,
> {
    match (phase, event) {
        (AdmissionPhase::Pending, AdmissionEvent::Cancel) => Some(AdmissionPhase::Cancelled),
        (AdmissionPhase::Pending, AdmissionEvent::MarkIrrevocable) => Some(
            AdmissionPhase::Irrevocable,
        ),
        (AdmissionPhase::Irrevocable, AdmissionEvent::Accept) => Some(AdmissionPhase::Accepted),
        (AdmissionPhase::Irrevocable, AdmissionEvent::Rollback) => Some(AdmissionPhase::Cancelled),
        _ => None,
    }
}

impl AdmissionPhase {
    /// The phase after `event`, or this phase where `event` does not apply.
    pub fn try_transition(self, event: AdmissionEvent) -> (next: Result<
        AdmissionPhase,
        AdmissionPhase,
    >)
        ensures
            next == (match transition(self, event) {
                Some(next) => Ok(next),
                None => Err(self),
            }),
    {
        match (self, event) {
            (AdmissionPhase::Pending, AdmissionEvent::Cancel) => Ok(AdmissionPhase::Cancelled),
            (AdmissionPhase::Pending, AdmissionEvent::MarkIrrevocable) => Ok(
                AdmissionPhase::Irrevocable,
            ),
            (AdmissionPhase::Irrevocable, AdmissionEvent::Accept) => Ok(AdmissionPhase::Accepted),
            (AdmissionPhase::Irrevocable, AdmissionEvent::Rollback) => Ok(
                AdmissionPhase::Cancelled,
            ),
            _ => Err(self),
        }
    }
}

/// What a cancellation came to.
#[derive(Clone, Copy, Debug, PartialEq, Eq, Hash, Structural)]
pub enum DetachedAdmissionCancel {
    /// No claim can succeed any more.
    Cancelled,
    /// A claim came first; its outcome has to be awaited.
    MustAwait,
}

/// What a claim came to.
#[derive(Clone, Copy, Debug, PartialEq, Eq, Hash, Structural)]
pub enum DetachedAdmissionClaim {
    /// This claim is the first.
    New,
    /// An earlier frame claimed already.
    Existing,
}

/// The admission of one detached send, and the stop signal of its transfer.
#[derive(Clone, Copy, Debug, PartialEq, Eq, Hash, Structural)]
pub struct DetachedAdmission {
    /// Where the admission stands.
    pub phase: AdmissionPhase,
    /// The transfer was told to stop.
    pub stop: bool,
}

impl DetachedAdmission {
    /// A pending admission.
    pub fn new() -> (admission: Self)
        ensures
            admission == (DetachedAdmission { phase: AdmissionPhase::Pending, stop: false }),
    {
        DetachedAdmission { phase: AdmissionPhase::Pending, stop: false }
    }

    /// Whether the transfer was told to stop.
    pub fn should_stop(&self) -> (stop: bool)
        ensures
            stop == self.stop,
    {
        self.stop
    }

    /// Cancel, unless a claim came first.
    pub fn cancel(&mut self) -> (decision: DetachedAdmissionCancel)
        ensures
            match old(self).phase {
                AdmissionPhase::Pending | AdmissionPhase::Cancelled => {
                    &&& decision == DetachedAdmissionCancel::Cancelled
                    &&& *final(self) == (DetachedAdmission {
                        phase: AdmissionPhase::Cancelled,
                        stop: true,
                    })
                },
                _ => {
                    &&& decision == DetachedAdmissionCancel::MustAwait
                    &&& *final(self) == *old(self)
                },
            },
    {
        match self.phase.try_transition(AdmissionEvent::Cancel) {
            Ok(phase) => {
                self.phase = phase;
                self.stop = true;
                DetachedAdmissionCancel::Cancelled
            },
            Err(AdmissionPhase::Cancelled) => {
                self.stop = true;
                DetachedAdmissionCancel::Cancelled
            },
            Err(_) => DetachedAdmissionCancel::MustAwait,
        }
    }

    /// Claim for the backend, unless the admission is cancelled.
    pub fn try_mark_irrevocable(&mut self) -> (claim: Option<DetachedAdmissionClaim>)
        ensures
            final(self).stop == old(self).stop,
            match old(self).phase {
                AdmissionPhase::Pending => claim == Some(DetachedAdmissionClaim::New)
                    && final(self).phase == AdmissionPhase::Irrevocable,
                AdmissionPhase::Irrevocable | AdmissionPhase::Accepted => claim == Some(
                    DetachedAdmissionClaim::Existing,
                ) && final(self).phase == old(self).phase,
                AdmissionPhase::Cancelled => claim is None && final(self).phase
                    == old(self).phase,
            },
    {
        match self.phase.try_transition(AdmissionEvent::MarkIrrevocable) {
            Ok(phase) => {
                self.phase = phase;
                Some(DetachedAdmissionClaim::New)
            },
            Err(AdmissionPhase::Irrevocable) | Err(AdmissionPhase::Accepted) => Some(
                DetachedAdmissionClaim::Existing,
            ),
            Err(_) => None,
        }
    }

    /// Take back a claim that the backend did not take.
    pub fn rollback_irrevocable_send(&mut self)
        ensures
            *final(self) == (if old(self).phase == AdmissionPhase::Irrevocable {
                DetachedAdmission { phase: AdmissionPhase::Cancelled, stop: true }
            } else {
                *old(self)
            }),
    {
        if let Ok(phase) = self.phase.try_transition(AdmissionEvent::Rollback) {
            self.phase = phase;
            self.stop = true;
        }
    }

    /// The outcome the caller may observe of a transfer to `peer` that ended cancelled.
    pub fn cancelled_outcome(&mut self, peer: Did) -> (outcome: Result<
        SendCompletionOutcome,
        Error,
    >)
        ensures
            match old(self).phase {
                AdmissionPhase::Pending | AdmissionPhase::Cancelled => {
                    &&& outcome == Ok::<SendCompletionOutcome, Error>(
                        SendCompletionOutcome::Cancelled,
                    )
                    &&& *final(self) == (DetachedAdmission {
                        phase: AdmissionPhase::Cancelled,
                        stop: true,
                    })
                },
                _ => {
                    &&& outcome == Err::<SendCompletionOutcome, Error>(
                        Error::DetachedSendAbandonedAfterClaim { peer },
                    )
                    &&& *final(self) == *old(self)
                },
            },
    {
        match self.cancel() {
            DetachedAdmissionCancel::Cancelled => Ok(SendCompletionOutcome::Cancelled),
            DetachedAdmissionCancel::MustAwait => Err(
                Error::DetachedSendAbandonedAfterClaim { peer },
            ),
        }
    }

    /// Publish success of a claimed frame.
    pub fn try_succeed(&mut self) -> (succeeded: bool)
        ensures
            final(self).stop == old(self).stop,
            succeeded == (old(self).phase == AdmissionPhase::Irrevocable),
            final(self).phase == (if succeeded {
                AdmissionPhase::Accepted
            } else {
                old(self).phase
            }),
    {
        match self.phase.try_transition(AdmissionEvent::Accept) {
            Ok(phase) => {
                self.phase = phase;
                true
            },
            Err(_) => false,
        }
    }

    /// Tell the transfer to stop.
    pub fn enforce_cancelled_stop(&mut self)
        ensures
            final(self).stop,
            final(self).phase == old(self).phase,
    {
        self.stop = true;
    }
}

/// The phase after `events` in turn, each ignored where it does not apply.
pub open spec fn after_all(phase: AdmissionPhase, events: Seq<AdmissionEvent>) -> AdmissionPhase
    decreases events.len(),
{
    if events.len() == 0 {
        phase
    } else {
        let earlier = after_all(phase, events.drop_last());
        match transition(earlier, events.last()) {
            Some(next) => next,
            None => earlier,
        }
    }
}

/// Success and cancellation exclude each other for good: whatever follows, an accepted admission
/// stays accepted and a cancelled one stays cancelled.
pub proof fn law_success_and_cancellation_are_final(
    phase: AdmissionPhase,
    events: Seq<AdmissionEvent>,
)
    requires
        phase == AdmissionPhase::Accepted || phase == AdmissionPhase::Cancelled,
    ensures
        after_all(phase, events) == phase,
    decreases events.len(),
{
    if events.len() > 0 {
        law_success_and_cancellation_are_final(phase, events.drop_last());
    }
}

/// An observed cancellation proves that no claim of the admission ever succeeds: no sequence of
/// events leads from it to an accepted or a claimed frame.
pub proof fn law_cancelled_admission_is_never_claimed(events: Seq<AdmissionEvent>)
    ensures
        after_all(AdmissionPhase::Cancelled, events) != AdmissionPhase::Irrevocable,
        after_all(AdmissionPhase::Cancelled, events) != AdmissionPhase::Accepted,
{
    law_success_and_cancellation_are_final(AdmissionPhase::Cancelled, events);
}

/// A cancellation wins exactly if no claim came first; then the transfer is told to stop, and no
/// later claim succeeds. Otherwise nothing changes.
pub proof fn law_cancellation_wins_before_the_claim(
    admission: &mut DetachedAdmission,
    decision: DetachedAdmissionCancel,
)
    requires
        call_ensures(DetachedAdmission::cancel, (admission,), decision),
    ensures
        decision == DetachedAdmissionCancel::Cancelled <==> old(admission).phase
            != AdmissionPhase::Irrevocable && old(admission).phase != AdmissionPhase::Accepted,
        decision == DetachedAdmissionCancel::Cancelled ==> final(admission).stop && final(admission).phase == AdmissionPhase::Cancelled,
        decision == DetachedAdmissionCancel::MustAwait ==> *final(admission) == *old(admission),
{
}

/// A claim succeeds exactly if the admission is not cancelled, it is new exactly if nothing was
/// claimed before, and it makes a later cancellation fail.
pub proof fn law_claim_succeeds_unless_cancelled(
    admission: &mut DetachedAdmission,
    claim: Option<DetachedAdmissionClaim>,
)
    requires
        call_ensures(DetachedAdmission::try_mark_irrevocable, (admission,), claim),
    ensures
        claim is Some <==> old(admission).phase != AdmissionPhase::Cancelled,
        claim == Some(DetachedAdmissionClaim::New) <==> old(admission).phase
            == AdmissionPhase::Pending,
        claim is Some ==> final(admission).phase == AdmissionPhase::Irrevocable || final(admission).phase == AdmissionPhase::Accepted,
        claim == Some(DetachedAdmissionClaim::New) ==> final(admission).phase
            == AdmissionPhase::Irrevocable,
        claim != Some(DetachedAdmissionClaim::New) ==> final(admission).phase == old(admission).phase,
        final(admission).stop == old(admission).stop,
{
}

/// A rollback takes back a claim and nothing else: an accepted frame stays accepted.
pub proof fn law_rollback_takes_back_a_claim_only(admission: &mut DetachedAdmission)
    requires
        call_ensures(DetachedAdmission::rollback_irrevocable_send, (admission,), ()),
    ensures
        old(admission).phase == AdmissionPhase::Irrevocable ==> final(admission).phase
            == AdmissionPhase::Cancelled && final(admission).stop,
        old(admission).phase != AdmissionPhase::Irrevocable ==> *final(admission) == *old(admission),
{
}

/// Success is published of a claimed frame, once, and of no other.
pub proof fn law_success_is_published_of_a_claim_once(
    admission: &mut DetachedAdmission,
    succeeded: bool,
)
    requires
        call_ensures(DetachedAdmission::try_succeed, (admission,), succeeded),
    ensures
        succeeded <==> old(admission).phase == AdmissionPhase::Irrevocable,
        succeeded ==> final(admission).phase == AdmissionPhase::Accepted,
        !succeeded ==> final(admission).phase == old(admission).phase,
        final(admission).stop == old(admission).stop,
{
}

/// A caller is told of a cancellation exactly where no claim came first, and then none can come;
/// otherwise it is told that the send was abandoned after the claim, and nothing changes.
pub proof fn law_cancelled_outcome_is_told_before_the_claim_only(
    admission: &mut DetachedAdmission,
    peer: Did,
    outcome: Result<SendCompletionOutcome, Error>,
)
    requires
        call_ensures(DetachedAdmission::cancelled_outcome, (admission, peer), outcome),
    ensures
        outcome is Ok <==> old(admission).phase != AdmissionPhase::Irrevocable && old(admission).phase != AdmissionPhase::Accepted,
        outcome is Ok ==> outcome->Ok_0 == SendCompletionOutcome::Cancelled && final(admission).phase == AdmissionPhase::Cancelled && final(admission).stop,
        outcome is Err ==> outcome->Err_0 == (Error::DetachedSendAbandonedAfterClaim { peer })
            && *final(admission) == *old(admission),
{
}

/// A new admission is neither claimed nor cancelled, and stops nothing.
pub proof fn law_new_admission_is_open(admission: DetachedAdmission, stop: bool)
    requires
        call_ensures(DetachedAdmission::new, (), admission),
        call_ensures(DetachedAdmission::should_stop, (&admission,), stop),
    ensures
        admission.phase == AdmissionPhase::Pending,
        !stop,
{
}

/// A phase changes by exactly four moves: a cancellation or a claim of a pending admission, and
/// the acceptance or the rollback of a claimed one. Every other event leaves it as it is.
pub proof fn law_phase_moves(
    phase: AdmissionPhase,
    event: AdmissionEvent,
    next: Result<AdmissionPhase, AdmissionPhase>,
)
    requires
        call_ensures(AdmissionPhase::try_transition, (phase, event), next),
    ensures
        next is Err ==> next->Err_0 == phase,
        next is Ok <==> {
            ||| phase == AdmissionPhase::Pending && (event == AdmissionEvent::Cancel || event
                == AdmissionEvent::MarkIrrevocable)
            ||| phase == AdmissionPhase::Irrevocable && (event == AdmissionEvent::Accept || event
                == AdmissionEvent::Rollback)
        },
        next is Ok && (event == AdmissionEvent::Cancel || event == AdmissionEvent::Rollback)
            ==> next->Ok_0 == AdmissionPhase::Cancelled,
        next is Ok && event == AdmissionEvent::MarkIrrevocable ==> next->Ok_0
            == AdmissionPhase::Irrevocable,
        next is Ok && event == AdmissionEvent::Accept ==> next->Ok_0 == AdmissionPhase::Accepted,
{
}

/// Enforcing a stop raises it and takes nothing back.
pub proof fn law_enforced_stop_is_raised(admission: &mut DetachedAdmission, done: ())
    requires
        call_ensures(DetachedAdmission::enforce_cancelled_stop, (admission,), done),
    ensures
        final(admission).stop,
        final(admission).phase == old(admission).phase,
{
}

} // verus!

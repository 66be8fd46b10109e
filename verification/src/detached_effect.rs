//! What a deferred send proves: the backend took none of its frames and never will.
//!
//! The backend takes a frame of a detached send only by a claim on its admission. A history of
//! the admission therefore tells whether a frame was taken, and every way in which a detached
//! send ends is held against that history.

use vstd::prelude::*;

use crate::admission::AdmissionPhase;
use crate::admission::DetachedAdmission;
use crate::admission::DetachedAdmissionCancel;
use crate::capacity::TransferDemand;
use crate::class::SendCompletionOutcome;
use crate::delivery::ChunkSendProgress;
use crate::delivery::FrameContext;
use crate::delivery::SendAction;
use crate::delivery::SendEvent;
use crate::delivery::claim_prepared;
use crate::delivery::claim_settled;
use crate::delivery::send_step;
use crate::did::Did;
use crate::error::Error;
use crate::error::class_of;
use crate::payload_send::DetachedSend;
use crate::payload_send::PayloadAction;
use crate::payload_send::PayloadEvent;
use crate::rerouting::Verdict;
use crate::rerouting::is_run;
use crate::rerouting::law_only_the_last_attempt_has_an_effect;
use crate::transfer::FinalTransferResult;
use crate::worker::cancelled_result;

verus! {

/// One use of the admission of a detached send.
pub enum AdmissionUse {
    /// `cancel`, by a deadline or by a sender that went away.
    Cancel,
    /// `prepare_claim` for a frame, then `settle_claim`; `taken` says whether the backend took the
    /// frame where it might.
    Claim { permitted: bool, taken: bool },
    /// `try_succeed`.
    Accept,
}

/// `admission` after `used`.
pub open spec fn after_use(admission: DetachedAdmission, used: AdmissionUse) -> DetachedAdmission {
    match used {
        AdmissionUse::Cancel => if DetachedSend::cancels(admission)
            == DetachedAdmissionCancel::Cancelled {
            DetachedAdmission { phase: AdmissionPhase::Cancelled, stop: true }
        } else {
            admission
        },
        AdmissionUse::Claim { permitted, taken } => {
            let (decision, prepared) = claim_prepared(permitted, Some(admission));
            claim_settled(decision, taken && decision is TryClaim, prepared)->0
        },
        AdmissionUse::Accept => if admission.phase == AdmissionPhase::Irrevocable {
            DetachedAdmission { phase: AdmissionPhase::Accepted, ..admission }
        } else {
            admission
        },
    }
}

/// The backend takes a frame by `used`.
pub open spec fn takes_frame(admission: DetachedAdmission, used: AdmissionUse) -> bool {
    match used {
        AdmissionUse::Claim { permitted, taken } => taken && claim_prepared(
            permitted,
            Some(admission),
        ).0 is TryClaim,
        _ => false,
    }
}

/// `admission` after `uses` in turn.
pub open spec fn after_uses(
    admission: DetachedAdmission,
    uses: Seq<AdmissionUse>,
) -> DetachedAdmission
    decreases uses.len(),
{
    if uses.len() == 0 {
        admission
    } else {
        after_use(after_uses(admission, uses.drop_last()), uses.last())
    }
}

/// The backend takes a frame in the course of `uses`.
pub open spec fn frame_taken(admission: DetachedAdmission, uses: Seq<AdmissionUse>) -> bool
    decreases uses.len(),
{
    uses.len() > 0 && (frame_taken(admission, uses.drop_last()) || takes_frame(
        after_uses(admission, uses.drop_last()),
        uses.last(),
    ))
}

/// The admission of a send that has just begun.
pub open spec fn begun() -> DetachedAdmission {
    DetachedAdmission { phase: AdmissionPhase::Pending, stop: false }
}

/// How the worker ended a transfer whose first frame was not accepted.
pub enum FirstFrameEnd<D> {
    /// The transfer was told to stop, or the worker was.
    Stopped,
    /// Its frame could not be made.
    Unmade(Error),
    /// The send of its frame ended with `event`.
    Sent { frame: FrameContext, event: SendEvent<D> },
}

/// How a detached send ended.
pub enum DetachedEnd<D> {
    /// It was refused before it had a transfer.
    Unprepared(Error),
    /// Its generation had lost its slot before it had a transfer.
    Superseded,
    /// Its deadline passed before it had a transfer.
    PreparationTimedOut,
    /// Its worker did not take the transfer; `current` says whether its generation still sent.
    Refused { error: Error, current: bool },
    /// Its worker went away; `current` says whether its generation still sent.
    Lost { reason: String, current: bool },
    /// Its worker reported the end of the transfer to `reply_to`.
    Reported { reply_to: u64, first: FirstFrameEnd<D> },
    /// It did not settle in time.
    CleanupTimedOut,
}

/// What the send of a first frame came to, if it is over.
pub open spec fn first_frame_result<D>(first: FirstFrameEnd<D>) -> Option<
    Result<SendCompletionOutcome, Error>,
> {
    match first {
        FirstFrameEnd::Stopped => Some(Ok(SendCompletionOutcome::Cancelled)),
        FirstFrameEnd::Unmade(error) => Some(Err(error)),
        FirstFrameEnd::Sent { frame, event } => match send_step(frame, event) {
            SendAction::Finish(ChunkSendProgress::Ready(Ok(_)), _) => Some(
                Ok(SendCompletionOutcome::Succeeded),
            ),
            SendAction::Finish(ChunkSendProgress::Ready(Err(error)), _) => Some(Err(error)),
            SendAction::Finish(ChunkSendProgress::Cancelled(reason), _) => Some(
                cancelled_result(true, reason),
            ),
            _ => None,
        },
    }
}

/// One detached send, from its beginning to its end.
pub struct DetachedAttempt<D> {
    /// The send as its end finds it.
    pub send: DetachedSend,
    /// The uses of its admission until then.
    pub uses: Seq<AdmissionUse>,
    /// Which of them was its deadline, if that passed after it had a transfer.
    pub deadline: Option<int>,
    /// How it ended.
    pub end: DetachedEnd<D>,
    /// The uses of its admission from then on.
    pub later: Seq<AdmissionUse>,
}

impl<D> DetachedAttempt<D> {
    /// The admission as the end finds it.
    pub open spec fn admission(self) -> DetachedAdmission {
        after_uses(begun(), self.uses)
    }

    /// The backend took a frame before the end.
    pub open spec fn taken(self) -> bool {
        frame_taken(begun(), self.uses)
    }

    /// What the transfer came to, and the admission after it was reported.
    pub open spec fn reported(self) -> (Result<SendCompletionOutcome, Error>, DetachedAdmission) {
        match self.end {
            DetachedEnd::Refused { error, current } => (
                if current {
                    Err(error)
                } else {
                    Ok(SendCompletionOutcome::Cancelled)
                },
                self.admission(),
            ),
            DetachedEnd::Lost { reason, current } => (
                if current {
                    Err(Error::ChannelRecvMessageFailed(reason))
                } else {
                    Ok(SendCompletionOutcome::Cancelled)
                },
                self.admission(),
            ),
            DetachedEnd::Reported { reply_to, first } => {
                let report = FinalTransferResult {
                    reply_to,
                    peer: self.send.peer,
                    result: first_frame_result(first)->0,
                };
                let (observed, after) = report.observed(Some(self.admission()));
                (observed, after->0)
            },
            _ => arbitrary(),
        }
    }

    /// The event that ends the send, and the admission it finds.
    pub open spec fn last_event(self) -> (PayloadEvent<()>, DetachedAdmission) {
        match self.end {
            DetachedEnd::Unprepared(error) => (
                PayloadEvent::Prepared(Err(error)),
                self.admission(),
            ),
            DetachedEnd::Superseded => (PayloadEvent::Prepared(Ok(None)), self.admission()),
            DetachedEnd::PreparationTimedOut => (
                PayloadEvent::PreparationTimedOut,
                self.admission(),
            ),
            DetachedEnd::CleanupTimedOut => (PayloadEvent::CleanupTimedOut, self.admission()),
            _ => {
                let (result, after) = self.reported();
                if self.deadline is Some {
                    (PayloadEvent::CleanedUp(result), after)
                } else {
                    (PayloadEvent::Sent(result), after)
                }
            },
        }
    }

    /// What the sender is told.
    pub open spec fn told(self) -> Result<SendCompletionOutcome, Error> {
        let (event, admission) = self.last_event();
        self.send.step(admission, event)->Finish_0
    }

    /// The admission once the sender was told.
    pub open spec fn settled(self) -> DetachedAdmission {
        let (event, admission) = self.last_event();
        DetachedSend::admission_after(admission, event)
    }

    /// No frame of the send is ever taken.
    pub open spec fn without_effect(self) -> bool {
        !self.taken() && !frame_taken(self.settled(), self.later)
    }

    /// The end fits the history.
    ///
    /// Only a transfer in the hands of a worker is claimed, so nothing is taken of a send that
    /// never had one, nor once its worker has ended it. The state in which the send of a frame
    /// ended says whether the backend took the frame. Of a frame that it took, the backend reports
    /// no error that leaves the send free to be made again.
    pub open spec fn consistent(self) -> bool {
        &&& match self.deadline {
            Some(at) => {
                &&& 0 <= at < self.uses.len()
                &&& self.uses[at] is Cancel
                &&& self.send.cancellation == Some(
                    DetachedSend::cancels(after_uses(begun(), self.uses.take(at))),
                )
            },
            None => self.send.cancellation is None,
        }
        &&& match self.end {
            DetachedEnd::Unprepared(_)
            | DetachedEnd::Superseded
            | DetachedEnd::PreparationTimedOut => self.deadline is None && !self.taken(),
            DetachedEnd::Refused { .. } => !self.taken(),
            DetachedEnd::Lost { .. } => true,
            DetachedEnd::CleanupTimedOut => self.deadline is Some,
            DetachedEnd::Reported { first, .. } => {
                &&& first_frame_result(first) is Some
                &&& match first {
                    FirstFrameEnd::Stopped => true,
                    FirstFrameEnd::Unmade(_) => !self.taken(),
                    FirstFrameEnd::Sent { event, .. } => match event {
                        SendEvent::Finished { result, irrevocable, .. } => {
                            &&& irrevocable == self.taken()
                            &&& irrevocable && result is Err ==> !(class_of(
                                result->Err_0,
                            ) is Deferrable)
                        },
                        SendEvent::DeadlineReached { cancelled } => cancelled == !self.taken(),
                        SendEvent::CancelTried { won, .. } => won == !self.taken(),
                        SendEvent::Inspected { .. } => true,
                    },
                }
            },
        }
        &&& !(self.end is Lost) && !(self.end is CleanupTimedOut) ==> forall|i: int|
            0 <= i < self.later.len() ==> !(#[trigger] self.later[i] is Claim)
    }
}

/// A frame was taken exactly if the admission is claimed or accepted.
pub proof fn law_taken_frame_is_claimed(uses: Seq<AdmissionUse>)
    ensures
        frame_taken(begun(), uses) <==> {
            let phase = after_uses(begun(), uses).phase;
            phase == AdmissionPhase::Irrevocable || phase == AdmissionPhase::Accepted
        },
    decreases uses.len(),
{
    if uses.len() > 0 {
        law_taken_frame_is_claimed(uses.drop_last());
    }
}

/// No frame is taken once the admission is cancelled, or where nothing claims one.
proof fn lemma_nothing_taken(admission: DetachedAdmission, uses: Seq<AdmissionUse>)
    requires
        admission.phase == AdmissionPhase::Cancelled || forall|i: int|
            0 <= i < uses.len() ==> !(#[trigger] uses[i] is Claim),
    ensures
        !frame_taken(admission, uses),
        admission.phase == AdmissionPhase::Cancelled ==> after_uses(admission, uses).phase
            == AdmissionPhase::Cancelled,
    decreases uses.len(),
{
    if uses.len() > 0 {
        let prefix = uses.drop_last();
        assert forall|i: int| 0 <= i < prefix.len() && !(uses[i] is Claim) implies !(
        #[trigger] prefix[i] is Claim) by {
            assert(prefix[i] == uses[i]);
        }
        lemma_nothing_taken(admission, prefix);
    }
}

/// A use that cancels the admission is never undone.
proof fn lemma_cancelled_for_good(uses: Seq<AdmissionUse>, at: int)
    requires
        0 <= at < uses.len(),
        uses[at] is Cancel,
        DetachedSend::cancels(after_uses(begun(), uses.take(at)))
            == DetachedAdmissionCancel::Cancelled,
    ensures
        after_uses(begun(), uses).phase == AdmissionPhase::Cancelled,
    decreases uses.len(),
{
    let prefix = uses.drop_last();
    if at == uses.len() - 1 {
        assert(uses.take(at) =~= prefix);
    } else {
        assert(prefix.take(at) =~= uses.take(at));
        lemma_cancelled_for_good(prefix, at);
    }
}

/// A detached send that is judged deferred had no effect and never will: the backend took none of
/// its frames, and whatever happens to its admission from then on, it takes none.
pub proof fn law_deferred_send_has_no_effect<D>(
    attempt: DetachedAttempt<D>,
    verdict: Verdict,
    hop: Did,
    generation: Option<u64>,
    demand: TransferDemand,
)
    requires
        attempt.consistent(),
        verdict.judges(hop, generation, demand, attempt.told()),
        verdict is Deferred,
    ensures
        attempt.without_effect(),
{
    law_taken_frame_is_claimed(attempt.uses);
    if let Some(at) = attempt.deadline {
        if attempt.send.cancellation == Some(DetachedAdmissionCancel::Cancelled) {
            lemma_cancelled_for_good(attempt.uses, at);
        }
    }
    assert(!attempt.taken());
    lemma_nothing_taken(attempt.settled(), attempt.later);
}

/// At most one attempt of a placement has an effect: of every attempt but the last, no frame is
/// ever taken.
pub proof fn law_at_most_one_attempt_has_an_effect<D>(
    deferrals: u8,
    verdicts: Seq<Verdict>,
    attempts: Seq<DetachedAttempt<D>>,
    hops: Seq<(Did, Option<u64>, TransferDemand)>,
    attempt: int,
)
    requires
        is_run(deferrals, verdicts),
        attempts.len() == verdicts.len(),
        hops.len() == verdicts.len(),
        0 <= attempt < verdicts.len() - 1,
        attempts[attempt].consistent(),
        verdicts[attempt].judges(
            hops[attempt].0,
            hops[attempt].1,
            hops[attempt].2,
            attempts[attempt].told(),
        ),
    ensures
        attempts[attempt].without_effect(),
{
    law_only_the_last_attempt_has_an_effect(deferrals, verdicts, attempt);
    law_deferred_send_has_no_effect(
        attempts[attempt],
        verdicts[attempt],
        hops[attempt].0,
        hops[attempt].1,
        hops[attempt].2,
    );
}

} // verus!

//! One outbound transfer: its frames, its conditions and whom it reports to.
//!
//! A detached transfer reports once its first frame is accepted, an attached one once it is
//! over. Either reports once. What a transfer holds of outbound capacity is given back before its
//! result is published.

use std::collections::VecDeque;
use vstd::prelude::*;

use crate::admission::after_all;
use crate::admission::law_success_and_cancellation_are_final;
use crate::admission::AdmissionEvent;
use crate::admission::AdmissionPhase;
use crate::admission::DetachedAdmission;
use crate::capacity::TransferCapacityPermit;
use crate::class::OutboundCompletion;
use crate::class::SendCompletionOutcome;
use crate::class::TransferClass;
use crate::delivery::ChunkSendPermit;
use crate::did::Did;
use crate::error::Error;
use crate::measurement::OutboundMeasurement;
use crate::registry::PendingConnectionAttempt;

verus! {

/// What a send comes to.
pub type SendResult = Result<SendCompletionOutcome, Error>;

/// A reading of the stop tokens at one moment.
#[derive(Debug)]
pub struct StopReading {
    /// The worker was told to stop, and with it every transfer.
    pub scheduler: bool,
    /// The tokens of the transfers whose callers told them to stop.
    pub stopped: Vec<u64>,
}

impl StopReading {
    /// The transfer of `token` was told to stop.
    pub open spec fn names(&self, token: u64) -> bool {
        self.scheduler || self.stopped@.contains(token)
    }

    /// Whether the transfer of `token` was told to stop.
    pub fn should_stop(&self, token: u64) -> (stop: bool)
        ensures
            stop == self.names(token),
    {
        if self.scheduler {
            return true;
        }
        let mut index: usize = 0;
        while index < self.stopped.len()
            invariant
                index <= self.stopped@.len(),
                forall|i: int| 0 <= i < index ==> #[trigger] self.stopped@[i] != token,
            decreases self.stopped@.len() - index,
        {
            if self.stopped[index] == token {
                assert(self.stopped@[index as int] == token);
                return true;
            }
            index += 1;
        }
        false
    }
}

/// One chunk of a payload.
pub struct ChunkPart<B> {
    /// Its place among the chunks.
    pub position: usize,
    /// How many chunks there are.
    pub total: usize,
    /// Its bytes.
    pub data: B,
}

/// What a frame carries.
pub enum FramePart<B> {
    /// The whole payload.
    Whole(B),
    /// One chunk of it.
    Chunk(ChunkPart<B>),
}

impl<B> FramePart<B> {
    /// The name under which the frame is sent.
    pub open spec fn named(self) -> Seq<char> {
        match self {
            FramePart::Whole(_) => "whole_message"@,
            FramePart::Chunk(chunk) => if chunk.position == 0 {
                "chunked_first"@
            } else {
                "chunked_tail"@
            },
        }
    }
}

/// One frame to send.
pub struct OutboundFrame<B> {
    /// What it carries.
    pub part: FramePart<B>,
    /// The name under which it is sent.
    pub context: &'static str,
}

/// The frames of a transfer that were not sent yet.
pub enum FrameSource<B> {
    /// The whole payload in one frame.
    Whole(Option<B>),
    /// One frame per chunk.
    Chunked(VecDeque<ChunkPart<B>>),
}

impl<B> FrameSource<B> {
    /// What the frames still carry, in order.
    pub open spec fn remaining(self) -> Seq<FramePart<B>> {
        match self {
            FrameSource::Whole(Some(data)) => seq![FramePart::Whole(data)],
            FrameSource::Whole(None) => Seq::empty(),
            FrameSource::Chunked(chunks) => chunks@.map_values(
                |chunk: ChunkPart<B>| FramePart::Chunk(chunk),
            ),
        }
    }

    /// The next frame.
    pub fn next_frame(&mut self) -> (frame: Option<OutboundFrame<B>>)
        ensures
            if old(self).remaining().len() == 0 {
                &&& frame is None
                &&& final(self).remaining() == old(self).remaining()
            } else {
                &&& frame matches Some(frame) && frame.part == old(self).remaining()[0]
                    && frame.context@ == frame.part.named()
                &&& final(self).remaining() == old(self).remaining().drop_first()
            },
    {
        let ghost before = self.remaining();
        match self {
            FrameSource::Whole(whole) => {
                match whole.take() {
                    Some(data) => {
                        proof {
                            assert(self.remaining() =~= before.drop_first());
                        }
                        Some(
                            OutboundFrame {
                                part: FramePart::Whole(data),
                                context: "whole_message",
                            },
                        )
                    },
                    None => None,
                }
            },
            FrameSource::Chunked(chunks) => {
                match chunks.pop_front() {
                    Some(chunk) => {
                        proof {
                            assert(self.remaining() =~= before.drop_first());
                        }
                        let context = if chunk.position == 0 {
                            "chunked_first"
                        } else {
                            "chunked_tail"
                        };
                        Some(OutboundFrame { part: FramePart::Chunk(chunk), context })
                    },
                    None => None,
                }
            },
        }
    }
}

/// A result on its way to whoever awaits it.
#[derive(Debug)]
pub struct FinalTransferResult {
    /// Whom it goes to.
    pub reply_to: u64,
    /// The peer the send was bound for.
    pub peer: Did,
    /// What the send came to.
    pub result: SendResult,
}

impl FinalTransferResult {
    /// What the caller observes of the result, and its admission after that: a detached caller
    /// observes a cancellation only of an admission that is cancelled.
    pub open spec fn observed(self, admission: Option<DetachedAdmission>) -> (
        SendResult,
        Option<DetachedAdmission>,
    ) {
        match (self.result, admission) {
            (Ok(SendCompletionOutcome::Cancelled), Some(before)) => match before.phase {
                AdmissionPhase::Pending | AdmissionPhase::Cancelled => (
                    Ok(SendCompletionOutcome::Cancelled),
                    Some(DetachedAdmission { phase: AdmissionPhase::Cancelled, stop: true }),
                ),
                _ => (
                    Err(Error::DetachedSendAbandonedAfterClaim { peer: self.peer }),
                    admission,
                ),
            },
            _ => (self.result, admission),
        }
    }

    /// Hand the result to its caller, whose admission is `admission` if the send is detached.
    pub fn publish(self, admission: &mut Option<DetachedAdmission>) -> (observed: SendResult)
        ensures
            (observed, *final(admission)) == self.observed(*old(admission)),
    {
        match self.result {
            Ok(SendCompletionOutcome::Cancelled) => match *admission {
                Some(before) => {
                    let mut gate = before;
                    let observed = gate.cancelled_outcome(self.peer);
                    *admission = Some(gate);
                    observed
                },
                None => Ok(SendCompletionOutcome::Cancelled),
            },
            result => result,
        }
    }
}

/// A detached caller that observes a cancellation knows that no frame was or will be claimed:
/// whatever happens to its admission from then on, it stays cancelled.
pub proof fn law_observed_cancellation_means_unsent(
    report: FinalTransferResult,
    admission: DetachedAdmission,
    later: Seq<AdmissionEvent>,
)
    requires
        report.observed(Some(admission)).0 == Ok::<SendCompletionOutcome, Error>(
            SendCompletionOutcome::Cancelled,
        ),
    ensures
        report.observed(Some(admission)).1 is Some,
        after_all(report.observed(Some(admission)).1->0.phase, later)
            == AdmissionPhase::Cancelled,
{
    law_success_and_cancellation_are_final(AdmissionPhase::Cancelled, later);
}

/// Whether and to whom a transfer still has to report.
#[derive(Clone, Copy, Debug, PartialEq, Eq, Hash, Structural)]
pub struct TransferCompletion {
    /// When it reports.
    pub policy: OutboundCompletion,
    /// The peer the transfer goes to.
    pub peer: Did,
    /// Whom it reports to.
    pub reply_to: u64,
    /// It has not reported yet.
    pub open: bool,
}

impl TransferCompletion {
    /// The completion once it has reported.
    pub open spec fn reported(self) -> TransferCompletion {
        TransferCompletion { open: false, ..self }
    }

    /// The report of `result`, if it is still owed.
    pub open spec fn report(self, result: SendResult) -> Option<FinalTransferResult> {
        if self.open {
            Some(FinalTransferResult { reply_to: self.reply_to, peer: self.peer, result })
        } else {
            None
        }
    }

    /// Report success of the first frame, if that is when the transfer reports.
    pub fn take_first_admission(&mut self) -> (report: Option<FinalTransferResult>)
        ensures
            if old(self).policy == OutboundCompletion::Detached {
                &&& report == old(self).report(Ok(SendCompletionOutcome::Succeeded))
                &&& *final(self) == old(self).reported()
            } else {
                &&& report is None
                &&& *final(self) == *old(self)
            },
    {
        if self.policy == OutboundCompletion::Detached {
            return self.take_final(Ok(SendCompletionOutcome::Succeeded));
        }
        None
    }

    /// Report `result`, unless the transfer has reported already.
    pub fn take_final(&mut self, result: SendResult) -> (report: Option<FinalTransferResult>)
        ensures
            report == old(self).report(result),
            *final(self) == old(self).reported(),
    {
        if self.open {
            self.open = false;
            Some(FinalTransferResult { reply_to: self.reply_to, peer: self.peer, result })
        } else {
            None
        }
    }
}

/// Where a transfer goes.
#[derive(Clone, Copy, Debug, PartialEq, Eq, Hash, Structural)]
pub struct OutboundTransferRoute {
    /// The class it is scheduled under.
    pub class: TransferClass,
    /// The peer it goes to.
    pub did: Did,
    /// The generation it was admitted for.
    pub attempt: PendingConnectionAttempt,
    /// What it must still be permitted to do.
    pub permit: ChunkSendPermit,
}

/// One outbound transfer.
pub struct OutboundTransfer<B> {
    /// Where it goes.
    pub route: OutboundTransferRoute,
    /// The frames that were not sent yet.
    pub source: FrameSource<B>,
    /// The useful bytes of its payload, whatever the framing.
    pub useful_bytes: u64,
    /// Whom it reports to.
    pub completion: TransferCompletion,
    /// Its first frame was accepted.
    pub first_frame_admitted: bool,
    /// The token by which its caller tells it to stop.
    pub stop_token: u64,
}

impl<B> OutboundTransfer<B> {
    /// The transfer was told to stop, by its worker or by its caller.
    pub open spec fn stopped(self, stops: &StopReading) -> bool {
        stops.names(self.stop_token)
    }

    /// A frame of the transfer is admitted under the caller's `admission`, if it has one: the
    /// first one counts only if the admission can succeed.
    pub open spec fn frame_admitted(self, admission: Option<DetachedAdmission>) -> OutboundTransfer<
        B,
    > {
        if self.first_frame_admitted || (admission is Some && admission->0.phase
            != AdmissionPhase::Irrevocable) {
            self
        } else {
            OutboundTransfer {
                first_frame_admitted: true,
                completion: self.completion_at_first_frame(),
                ..self
            }
        }
    }

    /// The caller's admission once a frame is admitted: the first frame makes it succeed, or tells
    /// it to stop.
    pub open spec fn admission_after_frame(self, admission: Option<DetachedAdmission>) -> Option<
        DetachedAdmission,
    > {
        if self.first_frame_admitted {
            admission
        } else {
            match admission {
                Some(before) => Some(
                    if before.phase == AdmissionPhase::Irrevocable {
                        DetachedAdmission { phase: AdmissionPhase::Accepted, ..before }
                    } else {
                        DetachedAdmission { stop: true, ..before }
                    },
                ),
                None => None,
            }
        }
    }

    /// The completion once the first frame is admitted.
    pub open spec fn completion_at_first_frame(self) -> TransferCompletion {
        if self.completion.policy == OutboundCompletion::Detached {
            self.completion.reported()
        } else {
            self.completion
        }
    }

    /// The report owed at the first admitted frame.
    pub open spec fn frame_report(self, admission: Option<DetachedAdmission>) -> Option<
        FinalTransferResult,
    > {
        if self.frame_admitted(admission).first_frame_admitted && !self.first_frame_admitted
            && self.completion.policy == OutboundCompletion::Detached {
            self.completion.report(Ok(SendCompletionOutcome::Succeeded))
        } else {
            None
        }
    }

    /// A transfer of a whole payload.
    pub fn whole(
        route: OutboundTransferRoute,
        data: B,
        useful_bytes: u64,
        policy: OutboundCompletion,
        reply_to: u64,
        stop_token: u64,
    ) -> (transfer: Self)
        ensures
            transfer == (OutboundTransfer {
                route,
                source: FrameSource::Whole(Some(data)),
                useful_bytes,
                completion: TransferCompletion { policy, peer: route.did, reply_to, open: true },
                first_frame_admitted: false,
                stop_token,
            }),
    {
        OutboundTransfer {
            route,
            source: FrameSource::Whole(Some(data)),
            useful_bytes,
            completion: TransferCompletion { policy, peer: route.did, reply_to, open: true },
            first_frame_admitted: false,
            stop_token,
        }
    }

    /// A transfer of a payload in chunks.
    pub fn chunked(
        route: OutboundTransferRoute,
        chunks: VecDeque<ChunkPart<B>>,
        useful_bytes: u64,
        policy: OutboundCompletion,
        reply_to: u64,
        stop_token: u64,
    ) -> (transfer: Self)
        ensures
            transfer == (OutboundTransfer {
                route,
                source: FrameSource::Chunked(chunks),
                useful_bytes,
                completion: TransferCompletion { policy, peer: route.did, reply_to, open: true },
                first_frame_admitted: false,
                stop_token,
            }),
    {
        OutboundTransfer {
            route,
            source: FrameSource::Chunked(chunks),
            useful_bytes,
            completion: TransferCompletion { policy, peer: route.did, reply_to, open: true },
            first_frame_admitted: false,
            stop_token,
        }
    }

    /// The class it is scheduled under.
    pub fn class(&self) -> (class: TransferClass)
        ensures
            class == self.route.class,
    {
        self.route.class
    }

    /// The useful bytes of its payload.
    pub fn useful_bytes(&self) -> (useful_bytes: u64)
        ensures
            useful_bytes == self.useful_bytes,
    {
        self.useful_bytes
    }

    /// Whether no frame was accepted yet.
    pub fn is_before_first_frame(&self) -> (before: bool)
        ensures
            before == !self.first_frame_admitted,
    {
        !self.first_frame_admitted
    }

    /// Whether the transfer was told to stop.
    pub fn is_stopped(&self, stops: &StopReading) -> (stopped: bool)
        ensures
            stopped == self.stopped(stops),
    {
        stops.should_stop(self.stop_token)
    }

    /// Note that a frame was accepted under the caller's `admission`, and report it if it is the
    /// first of a detached transfer.
    pub fn take_frame_admission_result(&mut self, admission: &mut Option<DetachedAdmission>) -> (report:
        Option<FinalTransferResult>)
        ensures
            report == old(self).frame_report(*old(admission)),
            *final(self) == old(self).frame_admitted(*old(admission)),
            *final(admission) == old(self).admission_after_frame(*old(admission)),
    {
        if self.first_frame_admitted {
            return None;
        }
        if let Some(before) = *admission {
            let mut succeeding = before;
            if !succeeding.try_succeed() {
                succeeding.enforce_cancelled_stop();
                *admission = Some(succeeding);
                return None;
            }
            *admission = Some(succeeding);
        }
        self.first_frame_admitted = true;
        self.completion.take_first_admission()
    }
}

/// Completion is reported once: whatever was reported, nothing is reported after it, and a
/// detached transfer has nothing left to report once its first frame is admitted.
pub proof fn law_completion_is_reported_once<B>(
    transfer: OutboundTransfer<B>,
    admission: Option<DetachedAdmission>,
    result: SendResult,
)
    ensures
        transfer.completion.reported().report(result) is None,
        transfer.completion.policy == OutboundCompletion::Detached && transfer.frame_admitted(
            admission,
        ).first_frame_admitted && !transfer.first_frame_admitted ==> transfer.frame_admitted(
            admission,
        ).completion.report(result) is None,
        transfer.completion.policy == OutboundCompletion::Attached ==> transfer.frame_report(
            admission,
        ) is None && transfer.frame_admitted(admission).completion == transfer.completion,
{
}

/// A detached transfer whose admission was cancelled never reports success of a frame: it is told
/// to stop instead.
pub proof fn law_cancelled_admission_reports_no_success<B>(
    transfer: OutboundTransfer<B>,
    admission: DetachedAdmission,
)
    requires
        !transfer.first_frame_admitted,
        admission.phase == AdmissionPhase::Cancelled,
    ensures
        transfer.frame_report(Some(admission)) is None,
        !transfer.frame_admitted(Some(admission)).first_frame_admitted,
        transfer.admission_after_frame(Some(admission)) == Some(
            DetachedAdmission { phase: AdmissionPhase::Cancelled, stop: true },
        ),
{
}

/// A transfer with the capacity it holds.
pub struct ScheduledTransfer<B> {
    /// The transfer.
    pub transfer: OutboundTransfer<B>,
    /// What it holds.
    pub capacity_permit: TransferCapacityPermit,
}

/// What a worker does outside itself: it gives back capacity, then reports, then measures.
pub struct WorkerEffects {
    /// The capacity to give back, before anything is reported.
    pub released: Vec<TransferCapacityPermit>,
    /// The results to report.
    pub results: Vec<FinalTransferResult>,
    /// The outcomes to measure.
    pub measurements: Vec<OutboundMeasurement>,
}

impl WorkerEffects {
    /// Nothing to do.
    pub fn new() -> (effects: Self)
        ensures
            effects.released@ == Seq::<TransferCapacityPermit>::empty(),
            effects.results@ == Seq::<FinalTransferResult>::empty(),
            effects.measurements@ == Seq::<OutboundMeasurement>::empty(),
    {
        WorkerEffects { released: Vec::new(), results: Vec::new(), measurements: Vec::new() }
    }

    /// `self` is `before` and then the end of `scheduled` with `result`.
    pub open spec fn ended<B>(
        &self,
        before: &WorkerEffects,
        scheduled: ScheduledTransfer<B>,
        result: SendResult,
    ) -> bool {
        &&& self.released@ == before.released@.push(scheduled.capacity_permit)
        &&& self.results@ == with_report(
            before.results@,
            scheduled.transfer.completion.report(result),
        )
        &&& self.measurements@ == before.measurements@
    }

    /// End a transfer with `result`: its capacity is given back, and its result reported if it
    /// has not reported yet.
    pub fn finalize<B>(&mut self, scheduled: ScheduledTransfer<B>, result: SendResult)
        ensures
            final(self).ended(&*old(self), scheduled, result),
    {
        let mut completion = scheduled.transfer.completion;
        self.released.push(scheduled.capacity_permit);
        match completion.take_final(result) {
            Some(report) => {
                self.results.push(report);
            },
            None => {},
        }
    }

    /// End a transfer as cancelled.
    pub fn cancel<B>(&mut self, scheduled: ScheduledTransfer<B>)
        ensures
            final(self).ended(&*old(self), scheduled, Ok(SendCompletionOutcome::Cancelled)),
    {
        self.finalize(scheduled, Ok(SendCompletionOutcome::Cancelled))
    }
}

/// `results` and `report` if there is one.
pub open spec fn with_report(
    results: Seq<FinalTransferResult>,
    report: Option<FinalTransferResult>,
) -> Seq<FinalTransferResult> {
    match report {
        Some(report) => results.push(report),
        None => results,
    }
}

/// The transfers of a worker at its end: the one being sent, those in its lanes, and those still
/// in its mailbox.
pub struct ShutdownBatch<T> {
    /// The transfer being sent.
    pub active: Vec<T>,
    /// The transfers in the lanes.
    pub ready: Vec<T>,
    /// The transfers in the mailbox.
    pub buffered: Vec<T>,
}

/// The values that are there, in order.
pub open spec fn present<R>(values: Seq<Option<R>>) -> Seq<R>
    decreases values.len(),
{
    if values.len() == 0 {
        Seq::empty()
    } else {
        match values.last() {
            Some(value) => present(values.drop_last()).push(value),
            None => present(values.drop_last()),
        }
    }
}

impl<T> ShutdownBatch<T> {
    /// Every transfer, in the order in which they are finalized.
    pub open spec fn all(&self) -> Seq<T> {
        self.active@ + self.ready@ + self.buffered@
    }

    /// A batch of these transfers.
    pub fn new(active: Vec<T>, ready: Vec<T>, buffered: Vec<T>) -> (batch: Self)
        ensures
            batch == (ShutdownBatch { active, ready, buffered }),
    {
        ShutdownBatch { active, ready, buffered }
    }

    /// Finalize every transfer, and only then hand over what each left to publish.
    pub fn finalize<R, F: Fn(T) -> Option<R>>(self, finalize: F) -> (results: Vec<R>)
        requires
            forall|item: T| #[trigger] finalize.requires((item,)),
        ensures
            exists|values: Seq<Option<R>>|
                {
                    &&& values.len() == self.all().len()
                    &&& forall|i: int|
                        0 <= i < values.len() ==> #[trigger] finalize.ensures(
                            (self.all()[i],),
                            values[i],
                        )
                    &&& results@ == #[trigger] present(values)
                },
    {
        let ghost all = self.all();
        let mut items = self.active;
        let mut ready = self.ready;
        let mut buffered = self.buffered;
        items.append(&mut ready);
        items.append(&mut buffered);
        assert(items@ =~= all);
        let mut results: Vec<R> = Vec::new();
        let ghost mut values: Seq<Option<R>> = Seq::empty();
        let ghost mut done: int = 0;
        while items.len() > 0
            invariant
                forall|item: T| #[trigger] finalize.requires((item,)),
                0 <= done <= all.len(),
                items@ == all.skip(done),
                values.len() == done,
                forall|i: int|
                    0 <= i < values.len() ==> #[trigger] finalize.ensures((all[i],), values[i]),
                results@ == present(values),
            decreases items@.len(),
        {
            let item = items.remove(0);
            assert(item == all[done]);
            let value = finalize(item);
            proof {
                let grown = values.push(value);
                assert(grown.drop_last() =~= values);
                assert forall|i: int| 0 <= i < grown.len() implies #[trigger] finalize.ensures(
                    (all[i],),
                    grown[i],
                ) by {
                    if i < values.len() {
                        assert(grown[i] == values[i]);
                        assert(finalize.ensures((all[i],), values[i]));
                    }
                }
                values = grown;
                done = done + 1;
                assert(items@ =~= all.skip(done));
            }
            match value {
                Some(result) => {
                    results.push(result);
                },
                None => {},
            }
        }
        assert(present(values) == results@);
        results
    }
}

/// `after` is `before` and then the one report of `result`, if `completion` still owes one.
pub open spec fn reports_once(
    before: Seq<FinalTransferResult>,
    after: Seq<FinalTransferResult>,
    completion: TransferCompletion,
    result: SendResult,
) -> bool {
    &&& after.len() == before.len() + (if completion.open {
        1int
    } else {
        0
    })
    &&& forall|i: int| 0 <= i < before.len() ==> #[trigger] after[i] == before[i]
    &&& completion.open ==> after[before.len() as int].reply_to == completion.reply_to && after[
    before.len() as int].peer == completion.peer && after[before.len() as int].result == result
}

/// The frames of a payload are the payload itself, or its chunks in their order.
pub proof fn law_frames_of_a_payload<B>(
    route: OutboundTransferRoute,
    data: B,
    chunks: VecDeque<ChunkPart<B>>,
    useful_bytes: u64,
    policy: OutboundCompletion,
    reply_to: u64,
    stop_token: u64,
    whole: OutboundTransfer<B>,
    chunked: OutboundTransfer<B>,
)
    requires
        call_ensures(
            OutboundTransfer::<B>::whole,
            (route, data, useful_bytes, policy, reply_to, stop_token),
            whole,
        ),
        call_ensures(
            OutboundTransfer::<B>::chunked,
            (route, chunks, useful_bytes, policy, reply_to, stop_token),
            chunked,
        ),
    ensures
        whole.source.remaining().len() == 1,
        whole.source.remaining()[0] == FramePart::Whole(data),
        chunked.source.remaining().len() == chunks@.len(),
        forall|i: int|
            0 <= i < chunks@.len() ==> #[trigger] chunked.source.remaining()[i]
                == FramePart::Chunk(chunks@[i]),
        whole.route == route && chunked.route == route,
        whole.useful_bytes == useful_bytes && chunked.useful_bytes == useful_bytes,
        whole.stop_token == stop_token && chunked.stop_token == stop_token,
        !whole.first_frame_admitted && !chunked.first_frame_admitted,
        whole.completion.open && whole.completion.policy == policy && whole.completion.reply_to
            == reply_to && whole.completion.peer == route.did,
        chunked.completion == whole.completion,
{
}

/// Frames go out in their order, each once: the next one is the first that is left, the rest stay,
/// and there is none exactly if none is left. A frame is named by what it carries.
pub proof fn law_frames_go_out_in_order<B>(
    source: &mut FrameSource<B>,
    frame: Option<OutboundFrame<B>>,
)
    requires
        call_ensures(FrameSource::<B>::next_frame, (source,), frame),
    ensures
        *old(source) matches FrameSource::Whole(held) ==> {
            &&& frame is Some <==> held is Some
            &&& frame matches Some(frame) ==> frame.part == FramePart::Whole(held->0)
                && frame.context@ == "whole_message"@
            &&& final(source).remaining().len() == 0
        },
        *old(source) matches FrameSource::Chunked(chunks) ==> {
            &&& frame is Some <==> chunks@.len() > 0
            &&& frame matches Some(frame) ==> {
                &&& frame.part == FramePart::Chunk(chunks@[0])
                &&& chunks@[0].position == 0 ==> frame.context@ == "chunked_first"@
                &&& chunks@[0].position != 0 ==> frame.context@ == "chunked_tail"@
                &&& final(source).remaining().len() == chunks@.len() - 1
                &&& forall|i: int|
                    0 <= i < chunks@.len() - 1 ==> #[trigger] final(source).remaining()[i]
                        == FramePart::Chunk(chunks@[i + 1])
            }
        },
{
}

/// A transfer is told to stop exactly if its worker is, or its own token is named.
pub proof fn law_transfer_stops_with_its_worker_or_by_its_token<B>(
    transfer: OutboundTransfer<B>,
    stops: StopReading,
    stopped: bool,
)
    requires
        call_ensures(OutboundTransfer::<B>::is_stopped, (&transfer, &stops), stopped),
    ensures
        stopped <==> stops.scheduler || stops.stopped@.contains(transfer.stop_token),
{
}

/// A result is told as it is, but for a cancellation that a detached caller must not be told of
/// after a claim. It changes the admission only to close it for good.
pub proof fn law_results_are_told_as_they_are(
    report: FinalTransferResult,
    admission: &mut Option<DetachedAdmission>,
    observed: SendResult,
)
    requires
        call_ensures(FinalTransferResult::publish, (report, admission), observed),
    ensures
        ({
            let cancelled = report.result == Ok::<SendCompletionOutcome, Error>(
                SendCompletionOutcome::Cancelled,
            );
            let claimed = *old(admission) is Some && ((*old(admission))->0.phase
                == AdmissionPhase::Irrevocable || (*old(admission))->0.phase
                == AdmissionPhase::Accepted);
            &&& !(cancelled && claimed) ==> observed == report.result
            &&& cancelled && claimed ==> observed == Err::<SendCompletionOutcome, Error>(
                Error::DetachedSendAbandonedAfterClaim { peer: report.peer },
            )
            &&& !cancelled || claimed || *old(admission) is None ==> *final(admission) == *old(admission)
            &&& cancelled && !claimed && *old(admission) is Some ==> *final(admission) is Some && (
            *final(admission))->0.phase == AdmissionPhase::Cancelled && (*final(admission))->0.stop
        }),
{
}

/// A transfer reports once: a detached one of success at its first frame, any other at its end with
/// the result it came to. After that it owes nothing.
pub proof fn law_transfer_reports_once(
    first: &mut TransferCompletion,
    early: Option<FinalTransferResult>,
    last: &mut TransferCompletion,
    result: SendResult,
    report: Option<FinalTransferResult>,
)
    requires
        call_ensures(TransferCompletion::take_first_admission, (first,), early),
        call_ensures(TransferCompletion::take_final, (last, result), report),
    ensures
        early is Some <==> old(first).open && old(first).policy == OutboundCompletion::Detached,
        early matches Some(told) ==> told.result == Ok::<SendCompletionOutcome, Error>(
            SendCompletionOutcome::Succeeded,
        ) && told.reply_to == old(first).reply_to && told.peer == old(first).peer,
        final(first).open <==> old(first).open && old(first).policy
            == OutboundCompletion::Attached,
        report is Some <==> old(last).open,
        report matches Some(told) ==> told.result == result && told.reply_to == old(last).reply_to
            && told.peer == old(last).peer,
        !final(last).open,
        final(first).policy == old(first).policy && final(first).reply_to == old(first).reply_to
            && final(first).peer == old(first).peer,
{
}

/// An accepted first frame is noted exactly if its admission, if it has one, was claimed; then the
/// admission is accepted, and a detached caller is told of success. A frame whose admission was not
/// claimed tells nobody anything and stops its transfer. Later frames change nothing.
pub proof fn law_first_frame_tells_the_detached_caller<B>(
    transfer: &mut OutboundTransfer<B>,
    admission: &mut Option<DetachedAdmission>,
    report: Option<FinalTransferResult>,
)
    requires
        call_ensures(
            OutboundTransfer::<B>::take_frame_admission_result,
            (transfer, admission),
            report,
        ),
    ensures
        ({
            let first = !old(transfer).first_frame_admitted;
            let claimed = *old(admission) is None || (*old(admission))->0.phase
                == AdmissionPhase::Irrevocable;
            &&& final(transfer).first_frame_admitted <==> !first || claimed
            &&& report is Some <==> first && claimed && old(transfer).completion.open && old(transfer).completion.policy == OutboundCompletion::Detached
            &&& report matches Some(told) ==> told.result == Ok::<SendCompletionOutcome, Error>(
                SendCompletionOutcome::Succeeded,
            ) && told.reply_to == old(transfer).completion.reply_to && told.peer == old(transfer).completion.peer
            &&& final(transfer).completion.open <==> old(transfer).completion.open && !(first
                && claimed && old(transfer).completion.policy == OutboundCompletion::Detached)
            &&& first && claimed && *old(admission) is Some ==> *final(admission) is Some && (
            *final(admission))->0.phase == AdmissionPhase::Accepted
            &&& first && !claimed ==> *final(admission) is Some && (*final(admission))->0.stop && (
            *final(admission))->0.phase == (*old(admission))->0.phase
            &&& !first ==> *final(admission) == *old(admission) && *final(transfer) == *old(transfer)
            &&& final(transfer).source == old(transfer).source
            &&& final(transfer).route == old(transfer).route
            &&& final(transfer).useful_bytes == old(transfer).useful_bytes
            &&& final(transfer).stop_token == old(transfer).stop_token
        }),
{
}

/// The end of a transfer gives its capacity back once and reports its result once, if it still owes
/// a report; a cancelled one reports a cancellation.
pub proof fn law_ended_transfer_gives_back_and_reports_once<B>(
    ended: &mut WorkerEffects,
    scheduled: ScheduledTransfer<B>,
    result: SendResult,
    cancelled: &mut WorkerEffects,
    other: ScheduledTransfer<B>,
)
    requires
        call_ensures(WorkerEffects::finalize::<B>, (ended, scheduled, result), ()),
        call_ensures(WorkerEffects::cancel::<B>, (cancelled, other), ()),
    ensures
        final(ended).released@ == old(ended).released@ + seq![scheduled.capacity_permit],
        reports_once(
            old(ended).results@,
            final(ended).results@,
            scheduled.transfer.completion,
            result,
        ),
        final(ended).measurements@ == old(ended).measurements@,
        final(cancelled).released@ == old(cancelled).released@ + seq![other.capacity_permit],
        reports_once(
            old(cancelled).results@,
            final(cancelled).results@,
            other.transfer.completion,
            Ok(SendCompletionOutcome::Cancelled),
        ),
        final(cancelled).measurements@ == old(cancelled).measurements@,
{
    assert(final(ended).released@ =~= old(ended).released@ + seq![scheduled.capacity_permit]);
    assert(final(cancelled).released@ =~= old(cancelled).released@ + seq![other.capacity_permit]);
}

} // verus!

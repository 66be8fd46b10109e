//! Sending one payload: what is checked before its frames are scheduled, and how its deadline,
//! its cleanup and the loss of its worker are resolved.

use std::collections::VecDeque;

use vstd::prelude::*;

use crate::admission::AdmissionEvent;
use crate::admission::AdmissionPhase;
use crate::admission::DetachedAdmission;
use crate::admission::DetachedAdmissionCancel;
use crate::admission::after_all;
use crate::admission::law_cancelled_admission_is_never_claimed;
use crate::admission::law_success_and_cancellation_are_final;
use crate::capacity::TransferCapacityPermit;
use crate::class::OutboundCompletion;
use crate::class::SendCompletionOutcome;
use crate::delivery::TerminationCause;
use crate::did::Did;
use crate::error::Error;
use crate::error::class_of;
use crate::readiness::SwarmConnection;
use crate::registry::PeerConnectionLifecycle;
use crate::reserved_capacity::retained_wire_bytes;
use crate::schedulers::PeerHandle;
use crate::transfer::ChunkPart;
use crate::transfer::OutboundTransfer;
use crate::transfer::OutboundTransferRoute;
use crate::transport::AdmittedConnection;
use crate::transport::SwarmTransport;

verus! {

/// What a payload to send is known by before anything is reserved for it.
#[derive(Clone, Copy, Debug, PartialEq, Eq, Hash, Structural)]
pub struct PayloadFacts {
    /// Its size on the wire.
    pub wire_bytes: usize,
    /// The size of what it carries.
    pub data_bytes: usize,
    /// When its send is reported.
    pub completion: OutboundCompletion,
    /// Its kind counts a missing connection against the peer.
    pub kind_records_missing_connection: bool,
}

/// A payload that may be prepared.
#[derive(Clone, Copy, Debug, PartialEq, Eq, Hash, Structural)]
pub struct OutboundPreparation {
    /// Its size on the wire.
    pub wire_bytes: usize,
    /// The size of what it carries.
    pub useful_bytes: u64,
    /// A missing connection counts against the peer.
    pub records_missing_connection_failure: bool,
}

/// What a failure says of the peer it is counted against.
#[derive(Clone, Copy, Debug, PartialEq, Eq, Hash, Structural)]
pub enum FailureRecord {
    /// This node addressed the peer and has no connection to it.
    LocallyAddressed,
    /// The peer itself set the bound that was missed.
    Authenticated,
}

/// A payload that is not sent.
#[derive(Debug)]
pub struct PreparationRefusal {
    /// Why.
    pub error: Error,
    /// What is counted against the peer.
    pub recorded: Option<FailureRecord>,
}

impl PreparationRefusal {
    /// `peer` has no connection to send on.
    pub open spec fn missing(peer: Did, recorded: bool) -> PreparationRefusal {
        PreparationRefusal {
            error: Error::SwarmMissDidInTable(peer),
            recorded: if recorded {
                Some(FailureRecord::LocallyAddressed)
            } else {
                None
            },
        }
    }

    /// `peer` has no connection to send on.
    pub fn of_missing_connection(peer: Did, recorded: bool) -> (refusal: Self)
        ensures
            refusal == PreparationRefusal::missing(peer, recorded),
    {
        PreparationRefusal {
            error: Error::SwarmMissDidInTable(peer),
            recorded: if recorded {
                Some(FailureRecord::LocallyAddressed)
            } else {
                None
            },
        }
    }
}

/// How a payload is cut into frames.
#[derive(Clone, Copy, Debug, PartialEq, Eq, Hash, Structural)]
pub enum Framing {
    /// One frame.
    Whole,
    /// Chunks of this size.
    Chunked { chunk_size: usize },
}

/// The bytes a payload of `wire_bytes` holds while it is prepared: the payload and its frame, and
/// never none.
pub fn outbound_memory_reservation(wire_bytes: usize) -> (bytes: usize)
    ensures
        bytes == (if wire_bytes == 0 {
            1
        } else if 2 * wire_bytes <= usize::MAX {
            2 * wire_bytes
        } else {
            usize::MAX as int
        }),
{
    let bytes: usize = retained_wire_bytes(wire_bytes);
    if bytes < 1 {
        1
    } else {
        bytes
    }
}

/// How long a send may wait for outbound capacity: an attached one as long as it takes.
pub fn reservation_deadline_ms(completion: OutboundCompletion, budget_ms: u128) -> (deadline_ms:
    Option<u128>)
    ensures
        deadline_ms == (match completion {
            OutboundCompletion::Attached => None,
            OutboundCompletion::Detached => Some(budget_ms),
        }),
{
    match completion {
        OutboundCompletion::Attached => None,
        OutboundCompletion::Detached => Some(budget_ms),
    }
}

/// What the wait for outbound capacity comes to; `reserved` is `None` where the deadline came
/// first.
pub fn reservation_outcome(
    peer: Did,
    budget_ms: u128,
    reserved: Option<Result<TransferCapacityPermit, Error>>,
) -> (outcome: Result<TransferCapacityPermit, Error>)
    ensures
        outcome == (match reserved {
            Some(result) => result,
            None => Err(
                Error::OutboundTransferAdmissionTimeout { peer, timeout_ms: budget_ms },
            ),
        }),
{
    match reserved {
        Some(result) => result,
        None => Err(Error::OutboundTransferAdmissionTimeout { peer, timeout_ms: budget_ms }),
    }
}

/// The framing of a payload for a peer that takes messages of `max_message_size`; `plan` is
/// `None` where that bound holds no frame.
pub fn settle_framing(plan: Option<Framing>, max_message_size: usize) -> (framing: Result<
    Framing,
    PreparationRefusal,
>)
    ensures
        framing == (match plan {
            Some(framing) => Ok::<Framing, PreparationRefusal>(framing),
            None => Err(
                PreparationRefusal {
                    error: Error::PeerMaxMessageSizeTooSmall(max_message_size),
                    recorded: Some(FailureRecord::Authenticated),
                },
            ),
        }),
{
    match plan {
        Some(framing) => Ok(framing),
        None => Err(
            PreparationRefusal {
                error: Error::PeerMaxMessageSizeTooSmall(max_message_size),
                recorded: Some(FailureRecord::Authenticated),
            },
        ),
    }
}

/// The frames of a payload: itself, or its chunks.
pub enum FramedPayload<B> {
    /// One frame.
    Whole(B),
    /// The chunks, in order.
    Chunked(VecDeque<ChunkPart<B>>),
}

/// The transfer of a framed payload along `route`.
pub fn frame_outbound_transfer<B>(
    route: OutboundTransferRoute,
    payload: FramedPayload<B>,
    useful_bytes: u64,
    completion: OutboundCompletion,
    reply_to: u64,
    stop_token: u64,
) -> (transfer: OutboundTransfer<B>)
    ensures
        transfer.route == route,
        transfer.useful_bytes == useful_bytes,
        transfer.completion == (crate::transfer::TransferCompletion {
            policy: completion,
            peer: route.did,
            reply_to,
            open: true,
        }),
        !transfer.first_frame_admitted,
        transfer.stop_token == stop_token,
        match payload {
            FramedPayload::Whole(data) => transfer.source == crate::transfer::FrameSource::Whole(
                Some(data),
            ),
            FramedPayload::Chunked(chunks) => transfer.source
                == crate::transfer::FrameSource::Chunked(chunks),
        },
{
    match payload {
        FramedPayload::Whole(data) => OutboundTransfer::whole(
            route,
            data,
            useful_bytes,
            completion,
            reply_to,
            stop_token,
        ),
        FramedPayload::Chunked(chunks) => OutboundTransfer::chunked(
            route,
            chunks,
            useful_bytes,
            completion,
            reply_to,
            stop_token,
        ),
    }
}

/// What a submitted transfer came to, as its sender sees it.
pub enum Submission {
    /// The worker's mailbox refused it.
    Refused(Error),
    /// The worker reported.
    Reported(Result<SendCompletionOutcome, Error>),
    /// The worker ended without a report.
    Lost,
}

impl SwarmTransport {
    /// Check a payload to `peer` before anything is reserved for it: its size against
    /// `max_bytes`, and that a generation sends to the peer at all.
    pub fn inspect_outbound_preparation(&self, peer: Did, payload: &PayloadFacts, max_bytes: usize) -> (preparation:
        Result<OutboundPreparation, PreparationRefusal>)
        requires
            self.wf(),
        ensures
            ({
                let recorded = payload.completion == OutboundCompletion::Detached
                    && payload.kind_records_missing_connection;
                preparation == (if payload.wire_bytes > max_bytes {
                    Err(
                        PreparationRefusal {
                            error: Error::MessageTooLarge(payload.wire_bytes),
                            recorded: None,
                        },
                    )
                } else if !self@.sends_to(peer) || !self@.connections.contains_key(peer) {
                    Err(PreparationRefusal::missing(peer, recorded))
                } else {
                    Ok::<OutboundPreparation, PreparationRefusal>(
                        OutboundPreparation {
                            wire_bytes: payload.wire_bytes,
                            useful_bytes: payload.data_bytes as u64,
                            records_missing_connection_failure: recorded,
                        },
                    )
                })
            }),
    {
        let recorded = payload.completion == OutboundCompletion::Detached
            && payload.kind_records_missing_connection;
        if payload.wire_bytes > max_bytes {
            return Err(
                PreparationRefusal {
                    error: Error::MessageTooLarge(payload.wire_bytes),
                    recorded: None,
                },
            );
        }
        if self.admitted_send_connection(peer).is_none() {
            return Err(PreparationRefusal::of_missing_connection(peer, recorded));
        }
        Ok(
            OutboundPreparation {
                wire_bytes: payload.wire_bytes,
                useful_bytes: payload.data_bytes as u64,
                records_missing_connection_failure: recorded,
            },
        )
    }

    /// The connection a send to `peer` is bound to, or why there is none.
    pub open spec fn send_binding(
        &self,
        peer: Did,
        completion: OutboundCompletion,
        records_missing_connection_failure: bool,
        checked: Option<AdmittedConnection>,
    ) -> Result<AdmittedConnection, PreparationRefusal> {
        match completion {
            OutboundCompletion::Detached => match checked {
                Some(admitted) => Ok(admitted),
                None => Err(PreparationRefusal::missing(peer, records_missing_connection_failure)),
            },
            OutboundCompletion::Attached => if !self@.sends_to(peer)
                || !self@.connections.contains_key(peer) {
                Err(PreparationRefusal::missing(peer, false))
            } else if !self@.connections[peer].reading().ready() {
                Err(
                    PreparationRefusal {
                        error: self@.connections[peer].reading().refusal(),
                        recorded: None,
                    },
                )
            } else {
                Ok(
                    AdmittedConnection {
                        attempt: self@.sender_of(peer),
                        connection: self@.connections[peer],
                    },
                )
            },
        }
    }

    /// The connection a send to `peer` is bound to. A detached send takes the one it waited for,
    /// `checked`; an attached one takes what is ready now.
    pub fn connection_for_send(
        &self,
        peer: Did,
        completion: OutboundCompletion,
        records_missing_connection_failure: bool,
        checked: Option<AdmittedConnection>,
    ) -> (connection: Result<AdmittedConnection, PreparationRefusal>)
        requires
            self.wf(),
        ensures
            connection == self.send_binding(
                peer,
                completion,
                records_missing_connection_failure,
                checked,
            ),
    {
        match completion {
            OutboundCompletion::Detached => match checked {
                Some(admitted) => Ok(admitted),
                None => Err(
                    PreparationRefusal::of_missing_connection(
                        peer,
                        records_missing_connection_failure,
                    ),
                ),
            },
            OutboundCompletion::Attached => match self.admitted_send_connection(peer) {
                Some(admitted) => match admitted.connection.readiness().ensure_can_make_progress() {
                    Ok(()) => Ok(admitted),
                    Err(error) => Err(PreparationRefusal { error, recorded: None }),
                },
                None => Err(PreparationRefusal::of_missing_connection(peer, false)),
            },
        }
    }

    /// Run `operation` on the connection of `admitted` while its generation still sends; `None`
    /// where it does not.
    pub fn with_current_connection<T, F: FnOnce(&SwarmConnection) -> T>(
        &self,
        admitted: &AdmittedConnection,
        operation: F,
    ) -> (done: Option<T>)
        requires
            self.wf(),
            operation.requires((&admitted.connection,)),
        ensures
            match done {
                Some(value) => self.is_sender(admitted.attempt) && operation.ensures(
                    (&admitted.connection,),
                    value,
                ),
                None => !self.is_sender(admitted.attempt),
            },
    {
        if !self.is_current_sender(admitted.attempt) {
            return None;
        }
        Some(operation(&admitted.connection))
    }

    /// What the loss of a worker comes to: its transfers ended cancelled if the generation lost its
    /// slot, and with `local_error` otherwise. Whether a frame was claimed before that is not known
    /// here: a detached send judges it by its admission.
    pub fn resolve_scheduler_loss(&self, admitted: &AdmittedConnection, local_error: Error) -> (outcome:
        Result<SendCompletionOutcome, Error>)
        requires
            self.wf(),
        ensures
            outcome == (if self.is_sender(admitted.attempt) {
                Err::<SendCompletionOutcome, Error>(local_error)
            } else {
                Ok(SendCompletionOutcome::Cancelled)
            }),
    {
        match self.ensure_current(admitted) {
            Ok(()) => Err(local_error),
            Err(_) => Ok(SendCompletionOutcome::Cancelled),
        }
    }

    /// What a submitted transfer came to. The caller of a detached send is told of it through
    /// [`DetachedSend::next_action`].
    pub fn resolve_submission(&self, admitted: &AdmittedConnection, submission: Submission) -> (outcome:
        Result<SendCompletionOutcome, Error>)
        requires
            self.wf(),
        ensures
            match submission {
                Submission::Reported(result) => outcome == result,
                Submission::Refused(error) => outcome == (if self.is_sender(admitted.attempt) {
                    Err::<SendCompletionOutcome, Error>(error)
                } else {
                    Ok(SendCompletionOutcome::Cancelled)
                }),
                Submission::Lost => if self.is_sender(admitted.attempt) {
                    outcome matches Err(Error::ChannelRecvMessageFailed(reason)) && reason@
                        == "outbound scheduler stopped"@
                } else {
                    outcome == Ok::<SendCompletionOutcome, Error>(SendCompletionOutcome::Cancelled)
                },
            },
    {
        match submission {
            Submission::Reported(result) => result,
            Submission::Refused(error) => self.resolve_scheduler_loss(admitted, error),
            Submission::Lost => self.resolve_scheduler_loss(
                admitted,
                Error::ChannelRecvMessageFailed("outbound scheduler stopped".to_owned()),
            ),
        }
    }
}

/// What a transfer needs once everything it waits for is there.
#[derive(Clone, Copy, Debug, PartialEq, Eq, Hash, Structural)]
pub struct PreparedRoute {
    /// The connection it is bound to.
    pub admitted: AdmittedConnection,
    /// The worker it is submitted to.
    pub handle: PeerHandle,
    /// How its payload is cut into frames.
    pub framing: Framing,
}

impl SwarmTransport {
    /// Bind a send to a connection, a worker and a framing, in this order. `start` finds or starts
    /// the peer's worker; `plan` is the framing that the peer's bound `max_message_size` allows.
    /// `None` means that the generation no longer sends.
    pub fn prepare_outbound_transfer<S: FnOnce(Did) -> Result<PeerHandle, Error>>(
        &self,
        peer: Did,
        completion: OutboundCompletion,
        preparation: &OutboundPreparation,
        checked: Option<AdmittedConnection>,
        start: S,
        plan: Option<Framing>,
        max_message_size: usize,
    ) -> (prepared: Result<Option<PreparedRoute>, PreparationRefusal>)
        requires
            self.wf(),
            start.requires((peer,)),
        ensures
            match self.send_binding(
                peer,
                completion,
                preparation.records_missing_connection_failure,
                checked,
            ) {
                Err(refusal) => prepared == Err::<Option<PreparedRoute>, PreparationRefusal>(
                    refusal,
                ),
                Ok(admitted) => if !self.is_sender(admitted.attempt) {
                    prepared == Ok::<Option<PreparedRoute>, PreparationRefusal>(None)
                } else {
                    exists|started: Result<PeerHandle, Error>| #[trigger]
                        start.ensures((peer,), started) && prepared == (match (started, plan) {
                            (Err(error), _) => Err::<Option<PreparedRoute>, PreparationRefusal>(
                                PreparationRefusal { error, recorded: None },
                            ),
                            (Ok(_), None) => Err(
                                PreparationRefusal {
                                    error: Error::PeerMaxMessageSizeTooSmall(max_message_size),
                                    recorded: Some(FailureRecord::Authenticated),
                                },
                            ),
                            (Ok(handle), Some(framing)) => Ok(
                                Some(PreparedRoute { admitted, handle, framing }),
                            ),
                        })
                },
            },
    {
        let admitted = match self.connection_for_send(
            peer,
            completion,
            preparation.records_missing_connection_failure,
            checked,
        ) {
            Ok(admitted) => admitted,
            Err(refusal) => {
                return Err(refusal);
            },
        };
        if !self.is_current_sender(admitted.attempt) {
            return Ok(None);
        }
        let handle = match start(peer) {
            Ok(handle) => handle,
            Err(error) => {
                return Err(PreparationRefusal { error, recorded: None });
            },
        };
        match settle_framing(plan, max_message_size) {
            Ok(framing) => Ok(Some(PreparedRoute { admitted, handle, framing })),
            Err(refusal) => Err(refusal),
        }
    }
}

/// What happened to a send, in the order in which it can.
pub enum PayloadEvent<P> {
    /// The transfer is prepared, or the generation was gone.
    Prepared(Result<Option<P>, Error>),
    /// The deadline came before the transfer was prepared.
    PreparationTimedOut,
    /// The submitted transfer ended.
    Sent(Result<SendCompletionOutcome, Error>),
    /// The deadline came before the submitted transfer ended.
    SendTimedOut,
    /// The transfer ended within the grace after the deadline.
    CleanedUp(Result<SendCompletionOutcome, Error>),
    /// It did not.
    CleanupTimedOut,
}

/// What to do next with a send.
pub enum PayloadAction<P> {
    /// Submit the transfer, and wait for its end or the deadline.
    Submit(P),
    /// Tell the worker to look for stopped transfers if `cancel_stopped`, and wait for the end of
    /// the transfer or of the grace.
    AwaitCleanup { cancel_stopped: bool },
    /// The send is over; retire the connection first if there is a cause.
    Finish(Result<SendCompletionOutcome, Error>, Option<TerminationCause>),
}

/// A send that is reported once every frame was delivered.
#[derive(Clone, Copy, Debug, PartialEq, Eq, Hash, Structural)]
pub struct AttachedSend {
    /// The peer it goes to.
    pub peer: Did,
    /// How long it may take to settle after its deadline.
    pub cleanup_grace_ms: u128,
    /// Its transfer was told to stop.
    pub stop: bool,
}

impl AttachedSend {
    /// A send to `peer`.
    pub fn new(peer: Did, cleanup_grace_ms: u128) -> (send: Self)
        ensures
            send == (AttachedSend { peer, cleanup_grace_ms, stop: false }),
    {
        AttachedSend { peer, cleanup_grace_ms, stop: false }
    }

    /// What to do after `event`.
    pub open spec fn step<P>(self, event: PayloadEvent<P>) -> PayloadAction<P> {
        match event {
            PayloadEvent::Prepared(Ok(Some(prepared))) => PayloadAction::Submit(prepared),
            PayloadEvent::Prepared(Ok(None)) => PayloadAction::Finish(
                Ok(SendCompletionOutcome::Cancelled),
                None,
            ),
            PayloadEvent::Prepared(Err(error)) => PayloadAction::Finish(Err(error), None),
            PayloadEvent::PreparationTimedOut => PayloadAction::Finish(
                Ok(SendCompletionOutcome::Cancelled),
                None,
            ),
            PayloadEvent::Sent(result) => PayloadAction::Finish(result, None),
            PayloadEvent::SendTimedOut => PayloadAction::AwaitCleanup { cancel_stopped: true },
            PayloadEvent::CleanedUp(Ok(_)) => PayloadAction::Finish(
                Ok(SendCompletionOutcome::Cancelled),
                None,
            ),
            PayloadEvent::CleanedUp(Err(error)) => PayloadAction::Finish(Err(error), None),
            PayloadEvent::CleanupTimedOut => PayloadAction::Finish(
                Err(
                    Error::TrackedPayloadCleanupTimeout {
                        peer: self.peer,
                        timeout_ms: self.cleanup_grace_ms,
                    },
                ),
                Some(TerminationCause::TrackedPayloadCleanupTimeout),
            ),
        }
    }

    /// Decide what to do after `event`. The deadline of a submitted transfer tells it to stop.
    pub fn next_action<P>(&mut self, event: PayloadEvent<P>) -> (action:
        PayloadAction<P>)
        ensures
            action == old(self).step(event),
            *final(self) == (AttachedSend {
                stop: old(self).stop || event is SendTimedOut,
                ..*old(self)
            }),
    {
        match event {
            PayloadEvent::Prepared(Ok(Some(prepared))) => PayloadAction::Submit(prepared),
            PayloadEvent::Prepared(Ok(None)) | PayloadEvent::PreparationTimedOut => {
                PayloadAction::Finish(Ok(SendCompletionOutcome::Cancelled), None)
            },
            PayloadEvent::Prepared(Err(error)) => PayloadAction::Finish(Err(error), None),
            PayloadEvent::Sent(result) => PayloadAction::Finish(result, None),
            PayloadEvent::SendTimedOut => {
                self.stop = true;
                PayloadAction::AwaitCleanup { cancel_stopped: true }
            },
            PayloadEvent::CleanedUp(Ok(_)) => PayloadAction::Finish(
                Ok(SendCompletionOutcome::Cancelled),
                None,
            ),
            PayloadEvent::CleanedUp(Err(error)) => PayloadAction::Finish(Err(error), None),
            PayloadEvent::CleanupTimedOut => PayloadAction::Finish(
                Err(
                    Error::TrackedPayloadCleanupTimeout {
                        peer: self.peer,
                        timeout_ms: self.cleanup_grace_ms,
                    },
                ),
                Some(TerminationCause::TrackedPayloadCleanupTimeout),
            ),
        }
    }
}

/// A send that is reported once its first frame was accepted.
#[derive(Clone, Copy, Debug, PartialEq, Eq, Hash, Structural)]
pub struct DetachedSend {
    /// The peer it goes to.
    pub peer: Did,
    /// How long its first frame may take.
    pub timeout_ms: u128,
    /// How long it may take to settle after its deadline.
    pub cleanup_grace_ms: u128,
    /// What cancelling its admission came to, once the deadline passed.
    pub cancellation: Option<DetachedAdmissionCancel>,
}

impl DetachedSend {
    /// A send to `peer`.
    pub fn new(peer: Did, timeout_ms: u128, cleanup_grace_ms: u128) -> (send: Self)
        ensures
            send == (DetachedSend { peer, timeout_ms, cleanup_grace_ms, cancellation: None }),
    {
        DetachedSend { peer, timeout_ms, cleanup_grace_ms, cancellation: None }
    }

    /// The error of a first frame that was not accepted in time.
    pub open spec fn timed_out(self) -> Error {
        Error::OutboundFirstFrameAdmissionTimeout { peer: self.peer, timeout_ms: self.timeout_ms }
    }

    /// The error of a first frame that was not accepted in time.
    pub fn timeout_error(&self) -> (error: Error)
        ensures
            error == self.timed_out(),
    {
        Error::OutboundFirstFrameAdmissionTimeout { peer: self.peer, timeout_ms: self.timeout_ms }
    }

    /// What cancelling `admission` comes to.
    pub open spec fn cancels(admission: DetachedAdmission) -> DetachedAdmissionCancel {
        match admission.phase {
            AdmissionPhase::Pending | AdmissionPhase::Cancelled =>
                DetachedAdmissionCancel::Cancelled,
            _ => DetachedAdmissionCancel::MustAwait,
        }
    }

    /// `event` ends the caller's interest: a deadline passed, or the send ended cancelled.
    pub open spec fn gives_up<P>(event: PayloadEvent<P>) -> bool {
        match event {
            PayloadEvent::PreparationTimedOut | PayloadEvent::SendTimedOut => true,
            PayloadEvent::Prepared(Ok(None)) => true,
            PayloadEvent::Sent(Ok(SendCompletionOutcome::Cancelled)) => true,
            PayloadEvent::CleanedUp(Ok(SendCompletionOutcome::Cancelled)) => true,
            _ => false,
        }
    }

    /// `admission` once `event` was handled: a deadline or a cancelled end cancels it unless its
    /// frame was claimed.
    pub open spec fn admission_after<P>(
        admission: DetachedAdmission,
        event: PayloadEvent<P>,
    ) -> DetachedAdmission {
        if Self::gives_up(event) && Self::cancels(admission)
            == DetachedAdmissionCancel::Cancelled {
            DetachedAdmission { phase: AdmissionPhase::Cancelled, stop: true }
        } else {
            admission
        }
    }

    /// What the caller is told of `result`: of a cancellation only where `admission` is cancelled.
    /// Where a frame was claimed the backend may hold it, and the send is ambiguous.
    pub open spec fn gated(
        self,
        admission: DetachedAdmission,
        result: Result<SendCompletionOutcome, Error>,
    ) -> Result<SendCompletionOutcome, Error> {
        match result {
            Ok(SendCompletionOutcome::Cancelled) if Self::cancels(admission)
                == DetachedAdmissionCancel::MustAwait => Err(
                Error::DetachedSendAbandonedAfterClaim { peer: self.peer },
            ),
            _ => result,
        }
    }

    /// Tell the caller of `result`.
    fn gate(
        &self,
        admission: &mut DetachedAdmission,
        result: Result<SendCompletionOutcome, Error>,
    ) -> (told: Result<SendCompletionOutcome, Error>)
        ensures
            told == self.gated(*old(admission), result),
            *final(admission) == Self::admission_after(
                *old(admission),
                PayloadEvent::<()>::Sent(result),
            ),
    {
        match result {
            Ok(SendCompletionOutcome::Cancelled) => admission.cancelled_outcome(self.peer),
            result => result,
        }
    }

    /// What to do after `event`.
    pub open spec fn step<P>(
        self,
        admission: DetachedAdmission,
        event: PayloadEvent<P>,
    ) -> PayloadAction<P> {
        match event {
            PayloadEvent::Prepared(Ok(Some(prepared))) => PayloadAction::Submit(prepared),
            PayloadEvent::Prepared(Ok(None)) => PayloadAction::Finish(
                self.gated(admission, Ok(SendCompletionOutcome::Cancelled)),
                None,
            ),
            PayloadEvent::Prepared(Err(error)) => PayloadAction::Finish(Err(error), None),
            PayloadEvent::PreparationTimedOut => PayloadAction::Finish(
                Err(self.timed_out()),
                None,
            ),
            PayloadEvent::Sent(result) => PayloadAction::Finish(
                self.gated(admission, result),
                None,
            ),
            PayloadEvent::SendTimedOut => PayloadAction::AwaitCleanup {
                cancel_stopped: Self::cancels(admission) == DetachedAdmissionCancel::Cancelled,
            },
            PayloadEvent::CleanedUp(result) => PayloadAction::Finish(
                if self.cancellation != Some(DetachedAdmissionCancel::Cancelled) {
                    self.gated(admission, result)
                } else {
                    match result {
                        Ok(SendCompletionOutcome::Succeeded) => Err(
                            Error::CancelledDetachedAdmissionPublishedSuccess,
                        ),
                        Ok(SendCompletionOutcome::Cancelled) => Err(self.timed_out()),
                        Err(error) => Err(error),
                    }
                },
                None,
            ),
            PayloadEvent::CleanupTimedOut => PayloadAction::Finish(
                Err(
                    Error::DetachedPayloadCleanupTimeout {
                        peer: self.peer,
                        timeout_ms: self.cleanup_grace_ms,
                    },
                ),
                Some(TerminationCause::DetachedPayloadCleanupTimeout),
            ),
        }
    }

    /// Decide what to do after `event`. A deadline cancels the admission unless its frame was
    /// claimed, and what that came to decides how the late end of the transfer is read. A
    /// cancelled end is told as one only where the admission is cancelled.
    pub fn next_action<P>(
        &mut self,
        admission: &mut DetachedAdmission,
        event: PayloadEvent<P>,
    ) -> (action: PayloadAction<P>)
        ensures
            action == old(self).step(*old(admission), event),
            *final(admission) == Self::admission_after(*old(admission), event),
            *final(self) == (DetachedSend {
                cancellation: if event is SendTimedOut {
                    Some(Self::cancels(*old(admission)))
                } else {
                    old(self).cancellation
                },
                ..*old(self)
            }),
    {
        match event {
            PayloadEvent::Prepared(Ok(Some(prepared))) => PayloadAction::Submit(prepared),
            PayloadEvent::Prepared(Ok(None)) => PayloadAction::Finish(
                self.gate(admission, Ok(SendCompletionOutcome::Cancelled)),
                None,
            ),
            PayloadEvent::Prepared(Err(error)) => PayloadAction::Finish(Err(error), None),
            PayloadEvent::PreparationTimedOut => {
                let _ = admission.cancel();
                PayloadAction::Finish(Err(self.timeout_error()), None)
            },
            PayloadEvent::Sent(result) => PayloadAction::Finish(
                self.gate(admission, result),
                None,
            ),
            PayloadEvent::SendTimedOut => {
                let decision = admission.cancel();
                self.cancellation = Some(decision);
                PayloadAction::AwaitCleanup {
                    cancel_stopped: decision == DetachedAdmissionCancel::Cancelled,
                }
            },
            PayloadEvent::CleanedUp(result) => {
                let cancelled = match self.cancellation {
                    Some(DetachedAdmissionCancel::Cancelled) => true,
                    _ => false,
                };
                if !cancelled {
                    return PayloadAction::Finish(self.gate(admission, result), None);
                }
                match result {
                    Ok(SendCompletionOutcome::Succeeded) => PayloadAction::Finish(
                        Err(Error::CancelledDetachedAdmissionPublishedSuccess),
                        None,
                    ),
                    Ok(SendCompletionOutcome::Cancelled) => {
                        let _ = admission.cancel();
                        PayloadAction::Finish(Err(self.timeout_error()), None)
                    },
                    Err(error) => PayloadAction::Finish(Err(error), None),
                }
            },
            PayloadEvent::CleanupTimedOut => PayloadAction::Finish(
                Err(
                    Error::DetachedPayloadCleanupTimeout {
                        peer: self.peer,
                        timeout_ms: self.cleanup_grace_ms,
                    },
                ),
                Some(TerminationCause::DetachedPayloadCleanupTimeout),
            ),
        }
    }
}

/// The guard of a sender that may go away before its transfer ends.
#[derive(Clone, Copy, Debug, PartialEq, Eq, Hash, Structural)]
pub struct StopOnDrop {
    /// The transfer was told to stop.
    pub stop: bool,
    /// The worker it was submitted to.
    pub worker: Option<u64>,
    /// The guard still stands.
    pub armed: bool,
}

impl StopOnDrop {
    /// A guard before its transfer is submitted.
    pub fn new() -> (guard: Self)
        ensures
            guard == (StopOnDrop { stop: false, worker: None, armed: true }),
    {
        StopOnDrop { stop: false, worker: None, armed: true }
    }

    /// Note the worker the transfer is submitted to.
    pub fn bind_handle(&mut self, worker: u64)
        ensures
            *final(self) == (if old(self).armed {
                StopOnDrop { worker: Some(worker), ..*old(self) }
            } else {
                *old(self)
            }),
    {
        if self.armed {
            self.worker = Some(worker);
        }
    }

    /// Tell the transfer to stop, and name the worker that has to look for it. The end of a guard
    /// that still stands does the same.
    pub fn request_stop(&mut self) -> (worker: Option<u64>)
        ensures
            worker == (if old(self).armed {
                old(self).worker
            } else {
                None
            }),
            *final(self) == (StopOnDrop {
                stop: old(self).stop || old(self).armed,
                ..*old(self)
            }),
    {
        if self.armed {
            self.stop = true;
            self.worker
        } else {
            None
        }
    }

    /// The transfer ended: nothing is left to stop.
    pub fn disarm(&mut self)
        ensures
            *final(self) == (StopOnDrop { armed: false, ..*old(self) }),
    {
        self.armed = false;
    }
}

/// The guard of a detached sender that may go away before its first frame is admitted.
#[derive(Clone, Copy, Debug, PartialEq, Eq, Hash, Structural)]
pub struct DetachedAdmissionOnDrop {
    /// The guard still stands.
    pub armed: bool,
}

impl DetachedAdmissionOnDrop {
    /// A guard that stands.
    pub fn new() -> (guard: Self)
        ensures
            guard.armed,
    {
        DetachedAdmissionOnDrop { armed: true }
    }

    /// Cancel `admission`; once the transfer ended there is nothing to cancel. The worker has to
    /// look for stopped transfers exactly when this comes to `Cancelled`. The end of a guard that
    /// still stands does the same.
    pub fn cancel(&self, admission: &mut DetachedAdmission) -> (decision: DetachedAdmissionCancel)
        ensures
            decision == (if self.armed {
                DetachedSend::cancels(*old(admission))
            } else {
                DetachedAdmissionCancel::MustAwait
            }),
            *final(admission) == (if decision == DetachedAdmissionCancel::Cancelled {
                DetachedAdmission { phase: AdmissionPhase::Cancelled, stop: true }
            } else {
                *old(admission)
            }),
    {
        if self.armed {
            admission.cancel()
        } else {
            DetachedAdmissionCancel::MustAwait
        }
    }

    /// The transfer ended: nothing is left to cancel.
    pub fn disarm(&mut self)
        ensures
            !final(self).armed,
    {
        self.armed = false;
    }
}

/// Once its deadline has passed, an attached send is never reported as succeeded.
pub proof fn law_late_attached_send_never_succeeds<P>(
    send: AttachedSend,
    result: Result<SendCompletionOutcome, Error>,
)
    ensures
        !(send.step::<P>(PayloadEvent::CleanedUp(result)) matches PayloadAction::Finish(
            Ok(SendCompletionOutcome::Succeeded),
            _,
        )),
        !(send.step::<P>(PayloadEvent::PreparationTimedOut) matches PayloadAction::Finish(
            Ok(SendCompletionOutcome::Succeeded),
            _,
        )),
        !(send.step::<P>(PayloadEvent::CleanupTimedOut) matches PayloadAction::Finish(
            Ok(SendCompletionOutcome::Succeeded),
            _,
        )),
{
}

/// A detached send that is told of the first-frame deadline had no effect and never will: its
/// deadline cancelled its admission, and whatever the backend and the worker do to the admission
/// from then on, no frame of it is claimed. The error leaves the send free to be made again.
pub proof fn law_first_frame_deadline_means_unsent<P>(
    send: DetachedSend,
    admission: DetachedAdmission,
    result: Result<SendCompletionOutcome, Error>,
    later: Seq<AdmissionEvent>,
)
    requires
        DetachedSend::cancels(admission) == DetachedAdmissionCancel::Cancelled,
    ensures
        ({
            let deadline = PayloadEvent::<P>::SendTimedOut;
            let cancelled = DetachedSend::admission_after(admission, deadline);
            let phase = after_all(cancelled.phase, later);
            &&& cancelled.stop
            &&& phase != AdmissionPhase::Irrevocable
            &&& phase != AdmissionPhase::Accepted
            &&& class_of(send.timed_out()) is Deferrable
        }),
        ({
            let early = PayloadEvent::<P>::PreparationTimedOut;
            let phase = after_all(DetachedSend::admission_after(admission, early).phase, later);
            phase != AdmissionPhase::Irrevocable && phase != AdmissionPhase::Accepted
        }),
{
    law_cancelled_admission_is_never_claimed(later);
}

/// A detached send whose frame was claimed before the deadline is read as its transfer ended: it
/// is told of success exactly if the transfer reported it, and never of a cancellation.
pub proof fn law_claimed_frame_is_awaited<P>(
    send: DetachedSend,
    admission: DetachedAdmission,
    result: Result<SendCompletionOutcome, Error>,
)
    requires
        send.cancellation == Some(DetachedAdmissionCancel::MustAwait),
        DetachedSend::cancels(admission) == DetachedAdmissionCancel::MustAwait,
    ensures
        send.step::<P>(admission, PayloadEvent::CleanedUp(result)) == PayloadAction::<P>::Finish(
            match result {
                Ok(SendCompletionOutcome::Cancelled) => Err(
                    Error::DetachedSendAbandonedAfterClaim { peer: send.peer },
                ),
                _ => result,
            },
            None,
        ),
{
}

/// A detached sender is told of a cancellation only of a send whose admission is cancelled: no
/// frame of it was claimed, and whatever happens to the admission from then on, none will be.
/// This holds of a worker lost under a generation that lost its slot as of any other end.
pub proof fn law_told_cancellation_means_unsent<P>(
    send: DetachedSend,
    admission: DetachedAdmission,
    event: PayloadEvent<P>,
    later: Seq<AdmissionEvent>,
)
    requires
        send.step(admission, event) matches PayloadAction::Finish(
            Ok(SendCompletionOutcome::Cancelled),
            _,
        ),
    ensures
        DetachedSend::admission_after(admission, event).phase == AdmissionPhase::Cancelled,
        after_all(DetachedSend::admission_after(admission, event).phase, later)
            == AdmissionPhase::Cancelled,
{
    law_success_and_cancellation_are_final(AdmissionPhase::Cancelled, later);
}

/// A send whose transfer does not settle in time retires its connection, and its error says that
/// the frame may have been sent.
pub proof fn law_unsettled_send_retires_its_connection<P>(
    attached: AttachedSend,
    detached: DetachedSend,
    admission: DetachedAdmission,
)
    ensures
        attached.step::<P>(PayloadEvent::CleanupTimedOut) matches PayloadAction::Finish(
            Err(error),
            Some(_),
        ) && class_of(error) is Ambiguous,
        detached.step::<P>(admission, PayloadEvent::CleanupTimedOut) matches PayloadAction::Finish(
            Err(error),
            Some(_),
        ) && class_of(error) is Ambiguous,
{
}

/// A tracked send that ends before its deadline is told exactly what its transfer reported, and
/// stops nothing.
pub proof fn law_attached_send_is_told_what_its_transfer_reported<P>(
    send: &mut AttachedSend,
    result: Result<SendCompletionOutcome, Error>,
    action: PayloadAction<P>,
)
    requires
        call_ensures(
            AttachedSend::next_action::<P>,
            (send, PayloadEvent::Sent(result)),
            action,
        ),
    ensures
        action == PayloadAction::<P>::Finish(result, None),
        *final(send) == *old(send),
{
}

/// A tracked send is told of success exactly if its transfer reported it before the deadline. Only
/// its deadline tells the transfer to stop, and only a transfer that does not settle after it
/// retires the connection.
pub proof fn law_attached_send_succeeds_in_time_only<P>(
    send: &mut AttachedSend,
    event: PayloadEvent<P>,
    action: PayloadAction<P>,
)
    requires
        call_ensures(AttachedSend::next_action::<P>, (send, event), action),
    ensures
        (action matches PayloadAction::Finish(Ok(SendCompletionOutcome::Succeeded), _)) <==> event
            == PayloadEvent::<P>::Sent(Ok(SendCompletionOutcome::Succeeded)),
        action is Submit <==> (event matches PayloadEvent::Prepared(Ok(Some(_)))),
        action matches PayloadAction::Submit(prepared) ==> event == PayloadEvent::Prepared(
            Ok(Some(prepared)),
        ),
        action is AwaitCleanup <==> event is SendTimedOut,
        action matches PayloadAction::AwaitCleanup { cancel_stopped } ==> cancel_stopped,
        action matches PayloadAction::Finish(_, cause) ==> (cause is Some <==> event
            is CleanupTimedOut),
        final(send).stop <==> old(send).stop || event is SendTimedOut,
        final(send).peer == old(send).peer,
        final(send).cleanup_grace_ms == old(send).cleanup_grace_ms,
{
}

/// A tracked send whose generation was gone, whose deadline came early or whose transfer settled
/// after its deadline without an error is told as cancelled. Every error it meets is told as it is.
pub proof fn law_attached_send_without_an_end_in_time_is_cancelled<P>(
    send: &mut AttachedSend,
    event: PayloadEvent<P>,
    action: PayloadAction<P>,
)
    requires
        call_ensures(AttachedSend::next_action::<P>, (send, event), action),
    ensures
        action == PayloadAction::<P>::Finish(Ok(SendCompletionOutcome::Cancelled), None) <==> {
            ||| event == PayloadEvent::<P>::Prepared(Ok(None))
            ||| event is PreparationTimedOut
            ||| event == PayloadEvent::<P>::Sent(Ok(SendCompletionOutcome::Cancelled))
            ||| (event matches PayloadEvent::CleanedUp(result) && result is Ok)
        },
        event matches PayloadEvent::Prepared(Err(error)) ==> action
            == PayloadAction::<P>::Finish(Err(error), None),
        event matches PayloadEvent::CleanedUp(Err(error)) ==> action
            == PayloadAction::<P>::Finish(Err(error), None),
        event is CleanupTimedOut ==> action == PayloadAction::<P>::Finish(
            Err(
                Error::TrackedPayloadCleanupTimeout {
                    peer: old(send).peer,
                    timeout_ms: old(send).cleanup_grace_ms,
                },
            ),
            Some(TerminationCause::TrackedPayloadCleanupTimeout),
        ),
{
}

/// A detached send that ends before its deadline is told what its transfer reported, but for a
/// cancellation after a claim, which is told as abandoned. It is told of success exactly if the
/// transfer reported it, before the deadline or after one that came too late to cancel.
pub proof fn law_detached_send_is_told_what_its_transfer_reported<P>(
    send: &mut DetachedSend,
    admission: &mut DetachedAdmission,
    result: Result<SendCompletionOutcome, Error>,
    action: PayloadAction<P>,
)
    requires
        call_ensures(
            DetachedSend::next_action::<P>,
            (send, admission, PayloadEvent::Sent(result)),
            action,
        ),
    ensures
        result != Ok::<SendCompletionOutcome, Error>(SendCompletionOutcome::Cancelled) ==> action
            == PayloadAction::<P>::Finish(result, None) && *final(admission) == *old(admission),
        result == Ok::<SendCompletionOutcome, Error>(SendCompletionOutcome::Cancelled) ==> (
        match old(admission).phase {
            AdmissionPhase::Irrevocable | AdmissionPhase::Accepted => action
                == PayloadAction::<P>::Finish(
                Err(Error::DetachedSendAbandonedAfterClaim { peer: old(send).peer }),
                None,
            ) && *final(admission) == *old(admission),
            _ => action == PayloadAction::<P>::Finish(
                Ok(SendCompletionOutcome::Cancelled),
                None,
            ) && final(admission).phase == AdmissionPhase::Cancelled && final(admission).stop,
        }),
        *final(send) == *old(send),
{
}

/// A detached send is told of success exactly if its transfer reported it and its deadline, if that
/// passed, had not cancelled it.
pub proof fn law_detached_send_succeeds_as_reported_only<P>(
    send: &mut DetachedSend,
    admission: &mut DetachedAdmission,
    event: PayloadEvent<P>,
    action: PayloadAction<P>,
)
    requires
        call_ensures(DetachedSend::next_action::<P>, (send, admission, event), action),
    ensures
        (action matches PayloadAction::Finish(Ok(SendCompletionOutcome::Succeeded), _)) <==> {
            ||| event == PayloadEvent::<P>::Sent(Ok(SendCompletionOutcome::Succeeded))
            ||| event == PayloadEvent::<P>::CleanedUp(Ok(SendCompletionOutcome::Succeeded)) && old(send).cancellation != Some(DetachedAdmissionCancel::Cancelled)
        },
        action is Submit <==> (event matches PayloadEvent::Prepared(Ok(Some(_)))),
        action matches PayloadAction::Submit(prepared) ==> event == PayloadEvent::Prepared(
            Ok(Some(prepared)),
        ),
        action is AwaitCleanup <==> event is SendTimedOut,
        action matches PayloadAction::Finish(_, cause) ==> (cause is Some <==> event
            is CleanupTimedOut),
        event is CleanupTimedOut ==> action == PayloadAction::<P>::Finish(
            Err(
                Error::DetachedPayloadCleanupTimeout {
                    peer: old(send).peer,
                    timeout_ms: old(send).cleanup_grace_ms,
                },
            ),
            Some(TerminationCause::DetachedPayloadCleanupTimeout),
        ),
        event matches PayloadEvent::Prepared(Err(error)) ==> action
            == PayloadAction::<P>::Finish(Err(error), None),
{
}

/// The deadline of a detached send cancels its admission exactly if no frame was claimed: then the
/// worker is told to look for it, and whatever settles later is told as the deadline unless it is
/// an error. Otherwise what settles later is told as a send in time would be.
pub proof fn law_detached_deadline_cancels_before_the_claim<P>(
    send: &mut DetachedSend,
    admission: &mut DetachedAdmission,
    timed_out: PayloadAction<P>,
    late: &mut DetachedSend,
    settled: &mut DetachedAdmission,
    result: Result<SendCompletionOutcome, Error>,
    told: PayloadAction<P>,
)
    requires
        call_ensures(
            DetachedSend::next_action::<P>,
            (send, admission, PayloadEvent::SendTimedOut),
            timed_out,
        ),
        *old(late) == *final(send),
        *old(settled) == *final(admission),
        call_ensures(
            DetachedSend::next_action::<P>,
            (late, settled, PayloadEvent::CleanedUp(result)),
            told,
        ),
    ensures
        ({
            let claimed = old(admission).phase == AdmissionPhase::Irrevocable || old(admission).phase == AdmissionPhase::Accepted;
            &&& timed_out == PayloadAction::<P>::AwaitCleanup { cancel_stopped: !claimed }
            &&& claimed ==> *final(admission) == *old(admission)
            &&& !claimed ==> final(admission).phase == AdmissionPhase::Cancelled && final(admission).stop
            &&& told == PayloadAction::<P>::Finish(
                match result {
                    Err(error) => Err(error),
                    Ok(SendCompletionOutcome::Succeeded) => if claimed {
                        result
                    } else {
                        Err(Error::CancelledDetachedAdmissionPublishedSuccess)
                    },
                    Ok(SendCompletionOutcome::Cancelled) => if claimed {
                        Err(Error::DetachedSendAbandonedAfterClaim { peer: old(send).peer })
                    } else {
                        Err(
                            Error::OutboundFirstFrameAdmissionTimeout {
                                peer: old(send).peer,
                                timeout_ms: old(send).timeout_ms,
                            },
                        )
                    },
                },
                None,
            )
        }),
{
}

/// A detached send that ran out of time before it had a transfer is told so, and a generation that
/// was gone is told as cancelled; either way no frame of it can be claimed any more.
pub proof fn law_unprepared_detached_send_is_over<P>(
    late: &mut DetachedSend,
    late_admission: &mut DetachedAdmission,
    timed_out: PayloadAction<P>,
    gone: &mut DetachedSend,
    gone_admission: &mut DetachedAdmission,
    superseded: PayloadAction<P>,
)
    requires
        old(late_admission).phase == AdmissionPhase::Pending,
        call_ensures(
            DetachedSend::next_action::<P>,
            (late, late_admission, PayloadEvent::PreparationTimedOut),
            timed_out,
        ),
        old(gone_admission).phase == AdmissionPhase::Pending,
        call_ensures(
            DetachedSend::next_action::<P>,
            (gone, gone_admission, PayloadEvent::Prepared(Ok(None))),
            superseded,
        ),
    ensures
        timed_out == PayloadAction::<P>::Finish(
            Err(
                Error::OutboundFirstFrameAdmissionTimeout {
                    peer: old(late).peer,
                    timeout_ms: old(late).timeout_ms,
                },
            ),
            None,
        ),
        final(late_admission).phase == AdmissionPhase::Cancelled,
        superseded == PayloadAction::<P>::Finish(Ok(SendCompletionOutcome::Cancelled), None),
        final(gone_admission).phase == AdmissionPhase::Cancelled,
{
}

/// A guard that still stands tells the transfer to stop and names its worker; one that was let go
/// does nothing.
pub proof fn law_guard_stops_while_it_stands(
    bound: &mut StopOnDrop,
    number: u64,
    guard: &mut StopOnDrop,
    worker: Option<u64>,
    released: &mut StopOnDrop,
)
    requires
        call_ensures(StopOnDrop::bind_handle, (bound, number), ()),
        call_ensures(StopOnDrop::request_stop, (guard,), worker),
        call_ensures(StopOnDrop::disarm, (released,), ()),
    ensures
        final(bound).worker == (if old(bound).armed {
            Some(number)
        } else {
            old(bound).worker
        }),
        final(bound).stop == old(bound).stop,
        final(bound).armed == old(bound).armed,
        old(guard).armed ==> final(guard).stop && worker == old(guard).worker,
        !old(guard).armed ==> worker is None && final(guard).stop == old(guard).stop,
        final(guard).armed == old(guard).armed,
        !final(released).armed,
        final(released).stop == old(released).stop,
{
}

/// The guard of a detached send cancels its admission exactly while it stands and no frame was
/// claimed.
pub proof fn law_detached_guard_cancels_while_it_stands(
    guard: DetachedAdmissionOnDrop,
    admission: &mut DetachedAdmission,
    decision: DetachedAdmissionCancel,
)
    requires
        call_ensures(DetachedAdmissionOnDrop::cancel, (&guard, admission), decision),
    ensures
        decision == DetachedAdmissionCancel::Cancelled <==> guard.armed && old(admission).phase
            != AdmissionPhase::Irrevocable && old(admission).phase != AdmissionPhase::Accepted,
        decision == DetachedAdmissionCancel::Cancelled ==> final(admission).phase
            == AdmissionPhase::Cancelled && final(admission).stop,
        decision == DetachedAdmissionCancel::MustAwait ==> *final(admission) == *old(admission),
{
}

/// `attempt` sends to `peer`: it is the peer's active generation and accepts sends.
pub open spec fn sends_as(
    transport: SwarmTransport,
    peer: Did,
    attempt: crate::registry::PendingConnectionAttempt,
) -> bool {
    &&& transport@.records.contains_key(peer)
    &&& transport@.records[peer] matches PeerConnectionLifecycle::Active { attempt: owner, .. }
        && owner == attempt
    &&& !transport@.terminal.contains(attempt)
}

/// A payload may be prepared exactly if it is not larger than the transport carries and some
/// generation with a connection sends to its peer. A missing connection counts against the peer
/// exactly if the send is detached and its kind says so.
pub proof fn law_payload_is_prepared_for_a_sending_peer(
    transport: SwarmTransport,
    peer: Did,
    payload: PayloadFacts,
    max_bytes: usize,
    prepared: Result<OutboundPreparation, PreparationRefusal>,
)
    requires
        transport.wf(),
        call_ensures(
            SwarmTransport::inspect_outbound_preparation,
            (&transport, peer, &payload, max_bytes),
            prepared,
        ),
    ensures
        prepared is Ok <==> payload.wire_bytes <= max_bytes && transport@.connections.contains_key(
            peer,
        ) && exists|attempt: crate::registry::PendingConnectionAttempt|
            sends_as(transport, peer, attempt),
        payload.wire_bytes > max_bytes ==> prepared->Err_0.error == Error::MessageTooLarge(
            payload.wire_bytes,
        ) && prepared->Err_0.recorded is None,
        prepared is Err && payload.wire_bytes <= max_bytes ==> {
            &&& prepared->Err_0.error == Error::SwarmMissDidInTable(peer)
            &&& prepared->Err_0.recorded is Some <==> payload.completion
                == OutboundCompletion::Detached && payload.kind_records_missing_connection
            &&& prepared->Err_0.recorded is Some ==> prepared->Err_0.recorded == Some(
                FailureRecord::LocallyAddressed,
            )
        },
        prepared matches Ok(preparation) ==> preparation.wire_bytes == payload.wire_bytes
            && preparation.useful_bytes == payload.data_bytes
            && preparation.records_missing_connection_failure == (payload.completion
            == OutboundCompletion::Detached && payload.kind_records_missing_connection),
{
    if transport@.sends_to(peer) {
        assert(sends_as(transport, peer, transport@.sender_of(peer)));
    }
    assert forall|attempt: crate::registry::PendingConnectionAttempt|
        sends_as(transport, peer, attempt) implies transport@.sends_to(peer) by {}
}

/// A detached send is bound to the connection it waited for; an attached one to the peer's sending
/// generation, exactly while its connection is ready.
pub proof fn law_send_is_bound_to_a_usable_connection(
    transport: SwarmTransport,
    peer: Did,
    completion: OutboundCompletion,
    recorded: bool,
    checked: Option<AdmittedConnection>,
    bound: Result<AdmittedConnection, PreparationRefusal>,
)
    requires
        transport.wf(),
        call_ensures(
            SwarmTransport::connection_for_send,
            (&transport, peer, completion, recorded, checked),
            bound,
        ),
    ensures
        completion == OutboundCompletion::Detached ==> {
            &&& bound is Ok <==> checked is Some
            &&& bound is Ok ==> checked == Some(bound->Ok_0)
            &&& bound is Err ==> bound->Err_0.error == Error::SwarmMissDidInTable(peer) && (
            bound->Err_0.recorded is Some <==> recorded)
        },
        completion == OutboundCompletion::Attached ==> {
            &&& bound matches Ok(admitted) ==> sends_as(transport, peer, admitted.attempt)
                && transport@.connections.contains_key(peer) && admitted.connection
                == transport@.connections[peer] && admitted.connection.snapshot.data_channel_open
            &&& bound is Err ==> bound->Err_0.recorded is None
            &&& forall|attempt: crate::registry::PendingConnectionAttempt|
                sends_as(transport, peer, attempt) && transport@.connections.contains_key(peer) ==> (
                bound is Ok <==> transport@.connections[peer].snapshot.data_channel_open && (
                transport@.connections[peer].snapshot.webrtc is Connecting
                    || transport@.connections[peer].snapshot.webrtc is Connected))
            &&& !transport@.connections.contains_key(peer) ==> bound is Err && bound->Err_0.error
                == Error::SwarmMissDidInTable(peer)
        },
{
    assert forall|attempt: crate::registry::PendingConnectionAttempt|
        sends_as(transport, peer, attempt) implies transport@.sends_to(peer) && transport@.sender_of(
        peer,
    ) == attempt by {}
}

/// A send is bound to a worker and a framing exactly if its generation still sends: then the worker
/// that was found and the framing that was planned are taken, and a peer that takes no frame is
/// told as such.
pub proof fn law_prepared_send_takes_its_worker_and_framing<
    S: FnOnce(Did) -> Result<PeerHandle, Error>,
>(
    transport: SwarmTransport,
    peer: Did,
    preparation: OutboundPreparation,
    checked: AdmittedConnection,
    start: S,
    plan: Option<Framing>,
    max_message_size: usize,
    prepared: Result<Option<PreparedRoute>, PreparationRefusal>,
)
    requires
        transport.wf(),
        start.requires((peer,)),
        call_ensures(
            SwarmTransport::prepare_outbound_transfer::<S>,
            (
                &transport,
                peer,
                OutboundCompletion::Detached,
                &preparation,
                Some(checked),
                start,
                plan,
                max_message_size,
            ),
            prepared,
        ),
    ensures
        prepared == Ok::<Option<PreparedRoute>, PreparationRefusal>(None) <==> !sends_as(
            transport,
            checked.attempt.peer,
            checked.attempt,
        ),
        prepared matches Ok(Some(route)) ==> route.admitted == checked && plan == Some(
            route.framing,
        ) && start.ensures((peer,), Ok(route.handle)),
        prepared is Err && plan is Some ==> start.ensures((peer,), Err(prepared->Err_0.error)),
        plan is None ==> !(prepared matches Ok(Some(_))),
{
}

/// A lost worker ends a send as cancelled exactly if its generation no longer sends. A report is
/// told as it came.
pub proof fn law_submission_is_resolved_by_its_generation(
    transport: SwarmTransport,
    admitted: AdmittedConnection,
    submission: Submission,
    outcome: Result<SendCompletionOutcome, Error>,
)
    requires
        transport.wf(),
        call_ensures(
            SwarmTransport::resolve_submission,
            (&transport, &admitted, submission),
            outcome,
        ),
    ensures
        submission matches Submission::Reported(result) ==> outcome == result,
        !(submission is Reported) ==> {
            &&& outcome is Ok <==> !sends_as(transport, admitted.attempt.peer, admitted.attempt)
            &&& outcome is Ok ==> outcome->Ok_0 == SendCompletionOutcome::Cancelled
        },
        submission matches Submission::Refused(error) ==> (outcome is Err ==> outcome->Err_0
            == error),
        submission is Lost && outcome is Err ==> outcome->Err_0 is ChannelRecvMessageFailed,
{
}

/// A send reserves its payload twice over and never nothing; an attached one waits for capacity as
/// long as it takes, a detached one as long as its budget; a wait that runs out is told as such.
pub proof fn law_reservations_of_a_send(
    wire_bytes: usize,
    bytes: usize,
    budget_ms: u128,
    attached: Option<u128>,
    detached: Option<u128>,
    peer: Did,
    reserved: Option<Result<TransferCapacityPermit, Error>>,
    outcome: Result<TransferCapacityPermit, Error>,
)
    requires
        call_ensures(outbound_memory_reservation, (wire_bytes,), bytes),
        call_ensures(reservation_deadline_ms, (OutboundCompletion::Attached, budget_ms), attached),
        call_ensures(reservation_deadline_ms, (OutboundCompletion::Detached, budget_ms), detached),
        call_ensures(reservation_outcome, (peer, budget_ms, reserved), outcome),
    ensures
        bytes >= 1,
        0 < wire_bytes && 2 * wire_bytes <= usize::MAX ==> bytes == 2 * wire_bytes,
        2 * wire_bytes > usize::MAX ==> bytes == usize::MAX,
        wire_bytes == 0 ==> bytes == 1,
        attached is None,
        detached == Some(budget_ms),
        reserved matches Some(result) ==> outcome == result,
        reserved is None ==> outcome is Err && outcome->Err_0 == (
        Error::OutboundTransferAdmissionTimeout { peer, timeout_ms: budget_ms }),
{
}

/// A payload is framed as planned; where the peer takes no frame, the refusal counts against the
/// peer and names its bound.
pub proof fn law_framing_is_as_planned(
    plan: Option<Framing>,
    max_message_size: usize,
    framing: Result<Framing, PreparationRefusal>,
)
    requires
        call_ensures(settle_framing, (plan, max_message_size), framing),
    ensures
        framing is Ok <==> plan is Some,
        framing is Ok ==> plan == Some(framing->Ok_0),
        framing is Err ==> framing->Err_0.error == Error::PeerMaxMessageSizeTooSmall(
            max_message_size,
        ) && framing->Err_0.recorded == Some(FailureRecord::Authenticated),
{
}

/// An operation runs exactly while its generation still takes its peer's sends; a scheduler that is
/// lost meanwhile counts as a cancellation exactly if the generation does not any more.
pub proof fn law_operations_run_on_the_current_connection<T, F: FnOnce(&SwarmConnection) -> T>(
    transport: SwarmTransport,
    admitted: AdmittedConnection,
    operation: F,
    done: Option<T>,
    local_error: Error,
    outcome: Result<SendCompletionOutcome, Error>,
)
    requires
        transport.wf(),
        call_ensures(
            SwarmTransport::with_current_connection::<T, F>,
            (&transport, &admitted, operation),
            done,
        ),
        call_ensures(
            SwarmTransport::resolve_scheduler_loss,
            (&transport, &admitted, local_error),
            outcome,
        ),
    ensures
        ({
            let current = sends_as(transport, admitted.attempt.peer, admitted.attempt);
            &&& done is Some <==> current
            &&& done matches Some(value) ==> operation.ensures((&admitted.connection,), value)
            &&& outcome is Err <==> current
            &&& outcome matches Err(error) ==> error == local_error
            &&& outcome matches Ok(told) ==> told is Cancelled
        }),
{
}

/// A framed transfer starts with all of its payload unsent and its caller untold; a missing
/// connection is refused by its peer's name, and counted as addressed to it only if so asked.
pub proof fn law_framed_transfer_starts_unsent<B>(
    route: OutboundTransferRoute,
    payload: FramedPayload<B>,
    useful_bytes: u64,
    completion: OutboundCompletion,
    reply_to: u64,
    stop_token: u64,
    transfer: OutboundTransfer<B>,
    peer: Did,
    recorded: bool,
    refusal: PreparationRefusal,
    send: DetachedSend,
    late: Error,
)
    requires
        call_ensures(
            frame_outbound_transfer::<B>,
            (route, payload, useful_bytes, completion, reply_to, stop_token),
            transfer,
        ),
        call_ensures(PreparationRefusal::of_missing_connection, (peer, recorded), refusal),
        call_ensures(DetachedSend::timeout_error, (&send,), late),
    ensures
        transfer.route == route,
        transfer.useful_bytes == useful_bytes,
        transfer.completion.policy == completion,
        transfer.completion.peer == route.did,
        transfer.completion.reply_to == reply_to,
        transfer.completion.open,
        !transfer.first_frame_admitted,
        transfer.stop_token == stop_token,
        refusal.error == Error::SwarmMissDidInTable(peer),
        refusal.recorded is Some <==> recorded,
        late == (Error::OutboundFirstFrameAdmissionTimeout {
            peer: send.peer,
            timeout_ms: send.timeout_ms,
        }),
{
}

} // verus!

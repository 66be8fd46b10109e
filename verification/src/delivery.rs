//! Sending one frame and awaiting its delivery.
//!
//! A frame is revocable until the backend claims it. While it is revocable, a stopped transfer, a
//! revoked generation, a transport that cannot make progress or a lost route cancel it. Once it is
//! claimed its outcome is awaited, and a send that then fails or does not end retires the
//! connection.

use vstd::prelude::*;

use crate::admission::AdmissionPhase;
use crate::admission::DetachedAdmission;
use crate::admission::DetachedAdmissionClaim;
use crate::did::Did;
use crate::error::class_of;
use crate::error::Error;
use crate::error::SendClass;
use crate::error::TransportError;
use crate::readiness::TransportReadiness;
use crate::registry::PendingConnectionAttempt;

verus! {

/// Why a frame was cancelled.
#[derive(Debug)]
pub enum ChunkSendCancelReason {
    /// The transfer was stopped.
    TransferStopped,
    /// The generation lost its slot.
    AdmissionRevoked(PendingConnectionAttempt),
    /// The generation could not be checked.
    AdmissionCheckFailed(Error),
    /// The transport cannot make progress.
    TransportNotReady(TransportReadiness),
    /// The storage route leads elsewhere by now.
    RouteNoLongerPermitted,
    /// The storage route could not be checked.
    RouteCheckFailed(Error),
}

impl ChunkSendCancelReason {
    /// What a cancellation before the first frame comes to: a stop and a lost route are normal,
    /// everything else is an error.
    pub open spec fn initial_outcome(self) -> Result<(), Error> {
        match self {
            ChunkSendCancelReason::TransferStopped => Ok(()),
            ChunkSendCancelReason::RouteNoLongerPermitted => Ok(()),
            ChunkSendCancelReason::AdmissionRevoked(attempt) => Err(attempt.superseded()),
            ChunkSendCancelReason::AdmissionCheckFailed(error) => Err(error),
            ChunkSendCancelReason::RouteCheckFailed(error) => Err(error),
            ChunkSendCancelReason::TransportNotReady(readiness) => Err(readiness.refusal()),
        }
    }

    /// The cancellation counts against the peer's quality.
    pub open spec fn peer_failure(self) -> bool {
        self is TransportNotReady && self->TransportNotReady_0.0 is Terminal
    }

    /// The reason's name.
    pub fn as_str(&self) -> (name: &'static str)
        ensures
            name@ == match *self {
                ChunkSendCancelReason::TransferStopped => "transfer_stopped"@,
                ChunkSendCancelReason::AdmissionRevoked(_) => "admission_revoked"@,
                ChunkSendCancelReason::AdmissionCheckFailed(_) => "admission_check_failed"@,
                ChunkSendCancelReason::TransportNotReady(_) => "transport_not_ready"@,
                ChunkSendCancelReason::RouteNoLongerPermitted => "route_no_longer_permitted"@,
                ChunkSendCancelReason::RouteCheckFailed(_) => "route_check_failed"@,
            },
    {
        match self {
            ChunkSendCancelReason::TransferStopped => "transfer_stopped",
            ChunkSendCancelReason::AdmissionRevoked(_) => "admission_revoked",
            ChunkSendCancelReason::AdmissionCheckFailed(_) => "admission_check_failed",
            ChunkSendCancelReason::TransportNotReady(_) => "transport_not_ready",
            ChunkSendCancelReason::RouteNoLongerPermitted => "route_no_longer_permitted",
            ChunkSendCancelReason::RouteCheckFailed(_) => "route_check_failed",
        }
    }

    /// The readiness that cancelled the frame.
    pub fn transport_readiness(&self) -> (readiness: Option<TransportReadiness>)
        ensures
            readiness == (match *self {
                ChunkSendCancelReason::TransportNotReady(readiness) => Some(readiness),
                _ => None,
            }),
    {
        match self {
            ChunkSendCancelReason::TransportNotReady(readiness) => Some(*readiness),
            _ => None,
        }
    }

    /// The failed check that cancelled the frame.
    pub fn check_error(&self) -> (error: Option<&Error>)
        ensures
            match *self {
                ChunkSendCancelReason::AdmissionCheckFailed(failed) => error == Some(&failed),
                ChunkSendCancelReason::RouteCheckFailed(failed) => error == Some(&failed),
                _ => error is None,
            },
    {
        match self {
            ChunkSendCancelReason::AdmissionCheckFailed(error)
            | ChunkSendCancelReason::RouteCheckFailed(error) => Some(error),
            _ => None,
        }
    }

    /// Whether the cancellation counts against the peer's quality.
    pub fn records_peer_failure(&self) -> (recorded: bool)
        ensures
            recorded == self.peer_failure(),
    {
        match self {
            ChunkSendCancelReason::TransportNotReady(readiness) => readiness.is_terminal(),
            _ => false,
        }
    }

    /// The revoked generation.
    pub fn attempt(&self) -> (attempt: Option<PendingConnectionAttempt>)
        ensures
            attempt == (match *self {
                ChunkSendCancelReason::AdmissionRevoked(attempt) => Some(attempt),
                _ => None,
            }),
    {
        match self {
            ChunkSendCancelReason::AdmissionRevoked(attempt) => Some(*attempt),
            _ => None,
        }
    }

    /// What the cancellation comes to before the first frame was accepted.
    pub fn resolve_initial(self) -> (outcome: Result<(), Error>)
        ensures
            outcome == self.initial_outcome(),
    {
        match self {
            ChunkSendCancelReason::TransferStopped
            | ChunkSendCancelReason::RouteNoLongerPermitted => Ok(()),
            ChunkSendCancelReason::AdmissionRevoked(attempt) => Err(
                Error::ConnectionAttemptSuperseded {
                    peer: attempt.peer,
                    generation: attempt.generation,
                },
            ),
            ChunkSendCancelReason::AdmissionCheckFailed(error)
            | ChunkSendCancelReason::RouteCheckFailed(error) => Err(error),
            ChunkSendCancelReason::TransportNotReady(readiness) => Err(
                Error::TransportNotReady {
                    state: readiness.state(),
                    data_channel_open: readiness.data_channel_open(),
                },
            ),
        }
    }
}

/// How far a frame came.
#[derive(Debug)]
pub enum ChunkSendProgress<T> {
    /// It ended with this.
    Ready(T),
    /// It was cancelled.
    Cancelled(ChunkSendCancelReason),
}

/// Where a storage sync is bound for.
#[derive(Clone, Copy, Debug, PartialEq, Eq, Hash, Structural)]
pub enum StorageSyncDestination {
    /// The node that owns the data.
    PhysicalOwner(Did),
    /// The node responsible for the key.
    PlacementKey(Did),
}

impl StorageSyncDestination {
    /// The identity the sync is addressed to.
    pub fn did(self) -> (did: Did)
        ensures
            did == (match self {
                StorageSyncDestination::PhysicalOwner(owner) => owner,
                StorageSyncDestination::PlacementKey(key) => key,
            }),
    {
        match self {
            StorageSyncDestination::PhysicalOwner(did)
            | StorageSyncDestination::PlacementKey(did) => did,
        }
    }
}

/// What a transfer must still be permitted to do before each frame.
#[derive(Clone, Copy, Debug, PartialEq, Eq, Hash, Structural)]
pub enum ChunkSendPermit {
    /// Nothing.
    Always,
    /// Route a storage sync through the next hop.
    StorageSyncRoute { destination: StorageSyncDestination, next_hop: Did },
}

impl ChunkSendPermit {
    /// The permit of a message that is bound for `destination` if it is a storage sync.
    pub fn for_message(next_hop: Did, destination: Option<StorageSyncDestination>) -> (permit: Self)
        ensures
            permit == (match destination {
                Some(destination) => ChunkSendPermit::StorageSyncRoute { destination, next_hop },
                None => ChunkSendPermit::Always,
            }),
    {
        match destination {
            Some(destination) => ChunkSendPermit::StorageSyncRoute { destination, next_hop },
            None => ChunkSendPermit::Always,
        }
    }

    /// Check the permit; `route` is the topology's answer to whether the route still holds.
    pub fn check(&self, route: Result<bool, Error>) -> (checked: Result<(), ChunkSendCancelReason>)
        ensures
            checked == self.checked(route),
    {
        match self {
            ChunkSendPermit::Always => Ok(()),
            ChunkSendPermit::StorageSyncRoute { .. } => match route {
                Ok(true) => Ok(()),
                Ok(false) => Err(ChunkSendCancelReason::RouteNoLongerPermitted),
                Err(error) => Err(ChunkSendCancelReason::RouteCheckFailed(error)),
            },
        }
    }

    /// What checking the permit comes to.
    pub open spec fn checked(self, route: Result<bool, Error>) -> Result<
        (),
        ChunkSendCancelReason,
    > {
        match self {
            ChunkSendPermit::Always => Ok(()),
            ChunkSendPermit::StorageSyncRoute { .. } => match route {
                Ok(true) => Ok(()),
                Ok(false) => Err(ChunkSendCancelReason::RouteNoLongerPermitted),
                Err(error) => Err(ChunkSendCancelReason::RouteCheckFailed(error)),
            },
        }
    }

    /// The permit lets a frame go.
    pub open spec fn granted(self, route: Result<bool, Error>) -> bool {
        self is Always || route == Ok::<bool, Error>(true)
    }

    /// Whether the permit lets a frame go.
    pub fn admits(&self, route: &Result<bool, Error>) -> (admits: bool)
        ensures
            admits == self.granted(*route),
    {
        match self {
            ChunkSendPermit::Always => true,
            ChunkSendPermit::StorageSyncRoute { .. } => matches!(route, Ok(true)),
        }
    }
}

/// What is observed of a frame's conditions at one moment.
#[derive(Debug)]
pub struct SendConditions {
    /// The transfer was told to stop.
    pub stopped: bool,
    /// The check that the generation is the current one.
    pub current: Result<(), Error>,
    /// What the connection can do.
    pub readiness: TransportReadiness,
    /// The topology's answer on the storage route.
    pub route: Result<bool, Error>,
}

/// Why a frame of `attempt` under `permit` has to be cancelled, if it has to.
pub open spec fn cancel_reason(
    attempt: PendingConnectionAttempt,
    permit: ChunkSendPermit,
    conditions: SendConditions,
) -> Option<ChunkSendCancelReason> {
    if conditions.stopped {
        Some(ChunkSendCancelReason::TransferStopped)
    } else if conditions.current is Err {
        match conditions.current->Err_0 {
            Error::ConnectionAttemptSuperseded { .. } => Some(
                ChunkSendCancelReason::AdmissionRevoked(attempt),
            ),
            error => Some(ChunkSendCancelReason::AdmissionCheckFailed(error)),
        }
    } else if !conditions.readiness.ready() {
        Some(ChunkSendCancelReason::TransportNotReady(conditions.readiness))
    } else {
        match permit.checked(conditions.route) {
            Ok(()) => None,
            Err(reason) => Some(reason),
        }
    }
}

/// Why a frame of `attempt` under `permit` has to be cancelled: the stop first, then the
/// generation, then the transport, then the route.
pub fn chunk_send_cancel_reason(
    attempt: PendingConnectionAttempt,
    permit: &ChunkSendPermit,
    conditions: SendConditions,
) -> (reason: Option<ChunkSendCancelReason>)
    ensures
        reason == cancel_reason(attempt, *permit, conditions),
{
    if conditions.stopped {
        return Some(ChunkSendCancelReason::TransferStopped);
    }
    match conditions.current {
        Err(Error::ConnectionAttemptSuperseded { .. }) => {
            return Some(ChunkSendCancelReason::AdmissionRevoked(attempt));
        },
        Err(error) => {
            return Some(ChunkSendCancelReason::AdmissionCheckFailed(error));
        },
        Ok(()) => {},
    }
    if !conditions.readiness.can_make_progress() {
        return Some(ChunkSendCancelReason::TransportNotReady(conditions.readiness));
    }
    match permit.check(conditions.route) {
        Ok(()) => None,
        Err(reason) => Some(reason),
    }
}

/// What the backend may be told about a frame before it claims it.
#[derive(Clone, Copy, Debug, PartialEq, Eq, Hash, Structural)]
pub enum ClaimDecision {
    /// The frame may not go.
    Refuse,
    /// The backend may claim the frame; `newly_detached` says whether the detached admission was
    /// claimed for it just now.
    TryClaim { newly_detached: bool },
}

/// The frame's conditions let it go: the generation is current, the route holds, nothing stops it
/// and the connection is ready.
pub open spec fn send_permitted(
    current: bool,
    permit: ChunkSendPermit,
    route: Result<bool, Error>,
    stopped: bool,
    readiness: TransportReadiness,
) -> bool {
    current && permit.granted(route) && !stopped && readiness.ready()
}

/// Whether the backend may start on a frame.
pub fn permits_send(
    current: bool,
    permit: &ChunkSendPermit,
    route: &Result<bool, Error>,
    stopped: bool,
    readiness: TransportReadiness,
) -> (permitted: bool)
    ensures
        permitted == send_permitted(current, *permit, *route, stopped, readiness),
{
    current && permit.admits(route) && !stopped && readiness.can_make_progress()
}

/// The decision on a claim, and the detached admission after it.
pub open spec fn claim_prepared(permitted: bool, admission: Option<DetachedAdmission>) -> (
    ClaimDecision,
    Option<DetachedAdmission>,
) {
    if !permitted {
        (ClaimDecision::Refuse, admission)
    } else {
        match admission {
            None => (ClaimDecision::TryClaim { newly_detached: false }, None),
            Some(before) => match before.phase {
                AdmissionPhase::Pending => (
                    ClaimDecision::TryClaim { newly_detached: true },
                    Some(DetachedAdmission { phase: AdmissionPhase::Irrevocable, ..before }),
                ),
                AdmissionPhase::Cancelled => (ClaimDecision::Refuse, admission),
                _ => (ClaimDecision::TryClaim { newly_detached: false }, admission),
            },
        }
    }
}

/// The detached admission once the backend took the frame or did not.
pub open spec fn claim_settled(
    decision: ClaimDecision,
    claimed: bool,
    admission: Option<DetachedAdmission>,
) -> Option<DetachedAdmission> {
    if !claimed && decision == (ClaimDecision::TryClaim { newly_detached: true }) && admission
        is Some && admission->0.phase == AdmissionPhase::Irrevocable {
        Some(DetachedAdmission { phase: AdmissionPhase::Cancelled, stop: true })
    } else {
        admission
    }
}

/// Decide, at the last moment, whether the backend may claim a frame, claiming the detached
/// admission for it.
pub fn prepare_claim(
    current: bool,
    permit: &ChunkSendPermit,
    route: &Result<bool, Error>,
    stopped: bool,
    readiness: TransportReadiness,
    admission: &mut Option<DetachedAdmission>,
) -> (decision: ClaimDecision)
    ensures
        (decision, *final(admission)) == claim_prepared(
            send_permitted(current, *permit, *route, stopped, readiness),
            *old(admission),
        ),
{
    if !permits_send(current, permit, route, stopped, readiness) {
        return ClaimDecision::Refuse;
    }
    match *admission {
        Some(before) => {
            let mut claimed = before;
            match claimed.try_mark_irrevocable() {
                Some(claim) => {
                    *admission = Some(claimed);
                    ClaimDecision::TryClaim {
                        newly_detached: claim == DetachedAdmissionClaim::New,
                    }
                },
                None => ClaimDecision::Refuse,
            }
        },
        None => ClaimDecision::TryClaim { newly_detached: false },
    }
}

/// Settle a claim: a detached admission that was claimed for a frame which the backend did not
/// take is rolled back.
pub fn settle_claim(decision: ClaimDecision, claimed: bool, admission: &mut Option<DetachedAdmission>)
    ensures
        *final(admission) == claim_settled(decision, claimed, *old(admission)),
{
    if claimed {
        return;
    }
    if let ClaimDecision::TryClaim { newly_detached: true } = decision {
        if let Some(before) = *admission {
            let mut rolled_back = before;
            rolled_back.rollback_irrevocable_send();
            *admission = Some(rolled_back);
        }
    }
}

/// A frame the backend did not take leaves no new claim: a pending admission ends cancelled or
/// stays pending, so its caller is told of an ambiguous send only where the backend may hold a
/// frame.
pub proof fn law_untaken_claim_is_rolled_back(permitted: bool, before: DetachedAdmission)
    ensures
        ({
            let (decision, prepared) = claim_prepared(permitted, Some(before));
            let settled = claim_settled(decision, false, prepared);
            &&& settled is Some
            &&& settled->0.phase == AdmissionPhase::Irrevocable ==> before.phase
                == AdmissionPhase::Irrevocable
            &&& settled->0.phase == AdmissionPhase::Accepted ==> before.phase
                == AdmissionPhase::Accepted
            &&& before.phase == AdmissionPhase::Pending && permitted ==> settled->0 == (
            DetachedAdmission { phase: AdmissionPhase::Cancelled, stop: true })
        }),
{
}

/// The backend takes a frame only while its generation is current, its route holds, nothing stops
/// it, its connection is ready and its admission is not cancelled; from then on the admission
/// cannot be cancelled.
pub proof fn law_taken_frames_were_permitted(permitted: bool, admission: Option<DetachedAdmission>)
    ensures
        ({
            let (decision, prepared) = claim_prepared(permitted, admission);
            decision is TryClaim ==> {
                &&& permitted
                &&& admission is Some ==> admission->0.phase != AdmissionPhase::Cancelled && (
                prepared->0.phase == AdmissionPhase::Irrevocable || prepared->0.phase
                    == AdmissionPhase::Accepted)
            }
        }),
{
}

/// Why an accepted connection is retired.
#[derive(Clone, Copy, Debug, PartialEq, Eq, Hash, Structural)]
pub enum TerminationCause {
    /// A claimed frame was not sent in time.
    SendCompletionTimeout,
    /// A claimed frame failed.
    IrrevocableSendError,
    /// An accepted frame was not delivered in time.
    DeliveryTimeout,
    /// The delivery of an accepted frame was cancelled.
    AcceptedDeliveryCancelled,
    /// An attached payload did not settle in time.
    TrackedPayloadCleanupTimeout,
    /// A detached payload did not settle in time.
    DetachedPayloadCleanupTimeout,
}

impl TerminationCause {
    /// The cause's name.
    pub fn as_str(self) -> (name: &'static str)
        ensures
            name@ == match self {
                TerminationCause::SendCompletionTimeout => "send_completion_timeout"@,
                TerminationCause::IrrevocableSendError => "irrevocable_send_error"@,
                TerminationCause::DeliveryTimeout => "delivery_timeout"@,
                TerminationCause::AcceptedDeliveryCancelled => "accepted_delivery_cancelled"@,
                TerminationCause::TrackedPayloadCleanupTimeout =>
                    "tracked_payload_cleanup_timeout"@,
                TerminationCause::DetachedPayloadCleanupTimeout =>
                    "detached_payload_cleanup_timeout"@,
            },
    {
        match self {
            TerminationCause::SendCompletionTimeout => "send_completion_timeout",
            TerminationCause::IrrevocableSendError => "irrevocable_send_error",
            TerminationCause::DeliveryTimeout => "delivery_timeout",
            TerminationCause::AcceptedDeliveryCancelled => "accepted_delivery_cancelled",
            TerminationCause::TrackedPayloadCleanupTimeout => "tracked_payload_cleanup_timeout",
            TerminationCause::DetachedPayloadCleanupTimeout => "detached_payload_cleanup_timeout",
        }
    }
}

/// What identifies a frame in its errors.
#[derive(Clone, Copy, Debug)]
pub struct FrameContext {
    /// The peer it goes to.
    pub peer: Did,
    /// Its size.
    pub bytes: usize,
    /// What it is part of.
    pub context: &'static str,
    /// How long its send may take.
    pub accept_timeout_ms: u128,
}

/// What happened to a frame that is being sent.
pub enum SendEvent<D> {
    /// The frame's conditions were looked at: whether the backend claimed it, and why it has to
    /// be cancelled.
    Inspected { irrevocable: bool, reason: Option<ChunkSendCancelReason> },
    /// The cancellation for `cause` was tried; `won` says whether it came before the claim.
    CancelTried { won: bool, cause: ChunkSendCancelReason },
    /// The send ended.
    Finished {
        result: Result<D, Error>,
        irrevocable: bool,
        reason: Option<ChunkSendCancelReason>,
    },
    /// The send did not end in time; `cancelled` says whether it could still be cancelled.
    DeadlineReached { cancelled: bool },
}

/// What to do next with a frame that is being sent.
pub enum SendAction<D> {
    /// Wait for the send, the deadline or the next look at its conditions.
    Wait,
    /// Wait for the send or the deadline only.
    AwaitIrrevocable,
    /// Try to cancel for this reason.
    TryCancel(ChunkSendCancelReason),
    /// The frame is done; retire the connection first if there is a cause.
    Finish(ChunkSendProgress<Result<D, Error>>, Option<TerminationCause>),
}

/// The error of a frame that the backend did not take in time.
pub open spec fn queue_timeout(frame: FrameContext) -> Error {
    Error::DataChannelSendQueueTimeout {
        peer: frame.peer,
        timeout_ms: frame.accept_timeout_ms,
        bytes: frame.bytes,
        context: frame.context,
    }
}

/// The error of a frame that the backend took and did not send in time.
pub open spec fn completion_timeout(frame: FrameContext) -> Error {
    Error::DataChannelSendCompletionTimeout {
        peer: frame.peer,
        timeout_ms: frame.accept_timeout_ms,
        bytes: frame.bytes,
        context: frame.context,
    }
}

/// What to do after `event`.
pub open spec fn send_step<D>(frame: FrameContext, event: SendEvent<D>) -> SendAction<D> {
    match event {
        SendEvent::Inspected { irrevocable, reason } => if irrevocable {
            SendAction::AwaitIrrevocable
        } else {
            match reason {
                Some(reason) => SendAction::TryCancel(reason),
                None => SendAction::Wait,
            }
        },
        SendEvent::CancelTried { won, cause } => if won {
            SendAction::Finish(ChunkSendProgress::Cancelled(cause), None)
        } else {
            SendAction::AwaitIrrevocable
        },
        SendEvent::Finished { result, irrevocable, reason } => if irrevocable {
            SendAction::Finish(
                ChunkSendProgress::Ready(result),
                if result is Err {
                    Some(TerminationCause::IrrevocableSendError)
                } else {
                    None
                },
            )
        } else if result is Err && reason is Some {
            SendAction::Finish(ChunkSendProgress::Cancelled(reason->0), None)
        } else {
            SendAction::Finish(ChunkSendProgress::Ready(result), None)
        },
        SendEvent::DeadlineReached { cancelled } => if cancelled {
            SendAction::Finish(ChunkSendProgress::Ready(Err(queue_timeout(frame))), None)
        } else {
            SendAction::Finish(
                ChunkSendProgress::Ready(Err(completion_timeout(frame))),
                Some(TerminationCause::SendCompletionTimeout),
            )
        },
    }
}

/// Decide what to do next with a frame that is being sent.
pub fn next_send_action<D>(frame: &FrameContext, event: SendEvent<D>) -> (action: SendAction<D>)
    ensures
        action == send_step(*frame, event),
{
    match event {
        SendEvent::Inspected { irrevocable, reason } => {
            if irrevocable {
                return SendAction::AwaitIrrevocable;
            }
            match reason {
                Some(reason) => SendAction::TryCancel(reason),
                None => SendAction::Wait,
            }
        },
        SendEvent::CancelTried { won, cause } => {
            if won {
                SendAction::Finish(ChunkSendProgress::Cancelled(cause), None)
            } else {
                SendAction::AwaitIrrevocable
            }
        },
        SendEvent::Finished { result, irrevocable, reason } => {
            if irrevocable {
                let cause = if result.is_err() {
                    Some(TerminationCause::IrrevocableSendError)
                } else {
                    None
                };
                return SendAction::Finish(ChunkSendProgress::Ready(result), cause);
            }
            if result.is_err() {
                if let Some(reason) = reason {
                    return SendAction::Finish(ChunkSendProgress::Cancelled(reason), None);
                }
            }
            SendAction::Finish(ChunkSendProgress::Ready(result), None)
        },
        SendEvent::DeadlineReached { cancelled } => {
            if cancelled {
                SendAction::Finish(
                    ChunkSendProgress::Ready(
                        Err(
                            Error::DataChannelSendQueueTimeout {
                                peer: frame.peer,
                                timeout_ms: frame.accept_timeout_ms,
                                bytes: frame.bytes,
                                context: frame.context,
                            },
                        ),
                    ),
                    None,
                )
            } else {
                SendAction::Finish(
                    ChunkSendProgress::Ready(
                        Err(
                            Error::DataChannelSendCompletionTimeout {
                                peer: frame.peer,
                                timeout_ms: frame.accept_timeout_ms,
                                bytes: frame.bytes,
                                context: frame.context,
                            },
                        ),
                    ),
                    Some(TerminationCause::SendCompletionTimeout),
                )
            }
        },
    }
}

/// A frame that ends cancelled was never claimed: a cancellation won before the claim, or the
/// send ended unclaimed. A claimed frame that fails retires its connection.
pub proof fn law_cancelled_frames_were_never_claimed<D>(frame: FrameContext, event: SendEvent<D>)
    ensures
        match send_step(frame, event) {
            SendAction::Finish(ChunkSendProgress::Cancelled(_), cause) => cause is None && (
            match event {
                SendEvent::CancelTried { won, .. } => won,
                SendEvent::Finished { irrevocable, .. } => !irrevocable,
                _ => false,
            }),
            _ => true,
        },
        match event {
            SendEvent::Finished { result, irrevocable, .. } => irrevocable && result is Err ==> (
            send_step(frame, event) matches SendAction::Finish(_, cause) && cause is Some),
            SendEvent::DeadlineReached { cancelled } => !cancelled ==> (send_step(
                frame,
                event,
            ) matches SendAction::Finish(_, cause) && cause is Some),
            _ => true,
        },
{
}

/// A send deadline that still cancelled leaves the send free to be made again; one that did not
/// leaves it ambiguous.
pub proof fn law_send_deadline_classes(frame: FrameContext)
    ensures
        class_of(queue_timeout(frame)) is Deferrable,
        class_of(completion_timeout(frame)) == SendClass::Ambiguous,
{
}

/// What happened to an accepted frame.
pub enum DeliveryEvent {
    /// The frame's conditions were looked at.
    Inspected { reason: Option<ChunkSendCancelReason> },
    /// The delivery ended.
    Finished { result: Result<(), TransportError>, reason: Option<ChunkSendCancelReason> },
    /// The delivery did not end in time.
    DeadlineReached,
}

/// What to do next with an accepted frame.
pub enum DeliveryAction {
    /// Wait for the delivery, the deadline or the next look at its conditions.
    Wait,
    /// The frame is done; retire the connection first if there is a cause.
    Finish(ChunkSendProgress<Result<(), Error>>, Option<TerminationCause>),
}

/// What to do with an accepted frame after `event`.
pub open spec fn delivery_step(
    peer: Did,
    phase: &'static str,
    timeout_ms: u128,
    event: DeliveryEvent,
) -> DeliveryAction {
    match event {
        DeliveryEvent::Inspected { reason } => match reason {
            Some(reason) => DeliveryAction::Finish(
                ChunkSendProgress::Cancelled(reason),
                Some(TerminationCause::AcceptedDeliveryCancelled),
            ),
            None => DeliveryAction::Wait,
        },
        DeliveryEvent::Finished { result, reason } => match result {
            Ok(()) => DeliveryAction::Finish(ChunkSendProgress::Ready(Ok(())), None),
            Err(error) => match reason {
                Some(reason) => DeliveryAction::Finish(
                    ChunkSendProgress::Cancelled(reason),
                    Some(TerminationCause::AcceptedDeliveryCancelled),
                ),
                None => DeliveryAction::Finish(
                    ChunkSendProgress::Ready(Err(Error::Transport(error))),
                    None,
                ),
            },
        },
        DeliveryEvent::DeadlineReached => DeliveryAction::Finish(
            ChunkSendProgress::Ready(
                Err(Error::DataChannelDeliveryTimeout { peer, timeout_ms, context: phase }),
            ),
            Some(TerminationCause::DeliveryTimeout),
        ),
    }
}

/// Decide what to do next with an accepted frame.
pub fn next_delivery_action(
    peer: Did,
    phase: &'static str,
    timeout_ms: u128,
    event: DeliveryEvent,
) -> (action: DeliveryAction)
    ensures
        action == delivery_step(peer, phase, timeout_ms, event),
{
    match event {
        DeliveryEvent::Inspected { reason } => match reason {
            Some(reason) => DeliveryAction::Finish(
                ChunkSendProgress::Cancelled(reason),
                Some(TerminationCause::AcceptedDeliveryCancelled),
            ),
            None => DeliveryAction::Wait,
        },
        DeliveryEvent::Finished { result, reason } => match result {
            Ok(()) => DeliveryAction::Finish(ChunkSendProgress::Ready(Ok(())), None),
            Err(error) => match reason {
                Some(reason) => DeliveryAction::Finish(
                    ChunkSendProgress::Cancelled(reason),
                    Some(TerminationCause::AcceptedDeliveryCancelled),
                ),
                None => DeliveryAction::Finish(
                    ChunkSendProgress::Ready(Err(Error::Transport(error))),
                    None,
                ),
            },
        },
        DeliveryEvent::DeadlineReached => DeliveryAction::Finish(
            ChunkSendProgress::Ready(
                Err(Error::DataChannelDeliveryTimeout { peer, timeout_ms, context: phase }),
            ),
            Some(TerminationCause::DeliveryTimeout),
        ),
    }
}

/// What retiring a connection came to: each half is attempted whatever the other comes to.
#[derive(Debug)]
pub struct TerminalizationOutcome {
    /// Whether the generation was marked terminal.
    pub terminal: Result<bool, Error>,
    /// Whether the connection closed in time.
    pub close: Result<bool, Error>,
}

/// Mark the generation terminal, then close the connection, whatever the marking came to.
pub fn attempt_terminalization_and_close<
    M: FnOnce() -> Result<bool, Error>,
    C: FnOnce() -> Result<bool, Error>,
>(mark_terminal: M, close: C) -> (outcome: TerminalizationOutcome)
    requires
        mark_terminal.requires(()),
        close.requires(()),
    ensures
        mark_terminal.ensures((), outcome.terminal),
        close.ensures((), outcome.close),
{
    let terminal = mark_terminal();
    let close = close();
    TerminalizationOutcome { terminal, close }
}

/// A terminal transport is the one cancellation that counts against the peer.
pub proof fn law_only_terminal_transports_count_against_the_peer(reason: ChunkSendCancelReason)
    ensures
        reason.peer_failure() ==> reason is TransportNotReady,
        !(reason is TransportNotReady) ==> !reason.peer_failure(),
        reason.initial_outcome() is Ok <==> reason is TransferStopped
            || reason is RouteNoLongerPermitted,
{
}

/// An ended delivery always finishes the frame. It finishes it as delivered, and with its
/// connection kept, exactly if the backend delivered it; a deadline and a cancellation retire the
/// connection that holds the frame.
pub proof fn law_ended_delivery_finishes_the_frame(
    peer: Did,
    phase: &'static str,
    timeout_ms: u128,
    event: DeliveryEvent,
    action: DeliveryAction,
)
    requires
        call_ensures(next_delivery_action, (peer, phase, timeout_ms, event), action),
    ensures
        action is Wait <==> (event matches DeliveryEvent::Inspected { reason } && reason is None),
        (action matches DeliveryAction::Finish(ChunkSendProgress::Ready(Ok(())), _)) <==> (
        event matches DeliveryEvent::Finished { result, .. } && result is Ok),
        action matches DeliveryAction::Finish(ChunkSendProgress::Ready(Ok(())), cause)
            ==> cause is None,
        event is DeadlineReached ==> action == DeliveryAction::Finish(
            ChunkSendProgress::Ready(
                Err(Error::DataChannelDeliveryTimeout { peer, timeout_ms, context: phase }),
            ),
            Some(TerminationCause::DeliveryTimeout),
        ),
{
}

/// An accepted frame is cancelled exactly if its conditions name a reason before the delivery ended
/// well; the reason is the one they named, and the connection is retired. A delivery that failed
/// for no such reason reports the backend's error and leaves the connection alone.
pub proof fn law_accepted_frame_is_cancelled_for_its_reason(
    peer: Did,
    phase: &'static str,
    timeout_ms: u128,
    event: DeliveryEvent,
    action: DeliveryAction,
)
    requires
        call_ensures(next_delivery_action, (peer, phase, timeout_ms, event), action),
    ensures
        (action matches DeliveryAction::Finish(ChunkSendProgress::Cancelled(_), _)) <==> {
            ||| (event matches DeliveryEvent::Inspected { reason } && reason is Some)
            ||| (event matches DeliveryEvent::Finished { result, reason } && result is Err
                && reason is Some)
        },
        action matches DeliveryAction::Finish(ChunkSendProgress::Cancelled(named), cause) ==> {
            &&& cause == Some(TerminationCause::AcceptedDeliveryCancelled)
            &&& match event {
                DeliveryEvent::Inspected { reason } => reason == Some(named),
                DeliveryEvent::Finished { reason, .. } => reason == Some(named),
                DeliveryEvent::DeadlineReached => false,
            }
        },
        event matches DeliveryEvent::Finished { result: Err(error), reason: None } ==> action
            == DeliveryAction::Finish(ChunkSendProgress::Ready(Err(Error::Transport(error))), None),
{
}

/// A frame that the backend claimed is never cancelled: it is awaited, and its end is the
/// backend's, with the connection retired if it failed.
pub proof fn law_claimed_frame_ends_as_the_backend_says<D>(
    frame: FrameContext,
    result: Result<D, Error>,
    reason: Option<ChunkSendCancelReason>,
    cause: ChunkSendCancelReason,
    ended: SendAction<D>,
    inspected: SendAction<D>,
    refused: SendAction<D>,
    expired: SendAction<D>,
)
    requires
        call_ensures(
            next_send_action::<D>,
            (&frame, SendEvent::Finished { result, irrevocable: true, reason }),
            ended,
        ),
        call_ensures(
            next_send_action::<D>,
            (&frame, SendEvent::Inspected { irrevocable: true, reason }),
            inspected,
        ),
        call_ensures(
            next_send_action::<D>,
            (&frame, SendEvent::CancelTried { won: false, cause }),
            refused,
        ),
        call_ensures(
            next_send_action::<D>,
            (&frame, SendEvent::DeadlineReached { cancelled: false }),
            expired,
        ),
    ensures
        ended matches SendAction::Finish(progress, retired) && progress
            == ChunkSendProgress::Ready(result) && (retired is Some <==> result is Err) && (
        retired is Some ==> retired == Some(TerminationCause::IrrevocableSendError)),
        inspected is AwaitIrrevocable,
        refused is AwaitIrrevocable,
        expired == SendAction::<D>::Finish(
            ChunkSendProgress::Ready(
                Err(
                    Error::DataChannelSendCompletionTimeout {
                        peer: frame.peer,
                        timeout_ms: frame.accept_timeout_ms,
                        bytes: frame.bytes,
                        context: frame.context,
                    },
                ),
            ),
            Some(TerminationCause::SendCompletionTimeout),
        ),
{
}

/// A frame that nobody claimed waits while nothing speaks against it, is cancelled for the reason
/// that does, and never retires its connection. It ends as the backend says unless it failed while
/// a reason spoke against it.
pub proof fn law_unclaimed_frame_can_be_cancelled<D>(
    frame: FrameContext,
    result: Result<D, Error>,
    reason: Option<ChunkSendCancelReason>,
    cause: ChunkSendCancelReason,
    ended: SendAction<D>,
    inspected: SendAction<D>,
    cancelled: SendAction<D>,
    expired: SendAction<D>,
)
    requires
        call_ensures(
            next_send_action::<D>,
            (&frame, SendEvent::Finished { result, irrevocable: false, reason }),
            ended,
        ),
        call_ensures(
            next_send_action::<D>,
            (&frame, SendEvent::Inspected { irrevocable: false, reason }),
            inspected,
        ),
        call_ensures(
            next_send_action::<D>,
            (&frame, SendEvent::CancelTried { won: true, cause }),
            cancelled,
        ),
        call_ensures(
            next_send_action::<D>,
            (&frame, SendEvent::DeadlineReached { cancelled: true }),
            expired,
        ),
    ensures
        reason is None ==> inspected is Wait,
        reason is Some ==> inspected == SendAction::<D>::TryCancel(reason->0),
        cancelled == SendAction::<D>::Finish(ChunkSendProgress::Cancelled(cause), None),
        result is Ok || reason is None ==> ended == SendAction::<D>::Finish(
            ChunkSendProgress::Ready(result),
            None,
        ),
        result is Err && reason is Some ==> ended == SendAction::<D>::Finish(
            ChunkSendProgress::Cancelled(reason->0),
            None,
        ),
        expired == SendAction::<D>::Finish(
            ChunkSendProgress::Ready(
                Err(
                    Error::DataChannelSendQueueTimeout {
                        peer: frame.peer,
                        timeout_ms: frame.accept_timeout_ms,
                        bytes: frame.bytes,
                        context: frame.context,
                    },
                ),
            ),
            None,
        ),
{
}

/// A frame goes on exactly while its transfer was not told to stop, its generation is current, its
/// connection is ready and its storage route, if it needs one, still holds. Otherwise it is
/// cancelled for the first of these that fails.
pub proof fn law_frame_goes_on_while_its_conditions_hold(
    attempt: PendingConnectionAttempt,
    permit: ChunkSendPermit,
    conditions: SendConditions,
    reason: Option<ChunkSendCancelReason>,
)
    requires
        call_ensures(chunk_send_cancel_reason, (attempt, &permit, conditions), reason),
    ensures
        reason is None <==> !conditions.stopped && conditions.current is Ok
            && conditions.readiness.0 is Ready && (permit is StorageSyncRoute
            ==> conditions.route == Ok::<bool, Error>(true)),
        conditions.stopped ==> reason == Some(ChunkSendCancelReason::TransferStopped),
        !conditions.stopped && conditions.current is Err ==> {
            &&& conditions.current->Err_0 is ConnectionAttemptSuperseded ==> reason == Some(
                ChunkSendCancelReason::AdmissionRevoked(attempt),
            )
            &&& !(conditions.current->Err_0 is ConnectionAttemptSuperseded) ==> reason == Some(
                ChunkSendCancelReason::AdmissionCheckFailed(conditions.current->Err_0),
            )
        },
        !conditions.stopped && conditions.current is Ok && !(conditions.readiness.0 is Ready)
            ==> reason == Some(ChunkSendCancelReason::TransportNotReady(conditions.readiness)),
        reason == Some(ChunkSendCancelReason::RouteNoLongerPermitted) ==> permit
            is StorageSyncRoute && conditions.route == Ok::<bool, Error>(false),
        reason matches Some(ChunkSendCancelReason::RouteCheckFailed(error)) ==> permit
            is StorageSyncRoute && conditions.route == Err::<bool, Error>(error),
{
}

/// The backend may start on a frame exactly if nothing would cancel it at that moment.
pub proof fn law_permitted_frame_has_no_reason_against_it(
    attempt: PendingConnectionAttempt,
    permit: ChunkSendPermit,
    conditions: SendConditions,
    reason: Option<ChunkSendCancelReason>,
    permitted: bool,
)
    requires
        call_ensures(chunk_send_cancel_reason, (attempt, &permit, conditions), reason),
        call_ensures(
            permits_send,
            (
                conditions.current is Ok,
                &permit,
                &conditions.route,
                conditions.stopped,
                conditions.readiness,
            ),
            permitted,
        ),
    ensures
        permitted <==> reason is None,
{
}

/// A message needs a storage route exactly if it is bound for a storage destination, and then the
/// one through its next hop.
pub proof fn law_storage_syncs_need_their_route(
    next_hop: Did,
    destination: Option<StorageSyncDestination>,
    permit: ChunkSendPermit,
    route: Result<bool, Error>,
    admits: bool,
    checked: Result<(), ChunkSendCancelReason>,
)
    requires
        call_ensures(ChunkSendPermit::for_message, (next_hop, destination), permit),
        call_ensures(ChunkSendPermit::admits, (&permit, &route), admits),
        call_ensures(ChunkSendPermit::check, (&permit, route), checked),
    ensures
        admits <==> destination is None || route == Ok::<bool, Error>(true),
        checked is Ok <==> admits,
        destination matches Some(destination) ==> permit == (ChunkSendPermit::StorageSyncRoute {
            destination,
            next_hop,
        }),
        checked matches Err(reason) ==> (match route {
            Ok(_) => reason is RouteNoLongerPermitted,
            Err(error) => reason == ChunkSendCancelReason::RouteCheckFailed(error),
        }),
{
}

/// The backend may claim a frame exactly if it is permitted and its detached admission, if it has
/// one, is not cancelled; from then on that admission is claimed. A claim that the backend does not
/// take is taken back if it was the first.
pub proof fn law_claims_follow_permission_and_admission(
    permit: ChunkSendPermit,
    route: Result<bool, Error>,
    current: bool,
    stopped: bool,
    readiness: TransportReadiness,
    admission: &mut Option<DetachedAdmission>,
    decision: ClaimDecision,
)
    requires
        call_ensures(
            prepare_claim,
            (current, &permit, &route, stopped, readiness, admission),
            decision,
        ),
    ensures
        decision is TryClaim <==> current && !stopped && readiness.0 is Ready && (permit is Always
            || route == Ok::<bool, Error>(true)) && (*old(admission) is Some ==> (*old(admission))->0.phase != AdmissionPhase::Cancelled),
        decision is Refuse ==> *final(admission) == *old(admission),
        decision matches ClaimDecision::TryClaim { newly_detached } ==> (newly_detached <==> *old(admission) is Some && (*old(admission))->0.phase == AdmissionPhase::Pending),
        decision is TryClaim && *old(admission) is Some ==> *final(admission) is Some && (*final(admission))->0.stop == (*old(admission))->0.stop && ((*final(admission))->0.phase
            == AdmissionPhase::Irrevocable || (*final(admission))->0.phase
            == AdmissionPhase::Accepted),
        *final(admission) is Some <==> *old(admission) is Some,
{
}

/// Settling a claim changes the admission only where the backend did not take a frame that was the
/// first to claim it: then the admission is cancelled and its transfer told to stop.
pub proof fn law_settling_takes_back_only_an_untaken_first_claim(
    decision: ClaimDecision,
    claimed: bool,
    admission: &mut Option<DetachedAdmission>,
)
    requires
        call_ensures(settle_claim, (decision, claimed, admission), ()),
    ensures
        claimed || decision != (ClaimDecision::TryClaim { newly_detached: true }) ==> *final(admission) == *old(admission),
        !claimed && decision == (ClaimDecision::TryClaim { newly_detached: true }) && *old(admission) is Some && (*old(admission))->0.phase == AdmissionPhase::Irrevocable ==> *final(admission) == Some(DetachedAdmission { phase: AdmissionPhase::Cancelled, stop: true }),
        *old(admission) is Some && (*old(admission))->0.phase != AdmissionPhase::Irrevocable
            ==> *final(admission) == *old(admission),
{
}

/// A cancellation before the first frame is normal exactly for a stop and a lost route. Every other
/// is told as its error, and only a terminal transport counts against the peer.
pub proof fn law_cancel_reasons_are_told_as_their_errors(
    reason: ChunkSendCancelReason,
    outcome: Result<(), Error>,
    counts: bool,
)
    requires
        call_ensures(ChunkSendCancelReason::resolve_initial, (reason,), outcome),
        call_ensures(ChunkSendCancelReason::records_peer_failure, (&reason,), counts),
    ensures
        outcome is Ok <==> reason is TransferStopped || reason is RouteNoLongerPermitted,
        reason matches ChunkSendCancelReason::AdmissionRevoked(attempt) ==> outcome->Err_0 == (
        Error::ConnectionAttemptSuperseded { peer: attempt.peer, generation: attempt.generation }),
        reason matches ChunkSendCancelReason::AdmissionCheckFailed(error) ==> outcome->Err_0
            == error,
        reason matches ChunkSendCancelReason::RouteCheckFailed(error) ==> outcome->Err_0 == error,
        reason is TransportNotReady ==> outcome->Err_0 is TransportNotReady,
        counts <==> (reason matches ChunkSendCancelReason::TransportNotReady(readiness)
            && readiness.0 is Terminal),
{
}

/// Retiring a connection attempts both halves, whatever the first comes to, and tells what each
/// came to; a reason names the readiness or the failed check it came from, and no other does.
pub proof fn law_retiring_attempts_both_halves<
    M: FnOnce() -> Result<bool, Error>,
    C: FnOnce() -> Result<bool, Error>,
>(
    mark_terminal: M,
    close: C,
    outcome: TerminalizationOutcome,
    reason: ChunkSendCancelReason,
    readiness: Option<TransportReadiness>,
    failed: Option<&Error>,
)
    requires
        call_ensures(attempt_terminalization_and_close::<M, C>, (mark_terminal, close), outcome),
        call_ensures(ChunkSendCancelReason::transport_readiness, (&reason,), readiness),
        call_ensures(ChunkSendCancelReason::check_error, (&reason,), failed),
    ensures
        mark_terminal.ensures((), outcome.terminal),
        close.ensures((), outcome.close),
        readiness is Some <==> reason is TransportNotReady,
        readiness matches Some(found) ==> reason == ChunkSendCancelReason::TransportNotReady(found),
        failed is Some <==> reason is AdmissionCheckFailed || reason is RouteCheckFailed,
        failed matches Some(error) ==> reason == ChunkSendCancelReason::AdmissionCheckFailed(*error)
            || reason == ChunkSendCancelReason::RouteCheckFailed(*error),
{
}

/// A destination names one identity, its owner or its key; only a revoked admission names the
/// generation that was revoked.
pub proof fn law_destination_names_one_identity(
    destination: StorageSyncDestination,
    did: Did,
    reason: ChunkSendCancelReason,
    attempt: Option<PendingConnectionAttempt>,
)
    requires
        call_ensures(StorageSyncDestination::did, (destination,), did),
        call_ensures(ChunkSendCancelReason::attempt, (&reason,), attempt),
    ensures
        destination == StorageSyncDestination::PhysicalOwner(did) || destination
            == StorageSyncDestination::PlacementKey(did),
        attempt is Some <==> reason is AdmissionRevoked,
        attempt matches Some(revoked) ==> reason == ChunkSendCancelReason::AdmissionRevoked(
            revoked,
        ),
{
}

} // verus!

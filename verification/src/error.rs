//! Errors, and what a failed send says about retrying it.

use vstd::prelude::*;

use crate::did::Did;
use crate::readiness::WebrtcConnectionState;

verus! {

/// What the transport backend reported.
#[derive(Debug)]
pub enum TransportError {
    /// The send permit was revoked before the backend claimed the frame.
    SendPermitRevoked,
    /// The backend accepted the message and did not deliver it.
    MessageNotDelivered(String),
    /// Any other backend failure.
    Backend(String),
}

/// Why an operation of the transport failed.
#[derive(Debug)]
pub enum Error {
    /// The peer already owns a lifecycle record.
    AlreadyConnected,
    /// A node does not connect to itself.
    ShouldNotConnectSelf,
    /// The handshake working set is saturated.
    PendingConnectionCapacityExceeded { capacity: usize },
    /// Every lifecycle record is occupied.
    ConnectionCapacityExceeded { capacity: usize },
    /// No generation number is left.
    PendingConnectionGenerationExhausted,
    /// The generation lost its slot.
    ConnectionAttemptSuperseded { peer: Did, generation: u64 },
    /// The connection lifecycle lock is poisoned.
    SwarmConnectionLifecycleLock,
    /// A shared table's lock is poisoned.
    LockPoisoned,
    /// The peer has no transport object.
    SwarmMissTransport(Did),
    /// The peer has no admitted connection.
    SwarmMissDidInTable(Did),
    /// The transport cannot make progress.
    TransportNotReady { state: WebrtcConnectionState, data_channel_open: bool },
    /// The data channel is not open.
    RTCDataChannelStateNotOpen,
    /// The backend failed.
    Transport(TransportError),
    /// The distributed table refused a transition.
    Dht(String),
    /// A table lookup gave an action that is not one of a lookup.
    UnexpectedPeerRingAction,
    /// The message breaks the protocol.
    InvalidMessage(String),
    /// The message is larger than the transport carries.
    MessageTooLarge(usize),
    /// The message's size does not fit a 64-bit count.
    MessageSizeOverflow,
    /// The peer's message bound holds no frame.
    PeerMaxMessageSizeTooSmall(usize),
    /// The peer's transfer slots are taken.
    OutboundTransferCapacityExceeded { peer: Did, capacity: usize },
    /// The outbound byte budget is taken.
    OutboundTransferMemoryCapacityExceeded {
        peer: Did,
        requested_bytes: usize,
        capacity_bytes: usize,
    },
    /// Outbound capacity was not granted in time.
    OutboundTransferAdmissionTimeout { peer: Did, timeout_ms: u128 },
    /// The first frame was not admitted in time.
    OutboundFirstFrameAdmissionTimeout { peer: Did, timeout_ms: u128 },
    /// The backend did not accept the frame in time.
    DataChannelSendQueueTimeout {
        peer: Did,
        timeout_ms: u128,
        bytes: usize,
        context: &'static str,
    },
    /// The backend claimed the frame and did not finish the send in time.
    DataChannelSendCompletionTimeout {
        peer: Did,
        timeout_ms: u128,
        bytes: usize,
        context: &'static str,
    },
    /// An accepted frame was not delivered in time.
    DataChannelDeliveryTimeout { peer: Did, timeout_ms: u128, context: &'static str },
    /// A detached payload did not settle within its cleanup grace.
    DetachedPayloadCleanupTimeout { peer: Did, timeout_ms: u128 },
    /// A tracked payload did not settle within its cleanup grace.
    TrackedPayloadCleanupTimeout { peer: Did, timeout_ms: u128 },
    /// A cancelled admission reported success.
    CancelledDetachedAdmissionPublishedSuccess,
    /// A detached send was abandoned after the backend claimed its frame.
    DetachedSendAbandonedAfterClaim { peer: Did },
    /// The mailbox of the peer's worker is closed.
    ChannelSendMessageFailed,
    /// The peer's worker ended without an answer.
    ChannelRecvMessageFailed(String),
    /// Too many link-control sends are in flight.
    LinkControlInFlightCapacity(Did),
    /// No runtime is there to carry a link-control send.
    LinkControlRuntimeUnavailable,
    /// Every permitted attempt of a placement was refused.
    ReroutingExhausted { last: SendDeferral },
    /// The one attempt of a placement was refused.
    SingleAttemptRefused { refusal: SendDeferral },
    /// A wait between attempts was stopped.
    ReroutingStopped,
}

/// The event a refused send waits for.
#[derive(Clone, Copy, Debug, PartialEq, Eq, Hash, Structural)]
pub enum DeferralTrigger {
    /// A usable link.
    LinkChange,
    /// Room in outbound capacity.
    CapacityRelease,
    /// A drained channel.
    ChannelDrain,
}

/// What a failed send says about its effect.
#[derive(Clone, Copy, Debug, PartialEq, Eq, Hash, Structural)]
pub enum SendClass {
    /// Refused before the backend accepted it: no effect happened.
    Deferrable(DeferralTrigger),
    /// The backend may have accepted it.
    Ambiguous,
    /// It can never succeed.
    Fatal,
}

/// The class of a failed send.
pub open spec fn class_of(error: Error) -> SendClass {
    match error {
        Error::SwarmMissDidInTable(_) => SendClass::Deferrable(DeferralTrigger::LinkChange),
        Error::ConnectionAttemptSuperseded { .. } => SendClass::Deferrable(
            DeferralTrigger::LinkChange,
        ),
        Error::TransportNotReady { .. } => SendClass::Deferrable(DeferralTrigger::LinkChange),
        Error::RTCDataChannelStateNotOpen => SendClass::Deferrable(DeferralTrigger::LinkChange),
        Error::Transport(TransportError::SendPermitRevoked) => SendClass::Deferrable(
            DeferralTrigger::LinkChange,
        ),
        Error::OutboundTransferCapacityExceeded { .. } => SendClass::Deferrable(
            DeferralTrigger::CapacityRelease,
        ),
        Error::OutboundTransferMemoryCapacityExceeded { .. } => SendClass::Deferrable(
            DeferralTrigger::CapacityRelease,
        ),
        Error::OutboundTransferAdmissionTimeout { .. } => SendClass::Deferrable(
            DeferralTrigger::CapacityRelease,
        ),
        Error::OutboundFirstFrameAdmissionTimeout { .. } => SendClass::Deferrable(
            DeferralTrigger::ChannelDrain,
        ),
        Error::DataChannelSendQueueTimeout { .. } => SendClass::Deferrable(
            DeferralTrigger::ChannelDrain,
        ),
        Error::DataChannelSendCompletionTimeout { .. } => SendClass::Ambiguous,
        Error::DataChannelDeliveryTimeout { .. } => SendClass::Ambiguous,
        Error::DetachedPayloadCleanupTimeout { .. } => SendClass::Ambiguous,
        Error::TrackedPayloadCleanupTimeout { .. } => SendClass::Ambiguous,
        Error::CancelledDetachedAdmissionPublishedSuccess => SendClass::Ambiguous,
        Error::DetachedSendAbandonedAfterClaim { .. } => SendClass::Ambiguous,
        Error::Transport(TransportError::MessageNotDelivered(_)) => SendClass::Ambiguous,
        _ => SendClass::Fatal,
    }
}

impl Error {
    /// The error is local backpressure: capacity or a queue refused the send before the backend
    /// accepted it.
    pub open spec fn backpressure(self) -> bool {
        match class_of(self) {
            SendClass::Deferrable(DeferralTrigger::CapacityRelease) => true,
            SendClass::Deferrable(DeferralTrigger::ChannelDrain) => true,
            _ => false,
        }
    }

    /// The error counts against the peer's quality: its transport is terminal, or the backend
    /// failed a frame it was permitted to send.
    pub open spec fn peer_failure(self) -> bool {
        match self {
            Error::TransportNotReady { state, .. } => state.terminal(),
            Error::Transport(TransportError::SendPermitRevoked) => false,
            Error::Transport(_) => true,
            _ => false,
        }
    }

    /// The class of this failure of a send.
    pub fn send_class(&self) -> (class: SendClass)
        ensures
            class == class_of(*self),
    {
        match self {
            Error::SwarmMissDidInTable(_)
            | Error::ConnectionAttemptSuperseded { .. }
            | Error::TransportNotReady { .. }
            | Error::RTCDataChannelStateNotOpen
            | Error::Transport(TransportError::SendPermitRevoked) => SendClass::Deferrable(
                DeferralTrigger::LinkChange,
            ),
            Error::OutboundTransferCapacityExceeded { .. }
            | Error::OutboundTransferMemoryCapacityExceeded { .. }
            | Error::OutboundTransferAdmissionTimeout { .. } => SendClass::Deferrable(
                DeferralTrigger::CapacityRelease,
            ),
            Error::OutboundFirstFrameAdmissionTimeout { .. }
            | Error::DataChannelSendQueueTimeout { .. } => SendClass::Deferrable(
                DeferralTrigger::ChannelDrain,
            ),
            Error::DataChannelSendCompletionTimeout { .. }
            | Error::DataChannelDeliveryTimeout { .. }
            | Error::DetachedPayloadCleanupTimeout { .. }
            | Error::TrackedPayloadCleanupTimeout { .. }
            | Error::CancelledDetachedAdmissionPublishedSuccess
            | Error::DetachedSendAbandonedAfterClaim { .. }
            | Error::Transport(TransportError::MessageNotDelivered(_)) => SendClass::Ambiguous,
            _ => SendClass::Fatal,
        }
    }

    /// Whether the send was refused by local backpressure.
    pub fn is_local_send_backpressure(&self) -> (backpressure: bool)
        ensures
            backpressure == self.backpressure(),
    {
        match self.send_class() {
            SendClass::Deferrable(DeferralTrigger::CapacityRelease)
            | SendClass::Deferrable(DeferralTrigger::ChannelDrain) => true,
            _ => false,
        }
    }

    /// Whether the send had no effect and may be made again from fresh topology.
    pub fn is_deferrable_data_plane_send(&self) -> (deferrable: bool)
        ensures
            deferrable == (class_of(*self) is Deferrable),
    {
        match self.send_class() {
            SendClass::Deferrable(_) => true,
            _ => false,
        }
    }

    /// Whether the failure counts against the peer's quality.
    pub fn records_peer_send_failure(&self) -> (recorded: bool)
        ensures
            recorded == self.peer_failure(),
    {
        match self {
            Error::TransportNotReady { state, .. } => state.is_terminal(),
            Error::Transport(TransportError::SendPermitRevoked) => false,
            Error::Transport(_) => true,
            _ => false,
        }
    }
}

/// Why a deferred send was refused.
#[derive(Debug)]
pub enum DeferralCause {
    /// The detached transfer to the peer was cancelled before acceptance.
    Cancelled(Did),
    /// The send failed with a deferrable error.
    Refused(Box<Error>),
}

/// A witness that a send was refused before the backend accepted it.
#[derive(Debug)]
pub struct SendDeferral {
    cause: DeferralCause,
    trigger: DeferralTrigger,
}

impl SendDeferral {
    /// The refusal.
    pub closed spec fn reason(self) -> DeferralCause {
        self.cause
    }

    /// The event that ends the wait.
    pub closed spec fn awaited(self) -> DeferralTrigger {
        self.trigger
    }

    /// A deferral is a cancellation, which waits for the link, or an error of the deferrable
    /// class, which waits for the trigger of its class.
    #[verifier::type_invariant]
    spec fn pre_acceptance(self) -> bool {
        match self.cause {
            DeferralCause::Cancelled(_) => self.trigger == DeferralTrigger::LinkChange,
            DeferralCause::Refused(error) => class_of(*error) == SendClass::Deferrable(
                self.trigger,
            ),
        }
    }

    /// The deferral of a detached transfer to `peer` that was cancelled before acceptance.
    pub fn cancelled(peer: Did) -> (deferral: SendDeferral)
        ensures
            deferral.reason() == DeferralCause::Cancelled(peer),
            deferral.awaited() == DeferralTrigger::LinkChange,
    {
        SendDeferral { cause: DeferralCause::Cancelled(peer), trigger: DeferralTrigger::LinkChange }
    }

    /// The deferral `error` is, or `error` itself when it is not deferrable.
    pub fn refused(error: Error) -> (deferral: Result<SendDeferral, Error>)
        ensures
            match class_of(error) {
                SendClass::Deferrable(trigger) => deferral matches Ok(deferral)
                    && deferral.reason() == DeferralCause::Refused(Box::new(error))
                    && deferral.awaited() == trigger,
                _ => deferral == Err::<SendDeferral, Error>(error),
            },
    {
        match error.send_class() {
            SendClass::Deferrable(trigger) => Ok(
                SendDeferral { cause: DeferralCause::Refused(Box::new(error)), trigger },
            ),
            _ => Err(error),
        }
    }

    /// The event that ends the wait of this deferral.
    pub fn trigger(&self) -> (trigger: DeferralTrigger)
        ensures
            trigger == self.awaited(),
    {
        self.trigger
    }

    /// The refusal this deferral was built from.
    pub fn cause(&self) -> (cause: &DeferralCause)
        ensures
            *cause == self.reason(),
            match *cause {
                DeferralCause::Cancelled(_) => self.awaited() == DeferralTrigger::LinkChange,
                DeferralCause::Refused(error) => class_of(*error) == SendClass::Deferrable(
                    self.awaited(),
                ),
            },
    {
        proof {
            use_type_invariant(self);
        }
        &self.cause
    }
}

/// Every trigger is awaited by some refusal of a send to `peer`.
pub proof fn lemma_every_trigger_is_awaited(peer: Did, trigger: DeferralTrigger) -> (deferral:
    SendDeferral)
    ensures
        deferral.awaited() == trigger,
{
    let cause = match trigger {
        DeferralTrigger::LinkChange => DeferralCause::Cancelled(peer),
        DeferralTrigger::CapacityRelease => DeferralCause::Refused(
            Box::new(Error::OutboundTransferAdmissionTimeout { peer, timeout_ms: 0 }),
        ),
        DeferralTrigger::ChannelDrain => DeferralCause::Refused(
            Box::new(Error::OutboundFirstFrameAdmissionTimeout { peer, timeout_ms: 0 }),
        ),
    };
    SendDeferral { cause, trigger }
}

/// Local backpressure happens before acceptance: the send may be made again and never counts
/// against the peer.
pub proof fn law_backpressure_is_deferrable_and_blameless(error: Error)
    requires
        error.backpressure(),
    ensures
        class_of(error) is Deferrable,
        !error.peer_failure(),
{
}

/// A send is free to be made again exactly if its error says that the backend never accepted it,
/// and the error says what to wait for: a link, room, or a drained channel.
pub proof fn law_refusals_before_acceptance_are_deferrable(error: Error, class: SendClass)
    requires
        call_ensures(Error::send_class, (&error,), class),
    ensures
        class == SendClass::Deferrable(DeferralTrigger::LinkChange) <==> {
            ||| error is SwarmMissDidInTable
            ||| error is ConnectionAttemptSuperseded
            ||| error is TransportNotReady
            ||| error is RTCDataChannelStateNotOpen
            ||| error == Error::Transport(TransportError::SendPermitRevoked)
        },
        class == SendClass::Deferrable(DeferralTrigger::CapacityRelease) <==> {
            ||| error is OutboundTransferCapacityExceeded
            ||| error is OutboundTransferMemoryCapacityExceeded
            ||| error is OutboundTransferAdmissionTimeout
        },
        class == SendClass::Deferrable(DeferralTrigger::ChannelDrain) <==> {
            ||| error is OutboundFirstFrameAdmissionTimeout
            ||| error is DataChannelSendQueueTimeout
        },
{
}

/// A send is ambiguous exactly if the backend may have accepted it.
pub proof fn law_errors_after_acceptance_are_ambiguous(error: Error, class: SendClass)
    requires
        call_ensures(Error::send_class, (&error,), class),
    ensures
        class is Ambiguous <==> {
            ||| error is DataChannelSendCompletionTimeout
            ||| error is DataChannelDeliveryTimeout
            ||| error is DetachedPayloadCleanupTimeout
            ||| error is TrackedPayloadCleanupTimeout
            ||| error is CancelledDetachedAdmissionPublishedSuccess
            ||| error is DetachedSendAbandonedAfterClaim
            ||| error is Transport && error->Transport_0 is MessageNotDelivered
        },
{
}

/// The two ways to ask whether a send may be made again agree, and backpressure is the part of
/// them that no change of a link resolves. Only a terminal transport and a backend that failed a
/// permitted frame count against the peer.
pub proof fn law_error_predicates_agree(
    error: Error,
    class: SendClass,
    deferrable: bool,
    backpressure: bool,
    recorded: bool,
)
    requires
        call_ensures(Error::send_class, (&error,), class),
        call_ensures(Error::is_deferrable_data_plane_send, (&error,), deferrable),
        call_ensures(Error::is_local_send_backpressure, (&error,), backpressure),
        call_ensures(Error::records_peer_send_failure, (&error,), recorded),
    ensures
        deferrable <==> class is Deferrable,
        backpressure <==> class is Deferrable && class->Deferrable_0
            != DeferralTrigger::LinkChange,
        recorded <==> {
            ||| error is Transport && !(error->Transport_0 is SendPermitRevoked)
            ||| (error matches Error::TransportNotReady { state, .. } && (state is Failed || state
                is Closed))
        },
{
}

/// A deferral is built of exactly the errors that may be deferred; it carries its error and waits
/// for what the error names. A cancelled send waits for a link.
pub proof fn law_deferral_carries_its_cause(
    error: Error,
    class: SendClass,
    refused: Result<SendDeferral, Error>,
    peer: Did,
    cancelled: SendDeferral,
)
    requires
        call_ensures(Error::send_class, (&error,), class),
        call_ensures(SendDeferral::refused, (error,), refused),
        call_ensures(SendDeferral::cancelled, (peer,), cancelled),
    ensures
        refused is Ok <==> class is Deferrable,
        refused is Err ==> refused->Err_0 == error,
        refused matches Ok(deferral) ==> class == SendClass::Deferrable(deferral.awaited())
            && deferral.reason() == DeferralCause::Refused(Box::new(error)),
        cancelled.awaited() == DeferralTrigger::LinkChange,
        cancelled.reason() == DeferralCause::Cancelled(peer),
{
}

/// A deferral tells what it waits for and why; a cancelled one waits for its link.
pub proof fn law_deferral_tells_what_it_waits_for(
    peer: Did,
    cancelled: SendDeferral,
    trigger: DeferralTrigger,
)
    requires
        call_ensures(SendDeferral::cancelled, (peer,), cancelled),
        call_ensures(SendDeferral::trigger, (&cancelled,), trigger),
    ensures
        trigger == DeferralTrigger::LinkChange,
        cancelled.reason() == DeferralCause::Cancelled(peer),
{
}

} // verus!

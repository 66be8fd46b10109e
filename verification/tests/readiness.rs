//! Readiness of connections, and what the errors of a send say.

use swarm_transport::did::Did;
use swarm_transport::error::DeferralCause;
use swarm_transport::error::DeferralTrigger;
use swarm_transport::error::Error;
use swarm_transport::error::SendClass;
use swarm_transport::error::SendDeferral;
use swarm_transport::error::TransportError;
use swarm_transport::readiness::ConnectionStateSnapshot;
use swarm_transport::readiness::ReadinessPoll;
use swarm_transport::readiness::TransportReadiness;
use swarm_transport::readiness::TransportReadinessState;
use swarm_transport::readiness::WebrtcConnectionState;

fn snapshot(state: WebrtcConnectionState, data_channel_open: bool) -> ConnectionStateSnapshot {
    ConnectionStateSnapshot::new(state, data_channel_open)
}

#[test]
fn transport_readiness_classifies_the_complete_product_state() {
    for state in [
        WebrtcConnectionState::Unspecified,
        WebrtcConnectionState::New,
        WebrtcConnectionState::Disconnected,
    ] {
        for data_channel_open in [false, true] {
            let snapshot = snapshot(state, data_channel_open);
            assert_eq!(
                TransportReadiness::from_snapshot(snapshot),
                TransportReadiness(TransportReadinessState::Recovering(snapshot))
            );
        }
    }

    for state in [
        WebrtcConnectionState::Connecting,
        WebrtcConnectionState::Connected,
    ] {
        let closed = snapshot(state, false);
        assert_eq!(
            TransportReadiness::from_snapshot(closed),
            TransportReadiness(TransportReadinessState::AwaitingDataChannel(closed))
        );
        let open = snapshot(state, true);
        assert_eq!(
            TransportReadiness::from_snapshot(open),
            TransportReadiness(TransportReadinessState::Ready(open))
        );
    }

    for state in [WebrtcConnectionState::Failed, WebrtcConnectionState::Closed] {
        for data_channel_open in [false, true] {
            let snapshot = snapshot(state, data_channel_open);
            assert_eq!(
                TransportReadiness::from_snapshot(snapshot),
                TransportReadiness(TransportReadinessState::Terminal(snapshot))
            );
        }
    }
}

#[test]
fn only_ready_transport_can_make_progress() {
    for state in [
        WebrtcConnectionState::Unspecified,
        WebrtcConnectionState::New,
        WebrtcConnectionState::Disconnected,
        WebrtcConnectionState::Failed,
        WebrtcConnectionState::Closed,
    ] {
        assert!(
            !TransportReadiness::from_snapshot(snapshot(state, true)).can_make_progress(),
            "{state:?}"
        );
    }
    for state in [
        WebrtcConnectionState::Connecting,
        WebrtcConnectionState::Connected,
    ] {
        assert!(
            TransportReadiness::from_snapshot(snapshot(state, true)).can_make_progress(),
            "{state:?}"
        );
        assert!(
            !TransportReadiness::from_snapshot(snapshot(state, false)).can_make_progress(),
            "{state:?}"
        );
    }
}

#[test]
fn only_terminal_readiness_errors_degrade_peer_quality() {
    assert!(!Error::TransportNotReady {
        state: WebrtcConnectionState::Disconnected,
        data_channel_open: true,
    }
    .records_peer_send_failure());
    assert!(Error::TransportNotReady {
        state: WebrtcConnectionState::Failed,
        data_channel_open: true,
    }
    .records_peer_send_failure());
    assert!(!Error::ConnectionAttemptSuperseded {
        peer: Did::from_u32(1),
        generation: 1,
    }
    .records_peer_send_failure());
    assert!(!Error::Transport(TransportError::SendPermitRevoked).records_peer_send_failure());
    let invariant = Error::CancelledDetachedAdmissionPublishedSuccess;
    assert!(!invariant.is_deferrable_data_plane_send());
    assert!(!invariant.records_peer_send_failure());
}

#[test]
fn pre_acceptance_backpressure_is_deferrable_and_never_degrades_peer_quality() {
    let peer = Did::from_u32(1);
    let backpressure = [
        Error::DataChannelSendQueueTimeout {
            peer,
            timeout_ms: 1,
            bytes: 1,
            context: "test",
        },
        Error::OutboundTransferCapacityExceeded { peer, capacity: 1 },
        Error::OutboundTransferMemoryCapacityExceeded {
            peer,
            requested_bytes: 1,
            capacity_bytes: 1,
        },
        Error::OutboundTransferAdmissionTimeout {
            peer,
            timeout_ms: 1,
        },
        Error::OutboundFirstFrameAdmissionTimeout {
            peer,
            timeout_ms: 1,
        },
    ];

    for error in backpressure {
        assert!(error.is_local_send_backpressure(), "{error:?}");
        assert!(error.is_deferrable_data_plane_send(), "{error:?}");
        assert!(!error.records_peer_send_failure(), "{error:?}");
    }
}

#[test]
fn post_acceptance_timeouts_are_ambiguous_and_not_retryable() {
    let peer = Did::from_u32(1);
    let ambiguous = [
        Error::DataChannelSendCompletionTimeout {
            peer,
            timeout_ms: 1,
            bytes: 1,
            context: "test",
        },
        Error::DataChannelDeliveryTimeout {
            peer,
            timeout_ms: 1,
            context: "test",
        },
        Error::DetachedPayloadCleanupTimeout {
            peer,
            timeout_ms: 1,
        },
        Error::TrackedPayloadCleanupTimeout {
            peer,
            timeout_ms: 1,
        },
    ];

    for error in ambiguous {
        assert!(!error.is_local_send_backpressure(), "{error:?}");
        assert!(!error.is_deferrable_data_plane_send(), "{error:?}");
        assert!(!error.records_peer_send_failure(), "{error:?}");
        assert_eq!(error.send_class(), SendClass::Ambiguous);
    }
}

#[test]
fn data_plane_deferral_errors_require_fresh_topology() {
    let peer = Did::from_u32(1);
    let deferrals = [
        Error::DataChannelSendQueueTimeout {
            peer,
            timeout_ms: 1,
            bytes: 1,
            context: "test",
        },
        Error::ConnectionAttemptSuperseded {
            peer,
            generation: 1,
        },
        Error::RTCDataChannelStateNotOpen,
        Error::TransportNotReady {
            state: WebrtcConnectionState::Disconnected,
            data_channel_open: true,
        },
        Error::SwarmMissDidInTable(peer),
        Error::Transport(TransportError::SendPermitRevoked),
    ];

    for error in deferrals {
        assert!(error.is_deferrable_data_plane_send(), "{error:?}");
    }
    assert!(!Error::InvalidMessage("invalid".to_string()).is_deferrable_data_plane_send());
}

#[test]
fn a_deferral_keeps_its_error_and_waits_for_the_event_of_its_class() {
    let peer = Did::from_u32(1);
    let deferral = SendDeferral::refused(Error::OutboundTransferAdmissionTimeout {
        peer,
        timeout_ms: 3,
    })
    .expect("a capacity timeout defers");
    assert_eq!(deferral.trigger(), DeferralTrigger::CapacityRelease);
    assert!(matches!(deferral.cause(), DeferralCause::Refused(error)
        if matches!(**error, Error::OutboundTransferAdmissionTimeout { timeout_ms: 3, .. })));
    let cancelled = SendDeferral::cancelled(peer);
    assert_eq!(cancelled.trigger(), DeferralTrigger::LinkChange);
    assert!(matches!(cancelled.cause(), DeferralCause::Cancelled(did) if *did == peer));
    assert!(matches!(
        SendDeferral::refused(Error::LinkControlRuntimeUnavailable),
        Err(Error::LinkControlRuntimeUnavailable)
    ));
    assert_eq!(
        Error::DataChannelSendQueueTimeout {
            peer,
            timeout_ms: 1,
            bytes: 1,
            context: "test",
        }
        .send_class(),
        SendClass::Deferrable(DeferralTrigger::ChannelDrain)
    );
    assert_eq!(Error::AlreadyConnected.send_class(), SendClass::Fatal);
}

#[test]
fn waiting_for_a_connection_ends_when_it_is_ready_or_never_will_be() {
    let ready = TransportReadiness::from_snapshot(snapshot(WebrtcConnectionState::Connected, true));
    assert!(matches!(ready.poll(), ReadinessPoll::Ready));
    let early = TransportReadiness::from_snapshot(snapshot(WebrtcConnectionState::New, true));
    assert!(matches!(early.poll(), ReadinessPoll::Again));
    assert_eq!(early.as_str(), "recovering");
    let failed = TransportReadiness::from_snapshot(snapshot(WebrtcConnectionState::Failed, true));
    assert!(matches!(
        failed.poll(),
        ReadinessPoll::Failed(Error::TransportNotReady {
            state: WebrtcConnectionState::Failed,
            data_channel_open: true,
        })
    ));
    assert!(failed.is_terminal());
    assert_eq!(failed.state(), WebrtcConnectionState::Failed);
}

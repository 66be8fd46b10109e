//! Frames on their way: permits, claims, deadlines, ordered callbacks, ledgers.

use std::cell::Cell;

use swarm_transport::admission::AdmissionPhase;
use swarm_transport::admission::DetachedAdmission;
use swarm_transport::delivery::attempt_terminalization_and_close;
use swarm_transport::delivery::chunk_send_cancel_reason;
use swarm_transport::delivery::next_delivery_action;
use swarm_transport::delivery::next_send_action;
use swarm_transport::delivery::permits_send;
use swarm_transport::delivery::prepare_claim;
use swarm_transport::delivery::settle_claim;
use swarm_transport::delivery::ChunkSendCancelReason;
use swarm_transport::delivery::ChunkSendPermit;
use swarm_transport::delivery::ChunkSendProgress;
use swarm_transport::delivery::ClaimDecision;
use swarm_transport::delivery::DeliveryAction;
use swarm_transport::delivery::DeliveryEvent;
use swarm_transport::delivery::FrameContext;
use swarm_transport::delivery::SendAction;
use swarm_transport::delivery::SendConditions;
use swarm_transport::delivery::SendEvent;
use swarm_transport::delivery::StorageSyncDestination;
use swarm_transport::delivery::TerminalizationOutcome;
use swarm_transport::delivery::TerminationCause;
use swarm_transport::did::Did;
use swarm_transport::error::Error;
use swarm_transport::error::TransportError;
use swarm_transport::event_delivery::DeliverySequence;
use swarm_transport::event_delivery::PeerHolders;
use swarm_transport::frame_ledger::FrameLedger;
use swarm_transport::readiness::ConnectionStateSnapshot;
use swarm_transport::readiness::TransportReadiness;
use swarm_transport::readiness::WebrtcConnectionState;
use swarm_transport::registry::PendingConnectionAttempt;

fn reading(state: WebrtcConnectionState) -> TransportReadiness {
    TransportReadiness::from_snapshot(ConnectionStateSnapshot::new(state, true))
}

fn attempt() -> PendingConnectionAttempt {
    PendingConnectionAttempt {
        peer: Did::from_u32(1),
        generation: 7,
    }
}

fn frame() -> FrameContext {
    FrameContext {
        peer: Did::from_u32(1),
        bytes: 12,
        context: "whole",
        accept_timeout_ms: 900,
    }
}

#[test]
fn initial_cancel_reports_generation_revocation_explicitly() {
    let attempt = attempt();

    assert!(matches!(
        ChunkSendCancelReason::AdmissionRevoked(attempt).resolve_initial(),
        Err(Error::ConnectionAttemptSuperseded { peer, generation })
            if peer == attempt.peer() && generation == attempt.generation()
    ));
}

#[test]
fn initial_cancel_treats_route_revocation_as_cancelled() {
    assert!(ChunkSendCancelReason::RouteNoLongerPermitted
        .resolve_initial()
        .is_ok());
}

#[test]
fn initial_cancel_keeps_route_check_error_explicit() {
    let error = Error::InvalidMessage("route check failed".to_string());

    assert!(matches!(
        ChunkSendCancelReason::RouteCheckFailed(error).resolve_initial(),
        Err(Error::InvalidMessage(_))
    ));
}

#[test]
fn terminalization_failure_still_attempts_physical_close() {
    let closed = Cell::new(false);

    let TerminalizationOutcome { terminal, close } = attempt_terminalization_and_close(
        || Err(Error::SwarmConnectionLifecycleLock),
        || {
            closed.set(true);
            Ok(true)
        },
    );

    assert!(matches!(terminal, Err(Error::SwarmConnectionLifecycleLock)));
    assert!(matches!(close, Ok(true)));
    assert!(closed.get());
}

#[test]
fn cancellation_reasons_come_in_the_order_of_their_checks() {
    let permit = ChunkSendPermit::for_message(
        Did::from_u32(2),
        Some(StorageSyncDestination::PlacementKey(Did::from_u32(3))),
    );
    let conditions = |stopped, current, readiness, route| SendConditions {
        stopped,
        current,
        readiness,
        route,
    };
    let superseded = || {
        Err(Error::ConnectionAttemptSuperseded {
            peer: Did::from_u32(1),
            generation: 7,
        })
    };
    let ready = reading(WebrtcConnectionState::Connected);
    let failed = reading(WebrtcConnectionState::Failed);
    let reason = |conditions| chunk_send_cancel_reason(attempt(), &permit, conditions);

    assert!(matches!(
        reason(conditions(true, superseded(), failed, Ok(false))),
        Some(ChunkSendCancelReason::TransferStopped)
    ));
    assert!(matches!(
        reason(conditions(false, superseded(), failed, Ok(false))),
        Some(ChunkSendCancelReason::AdmissionRevoked(lost)) if lost == attempt()
    ));
    assert!(matches!(
        reason(conditions(false, Err(Error::LockPoisoned), failed, Ok(false))),
        Some(ChunkSendCancelReason::AdmissionCheckFailed(
            Error::LockPoisoned
        ))
    ));
    let not_ready = reason(conditions(false, Ok(()), failed, Ok(false)))
        .expect("a failed transport cancels the frame");
    assert_eq!(not_ready.as_str(), "transport_not_ready");
    assert!(not_ready.records_peer_failure());
    assert_eq!(not_ready.transport_readiness(), Some(failed));
    assert!(matches!(
        reason(conditions(false, Ok(()), ready, Ok(false))),
        Some(ChunkSendCancelReason::RouteNoLongerPermitted)
    ));
    assert!(matches!(
        reason(conditions(false, Ok(()), ready, Err(Error::LockPoisoned))),
        Some(ChunkSendCancelReason::RouteCheckFailed(_))
    ));
    assert!(reason(conditions(false, Ok(()), ready, Ok(true))).is_none());
    assert!(permits_send(true, &permit, &Ok(true), false, ready));
    assert!(!permits_send(true, &permit, &Ok(false), false, ready));
    assert!(permits_send(
        true,
        &ChunkSendPermit::Always,
        &Ok(false),
        false,
        ready
    ));
}

#[test]
fn a_claim_the_backend_did_not_take_is_rolled_back() {
    let ready = reading(WebrtcConnectionState::Connected);
    let mut admission = Some(DetachedAdmission::new());
    let decision = prepare_claim(
        true,
        &ChunkSendPermit::Always,
        &Ok(true),
        false,
        ready,
        &mut admission,
    );
    assert_eq!(
        decision,
        ClaimDecision::TryClaim {
            newly_detached: true
        }
    );
    assert_eq!(
        admission.map(|admission| admission.phase),
        Some(AdmissionPhase::Irrevocable)
    );
    settle_claim(decision, false, &mut admission);
    assert_eq!(
        admission.map(|admission| admission.phase),
        Some(AdmissionPhase::Cancelled)
    );
    let refused = prepare_claim(
        true,
        &ChunkSendPermit::Always,
        &Ok(true),
        false,
        ready,
        &mut admission,
    );
    assert_eq!(refused, ClaimDecision::Refuse);

    let mut untouched = Some(DetachedAdmission::new());
    let stopped = prepare_claim(
        true,
        &ChunkSendPermit::Always,
        &Ok(true),
        true,
        ready,
        &mut untouched,
    );
    assert_eq!(stopped, ClaimDecision::Refuse);
    assert_eq!(untouched, Some(DetachedAdmission::new()));
}

#[test]
fn an_unclaimed_frame_times_out_deferrably_and_a_claimed_one_retires_its_connection() {
    assert!(matches!(
        next_send_action::<()>(&frame(), SendEvent::DeadlineReached { cancelled: true }),
        SendAction::Finish(
            ChunkSendProgress::Ready(Err(Error::DataChannelSendQueueTimeout {
                timeout_ms: 900,
                bytes: 12,
                context: "whole",
                ..
            })),
            None
        )
    ));
    assert!(matches!(
        next_send_action::<()>(&frame(), SendEvent::DeadlineReached { cancelled: false }),
        SendAction::Finish(
            ChunkSendProgress::Ready(Err(Error::DataChannelSendCompletionTimeout { .. })),
            Some(TerminationCause::SendCompletionTimeout)
        )
    ));
    assert!(matches!(
        next_send_action::<()>(
            &frame(),
            SendEvent::Inspected {
                irrevocable: true,
                reason: Some(ChunkSendCancelReason::TransferStopped)
            }
        ),
        SendAction::AwaitIrrevocable
    ));
    assert!(matches!(
        next_send_action::<()>(
            &frame(),
            SendEvent::CancelTried {
                won: true,
                cause: ChunkSendCancelReason::TransferStopped
            }
        ),
        SendAction::Finish(
            ChunkSendProgress::Cancelled(ChunkSendCancelReason::TransferStopped),
            None
        )
    ));
    assert!(matches!(
        next_send_action::<()>(
            &frame(),
            SendEvent::Finished {
                result: Err(Error::Transport(TransportError::SendPermitRevoked)),
                irrevocable: false,
                reason: Some(ChunkSendCancelReason::RouteNoLongerPermitted)
            }
        ),
        SendAction::Finish(
            ChunkSendProgress::Cancelled(ChunkSendCancelReason::RouteNoLongerPermitted),
            None
        )
    ));
    assert!(matches!(
        next_send_action(
            &frame(),
            SendEvent::Finished {
                result: Ok(5),
                irrevocable: true,
                reason: None
            }
        ),
        SendAction::Finish(ChunkSendProgress::Ready(Ok(5)), None)
    ));
}

#[test]
fn an_accepted_frame_that_is_given_up_retires_its_connection() {
    let peer = Did::from_u32(1);
    assert!(matches!(
        next_delivery_action(peer, "chunk", 70, DeliveryEvent::DeadlineReached),
        DeliveryAction::Finish(
            ChunkSendProgress::Ready(Err(Error::DataChannelDeliveryTimeout {
                timeout_ms: 70,
                context: "chunk",
                ..
            })),
            Some(TerminationCause::DeliveryTimeout)
        )
    ));
    assert!(matches!(
        next_delivery_action(
            peer,
            "chunk",
            70,
            DeliveryEvent::Inspected {
                reason: Some(ChunkSendCancelReason::TransferStopped)
            }
        ),
        DeliveryAction::Finish(
            ChunkSendProgress::Cancelled(ChunkSendCancelReason::TransferStopped),
            Some(TerminationCause::AcceptedDeliveryCancelled)
        )
    ));
    assert!(matches!(
        next_delivery_action(
            peer,
            "chunk",
            70,
            DeliveryEvent::Finished {
                result: Err(TransportError::Backend("gone".to_string())),
                reason: None
            }
        ),
        DeliveryAction::Finish(
            ChunkSendProgress::Ready(Err(Error::Transport(TransportError::Backend(_)))),
            None
        )
    ));
    assert_eq!(
        TerminationCause::DetachedPayloadCleanupTimeout.as_str(),
        "detached_payload_cleanup_timeout"
    );
}

#[test]
fn last_operation_lease_removes_the_peer_lock() {
    let mut locks = PeerHolders::new();
    let peer = Did::from_u32(1);
    let first = locks.lease(peer);
    let second = locks.lease(peer);
    assert_eq!(locks.len(), 1);

    locks.release(first, false);
    assert_eq!(locks.len(), 1);
    locks.release(second, false);
    assert_eq!(locks.len(), 0);
}

#[test]
fn cancelled_event_turn_does_not_block_the_following_turn() {
    let mut delivery = DeliverySequence::new();
    let first = delivery.acquire();
    assert!(first.ready);
    let waiting = delivery.acquire();
    assert!(!waiting.ready);
    assert_eq!(delivery.queued_turns(), 2);
    assert_eq!(delivery.finish(waiting.number), None);
    assert_eq!(delivery.finish(first.number), None);

    let following = delivery.acquire();
    assert!(following.ready, "cancelled turn must be skipped");
}

#[test]
fn callback_start_order_does_not_hold_turn_across_suspension() {
    let mut delivery = DeliverySequence::new();
    let first = delivery.acquire();
    let second = delivery.acquire();
    let third = delivery.acquire();
    assert!(delivery.is_head(first.number));
    assert_eq!(delivery.finish(first.number), Some(second.number));
    assert!(delivery.is_head(second.number));
    assert!(!delivery.is_head(third.number));
    assert_eq!(delivery.finish(second.number), Some(third.number));
}

#[test]
fn the_ledger_counts_accepted_sends_and_arrivals() {
    let mut ledger = FrameLedger::default();
    assert!(!ledger.busy());
    ledger.begin_send();
    assert!(ledger.busy());
    ledger.end_send(false);
    ledger.begin_send();
    ledger.end_send(true);
    assert_eq!(ledger.sent(), 1);
    ledger.arrive();
    assert!(ledger.busy());
    assert_eq!(ledger.arrived(), 1);
    ledger.hand_off();
    assert!(!ledger.busy());
}

#[test]
fn a_turn_is_told_once_every_earlier_turn_left() {
    let mut delivery = DeliverySequence::new();
    let first = delivery.acquire();
    let second = delivery.acquire();
    let third = delivery.acquire();
    let fourth = delivery.acquire();
    assert!(first.ready);
    assert!(!second.ready && !third.ready && !fourth.ready);
    assert_eq!(delivery.finish(third.number), None);
    assert_eq!(delivery.finish(first.number), Some(second.number));
    assert_eq!(delivery.finish(first.number), None);
    assert_eq!(delivery.finish(second.number), Some(fourth.number));
    assert_eq!(delivery.finish(fourth.number), None);
    assert_eq!(delivery.queued_turns(), 0);
    assert!(delivery.acquire().ready);
}

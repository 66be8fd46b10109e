//! The connections of a node: admission, routing, retirement, liveness, sending.

use std::cell::RefCell;

use swarm_transport::admission::AdmissionPhase;
use swarm_transport::admission::DetachedAdmission;
use swarm_transport::admission::DetachedAdmissionCancel;
use swarm_transport::class::OutboundCompletion;
use swarm_transport::class::SendCompletionOutcome;
use swarm_transport::delivery::TerminationCause;
use swarm_transport::did::Did;
use swarm_transport::error::Error;
use swarm_transport::liveness::PeerLivenessMap;
use swarm_transport::payload_send::outbound_memory_reservation;
use swarm_transport::payload_send::reservation_deadline_ms;
use swarm_transport::payload_send::reservation_outcome;
use swarm_transport::payload_send::settle_framing;
use swarm_transport::payload_send::AttachedSend;
use swarm_transport::payload_send::DetachedAdmissionOnDrop;
use swarm_transport::payload_send::DetachedSend;
use swarm_transport::payload_send::FailureRecord;
use swarm_transport::payload_send::Framing;
use swarm_transport::payload_send::PayloadAction;
use swarm_transport::payload_send::PayloadEvent;
use swarm_transport::payload_send::PayloadFacts;
use swarm_transport::payload_send::StopOnDrop;
use swarm_transport::payload_send::Submission;
use swarm_transport::pending::AnswerSlot;
use swarm_transport::pending::CancellationScope;
use swarm_transport::pending::ConnectionEventDisposition;
use swarm_transport::pending::FingerFixRequest;
use swarm_transport::pending::FingerOutcome;
use swarm_transport::pending::FingerUpdateDisposition;
use swarm_transport::pending::RawConnectionOwner;
use swarm_transport::protection::ProtectionProfile;
use swarm_transport::readiness::ConnectionStateSnapshot;
use swarm_transport::readiness::WebrtcConnectionState;
use swarm_transport::registry::LifecycleBounds;
use swarm_transport::registry::PendingConnectionAttempt;
use swarm_transport::registry::PENDING_CONNECTION_TIMEOUT_MS;
use swarm_transport::retention::UnreferencedRetirement;
use swarm_transport::schedulers::OutboundSchedulers;
use swarm_transport::transport::CheckedConnection;
use swarm_transport::transport::CreationStep;
use swarm_transport::transport::Disconnected;
use swarm_transport::transport::SendWait;
use swarm_transport::transport::SwarmTransport;

fn did(value: u32) -> Did {
    Did::from_u32(value)
}

fn open(state: WebrtcConnectionState) -> ConnectionStateSnapshot {
    ConnectionStateSnapshot::new(state, true)
}

fn node() -> SwarmTransport {
    SwarmTransport::new(did(100), LifecycleBounds::new(8, 16))
}

/// Admit `peer` with a ready connection.
fn connect(transport: &mut SwarmTransport, peer: Did) -> PendingConnectionAttempt {
    let attempt = transport
        .commit_pending_reservation(peer, 0)
        .expect("the registry has room");
    transport.observe_connection(
        peer,
        attempt.generation(),
        open(WebrtcConnectionState::Connected),
    );
    assert!(matches!(
        transport.begin_ready_connection_admission(attempt),
        Ok(true)
    ));
    let admitted = transport
        .commit_connection_admission(attempt, |peer, _| Ok(peer))
        .expect("the topology admits the peer");
    assert_eq!(admitted, Some(peer));
    attempt
}

#[test]
fn only_admitted_ready_peers_are_routable() {
    let mut transport = node();
    let ready = did(3);
    let pending = did(1);
    let broken = did(2);
    let attempt = connect(&mut transport, ready);
    connect(&mut transport, broken);
    transport.observe_connection(broken, 9, open(WebrtcConnectionState::Disconnected));
    transport
        .commit_pending_reservation(pending, 0)
        .expect("room");
    transport.observe_connection(pending, 10, open(WebrtcConnectionState::Connected));

    assert_eq!(transport.get_connection_ids(), vec![ready]);
    assert_eq!(transport.get_connections().len(), 1);
    assert!(transport.get_connection(pending).is_none());
    assert!(transport.get_connection(broken).is_none());
    assert_eq!(transport.admitted_connection_ids(), vec![broken, ready]);
    assert_eq!(transport.admitted_connections().len(), 2);
    assert!(transport.has_active_connection(broken));
    assert!(!transport.has_active_connection(pending));
    assert_eq!(transport.confirmed_peers(&vec![broken, ready]), vec![ready]);

    let admitted = transport
        .admitted_send_connection(ready)
        .expect("the generation sends");
    assert_eq!(admitted.attempt, attempt);
    assert!(transport.mark_send_terminal(&admitted));
    assert!(transport.get_connection(ready).is_none());
    assert!(transport.is_send_terminal_attempt(attempt));
    assert!(matches!(
        transport.ensure_current(&admitted),
        Err(Error::ConnectionAttemptSuperseded { .. })
    ));
}

#[test]
fn admission_waits_for_a_ready_transport_and_takes_its_finger_proof_along() {
    let mut transport = node();
    let peer = did(7);
    assert!(matches!(
        transport.validate_pending_reservation(did(100)),
        Err(Error::ShouldNotConnectSelf)
    ));
    assert!(transport.validate_pending_reservation(peer).is_ok());
    let attempt = transport
        .commit_pending_reservation(peer, 0)
        .expect("room");
    assert!(matches!(
        transport.begin_ready_connection_admission(attempt),
        Err(Error::SwarmMissTransport(missing)) if missing == peer
    ));
    transport.observe_connection(peer, 1, open(WebrtcConnectionState::New));
    assert!(matches!(
        transport.begin_ready_connection_admission(attempt),
        Ok(false)
    ));
    assert_eq!(
        transport.raw_connection_owner(peer),
        RawConnectionOwner::Pending(attempt)
    );
    let request = FingerFixRequest { token: 5 };
    assert!(matches!(
        transport.record_finger_candidate(peer, request, |_| Ok(FingerOutcome::Done)),
        Ok(FingerUpdateDisposition::Queued)
    ));
    transport.observe_connection(peer, 1, open(WebrtcConnectionState::Connected));
    assert!(matches!(
        transport.begin_ready_connection_admission(attempt),
        Ok(true)
    ));
    let failed = transport
        .commit_connection_admission(attempt, |_, _| Err::<(), _>(Error::LockPoisoned));
    assert!(matches!(failed, Err(Error::LockPoisoned)));
    assert!(!transport.owns_active_slot(attempt));
    let carried = transport
        .commit_connection_admission(attempt, |_, proof| Ok(proof))
        .expect("the topology admits the peer");
    assert_eq!(carried, Some(Some(request)));
    assert!(transport.owns_active_slot(attempt));
    assert!(matches!(
        transport.commit_connection_admission(attempt, |_, _| Ok(())),
        Ok(None)
    ));
}

#[test]
fn a_terminal_transport_fails_its_admission() {
    let mut transport = node();
    let peer = did(7);
    let attempt = transport
        .commit_pending_reservation(peer, 0)
        .expect("room");
    transport.observe_connection(peer, 1, open(WebrtcConnectionState::Failed));
    assert!(matches!(
        transport.begin_ready_connection_admission(attempt),
        Err(Error::TransportNotReady {
            state: WebrtcConnectionState::Failed,
            ..
        })
    ));
}

#[test]
fn finger_reports_follow_the_lifecycle_of_their_peer() {
    let mut transport = node();
    let request = FingerFixRequest { token: 5 };
    let done = |_| Ok(FingerOutcome::Done);
    assert!(matches!(
        transport.record_finger_candidate(did(100), request, done),
        Ok(FingerUpdateDisposition::Applied)
    ));
    let missing = transport
        .record_finger_candidate(did(7), request, done)
        .expect("the table keeps the proof");
    assert!(missing.proof_awaits_owner());
    let attempt = connect(&mut transport, did(7));
    assert!(matches!(
        transport.record_finger_candidate(did(7), request, done),
        Ok(FingerUpdateDisposition::Applied)
    ));
    transport.observe_connection(
        did(7),
        attempt.generation(),
        open(WebrtcConnectionState::Disconnected),
    );
    assert!(matches!(
        transport.record_finger_candidate(did(7), request, done),
        Ok(FingerUpdateDisposition::Unroutable)
    ));
    assert!(matches!(
        transport.record_finger_candidate(did(7), request, |_| Ok(FingerOutcome::Rejected(3))),
        Ok(FingerUpdateDisposition::Rejected(3))
    ));
}

#[test]
fn disconnecting_follows_the_phase_of_the_peer() {
    let mut transport = node();
    let peer = did(7);
    assert!(matches!(
        transport.disconnect(peer, |_, _| Ok(())),
        Ok(Disconnected::Unowned(None))
    ));
    let attempt = transport
        .commit_pending_reservation(peer, 0)
        .expect("room");
    let request = FingerFixRequest { token: 5 };
    assert!(transport
        .record_finger_candidate(peer, request, |_| Ok(FingerOutcome::Done))
        .is_ok());
    let Ok(Disconnected::Cancelled(cancelled)) = transport.disconnect(peer, |_, _| Ok(())) else {
        panic!("a pending handshake is cancelled");
    };
    assert_eq!(cancelled.attempt, attempt);
    assert_eq!(cancelled.finger, Some(request));
    assert!(!transport.has_connection_attempt(peer));

    let attempt = connect(&mut transport, peer);
    assert!(transport.mark_admission_announced(attempt));
    assert!(matches!(
        transport.disconnect(peer, |_, _| Err(Error::LockPoisoned)),
        Err(Error::LockPoisoned)
    ));
    assert!(transport.has_active_connection(peer));
    let Ok(Disconnected::Retired(retired)) = transport.disconnect(peer, |_, replacements| {
        assert!(replacements.is_empty());
        Ok(())
    }) else {
        panic!("an active connection is retired");
    };
    assert!(retired.witness.announced_admission());
    assert_eq!(retired.removal.fallback(), None);
    assert!(retired.connection.is_some());
    assert!(!transport.has_active_connection(peer));
    assert_eq!(transport.announced_attempt(peer), None);
}

#[test]
fn an_opened_connection_is_kept_for_the_current_generation_only() {
    let mut transport = node();
    let peer = did(7);
    let attempt = transport
        .commit_pending_reservation(peer, 0)
        .expect("room");
    assert!(matches!(
        transport.finish_creation(attempt, true),
        CreationStep::Keep
    ));
    assert!(transport.ensure_current_attempt(attempt).is_ok());
    assert!(transport
        .cancel_connection(attempt, CancellationScope::Pending)
        .is_some());
    let next = transport
        .commit_pending_reservation(peer, 1)
        .expect("room");
    assert!(matches!(
        transport.finish_creation(attempt, true),
        CreationStep::Close(Error::ConnectionAttemptSuperseded { peer: lost, generation })
            if lost == peer && generation == attempt.generation
    ));
    assert!(transport.ensure_current_attempt(next).is_ok());
}

#[test]
fn a_failed_opening_retires_the_handshake_while_it_is_pending() {
    let mut transport = node();
    let peer = did(7);
    let attempt = transport
        .commit_pending_reservation(peer, 0)
        .expect("room");
    let request = FingerFixRequest { token: 5 };
    assert!(matches!(
        transport.record_finger_candidate(peer, request, |_| Ok(FingerOutcome::Done)),
        Ok(FingerUpdateDisposition::Queued)
    ));
    match transport.finish_creation(attempt, false) {
        CreationStep::Retired(Some(retired)) => {
            assert_eq!(retired.attempt, attempt);
            assert_eq!(retired.finger, Some(request));
            assert_eq!(retired.connection, None);
        }
        _ => panic!("a pending handshake ends with its opening"),
    }
    assert!(transport.ensure_current_attempt(attempt).is_err());
    assert!(matches!(
        transport.finish_creation(attempt, false),
        CreationStep::Retired(None)
    ));

    let admitted = connect(&mut transport, did(8));
    assert!(matches!(
        transport.finish_creation(admitted, false),
        CreationStep::Retired(None)
    ));
    assert!(transport.owns_active_slot(admitted));
}

#[test]
fn an_admitting_generation_is_cancelled_only_as_unadmitted() {
    let mut transport = node();
    let peer = did(7);
    let attempt = transport
        .commit_pending_reservation(peer, 0)
        .expect("room");
    transport.observe_connection(peer, 1, open(WebrtcConnectionState::Connected));
    assert!(matches!(
        transport.begin_ready_connection_admission(attempt),
        Ok(true)
    ));
    assert!(matches!(
        transport.disconnect(peer, |_, _| Ok(())),
        Ok(Disconnected::Untouched)
    ));
    assert!(transport
        .cancel_connection(attempt, CancellationScope::Pending)
        .is_none());
    assert!(transport
        .cancel_connection(attempt, CancellationScope::Unadmitted)
        .is_some());
    assert!(transport.ensure_current_attempt(attempt).is_err());
}

#[test]
fn the_nearest_routable_peers_replace_an_unavailable_first_successor() {
    let mut transport = node();
    let removed = did(110);
    let attempt = connect(&mut transport, removed);
    for peer in [90, 130, 120, 140] {
        connect(&mut transport, did(peer));
    }
    transport.observe_connection(did(120), 77, open(WebrtcConnectionState::Disconnected));
    assert_eq!(
        transport.live_successor_replacements(removed, Some(removed), 2),
        vec![did(130), did(140)]
    );
    assert_eq!(
        transport.live_successor_replacements(removed, Some(removed), 8),
        vec![did(130), did(140), did(90)]
    );
    assert_eq!(
        transport.live_successor_fallback(removed, Some(did(130)), 2),
        None
    );
    let seen = RefCell::new(Vec::new());
    let retired = transport
        .disconnect_unavailable(attempt, Some(removed), 1, |peer, replacements| {
            seen.borrow_mut().push((peer, replacements.clone()));
            Ok(())
        })
        .expect("the topology lets go")
        .expect("the generation was active");
    assert_eq!(retired.removal.fallback(), Some(did(130)));
    assert_eq!(seen.into_inner(), vec![(removed, vec![did(130)])]);
    assert!(matches!(
        transport.disconnect_attempt(attempt, |_, _| Ok(())),
        Ok(None)
    ));
    assert!(matches!(
        transport.remove_unavailable_topology(did(130), None, None, 2, |_, _| Ok(())),
        Ok(None)
    ));
    assert!(matches!(
        transport.remove_retired_attempt_topology(attempt, |_| Ok(())),
        Ok(true)
    ));
}

#[test]
fn topology_transitions_need_routable_peers() {
    let mut transport = node();
    connect(&mut transport, did(5));
    assert!(matches!(
        transport.join_routable_peer(did(5), |peer| Ok(peer)),
        Ok(Some(peer)) if peer == did(5)
    ));
    assert!(matches!(
        transport.notify_admitted_predecessor(did(6), |peer| Ok(peer)),
        Ok(None)
    ));
    assert!(matches!(
        transport.stabilize_routable_topology(&vec![did(6), did(5)], |confirmed| Ok(confirmed.len())),
        Ok(Some(1))
    ));
    assert!(matches!(
        transport.stabilize_routable_topology(&vec![did(6)], |confirmed| Ok(confirmed.len())),
        Ok(None)
    ));
}

#[test]
fn old_handshakes_expire_without_touching_admitted_peers() {
    let mut transport = node();
    let active = connect(&mut transport, did(5));
    let old = transport
        .commit_pending_reservation(did(6), 0)
        .expect("room");
    transport.observe_connection(did(6), 6, open(WebrtcConnectionState::New));
    let request = FingerFixRequest { token: 5 };
    assert!(transport
        .record_finger_candidate(did(6), request, |_| Ok(FingerOutcome::Done))
        .is_ok());
    let young = transport
        .commit_pending_reservation(did(7), 1)
        .expect("room");
    let expired = transport.expire_pending_connections(PENDING_CONNECTION_TIMEOUT_MS);
    assert_eq!(expired.len(), 1);
    assert_eq!(expired[0].report.attempt, old);
    assert_eq!(expired[0].finger, Some(request));
    assert!(expired[0].connection.is_some());
    assert!(transport.is_current_connection_attempt(active));
    assert!(transport.is_current_connection_attempt(young));
    assert_eq!(transport.pending_connection_count(), 1);
    assert!(transport
        .expire_pending_connections(PENDING_CONNECTION_TIMEOUT_MS)
        .is_empty());
}

#[test]
fn callbacks_of_a_replaced_generation_are_dropped() {
    let mut transport = node();
    let peer = did(5);
    let first = connect(&mut transport, peer);
    let (old, new) = transport
        .replace_active_generation(peer, 3)
        .expect("the peer is active");
    assert_eq!(old, first);
    assert_eq!(transport.active_attempt(peer), Some(new));
    assert_eq!(
        transport.connection_event_disposition(old),
        ConnectionEventDisposition::Suppress { active: new }
    );
    assert_eq!(
        transport.connection_event_disposition(new),
        ConnectionEventDisposition::Deliver
    );
    assert_eq!(transport.answer_slot(peer), AnswerSlot::Owned(new));
    assert!(matches!(
        transport.with_active_slot(old, || Ok(1)),
        Ok(None)
    ));
    assert!(matches!(
        transport.with_active_slot(new, || Ok(1)),
        Ok(Some(1))
    ));
    assert!(matches!(
        transport.replace_active_generation(did(6), 3),
        Err(Error::SwarmMissTransport(_))
    ));
}

#[test]
fn liveness_belongs_to_the_active_generation() {
    let mut transport = node();
    let peer = did(5);
    let attempt = connect(&mut transport, peer);
    let stale = PendingConnectionAttempt {
        peer,
        generation: attempt.generation() + 1,
    };
    transport.mark_peer_liveness_connected(stale, 0);
    assert_eq!(transport.peer_connected_for_ms(peer, 10), None);
    transport.mark_peer_liveness_connected(attempt, 0);
    assert_eq!(transport.peer_connected_for_ms(peer, 10), Some(10));
    let late = i64::MAX / 2;
    assert_eq!(transport.liveness_probe_candidates(late), vec![attempt]);
    transport.record_peer_liveness_probe_sent(attempt, late);
    let expiry = transport
        .peer_liveness_expiry(attempt, i64::MAX)
        .expect("the probe stays unanswered");
    assert_eq!(expiry.unanswered_for_ms, i64::MAX - late);
    transport.record_peer_message_received(attempt, false, late);
    assert!(transport.peer_liveness_expiry(attempt, i64::MAX).is_some());
    transport.record_peer_message_received(attempt, true, late);
    assert!(transport.peer_liveness_expiry(attempt, i64::MAX).is_none());
    assert!(transport
        .disconnect_attempt(attempt, |_, _| Ok(()))
        .is_ok());
    assert_eq!(transport.peer_connected_for_ms(peer, 10), None);
}

#[test]
fn liveness_records_age_from_their_connection() {
    let mut map = PeerLivenessMap::new();
    let peer = did(3);
    assert!(!map.set_connected_at(peer, 1, 0));
    map.mark_connected(peer, 1, 50);
    assert!(map.set_connected_at(peer, 1, 20));
    assert_eq!(map.connected_for_ms(peer, 1, 60), Some(40));
    assert_eq!(map.idle_for_ms(peer, 1, 60), Some(10));
    assert_eq!(map.connected_for_ms(peer, 2, 60), None);
    assert_eq!(map.len(), 1);
    map.mark_probe_sent(peer, 1, 70);
    map.mark_probe_sent(peer, 1, 80);
    assert_eq!(map.unanswered_probe_since_ms(peer, 1), Some(70));
    map.mark_inbound(peer, 1, 90);
    assert_eq!(map.unanswered_probe_since_ms(peer, 1), None);
    map.remove(peer);
    assert_eq!(map.len(), 0);
}

#[test]
fn only_unreferenced_old_connections_make_room() {
    let mut transport = SwarmTransport::new(did(100), LifecycleBounds::new(4, 2));
    let first = connect(&mut transport, did(1));
    let second = connect(&mut transport, did(2));
    transport.mark_peer_liveness_connected(first, 0);
    transport.mark_peer_liveness_connected(second, 0);
    assert!(transport.reservation_needs_eviction(did(3)));
    assert!(!transport.reservation_needs_eviction(did(1)));
    let plan = transport.unreferenced_eviction_order(&vec![did(1)], 30, 40);
    assert_eq!(plan, vec![second]);
    assert!(transport
        .unreferenced_eviction_order(&vec![did(1)], 30, 20)
        .is_empty());
    assert!(matches!(
        transport.retire_unless_referenced(second, &vec![did(2)], |_, _| Ok(())),
        Ok((UnreferencedRetirement::Referenced, None))
    ));
    assert!(matches!(
        transport.retire_unless_referenced(second, &Vec::new(), |_, _| Ok(())),
        Ok((UnreferencedRetirement::Retired, Some(_)))
    ));
    assert!(matches!(
        transport.retire_unless_referenced(second, &Vec::new(), |_, _| Ok(())),
        Ok((UnreferencedRetirement::Superseded, None))
    ));
    assert!(!transport.reservation_needs_eviction(did(3)));
}

#[test]
fn a_disconnection_is_measured_once_per_connection() {
    let mut transport = node();
    let peer = did(5);
    let attempt = connect(&mut transport, peer);
    assert!(transport.measure_disconnect(peer));
    assert!(!transport.measure_disconnect(peer));
    assert!(transport
        .disconnect_attempt(attempt, |_, _| Ok(()))
        .is_ok());
    assert!(transport.measure_disconnect(peer));
}

#[test]
fn a_send_waits_for_a_connection_that_can_still_become_ready() {
    let mut transport = node();
    let peer = did(5);
    assert!(transport.begin_send_wait(peer).is_none());
    connect(&mut transport, peer);
    transport.observe_connection(peer, 1, open(WebrtcConnectionState::Failed));
    assert!(transport.begin_send_wait(peer).is_none());
    transport.observe_connection(peer, 1, open(WebrtcConnectionState::Disconnected));
    let admitted = transport
        .begin_send_wait(peer)
        .expect("a recovering connection is waited for");
    assert!(matches!(
        transport.finish_send_wait(admitted, SendWait::Ready, None, 4, |_, _| Ok(())),
        CheckedConnection::Usable(usable) if usable == admitted
    ));
    assert!(matches!(
        transport.finish_send_wait(admitted, SendWait::TimedOut, None, 4, |_, _| Ok(())),
        CheckedConnection::Dropped(Some(_))
    ));
    assert!(!transport.has_active_connection(peer));
    assert!(matches!(
        transport.finish_send_wait(admitted, SendWait::Ready, None, 4, |_, _| Ok(())),
        CheckedConnection::Superseded
    ));
}

fn payload(wire_bytes: usize, completion: OutboundCompletion) -> PayloadFacts {
    PayloadFacts {
        wire_bytes,
        data_bytes: 10,
        completion,
        kind_records_missing_connection: true,
    }
}

#[test]
fn payloads_are_refused_before_anything_is_reserved_for_them() {
    let mut transport = node();
    let peer = did(5);
    let detached = payload(20, OutboundCompletion::Detached);
    let refusal = transport
        .inspect_outbound_preparation(peer, &payload(65, OutboundCompletion::Detached), 64)
        .expect_err("the payload is too large");
    assert!(matches!(refusal.error, Error::MessageTooLarge(65)));
    assert_eq!(refusal.recorded, None);
    let refusal = transport
        .inspect_outbound_preparation(peer, &detached, 64)
        .expect_err("nothing is connected");
    assert!(matches!(refusal.error, Error::SwarmMissDidInTable(missing) if missing == peer));
    assert_eq!(refusal.recorded, Some(FailureRecord::LocallyAddressed));
    let refusal = transport
        .inspect_outbound_preparation(peer, &payload(20, OutboundCompletion::Attached), 64)
        .expect_err("nothing is connected");
    assert_eq!(refusal.recorded, None);
    connect(&mut transport, peer);
    let preparation = transport
        .inspect_outbound_preparation(peer, &detached, 64)
        .expect("the peer is connected");
    assert_eq!(preparation.useful_bytes, 10);
    assert!(preparation.records_missing_connection_failure);
    assert_eq!(outbound_memory_reservation(0), 1);
    assert_eq!(outbound_memory_reservation(20), 40);
    assert_eq!(
        reservation_deadline_ms(OutboundCompletion::Attached, 5),
        None
    );
    assert_eq!(
        reservation_deadline_ms(OutboundCompletion::Detached, 5),
        Some(5)
    );
    assert!(matches!(
        reservation_outcome(peer, 5, None),
        Err(Error::OutboundTransferAdmissionTimeout { timeout_ms: 5, .. })
    ));
}

#[test]
fn a_prepared_transfer_is_bound_to_a_sending_generation() {
    let mut transport = node();
    let peer = did(5);
    let mut schedulers = OutboundSchedulers::new(ProtectionProfile::production());
    let handle = schedulers
        .handle(peer, 64, |_, _| Ok(()))
        .expect("a worker starts");
    let attempt = connect(&mut transport, peer);
    let completion = OutboundCompletion::Attached;
    let preparation = transport
        .inspect_outbound_preparation(peer, &payload(20, completion), 64)
        .expect("the peer is connected");
    let prepared = transport
        .prepare_outbound_transfer(
            peer,
            completion,
            &preparation,
            None,
            |_| Ok(handle),
            Some(Framing::Chunked { chunk_size: 8 }),
            16,
        )
        .expect("everything is there")
        .expect("the generation sends");
    assert_eq!(prepared.admitted.attempt, attempt);
    assert_eq!(prepared.framing, Framing::Chunked { chunk_size: 8 });
    let refusal = transport
        .prepare_outbound_transfer(
            peer,
            completion,
            &preparation,
            None,
            |_| Ok(handle),
            None,
            16,
        )
        .expect_err("the peer takes no frame");
    assert!(matches!(
        refusal.error,
        Error::PeerMaxMessageSizeTooSmall(16)
    ));
    assert_eq!(refusal.recorded, Some(FailureRecord::Authenticated));
    assert!(settle_framing(Some(Framing::Whole), 16).is_ok());

    let admitted = prepared.admitted;
    assert!(matches!(
        transport.resolve_submission(&admitted, Submission::Lost),
        Err(Error::ChannelRecvMessageFailed(reason)) if reason == "outbound scheduler stopped"
    ));
    assert!(transport.with_current_connection(&admitted, |_| ()).is_some());
    assert!(transport
        .disconnect_attempt(attempt, |_, _| Ok(()))
        .is_ok());
    assert!(matches!(
        transport.resolve_submission(
            &admitted,
            Submission::Refused(Error::ChannelSendMessageFailed)
        ),
        Ok(SendCompletionOutcome::Cancelled)
    ));
    assert!(transport.with_current_connection(&admitted, |_| ()).is_none());
    let gone = transport.prepare_outbound_transfer(
        peer,
        OutboundCompletion::Detached,
        &preparation,
        Some(admitted),
        |_| Ok(handle),
        Some(Framing::Whole),
        16,
    );
    assert!(matches!(gone, Ok(None)));
}

#[test]
fn a_detached_send_past_its_deadline_is_cancelled_unless_its_frame_was_claimed() {
    let peer = did(5);
    let mut send = DetachedSend::new(peer, 30, 7);
    let mut admission = DetachedAdmission::new();
    assert!(matches!(
        send.next_action(&mut admission, PayloadEvent::Prepared(Ok(Some(1)))),
        PayloadAction::Submit(1)
    ));
    assert!(matches!(
        send.next_action::<u8>(&mut admission, PayloadEvent::SendTimedOut),
        PayloadAction::AwaitCleanup {
            cancel_stopped: true
        }
    ));
    assert_eq!(admission.phase, AdmissionPhase::Cancelled);
    assert!(matches!(
        send.next_action::<u8>(
            &mut admission,
            PayloadEvent::CleanedUp(Ok(SendCompletionOutcome::Cancelled))
        ),
        PayloadAction::Finish(
            Err(Error::OutboundFirstFrameAdmissionTimeout { timeout_ms: 30, .. }),
            None
        )
    ));
    assert!(matches!(
        send.next_action::<u8>(
            &mut admission,
            PayloadEvent::CleanedUp(Ok(SendCompletionOutcome::Succeeded))
        ),
        PayloadAction::Finish(Err(Error::CancelledDetachedAdmissionPublishedSuccess), None)
    ));

    let mut claimed = DetachedSend::new(peer, 30, 7);
    let mut admission = DetachedAdmission::new();
    assert!(admission.try_mark_irrevocable().is_some());
    assert!(matches!(
        claimed.next_action::<u8>(&mut admission, PayloadEvent::SendTimedOut),
        PayloadAction::AwaitCleanup {
            cancel_stopped: false
        }
    ));
    assert!(matches!(
        claimed.next_action::<u8>(
            &mut admission,
            PayloadEvent::CleanedUp(Ok(SendCompletionOutcome::Succeeded))
        ),
        PayloadAction::Finish(Ok(SendCompletionOutcome::Succeeded), None)
    ));
    assert!(matches!(
        claimed.next_action::<u8>(&mut admission, PayloadEvent::CleanupTimedOut),
        PayloadAction::Finish(
            Err(Error::DetachedPayloadCleanupTimeout { timeout_ms: 7, .. }),
            Some(TerminationCause::DetachedPayloadCleanupTimeout)
        )
    ));
}

#[test]
fn a_worker_lost_after_the_claim_is_ambiguous_to_a_detached_sender() {
    let peer = did(5);
    let mut transport = node();
    let attempt = connect(&mut transport, peer);
    let admitted = transport
        .admitted_send_connection(peer)
        .expect("the peer is connected");
    assert!(transport.disconnect_attempt(attempt, |_, _| Ok(())).is_ok());
    let lost = transport.resolve_submission(&admitted, Submission::Lost);
    assert!(matches!(lost, Ok(SendCompletionOutcome::Cancelled)));

    let mut send = DetachedSend::new(peer, 30, 7);
    let mut admission = DetachedAdmission::new();
    assert!(admission.try_mark_irrevocable().is_some());
    assert!(matches!(
        send.next_action::<u8>(&mut admission, PayloadEvent::Sent(lost)),
        PayloadAction::Finish(Err(Error::DetachedSendAbandonedAfterClaim { peer: told }), None)
            if told == peer
    ));
    assert_eq!(admission.phase, AdmissionPhase::Irrevocable);

    assert!(matches!(
        send.next_action::<u8>(&mut admission, PayloadEvent::SendTimedOut),
        PayloadAction::AwaitCleanup {
            cancel_stopped: false
        }
    ));
    assert!(matches!(
        send.next_action::<u8>(
            &mut admission,
            PayloadEvent::CleanedUp(Ok(SendCompletionOutcome::Cancelled))
        ),
        PayloadAction::Finish(Err(Error::DetachedSendAbandonedAfterClaim { .. }), None)
    ));
}

#[test]
fn a_worker_lost_before_the_claim_is_told_as_cancelled() {
    let peer = did(5);
    let mut send = DetachedSend::new(peer, 30, 7);
    let mut admission = DetachedAdmission::new();
    assert!(matches!(
        send.next_action::<u8>(
            &mut admission,
            PayloadEvent::Sent(Ok(SendCompletionOutcome::Cancelled))
        ),
        PayloadAction::Finish(Ok(SendCompletionOutcome::Cancelled), None)
    ));
    assert_eq!(admission.phase, AdmissionPhase::Cancelled);
    assert!(admission.should_stop());
    assert!(admission.try_mark_irrevocable().is_none());

    let mut unprepared = DetachedAdmission::new();
    assert!(matches!(
        send.next_action::<u8>(&mut unprepared, PayloadEvent::Prepared(Ok(None))),
        PayloadAction::Finish(Ok(SendCompletionOutcome::Cancelled), None)
    ));
    assert_eq!(unprepared.phase, AdmissionPhase::Cancelled);
}

#[test]
fn an_attached_send_past_its_deadline_never_succeeds() {
    let mut send = AttachedSend::new(did(5), 7);
    assert!(matches!(
        send.next_action::<u8>(PayloadEvent::PreparationTimedOut),
        PayloadAction::Finish(Ok(SendCompletionOutcome::Cancelled), None)
    ));
    assert!(!send.stop);
    assert!(matches!(
        send.next_action::<u8>(PayloadEvent::SendTimedOut),
        PayloadAction::AwaitCleanup {
            cancel_stopped: true
        }
    ));
    assert!(send.stop);
    assert!(matches!(
        send.next_action::<u8>(PayloadEvent::CleanedUp(Ok(
            SendCompletionOutcome::Succeeded
        ))),
        PayloadAction::Finish(Ok(SendCompletionOutcome::Cancelled), None)
    ));
    assert!(matches!(
        send.next_action::<u8>(PayloadEvent::CleanupTimedOut),
        PayloadAction::Finish(
            Err(Error::TrackedPayloadCleanupTimeout { timeout_ms: 7, .. }),
            Some(TerminationCause::TrackedPayloadCleanupTimeout)
        )
    ));
}

#[test]
fn guards_stop_what_they_guard_until_they_are_disarmed() {
    let mut guard = StopOnDrop::new();
    guard.bind_handle(4);
    assert_eq!(guard.request_stop(), Some(4));
    assert!(guard.stop);
    guard.disarm();
    assert_eq!(guard.request_stop(), None);

    let mut admission = DetachedAdmission::new();
    let mut guard = DetachedAdmissionOnDrop::new();
    guard.disarm();
    assert_eq!(
        guard.cancel(&mut admission),
        DetachedAdmissionCancel::MustAwait
    );
    assert_eq!(admission, DetachedAdmission::new());
    let guard = DetachedAdmissionOnDrop::new();
    assert_eq!(
        guard.cancel(&mut admission),
        DetachedAdmissionCancel::Cancelled
    );
    assert!(admission.should_stop());
}

#[test]
fn link_control_goes_out_on_its_own_generation_within_the_budget() {
    let mut transport = node();
    let mut schedulers = OutboundSchedulers::new(ProtectionProfile::production());
    let peer = did(5);
    let attempt = PendingConnectionAttempt {
        peer,
        generation: 1,
    };
    let refused = |schedulers: &mut OutboundSchedulers, transport: &SwarmTransport, attempt| {
        transport.send_link_control(schedulers, attempt, |_, _| None)
    };
    assert!(matches!(
        refused(&mut schedulers, &transport, attempt),
        Err(Error::SwarmMissDidInTable(_))
    ));
    let attempt = connect(&mut transport, peer);
    assert!(matches!(
        refused(&mut schedulers, &transport, attempt),
        Err(Error::SwarmMissDidInTable(_))
    ));
    schedulers
        .handle(peer, 1, |_, _| Ok(()))
        .expect("a worker starts");
    let stale = PendingConnectionAttempt {
        peer,
        generation: attempt.generation() + 1,
    };
    assert!(matches!(
        refused(&mut schedulers, &transport, stale),
        Err(Error::ConnectionAttemptSuperseded { generation, .. })
            if generation == stale.generation()
    ));
    assert!(matches!(
        transport.send_link_control(&mut schedulers, attempt, |_, permit| Some(permit)),
        Err(Error::LinkControlRuntimeUnavailable)
    ));
    let in_flight = RefCell::new(Vec::new());
    for _ in 0..2 {
        assert!(transport
            .send_link_control(&mut schedulers, attempt, |admitted, permit| {
                assert_eq!(admitted.attempt, attempt);
                in_flight.borrow_mut().push(permit);
                None
            })
            .is_ok());
    }
    assert!(matches!(
        refused(&mut schedulers, &transport, attempt),
        Err(Error::LinkControlInFlightCapacity(_))
    ));
    let ended = in_flight.borrow_mut().pop().expect("a send is in flight");
    schedulers.release_link_control(peer, ended);
    assert!(refused(&mut schedulers, &transport, attempt).is_ok());
}

#[test]
fn distances_run_clockwise_around_the_ring() {
    let observer = did(10);
    assert_eq!(did(12).clockwise_from(observer), did(2));
    let behind = did(9).clockwise_from(observer);
    assert_eq!(behind.high, u32::MAX);
    assert_eq!(behind.low, u128::MAX);
    assert!(did(12).nearer_than(did(9), observer));
    assert!(!observer.nearer_than(observer, observer));
}

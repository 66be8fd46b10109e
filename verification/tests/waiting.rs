//! Requests that wait, connections that come and go, and frames that end in the middle.

use std::collections::VecDeque;

use swarm_transport::admission::DetachedAdmission;
use swarm_transport::capacity::AcquireProgress;
use swarm_transport::capacity::TransferCapacityPermit;
use swarm_transport::capacity::TransferDemand;
use swarm_transport::class::OutboundCompletion;
use swarm_transport::class::SendCompletionOutcome;
use swarm_transport::class::TransferClass;
use swarm_transport::delivery::ChunkSendCancelReason;
use swarm_transport::delivery::ChunkSendPermit;
use swarm_transport::delivery::ChunkSendProgress;
use swarm_transport::did::Did;
use swarm_transport::error::Error;
use swarm_transport::error::TransportError;
use swarm_transport::event_delivery::DeliverySequence;
use swarm_transport::frame_ledger::FrameLedger;
use swarm_transport::payload_send::frame_outbound_transfer;
use swarm_transport::payload_send::FramedPayload;
use swarm_transport::protection::ProtectionProfile;
use swarm_transport::readiness::ConnectionStateSnapshot;
use swarm_transport::readiness::WebrtcConnectionState;
use swarm_transport::registry::ConnectionLifecycleRegistry;
use swarm_transport::registry::LifecycleBounds;
use swarm_transport::registry::PendingConnectionAttempt;
use swarm_transport::registry::ReservationVerdict;
use swarm_transport::reserved_capacity::ReservedCapacity;
use swarm_transport::schedulers::OutboundSchedulers;
use swarm_transport::transfer::ChunkPart;
use swarm_transport::transfer::FramePart;
use swarm_transport::transfer::FrameSource;
use swarm_transport::transfer::OutboundTransferRoute;
use swarm_transport::transfer::ScheduledTransfer;
use swarm_transport::transfer::StopReading;
use swarm_transport::transfer::WorkerEffects;
use swarm_transport::transport::SwarmTransport;
use swarm_transport::worker::OutboundWorker;
use swarm_transport::worker::WorkerStep;

const LARGE: usize = 100 * 1024 * 1024;
const LARGER: usize = 120 * 1024 * 1024;

fn acquired(progress: AcquireProgress) -> TransferCapacityPermit {
    match progress {
        AcquireProgress::Acquired(permit) => permit,
        _ => panic!("the request must be admitted"),
    }
}

#[test]
fn a_waiting_request_is_admitted_once_it_fits_and_can_be_given_up() {
    let mut schedulers = OutboundSchedulers::new(ProtectionProfile::production());
    assert!(schedulers.numbers_left());
    let peer = Did::from_u32(90);
    let blocker = acquired(schedulers.reserve(peer, TransferClass::Application, LARGE));
    let AcquireProgress::AwaitingPeer(ticket) =
        schedulers.reserve(peer, TransferClass::Storage, LARGER)
    else {
        panic!("the second request must wait");
    };
    let demand = TransferDemand::new(TransferClass::Storage, LARGER);
    assert!(!schedulers.has_room(peer, demand));
    assert!(matches!(
        schedulers.resume(peer, ticket, demand),
        AcquireProgress::AwaitingPeer(waiting) if waiting == ticket
    ));
    assert!(schedulers.release(peer, blocker));
    let permit = acquired(schedulers.resume(peer, ticket, demand));
    assert_eq!(schedulers.admitted_transfer_count(peer), Some(1));

    let AcquireProgress::AwaitingPeer(second) =
        schedulers.reserve(peer, TransferClass::Application, LARGE)
    else {
        panic!("the third request must wait");
    };
    schedulers.abandon_peer_wait(peer, second);
    assert!(schedulers.release(peer, permit));
    schedulers.prune_capacities();
    assert_eq!(schedulers.capacity_key_count(), 0);
}

#[test]
fn a_request_that_waits_for_the_node_gives_back_its_peer_when_it_is_given_up() {
    let mut schedulers = OutboundSchedulers::new(ProtectionProfile::production());
    let mut held = Vec::new();
    let mut number = 0;
    let (peer, ticket, permit) = loop {
        number += 1;
        let peer = Did::from_u32(number);
        match schedulers.reserve(peer, TransferClass::Application, LARGE) {
            AcquireProgress::Acquired(permit) => held.push((peer, permit)),
            AcquireProgress::AwaitingNode(ticket, permit) => break (peer, ticket, permit),
            _ => panic!("a fresh peer waits for nothing of its own"),
        }
    };
    assert_eq!(schedulers.admitted_transfer_count(peer), Some(1));
    let AcquireProgress::AwaitingNode(ticket, permit) =
        schedulers.resume_node(peer, ticket, permit)
    else {
        panic!("the node is still full");
    };
    let (first, freed) = held.remove(0);
    assert!(schedulers.release(first, freed));
    let resumed = acquired(schedulers.resume_node(peer, ticket, permit));
    assert!(schedulers.release(peer, resumed));

    let filler = acquired(schedulers.reserve(first, TransferClass::Application, LARGE));
    let AcquireProgress::AwaitingNode(ticket, permit) =
        schedulers.reserve(peer, TransferClass::Application, LARGE)
    else {
        panic!("the node is full again");
    };
    schedulers.abandon_node_wait(peer, ticket, permit);
    assert_eq!(schedulers.admitted_transfer_count(peer), Some(0));
    assert!(schedulers.release(first, filler));
    assert!(schedulers.has_room(peer, TransferDemand::new(TransferClass::Application, LARGE)));
}

#[test]
fn channel_progress_is_read_against_the_stamp_of_the_refusal() {
    let mut schedulers = OutboundSchedulers::new(ProtectionProfile::production());
    let peer = Did::from_u32(4);
    let mut ahead = acquired(schedulers.reserve(peer, TransferClass::Application, 8));
    ahead.mark_reached_link();
    let stamp = schedulers.peer_stamp(peer);
    assert!(!schedulers.peer_progress(peer, &stamp).drained);
    let arrival = acquired(schedulers.reserve(peer, TransferClass::Application, 8));
    assert!(schedulers.release(peer, ahead));
    let progress = schedulers.peer_progress(peer, &stamp);
    assert!(progress.drained && !progress.idle);
    assert!(schedulers.release(peer, arrival));
    assert!(schedulers.peer_progress(peer, &stamp).idle);
}

fn route(peer: Did) -> OutboundTransferRoute {
    OutboundTransferRoute {
        class: TransferClass::Application,
        did: peer,
        attempt: PendingConnectionAttempt {
            peer,
            generation: 1,
        },
        permit: ChunkSendPermit::Always,
    }
}

fn submit(
    schedulers: &mut OutboundSchedulers,
    worker: &mut OutboundWorker<&'static str>,
    peer: Did,
    completion: OutboundCompletion,
    token: u64,
) {
    let chunks: VecDeque<ChunkPart<&'static str>> = ["one", "two"]
        .into_iter()
        .enumerate()
        .map(|(position, data)| ChunkPart {
            position,
            total: 2,
            data,
        })
        .collect();
    let transfer = frame_outbound_transfer(
        route(peer),
        FramedPayload::Chunked(chunks),
        6,
        completion,
        token,
        token,
    );
    let capacity_permit = acquired(schedulers.reserve(peer, TransferClass::Application, 8));
    assert!(worker
        .submit(
            ScheduledTransfer {
                transfer,
                capacity_permit
            },
            &quiet()
        )
        .is_ok());
}

fn quiet() -> StopReading {
    StopReading {
        scheduler: false,
        stopped: Vec::new(),
    }
}

#[test]
fn whole_payloads_are_one_frame_and_chunks_are_sent_in_order() {
    let peer = Did::from_u32(4);
    let mut whole = frame_outbound_transfer(
        route(peer),
        FramedPayload::Whole("payload"),
        7,
        OutboundCompletion::Detached,
        1,
        2,
    );
    assert_eq!(whole.useful_bytes(), 7);
    assert!(whole.is_before_first_frame());
    let frame = whole.source.next_frame().expect("a whole payload has a frame");
    assert!(matches!(frame.part, FramePart::Whole("payload")));
    assert!(whole.source.next_frame().is_none());

    let mut source = FrameSource::Chunked(
        [0, 1]
            .map(|position| ChunkPart {
                position,
                total: 2,
                data: position,
            })
            .into_iter()
            .collect(),
    );
    let first = source.next_frame().expect("the first chunk");
    let second = source.next_frame().expect("the second chunk");
    assert_ne!(first.context, second.context);
    assert!(matches!(first.part, FramePart::Chunk(chunk) if chunk.position == 0));
    assert!(matches!(second.part, FramePart::Chunk(chunk) if chunk.position == 1));
    assert!(source.next_frame().is_none());
}

#[test]
fn a_frame_that_cannot_be_encoded_fails_its_transfer() {
    let mut schedulers = OutboundSchedulers::new(ProtectionProfile::production());
    let mut worker = OutboundWorker::new(0, ProtectionProfile::production());
    let peer = Did::from_u32(4);
    submit(
        &mut schedulers,
        &mut worker,
        peer,
        OutboundCompletion::Attached,
        5,
    );
    let mut effects = WorkerEffects::new();
    assert_eq!(worker.active_route(), None);
    assert!(matches!(
        worker.next_step(&quiet(), &mut effects),
        WorkerStep::Send { .. }
    ));
    assert_eq!(worker.active_route(), Some((route(peer), 5)));
    worker.fail_active_frame(Error::Dht("encoding failed".to_string()), &mut effects);
    assert_eq!(effects.released.len(), 1);
    assert!(matches!(
        effects.results[0].result,
        Err(Error::Dht(ref reason)) if reason == "encoding failed"
    ));
    assert!(effects.measurements.is_empty());
}

#[test]
fn a_worker_that_is_stopped_during_a_send_reports_what_was_accepted() {
    let mut schedulers = OutboundSchedulers::new(ProtectionProfile::production());
    let mut worker = OutboundWorker::new(0, ProtectionProfile::production());
    let peer = Did::from_u32(4);
    for token in [5, 6] {
        submit(
            &mut schedulers,
            &mut worker,
            peer,
            OutboundCompletion::Detached,
            token,
        );
    }
    let mut effects = WorkerEffects::new();
    assert!(matches!(
        worker.next_step(&quiet(), &mut effects),
        WorkerStep::Send { .. }
    ));
    worker.request_shutdown();
    let mut claimed = DetachedAdmission::new();
    assert!(claimed.try_mark_irrevocable().is_some());
    worker.finalize_stopped_active_admission(
        true,
        ChunkSendProgress::Ready(Ok(())),
        &mut Some(claimed),
        &mut effects,
    );
    assert!(worker.is_finished());
    assert_eq!(effects.released.len(), 2);
    assert!(matches!(
        effects.results[0].result,
        Ok(SendCompletionOutcome::Succeeded)
    ));
    assert_eq!(effects.results[0].reply_to, 5);
    assert!(matches!(
        effects.results[1].result,
        Ok(SendCompletionOutcome::Cancelled)
    ));
    assert_eq!(effects.results[1].reply_to, 6);
    assert_eq!(effects.results.len(), 2);
}

#[test]
fn a_failed_backend_counts_against_the_peer() {
    let mut schedulers = OutboundSchedulers::new(ProtectionProfile::production());
    let mut worker = OutboundWorker::new(0, ProtectionProfile::production());
    let peer = Did::from_u32(4);
    submit(
        &mut schedulers,
        &mut worker,
        peer,
        OutboundCompletion::Attached,
        5,
    );
    let mut effects = WorkerEffects::new();
    assert!(matches!(
        worker.next_step(&quiet(), &mut effects),
        WorkerStep::Send { .. }
    ));
    worker.finish_active_admission(
        true,
        ChunkSendProgress::Ready(Err(Error::Transport(TransportError::Backend(
            "gone".to_string(),
        )))),
        &mut None,
        &mut effects,
    );
    assert_eq!(effects.measurements.len(), 1);

    submit(
        &mut schedulers,
        &mut worker,
        peer,
        OutboundCompletion::Attached,
        6,
    );
    let mut effects = WorkerEffects::new();
    assert!(matches!(
        worker.next_step(&quiet(), &mut effects),
        WorkerStep::Send { .. }
    ));
    worker.finish_active_admission(
        true,
        ChunkSendProgress::Cancelled(ChunkSendCancelReason::TransferStopped),
        &mut None,
        &mut effects,
    );
    assert!(effects.measurements.is_empty());
    assert!(matches!(
        effects.results[0].result,
        Ok(SendCompletionOutcome::Cancelled)
    ));
}

#[test]
fn physical_connections_are_forgotten_unless_they_were_replaced() {
    let mut transport = SwarmTransport::new(Did::from_u32(100), LifecycleBounds::new(4, 4));
    let peer = Did::from_u32(5);
    let attempt = transport
        .commit_pending_reservation(peer, 0)
        .expect("room");
    let open = ConnectionStateSnapshot::new(WebrtcConnectionState::Connected, true);
    transport.observe_connection(peer, 1, open);
    transport.observe_connection(peer, 2, open);
    transport.forget_connection(peer, 1);
    assert_eq!(
        transport
            .get_raw_connection(peer)
            .map(|connection| connection.handle),
        Some(2)
    );
    assert_eq!(transport.link_hop(peer).generation, None);
    assert!(transport.begin_ready_connection_admission(attempt).is_ok());
    assert!(transport
        .commit_connection_admission(attempt, |_, _| Ok(()))
        .is_ok());
    let hop = transport.link_hop(peer);
    assert_eq!(hop.generation, Some(attempt.generation()));
    assert!(hop.usable);
    transport.forget_connection(peer, 2);
    assert!(transport.admitted_connection(peer).is_none());
    assert_eq!(
        transport.admitted_connection_snapshots(),
        vec![(attempt, None)]
    );
    assert!(!transport.link_hop(peer).usable);
    assert!(transport.peer_connection_lifecycle(peer).is_some());
}

#[test]
fn retiring_one_connection_admits_the_newcomer() {
    let mut registry = ConnectionLifecycleRegistry::new(LifecycleBounds::new(0, 0));
    registry.set_bounds(LifecycleBounds::new(2, 2));
    let one = registry.reserve(Did::from_u32(1), 0).expect("room");
    assert!(registry.promote(one));
    let two = registry.reserve(Did::from_u32(2), 0).expect("room");
    assert!(registry.promote(two));
    let newcomer = Did::from_u32(3);
    assert_eq!(
        registry.reservation_verdict(newcomer),
        ReservationVerdict::CapacityExceeded
    );
    let outcome = registry
        .retire_active_if(one, |_| Ok(Some(())))
        .expect("the action commits");
    assert!(outcome.is_retired());
    assert_eq!(
        registry.reservation_verdict(newcomer),
        ReservationVerdict::Admissible
    );
}

#[test]
fn a_reserved_share_stays_available_to_its_class() {
    let reservations = [2, 1, 1, 1];
    let mut capacity = ReservedCapacity::new();
    assert!(capacity.try_reserve(3, 1, 5, &reservations));
    assert!(!capacity.try_reserve(3, 1, 5, &reservations));
    assert!(capacity.try_reserve(0, 2, 5, &reservations));
    assert!(capacity.try_reserve(1, 1, 5, &reservations));
    assert!(capacity.try_reserve(2, 1, 5, &reservations));
    assert_eq!(capacity.admitted_of(0), 2);
    assert!(!capacity.reservation_covers(0, 1, &reservations));
    capacity.release(0, 2);
    assert!(capacity.reservation_covers(0, 1, &reservations));
    assert_eq!(capacity.admitted(), 3);
}

#[test]
fn frames_sent_and_arrived_balance_once_the_wire_is_empty() {
    let mut sender = FrameLedger::default();
    let mut receiver = FrameLedger::default();
    for _ in 0..3 {
        sender.begin_send();
        sender.end_send(true);
    }
    receiver.arrive();
    receiver.arrive();
    assert_eq!(sender.sent() - receiver.arrived(), 1);
    receiver.arrive();
    for _ in 0..3 {
        receiver.hand_off();
    }
    assert_eq!(sender.sent(), receiver.arrived());
    assert!(!sender.busy() && !receiver.busy());
}

#[test]
fn turns_start_in_the_order_in_which_they_were_taken() {
    let mut sequence = DeliverySequence::new();
    let turns: Vec<u64> = (0..4).map(|_| sequence.acquire().number).collect();
    sequence.finish(turns[1]);
    let mut started = Vec::new();
    for _ in 0..3 {
        let head = turns
            .iter()
            .copied()
            .find(|turn| sequence.is_head(*turn))
            .expect("a turn waits");
        started.push(head);
        sequence.finish(head);
    }
    assert_eq!(started, vec![turns[0], turns[2], turns[3]]);
}

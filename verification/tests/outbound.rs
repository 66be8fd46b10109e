//! The outbound side of a peer: admission, mailbox, worker, capacity across workers.

use std::cell::RefCell;
use std::collections::VecDeque;
use std::sync::atomic::AtomicUsize;
use std::sync::atomic::Ordering;
use std::sync::mpsc;
use std::sync::Arc;

use swarm_transport::admission::AdmissionPhase;
use swarm_transport::admission::DetachedAdmission;
use swarm_transport::admission::DetachedAdmissionCancel;
use swarm_transport::capacity::AcquireProgress;
use swarm_transport::capacity::GlobalTransferCapacity;
use swarm_transport::capacity::TransferCapacity;
use swarm_transport::capacity::OUTBOUND_DATA_TRANSFER_CAPACITY;
use swarm_transport::class::OutboundCompletion;
use swarm_transport::class::SendCompletionOutcome;
use swarm_transport::class::TransferClass;
use swarm_transport::delivery::ChunkSendCancelReason;
use swarm_transport::delivery::ChunkSendPermit;
use swarm_transport::delivery::ChunkSendProgress;
use swarm_transport::did::Did;
use swarm_transport::error::Error;
use swarm_transport::mailbox::MailboxPoll;
use swarm_transport::mailbox::MailboxState;
use swarm_transport::measurement::MeasurementRecorder;
use swarm_transport::measurement::OutboundMeasurement;
use swarm_transport::protection::ProtectionProfile;
use swarm_transport::queue::TransferQueues;
use swarm_transport::registry::PendingConnectionAttempt;
use swarm_transport::schedulers::OutboundSchedulers;
use swarm_transport::transfer::ChunkPart;
use swarm_transport::transfer::FinalTransferResult;
use swarm_transport::transfer::FramePart;
use swarm_transport::transfer::OutboundTransfer;
use swarm_transport::transfer::OutboundTransferRoute;
use swarm_transport::transfer::ScheduledTransfer;
use swarm_transport::transfer::ShutdownBatch;
use swarm_transport::transfer::StopReading;
use swarm_transport::transfer::WorkerEffects;
use swarm_transport::worker::resolve_cancelled_transfer;
use swarm_transport::worker::worker_transfer_id_base;
use swarm_transport::worker::InputStep;
use swarm_transport::worker::OutboundWorker;
use swarm_transport::worker::WorkerStep;
use swarm_transport::worker::WORKER_ID_STRIDE;

#[test]
fn test_replacement_workers_receive_disjoint_transfer_id_ranges() {
    let first = worker_transfer_id_base(0);
    let second = worker_transfer_id_base(1);

    assert_ne!(first, second);
    assert!(first.abs_diff(second) >= WORKER_ID_STRIDE);
}

#[test]
fn detached_first_frame_success_and_cancellation_are_mutually_exclusive() {
    let mut cancelled = DetachedAdmission::new();
    assert_eq!(cancelled.cancel(), DetachedAdmissionCancel::Cancelled);
    assert!(cancelled.try_mark_irrevocable().is_none());
    assert!(!cancelled.try_succeed());
    assert!(cancelled.should_stop());

    let mut succeeded = DetachedAdmission::new();
    assert!(succeeded.try_mark_irrevocable().is_some());
    assert!(succeeded.try_succeed());
    assert!(succeeded.try_mark_irrevocable().is_some());
    assert_eq!(succeeded.cancel(), DetachedAdmissionCancel::MustAwait);
    assert!(!succeeded.should_stop());

    let mut irrevocable = DetachedAdmission::new();
    assert!(irrevocable.try_mark_irrevocable().is_some());
    assert_eq!(irrevocable.cancel(), DetachedAdmissionCancel::MustAwait);
    assert!(!irrevocable.should_stop());
}

#[test]
fn a_claim_that_is_taken_back_is_cancelled_and_one_that_is_kept_is_ambiguous() {
    let peer = Did::from_u32(8);
    let mut rolled_back = DetachedAdmission::new();
    assert!(rolled_back.try_mark_irrevocable().is_some());
    rolled_back.rollback_irrevocable_send();
    assert!(rolled_back.should_stop());
    assert!(matches!(
        rolled_back.cancelled_outcome(peer),
        Ok(SendCompletionOutcome::Cancelled)
    ));
    let mut kept = DetachedAdmission::new();
    assert!(kept.try_mark_irrevocable().is_some());
    assert!(matches!(
        kept.cancelled_outcome(peer),
        Err(Error::DetachedSendAbandonedAfterClaim { peer: lost }) if lost == peer
    ));
}

struct ShutdownProbe {
    admitted: Arc<AtomicUsize>,
    sender: Option<mpsc::Sender<usize>>,
}

impl Drop for ShutdownProbe {
    fn drop(&mut self) {
        let previous = self.admitted.fetch_sub(1, Ordering::AcqRel);
        assert!(previous > 0, "a shutdown probe must own one admission");
    }
}

struct ShutdownProbeCompletion {
    admitted: Arc<AtomicUsize>,
    sender: mpsc::Sender<usize>,
}

impl ShutdownProbeCompletion {
    fn publish(self) {
        let _ = self.sender.send(self.admitted.load(Ordering::Acquire));
    }
}

fn finalize_shutdown_probe(mut probe: ShutdownProbe) -> Option<ShutdownProbeCompletion> {
    let sender = probe.sender.take()?;
    let admitted = probe.admitted.clone();
    drop(probe);
    Some(ShutdownProbeCompletion { admitted, sender })
}

#[test]
fn shutdown_batch_finalizes_active_ready_and_buffered_before_first_publish() {
    let admitted = Arc::new(AtomicUsize::new(3));
    let (active_sender, active_receiver) = mpsc::channel();
    let (ready_sender, ready_receiver) = mpsc::channel();
    let (buffered_sender, buffered_receiver) = mpsc::channel();
    let active = ShutdownProbe {
        admitted: admitted.clone(),
        sender: Some(active_sender),
    };
    let ready = ShutdownProbe {
        admitted: admitted.clone(),
        sender: Some(ready_sender),
    };
    let buffered = ShutdownProbe {
        admitted: admitted.clone(),
        sender: Some(buffered_sender),
    };

    let completions = ShutdownBatch::new(vec![active], vec![ready], vec![buffered])
        .finalize(finalize_shutdown_probe);
    assert_eq!(admitted.load(Ordering::Acquire), 0);
    let mut completions = completions.into_iter();
    completions
        .next()
        .expect("active completion must be collected first")
        .publish();
    assert_eq!(active_receiver.try_recv(), Ok(0));
    completions
        .next()
        .expect("ready completion must remain available")
        .publish();
    assert_eq!(ready_receiver.try_recv(), Ok(0));
    completions
        .next()
        .expect("buffered completion must remain available")
        .publish();
    assert_eq!(buffered_receiver.try_recv(), Ok(0));
    assert!(completions.next().is_none());
}

struct Fixture {
    global: GlobalTransferCapacity,
    capacity: TransferCapacity,
    peer: Did,
}

impl Fixture {
    fn new() -> Self {
        let global = GlobalTransferCapacity::new();
        let capacity = TransferCapacity::new(1, &global);
        Self {
            global,
            capacity,
            peer: Did::from_u32(42),
        }
    }

    fn transfer(
        &mut self,
        class: TransferClass,
        frames: &[&'static str],
        completion: OutboundCompletion,
        token: u64,
    ) -> ScheduledTransfer<&'static str> {
        let route = OutboundTransferRoute {
            class,
            did: self.peer,
            attempt: PendingConnectionAttempt {
                peer: self.peer,
                generation: 1,
            },
            permit: ChunkSendPermit::Always,
        };
        let transfer = match frames {
            [whole] => {
                OutboundTransfer::whole(route, *whole, 5, completion, token, token)
            }
            chunks => {
                let total = chunks.len();
                OutboundTransfer::chunked(
                    route,
                    chunks
                        .iter()
                        .enumerate()
                        .map(|(position, data)| ChunkPart {
                            position,
                            total,
                            data: *data,
                        })
                        .collect(),
                    5,
                    completion,
                    token,
                    token,
                )
            }
        };
        let capacity_permit = self
            .capacity
            .try_acquire(&mut self.global, self.peer, class, 8)
            .expect("the fixture has room");
        ScheduledTransfer {
            transfer,
            capacity_permit,
        }
    }

    fn settle(&mut self, effects: WorkerEffects) -> Vec<(u64, Result<bool, Error>)> {
        for permit in effects.released {
            self.capacity.release(&mut self.global, permit);
        }
        effects
            .results
            .into_iter()
            .map(|result| {
                (
                    result.reply_to,
                    result
                        .result
                        .map(|outcome| outcome == SendCompletionOutcome::Succeeded),
                )
            })
            .collect()
    }
}

fn quiet() -> StopReading {
    StopReading {
        scheduler: false,
        stopped: Vec::new(),
    }
}

#[test]
fn active_transfer_drop_releases_capacity_before_implicit_completion() {
    let mut fixture = Fixture::new();
    let scheduled = fixture.transfer(
        TransferClass::Application,
        &["frame"],
        OutboundCompletion::Attached,
        7,
    );
    assert_eq!(fixture.capacity.admitted(), 1);
    let mut effects = WorkerEffects::new();
    effects.cancel(scheduled);
    assert_eq!(effects.released.len(), 1);
    let results = fixture.settle(effects);
    assert_eq!(fixture.capacity.admitted(), 0);
    assert!(matches!(results[..], [(7, Ok(false))]));
}

#[test]
fn shutdown_closes_channel_without_worker_owned_sender() {
    let mut worker: OutboundWorker<&'static str> =
        OutboundWorker::new(0, ProtectionProfile::production());
    let mut effects = WorkerEffects::new();
    assert_eq!(worker.poll_input(&quiet(), &mut effects), InputStep::Pending);

    worker.request_shutdown();

    assert!(worker.is_stopping());
    assert_eq!(worker.poll_input(&quiet(), &mut effects), InputStep::Closed);
}

#[test]
fn worker_drop_stops_generation_and_closes_ingress_without_a_normal_run_exit() {
    let mut fixture = Fixture::new();
    let mut worker = OutboundWorker::new(0, ProtectionProfile::production());

    worker.request_shutdown();

    assert!(worker.is_stopping());
    assert!(!worker.cancel_stopped());
    let scheduled = fixture.transfer(
        TransferClass::Application,
        &["frame"],
        OutboundCompletion::Attached,
        1,
    );
    assert!(matches!(
        worker.submit(scheduled, &quiet()),
        Err((_, Some(Error::ChannelSendMessageFailed)))
    ));
}

#[test]
fn final_handle_drop_requests_stop_before_channel_close() {
    let mut worker: OutboundWorker<&'static str> =
        OutboundWorker::new(0, ProtectionProfile::production());
    let mut effects = WorkerEffects::new();

    worker.request_shutdown();

    assert!(worker.is_stopping());
    assert_eq!(worker.poll_input(&quiet(), &mut effects), InputStep::Closed);
}

#[test]
fn a_stopped_worker_cancels_what_it_was_given() {
    let mut fixture = Fixture::new();
    let mut worker = OutboundWorker::new(0, ProtectionProfile::production());
    let scheduled = fixture.transfer(
        TransferClass::Application,
        &["frame"],
        OutboundCompletion::Attached,
        1,
    );
    assert!(worker.submit(scheduled, &quiet()).is_ok());

    worker.request_shutdown();

    assert!(worker.is_stopping());
    assert!(!worker.cancel_stopped());
    let mut effects = WorkerEffects::new();
    worker.shutdown(&mut effects);
    assert!(worker.is_finished());
    let results = fixture.settle(effects);
    assert!(matches!(results[..], [(1, Ok(false))]));
    assert_eq!(fixture.capacity.admitted(), 0);
}

#[test]
fn worker_sends_every_frame_in_order_and_reports_once_capacity_is_free() {
    let mut fixture = Fixture::new();
    let mut worker = OutboundWorker::new(100, ProtectionProfile::production());
    let stops = quiet();
    let mut effects = WorkerEffects::new();
    let scheduled = fixture.transfer(
        TransferClass::Application,
        &["first", "second"],
        OutboundCompletion::Attached,
        9,
    );
    assert!(worker.submit(scheduled, &stops).is_ok());
    let mut sent = Vec::new();
    loop {
        match worker.next_step(&stops, &mut effects) {
            WorkerStep::Send {
                before_first_frame,
                frame,
                ..
            } => {
                assert_eq!(before_first_frame, sent.is_empty());
                if let FramePart::Chunk(chunk) = frame.part {
                    sent.push(chunk.data);
                }
                let delivery = worker
                    .finish_active_admission(
                        before_first_frame,
                        ChunkSendProgress::Ready(Ok(())),
                        &mut None,
                        &mut effects,
                    )
                    .expect("an accepted frame waits for its delivery");
                assert!(worker.handle_delivery(
                    delivery,
                    TransferClass::Application,
                    ChunkSendProgress::Ready(Ok(())),
                    &mut effects,
                ));
            }
            WorkerStep::Continue => {}
            WorkerStep::WaitForInput => break,
            WorkerStep::Exit => panic!("the worker was not told to stop"),
        }
    }
    assert_eq!(sent, vec!["first", "second"]);
    assert!(effects
        .measurements
        .contains(&OutboundMeasurement::Sent { useful_bytes: 5 }));
    let results = fixture.settle(effects);
    assert!(matches!(results[..], [(9, Ok(true))]));
    assert_eq!(fixture.capacity.admitted(), 0);
}

#[test]
fn a_detached_transfer_reports_its_first_frame_and_nothing_after_it() {
    let mut fixture = Fixture::new();
    let mut worker = OutboundWorker::new(0, ProtectionProfile::production());
    let stops = quiet();
    let mut effects = WorkerEffects::new();
    let scheduled = fixture.transfer(
        TransferClass::Application,
        &["first", "second"],
        OutboundCompletion::Detached,
        3,
    );
    assert!(worker.submit(scheduled, &stops).is_ok());
    assert!(matches!(
        worker.next_step(&stops, &mut effects),
        WorkerStep::Send {
            before_first_frame: true,
            ..
        }
    ));
    let mut claimed = DetachedAdmission::new();
    assert!(claimed.try_mark_irrevocable().is_some());
    let mut admission = Some(claimed);
    let delivery = worker.finish_active_admission(
        true,
        ChunkSendProgress::Ready(Ok(())),
        &mut admission,
        &mut effects,
    );
    assert!(delivery.is_some());
    assert_eq!(
        admission.map(|admission| admission.phase),
        Some(AdmissionPhase::Accepted)
    );
    worker.request_shutdown();
    worker.shutdown(&mut effects);
    let results = fixture.settle(effects);
    assert!(matches!(results[..], [(3, Ok(true))]));
    assert_eq!(fixture.capacity.admitted(), 0);
}

#[test]
fn a_detached_caller_observes_a_cancellation_only_of_a_cancelled_admission() {
    let peer = Did::from_u32(8);
    let report = || FinalTransferResult {
        reply_to: 1,
        peer,
        result: Ok(SendCompletionOutcome::Cancelled),
    };
    let mut pending = Some(DetachedAdmission::new());
    assert!(matches!(
        report().publish(&mut pending),
        Ok(SendCompletionOutcome::Cancelled)
    ));
    assert_eq!(
        pending.map(|admission| admission.phase),
        Some(AdmissionPhase::Cancelled)
    );
    let mut claimed = DetachedAdmission::new();
    assert!(claimed.try_mark_irrevocable().is_some());
    assert!(matches!(
        report().publish(&mut Some(claimed)),
        Err(Error::DetachedSendAbandonedAfterClaim { peer: lost }) if lost == peer
    ));
    assert!(matches!(
        report().publish(&mut None),
        Ok(SendCompletionOutcome::Cancelled)
    ));
}

#[test]
fn stopped_transfers_are_cancelled_before_they_are_sent() {
    let mut fixture = Fixture::new();
    let mut worker = OutboundWorker::new(0, ProtectionProfile::production());
    for token in [1, 2, 3] {
        let scheduled = fixture.transfer(
            TransferClass::Storage,
            &["frame"],
            OutboundCompletion::Attached,
            token,
        );
        assert!(worker.submit(scheduled, &quiet()).is_ok());
    }
    let mut effects = WorkerEffects::new();
    worker.drain_available(&quiet(), &mut effects);
    assert!(worker.cancel_stopped());
    let stops = StopReading {
        scheduler: false,
        stopped: vec![2],
    };
    worker.drain_available(&stops, &mut effects);
    let results = fixture.settle(effects);
    assert!(matches!(results[..], [(2, Ok(false))]));
    assert_eq!(fixture.capacity.admitted(), 2);
}

#[test]
fn a_refused_frame_fails_its_transfer_and_a_cancelled_one_is_read_by_its_place() {
    let mut fixture = Fixture::new();
    let mut worker = OutboundWorker::new(0, ProtectionProfile::production());
    let stops = quiet();
    let mut effects = WorkerEffects::new();
    let scheduled = fixture.transfer(
        TransferClass::E2e,
        &["frame"],
        OutboundCompletion::Attached,
        4,
    );
    assert!(worker.submit(scheduled, &stops).is_ok());
    loop {
        match worker.next_step(&stops, &mut effects) {
            WorkerStep::Send {
                before_first_frame, ..
            } => {
                let delivery = worker.finish_active_admission(
                    before_first_frame,
                    ChunkSendProgress::Ready(Err(Error::DataChannelSendQueueTimeout {
                        peer: fixture.peer,
                        timeout_ms: 1,
                        bytes: 1,
                        context: "test",
                    })),
                    &mut None,
                    &mut effects,
                );
                assert!(delivery.is_none());
            }
            WorkerStep::WaitForInput => break,
            _ => {}
        }
    }
    let results = fixture.settle(effects);
    assert!(matches!(
        results[..],
        [(4, Err(Error::DataChannelSendQueueTimeout { .. }))]
    ));

    assert!(matches!(
        resolve_cancelled_transfer(true, ChunkSendCancelReason::RouteNoLongerPermitted),
        Ok(SendCompletionOutcome::Cancelled)
    ));
    let attempt = PendingConnectionAttempt {
        peer: fixture.peer,
        generation: 2,
    };
    assert!(matches!(
        resolve_cancelled_transfer(true, ChunkSendCancelReason::AdmissionRevoked(attempt)),
        Err(Error::ConnectionAttemptSuperseded { generation: 2, .. })
    ));
}

#[test]
fn worker_drop_allows_registry_to_replace_the_stopped_generation() {
    let mut schedulers = OutboundSchedulers::new(ProtectionProfile::production());
    let peer = Did::from_u32(44);
    let stale = schedulers
        .handle(peer, 64, |_, _| Ok(()))
        .expect("a worker starts");
    schedulers.mark_stopped(peer, stale.worker);
    let replacement = schedulers
        .handle(peer, 64, |_, _| Ok(()))
        .expect("a stopped worker generation must be replaceable");

    assert_ne!(stale.worker, replacement.worker);
    assert!(!replacement.stopped);
    assert_eq!(schedulers.worker_of(peer), Some(replacement));
    assert_eq!(stale.link.announced, replacement.link.announced);
    schedulers.shutdown(peer);
    assert_eq!(schedulers.peer_count(), 0);
}

#[test]
fn a_worker_that_cannot_start_leaves_no_entry() {
    let mut schedulers = OutboundSchedulers::new(ProtectionProfile::production());
    let peer = Did::from_u32(45);
    assert!(matches!(
        schedulers.handle(peer, 64, |_, _| Err(Error::LinkControlRuntimeUnavailable)),
        Err(Error::LinkControlRuntimeUnavailable)
    ));
    assert_eq!(schedulers.peer_count(), 0);
    assert!(schedulers.link_of(peer).is_none());
    assert!(schedulers.link_control_permit(peer).is_none());
}

#[test]
fn peer_capacity_survives_scheduler_generation_replacement() {
    let mut schedulers = OutboundSchedulers::new(ProtectionProfile::production());
    let peer = Did::from_u32(11);
    let first = schedulers
        .handle(peer, 64, |_, _| Ok(()))
        .expect("first scheduler generation must start");
    let mut permits = Vec::with_capacity(OUTBOUND_DATA_TRANSFER_CAPACITY);
    for _ in 0..OUTBOUND_DATA_TRANSFER_CAPACITY {
        permits.push(
            schedulers
                .reserve_now(peer, &first, TransferClass::Application, 1)
                .expect("first generation must fill its declared capacity"),
        );
    }

    let stopped = schedulers.shutdown(peer).expect("the worker was running");
    schedulers.release_anchor(peer, stopped.capacity);
    let replacement = schedulers
        .handle(peer, 64, |_, _| Ok(()))
        .expect("replacement scheduler generation must start");

    assert_eq!(
        schedulers.admitted_transfer_count(peer),
        Some(OUTBOUND_DATA_TRANSFER_CAPACITY)
    );
    assert!(matches!(
        schedulers.reserve_now(peer, &replacement, TransferClass::Application, 1),
        Err(Error::OutboundTransferCapacityExceeded {
            peer: error_peer,
            capacity: OUTBOUND_DATA_TRANSFER_CAPACITY,
        }) if error_peer == peer
    ));
    let permit = permits.pop().expect("the capacity was filled");
    assert!(schedulers.release(peer, permit));
    assert!(schedulers
        .reserve_now(peer, &replacement, TransferClass::Application, 1)
        .is_ok());
}

#[test]
fn a_stopped_worker_admits_no_transfer() {
    let mut schedulers = OutboundSchedulers::new(ProtectionProfile::production());
    let peer = Did::from_u32(12);
    schedulers
        .handle(peer, 64, |_, _| Ok(()))
        .expect("a worker starts");
    let stopped = schedulers.shutdown(peer).expect("the worker was running");
    assert!(matches!(
        schedulers.reserve_now(peer, &stopped, TransferClass::Application, 1),
        Err(Error::ChannelSendMessageFailed)
    ));
}

#[test]
fn dead_peer_capacity_keys_are_pruned() {
    let mut schedulers = OutboundSchedulers::new(ProtectionProfile::production());
    let first = Did::from_u32(41);
    let second = Did::from_u32(42);
    let AcquireProgress::Acquired(permit) = schedulers.reserve(first, TransferClass::Application, 1)
    else {
        panic!("first peer must reserve capacity");
    };
    assert_eq!(schedulers.capacity_key_count(), 1);
    assert!(schedulers.release(first, permit));

    let AcquireProgress::Acquired(permit) =
        schedulers.reserve(second, TransferClass::Application, 1)
    else {
        panic!("second peer must reserve capacity");
    };
    assert_eq!(schedulers.capacity_key_count(), 1);
    assert!(schedulers.release(second, permit));
    schedulers.shutdown(second);

    assert_eq!(schedulers.capacity_key_count(), 0);
}

#[test]
fn peer_state_keeps_idle_capacity_accountant_alive() {
    let mut schedulers = OutboundSchedulers::new(ProtectionProfile::production());
    let peer = Did::from_u32(43);
    let handle = schedulers
        .handle(peer, 64, |_, _| Ok(()))
        .expect("peer worker must start");
    let AcquireProgress::Acquired(permit) = schedulers.reserve(peer, TransferClass::Application, 1)
    else {
        panic!("peer must reserve capacity");
    };

    assert!(schedulers.release(peer, permit));
    schedulers.prune_capacities();
    assert_eq!(schedulers.capacity_key_count(), 1);

    schedulers.release_anchor(peer, handle.capacity);
    schedulers.shutdown(peer);
    schedulers.prune_capacities();
    assert_eq!(schedulers.capacity_key_count(), 0);
}

#[test]
fn session_questions_of_a_peer_without_a_worker_are_answered_as_unknown() {
    let mut schedulers = OutboundSchedulers::new(ProtectionProfile::production());
    let peer = Did::from_u32(46);
    assert_eq!(
        schedulers.answer_session_request(peer, "unknown", |_| "known"),
        "unknown"
    );
    let noted = RefCell::new(Vec::new());
    assert!(!schedulers.acknowledge_session(peer, |table| noted.borrow_mut().push(table)));
    let handle = schedulers
        .handle(peer, 64, |_, _| Ok(()))
        .expect("a worker starts");
    assert_eq!(
        schedulers.answer_session_request(peer, "unknown", |_| "known"),
        "known"
    );
    assert!(schedulers.acknowledge_session(peer, |table| noted.borrow_mut().push(table)));
    assert_eq!(noted.into_inner(), vec![handle.link.announced]);
}

#[test]
fn test_validation_and_drain_share_the_sender_linearization_boundary() {
    let mut mailbox = MailboxState::new();
    assert_eq!(mailbox.submit_if(1, |_| true), Ok(()));
    assert_eq!(mailbox.submit_if(2, |_| false), Err(2));
    assert_eq!(mailbox.submit_if(3, |_| true), Ok(()));

    assert_eq!(mailbox.snapshot(), VecDeque::from([1, 3]));
    assert!(mailbox.snapshot().is_empty());
}

#[test]
fn test_drain_hands_over_the_whole_backlog_in_submission_order() {
    let mut mailbox = MailboxState::new();
    for index in 0..64 {
        assert_eq!(mailbox.submit_if(index, |_| true), Ok(()));
    }

    assert_eq!(mailbox.snapshot(), (0..64).collect::<VecDeque<_>>());
    assert!(!mailbox.is_terminated());
    mailbox.close();
    assert!(mailbox.is_closed());
    assert!(mailbox.snapshot().is_empty());
    assert!(mailbox.is_terminated());
}

#[test]
fn finite_reducer_traces_preserve_ownership_and_batch_bound() {
    for encoded in 0..6_usize.pow(6) {
        let mut code = encoded;
        let mut actual = MailboxState::default();
        let mut fifo = VecDeque::new();
        let mut notified = false;
        let mut closed = false;
        for id in 0..6 {
            let action = code % 6;
            code /= 6;
            match action {
                0 if fifo.len() < 3 => {
                    assert_eq!(
                        actual.submit(Some(id)),
                        if closed { Err(Some(id)) } else { Ok(()) }
                    );
                    if !closed {
                        fifo.push_back(Some(id));
                    }
                }
                1 | 2 => {
                    assert_eq!(actual.notify(None), if closed { Err(None) } else { Ok(()) });
                    notified |= !closed;
                }
                3 => {
                    let batch = actual.snapshot();
                    assert!(batch.len() <= 4);
                    let mut expected = std::mem::take(&mut fifo);
                    if notified {
                        expected.push_back(None);
                    }
                    notified = false;
                    assert_eq!(batch, expected);
                }
                4 => {
                    let expected = match fifo.pop_front() {
                        Some(item) => Some(item),
                        None if std::mem::take(&mut notified) => Some(None),
                        None => None,
                    };
                    assert_eq!(
                        actual.poll_next(),
                        match expected {
                            Some(item) => MailboxPoll::Ready(item),
                            None if closed => MailboxPoll::Closed,
                            None => MailboxPoll::Pending,
                        }
                    );
                }
                5 => {
                    actual.close();
                    closed = true;
                }
                _ => {}
            }
            assert_eq!(
                actual.is_terminated(),
                closed && fifo.is_empty() && !notified
            );
        }
        actual.close();
        let mut expected = fifo;
        if notified {
            expected.push_back(None);
        }
        assert_eq!(actual.snapshot(), expected);
        assert!(actual.is_terminated());
    }
}

#[test]
fn snapshot_exposes_control_and_defers_concurrent_producers_to_next_batch() {
    let mut mailbox = MailboxState::new();
    for id in 0..64 {
        assert!(mailbox
            .submit(Some((TransferClass::Application, id)))
            .is_ok());
    }
    assert!(mailbox
        .submit(Some((TransferClass::DhtControl, 64)))
        .is_ok());
    for _ in 0..1024 {
        assert!(mailbox.notify(None).is_ok());
    }
    let batch = mailbox.snapshot();
    assert_eq!(batch.len(), 66);
    assert!(mailbox.submit(Some((TransferClass::Storage, 65))).is_ok());
    assert!(mailbox.notify(None).is_ok());
    let mut queues = TransferQueues::default();
    let mut scans = 0;
    for command in batch {
        match command {
            Some((class, id)) => queues.push(class, id),
            None => scans += 1,
        }
    }
    assert_eq!(scans, 1);
    let selected = queues.pop().expect("snapshot contains runnable control");
    assert_eq!(selected.class(), TransferClass::DhtControl);
    assert_eq!(*selected.item(), 64);
    assert_eq!(
        mailbox.snapshot(),
        VecDeque::from([Some((TransferClass::Storage, 65)), None])
    );
}

#[test]
fn coalescing_preserves_logical_count_and_total_useful_bytes() {
    let mut recorder = MeasurementRecorder::new(true);
    assert!(recorder.record(OutboundMeasurement::Sent { useful_bytes: 3 }));
    assert!(recorder.record(OutboundMeasurement::Sent { useful_bytes: 5 }));
    assert!(recorder.record(OutboundMeasurement::FailedToSend));

    let mut batches = Vec::new();
    while let Some(batch) = recorder.take_batch() {
        batches.push(batch);
    }
    assert_eq!(batches.len(), 2);
    assert_eq!(
        batches
            .iter()
            .filter(|batch| matches!(batch.event, OutboundMeasurement::Sent { .. }))
            .map(|batch| batch.occurrences)
            .sum::<u64>(),
        2
    );
    assert_eq!(
        batches
            .iter()
            .filter_map(|batch| match batch.event {
                OutboundMeasurement::Sent { useful_bytes } => Some(useful_bytes),
                _ => None,
            })
            .sum::<u64>(),
        8
    );
    assert!(batches.iter().any(|batch| {
        matches!(batch.event, OutboundMeasurement::FailedToSend) && batch.occurrences == 1
    }));
}

#[test]
fn disabled_recorder_retains_no_events() {
    let mut recorder = MeasurementRecorder::new(false);
    recorder.record(OutboundMeasurement::Sent { useful_bytes: 3 });
    assert!(recorder.take_batch().is_none());
}

#[test]
fn a_batch_is_every_waiting_submission_and_the_latest_notification() {
    let mut mailbox = MailboxState::new();
    assert_eq!(mailbox.submit(1), Ok(()));
    assert_eq!(mailbox.notify(90), Ok(()));
    assert_eq!(mailbox.submit(2), Ok(()));
    assert_eq!(mailbox.notify(91), Ok(()));
    assert_eq!(mailbox.poll_next(), MailboxPoll::Ready(1));
    assert_eq!(mailbox.submit(3), Ok(()));
    assert_eq!(mailbox.snapshot(), VecDeque::from([2, 3, 91]));
    assert!(mailbox.snapshot().is_empty());
    assert!(!mailbox.is_closed());

    assert_eq!(mailbox.notify(92), Ok(()));
    assert_eq!(mailbox.poll_next(), MailboxPoll::Ready(92));
    assert_eq!(mailbox.poll_next(), MailboxPoll::Pending);
    assert_eq!(mailbox.submit(4), Ok(()));
    mailbox.close();
    assert_eq!(mailbox.submit(5), Err(5));
    assert_eq!(mailbox.notify(93), Err(93));
    assert_eq!(mailbox.snapshot(), VecDeque::from([4]));
    assert_eq!(mailbox.poll_next(), MailboxPoll::Closed);
    assert!(mailbox.is_closed());
}

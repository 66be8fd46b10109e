//! Class scheduling of one peer's transfers.

use std::collections::BTreeMap;
use std::collections::BTreeSet;

use swarm_transport::class::TransferClass;
use swarm_transport::class::CLASS_COUNT;
use swarm_transport::protection::ProtectionProfile;
use swarm_transport::queue::RunnableTransfer;
use swarm_transport::queue::TransferQueues;
use swarm_transport::queue::OUTBOUND_CONTROL_BURST;

type TestTransfer = (TransferClass, &'static str);

fn pop_and_finish(queues: &mut TransferQueues<TestTransfer>) -> Option<&'static str> {
    let transfer = queues.pop()?;
    let class = transfer.class();
    let (_, item) = transfer.into_item();
    queues.record_frame_admitted(class);
    queues.finish_current(class);
    Some(item)
}

fn pop_order(mut queues: TransferQueues<TestTransfer>, n: usize) -> Vec<&'static str> {
    let mut order = Vec::new();
    for _ in 0..n {
        let Some(item) = pop_and_finish(&mut queues) else {
            break;
        };
        order.push(item);
    }
    order
}

fn push(queues: &mut TransferQueues<TestTransfer>, class: TransferClass, item: &'static str) {
    queues.push(class, (class, item));
}

fn admit_single_frame_transfer(
    queues: &mut TransferQueues<TestTransfer>,
    delivery_id: u64,
) -> &'static str {
    let active = queues.pop().expect("a runnable transfer must exist");
    let class = active.class();
    let label = active.item().1;
    queues.record_frame_admitted(class);
    queues.wait_for_delivery(delivery_id, active);
    let delivered = queues
        .take_waiting(class, delivery_id)
        .expect("the matching delivery must own the lane head");
    queues.make_runnable(delivered);
    let completion_probe = queues.pop().expect("completion probe must be runnable");
    assert_eq!(completion_probe.item().1, label);
    queues.finish_current(class);
    label
}

#[test]
fn dht_control_preempts_queued_bulk_work() {
    let mut queues = TransferQueues::default();
    push(&mut queues, TransferClass::Application, "app-1");
    push(&mut queues, TransferClass::Application, "app-2");
    push(&mut queues, TransferClass::DhtControl, "dht");

    assert_eq!(pop_and_finish(&mut queues), Some("dht"));
}

#[test]
fn continuous_dht_control_yields_to_lower_classes() {
    let mut queues = TransferQueues::default();
    for item in ["dht-1", "dht-2", "dht-3", "dht-4", "dht-5"] {
        push(&mut queues, TransferClass::DhtControl, item);
    }
    push(&mut queues, TransferClass::Application, "app");

    assert_eq!(
        pop_order(queues, 6),
        vec!["dht-1", "dht-2", "dht-3", "dht-4", "app", "dht-5"]
    );
}

#[test]
fn completion_probes_do_not_consume_control_frame_burst() {
    let mut queues = TransferQueues::default();
    for item in ["dht-1", "dht-2", "dht-3", "dht-4", "dht-5"] {
        push(&mut queues, TransferClass::DhtControl, item);
    }
    push(&mut queues, TransferClass::Application, "app");

    let mut admitted = Vec::new();
    for delivery_id in 0..3 {
        admitted.push(admit_single_frame_transfer(&mut queues, delivery_id));
    }

    let active = queues.pop().expect("fourth control transfer must exist");
    assert_eq!(active.item().1, "dht-4");
    let class = active.class();
    queues.record_frame_admitted(class);
    admitted.push(active.item().1);
    queues.wait_for_delivery(3, active);
    let delivered = queues
        .take_waiting(TransferClass::DhtControl, 3)
        .expect("fourth control delivery must resume its lane");
    queues.make_runnable(delivered);

    admitted.push(pop_and_finish(&mut queues).expect("application frame must receive its slot"));
    let completed_control = queues
        .pop()
        .expect("fourth control completion probe must remain runnable");
    assert_eq!(completed_control.item().1, "dht-4");
    queues.finish_current(completed_control.class());
    admitted.push(admit_single_frame_transfer(&mut queues, 4));

    assert_eq!(
        admitted,
        vec!["dht-1", "dht-2", "dht-3", "dht-4", "app", "dht-5"]
    );
}

#[test]
fn lower_classes_progress_round_robin() {
    let mut queues = TransferQueues::default();
    push(&mut queues, TransferClass::Storage, "storage-1");
    push(&mut queues, TransferClass::Storage, "storage-2");
    push(&mut queues, TransferClass::E2e, "e2e");
    push(&mut queues, TransferClass::Application, "app");

    assert_eq!(
        pop_order(queues, 4),
        vec!["storage-1", "e2e", "app", "storage-2"]
    );
}

#[test]
fn every_transfer_class_uses_its_own_lane() {
    let classes = [
        TransferClass::DhtControl,
        TransferClass::Storage,
        TransferClass::E2e,
        TransferClass::Application,
    ];
    let mut queues = TransferQueues::default();
    for class in classes {
        push(&mut queues, class, "indexed-lane");
    }

    for _ in classes {
        let transfer = queues.pop().expect("every indexed lane must be reachable");
        assert_eq!(transfer.class(), transfer.item().0);
        queues.finish_current(transfer.class());
    }
}

#[test]
fn lower_cursor_wraps_and_skips_idle_lanes() {
    for (previous, expected) in [
        (TransferClass::Application, TransferClass::Storage),
        (TransferClass::Storage, TransferClass::E2e),
        (TransferClass::E2e, TransferClass::Application),
    ] {
        let mut queues = TransferQueues::default();
        queues.record_frame_admitted(previous);
        for class in [
            TransferClass::Storage,
            TransferClass::E2e,
            TransferClass::Application,
        ] {
            push(&mut queues, class, "round-robin");
        }
        assert_eq!(
            queues.pop().map(|transfer| transfer.class()),
            Some(expected)
        );
    }

    let mut sparse = TransferQueues::default();
    sparse.record_frame_admitted(TransferClass::Storage);
    push(&mut sparse, TransferClass::Application, "sparse");
    assert_eq!(
        sparse.pop().map(|transfer| transfer.class()),
        Some(TransferClass::Application)
    );
}

#[test]
fn terminal_attempt_advances_the_lower_class_cursor() {
    let mut queues = TransferQueues::default();
    push(&mut queues, TransferClass::Storage, "stale-storage");
    push(&mut queues, TransferClass::E2e, "e2e");
    push(&mut queues, TransferClass::Application, "application");

    let stale = queues
        .pop()
        .expect("storage must start at the initial cursor");
    assert_eq!(stale.item().1, "stale-storage");
    queues.fail_attempt(stale);
    push(&mut queues, TransferClass::Storage, "more-stale-storage");

    let next = queues
        .pop()
        .expect("a failed attempt must yield to the next lower class");
    assert_eq!(next.item().1, "e2e");
}

#[test]
fn cancelled_control_attempts_consume_the_control_burst() {
    let mut queues = TransferQueues::default();
    push(&mut queues, TransferClass::Application, "application");
    for index in 0..OUTBOUND_CONTROL_BURST {
        push(&mut queues, TransferClass::DhtControl, "cancelled-control");
        let control = queues
            .pop()
            .expect("control must run while its burst remains");
        assert_eq!(
            control.item().1,
            "cancelled-control",
            "control attempt {index}"
        );
        queues.fail_attempt(control);
    }
    push(&mut queues, TransferClass::DhtControl, "fifth-control");

    let next = queues
        .pop()
        .expect("lower work must run after failed control consumes the burst");
    assert_eq!(next.item().1, "application");
}

#[test]
fn waiting_lane_preserves_same_class_fifo_and_allows_control_preemption() {
    let mut queues = TransferQueues::default();
    push(&mut queues, TransferClass::Application, "app-1");
    push(&mut queues, TransferClass::Application, "app-2");

    let active = queues.pop().expect("first application transfer must exist");
    assert_eq!(active.item(), &(TransferClass::Application, "app-1"));
    queues.record_frame_admitted(TransferClass::Application);
    queues.wait_for_delivery(7, active);
    push(&mut queues, TransferClass::DhtControl, "dht");
    let resumed = queues
        .take_waiting(TransferClass::Application, 7)
        .expect("matching application delivery must resume the lane");
    queues.make_runnable(resumed);

    assert_eq!(pop_and_finish(&mut queues), Some("dht"));
    assert_eq!(pop_and_finish(&mut queues), Some("app-1"));
    assert_eq!(pop_and_finish(&mut queues), Some("app-2"));
}

#[test]
fn draining_a_waiting_lane_returns_its_active_and_queued_transfers() {
    let mut queues = TransferQueues::default();
    push(&mut queues, TransferClass::Application, "app-1");
    push(&mut queues, TransferClass::Application, "app-2");

    let active = queues
        .pop()
        .expect("active transfer must exist before drain");
    queues.record_frame_admitted(TransferClass::Application);
    queues.wait_for_delivery(11, active);

    let mut drained: Vec<_> = queues
        .drain_transfers()
        .into_iter()
        .map(|(_, label)| label)
        .collect();
    drained.sort_unstable();
    assert_eq!(drained, vec!["app-1", "app-2"]);
}

#[test]
fn removing_ready_items_preserves_waiting_heads_and_fifo_order() {
    let mut queues = TransferQueues::default();
    push(&mut queues, TransferClass::Application, "waiting");
    push(&mut queues, TransferClass::Application, "cancel-1");
    push(&mut queues, TransferClass::Application, "keep");
    push(&mut queues, TransferClass::Application, "cancel-2");
    let waiting = queues.pop().expect("lane head must be runnable");
    queues.wait_for_delivery(17, waiting);

    let removed = queues.remove_ready_where(|(_, label)| label.starts_with("cancel"));

    assert_eq!(
        removed
            .into_iter()
            .map(|(_, label)| label)
            .collect::<Vec<_>>(),
        vec!["cancel-1", "cancel-2"]
    );
    let waiting = queues
        .take_waiting(TransferClass::Application, 17)
        .expect("active delivery must remain owned by the lane");
    queues.finish_current(TransferClass::Application);
    assert_eq!(waiting.item().1, "waiting");
    assert_eq!(pop_and_finish(&mut queues), Some("keep"));
}

const MODEL_CAPACITY: usize = 8;
const ACTION_CARDINALITY: usize = 13;
const TRACE_LENGTH: u32 = 6;
const CLASSES: [TransferClass; CLASS_COUNT] = [
    TransferClass::DhtControl,
    TransferClass::Storage,
    TransferClass::E2e,
    TransferClass::Application,
];
const LOWER_CLASSES: [TransferClass; 3] = [
    TransferClass::Storage,
    TransferClass::E2e,
    TransferClass::Application,
];

#[derive(Clone, Copy, Debug, Eq, Ord, PartialEq, PartialOrd)]
struct ModelTransfer {
    id: u16,
    next_frame: u8,
    frames: u8,
}

struct SchedulerHarness {
    actual: TransferQueues<ModelTransfer>,
    pending_deliveries: BTreeMap<u64, TransferClass>,
    live: BTreeSet<u16>,
    terminated: BTreeSet<u16>,
    admitted: Vec<(TransferClass, u16, u8)>,
    next_transfer_id: u16,
    next_delivery_id: u64,
    shutdown: bool,
}

impl SchedulerHarness {
    fn new() -> Self {
        Self {
            actual: TransferQueues::default(),
            pending_deliveries: BTreeMap::new(),
            live: BTreeSet::new(),
            terminated: BTreeSet::new(),
            admitted: Vec::new(),
            next_transfer_id: 0,
            next_delivery_id: 0,
            shutdown: false,
        }
    }

    fn apply(&mut self, action: usize) {
        if self.shutdown {
            return;
        }
        match action {
            0..=3 => self.submit(CLASSES[action]),
            4 => {
                let _ = self.admit_one_frame();
            }
            5 => self.complete_delivery(false),
            6 => self.complete_delivery(true),
            7 => self.cancel_ready(|id| id % 2 == 0),
            8 => self.cancel_ready(|id| id % 2 != 0),
            9 => self.fail_admission(),
            10 => self.terminate_delivery(false),
            11 => self.terminate_delivery(true),
            12 => self.shutdown(),
            _ => {}
        }
        assert!(self.live.len() <= MODEL_CAPACITY);
        self.assert_fifo_and_frame_contiguity();
    }

    fn submit(&mut self, class: TransferClass) {
        if self.live.len() == MODEL_CAPACITY {
            return;
        }
        let transfer = ModelTransfer {
            id: self.next_transfer_id,
            next_frame: 0,
            frames: 1 + u8::from(self.next_transfer_id % 2 == 0),
        };
        self.next_transfer_id = self.next_transfer_id.saturating_add(1);
        assert!(self.live.insert(transfer.id));
        self.actual.push(class, transfer);
    }

    fn pop_attempt(&mut self) -> Option<RunnableTransfer<ModelTransfer>> {
        loop {
            let actual = self.actual.pop()?;
            let item = *actual.item();
            assert!(self.live.contains(&item.id));
            assert!(!self.terminated.contains(&item.id));
            if item.next_frame == item.frames {
                let completed = self.actual.finish_transfer(actual);
                self.terminate(completed.id);
                continue;
            }
            return Some(actual);
        }
    }

    fn admit_one_frame(&mut self) -> Option<TransferClass> {
        let mut actual = self.pop_attempt()?;
        let class = actual.class();
        let id = actual.item().id;
        let frame = actual.item().next_frame;
        assert!(!self.terminated.contains(&id));
        self.admitted.push((class, id, frame));
        actual.item_mut().next_frame = frame.saturating_add(1);
        self.actual.record_frame_admitted(class);

        let delivery_id = self.next_delivery_id;
        self.next_delivery_id = self.next_delivery_id.saturating_add(1);
        self.actual.wait_for_delivery(delivery_id, actual);
        assert!(self.pending_deliveries.insert(delivery_id, class).is_none());
        Some(class)
    }

    fn selected_delivery(&self, newest: bool) -> Option<(u64, TransferClass)> {
        if newest {
            self.pending_deliveries.last_key_value()
        } else {
            self.pending_deliveries.first_key_value()
        }
        .map(|(id, class)| (*id, *class))
    }

    fn complete_delivery(&mut self, newest: bool) {
        let Some((delivery_id, class)) = self.selected_delivery(newest) else {
            return;
        };
        let actual = self
            .actual
            .take_waiting(class, delivery_id)
            .expect("delivery id must identify its waiting class");
        self.actual.make_runnable(actual);
        self.pending_deliveries.remove(&delivery_id);
    }

    fn fail_admission(&mut self) {
        let Some(actual) = self.pop_attempt() else {
            return;
        };
        let failed = self.actual.fail_attempt(actual);
        self.terminate(failed.id);
    }

    fn terminate_delivery(&mut self, newest: bool) {
        let Some((delivery_id, class)) = self.selected_delivery(newest) else {
            return;
        };
        let actual = self
            .actual
            .take_waiting(class, delivery_id)
            .expect("delivery id must identify its waiting class");
        let terminated = self.actual.finish_transfer(actual);
        self.pending_deliveries.remove(&delivery_id);
        self.terminate(terminated.id);
    }

    fn cancel_ready(&mut self, predicate: impl Fn(u16) -> bool) {
        let cancelled = self
            .actual
            .remove_ready_where(|transfer| predicate(transfer.id));
        for transfer in cancelled {
            self.terminate(transfer.id);
        }
    }

    fn terminate(&mut self, id: u16) {
        assert!(self.live.remove(&id), "transfer {id} terminated twice");
        assert!(self.terminated.insert(id), "transfer {id} terminated twice");
    }

    fn shutdown(&mut self) {
        let drained = self.actual.drain_transfers();
        let drained_ids = drained
            .iter()
            .map(|transfer| transfer.id)
            .collect::<BTreeSet<_>>();
        assert_eq!(drained_ids, self.live);
        assert_eq!(drained_ids.len(), drained.len());
        for transfer in drained {
            self.terminate(transfer.id);
        }
        self.pending_deliveries.clear();
        self.shutdown = true;
    }

    fn assert_fifo_and_frame_contiguity(&self) {
        let mut last = [None; CLASS_COUNT];
        for &(class, id, frame) in &self.admitted {
            if let Some((last_id, last_frame)) = last[class.index()] {
                if id == last_id {
                    assert_eq!(frame, last_frame + 1);
                } else {
                    assert!(id > last_id, "same-class FIFO order regressed");
                    assert_eq!(frame, 0, "a successor started after its first frame");
                }
            } else {
                assert_eq!(frame, 0);
            }
            last[class.index()] = Some((id, frame));
        }
    }
}

fn admit_single_frame(queue: &mut TransferQueues<u16>) -> (TransferClass, u16) {
    let selected = queue
        .pop()
        .expect("continuous fixture must remain runnable");
    let class = selected.class();
    queue.record_frame_admitted(class);
    let id = queue.finish_transfer(selected);
    (class, id)
}

#[test]
fn test_all_short_traces_preserve_fifo_cancellation_and_shutdown_invariants() {
    let trace_count = ACTION_CARDINALITY.pow(TRACE_LENGTH);
    for encoded in 0..trace_count {
        let mut code = encoded;
        let mut harness = SchedulerHarness::new();
        for _ in 0..TRACE_LENGTH {
            harness.apply(code % ACTION_CARDINALITY);
            code /= ACTION_CARDINALITY;
        }
        harness.shutdown();
        assert!(harness.live.is_empty());
        assert!(harness.pending_deliveries.is_empty());
    }
}

#[test]
fn test_sustained_mixed_load_bounds_control_and_rotates_lower_service() {
    let mut queue = TransferQueues::default();
    for id in 0..48 {
        queue.push(TransferClass::DhtControl, id);
    }
    for (offset, class) in LOWER_CLASSES.into_iter().enumerate() {
        for sequence in 0..8 {
            queue.push(class, 100 + (offset as u16 * 10) + sequence);
        }
    }

    let selected = (0..24)
        .map(|_| admit_single_frame(&mut queue).0)
        .collect::<Vec<_>>();
    assert!(selected
        .windows(OUTBOUND_CONTROL_BURST + 1)
        .all(|window| window
            .iter()
            .any(|class| *class != TransferClass::DhtControl)));
    let lower = selected
        .into_iter()
        .filter(|class| *class != TransferClass::DhtControl)
        .collect::<Vec<_>>();
    for (index, class) in lower.into_iter().enumerate() {
        assert_eq!(class, LOWER_CLASSES[index % LOWER_CLASSES.len()]);
    }
}

#[test]
fn test_fourth_control_frame_is_followed_by_waiting_lower_work() {
    let mut queue = TransferQueues::default();
    for id in 0..5 {
        queue.push(TransferClass::DhtControl, id);
    }
    queue.push(TransferClass::Storage, 100);

    let selected = (0..=OUTBOUND_CONTROL_BURST)
        .map(|_| admit_single_frame(&mut queue).0)
        .collect::<Vec<_>>();
    assert_eq!(
        selected,
        vec![
            TransferClass::DhtControl,
            TransferClass::DhtControl,
            TransferClass::DhtControl,
            TransferClass::DhtControl,
            TransferClass::Storage,
        ]
    );
}

#[test]
fn test_bounded_control_burst_ablation_changes_the_real_queue_policy() {
    let mut queue =
        TransferQueues::with_profile(ProtectionProfile::without_bounded_control_burst());
    for id in 0..5 {
        queue.push(TransferClass::DhtControl, id);
    }
    queue.push(TransferClass::Storage, 100);

    let selected = (0..=OUTBOUND_CONTROL_BURST)
        .map(|_| admit_single_frame(&mut queue).0)
        .collect::<Vec<_>>();
    assert_eq!(selected, vec![TransferClass::DhtControl; 5]);
}

#[test]
fn idle_queue_has_nothing_runnable_and_a_waiting_lane_blocks_its_own_class_only() {
    let mut queue: TransferQueues<u16> = TransferQueues::new();
    assert!(!queue.has_runnable());
    assert!(queue.pop().is_none());
    queue.push(TransferClass::Storage, 1);
    queue.push(TransferClass::Storage, 2);
    queue.push(TransferClass::E2e, 3);
    let head = queue.pop().expect("storage is runnable");
    assert_eq!(head.into_parts(), (TransferClass::Storage, 1));
    assert!(!queue.is_runnable(TransferClass::Storage));
    assert!(queue.is_runnable(TransferClass::E2e));
    assert!(queue.take_waiting(TransferClass::E2e, 9).is_none());
}

#[test]
fn a_drain_hands_over_what_is_not_done_class_by_class() {
    let mut queues = TransferQueues::default();
    push(&mut queues, TransferClass::Application, "app-1");
    push(&mut queues, TransferClass::Storage, "storage-1");
    push(&mut queues, TransferClass::DhtControl, "control-1");
    push(&mut queues, TransferClass::Application, "app-2");
    push(&mut queues, TransferClass::DhtControl, "control-2");

    let first = queues.pop().expect("control can run");
    assert_eq!(first.item().1, "control-1");
    assert_eq!(queues.finish_transfer(first).1, "control-1");
    let second = queues.pop().expect("control can run");
    assert_eq!(second.item().1, "control-2");
    queues.wait_for_delivery(7, second);
    push(&mut queues, TransferClass::DhtControl, "control-3");
    let storage = queues.pop().expect("storage can run");
    assert_eq!(queues.fail_attempt(storage).1, "storage-1");
    let application = queues.pop().expect("application can run");
    assert_eq!(application.item().1, "app-1");
    assert!(queues.pop().is_none());
    queues.make_runnable(application);

    let drained: Vec<&'static str> = queues
        .drain_transfers()
        .into_iter()
        .map(|(_, item)| item)
        .collect();
    assert_eq!(drained, ["control-2", "control-3", "app-1", "app-2"]);
    assert!(queues.pop().is_none());
    assert!(queues.take_waiting(TransferClass::DhtControl, 7).is_none());
    assert!(queues.drain_transfers().is_empty());
}

#[test]
fn pops_and_drains_keep_push_order_across_cancellation_scans() {
    let mut queues = TransferQueues::default();
    for item in ["app-1", "app-2", "app-3", "app-4", "app-5"] {
        push(&mut queues, TransferClass::Application, item);
    }
    push(&mut queues, TransferClass::Storage, "storage-1");
    push(&mut queues, TransferClass::Storage, "storage-2");
    let scan = |queues: &mut TransferQueues<TestTransfer>, gone: &[&str]| -> Vec<&'static str> {
        queues
            .remove_ready_where(|(_, item)| gone.contains(item))
            .into_iter()
            .map(|(_, item)| item)
            .collect()
    };

    assert_eq!(
        scan(&mut queues, &["app-2", "storage-1"]),
        ["storage-1", "app-2"]
    );
    let storage = queues.pop().expect("storage can run");
    assert_eq!(storage.item().1, "storage-2");
    // A transfer that is out of its lane is out of reach of a scan.
    assert!(scan(&mut queues, &["storage-2"]).is_empty());
    queues.record_frame_admitted(TransferClass::Storage);
    queues.wait_for_delivery(3, storage);
    assert!(scan(&mut queues, &["storage-2"]).is_empty());

    let first = queues.pop().expect("application can run");
    assert_eq!(first.item().1, "app-1");
    queues.make_runnable(first);
    // Back in its lane it can be removed, and the next one takes its place.
    assert_eq!(scan(&mut queues, &["app-1", "app-4"]), ["app-1", "app-4"]);
    let next = queues.pop().expect("application can run");
    assert_eq!(next.item().1, "app-3");
    queues.make_runnable(next);

    let drained: Vec<&'static str> = queues
        .drain_transfers()
        .into_iter()
        .map(|(_, item)| item)
        .collect();
    assert_eq!(drained, ["storage-2", "app-3", "app-5"]);
    assert!(queues.pop().is_none());
    assert!(queues.take_waiting(TransferClass::Storage, 3).is_none());
    assert!(scan(&mut queues, &["app-3"]).is_empty());
    assert!(queues.drain_transfers().is_empty());
}

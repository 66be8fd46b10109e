//! Reserved shares, peer and node capacity, and the budgets of link control.

use swarm_transport::capacity::admits_now;
use swarm_transport::capacity::global_byte_limit;
use swarm_transport::capacity::peer_byte_limit;
use swarm_transport::capacity::transfer_limit;
use swarm_transport::capacity::validate_memory_request;
use swarm_transport::capacity::AcquireProgress;
use swarm_transport::capacity::GlobalTransferCapacity;
use swarm_transport::capacity::PeerStamp;
use swarm_transport::capacity::TransferCapacity;
use swarm_transport::capacity::TransferDemand;
use swarm_transport::capacity::OUTBOUND_CONTROL_RESERVED_TRANSFERS;
use swarm_transport::capacity::OUTBOUND_DATA_RESERVED_TRANSFERS;
use swarm_transport::capacity::OUTBOUND_DATA_TRANSFER_CAPACITY;
use swarm_transport::capacity::OUTBOUND_GLOBAL_BYTE_CAPACITY;
use swarm_transport::capacity::OUTBOUND_PEER_BYTE_CAPACITY;
use swarm_transport::capacity::OUTBOUND_TRANSFER_QUEUE_CAPACITY;
use swarm_transport::class::TransferClass;
use swarm_transport::class::CLASS_COUNT;
use swarm_transport::did::Did;
use swarm_transport::error::Error;
use swarm_transport::link_state::LinkControlBudget;
use swarm_transport::protection::ProtectionProfile;
use swarm_transport::reserved_capacity::admissible_capacity;
use swarm_transport::reserved_capacity::retained_wire_bytes;
use swarm_transport::reserved_capacity::ReservedCapacity;

#[test]
fn test_reserved_capacity_bound_holds_for_all_short_reserve_release_traces() {
    const CAPACITY: usize = 5;
    const RESERVATIONS: [usize; CLASS_COUNT] = [2, 1, 1, 1];
    const ACTIONS: usize = CLASS_COUNT * 2;
    const TRACE_LENGTH: u32 = 6;
    let trace_count = ACTIONS.pow(TRACE_LENGTH);

    for encoded in 0..trace_count {
        let mut code = encoded;
        let mut capacity = ReservedCapacity::new();
        let mut admitted_by_class = [0usize; CLASS_COUNT];
        for _ in 0..TRACE_LENGTH {
            let action = code % ACTIONS;
            code /= ACTIONS;
            let class_index = action % CLASS_COUNT;
            if action < CLASS_COUNT {
                if capacity.try_reserve(class_index, 1, CAPACITY, &RESERVATIONS) {
                    admitted_by_class[class_index] =
                        admitted_by_class[class_index].saturating_add(1);
                }
            } else if admitted_by_class[class_index] > 0 {
                capacity.release(class_index, 1);
                admitted_by_class[class_index] = admitted_by_class[class_index].saturating_sub(1);
            }
            assert_eq!(capacity.admitted(), admitted_by_class.iter().sum::<usize>());
            assert!(capacity.admitted() <= CAPACITY);
        }
    }
}

#[test]
fn test_class_reservation_ablation_changes_real_admission_limits() {
    let production = ProtectionProfile::production();
    assert!(
        transfer_limit(production, TransferClass::Application) < OUTBOUND_TRANSFER_QUEUE_CAPACITY
    );
    assert!(peer_byte_limit(production, TransferClass::Application) < OUTBOUND_PEER_BYTE_CAPACITY);

    let ablated = ProtectionProfile::without_class_reservations();
    assert_eq!(
        transfer_limit(ablated, TransferClass::Application),
        OUTBOUND_TRANSFER_QUEUE_CAPACITY
    );
    assert_eq!(
        peer_byte_limit(ablated, TransferClass::Application),
        OUTBOUND_PEER_BYTE_CAPACITY
    );
}

const INBOUND_FRAME_CAPACITY: usize = 64;
const LINK_CONTROL_IN_FLIGHT_CAPACITY: usize = 2 * INBOUND_FRAME_CAPACITY;

#[test]
fn test_link_control_budget_refuses_beyond_capacity_and_recovers_when_a_send_ends() {
    let mut budget = LinkControlBudget::new(INBOUND_FRAME_CAPACITY);
    let mut permits = (0..LINK_CONTROL_IN_FLIGHT_CAPACITY)
        .map(|_| budget.try_reserve().expect("within capacity"))
        .collect::<Vec<_>>();
    assert!(budget.try_reserve().is_none());
    budget.release(permits.pop().expect("a send is in flight"));
    let _readmitted = budget.try_reserve().expect("one send ended");
    assert!(budget.try_reserve().is_none());
    assert_eq!(budget.in_flight(), LINK_CONTROL_IN_FLIGHT_CAPACITY);
}

#[test]
fn transfer_capacity_is_strict_across_permit_lifetimes() {
    let mut global = GlobalTransferCapacity::new();
    let mut capacity = TransferCapacity::new(1, &global);
    let peer = Did::from_u32(7);
    let mut permits = Vec::with_capacity(OUTBOUND_TRANSFER_QUEUE_CAPACITY);
    for _ in 0..OUTBOUND_DATA_TRANSFER_CAPACITY {
        permits.push(
            capacity
                .try_acquire(&mut global, peer, TransferClass::Application, 1)
                .expect("non-control capacity must admit its declared bound"),
        );
    }

    assert!(matches!(
        capacity.try_acquire(&mut global, peer, TransferClass::Application, 1),
        Err(Error::OutboundTransferCapacityExceeded {
            peer: error_peer,
            capacity: OUTBOUND_DATA_TRANSFER_CAPACITY,
        }) if error_peer == peer
    ));
    for _ in 0..OUTBOUND_CONTROL_RESERVED_TRANSFERS {
        permits.push(
            capacity
                .try_acquire(&mut global, peer, TransferClass::DhtControl, 1)
                .expect("reserved control capacity must remain available"),
        );
    }
    for class in [TransferClass::Storage, TransferClass::E2e] {
        for _ in 0..OUTBOUND_DATA_RESERVED_TRANSFERS {
            permits.push(
                capacity
                    .try_acquire(&mut global, peer, class, 1)
                    .expect("every data class retains its reserved capacity"),
            );
        }
    }
    let control_limit = transfer_limit(ProtectionProfile::production(), TransferClass::DhtControl);
    assert!(matches!(
        capacity.try_acquire(&mut global, peer, TransferClass::DhtControl, 1),
        Err(Error::OutboundTransferCapacityExceeded {
            peer: error_peer,
            capacity,
        }) if error_peer == peer && capacity == control_limit
    ));
    let backpressure = Error::OutboundTransferCapacityExceeded {
        peer,
        capacity: OUTBOUND_TRANSFER_QUEUE_CAPACITY,
    };
    assert!(backpressure.is_deferrable_data_plane_send());
    assert!(!backpressure.records_peer_send_failure());
    let last = permits.pop().expect("permits are held");
    capacity.release(&mut global, last);
    assert!(capacity
        .try_acquire(&mut global, peer, TransferClass::E2e, 1)
        .is_ok());
}

#[test]
fn transfer_memory_capacity_is_weighted_and_released() {
    let mut global = GlobalTransferCapacity::new();
    let mut capacity = TransferCapacity::new(1, &global);
    let peer = Did::from_u32(9);
    let data_limit = peer_byte_limit(ProtectionProfile::production(), TransferClass::Application);
    let permit = capacity
        .try_acquire(&mut global, peer, TransferClass::Application, data_limit)
        .expect("one transfer may consume the non-control byte budget");

    assert_eq!(capacity.admitted_bytes(), data_limit);
    assert!(matches!(
        capacity.try_acquire(&mut global, peer, TransferClass::Application, 1),
        Err(Error::OutboundTransferMemoryCapacityExceeded {
            peer: error_peer,
            requested_bytes: 1,
            capacity_bytes,
        }) if error_peer == peer && capacity_bytes == data_limit
    ));
    capacity.release(&mut global, permit);
    assert_eq!(capacity.admitted_bytes(), 0);
    assert_eq!(global.admitted_bytes(), 0);
}

#[test]
fn test_reserved_outbound_request_bypasses_borrower_waiter() {
    let mut global = GlobalTransferCapacity::new();
    let mut capacity = TransferCapacity::new(1, &global);
    let mut unrelated_capacity = TransferCapacity::new(2, &global);
    let peer = Did::from_u32(90);
    let unrelated_peer = Did::from_u32(91);
    let blocker = capacity
        .try_acquire(
            &mut global,
            peer,
            TransferClass::Application,
            100 * 1024 * 1024,
        )
        .expect("blocker must fit");

    let large = capacity.acquire(&mut global, peer, TransferClass::Storage, 120 * 1024 * 1024);
    let AcquireProgress::AwaitingPeer(ticket) = large else {
        panic!("a large request beside the blocker must wait for its peer");
    };
    for _ in 0..OUTBOUND_CONTROL_RESERVED_TRANSFERS {
        let reserved = capacity.acquire(&mut global, peer, TransferClass::DhtControl, 1);
        assert!(
            matches!(reserved, AcquireProgress::Acquired(_)),
            "control requests within their reservation must bypass"
        );
    }
    assert!(matches!(
        capacity.acquire(&mut global, peer, TransferClass::DhtControl, 1),
        AcquireProgress::Refused(_)
    ));
    assert!(matches!(
        unrelated_capacity.acquire(
            &mut global,
            unrelated_peer,
            TransferClass::Application,
            2 * 1024 * 1024
        ),
        AcquireProgress::Acquired(_)
    ));
    capacity.release(&mut global, blocker);
    assert!(matches!(
        capacity.resume(
            &mut global,
            ticket,
            peer,
            TransferClass::Storage,
            120 * 1024 * 1024
        ),
        AcquireProgress::Acquired(_)
    ));
}

#[test]
fn test_global_borrowers_are_fifo_while_reserved_control_bypasses() {
    const BLOCKER_BYTES: usize = (OUTBOUND_GLOBAL_BYTE_CAPACITY - 16 * 1024 * 1024) / 2;
    let mut global = GlobalTransferCapacity::new();
    let mut first = TransferCapacity::new(1, &global);
    let mut second = TransferCapacity::new(2, &global);
    let mut waiting = TransferCapacity::new(3, &global);
    let mut later = TransferCapacity::new(4, &global);
    let mut control = TransferCapacity::new(5, &global);
    let first_blocker = first
        .try_acquire(
            &mut global,
            Did::from_u32(101),
            TransferClass::Application,
            BLOCKER_BYTES,
        )
        .expect("first global blocker must fit");
    let _second_blocker = second
        .try_acquire(
            &mut global,
            Did::from_u32(102),
            TransferClass::Application,
            BLOCKER_BYTES,
        )
        .expect("second global blocker must fit");
    let AcquireProgress::AwaitingNode(front, _) = waiting.acquire(
        &mut global,
        Did::from_u32(103),
        TransferClass::Storage,
        20 * 1024 * 1024,
    ) else {
        panic!("the first borrower must wait for the node");
    };
    let AcquireProgress::AwaitingNode(behind, _) = later.acquire(
        &mut global,
        Did::from_u32(104),
        TransferClass::E2e,
        8 * 1024 * 1024,
    ) else {
        panic!("the second borrower must wait behind the first");
    };
    assert!(matches!(
        control.acquire(
            &mut global,
            Did::from_u32(105),
            TransferClass::DhtControl,
            1
        ),
        AcquireProgress::Acquired(_)
    ));
    first.release(&mut global, first_blocker);
    assert!(global
        .resume(
            behind,
            Did::from_u32(104),
            TransferClass::E2e,
            8 * 1024 * 1024
        )
        .is_none());
    assert!(global
        .resume(
            front,
            Did::from_u32(103),
            TransferClass::Storage,
            20 * 1024 * 1024
        )
        .is_some());
    assert!(global
        .resume(
            behind,
            Did::from_u32(104),
            TransferClass::E2e,
            8 * 1024 * 1024
        )
        .is_some());
}

#[test]
fn test_shared_wait_budget_bounds_payloads_outside_admitted_capacity() {
    const HEADROOM_BYTES: usize = 16 * 1024 * 1024;
    const WAIT_BYTES: usize = 20 * 1024 * 1024;
    let mut global = GlobalTransferCapacity::new();
    let mut first = TransferCapacity::new(1, &global);
    let mut second = TransferCapacity::new(2, &global);
    let blocker_bytes = (OUTBOUND_GLOBAL_BYTE_CAPACITY - HEADROOM_BYTES) / 2;
    let _first_blocker = first
        .try_acquire(
            &mut global,
            Did::from_u32(201),
            TransferClass::Application,
            blocker_bytes,
        )
        .expect("first global blocker must fit");
    let _second_blocker = second
        .try_acquire(
            &mut global,
            Did::from_u32(202),
            TransferClass::Application,
            blocker_bytes,
        )
        .expect("second global blocker must fit");
    let waiter_count = OUTBOUND_GLOBAL_BYTE_CAPACITY / WAIT_BYTES;
    let mut capacities = (0..=waiter_count)
        .map(|index| TransferCapacity::new(10 + index as u64, &global))
        .collect::<Vec<_>>();
    for (index, capacity) in capacities.iter_mut().take(waiter_count).enumerate() {
        let peer = Did::from_u32(
            300_u32 + u32::try_from(index).expect("waiter index must fit in u32"),
        );
        assert!(matches!(
            capacity.acquire(&mut global, peer, TransferClass::Storage, WAIT_BYTES),
            AcquireProgress::AwaitingNode(_, _)
        ));
    }
    let overflow_capacity = capacities.last_mut().expect("overflow capacity must exist");
    assert!(matches!(
        overflow_capacity.acquire(
            &mut global,
            Did::from_u32(400),
            TransferClass::Storage,
            WAIT_BYTES
        ),
        AcquireProgress::Refused(Error::OutboundTransferMemoryCapacityExceeded { .. })
    ));
}

#[test]
fn impossible_memory_requests_are_refused_before_they_wait() {
    let production = ProtectionProfile::production();
    let peer = Did::from_u32(5);
    let limit = peer_byte_limit(production, TransferClass::Application);
    assert!(validate_memory_request(production, peer, TransferClass::Application, limit).is_ok());
    assert!(matches!(
        validate_memory_request(production, peer, TransferClass::Application, limit + 1),
        Err(Error::OutboundTransferMemoryCapacityExceeded { requested_bytes, capacity_bytes, .. })
            if requested_bytes == limit + 1 && capacity_bytes == limit
    ));
    assert!(global_byte_limit(production, TransferClass::Application) >= limit);
}

#[test]
fn admission_takes_a_reservation_at_once_and_shared_capacity_only_behind_nobody() {
    assert!(admits_now(false, true, false));
    assert!(admits_now(true, false, true));
    assert!(!admits_now(false, false, true));
    assert!(!admits_now(true, false, false));
}

#[test]
fn admissible_share_leaves_the_reservations_of_the_other_classes() {
    let reservations = [2, 1, 1, 1];
    assert_eq!(admissible_capacity(10, &reservations, 0), 7);
    assert_eq!(admissible_capacity(10, &reservations, 3), 6);
    assert_eq!(admissible_capacity(2, &reservations, 3), 0);
    assert_eq!(retained_wire_bytes(21), 42);
    assert_eq!(retained_wire_bytes(usize::MAX), usize::MAX);
}

#[test]
fn channel_stamp_is_drained_by_what_was_ahead_and_not_by_arrivals() {
    let mut global = GlobalTransferCapacity::new();
    let mut capacity = TransferCapacity::new(1, &global);
    let peer = Did::from_u32(3);
    let acquire = |capacity: &mut TransferCapacity, global: &mut GlobalTransferCapacity| {
        let mut permit = capacity
            .try_acquire(global, peer, TransferClass::Application, 8)
            .expect("an idle peer has room");
        permit.mark_reached_link();
        permit
    };
    let first = acquire(&mut capacity, &mut global);
    let second = acquire(&mut capacity, &mut global);
    let stamp = PeerStamp::of(Some(&capacity));
    let arrival = acquire(&mut capacity, &mut global);

    capacity.release(&mut global, first);
    assert!(!stamp.progress(Some(&capacity)).drained);
    capacity.release(&mut global, second);
    let progress = stamp.progress(Some(&capacity));
    assert!(progress.drained);
    assert!(!progress.idle);
    capacity.release(&mut global, arrival);
    assert!(stamp.progress(Some(&capacity)).idle);
    let gone = stamp.progress(None);
    assert!(gone.drained && gone.idle);
}

#[test]
fn refused_send_that_never_reached_the_link_drains_nothing() {
    let mut global = GlobalTransferCapacity::new();
    let mut capacity = TransferCapacity::new(1, &global);
    let peer = Did::from_u32(3);
    let mut ahead = capacity
        .try_acquire(&mut global, peer, TransferClass::Application, 8)
        .expect("an idle peer has room");
    ahead.mark_reached_link();
    let refused = capacity
        .try_acquire(&mut global, peer, TransferClass::Application, 8)
        .expect("a second transfer fits");
    capacity.release(&mut global, refused);
    let stamp = PeerStamp::of(Some(&capacity));
    assert!(!stamp.progress(Some(&capacity)).drained);
    capacity.release(&mut global, ahead);
    assert!(stamp.progress(Some(&capacity)).drained);
}

#[test]
fn room_is_what_would_be_admitted_now() {
    let mut global = GlobalTransferCapacity::new();
    let mut capacity = TransferCapacity::new(1, &global);
    let peer = Did::from_u32(4);
    let demand = TransferDemand::new(TransferClass::Application, 1024);
    assert!(TransferCapacity::has_room_unheld(&global, peer, demand));
    assert!(capacity.has_room(&global, peer, demand));
    let mut permits = Vec::new();
    while let Ok(permit) = capacity.try_acquire(&mut global, peer, TransferClass::Application, 1) {
        permits.push(permit);
    }
    assert_eq!(permits.len(), OUTBOUND_DATA_TRANSFER_CAPACITY);
    assert!(!capacity.has_room(&global, peer, demand));
    capacity.release(&mut global, permits.pop().expect("a permit is held"));
    assert!(capacity.has_room(&global, peer, demand));
}

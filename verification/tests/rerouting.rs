//! Rerouting: attempts, refusals, waits and their budget.

use swarm_transport::admission::DetachedAdmission;
use swarm_transport::capacity::PeerProgress;
use swarm_transport::capacity::TransferDemand;
use swarm_transport::class::SendCompletionOutcome;
use swarm_transport::class::TransferClass;
use swarm_transport::did::Did;
use swarm_transport::error::DeferralCause;
use swarm_transport::error::Error;
use swarm_transport::error::SendDeferral;
use swarm_transport::payload_send::DetachedSend;
use swarm_transport::payload_send::PayloadAction;
use swarm_transport::payload_send::PayloadEvent;
use swarm_transport::rerouting::Attempts;
use swarm_transport::rerouting::Awaiting;
use swarm_transport::rerouting::LinkHop;
use swarm_transport::rerouting::LinkRoute;
use swarm_transport::rerouting::Observation;
use swarm_transport::rerouting::PlacementStep;
use swarm_transport::rerouting::QUIESCENT_DEFERRALS;
use swarm_transport::rerouting::REPLACEMENT_DEFERRALS;
use swarm_transport::rerouting::REROUTING_BUDGET;
use swarm_transport::rerouting::Rerouting;
use swarm_transport::rerouting::Step;
use swarm_transport::rerouting::Verdict;
use swarm_transport::rerouting::WaitStep;
use swarm_transport::rerouting::after_attempt;
use swarm_transport::rerouting::wait_step;

fn demand() -> TransferDemand {
    TransferDemand::new(TransferClass::Application, 1)
}

/// The deferral of a send to `hop` refused because its generation was superseded.
fn superseded(hop: Did, generation: u64) -> Verdict {
    Verdict::remote(
        hop,
        Some(generation),
        demand(),
        Err(Error::ConnectionAttemptSuperseded {
            peer: hop,
            generation,
        }),
    )
}

/// An awaiting state for `hop` under generation `1`, deferred by `cause`.
fn awaiting(hop: Did, cause: SendDeferral) -> Awaiting {
    Awaiting {
        deferrals: 1,
        hop,
        generation: Some(1),
        demand: demand(),
        cause,
    }
}

/// The deferral `error` classifies into.
fn deferral(error: Error) -> SendDeferral {
    match SendDeferral::refused(error) {
        Ok(cause) => cause,
        Err(error) => panic!("{error:?} must defer"),
    }
}

/// A route through `hop` under `generation`.
fn through(hop: Did, generation: u64, usable: bool) -> LinkRoute {
    LinkRoute::Remote(LinkHop {
        hop,
        generation: Some(generation),
        usable,
    })
}

/// An observation of `room` and the hop's peer progress.
fn observed(room: bool, drained: bool, idle: bool) -> Observation {
    Observation {
        room,
        peer: PeerProgress { drained, idle },
    }
}

#[test]
fn test_budget_bounds_deferrals_and_exhaustion_carries_the_last_cause() {
    let hop = Did::from_u32(7);
    let mut rerouting = Rerouting::start();
    for generation in 1..=u64::from(REROUTING_BUDGET) {
        let Step::Await(awaiting) = rerouting.after(superseded(hop, generation)) else {
            panic!("deferral {generation} is within budget");
        };
        rerouting = awaiting.resume();
    }
    let last = u64::from(REROUTING_BUDGET) + 1;
    let Step::Fail(Error::ReroutingExhausted { last: cause }) =
        rerouting.after(superseded(hop, last))
    else {
        panic!("the deferral past the budget exhausts");
    };
    assert!(matches!(
        cause.cause(),
        DeferralCause::Refused(error)
            if matches!(**error, Error::ConnectionAttemptSuperseded { peer, generation }
                if peer == hop && generation == last)
    ));
    assert_eq!(REROUTING_BUDGET, REPLACEMENT_DEFERRALS + QUIESCENT_DEFERRALS);
}

#[test]
fn test_only_a_pre_acceptance_refusal_awaits() {
    let hop = Did::from_u32(7);
    assert!(matches!(
        Rerouting::start().after(Verdict::Accepted),
        Step::Complete
    ));
    let ambiguous = Error::DetachedSendAbandonedAfterClaim { peer: hop };
    assert!(matches!(
        Rerouting::start().after(Verdict::remote(hop, Some(1), demand(), Err(ambiguous))),
        Step::Fail(Error::DetachedSendAbandonedAfterClaim { .. })
    ));
}

#[test]
fn test_triggers_wake_on_their_events_and_route_moves_only() {
    let hop = Did::from_u32(7);
    let moved = through(Did::from_u32(8), 1, false);

    let link = awaiting(hop, SendDeferral::cancelled(hop));
    assert!(!link.is_triggered(through(hop, 1, false), observed(true, true, true)));
    assert!(link.is_triggered(through(hop, 1, true), observed(false, false, false)));
    assert!(link.is_triggered(moved, observed(false, false, false)));
    assert!(link.is_triggered(LinkRoute::Local, observed(false, false, false)));

    let capacity = awaiting(
        hop,
        deferral(Error::OutboundTransferCapacityExceeded {
            peer: hop,
            capacity: 1,
        }),
    );
    // Releases that leave no room (another scope, or too little) do not wake it.
    assert!(!capacity.is_triggered(through(hop, 1, true), observed(false, true, true)));
    assert!(capacity.is_triggered(through(hop, 1, true), observed(true, false, false)));
    assert!(capacity.is_triggered(moved, observed(false, false, false)));

    let drain = awaiting(
        hop,
        deferral(Error::DataChannelSendQueueTimeout {
            peer: hop,
            timeout_ms: 1,
            bytes: 1,
            context: "test",
        }),
    );
    assert!(!drain.is_triggered(through(hop, 1, true), observed(true, false, false)));
    assert!(drain.is_triggered(through(hop, 1, true), observed(false, true, false)));
    assert!(drain.is_triggered(through(hop, 1, true), observed(false, false, true)));
    assert!(drain.is_triggered(through(hop, 2, true), observed(false, false, false)));
    assert!(drain.is_triggered(moved, observed(false, false, false)));
}

#[test]
fn a_single_attempt_never_waits() {
    let hop = Did::from_u32(7);
    assert!(matches!(
        after_attempt(Attempts::Single, Rerouting::start(), superseded(hop, 1)),
        PlacementStep::Finish(Err(Error::SingleAttemptRefused { .. }))
    ));
    assert!(matches!(
        after_attempt(Attempts::Single, Rerouting::start(), Verdict::Accepted),
        PlacementStep::Finish(Ok(()))
    ));
    assert!(matches!(
        after_attempt(Attempts::Rerouted, Rerouting::start(), superseded(hop, 1)),
        PlacementStep::Wait(Awaiting { deferrals: 1, .. })
    ));
    assert!(matches!(
        Verdict::local(Err(Error::LockPoisoned)).single(),
        Err(Error::LockPoisoned)
    ));
}

#[test]
fn a_cancelled_send_is_a_refusal_and_a_succeeded_one_is_accepted() {
    let hop = Did::from_u32(7);
    assert!(matches!(
        Verdict::remote(
            hop,
            Some(1),
            demand(),
            Ok(SendCompletionOutcome::Cancelled)
        ),
        Verdict::Deferred { .. }
    ));
    assert!(matches!(
        Verdict::remote(
            hop,
            Some(1),
            demand(),
            Ok(SendCompletionOutcome::Succeeded)
        ),
        Verdict::Accepted
    ));
}

#[test]
fn a_stop_is_observed_before_the_trigger() {
    let hop = Did::from_u32(7);
    let link = awaiting(hop, SendDeferral::cancelled(hop));
    let woken = observed(false, false, false);
    assert!(matches!(
        wait_step(&link, true, LinkRoute::Local, woken),
        WaitStep::Stopped(Error::ReroutingStopped)
    ));
    assert!(matches!(
        wait_step(&link, false, LinkRoute::Local, woken),
        WaitStep::Attempt
    ));
    assert!(matches!(
        wait_step(&link, false, through(hop, 1, false), woken),
        WaitStep::Listen
    ));
    let listened = link.listens_for();
    assert!(listened.topology && listened.link && !listened.room && !listened.channel);
}

#[test]
fn a_lost_worker_defers_only_an_unclaimed_send() {
    let hop = Did::from_u32(7);
    for claimed in [false, true] {
        let mut admission = DetachedAdmission::new();
        if claimed {
            assert!(admission.try_mark_irrevocable().is_some());
        }
        let mut send = DetachedSend::new(hop, 30, 7);
        let told = match send.next_action::<u8>(
            &mut admission,
            PayloadEvent::Sent(Ok(SendCompletionOutcome::Cancelled)),
        ) {
            PayloadAction::Finish(result, None) => result,
            _ => panic!("the send is over"),
        };
        let demand = TransferDemand::new(TransferClass::Storage, 10);
        match Verdict::remote(hop, Some(3), demand, told) {
            Verdict::Deferred { .. } => {
                assert!(!claimed);
                assert!(admission.try_mark_irrevocable().is_none());
            }
            Verdict::Failed(Error::DetachedSendAbandonedAfterClaim { peer }) => {
                assert!(claimed);
                assert_eq!(peer, hop);
            }
            _ => panic!("a cancelled send is not accepted"),
        }
    }
}

//! Connection generations: the registry against a model of it, and what its states mean.

use swarm_transport::did::Did;
use swarm_transport::error::Error;
use swarm_transport::pending::answer_slot;
use swarm_transport::pending::event_disposition;
use swarm_transport::pending::finger_candidate_admission;
use swarm_transport::pending::raw_connection_owner;
use swarm_transport::pending::AnswerSlot;
use swarm_transport::pending::ConnectionEventDisposition;
use swarm_transport::pending::FingerCandidateAdmission;
use swarm_transport::pending::RawConnectionOwner;
use swarm_transport::registry::ConnectionLifecycleRegistry;
use swarm_transport::registry::LifecycleBounds;
use swarm_transport::registry::PeerConnectionLifecycle;
use swarm_transport::registry::PendingConnectionAttempt;
use swarm_transport::registry::ReservationVerdict;
use swarm_transport::registry::RetirementOutcome;
use swarm_transport::registry::UnadmittedPhase;
use swarm_transport::registry::PENDING_CONNECTION_TIMEOUT_MS;

fn active(attempt: PendingConnectionAttempt) -> PeerConnectionLifecycle {
    PeerConnectionLifecycle::Active {
        attempt,
        announced: false,
    }
}

#[test]
fn test_event_disposition_is_defined_by_the_active_generation_only() {
    let peer = Did::from_u32(1);
    let source = PendingConnectionAttempt {
        peer,
        generation: 1,
    };
    let replacement = PendingConnectionAttempt {
        peer,
        generation: 2,
    };

    assert_eq!(
        event_disposition(None, source),
        ConnectionEventDisposition::Deliver
    );
    assert_eq!(
        event_disposition(
            Some(PeerConnectionLifecycle::Pending {
                attempt: replacement,
                started_at_ms: 0,
            }),
            source,
        ),
        ConnectionEventDisposition::Deliver
    );
    assert_eq!(
        event_disposition(
            Some(PeerConnectionLifecycle::Admitting {
                attempt: replacement,
                started_at_ms: 0,
            }),
            source,
        ),
        ConnectionEventDisposition::Deliver
    );
    assert_eq!(
        event_disposition(Some(active(replacement)), source),
        ConnectionEventDisposition::Suppress {
            active: replacement
        }
    );
    assert_eq!(
        event_disposition(Some(active(source)), source),
        ConnectionEventDisposition::Deliver
    );
}

#[test]
fn test_finger_candidate_admission_is_total_over_lifecycle_and_routability() {
    let peer = Did::from_u32(1);
    let attempt = PendingConnectionAttempt {
        peer,
        generation: 1,
    };
    let cases = [
        (None, false, FingerCandidateAdmission::Missing),
        (None, true, FingerCandidateAdmission::Missing),
        (
            Some(PeerConnectionLifecycle::Pending {
                attempt,
                started_at_ms: 0,
            }),
            false,
            FingerCandidateAdmission::Queue(attempt),
        ),
        (
            Some(PeerConnectionLifecycle::Pending {
                attempt,
                started_at_ms: 0,
            }),
            true,
            FingerCandidateAdmission::Queue(attempt),
        ),
        (
            Some(PeerConnectionLifecycle::Admitting {
                attempt,
                started_at_ms: 0,
            }),
            false,
            FingerCandidateAdmission::Queue(attempt),
        ),
        (
            Some(PeerConnectionLifecycle::Admitting {
                attempt,
                started_at_ms: 0,
            }),
            true,
            FingerCandidateAdmission::Queue(attempt),
        ),
        (
            Some(active(attempt)),
            false,
            FingerCandidateAdmission::Unroutable,
        ),
        (Some(active(attempt)), true, FingerCandidateAdmission::Apply),
    ];

    for (lifecycle, is_routable, expected) in cases {
        assert_eq!(finger_candidate_admission(lifecycle, is_routable), expected);
    }
}

#[derive(Clone, Copy, Debug, Eq, PartialEq)]
enum PeerLifecycle {
    Absent,
    Pending(u64),
    Admitting(u64),
    Active(u64),
}

#[derive(Clone, Copy, Debug, Eq, PartialEq)]
enum CallbackGeneration {
    Current,
    Previous,
}

#[derive(Clone, Copy, Debug, Eq, PartialEq)]
enum LifecycleAction {
    Reserve,
    BeginAdmission(CallbackGeneration),
    CommitAdmission(CallbackGeneration),
    Terminal(CallbackGeneration),
    Timeout,
}

#[derive(Clone, Copy, Debug, Eq, PartialEq)]
struct LifecycleView {
    peer: PeerLifecycle,
    dht_member: bool,
    transport_slot: bool,
    generation_exhausted: bool,
}

#[derive(Clone, Copy, Debug, Eq, PartialEq)]
struct LifecycleModel {
    peer: PeerLifecycle,
    next_generation: u64,
    previous_generation: Option<u64>,
    generation_exhausted: bool,
}

impl Default for LifecycleModel {
    fn default() -> Self {
        Self {
            peer: PeerLifecycle::Absent,
            next_generation: 0,
            previous_generation: None,
            generation_exhausted: false,
        }
    }
}

impl LifecycleModel {
    fn apply(mut self, action: LifecycleAction) -> Self {
        match action {
            LifecycleAction::Reserve => self.reserve(),
            LifecycleAction::BeginAdmission(callback) => self.begin_admission(callback),
            LifecycleAction::CommitAdmission(callback) => self.commit_admission(callback),
            LifecycleAction::Terminal(callback) => self.terminal(callback),
            LifecycleAction::Timeout => self.timeout(),
        }
        self
    }

    fn reserve(&mut self) {
        if !matches!(self.peer, PeerLifecycle::Absent) {
            return;
        }
        let Some(next_generation) = self.next_generation.checked_add(1) else {
            self.generation_exhausted = true;
            return;
        };
        self.next_generation = next_generation;
        self.peer = PeerLifecycle::Pending(next_generation);
    }

    fn begin_admission(&mut self, callback: CallbackGeneration) {
        let Some(callback_generation) = self.callback_generation(callback) else {
            return;
        };
        if self.peer == PeerLifecycle::Pending(callback_generation) {
            self.peer = PeerLifecycle::Admitting(callback_generation);
        }
    }

    fn commit_admission(&mut self, callback: CallbackGeneration) {
        let Some(callback_generation) = self.callback_generation(callback) else {
            return;
        };
        if self.peer == PeerLifecycle::Admitting(callback_generation) {
            self.peer = PeerLifecycle::Active(callback_generation);
        }
    }

    fn terminal(&mut self, callback: CallbackGeneration) {
        let Some(callback_generation) = self.callback_generation(callback) else {
            return;
        };
        if self.generation_matches_live_slot(callback_generation) {
            self.previous_generation = Some(callback_generation);
            self.peer = PeerLifecycle::Absent;
        }
    }

    fn timeout(&mut self) {
        match self.peer {
            PeerLifecycle::Pending(generation) | PeerLifecycle::Admitting(generation) => {
                self.previous_generation = Some(generation);
                self.peer = PeerLifecycle::Absent;
            }
            PeerLifecycle::Absent | PeerLifecycle::Active(_) => {}
        }
    }

    fn callback_generation(self, callback: CallbackGeneration) -> Option<u64> {
        match callback {
            CallbackGeneration::Current => self.current_generation(),
            CallbackGeneration::Previous => self.previous_generation,
        }
    }

    fn current_generation(self) -> Option<u64> {
        match self.peer {
            PeerLifecycle::Absent => None,
            PeerLifecycle::Pending(generation)
            | PeerLifecycle::Admitting(generation)
            | PeerLifecycle::Active(generation) => Some(generation),
        }
    }

    fn generation_matches_live_slot(self, generation: u64) -> bool {
        matches!(
            self.peer,
            PeerLifecycle::Pending(current)
                | PeerLifecycle::Admitting(current)
                | PeerLifecycle::Active(current)
                if current == generation
        )
    }

    fn view(self) -> LifecycleView {
        LifecycleView {
            peer: self.peer,
            dht_member: matches!(self.peer, PeerLifecycle::Active(_)),
            transport_slot: matches!(
                self.peer,
                PeerLifecycle::Pending(_) | PeerLifecycle::Admitting(_) | PeerLifecycle::Active(_)
            ),
            generation_exhausted: self.generation_exhausted,
        }
    }
}

struct LifecycleImplementation {
    peer: Did,
    lifecycles: ConnectionLifecycleRegistry,
    previous_attempt: Option<PendingConnectionAttempt>,
    dht_member: bool,
    transport_slot: bool,
    generation_exhausted: bool,
    now_ms: i64,
}

impl LifecycleImplementation {
    fn new(peer: Did) -> Self {
        Self {
            peer,
            lifecycles: ConnectionLifecycleRegistry::new(LifecycleBounds::new(1, 1)),
            previous_attempt: None,
            dht_member: false,
            transport_slot: false,
            generation_exhausted: false,
            now_ms: 0,
        }
    }

    fn with_next_generation(peer: Did, next_generation: u64) -> Self {
        let mut this = Self::new(peer);
        this.lifecycles.set_next_generation(next_generation);
        this
    }

    fn replay(peer: Did, trace: &[LifecycleAction]) -> Self {
        let mut this = Self::new(peer);
        for action in trace {
            this = this.apply(*action);
        }
        this
    }

    fn apply(mut self, action: LifecycleAction) -> Self {
        match action {
            LifecycleAction::Reserve => self.reserve(),
            LifecycleAction::BeginAdmission(callback) => self.begin_admission(callback),
            LifecycleAction::CommitAdmission(callback) => self.commit_admission(callback),
            LifecycleAction::Terminal(callback) => self.terminal(callback),
            LifecycleAction::Timeout => self.timeout(),
        }
        self
    }

    fn reserve(&mut self) {
        match self.lifecycles.reserve(self.peer, self.now_ms) {
            Ok(_) => {
                self.transport_slot = true;
                self.dht_member = false;
                self.now_ms += 1;
            }
            Err(Error::AlreadyConnected) => {}
            Err(Error::PendingConnectionGenerationExhausted) => {
                self.generation_exhausted = true;
            }
            Err(error) => panic!("unexpected pending reserve error: {error:?}"),
        }
    }

    fn begin_admission(&mut self, callback: CallbackGeneration) {
        let Some(attempt) = self.callback_attempt(callback) else {
            return;
        };
        if !self.lifecycles.begin_admission(attempt) {
            return;
        }
        self.transport_slot = true;
    }

    fn commit_admission(&mut self, callback: CallbackGeneration) {
        let Some(attempt) = self.callback_attempt(callback) else {
            return;
        };
        if !self.lifecycles.activate(attempt) {
            return;
        }
        self.dht_member = true;
        self.transport_slot = true;
    }

    fn terminal(&mut self, callback: CallbackGeneration) {
        let Some(attempt) = self.callback_attempt(callback) else {
            return;
        };
        let removed_pending = self.lifecycles.remove_unadmitted(attempt);
        let removed_active = self.lifecycles.remove_active(attempt);
        if !removed_pending && !removed_active {
            return;
        }
        self.previous_attempt = Some(attempt);
        self.dht_member = false;
        self.transport_slot = false;
    }

    fn timeout(&mut self) {
        let expired = self
            .lifecycles
            .expire(self.now_ms + PENDING_CONNECTION_TIMEOUT_MS);
        let Some(expired) = expired.into_iter().next() else {
            return;
        };
        self.previous_attempt = Some(expired.attempt);
        self.dht_member = false;
        self.transport_slot = false;
    }

    fn callback_attempt(&self, callback: CallbackGeneration) -> Option<PendingConnectionAttempt> {
        match callback {
            CallbackGeneration::Current => self
                .lifecycles
                .state(self.peer)
                .map(|state| state.attempt()),
            CallbackGeneration::Previous => self.previous_attempt,
        }
    }

    fn view(&self) -> LifecycleView {
        let peer = match self.lifecycles.state(self.peer) {
            Some(PeerConnectionLifecycle::Pending { attempt, .. }) => {
                PeerLifecycle::Pending(attempt.generation)
            }
            Some(PeerConnectionLifecycle::Admitting { attempt, .. }) => {
                PeerLifecycle::Admitting(attempt.generation)
            }
            Some(PeerConnectionLifecycle::Active { attempt, .. }) => {
                PeerLifecycle::Active(attempt.generation)
            }
            None => PeerLifecycle::Absent,
        };
        LifecycleView {
            peer,
            dht_member: self.dht_member,
            transport_slot: self.transport_slot,
            generation_exhausted: self.generation_exhausted,
        }
    }
}

impl LifecycleView {
    fn assert_invariants(self) {
        // Invariant: unfinished admission is a transport slot, never a Chord member.
        if matches!(
            self.peer,
            PeerLifecycle::Pending(_) | PeerLifecycle::Admitting(_)
        ) {
            assert!(
                !self.dht_member,
                "unadmitted peers must never be routable: {self:?}"
            );
        }
        assert_eq!(
            self.dht_member,
            matches!(self.peer, PeerLifecycle::Active(_)),
            "only admitted active peers may appear in DHT membership: {self:?}"
        );
        assert_eq!(
            self.transport_slot,
            matches!(
                self.peer,
                PeerLifecycle::Pending(_) | PeerLifecycle::Admitting(_) | PeerLifecycle::Active(_)
            ),
            "terminal and expiry transitions must remove the transport slot: {self:?}"
        );
    }
}

#[test]
fn test_pending_admission_model_preserves_generation_and_routing_invariants() {
    const MAX_DEPTH: usize = 6;
    let actions = [
        LifecycleAction::Reserve,
        LifecycleAction::BeginAdmission(CallbackGeneration::Current),
        LifecycleAction::BeginAdmission(CallbackGeneration::Previous),
        LifecycleAction::CommitAdmission(CallbackGeneration::Current),
        LifecycleAction::CommitAdmission(CallbackGeneration::Previous),
        LifecycleAction::Terminal(CallbackGeneration::Current),
        LifecycleAction::Terminal(CallbackGeneration::Previous),
        LifecycleAction::Timeout,
    ];
    let peer = Did::from_u32(1);

    explore(
        LifecycleModel::default(),
        peer,
        &mut Vec::new(),
        &actions,
        MAX_DEPTH,
    );
}

#[test]
fn test_pending_admission_model_and_registry_reject_generation_exhaustion_without_reuse() {
    let peer = Did::from_u32(1);
    let model = LifecycleModel {
        next_generation: u64::MAX,
        ..LifecycleModel::default()
    }
    .apply(LifecycleAction::Reserve);
    let implementation = LifecycleImplementation::with_next_generation(peer, u64::MAX)
        .apply(LifecycleAction::Reserve);

    assert_eq!(model.view(), implementation.view());
    assert_eq!(model.view().peer, PeerLifecycle::Absent);
    assert!(model.view().generation_exhausted);
    model.view().assert_invariants();
}

fn explore(
    model: LifecycleModel,
    peer: Did,
    trace: &mut Vec<LifecycleAction>,
    actions: &[LifecycleAction],
    remaining_depth: usize,
) {
    let implementation = LifecycleImplementation::replay(peer, trace);
    assert_eq!(model.view(), implementation.view());
    model.view().assert_invariants();
    if remaining_depth == 0 {
        return;
    }
    for action in actions.iter().copied() {
        trace.push(action);
        explore(
            model.apply(action),
            peer,
            trace,
            actions,
            remaining_depth - 1,
        );
        trace.pop();
    }
}

#[test]
fn reservation_bounds_refuse_in_order_of_their_causes() {
    let mut registry = ConnectionLifecycleRegistry::new(LifecycleBounds::new(1, 2));
    let first = registry.reserve(Did::from_u32(1), 0).expect("room");
    assert!(matches!(
        registry.reserve(Did::from_u32(1), 0),
        Err(Error::AlreadyConnected)
    ));
    assert!(matches!(
        registry.reserve(Did::from_u32(2), 0),
        Err(Error::PendingConnectionCapacityExceeded { capacity: 1 })
    ));
    assert!(registry.begin_admission(first));
    assert!(registry.activate(first));
    let second = registry.reserve(Did::from_u32(2), 0).expect("room");
    assert!(registry.promote(second));
    assert_eq!(
        registry.reservation_verdict(Did::from_u32(3)),
        ReservationVerdict::CapacityExceeded
    );
    assert!(registry
        .reservation_verdict(Did::from_u32(3))
        .needs_eviction());
    assert!(matches!(
        registry.reserve(Did::from_u32(3), 0),
        Err(Error::ConnectionCapacityExceeded { capacity: 2 })
    ));
    assert!(registry.remove_active(second));
    let third = registry.reserve(Did::from_u32(3), 0).expect("room");
    assert_eq!(third.generation(), 3);
}

#[test]
fn send_terminal_generation_is_admitted_and_not_sendable() {
    let mut registry = ConnectionLifecycleRegistry::new(LifecycleBounds::new(2, 4));
    let peer = Did::from_u32(6);
    let attempt = registry.reserve(peer, 0).expect("room");
    assert!(!registry.mark_send_terminal(attempt));
    assert!(registry.promote(attempt));
    assert_eq!(registry.sendable_attempt(peer), Some(attempt));
    assert!(registry.mark_send_terminal(attempt));
    assert!(registry.is_send_terminal(attempt));
    assert_eq!(registry.sendable_attempt(peer), None);
    assert_eq!(registry.active_attempt(peer), Some(attempt));
    assert_eq!(registry.active_connections().len(), 0);
    assert_eq!(registry.admitted_connections().attempts(), vec![attempt]);
}

#[test]
fn retirement_is_announced_exactly_if_the_admission_was() {
    let mut registry = ConnectionLifecycleRegistry::new(LifecycleBounds::new(2, 4));
    let quiet = registry.reserve(Did::from_u32(1), 0).expect("room");
    assert!(registry.promote(quiet));
    let loud = registry.reserve(Did::from_u32(2), 0).expect("room");
    assert!(registry.promote(loud));
    assert!(registry.mark_announced(loud));
    assert_eq!(registry.announced_attempts(), vec![loud]);

    let declined = registry
        .retire_active_if(loud, |_| Ok(None::<()>))
        .expect("a declined retirement is no error");
    assert!(matches!(declined, RetirementOutcome::Declined));
    let failed = registry.retire_active_if(loud, |_| Err::<Option<()>, _>(Error::LockPoisoned));
    assert!(matches!(failed, Err(Error::LockPoisoned)));

    let outcome = registry
        .retire_active_if(loud, |active| Ok(Some(active.len())))
        .expect("the action commits");
    let (seen, witness) = outcome.retired().expect("the generation was active");
    assert_eq!(seen, 2);
    assert!(witness.announced_admission());
    let outcome = registry
        .retire_active_if(quiet, |_| Ok(Some(())))
        .expect("the action commits");
    let (_, witness) = outcome.retired().expect("the generation was active");
    assert!(!witness.announced_admission());
    assert!(matches!(
        registry.retire_active_if(quiet, |_| Ok(Some(()))),
        Ok(RetirementOutcome::Superseded)
    ));
}

#[test]
fn expiry_reports_the_phase_and_age_of_old_handshakes_only() {
    let mut registry = ConnectionLifecycleRegistry::new(LifecycleBounds::new(4, 4));
    let pending = registry.reserve(Did::from_u32(2), 10).expect("room");
    let admitting = registry.reserve(Did::from_u32(1), 10).expect("room");
    assert!(registry.begin_admission(admitting));
    let young = registry.reserve(Did::from_u32(3), 11).expect("room");
    let now_ms = 10 + PENDING_CONNECTION_TIMEOUT_MS;
    let reports = registry.expire(now_ms);
    assert_eq!(reports.len(), 2);
    assert_eq!(reports[0].attempt, admitting);
    assert_eq!(reports[0].phase, UnadmittedPhase::Admitting);
    assert_eq!(reports[0].age_ms, PENDING_CONNECTION_TIMEOUT_MS);
    assert_eq!(reports[1].attempt, pending);
    assert_eq!(reports[1].phase.as_str(), "pending");
    assert_eq!(registry.unadmitted_attempt(young.peer()), Some(young));
    assert_eq!(registry.pending_len(), 1);
    assert_eq!(registry.bounds().total(), 4);
}

#[test]
fn a_superseded_generation_owns_nothing() {
    let mut registry = ConnectionLifecycleRegistry::new(LifecycleBounds::new(2, 4));
    let peer = Did::from_u32(5);
    let old = registry.reserve(peer, 0).expect("room");
    assert!(registry.remove_pending(old));
    let new = registry.reserve(peer, 0).expect("room");
    assert!(new.generation() > old.generation());
    assert!(!registry.begin_admission(old));
    assert!(!registry.remove_unadmitted(old));
    assert!(!registry.remove_active(old));
    assert_eq!(registry.pending_attempt(peer), Some(new));
    assert!(old.is_with(peer));
}

#[test]
fn physical_connections_belong_to_their_record() {
    let peer = Did::from_u32(5);
    let attempt = PendingConnectionAttempt {
        peer,
        generation: 3,
    };
    let pending = Some(PeerConnectionLifecycle::Pending {
        attempt,
        started_at_ms: 0,
    });
    assert_eq!(raw_connection_owner(None), RawConnectionOwner::Orphan);
    assert_eq!(
        raw_connection_owner(pending),
        RawConnectionOwner::Pending(attempt)
    );
    assert_eq!(
        raw_connection_owner(Some(active(attempt))),
        RawConnectionOwner::Owned
    );
    assert_eq!(answer_slot(None, None), AnswerSlot::Vacant);
    assert_eq!(answer_slot(pending, None), AnswerSlot::Owned(attempt));
    assert_eq!(
        answer_slot(Some(active(attempt)), None),
        AnswerSlot::Owned(attempt)
    );
}

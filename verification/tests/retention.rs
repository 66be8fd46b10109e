//! Which admitted connections are kept, and which make room.

use swarm_transport::did::Did;
use swarm_transport::registry::PendingConnectionAttempt;
use swarm_transport::retention::eviction_order;
use swarm_transport::retention::lifecycle_bounds;
use swarm_transport::retention::order_peers_by_quality;
use swarm_transport::retention::Eviction;
use swarm_transport::retention::MeasuredPeer;
use swarm_transport::retention::RetentionCandidate;
use swarm_transport::retention::RetentionEvidence;
use swarm_transport::retention::UnreferencedRetirement;
use swarm_transport::retention::DEFAULT_FINGER_TABLE_SIZE;
use swarm_transport::retention::DEFAULT_PENDING_CONNECTION_CAPACITY;
use swarm_transport::retention::RETAINED_CONNECTIONS_PER_REFERENCE_SLOT;

const UNREFERENCED_CONNECTION_GRACE_MS: i64 = 30_000;

fn candidate(
    peer: Did,
    generation: u64,
    send_terminal: bool,
    evidence: Option<(i64, i64)>,
) -> RetentionCandidate {
    RetentionCandidate {
        attempt: PendingConnectionAttempt { peer, generation },
        send_terminal,
        evidence: evidence.map(|(age_ms, idle_ms)| RetentionEvidence { age_ms, idle_ms }),
    }
}

#[test]
fn test_bounds_grow_by_one_share_per_successor_slot_and_contain_the_handshake_share() {
    for successor_capacity in 0..8 {
        let bounds = lifecycle_bounds(successor_capacity);
        let next = lifecycle_bounds(successor_capacity + 1);
        assert_eq!(
            next.total() - bounds.total(),
            RETAINED_CONNECTIONS_PER_REFERENCE_SLOT
        );
        assert!(bounds.pending() <= bounds.total());
        assert!(
            bounds.total()
                >= RETAINED_CONNECTIONS_PER_REFERENCE_SLOT * (DEFAULT_FINGER_TABLE_SIZE + 1)
        );
    }
    assert_eq!(
        lifecycle_bounds(3).pending(),
        DEFAULT_PENDING_CONNECTION_CAPACITY
    );
    assert_eq!(lifecycle_bounds(3).total(), 328);
}

#[test]
fn test_eviction_order_keeps_referenced_young_and_unproven_peers() {
    let referenced_peer = Did::from_u32(11);
    let young = Did::from_u32(12);
    let unproven = Did::from_u32(13);
    let referenced = vec![referenced_peer];
    let old = Did::from_u32(14);

    let order = eviction_order(
        &vec![
            candidate(
                referenced_peer,
                1,
                false,
                Some((UNREFERENCED_CONNECTION_GRACE_MS * 4, 0)),
            ),
            candidate(
                young,
                2,
                false,
                Some((UNREFERENCED_CONNECTION_GRACE_MS - 1, 0)),
            ),
            candidate(unproven, 3, false, None),
            candidate(old, 4, false, Some((UNREFERENCED_CONNECTION_GRACE_MS, 0))),
        ],
        &referenced,
        UNREFERENCED_CONNECTION_GRACE_MS,
    );

    assert_eq!(
        order,
        vec![PendingConnectionAttempt {
            peer: old,
            generation: 4
        }]
    );
}

#[test]
fn test_eviction_order_ranks_dead_first_then_most_idle() {
    let dead_young = Did::from_u32(21);
    let old_but_active = Did::from_u32(22);
    let young_but_idle = Did::from_u32(23);
    let grace = UNREFERENCED_CONNECTION_GRACE_MS;

    let order = eviction_order(
        &vec![
            candidate(old_but_active, 1, false, Some((grace * 10, 1_000))),
            candidate(young_but_idle, 2, false, Some((grace, grace * 2))),
            candidate(dead_young, 3, true, Some((grace / 2, 0))),
        ],
        &Vec::new(),
        grace,
    );

    assert_eq!(
        order
            .into_iter()
            .map(|attempt| attempt.generation)
            .collect::<Vec<_>>(),
        vec![3, 2, 1]
    );
}

#[test]
fn test_eviction_order_is_stable_for_equal_ranks() {
    let mut peers = [33, 31, 32].map(Did::from_u32).to_vec();
    peers.sort();
    let candidates = peers
        .iter()
        .enumerate()
        .map(|(index, peer)| {
            candidate(
                *peer,
                index as u64,
                false,
                Some((UNREFERENCED_CONNECTION_GRACE_MS, 0)),
            )
        })
        .collect::<Vec<_>>();

    let order = eviction_order(
        &candidates.clone(),
        &Vec::new(),
        UNREFERENCED_CONNECTION_GRACE_MS,
    );

    assert_eq!(
        order,
        candidates
            .iter()
            .map(|candidate| candidate.attempt)
            .collect::<Vec<_>>()
    );
}

#[test]
fn eviction_tries_the_plan_in_order_and_retires_at_most_one() {
    let attempt = |generation| PendingConnectionAttempt {
        peer: Did::from_u32(generation as u32),
        generation,
    };
    let mut eviction = Eviction::new(vec![attempt(1), attempt(2), attempt(3)]);
    assert_eq!(eviction.candidate(), Some(attempt(1)));
    eviction.tried(UnreferencedRetirement::Referenced);
    assert_eq!(eviction.candidate(), Some(attempt(2)));
    eviction.tried(UnreferencedRetirement::Retired);
    assert_eq!(eviction.candidate(), None);
    assert_eq!(eviction.evicted(), Some(attempt(2)));

    let mut spent = Eviction::new(vec![attempt(4)]);
    spent.tried(UnreferencedRetirement::Superseded);
    assert_eq!(spent.candidate(), None);
    assert_eq!(spent.evicted(), None);
}

#[test]
fn quality_changes_only_the_order_of_candidates() {
    let measured = |peer, quality_rank| MeasuredPeer {
        peer: Did::from_u32(peer),
        quality_rank,
    };
    let ordered = order_peers_by_quality(&vec![
        measured(1, 2),
        measured(2, 0),
        measured(3, 2),
        measured(4, 1),
    ]);
    assert_eq!(ordered, [2, 4, 1, 3].map(Did::from_u32).to_vec());
}

//! Which admitted connection makes room for a newcomer.
//!
//! A connection may be evicted if no topology slot references its peer and it is dead or has
//! been there for the grace. Dead generations go first, then the most idle. One retirement is
//! enough: the registry asks for it only where one retirement is what stands between a newcomer
//! and admission.

use vstd::prelude::*;

use crate::did::Did;
use crate::registry::LifecycleBounds;
use crate::registry::PendingConnectionAttempt;
use crate::stable_order::goes_first;
use crate::stable_order::is_stable_order;
use crate::stable_order::stable_order;
use crate::stable_order::Ranked;

verus! {

/// Maximum number of peers that may be handshaking.
pub const DEFAULT_PENDING_CONNECTION_CAPACITY: usize = 32;

/// Finger slots of a node: one per bit of the ring.
pub const DEFAULT_FINGER_TABLE_SIZE: usize = 160;

/// Connections kept per topology reference slot: one for this node's reference, one for a peer
/// that references this node.
pub const RETAINED_CONNECTIONS_PER_REFERENCE_SLOT: usize = 2;

/// The connections a node with `successor_capacity` successor slots keeps.
pub open spec fn retained_total(successor_capacity: usize) -> int {
    let slots = if DEFAULT_FINGER_TABLE_SIZE + successor_capacity + 1 <= usize::MAX {
        DEFAULT_FINGER_TABLE_SIZE + successor_capacity + 1
    } else {
        usize::MAX as int
    };
    if slots * RETAINED_CONNECTIONS_PER_REFERENCE_SLOT <= usize::MAX {
        slots * RETAINED_CONNECTIONS_PER_REFERENCE_SLOT
    } else {
        usize::MAX as int
    }
}

/// The lifecycle bounds of a node with `successor_capacity` successor slots.
pub fn lifecycle_bounds(successor_capacity: usize) -> (bounds: LifecycleBounds)
    ensures
        bounds.records() == retained_total(successor_capacity),
        bounds.handshakes() == DEFAULT_PENDING_CONNECTION_CAPACITY,
{
    let reference_slots: usize = DEFAULT_FINGER_TABLE_SIZE.saturating_add(
        successor_capacity,
    ).saturating_add(1);
    let total: usize = reference_slots.saturating_add(reference_slots);
    LifecycleBounds::new(DEFAULT_PENDING_CONNECTION_CAPACITY, total)
}

/// What is known of an admitted generation that has a liveness record.
#[derive(Clone, Copy, Debug, PartialEq, Eq, Hash, Structural)]
pub struct RetentionEvidence {
    /// How long it has had a record.
    pub age_ms: i64,
    /// How long it has been silent.
    pub idle_ms: i64,
}

/// One admitted generation with the facts the eviction order ranks.
#[derive(Clone, Copy, Debug, PartialEq, Eq, Hash, Structural)]
pub struct RetentionCandidate {
    /// The generation.
    pub attempt: PendingConnectionAttempt,
    /// It accepts no new send.
    pub send_terminal: bool,
    /// What is known of it; without a record it is treated as within grace.
    pub evidence: Option<RetentionEvidence>,
}

impl RetentionCandidate {
    /// No slot references the peer, and the generation is dead or past `grace_ms`.
    pub open spec fn evictable(self, referenced: Seq<Did>, grace_ms: i64) -> bool {
        &&& !referenced.contains(self.attempt.peer)
        &&& self.send_terminal || (self.evidence is Some && self.evidence->0.age_ms >= grace_ms)
    }

    /// How long the peer has been silent, as far as is known.
    pub open spec fn silence(self) -> i64 {
        match self.evidence {
            Some(evidence) => evidence.idle_ms,
            None => 0,
        }
    }

    /// Whether the generation may be evicted.
    pub fn is_evictable(&self, referenced: &Vec<Did>, grace_ms: i64) -> (evictable: bool)
        ensures
            evictable == self.evictable(referenced@, grace_ms),
    {
        if contains_peer(referenced, self.attempt.peer) {
            return false;
        }
        self.send_terminal || match self.evidence {
            Some(evidence) => evidence.age_ms >= grace_ms,
            None => false,
        }
    }
}

/// Whether `peers` holds `peer`.
pub fn contains_peer(peers: &Vec<Did>, peer: Did) -> (found: bool)
    ensures
        found == peers@.contains(peer),
{
    let mut index: usize = 0;
    while index < peers.len()
        invariant
            index <= peers@.len(),
            forall|i: int| 0 <= i < index ==> #[trigger] peers@[i] != peer,
        decreases peers@.len() - index,
    {
        if peers[index] == peer {
            assert(peers@[index as int] == peer);
            return true;
        }
        index += 1;
    }
    false
}

impl Ranked for RetentionCandidate {
    /// Dead before live, then the longer silence first.
    open spec fn outranks(&self, other: &Self) -> bool {
        if self.send_terminal == other.send_terminal {
            self.silence() > other.silence()
        } else {
            self.send_terminal
        }
    }

    proof fn lemma_weak_order(a: &Self, b: &Self, c: &Self) {
    }

    fn goes_before(&self, other: &Self) -> (before: bool) {
        let silence: i64 = match self.evidence {
            Some(evidence) => evidence.idle_ms,
            None => 0,
        };
        let other_silence: i64 = match other.evidence {
            Some(evidence) => evidence.idle_ms,
            None => 0,
        };
        if self.send_terminal == other.send_terminal {
            silence > other_silence
        } else {
            self.send_terminal
        }
    }
}

/// Which candidates may be evicted.
pub open spec fn evictable_flags(
    candidates: Seq<RetentionCandidate>,
    referenced: Seq<Did>,
    grace_ms: i64,
) -> Seq<bool> {
    candidates.map_values(|candidate: RetentionCandidate| candidate.evictable(referenced, grace_ms))
}

/// `plan` lists the evictable candidates by rank, equals in the given order.
pub open spec fn is_eviction_plan(
    candidates: Seq<RetentionCandidate>,
    referenced: Seq<Did>,
    grace_ms: i64,
    plan: Seq<PendingConnectionAttempt>,
) -> bool {
    exists|order: Seq<usize>| #[trigger]
        is_stable_order(candidates, evictable_flags(candidates, referenced, grace_ms), order)
            && plan == order.map_values(|place: usize| candidates[place as int].attempt)
}

/// The evictable candidates, dead first, then the most idle, equals in the given order.
pub fn eviction_order(
    candidates: &Vec<RetentionCandidate>,
    referenced: &Vec<Did>,
    grace_ms: i64,
) -> (plan: Vec<PendingConnectionAttempt>)
    ensures
        is_eviction_plan(candidates@, referenced@, grace_ms, plan@),
{
    let mut kept: Vec<bool> = Vec::new();
    let mut index: usize = 0;
    while index < candidates.len()
        invariant
            index <= candidates@.len(),
            kept@.len() == index,
            forall|i: int|
                0 <= i < index ==> #[trigger] kept@[i] == candidates@[i].evictable(
                    referenced@,
                    grace_ms,
                ),
        decreases candidates@.len() - index,
    {
        kept.push(candidates[index].is_evictable(referenced, grace_ms));
        index += 1;
    }
    proof {
        assert(kept@ =~= evictable_flags(candidates@, referenced@, grace_ms));
    }
    let order = stable_order(candidates, &kept);
    let mut plan: Vec<PendingConnectionAttempt> = Vec::new();
    let mut place: usize = 0;
    while place < order.len()
        invariant
            place <= order@.len(),
            is_stable_order(candidates@, kept@, order@),
            plan@ == order@.take(place as int).map_values(
                |place: usize| candidates@[place as int].attempt,
            ),
        decreases order@.len() - place,
    {
        let chosen: usize = order[place];
        plan.push(candidates[chosen].attempt);
        proof {
            assert(order@.take(place as int + 1) =~= order@.take(place as int).push(chosen));
            assert(plan@ =~= order@.take(place as int + 1).map_values(
                |place: usize| candidates@[place as int].attempt,
            ));
        }
        place += 1;
    }
    proof {
        assert(order@.take(place as int) =~= order@);
    }
    plan
}

/// What became of one planned eviction.
#[derive(Clone, Copy, Debug, PartialEq, Eq, Hash, Structural)]
pub enum UnreferencedRetirement {
    /// The topology references the peer by now; it stays.
    Referenced,
    /// The generation is no longer the active one.
    Superseded,
    /// The connection was retired.
    Retired,
}

/// The walk over an eviction plan.
#[derive(Debug)]
pub struct Eviction {
    plan: Vec<PendingConnectionAttempt>,
    tried: usize,
    evicted: Option<PendingConnectionAttempt>,
}

impl Eviction {
    /// The planned evictions, in order.
    pub closed spec fn planned(&self) -> Seq<PendingConnectionAttempt> {
        self.plan@
    }

    /// How many of them were tried.
    pub closed spec fn attempts(&self) -> nat {
        self.tried as nat
    }

    /// The connection that was retired.
    pub closed spec fn victim(&self) -> Option<PendingConnectionAttempt> {
        self.evicted
    }

    /// No more was tried than was planned.
    pub open spec fn wf(&self) -> bool {
        self.attempts() <= self.planned().len()
    }

    /// Start on `plan`.
    pub fn new(plan: Vec<PendingConnectionAttempt>) -> (eviction: Self)
        ensures
            eviction.wf(),
            eviction.planned() == plan@,
            eviction.attempts() == 0,
            eviction.victim() is None,
    {
        Eviction { plan, tried: 0, evicted: None }
    }

    /// The connection to try now: none once one was retired, or the plan is spent.
    pub fn candidate(&self) -> (candidate: Option<PendingConnectionAttempt>)
        requires
            self.wf(),
        ensures
            candidate == (if self.victim() is None && self.attempts() < self.planned().len() {
                Some(self.planned()[self.attempts() as int])
            } else {
                None
            }),
    {
        if self.evicted.is_none() && self.tried < self.plan.len() {
            Some(self.plan[self.tried])
        } else {
            None
        }
    }

    /// Note what became of the connection that was tried.
    pub fn tried(&mut self, outcome: UnreferencedRetirement)
        requires
            old(self).wf(),
            old(self).victim() is None,
            old(self).attempts() < old(self).planned().len(),
        ensures
            final(self).wf(),
            final(self).planned() == old(self).planned(),
            final(self).attempts() == old(self).attempts() + 1,
            final(self).victim() == (if outcome == UnreferencedRetirement::Retired {
                Some(old(self).planned()[old(self).attempts() as int])
            } else {
                None
            }),
    {
        let planned: usize = self.plan.len();
        assert(self.tried < planned);
        if outcome == UnreferencedRetirement::Retired {
            self.evicted = Some(self.plan[self.tried]);
        }
        self.tried = self.tried + 1;
    }

    /// The connection that was retired.
    pub fn evicted(&self) -> (evicted: Option<PendingConnectionAttempt>)
        ensures
            evicted == self.victim(),
    {
        self.evicted
    }
}

/// Every planned eviction is of a peer that nothing references and whose generation is dead or
/// past grace.
pub proof fn law_plans_spare_referenced_and_young_peers(
    candidates: Seq<RetentionCandidate>,
    referenced: Seq<Did>,
    grace_ms: i64,
    plan: Seq<PendingConnectionAttempt>,
    k: int,
)
    requires
        is_eviction_plan(candidates, referenced, grace_ms, plan),
        0 <= k < plan.len(),
    ensures
        exists|i: int|
            0 <= i < candidates.len() && (#[trigger] candidates[i]).attempt == plan[k]
                && candidates[i].evictable(referenced, grace_ms),
{
    let flags = evictable_flags(candidates, referenced, grace_ms);
    let order = choose|order: Seq<usize>| #[trigger]
        is_stable_order(candidates, flags, order) && plan == order.map_values(
            |place: usize| candidates[place as int].attempt,
        );
    let place = order[k] as int;
    assert(flags[place]);
    assert(candidates[place].attempt == plan[k]);
}

/// Every evictable candidate is planned, a dead one before every live one, and among equals of
/// that kind the longer silent first.
pub proof fn law_plans_rank_dead_then_idle(
    candidates: Seq<RetentionCandidate>,
    referenced: Seq<Did>,
    grace_ms: i64,
    order: Seq<usize>,
    k: int,
    l: int,
)
    requires
        is_stable_order(candidates, evictable_flags(candidates, referenced, grace_ms), order),
        0 <= k < l < order.len(),
    ensures
        ({
            let first = candidates[order[k] as int];
            let second = candidates[order[l] as int];
            &&& second.send_terminal ==> first.send_terminal
            &&& first.send_terminal == second.send_terminal ==> first.silence()
                >= second.silence()
            &&& first.send_terminal == second.send_terminal && first.silence() == second.silence()
                ==> order[k] < order[l]
        }),
{
    assert(goes_first(candidates, order[k] as int, order[l] as int));
}

/// Each further successor slot adds one share, and the handshakes always fit.
pub proof fn law_bounds_grow_by_one_share(successor_capacity: usize)
    requires
        (DEFAULT_FINGER_TABLE_SIZE + successor_capacity + 2)
            * RETAINED_CONNECTIONS_PER_REFERENCE_SLOT <= usize::MAX,
    ensures
        retained_total((successor_capacity + 1) as usize) - retained_total(successor_capacity)
            == RETAINED_CONNECTIONS_PER_REFERENCE_SLOT,
        retained_total(successor_capacity) >= RETAINED_CONNECTIONS_PER_REFERENCE_SLOT * (
        DEFAULT_FINGER_TABLE_SIZE + 1),
        retained_total(successor_capacity) >= DEFAULT_PENDING_CONNECTION_CAPACITY,
{
}

/// A connection candidate with the local judgement of its quality: the lower, the better.
#[derive(Clone, Copy, Debug, PartialEq, Eq, Hash, Structural)]
pub struct MeasuredPeer {
    /// The candidate.
    pub peer: Did,
    /// The place of its quality among the judgements.
    pub quality_rank: u32,
}

impl Ranked for MeasuredPeer {
    /// The better quality first.
    open spec fn outranks(&self, other: &Self) -> bool {
        self.quality_rank < other.quality_rank
    }

    proof fn lemma_weak_order(a: &Self, b: &Self, c: &Self) {
    }

    fn goes_before(&self, other: &Self) -> (before: bool) {
        self.quality_rank < other.quality_rank
    }
}

/// Every one of `count` places is kept.
pub open spec fn all_kept(count: nat) -> Seq<bool> {
    Seq::new(count, |i: int| true)
}

/// `ordered` is the stable permutation of `measured` by quality.
pub open spec fn is_ordered_by_quality(measured: Seq<MeasuredPeer>, ordered: Seq<Did>) -> bool {
    exists|order: Seq<usize>| #[trigger]
        is_stable_order(measured, all_kept(measured.len()), order) && ordered
            == order.map_values(|place: usize| measured[place as int].peer)
}

/// Order connection candidates by quality: a stable permutation, so only the order of attempts
/// changes.
pub fn order_peers_by_quality(measured: &Vec<MeasuredPeer>) -> (ordered: Vec<Did>)
    ensures
        is_ordered_by_quality(measured@, ordered@),
{
    let mut kept: Vec<bool> = Vec::new();
    while kept.len() < measured.len()
        invariant
            kept@.len() <= measured@.len(),
            forall|i: int| 0 <= i < kept@.len() ==> #[trigger] kept@[i],
        decreases measured@.len() - kept@.len(),
    {
        kept.push(true);
    }
    proof {
        assert(kept@ =~= all_kept(measured@.len()));
    }
    let order = stable_order(measured, &kept);
    let mut ordered: Vec<Did> = Vec::new();
    let mut place: usize = 0;
    while place < order.len()
        invariant
            place <= order@.len(),
            is_stable_order(measured@, kept@, order@),
            ordered@ == order@.take(place as int).map_values(
                |place: usize| measured@[place as int].peer,
            ),
        decreases order@.len() - place,
    {
        let chosen: usize = order[place];
        ordered.push(measured[chosen].peer);
        proof {
            assert(order@.take(place as int + 1) =~= order@.take(place as int).push(chosen));
            assert(ordered@ =~= order@.take(place as int + 1).map_values(
                |place: usize| measured@[place as int].peer,
            ));
        }
        place += 1;
    }
    proof {
        assert(order@.take(place as int) =~= order@);
    }
    ordered
}

/// A node keeps two connections per slot that may reference a peer: the 160 fingers, its successors
/// and its predecessor. It handshakes with at most 32 peers.
pub proof fn law_connections_are_kept_per_reference_slot(
    successor_capacity: usize,
    bounds: LifecycleBounds,
)
    requires
        2 * (160 + successor_capacity + 1) <= usize::MAX,
        call_ensures(lifecycle_bounds, (successor_capacity,), bounds),
    ensures
        bounds.records() == 2 * (160 + successor_capacity + 1),
        bounds.handshakes() == 32,
{
}

/// A connection may be evicted exactly if the topology does not reference its peer, and it accepts
/// no new send or has had a record for the whole grace.
pub proof fn law_evictable_is_unreferenced_and_dead_or_old(
    candidate: RetentionCandidate,
    referenced: Vec<Did>,
    grace_ms: i64,
    evictable: bool,
)
    requires
        call_ensures(
            RetentionCandidate::is_evictable,
            (&candidate, &referenced, grace_ms),
            evictable,
        ),
    ensures
        evictable <==> !referenced@.contains(candidate.attempt.peer) && (candidate.send_terminal
            || (candidate.evidence matches Some(evidence) && evidence.age_ms >= grace_ms)),
{
}

/// A plan lists exactly the connections that may be evicted.
pub proof fn law_plan_lists_the_evictable(
    candidates: Vec<RetentionCandidate>,
    referenced: Vec<Did>,
    grace_ms: i64,
    plan: Vec<PendingConnectionAttempt>,
    attempt: PendingConnectionAttempt,
)
    requires
        call_ensures(eviction_order, (&candidates, &referenced, grace_ms), plan),
    ensures
        plan@.contains(attempt) <==> exists|i: int|
            0 <= i < candidates@.len() && (#[trigger] candidates@[i]).attempt == attempt
                && !referenced@.contains(attempt.peer) && (candidates@[i].send_terminal || (
            candidates@[i].evidence matches Some(evidence) && evidence.age_ms >= grace_ms)),
{
    let flags = evictable_flags(candidates@, referenced@, grace_ms);
    let order = choose|order: Seq<usize>| #[trigger]
        is_stable_order(candidates@, flags, order) && plan@ == order.map_values(
            |place: usize| candidates@[place as int].attempt,
        );
    if plan@.contains(attempt) {
        let k = choose|k: int| 0 <= k < plan@.len() && plan@[k] == attempt;
        let place = order[k] as int;
        assert(flags[place]);
        assert(candidates@[place].attempt == attempt);
    }
    assert forall|i: int|
        0 <= i < candidates@.len() && (#[trigger] candidates@[i]).attempt == attempt
            && !referenced@.contains(attempt.peer) && (candidates@[i].send_terminal || (
        candidates@[i].evidence matches Some(evidence) && evidence.age_ms >= grace_ms)) implies
        plan@.contains(attempt) by {
        assert(flags[i]);
        let k = choose|k: int| 0 <= k < order.len() && #[trigger] order[k] == i;
        assert(plan@[k] == attempt);
    }
}

/// A plan lists the dead connections before the live ones, and each kind by its silence, the
/// longest first. A connection without a record counts as not silent.
pub proof fn law_plan_goes_by_death_then_silence(
    candidates: Vec<RetentionCandidate>,
    referenced: Vec<Did>,
    grace_ms: i64,
    plan: Vec<PendingConnectionAttempt>,
    k: int,
    l: int,
)
    requires
        call_ensures(eviction_order, (&candidates, &referenced, grace_ms), plan),
        0 <= k < l < plan@.len(),
    ensures
        exists|i: int, j: int|
            0 <= i < candidates@.len() && 0 <= j < candidates@.len() && i != j && (
            #[trigger] candidates@[i]).attempt == plan@[k] && (#[trigger] candidates@[j]).attempt
                == plan@[l] && (candidates@[j].send_terminal ==> candidates@[i].send_terminal) && (
            candidates@[i].send_terminal == candidates@[j].send_terminal ==> (
            match candidates@[j].evidence {
                Some(later) => match candidates@[i].evidence {
                    Some(earlier) => earlier.idle_ms >= later.idle_ms,
                    None => later.idle_ms <= 0,
                },
                None => match candidates@[i].evidence {
                    Some(earlier) => earlier.idle_ms >= 0,
                    None => true,
                },
            })),
{
    let flags = evictable_flags(candidates@, referenced@, grace_ms);
    let order = choose|order: Seq<usize>| #[trigger]
        is_stable_order(candidates@, flags, order) && plan@ == order.map_values(
            |place: usize| candidates@[place as int].attempt,
        );
    let i = order[k] as int;
    let j = order[l] as int;
    assert(goes_first(candidates@, i, j));
    assert(candidates@[i].attempt == plan@[k]);
    assert(candidates@[j].attempt == plan@[l]);
}

/// An eviction tries the planned connections in order, one after the other, until one is retired;
/// then it is over, and that one is the evicted one.
pub proof fn law_eviction_retires_one(
    begun: Eviction,
    plan: Vec<PendingConnectionAttempt>,
    eviction: Eviction,
    candidate: Option<PendingConnectionAttempt>,
    tried: &mut Eviction,
    outcome: UnreferencedRetirement,
    next: Option<PendingConnectionAttempt>,
    evicted: Option<PendingConnectionAttempt>,
)
    requires
        call_ensures(Eviction::new, (plan,), begun),
        eviction.wf(),
        eviction.victim() is None,
        call_ensures(Eviction::candidate, (&eviction,), candidate),
        candidate is Some,
        *old(tried) == eviction,
        call_ensures(Eviction::tried, (tried, outcome), ()),
        call_ensures(Eviction::candidate, (&*final(tried),), next),
        call_ensures(Eviction::evicted, (&*final(tried),), evicted),
    ensures
        begun.planned() == plan@ && begun.attempts() == 0 && begun.victim() is None,
        candidate == Some(eviction.planned()[eviction.attempts() as int]),
        outcome is Retired ==> evicted == candidate && next is None,
        !(outcome is Retired) ==> evicted is None && (next is Some <==> eviction.attempts() + 1
            < eviction.planned().len()) && (next is Some ==> next == Some(
            eviction.planned()[eviction.attempts() as int + 1],
        )),
{
}

/// Ordering by quality loses and adds nobody, and puts a better judged peer before a worse one.
pub proof fn law_peers_are_ordered_by_quality(
    measured: Vec<MeasuredPeer>,
    ordered: Vec<Did>,
    peer: Did,
    k: int,
    l: int,
)
    requires
        call_ensures(order_peers_by_quality, (&measured,), ordered),
        0 <= k < l < ordered@.len(),
    ensures
        ordered@.contains(peer) <==> exists|i: int|
            0 <= i < measured@.len() && (#[trigger] measured@[i]).peer == peer,
        exists|i: int, j: int|
            0 <= i < measured@.len() && 0 <= j < measured@.len() && i != j && (
            #[trigger] measured@[i]).peer == ordered@[k] && (#[trigger] measured@[j]).peer
                == ordered@[l] && measured@[i].quality_rank <= measured@[j].quality_rank && (
            measured@[i].quality_rank == measured@[j].quality_rank ==> i < j),
{
    let flags = all_kept(measured@.len());
    let order = choose|order: Seq<usize>| #[trigger]
        is_stable_order(measured@, flags, order) && ordered@ == order.map_values(
            |place: usize| measured@[place as int].peer,
        );
    if ordered@.contains(peer) {
        let at = choose|at: int| 0 <= at < ordered@.len() && ordered@[at] == peer;
        assert(measured@[order[at] as int].peer == peer);
    }
    assert forall|i: int|
        0 <= i < measured@.len() && (#[trigger] measured@[i]).peer == peer implies ordered@.contains(
        peer,
    ) by {
        assert(flags[i]);
        let at = choose|at: int| 0 <= at < order.len() && #[trigger] order[at] == i;
        assert(ordered@[at] == peer);
    }
    let i = order[k] as int;
    let j = order[l] as int;
    assert(goes_first(measured@, i, j));
    assert(measured@[i].peer == ordered@[k]);
    assert(measured@[j].peer == ordered@[l]);
}

} // verus!

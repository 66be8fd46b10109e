//! Registry of mutually exclusive pending, admitting and active connection generations.
//!
//! A peer without a record is absent. A present peer has exactly one generation in exactly one
//! phase. Reserving is the only transition that adds a record, and it checks both bounds; every
//! other transition keeps or shrinks the registry.

use vstd::prelude::*;
use vstd::set_lib::lemma_len_subset;

use crate::clock::elapsed_between;
use crate::clock::elapsed_ms;
use crate::did::Did;
use crate::error::Error;
use crate::ordered_map::OrderedKey;
use crate::ordered_map::OrderedMap;

verus! {

/// Maximum lifetime of a pending or admitting connection generation.
pub const PENDING_CONNECTION_TIMEOUT_MS: i64 = 180_000;

/// One handshake with a peer. A late callback of a replaced connection carries the old
/// generation and so cannot act on the new one.
#[derive(Clone, Copy, Debug, PartialEq, Eq, PartialOrd, Ord, Hash, Structural)]
pub struct PendingConnectionAttempt {
    /// The peer this generation connects to.
    pub peer: Did,
    /// The registry's number for this generation.
    pub generation: u64,
}

impl PendingConnectionAttempt {
    /// The peer this generation connects to.
    pub fn peer(self) -> (peer: Did)
        ensures
            peer == self.peer,
    {
        self.peer
    }

    /// Whether this generation is a handshake with `peer`.
    pub fn is_with(self, peer: Did) -> (with: bool)
        ensures
            with == (self.peer == peer),
    {
        self.peer == peer
    }

    /// The registry's number for this generation.
    pub fn generation(self) -> (generation: u64)
        ensures
            generation == self.generation,
    {
        self.generation
    }

    /// The error of an operation whose generation lost its slot.
    pub open spec fn superseded(self) -> Error {
        Error::ConnectionAttemptSuperseded { peer: self.peer, generation: self.generation }
    }
}

impl OrderedKey for PendingConnectionAttempt {
    open spec fn rank(self) -> nat {
        (self.peer.position() * 18446744073709551616int + self.generation) as nat
    }

    proof fn lemma_rank_injective(a: Self, b: Self) {
        Did::lemma_position_injective(a.peer, b.peer);
        Did::lemma_position_injective(b.peer, a.peer);
    }

    fn precedes(self, other: Self) -> (before: bool) {
        proof {
            Did::lemma_position_injective(self.peer, other.peer);
            Did::lemma_position_injective(other.peer, self.peer);
        }
        self.peer.precedes(other.peer) || (self.peer == other.peer && self.generation
            < other.generation)
    }
}

/// One live logical connection state for a peer.
#[derive(Clone, Copy, Debug, PartialEq, Eq, Hash, Structural)]
pub enum PeerConnectionLifecycle {
    /// Reserved; no data channel has opened.
    Pending { attempt: PendingConnectionAttempt, started_at_ms: i64 },
    /// The data channel opened; the admission has not committed.
    Admitting { attempt: PendingConnectionAttempt, started_at_ms: i64 },
    /// Admitted; `announced` says whether the application was told.
    Active { attempt: PendingConnectionAttempt, announced: bool },
}

impl PeerConnectionLifecycle {
    /// The generation in this state.
    pub open spec fn owner(self) -> PendingConnectionAttempt {
        match self {
            PeerConnectionLifecycle::Pending { attempt, .. } => attempt,
            PeerConnectionLifecycle::Admitting { attempt, .. } => attempt,
            PeerConnectionLifecycle::Active { attempt, .. } => attempt,
        }
    }

    /// When an unadmitted generation was reserved.
    pub open spec fn reserved_at(self) -> i64
        recommends
            !(self is Active),
    {
        match self {
            PeerConnectionLifecycle::Pending { started_at_ms, .. } => started_at_ms,
            PeerConnectionLifecycle::Admitting { started_at_ms, .. } => started_at_ms,
            PeerConnectionLifecycle::Active { .. } => arbitrary(),
        }
    }

    /// The generation in this state.
    pub fn attempt(self) -> (attempt: PendingConnectionAttempt)
        ensures
            attempt == self.owner(),
    {
        match self {
            PeerConnectionLifecycle::Pending { attempt, .. }
            | PeerConnectionLifecycle::Admitting { attempt, .. }
            | PeerConnectionLifecycle::Active { attempt, .. } => attempt,
        }
    }

    /// Whether the generation is still handshaking.
    pub fn is_unadmitted(self) -> (unadmitted: bool)
        ensures
            unadmitted == !(self is Active),
    {
        !matches!(self, PeerConnectionLifecycle::Active { .. })
    }
}

/// Witness that an admitted record was retired, carrying whether its admission was announced.
#[derive(Debug)]
pub struct Retirement {
    announced_admission: bool,
}

impl Retirement {
    /// The retired admission had been announced.
    pub closed spec fn announced(&self) -> bool {
        self.announced_admission
    }

    /// Whether the admission this retirement ends had been announced to the application.
    pub fn announced_admission(&self) -> (announced: bool)
        ensures
            announced == self.announced(),
    {
        self.announced_admission
    }
}

/// Outcome of a retirement.
#[derive(Debug)]
pub enum RetirementOutcome<T> {
    /// The generation no longer owned the active slot; nothing changed.
    Superseded,
    /// The deciding action kept the record; nothing changed.
    Declined,
    /// The record is gone; carries the action's value.
    Retired(T),
}

impl<T> RetirementOutcome<T> {
    /// The retired value, if the record was retired.
    pub fn retired(self) -> (value: Option<T>)
        ensures
            value == (match self {
                RetirementOutcome::Retired(value) => Some(value),
                _ => None,
            }),
    {
        match self {
            RetirementOutcome::Retired(value) => Some(value),
            RetirementOutcome::Superseded | RetirementOutcome::Declined => None,
        }
    }

    /// Whether the record was retired.
    pub fn is_retired(&self) -> (retired: bool)
        ensures
            retired == (self is Retired),
    {
        matches!(self, RetirementOutcome::Retired(_))
    }
}

/// The phase an unadmitted generation expired in.
#[derive(Clone, Copy, Debug, PartialEq, Eq, Hash, Structural)]
pub enum UnadmittedPhase {
    /// No data channel had opened.
    Pending,
    /// The admission had not committed.
    Admitting,
}

impl UnadmittedPhase {
    /// The phase's name.
    pub fn as_str(self) -> (name: &'static str)
        ensures
            name@ == match self {
                UnadmittedPhase::Pending => "pending"@,
                UnadmittedPhase::Admitting => "admitting"@,
            },
    {
        match self {
            UnadmittedPhase::Pending => "pending",
            UnadmittedPhase::Admitting => "admitting",
        }
    }
}

/// A generation that was not admitted within its lifetime.
#[derive(Clone, Copy, Debug, PartialEq, Eq, Hash, Structural)]
pub struct ExpiredUnadmittedPeer {
    /// The generation.
    pub attempt: PendingConnectionAttempt,
    /// How long ago it was reserved.
    pub age_ms: i64,
    /// The phase it was in.
    pub phase: UnadmittedPhase,
}

/// The report of `state` if it has outlived its handshake at `now_ms`.
pub open spec fn expiry_of(state: PeerConnectionLifecycle, now_ms: i64) -> Option<
    ExpiredUnadmittedPeer,
> {
    if state is Active || elapsed_between(now_ms, state.reserved_at())
        < PENDING_CONNECTION_TIMEOUT_MS {
        None
    } else {
        Some(
            ExpiredUnadmittedPeer {
                attempt: state.owner(),
                age_ms: elapsed_between(now_ms, state.reserved_at()) as i64,
                phase: if state is Pending {
                    UnadmittedPhase::Pending
                } else {
                    UnadmittedPhase::Admitting
                },
            },
        )
    }
}

/// The report of `state` if it has outlived its handshake at `now_ms`.
fn expired(state: PeerConnectionLifecycle, now_ms: i64) -> (report: Option<ExpiredUnadmittedPeer>)
    ensures
        report == expiry_of(state, now_ms),
{
    let (attempt, started_at_ms, phase) = match state {
        PeerConnectionLifecycle::Pending { attempt, started_at_ms } => (
            attempt,
            started_at_ms,
            UnadmittedPhase::Pending,
        ),
        PeerConnectionLifecycle::Admitting { attempt, started_at_ms } => (
            attempt,
            started_at_ms,
            UnadmittedPhase::Admitting,
        ),
        PeerConnectionLifecycle::Active { .. } => {
            return None;
        },
    };
    let age_ms: i64 = elapsed_ms(now_ms, started_at_ms);
    if age_ms >= PENDING_CONNECTION_TIMEOUT_MS {
        Some(ExpiredUnadmittedPeer { attempt, age_ms, phase })
    } else {
        None
    }
}

/// Read-only projection of admitted generations, by peer.
pub struct ActiveConnectionSet {
    attempts: OrderedMap<Did, PendingConnectionAttempt>,
}

impl ActiveConnectionSet {
    /// The generation of each peer.
    pub closed spec fn view(&self) -> Map<Did, PendingConnectionAttempt> {
        self.attempts@
    }

    /// The generations in identity order.
    pub closed spec fn listing(&self) -> Seq<(Did, PendingConnectionAttempt)> {
        self.attempts.listing()
    }

    /// Every peer is listed once, in identity order, with a generation of its own.
    pub closed spec fn wf(&self) -> bool {
        &&& self.attempts.wf()
        &&& forall|peer: Did| #[trigger]
            self.attempts@.contains_key(peer) ==> self.attempts@[peer].peer == peer
    }

    /// The generation of `peer`.
    pub fn attempt(&self, peer: Did) -> (attempt: Option<PendingConnectionAttempt>)
        requires
            self.wf(),
        ensures
            attempt == (if self@.contains_key(peer) {
                Some(self@[peer])
            } else {
                None
            }),
    {
        match self.attempts.get(peer) {
            Some(attempt) => Some(*attempt),
            None => None,
        }
    }

    /// How many generations the set holds.
    pub fn len(&self) -> (len: usize)
        requires
            self.wf(),
        ensures
            len == self@.dom().len(),
    {
        self.attempts.len()
    }

    /// Every generation, in identity order.
    pub fn attempts(&self) -> (attempts: Vec<PendingConnectionAttempt>)
        requires
            self.wf(),
        ensures
            lists_in_order(attempts@, self@),
    {
        let mut attempts: Vec<PendingConnectionAttempt> = Vec::new();
        let count: usize = self.attempts.len();
        let mut index: usize = 0;
        while index < count
            invariant
                index <= count == self.attempts.listing().len(),
                attempts@.len() == index,
                forall|i: int|
                    0 <= i < index ==> #[trigger] attempts@[i] == self.attempts.listing()[i].1,
            decreases count - index,
        {
            attempts.push(self.attempts.entry_at(index).1);
            index += 1;
        }
        proof {
            self.attempts.lemma_listing();
            let listing = self.attempts.listing();
            assert forall|i: int| 0 <= i < attempts@.len() implies self@.contains_pair(
                (#[trigger] attempts@[i]).peer,
                attempts@[i],
            ) by {
                assert(self.attempts@.contains_pair(listing[i].0, listing[i].1));
            }
            assert forall|i: int, j: int| 0 <= i < j < attempts@.len() implies (
            #[trigger] attempts@[i]).peer.rank() < (#[trigger] attempts@[j]).peer.rank() by {
                assert(self.attempts@.contains_pair(listing[i].0, listing[i].1));
                assert(self.attempts@.contains_pair(listing[j].0, listing[j].1));
                assert(listing[i].0.rank() < listing[j].0.rank());
            }
            assert forall|peer: Did| #[trigger] self@.contains_key(peer) implies exists|i: int|
                0 <= i < attempts@.len() && (#[trigger] attempts@[i]).peer == peer by {
                let i = choose|i: int| 0 <= i < listing.len() && (#[trigger] listing[i]).0 == peer;
                assert(self.attempts@.contains_pair(listing[i].0, listing[i].1));
                assert(attempts@[i].peer == peer);
            }
        }
        attempts
    }
}

/// `attempts` lists the generations of `admitted`, each once, in identity order.
pub open spec fn lists_in_order(
    attempts: Seq<PendingConnectionAttempt>,
    admitted: Map<Did, PendingConnectionAttempt>,
) -> bool {
    &&& forall|i: int|
        0 <= i < attempts.len() ==> admitted.contains_pair(
            (#[trigger] attempts[i]).peer,
            attempts[i],
        )
    &&& forall|i: int, j: int|
        0 <= i < j < attempts.len() ==> (#[trigger] attempts[i]).peer.rank() < (
        #[trigger] attempts[j]).peer.rank()
    &&& forall|peer: Did| #[trigger]
        admitted.contains_key(peer) ==> exists|i: int|
            0 <= i < attempts.len() && (#[trigger] attempts[i]).peer == peer
}

/// Cardinality bounds over the registry.
#[derive(Clone, Copy, Debug, PartialEq, Eq, Hash, Structural)]
pub struct LifecycleBounds {
    pending: usize,
    total: usize,
}

impl LifecycleBounds {
    /// Maximum peers still handshaking.
    pub closed spec fn handshakes(self) -> nat {
        self.pending as nat
    }

    /// Maximum peers in any phase.
    pub closed spec fn records(self) -> nat {
        self.total as nat
    }

    /// A handshake always fits inside the total.
    #[verifier::type_invariant]
    spec fn contained(self) -> bool {
        self.pending <= self.total
    }

    /// Bound the handshakes by `pending` and every phase by `total`, clamping the handshake
    /// share into the total.
    pub fn new(pending: usize, total: usize) -> (bounds: Self)
        ensures
            bounds.records() == total,
            bounds.handshakes() == (if pending < total {
                pending
            } else {
                total
            }),
    {
        LifecycleBounds {
            pending: if pending < total {
                pending
            } else {
                total
            },
            total,
        }
    }

    /// Maximum peers still handshaking.
    pub fn pending(self) -> (pending: usize)
        ensures
            pending == self.handshakes(),
            pending <= self.records(),
    {
        proof {
            use_type_invariant(&self);
        }
        self.pending
    }

    /// Maximum peers in any phase.
    pub fn total(self) -> (total: usize)
        ensures
            total == self.records(),
    {
        self.total
    }
}

/// Whether a reservation would be admitted, and if not, why.
#[derive(Clone, Copy, Debug, PartialEq, Eq, Hash, Structural)]
pub enum ReservationVerdict {
    /// The peer already owns a record.
    AlreadyConnected,
    /// The handshake working set is saturated.
    PendingCapacityExceeded,
    /// Every record is occupied; retiring one would admit the peer.
    CapacityExceeded,
    /// The reservation would be admitted.
    Admissible,
}

impl ReservationVerdict {
    /// Whether retiring one record is what stands between the peer and admission.
    pub fn needs_eviction(self) -> (needed: bool)
        ensures
            needed == (self is CapacityExceeded),
    {
        matches!(self, ReservationVerdict::CapacityExceeded)
    }
}

/// The records of a registry, by peer.
pub type Records = Map<Did, PeerConnectionLifecycle>;

/// The peers still handshaking.
pub open spec fn handshaking(records: Records) -> Set<Did> {
    records.dom().filter(|peer: Did| !(records[peer] is Active))
}

/// The decision on reserving `peer`: duplicate peer first, then the handshake bound, then the
/// total bound.
pub open spec fn verdict_of(
    records: Records,
    bounds: LifecycleBounds,
    peer: Did,
) -> ReservationVerdict {
    if records.contains_key(peer) {
        ReservationVerdict::AlreadyConnected
    } else if handshaking(records).len() >= bounds.handshakes() {
        ReservationVerdict::PendingCapacityExceeded
    } else if records.dom().len() >= bounds.records() {
        ReservationVerdict::CapacityExceeded
    } else {
        ReservationVerdict::Admissible
    }
}

/// `attempt` is the pending generation of its peer.
pub open spec fn is_pending(records: Records, attempt: PendingConnectionAttempt) -> bool {
    records.contains_key(attempt.peer) && records[attempt.peer] is Pending
        && records[attempt.peer].owner() == attempt
}

/// `attempt` is the admitting generation of its peer.
pub open spec fn is_admitting(records: Records, attempt: PendingConnectionAttempt) -> bool {
    records.contains_key(attempt.peer) && records[attempt.peer] is Admitting
        && records[attempt.peer].owner() == attempt
}

/// `attempt` is the active generation of its peer.
pub open spec fn is_active(records: Records, attempt: PendingConnectionAttempt) -> bool {
    records.contains_key(attempt.peer) && records[attempt.peer] is Active
        && records[attempt.peer].owner() == attempt
}

/// `attempt` is the active generation of its peer, and the application was told so.
pub open spec fn is_announced(records: Records, attempt: PendingConnectionAttempt) -> bool {
    is_active(records, attempt) && records[attempt.peer]->announced
}

/// `Pending(attempt) -> Admitting(attempt)`.
pub open spec fn admission_begun(records: Records, attempt: PendingConnectionAttempt) -> Records {
    if is_pending(records, attempt) {
        records.insert(
            attempt.peer,
            PeerConnectionLifecycle::Admitting {
                attempt,
                started_at_ms: records[attempt.peer].reserved_at(),
            },
        )
    } else {
        records
    }
}

/// `Admitting(attempt) -> Active(attempt, unannounced)`.
pub open spec fn activated(records: Records, attempt: PendingConnectionAttempt) -> Records {
    if is_admitting(records, attempt) {
        records.insert(
            attempt.peer,
            PeerConnectionLifecycle::Active { attempt, announced: false },
        )
    } else {
        records
    }
}

/// `Active(attempt, _) -> Active(attempt, announced)`.
pub open spec fn announcement_marked(
    records: Records,
    attempt: PendingConnectionAttempt,
) -> Records {
    if is_active(records, attempt) {
        records.insert(
            attempt.peer,
            PeerConnectionLifecycle::Active { attempt, announced: true },
        )
    } else {
        records
    }
}

/// `Pending(attempt) -> Absent`.
pub open spec fn pending_removed(records: Records, attempt: PendingConnectionAttempt) -> Records {
    if is_pending(records, attempt) {
        records.remove(attempt.peer)
    } else {
        records
    }
}

/// `Pending(attempt) | Admitting(attempt) -> Absent`.
pub open spec fn unadmitted_removed(
    records: Records,
    attempt: PendingConnectionAttempt,
) -> Records {
    if is_pending(records, attempt) || is_admitting(records, attempt) {
        records.remove(attempt.peer)
    } else {
        records
    }
}

/// `Active(attempt, _) -> Absent`.
pub open spec fn active_removed(records: Records, attempt: PendingConnectionAttempt) -> Records {
    if is_active(records, attempt) {
        records.remove(attempt.peer)
    } else {
        records
    }
}

/// Every handshake that has outlived its lifetime at `now_ms` removed.
pub open spec fn unexpired(records: Records, now_ms: i64) -> Records {
    records.remove_keys(
        records.dom().filter(|peer: Did| expiry_of(records[peer], now_ms) is Some),
    )
}

/// Every record belongs to its peer, under a generation of at most `latest`.
pub open spec fn owned_by_peers(records: Records, latest: u64) -> bool {
    forall|peer: Did| #[trigger]
        records.contains_key(peer) ==> records[peer].owner().peer == peer
            && records[peer].owner().generation <= latest
}

/// Every generation of `terminal` is active.
pub open spec fn only_active(
    terminal: Set<PendingConnectionAttempt>,
    records: Records,
) -> bool {
    forall|attempt: PendingConnectionAttempt| #[trigger]
        terminal.contains(attempt) ==> is_active(records, attempt)
}

/// The active generations that may still send, by peer.
pub open spec fn sendable(
    records: Records,
    terminal: Set<PendingConnectionAttempt>,
) -> Map<Did, PendingConnectionAttempt> {
    Map::new(
        |peer: Did|
            records.contains_key(peer) && records[peer] is Active && !terminal.contains(
                records[peer].owner(),
            ),
        |peer: Did| records[peer].owner(),
    )
}

/// The active generations, by peer.
pub open spec fn admitted(records: Records) -> Map<Did, PendingConnectionAttempt> {
    Map::new(
        |peer: Did| records.contains_key(peer) && records[peer] is Active,
        |peer: Did| records[peer].owner(),
    )
}

/// The announced generations, by peer.
pub open spec fn announced(records: Records) -> Map<Did, PendingConnectionAttempt> {
    Map::new(
        |peer: Did| records.contains_key(peer) && is_announced(records, records[peer].owner()),
        |peer: Did| records[peer].owner(),
    )
}

/// Registry of mutually exclusive pending, admitting and active generations.
pub struct ConnectionLifecycleRegistry {
    bounds: LifecycleBounds,
    next_generation: u64,
    peers: OrderedMap<Did, PeerConnectionLifecycle>,
    send_terminal: OrderedMap<PendingConnectionAttempt, ()>,
}

impl ConnectionLifecycleRegistry {
    /// The records, by peer.
    pub closed spec fn records(&self) -> Records {
        self.peers@
    }

    /// The active generations that accept no new send.
    pub closed spec fn terminal(&self) -> Set<PendingConnectionAttempt> {
        self.send_terminal@.dom()
    }

    /// The latest generation number given out.
    pub closed spec fn latest_generation(&self) -> u64 {
        self.next_generation
    }

    /// The bounds the registry keeps.
    pub closed spec fn limits(&self) -> LifecycleBounds {
        self.bounds
    }

    /// Every record belongs to the peer it is filed under and to a generation that was given
    /// out; only active generations are send-terminal; both bounds hold.
    pub open spec fn wf(&self) -> bool {
        &&& self.ordered()
        &&& self.records().dom().finite()
        &&& owned_by_peers(self.records(), self.latest_generation())
        &&& only_active(self.terminal(), self.records())
        &&& handshaking(self.records()).len() <= self.limits().handshakes()
        &&& self.records().dom().len() <= self.limits().records()
    }

    /// Both tables are in key order.
    pub closed spec fn ordered(&self) -> bool {
        self.peers.wf() && self.send_terminal.wf()
    }

    /// `self` differs from `before` at most in its records.
    pub open spec fn same_but_records(&self, before: &Self) -> bool {
        &&& self.terminal() == before.terminal()
        &&& self.latest_generation() == before.latest_generation()
        &&& self.limits() == before.limits()
    }

    /// An empty registry under `bounds`.
    pub fn new(bounds: LifecycleBounds) -> (registry: Self)
        ensures
            registry.wf(),
            registry.limits() == bounds,
            registry.latest_generation() == 0,
            registry.records() == Map::<Did, PeerConnectionLifecycle>::empty(),
            registry.terminal() == Set::<PendingConnectionAttempt>::empty(),
    {
        let registry = ConnectionLifecycleRegistry {
            bounds,
            next_generation: 0,
            peers: OrderedMap::new(),
            send_terminal: OrderedMap::new(),
        };
        proof {
            assert(handshaking(registry.records()) =~= Set::<Did>::empty());
            assert(registry.terminal() =~= Set::<PendingConnectionAttempt>::empty());
        }
        registry
    }

    /// Reserve a new generation for `peer`.
    pub fn reserve(&mut self, peer: Did, now_ms: i64) -> (reserved: Result<
        PendingConnectionAttempt,
        Error,
    >)
        requires
            old(self).wf(),
        ensures
            final(self).wf(),
            final(self).limits() == old(self).limits(),
            final(self).terminal() == old(self).terminal(),
            match verdict_of(old(self).records(), old(self).limits(), peer) {
                ReservationVerdict::AlreadyConnected => reserved == Err::<
                    PendingConnectionAttempt,
                    Error,
                >(Error::AlreadyConnected),
                ReservationVerdict::PendingCapacityExceeded => reserved == Err::<
                    PendingConnectionAttempt,
                    Error,
                >(
                    Error::PendingConnectionCapacityExceeded {
                        capacity: old(self).limits().handshakes() as usize,
                    },
                ),
                ReservationVerdict::CapacityExceeded => reserved == Err::<
                    PendingConnectionAttempt,
                    Error,
                >(
                    Error::ConnectionCapacityExceeded {
                        capacity: old(self).limits().records() as usize,
                    },
                ),
                ReservationVerdict::Admissible => if old(self).latest_generation() == u64::MAX {
                    reserved == Err::<PendingConnectionAttempt, Error>(
                        Error::PendingConnectionGenerationExhausted,
                    )
                } else {
                    reserved == Ok::<PendingConnectionAttempt, Error>(
                        PendingConnectionAttempt {
                            peer,
                            generation: (old(self).latest_generation() + 1) as u64,
                        },
                    )
                },
            },
            match reserved {
                Ok(attempt) => {
                    &&& final(self).latest_generation() == attempt.generation
                    &&& final(self).records() == old(self).records().insert(
                        peer,
                        PeerConnectionLifecycle::Pending { attempt, started_at_ms: now_ms },
                    )
                },
                Err(_) => {
                    &&& final(self).latest_generation() == old(self).latest_generation()
                    &&& final(self).records() == old(self).records()
                },
            },
    {
        match self.reservation_verdict(peer) {
            ReservationVerdict::AlreadyConnected => {
                return Err(Error::AlreadyConnected);
            },
            ReservationVerdict::PendingCapacityExceeded => {
                return Err(
                    Error::PendingConnectionCapacityExceeded { capacity: self.bounds.pending },
                );
            },
            ReservationVerdict::CapacityExceeded => {
                return Err(Error::ConnectionCapacityExceeded { capacity: self.bounds.total });
            },
            ReservationVerdict::Admissible => {},
        }
        let generation: u64 = match self.next_generation.checked_add(1) {
            Some(generation) => generation,
            None => {
                return Err(Error::PendingConnectionGenerationExhausted);
            },
        };
        self.next_generation = generation;
        let attempt = PendingConnectionAttempt { peer, generation };
        self.peers.insert(
            peer,
            PeerConnectionLifecycle::Pending { attempt, started_at_ms: now_ms },
        );
        proof {
            let before = old(self).records();
            let after = self.records();
            assert(handshaking(after) =~= handshaking(before).insert(peer));
            assert(after.dom() =~= before.dom().insert(peer));
        }
        Ok(attempt)
    }

    /// Whether `peer` has a record.
    pub fn contains(&self, peer: Did) -> (found: bool)
        requires
            self.wf(),
        ensures
            found == self.records().contains_key(peer),
    {
        self.peers.contains_key(peer)
    }

    /// Decide on reserving `peer` without changing anything.
    pub fn reservation_verdict(&self, peer: Did) -> (verdict: ReservationVerdict)
        requires
            self.wf(),
        ensures
            verdict == verdict_of(self.records(), self.limits(), peer),
    {
        if self.contains(peer) {
            ReservationVerdict::AlreadyConnected
        } else if self.pending_len() >= self.bounds.pending {
            ReservationVerdict::PendingCapacityExceeded
        } else if self.peers.len() >= self.bounds.total {
            ReservationVerdict::CapacityExceeded
        } else {
            ReservationVerdict::Admissible
        }
    }

    /// Replace the bounds of an empty registry.
    pub fn set_bounds(&mut self, bounds: LifecycleBounds)
        requires
            old(self).wf(),
            old(self).records() == Map::<Did, PeerConnectionLifecycle>::empty(),
        ensures
            final(self).wf(),
            final(self).limits() == bounds,
            final(self).records() == old(self).records(),
            final(self).terminal() == old(self).terminal(),
            final(self).latest_generation() == old(self).latest_generation(),
    {
        self.bounds = bounds;
        proof {
            assert(handshaking(self.records()) =~= Set::<Did>::empty());
        }
    }

    /// The state of `peer`.
    pub fn state(&self, peer: Did) -> (state: Option<PeerConnectionLifecycle>)
        requires
            self.wf(),
        ensures
            state == (if self.records().contains_key(peer) {
                Some(self.records()[peer])
            } else {
                None
            }),
    {
        match self.peers.get(peer) {
            Some(state) => Some(*state),
            None => None,
        }
    }

    /// The pending generation of `peer`.
    pub fn pending_attempt(&self, peer: Did) -> (attempt: Option<PendingConnectionAttempt>)
        requires
            self.wf(),
        ensures
            match attempt {
                Some(attempt) => attempt.peer == peer && is_pending(self.records(), attempt),
                None => !(self.records().contains_key(peer) && self.records()[peer] is Pending),
            },
    {
        match self.state(peer) {
            Some(PeerConnectionLifecycle::Pending { attempt, .. }) => Some(attempt),
            _ => None,
        }
    }

    /// The generation of `peer` that is still handshaking.
    pub fn unadmitted_attempt(&self, peer: Did) -> (attempt: Option<PendingConnectionAttempt>)
        requires
            self.wf(),
        ensures
            match attempt {
                Some(attempt) => attempt.peer == peer && (is_pending(self.records(), attempt)
                    || is_admitting(self.records(), attempt)),
                None => !(self.records().contains_key(peer) && !(self.records()[peer] is Active)),
            },
    {
        match self.state(peer) {
            Some(PeerConnectionLifecycle::Pending { attempt, .. })
            | Some(PeerConnectionLifecycle::Admitting { attempt, .. }) => Some(attempt),
            _ => None,
        }
    }

    /// The admitting generation of `peer`.
    pub fn admitting_attempt(&self, peer: Did) -> (attempt: Option<PendingConnectionAttempt>)
        requires
            self.wf(),
        ensures
            match attempt {
                Some(attempt) => attempt.peer == peer && is_admitting(self.records(), attempt),
                None => !(self.records().contains_key(peer) && self.records()[peer] is Admitting),
            },
    {
        match self.state(peer) {
            Some(PeerConnectionLifecycle::Admitting { attempt, .. }) => Some(attempt),
            _ => None,
        }
    }

    /// The active generation of `peer`.
    pub fn active_attempt(&self, peer: Did) -> (attempt: Option<PendingConnectionAttempt>)
        requires
            self.wf(),
        ensures
            attempt == (if admitted(self.records()).contains_key(peer) {
                Some(admitted(self.records())[peer])
            } else {
                None
            }),
            attempt matches Some(attempt) ==> attempt.peer == peer,
    {
        match self.state(peer) {
            Some(PeerConnectionLifecycle::Active { attempt, .. }) => Some(attempt),
            _ => None,
        }
    }

    /// The active generation of `peer`, unless it accepts no new send.
    pub fn sendable_attempt(&self, peer: Did) -> (attempt: Option<PendingConnectionAttempt>)
        requires
            self.wf(),
        ensures
            attempt == (if sendable(self.records(), self.terminal()).contains_key(peer) {
                Some(sendable(self.records(), self.terminal())[peer])
            } else {
                None
            }),
            attempt matches Some(attempt) ==> attempt.peer == peer,
    {
        match self.active_attempt(peer) {
            Some(attempt) => if self.is_send_terminal(attempt) {
                None
            } else {
                Some(attempt)
            },
            None => None,
        }
    }

    /// Revoke new sends for an exact active generation, keeping the record that cleanup needs.
    pub fn mark_send_terminal(&mut self, attempt: PendingConnectionAttempt) -> (marked: bool)
        requires
            old(self).wf(),
        ensures
            final(self).wf(),
            marked == is_active(old(self).records(), attempt),
            final(self).records() == old(self).records(),
            final(self).terminal() == (if marked {
                old(self).terminal().insert(attempt)
            } else {
                old(self).terminal()
            }),
            final(self).latest_generation() == old(self).latest_generation(),
            final(self).limits() == old(self).limits(),
    {
        if !self.owns_active_slot(attempt) {
            return false;
        }
        self.send_terminal.insert(attempt, ());
        proof {
            assert(self.terminal() =~= old(self).terminal().insert(attempt));
        }
        true
    }

    /// Whether `attempt` is the active generation of its peer.
    pub fn owns_active_slot(&self, attempt: PendingConnectionAttempt) -> (owns: bool)
        requires
            self.wf(),
        ensures
            owns == is_active(self.records(), attempt),
    {
        match self.active_attempt(attempt.peer) {
            Some(active) => active == attempt,
            None => false,
        }
    }

    /// Whether `attempt` accepts no new send.
    pub fn is_send_terminal(&self, attempt: PendingConnectionAttempt) -> (terminal: bool)
        requires
            self.wf(),
        ensures
            terminal == self.terminal().contains(attempt),
    {
        self.send_terminal.contains_key(attempt)
    }

    /// The active generations that may still send.
    pub fn active_connections(&self) -> (active: ActiveConnectionSet)
        requires
            self.wf(),
        ensures
            active.wf(),
            active@ == sendable(self.records(), self.terminal()),
    {
        self.select(false, false)
    }

    /// The active generations.
    pub fn admitted_connections(&self) -> (active: ActiveConnectionSet)
        requires
            self.wf(),
        ensures
            active.wf(),
            active@ == admitted(self.records()),
    {
        self.select(true, false)
    }

    /// Every active generation whose admission was announced, in identity order.
    pub fn announced_attempts(&self) -> (attempts: Vec<PendingConnectionAttempt>)
        requires
            self.wf(),
        ensures
            lists_in_order(attempts@, announced(self.records())),
    {
        self.select(true, true).attempts()
    }

    /// The active generations, leaving out the send-terminal ones unless `with_terminal`, and
    /// the unannounced ones if `only_announced`.
    fn select(&self, with_terminal: bool, only_announced: bool) -> (active: ActiveConnectionSet)
        requires
            self.wf(),
        ensures
            active.wf(),
            active@ == Map::new(
                |peer: Did| self.selected(peer, with_terminal, only_announced),
                |peer: Did| self.records()[peer].owner(),
            ),
            with_terminal && !only_announced ==> active@ == admitted(self.records()),
            !with_terminal && !only_announced ==> active@ == sendable(
                self.records(),
                self.terminal(),
            ),
            with_terminal && only_announced ==> active@ == announced(self.records()),
    {
        let mut attempts: OrderedMap<Did, PendingConnectionAttempt> = OrderedMap::new();
        let count: usize = self.peers.len();
        let mut index: usize = 0;
        proof {
            self.peers.lemma_listing();
        }
        while index < count
            invariant
                self.wf(),
                index <= count == self.peers.listing().len(),
                attempts.wf(),
                forall|i: int|
                    0 <= i < attempts.listing().len() ==> exists|j: int|
                        0 <= j < index && (#[trigger] attempts.listing()[i]).0 == (
                        #[trigger] self.peers.listing()[j]).0,
                forall|peer: Did| #[trigger]
                    attempts@.contains_key(peer) ==> self.selected(
                        peer,
                        with_terminal,
                        only_announced,
                    ) && attempts@[peer] == self.records()[peer].owner(),
                forall|j: int|
                    0 <= j < index && self.selected(
                        (#[trigger] self.peers.listing()[j]).0,
                        with_terminal,
                        only_announced,
                    ) ==> attempts@.contains_key(self.peers.listing()[j].0),
                forall|j: int|
                    0 <= j < self.peers.listing().len() ==> self.records().contains_pair(
                        (#[trigger] self.peers.listing()[j]).0,
                        self.peers.listing()[j].1,
                    ),
            decreases count - index,
        {
            let entry = self.peers.entry_at(index);
            let peer: Did = entry.0;
            let ghost before = attempts;
            proof {
                assert(self.records().contains_pair(
                    self.peers.listing()[index as int].0,
                    self.peers.listing()[index as int].1,
                ));
                assert forall|i: int| 0 <= i < attempts.listing().len() implies (
                #[trigger] attempts.listing()[i]).0.rank() < peer.rank() by {
                    let j = choose|j: int|
                        0 <= j < index && attempts.listing()[i].0 == (
                        #[trigger] self.peers.listing()[j]).0;
                    assert(self.peers.listing()[j].0.rank()
                        < self.peers.listing()[index as int].0.rank());
                }
            }
            if let PeerConnectionLifecycle::Active { attempt, announced } = entry.1 {
                if (announced || !only_announced) && (with_terminal || !self.is_send_terminal(
                    attempt,
                )) {
                    attempts.push(peer, attempt);
                    proof {
                        assert forall|i: int| 0 <= i < attempts.listing().len() implies exists|
                            j: int,
                        |
                            0 <= j < index + 1 && (#[trigger] attempts.listing()[i]).0 == (
                            #[trigger] self.peers.listing()[j]).0 by {
                            if i < before.listing().len() {
                                assert(attempts.listing()[i] == before.listing()[i]);
                                let j = choose|j: int|
                                    0 <= j < index && before.listing()[i].0 == (
                                    #[trigger] self.peers.listing()[j]).0;
                                assert(attempts.listing()[i].0 == self.peers.listing()[j].0);
                            } else {
                                assert(attempts.listing()[i].0
                                    == self.peers.listing()[index as int].0);
                            }
                        }
                    }
                }
            }
            index += 1;
        }
        let active = ActiveConnectionSet { attempts };
        proof {
            assert forall|peer: Did| self.selected(peer, with_terminal, only_announced) implies
                attempts@.contains_key(peer) by {
                let j = choose|j: int|
                    0 <= j < self.peers.listing().len() && (#[trigger] self.peers.listing()[j]).0
                        == peer;
                assert(self.peers.listing()[j].0 == peer);
            }
            let expected = Map::new(
                |peer: Did| self.selected(peer, with_terminal, only_announced),
                |peer: Did| self.records()[peer].owner(),
            );
            assert(active@ =~= expected);
            if with_terminal && !only_announced {
                assert(active@ =~= admitted(self.records()));
            }
            if !with_terminal && !only_announced {
                assert(active@ =~= sendable(self.records(), self.terminal()));
            }
            if with_terminal && only_announced {
                assert(active@ =~= announced(self.records()));
            }
        }
        active
    }

    closed spec fn selected(&self, peer: Did, with_terminal: bool, only_announced: bool) -> bool {
        &&& self.records().contains_key(peer)
        &&& self.records()[peer] is Active
        &&& with_terminal || !self.terminal().contains(self.records()[peer].owner())
        &&& only_announced ==> self.records()[peer]->announced
    }

    /// Apply `Pending(attempt) -> Admitting(attempt)`.
    pub fn begin_admission(&mut self, attempt: PendingConnectionAttempt) -> (begun: bool)
        requires
            old(self).wf(),
        ensures
            final(self).wf(),
            begun == is_pending(old(self).records(), attempt),
            final(self).records() == admission_begun(old(self).records(), attempt),
            final(self).same_but_records(old(self)),
    {
        let started_at_ms: i64 = match self.state(attempt.peer) {
            Some(PeerConnectionLifecycle::Pending { attempt: current, started_at_ms }) => {
                if current != attempt {
                    return false;
                }
                started_at_ms
            },
            _ => {
                return false;
            },
        };
        self.peers.insert(
            attempt.peer,
            PeerConnectionLifecycle::Admitting { attempt, started_at_ms },
        );
        proof {
            lemma_phase_changed(old(self).records(), attempt.peer, self.records()[attempt.peer]);
        }
        true
    }

    /// Apply `Admitting(attempt) -> Active(attempt, unannounced)`.
    pub fn activate(&mut self, attempt: PendingConnectionAttempt) -> (activated_now: bool)
        requires
            old(self).wf(),
        ensures
            final(self).wf(),
            activated_now == is_admitting(old(self).records(), attempt),
            final(self).records() == activated(old(self).records(), attempt),
            final(self).same_but_records(old(self)),
    {
        match self.admitting_attempt(attempt.peer) {
            Some(current) => {
                if current != attempt {
                    return false;
                }
            },
            None => {
                return false;
            },
        }
        self.peers.insert(
            attempt.peer,
            PeerConnectionLifecycle::Active { attempt, announced: false },
        );
        proof {
            lemma_phase_changed(old(self).records(), attempt.peer, self.records()[attempt.peer]);
        }
        true
    }

    /// Apply `Pending(attempt) -> Admitting(attempt) -> Active(attempt, unannounced)`.
    pub fn promote(&mut self, attempt: PendingConnectionAttempt) -> (promoted: bool)
        requires
            old(self).wf(),
        ensures
            final(self).wf(),
            promoted == is_pending(old(self).records(), attempt),
            final(self).records() == (if promoted {
                activated(admission_begun(old(self).records(), attempt), attempt)
            } else {
                old(self).records()
            }),
            final(self).same_but_records(old(self)),
    {
        if !self.begin_admission(attempt) {
            return false;
        }
        self.activate(attempt)
    }

    /// Apply `Pending(attempt) -> Absent`.
    pub fn remove_pending(&mut self, attempt: PendingConnectionAttempt) -> (removed: bool)
        requires
            old(self).wf(),
        ensures
            final(self).wf(),
            removed == is_pending(old(self).records(), attempt),
            final(self).records() == pending_removed(old(self).records(), attempt),
            final(self).same_but_records(old(self)),
    {
        match self.pending_attempt(attempt.peer) {
            Some(current) => {
                if current != attempt {
                    return false;
                }
            },
            None => {
                return false;
            },
        }
        self.drop_record(attempt.peer);
        true
    }

    /// Apply `Pending(attempt) | Admitting(attempt) -> Absent`.
    pub fn remove_unadmitted(&mut self, attempt: PendingConnectionAttempt) -> (removed: bool)
        requires
            old(self).wf(),
        ensures
            final(self).wf(),
            removed == (is_pending(old(self).records(), attempt) || is_admitting(
                old(self).records(),
                attempt,
            )),
            final(self).records() == unadmitted_removed(old(self).records(), attempt),
            final(self).same_but_records(old(self)),
    {
        match self.unadmitted_attempt(attempt.peer) {
            Some(current) => {
                if current != attempt {
                    return false;
                }
            },
            None => {
                return false;
            },
        }
        self.drop_record(attempt.peer);
        true
    }

    /// Forget a record that is still handshaking.
    fn drop_record(&mut self, peer: Did)
        requires
            old(self).wf(),
            old(self).records().contains_key(peer),
            !(old(self).records()[peer] is Active),
        ensures
            final(self).wf(),
            final(self).records() == old(self).records().remove(peer),
            final(self).same_but_records(old(self)),
    {
        let _ = self.peers.remove(peer);
        proof {
            lemma_record_removed(old(self).records(), peer);
        }
    }

    /// Apply `Active(attempt, _) -> Active(attempt, announced)`.
    pub fn mark_announced(&mut self, attempt: PendingConnectionAttempt) -> (marked: bool)
        requires
            old(self).wf(),
        ensures
            final(self).wf(),
            marked == is_active(old(self).records(), attempt),
            final(self).records() == announcement_marked(old(self).records(), attempt),
            final(self).same_but_records(old(self)),
    {
        if !self.owns_active_slot(attempt) {
            return false;
        }
        self.peers.insert(
            attempt.peer,
            PeerConnectionLifecycle::Active { attempt, announced: true },
        );
        proof {
            lemma_phase_changed(old(self).records(), attempt.peer, self.records()[attempt.peer]);
        }
        true
    }

    /// The active generation of `peer` whose admission was announced.
    pub fn announced_attempt(&self, peer: Did) -> (attempt: Option<PendingConnectionAttempt>)
        requires
            self.wf(),
        ensures
            attempt == (if announced(self.records()).contains_key(peer) {
                Some(announced(self.records())[peer])
            } else {
                None
            }),
    {
        match self.state(peer) {
            Some(PeerConnectionLifecycle::Active { attempt, announced }) => if announced {
                Some(attempt)
            } else {
                None
            },
            _ => None,
        }
    }

    /// The bounds the registry keeps.
    pub fn bounds(&self) -> (bounds: LifecycleBounds)
        ensures
            bounds == self.limits(),
    {
        self.bounds
    }

    /// Apply `Active(attempt, announced) -> Absent` iff `attempt` owns the active slot and
    /// `action`, given the active set, commits; the witness carries `announced`.
    pub fn retire_active_if<T, F: FnOnce(&ActiveConnectionSet) -> Result<Option<T>, Error>>(
        &mut self,
        attempt: PendingConnectionAttempt,
        action: F,
    ) -> (outcome: Result<RetirementOutcome<(T, Retirement)>, Error>)
        requires
            old(self).wf(),
            forall|active: &ActiveConnectionSet|
                active.wf() && active@ == sendable(old(self).records(), old(self).terminal())
                    ==> #[trigger] action.requires((active,)),
        ensures
            final(self).wf(),
            final(self).latest_generation() == old(self).latest_generation(),
            final(self).limits() == old(self).limits(),
            !is_active(old(self).records(), attempt) <==> outcome matches Ok(
                RetirementOutcome::Superseded,
            ),
            is_active(old(self).records(), attempt) ==> exists|
                active: &ActiveConnectionSet,
                decision: Result<Option<T>, Error>,
            |
                {
                    &&& active.wf()
                    &&& active@ == sendable(old(self).records(), old(self).terminal())
                    &&& #[trigger] action.ensures((active,), decision)
                    &&& match decision {
                        Err(error) => outcome == Err::<
                            RetirementOutcome<(T, Retirement)>,
                            Error,
                        >(error),
                        Ok(None) => outcome matches Ok(RetirementOutcome::Declined),
                        Ok(Some(value)) => outcome matches Ok(
                            RetirementOutcome::Retired((given, witness)),
                        ) && given == value && witness.announced() == is_announced(
                            old(self).records(),
                            attempt,
                        ),
                    }
                },
            match outcome {
                Ok(RetirementOutcome::Retired(_)) => {
                    &&& final(self).records() == active_removed(old(self).records(), attempt)
                    &&& final(self).terminal() == old(self).terminal().remove(attempt)
                },
                _ => {
                    &&& final(self).records() == old(self).records()
                    &&& final(self).terminal() == old(self).terminal()
                },
            },
    {
        let announced = match self.state(attempt.peer) {
            Some(PeerConnectionLifecycle::Active { attempt: current, announced }) => {
                if current != attempt {
                    return Ok(RetirementOutcome::Superseded);
                }
                announced
            },
            _ => {
                return Ok(RetirementOutcome::Superseded);
            },
        };
        let active = self.active_connections();
        let value = match action(&active) {
            Err(error) => {
                return Err(error);
            },
            Ok(None) => {
                return Ok(RetirementOutcome::Declined);
            },
            Ok(Some(value)) => value,
        };
        self.forget_active(attempt);
        Ok(RetirementOutcome::Retired((value, Retirement { announced_admission: announced })))
    }

    /// Apply `Active(attempt, _) -> Absent`, whatever the active set.
    pub fn remove_active(&mut self, attempt: PendingConnectionAttempt) -> (removed: bool)
        requires
            old(self).wf(),
        ensures
            final(self).wf(),
            removed == is_active(old(self).records(), attempt),
            final(self).records() == active_removed(old(self).records(), attempt),
            final(self).terminal() == (if removed {
                old(self).terminal().remove(attempt)
            } else {
                old(self).terminal()
            }),
            final(self).latest_generation() == old(self).latest_generation(),
            final(self).limits() == old(self).limits(),
    {
        if !self.owns_active_slot(attempt) {
            return false;
        }
        self.forget_active(attempt);
        true
    }

    /// Forget an active record and its send-terminal mark.
    fn forget_active(&mut self, attempt: PendingConnectionAttempt)
        requires
            old(self).wf(),
            is_active(old(self).records(), attempt),
        ensures
            final(self).wf(),
            final(self).records() == active_removed(old(self).records(), attempt),
            final(self).terminal() == old(self).terminal().remove(attempt),
            final(self).latest_generation() == old(self).latest_generation(),
            final(self).limits() == old(self).limits(),
    {
        let _ = self.peers.remove(attempt.peer);
        let _ = self.send_terminal.remove(attempt);
        proof {
            lemma_record_removed(old(self).records(), attempt.peer);
            assert(self.terminal() =~= old(self).terminal().remove(attempt));
        }
    }

    /// Continue numbering generations after `next_generation`.
    pub fn set_next_generation(&mut self, next_generation: u64)
        requires
            old(self).wf(),
            next_generation >= old(self).latest_generation(),
        ensures
            final(self).wf(),
            final(self).latest_generation() == next_generation,
            final(self).records() == old(self).records(),
            final(self).terminal() == old(self).terminal(),
            final(self).limits() == old(self).limits(),
    {
        self.next_generation = next_generation;
    }

    /// Forget every handshake that has outlived its lifetime at `now_ms`, reporting each in
    /// identity order.
    pub fn expire(&mut self, now_ms: i64) -> (reports: Vec<ExpiredUnadmittedPeer>)
        requires
            old(self).wf(),
        ensures
            final(self).wf(),
            final(self).records() == unexpired(old(self).records(), now_ms),
            final(self).same_but_records(old(self)),
            forall|i: int|
                0 <= i < reports@.len() ==> old(self).records().contains_key(
                    (#[trigger] reports@[i]).attempt.peer,
                ) && expiry_of(old(self).records()[reports@[i].attempt.peer], now_ms) == Some(
                    reports@[i],
                ),
            forall|i: int, j: int|
                0 <= i < j < reports@.len() ==> (#[trigger] reports@[i]).attempt.peer.rank() < (
                #[trigger] reports@[j]).attempt.peer.rank(),
            forall|peer: Did|
                #![trigger old(self).records()[peer]]
                old(self).records().contains_key(peer) && expiry_of(
                    old(self).records()[peer],
                    now_ms,
                ) is Some ==> exists|i: int|
                    0 <= i < reports@.len() && (#[trigger] reports@[i]).attempt.peer == peer,
    {
        let mut reports: Vec<ExpiredUnadmittedPeer> = Vec::new();
        let count: usize = self.peers.len();
        let mut index: usize = 0;
        proof {
            self.peers.lemma_listing();
        }
        while index < count
            invariant
                self.wf(),
                *self == *old(self),
                index <= count == self.peers.listing().len(),
                forall|j: int|
                    0 <= j < self.peers.listing().len() ==> self.records().contains_pair(
                        (#[trigger] self.peers.listing()[j]).0,
                        self.peers.listing()[j].1,
                    ),
                forall|i: int|
                    0 <= i < reports@.len() ==> self.records().contains_key(
                        (#[trigger] reports@[i]).attempt.peer,
                    ) && expiry_of(self.records()[reports@[i].attempt.peer], now_ms) == Some(
                        reports@[i],
                    ),
                forall|i: int|
                    0 <= i < reports@.len() ==> exists|j: int|
                        0 <= j < index && (#[trigger] reports@[i]).attempt.peer == (
                        #[trigger] self.peers.listing()[j]).0,
                forall|i: int, j: int|
                    0 <= i < j < reports@.len() ==> (#[trigger] reports@[i]).attempt.peer.rank() < (
                    #[trigger] reports@[j]).attempt.peer.rank(),
                forall|j: int|
                    0 <= j < index && expiry_of(
                        (#[trigger] self.peers.listing()[j]).1,
                        now_ms,
                    ) is Some ==> exists|i: int|
                        0 <= i < reports@.len() && (#[trigger] reports@[i]).attempt.peer
                            == self.peers.listing()[j].0,
            decreases count - index,
        {
            let entry = self.peers.entry_at(index);
            let ghost before = reports@;
            let ghost listing = self.peers.listing();
            proof {
                assert(self.records().contains_pair(
                    listing[index as int].0,
                    listing[index as int].1,
                ));
                assert forall|i: int| 0 <= i < reports@.len() implies (
                #[trigger] reports@[i]).attempt.peer.rank() < entry.0.rank() by {
                    let j = choose|j: int|
                        0 <= j < index && reports@[i].attempt.peer == (#[trigger] listing[j]).0;
                    assert(listing[j].0.rank() < listing[index as int].0.rank());
                }
            }
            if let Some(report) = expired(entry.1, now_ms) {
                reports.push(report);
                proof {
                    assert(report.attempt.peer == listing[index as int].0);
                    assert(reports@[before.len() as int] == report);
                    assert forall|i: int| 0 <= i < reports@.len() implies exists|j: int|
                        0 <= j < index + 1 && (#[trigger] reports@[i]).attempt.peer == (
                        #[trigger] self.peers.listing()[j]).0 by {
                        if i < before.len() {
                            assert(reports@[i] == before[i]);
                            let j = choose|j: int|
                                0 <= j < index && before[i].attempt.peer == (
                                #[trigger] listing[j]).0;
                            assert(reports@[i].attempt.peer == self.peers.listing()[j].0);
                        } else {
                            assert(reports@[i].attempt.peer == self.peers.listing()[index as int].0);
                        }
                    }
                    assert forall|j: int|
                        0 <= j < index + 1 && expiry_of(
                            (#[trigger] self.peers.listing()[j]).1,
                            now_ms,
                        ) is Some implies exists|i: int|
                        0 <= i < reports@.len() && (#[trigger] reports@[i]).attempt.peer
                            == self.peers.listing()[j].0 by {
                        if j < index {
                            let i = choose|i: int|
                                0 <= i < before.len() && (#[trigger] before[i]).attempt.peer
                                    == self.peers.listing()[j].0;
                            assert(reports@[i] == before[i]);
                        } else {
                            assert(reports@[before.len() as int].attempt.peer
                                == self.peers.listing()[j].0);
                        }
                    }
                }
            }
            index += 1;
        }
        let ghost start = self.records();
        let ghost gone = start.dom().filter(|peer: Did| expiry_of(start[peer], now_ms) is Some);
        proof {
            assert forall|peer: Did|
                start.contains_key(peer) && expiry_of(start[peer], now_ms) is Some implies exists|
                i: int,
            |
                0 <= i < reports@.len() && (#[trigger] reports@[i]).attempt.peer == peer by {
                let j = choose|j: int|
                    0 <= j < self.peers.listing().len() && (#[trigger] self.peers.listing()[j]).0
                        == peer;
                assert(start.contains_pair(
                    self.peers.listing()[j].0,
                    self.peers.listing()[j].1,
                ));
            }
        }
        let mut dropped: usize = 0;
        while dropped < reports.len()
            invariant
                self.wf(),
                self.same_but_records(old(self)),
                dropped <= reports@.len(),
                forall|i: int|
                    0 <= i < reports@.len() ==> start.contains_key(
                        (#[trigger] reports@[i]).attempt.peer,
                    ) && expiry_of(start[reports@[i].attempt.peer], now_ms) == Some(reports@[i]),
                forall|i: int, j: int|
                    0 <= i < j < reports@.len() ==> (#[trigger] reports@[i]).attempt.peer.rank() < (
                    #[trigger] reports@[j]).attempt.peer.rank(),
                forall|peer: Did|
                    #![trigger self.records().contains_key(peer)]
                    self.records().contains_key(peer) <==> start.contains_key(peer) && !exists|
                        i: int,
                    |
                        0 <= i < dropped && (#[trigger] reports@[i]).attempt.peer == peer,
                forall|peer: Did|
                    #![trigger self.records()[peer]]
                    self.records().contains_key(peer) ==> self.records()[peer] == start[peer],
            decreases reports@.len() - dropped,
        {
            let peer: Did = reports[dropped].attempt.peer;
            proof {
                assert(self.records().contains_key(peer)) by {
                    assert forall|i: int| 0 <= i < dropped implies (
                    #[trigger] reports@[i]).attempt.peer != peer by {
                        assert(reports@[i].attempt.peer.rank()
                            < reports@[dropped as int].attempt.peer.rank());
                    }
                }
                assert(self.records()[peer] == start[peer]);
            }
            let ghost before = self.records();
            self.drop_record(peer);
            proof {
                assert(reports@[dropped as int].attempt.peer == peer);
                assert forall|other: Did|
                    #![trigger self.records().contains_key(other)]
                    self.records().contains_key(other) <==> start.contains_key(other) && !exists|
                        i: int,
                    |
                        0 <= i < dropped + 1 && (#[trigger] reports@[i]).attempt.peer == other by {
                    assert(self.records().contains_key(other) == (before.contains_key(other)
                        && other != peer));
                    if before.contains_key(other) && other != peer {
                        assert forall|i: int| 0 <= i < dropped + 1 implies (
                        #[trigger] reports@[i]).attempt.peer != other by {}
                    }
                }
            }
            dropped += 1;
        }
        proof {
            assert(self.records() =~= unexpired(start, now_ms)) by {
                assert forall|peer: Did| #[trigger]
                    self.records().contains_key(peer) <==> unexpired(start, now_ms).contains_key(
                        peer,
                    ) by {
                    assert(unexpired(start, now_ms).contains_key(peer) <==> start.contains_key(
                        peer,
                    ) && !gone.contains(peer));
                    if gone.contains(peer) {
                        let i = choose|i: int|
                            0 <= i < reports@.len() && (#[trigger] reports@[i]).attempt.peer
                                == peer;
                        assert(reports@[i].attempt.peer == peer);
                    }
                }
            }
        }
        reports
    }

    /// How many peers are still handshaking.
    pub fn pending_len(&self) -> (len: usize)
        requires
            self.wf(),
        ensures
            len == handshaking(self.records()).len(),
    {
        let mut len: usize = 0;
        let count: usize = self.peers.len();
        let mut index: usize = 0;
        let ghost mut counted: Set<Did> = Set::empty();
        proof {
            self.peers.lemma_listing();
        }
        while index < count
            invariant
                self.wf(),
                index <= count == self.peers.listing().len(),
                len <= index,
                counted.finite(),
                counted.len() == len,
                forall|j: int|
                    0 <= j < self.peers.listing().len() ==> self.records().contains_pair(
                        (#[trigger] self.peers.listing()[j]).0,
                        self.peers.listing()[j].1,
                    ),
                forall|peer: Did| #[trigger]
                    counted.contains(peer) <==> exists|j: int|
                        0 <= j < index && (#[trigger] self.peers.listing()[j]).0 == peer && !(
                        self.peers.listing()[j].1 is Active),
            decreases count - index,
        {
            let entry = self.peers.entry_at(index);
            if entry.1.is_unadmitted() {
                proof {
                    assert(!counted.contains(entry.0)) by {
                        if counted.contains(entry.0) {
                            let j = choose|j: int|
                                0 <= j < index && (#[trigger] self.peers.listing()[j]).0
                                    == entry.0;
                            assert(self.peers.listing()[j].0.rank()
                                < self.peers.listing()[index as int].0.rank());
                        }
                    }
                    counted = counted.insert(entry.0);
                }
                len += 1;
            }
            index += 1;
        }
        proof {
            assert(counted =~= handshaking(self.records())) by {
                assert forall|peer: Did| #[trigger]
                    counted.contains(peer) <==> handshaking(self.records()).contains(peer) by {
                    if handshaking(self.records()).contains(peer) {
                        let j = choose|j: int|
                            0 <= j < self.peers.listing().len() && (
                            #[trigger] self.peers.listing()[j]).0 == peer;
                        assert(self.records().contains_pair(
                            self.peers.listing()[j].0,
                            self.peers.listing()[j].1,
                        ));
                    }
                    if counted.contains(peer) {
                        let j = choose|j: int|
                            0 <= j < index && (#[trigger] self.peers.listing()[j]).0 == peer && !(
                            self.peers.listing()[j].1 is Active);
                        assert(self.records().contains_pair(
                            self.peers.listing()[j].0,
                            self.peers.listing()[j].1,
                        ));
                    }
                }
            }
        }
        len
    }
}

proof fn lemma_phase_changed(records: Records, peer: Did, state: PeerConnectionLifecycle)
    requires
        records.dom().finite(),
        records.contains_key(peer),
        !(state is Active) ==> !(records[peer] is Active),
    ensures
        records.insert(peer, state).dom() == records.dom(),
        handshaking(records.insert(peer, state)).len() <= handshaking(records).len(),
{
    let after = records.insert(peer, state);
    assert(after.dom() =~= records.dom());
    assert(handshaking(after).subset_of(handshaking(records)));
    lemma_len_subset(handshaking(after), handshaking(records));
}

proof fn lemma_record_removed(records: Records, peer: Did)
    requires
        records.dom().finite(),
    ensures
        records.remove(peer).dom().finite(),
        records.remove(peer).dom().len() <= records.dom().len(),
        handshaking(records.remove(peer)).len() <= handshaking(records).len(),
{
    let after = records.remove(peer);
    assert(after.dom() =~= records.dom().remove(peer));
    assert(handshaking(after).subset_of(handshaking(records)));
    lemma_len_subset(handshaking(after), handshaking(records));
}

/// `attempt` owns its peer's record, in whatever phase.
pub open spec fn is_current(records: Records, attempt: PendingConnectionAttempt) -> bool {
    records.contains_key(attempt.peer) && records[attempt.peer].owner() == attempt
}

/// One step of the registry from `(before, latest)` to `(after, next)`.
pub open spec fn registry_step(before: Records, latest: u64, after: Records, next: u64) -> bool {
    ||| exists|peer: Did, now_ms: i64| #[trigger]
        reserved_by(before, latest, after, next, peer, now_ms)
    ||| next == latest && exists|attempt: PendingConnectionAttempt|
        after == #[trigger] admission_begun(before, attempt)
    ||| next == latest && exists|attempt: PendingConnectionAttempt|
        after == #[trigger] activated(before, attempt)
    ||| next == latest && exists|attempt: PendingConnectionAttempt|
        after == #[trigger] announcement_marked(before, attempt)
    ||| next == latest && exists|attempt: PendingConnectionAttempt|
        after == #[trigger] pending_removed(before, attempt)
    ||| next == latest && exists|attempt: PendingConnectionAttempt|
        after == #[trigger] unadmitted_removed(before, attempt)
    ||| next == latest && exists|attempt: PendingConnectionAttempt|
        after == #[trigger] active_removed(before, attempt)
    ||| next == latest && exists|now_ms: i64| after == #[trigger] unexpired(before, now_ms)
}

/// `peer` was absent and is pending under the generation after `latest`.
pub open spec fn reserved_by(
    before: Records,
    latest: u64,
    after: Records,
    next: u64,
    peer: Did,
    now_ms: i64,
) -> bool {
    &&& !before.contains_key(peer)
    &&& latest < u64::MAX
    &&& next == latest + 1
    &&& after == before.insert(
        peer,
        PeerConnectionLifecycle::Pending {
            attempt: PendingConnectionAttempt { peer, generation: next },
            started_at_ms: now_ms,
        },
    )
}

/// The generation a reservation gives out is newer than every generation given out before, so
/// no live record has it.
pub proof fn law_generations_are_not_reused(
    records: Records,
    latest: u64,
    fresh: PendingConnectionAttempt,
)
    requires
        owned_by_peers(records, latest),
        fresh.generation > latest,
    ensures
        !is_current(records, fresh),
        forall|peer: Did| #[trigger]
            records.contains_key(peer) ==> records[peer].owner().generation < fresh.generation,
{
}

/// A generation that lost its slot never owns it again: no step of the registry brings it back.
pub proof fn law_superseded_generation_never_returns(
    before: Records,
    latest: u64,
    after: Records,
    next: u64,
    stale: PendingConnectionAttempt,
)
    requires
        owned_by_peers(before, latest),
        registry_step(before, latest, after, next),
        stale.generation <= latest,
        !is_current(before, stale),
    ensures
        owned_by_peers(after, next),
        stale.generation <= next,
        !is_current(after, stale),
{
}

/// A callback of a generation that does not own its peer's record changes nothing.
pub proof fn law_stale_callbacks_are_inert(records: Records, stale: PendingConnectionAttempt)
    requires
        !is_current(records, stale),
    ensures
        admission_begun(records, stale) == records,
        activated(records, stale) == records,
        announcement_marked(records, stale) == records,
        pending_removed(records, stale) == records,
        unadmitted_removed(records, stale) == records,
        active_removed(records, stale) == records,
{
}

/// A present peer has one generation in one phase.
pub proof fn law_phases_exclude_each_other(
    records: Records,
    a: PendingConnectionAttempt,
    b: PendingConnectionAttempt,
)
    requires
        a.peer == b.peer,
        is_current(records, a),
        is_current(records, b),
    ensures
        a == b,
        is_pending(records, a) || is_admitting(records, a) || is_active(records, a),
        !(is_pending(records, a) && is_admitting(records, a)),
        !(is_pending(records, a) && is_active(records, a)),
        !(is_admitting(records, a) && is_active(records, a)),
{
}

/// A peer that is still handshaking is never routed to, and every routed generation is admitted
/// and accepts sends.
pub proof fn law_only_admitted_generations_route(
    records: Records,
    terminal: Set<PendingConnectionAttempt>,
    peer: Did,
)
    ensures
        handshaking(records).contains(peer) ==> !sendable(records, terminal).contains_key(peer),
        sendable(records, terminal).contains_key(peer) ==> admitted(records).contains_pair(
            peer,
            sendable(records, terminal)[peer],
        ) && !terminal.contains(sendable(records, terminal)[peer]),
{
}

/// Revoking sends of a generation takes its peer out of the routable projection and leaves it
/// admitted.
pub proof fn law_send_terminal_is_admitted_and_unroutable(
    records: Records,
    terminal: Set<PendingConnectionAttempt>,
    attempt: PendingConnectionAttempt,
)
    requires
        is_active(records, attempt),
    ensures
        admitted(records).contains_pair(attempt.peer, attempt),
        !sendable(records, terminal.insert(attempt)).contains_key(attempt.peer),
{
}

/// An admission starts unannounced, announcing it marks it, and from then on until retirement
/// nothing that keeps the record takes the mark away: a retirement is announced exactly when
/// the admission was.
pub proof fn law_retirement_is_announced_iff_admission_was(
    records: Records,
    attempt: PendingConnectionAttempt,
    other: PendingConnectionAttempt,
)
    ensures
        is_admitting(records, attempt) ==> is_active(activated(records, attempt), attempt)
            && !is_announced(activated(records, attempt), attempt),
        is_active(records, attempt) ==> is_announced(announcement_marked(records, attempt), attempt),
        is_announced(records, attempt) ==> is_announced(announcement_marked(records, other), attempt)
            && is_announced(activated(records, other), attempt) && is_announced(
            admission_begun(records, other),
            attempt,
        ),
        is_active(records, attempt) && !is_announced(records, attempt) && attempt != other
            ==> !is_announced(announcement_marked(records, other), attempt),
{
}

/// Where a full registry is what refuses a newcomer, retiring one active connection admits it.
pub proof fn law_one_retirement_admits_the_newcomer(
    records: Records,
    bounds: LifecycleBounds,
    peer: Did,
    retired: PendingConnectionAttempt,
)
    requires
        records.dom().finite(),
        records.dom().len() <= bounds.records(),
        verdict_of(records, bounds, peer) is CapacityExceeded,
        is_active(records, retired),
    ensures
        verdict_of(active_removed(records, retired), bounds, peer) is Admissible,
{
    let after = active_removed(records, retired);
    assert(after.dom() =~= records.dom().remove(retired.peer));
    assert(handshaking(after) =~= handshaking(records));
}

/// The peers of `records` that are not admitted yet.
pub open spec fn unadmitted_peers(records: Records) -> Set<Did> {
    Set::new(|peer: Did| records.contains_key(peer) && !(records[peer] is Active))
}

/// A reservation is made exactly if the peer has no record, fewer peers handshake than may, fewer
/// records stand than may, and a number is left. It is pending from now under a number above every
/// one given before. Each refusal is told by what stands against it first, and changes nothing.
pub proof fn law_reservation_needs_a_free_place(
    registry: &mut ConnectionLifecycleRegistry,
    peer: Did,
    now_ms: i64,
    reserved: Result<PendingConnectionAttempt, Error>,
    other: Did,
)
    requires
        old(registry).wf(),
        call_ensures(ConnectionLifecycleRegistry::reserve, (registry, peer, now_ms), reserved),
        other != peer,
    ensures
        ({
            let records = old(registry).records();
            let known = records.contains_key(peer);
            let crowded = unadmitted_peers(records).len() >= old(registry).limits().handshakes();
            let full = records.dom().len() >= old(registry).limits().records();
            let spent = old(registry).latest_generation() == u64::MAX;
            &&& reserved is Ok <==> !known && !crowded && !full && !spent
            &&& known ==> reserved->Err_0 == Error::AlreadyConnected
            &&& !known && crowded ==> reserved->Err_0 is PendingConnectionCapacityExceeded
                && reserved->Err_0->PendingConnectionCapacityExceeded_capacity == old(registry).limits().handshakes()
            &&& !known && !crowded && full ==> reserved->Err_0 is ConnectionCapacityExceeded
            &&& !known && !crowded && !full && spent ==> reserved->Err_0
                == Error::PendingConnectionGenerationExhausted
            &&& reserved matches Ok(attempt) ==> {
                &&& attempt.peer == peer
                &&& attempt.generation == old(registry).latest_generation() + 1
                &&& final(registry).latest_generation() == attempt.generation
                &&& final(registry).records().contains_key(peer)
                &&& final(registry).records()[peer] == (PeerConnectionLifecycle::Pending {
                    attempt,
                    started_at_ms: now_ms,
                })
            }
            &&& reserved is Err ==> final(registry).records() == records && final(registry).latest_generation() == old(registry).latest_generation()
            &&& final(registry).records().contains_key(other) == records.contains_key(other)
            &&& final(registry).records()[other] == records[other]
        }),
{
    assert(unadmitted_peers(old(registry).records()) =~= handshaking(old(registry).records()));
}

/// An admission is begun of exactly the pending generation of its peer, keeps when it was reserved,
/// and makes it admitting; it is committed of exactly the admitting one, which is active then and
/// not announced. No other record changes.
pub proof fn law_admission_goes_step_by_step(
    begun: &mut ConnectionLifecycleRegistry,
    attempt: PendingConnectionAttempt,
    started: bool,
    admitting: &mut ConnectionLifecycleRegistry,
    committed: bool,
    other: Did,
)
    requires
        old(begun).wf(),
        call_ensures(ConnectionLifecycleRegistry::begin_admission, (begun, attempt), started),
        old(admitting).wf(),
        call_ensures(ConnectionLifecycleRegistry::activate, (admitting, attempt), committed),
        other != attempt.peer,
    ensures
        started <==> old(begun).records().contains_key(attempt.peer) && (
        old(begun).records()[attempt.peer] matches PeerConnectionLifecycle::Pending {
            attempt: owner,
            ..
        } && owner == attempt),
        started ==> (final(begun).records()[attempt.peer] matches PeerConnectionLifecycle::Admitting {
            attempt: owner,
            started_at_ms,
        } && owner == attempt && started_at_ms == old(begun).records()[attempt.peer]->Pending_started_at_ms),
        !started ==> final(begun).records() == old(begun).records(),
        final(begun).records()[other] == old(begun).records()[other],
        committed <==> old(admitting).records().contains_key(attempt.peer) && (
        old(admitting).records()[attempt.peer] matches PeerConnectionLifecycle::Admitting {
            attempt: owner,
            ..
        } && owner == attempt),
        committed ==> final(admitting).records()[attempt.peer] == (
        PeerConnectionLifecycle::Active { attempt, announced: false }),
        !committed ==> final(admitting).records() == old(admitting).records(),
        final(admitting).records()[other] == old(admitting).records()[other],
        final(begun).terminal() == old(begun).terminal(),
        final(admitting).terminal() == old(admitting).terminal(),
{
}

/// A handshake is removed exactly while it is in the scope that is asked: pending only, or pending
/// or admitting. An active generation is removed only as active, and stops being terminal with it.
pub proof fn law_removals_keep_to_their_phase(
    pending: &mut ConnectionLifecycleRegistry,
    unadmitted: &mut ConnectionLifecycleRegistry,
    active: &mut ConnectionLifecycleRegistry,
    attempt: PendingConnectionAttempt,
    pending_gone: bool,
    unadmitted_gone: bool,
    active_gone: bool,
    other: Did,
)
    requires
        old(pending).wf(),
        call_ensures(ConnectionLifecycleRegistry::remove_pending, (pending, attempt), pending_gone),
        old(unadmitted).wf(),
        call_ensures(
            ConnectionLifecycleRegistry::remove_unadmitted,
            (unadmitted, attempt),
            unadmitted_gone,
        ),
        old(active).wf(),
        call_ensures(ConnectionLifecycleRegistry::remove_active, (active, attempt), active_gone),
        other != attempt.peer,
    ensures
        pending_gone <==> old(pending).records().contains_key(attempt.peer) && (
        old(pending).records()[attempt.peer] matches PeerConnectionLifecycle::Pending {
            attempt: owner,
            ..
        } && owner == attempt),
        pending_gone ==> !final(pending).records().contains_key(attempt.peer),
        !pending_gone ==> final(pending).records() == old(pending).records(),
        unadmitted_gone <==> old(unadmitted).records().contains_key(attempt.peer) && (
        match old(unadmitted).records()[attempt.peer] {
            PeerConnectionLifecycle::Pending { attempt: owner, .. } => owner == attempt,
            PeerConnectionLifecycle::Admitting { attempt: owner, .. } => owner == attempt,
            PeerConnectionLifecycle::Active { .. } => false,
        }),
        unadmitted_gone ==> !final(unadmitted).records().contains_key(attempt.peer),
        !unadmitted_gone ==> final(unadmitted).records() == old(unadmitted).records(),
        active_gone <==> old(active).records().contains_key(attempt.peer) && (
        old(active).records()[attempt.peer] matches PeerConnectionLifecycle::Active {
            attempt: owner,
            ..
        } && owner == attempt),
        active_gone ==> !final(active).records().contains_key(attempt.peer) && !final(active).terminal().contains(attempt),
        !active_gone ==> final(active).records() == old(active).records(),
        final(pending).records().contains_key(other) == old(pending).records().contains_key(other),
        final(unadmitted).records().contains_key(other) == old(unadmitted).records().contains_key(
            other,
        ),
        final(active).records().contains_key(other) == old(active).records().contains_key(other),
{
}

/// A generation is announced, or marked to take no more sends, exactly while it is the active one of
/// its peer; it keeps its slot either way.
pub proof fn law_marks_need_the_active_slot(
    announced: &mut ConnectionLifecycleRegistry,
    terminal: &mut ConnectionLifecycleRegistry,
    attempt: PendingConnectionAttempt,
    told: bool,
    marked: bool,
)
    requires
        old(announced).wf(),
        call_ensures(ConnectionLifecycleRegistry::mark_announced, (announced, attempt), told),
        old(terminal).wf(),
        call_ensures(ConnectionLifecycleRegistry::mark_send_terminal, (terminal, attempt), marked),
    ensures
        told <==> old(announced).records().contains_key(attempt.peer) && (
        old(announced).records()[attempt.peer] matches PeerConnectionLifecycle::Active {
            attempt: owner,
            ..
        } && owner == attempt),
        told ==> final(announced).records()[attempt.peer] == (PeerConnectionLifecycle::Active {
            attempt,
            announced: true,
        }),
        !told ==> final(announced).records() == old(announced).records(),
        marked <==> old(terminal).records().contains_key(attempt.peer) && (
        old(terminal).records()[attempt.peer] matches PeerConnectionLifecycle::Active {
            attempt: owner,
            ..
        } && owner == attempt),
        final(terminal).terminal().contains(attempt) <==> marked || old(terminal).terminal().contains(attempt),
        final(terminal).records() == old(terminal).records(),
{
}

/// A peer has a sending generation exactly if its active one takes sends, an active one exactly if
/// it was admitted, and an announced one exactly if the application was told of that.
pub proof fn law_generations_are_found_by_their_phase(
    registry: ConnectionLifecycleRegistry,
    peer: Did,
    sending: Option<PendingConnectionAttempt>,
    active: Option<PendingConnectionAttempt>,
    announced: Option<PendingConnectionAttempt>,
    pending: Option<PendingConnectionAttempt>,
    unadmitted: Option<PendingConnectionAttempt>,
)
    requires
        registry.wf(),
        call_ensures(ConnectionLifecycleRegistry::sendable_attempt, (&registry, peer), sending),
        call_ensures(ConnectionLifecycleRegistry::active_attempt, (&registry, peer), active),
        call_ensures(ConnectionLifecycleRegistry::announced_attempt, (&registry, peer), announced),
        call_ensures(ConnectionLifecycleRegistry::pending_attempt, (&registry, peer), pending),
        call_ensures(
            ConnectionLifecycleRegistry::unadmitted_attempt,
            (&registry, peer),
            unadmitted,
        ),
    ensures
        ({
            let known = registry.records().contains_key(peer);
            let state = registry.records()[peer];
            &&& active is Some <==> known && state is Active
            &&& active matches Some(attempt) ==> state->Active_attempt == attempt
            &&& sending is Some <==> known && state is Active && !registry.terminal().contains(
                state->Active_attempt,
            )
            &&& sending is Some ==> sending == active
            &&& announced is Some <==> known && state is Active && state->announced
            &&& announced is Some ==> announced == active
            &&& pending is Some <==> known && state is Pending
            &&& pending matches Some(attempt) ==> state->Pending_attempt == attempt
            &&& unadmitted is Some <==> known && !(state is Active)
            &&& pending is Some ==> unadmitted == pending
        }),
{
}

/// A handshake expires exactly if it was reserved three minutes ago or longer; an active generation
/// never does. What expires is reported once, with its age, and its record goes; nothing else does.
pub proof fn law_handshakes_expire_after_three_minutes(
    registry: &mut ConnectionLifecycleRegistry,
    now_ms: i64,
    expired: Vec<ExpiredUnadmittedPeer>,
    peer: Did,
)
    requires
        old(registry).wf(),
        call_ensures(ConnectionLifecycleRegistry::expire, (registry, now_ms), expired),
        old(registry).records().contains_key(peer),
    ensures
        ({
            let state = old(registry).records()[peer];
            let over = match state {
                PeerConnectionLifecycle::Pending { started_at_ms, .. } => now_ms - started_at_ms
                    >= 180_000,
                PeerConnectionLifecycle::Admitting { started_at_ms, .. } => now_ms - started_at_ms
                    >= 180_000,
                PeerConnectionLifecycle::Active { .. } => false,
            };
            &&& final(registry).records().contains_key(peer) <==> !over
            &&& !over ==> final(registry).records()[peer] == state
        }),
        forall|i: int|
            0 <= i < expired@.len() ==> (#[trigger] expired@[i]).age_ms >= 180_000
                && expired@[i].attempt.generation <= old(registry).latest_generation(),
{
}

/// The handshakes a node may have at once never exceed its records.
pub proof fn law_handshake_bound_is_contained(pending: usize, total: usize, bounds: LifecycleBounds)
    requires
        call_ensures(LifecycleBounds::new, (pending, total), bounds),
    ensures
        bounds.records() == total,
        bounds.handshakes() <= total,
        bounds.handshakes() <= pending,
        bounds.handshakes() == pending || bounds.handshakes() == total,
{
}

/// The peers with an announced generation are listed once each, in order; the set of sending
/// generations holds exactly those that are active and take sends, and the set of admitted ones
/// exactly those that are active.
pub proof fn law_listings_hold_every_generation_of_their_phase(
    registry: ConnectionLifecycleRegistry,
    listed: Vec<PendingConnectionAttempt>,
    sending: ActiveConnectionSet,
    active: ActiveConnectionSet,
    peer: Did,
)
    requires
        registry.wf(),
        call_ensures(ConnectionLifecycleRegistry::announced_attempts, (&registry,), listed),
        call_ensures(ConnectionLifecycleRegistry::active_connections, (&registry,), sending),
        call_ensures(ConnectionLifecycleRegistry::admitted_connections, (&registry,), active),
    ensures
        ({
            let records = registry.records();
            let admitted_now = records.contains_key(peer) && records[peer] is Active;
            &&& (exists|i: int| 0 <= i < listed@.len() && (#[trigger] listed@[i]).peer == peer)
                <==> admitted_now && records[peer]->announced
            &&& sending@.contains_key(peer) <==> admitted_now && !registry.terminal().contains(
                records[peer]->Active_attempt,
            )
            &&& sending@.contains_key(peer) ==> sending@[peer] == records[peer]->Active_attempt
            &&& active@.contains_key(peer) <==> admitted_now
            &&& active@.contains_key(peer) ==> active@[peer] == records[peer]->Active_attempt
        }),
        forall|i: int, j: int|
            0 <= i < j < listed@.len() ==> (#[trigger] listed@[i]).peer.rank() < (
            #[trigger] listed@[j]).peer.rank(),
{
    if exists|i: int| 0 <= i < listed@.len() && (#[trigger] listed@[i]).peer == peer {
        let i = choose|i: int| 0 <= i < listed@.len() && (#[trigger] listed@[i]).peer == peer;
        assert(announced(registry.records()).contains_pair(listed@[i].peer, listed@[i]));
    }
    if announced(registry.records()).contains_key(peer) {
        let i = choose|i: int| 0 <= i < listed@.len() && (#[trigger] listed@[i]).peer == peer;
        assert(listed@[i].peer == peer);
    }
}

/// A pending generation that is promoted is active and not announced; any other is left as it is.
pub proof fn law_promotion_skips_the_admission(
    registry: &mut ConnectionLifecycleRegistry,
    attempt: PendingConnectionAttempt,
    promoted: bool,
    other: Did,
)
    requires
        old(registry).wf(),
        call_ensures(ConnectionLifecycleRegistry::promote, (registry, attempt), promoted),
        other != attempt.peer,
    ensures
        promoted <==> old(registry).records().contains_key(attempt.peer) && (
        old(registry).records()[attempt.peer] matches PeerConnectionLifecycle::Pending {
            attempt: owner,
            ..
        } && owner == attempt),
        promoted ==> final(registry).records().contains_key(attempt.peer)
            && final(registry).records()[attempt.peer] == (PeerConnectionLifecycle::Active {
            attempt,
            announced: false,
        }),
        !promoted ==> final(registry).records() == old(registry).records(),
        final(registry).records().contains_key(other) == old(registry).records().contains_key(
            other,
        ),
        final(registry).terminal() == old(registry).terminal(),
{
}

/// A reservation is judged by what stands against it first: a record, too many handshakes, too many
/// records; a connection is evicted for the last of these only.
pub proof fn law_verdict_names_what_stands_against_it(
    registry: ConnectionLifecycleRegistry,
    peer: Did,
    verdict: ReservationVerdict,
    evicts: bool,
    state: Option<PeerConnectionLifecycle>,
)
    requires
        registry.wf(),
        call_ensures(ConnectionLifecycleRegistry::reservation_verdict, (&registry, peer), verdict),
        call_ensures(ReservationVerdict::needs_eviction, (verdict,), evicts),
        call_ensures(ConnectionLifecycleRegistry::state, (&registry, peer), state),
    ensures
        ({
            let known = registry.records().contains_key(peer);
            let crowded = unadmitted_peers(registry.records()).len()
                >= registry.limits().handshakes();
            let full = registry.records().dom().len() >= registry.limits().records();
            &&& verdict is AlreadyConnected <==> known
            &&& verdict is PendingCapacityExceeded <==> !known && crowded
            &&& verdict is CapacityExceeded <==> !known && !crowded && full
            &&& evicts <==> !known && !crowded && full
            &&& state is Some <==> known
            &&& state matches Some(found) ==> found == registry.records()[peer]
        }),
{
    assert(unadmitted_peers(registry.records()) =~= handshaking(registry.records()));
}

/// An active generation is retired exactly if the action asks for it: its record and its mark go,
/// and what it was announced as is told. Any other outcome changes nothing.
pub proof fn law_retired_generation_leaves_the_registry<
    T,
    F: FnOnce(&ActiveConnectionSet) -> Result<Option<T>, Error>,
>(
    registry: &mut ConnectionLifecycleRegistry,
    attempt: PendingConnectionAttempt,
    action: F,
    outcome: Result<RetirementOutcome<(T, Retirement)>, Error>,
    other: Did,
)
    requires
        old(registry).wf(),
        call_ensures(
            ConnectionLifecycleRegistry::retire_active_if::<T, F>,
            (registry, attempt, action),
            outcome,
        ),
        other != attempt.peer,
    ensures
        ({
            let before = old(registry).records();
            let active = before.contains_key(attempt.peer) && (
            before[attempt.peer] matches PeerConnectionLifecycle::Active { attempt: owner, .. }
                && owner == attempt);
            let retired = outcome matches Ok(RetirementOutcome::Retired(_));
            &&& (outcome matches Ok(RetirementOutcome::Superseded)) <==> !active
            &&& retired ==> active && !final(registry).records().contains_key(attempt.peer)
                && !final(registry).terminal().contains(attempt)
            &&& outcome matches Ok(RetirementOutcome::Retired((given, witness))) ==> {
                &&& witness.announced() == before[attempt.peer]->announced
                &&& exists|seen: &ActiveConnectionSet|
                    #[trigger] action.ensures((seen,), Ok::<Option<T>, Error>(Some(given)))
            }
            &&& outcome matches Err(error) ==> exists|seen: &ActiveConnectionSet|
                #[trigger] action.ensures((seen,), Err::<Option<T>, Error>(error))
            &&& !retired ==> final(registry).records() == before && final(registry).terminal()
                == old(registry).terminal()
            &&& final(registry).records().contains_key(other) == before.contains_key(other)
            &&& final(registry).records()[other] == before[other]
        }),
{
}

} // verus!

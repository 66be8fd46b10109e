//! The connections of one node: which generation owns which peer, and what may be done with it.

use vstd::prelude::*;

use crate::clock::elapsed_between;
use crate::did::Did;
use crate::error::Error;
use crate::liveness::LivenessRecords;
use crate::liveness::PeerLivenessExpiry;
use crate::liveness::PeerLivenessMap;
use crate::liveness::PeerLivenessObservation;
use crate::liveness::after_inbound;
use crate::liveness::after_observation;
use crate::liveness::after_probe;
use crate::liveness::aligned;
use crate::liveness::due;
use crate::liveness::expiry_at;
use crate::liveness::fresh;
use crate::liveness::recorded;
use crate::ordered_map::OrderedKey;
use crate::ordered_map::OrderedMap;
use crate::pending::AnswerSlot;
use crate::pending::CancellationScope;
use crate::pending::ConnectionEventDisposition;
use crate::pending::FingerCandidateAdmission;
use crate::pending::FingerFixRequest;
use crate::pending::FingerOutcome;
use crate::pending::FingerUpdateDisposition;
use crate::pending::RawConnectionOwner;
use crate::pending::answer_slot;
use crate::pending::disposition_of;
use crate::pending::event_disposition;
use crate::pending::finger_candidate_admission;
use crate::pending::finger_disposition;
use crate::pending::raw_connection_owner;
use crate::readiness::ConnectionStateSnapshot;
use crate::readiness::SwarmConnection;
use crate::registry::ActiveConnectionSet;
use crate::registry::ConnectionLifecycleRegistry;
use crate::registry::ExpiredUnadmittedPeer;
use crate::registry::LifecycleBounds;
use crate::registry::PeerConnectionLifecycle;
use crate::registry::PendingConnectionAttempt;
use crate::registry::Records;
use crate::registry::ReservationVerdict;
use crate::registry::Retirement;
use crate::registry::RetirementOutcome;
use crate::registry::activated;
use crate::registry::active_removed;
use crate::registry::admission_begun;
use crate::registry::admitted;
use crate::registry::announced;
use crate::registry::announcement_marked;
use crate::registry::expiry_of;
use crate::registry::handshaking;
use crate::registry::is_active;
use crate::registry::is_admitting;
use crate::registry::is_announced;
use crate::registry::is_current;
use crate::registry::is_pending;
use crate::registry::lists_in_order;
use crate::registry::owned_by_peers;
use crate::registry::pending_removed;
use crate::registry::sendable;
use crate::registry::unadmitted_peers;
use crate::registry::unadmitted_removed;
use crate::registry::unexpired;
use crate::registry::verdict_of;
use crate::rerouting::LinkHop;
use crate::retention::RetentionCandidate;
use crate::retention::RetentionEvidence;
use crate::retention::UnreferencedRetirement;
use crate::retention::contains_peer;
use crate::retention::evictable_flags;
use crate::retention::eviction_order;
use crate::retention::is_eviction_plan;
use crate::stable_order::Ranked;
use crate::stable_order::goes_first;
use crate::stable_order::is_stable_order;
use crate::stable_order::stable_order;

verus! {

/// The connections of one node, as a value.
#[verifier::ext_equal]
pub struct TransportModel {
    /// This node.
    pub local: Did,
    /// The lifecycle records.
    pub records: Records,
    /// The active generations that accept no new send.
    pub terminal: Set<PendingConnectionAttempt>,
    /// The latest generation number given out.
    pub latest: u64,
    /// The bounds of the records.
    pub limits: LifecycleBounds,
    /// The physical connections.
    pub connections: Map<Did, SwarmConnection>,
    /// The finger proof each pending generation keeps.
    pub proofs: Map<PendingConnectionAttempt, FingerFixRequest>,
    /// The liveness records.
    pub liveness: LivenessRecords,
    /// The peers whose disconnection was measured.
    pub measured: Set<Did>,
}

impl TransportModel {
    /// The peer's active generation accepts sends.
    pub open spec fn sends_to(self, peer: Did) -> bool {
        sendable(self.records, self.terminal).contains_key(peer)
    }

    /// The generation that sends to `peer`.
    pub open spec fn sender_of(self, peer: Did) -> PendingConnectionAttempt {
        sendable(self.records, self.terminal)[peer]
    }

    /// The peer's active generation accepts sends, and its connection is ready.
    pub open spec fn routes_to(self, peer: Did) -> bool {
        &&& self.sends_to(peer)
        &&& self.connections.contains_key(peer)
        &&& self.connections[peer].reading().ready()
    }

    /// The physical connection to `peer`.
    pub open spec fn connection_to(self, peer: Did) -> Option<SwarmConnection> {
        if self.connections.contains_key(peer) {
            Some(self.connections[peer])
        } else {
            None
        }
    }

    /// The state of `peer`.
    pub open spec fn state_of(self, peer: Did) -> Option<PeerConnectionLifecycle> {
        if self.records.contains_key(peer) {
            Some(self.records[peer])
        } else {
            None
        }
    }

    /// The finger proof that `attempt` keeps.
    pub open spec fn proof_of(self, attempt: PendingConnectionAttempt) -> Option<
        FingerFixRequest,
    > {
        if self.proofs.contains_key(attempt) {
            Some(self.proofs[attempt])
        } else {
            None
        }
    }

    /// The connections once the active generation `attempt` is retired: nothing of its peer is
    /// kept but the physical connection.
    pub open spec fn retired(self, attempt: PendingConnectionAttempt) -> TransportModel {
        TransportModel {
            records: active_removed(self.records, attempt),
            terminal: self.terminal.remove(attempt),
            proofs: without_peer(self.proofs, attempt.peer),
            liveness: self.liveness.remove(attempt.peer),
            measured: self.measured.remove(attempt.peer),
            ..self
        }
    }

    /// What to do with a reported finger to `peer`.
    pub open spec fn finger_admission(self, peer: Did) -> FingerCandidateAdmission {
        if peer == self.local {
            FingerCandidateAdmission::Apply
        } else {
            match self.state_of(peer) {
                None => FingerCandidateAdmission::Missing,
                Some(PeerConnectionLifecycle::Active { .. }) => if self.routes_to(peer) {
                    FingerCandidateAdmission::Apply
                } else {
                    FingerCandidateAdmission::Unroutable
                },
                Some(state) => FingerCandidateAdmission::Queue(state.owner()),
            }
        }
    }

    /// `peer` may replace `removed` as a successor.
    pub open spec fn may_replace(self, removed: Did, peer: Did) -> bool {
        peer != self.local && peer != removed && self.routes_to(peer)
    }

    /// `peer` can take the place of `removed`, and is nearer than every other that can.
    pub open spec fn nearest_replacement(self, removed: Did, peer: Did) -> bool {
        &&& self.may_replace(removed, peer)
        &&& forall|other: Did| #[trigger]
            self.may_replace(removed, other) && other != peer ==> peer.distance_from(self.local)
                < other.distance_from(self.local)
    }

    /// No peer can take the place of `removed`.
    pub open spec fn irreplaceable(self, removed: Did) -> bool {
        forall|peer: Did| !(#[trigger] self.may_replace(removed, peer))
    }
}

/// The proofs of every generation that does not belong to `peer`.
pub open spec fn without_peer(
    proofs: Map<PendingConnectionAttempt, FingerFixRequest>,
    peer: Did,
) -> Map<PendingConnectionAttempt, FingerFixRequest> {
    proofs.restrict(proofs.dom().filter(|attempt: PendingConnectionAttempt| attempt.peer != peer))
}

/// `peers` lists what `wanted` names, each once, in identity order.
pub open spec fn lists_peers(peers: Seq<Did>, wanted: spec_fn(Did) -> bool) -> bool {
    &&& forall|i: int| 0 <= i < peers.len() ==> wanted(#[trigger] peers[i])
    &&& forall|i: int, j: int|
        0 <= i < j < peers.len() ==> (#[trigger] peers[i]).rank() < (#[trigger] peers[j]).rank()
    &&& forall|peer: Did| wanted(peer) ==> #[trigger] peers.contains(peer)
}

/// `replacements` are the `capacity` nearest of the peers that may replace `removed`, nearest
/// first.
pub open spec fn nearest_replacements(
    model: TransportModel,
    removed: Did,
    capacity: usize,
    replacements: Seq<Did>,
) -> bool {
    &&& replacements.len() <= capacity
    &&& forall|i: int|
        0 <= i < replacements.len() ==> model.may_replace(removed, #[trigger] replacements[i])
    &&& forall|i: int, j: int|
        0 <= i < j < replacements.len() ==> (#[trigger] replacements[i]).distance_from(model.local)
            < (#[trigger] replacements[j]).distance_from(model.local)
    &&& forall|peer: Did|
        #![trigger model.may_replace(removed, peer)]
        model.may_replace(removed, peer) && !replacements.contains(peer) ==> replacements.len()
            == capacity && forall|i: int|
            0 <= i < replacements.len() ==> (#[trigger] replacements[i]).distance_from(model.local)
                < peer.distance_from(model.local)
}

/// A peer and its clockwise offset from this node.
#[derive(Clone, Copy, Debug, PartialEq, Eq, Hash, Structural)]
pub struct RingCandidate {
    /// The peer.
    pub peer: Did,
    /// Its offset.
    pub offset: Did,
}

impl Ranked for RingCandidate {
    /// The nearer first.
    open spec fn outranks(&self, other: &Self) -> bool {
        self.offset.position() < other.offset.position()
    }

    proof fn lemma_weak_order(a: &Self, b: &Self, c: &Self) {
    }

    fn goes_before(&self, other: &Self) -> (before: bool) {
        proof {
            Did::lemma_position_injective(self.offset, other.offset);
            Did::lemma_position_injective(other.offset, self.offset);
        }
        self.offset.precedes(other.offset)
    }
}

/// An admitted connection a send is bound to. Holding one authorizes nothing: whether its
/// generation is still the current one is checked anew at every step.
#[derive(Clone, Copy, Debug, PartialEq, Eq, Hash, Structural)]
pub struct AdmittedConnection {
    /// The generation.
    pub attempt: PendingConnectionAttempt,
    /// Its physical connection.
    pub connection: SwarmConnection,
}

/// What became of a peer's place in the topology.
#[derive(Clone, Copy, Debug, PartialEq, Eq, Hash, Structural)]
pub struct PeerRemovalOutcome {
    /// The peer that took its place.
    pub fallback: Option<Did>,
}

impl PeerRemovalOutcome {
    /// The peer that took its place.
    pub fn fallback(self) -> (fallback: Option<Did>)
        ensures
            fallback == self.fallback,
    {
        self.fallback
    }
}

/// A retired connection: what is left to close, announce and stop.
#[derive(Debug)]
pub struct RetiredConnection {
    /// The physical connection to close.
    pub connection: Option<SwarmConnection>,
    /// What became of the peer's place in the topology.
    pub removal: PeerRemovalOutcome,
    /// The witness of the retirement.
    pub witness: Retirement,
}

/// What becomes of a connection that was to be opened.
#[derive(Debug)]
pub enum CreationStep {
    /// It is handed to its generation.
    Keep,
    /// Its generation lost its slot meanwhile: close it and fail with this error.
    Close(Error),
    /// It could not be opened. Its handshake is over if it was still pending; what the backend
    /// holds for the peer is left alone.
    Retired(Option<CancelledConnection>),
}

/// A cancelled handshake: what is left to close and release.
#[derive(Clone, Copy, Debug, PartialEq, Eq, Hash, Structural)]
pub struct CancelledConnection {
    /// The generation.
    pub attempt: PendingConnectionAttempt,
    /// The physical connection to close.
    pub connection: Option<SwarmConnection>,
    /// The finger proof to release.
    pub finger: Option<FingerFixRequest>,
}

/// What disconnecting a peer comes to.
#[derive(Debug)]
pub enum Disconnected {
    /// A handshake was cancelled.
    Cancelled(CancelledConnection),
    /// An active connection was retired.
    Retired(RetiredConnection),
    /// The peer's generation is past cancelling and not active: nothing happened.
    Untouched,
    /// Nothing owned the peer; this physical connection, if any, is left to close.
    Unowned(Option<SwarmConnection>),
}

/// How the active generation `attempt` leaves the topology and the connections: not at all unless
/// it is active and `remove` succeeds on its peer and the peers that take its place.
pub open spec fn taken_out<F: FnOnce(Did, &Vec<Did>) -> Result<(), Error>>(
    before: TransportModel,
    attempt: PendingConnectionAttempt,
    unavailable: bool,
    first_successor: Option<Did>,
    successor_capacity: usize,
    remove: F,
    retired: Result<Option<RetiredConnection>, Error>,
    after: TransportModel,
) -> bool {
    if !is_active(before.records, attempt) {
        (retired matches Ok(None)) && after == before
    } else {
        exists|replacements: &Vec<Did>, removed: Result<(), Error>|
            {
                &&& #[trigger] remove.ensures((attempt.peer, replacements), removed)
                &&& if unavailable && first_successor == Some(attempt.peer) {
                    nearest_replacements(before, attempt.peer, successor_capacity, replacements@)
                } else {
                    replacements@ == Seq::<Did>::empty()
                }
                &&& match removed {
                    Ok(()) => {
                        &&& retired matches Ok(Some(retired)) && retired.connection
                            == before.connection_to(attempt.peer) && retired.removal.fallback == (
                        if replacements@.len() > 0 {
                            Some(replacements@[0])
                        } else {
                            None
                        }) && retired.witness.announced() == is_announced(before.records, attempt)
                        &&& after == before.retired(attempt)
                    },
                    Err(error) => retired == Err::<Option<RetiredConnection>, Error>(error)
                        && after == before,
                }
            }
    }
}

/// The proofs that outlive the expiry of handshakes at `now_ms`.
pub open spec fn surviving_proofs(model: TransportModel, now_ms: i64) -> Map<
    PendingConnectionAttempt,
    FingerFixRequest,
> {
    model.proofs.remove_keys(
        model.proofs.dom().filter(
            |attempt: PendingConnectionAttempt| outlived(model.records, attempt, now_ms),
        ),
    )
}

/// `attempt` owns a handshake that has outlived its lifetime at `now_ms`.
pub open spec fn outlived(records: Records, attempt: PendingConnectionAttempt, now_ms: i64) -> bool {
    &&& is_current(records, attempt)
    &&& expiry_of(records[attempt.peer], now_ms) is Some
}

/// What the eviction order knows of an admitted generation.
pub open spec fn candidate_of(
    model: TransportModel,
    attempt: PendingConnectionAttempt,
    now_ms: i64,
) -> RetentionCandidate {
    RetentionCandidate {
        attempt,
        send_terminal: model.terminal.contains(attempt),
        evidence: if recorded(model.liveness, attempt.peer, attempt.generation) {
            Some(
                RetentionEvidence {
                    age_ms: elapsed_between(
                        now_ms,
                        model.liveness[attempt.peer].connected_at_ms,
                    ) as i64,
                    idle_ms: elapsed_between(
                        now_ms,
                        model.liveness[attempt.peer].last_inbound_ms,
                    ) as i64,
                },
            )
        } else {
            None
        },
    }
}

/// What the eviction order knows of each of `attempts`.
pub open spec fn candidates_of(
    model: TransportModel,
    attempts: Seq<PendingConnectionAttempt>,
    now_ms: i64,
) -> Seq<RetentionCandidate> {
    attempts.map_values(
        |attempt: PendingConnectionAttempt| candidate_of(model, attempt, now_ms),
    )
}

/// A handshake that outlived its lifetime: what is left to report, close and release.
#[derive(Clone, Copy, Debug, PartialEq, Eq, Hash, Structural)]
pub struct ExpiredConnection {
    /// The report.
    pub report: ExpiredUnadmittedPeer,
    /// The physical connection to close.
    pub connection: Option<SwarmConnection>,
    /// The finger proof to release.
    pub finger: Option<FingerFixRequest>,
}

/// How the wait for a connection's readiness ended.
#[derive(Clone, Copy, Debug, PartialEq, Eq, Hash, Structural)]
pub enum SendWait {
    /// It is ready.
    Ready,
    /// It failed, or never will be.
    Failed,
    /// It took too long.
    TimedOut,
}

/// What the wait for a connection's readiness comes to.
#[derive(Debug)]
pub enum CheckedConnection {
    /// The send is bound to this connection.
    Usable(AdmittedConnection),
    /// The connection is ready, and its generation no longer sends.
    Superseded,
    /// The connection was given up; what is left to close, unless its generation was gone already.
    Dropped(Option<RetiredConnection>),
    /// The connection was to be given up, and the topology kept its peer.
    Kept(Error),
}

/// The connections of one node.
pub struct SwarmTransport {
    did: Did,
    lifecycles: ConnectionLifecycleRegistry,
    raw: OrderedMap<Did, SwarmConnection>,
    pending_finger_updates: OrderedMap<PendingConnectionAttempt, FingerFixRequest>,
    peer_liveness: PeerLivenessMap,
    measured_disconnects: OrderedMap<Did, ()>,
}

impl SwarmTransport {
    /// The connections, as a value.
    pub closed spec fn view(&self) -> TransportModel {
        TransportModel {
            local: self.did,
            records: self.lifecycles.records(),
            terminal: self.lifecycles.terminal(),
            latest: self.lifecycles.latest_generation(),
            limits: self.lifecycles.limits(),
            connections: self.raw@,
            proofs: self.pending_finger_updates@,
            liveness: self.peer_liveness@,
            measured: self.measured_disconnects@.dom(),
        }
    }

    /// Every table keeps its own order and bounds, and every physical connection is filed under
    /// its peer.
    pub closed spec fn wf(&self) -> bool {
        &&& self.lifecycles.wf()
        &&& self.raw.wf()
        &&& self.pending_finger_updates.wf()
        &&& self.peer_liveness.wf()
        &&& self.measured_disconnects.wf()
        &&& forall|peer: Did| #[trigger]
            self.raw@.contains_key(peer) ==> self.raw@[peer].peer == peer
    }

    /// A node without connections.
    pub fn new(did: Did, bounds: LifecycleBounds) -> (transport: Self)
        ensures
            transport.wf(),
            transport@ == (TransportModel {
                local: did,
                records: Map::empty(),
                terminal: Set::empty(),
                latest: 0,
                limits: bounds,
                connections: Map::empty(),
                proofs: Map::empty(),
                liveness: Map::empty(),
                measured: Set::empty(),
            }),
    {
        let transport = SwarmTransport {
            did,
            lifecycles: ConnectionLifecycleRegistry::new(bounds),
            raw: OrderedMap::new(),
            pending_finger_updates: OrderedMap::new(),
            peer_liveness: PeerLivenessMap::new(),
            measured_disconnects: OrderedMap::new(),
        };
        assert(transport@.measured =~= Set::<Did>::empty());
        transport
    }

    /// This node.
    pub fn did(&self) -> (did: Did)
        ensures
            did == self@.local,
    {
        self.did
    }

    /// The physical connection to `peer`.
    pub fn get_raw_connection(&self, peer: Did) -> (connection: Option<SwarmConnection>)
        requires
            self.wf(),
        ensures
            connection == self@.connection_to(peer),
            connection matches Some(connection) ==> connection.peer == peer,
    {
        match self.raw.get(peer) {
            Some(connection) => Some(*connection),
            None => None,
        }
    }

    /// Note what the backend observed of the physical connection to `peer`.
    pub fn observe_connection(&mut self, peer: Did, handle: u64, snapshot: ConnectionStateSnapshot)
        requires
            old(self).wf(),
        ensures
            final(self).wf(),
            final(self)@ == (TransportModel {
                connections: old(self)@.connections.insert(
                    peer,
                    SwarmConnection { peer, handle, snapshot },
                ),
                ..old(self)@
            }),
    {
        self.raw.insert(peer, SwarmConnection { peer, handle, snapshot });
    }

    /// Note that the backend closed the physical connection numbered `handle` to `peer`; a
    /// replacement of it stays.
    pub fn forget_connection(&mut self, peer: Did, handle: u64)
        requires
            old(self).wf(),
        ensures
            final(self).wf(),
            final(self)@ == (TransportModel {
                connections: if old(self)@.connections.contains_key(peer)
                    && old(self)@.connections[peer].handle == handle {
                    old(self)@.connections.remove(peer)
                } else {
                    old(self)@.connections
                },
                ..old(self)@
            }),
    {
        let current = match self.raw.get(peer) {
            Some(connection) => connection.handle == handle,
            None => false,
        };
        if current {
            let _ = self.raw.remove(peer);
        }
    }

    /// The routable connection to `peer`: its generation accepts sends, and it is ready.
    pub fn get_connection(&self, peer: Did) -> (connection: Option<SwarmConnection>)
        requires
            self.wf(),
        ensures
            connection == (if self@.routes_to(peer) {
                Some(self@.connections[peer])
            } else {
                None
            }),
    {
        if self.lifecycles.sendable_attempt(peer).is_none() {
            return None;
        }
        match self.get_raw_connection(peer) {
            Some(connection) => if connection.readiness().can_make_progress() {
                Some(connection)
            } else {
                None
            },
            None => None,
        }
    }

    /// Every routable connection, in identity order.
    pub fn get_connections(&self) -> (connections: Vec<(Did, SwarmConnection)>)
        requires
            self.wf(),
        ensures
            lists_peers(
                connections@.map_values(|entry: (Did, SwarmConnection)| entry.0),
                |peer: Did| self@.routes_to(peer),
            ),
            forall|i: int|
                0 <= i < connections@.len() ==> (#[trigger] connections@[i]).1
                    == self@.connections[connections@[i].0],
    {
        let active = self.lifecycles.active_connections();
        let attempts = active.attempts();
        let mut connections: Vec<(Did, SwarmConnection)> = Vec::new();
        let mut index: usize = 0;
        while index < attempts.len()
            invariant
                self.wf(),
                index <= attempts@.len(),
                lists_in_order(attempts@, sendable(self@.records, self@.terminal)),
                forall|i: int|
                    0 <= i < connections@.len() ==> self@.routes_to(
                        (#[trigger] connections@[i]).0,
                    ) && connections@[i].1 == self@.connections[connections@[i].0],
                forall|i: int|
                    0 <= i < connections@.len() ==> exists|j: int|
                        0 <= j < index && (#[trigger] connections@[i]).0 == (
                        #[trigger] attempts@[j]).peer,
                forall|i: int, j: int|
                    0 <= i < j < connections@.len() ==> (#[trigger] connections@[i]).0.rank() < (
                    #[trigger] connections@[j]).0.rank(),
                forall|j: int|
                    0 <= j < index && self@.routes_to((#[trigger] attempts@[j]).peer) ==> exists|
                        i: int,
                    |
                        0 <= i < connections@.len() && (#[trigger] connections@[i]).0
                            == attempts@[j].peer,
            decreases attempts@.len() - index,
        {
            let peer: Did = attempts[index].peer;
            let ghost before = connections@;
            proof {
                assert forall|i: int| 0 <= i < connections@.len() implies (
                #[trigger] connections@[i]).0.rank() < peer.rank() by {
                    let j = choose|j: int|
                        0 <= j < index && connections@[i].0 == (#[trigger] attempts@[j]).peer;
                    assert(attempts@[j].peer.rank() < attempts@[index as int].peer.rank());
                }
            }
            if let Some(connection) = self.get_connection(peer) {
                connections.push((peer, connection));
                proof {
                    assert(connections@[before.len() as int].0 == attempts@[index as int].peer);
                    assert forall|i: int| 0 <= i < connections@.len() implies exists|j: int|
                        0 <= j < index + 1 && (#[trigger] connections@[i]).0 == (
                        #[trigger] attempts@[j]).peer by {
                        if i < before.len() {
                            assert(connections@[i] == before[i]);
                            let j = choose|j: int|
                                0 <= j < index && before[i].0 == (#[trigger] attempts@[j]).peer;
                            assert(connections@[i].0 == attempts@[j].peer);
                        } else {
                            assert(connections@[i].0 == attempts@[index as int].peer);
                        }
                    }
                    assert forall|j: int|
                        0 <= j < index + 1 && self@.routes_to(
                            (#[trigger] attempts@[j]).peer,
                        ) implies exists|i: int|
                        0 <= i < connections@.len() && (#[trigger] connections@[i]).0
                            == attempts@[j].peer by {
                        if j < index {
                            let i = choose|i: int|
                                0 <= i < before.len() && (#[trigger] before[i]).0
                                    == attempts@[j].peer;
                            assert(connections@[i].0 == attempts@[j].peer);
                        } else {
                            assert(connections@[before.len() as int].0 == attempts@[j].peer);
                        }
                    }
                }
            }
            index += 1;
        }
        proof {
            let peers = connections@.map_values(|entry: (Did, SwarmConnection)| entry.0);
            assert forall|peer: Did| self@.routes_to(peer) implies #[trigger] peers.contains(
                peer,
            ) by {
                assert(sendable(self@.records, self@.terminal).contains_key(peer));
                let j = choose|j: int|
                    0 <= j < attempts@.len() && (#[trigger] attempts@[j]).peer == peer;
                let i = choose|i: int|
                    0 <= i < connections@.len() && (#[trigger] connections@[i]).0
                        == attempts@[j].peer;
                assert(peers[i] == peer);
            }
        }
        connections
    }

    /// The peers with a routable connection, in identity order.
    pub fn get_connection_ids(&self) -> (ids: Vec<Did>)
        requires
            self.wf(),
        ensures
            lists_peers(ids@, |peer: Did| self@.routes_to(peer)),
    {
        let connections = self.get_connections();
        let mut ids: Vec<Did> = Vec::new();
        let mut index: usize = 0;
        while index < connections.len()
            invariant
                index <= connections@.len(),
                ids@.len() == index,
                forall|i: int| 0 <= i < index ==> #[trigger] ids@[i] == connections@[i].0,
            decreases connections@.len() - index,
        {
            ids.push(connections[index].0);
            index += 1;
        }
        proof {
            assert(ids@ =~= connections@.map_values(|entry: (Did, SwarmConnection)| entry.0));
        }
        ids
    }

    /// The generation that sends to `peer`, with its physical connection.
    pub fn admitted_connection_with_attempt(&self, peer: Did) -> (admitted: Option<
        (PendingConnectionAttempt, SwarmConnection),
    >)
        requires
            self.wf(),
        ensures
            admitted == (if self@.sends_to(peer) && self@.connections.contains_key(peer) {
                Some((self@.sender_of(peer), self@.connections[peer]))
            } else {
                None
            }),
    {
        match self.lifecycles.sendable_attempt(peer) {
            Some(attempt) => match self.get_raw_connection(peer) {
                Some(connection) => Some((attempt, connection)),
                None => None,
            },
            None => None,
        }
    }

    /// The connection a send to `peer` is bound to.
    pub fn admitted_send_connection(&self, peer: Did) -> (admitted: Option<AdmittedConnection>)
        requires
            self.wf(),
        ensures
            admitted == (if self@.sends_to(peer) && self@.connections.contains_key(peer) {
                Some(
                    AdmittedConnection {
                        attempt: self@.sender_of(peer),
                        connection: self@.connections[peer],
                    },
                )
            } else {
                None
            }),
            admitted matches Some(admitted) ==> admitted.attempt.peer == peer,
    {
        match self.admitted_connection_with_attempt(peer) {
            Some((attempt, connection)) => {
                proof {
                    self.lemma_sender(peer);
                }
                Some(AdmittedConnection { attempt, connection })
            },
            None => None,
        }
    }

    proof fn lemma_sender(&self, peer: Did)
        requires
            self.wf(),
            self@.sends_to(peer),
        ensures
            self@.sender_of(peer).peer == peer,
            is_active(self@.records, self@.sender_of(peer)),
    {
    }

    /// `attempt` is the generation that sends to its peer.
    pub open spec fn is_sender(&self, attempt: PendingConnectionAttempt) -> bool {
        self@.sends_to(attempt.peer) && self@.sender_of(attempt.peer) == attempt
    }

    /// Whether `attempt` is the generation that sends to its peer.
    pub fn is_current_sender(&self, attempt: PendingConnectionAttempt) -> (current: bool)
        requires
            self.wf(),
        ensures
            current == self.is_sender(attempt),
    {
        match self.lifecycles.sendable_attempt(attempt.peer) {
            Some(sender) => sender == attempt,
            None => false,
        }
    }

    /// Fail unless the generation of `admitted` is the one that sends to its peer.
    pub fn ensure_current(&self, admitted: &AdmittedConnection) -> (current: Result<(), Error>)
        requires
            self.wf(),
        ensures
            current is Ok <==> self.is_sender(admitted.attempt),
            current is Err ==> current == Err::<(), Error>(admitted.attempt.superseded()),
    {
        if self.is_current_sender(admitted.attempt) {
            return Ok(());
        }
        Err(
            Error::ConnectionAttemptSuperseded {
                peer: admitted.attempt.peer,
                generation: admitted.attempt.generation,
            },
        )
    }

    /// Revoke new sends of the generation of `admitted`.
    pub fn mark_send_terminal(&mut self, admitted: &AdmittedConnection) -> (marked: bool)
        requires
            old(self).wf(),
        ensures
            final(self).wf(),
            marked == is_active(old(self)@.records, admitted.attempt),
            final(self)@ == (TransportModel {
                terminal: if marked {
                    old(self)@.terminal.insert(admitted.attempt)
                } else {
                    old(self)@.terminal
                },
                ..old(self)@
            }),
    {
        self.lifecycles.mark_send_terminal(admitted.attempt)
    }

    /// Whether `attempt` accepts no new send.
    pub fn is_send_terminal_attempt(&self, attempt: PendingConnectionAttempt) -> (terminal: bool)
        requires
            self.wf(),
        ensures
            terminal == self@.terminal.contains(attempt),
    {
        self.lifecycles.is_send_terminal(attempt)
    }

    /// Every admitted generation in identity order, with its physical connection where there is
    /// one.
    pub fn admitted_connection_snapshots(&self) -> (snapshots: Vec<
        (PendingConnectionAttempt, Option<SwarmConnection>),
    >)
        requires
            self.wf(),
        ensures
            lists_in_order(
                snapshots@.map_values(
                    |entry: (PendingConnectionAttempt, Option<SwarmConnection>)| entry.0,
                ),
                admitted(self@.records),
            ),
            forall|i: int|
                0 <= i < snapshots@.len() ==> (#[trigger] snapshots@[i]).1 == self@.connection_to(
                    snapshots@[i].0.peer,
                ),
    {
        let attempts = self.lifecycles.admitted_connections().attempts();
        let mut snapshots: Vec<(PendingConnectionAttempt, Option<SwarmConnection>)> = Vec::new();
        let mut index: usize = 0;
        while index < attempts.len()
            invariant
                self.wf(),
                index <= attempts@.len(),
                snapshots@.len() == index,
                forall|i: int|
                    0 <= i < index ==> (#[trigger] snapshots@[i]).0 == attempts@[i]
                        && snapshots@[i].1 == self@.connection_to(attempts@[i].peer),
            decreases attempts@.len() - index,
        {
            let attempt = attempts[index];
            snapshots.push((attempt, self.get_raw_connection(attempt.peer)));
            index += 1;
        }
        proof {
            assert(snapshots@.map_values(
                |entry: (PendingConnectionAttempt, Option<SwarmConnection>)| entry.0,
            ) =~= attempts@);
        }
        snapshots
    }

    /// The admitted peers in identity order, even those without a physical connection.
    pub fn admitted_connection_ids(&self) -> (ids: Vec<Did>)
        requires
            self.wf(),
        ensures
            lists_peers(ids@, |peer: Did| admitted(self@.records).contains_key(peer)),
    {
        let attempts = self.lifecycles.admitted_connections().attempts();
        let mut ids: Vec<Did> = Vec::new();
        let mut index: usize = 0;
        while index < attempts.len()
            invariant
                index <= attempts@.len(),
                ids@.len() == index,
                forall|i: int| 0 <= i < index ==> #[trigger] ids@[i] == attempts@[i].peer,
            decreases attempts@.len() - index,
        {
            ids.push(attempts[index].peer);
            index += 1;
        }
        proof {
            let records = admitted(self@.records);
            assert forall|i: int| 0 <= i < ids@.len() implies records.contains_key(
                #[trigger] ids@[i],
            ) by {
                assert(records.contains_pair(attempts@[i].peer, attempts@[i]));
            }
            assert forall|i: int, j: int| 0 <= i < j < ids@.len() implies (
            #[trigger] ids@[i]).rank() < (#[trigger] ids@[j]).rank() by {
                assert(attempts@[i].peer.rank() < attempts@[j].peer.rank());
            }
            assert forall|peer: Did| records.contains_key(peer) implies #[trigger] ids@.contains(
                peer,
            ) by {
                let i = choose|i: int|
                    0 <= i < attempts@.len() && (#[trigger] attempts@[i]).peer == peer;
                assert(ids@[i] == peer);
            }
        }
        ids
    }

    /// Run `action` on the topology only while `peer` is routable.
    fn when_routable<T, F: FnOnce(Did) -> Result<T, Error>>(&self, peer: Did, action: F) -> (done:
        Result<Option<T>, Error>)
        requires
            self.wf(),
            action.requires((peer,)),
        ensures
            !self@.routes_to(peer) ==> done == Ok::<Option<T>, Error>(None),
            self@.routes_to(peer) ==> exists|result: Result<T, Error>| #[trigger]
                action.ensures((peer,), result) && done == (match result {
                    Ok(value) => Ok::<Option<T>, Error>(Some(value)),
                    Err(error) => Err(error),
                }),
    {
        if self.get_connection(peer).is_none() {
            return Ok(None);
        }
        match action(peer) {
            Ok(value) => Ok(Some(value)),
            Err(error) => Err(error),
        }
    }

    /// Have `join` take `peer` into the topology, only while it is routable.
    pub fn join_routable_peer<T, F: FnOnce(Did) -> Result<T, Error>>(&self, peer: Did, join: F) -> (joined:
        Result<Option<T>, Error>)
        requires
            self.wf(),
            join.requires((peer,)),
        ensures
            !self@.routes_to(peer) ==> joined == Ok::<Option<T>, Error>(None),
            self@.routes_to(peer) ==> exists|result: Result<T, Error>| #[trigger]
                join.ensures((peer,), result) && joined == (match result {
                    Ok(value) => Ok::<Option<T>, Error>(Some(value)),
                    Err(error) => Err(error),
                }),
    {
        self.when_routable(peer, join)
    }

    /// Have `notify` tell the topology of the predecessor `peer`, only while it is routable.
    pub fn notify_admitted_predecessor<T, F: FnOnce(Did) -> Result<T, Error>>(
        &self,
        peer: Did,
        notify: F,
    ) -> (notified: Result<Option<T>, Error>)
        requires
            self.wf(),
            notify.requires((peer,)),
        ensures
            !self@.routes_to(peer) ==> notified == Ok::<Option<T>, Error>(None),
            self@.routes_to(peer) ==> exists|result: Result<T, Error>| #[trigger]
                notify.ensures((peer,), result) && notified == (match result {
                    Ok(value) => Ok::<Option<T>, Error>(Some(value)),
                    Err(error) => Err(error),
                }),
    {
        self.when_routable(peer, notify)
    }

    /// Have `stabilize` apply the peers of `reported` that are routable, if there are any.
    pub fn stabilize_routable_topology<T, F: FnOnce(&Vec<Did>) -> Result<T, Error>>(
        &self,
        reported: &Vec<Did>,
        stabilize: F,
    ) -> (stabilized: Result<Option<T>, Error>)
        requires
            self.wf(),
            forall|confirmed: &Vec<Did>| #[trigger] stabilize.requires((confirmed,)),
        ensures
            ({
                let routable = reported@.filter(|peer: Did| self@.routes_to(peer));
                if routable.len() == 0 {
                    stabilized == Ok::<Option<T>, Error>(None)
                } else {
                    exists|confirmed: &Vec<Did>, result: Result<T, Error>|
                        confirmed@ == routable && #[trigger] stabilize.ensures((confirmed,), result)
                            && stabilized == (match result {
                            Ok(value) => Ok::<Option<T>, Error>(Some(value)),
                            Err(error) => Err(error),
                        })
                }
            }),
    {
        let confirmed = self.confirmed_peers(reported);
        if confirmed.len() == 0 {
            return Ok(None);
        }
        match stabilize(&confirmed) {
            Ok(value) => Ok(Some(value)),
            Err(error) => Err(error),
        }
    }

    /// The peers of `reported` that are routable, in the reported order.
    pub fn confirmed_peers(&self, reported: &Vec<Did>) -> (confirmed: Vec<Did>)
        requires
            self.wf(),
        ensures
            confirmed@ == reported@.filter(|peer: Did| self@.routes_to(peer)),
    {
        let mut confirmed: Vec<Did> = Vec::new();
        let mut index: usize = 0;
        proof {
            reveal(Seq::filter);
            assert(reported@.take(0) =~= Seq::<Did>::empty());
        }
        while index < reported.len()
            invariant
                self.wf(),
                index <= reported@.len(),
                confirmed@ == reported@.take(index as int).filter(
                    |peer: Did| self@.routes_to(peer),
                ),
            decreases reported@.len() - index,
        {
            let peer: Did = reported[index];
            let routable = self.get_connection(peer).is_some();
            if routable {
                confirmed.push(peer);
            }
            proof {
                reveal(Seq::filter);
                let more = reported@.take(index as int + 1);
                assert(more.drop_last() =~= reported@.take(index as int));
                assert(more.last() == peer);
            }
            index += 1;
        }
        proof {
            assert(reported@.take(index as int) =~= reported@);
        }
        confirmed
    }

    /// The peers that take the place of `removed`, if it is the first successor: the nearest
    /// routable ones, nearest first, as many as the successor list holds.
    pub fn live_successor_replacements(
        &self,
        removed: Did,
        first_successor: Option<Did>,
        capacity: usize,
    ) -> (replacements: Vec<Did>)
        requires
            self.wf(),
        ensures
            first_successor != Some(removed) ==> replacements@ == Seq::<Did>::empty(),
            first_successor == Some(removed) ==> nearest_replacements(
                self@,
                removed,
                capacity,
                replacements@,
            ),
    {
        let mut replacements: Vec<Did> = Vec::new();
        match first_successor {
            Some(first) => {
                if first != removed {
                    return replacements;
                }
            },
            None => {
                return replacements;
            },
        }
        let ids = self.get_connection_ids();
        let mut candidates: Vec<RingCandidate> = Vec::new();
        let mut kept: Vec<bool> = Vec::new();
        let mut index: usize = 0;
        while index < ids.len()
            invariant
                index <= ids@.len(),
                candidates@.len() == index,
                kept@.len() == index,
                self.did == self@.local,
                forall|i: int|
                    0 <= i < index ==> (#[trigger] candidates@[i]).peer == ids@[i]
                        && candidates@[i].offset.position() == ids@[i].distance_from(self@.local),
                forall|i: int|
                    0 <= i < index ==> #[trigger] kept@[i] == (ids@[i] != self@.local && ids@[i]
                        != removed),
            decreases ids@.len() - index,
        {
            let peer: Did = ids[index];
            candidates.push(RingCandidate { peer, offset: peer.clockwise_from(self.did) });
            kept.push(peer != self.did && peer != removed);
            index += 1;
        }
        let order = stable_order(&candidates, &kept);
        let mut place: usize = 0;
        while place < order.len() && replacements.len() < capacity
            invariant
                place <= order@.len(),
                is_stable_order(candidates@, kept@, order@),
                replacements@.len() == place,
                place <= capacity,
                forall|k: int|
                    0 <= k < place ==> #[trigger] replacements@[k]
                        == candidates@[order@[k] as int].peer,
            decreases order@.len() - place,
        {
            let chosen: usize = order[place];
            replacements.push(candidates[chosen].peer);
            place += 1;
        }
        proof {
            let listed = replacements@;
            assert forall|i: int| 0 <= i < listed.len() implies self@.may_replace(
                removed,
                #[trigger] listed[i],
            ) by {
                let j = order@[i] as int;
                assert(kept@[j]);
                assert(ids@[j] == listed[i]);
            }
            assert forall|i: int, j: int| 0 <= i < j < listed.len() implies (
            #[trigger] listed[i]).distance_from(self@.local) < (
            #[trigger] listed[j]).distance_from(self@.local) by {
                let a = order@[i] as int;
                let b = order@[j] as int;
                assert(goes_first(candidates@, order@[i] as int, order@[j] as int));
                Did::lemma_distance_injective(ids@[a], ids@[b], self@.local);
                if a != b {
                    if a < b {
                        assert(ids@[a].rank() < ids@[b].rank());
                    } else {
                        assert(ids@[b].rank() < ids@[a].rank());
                    }
                } else {
                    assert(candidates@[a].outranks(&candidates@[a]) || a < a);
                }
            }
            assert forall|peer: Did|
                #![trigger self@.may_replace(removed, peer)]
                self@.may_replace(removed, peer) && !listed.contains(peer) implies listed.len()
                == capacity && forall|i: int|
                0 <= i < listed.len() ==> (#[trigger] listed[i]).distance_from(self@.local)
                    < peer.distance_from(self@.local) by {
                assert(ids@.contains(peer));
                let j = choose|j: int| 0 <= j < ids@.len() && ids@[j] == peer;
                assert(kept@[j]);
                let k = choose|k: int| 0 <= k < order@.len() && #[trigger] order@[k] == j;
                if k < place {
                    assert(listed[k] == peer);
                }
                assert forall|i: int| 0 <= i < listed.len() implies (
                #[trigger] listed[i]).distance_from(self@.local) < peer.distance_from(
                    self@.local,
                ) by {
                    let a = order@[i] as int;
                    assert(goes_first(candidates@, order@[i] as int, order@[k] as int));
                    Did::lemma_distance_injective(ids@[a], ids@[j], self@.local);
                    assert(listed[i] != peer);
                }
            }
        }
        replacements
    }
}

impl SwarmTransport {
    /// The state of `peer`.
    pub fn peer_connection_lifecycle(&self, peer: Did) -> (state: Option<PeerConnectionLifecycle>)
        requires
            self.wf(),
        ensures
            state == self@.state_of(peer),
    {
        self.lifecycles.state(peer)
    }

    /// Whether `peer` completed a handshake and still owns a slot.
    pub fn has_active_connection(&self, peer: Did) -> (active: bool)
        requires
            self.wf(),
        ensures
            active == admitted(self@.records).contains_key(peer),
    {
        self.lifecycles.active_attempt(peer).is_some()
    }

    /// Whether `attempt` owns the active slot of its peer.
    pub fn owns_active_slot(&self, attempt: PendingConnectionAttempt) -> (owns: bool)
        requires
            self.wf(),
        ensures
            owns == is_active(self@.records, attempt),
    {
        self.lifecycles.owns_active_slot(attempt)
    }

    /// The generation of `peer` that is still handshaking.
    pub fn unadmitted_attempt(&self, peer: Did) -> (attempt: Option<PendingConnectionAttempt>)
        requires
            self.wf(),
        ensures
            match attempt {
                Some(attempt) => attempt.peer == peer && (is_pending(self@.records, attempt)
                    || is_admitting(self@.records, attempt)),
                None => !(self@.records.contains_key(peer) && !(self@.records[peer] is Active)),
            },
    {
        self.lifecycles.unadmitted_attempt(peer)
    }

    /// The active generation of `peer`.
    pub fn active_attempt(&self, peer: Did) -> (attempt: Option<PendingConnectionAttempt>)
        requires
            self.wf(),
        ensures
            attempt == (if admitted(self@.records).contains_key(peer) {
                Some(admitted(self@.records)[peer])
            } else {
                None
            }),
            attempt matches Some(attempt) ==> attempt.peer == peer,
    {
        self.lifecycles.active_attempt(peer)
    }

    /// Whether `peer` has a record, admitted or still handshaking.
    pub fn has_connection_attempt(&self, peer: Did) -> (found: bool)
        requires
            self.wf(),
        ensures
            found == self@.records.contains_key(peer),
    {
        self.lifecycles.contains(peer)
    }

    /// The active generation of `peer` whose admission was announced.
    pub fn announced_attempt(&self, peer: Did) -> (attempt: Option<PendingConnectionAttempt>)
        requires
            self.wf(),
        ensures
            attempt == (if announced(self@.records).contains_key(peer) {
                Some(announced(self@.records)[peer])
            } else {
                None
            }),
    {
        self.lifecycles.announced_attempt(peer)
    }

    /// Whether `attempt` owns its peer's record, in whatever phase.
    pub fn is_current_connection_attempt(&self, attempt: PendingConnectionAttempt) -> (current:
        bool)
        requires
            self.wf(),
        ensures
            current == is_current(self@.records, attempt),
    {
        match self.lifecycles.state(attempt.peer) {
            Some(state) => state.attempt() == attempt,
            None => false,
        }
    }

    /// Fail unless `attempt` owns its peer's record: a connection is created for, and handed to,
    /// the current generation only.
    pub fn ensure_current_attempt(&self, attempt: PendingConnectionAttempt) -> (current: Result<
        (),
        Error,
    >)
        requires
            self.wf(),
        ensures
            current is Ok <==> is_current(self@.records, attempt),
            current is Err ==> current == Err::<(), Error>(attempt.superseded()),
    {
        if self.is_current_connection_attempt(attempt) {
            Ok(())
        } else {
            Err(
                Error::ConnectionAttemptSuperseded {
                    peer: attempt.peer,
                    generation: attempt.generation,
                },
            )
        }
    }

    /// What happens to a callback of `attempt`.
    pub fn connection_event_disposition(&self, attempt: PendingConnectionAttempt) -> (disposition:
        ConnectionEventDisposition)
        requires
            self.wf(),
        ensures
            disposition == disposition_of(self@.state_of(attempt.peer), attempt),
    {
        event_disposition(self.lifecycles.state(attempt.peer), attempt)
    }

    /// The slot of `peer` as an answer finds it.
    pub fn answer_slot(&self, peer: Did) -> (slot: AnswerSlot)
        requires
            self.wf(),
        ensures
            slot == (match (self@.state_of(peer), self@.connection_to(peer)) {
                (None, _) => AnswerSlot::Vacant,
                (Some(PeerConnectionLifecycle::Pending { attempt, .. }), Some(connection)) =>
                    AnswerSlot::Pending(attempt, connection),
                (Some(state), _) => AnswerSlot::Owned(state.owner()),
            }),
    {
        answer_slot(self.lifecycles.state(peer), self.get_raw_connection(peer))
    }

    /// Fail for this node itself.
    pub fn validate_pending_reservation(&self, peer: Did) -> (valid: Result<(), Error>)
        ensures
            valid == (if peer == self@.local {
                Err::<(), Error>(Error::ShouldNotConnectSelf)
            } else {
                Ok(())
            }),
    {
        if peer == self.did {
            return Err(Error::ShouldNotConnectSelf);
        }
        Ok(())
    }

    /// Whether retiring one record is what stands between `peer` and a reservation.
    pub fn reservation_needs_eviction(&self, peer: Did) -> (needed: bool)
        requires
            self.wf(),
        ensures
            needed == (verdict_of(self@.records, self@.limits, peer) is CapacityExceeded),
    {
        self.lifecycles.reservation_verdict(peer).needs_eviction()
    }

    /// Reserve a new generation for `peer`.
    pub fn commit_pending_reservation(&mut self, peer: Did, now_ms: i64) -> (reserved: Result<
        PendingConnectionAttempt,
        Error,
    >)
        requires
            old(self).wf(),
        ensures
            final(self).wf(),
            reserved is Ok <==> verdict_of(old(self)@.records, old(self)@.limits, peer)
                is Admissible && old(self)@.latest < u64::MAX,
            match reserved {
                Ok(attempt) => {
                    &&& attempt == (PendingConnectionAttempt {
                        peer,
                        generation: (old(self)@.latest + 1) as u64,
                    })
                    &&& final(self)@ == (TransportModel {
                        records: old(self)@.records.insert(
                            peer,
                            PeerConnectionLifecycle::Pending { attempt, started_at_ms: now_ms },
                        ),
                        latest: attempt.generation,
                        ..old(self)@
                    })
                },
                Err(error) => {
                    &&& final(self)@ == old(self)@
                    &&& match verdict_of(old(self)@.records, old(self)@.limits, peer) {
                        ReservationVerdict::AlreadyConnected => error == Error::AlreadyConnected,
                        ReservationVerdict::PendingCapacityExceeded => error
                            == Error::PendingConnectionCapacityExceeded {
                            capacity: old(self)@.limits.handshakes() as usize,
                        },
                        ReservationVerdict::CapacityExceeded => error
                            == Error::ConnectionCapacityExceeded {
                            capacity: old(self)@.limits.records() as usize,
                        },
                        ReservationVerdict::Admissible => error
                            == Error::PendingConnectionGenerationExhausted,
                    }
                },
            },
    {
        self.lifecycles.reserve(peer, now_ms)
    }

    /// Start the admission of a pending generation once its connection can make progress. A
    /// connection that cannot yet leaves it pending, so a later callback tries again; one that
    /// never will is an error.
    pub fn begin_ready_connection_admission(&mut self, attempt: PendingConnectionAttempt) -> (begun:
        Result<bool, Error>)
        requires
            old(self).wf(),
        ensures
            final(self).wf(),
            ({
                let model = old(self)@;
                if !is_pending(model.records, attempt) {
                    begun == Ok::<bool, Error>(false) && final(self)@ == model
                } else if !model.connections.contains_key(attempt.peer) {
                    begun == Err::<bool, Error>(Error::SwarmMissTransport(attempt.peer))
                        && final(self)@ == model
                } else {
                    let readiness = model.connections[attempt.peer].reading();
                    if readiness.ready() {
                        &&& begun == Ok::<bool, Error>(true)
                        &&& final(self)@ == (TransportModel {
                            records: admission_begun(model.records, attempt),
                            ..model
                        })
                    } else {
                        &&& begun == (if readiness.0 is Terminal {
                            Err::<bool, Error>(readiness.refusal())
                        } else {
                            Ok(false)
                        })
                        &&& final(self)@ == model
                    }
                }
            }),
    {
        match self.lifecycles.pending_attempt(attempt.peer) {
            Some(pending) => {
                if pending != attempt {
                    return Ok(false);
                }
            },
            None => {
                return Ok(false);
            },
        }
        let connection = match self.get_raw_connection(attempt.peer) {
            Some(connection) => connection,
            None => {
                return Err(Error::SwarmMissTransport(attempt.peer));
            },
        };
        let readiness = connection.readiness();
        if readiness.can_make_progress() {
            let begun = self.lifecycles.begin_admission(attempt);
            return Ok(begun);
        }
        if readiness.is_terminal() {
            match readiness.ensure_can_make_progress() {
                Ok(()) => {},
                Err(error) => {
                    return Err(error);
                },
            }
        }
        Ok(false)
    }

    /// Commit an admission together with the topology's: `admit` hands the peer and the finger
    /// proof its generation kept to the topology.
    pub fn commit_connection_admission<
        T,
        F: FnOnce(Did, Option<FingerFixRequest>) -> Result<T, Error>,
    >(&mut self, attempt: PendingConnectionAttempt, admission: F) -> (committed: Result<
        Option<T>,
        Error,
    >)
        requires
            old(self).wf(),
            admission.requires((attempt.peer, old(self)@.proof_of(attempt))),
        ensures
            final(self).wf(),
            ({
                let model = old(self)@;
                if !is_admitting(model.records, attempt) {
                    committed == Ok::<Option<T>, Error>(None) && final(self)@ == model
                } else if !model.connections.contains_key(attempt.peer) {
                    committed == Err::<Option<T>, Error>(Error::SwarmMissTransport(attempt.peer))
                        && final(self)@ == model
                } else if !model.connections[attempt.peer].reading().ready() {
                    committed == Err::<Option<T>, Error>(
                        model.connections[attempt.peer].reading().refusal(),
                    ) && final(self)@ == model
                } else {
                    exists|result: Result<T, Error>| #[trigger]
                        admission.ensures((attempt.peer, model.proof_of(attempt)), result)
                            && match result {
                            Ok(value) => {
                                &&& committed == Ok::<Option<T>, Error>(Some(value))
                                &&& final(self)@ == (TransportModel {
                                    records: activated(model.records, attempt),
                                    proofs: model.proofs.remove(attempt),
                                    ..model
                                })
                            },
                            Err(error) => committed == Err::<Option<T>, Error>(error)
                                && final(self)@ == model,
                        }
                }
            }),
    {
        match self.lifecycles.admitting_attempt(attempt.peer) {
            Some(admitting) => {
                if admitting != attempt {
                    return Ok(None);
                }
            },
            None => {
                return Ok(None);
            },
        }
        let connection = match self.get_raw_connection(attempt.peer) {
            Some(connection) => connection,
            None => {
                return Err(Error::SwarmMissTransport(attempt.peer));
            },
        };
        match connection.readiness().ensure_can_make_progress() {
            Ok(()) => {},
            Err(error) => {
                return Err(error);
            },
        }
        let deferred_proof = match self.pending_finger_updates.get(attempt) {
            Some(request) => Some(*request),
            None => None,
        };
        let value = match admission(attempt.peer, deferred_proof) {
            Ok(value) => value,
            Err(error) => {
                return Err(error);
            },
        };
        let _ = self.lifecycles.activate(attempt);
        let _ = self.pending_finger_updates.remove(attempt);
        Ok(Some(value))
    }

    /// Cancel a handshake that is still in `scope`: its record and finger proof are gone, and its
    /// physical connection is left to close.
    pub fn cancel_connection(&mut self, attempt: PendingConnectionAttempt, scope: CancellationScope) -> (cancelled:
        Option<CancelledConnection>)
        requires
            old(self).wf(),
        ensures
            final(self).wf(),
            cancelled is Some <==> is_pending(old(self)@.records, attempt) || (scope
                == CancellationScope::Unadmitted && is_admitting(old(self)@.records, attempt)),
            match cancelled {
                Some(cancelled) => {
                    &&& cancelled == (CancelledConnection {
                        attempt,
                        connection: old(self)@.connection_to(attempt.peer),
                        finger: old(self)@.proof_of(attempt),
                    })
                    &&& final(self)@ == (TransportModel {
                        records: unadmitted_removed(old(self)@.records, attempt),
                        proofs: old(self)@.proofs.remove(attempt),
                        ..old(self)@
                    })
                },
                None => final(self)@ == old(self)@,
            },
    {
        let removed = match scope {
            CancellationScope::Pending => self.lifecycles.remove_pending(attempt),
            CancellationScope::Unadmitted => self.lifecycles.remove_unadmitted(attempt),
        };
        if !removed {
            return None;
        }
        let finger = self.pending_finger_updates.remove(attempt);
        Some(
            CancelledConnection {
                attempt,
                connection: self.get_raw_connection(attempt.peer),
                finger,
            },
        )
    }

    /// Decide what becomes of the connection of `attempt` once the backend tried to open it. The
    /// generation may have lost its slot while it did.
    pub fn finish_creation(&mut self, attempt: PendingConnectionAttempt, opened: bool) -> (step:
        CreationStep)
        requires
            old(self).wf(),
        ensures
            final(self).wf(),
            opened ==> {
                &&& final(self)@ == old(self)@
                &&& step == (if is_current(old(self)@.records, attempt) {
                    CreationStep::Keep
                } else {
                    CreationStep::Close(attempt.superseded())
                })
            },
            !opened && is_pending(old(self)@.records, attempt) ==> {
                &&& step == CreationStep::Retired(
                    Some(
                        CancelledConnection {
                            attempt,
                            connection: old(self)@.connection_to(attempt.peer),
                            finger: old(self)@.proof_of(attempt),
                        },
                    ),
                )
                &&& final(self)@ == (TransportModel {
                    records: unadmitted_removed(old(self)@.records, attempt),
                    proofs: old(self)@.proofs.remove(attempt),
                    ..old(self)@
                })
            },
            !opened && !is_pending(old(self)@.records, attempt) ==> {
                &&& step == CreationStep::Retired(None)
                &&& final(self)@ == old(self)@
            },
    {
        if !opened {
            return CreationStep::Retired(
                self.cancel_connection(attempt, CancellationScope::Pending),
            );
        }
        match self.ensure_current_attempt(attempt) {
            Ok(()) => CreationStep::Keep,
            Err(error) => CreationStep::Close(error),
        }
    }

    /// Mark the admission of `attempt` as announced to the application.
    pub fn mark_admission_announced(&mut self, attempt: PendingConnectionAttempt) -> (marked: bool)
        requires
            old(self).wf(),
        ensures
            final(self).wf(),
            marked == is_active(old(self)@.records, attempt),
            final(self)@ == (TransportModel {
                records: announcement_marked(old(self)@.records, attempt),
                ..old(self)@
            }),
    {
        self.lifecycles.mark_announced(attempt)
    }

    /// Forget the finger proofs of every generation of `peer`.
    fn drop_proofs_of(&mut self, peer: Did)
        requires
            old(self).wf(),
        ensures
            final(self).wf(),
            final(self)@ == (TransportModel {
                proofs: without_peer(old(self)@.proofs, peer),
                ..old(self)@
            }),
    {
        let mut index: usize = 0;
        proof {
            self.pending_finger_updates.lemma_listing();
        }
        while index < self.pending_finger_updates.len()
            invariant
                self.wf(),
                self@ == (TransportModel { proofs: self@.proofs, ..old(self)@ }),
                index <= self.pending_finger_updates.listing().len(),
                forall|attempt: PendingConnectionAttempt| #[trigger]
                    self@.proofs.contains_key(attempt) ==> old(self)@.proofs.contains_key(attempt)
                        && self@.proofs[attempt] == old(self)@.proofs[attempt],
                forall|attempt: PendingConnectionAttempt|
                    #![trigger self@.proofs.contains_key(attempt)]
                    old(self)@.proofs.contains_key(attempt) && !self@.proofs.contains_key(attempt)
                        ==> attempt.peer == peer,
                forall|j: int|
                    0 <= j < index ==> (
                    #[trigger] self.pending_finger_updates.listing()[j]).0.peer != peer,
            decreases self.pending_finger_updates.listing().len() - index,
        {
            let ghost before = self@.proofs;
            let ghost listing = self.pending_finger_updates.listing();
            proof {
                self.pending_finger_updates.lemma_listing();
                assert(before.contains_pair(listing[index as int].0, listing[index as int].1));
            }
            if self.pending_finger_updates.entry_at(index).0.peer == peer {
                let _ = self.pending_finger_updates.remove_at(index);
                proof {
                    assert(self@.proofs == before.remove(listing[index as int].0));
                    assert forall|j: int| 0 <= j < index implies (
                    #[trigger] self.pending_finger_updates.listing()[j]).0.peer != peer by {
                        assert(self.pending_finger_updates.listing()[j] == listing[j]);
                    }
                }
            } else {
                index += 1;
            }
        }
        proof {
            self.pending_finger_updates.lemma_listing();
            assert forall|attempt: PendingConnectionAttempt| #[trigger]
                self@.proofs.contains_key(attempt) implies attempt.peer != peer by {
                let j = choose|j: int|
                    0 <= j < self.pending_finger_updates.listing().len() && (
                    #[trigger] self.pending_finger_updates.listing()[j]).0 == attempt;
                assert(self.pending_finger_updates.listing()[j].0.peer != peer);
            }
            assert(self@.proofs =~= without_peer(old(self)@.proofs, peer));
        }
    }

    /// Retire the active generation `attempt` if `action`, given the active set, commits; nothing
    /// of its peer is kept but the physical connection.
    pub fn retire_active_connection_if<
        T,
        F: FnOnce(&ActiveConnectionSet) -> Result<Option<T>, Error>,
    >(&mut self, attempt: PendingConnectionAttempt, action: F) -> (outcome: Result<
        RetirementOutcome<(T, Retirement)>,
        Error,
    >)
        requires
            old(self).wf(),
            forall|active: &ActiveConnectionSet|
                active.wf() && active@ == sendable(old(self)@.records, old(self)@.terminal)
                    ==> #[trigger] action.requires((active,)),
        ensures
            final(self).wf(),
            !is_active(old(self)@.records, attempt) <==> (outcome matches Ok(
                RetirementOutcome::Superseded,
            )),
            is_active(old(self)@.records, attempt) ==> exists|
                active: &ActiveConnectionSet,
                decision: Result<Option<T>, Error>,
            |
                {
                    &&& active.wf()
                    &&& active@ == sendable(old(self)@.records, old(self)@.terminal)
                    &&& #[trigger] action.ensures((active,), decision)
                    &&& match decision {
                        Err(error) => outcome == Err::<
                            RetirementOutcome<(T, Retirement)>,
                            Error,
                        >(error),
                        Ok(None) => outcome matches Ok(RetirementOutcome::Declined),
                        Ok(Some(value)) => outcome matches Ok(
                            RetirementOutcome::Retired((given, witness)),
                        ) && given == value && witness.announced() == is_announced(
                            old(self)@.records,
                            attempt,
                        ),
                    }
                },
            final(self)@ == (if outcome matches Ok(RetirementOutcome::Retired(_)) {
                old(self)@.retired(attempt)
            } else {
                old(self)@
            }),
    {
        let outcome = self.lifecycles.retire_active_if(attempt, action);
        if let Ok(RetirementOutcome::Retired(_)) = &outcome {
            self.drop_proofs_of(attempt.peer);
            self.peer_liveness.remove(attempt.peer);
            let _ = self.measured_disconnects.remove(attempt.peer);
            proof {
                assert(self@.measured =~= old(self)@.measured.remove(attempt.peer));
            }
        }
        outcome
    }

    /// Retire the active generation `attempt` for which the topology has already removed its peer.
    fn retire(&mut self, attempt: PendingConnectionAttempt) -> (witness: Option<Retirement>)
        requires
            old(self).wf(),
        ensures
            final(self).wf(),
            witness is Some <==> is_active(old(self)@.records, attempt),
            witness matches Some(witness) ==> witness.announced() == is_announced(
                old(self)@.records,
                attempt,
            ),
            final(self)@ == (if witness is Some {
                old(self)@.retired(attempt)
            } else {
                old(self)@
            }),
    {
        let commit = |active: &ActiveConnectionSet| -> (decision: Result<Option<()>, Error>)
            ensures
                decision == Ok::<Option<()>, Error>(Some(())),
            { Ok(Some(())) };
        match self.retire_active_connection_if(attempt, commit) {
            Ok(RetirementOutcome::Retired((_, witness))) => Some(witness),
            _ => None,
        }
    }

    /// Retire the active generation `attempt` once `remove` took its peer out of the topology.
    /// `remove` is given the peers that take its place: none unless `unavailable`.
    pub fn disconnect_with_removal<F: FnOnce(Did, &Vec<Did>) -> Result<(), Error>>(
        &mut self,
        attempt: PendingConnectionAttempt,
        unavailable: bool,
        first_successor: Option<Did>,
        successor_capacity: usize,
        remove: F,
    ) -> (retired: Result<Option<RetiredConnection>, Error>)
        requires
            old(self).wf(),
            forall|replacements: &Vec<Did>| #[trigger]
                remove.requires((attempt.peer, replacements)),
        ensures
            final(self).wf(),
            taken_out(
                old(self)@,
                attempt,
                unavailable,
                first_successor,
                successor_capacity,
                remove,
                retired,
                final(self)@,
            ),
    {
        let connection = self.get_raw_connection(attempt.peer);
        if !self.owns_active_slot(attempt) {
            return Ok(None);
        }
        let replacements = if unavailable {
            self.live_successor_replacements(attempt.peer, first_successor, successor_capacity)
        } else {
            Vec::new()
        };
        let fallback = if replacements.len() > 0 {
            Some(replacements[0])
        } else {
            None
        };
        match remove(attempt.peer, &replacements) {
            Ok(()) => {},
            Err(error) => {
                return Err(error);
            },
        }
        match self.retire(attempt) {
            Some(witness) => Ok(
                Some(
                    RetiredConnection {
                        connection,
                        removal: PeerRemovalOutcome { fallback },
                        witness,
                    },
                ),
            ),
            None => Ok(None),
        }
    }

    /// Disconnect the active generation `attempt`, having the nearest routable peers take its
    /// place.
    pub fn disconnect_unavailable<F: FnOnce(Did, &Vec<Did>) -> Result<(), Error>>(
        &mut self,
        attempt: PendingConnectionAttempt,
        first_successor: Option<Did>,
        successor_capacity: usize,
        remove: F,
    ) -> (retired: Result<Option<RetiredConnection>, Error>)
        requires
            old(self).wf(),
            forall|replacements: &Vec<Did>| #[trigger]
                remove.requires((attempt.peer, replacements)),
        ensures
            final(self).wf(),
            taken_out(
                old(self)@,
                attempt,
                true,
                first_successor,
                successor_capacity,
                remove,
                retired,
                final(self)@,
            ),
    {
        self.disconnect_with_removal(attempt, true, first_successor, successor_capacity, remove)
    }

    /// Disconnect the active generation `attempt`, having nobody take its place.
    pub fn disconnect_attempt<F: FnOnce(Did, &Vec<Did>) -> Result<(), Error>>(
        &mut self,
        attempt: PendingConnectionAttempt,
        remove: F,
    ) -> (retired: Result<Option<RetiredConnection>, Error>)
        requires
            old(self).wf(),
            forall|replacements: &Vec<Did>| #[trigger]
                remove.requires((attempt.peer, replacements)),
        ensures
            final(self).wf(),
            taken_out(old(self)@, attempt, false, None, 0, remove, retired, final(self)@),
    {
        self.disconnect_with_removal(attempt, false, None, 0, remove)
    }

    /// Disconnect `peer`: a pending handshake is cancelled without touching the topology, an
    /// active connection leaves the topology first, and an unowned physical connection is left to
    /// close.
    pub fn disconnect<F: FnOnce(Did, &Vec<Did>) -> Result<(), Error>>(&mut self, peer: Did, remove: F) -> (disconnected:
        Result<Disconnected, Error>)
        requires
            old(self).wf(),
            forall|replacements: &Vec<Did>| #[trigger] remove.requires((peer, replacements)),
        ensures
            final(self).wf(),
            match old(self)@.state_of(peer) {
                None => disconnected == Ok::<Disconnected, Error>(
                    Disconnected::Unowned(old(self)@.connection_to(peer)),
                ) && final(self)@ == old(self)@,
                Some(PeerConnectionLifecycle::Pending { attempt, .. }) => {
                    &&& disconnected == Ok::<Disconnected, Error>(
                        Disconnected::Cancelled(
                            CancelledConnection {
                                attempt,
                                connection: old(self)@.connection_to(peer),
                                finger: old(self)@.proof_of(attempt),
                            },
                        ),
                    )
                    &&& final(self)@ == (TransportModel {
                        records: pending_removed(old(self)@.records, attempt),
                        proofs: old(self)@.proofs.remove(attempt),
                        ..old(self)@
                    })
                },
                Some(PeerConnectionLifecycle::Admitting { .. }) => disconnected matches Ok(
                    Disconnected::Untouched,
                ) && final(self)@ == old(self)@,
                Some(PeerConnectionLifecycle::Active { attempt, .. }) => exists|
                    none: &Vec<Did>,
                    removed: Result<(), Error>,
                |
                    {
                        &&& #[trigger] remove.ensures((peer, none), removed)
                        &&& none@ == Seq::<Did>::empty()
                        &&& match removed {
                            Ok(()) => {
                                &&& disconnected matches Ok(Disconnected::Retired(retired))
                                    && retired.connection == old(self)@.connection_to(peer)
                                    && retired.removal.fallback is None
                                    && retired.witness.announced() == is_announced(
                                    old(self)@.records,
                                    attempt,
                                )
                                &&& final(self)@ == old(self)@.retired(attempt)
                            },
                            Err(error) => disconnected == Err::<Disconnected, Error>(error)
                                && final(self)@ == old(self)@,
                        }
                    },
            },
    {
        if let Some(attempt) = self.lifecycles.unadmitted_attempt(peer) {
            return match self.cancel_connection(attempt, CancellationScope::Pending) {
                Some(cancelled) => Ok(Disconnected::Cancelled(cancelled)),
                None => Ok(Disconnected::Untouched),
            };
        }
        if let Some(attempt) = self.lifecycles.active_attempt(peer) {
            return match self.disconnect_attempt(attempt, remove) {
                Ok(Some(retired)) => Ok(Disconnected::Retired(retired)),
                Ok(None) => Ok(Disconnected::Untouched),
                Err(error) => Err(error),
            };
        }
        Ok(Disconnected::Unowned(self.get_raw_connection(peer)))
    }

    /// Take an unavailable peer out of the topology, unless a generation other than `expected`
    /// owns its active slot. `remove` is given the peers that take its place.
    pub fn remove_unavailable_topology<F: FnOnce(Did, &Vec<Did>) -> Result<(), Error>>(
        &self,
        peer: Did,
        expected: Option<PendingConnectionAttempt>,
        first_successor: Option<Did>,
        successor_capacity: usize,
        remove: F,
    ) -> (removal: Result<Option<PeerRemovalOutcome>, Error>)
        requires
            self.wf(),
            forall|replacements: &Vec<Did>| #[trigger] remove.requires((peer, replacements)),
        ensures
            ({
                let owner = if admitted(self@.records).contains_key(peer) {
                    Some(admitted(self@.records)[peer])
                } else {
                    None
                };
                if owner != expected {
                    removal == Ok::<Option<PeerRemovalOutcome>, Error>(None)
                } else {
                    exists|replacements: &Vec<Did>, removed: Result<(), Error>|
                        {
                            &&& #[trigger] remove.ensures((peer, replacements), removed)
                            &&& if first_successor == Some(peer) {
                                nearest_replacements(
                                    self@,
                                    peer,
                                    successor_capacity,
                                    replacements@,
                                )
                            } else {
                                replacements@ == Seq::<Did>::empty()
                            }
                            &&& removal == (match removed {
                                Ok(()) => Ok::<Option<PeerRemovalOutcome>, Error>(
                                    Some(
                                        PeerRemovalOutcome {
                                            fallback: if replacements@.len() > 0 {
                                                Some(replacements@[0])
                                            } else {
                                                None
                                            },
                                        },
                                    ),
                                ),
                                Err(error) => Err(error),
                            })
                        }
                }
            }),
    {
        let owner = self.lifecycles.active_attempt(peer);
        let matching = match (expected, owner) {
            (Some(expected), Some(owner)) => expected == owner,
            (None, None) => true,
            _ => false,
        };
        if !matching {
            return Ok(None);
        }
        let replacements = self.live_successor_replacements(
            peer,
            first_successor,
            successor_capacity,
        );
        let fallback = if replacements.len() > 0 {
            Some(replacements[0])
        } else {
            None
        };
        match remove(peer, &replacements) {
            Ok(()) => Ok(Some(PeerRemovalOutcome { fallback })),
            Err(error) => Err(error),
        }
    }

    /// Reconcile one reported finger with the connection of its peer. `act` has the finger table
    /// apply, keep or retire the proof; a kept proof of a pending generation stays with it.
    pub fn record_finger_candidate<
        F: FnOnce(FingerCandidateAdmission) -> Result<FingerOutcome, Error>,
    >(&mut self, peer: Did, request: FingerFixRequest, act: F) -> (disposition: Result<
        FingerUpdateDisposition,
        Error,
    >)
        requires
            old(self).wf(),
            forall|admission: FingerCandidateAdmission| #[trigger] act.requires((admission,)),
        ensures
            final(self).wf(),
            ({
                let model = old(self)@;
                let admission = model.finger_admission(peer);
                exists|outcome: Result<FingerOutcome, Error>| #[trigger]
                    act.ensures((admission,), outcome) && match outcome {
                        Err(error) => disposition == Err::<FingerUpdateDisposition, Error>(error)
                            && final(self)@ == model,
                        Ok(FingerOutcome::Rejected(reason)) => disposition == Ok::<
                            FingerUpdateDisposition,
                            Error,
                        >(FingerUpdateDisposition::Rejected(reason)) && final(self)@ == model,
                        Ok(FingerOutcome::Done) => match admission {
                            FingerCandidateAdmission::Apply => disposition == Ok::<
                                FingerUpdateDisposition,
                                Error,
                            >(FingerUpdateDisposition::Applied) && final(self)@ == model,
                            FingerCandidateAdmission::Missing => disposition == Ok::<
                                FingerUpdateDisposition,
                                Error,
                            >(FingerUpdateDisposition::Missing) && final(self)@ == model,
                            FingerCandidateAdmission::Unroutable => disposition == Ok::<
                                FingerUpdateDisposition,
                                Error,
                            >(FingerUpdateDisposition::Unroutable) && final(self)@ == model,
                            FingerCandidateAdmission::Queue(attempt) => disposition == Ok::<
                                FingerUpdateDisposition,
                                Error,
                            >(FingerUpdateDisposition::Queued) && final(self)@
                                == (TransportModel {
                                proofs: model.proofs.insert(attempt, request),
                                ..model
                            }),
                        },
                    }
            }),
    {
        let admission = if peer == self.did {
            FingerCandidateAdmission::Apply
        } else {
            finger_candidate_admission(
                self.lifecycles.state(peer),
                self.get_connection(peer).is_some(),
            )
        };
        assert(admission == self@.finger_admission(peer));
        match act(admission) {
            Ok(outcome) => {
                if let FingerOutcome::Done = outcome {
                    if let FingerCandidateAdmission::Queue(attempt) = admission {
                        self.pending_finger_updates.insert(attempt, request);
                    }
                }
                Ok(finger_disposition(admission, outcome))
            },
            Err(error) => Err(error),
        }
    }
}

impl SwarmTransport {
    /// Run `action` only while `attempt` owns the active slot of its peer.
    pub fn with_active_slot<T, F: FnOnce() -> Result<T, Error>>(
        &self,
        attempt: PendingConnectionAttempt,
        action: F,
    ) -> (done: Result<Option<T>, Error>)
        requires
            self.wf(),
            action.requires(()),
        ensures
            !is_active(self@.records, attempt) ==> done == Ok::<Option<T>, Error>(None),
            is_active(self@.records, attempt) ==> exists|result: Result<T, Error>| #[trigger]
                action.ensures((), result) && done == (match result {
                    Ok(value) => Ok::<Option<T>, Error>(Some(value)),
                    Err(error) => Err(error),
                }),
    {
        if !self.owns_active_slot(attempt) {
            return Ok(None);
        }
        match action() {
            Ok(value) => Ok(Some(value)),
            Err(error) => Err(error),
        }
    }

    /// Remove every handshake that has outlived its lifetime, in identity order.
    pub fn expire_pending_connections(&mut self, now_ms: i64) -> (expired: Vec<ExpiredConnection>)
        requires
            old(self).wf(),
        ensures
            final(self).wf(),
            final(self)@ == (TransportModel {
                records: unexpired(old(self)@.records, now_ms),
                proofs: surviving_proofs(old(self)@, now_ms),
                ..old(self)@
            }),
            forall|i: int|
                0 <= i < expired@.len() ==> {
                    let entry = #[trigger] expired@[i];
                    &&& outlived(old(self)@.records, entry.report.attempt, now_ms)
                    &&& expiry_of(old(self)@.records[entry.report.attempt.peer], now_ms) == Some(
                        entry.report,
                    )
                    &&& entry.connection == old(self)@.connection_to(entry.report.attempt.peer)
                    &&& entry.finger == old(self)@.proof_of(entry.report.attempt)
                },
            forall|i: int, j: int|
                0 <= i < j < expired@.len() ==> (#[trigger] expired@[i]).report.attempt.peer.rank()
                    < (#[trigger] expired@[j]).report.attempt.peer.rank(),
            forall|peer: Did|
                #![trigger old(self)@.records[peer]]
                old(self)@.records.contains_key(peer) && expiry_of(
                    old(self)@.records[peer],
                    now_ms,
                ) is Some ==> exists|i: int|
                    0 <= i < expired@.len() && (#[trigger] expired@[i]).report.attempt.peer == peer,
    {
        let reports = self.lifecycles.expire(now_ms);
        let mut expired: Vec<ExpiredConnection> = Vec::new();
        let mut index: usize = 0;
        let ghost records = old(self)@.records;
        proof {
            assert forall|i: int| 0 <= i < reports@.len() implies outlived(
                records,
                (#[trigger] reports@[i]).attempt,
                now_ms,
            ) by {
                assert(records.contains_key(reports@[i].attempt.peer));
            }
        }
        while index < reports.len()
            invariant
                self.wf(),
                index <= reports@.len(),
                expired@.len() == index,
                self@ == (TransportModel {
                    records: unexpired(old(self)@.records, now_ms),
                    proofs: self@.proofs,
                    ..old(self)@
                }),
                forall|i: int|
                    0 <= i < index ==> {
                        let entry = #[trigger] expired@[i];
                        &&& entry.report == reports@[i]
                        &&& entry.connection == old(self)@.connection_to(reports@[i].attempt.peer)
                        &&& entry.finger == old(self)@.proof_of(reports@[i].attempt)
                    },
                forall|i: int, j: int|
                    0 <= i < j < reports@.len() ==> (#[trigger] reports@[i]).attempt.peer.rank() < (
                    #[trigger] reports@[j]).attempt.peer.rank(),
                forall|attempt: PendingConnectionAttempt|
                    #![trigger self@.proofs.contains_key(attempt)]
                    self@.proofs.contains_key(attempt) <==> old(self)@.proofs.contains_key(attempt)
                        && !(exists|i: int|
                        0 <= i < index && (#[trigger] reports@[i]).attempt == attempt),
                forall|attempt: PendingConnectionAttempt| #[trigger]
                    self@.proofs.contains_key(attempt) ==> self@.proofs[attempt]
                        == old(self)@.proofs[attempt],
            decreases reports@.len() - index,
        {
            let report = reports[index];
            let ghost before = self@.proofs;
            proof {
                if exists|i: int| 0 <= i < index && (#[trigger] reports@[i]).attempt
                    == report.attempt {
                    let i = choose|i: int|
                        0 <= i < index && (#[trigger] reports@[i]).attempt == report.attempt;
                    assert(reports@[i].attempt.peer.rank() < reports@[index as int].attempt.peer.rank());
                }
                assert(before.contains_key(report.attempt) <==> old(self)@.proofs.contains_key(
                    report.attempt,
                ));
            }
            let finger = self.pending_finger_updates.remove(report.attempt);
            let connection = self.get_raw_connection(report.attempt.peer);
            expired.push(ExpiredConnection { report, connection, finger });
            proof {
                assert(self@.proofs == before.remove(report.attempt));
                assert forall|attempt: PendingConnectionAttempt|
                    #![trigger self@.proofs.contains_key(attempt)]
                    self@.proofs.contains_key(attempt) <==> old(self)@.proofs.contains_key(attempt)
                        && !(exists|i: int|
                        0 <= i < index + 1 && (#[trigger] reports@[i]).attempt == attempt) by {
                    assert(before.contains_key(attempt) <==> old(self)@.proofs.contains_key(attempt)
                        && !(exists|i: int|
                        0 <= i < index && (#[trigger] reports@[i]).attempt == attempt));
                    assert(reports@[index as int].attempt == report.attempt);
                }
            }
            index += 1;
        }
        proof {
            let survivors = surviving_proofs(old(self)@, now_ms);
            assert forall|attempt: PendingConnectionAttempt| #[trigger]
                self@.proofs.contains_key(attempt) <==> survivors.contains_key(attempt) by {
                if outlived(records, attempt, now_ms) {
                    assert(records.contains_key(attempt.peer));
                    assert(expiry_of(records[attempt.peer], now_ms) is Some);
                    let i = choose|i: int|
                        0 <= i < reports@.len() && (#[trigger] reports@[i]).attempt.peer
                            == attempt.peer;
                    assert(reports@[i].attempt == attempt);
                }
            }
            assert(self@.proofs =~= survivors);
            assert forall|peer: Did|
                #![trigger old(self)@.records[peer]]
                old(self)@.records.contains_key(peer) && expiry_of(
                    old(self)@.records[peer],
                    now_ms,
                ) is Some implies exists|i: int|
                0 <= i < expired@.len() && (#[trigger] expired@[i]).report.attempt.peer == peer by {
                let i = choose|i: int|
                    0 <= i < reports@.len() && (#[trigger] reports@[i]).attempt.peer == peer;
                assert(expired@[i].report.attempt.peer == peer);
            }
        }
        expired
    }

    /// Apply an observation of the active generation `attempt`; one of another generation is
    /// ignored.
    pub fn observe_peer_liveness(
        &mut self,
        attempt: PendingConnectionAttempt,
        observation: PeerLivenessObservation,
        now_ms: i64,
    )
        requires
            old(self).wf(),
        ensures
            final(self).wf(),
            final(self)@ == (TransportModel {
                liveness: if is_active(old(self)@.records, attempt) {
                    after_observation(
                        old(self)@.liveness,
                        observation,
                        attempt.peer,
                        attempt.generation,
                        now_ms,
                    )
                } else {
                    old(self)@.liveness
                },
                ..old(self)@
            }),
    {
        if self.owns_active_slot(attempt) {
            self.peer_liveness.observe(observation, attempt.peer, attempt.generation, now_ms);
        }
    }

    /// Note that the active generation `attempt` connected.
    pub fn mark_peer_liveness_connected(&mut self, attempt: PendingConnectionAttempt, now_ms: i64)
        requires
            old(self).wf(),
        ensures
            final(self).wf(),
            final(self)@ == (TransportModel {
                liveness: if is_active(old(self)@.records, attempt) {
                    old(self)@.liveness.insert(attempt.peer, fresh(attempt.generation, now_ms))
                } else {
                    old(self)@.liveness
                },
                ..old(self)@
            }),
    {
        self.observe_peer_liveness(attempt, PeerLivenessObservation::Connected, now_ms);
    }

    /// Note a payload of the active generation `attempt`.
    pub fn mark_peer_liveness_inbound(&mut self, attempt: PendingConnectionAttempt, now_ms: i64)
        requires
            old(self).wf(),
        ensures
            final(self).wf(),
            final(self)@ == (TransportModel {
                liveness: if is_active(old(self)@.records, attempt) {
                    after_inbound(
                        old(self)@.liveness,
                        attempt.peer,
                        attempt.generation,
                        now_ms,
                    )
                } else {
                    old(self)@.liveness
                },
                ..old(self)@
            }),
    {
        self.observe_peer_liveness(attempt, PeerLivenessObservation::Inbound, now_ms);
    }

    /// Note a payload that was received from the generation `attempt`: only an authenticated one
    /// is evidence that the peer lives.
    pub fn record_peer_message_received(
        &mut self,
        attempt: PendingConnectionAttempt,
        authenticated: bool,
        now_ms: i64,
    )
        requires
            old(self).wf(),
        ensures
            final(self).wf(),
            final(self)@ == (TransportModel {
                liveness: if authenticated && is_active(old(self)@.records, attempt) {
                    after_inbound(
                        old(self)@.liveness,
                        attempt.peer,
                        attempt.generation,
                        now_ms,
                    )
                } else {
                    old(self)@.liveness
                },
                ..old(self)@
            }),
    {
        if authenticated {
            self.mark_peer_liveness_inbound(attempt, now_ms);
        }
    }

    /// Keep one liveness record for every generation that sends, and list those due for a probe
    /// in identity order.
    pub fn liveness_probe_candidates(&mut self, now_ms: i64) -> (candidates: Vec<
        PendingConnectionAttempt,
    >)
        requires
            old(self).wf(),
        ensures
            final(self).wf(),
            final(self)@ == (TransportModel {
                liveness: aligned(
                    old(self)@.liveness,
                    sendable(old(self)@.records, old(self)@.terminal),
                    now_ms,
                ),
                ..old(self)@
            }),
            lists_in_order(
                candidates@,
                due(
                    final(self)@.liveness,
                    sendable(old(self)@.records, old(self)@.terminal),
                    now_ms,
                ),
            ),
    {
        let active = self.lifecycles.active_connections();
        self.peer_liveness.probe_candidates(&active, now_ms)
    }

    /// Note a probe that was sent to the active generation `attempt`.
    pub fn record_peer_liveness_probe_sent(&mut self, attempt: PendingConnectionAttempt, now_ms: i64)
        requires
            old(self).wf(),
        ensures
            final(self).wf(),
            final(self)@ == (TransportModel {
                liveness: if is_active(old(self)@.records, attempt) {
                    after_probe(old(self)@.liveness, attempt.peer, attempt.generation, now_ms)
                } else {
                    old(self)@.liveness
                },
                ..old(self)@
            }),
    {
        if self.owns_active_slot(attempt) {
            self.peer_liveness.mark_probe_sent(attempt.peer, attempt.generation, now_ms);
        }
    }

    /// The evidence at `now_ms` that the active generation `attempt` is gone.
    pub fn peer_liveness_expiry(&self, attempt: PendingConnectionAttempt, now_ms: i64) -> (expiry:
        Option<PeerLivenessExpiry>)
        requires
            self.wf(),
        ensures
            expiry == (if is_active(self@.records, attempt) && recorded(
                self@.liveness,
                attempt.peer,
                attempt.generation,
            ) {
                expiry_at(self@.liveness[attempt.peer], now_ms)
            } else {
                None
            }),
    {
        if !self.owns_active_slot(attempt) {
            return None;
        }
        self.peer_liveness.expiry(attempt.peer, attempt.generation, now_ms)
    }

    /// How long the active generation of `peer` has had a liveness record at `now_ms`.
    pub fn peer_connected_for_ms(&self, peer: Did, now_ms: i64) -> (age_ms: Option<i64>)
        requires
            self.wf(),
        ensures
            age_ms == (if admitted(self@.records).contains_key(peer) && recorded(
                self@.liveness,
                peer,
                admitted(self@.records)[peer].generation,
            ) {
                Some(elapsed_between(now_ms, self@.liveness[peer].connected_at_ms) as i64)
            } else {
                None
            }),
    {
        match self.lifecycles.active_attempt(peer) {
            Some(attempt) => self.peer_liveness.connected_for_ms(peer, attempt.generation, now_ms),
            None => None,
        }
    }

    /// The admitted connections that may be evicted for a newcomer while the topology references
    /// `referenced`, in the order in which to try them.
    pub fn unreferenced_eviction_order(
        &self,
        referenced: &Vec<Did>,
        grace_ms: i64,
        now_ms: i64,
    ) -> (plan: Vec<PendingConnectionAttempt>)
        requires
            self.wf(),
        ensures
            exists|listed: Seq<PendingConnectionAttempt>|
                #![trigger lists_in_order(listed, admitted(self@.records))]
                {
                    &&& lists_in_order(listed, admitted(self@.records))
                    &&& is_eviction_plan(
                        candidates_of(self@, listed, now_ms),
                        referenced@,
                        grace_ms,
                        plan@,
                    )
                },
    {
        let attempts = self.lifecycles.admitted_connections().attempts();
        let mut candidates: Vec<RetentionCandidate> = Vec::new();
        let mut index: usize = 0;
        while index < attempts.len()
            invariant
                self.wf(),
                index <= attempts@.len(),
                candidates@.len() == index,
                forall|i: int|
                    0 <= i < index ==> #[trigger] candidates@[i] == candidate_of(
                        self@,
                        attempts@[i],
                        now_ms,
                    ),
            decreases attempts@.len() - index,
        {
            let attempt = attempts[index];
            let age_ms = self.peer_liveness.connected_for_ms(
                attempt.peer,
                attempt.generation,
                now_ms,
            );
            let idle_ms = self.peer_liveness.idle_for_ms(attempt.peer, attempt.generation, now_ms);
            let evidence = match (age_ms, idle_ms) {
                (Some(age_ms), Some(idle_ms)) => Some(RetentionEvidence { age_ms, idle_ms }),
                _ => None,
            };
            candidates.push(
                RetentionCandidate {
                    attempt,
                    send_terminal: self.lifecycles.is_send_terminal(attempt),
                    evidence,
                },
            );
            index += 1;
        }
        proof {
            assert(candidates@ =~= candidates_of(self@, attempts@, now_ms));
            assert(lists_in_order(attempts@, admitted(self@.records)));
        }
        eviction_order(&candidates, referenced, grace_ms)
    }

    /// Retire the active generation `attempt` unless the topology references its peer by now.
    pub fn retire_unless_referenced<F: FnOnce(Did, &Vec<Did>) -> Result<(), Error>>(
        &mut self,
        attempt: PendingConnectionAttempt,
        referenced: &Vec<Did>,
        remove: F,
    ) -> (outcome: Result<(UnreferencedRetirement, Option<RetiredConnection>), Error>)
        requires
            old(self).wf(),
            forall|replacements: &Vec<Did>| #[trigger]
                remove.requires((attempt.peer, replacements)),
        ensures
            final(self).wf(),
            ({
                let model = old(self)@;
                if !is_active(model.records, attempt) {
                    outcome == Ok::<(UnreferencedRetirement, Option<RetiredConnection>), Error>(
                        (UnreferencedRetirement::Superseded, None),
                    ) && final(self)@ == model
                } else if referenced@.contains(attempt.peer) {
                    outcome == Ok::<(UnreferencedRetirement, Option<RetiredConnection>), Error>(
                        (UnreferencedRetirement::Referenced, None),
                    ) && final(self)@ == model
                } else {
                    exists|retired: Result<Option<RetiredConnection>, Error>| #[trigger]
                        taken_out(
                            model,
                            attempt,
                            false,
                            None,
                            0,
                            remove,
                            retired,
                            final(self)@,
                        ) && match retired {
                            Ok(connection) => connection is Some && outcome == Ok::<
                                (UnreferencedRetirement, Option<RetiredConnection>),
                                Error,
                            >((UnreferencedRetirement::Retired, connection)),
                            Err(error) => outcome == Err::<
                                (UnreferencedRetirement, Option<RetiredConnection>),
                                Error,
                            >(error),
                        }
                }
            }),
    {
        if !self.owns_active_slot(attempt) {
            return Ok((UnreferencedRetirement::Superseded, None));
        }
        if contains_peer(referenced, attempt.peer) {
            return Ok((UnreferencedRetirement::Referenced, None));
        }
        match self.disconnect_attempt(attempt, remove) {
            Ok(retired) => Ok((UnreferencedRetirement::Retired, retired)),
            Err(error) => Err(error),
        }
    }

    /// Exchange the active generation of `peer` for a new active one.
    pub fn replace_active_generation(&mut self, peer: Did, now_ms: i64) -> (replaced: Result<
        (PendingConnectionAttempt, PendingConnectionAttempt),
        Error,
    >)
        requires
            old(self).wf(),
        ensures
            final(self).wf(),
            ({
                let model = old(self)@;
                let active = admitted(model.records);
                &&& !active.contains_key(peer) ==> replaced == Err::<
                    (PendingConnectionAttempt, PendingConnectionAttempt),
                    Error,
                >(Error::SwarmMissTransport(peer)) && final(self)@ == model
                &&& active.contains_key(peer) ==> {
                    let current = active[peer];
                    let vacated = active_removed(model.records, current);
                    let next = PendingConnectionAttempt {
                        peer,
                        generation: (model.latest + 1) as u64,
                    };
                    let room = verdict_of(vacated, model.limits, peer) is Admissible
                        && model.latest < u64::MAX;
                    &&& replaced is Ok <==> room
                    &&& room ==> replaced == Ok::<
                        (PendingConnectionAttempt, PendingConnectionAttempt),
                        Error,
                    >((current, next))
                    &&& replaced matches Err(error) ==> match verdict_of(
                        vacated,
                        model.limits,
                        peer,
                    ) {
                        ReservationVerdict::AlreadyConnected => error == Error::AlreadyConnected,
                        ReservationVerdict::PendingCapacityExceeded => error
                            == Error::PendingConnectionCapacityExceeded {
                            capacity: model.limits.handshakes() as usize,
                        },
                        ReservationVerdict::CapacityExceeded => error
                            == Error::ConnectionCapacityExceeded {
                            capacity: model.limits.records() as usize,
                        },
                        ReservationVerdict::Admissible => error
                            == Error::PendingConnectionGenerationExhausted,
                    }
                    &&& final(self)@ == (TransportModel {
                        records: if room {
                            vacated.insert(
                                peer,
                                PeerConnectionLifecycle::Active { attempt: next, announced: false },
                            )
                        } else {
                            vacated
                        },
                        terminal: model.terminal.remove(current),
                        latest: if room {
                            next.generation
                        } else {
                            model.latest
                        },
                        ..model
                    })
                }
            }),
    {
        let current = match self.lifecycles.active_attempt(peer) {
            Some(current) => current,
            None => {
                return Err(Error::SwarmMissTransport(peer));
            },
        };
        let _ = self.lifecycles.remove_active(current);
        match self.lifecycles.reserve(peer, now_ms) {
            Ok(replacement) => {
                let _ = self.lifecycles.promote(replacement);
                Ok((current, replacement))
            },
            Err(error) => Err(error),
        }
    }

    /// The connection whose readiness a send to `peer` waits for: none if no generation sends to
    /// it, or its connection never will.
    pub fn begin_send_wait(&self, peer: Did) -> (admitted: Option<AdmittedConnection>)
        requires
            self.wf(),
        ensures
            admitted == (if self@.sends_to(peer) && self@.connections.contains_key(peer) && !(
            self@.connections[peer].reading().0 is Terminal) {
                Some(
                    AdmittedConnection {
                        attempt: self@.sender_of(peer),
                        connection: self@.connections[peer],
                    },
                )
            } else {
                None
            }),
            admitted matches Some(admitted) ==> admitted.attempt.peer == peer,
    {
        match self.admitted_send_connection(peer) {
            Some(admitted) => if admitted.connection.readiness().is_terminal() {
                None
            } else {
                Some(admitted)
            },
            None => None,
        }
    }

    /// What the wait for `admitted` comes to: a ready connection is used while its generation
    /// still sends, any other is given up as unavailable.
    pub fn finish_send_wait<F: FnOnce(Did, &Vec<Did>) -> Result<(), Error>>(
        &mut self,
        admitted: AdmittedConnection,
        waited: SendWait,
        first_successor: Option<Did>,
        successor_capacity: usize,
        remove: F,
    ) -> (checked: CheckedConnection)
        requires
            old(self).wf(),
            forall|replacements: &Vec<Did>| #[trigger]
                remove.requires((admitted.attempt.peer, replacements)),
        ensures
            final(self).wf(),
            waited == SendWait::Ready ==> final(self)@ == old(self)@ && checked == (
            if old(self).is_sender(admitted.attempt) {
                CheckedConnection::Usable(admitted)
            } else {
                CheckedConnection::Superseded
            }),
            waited != SendWait::Ready ==> exists|retired: Result<Option<RetiredConnection>, Error>|
                #[trigger]
                taken_out(
                    old(self)@,
                    admitted.attempt,
                    true,
                    first_successor,
                    successor_capacity,
                    remove,
                    retired,
                    final(self)@,
                ) && checked == (match retired {
                    Ok(retired) => CheckedConnection::Dropped(retired),
                    Err(error) => CheckedConnection::Kept(error),
                }),
    {
        match waited {
            SendWait::Ready => if self.is_current_sender(admitted.attempt) {
                CheckedConnection::Usable(admitted)
            } else {
                CheckedConnection::Superseded
            },
            _ => match self.disconnect_unavailable(
                admitted.attempt,
                first_successor,
                successor_capacity,
                remove,
            ) {
                Ok(retired) => CheckedConnection::Dropped(retired),
                Err(error) => CheckedConnection::Kept(error),
            },
        }
    }

    /// Whether `remove`, run unless another generation of the peer is active by now, took the peer
    /// of the retired generation `attempt` out of the topology.
    pub fn remove_retired_attempt_topology<F: FnOnce(Did) -> Result<(), Error>>(
        &self,
        attempt: PendingConnectionAttempt,
        remove: F,
    ) -> (removal: Result<bool, Error>)
        requires
            self.wf(),
            remove.requires((attempt.peer,)),
        ensures
            if admitted(self@.records).contains_key(attempt.peer) {
                removal == Ok::<bool, Error>(false)
            } else {
                exists|removed: Result<(), Error>| #[trigger]
                    remove.ensures((attempt.peer,), removed) && removal == (match removed {
                        Ok(()) => Ok::<bool, Error>(true),
                        Err(error) => Err(error),
                    })
            },
    {
        if self.lifecycles.active_attempt(attempt.peer).is_some() {
            return Ok(false);
        }
        match remove(attempt.peer) {
            Ok(()) => Ok(true),
            Err(error) => Err(error),
        }
    }

    /// The peer that takes the place of `removed`, if it is the first successor.
    pub fn live_successor_fallback(
        &self,
        removed: Did,
        first_successor: Option<Did>,
        successor_capacity: usize,
    ) -> (fallback: Option<Did>)
        requires
            self.wf(),
        ensures
            match fallback {
                Some(peer) => {
                    &&& first_successor == Some(removed)
                    &&& successor_capacity > 0
                    &&& self@.nearest_replacement(removed, peer)
                },
                None => first_successor != Some(removed) || successor_capacity == 0
                    || self@.irreplaceable(removed),
            },
    {
        let replacements = self.live_successor_replacements(
            removed,
            first_successor,
            successor_capacity,
        );
        if replacements.len() == 0 {
            proof {
                assert forall|peer: Did| !replacements@.contains(peer) by {}
            }
            return None;
        }
        let peer = replacements[0];
        proof {
            assert forall|other: Did| #[trigger]
                self@.may_replace(removed, other) && other != peer implies peer.distance_from(
                self@.local,
            ) < other.distance_from(self@.local) by {
                if replacements@.contains(other) {
                    let j = choose|j: int|
                        0 <= j < replacements@.len() && replacements@[j] == other;
                    assert(replacements@[0].distance_from(self@.local)
                        < replacements@[j].distance_from(self@.local));
                } else {
                    assert(replacements@[0].distance_from(self@.local) < other.distance_from(
                        self@.local,
                    ));
                }
            }
        }
        Some(peer)
    }

    /// The physical connection of the generation that sends to `peer`.
    pub fn admitted_connection(&self, peer: Did) -> (connection: Option<SwarmConnection>)
        requires
            self.wf(),
        ensures
            connection == (if self@.sends_to(peer) {
                self@.connection_to(peer)
            } else {
                None
            }),
    {
        match self.admitted_connection_with_attempt(peer) {
            Some((_, connection)) => Some(connection),
            None => None,
        }
    }

    /// Every admitted generation that has a physical connection, with that connection, in identity
    /// order.
    pub fn admitted_connections(&self) -> (connections: Vec<
        (PendingConnectionAttempt, SwarmConnection),
    >)
        requires
            self.wf(),
        ensures
            lists_peers(
                connections@.map_values(
                    |entry: (PendingConnectionAttempt, SwarmConnection)| entry.0.peer,
                ),
                |peer: Did|
                    admitted(self@.records).contains_key(peer) && self@.connections.contains_key(
                        peer,
                    ),
            ),
            forall|i: int|
                0 <= i < connections@.len() ==> {
                    let entry = #[trigger] connections@[i];
                    &&& entry.0 == admitted(self@.records)[entry.0.peer]
                    &&& entry.1 == self@.connections[entry.0.peer]
                },
    {
        let attempts = self.lifecycles.admitted_connections().attempts();
        let mut connections: Vec<(PendingConnectionAttempt, SwarmConnection)> = Vec::new();
        let mut index: usize = 0;
        let ghost records = admitted(self@.records);
        while index < attempts.len()
            invariant
                self.wf(),
                records == admitted(self@.records),
                index <= attempts@.len(),
                lists_in_order(attempts@, records),
                forall|i: int|
                    0 <= i < connections@.len() ==> {
                        let entry = #[trigger] connections@[i];
                        &&& self@.connections.contains_key(entry.0.peer)
                        &&& entry.1 == self@.connections[entry.0.peer]
                        &&& attempts@.take(index as int).contains(entry.0)
                    },
                forall|i: int, j: int|
                    0 <= i < j < connections@.len() ==> (#[trigger] connections@[i]).0.peer.rank()
                        < (#[trigger] connections@[j]).0.peer.rank(),
                forall|j: int|
                    0 <= j < index && self@.connections.contains_key(
                        (#[trigger] attempts@[j]).peer,
                    ) ==> connections@.contains(
                        (attempts@[j], self@.connections[attempts@[j].peer]),
                    ),
            decreases attempts@.len() - index,
        {
            let attempt = attempts[index];
            let ghost before = connections@;
            proof {
                assert forall|i: int| 0 <= i < before.len() implies (
                #[trigger] before[i]).0.peer.rank() < attempt.peer.rank() by {
                    let j = choose|j: int|
                        0 <= j < index && attempts@.take(index as int)[j] == before[i].0;
                    assert(attempts@[j].peer.rank() < attempts@[index as int].peer.rank());
                }
                assert forall|entry: PendingConnectionAttempt| #[trigger]
                    attempts@.take(index as int).contains(entry) implies attempts@.take(
                    index as int + 1,
                ).contains(entry) by {
                    let j = choose|j: int|
                        0 <= j < index && attempts@.take(index as int)[j] == entry;
                    assert(attempts@.take(index as int + 1)[j] == entry);
                }
                assert(attempts@.take(index as int + 1)[index as int] == attempt);
            }
            if let Some(connection) = self.get_raw_connection(attempt.peer) {
                connections.push((attempt, connection));
                proof {
                    assert(connections@[before.len() as int] == (attempt, connection));
                    assert forall|j: int|
                        0 <= j < index + 1 && self@.connections.contains_key(
                            (#[trigger] attempts@[j]).peer,
                        ) implies connections@.contains(
                        (attempts@[j], self@.connections[attempts@[j].peer]),
                    ) by {
                        if j < index {
                            let i = choose|i: int|
                                0 <= i < before.len() && before[i] == (
                                    attempts@[j],
                                    self@.connections[attempts@[j].peer],
                                );
                            assert(connections@[i] == before[i]);
                        }
                    }
                }
            }
            index += 1;
        }
        proof {
            assert(attempts@.take(index as int) =~= attempts@);
            let peers = connections@.map_values(
                |entry: (PendingConnectionAttempt, SwarmConnection)| entry.0.peer,
            );
            assert forall|i: int| 0 <= i < connections@.len() implies records.contains_pair(
                (#[trigger] connections@[i]).0.peer,
                connections@[i].0,
            ) by {
                assert(attempts@.take(index as int).contains(connections@[i].0));
                let j = choose|j: int| 0 <= j < attempts@.len() && attempts@[j] == connections@[i].0;
                assert(records.contains_pair(attempts@[j].peer, attempts@[j]));
            }
            assert forall|peer: Did|
                records.contains_key(peer) && self@.connections.contains_key(
                    peer,
                ) implies #[trigger] peers.contains(peer) by {
                let j = choose|j: int|
                    0 <= j < attempts@.len() && (#[trigger] attempts@[j]).peer == peer;
                let i = choose|i: int|
                    0 <= i < connections@.len() && connections@[i] == (
                        attempts@[j],
                        self@.connections[attempts@[j].peer],
                    );
                assert(peers[i] == peer);
            }
        }
        connections
    }

    /// Who owns the physical connection to `peer`.
    pub fn raw_connection_owner(&self, peer: Did) -> (owner: RawConnectionOwner)
        requires
            self.wf(),
        ensures
            owner == (match self@.state_of(peer) {
                Some(PeerConnectionLifecycle::Pending { attempt, .. }) =>
                    RawConnectionOwner::Pending(attempt),
                Some(_) => RawConnectionOwner::Owned,
                None => RawConnectionOwner::Orphan,
            }),
    {
        raw_connection_owner(self.lifecycles.state(peer))
    }

    /// How many handshakes are under way.
    pub fn pending_connection_count(&self) -> (count: usize)
        requires
            self.wf(),
        ensures
            count == handshaking(self@.records).len(),
    {
        self.lifecycles.pending_len()
    }

    /// The link hop `hop` as it is now.
    pub fn link_hop(&self, hop: Did) -> (link: LinkHop)
        requires
            self.wf(),
        ensures
            ({
                let sends = self@.sends_to(hop) && self@.connections.contains_key(hop);
                link == (LinkHop {
                    hop,
                    generation: if sends {
                        Some(self@.sender_of(hop).generation)
                    } else {
                        None
                    },
                    usable: sends && self@.connections[hop].reading().ready(),
                })
            }),
    {
        match self.admitted_send_connection(hop) {
            Some(admitted) => LinkHop {
                hop,
                generation: Some(admitted.attempt.generation),
                usable: admitted.connection.readiness().can_make_progress(),
            },
            None => LinkHop { hop, generation: None, usable: false },
        }
    }

    /// Note that the disconnection of `peer` is measured; false if it already was.
    pub fn measure_disconnect(&mut self, peer: Did) -> (first: bool)
        requires
            old(self).wf(),
        ensures
            final(self).wf(),
            first == !old(self)@.measured.contains(peer),
            final(self)@ == (TransportModel {
                measured: old(self)@.measured.insert(peer),
                ..old(self)@
            }),
    {
        let first = !self.measured_disconnects.contains_key(peer);
        self.measured_disconnects.insert(peer, ());
        proof {
            assert(self@.measured =~= old(self)@.measured.insert(peer));
        }
        first
    }
}

/// Only an active generation that still accepts sends makes its peer routable.
pub proof fn law_only_active_generations_are_routable(model: TransportModel, peer: Did)
    ensures
        model.routes_to(peer) ==> model.state_of(peer) is Some && model.state_of(peer)->0 is Active
            && !model.terminal.contains(model.state_of(peer)->0.owner()),
        !(model.state_of(peer) is Some && model.state_of(peer)->0 is Active) ==> !model.routes_to(
            peer,
        ),
{
}

/// Once a generation is retired its peer has no record, no route, no finger proof, no liveness
/// record and no measured disconnection, and every other peer is as it was.
pub proof fn law_retirement_leaves_nothing_behind(
    model: TransportModel,
    attempt: PendingConnectionAttempt,
    other: PendingConnectionAttempt,
)
    requires
        owned_by_peers(model.records, model.latest),
        is_active(model.records, attempt),
    ensures
        ({
            let after = model.retired(attempt);
            let peer = attempt.peer;
            &&& after.state_of(peer) is None
            &&& !after.routes_to(peer)
            &&& other.peer == peer ==> after.proof_of(other) is None
            &&& !after.liveness.contains_key(peer)
            &&& !after.measured.contains(peer)
            &&& !after.terminal.contains(attempt)
            &&& after.connections == model.connections
            &&& other.peer != peer ==> {
                &&& after.state_of(other.peer) == model.state_of(other.peer)
                &&& after.routes_to(other.peer) == model.routes_to(other.peer)
                &&& after.proof_of(other) == model.proof_of(other)
                &&& after.liveness.contains_key(other.peer) == model.liveness.contains_key(
                    other.peer,
                )
                &&& after.measured.contains(other.peer) == model.measured.contains(other.peer)
            }
        }),
{
}

/// A handshake that expires or is cancelled never entered the topology: which generations are
/// admitted, and which peers are routable, stays as it was.
pub proof fn law_unadmitted_connections_leave_the_topology_alone(
    model: TransportModel,
    attempt: PendingConnectionAttempt,
    now_ms: i64,
    peer: Did,
)
    ensures
        admitted(unexpired(model.records, now_ms)) == admitted(model.records),
        admitted(unadmitted_removed(model.records, attempt)) == admitted(model.records),
        (TransportModel { records: unexpired(model.records, now_ms), ..model }).routes_to(peer)
            == model.routes_to(peer),
        (TransportModel {
            records: unadmitted_removed(model.records, attempt),
            ..model
        }).routes_to(peer) == model.routes_to(peer),
{
    assert(admitted(unexpired(model.records, now_ms)) =~= admitted(model.records));
    assert(admitted(unadmitted_removed(model.records, attempt)) =~= admitted(model.records));
}

/// `peer` has an active generation that takes sends.
pub open spec fn takes_sends(model: TransportModel, peer: Did) -> bool {
    model.records.contains_key(peer) && (
    model.records[peer] matches PeerConnectionLifecycle::Active { attempt, .. }
        && !model.terminal.contains(attempt))
}

/// `peer`'s physical connection is live with an open data channel.
pub open spec fn channel_open(model: TransportModel, peer: Did) -> bool {
    &&& model.connections.contains_key(peer)
    &&& model.connections[peer].snapshot.data_channel_open
    &&& model.connections[peer].snapshot.webrtc is Connecting
        || model.connections[peer].snapshot.webrtc is Connected
}

/// `peer`'s physical connection has failed or was closed.
pub open spec fn connection_over(model: TransportModel, peer: Did) -> bool {
    &&& model.connections.contains_key(peer)
    &&& model.connections[peer].snapshot.webrtc is Failed
        || model.connections[peer].snapshot.webrtc is Closed
}

/// Nothing that is known of `other` and its peer changed.
pub open spec fn undisturbed(
    before: TransportModel,
    after: TransportModel,
    other: PendingConnectionAttempt,
) -> bool {
    let peer = other.peer;
    &&& after.records.contains_key(peer) == before.records.contains_key(peer)
    &&& before.records.contains_key(peer) ==> after.records[peer] == before.records[peer]
    &&& after.terminal.contains(other) == before.terminal.contains(other)
    &&& after.connections.contains_key(peer) == before.connections.contains_key(peer)
    &&& before.connections.contains_key(peer) ==> after.connections[peer]
        == before.connections[peer]
    &&& after.proofs.contains_key(other) == before.proofs.contains_key(other)
    &&& before.proofs.contains_key(other) ==> after.proofs[other] == before.proofs[other]
    &&& after.liveness.contains_key(peer) == before.liveness.contains_key(peer)
    &&& before.liveness.contains_key(peer) ==> after.liveness[peer] == before.liveness[peer]
    &&& after.measured.contains(peer) == before.measured.contains(peer)
}

/// The slot of `attempt`'s peer is empty, and nothing is kept for the generation.
pub open spec fn taken_away(after: TransportModel, attempt: PendingConnectionAttempt) -> bool {
    &&& !after.records.contains_key(attempt.peer)
    &&& !after.terminal.contains(attempt)
    &&& !after.proofs.contains_key(attempt)
    &&& !after.liveness.contains_key(attempt.peer)
    &&& !after.measured.contains(attempt.peer)
}

/// `attempt` holds its peer's active slot.
pub open spec fn holds_active_slot(
    model: TransportModel,
    attempt: PendingConnectionAttempt,
) -> bool {
    model.records.contains_key(attempt.peer) && (
    model.records[attempt.peer] matches PeerConnectionLifecycle::Active { attempt: owner, .. }
        && owner == attempt)
}

/// A send finds a connection exactly where its peer has an active generation that takes sends and a
/// physical connection; the connection is routable exactly if its channel is open too.
pub proof fn law_sends_find_the_active_generation(
    transport: SwarmTransport,
    peer: Did,
    routable: Option<SwarmConnection>,
    bound: Option<AdmittedConnection>,
    waiting: Option<AdmittedConnection>,
    pair: Option<(PendingConnectionAttempt, SwarmConnection)>,
    plain: Option<SwarmConnection>,
    hop: LinkHop,
)
    requires
        transport.wf(),
        call_ensures(SwarmTransport::get_connection, (&transport, peer), routable),
        call_ensures(SwarmTransport::admitted_send_connection, (&transport, peer), bound),
        call_ensures(SwarmTransport::begin_send_wait, (&transport, peer), waiting),
        call_ensures(SwarmTransport::admitted_connection_with_attempt, (&transport, peer), pair),
        call_ensures(SwarmTransport::admitted_connection, (&transport, peer), plain),
        call_ensures(SwarmTransport::link_hop, (&transport, peer), hop),
    ensures
        ({
            let model = transport@;
            let sends = takes_sends(model, peer) && model.connections.contains_key(peer);
            let owner = model.records[peer]->Active_attempt;
            &&& routable is Some <==> takes_sends(model, peer) && channel_open(model, peer)
            &&& routable matches Some(connection) ==> connection == model.connections[peer]
            &&& bound is Some <==> sends
            &&& bound matches Some(admitted) ==> admitted.attempt == owner && admitted.connection
                == model.connections[peer]
            &&& waiting is Some <==> sends && !connection_over(model, peer)
            &&& waiting is Some ==> waiting == bound
            &&& pair is Some <==> sends
            &&& pair matches Some(found) ==> found.0 == owner && found.1 == model.connections[peer]
            &&& plain is Some <==> sends
            &&& plain matches Some(connection) ==> connection == model.connections[peer]
            &&& hop.hop == peer
            &&& hop.generation is Some <==> sends
            &&& hop.generation matches Some(generation) ==> generation == owner.generation
            &&& hop.usable <==> sends && channel_open(model, peer)
        }),
{
}

/// A send goes on exactly while its generation is the one that takes its peer's sends; else the
/// error names the generation that lost its slot.
pub proof fn law_send_goes_on_with_its_own_generation(
    transport: SwarmTransport,
    admitted: AdmittedConnection,
    current: Result<(), Error>,
    sender: bool,
    owns: bool,
    attempt_current: Result<(), Error>,
)
    requires
        transport.wf(),
        call_ensures(SwarmTransport::ensure_current, (&transport, &admitted), current),
        call_ensures(SwarmTransport::is_current_sender, (&transport, admitted.attempt), sender),
        call_ensures(SwarmTransport::owns_active_slot, (&transport, admitted.attempt), owns),
        call_ensures(
            SwarmTransport::ensure_current_attempt,
            (&transport, admitted.attempt),
            attempt_current,
        ),
    ensures
        ({
            let model = transport@;
            let attempt = admitted.attempt;
            let sending = takes_sends(model, attempt.peer)
                && model.records[attempt.peer]->Active_attempt == attempt;
            let in_slot = model.records.contains_key(attempt.peer) && (
            match model.records[attempt.peer] {
                PeerConnectionLifecycle::Pending { attempt: owner, .. } => owner == attempt,
                PeerConnectionLifecycle::Admitting { attempt: owner, .. } => owner == attempt,
                PeerConnectionLifecycle::Active { attempt: owner, .. } => owner == attempt,
            });
            &&& current is Ok <==> sending
            &&& sender <==> sending
            &&& owns <==> holds_active_slot(model, attempt)
            &&& attempt_current is Ok <==> in_slot
            &&& current matches Err(error) ==> error is ConnectionAttemptSuperseded
                && error->ConnectionAttemptSuperseded_peer == attempt.peer
                && error->ConnectionAttemptSuperseded_generation == attempt.generation
        }),
{
}

/// The listed peers are exactly the routable ones, each with its own physical connection.
pub proof fn law_listed_peers_are_routable(
    transport: SwarmTransport,
    ids: Vec<Did>,
    connections: Vec<(Did, SwarmConnection)>,
    admitted_ids: Vec<Did>,
    peer: Did,
)
    requires
        transport.wf(),
        call_ensures(SwarmTransport::get_connection_ids, (&transport,), ids),
        call_ensures(SwarmTransport::get_connections, (&transport,), connections),
        call_ensures(SwarmTransport::admitted_connection_ids, (&transport,), admitted_ids),
    ensures
        ids@.contains(peer) <==> takes_sends(transport@, peer) && channel_open(transport@, peer),
        admitted_ids@.contains(peer) <==> transport@.records.contains_key(peer)
            && transport@.records[peer] is Active,
        forall|i: int|
            0 <= i < connections@.len() ==> {
                let entry = #[trigger] connections@[i];
                &&& takes_sends(transport@, entry.0)
                &&& channel_open(transport@, entry.0)
                &&& entry.1 == transport@.connections[entry.0]
            },
        takes_sends(transport@, peer) && channel_open(transport@, peer) ==> exists|i: int|
            0 <= i < connections@.len() && (#[trigger] connections@[i]).0 == peer,
{
    let named = connections@.map_values(|entry: (Did, SwarmConnection)| entry.0);
    let wanted = |peer: Did| transport@.routes_to(peer);
    assert(wanted(peer) == (takes_sends(transport@, peer) && channel_open(transport@, peer)));
    if ids@.contains(peer) {
        let i = choose|i: int| 0 <= i < ids@.len() && ids@[i] == peer;
        assert(wanted(ids@[i]));
    }
    if admitted_ids@.contains(peer) {
        let i = choose|i: int| 0 <= i < admitted_ids@.len() && admitted_ids@[i] == peer;
        assert(transport@.records[admitted_ids@[i]] is Active);
    }
    assert forall|i: int| 0 <= i < connections@.len() implies ({
        let entry = #[trigger] connections@[i];
        &&& takes_sends(transport@, entry.0)
        &&& channel_open(transport@, entry.0)
        &&& entry.1 == transport@.connections[entry.0]
    }) by {
        assert(named[i] == connections@[i].0);
        assert(wanted(named[i]));
    }
    if wanted(peer) {
        assert(named.contains(peer));
        let i = choose|i: int| 0 <= i < named.len() && named[i] == peer;
        assert(connections@[i].0 == peer);
    }
}

/// A node does not connect to itself; another connection is evicted for a peer exactly if it has no
/// record, fewer peers handshake than may, and every record is taken.
pub proof fn law_reservation_is_refused_for_oneself_only(
    transport: SwarmTransport,
    peer: Did,
    valid: Result<(), Error>,
    evicts: bool,
)
    requires
        transport.wf(),
        call_ensures(SwarmTransport::validate_pending_reservation, (&transport, peer), valid),
        call_ensures(SwarmTransport::reservation_needs_eviction, (&transport, peer), evicts),
    ensures
        valid is Ok <==> peer != transport@.local,
        valid matches Err(error) ==> error == Error::ShouldNotConnectSelf,
        evicts <==> {
            &&& !transport@.records.contains_key(peer)
            &&& unadmitted_peers(transport@.records).len() < transport@.limits.handshakes()
            &&& transport@.records.dom().len() >= transport@.limits.records()
        },
{
    assert(unadmitted_peers(transport@.records) =~= handshaking(transport@.records));
}

/// A committed reservation puts its peer, which had no record, into the pending phase under a number
/// above every earlier one, and disturbs nothing else. A refused one changes nothing.
pub proof fn law_committed_reservation_is_pending(
    transport: &mut SwarmTransport,
    peer: Did,
    now_ms: i64,
    reserved: Result<PendingConnectionAttempt, Error>,
    other: PendingConnectionAttempt,
)
    requires
        old(transport).wf(),
        call_ensures(
            SwarmTransport::commit_pending_reservation,
            (transport, peer, now_ms),
            reserved,
        ),
        other.peer != peer,
    ensures
        ({
            let before = old(transport)@;
            let after = final(transport)@;
            &&& reserved is Ok <==> !before.records.contains_key(peer) && unadmitted_peers(
                before.records,
            ).len() < before.limits.handshakes() && before.records.dom().len()
                < before.limits.records() && before.latest < u64::MAX
            &&& reserved matches Ok(attempt) ==> {
                &&& attempt.peer == peer
                &&& attempt.generation == before.latest + 1
                &&& after.latest == attempt.generation
                &&& after.records.contains_key(peer)
                &&& after.records[peer] == (PeerConnectionLifecycle::Pending {
                    attempt,
                    started_at_ms: now_ms,
                })
            }
            &&& reserved is Err ==> after == before
            &&& undisturbed(before, after, other)
        }),
{
    assert(unadmitted_peers(old(transport)@.records) =~= handshaking(old(transport)@.records));
}

/// An admission is begun of a pending generation whose channel is open, and of no other. One whose
/// connection is missing or over fails; one whose connection may still open is left alone.
pub proof fn law_admission_needs_an_open_channel(
    transport: &mut SwarmTransport,
    attempt: PendingConnectionAttempt,
    begun: Result<bool, Error>,
    other: PendingConnectionAttempt,
)
    requires
        old(transport).wf(),
        call_ensures(
            SwarmTransport::begin_ready_connection_admission,
            (transport, attempt),
            begun,
        ),
        other.peer != attempt.peer,
    ensures
        ({
            let before = old(transport)@;
            let after = final(transport)@;
            let peer = attempt.peer;
            let pending = before.records.contains_key(peer) && (
            before.records[peer] matches PeerConnectionLifecycle::Pending { attempt: owner, .. }
                && owner == attempt);
            let started = begun matches Ok(true);
            &&& started <==> pending && channel_open(before, peer)
            &&& started ==> after.records.contains_key(peer) && (
            after.records[peer] matches PeerConnectionLifecycle::Admitting { attempt: owner, .. }
                && owner == attempt)
            &&& !started ==> after == before
            &&& begun is Err <==> pending && (!before.connections.contains_key(peer)
                || connection_over(before, peer))
            &&& begun is Err && !before.connections.contains_key(peer) ==> begun->Err_0
                == Error::SwarmMissTransport(peer)
            &&& begun is Err && before.connections.contains_key(peer) ==> begun->Err_0
                is TransportNotReady
            &&& undisturbed(before, after, other)
        }),
{
}

/// An admission is committed exactly if its generation is being admitted over an open channel and
/// the topology took the peer, with the finger proof kept for it; it is active then and not
/// announced. Else nothing changes, and what the topology refused with is told.
pub proof fn law_commit_joins_the_topology_first<
    T,
    F: FnOnce(Did, Option<FingerFixRequest>) -> Result<T, Error>,
>(
    transport: &mut SwarmTransport,
    attempt: PendingConnectionAttempt,
    admission: F,
    committed: Result<Option<T>, Error>,
    other: PendingConnectionAttempt,
)
    requires
        old(transport).wf(),
        call_ensures(
            SwarmTransport::commit_connection_admission::<T, F>,
            (transport, attempt, admission),
            committed,
        ),
        other.peer != attempt.peer,
    ensures
        ({
            let before = old(transport)@;
            let after = final(transport)@;
            let peer = attempt.peer;
            let admitting = before.records.contains_key(peer) && (
            before.records[peer] matches PeerConnectionLifecycle::Admitting { attempt: owner, .. }
                && owner == attempt);
            let kept: Option<FingerFixRequest> = if before.proofs.contains_key(attempt) {
                Some(before.proofs[attempt])
            } else {
                None
            };
            let joined = committed matches Ok(Some(_));
            &&& committed matches Ok(Some(value)) ==> admission.ensures(
                (peer, kept),
                Ok::<T, Error>(value),
            )
            &&& joined ==> admitting && channel_open(before, peer)
            &&& joined ==> after.records.contains_key(peer) && after.records[peer] == (
            PeerConnectionLifecycle::Active { attempt, announced: false })
                && !after.proofs.contains_key(attempt)
            &&& !joined ==> after == before
            &&& (committed matches Ok(None)) <==> !admitting
            &&& admitting && !before.connections.contains_key(peer) ==> committed is Err
                && committed->Err_0 == Error::SwarmMissTransport(peer)
            &&& admitting && channel_open(before, peer) && committed is Err ==> admission.ensures(
                (peer, kept),
                Err::<T, Error>(committed->Err_0),
            )
            &&& undisturbed(before, after, other)
        }),
{
}

/// Cancelling takes a handshake in its scope out of its slot, with its finger proof, and hands out
/// the physical connection to close, whose entry stays; an active generation stays untouched.
pub proof fn law_cancelled_handshake_leaves_its_slot(
    transport: &mut SwarmTransport,
    attempt: PendingConnectionAttempt,
    scope: CancellationScope,
    cancelled: Option<CancelledConnection>,
    other: PendingConnectionAttempt,
)
    requires
        old(transport).wf(),
        call_ensures(SwarmTransport::cancel_connection, (transport, attempt, scope), cancelled),
        other.peer != attempt.peer,
    ensures
        ({
            let before = old(transport)@;
            let after = final(transport)@;
            let peer = attempt.peer;
            &&& cancelled is Some <==> before.records.contains_key(peer) && (
            match before.records[peer] {
                PeerConnectionLifecycle::Pending { attempt: owner, .. } => owner == attempt,
                PeerConnectionLifecycle::Admitting { attempt: owner, .. } => owner == attempt
                    && scope == CancellationScope::Unadmitted,
                PeerConnectionLifecycle::Active { .. } => false,
            })
            &&& cancelled matches Some(handed) ==> {
                &&& handed.attempt == attempt
                &&& handed.connection is Some <==> before.connections.contains_key(peer)
                &&& handed.connection matches Some(connection) ==> connection
                    == before.connections[peer]
                &&& handed.finger is Some <==> before.proofs.contains_key(attempt)
                &&& handed.finger matches Some(finger) ==> finger == before.proofs[attempt]
                &&& !after.records.contains_key(peer)
                &&& !after.proofs.contains_key(attempt)
                &&& after.connections == before.connections
            }
            &&& cancelled is None ==> after == before
            &&& undisturbed(before, after, other)
        }),
{
}

/// A connection that opened is kept exactly if its generation still holds its slot; one that did not
/// ends the handshake exactly if that is still pending.
pub proof fn law_opened_connection_is_kept_for_its_generation(
    transport: &mut SwarmTransport,
    attempt: PendingConnectionAttempt,
    opened: bool,
    step: CreationStep,
)
    requires
        old(transport).wf(),
        call_ensures(SwarmTransport::finish_creation, (transport, attempt, opened), step),
    ensures
        ({
            let before = old(transport)@;
            let after = final(transport)@;
            let peer = attempt.peer;
            let in_slot = before.records.contains_key(peer) && (match before.records[peer] {
                PeerConnectionLifecycle::Pending { attempt: owner, .. } => owner == attempt,
                PeerConnectionLifecycle::Admitting { attempt: owner, .. } => owner == attempt,
                PeerConnectionLifecycle::Active { attempt: owner, .. } => owner == attempt,
            });
            &&& step is Keep <==> opened && in_slot
            &&& step is Close <==> opened && !in_slot
            &&& step is Retired <==> !opened
            &&& step matches CreationStep::Retired(cancelled) ==> {
                &&& cancelled is Some <==> in_slot && before.records[peer] is Pending
                &&& cancelled is Some ==> cancelled->0.attempt == attempt
                    && !after.records.contains_key(peer) && !after.proofs.contains_key(attempt)
                &&& cancelled is None ==> after == before
            }
            &&& opened ==> after == before
        }),
{
}

/// An active generation is retired exactly if the action, which sees the generations that take
/// sends, asks for it. Everything kept for it goes, its physical connection stays to be closed, and
/// nobody else is disturbed. A declined or failed action changes nothing.
pub proof fn law_retirement_is_the_actions_choice<
    T,
    F: FnOnce(&ActiveConnectionSet) -> Result<Option<T>, Error>,
>(
    transport: &mut SwarmTransport,
    attempt: PendingConnectionAttempt,
    action: F,
    outcome: Result<RetirementOutcome<(T, Retirement)>, Error>,
    other: PendingConnectionAttempt,
)
    requires
        old(transport).wf(),
        call_ensures(
            SwarmTransport::retire_active_connection_if::<T, F>,
            (transport, attempt, action),
            outcome,
        ),
        other.peer != attempt.peer,
    ensures
        ({
            let before = old(transport)@;
            let after = final(transport)@;
            let active = holds_active_slot(before, attempt);
            let retired = outcome matches Ok(RetirementOutcome::Retired(_));
            &&& (outcome matches Ok(RetirementOutcome::Superseded)) <==> !active
            &&& outcome matches Ok(RetirementOutcome::Retired((given, witness))) ==> {
                &&& witness.announced() == before.records[attempt.peer]->announced
                &&& exists|seen: &ActiveConnectionSet|
                    #[trigger] action.ensures((seen,), Ok::<Option<T>, Error>(Some(given)))
            }
            &&& outcome matches Err(error) ==> exists|seen: &ActiveConnectionSet|
                #[trigger] action.ensures((seen,), Err::<Option<T>, Error>(error))
            &&& retired ==> taken_away(after, attempt)
            &&& !retired ==> after == before
            &&& undisturbed(before, after, other)
        }),
{
}

/// `peer` could take another's place in the topology: it is neither this node nor the one removed,
/// and it is routable.
pub open spec fn could_follow(model: TransportModel, removed: Did, peer: Did) -> bool {
    peer != model.local && peer != removed && takes_sends(model, peer) && channel_open(model, peer)
}

/// `peers` are the peers that could follow `removed`, the nearest on the ring first, as many as
/// `capacity` takes.
pub open spec fn nearest_that_follow(
    model: TransportModel,
    removed: Did,
    capacity: usize,
    peers: Seq<Did>,
) -> bool {
    &&& peers.len() <= capacity
    &&& forall|i: int| 0 <= i < peers.len() ==> could_follow(model, removed, #[trigger] peers[i])
    &&& forall|i: int, j: int|
        0 <= i < j < peers.len() ==> (#[trigger] peers[i]).distance_from(model.local) < (
        #[trigger] peers[j]).distance_from(model.local)
    &&& forall|peer: Did| #[trigger]
        could_follow(model, removed, peer) && !peers.contains(peer) ==> peers.len() == capacity
            && forall|i: int|
            0 <= i < peers.len() ==> (#[trigger] peers[i]).distance_from(model.local)
                < peer.distance_from(model.local)
}

proof fn lemma_nearest_follow(
    model: TransportModel,
    removed: Did,
    capacity: usize,
    peers: Seq<Did>,
)
    requires
        nearest_replacements(model, removed, capacity, peers),
    ensures
        nearest_that_follow(model, removed, capacity, peers),
{
    assert forall|peer: Did| #[trigger] could_follow(model, removed, peer) && !peers.contains(
        peer,
    ) implies peers.len() == capacity && forall|i: int|
        0 <= i < peers.len() ==> (#[trigger] peers[i]).distance_from(model.local)
            < peer.distance_from(model.local) by {
        assert(model.may_replace(removed, peer));
    }
}

/// Replacements are looked for exactly when the first successor goes. They are the nearest routable
/// peers, the nearest first; the fallback is the nearest of all.
pub proof fn law_first_successor_is_replaced_by_the_nearest(
    transport: SwarmTransport,
    removed: Did,
    first_successor: Option<Did>,
    capacity: usize,
    replacements: Vec<Did>,
    fallback: Option<Did>,
    peer: Did,
)
    requires
        transport.wf(),
        call_ensures(
            SwarmTransport::live_successor_replacements,
            (&transport, removed, first_successor, capacity),
            replacements,
        ),
        call_ensures(
            SwarmTransport::live_successor_fallback,
            (&transport, removed, first_successor, capacity),
            fallback,
        ),
    ensures
        first_successor != Some(removed) ==> replacements@.len() == 0 && fallback is None,
        first_successor == Some(removed) ==> nearest_that_follow(
            transport@,
            removed,
            capacity,
            replacements@,
        ),
        fallback matches Some(next) ==> could_follow(transport@, removed, next) && capacity > 0,
        first_successor == Some(removed) && capacity > 0 && could_follow(transport@, removed, peer)
            ==> fallback is Some && (fallback->0 == peer || (fallback->0).distance_from(
            transport@.local,
        ) < peer.distance_from(transport@.local)),
{
    if first_successor == Some(removed) {
        lemma_nearest_follow(transport@, removed, capacity, replacements@);
    }
    assert(transport@.may_replace(removed, peer) == could_follow(transport@, removed, peer));
}

/// What taking a generation out of the topology came to: nothing for a generation that is not the
/// active one; nothing but the topology's error where the topology kept the peer; else everything
/// kept for it is gone and its physical connection is handed out.
pub open spec fn given_up(
    before: TransportModel,
    attempt: PendingConnectionAttempt,
    retired: Result<Option<RetiredConnection>, Error>,
    after: TransportModel,
    other: PendingConnectionAttempt,
) -> bool {
    let peer = attempt.peer;
    &&& (retired matches Ok(None)) <==> !holds_active_slot(before, attempt)
    &&& retired matches Ok(Some(connection)) ==> {
        &&& taken_away(after, attempt)
        &&& after.connections == before.connections
        &&& connection.connection is Some <==> before.connections.contains_key(peer)
        &&& connection.connection matches Some(open) ==> open == before.connections[peer]
        &&& connection.witness.announced() == before.records[peer]->announced
    }
    &&& !(retired matches Ok(Some(_))) ==> after == before
    &&& other.peer != peer ==> undisturbed(before, after, other)
}

/// A generation that is unavailable hands its place to the nearest routable peers if it was the
/// first successor, and to nobody else; the topology decides before anything is taken away.
pub proof fn law_unavailable_generation_is_given_up<
    F: FnOnce(Did, &Vec<Did>) -> Result<(), Error>,
>(
    transport: &mut SwarmTransport,
    attempt: PendingConnectionAttempt,
    first_successor: Option<Did>,
    capacity: usize,
    remove: F,
    retired: Result<Option<RetiredConnection>, Error>,
    other: PendingConnectionAttempt,
)
    requires
        old(transport).wf(),
        call_ensures(
            SwarmTransport::disconnect_unavailable::<F>,
            (transport, attempt, first_successor, capacity, remove),
            retired,
        ),
    ensures
        given_up(old(transport)@, attempt, retired, final(transport)@, other),
        holds_active_slot(old(transport)@, attempt) ==> exists|
            offered: &Vec<Did>,
            removed: Result<(), Error>,
        |
            {
                &&& #[trigger] remove.ensures((attempt.peer, offered), removed)
                &&& first_successor != Some(attempt.peer) ==> offered@.len() == 0
                &&& first_successor == Some(attempt.peer) ==> nearest_that_follow(
                    old(transport)@,
                    attempt.peer,
                    capacity,
                    offered@,
                )
                &&& retired is Ok <==> removed is Ok
                &&& retired matches Err(error) ==> removed->Err_0 == error
                &&& retired matches Ok(Some(connection)) ==> (connection.removal.fallback is Some
                    <==> offered@.len() > 0) && (offered@.len() > 0
                    ==> connection.removal.fallback->0 == offered@[0])
            },
{
    let before = old(transport)@;
    if holds_active_slot(before, attempt) {
        let (offered, removed) = choose|offered: &Vec<Did>, removed: Result<(), Error>|
            {
                &&& #[trigger] remove.ensures((attempt.peer, offered), removed)
                &&& if first_successor == Some(attempt.peer) {
                    nearest_replacements(before, attempt.peer, capacity, offered@)
                } else {
                    offered@ == Seq::<Did>::empty()
                }
                &&& match removed {
                    Ok(()) => {
                        &&& retired matches Ok(Some(retired)) && retired.connection
                            == before.connection_to(attempt.peer) && retired.removal.fallback == (
                        if offered@.len() > 0 {
                            Some(offered@[0])
                        } else {
                            None
                        }) && retired.witness.announced() == is_announced(before.records, attempt)
                        &&& final(transport)@ == before.retired(attempt)
                    },
                    Err(error) => retired == Err::<Option<RetiredConnection>, Error>(error)
                        && final(transport)@ == before,
                }
            };
        assert(remove.ensures((attempt.peer, offered), removed));
        if first_successor == Some(attempt.peer) {
            lemma_nearest_follow(before, attempt.peer, capacity, offered@);
        }
    }
}

/// A disconnected generation has no successor looked for: its place goes to nobody.
pub proof fn law_disconnected_generation_offers_nobody<
    F: FnOnce(Did, &Vec<Did>) -> Result<(), Error>,
>(
    transport: &mut SwarmTransport,
    attempt: PendingConnectionAttempt,
    remove: F,
    retired: Result<Option<RetiredConnection>, Error>,
    other: PendingConnectionAttempt,
)
    requires
        old(transport).wf(),
        call_ensures(
            SwarmTransport::disconnect_attempt::<F>,
            (transport, attempt, remove),
            retired,
        ),
    ensures
        given_up(old(transport)@, attempt, retired, final(transport)@, other),
        retired matches Ok(Some(connection)) ==> connection.removal.fallback is None,
        retired matches Err(error) ==> exists|none: &Vec<Did>|
            none@.len() == 0 && #[trigger] remove.ensures(
                (attempt.peer, none),
                Err::<(), Error>(error),
            ),
{
}

/// Disconnecting a peer cancels its handshake while that is pending, retires its active generation,
/// leaves one being admitted alone, and hands out what nobody owns.
pub proof fn law_disconnect_follows_the_phase<F: FnOnce(Did, &Vec<Did>) -> Result<(), Error>>(
    transport: &mut SwarmTransport,
    peer: Did,
    remove: F,
    disconnected: Result<Disconnected, Error>,
    other: PendingConnectionAttempt,
)
    requires
        old(transport).wf(),
        call_ensures(
            SwarmTransport::disconnect::<F>,
            (transport, peer, remove),
            disconnected,
        ),
        other.peer != peer,
        old(transport)@.records.contains_key(peer) ==> old(transport)@.records[peer].owner().peer
            == peer,
    ensures
        ({
            let before = old(transport)@;
            let after = final(transport)@;
            let known = before.records.contains_key(peer);
            let state = before.records[peer];
            &&& (disconnected matches Ok(Disconnected::Unowned(_))) <==> !known
            &&& (disconnected matches Ok(Disconnected::Cancelled(_))) <==> known && state is Pending
            &&& (disconnected matches Ok(Disconnected::Untouched)) <==> known && state is Admitting
            &&& (disconnected matches Ok(Disconnected::Retired(_)) || disconnected is Err) <==> known
                && state is Active
            &&& disconnected matches Ok(Disconnected::Cancelled(cancelled)) ==> cancelled.attempt
                == state->Pending_attempt && !after.records.contains_key(peer)
                && !after.proofs.contains_key(cancelled.attempt)
            &&& disconnected matches Ok(Disconnected::Retired(retired)) ==> taken_away(
                after,
                state->Active_attempt,
            ) && retired.removal.fallback is None
            &&& !(disconnected matches Ok(Disconnected::Cancelled(_))) && !(
            disconnected matches Ok(Disconnected::Retired(_))) ==> after == before
            &&& after.connections == before.connections
            &&& undisturbed(before, after, other)
        }),
{
}

/// The topology drops an unavailable peer exactly if its active generation is still the expected
/// one, and hands its place on as for a first successor only.
pub proof fn law_topology_drops_the_expected_owner_only<
    F: FnOnce(Did, &Vec<Did>) -> Result<(), Error>,
>(
    transport: SwarmTransport,
    peer: Did,
    expected: Option<PendingConnectionAttempt>,
    first_successor: Option<Did>,
    capacity: usize,
    remove: F,
    removal: Result<Option<PeerRemovalOutcome>, Error>,
)
    requires
        transport.wf(),
        call_ensures(
            SwarmTransport::remove_unavailable_topology::<F>,
            (&transport, peer, expected, first_successor, capacity, remove),
            removal,
        ),
    ensures
        ({
            let model = transport@;
            let active = model.records.contains_key(peer) && model.records[peer] is Active;
            let owned = if active {
                expected == Some(model.records[peer]->Active_attempt)
            } else {
                expected is None
            };
            &&& (removal matches Ok(None)) <==> !owned
            &&& removal matches Ok(Some(outcome)) ==> outcome.fallback matches Some(next) ==> {
                &&& first_successor == Some(peer)
                &&& could_follow(model, peer, next)
            }
            &&& removal matches Err(error) ==> exists|offered: &Vec<Did>|
                #[trigger] remove.ensures((peer, offered), Err::<(), Error>(error))
        }),
{
}

/// The topology drops a retired generation exactly if its peer has no active one again.
pub proof fn law_topology_keeps_a_reconnected_peer<F: FnOnce(Did) -> Result<(), Error>>(
    transport: SwarmTransport,
    attempt: PendingConnectionAttempt,
    remove: F,
    removal: Result<bool, Error>,
)
    requires
        transport.wf(),
        call_ensures(
            SwarmTransport::remove_retired_attempt_topology::<F>,
            (&transport, attempt, remove),
            removal,
        ),
    ensures
        ({
            let active = transport@.records.contains_key(attempt.peer)
                && transport@.records[attempt.peer] is Active;
            &&& (removal matches Ok(false)) <==> active
            &&& removal matches Ok(true) ==> exists|removed: Result<(), Error>|
                removed is Ok && #[trigger] remove.ensures((attempt.peer,), removed)
            &&& removal matches Err(error) ==> remove.ensures(
                (attempt.peer,),
                Err::<(), Error>(error),
            )
        }),
{
}

/// A finger is applied for this node or a routable peer, queued with the generation that is still
/// handshaking, and neither for an active peer that is not routable or one with no record. A queued
/// one is kept for its generation and nothing else changes.
pub proof fn law_finger_waits_for_its_handshake<
    F: FnOnce(FingerCandidateAdmission) -> Result<FingerOutcome, Error>,
>(
    transport: &mut SwarmTransport,
    peer: Did,
    request: FingerFixRequest,
    act: F,
    disposition: Result<FingerUpdateDisposition, Error>,
)
    requires
        old(transport).wf(),
        call_ensures(
            SwarmTransport::record_finger_candidate::<F>,
            (transport, peer, request, act),
            disposition,
        ),
    ensures
        ({
            let before = old(transport)@;
            let after = final(transport)@;
            let known = before.records.contains_key(peer);
            let active = known && before.records[peer] is Active;
            let routable = takes_sends(before, peer) && channel_open(before, peer);
            let queued = disposition matches Ok(FingerUpdateDisposition::Queued);
            &&& disposition matches Ok(FingerUpdateDisposition::Applied) ==> peer == before.local
                || routable
            &&& disposition matches Ok(FingerUpdateDisposition::Missing) ==> peer != before.local
                && !known
            &&& disposition matches Ok(FingerUpdateDisposition::Unroutable) ==> peer != before.local
                && active && !routable
            &&& queued ==> peer != before.local && known && !active
            &&& queued ==> {
                let owner = before.records[peer].owner();
                &&& after.proofs.contains_key(owner)
                &&& after.proofs[owner] == request
                &&& after.records == before.records
                &&& after.liveness == before.liveness
                &&& forall|other: PendingConnectionAttempt|
                    other != owner ==> #[trigger] after.proofs.contains_key(other)
                        == before.proofs.contains_key(other)
            }
            &&& !queued ==> after == before
        }),
{
}

/// An action on a peer's behalf runs exactly where the peer is routable, or its generation holds the
/// active slot, and its result is handed back as it is.
pub proof fn law_actions_run_for_live_peers_only<
    T,
    F: FnOnce(Did) -> Result<T, Error>,
    G: FnOnce(Did) -> Result<T, Error>,
    H: FnOnce() -> Result<T, Error>,
>(
    transport: SwarmTransport,
    attempt: PendingConnectionAttempt,
    join: F,
    joined: Result<Option<T>, Error>,
    notify: G,
    notified: Result<Option<T>, Error>,
    action: H,
    done: Result<Option<T>, Error>,
)
    requires
        transport.wf(),
        call_ensures(
            SwarmTransport::join_routable_peer::<T, F>,
            (&transport, attempt.peer, join),
            joined,
        ),
        call_ensures(
            SwarmTransport::notify_admitted_predecessor::<T, G>,
            (&transport, attempt.peer, notify),
            notified,
        ),
        call_ensures(
            SwarmTransport::with_active_slot::<T, H>,
            (&transport, attempt, action),
            done,
        ),
    ensures
        ({
            let peer = attempt.peer;
            let routable = takes_sends(transport@, peer) && channel_open(transport@, peer);
            &&& (joined matches Ok(None)) <==> !routable
            &&& joined matches Ok(Some(value)) ==> join.ensures((peer,), Ok::<T, Error>(value))
            &&& joined matches Err(error) ==> join.ensures((peer,), Err::<T, Error>(error))
            &&& (notified matches Ok(None)) <==> !routable
            &&& notified matches Ok(Some(value)) ==> notify.ensures((peer,), Ok::<T, Error>(value))
            &&& notified matches Err(error) ==> notify.ensures((peer,), Err::<T, Error>(error))
            &&& (done matches Ok(None)) <==> !holds_active_slot(transport@, attempt)
            &&& done matches Ok(Some(value)) ==> action.ensures((), Ok::<T, Error>(value))
            &&& done matches Err(error) ==> action.ensures((), Err::<T, Error>(error))
        }),
{
}

/// The confirmed peers are exactly the reported ones that are routable. The topology is stabilized
/// with them, and only where there is one.
pub proof fn law_topology_is_stabilized_with_routable_peers<
    T,
    F: FnOnce(&Vec<Did>) -> Result<T, Error>,
>(
    transport: SwarmTransport,
    reported: Vec<Did>,
    confirmed: Vec<Did>,
    stabilize: F,
    stabilized: Result<Option<T>, Error>,
    peer: Did,
)
    requires
        transport.wf(),
        call_ensures(SwarmTransport::confirmed_peers, (&transport, &reported), confirmed),
        call_ensures(
            SwarmTransport::stabilize_routable_topology::<T, F>,
            (&transport, &reported, stabilize),
            stabilized,
        ),
    ensures
        confirmed@.contains(peer) <==> reported@.contains(peer) && takes_sends(transport@, peer)
            && channel_open(transport@, peer),
        confirmed@.len() <= reported@.len(),
        (stabilized matches Ok(None)) <==> confirmed@.len() == 0,
        stabilized matches Ok(Some(value)) ==> exists|given: &Vec<Did>|
            given@ == confirmed@ && #[trigger] stabilize.ensures((given,), Ok::<T, Error>(value)),
        stabilized matches Err(error) ==> exists|given: &Vec<Did>|
            given@ == confirmed@ && #[trigger] stabilize.ensures((given,), Err::<T, Error>(error)),
{
    if let Ok(Some(value)) = stabilized {
        let (given, result) = choose|given: &Vec<Did>, result: Result<T, Error>|
            given@ == reported@.filter(|peer: Did| transport@.routes_to(peer))
                && #[trigger] stabilize.ensures((given,), result) && stabilized == (match result {
                Ok(value) => Ok::<Option<T>, Error>(Some(value)),
                Err(error) => Err(error),
            });
        assert(result == Ok::<T, Error>(value));
        assert(stabilize.ensures((given,), Ok::<T, Error>(value)));
    }
    let routes = |peer: Did| transport@.routes_to(peer);
    assert(routes(peer) == (takes_sends(transport@, peer) && channel_open(transport@, peer)));
    reported@.lemma_filter_len(routes);
    if reported@.contains(peer) && routes(peer) {
        let i = choose|i: int| 0 <= i < reported@.len() && reported@[i] == peer;
        reported@.lemma_filter_contains(routes, i);
    }
    if confirmed@.contains(peer) {
        let i = choose|i: int| 0 <= i < confirmed@.len() && confirmed@[i] == peer;
        reported@.lemma_filter_pred(routes, i);
        reported@.lemma_filter_contains_rev(routes, peer);
    }
}

/// A handshake reserved three minutes ago or longer is expired: its record and its finger proof go,
/// and it is reported with its age, its physical connection and its proof. Nothing else goes.
pub proof fn law_expired_handshakes_are_handed_out(
    transport: &mut SwarmTransport,
    now_ms: i64,
    expired: Vec<ExpiredConnection>,
    peer: Did,
)
    requires
        old(transport).wf(),
        call_ensures(
            SwarmTransport::expire_pending_connections,
            (transport, now_ms),
            expired,
        ),
        old(transport)@.records.contains_key(peer),
        old(transport)@.records[peer].owner().peer == peer,
    ensures
        ({
            let before = old(transport)@;
            let after = final(transport)@;
            let state = before.records[peer];
            let owner = state.owner();
            let over = match state {
                PeerConnectionLifecycle::Pending { started_at_ms, .. } => now_ms - started_at_ms
                    >= 180_000,
                PeerConnectionLifecycle::Admitting { started_at_ms, .. } => now_ms - started_at_ms
                    >= 180_000,
                PeerConnectionLifecycle::Active { .. } => false,
            };
            &&& after.records.contains_key(peer) <==> !over
            &&& !over ==> after.records[peer] == state
            &&& over ==> !after.proofs.contains_key(owner)
            &&& !over ==> after.proofs.contains_key(owner) == before.proofs.contains_key(owner)
            &&& over ==> exists|i: int|
                0 <= i < expired@.len() && (#[trigger] expired@[i]).report.attempt == owner
            &&& after.connections == before.connections
            &&& after.liveness == before.liveness
        }),
        forall|i: int|
            0 <= i < expired@.len() ==> {
                let entry = #[trigger] expired@[i];
                &&& entry.report.age_ms >= 180_000
                &&& entry.connection is Some <==> old(transport)@.connections.contains_key(
                    entry.report.attempt.peer,
                )
                &&& entry.finger is Some <==> old(transport)@.proofs.contains_key(
                    entry.report.attempt,
                )
            },
{
}

/// Liveness is noted for the generation that holds the active slot and for no other: an opened
/// channel starts its record afresh, a payload ends its silence, a probe starts its wait.
pub proof fn law_liveness_is_noted_for_the_active_generation(
    opened: &mut SwarmTransport,
    opened_done: (),
    heard: &mut SwarmTransport,
    heard_done: (),
    probed: &mut SwarmTransport,
    probed_done: (),
    attempt: PendingConnectionAttempt,
    now_ms: i64,
)
    requires
        old(opened).wf(),
        call_ensures(
            SwarmTransport::mark_peer_liveness_connected,
            (opened, attempt, now_ms),
            opened_done,
        ),
        old(heard).wf(),
        call_ensures(
            SwarmTransport::mark_peer_liveness_inbound,
            (heard, attempt, now_ms),
            heard_done,
        ),
        old(probed).wf(),
        call_ensures(
            SwarmTransport::record_peer_liveness_probe_sent,
            (probed, attempt, now_ms),
            probed_done,
        ),
    ensures
        holds_active_slot(old(opened)@, attempt) ==> {
            let record = final(opened)@.liveness[attempt.peer];
            &&& final(opened)@.liveness.contains_key(attempt.peer)
            &&& record.generation == attempt.generation
            &&& record.connected_at_ms == now_ms
            &&& record.last_inbound_ms == now_ms
            &&& record.last_probe_ms is None
            &&& record.unanswered_probe_since_ms is None
        },
        !holds_active_slot(old(opened)@, attempt) ==> final(opened)@ == old(opened)@,
        final(opened)@.records == old(opened)@.records,
        holds_active_slot(old(heard)@, attempt) ==> {
            let record = final(heard)@.liveness[attempt.peer];
            &&& final(heard)@.liveness.contains_key(attempt.peer)
            &&& record.generation == attempt.generation
            &&& record.last_inbound_ms == now_ms
            &&& record.unanswered_probe_since_ms is None
        },
        !holds_active_slot(old(heard)@, attempt) ==> final(heard)@ == old(heard)@,
        holds_active_slot(old(probed)@, attempt) ==> {
            let before = old(probed)@.liveness;
            let record = final(probed)@.liveness[attempt.peer];
            let waits = before.contains_key(attempt.peer) && before[attempt.peer].generation
                == attempt.generation && before[attempt.peer].unanswered_probe_since_ms is Some;
            &&& final(probed)@.liveness.contains_key(attempt.peer)
            &&& record.generation == attempt.generation
            &&& record.last_probe_ms == Some(now_ms)
            &&& waits ==> record.unanswered_probe_since_ms
                == before[attempt.peer].unanswered_probe_since_ms
            &&& !waits ==> record.unanswered_probe_since_ms == Some(now_ms)
        },
        !holds_active_slot(old(probed)@, attempt) ==> final(probed)@ == old(probed)@,
{
}

/// A received message counts as a sign of life exactly if it was authenticated and its generation
/// holds the active slot; an observation is noted under the same condition.
pub proof fn law_only_authenticated_messages_prove_life(
    received: &mut SwarmTransport,
    authenticated: bool,
    received_done: (),
    observed: &mut SwarmTransport,
    observation: PeerLivenessObservation,
    observed_done: (),
    attempt: PendingConnectionAttempt,
    now_ms: i64,
)
    requires
        old(received).wf(),
        call_ensures(
            SwarmTransport::record_peer_message_received,
            (received, attempt, authenticated, now_ms),
            received_done,
        ),
        old(observed).wf(),
        call_ensures(
            SwarmTransport::observe_peer_liveness,
            (observed, attempt, observation, now_ms),
            observed_done,
        ),
    ensures
        authenticated && holds_active_slot(old(received)@, attempt) ==> {
            let record = final(received)@.liveness[attempt.peer];
            &&& final(received)@.liveness.contains_key(attempt.peer)
            &&& record.generation == attempt.generation
            &&& record.last_inbound_ms == now_ms
            &&& record.unanswered_probe_since_ms is None
        },
        !(authenticated && holds_active_slot(old(received)@, attempt)) ==> final(received)@
            == old(received)@,
        holds_active_slot(old(observed)@, attempt) ==> {
            let record = final(observed)@.liveness[attempt.peer];
            &&& final(observed)@.liveness.contains_key(attempt.peer)
            &&& record.generation == attempt.generation
            &&& record.last_inbound_ms == now_ms
            &&& record.unanswered_probe_since_ms is None
            &&& observation is Connected ==> record.connected_at_ms == now_ms
                && record.last_probe_ms is None
            &&& observation is Inbound && old(observed)@.liveness.contains_key(attempt.peer)
                && old(observed)@.liveness[attempt.peer].generation == attempt.generation
                ==> record.connected_at_ms
                == old(observed)@.liveness[attempt.peer].connected_at_ms
        },
        !holds_active_slot(old(observed)@, attempt) ==> final(observed)@ == old(observed)@,
{
}

/// A generation is found gone exactly if it holds the active slot and its own probe has been
/// unanswered for 45 seconds or longer.
pub proof fn law_gone_peers_left_a_probe_unanswered(
    transport: SwarmTransport,
    attempt: PendingConnectionAttempt,
    now_ms: i64,
    expiry: Option<PeerLivenessExpiry>,
)
    requires
        transport.wf(),
        call_ensures(SwarmTransport::peer_liveness_expiry, (&transport, attempt, now_ms), expiry),
        i64::MIN <= now_ms - transport@.liveness[attempt.peer].unanswered_probe_since_ms->0
            <= i64::MAX,
    ensures
        ({
            let record = transport@.liveness[attempt.peer];
            &&& expiry is Some <==> holds_active_slot(transport@, attempt)
                && transport@.liveness.contains_key(attempt.peer) && record.generation
                == attempt.generation && record.unanswered_probe_since_ms is Some && now_ms
                - record.unanswered_probe_since_ms->0 >= 45_000
            &&& expiry matches Some(found) ==> found.unanswered_for_ms >= 45_000
                && found.timeout_ms == 45_000
        }),
{
}

/// A scan keeps a record of exactly the generations that take sends, starts one afresh where there
/// was none of the generation, and names only generations that take sends.
pub proof fn law_scan_follows_the_sending_generations(
    transport: &mut SwarmTransport,
    now_ms: i64,
    candidates: Vec<PendingConnectionAttempt>,
    peer: Did,
)
    requires
        old(transport).wf(),
        call_ensures(
            SwarmTransport::liveness_probe_candidates,
            (transport, now_ms),
            candidates,
        ),
    ensures
        ({
            let before = old(transport)@;
            let after = final(transport)@;
            let kept = before.liveness.contains_key(peer) && before.liveness[peer].generation
                == before.records[peer]->Active_attempt.generation;
            &&& after.liveness.contains_key(peer) <==> takes_sends(before, peer)
            &&& takes_sends(before, peer) && kept ==> after.liveness[peer] == before.liveness[peer]
            &&& takes_sends(before, peer) && !kept ==> after.liveness[peer].generation
                == before.records[peer]->Active_attempt.generation
                && after.liveness[peer].connected_at_ms == now_ms
                && after.liveness[peer].unanswered_probe_since_ms is None
            &&& after.records == before.records
            &&& after.proofs == before.proofs
        }),
        forall|i: int|
            0 <= i < candidates@.len() ==> takes_sends(
                old(transport)@,
                (#[trigger] candidates@[i]).peer,
            ) && holds_active_slot(old(transport)@, candidates@[i]),
{
}

/// An active generation is retired for want of a reference exactly if nothing refers to its peer; a
/// referenced one and one that lost its slot are left alone.
pub proof fn law_referenced_peers_are_kept<F: FnOnce(Did, &Vec<Did>) -> Result<(), Error>>(
    transport: &mut SwarmTransport,
    attempt: PendingConnectionAttempt,
    referenced: Vec<Did>,
    remove: F,
    outcome: Result<(UnreferencedRetirement, Option<RetiredConnection>), Error>,
    other: PendingConnectionAttempt,
)
    requires
        old(transport).wf(),
        call_ensures(
            SwarmTransport::retire_unless_referenced::<F>,
            (transport, attempt, &referenced, remove),
            outcome,
        ),
        other.peer != attempt.peer,
    ensures
        ({
            let before = old(transport)@;
            let after = final(transport)@;
            let active = holds_active_slot(before, attempt);
            let wanted = exists|i: int|
                0 <= i < referenced@.len() && #[trigger] referenced@[i] == attempt.peer;
            &&& outcome matches Ok((told, connection)) ==> {
                &&& told is Superseded <==> !active
                &&& told is Referenced <==> active && wanted
                &&& told is Retired <==> active && !wanted
                &&& connection is Some <==> told is Retired
            }
            &&& outcome is Err ==> active && !wanted
            &&& (outcome matches Ok((UnreferencedRetirement::Retired, _))) ==> taken_away(
                after,
                attempt,
            )
            &&& !(outcome matches Ok((UnreferencedRetirement::Retired, _))) ==> after == before
            &&& undisturbed(before, after, other)
        }),
{
}

/// A connection that became ready is used exactly if its generation still takes its peer's sends;
/// one that failed or took too long is given up, whether or not the topology lets it go.
pub proof fn law_wait_ends_in_use_or_in_giving_up<F: FnOnce(Did, &Vec<Did>) -> Result<(), Error>>(
    transport: &mut SwarmTransport,
    admitted: AdmittedConnection,
    waited: SendWait,
    first_successor: Option<Did>,
    capacity: usize,
    remove: F,
    checked: CheckedConnection,
    other: PendingConnectionAttempt,
)
    requires
        old(transport).wf(),
        call_ensures(
            SwarmTransport::finish_send_wait::<F>,
            (transport, admitted, waited, first_successor, capacity, remove),
            checked,
        ),
        other.peer != admitted.attempt.peer,
    ensures
        ({
            let before = old(transport)@;
            let after = final(transport)@;
            let attempt = admitted.attempt;
            let sending = takes_sends(before, attempt.peer)
                && before.records[attempt.peer]->Active_attempt == attempt;
            &&& checked is Usable <==> waited is Ready && sending
            &&& checked matches CheckedConnection::Usable(given) ==> given == admitted
            &&& checked is Superseded <==> waited is Ready && !sending
            &&& waited is Ready ==> after == before
            &&& !(waited is Ready) ==> checked is Dropped || checked is Kept
            &&& checked matches CheckedConnection::Dropped(retired) ==> {
                &&& retired is Some <==> holds_active_slot(before, attempt)
                &&& retired is Some ==> taken_away(after, attempt)
                &&& retired is None ==> after == before
            }
            &&& checked is Kept ==> holds_active_slot(before, attempt) && after == before
            &&& undisturbed(before, after, other)
        }),
{
}

/// A peer's active generation gives its slot to one of the next number, which is active and not
/// announced; a peer without one is told that it has no connection.
pub proof fn law_replaced_generation_is_renumbered(
    transport: &mut SwarmTransport,
    peer: Did,
    now_ms: i64,
    replaced: Result<(PendingConnectionAttempt, PendingConnectionAttempt), Error>,
)
    requires
        old(transport).wf(),
        call_ensures(
            SwarmTransport::replace_active_generation,
            (transport, peer, now_ms),
            replaced,
        ),
    ensures
        ({
            let before = old(transport)@;
            let after = final(transport)@;
            let active = before.records.contains_key(peer) && before.records[peer] is Active;
            &&& !active ==> replaced is Err && replaced->Err_0 == Error::SwarmMissTransport(peer)
                && after == before
            &&& replaced matches Ok((left, next)) ==> {
                &&& active
                &&& left == before.records[peer]->Active_attempt
                &&& next.peer == peer
                &&& next.generation == before.latest + 1
                &&& after.latest == next.generation
                &&& after.records.contains_key(peer)
                &&& after.records[peer] == (PeerConnectionLifecycle::Active {
                    attempt: next,
                    announced: false,
                })
                &&& !after.terminal.contains(left)
            }
            &&& after.connections == before.connections
        }),
{
}

/// A generation stops taking sends, or is announced, exactly while it holds the active slot; a
/// disconnection is measured once.
pub proof fn law_marks_are_made_on_the_active_slot(
    terminal: &mut SwarmTransport,
    admitted: AdmittedConnection,
    marked: bool,
    announced: &mut SwarmTransport,
    attempt: PendingConnectionAttempt,
    told: bool,
    measured: &mut SwarmTransport,
    peer: Did,
    first: bool,
)
    requires
        old(terminal).wf(),
        call_ensures(SwarmTransport::mark_send_terminal, (terminal, &admitted), marked),
        old(announced).wf(),
        call_ensures(SwarmTransport::mark_admission_announced, (announced, attempt), told),
        old(measured).wf(),
        call_ensures(SwarmTransport::measure_disconnect, (measured, peer), first),
    ensures
        marked <==> holds_active_slot(old(terminal)@, admitted.attempt),
        marked ==> final(terminal)@.terminal.contains(admitted.attempt) && !takes_sends(
            final(terminal)@,
            admitted.attempt.peer,
        ),
        !marked ==> final(terminal)@ == old(terminal)@,
        final(terminal)@.records == old(terminal)@.records,
        told <==> holds_active_slot(old(announced)@, attempt),
        told ==> final(announced)@.records[attempt.peer] == (PeerConnectionLifecycle::Active {
            attempt,
            announced: true,
        }),
        !told ==> final(announced)@.records == old(announced)@.records,
        first <==> !old(measured)@.measured.contains(peer),
        final(measured)@.measured.contains(peer),
        final(measured)@.records == old(measured)@.records,
{
}

/// What the backend reported of a peer's connection is what is known of it; it is forgotten by its
/// own number only.
pub proof fn law_observed_connection_is_the_last_reported(
    reported: &mut SwarmTransport,
    snapshot: ConnectionStateSnapshot,
    reported_done: (),
    forgotten: &mut SwarmTransport,
    forgotten_done: (),
    peer: Did,
    handle: u64,
    other: Did,
)
    requires
        old(reported).wf(),
        call_ensures(
            SwarmTransport::observe_connection,
            (reported, peer, handle, snapshot),
            reported_done,
        ),
        old(forgotten).wf(),
        call_ensures(
            SwarmTransport::forget_connection,
            (forgotten, peer, handle),
            forgotten_done,
        ),
        other != peer,
    ensures
        final(reported)@.connections.contains_key(peer),
        final(reported)@.connections[peer].peer == peer,
        final(reported)@.connections[peer].handle == handle,
        final(reported)@.connections[peer].snapshot == snapshot,
        final(reported)@.connections.contains_key(other)
            == old(reported)@.connections.contains_key(other),
        final(reported)@.records == old(reported)@.records,
        final(forgotten)@.connections.contains_key(peer)
            <==> old(forgotten)@.connections.contains_key(peer)
            && old(forgotten)@.connections[peer].handle != handle,
        final(forgotten)@.connections.contains_key(other)
            == old(forgotten)@.connections.contains_key(other),
        final(forgotten)@.records == old(forgotten)@.records,
{
}

/// An answer applies to a pending generation with a physical connection, finds the slot vacant
/// without a record, and owned in every other phase; a callback of a generation is dropped exactly
/// while another one is active; a physical connection with no record is an orphan.
pub proof fn law_slot_is_read_by_its_phase(
    transport: SwarmTransport,
    peer: Did,
    slot: AnswerSlot,
    owner: RawConnectionOwner,
    attempt: PendingConnectionAttempt,
    disposition: ConnectionEventDisposition,
    age_ms: Option<i64>,
    now_ms: i64,
)
    requires
        transport.wf(),
        call_ensures(SwarmTransport::answer_slot, (&transport, peer), slot),
        call_ensures(SwarmTransport::raw_connection_owner, (&transport, peer), owner),
        call_ensures(
            SwarmTransport::connection_event_disposition,
            (&transport, attempt),
            disposition,
        ),
        call_ensures(SwarmTransport::peer_connected_for_ms, (&transport, peer, now_ms), age_ms),
    ensures
        ({
            let model = transport@;
            let known = model.records.contains_key(peer);
            let pending = known && model.records[peer] is Pending;
            &&& slot is Vacant <==> !known
            &&& slot is Pending <==> pending && model.connections.contains_key(peer)
            &&& slot matches AnswerSlot::Pending(found, connection) ==> found
                == model.records[peer]->Pending_attempt && connection == model.connections[peer]
            &&& owner is Orphan <==> !known
            &&& owner is Pending <==> pending
            &&& disposition is Suppress <==> model.records.contains_key(attempt.peer)
                && model.records[attempt.peer] is Active
                && model.records[attempt.peer]->Active_attempt != attempt
            &&& age_ms is Some <==> known && model.records[peer] is Active
                && model.liveness.contains_key(peer) && model.liveness[peer].generation
                == model.records[peer]->Active_attempt.generation
        }),
{
}

/// An eviction plan lists exactly the active generations whose peer nothing refers to, and which
/// take no more sends or have had a liveness record of their own for the whole grace.
pub proof fn law_plan_spares_referenced_and_young_connections(
    transport: SwarmTransport,
    referenced: Vec<Did>,
    grace_ms: i64,
    now_ms: i64,
    plan: Vec<PendingConnectionAttempt>,
    attempt: PendingConnectionAttempt,
)
    requires
        transport.wf(),
        call_ensures(
            SwarmTransport::unreferenced_eviction_order,
            (&transport, &referenced, grace_ms, now_ms),
            plan,
        ),
        i64::MIN <= now_ms - transport@.liveness[attempt.peer].connected_at_ms <= i64::MAX,
        grace_ms >= 0,
    ensures
        plan@.contains(attempt) <==> {
            &&& holds_active_slot(transport@, attempt)
            &&& !referenced@.contains(attempt.peer)
            &&& transport@.terminal.contains(attempt) || (transport@.liveness.contains_key(
                attempt.peer,
            ) && transport@.liveness[attempt.peer].generation == attempt.generation && now_ms
                - transport@.liveness[attempt.peer].connected_at_ms >= grace_ms)
        },
{
    let model = transport@;
    let listed = choose|listed: Seq<PendingConnectionAttempt>|
        #![trigger lists_in_order(listed, admitted(model.records))]
        {
            &&& lists_in_order(listed, admitted(model.records))
            &&& is_eviction_plan(
                candidates_of(model, listed, now_ms),
                referenced@,
                grace_ms,
                plan@,
            )
        };
    let candidates = candidates_of(model, listed, now_ms);
    let flags = evictable_flags(candidates, referenced@, grace_ms);
    let order = choose|order: Seq<usize>| #[trigger]
        is_stable_order(candidates, flags, order) && plan@ == order.map_values(
            |place: usize| candidates[place as int].attempt,
        );
    if plan@.contains(attempt) {
        let k = choose|k: int| 0 <= k < plan@.len() && plan@[k] == attempt;
        let place = order[k] as int;
        assert(flags[place]);
        assert(candidates[place] == candidate_of(model, listed[place], now_ms));
        assert(listed[place] == attempt);
        assert(admitted(model.records).contains_pair(attempt.peer, attempt));
    }
    if holds_active_slot(model, attempt) {
        assert(admitted(model.records).contains_key(attempt.peer));
        let i = choose|i: int| 0 <= i < listed.len() && (#[trigger] listed[i]).peer == attempt.peer;
        assert(listed[i] == attempt);
        assert(candidates[i] == candidate_of(model, attempt, now_ms));
        if flags[i] {
            let k = choose|k: int| 0 <= k < order.len() && #[trigger] order[k] == i;
            assert(plan@[k] == attempt);
        }
    }
}

/// The admitted connections are listed with the physical connection of each, if it has one; the
/// peers that handshake are counted exactly.
pub proof fn law_admitted_connections_are_listed(
    transport: SwarmTransport,
    snapshots: Vec<(PendingConnectionAttempt, Option<SwarmConnection>)>,
    connections: Vec<(PendingConnectionAttempt, SwarmConnection)>,
    pending: usize,
    peer: Did,
)
    requires
        transport.wf(),
        call_ensures(SwarmTransport::admitted_connection_snapshots, (&transport,), snapshots),
        call_ensures(SwarmTransport::admitted_connections, (&transport,), connections),
        call_ensures(SwarmTransport::pending_connection_count, (&transport,), pending),
    ensures
        forall|i: int|
            0 <= i < snapshots@.len() ==> {
                let entry = #[trigger] snapshots@[i];
                &&& holds_active_slot(transport@, entry.0)
                &&& entry.1 is Some <==> transport@.connections.contains_key(entry.0.peer)
                &&& entry.1 matches Some(connection) ==> connection
                    == transport@.connections[entry.0.peer]
            },
        transport@.records.contains_key(peer) && transport@.records[peer] is Active ==> exists|
            i: int,
        |
            0 <= i < snapshots@.len() && (#[trigger] snapshots@[i]).0.peer == peer,
        forall|i: int|
            0 <= i < connections@.len() ==> {
                let entry = #[trigger] connections@[i];
                &&& transport@.records.contains_key(entry.0.peer)
                &&& transport@.records[entry.0.peer] is Active
                &&& transport@.records[entry.0.peer]->Active_attempt == entry.0
                &&& transport@.connections.contains_key(entry.0.peer)
                &&& entry.1 == transport@.connections[entry.0.peer]
            },
        transport@.records.contains_key(peer) && transport@.records[peer] is Active
            && transport@.connections.contains_key(peer) ==> exists|i: int|
            0 <= i < connections@.len() && (#[trigger] connections@[i]).0.peer == peer,
        pending == unadmitted_peers(transport@.records).len(),
{
    assert(unadmitted_peers(transport@.records) =~= handshaking(transport@.records));
    let listed = snapshots@.map_values(
        |entry: (PendingConnectionAttempt, Option<SwarmConnection>)| entry.0,
    );
    assert forall|i: int| 0 <= i < snapshots@.len() implies ({
        let entry = #[trigger] snapshots@[i];
        &&& holds_active_slot(transport@, entry.0)
        &&& entry.1 is Some <==> transport@.connections.contains_key(entry.0.peer)
        &&& entry.1 matches Some(connection) ==> connection
            == transport@.connections[entry.0.peer]
    }) by {
        assert(listed[i] == snapshots@[i].0);
        assert(admitted(transport@.records).contains_pair(listed[i].peer, listed[i]));
    }
    if transport@.records.contains_key(peer) && transport@.records[peer] is Active {
        assert(admitted(transport@.records).contains_key(peer));
        let i = choose|i: int| 0 <= i < listed.len() && (#[trigger] listed[i]).peer == peer;
        assert(snapshots@[i].0.peer == peer);
    }
    let named = connections@.map_values(
        |entry: (PendingConnectionAttempt, SwarmConnection)| entry.0.peer,
    );
    let wanted = |peer: Did|
        admitted(transport@.records).contains_key(peer) && transport@.connections.contains_key(
            peer,
        );
    assert forall|i: int| 0 <= i < connections@.len() implies ({
        let entry = #[trigger] connections@[i];
        &&& transport@.records.contains_key(entry.0.peer)
        &&& transport@.records[entry.0.peer] is Active
        &&& transport@.records[entry.0.peer]->Active_attempt == entry.0
        &&& transport@.connections.contains_key(entry.0.peer)
        &&& entry.1 == transport@.connections[entry.0.peer]
    }) by {
        assert(named[i] == connections@[i].0.peer);
        assert(wanted(named[i]));
    }
    if wanted(peer) {
        assert(named.contains(peer));
        let i = choose|i: int| 0 <= i < named.len() && named[i] == peer;
        assert(connections@[i].0.peer == peer);
    }
}

} // verus!

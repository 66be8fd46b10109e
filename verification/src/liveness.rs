//! Overlay liveness of admitted peers.
//!
//! Every record belongs to the generation it was made for: a newer generation starts afresh, so
//! what an old connection showed never proves a new one live.

use vstd::prelude::*;

use crate::clock::elapsed_between;
use crate::clock::elapsed_ms;
use crate::did::Did;
use crate::ordered_map::OrderedKey;
use crate::ordered_map::OrderedMap;
use crate::registry::lists_in_order;
use crate::registry::ActiveConnectionSet;
use crate::registry::PendingConnectionAttempt;

verus! {

/// Silence after which an admitted peer needs a probe.
pub const PEER_LIVENESS_IDLE_MS: i64 = 15_000;

/// Age of an unanswered probe at which the peer is evicted.
pub const PEER_LIVENESS_TIMEOUT_MS: i64 = 45_000;

/// What is known of one generation's liveness.
#[derive(Clone, Copy, Debug, PartialEq, Eq, Hash, Structural)]
pub struct PeerLiveness {
    /// The generation.
    pub generation: u64,
    /// When its record was made.
    pub connected_at_ms: i64,
    /// When it last sent an authenticated payload.
    pub last_inbound_ms: i64,
    /// When it was last probed.
    pub last_probe_ms: Option<i64>,
    /// Since when a probe is unanswered.
    pub unanswered_probe_since_ms: Option<i64>,
}

/// Evidence that a peer is gone.
#[derive(Clone, Copy, Debug, PartialEq, Eq, Hash, Structural)]
pub struct PeerLivenessExpiry {
    /// How long the probe has been unanswered.
    pub unanswered_for_ms: i64,
    /// The bound it reached.
    pub timeout_ms: i64,
}

/// A record made at `now_ms`.
pub open spec fn fresh(generation: u64, now_ms: i64) -> PeerLiveness {
    PeerLiveness {
        generation,
        connected_at_ms: now_ms,
        last_inbound_ms: now_ms,
        last_probe_ms: None,
        unanswered_probe_since_ms: None,
    }
}

/// The record once a payload came in at `now_ms`.
pub open spec fn heard(liveness: PeerLiveness, now_ms: i64) -> PeerLiveness {
    PeerLiveness { last_inbound_ms: now_ms, unanswered_probe_since_ms: None, ..liveness }
}

/// The record once a probe was sent at `now_ms`.
pub open spec fn probed(liveness: PeerLiveness, now_ms: i64) -> PeerLiveness {
    PeerLiveness {
        last_probe_ms: Some(now_ms),
        unanswered_probe_since_ms: match liveness.unanswered_probe_since_ms {
            Some(since) => Some(since),
            None => Some(now_ms),
        },
        ..liveness
    }
}

/// The peer has been silent, and not probed, for the idle interval.
pub open spec fn probe_due(liveness: PeerLiveness, now_ms: i64) -> bool {
    &&& elapsed_between(now_ms, liveness.last_inbound_ms) >= PEER_LIVENESS_IDLE_MS
    &&& match liveness.last_probe_ms {
        Some(last_probe_ms) => elapsed_between(now_ms, last_probe_ms) >= PEER_LIVENESS_IDLE_MS,
        None => true,
    }
}

/// The evidence that the peer is gone, if there is some.
pub open spec fn expiry_at(liveness: PeerLiveness, now_ms: i64) -> Option<PeerLivenessExpiry> {
    match liveness.unanswered_probe_since_ms {
        Some(since) => if elapsed_between(now_ms, since) >= PEER_LIVENESS_TIMEOUT_MS {
            Some(
                PeerLivenessExpiry {
                    unanswered_for_ms: elapsed_between(now_ms, since) as i64,
                    timeout_ms: PEER_LIVENESS_TIMEOUT_MS,
                },
            )
        } else {
            None
        },
        None => None,
    }
}

impl PeerLiveness {
    /// A record made at `now_ms`.
    pub fn new(generation: u64, now_ms: i64) -> (liveness: Self)
        ensures
            liveness == fresh(generation, now_ms),
    {
        PeerLiveness {
            generation,
            connected_at_ms: now_ms,
            last_inbound_ms: now_ms,
            last_probe_ms: None,
            unanswered_probe_since_ms: None,
        }
    }

    /// Note a payload that came in at `now_ms`.
    pub fn mark_inbound(&mut self, now_ms: i64)
        ensures
            *final(self) == heard(*old(self), now_ms),
    {
        self.last_inbound_ms = now_ms;
        self.unanswered_probe_since_ms = None;
    }

    /// Whether the peer needs a probe at `now_ms`.
    pub fn should_probe(&self, now_ms: i64) -> (due: bool)
        ensures
            due == probe_due(*self, now_ms),
    {
        elapsed_ms(now_ms, self.last_inbound_ms) >= PEER_LIVENESS_IDLE_MS
            && match self.last_probe_ms {
            Some(last_probe_ms) => elapsed_ms(now_ms, last_probe_ms) >= PEER_LIVENESS_IDLE_MS,
            None => true,
        }
    }

    /// Note a probe that was sent at `now_ms`.
    pub fn mark_probe_sent(&mut self, now_ms: i64)
        ensures
            *final(self) == probed(*old(self), now_ms),
    {
        self.last_probe_ms = Some(now_ms);
        if self.unanswered_probe_since_ms.is_none() {
            self.unanswered_probe_since_ms = Some(now_ms);
        }
    }

    /// The evidence at `now_ms` that the peer is gone.
    pub fn expiry(&self, now_ms: i64) -> (expiry: Option<PeerLivenessExpiry>)
        ensures
            expiry == expiry_at(*self, now_ms),
    {
        match self.unanswered_probe_since_ms {
            Some(since) => {
                let unanswered_for_ms: i64 = elapsed_ms(now_ms, since);
                if unanswered_for_ms >= PEER_LIVENESS_TIMEOUT_MS {
                    Some(
                        PeerLivenessExpiry {
                            unanswered_for_ms,
                            timeout_ms: PEER_LIVENESS_TIMEOUT_MS,
                        },
                    )
                } else {
                    None
                }
            },
            None => None,
        }
    }

    /// How long the record has existed at `now_ms`.
    pub fn connected_for_ms(&self, now_ms: i64) -> (age_ms: i64)
        ensures
            age_ms == elapsed_between(now_ms, self.connected_at_ms),
    {
        elapsed_ms(now_ms, self.connected_at_ms)
    }

    /// How long the peer has been silent at `now_ms`.
    pub fn idle_for_ms(&self, now_ms: i64) -> (idle_ms: i64)
        ensures
            idle_ms == elapsed_between(now_ms, self.last_inbound_ms),
    {
        elapsed_ms(now_ms, self.last_inbound_ms)
    }
}

/// What was observed of an admitted generation.
#[derive(Clone, Copy, Debug, PartialEq, Eq, Hash, Structural)]
pub enum PeerLivenessObservation {
    /// Its data channel opened.
    Connected,
    /// An authenticated payload came in.
    Inbound,
}

/// The liveness records, by peer.
pub type LivenessRecords = Map<Did, PeerLiveness>;

/// `records` has one of `peer` for `generation`.
pub open spec fn recorded(records: LivenessRecords, peer: Did, generation: u64) -> bool {
    records.contains_key(peer) && records[peer].generation == generation
}

/// The records once a payload of `peer`'s `generation` came in at `now_ms`.
pub open spec fn after_inbound(
    records: LivenessRecords,
    peer: Did,
    generation: u64,
    now_ms: i64,
) -> LivenessRecords {
    records.insert(
        peer,
        if recorded(records, peer, generation) {
            heard(records[peer], now_ms)
        } else {
            fresh(generation, now_ms)
        },
    )
}

/// The records once a probe was sent to `peer`'s `generation` at `now_ms`.
pub open spec fn after_probe(
    records: LivenessRecords,
    peer: Did,
    generation: u64,
    now_ms: i64,
) -> LivenessRecords {
    records.insert(
        peer,
        probed(
            if recorded(records, peer, generation) {
                records[peer]
            } else {
                fresh(generation, now_ms)
            },
            now_ms,
        ),
    )
}

/// One record for every generation of `active`: the one there is, or one made at `now_ms`.
pub open spec fn aligned(
    records: LivenessRecords,
    active: Map<Did, PendingConnectionAttempt>,
    now_ms: i64,
) -> LivenessRecords {
    Map::new(
        |peer: Did| active.contains_key(peer),
        |peer: Did|
            if recorded(records, peer, active[peer].generation) {
                records[peer]
            } else {
                fresh(active[peer].generation, now_ms)
            },
    )
}

/// The generations of `active` whose record is due for a probe.
pub open spec fn due(
    records: LivenessRecords,
    active: Map<Did, PendingConnectionAttempt>,
    now_ms: i64,
) -> Map<Did, PendingConnectionAttempt> {
    Map::new(
        |peer: Did|
            active.contains_key(peer) && records.contains_key(peer) && probe_due(
                records[peer],
                now_ms,
            ),
        |peer: Did| active[peer],
    )
}

/// `records` once `observation` of `peer`'s `generation` is applied.
pub open spec fn after_observation(
    records: LivenessRecords,
    observation: PeerLivenessObservation,
    peer: Did,
    generation: u64,
    now_ms: i64,
) -> LivenessRecords {
    match observation {
        PeerLivenessObservation::Connected => records.insert(peer, fresh(generation, now_ms)),
        PeerLivenessObservation::Inbound => after_inbound(records, peer, generation, now_ms),
    }
}

/// Liveness records, at most one per peer.
pub struct PeerLivenessMap {
    peers: OrderedMap<Did, PeerLiveness>,
}

impl PeerLivenessMap {
    /// The records, by peer.
    pub closed spec fn view(&self) -> LivenessRecords {
        self.peers@
    }

    /// The records are in identity order.
    pub closed spec fn wf(&self) -> bool {
        self.peers.wf()
    }

    /// No record.
    pub fn new() -> (map: Self)
        ensures
            map.wf(),
            map@ == Map::<Did, PeerLiveness>::empty(),
    {
        PeerLivenessMap { peers: OrderedMap::new() }
    }

    /// How many records there are.
    pub fn len(&self) -> (len: usize)
        requires
            self.wf(),
        ensures
            len == self@.dom().len(),
    {
        self.peers.len()
    }

    /// Start a record for `generation`.
    pub fn mark_connected(&mut self, peer: Did, generation: u64, now_ms: i64)
        requires
            old(self).wf(),
        ensures
            final(self).wf(),
            final(self)@ == old(self)@.insert(peer, fresh(generation, now_ms)),
    {
        self.peers.insert(peer, PeerLiveness::new(generation, now_ms));
    }

    /// Note a payload of `generation`.
    pub fn mark_inbound(&mut self, peer: Did, generation: u64, now_ms: i64)
        requires
            old(self).wf(),
        ensures
            final(self).wf(),
            final(self)@ == after_inbound(old(self)@, peer, generation, now_ms),
    {
        match self.get_current(peer, generation) {
            Some(current) => {
                let mut liveness = current;
                liveness.mark_inbound(now_ms);
                self.peers.insert(peer, liveness);
            },
            None => {
                self.mark_connected(peer, generation, now_ms);
            },
        }
    }

    /// Apply an observation of `generation`.
    pub fn observe(
        &mut self,
        observation: PeerLivenessObservation,
        peer: Did,
        generation: u64,
        now_ms: i64,
    )
        requires
            old(self).wf(),
        ensures
            final(self).wf(),
            final(self)@ == after_observation(old(self)@, observation, peer, generation, now_ms),
    {
        match observation {
            PeerLivenessObservation::Connected => self.mark_connected(peer, generation, now_ms),
            PeerLivenessObservation::Inbound => self.mark_inbound(peer, generation, now_ms),
        }
    }

    /// Forget `peer`.
    pub fn remove(&mut self, peer: Did)
        requires
            old(self).wf(),
        ensures
            final(self).wf(),
            final(self)@ == old(self)@.remove(peer),
    {
        let _ = self.peers.remove(peer);
    }

    /// The record of `peer`'s `generation`.
    fn get_current(&self, peer: Did, generation: u64) -> (current: Option<PeerLiveness>)
        requires
            self.wf(),
        ensures
            current == (if recorded(self@, peer, generation) {
                Some(self@[peer])
            } else {
                None
            }),
    {
        match self.peers.get(peer) {
            Some(liveness) => if liveness.generation == generation {
                Some(*liveness)
            } else {
                None
            },
            None => None,
        }
    }

    /// Keep exactly one record for every active generation, and list those due for a probe in
    /// identity order.
    pub fn probe_candidates(&mut self, active: &ActiveConnectionSet, now_ms: i64) -> (candidates: Vec<
        PendingConnectionAttempt,
    >)
        requires
            old(self).wf(),
            active.wf(),
        ensures
            final(self).wf(),
            final(self)@ == aligned(old(self)@, active@, now_ms),
            lists_in_order(candidates@, due(final(self)@, active@, now_ms)),
    {
        let attempts = active.attempts();
        let mut kept: OrderedMap<Did, PeerLiveness> = OrderedMap::new();
        let mut candidates: Vec<PendingConnectionAttempt> = Vec::new();
        let mut index: usize = 0;
        while index < attempts.len()
            invariant
                self.wf(),
                *self == *old(self),
                lists_in_order(attempts@, active@),
                index <= attempts@.len(),
                kept.wf(),
                kept.listing().len() == index,
                forall|i: int|
                    0 <= i < index ==> (#[trigger] kept.listing()[i]).0 == attempts@[i].peer,
                forall|peer: Did| #[trigger]
                    kept@.contains_key(peer) ==> active@.contains_key(peer) && kept@[peer]
                        == aligned(self@, active@, now_ms)[peer],
                forall|i: int|
                    0 <= i < index ==> kept@.contains_key((#[trigger] attempts@[i]).peer),
                forall|i: int|
                    0 <= i < candidates@.len() ==> exists|j: int|
                        0 <= j < index && #[trigger] candidates@[i] == #[trigger] attempts@[j]
                            && probe_due(kept@[attempts@[j].peer], now_ms),
                forall|i: int, j: int|
                    0 <= i < j < candidates@.len() ==> (#[trigger] candidates@[i]).peer.rank() < (
                    #[trigger] candidates@[j]).peer.rank(),
                forall|j: int|
                    0 <= j < index && probe_due(
                        kept@[(#[trigger] attempts@[j]).peer],
                        now_ms,
                    ) ==> candidates@.contains(attempts@[j]),
            decreases attempts@.len() - index,
        {
            let attempt = attempts[index];
            let ghost listed = kept.listing();
            let ghost records = kept@;
            let ghost earlier = candidates@;
            proof {
                assert(active@.contains_pair(attempt.peer, attempt));
                assert forall|i: int| 0 <= i < kept.listing().len() implies (
                #[trigger] kept.listing()[i]).0.rank() < attempt.peer.rank() by {
                    assert(attempts@[i].peer.rank() < attempts@[index as int].peer.rank());
                }
                kept.lemma_listing();
                assert(!records.contains_key(attempt.peer)) by {
                    if records.contains_key(attempt.peer) {
                        let i = choose|i: int|
                            0 <= i < kept.listing().len() && (#[trigger] kept.listing()[i]).0
                                == attempt.peer;
                        assert(kept.listing()[i].0.rank() < attempt.peer.rank());
                    }
                }
            }
            let liveness = match self.get_current(attempt.peer, attempt.generation) {
                Some(current) => current,
                None => PeerLiveness::new(attempt.generation, now_ms),
            };
            kept.push(attempt.peer, liveness);
            proof {
                assert forall|i: int| 0 <= i < index + 1 implies (
                #[trigger] kept.listing()[i]).0 == attempts@[i].peer by {
                    if i < index {
                        assert(kept.listing()[i] == listed[i]);
                    }
                }
                assert forall|j: int| 0 <= j < index implies kept@[(
                #[trigger] attempts@[j]).peer] == records[attempts@[j].peer] by {
                    assert(attempts@[j].peer.rank() < attempts@[index as int].peer.rank());
                }
                assert forall|i: int| 0 <= i < earlier.len() implies exists|j: int|
                    0 <= j < index && #[trigger] earlier[i] == #[trigger] attempts@[j]
                        && probe_due(kept@[attempts@[j].peer], now_ms) by {
                    let j = choose|j: int|
                        0 <= j < index && earlier[i] == #[trigger] attempts@[j] && probe_due(
                            records[attempts@[j].peer],
                            now_ms,
                        );
                    assert(earlier[i] == attempts@[j]);
                }
                assert forall|i: int| 0 <= i < earlier.len() implies (
                #[trigger] earlier[i]).peer.rank() < attempt.peer.rank() by {
                    let j = choose|j: int|
                        0 <= j < index && earlier[i] == #[trigger] attempts@[j];
                    assert(attempts@[j].peer.rank() < attempts@[index as int].peer.rank());
                }
            }
            if liveness.should_probe(now_ms) {
                candidates.push(attempt);
                proof {
                    assert(candidates@[earlier.len() as int] == attempts@[index as int]);
                    assert forall|i: int| 0 <= i < candidates@.len() implies exists|j: int|
                        0 <= j < index + 1 && #[trigger] candidates@[i] == #[trigger] attempts@[j]
                            && probe_due(kept@[attempts@[j].peer], now_ms) by {
                        if i < earlier.len() {
                            assert(candidates@[i] == earlier[i]);
                            let j = choose|j: int|
                                0 <= j < index && earlier[i] == #[trigger] attempts@[j]
                                    && probe_due(kept@[attempts@[j].peer], now_ms);
                            assert(candidates@[i] == attempts@[j]);
                        } else {
                            assert(candidates@[i] == attempts@[index as int]);
                        }
                    }
                    assert forall|j: int|
                        0 <= j < index + 1 && probe_due(
                            kept@[(#[trigger] attempts@[j]).peer],
                            now_ms,
                        ) implies candidates@.contains(attempts@[j]) by {
                        if j < index {
                            assert(earlier.contains(attempts@[j]));
                            let i = choose|i: int|
                                0 <= i < earlier.len() && earlier[i] == attempts@[j];
                            assert(candidates@[i] == attempts@[j]);
                        }
                    }
                }
            }
            index += 1;
        }
        self.peers = kept;
        proof {
            assert(self@ =~= aligned(old(self)@, active@, now_ms)) by {
                assert forall|peer: Did| active@.contains_key(peer) implies kept@.contains_key(
                    peer,
                ) by {
                    let i = choose|i: int|
                        0 <= i < attempts@.len() && (#[trigger] attempts@[i]).peer == peer;
                    assert(kept@.contains_key(attempts@[i].peer));
                }
            }
            let ready = due(self@, active@, now_ms);
            assert forall|i: int| 0 <= i < candidates@.len() implies ready.contains_pair(
                (#[trigger] candidates@[i]).peer,
                candidates@[i],
            ) by {
                let j = choose|j: int|
                    0 <= j < index && candidates@[i] == #[trigger] attempts@[j] && probe_due(
                        kept@[attempts@[j].peer],
                        now_ms,
                    );
                assert(active@.contains_pair(attempts@[j].peer, attempts@[j]));
            }
            assert forall|peer: Did| #[trigger] ready.contains_key(peer) implies exists|i: int|
                0 <= i < candidates@.len() && (#[trigger] candidates@[i]).peer == peer by {
                let j = choose|j: int|
                    0 <= j < attempts@.len() && (#[trigger] attempts@[j]).peer == peer;
                assert(candidates@.contains(attempts@[j]));
                let i = choose|i: int|
                    0 <= i < candidates@.len() && candidates@[i] == attempts@[j];
                assert(candidates@[i].peer == peer);
            }
        }
        candidates
    }

    /// Note a probe that was sent to `peer`'s `generation`.
    pub fn mark_probe_sent(&mut self, peer: Did, generation: u64, now_ms: i64)
        requires
            old(self).wf(),
        ensures
            final(self).wf(),
            final(self)@ == after_probe(old(self)@, peer, generation, now_ms),
    {
        let mut liveness = match self.get_current(peer, generation) {
            Some(current) => current,
            None => PeerLiveness::new(generation, now_ms),
        };
        liveness.mark_probe_sent(now_ms);
        self.peers.insert(peer, liveness);
    }

    /// The evidence at `now_ms` that `peer`'s `generation` is gone.
    pub fn expiry(&self, peer: Did, generation: u64, now_ms: i64) -> (expiry: Option<
        PeerLivenessExpiry,
    >)
        requires
            self.wf(),
        ensures
            expiry == (if recorded(self@, peer, generation) {
                expiry_at(self@[peer], now_ms)
            } else {
                None
            }),
    {
        match self.get_current(peer, generation) {
            Some(liveness) => liveness.expiry(now_ms),
            None => None,
        }
    }

    /// How long `peer`'s `generation` has had a record at `now_ms`.
    pub fn connected_for_ms(&self, peer: Did, generation: u64, now_ms: i64) -> (age_ms: Option<i64>)
        requires
            self.wf(),
        ensures
            age_ms == (if recorded(self@, peer, generation) {
                Some(elapsed_between(now_ms, self@[peer].connected_at_ms) as i64)
            } else {
                None
            }),
    {
        match self.get_current(peer, generation) {
            Some(liveness) => Some(liveness.connected_for_ms(now_ms)),
            None => None,
        }
    }

    /// How long `peer`'s `generation` has been silent at `now_ms`.
    pub fn idle_for_ms(&self, peer: Did, generation: u64, now_ms: i64) -> (idle_ms: Option<i64>)
        requires
            self.wf(),
        ensures
            idle_ms == (if recorded(self@, peer, generation) {
                Some(elapsed_between(now_ms, self@[peer].last_inbound_ms) as i64)
            } else {
                None
            }),
    {
        match self.get_current(peer, generation) {
            Some(liveness) => Some(liveness.idle_for_ms(now_ms)),
            None => None,
        }
    }

    /// Since when a probe of `peer`'s `generation` is unanswered.
    pub fn unanswered_probe_since_ms(&self, peer: Did, generation: u64) -> (since_ms: Option<i64>)
        requires
            self.wf(),
        ensures
            since_ms == (if recorded(self@, peer, generation) {
                self@[peer].unanswered_probe_since_ms
            } else {
                None
            }),
    {
        match self.get_current(peer, generation) {
            Some(liveness) => liveness.unanswered_probe_since_ms,
            None => None,
        }
    }

    /// Put back the start of the record of `peer`'s `generation`.
    pub fn set_connected_at(&mut self, peer: Did, generation: u64, connected_at_ms: i64) -> (found:
        bool)
        requires
            old(self).wf(),
        ensures
            final(self).wf(),
            found == recorded(old(self)@, peer, generation),
            final(self)@ == (if found {
                old(self)@.insert(peer, PeerLiveness { connected_at_ms, ..old(self)@[peer] })
            } else {
                old(self)@
            }),
    {
        match self.get_current(peer, generation) {
            Some(current) => {
                let mut liveness = current;
                liveness.connected_at_ms = connected_at_ms;
                self.peers.insert(peer, liveness);
                true
            },
            None => false,
        }
    }
}

/// An observation of one generation leaves a record of that generation alone, so a late
/// observation of an old connection says nothing of the new one: the record it makes is no
/// evidence for any other generation.
pub proof fn law_observations_belong_to_their_generation(
    records: LivenessRecords,
    peer: Did,
    old_generation: u64,
    generation: u64,
    now_ms: i64,
)
    requires
        old_generation != generation,
    ensures
        recorded(after_inbound(records, peer, generation, now_ms), peer, generation),
        !recorded(after_inbound(records, peer, generation, now_ms), peer, old_generation),
        recorded(after_probe(records, peer, generation, now_ms), peer, generation),
        !recorded(after_probe(records, peer, generation, now_ms), peer, old_generation),
{
}

/// A payload answers every probe: no expiry is owed until the next probe has gone unanswered for
/// the whole timeout.
pub proof fn law_inbound_payload_proves_liveness(liveness: PeerLiveness, heard_ms: i64, now_ms: i64)
    ensures
        expiry_at(heard(liveness, heard_ms), now_ms) is None,
        expiry_at(probed(heard(liveness, heard_ms), now_ms), now_ms) is None,
{
}

/// Repeated probes do not postpone the expiry: it is counted from the first unanswered one.
pub proof fn law_repeated_probes_keep_the_deadline(
    liveness: PeerLiveness,
    probe_ms: i64,
    now_ms: i64,
)
    requires
        liveness.unanswered_probe_since_ms is Some,
    ensures
        expiry_at(probed(liveness, probe_ms), now_ms) == expiry_at(liveness, now_ms),
{
}

/// After a scan every record belongs to the active generation of its peer.
pub proof fn law_records_follow_active_generations(
    records: LivenessRecords,
    active: Map<Did, PendingConnectionAttempt>,
    now_ms: i64,
    peer: Did,
)
    ensures
        aligned(records, active, now_ms).contains_key(peer) <==> active.contains_key(peer),
        active.contains_key(peer) ==> recorded(
            aligned(records, active, now_ms),
            peer,
            active[peer].generation,
        ),
{
}

/// Expiry is owed exactly at the timeout: a peer is given up once a probe has been unanswered for
/// 45 seconds and not a millisecond before, and the evidence says for how long it has been.
pub proof fn law_expiry_is_owed_exactly_at_the_timeout(
    liveness: PeerLiveness,
    now_ms: i64,
    expiry: Option<PeerLivenessExpiry>,
)
    requires
        call_ensures(PeerLiveness::expiry, (&liveness, now_ms), expiry),
    ensures
        expiry is Some <==> (liveness.unanswered_probe_since_ms matches Some(since) && now_ms
            - since >= 45_000),
        expiry matches Some(expiry) ==> {
            &&& expiry.timeout_ms == 45_000
            &&& expiry.unanswered_for_ms >= expiry.timeout_ms
            &&& now_ms - liveness.unanswered_probe_since_ms->0 <= i64::MAX
                ==> expiry.unanswered_for_ms == now_ms - liveness.unanswered_probe_since_ms->0
        },
{
}

/// A peer is probed exactly if it has been silent for 15 seconds and was not probed within the
/// last 15.
pub proof fn law_probe_is_due_after_the_idle_interval(
    liveness: PeerLiveness,
    now_ms: i64,
    probe: bool,
)
    requires
        call_ensures(PeerLiveness::should_probe, (&liveness, now_ms), probe),
    ensures
        probe <==> now_ms - liveness.last_inbound_ms >= 15_000 && (
        liveness.last_probe_ms matches Some(last) ==> now_ms - last >= 15_000),
{
}

/// A record starts silent and unprobed at the moment it is made, so its first probe comes 15
/// seconds later and nothing has expired before.
pub proof fn law_new_record_starts_at_its_moment(
    generation: u64,
    made_ms: i64,
    now_ms: i64,
    liveness: PeerLiveness,
    probe: bool,
    expiry: Option<PeerLivenessExpiry>,
    age_ms: i64,
    idle_ms: i64,
)
    requires
        call_ensures(PeerLiveness::new, (generation, made_ms), liveness),
        call_ensures(PeerLiveness::should_probe, (&liveness, now_ms), probe),
        call_ensures(PeerLiveness::expiry, (&liveness, now_ms), expiry),
        call_ensures(PeerLiveness::connected_for_ms, (&liveness, now_ms), age_ms),
        call_ensures(PeerLiveness::idle_for_ms, (&liveness, now_ms), idle_ms),
    ensures
        liveness.generation == generation,
        probe <==> now_ms - made_ms >= 15_000,
        expiry is None,
        i64::MIN <= now_ms - made_ms <= i64::MAX ==> age_ms == now_ms - made_ms && idle_ms
            == now_ms - made_ms,
{
}

/// A payload that comes in ends the silence and answers every probe; it changes nothing else.
pub proof fn law_payload_ends_the_silence(liveness: &mut PeerLiveness, now_ms: i64)
    requires
        call_ensures(PeerLiveness::mark_inbound, (liveness, now_ms), ()),
    ensures
        final(liveness).last_inbound_ms == now_ms,
        final(liveness).unanswered_probe_since_ms is None,
        final(liveness).last_probe_ms == old(liveness).last_probe_ms,
        final(liveness).generation == old(liveness).generation,
        final(liveness).connected_at_ms == old(liveness).connected_at_ms,
{
}

/// A probe puts the next one off by 15 seconds. The wait for an answer starts with it unless an
/// earlier probe is still unanswered.
pub proof fn law_probe_starts_the_wait_once(liveness: &mut PeerLiveness, now_ms: i64)
    requires
        call_ensures(PeerLiveness::mark_probe_sent, (liveness, now_ms), ()),
    ensures
        final(liveness).last_probe_ms == Some(now_ms),
        old(liveness).unanswered_probe_since_ms is None ==> final(liveness).unanswered_probe_since_ms == Some(now_ms),
        old(liveness).unanswered_probe_since_ms is Some ==> final(liveness).unanswered_probe_since_ms == old(liveness).unanswered_probe_since_ms,
        final(liveness).last_inbound_ms == old(liveness).last_inbound_ms,
        final(liveness).generation == old(liveness).generation,
        final(liveness).connected_at_ms == old(liveness).connected_at_ms,
{
}

/// A peer's generation expires by its own record only.
pub proof fn law_expiry_needs_a_record_of_the_generation(
    map: PeerLivenessMap,
    peer: Did,
    generation: u64,
    now_ms: i64,
    expiry: Option<PeerLivenessExpiry>,
)
    requires
        map.wf(),
        call_ensures(PeerLivenessMap::expiry, (&map, peer, generation, now_ms), expiry),
    ensures
        expiry is Some <==> map@.contains_key(peer) && map@[peer].generation == generation && (
        map@[peer].unanswered_probe_since_ms matches Some(since) && now_ms - since >= 45_000),
        expiry matches Some(expiry) ==> expiry.timeout_ms == 45_000 && expiry.unanswered_for_ms
            >= 45_000,
{
}

/// What is observed of one peer leaves every other peer's record alone. A payload of a generation
/// that has a record ends its silence; one of another generation starts a record afresh.
pub proof fn law_payload_is_noted_for_its_generation(
    map: &mut PeerLivenessMap,
    peer: Did,
    generation: u64,
    now_ms: i64,
    other: Did,
)
    requires
        old(map).wf(),
        call_ensures(PeerLivenessMap::mark_inbound, (map, peer, generation, now_ms), ()),
        other != peer,
    ensures
        final(map)@.contains_key(peer),
        final(map)@[peer].generation == generation,
        final(map)@[peer].last_inbound_ms == now_ms,
        final(map)@[peer].unanswered_probe_since_ms is None,
        old(map)@.contains_key(peer) && old(map)@[peer].generation == generation ==> final(map)@[peer].connected_at_ms == old(map)@[peer].connected_at_ms && final(map)@[peer].last_probe_ms == old(map)@[peer].last_probe_ms,
        !old(map)@.contains_key(peer) || old(map)@[peer].generation != generation ==> final(map)@[peer].connected_at_ms == now_ms && final(map)@[peer].last_probe_ms is None,
        final(map)@.contains_key(other) == old(map)@.contains_key(other),
        final(map)@[other] == old(map)@[other],
{
}

/// A probe is noted for its generation: the wait for an answer goes on where that generation is
/// already waited for, and starts now otherwise.
pub proof fn law_probe_is_noted_for_its_generation(
    map: &mut PeerLivenessMap,
    peer: Did,
    generation: u64,
    now_ms: i64,
    other: Did,
)
    requires
        old(map).wf(),
        call_ensures(PeerLivenessMap::mark_probe_sent, (map, peer, generation, now_ms), ()),
        other != peer,
    ensures
        final(map)@.contains_key(peer),
        final(map)@[peer].generation == generation,
        final(map)@[peer].last_probe_ms == Some(now_ms),
        old(map)@.contains_key(peer) && old(map)@[peer].generation == generation && old(map)@[peer].unanswered_probe_since_ms is Some ==> final(map)@[peer].unanswered_probe_since_ms
            == old(map)@[peer].unanswered_probe_since_ms,
        !(old(map)@.contains_key(peer) && old(map)@[peer].generation == generation && old(map)@[peer].unanswered_probe_since_ms is Some) ==> final(map)@[peer].unanswered_probe_since_ms == Some(now_ms),
        old(map)@.contains_key(peer) && old(map)@[peer].generation == generation ==> final(map)@[peer].last_inbound_ms == old(map)@[peer].last_inbound_ms && final(map)@[peer].connected_at_ms == old(map)@[peer].connected_at_ms,
        final(map)@.contains_key(other) == old(map)@.contains_key(other),
        final(map)@[other] == old(map)@[other],
{
}

/// An opened data channel starts the record of its generation afresh, whatever was known before.
pub proof fn law_opened_channel_starts_afresh(
    map: &mut PeerLivenessMap,
    peer: Did,
    generation: u64,
    now_ms: i64,
    other: Did,
)
    requires
        old(map).wf(),
        call_ensures(
            PeerLivenessMap::observe,
            (map, PeerLivenessObservation::Connected, peer, generation, now_ms),
            (),
        ),
        other != peer,
    ensures
        final(map)@.contains_key(peer),
        final(map)@[peer].generation == generation,
        final(map)@[peer].connected_at_ms == now_ms,
        final(map)@[peer].last_inbound_ms == now_ms,
        final(map)@[peer].last_probe_ms is None,
        final(map)@[peer].unanswered_probe_since_ms is None,
        final(map)@.contains_key(other) == old(map)@.contains_key(other),
        final(map)@[other] == old(map)@[other],
{
}

/// A scan keeps exactly one record for every active generation: the one it has, or one made now.
/// It lists, each once, the active generations that have been silent and unprobed for 15 seconds.
pub proof fn law_scan_lists_the_silent_peers(
    map: &mut PeerLivenessMap,
    active: ActiveConnectionSet,
    now_ms: i64,
    candidates: Vec<PendingConnectionAttempt>,
    attempt: PendingConnectionAttempt,
)
    requires
        old(map).wf(),
        active.wf(),
        call_ensures(PeerLivenessMap::probe_candidates, (map, &active, now_ms), candidates),
    ensures
        final(map)@.contains_key(attempt.peer) <==> active@.contains_key(attempt.peer),
        active@.contains_key(attempt.peer) ==> {
            let generation = active@[attempt.peer].generation;
            &&& final(map)@[attempt.peer].generation == generation
            &&& old(map)@.contains_key(attempt.peer) && old(map)@[attempt.peer].generation
                == generation ==> final(map)@[attempt.peer] == old(map)@[attempt.peer]
            &&& !old(map)@.contains_key(attempt.peer) || old(map)@[attempt.peer].generation
                != generation ==> final(map)@[attempt.peer].connected_at_ms == now_ms && final(map)@[attempt.peer].last_inbound_ms == now_ms && final(map)@[attempt.peer].last_probe_ms is None
        },
        candidates@.contains(attempt) <==> active@.contains_key(attempt.peer)
            && active@[attempt.peer] == attempt && now_ms - final(map)@[attempt.peer].last_inbound_ms >= 15_000 && (final(map)@[attempt.peer].last_probe_ms matches Some(last) ==> now_ms - last >= 15_000),
        candidates@.no_duplicates(),
{
    let ready = due(final(map)@, active@, now_ms);
    if candidates@.contains(attempt) {
        let i = choose|i: int| 0 <= i < candidates@.len() && candidates@[i] == attempt;
        assert(ready.contains_pair(candidates@[i].peer, candidates@[i]));
    }
    if ready.contains_key(attempt.peer) && active@[attempt.peer] == attempt {
        let i = choose|i: int|
            0 <= i < candidates@.len() && (#[trigger] candidates@[i]).peer == attempt.peer;
        assert(ready.contains_pair(candidates@[i].peer, candidates@[i]));
        assert(candidates@[i] == attempt);
    }
    assert forall|i: int, j: int| 0 <= i < candidates@.len() && 0 <= j < candidates@.len() && i
        != j implies candidates@[i] != candidates@[j] by {
        if i < j {
            assert(candidates@[i].peer.rank() < candidates@[j].peer.rank());
        } else {
            assert(candidates@[j].peer.rank() < candidates@[i].peer.rank());
        }
    }
}

/// A record that is started or dated belongs to its own peer and generation; a record of another
/// generation is not dated, and tells of no unanswered probe.
pub proof fn law_records_are_dated_for_their_generation(
    started: &mut PeerLivenessMap,
    started_done: (),
    dated: &mut PeerLivenessMap,
    found: bool,
    observed: PeerLivenessMap,
    since_ms: Option<i64>,
    peer: Did,
    generation: u64,
    at_ms: i64,
    other: Did,
)
    requires
        old(started).wf(),
        call_ensures(PeerLivenessMap::mark_connected, (started, peer, generation, at_ms), started_done),
        old(dated).wf(),
        call_ensures(PeerLivenessMap::set_connected_at, (dated, peer, generation, at_ms), found),
        observed.wf(),
        call_ensures(
            PeerLivenessMap::unanswered_probe_since_ms,
            (&observed, peer, generation),
            since_ms,
        ),
        other != peer,
    ensures
        final(started)@.contains_key(peer),
        final(started)@[peer].generation == generation,
        final(started)@[peer].connected_at_ms == at_ms,
        final(started)@[peer].last_inbound_ms == at_ms,
        final(started)@[peer].last_probe_ms is None,
        final(started)@[peer].unanswered_probe_since_ms is None,
        final(started)@.contains_key(other) == old(started)@.contains_key(other),
        final(started)@[other] == old(started)@[other],
        found <==> old(dated)@.contains_key(peer) && old(dated)@[peer].generation == generation,
        found ==> final(dated)@.contains_key(peer) && final(dated)@[peer].connected_at_ms == at_ms
            && final(dated)@[peer].generation == generation && final(dated)@[peer].last_inbound_ms
            == old(dated)@[peer].last_inbound_ms,
        !found ==> final(dated)@ == old(dated)@,
        since_ms is Some <==> observed@.contains_key(peer) && observed@[peer].generation
            == generation && observed@[peer].unanswered_probe_since_ms is Some,
        since_ms is Some ==> since_ms == observed@[peer].unanswered_probe_since_ms,
{
}

} // verus!

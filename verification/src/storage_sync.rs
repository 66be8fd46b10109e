//! Storage synchronization: sending entries to their owner, and acknowledging them.
//!
//! A sync that hands ownership over records what it sent. A report deletes local entries only if
//! its signer is the receiver the sync was routed to, and only entries of that sync. A received
//! batch is validated whole before any entry of it is stored.

use vstd::prelude::*;

use crate::class::SendCompletionOutcome;
use crate::delivery::StorageSyncDestination;
use crate::did::Did;
use crate::error::Error;
use crate::error::SendClass;
use crate::error::class_of;
use crate::ordered_map::OrderedKey;
use crate::ordered_map::OrderedMap;
use crate::protection::ProtectionProfile;
use crate::storage_lookup::is_invalid;

verus! {

/// Most syncs whose report is awaited.
pub const STORAGE_SYNC_ACK_CAPACITY: usize = 1024;

/// The number of a transaction.
#[derive(Clone, Copy, Debug, PartialEq, Eq, PartialOrd, Ord, Hash, Structural)]
pub struct TransactionId {
    /// The number.
    pub value: u128,
}

impl OrderedKey for TransactionId {
    open spec fn rank(self) -> nat {
        self.value as nat
    }

    proof fn lemma_rank_injective(a: Self, b: Self) {
    }

    fn precedes(self, other: Self) -> (before: bool) {
        self.value < other.value
    }
}

/// Why entries are synchronized.
#[derive(Clone, Copy, Debug, PartialEq, Eq, Hash, Structural)]
pub enum StorageSyncPurpose {
    /// Ownership moves to the receiver; the sender may drop what is acknowledged.
    OwnershipHandoff,
    /// A copy is repaired; the sender keeps its own.
    AdditiveRepair,
}

impl StorageSyncPurpose {
    /// Whether ownership moves to the receiver.
    pub fn is_ownership_handoff(self) -> (handoff: bool)
        ensures
            handoff == (self is OwnershipHandoff),
    {
        matches!(self, StorageSyncPurpose::OwnershipHandoff)
    }

    /// Whether the sender may drop what is acknowledged.
    pub fn permits_source_cleanup(self) -> (permits: bool)
        ensures
            permits == (self is OwnershipHandoff),
    {
        self.is_ownership_handoff()
    }
}

/// One acknowledged entry: where it is placed, and its stored form.
#[derive(Debug)]
pub struct SyncedEntryAck {
    /// The placement.
    pub key: Did,
    /// The stored form.
    pub entry: Vec<u8>,
}

/// An acknowledged entry, as a value.
#[verifier::ext_equal]
pub struct AckModel {
    /// The placement.
    pub key: Did,
    /// The stored form.
    pub entry: Seq<u8>,
}

impl SyncedEntryAck {
    /// The acknowledgement, as a value.
    pub open spec fn view(&self) -> AckModel {
        AckModel { key: self.key, entry: self.entry@ }
    }

    /// Whether both acknowledge the same entry.
    pub fn matches_ack(&self, other: &SyncedEntryAck) -> (same: bool)
        ensures
            same == (self@ == other@),
    {
        if self.key != other.key || self.entry.len() != other.entry.len() {
            return false;
        }
        let mut index: usize = 0;
        while index < self.entry.len()
            invariant
                index <= self.entry@.len(),
                self.entry@.len() == other.entry@.len(),
                forall|i: int| 0 <= i < index ==> #[trigger] self.entry@[i] == other.entry@[i],
            decreases self.entry@.len() - index,
        {
            if self.entry[index] != other.entry[index] {
                assert(self.entry@[index as int] != other.entry@[index as int]);
                return false;
            }
            index += 1;
        }
        assert(self@ =~= other@);
        true
    }

    /// A copy of the acknowledgement.
    pub fn duplicate(&self) -> (copy: SyncedEntryAck)
        ensures
            copy@ == self@,
    {
        let mut entry: Vec<u8> = Vec::new();
        let mut index: usize = 0;
        while index < self.entry.len()
            invariant
                index <= self.entry@.len(),
                entry@ == self.entry@.take(index as int),
            decreases self.entry@.len() - index,
        {
            entry.push(self.entry[index]);
            index += 1;
            assert(entry@ =~= self.entry@.take(index as int));
        }
        let copy = SyncedEntryAck { key: self.key, entry };
        assert(copy@ =~= self@);
        copy
    }
}

/// The acknowledgements, as values.
pub open spec fn ack_models(acks: Seq<SyncedEntryAck>) -> Seq<AckModel> {
    acks.map_values(|ack: SyncedEntryAck| ack@)
}

/// Copies of the acknowledgements.
fn duplicate_all(acks: &Vec<SyncedEntryAck>) -> (copies: Vec<SyncedEntryAck>)
    ensures
        ack_models(copies@) == ack_models(acks@),
{
    let mut copies: Vec<SyncedEntryAck> = Vec::new();
    let mut index: usize = 0;
    while index < acks.len()
        invariant
            index <= acks@.len(),
            copies@.len() == index,
            forall|i: int| 0 <= i < index ==> (#[trigger] copies@[i])@ == acks@[i]@,
        decreases acks@.len() - index,
    {
        copies.push(acks[index].duplicate());
        index += 1;
    }
    assert(ack_models(copies@) =~= ack_models(acks@));
    copies
}

/// The receiver whose report is believed: a physical owner is the final one, while of a placement
/// key only the next hop is known here.
pub open spec fn believed_receiver(destination: StorageSyncDestination, route_next_hop: Did) -> Did {
    match destination {
        StorageSyncDestination::PhysicalOwner(owner) => owner,
        StorageSyncDestination::PlacementKey(_) => route_next_hop,
    }
}

/// The receiver whose report is believed.
pub fn expected_storage_sync_receiver(
    destination: StorageSyncDestination,
    route_next_hop: Did,
) -> (receiver: Did)
    ensures
        receiver == believed_receiver(destination, route_next_hop),
{
    match destination {
        StorageSyncDestination::PhysicalOwner(owner) => owner,
        StorageSyncDestination::PlacementKey(_) => route_next_hop,
    }
}

/// Whether a sync for `destination` may carry an entry placed at `placement`.
pub fn storage_sync_destination_accepts_placement(
    destination: StorageSyncDestination,
    placement: Did,
) -> (accepts: bool)
    ensures
        accepts == (match destination {
            StorageSyncDestination::PhysicalOwner(_) => true,
            StorageSyncDestination::PlacementKey(key) => key == placement,
        }),
{
    match destination {
        StorageSyncDestination::PhysicalOwner(_) => true,
        StorageSyncDestination::PlacementKey(key) => key == placement,
    }
}

/// Check that every reported acknowledgement was awaited, each as often as it is reported.
pub fn validate_report_acks(
    expected: &Vec<SyncedEntryAck>,
    reported: &Vec<SyncedEntryAck>,
) -> (valid: Result<(), Error>)
    ensures
        valid is Ok <==> ack_models(reported@).to_multiset().subset_of(
            ack_models(expected@).to_multiset(),
        ),
        valid is Err ==> is_invalid(valid->Err_0, "storage sync report ack was not pending"@),
{
    let mut unmatched: Vec<usize> = Vec::new();
    let mut fill: usize = 0;
    while fill < expected.len()
        invariant
            fill <= expected@.len(),
            unmatched@.len() == fill,
            forall|i: int| 0 <= i < fill ==> #[trigger] unmatched@[i] == i,
        decreases expected@.len() - fill,
    {
        unmatched.push(fill);
        fill += 1;
    }
    let ghost awaited = ack_models(expected@);
    let ghost claimed = ack_models(reported@);
    proof {
        assert(at_places(awaited, unmatched@) =~= awaited);
        assert(claimed.take(0) =~= Seq::<AckModel>::empty());
        broadcast use vstd::seq_lib::group_to_multiset_ensures;

        assert(at_places(awaited, unmatched@).to_multiset().add(
            claimed.take(0).to_multiset(),
        ) =~= awaited.to_multiset());
    }
    let mut index: usize = 0;
    while index < reported.len()
        invariant
            index <= reported@.len(),
            awaited == ack_models(expected@),
            claimed == ack_models(reported@),
            forall|i: int|
                0 <= i < unmatched@.len() ==> #[trigger] unmatched@[i] < expected@.len(),
            at_places(awaited, unmatched@).to_multiset().add(
                claimed.take(index as int).to_multiset(),
            ) == awaited.to_multiset(),
        decreases reported@.len() - index,
    {
        let mut place: usize = 0;
        let mut found = false;
        while place < unmatched.len() && !found
            invariant
                place <= unmatched@.len(),
                index < reported@.len(),
                awaited == ack_models(expected@),
                claimed == ack_models(reported@),
                forall|i: int|
                    0 <= i < unmatched@.len() ==> #[trigger] unmatched@[i] < expected@.len(),
                forall|i: int|
                    0 <= i < place ==> at_places(awaited, unmatched@)[i] != claimed[index as int],
                found ==> place < unmatched@.len() && at_places(awaited, unmatched@)[place as int]
                    == claimed[index as int],
            decreases unmatched@.len() - place + (if found { 0int } else { 1int }),
        {
            if expected[unmatched[place]].matches_ack(&reported[index]) {
                found = true;
            } else {
                place += 1;
            }
        }
        if !found {
            proof {
                lemma_unawaited(
                    at_places(awaited, unmatched@),
                    claimed,
                    index as int,
                    awaited,
                );
            }
            return Err(
                Error::InvalidMessage("storage sync report ack was not pending".to_owned()),
            );
        }
        let ghost before = unmatched@;
        let _ = unmatched.remove(place);
        proof {
            lemma_matched(
                awaited,
                before,
                unmatched@,
                place as int,
                claimed,
                index as int,
            );
        }
        index += 1;
    }
    proof {
        assert(claimed.take(index as int) =~= claimed);
        let left = at_places(awaited, unmatched@).to_multiset();
        assert forall|ack: AckModel| claimed.to_multiset().count(ack)
            <= awaited.to_multiset().count(ack) by {
            assert(left.add(claimed.to_multiset()).count(ack) == left.count(ack)
                + claimed.to_multiset().count(ack));
        }
        assert(claimed.to_multiset().subset_of(awaited.to_multiset()));
    }
    Ok(())
}

/// The values at `places`.
spec fn at_places(values: Seq<AckModel>, places: Seq<usize>) -> Seq<AckModel> {
    places.map_values(|place: usize| values[place as int])
}

proof fn lemma_unawaited(
    left: Seq<AckModel>,
    claimed: Seq<AckModel>,
    index: int,
    awaited: Seq<AckModel>,
)
    requires
        0 <= index < claimed.len(),
        forall|i: int| 0 <= i < left.len() ==> left[i] != claimed[index],
        left.to_multiset().add(claimed.take(index).to_multiset()) == awaited.to_multiset(),
    ensures
        !claimed.to_multiset().subset_of(awaited.to_multiset()),
{
    broadcast use vstd::seq_lib::group_to_multiset_ensures;

    let ack = claimed[index];
    assert(!left.contains(ack));
    assert(left.to_multiset().count(ack) == 0);
    let taken = claimed.take(index);
    let more = claimed.take(index + 1);
    assert(more =~= taken.push(ack));
    assert(more.to_multiset().count(ack) == taken.to_multiset().count(ack) + 1);
    assert(claimed =~= more + claimed.skip(index + 1));
    vstd::seq_lib::lemma_multiset_commutative(more, claimed.skip(index + 1));
    assert(claimed.to_multiset().count(ack) >= more.to_multiset().count(ack));
    assert(awaited.to_multiset().count(ack) == left.to_multiset().count(ack)
        + taken.to_multiset().count(ack));
}

proof fn lemma_matched(
    awaited: Seq<AckModel>,
    before: Seq<usize>,
    after: Seq<usize>,
    place: int,
    claimed: Seq<AckModel>,
    index: int,
)
    requires
        0 <= place < before.len(),
        after == before.remove(place),
        0 <= index < claimed.len(),
        at_places(awaited, before)[place] == claimed[index],
        at_places(awaited, before).to_multiset().add(claimed.take(index).to_multiset())
            == awaited.to_multiset(),
    ensures
        at_places(awaited, after).to_multiset().add(claimed.take(index + 1).to_multiset())
            == awaited.to_multiset(),
{
    broadcast use vstd::seq_lib::group_to_multiset_ensures;

    let ack = claimed[index];
    let left = at_places(awaited, before);
    assert(at_places(awaited, after) =~= left.remove(place));
    assert(claimed.take(index + 1) =~= claimed.take(index).push(ack));
    vstd::seq_lib::to_multiset_remove(left, place);
    assert(left.contains(ack));
    assert(left.to_multiset().count(ack) > 0);
    assert(at_places(awaited, after).to_multiset().add(claimed.take(index + 1).to_multiset())
        =~= left.to_multiset().add(claimed.take(index).to_multiset()));
}

/// What a sync may be answered with.
#[derive(Debug)]
pub struct StorageSyncAckCapability {
    /// When it was recorded.
    pub recorded_at_ms: i64,
    /// Why the entries were sent.
    pub purpose: StorageSyncPurpose,
    /// Where they were bound for.
    pub destination: StorageSyncDestination,
    /// Whose report is believed.
    pub expected_receiver: Did,
    /// The entries that were sent.
    pub expected_acks: Vec<SyncedEntryAck>,
}

/// A report on a sync.
#[derive(Debug)]
pub struct StorageSyncReport {
    /// Who received the entries.
    pub receiver: Did,
    /// Why the entries were sent.
    pub purpose: StorageSyncPurpose,
    /// Where they were bound for.
    pub destination: StorageSyncDestination,
    /// The entries that were stored.
    pub acks: Vec<SyncedEntryAck>,
}

/// `capability` justifies `report`, signed by `signer`.
pub open spec fn justifies(
    capability: StorageSyncAckCapability,
    signer: Did,
    report: StorageSyncReport,
) -> bool {
    &&& signer == report.receiver
    &&& report.purpose is OwnershipHandoff
    &&& capability.purpose == report.purpose
    &&& capability.destination == report.destination
    &&& capability.expected_receiver == signer
    &&& ack_models(report.acks@).to_multiset().subset_of(
        ack_models(capability.expected_acks@).to_multiset(),
    )
}

/// The syncs whose report is awaited.
pub type AwaitedSyncs = Map<TransactionId, StorageSyncAckCapability>;

/// `a` was recorded before `b`, or at the same time and comes first.
pub open spec fn recorded_earlier(awaited: AwaitedSyncs, a: TransactionId, b: TransactionId) -> bool {
    awaited[a].recorded_at_ms < awaited[b].recorded_at_ms || (awaited[a].recorded_at_ms
        == awaited[b].recorded_at_ms && a.value < b.value)
}

/// `after` is `before` without its earliest syncs, down to `capacity`.
pub open spec fn trimmed_syncs(before: AwaitedSyncs, after: AwaitedSyncs, capacity: nat) -> bool {
    &&& after.submap_of(before)
    &&& after.dom().len() == (if before.dom().len() <= capacity {
        before.dom().len()
    } else {
        capacity
    })
    &&& forall|gone: TransactionId, kept: TransactionId|
        before.contains_key(gone) && !after.contains_key(gone) && after.contains_key(kept)
            ==> #[trigger] recorded_earlier(before, gone, kept)
}

/// The syncs whose report is awaited.
pub struct StorageSyncAcks {
    pending: OrderedMap<TransactionId, StorageSyncAckCapability>,
}

impl StorageSyncAcks {
    /// The awaited syncs, by transaction.
    pub closed spec fn view(&self) -> AwaitedSyncs {
        self.pending@
    }

    closed spec fn ordered(&self) -> bool {
        self.pending.wf()
    }

    /// There are at most as many as the capacity.
    pub closed spec fn wf(&self) -> bool {
        self.pending.wf() && self.pending@.dom().len() <= STORAGE_SYNC_ACK_CAPACITY
    }

    /// Nothing is awaited.
    pub fn new() -> (acks: Self)
        ensures
            acks.wf(),
            acks@ == Map::<TransactionId, StorageSyncAckCapability>::empty(),
    {
        let acks = StorageSyncAcks { pending: OrderedMap::new() };
        assert(acks.pending@.dom() =~= Set::<TransactionId>::empty());
        acks
    }

    /// How many syncs are awaited.
    pub fn len(&self) -> (len: usize)
        requires
            self.wf(),
        ensures
            len == self@.dom().len(),
            len <= STORAGE_SYNC_ACK_CAPACITY,
    {
        self.pending.len()
    }

    /// The place of the earliest sync.
    fn earliest(&self) -> (earliest: usize)
        requires
            self.ordered(),
            self.pending.listing().len() > 0,
        ensures
            earliest < self.pending.listing().len(),
            forall|j: int|
                0 <= j < self.pending.listing().len() && j != earliest
                    ==> #[trigger] recorded_earlier(
                    self@,
                    self.pending.listing()[earliest as int].0,
                    self.pending.listing()[j].0,
                ),
    {
        let count: usize = self.pending.len();
        let mut earliest: usize = 0;
        let mut index: usize = 1;
        proof {
            self.pending.lemma_listing();
        }
        while index < count
            invariant
                self.ordered(),
                1 <= index <= count == self.pending.listing().len(),
                earliest < index,
                forall|j: int|
                    0 <= j < self.pending.listing().len() ==> self@.contains_pair(
                        (#[trigger] self.pending.listing()[j]).0,
                        self.pending.listing()[j].1,
                    ),
                forall|j: int|
                    0 <= j < index && j != earliest ==> #[trigger] recorded_earlier(
                        self@,
                        self.pending.listing()[earliest as int].0,
                        self.pending.listing()[j].0,
                    ),
            decreases count - index,
        {
            let best: i64 = self.pending.entry_at(earliest).1.recorded_at_ms;
            let here: i64 = self.pending.entry_at(index).1.recorded_at_ms;
            let ghost listing = self.pending.listing();
            proof {
                assert(self@.contains_pair(
                    listing[earliest as int].0,
                    listing[earliest as int].1,
                ));
                assert(self@.contains_pair(listing[index as int].0, listing[index as int].1));
                assert(listing[earliest as int].0.rank() < listing[index as int].0.rank());
            }
            if here < best {
                proof {
                    assert forall|j: int| 0 <= j < index + 1 && j != index implies
                        #[trigger] recorded_earlier(
                        self@,
                        self.pending.listing()[index as int].0,
                        self.pending.listing()[j].0,
                    ) by {
                        if j != earliest {
                            assert(recorded_earlier(
                                self@,
                                self.pending.listing()[earliest as int].0,
                                self.pending.listing()[j].0,
                            ));
                        }
                    }
                }
                earliest = index;
            }
            index += 1;
        }
        earliest
    }

    /// Forget the earliest syncs until there is room for one more. A forgotten sync's report
    /// finds nothing to justify it, so it deletes nothing.
    fn evict(&mut self)
        requires
            old(self).wf(),
        ensures
            final(self).wf(),
            final(self)@.dom().len() < STORAGE_SYNC_ACK_CAPACITY,
            trimmed_syncs(
                old(self)@,
                final(self)@,
                (STORAGE_SYNC_ACK_CAPACITY - 1) as nat,
            ),
    {
        let ghost capacity = (STORAGE_SYNC_ACK_CAPACITY - 1) as nat;
        proof {
            self.pending.lemma_listing();
        }
        while self.pending.len() >= STORAGE_SYNC_ACK_CAPACITY
            invariant
                self.ordered(),
                self.pending@.dom().len() <= STORAGE_SYNC_ACK_CAPACITY,
                capacity == STORAGE_SYNC_ACK_CAPACITY - 1,
                self@.submap_of(old(self)@),
                self@.dom().finite(),
                old(self)@.dom().len() <= capacity ==> self@ == old(self)@,
                old(self)@.dom().len() > capacity ==> self@.dom().len() >= capacity,
                forall|gone: TransactionId, kept: TransactionId|
                    old(self)@.contains_key(gone) && !self@.contains_key(gone)
                        && self@.contains_key(kept) ==> #[trigger] recorded_earlier(
                        old(self)@,
                        gone,
                        kept,
                    ),
            decreases self@.dom().len(),
        {
            proof {
                self.pending.lemma_listing();
            }
            let ghost before = self@;
            let index: usize = self.earliest();
            let ghost listing = self.pending.listing();
            let ghost key = listing[index as int].0;
            proof {
                assert(before.contains_pair(key, listing[index as int].1));
                assert forall|kept: TransactionId|
                    before.contains_key(kept) && kept != key implies recorded_earlier(
                    before,
                    key,
                    kept,
                ) by {
                    let j = choose|j: int| 0 <= j < listing.len() && (#[trigger] listing[j]).0
                        == kept;
                    assert(recorded_earlier(
                        self@,
                        self.pending.listing()[index as int].0,
                        self.pending.listing()[j].0,
                    ));
                }
            }
            let _ = self.pending.remove_at(index);
            proof {
                assert(self@ == before.remove(key));
                assert(self@.dom() =~= before.dom().remove(key));
                assert forall|gone: TransactionId, kept: TransactionId|
                    old(self)@.contains_key(gone) && !self@.contains_key(gone)
                        && self@.contains_key(kept) implies #[trigger] recorded_earlier(
                    old(self)@,
                    gone,
                    kept,
                ) by {
                    lemma_submap(before, old(self)@, kept);
                    if gone == key {
                        assert(recorded_earlier(before, key, kept));
                        lemma_submap(before, old(self)@, key);
                    } else {
                        assert(!before.contains_key(gone));
                    }
                }
            }
        }
    }

    /// Record what the sync `tx_id` may be answered with. Only a hand-off awaits an answer.
    pub fn record_pending_storage_sync_ack(
        &mut self,
        tx_id: TransactionId,
        purpose: StorageSyncPurpose,
        destination: StorageSyncDestination,
        route_next_hop: Did,
        expected_acks: Vec<SyncedEntryAck>,
        now_ms: i64,
    ) -> (recorded: Result<(), Error>)
        requires
            old(self).wf(),
        ensures
            final(self).wf(),
            recorded is Ok <==> purpose is OwnershipHandoff,
            recorded is Err ==> is_invalid(
                recorded->Err_0,
                "storage sync purpose does not permit pending cleanup ack"@,
            ) && final(self)@ == old(self)@,
            recorded is Ok ==> exists|kept: AwaitedSyncs| #[trigger]
                trimmed_syncs(old(self)@, kept, (STORAGE_SYNC_ACK_CAPACITY - 1) as nat)
                    && final(self)@ == kept.insert(
                    tx_id,
                    StorageSyncAckCapability {
                        recorded_at_ms: now_ms,
                        purpose,
                        destination,
                        expected_receiver: believed_receiver(destination, route_next_hop),
                        expected_acks,
                    },
                ),
    {
        if !purpose.permits_source_cleanup() {
            return Err(
                Error::InvalidMessage(
                    "storage sync purpose does not permit pending cleanup ack".to_owned(),
                ),
            );
        }
        self.evict();
        let ghost kept = self@;
        proof {
            self.pending.lemma_listing();
        }
        let capability = StorageSyncAckCapability {
            recorded_at_ms: now_ms,
            purpose,
            destination,
            expected_receiver: expected_storage_sync_receiver(destination, route_next_hop),
            expected_acks,
        };
        self.pending.insert(tx_id, capability);
        proof {
            assert(self@.dom() =~= kept.dom().insert(tx_id));
        }
        Ok(())
    }

    /// Await no answer to `tx_id`.
    pub fn remove_pending_storage_sync_ack(&mut self, tx_id: TransactionId)
        requires
            old(self).wf(),
        ensures
            final(self).wf(),
            final(self)@ == old(self)@.remove(tx_id),
    {
        proof {
            self.pending.lemma_listing();
        }
        let _ = self.pending.remove(tx_id);
        proof {
            assert(self@.dom() =~= old(self)@.dom().remove(tx_id));
        }
    }

    /// Take the entries that a report on `tx_id`, signed by `signer`, lets this node drop.
    pub fn take_pending_storage_sync_ack(
        &mut self,
        tx_id: TransactionId,
        signer: Did,
        report: &StorageSyncReport,
    ) -> (taken: Result<Vec<SyncedEntryAck>, Error>)
        requires
            old(self).wf(),
        ensures
            final(self).wf(),
            taken is Ok <==> old(self)@.contains_key(tx_id) && justifies(
                old(self)@[tx_id],
                signer,
                *report,
            ),
            match taken {
                Ok(acks) => {
                    &&& ack_models(acks@) == ack_models(report.acks@)
                    &&& final(self)@ == old(self)@.remove(tx_id)
                },
                Err(error) => {
                    &&& final(self)@ == old(self)@
                    &&& is_invalid(error, report_refusal(old(self)@, tx_id, signer, *report))
                },
            },
    {
        if signer != report.receiver {
            return Err(
                Error::InvalidMessage(
                    "storage sync report signer does not match receiver".to_owned(),
                ),
            );
        }
        if !report.purpose.permits_source_cleanup() {
            return Err(
                Error::InvalidMessage(
                    "storage sync report purpose does not permit source cleanup".to_owned(),
                ),
            );
        }
        let capability = match self.pending.get(tx_id) {
            Some(capability) => capability,
            None => {
                return Err(
                    Error::InvalidMessage(
                        "storage sync report has no pending capability".to_owned(),
                    ),
                );
            },
        };
        if capability.purpose != report.purpose {
            return Err(
                Error::InvalidMessage(
                    "storage sync report purpose does not match pending sync".to_owned(),
                ),
            );
        }
        if capability.destination != report.destination {
            return Err(
                Error::InvalidMessage(
                    "storage sync report destination does not match pending sync".to_owned(),
                ),
            );
        }
        if capability.expected_receiver != signer {
            return Err(
                Error::InvalidMessage(
                    "storage sync report receiver does not match pending sync".to_owned(),
                ),
            );
        }
        match validate_report_acks(&capability.expected_acks, &report.acks) {
            Ok(()) => {},
            Err(error) => {
                return Err(error);
            },
        }
        let acks = duplicate_all(&report.acks);
        proof {
            self.pending.lemma_listing();
        }
        let _ = self.pending.remove(tx_id);
        proof {
            assert(self@.dom() =~= old(self)@.dom().remove(tx_id));
        }
        Ok(acks)
    }
}

proof fn lemma_submap(part: AwaitedSyncs, whole: AwaitedSyncs, tx_id: TransactionId)
    requires
        part.submap_of(whole),
        part.contains_key(tx_id),
    ensures
        whole.contains_key(tx_id),
        whole[tx_id] == part[tx_id],
{
    assert(whole.dom().contains(tx_id));
}

/// The words in which a report is refused: the first reason that applies.
pub open spec fn report_refusal(
    awaited: AwaitedSyncs,
    tx_id: TransactionId,
    signer: Did,
    report: StorageSyncReport,
) -> Seq<char> {
    if signer != report.receiver {
        "storage sync report signer does not match receiver"@
    } else if !(report.purpose is OwnershipHandoff) {
        "storage sync report purpose does not permit source cleanup"@
    } else if !awaited.contains_key(tx_id) {
        "storage sync report has no pending capability"@
    } else if awaited[tx_id].purpose != report.purpose {
        "storage sync report purpose does not match pending sync"@
    } else if awaited[tx_id].destination != report.destination {
        "storage sync report destination does not match pending sync"@
    } else if awaited[tx_id].expected_receiver != signer {
        "storage sync report receiver does not match pending sync"@
    } else {
        "storage sync report ack was not pending"@
    }
}

/// Whose entry it is, by the lookup of its placement.
#[derive(Clone, Copy, Debug, PartialEq, Eq, Hash, Structural)]
pub enum StorageOwner {
    /// This node stores it.
    Local,
    /// Another node stores it.
    Remote,
    /// The lookup gave something that is not an owner.
    Unexpected,
}

/// What is known of one received entry before it is stored.
#[derive(Debug)]
pub struct EntryJudgement {
    /// The placement.
    pub key: Did,
    /// Whose entry it is.
    pub owner: Result<StorageOwner, Error>,
    /// It is a relay inbox.
    pub relay_inbox: bool,
    /// The predecessor of this node.
    pub predecessor: Result<Option<Did>, Error>,
    /// Its placement and admission are valid, and this is its stored form.
    pub stored: Result<Vec<u8>, Error>,
}

/// What a batch does with one entry.
pub enum EntryVerdict {
    /// It is stored and acknowledged.
    Accept(Vec<u8>),
    /// It is left to its owner, unacknowledged.
    Skip,
    /// The whole batch is refused.
    Refuse(Error),
}

/// What a batch does with one entry: one for another placement or another node is skipped, a
/// relay inbox moves only by a hand-off from the predecessor, and an invalid entry refuses the
/// batch.
pub open spec fn entry_verdict(
    purpose: StorageSyncPurpose,
    destination: StorageSyncDestination,
    sender: Did,
    judgement: EntryJudgement,
) -> EntryVerdict {
    if destination is PlacementKey && destination->PlacementKey_0 != judgement.key {
        EntryVerdict::Skip
    } else {
        match judgement.owner {
            Err(error) => EntryVerdict::Refuse(error),
            Ok(StorageOwner::Unexpected) => EntryVerdict::Refuse(Error::UnexpectedPeerRingAction),
            Ok(StorageOwner::Remote) => EntryVerdict::Skip,
            Ok(StorageOwner::Local) => if judgement.relay_inbox && !(purpose
                is OwnershipHandoff) {
                EntryVerdict::Skip
            } else if judgement.relay_inbox && judgement.predecessor is Err {
                EntryVerdict::Refuse(judgement.predecessor->Err_0)
            } else if judgement.relay_inbox && judgement.predecessor->Ok_0 != Some(sender) {
                EntryVerdict::Skip
            } else {
                match judgement.stored {
                    Ok(entry) => EntryVerdict::Accept(entry),
                    Err(error) => EntryVerdict::Refuse(error),
                }
            },
        }
    }
}

/// Whether a relay inbox may move with a batch: only by a hand-off from the predecessor.
pub fn relay_relocation_permits(
    purpose: StorageSyncPurpose,
    sender: Did,
    relay_inbox: bool,
    predecessor: Result<Option<Did>, Error>,
) -> (permits: Result<bool, Error>)
    ensures
        if !relay_inbox {
            permits == Ok::<bool, Error>(true)
        } else if !(purpose is OwnershipHandoff) {
            permits == Ok::<bool, Error>(false)
        } else {
            match predecessor {
                Ok(predecessor) => permits == Ok::<bool, Error>(predecessor == Some(sender)),
                Err(error) => permits == Err::<bool, Error>(error),
            }
        },
{
    if !relay_inbox {
        return Ok(true);
    }
    if !purpose.is_ownership_handoff() {
        return Ok(false);
    }
    match predecessor {
        Ok(Some(predecessor)) => Ok(predecessor == sender),
        Ok(None) => Ok(false),
        Err(error) => Err(error),
    }
}

/// Whether this node stores an entry of a sync for `destination`.
pub fn should_persist_synced_entry(
    destination: StorageSyncDestination,
    key: Did,
    owner: Result<StorageOwner, Error>,
) -> (persists: Result<bool, Error>)
    ensures
        if destination is PlacementKey && destination->PlacementKey_0 != key {
            persists == Ok::<bool, Error>(false)
        } else {
            match owner {
                Ok(StorageOwner::Local) => persists == Ok::<bool, Error>(true),
                Ok(StorageOwner::Remote) => persists == Ok::<bool, Error>(false),
                Ok(StorageOwner::Unexpected) => persists == Err::<bool, Error>(
                    Error::UnexpectedPeerRingAction,
                ),
                Err(error) => persists == Err::<bool, Error>(error),
            }
        },
{
    if !storage_sync_destination_accepts_placement(destination, key) {
        return Ok(false);
    }
    match owner {
        Ok(StorageOwner::Local) => Ok(true),
        Ok(StorageOwner::Remote) => Ok(false),
        Ok(StorageOwner::Unexpected) => Err(Error::UnexpectedPeerRingAction),
        Err(error) => Err(error),
    }
}

/// What a batch does next.
#[derive(Clone, Copy, Debug, PartialEq, Eq, Hash, Structural)]
pub enum BatchWork {
    /// Judge the entry at this place.
    Validate(usize),
    /// Store the accepted entry at this place.
    Persist(usize),
    /// Every accepted entry is stored.
    Complete,
}

/// A received batch: judged whole, then stored entry by entry.
pub struct StorageSyncBatch {
    sender: Did,
    purpose: StorageSyncPurpose,
    destination: StorageSyncDestination,
    entries: usize,
    validated: usize,
    accepted: Vec<SyncedEntryAck>,
    persisted: usize,
}

impl StorageSyncBatch {
    /// The authenticated sender.
    pub closed spec fn from(&self) -> Did {
        self.sender
    }

    /// Why the entries were sent.
    pub closed spec fn reason(&self) -> StorageSyncPurpose {
        self.purpose
    }

    /// Where they were bound for.
    pub closed spec fn bound_for(&self) -> StorageSyncDestination {
        self.destination
    }

    /// How many entries there are.
    pub closed spec fn size(&self) -> nat {
        self.entries as nat
    }

    /// How many of them were judged.
    pub closed spec fn judged(&self) -> nat {
        self.validated as nat
    }

    /// The accepted entries.
    pub closed spec fn acks(&self) -> Seq<SyncedEntryAck> {
        self.accepted@
    }

    /// How many of them were stored.
    pub closed spec fn stored(&self) -> nat {
        self.persisted as nat
    }

    /// Nothing is stored before everything is judged.
    pub open spec fn wf(&self) -> bool {
        &&& self.judged() <= self.size()
        &&& self.stored() <= self.acks().len() <= self.judged()
        &&& self.stored() > 0 ==> self.judged() == self.size()
    }

    /// The batch is the same but for its progress.
    pub open spec fn same_batch(&self, before: &Self) -> bool {
        &&& self.from() == before.from()
        &&& self.reason() == before.reason()
        &&& self.bound_for() == before.bound_for()
        &&& self.size() == before.size()
    }

    /// A batch of `entries` entries.
    pub fn new(
        purpose: StorageSyncPurpose,
        destination: StorageSyncDestination,
        entries: usize,
        sender: Did,
    ) -> (batch: Self)
        ensures
            batch.wf(),
            batch.from() == sender,
            batch.reason() == purpose,
            batch.bound_for() == destination,
            batch.size() == entries,
            batch.judged() == 0,
            batch.acks() == Seq::<SyncedEntryAck>::empty(),
            batch.stored() == 0,
    {
        StorageSyncBatch {
            sender,
            purpose,
            destination,
            entries,
            validated: 0,
            accepted: Vec::new(),
            persisted: 0,
        }
    }

    /// What the batch does next.
    pub fn work(&self) -> (work: BatchWork)
        requires
            self.wf(),
        ensures
            work == (if self.judged() < self.size() {
                BatchWork::Validate(self.judged() as usize)
            } else if self.stored() < self.acks().len() {
                BatchWork::Persist(self.stored() as usize)
            } else {
                BatchWork::Complete
            }),
    {
        if self.validated < self.entries {
            BatchWork::Validate(self.validated)
        } else if self.persisted < self.accepted.len() {
            BatchWork::Persist(self.persisted)
        } else {
            BatchWork::Complete
        }
    }

    /// Judge the next entry.
    pub fn validate_one(&mut self, judgement: EntryJudgement) -> (validated: Result<(), Error>)
        requires
            old(self).wf(),
            old(self).judged() < old(self).size(),
        ensures
            final(self).wf(),
            final(self).same_batch(&*old(self)),
            final(self).judged() == old(self).judged() + 1,
            final(self).stored() == old(self).stored(),
            match entry_verdict(
                old(self).reason(),
                old(self).bound_for(),
                old(self).from(),
                judgement,
            ) {
                EntryVerdict::Accept(entry) => {
                    &&& validated is Ok
                    &&& final(self).acks() == old(self).acks().push(
                        SyncedEntryAck { key: judgement.key, entry },
                    )
                },
                EntryVerdict::Skip => validated is Ok && final(self).acks() == old(self).acks(),
                EntryVerdict::Refuse(error) => validated == Err::<(), Error>(error)
                    && final(self).acks() == old(self).acks(),
            },
    {
        self.validated = self.validated + 1;
        match should_persist_synced_entry(self.destination, judgement.key, judgement.owner) {
            Ok(true) => {},
            Ok(false) => {
                return Ok(());
            },
            Err(error) => {
                return Err(error);
            },
        }
        match relay_relocation_permits(
            self.purpose,
            self.sender,
            judgement.relay_inbox,
            judgement.predecessor,
        ) {
            Ok(true) => {},
            Ok(false) => {
                return Ok(());
            },
            Err(error) => {
                return Err(error);
            },
        }
        match judgement.stored {
            Ok(entry) => {
                self.accepted.push(SyncedEntryAck { key: judgement.key, entry });
                Ok(())
            },
            Err(error) => Err(error),
        }
    }

    /// The accepted entry to store now.
    pub fn entry_to_persist(&self) -> (entry: Option<&SyncedEntryAck>)
        requires
            self.wf(),
        ensures
            match entry {
                Some(entry) => self.judged() == self.size() && self.stored() < self.acks().len()
                    && *entry == self.acks()[self.stored() as int],
                None => self.judged() < self.size() || self.stored() == self.acks().len(),
            },
    {
        if self.validated == self.entries && self.persisted < self.accepted.len() {
            Some(&self.accepted[self.persisted])
        } else {
            None
        }
    }

    /// Note that the next accepted entry was stored.
    pub fn persisted_one(&mut self)
        requires
            old(self).wf(),
            old(self).judged() == old(self).size(),
            old(self).stored() < old(self).acks().len(),
        ensures
            final(self).wf(),
            final(self).same_batch(&*old(self)),
            final(self).judged() == old(self).judged(),
            final(self).acks() == old(self).acks(),
            final(self).stored() == old(self).stored() + 1,
    {
        let accepted: usize = self.accepted.len();
        assert(self.persisted < accepted);
        self.persisted = self.persisted + 1;
    }

    /// Hand over the acknowledgements of a stored batch.
    pub fn complete(self) -> (acks: Vec<SyncedEntryAck>)
        requires
            self.wf(),
            self.judged() == self.size(),
            self.stored() == self.acks().len(),
        ensures
            acks@ == self.acks(),
    {
        self.accepted
    }
}

/// Whether a batch yields after every stored entry.
pub fn per_entry_yield_enabled(profile: ProtectionProfile) -> (enabled: bool)
    ensures
        enabled == profile.per_entry_yield,
{
    profile.per_entry_yield
}

/// What a sync came to.
#[derive(Debug)]
pub enum StorageSyncCompletion {
    /// This node is the destination; the entries were stored here.
    PersistedLocally,
    /// The sync was sent.
    Submitted { tx_id: TransactionId, outcome: SendCompletionOutcome },
}

/// The next hop of a sync, unless this node is its destination.
pub fn storage_sync_hop(next_hop: Option<Did>, local: Did) -> (hop: Option<Did>)
    ensures
        hop == (match next_hop {
            Some(next_hop) if next_hop != local => Some(next_hop),
            _ => None,
        }),
{
    match next_hop {
        Some(next_hop) => if next_hop != local {
            Some(next_hop)
        } else {
            None
        },
        None => None,
    }
}

/// How a sync is carried out.
#[derive(Clone, Copy, Debug, PartialEq, Eq, Hash, Structural)]
pub enum StorageSyncPlan {
    /// No other node is nearer: store the entries here.
    PersistLocally,
    /// Send to `hop` and await the receiver's answer.
    SendAwaitingAck { hop: Did },
    /// Send to `hop`; nothing is awaited.
    SendUnrecorded { hop: Did },
}

/// Decide how a sync for `purpose` is carried out, whose next hop is `next_hop` if there is one:
/// only a hand-off awaits an answer, a repair is sent unrecorded, and without a hop the entries are
/// stored here.
pub fn plan_storage_sync(next_hop: Option<Did>, purpose: StorageSyncPurpose) -> (plan:
    StorageSyncPlan)
    ensures
        next_hop is None ==> plan == StorageSyncPlan::PersistLocally,
        next_hop is Some && purpose is OwnershipHandoff ==> plan
            == (StorageSyncPlan::SendAwaitingAck { hop: next_hop->0 }),
        next_hop is Some && purpose is AdditiveRepair ==> plan
            == (StorageSyncPlan::SendUnrecorded { hop: next_hop->0 }),
{
    match next_hop {
        Some(hop) => if purpose.permits_source_cleanup() {
            StorageSyncPlan::SendAwaitingAck { hop }
        } else {
            StorageSyncPlan::SendUnrecorded { hop }
        },
        None => StorageSyncPlan::PersistLocally,
    }
}

/// What the send of the sync `tx_id` comes to: a refusal that had no effect counts as cancelled.
pub open spec fn settled_sync(
    tx_id: TransactionId,
    sent: Result<SendCompletionOutcome, Error>,
) -> Result<StorageSyncCompletion, Error> {
    match sent {
        Ok(outcome) => Ok(StorageSyncCompletion::Submitted { tx_id, outcome }),
        Err(error) => if class_of(error) is Deferrable {
            Ok(
                StorageSyncCompletion::Submitted {
                    tx_id,
                    outcome: SendCompletionOutcome::Cancelled,
                },
            )
        } else {
            Err(error)
        },
    }
}

impl StorageSyncAcks {
    /// Note the sync `tx_id` before it is carried out as `plan` says; only a sync that awaits an
    /// answer is recorded.
    pub fn start_storage_sync(
        &mut self,
        plan: StorageSyncPlan,
        tx_id: TransactionId,
        destination: StorageSyncDestination,
        expected_acks: Vec<SyncedEntryAck>,
        now_ms: i64,
    )
        requires
            old(self).wf(),
        ensures
            final(self).wf(),
            match plan {
                StorageSyncPlan::SendAwaitingAck { hop } => exists|kept: AwaitedSyncs| #[trigger]
                    trimmed_syncs(old(self)@, kept, (STORAGE_SYNC_ACK_CAPACITY - 1) as nat)
                        && final(self)@ == kept.insert(
                        tx_id,
                        StorageSyncAckCapability {
                            recorded_at_ms: now_ms,
                            purpose: StorageSyncPurpose::OwnershipHandoff,
                            destination,
                            expected_receiver: believed_receiver(destination, hop),
                            expected_acks,
                        },
                    ),
                _ => final(self)@ == old(self)@,
            },
    {
        if let StorageSyncPlan::SendAwaitingAck { hop } = plan {
            let _ = self.record_pending_storage_sync_ack(
                tx_id,
                StorageSyncPurpose::OwnershipHandoff,
                destination,
                hop,
                expected_acks,
                now_ms,
            );
        }
    }

    /// What the sync `tx_id` came to once it was sent as `plan` says. The answer to one that did
    /// not go out is no longer awaited.
    pub fn finish_storage_sync(
        &mut self,
        plan: StorageSyncPlan,
        tx_id: TransactionId,
        sent: Result<SendCompletionOutcome, Error>,
    ) -> (settled: Result<StorageSyncCompletion, Error>)
        requires
            old(self).wf(),
        ensures
            final(self).wf(),
            settled == settled_sync(tx_id, sent),
            final(self)@ == (if plan is SendAwaitingAck && !(sent matches Ok(
                SendCompletionOutcome::Succeeded,
            )) {
                old(self)@.remove(tx_id)
            } else {
                old(self)@
            }),
    {
        let (settled, withdrawn) = settle_storage_sync(tx_id, sent);
        if let StorageSyncPlan::SendAwaitingAck { .. } = plan {
            if withdrawn {
                self.remove_pending_storage_sync_ack(tx_id);
            }
        }
        settled
    }
}

/// What the send of a sync comes to, and whether its report is no longer awaited: a refusal that
/// had no effect counts as cancelled, and only a sync that went out is answered.
pub fn settle_storage_sync(
    tx_id: TransactionId,
    sent: Result<SendCompletionOutcome, Error>,
) -> (settled: (Result<StorageSyncCompletion, Error>, bool))
    ensures
        settled.0 == settled_sync(tx_id, sent),
        settled.1 == !(sent matches Ok(SendCompletionOutcome::Succeeded)),
{
    match sent {
        Ok(SendCompletionOutcome::Succeeded) => (
            Ok(
                StorageSyncCompletion::Submitted {
                    tx_id,
                    outcome: SendCompletionOutcome::Succeeded,
                },
            ),
            false,
        ),
        Ok(SendCompletionOutcome::Cancelled) => (
            Ok(
                StorageSyncCompletion::Submitted {
                    tx_id,
                    outcome: SendCompletionOutcome::Cancelled,
                },
            ),
            true,
        ),
        Err(error) => {
            if error.is_deferrable_data_plane_send() {
                (
                    Ok(
                        StorageSyncCompletion::Submitted {
                            tx_id,
                            outcome: SendCompletionOutcome::Cancelled,
                        },
                    ),
                    true,
                )
            } else {
                (Err(error), true)
            }
        },
    }
}

/// What a detached sync came to.
#[derive(Clone, Copy, Debug, PartialEq, Eq, Hash, Structural)]
pub enum StorageSyncOutcome {
    /// The entries were stored here.
    PersistedLocally,
    /// The sync was accepted.
    Sent(TransactionId),
    /// The sync has to be made again.
    Deferred,
}

impl StorageSyncOutcome {
    /// What `completion` means for a detached sync.
    pub fn of(completion: StorageSyncCompletion) -> (outcome: Self)
        ensures
            outcome == (match completion {
                StorageSyncCompletion::PersistedLocally => StorageSyncOutcome::PersistedLocally,
                StorageSyncCompletion::Submitted { tx_id, outcome } => match outcome {
                    SendCompletionOutcome::Succeeded => StorageSyncOutcome::Sent(tx_id),
                    SendCompletionOutcome::Cancelled => StorageSyncOutcome::Deferred,
                },
            }),
    {
        match completion {
            StorageSyncCompletion::PersistedLocally => StorageSyncOutcome::PersistedLocally,
            StorageSyncCompletion::Submitted { tx_id, outcome } => match outcome {
                SendCompletionOutcome::Succeeded => StorageSyncOutcome::Sent(tx_id),
                SendCompletionOutcome::Cancelled => StorageSyncOutcome::Deferred,
            },
        }
    }

    /// Whether the sync was accepted.
    pub fn is_sent(self) -> (sent: bool)
        ensures
            sent == (self is Sent),
    {
        matches!(self, StorageSyncOutcome::Sent(_))
    }

    /// Whether the sync has to be made again.
    pub fn is_deferred(self) -> (deferred: bool)
        ensures
            deferred == (self is Deferred),
    {
        matches!(self, StorageSyncOutcome::Deferred)
    }
}

/// What a sync whose delivery was awaited came to.
#[derive(Clone, Copy, Debug, PartialEq, Eq, Hash, Structural)]
pub enum TrackedStorageSyncOutcome {
    /// The entries were stored here.
    PersistedLocally,
    /// The sync was delivered.
    Delivered(TransactionId),
    /// The sync has to be made again.
    Deferred,
}

impl TrackedStorageSyncOutcome {
    /// What `completion` means for a sync whose delivery was awaited.
    pub fn of(completion: StorageSyncCompletion) -> (outcome: Self)
        ensures
            outcome == (match completion {
                StorageSyncCompletion::PersistedLocally =>
                    TrackedStorageSyncOutcome::PersistedLocally,
                StorageSyncCompletion::Submitted { tx_id, outcome } => match outcome {
                    SendCompletionOutcome::Succeeded => TrackedStorageSyncOutcome::Delivered(
                        tx_id,
                    ),
                    SendCompletionOutcome::Cancelled => TrackedStorageSyncOutcome::Deferred,
                },
            }),
    {
        match completion {
            StorageSyncCompletion::PersistedLocally => TrackedStorageSyncOutcome::PersistedLocally,
            StorageSyncCompletion::Submitted { tx_id, outcome } => match outcome {
                SendCompletionOutcome::Succeeded => TrackedStorageSyncOutcome::Delivered(tx_id),
                SendCompletionOutcome::Cancelled => TrackedStorageSyncOutcome::Deferred,
            },
        }
    }
}

/// A report deletes only what was sent under its transaction: whatever it acknowledges was part
/// of the sync, the signer is the receiver the sync was routed to, and it is taken once.
pub proof fn law_reports_delete_only_what_was_sent(
    awaited: AwaitedSyncs,
    tx_id: TransactionId,
    signer: Did,
    report: StorageSyncReport,
    ack: AckModel,
)
    requires
        awaited.contains_key(tx_id),
        justifies(awaited[tx_id], signer, report),
        ack_models(report.acks@).contains(ack),
    ensures
        ack_models(awaited[tx_id].expected_acks@).contains(ack),
        awaited[tx_id].expected_receiver == signer,
        !awaited.remove(tx_id).contains_key(tx_id),
{
    broadcast use vstd::seq_lib::group_to_multiset_ensures;

    let acks = ack_models(report.acks@);
    let sent = ack_models(awaited[tx_id].expected_acks@);
    assert(acks.to_multiset().count(ack) > 0);
    assert(sent.to_multiset().count(ack) > 0);
}

/// A farther receiver of a placement-key sync cannot speak for its next hop: its report is
/// refused.
pub proof fn law_placement_sync_believes_its_next_hop_only(
    key: Did,
    next_hop: Did,
    signer: Did,
    capability: StorageSyncAckCapability,
    report: StorageSyncReport,
)
    requires
        capability.expected_receiver == believed_receiver(
            StorageSyncDestination::PlacementKey(key),
            next_hop,
        ),
        signer != next_hop,
    ensures
        !justifies(capability, signer, report),
{
}

/// An invalid entry leaves the whole batch unstored: storing starts only after the last entry was
/// judged.
pub proof fn law_nothing_is_stored_before_everything_is_judged(batch: &StorageSyncBatch)
    requires
        batch.wf(),
        batch.judged() < batch.size(),
    ensures
        batch.stored() == 0,
{
}

/// An entry that is not a relay inbox is judged without regard to purpose, sender or predecessor:
/// it is stored and acknowledged exactly if its destination takes its placement, this node owns it
/// and its stored form is valid. It is left out exactly if it is placed elsewhere or owned by
/// another node. Anything else refuses the batch.
pub proof fn law_ordinary_entry_is_judged_by_its_placement(
    batch: &mut StorageSyncBatch,
    judgement: EntryJudgement,
    validated: Result<(), Error>,
)
    requires
        old(batch).wf(),
        old(batch).judged() < old(batch).size(),
        !judgement.relay_inbox,
        call_ensures(StorageSyncBatch::validate_one, (batch, judgement), validated),
    ensures
        ({
            let placed = old(batch).bound_for() matches StorageSyncDestination::PlacementKey(key)
                ==> key == judgement.key;
            let own = judgement.owner == Ok::<StorageOwner, Error>(StorageOwner::Local);
            &&& final(batch).judged() == old(batch).judged() + 1
            &&& placed && own && judgement.stored is Ok ==> validated is Ok && final(batch).acks()
                == old(batch).acks().push(
                SyncedEntryAck { key: judgement.key, entry: judgement.stored->Ok_0 },
            )
            &&& !(placed && own && judgement.stored is Ok) ==> final(batch).acks() == old(batch).acks()
            &&& validated is Ok <==> !placed || judgement.owner == Ok::<StorageOwner, Error>(
                StorageOwner::Remote,
            ) || (own && judgement.stored is Ok)
            &&& placed && own && judgement.stored is Err ==> validated->Err_0
                == judgement.stored->Err_0
            &&& placed && judgement.owner is Err ==> validated->Err_0 == judgement.owner->Err_0
        }),
{
}

/// A relay inbox moves only as a hand-off from the predecessor: any other is left to its owner,
/// unacknowledged and without refusing the batch. One that may move is judged as every entry is.
pub proof fn law_relay_inbox_moves_from_the_predecessor_only(
    batch: &mut StorageSyncBatch,
    judgement: EntryJudgement,
    validated: Result<(), Error>,
)
    requires
        old(batch).wf(),
        old(batch).judged() < old(batch).size(),
        judgement.relay_inbox,
        judgement.owner == Ok::<StorageOwner, Error>(StorageOwner::Local),
        old(batch).bound_for() matches StorageSyncDestination::PlacementKey(key) ==> key
            == judgement.key,
        call_ensures(StorageSyncBatch::validate_one, (batch, judgement), validated),
    ensures
        old(batch).reason() is AdditiveRepair ==> validated is Ok && final(batch).acks() == old(batch).acks(),
        old(batch).reason() is OwnershipHandoff && judgement.predecessor is Ok
            && judgement.predecessor->Ok_0 != Some(old(batch).from()) ==> validated is Ok && final(batch).acks() == old(batch).acks(),
        old(batch).reason() is OwnershipHandoff && judgement.predecessor is Err ==> validated
            == Err::<(), Error>(judgement.predecessor->Err_0) && final(batch).acks() == old(batch).acks(),
        old(batch).reason() is OwnershipHandoff && judgement.predecessor == Ok::<
            Option<Did>,
            Error,
        >(Some(old(batch).from())) ==> {
            &&& validated is Ok <==> judgement.stored is Ok
            &&& judgement.stored matches Ok(entry) ==> final(batch).acks() == old(batch).acks().push(SyncedEntryAck { key: judgement.key, entry })
            &&& judgement.stored matches Err(error) ==> validated->Err_0 == error && final(batch).acks() == old(batch).acks()
        },
{
}

/// A batch judges every entry before it stores the first, stores the accepted ones in order, each
/// once, and is complete once all are stored; its acknowledgements are what it stored.
pub proof fn law_batch_judges_whole_then_stores_in_order(
    batch: StorageSyncBatch,
    work: BatchWork,
    entry: Option<&SyncedEntryAck>,
)
    requires
        batch.wf(),
        call_ensures(StorageSyncBatch::work, (&batch,), work),
        call_ensures(StorageSyncBatch::entry_to_persist, (&batch,), entry),
    ensures
        work matches BatchWork::Validate(place) ==> place == batch.judged() && place
            < batch.size(),
        work is Validate <==> batch.judged() < batch.size(),
        work matches BatchWork::Persist(place) ==> batch.judged() == batch.size() && place
            == batch.stored() && entry == Some(&batch.acks()[place as int]),
        work is Complete <==> batch.judged() == batch.size() && batch.stored()
            == batch.acks().len(),
        entry is Some <==> work is Persist,
{
}

/// The steps of a batch: it starts with nothing judged, a stored entry moves it on by one, and a
/// complete one acknowledges what it accepted.
pub proof fn law_batch_acknowledges_what_it_stored(
    purpose: StorageSyncPurpose,
    destination: StorageSyncDestination,
    entries: usize,
    sender: Did,
    begun: StorageSyncBatch,
    batch: &mut StorageSyncBatch,
    complete: StorageSyncBatch,
    acks: Vec<SyncedEntryAck>,
)
    requires
        call_ensures(StorageSyncBatch::new, (purpose, destination, entries, sender), begun),
        old(batch).wf(),
        old(batch).judged() == old(batch).size(),
        old(batch).stored() < old(batch).acks().len(),
        call_ensures(StorageSyncBatch::persisted_one, (batch,), ()),
        complete.wf(),
        complete.judged() == complete.size(),
        complete.stored() == complete.acks().len(),
        call_ensures(StorageSyncBatch::complete, (complete,), acks),
    ensures
        begun.size() == entries && begun.judged() == 0 && begun.stored() == 0,
        begun.acks().len() == 0,
        begun.reason() == purpose && begun.bound_for() == destination && begun.from() == sender,
        final(batch).stored() == old(batch).stored() + 1,
        final(batch).acks() == old(batch).acks(),
        acks@ == complete.acks(),
        acks@.len() == complete.stored(),
{
}

/// A report lets this node drop entries exactly if it is signed by the receiver it names, answers a
/// hand-off that is still awaited, agrees with it in purpose and destination, comes from the
/// receiver that was expected, and acknowledges nothing that was not sent, however often. Then the
/// sync is awaited no longer and what is dropped is what was acknowledged; otherwise nothing
/// changes.
pub proof fn law_report_is_believed_from_the_expected_receiver(
    awaited: &mut StorageSyncAcks,
    tx_id: TransactionId,
    signer: Did,
    report: StorageSyncReport,
    taken: Result<Vec<SyncedEntryAck>, Error>,
)
    requires
        old(awaited).wf(),
        call_ensures(
            StorageSyncAcks::take_pending_storage_sync_ack,
            (awaited, tx_id, signer, &report),
            taken,
        ),
    ensures
        taken is Ok <==> {
            &&& old(awaited)@.contains_key(tx_id)
            &&& signer == report.receiver
            &&& signer == old(awaited)@[tx_id].expected_receiver
            &&& report.purpose is OwnershipHandoff
            &&& old(awaited)@[tx_id].purpose is OwnershipHandoff
            &&& old(awaited)@[tx_id].destination == report.destination
            &&& forall|ack: AckModel|
                ack_models(report.acks@).to_multiset().count(ack) <= #[trigger] ack_models(
                    old(awaited)@[tx_id].expected_acks@,
                ).to_multiset().count(ack)
        },
        taken is Ok ==> {
            &&& !final(awaited)@.contains_key(tx_id)
            &&& taken->Ok_0@.len() == report.acks@.len()
            &&& forall|i: int|
                0 <= i < report.acks@.len() ==> (#[trigger] taken->Ok_0@[i]).key
                    == report.acks@[i].key && taken->Ok_0@[i].entry@ == report.acks@[i].entry@
        },
        taken is Err ==> final(awaited)@ == old(awaited)@ && taken->Err_0 is InvalidMessage,
        forall|other: TransactionId|
            other != tx_id ==> (#[trigger] final(awaited)@.contains_key(other) == old(awaited)@.contains_key(other) && final(awaited)@[other] == old(awaited)@[other]),
{
    if taken is Ok {
        let given = ack_models(taken->Ok_0@);
        let told = ack_models(report.acks@);
        assert(given.len() == told.len());
        assert forall|i: int| 0 <= i < report.acks@.len() implies (#[trigger] taken->Ok_0@[i]).key
            == report.acks@[i].key && taken->Ok_0@[i].entry@ == report.acks@[i].entry@ by {
            assert(given[i] == told[i]);
        }
    }
}

/// The report of a sync bound for an owner is believed from that owner; one bound for a placement,
/// from the next hop. A sync for a placement carries entries of that placement only.
pub proof fn law_receiver_of_a_sync(
    destination: StorageSyncDestination,
    hop: Did,
    receiver: Did,
    placement: Did,
    accepts: bool,
)
    requires
        call_ensures(expected_storage_sync_receiver, (destination, hop), receiver),
        call_ensures(
            storage_sync_destination_accepts_placement,
            (destination, placement),
            accepts,
        ),
    ensures
        destination matches StorageSyncDestination::PhysicalOwner(owner) ==> receiver == owner
            && accepts,
        destination matches StorageSyncDestination::PlacementKey(key) ==> receiver == hop && (
        accepts <==> key == placement),
{
}

/// Only a hand-off is recorded, under what its report has to agree with. Below the capacity of 1024
/// nothing is forgotten for it; at it, what goes was recorded before everything that stays.
pub proof fn law_handoff_is_recorded_for_its_report(
    awaited: &mut StorageSyncAcks,
    tx_id: TransactionId,
    purpose: StorageSyncPurpose,
    destination: StorageSyncDestination,
    hop: Did,
    expected: Vec<SyncedEntryAck>,
    now_ms: i64,
    recorded: Result<(), Error>,
    other: TransactionId,
    kept: TransactionId,
)
    requires
        old(awaited).wf(),
        call_ensures(
            StorageSyncAcks::record_pending_storage_sync_ack,
            (awaited, tx_id, purpose, destination, hop, expected, now_ms),
            recorded,
        ),
        other != tx_id,
        kept != tx_id,
    ensures
        recorded is Ok <==> purpose is OwnershipHandoff,
        recorded is Err ==> final(awaited)@ == old(awaited)@,
        recorded is Ok ==> {
            let sync = final(awaited)@[tx_id];
            &&& final(awaited)@.contains_key(tx_id)
            &&& sync.recorded_at_ms == now_ms && sync.purpose == purpose && sync.destination
                == destination && sync.expected_acks == expected
            &&& destination matches StorageSyncDestination::PhysicalOwner(owner)
                ==> sync.expected_receiver == owner
            &&& destination is PlacementKey ==> sync.expected_receiver == hop
            &&& final(awaited)@.contains_key(other) ==> old(awaited)@.contains_key(other) && final(awaited)@[other] == old(awaited)@[other]
            &&& old(awaited)@.dom().len() < 1024 && old(awaited)@.contains_key(other) ==> final(awaited)@.contains_key(other)
            &&& old(awaited)@.contains_key(other) && !final(awaited)@.contains_key(other) && final(awaited)@.contains_key(kept) ==> old(awaited)@[other].recorded_at_ms <= old(awaited)@[kept].recorded_at_ms
        },
{
    if recorded is Ok {
        let stays = choose|stays: AwaitedSyncs| #[trigger]
            trimmed_syncs(old(awaited)@, stays, (STORAGE_SYNC_ACK_CAPACITY - 1) as nat) && final(awaited)@ == stays.insert(
                tx_id,
                StorageSyncAckCapability {
                    recorded_at_ms: now_ms,
                    purpose,
                    destination,
                    expected_receiver: believed_receiver(destination, hop),
                    expected_acks: expected,
                },
            );
        old(awaited).pending.lemma_listing();
        assert(stays.dom().subset_of(old(awaited)@.dom()));
        if old(awaited)@.dom().len() < 1024 {
            vstd::set_lib::lemma_subset_equality(stays.dom(), old(awaited)@.dom());
        }
        if old(awaited)@.contains_key(other) && !stays.contains_key(other) && stays.contains_key(
            kept,
        ) {
            assert(recorded_earlier(old(awaited)@, other, kept));
        }
    }
}

/// A sync is carried out here exactly if no other node is nearer. Otherwise it goes to that node,
/// awaiting an answer exactly if it is a hand-off.
pub proof fn law_sync_is_planned_by_hop_and_purpose(
    next_hop: Option<Did>,
    local: Did,
    purpose: StorageSyncPurpose,
    hop: Option<Did>,
    plan: StorageSyncPlan,
)
    requires
        call_ensures(storage_sync_hop, (next_hop, local), hop),
        call_ensures(plan_storage_sync, (hop, purpose), plan),
    ensures
        plan is PersistLocally <==> next_hop is None || next_hop == Some(local),
        plan matches StorageSyncPlan::SendAwaitingAck { hop } ==> next_hop == Some(hop) && purpose
            is OwnershipHandoff,
        plan matches StorageSyncPlan::SendUnrecorded { hop } ==> next_hop == Some(hop) && purpose
            is AdditiveRepair,
{
}

/// A sync that was sent is submitted under its transaction; a send that was cancelled, or refused
/// before it was accepted, has to be made again; any other error is told. An answer stays awaited
/// exactly if the sync awaited one and went out.
pub proof fn law_sync_settles_by_its_send(
    awaited: &mut StorageSyncAcks,
    plan: StorageSyncPlan,
    tx_id: TransactionId,
    sent: Result<SendCompletionOutcome, Error>,
    settled: Result<StorageSyncCompletion, Error>,
)
    requires
        old(awaited).wf(),
        call_ensures(
            StorageSyncAcks::finish_storage_sync,
            (awaited, plan, tx_id, sent),
            settled,
        ),
    ensures
        settled is Err <==> sent is Err && !(class_of(sent->Err_0) is Deferrable),
        settled is Err ==> settled->Err_0 == sent->Err_0,
        settled matches Ok(completion) ==> (completion matches StorageSyncCompletion::Submitted {
            tx_id: told,
            outcome,
        } && told == tx_id && (outcome == SendCompletionOutcome::Succeeded <==> sent == Ok::<
            SendCompletionOutcome,
            Error,
        >(SendCompletionOutcome::Succeeded))),
        final(awaited)@.contains_key(tx_id) <==> old(awaited)@.contains_key(tx_id) && (!(plan
            is SendAwaitingAck) || sent == Ok::<SendCompletionOutcome, Error>(
            SendCompletionOutcome::Succeeded,
        )),
        forall|other: TransactionId|
            other != tx_id ==> (#[trigger] final(awaited)@.contains_key(other) == old(awaited)@.contains_key(other) && final(awaited)@[other] == old(awaited)@[other]),
{
}

/// A sync that was started is recorded exactly if it awaits an answer, and as a hand-off.
pub proof fn law_started_sync_is_recorded_if_it_awaits_an_answer(
    awaited: &mut StorageSyncAcks,
    plan: StorageSyncPlan,
    tx_id: TransactionId,
    destination: StorageSyncDestination,
    expected: Vec<SyncedEntryAck>,
    now_ms: i64,
)
    requires
        old(awaited).wf(),
        call_ensures(
            StorageSyncAcks::start_storage_sync,
            (awaited, plan, tx_id, destination, expected, now_ms),
            (),
        ),
    ensures
        !(plan is SendAwaitingAck) ==> final(awaited)@ == old(awaited)@,
        plan matches StorageSyncPlan::SendAwaitingAck { hop } ==> {
            let sync = final(awaited)@[tx_id];
            &&& final(awaited)@.contains_key(tx_id)
            &&& sync.recorded_at_ms == now_ms && sync.purpose is OwnershipHandoff
                && sync.destination == destination && sync.expected_acks == expected
            &&& destination matches StorageSyncDestination::PhysicalOwner(owner)
                ==> sync.expected_receiver == owner
            &&& destination is PlacementKey ==> sync.expected_receiver == hop
        },
{
}

/// A completed sync reads as sent or delivered exactly if it was submitted and succeeded, as
/// deferred exactly if it was cancelled, and as stored here otherwise.
pub proof fn law_completion_reads_the_same_either_way(
    completion: StorageSyncCompletion,
    detached: StorageSyncOutcome,
    attached: TrackedStorageSyncOutcome,
)
    requires
        call_ensures(StorageSyncOutcome::of, (completion,), detached),
        call_ensures(TrackedStorageSyncOutcome::of, (completion,), attached),
    ensures
        completion is PersistedLocally <==> detached is PersistedLocally,
        completion is PersistedLocally <==> attached is PersistedLocally,
        completion matches StorageSyncCompletion::Submitted { tx_id, outcome } ==> {
            &&& outcome == SendCompletionOutcome::Succeeded ==> detached
                == StorageSyncOutcome::Sent(tx_id) && attached
                == TrackedStorageSyncOutcome::Delivered(tx_id)
            &&& outcome == SendCompletionOutcome::Cancelled ==> detached is Deferred && attached
                is Deferred
        },
{
}

/// Only an ownership handoff lets the source clean up, and only a handoff from the node's
/// predecessor moves a relay inbox; any other entry moves freely.
pub proof fn law_relocation_follows_the_handoff(
    purpose: StorageSyncPurpose,
    cleans_up: bool,
    sender: Did,
    relay_inbox: bool,
    predecessor: Result<Option<Did>, Error>,
    permits: Result<bool, Error>,
)
    requires
        call_ensures(StorageSyncPurpose::permits_source_cleanup, (purpose,), cleans_up),
        call_ensures(
            relay_relocation_permits,
            (purpose, sender, relay_inbox, predecessor),
            permits,
        ),
    ensures
        cleans_up <==> purpose is OwnershipHandoff,
        !relay_inbox ==> permits matches Ok(true),
        relay_inbox && !(purpose is OwnershipHandoff) ==> permits matches Ok(false),
        relay_inbox && purpose is OwnershipHandoff ==> {
            &&& permits is Ok <==> predecessor is Ok
            &&& permits matches Ok(allowed) ==> (allowed <==> predecessor->Ok_0 == Some(sender))
            &&& permits matches Err(error) ==> error == predecessor->Err_0
        },
{
}

/// An entry is stored exactly where its destination takes it and this node owns its placement; a
/// foreign owner's entry is passed over, and an unknown owner is an error.
pub proof fn law_entries_are_stored_at_their_owner(
    destination: StorageSyncDestination,
    key: Did,
    owner: Result<StorageOwner, Error>,
    persists: Result<bool, Error>,
)
    requires
        call_ensures(should_persist_synced_entry, (destination, key, owner), persists),
    ensures
        ({
            let taken = !(destination is PlacementKey) || destination->PlacementKey_0 == key;
            &&& (persists matches Ok(true)) <==> taken && owner is Ok && owner->Ok_0 is Local
            &&& persists is Err <==> taken && (owner is Err || owner->Ok_0 is Unexpected)
            &&& taken && owner is Err ==> persists->Err_0 == owner->Err_0
            &&& taken && owner is Ok && owner->Ok_0 is Unexpected ==> persists->Err_0
                == Error::UnexpectedPeerRingAction
        }),
{
}

/// A sync keeps its pending acknowledgements exactly if its send succeeded. A send that was deferred
/// counts as cancelled; any other failure is told.
pub proof fn law_settled_sync_reports_its_send(
    tx_id: TransactionId,
    sent: Result<SendCompletionOutcome, Error>,
    settled: (Result<StorageSyncCompletion, Error>, bool),
    class: SendClass,
)
    requires
        call_ensures(settle_storage_sync, (tx_id, sent), settled),
        sent matches Err(error) ==> call_ensures(Error::send_class, (&error,), class),
    ensures
        settled.1 <==> !(sent is Ok && sent->Ok_0 is Succeeded),
        sent matches Ok(outcome) ==> settled.0 == Ok::<StorageSyncCompletion, Error>(
            StorageSyncCompletion::Submitted { tx_id, outcome },
        ),
        settled.0 is Err <==> sent is Err && !(class is Deferrable),
        settled.0 matches Err(error) ==> error == sent->Err_0,
        sent is Err && settled.0 is Ok ==> settled.0 == Ok::<StorageSyncCompletion, Error>(
            StorageSyncCompletion::Submitted { tx_id, outcome: SendCompletionOutcome::Cancelled },
        ),
{
}

/// A report is valid only if everything it acknowledges was expected, as often as it is reported:
/// it is never longer than what was expected, and an empty one is valid.
pub proof fn law_reports_acknowledge_what_was_expected(
    expected: Vec<SyncedEntryAck>,
    reported: Vec<SyncedEntryAck>,
    valid: Result<(), Error>,
    i: int,
)
    requires
        call_ensures(validate_report_acks, (&expected, &reported), valid),
    ensures
        valid is Ok && 0 <= i < reported@.len() ==> exists|j: int|
            0 <= j < expected@.len() && (#[trigger] expected@[j])@ == reported@[i]@,
        reported@.len() == 0 ==> valid is Ok,
        reported@ == expected@ ==> valid is Ok,
{
    broadcast use vstd::seq_lib::group_to_multiset_ensures;

    let said = ack_models(reported@);
    let known = ack_models(expected@);
    if valid is Ok && 0 <= i < reported@.len() {
        assert(said[i] == reported@[i]@);
        assert(said.contains(said[i]));
        assert(said.to_multiset().count(said[i]) > 0);
        assert(known.to_multiset().count(said[i]) > 0);
        assert(known.contains(said[i]));
        let j = choose|j: int| 0 <= j < known.len() && known[j] == said[i];
        assert(expected@[j]@ == reported@[i]@);
    }
    if reported@.len() == 0 {
        assert(said =~= Seq::<AckModel>::empty());
        assert(said.to_multiset() =~= vstd::multiset::Multiset::<AckModel>::empty());
    }
}

/// A report that is not believed is refused for the first thing that is wrong with it: its signer,
/// its purpose, that nothing is awaited, or that it does not match what is awaited.
pub proof fn law_refused_report_names_its_fault(
    awaited: &mut StorageSyncAcks,
    tx_id: TransactionId,
    signer: Did,
    report: StorageSyncReport,
    taken: Result<Vec<SyncedEntryAck>, Error>,
)
    requires
        old(awaited).wf(),
        call_ensures(
            StorageSyncAcks::take_pending_storage_sync_ack,
            (awaited, tx_id, signer, &report),
            taken,
        ),
        taken is Err,
    ensures
        taken->Err_0 is InvalidMessage,
        ({
            let words = taken->Err_0->InvalidMessage_0@;
            let pending = old(awaited)@[tx_id];
            let signed = signer == report.receiver;
            let handoff = report.purpose is OwnershipHandoff;
            let known = old(awaited)@.contains_key(tx_id);
            &&& !signed ==> words == "storage sync report signer does not match receiver"@
            &&& signed && !handoff ==> words
                == "storage sync report purpose does not permit source cleanup"@
            &&& signed && handoff && !known ==> words
                == "storage sync report has no pending capability"@
            &&& signed && handoff && known && pending.purpose != report.purpose ==> words
                == "storage sync report purpose does not match pending sync"@
            &&& signed && handoff && known && pending.purpose == report.purpose
                && pending.destination != report.destination ==> words
                == "storage sync report destination does not match pending sync"@
            &&& signed && handoff && known && pending.purpose == report.purpose
                && pending.destination == report.destination && pending.expected_receiver != signer
                ==> words == "storage sync report receiver does not match pending sync"@
        }),
{
}

} // verus!

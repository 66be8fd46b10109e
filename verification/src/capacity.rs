//! Outbound capacity of one peer and of the node: who is admitted, who waits, and who has room.
//!
//! A transfer holds one slot and its bytes of its peer's capacity, and its bytes of the node's
//! capacity. A request inside its class's reservation is admitted whatever is queued. A small
//! request beyond it is admitted only while nobody waits; a larger one waits its turn, within a
//! budget for everything that waits.

use vstd::prelude::*;

use crate::class::CLASS_COUNT;
use crate::class::TransferClass;
use crate::did::Did;
use crate::error::Error;
use crate::protection::ProtectionProfile;
use crate::reserved_capacity::ClassAmounts;
use crate::reserved_capacity::CountedBounds;
use crate::reserved_capacity::CountedReservationRejection;
use crate::reserved_capacity::CountedReservedCapacity;
use crate::reserved_capacity::ReservedCapacity;
use crate::reserved_capacity::admissible_capacity;
use crate::reserved_capacity::covered;
use crate::reserved_capacity::fits;
use crate::reserved_capacity::law_lone_class_reaches_its_share;
use crate::reserved_capacity::law_reserve_and_release_keep_the_shares;
use crate::reserved_capacity::law_reserved_share_is_always_admitted;
use crate::reserved_capacity::law_within_bounds_the_total;
use crate::reserved_capacity::others_keep;
use crate::reserved_capacity::share_of;
use crate::reserved_capacity::total;
use crate::reserved_capacity::within;

verus! {

/// Most transfers of one peer, queued and delivery-waiting ones among them.
pub const OUTBOUND_TRANSFER_QUEUE_CAPACITY: usize = 256;

/// Slots that only control transfers use.
pub const OUTBOUND_CONTROL_RESERVED_TRANSFERS: usize = 16;

/// Slots that each other class keeps.
pub const OUTBOUND_DATA_RESERVED_TRANSFERS: usize = 8;

/// Slots one class other than control can ever hold.
pub const OUTBOUND_DATA_TRANSFER_CAPACITY: usize = OUTBOUND_TRANSFER_QUEUE_CAPACITY
    - OUTBOUND_CONTROL_RESERVED_TRANSFERS - 2 * OUTBOUND_DATA_RESERVED_TRANSFERS;

/// Retained bytes of one peer.
pub const OUTBOUND_PEER_BYTE_CAPACITY: usize = 128 * 1024 * 1024;

/// Wire bytes of one peer that only control transfers use; twice as many are retained.
pub const OUTBOUND_PEER_CONTROL_RESERVED_BYTES: usize = 1024 * 1024;

/// Retained bytes of one peer that each other class keeps.
pub const OUTBOUND_PEER_DATA_RESERVED_BYTES: usize = 1024 * 1024;

/// Retained bytes of the node.
pub const OUTBOUND_GLOBAL_BYTE_CAPACITY: usize = 256 * 1024 * 1024;

/// Retained bytes of the node that only control transfers use.
pub const OUTBOUND_GLOBAL_CONTROL_RESERVED_BYTES: usize = 2 * 1024 * 1024;

/// Retained bytes of the node that each other class keeps.
pub const OUTBOUND_GLOBAL_DATA_RESERVED_BYTES: usize = 1024 * 1024;

/// Most requests that wait for capacity.
pub const OUTBOUND_PENDING_TRANSFER_CAPACITY: usize = 256;

/// The slots each class keeps.
pub open spec fn slots_kept(profile: ProtectionProfile) -> Seq<usize> {
    if profile.class_reservations {
        seq![16usize, 8usize, 8usize, 8usize]
    } else {
        seq![0usize, 0usize, 0usize, 0usize]
    }
}

/// The bytes of its peer each class keeps.
pub open spec fn peer_bytes_kept(profile: ProtectionProfile) -> Seq<usize> {
    if profile.class_reservations {
        seq![2_097_152usize, 1_048_576usize, 1_048_576usize, 1_048_576usize]
    } else {
        seq![0usize, 0usize, 0usize, 0usize]
    }
}

/// The bytes of the node each class keeps.
pub open spec fn global_bytes_kept(profile: ProtectionProfile) -> Seq<usize> {
    if profile.class_reservations {
        seq![2_097_152usize, 1_048_576usize, 1_048_576usize, 1_048_576usize]
    } else {
        seq![0usize, 0usize, 0usize, 0usize]
    }
}

/// `reservations` where classes keep shares, nothing where they do not.
fn active_reservations(profile: ProtectionProfile, reservations: ClassAmounts) -> (active:
    ClassAmounts)
    ensures
        active@ == (if profile.class_reservations {
            reservations@
        } else {
            seq![0usize, 0usize, 0usize, 0usize]
        }),
{
    if profile.class_reservations {
        reservations
    } else {
        let none: ClassAmounts = [0, 0, 0, 0];
        assert(none@ =~= seq![0usize, 0usize, 0usize, 0usize]);
        none
    }
}

/// The slots each class keeps.
pub fn transfer_reservations(profile: ProtectionProfile) -> (kept: ClassAmounts)
    ensures
        kept@ == slots_kept(profile),
{
    let kept: ClassAmounts = [
        OUTBOUND_CONTROL_RESERVED_TRANSFERS,
        OUTBOUND_DATA_RESERVED_TRANSFERS,
        OUTBOUND_DATA_RESERVED_TRANSFERS,
        OUTBOUND_DATA_RESERVED_TRANSFERS,
    ];
    assert(kept@ =~= seq![16usize, 8usize, 8usize, 8usize]);
    active_reservations(profile, kept)
}

/// The bytes of its peer each class keeps.
pub fn peer_byte_reservations(profile: ProtectionProfile) -> (kept: ClassAmounts)
    ensures
        kept@ == peer_bytes_kept(profile),
{
    let kept: ClassAmounts = [
        crate::reserved_capacity::retained_wire_bytes(OUTBOUND_PEER_CONTROL_RESERVED_BYTES),
        OUTBOUND_PEER_DATA_RESERVED_BYTES,
        OUTBOUND_PEER_DATA_RESERVED_BYTES,
        OUTBOUND_PEER_DATA_RESERVED_BYTES,
    ];
    assert(kept@ =~= seq![2_097_152usize, 1_048_576usize, 1_048_576usize, 1_048_576usize]);
    active_reservations(profile, kept)
}

/// The bytes of the node each class keeps.
pub fn global_byte_reservations(profile: ProtectionProfile) -> (kept: ClassAmounts)
    ensures
        kept@ == global_bytes_kept(profile),
{
    let kept: ClassAmounts = [
        OUTBOUND_GLOBAL_CONTROL_RESERVED_BYTES,
        OUTBOUND_GLOBAL_DATA_RESERVED_BYTES,
        OUTBOUND_GLOBAL_DATA_RESERVED_BYTES,
        OUTBOUND_GLOBAL_DATA_RESERVED_BYTES,
    ];
    assert(kept@ =~= seq![2_097_152usize, 1_048_576usize, 1_048_576usize, 1_048_576usize]);
    active_reservations(profile, kept)
}

/// The slots `class` can ever hold.
pub open spec fn slot_share(profile: ProtectionProfile, class: TransferClass) -> int {
    share_of(OUTBOUND_TRANSFER_QUEUE_CAPACITY as int, slots_kept(profile), class.place())
}

/// The bytes of its peer `class` can ever hold.
pub open spec fn peer_byte_share(profile: ProtectionProfile, class: TransferClass) -> int {
    share_of(OUTBOUND_PEER_BYTE_CAPACITY as int, peer_bytes_kept(profile), class.place())
}

/// The bytes of the node `class` can ever hold.
pub open spec fn global_byte_share(profile: ProtectionProfile, class: TransferClass) -> int {
    share_of(OUTBOUND_GLOBAL_BYTE_CAPACITY as int, global_bytes_kept(profile), class.place())
}

/// The slots `class` can ever hold.
pub fn transfer_limit(profile: ProtectionProfile, class: TransferClass) -> (limit: usize)
    ensures
        limit == slot_share(profile, class),
{
    admissible_capacity(
        OUTBOUND_TRANSFER_QUEUE_CAPACITY,
        &transfer_reservations(profile),
        class.index(),
    )
}

/// The bytes of its peer `class` can ever hold.
pub fn peer_byte_limit(profile: ProtectionProfile, class: TransferClass) -> (limit: usize)
    ensures
        limit == peer_byte_share(profile, class),
{
    admissible_capacity(
        OUTBOUND_PEER_BYTE_CAPACITY,
        &peer_byte_reservations(profile),
        class.index(),
    )
}

/// The bytes of the node `class` can ever hold.
pub fn global_byte_limit(profile: ProtectionProfile, class: TransferClass) -> (limit: usize)
    ensures
        limit == global_byte_share(profile, class),
{
    admissible_capacity(
        OUTBOUND_GLOBAL_BYTE_CAPACITY,
        &global_byte_reservations(profile),
        class.index(),
    )
}

/// The largest request of `class` that either capacity can ever admit.
pub open spec fn request_limit(profile: ProtectionProfile, class: TransferClass) -> int {
    if peer_byte_share(profile, class) <= global_byte_share(profile, class) {
        peer_byte_share(profile, class)
    } else {
        global_byte_share(profile, class)
    }
}

/// The bytes a request is charged: at least one.
pub open spec fn charged(bytes: usize) -> usize {
    if bytes == 0 {
        1
    } else {
        bytes
    }
}

/// The bytes a request is charged: at least one.
fn charge(bytes: usize) -> (charge: usize)
    ensures
        charge == charged(bytes),
{
    if bytes == 0 {
        1
    } else {
        bytes
    }
}

/// The refusal of a request for bytes.
pub open spec fn memory_refusal(peer: Did, requested_bytes: usize, capacity_bytes: int) -> Error {
    Error::OutboundTransferMemoryCapacityExceeded {
        peer,
        requested_bytes,
        capacity_bytes: capacity_bytes as usize,
    }
}

/// The refusal of a request for bytes.
fn memory_capacity_error(peer: Did, requested_bytes: usize, capacity_bytes: usize) -> (error: Error)
    ensures
        error == memory_refusal(peer, requested_bytes, capacity_bytes as int),
{
    Error::OutboundTransferMemoryCapacityExceeded { peer, requested_bytes, capacity_bytes }
}

/// Fail a request that no state of the capacities could admit.
pub fn validate_memory_request(
    profile: ProtectionProfile,
    peer: Did,
    class: TransferClass,
    requested_bytes: usize,
) -> (valid: Result<(), Error>)
    ensures
        valid == (if charged(requested_bytes) > request_limit(profile, class) {
            Err(
                memory_refusal(peer, charged(requested_bytes), request_limit(profile, class)),
            )
        } else {
            Ok(())
        }),
{
    let requested_bytes: usize = charge(requested_bytes);
    let of_peer: usize = peer_byte_limit(profile, class);
    let of_node: usize = global_byte_limit(profile, class);
    let limit: usize = if of_peer <= of_node {
        of_peer
    } else {
        of_node
    };
    if requested_bytes > limit {
        return Err(memory_capacity_error(peer, requested_bytes, limit));
    }
    Ok(())
}

/// The two ways a request is admitted.
#[derive(Clone, Copy, Debug, PartialEq, Eq, Hash, Structural)]
pub enum CapacityScope {
    /// Inside the class's own reservation, whatever is queued.
    FixedReservation,
    /// From the shared capacity, through the queue.
    Shared,
}

/// Whether a request would be admitted now: by its reservation, or from the shared capacity
/// while nobody waits.
pub fn admits_now(queue_empty: bool, fixed: bool, shared: bool) -> (admits: bool)
    ensures
        admits == (fixed || (queue_empty && shared)),
{
    fixed || (queue_empty && shared)
}

/// What one transfer asks of outbound capacity.
#[derive(Clone, Copy, Debug, PartialEq, Eq, Hash, Structural)]
pub struct TransferDemand {
    /// The class it is admitted under.
    pub class: TransferClass,
    /// The bytes it reserves.
    pub bytes: usize,
}

impl TransferDemand {
    /// The demand of a transfer of `class` reserving `bytes`, as it is charged.
    pub fn new(class: TransferClass, bytes: usize) -> (demand: Self)
        ensures
            demand.class == class,
            demand.bytes == charged(bytes),
    {
        TransferDemand { class, bytes: charge(bytes) }
    }

    /// The class it is admitted under.
    pub fn class(self) -> (class: TransferClass)
        ensures
            class == self.class,
    {
        self.class
    }

    /// The bytes it reserves.
    pub fn bytes(self) -> (bytes: usize)
        ensures
            bytes == self.bytes,
    {
        self.bytes
    }
}

/// One request that waits for capacity.
#[derive(Clone, Copy, Debug, PartialEq, Eq, Hash, Structural)]
pub struct Waiter {
    /// The request's number.
    pub ticket: u64,
    /// The bytes it asks for.
    pub bytes: usize,
}

/// What may wait, over every queue of a node.
#[derive(Clone, Copy, Debug, PartialEq, Eq, Hash, Structural)]
pub struct FairWaitBudget {
    /// The most requests.
    pub count_limit: usize,
    /// The most bytes.
    pub byte_limit: usize,
    /// The requests that wait.
    pub count: usize,
    /// The bytes that wait.
    pub bytes: usize,
}

impl FairWaitBudget {
    /// One more request of `bytes` may wait.
    pub open spec fn accepts(self, bytes: usize) -> bool {
        self.count < self.count_limit && self.bytes + bytes <= self.byte_limit
    }

    /// The budget once one more request of `bytes` waits.
    pub open spec fn joined(self, bytes: usize) -> FairWaitBudget {
        FairWaitBudget {
            count: (self.count + 1) as usize,
            bytes: (self.bytes + bytes) as usize,
            ..self
        }
    }

    /// The budget once one request of `bytes` waits no more.
    pub open spec fn left(self, bytes: usize) -> FairWaitBudget {
        FairWaitBudget {
            count: if self.count > 0 {
                (self.count - 1) as usize
            } else {
                0
            },
            bytes: if self.bytes >= bytes {
                (self.bytes - bytes) as usize
            } else {
                0
            },
            ..self
        }
    }
}

/// The requests that wait for one capacity, first come first.
pub struct FairWaitQueue {
    waiting: Vec<Waiter>,
}

/// The place of `ticket` among `waiting`, or their number where it does not wait.
pub open spec fn place_of(waiting: Seq<Waiter>, ticket: u64) -> int
    decreases waiting.len(),
{
    if waiting.len() == 0 {
        0
    } else if waiting[0].ticket == ticket {
        0
    } else {
        1 + place_of(waiting.drop_first(), ticket)
    }
}

proof fn lemma_place_of(waiting: Seq<Waiter>, ticket: u64, index: int)
    requires
        0 <= index <= waiting.len(),
        forall|i: int| 0 <= i < index ==> (#[trigger] waiting[i]).ticket != ticket,
        index < waiting.len() ==> waiting[index].ticket == ticket,
    ensures
        place_of(waiting, ticket) == index,
    decreases waiting.len(),
{
    if waiting.len() > 0 && waiting[0].ticket != ticket {
        let rest = waiting.drop_first();
        assert forall|i: int| 0 <= i < index - 1 implies (#[trigger] rest[i]).ticket != ticket by {
            assert(rest[i] == waiting[i + 1]);
        }
        lemma_place_of(rest, ticket, index - 1);
    }
}

impl FairWaitQueue {
    /// The waiting requests, front first.
    pub closed spec fn view(&self) -> Seq<Waiter> {
        self.waiting@
    }

    /// Nobody waits.
    pub fn new() -> (queue: Self)
        ensures
            queue@ == Seq::<Waiter>::empty(),
    {
        FairWaitQueue { waiting: Vec::new() }
    }

    /// Whether nobody waits.
    pub fn is_empty(&self) -> (empty: bool)
        ensures
            empty == (self@.len() == 0),
    {
        self.waiting.len() == 0
    }

    /// Whether `ticket` is next.
    pub fn is_front(&self, ticket: u64) -> (front: bool)
        ensures
            front == (self@.len() > 0 && self@[0].ticket == ticket),
    {
        self.waiting.len() > 0 && self.waiting[0].ticket == ticket
    }

    /// Wait last, if the budget lets one more request of `bytes` wait.
    fn join(&mut self, budget: &mut FairWaitBudget, ticket: u64, bytes: usize) -> (joined: bool)
        ensures
            joined == old(budget).accepts(bytes),
            final(self)@ == (if joined {
                old(self)@.push(Waiter { ticket, bytes })
            } else {
                old(self)@
            }),
            *final(budget) == (if joined {
                old(budget).joined(bytes)
            } else {
                *old(budget)
            }),
    {
        if budget.count >= budget.count_limit {
            return false;
        }
        let waiting_bytes: usize = match budget.bytes.checked_add(bytes) {
            Some(waiting_bytes) => waiting_bytes,
            None => {
                return false;
            },
        };
        if waiting_bytes > budget.byte_limit {
            return false;
        }
        budget.count = budget.count + 1;
        budget.bytes = waiting_bytes;
        self.waiting.push(Waiter { ticket, bytes });
        true
    }

    /// Wait no more.
    fn leave(&mut self, budget: &mut FairWaitBudget, ticket: u64) -> (left: bool)
        ensures
            left == (place_of(old(self)@, ticket) < old(self)@.len()),
            final(self)@ == (if left {
                old(self)@.remove(place_of(old(self)@, ticket))
            } else {
                old(self)@
            }),
            *final(budget) == (if left {
                old(budget).left(old(self)@[place_of(old(self)@, ticket)].bytes)
            } else {
                *old(budget)
            }),
    {
        let mut index: usize = 0;
        while index < self.waiting.len()
            invariant
                index <= self.waiting@.len(),
                *self == *old(self),
                *budget == *old(budget),
                forall|i: int| 0 <= i < index ==> (#[trigger] self.waiting@[i]).ticket != ticket,
            decreases self.waiting@.len() - index,
        {
            if self.waiting[index].ticket == ticket {
                proof {
                    lemma_place_of(self@, ticket, index as int);
                }
                let waiter = self.waiting.remove(index);
                budget.count = budget.count.saturating_sub(1);
                budget.bytes = budget.bytes.saturating_sub(waiter.bytes);
                return true;
            }
            index += 1;
        }
        proof {
            lemma_place_of(self@, ticket, index as int);
        }
        false
    }
}

/// What a request for capacity comes to.
pub enum AcquireStep<P> {
    /// It is admitted.
    Admitted(P),
    /// It is refused.
    Refused(Error),
    /// It waits under this number.
    Waiting(u64),
}

/// The node's bytes one transfer holds.
#[derive(Debug)]
pub struct GlobalCapacityPermit {
    class: TransferClass,
    bytes: usize,
}

impl GlobalCapacityPermit {
    /// The class it is held under.
    pub closed spec fn of_class(&self) -> TransferClass {
        self.class
    }

    /// The bytes held.
    pub closed spec fn amount(&self) -> usize {
        self.bytes
    }
}

/// Why the node's capacity refuses `bytes` of `class` in `scope`, if it does.
pub open spec fn global_refusal(
    admitted: Seq<usize>,
    profile: ProtectionProfile,
    peer: Did,
    class: TransferClass,
    bytes: usize,
    scope: CapacityScope,
) -> Option<Error> {
    if scope == CapacityScope::FixedReservation && !covered(
        admitted,
        class.place(),
        bytes as int,
        global_bytes_kept(profile),
    ) {
        Some(memory_refusal(peer, bytes, global_byte_share(profile, class)))
    } else if !fits(
        admitted,
        class.place(),
        bytes as int,
        OUTBOUND_GLOBAL_BYTE_CAPACITY as int,
        global_bytes_kept(profile),
    ) {
        Some(memory_refusal(peer, bytes, global_byte_share(profile, class)))
    } else {
        None
    }
}

/// `amounts` with `bytes` more of `class`.
pub open spec fn raised(amounts: Seq<usize>, class: TransferClass, bytes: int) -> Seq<usize> {
    amounts.update(class.place(), (amounts[class.place()] + bytes) as usize)
}

/// `amounts` with `bytes` less of `class`.
pub open spec fn lowered(amounts: Seq<usize>, class: TransferClass, bytes: int) -> Seq<usize> {
    amounts.update(class.place(), (amounts[class.place()] - bytes) as usize)
}

/// The node's outbound capacity.
pub struct GlobalTransferCapacity {
    profile: ProtectionProfile,
    state: ReservedCapacity,
    waiters: FairWaitQueue,
    wait_budget: FairWaitBudget,
    next_ticket: u64,
}

impl GlobalTransferCapacity {
    /// The bytes of each class.
    pub closed spec fn held(&self) -> Seq<usize> {
        self.state@
    }

    /// The protections in force.
    pub closed spec fn rules(&self) -> ProtectionProfile {
        self.profile
    }

    /// The requests that wait for the node's bytes.
    pub closed spec fn queue(&self) -> Seq<Waiter> {
        self.waiters@
    }

    /// What waits, here and in every peer's queue.
    pub closed spec fn budget(&self) -> FairWaitBudget {
        self.wait_budget
    }

    /// The number the next waiting request gets.
    pub closed spec fn ticket_to_give(&self) -> u64 {
        self.next_ticket
    }

    /// What is held and what is kept fit the capacity together.
    pub open spec fn wf(&self) -> bool {
        &&& self.counted()
        &&& self.held().len() == CLASS_COUNT
        &&& within(
            self.held(),
            OUTBOUND_GLOBAL_BYTE_CAPACITY as int,
            global_bytes_kept(self.rules()),
        )
    }

    /// One amount per class, countable together.
    pub closed spec fn counted(&self) -> bool {
        self.state.wf()
    }

    /// `self` differs from `before` at most in the bytes held.
    pub open spec fn same_but_held(&self, before: &Self) -> bool {
        &&& self.rules() == before.rules()
        &&& self.queue() == before.queue()
        &&& self.budget() == before.budget()
        &&& self.ticket_to_give() == before.ticket_to_give()
    }

    /// An idle node under every protection.
    pub fn new() -> (capacity: Self)
        ensures
            capacity.wf(),
            capacity.idle_under(ProtectionProfile::full()),
    {
        Self::with_profile(ProtectionProfile::production())
    }

    /// Nothing is held and nobody waits.
    pub open spec fn idle_under(&self, profile: ProtectionProfile) -> bool {
        &&& self.rules() == profile
        &&& self.held() == seq![0usize, 0usize, 0usize, 0usize]
        &&& self.queue() == Seq::<Waiter>::empty()
        &&& self.budget() == FairWaitBudget {
            count_limit: OUTBOUND_PENDING_TRANSFER_CAPACITY,
            byte_limit: OUTBOUND_GLOBAL_BYTE_CAPACITY,
            count: 0,
            bytes: 0,
        }
        &&& self.ticket_to_give() == 0
    }

    /// An idle node under the protections of `profile`.
    pub fn with_profile(profile: ProtectionProfile) -> (capacity: Self)
        ensures
            capacity.wf(),
            capacity.idle_under(profile),
    {
        proof {
            reveal(within);
        }
        GlobalTransferCapacity {
            profile,
            state: ReservedCapacity::new(),
            waiters: FairWaitQueue::new(),
            wait_budget: FairWaitBudget {
                count_limit: OUTBOUND_PENDING_TRANSFER_CAPACITY,
                byte_limit: OUTBOUND_GLOBAL_BYTE_CAPACITY,
                count: 0,
                bytes: 0,
            },
            next_ticket: 0,
        }
    }

    /// The protections in force.
    pub fn profile(&self) -> (profile: ProtectionProfile)
        ensures
            profile == self.rules(),
    {
        self.profile
    }

    /// The node's bytes that are held.
    pub fn admitted_bytes(&self) -> (admitted: usize)
        requires
            self.wf(),
        ensures
            admitted == total(self.held()),
            admitted <= OUTBOUND_GLOBAL_BYTE_CAPACITY,
    {
        proof {
            law_within_bounds_the_total(
                self.held(),
                OUTBOUND_GLOBAL_BYTE_CAPACITY as int,
                global_bytes_kept(self.profile),
            );
        }
        self.state.admitted()
    }

    /// Decide one reservation step: the state after it, or the refusal.
    fn reserved(
        &self,
        peer: Did,
        class: TransferClass,
        bytes: usize,
        scope: CapacityScope,
    ) -> (step: Result<ReservedCapacity, Error>)
        requires
            self.wf(),
        ensures
            match global_refusal(self.held(), self.rules(), peer, class, bytes, scope) {
                Some(refusal) => step == Err::<ReservedCapacity, Error>(refusal),
                None => step matches Ok(next) && next.wf() && next@ == raised(
                    self.held(),
                    class,
                    bytes as int,
                ) && within(
                    next@,
                    OUTBOUND_GLOBAL_BYTE_CAPACITY as int,
                    global_bytes_kept(self.rules()),
                ) && self.held()[class.place()] + bytes <= OUTBOUND_GLOBAL_BYTE_CAPACITY,
            },
    {
        let reservations: ClassAmounts = global_byte_reservations(self.profile);
        if scope == CapacityScope::FixedReservation && !self.state.reservation_covers(
            class.index(),
            bytes,
            &reservations,
        ) {
            return Err(
                memory_capacity_error(peer, bytes, global_byte_limit(self.profile, class)),
            );
        }
        let mut next = self.state;
        if !next.try_reserve(class.index(), bytes, OUTBOUND_GLOBAL_BYTE_CAPACITY, &reservations) {
            return Err(
                memory_capacity_error(peer, bytes, global_byte_limit(self.profile, class)),
            );
        }
        Ok(next)
    }

    /// `demand` of `peer` would be admitted now.
    pub open spec fn room(&self, demand: TransferDemand) -> bool {
        let free = |scope: CapacityScope|
            global_refusal(
                self.held(),
                self.rules(),
                arbitrary(),
                demand.class,
                demand.bytes,
                scope,
            ) is None;
        free(CapacityScope::FixedReservation) || (self.queue().len() == 0 && free(
            CapacityScope::Shared,
        ))
    }

    /// Whether `demand` of `peer` would be admitted now, without admitting it.
    pub fn has_room(&self, peer: Did, demand: TransferDemand) -> (room: bool)
        requires
            self.wf(),
        ensures
            room == self.room(demand),
    {
        admits_now(
            self.waiters.is_empty(),
            self.reserved(peer, demand.class, demand.bytes, CapacityScope::FixedReservation).is_ok(),
            self.reserved(peer, demand.class, demand.bytes, CapacityScope::Shared).is_ok(),
        )
    }

    /// Admit `bytes` of `class` in `scope`, or refuse.
    pub fn try_acquire_inner(
        &mut self,
        peer: Did,
        class: TransferClass,
        bytes: usize,
        scope: CapacityScope,
    ) -> (acquired: Result<GlobalCapacityPermit, Error>)
        requires
            old(self).wf(),
        ensures
            final(self).wf(),
            final(self).same_but_held(old(self)),
            match global_refusal(old(self).held(), old(self).rules(), peer, class, bytes, scope) {
                Some(refusal) => acquired == Err::<GlobalCapacityPermit, Error>(refusal)
                    && final(self).held() == old(self).held(),
                None => acquired matches Ok(permit) && permit.of_class() == class
                    && permit.amount() == bytes && final(self).held() == raised(
                    old(self).held(),
                    class,
                    bytes as int,
                ) && final(self).holds(permit),
            },
    {
        match self.reserved(peer, class, bytes, scope) {
            Ok(next) => {
                self.state = next;
                Ok(GlobalCapacityPermit { class, bytes })
            },
            Err(refusal) => Err(refusal),
        }
    }

    /// Ask for `bytes` of `class`: first inside the reservation; then, if the class could ever
    /// reserve as much, from the shared capacity while nobody waits; else in turn.
    pub fn acquire(&mut self, peer: Did, class: TransferClass, bytes: usize) -> (step: AcquireStep<
        GlobalCapacityPermit,
    >)
        requires
            old(self).wf(),
        ensures
            final(self).wf(),
            final(self).rules() == old(self).rules(),
            step matches AcquireStep::Admitted(permit) ==> final(self).holds(permit),
            ({
                let before = *old(self);
                let after = *final(self);
                let refusal = |scope: CapacityScope|
                    global_refusal(before.held(), before.rules(), peer, class, bytes, scope);
                let small = bytes <= global_bytes_kept(before.rules())[class.place()];
                if refusal(CapacityScope::FixedReservation) is None || (before.queue().len() == 0
                    && refusal(CapacityScope::Shared) is None) {
                    &&& step matches AcquireStep::Admitted(permit) && permit.of_class() == class
                        && permit.amount() == bytes
                    &&& after.held() == raised(before.held(), class, bytes as int)
                    &&& after.same_but_held(&before)
                } else if small || !before.budget().accepts(bytes) || before.ticket_to_give()
                    == u64::MAX {
                    &&& step == AcquireStep::<GlobalCapacityPermit>::Refused(
                        memory_refusal(peer, bytes, global_byte_share(before.rules(), class)),
                    )
                    &&& after.held() == before.held()
                    &&& after.same_but_held(&before)
                } else {
                    &&& step == AcquireStep::<GlobalCapacityPermit>::Waiting(
                        before.ticket_to_give(),
                    )
                    &&& after.held() == before.held()
                    &&& after.queue() == before.queue().push(
                        Waiter { ticket: before.ticket_to_give(), bytes },
                    )
                    &&& after.budget() == before.budget().joined(bytes)
                    &&& after.ticket_to_give() == before.ticket_to_give() + 1
                }
            }),
    {
        if let Ok(permit) = self.try_acquire_inner(
            peer,
            class,
            bytes,
            CapacityScope::FixedReservation,
        ) {
            return AcquireStep::Admitted(permit);
        }
        if self.waiters.is_empty() {
            if let Ok(permit) = self.try_acquire_inner(peer, class, bytes, CapacityScope::Shared) {
                return AcquireStep::Admitted(permit);
            }
        }
        let refusal: Error = memory_capacity_error(
            peer,
            bytes,
            global_byte_limit(self.profile, class),
        );
        if bytes <= global_byte_reservations(self.profile)[class.index()] {
            return AcquireStep::Refused(refusal);
        }
        let ticket: u64 = self.next_ticket;
        match ticket.checked_add(1) {
            Some(next_ticket) => {
                if !self.waiters.join(&mut self.wait_budget, ticket, bytes) {
                    return AcquireStep::Refused(refusal);
                }
                self.next_ticket = next_ticket;
                AcquireStep::Waiting(ticket)
            },
            None => AcquireStep::Refused(refusal),
        }
    }

    /// Ask again for the request that waits under `ticket`: only the front is admitted.
    pub fn resume(&mut self, ticket: u64, peer: Did, class: TransferClass, bytes: usize) -> (admitted:
        Option<GlobalCapacityPermit>)
        requires
            old(self).wf(),
        ensures
            final(self).wf(),
            final(self).rules() == old(self).rules(),
            final(self).ticket_to_give() == old(self).ticket_to_give(),
            admitted is Some <==> old(self).queue().len() > 0 && old(self).queue()[0].ticket
                == ticket && global_refusal(
                old(self).held(),
                old(self).rules(),
                peer,
                class,
                bytes,
                CapacityScope::Shared,
            ) is None,
            match admitted {
                Some(permit) => {
                    &&& permit.of_class() == class
                    &&& permit.amount() == bytes
                    &&& final(self).holds(permit)
                    &&& final(self).held() == raised(old(self).held(), class, bytes as int)
                    &&& final(self).queue() == old(self).queue().remove(0)
                    &&& final(self).budget() == old(self).budget().left(old(self).queue()[0].bytes)
                },
                None => {
                    &&& final(self).held() == old(self).held()
                    &&& final(self).same_but_held(old(self))
                },
            },
    {
        if !self.waiters.is_front(ticket) {
            return None;
        }
        match self.try_acquire_inner(peer, class, bytes, CapacityScope::Shared) {
            Ok(permit) => {
                proof {
                    lemma_place_of(self.waiters@, ticket, 0);
                }
                let _ = self.waiters.leave(&mut self.wait_budget, ticket);
                Some(permit)
            },
            Err(_) => None,
        }
    }

    /// Stop waiting under `ticket`.
    pub fn cancel_wait(&mut self, ticket: u64)
        requires
            old(self).wf(),
        ensures
            final(self).wf(),
            final(self).rules() == old(self).rules(),
            final(self).held() == old(self).held(),
            final(self).ticket_to_give() == old(self).ticket_to_give(),
            ({
                let place = place_of(old(self).queue(), ticket);
                if place < old(self).queue().len() {
                    &&& final(self).queue() == old(self).queue().remove(place)
                    &&& final(self).budget() == old(self).budget().left(
                        old(self).queue()[place].bytes,
                    )
                } else {
                    &&& final(self).queue() == old(self).queue()
                    &&& final(self).budget() == old(self).budget()
                }
            }),
    {
        let _ = self.waiters.leave(&mut self.wait_budget, ticket);
    }

    /// The bytes of `permit` are held.
    pub open spec fn holds(&self, permit: GlobalCapacityPermit) -> bool {
        permit.amount() <= self.held()[permit.of_class().place()]
    }

    /// Give back the bytes of `permit`.
    pub fn release(&mut self, permit: GlobalCapacityPermit)
        requires
            old(self).wf(),
            old(self).holds(permit),
        ensures
            final(self).wf(),
            final(self).same_but_held(old(self)),
            final(self).held() == lowered(
                old(self).held(),
                permit.of_class(),
                permit.amount() as int,
            ),
    {
        proof {
            law_reserve_and_release_keep_the_shares(
                self.held(),
                permit.class.place(),
                permit.bytes as int,
                OUTBOUND_GLOBAL_BYTE_CAPACITY as int,
                global_bytes_kept(self.profile),
            );
        }
        self.state.release(permit.class.index(), permit.bytes);
    }
}

/// The slot and bytes of its peer one transfer holds.
#[derive(Debug)]
pub struct PeerCapacityPermit {
    class: TransferClass,
    bytes: usize,
}

impl PeerCapacityPermit {
    /// The class it is held under.
    pub closed spec fn of_class(&self) -> TransferClass {
        self.class
    }

    /// The bytes held.
    pub closed spec fn amount(&self) -> usize {
        self.bytes
    }
}

/// What one transfer holds until it ends.
#[derive(Debug)]
pub struct TransferCapacityPermit {
    peer: PeerCapacityPermit,
    global: GlobalCapacityPermit,
    reached_link: bool,
}

impl TransferCapacityPermit {
    /// What it holds of its peer.
    pub closed spec fn of_peer(&self) -> PeerCapacityPermit {
        self.peer
    }

    /// What it holds of the node.
    pub closed spec fn of_node(&self) -> GlobalCapacityPermit {
        self.global
    }

    /// A frame of the transfer reached the link.
    pub closed spec fn on_link(&self) -> bool {
        self.reached_link
    }

    /// The permit of a transfer of which a frame reached the link.
    pub closed spec fn reached(self) -> TransferCapacityPermit {
        TransferCapacityPermit { reached_link: true, ..self }
    }

    /// Note that a frame of the transfer reached the link.
    pub fn mark_reached_link(&mut self)
        ensures
            *final(self) == old(self).reached(),
            final(self).on_link(),
            final(self).of_peer() == old(self).of_peer(),
            final(self).of_node() == old(self).of_node(),
    {
        self.reached_link = true;
    }
}

/// A permit whose transfer reached the link holds what it held before.
pub proof fn law_reaching_the_link_holds_the_same(permit: TransferCapacityPermit)
    ensures
        permit.reached().on_link(),
        permit.reached().of_peer() == permit.of_peer(),
        permit.reached().of_node() == permit.of_node(),
{
}

/// Why a peer's capacity refuses one transfer of `bytes` in `scope`, if it does.
pub open spec fn peer_refusal(
    counts: Seq<usize>,
    sizes: Seq<usize>,
    profile: ProtectionProfile,
    peer: Did,
    class: TransferClass,
    bytes: usize,
    scope: CapacityScope,
) -> Option<Error> {
    if scope == CapacityScope::FixedReservation && !(covered(
        counts,
        class.place(),
        1,
        slots_kept(profile),
    ) && covered(sizes, class.place(), bytes as int, peer_bytes_kept(profile))) {
        Some(memory_refusal(peer, bytes, peer_byte_share(profile, class)))
    } else if !fits(
        counts,
        class.place(),
        1,
        OUTBOUND_TRANSFER_QUEUE_CAPACITY as int,
        slots_kept(profile),
    ) {
        Some(
            Error::OutboundTransferCapacityExceeded {
                peer,
                capacity: slot_share(profile, class) as usize,
            },
        )
    } else if !fits(
        sizes,
        class.place(),
        bytes as int,
        OUTBOUND_PEER_BYTE_CAPACITY as int,
        peer_bytes_kept(profile),
    ) {
        Some(memory_refusal(peer, bytes, peer_byte_share(profile, class)))
    } else {
        None
    }
}

/// Why a peer's or the node's capacity refuses one transfer of `bytes` at once, if either does.
pub open spec fn joint_refusal(
    capacity: &TransferCapacity,
    global: &GlobalTransferCapacity,
    peer: Did,
    class: TransferClass,
    bytes: usize,
) -> Option<Error> {
    let limit = request_limit(capacity.rules(), class);
    let by_peer = peer_refusal(
        capacity.state().counts(),
        capacity.state().sizes(),
        capacity.rules(),
        peer,
        class,
        bytes,
        CapacityScope::Shared,
    );
    if bytes > limit {
        Some(memory_refusal(peer, bytes, limit))
    } else if by_peer is Some {
        by_peer
    } else {
        global_refusal(
            global.held(),
            global.rules(),
            peer,
            class,
            bytes,
            CapacityScope::Shared,
        )
    }
}

/// What one peer's transfers hold, and how many of them ended on its link.
#[derive(Clone, Copy, Debug)]
pub struct PeerCapacityState {
    capacity: CountedReservedCapacity,
    drained: u64,
}

impl PeerCapacityState {
    /// The transfers of each class.
    pub closed spec fn counts(&self) -> Seq<usize> {
        self.capacity.counts()
    }

    /// The bytes of each class.
    pub closed spec fn sizes(&self) -> Seq<usize> {
        self.capacity.sizes()
    }

    /// The transfers that reached the link and ended.
    pub closed spec fn ended_on_link(&self) -> u64 {
        self.drained
    }

    /// One amount per class, countable together.
    pub closed spec fn counted(&self) -> bool {
        self.capacity.wf()
    }

    /// What is held and what is kept fit both bounds together.
    pub open spec fn wf(&self, profile: ProtectionProfile) -> bool {
        &&& self.counted()
        &&& self.counts().len() == CLASS_COUNT
        &&& self.sizes().len() == CLASS_COUNT
        &&& within(
            self.counts(),
            OUTBOUND_TRANSFER_QUEUE_CAPACITY as int,
            slots_kept(profile),
        )
        &&& within(
            self.sizes(),
            OUTBOUND_PEER_BYTE_CAPACITY as int,
            peer_bytes_kept(profile),
        )
    }

    /// Nothing is held and nothing has ended.
    pub open spec fn fresh(&self) -> bool {
        &&& self.counts() == seq![0usize, 0usize, 0usize, 0usize]
        &&& self.sizes() == seq![0usize, 0usize, 0usize, 0usize]
        &&& self.ended_on_link() == 0
    }

    /// Nothing is held and nothing has ended.
    pub fn new() -> (state: Self)
        ensures
            state.fresh(),
            forall|profile: ProtectionProfile| #[trigger] state.wf(profile),
    {
        proof {
            reveal(within);
        }
        PeerCapacityState { capacity: CountedReservedCapacity::new(), drained: 0 }
    }

    fn bounds(profile: ProtectionProfile) -> (bounds: CountedBounds)
        ensures
            bounds.count == OUTBOUND_TRANSFER_QUEUE_CAPACITY,
            bounds.count_reservations@ == slots_kept(profile),
            bounds.bytes == OUTBOUND_PEER_BYTE_CAPACITY,
            bounds.byte_reservations@ == peer_bytes_kept(profile),
    {
        CountedBounds {
            count: OUTBOUND_TRANSFER_QUEUE_CAPACITY,
            count_reservations: transfer_reservations(profile),
            bytes: OUTBOUND_PEER_BYTE_CAPACITY,
            byte_reservations: peer_byte_reservations(profile),
        }
    }

    /// Whether one transfer of `bytes` stays inside both reservations of `class`.
    pub fn reservation_covers(
        &self,
        profile: ProtectionProfile,
        class: TransferClass,
        bytes: usize,
    ) -> (covers: bool)
        ensures
            covers == (covered(self.counts(), class.place(), 1, slots_kept(profile)) && covered(
                self.sizes(),
                class.place(),
                bytes as int,
                peer_bytes_kept(profile),
            )),
    {
        self.capacity.reservation_covers(class.index(), bytes, &Self::bounds(profile))
    }

    /// Decide one reservation step: the state after it, or the refusal.
    pub fn reserved(
        self,
        profile: ProtectionProfile,
        peer: Did,
        class: TransferClass,
        bytes: usize,
        scope: CapacityScope,
    ) -> (step: Result<PeerCapacityState, Error>)
        requires
            self.wf(profile),
        ensures
            match peer_refusal(self.counts(), self.sizes(), profile, peer, class, bytes, scope) {
                Some(refusal) => step == Err::<PeerCapacityState, Error>(refusal),
                None => step matches Ok(next) && next.wf(profile) && next.counts() == raised(
                    self.counts(),
                    class,
                    1,
                ) && next.sizes() == raised(self.sizes(), class, bytes as int)
                    && next.ended_on_link() == self.ended_on_link()
                    && self.counts()[class.place()] + 1 <= OUTBOUND_TRANSFER_QUEUE_CAPACITY
                    && self.sizes()[class.place()] + bytes <= OUTBOUND_PEER_BYTE_CAPACITY,
            },
    {
        if scope == CapacityScope::FixedReservation && !self.reservation_covers(
            profile,
            class,
            bytes,
        ) {
            return Err(memory_capacity_error(peer, bytes, peer_byte_limit(profile, class)));
        }
        let mut next = self;
        proof {
            law_reserve_and_release_keep_the_shares(
                self.counts(),
                class.place(),
                1,
                OUTBOUND_TRANSFER_QUEUE_CAPACITY as int,
                slots_kept(profile),
            );
            law_reserve_and_release_keep_the_shares(
                self.sizes(),
                class.place(),
                bytes as int,
                OUTBOUND_PEER_BYTE_CAPACITY as int,
                peer_bytes_kept(profile),
            );
        }
        match next.capacity.try_reserve(class.index(), bytes, &Self::bounds(profile)) {
            Ok(()) => Ok(next),
            Err(CountedReservationRejection::Count) => Err(
                Error::OutboundTransferCapacityExceeded {
                    peer,
                    capacity: transfer_limit(profile, class),
                },
            ),
            Err(CountedReservationRejection::Bytes) => Err(
                memory_capacity_error(peer, bytes, peer_byte_limit(profile, class)),
            ),
        }
    }
}

/// What a peer's channel shows against a stamp.
#[derive(Clone, Copy, Debug, PartialEq, Eq, Hash, Structural)]
pub struct PeerProgress {
    /// As many transfers ended on the link since the stamp as were ahead at the stamp.
    pub drained: bool,
    /// No transfer of the peer holds capacity.
    pub idle: bool,
}

/// A reading of one peer's channel, taken after a refusal: what was ahead, and what had ended.
#[derive(Clone, Copy, Debug, PartialEq, Eq, Hash, Structural)]
pub struct PeerStamp {
    capacity: Option<u64>,
    drained: u64,
    ahead: u64,
}

impl PeerStamp {
    /// The stamped capacity's number, if there was one.
    pub closed spec fn stamped(self) -> Option<u64> {
        self.capacity
    }

    /// The transfers that had ended on the link.
    pub closed spec fn ended(self) -> u64 {
        self.drained
    }

    /// The transfers that held capacity.
    pub closed spec fn waited_for(self) -> u64 {
        self.ahead
    }

    /// Stamp `capacity`, the peer's capacity now if it has one.
    pub fn of(capacity: Option<&TransferCapacity>) -> (stamp: Self)
        requires
            capacity matches Some(capacity) ==> capacity.wf(),
        ensures
            match capacity {
                Some(capacity) => {
                    &&& stamp.stamped() == Some(capacity.number())
                    &&& stamp.ended() == capacity.state().ended_on_link()
                    &&& stamp.waited_for() == total(capacity.state().counts())
                },
                None => {
                    &&& stamp.stamped() is None
                    &&& stamp.ended() == 0
                    &&& stamp.waited_for() == 0
                },
            },
    {
        match capacity {
            Some(capacity) => PeerStamp {
                capacity: Some(capacity.id),
                drained: capacity.state.drained,
                ahead: capacity.admitted() as u64,
            },
            None => PeerStamp { capacity: None, drained: 0, ahead: 0 },
        }
    }

    /// The progress `now`, the peer's capacity now, shows: a capacity that is gone is drained
    /// and idle.
    pub open spec fn progress_at(self, now: Option<&TransferCapacity>) -> PeerProgress {
        match now {
            Some(capacity) if self.stamped() == Some(capacity.number()) => PeerProgress {
                drained: capacity.state().ended_on_link() - self.ended() >= self.waited_for()
                    || self.waited_for() == 0,
                idle: total(capacity.state().counts()) == 0,
            },
            _ => PeerProgress { drained: true, idle: true },
        }
    }

    /// The peer's progress against this stamp.
    pub fn progress(&self, now: Option<&TransferCapacity>) -> (progress: PeerProgress)
        requires
            now matches Some(capacity) ==> capacity.wf(),
        ensures
            progress == self.progress_at(now),
    {
        match (self.capacity, now) {
            (Some(stamped), Some(capacity)) => {
                if stamped == capacity.id {
                    PeerProgress {
                        drained: capacity.state.drained.saturating_sub(self.drained) >= self.ahead,
                        idle: capacity.admitted() == 0,
                    }
                } else {
                    PeerProgress { drained: true, idle: true }
                }
            },
            _ => PeerProgress { drained: true, idle: true },
        }
    }
}

/// Where a request for both capacities stands.
pub enum AcquireProgress {
    /// It holds both.
    Acquired(TransferCapacityPermit),
    /// It waits for its peer's capacity under this number.
    AwaitingPeer(u64),
    /// It holds its peer's capacity and waits for the node's under this number.
    AwaitingNode(u64, PeerCapacityPermit),
    /// It is refused and holds nothing.
    Refused(Error),
}

/// One peer's outbound capacity.
pub struct TransferCapacity {
    id: u64,
    profile: ProtectionProfile,
    state: PeerCapacityState,
    waiters: FairWaitQueue,
}

impl TransferCapacity {
    /// The number that tells this capacity from a later one of the same peer.
    pub closed spec fn number(&self) -> u64 {
        self.id
    }

    /// What the peer's transfers hold.
    pub closed spec fn state(&self) -> PeerCapacityState {
        self.state
    }

    /// The protections in force.
    pub closed spec fn rules(&self) -> ProtectionProfile {
        self.profile
    }

    /// The requests that wait for the peer's capacity.
    pub closed spec fn queue(&self) -> Seq<Waiter> {
        self.waiters@
    }

    /// What is held and what is kept fit both bounds together.
    pub open spec fn wf(&self) -> bool {
        self.state().wf(self.rules())
    }

    /// `self` differs from `before` at most in what is held.
    pub open spec fn same_but_state(&self, before: &Self) -> bool {
        &&& self.number() == before.number()
        &&& self.rules() == before.rules()
        &&& self.queue() == before.queue()
    }

    /// An idle capacity under the node's protections.
    pub fn new(id: u64, global: &GlobalTransferCapacity) -> (capacity: Self)
        ensures
            capacity.wf(),
            capacity.number() == id,
            capacity.rules() == global.rules(),
            capacity.state().fresh(),
            capacity.queue() == Seq::<Waiter>::empty(),
    {
        TransferCapacity {
            id,
            profile: global.profile(),
            state: PeerCapacityState::new(),
            waiters: FairWaitQueue::new(),
        }
    }

    /// The number that tells this capacity from a later one of the same peer.
    pub fn id(&self) -> (id: u64)
        ensures
            id == self.number(),
    {
        self.id
    }

    /// `demand` would be admitted now by this peer's capacity and the node's.
    pub open spec fn room(&self, global: &GlobalTransferCapacity, demand: TransferDemand) -> bool {
        let free = |scope: CapacityScope|
            peer_refusal(
                self.state().counts(),
                self.state().sizes(),
                self.rules(),
                arbitrary(),
                demand.class,
                demand.bytes,
                scope,
            ) is None;
        &&& free(CapacityScope::FixedReservation) || (self.queue().len() == 0 && free(
            CapacityScope::Shared,
        ))
        &&& global.room(demand)
    }

    /// Whether `demand` would be admitted now, without admitting it.
    pub fn has_room(&self, global: &GlobalTransferCapacity, peer: Did, demand: TransferDemand) -> (room:
        bool)
        requires
            self.wf(),
            global.wf(),
        ensures
            room == self.room(global, demand),
    {
        admits_now(
            self.waiters.is_empty(),
            self.state.reserved(
                self.profile,
                peer,
                demand.class,
                demand.bytes,
                CapacityScope::FixedReservation,
            ).is_ok(),
            self.state.reserved(
                self.profile,
                peer,
                demand.class,
                demand.bytes,
                CapacityScope::Shared,
            ).is_ok(),
        ) && global.has_room(peer, demand)
    }

    /// Whether `demand` of a peer that holds no capacity would be admitted now.
    pub fn has_room_unheld(global: &GlobalTransferCapacity, peer: Did, demand: TransferDemand) -> (room:
        bool)
        requires
            global.wf(),
        ensures
            forall|fresh: TransferCapacity|
                fresh.state().fresh() && fresh.queue().len() == 0 && fresh.rules()
                    == global.rules() ==> room == #[trigger] fresh.room(global, demand),
    {
        let fresh = PeerCapacityState::new();
        let profile = global.profile();
        admits_now(
            true,
            fresh.reserved(
                profile,
                peer,
                demand.class,
                demand.bytes,
                CapacityScope::FixedReservation,
            ).is_ok(),
            fresh.reserved(
                profile,
                peer,
                demand.class,
                demand.bytes,
                CapacityScope::Shared,
            ).is_ok(),
        ) && global.has_room(peer, demand)
    }

    /// Admit one transfer of `bytes` in `scope`, or refuse.
    pub fn try_acquire_peer_inner(
        &mut self,
        peer: Did,
        class: TransferClass,
        bytes: usize,
        scope: CapacityScope,
    ) -> (acquired: Result<PeerCapacityPermit, Error>)
        requires
            old(self).wf(),
        ensures
            final(self).wf(),
            final(self).same_but_state(old(self)),
            match peer_refusal(
                old(self).state().counts(),
                old(self).state().sizes(),
                old(self).rules(),
                peer,
                class,
                bytes,
                scope,
            ) {
                Some(refusal) => acquired == Err::<PeerCapacityPermit, Error>(refusal)
                    && final(self).state() == old(self).state(),
                None => acquired matches Ok(permit) && permit.of_class() == class
                    && permit.amount() == bytes && final(self).state().counts() == raised(
                    old(self).state().counts(),
                    class,
                    1,
                ) && final(self).state().sizes() == raised(
                    old(self).state().sizes(),
                    class,
                    bytes as int,
                ) && final(self).state().ended_on_link() == old(self).state().ended_on_link()
                    && final(self).holds(permit) && old(self).state().counts()[class.place()] + 1
                    <= OUTBOUND_TRANSFER_QUEUE_CAPACITY && old(self).state().sizes()[class.place()]
                    + bytes <= OUTBOUND_PEER_BYTE_CAPACITY,
            },
    {
        match self.state.reserved(self.profile, peer, class, bytes, scope) {
            Ok(next) => {
                self.state = next;
                Ok(PeerCapacityPermit { class, bytes })
            },
            Err(refusal) => Err(refusal),
        }
    }

    /// The slot and bytes of `permit` are held.
    pub open spec fn holds(&self, permit: PeerCapacityPermit) -> bool {
        &&& 1 <= self.state().counts()[permit.of_class().place()]
        &&& permit.amount() <= self.state().sizes()[permit.of_class().place()]
    }

    /// Give back the slot and bytes of `permit`; `ended_on_link` says whether a transfer ends
    /// with it that had reached the link.
    pub fn release_peer(&mut self, permit: PeerCapacityPermit, ended_on_link: bool)
        requires
            old(self).wf(),
            old(self).holds(permit),
        ensures
            final(self).wf(),
            final(self).same_but_state(old(self)),
            final(self).state().counts() == lowered(
                old(self).state().counts(),
                permit.of_class(),
                1,
            ),
            final(self).state().sizes() == lowered(
                old(self).state().sizes(),
                permit.of_class(),
                permit.amount() as int,
            ),
            final(self).state().ended_on_link() == (if ended_on_link
                && old(self).state().ended_on_link() < u64::MAX {
                (old(self).state().ended_on_link() + 1) as u64
            } else {
                old(self).state().ended_on_link()
            }),
    {
        proof {
            law_reserve_and_release_keep_the_shares(
                self.state.counts(),
                permit.class.place(),
                1,
                OUTBOUND_TRANSFER_QUEUE_CAPACITY as int,
                slots_kept(self.profile),
            );
            law_reserve_and_release_keep_the_shares(
                self.state.sizes(),
                permit.class.place(),
                permit.bytes as int,
                OUTBOUND_PEER_BYTE_CAPACITY as int,
                peer_bytes_kept(self.profile),
            );
        }
        self.state.capacity.release(permit.class.index(), permit.bytes);
        if ended_on_link {
            self.state.drained = self.state.drained.saturating_add(1);
        }
    }

    /// Admit one transfer of `bytes` to both capacities at once, or refuse.
    pub fn try_acquire(
        &mut self,
        global: &mut GlobalTransferCapacity,
        peer: Did,
        class: TransferClass,
        bytes: usize,
    ) -> (acquired: Result<TransferCapacityPermit, Error>)
        requires
            old(self).wf(),
            old(global).wf(),
        ensures
            final(self).wf(),
            final(global).wf(),
            final(self).same_but_state(old(self)),
            final(global).same_but_held(old(global)),
            final(self).state().ended_on_link() == old(self).state().ended_on_link(),
            match joint_refusal(&*old(self), &*old(global), peer, class, charged(bytes)) {
                Some(refusal) => {
                    &&& acquired == Err::<TransferCapacityPermit, Error>(refusal)
                    &&& final(self).state().counts() == old(self).state().counts()
                    &&& final(self).state().sizes() == old(self).state().sizes()
                    &&& final(global).held() == old(global).held()
                },
                None => {
                    &&& acquired matches Ok(permit) && permit.of_peer().of_class() == class
                        && permit.of_peer().amount() == charged(bytes)
                        && permit.of_node().of_class() == class && permit.of_node().amount()
                        == charged(bytes) && !permit.on_link() && final(self).holds(
                        permit.of_peer(),
                    ) && final(global).holds(permit.of_node())
                    &&& final(self).state().counts() == raised(
                        old(self).state().counts(),
                        class,
                        1,
                    )
                    &&& final(self).state().sizes() == raised(
                        old(self).state().sizes(),
                        class,
                        charged(bytes) as int,
                    )
                    &&& final(global).held() == raised(
                        old(global).held(),
                        class,
                        charged(bytes) as int,
                    )
                },
            },
    {
        if let Err(refusal) = validate_memory_request(self.profile, peer, class, bytes) {
            return Err(refusal);
        }
        let bytes: usize = charge(bytes);
        let peer_permit = match self.try_acquire_peer_inner(
            peer,
            class,
            bytes,
            CapacityScope::Shared,
        ) {
            Ok(permit) => permit,
            Err(refusal) => {
                return Err(refusal);
            },
        };
        match global.try_acquire_inner(peer, class, bytes, CapacityScope::Shared) {
            Ok(global_permit) => Ok(
                TransferCapacityPermit {
                    peer: peer_permit,
                    global: global_permit,
                    reached_link: false,
                },
            ),
            Err(refusal) => {
                proof {
                    lemma_lowered_raised(old(self).state().counts(), class, 1);
                    lemma_lowered_raised(old(self).state().sizes(), class, bytes as int);
                }
                self.release_peer(peer_permit, false);
                Err(refusal)
            },
        }
    }

    /// Ask for one transfer of `bytes` of the peer's capacity: first inside the reservation;
    /// then, if the class could ever reserve as much, from the shared capacity while nobody
    /// waits; else in turn.
    pub fn acquire_peer(
        &mut self,
        global: &mut GlobalTransferCapacity,
        peer: Did,
        class: TransferClass,
        bytes: usize,
    ) -> (step: AcquireStep<PeerCapacityPermit>)
        requires
            old(self).wf(),
            old(global).wf(),
        ensures
            final(self).wf(),
            final(global).wf(),
            final(self).number() == old(self).number(),
            final(self).rules() == old(self).rules(),
            final(global).rules() == old(global).rules(),
            step matches AcquireStep::Admitted(permit) ==> final(self).holds(permit)
                && permit.of_class() == class && permit.amount() == bytes,
            acquired_from_peer(
                &*old(self),
                &*final(self),
                &*old(global),
                &*final(global),
                peer,
                class,
                bytes,
                step,
            ),
    {
        if let Ok(permit) = self.try_acquire_peer_inner(
            peer,
            class,
            bytes,
            CapacityScope::FixedReservation,
        ) {
            return AcquireStep::Admitted(permit);
        }
        let memory: Error = memory_capacity_error(peer, bytes, peer_byte_limit(self.profile, class));
        let small = bytes <= peer_byte_reservations(self.profile)[class.index()];
        if self.waiters.is_empty() {
            match self.try_acquire_peer_inner(peer, class, bytes, CapacityScope::Shared) {
                Ok(permit) => {
                    return AcquireStep::Admitted(permit);
                },
                Err(refusal) => {
                    if small {
                        return AcquireStep::Refused(refusal);
                    }
                },
            }
        }
        if small {
            return AcquireStep::Refused(memory);
        }
        let ticket: u64 = global.next_ticket;
        match ticket.checked_add(1) {
            Some(next_ticket) => {
                if !self.waiters.join(&mut global.wait_budget, ticket, bytes) {
                    return AcquireStep::Refused(memory);
                }
                global.next_ticket = next_ticket;
                AcquireStep::Waiting(ticket)
            },
            None => AcquireStep::Refused(memory),
        }
    }

    /// Ask for one transfer of `bytes`: of the peer's capacity first, then of the node's.
    pub fn acquire(
        &mut self,
        global: &mut GlobalTransferCapacity,
        peer: Did,
        class: TransferClass,
        bytes: usize,
    ) -> (progress: AcquireProgress)
        requires
            old(self).wf(),
            old(global).wf(),
        ensures
            final(self).wf(),
            final(global).wf(),
            final(self).number() == old(self).number(),
            final(self).rules() == old(self).rules(),
            final(global).rules() == old(global).rules(),
            backed(&*final(self), &*final(global), progress),
            acquired(
                &*old(self),
                &*final(self),
                &*old(global),
                &*final(global),
                peer,
                class,
                bytes,
                progress,
            ),
    {
        if let Err(refusal) = validate_memory_request(self.profile, peer, class, bytes) {
            return AcquireProgress::Refused(refusal);
        }
        let bytes: usize = charge(bytes);
        let step = self.acquire_peer(global, peer, class, bytes);
        self.carry_on(global, peer, class, bytes, step)
    }

    /// Carry on with a request whose peer's part came to `step`.
    fn carry_on(
        &mut self,
        global: &mut GlobalTransferCapacity,
        peer: Did,
        class: TransferClass,
        bytes: usize,
        step: AcquireStep<PeerCapacityPermit>,
    ) -> (progress: AcquireProgress)
        requires
            old(self).wf(),
            old(global).wf(),
            step matches AcquireStep::Admitted(permit) ==> old(self).holds(permit)
                && permit.of_class() == class && permit.amount() == bytes,
        ensures
            final(self).wf(),
            final(global).wf(),
            final(self).number() == old(self).number(),
            final(self).rules() == old(self).rules(),
            final(global).rules() == old(global).rules(),
            backed(&*final(self), &*final(global), progress),
            carried_on(
                &*old(self),
                &*final(self),
                &*old(global),
                &*final(global),
                peer,
                class,
                bytes,
                step,
                progress,
            ),
    {
        match step {
            AcquireStep::Admitted(permit) => self.acquire_from_node(
                global,
                peer,
                class,
                bytes,
                permit,
            ),
            AcquireStep::Waiting(ticket) => AcquireProgress::AwaitingPeer(ticket),
            AcquireStep::Refused(refusal) => AcquireProgress::Refused(refusal),
        }
    }

    /// Ask for the node's part of a transfer whose peer's part is held.
    fn acquire_from_node(
        &mut self,
        global: &mut GlobalTransferCapacity,
        peer: Did,
        class: TransferClass,
        bytes: usize,
        permit: PeerCapacityPermit,
    ) -> (progress: AcquireProgress)
        requires
            old(self).wf(),
            old(global).wf(),
            old(self).holds(permit),
            permit.of_class() == class,
            permit.amount() == bytes,
        ensures
            final(self).wf(),
            final(global).wf(),
            final(self).number() == old(self).number(),
            final(self).rules() == old(self).rules(),
            final(self).queue() == old(self).queue(),
            final(global).rules() == old(global).rules(),
            backed(&*final(self), &*final(global), progress),
            acquired_from_node(&*old(global), &*final(global), peer, class, bytes, progress),
            if progress is Refused {
                &&& final(self).state().counts() == lowered(old(self).state().counts(), class, 1)
                &&& final(self).state().sizes() == lowered(
                    old(self).state().sizes(),
                    class,
                    bytes as int,
                )
            } else {
                final(self).state() == old(self).state()
            },
            final(self).state().ended_on_link() == old(self).state().ended_on_link(),
    {
        match global.acquire(peer, class, bytes) {
            AcquireStep::Admitted(global_permit) => AcquireProgress::Acquired(
                TransferCapacityPermit {
                    peer: permit,
                    global: global_permit,
                    reached_link: false,
                },
            ),
            AcquireStep::Waiting(ticket) => AcquireProgress::AwaitingNode(ticket, permit),
            AcquireStep::Refused(refusal) => {
                self.release_peer(permit, false);
                AcquireProgress::Refused(refusal)
            },
        }
    }

    /// Ask again for the peer's part of the request that waits under `ticket`: only the front is
    /// admitted.
    pub fn resume_peer(
        &mut self,
        global: &mut GlobalTransferCapacity,
        ticket: u64,
        peer: Did,
        class: TransferClass,
        bytes: usize,
    ) -> (admitted: Option<PeerCapacityPermit>)
        requires
            old(self).wf(),
            old(global).wf(),
        ensures
            final(self).wf(),
            final(global).wf(),
            final(self).number() == old(self).number(),
            final(self).rules() == old(self).rules(),
            final(global).rules() == old(global).rules(),
            final(global).held() == old(global).held(),
            final(global).queue() == old(global).queue(),
            final(global).ticket_to_give() == old(global).ticket_to_give(),
            admitted is Some <==> old(self).queue().len() > 0 && old(self).queue()[0].ticket
                == ticket && peer_refusal(
                old(self).state().counts(),
                old(self).state().sizes(),
                old(self).rules(),
                peer,
                class,
                bytes,
                CapacityScope::Shared,
            ) is None,
            match admitted {
                Some(permit) => {
                    &&& permit.of_class() == class
                    &&& permit.amount() == bytes
                    &&& final(self).holds(permit)
                    &&& old(self).state().counts()[class.place()] + 1
                        <= OUTBOUND_TRANSFER_QUEUE_CAPACITY
                    &&& old(self).state().sizes()[class.place()] + bytes
                        <= OUTBOUND_PEER_BYTE_CAPACITY
                    &&& final(self).state().counts() == raised(
                        old(self).state().counts(),
                        class,
                        1,
                    )
                    &&& final(self).state().sizes() == raised(
                        old(self).state().sizes(),
                        class,
                        bytes as int,
                    )
                    &&& final(self).state().ended_on_link() == old(self).state().ended_on_link()
                    &&& final(self).queue() == old(self).queue().remove(0)
                    &&& final(global).budget() == old(global).budget().left(
                        old(self).queue()[0].bytes,
                    )
                },
                None => unchanged(&*old(self), &*final(self), &*old(global), &*final(global)),
            },
    {
        if !self.waiters.is_front(ticket) {
            return None;
        }
        match self.try_acquire_peer_inner(peer, class, bytes, CapacityScope::Shared) {
            Ok(permit) => {
                proof {
                    lemma_place_of(self.waiters@, ticket, 0);
                }
                let _ = self.waiters.leave(&mut global.wait_budget, ticket);
                Some(permit)
            },
            Err(_) => None,
        }
    }

    /// Ask again for the request that waits for the peer's capacity under `ticket`: once
    /// admitted there it goes on to the node's capacity.
    pub fn resume(
        &mut self,
        global: &mut GlobalTransferCapacity,
        ticket: u64,
        peer: Did,
        class: TransferClass,
        bytes: usize,
    ) -> (progress: AcquireProgress)
        requires
            old(self).wf(),
            old(global).wf(),
        ensures
            final(self).wf(),
            final(global).wf(),
            final(self).number() == old(self).number(),
            final(self).rules() == old(self).rules(),
            final(global).rules() == old(global).rules(),
            backed(&*final(self), &*final(global), progress),
            resumed(
                &*old(self),
                &*final(self),
                &*old(global),
                &*final(global),
                ticket,
                peer,
                class,
                bytes,
                progress,
            ),
    {
        match self.resume_peer(global, ticket, peer, class, bytes) {
            Some(permit) => {
                let ghost node = *global;
                let progress = self.acquire_from_node(global, peer, class, bytes, permit);
                proof {
                    assert(acquired_from_node(&node, global, peer, class, bytes, progress));
                    lemma_lowered_raised(old(self).state().counts(), class, 1);
                    lemma_lowered_raised(old(self).state().sizes(), class, bytes as int);
                }
                progress
            },
            None => AcquireProgress::AwaitingPeer(ticket),
        }
    }

    /// Ask again for the node's part of the request that waits under `ticket` and holds the peer's
    /// part `permit`: only the front is admitted.
    pub fn resume_node(
        global: &mut GlobalTransferCapacity,
        ticket: u64,
        peer: Did,
        permit: PeerCapacityPermit,
    ) -> (progress: AcquireProgress)
        requires
            old(global).wf(),
        ensures
            final(global).wf(),
            progress matches AcquireProgress::Acquired(granted) ==> final(global).holds(
                granted.of_node(),
            ),
            node_resumed(&*old(global), &*final(global), ticket, peer, permit, progress),
    {
        match global.resume(ticket, peer, permit.class, permit.bytes) {
            Some(global_permit) => AcquireProgress::Acquired(
                TransferCapacityPermit {
                    peer: permit,
                    global: global_permit,
                    reached_link: false,
                },
            ),
            None => AcquireProgress::AwaitingNode(ticket, permit),
        }
    }

    /// Give up the request that waits for the peer's part under `ticket`.
    pub fn abandon_peer_wait(&mut self, global: &mut GlobalTransferCapacity, ticket: u64)
        requires
            old(self).wf(),
            old(global).wf(),
        ensures
            final(self).wf(),
            final(global).wf(),
            peer_wait_abandoned(
                &*old(self),
                &*final(self),
                &*old(global),
                &*final(global),
                ticket,
            ),
    {
        let _ = self.waiters.leave(&mut global.wait_budget, ticket);
    }

    /// Give up the request that waits for the node's part under `ticket`, and the peer's part it
    /// holds.
    pub fn abandon_node_wait(
        &mut self,
        global: &mut GlobalTransferCapacity,
        ticket: u64,
        permit: PeerCapacityPermit,
    )
        requires
            old(self).wf(),
            old(global).wf(),
            old(self).holds(permit),
        ensures
            final(self).wf(),
            final(global).wf(),
            node_wait_abandoned(
                &*old(self),
                &*final(self),
                &*old(global),
                &*final(global),
                ticket,
                permit,
            ),
    {
        global.cancel_wait(ticket);
        self.release_peer(permit, false);
    }

    /// Give back what `permit` holds: the peer's part, then the node's.
    pub fn release(&mut self, global: &mut GlobalTransferCapacity, permit: TransferCapacityPermit)
        requires
            old(self).wf(),
            old(global).wf(),
            old(self).holds(permit.of_peer()),
            old(global).holds(permit.of_node()),
        ensures
            final(self).wf(),
            final(global).wf(),
            final(self).same_but_state(old(self)),
            final(global).same_but_held(old(global)),
            final(self).state().counts() == lowered(
                old(self).state().counts(),
                permit.of_peer().of_class(),
                1,
            ),
            final(self).state().sizes() == lowered(
                old(self).state().sizes(),
                permit.of_peer().of_class(),
                permit.of_peer().amount() as int,
            ),
            final(global).held() == lowered(
                old(global).held(),
                permit.of_node().of_class(),
                permit.of_node().amount() as int,
            ),
            final(self).state().ended_on_link() == (if permit.on_link()
                && old(self).state().ended_on_link() < u64::MAX {
                (old(self).state().ended_on_link() + 1) as u64
            } else {
                old(self).state().ended_on_link()
            }),
    {
        self.release_peer(permit.peer, permit.reached_link);
        global.release(permit.global);
    }

    /// Whether a request waits for the peer's capacity.
    pub fn has_waiters(&self) -> (waiting: bool)
        ensures
            waiting == (self.queue().len() > 0),
    {
        !self.waiters.is_empty()
    }

    /// How many transfers of the peer hold capacity.
    pub fn admitted(&self) -> (admitted: usize)
        requires
            self.wf(),
        ensures
            admitted == total(self.state().counts()),
            admitted <= OUTBOUND_TRANSFER_QUEUE_CAPACITY,
    {
        proof {
            law_within_bounds_the_total(
                self.state.counts(),
                OUTBOUND_TRANSFER_QUEUE_CAPACITY as int,
                slots_kept(self.profile),
            );
        }
        self.state.capacity.admitted_count()
    }

    /// How many bytes the peer's transfers hold.
    pub fn admitted_bytes(&self) -> (admitted: usize)
        requires
            self.wf(),
        ensures
            admitted == total(self.state().sizes()),
            admitted <= OUTBOUND_PEER_BYTE_CAPACITY,
    {
        proof {
            law_within_bounds_the_total(
                self.state.sizes(),
                OUTBOUND_PEER_BYTE_CAPACITY as int,
                peer_bytes_kept(self.profile),
            );
        }
        self.state.capacity.admitted_bytes()
    }
}

/// What a request has been given so far is held.
pub open spec fn backed(
    capacity: &TransferCapacity,
    global: &GlobalTransferCapacity,
    progress: AcquireProgress,
) -> bool {
    match progress {
        AcquireProgress::Acquired(permit) => capacity.holds(permit.of_peer()) && global.holds(
            permit.of_node(),
        ),
        AcquireProgress::AwaitingNode(_, permit) => capacity.holds(permit),
        _ => true,
    }
}

/// Neither capacity changed.
pub open spec fn unchanged(
    before: &TransferCapacity,
    after: &TransferCapacity,
    node_before: &GlobalTransferCapacity,
    node_after: &GlobalTransferCapacity,
) -> bool {
    &&& after.state() == before.state()
    &&& after.same_but_state(before)
    &&& node_after.held() == node_before.held()
    &&& node_after.same_but_held(node_before)
}

/// A request for one transfer of `bytes` was decided: refused at once where no state could admit
/// it, else decided by the peer's capacity and carried on from there.
pub open spec fn acquired(
    before: &TransferCapacity,
    after: &TransferCapacity,
    node_before: &GlobalTransferCapacity,
    node_after: &GlobalTransferCapacity,
    peer: Did,
    class: TransferClass,
    bytes: usize,
    progress: AcquireProgress,
) -> bool {
    if charged(bytes) > request_limit(before.rules(), class) {
        &&& progress == AcquireProgress::Refused(
            memory_refusal(peer, charged(bytes), request_limit(before.rules(), class)),
        )
        &&& unchanged(before, after, node_before, node_after)
    } else {
        exists|
            held: TransferCapacity,
            node: GlobalTransferCapacity,
            step: AcquireStep<PeerCapacityPermit>,
        | #[trigger]
            acquired_from_peer(
                before,
                &held,
                node_before,
                &node,
                peer,
                class,
                charged(bytes),
                step,
            ) && carried_on(
                &held,
                after,
                &node,
                node_after,
                peer,
                class,
                charged(bytes),
                step,
                progress,
            )
    }
}

/// The request that waits for the peer's part under `ticket` is admitted as soon as it is the
/// front and fits, and then asks for the node's part; until then nothing changes.
pub open spec fn resumed(
    before: &TransferCapacity,
    after: &TransferCapacity,
    node_before: &GlobalTransferCapacity,
    node_after: &GlobalTransferCapacity,
    ticket: u64,
    peer: Did,
    class: TransferClass,
    bytes: usize,
    progress: AcquireProgress,
) -> bool {
    if before.queue().len() > 0 && before.queue()[0].ticket == ticket && peer_refusal(
        before.state().counts(),
        before.state().sizes(),
        before.rules(),
        peer,
        class,
        bytes,
        CapacityScope::Shared,
    ) is None {
        &&& after.queue() == before.queue().remove(0)
        &&& after.state().ended_on_link() == before.state().ended_on_link()
        &&& exists|node: GlobalTransferCapacity| #[trigger]
            acquired_from_node(&node, node_after, peer, class, bytes, progress) && node.held()
                == node_before.held() && node.rules() == node_before.rules() && node.queue()
                == node_before.queue() && node.ticket_to_give() == node_before.ticket_to_give()
                && node.budget() == node_before.budget().left(before.queue()[0].bytes)
        &&& after.state().counts() == (if progress is Refused {
            before.state().counts()
        } else {
            raised(before.state().counts(), class, 1)
        })
        &&& after.state().sizes() == (if progress is Refused {
            before.state().sizes()
        } else {
            raised(before.state().sizes(), class, bytes as int)
        })
    } else {
        &&& progress == AcquireProgress::AwaitingPeer(ticket)
        &&& unchanged(before, after, node_before, node_after)
    }
}

/// The request that waits for the node's part under `ticket`, holding the peer's part `permit`, is
/// admitted as soon as it is the front and fits.
pub open spec fn node_resumed(
    before: &GlobalTransferCapacity,
    after: &GlobalTransferCapacity,
    ticket: u64,
    peer: Did,
    permit: PeerCapacityPermit,
    progress: AcquireProgress,
) -> bool {
    &&& after.rules() == before.rules()
    &&& after.ticket_to_give() == before.ticket_to_give()
    &&& if before.queue().len() > 0 && before.queue()[0].ticket == ticket && global_refusal(
        before.held(),
        before.rules(),
        peer,
        permit.of_class(),
        permit.amount(),
        CapacityScope::Shared,
    ) is None {
        &&& progress matches AcquireProgress::Acquired(granted) && granted.of_peer() == permit
            && granted.of_node().of_class() == permit.of_class() && granted.of_node().amount()
            == permit.amount() && !granted.on_link()
        &&& after.held() == raised(before.held(), permit.of_class(), permit.amount() as int)
        &&& after.queue() == before.queue().remove(0)
        &&& after.budget() == before.budget().left(before.queue()[0].bytes)
    } else {
        &&& progress == AcquireProgress::AwaitingNode(ticket, permit)
        &&& after.held() == before.held()
        &&& after.same_but_held(before)
    }
}

/// Nobody waits for the peer's part under `ticket` any more; everything else is as it was.
pub open spec fn peer_wait_abandoned(
    before: &TransferCapacity,
    after: &TransferCapacity,
    node_before: &GlobalTransferCapacity,
    node_after: &GlobalTransferCapacity,
    ticket: u64,
) -> bool {
    let place = place_of(before.queue(), ticket);
    &&& after.state() == before.state()
    &&& after.number() == before.number()
    &&& after.rules() == before.rules()
    &&& node_after.held() == node_before.held()
    &&& node_after.rules() == node_before.rules()
    &&& node_after.queue() == node_before.queue()
    &&& node_after.ticket_to_give() == node_before.ticket_to_give()
    &&& if place < before.queue().len() {
        &&& after.queue() == before.queue().remove(place)
        &&& node_after.budget() == node_before.budget().left(before.queue()[place].bytes)
    } else {
        &&& after.queue() == before.queue()
        &&& node_after.budget() == node_before.budget()
    }
}

/// Nobody waits for the node's part under `ticket` any more, and the peer's part `permit` is given
/// back.
pub open spec fn node_wait_abandoned(
    before: &TransferCapacity,
    after: &TransferCapacity,
    node_before: &GlobalTransferCapacity,
    node_after: &GlobalTransferCapacity,
    ticket: u64,
    permit: PeerCapacityPermit,
) -> bool {
    let place = place_of(node_before.queue(), ticket);
    &&& after.same_but_state(before)
    &&& after.state().counts() == lowered(before.state().counts(), permit.of_class(), 1)
    &&& after.state().sizes() == lowered(
        before.state().sizes(),
        permit.of_class(),
        permit.amount() as int,
    )
    &&& after.state().ended_on_link() == before.state().ended_on_link()
    &&& node_after.held() == node_before.held()
    &&& node_after.rules() == node_before.rules()
    &&& node_after.ticket_to_give() == node_before.ticket_to_give()
    &&& if place < node_before.queue().len() {
        &&& node_after.queue() == node_before.queue().remove(place)
        &&& node_after.budget() == node_before.budget().left(node_before.queue()[place].bytes)
    } else {
        &&& node_after.queue() == node_before.queue()
        &&& node_after.budget() == node_before.budget()
    }
}

/// The peer's part of a request was decided on `before`: admitted, waiting, or refused.
pub open spec fn acquired_from_peer(
    before: &TransferCapacity,
    after: &TransferCapacity,
    node_before: &GlobalTransferCapacity,
    node_after: &GlobalTransferCapacity,
    peer: Did,
    class: TransferClass,
    bytes: usize,
    step: AcquireStep<PeerCapacityPermit>,
) -> bool {
    let refusal = |scope: CapacityScope|
        peer_refusal(
            before.state().counts(),
            before.state().sizes(),
            before.rules(),
            peer,
            class,
            bytes,
            scope,
        );
    let small = bytes <= peer_bytes_kept(before.rules())[class.place()];
    if refusal(CapacityScope::FixedReservation) is None || (before.queue().len() == 0 && refusal(
        CapacityScope::Shared,
    ) is None) {
        &&& step matches AcquireStep::Admitted(permit) && permit.of_class() == class
            && permit.amount() == bytes
        &&& after.state().counts() == raised(before.state().counts(), class, 1)
        &&& after.state().sizes() == raised(before.state().sizes(), class, bytes as int)
        &&& after.state().ended_on_link() == before.state().ended_on_link()
        &&& after.same_but_state(before)
        &&& node_after.held() == node_before.held()
        &&& node_after.same_but_held(node_before)
    } else if small || !node_before.budget().accepts(bytes) || node_before.ticket_to_give()
        == u64::MAX {
        &&& step == AcquireStep::<PeerCapacityPermit>::Refused(
            if small && before.queue().len() == 0 {
                refusal(CapacityScope::Shared)->0
            } else {
                memory_refusal(peer, bytes, peer_byte_share(before.rules(), class))
            },
        )
        &&& unchanged(before, after, node_before, node_after)
    } else {
        &&& step == AcquireStep::<PeerCapacityPermit>::Waiting(node_before.ticket_to_give())
        &&& after.state() == before.state()
        &&& after.number() == before.number()
        &&& after.rules() == before.rules()
        &&& after.queue() == before.queue().push(
            Waiter { ticket: node_before.ticket_to_give(), bytes },
        )
        &&& node_after.held() == node_before.held()
        &&& node_after.rules() == node_before.rules()
        &&& node_after.queue() == node_before.queue()
        &&& node_after.budget() == node_before.budget().joined(bytes)
        &&& node_after.ticket_to_give() == node_before.ticket_to_give() + 1
    }
}

/// A request whose peer's part came to `step` was carried on: an admitted one to the node's
/// capacity, giving its peer's part back where the node refuses.
pub open spec fn carried_on(
    before: &TransferCapacity,
    after: &TransferCapacity,
    node_before: &GlobalTransferCapacity,
    node_after: &GlobalTransferCapacity,
    peer: Did,
    class: TransferClass,
    bytes: usize,
    step: AcquireStep<PeerCapacityPermit>,
    progress: AcquireProgress,
) -> bool {
    match step {
        AcquireStep::Admitted(_) => {
            &&& acquired_from_node(node_before, node_after, peer, class, bytes, progress)
            &&& after.same_but_state(before)
            &&& after.state().ended_on_link() == before.state().ended_on_link()
            &&& after.state().counts() == (if progress is Refused {
                lowered(before.state().counts(), class, 1)
            } else {
                before.state().counts()
            })
            &&& after.state().sizes() == (if progress is Refused {
                lowered(before.state().sizes(), class, bytes as int)
            } else {
                before.state().sizes()
            })
        },
        AcquireStep::Waiting(ticket) => {
            &&& progress == AcquireProgress::AwaitingPeer(ticket)
            &&& unchanged(before, after, node_before, node_after)
        },
        AcquireStep::Refused(refusal) => {
            &&& progress == AcquireProgress::Refused(refusal)
            &&& unchanged(before, after, node_before, node_after)
        },
    }
}

proof fn lemma_lowered_raised(amounts: Seq<usize>, class: TransferClass, bytes: int)
    requires
        amounts.len() == CLASS_COUNT,
        0 <= bytes,
        amounts[class.place()] + bytes <= usize::MAX,
    ensures
        lowered(raised(amounts, class, bytes), class, bytes) == amounts,
{
    assert(lowered(raised(amounts, class, bytes), class, bytes) =~= amounts);
}

/// The node's part of a request was decided on `before`: admitted, waiting, or refused.
pub open spec fn acquired_from_node(
    before: &GlobalTransferCapacity,
    after: &GlobalTransferCapacity,
    peer: Did,
    class: TransferClass,
    bytes: usize,
    progress: AcquireProgress,
) -> bool {
    let refusal = |scope: CapacityScope|
        global_refusal(before.held(), before.rules(), peer, class, bytes, scope);
    let small = bytes <= global_bytes_kept(before.rules())[class.place()];
    if refusal(CapacityScope::FixedReservation) is None || (before.queue().len() == 0 && refusal(
        CapacityScope::Shared,
    ) is None) {
        &&& progress matches AcquireProgress::Acquired(permit) && permit.of_peer().of_class()
            == class && permit.of_peer().amount() == bytes && permit.of_node().of_class() == class
            && permit.of_node().amount() == bytes && !permit.on_link()
        &&& after.held() == raised(before.held(), class, bytes as int)
        &&& after.same_but_held(before)
    } else if small || !before.budget().accepts(bytes) || before.ticket_to_give() == u64::MAX {
        &&& progress == AcquireProgress::Refused(
            memory_refusal(peer, bytes, global_byte_share(before.rules(), class)),
        )
        &&& after.held() == before.held()
        &&& after.same_but_held(before)
    } else {
        &&& progress matches AcquireProgress::AwaitingNode(ticket, permit) && ticket
            == before.ticket_to_give() && permit.of_class() == class && permit.amount() == bytes
        &&& after.held() == before.held()
        &&& after.queue() == before.queue().push(
            Waiter { ticket: before.ticket_to_give(), bytes },
        )
        &&& after.budget() == before.budget().joined(bytes)
        &&& after.ticket_to_give() == before.ticket_to_give() + 1
    }
}

/// Whatever a peer's and the node's transfers hold, neither exceeds its bounds.
pub proof fn law_admitted_transfers_stay_within_bounds(
    capacity: &TransferCapacity,
    global: &GlobalTransferCapacity,
)
    requires
        capacity.wf(),
        global.wf(),
    ensures
        total(capacity.state().counts()) <= OUTBOUND_TRANSFER_QUEUE_CAPACITY,
        total(capacity.state().sizes()) <= OUTBOUND_PEER_BYTE_CAPACITY,
        total(global.held()) <= OUTBOUND_GLOBAL_BYTE_CAPACITY,
{
    law_within_bounds_the_total(
        capacity.state().counts(),
        OUTBOUND_TRANSFER_QUEUE_CAPACITY as int,
        slots_kept(capacity.rules()),
    );
    law_within_bounds_the_total(
        capacity.state().sizes(),
        OUTBOUND_PEER_BYTE_CAPACITY as int,
        peer_bytes_kept(capacity.rules()),
    );
    law_within_bounds_the_total(
        global.held(),
        OUTBOUND_GLOBAL_BYTE_CAPACITY as int,
        global_bytes_kept(global.rules()),
    );
}

/// A request inside its class's reservations has room, however many requests wait.
pub proof fn law_reserved_request_bypasses_the_queue(
    capacity: &TransferCapacity,
    global: &GlobalTransferCapacity,
    demand: TransferDemand,
)
    requires
        capacity.wf(),
        global.wf(),
        covered(
            capacity.state().counts(),
            demand.class.place(),
            1,
            slots_kept(capacity.rules()),
        ),
        covered(
            capacity.state().sizes(),
            demand.class.place(),
            demand.bytes as int,
            peer_bytes_kept(capacity.rules()),
        ),
        covered(
            global.held(),
            demand.class.place(),
            demand.bytes as int,
            global_bytes_kept(global.rules()),
        ),
    ensures
        capacity.room(global, demand),
{
    law_reserved_share_is_always_admitted(
        capacity.state().counts(),
        demand.class.place(),
        1,
        OUTBOUND_TRANSFER_QUEUE_CAPACITY as int,
        slots_kept(capacity.rules()),
    );
    law_reserved_share_is_always_admitted(
        capacity.state().sizes(),
        demand.class.place(),
        demand.bytes as int,
        OUTBOUND_PEER_BYTE_CAPACITY as int,
        peer_bytes_kept(capacity.rules()),
    );
    law_reserved_share_is_always_admitted(
        global.held(),
        demand.class.place(),
        demand.bytes as int,
        OUTBOUND_GLOBAL_BYTE_CAPACITY as int,
        global_bytes_kept(global.rules()),
    );
}

/// Every class can send a payload whose retained bytes are at most its share: an idle peer on an
/// idle node admits it.
pub proof fn law_idle_capacity_admits_every_valid_request(
    capacity: &TransferCapacity,
    global: &GlobalTransferCapacity,
    demand: TransferDemand,
)
    requires
        capacity.state().fresh(),
        capacity.queue().len() == 0,
        capacity.rules() == global.rules(),
        global.idle_under(global.rules()),
        0 < demand.bytes <= request_limit(global.rules(), demand.class),
    ensures
        capacity.room(global, demand),
        slot_share(global.rules(), demand.class) > 0,
{
    law_lone_class_reaches_its_share(
        demand.class.place(),
        demand.bytes as int,
        OUTBOUND_PEER_BYTE_CAPACITY as int,
        peer_bytes_kept(global.rules()),
    );
    law_lone_class_reaches_its_share(
        demand.class.place(),
        demand.bytes as int,
        OUTBOUND_GLOBAL_BYTE_CAPACITY as int,
        global_bytes_kept(global.rules()),
    );
    law_lone_class_reaches_its_share(
        demand.class.place(),
        1,
        OUTBOUND_TRANSFER_QUEUE_CAPACITY as int,
        slots_kept(global.rules()),
    );
}

/// Where the amounts of `class` stand.
pub open spec fn column(class: TransferClass) -> int {
    match class {
        TransferClass::DhtControl => 0,
        TransferClass::Storage => 1,
        TransferClass::E2e => 2,
        TransferClass::Application => 3,
    }
}

/// The transfers each class keeps of a peer's 256.
pub open spec fn kept_slots(profile: ProtectionProfile) -> Seq<usize> {
    if profile.class_reservations {
        seq![16usize, 8usize, 8usize, 8usize]
    } else {
        seq![0usize, 0usize, 0usize, 0usize]
    }
}

/// The bytes each class keeps: two mebibytes for control, one for each other.
pub open spec fn kept_bytes(profile: ProtectionProfile) -> Seq<usize> {
    if profile.class_reservations {
        seq![0x20_0000usize, 0x10_0000usize, 0x10_0000usize, 0x10_0000usize]
    } else {
        seq![0usize, 0usize, 0usize, 0usize]
    }
}

/// One more transfer fits into a peer's 256.
pub open spec fn slot_free(
    counts: Seq<usize>,
    profile: ProtectionProfile,
    class: TransferClass,
) -> bool {
    counts[column(class)] + 1 + others_keep(counts, kept_slots(profile), column(class)) <= 256
}

/// `bytes` more fit into `bound`.
pub open spec fn bytes_free(
    sizes: Seq<usize>,
    profile: ProtectionProfile,
    class: TransferClass,
    bytes: usize,
    bound: int,
) -> bool {
    sizes[column(class)] + bytes + others_keep(sizes, kept_bytes(profile), column(class)) <= bound
}

/// The peer's capacity admits a transfer of `bytes` out of what is shared.
pub open spec fn peer_has_space(
    capacity: TransferCapacity,
    class: TransferClass,
    bytes: usize,
) -> bool {
    &&& slot_free(capacity.state().counts(), capacity.rules(), class)
    &&& bytes_free(capacity.state().sizes(), capacity.rules(), class, bytes, 0x800_0000)
}

/// The class's own reservation at the peer covers a transfer of `bytes`.
pub open spec fn peer_keeps(
    capacity: TransferCapacity,
    class: TransferClass,
    bytes: usize,
) -> bool {
    &&& capacity.state().counts()[column(class)] + 1 <= kept_slots(capacity.rules())[column(class)]
    &&& capacity.state().sizes()[column(class)] + bytes <= kept_bytes(capacity.rules())[column(
        class,
    )]
}

/// The node's capacity admits `bytes` out of what is shared.
pub open spec fn node_has_space(
    node: GlobalTransferCapacity,
    class: TransferClass,
    bytes: usize,
) -> bool {
    bytes_free(node.held(), node.rules(), class, bytes, 0x1000_0000)
}

/// The class's own reservation at the node covers `bytes`.
pub open spec fn node_keeps(
    node: GlobalTransferCapacity,
    class: TransferClass,
    bytes: usize,
) -> bool {
    node.held()[column(class)] + bytes <= kept_bytes(node.rules())[column(class)]
}

/// The peer's capacity admits a transfer of `bytes` now: inside the reservation, or out of what is
/// shared while nobody waits.
pub open spec fn peer_admits_now(
    capacity: TransferCapacity,
    class: TransferClass,
    bytes: usize,
) -> bool {
    peer_keeps(capacity, class, bytes) || (capacity.queue().len() == 0 && peer_has_space(
        capacity,
        class,
        bytes,
    ))
}

/// The node's capacity admits `bytes` now.
pub open spec fn node_admits_now(
    node: GlobalTransferCapacity,
    class: TransferClass,
    bytes: usize,
) -> bool {
    node_keeps(node, class, bytes) || (node.queue().len() == 0 && node_has_space(
        node,
        class,
        bytes,
    ))
}

/// The node has a place for another request of `bytes` that waits.
pub open spec fn may_wait(node: GlobalTransferCapacity, bytes: usize) -> bool {
    &&& node.budget().count < node.budget().count_limit
    &&& node.budget().bytes + bytes <= node.budget().byte_limit
    &&& node.ticket_to_give() < u64::MAX
}

/// The most bytes one transfer of `class` can ever ask for: what the other classes leave of a peer's
/// 128 mebibytes.
pub open spec fn most_bytes(profile: ProtectionProfile, class: TransferClass) -> int {
    if !profile.class_reservations {
        0x800_0000
    } else if class is DhtControl {
        0x800_0000 - 0x30_0000
    } else {
        0x800_0000 - 0x40_0000
    }
}

/// A request for nothing counts as one byte.
pub open spec fn counted_bytes(bytes: usize) -> usize {
    if bytes >= 1 {
        bytes
    } else {
        1
    }
}

proof fn lemma_node_decides(
    node: GlobalTransferCapacity,
    peer: Did,
    class: TransferClass,
    bytes: usize,
)
    requires
        node.wf(),
    ensures
        global_refusal(
            node.held(),
            node.rules(),
            peer,
            class,
            bytes,
            CapacityScope::Shared,
        ) is None <==> node_has_space(node, class, bytes),
        global_refusal(
            node.held(),
            node.rules(),
            peer,
            class,
            bytes,
            CapacityScope::FixedReservation,
        ) is None <==> node_keeps(node, class, bytes),
{
    assert(global_bytes_kept(node.rules()) =~= kept_bytes(node.rules()));
    assert(class.place() == column(class));
    if node_keeps(node, class, bytes) {
        assert(covered(
            node.held(),
            class.place(),
            bytes as int,
            global_bytes_kept(node.rules()),
        )) by {
            reveal(covered);
        }
        law_reserved_share_is_always_admitted(
            node.held(),
            class.place(),
            bytes as int,
            OUTBOUND_GLOBAL_BYTE_CAPACITY as int,
            global_bytes_kept(node.rules()),
        );
    }
    reveal(fits);
    reveal(covered);
}

proof fn lemma_peer_decides(
    capacity: TransferCapacity,
    peer: Did,
    class: TransferClass,
    bytes: usize,
)
    requires
        capacity.wf(),
    ensures
        peer_refusal(
            capacity.state().counts(),
            capacity.state().sizes(),
            capacity.rules(),
            peer,
            class,
            bytes,
            CapacityScope::Shared,
        ) is None <==> peer_has_space(capacity, class, bytes),
        peer_refusal(
            capacity.state().counts(),
            capacity.state().sizes(),
            capacity.rules(),
            peer,
            class,
            bytes,
            CapacityScope::FixedReservation,
        ) is None <==> peer_keeps(capacity, class, bytes),
        fits(
            capacity.state().counts(),
            class.place(),
            1,
            OUTBOUND_TRANSFER_QUEUE_CAPACITY as int,
            slots_kept(capacity.rules()),
        ) <==> slot_free(capacity.state().counts(), capacity.rules(), class),
{
    let counts = capacity.state().counts();
    let sizes = capacity.state().sizes();
    assert(slots_kept(capacity.rules()) =~= kept_slots(capacity.rules()));
    assert(peer_bytes_kept(capacity.rules()) =~= kept_bytes(capacity.rules()));
    assert(class.place() == column(class));
    if peer_keeps(capacity, class, bytes) {
        assert(covered(counts, class.place(), 1, slots_kept(capacity.rules())) && covered(
            sizes,
            class.place(),
            bytes as int,
            peer_bytes_kept(capacity.rules()),
        )) by {
            reveal(covered);
        }
        law_reserved_share_is_always_admitted(
            counts,
            class.place(),
            1,
            OUTBOUND_TRANSFER_QUEUE_CAPACITY as int,
            slots_kept(capacity.rules()),
        );
        law_reserved_share_is_always_admitted(
            sizes,
            class.place(),
            bytes as int,
            OUTBOUND_PEER_BYTE_CAPACITY as int,
            peer_bytes_kept(capacity.rules()),
        );
    }
    reveal(fits);
    reveal(covered);
}

/// What each class keeps, and what it can ever hold: the whole less what the others keep.
pub proof fn law_classes_keep_their_shares(
    profile: ProtectionProfile,
    slots: ClassAmounts,
    peer_bytes: ClassAmounts,
    node_bytes: ClassAmounts,
    class: TransferClass,
    slot_limit: usize,
    peer_limit: usize,
    node_limit: usize,
)
    requires
        call_ensures(transfer_reservations, (profile,), slots),
        call_ensures(peer_byte_reservations, (profile,), peer_bytes),
        call_ensures(global_byte_reservations, (profile,), node_bytes),
        call_ensures(transfer_limit, (profile, class), slot_limit),
        call_ensures(peer_byte_limit, (profile, class), peer_limit),
        call_ensures(global_byte_limit, (profile, class), node_limit),
    ensures
        slots@ == kept_slots(profile),
        peer_bytes@ == kept_bytes(profile),
        node_bytes@ == kept_bytes(profile),
        !profile.class_reservations ==> slot_limit == 256 && peer_limit == 0x800_0000 && node_limit
            == 0x1000_0000,
        profile.class_reservations && class is DhtControl ==> slot_limit == 256 - 24 && peer_limit
            == 0x800_0000 - 0x30_0000 && node_limit == 0x1000_0000 - 0x30_0000,
        profile.class_reservations && !(class is DhtControl) ==> slot_limit == 256 - 32
            && peer_limit == 0x800_0000 - 0x40_0000 && node_limit == 0x1000_0000 - 0x40_0000,
{
    assert(slots_kept(profile) =~= kept_slots(profile));
    assert(peer_bytes_kept(profile) =~= kept_bytes(profile));
    assert(global_bytes_kept(profile) =~= kept_bytes(profile));
}

/// A request is valid exactly if its class could ever hold as much; a request for nothing counts as
/// one byte.
pub proof fn law_valid_request_fits_its_class(
    profile: ProtectionProfile,
    peer: Did,
    class: TransferClass,
    bytes: usize,
    valid: Result<(), Error>,
    demand: TransferDemand,
)
    requires
        call_ensures(validate_memory_request, (profile, peer, class, bytes), valid),
        call_ensures(TransferDemand::new, (class, bytes), demand),
    ensures
        valid is Ok <==> counted_bytes(bytes) <= most_bytes(profile, class),
        valid is Err ==> valid->Err_0 == (Error::OutboundTransferMemoryCapacityExceeded {
            peer,
            requested_bytes: counted_bytes(bytes),
            capacity_bytes: most_bytes(profile, class) as usize,
        }),
        demand.class == class,
        demand.bytes == counted_bytes(bytes),
{
    assert(peer_bytes_kept(profile) =~= kept_bytes(profile));
    assert(global_bytes_kept(profile) =~= kept_bytes(profile));
}

/// The node admits bytes out of what is shared exactly if they fit beside what every other class
/// keeps, and inside a reservation exactly if that covers them. They are held from then on.
pub proof fn law_node_admits_what_fits(
    shared: &mut GlobalTransferCapacity,
    reserved: &mut GlobalTransferCapacity,
    peer: Did,
    class: TransferClass,
    bytes: usize,
    taken: Result<GlobalCapacityPermit, Error>,
    kept: Result<GlobalCapacityPermit, Error>,
)
    requires
        old(shared).wf(),
        call_ensures(
            GlobalTransferCapacity::try_acquire_inner,
            (shared, peer, class, bytes, CapacityScope::Shared),
            taken,
        ),
        old(reserved).wf(),
        call_ensures(
            GlobalTransferCapacity::try_acquire_inner,
            (reserved, peer, class, bytes, CapacityScope::FixedReservation),
            kept,
        ),
    ensures
        taken is Ok <==> node_has_space(*old(shared), class, bytes),
        taken matches Ok(permit) ==> permit.of_class() == class && permit.amount() == bytes
            && final(shared).held()[column(class)] == old(shared).held()[column(class)] + bytes,
        taken is Err ==> final(shared).held() == old(shared).held() && taken->Err_0
            is OutboundTransferMemoryCapacityExceeded,
        kept is Ok <==> node_keeps(*old(reserved), class, bytes),
        kept is Ok ==> final(reserved).held()[column(class)] == old(reserved).held()[column(class)]
            + bytes,
        kept is Err ==> final(reserved).held() == old(reserved).held(),
{
    lemma_node_decides(*old(shared), peer, class, bytes);
    lemma_node_decides(*old(reserved), peer, class, bytes);
    reveal(fits);
}

/// A request to the node is admitted exactly if its reservation covers it, or it fits and nobody
/// waits. Otherwise it waits, last, exactly if it is larger than its class ever keeps and there is
/// a place to wait; else it is refused. Nothing changes for one that is refused.
pub proof fn law_node_admits_queues_or_refuses(
    node: &mut GlobalTransferCapacity,
    peer: Did,
    class: TransferClass,
    bytes: usize,
    step: AcquireStep<GlobalCapacityPermit>,
)
    requires
        old(node).wf(),
        call_ensures(GlobalTransferCapacity::acquire, (node, peer, class, bytes), step),
    ensures
        step is Admitted <==> node_admits_now(*old(node), class, bytes),
        step is Waiting <==> !node_admits_now(*old(node), class, bytes) && bytes > kept_bytes(
            old(node).rules(),
        )[column(class)] && may_wait(*old(node), bytes),
        step is Admitted ==> final(node).held()[column(class)] == old(node).held()[column(class)]
            + bytes && final(node).queue() == old(node).queue(),
        step matches AcquireStep::Waiting(ticket) ==> {
            &&& ticket == old(node).ticket_to_give()
            &&& final(node).queue() == old(node).queue() + seq![Waiter { ticket, bytes }]
            &&& final(node).held() == old(node).held()
            &&& final(node).budget().count == old(node).budget().count + 1
            &&& final(node).budget().bytes == old(node).budget().bytes + bytes
            &&& final(node).ticket_to_give() == ticket + 1
        },
        step is Refused ==> final(node).held() == old(node).held() && final(node).queue() == old(node).queue() && final(node).budget() == old(node).budget(),
{
    lemma_node_decides(*old(node), peer, class, bytes);
    assert(global_bytes_kept(old(node).rules()) =~= kept_bytes(old(node).rules()));
    assert(old(node).queue().push(Waiter { ticket: old(node).ticket_to_give(), bytes }) =~= old(node).queue() + seq![Waiter { ticket: old(node).ticket_to_give(), bytes }]);
    reveal(fits);
}

/// A waiting request of the node is admitted exactly if it is the front and fits; then it leaves the
/// queue.
pub proof fn law_node_admits_its_front(
    node: &mut GlobalTransferCapacity,
    ticket: u64,
    peer: Did,
    class: TransferClass,
    bytes: usize,
    admitted: Option<GlobalCapacityPermit>,
)
    requires
        old(node).wf(),
        call_ensures(GlobalTransferCapacity::resume, (node, ticket, peer, class, bytes), admitted),
    ensures
        admitted is Some <==> old(node).queue().len() > 0 && old(node).queue()[0].ticket == ticket
            && node_has_space(*old(node), class, bytes),
        admitted is Some ==> final(node).held()[column(class)] == old(node).held()[column(class)]
            + bytes && final(node).queue() == old(node).queue().skip(1),
        admitted is None ==> final(node).held() == old(node).held() && final(node).queue() == old(node).queue(),
{
    lemma_node_decides(*old(node), peer, class, bytes);
    if admitted is Some {
        assert(old(node).queue().remove(0) =~= old(node).queue().skip(1));
    }
    reveal(fits);
}

/// What is released is no longer held, and nothing else changes.
pub proof fn law_release_gives_back_what_was_held(
    capacity: &mut TransferCapacity,
    node: &mut GlobalTransferCapacity,
    permit: TransferCapacityPermit,
)
    requires
        old(capacity).wf(),
        old(node).wf(),
        old(capacity).holds(permit.of_peer()),
        old(node).holds(permit.of_node()),
        call_ensures(TransferCapacity::release, (capacity, node, permit), ()),
    ensures
        ({
            let class = permit.of_peer().of_class();
            &&& final(capacity).state().counts()[column(class)] == old(capacity).state().counts()[column(class)] - 1
            &&& final(capacity).state().sizes()[column(class)] == old(capacity).state().sizes()[column(class)] - permit.of_peer().amount()
            &&& forall|other: int|
                0 <= other < 4 && other != column(class) ==> #[trigger] final(capacity).state().counts()[other] == old(capacity).state().counts()[other]
        }),
        final(node).held()[column(permit.of_node().of_class())] == old(node).held()[column(
            permit.of_node().of_class(),
        )] - permit.of_node().amount(),
        permit.on_link() && old(capacity).state().ended_on_link() < u64::MAX ==> final(capacity).state().ended_on_link() == old(capacity).state().ended_on_link() + 1,
        !permit.on_link() ==> final(capacity).state().ended_on_link() == old(capacity).state().ended_on_link(),
        final(capacity).queue() == old(capacity).queue(),
        final(node).queue() == old(node).queue(),
{
}

/// A transfer is admitted at once exactly if it is valid and fits both its peer's and the node's
/// capacity; then both hold it. Otherwise neither changes, and a missing slot is told apart from
/// missing bytes.
pub proof fn law_transfer_is_admitted_by_both_or_neither(
    capacity: &mut TransferCapacity,
    node: &mut GlobalTransferCapacity,
    peer: Did,
    class: TransferClass,
    bytes: usize,
    acquired: Result<TransferCapacityPermit, Error>,
)
    requires
        old(capacity).wf(),
        old(node).wf(),
        old(capacity).rules() == old(node).rules(),
        call_ensures(TransferCapacity::try_acquire, (capacity, node, peer, class, bytes), acquired),
    ensures
        ({
            let asked = counted_bytes(bytes);
            let valid = asked <= most_bytes(old(capacity).rules(), class);
            &&& acquired is Ok <==> valid && peer_has_space(*old(capacity), class, asked)
                && node_has_space(*old(node), class, asked)
            &&& acquired matches Ok(permit) ==> {
                &&& permit.of_peer().of_class() == class && permit.of_peer().amount() == asked
                &&& permit.of_node().of_class() == class && permit.of_node().amount() == asked
                &&& !permit.on_link()
                &&& final(capacity).state().counts()[column(class)] == old(capacity).state().counts()[column(class)] + 1
                &&& final(capacity).state().sizes()[column(class)] == old(capacity).state().sizes()[column(class)] + asked
                &&& final(node).held()[column(class)] == old(node).held()[column(class)] + asked
            }
            &&& acquired is Err ==> final(capacity).state().counts() == old(capacity).state().counts() && final(capacity).state().sizes() == old(capacity).state().sizes()
                && final(node).held() == old(node).held()
            &&& acquired is Err ==> (acquired->Err_0 is OutboundTransferCapacityExceeded <==> valid
                && !slot_free(old(capacity).state().counts(), old(capacity).rules(), class))
            &&& acquired is Err && !(acquired->Err_0 is OutboundTransferCapacityExceeded)
                ==> acquired->Err_0 is OutboundTransferMemoryCapacityExceeded
        }),
{
    let asked = counted_bytes(bytes);
    lemma_peer_decides(*old(capacity), peer, class, asked);
    lemma_node_decides(*old(node), peer, class, asked);
    assert(peer_bytes_kept(old(capacity).rules()) =~= kept_bytes(old(capacity).rules()));
    assert(global_bytes_kept(old(capacity).rules()) =~= kept_bytes(old(capacity).rules()));
    reveal(fits);
}

/// A request for a transfer. It is given both parts exactly if both admit it now; it holds the
/// peer's part and waits for the node's where only the peer does and it may wait; it waits for the
/// peer where the peer does not and it may wait; and it is refused otherwise, holding nothing.
pub proof fn law_request_is_admitted_waits_or_is_refused(
    capacity: &mut TransferCapacity,
    node: &mut GlobalTransferCapacity,
    peer: Did,
    class: TransferClass,
    bytes: usize,
    progress: AcquireProgress,
)
    requires
        old(capacity).wf(),
        old(node).wf(),
        old(capacity).rules() == old(node).rules(),
        call_ensures(TransferCapacity::acquire, (capacity, node, peer, class, bytes), progress),
    ensures
        ({
            let asked = counted_bytes(bytes);
            let valid = asked <= most_bytes(old(capacity).rules(), class);
            let large = asked > kept_bytes(old(capacity).rules())[column(class)];
            let at_peer = peer_admits_now(*old(capacity), class, asked);
            let at_node = node_admits_now(*old(node), class, asked);
            &&& progress is Acquired <==> valid && at_peer && at_node
            &&& progress is AwaitingNode <==> valid && at_peer && !at_node && large && may_wait(
                *old(node),
                asked,
            )
            &&& progress is AwaitingPeer <==> valid && !at_peer && large && may_wait(
                *old(node),
                asked,
            )
            &&& progress is Acquired || progress is AwaitingNode ==> final(capacity).state().counts()[column(class)] == old(capacity).state().counts()[column(class)] + 1
                && final(capacity).state().sizes()[column(class)] == old(capacity).state().sizes()[column(class)] + asked
            &&& progress is AwaitingPeer || progress is Refused ==> final(capacity).state().counts() == old(capacity).state().counts() && final(capacity).state().sizes() == old(capacity).state().sizes()
            &&& progress is Acquired ==> final(node).held()[column(class)] == old(node).held()[column(class)] + asked
            &&& !(progress is Acquired) ==> final(node).held() == old(node).held()
            &&& progress matches AcquireProgress::AwaitingPeer(ticket) ==> final(capacity).queue()
                == old(capacity).queue() + seq![Waiter { ticket, bytes: asked }]
            &&& progress matches AcquireProgress::AwaitingNode(ticket, _) ==> final(node).queue()
                == old(node).queue() + seq![Waiter { ticket, bytes: asked }]
        }),
{
    let asked = counted_bytes(bytes);
    lemma_peer_decides(*old(capacity), peer, class, asked);
    lemma_node_decides(*old(node), peer, class, asked);
    let rules = old(capacity).rules();
    assert(peer_bytes_kept(rules) =~= kept_bytes(rules));
    assert(global_bytes_kept(rules) =~= kept_bytes(rules));
    assert(request_limit(rules, class) == most_bytes(rules, class));
    if asked <= most_bytes(rules, class) {
        let (held, between, step) = choose|
            held: TransferCapacity,
            between: GlobalTransferCapacity,
            step: AcquireStep<PeerCapacityPermit>,
        | #[trigger]
            acquired_from_peer(
                old(capacity),
                &held,
                old(node),
                &between,
                peer,
                class,
                charged(bytes),
                step,
            ) && carried_on(
                &held,
                final(capacity),
                &between,
                final(node),
                peer,
                class,
                charged(bytes),
                step,
                progress,
            );
        assert(old(capacity).queue().push(
            Waiter { ticket: old(node).ticket_to_give(), bytes: asked },
        ) =~= old(capacity).queue() + seq![
            Waiter { ticket: old(node).ticket_to_give(), bytes: asked },
        ]);
        assert(old(node).queue().push(
            Waiter { ticket: old(node).ticket_to_give(), bytes: asked },
        ) =~= old(node).queue() + seq![
            Waiter { ticket: old(node).ticket_to_give(), bytes: asked },
        ]);
        let counts = old(capacity).state().counts();
        let sizes = old(capacity).state().sizes();
        if step is Admitted {
            assert(peer_has_space(*old(capacity), class, asked)) by {
                if peer_keeps(*old(capacity), class, asked) {
                    reveal(fits);
                }
            }
            assert(counts[column(class)] + 1 <= 256 && sizes[column(class)] + asked <= 0x800_0000)
                by {
                reveal(fits);
            }
            lemma_lowered_raised(counts, class, 1);
            lemma_lowered_raised(sizes, class, asked as int);
        }
        if node_admits_now(*old(node), class, asked) {
            assert(old(node).held()[column(class)] + asked <= 0x1000_0000) by {
                reveal(fits);
            }
        }
    }
}

/// Room for a request is told exactly if it would be admitted now by both.
pub proof fn law_room_is_what_would_be_admitted(
    capacity: TransferCapacity,
    node: GlobalTransferCapacity,
    peer: Did,
    demand: TransferDemand,
    room: bool,
)
    requires
        capacity.wf(),
        node.wf(),
        call_ensures(TransferCapacity::has_room, (&capacity, &node, peer, demand), room),
    ensures
        room <==> peer_admits_now(capacity, demand.class, demand.bytes) && node_admits_now(
            node,
            demand.class,
            demand.bytes,
        ),
{
    lemma_peer_decides(capacity, arbitrary(), demand.class, demand.bytes);
    lemma_node_decides(node, arbitrary(), demand.class, demand.bytes);
}

/// A request that waits for its peer goes on exactly if it is the front and fits; until then nothing
/// changes. Then it has left the peer's queue.
pub proof fn law_peer_admits_its_front(
    capacity: &mut TransferCapacity,
    node: &mut GlobalTransferCapacity,
    ticket: u64,
    peer: Did,
    class: TransferClass,
    bytes: usize,
    progress: AcquireProgress,
)
    requires
        old(capacity).wf(),
        old(node).wf(),
        call_ensures(
            TransferCapacity::resume,
            (capacity, node, ticket, peer, class, bytes),
            progress,
        ),
    ensures
        progress is AwaitingPeer <==> !(old(capacity).queue().len() > 0 && old(capacity).queue()[0].ticket == ticket && peer_has_space(*old(capacity), class, bytes)),
        progress is AwaitingPeer ==> final(capacity).queue() == old(capacity).queue() && final(capacity).state() == old(capacity).state() && final(node).held() == old(node).held(),
        !(progress is AwaitingPeer) ==> final(capacity).queue() == old(capacity).queue().skip(1),
        progress is Acquired || progress is AwaitingNode ==> final(capacity).state().counts()[column(
            class,
        )] == old(capacity).state().counts()[column(class)] + 1,
        !(progress is AwaitingPeer) ==> (progress is Acquired <==> node_admits_now(
            *old(node),
            class,
            bytes,
        )),
{
    lemma_peer_decides(*old(capacity), peer, class, bytes);
    lemma_node_decides(*old(node), peer, class, bytes);
    if !(progress is AwaitingPeer) {
        assert(old(capacity).queue().remove(0) =~= old(capacity).queue().skip(1));
        let between = choose|between: GlobalTransferCapacity| #[trigger]
            acquired_from_node(&between, final(node), peer, class, bytes, progress)
                && between.held() == old(node).held() && between.rules() == old(node).rules()
                && between.queue() == old(node).queue() && between.ticket_to_give() == old(node).ticket_to_give() && between.budget() == old(node).budget().left(
                old(capacity).queue()[0].bytes,
            );
        assert(acquired_from_node(&between, final(node), peer, class, bytes, progress));
    }
    reveal(fits);
}

/// A stamped peer has drained exactly once as many of its transfers ended on the link as held its
/// capacity at the stamp, and is idle exactly while none holds it. A capacity that is gone has
/// drained and is idle.
pub proof fn law_stamp_counts_the_transfers_ahead(
    stamped: &TransferCapacity,
    stamp: PeerStamp,
    now: &TransferCapacity,
    progress: PeerProgress,
    gone: PeerProgress,
)
    requires
        stamped.wf(),
        call_ensures(PeerStamp::of, (Some(stamped),), stamp),
        now.wf(),
        now.number() == stamped.number(),
        now.state().ended_on_link() >= stamped.state().ended_on_link(),
        call_ensures(PeerStamp::progress, (&stamp, Some(now)), progress),
        call_ensures(PeerStamp::progress, (&stamp, None), gone),
    ensures
        ({
            let ahead = stamped.state().counts()[0] + stamped.state().counts()[1]
                + stamped.state().counts()[2] + stamped.state().counts()[3];
            let held = now.state().counts()[0] + now.state().counts()[1] + now.state().counts()[2]
                + now.state().counts()[3];
            &&& progress.drained <==> now.state().ended_on_link() - stamped.state().ended_on_link()
                >= ahead
            &&& progress.idle <==> held == 0
        }),
        gone.drained && gone.idle,
{
}

/// The peer and the node refuse a transfer exactly for want of space, or where no transfer of its
/// class can be as large.
pub proof fn lemma_refusal_is_want_of_space(
    capacity: TransferCapacity,
    node: GlobalTransferCapacity,
    peer: Did,
    class: TransferClass,
    bytes: usize,
)
    requires
        capacity.wf(),
        node.wf(),
        capacity.rules() == node.rules(),
        bytes >= 1,
    ensures
        joint_refusal(&capacity, &node, peer, class, bytes) is None <==> bytes <= most_bytes(
            node.rules(),
            class,
        ) && peer_has_space(capacity, class, bytes) && node_has_space(node, class, bytes),
{
    lemma_peer_decides(capacity, peer, class, bytes);
    lemma_node_decides(node, peer, class, bytes);
    assert(peer_bytes_kept(capacity.rules()) =~= kept_bytes(capacity.rules()));
    assert(global_bytes_kept(capacity.rules()) =~= kept_bytes(capacity.rules()));
    reveal(fits);
}

/// A request that waits takes the next ticket and is counted at the node once with its bytes; one
/// that does not wait leaves the count and the tickets alone. A request touches its own class only,
/// and a refused one nothing at all.
pub proof fn law_waiting_requests_are_counted(
    capacity: &mut TransferCapacity,
    node: &mut GlobalTransferCapacity,
    peer: Did,
    class: TransferClass,
    bytes: usize,
    progress: AcquireProgress,
    other: int,
)
    requires
        old(capacity).wf(),
        old(node).wf(),
        old(capacity).rules() == old(node).rules(),
        call_ensures(TransferCapacity::acquire, (capacity, node, peer, class, bytes), progress),
        0 <= other < 4,
        other != column(class),
    ensures
        ({
            let asked = counted_bytes(bytes);
            let waits = progress is AwaitingPeer || progress is AwaitingNode;
            &&& progress matches AcquireProgress::AwaitingPeer(ticket) ==> ticket
                == old(node).ticket_to_give()
            &&& progress matches AcquireProgress::AwaitingNode(ticket, permit) ==> ticket
                == old(node).ticket_to_give() && permit.of_class() == class && permit.amount()
                == asked
            &&& waits ==> final(node).ticket_to_give() == old(node).ticket_to_give() + 1
                && final(node).budget().count == old(node).budget().count + 1
                && final(node).budget().bytes == old(node).budget().bytes + asked
            &&& !waits ==> final(node).ticket_to_give() == old(node).ticket_to_give()
                && final(node).budget() == old(node).budget()
            &&& !(progress is AwaitingPeer) ==> final(capacity).queue() == old(capacity).queue()
            &&& !(progress is AwaitingNode) ==> final(node).queue() == old(node).queue()
            &&& final(capacity).state().counts()[other] == old(capacity).state().counts()[other]
            &&& final(capacity).state().sizes()[other] == old(capacity).state().sizes()[other]
            &&& final(node).held()[other] == old(node).held()[other]
            &&& progress matches AcquireProgress::Acquired(permit) ==> permit.of_peer().of_class()
                == class && permit.of_peer().amount() == asked && permit.of_node().of_class()
                == class && permit.of_node().amount() == asked && !permit.on_link()
            &&& progress matches AcquireProgress::Refused(error) ==> error
                is OutboundTransferMemoryCapacityExceeded || error
                is OutboundTransferCapacityExceeded
            &&& final(capacity).state().ended_on_link() == old(capacity).state().ended_on_link()
            &&& final(capacity).number() == old(capacity).number()
        }),
{
}

/// The request at the node's front is granted exactly if its bytes fit; it holds its peer's part as
/// before, and nobody before it waits any more. Any other request goes on waiting, unchanged.
pub proof fn law_nodes_front_is_granted_its_peers_part(
    node: &mut GlobalTransferCapacity,
    ticket: u64,
    peer: Did,
    permit: PeerCapacityPermit,
    progress: AcquireProgress,
    other: int,
)
    requires
        old(node).wf(),
        call_ensures(TransferCapacity::resume_node, (node, ticket, peer, permit), progress),
        0 <= other < 4,
        other != column(permit.of_class()),
    ensures
        ({
            let class = permit.of_class();
            let front = old(node).queue().len() > 0 && old(node).queue()[0].ticket == ticket;
            &&& progress is Acquired <==> front && node_has_space(
                *old(node),
                class,
                permit.amount(),
            )
            &&& progress is Acquired || progress is AwaitingNode
            &&& progress matches AcquireProgress::Acquired(granted) ==> {
                &&& granted.of_peer() == permit
                &&& granted.of_node().of_class() == class
                &&& granted.of_node().amount() == permit.amount()
                &&& !granted.on_link()
                &&& final(node).held()[column(class)] == old(node).held()[column(class)]
                    + permit.amount()
                &&& final(node).queue() == old(node).queue().skip(1)
            }
            &&& progress matches AcquireProgress::AwaitingNode(kept, given) ==> {
                &&& kept == ticket
                &&& given == permit
                &&& final(node).held() == old(node).held()
                &&& final(node).queue() == old(node).queue()
                &&& final(node).budget() == old(node).budget()
            }
            &&& final(node).held()[other] == old(node).held()[other]
            &&& final(node).ticket_to_give() == old(node).ticket_to_give()
        }),
{
    lemma_node_decides(*old(node), peer, permit.of_class(), permit.amount());
    assert(old(node).queue().len() > 0 ==> old(node).queue().remove(0) =~= old(node).queue().skip(
        1,
    ));
    reveal(fits);
}

/// A request waits in `queue` under `ticket`.
pub open spec fn waits_under(queue: Seq<Waiter>, ticket: u64) -> bool {
    exists|i: int| 0 <= i < queue.len() && (#[trigger] queue[i]).ticket == ticket
}

proof fn lemma_first_place(queue: Seq<Waiter>, ticket: u64)
    ensures
        0 <= place_of(queue, ticket) <= queue.len(),
        place_of(queue, ticket) < queue.len() <==> waits_under(queue, ticket),
        place_of(queue, ticket) < queue.len() ==> queue[place_of(queue, ticket)].ticket == ticket,
    decreases queue.len(),
{
    if queue.len() > 0 {
        let rest = queue.drop_first();
        lemma_first_place(rest, ticket);
        if waits_under(rest, ticket) {
            let i = choose|i: int| 0 <= i < rest.len() && (#[trigger] rest[i]).ticket == ticket;
            assert(queue[i + 1].ticket == ticket);
        }
        if waits_under(queue, ticket) && queue[0].ticket != ticket {
            let i = choose|i: int| 0 <= i < queue.len() && (#[trigger] queue[i]).ticket == ticket;
            assert(rest[i - 1].ticket == ticket);
        }
        if queue[0].ticket != ticket && place_of(rest, ticket) < rest.len() {
            assert(queue[place_of(rest, ticket) + 1] == rest[place_of(rest, ticket)]);
        }
    }
}

/// A request that gives up waiting at its peer leaves the queue and the node's count, and nothing
/// else: nothing was held for it, and the others keep their order. One that does not wait changes
/// nothing.
pub proof fn law_abandoned_peer_wait_leaves_the_queue(
    capacity: &mut TransferCapacity,
    node: &mut GlobalTransferCapacity,
    ticket: u64,
    done: (),
)
    requires
        old(capacity).wf(),
        old(node).wf(),
        call_ensures(TransferCapacity::abandon_peer_wait, (capacity, node, ticket), done),
    ensures
        ({
            let before = old(capacity).queue();
            let after = final(capacity).queue();
            let waited = waits_under(before, ticket);
            &&& waited ==> exists|at: int|
                {
                    &&& 0 <= at < before.len()
                    &&& #[trigger] before[at].ticket == ticket
                    &&& after == before.take(at) + before.skip(at + 1)
                    &&& old(node).budget().count > 0 ==> final(node).budget().count
                        == old(node).budget().count - 1
                    &&& old(node).budget().bytes >= before[at].bytes ==> final(node).budget().bytes
                        == old(node).budget().bytes - before[at].bytes
                }
            &&& !waited ==> after == before && final(node).budget() == old(node).budget()
            &&& final(capacity).state() == old(capacity).state()
            &&& final(capacity).number() == old(capacity).number()
            &&& final(node).held() == old(node).held()
            &&& final(node).queue() == old(node).queue()
            &&& final(node).ticket_to_give() == old(node).ticket_to_give()
        }),
{
    let before = old(capacity).queue();
    lemma_first_place(before, ticket);
    let at = place_of(before, ticket);
    if at < before.len() {
        assert(before[at].ticket == ticket);
        assert(before.remove(at) =~= before.take(at) + before.skip(at + 1));
    }
}

/// A request that gives up waiting at the node gives its peer's part back, leaves the queue and the
/// node's count, and nothing else.
pub proof fn law_abandoned_node_wait_gives_the_peers_part_back(
    capacity: &mut TransferCapacity,
    node: &mut GlobalTransferCapacity,
    ticket: u64,
    permit: PeerCapacityPermit,
    done: (),
    other: int,
)
    requires
        old(capacity).wf(),
        old(node).wf(),
        old(capacity).holds(permit),
        call_ensures(TransferCapacity::abandon_node_wait, (capacity, node, ticket, permit), done),
        0 <= other < 4,
        other != column(permit.of_class()),
    ensures
        ({
            let class = column(permit.of_class());
            let before = old(node).queue();
            let waited = waits_under(before, ticket);
            &&& final(capacity).state().counts()[class] == old(capacity).state().counts()[class] - 1
            &&& final(capacity).state().sizes()[class] == old(capacity).state().sizes()[class]
                - permit.amount()
            &&& final(capacity).state().counts()[other] == old(capacity).state().counts()[other]
            &&& final(capacity).state().sizes()[other] == old(capacity).state().sizes()[other]
            &&& final(capacity).state().ended_on_link() == old(capacity).state().ended_on_link()
            &&& final(capacity).queue() == old(capacity).queue()
            &&& waited ==> exists|at: int|
                {
                    &&& 0 <= at < before.len()
                    &&& #[trigger] before[at].ticket == ticket
                    &&& final(node).queue() == before.take(at) + before.skip(at + 1)
                    &&& old(node).budget().count > 0 ==> final(node).budget().count
                        == old(node).budget().count - 1
                }
            &&& !waited ==> final(node).queue() == before && final(node).budget()
                == old(node).budget()
            &&& final(node).held() == old(node).held()
        }),
{
    let before = old(node).queue();
    lemma_first_place(before, ticket);
    let at = place_of(before, ticket);
    if at < before.len() {
        assert(before[at].ticket == ticket);
        assert(before.remove(at) =~= before.take(at) + before.skip(at + 1));
    }
}

/// A reservation or a release changes the amounts of its own class only.
pub proof fn law_amounts_of_other_classes_stay(
    amounts: Seq<usize>,
    class: TransferClass,
    bytes: int,
    other: int,
)
    requires
        amounts.len() == 4,
        0 <= other < 4,
        other != column(class),
        0 <= amounts[column(class)] + bytes <= usize::MAX,
        0 <= amounts[column(class)] - bytes <= usize::MAX,
    ensures
        raised(amounts, class, bytes)[other] == amounts[other],
        raised(amounts, class, bytes)[column(class)] == amounts[column(class)] + bytes,
        lowered(amounts, class, bytes)[other] == amounts[other],
        lowered(amounts, class, bytes)[column(class)] == amounts[column(class)] - bytes,
{
}

/// A request that waits at the node and is cancelled leaves the queue and the count; nothing is
/// given back, and the others keep their order.
pub proof fn law_cancelled_node_wait_leaves_the_queue(
    node: &mut GlobalTransferCapacity,
    ticket: u64,
    done: (),
)
    requires
        old(node).wf(),
        call_ensures(GlobalTransferCapacity::cancel_wait, (node, ticket), done),
    ensures
        ({
            let before = old(node).queue();
            let waited = waits_under(before, ticket);
            &&& waited ==> exists|at: int|
                {
                    &&& 0 <= at < before.len()
                    &&& #[trigger] before[at].ticket == ticket
                    &&& final(node).queue() == before.take(at) + before.skip(at + 1)
                    &&& old(node).budget().count > 0 ==> final(node).budget().count
                        == old(node).budget().count - 1
                }
            &&& !waited ==> final(node).queue() == before && final(node).budget()
                == old(node).budget()
            &&& final(node).held() == old(node).held()
            &&& final(node).ticket_to_give() == old(node).ticket_to_give()
        }),
{
    let before = old(node).queue();
    lemma_first_place(before, ticket);
    let at = place_of(before, ticket);
    if at < before.len() {
        assert(before[at].ticket == ticket);
        assert(before.remove(at) =~= before.take(at) + before.skip(at + 1));
    }
}

/// The peer's part is taken at once where it is admitted, waited for where it may be, and refused
/// else; the request at the peer's front takes it exactly once it fits, and a permit gives back
/// exactly what it holds.
pub proof fn law_peers_part_is_taken_and_given_back(
    asked: &mut TransferCapacity,
    node: &mut GlobalTransferCapacity,
    peer: Did,
    class: TransferClass,
    bytes: usize,
    step: AcquireStep<PeerCapacityPermit>,
    front: &mut TransferCapacity,
    front_node: &mut GlobalTransferCapacity,
    ticket: u64,
    admitted: Option<PeerCapacityPermit>,
    giving: &mut TransferCapacity,
    permit: PeerCapacityPermit,
    on_link: bool,
    done: (),
)
    requires
        old(asked).wf(),
        old(node).wf(),
        call_ensures(TransferCapacity::acquire_peer, (asked, node, peer, class, bytes), step),
        old(front).wf(),
        old(front_node).wf(),
        call_ensures(
            TransferCapacity::resume_peer,
            (front, front_node, ticket, peer, class, bytes),
            admitted,
        ),
        old(giving).wf(),
        old(giving).holds(permit),
        call_ensures(TransferCapacity::release_peer, (giving, permit, on_link), done),
    ensures
        step is Admitted <==> peer_admits_now(*old(asked), class, bytes),
        step matches AcquireStep::Admitted(granted) ==> {
            &&& granted.of_class() == class
            &&& granted.amount() == bytes
            &&& final(asked).state().counts()[column(class)]
                == old(asked).state().counts()[column(class)] + 1
            &&& final(asked).state().sizes()[column(class)]
                == old(asked).state().sizes()[column(class)] + bytes
            &&& final(asked).queue() == old(asked).queue()
        },
        !(step is Admitted) ==> final(asked).state() == old(asked).state(),
        step matches AcquireStep::Waiting(given) ==> given == old(node).ticket_to_give()
            && final(asked).queue().len() == old(asked).queue().len() + 1
            && final(asked).queue().last().ticket == given && final(asked).queue().last().bytes
            == bytes,
        admitted is Some <==> old(front).queue().len() > 0 && old(front).queue()[0].ticket == ticket
            && peer_has_space(*old(front), class, bytes),
        admitted matches Some(granted) ==> granted.of_class() == class && granted.amount() == bytes
            && final(front).state().counts()[column(class)]
            == old(front).state().counts()[column(class)] + 1 && final(front).queue()
            == old(front).queue().skip(1),
        admitted is None ==> final(front).state() == old(front).state() && final(front).queue()
            == old(front).queue(),
        final(giving).state().counts()[column(permit.of_class())]
            == old(giving).state().counts()[column(permit.of_class())] - 1,
        final(giving).state().sizes()[column(permit.of_class())]
            == old(giving).state().sizes()[column(permit.of_class())] - permit.amount(),
        !on_link ==> final(giving).state().ended_on_link() == old(giving).state().ended_on_link(),
        on_link && old(giving).state().ended_on_link() < u64::MAX
            ==> final(giving).state().ended_on_link() == old(giving).state().ended_on_link() + 1,
        final(giving).queue() == old(giving).queue(),
{
    lemma_peer_decides(*old(asked), peer, class, bytes);
    lemma_peer_decides(*old(front), peer, class, bytes);
    assert(old(front).queue().len() > 0 ==> old(front).queue().remove(0)
        =~= old(front).queue().skip(1));
    reveal(fits);
}

} // verus!

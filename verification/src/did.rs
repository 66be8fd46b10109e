//! Peer identities on the 160-bit ring.

use vstd::prelude::*;

use crate::ordered_map::OrderedKey;

verus! {

/// How many identities the ring holds.
pub open spec fn ring_size() -> int {
    1461501637330902918203684832716283019655932542976int
}

/// A peer identity: a position on the ring, most significant half first.
#[derive(Clone, Copy, Debug, PartialEq, Eq, PartialOrd, Ord, Hash, Structural)]
pub struct Did {
    /// The most significant 32 bits.
    pub high: u32,
    /// The least significant 128 bits.
    pub low: u128,
}

impl Did {
    /// The position on the ring.
    pub open spec fn position(self) -> int {
        self.high * 340282366920938463463374607431768211456int + self.low
    }

    /// The clockwise distance from `observer` to this identity.
    pub open spec fn distance_from(self, observer: Did) -> int {
        if self.position() >= observer.position() {
            self.position() - observer.position()
        } else {
            ring_size() - observer.position() + self.position()
        }
    }

    /// The identity at position `value`.
    pub fn from_u32(value: u32) -> (did: Did)
        ensures
            did.position() == value,
    {
        Did { high: 0, low: value as u128 }
    }

    /// Two identities at one position are the same identity.
    pub proof fn lemma_position_injective(a: Did, b: Did)
        ensures
            0 <= a.position() < ring_size(),
            a.position() == b.position() ==> a == b,
    {
    }

    /// The identity at the clockwise distance of `self` from `observer`.
    pub fn clockwise_from(self, observer: Did) -> (offset: Did)
        ensures
            offset.position() == self.distance_from(observer),
    {
        let low: u128 = self.low.wrapping_sub(observer.low);
        let carried: u32 = self.high.wrapping_sub(observer.high);
        let high: u32 = if self.low < observer.low {
            carried.wrapping_sub(1)
        } else {
            carried
        };
        Did { high, low }
    }

    /// Whether the clockwise walk from `observer` meets `self` before `other`.
    pub fn nearer_than(self, other: Did, observer: Did) -> (nearer: bool)
        ensures
            nearer == (self.distance_from(observer) < other.distance_from(observer)),
    {
        self.clockwise_from(observer).precedes(other.clockwise_from(observer))
    }

    /// Distances from one observer tell identities apart.
    pub proof fn lemma_distance_injective(a: Did, b: Did, observer: Did)
        ensures
            a.distance_from(observer) == b.distance_from(observer) ==> a == b,
    {
        Did::lemma_position_injective(a, b);
        Did::lemma_position_injective(b, a);
        Did::lemma_position_injective(observer, a);
    }
}

impl OrderedKey for Did {
    open spec fn rank(self) -> nat {
        self.position() as nat
    }

    proof fn lemma_rank_injective(a: Self, b: Self) {
        Did::lemma_position_injective(a, b);
        Did::lemma_position_injective(b, a);
    }

    fn precedes(self, other: Self) -> (before: bool) {
        self.high < other.high || (self.high == other.high && self.low < other.low)
    }
}

/// Distances are taken clockwise round the ring: an offset leads from the observer to the identity,
/// is none exactly at the observer itself, and of two identities the nearer one has the smaller
/// offset.
pub proof fn law_clockwise_offsets_lead_round_the_ring(
    first: Did,
    second: Did,
    observer: Did,
    offset: Did,
    other: Did,
    nearer: bool,
)
    requires
        call_ensures(Did::clockwise_from, (first, observer), offset),
        call_ensures(Did::clockwise_from, (second, observer), other),
        call_ensures(Did::nearer_than, (first, second, observer), nearer),
    ensures
        first.position() >= observer.position() ==> observer.position() + offset.position()
            == first.position(),
        first.position() < observer.position() ==> observer.position() + offset.position()
            == first.position() + ring_size(),
        0 <= offset.position() < ring_size(),
        nearer <==> offset.position() < other.position(),
{
}

/// An identity's place on the ring of 2^160 is its number.
pub proof fn law_identity_is_its_number(did: Did, value: u32, small: Did)
    requires
        call_ensures(Did::from_u32, (value,), small),
    ensures
        did.position() == did.high * 0x1_0000_0000_0000_0000_0000_0000_0000_0000int + did.low,
        ring_size() == 0x1_0000_0000int * 0x1_0000_0000_0000_0000_0000_0000_0000_0000int,
        small.position() == value,
{
}

} // verus!

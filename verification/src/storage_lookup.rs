//! The placement misses that storage lookups in progress have observed.
//!
//! A lookup opens a bucket; only an open bucket takes in misses, so a remote peer opens none.
//! A bucket that nothing has touched for the freshness interval is gone, and so are the oldest
//! ones past the capacity: no stale owner drives a late repair.

use vstd::prelude::*;

use crate::clock::elapsed_between;
use crate::clock::elapsed_ms;
use crate::did::Did;
use crate::error::Error;
use crate::ordered_map::OrderedKey;
use crate::ordered_map::OrderedMap;

verus! {

/// How long an untouched bucket is fresh.
pub const STORAGE_LOOKUP_OBSERVATION_TTL_MS: i64 = 30_000;

/// Most buckets.
pub const STORAGE_LOOKUP_OBSERVATION_CAPACITY: usize = 1024;

/// What a bucket is for.
#[derive(Clone, Copy, Debug, PartialEq, Eq, PartialOrd, Ord, Hash, Structural)]
pub struct StorageLookupObservationKey {
    /// The looked-up resource.
    pub resource: Did,
    /// The redundancy it is looked up with.
    pub redundancy: u16,
}

impl OrderedKey for StorageLookupObservationKey {
    open spec fn rank(self) -> nat {
        (self.resource.position() * 65536int + self.redundancy) as nat
    }

    proof fn lemma_rank_injective(a: Self, b: Self) {
        Did::lemma_position_injective(a.resource, b.resource);
        Did::lemma_position_injective(b.resource, a.resource);
    }

    fn precedes(self, other: Self) -> (before: bool) {
        proof {
            Did::lemma_position_injective(self.resource, other.resource);
            Did::lemma_position_injective(other.resource, self.resource);
        }
        self.resource.precedes(other.resource) || (self.resource == other.resource
            && self.redundancy < other.redundancy)
    }
}

/// A placement at which the responsible node holds nothing.
#[derive(Clone, Copy, Debug, PartialEq, Eq, PartialOrd, Ord, Hash, Structural)]
pub struct PlacementMiss {
    /// The placement.
    pub placement: Did,
    /// The node that should hold it.
    pub owner: Did,
}

impl OrderedKey for PlacementMiss {
    open spec fn rank(self) -> nat {
        (self.placement.position() * 1461501637330902918203684832716283019655932542976int
            + self.owner.position()) as nat
    }

    proof fn lemma_rank_injective(a: Self, b: Self) {
        Did::lemma_position_injective(a.placement, b.placement);
        Did::lemma_position_injective(b.placement, a.placement);
        Did::lemma_position_injective(a.owner, b.owner);
        Did::lemma_position_injective(b.owner, a.owner);
    }

    fn precedes(self, other: Self) -> (before: bool) {
        proof {
            Did::lemma_position_injective(self.placement, other.placement);
            Did::lemma_position_injective(other.placement, self.placement);
            Did::lemma_position_injective(self.owner, other.owner);
            Did::lemma_position_injective(other.owner, self.owner);
        }
        self.placement.precedes(other.placement) || (self.placement == other.placement
            && self.owner.precedes(other.owner))
    }
}

/// A bucket, as a value.
#[verifier::ext_equal]
pub struct Bucket {
    /// When it was last touched.
    pub observed_at_ms: i64,
    /// The misses it holds.
    pub misses: Set<PlacementMiss>,
}

/// A bucket.
pub struct StorageLookupObservation {
    observed_at_ms: i64,
    misses: OrderedMap<PlacementMiss, ()>,
}

impl StorageLookupObservation {
    /// The bucket, as a value.
    pub closed spec fn view(&self) -> Bucket {
        Bucket { observed_at_ms: self.observed_at_ms, misses: self.misses@.dom() }
    }

    /// The misses are in order.
    pub closed spec fn wf(&self) -> bool {
        self.misses.wf()
    }

    /// An empty bucket, touched at `now_ms`.
    fn open(now_ms: i64) -> (bucket: Self)
        ensures
            bucket.wf(),
            bucket@ == (Bucket { observed_at_ms: now_ms, misses: Set::empty() }),
    {
        let bucket = StorageLookupObservation { observed_at_ms: now_ms, misses: OrderedMap::new() };
        assert(bucket@.misses =~= Set::<PlacementMiss>::empty());
        bucket
    }

    /// Take in `misses` at `now_ms`.
    fn absorb(&mut self, misses: Vec<PlacementMiss>, now_ms: i64)
        requires
            old(self).wf(),
        ensures
            final(self).wf(),
            final(self)@ == (Bucket {
                observed_at_ms: now_ms,
                misses: old(self)@.misses.union(misses@.to_set()),
            }),
    {
        self.observed_at_ms = now_ms;
        let mut index: usize = 0;
        assert(self@.misses =~= old(self)@.misses.union(misses@.take(0).to_set()));
        while index < misses.len()
            invariant
                self.wf(),
                index <= misses@.len(),
                self.observed_at_ms == now_ms,
                self@.misses == old(self)@.misses.union(misses@.take(index as int).to_set()),
            decreases misses@.len() - index,
        {
            let miss = misses[index];
            let ghost before = self@.misses;
            self.misses.insert(miss, ());
            proof {
                let taken = misses@.take(index as int);
                let more = misses@.take(index as int + 1);
                assert(more =~= taken.push(miss));
                assert forall|m: PlacementMiss| more.to_set().contains(m) <==> taken.to_set().contains(
                    m,
                ) || m == miss by {
                    if taken.contains(m) {
                        let i = choose|i: int| 0 <= i < taken.len() && taken[i] == m;
                        assert(more[i] == m);
                    }
                    assert(more[index as int] == miss);
                    if more.contains(m) && m != miss {
                        let i = choose|i: int| 0 <= i < more.len() && more[i] == m;
                        assert(taken[i] == m);
                    }
                }
                assert(self@.misses =~= before.insert(miss));
                assert(self@.misses =~= old(self)@.misses.union(more.to_set()));
            }
            index += 1;
        }
        assert(misses@.take(index as int) =~= misses@);
    }

    /// Hand over the misses, in order.
    fn drain(&mut self) -> (misses: Vec<PlacementMiss>)
        requires
            old(self).wf(),
        ensures
            final(self).wf(),
            final(self)@ == (Bucket {
                observed_at_ms: old(self)@.observed_at_ms,
                misses: Set::empty(),
            }),
            misses@.to_set() == old(self)@.misses,
            forall|i: int, j: int|
                0 <= i < j < misses@.len() ==> (#[trigger] misses@[i]).rank() < (
                #[trigger] misses@[j]).rank(),
    {
        let mut taken: OrderedMap<PlacementMiss, ()> = OrderedMap::new();
        core::mem::swap(&mut self.misses, &mut taken);
        let mut misses: Vec<PlacementMiss> = Vec::new();
        let count: usize = taken.len();
        let mut index: usize = 0;
        while index < count
            invariant
                taken.wf(),
                index <= count == taken.listing().len(),
                misses@.len() == index,
                forall|i: int| 0 <= i < index ==> #[trigger] misses@[i] == taken.listing()[i].0,
            decreases count - index,
        {
            misses.push(taken.entry_at(index).0);
            index += 1;
        }
        proof {
            taken.lemma_listing();
            assert(self@.misses =~= Set::<PlacementMiss>::empty());
            assert forall|miss: PlacementMiss| misses@.to_set().contains(miss) <==> old(
                self,
            )@.misses.contains(miss) by {
                if misses@.contains(miss) {
                    let i = choose|i: int| 0 <= i < misses@.len() && misses@[i] == miss;
                    assert(taken@.contains_pair(taken.listing()[i].0, taken.listing()[i].1));
                }
                if taken@.contains_key(miss) {
                    let i = choose|i: int|
                        0 <= i < taken.listing().len() && (#[trigger] taken.listing()[i]).0 == miss;
                    assert(misses@[i] == miss);
                }
            }
            assert(misses@.to_set() =~= old(self)@.misses);
            assert forall|i: int, j: int| 0 <= i < j < misses@.len() implies (
            #[trigger] misses@[i]).rank() < (#[trigger] misses@[j]).rank() by {
                assert(taken.listing()[i].0.rank() < taken.listing()[j].0.rank());
            }
        }
        misses
    }
}

/// The open buckets.
pub type Buckets = Map<StorageLookupObservationKey, Bucket>;

/// The bucket was touched within the freshness interval.
pub open spec fn is_fresh(bucket: Bucket, now_ms: i64) -> bool {
    elapsed_between(now_ms, bucket.observed_at_ms) <= STORAGE_LOOKUP_OBSERVATION_TTL_MS
}

/// The fresh buckets.
pub open spec fn surviving(buckets: Buckets, now_ms: i64) -> Buckets {
    buckets.restrict(
        buckets.dom().filter(|key: StorageLookupObservationKey| is_fresh(buckets[key], now_ms)),
    )
}

/// `a` was touched before `b`, or at the same time and comes first.
pub open spec fn is_older(
    buckets: Buckets,
    a: StorageLookupObservationKey,
    b: StorageLookupObservationKey,
) -> bool {
    buckets[a].observed_at_ms < buckets[b].observed_at_ms || (buckets[a].observed_at_ms
        == buckets[b].observed_at_ms && a.rank() < b.rank())
}

/// `after` is `before` without its oldest buckets, down to `capacity`.
pub open spec fn trimmed(before: Buckets, after: Buckets, capacity: nat) -> bool {
    &&& after.submap_of(before)
    &&& after.dom().len() == (if before.dom().len() <= capacity {
        before.dom().len()
    } else {
        capacity
    })
    &&& forall|gone: StorageLookupObservationKey, kept: StorageLookupObservationKey|
        before.contains_key(gone) && !after.contains_key(gone) && after.contains_key(kept)
            ==> #[trigger] is_older(before, gone, kept)
}

/// The buckets of the lookups in progress.
pub struct StorageLookups {
    buckets: OrderedMap<StorageLookupObservationKey, StorageLookupObservation>,
}

impl StorageLookups {
    /// The buckets, as values.
    pub closed spec fn view(&self) -> Buckets {
        Map::new(
            |key: StorageLookupObservationKey| self.buckets@.contains_key(key),
            |key: StorageLookupObservationKey| self.buckets@[key]@,
        )
    }

    closed spec fn ordered(&self) -> bool {
        &&& self.buckets.wf()
        &&& forall|key: StorageLookupObservationKey| #[trigger]
            self.buckets@.contains_key(key) ==> self.buckets@[key].wf()
    }

    /// There are at most as many buckets as the capacity.
    pub closed spec fn wf(&self) -> bool {
        &&& self.ordered()
        &&& self.buckets@.dom().len() <= STORAGE_LOOKUP_OBSERVATION_CAPACITY
    }

    proof fn lemma_same_domain(&self)
        ensures
            self@.dom() == self.buckets@.dom(),
    {
        assert(self@.dom() =~= self.buckets@.dom());
    }

    /// No bucket.
    pub fn new() -> (lookups: Self)
        ensures
            lookups.wf(),
            lookups@ == Map::<StorageLookupObservationKey, Bucket>::empty(),
    {
        let lookups = StorageLookups { buckets: OrderedMap::new() };
        assert(lookups@ =~= Map::<StorageLookupObservationKey, Bucket>::empty());
        assert(lookups.buckets@.dom() =~= Set::<StorageLookupObservationKey>::empty());
        lookups
    }

    /// How many buckets there are.
    pub fn len(&self) -> (len: usize)
        requires
            self.wf(),
        ensures
            len == self@.dom().len(),
            len <= STORAGE_LOOKUP_OBSERVATION_CAPACITY,
    {
        proof {
            self.lemma_same_domain();
        }
        self.buckets.len()
    }

    /// The place of the oldest bucket.
    fn oldest(&self) -> (oldest: usize)
        requires
            self.ordered(),
            self.buckets.listing().len() > 0,
        ensures
            oldest < self.buckets.listing().len(),
            forall|j: int|
                0 <= j < self.buckets.listing().len() && j != oldest ==> #[trigger] is_older(
                    self@,
                    self.buckets.listing()[oldest as int].0,
                    self.buckets.listing()[j].0,
                ),
    {
        let count: usize = self.buckets.len();
        let mut oldest: usize = 0;
        let mut index: usize = 1;
        proof {
            self.buckets.lemma_listing();
            self.lemma_listed();
        }
        while index < count
            invariant
                self.ordered(),
                1 <= index <= count == self.buckets.listing().len(),
                oldest < index,
                forall|j: int|
                    0 <= j < self.buckets.listing().len() ==> self@.contains_pair(
                        (#[trigger] self.buckets.listing()[j]).0,
                        self.buckets.listing()[j].1@,
                    ),
                forall|j: int|
                    0 <= j < index && j != oldest ==> #[trigger] is_older(
                        self@,
                        self.buckets.listing()[oldest as int].0,
                        self.buckets.listing()[j].0,
                    ),
            decreases count - index,
        {
            let best: i64 = self.buckets.entry_at(oldest).1.observed_at_ms;
            let here: i64 = self.buckets.entry_at(index).1.observed_at_ms;
            proof {
                assert(self@.contains_pair(
                    self.buckets.listing()[oldest as int].0,
                    self.buckets.listing()[oldest as int].1@,
                ));
                assert(self@.contains_pair(
                    self.buckets.listing()[index as int].0,
                    self.buckets.listing()[index as int].1@,
                ));
                assert(self.buckets.listing()[oldest as int].0.rank()
                    < self.buckets.listing()[index as int].0.rank());
            }
            if here < best {
                proof {
                    assert forall|j: int| 0 <= j < index + 1 && j != index implies
                        #[trigger] is_older(
                        self@,
                        self.buckets.listing()[index as int].0,
                        self.buckets.listing()[j].0,
                    ) by {
                        if j != oldest {
                            assert(is_older(
                                self@,
                                self.buckets.listing()[oldest as int].0,
                                self.buckets.listing()[j].0,
                            ));
                        }
                    }
                }
                oldest = index;
            }
            index += 1;
        }
        oldest
    }

    proof fn lemma_listed(&self)
        requires
            self.ordered(),
        ensures
            forall|j: int|
                0 <= j < self.buckets.listing().len() ==> self@.contains_pair(
                    (#[trigger] self.buckets.listing()[j]).0,
                    self.buckets.listing()[j].1@,
                ),
            forall|key: StorageLookupObservationKey| #[trigger]
                self@.contains_key(key) ==> exists|j: int|
                    0 <= j < self.buckets.listing().len() && (
                    #[trigger] self.buckets.listing()[j]).0 == key,
            self@.dom().finite(),
            self@.dom().len() == self.buckets.listing().len(),
    {
        self.buckets.lemma_listing();
        self.lemma_same_domain();
        assert forall|j: int| 0 <= j < self.buckets.listing().len() implies self@.contains_pair(
            (#[trigger] self.buckets.listing()[j]).0,
            self.buckets.listing()[j].1@,
        ) by {
            assert(self.buckets@.contains_pair(
                self.buckets.listing()[j].0,
                self.buckets.listing()[j].1,
            ));
        }
    }

    /// Forget the oldest buckets, down to `capacity`.
    fn trim(&mut self, capacity: usize)
        requires
            old(self).ordered(),
        ensures
            final(self).ordered(),
            trimmed(old(self)@, final(self)@, capacity as nat),
    {
        proof {
            self.lemma_listed();
        }
        while self.buckets.len() > capacity
            invariant
                self.ordered(),
                self@.submap_of(old(self)@),
                old(self)@.dom().finite(),
                self@.dom().finite(),
                old(self)@.dom().len() <= capacity ==> self@ == old(self)@,
                old(self)@.dom().len() > capacity ==> self@.dom().len() >= capacity,
                forall|gone: StorageLookupObservationKey, kept: StorageLookupObservationKey|
                    old(self)@.contains_key(gone) && !self@.contains_key(gone)
                        && self@.contains_key(kept) ==> #[trigger] is_older(
                        old(self)@,
                        gone,
                        kept,
                    ),
            decreases self@.dom().len(),
        {
            proof {
                self.lemma_listed();
                self.lemma_same_domain();
            }
            let ghost before = self@;
            let index: usize = self.oldest();
            let ghost key = self.buckets.listing()[index as int].0;
            proof {
                assert forall|kept: StorageLookupObservationKey|
                    before.contains_key(kept) && kept != key implies is_older(
                    before,
                    key,
                    kept,
                ) by {
                    let j = choose|j: int|
                        0 <= j < self.buckets.listing().len() && (
                        #[trigger] self.buckets.listing()[j]).0 == kept;
                    assert(is_older(
                        self@,
                        self.buckets.listing()[index as int].0,
                        self.buckets.listing()[j].0,
                    ));
                }
                assert(before.contains_pair(key, self.buckets.listing()[index as int].1@));
            }
            let _ = self.buckets.remove_at(index);
            proof {
                assert(self@ =~= before.remove(key));
                assert(self@.dom() =~= before.dom().remove(key));
                assert forall|gone: StorageLookupObservationKey, kept: StorageLookupObservationKey|
                    old(self)@.contains_key(gone) && !self@.contains_key(gone)
                        && self@.contains_key(kept) implies #[trigger] is_older(
                    old(self)@,
                    gone,
                    kept,
                ) by {
                    if gone == key {
                        assert(is_older(before, key, kept));
                    }
                }
            }
        }
        proof {
            self.lemma_same_domain();
            self.lemma_listed();
        }
    }

    /// Forget every stale bucket, and the oldest past the capacity.
    pub fn evict(&mut self, now_ms: i64)
        requires
            old(self).wf(),
        ensures
            final(self).wf(),
            final(self)@ == surviving(old(self)@, now_ms),
    {
        let mut index: usize = 0;
        proof {
            self.lemma_listed();
        }
        while index < self.buckets.len()
            invariant
                self.ordered(),
                old(self).wf(),
                old(self)@.dom().finite(),
                self@.submap_of(old(self)@),
                self@.dom().finite(),
                index <= self.buckets.listing().len(),
                forall|key: StorageLookupObservationKey|
                    #![trigger self@.contains_key(key)]
                    old(self)@.contains_key(key) && !self@.contains_key(key) ==> !is_fresh(
                        old(self)@[key],
                        now_ms,
                    ),
                forall|j: int|
                    0 <= j < index ==> is_fresh(
                        (#[trigger] self.buckets.listing()[j]).1@,
                        now_ms,
                    ),
            decreases self.buckets.listing().len() - index,
        {
            let ghost before = self@;
            let ghost listing = self.buckets.listing();
            proof {
                self.lemma_listed();
                assert(before.contains_pair(
                    listing[index as int].0,
                    listing[index as int].1@,
                ));
            }
            if elapsed_ms(now_ms, self.buckets.entry_at(index).1.observed_at_ms)
                > STORAGE_LOOKUP_OBSERVATION_TTL_MS {
                let _ = self.buckets.remove_at(index);
                proof {
                    assert(self@ =~= before.remove(listing[index as int].0));
                    assert forall|j: int| 0 <= j < index implies is_fresh(
                        (#[trigger] self.buckets.listing()[j]).1@,
                        now_ms,
                    ) by {
                        assert(self.buckets.listing()[j] == listing[j]);
                    }
                }
            } else {
                index += 1;
            }
        }
        proof {
            self.lemma_listed();
            assert forall|key: StorageLookupObservationKey| #[trigger]
                self@.contains_key(key) implies is_fresh(old(self)@[key], now_ms) by {
                let j = choose|j: int|
                    0 <= j < self.buckets.listing().len() && (
                    #[trigger] self.buckets.listing()[j]).0 == key;
                assert(self@.contains_pair(
                    self.buckets.listing()[j].0,
                    self.buckets.listing()[j].1@,
                ));
            }
            assert(self@ =~= surviving(old(self)@, now_ms));
            vstd::set_lib::lemma_len_subset(self@.dom(), old(self)@.dom());
            old(self).lemma_same_domain();
        }
        self.trim(STORAGE_LOOKUP_OBSERVATION_CAPACITY);
        proof {
            self.lemma_listed();
            self.lemma_same_domain();
            let kept = surviving(old(self)@, now_ms);
            assert(self@.dom() =~= kept.dom()) by {
                vstd::set_lib::lemma_subset_equality(self@.dom(), kept.dom());
            }
            assert(self@ =~= kept);
        }
    }

    /// Open an empty bucket for a new lookup of `resource`, in place of an earlier one; `check` is
    /// the check of the redundancy.
    pub fn start_storage_lookup(
        &mut self,
        resource: Did,
        redundancy: u16,
        check: Result<(), Error>,
        now_ms: i64,
    ) -> (started: Result<(), Error>)
        requires
            old(self).wf(),
        ensures
            final(self).wf(),
            started is Ok <==> check is Ok,
            check is Err ==> started == check && final(self)@ == old(self)@,
            check is Ok ==> exists|kept: Buckets| #[trigger]
                trimmed(
                    surviving(old(self)@, now_ms),
                    kept,
                    (STORAGE_LOOKUP_OBSERVATION_CAPACITY - 1) as nat,
                ) && final(self)@ == kept.insert(
                    StorageLookupObservationKey { resource, redundancy },
                    Bucket { observed_at_ms: now_ms, misses: Set::empty() },
                ),
    {
        match check {
            Err(error) => {
                return Err(error);
            },
            Ok(()) => {},
        }
        let key = StorageLookupObservationKey { resource, redundancy };
        self.evict(now_ms);
        assert(self@ == surviving(old(self)@, now_ms));
        self.trim(STORAGE_LOOKUP_OBSERVATION_CAPACITY - 1);
        let ghost kept = self@;
        assert(trimmed(
            surviving(old(self)@, now_ms),
            kept,
            (STORAGE_LOOKUP_OBSERVATION_CAPACITY - 1) as nat,
        ));
        proof {
            self.lemma_listed();
            self.lemma_same_domain();
        }
        self.buckets.insert(key, StorageLookupObservation::open(now_ms));
        proof {
            self.lemma_same_domain();
            assert(self@ =~= kept.insert(
                key,
                Bucket { observed_at_ms: now_ms, misses: Set::empty() },
            ));
            assert(self@.dom() =~= kept.dom().insert(key));
        }
        Ok(())
    }

    /// Check that a lookup of `resource` is in progress.
    pub fn ensure_storage_lookup_active(
        &mut self,
        resource: Did,
        redundancy: u16,
        check: Result<(), Error>,
        now_ms: i64,
    ) -> (active: Result<(), Error>)
        requires
            old(self).wf(),
        ensures
            final(self).wf(),
            check is Err ==> active == check && final(self)@ == old(self)@,
            check is Ok ==> {
                let kept = surviving(old(self)@, now_ms);
                &&& final(self)@ == kept
                &&& active is Ok <==> kept.contains_key(
                    StorageLookupObservationKey { resource, redundancy },
                )
                &&& active is Err ==> is_invalid(
                    active->Err_0,
                    "storage lookup response has no active local lookup"@,
                )
            },
    {
        match check {
            Err(error) => {
                return Err(error);
            },
            Ok(()) => {},
        }
        self.evict(now_ms);
        if self.buckets.contains_key(StorageLookupObservationKey { resource, redundancy }) {
            Ok(())
        } else {
            Err(
                Error::InvalidMessage(
                    "storage lookup response has no active local lookup".to_owned(),
                ),
            )
        }
    }

    /// Take `misses` into the bucket of the lookup of `resource`, if it is in progress.
    pub fn observe_storage_misses(
        &mut self,
        resource: Did,
        redundancy: u16,
        check: Result<(), Error>,
        misses: Vec<PlacementMiss>,
        now_ms: i64,
    ) -> (observed: Result<(), Error>)
        requires
            old(self).wf(),
        ensures
            final(self).wf(),
            check is Err ==> observed == check && final(self)@ == old(self)@,
            check is Ok && misses@.len() == 0 ==> observed is Ok && final(self)@ == old(self)@,
            check is Ok && misses@.len() > 0 ==> {
                let key = StorageLookupObservationKey { resource, redundancy };
                let kept = surviving(old(self)@, now_ms);
                if kept.contains_key(key) {
                    &&& observed is Ok
                    &&& final(self)@ == kept.insert(
                        key,
                        Bucket {
                            observed_at_ms: now_ms,
                            misses: kept[key].misses.union(misses@.to_set()),
                        },
                    )
                } else {
                    &&& observed is Err && is_invalid(
                        observed->Err_0,
                        "storage miss observation has no active local lookup"@,
                    )
                    &&& final(self)@ == kept
                }
            },
    {
        match check {
            Err(error) => {
                return Err(error);
            },
            Ok(()) => {},
        }
        if misses.len() == 0 {
            return Ok(());
        }
        let key = StorageLookupObservationKey { resource, redundancy };
        self.evict(now_ms);
        let ghost kept = self@;
        let ghost table = self.buckets@;
        proof {
            self.lemma_listed();
            self.lemma_same_domain();
        }
        match self.buckets.get_mut(key) {
            Some(bucket) => {
                bucket.absorb(misses, now_ms);
            },
            None => {
                return Err(
                    Error::InvalidMessage(
                        "storage miss observation has no active local lookup".to_owned(),
                    ),
                );
            },
        }
        proof {
            assert(self@ =~= kept.insert(key, self.buckets@[key]@));
            assert(self.buckets@.dom() =~= table.dom());
        }
        let ghost updated = self@;
        self.evict(now_ms);
        proof {
            assert(surviving(updated, now_ms) =~= updated) by {
                assert forall|k: StorageLookupObservationKey| updated.contains_key(k) implies
                    is_fresh(updated[k], now_ms) by {
                    if k != key {
                        assert(kept.contains_key(k));
                    }
                }
            }
        }
        Ok(())
    }

    /// Hand over the misses of the lookup of `resource`, leaving its bucket open and empty.
    pub fn take_storage_misses(
        &mut self,
        resource: Did,
        redundancy: u16,
        check: Result<(), Error>,
        now_ms: i64,
    ) -> (taken: Result<Vec<PlacementMiss>, Error>)
        requires
            old(self).wf(),
        ensures
            final(self).wf(),
            check is Err ==> taken == Err::<Vec<PlacementMiss>, Error>(check->Err_0)
                && final(self)@ == old(self)@,
            check is Ok ==> {
                let key = StorageLookupObservationKey { resource, redundancy };
                let kept = surviving(old(self)@, now_ms);
                match taken {
                    Ok(misses) => {
                        &&& kept.contains_key(key)
                        &&& misses@.to_set() == kept[key].misses
                        &&& forall|i: int, j: int|
                            0 <= i < j < misses@.len() ==> (#[trigger] misses@[i]).rank() < (
                            #[trigger] misses@[j]).rank()
                        &&& final(self)@ == kept.insert(
                            key,
                            Bucket {
                                observed_at_ms: kept[key].observed_at_ms,
                                misses: Set::empty(),
                            },
                        )
                    },
                    Err(error) => {
                        &&& !kept.contains_key(key)
                        &&& is_invalid(error, "storage repair has no active local lookup"@)
                        &&& final(self)@ == kept
                    },
                }
            },
    {
        match check {
            Err(error) => {
                return Err(error);
            },
            Ok(()) => {},
        }
        let key = StorageLookupObservationKey { resource, redundancy };
        self.evict(now_ms);
        let ghost kept = self@;
        let ghost table = self.buckets@;
        proof {
            self.lemma_listed();
            self.lemma_same_domain();
        }
        let misses = match self.buckets.get_mut(key) {
            Some(bucket) => bucket.drain(),
            None => {
                return Err(
                    Error::InvalidMessage("storage repair has no active local lookup".to_owned()),
                );
            },
        };
        proof {
            assert(self@ =~= kept.insert(key, self.buckets@[key]@));
            assert(self.buckets@.dom() =~= table.dom());
        }
        Ok(misses)
    }
}

/// `error` says that a message breaks the protocol, in these words.
pub open spec fn is_invalid(error: Error, words: Seq<char>) -> bool {
    match error {
        Error::InvalidMessage(message) => message@ == words,
        _ => false,
    }
}

/// What survives an eviction is fresh, and evicting again at the same time changes nothing.
pub proof fn law_surviving_buckets_are_fresh(buckets: Buckets, now_ms: i64)
    ensures
        forall|key: StorageLookupObservationKey| #[trigger]
            surviving(buckets, now_ms).contains_key(key) ==> is_fresh(
                surviving(buckets, now_ms)[key],
                now_ms,
            ),
        surviving(surviving(buckets, now_ms), now_ms) == surviving(buckets, now_ms),
{
    assert(surviving(surviving(buckets, now_ms), now_ms) =~= surviving(buckets, now_ms));
}

/// Trimming never drops a bucket to keep an older one, and drops none below the capacity.
pub proof fn law_trimming_keeps_the_newest(
    before: Buckets,
    after: Buckets,
    capacity: nat,
    gone: StorageLookupObservationKey,
    kept: StorageLookupObservationKey,
)
    requires
        trimmed(before, after, capacity),
        before.dom().finite(),
        before.contains_key(gone),
        !after.contains_key(gone),
        after.contains_key(kept),
    ensures
        is_older(before, gone, kept),
        after.dom().len() == capacity,
{
    assert(after.dom().subset_of(before.dom()));
    assert(is_older(before, gone, kept));
    if before.dom().len() <= capacity {
        vstd::set_lib::lemma_subset_equality(after.dom(), before.dom());
    }
}

/// A lookup is active for 30 seconds after it was last touched and no longer. Asking forgets the
/// ones that are over and changes no other.
pub proof fn law_lookup_is_active_for_its_time(
    lookups: &mut StorageLookups,
    resource: Did,
    redundancy: u16,
    now_ms: i64,
    active: Result<(), Error>,
    key: StorageLookupObservationKey,
)
    requires
        old(lookups).wf(),
        call_ensures(
            StorageLookups::ensure_storage_lookup_active,
            (lookups, resource, redundancy, Ok(()), now_ms),
            active,
        ),
    ensures
        ({
            let asked = StorageLookupObservationKey { resource, redundancy };
            active is Ok <==> old(lookups)@.contains_key(asked) && now_ms - old(lookups)@[asked].observed_at_ms <= 30_000
        }),
        final(lookups)@.contains_key(key) <==> old(lookups)@.contains_key(key) && now_ms - old(lookups)@[key].observed_at_ms <= 30_000,
        final(lookups)@.contains_key(key) ==> final(lookups)@[key] == old(lookups)@[key],
{
}

/// Forgetting old lookups drops exactly those untouched for more than 30 seconds.
pub proof fn law_eviction_drops_what_is_over(
    lookups: &mut StorageLookups,
    now_ms: i64,
    key: StorageLookupObservationKey,
)
    requires
        old(lookups).wf(),
        call_ensures(StorageLookups::evict, (lookups, now_ms), ()),
    ensures
        final(lookups)@.contains_key(key) <==> old(lookups)@.contains_key(key) && now_ms - old(lookups)@[key].observed_at_ms <= 30_000,
        final(lookups)@.contains_key(key) ==> final(lookups)@[key] == old(lookups)@[key],
{
}

/// A started lookup begins empty and touched now, whatever it held before. A lookup that was
/// refused changes nothing. Below the capacity of 1024 no active lookup is forgotten for it, and at
/// it none that was touched later than one that stays; of two touched at once the lower key goes.
pub proof fn law_started_lookup_begins_empty(
    lookups: &mut StorageLookups,
    resource: Did,
    redundancy: u16,
    check: Result<(), Error>,
    now_ms: i64,
    started: Result<(), Error>,
    other: StorageLookupObservationKey,
    kept: StorageLookupObservationKey,
)
    requires
        old(lookups).wf(),
        call_ensures(
            StorageLookups::start_storage_lookup,
            (lookups, resource, redundancy, check, now_ms),
            started,
        ),
        other != (StorageLookupObservationKey { resource, redundancy }),
        kept != (StorageLookupObservationKey { resource, redundancy }),
    ensures
        started is Ok <==> check is Ok,
        started is Err ==> final(lookups)@ == old(lookups)@ && started == check,
        started is Ok ==> {
            let key = StorageLookupObservationKey { resource, redundancy };
            &&& final(lookups)@.contains_key(key)
            &&& final(lookups)@[key].observed_at_ms == now_ms
            &&& forall|miss: PlacementMiss| !(#[trigger] final(lookups)@[key].misses.contains(miss))
            &&& final(lookups)@.contains_key(other) ==> old(lookups)@.contains_key(other) && final(lookups)@[other] == old(lookups)@[other] && now_ms - old(lookups)@[other].observed_at_ms
                <= 30_000
            &&& old(lookups)@.dom().len() < 1024 && old(lookups)@.contains_key(other) && now_ms
                - old(lookups)@[other].observed_at_ms <= 30_000 ==> final(lookups)@.contains_key(
                other,
            )
            &&& old(lookups)@.contains_key(other) && now_ms - old(lookups)@[other].observed_at_ms
                <= 30_000 && !final(lookups)@.contains_key(other) && final(lookups)@.contains_key(
                kept,
            ) ==> old(lookups)@[other].observed_at_ms <= old(lookups)@[kept].observed_at_ms
            &&& old(lookups)@.contains_key(other) && now_ms - old(lookups)@[other].observed_at_ms
                <= 30_000 && !final(lookups)@.contains_key(other) && final(lookups)@.contains_key(
                kept,
            ) && old(lookups)@[other].observed_at_ms == old(lookups)@[kept].observed_at_ms
                ==> other.rank() < kept.rank()
        },
{
    if check is Ok {
        let live = surviving(old(lookups)@, now_ms);
        let key = StorageLookupObservationKey { resource, redundancy };
        let stays = choose|stays: Buckets| #[trigger]
            trimmed(live, stays, (STORAGE_LOOKUP_OBSERVATION_CAPACITY - 1) as nat) && final(lookups)@ == stays.insert(key, Bucket { observed_at_ms: now_ms, misses: Set::empty() });
        assert(stays.dom().subset_of(live.dom()));
        assert(live.dom().subset_of(old(lookups)@.dom()));
        old(lookups).lemma_listed();
        vstd::set_lib::lemma_len_subset(live.dom(), old(lookups)@.dom());
        if old(lookups)@.dom().len() < 1024 {
            vstd::set_lib::lemma_subset_equality(stays.dom(), live.dom());
        }
        if live.contains_key(other) && !stays.contains_key(other) && stays.contains_key(kept) {
            assert(is_older(live, other, kept));
        }
    }
}

/// Misses are taken in exactly while their lookup is active: then it holds them together with those
/// it held, and it is touched. No misses change nothing.
pub proof fn law_misses_join_their_active_lookup(
    lookups: &mut StorageLookups,
    resource: Did,
    redundancy: u16,
    misses: Vec<PlacementMiss>,
    now_ms: i64,
    observed: Result<(), Error>,
    miss: PlacementMiss,
)
    requires
        old(lookups).wf(),
        call_ensures(
            StorageLookups::observe_storage_misses,
            (lookups, resource, redundancy, Ok(()), misses, now_ms),
            observed,
        ),
    ensures
        misses@.len() == 0 ==> observed is Ok && final(lookups)@ == old(lookups)@,
        misses@.len() > 0 ==> {
            let key = StorageLookupObservationKey { resource, redundancy };
            &&& observed is Ok <==> old(lookups)@.contains_key(key) && now_ms - old(lookups)@[key].observed_at_ms <= 30_000
            &&& observed is Ok ==> final(lookups)@.contains_key(key) && final(lookups)@[key].observed_at_ms == now_ms && (final(lookups)@[key].misses.contains(miss)
                <==> old(lookups)@[key].misses.contains(miss) || misses@.contains(miss))
            &&& observed is Err ==> !final(lookups)@.contains_key(key)
        },
{
}

/// Misses are handed over exactly while their lookup is active, each once, and then it holds none;
/// it stays active as long as before.
pub proof fn law_misses_are_handed_over_once(
    lookups: &mut StorageLookups,
    resource: Did,
    redundancy: u16,
    now_ms: i64,
    taken: Result<Vec<PlacementMiss>, Error>,
    miss: PlacementMiss,
)
    requires
        old(lookups).wf(),
        call_ensures(
            StorageLookups::take_storage_misses,
            (lookups, resource, redundancy, Ok(()), now_ms),
            taken,
        ),
    ensures
        ({
            let key = StorageLookupObservationKey { resource, redundancy };
            &&& taken is Ok <==> old(lookups)@.contains_key(key) && now_ms - old(lookups)@[key].observed_at_ms <= 30_000
            &&& taken matches Ok(misses) ==> {
                &&& misses@.contains(miss) <==> old(lookups)@[key].misses.contains(miss)
                &&& misses@.no_duplicates()
                &&& final(lookups)@.contains_key(key)
                &&& !final(lookups)@[key].misses.contains(miss)
                &&& final(lookups)@[key].observed_at_ms == old(lookups)@[key].observed_at_ms
            }
        }),
{
    if let Ok(misses) = taken {
        let key = StorageLookupObservationKey { resource, redundancy };
        assert(misses@.to_set().contains(miss) <==> old(lookups)@[key].misses.contains(miss));
        assert forall|i: int, j: int| 0 <= i < misses@.len() && 0 <= j < misses@.len() && i
            != j implies misses@[i] != misses@[j] by {
            if i < j {
                assert(misses@[i].rank() < misses@[j].rank());
            } else {
                assert(misses@[j].rank() < misses@[i].rank());
            }
        }
    }
}

/// A request that its check refused is answered with the check's error and changes no lookup.
pub proof fn law_refused_check_changes_no_lookup(
    asked: &mut StorageLookups,
    active: Result<(), Error>,
    observing: &mut StorageLookups,
    misses: Vec<PlacementMiss>,
    observed: Result<(), Error>,
    taking: &mut StorageLookups,
    taken: Result<Vec<PlacementMiss>, Error>,
    resource: Did,
    redundancy: u16,
    refusal: Error,
    now_ms: i64,
)
    requires
        old(asked).wf(),
        call_ensures(
            StorageLookups::ensure_storage_lookup_active,
            (asked, resource, redundancy, Err(refusal), now_ms),
            active,
        ),
        old(observing).wf(),
        call_ensures(
            StorageLookups::observe_storage_misses,
            (observing, resource, redundancy, Err(refusal), misses, now_ms),
            observed,
        ),
        old(taking).wf(),
        call_ensures(
            StorageLookups::take_storage_misses,
            (taking, resource, redundancy, Err(refusal), now_ms),
            taken,
        ),
    ensures
        active matches Err(error) && error == refusal,
        final(asked)@ == old(asked)@,
        observed matches Err(error) && error == refusal,
        final(observing)@ == old(observing)@,
        taken matches Err(error) && error == refusal,
        final(taking)@ == old(taking)@,
{
}

/// Misses that are noted for one lookup, or taken from it, leave every other active lookup as it
/// was.
pub proof fn law_lookups_are_kept_apart(
    observing: &mut StorageLookups,
    misses: Vec<PlacementMiss>,
    observed: Result<(), Error>,
    taking: &mut StorageLookups,
    taken: Result<Vec<PlacementMiss>, Error>,
    resource: Did,
    redundancy: u16,
    now_ms: i64,
    other: StorageLookupObservationKey,
)
    requires
        old(observing).wf(),
        misses@.len() > 0,
        call_ensures(
            StorageLookups::observe_storage_misses,
            (observing, resource, redundancy, Ok(()), misses, now_ms),
            observed,
        ),
        old(taking).wf(),
        call_ensures(
            StorageLookups::take_storage_misses,
            (taking, resource, redundancy, Ok(()), now_ms),
            taken,
        ),
        other != (StorageLookupObservationKey { resource, redundancy }),
    ensures
        final(observing)@.contains_key(other) <==> old(observing)@.contains_key(other) && now_ms
            - old(observing)@[other].observed_at_ms <= 30_000,
        final(observing)@.contains_key(other) ==> final(observing)@[other]
            == old(observing)@[other],
        final(taking)@.contains_key(other) <==> old(taking)@.contains_key(other) && now_ms
            - old(taking)@[other].observed_at_ms <= 30_000,
        final(taking)@.contains_key(other) ==> final(taking)@[other] == old(taking)@[other],
{
}

/// What needs an active lookup and has none is refused as an invalid message that says so.
pub proof fn law_missing_lookup_is_an_invalid_message(
    asked: &mut StorageLookups,
    active: Result<(), Error>,
    observing: &mut StorageLookups,
    misses: Vec<PlacementMiss>,
    observed: Result<(), Error>,
    taking: &mut StorageLookups,
    taken: Result<Vec<PlacementMiss>, Error>,
    resource: Did,
    redundancy: u16,
    now_ms: i64,
)
    requires
        old(asked).wf(),
        call_ensures(
            StorageLookups::ensure_storage_lookup_active,
            (asked, resource, redundancy, Ok(()), now_ms),
            active,
        ),
        old(observing).wf(),
        call_ensures(
            StorageLookups::observe_storage_misses,
            (observing, resource, redundancy, Ok(()), misses, now_ms),
            observed,
        ),
        old(taking).wf(),
        call_ensures(
            StorageLookups::take_storage_misses,
            (taking, resource, redundancy, Ok(()), now_ms),
            taken,
        ),
    ensures
        active matches Err(error) ==> error is InvalidMessage && error->InvalidMessage_0@
            == "storage lookup response has no active local lookup"@,
        observed matches Err(error) ==> error is InvalidMessage && error->InvalidMessage_0@
            == "storage miss observation has no active local lookup"@,
        taken matches Err(error) ==> error is InvalidMessage && error->InvalidMessage_0@
            == "storage repair has no active local lookup"@,
{
}

} // verus!

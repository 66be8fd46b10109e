//! A capacity that every class shares and of which every class keeps a reserved part.
//!
//! A class may borrow what the reservations of the others leave free. What a class has not
//! used of its own reservation is never lent, so a request inside the reservation is always
//! admitted.

use vstd::prelude::*;

use crate::class::CLASS_COUNT;

verus! {

/// One amount per class.
pub type ClassAmounts = [usize; 4];

/// The amounts of all classes together.
pub open spec fn total(amounts: Seq<usize>) -> int {
    amounts[0] + amounts[1] + amounts[2] + amounts[3]
}

/// What class `k` withholds from the others: what it uses, and at least its reservation.
pub open spec fn withheld(admitted: Seq<usize>, reservations: Seq<usize>, k: int) -> int {
    if admitted[k] >= reservations[k] {
        admitted[k] as int
    } else {
        reservations[k] as int
    }
}

/// What every class but `class` withholds.
pub open spec fn withheld_by_others(
    admitted: Seq<usize>,
    reservations: Seq<usize>,
    class: int,
) -> int {
    withheld(admitted, reservations, 0) + withheld(admitted, reservations, 1) + withheld(
        admitted,
        reservations,
        2,
    ) + withheld(admitted, reservations, 3) - withheld(admitted, reservations, class)
}

/// Whether `amount` more of `class` fits beside what the other classes withhold.
#[verifier::opaque]
pub open spec fn fits(
    admitted: Seq<usize>,
    class: int,
    amount: int,
    capacity: int,
    reservations: Seq<usize>,
) -> bool {
    admitted[class] + amount + withheld_by_others(admitted, reservations, class) <= capacity
}

/// Whether `amount` more of `class` stays inside the class's own reservation.
#[verifier::opaque]
pub open spec fn covered(
    admitted: Seq<usize>,
    class: int,
    amount: int,
    reservations: Seq<usize>,
) -> bool {
    admitted[class] + amount <= reservations[class]
}

/// What is admitted and what is reserved fit the capacity together.
#[verifier::opaque]
pub open spec fn within(admitted: Seq<usize>, capacity: int, reservations: Seq<usize>) -> bool {
    withheld(admitted, reservations, 0) + withheld_by_others(admitted, reservations, 0) <= capacity
}

/// The capacity `class` can ever hold: all of it but what the others reserve.
pub open spec fn share_of(capacity: int, reservations: Seq<usize>, class: int) -> int {
    if total(reservations) - reservations[class] <= capacity {
        capacity - (total(reservations) - reservations[class])
    } else {
        0
    }
}

/// The capacity `class` can ever hold: all of it but what the others reserve.
pub fn admissible_capacity(capacity: usize, reservations: &ClassAmounts, class: usize) -> (share:
    usize)
    requires
        class < CLASS_COUNT,
    ensures
        share == share_of(capacity as int, reservations@, class as int),
{
    let mut share: usize = capacity;
    let mut index: usize = 0;
    while index < CLASS_COUNT
        invariant
            index <= CLASS_COUNT,
            class < CLASS_COUNT,
            share == share_after(capacity as int, reservations@, class as int, index as int),
        decreases CLASS_COUNT - index,
    {
        if index != class {
            share = share.saturating_sub(reservations[index]);
        }
        index += 1;
        assert(index == 1 || index == 2 || index == 3 || index == 4);
    }
    share
}

/// What is left of `capacity` once the reservations below `index` but that of `class` are taken.
spec fn share_after(capacity: int, reservations: Seq<usize>, class: int, index: int) -> int {
    let taken = (if index > 0 && class != 0 {
        reservations[0] as int
    } else {
        0
    }) + (if index > 1 && class != 1 {
        reservations[1] as int
    } else {
        0
    }) + (if index > 2 && class != 2 {
        reservations[2] as int
    } else {
        0
    }) + (if index > 3 && class != 3 {
        reservations[3] as int
    } else {
        0
    });
    if taken <= capacity {
        capacity - taken
    } else {
        0
    }
}

/// The bytes retained while a message of `wire_bytes` is sent: its payload and its frame.
pub fn retained_wire_bytes(wire_bytes: usize) -> (bytes: usize)
    ensures
        bytes == (if 2 * wire_bytes <= usize::MAX {
            2 * wire_bytes
        } else {
            usize::MAX as int
        }),
{
    wire_bytes.saturating_add(wire_bytes)
}

/// What each class has been admitted.
#[derive(Clone, Copy, Debug)]
pub struct ReservedCapacity {
    by_class: ClassAmounts,
}

impl ReservedCapacity {
    /// What each class has been admitted.
    pub closed spec fn view(&self) -> Seq<usize> {
        self.by_class@
    }

    /// One amount per class, countable together.
    pub open spec fn wf(&self) -> bool {
        &&& self@.len() == CLASS_COUNT
        &&& total(self@) <= usize::MAX
    }

    /// Nothing admitted.
    pub fn new() -> (capacity: Self)
        ensures
            capacity.wf(),
            capacity@ == seq![0usize, 0usize, 0usize, 0usize],
    {
        let capacity = ReservedCapacity { by_class: [0, 0, 0, 0] };
        assert(capacity@ =~= seq![0usize, 0usize, 0usize, 0usize]);
        capacity
    }

    /// What all classes have been admitted together.
    pub fn admitted(&self) -> (admitted: usize)
        requires
            self.wf(),
        ensures
            admitted == total(self@),
    {
        self.by_class[0] + self.by_class[1] + self.by_class[2] + self.by_class[3]
    }

    /// What `class` has been admitted.
    pub fn admitted_of(&self, class: usize) -> (admitted: usize)
        requires
            class < CLASS_COUNT,
        ensures
            admitted == self@[class as int],
    {
        self.by_class[class]
    }

    /// Whether `amount` more of `class` stays inside the class's own reservation.
    pub fn reservation_covers(
        &self,
        class: usize,
        amount: usize,
        reservations: &ClassAmounts,
    ) -> (covers: bool)
        requires
            class < CLASS_COUNT,
        ensures
            covers == covered(self@, class as int, amount as int, reservations@),
    {
        proof {
            reveal(covered);
        }
        match self.by_class[class].checked_add(amount) {
            Some(after) => after <= reservations[class],
            None => false,
        }
    }

    /// Whether `amount` more of `class` fits beside what the other classes withhold.
    fn has_space(
        &self,
        class: usize,
        amount: usize,
        capacity: usize,
        reservations: &ClassAmounts,
    ) -> (space: bool)
        requires
            self.wf(),
            class < CLASS_COUNT,
        ensures
            space == fits(self@, class as int, amount as int, capacity as int, reservations@),
    {
        proof {
            reveal(fits);
        }
        let mut left: usize = match self.by_class[class].checked_add(amount) {
            Some(after) => {
                if after > capacity {
                    return false;
                }
                capacity - after
            },
            None => {
                return false;
            },
        };
        let mut index: usize = 0;
        let ghost start = left as int;
        while index < CLASS_COUNT
            invariant
                index <= CLASS_COUNT,
                class < CLASS_COUNT,
                self.wf(),
                start == capacity - self@[class as int] - amount,
                left == start - withheld_below(
                    self@,
                    reservations@,
                    class as int,
                    index as int,
                ),
            decreases CLASS_COUNT - index,
        {
            if index != class {
                let used: usize = self.by_class[index];
                let reserved: usize = reservations[index];
                let keeps: usize = if used >= reserved {
                    used
                } else {
                    reserved
                };
                assert(index == 0 || index == 1 || index == 2 || index == 3);
                assert(keeps == withheld(self@, reservations@, index as int));
                if keeps > left {
                    proof {
                        reveal(fits);
                    }
                    assert(withheld_below(self@, reservations@, class as int, index as int + 1)
                        <= withheld_by_others(self@, reservations@, class as int));
                    return false;
                }
                left = left - keeps;
            }
            index += 1;
            assert(index == 1 || index == 2 || index == 3 || index == 4);
        }
        true
    }

    /// Admit `amount` more of `class` if it fits.
    pub fn try_reserve(
        &mut self,
        class: usize,
        amount: usize,
        capacity: usize,
        reservations: &ClassAmounts,
    ) -> (reserved: bool)
        requires
            old(self).wf(),
            class < CLASS_COUNT,
        ensures
            final(self).wf(),
            reserved == fits(
                old(self)@,
                class as int,
                amount as int,
                capacity as int,
                reservations@,
            ),
            final(self)@ == (if reserved {
                old(self)@.update(class as int, (old(self)@[class as int] + amount) as usize)
            } else {
                old(self)@
            }),
            reserved ==> old(self)@[class as int] + amount <= capacity,
            reserved ==> total(final(self)@) == total(old(self)@) + amount,
            reserved ==> within(final(self)@, capacity as int, reservations@) || !within(
                old(self)@,
                capacity as int,
                reservations@,
            ),
    {
        proof {
            reveal(fits);
            reveal(within);
        }
        if !self.has_space(class, amount, capacity, reservations) {
            return false;
        }
        assert(class == 0 || class == 1 || class == 2 || class == 3);
        self.by_class[class] = self.by_class[class] + amount;
        assert(self@ =~= old(self)@.update(
            class as int,
            (old(self)@[class as int] + amount) as usize,
        ));
        true
    }

    /// Give back `amount` of `class`.
    pub fn release(&mut self, class: usize, amount: usize)
        requires
            old(self).wf(),
            class < CLASS_COUNT,
            amount <= old(self)@[class as int],
        ensures
            final(self).wf(),
            final(self)@ == old(self)@.update(
                class as int,
                (old(self)@[class as int] - amount) as usize,
            ),
            total(final(self)@) == total(old(self)@) - amount,
    {
        assert(class == 0 || class == 1 || class == 2 || class == 3);
        self.by_class[class] = self.by_class[class] - amount;
        assert(self@ =~= old(self)@.update(
            class as int,
            (old(self)@[class as int] - amount) as usize,
        ));
    }
}

/// What the classes below `index` but `class` withhold.
spec fn withheld_below(
    admitted: Seq<usize>,
    reservations: Seq<usize>,
    class: int,
    index: int,
) -> int {
    (if index > 0 && class != 0 {
        withheld(admitted, reservations, 0)
    } else {
        0
    }) + (if index > 1 && class != 1 {
        withheld(admitted, reservations, 1)
    } else {
        0
    }) + (if index > 2 && class != 2 {
        withheld(admitted, reservations, 2)
    } else {
        0
    }) + (if index > 3 && class != 3 {
        withheld(admitted, reservations, 3)
    } else {
        0
    })
}

/// Which of two bounds refused a reservation.
#[derive(Clone, Copy, Debug, PartialEq, Eq, Hash, Structural)]
pub enum CountedReservationRejection {
    /// The count.
    Count,
    /// The bytes.
    Bytes,
}

/// A capacity counted in items and in bytes.
#[derive(Clone, Copy, Debug)]
pub struct CountedReservedCapacity {
    count: ReservedCapacity,
    bytes: ReservedCapacity,
}

/// The bounds of a capacity counted in items and in bytes.
#[derive(Clone, Copy, Debug)]
pub struct CountedBounds {
    /// The most items.
    pub count: usize,
    /// The items each class keeps.
    pub count_reservations: ClassAmounts,
    /// The most bytes.
    pub bytes: usize,
    /// The bytes each class keeps.
    pub byte_reservations: ClassAmounts,
}

impl CountedReservedCapacity {
    /// The items of each class.
    pub closed spec fn counts(&self) -> Seq<usize> {
        self.count@
    }

    /// The bytes of each class.
    pub closed spec fn sizes(&self) -> Seq<usize> {
        self.bytes@
    }

    /// One amount per class, countable together.
    pub closed spec fn wf(&self) -> bool {
        self.count.wf() && self.bytes.wf()
    }

    /// Nothing admitted.
    pub fn new() -> (capacity: Self)
        ensures
            capacity.wf(),
            capacity.counts() == seq![0usize, 0usize, 0usize, 0usize],
            capacity.sizes() == seq![0usize, 0usize, 0usize, 0usize],
    {
        CountedReservedCapacity { count: ReservedCapacity::new(), bytes: ReservedCapacity::new() }
    }

    /// How many items are admitted.
    pub fn admitted_count(&self) -> (admitted: usize)
        requires
            self.wf(),
        ensures
            admitted == total(self.counts()),
    {
        self.count.admitted()
    }

    /// How many bytes are admitted.
    pub fn admitted_bytes(&self) -> (admitted: usize)
        requires
            self.wf(),
        ensures
            admitted == total(self.sizes()),
    {
        self.bytes.admitted()
    }

    /// Whether one item of `size` stays inside both reservations of `class`.
    pub fn reservation_covers(&self, class: usize, size: usize, bounds: &CountedBounds) -> (covers:
        bool)
        requires
            class < CLASS_COUNT,
        ensures
            covers == (covered(self.counts(), class as int, 1, bounds.count_reservations@)
                && covered(self.sizes(), class as int, size as int, bounds.byte_reservations@)),
    {
        self.count.reservation_covers(class, 1, &bounds.count_reservations)
            && self.bytes.reservation_covers(class, size, &bounds.byte_reservations)
    }

    /// Admit one item of `size`, if both bounds let it in.
    pub fn try_reserve(&mut self, class: usize, size: usize, bounds: &CountedBounds) -> (reserved:
        Result<(), CountedReservationRejection>)
        requires
            old(self).wf(),
            class < CLASS_COUNT,
        ensures
            final(self).wf(),
            reserved == (if !fits(
                old(self).counts(),
                class as int,
                1,
                bounds.count as int,
                bounds.count_reservations@,
            ) {
                Err(CountedReservationRejection::Count)
            } else if !fits(
                old(self).sizes(),
                class as int,
                size as int,
                bounds.bytes as int,
                bounds.byte_reservations@,
            ) {
                Err(CountedReservationRejection::Bytes)
            } else {
                Ok(())
            }),
            reserved is Ok ==> {
                &&& final(self).counts() == old(self).counts().update(
                    class as int,
                    (old(self).counts()[class as int] + 1) as usize,
                )
                &&& final(self).sizes() == old(self).sizes().update(
                    class as int,
                    (old(self).sizes()[class as int] + size) as usize,
                )
                &&& old(self).counts()[class as int] + 1 <= bounds.count
                &&& old(self).sizes()[class as int] + size <= bounds.bytes
                &&& total(final(self).counts()) == total(old(self).counts()) + 1
                &&& total(final(self).sizes()) == total(old(self).sizes()) + size
            },
            reserved is Err ==> *final(self) == *old(self),
    {
        let mut count = self.count;
        if !count.try_reserve(class, 1, bounds.count, &bounds.count_reservations) {
            return Err(CountedReservationRejection::Count);
        }
        let mut bytes = self.bytes;
        if !bytes.try_reserve(class, size, bounds.bytes, &bounds.byte_reservations) {
            return Err(CountedReservationRejection::Bytes);
        }
        self.count = count;
        self.bytes = bytes;
        Ok(())
    }

    /// Give back one item of `size`.
    pub fn release(&mut self, class: usize, size: usize)
        requires
            old(self).wf(),
            class < CLASS_COUNT,
            1 <= old(self).counts()[class as int],
            size <= old(self).sizes()[class as int],
        ensures
            final(self).wf(),
            final(self).counts() == old(self).counts().update(
                class as int,
                (old(self).counts()[class as int] - 1) as usize,
            ),
            final(self).sizes() == old(self).sizes().update(
                class as int,
                (old(self).sizes()[class as int] - size) as usize,
            ),
            total(final(self).counts()) == total(old(self).counts()) - 1,
            total(final(self).sizes()) == total(old(self).sizes()) - size,
    {
        self.count.release(class, 1);
        self.bytes.release(class, size);
    }
}

/// A reservation keeps what is admitted within the capacity, whatever was admitted before it.
pub proof fn law_admitted_never_exceeds_capacity(
    admitted: Seq<usize>,
    class: int,
    amount: int,
    capacity: int,
    reservations: Seq<usize>,
)
    requires
        admitted.len() == CLASS_COUNT,
        reservations.len() == CLASS_COUNT,
        0 <= class < CLASS_COUNT,
        0 <= amount,
        admitted[class] + amount <= usize::MAX,
        fits(admitted, class, amount, capacity, reservations),
    ensures
        total(admitted.update(class, (admitted[class] + amount) as usize)) <= capacity,
{
    reveal(fits);
    reveal(covered);
    reveal(within);
    assert(class == 0 || class == 1 || class == 2 || class == 3);
}

/// A request inside its class's reservation is admitted, whatever the other classes hold.
pub proof fn law_reserved_share_is_always_admitted(
    admitted: Seq<usize>,
    class: int,
    amount: int,
    capacity: int,
    reservations: Seq<usize>,
)
    requires
        admitted.len() == CLASS_COUNT,
        reservations.len() == CLASS_COUNT,
        0 <= class < CLASS_COUNT,
        0 <= amount,
        within(admitted, capacity, reservations),
        covered(admitted, class, amount, reservations),
    ensures
        fits(admitted, class, amount, capacity, reservations),
{
    reveal(fits);
    reveal(covered);
    reveal(within);
    assert(class == 0 || class == 1 || class == 2 || class == 3);
}

/// Reserving and releasing keep the reserved shares within the capacity.
pub proof fn law_reserve_and_release_keep_the_shares(
    admitted: Seq<usize>,
    class: int,
    amount: int,
    capacity: int,
    reservations: Seq<usize>,
)
    requires
        admitted.len() == CLASS_COUNT,
        reservations.len() == CLASS_COUNT,
        0 <= class < CLASS_COUNT,
        0 <= amount,
        within(admitted, capacity, reservations),
    ensures
        admitted[class] + amount <= usize::MAX && fits(
            admitted,
            class,
            amount,
            capacity,
            reservations,
        ) ==> within(
            admitted.update(class, (admitted[class] + amount) as usize),
            capacity,
            reservations,
        ),
        amount <= admitted[class] ==> within(
            admitted.update(class, (admitted[class] - amount) as usize),
            capacity,
            reservations,
        ),
{
    reveal(fits);
    reveal(covered);
    reveal(within);
    assert(class == 0 || class == 1 || class == 2 || class == 3);
}

/// What is admitted never exceeds the capacity while the reserved shares fit it.
pub proof fn law_within_bounds_the_total(admitted: Seq<usize>, capacity: int, reservations: Seq<usize>)
    requires
        admitted.len() == CLASS_COUNT,
        reservations.len() == CLASS_COUNT,
        within(admitted, capacity, reservations),
    ensures
        total(admitted) <= capacity,
        forall|k: int| 0 <= k < CLASS_COUNT ==> #[trigger] admitted[k] <= capacity,
{
    reveal(within);
    assert forall|k: int| 0 <= k < CLASS_COUNT implies #[trigger] admitted[k] <= capacity by {
        assert(k == 0 || k == 1 || k == 2 || k == 3);
    }
}

/// Releasing what was reserved restores what was admitted.
pub proof fn law_release_undoes_reserve(admitted: Seq<usize>, class: int, amount: int)
    requires
        admitted.len() == CLASS_COUNT,
        0 <= class < CLASS_COUNT,
        0 <= amount,
        admitted[class] + amount <= usize::MAX,
    ensures
        ({
            let reserved = admitted.update(class, (admitted[class] + amount) as usize);
            reserved.update(class, (reserved[class] - amount) as usize)
        }) == admitted,
{
    let reserved = admitted.update(class, (admitted[class] + amount) as usize);
    assert(reserved.update(class, (reserved[class] - amount) as usize) =~= admitted);
}

/// A class alone is admitted exactly up to its share.
pub proof fn law_lone_class_reaches_its_share(
    class: int,
    amount: int,
    capacity: int,
    reservations: Seq<usize>,
)
    requires
        reservations.len() == CLASS_COUNT,
        0 <= class < CLASS_COUNT,
        0 < amount,
        0 <= capacity,
    ensures
        fits(seq![0usize, 0usize, 0usize, 0usize], class, amount, capacity, reservations)
            <==> amount <= share_of(capacity, reservations, class),
{
    reveal(fits);
    reveal(covered);
    reveal(within);
    assert(class == 0 || class == 1 || class == 2 || class == 3);
}

/// What class `k` keeps from the others: what it holds or its reservation, whichever is more.
pub open spec fn kept_back(admitted: Seq<usize>, reservations: Seq<usize>, k: int) -> int {
    if admitted[k] > reservations[k] {
        admitted[k] as int
    } else {
        reservations[k] as int
    }
}

/// What every class but `class` keeps back.
pub open spec fn others_keep(admitted: Seq<usize>, reservations: Seq<usize>, class: int) -> int {
    (if class == 0 {
        0
    } else {
        kept_back(admitted, reservations, 0)
    }) + (if class == 1 {
        0
    } else {
        kept_back(admitted, reservations, 1)
    }) + (if class == 2 {
        0
    } else {
        kept_back(admitted, reservations, 2)
    }) + (if class == 3 {
        0
    } else {
        kept_back(admitted, reservations, 3)
    })
}

/// A request is admitted exactly if it fits beside what its class holds and what every other class
/// keeps. Then its class holds that much more and nothing else changes; otherwise nothing does.
pub proof fn law_request_is_admitted_beside_what_others_keep(
    capacity: &mut ReservedCapacity,
    class: usize,
    amount: usize,
    bound: usize,
    reservations: &ClassAmounts,
    reserved: bool,
    other: int,
)
    requires
        old(capacity).wf(),
        class < 4,
        call_ensures(
            ReservedCapacity::try_reserve,
            (capacity, class, amount, bound, reservations),
            reserved,
        ),
        0 <= other < 4,
        other != class,
    ensures
        reserved <==> old(capacity)@[class as int] + amount + others_keep(
            old(capacity)@,
            reservations@,
            class as int,
        ) <= bound,
        reserved ==> final(capacity)@[class as int] == old(capacity)@[class as int] + amount,
        !reserved ==> final(capacity)@[class as int] == old(capacity)@[class as int],
        final(capacity)@[other] == old(capacity)@[other],
{
    reveal(fits);
}

/// A release gives back exactly what it names, to its class only.
pub proof fn law_release_gives_back_to_its_class(
    capacity: &mut ReservedCapacity,
    class: usize,
    amount: usize,
    other: int,
)
    requires
        old(capacity).wf(),
        class < 4,
        amount <= old(capacity)@[class as int],
        call_ensures(ReservedCapacity::release, (capacity, class, amount), ()),
        0 <= other < 4,
        other != class,
    ensures
        final(capacity)@[class as int] == old(capacity)@[class as int] - amount,
        final(capacity)@[other] == old(capacity)@[other],
{
}

/// A reservation covers a request exactly if the class, with it, holds no more than it keeps; what
/// is admitted is the sum over the classes.
pub proof fn law_reservation_covers_its_share(
    capacity: ReservedCapacity,
    class: usize,
    amount: usize,
    reservations: &ClassAmounts,
    covers: bool,
    admitted: usize,
    of_class: usize,
)
    requires
        capacity.wf(),
        class < 4,
        call_ensures(
            ReservedCapacity::reservation_covers,
            (&capacity, class, amount, reservations),
            covers,
        ),
        call_ensures(ReservedCapacity::admitted, (&capacity,), admitted),
        call_ensures(ReservedCapacity::admitted_of, (&capacity, class), of_class),
    ensures
        covers <==> capacity@[class as int] + amount <= reservations@[class as int],
        admitted == capacity@[0] + capacity@[1] + capacity@[2] + capacity@[3],
        of_class == capacity@[class as int],
{
    reveal(covered);
}

/// The most a class can ever hold is the capacity less what the others reserve, and a payload holds
/// its bytes twice.
pub proof fn law_admissible_share_is_what_others_leave(
    capacity: usize,
    reservations: &ClassAmounts,
    class: usize,
    share: usize,
    wire_bytes: usize,
    bytes: usize,
)
    requires
        class < 4,
        call_ensures(admissible_capacity, (capacity, reservations, class), share),
        call_ensures(retained_wire_bytes, (wire_bytes,), bytes),
    ensures
        ({
            let others = reservations@[0] + reservations@[1] + reservations@[2] + reservations@[3]
                - reservations@[class as int];
            &&& others <= capacity ==> share == capacity - others
            &&& others > capacity ==> share == 0
        }),
        2 * wire_bytes <= usize::MAX ==> bytes == 2 * wire_bytes,
        2 * wire_bytes > usize::MAX ==> bytes == usize::MAX,
{
}

/// A counted request is admitted exactly if both one item and its bytes fit; it is refused for the
/// count first. A refusal changes nothing.
pub proof fn law_counted_request_needs_a_slot_and_its_bytes(
    capacity: &mut CountedReservedCapacity,
    class: usize,
    size: usize,
    bounds: &CountedBounds,
    reserved: Result<(), CountedReservationRejection>,
)
    requires
        old(capacity).wf(),
        class < 4,
        call_ensures(
            CountedReservedCapacity::try_reserve,
            (capacity, class, size, bounds),
            reserved,
        ),
    ensures
        ({
            let slot = old(capacity).counts()[class as int] + 1 + others_keep(
                old(capacity).counts(),
                bounds.count_reservations@,
                class as int,
            ) <= bounds.count;
            let room = old(capacity).sizes()[class as int] + size + others_keep(
                old(capacity).sizes(),
                bounds.byte_reservations@,
                class as int,
            ) <= bounds.bytes;
            &&& reserved is Ok <==> slot && room
            &&& reserved is Err ==> (reserved->Err_0 is Count <==> !slot)
            &&& reserved is Err ==> *final(capacity) == *old(capacity)
        }),
{
    reveal(fits);
}

/// An admitted request takes one slot and its bytes of its class, and its end gives both back.
pub proof fn law_counted_request_takes_and_gives_back(
    taken: &mut CountedReservedCapacity,
    class: usize,
    size: usize,
    bounds: &CountedBounds,
    given: &mut CountedReservedCapacity,
    other: int,
)
    requires
        old(taken).wf(),
        class < 4,
        call_ensures(
            CountedReservedCapacity::try_reserve,
            (taken, class, size, bounds),
            Ok::<(), CountedReservationRejection>(()),
        ),
        *old(given) == *final(taken),
        call_ensures(CountedReservedCapacity::release, (given, class, size), ()),
        0 <= other < 4,
        other != class,
    ensures
        final(taken).counts()[class as int] == old(taken).counts()[class as int] + 1,
        final(taken).sizes()[class as int] == old(taken).sizes()[class as int] + size,
        final(taken).counts()[other] == old(taken).counts()[other],
        final(taken).sizes()[other] == old(taken).sizes()[other],
        final(given).counts()[class as int] == old(taken).counts()[class as int],
        final(given).sizes()[class as int] == old(taken).sizes()[class as int],
{
}

} // verus!

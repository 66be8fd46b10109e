//! What the sending end keeps of one peer's link across its workers.

use vstd::prelude::*;

verus! {

/// The count of link-control sends in flight to one peer.
///
/// Each inbound frame causes at most two of them, so their bound is twice the frames the peer
/// may have in flight at this end.
#[derive(Clone, Copy, Debug, PartialEq, Eq, Hash, Structural)]
pub struct LinkControlBudget {
    capacity: usize,
    in_flight: usize,
}

/// One link-control send counted in its peer's budget.
#[derive(Debug)]
pub struct LinkControlPermit {
    capacity: usize,
}

/// The most link-control sends in flight to a peer that may itself have `inbound_frame_capacity`
/// frames in flight here.
pub open spec fn link_control_limit(inbound_frame_capacity: usize) -> nat {
    if 2 * inbound_frame_capacity <= usize::MAX {
        (2 * inbound_frame_capacity) as nat
    } else {
        usize::MAX as nat
    }
}

impl LinkControlPermit {
    /// The bound of the budget it was taken from.
    pub closed spec fn of_limit(&self) -> nat {
        self.capacity as nat
    }
}

impl LinkControlBudget {
    /// The most sends in flight.
    pub closed spec fn limit(self) -> nat {
        self.capacity as nat
    }

    /// The sends in flight.
    pub closed spec fn used(self) -> nat {
        self.in_flight as nat
    }

    /// The bound holds.
    pub open spec fn wf(self) -> bool {
        self.used() <= self.limit()
    }

    /// The budget with `in_flight` sends in flight.
    pub closed spec fn with_used(self, in_flight: nat) -> LinkControlBudget {
        LinkControlBudget { in_flight: in_flight as usize, ..self }
    }

    /// The budget of a peer nothing is in flight to, which may itself have
    /// `inbound_frame_capacity` frames in flight here.
    pub fn new(inbound_frame_capacity: usize) -> (budget: Self)
        ensures
            budget.wf(),
            budget.used() == 0,
            budget.limit() == link_control_limit(inbound_frame_capacity),
    {
        LinkControlBudget {
            capacity: inbound_frame_capacity.saturating_add(inbound_frame_capacity),
            in_flight: 0,
        }
    }

    /// The sends in flight.
    pub fn in_flight(&self) -> (in_flight: usize)
        ensures
            in_flight == self.used(),
    {
        self.in_flight
    }

    /// One more send in flight, if the budget allows it.
    pub fn try_reserve(&mut self) -> (permit: Option<LinkControlPermit>)
        requires
            old(self).wf(),
        ensures
            final(self).wf(),
            permit is Some <==> old(self).used() < old(self).limit(),
            permit matches Some(permit) ==> permit.of_limit() == old(self).limit(),
            *final(self) == (if permit is Some {
                old(self).with_used(old(self).used() + 1)
            } else {
                *old(self)
            }),
            final(self).limit() == old(self).limit(),
            final(self).used() == (if permit is Some {
                old(self).used() + 1
            } else {
                old(self).used()
            }),
    {
        if self.in_flight < self.capacity {
            self.in_flight = self.in_flight + 1;
            Some(LinkControlPermit { capacity: self.capacity })
        } else {
            None
        }
    }

    /// The send of `permit` is over.
    pub fn release(&mut self, permit: LinkControlPermit)
        requires
            old(self).wf(),
            old(self).used() > 0,
        ensures
            final(self).wf(),
            *final(self) == old(self).with_used((old(self).used() - 1) as nat),
            final(self).limit() == old(self).limit(),
            final(self).used() == old(self).used() - 1,
    {
        let _ = permit;
        self.in_flight = self.in_flight - 1;
    }
}

/// A send that ends gives back exactly what it took.
pub proof fn law_release_undoes_reserve(budget: LinkControlBudget)
    requires
        budget.used() < budget.limit(),
    ensures
        ({
            let busy = budget.with_used(budget.used() + 1);
            &&& busy.used() == budget.used() + 1
            &&& busy.limit() == budget.limit()
            &&& busy.with_used((busy.used() - 1) as nat) == budget
        }),
{
}

/// One peer's link: the table of the sessions announced on it, by number, and its budget.
#[derive(Clone, Copy, Debug, PartialEq, Eq, Hash, Structural)]
pub struct PeerLinkState {
    /// The number of the table of announced sessions.
    pub announced: u64,
    /// The link-control sends in flight.
    pub control_budget: LinkControlBudget,
}

impl PeerLinkState {
    /// The link of a peer nothing has been sent to.
    pub fn new(announced: u64, inbound_frame_capacity: usize) -> (link: Self)
        ensures
            link.announced == announced,
            link.control_budget.wf(),
            link.control_budget.used() == 0,
            link.control_budget.limit() == link_control_limit(inbound_frame_capacity),
    {
        PeerLinkState {
            announced,
            control_budget: LinkControlBudget::new(inbound_frame_capacity),
        }
    }
}

/// A peer's budget is twice the frames it may have in flight here, and a send is counted exactly
/// while the budget is not spent.
pub proof fn law_link_control_budget_is_twice_the_inbound_frames(
    inbound_frame_capacity: usize,
    budget: LinkControlBudget,
)
    requires
        call_ensures(LinkControlBudget::new, (inbound_frame_capacity,), budget),
    ensures
        budget.used() == 0,
        2 * inbound_frame_capacity <= usize::MAX ==> budget.limit() == 2 * inbound_frame_capacity,
        2 * inbound_frame_capacity > usize::MAX ==> budget.limit() == usize::MAX,
{
}

/// A send is counted exactly where the sends in flight are fewer than the budget, and only then.
pub proof fn law_budget_counts_up_to_its_limit(
    budget: &mut LinkControlBudget,
    permit: Option<LinkControlPermit>,
)
    requires
        old(budget).wf(),
        call_ensures(LinkControlBudget::try_reserve, (budget,), permit),
    ensures
        permit is Some <==> old(budget).used() < old(budget).limit(),
        final(budget).used() == old(budget).used() + (if permit is Some {
            1int
        } else {
            0
        }),
        final(budget).used() <= final(budget).limit(),
        final(budget).limit() == old(budget).limit(),
{
}

/// A budget counts what it was set to count, under the same bound.
pub proof fn lemma_budget_counts(budget: LinkControlBudget, in_flight: nat)
    requires
        in_flight <= budget.limit(),
    ensures
        budget.with_used(in_flight).used() == in_flight,
        budget.with_used(in_flight).limit() == budget.limit(),
{
}

} // verus!

//! Why rerouting arrives: a refused placement among two hops, and what is left of its refusals
//! once nothing new gets in its way.
//!
//! The target's generations come and go; the alternate is always there. A placement goes to the
//! target while the topology prefers it and a generation of it is admitted, and to the alternate
//! otherwise. Foreign transfers hold the channel and the capacity of either hop, and the node's
//! shared capacity may be taken or waited for. At rest, what holds something only ever lets go of
//! it: a pending generation is admitted, a broken one recovers or is closed, capacity is released,
//! channels drain.

use vstd::prelude::*;

use crate::capacity::PeerProgress;
use crate::capacity::TransferDemand;
use crate::class::TransferClass;
use crate::did::Did;
use crate::error::lemma_every_trigger_is_awaited;
use crate::error::DeferralTrigger;
use crate::rerouting::next;
use crate::rerouting::triggered;
use crate::rerouting::LinkHop;
use crate::rerouting::LinkRoute;
use crate::rerouting::Observation;
use crate::rerouting::Step;
use crate::rerouting::Verdict;
use crate::rerouting::QUIESCENT_DEFERRALS;
use crate::rerouting::REPLACEMENT_DEFERRALS;
use crate::rerouting::REROUTING_BUDGET;

verus! {

/// The target's generation.
pub enum TargetLink {
    /// None.
    Absent,
    /// One that is not admitted yet.
    Pending(u64),
    /// An admitted one that sends, and whether it can make progress.
    Active(u64, bool),
    /// An admitted one that no longer sends and is not closed yet.
    Dead,
}

/// Where the topology prefers to route the placement.
pub enum Preference {
    /// To the target, while a generation of it is admitted.
    Target,
    /// To the alternate.
    Alternate,
    /// This node holds the placement.
    Local,
}

/// What holds one hop's channel and capacity.
pub struct Channel {
    /// The foreign transfers in it.
    pub jam: nat,
    /// They take all of the hop's capacity.
    pub full: bool,
    /// The foreign transfers that have ended in it.
    pub ended: nat,
}

/// A reading of a channel, taken after a refusal.
pub struct Stamp {
    /// The transfers that had ended.
    pub ended: nat,
    /// The transfers that were ahead.
    pub ahead: nat,
}

/// Where the placement stands.
pub enum Phase {
    /// It computes its route.
    Compute { deferrals: u8 },
    /// Its send is bound to a hop.
    InFlight { deferrals: u8, hop: Did, generation: Option<u64> },
    /// It waits after a refusal.
    Waiting {
        deferrals: u8,
        hop: Did,
        generation: Option<u64>,
        stamp: Stamp,
        trigger: DeferralTrigger,
    },
    /// It was settled locally or accepted.
    Accepted,
    /// It failed.
    Failed,
}

/// What happens at rest.
pub enum Event {
    /// The pending generation is admitted.
    Admission,
    /// The admitted generation can make progress again.
    Recovery,
    /// The dead generation is closed, and what was in its channel is gone.
    Closing,
    /// The shared capacity has room again.
    Release,
    /// Whoever waited for the shared capacity no longer does.
    Dequeue,
    /// A foreign transfer to this hop ends.
    Drain(Did),
    /// The placement computes its route and sends, or settles locally.
    Send,
    /// Its send is accepted.
    Acceptance,
    /// Its send is refused.
    Refusal(Verdict),
    /// Its wait ends.
    Wake,
}

/// A placement and what is in its way.
pub struct World {
    /// The hop that comes and goes.
    pub target: Did,
    /// The hop that stays.
    pub alternate: Did,
    /// The target's generation.
    pub link: TargetLink,
    /// Where the topology prefers to route the placement.
    pub preference: Preference,
    /// The shared capacity is taken.
    pub congested: bool,
    /// Somebody waits for the shared capacity.
    pub queued: bool,
    /// What holds the target.
    pub at_target: Channel,
    /// What holds the alternate.
    pub at_alternate: Channel,
    /// Where the placement stands.
    pub phase: Phase,
}

/// One if `condition` holds.
pub open spec fn count(condition: bool) -> nat {
    if condition {
        1
    } else {
        0
    }
}

/// The greater of two numbers.
pub open spec fn greater(a: nat, b: nat) -> nat {
    if a >= b {
        a
    } else {
        b
    }
}

impl Channel {
    /// The channel once `ended` of its transfers have ended.
    pub open spec fn drained_by(self, ended: nat) -> Channel {
        if ended == 0 || ended > self.jam {
            self
        } else {
            Channel { jam: (self.jam - ended) as nat, full: false, ended: self.ended + ended }
        }
    }

    /// A send that has room can still find the channel busy.
    pub open spec fn stays_busy(self) -> bool {
        self.jam >= (if self.full {
            2nat
        } else {
            1nat
        })
    }

    /// The refusals a send bound to stay with this hop can meet while the shared capacity is
    /// `taken`: one for capacity, one for the channel.
    pub open spec fn refusals(self, taken: bool) -> nat {
        count(self.full || taken) + count(self.stays_busy())
    }

    /// A wait stamped `stamp` ends on the channel only once nothing is left in it.
    pub open spec fn outwaited_by(self, stamp: Stamp) -> bool {
        stamp.ended + stamp.ahead >= self.ended + self.jam
    }
}

impl World {
    /// The shared capacity takes nothing now.
    pub open spec fn taken(self) -> bool {
        self.congested || self.queued
    }

    /// What holds `hop`.
    pub open spec fn channel(self, hop: Did) -> Channel {
        if hop == self.target {
            self.at_target
        } else {
            self.at_alternate
        }
    }

    /// The target has an admitted generation.
    pub open spec fn admitted(self) -> bool {
        self.link is Active || self.link is Dead
    }

    /// The hop the placement is routed to: none if it is local.
    pub open spec fn route(self) -> Option<Did> {
        match self.preference {
            Preference::Local => None,
            Preference::Target if self.admitted() => Some(self.target),
            _ => Some(self.alternate),
        }
    }

    /// The generation that sends to `hop`.
    pub open spec fn generation(self, hop: Did) -> Option<u64> {
        if hop == self.target {
            match self.link {
                TargetLink::Active(generation, _) => Some(generation),
                _ => None,
            }
        } else {
            Some(0)
        }
    }

    /// A generation sends to `hop` and can make progress.
    pub open spec fn usable(self, hop: Did) -> bool {
        hop == self.target ==> (self.link matches TargetLink::Active(_, ready) && ready)
    }

    /// The route as the wait reads it.
    pub open spec fn link_route(self) -> LinkRoute {
        match self.route() {
            None => LinkRoute::Local,
            Some(hop) => LinkRoute::Remote(
                LinkHop { hop, generation: self.generation(hop), usable: self.usable(hop) },
            ),
        }
    }

    /// What a wait on `hop` stamped `stamp` reads of local resources.
    pub open spec fn observed(self, hop: Did, stamp: Stamp) -> Observation {
        let channel = self.channel(hop);
        Observation {
            room: !channel.full && !self.taken(),
            peer: PeerProgress {
                drained: channel.ended >= stamp.ended + stamp.ahead,
                idle: channel.jam == 0,
            },
        }
    }

    /// What the refusal of a send to `hop` under `generation` waits for: none if it cannot be
    /// refused. A send under a lost or a broken generation is refused for its link, one without
    /// room for capacity, and one into a busy channel may be refused for that.
    pub open spec fn refusal(self, hop: Did, generation: Option<u64>) -> Option<DeferralTrigger> {
        if hop == self.target && (generation is None || generation != self.generation(hop)
            || !self.usable(hop)) {
            Some(DeferralTrigger::LinkChange)
        } else if self.channel(hop).full || self.taken() {
            Some(DeferralTrigger::CapacityRelease)
        } else if self.channel(hop).jam > 0 {
            Some(DeferralTrigger::ChannelDrain)
        } else {
            None
        }
    }

    /// The refusals spent.
    pub open spec fn spent(self) -> u8 {
        match self.phase {
            Phase::Compute { deferrals } => deferrals,
            Phase::InFlight { deferrals, .. } => deferrals,
            Phase::Waiting { deferrals, .. } => deferrals,
            _ => 0,
        }
    }

    /// The placement is over.
    pub open spec fn over(self) -> bool {
        self.phase is Accepted || self.phase is Failed
    }

    /// The placement may be bound to, or wait on, `generation` of `hop`: that of the alternate, or
    /// one of the target that was admitted.
    pub open spec fn binds(self, hop: Did, generation: Option<u64>) -> bool {
        ||| hop == self.alternate && generation == self.generation(hop)
        ||| hop == self.target && match self.link {
            TargetLink::Pending(pending) => generation != Some(pending),
            _ => true,
        }
    }

    /// A hop is full of transfers that are in its channel, and the budget holds.
    pub open spec fn wf(self) -> bool {
        &&& self.target != self.alternate
        &&& self.at_target.full ==> self.at_target.jam > 0
        &&& self.at_alternate.full ==> self.at_alternate.jam > 0
        &&& self.spent() <= REROUTING_BUDGET
        &&& match self.phase {
            Phase::InFlight { hop, generation, .. } => self.binds(hop, generation),
            Phase::Waiting { hop, generation, .. } => self.binds(hop, generation),
            _ => true,
        }
    }

    /// `event` can happen.
    pub open spec fn enables(self, event: Event) -> bool {
        !self.over() && match event {
            Event::Admission => self.link is Pending,
            Event::Recovery => self.link matches TargetLink::Active(_, ready) && !ready,
            Event::Closing => self.link is Dead,
            Event::Release => self.congested,
            Event::Dequeue => self.queued,
            Event::Drain(hop) => (hop == self.target || hop == self.alternate) && self.channel(
                hop,
            ).jam > 0,
            Event::Send => self.phase is Compute,
            Event::Acceptance => match self.phase {
                Phase::InFlight { hop, generation, .. } => match self.refusal(hop, generation) {
                    None | Some(DeferralTrigger::ChannelDrain) => true,
                    _ => false,
                },
                _ => false,
            },
            Event::Refusal(verdict) => match (self.phase, verdict) {
                (
                    Phase::InFlight { hop, generation, .. },
                    Verdict::Deferred { hop: bound, generation: prepared, cause, .. },
                ) => bound == hop && prepared == generation && self.refusal(hop, generation)
                    == Some(cause.awaited()),
                _ => false,
            },
            Event::Wake => match self.phase {
                Phase::Waiting { hop, generation, stamp, trigger, .. } => triggered(
                    hop,
                    generation,
                    trigger,
                    self.link_route(),
                    self.observed(hop, stamp),
                ),
                _ => false,
            },
        }
    }

    /// The world with `phase`.
    pub open spec fn in_phase(self, phase: Phase) -> World {
        World { phase, ..self }
    }

    /// The world after `event`.
    pub open spec fn after(self, event: Event) -> World {
        match event {
            Event::Admission => World {
                link: TargetLink::Active(self.link->Pending_0, true),
                ..self
            },
            Event::Recovery => World { link: TargetLink::Active(self.link->Active_0, true), ..self },
            Event::Closing => World {
                link: TargetLink::Absent,
                at_target: self.at_target.drained_by(self.at_target.jam),
                ..self
            },
            Event::Release => World { congested: false, ..self },
            Event::Dequeue => World { queued: false, ..self },
            Event::Drain(hop) => if hop == self.target {
                World { at_target: self.at_target.drained_by(1), ..self }
            } else {
                World { at_alternate: self.at_alternate.drained_by(1), ..self }
            },
            Event::Send => self.in_phase(
                match self.route() {
                    None => Phase::Accepted,
                    Some(hop) => Phase::InFlight {
                        deferrals: self.spent(),
                        hop,
                        generation: self.generation(hop),
                    },
                },
            ),
            Event::Acceptance => self.in_phase(Phase::Accepted),
            Event::Refusal(verdict) => self.in_phase(
                match next(self.spent(), verdict) {
                    Step::Complete => Phase::Accepted,
                    Step::Fail(_) => Phase::Failed,
                    Step::Await(awaiting) => Phase::Waiting {
                        deferrals: awaiting.deferrals,
                        hop: awaiting.hop,
                        generation: awaiting.generation,
                        stamp: Stamp {
                            ended: self.channel(awaiting.hop).ended,
                            ahead: self.channel(awaiting.hop).jam,
                        },
                        trigger: awaiting.cause.awaited(),
                    },
                },
            ),
            Event::Wake => self.in_phase(Phase::Compute { deferrals: self.spent() }),
        }
    }

    /// The refusals a placement can still meet that is about to compute its route.
    pub open spec fn refusals_from_route(self) -> nat {
        let taken = self.taken();
        match self.preference {
            Preference::Local => 0,
            Preference::Alternate => self.at_alternate.refusals(taken),
            Preference::Target => match self.link {
                TargetLink::Absent => self.at_alternate.refusals(taken),
                TargetLink::Pending(_) => greater(
                    count(self.at_alternate.jam > 0 || taken) + self.at_target.refusals(taken),
                    self.at_alternate.refusals(taken) + self.at_target.refusals(false),
                ),
                TargetLink::Active(_, ready) => count(!ready) + self.at_target.refusals(taken),
                TargetLink::Dead => 1 + self.at_alternate.refusals(taken),
            },
        }
    }

    /// The refusals a placement can still meet that waits for the target's link.
    pub open spec fn refusals_after_link(self) -> nat {
        if self.route() != Some(self.target) {
            self.refusals_from_route()
        } else if self.link is Active {
            self.at_target.refusals(self.taken())
        } else {
            self.at_alternate.refusals(self.taken())
        }
    }

    /// The refusals a placement can still meet that waits for capacity of `hop`.
    pub open spec fn refusals_after_room(self, hop: Did) -> nat {
        if self.route() != Some(hop) || (hop == self.target && self.link is Dead) {
            self.refusals_from_route()
        } else if hop == self.target {
            count(!self.usable(hop)) + count(self.at_target.stays_busy())
        } else if self.preference is Target && self.link is Pending {
            greater(
                self.at_target.refusals(self.taken()),
                count(self.at_alternate.stays_busy()) + self.at_target.refusals(false),
            )
        } else {
            count(self.at_alternate.stays_busy())
        }
    }

    /// The refusals a placement can still meet that waits for the channel of `hop`.
    pub open spec fn refusals_after_drain(
        self,
        hop: Did,
        generation: Option<u64>,
        stamp: Stamp,
    ) -> nat {
        if self.route() != Some(hop) || generation is None || generation != self.generation(hop)
            || !self.channel(hop).outwaited_by(stamp) {
            self.refusals_from_route()
        } else if hop == self.target {
            count(!self.usable(hop)) + count(self.taken())
        } else if self.preference is Target && self.link is Pending {
            count(self.taken()) + self.at_target.refusals(self.taken())
        } else {
            count(self.taken())
        }
    }

    /// The refusals the placement can still meet.
    pub open spec fn refusals_left(self) -> nat {
        let taken = self.taken();
        match self.phase {
            Phase::Compute { .. } => self.refusals_from_route(),
            Phase::InFlight { hop, generation, .. } => if hop == self.target {
                if generation is None || generation != self.generation(hop) {
                    1 + self.refusals_after_link()
                } else if self.route() == Some(hop) {
                    count(!self.usable(hop)) + self.at_target.refusals(taken)
                } else {
                    count(!self.usable(hop) || taken || self.at_target.jam > 0)
                        + self.refusals_from_route()
                }
            } else if self.route() == Some(hop) {
                self.refusals_from_route()
            } else {
                count(taken || self.at_alternate.jam > 0) + self.refusals_from_route()
            },
            Phase::Waiting { hop, generation, stamp, trigger, .. } => match trigger {
                DeferralTrigger::LinkChange => if hop == self.target {
                    self.refusals_after_link()
                } else {
                    self.refusals_from_route()
                },
                DeferralTrigger::CapacityRelease => self.refusals_after_room(hop),
                DeferralTrigger::ChannelDrain => self.refusals_after_drain(hop, generation, stamp),
            },
            _ => 0,
        }
    }

    /// The events that can still happen before the placement is over.
    pub open spec fn events_left(self) -> nat {
        let pending_changes = match self.link {
            TargetLink::Absent => 0nat,
            TargetLink::Pending(_) => 1,
            TargetLink::Active(_, ready) => count(!ready),
            TargetLink::Dead => 1,
        } + count(self.congested) + count(self.queued) + self.at_target.jam + self.at_alternate.jam;
        let left = (REROUTING_BUDGET + 1 - self.spent()) as nat;
        pending_changes + match self.phase {
            Phase::Compute { .. } => 3 * left + 2,
            Phase::InFlight { .. } => 3 * left + 1,
            Phase::Waiting { .. } => 3 * left + 3,
            _ => 0,
        }
    }

    /// The send is bound to a target generation that is gone while its replacement is pending, the
    /// alternate will refuse twice, and the target twice more once the replacement is admitted.
    pub open spec fn crowded_replacement(self) -> bool {
        &&& self.preference is Target
        &&& self.link is Pending
        &&& self.phase matches Phase::InFlight { hop, .. } && hop == self.target
        &&& self.at_alternate.full || self.taken()
        &&& self.at_alternate.stays_busy()
        &&& self.at_target.full
        &&& self.at_target.jam >= 2
    }
}

/// `second` comes right after `first` at rest.
pub open spec fn follows(first: World, second: World) -> bool {
    exists|event: Event| #[trigger] first.enables(event) && second == first.after(event)
}

/// `worlds` come one after the other at rest.
pub open spec fn is_quiet(worlds: Seq<World>) -> bool {
    forall|i: int, j: int|
        #![trigger worlds[i], worlds[j]]
        0 <= i && j == i + 1 && j < worlds.len() ==> follows(worlds[i], worlds[j])
}

/// `event` is a change around the placement, not a step of it.
pub open spec fn is_change(event: Event) -> bool {
    match event {
        Event::Send | Event::Acceptance | Event::Refusal(_) | Event::Wake => false,
        _ => true,
    }
}

/// A change leaves no more refusals ahead of a placement that is about to compute its route, or
/// that waits for the target's link.
#[verifier::rlimit(40)]
proof fn lemma_change_of_route(world: World, event: Event)
    requires
        world.wf(),
        world.enables(event),
        is_change(event),
    ensures
        world.after(event).refusals_from_route() <= world.refusals_from_route(),
        world.after(event).refusals_after_link() <= world.refusals_after_link(),
{
    match event {
        Event::Admission => {},
        Event::Recovery => {},
        Event::Closing => {},
        Event::Release => {},
        Event::Dequeue => {},
        Event::Drain(_) => {},
        _ => {},
    }
}

/// A change leaves no more refusals ahead of a placement that waits for capacity of `hop`.
#[verifier::rlimit(40)]
proof fn lemma_change_of_room(world: World, event: Event, hop: Did)
    requires
        world.wf(),
        world.enables(event),
        is_change(event),
        hop == world.target || hop == world.alternate,
    ensures
        world.after(event).refusals_after_room(hop) <= world.refusals_after_room(hop),
{
    lemma_change_of_route(world, event);
    match event {
        Event::Admission => {},
        Event::Recovery => {},
        Event::Closing => {},
        Event::Release => {},
        Event::Dequeue => {},
        Event::Drain(_) => {},
        _ => {},
    }
}

/// A change leaves no more refusals ahead of a placement that waits for the channel of `hop`.
#[verifier::rlimit(40)]
proof fn lemma_change_of_channel(
    world: World,
    event: Event,
    hop: Did,
    generation: Option<u64>,
    stamp: Stamp,
)
    requires
        world.wf(),
        world.enables(event),
        is_change(event),
        world.binds(hop, generation),
    ensures
        world.after(event).refusals_after_drain(hop, generation, stamp)
            <= world.refusals_after_drain(hop, generation, stamp),
{
    lemma_change_of_route(world, event);
    match event {
        Event::Admission => {},
        Event::Recovery => {},
        Event::Closing => {},
        Event::Release => {},
        Event::Dequeue => {},
        Event::Drain(_) => {},
        _ => {},
    }
}

/// A change leaves no more refusals ahead of a placement that is in flight.
#[verifier::rlimit(40)]
proof fn lemma_change_in_flight(world: World, event: Event)
    requires
        world.wf(),
        world.enables(event),
        is_change(event),
        world.phase is InFlight,
    ensures
        world.after(event).refusals_left() <= world.refusals_left(),
{
    lemma_change_of_route(world, event);
    match event {
        Event::Admission => {},
        Event::Recovery => {},
        Event::Closing => {},
        Event::Release => {},
        Event::Dequeue => {},
        Event::Drain(_) => {},
        _ => {},
    }
}

/// A change leaves the world valid, fewer events, and no more refusals.
#[verifier::rlimit(40)]
proof fn lemma_change(world: World, event: Event)
    requires
        world.wf(),
        world.enables(event),
        is_change(event),
    ensures
        world.after(event).wf(),
        world.after(event).events_left() < world.events_left(),
        world.after(event).spent() == world.spent(),
        world.after(event).refusals_left() <= world.refusals_left(),
{
    match world.phase {
        Phase::InFlight { .. } => {
            lemma_change_in_flight(world, event);
        },
        Phase::Waiting { hop, generation, stamp, trigger, .. } => match trigger {
            DeferralTrigger::LinkChange => {
                lemma_change_of_route(world, event);
            },
            DeferralTrigger::CapacityRelease => {
                lemma_change_of_room(world, event, hop);
            },
            DeferralTrigger::ChannelDrain => {
                lemma_change_of_channel(world, event, hop, generation, stamp);
            },
        },
        _ => {
            lemma_change_of_route(world, event);
        },
    }
}

/// A refusal within the budget spends one of the refusals that were left.
#[verifier::rlimit(40)]
proof fn lemma_refusal(world: World, verdict: Verdict)
    requires
        world.wf(),
        world.enables(Event::Refusal(verdict)),
    ensures
        ({
            let after = world.after(Event::Refusal(verdict));
            &&& world.refusals_left() >= 1
            &&& after.wf()
            &&& after.events_left() < world.events_left()
            &&& if world.spent() == REROUTING_BUDGET {
                after.phase is Failed
            } else {
                &&& after.phase is Waiting
                &&& after.spent() == world.spent() + 1
                &&& after.refusals_left() + 1 <= world.refusals_left()
            }
        }),
{
}

/// Sending and waking spend nothing.
#[verifier::rlimit(40)]
proof fn lemma_own_step(world: World, event: Event)
    requires
        world.wf(),
        world.enables(event),
        event is Send || event is Wake || event is Acceptance,
    ensures
        ({
            let after = world.after(event);
            &&& after.wf()
            &&& after.events_left() < world.events_left()
            &&& !(after.phase is Failed)
            &&& !after.over() ==> after.spent() == world.spent() && after.refusals_left()
                <= world.refusals_left()
        }),
{
}

/// Something can happen until the placement is over.
proof fn lemma_not_stuck(world: World) -> (event: Event)
    requires
        world.wf(),
        !world.over(),
    ensures
        world.enables(event),
{
    match world.phase {
        Phase::Compute { .. } => Event::Send,
        Phase::InFlight { hop, generation, .. } => match world.refusal(hop, generation) {
            None | Some(DeferralTrigger::ChannelDrain) => Event::Acceptance,
            Some(trigger) => {
                let cause = lemma_every_trigger_is_awaited(hop, trigger);
                let demand = TransferDemand { class: TransferClass::Application, bytes: 1 };
                Event::Refusal(Verdict::Deferred { hop, generation, demand, cause })
            },
        },
        Phase::Waiting { hop, generation, stamp, trigger, .. } => {
            if world.enables(Event::Wake) {
                Event::Wake
            } else {
                match trigger {
                    DeferralTrigger::LinkChange => if world.link is Dead {
                        Event::Closing
                    } else {
                        Event::Recovery
                    },
                    DeferralTrigger::CapacityRelease => if world.congested {
                        Event::Release
                    } else if world.queued {
                        Event::Dequeue
                    } else {
                        Event::Drain(hop)
                    },
                    DeferralTrigger::ChannelDrain => Event::Drain(hop),
                }
            }
        },
        _ => Event::Send,
    }
}

/// A run at rest stays valid, is bounded, and never spends more refusals than were left.
proof fn lemma_quiet_run(worlds: Seq<World>)
    requires
        worlds.len() > 0,
        worlds[0].wf(),
        is_quiet(worlds),
        worlds[0].spent() + worlds[0].refusals_left() <= REROUTING_BUDGET,
        !(worlds[0].phase is Failed),
    ensures
        worlds.last().wf(),
        worlds.len() + worlds.last().events_left() <= worlds[0].events_left() + 1,
        !(worlds.last().phase is Failed),
        !worlds.last().over() ==> worlds.last().spent() + worlds.last().refusals_left()
            <= REROUTING_BUDGET,
    decreases worlds.len(),
{
    if worlds.len() > 1 {
        let earlier = worlds.drop_last();
        assert forall|i: int, j: int|
            #![trigger earlier[i], earlier[j]]
            0 <= i && j == i + 1 && j < earlier.len() implies follows(earlier[i], earlier[j]) by {
            assert(earlier[i] == worlds[i] && earlier[j] == worlds[j]);
        }
        lemma_quiet_run(earlier);
        let before = worlds[worlds.len() - 2];
        assert(earlier.last() == before);
        assert(follows(before, worlds[worlds.len() - 1]));
        let event = choose|event: Event| #[trigger]
            before.enables(event) && worlds.last() == before.after(event);
        match event {
            Event::Refusal(verdict) => {
                lemma_refusal(before, verdict);
            },
            Event::Send | Event::Acceptance | Event::Wake => {
                lemma_own_step(before, event);
            },
            _ => {
                lemma_change(before, event);
            },
        }
    }
}

/// The refusals a placement can still meet are at most as many as the budget keeps for a resting
/// environment, but for one crowded arrangement that takes one more.
pub proof fn law_quiescent_deferrals_suffice(world: World)
    requires
        world.wf(),
    ensures
        !world.crowded_replacement() ==> world.refusals_left() <= QUIESCENT_DEFERRALS,
        world.refusals_left() <= QUIESCENT_DEFERRALS + 1,
{
}

/// Among idle hops and free capacity, one generation that is lost, broken or being replaced costs
/// the placement no more than the refusals the budget keeps for a replacement.
pub proof fn law_replacement_costs_one_refusal(world: World)
    requires
        world.wf(),
        !world.taken(),
        world.at_target.jam == 0,
        world.at_alternate.jam == 0,
    ensures
        world.refusals_left() <= REPLACEMENT_DEFERRALS,
{
}

/// A placement that has the quiescent refusals left when the environment comes to rest is
/// accepted: whatever happens from then on, it does not fail, only so many events can happen, and
/// until it is accepted another one can.
pub proof fn law_refused_placement_arrives_at_rest(worlds: Seq<World>)
    requires
        worlds.len() > 0,
        worlds[0].wf(),
        !(worlds[0].phase is Failed),
        worlds[0].spent() <= REROUTING_BUDGET - QUIESCENT_DEFERRALS,
        worlds[0].crowded_replacement() ==> worlds[0].spent() == 0,
        is_quiet(worlds),
    ensures
        !(worlds.last().phase is Failed),
        worlds.len() <= worlds[0].events_left() + 1,
        worlds.last().phase is Accepted || exists|event: Event| #[trigger]
            worlds.last().enables(event),
{
    law_quiescent_deferrals_suffice(worlds[0]);
    lemma_quiet_run(worlds);
    if !(worlds.last().phase is Accepted) {
        let event = lemma_not_stuck(worlds.last());
        assert(worlds.last().enables(event));
    }
}

} // verus!

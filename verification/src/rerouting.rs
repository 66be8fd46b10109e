//! Rerouting: one user-facing send, made again from fresh topology after a refusal that had no
//! effect, woken by an event and bounded by a budget.
//!
//! An attempt ends accepted, failed, or refused before the backend accepted it. Only a refusal is
//! followed by another attempt, and only within the budget. Between the two the placement waits
//! until the route leads elsewhere or what refused it has changed.

use vstd::prelude::*;

use crate::capacity::PeerProgress;
use crate::capacity::TransferDemand;
use crate::class::SendCompletionOutcome;
use crate::did::Did;
use crate::error::DeferralCause;
use crate::error::DeferralTrigger;
use crate::error::Error;
use crate::error::SendClass;
use crate::error::SendDeferral;
use crate::error::TransportError;
use crate::error::class_of;

verus! {

/// Refusals a placement can still meet once the environment rests.
pub const QUIESCENT_DEFERRALS: u8 = 4;

/// Refusals that one replaced generation causes.
pub const REPLACEMENT_DEFERRALS: u8 = 1;

/// Refused sends one placement tolerates.
pub const REROUTING_BUDGET: u8 = REPLACEMENT_DEFERRALS + QUIESCENT_DEFERRALS;

/// The first link hop toward a destination, as the connection table shows it.
#[derive(Clone, Copy, Debug, PartialEq, Eq, Hash, Structural)]
pub struct LinkHop {
    /// The link peer a send would be bound to.
    pub hop: Did,
    /// The hop's sendable generation.
    pub generation: Option<u64>,
    /// Whether that generation can make progress.
    pub usable: bool,
}

/// Where a placement's route leads.
#[derive(Clone, Copy, Debug, PartialEq, Eq, Hash, Structural)]
pub enum LinkRoute {
    /// This node holds the placement.
    Local,
    /// Through the link hop.
    Remote(LinkHop),
}

/// What is read of local resources.
#[derive(Clone, Copy, Debug, PartialEq, Eq, Hash, Structural)]
pub struct Observation {
    /// The refused request would be admitted.
    pub room: bool,
    /// The refused hop's channel against the stamp taken after the refusal.
    pub peer: PeerProgress,
}

/// What one attempt came to.
#[derive(Debug)]
pub enum Verdict {
    /// Settled locally or accepted by the backend: its effect happened.
    Accepted,
    /// Refused before the backend accepted it.
    Deferred { hop: Did, generation: Option<u64>, demand: TransferDemand, cause: SendDeferral },
    /// Ambiguous or fatal.
    Failed(Error),
}

impl Verdict {
    /// The outcome of a placement that makes this one attempt.
    pub fn single(self) -> (outcome: Result<(), Error>)
        ensures
            outcome == (match self {
                Verdict::Accepted => Ok::<(), Error>(()),
                Verdict::Deferred { cause, .. } => Err(
                    Error::SingleAttemptRefused { refusal: cause },
                ),
                Verdict::Failed(error) => Err(error),
            }),
    {
        match self {
            Verdict::Accepted => Ok(()),
            Verdict::Deferred { cause, .. } => Err(Error::SingleAttemptRefused { refusal: cause }),
            Verdict::Failed(error) => Err(error),
        }
    }

    /// The verdict on a local settlement: whatever happened is final.
    pub fn local(result: Result<(), Error>) -> (verdict: Self)
        ensures
            verdict == (match result {
                Ok(()) => Verdict::Accepted,
                Err(error) => Verdict::Failed(error),
            }),
    {
        match result {
            Ok(()) => Verdict::Accepted,
            Err(error) => Verdict::Failed(error),
        }
    }

    /// This is the verdict on a detached send of `demand` bound to `hop` under `generation` that
    /// ended with `result`.
    pub open spec fn judges(
        self,
        hop: Did,
        generation: Option<u64>,
        demand: TransferDemand,
        result: Result<SendCompletionOutcome, Error>,
    ) -> bool {
        match result {
            Ok(SendCompletionOutcome::Succeeded) => self == Verdict::Accepted,
            Ok(SendCompletionOutcome::Cancelled) => refused_by(
                self,
                hop,
                generation,
                demand,
                DeferralCause::Cancelled(hop),
                DeferralTrigger::LinkChange,
            ),
            Err(error) => match class_of(error) {
                SendClass::Deferrable(trigger) => refused_by(
                    self,
                    hop,
                    generation,
                    demand,
                    DeferralCause::Refused(Box::new(error)),
                    trigger,
                ),
                _ => self == Verdict::Failed(error),
            },
        }
    }

    /// The verdict on a detached send of `demand` bound to `hop` under `generation`: a cancelled
    /// send and a deferrable error are refusals.
    pub fn remote(
        hop: Did,
        generation: Option<u64>,
        demand: TransferDemand,
        result: Result<SendCompletionOutcome, Error>,
    ) -> (verdict: Self)
        ensures
            verdict.judges(hop, generation, demand, result),
    {
        let cause = match result {
            Ok(SendCompletionOutcome::Succeeded) => {
                return Verdict::Accepted;
            },
            Ok(SendCompletionOutcome::Cancelled) => SendDeferral::cancelled(hop),
            Err(error) => match SendDeferral::refused(error) {
                Ok(cause) => cause,
                Err(error) => {
                    return Verdict::Failed(error);
                },
            },
        };
        Verdict::Deferred { hop, generation, demand, cause }
    }
}

/// `verdict` is the refusal of a send to `hop` for `reason`, which waits for `trigger`.
pub open spec fn refused_by(
    verdict: Verdict,
    hop: Did,
    generation: Option<u64>,
    demand: TransferDemand,
    reason: DeferralCause,
    trigger: DeferralTrigger,
) -> bool {
    match verdict {
        Verdict::Deferred { hop: bound, generation: prepared, demand: asked, cause } => {
            &&& bound == hop
            &&& prepared == generation
            &&& asked == demand
            &&& cause.reason() == reason
            &&& cause.awaited() == trigger
        },
        _ => false,
    }
}

/// The state between attempts: how many refusals the placement has spent.
#[derive(Debug)]
pub struct Rerouting {
    /// The refused sends so far.
    pub deferrals: u8,
}

/// What follows an attempt.
#[derive(Debug)]
pub enum Step {
    /// The placement is done.
    Complete,
    /// The placement failed.
    Fail(Error),
    /// Wait, then attempt again.
    Await(Awaiting),
}

/// A refusal within the budget, whose trigger is awaited.
#[derive(Debug)]
pub struct Awaiting {
    /// The refused sends so far, this one among them.
    pub deferrals: u8,
    /// The link peer of the refused send.
    pub hop: Did,
    /// The hop's sendable generation when the refused send was prepared.
    pub generation: Option<u64>,
    /// What the refused transfer asked of outbound capacity.
    pub demand: TransferDemand,
    /// The refusal.
    pub cause: SendDeferral,
}

/// What follows `verdict` after `deferrals` refusals.
pub open spec fn next(deferrals: u8, verdict: Verdict) -> Step {
    match verdict {
        Verdict::Accepted => Step::Complete,
        Verdict::Failed(error) => Step::Fail(error),
        Verdict::Deferred { hop, generation, demand, cause } => if deferrals
            >= REROUTING_BUDGET {
            Step::Fail(Error::ReroutingExhausted { last: cause })
        } else {
            Step::Await(
                Awaiting {
                    deferrals: (deferrals + 1) as u8,
                    hop,
                    generation,
                    demand,
                    cause,
                },
            )
        },
    }
}

impl Rerouting {
    /// The budget holds.
    pub open spec fn wf(&self) -> bool {
        self.deferrals <= REROUTING_BUDGET
    }

    /// No refusal is spent.
    pub fn start() -> (rerouting: Self)
        ensures
            rerouting.wf(),
            rerouting.deferrals == 0,
    {
        Rerouting { deferrals: 0 }
    }

    /// What follows `verdict`.
    pub fn after(self, verdict: Verdict) -> (step: Step)
        ensures
            step == next(self.deferrals, verdict),
            step matches Step::Await(awaiting) ==> awaiting.wf(),
    {
        match verdict {
            Verdict::Accepted => Step::Complete,
            Verdict::Failed(error) => Step::Fail(error),
            Verdict::Deferred { hop, generation, demand, cause } => {
                let deferrals: u8 = self.deferrals.saturating_add(1);
                if deferrals > REROUTING_BUDGET {
                    return Step::Fail(Error::ReroutingExhausted { last: cause });
                }
                Step::Await(Awaiting { deferrals, hop, generation, demand, cause })
            },
        }
    }
}

/// The wait ends: the route leads elsewhere, or what refused the send has changed.
pub open spec fn triggered(
    hop: Did,
    generation: Option<u64>,
    trigger: DeferralTrigger,
    route: LinkRoute,
    observation: Observation,
) -> bool {
    match route {
        LinkRoute::Local => true,
        LinkRoute::Remote(link) => link.hop != hop || match trigger {
            DeferralTrigger::LinkChange => link.usable,
            DeferralTrigger::CapacityRelease => observation.room,
            DeferralTrigger::ChannelDrain => link.generation != generation
                || observation.peer.drained || observation.peer.idle,
        },
    }
}

impl Awaiting {
    /// The budget holds.
    pub open spec fn wf(&self) -> bool {
        1 <= self.deferrals <= REROUTING_BUDGET
    }

    /// Whether the wait ends under a route and an observation read now.
    pub fn is_triggered(&self, route: LinkRoute, observation: Observation) -> (wakes: bool)
        ensures
            wakes == triggered(
                self.hop,
                self.generation,
                self.cause.awaited(),
                route,
                observation,
            ),
    {
        match route {
            LinkRoute::Local => true,
            LinkRoute::Remote(link) => {
                if link.hop != self.hop {
                    return true;
                }
                match self.cause.trigger() {
                    DeferralTrigger::LinkChange => link.usable,
                    DeferralTrigger::CapacityRelease => observation.room,
                    DeferralTrigger::ChannelDrain => {
                        !same_generation(link.generation, self.generation)
                            || observation.peer.drained || observation.peer.idle
                    },
                }
            },
        }
    }

    /// Go on to the next attempt, keeping the refusals spent.
    pub fn resume(self) -> (rerouting: Rerouting)
        ensures
            rerouting.deferrals == self.deferrals,
    {
        Rerouting { deferrals: self.deferrals }
    }

    /// The events after which the wait may end.
    pub fn listens_for(&self) -> (listened: ListenedEvents)
        ensures
            listened == listened_events(self.cause.awaited()),
    {
        match self.cause.trigger() {
            DeferralTrigger::LinkChange => ListenedEvents {
                topology: true,
                link: true,
                room: false,
                channel: false,
            },
            DeferralTrigger::CapacityRelease => ListenedEvents {
                topology: true,
                link: false,
                room: true,
                channel: false,
            },
            DeferralTrigger::ChannelDrain => ListenedEvents {
                topology: true,
                link: true,
                room: false,
                channel: true,
            },
        }
    }
}

/// Whether both are the same generation.
fn same_generation(a: Option<u64>, b: Option<u64>) -> (same: bool)
    ensures
        same == (a == b),
{
    match (a, b) {
        (Some(a), Some(b)) => a == b,
        (None, None) => true,
        _ => false,
    }
}

/// The events a waiting placement listens for.
#[derive(Clone, Copy, Debug, PartialEq, Eq, Hash, Structural)]
pub struct ListenedEvents {
    /// Changes of the topology.
    pub topology: bool,
    /// Changes of a link.
    pub link: bool,
    /// Releases of the peer's and the node's capacity, and departures from their queues.
    pub room: bool,
    /// Ended transfers and releases of the peer.
    pub channel: bool,
}

/// The events after which a wait for `trigger` may end.
pub open spec fn listened_events(trigger: DeferralTrigger) -> ListenedEvents {
    ListenedEvents {
        topology: true,
        link: !(trigger is CapacityRelease),
        room: trigger is CapacityRelease,
        channel: trigger is ChannelDrain,
    }
}

/// How many attempts a placement may make.
#[derive(Clone, Copy, Debug, PartialEq, Eq, Hash, Structural)]
pub enum Attempts {
    /// As many as the budget allows.
    Rerouted,
    /// One: a refusal ends the placement, and nothing waits.
    Single,
}

/// What a placement does after an attempt.
#[derive(Debug)]
pub enum PlacementStep {
    /// It is over.
    Finish(Result<(), Error>),
    /// It waits for its trigger.
    Wait(Awaiting),
}

/// Decide what a placement does after an attempt.
pub fn after_attempt(attempts: Attempts, rerouting: Rerouting, verdict: Verdict) -> (step:
    PlacementStep)
    ensures
        match attempts {
            Attempts::Single => step == PlacementStep::Finish(
                match verdict {
                    Verdict::Accepted => Ok::<(), Error>(()),
                    Verdict::Deferred { cause, .. } => Err(
                        Error::SingleAttemptRefused { refusal: cause },
                    ),
                    Verdict::Failed(error) => Err(error),
                },
            ),
            Attempts::Rerouted => step == (match next(rerouting.deferrals, verdict) {
                Step::Complete => PlacementStep::Finish(Ok::<(), Error>(())),
                Step::Fail(error) => PlacementStep::Finish(Err(error)),
                Step::Await(awaiting) => PlacementStep::Wait(awaiting),
            }),
        },
{
    match attempts {
        Attempts::Single => PlacementStep::Finish(verdict.single()),
        Attempts::Rerouted => match rerouting.after(verdict) {
            Step::Complete => PlacementStep::Finish(Ok(())),
            Step::Fail(error) => PlacementStep::Finish(Err(error)),
            Step::Await(awaiting) => PlacementStep::Wait(awaiting),
        },
    }
}

/// What a waiting placement does.
#[derive(Debug)]
pub enum WaitStep {
    /// It was stopped.
    Stopped(Error),
    /// It attempts again along the route that was read.
    Attempt,
    /// It waits for the next event.
    Listen,
}

/// Decide what a waiting placement does: a stop is observed before anything else.
pub fn wait_step(awaiting: &Awaiting, stopped: bool, route: LinkRoute, observation: Observation) -> (step:
    WaitStep)
    ensures
        step == (if stopped {
            WaitStep::Stopped(Error::ReroutingStopped)
        } else if triggered(
            awaiting.hop,
            awaiting.generation,
            awaiting.cause.awaited(),
            route,
            observation,
        ) {
            WaitStep::Attempt
        } else {
            WaitStep::Listen
        }),
{
    if stopped {
        return WaitStep::Stopped(Error::ReroutingStopped);
    }
    if awaiting.is_triggered(route, observation) {
        WaitStep::Attempt
    } else {
        WaitStep::Listen
    }
}

/// `verdicts` are the attempts of one placement in turn, the first after `deferrals` refusals:
/// each is followed by another only if the placement waits after it.
pub open spec fn is_run(deferrals: u8, verdicts: Seq<Verdict>) -> bool
    decreases verdicts.len(),
{
    if verdicts.len() <= 1 {
        true
    } else {
        match next(deferrals, verdicts[0]) {
            Step::Await(awaiting) => is_run(awaiting.deferrals, verdicts.drop_first()),
            _ => false,
        }
    }
}

/// At most one attempt of a placement has an effect: every attempt but the last was refused
/// before the backend accepted it.
pub proof fn law_only_the_last_attempt_has_an_effect(
    deferrals: u8,
    verdicts: Seq<Verdict>,
    attempt: int,
)
    requires
        is_run(deferrals, verdicts),
        0 <= attempt < verdicts.len() - 1,
    ensures
        verdicts[attempt] is Deferred,
    decreases verdicts.len(),
{
    if attempt > 0 {
        match next(deferrals, verdicts[0]) {
            Step::Await(awaiting) => {
                law_only_the_last_attempt_has_an_effect(
                    awaiting.deferrals,
                    verdicts.drop_first(),
                    attempt - 1,
                );
            },
            _ => {},
        }
    }
}

/// A placement makes at most one send more than the budget, and the refusal past the budget ends
/// it with its own cause.
pub proof fn law_attempts_are_bounded(deferrals: u8, verdicts: Seq<Verdict>)
    requires
        is_run(deferrals, verdicts),
        deferrals <= REROUTING_BUDGET,
    ensures
        verdicts.len() <= REROUTING_BUDGET - deferrals + 1,
        verdicts.len() == REROUTING_BUDGET - deferrals + 1 && verdicts.last() is Deferred ==> next(
            REROUTING_BUDGET,
            verdicts.last(),
        ) == Step::Fail(Error::ReroutingExhausted { last: verdicts.last()->cause }),
    decreases verdicts.len(),
{
    if verdicts.len() > 1 {
        match next(deferrals, verdicts[0]) {
            Step::Await(awaiting) => {
                law_attempts_are_bounded(awaiting.deferrals, verdicts.drop_first());
            },
            _ => {},
        }
    }
}

/// A wait ends on a route that leads elsewhere or on its own event, and on nothing else.
pub proof fn law_waits_end_on_their_own_events(
    hop: Did,
    generation: Option<u64>,
    link: LinkHop,
    observation: Observation,
)
    ensures
        triggered(hop, generation, DeferralTrigger::LinkChange, LinkRoute::Local, observation),
        link.hop != hop ==> triggered(
            hop,
            generation,
            DeferralTrigger::CapacityRelease,
            LinkRoute::Remote(link),
            observation,
        ),
        link.hop == hop ==> {
            &&& triggered(
                hop,
                generation,
                DeferralTrigger::LinkChange,
                LinkRoute::Remote(link),
                observation,
            ) == link.usable
            &&& triggered(
                hop,
                generation,
                DeferralTrigger::CapacityRelease,
                LinkRoute::Remote(link),
                observation,
            ) == observation.room
            &&& triggered(
                hop,
                generation,
                DeferralTrigger::ChannelDrain,
                LinkRoute::Remote(link),
                observation,
            ) == (link.generation != generation || observation.peer.drained
                || observation.peer.idle)
        },
{
}

/// No wake-up is lost: between two readings that differ only in what the wait does not listen
/// for, it ends at both or at neither.
pub proof fn law_listeners_cover_the_guard(
    hop: Did,
    generation: Option<u64>,
    trigger: DeferralTrigger,
    first: (LinkRoute, Observation),
    second: (LinkRoute, Observation),
)
    requires
        first.0 is Local <==> second.0 is Local,
        first.0 is Remote ==> first.0->Remote_0.hop == second.0->Remote_0.hop,
        listened_events(trigger).link ==> first.0 == second.0,
        listened_events(trigger).room ==> first.1.room == second.1.room,
        listened_events(trigger).channel ==> first.1.peer == second.1.peer,
    ensures
        triggered(hop, generation, trigger, first.0, first.1) == triggered(
            hop,
            generation,
            trigger,
            second.0,
            second.1,
        ),
{
}

/// The verdict on a send: accepted exactly if it succeeded; a refusal exactly if it was cancelled or
/// its error leaves it free to be made again; failed with its error otherwise. A refusal keeps the
/// hop, the generation and the demand of the send, and waits for what its error names.
pub proof fn law_verdict_follows_the_send(
    hop: Did,
    generation: Option<u64>,
    demand: TransferDemand,
    result: Result<SendCompletionOutcome, Error>,
    verdict: Verdict,
)
    requires
        call_ensures(Verdict::remote, (hop, generation, demand, result), verdict),
    ensures
        verdict is Accepted <==> result == Ok::<SendCompletionOutcome, Error>(
            SendCompletionOutcome::Succeeded,
        ),
        verdict matches Verdict::Failed(error) ==> result == Err::<SendCompletionOutcome, Error>(
            error,
        ),
        verdict matches Verdict::Deferred { hop: bound, generation: prepared, demand: asked, .. }
            ==> bound == hop && prepared == generation && asked == demand,
        result == Ok::<SendCompletionOutcome, Error>(SendCompletionOutcome::Cancelled) ==> verdict
            is Deferred && verdict->cause.awaited() == DeferralTrigger::LinkChange,
        result matches Err(error) ==> {
            let link = error is SwarmMissDidInTable || error is ConnectionAttemptSuperseded || error
                is TransportNotReady || error is RTCDataChannelStateNotOpen || error
                == Error::Transport(TransportError::SendPermitRevoked);
            let room = error is OutboundTransferCapacityExceeded || error
                is OutboundTransferMemoryCapacityExceeded || error
                is OutboundTransferAdmissionTimeout;
            let drain = error is OutboundFirstFrameAdmissionTimeout || error
                is DataChannelSendQueueTimeout;
            &&& verdict is Deferred <==> link || room || drain
            &&& link ==> verdict->cause.awaited() == DeferralTrigger::LinkChange
            &&& room ==> verdict->cause.awaited() == DeferralTrigger::CapacityRelease
            &&& drain ==> verdict->cause.awaited() == DeferralTrigger::ChannelDrain
            &&& verdict is Deferred ==> verdict->cause.reason() == DeferralCause::Refused(
                Box::new(error),
            )
        },
{
}

/// Whatever happened locally is final.
pub proof fn law_local_settlement_is_final(result: Result<(), Error>, verdict: Verdict)
    requires
        call_ensures(Verdict::local, (result,), verdict),
    ensures
        verdict is Accepted <==> result is Ok,
        verdict matches Verdict::Failed(error) ==> result == Err::<(), Error>(error),
        !(verdict is Deferred),
{
}

/// A placement is done exactly if its attempt was accepted. It waits exactly if the attempt was
/// refused and fewer than five refusals came before; the fifth refusal it waits for is the last. A
/// refusal past that ends it with the cause of that refusal, and any failure with its own error.
pub proof fn law_placement_goes_on_within_its_budget(
    rerouting: Rerouting,
    verdict: Verdict,
    step: Step,
)
    requires
        rerouting.wf(),
        call_ensures(Rerouting::after, (rerouting, verdict), step),
    ensures
        step is Complete <==> verdict is Accepted,
        step is Await <==> verdict is Deferred && rerouting.deferrals < 5,
        verdict is Deferred && rerouting.deferrals >= 5 ==> step == Step::Fail(
            Error::ReroutingExhausted { last: verdict->cause },
        ),
        verdict matches Verdict::Failed(error) ==> step == Step::Fail(error),
        step matches Step::Await(awaiting) ==> awaiting.deferrals == rerouting.deferrals + 1
            && awaiting.hop == verdict->hop && awaiting.generation == verdict->generation
            && awaiting.demand == verdict->demand && awaiting.cause == verdict->cause,
{
}

/// A placement starts with its whole budget, and a wait spends none of it.
pub proof fn law_waits_spend_no_budget(
    started: Rerouting,
    awaiting: Awaiting,
    resumed: Rerouting,
)
    requires
        call_ensures(Rerouting::start, (), started),
        call_ensures(Awaiting::resume, (awaiting,), resumed),
    ensures
        started.deferrals == 0,
        resumed.deferrals == awaiting.deferrals,
{
}

/// A placement that makes one attempt ends with it, whatever it came to, and names the refusal; one
/// that may reroute waits exactly while its budget lasts.
pub proof fn law_attempts_end_or_wait(
    rerouting: Rerouting,
    verdict: Verdict,
    single: PlacementStep,
    rerouted: PlacementStep,
    outcome: Result<(), Error>,
)
    requires
        rerouting.wf(),
        call_ensures(after_attempt, (Attempts::Single, rerouting, verdict), single),
        call_ensures(after_attempt, (Attempts::Rerouted, rerouting, verdict), rerouted),
        call_ensures(Verdict::single, (verdict,), outcome),
    ensures
        single is Finish,
        single->Finish_0 is Ok <==> verdict is Accepted,
        outcome is Ok <==> verdict is Accepted,
        verdict is Deferred ==> single->Finish_0->Err_0 == (Error::SingleAttemptRefused {
            refusal: verdict->cause,
        }) && outcome->Err_0 == single->Finish_0->Err_0,
        verdict matches Verdict::Failed(error) ==> single->Finish_0->Err_0 == error
            && outcome->Err_0 == error,
        rerouted is Wait <==> verdict is Deferred && rerouting.deferrals < 5,
        rerouted matches PlacementStep::Wait(awaiting) ==> awaiting.deferrals
            == rerouting.deferrals + 1 && awaiting.cause == verdict->cause,
        rerouted matches PlacementStep::Finish(result) ==> (result is Ok <==> verdict is Accepted),
{
}

/// A wait is over exactly if the placement is local by now, leads through another hop, or its own
/// event came: a usable link, room for the request, or for a channel a new generation, drained
/// transfers or an idle peer.
pub proof fn law_wait_ends_on_its_own_event(
    awaiting: Awaiting,
    route: LinkRoute,
    observation: Observation,
    wakes: bool,
    step: WaitStep,
    stopped: WaitStep,
)
    requires
        call_ensures(Awaiting::is_triggered, (&awaiting, route, observation), wakes),
        call_ensures(wait_step, (&awaiting, false, route, observation), step),
        call_ensures(wait_step, (&awaiting, true, route, observation), stopped),
    ensures
        route is Local ==> wakes,
        route matches LinkRoute::Remote(link) ==> {
            &&& link.hop != awaiting.hop ==> wakes
            &&& link.hop == awaiting.hop && awaiting.cause.awaited() is LinkChange ==> (wakes
                <==> link.usable)
            &&& link.hop == awaiting.hop && awaiting.cause.awaited() is CapacityRelease ==> (wakes
                <==> observation.room)
            &&& link.hop == awaiting.hop && awaiting.cause.awaited() is ChannelDrain ==> (wakes
                <==> link.generation != awaiting.generation || observation.peer.drained
                || observation.peer.idle)
        },
        step is Attempt <==> wakes,
        step is Listen <==> !wakes,
        stopped matches WaitStep::Stopped(error) && error == Error::ReroutingStopped,
{
}

/// A wait listens to the topology always, to links unless it waits for room, to releases exactly if
/// it waits for room, and to its channel exactly if it waits for that.
pub proof fn law_wait_listens_to_its_events(awaiting: Awaiting, listened: ListenedEvents)
    requires
        call_ensures(Awaiting::listens_for, (&awaiting,), listened),
    ensures
        listened.topology,
        listened.link <==> !(awaiting.cause.awaited() is CapacityRelease),
        listened.room <==> awaiting.cause.awaited() is CapacityRelease,
        listened.channel <==> awaiting.cause.awaited() is ChannelDrain,
{
}

} // verus!

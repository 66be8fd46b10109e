//! Link-control sends: small unsigned signals that belong to one generation of one link.
//!
//! Such a frame goes out on the generation it was judged on or not at all, its sender never waits
//! for the channel, and the sends in flight to a peer are bounded by its budget.

use vstd::prelude::*;

use crate::error::Error;
use crate::link_state::law_release_undoes_reserve;
use crate::payload_send::sends_as;
use crate::registry::PendingConnectionAttempt;
use crate::schedulers::OutboundSchedulers;
use crate::schedulers::PeerLinkPermit;
use crate::schedulers::link_control_counted;
use crate::transport::AdmittedConnection;
use crate::transport::SwarmTransport;
use crate::transport::TransportModel;

verus! {

/// Why no link-control frame goes to the generation `attempt`, if none does.
pub open spec fn link_control_refusal(
    transport: TransportModel,
    schedulers: &OutboundSchedulers,
    attempt: PendingConnectionAttempt,
) -> Option<Error> {
    let peer = attempt.peer;
    if !transport.sends_to(peer) || !transport.connections.contains_key(peer) {
        Some(Error::SwarmMissDidInTable(peer))
    } else if transport.sender_of(peer) != attempt {
        Some(attempt.superseded())
    } else if !schedulers.workers().contains_key(peer) {
        Some(Error::SwarmMissDidInTable(peer))
    } else if schedulers.workers()[peer].link.control_budget.used()
        >= schedulers.workers()[peer].link.control_budget.limit() {
        Some(Error::LinkControlInFlightCapacity(peer))
    } else {
        None
    }
}

impl SwarmTransport {
    /// Start a link-control send on the generation `attempt`, without waiting for it. `spawn`
    /// hands the connection and the counted send to a task of its own, or gives the permit back
    /// where nothing can carry one.
    pub fn send_link_control<
        S: FnOnce(AdmittedConnection, PeerLinkPermit) -> Option<PeerLinkPermit>,
    >(
        &self,
        schedulers: &mut OutboundSchedulers,
        attempt: PendingConnectionAttempt,
        spawn: S,
    ) -> (sent: Result<(), Error>)
        requires
            self.wf(),
            old(schedulers).wf(),
            forall|admitted: AdmittedConnection, permit: PeerLinkPermit| #[trigger]
                spawn.requires((admitted, permit)),
        ensures
            final(schedulers).wf(),
            final(schedulers).held() == old(schedulers).held(),
            final(schedulers).node() == old(schedulers).node(),
            final(schedulers).worker_to_give() == old(schedulers).worker_to_give(),
            final(schedulers).capacity_to_give() == old(schedulers).capacity_to_give(),
            match link_control_refusal(self@, &*old(schedulers), attempt) {
                Some(error) => {
                    &&& sent == Err::<(), Error>(error)
                    &&& final(schedulers).workers() == old(schedulers).workers()
                },
                None => exists|permit: PeerLinkPermit, returned: Option<PeerLinkPermit>|
                    {
                        &&& #[trigger] spawn.ensures(
                            (
                                AdmittedConnection {
                                    attempt,
                                    connection: self@.connections[attempt.peer],
                                },
                                permit,
                            ),
                            returned,
                        )
                        &&& permit.link == old(schedulers).workers()[attempt.peer].link.announced
                        &&& match returned {
                            None => {
                                &&& sent is Ok
                                &&& final(schedulers).workers() == link_control_counted(
                                    old(schedulers).workers(),
                                    attempt.peer,
                                    old(schedulers).workers()[attempt.peer].link.control_budget.used()
                                        + 1,
                                )
                            },
                            Some(_) => {
                                &&& sent == Err::<(), Error>(Error::LinkControlRuntimeUnavailable)
                                &&& final(schedulers).workers() == old(schedulers).workers()
                            },
                        }
                    },
            },
    {
        let peer = attempt.peer;
        let admitted = match self.admitted_send_connection(peer) {
            Some(admitted) => admitted,
            None => {
                return Err(Error::SwarmMissDidInTable(peer));
            },
        };
        if admitted.attempt != attempt {
            return Err(
                Error::ConnectionAttemptSuperseded { peer, generation: attempt.generation },
            );
        }
        let permit = match schedulers.link_control_permit(peer) {
            None => {
                return Err(Error::SwarmMissDidInTable(peer));
            },
            Some(None) => {
                return Err(Error::LinkControlInFlightCapacity(peer));
            },
            Some(Some(permit)) => permit,
        };
        let link: u64 = permit.link;
        match spawn(admitted, permit) {
            None => Ok(()),
            Some(unused) => {
                proof {
                    law_release_undoes_reserve(
                        old(schedulers).workers()[peer].link.control_budget,
                    );
                }
                schedulers.release_link_control(
                    peer,
                    PeerLinkPermit { link, permit: unused.permit },
                );
                proof {
                    assert(schedulers.workers() =~= old(schedulers).workers());
                }
                Err(Error::LinkControlRuntimeUnavailable)
            },
        }
    }
}

/// A link-control frame goes out only on the generation it was judged on, while that generation
/// sends; it never goes out on another generation of the peer.
pub proof fn law_link_control_stays_on_its_generation(
    transport: TransportModel,
    schedulers: &OutboundSchedulers,
    attempt: PendingConnectionAttempt,
)
    ensures
        link_control_refusal(transport, schedulers, attempt) is None ==> transport.sends_to(
            attempt.peer,
        ) && transport.sender_of(attempt.peer) == attempt,
        transport.sends_to(attempt.peer) && transport.connections.contains_key(attempt.peer)
            && transport.sender_of(attempt.peer) != attempt ==> link_control_refusal(
            transport,
            schedulers,
            attempt,
        ) == Some(attempt.superseded()),
{
}

/// A link-control send starts only while fewer sends than the peer's bound are in flight.
pub proof fn law_link_control_is_bounded(
    transport: TransportModel,
    schedulers: &OutboundSchedulers,
    attempt: PendingConnectionAttempt,
)
    ensures
        link_control_refusal(transport, schedulers, attempt) is None
            ==> schedulers.workers().contains_key(attempt.peer)
            && schedulers.workers()[attempt.peer].link.control_budget.used() + 1
            <= schedulers.workers()[attempt.peer].link.control_budget.limit(),
{
}

/// A link-control frame is refused exactly if its generation no longer sends, its peer has no
/// connection or no worker, or the peer's budget is spent; each is told as what it is. Otherwise it
/// is handed on, with the peer's connection and a send counted on the peer's link, and it is counted
/// exactly if something carries it.
pub proof fn law_link_control_is_handed_on_or_refused<
    S: FnOnce(AdmittedConnection, PeerLinkPermit) -> Option<PeerLinkPermit>,
>(
    transport: SwarmTransport,
    schedulers: &mut OutboundSchedulers,
    attempt: PendingConnectionAttempt,
    spawn: S,
    sent: Result<(), Error>,
)
    requires
        transport.wf(),
        old(schedulers).wf(),
        forall|admitted: AdmittedConnection, permit: PeerLinkPermit| #[trigger]
            spawn.requires((admitted, permit)),
        call_ensures(
            SwarmTransport::send_link_control::<S>,
            (&transport, schedulers, attempt, spawn),
            sent,
        ),
    ensures
        ({
            let peer = attempt.peer;
            let workers = old(schedulers).workers();
            let connected = transport@.connections.contains_key(peer) && exists|
                owner: PendingConnectionAttempt,
            | sends_as(transport, peer, owner);
            let current = sends_as(transport, peer, attempt);
            &&& !connected ==> sent == Err::<(), Error>(Error::SwarmMissDidInTable(peer))
            &&& connected && !current ==> sent == Err::<(), Error>(
                Error::ConnectionAttemptSuperseded { peer, generation: attempt.generation },
            )
            &&& connected && current && !workers.contains_key(peer) ==> sent == Err::<(), Error>(
                Error::SwarmMissDidInTable(peer),
            )
            &&& connected && current && workers.contains_key(peer)
                && workers[peer].link.control_budget.used()
                >= workers[peer].link.control_budget.limit() ==> sent == Err::<(), Error>(
                Error::LinkControlInFlightCapacity(peer),
            )
            &&& sent is Ok ==> connected && current && workers.contains_key(peer)
                && workers[peer].link.control_budget.used()
                < workers[peer].link.control_budget.limit() && final(schedulers).workers()[peer].link.control_budget.used()
                == workers[peer].link.control_budget.used() + 1
            &&& sent is Err ==> final(schedulers).workers() == workers
            &&& connected && current && workers.contains_key(peer)
                && workers[peer].link.control_budget.used()
                < workers[peer].link.control_budget.limit() ==> (sent is Ok || sent == Err::<
                (),
                Error,
            >(Error::LinkControlRuntimeUnavailable)) && exists|
                permit: PeerLinkPermit,
                returned: Option<PeerLinkPermit>,
            | #[trigger]
                spawn.ensures(
                    (
                        AdmittedConnection { attempt, connection: transport@.connections[peer] },
                        permit,
                    ),
                    returned,
                ) && permit.link == workers[peer].link.announced && (returned is None <==> sent
                    is Ok)
        }),
{
    let peer = attempt.peer;
    let budget = old(schedulers).workers()[peer].link.control_budget;
    if budget.used() < budget.limit() {
        law_release_undoes_reserve(budget);
    }
    if transport@.sends_to(peer) {
        assert(sends_as(transport, peer, transport@.sender_of(peer)));
    }
    assert forall|owner: PendingConnectionAttempt|
        sends_as(transport, peer, owner) implies transport@.sends_to(peer) && transport@.sender_of(
        peer,
    ) == owner by {}
}

} // verus!

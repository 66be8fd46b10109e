//! The outbound side of every peer: its worker, its link and its capacity.
//!
//! A peer's worker may be replaced while its link stays: what was announced stays answerable, and
//! the sends in flight stay counted. A peer's capacity lives as long as something holds it, a
//! worker's handle or a transfer, so a replaced worker starts with what the peer still holds.

use vstd::prelude::*;

use crate::capacity::AcquireProgress;
use crate::capacity::GlobalTransferCapacity;
use crate::capacity::PeerCapacityPermit;
use crate::capacity::PeerStamp;
use crate::capacity::TransferCapacity;
use crate::capacity::TransferCapacityPermit;
use crate::capacity::TransferDemand;
use crate::capacity::acquired;
use crate::capacity::backed;
use crate::capacity::charged;
use crate::capacity::column;
use crate::capacity::joint_refusal;
use crate::capacity::lemma_refusal_is_want_of_space;
use crate::capacity::lowered;
use crate::capacity::most_bytes;
use crate::capacity::node_has_space;
use crate::capacity::node_resumed;
use crate::capacity::node_wait_abandoned;
use crate::capacity::peer_has_space;
use crate::capacity::peer_wait_abandoned;
use crate::capacity::raised;
use crate::capacity::resumed;
use crate::class::TransferClass;
use crate::did::Did;
use crate::error::Error;
use crate::link_state::LinkControlPermit;
use crate::link_state::PeerLinkState;
use crate::link_state::lemma_budget_counts;
use crate::link_state::link_control_limit;
use crate::ordered_map::OrderedMap;
use crate::protection::ProtectionProfile;
use crate::reserved_capacity::total;

verus! {

/// A handle on a peer's worker.
#[derive(Clone, Copy, Debug, PartialEq, Eq, Hash, Structural)]
pub struct PeerHandle {
    /// The worker's number.
    pub worker: u64,
    /// The worker was told to stop.
    pub stopped: bool,
    /// The peer's link.
    pub link: PeerLinkState,
    /// The number of the capacity the handle keeps alive.
    pub capacity: u64,
}

/// One link-control send, counted on the link of this number.
#[derive(Debug)]
pub struct PeerLinkPermit {
    /// The number of the link's table of announced sessions.
    pub link: u64,
    /// The counted send.
    pub permit: LinkControlPermit,
}

/// A peer's capacity, and how many handles keep it alive.
pub struct HeldCapacity {
    /// The capacity.
    pub capacity: TransferCapacity,
    /// The handles.
    pub anchors: u64,
}

impl HeldCapacity {
    /// Something holds the capacity: a handle, a transfer, or a request that waits.
    pub open spec fn alive(&self) -> bool {
        self.anchors > 0 || total(self.capacity.state().counts()) > 0 || self.capacity.queue().len()
            > 0
    }

    /// Whether something holds the capacity.
    pub fn is_alive(&self) -> (alive: bool)
        requires
            self.capacity.wf(),
        ensures
            alive == self.alive(),
    {
        self.anchors > 0 || self.capacity.admitted() > 0 || self.capacity.has_waiters()
    }
}

/// The outbound side of every peer.
pub struct OutboundSchedulers {
    peers: OrderedMap<Did, PeerHandle>,
    capacities: OrderedMap<Did, HeldCapacity>,
    global: GlobalTransferCapacity,
    next_worker: u64,
    next_capacity: u64,
}

/// Only the capacities that something holds.
pub open spec fn living(capacities: Map<Did, HeldCapacity>) -> Map<Did, HeldCapacity> {
    capacities.restrict(capacities.dom().filter(|peer: Did| capacities[peer].alive()))
}

/// `workers` with `in_flight` link-control sends in flight to `peer`.
pub open spec fn link_control_counted(
    workers: Map<Did, PeerHandle>,
    peer: Did,
    in_flight: nat,
) -> Map<Did, PeerHandle> {
    let before = workers[peer];
    workers.insert(
        peer,
        PeerHandle {
            link: PeerLinkState {
                control_budget: before.link.control_budget.with_used(in_flight),
                ..before.link
            },
            ..before
        },
    )
}

impl OutboundSchedulers {
    /// The worker of each peer.
    pub closed spec fn workers(&self) -> Map<Did, PeerHandle> {
        self.peers@
    }

    /// The capacity of each peer.
    pub closed spec fn held(&self) -> Map<Did, HeldCapacity> {
        self.capacities@
    }

    /// The node's capacity.
    pub closed spec fn node(&self) -> GlobalTransferCapacity {
        self.global
    }

    /// The number the next worker gets.
    pub closed spec fn worker_to_give(&self) -> u64 {
        self.next_worker
    }

    /// The number the next capacity gets.
    pub closed spec fn capacity_to_give(&self) -> u64 {
        self.next_capacity
    }

    /// The link of `peer` is the one numbered `link`.
    pub open spec fn links_to(&self, peer: Did, link: u64) -> bool {
        self.workers().contains_key(peer) && self.workers()[peer].link.announced == link
    }

    /// The worker numbered `worker` serves `peer` and was not told to stop.
    pub open spec fn runs(&self, peer: Did, worker: u64) -> bool {
        self.workers().contains_key(peer) && self.workers()[peer].worker == worker
            && !self.workers()[peer].stopped
    }

    /// The tables are in identity order, every capacity and budget keeps its bounds, and no more
    /// handles keep a capacity alive than there were workers.
    pub closed spec fn wf(&self) -> bool {
        &&& self.peers.wf()
        &&& self.capacities.wf()
        &&& self.global.wf()
        &&& forall|peer: Did| #[trigger]
            self.capacities@.contains_key(peer) ==> self.capacities@[peer].capacity.wf()
                && self.capacities@[peer].capacity.rules() == self.global.rules()
                && self.capacities@[peer].anchors <= self.next_worker
        &&& forall|peer: Did| #[trigger]
            self.peers@.contains_key(peer) ==> self.peers@[peer].link.control_budget.wf()
    }

    /// No peer, under the protections of `profile`.
    pub fn new(profile: ProtectionProfile) -> (schedulers: Self)
        ensures
            schedulers.wf(),
            schedulers.workers() == Map::<Did, PeerHandle>::empty(),
            schedulers.held() == Map::<Did, HeldCapacity>::empty(),
            schedulers.node().idle_under(profile),
            schedulers.worker_to_give() == 0,
            schedulers.capacity_to_give() == 0,
    {
        OutboundSchedulers {
            peers: OrderedMap::new(),
            capacities: OrderedMap::new(),
            global: GlobalTransferCapacity::with_profile(profile),
            next_worker: 0,
            next_capacity: 0,
        }
    }

    /// Whether there are numbers left for another worker and another capacity.
    pub fn numbers_left(&self) -> (left: bool)
        ensures
            left == (self.worker_to_give() < u64::MAX && self.capacity_to_give() < u64::MAX),
    {
        self.next_worker < u64::MAX && self.next_capacity < u64::MAX
    }

    /// How many peers have a worker.
    pub fn peer_count(&self) -> (count: usize)
        requires
            self.wf(),
        ensures
            count == self.workers().dom().len(),
    {
        self.peers.len()
    }

    /// How many peers have a capacity.
    pub fn capacity_key_count(&self) -> (count: usize)
        requires
            self.wf(),
        ensures
            count == self.held().dom().len(),
    {
        self.capacities.len()
    }

    /// Forget every capacity that nothing holds.
    pub fn prune_capacities(&mut self)
        requires
            old(self).wf(),
        ensures
            final(self).wf(),
            final(self).held() == living(old(self).held()),
            final(self).workers() == old(self).workers(),
            final(self).node() == old(self).node(),
            final(self).worker_to_give() == old(self).worker_to_give(),
            final(self).capacity_to_give() == old(self).capacity_to_give(),
    {
        let mut index: usize = 0;
        proof {
            self.capacities.lemma_listing();
        }
        while index < self.capacities.len()
            invariant
                self.wf(),
                old(self).wf(),
                self.peers == old(self).peers,
                self.global == old(self).global,
                self.next_worker == old(self).next_worker,
                self.next_capacity == old(self).next_capacity,
                index <= self.capacities.listing().len(),
                forall|peer: Did| #[trigger]
                    self.held().contains_key(peer) ==> old(self).held().contains_key(peer)
                        && self.held()[peer] == old(self).held()[peer],
                forall|peer: Did|
                    #![trigger self.held().contains_key(peer)]
                    old(self).held().contains_key(peer) && !self.held().contains_key(peer) ==> !old(
                        self,
                    ).held()[peer].alive(),
                forall|j: int|
                    0 <= j < index ==> (#[trigger] self.capacities.listing()[j]).1.alive(),
            decreases self.capacities.listing().len() - index,
        {
            let ghost before = self.held();
            let ghost listing = self.capacities.listing();
            proof {
                self.capacities.lemma_listing();
                assert(before.contains_pair(
                    listing[index as int].0,
                    listing[index as int].1,
                ));
            }
            if self.capacities.entry_at(index).1.is_alive() {
                index += 1;
            } else {
                let _ = self.capacities.remove_at(index);
                proof {
                    assert(self.held() == before.remove(listing[index as int].0));
                    assert forall|j: int| 0 <= j < index implies (
                    #[trigger] self.capacities.listing()[j]).1.alive() by {
                        assert(self.capacities.listing()[j] == listing[j]);
                    }
                }
            }
        }
        proof {
            self.capacities.lemma_listing();
            assert forall|peer: Did| #[trigger] self.held().contains_key(peer) implies self.held(
            )[peer].alive() by {
                let j = choose|j: int|
                    0 <= j < self.capacities.listing().len() && (
                    #[trigger] self.capacities.listing()[j]).0 == peer;
                assert(self.capacities@.contains_pair(
                    self.capacities.listing()[j].0,
                    self.capacities.listing()[j].1,
                ));
            }
            assert(self.held() =~= living(old(self).held()));
        }
    }

    /// Make sure `peer` has a capacity: the living one it has, or a new one.
    fn ensure_capacity(&mut self, peer: Did)
        requires
            old(self).wf(),
            old(self).capacity_to_give() < u64::MAX,
        ensures
            final(self).wf(),
            final(self).workers() == old(self).workers(),
            final(self).node() == old(self).node(),
            final(self).worker_to_give() == old(self).worker_to_give(),
            final(self).held().contains_key(peer),
            if living(old(self).held()).contains_key(peer) {
                &&& final(self).held() == living(old(self).held())
                &&& final(self).capacity_to_give() == old(self).capacity_to_give()
            } else {
                &&& final(self).held() == living(old(self).held()).insert(
                    peer,
                    final(self).held()[peer],
                )
                &&& final(self).held()[peer].anchors == 0
                &&& final(self).held()[peer].capacity.number() == old(self).capacity_to_give()
                &&& final(self).held()[peer].capacity.state().fresh()
                &&& final(self).held()[peer].capacity.queue().len() == 0
                &&& final(self).held()[peer].capacity.rules() == old(self).node().rules()
                &&& final(self).capacity_to_give() == old(self).capacity_to_give() + 1
            },
    {
        self.prune_capacities();
        if self.capacities.contains_key(peer) {
            return;
        }
        let number: u64 = self.next_capacity;
        self.next_capacity = number + 1;
        let capacity = TransferCapacity::new(number, &self.global);
        self.capacities.insert(peer, HeldCapacity { capacity, anchors: 0 });
    }

    /// The handle of `peer`'s worker: the running one, or that of a new one which `spawn` starts.
    /// A new worker keeps the link of a stopped one.
    pub fn handle<S: FnOnce(u64, PeerLinkState) -> Result<(), Error>>(
        &mut self,
        peer: Did,
        inbound_frame_capacity: usize,
        spawn: S,
    ) -> (handle: Result<PeerHandle, Error>)
        requires
            old(self).wf(),
            old(self).capacity_to_give() < u64::MAX,
            old(self).worker_to_give() < u64::MAX,
            forall|worker: u64, link: PeerLinkState| #[trigger] spawn.requires((worker, link)),
        ensures
            final(self).wf(),
            final(self).node() == old(self).node(),
            ({
                let workers = old(self).workers();
                if workers.contains_key(peer) && !workers[peer].stopped {
                    &&& handle == Ok::<PeerHandle, Error>(workers[peer])
                    &&& *final(self) == *old(self)
                } else {
                    &&& final(self).worker_to_give() == old(self).worker_to_give() + 1
                    &&& exists|link: PeerLinkState, spawned: Result<(), Error>|
                        {
                            &&& #[trigger] spawn.ensures(
                                (old(self).worker_to_give(), link),
                                spawned,
                            )
                            &&& workers.contains_key(peer) ==> link == workers[peer].link
                            &&& !workers.contains_key(peer) ==> link.announced
                                == old(self).worker_to_give() && link.control_budget.used() == 0
                                && link.control_budget.limit() == link_control_limit(
                                inbound_frame_capacity,
                            )
                            &&& match spawned {
                                Ok(()) => {
                                    &&& handle matches Ok(handle) && handle.worker
                                        == old(self).worker_to_give() && !handle.stopped
                                        && handle.link == link && handle.capacity
                                        == final(self).held()[peer].capacity.number()
                                        && final(self).workers() == workers.insert(peer, handle)
                                    &&& final(self).held()[peer].anchors == (if living(
                                        old(self).held(),
                                    ).contains_key(peer) {
                                        old(self).held()[peer].anchors + 1
                                    } else {
                                        1
                                    })
                                },
                                Err(error) => {
                                    &&& handle == Err::<PeerHandle, Error>(error)
                                    &&& final(self).workers() == workers.remove(peer)
                                    &&& final(self).held()[peer].anchors == (if living(
                                        old(self).held(),
                                    ).contains_key(peer) {
                                        old(self).held()[peer].anchors
                                    } else {
                                        0
                                    })
                                },
                            }
                        }
                    &&& final(self).held() == living(old(self).held()).insert(
                        peer,
                        final(self).held()[peer],
                    )
                    &&& if living(old(self).held()).contains_key(peer) {
                        &&& final(self).held()[peer].capacity == old(self).held()[peer].capacity
                        &&& final(self).capacity_to_give() == old(self).capacity_to_give()
                    } else {
                        &&& final(self).held()[peer].capacity.number() == old(
                            self,
                        ).capacity_to_give()
                        &&& final(self).held()[peer].capacity.state().fresh()
                        &&& final(self).held()[peer].capacity.queue().len() == 0
                        &&& final(self).held()[peer].capacity.rules() == old(self).node().rules()
                        &&& final(self).capacity_to_give() == old(self).capacity_to_give() + 1
                    }
                }
            }),
    {
        let mut kept_link: Option<PeerLinkState> = None;
        if let Some(handle) = self.peers.get(peer) {
            if !handle.stopped {
                return Ok(*handle);
            }
            kept_link = Some(handle.link);
        }
        let worker: u64 = self.next_worker;
        self.next_worker = worker + 1;
        let _ = self.peers.remove(peer);
        let link = match kept_link {
            Some(link) => link,
            None => PeerLinkState::new(worker, inbound_frame_capacity),
        };
        self.ensure_capacity(peer);
        let spawned = spawn(worker, link);
        match spawned {
            Ok(()) => {},
            Err(error) => {
                proof {
                    assert(spawn.ensures((old(self).worker_to_give(), link), spawned));
                    assert(self.held() =~= living(old(self).held()).insert(
                        peer,
                        self.held()[peer],
                    ));
                }
                return Err(error);
            },
        }
        proof {
            assert(spawn.ensures((old(self).worker_to_give(), link), spawned));
        }
        let mut number: u64 = 0;
        if let Some(held) = self.capacities.get_mut(peer) {
            held.anchors = held.anchors + 1;
            number = held.capacity.id();
        }
        let handle = PeerHandle { worker, stopped: false, link, capacity: number };
        self.peers.insert(peer, handle);
        proof {
            assert(self.workers() =~= old(self).workers().insert(peer, handle));
            assert(self.held() =~= living(old(self).held()).insert(peer, self.held()[peer]));
        }
        Ok(handle)
    }

    /// The handle of `peer`'s worker, stopped or not.
    pub fn worker_of(&self, peer: Did) -> (handle: Option<PeerHandle>)
        requires
            self.wf(),
        ensures
            handle == (if self.workers().contains_key(peer) {
                Some(self.workers()[peer])
            } else {
                None
            }),
    {
        match self.peers.get(peer) {
            Some(handle) => Some(*handle),
            None => None,
        }
    }

    /// Note that the worker of `peer` was told to stop; it will be replaced at the next send.
    pub fn mark_stopped(&mut self, peer: Did, worker: u64)
        requires
            old(self).wf(),
        ensures
            final(self).wf(),
            final(self).held() == old(self).held(),
            final(self).node() == old(self).node(),
            final(self).worker_to_give() == old(self).worker_to_give(),
            final(self).capacity_to_give() == old(self).capacity_to_give(),
            final(self).workers() == (if old(self).workers().contains_key(peer)
                && old(self).workers()[peer].worker == worker {
                old(self).workers().insert(
                    peer,
                    PeerHandle { stopped: true, ..old(self).workers()[peer] },
                )
            } else {
                old(self).workers()
            }),
    {
        if let Some(handle) = self.peers.get_mut(peer) {
            if handle.worker == worker {
                handle.stopped = true;
            }
        }
        proof {
            assert(self.workers() =~= (if old(self).workers().contains_key(peer)
                && old(self).workers()[peer].worker == worker {
                old(self).workers().insert(
                    peer,
                    PeerHandle { stopped: true, ..old(self).workers()[peer] },
                )
            } else {
                old(self).workers()
            }));
        }
    }

    /// Stop the worker of `peer` and forget it; gives the handle of the worker to stop.
    pub fn shutdown(&mut self, peer: Did) -> (stopped: Option<PeerHandle>)
        requires
            old(self).wf(),
        ensures
            final(self).wf(),
            stopped == (if old(self).workers().contains_key(peer) {
                Some(old(self).workers()[peer])
            } else {
                None
            }),
            final(self).workers() == old(self).workers().remove(peer),
            final(self).held() == living(old(self).held()),
            final(self).node() == old(self).node(),
            final(self).worker_to_give() == old(self).worker_to_give(),
            final(self).capacity_to_give() == old(self).capacity_to_give(),
    {
        let stopped = self.peers.remove(peer);
        self.prune_capacities();
        stopped
    }

    /// A handle that kept the capacity numbered `capacity` of `peer` alive is gone.
    pub fn release_anchor(&mut self, peer: Did, capacity: u64)
        requires
            old(self).wf(),
        ensures
            final(self).wf(),
            final(self).workers() == old(self).workers(),
            final(self).node() == old(self).node(),
            final(self).worker_to_give() == old(self).worker_to_give(),
            final(self).capacity_to_give() == old(self).capacity_to_give(),
            ({
                let before = old(self).held();
                if before.contains_key(peer) && before[peer].capacity.number() == capacity
                    && before[peer].anchors > 0 {
                    final(self).held() == before.insert(
                        peer,
                        HeldCapacity {
                            anchors: (before[peer].anchors - 1) as u64,
                            ..before[peer]
                        },
                    )
                } else {
                    final(self).held() == before
                }
            }),
    {
        if let Some(held) = self.capacities.get_mut(peer) {
            if held.capacity.id() == capacity && held.anchors > 0 {
                held.anchors = held.anchors - 1;
            }
        }
        proof {
            let before = old(self).held();
            if before.contains_key(peer) {
                assert(before.insert(peer, before[peer]) =~= before);
            }
        }
    }

    /// Ask for capacity for a transfer of `bytes` to `peer`.
    pub fn reserve(&mut self, peer: Did, class: TransferClass, bytes: usize) -> (progress:
        AcquireProgress)
        requires
            old(self).wf(),
            old(self).capacity_to_give() < u64::MAX,
        ensures
            final(self).wf(),
            final(self).workers() == old(self).workers(),
            final(self).worker_to_give() == old(self).worker_to_give(),
            final(self).capacity_to_give() == (if living(old(self).held()).contains_key(peer) {
                old(self).capacity_to_give() as int
            } else {
                old(self).capacity_to_give() + 1
            }),
            final(self).node().rules() == old(self).node().rules(),
            final(self).held() == living(old(self).held()).insert(peer, final(self).held()[peer]),
            living(old(self).held()).contains_key(peer) ==> final(self).held()[peer].anchors
                == old(self).held()[peer].anchors && final(self).held()[peer].capacity.number()
                == old(self).held()[peer].capacity.number(),
            !living(old(self).held()).contains_key(peer) ==> final(self).held()[peer].anchors == 0,
            backed(&final(self).held()[peer].capacity, &final(self).node(), progress),
            exists|capacity: TransferCapacity| #[trigger]
                acquired(
                    &capacity,
                    &final(self).held()[peer].capacity,
                    &old(self).node(),
                    &final(self).node(),
                    peer,
                    class,
                    bytes,
                    progress,
                ) && capacity.rules() == old(self).node().rules() && if living(
                    old(self).held(),
                ).contains_key(peer) {
                    capacity == old(self).held()[peer].capacity
                } else {
                    capacity.state().fresh() && capacity.queue().len() == 0 && capacity.number()
                        == old(self).capacity_to_give()
                },
    {
        self.ensure_capacity(peer);
        let ghost capacity = self.held()[peer].capacity;
        let progress = match self.capacities.get_mut(peer) {
            Some(held) => held.capacity.acquire(&mut self.global, peer, class, bytes),
            None => AcquireProgress::Refused(Error::ChannelSendMessageFailed),
        };
        assert(self.held() =~= living(old(self).held()).insert(peer, self.held()[peer]));
        assert(acquired(
            &capacity,
            &self.held()[peer].capacity,
            &old(self).node(),
            &self.node(),
            peer,
            class,
            bytes,
            progress,
        ));
        progress
    }

    /// Admit a transfer of `bytes` to `peer` through the worker of `handle` at once, or refuse it: a
    /// worker that was stopped or replaced admits nothing.
    pub fn reserve_now(
        &mut self,
        peer: Did,
        handle: &PeerHandle,
        class: TransferClass,
        bytes: usize,
    ) -> (reserved: Result<TransferCapacityPermit, Error>)
        requires
            old(self).wf(),
        ensures
            final(self).wf(),
            final(self).workers() == old(self).workers(),
            final(self).worker_to_give() == old(self).worker_to_give(),
            final(self).capacity_to_give() == old(self).capacity_to_give(),
            ({
                let before = old(self).held();
                if !old(self).runs(peer, handle.worker) || !before.contains_key(peer)
                    || before[peer].capacity.number() != handle.capacity {
                    &&& reserved == Err::<TransferCapacityPermit, Error>(
                        Error::ChannelSendMessageFailed,
                    )
                    &&& final(self).held() == before
                    &&& final(self).node() == old(self).node()
                } else {
                    let after = final(self).held()[peer];
                    let counts = before[peer].capacity.state().counts();
                    let sizes = before[peer].capacity.state().sizes();
                    &&& final(self).held() == before.insert(peer, after)
                    &&& after.anchors == before[peer].anchors
                    &&& after.capacity.same_but_state(&before[peer].capacity)
                    &&& after.capacity.state().ended_on_link()
                        == before[peer].capacity.state().ended_on_link()
                    &&& final(self).node().same_but_held(&old(self).node())
                    &&& match joint_refusal(
                        &before[peer].capacity,
                        &old(self).node(),
                        peer,
                        class,
                        charged(bytes),
                    ) {
                        Some(refusal) => {
                            &&& reserved == Err::<TransferCapacityPermit, Error>(refusal)
                            &&& after.capacity.state().counts() == counts
                            &&& after.capacity.state().sizes() == sizes
                            &&& final(self).node().held() == old(self).node().held()
                        },
                        None => {
                            &&& reserved matches Ok(permit) && permit.of_peer().of_class() == class
                                && permit.of_peer().amount() == charged(bytes)
                                && permit.of_node().of_class() == class
                                && permit.of_node().amount() == charged(bytes)
                                && !permit.on_link() && after.capacity.holds(permit.of_peer())
                                && final(self).node().holds(permit.of_node())
                            &&& after.capacity.state().counts() == raised(counts, class, 1)
                            &&& after.capacity.state().sizes() == raised(
                                sizes,
                                class,
                                charged(bytes) as int,
                            )
                            &&& final(self).node().held() == raised(
                                old(self).node().held(),
                                class,
                                charged(bytes) as int,
                            )
                        },
                    }
                }
            }),
    {
        let running = match self.peers.get(peer) {
            Some(known) => known.worker == handle.worker && !known.stopped,
            None => false,
        };
        if !running {
            return Err(Error::ChannelSendMessageFailed);
        }
        let current = match self.capacities.get(peer) {
            Some(held) => held.capacity.id() == handle.capacity,
            None => false,
        };
        if !current {
            return Err(Error::ChannelSendMessageFailed);
        }
        match self.capacities.get_mut(peer) {
            Some(held) => held.capacity.try_acquire(&mut self.global, peer, class, bytes),
            None => Err(Error::ChannelSendMessageFailed),
        }
    }

    /// How many transfers of `peer` hold capacity, if the peer has a capacity.
    pub fn admitted_transfer_count(&self, peer: Did) -> (admitted: Option<usize>)
        requires
            self.wf(),
        ensures
            match admitted {
                Some(admitted) => self.held().contains_key(peer) && admitted == total(
                    self.held()[peer].capacity.state().counts(),
                ),
                None => !self.held().contains_key(peer),
            },
    {
        match self.capacities.get(peer) {
            Some(held) => Some(held.capacity.admitted()),
            None => None,
        }
    }

    /// Give back what a transfer to `peer` held.
    pub fn release(&mut self, peer: Did, permit: TransferCapacityPermit) -> (released: bool)
        requires
            old(self).wf(),
            old(self).held().contains_key(peer) ==> old(self).held()[peer].capacity.holds(
                permit.of_peer(),
            ) && old(self).node().holds(permit.of_node()),
        ensures
            final(self).wf(),
            final(self).workers() == old(self).workers(),
            final(self).worker_to_give() == old(self).worker_to_give(),
            final(self).capacity_to_give() == old(self).capacity_to_give(),
            released == old(self).held().contains_key(peer),
            !released ==> final(self).held() == old(self).held() && final(self).node()
                == old(self).node(),
            released ==> {
                let before = old(self).held()[peer];
                let after = final(self).held()[peer];
                &&& final(self).held() == old(self).held().insert(peer, after)
                &&& after.anchors == before.anchors
                &&& after.capacity.same_but_state(&before.capacity)
                &&& after.capacity.state().counts() == lowered(
                    before.capacity.state().counts(),
                    permit.of_peer().of_class(),
                    1,
                )
                &&& after.capacity.state().sizes() == lowered(
                    before.capacity.state().sizes(),
                    permit.of_peer().of_class(),
                    permit.of_peer().amount() as int,
                )
                &&& after.capacity.state().ended_on_link() == (if permit.on_link()
                    && before.capacity.state().ended_on_link() < u64::MAX {
                    (before.capacity.state().ended_on_link() + 1) as u64
                } else {
                    before.capacity.state().ended_on_link()
                })
                &&& final(self).node().held() == lowered(
                    old(self).node().held(),
                    permit.of_node().of_class(),
                    permit.of_node().amount() as int,
                )
                &&& final(self).node().same_but_held(&old(self).node())
            },
    {
        match self.capacities.get_mut(peer) {
            Some(held) => {
                held.capacity.release(&mut self.global, permit);
                true
            },
            None => false,
        }
    }

    /// Ask again for the request of `demand` that waits for the capacity of `peer` under `ticket`.
    pub fn resume(&mut self, peer: Did, ticket: u64, demand: TransferDemand) -> (progress:
        AcquireProgress)
        requires
            old(self).wf(),
        ensures
            final(self).wf(),
            final(self).workers() == old(self).workers(),
            final(self).worker_to_give() == old(self).worker_to_give(),
            final(self).capacity_to_give() == old(self).capacity_to_give(),
            if old(self).held().contains_key(peer) {
                &&& final(self).held() == old(self).held().insert(peer, final(self).held()[peer])
                &&& final(self).held()[peer].anchors == old(self).held()[peer].anchors
                &&& final(self).held()[peer].capacity.number()
                    == old(self).held()[peer].capacity.number()
                &&& backed(&final(self).held()[peer].capacity, &final(self).node(), progress)
                &&& resumed(
                    &old(self).held()[peer].capacity,
                    &final(self).held()[peer].capacity,
                    &old(self).node(),
                    &final(self).node(),
                    ticket,
                    peer,
                    demand.class,
                    demand.bytes,
                    progress,
                )
            } else {
                &&& progress == AcquireProgress::AwaitingPeer(ticket)
                &&& final(self).held() == old(self).held()
                &&& final(self).node() == old(self).node()
            },
    {
        match self.capacities.get_mut(peer) {
            Some(held) => held.capacity.resume(
                &mut self.global,
                ticket,
                peer,
                demand.class,
                demand.bytes,
            ),
            None => AcquireProgress::AwaitingPeer(ticket),
        }
    }

    /// Ask again for the request that holds `permit` and waits for the node's capacity under
    /// `ticket`.
    pub fn resume_node(&mut self, peer: Did, ticket: u64, permit: PeerCapacityPermit) -> (progress:
        AcquireProgress)
        requires
            old(self).wf(),
        ensures
            final(self).wf(),
            final(self).workers() == old(self).workers(),
            final(self).worker_to_give() == old(self).worker_to_give(),
            final(self).capacity_to_give() == old(self).capacity_to_give(),
            final(self).held() == old(self).held(),
            progress matches AcquireProgress::Acquired(granted) ==> final(self).node().holds(
                granted.of_node(),
            ),
            node_resumed(
                &old(self).node(),
                &final(self).node(),
                ticket,
                peer,
                permit,
                progress,
            ),
    {
        TransferCapacity::resume_node(&mut self.global, ticket, peer, permit)
    }

    /// Give up the request that waits for the capacity of `peer` under `ticket`.
    pub fn abandon_peer_wait(&mut self, peer: Did, ticket: u64)
        requires
            old(self).wf(),
        ensures
            final(self).wf(),
            final(self).workers() == old(self).workers(),
            final(self).worker_to_give() == old(self).worker_to_give(),
            final(self).capacity_to_give() == old(self).capacity_to_give(),
            if old(self).held().contains_key(peer) {
                &&& final(self).held() == old(self).held().insert(peer, final(self).held()[peer])
                &&& final(self).held()[peer].anchors == old(self).held()[peer].anchors
                &&& peer_wait_abandoned(
                    &old(self).held()[peer].capacity,
                    &final(self).held()[peer].capacity,
                    &old(self).node(),
                    &final(self).node(),
                    ticket,
                )
            } else {
                &&& final(self).held() == old(self).held()
                &&& final(self).node() == old(self).node()
            },
    {
        if let Some(held) = self.capacities.get_mut(peer) {
            held.capacity.abandon_peer_wait(&mut self.global, ticket);
        }
    }

    /// Give up the request that waits for the node's capacity under `ticket`, and what it holds of
    /// `peer`'s.
    pub fn abandon_node_wait(&mut self, peer: Did, ticket: u64, permit: PeerCapacityPermit)
        requires
            old(self).wf(),
            old(self).held().contains_key(peer) ==> old(self).held()[peer].capacity.holds(permit),
        ensures
            final(self).wf(),
            final(self).workers() == old(self).workers(),
            final(self).worker_to_give() == old(self).worker_to_give(),
            final(self).capacity_to_give() == old(self).capacity_to_give(),
            if old(self).held().contains_key(peer) {
                &&& final(self).held() == old(self).held().insert(peer, final(self).held()[peer])
                &&& final(self).held()[peer].anchors == old(self).held()[peer].anchors
                &&& node_wait_abandoned(
                    &old(self).held()[peer].capacity,
                    &final(self).held()[peer].capacity,
                    &old(self).node(),
                    &final(self).node(),
                    ticket,
                    permit,
                )
            } else {
                &&& final(self).held() == old(self).held()
                &&& final(self).node() == old(self).node()
            },
    {
        if let Some(held) = self.capacities.get_mut(peer) {
            held.capacity.abandon_node_wait(&mut self.global, ticket, permit);
        }
    }

    /// The link of `peer`, if it has a worker.
    pub fn link_of(&self, peer: Did) -> (link: Option<PeerLinkState>)
        requires
            self.wf(),
        ensures
            link == (if self.workers().contains_key(peer) {
                Some(self.workers()[peer].link)
            } else {
                None
            }),
    {
        match self.peers.get(peer) {
            Some(handle) => Some(handle.link),
            None => None,
        }
    }

    /// Have `acknowledge` note a session that `peer` confirmed in the table of the sessions
    /// announced to it: a peer without a worker was sent nothing.
    pub fn acknowledge_session<F: FnOnce(u64)>(&self, peer: Did, acknowledge: F) -> (noted: bool)
        requires
            self.wf(),
            forall|announced: u64| #[trigger] acknowledge.requires((announced,)),
        ensures
            noted == self.workers().contains_key(peer),
            noted ==> acknowledge.ensures((self.workers()[peer].link.announced,), ()),
    {
        match self.link_of(peer) {
            Some(link) => {
                acknowledge(link.announced);
                true
            },
            None => false,
        }
    }

    /// The answer to a question of `peer` about a session: what `answer` reads in the table of
    /// the sessions announced to it, and `unknown` for a peer without a worker, which was sent
    /// nothing.
    pub fn answer_session_request<A, F: FnOnce(u64) -> A>(&self, peer: Did, unknown: A, answer: F) -> (given:
        A)
        requires
            self.wf(),
            forall|announced: u64| #[trigger] answer.requires((announced,)),
        ensures
            if self.workers().contains_key(peer) {
                answer.ensures((self.workers()[peer].link.announced,), given)
            } else {
                given == unknown
            },
    {
        match self.link_of(peer) {
            Some(link) => answer(link.announced),
            None => unknown,
        }
    }

    /// Count one link-control send to `peer`: `None` where it has no worker, `Some(None)` where
    /// its budget is spent.
    pub fn link_control_permit(&mut self, peer: Did) -> (permit: Option<Option<PeerLinkPermit>>)
        requires
            old(self).wf(),
        ensures
            final(self).wf(),
            final(self).held() == old(self).held(),
            final(self).node() == old(self).node(),
            permit is None <==> !old(self).workers().contains_key(peer),
            permit matches Some(granted) ==> (granted is Some <==> {
                let budget = old(self).workers()[peer].link.control_budget;
                budget.used() < budget.limit()
            }),
            permit matches Some(Some(permit)) ==> permit.link
                == old(self).workers()[peer].link.announced && final(self).links_to(
                peer,
                permit.link,
            ) && final(self).workers()[peer].link.control_budget.used()
                == old(self).workers()[peer].link.control_budget.used() + 1,
            final(self).workers() == (if permit matches Some(Some(_)) {
                link_control_counted(
                    old(self).workers(),
                    peer,
                    old(self).workers()[peer].link.control_budget.used() + 1,
                )
            } else {
                old(self).workers()
            }),
            final(self).worker_to_give() == old(self).worker_to_give(),
            final(self).capacity_to_give() == old(self).capacity_to_give(),
    {
        match self.peers.get_mut(peer) {
            Some(handle) => {
                let link: u64 = handle.link.announced;
                match handle.link.control_budget.try_reserve() {
                    Some(permit) => Some(Some(PeerLinkPermit { link, permit })),
                    None => Some(None),
                }
            },
            None => None,
        }
    }

    /// A link-control send to `peer` is over. The link it was counted on may be gone by now.
    pub fn release_link_control(&mut self, peer: Did, ended: PeerLinkPermit)
        requires
            old(self).wf(),
            old(self).links_to(peer, ended.link)
                ==> old(self).workers()[peer].link.control_budget.used() > 0,
        ensures
            final(self).wf(),
            final(self).held() == old(self).held(),
            final(self).node() == old(self).node(),
            final(self).workers() == (if old(self).links_to(peer, ended.link) {
                link_control_counted(
                    old(self).workers(),
                    peer,
                    (old(self).workers()[peer].link.control_budget.used() - 1) as nat,
                )
            } else {
                old(self).workers()
            }),
            final(self).worker_to_give() == old(self).worker_to_give(),
            final(self).capacity_to_give() == old(self).capacity_to_give(),
    {
        let current = match self.peers.get(peer) {
            Some(handle) => handle.link.announced == ended.link,
            None => false,
        };
        if current {
            if let Some(handle) = self.peers.get_mut(peer) {
                handle.link.control_budget.release(ended.permit);
            }
        }
    }

    /// Whether `demand` of `peer` would be admitted now.
    pub fn has_room(&self, peer: Did, demand: TransferDemand) -> (room: bool)
        requires
            self.wf(),
        ensures
            self.held().contains_key(peer) ==> room == self.held()[peer].capacity.room(
                &self.node(),
                demand,
            ),
            !self.held().contains_key(peer) ==> forall|fresh: TransferCapacity|
                fresh.state().fresh() && fresh.queue().len() == 0 && fresh.rules()
                    == self.node().rules() ==> room == #[trigger] fresh.room(&self.node(), demand),
    {
        match self.capacities.get(peer) {
            Some(held) => held.capacity.has_room(&self.global, peer, demand),
            None => TransferCapacity::has_room_unheld(&self.global, peer, demand),
        }
    }

    /// Stamp the channel of `peer`.
    pub fn peer_stamp(&self, peer: Did) -> (stamp: PeerStamp)
        requires
            self.wf(),
        ensures
            if self.held().contains_key(peer) {
                let capacity = self.held()[peer].capacity;
                &&& stamp.stamped() == Some(capacity.number())
                &&& stamp.ended() == capacity.state().ended_on_link()
                &&& stamp.waited_for() == total(capacity.state().counts())
            } else {
                &&& stamp.stamped() is None
                &&& stamp.ended() == 0
                &&& stamp.waited_for() == 0
            },
    {
        match self.capacities.get(peer) {
            Some(held) => PeerStamp::of(Some(&held.capacity)),
            None => PeerStamp::of(None),
        }
    }

    /// The progress of `peer`'s channel against `stamp`.
    pub fn peer_progress(&self, peer: Did, stamp: &PeerStamp) -> (progress: crate::capacity::PeerProgress)
        requires
            self.wf(),
        ensures
            progress == stamp.progress_at(
                if self.held().contains_key(peer) {
                    Some(&self.held()[peer].capacity)
                } else {
                    None
                },
            ),
    {
        match self.capacities.get(peer) {
            Some(held) => stamp.progress(Some(&held.capacity)),
            None => stamp.progress(None),
        }
    }
}

/// Replacing a peer's worker frees none of its capacity: what its transfers hold survives the
/// removal of the old worker.
pub proof fn law_held_capacity_outlives_its_worker(held: Map<Did, HeldCapacity>, peer: Did)
    requires
        held.contains_key(peer),
        total(held[peer].capacity.state().counts()) > 0,
    ensures
        living(held).contains_key(peer),
        living(held)[peer] == held[peer],
{
}

/// A capacity that neither a handle nor a transfer holds is forgotten.
pub proof fn law_idle_capacity_without_a_handle_is_forgotten(
    held: Map<Did, HeldCapacity>,
    peer: Did,
)
    requires
        held.contains_key(peer),
        !held[peer].alive(),
    ensures
        !living(held).contains_key(peer),
{
}

/// Something holds the capacity: a handle, a transfer of some class, or a request that waits.
pub open spec fn in_use(held: HeldCapacity) -> bool {
    let counts = held.capacity.state().counts();
    held.anchors > 0 || counts[0] > 0 || counts[1] > 0 || counts[2] > 0 || counts[3] > 0
        || held.capacity.queue().len() > 0
}

/// `after` holds what `before` held as long as it is in use, and nothing else of `other`.
pub open spec fn kept_in_use(
    before: Map<Did, HeldCapacity>,
    after: Map<Did, HeldCapacity>,
    other: Did,
) -> bool {
    &&& after.contains_key(other) <==> before.contains_key(other) && in_use(before[other])
    &&& after.contains_key(other) ==> after[other] == before[other]
}

proof fn lemma_in_use(held: HeldCapacity)
    requires
        held.capacity.wf(),
    ensures
        held.alive() == in_use(held),
{
}

/// Pruning forgets exactly the capacities that no handle, transfer or waiting request holds, and
/// changes nothing else.
pub proof fn law_pruning_forgets_what_nothing_holds(
    schedulers: &mut OutboundSchedulers,
    done: (),
    peer: Did,
)
    requires
        old(schedulers).wf(),
        call_ensures(OutboundSchedulers::prune_capacities, (schedulers,), done),
    ensures
        kept_in_use(old(schedulers).held(), final(schedulers).held(), peer),
        final(schedulers).workers() == old(schedulers).workers(),
{
    if old(schedulers).held().contains_key(peer) {
        lemma_in_use(old(schedulers).held()[peer]);
    }
}

/// A peer keeps its running worker. A missing or stopped one is replaced by a worker of the next
/// number, which runs on the link that was there, or on a link of its own with nothing in flight. A
/// worker that could not be started leaves none, and its error is told.
pub proof fn law_worker_is_replaced_only_once_stopped<
    S: FnOnce(u64, PeerLinkState) -> Result<(), Error>,
>(
    schedulers: &mut OutboundSchedulers,
    peer: Did,
    inbound_frame_capacity: usize,
    spawn: S,
    handle: Result<PeerHandle, Error>,
    other: Did,
)
    requires
        old(schedulers).wf(),
        call_ensures(
            OutboundSchedulers::handle::<S>,
            (schedulers, peer, inbound_frame_capacity, spawn),
            handle,
        ),
        other != peer,
    ensures
        ({
            let before = old(schedulers).workers();
            let after = final(schedulers).workers();
            let running = before.contains_key(peer) && !before[peer].stopped;
            &&& running ==> (handle matches Ok(given) && given == before[peer]) && after == before
                && final(schedulers).held() == old(schedulers).held()
            &&& !running ==> final(schedulers).worker_to_give() == old(schedulers).worker_to_give()
                + 1
            &&& !running && handle is Ok ==> {
                &&& after.contains_key(peer)
                &&& after[peer] == handle->Ok_0
                &&& after[peer].worker == old(schedulers).worker_to_give()
                &&& !after[peer].stopped
                &&& before.contains_key(peer) ==> after[peer].link == before[peer].link
                &&& !before.contains_key(peer) ==> after[peer].link.control_budget.used() == 0
                &&& final(schedulers).held().contains_key(peer)
                &&& final(schedulers).held()[peer].anchors >= 1
                &&& final(schedulers).held()[peer].capacity.number() == after[peer].capacity
            }
            &&& handle is Err ==> !running && !after.contains_key(peer)
            &&& handle matches Err(error) ==> exists|link: PeerLinkState|
                #[trigger] spawn.ensures(
                    (old(schedulers).worker_to_give(), link),
                    Err::<(), Error>(error),
                )
            &&& after.contains_key(other) == before.contains_key(other)
            &&& before.contains_key(other) ==> after[other] == before[other]
            &&& final(schedulers).node() == old(schedulers).node()
        }),
{
}

/// A worker that is replaced leaves its peer's capacity as it was, as long as something holds it;
/// the new worker's handle holds it once more.
pub proof fn law_replaced_worker_inherits_the_capacity<
    S: FnOnce(u64, PeerLinkState) -> Result<(), Error>,
>(
    schedulers: &mut OutboundSchedulers,
    peer: Did,
    inbound_frame_capacity: usize,
    spawn: S,
    handle: Result<PeerHandle, Error>,
    other: Did,
)
    requires
        old(schedulers).wf(),
        call_ensures(
            OutboundSchedulers::handle::<S>,
            (schedulers, peer, inbound_frame_capacity, spawn),
            handle,
        ),
        !(old(schedulers).workers().contains_key(peer)
            && !old(schedulers).workers()[peer].stopped),
        other != peer,
    ensures
        ({
            let before = old(schedulers).held();
            let after = final(schedulers).held();
            let inherits = before.contains_key(peer) && in_use(before[peer]);
            let anchors: int = if inherits {
                before[peer].anchors as int
            } else {
                0
            };
            &&& after.contains_key(peer)
            &&& inherits ==> after[peer].capacity == before[peer].capacity
            &&& !inherits ==> after[peer].capacity.number() == old(schedulers).capacity_to_give()
                && after[peer].capacity.queue().len() == 0
            &&& after[peer].anchors == anchors + (if handle is Ok {
                1int
            } else {
                0
            })
            &&& kept_in_use(before, after, other)
        }),
{
    if old(schedulers).held().contains_key(peer) {
        lemma_in_use(old(schedulers).held()[peer]);
    }
    if old(schedulers).held().contains_key(other) {
        lemma_in_use(old(schedulers).held()[other]);
    }
}

/// A worker is told to stop by its own number only, and keeps its link; a shut-down peer has none,
/// and its handle is given back. Neither touches another peer's worker.
pub proof fn law_stopping_names_its_worker(
    marked: &mut OutboundSchedulers,
    worker: u64,
    done: (),
    removed: &mut OutboundSchedulers,
    stopped: Option<PeerHandle>,
    peer: Did,
    other: Did,
)
    requires
        old(marked).wf(),
        call_ensures(OutboundSchedulers::mark_stopped, (marked, peer, worker), done),
        old(removed).wf(),
        call_ensures(OutboundSchedulers::shutdown, (removed, peer), stopped),
        other != peer,
    ensures
        final(marked).workers().dom() == old(marked).workers().dom(),
        old(marked).workers().contains_key(peer) ==> {
            let before = old(marked).workers()[peer];
            let after = final(marked).workers()[peer];
            &&& after.stopped <==> before.stopped || before.worker == worker
            &&& after.worker == before.worker
            &&& after.link == before.link
            &&& after.capacity == before.capacity
        },
        final(marked).workers()[other] == old(marked).workers()[other],
        final(marked).held() == old(marked).held(),
        stopped is Some <==> old(removed).workers().contains_key(peer),
        stopped matches Some(handle) ==> handle == old(removed).workers()[peer],
        !final(removed).workers().contains_key(peer),
        final(removed).workers().contains_key(other) == old(removed).workers().contains_key(other),
        kept_in_use(old(removed).held(), final(removed).held(), other),
{
    if old(removed).held().contains_key(other) {
        lemma_in_use(old(removed).held()[other]);
    }
    assert(final(marked).workers().dom() =~= old(marked).workers().dom());
}

/// A handle that goes lets go of exactly one hold on the capacity of its number.
pub proof fn law_handle_lets_go_of_its_own_capacity(
    schedulers: &mut OutboundSchedulers,
    peer: Did,
    capacity: u64,
    done: (),
    other: Did,
)
    requires
        old(schedulers).wf(),
        call_ensures(OutboundSchedulers::release_anchor, (schedulers, peer, capacity), done),
        other != peer,
    ensures
        ({
            let before = old(schedulers).held();
            let after = final(schedulers).held();
            &&& after.contains_key(peer) == before.contains_key(peer)
            &&& before.contains_key(peer) ==> after[peer].capacity == before[peer].capacity
            &&& before.contains_key(peer) && before[peer].capacity.number() == capacity
                && before[peer].anchors > 0 ==> after[peer].anchors == before[peer].anchors - 1
            &&& before.contains_key(peer) && (before[peer].capacity.number() != capacity
                || before[peer].anchors == 0) ==> after[peer].anchors == before[peer].anchors
            &&& after.contains_key(other) == before.contains_key(other)
            &&& after[other] == before[other]
            &&& final(schedulers).workers() == old(schedulers).workers()
        }),
{
}

/// A reservation without waiting is made for the running worker of the handle and its capacity
/// only. It takes one transfer of the class and its bytes, at least one, of the peer and of the
/// node, or nothing at all.
pub proof fn law_reservation_now_takes_all_or_nothing(
    schedulers: &mut OutboundSchedulers,
    peer: Did,
    handle: PeerHandle,
    class: TransferClass,
    bytes: usize,
    reserved: Result<TransferCapacityPermit, Error>,
    other: Did,
)
    requires
        old(schedulers).wf(),
        call_ensures(
            OutboundSchedulers::reserve_now,
            (schedulers, peer, &handle, class, bytes),
            reserved,
        ),
        other != peer,
    ensures
        ({
            let workers = old(schedulers).workers();
            let before = old(schedulers).held();
            let after = final(schedulers).held();
            let amount = if bytes >= 1 {
                bytes
            } else {
                1usize
            };
            &&& !(workers.contains_key(peer) && workers[peer].worker == handle.worker
                && !workers[peer].stopped && before.contains_key(peer)
                && before[peer].capacity.number() == handle.capacity) ==> reserved is Err
                && reserved->Err_0 == Error::ChannelSendMessageFailed
            &&& reserved is Ok <==> workers.contains_key(peer) && workers[peer].worker
                == handle.worker && !workers[peer].stopped && before.contains_key(peer)
                && before[peer].capacity.number() == handle.capacity && amount <= most_bytes(
                old(schedulers).node().rules(),
                class,
            ) && peer_has_space(before[peer].capacity, class, amount) && node_has_space(
                old(schedulers).node(),
                class,
                amount,
            )
            &&& reserved matches Ok(permit) ==> {
                &&& permit.of_peer().of_class() == class
                &&& permit.of_peer().amount() == amount
                &&& permit.of_node().of_class() == class
                &&& permit.of_node().amount() == amount
                &&& !permit.on_link()
                &&& after[peer].capacity.state().counts()[column(class)]
                    == before[peer].capacity.state().counts()[column(class)] + 1
                &&& after[peer].capacity.state().sizes()[column(class)]
                    == before[peer].capacity.state().sizes()[column(class)] + amount
                &&& final(schedulers).node().held()[column(class)]
                    == old(schedulers).node().held()[column(class)] + amount
            }
            &&& reserved is Err && before.contains_key(peer) ==> {
                &&& after[peer].capacity.state().counts() == before[peer].capacity.state().counts()
                &&& after[peer].capacity.state().sizes() == before[peer].capacity.state().sizes()
                &&& final(schedulers).node().held() == old(schedulers).node().held()
            }
            &&& after.contains_key(other) == before.contains_key(other)
            &&& after[other] == before[other]
            &&& final(schedulers).workers() == workers
        }),
{
    let amount = if bytes >= 1 {
        bytes
    } else {
        1usize
    };
    if old(schedulers).held().contains_key(peer) {
        lemma_refusal_is_want_of_space(
            old(schedulers).held()[peer].capacity,
            old(schedulers).node(),
            peer,
            class,
            amount,
        );
    }
}

/// A known peer's link takes a link-control send exactly while fewer are in flight than may be, and
/// counts it; the end of one frees the place of one on the link it was counted on. What is known of
/// a worker stays otherwise.
pub proof fn law_link_control_is_counted_on_its_link(
    counted: &mut OutboundSchedulers,
    permit: Option<Option<PeerLinkPermit>>,
    freed: &mut OutboundSchedulers,
    ended: PeerLinkPermit,
    done: (),
    peer: Did,
    other: Did,
)
    requires
        old(counted).wf(),
        call_ensures(OutboundSchedulers::link_control_permit, (counted, peer), permit),
        old(freed).wf(),
        old(freed).workers().contains_key(peer) && old(freed).workers()[peer].link.announced
            == ended.link ==> old(freed).workers()[peer].link.control_budget.used() > 0,
        call_ensures(OutboundSchedulers::release_link_control, (freed, peer, ended), done),
        other != peer,
    ensures
        ({
            let before = old(counted).workers();
            let after = final(counted).workers();
            &&& permit is Some <==> before.contains_key(peer)
            &&& permit matches Some(granted) ==> {
                &&& granted is Some <==> before[peer].link.control_budget.used()
                    < before[peer].link.control_budget.limit()
                &&& after[peer].link.control_budget.used()
                    == before[peer].link.control_budget.used() + (if granted is Some {
                    1int
                } else {
                    0
                })
                &&& granted matches Some(send) ==> send.link == before[peer].link.announced
                &&& after[peer].link.announced == before[peer].link.announced
                &&& after[peer].worker == before[peer].worker
                &&& after[peer].stopped == before[peer].stopped
            }
            &&& after[other] == before[other]
        }),
        ({
            let before = old(freed).workers();
            let after = final(freed).workers();
            &&& before.contains_key(peer) ==> after[peer].link.control_budget.used()
                == before[peer].link.control_budget.used() - (if before[peer].link.announced
                == ended.link {
                1int
            } else {
                0
            })
            &&& after[other] == before[other]
        }),
{
    if old(counted).workers().contains_key(peer) {
        let budget = old(counted).workers()[peer].link.control_budget;
        if budget.used() < budget.limit() {
            lemma_budget_counts(budget, budget.used() + 1);
        }
    }
    if old(freed).workers().contains_key(peer) && old(freed).workers()[peer].link.announced
        == ended.link {
        let budget = old(freed).workers()[peer].link.control_budget;
        lemma_budget_counts(budget, (budget.used() - 1) as nat);
    }
}

/// A session is acknowledged, or asked for, on the link of a known peer only; for an unknown peer
/// the answer is the one for unknown sessions.
pub proof fn law_sessions_are_answered_on_the_peers_link<A, F: FnOnce(u64) -> A, G: FnOnce(u64)>(
    schedulers: OutboundSchedulers,
    peer: Did,
    unknown: A,
    answer: F,
    given: A,
    acknowledge: G,
    noted: bool,
)
    requires
        schedulers.wf(),
        call_ensures(
            OutboundSchedulers::answer_session_request::<A, F>,
            (&schedulers, peer, unknown, answer),
            given,
        ),
        call_ensures(
            OutboundSchedulers::acknowledge_session::<G>,
            (&schedulers, peer, acknowledge),
            noted,
        ),
    ensures
        !schedulers.workers().contains_key(peer) ==> given == unknown && !noted,
        schedulers.workers().contains_key(peer) ==> noted && answer.ensures(
            (schedulers.workers()[peer].link.announced,),
            given,
        ) && acknowledge.ensures((schedulers.workers()[peer].link.announced,), ()),
{
}

/// A stamp of a peer names its capacity and counts what it holds of every class.
pub proof fn law_stamp_is_of_the_peers_capacity(
    schedulers: OutboundSchedulers,
    peer: Did,
    stamp: PeerStamp,
)
    requires
        schedulers.wf(),
        call_ensures(OutboundSchedulers::peer_stamp, (&schedulers, peer), stamp),
    ensures
        schedulers.held().contains_key(peer) ==> {
            let capacity = schedulers.held()[peer].capacity;
            let counts = capacity.state().counts();
            &&& stamp.stamped() == Some(capacity.number())
            &&& stamp.waited_for() == counts[0] + counts[1] + counts[2] + counts[3]
        },
        !schedulers.held().contains_key(peer) ==> stamp.stamped() is None && stamp.waited_for()
            == 0,
{
}

/// A known peer's worker, link and admitted transfers are its own; an unknown peer has none.
pub proof fn law_peers_are_found_by_their_name(
    schedulers: OutboundSchedulers,
    peer: Did,
    handle: Option<PeerHandle>,
    link: Option<PeerLinkState>,
    admitted: Option<usize>,
)
    requires
        schedulers.wf(),
        call_ensures(OutboundSchedulers::worker_of, (&schedulers, peer), handle),
        call_ensures(OutboundSchedulers::link_of, (&schedulers, peer), link),
        call_ensures(OutboundSchedulers::admitted_transfer_count, (&schedulers, peer), admitted),
    ensures
        handle is Some <==> schedulers.workers().contains_key(peer),
        handle matches Some(found) ==> found == schedulers.workers()[peer],
        link is Some <==> schedulers.workers().contains_key(peer),
        link matches Some(found) ==> found == schedulers.workers()[peer].link,
        admitted is Some <==> schedulers.held().contains_key(peer),
        admitted matches Some(count) ==> {
            let counts = schedulers.held()[peer].capacity.state().counts();
            count == counts[0] + counts[1] + counts[2] + counts[3]
        },
{
}

/// Releasing gives one transfer and its bytes back to the peer and to the node, for a peer whose
/// capacity is still held and for no other.
pub proof fn law_release_returns_to_the_peers_capacity(
    schedulers: &mut OutboundSchedulers,
    peer: Did,
    permit: TransferCapacityPermit,
    released: bool,
    other: Did,
)
    requires
        old(schedulers).wf(),
        old(schedulers).held().contains_key(peer) ==> old(schedulers).held()[peer].capacity.holds(
            permit.of_peer(),
        ) && old(schedulers).node().holds(permit.of_node()),
        call_ensures(OutboundSchedulers::release, (schedulers, peer, permit), released),
        other != peer,
    ensures
        ({
            let before = old(schedulers).held();
            let after = final(schedulers).held();
            let class = column(permit.of_peer().of_class());
            let node_class = column(permit.of_node().of_class());
            &&& released <==> before.contains_key(peer)
            &&& released ==> {
                &&& after.contains_key(peer)
                &&& after[peer].anchors == before[peer].anchors
                &&& after[peer].capacity.state().counts()[class]
                    == before[peer].capacity.state().counts()[class] - 1
                &&& after[peer].capacity.state().sizes()[class]
                    == before[peer].capacity.state().sizes()[class] - permit.of_peer().amount()
                &&& final(schedulers).node().held()[node_class]
                    == old(schedulers).node().held()[node_class] - permit.of_node().amount()
                &&& after[peer].capacity.queue() == before[peer].capacity.queue()
            }
            &&& !released ==> after == before && final(schedulers).node()
                == old(schedulers).node()
            &&& after.contains_key(other) == before.contains_key(other)
            &&& before.contains_key(other) ==> after[other] == before[other]
            &&& final(schedulers).workers() == old(schedulers).workers()
        }),
{
}

} // verus!

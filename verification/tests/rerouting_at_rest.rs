//! A refused placement among two hops once nothing new gets in its way: every arrangement of
//! small size, and everything that can happen from it.

use std::collections::HashMap;

use swarm_transport::capacity::admits_now;
use swarm_transport::capacity::PeerProgress;
use swarm_transport::capacity::TransferDemand;
use swarm_transport::class::SendCompletionOutcome;
use swarm_transport::class::TransferClass;
use swarm_transport::did::Did;
use swarm_transport::error::Error;
use swarm_transport::error::SendDeferral;
use swarm_transport::rerouting::Awaiting;
use swarm_transport::rerouting::LinkHop;
use swarm_transport::rerouting::LinkRoute;
use swarm_transport::rerouting::Observation;
use swarm_transport::rerouting::Rerouting;
use swarm_transport::rerouting::Step;
use swarm_transport::rerouting::Verdict;
use swarm_transport::rerouting::QUIESCENT_DEFERRALS;
use swarm_transport::rerouting::REPLACEMENT_DEFERRALS;
use swarm_transport::rerouting::REROUTING_BUDGET;

const CURRENT: u64 = 2;
const LOST: u64 = 1;
const MOST_JAMS: u8 = 3;

#[derive(Clone, Copy, Debug, PartialEq, Eq, Hash)]
enum Hop {
    Target,
    Alternate,
}

impl Hop {
    fn index(self) -> usize {
        match self {
            Hop::Target => 0,
            Hop::Alternate => 1,
        }
    }

    fn did(self) -> Did {
        Did::from_u32(1 + self.index() as u32)
    }
}

#[derive(Clone, Copy, Debug, PartialEq, Eq, Hash)]
enum Link {
    Absent,
    Pending,
    Active { ready: bool },
    Dead,
}

#[derive(Clone, Copy, Debug, PartialEq, Eq, Hash)]
enum Preference {
    Target,
    Alternate,
    Local,
}

#[derive(Clone, Copy, Debug, PartialEq, Eq, Hash)]
enum Cause {
    Link,
    Capacity,
    Channel,
}

#[derive(Clone, Copy, Debug, PartialEq, Eq, Hash)]
enum Phase {
    Compute,
    InFlight {
        hop: Hop,
        generation: Option<u64>,
    },
    Waiting {
        hop: Hop,
        generation: Option<u64>,
        drained_at: u8,
        cause: Cause,
    },
    Accepted,
    Exhausted,
}

#[derive(Clone, Copy, Debug, PartialEq, Eq, Hash)]
struct State {
    link: Link,
    preference: Preference,
    congested: bool,
    queued: bool,
    jam: [u8; 2],
    full: [bool; 2],
    ended: [u8; 2],
    deferrals: u8,
    phase: Phase,
}

fn demand() -> TransferDemand {
    TransferDemand::new(TransferClass::Application, 1)
}

fn outcome(cause: Cause, hop: Did) -> Result<SendCompletionOutcome, Error> {
    match cause {
        Cause::Link => Ok(SendCompletionOutcome::Cancelled),
        Cause::Capacity => Err(Error::OutboundTransferCapacityExceeded {
            peer: hop,
            capacity: 1,
        }),
        Cause::Channel => Err(Error::DataChannelSendQueueTimeout {
            peer: hop,
            timeout_ms: 1,
            bytes: 1,
            context: "test",
        }),
    }
}

fn deferral(cause: Cause, hop: Did) -> SendDeferral {
    match Verdict::remote(hop, None, demand(), outcome(cause, hop)) {
        Verdict::Deferred { cause, .. } => cause,
        _ => panic!("{cause:?} must defer"),
    }
}

impl State {
    fn admitted(&self) -> bool {
        matches!(self.link, Link::Active { .. } | Link::Dead)
    }

    fn route(&self) -> Option<Hop> {
        match self.preference {
            Preference::Local => None,
            Preference::Target if self.admitted() => Some(Hop::Target),
            Preference::Target | Preference::Alternate => Some(Hop::Alternate),
        }
    }

    fn generation(&self, hop: Hop) -> Option<u64> {
        match (hop, self.link) {
            (Hop::Alternate, _) => Some(0),
            (Hop::Target, Link::Active { .. }) => Some(CURRENT),
            (Hop::Target, _) => None,
        }
    }

    fn usable(&self, hop: Hop) -> bool {
        hop == Hop::Alternate || self.link == Link::Active { ready: true }
    }

    fn refusal(&self, hop: Hop, generation: Option<u64>) -> Option<Cause> {
        let lost = generation.is_none() || generation != self.generation(hop) || !self.usable(hop);
        if hop == Hop::Target && lost {
            Some(Cause::Link)
        } else if self.full[hop.index()] || self.congested || self.queued {
            Some(Cause::Capacity)
        } else if self.jam[hop.index()] > 0 {
            Some(Cause::Channel)
        } else {
            None
        }
    }

    fn drain(mut self, hop: Hop, count: u8) -> State {
        if count > 0 {
            self.jam[hop.index()] -= count;
            self.full[hop.index()] = false;
            self.ended[hop.index()] += count;
        }
        self
    }

    fn wakes(&self) -> bool {
        let Phase::Waiting {
            hop,
            generation,
            drained_at,
            cause,
        } = self.phase
        else {
            return false;
        };
        let route = match self.route() {
            None => LinkRoute::Local,
            Some(next) => LinkRoute::Remote(LinkHop {
                hop: next.did(),
                generation: self.generation(next),
                usable: self.usable(next),
            }),
        };
        let observation = Observation {
            room: admits_now(
                !self.queued,
                false,
                !self.full[hop.index()] && !self.congested,
            ),
            peer: PeerProgress {
                drained: self.ended[hop.index()] >= drained_at,
                idle: self.jam[hop.index()] == 0,
            },
        };
        let awaiting = Awaiting {
            deferrals: self.deferrals,
            hop: hop.did(),
            generation,
            demand: demand(),
            cause: deferral(cause, hop.did()),
        };
        awaiting.is_triggered(route, observation)
    }

    fn refused(mut self, hop: Hop, generation: Option<u64>, cause: Cause) -> State {
        let verdict = Verdict::remote(
            hop.did(),
            generation,
            demand(),
            outcome(cause, hop.did()),
        );
        let rerouting = Rerouting {
            deferrals: self.deferrals,
        };
        match rerouting.after(verdict) {
            Step::Await(awaiting) => {
                self.deferrals = awaiting.deferrals;
                self.phase = Phase::Waiting {
                    hop,
                    generation,
                    drained_at: self.ended[hop.index()] + self.jam[hop.index()],
                    cause,
                };
            }
            Step::Fail(Error::ReroutingExhausted { .. }) => self.phase = Phase::Exhausted,
            step => panic!("a refusal neither waits nor exhausts: {step:?}"),
        }
        self
    }

    fn successors(self) -> Vec<State> {
        let mut next = Vec::new();
        match self.link {
            Link::Pending => next.push(State {
                link: Link::Active { ready: true },
                ..self
            }),
            Link::Active { ready: false } => next.push(State {
                link: Link::Active { ready: true },
                ..self
            }),
            Link::Dead => next.push(State {
                link: Link::Absent,
                ..self.drain(Hop::Target, self.jam[0])
            }),
            Link::Absent | Link::Active { ready: true } => {}
        }
        if self.congested {
            next.push(State {
                congested: false,
                ..self
            });
        }
        if self.queued {
            next.push(State {
                queued: false,
                ..self
            });
        }
        for hop in [Hop::Target, Hop::Alternate] {
            if self.jam[hop.index()] > 0 {
                next.push(self.drain(hop, 1));
            }
        }
        match self.phase {
            Phase::Compute => next.push(State {
                phase: match self.route() {
                    None => Phase::Accepted,
                    Some(hop) => Phase::InFlight {
                        hop,
                        generation: self.generation(hop),
                    },
                },
                ..self
            }),
            Phase::InFlight { hop, generation } => {
                let refusal = self.refusal(hop, generation);
                if let Some(cause) = refusal {
                    next.push(self.refused(hop, generation, cause));
                }
                if matches!(refusal, None | Some(Cause::Channel)) {
                    next.push(State {
                        phase: Phase::Accepted,
                        ..self
                    });
                }
            }
            Phase::Waiting { .. } => {
                if self.wakes() {
                    next.push(State {
                        phase: Phase::Compute,
                        ..self
                    });
                }
            }
            Phase::Accepted | Phase::Exhausted => {}
        }
        next
    }

    /// The arrangement in which one refusal more than usual is ahead.
    fn crowded(&self) -> bool {
        let busy = |hop: Hop, full: u8| {
            self.jam[hop.index()] >= if self.full[hop.index()] { full } else { 1 }
        };
        self.preference == Preference::Target
            && self.link == Link::Pending
            && matches!(
                self.phase,
                Phase::InFlight {
                    hop: Hop::Target,
                    ..
                }
            )
            && (self.full[1] || self.congested || self.queued)
            && busy(Hop::Alternate, 2)
            && self.full[0]
            && self.jam[0] >= 2
    }
}

/// Whether some run from `state` exhausts the budget; every run ends.
fn can_exhaust(state: State, known: &mut HashMap<State, bool>) -> bool {
    match state.phase {
        Phase::Accepted => return false,
        Phase::Exhausted => return true,
        _ => {}
    }
    if let Some(answer) = known.get(&state) {
        return *answer;
    }
    let successors = state.successors();
    assert!(!successors.is_empty(), "nothing can happen in {state:?}");
    let answer = successors
        .into_iter()
        .any(|next| can_exhaust(next, known));
    known.insert(state, answer);
    answer
}

fn arrangements(deferrals: u8, jams: u8) -> Vec<State> {
    let mut all = Vec::new();
    let links = [
        Link::Absent,
        Link::Pending,
        Link::Active { ready: true },
        Link::Active { ready: false },
        Link::Dead,
    ];
    let mut phases = vec![
        Phase::Compute,
        Phase::InFlight {
            hop: Hop::Alternate,
            generation: Some(0),
        },
    ];
    for generation in [None, Some(LOST), Some(CURRENT)] {
        phases.push(Phase::InFlight {
            hop: Hop::Target,
            generation,
        });
    }
    if deferrals > 0 {
        for cause in [Cause::Link, Cause::Capacity, Cause::Channel] {
            for drained_at in [0, MOST_JAMS] {
                phases.push(Phase::Waiting {
                    hop: Hop::Target,
                    generation: Some(LOST),
                    drained_at,
                    cause,
                });
                phases.push(Phase::Waiting {
                    hop: Hop::Alternate,
                    generation: Some(0),
                    drained_at,
                    cause,
                });
            }
        }
    }
    for link in links {
        for preference in [Preference::Target, Preference::Alternate, Preference::Local] {
            for bits in 0..16_u8 {
                for target in 0..=jams {
                    for alternate in 0..=jams {
                        for phase in &phases {
                            let full = [bits & 4 != 0, bits & 8 != 0];
                            let impossible = full[0] && target == 0 || full[1] && alternate == 0;
                            let unborn = link == Link::Pending
                                && matches!(
                                    phase,
                                    Phase::InFlight {
                                        hop: Hop::Target,
                                        generation: Some(CURRENT)
                                    }
                                );
                            if impossible || unborn {
                                continue;
                            }
                            all.push(State {
                                link,
                                preference,
                                congested: bits & 1 != 0,
                                queued: bits & 2 != 0,
                                jam: [target, alternate],
                                full,
                                ended: [0, 0],
                                deferrals,
                                phase: *phase,
                            });
                        }
                    }
                }
            }
        }
    }
    all
}

#[test]
fn a_placement_with_the_quiescent_deferrals_left_is_always_accepted() {
    let spent = REROUTING_BUDGET - QUIESCENT_DEFERRALS;
    let mut known = HashMap::new();
    let mut crowded = 0;
    for state in arrangements(spent, MOST_JAMS) {
        let exhausts = can_exhaust(state, &mut known);
        assert_eq!(exhausts, state.crowded(), "{state:?}");
        crowded += usize::from(state.crowded());
    }
    assert!(crowded > 0);
    for state in arrangements(0, MOST_JAMS) {
        assert!(!can_exhaust(state, &mut known), "{state:?}");
    }
}

#[test]
fn one_deferral_less_does_not_suffice() {
    let spent = REROUTING_BUDGET - QUIESCENT_DEFERRALS + 1;
    let mut known = HashMap::new();
    assert!(arrangements(spent, MOST_JAMS)
        .into_iter()
        .filter(|state| !state.crowded())
        .any(|state| can_exhaust(state, &mut known)));
}

#[test]
fn a_replacement_among_idle_hops_costs_one_deferral() {
    let spent = REROUTING_BUDGET - REPLACEMENT_DEFERRALS;
    let idle = |state: &State| !state.congested && !state.queued;
    let mut known = HashMap::new();
    for state in arrangements(spent, 0).into_iter().filter(idle) {
        assert!(!can_exhaust(state, &mut known), "{state:?}");
    }
    assert!(arrangements(spent + 1, 0)
        .into_iter()
        .filter(idle)
        .any(|state| can_exhaust(state, &mut known)));
}

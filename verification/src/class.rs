//! Scheduling classes and completion policies of outbound transfers.

use vstd::prelude::*;

verus! {

/// How many scheduling classes there are.
pub const CLASS_COUNT: usize = 4;

/// The scheduling class of a transfer.
#[derive(Clone, Copy, Debug, PartialEq, Eq, PartialOrd, Ord, Hash, Structural)]
pub enum TransferClass {
    /// Topology maintenance.
    DhtControl,
    /// Storage synchronization.
    Storage,
    /// End-to-end handshakes.
    E2e,
    /// Application payloads.
    Application,
}

impl TransferClass {
    /// The class's place in per-class tables.
    pub open spec fn place(self) -> int {
        match self {
            TransferClass::DhtControl => 0,
            TransferClass::Storage => 1,
            TransferClass::E2e => 2,
            TransferClass::Application => 3,
        }
    }

    /// The class's place in per-class tables.
    pub fn index(self) -> (index: usize)
        ensures
            index == self.place(),
            index < CLASS_COUNT,
    {
        match self {
            TransferClass::DhtControl => 0,
            TransferClass::Storage => 1,
            TransferClass::E2e => 2,
            TransferClass::Application => 3,
        }
    }
}

/// When a send is reported to its caller.
#[derive(Clone, Copy, Debug, PartialEq, Eq, Hash, Structural)]
pub enum OutboundCompletion {
    /// Once the backend accepted the first frame.
    Detached,
    /// Once every frame was delivered.
    Attached,
}

/// How a send ended that did not fail.
#[derive(Clone, Copy, Debug, PartialEq, Eq, Hash, Structural)]
pub enum SendCompletionOutcome {
    /// The boundary of the completion policy was reached.
    Succeeded,
    /// The send was revoked before that boundary.
    Cancelled,
}

/// Every class has a place of its own, control first.
pub proof fn law_classes_have_places_of_their_own(
    first: TransferClass,
    second: TransferClass,
    at: usize,
    other: usize,
)
    requires
        call_ensures(TransferClass::index, (first,), at),
        call_ensures(TransferClass::index, (second,), other),
    ensures
        at == other <==> first == second,
        at < 4,
        first is DhtControl <==> at == 0,
        first is Storage <==> at == 1,
        first is E2e <==> at == 2,
        first is Application <==> at == 3,
{
}

} // verus!

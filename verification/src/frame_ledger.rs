//! Frame conservation between nodes.
//!
//! A frame is counted as sending from the start of a send until the backend accepts or fails
//! it, as sent once accepted, as arrived once it reaches the link stage of the other end, and as
//! in flight from there until it is handed off or dropped.

use vstd::prelude::*;

verus! {

/// The frame counts of one node.
#[derive(Clone, Copy, Debug, PartialEq, Eq, Hash, Structural)]
pub struct FrameLedger {
    /// Sends that were begun and are neither accepted nor failed.
    pub sending: u64,
    /// Frames the backend accepted.
    pub sent: u64,
    /// Frames that reached the link stage.
    pub arrived: u64,
    /// Arrived frames that are not handed off yet.
    pub in_flight: u64,
}

impl Default for FrameLedger {
    fn default() -> (ledger: Self)
        ensures
            ledger == (FrameLedger { sending: 0, sent: 0, arrived: 0, in_flight: 0 }),
    {
        FrameLedger { sending: 0, sent: 0, arrived: 0, in_flight: 0 }
    }
}

impl FrameLedger {
    /// What is in flight has arrived.
    pub open spec fn wf(self) -> bool {
        self.in_flight <= self.arrived
    }

    /// Begin one send.
    pub fn begin_send(&mut self)
        requires
            old(self).sending < u64::MAX,
        ensures
            *final(self) == (FrameLedger { sending: (old(self).sending + 1) as u64, ..*old(self) }),
    {
        self.sending = self.sending + 1;
    }

    /// End one send; an accepted frame is counted as sent.
    pub fn end_send(&mut self, accepted: bool)
        requires
            old(self).sending > 0,
            accepted ==> old(self).sent < u64::MAX,
        ensures
            *final(self) == (FrameLedger {
                sending: (old(self).sending - 1) as u64,
                sent: if accepted {
                    (old(self).sent + 1) as u64
                } else {
                    old(self).sent
                },
                ..*old(self)
            }),
    {
        if accepted {
            self.sent = self.sent + 1;
        }
        self.sending = self.sending - 1;
    }

    /// Count one arrived frame, in flight from now on.
    pub fn arrive(&mut self)
        requires
            old(self).wf(),
            old(self).arrived < u64::MAX,
        ensures
            final(self).wf(),
            *final(self) == (FrameLedger {
                arrived: (old(self).arrived + 1) as u64,
                in_flight: (old(self).in_flight + 1) as u64,
                ..*old(self)
            }),
    {
        self.arrived = self.arrived + 1;
        self.in_flight = self.in_flight + 1;
    }

    /// One arrived frame was handed off or dropped.
    pub fn hand_off(&mut self)
        requires
            old(self).wf(),
            old(self).in_flight > 0,
        ensures
            final(self).wf(),
            *final(self) == (FrameLedger {
                in_flight: (old(self).in_flight - 1) as u64,
                ..*old(self)
            }),
    {
        self.in_flight = self.in_flight - 1;
    }

    /// Whether a send is in progress or an arrived frame is not handed off yet.
    pub fn busy(&self) -> (busy: bool)
        ensures
            busy == (self.sending > 0 || self.in_flight > 0),
    {
        self.sending > 0 || self.in_flight > 0
    }

    /// Frames the backend accepted.
    pub fn sent(&self) -> (sent: u64)
        ensures
            sent == self.sent,
    {
        self.sent
    }

    /// Frames that reached the link stage.
    pub fn arrived(&self) -> (arrived: u64)
        ensures
            arrived == self.arrived,
    {
        self.arrived
    }
}

/// The frames all nodes sent.
pub open spec fn all_sent(ledgers: Seq<FrameLedger>) -> int
    decreases ledgers.len(),
{
    if ledgers.len() == 0 {
        0
    } else {
        all_sent(ledgers.drop_last()) + ledgers.last().sent
    }
}

/// The frames that arrived at all nodes.
pub open spec fn all_arrived(ledgers: Seq<FrameLedger>) -> int
    decreases ledgers.len(),
{
    if ledgers.len() == 0 {
        0
    } else {
        all_arrived(ledgers.drop_last()) + ledgers.last().arrived
    }
}

/// What the counts say of the wire: every frame that was sent and has not arrived is on it.
pub open spec fn conserved(ledgers: Seq<FrameLedger>, on_wire: nat) -> bool {
    all_sent(ledgers) == all_arrived(ledgers) + on_wire
}

proof fn lemma_sums_update(ledgers: Seq<FrameLedger>, node: int, ledger: FrameLedger)
    requires
        0 <= node < ledgers.len(),
    ensures
        all_sent(ledgers.update(node, ledger)) == all_sent(ledgers) - ledgers[node].sent
            + ledger.sent,
        all_arrived(ledgers.update(node, ledger)) == all_arrived(ledgers) - ledgers[node].arrived
            + ledger.arrived,
    decreases ledgers.len(),
{
    let updated = ledgers.update(node, ledger);
    if node == ledgers.len() - 1 {
        assert(updated.drop_last() =~= ledgers.drop_last());
    } else {
        assert(updated.drop_last() =~= ledgers.drop_last().update(node, ledger));
        lemma_sums_update(ledgers.drop_last(), node, ledger);
    }
}

/// An accepted frame goes onto the wire and an arriving one leaves it, and the counts follow.
pub proof fn law_frames_are_conserved(ledgers: Seq<FrameLedger>, on_wire: nat, node: int)
    requires
        conserved(ledgers, on_wire),
        0 <= node < ledgers.len(),
        ledgers[node].sent < u64::MAX,
        ledgers[node].arrived < u64::MAX,
    ensures
        conserved(
            ledgers.update(
                node,
                FrameLedger { sent: (ledgers[node].sent + 1) as u64, ..ledgers[node] },
            ),
            on_wire + 1,
        ),
        on_wire > 0 ==> conserved(
            ledgers.update(
                node,
                FrameLedger { arrived: (ledgers[node].arrived + 1) as u64, ..ledgers[node] },
            ),
            (on_wire - 1) as nat,
        ),
{
    lemma_sums_update(
        ledgers,
        node,
        FrameLedger { sent: (ledgers[node].sent + 1) as u64, ..ledgers[node] },
    );
    lemma_sums_update(
        ledgers,
        node,
        FrameLedger { arrived: (ledgers[node].arrived + 1) as u64, ..ledgers[node] },
    );
}

/// The wire is empty exactly when as many frames arrived as were sent.
pub proof fn law_balanced_counts_mean_an_empty_wire(ledgers: Seq<FrameLedger>, on_wire: nat)
    requires
        conserved(ledgers, on_wire),
    ensures
        all_sent(ledgers) == all_arrived(ledgers) <==> on_wire == 0,
{
}

/// A begun send is open until it ends; it counts as sent exactly if the backend accepted it. An
/// arrival is in flight until it is handed off. A ledger is busy exactly while a send is open or an
/// arrival is in flight.
pub proof fn law_ledger_counts_each_step_once(
    begun: &mut FrameLedger,
    ended: &mut FrameLedger,
    accepted: bool,
    arrived: &mut FrameLedger,
    handed: &mut FrameLedger,
    read: FrameLedger,
    busy: bool,
)
    requires
        old(begun).sending < u64::MAX,
        call_ensures(FrameLedger::begin_send, (begun,), ()),
        old(ended).sending > 0,
        old(ended).sent < u64::MAX,
        call_ensures(FrameLedger::end_send, (ended, accepted), ()),
        old(arrived).wf(),
        old(arrived).arrived < u64::MAX,
        call_ensures(FrameLedger::arrive, (arrived,), ()),
        old(handed).wf(),
        old(handed).in_flight > 0,
        call_ensures(FrameLedger::hand_off, (handed,), ()),
        call_ensures(FrameLedger::busy, (&read,), busy),
    ensures
        final(begun).sending == old(begun).sending + 1,
        final(begun).sent == old(begun).sent,
        final(begun).arrived == old(begun).arrived,
        final(begun).in_flight == old(begun).in_flight,
        final(ended).sending == old(ended).sending - 1,
        final(ended).sent == old(ended).sent + (if accepted {
            1int
        } else {
            0
        }),
        final(ended).arrived == old(ended).arrived,
        final(ended).in_flight == old(ended).in_flight,
        final(arrived).arrived == old(arrived).arrived + 1,
        final(arrived).in_flight == old(arrived).in_flight + 1,
        final(arrived).sending == old(arrived).sending,
        final(arrived).sent == old(arrived).sent,
        final(handed).in_flight == old(handed).in_flight - 1,
        final(handed).arrived == old(handed).arrived,
        final(handed).sending == old(handed).sending,
        final(handed).sent == old(handed).sent,
        busy <==> read.sending > 0 || read.in_flight > 0,
{
}

} // verus!

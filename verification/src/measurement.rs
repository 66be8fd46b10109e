//! Coalesced outbound measurements of one peer.
//!
//! Outcomes add up until they are taken, so a slow recorder loses no count and no byte.

use vstd::prelude::*;

verus! {

/// One outcome of a send.
#[derive(Clone, Copy, Debug, PartialEq, Eq, Hash, Structural)]
pub enum OutboundMeasurement {
    /// A payload of this many useful bytes was delivered.
    Sent { useful_bytes: u64 },
    /// A send failed.
    FailedToSend,
}

/// The two outcomes.
#[derive(Clone, Copy, Debug, PartialEq, Eq, Hash, Structural)]
pub enum OutboundMeasurementKind {
    /// Delivered payloads.
    Sent,
    /// Failed sends.
    FailedToSend,
}

impl OutboundMeasurementKind {
    /// The other outcome.
    pub open spec fn opposite(self) -> OutboundMeasurementKind {
        match self {
            OutboundMeasurementKind::Sent => OutboundMeasurementKind::FailedToSend,
            OutboundMeasurementKind::FailedToSend => OutboundMeasurementKind::Sent,
        }
    }

    /// The other outcome.
    pub fn other(self) -> (other: Self)
        ensures
            other == self.opposite(),
    {
        match self {
            OutboundMeasurementKind::Sent => OutboundMeasurementKind::FailedToSend,
            OutboundMeasurementKind::FailedToSend => OutboundMeasurementKind::Sent,
        }
    }
}

/// Outcomes of one kind, taken together.
#[derive(Clone, Copy, Debug, PartialEq, Eq, Hash, Structural)]
pub struct MeasurementBatch {
    /// The outcome; the bytes of deliveries are summed up in it.
    pub event: OutboundMeasurement,
    /// How often it happened: at least once.
    pub occurrences: u64,
}

/// The outcomes that were not taken yet.
#[derive(Clone, Copy, Debug, PartialEq, Eq, Hash, Structural)]
pub struct PendingState {
    /// Delivered payloads.
    pub sent_count: u64,
    /// Their useful bytes.
    pub sent_bytes: u64,
    /// Failed sends.
    pub failed_to_send: u64,
}

impl Default for PendingState {
    fn default() -> (pending: Self)
        ensures
            pending == (PendingState { sent_count: 0, sent_bytes: 0, failed_to_send: 0 }),
    {
        PendingState { sent_count: 0, sent_bytes: 0, failed_to_send: 0 }
    }
}

/// Whether one more outcome can be counted.
pub open spec fn countable(pending: PendingState, measurement: OutboundMeasurement) -> bool {
    match measurement {
        OutboundMeasurement::Sent { useful_bytes } => pending.sent_count < u64::MAX
            && pending.sent_bytes + useful_bytes <= u64::MAX,
        OutboundMeasurement::FailedToSend => pending.failed_to_send < u64::MAX,
    }
}

/// The counts with one more outcome.
pub open spec fn counted(pending: PendingState, measurement: OutboundMeasurement) -> PendingState {
    match measurement {
        OutboundMeasurement::Sent { useful_bytes } => PendingState {
            sent_count: (pending.sent_count + 1) as u64,
            sent_bytes: (pending.sent_bytes + useful_bytes) as u64,
            ..pending
        },
        OutboundMeasurement::FailedToSend => PendingState {
            failed_to_send: (pending.failed_to_send + 1) as u64,
            ..pending
        },
    }
}

/// What is taken of one kind.
pub open spec fn batch_of(pending: PendingState, kind: OutboundMeasurementKind) -> Option<
    MeasurementBatch,
> {
    match kind {
        OutboundMeasurementKind::Sent => if pending.sent_count > 0 {
            Some(
                MeasurementBatch {
                    event: OutboundMeasurement::Sent { useful_bytes: pending.sent_bytes },
                    occurrences: pending.sent_count,
                },
            )
        } else {
            None
        },
        OutboundMeasurementKind::FailedToSend => if pending.failed_to_send > 0 {
            Some(
                MeasurementBatch {
                    event: OutboundMeasurement::FailedToSend,
                    occurrences: pending.failed_to_send,
                },
            )
        } else {
            None
        },
    }
}

/// What is left once one kind was taken.
pub open spec fn without(pending: PendingState, kind: OutboundMeasurementKind) -> PendingState {
    if batch_of(pending, kind) is None {
        pending
    } else {
        match kind {
            OutboundMeasurementKind::Sent => PendingState {
                sent_count: 0,
                sent_bytes: 0,
                ..pending
            },
            OutboundMeasurementKind::FailedToSend => PendingState { failed_to_send: 0, ..pending },
        }
    }
}

impl PendingState {
    /// Count one outcome, unless a count would overflow.
    pub fn increment(&mut self, measurement: OutboundMeasurement) -> (incremented: bool)
        ensures
            incremented == countable(*old(self), measurement),
            *final(self) == (if incremented {
                counted(*old(self), measurement)
            } else {
                *old(self)
            }),
    {
        match measurement {
            OutboundMeasurement::Sent { useful_bytes } => {
                let sent_count: u64 = match self.sent_count.checked_add(1) {
                    Some(sent_count) => sent_count,
                    None => {
                        return false;
                    },
                };
                let sent_bytes: u64 = match self.sent_bytes.checked_add(useful_bytes) {
                    Some(sent_bytes) => sent_bytes,
                    None => {
                        return false;
                    },
                };
                self.sent_count = sent_count;
                self.sent_bytes = sent_bytes;
            },
            OutboundMeasurement::FailedToSend => {
                let failed_to_send: u64 = match self.failed_to_send.checked_add(1) {
                    Some(failed_to_send) => failed_to_send,
                    None => {
                        return false;
                    },
                };
                self.failed_to_send = failed_to_send;
            },
        }
        true
    }

    /// Take the outcomes of `kind`.
    pub fn take(&mut self, kind: OutboundMeasurementKind) -> (batch: Option<MeasurementBatch>)
        ensures
            batch == batch_of(*old(self), kind),
            *final(self) == without(*old(self), kind),
    {
        match kind {
            OutboundMeasurementKind::Sent => {
                if self.sent_count == 0 {
                    return None;
                }
                let batch = MeasurementBatch {
                    event: OutboundMeasurement::Sent { useful_bytes: self.sent_bytes },
                    occurrences: self.sent_count,
                };
                self.sent_count = 0;
                self.sent_bytes = 0;
                Some(batch)
            },
            OutboundMeasurementKind::FailedToSend => {
                if self.failed_to_send == 0 {
                    return None;
                }
                let batch = MeasurementBatch {
                    event: OutboundMeasurement::FailedToSend,
                    occurrences: self.failed_to_send,
                };
                self.failed_to_send = 0;
                Some(batch)
            },
        }
    }

    /// Take the outcomes of `first`, or of the other kind where there are none.
    pub fn take_next(&mut self, first: OutboundMeasurementKind) -> (taken: Option<
        (OutboundMeasurementKind, MeasurementBatch),
    >)
        ensures
            match (batch_of(*old(self), first), batch_of(*old(self), first.opposite())) {
                (Some(batch), _) => taken == Some((first, batch)) && *final(self) == without(
                    *old(self),
                    first,
                ),
                (None, Some(batch)) => taken == Some((first.opposite(), batch)) && *final(self)
                    == without(*old(self), first.opposite()),
                (None, None) => taken is None && *final(self) == *old(self),
            },
    {
        if let Some(batch) = self.take(first) {
            return Some((first, batch));
        }
        if let Some(batch) = self.take(first.other()) {
            return Some((first.other(), batch));
        }
        None
    }
}

/// The recording end: whether outcomes are kept at all, and whose turn it is.
#[derive(Clone, Copy, Debug, PartialEq, Eq, Hash, Structural)]
pub struct MeasurementRecorder {
    /// Outcomes are kept.
    pub enabled: bool,
    /// The outcomes that were not taken yet.
    pub pending: PendingState,
    /// The kind that is taken next where there is some.
    pub next: OutboundMeasurementKind,
}

impl MeasurementRecorder {
    /// A recorder with nothing recorded.
    pub fn new(enabled: bool) -> (recorder: Self)
        ensures
            recorder == (MeasurementRecorder {
                enabled,
                pending: PendingState { sent_count: 0, sent_bytes: 0, failed_to_send: 0 },
                next: OutboundMeasurementKind::Sent,
            }),
    {
        MeasurementRecorder {
            enabled,
            pending: PendingState::default(),
            next: OutboundMeasurementKind::Sent,
        }
    }

    /// Record one outcome; says whether there is something new to take.
    pub fn record(&mut self, measurement: OutboundMeasurement) -> (recorded: bool)
        ensures
            recorded == (old(self).enabled && countable(old(self).pending, measurement)),
            *final(self) == (if recorded {
                MeasurementRecorder {
                    pending: counted(old(self).pending, measurement),
                    ..*old(self)
                }
            } else {
                *old(self)
            }),
    {
        if !self.enabled {
            return false;
        }
        self.pending.increment(measurement)
    }

    /// Take the next batch; the kinds take turns while both have outcomes.
    pub fn take_batch(&mut self) -> (batch: Option<MeasurementBatch>)
        ensures
            final(self).enabled == old(self).enabled,
            match (
                batch_of(old(self).pending, old(self).next),
                batch_of(old(self).pending, old(self).next.opposite()),
            ) {
                (Some(first), _) => batch == Some(first) && final(self).pending == without(
                    old(self).pending,
                    old(self).next,
                ) && final(self).next == old(self).next.opposite(),
                (None, Some(second)) => batch == Some(second) && final(self).pending == without(
                    old(self).pending,
                    old(self).next.opposite(),
                ) && final(self).next == old(self).next,
                (None, None) => batch is None && *final(self) == *old(self),
            },
    {
        match self.pending.take_next(self.next) {
            Some((kind, batch)) => {
                self.next = kind.other();
                Some(batch)
            },
            None => None,
        }
    }
}

/// How many of `measurements` are deliveries.
pub open spec fn deliveries(measurements: Seq<OutboundMeasurement>) -> int
    decreases measurements.len(),
{
    if measurements.len() == 0 {
        0
    } else {
        deliveries(measurements.drop_last()) + (if measurements.last() is Sent {
            1int
        } else {
            0
        })
    }
}

/// The useful bytes of all deliveries.
pub open spec fn delivered_bytes(measurements: Seq<OutboundMeasurement>) -> int
    decreases measurements.len(),
{
    if measurements.len() == 0 {
        0
    } else {
        delivered_bytes(measurements.drop_last()) + (match measurements.last() {
            OutboundMeasurement::Sent { useful_bytes } => useful_bytes as int,
            OutboundMeasurement::FailedToSend => 0,
        })
    }
}

/// `pending` holds exactly `measurements`.
pub open spec fn adds_up(pending: PendingState, measurements: Seq<OutboundMeasurement>) -> bool {
    &&& pending.sent_count == deliveries(measurements)
    &&& pending.sent_bytes == delivered_bytes(measurements)
    &&& pending.failed_to_send == measurements.len() - deliveries(measurements)
}

/// Coalescing preserves the number of outcomes and the sum of their useful bytes.
pub proof fn law_coalescing_preserves_counts_and_bytes(
    pending: PendingState,
    measurements: Seq<OutboundMeasurement>,
    measurement: OutboundMeasurement,
)
    requires
        adds_up(pending, measurements),
        countable(pending, measurement),
    ensures
        adds_up(counted(pending, measurement), measurements.push(measurement)),
{
    assert(measurements.push(measurement).drop_last() =~= measurements);
}

/// Taking both kinds hands over every outcome: the batches hold the exact counts and bytes, and
/// nothing is left.
pub proof fn law_taking_both_kinds_hands_over_everything(
    pending: PendingState,
    measurements: Seq<OutboundMeasurement>,
    first: OutboundMeasurementKind,
)
    requires
        adds_up(pending, measurements),
    ensures
        adds_up(without(without(pending, first), first.opposite()), Seq::empty()),
        batch_of(pending, OutboundMeasurementKind::Sent) == (if deliveries(measurements) > 0 {
            Some(
                MeasurementBatch {
                    event: OutboundMeasurement::Sent {
                        useful_bytes: delivered_bytes(measurements) as u64,
                    },
                    occurrences: deliveries(measurements) as u64,
                },
            )
        } else {
            None
        }),
        batch_of(pending, OutboundMeasurementKind::FailedToSend) == (if measurements.len()
            > deliveries(measurements) {
            Some(
                MeasurementBatch {
                    event: OutboundMeasurement::FailedToSend,
                    occurrences: (measurements.len() - deliveries(measurements)) as u64,
                },
            )
        } else {
            None
        }),
        batch_of(without(pending, first), first.opposite()) == batch_of(pending, first.opposite()),
{
    lemma_no_deliveries_no_bytes(measurements);
}

proof fn lemma_no_deliveries_no_bytes(measurements: Seq<OutboundMeasurement>)
    ensures
        deliveries(measurements) >= 0,
        deliveries(measurements) <= measurements.len(),
        deliveries(measurements) == 0 ==> delivered_bytes(measurements) == 0,
    decreases measurements.len(),
{
    if measurements.len() > 0 {
        lemma_no_deliveries_no_bytes(measurements.drop_last());
    }
}

/// An outcome is counted exactly if its counters hold it: a delivery adds one and its bytes, a
/// failure adds one failure. What they do not hold changes nothing.
pub proof fn law_outcomes_are_counted_exactly(
    pending: &mut PendingState,
    measurement: OutboundMeasurement,
    incremented: bool,
)
    requires
        call_ensures(PendingState::increment, (pending, measurement), incremented),
    ensures
        measurement matches OutboundMeasurement::Sent { useful_bytes } ==> {
            &&& incremented <==> old(pending).sent_count < u64::MAX && old(pending).sent_bytes
                + useful_bytes <= u64::MAX
            &&& incremented ==> final(pending).sent_count == old(pending).sent_count + 1 && final(pending).sent_bytes == old(pending).sent_bytes + useful_bytes && final(pending).failed_to_send == old(pending).failed_to_send
        },
        measurement is FailedToSend ==> {
            &&& incremented <==> old(pending).failed_to_send < u64::MAX
            &&& incremented ==> final(pending).failed_to_send == old(pending).failed_to_send + 1
                && final(pending).sent_count == old(pending).sent_count && final(pending).sent_bytes == old(pending).sent_bytes
        },
        !incremented ==> *final(pending) == *old(pending),
{
}

/// Taking one kind hands over everything of it and nothing of the other: a batch comes exactly if
/// something was counted, it carries the whole count and all bytes, and its counters start again.
pub proof fn law_batch_carries_its_whole_kind(
    pending: &mut PendingState,
    kind: OutboundMeasurementKind,
    batch: Option<MeasurementBatch>,
)
    requires
        call_ensures(PendingState::take, (pending, kind), batch),
    ensures
        kind == OutboundMeasurementKind::Sent ==> {
            &&& batch is Some <==> old(pending).sent_count > 0
            &&& batch matches Some(batch) ==> batch.occurrences == old(pending).sent_count
                && batch.event == (OutboundMeasurement::Sent {
                useful_bytes: old(pending).sent_bytes,
            }) && final(pending).sent_count == 0 && final(pending).sent_bytes == 0
            &&& final(pending).failed_to_send == old(pending).failed_to_send
        },
        kind == OutboundMeasurementKind::FailedToSend ==> {
            &&& batch is Some <==> old(pending).failed_to_send > 0
            &&& batch matches Some(batch) ==> batch.occurrences == old(pending).failed_to_send
                && batch.event == OutboundMeasurement::FailedToSend && final(pending).failed_to_send == 0
            &&& final(pending).sent_count == old(pending).sent_count
            &&& final(pending).sent_bytes == old(pending).sent_bytes
        },
        batch is None ==> *final(pending) == *old(pending),
{
}

/// A recorder keeps outcomes exactly while it is enabled, hands something over exactly while it
/// holds something, and lets the kinds take turns while it holds both.
pub proof fn law_recorder_hands_over_what_it_holds(
    recorder: &mut MeasurementRecorder,
    batch: Option<MeasurementBatch>,
)
    requires
        call_ensures(MeasurementRecorder::take_batch, (recorder,), batch),
    ensures
        batch is Some <==> old(recorder).pending.sent_count > 0 || old(recorder).pending.failed_to_send > 0,
        old(recorder).pending.sent_count > 0 && old(recorder).pending.failed_to_send > 0 ==> {
            &&& batch->0.event is Sent <==> old(recorder).next == OutboundMeasurementKind::Sent
            &&& final(recorder).next != old(recorder).next
        },
        batch matches Some(batch) ==> (if batch.event is Sent {
            &&& batch.occurrences == old(recorder).pending.sent_count
            &&& batch.event->useful_bytes == old(recorder).pending.sent_bytes
            &&& final(recorder).pending.sent_count == 0
            &&& final(recorder).pending.sent_bytes == 0
            &&& final(recorder).pending.failed_to_send == old(recorder).pending.failed_to_send
        } else {
            &&& batch.occurrences == old(recorder).pending.failed_to_send
            &&& final(recorder).pending.failed_to_send == 0
            &&& final(recorder).pending.sent_count == old(recorder).pending.sent_count
            &&& final(recorder).pending.sent_bytes == old(recorder).pending.sent_bytes
        }),
        batch is None ==> *final(recorder) == *old(recorder),
        final(recorder).enabled == old(recorder).enabled,
{
}

/// A recorder that is switched off records nothing; one that is on records what its counters hold.
pub proof fn law_recorder_records_while_enabled(
    recorder: &mut MeasurementRecorder,
    measurement: OutboundMeasurement,
    recorded: bool,
)
    requires
        call_ensures(MeasurementRecorder::record, (recorder, measurement), recorded),
    ensures
        !old(recorder).enabled ==> !recorded,
        !recorded ==> *final(recorder) == *old(recorder),
        old(recorder).enabled && measurement is FailedToSend ==> (recorded <==> old(recorder).pending.failed_to_send < u64::MAX),
        recorded && measurement is FailedToSend ==> final(recorder).pending.failed_to_send == old(recorder).pending.failed_to_send + 1,
        measurement matches OutboundMeasurement::Sent { useful_bytes } ==> {
            &&& old(recorder).enabled ==> (recorded <==> old(recorder).pending.sent_count
                < u64::MAX && old(recorder).pending.sent_bytes + useful_bytes <= u64::MAX)
            &&& recorded ==> final(recorder).pending.sent_count == old(recorder).pending.sent_count + 1 && final(recorder).pending.sent_bytes == old(recorder).pending.sent_bytes + useful_bytes
        },
        final(recorder).next == old(recorder).next,
        final(recorder).enabled == old(recorder).enabled,
{
}

/// The next batch is of the preferred kind if there is one, else of the other kind, and is taken
/// out; nothing is taken exactly if nothing happened.
pub proof fn law_next_batch_prefers_its_kind(
    pending: &mut PendingState,
    first: OutboundMeasurementKind,
    taken: Option<(OutboundMeasurementKind, MeasurementBatch)>,
)
    requires
        call_ensures(PendingState::take_next, (pending, first), taken),
    ensures
        ({
            let sent = old(pending).sent_count > 0;
            let failed = old(pending).failed_to_send > 0;
            &&& taken is Some <==> sent || failed
            &&& taken matches Some((kind, batch)) ==> {
                &&& kind == OutboundMeasurementKind::Sent <==> sent && (first
                    == OutboundMeasurementKind::Sent || !failed)
                &&& kind == OutboundMeasurementKind::Sent ==> batch.occurrences
                    == old(pending).sent_count && final(pending).sent_count == 0
                    && final(pending).failed_to_send == old(pending).failed_to_send
                &&& kind == OutboundMeasurementKind::FailedToSend ==> batch.occurrences
                    == old(pending).failed_to_send && final(pending).failed_to_send == 0
                    && final(pending).sent_count == old(pending).sent_count
                    && final(pending).sent_bytes == old(pending).sent_bytes
            }
        }),
{
}

} // verus!

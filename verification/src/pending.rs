//! What a connection generation's state means for callbacks, answers and finger reports.

use vstd::prelude::*;

use crate::readiness::SwarmConnection;
use crate::registry::PeerConnectionLifecycle;
use crate::registry::PendingConnectionAttempt;

verus! {

/// What happens to a callback of a connection.
#[derive(Clone, Copy, Debug, PartialEq, Eq, Hash, Structural)]
pub enum ConnectionEventDisposition {
    /// It is delivered: it belongs to the current generation, or no other is active.
    Deliver,
    /// It is dropped: another generation is active.
    Suppress { active: PendingConnectionAttempt },
}

/// What happens to a callback of `source` while its peer is in `state`.
pub open spec fn disposition_of(
    state: Option<PeerConnectionLifecycle>,
    source: PendingConnectionAttempt,
) -> ConnectionEventDisposition {
    match state {
        Some(PeerConnectionLifecycle::Active { attempt, .. }) if attempt != source =>
            ConnectionEventDisposition::Suppress { active: attempt },
        _ => ConnectionEventDisposition::Deliver,
    }
}

/// What happens to a callback of `source` while its peer is in `state`.
pub fn event_disposition(
    state: Option<PeerConnectionLifecycle>,
    source: PendingConnectionAttempt,
) -> (disposition: ConnectionEventDisposition)
    ensures
        disposition == disposition_of(state, source),
{
    match state {
        Some(PeerConnectionLifecycle::Active { attempt: active, .. }) => {
            if active != source {
                ConnectionEventDisposition::Suppress { active }
            } else {
                ConnectionEventDisposition::Deliver
            }
        },
        _ => ConnectionEventDisposition::Deliver,
    }
}

/// Who owns a physical connection.
#[derive(Clone, Copy, Debug, PartialEq, Eq, Hash, Structural)]
pub enum RawConnectionOwner {
    /// A generation that is not admitted yet.
    Pending(PendingConnectionAttempt),
    /// An admitting or active generation.
    Owned,
    /// Nobody: its record is gone.
    Orphan,
}

/// Who owns the physical connection of a peer in `state`.
pub fn raw_connection_owner(state: Option<PeerConnectionLifecycle>) -> (owner: RawConnectionOwner)
    ensures
        owner == (match state {
            Some(PeerConnectionLifecycle::Pending { attempt, .. }) => RawConnectionOwner::Pending(
                attempt,
            ),
            Some(_) => RawConnectionOwner::Owned,
            None => RawConnectionOwner::Orphan,
        }),
{
    match state {
        Some(PeerConnectionLifecycle::Pending { attempt, .. }) => RawConnectionOwner::Pending(
            attempt,
        ),
        Some(_) => RawConnectionOwner::Owned,
        None => RawConnectionOwner::Orphan,
    }
}

/// A peer's slot as an answer to this node's offer finds it.
#[derive(Clone, Copy, Debug, PartialEq, Eq, Hash, Structural)]
pub enum AnswerSlot {
    /// No record.
    Vacant,
    /// A pending generation and the connection the answer applies to.
    Pending(PendingConnectionAttempt, SwarmConnection),
    /// A generation no answer applies to.
    Owned(PendingConnectionAttempt),
}

/// The slot of a peer in `state` that has `connection`.
pub fn answer_slot(
    state: Option<PeerConnectionLifecycle>,
    connection: Option<SwarmConnection>,
) -> (slot: AnswerSlot)
    ensures
        slot == (match (state, connection) {
            (None, _) => AnswerSlot::Vacant,
            (Some(PeerConnectionLifecycle::Pending { attempt, .. }), Some(connection)) =>
                AnswerSlot::Pending(attempt, connection),
            (Some(state), _) => AnswerSlot::Owned(state.owner()),
        }),
{
    match state {
        None => AnswerSlot::Vacant,
        Some(PeerConnectionLifecycle::Pending { attempt, .. }) => match connection {
            Some(connection) => AnswerSlot::Pending(attempt, connection),
            None => AnswerSlot::Owned(attempt),
        },
        Some(state) => AnswerSlot::Owned(state.attempt()),
    }
}

/// Which unadmitted phases a cancellation releases.
#[derive(Clone, Copy, Debug, PartialEq, Eq, Hash, Structural)]
pub enum CancellationScope {
    /// Pending only.
    Pending,
    /// Pending or admitting.
    Unadmitted,
}

/// One finger lookup whose report is to be applied.
#[derive(Clone, Copy, Debug, PartialEq, Eq, Hash, Structural)]
pub struct FingerFixRequest {
    /// The lookup's token.
    pub token: u64,
}

/// What the finger table made of a report.
#[derive(Clone, Copy, Debug, PartialEq, Eq, Hash, Structural)]
pub enum FingerOutcome {
    /// It did what it was asked.
    Done,
    /// It refused the report, for this reason of its own.
    Rejected(u32),
}

/// What became of a reported finger.
#[derive(Clone, Copy, Debug, PartialEq, Eq, Hash, Structural)]
pub enum FingerUpdateDisposition {
    /// It is in the finger table.
    Applied,
    /// It waits with the pending generation.
    Queued,
    /// Its proof is kept and no generation owns it: a connection has to be opened, or the proof
    /// released.
    Missing,
    /// Its connection cannot make progress; the proof is retired.
    Unroutable,
    /// The finger table refused the report; nothing is kept.
    Rejected(u32),
}

impl FingerUpdateDisposition {
    /// Whether a kept proof waits for a generation to own it.
    pub fn proof_awaits_owner(self) -> (awaits: bool)
        ensures
            awaits == (self is Missing),
    {
        matches!(self, FingerUpdateDisposition::Missing)
    }
}

/// What to do with a reported finger.
#[derive(Clone, Copy, Debug, PartialEq, Eq, Hash, Structural)]
pub enum FingerCandidateAdmission {
    /// Apply it: its connection is routable.
    Apply,
    /// Keep it with this generation.
    Queue(PendingConnectionAttempt),
    /// No generation owns the peer.
    Missing,
    /// A generation owns the peer and cannot carry traffic.
    Unroutable,
}

/// What to do with a reported finger whose peer is in `lifecycle`.
pub fn finger_candidate_admission(
    lifecycle: Option<PeerConnectionLifecycle>,
    is_routable: bool,
) -> (admission: FingerCandidateAdmission)
    ensures
        admission == (match lifecycle {
            None => FingerCandidateAdmission::Missing,
            Some(PeerConnectionLifecycle::Active { .. }) => if is_routable {
                FingerCandidateAdmission::Apply
            } else {
                FingerCandidateAdmission::Unroutable
            },
            Some(state) => FingerCandidateAdmission::Queue(state.owner()),
        }),
{
    match lifecycle {
        Some(PeerConnectionLifecycle::Pending { attempt, .. })
        | Some(PeerConnectionLifecycle::Admitting { attempt, .. }) => {
            FingerCandidateAdmission::Queue(attempt)
        },
        Some(PeerConnectionLifecycle::Active { .. }) => if is_routable {
            FingerCandidateAdmission::Apply
        } else {
            FingerCandidateAdmission::Unroutable
        },
        None => FingerCandidateAdmission::Missing,
    }
}

/// What became of a reported finger once the finger table acted on `admission`.
pub fn finger_disposition(admission: FingerCandidateAdmission, outcome: FingerOutcome) -> (disposition:
    FingerUpdateDisposition)
    ensures
        disposition == (match outcome {
            FingerOutcome::Rejected(reason) => FingerUpdateDisposition::Rejected(reason),
            FingerOutcome::Done => match admission {
                FingerCandidateAdmission::Apply => FingerUpdateDisposition::Applied,
                FingerCandidateAdmission::Queue(_) => FingerUpdateDisposition::Queued,
                FingerCandidateAdmission::Missing => FingerUpdateDisposition::Missing,
                FingerCandidateAdmission::Unroutable => FingerUpdateDisposition::Unroutable,
            },
        }),
{
    match outcome {
        FingerOutcome::Rejected(reason) => FingerUpdateDisposition::Rejected(reason),
        FingerOutcome::Done => match admission {
            FingerCandidateAdmission::Apply => FingerUpdateDisposition::Applied,
            FingerCandidateAdmission::Queue(_) => FingerUpdateDisposition::Queued,
            FingerCandidateAdmission::Missing => FingerUpdateDisposition::Missing,
            FingerCandidateAdmission::Unroutable => FingerUpdateDisposition::Unroutable,
        },
    }
}

/// A callback is dropped exactly when another generation of its peer is active.
pub proof fn law_only_another_active_generation_suppresses(
    state: Option<PeerConnectionLifecycle>,
    source: PendingConnectionAttempt,
)
    ensures
        disposition_of(state, source) is Suppress <==> state is Some && state->0 is Active
            && state->0.owner() != source,
{
}

/// A callback is dropped exactly if another generation than its own is active, and the one that
/// is named is that one.
pub proof fn law_callback_is_dropped_for_another_active_generation_only(
    state: Option<PeerConnectionLifecycle>,
    source: PendingConnectionAttempt,
    disposition: ConnectionEventDisposition,
)
    requires
        call_ensures(event_disposition, (state, source), disposition),
    ensures
        disposition is Suppress <==> (state matches Some(
            PeerConnectionLifecycle::Active { attempt, .. },
        ) && attempt != source),
        disposition matches ConnectionEventDisposition::Suppress { active } ==> (state matches Some(
            PeerConnectionLifecycle::Active { attempt, .. },
        ) && attempt == active),
{
}

/// A physical connection without a record is an orphan; that of a pending record may be cancelled;
/// every other belongs to its record.
pub proof fn law_owner_of_a_physical_connection(
    state: Option<PeerConnectionLifecycle>,
    owner: RawConnectionOwner,
)
    requires
        call_ensures(raw_connection_owner, (state,), owner),
    ensures
        owner is Orphan <==> state is None,
        owner is Pending <==> (state matches Some(PeerConnectionLifecycle::Pending { .. })),
        owner matches RawConnectionOwner::Pending(attempt) ==> (state matches Some(
            PeerConnectionLifecycle::Pending { attempt: owned, .. },
        ) && owned == attempt),
{
}

/// An answer applies exactly to a pending generation that has a connection.
pub proof fn law_answers_apply_to_pending_generations_only(
    state: Option<PeerConnectionLifecycle>,
    connection: Option<SwarmConnection>,
    slot: AnswerSlot,
)
    requires
        call_ensures(answer_slot, (state, connection), slot),
    ensures
        slot is Vacant <==> state is None,
        slot is Pending <==> connection is Some && (state matches Some(
            PeerConnectionLifecycle::Pending { .. },
        )),
        slot matches AnswerSlot::Pending(attempt, link) ==> connection == Some(link) && (
        state matches Some(PeerConnectionLifecycle::Pending { attempt: owned, .. }) && owned
            == attempt),
        slot matches AnswerSlot::Owned(attempt) ==> (match state {
            Some(PeerConnectionLifecycle::Pending { attempt: owned, .. }) => owned == attempt,
            Some(PeerConnectionLifecycle::Admitting { attempt: owned, .. }) => owned == attempt,
            Some(PeerConnectionLifecycle::Active { attempt: owned, .. }) => owned == attempt,
            None => false,
        }),
{
}

/// A reported finger is applied exactly if its peer is active and routable, waits with a
/// generation that is not active yet, has no owner exactly where there is no record, and is
/// unroutable otherwise. What the finger table refuses is refused, whatever was asked of it.
pub proof fn law_finger_report_follows_its_connection(
    lifecycle: Option<PeerConnectionLifecycle>,
    is_routable: bool,
    admission: FingerCandidateAdmission,
    outcome: FingerOutcome,
    disposition: FingerUpdateDisposition,
    awaits: bool,
)
    requires
        call_ensures(finger_candidate_admission, (lifecycle, is_routable), admission),
        call_ensures(finger_disposition, (admission, outcome), disposition),
        call_ensures(FingerUpdateDisposition::proof_awaits_owner, (disposition,), awaits),
    ensures
        admission is Apply <==> is_routable && (lifecycle matches Some(
            PeerConnectionLifecycle::Active { .. },
        )),
        admission is Unroutable <==> !is_routable && (lifecycle matches Some(
            PeerConnectionLifecycle::Active { .. },
        )),
        admission is Missing <==> lifecycle is None,
        admission matches FingerCandidateAdmission::Queue(kept) ==> (match lifecycle {
            Some(PeerConnectionLifecycle::Pending { attempt, .. }) => attempt == kept,
            Some(PeerConnectionLifecycle::Admitting { attempt, .. }) => attempt == kept,
            _ => false,
        }),
        disposition is Rejected <==> outcome is Rejected,
        outcome matches FingerOutcome::Rejected(reason) ==> disposition
            == FingerUpdateDisposition::Rejected(reason),
        disposition is Applied <==> outcome is Done && admission is Apply,
        disposition is Queued <==> outcome is Done && admission is Queue,
        disposition is Missing <==> outcome is Done && admission is Missing,
        disposition is Unroutable <==> outcome is Done && admission is Unroutable,
        awaits <==> outcome is Done && lifecycle is None,
{
}

} // verus!

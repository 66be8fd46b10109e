//! The command ingress of one peer's worker.
//!
//! Submissions queue first come first. The one idempotent notification has a slot of its own. A
//! snapshot hands over everything at once, the notification last. Closing seals the ingress and
//! keeps what was accepted.

use std::collections::VecDeque;
use vstd::prelude::*;

verus! {

/// The accepted commands that were not handed over yet.
pub struct MailboxState<T> {
    submissions: VecDeque<T>,
    notification: Option<T>,
    closed: bool,
}

/// What an idle worker finds.
#[derive(Debug, PartialEq, Eq)]
pub enum MailboxPoll<T> {
    /// A command.
    Ready(T),
    /// Nothing yet.
    Pending,
    /// Nothing, and nothing will come.
    Closed,
}

/// One call on a mailbox, with what it gave.
pub enum MailboxCall<T> {
    /// `submit`, or `submit_if` where the item was accepted.
    Submit { item: T, accepted: bool },
    /// `notify`.
    Notify { item: T, accepted: bool },
    /// `poll_next`.
    Poll { next: MailboxPoll<T> },
    /// `snapshot`.
    Snapshot { batch: Seq<T> },
    /// `close`.
    Close,
}

impl<T> Default for MailboxState<T> {
    fn default() -> (mailbox: Self)
        ensures
            mailbox.queued() == Seq::<T>::empty(),
            mailbox.notified() is None,
            !mailbox.sealed(),
    {
        MailboxState::new()
    }
}

impl<T> MailboxState<T> {
    /// The submissions, first first.
    pub closed spec fn queued(&self) -> Seq<T> {
        self.submissions@
    }

    /// The notification.
    pub closed spec fn notified(&self) -> Option<T> {
        self.notification
    }

    /// No command is accepted any more.
    pub closed spec fn sealed(&self) -> bool {
        self.closed
    }

    /// Everything accepted, in hand-over order.
    pub open spec fn backlog(&self) -> Seq<T> {
        match self.notified() {
            Some(item) => self.queued().push(item),
            None => self.queued(),
        }
    }

    /// The mailbox `before`, without what it hands over first: its first submission, or the
    /// notification where no submission is queued.
    pub open spec fn first_taken(&self, before: &Self) -> bool {
        if before.queued().len() > 0 {
            &&& self.queued() == before.queued().drop_first()
            &&& self.notified() == before.notified()
        } else {
            &&& self.queued() == before.queued()
            &&& self.notified() is None
        }
    }

    /// Nothing is left in the mailbox.
    pub open spec fn is_drained(&self) -> bool {
        &&& self.queued() == Seq::<T>::empty()
        &&& self.notified() is None
    }

    /// An open, empty mailbox.
    pub fn new() -> (mailbox: Self)
        ensures
            mailbox.queued() == Seq::<T>::empty(),
            mailbox.notified() is None,
            !mailbox.sealed(),
    {
        MailboxState { submissions: VecDeque::new(), notification: None, closed: false }
    }

    /// Queue `item`, or give it back once the mailbox is closed.
    pub fn submit(&mut self, item: T) -> (submitted: Result<(), T>)
        ensures
            mailbox_step(
                &*old(self),
                MailboxCall::Submit { item, accepted: submitted is Ok },
                &*final(self),
            ),
            final(self).notified() == old(self).notified(),
            final(self).sealed() == old(self).sealed(),
            if old(self).sealed() {
                &&& submitted == Err::<(), T>(item)
                &&& final(self).queued() == old(self).queued()
            } else {
                &&& submitted is Ok
                &&& final(self).queued() == old(self).queued().push(item)
            },
    {
        if self.closed {
            Err(item)
        } else {
            self.submissions.push_back(item);
            Ok(())
        }
    }

    /// Queue `item` if `predicate` accepts it, in one step with closing; else give it back.
    pub fn submit_if<F: FnOnce(&T) -> bool>(&mut self, item: T, predicate: F) -> (submitted: Result<
        (),
        T,
    >)
        requires
            predicate.requires((&item,)),
        ensures
            submitted is Ok ==> mailbox_step(
                &*old(self),
                MailboxCall::Submit { item, accepted: true },
                &*final(self),
            ),
            final(self).notified() == old(self).notified(),
            final(self).sealed() == old(self).sealed(),
            exists|accepted: bool| #[trigger]
                predicate.ensures((&item,), accepted) && if accepted && !old(self).sealed() {
                    &&& submitted is Ok
                    &&& final(self).queued() == old(self).queued().push(item)
                } else {
                    &&& submitted == Err::<(), T>(item)
                    &&& final(self).queued() == old(self).queued()
                },
    {
        if predicate(&item) {
            self.submit(item)
        } else {
            Err(item)
        }
    }

    /// Take the place of the pending notification, or give `item` back once the mailbox is
    /// closed.
    pub fn notify(&mut self, item: T) -> (notified: Result<(), T>)
        ensures
            mailbox_step(
                &*old(self),
                MailboxCall::Notify { item, accepted: notified is Ok },
                &*final(self),
            ),
            final(self).queued() == old(self).queued(),
            final(self).sealed() == old(self).sealed(),
            if old(self).sealed() {
                &&& notified == Err::<(), T>(item)
                &&& final(self).notified() == old(self).notified()
            } else {
                &&& notified is Ok
                &&& final(self).notified() == Some(item)
            },
    {
        if self.closed {
            Err(item)
        } else {
            self.notification = Some(item);
            Ok(())
        }
    }

    /// Accept nothing more.
    pub fn close(&mut self)
        ensures
            mailbox_step(&*old(self), MailboxCall::Close, &*final(self)),
            final(self).sealed(),
            final(self).queued() == old(self).queued(),
            final(self).notified() == old(self).notified(),
    {
        self.closed = true;
    }

    /// Hand over everything accepted, the notification last.
    pub fn snapshot(&mut self) -> (batch: VecDeque<T>)
        ensures
            mailbox_step(&*old(self), MailboxCall::Snapshot { batch: batch@ }, &*final(self)),
            batch@ == old(self).backlog(),
            final(self).is_drained(),
            final(self).backlog() == Seq::<T>::empty(),
            final(self).sealed() == old(self).sealed(),
    {
        let mut batch: VecDeque<T> = VecDeque::new();
        core::mem::swap(&mut self.submissions, &mut batch);
        match self.notification.take() {
            Some(item) => {
                batch.push_back(item);
            },
            None => {},
        }
        batch
    }

    /// Whether the mailbox is closed and everything was handed over.
    pub fn is_terminated(&self) -> (terminated: bool)
        ensures
            terminated == (self.sealed() && self.backlog().len() == 0),
    {
        self.closed && self.submissions.len() == 0 && self.notification.is_none()
    }

    /// Whether the mailbox is closed.
    pub fn is_closed(&self) -> (closed: bool)
        ensures
            closed == self.sealed(),
    {
        self.closed
    }

    /// Hand over the first command, or say that there is none.
    pub fn poll_next(&mut self) -> (next: MailboxPoll<T>)
        ensures
            mailbox_step(&*old(self), MailboxCall::Poll { next }, &*final(self)),
            final(self).sealed() == old(self).sealed(),
            final(self).first_taken(&*old(self)),
            if old(self).backlog().len() > 0 {
                &&& next == MailboxPoll::Ready(old(self).backlog()[0])
                &&& final(self).backlog() == old(self).backlog().drop_first()
            } else {
                &&& next == (if old(self).sealed() {
                    MailboxPoll::<T>::Closed
                } else {
                    MailboxPoll::<T>::Pending
                })
                &&& final(self).backlog() == old(self).backlog()
            },
    {
        match self.submissions.pop_front() {
            Some(item) => {
                assert(self.backlog() =~= old(self).backlog().drop_first());
                MailboxPoll::Ready(item)
            },
            None => match self.notification.take() {
                Some(item) => {
                    assert(self.backlog() =~= old(self).backlog().drop_first());
                    MailboxPoll::Ready(item)
                },
                None => if self.closed {
                    MailboxPoll::Closed
                } else {
                    MailboxPoll::Pending
                },
            },
        }
    }
}

/// `call` takes the mailbox `before` to `after`.
pub open spec fn mailbox_step<T>(
    before: &MailboxState<T>,
    call: MailboxCall<T>,
    after: &MailboxState<T>,
) -> bool {
    match call {
        MailboxCall::Submit { item, accepted } => {
            &&& accepted == !before.sealed()
            &&& after.queued() == (if accepted {
                before.queued().push(item)
            } else {
                before.queued()
            })
            &&& after.notified() == before.notified()
            &&& after.sealed() == before.sealed()
        },
        MailboxCall::Notify { item, accepted } => {
            &&& accepted == !before.sealed()
            &&& after.queued() == before.queued()
            &&& after.notified() == (if accepted {
                Some(item)
            } else {
                before.notified()
            })
            &&& after.sealed() == before.sealed()
        },
        MailboxCall::Poll { next } => {
            &&& next == (if before.backlog().len() > 0 {
                MailboxPoll::Ready(before.backlog()[0])
            } else if before.sealed() {
                MailboxPoll::Closed
            } else {
                MailboxPoll::Pending
            })
            &&& after.first_taken(before)
            &&& after.sealed() == before.sealed()
        },
        MailboxCall::Snapshot { batch } => {
            &&& batch == before.backlog()
            &&& after.is_drained()
            &&& after.sealed() == before.sealed()
        },
        MailboxCall::Close => {
            &&& after.queued() == before.queued()
            &&& after.notified() == before.notified()
            &&& after.sealed()
        },
    }
}

/// `calls` were made one after another on a new mailbox; `states` are the mailbox before each of
/// them and after the last.
pub open spec fn mailbox_run<T>(states: Seq<MailboxState<T>>, calls: Seq<MailboxCall<T>>) -> bool {
    &&& states.len() == calls.len() + 1
    &&& states[0].is_drained()
    &&& !states[0].sealed()
    &&& forall|i: int, j: int|
        #![trigger states[i], states[j]]
        0 <= i < calls.len() && j == i + 1 ==> mailbox_step(&states[i], calls[i], &states[j])
}

/// What `call` submitted.
pub open spec fn accepted_by<T>(call: MailboxCall<T>) -> Seq<T> {
    match call {
        MailboxCall::Submit { item, accepted: true } => seq![item],
        _ => seq![],
    }
}

/// The submissions that `call` hands over out of the mailbox `before`: the first one, or all.
pub open spec fn submissions_handed_over<T>(
    before: &MailboxState<T>,
    call: MailboxCall<T>,
) -> Seq<T> {
    match call {
        MailboxCall::Poll { .. } if before.queued().len() > 0 => seq![before.queued()[0]],
        MailboxCall::Snapshot { .. } => before.queued(),
        _ => seq![],
    }
}

/// The notification that `call` hands over out of the mailbox `before`.
pub open spec fn notice_handed_over<T>(before: &MailboxState<T>, call: MailboxCall<T>) -> Option<
    T,
> {
    match call {
        MailboxCall::Poll { .. } if before.queued().len() == 0 => before.notified(),
        MailboxCall::Snapshot { .. } => before.notified(),
        _ => None,
    }
}

/// Everything that `call` handed over.
pub open spec fn handed_over<T>(call: MailboxCall<T>) -> Seq<T> {
    match call {
        MailboxCall::Poll { next: MailboxPoll::Ready(item) } => seq![item],
        MailboxCall::Snapshot { batch } => batch,
        _ => seq![],
    }
}

/// What was submitted in `calls`, first first.
pub open spec fn accepted<T>(calls: Seq<MailboxCall<T>>) -> Seq<T>
    decreases calls.len(),
{
    if calls.len() == 0 {
        seq![]
    } else {
        accepted(calls.drop_last()) + accepted_by(calls.last())
    }
}

/// The submissions handed over in `calls`, in the order in which they were.
pub open spec fn extracted<T>(states: Seq<MailboxState<T>>, calls: Seq<MailboxCall<T>>) -> Seq<T>
    decreases calls.len(),
{
    if calls.len() == 0 {
        seq![]
    } else {
        extracted(states, calls.drop_last()) + submissions_handed_over(
            &states[calls.len() - 1],
            calls.last(),
        )
    }
}

/// The notification of the call `at` was accepted, and since then it was neither replaced nor
/// handed over.
pub open spec fn notice_stands<T>(
    states: Seq<MailboxState<T>>,
    calls: Seq<MailboxCall<T>>,
    at: int,
) -> bool {
    &&& 0 <= at < calls.len()
    &&& calls[at] matches MailboxCall::Notify { accepted: true, .. }
    &&& forall|later: int|
        at < later < calls.len() ==> !(#[trigger] calls[later] matches MailboxCall::Notify {
            accepted: true,
            ..
        }) && notice_handed_over(&states[later], calls[later]) is None
}

/// At every moment of a mailbox's life, the submissions handed over and those still queued are
/// together the accepted ones, in order and each once. The one notification it holds is the
/// latest accepted since one was handed over. It is open until it is closed.
pub proof fn law_mailbox_holds_what_it_accepted<T>(
    states: Seq<MailboxState<T>>,
    calls: Seq<MailboxCall<T>>,
)
    requires
        mailbox_run(states, calls),
    ensures
        extracted(states, calls) + states.last().queued() == accepted(calls),
        states.last().notified() is Some <==> exists|at: int| notice_stands(states, calls, at),
        forall|at: int| #[trigger]
            notice_stands(states, calls, at) ==> states.last().notified() == Some(
                calls[at]->Notify_item,
            ),
        states.last().sealed() <==> exists|at: int|
            0 <= at < calls.len() && #[trigger] calls[at] is Close,
    decreases calls.len(),
{
    if calls.len() > 0 {
        let n = calls.len() - 1;
        let earlier = states.drop_last();
        let prefix = calls.drop_last();
        let call = calls.last();
        assert(mailbox_run(earlier, prefix));
        law_mailbox_holds_what_it_accepted(earlier, prefix);
        let before = states[n];
        let after = states[n + 1];
        assert(mailbox_step(&before, call, &after));
        lemma_extracted_prefix(states, earlier, prefix);
        assert(extracted(states, calls) + after.queued() =~= accepted(calls));
        assert forall|at: int| 0 <= at < n implies (notice_stands(states, calls, at)
            <==> notice_stands(earlier, prefix, at) && !(call matches MailboxCall::Notify {
            accepted: true,
            ..
        }) && notice_handed_over(&before, call) is None) by {
            if notice_stands(states, calls, at) {
                assert(calls[n] == call);
                assert forall|later: int| at < later < prefix.len() implies !(
                #[trigger] prefix[later] matches MailboxCall::Notify { accepted: true, .. })
                    && notice_handed_over(&earlier[later], prefix[later]) is None by {
                    assert(calls[later] == prefix[later]);
                }
            }
            if notice_stands(earlier, prefix, at) && !(call matches MailboxCall::Notify {
                accepted: true,
                ..
            }) && notice_handed_over(&before, call) is None {
                assert forall|later: int| at < later < calls.len() implies !(
                #[trigger] calls[later] matches MailboxCall::Notify { accepted: true, .. })
                    && notice_handed_over(&states[later], calls[later]) is None by {
                    if later < n {
                        assert(calls[later] == prefix[later]);
                    }
                }
            }
        }
        let noticed = call matches MailboxCall::Notify { accepted: true, .. };
        assert(notice_stands(states, calls, n) <==> noticed);
        if after.notified() is Some {
            if noticed {
                assert(notice_stands(states, calls, n));
            } else {
                let at = choose|at: int| notice_stands(earlier, prefix, at);
                assert(notice_stands(states, calls, at));
            }
        }
        if after.sealed() {
            if call is Close {
                assert(calls[n] is Close);
            } else {
                let at = choose|at: int| 0 <= at < prefix.len() && #[trigger] prefix[at] is Close;
                assert(calls[at] is Close);
            }
        }
        assert forall|at: int| 0 <= at < calls.len() && #[trigger] calls[at] is Close implies
            after.sealed() by {
            if at < n {
                assert(prefix[at] is Close);
            }
        }
    }
}

proof fn lemma_extracted_prefix<T>(
    states: Seq<MailboxState<T>>,
    earlier: Seq<MailboxState<T>>,
    calls: Seq<MailboxCall<T>>,
)
    requires
        calls.len() <= earlier.len() <= states.len(),
        forall|i: int| 0 <= i < earlier.len() ==> states[i] == #[trigger] earlier[i],
    ensures
        extracted(states, calls) == extracted(earlier, calls),
    decreases calls.len(),
{
    if calls.len() > 0 {
        lemma_extracted_prefix(states, earlier, calls.drop_last());
        assert(states[calls.len() - 1] == earlier[calls.len() - 1]);
    }
}

/// What a call hands over: submissions in front, at most one notification behind them.
pub proof fn law_batch_ends_with_the_notification<T>(
    before: &MailboxState<T>,
    call: MailboxCall<T>,
    after: &MailboxState<T>,
)
    requires
        mailbox_step(before, call, after),
    ensures
        handed_over(call) == submissions_handed_over(before, call) + (match notice_handed_over(
            before,
            call,
        ) {
            Some(item) => seq![item],
            None => seq![],
        }),
{
}

/// A second snapshot hands over nothing.
pub proof fn law_second_snapshot_is_empty<T>(
    before: &MailboxState<T>,
    batch: Seq<T>,
    between: &MailboxState<T>,
    second: Seq<T>,
    after: &MailboxState<T>,
)
    requires
        mailbox_step(before, MailboxCall::Snapshot { batch }, between),
        mailbox_step(between, MailboxCall::Snapshot { batch: second }, after),
    ensures
        second == Seq::<T>::empty(),
        after.sealed() == before.sealed(),
{
}

/// An open mailbox takes a submission behind the others; a closed one hands it back and stays as it
/// is.
pub proof fn law_submission_goes_to_the_back<T>(
    mailbox: &mut MailboxState<T>,
    item: T,
    submitted: Result<(), T>,
    i: int,
)
    requires
        call_ensures(MailboxState::<T>::submit, (mailbox, item), submitted),
    ensures
        submitted is Ok <==> !old(mailbox).sealed(),
        submitted matches Err(returned) ==> returned == item && final(mailbox).queued().len()
            == old(mailbox).queued().len(),
        submitted is Ok ==> final(mailbox).queued().len() == old(mailbox).queued().len() + 1
            && final(mailbox).queued()[old(mailbox).queued().len() as int] == item,
        0 <= i < old(mailbox).queued().len() ==> final(mailbox).queued()[i]
            == old(mailbox).queued()[i],
        final(mailbox).notified() == old(mailbox).notified(),
        final(mailbox).sealed() == old(mailbox).sealed(),
{
}

/// A conditional submission is taken exactly by an open mailbox whose condition holds of the item;
/// else the item comes back.
pub proof fn law_conditional_submission_needs_its_condition<T, F: FnOnce(&T) -> bool>(
    mailbox: &mut MailboxState<T>,
    item: T,
    predicate: F,
    submitted: Result<(), T>,
)
    requires
        call_ensures(MailboxState::<T>::submit_if::<F>, (mailbox, item, predicate), submitted),
    ensures
        submitted is Ok ==> predicate.ensures((&item,), true) && !old(mailbox).sealed()
            && final(mailbox).queued().len() == old(mailbox).queued().len() + 1
            && final(mailbox).queued()[old(mailbox).queued().len() as int] == item,
        submitted is Err ==> (old(mailbox).sealed() || predicate.ensures((&item,), false))
            && submitted->Err_0 == item && final(mailbox).queued().len()
            == old(mailbox).queued().len(),
        final(mailbox).notified() == old(mailbox).notified(),
{
}

/// A poll hands out the oldest submission, then the notification, and nothing twice. A mailbox with
/// neither is told closed exactly if it is.
pub proof fn law_poll_takes_the_oldest<T>(mailbox: &mut MailboxState<T>, next: MailboxPoll<T>)
    requires
        call_ensures(MailboxState::<T>::poll_next, (mailbox,), next),
    ensures
        ({
            let before = *old(mailbox);
            let after = *final(mailbox);
            let waiting = before.queued().len();
            &&& waiting > 0 ==> (next matches MailboxPoll::Ready(item) && item
                == before.queued()[0]) && after.queued().len() == waiting - 1 && after.notified()
                == before.notified()
            &&& forall|i: int|
                0 <= i < after.queued().len() ==> #[trigger] after.queued()[i]
                    == before.queued()[i + 1]
            &&& waiting == 0 && before.notified() is Some ==> (next matches MailboxPoll::Ready(item)
                && item == before.notified()->0) && after.notified() is None && after.queued().len()
                == 0
            &&& waiting == 0 && before.notified() is None ==> (next is Closed
                <==> before.sealed()) && !(next is Ready)
            &&& after.sealed() == before.sealed()
        }),
{
}

/// A notification replaces the one that waits, and is lost to no submission; a closed mailbox hands
/// it back.
pub proof fn law_notification_is_the_latest<T>(
    mailbox: &mut MailboxState<T>,
    item: T,
    notified: Result<(), T>,
)
    requires
        call_ensures(MailboxState::<T>::notify, (mailbox, item), notified),
    ensures
        notified is Ok <==> !old(mailbox).sealed(),
        notified is Ok ==> final(mailbox).notified() is Some && final(mailbox).notified()->0
            == item,
        notified matches Err(returned) ==> returned == item && final(mailbox).notified()
            == old(mailbox).notified(),
        final(mailbox).queued() == old(mailbox).queued(),
{
}

/// A snapshot takes every submission in order and the notification last, and leaves nothing.
pub proof fn law_snapshot_takes_everything<T>(
    mailbox: &mut MailboxState<T>,
    batch: VecDeque<T>,
    i: int,
)
    requires
        call_ensures(MailboxState::<T>::snapshot, (mailbox,), batch),
    ensures
        ({
            let waiting = old(mailbox).queued().len();
            &&& batch@.len() == waiting + (if old(mailbox).notified() is Some {
                1nat
            } else {
                0
            })
            &&& 0 <= i < waiting ==> batch@[i] == old(mailbox).queued()[i]
            &&& old(mailbox).notified() matches Some(item) ==> batch@[waiting as int] == item
            &&& final(mailbox).queued().len() == 0
            &&& final(mailbox).notified() is None
            &&& final(mailbox).sealed() == old(mailbox).sealed()
        }),
{
}

/// Closing loses nothing: what waits can still be taken, and the mailbox has ended exactly once it
/// is closed and empty.
pub proof fn law_closing_keeps_what_waits<T>(
    mailbox: &mut MailboxState<T>,
    closed: (),
    observed: MailboxState<T>,
    terminated: bool,
    shut: bool,
)
    requires
        call_ensures(MailboxState::<T>::close, (mailbox,), closed),
        call_ensures(MailboxState::<T>::is_terminated, (&observed,), terminated),
        call_ensures(MailboxState::<T>::is_closed, (&observed,), shut),
    ensures
        final(mailbox).sealed(),
        final(mailbox).queued() == old(mailbox).queued(),
        final(mailbox).notified() == old(mailbox).notified(),
        terminated <==> observed.sealed() && observed.queued().len() == 0 && observed.notified()
            is None,
        shut <==> observed.sealed(),
{
}

} // verus!

//! The worker that sends one peer's transfers.
//!
//! A worker takes in the commands of its mailbox, picks the next head of its lanes, sends one
//! frame of it, and puts it back to wait for the delivery. At its end it cancels every transfer it
//! owns: the one being sent, those in its lanes, and those still in its mailbox.

use std::collections::VecDeque;
use vstd::prelude::*;

use crate::admission::AdmissionPhase;
use crate::admission::DetachedAdmission;
use crate::capacity::TransferCapacityPermit;
use crate::class::OutboundCompletion;
use crate::class::SendCompletionOutcome;
use crate::class::TransferClass;
use crate::delivery::ChunkSendCancelReason;
use crate::delivery::ChunkSendProgress;
use crate::error::Error;
use crate::mailbox::MailboxPoll;
use crate::mailbox::MailboxState;
use crate::measurement::OutboundMeasurement;
use crate::protection::ProtectionProfile;
use crate::queue::LaneModel;
use crate::queue::LanesModel;
use crate::queue::RunnableTransfer;
use crate::queue::TransferLaneState;
use crate::queue::TransferQueues;
use crate::queue::lemma_swept;
use crate::transfer::FinalTransferResult;
use crate::transfer::OutboundFrame;
use crate::transfer::OutboundTransfer;
use crate::transfer::OutboundTransferRoute;
use crate::transfer::ScheduledTransfer;
use crate::transfer::SendResult;
use crate::transfer::StopReading;
use crate::transfer::WorkerEffects;
use crate::transfer::reports_once;
use crate::transfer::with_report;

verus! {

/// How far apart the transfer numbers of two workers of one peer are.
pub const WORKER_ID_STRIDE: u64 = 4_294_967_296;

/// One command of a worker's mailbox.
pub enum OutboundCommand<B> {
    /// Send a transfer, unless it was told to stop.
    Submit(ScheduledTransfer<B>),
    /// Cancel every queued transfer that was told to stop.
    CancelStopped,
}

/// A transfer in a lane, under its number.
pub struct QueuedTransfer<B> {
    /// Its number.
    pub id: u64,
    /// The transfer.
    pub scheduled: ScheduledTransfer<B>,
}

/// Whether the end of a transfer counts as a served frame.
#[derive(Clone, Copy, Debug, PartialEq, Eq, Hash, Structural)]
pub enum TerminationFairness {
    /// Its frame was counted already.
    AlreadyAdvanced,
    /// The failed attempt counts.
    AdvanceFailedAttempt,
}

/// The first transfer number of the `worker`th worker: ranges of two workers do not meet.
pub fn worker_transfer_id_base(worker: u64) -> (base: u64)
    ensures
        base == (if worker * WORKER_ID_STRIDE <= u64::MAX {
            worker * WORKER_ID_STRIDE
        } else {
            u64::MAX as int
        }),
{
    match worker.checked_mul(WORKER_ID_STRIDE) {
        Some(base) => base,
        None => u64::MAX,
    }
}

/// Workers get disjoint ranges of transfer numbers, as long as the numbers last.
pub proof fn law_workers_number_transfers_apart(first: u64, second: u64)
    requires
        first < second,
        second * WORKER_ID_STRIDE <= u64::MAX,
    ensures
        second * WORKER_ID_STRIDE - first * WORKER_ID_STRIDE >= WORKER_ID_STRIDE,
{
    assert(second * WORKER_ID_STRIDE >= (first + 1) * WORKER_ID_STRIDE) by (nonlinear_arith)
        requires
            first + 1 <= second,
    ;
}

/// What a cancellation before or after the first frame comes to.
pub open spec fn cancelled_result(
    before_first_frame: bool,
    reason: ChunkSendCancelReason,
) -> SendResult {
    if before_first_frame {
        match reason.initial_outcome() {
            Ok(()) => Ok(SendCompletionOutcome::Cancelled),
            Err(error) => Err(error),
        }
    } else {
        Ok(SendCompletionOutcome::Cancelled)
    }
}

/// What a cancellation before or after the first frame comes to.
pub fn resolve_cancelled_transfer(before_first_frame: bool, reason: ChunkSendCancelReason) -> (result:
    SendResult)
    ensures
        result == cancelled_result(before_first_frame, reason),
{
    if before_first_frame {
        match reason.resolve_initial() {
            Ok(()) => Ok(SendCompletionOutcome::Cancelled),
            Err(error) => Err(error),
        }
    } else {
        Ok(SendCompletionOutcome::Cancelled)
    }
}

/// The capacity the transfers hold.
pub open spec fn permits_of<B>(items: Seq<ScheduledTransfer<B>>) -> Seq<TransferCapacityPermit> {
    items.map_values(|scheduled: ScheduledTransfer<B>| scheduled.capacity_permit)
}

/// `results` and the reports of the transfers, cancelled in turn.
pub open spec fn cancelled_reports<B>(
    results: Seq<FinalTransferResult>,
    items: Seq<ScheduledTransfer<B>>,
) -> Seq<FinalTransferResult>
    decreases items.len(),
{
    if items.len() == 0 {
        results
    } else {
        with_report(
            cancelled_reports(results, items.drop_last()),
            items.last().transfer.completion.report(Ok(SendCompletionOutcome::Cancelled)),
        )
    }
}

/// The transfers without their numbers.
pub open spec fn unnumbered<B>(items: Seq<QueuedTransfer<B>>) -> Seq<ScheduledTransfer<B>> {
    items.map_values(|queued: QueuedTransfer<B>| queued.scheduled)
}

/// The transfers that `commands` submit, in order.
pub open spec fn submitted<B>(commands: Seq<OutboundCommand<B>>) -> Seq<ScheduledTransfer<B>>
    decreases commands.len(),
{
    if commands.len() == 0 {
        Seq::empty()
    } else {
        match commands.last() {
            OutboundCommand::Submit(scheduled) => submitted(commands.drop_last()).push(scheduled),
            OutboundCommand::CancelStopped => submitted(commands.drop_last()),
        }
    }
}

/// What commands change: the lanes, the next number, and what is given back and reported.
#[verifier::ext_equal]
pub struct Handled<B> {
    /// The lanes.
    pub lanes: LanesModel<QueuedTransfer<B>>,
    /// The number the next transfer gets.
    pub next_id: u64,
    /// The capacity given back.
    pub released: Seq<TransferCapacityPermit>,
    /// The results reported.
    pub results: Seq<FinalTransferResult>,
}

impl<B> Handled<B> {
    /// One command further: a stopped submission is cancelled on arrival, any other joins the
    /// lane of its class, and a scan cancels every stopped transfer that waits for no delivery.
    pub open spec fn after(self, command: OutboundCommand<B>, stops: &StopReading) -> Handled<B> {
        match command {
            OutboundCommand::Submit(scheduled) => if scheduled.transfer.stopped(stops) {
                Handled {
                    released: self.released.push(scheduled.capacity_permit),
                    results: with_report(
                        self.results,
                        scheduled.transfer.completion.report(Ok(SendCompletionOutcome::Cancelled)),
                    ),
                    ..self
                }
            } else {
                let class = scheduled.transfer.route.class;
                Handled {
                    lanes: self.lanes.with(
                        class,
                        self.lanes.lane(class).enqueued(
                            QueuedTransfer { id: self.next_id, scheduled },
                        ),
                    ),
                    next_id: if self.next_id < u64::MAX {
                        (self.next_id + 1) as u64
                    } else {
                        self.next_id
                    },
                    ..self
                }
            },
            OutboundCommand::CancelStopped => {
                let stopped = |queued: QueuedTransfer<B>| queued.scheduled.transfer.stopped(stops);
                let cancelled = unnumbered(self.lanes.ready_where(stopped));
                Handled {
                    lanes: self.lanes.swept(stopped),
                    released: self.released + permits_of(cancelled),
                    results: cancelled_reports(self.results, cancelled),
                    ..self
                }
            },
        }
    }

    /// `commands` further.
    pub open spec fn after_all(
        self,
        commands: Seq<OutboundCommand<B>>,
        stops: &StopReading,
    ) -> Handled<B>
        decreases commands.len(),
    {
        if commands.len() == 0 {
            self
        } else {
            self.after_all(commands.drop_last(), stops).after(commands.last(), stops)
        }
    }
}

/// Cancel every transfer of `items` in turn.
fn cancel_all<B>(effects: &mut WorkerEffects, items: Vec<ScheduledTransfer<B>>)
    ensures
        final(effects).released@ == old(effects).released@ + permits_of(items@),
        final(effects).results@ == cancelled_reports(old(effects).results@, items@),
        final(effects).measurements@ == old(effects).measurements@,
{
    let ghost all = items@;
    let mut items = items;
    let ghost mut done: int = 0;
    assert(all.skip(0) =~= all);
    assert(effects.released@ =~= old(effects).released@ + permits_of(all.take(0)));
    while items.len() > 0
        invariant
            0 <= done <= all.len(),
            items@ == all.skip(done),
            effects.released@ == old(effects).released@ + permits_of(all.take(done)),
            effects.results@ == cancelled_reports(old(effects).results@, all.take(done)),
            effects.measurements@ == old(effects).measurements@,
        decreases items@.len(),
    {
        let item = items.remove(0);
        proof {
            assert(item == all[done]);
            assert(all.take(done + 1).drop_last() =~= all.take(done));
            assert(all.take(done + 1).last() == item);
            assert(permits_of(all.take(done + 1)) =~= permits_of(all.take(done)).push(
                item.capacity_permit,
            ));
        }
        let ghost released = effects.released@;
        effects.cancel(item);
        proof {
            done = done + 1;
            assert(items@ =~= all.skip(done));
            assert(effects.released@ =~= old(effects).released@ + permits_of(all.take(done)));
        }
    }
    assert(all.take(done) =~= all);
}

/// Take the numbers off the transfers.
fn take_numbers_off<B>(items: Vec<QueuedTransfer<B>>) -> (scheduled: Vec<ScheduledTransfer<B>>)
    ensures
        scheduled@ == unnumbered(items@),
{
    let ghost all = items@;
    let mut items = items;
    let mut scheduled: Vec<ScheduledTransfer<B>> = Vec::new();
    let ghost mut done: int = 0;
    assert(all.skip(0) =~= all);
    assert(scheduled@ =~= unnumbered(all.take(0)));
    while items.len() > 0
        invariant
            0 <= done <= all.len(),
            items@ == all.skip(done),
            scheduled@ == unnumbered(all.take(done)),
        decreases items@.len(),
    {
        let item = items.remove(0);
        proof {
            assert(item == all[done]);
        }
        scheduled.push(item.scheduled);
        proof {
            done = done + 1;
            assert(items@ =~= all.skip(done));
            assert(scheduled@ =~= unnumbered(all.take(done)));
        }
    }
    assert(all.take(done) =~= all);
    scheduled
}

/// What the next frame of the active transfer comes to.
pub enum ActiveFrameStep<B> {
    /// The transfer was told to stop.
    Stopped,
    /// Every frame was sent.
    Complete,
    /// Send this frame.
    Send { class: TransferClass, before_first_frame: bool, frame: OutboundFrame<B> },
}

/// What a worker does next.
pub enum WorkerStep<B> {
    /// It is over.
    Exit,
    /// It sends this frame and says what became of it.
    Send { class: TransferClass, before_first_frame: bool, frame: OutboundFrame<B> },
    /// It looks again.
    Continue,
    /// It waits for a command or a delivery.
    WaitForInput,
}

/// What an idle worker found in its mailbox.
#[derive(Clone, Copy, Debug, PartialEq, Eq, Hash, Structural)]
pub enum InputStep {
    /// One command was handled.
    Handled,
    /// Nothing yet.
    Pending,
    /// Nothing, and nothing will come.
    Closed,
}

/// The worker of one peer.
pub struct OutboundWorker<B> {
    receiver: MailboxState<OutboundCommand<B>>,
    ready: TransferQueues<QueuedTransfer<B>>,
    active: Option<RunnableTransfer<QueuedTransfer<B>>>,
    next_id: u64,
    stop: bool,
    input_closed: bool,
    shutdown_complete: bool,
}

impl<B> OutboundWorker<B> {
    /// The commands that were not handled yet.
    pub closed spec fn inbox(&self) -> MailboxState<OutboundCommand<B>> {
        self.receiver
    }

    /// The lanes and their turns.
    pub closed spec fn queues(&self) -> TransferQueues<QueuedTransfer<B>> {
        self.ready
    }

    /// The transfer being sent.
    pub closed spec fn sending(&self) -> Option<RunnableTransfer<QueuedTransfer<B>>> {
        self.active
    }

    /// The number the next transfer gets.
    pub closed spec fn number_to_give(&self) -> u64 {
        self.next_id
    }

    /// The worker was told to stop.
    pub closed spec fn stopping(&self) -> bool {
        self.stop
    }

    /// No command will come any more.
    pub closed spec fn input_over(&self) -> bool {
        self.input_closed
    }

    /// The worker has cancelled everything it owned.
    pub closed spec fn finished(&self) -> bool {
        self.shutdown_complete
    }

    /// The lanes.
    pub open spec fn lanes(&self) -> LanesModel<QueuedTransfer<B>> {
        self.queues().lanes()
    }

    /// The lane of the transfer being sent has no head, and a lane without a head has nobody
    /// waiting, unless its head is being sent.
    pub open spec fn wf(&self) -> bool {
        &&& self.queues().wf()
        &&& self.sending() is Some ==> self.queues().lane_model(self.sending()->0.lane()).head
            is Idle
        &&& heads_in_place(self.queues(), self.sending())
    }

    /// `self` differs from `before` at most in its lanes and their turns.
    pub open spec fn same_but_queues(&self, before: &Self) -> bool {
        &&& self.inbox() == before.inbox()
        &&& self.sending() == before.sending()
        &&& self.number_to_give() == before.number_to_give()
        &&& self.stopping() == before.stopping()
        &&& self.input_over() == before.input_over()
        &&& self.finished() == before.finished()
    }

    /// What commands change, as it stands.
    pub open spec fn standing(&self, effects: &WorkerEffects) -> Handled<B> {
        Handled {
            lanes: self.lanes(),
            next_id: self.number_to_give(),
            released: effects.released@,
            results: effects.results@,
        }
    }

    /// Every transfer the worker owns outside its mailbox: the one being sent, then its lanes.
    pub open spec fn owned(&self) -> Seq<ScheduledTransfer<B>> {
        (match self.sending() {
            Some(runnable) => seq![runnable.value().scheduled],
            None => Seq::empty(),
        }) + unnumbered(self.lanes().owned())
    }

    /// A worker with nothing to do, which numbers its transfers from `next_id` on.
    pub fn new(next_id: u64, profile: ProtectionProfile) -> (worker: Self)
        ensures
            worker.wf(),
            worker.queues().is_fresh(profile.bounded_control_burst),
            worker.lanes() == LanesModel::<QueuedTransfer<B>>::empty(),
            worker.sending() is None,
            worker.inbox().backlog() == Seq::<OutboundCommand<B>>::empty(),
            !worker.inbox().sealed(),
            worker.number_to_give() == next_id,
            !worker.stopping(),
            !worker.input_over(),
            !worker.finished(),
    {
        OutboundWorker {
            receiver: MailboxState::new(),
            ready: TransferQueues::with_profile(profile),
            active: None,
            next_id,
            stop: false,
            input_closed: false,
            shutdown_complete: false,
        }
    }

    /// Whether the worker was told to stop.
    pub fn is_stopping(&self) -> (stopping: bool)
        ensures
            stopping == self.stopping(),
    {
        self.stop
    }

    /// Whether the worker has cancelled everything it owned.
    pub fn is_finished(&self) -> (finished: bool)
        ensures
            finished == self.finished(),
    {
        self.shutdown_complete
    }

    /// Tell the worker to stop and close its mailbox.
    pub fn request_shutdown(&mut self)
        requires
            old(self).wf(),
        ensures
            final(self).wf(),
            final(self).stopping(),
            final(self).inbox().sealed(),
            final(self).inbox().queued() == old(self).inbox().queued(),
            final(self).inbox().notified() == old(self).inbox().notified(),
            final(self).queues() == old(self).queues(),
            final(self).sending() == old(self).sending(),
            final(self).number_to_give() == old(self).number_to_give(),
            final(self).input_over() == old(self).input_over(),
            final(self).finished() == old(self).finished(),
    {
        self.stop = true;
        self.receiver.close();
    }

    /// Put a transfer into the mailbox: refused once the worker was told to stop or its mailbox
    /// is closed, and given back if the transfer was told to stop.
    pub fn submit(&mut self, scheduled: ScheduledTransfer<B>, stops: &StopReading) -> (submitted: Result<
        (),
        (ScheduledTransfer<B>, Option<Error>),
    >)
        requires
            old(self).wf(),
        ensures
            final(self).wf(),
            final(self).queues() == old(self).queues(),
            final(self).sending() == old(self).sending(),
            final(self).number_to_give() == old(self).number_to_give(),
            final(self).stopping() == old(self).stopping(),
            final(self).input_over() == old(self).input_over(),
            final(self).finished() == old(self).finished(),
            if old(self).stopping() || (old(self).inbox().sealed() && !scheduled.transfer.stopped(
                stops,
            )) {
                &&& submitted == Err::<(), (ScheduledTransfer<B>, Option<Error>)>(
                    (scheduled, Some(Error::ChannelSendMessageFailed)),
                )
                &&& final(self).inbox().queued() == old(self).inbox().queued()
            } else if scheduled.transfer.stopped(stops) {
                &&& submitted == Err::<(), (ScheduledTransfer<B>, Option<Error>)>(
                    (scheduled, None),
                )
                &&& final(self).inbox().queued() == old(self).inbox().queued()
            } else {
                &&& submitted is Ok
                &&& final(self).inbox().queued() == old(self).inbox().queued().push(
                    OutboundCommand::Submit(scheduled),
                )
            },
            final(self).inbox().notified() == old(self).inbox().notified(),
            final(self).inbox().sealed() == old(self).inbox().sealed(),
    {
        if self.stop {
            return Err((scheduled, Some(Error::ChannelSendMessageFailed)));
        }
        if scheduled.transfer.is_stopped(stops) {
            return Err((scheduled, None));
        }
        match self.receiver.submit(OutboundCommand::Submit(scheduled)) {
            Ok(()) => Ok(()),
            Err(OutboundCommand::Submit(scheduled)) => Err(
                (scheduled, Some(Error::ChannelSendMessageFailed)),
            ),
            Err(OutboundCommand::CancelStopped) => Ok(()),
        }
    }

    /// Ask for a scan for stopped transfers; scans that were not made yet count as one.
    pub fn cancel_stopped(&mut self) -> (asked: bool)
        requires
            old(self).wf(),
        ensures
            final(self).wf(),
            asked == !old(self).inbox().sealed(),
            final(self).inbox().queued() == old(self).inbox().queued(),
            final(self).inbox().sealed() == old(self).inbox().sealed(),
            final(self).inbox().notified() == (if asked {
                Some(OutboundCommand::<B>::CancelStopped)
            } else {
                old(self).inbox().notified()
            }),
            final(self).queues() == old(self).queues(),
            final(self).sending() == old(self).sending(),
            final(self).number_to_give() == old(self).number_to_give(),
            final(self).stopping() == old(self).stopping(),
            final(self).input_over() == old(self).input_over(),
            final(self).finished() == old(self).finished(),
    {
        self.receiver.notify(OutboundCommand::CancelStopped).is_ok()
    }

    /// Give a transfer its number and put it last in the lane of its class.
    pub fn enqueue_transfer(&mut self, scheduled: ScheduledTransfer<B>)
        requires
            old(self).wf(),
            old(self).sending() is None,
        ensures
            final(self).wf(),
            ({
                let class = scheduled.transfer.route.class;
                final(self).lanes() == old(self).lanes().with(
                    class,
                    old(self).lanes().lane(class).enqueued(
                        QueuedTransfer { id: old(self).number_to_give(), scheduled },
                    ),
                )
            }),
            final(self).number_to_give() == (if old(self).number_to_give() < u64::MAX {
                (old(self).number_to_give() + 1) as u64
            } else {
                old(self).number_to_give()
            }),
            final(self).queues().same_turns(&old(self).queues()),
            final(self).inbox() == old(self).inbox(),
            final(self).sending() is None,
            final(self).stopping() == old(self).stopping(),
            final(self).input_over() == old(self).input_over(),
            final(self).finished() == old(self).finished(),
    {
        let id: u64 = self.next_id;
        self.next_id = self.next_id.saturating_add(1);
        let class = scheduled.transfer.class();
        self.ready.push(class, QueuedTransfer { id, scheduled });
        proof {
            let queued = QueuedTransfer { id, scheduled };
            assert(self.lanes() =~= old(self).lanes().with(
                class,
                old(self).lanes().lane(class).enqueued(queued),
            ));
        }
    }

    /// Handle one command.
    fn handle_command(
        &mut self,
        command: OutboundCommand<B>,
        stops: &StopReading,
        effects: &mut WorkerEffects,
    )
        requires
            old(self).wf(),
            old(self).sending() is None,
        ensures
            final(self).wf(),
            final(self).sending() is None,
            final(self).standing(&*final(effects)) == old(self).standing(&*old(effects)).after(
                command,
                stops,
            ),
            final(self).queues().same_turns(&old(self).queues()),
            final(self).inbox() == old(self).inbox(),
            final(self).stopping() == old(self).stopping(),
            final(self).input_over() == old(self).input_over(),
            final(self).finished() == old(self).finished(),
            final(effects).measurements@ == old(effects).measurements@,
    {
        match command {
            OutboundCommand::Submit(scheduled) => {
                if scheduled.transfer.is_stopped(stops) {
                    effects.cancel(scheduled);
                } else {
                    self.enqueue_transfer(scheduled);
                }
            },
            OutboundCommand::CancelStopped => {
                let predicate = |queued: &QueuedTransfer<B>| -> (stopped: bool)
                    ensures
                        stopped == queued.scheduled.transfer.stopped(stops),
                    { queued.scheduled.transfer.is_stopped(stops) };
                let ghost before = self.ready;
                let removed = self.ready.remove_ready_where(predicate);
                proof {
                    let stopped = |queued: QueuedTransfer<B>|
                        queued.scheduled.transfer.stopped(stops);
                    lemma_swept(predicate, stopped, &before, &self.ready, removed@);
                    lemma_sweep_keeps_heads(before.lanes(), stopped);
                    assert forall|class: TransferClass| #[trigger]
                        self.ready.lane_model(class).head is Idle implies self.ready.lane_model(
                        class,
                    ).queued.len() == 0 by {
                        assert(self.ready.lane_model(class) == self.ready.lanes().lane(class));
                        assert(before.lane_model(class) == before.lanes().lane(class));
                    }
                }
                let scheduled = take_numbers_off(removed);
                cancel_all(effects, scheduled);
            },
        }
    }

    /// Handle a batch of commands; a worker that was told to stop then ends.
    pub fn handle_commands(
        &mut self,
        commands: VecDeque<OutboundCommand<B>>,
        stops: &StopReading,
        effects: &mut WorkerEffects,
    )
        requires
            old(self).wf(),
            old(self).sending() is None,
            !old(self).finished(),
        ensures
            final(self).wf(),
            final(self).sending() is None,
            final(effects).measurements@ == old(effects).measurements@,
            final(self).stopping() == old(self).stopping(),
            ({
                let handled = old(self).standing(&*old(effects)).after_all(commands@, stops);
                if old(self).stopping() {
                    let cancelled = unnumbered(handled.lanes.owned()) + submitted(
                        old(self).inbox().backlog(),
                    );
                    &&& final(self).lanes() == LanesModel::<QueuedTransfer<B>>::empty()
                    &&& final(effects).released@ == handled.released + permits_of(cancelled)
                    &&& final(effects).results@ == cancelled_reports(handled.results, cancelled)
                    &&& final(self).finished()
                    &&& final(self).input_over()
                    &&& final(self).inbox().sealed()
                    &&& final(self).inbox().backlog() == Seq::<OutboundCommand<B>>::empty()
                } else {
                    &&& final(self).standing(&*final(effects)) == handled
                    &&& final(self).queues().same_turns(&old(self).queues())
                    &&& final(self).inbox() == old(self).inbox()
                    &&& final(self).input_over() == old(self).input_over()
                    &&& !final(self).finished()
                }
            }),
    {
        let ghost all = commands@;
        let ghost start = self.standing(&*effects);
        let mut commands = commands;
        let ghost mut done: int = 0;
        assert(all.skip(0) =~= all);
        loop
            invariant
                self.wf(),
                self.sending() is None,
                0 <= done <= all.len(),
                commands@ == all.skip(done),
                self.standing(&*effects) == start.after_all(all.take(done), stops),
                self.queues().same_turns(&old(self).queues()),
                self.inbox() == old(self).inbox(),
                self.stopping() == old(self).stopping(),
                self.input_over() == old(self).input_over(),
                !self.finished(),
                effects.measurements@ == old(effects).measurements@,
            ensures
                self.wf(),
                self.sending() is None,
                self.standing(&*effects) == start.after_all(all, stops),
                self.queues().same_turns(&old(self).queues()),
                self.inbox() == old(self).inbox(),
                self.stopping() == old(self).stopping(),
                self.input_over() == old(self).input_over(),
                !self.finished(),
                effects.measurements@ == old(effects).measurements@,
            decreases commands@.len(),
        {
            match commands.pop_front() {
                Some(command) => {
                    proof {
                        assert(command == all[done]);
                        assert(all.take(done + 1).drop_last() =~= all.take(done));
                        assert(all.take(done + 1).last() == command);
                    }
                    self.handle_command(command, stops, effects);
                    proof {
                        done = done + 1;
                        assert(commands@ =~= all.skip(done));
                    }
                },
                None => {
                    proof {
                        assert(all.take(done) =~= all);
                    }
                    break ;
                },
            }
        }
        if self.stop {
            self.shutdown_with_results(effects);
            proof {
                let handled = start.after_all(all, stops);
                assert(Seq::<ScheduledTransfer<B>>::empty() + unnumbered(handled.lanes.owned())
                    =~= unnumbered(handled.lanes.owned()));
            }
        }
    }

    /// Take in everything the mailbox holds.
    pub fn drain_available(&mut self, stops: &StopReading, effects: &mut WorkerEffects)
        requires
            old(self).wf(),
            old(self).sending() is None,
            !old(self).finished(),
            !old(self).stopping(),
        ensures
            final(self).wf(),
            final(self).sending() is None,
            final(self).standing(&*final(effects)) == old(self).standing(&*old(effects)).after_all(
                old(self).inbox().backlog(),
                stops,
            ),
            final(self).inbox().backlog() == Seq::<OutboundCommand<B>>::empty(),
            final(self).inbox().sealed() == old(self).inbox().sealed(),
            final(self).input_over() == old(self).inbox().sealed(),
            final(self).queues().same_turns(&old(self).queues()),
            !final(self).stopping(),
            !final(self).finished(),
            final(effects).measurements@ == old(effects).measurements@,
    {
        let commands = self.receiver.snapshot();
        self.handle_commands(commands, stops, effects);
        self.input_closed = self.receiver.is_terminated();
    }

    /// End a transfer that was taken out of its lane.
    fn terminate_transfer(
        &mut self,
        transfer: RunnableTransfer<QueuedTransfer<B>>,
        result: SendResult,
        fairness: TerminationFairness,
        effects: &mut WorkerEffects,
    )
        requires
            old(self).queues().wf(),
            old(self).sending() is None,
            old(self).queues().lane_model(transfer.lane()).head is Idle,
            heads_in_place(old(self).queues(), Some(transfer)),
        ensures
            final(self).wf(),
            final(self).same_but_queues(old(self)),
            final(self).lanes() == old(self).lanes().with(
                transfer.lane(),
                old(self).lanes().lane(transfer.lane()).finished(),
            ),
            match fairness {
                TerminationFairness::AlreadyAdvanced => final(self).queues().same_turns(
                    &old(self).queues(),
                ),
                TerminationFairness::AdvanceFailedAttempt => final(self).queues().turn_taken(
                    &old(self).queues(),
                    transfer.lane(),
                ),
            },
            final(effects).ended(&*old(effects), transfer.value().scheduled, result),
    {
        let ghost class = transfer.lane();
        let queued = match fairness {
            TerminationFairness::AlreadyAdvanced => self.ready.finish_transfer(transfer),
            TerminationFairness::AdvanceFailedAttempt => self.ready.fail_attempt(transfer),
        };
        proof {
            assert(self.lanes() =~= old(self).lanes().with(
                class,
                old(self).lanes().lane(class).finished(),
            ));
        }
        effects.finalize(queued.scheduled, result);
    }

    /// End a transfer that failed, measuring a failure that counts against the peer.
    fn fail_transfer(
        &mut self,
        transfer: RunnableTransfer<QueuedTransfer<B>>,
        error: Error,
        fairness: TerminationFairness,
        effects: &mut WorkerEffects,
    )
        requires
            old(self).queues().wf(),
            old(self).sending() is None,
            old(self).queues().lane_model(transfer.lane()).head is Idle,
            heads_in_place(old(self).queues(), Some(transfer)),
        ensures
            final(self).wf(),
            final(self).same_but_queues(old(self)),
            final(self).lanes() == old(self).lanes().with(
                transfer.lane(),
                old(self).lanes().lane(transfer.lane()).finished(),
            ),
            match fairness {
                TerminationFairness::AlreadyAdvanced => final(self).queues().same_turns(
                    &old(self).queues(),
                ),
                TerminationFairness::AdvanceFailedAttempt => final(self).queues().turn_taken(
                    &old(self).queues(),
                    transfer.lane(),
                ),
            },
            ended_measured(
                &*old(effects),
                &*final(effects),
                transfer.value().scheduled,
                Err(error),
                error.peer_failure(),
            ),
    {
        let record_failure = error.records_peer_send_failure();
        self.terminate_transfer(transfer, Err(error), fairness, effects);
        if record_failure {
            effects.measurements.push(OutboundMeasurement::FailedToSend);
        }
    }

    /// Handle the end of a delivery; says whether a head waited for it.
    pub fn handle_delivery(
        &mut self,
        id: u64,
        class: TransferClass,
        result: ChunkSendProgress<Result<(), Error>>,
        effects: &mut WorkerEffects,
    ) -> (found: bool)
        requires
            old(self).wf(),
            old(self).sending() is None,
        ensures
            final(self).wf(),
            final(self).same_but_queues(old(self)),
            final(self).queues().same_turns(&old(self).queues()),
            found == old(self).lanes().lane(class).waits_for(id),
            if found {
                let lane = old(self).lanes().lane(class);
                let waiting = lane.head->item;
                match result {
                    ChunkSendProgress::Ready(Ok(())) => {
                        &&& final(self).lanes() == old(self).lanes().with(
                            class,
                            LaneModel {
                                head: TransferLaneState::Runnable(waiting),
                                queued: lane.queued,
                            },
                        )
                        &&& *final(effects) == *old(effects)
                    },
                    ChunkSendProgress::Ready(Err(error)) => {
                        &&& final(self).lanes() == old(self).lanes().with(class, lane.finished())
                        &&& ended_measured(
                            &*old(effects),
                            &*final(effects),
                            waiting.scheduled,
                            Err(error),
                            error.peer_failure(),
                        )
                    },
                    ChunkSendProgress::Cancelled(reason) => {
                        &&& final(self).lanes() == old(self).lanes().with(class, lane.finished())
                        &&& ended_measured(
                            &*old(effects),
                            &*final(effects),
                            waiting.scheduled,
                            Ok(SendCompletionOutcome::Cancelled),
                            reason.peer_failure(),
                        )
                    },
                }
            } else {
                &&& final(self).lanes() == old(self).lanes()
                &&& *final(effects) == *old(effects)
            },
    {
        let transfer = match self.ready.take_waiting(class, id) {
            Some(transfer) => transfer,
            None => {
                proof {
                    assert(self.lanes() =~= old(self).lanes());
                }
                return false;
            },
        };
        proof {
            assert(self.lanes() =~= old(self).lanes().with(
                class,
                old(self).lanes().lane(class).headless(),
            ));
            assert(old(self).lanes().with(class, old(self).lanes().lane(class).headless()).lane(
                class,
            ).finished() == old(self).lanes().lane(class).finished());
        }
        match result {
            ChunkSendProgress::Ready(Ok(())) => {
                self.ready.make_runnable(transfer);
                proof {
                    let lane = old(self).lanes().lane(class);
                    assert(self.lanes() =~= old(self).lanes().with(
                        class,
                        LaneModel {
                            head: TransferLaneState::Runnable(lane.head->item),
                            queued: lane.queued,
                        },
                    ));
                }
            },
            ChunkSendProgress::Ready(Err(error)) => {
                self.fail_transfer(
                    transfer,
                    error,
                    TerminationFairness::AlreadyAdvanced,
                    effects,
                );
                proof {
                    assert(self.lanes() =~= old(self).lanes().with(
                        class,
                        old(self).lanes().lane(class).finished(),
                    ));
                }
            },
            ChunkSendProgress::Cancelled(reason) => {
                let record_failure = reason.records_peer_failure();
                self.terminate_transfer(
                    transfer,
                    Ok(SendCompletionOutcome::Cancelled),
                    TerminationFairness::AlreadyAdvanced,
                    effects,
                );
                if record_failure {
                    effects.measurements.push(OutboundMeasurement::FailedToSend);
                }
                proof {
                    assert(self.lanes() =~= old(self).lanes().with(
                        class,
                        old(self).lanes().lane(class).finished(),
                    ));
                }
            },
        }
        true
    }

    /// End the worker: cancel every transfer it owns.
    pub fn shutdown(&mut self, effects: &mut WorkerEffects)
        requires
            old(self).wf(),
        ensures
            final(self).wf(),
            final(self).finished(),
            old(self).finished() ==> *final(self) == *old(self) && *final(effects)
                == *old(effects),
            !old(self).finished() ==> shut_down(
                &*old(self),
                &*final(self),
                &*old(effects),
                &*final(effects),
            ),
    {
        self.shutdown_with_results(effects);
    }

    fn shutdown_with_results(&mut self, effects: &mut WorkerEffects)
        requires
            old(self).queues().wf(),
        ensures
            final(self).finished(),
            old(self).finished() ==> *final(self) == *old(self) && *final(effects)
                == *old(effects),
            !old(self).finished() ==> final(self).wf(),
            !old(self).finished() ==> shut_down(
                &*old(self),
                &*final(self),
                &*old(effects),
                &*final(effects),
            ),
    {
        if self.shutdown_complete {
            return;
        }
        self.shutdown_complete = true;
        self.stop = true;
        self.receiver.close();
        let ghost before = *self;
        let mut batch: Vec<ScheduledTransfer<B>> = Vec::new();
        match self.active.take() {
            Some(runnable) => {
                let (_, queued) = runnable.into_parts();
                batch.push(queued.scheduled);
            },
            None => {},
        }
        let owned = self.ready.drain_transfers();
        proof {
            assert(self.lanes() =~= LanesModel::<QueuedTransfer<B>>::empty());
            assert(owned@ == before.lanes().owned());
        }
        let mut ready = take_numbers_off(owned);
        let mut buffered = self.drain_buffered_transfers();
        batch.append(&mut ready);
        batch.append(&mut buffered);
        proof {
            assert(batch@ =~= old(self).owned() + submitted(old(self).inbox().backlog()));
        }
        cancel_all(effects, batch);
    }

    /// Take the submitted transfers out of the mailbox.
    fn drain_buffered_transfers(&mut self) -> (buffered: Vec<ScheduledTransfer<B>>)
        requires
            old(self).queues().wf(),
        ensures
            buffered@ == submitted(old(self).inbox().backlog()),
            final(self).inbox().backlog() == Seq::<OutboundCommand<B>>::empty(),
            final(self).inbox().sealed() == old(self).inbox().sealed(),
            final(self).input_over() == old(self).inbox().sealed(),
            final(self).queues() == old(self).queues(),
            final(self).sending() == old(self).sending(),
            final(self).number_to_give() == old(self).number_to_give(),
            final(self).stopping() == old(self).stopping(),
            final(self).finished() == old(self).finished(),
    {
        let mut commands = self.receiver.snapshot();
        self.input_closed = self.receiver.is_terminated();
        let ghost all = commands@;
        let ghost mut done: int = 0;
        let mut buffered: Vec<ScheduledTransfer<B>> = Vec::new();
        assert(all.skip(0) =~= all);
        assert(buffered@ =~= submitted(all.take(0)));
        loop
            invariant
                0 <= done <= all.len(),
                commands@ == all.skip(done),
                buffered@ == submitted(all.take(done)),
            ensures
                buffered@ == submitted(all),
            decreases commands@.len(),
        {
            match commands.pop_front() {
                Some(command) => {
                    proof {
                        assert(command == all[done]);
                        assert(all.take(done + 1).drop_last() =~= all.take(done));
                        assert(all.take(done + 1).last() == command);
                    }
                    match command {
                        OutboundCommand::Submit(scheduled) => {
                            buffered.push(scheduled);
                        },
                        OutboundCommand::CancelStopped => {},
                    }
                    proof {
                        done = done + 1;
                        assert(commands@ =~= all.skip(done));
                    }
                },
                None => {
                    proof {
                        assert(all.take(done) =~= all);
                    }
                    break ;
                },
            }
        }
        buffered
    }

    /// Make the next head the active transfer.
    fn select_next(&mut self) -> (selected: bool)
        requires
            old(self).wf(),
            old(self).sending() is None,
        ensures
            final(self).wf(),
            final(self).inbox() == old(self).inbox(),
            final(self).number_to_give() == old(self).number_to_give(),
            final(self).stopping() == old(self).stopping(),
            final(self).input_over() == old(self).input_over(),
            final(self).finished() == old(self).finished(),
            final(self).queues().same_turns(&old(self).queues()),
            match old(self).queues().selected() {
                Some(class) => {
                    &&& selected
                    &&& final(self).sending() matches Some(runnable) && runnable.lane() == class
                        && old(self).lanes().lane(class).head == TransferLaneState::Runnable(
                        runnable.value(),
                    )
                    &&& final(self).lanes() == old(self).lanes().with(
                        class,
                        old(self).lanes().lane(class).headless(),
                    )
                },
                None => {
                    &&& !selected
                    &&& final(self).sending() is None
                    &&& final(self).lanes() == old(self).lanes()
                },
            },
    {
        match self.ready.pop() {
            Some(runnable) => {
                proof {
                    let class = runnable.lane();
                    assert(self.lanes() =~= old(self).lanes().with(
                        class,
                        old(self).lanes().lane(class).headless(),
                    ));
                }
                self.active = Some(runnable);
                true
            },
            None => {
                proof {
                    assert(self.lanes() =~= old(self).lanes());
                }
                false
            },
        }
    }

    /// Where the active transfer goes, and the token by which its caller tells it to stop.
    pub fn active_route(&self) -> (active: Option<(OutboundTransferRoute, u64)>)
        ensures
            active == (match self.sending() {
                Some(runnable) => {
                    let transfer = runnable.value().scheduled.transfer;
                    Some((transfer.route, transfer.stop_token))
                },
                None => None,
            }),
    {
        match &self.active {
            Some(runnable) => {
                let transfer = &runnable.item().scheduled.transfer;
                Some((transfer.route, transfer.stop_token))
            },
            None => None,
        }
    }

    /// Look at the next frame of the active transfer.
    pub fn prepare_active_frame(&mut self, stops: &StopReading) -> (step: Option<
        ActiveFrameStep<B>,
    >)
        requires
            old(self).wf(),
        ensures
            final(self).wf(),
            final(self).queues() == old(self).queues(),
            final(self).inbox() == old(self).inbox(),
            final(self).number_to_give() == old(self).number_to_give(),
            final(self).stopping() == old(self).stopping(),
            final(self).input_over() == old(self).input_over(),
            final(self).finished() == old(self).finished(),
            match old(self).sending() {
                None => step is None && final(self).sending() is None,
                Some(before) => {
                    let transfer = before.value().scheduled.transfer;
                    &&& final(self).sending() matches Some(after) && after.lane()
                        == before.lane() && after.value().id == before.value().id
                        && after.value().scheduled.capacity_permit
                        == before.value().scheduled.capacity_permit && frames_taken(
                        transfer,
                        after.value().scheduled.transfer,
                        if transfer.stopped(stops) || transfer.source.remaining().len() == 0 {
                            0
                        } else {
                            1
                        },
                    )
                    &&& if transfer.stopped(stops) {
                        step == Some(ActiveFrameStep::<B>::Stopped)
                    } else if transfer.source.remaining().len() == 0 {
                        step == Some(ActiveFrameStep::<B>::Complete)
                    } else {
                        step matches Some(
                            ActiveFrameStep::Send { class, before_first_frame, frame },
                        ) && class == before.lane() && before_first_frame
                            == !transfer.first_frame_admitted && frame.part
                            == transfer.source.remaining()[0] && frame.context@
                            == frame.part.named()
                    }
                },
            },
    {
        let mut runnable = match self.active.take() {
            Some(runnable) => runnable,
            None => {
                return None;
            },
        };
        let class = runnable.class();
        let stopped = runnable.item().scheduled.transfer.is_stopped(stops);
        let before_first_frame = runnable.item().scheduled.transfer.is_before_first_frame();
        let ghost remaining = runnable.value().scheduled.transfer.source.remaining();
        proof {
            assert(remaining.skip(0) =~= remaining);
            assert(remaining.len() > 0 ==> remaining.skip(1) =~= remaining.drop_first());
        }
        if stopped {
            self.active = Some(runnable);
            return Some(ActiveFrameStep::Stopped);
        }
        let next = runnable.item_mut().scheduled.transfer.source.next_frame();
        self.active = Some(runnable);
        Some(
            match next {
                Some(frame) => ActiveFrameStep::Send { class, before_first_frame, frame },
                None => ActiveFrameStep::Complete,
            },
        )
    }

    /// Act on the next frame of the active transfer: a stopped or complete transfer ends, any
    /// other hands over its frame.
    pub fn admit_active_frame(&mut self, stops: &StopReading, effects: &mut WorkerEffects) -> (step:
        WorkerStep<B>)
        requires
            old(self).wf(),
        ensures
            final(self).wf(),
            final(self).inbox() == old(self).inbox(),
            final(self).number_to_give() == old(self).number_to_give(),
            final(self).stopping() == old(self).stopping(),
            final(self).input_over() == old(self).input_over(),
            final(self).finished() == old(self).finished(),
            match old(self).sending() {
                None => step is Continue && *final(self) == *old(self) && *final(effects)
                    == *old(effects),
                Some(before) => {
                    let scheduled = before.value().scheduled;
                    let transfer = scheduled.transfer;
                    if transfer.stopped(stops) {
                        &&& step is Continue
                        &&& final(self).sending() is None
                        &&& final(self).lanes() == old(self).lanes().with(
                            before.lane(),
                            old(self).lanes().lane(before.lane()).finished(),
                        )
                        &&& final(self).queues().turn_taken(&old(self).queues(), before.lane())
                        &&& final(effects).ended(
                            &*old(effects),
                            scheduled,
                            Ok(SendCompletionOutcome::Cancelled),
                        )
                    } else if transfer.source.remaining().len() == 0 {
                        &&& step is Continue
                        &&& final(self).sending() is None
                        &&& final(self).lanes() == old(self).lanes().with(
                            before.lane(),
                            old(self).lanes().lane(before.lane()).finished(),
                        )
                        &&& final(self).queues().same_turns(&old(self).queues())
                        &&& completed(&*old(effects), &*final(effects), scheduled)
                    } else {
                        &&& step matches WorkerStep::Send { class, before_first_frame, frame }
                            && class == before.lane() && before_first_frame
                            == !transfer.first_frame_admitted && frame.part
                            == transfer.source.remaining()[0] && frame.context@
                            == frame.part.named()
                        &&& final(self).sending() matches Some(after) && after.lane()
                            == before.lane() && after.value().id == before.value().id
                            && after.value().scheduled.capacity_permit
                            == scheduled.capacity_permit && frames_taken(
                            transfer,
                            after.value().scheduled.transfer,
                            1,
                        )
                        &&& final(self).queues() == old(self).queues()
                        &&& *final(effects) == *old(effects)
                    }
                },
            },
    {
        let step = match self.prepare_active_frame(stops) {
            Some(step) => step,
            None => {
                return WorkerStep::Continue;
            },
        };
        match step {
            ActiveFrameStep::Stopped => {
                if let Some(runnable) = self.active.take() {
                    self.terminate_transfer(
                        runnable,
                        Ok(SendCompletionOutcome::Cancelled),
                        TerminationFairness::AdvanceFailedAttempt,
                        effects,
                    );
                }
                WorkerStep::Continue
            },
            ActiveFrameStep::Complete => {
                if let Some(runnable) = self.active.take() {
                    let useful_bytes: u64 = runnable.item().scheduled.transfer.useful_bytes();
                    self.terminate_transfer(
                        runnable,
                        Ok(SendCompletionOutcome::Succeeded),
                        TerminationFairness::AlreadyAdvanced,
                        effects,
                    );
                    effects.measurements.push(OutboundMeasurement::Sent { useful_bytes });
                }
                WorkerStep::Continue
            },
            ActiveFrameStep::Send { class, before_first_frame, frame } => WorkerStep::Send {
                class,
                before_first_frame,
                frame,
            },
        }
    }

    /// End the active transfer whose frame could not be made.
    pub fn fail_active_frame(&mut self, error: Error, effects: &mut WorkerEffects)
        requires
            old(self).wf(),
            old(self).sending() is Some,
        ensures
            final(self).wf(),
            final(self).sending() is None,
            final(self).inbox() == old(self).inbox(),
            final(self).number_to_give() == old(self).number_to_give(),
            final(self).stopping() == old(self).stopping(),
            final(self).input_over() == old(self).input_over(),
            final(self).finished() == old(self).finished(),
            ({
                let before = old(self).sending()->0;
                &&& final(self).lanes() == old(self).lanes().with(
                    before.lane(),
                    old(self).lanes().lane(before.lane()).finished(),
                )
                &&& final(self).queues().turn_taken(&old(self).queues(), before.lane())
                &&& ended_measured(
                    &*old(effects),
                    &*final(effects),
                    before.value().scheduled,
                    Err(error),
                    error.peer_failure(),
                )
            }),
    {
        if let Some(runnable) = self.active.take() {
            self.fail_transfer(
                runnable,
                error,
                TerminationFairness::AdvanceFailedAttempt,
                effects,
            );
        }
    }

    /// Note what became of the frame that was sent: an accepted one puts its transfer back to
    /// wait for the delivery, whose number is given. `detached` is the caller's admission, if it
    /// has one.
    pub fn finish_active_admission(
        &mut self,
        before_first_frame: bool,
        admission: ChunkSendProgress<Result<(), Error>>,
        detached: &mut Option<DetachedAdmission>,
        effects: &mut WorkerEffects,
    ) -> (delivery: Option<u64>)
        requires
            old(self).wf(),
            old(self).sending() is Some,
        ensures
            final(self).wf(),
            final(self).sending() is None,
            final(self).inbox() == old(self).inbox(),
            final(self).number_to_give() == old(self).number_to_give(),
            final(self).stopping() == old(self).stopping(),
            final(self).input_over() == old(self).input_over(),
            final(self).finished() == old(self).finished(),
            final(self).queues().turn_taken(&old(self).queues(), old(self).sending()->0.lane()),
            *final(detached) == (if admission matches ChunkSendProgress::Ready(Ok(())) {
                old(self).sending()->0.value().scheduled.transfer.admission_after_frame(
                    *old(detached),
                )
            } else {
                *old(detached)
            }),
            ({
                let before = old(self).sending()->0;
                let scheduled = before.value().scheduled;
                let lane = old(self).lanes().lane(before.lane());
                match admission {
                    ChunkSendProgress::Ready(Ok(())) => {
                        &&& delivery == Some(before.value().id)
                        &&& final(self).lanes() == old(self).lanes().with(
                            before.lane(),
                            LaneModel {
                                head: TransferLaneState::WaitingDelivery {
                                    id: before.value().id,
                                    item: QueuedTransfer {
                                        id: before.value().id,
                                        scheduled: ScheduledTransfer {
                                            transfer: scheduled.transfer.frame_admitted(*old(detached)),
                                            capacity_permit: scheduled.capacity_permit.reached(),
                                        },
                                    },
                                },
                                queued: lane.queued,
                            },
                        )
                        &&& final(effects).released@ == old(effects).released@
                        &&& final(effects).results@ == with_report(
                            old(effects).results@,
                            scheduled.transfer.frame_report(*old(detached)),
                        )
                        &&& final(effects).measurements@ == old(effects).measurements@
                    },
                    ChunkSendProgress::Ready(Err(error)) => {
                        &&& delivery is None
                        &&& final(self).lanes() == old(self).lanes().with(
                            before.lane(),
                            lane.finished(),
                        )
                        &&& ended_measured(
                            &*old(effects),
                            &*final(effects),
                            scheduled,
                            Err(error),
                            error.peer_failure(),
                        )
                    },
                    ChunkSendProgress::Cancelled(reason) => {
                        &&& delivery is None
                        &&& final(self).lanes() == old(self).lanes().with(
                            before.lane(),
                            lane.finished(),
                        )
                        &&& ended_measured(
                            &*old(effects),
                            &*final(effects),
                            scheduled,
                            cancelled_result(before_first_frame, reason),
                            reason.peer_failure(),
                        )
                    },
                }
            }),
    {
        let mut runnable = match self.active.take() {
            Some(runnable) => runnable,
            None => {
                return None;
            },
        };
        let ghost class = runnable.lane();
        match admission {
            ChunkSendProgress::Ready(Ok(())) => {
                runnable.item_mut().scheduled.capacity_permit.mark_reached_link();
                match runnable.item_mut().scheduled.transfer.take_frame_admission_result(
                    detached,
                ) {
                    Some(report) => {
                        effects.results.push(report);
                    },
                    None => {},
                }
                let class = runnable.class();
                self.ready.record_frame_admitted(class);
                let id: u64 = runnable.item().id;
                self.ready.wait_for_delivery(id, runnable);
                proof {
                    let before = old(self).sending()->0;
                    assert(self.lanes() =~= old(self).lanes().with(
                        class,
                        LaneModel {
                            head: TransferLaneState::WaitingDelivery {
                                id,
                                item: runnable.value(),
                            },
                            queued: old(self).lanes().lane(class).queued,
                        },
                    ));
                }
                Some(id)
            },
            ChunkSendProgress::Ready(Err(error)) => {
                self.fail_transfer(
                    runnable,
                    error,
                    TerminationFairness::AdvanceFailedAttempt,
                    effects,
                );
                None
            },
            ChunkSendProgress::Cancelled(reason) => {
                let record_failure = reason.records_peer_failure();
                let result = resolve_cancelled_transfer(before_first_frame, reason);
                self.terminate_transfer(
                    runnable,
                    result,
                    TerminationFairness::AdvanceFailedAttempt,
                    effects,
                );
                if record_failure {
                    effects.measurements.push(OutboundMeasurement::FailedToSend);
                }
                None
            },
        }
    }

    /// Note what became of the frame that was sent by a worker which was told to stop meanwhile,
    /// and end the worker. `detached` is the caller's admission, if it has one.
    pub fn finalize_stopped_active_admission(
        &mut self,
        before_first_frame: bool,
        admission: ChunkSendProgress<Result<(), Error>>,
        detached: &mut Option<DetachedAdmission>,
        effects: &mut WorkerEffects,
    )
        requires
            old(self).wf(),
            old(self).sending() is Some,
            !old(self).finished(),
        ensures
            final(self).wf(),
            final(self).finished(),
            final(self).stopping(),
            final(self).input_over(),
            final(self).inbox().sealed(),
            final(self).inbox().backlog() == Seq::<OutboundCommand<B>>::empty(),
            final(self).sending() is None,
            final(self).lanes() == LanesModel::<QueuedTransfer<B>>::empty(),
            *final(detached) == (if admission matches ChunkSendProgress::Ready(Ok(())) {
                old(self).sending()->0.value().scheduled.transfer.admission_after_frame(
                    *old(detached),
                )
            } else {
                *old(detached)
            }),
            ({
                let scheduled = old(self).sending()->0.value().scheduled;
                let accepted = ScheduledTransfer {
                    transfer: scheduled.transfer.frame_admitted(*old(detached)),
                    capacity_permit: scheduled.capacity_permit.reached(),
                };
                let rest = unnumbered(old(self).lanes().owned()) + submitted(
                    old(self).inbox().backlog(),
                );
                let results = match admission {
                    ChunkSendProgress::Ready(Ok(())) => with_report(
                        with_report(old(effects).results@, scheduled.transfer.frame_report(*old(detached))),
                        accepted.transfer.completion.report(
                            Ok(SendCompletionOutcome::Cancelled),
                        ),
                    ),
                    ChunkSendProgress::Ready(Err(error)) => with_report(
                        old(effects).results@,
                        scheduled.transfer.completion.report(Err(error)),
                    ),
                    ChunkSendProgress::Cancelled(reason) => with_report(
                        old(effects).results@,
                        scheduled.transfer.completion.report(
                            cancelled_result(before_first_frame, reason),
                        ),
                    ),
                };
                &&& final(effects).released@ == old(effects).released@.push(
                    if admission matches ChunkSendProgress::Ready(Ok(())) {
                        accepted.capacity_permit
                    } else {
                        scheduled.capacity_permit
                    },
                ) + permits_of(rest)
                &&& final(effects).results@ == cancelled_reports(results, rest)
                &&& final(effects).measurements@ == (if match admission {
                    ChunkSendProgress::Ready(Ok(())) => false,
                    ChunkSendProgress::Ready(Err(error)) => error.peer_failure(),
                    ChunkSendProgress::Cancelled(reason) => reason.peer_failure(),
                } {
                    old(effects).measurements@.push(OutboundMeasurement::FailedToSend)
                } else {
                    old(effects).measurements@
                })
            }),
    {
        let mut runnable = match self.active.take() {
            Some(runnable) => runnable,
            None => {
                return;
            },
        };
        let ghost class = runnable.lane();
        let ghost scheduled_before = runnable.value().scheduled;
        let result = match admission {
            ChunkSendProgress::Ready(Ok(())) => {
                runnable.item_mut().scheduled.capacity_permit.mark_reached_link();
                match runnable.item_mut().scheduled.transfer.take_frame_admission_result(
                    detached,
                ) {
                    Some(report) => {
                        effects.results.push(report);
                    },
                    None => {},
                }
                Ok(SendCompletionOutcome::Cancelled)
            },
            ChunkSendProgress::Ready(Err(error)) => {
                if error.records_peer_send_failure() {
                    effects.measurements.push(OutboundMeasurement::FailedToSend);
                }
                Err(error)
            },
            ChunkSendProgress::Cancelled(reason) => {
                if reason.records_peer_failure() {
                    effects.measurements.push(OutboundMeasurement::FailedToSend);
                }
                resolve_cancelled_transfer(before_first_frame, reason)
            },
        };
        let (_, queued) = runnable.into_parts();
        effects.finalize(queued.scheduled, result);
        self.shutdown_with_results(effects);
        proof {
            let rest = unnumbered(old(self).lanes().owned()) + submitted(
                old(self).inbox().backlog(),
            );
            assert(Seq::<ScheduledTransfer<B>>::empty() + unnumbered(old(self).lanes().owned())
                =~= unnumbered(old(self).lanes().owned()));
        }
    }

    /// Decide what the worker does next: end if it was told to stop, take in its mailbox, end if
    /// nothing more will come, else serve the next head or wait.
    pub fn next_step(&mut self, stops: &StopReading, effects: &mut WorkerEffects) -> (step: WorkerStep<
        B,
    >)
        requires
            old(self).wf(),
            old(self).sending() is None,
            !old(self).finished(),
        ensures
            final(self).wf(),
            old(self).stopping() ==> step is Exit && shut_down(
                &*old(self),
                &*final(self),
                &*old(effects),
                &*final(effects),
            ),
            !old(self).stopping() ==> exists|drained: OutboundWorker<B>, taken: WorkerEffects|
                {
                    &&& #[trigger] drained.standing(&taken) == old(self).standing(
                        &*old(effects),
                    ).after_all(old(self).inbox().backlog(), stops)
                    &&& taken.measurements@ == old(effects).measurements@
                    &&& drained.queues().same_turns(&old(self).queues())
                    &&& drained.inbox().backlog() == Seq::<OutboundCommand<B>>::empty()
                    &&& drained.inbox().sealed() == old(self).inbox().sealed()
                    &&& drained.sending() is None
                    &&& drained.input_over() == old(self).inbox().sealed()
                    &&& !drained.stopping()
                    &&& !drained.finished()
                    &&& if old(self).inbox().sealed() {
                        step is Exit && shut_down(&drained, &*final(self), &taken, &*final(effects))
                    } else {
                        served(&drained, &*final(self), &taken, &*final(effects), step, stops)
                    }
                },
    {
        if self.stop {
            self.shutdown(effects);
            return WorkerStep::Exit;
        }
        self.drain_available(stops, effects);
        let ghost drained = *self;
        let ghost taken = *effects;
        assert(drained.standing(&taken) == old(self).standing(&*old(effects)).after_all(
            old(self).inbox().backlog(),
            stops,
        ));
        if self.input_closed {
            self.shutdown(effects);
            return WorkerStep::Exit;
        }
        if self.select_next() {
            let step = self.admit_active_frame(stops, effects);
            proof {
                let class = drained.queues().selected()->0;
                let lane = drained.lanes().lane(class);
                assert(drained.lanes().with(class, lane.headless()).lane(class).finished()
                    == lane.finished());
                assert(drained.lanes().with(class, lane.headless()).with(class, lane.finished())
                    =~= drained.lanes().with(class, lane.finished()));
                assert(served(&drained, self, &taken, effects, step, stops));
            }
            return step;
        }
        WorkerStep::WaitForInput
    }

    /// Take one command out of the mailbox of an idle worker.
    pub fn poll_input(&mut self, stops: &StopReading, effects: &mut WorkerEffects) -> (input: InputStep)
        requires
            old(self).wf(),
            old(self).sending() is None,
            !old(self).finished(),
            !old(self).stopping(),
        ensures
            final(self).wf(),
            final(self).sending() is None,
            !final(self).finished(),
            !final(self).stopping(),
            final(self).queues().same_turns(&old(self).queues()),
            final(effects).measurements@ == old(effects).measurements@,
            final(self).inbox().sealed() == old(self).inbox().sealed(),
            final(self).inbox().first_taken(&old(self).inbox()),
            ({
                let backlog = old(self).inbox().backlog();
                if backlog.len() > 0 {
                    &&& input == InputStep::Handled
                    &&& final(self).standing(&*final(effects)) == old(self).standing(
                        &*old(effects),
                    ).after(backlog[0], stops)
                    &&& final(self).inbox().backlog() == backlog.drop_first()
                    &&& final(self).input_over() == old(self).input_over()
                } else {
                    &&& input == (if old(self).inbox().sealed() {
                        InputStep::Closed
                    } else {
                        InputStep::Pending
                    })
                    &&& final(self).standing(&*final(effects)) == old(self).standing(
                        &*old(effects),
                    )
                    &&& final(self).inbox().backlog() == backlog
                    &&& final(self).input_over() == (old(self).input_over()
                        || old(self).inbox().sealed())
                }
            }),
    {
        match self.receiver.poll_next() {
            MailboxPoll::Ready(command) => {
                self.handle_command(command, stops, effects);
                InputStep::Handled
            },
            MailboxPoll::Pending => InputStep::Pending,
            MailboxPoll::Closed => {
                self.input_closed = true;
                InputStep::Closed
            },
        }
    }
}

/// A lane without a head has nobody waiting, unless its head is `active`.
pub open spec fn heads_in_place<T>(
    queues: TransferQueues<T>,
    active: Option<RunnableTransfer<T>>,
) -> bool {
    forall|class: TransferClass| #[trigger]
        queues.lane_model(class).head is Idle ==> queues.lane_model(class).queued.len() == 0 || (
        active is Some && active->0.lane() == class)
}

/// `after` is `before` with `count` frames taken.
pub open spec fn frames_taken<B>(
    before: OutboundTransfer<B>,
    after: OutboundTransfer<B>,
    count: int,
) -> bool {
    &&& after.source.remaining() == before.source.remaining().skip(count)
    &&& after == OutboundTransfer { source: after.source, ..before }
}

/// `after` is `before` and then the end of `scheduled` with `result`, and a measured failure if
/// `failure`.
pub open spec fn ended_measured<B>(
    before: &WorkerEffects,
    after: &WorkerEffects,
    scheduled: ScheduledTransfer<B>,
    result: SendResult,
    failure: bool,
) -> bool {
    &&& after.released@ == before.released@.push(scheduled.capacity_permit)
    &&& after.results@ == with_report(
        before.results@,
        scheduled.transfer.completion.report(result),
    )
    &&& after.measurements@ == (if failure {
        before.measurements@.push(OutboundMeasurement::FailedToSend)
    } else {
        before.measurements@
    })
}

/// `after` is `before` and then the success of `scheduled`, measured.
pub open spec fn completed<B>(
    before: &WorkerEffects,
    after: &WorkerEffects,
    scheduled: ScheduledTransfer<B>,
) -> bool {
    &&& after.released@ == before.released@.push(scheduled.capacity_permit)
    &&& after.results@ == with_report(
        before.results@,
        scheduled.transfer.completion.report(Ok(SendCompletionOutcome::Succeeded)),
    )
    &&& after.measurements@ == before.measurements@.push(
        OutboundMeasurement::Sent { useful_bytes: scheduled.transfer.useful_bytes },
    )
}

/// The worker ended: everything it owned and everything in its mailbox was cancelled, in that
/// order.
pub open spec fn shut_down<B>(
    before: &OutboundWorker<B>,
    after: &OutboundWorker<B>,
    effects_before: &WorkerEffects,
    effects_after: &WorkerEffects,
) -> bool {
    let cancelled = before.owned() + submitted(before.inbox().backlog());
    &&& after.finished()
    &&& after.stopping()
    &&& after.input_over()
    &&& after.sending() is None
    &&& after.lanes() == LanesModel::<QueuedTransfer<B>>::empty()
    &&& after.inbox().sealed()
    &&& after.inbox().backlog() == Seq::<OutboundCommand<B>>::empty()
    &&& effects_after.released@ == effects_before.released@ + permits_of(cancelled)
    &&& effects_after.results@ == cancelled_reports(effects_before.results@, cancelled)
    &&& effects_after.measurements@ == effects_before.measurements@
}

/// The worker served the next head of `before`, or waits where no head can run.
pub open spec fn served<B>(
    before: &OutboundWorker<B>,
    after: &OutboundWorker<B>,
    effects_before: &WorkerEffects,
    effects_after: &WorkerEffects,
    step: WorkerStep<B>,
    stops: &StopReading,
) -> bool {
    &&& after.inbox() == before.inbox()
    &&& after.number_to_give() == before.number_to_give()
    &&& after.stopping() == before.stopping()
    &&& after.input_over() == before.input_over()
    &&& after.finished() == before.finished()
    &&& match before.queues().selected() {
        None => {
            &&& step is WaitForInput
            &&& after.sending() is None
            &&& after.lanes() == before.lanes()
            &&& after.queues().same_turns(&before.queues())
            &&& *effects_after == *effects_before
        },
        Some(class) => {
            let lane = before.lanes().lane(class);
            let head = lane.head->Runnable_0;
            let transfer = head.scheduled.transfer;
            if transfer.stopped(stops) {
                &&& step is Continue
                &&& after.sending() is None
                &&& after.lanes() == before.lanes().with(class, lane.finished())
                &&& after.queues().turn_taken(&before.queues(), class)
                &&& effects_after.ended(
                    effects_before,
                    head.scheduled,
                    Ok(SendCompletionOutcome::Cancelled),
                )
            } else if transfer.source.remaining().len() == 0 {
                &&& step is Continue
                &&& after.sending() is None
                &&& after.lanes() == before.lanes().with(class, lane.finished())
                &&& after.queues().same_turns(&before.queues())
                &&& completed(effects_before, effects_after, head.scheduled)
            } else {
                &&& step matches WorkerStep::Send { class: sent, before_first_frame, frame } && sent
                    == class && before_first_frame == !transfer.first_frame_admitted && frame.part
                    == transfer.source.remaining()[0] && frame.context@ == frame.part.named()
                &&& after.sending() matches Some(runnable) && runnable.lane() == class
                    && runnable.value().id == head.id
                    && runnable.value().scheduled.capacity_permit
                    == head.scheduled.capacity_permit && frames_taken(
                    transfer,
                    runnable.value().scheduled.transfer,
                    1,
                )
                &&& after.lanes() == before.lanes().with(class, lane.headless())
                &&& after.queues().same_turns(&before.queues())
                &&& *effects_after == *effects_before
            }
        },
    }
}

proof fn lemma_sweep_keeps_heads<T>(lanes: LanesModel<T>, wanted: spec_fn(T) -> bool)
    requires
        forall|class: TransferClass|
            (#[trigger] lanes.lane(class)).head is Idle ==> lanes.lane(class).queued.len() == 0,
    ensures
        forall|class: TransferClass|
            (#[trigger] lanes.swept(wanted).lane(class)).head is Idle ==> lanes.swept(wanted).lane(
                class,
            ).queued.len() == 0,
{
    assert forall|class: TransferClass|
        (#[trigger] lanes.swept(wanted).lane(class)).head is Idle implies lanes.swept(wanted).lane(
        class,
    ).queued.len() == 0 by {
        let lane = lanes.lane(class);
        let unwanted = |item: T| !wanted(item);
        assert(lanes.swept(wanted).lane(class) == lane.keeping(lane.ready().filter(unwanted)));
        if lane.head is Idle {
            assert(lane.ready() =~= Seq::<T>::empty());
            reveal(Seq::filter);
        }
    }
}

/// A shutdown cancels every transfer the worker was answerable for, exactly once each: its active
/// transfer, its lanes and its mailbox give back all their capacity, and a second shutdown does
/// nothing.
pub proof fn law_shutdown_releases_every_transfer<B>(
    before: &OutboundWorker<B>,
    after: &OutboundWorker<B>,
    effects_before: &WorkerEffects,
    effects_after: &WorkerEffects,
)
    requires
        shut_down(before, after, effects_before, effects_after),
    ensures
        effects_after.released@.len() == effects_before.released@.len() + before.owned().len()
            + submitted(before.inbox().backlog()).len(),
        after.owned().len() == 0,
        submitted(after.inbox().backlog()).len() == 0,
{
    assert(after.lanes().owned() =~= Seq::<QueuedTransfer<B>>::empty());
    assert(after.owned() =~= Seq::<ScheduledTransfer<B>>::empty());
}

/// A transfer that reports at its end is reported by a shutdown; how many reports there are is
/// the number of cancelled transfers that have not reported yet.
pub proof fn law_shutdown_reports_every_open_transfer<B>(
    results: Seq<FinalTransferResult>,
    items: Seq<ScheduledTransfer<B>>,
)
    ensures
        cancelled_reports(results, items).len() == results.len() + items.filter(
            |scheduled: ScheduledTransfer<B>| scheduled.transfer.completion.open,
        ).len(),
    decreases items.len(),
{
    reveal(Seq::filter);
    if items.len() > 0 {
        law_shutdown_reports_every_open_transfer(results, items.drop_last());
    }
}

/// A cancellation scan that came before a submission does not lose it: a submission that was told
/// to stop is cancelled on arrival.
pub proof fn law_stopped_submission_never_joins_a_lane<B>(
    standing: Handled<B>,
    scheduled: ScheduledTransfer<B>,
    stops: &StopReading,
)
    requires
        scheduled.transfer.stopped(stops),
    ensures
        standing.after(OutboundCommand::Submit(scheduled), stops).lanes == standing.lanes,
        standing.after(OutboundCommand::Submit(scheduled), stops).released
            == standing.released.push(scheduled.capacity_permit),
{
}

/// A scan leaves no stopped transfer ready: what stays ready was not told to stop.
pub proof fn law_scan_leaves_no_stopped_transfer_ready<T>(
    lane: LaneModel<T>,
    stopped: spec_fn(T) -> bool,
)
    ensures
        ({
            let kept = lane.ready().filter(|item: T| !stopped(item));
            forall|i: int|
                0 <= i < lane.keeping(kept).ready().len() ==> !stopped(
                    #[trigger] lane.keeping(kept).ready()[i],
                )
        }),
{
    let unstopped = |item: T| !stopped(item);
    let kept = lane.ready().filter(unstopped);
    assert(lane.keeping(kept).ready() =~= kept);
    assert forall|i: int| 0 <= i < kept.len() implies !stopped(#[trigger] kept[i]) by {
        broadcast use vstd::seq_lib::group_filter_ensures;

        assert(unstopped(kept[i]));
    }
}

/// The lane of `class` lost its head and goes on to the next transfer; every other lane is as it
/// was.
pub open spec fn lane_goes_on<B>(
    before: LanesModel<QueuedTransfer<B>>,
    after: LanesModel<QueuedTransfer<B>>,
    class: TransferClass,
) -> bool {
    &&& forall|other: TransferClass|
        other != class ==> #[trigger] after.lane(other) == before.lane(other)
    &&& before.lane(class).queued.len() == 0 ==> after.lane(class).head is Idle && after.lane(
        class,
    ).queued.len() == 0
    &&& before.lane(class).queued.len() > 0 ==> after.lane(class).head
        == TransferLaneState::Runnable(before.lane(class).queued[0]) && after.lane(
        class,
    ).queued.len() == before.lane(class).queued.len() - 1 && forall|i: int|
        0 <= i < after.lane(class).queued.len() ==> #[trigger] after.lane(class).queued[i]
            == before.lane(class).queued[i + 1]
}

/// A transfer whose frame ended cancelled is never told as succeeded: after its first frame it is
/// told as cancelled, whatever the reason, and before it, as cancelled exactly for a stop or a lost
/// route.
pub proof fn law_cancelled_transfer_never_succeeds(
    before_first_frame: bool,
    reason: ChunkSendCancelReason,
    result: SendResult,
)
    requires
        call_ensures(resolve_cancelled_transfer, (before_first_frame, reason), result),
    ensures
        result != Ok::<SendCompletionOutcome, Error>(SendCompletionOutcome::Succeeded),
        !before_first_frame ==> result == Ok::<SendCompletionOutcome, Error>(
            SendCompletionOutcome::Cancelled,
        ),
        before_first_frame ==> (result is Ok <==> reason is TransferStopped || reason
            is RouteNoLongerPermitted),
        before_first_frame && result is Err ==> (match reason {
            ChunkSendCancelReason::AdmissionRevoked(attempt) => result->Err_0 == (
            Error::ConnectionAttemptSuperseded {
                peer: attempt.peer,
                generation: attempt.generation,
            }),
            ChunkSendCancelReason::AdmissionCheckFailed(error) => result->Err_0 == error,
            ChunkSendCancelReason::RouteCheckFailed(error) => result->Err_0 == error,
            ChunkSendCancelReason::TransportNotReady(_) => result->Err_0 is TransportNotReady,
            _ => false,
        }),
{
}

/// Each worker numbers its transfers from its own multiple of the stride.
pub proof fn law_worker_numbers_start_at_its_multiple(worker: u64, base: u64)
    requires
        call_ensures(worker_transfer_id_base, (worker,), base),
    ensures
        worker * 4_294_967_296 <= u64::MAX ==> base == worker * 4_294_967_296,
        worker * 4_294_967_296 > u64::MAX ==> base == u64::MAX,
{
}

/// The next look at the active transfer. One that was told to stop ends cancelled. One with no
/// frame left ends succeeded, and only then is it measured as sent, with all its useful bytes. Any
/// other sends the first frame that is left, and neither gives capacity back nor reports.
pub proof fn law_transfer_succeeds_once_no_frame_is_left<B>(
    worker: &mut OutboundWorker<B>,
    stops: StopReading,
    effects: &mut WorkerEffects,
    step: WorkerStep<B>,
)
    requires
        old(worker).wf(),
        old(worker).sending() is Some,
        call_ensures(OutboundWorker::<B>::admit_active_frame, (worker, &stops, effects), step),
    ensures
        ({
            let active = old(worker).sending()->0;
            let scheduled = active.value().scheduled;
            let stopped = stops.scheduler || stops.stopped@.contains(scheduled.transfer.stop_token);
            let left = scheduled.transfer.source.remaining();
            if stopped || left.len() == 0 {
                &&& step is Continue
                &&& final(worker).sending() is None
                &&& lane_goes_on(old(worker).lanes(), final(worker).lanes(), active.lane())
                &&& final(effects).released@ == old(effects).released@
                    + seq![scheduled.capacity_permit]
                &&& reports_once(
                    old(effects).results@,
                    final(effects).results@,
                    scheduled.transfer.completion,
                    if stopped {
                        Ok(SendCompletionOutcome::Cancelled)
                    } else {
                        Ok(SendCompletionOutcome::Succeeded)
                    },
                )
                &&& final(effects).measurements@ == (if stopped {
                    old(effects).measurements@
                } else {
                    old(effects).measurements@ + seq![
                        OutboundMeasurement::Sent {
                            useful_bytes: scheduled.transfer.useful_bytes,
                        },
                    ]
                })
            } else {
                &&& step matches WorkerStep::Send { class, before_first_frame, frame } && class
                    == active.lane() && frame.part == left[0] && before_first_frame
                    == !scheduled.transfer.first_frame_admitted
                &&& final(worker).sending() matches Some(sending) && sending.value().id
                    == active.value().id && sending.value().scheduled.capacity_permit
                    == scheduled.capacity_permit
                    && sending.value().scheduled.transfer.source.remaining().len() == left.len() - 1
                    && (forall|i: int|
                    0 <= i < left.len() - 1
                        ==> #[trigger] sending.value().scheduled.transfer.source.remaining()[i]
                        == left[i + 1]) && sending.value().scheduled.transfer.completion
                    == scheduled.transfer.completion
                &&& *final(effects) == *old(effects)
            }
        }),
{
    let scheduled = old(worker).sending()->0.value().scheduled;
    assert(old(effects).released@.push(scheduled.capacity_permit) =~= old(effects).released@
        + seq![scheduled.capacity_permit]);
    assert(old(effects).measurements@.push(
        OutboundMeasurement::Sent { useful_bytes: scheduled.transfer.useful_bytes },
    ) =~= old(effects).measurements@ + seq![
        OutboundMeasurement::Sent { useful_bytes: scheduled.transfer.useful_bytes },
    ]);
}

/// A frame that the backend accepted keeps its transfer at the head, waiting for the delivery that
/// is named by the transfer's number; its capacity stays held. A frame that failed or was cancelled
/// ends its transfer: the capacity comes back, the failure or the cancellation is reported once,
/// and nothing is ever reported as succeeded by it.
pub proof fn law_sent_frame_waits_or_ends_its_transfer<B>(
    worker: &mut OutboundWorker<B>,
    before_first_frame: bool,
    admission: ChunkSendProgress<Result<(), Error>>,
    detached: &mut Option<DetachedAdmission>,
    effects: &mut WorkerEffects,
    delivery: Option<u64>,
)
    requires
        old(worker).wf(),
        old(worker).sending() is Some,
        call_ensures(
            OutboundWorker::<B>::finish_active_admission,
            (worker, before_first_frame, admission, detached, effects),
            delivery,
        ),
    ensures
        ({
            let active = old(worker).sending()->0;
            let scheduled = active.value().scheduled;
            &&& delivery is Some <==> (admission matches ChunkSendProgress::Ready(Ok(())))
            &&& final(worker).sending() is None
            &&& delivery matches Some(id) ==> {
                let lane = final(worker).lanes().lane(active.lane());
                &&& id == active.value().id
                &&& lane.head matches TransferLaneState::WaitingDelivery { id: waits, item }
                    && waits == id && item.id == id && item.scheduled.transfer.source
                    == scheduled.transfer.source && item.scheduled.transfer.route
                    == scheduled.transfer.route
                &&& lane.queued == old(worker).lanes().lane(active.lane()).queued
                &&& forall|other: TransferClass|
                    other != active.lane() ==> #[trigger] final(worker).lanes().lane(other) == old(worker).lanes().lane(other)
                &&& final(effects).released@ == old(effects).released@
                &&& final(effects).measurements@ == old(effects).measurements@
            }
            &&& delivery is None ==> {
                &&& lane_goes_on(old(worker).lanes(), final(worker).lanes(), active.lane())
                &&& final(effects).released@ == old(effects).released@
                    + seq![scheduled.capacity_permit]
                &&& *final(detached) == *old(detached)
            }
            &&& admission matches ChunkSendProgress::Ready(Err(error)) ==> reports_once(
                old(effects).results@,
                final(effects).results@,
                scheduled.transfer.completion,
                Err(error),
            )
            &&& admission is Cancelled && !before_first_frame ==> reports_once(
                old(effects).results@,
                final(effects).results@,
                scheduled.transfer.completion,
                Ok(SendCompletionOutcome::Cancelled),
            )
            &&& admission is Cancelled && (admission->Cancelled_0 is TransferStopped
                || admission->Cancelled_0 is RouteNoLongerPermitted) ==> reports_once(
                old(effects).results@,
                final(effects).results@,
                scheduled.transfer.completion,
                Ok(SendCompletionOutcome::Cancelled),
            )
            &&& admission is Cancelled && scheduled.transfer.completion.open ==> final(effects).results@.last().result != Ok::<SendCompletionOutcome, Error>(
                SendCompletionOutcome::Succeeded,
            )
        }),
{
    let scheduled = old(worker).sending()->0.value().scheduled;
    assert(old(effects).released@.push(scheduled.capacity_permit) =~= old(effects).released@
        + seq![scheduled.capacity_permit]);
}

/// An accepted first frame of a detached transfer is reported as succeeded exactly if its admission
/// was claimed; an attached transfer reports nothing by a frame.
pub proof fn law_accepted_frame_reports_a_detached_success<B>(
    worker: &mut OutboundWorker<B>,
    before_first_frame: bool,
    detached: &mut Option<DetachedAdmission>,
    effects: &mut WorkerEffects,
    delivery: Option<u64>,
)
    requires
        old(worker).wf(),
        old(worker).sending() is Some,
        call_ensures(
            OutboundWorker::<B>::finish_active_admission,
            (worker, before_first_frame, ChunkSendProgress::Ready(Ok(())), detached, effects),
            delivery,
        ),
    ensures
        ({
            let transfer = old(worker).sending()->0.value().scheduled.transfer;
            let succeeds = !transfer.first_frame_admitted && transfer.completion.open
                && transfer.completion.policy == OutboundCompletion::Detached && (*old(detached) is None || (*old(detached))->0.phase == AdmissionPhase::Irrevocable);
            &&& succeeds ==> reports_once(
                old(effects).results@,
                final(effects).results@,
                transfer.completion,
                Ok(SendCompletionOutcome::Succeeded),
            )
            &&& !succeeds ==> final(effects).results@ == old(effects).results@
        }),
{
}

/// A failed or cancelled frame is measured as a failure exactly if it counts against the peer.
pub proof fn law_frame_failures_are_measured_against_the_peer<B>(
    worker: &mut OutboundWorker<B>,
    before_first_frame: bool,
    admission: ChunkSendProgress<Result<(), Error>>,
    detached: &mut Option<DetachedAdmission>,
    effects: &mut WorkerEffects,
    delivery: Option<u64>,
)
    requires
        old(worker).wf(),
        old(worker).sending() is Some,
        call_ensures(
            OutboundWorker::<B>::finish_active_admission,
            (worker, before_first_frame, admission, detached, effects),
            delivery,
        ),
    ensures
        ({
            let counts = match admission {
                ChunkSendProgress::Ready(Ok(())) => false,
                ChunkSendProgress::Ready(Err(error)) => (error is Transport && !(
                error->Transport_0 is SendPermitRevoked)) || (
                error matches Error::TransportNotReady { state, .. } && (state is Failed || state
                    is Closed)),
                ChunkSendProgress::Cancelled(reason) => (
                reason matches ChunkSendCancelReason::TransportNotReady(readiness) && readiness.0
                    is Terminal),
            };
            &&& counts ==> final(effects).measurements@ == old(effects).measurements@ + seq![
                OutboundMeasurement::FailedToSend,
            ]
            &&& !counts ==> final(effects).measurements@ == old(effects).measurements@
        }),
{
    assert(old(effects).measurements@.push(OutboundMeasurement::FailedToSend) =~= old(effects).measurements@ + seq![OutboundMeasurement::FailedToSend]);
}

/// A delivery concerns exactly the head that waits for it. Delivered, the head can run again with
/// everything it holds; failed, its transfer ends with that error; cancelled, it ends cancelled.
/// Nothing is reported as succeeded by a delivery.
pub proof fn law_delivery_moves_its_own_head<B>(
    worker: &mut OutboundWorker<B>,
    id: u64,
    class: TransferClass,
    result: ChunkSendProgress<Result<(), Error>>,
    effects: &mut WorkerEffects,
    found: bool,
)
    requires
        old(worker).wf(),
        old(worker).sending() is None,
        call_ensures(
            OutboundWorker::<B>::handle_delivery,
            (worker, id, class, result, effects),
            found,
        ),
    ensures
        ({
            let lane = old(worker).lanes().lane(class);
            &&& found <==> (lane.head matches TransferLaneState::WaitingDelivery { id: waits, .. }
                && waits == id)
            &&& !found ==> final(worker).lanes() == old(worker).lanes() && *final(effects) == *old(effects)
            &&& found ==> {
                let waiting = lane.head->item;
                &&& (result matches ChunkSendProgress::Ready(Ok(()))) ==> {
                    &&& final(worker).lanes().lane(class).head == TransferLaneState::Runnable(
                        waiting,
                    )
                    &&& final(worker).lanes().lane(class).queued == lane.queued
                    &&& *final(effects) == *old(effects)
                }
                &&& !(result matches ChunkSendProgress::Ready(Ok(()))) ==> {
                    &&& lane_goes_on(old(worker).lanes(), final(worker).lanes(), class)
                    &&& final(effects).released@ == old(effects).released@
                        + seq![waiting.scheduled.capacity_permit]
                    &&& reports_once(
                        old(effects).results@,
                        final(effects).results@,
                        waiting.scheduled.transfer.completion,
                        match result {
                            ChunkSendProgress::Ready(Err(error)) => Err(error),
                            _ => Ok(SendCompletionOutcome::Cancelled),
                        },
                    )
                }
            }
        }),
{
    let waiting = old(worker).lanes().lane(class).head->item;
    assert(old(effects).released@.push(waiting.scheduled.capacity_permit) =~= old(effects).released@ + seq![waiting.scheduled.capacity_permit]);
}

/// A frame that could not be made ends its transfer with that error.
pub proof fn law_unmade_frame_fails_its_transfer<B>(
    worker: &mut OutboundWorker<B>,
    error: Error,
    effects: &mut WorkerEffects,
)
    requires
        old(worker).wf(),
        old(worker).sending() is Some,
        call_ensures(OutboundWorker::<B>::fail_active_frame, (worker, error, effects), ()),
    ensures
        ({
            let active = old(worker).sending()->0;
            &&& final(worker).sending() is None
            &&& lane_goes_on(old(worker).lanes(), final(worker).lanes(), active.lane())
            &&& final(effects).released@ == old(effects).released@
                + seq![active.value().scheduled.capacity_permit]
            &&& reports_once(
                old(effects).results@,
                final(effects).results@,
                active.value().scheduled.transfer.completion,
                Err(error),
            )
        }),
{
    let scheduled = old(worker).sending()->0.value().scheduled;
    assert(old(effects).released@.push(scheduled.capacity_permit) =~= old(effects).released@
        + seq![scheduled.capacity_permit]);
}

/// A transfer is taken into the mailbox, last, exactly if neither it nor the worker was told to stop
/// and the mailbox is open. Otherwise it comes back as it was: with an error from a worker that
/// takes nothing, without one where it was itself told to stop.
pub proof fn law_worker_takes_transfers_while_open<B>(
    worker: &mut OutboundWorker<B>,
    scheduled: ScheduledTransfer<B>,
    stops: StopReading,
    taken: Result<(), (ScheduledTransfer<B>, Option<Error>)>,
)
    requires
        old(worker).wf(),
        call_ensures(OutboundWorker::<B>::submit, (worker, scheduled, &stops), taken),
    ensures
        ({
            let stopped = stops.scheduler || stops.stopped@.contains(scheduled.transfer.stop_token);
            &&& taken is Ok <==> !old(worker).stopping() && !old(worker).inbox().sealed()
                && !stopped
            &&& taken is Ok ==> final(worker).inbox().queued() == old(worker).inbox().queued()
                + seq![OutboundCommand::Submit(scheduled)]
            &&& taken is Err ==> final(worker).inbox().queued() == old(worker).inbox().queued()
            &&& taken matches Err((refused, error)) ==> refused == scheduled && (error is None
                <==> stopped && !old(worker).stopping()) && (error is Some ==> error == Some(
                Error::ChannelSendMessageFailed,
            ))
        }),
{
    assert(old(worker).inbox().queued().push(OutboundCommand::Submit(scheduled)) =~= old(worker).inbox().queued() + seq![OutboundCommand::Submit(scheduled)]);
}

/// A transfer that joins a lane takes the next number and stands last in the lane of its class.
pub proof fn law_enqueued_transfer_stands_last<B>(
    worker: &mut OutboundWorker<B>,
    scheduled: ScheduledTransfer<B>,
)
    requires
        old(worker).wf(),
        old(worker).sending() is None,
        call_ensures(OutboundWorker::<B>::enqueue_transfer, (worker, scheduled), ()),
    ensures
        ({
            let class = scheduled.transfer.route.class;
            let new = QueuedTransfer { id: old(worker).number_to_give(), scheduled };
            let before = old(worker).lanes().lane(class);
            let after = final(worker).lanes().lane(class);
            &&& before.head is Idle ==> after.head == TransferLaneState::Runnable(new)
                && after.queued.len() == 0
            &&& !(before.head is Idle) ==> after.head == before.head && after.queued
                == before.queued + seq![new]
            &&& forall|other: TransferClass|
                other != class ==> #[trigger] final(worker).lanes().lane(other) == old(worker).lanes().lane(other)
            &&& old(worker).number_to_give() < u64::MAX ==> final(worker).number_to_give() == old(worker).number_to_give() + 1
        }),
{
    let class = scheduled.transfer.route.class;
    let new = QueuedTransfer { id: old(worker).number_to_give(), scheduled };
    let before = old(worker).lanes().lane(class);
    assert(old(worker).queues().lane_model(class) == before);
    assert(before.queued.push(new) =~= before.queued + seq![new]);
}

/// The transfers that are cancelled together each give their capacity back once, in order.
proof fn lemma_cancelled_together<B>(
    before: Seq<FinalTransferResult>,
    items: Seq<ScheduledTransfer<B>>,
    item: int,
)
    requires
        0 <= item < items.len(),
    ensures
        cancelled_reports(before, items).len() >= before.len(),
        forall|i: int|
            0 <= i < before.len() ==> #[trigger] cancelled_reports(before, items)[i] == before[i],
        forall|i: int|
            before.len() <= i < cancelled_reports(before, items).len() ==> (
            #[trigger] cancelled_reports(before, items)[i]).result == Ok::<
                SendCompletionOutcome,
                Error,
            >(SendCompletionOutcome::Cancelled),
        items[item].transfer.completion.open ==> exists|i: int|
            before.len() <= i < cancelled_reports(before, items).len() && (
            #[trigger] cancelled_reports(before, items)[i]).reply_to
                == items[item].transfer.completion.reply_to,
    decreases items.len(),
{
    let earlier = cancelled_reports(before, items.drop_last());
    let all = cancelled_reports(before, items);
    if items.len() > 1 {
        lemma_cancelled_together(before, items.drop_last(), 0);
    }
    if item < items.len() - 1 {
        lemma_cancelled_together(before, items.drop_last(), item);
        if items[item].transfer.completion.open {
            let i = choose|i: int|
                before.len() <= i < earlier.len() && (#[trigger] earlier[i]).reply_to
                    == items[item].transfer.completion.reply_to;
            assert(all[i] == earlier[i]);
        }
    } else if items[item].transfer.completion.open {
        assert(all[earlier.len() as int].reply_to
            == items[item].transfer.completion.reply_to);
    }
}

/// A shutdown gives back the capacity of every transfer the worker had: the one being sent, those
/// of its lanes and those of its mailbox. Whoever is still owed a report gets one, and every report
/// that it makes is of a cancellation. Nothing is left, and nothing is measured.
pub proof fn law_shutdown_cancels_everything<B>(
    worker: &mut OutboundWorker<B>,
    effects: &mut WorkerEffects,
    active: ScheduledTransfer<B>,
    class: TransferClass,
    head: QueuedTransfer<B>,
)
    requires
        old(worker).wf(),
        !old(worker).finished(),
        call_ensures(OutboundWorker::<B>::shutdown, (worker, effects), ()),
    ensures
        final(worker).finished(),
        final(worker).stopping(),
        final(worker).sending() is None,
        final(worker).inbox().sealed(),
        final(worker).lanes().lane(class).head is Idle,
        final(worker).lanes().lane(class).queued.len() == 0,
        final(effects).measurements@ == old(effects).measurements@,
        forall|i: int|
            old(effects).results@.len() <= i < final(effects).results@.len() ==> (
            #[trigger] final(effects).results@[i]).result == Ok::<SendCompletionOutcome, Error>(
                SendCompletionOutcome::Cancelled,
            ),
        forall|i: int|
            0 <= i < old(effects).results@.len() ==> #[trigger] final(effects).results@[i] == old(effects).results@[i],
        old(worker).sending() is Some && old(worker).sending()->0.value().scheduled == active ==> {
            &&& final(effects).released@.contains(active.capacity_permit)
            &&& active.transfer.completion.open ==> exists|i: int|
                old(effects).results@.len() <= i < final(effects).results@.len() && (
                #[trigger] final(effects).results@[i]).reply_to
                    == active.transfer.completion.reply_to
        },
        old(worker).lanes().lane(class).head == TransferLaneState::Runnable(head) ==> {
            &&& final(effects).released@.contains(head.scheduled.capacity_permit)
            &&& head.scheduled.transfer.completion.open ==> exists|i: int|
                old(effects).results@.len() <= i < final(effects).results@.len() && (
                #[trigger] final(effects).results@[i]).reply_to
                    == head.scheduled.transfer.completion.reply_to
        },
{
    let cancelled = old(worker).owned() + submitted(old(worker).inbox().backlog());
    let before = old(effects).results@;
    let given = old(effects).released@;
    let permits = permits_of(cancelled);
    if cancelled.len() > 0 {
        lemma_cancelled_together(before, cancelled, 0);
    }
    if old(worker).sending() is Some && old(worker).sending()->0.value().scheduled == active {
        assert(old(worker).owned()[0] == active);
        assert(cancelled[0] == active);
        lemma_cancelled_together(before, cancelled, 0);
        assert(permits[0] == active.capacity_permit);
        assert(final(effects).released@[given.len() as int] == active.capacity_permit);
    }
    if old(worker).lanes().lane(class).head == TransferLaneState::Runnable(head) {
        let lanes = old(worker).lanes();
        let place: int = match class {
            TransferClass::DhtControl => 0,
            TransferClass::Storage => lanes.control.owned().len() as int,
            TransferClass::E2e => (lanes.control.owned() + lanes.storage.owned()).len() as int,
            TransferClass::Application => (lanes.control.owned() + lanes.storage.owned()
                + lanes.e2e.owned()).len() as int,
        };
        assert(lanes.lane(class).owned()[0] == head);
        assert(lanes.owned()[place] == head);
        let at: int = place + (if old(worker).sending() is Some {
            1int
        } else {
            0
        });
        assert(unnumbered(lanes.owned())[place] == head.scheduled);
        assert(old(worker).owned()[at] == head.scheduled);
        assert(cancelled[at] == head.scheduled);
        lemma_cancelled_together(before, cancelled, at);
        assert(permits[at] == head.scheduled.capacity_permit);
        assert(final(effects).released@[given.len() + at] == head.scheduled.capacity_permit);
    }
}

/// A worker with an empty mailbox that is not told to stop serves a head that can run exactly if
/// some head can, and waits exactly if none can; it ends exactly if its mailbox is closed.
pub proof fn law_idle_mailbox_serves_what_can_run<B>(
    worker: &mut OutboundWorker<B>,
    stops: StopReading,
    effects: &mut WorkerEffects,
    step: WorkerStep<B>,
)
    requires
        old(worker).wf(),
        old(worker).sending() is None,
        !old(worker).finished(),
        !old(worker).stopping(),
        old(worker).inbox().queued().len() == 0,
        old(worker).inbox().notified() is None,
        call_ensures(OutboundWorker::<B>::next_step, (worker, &stops, effects), step),
    ensures
        step is Exit <==> old(worker).inbox().sealed(),
        !old(worker).inbox().sealed() ==> (step is WaitForInput <==> forall|class: TransferClass|
            !((#[trigger] old(worker).lanes().lane(class)).head is Runnable)),
        step matches WorkerStep::Send { class, before_first_frame, frame } ==> {
            let head = old(worker).lanes().lane(class).head;
            &&& head is Runnable
            &&& frame.part == head->Runnable_0.scheduled.transfer.source.remaining()[0]
            &&& before_first_frame == !head->Runnable_0.scheduled.transfer.first_frame_admitted
            &&& final(worker).sending() matches Some(sending) && sending.lane() == class
                && sending.value().id == head->Runnable_0.id
        },
{
    assert(old(worker).inbox().backlog().len() == 0);
    assert(old(worker).standing(old(effects)).after_all(old(worker).inbox().backlog(), &stops)
        == old(worker).standing(old(effects)));
    let (drained, taken) = choose|drained: OutboundWorker<B>, taken: WorkerEffects|
        {
            &&& #[trigger] drained.standing(&taken) == old(worker).standing(
                old(effects),
            ).after_all(old(worker).inbox().backlog(), &stops)
            &&& taken.measurements@ == old(effects).measurements@
            &&& drained.queues().same_turns(&old(worker).queues())
            &&& drained.inbox().backlog() == Seq::<OutboundCommand<B>>::empty()
            &&& drained.inbox().sealed() == old(worker).inbox().sealed()
            &&& drained.sending() is None
            &&& drained.input_over() == old(worker).inbox().sealed()
            &&& !drained.stopping()
            &&& !drained.finished()
            &&& if old(worker).inbox().sealed() {
                step is Exit && shut_down(&drained, final(worker), &taken, final(effects))
            } else {
                served(&drained, final(worker), &taken, final(effects), step, &stops)
            }
        };
    assert(drained.lanes() == old(worker).lanes());
    crate::queue::law_cursor_names_a_lower_class(&old(worker).queues());
    crate::queue::law_selection_is_work_conserving(
        |class: TransferClass| drained.queues().runnable(class),
        drained.queues().cursor(),
        drained.queues().control_run(),
        drained.queues().bounds_control(),
    );
    assert forall|class: TransferClass|
        drained.queues().runnable(class) <==> (#[trigger] old(worker).lanes().lane(class)).head
            is Runnable by {
        assert(drained.lanes().lane(class) == drained.queues().lane_model(class));
    }
    if drained.queues().selected() is None {
        assert forall|class: TransferClass| !((#[trigger] old(worker).lanes().lane(class)).head
            is Runnable) by {
            assert(!((|class: TransferClass| drained.queues().runnable(class))(class)));
        }
    }
}

/// A worker that was told to stop ends at its next step.
pub proof fn law_stopped_worker_ends<B>(
    worker: &mut OutboundWorker<B>,
    stops: StopReading,
    effects: &mut WorkerEffects,
    step: WorkerStep<B>,
)
    requires
        old(worker).wf(),
        old(worker).sending() is None,
        !old(worker).finished(),
        old(worker).stopping(),
        call_ensures(OutboundWorker::<B>::next_step, (worker, &stops, effects), step),
    ensures
        step is Exit,
        final(worker).finished(),
        final(worker).sending() is None,
        forall|class: TransferClass|
            (#[trigger] final(worker).lanes().lane(class)).head is Idle,
{
}

/// An idle worker takes its first waiting command: a transfer that was told to stop ends cancelled,
/// any other stands last in its lane under the next number. Without a command it reads its mailbox
/// as closed exactly if it is.
pub proof fn law_idle_worker_takes_its_first_command<B>(
    worker: &mut OutboundWorker<B>,
    stops: StopReading,
    effects: &mut WorkerEffects,
    input: InputStep,
    scheduled: ScheduledTransfer<B>,
)
    requires
        old(worker).wf(),
        old(worker).sending() is None,
        !old(worker).finished(),
        !old(worker).stopping(),
        call_ensures(OutboundWorker::<B>::poll_input, (worker, &stops, effects), input),
    ensures
        input is Handled <==> old(worker).inbox().queued().len() > 0 || old(worker).inbox().notified() is Some,
        input is Closed <==> old(worker).inbox().queued().len() == 0 && old(worker).inbox().notified() is None && old(worker).inbox().sealed(),
        old(worker).inbox().queued().len() > 0 && old(worker).inbox().queued()[0]
            == OutboundCommand::Submit(scheduled) ==> {
            let stopped = stops.scheduler || stops.stopped@.contains(scheduled.transfer.stop_token);
            &&& stopped ==> final(worker).lanes() == old(worker).lanes() && final(effects).released@ == old(effects).released@ + seq![scheduled.capacity_permit]
                && reports_once(
                old(effects).results@,
                final(effects).results@,
                scheduled.transfer.completion,
                Ok(SendCompletionOutcome::Cancelled),
            )
            &&& !stopped ==> final(effects).released@ == old(effects).released@ && final(effects).results@ == old(effects).results@ && {
                let class = scheduled.transfer.route.class;
                let new = QueuedTransfer { id: old(worker).number_to_give(), scheduled };
                let before = old(worker).lanes().lane(class);
                let after = final(worker).lanes().lane(class);
                &&& before.head is Idle ==> after.head == TransferLaneState::Runnable(new)
                &&& !(before.head is Idle) ==> after.head == before.head && after.queued
                    == before.queued + seq![new]
            }
        },
{
    if old(worker).inbox().queued().len() > 0 && old(worker).inbox().queued()[0]
        == OutboundCommand::Submit(scheduled) {
        assert(old(worker).inbox().backlog()[0] == OutboundCommand::Submit(scheduled));
        let class = scheduled.transfer.route.class;
        let new = QueuedTransfer { id: old(worker).number_to_give(), scheduled };
        let before = old(worker).lanes().lane(class);
        assert(before.queued.push(new) =~= before.queued + seq![new]);
        assert(old(effects).released@.push(scheduled.capacity_permit) =~= old(effects).released@
            + seq![scheduled.capacity_permit]);
        let standing = old(worker).standing(old(effects)).after(
            OutboundCommand::Submit(scheduled),
            &stops,
        );
        assert(final(worker).standing(final(effects)) == standing);
        assert(final(worker).lanes() == standing.lanes);
        assert(final(effects).released@ == standing.released);
        assert(final(effects).results@ == standing.results);
    }
}

/// A scan for stopped transfers cancels exactly the ready ones that were told to stop and leaves a
/// head that waits for a delivery alone.
pub proof fn law_scan_cancels_stopped_ready_transfers<B>(
    standing: Handled<B>,
    stops: StopReading,
    class: TransferClass,
    queued: QueuedTransfer<B>,
)
    ensures
        ({
            let after = standing.after(OutboundCommand::CancelStopped, &stops);
            let stopped = stops.scheduler || stops.stopped@.contains(
                queued.scheduled.transfer.stop_token,
            );
            &&& after.lanes.lane(class).ready().contains(queued) <==> standing.lanes.lane(
                class,
            ).ready().contains(queued) && !stopped
            &&& standing.lanes.lane(class).head is WaitingDelivery ==> after.lanes.lane(class).head
                == standing.lanes.lane(class).head
            &&& after.next_id == standing.next_id
        }),
{
    let stopped = |queued: QueuedTransfer<B>| queued.scheduled.transfer.stopped(&stops);
    let unstopped = |queued: QueuedTransfer<B>| !stopped(queued);
    let lane = standing.lanes.lane(class);
    let kept = lane.ready().filter(unstopped);
    let after = standing.after(OutboundCommand::CancelStopped, &stops);
    assert(standing.lanes.swept(stopped).lane(class) == lane.keeping(kept));
    assert(lane.keeping(kept).ready() =~= kept);
    assert(after.lanes.lane(class).ready() == kept);
    if lane.ready().contains(queued) && unstopped(queued) {
        let i = choose|i: int| 0 <= i < lane.ready().len() && lane.ready()[i] == queued;
        lane.ready().lemma_filter_contains(unstopped, i);
    }
    if kept.contains(queued) {
        let i = choose|i: int| 0 <= i < kept.len() && kept[i] == queued;
        lane.ready().lemma_filter_pred(unstopped, i);
        lane.ready().lemma_filter_contains_rev(unstopped, queued);
    }
}

/// A worker that is told to stop while a frame is out ends with it. An attached transfer is told as
/// cancelled if its frame was accepted or cancelled after the first, and of the frame's error
/// otherwise; it is never told of success. The worker keeps nothing.
pub proof fn law_stopping_worker_tells_no_attached_success<B>(
    worker: &mut OutboundWorker<B>,
    before_first_frame: bool,
    admission: ChunkSendProgress<Result<(), Error>>,
    detached: &mut Option<DetachedAdmission>,
    effects: &mut WorkerEffects,
)
    requires
        old(worker).wf(),
        old(worker).sending() is Some,
        !old(worker).finished(),
        old(worker).sending()->0.value().scheduled.transfer.completion.open,
        old(worker).sending()->0.value().scheduled.transfer.completion.policy
            == OutboundCompletion::Attached,
        call_ensures(
            OutboundWorker::<B>::finalize_stopped_active_admission,
            (worker, before_first_frame, admission, detached, effects),
            (),
        ),
    ensures
        final(worker).finished(),
        final(worker).sending() is None,
        ({
            let at = old(effects).results@.len() as int;
            let told = final(effects).results@[at];
            &&& at < final(effects).results@.len()
            &&& told.reply_to == old(worker).sending()->0.value().scheduled.transfer.completion.reply_to
            &&& told.result != Ok::<SendCompletionOutcome, Error>(SendCompletionOutcome::Succeeded)
            &&& (admission matches ChunkSendProgress::Ready(Ok(()))) ==> told.result == Ok::<
                SendCompletionOutcome,
                Error,
            >(SendCompletionOutcome::Cancelled)
            &&& admission matches ChunkSendProgress::Ready(Err(error)) ==> told.result == Err::<
                SendCompletionOutcome,
                Error,
            >(error)
            &&& admission is Cancelled && !before_first_frame ==> told.result == Ok::<
                SendCompletionOutcome,
                Error,
            >(SendCompletionOutcome::Cancelled)
            &&& forall|i: int|
                at < i < final(effects).results@.len() ==> (#[trigger] final(effects).results@[i]).result == Ok::<SendCompletionOutcome, Error>(
                    SendCompletionOutcome::Cancelled,
                )
        }),
{
    let scheduled = old(worker).sending()->0.value().scheduled;
    let rest = unnumbered(old(worker).lanes().owned()) + submitted(old(worker).inbox().backlog());
    let first = match admission {
        ChunkSendProgress::Ready(Ok(())) => scheduled.transfer.completion.report(
            Ok(SendCompletionOutcome::Cancelled),
        ),
        ChunkSendProgress::Ready(Err(error)) => scheduled.transfer.completion.report(Err(error)),
        ChunkSendProgress::Cancelled(reason) => scheduled.transfer.completion.report(
            cancelled_result(before_first_frame, reason),
        ),
    };
    let results = with_report(old(effects).results@, first);
    assert(final(effects).results@ == cancelled_reports(results, rest));
    if rest.len() > 0 {
        lemma_cancelled_together(results, rest, 0);
    }
    assert(final(effects).results@[old(effects).results@.len() as int] == results.last());
}

/// The transfer of `token` is told to stop, with its worker or by its caller.
pub open spec fn told_to_stop(stops: StopReading, token: u64) -> bool {
    stops.scheduler || stops.stopped@.contains(token)
}

/// A submitted transfer that was not told to stop stands last in the lane of its class under the
/// next number, and nothing is given back. One that was told to stop gives its capacity back, and
/// its caller, if still untold, is told that it was cancelled.
pub proof fn law_submitted_transfer_is_queued_or_cancelled<B>(
    worker: &mut OutboundWorker<B>,
    scheduled: ScheduledTransfer<B>,
    commands: VecDeque<OutboundCommand<B>>,
    stops: StopReading,
    effects: &mut WorkerEffects,
    done: (),
    other: TransferClass,
)
    requires
        old(worker).wf(),
        old(worker).sending() is None,
        !old(worker).finished(),
        !old(worker).stopping(),
        commands@ == seq![OutboundCommand::Submit(scheduled)],
        call_ensures(
            OutboundWorker::<B>::handle_commands,
            (worker, commands, &stops, effects),
            done,
        ),
        other != scheduled.transfer.route.class,
    ensures
        ({
            let class = scheduled.transfer.route.class;
            let stopped = told_to_stop(stops, scheduled.transfer.stop_token);
            let new = QueuedTransfer { id: old(worker).number_to_give(), scheduled };
            let before = old(worker).lanes().lane(class);
            let after = final(worker).lanes().lane(class);
            &&& stopped ==> {
                &&& after == before
                &&& final(effects).released@ == old(effects).released@ + seq![
                    scheduled.capacity_permit,
                ]
                &&& reports_once(
                    old(effects).results@,
                    final(effects).results@,
                    scheduled.transfer.completion,
                    Ok(SendCompletionOutcome::Cancelled),
                )
                &&& final(worker).number_to_give() == old(worker).number_to_give()
            }
            &&& !stopped ==> {
                &&& before.head is Idle ==> after.head == TransferLaneState::Runnable(new)
                    && after.queued == before.queued
                &&& !(before.head is Idle) ==> after.head == before.head && after.queued
                    == before.queued + seq![new]
                &&& final(effects).released@ == old(effects).released@
                &&& final(effects).results@ == old(effects).results@
                &&& old(worker).number_to_give() < u64::MAX ==> final(worker).number_to_give()
                    == old(worker).number_to_give() + 1
            }
            &&& final(worker).lanes().lane(other) == old(worker).lanes().lane(other)
            &&& final(effects).measurements@ == old(effects).measurements@
        }),
{
    let class = scheduled.transfer.route.class;
    let standing = old(worker).standing(&*old(effects));
    assert(commands@.drop_last() =~= Seq::<OutboundCommand<B>>::empty());
    assert(standing.after_all(commands@.drop_last(), &stops) == standing);
    assert(standing.after_all(commands@, &stops) == standing.after(
        OutboundCommand::Submit(scheduled),
        &stops,
    ));
    assert(old(effects).released@.push(scheduled.capacity_permit) =~= old(effects).released@ + seq![
        scheduled.capacity_permit,
    ]);
    let new = QueuedTransfer { id: old(worker).number_to_give(), scheduled };
    let before = old(worker).lanes().lane(class);
    assert(before.queued.push(new) =~= before.queued + seq![new]);
}

/// Handling commands one after the other comes to the same as handling them together, and draining
/// the mailbox comes to the same as handling what it holds.
pub proof fn law_commands_are_handled_in_order<B>(
    earlier: &mut OutboundWorker<B>,
    first: VecDeque<OutboundCommand<B>>,
    earlier_effects: &mut WorkerEffects,
    later: &mut OutboundWorker<B>,
    last: VecDeque<OutboundCommand<B>>,
    later_effects: &mut WorkerEffects,
    together: &mut OutboundWorker<B>,
    all: VecDeque<OutboundCommand<B>>,
    together_effects: &mut WorkerEffects,
    drained: &mut OutboundWorker<B>,
    drained_effects: &mut WorkerEffects,
    command: OutboundCommand<B>,
    stops: StopReading,
    done: (),
)
    requires
        old(earlier).wf(),
        old(earlier).sending() is None,
        !old(earlier).finished(),
        !old(earlier).stopping(),
        call_ensures(
            OutboundWorker::<B>::handle_commands,
            (earlier, first, &stops, earlier_effects),
            done,
        ),
        *old(later) == *final(earlier),
        *old(later_effects) == *final(earlier_effects),
        last@ == seq![command],
        call_ensures(
            OutboundWorker::<B>::handle_commands,
            (later, last, &stops, later_effects),
            done,
        ),
        *old(together) == *old(earlier),
        *old(together_effects) == *old(earlier_effects),
        all@ == first@ + seq![command],
        call_ensures(
            OutboundWorker::<B>::handle_commands,
            (together, all, &stops, together_effects),
            done,
        ),
        *old(drained) == *old(earlier),
        *old(drained_effects) == *old(earlier_effects),
        old(drained).inbox().backlog() == all@,
        call_ensures(
            OutboundWorker::<B>::drain_available,
            (drained, &stops, drained_effects),
            done,
        ),
    ensures
        final(together).lanes() == final(later).lanes(),
        final(together).number_to_give() == final(later).number_to_give(),
        final(together_effects).released@ == final(later_effects).released@,
        final(together_effects).results@ == final(later_effects).results@,
        final(drained).lanes() == final(later).lanes(),
        final(drained).number_to_give() == final(later).number_to_give(),
        final(drained_effects).released@ == final(later_effects).released@,
        final(drained_effects).results@ == final(later_effects).results@,
        final(drained).inbox().queued().len() == 0,
        final(drained).inbox().notified() is None,
        final(drained).input_over() == old(drained).inbox().sealed(),
{
    let begun = old(earlier).standing(&*old(earlier_effects));
    let middle = final(earlier).standing(&*final(earlier_effects));
    assert(all@.drop_last() =~= first@);
    assert(all@.last() == command);
    assert(last@.drop_last() =~= Seq::<OutboundCommand<B>>::empty());
    assert(middle.after_all(last@.drop_last(), &stops) == middle);
    assert(middle.after_all(last@, &stops) == middle.after(command, &stops));
    assert(begun.after_all(all@, &stops) == begun.after_all(first@, &stops).after(
        command,
        &stops,
    ));
    let inbox = final(drained).inbox();
    if inbox.notified() is Some {
        assert(inbox.backlog().len() > 0);
    }
}

/// A cancellation takes the ready transfers that were told to stop out of their lanes, gives their
/// capacity back, and tells nobody anything but a cancellation. The others stay, and so does a
/// transfer whose frame is out for delivery.
pub proof fn law_cancellation_sweeps_what_was_stopped<B>(
    worker: &mut OutboundWorker<B>,
    commands: VecDeque<OutboundCommand<B>>,
    stops: StopReading,
    effects: &mut WorkerEffects,
    done: (),
    class: TransferClass,
    i: int,
)
    requires
        old(worker).wf(),
        old(worker).sending() is None,
        !old(worker).finished(),
        !old(worker).stopping(),
        commands@ == seq![OutboundCommand::<B>::CancelStopped],
        call_ensures(
            OutboundWorker::<B>::handle_commands,
            (worker, commands, &stops, effects),
            done,
        ),
        0 <= i < old(worker).lanes().lane(class).ready().len(),
    ensures
        ({
            let before = old(worker).lanes().lane(class);
            let after = final(worker).lanes().lane(class);
            let queued = before.ready()[i];
            let stopped = told_to_stop(stops, queued.scheduled.transfer.stop_token);
            &&& !stopped ==> after.ready().contains(queued)
            &&& stopped ==> !after.ready().contains(queued)
            &&& stopped ==> final(effects).released@.contains(queued.scheduled.capacity_permit)
            &&& stopped && queued.scheduled.transfer.completion.open ==> exists|k: int|
                old(effects).results@.len() <= k < final(effects).results@.len() && (
                #[trigger] final(effects).results@[k]).reply_to
                    == queued.scheduled.transfer.completion.reply_to
            &&& stopped ==> forall|k: int|
                old(effects).results@.len() <= k < final(effects).results@.len() ==> (
                #[trigger] final(effects).results@[k]).result == Ok::<SendCompletionOutcome, Error>(
                    SendCompletionOutcome::Cancelled,
                )
            &&& before.head is WaitingDelivery ==> after.head == before.head
            &&& after.ready().len() <= before.ready().len()
            &&& final(worker).number_to_give() == old(worker).number_to_give()
        }),
{
    let standing = old(worker).standing(&*old(effects));
    assert(commands@.drop_last() =~= Seq::<OutboundCommand<B>>::empty());
    assert(standing.after_all(commands@.drop_last(), &stops) == standing);
    assert(standing.after_all(commands@, &stops) == standing.after(
        OutboundCommand::CancelStopped,
        &stops,
    ));
    let stopped = |queued: QueuedTransfer<B>| queued.scheduled.transfer.stopped(&stops);
    let unstopped = |queued: QueuedTransfer<B>| !stopped(queued);
    let before = old(worker).lanes().lane(class);
    let queued = before.ready()[i];
    let after = final(worker).lanes().lane(class);
    assert(after == before.keeping(before.ready().filter(unstopped)));
    before.ready().lemma_filter_len(unstopped);
    assert(after.ready() =~= before.ready().filter(unstopped));
    if stopped(queued) {
        if after.ready().contains(queued) {
            let k = choose|k: int| 0 <= k < after.ready().len() && after.ready()[k] == queued;
            before.ready().lemma_filter_pred(unstopped, k);
        }
        before.ready().lemma_filter_contains(stopped, i);
        let taken = old(worker).lanes().ready_where(stopped);
        let lanes = old(worker).lanes();
        let part = before.ready().filter(stopped);
        let k = choose|k: int| 0 <= k < part.len() && part[k] == queued;
        let control = lanes.control.ready().filter(stopped).len();
        let storage = lanes.storage.ready().filter(stopped).len();
        let e2e = lanes.e2e.ready().filter(stopped).len();
        let at = match class {
            TransferClass::DhtControl => k,
            TransferClass::Storage => control + k,
            TransferClass::E2e => control + storage + k,
            TransferClass::Application => control + storage + e2e + k,
        };
        assert(taken[at] == queued);
        let permits = permits_of(unnumbered(taken));
        assert(permits[at] == queued.scheduled.capacity_permit);
        assert(unnumbered(taken)[at] == queued.scheduled);
        lemma_cancelled_together(old(effects).results@, unnumbered(taken), at);
        assert(final(effects).released@ == old(effects).released@ + permits);
        assert(final(effects).released@[old(effects).released@.len() + at]
            == queued.scheduled.capacity_permit);
    } else {
        before.ready().lemma_filter_contains(unstopped, i);
    }
}

/// A worker told to shut down takes no more commands and keeps what it has; one asked to look for
/// stopped transfers is, unless its mailbox is closed.
pub proof fn law_shutdown_request_closes_the_mailbox<B>(
    shut: &mut OutboundWorker<B>,
    shut_done: (),
    asking: &mut OutboundWorker<B>,
    asked: bool,
)
    requires
        old(shut).wf(),
        call_ensures(OutboundWorker::<B>::request_shutdown, (shut,), shut_done),
        old(asking).wf(),
        call_ensures(OutboundWorker::<B>::cancel_stopped, (asking,), asked),
    ensures
        final(shut).stopping(),
        final(shut).inbox().sealed(),
        final(shut).inbox().queued() == old(shut).inbox().queued(),
        final(shut).lanes() == old(shut).lanes(),
        final(shut).sending() == old(shut).sending(),
        asked <==> !old(asking).inbox().sealed(),
        asked ==> final(asking).inbox().notified() == Some(OutboundCommand::<B>::CancelStopped),
        !asked ==> final(asking).inbox().notified() == old(asking).inbox().notified(),
        final(asking).inbox().queued() == old(asking).inbox().queued(),
        final(asking).lanes() == old(asking).lanes(),
        final(asking).stopping() == old(asking).stopping(),
{
}

/// The transfer being sent offers its next frame, unless it was told to stop or has none left; a
/// frame that is offered is taken off, and only that one.
pub proof fn law_next_frame_is_the_first_left<B>(
    worker: &mut OutboundWorker<B>,
    stops: StopReading,
    step: Option<ActiveFrameStep<B>>,
    observed: OutboundWorker<B>,
    route: Option<(OutboundTransferRoute, u64)>,
)
    requires
        old(worker).wf(),
        old(worker).sending() is Some,
        call_ensures(OutboundWorker::<B>::prepare_active_frame, (worker, &stops), step),
        call_ensures(OutboundWorker::<B>::active_route, (&observed,), route),
    ensures
        ({
            let transfer = old(worker).sending()->0.value().scheduled.transfer;
            let left = transfer.source.remaining();
            let stopped = told_to_stop(stops, transfer.stop_token);
            let rest = final(worker).sending()->0.value().scheduled.transfer.source.remaining();
            &&& step is Some
            &&& step->0 is Stopped <==> stopped
            &&& step->0 is Complete <==> !stopped && left.len() == 0
            &&& step->0 is Send <==> !stopped && left.len() > 0
            &&& step->0 matches ActiveFrameStep::Send { class, before_first_frame, frame } ==> {
                &&& class == old(worker).sending()->0.lane()
                &&& before_first_frame == !transfer.first_frame_admitted
                &&& frame.part == left[0]
                &&& rest == left.skip(1)
            }
            &&& !(step->0 is Send) ==> rest == left
            &&& final(worker).sending() is Some
            &&& final(worker).lanes() == old(worker).lanes()
        }),
        route is Some <==> observed.sending() is Some,
        route matches Some((to, token)) ==> to
            == observed.sending()->0.value().scheduled.transfer.route && token
            == observed.sending()->0.value().scheduled.transfer.stop_token,
{
    let transfer = old(worker).sending()->0.value().scheduled.transfer;
    assert(transfer.source.remaining().skip(0) =~= transfer.source.remaining());
}

/// With nothing in its mailbox a worker waits without a change, or ends a lane's head that was told
/// to stop or has nothing left, or takes a head's next frame. The head's capacity is given back and
/// its caller told only where it ended: of a cancellation, or of a success that is measured too.
pub proof fn law_idle_step_ends_or_sends_a_head<B>(
    worker: &mut OutboundWorker<B>,
    stops: StopReading,
    effects: &mut WorkerEffects,
    step: WorkerStep<B>,
)
    requires
        old(worker).wf(),
        old(worker).sending() is None,
        !old(worker).finished(),
        !old(worker).stopping(),
        old(worker).inbox().queued().len() == 0,
        old(worker).inbox().notified() is None,
        !old(worker).inbox().sealed(),
        call_ensures(OutboundWorker::<B>::next_step, (worker, &stops, effects), step),
    ensures
        step is WaitForInput || step is Continue || step is Send,
        final(worker).sending() is Some <==> step is Send,
        step is WaitForInput || step is Send ==> final(effects).released@ == old(effects).released@ && final(effects).results@ == old(effects).results@
            && final(effects).measurements@ == old(effects).measurements@,
        step is WaitForInput ==> final(worker).lanes() == old(worker).lanes(),
        step is Continue ==> exists|class: TransferClass|
            {
                let head = (#[trigger] old(worker).lanes().lane(class)).head;
                let scheduled = head->Runnable_0.scheduled;
                let stopped = told_to_stop(stops, scheduled.transfer.stop_token);
                &&& head is Runnable
                &&& stopped || scheduled.transfer.source.remaining().len() == 0
                &&& lane_goes_on(old(worker).lanes(), final(worker).lanes(), class)
                &&& final(effects).released@ == old(effects).released@ + seq![
                    scheduled.capacity_permit,
                ]
                &&& reports_once(
                    old(effects).results@,
                    final(effects).results@,
                    scheduled.transfer.completion,
                    if stopped {
                        Ok(SendCompletionOutcome::Cancelled)
                    } else {
                        Ok(SendCompletionOutcome::Succeeded)
                    },
                )
                &&& final(effects).measurements@ == (if stopped {
                    old(effects).measurements@
                } else {
                    old(effects).measurements@ + seq![
                        OutboundMeasurement::Sent {
                            useful_bytes: scheduled.transfer.useful_bytes,
                        },
                    ]
                })
            },
{
    assert(old(worker).inbox().backlog().len() == 0);
    assert(old(worker).standing(old(effects)).after_all(old(worker).inbox().backlog(), &stops)
        == old(worker).standing(old(effects)));
    let (drained, taken) = choose|drained: OutboundWorker<B>, taken: WorkerEffects|
        {
            &&& #[trigger] drained.standing(&taken) == old(worker).standing(
                old(effects),
            ).after_all(old(worker).inbox().backlog(), &stops)
            &&& taken.measurements@ == old(effects).measurements@
            &&& drained.queues().same_turns(&old(worker).queues())
            &&& drained.inbox().backlog() == Seq::<OutboundCommand<B>>::empty()
            &&& drained.inbox().sealed() == old(worker).inbox().sealed()
            &&& drained.sending() is None
            &&& drained.input_over() == old(worker).inbox().sealed()
            &&& !drained.stopping()
            &&& !drained.finished()
            &&& if old(worker).inbox().sealed() {
                step is Exit && shut_down(&drained, final(worker), &taken, final(effects))
            } else {
                served(&drained, final(worker), &taken, final(effects), step, &stops)
            }
        };
    assert(drained.lanes() == old(worker).lanes());
    crate::queue::law_cursor_names_a_lower_class(&old(worker).queues());
    crate::queue::law_selection_is_work_conserving(
        |class: TransferClass| drained.queues().runnable(class),
        drained.queues().cursor(),
        drained.queues().control_run(),
        drained.queues().bounds_control(),
    );
    assert forall|class: TransferClass|
        drained.queues().runnable(class) <==> (#[trigger] old(worker).lanes().lane(class)).head
            is Runnable by {
        assert(drained.lanes().lane(class) == drained.queues().lane_model(class));
    }
    if drained.queues().selected() is None {
        assert forall|class: TransferClass| !((#[trigger] old(worker).lanes().lane(class)).head
            is Runnable) by {
            assert(!((|class: TransferClass| drained.queues().runnable(class))(class)));
        }
    }
    if let Some(class) = drained.queues().selected() {
        assert(drained.queues().runnable(class));
        let head = old(worker).lanes().lane(class).head;
        let scheduled = head->Runnable_0.scheduled;
        assert(old(effects).released@.push(scheduled.capacity_permit) =~= old(effects).released@
            + seq![scheduled.capacity_permit]);
        assert(old(effects).measurements@.push(
            OutboundMeasurement::Sent { useful_bytes: scheduled.transfer.useful_bytes },
        ) =~= old(effects).measurements@ + seq![
            OutboundMeasurement::Sent { useful_bytes: scheduled.transfer.useful_bytes },
        ]);
        if step is Continue {
            assert(lane_goes_on(old(worker).lanes(), final(worker).lanes(), class));
        }
    }
}

} // verus!

//! Fair selection among the transfer lanes of one peer.
//!
//! Each class owns one lane: a head and the transfers behind it, first come first. Control heads
//! go first, but after a bounded burst of control frames a runnable lower head goes next. Lower
//! heads take turns.

use std::collections::VecDeque;
use vstd::prelude::*;

use crate::class::TransferClass;
use crate::lane_run::finish_of;
use crate::lane_run::lane_step;
use crate::lane_run::lanes_kept;
use crate::lane_run::remove_of;
use crate::lane_run::LaneCall;
use crate::protection::ProtectionProfile;

verus! {

/// Control frames in a row while lower work waits: control gets at most four in five.
pub const OUTBOUND_CONTROL_BURST: usize = 4;

/// The head of a lane.
pub enum TransferLaneState<T> {
    /// No head: nothing is there, or the head is being sent.
    Idle,
    /// The head can send its next frame.
    Runnable(T),
    /// The head waits for the delivery numbered `id`.
    WaitingDelivery { id: u64, item: T },
}

/// A lane as a value: its head, and the transfers behind it.
#[verifier::ext_equal]
pub struct LaneModel<T> {
    /// The head.
    pub head: TransferLaneState<T>,
    /// The transfers behind it, next first.
    pub queued: Seq<T>,
}

impl<T> LaneModel<T> {
    /// The empty lane.
    pub open spec fn empty() -> LaneModel<T> {
        LaneModel { head: TransferLaneState::Idle, queued: Seq::empty() }
    }

    /// Every transfer the lane owns, head first.
    pub open spec fn owned(self) -> Seq<T> {
        match self.head {
            TransferLaneState::Idle => self.queued,
            TransferLaneState::Runnable(item) => seq![item] + self.queued,
            TransferLaneState::WaitingDelivery { item, .. } => seq![item] + self.queued,
        }
    }

    /// The transfers that wait for no delivery, in lane order.
    pub open spec fn ready(self) -> Seq<T> {
        match self.head {
            TransferLaneState::Runnable(item) => seq![item] + self.queued,
            _ => self.queued,
        }
    }

    /// The lane with `item` last.
    pub open spec fn enqueued(self, item: T) -> LaneModel<T> {
        if self.head is Idle {
            LaneModel { head: TransferLaneState::Runnable(item), queued: self.queued }
        } else {
            LaneModel { head: self.head, queued: self.queued.push(item) }
        }
    }

    /// The lane without its head.
    pub open spec fn headless(self) -> LaneModel<T> {
        LaneModel { head: TransferLaneState::Idle, queued: self.queued }
    }

    /// The lane once its head is done: the next transfer becomes the head.
    pub open spec fn finished(self) -> LaneModel<T> {
        if self.queued.len() > 0 {
            LaneModel {
                head: TransferLaneState::Runnable(self.queued[0]),
                queued: self.queued.drop_first(),
            }
        } else {
            LaneModel { head: TransferLaneState::Idle, queued: self.queued }
        }
    }

    /// The head waits for the delivery numbered `id`.
    pub open spec fn waits_for(self, id: u64) -> bool {
        match self.head {
            TransferLaneState::WaitingDelivery { id: waiting, .. } => waiting == id,
            _ => false,
        }
    }

    /// The lane of which only `kept` of the ready transfers are left.
    pub open spec fn keeping(self, kept: Seq<T>) -> LaneModel<T> {
        match self.head {
            TransferLaneState::Runnable(_) => if kept.len() > 0 {
                LaneModel {
                    head: TransferLaneState::Runnable(kept[0]),
                    queued: kept.drop_first(),
                }
            } else {
                LaneModel { head: TransferLaneState::Idle, queued: kept }
            },
            _ => LaneModel { head: self.head, queued: kept },
        }
    }
}

/// The items of `items` whose verdict is `wanted`, in order.
pub open spec fn picked<T>(items: Seq<T>, verdicts: Seq<bool>, wanted: bool) -> Seq<T>
    decreases items.len(),
{
    if items.len() == 0 || verdicts.len() != items.len() {
        Seq::empty()
    } else {
        let earlier = picked(items.drop_last(), verdicts.drop_last(), wanted);
        if verdicts.last() == wanted {
            earlier.push(items.last())
        } else {
            earlier
        }
    }
}

/// `verdicts` are the answers of `predicate` on `items`, one each.
pub open spec fn answers<T, F: Fn(&T) -> bool>(
    predicate: F,
    items: Seq<T>,
    verdicts: Seq<bool>,
) -> bool {
    &&& verdicts.len() == items.len()
    &&& forall|i: int|
        0 <= i < items.len() ==> #[trigger] predicate.ensures((&items[i],), verdicts[i])
}

/// The verdicts of a spec predicate split a sequence as filtering does.
pub proof fn lemma_picked_is_filter<T>(
    items: Seq<T>,
    verdicts: Seq<bool>,
    wanted: spec_fn(T) -> bool,
)
    requires
        verdicts.len() == items.len(),
        forall|i: int| 0 <= i < items.len() ==> #[trigger] verdicts[i] == wanted(items[i]),
    ensures
        picked(items, verdicts, true) == items.filter(wanted),
        picked(items, verdicts, false) == items.filter(|item: T| !wanted(item)),
    decreases items.len(),
{
    reveal(Seq::filter);
    if items.len() > 0 {
        lemma_picked_is_filter(items.drop_last(), verdicts.drop_last(), wanted);
    }
}

proof fn lemma_picked_push<T>(items: Seq<T>, verdicts: Seq<bool>, item: T, verdict: bool)
    requires
        items.len() == verdicts.len(),
    ensures
        picked(items.push(item), verdicts.push(verdict), true) == (if verdict {
            picked(items, verdicts, true).push(item)
        } else {
            picked(items, verdicts, true)
        }),
        picked(items.push(item), verdicts.push(verdict), false) == (if verdict {
            picked(items, verdicts, false)
        } else {
            picked(items, verdicts, false).push(item)
        }),
{
    assert(items.push(item).drop_last() =~= items);
    assert(verdicts.push(verdict).drop_last() =~= verdicts);
}

/// A lane: its head, and the transfers behind it.
pub struct TransferLane<T> {
    state: TransferLaneState<T>,
    queued: VecDeque<T>,
}

impl<T> TransferLane<T> {
    /// The lane as a value.
    pub closed spec fn view(&self) -> LaneModel<T> {
        LaneModel { head: self.state, queued: self.queued@ }
    }

    /// The empty lane.
    pub fn new() -> (lane: Self)
        ensures
            lane@ == LaneModel::<T>::empty(),
    {
        TransferLane { state: TransferLaneState::Idle, queued: VecDeque::new() }
    }

    /// Put `item` last.
    fn enqueue(&mut self, item: T)
        ensures
            final(self)@ == old(self)@.enqueued(item),
    {
        if matches!(self.state, TransferLaneState::Idle) {
            self.state = TransferLaneState::Runnable(item);
        } else {
            self.queued.push_back(item);
        }
    }

    /// Whether the head can send its next frame.
    fn is_runnable(&self) -> (runnable: bool)
        ensures
            runnable == (self@.head is Runnable),
    {
        matches!(self.state, TransferLaneState::Runnable(_))
    }

    /// Take the head.
    fn take_head(&mut self) -> (head: TransferLaneState<T>)
        ensures
            head == old(self)@.head,
            final(self)@ == old(self)@.headless(),
    {
        let mut head: TransferLaneState<T> = TransferLaneState::Idle;
        core::mem::swap(&mut self.state, &mut head);
        head
    }

    /// Take a runnable head.
    fn take_runnable(&mut self) -> (taken: Option<T>)
        ensures
            match old(self)@.head {
                TransferLaneState::Runnable(item) => taken == Some(item) && final(self)@
                    == old(self)@.headless(),
                _ => taken is None && final(self)@ == old(self)@,
            },
    {
        match self.take_head() {
            TransferLaneState::Runnable(item) => Some(item),
            state => {
                self.state = state;
                None
            },
        }
    }

    /// Make `item` the head, waiting for the delivery numbered `id`.
    fn wait_for_delivery(&mut self, id: u64, item: T)
        requires
            old(self)@.head is Idle,
        ensures
            final(self)@ == (LaneModel {
                head: TransferLaneState::WaitingDelivery { id, item },
                queued: old(self)@.queued,
            }),
    {
        self.state = TransferLaneState::WaitingDelivery { id, item };
    }

    /// Take the head that waits for the delivery numbered `id`.
    fn take_waiting(&mut self, id: u64) -> (taken: Option<T>)
        ensures
            if old(self)@.waits_for(id) {
                &&& taken == Some(old(self)@.head->item)
                &&& final(self)@ == old(self)@.headless()
            } else {
                &&& taken is None
                &&& final(self)@ == old(self)@
            },
    {
        match self.take_head() {
            TransferLaneState::WaitingDelivery { id: waiting_id, item } => {
                if waiting_id == id {
                    return Some(item);
                }
                self.state = TransferLaneState::WaitingDelivery { id: waiting_id, item };
                None
            },
            state => {
                self.state = state;
                None
            },
        }
    }

    /// Make `item` the runnable head.
    fn make_runnable(&mut self, item: T)
        requires
            old(self)@.head is Idle,
        ensures
            final(self)@ == (LaneModel {
                head: TransferLaneState::Runnable(item),
                queued: old(self)@.queued,
            }),
    {
        self.state = TransferLaneState::Runnable(item);
    }

    /// Go on to the next transfer.
    fn finish_current(&mut self)
        ensures
            final(self)@ == old(self)@.finished(),
    {
        match self.queued.pop_front() {
            Some(next) => {
                self.state = TransferLaneState::Runnable(next);
                proof {
                    assert(self.queued@ =~= old(self)@.queued.drop_first());
                }
            },
            None => {
                self.state = TransferLaneState::Idle;
            },
        }
    }

    /// Move every transfer of the lane to the end of `transfers`, head first.
    fn drain_into(&mut self, transfers: &mut Vec<T>)
        ensures
            final(self)@ == LaneModel::<T>::empty(),
            final(transfers)@ == old(transfers)@ + old(self)@.owned(),
    {
        let ghost owned = self@.owned();
        let ghost given = transfers@;
        match self.take_head() {
            TransferLaneState::Runnable(item) => {
                transfers.push(item);
            },
            TransferLaneState::WaitingDelivery { item, .. } => {
                transfers.push(item);
            },
            TransferLaneState::Idle => {},
        }
        assert(transfers@ + self.queued@ =~= given + owned);
        loop
            invariant
                self.state is Idle,
                transfers@ + self.queued@ == given + owned,
            ensures
                self.queued@.len() == 0,
                self.state is Idle,
                transfers@ + self.queued@ == given + owned,
            decreases self.queued@.len(),
        {
            let item = match self.queued.pop_front() {
                Some(item) => item,
                None => {
                    break ;
                },
            };
            let ghost queued_before = seq![item] + self.queued@;
            let ghost moved = transfers@;
            transfers.push(item);
            assert(transfers@ + self.queued@ =~= moved + queued_before);
        }
        assert(transfers@ + self.queued@ =~= transfers@);
        assert(self.queued@ =~= Seq::<T>::empty());
    }

    /// Move every ready transfer that satisfies `predicate` to the end of `removed`, keeping a
    /// head that waits for a delivery, and the order of the rest.
    fn remove_ready_into<F: Fn(&T) -> bool>(&mut self, predicate: &F, removed: &mut Vec<T>)
        requires
            forall|item: &T| #[trigger] predicate.requires((item,)),
        ensures
            exists|verdicts: Seq<bool>| #[trigger]
                answers(*predicate, old(self)@.ready(), verdicts) && final(removed)@
                    == old(removed)@ + picked(old(self)@.ready(), verdicts, true) && final(self)@
                    == old(self)@.keeping(picked(old(self)@.ready(), verdicts, false)),
    {
        let ghost before = self@;
        let ghost given = removed@;
        let ghost mut seen: Seq<T> = Seq::empty();
        let ghost mut verdicts: Seq<bool> = Seq::empty();
        let mut kept: VecDeque<T> = VecDeque::new();
        let mut waiting: TransferLaneState<T> = TransferLaneState::Idle;
        let mut had_runnable_head = false;
        match self.take_head() {
            TransferLaneState::Runnable(item) => {
                had_runnable_head = true;
                self.queued.push_front(item);
            },
            head => {
                waiting = head;
            },
        }
        assert(self.queued@ == before.ready());
        assert(seen + self.queued@ =~= before.ready());
        assert(removed@ =~= given + picked(seen, verdicts, true));
        loop
            invariant
                forall|item: &T| #[trigger] predicate.requires((item,)),
                seen + self.queued@ == before.ready(),
                answers(*predicate, seen, verdicts),
                removed@ == given + picked(seen, verdicts, true),
                kept@ == picked(seen, verdicts, false),
            ensures
                self.queued@.len() == 0,
                seen + self.queued@ == before.ready(),
                answers(*predicate, seen, verdicts),
                removed@ == given + picked(seen, verdicts, true),
                kept@ == picked(seen, verdicts, false),
            decreases self.queued@.len(),
        {
            let item = match self.queued.pop_front() {
                Some(item) => item,
                None => {
                    break ;
                },
            };
            let ghost rest = seq![item] + self.queued@;
            let verdict: bool = predicate(&item);
            proof {
                lemma_picked_push(seen, verdicts, item, verdict);
                assert(seen.push(item) + self.queued@ =~= seen + rest);
                assert(answers(*predicate, seen.push(item), verdicts.push(verdict))) by {
                    assert forall|i: int| 0 <= i < seen.push(item).len() implies
                        #[trigger] predicate.ensures(
                        (&seen.push(item)[i],),
                        verdicts.push(verdict)[i],
                    ) by {
                        if i < seen.len() {
                            assert(seen.push(item)[i] == seen[i]);
                            assert(predicate.ensures((&seen[i],), verdicts[i]));
                        }
                    }
                }
            }
            let ghost picked_before = picked(seen, verdicts, true);
            proof {
                seen = seen.push(item);
                verdicts = verdicts.push(verdict);
            }
            if verdict {
                removed.push(item);
                assert(removed@ =~= given + picked_before.push(item));
            } else {
                kept.push_back(item);
            }
        }
        assert(seen + self.queued@ =~= seen);
        if had_runnable_head {
            match kept.pop_front() {
                Some(next) => {
                    self.state = TransferLaneState::Runnable(next);
                },
                None => {
                    self.state = TransferLaneState::Idle;
                },
            }
        } else {
            self.state = waiting;
        }
        self.queued = kept;
        proof {
            assert(self@ =~= before.keeping(picked(before.ready(), verdicts, false)));
            assert(answers(*predicate, old(self)@.ready(), verdicts));
        }
    }
}

/// The lanes of one peer, as a value.
#[verifier::ext_equal]
pub struct LanesModel<T> {
    /// The control lane.
    pub control: LaneModel<T>,
    /// The storage lane.
    pub storage: LaneModel<T>,
    /// The end-to-end lane.
    pub e2e: LaneModel<T>,
    /// The application lane.
    pub application: LaneModel<T>,
}

impl<T> LanesModel<T> {
    /// The lane of `class`.
    pub open spec fn lane(self, class: TransferClass) -> LaneModel<T> {
        match class {
            TransferClass::DhtControl => self.control,
            TransferClass::Storage => self.storage,
            TransferClass::E2e => self.e2e,
            TransferClass::Application => self.application,
        }
    }

    /// The lanes with that of `class` replaced.
    pub open spec fn with(self, class: TransferClass, lane: LaneModel<T>) -> LanesModel<T> {
        match class {
            TransferClass::DhtControl => LanesModel { control: lane, ..self },
            TransferClass::Storage => LanesModel { storage: lane, ..self },
            TransferClass::E2e => LanesModel { e2e: lane, ..self },
            TransferClass::Application => LanesModel { application: lane, ..self },
        }
    }

    /// Empty lanes.
    pub open spec fn empty() -> LanesModel<T> {
        LanesModel {
            control: LaneModel::empty(),
            storage: LaneModel::empty(),
            e2e: LaneModel::empty(),
            application: LaneModel::empty(),
        }
    }

    /// Every transfer the lanes own, in class order.
    pub open spec fn owned(self) -> Seq<T> {
        self.control.owned() + self.storage.owned() + self.e2e.owned() + self.application.owned()
    }

    /// The ready transfers that `wanted` names, in class and lane order.
    pub open spec fn ready_where(self, wanted: spec_fn(T) -> bool) -> Seq<T> {
        self.control.ready().filter(wanted) + self.storage.ready().filter(wanted)
            + self.e2e.ready().filter(wanted) + self.application.ready().filter(wanted)
    }

    /// The lanes without the ready transfers that `wanted` names.
    pub open spec fn swept(self, wanted: spec_fn(T) -> bool) -> LanesModel<T> {
        let unwanted = |item: T| !wanted(item);
        LanesModel {
            control: self.control.keeping(self.control.ready().filter(unwanted)),
            storage: self.storage.keeping(self.storage.ready().filter(unwanted)),
            e2e: self.e2e.keeping(self.e2e.ready().filter(unwanted)),
            application: self.application.keeping(self.application.ready().filter(unwanted)),
        }
    }
}

/// What a predicate that answers as `wanted` takes out of the lanes.
pub proof fn lemma_swept<T, F: Fn(&T) -> bool>(
    predicate: F,
    wanted: spec_fn(T) -> bool,
    before: &TransferQueues<T>,
    after: &TransferQueues<T>,
    removed: Seq<T>,
)
    requires
        removed_from(predicate, before, after, removed),
        forall|item: T, answer: bool| #[trigger]
            predicate.ensures((&item,), answer) ==> answer == wanted(item),
    ensures
        after.lanes() == before.lanes().swept(wanted),
        removed == before.lanes().ready_where(wanted),
{
    let verdicts = choose|verdicts: spec_fn(TransferClass) -> Seq<bool>| #[trigger]
        removed_by(predicate, before, after, removed, verdicts);
    assert forall|class: TransferClass|
        #![trigger before.lane_model(class)]
        picked(before.lane_model(class).ready(), verdicts(class), true) == before.lane_model(
            class,
        ).ready().filter(wanted) && picked(before.lane_model(class).ready(), verdicts(class), false)
            == before.lane_model(class).ready().filter(|item: T| !wanted(item)) by {
        let items = before.lane_model(class).ready();
        assert(answers(predicate, items, verdicts(class)));
        assert forall|i: int| 0 <= i < items.len() implies #[trigger] verdicts(class)[i] == wanted(
            items[i],
        ) by {
            assert(predicate.ensures((&items[i],), verdicts(class)[i]));
        }
        lemma_picked_is_filter(items, verdicts(class), wanted);
    }
    assert(after.lane_model(TransferClass::DhtControl) == before.lane_model(
        TransferClass::DhtControl,
    ).keeping(
        before.lane_model(TransferClass::DhtControl).ready().filter(|item: T| !wanted(item)),
    ));
    assert(after.lane_model(TransferClass::Storage) == before.lane_model(
        TransferClass::Storage,
    ).keeping(before.lane_model(TransferClass::Storage).ready().filter(|item: T| !wanted(item))));
    assert(after.lane_model(TransferClass::E2e) == before.lane_model(TransferClass::E2e).keeping(
        before.lane_model(TransferClass::E2e).ready().filter(|item: T| !wanted(item)),
    ));
    assert(after.lane_model(TransferClass::Application) == before.lane_model(
        TransferClass::Application,
    ).keeping(
        before.lane_model(TransferClass::Application).ready().filter(|item: T| !wanted(item)),
    ));
    assert(after.lanes() =~= before.lanes().swept(wanted));
}

/// A runnable head, taken out of the lane of its class.
#[must_use]
pub struct RunnableTransfer<T> {
    class: TransferClass,
    item: T,
}

/// The class and the transfer of a head that was taken out, if one was.
pub open spec fn parts_of<T>(popped: Option<RunnableTransfer<T>>) -> Option<(TransferClass, T)> {
    match popped {
        Some(transfer) => Some((transfer.lane(), transfer.value())),
        None => None,
    }
}

impl<T> RunnableTransfer<T> {
    /// The class of the lane it was taken from.
    pub closed spec fn lane(&self) -> TransferClass {
        self.class
    }

    /// The transfer.
    pub closed spec fn value(&self) -> T {
        self.item
    }

    /// The class of the lane it was taken from.
    pub fn class(&self) -> (class: TransferClass)
        ensures
            class == self.lane(),
    {
        self.class
    }

    /// The transfer.
    pub fn item(&self) -> (item: &T)
        ensures
            *item == self.value(),
    {
        &self.item
    }

    /// The transfer, to change.
    pub fn item_mut(&mut self) -> (item: &mut T)
        ensures
            *item == old(self).value(),
            final(self).value() == *final(item),
            final(self).lane() == old(self).lane(),
    {
        &mut self.item
    }

    /// The class and the transfer.
    pub fn into_parts(self) -> (parts: (TransferClass, T))
        ensures
            parts == (self.lane(), self.value()),
    {
        (self.class, self.item)
    }

    /// The transfer.
    pub fn into_item(self) -> (item: T)
        ensures
            item == self.value(),
    {
        self.item
    }
}

/// The place of a lower class in the turn order.
pub open spec fn turn_of(class: TransferClass) -> int {
    match class {
        TransferClass::DhtControl => 0,
        TransferClass::Storage => 0,
        TransferClass::E2e => 1,
        TransferClass::Application => 2,
    }
}

/// The lower class whose turn is `turn`.
pub open spec fn lower_class(turn: int) -> TransferClass {
    if turn == 0 {
        TransferClass::Storage
    } else if turn == 1 {
        TransferClass::E2e
    } else {
        TransferClass::Application
    }
}

/// The lower class whose turn is `turn`.
fn class_at(turn: usize) -> (class: TransferClass)
    requires
        turn < 3,
    ensures
        class == lower_class(turn as int),
{
    if turn == 0 {
        TransferClass::Storage
    } else if turn == 1 {
        TransferClass::E2e
    } else {
        TransferClass::Application
    }
}

/// The turn after `turn`.
pub open spec fn next_turn(turn: int) -> int {
    if turn == 2 {
        0
    } else {
        turn + 1
    }
}

/// The first class that `runnable` names, from the turn `cursor` on.
pub open spec fn next_lower(runnable: spec_fn(TransferClass) -> bool, cursor: int) -> Option<
    TransferClass,
> {
    let first = lower_class(cursor);
    let second = lower_class(next_turn(cursor));
    let third = lower_class(next_turn(next_turn(cursor)));
    if runnable(first) {
        Some(first)
    } else if runnable(second) {
        Some(second)
    } else if runnable(third) {
        Some(third)
    } else {
        None
    }
}

/// The class served next: control while its burst lasts or nothing else can run, else the lower
/// class whose turn comes first.
pub open spec fn selection(
    runnable: spec_fn(TransferClass) -> bool,
    cursor: int,
    consecutive_control: int,
    bounded_burst: bool,
) -> Option<TransferClass> {
    if runnable(TransferClass::DhtControl) && (!bounded_burst || consecutive_control
        < OUTBOUND_CONTROL_BURST || next_lower(runnable, cursor) is None) {
        Some(TransferClass::DhtControl)
    } else {
        next_lower(runnable, cursor)
    }
}

/// The lanes of one peer, and whose turn it is.
pub struct TransferQueues<T> {
    control: TransferLane<T>,
    storage: TransferLane<T>,
    e2e: TransferLane<T>,
    application: TransferLane<T>,
    lower_cursor: usize,
    consecutive_control: usize,
    bounded_burst: bool,
}

impl<T> Default for TransferQueues<T> {
    fn default() -> (queues: Self)
        ensures
            queues.wf(),
            queues.is_fresh(true),
    {
        TransferQueues::new()
    }
}

impl<T> TransferQueues<T> {
    /// The lane of `class`, as a value.
    pub closed spec fn lane_model(&self, class: TransferClass) -> LaneModel<T> {
        match class {
            TransferClass::DhtControl => self.control@,
            TransferClass::Storage => self.storage@,
            TransferClass::E2e => self.e2e@,
            TransferClass::Application => self.application@,
        }
    }

    /// The lanes, as a value.
    pub open spec fn lanes(&self) -> LanesModel<T> {
        LanesModel {
            control: self.lane_model(TransferClass::DhtControl),
            storage: self.lane_model(TransferClass::Storage),
            e2e: self.lane_model(TransferClass::E2e),
            application: self.lane_model(TransferClass::Application),
        }
    }

    /// Whose turn it is among the lower classes.
    pub closed spec fn cursor(&self) -> int {
        self.lower_cursor as int
    }

    /// How many control frames went in a row.
    pub closed spec fn control_run(&self) -> int {
        self.consecutive_control as int
    }

    /// Control yields after its burst.
    pub closed spec fn bounds_control(&self) -> bool {
        self.bounded_burst
    }

    /// The cursor names a lower class.
    pub closed spec fn wf(&self) -> bool {
        self.lower_cursor < 3
    }

    /// Every lane is empty and nothing has been served.
    pub open spec fn is_fresh(&self, bounded_burst: bool) -> bool {
        &&& forall|class: TransferClass| #[trigger]
            self.lane_model(class) == LaneModel::<T>::empty()
        &&& self.cursor() == 0
        &&& self.control_run() == 0
        &&& self.bounds_control() == bounded_burst
    }

    /// The head of `class` can run.
    pub open spec fn runnable(&self, class: TransferClass) -> bool {
        self.lane_model(class).head is Runnable
    }

    /// The class served next.
    pub open spec fn selected(&self) -> Option<TransferClass> {
        selection(
            |class: TransferClass| self.runnable(class),
            self.cursor(),
            self.control_run(),
            self.bounds_control(),
        )
    }

    /// Every lane but that of `class` is as in `before`.
    pub open spec fn other_lanes_same(&self, before: &Self, class: TransferClass) -> bool {
        forall|other: TransferClass|
            other != class ==> #[trigger] self.lane_model(other) == before.lane_model(other)
    }

    /// The turns are as in `before`.
    pub open spec fn same_turns(&self, before: &Self) -> bool {
        &&& self.cursor() == before.cursor()
        &&& self.control_run() == before.control_run()
        &&& self.bounds_control() == before.bounds_control()
    }

    /// A frame of `class` was served since `before`: control lengthens its run, a lower class
    /// ends it and passes the turn on.
    pub open spec fn turn_taken(&self, before: &Self, class: TransferClass) -> bool {
        &&& self.bounds_control() == before.bounds_control()
        &&& if class == TransferClass::DhtControl {
            &&& self.control_run() == (if before.control_run() < usize::MAX {
                before.control_run() + 1
            } else {
                before.control_run()
            })
            &&& self.cursor() == before.cursor()
        } else {
            &&& self.control_run() == 0
            &&& self.cursor() == next_turn(turn_of(class))
        }
    }

    /// Every transfer the lanes own, in class order.
    pub open spec fn owned(&self) -> Seq<T> {
        self.lane_model(TransferClass::DhtControl).owned() + self.lane_model(
            TransferClass::Storage,
        ).owned() + self.lane_model(TransferClass::E2e).owned() + self.lane_model(
            TransferClass::Application,
        ).owned()
    }

    /// Empty lanes under every protection.
    pub fn new() -> (queues: Self)
        ensures
            queues.wf(),
            queues.is_fresh(true),
    {
        Self::with_profile(ProtectionProfile::production())
    }

    /// Empty lanes under the protections of `profile`.
    pub fn with_profile(profile: ProtectionProfile) -> (queues: Self)
        ensures
            queues.wf(),
            queues.is_fresh(profile.bounded_control_burst),
    {
        TransferQueues {
            control: TransferLane::new(),
            storage: TransferLane::new(),
            e2e: TransferLane::new(),
            application: TransferLane::new(),
            lower_cursor: 0,
            consecutive_control: 0,
            bounded_burst: profile.bounded_control_burst,
        }
    }

    /// Put `item` last in the lane of `class`.
    pub fn push(&mut self, class: TransferClass, item: T)
        requires
            old(self).wf(),
        ensures
            final(self).wf(),
            lane_step(&*old(self), LaneCall::Push { class, item }, &*final(self)),
            final(self).lane_model(class) == old(self).lane_model(class).enqueued(item),
            final(self).other_lanes_same(old(self), class),
            final(self).same_turns(old(self)),
    {
        self.lane_mut(class).enqueue(item);
    }

    /// Take the head that is served next.
    pub fn pop(&mut self) -> (popped: Option<RunnableTransfer<T>>)
        requires
            old(self).wf(),
        ensures
            final(self).wf(),
            lane_step(
                &*old(self),
                LaneCall::Pop { popped: parts_of(popped) },
                &*final(self),
            ),
            final(self).same_turns(old(self)),
            match old(self).selected() {
                Some(class) => {
                    &&& popped matches Some(transfer) && transfer.lane() == class
                        && old(self).lane_model(class).head == TransferLaneState::Runnable(
                        transfer.value(),
                    )
                    &&& final(self).lane_model(class) == old(self).lane_model(class).headless()
                    &&& final(self).other_lanes_same(old(self), class)
                },
                None => {
                    &&& popped is None
                    &&& lanes_kept(&*old(self), &*final(self))
                },
            },
    {
        let has_control = self.is_runnable(TransferClass::DhtControl);
        let lower = self.next_lower_class();
        let selected = if has_control && (!self.bounded_burst || self.consecutive_control
            < OUTBOUND_CONTROL_BURST || lower.is_none()) {
            Some(TransferClass::DhtControl)
        } else {
            lower
        };
        match selected {
            Some(class) => {
                match self.lane_mut(class).take_runnable() {
                    Some(item) => Some(RunnableTransfer { class, item }),
                    None => None,
                }
            },
            None => None,
        }
    }

    /// Put a transfer back as the head of its lane, waiting for the delivery numbered `id`.
    pub fn wait_for_delivery(&mut self, id: u64, transfer: RunnableTransfer<T>)
        requires
            old(self).wf(),
            old(self).lane_model(transfer.lane()).head is Idle,
        ensures
            final(self).wf(),
            lane_step(
                &*old(self),
                LaneCall::Wait { class: transfer.lane(), id, item: transfer.value() },
                &*final(self),
            ),
            final(self).lane_model(transfer.lane()) == (LaneModel {
                head: TransferLaneState::WaitingDelivery { id, item: transfer.value() },
                queued: old(self).lane_model(transfer.lane()).queued,
            }),
            final(self).other_lanes_same(old(self), transfer.lane()),
            final(self).same_turns(old(self)),
    {
        self.lane_mut(transfer.class).wait_for_delivery(id, transfer.item);
    }

    /// Take the head of `class` that waits for the delivery numbered `id`.
    pub fn take_waiting(&mut self, class: TransferClass, id: u64) -> (taken: Option<
        RunnableTransfer<T>,
    >)
        requires
            old(self).wf(),
        ensures
            final(self).wf(),
            lane_step(
                &*old(self),
                LaneCall::TakeWaiting {
                    class,
                    id,
                    taken: match taken {
                        Some(transfer) => Some(transfer.value()),
                        None => None,
                    },
                },
                &*final(self),
            ),
            final(self).same_turns(old(self)),
            final(self).other_lanes_same(old(self), class),
            if old(self).lane_model(class).waits_for(id) {
                &&& taken matches Some(transfer) && transfer.lane() == class && transfer.value()
                    == old(self).lane_model(class).head->item
                &&& final(self).lane_model(class) == old(self).lane_model(class).headless()
            } else {
                &&& taken is None
                &&& final(self).lane_model(class) == old(self).lane_model(class)
            },
    {
        match self.lane_mut(class).take_waiting(id) {
            Some(item) => Some(RunnableTransfer { class, item }),
            None => None,
        }
    }

    /// Put a transfer back as the runnable head of its lane.
    pub fn make_runnable(&mut self, transfer: RunnableTransfer<T>)
        requires
            old(self).wf(),
            old(self).lane_model(transfer.lane()).head is Idle,
        ensures
            final(self).wf(),
            lane_step(
                &*old(self),
                LaneCall::MakeRunnable { class: transfer.lane(), item: transfer.value() },
                &*final(self),
            ),
            final(self).lane_model(transfer.lane()) == (LaneModel {
                head: TransferLaneState::Runnable(transfer.value()),
                queued: old(self).lane_model(transfer.lane()).queued,
            }),
            final(self).other_lanes_same(old(self), transfer.lane()),
            final(self).same_turns(old(self)),
    {
        self.lane_mut(transfer.class).make_runnable(transfer.item);
    }

    /// Note that a frame of `class` was admitted.
    pub fn record_frame_admitted(&mut self, class: TransferClass)
        requires
            old(self).wf(),
        ensures
            final(self).wf(),
            lane_step(&*old(self), LaneCall::Admitted { class }, &*final(self)),
            final(self).turn_taken(old(self), class),
            forall|other: TransferClass| #[trigger]
                final(self).lane_model(other) == old(self).lane_model(other),
    {
        self.advance_fairness(class);
    }

    fn advance_fairness(&mut self, class: TransferClass)
        requires
            old(self).wf(),
        ensures
            final(self).wf(),
            final(self).turn_taken(old(self), class),
            forall|other: TransferClass| #[trigger]
                final(self).lane_model(other) == old(self).lane_model(other),
    {
        match class {
            TransferClass::DhtControl => {
                self.consecutive_control = self.consecutive_control.saturating_add(1);
            },
            TransferClass::Storage => {
                self.consecutive_control = 0;
                self.lower_cursor = 1;
            },
            TransferClass::E2e => {
                self.consecutive_control = 0;
                self.lower_cursor = 2;
            },
            TransferClass::Application => {
                self.consecutive_control = 0;
                self.lower_cursor = 0;
            },
        }
    }

    /// Go on to the next transfer of `class`.
    pub fn finish_current(&mut self, class: TransferClass)
        requires
            old(self).wf(),
        ensures
            final(self).wf(),
            forall|item: T|
                lane_step(&*old(self), #[trigger] finish_of(class, item), &*final(self)),
            final(self).lane_model(class) == old(self).lane_model(class).finished(),
            final(self).other_lanes_same(old(self), class),
            final(self).same_turns(old(self)),
    {
        self.lane_mut(class).finish_current();
    }

    /// End a transfer and go on to the next of its lane.
    pub fn finish_transfer(&mut self, transfer: RunnableTransfer<T>) -> (item: T)
        requires
            old(self).wf(),
        ensures
            final(self).wf(),
            lane_step(
                &*old(self),
                LaneCall::Finish { class: transfer.lane(), item: transfer.value() },
                &*final(self),
            ),
            item == transfer.value(),
            final(self).lane_model(transfer.lane()) == old(self).lane_model(
                transfer.lane(),
            ).finished(),
            final(self).other_lanes_same(old(self), transfer.lane()),
            final(self).same_turns(old(self)),
    {
        let (class, item) = transfer.into_parts();
        self.finish_current(class);
        item
    }

    /// End a transfer whose attempt failed: the attempt counts as a served frame.
    pub fn fail_attempt(&mut self, transfer: RunnableTransfer<T>) -> (item: T)
        requires
            old(self).wf(),
        ensures
            final(self).wf(),
            lane_step(
                &*old(self),
                LaneCall::Fail { class: transfer.lane(), item: transfer.value() },
                &*final(self),
            ),
            item == transfer.value(),
            final(self).lane_model(transfer.lane()) == old(self).lane_model(
                transfer.lane(),
            ).finished(),
            final(self).other_lanes_same(old(self), transfer.lane()),
            final(self).turn_taken(old(self), transfer.lane()),
    {
        let (class, item) = transfer.into_parts();
        self.advance_fairness(class);
        self.finish_current(class);
        item
    }

    /// Empty every lane, giving back what they owned in class order.
    pub fn drain_transfers(&mut self) -> (transfers: Vec<T>)
        requires
            old(self).wf(),
        ensures
            final(self).wf(),
            lane_step(&*old(self), LaneCall::Drain { transfers: transfers@ }, &*final(self)),
            transfers@ == old(self).owned(),
            forall|class: TransferClass| #[trigger]
                final(self).lane_model(class) == LaneModel::<T>::empty(),
            final(self).same_turns(old(self)),
    {
        let mut transfers: Vec<T> = Vec::new();
        self.control.drain_into(&mut transfers);
        self.storage.drain_into(&mut transfers);
        self.e2e.drain_into(&mut transfers);
        self.application.drain_into(&mut transfers);
        assert(transfers@ =~= old(self).owned());
        transfers
    }

    /// Take out every ready transfer that satisfies `predicate`, in class and lane order; a head
    /// that waits for a delivery stays.
    pub fn remove_ready_where<F: Fn(&T) -> bool>(&mut self, predicate: F) -> (removed: Vec<T>)
        requires
            old(self).wf(),
            forall|item: &T| #[trigger] predicate.requires((item,)),
        ensures
            final(self).wf(),
            final(self).same_turns(old(self)),
            removed_from(predicate, &*old(self), &*final(self), removed@),
            exists|verdicts: spec_fn(TransferClass) -> Seq<bool>|
                #![trigger remove_of(verdicts, removed@)]
                removed_by(predicate, &*old(self), &*final(self), removed@, verdicts) && lane_step(
                    &*old(self),
                    remove_of(verdicts, removed@),
                    &*final(self),
                ),
    {
        let mut removed: Vec<T> = Vec::new();
        self.control.remove_ready_into(&predicate, &mut removed);
        let ghost from_control = choose|verdicts: Seq<bool>| #[trigger]
            answers(predicate, old(self).control@.ready(), verdicts) && removed@ == Seq::<
                T,
            >::empty() + picked(old(self).control@.ready(), verdicts, true) && self.control@
                == old(self).control@.keeping(picked(old(self).control@.ready(), verdicts, false));
        let ghost after_control = removed@;
        self.storage.remove_ready_into(&predicate, &mut removed);
        let ghost from_storage = choose|verdicts: Seq<bool>| #[trigger]
            answers(predicate, old(self).storage@.ready(), verdicts) && removed@ == after_control
                + picked(old(self).storage@.ready(), verdicts, true) && self.storage@
                == old(self).storage@.keeping(picked(old(self).storage@.ready(), verdicts, false));
        let ghost after_storage = removed@;
        self.e2e.remove_ready_into(&predicate, &mut removed);
        let ghost from_e2e = choose|verdicts: Seq<bool>| #[trigger]
            answers(predicate, old(self).e2e@.ready(), verdicts) && removed@ == after_storage
                + picked(old(self).e2e@.ready(), verdicts, true) && self.e2e@
                == old(self).e2e@.keeping(picked(old(self).e2e@.ready(), verdicts, false));
        let ghost after_e2e = removed@;
        self.application.remove_ready_into(&predicate, &mut removed);
        let ghost from_application = choose|verdicts: Seq<bool>| #[trigger]
            answers(predicate, old(self).application@.ready(), verdicts) && removed@ == after_e2e
                + picked(old(self).application@.ready(), verdicts, true) && self.application@
                == old(self).application@.keeping(
                picked(old(self).application@.ready(), verdicts, false),
            );
        proof {
            let verdicts = |class: TransferClass|
                match class {
                    TransferClass::DhtControl => from_control,
                    TransferClass::Storage => from_storage,
                    TransferClass::E2e => from_e2e,
                    TransferClass::Application => from_application,
                };
            let given = |class: TransferClass|
                picked(old(self).lane_model(class).ready(), verdicts(class), true);
            assert(removed@ =~= given(TransferClass::DhtControl) + given(TransferClass::Storage)
                + given(TransferClass::E2e) + given(TransferClass::Application));
            assert(removed_by(predicate, &*old(self), self, removed@, verdicts));
            assert(lane_step(&*old(self), remove_of(verdicts, removed@), self));
        }
        removed
    }

    /// Whether the head of `class` can run.
    pub fn is_runnable(&self, class: TransferClass) -> (runnable: bool)
        ensures
            runnable == self.runnable(class),
    {
        match class {
            TransferClass::DhtControl => self.control.is_runnable(),
            TransferClass::Storage => self.storage.is_runnable(),
            TransferClass::E2e => self.e2e.is_runnable(),
            TransferClass::Application => self.application.is_runnable(),
        }
    }

    /// Whether some head can run.
    pub fn has_runnable(&self) -> (runnable: bool)
        requires
            self.wf(),
        ensures
            runnable == (self.selected() is Some),
    {
        self.is_runnable(TransferClass::DhtControl) || self.next_lower_class().is_some()
    }

    fn next_lower_class(&self) -> (class: Option<TransferClass>)
        requires
            self.wf(),
        ensures
            class == next_lower(|class: TransferClass| self.runnable(class), self.cursor()),
    {
        let first: usize = self.lower_cursor;
        let second: usize = if first == 2 {
            0
        } else {
            first + 1
        };
        let third: usize = if second == 2 {
            0
        } else {
            second + 1
        };
        if self.is_runnable(class_at(first)) {
            return Some(class_at(first));
        }
        if self.is_runnable(class_at(second)) {
            return Some(class_at(second));
        }
        if self.is_runnable(class_at(third)) {
            return Some(class_at(third));
        }
        None
    }

    fn lane_mut(&mut self, class: TransferClass) -> (lane: &mut TransferLane<T>)
        ensures
            lane@ == old(self).lane_model(class),
            final(self).lane_model(class) == final(lane)@,
            final(self).other_lanes_same(old(self), class),
            final(self).same_turns(old(self)),
            final(self).wf() == old(self).wf(),
    {
        match class {
            TransferClass::DhtControl => &mut self.control,
            TransferClass::Storage => &mut self.storage,
            TransferClass::E2e => &mut self.e2e,
            TransferClass::Application => &mut self.application,
        }
    }
}

/// `after` and `removed` are what is left of `before` and what was taken out of it by the answers
/// `verdicts` of `predicate`.
pub open spec fn removed_by<T, F: Fn(&T) -> bool>(
    predicate: F,
    before: &TransferQueues<T>,
    after: &TransferQueues<T>,
    removed: Seq<T>,
    verdicts: spec_fn(TransferClass) -> Seq<bool>,
) -> bool {
    &&& forall|class: TransferClass|
        answers(predicate, #[trigger] before.lane_model(class).ready(), verdicts(class))
    &&& parted_by(before, after, removed, verdicts)
}

/// `after` and `removed` are what is left of `before` and what was taken out of it by `verdicts`,
/// one for each ready transfer.
pub open spec fn parted_by<T>(
    before: &TransferQueues<T>,
    after: &TransferQueues<T>,
    removed: Seq<T>,
    verdicts: spec_fn(TransferClass) -> Seq<bool>,
) -> bool {
    &&& forall|class: TransferClass|
        verdicts(class).len() == (#[trigger] before.lane_model(class)).ready().len()
    &&& forall|class: TransferClass| #[trigger]
        after.lane_model(class) == before.lane_model(class).keeping(
            picked(before.lane_model(class).ready(), verdicts(class), false),
        )
    &&& removed == picked(
        before.lane_model(TransferClass::DhtControl).ready(),
        verdicts(TransferClass::DhtControl),
        true,
    ) + picked(
        before.lane_model(TransferClass::Storage).ready(),
        verdicts(TransferClass::Storage),
        true,
    ) + picked(
        before.lane_model(TransferClass::E2e).ready(),
        verdicts(TransferClass::E2e),
        true,
    ) + picked(
        before.lane_model(TransferClass::Application).ready(),
        verdicts(TransferClass::Application),
        true,
    )
}

/// `removed` is what `predicate` took out of `before`, leaving `after`.
pub open spec fn removed_from<T, F: Fn(&T) -> bool>(
    predicate: F,
    before: &TransferQueues<T>,
    after: &TransferQueues<T>,
    removed: Seq<T>,
) -> bool {
    exists|verdicts: spec_fn(TransferClass) -> Seq<bool>| #[trigger]
        removed_by(predicate, before, after, removed, verdicts)
}

/// The turn among the lower classes is always that of one of them, and the control run is a count.
pub proof fn law_cursor_names_a_lower_class<T>(queues: &TransferQueues<T>)
    requires
        queues.wf(),
    ensures
        0 <= queues.cursor() < 3,
        0 <= queues.control_run(),
{
}

/// While a lower head can run, a control burst that is spent gives it the next frame.
pub proof fn law_spent_burst_yields_to_lower_work(
    runnable: spec_fn(TransferClass) -> bool,
    cursor: int,
    consecutive_control: int,
)
    requires
        next_lower(runnable, cursor) is Some,
        consecutive_control >= OUTBOUND_CONTROL_BURST,
    ensures
        selection(runnable, cursor, consecutive_control, true) == next_lower(runnable, cursor),
        selection(runnable, cursor, consecutive_control, true) != Some(TransferClass::DhtControl),
{
}

/// Control that can run goes first while its burst lasts.
pub proof fn law_control_goes_first_within_its_burst(
    runnable: spec_fn(TransferClass) -> bool,
    cursor: int,
    consecutive_control: int,
    bounded_burst: bool,
)
    requires
        runnable(TransferClass::DhtControl),
        consecutive_control < OUTBOUND_CONTROL_BURST,
    ensures
        selection(runnable, cursor, consecutive_control, bounded_burst) == Some(
            TransferClass::DhtControl,
        ),
{
}

/// Nothing is selected only where nothing can run, and what is selected can run.
pub proof fn law_selection_is_work_conserving(
    runnable: spec_fn(TransferClass) -> bool,
    cursor: int,
    consecutive_control: int,
    bounded_burst: bool,
)
    requires
        0 <= cursor < 3,
    ensures
        match selection(runnable, cursor, consecutive_control, bounded_burst) {
            Some(class) => runnable(class),
            None => forall|class: TransferClass| !(#[trigger] runnable(class)),
        },
{
    assert forall|class: TransferClass|
        class != TransferClass::DhtControl && #[trigger] runnable(class) implies next_lower(
        runnable,
        cursor,
    ) is Some by {
        assert(class == lower_class(0) || class == lower_class(1) || class == lower_class(2));
    }
}

/// The control run after `served`, one class per frame, starting from `run`.
pub open spec fn run_after(run: int, served: Seq<TransferClass>) -> int
    decreases served.len(),
{
    if served.len() == 0 {
        run
    } else if served.last() == TransferClass::DhtControl {
        run_after(run, served.drop_last()) + 1
    } else {
        0
    }
}

/// While lower work can run throughout, one frame in any five in a row is not a control frame.
pub proof fn law_control_gets_at_most_four_frames_in_five(run: int, served: Seq<TransferClass>)
    requires
        0 <= run,
        served.len() == OUTBOUND_CONTROL_BURST + 1,
        forall|i: int|
            0 <= i < served.len() && #[trigger] served[i] == TransferClass::DhtControl
                ==> run_after(run, served.take(i)) < OUTBOUND_CONTROL_BURST,
    ensures
        exists|i: int| 0 <= i < served.len() && #[trigger] served[i] != TransferClass::DhtControl,
{
    if forall|i: int|
        0 <= i < served.len() ==> #[trigger] served[i] == TransferClass::DhtControl {
        lemma_run_grows(run, served, 4);
        assert(served[4] == TransferClass::DhtControl);
    }
}

proof fn lemma_run_grows(run: int, served: Seq<TransferClass>, count: int)
    requires
        0 <= run,
        0 <= count <= served.len(),
        forall|i: int| 0 <= i < served.len() ==> #[trigger] served[i] == TransferClass::DhtControl,
    ensures
        run_after(run, served.take(count)) == run + count,
    decreases count,
{
    if count > 0 {
        lemma_run_grows(run, served, count - 1);
        assert(served.take(count).drop_last() =~= served.take(count - 1));
        assert(served.take(count).last() == served[count - 1]);
    }
}

/// How many lower turns come before that of `class`.
pub open spec fn turns_until(cursor: int, class: TransferClass) -> int {
    if turn_of(class) >= cursor {
        turn_of(class) - cursor
    } else {
        turn_of(class) + 3 - cursor
    }
}

/// A lower class that can run is passed over by at most two lower frames: every lower frame of
/// another class brings its turn nearer, and at its turn it is chosen.
pub proof fn law_lower_classes_take_turns(
    runnable: spec_fn(TransferClass) -> bool,
    cursor: int,
    class: TransferClass,
)
    requires
        0 <= cursor < 3,
        class != TransferClass::DhtControl,
        runnable(class),
    ensures
        0 <= turns_until(cursor, class) <= 2,
        match next_lower(runnable, cursor) {
            Some(served) => served == class || turns_until(next_turn(turn_of(served)), class)
                < turns_until(cursor, class),
            None => false,
        },
{
}

/// What joins a lane leaves it after everything that joined before: the owned transfers stay in
/// order, the newcomer last.
pub proof fn law_lanes_are_first_come_first_served<T>(lane: LaneModel<T>, item: T)
    requires
        lane.head is Idle ==> lane.queued.len() == 0,
    ensures
        lane.enqueued(item).owned() == lane.owned().push(item),
        lane.finished().owned() == lane.queued,
{
    assert(lane.enqueued(item).owned() =~= lane.owned().push(item));
    assert(lane.finished().owned() =~= lane.queued);
}

/// Taking transfers out of a lane by their verdicts loses none: what is kept and what is taken
/// out make up the whole.
pub proof fn law_removal_splits_the_ready_transfers<T>(items: Seq<T>, verdicts: Seq<bool>)
    requires
        items.len() == verdicts.len(),
    ensures
        picked(items, verdicts, true).to_multiset().add(
            picked(items, verdicts, false).to_multiset(),
        ) == items.to_multiset(),
    decreases items.len(),
{
    broadcast use vstd::seq_lib::group_to_multiset_ensures;

    if items.len() > 0 {
        law_removal_splits_the_ready_transfers(items.drop_last(), verdicts.drop_last());
        let taken = picked(items.drop_last(), verdicts.drop_last(), true);
        let kept = picked(items.drop_last(), verdicts.drop_last(), false);
        assert(items =~= items.drop_last().push(items.last()));
        if verdicts.last() {
            assert(picked(items, verdicts, true) == taken.push(items.last()));
            assert(taken.push(items.last()).to_multiset().add(kept.to_multiset())
                =~= items.to_multiset());
        } else {
            assert(picked(items, verdicts, false) == kept.push(items.last()));
            assert(taken.to_multiset().add(kept.push(items.last()).to_multiset())
                =~= items.to_multiset());
        }
    } else {
        assert(picked(items, verdicts, true).to_multiset().add(
            picked(items, verdicts, false).to_multiset(),
        ) =~= items.to_multiset());
    }
}

/// The head of `class` can send its next frame.
pub open spec fn can_run<T>(queues: TransferQueues<T>, class: TransferClass) -> bool {
    queues.lane_model(class).head is Runnable
}

/// The three lower classes in turn order, from the turn `cursor` on: how many come before `class`.
pub open spec fn turns_before(cursor: int, class: TransferClass) -> int {
    let turn: int = match class {
        TransferClass::Storage => 0,
        TransferClass::E2e => 1,
        _ => 2,
    };
    if turn >= cursor {
        turn - cursor
    } else {
        turn - cursor + 3
    }
}

/// Control is served exactly if it can run and its burst of four lasts, is unbounded, or nothing
/// else can run. Otherwise the lower class that can run and whose turn comes first is served.
/// Nothing is served exactly if nothing can run. What is served is the head of its lane.
pub proof fn law_pop_serves_control_then_turns<T>(
    queues: &mut TransferQueues<T>,
    popped: Option<RunnableTransfer<T>>,
    other: TransferClass,
)
    requires
        old(queues).wf(),
        call_ensures(TransferQueues::<T>::pop, (queues,), popped),
        other != TransferClass::DhtControl,
    ensures
        ({
            let lower = can_run(*old(queues), TransferClass::Storage) || can_run(
                *old(queues),
                TransferClass::E2e,
            ) || can_run(*old(queues), TransferClass::Application);
            let control = can_run(*old(queues), TransferClass::DhtControl);
            &&& popped is None <==> !control && !lower
            &&& popped matches Some(transfer) ==> {
                &&& transfer.lane() == TransferClass::DhtControl <==> control && (!lower || !old(queues).bounds_control() || old(queues).control_run() < 4)
                &&& old(queues).lane_model(transfer.lane()).head == TransferLaneState::Runnable(
                    transfer.value(),
                )
                &&& transfer.lane() != TransferClass::DhtControl && can_run(*old(queues), other)
                    ==> turns_before(old(queues).cursor(), transfer.lane()) <= turns_before(
                    old(queues).cursor(),
                    other,
                )
                &&& final(queues).lane_model(transfer.lane()).head is Idle
                &&& final(queues).lane_model(transfer.lane()).queued == old(queues).lane_model(
                    transfer.lane(),
                ).queued
            }
            &&& final(queues).cursor() == old(queues).cursor()
            &&& final(queues).control_run() == old(queues).control_run()
        }),
{
    let runnable = |class: TransferClass| old(queues).runnable(class);
    let cursor = old(queues).cursor();
    assert(runnable(TransferClass::Storage) == can_run(*old(queues), TransferClass::Storage));
    assert(runnable(TransferClass::E2e) == can_run(*old(queues), TransferClass::E2e));
    assert(runnable(TransferClass::Application) == can_run(
        *old(queues),
        TransferClass::Application,
    ));
    assert(runnable(TransferClass::DhtControl) == can_run(
        *old(queues),
        TransferClass::DhtControl,
    ));
    assert(old(queues).selected() == selection(
        runnable,
        cursor,
        old(queues).control_run(),
        old(queues).bounds_control(),
    ));
    assert(cursor == 0 || cursor == 1 || cursor == 2);
}

/// A served control frame lengthens the control run by one and keeps the turn; a served lower frame
/// ends the run and gives the turn to the class behind it. The lanes stay as they are.
pub proof fn law_served_frame_moves_the_turn<T>(
    queues: &mut TransferQueues<T>,
    class: TransferClass,
    lane: TransferClass,
)
    requires
        old(queues).wf(),
        call_ensures(TransferQueues::<T>::record_frame_admitted, (queues, class), ()),
    ensures
        class == TransferClass::DhtControl ==> final(queues).cursor() == old(queues).cursor() && (
        old(queues).control_run() < usize::MAX ==> final(queues).control_run() == old(queues).control_run() + 1),
        class != TransferClass::DhtControl ==> final(queues).control_run() == 0 && turns_before(
            final(queues).cursor(),
            class,
        ) == 2,
        final(queues).lane_model(lane) == old(queues).lane_model(lane),
        final(queues).bounds_control() == old(queues).bounds_control(),
{
}

/// A failed attempt takes its turn as a served frame does and lets the next transfer of its lane
/// become the head; a finished one lets it without taking a turn. Both hand their transfer back.
pub proof fn law_ended_transfer_makes_way<T>(
    failed: &mut TransferQueues<T>,
    attempt: RunnableTransfer<T>,
    given: T,
    finished: &mut TransferQueues<T>,
    done: RunnableTransfer<T>,
    taken: T,
)
    requires
        old(failed).wf(),
        call_ensures(TransferQueues::<T>::fail_attempt, (failed, attempt), given),
        old(finished).wf(),
        call_ensures(TransferQueues::<T>::finish_transfer, (finished, done), taken),
    ensures
        given == attempt.value(),
        taken == done.value(),
        attempt.lane() != TransferClass::DhtControl ==> final(failed).control_run() == 0
            && turns_before(final(failed).cursor(), attempt.lane()) == 2,
        attempt.lane() == TransferClass::DhtControl && old(failed).control_run() < usize::MAX
            ==> final(failed).control_run() == old(failed).control_run() + 1,
        final(finished).control_run() == old(finished).control_run(),
        final(finished).cursor() == old(finished).cursor(),
        ({
            let before = old(failed).lane_model(attempt.lane());
            let after = final(failed).lane_model(attempt.lane());
            &&& before.queued.len() == 0 ==> after.head is Idle
            &&& before.queued.len() > 0 ==> after.head == TransferLaneState::Runnable(
                before.queued[0],
            ) && after.queued == before.queued.skip(1)
        }),
        ({
            let before = old(finished).lane_model(done.lane());
            let after = final(finished).lane_model(done.lane());
            &&& before.queued.len() == 0 ==> after.head is Idle
            &&& before.queued.len() > 0 ==> after.head == TransferLaneState::Runnable(
                before.queued[0],
            ) && after.queued == before.queued.skip(1)
        }),
{
    let failing = old(failed).lane_model(attempt.lane());
    if failing.queued.len() > 0 {
        assert(failing.queued.drop_first() =~= failing.queued.skip(1));
    }
    let ending = old(finished).lane_model(done.lane());
    if ending.queued.len() > 0 {
        assert(ending.queued.drop_first() =~= ending.queued.skip(1));
    }
}

/// New lanes are empty, the turn is that of storage, and control yields unless that protection is
/// off.
pub proof fn law_new_lanes_are_empty<T>(
    profile: ProtectionProfile,
    queues: TransferQueues<T>,
    class: TransferClass,
)
    requires
        call_ensures(TransferQueues::<T>::with_profile, (profile,), queues),
    ensures
        queues.lane_model(class).head is Idle,
        queues.lane_model(class).queued.len() == 0,
        turns_before(queues.cursor(), TransferClass::Storage) == 0,
        queues.control_run() == 0,
        queues.bounds_control() == profile.bounded_control_burst,
{
    assert(queues.lane_model(class) == LaneModel::<T>::empty());
}

/// A pushed transfer becomes the head of an empty lane and stands last in any other; other lanes
/// and the turns stay as they are.
pub proof fn law_pushed_transfer_stands_last<T>(
    queues: &mut TransferQueues<T>,
    class: TransferClass,
    item: T,
    other: TransferClass,
)
    requires
        old(queues).wf(),
        call_ensures(TransferQueues::<T>::push, (queues, class, item), ()),
        other != class,
    ensures
        old(queues).lane_model(class).head is Idle ==> final(queues).lane_model(class).head
            == TransferLaneState::Runnable(item) && final(queues).lane_model(class).queued == old(queues).lane_model(class).queued,
        !(old(queues).lane_model(class).head is Idle) ==> final(queues).lane_model(class).head
            == old(queues).lane_model(class).head && final(queues).lane_model(class).queued == old(queues).lane_model(class).queued + seq![item],
        final(queues).lane_model(other) == old(queues).lane_model(other),
        final(queues).cursor() == old(queues).cursor(),
        final(queues).control_run() == old(queues).control_run(),
{
    assert(old(queues).lane_model(class).queued.push(item) =~= old(queues).lane_model(
        class,
    ).queued + seq![item]);
}

/// A transfer that waits for a delivery is the head of its lane, cannot run, and is given back only
/// for that delivery, once.
pub proof fn law_waiting_head_is_given_back_for_its_delivery<T>(
    waiting: &mut TransferQueues<T>,
    id: u64,
    transfer: RunnableTransfer<T>,
    asked: &mut TransferQueues<T>,
    class: TransferClass,
    wanted: u64,
    taken: Option<RunnableTransfer<T>>,
)
    requires
        old(waiting).wf(),
        old(waiting).lane_model(transfer.lane()).head is Idle,
        call_ensures(TransferQueues::<T>::wait_for_delivery, (waiting, id, transfer), ()),
        old(asked).wf(),
        call_ensures(TransferQueues::<T>::take_waiting, (asked, class, wanted), taken),
    ensures
        final(waiting).lane_model(transfer.lane()).head == (TransferLaneState::WaitingDelivery {
            id,
            item: transfer.value(),
        }),
        final(waiting).lane_model(transfer.lane()).queued == old(waiting).lane_model(
            transfer.lane(),
        ).queued,
        taken is Some <==> (old(asked).lane_model(
            class,
        ).head matches TransferLaneState::WaitingDelivery { id: waits, .. } && waits == wanted),
        taken matches Some(given) ==> given.lane() == class && given.value() == old(asked).lane_model(class).head->item && final(asked).lane_model(class).head is Idle && final(asked).lane_model(class).queued == old(asked).lane_model(class).queued,
        taken is None ==> final(asked).lane_model(class) == old(asked).lane_model(class),
{
}

/// Draining hands over everything the lanes own, head first, class by class, and leaves them empty.
pub proof fn law_drain_empties_class_by_class<T>(
    queues: &mut TransferQueues<T>,
    transfers: Vec<T>,
    class: TransferClass,
)
    requires
        old(queues).wf(),
        call_ensures(TransferQueues::<T>::drain_transfers, (queues,), transfers),
    ensures
        final(queues).lane_model(class).head is Idle,
        final(queues).lane_model(class).queued.len() == 0,
        transfers@ == old(queues).lane_model(TransferClass::DhtControl).owned() + old(queues).lane_model(TransferClass::Storage).owned() + old(queues).lane_model(
            TransferClass::E2e,
        ).owned() + old(queues).lane_model(TransferClass::Application).owned(),
{
    assert(final(queues).lane_model(class) == LaneModel::<T>::empty());
}

/// A transfer that is made runnable heads its lane before the others; a lane whose head is done goes
/// on to the next; no other lane changes, and neither does whose turn it is.
pub proof fn law_heads_come_and_go_in_their_own_lane<T>(
    made: &mut TransferQueues<T>,
    transfer: RunnableTransfer<T>,
    made_done: (),
    other: TransferClass,
    observed: TransferQueues<T>,
    class: TransferClass,
    runs: bool,
    any: bool,
)
    requires
        old(made).wf(),
        old(made).lane_model(transfer.lane()).head is Idle,
        call_ensures(TransferQueues::<T>::make_runnable, (made, transfer), made_done),
        other != transfer.lane(),
        observed.wf(),
        call_ensures(TransferQueues::<T>::is_runnable, (&observed, class), runs),
        call_ensures(TransferQueues::<T>::has_runnable, (&observed,), any),
    ensures
        final(made).lane_model(transfer.lane()).head == TransferLaneState::Runnable(
            transfer.value(),
        ),
        final(made).lane_model(transfer.lane()).queued == old(made).lane_model(
            transfer.lane(),
        ).queued,
        final(made).lane_model(other) == old(made).lane_model(other),
        final(made).cursor() == old(made).cursor(),
        final(made).control_run() == old(made).control_run(),
        runs <==> observed.lane_model(class).head is Runnable,
        runs ==> any,
        any ==> exists|some: TransferClass|
            (#[trigger] observed.lane_model(some)).head is Runnable,
{
}

/// A lane whose head is done goes on to the first that waits in it, and is idle without one; no
/// other lane changes.
pub proof fn law_finished_head_makes_way<T>(
    queues: &mut TransferQueues<T>,
    class: TransferClass,
    done: (),
    other: TransferClass,
)
    requires
        old(queues).wf(),
        call_ensures(TransferQueues::<T>::finish_current, (queues, class), done),
        other != class,
    ensures
        ({
            let before = old(queues).lane_model(class);
            let after = final(queues).lane_model(class);
            &&& before.queued.len() == 0 ==> after.head is Idle && after.queued.len() == 0
            &&& before.queued.len() > 0 ==> after.head == TransferLaneState::Runnable(
                before.queued[0],
            ) && after.queued == before.queued.skip(1)
            &&& final(queues).lane_model(other) == old(queues).lane_model(other)
            &&& final(queues).cursor() == old(queues).cursor()
            &&& final(queues).control_run() == old(queues).control_run()
        }),
{
    let before = old(queues).lane_model(class);
    if before.queued.len() > 0 {
        assert(before.queued.drop_first() =~= before.queued.skip(1));
    }
}

/// Removing takes the ready transfers that the predicate names out of every lane and hands them
/// over; the others stay ready, and a head out for delivery is not touched.
pub proof fn law_removal_takes_what_is_named<T, F: Fn(&T) -> bool>(
    queues: &mut TransferQueues<T>,
    predicate: F,
    named: spec_fn(T) -> bool,
    removed: Vec<T>,
    class: TransferClass,
    i: int,
)
    requires
        old(queues).wf(),
        call_ensures(
            TransferQueues::<T>::remove_ready_where::<F>,
            (queues, predicate),
            removed,
        ),
        forall|item: T, verdict: bool| #[trigger]
            predicate.ensures((&item,), verdict) ==> verdict == named(item),
        0 <= i < old(queues).lane_model(class).ready().len(),
    ensures
        ({
            let before = old(queues).lane_model(class);
            let after = final(queues).lane_model(class);
            let item = before.ready()[i];
            &&& named(item) ==> removed@.contains(item) && !after.ready().contains(item)
            &&& !named(item) ==> after.ready().contains(item)
            &&& before.head is WaitingDelivery ==> after.head == before.head
            &&& final(queues).cursor() == old(queues).cursor()
        }),
{
    lemma_swept(predicate, named, &*old(queues), &*final(queues), removed@);
    let unnamed = |item: T| !named(item);
    let before = old(queues).lane_model(class);
    let after = final(queues).lane_model(class);
    let item = before.ready()[i];
    assert(after == before.keeping(before.ready().filter(unnamed)));
    assert(after.ready() =~= before.ready().filter(unnamed));
    if named(item) {
        if after.ready().contains(item) {
            let k = choose|k: int| 0 <= k < after.ready().len() && after.ready()[k] == item;
            before.ready().lemma_filter_pred(unnamed, k);
        }
        before.ready().lemma_filter_contains(named, i);
        let part = before.ready().filter(named);
        let k = choose|k: int| 0 <= k < part.len() && part[k] == item;
        let control = old(queues).lane_model(TransferClass::DhtControl).ready().filter(named).len();
        let storage = old(queues).lane_model(TransferClass::Storage).ready().filter(named).len();
        let e2e = old(queues).lane_model(TransferClass::E2e).ready().filter(named).len();
        let at = match class {
            TransferClass::DhtControl => k,
            TransferClass::Storage => control + k,
            TransferClass::E2e => control + storage + k,
            TransferClass::Application => control + storage + e2e + k,
        };
        assert(removed@[at] == item);
    } else {
        before.ready().lemma_filter_contains(unnamed, i);
    }
}

} // verus!

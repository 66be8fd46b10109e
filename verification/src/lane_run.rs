//! What the lanes of a peer do over any run of calls.
//!
//! A transfer changes while it is sent, so it is followed by a name that it keeps. The ledger of a
//! class is read off the calls alone: what was pushed, which pushes are left and which are gone,
//! what is out of its lane and what waits for a delivery.

use vstd::prelude::*;

use crate::class::TransferClass;
use crate::queue::law_cursor_names_a_lower_class;
use crate::queue::law_selection_is_work_conserving;
use crate::queue::parted_by;
use crate::queue::picked;
use crate::queue::LaneModel;
use crate::queue::TransferLaneState;
use crate::queue::TransferQueues;

verus! {

/// One call on the lanes, with what it gave.
pub enum LaneCall<T> {
    /// `push`.
    Push { class: TransferClass, item: T },
    /// `pop`.
    Pop { popped: Option<(TransferClass, T)> },
    /// `wait_for_delivery`.
    Wait { class: TransferClass, id: u64, item: T },
    /// `take_waiting`.
    TakeWaiting { class: TransferClass, id: u64, taken: Option<T> },
    /// `make_runnable`.
    MakeRunnable { class: TransferClass, item: T },
    /// `finish_transfer`, or `finish_current` after a transfer of the class was popped.
    Finish { class: TransferClass, item: T },
    /// `fail_attempt`.
    Fail { class: TransferClass, item: T },
    /// `record_frame_admitted`.
    Admitted { class: TransferClass },
    /// `remove_ready_where`, with the verdict on each ready transfer.
    Remove { verdicts: spec_fn(TransferClass) -> Seq<bool>, removed: Seq<T> },
    /// `drain_transfers`.
    Drain { transfers: Seq<T> },
}

/// The scan that took `removed` out by `verdicts`.
pub open spec fn remove_of<T>(
    verdicts: spec_fn(TransferClass) -> Seq<bool>,
    removed: Seq<T>,
) -> LaneCall<T> {
    LaneCall::Remove { verdicts, removed }
}

/// The end of the transfer `item` of `class`.
pub open spec fn finish_of<T>(class: TransferClass, item: T) -> LaneCall<T> {
    LaneCall::Finish { class, item }
}

/// `after` has the lane of `class` replaced by `lane`, and every other lane of `before`.
pub open spec fn lane_replaced<T>(
    before: &TransferQueues<T>,
    class: TransferClass,
    lane: LaneModel<T>,
    after: &TransferQueues<T>,
) -> bool {
    after.lane_model(class) == lane && after.other_lanes_same(before, class)
}

/// `after` has the lanes of `before`.
pub open spec fn lanes_kept<T>(before: &TransferQueues<T>, after: &TransferQueues<T>) -> bool {
    forall|class: TransferClass| #[trigger] after.lane_model(class) == before.lane_model(class)
}

/// What `call` does to the lanes `before`.
pub open spec fn lane_step<T>(
    before: &TransferQueues<T>,
    call: LaneCall<T>,
    after: &TransferQueues<T>,
) -> bool {
    match call {
        LaneCall::Push { class, item } => lane_replaced(
            before,
            class,
            before.lane_model(class).enqueued(item),
            after,
        ),
        LaneCall::Pop { popped } => match before.selected() {
            Some(class) => {
                &&& popped matches Some((from, item)) && from == class && before.lane_model(
                    class,
                ).head == TransferLaneState::Runnable(item)
                &&& lane_replaced(before, class, before.lane_model(class).headless(), after)
            },
            None => popped is None && lanes_kept(before, after),
        },
        LaneCall::Wait { class, id, item } => lane_replaced(
            before,
            class,
            LaneModel {
                head: TransferLaneState::WaitingDelivery { id, item },
                queued: before.lane_model(class).queued,
            },
            after,
        ),
        LaneCall::TakeWaiting { class, id, taken } => if before.lane_model(class).waits_for(id) {
            &&& taken == Some(before.lane_model(class).head->item)
            &&& lane_replaced(before, class, before.lane_model(class).headless(), after)
        } else {
            taken is None && lanes_kept(before, after)
        },
        LaneCall::MakeRunnable { class, item } => lane_replaced(
            before,
            class,
            LaneModel {
                head: TransferLaneState::Runnable(item),
                queued: before.lane_model(class).queued,
            },
            after,
        ),
        LaneCall::Finish { class, .. } | LaneCall::Fail { class, .. } => lane_replaced(
            before,
            class,
            before.lane_model(class).finished(),
            after,
        ),
        LaneCall::Admitted { .. } => lanes_kept(before, after),
        LaneCall::Remove { verdicts, removed } => parted_by(before, after, removed, verdicts),
        LaneCall::Drain { transfers } => {
            &&& transfers == before.owned()
            &&& forall|class: TransferClass| #[trigger]
                after.lane_model(class) == LaneModel::<T>::empty()
        },
    }
}

/// `calls` were made one after another on new lanes; `states` are the lanes before each of them
/// and after the last.
pub open spec fn lane_run<T>(states: Seq<TransferQueues<T>>, calls: Seq<LaneCall<T>>) -> bool {
    &&& states.len() == calls.len() + 1
    &&& forall|class: TransferClass| #[trigger]
        states[0].lane_model(class) == LaneModel::<T>::empty()
    &&& forall|i: int| 0 <= i < states.len() ==> (#[trigger] states[i]).wf()
    &&& forall|i: int, j: int|
        #![trigger states[i], states[j]]
        0 <= i < calls.len() && j == i + 1 ==> lane_step(&states[i], calls[i], &states[j])
}

/// The positions stand in increasing order.
pub open spec fn increasing(positions: Seq<int>) -> bool {
    forall|i: int, j: int|
        0 <= i < j < positions.len() ==> #[trigger] positions[i] < #[trigger] positions[j]
}

/// What the calls say of one class. A push is known by its position among the pushes.
#[verifier::ext_equal]
pub struct LaneLedger {
    /// The names of the transfers pushed, first first.
    pub pushed: Seq<int>,
    /// The pushes that are left, in push order.
    pub left: Seq<int>,
    /// The pushes that were finished, failed, removed or drained, as they went.
    pub gone: Seq<int>,
    /// The name of the transfer that is out of the lane.
    pub held: Option<int>,
    /// The delivery that the head waits for.
    pub waiting: Option<u64>,
}

impl LaneLedger {
    /// The name behind each push.
    pub open spec fn name_of_push(self) -> spec_fn(int) -> int {
        |at: int| self.pushed[at]
    }

    /// The names behind `positions`.
    pub open spec fn names_at(self, positions: Seq<int>) -> Seq<int> {
        positions.map_values(self.name_of_push())
    }

    /// How many pushes a scan cannot reach: the one whose transfer is out or waits for a delivery.
    pub open spec fn out_of_reach(self) -> int {
        if self.held is Some || self.waiting is Some {
            1
        } else {
            0
        }
    }

    /// The pushes that a scan looks at.
    pub open spec fn scanned(self) -> Seq<int> {
        self.left.skip(self.out_of_reach())
    }

    /// The first push that is left is done.
    pub open spec fn first_gone(self) -> LaneLedger {
        LaneLedger {
            held: None,
            left: self.left.drop_first(),
            gone: self.gone.push(self.left[0]),
            ..self
        }
    }

    /// The ledger after `call` on the lane of `class`.
    pub open spec fn after<T>(
        self,
        class: TransferClass,
        call: LaneCall<T>,
        name: spec_fn(T) -> int,
    ) -> LaneLedger {
        match call {
            LaneCall::Push { class: of, item } if of == class => LaneLedger {
                pushed: self.pushed.push(name(item)),
                left: self.left.push(self.pushed.len() as int),
                ..self
            },
            LaneCall::Pop { popped: Some((of, item)) } if of == class => LaneLedger {
                held: Some(name(item)),
                ..self
            },
            LaneCall::Wait { class: of, id, .. } if of == class => LaneLedger {
                held: None,
                waiting: Some(id),
                ..self
            },
            LaneCall::TakeWaiting { class: of, taken: Some(item), .. } if of == class =>
                LaneLedger { held: Some(name(item)), waiting: None, ..self },
            LaneCall::MakeRunnable { class: of, .. } if of == class => LaneLedger {
                held: None,
                ..self
            },
            LaneCall::Finish { class: of, .. } if of == class => self.first_gone(),
            LaneCall::Fail { class: of, .. } if of == class => self.first_gone(),
            LaneCall::Remove { verdicts, .. } => LaneLedger {
                left: self.left.take(self.out_of_reach()) + picked(
                    self.scanned(),
                    verdicts(class),
                    false,
                ),
                gone: self.gone + picked(self.scanned(), verdicts(class), true),
                ..self
            },
            LaneCall::Drain { .. } => LaneLedger {
                left: Seq::empty(),
                gone: self.gone + self.left,
                waiting: None,
                ..self
            },
            _ => self,
        }
    }

    /// `call` keeps to the use of the lane of `class`: a transfer that is out is given back, under
    /// its name, before the next push and before a drain, and nothing else is given back.
    pub open spec fn allows<T>(
        self,
        class: TransferClass,
        call: LaneCall<T>,
        name: spec_fn(T) -> int,
    ) -> bool {
        match call {
            LaneCall::Push { class: of, .. } => of == class ==> self.held is None,
            LaneCall::Wait { class: of, item, .. }
            | LaneCall::MakeRunnable { class: of, item }
            | LaneCall::Finish { class: of, item }
            | LaneCall::Fail { class: of, item } => of == class ==> self.held == Some(name(item)),
            LaneCall::Drain { .. } => self.held is None,
            _ => true,
        }
    }

    /// `lane` holds what the ledger says.
    pub open spec fn describes<T>(self, lane: LaneModel<T>, name: spec_fn(T) -> int) -> bool {
        &&& match self.held {
            Some(held) => {
                &&& lane.head is Idle
                &&& seq![held] + lane.queued.map_values(name) == self.names_at(self.left)
            },
            None => {
                &&& lane.owned().map_values(name) == self.names_at(self.left)
                &&& lane.head is Idle ==> lane.queued.len() == 0
            },
        }
        &&& match self.waiting {
            Some(id) => lane.waits_for(id),
            None => !(lane.head is WaitingDelivery),
        }
    }

    /// Every push is either left or gone, and once only; those left stand in push order.
    pub open spec fn accounts(self) -> bool {
        &&& increasing(self.left)
        &&& self.gone.no_duplicates()
        &&& forall|at: int| #[trigger]
            self.left.contains(at) <==> 0 <= at < self.pushed.len() && !self.gone.contains(at)
        &&& forall|at: int| #[trigger] self.gone.contains(at) ==> 0 <= at < self.pushed.len()
    }
}

/// The ledger of `class` after `calls`.
pub open spec fn ledger<T>(
    class: TransferClass,
    calls: Seq<LaneCall<T>>,
    name: spec_fn(T) -> int,
) -> LaneLedger
    decreases calls.len(),
{
    if calls.len() == 0 {
        LaneLedger {
            pushed: Seq::empty(),
            left: Seq::empty(),
            gone: Seq::empty(),
            held: None,
            waiting: None,
        }
    } else {
        ledger(class, calls.drop_last(), name).after(class, calls.last(), name)
    }
}

/// Every call keeps to the use of the lane of `class`.
pub open spec fn well_used<T>(
    class: TransferClass,
    calls: Seq<LaneCall<T>>,
    name: spec_fn(T) -> int,
) -> bool
    decreases calls.len(),
{
    calls.len() > 0 ==> well_used(class, calls.drop_last(), name) && ledger(
        class,
        calls.drop_last(),
        name,
    ).allows(class, calls.last(), name)
}

/// The names of what is left of every class, in class order.
pub open spec fn left_of_all<T>(calls: Seq<LaneCall<T>>, name: spec_fn(T) -> int) -> Seq<int> {
    left_of(TransferClass::DhtControl, calls, name) + left_of(TransferClass::Storage, calls, name)
        + left_of(TransferClass::E2e, calls, name) + left_of(
        TransferClass::Application,
        calls,
        name,
    )
}

/// The names of what is left of `class`, in push order.
pub open spec fn left_of<T>(
    class: TransferClass,
    calls: Seq<LaneCall<T>>,
    name: spec_fn(T) -> int,
) -> Seq<int> {
    let standing = ledger(class, calls, name);
    standing.names_at(standing.left)
}

/// The names of what a scan takes out of `class` by `verdicts`, in push order.
pub open spec fn scanned_out_of<T>(
    class: TransferClass,
    calls: Seq<LaneCall<T>>,
    verdicts: spec_fn(TransferClass) -> Seq<bool>,
    name: spec_fn(T) -> int,
) -> Seq<int> {
    let standing = ledger(class, calls, name);
    standing.names_at(picked(standing.scanned(), verdicts(class), true))
}

/// The transfer that `call` popped, if it popped one.
pub open spec fn transfer_popped<T>(call: LaneCall<T>) -> Option<T> {
    match call {
        LaneCall::Pop { popped: Some((_, item)) } => Some(item),
        _ => None,
    }
}

/// The push of `class` that a `pop` would have to give before the call `at`.
pub open spec fn first_left<T>(
    class: TransferClass,
    calls: Seq<LaneCall<T>>,
    at: int,
    name: spec_fn(T) -> int,
) -> int {
    ledger(class, calls.take(at), name).left[0]
}

proof fn lemma_picked_names<A>(
    items: Seq<A>,
    verdicts: Seq<bool>,
    wanted: bool,
    name: spec_fn(A) -> int,
)
    ensures
        picked(items, verdicts, wanted).map_values(name) == picked(
            items.map_values(name),
            verdicts,
            wanted,
        ),
    decreases items.len(),
{
    let named = items.map_values(name);
    if items.len() > 0 && verdicts.len() == items.len() {
        lemma_picked_names(items.drop_last(), verdicts.drop_last(), wanted, name);
        assert(named.drop_last() =~= items.drop_last().map_values(name));
        let earlier = picked(items.drop_last(), verdicts.drop_last(), wanted);
        assert(earlier.push(items.last()).map_values(name) =~= earlier.map_values(name).push(
            name(items.last()),
        ));
    } else {
        assert(picked(items, verdicts, wanted).map_values(name) =~= Seq::<int>::empty());
    }
}

proof fn lemma_picked_positions(positions: Seq<int>, verdicts: Seq<bool>)
    requires
        increasing(positions),
        verdicts.len() == positions.len(),
    ensures
        increasing(picked(positions, verdicts, true)),
        increasing(picked(positions, verdicts, false)),
        forall|at: int| #[trigger]
            picked(positions, verdicts, true).contains(at) ==> positions.contains(at),
        forall|at: int| #[trigger]
            picked(positions, verdicts, false).contains(at) ==> positions.contains(at),
        forall|at: int|
            positions.contains(at) ==> (#[trigger] picked(positions, verdicts, true).contains(at)
                <==> !(#[trigger] picked(positions, verdicts, false).contains(at))),
    decreases positions.len(),
{
    if positions.len() > 0 {
        let rest = positions.drop_last();
        let last = positions.last();
        lemma_picked_positions(rest, verdicts.drop_last());
        lemma_last_position(rest, positions, last);
        let taken = picked(rest, verdicts.drop_last(), true);
        let kept = picked(rest, verdicts.drop_last(), false);
        lemma_bounded_push(taken, rest, last);
        lemma_bounded_push(kept, rest, last);
    }
}

proof fn lemma_last_position(rest: Seq<int>, positions: Seq<int>, last: int)
    requires
        increasing(positions),
        positions.len() > 0,
        rest == positions.drop_last(),
        last == positions.last(),
    ensures
        forall|at: int| #[trigger] rest.contains(at) ==> at < last,
        forall|at: int| #[trigger] positions.contains(at) <==> rest.contains(at) || at == last,
{
    assert forall|at: int| #[trigger] rest.contains(at) implies at < last by {
        let i = choose|i: int| 0 <= i < rest.len() && rest[i] == at;
        assert(positions[i] < positions[positions.len() - 1]);
    }
    assert forall|at: int| #[trigger] positions.contains(at) <==> rest.contains(at) || at
        == last by {
        if positions.contains(at) && at != last {
            let i = choose|i: int| 0 <= i < positions.len() && positions[i] == at;
            assert(rest[i] == at);
        }
        if rest.contains(at) {
            let i = choose|i: int| 0 <= i < rest.len() && rest[i] == at;
            assert(positions[i] == at);
        }
        assert(positions[positions.len() - 1] == last);
    }
}

proof fn lemma_bounded_push(some: Seq<int>, all: Seq<int>, last: int)
    requires
        increasing(some),
        forall|at: int| #[trigger] some.contains(at) ==> all.contains(at),
        forall|at: int| #[trigger] all.contains(at) ==> at < last,
    ensures
        increasing(some.push(last)),
        forall|at: int| #[trigger] some.push(last).contains(at) <==> some.contains(at) || at
            == last,
{
    let grown = some.push(last);
    assert forall|i: int, j: int| 0 <= i < j < grown.len() implies #[trigger] grown[i]
        < #[trigger] grown[j] by {
        if j == some.len() {
            assert(some.contains(some[i]));
            assert(all.contains(some[i]));
        }
    }
    assert forall|at: int| #[trigger] grown.contains(at) <==> some.contains(at) || at == last by {
        if some.contains(at) {
            let i = choose|i: int| 0 <= i < some.len() && some[i] == at;
            assert(grown[i] == at);
        }
        if grown.contains(at) {
            let i = choose|i: int| 0 <= i < grown.len() && grown[i] == at;
            if i < some.len() {
                assert(some[i] == at);
            }
        }
        assert(grown[some.len() as int] == last);
    }
}

proof fn lemma_joined(front: Seq<int>, back: Seq<int>)
    ensures
        forall|at: int| #[trigger] (front + back).contains(at) <==> front.contains(at)
            || back.contains(at),
{
    let joined = front + back;
    assert forall|at: int| #[trigger] joined.contains(at) <==> front.contains(at)
        || back.contains(at) by {
        if front.contains(at) {
            let i = choose|i: int| 0 <= i < front.len() && front[i] == at;
            assert(joined[i] == at);
        }
        if back.contains(at) {
            let i = choose|i: int| 0 <= i < back.len() && back[i] == at;
            assert(joined[front.len() + i] == at);
        }
        if joined.contains(at) {
            let i = choose|i: int| 0 <= i < joined.len() && joined[i] == at;
            if i < front.len() {
                assert(front[i] == at);
            } else {
                assert(back[i - front.len()] == at);
            }
        }
    }
}

/// Taking the pushes `taken` out of `left`, of which `kept` stay, leaves every push accounted for.
proof fn lemma_moved_to_gone(ledger: LaneLedger, kept: Seq<int>, taken: Seq<int>)
    requires
        ledger.accounts(),
        increasing(kept),
        increasing(taken),
        forall|at: int| #[trigger] kept.contains(at) ==> ledger.left.contains(at),
        forall|at: int| #[trigger] taken.contains(at) ==> ledger.left.contains(at),
        forall|at: int|
            ledger.left.contains(at) ==> (#[trigger] taken.contains(at) <==> !(
            #[trigger] kept.contains(at))),
    ensures
        (LaneLedger { left: kept, gone: ledger.gone + taken, ..ledger }).accounts(),
{
    let gone = ledger.gone + taken;
    lemma_joined(ledger.gone, taken);
    assert forall|i: int, j: int| 0 <= i < j < gone.len() implies gone[i] != gone[j] by {
        let first = gone[i];
        let second = gone[j];
        if i < ledger.gone.len() && j >= ledger.gone.len() {
            assert(ledger.gone.contains(first));
            assert(taken[j - ledger.gone.len()] == second);
            assert(taken.contains(second));
            assert(ledger.left.contains(second));
        }
    }
    assert(gone.no_duplicates());
    let after = LaneLedger { left: kept, gone, ..ledger };
    assert forall|at: int| #[trigger] after.left.contains(at) <==> 0 <= at < after.pushed.len()
        && !after.gone.contains(at) by {
        assert(ledger.left.contains(at) <==> 0 <= at < ledger.pushed.len()
            && !ledger.gone.contains(at));
        assert(gone.contains(at) <==> ledger.gone.contains(at) || taken.contains(at));
        if ledger.left.contains(at) {
            assert(taken.contains(at) <==> !kept.contains(at));
        }
    }
    assert forall|at: int| #[trigger] after.gone.contains(at) implies 0 <= at
        < after.pushed.len() by {
        assert(ledger.gone.contains(at) || taken.contains(at));
        if taken.contains(at) {
            assert(ledger.left.contains(at));
        }
    }
}

/// An increasing sequence cut in two: its parts increase, and everything is in one of them.
proof fn lemma_cut(positions: Seq<int>, at: int)
    requires
        increasing(positions),
        0 <= at <= positions.len(),
    ensures
        increasing(positions.take(at)),
        increasing(positions.skip(at)),
        forall|x: int| #[trigger]
            positions.contains(x) <==> positions.take(at).contains(x) || positions.skip(
                at,
            ).contains(x),
        forall|x: int, y: int| #[trigger]
            positions.take(at).contains(x) && #[trigger] positions.skip(at).contains(y) ==> x < y,
{
    let front = positions.take(at);
    let back = positions.skip(at);
    assert(front + back =~= positions);
    lemma_joined(front, back);
    assert forall|x: int, y: int| #[trigger] front.contains(x) && #[trigger] back.contains(
        y,
    ) implies x < y by {
        let i = choose|i: int| 0 <= i < front.len() && front[i] == x;
        let j = choose|j: int| 0 <= j < back.len() && back[j] == y;
        assert(positions[i] == x && positions[at + j] == y);
    }
}

proof fn lemma_scan_keeps_accounts(ledger: LaneLedger, verdicts: Seq<bool>)
    requires
        ledger.accounts(),
        ledger.out_of_reach() <= ledger.left.len(),
        verdicts.len() == ledger.scanned().len(),
    ensures
        (LaneLedger {
            left: ledger.left.take(ledger.out_of_reach()) + picked(
                ledger.scanned(),
                verdicts,
                false,
            ),
            gone: ledger.gone + picked(ledger.scanned(), verdicts, true),
            ..ledger
        }).accounts(),
{
    let front = ledger.left.take(ledger.out_of_reach());
    let back = ledger.scanned();
    lemma_cut(ledger.left, ledger.out_of_reach());
    lemma_picked_positions(back, verdicts);
    let kept_back = picked(back, verdicts, false);
    let taken = picked(back, verdicts, true);
    let kept = front + kept_back;
    lemma_joined(front, kept_back);
    assert forall|i: int, j: int| 0 <= i < j < kept.len() implies #[trigger] kept[i]
        < #[trigger] kept[j] by {
        if i < front.len() && j >= front.len() {
            assert(front.contains(front[i]));
            assert(kept_back.contains(kept_back[j - front.len()]));
            assert(back.contains(kept_back[j - front.len()]));
        }
    }
    assert forall|at: int| #[trigger] kept.contains(at) implies ledger.left.contains(at) by {
        assert(front.contains(at) || kept_back.contains(at));
    }
    assert forall|at: int| #[trigger] taken.contains(at) implies ledger.left.contains(at) by {
        assert(back.contains(at));
    }
    assert forall|at: int| ledger.left.contains(at) implies (#[trigger] taken.contains(at) <==> !(
    #[trigger] kept.contains(at))) by {
        assert(kept.contains(at) <==> front.contains(at) || kept_back.contains(at));
        if back.contains(at) {
            assert(!front.contains(at));
        } else {
            assert(front.contains(at));
        }
    }
    lemma_moved_to_gone(ledger, kept, taken);
}

proof fn lemma_step_keeps_ledger<T>(
    class: TransferClass,
    ledger: LaneLedger,
    before: &TransferQueues<T>,
    call: LaneCall<T>,
    after: &TransferQueues<T>,
    name: spec_fn(T) -> int,
)
    requires
        ledger.accounts(),
        ledger.describes(before.lane_model(class), name),
        ledger.allows(class, call, name),
        lane_step(before, call, after),
    ensures
        ledger.after(class, call, name).accounts(),
        ledger.after(class, call, name).describes(after.lane_model(class), name),
{
    let lane = before.lane_model(class);
    let left = ledger.names_at(ledger.left);
    let next = ledger.after(class, call, name);
    match call {
        LaneCall::Push { class: of, item } => {
            if of == class {
                lemma_push_keeps_accounts(ledger, name(item));
                assert(lane.enqueued(item).owned() =~= lane.owned().push(item));
                assert(lane.owned().push(item).map_values(name) =~= lane.owned().map_values(
                    name,
                ).push(name(item)));
                assert forall|i: int| 0 <= i < ledger.left.len() implies 0
                    <= #[trigger] ledger.left[i] < ledger.pushed.len() by {
                    assert(ledger.left.contains(ledger.left[i]));
                }
                assert(next.names_at(next.left) =~= left.push(name(item)));
            }
        },
        LaneCall::Pop { popped } => {
            match popped {
                Some((of, item)) => {
                    if of == class {
                        assert(lane.owned().map_values(name) =~= seq![name(item)]
                            + lane.queued.map_values(name));
                        assert(next.names_at(next.left) =~= left);
                    }
                },
                None => {},
            }
        },
        LaneCall::Wait { class: of, item, .. } => {
            if of == class {
                assert((seq![item] + lane.queued).map_values(name) =~= seq![name(item)]
                    + lane.queued.map_values(name));
                assert(next.names_at(next.left) =~= left);
            }
        },
        LaneCall::TakeWaiting { class: of, id, taken } => {
            if of == class && lane.waits_for(id) {
                assert(lane.owned().map_values(name) =~= seq![name(taken->0)]
                    + lane.queued.map_values(name));
                assert(next.names_at(next.left) =~= left);
            }
        },
        LaneCall::MakeRunnable { class: of, item } => {
            if of == class {
                assert((seq![item] + lane.queued).map_values(name) =~= seq![name(item)]
                    + lane.queued.map_values(name));
                assert(next.names_at(next.left) =~= left);
            }
        },
        LaneCall::Finish { class: of, item } | LaneCall::Fail { class: of, item } => {
            if of == class {
                assert(left.len() == 1 + lane.queued.len());
                lemma_first_gone_keeps_accounts(ledger);
                assert(lane.finished().owned() =~= lane.queued);
                assert(next.names_at(next.left) =~= left.skip(1));
                assert((seq![name(item)] + lane.queued.map_values(name)).skip(1)
                    =~= lane.queued.map_values(name));
            }
        },
        LaneCall::Admitted { .. } => {},
        LaneCall::Remove { verdicts, .. } => {
            lemma_scan_keeps_ledger(class, ledger, before, verdicts, after, name);
        },
        LaneCall::Drain { .. } => {
            lemma_moved_to_gone(ledger, Seq::empty(), ledger.left);
            assert(next.names_at(next.left) =~= Seq::<int>::empty());
            assert(LaneModel::<T>::empty().owned().map_values(name) =~= Seq::<int>::empty());
        },
    }
}

proof fn lemma_push_keeps_accounts(ledger: LaneLedger, name: int)
    requires
        ledger.accounts(),
    ensures
        (LaneLedger {
            pushed: ledger.pushed.push(name),
            left: ledger.left.push(ledger.pushed.len() as int),
            ..ledger
        }).accounts(),
{
    let new = ledger.pushed.len() as int;
    assert forall|at: int| #[trigger] ledger.left.contains(at) implies at < new by {}
    lemma_bounded_push(ledger.left, ledger.left, new);
    let after = LaneLedger {
        pushed: ledger.pushed.push(name),
        left: ledger.left.push(new),
        ..ledger
    };
    assert forall|at: int| #[trigger] after.left.contains(at) <==> 0 <= at < after.pushed.len()
        && !after.gone.contains(at) by {
        assert(ledger.left.contains(at) <==> 0 <= at < new && !ledger.gone.contains(at));
        assert(ledger.gone.contains(at) ==> at < new);
    }
}

proof fn lemma_first_gone_keeps_accounts(ledger: LaneLedger)
    requires
        ledger.accounts(),
        ledger.left.len() > 0,
    ensures
        ledger.first_gone().accounts(),
{
    lemma_cut(ledger.left, 1);
    let front = ledger.left.take(1);
    let back = ledger.left.skip(1);
    assert(front =~= seq![ledger.left[0]]);
    assert(front.contains(ledger.left[0])) by {
        assert(front[0] == ledger.left[0]);
    }
    assert forall|at: int| ledger.left.contains(at) implies (#[trigger] front.contains(at)
        <==> !(#[trigger] back.contains(at))) by {
        assert(front.contains(at) || back.contains(at));
        if front.contains(at) && back.contains(at) {
            assert(at < at);
        }
    }
    lemma_moved_to_gone(ledger, back, front);
    assert(ledger.gone + front =~= ledger.gone.push(ledger.left[0]));
    assert(ledger.left.drop_first() =~= back);
}

proof fn lemma_scan_keeps_ledger<T>(
    class: TransferClass,
    ledger: LaneLedger,
    before: &TransferQueues<T>,
    verdicts: spec_fn(TransferClass) -> Seq<bool>,
    after: &TransferQueues<T>,
    name: spec_fn(T) -> int,
)
    requires
        ledger.accounts(),
        ledger.describes(before.lane_model(class), name),
        verdicts(class).len() == before.lane_model(class).ready().len(),
        after.lane_model(class) == before.lane_model(class).keeping(
            picked(before.lane_model(class).ready(), verdicts(class), false),
        ),
    ensures
        ({
            let next = LaneLedger {
                left: ledger.left.take(ledger.out_of_reach()) + picked(
                    ledger.scanned(),
                    verdicts(class),
                    false,
                ),
                gone: ledger.gone + picked(ledger.scanned(), verdicts(class), true),
                ..ledger
            };
            next.accounts() && next.describes(after.lane_model(class), name)
        }),
        ledger.names_at(picked(ledger.scanned(), verdicts(class), true)) == picked(
            before.lane_model(class).ready(),
            verdicts(class),
            true,
        ).map_values(name),
{
    let lane = before.lane_model(class);
    let given = verdicts(class);
    let ready = lane.ready();
    let reach = ledger.out_of_reach();
    let named = ledger.name_of_push();
    let left = ledger.names_at(ledger.left);
    if ledger.held is None {
        if let TransferLaneState::WaitingDelivery { item, .. } = lane.head {
            assert(lane.owned().map_values(name) =~= seq![name(item)] + lane.queued.map_values(
                name,
            ));
        }
    }
    assert(left.len() == ledger.left.len());
    assert(left.skip(reach) =~= ready.map_values(name));
    assert(ledger.scanned().map_values(named) =~= left.skip(reach));
    lemma_picked_names(ready, given, true, name);
    lemma_picked_names(ready, given, false, name);
    lemma_picked_names(ledger.scanned(), given, true, named);
    lemma_picked_names(ledger.scanned(), given, false, named);
    assert(ledger.scanned().len() == ready.len());
    lemma_scan_keeps_accounts(ledger, given);
    let kept = picked(ready, given, false);
    let next = LaneLedger {
        left: ledger.left.take(reach) + picked(ledger.scanned(), given, false),
        gone: ledger.gone + picked(ledger.scanned(), given, true),
        ..ledger
    };
    assert(next.name_of_push() == named);
    assert(next.names_at(next.left) =~= left.take(reach) + kept.map_values(name));
    let swept = lane.keeping(kept);
    match lane.head {
        TransferLaneState::Runnable(item) => {
            assert(swept.owned() =~= kept);
            assert(left.take(0) + kept.map_values(name) =~= kept.map_values(name));
        },
        TransferLaneState::WaitingDelivery { item, .. } => {
            assert(left.take(1) =~= seq![name(item)]);
            assert(swept.owned().map_values(name) =~= seq![name(item)] + kept.map_values(name));
        },
        TransferLaneState::Idle => {
            if ledger.held is Some {
                assert(left.take(1) =~= seq![ledger.held->0]);
            } else {
                assert(ready.len() == 0);
                assert(kept =~= Seq::<T>::empty());
                assert(swept.owned().map_values(name) =~= left.take(0) + kept.map_values(name));
            }
        },
    }
}

/// At every moment a lane owns what was pushed to its class and is not gone, in push order. A
/// transfer that is out of its lane is the first of these. A push is gone once its transfer was
/// finished, failed, removed or drained, and it goes once.
pub proof fn law_lanes_hold_what_is_not_gone<T>(
    class: TransferClass,
    states: Seq<TransferQueues<T>>,
    calls: Seq<LaneCall<T>>,
    name: spec_fn(T) -> int,
)
    requires
        lane_run(states, calls),
        well_used(class, calls, name),
    ensures
        ledger(class, calls, name).accounts(),
        ledger(class, calls, name).describes(states.last().lane_model(class), name),
    decreases calls.len(),
{
    if calls.len() == 0 {
        let standing = ledger(class, calls, name);
        assert(states.last() == states[0]);
        assert(standing.names_at(standing.left) =~= Seq::<int>::empty());
        assert(LaneModel::<T>::empty().owned().map_values(name) =~= Seq::<int>::empty());
    } else {
        let n = calls.len() - 1;
        assert(lane_run(states.drop_last(), calls.drop_last()));
        law_lanes_hold_what_is_not_gone(class, states.drop_last(), calls.drop_last(), name);
        assert(lane_step(&states[n], calls[n], &states[n + 1]));
        lemma_step_keeps_ledger(
            class,
            ledger(class, calls.drop_last(), name),
            &states[n],
            calls[n],
            &states[n + 1],
            name,
        );
    }
}

/// A run is a run up to every call of it.
proof fn lemma_run_prefix<T>(
    class: TransferClass,
    states: Seq<TransferQueues<T>>,
    calls: Seq<LaneCall<T>>,
    at: int,
    name: spec_fn(T) -> int,
)
    requires
        lane_run(states, calls),
        0 <= at <= calls.len(),
    ensures
        lane_run(states.take(at + 1), calls.take(at)),
        well_used(class, calls, name) ==> well_used(class, calls.take(at), name),
    decreases calls.len() - at,
{
    let before = states.take(at + 1);
    let prefix = calls.take(at);
    assert forall|i: int, j: int|
        #![trigger before[i], before[j]]
        0 <= i < prefix.len() && j == i + 1 implies lane_step(
        &before[i],
        prefix[i],
        &before[j],
    ) by {
        assert(states[i] == before[i] && states[j] == before[j]);
        assert(calls[i] == prefix[i]);
    }
    assert(before[0] == states[0]);
    if at == calls.len() {
        assert(prefix =~= calls);
    } else {
        lemma_run_prefix(class, states, calls, at + 1, name);
        assert(calls.take(at + 1).drop_last() =~= prefix);
    }
}

/// What is popped of a class is the first transfer of it that is not gone. A lane yields nothing
/// while its transfer is out or waits for a delivery. Nothing is popped only where no class has a
/// transfer that could be.
pub proof fn law_pop_gives_the_first_transfer_left<T>(
    class: TransferClass,
    states: Seq<TransferQueues<T>>,
    calls: Seq<LaneCall<T>>,
    popped: Option<(TransferClass, T)>,
    name: spec_fn(T) -> int,
)
    requires
        lane_run(states, calls.push(LaneCall::Pop { popped })),
        well_used(class, calls, name),
    ensures
        ({
            let standing = ledger(class, calls, name);
            &&& popped matches Some((of, item)) ==> of == class ==> {
                &&& standing.held is None
                &&& standing.waiting is None
                &&& standing.left.len() > 0
                &&& name(item) == standing.pushed[standing.left[0]]
            }
            &&& popped is None ==> standing.held is Some || standing.waiting is Some
                || standing.left.len() == 0
        }),
{
    let all = calls.push(LaneCall::Pop { popped });
    let n = calls.len() as int;
    let before = states[n];
    lemma_run_prefix(class, states, all, n, name);
    assert(all.take(n) =~= calls);
    assert(states.take(n + 1).last() == before);
    law_lanes_hold_what_is_not_gone(class, states.take(n + 1), calls, name);
    assert(lane_step(&states[n], all[n], &states[n + 1]));
    let standing = ledger(class, calls, name);
    let lane = before.lane_model(class);
    let left = standing.names_at(standing.left);
    match popped {
        Some((of, item)) => {
            if of == class {
                let names = lane.owned().map_values(name);
                assert(lane.owned() == seq![item] + lane.queued);
                assert(names.len() == lane.owned().len());
                assert(names[0] == name(item));
                assert(left[0] == name(item));
            }
        },
        None => {
            law_cursor_names_a_lower_class(&before);
            law_selection_is_work_conserving(
                |class: TransferClass| before.runnable(class),
                before.cursor(),
                before.control_run(),
                before.bounds_control(),
            );
            assert(!((|class: TransferClass| before.runnable(class))(class)));
            if standing.held is None && standing.waiting is None {
                assert(lane.owned() =~= Seq::<T>::empty());
                assert(left.len() == 0);
            }
        },
    }
}

/// Nothing that was pushed before the first push left at `at` comes to be left later.
proof fn lemma_left_only_moves_on<T>(
    class: TransferClass,
    states: Seq<TransferQueues<T>>,
    calls: Seq<LaneCall<T>>,
    at: int,
    name: spec_fn(T) -> int,
)
    requires
        lane_run(states, calls),
        well_used(class, calls, name),
        0 <= at <= calls.len(),
        ledger(class, calls.take(at), name).left.len() > 0,
    ensures
        first_left(class, calls, at, name) < ledger(class, calls, name).pushed.len(),
        forall|x: int| #[trigger]
            ledger(class, calls, name).left.contains(x) ==> first_left(class, calls, at, name)
                <= x,
    decreases calls.len(),
{
    let first = first_left(class, calls, at, name);
    let last = ledger(class, calls, name);
    law_lanes_hold_what_is_not_gone(class, states, calls, name);
    if at == calls.len() {
        assert(calls.take(at) =~= calls);
        assert(last.left.contains(last.left[0]));
        assert forall|x: int| #[trigger] last.left.contains(x) implies first <= x by {
            let i = choose|i: int| 0 <= i < last.left.len() && last.left[i] == x;
            assert(i > 0 ==> last.left[0] < last.left[i]);
        }
    } else {
        let n = calls.len() - 1;
        let prefix = calls.drop_last();
        let call = calls.last();
        lemma_run_prefix(class, states, calls, n, name);
        assert(calls.take(n) =~= prefix);
        assert(prefix.take(at) =~= calls.take(at));
        lemma_left_only_moves_on(class, states.take(n + 1), prefix, at, name);
        law_lanes_hold_what_is_not_gone(class, states.take(n + 1), prefix, name);
        let before = ledger(class, prefix, name);
        assert(last == before.after(class, call, name));
        assert(before.gone.len() <= last.gone.len());
        assert forall|x: int| #[trigger] last.left.contains(x) implies first <= x by {
            if x < before.pushed.len() {
                assert(!last.gone.contains(x));
                assert forall|y: int| before.gone.contains(y) implies last.gone.contains(y) by {
                    let i = choose|i: int| 0 <= i < before.gone.len() && before.gone[i] == y;
                    assert(last.gone[i] == y);
                }
                assert(before.left.contains(x));
            }
        }
    }
}

/// Transfers of one class are popped for the first time in push order: of two pops of a class the
/// later one gives no earlier push. Once a transfer was popped, no other of its class is popped
/// until it is gone: finished, failed, removed or drained.
pub proof fn law_pops_come_in_push_order<T>(
    class: TransferClass,
    states: Seq<TransferQueues<T>>,
    calls: Seq<LaneCall<T>>,
    first: int,
    second: int,
    name: spec_fn(T) -> int,
)
    requires
        lane_run(states, calls),
        well_used(class, calls, name),
        0 <= first < second < calls.len(),
        calls[first] matches LaneCall::Pop { popped: Some((of, _)) } && of == class,
        calls[second] matches LaneCall::Pop { popped: Some((of, _)) } && of == class,
    ensures
        ({
            let earlier = first_left(class, calls, first, name);
            let later = first_left(class, calls, second, name);
            let pushed = ledger(class, calls.take(second), name).pushed;
            &&& 0 <= earlier <= later < pushed.len()
            &&& name(transfer_popped(calls[first])->0) == pushed[earlier]
            &&& name(transfer_popped(calls[second])->0) == pushed[later]
            &&& earlier < later ==> ledger(class, calls.take(second), name).gone.contains(earlier)
        }),
{
    let front = calls.take(first);
    let back = calls.take(second);
    lemma_run_prefix(class, states, calls, first, name);
    lemma_run_prefix(class, states, calls, first + 1, name);
    lemma_run_prefix(class, states, calls, second, name);
    lemma_run_prefix(class, states, calls, second + 1, name);
    assert(calls.take(first + 1) =~= front.push(calls[first]));
    assert(calls.take(second + 1) =~= back.push(calls[second]));
    law_pop_gives_the_first_transfer_left(
        class,
        states.take(first + 2),
        front,
        calls[first]->popped,
        name,
    );
    law_pop_gives_the_first_transfer_left(
        class,
        states.take(second + 2),
        back,
        calls[second]->popped,
        name,
    );
    law_lanes_hold_what_is_not_gone(class, states.take(first + 1), front, name);
    law_lanes_hold_what_is_not_gone(class, states.take(second + 1), back, name);
    assert(back.take(first) =~= front);
    lemma_left_only_moves_on(class, states.take(second + 1), back, first, name);
    lemma_pushed_is_kept(class, back, first, name);
    let begun = ledger(class, front, name);
    let standing = ledger(class, back, name);
    assert(begun.left.contains(begun.left[0]));
    assert(standing.left.contains(standing.left[0]));
    if begun.left[0] < standing.left[0] {
        if standing.left.contains(begun.left[0]) {
            let i = choose|i: int|
                0 <= i < standing.left.len() && standing.left[i] == begun.left[0];
            assert(i > 0 ==> standing.left[0] < standing.left[i]);
        }
    }
}

/// What was pushed stays on record.
proof fn lemma_pushed_is_kept<T>(
    class: TransferClass,
    calls: Seq<LaneCall<T>>,
    at: int,
    name: spec_fn(T) -> int,
)
    requires
        0 <= at <= calls.len(),
    ensures
        ledger(class, calls.take(at), name).pushed.len() <= ledger(
            class,
            calls,
            name,
        ).pushed.len(),
        forall|i: int|
            0 <= i < ledger(class, calls.take(at), name).pushed.len() ==> ledger(
                class,
                calls,
                name,
            ).pushed[i] == #[trigger] ledger(class, calls.take(at), name).pushed[i],
    decreases calls.len(),
{
    if at == calls.len() {
        assert(calls.take(at) =~= calls);
    } else {
        assert(calls.drop_last().take(at) =~= calls.take(at));
        lemma_pushed_is_kept(class, calls.drop_last(), at, name);
    }
}

/// A scan takes out only transfers that are neither out of their lane nor waiting for a delivery:
/// those that its verdicts name, class by class, each class in push order.
pub proof fn law_scan_hands_over_in_push_order<T>(
    states: Seq<TransferQueues<T>>,
    calls: Seq<LaneCall<T>>,
    verdicts: spec_fn(TransferClass) -> Seq<bool>,
    removed: Seq<T>,
    name: spec_fn(T) -> int,
)
    requires
        lane_run(states, calls.push(LaneCall::Remove { verdicts, removed })),
        forall|class: TransferClass| #[trigger] well_used(class, calls, name),
    ensures
        removed.map_values(name) == scanned_out_of(
            TransferClass::DhtControl,
            calls,
            verdicts,
            name,
        ) + scanned_out_of(TransferClass::Storage, calls, verdicts, name) + scanned_out_of(
            TransferClass::E2e,
            calls,
            verdicts,
            name,
        ) + scanned_out_of(TransferClass::Application, calls, verdicts, name),
        forall|class: TransferClass| #[trigger]
            verdicts(class).len() == ledger(class, calls, name).scanned().len(),
{
    let all = calls.push(LaneCall::Remove { verdicts, removed });
    let n = calls.len() as int;
    let before = states[n];
    assert(all.take(n) =~= calls);
    assert(states.take(n + 1).last() == before);
    assert(lane_step(&states[n], all[n], &states[n + 1]));
    assert forall|class: TransferClass|
        #![trigger verdicts(class)]
        {
            &&& verdicts(class).len() == ledger(class, calls, name).scanned().len()
            &&& scanned_out_of(class, calls, verdicts, name) == picked(
                before.lane_model(class).ready(),
                verdicts(class),
                true,
            ).map_values(name)
        } by {
        assert(well_used(class, calls, name));
        lemma_run_prefix(class, states, all, n, name);
        law_lanes_hold_what_is_not_gone(class, states.take(n + 1), calls, name);
        let standing = ledger(class, calls, name);
        let lane = before.lane_model(class);
        lemma_scan_keeps_ledger(class, standing, &before, verdicts, &states[n + 1], name);
        lemma_scanned_is_ready(standing, lane, name);
    }
    let control = picked(
        before.lane_model(TransferClass::DhtControl).ready(),
        verdicts(TransferClass::DhtControl),
        true,
    );
    let storage = picked(
        before.lane_model(TransferClass::Storage).ready(),
        verdicts(TransferClass::Storage),
        true,
    );
    let e2e = picked(
        before.lane_model(TransferClass::E2e).ready(),
        verdicts(TransferClass::E2e),
        true,
    );
    let application = picked(
        before.lane_model(TransferClass::Application).ready(),
        verdicts(TransferClass::Application),
        true,
    );
    assert(removed == control + storage + e2e + application);
    assert(removed.map_values(name) =~= control.map_values(name) + storage.map_values(name)
        + e2e.map_values(name) + application.map_values(name));
}

proof fn lemma_scanned_is_ready<T>(
    ledger: LaneLedger,
    lane: LaneModel<T>,
    name: spec_fn(T) -> int,
)
    requires
        ledger.describes(lane, name),
    ensures
        ledger.scanned().len() == lane.ready().len(),
{
    let left = ledger.names_at(ledger.left);
    assert(left.len() == ledger.left.len());
    if ledger.held is Some {
        assert(left.len() == 1 + lane.queued.len());
    } else {
        assert(lane.owned().map_values(name).len() == lane.owned().len());
    }
}

/// A drain with nothing out hands over every transfer that is not gone, each once and nothing
/// else: class by class, each class in push order. Then nothing is left: nothing is popped, no
/// head waits for a delivery, and neither a scan nor a second drain hands over anything.
pub proof fn law_drain_hands_over_what_is_not_gone<T>(
    states: Seq<TransferQueues<T>>,
    calls: Seq<LaneCall<T>>,
    transfers: Seq<T>,
    next: LaneCall<T>,
    rest: &TransferQueues<T>,
    name: spec_fn(T) -> int,
)
    requires
        lane_run(states, calls.push(LaneCall::Drain { transfers })),
        forall|class: TransferClass| #[trigger] well_used(class, calls, name),
        forall|class: TransferClass| (#[trigger] ledger(class, calls, name)).held is None,
        lane_step(&states.last(), next, rest),
    ensures
        transfers.map_values(name) == left_of_all(calls, name),
        forall|class: TransferClass| (#[trigger] ledger(class, calls, name)).accounts(),
        next matches LaneCall::Pop { popped } ==> popped is None,
        next matches LaneCall::TakeWaiting { taken, .. } ==> taken is None,
        next matches LaneCall::Remove { removed, .. } ==> removed == Seq::<T>::empty(),
        next matches LaneCall::Drain { transfers: second } ==> second == Seq::<T>::empty(),
{
    let all = calls.push(LaneCall::Drain { transfers });
    let n = calls.len() as int;
    let before = states[n];
    assert(all.take(n) =~= calls);
    assert(states.take(n + 1).last() == before);
    assert(lane_step(&states[n], all[n], &states[n + 1]));
    assert forall|class: TransferClass|
        #![trigger ledger(class, calls, name)]
        {
            &&& ledger(class, calls, name).accounts()
            &&& left_of(class, calls, name) == before.lane_model(class).owned().map_values(name)
        } by {
        assert(well_used(class, calls, name));
        lemma_run_prefix(class, states, all, n, name);
        law_lanes_hold_what_is_not_gone(class, states.take(n + 1), calls, name);
    }
    assert(left_of(TransferClass::DhtControl, calls, name) == before.lane_model(
        TransferClass::DhtControl,
    ).owned().map_values(name));
    assert(left_of(TransferClass::Storage, calls, name) == before.lane_model(
        TransferClass::Storage,
    ).owned().map_values(name));
    assert(left_of(TransferClass::E2e, calls, name) == before.lane_model(
        TransferClass::E2e,
    ).owned().map_values(name));
    assert(left_of(TransferClass::Application, calls, name) == before.lane_model(
        TransferClass::Application,
    ).owned().map_values(name));
    assert(before.owned().map_values(name) =~= before.lane_model(
        TransferClass::DhtControl,
    ).owned().map_values(name) + before.lane_model(TransferClass::Storage).owned().map_values(name)
        + before.lane_model(TransferClass::E2e).owned().map_values(name) + before.lane_model(
        TransferClass::Application,
    ).owned().map_values(name));
    let drained = states.last();
    assert forall|class: TransferClass| #[trigger]
        drained.lane_model(class) == LaneModel::<T>::empty() by {}
    assert(drained.owned() =~= Seq::<T>::empty());
    law_cursor_names_a_lower_class(&drained);
    law_selection_is_work_conserving(
        |class: TransferClass| drained.runnable(class),
        drained.cursor(),
        drained.control_run(),
        drained.bounds_control(),
    );
    if let LaneCall::Remove { verdicts, removed } = next {
        assert forall|class: TransferClass|
            picked(drained.lane_model(class).ready(), #[trigger] verdicts(class), true)
                == Seq::<T>::empty() by {
            assert(drained.lane_model(class) == LaneModel::<T>::empty());
        }
        assert(removed =~= Seq::<T>::empty());
    }
}

} // verus!

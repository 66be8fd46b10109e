//! Ordered delivery of a peer's events, and per-peer operation leases.
//!
//! Events of one peer start in the order in which their turns were taken. A turn leaves the
//! queue at the first poll of its callback, or when it is cancelled; either way the turn behind
//! it may start. No turn is held while application code is suspended.

use std::collections::VecDeque;
use vstd::prelude::*;

use crate::did::Did;
use crate::ordered_map::OrderedMap;

verus! {

/// The turns of one peer that have neither started nor been cancelled.
pub struct DeliverySequence {
    queue: VecDeque<u64>,
    next_turn: u64,
}

/// A turn in the sequence of its peer.
#[derive(Clone, Copy, Debug, PartialEq, Eq, Hash, Structural)]
pub struct DeliveryTurn {
    /// The turn's number.
    pub number: u64,
    /// Whether the turn may start at once.
    pub ready: bool,
}

/// The turns stand in the order in which they were taken, all before `next_turn`.
pub open spec fn in_order(queue: Seq<u64>, next_turn: u64) -> bool {
    &&& forall|i: int, j: int|
        0 <= i < j < queue.len() ==> #[trigger] queue[i] < #[trigger] queue[j]
    &&& forall|i: int| 0 <= i < queue.len() ==> #[trigger] queue[i] < next_turn
}

impl DeliverySequence {
    /// The waiting turns, head first.
    pub closed spec fn view(&self) -> Seq<u64> {
        self.queue@
    }

    /// The number the next turn gets.
    pub closed spec fn turn_to_give(&self) -> u64 {
        self.next_turn
    }

    /// The turns stand in order.
    pub open spec fn wf(&self) -> bool {
        in_order(self@, self.turn_to_give())
    }

    /// No turn waits.
    pub fn new() -> (sequence: Self)
        ensures
            sequence.wf(),
            sequence@ == Seq::<u64>::empty(),
            sequence.turn_to_give() == 0,
    {
        DeliverySequence { queue: VecDeque::new(), next_turn: 0 }
    }

    /// Whether there are numbers left for another turn.
    pub fn numbers_left(&self) -> (left: bool)
        ensures
            left == (self.turn_to_give() < u64::MAX),
    {
        self.next_turn < u64::MAX
    }

    /// Take the next turn; it may start at once if nothing is ahead of it.
    pub fn acquire(&mut self) -> (turn: DeliveryTurn)
        requires
            old(self).wf(),
            old(self).turn_to_give() < u64::MAX,
        ensures
            final(self).wf(),
            turn_step(&*old(self), TurnCall::Acquire { turn }, &*final(self)),
            turn == (DeliveryTurn {
                number: old(self).turn_to_give(),
                ready: old(self)@.len() == 0,
            }),
            final(self)@ == old(self)@.push(turn.number),
            final(self).turn_to_give() == old(self).turn_to_give() + 1,
    {
        let number: u64 = self.next_turn;
        let ready = self.queue.len() == 0;
        self.queue.push_back(number);
        self.next_turn = number + 1;
        DeliveryTurn { number, ready }
    }

    /// Whether the turn `number` is next.
    pub fn is_head(&self, number: u64) -> (head: bool)
        ensures
            head == (self@.len() > 0 && self@[0] == number),
    {
        self.queue.len() > 0 && self.queue[0] == number
    }

    /// How many turns wait.
    pub fn queued_turns(&self) -> (queued: usize)
        ensures
            queued == self@.len(),
    {
        self.queue.len()
    }

    /// Take the turn `number` out, started or cancelled; gives the turn that may start now
    /// because this one was ahead of it.
    pub fn finish(&mut self, number: u64) -> (signalled: Option<u64>)
        requires
            old(self).wf(),
        ensures
            final(self).wf(),
            forall|started: bool|
                turn_step(
                    &*old(self),
                    #[trigger] release_of(number, started, signalled),
                    &*final(self),
                ),
            final(self).turn_to_give() == old(self).turn_to_give(),
            if old(self)@.contains(number) {
                &&& final(self)@ == old(self)@.remove(old(self)@.index_of(number))
                &&& signalled == (if old(self)@[0] == number && old(self)@.len() > 1 {
                    Some(old(self)@[1])
                } else {
                    None
                })
            } else {
                &&& final(self)@ == old(self)@
                &&& signalled is None
            },
    {
        let mut position: usize = 0;
        while position < self.queue.len()
            invariant
                position <= self@.len(),
                *self == *old(self),
                self.wf(),
                self@ == self.queue@,
                forall|i: int| 0 <= i < position ==> #[trigger] self@[i] != number,
            decreases self@.len() - position,
        {
            if self.queue[position] == number {
                let ghost before = self@;
                proof {
                    assert(before[position as int] == number);
                    assert(before.contains(number));
                    assert(before.index_of(number) == position) by {
                        let found = before.index_of(number);
                        assert(before[found] == number);
                    }
                }
                let _ = self.queue.remove(position);
                proof {
                    let after = self@;
                    assert(after == before.remove(position as int));
                    assert forall|i: int, j: int| 0 <= i < j < after.len() implies
                        #[trigger] after[i] < #[trigger] after[j] by {
                        let bi = if i < position { i } else { i + 1 };
                        let bj = if j < position { j } else { j + 1 };
                        assert(before[bi] < before[bj]);
                    }
                    assert forall|i: int| 0 <= i < after.len() implies #[trigger] after[i]
                        < self.next_turn by {
                        let bi = if i < position { i } else { i + 1 };
                        assert(before[bi] < self.next_turn);
                    }
                }
                if position == 0 && self.queue.len() > 0 {
                    return Some(self.queue[0]);
                }
                return None;
            }
            position += 1;
        }
        assert(!self@.contains(number));
        None
    }
}

/// One call on the turns of a peer, with what it gave.
pub enum TurnCall {
    /// `acquire`.
    Acquire { turn: DeliveryTurn },
    /// `finish`, because the callback of the turn was polled for the first time or because the
    /// turn was cancelled.
    Release { number: u64, started: bool, signalled: Option<u64> },
}

/// The release of the turn `number`.
pub open spec fn release_of(number: u64, started: bool, signalled: Option<u64>) -> TurnCall {
    TurnCall::Release { number, started, signalled }
}

/// `call` takes the turns `before` to `after`.
pub open spec fn turn_step(
    before: &DeliverySequence,
    call: TurnCall,
    after: &DeliverySequence,
) -> bool {
    match call {
        TurnCall::Acquire { turn } => {
            &&& turn == (DeliveryTurn {
                number: before.turn_to_give(),
                ready: before@.len() == 0,
            })
            &&& after@ == before@.push(turn.number)
            &&& after.turn_to_give() == before.turn_to_give() + 1
        },
        TurnCall::Release { number, signalled, .. } => {
            &&& after.turn_to_give() == before.turn_to_give()
            &&& if before@.contains(number) {
                &&& after@ == before@.remove(before@.index_of(number))
                &&& signalled == (if before@[0] == number && before@.len() > 1 {
                    Some(before@[1])
                } else {
                    None
                })
            } else {
                &&& after@ == before@
                &&& signalled is None
            }
        },
    }
}

/// `calls` were made one after another on a new sequence, and only turns that it gave were
/// released; `states` are the sequence before each call and after the last.
pub open spec fn turn_run(states: Seq<DeliverySequence>, calls: Seq<TurnCall>) -> bool {
    &&& states.len() == calls.len() + 1
    &&& states[0]@ == Seq::<u64>::empty()
    &&& states[0].turn_to_give() == 0
    &&& forall|i: int, j: int|
        #![trigger states[i], states[j]]
        0 <= i < calls.len() && j == i + 1 ==> {
            &&& turn_step(&states[i], calls[i], &states[j])
            &&& calls[i] matches TurnCall::Release { number, .. } ==> number
                < states[i].turn_to_give()
        }
}

/// `call` gives the turn `number`.
pub open spec fn gives(call: TurnCall, number: u64) -> bool {
    call matches TurnCall::Acquire { turn } && turn.number == number
}

/// `call` releases the turn `number`.
pub open spec fn releases(call: TurnCall, number: u64) -> bool {
    call matches TurnCall::Release { number: of, .. } && of == number
}

/// `call` tells the turn `number` that it may start.
pub open spec fn tells(call: TurnCall, number: u64) -> bool {
    match call {
        TurnCall::Acquire { turn } => turn.number == number && turn.ready,
        TurnCall::Release { signalled, .. } => signalled == Some(number),
    }
}

/// The turn `number` was given in `calls`.
pub open spec fn given(calls: Seq<TurnCall>, number: u64) -> bool {
    exists|i: int| 0 <= i < calls.len() && gives(#[trigger] calls[i], number)
}

/// The turn `number` was released in `calls`.
pub open spec fn released(calls: Seq<TurnCall>, number: u64) -> bool {
    exists|i: int| 0 <= i < calls.len() && releases(#[trigger] calls[i], number)
}

/// The turn `number` was told in `calls` that it may start.
pub open spec fn told(calls: Seq<TurnCall>, number: u64) -> bool {
    exists|i: int| 0 <= i < calls.len() && tells(#[trigger] calls[i], number)
}

/// What a run leaves: the turns that were given and not released, in order, of which the head is
/// the one that was told to start.
spec fn turns_stand(sequence: &DeliverySequence, calls: Seq<TurnCall>) -> bool {
    &&& in_order(sequence@, sequence.turn_to_give())
    &&& forall|number: u64| #[trigger] given(calls, number) <==> number < sequence.turn_to_give()
    &&& forall|number: u64| #[trigger]
        sequence@.contains(number) <==> number < sequence.turn_to_give() && !released(
            calls,
            number,
        )
    &&& forall|number: u64| #[trigger]
        sequence@.contains(number) ==> (told(calls, number) <==> sequence@[0] == number)
    &&& forall|number: u64| #[trigger] told(calls, number) ==> number < sequence.turn_to_give()
    &&& forall|number: u64| #[trigger] released(calls, number) ==> number < sequence.turn_to_give()
}

proof fn lemma_last_call(calls: Seq<TurnCall>, number: u64)
    requires
        calls.len() > 0,
    ensures
        given(calls, number) <==> given(calls.drop_last(), number) || gives(calls.last(), number),
        released(calls, number) <==> released(calls.drop_last(), number) || releases(
            calls.last(),
            number,
        ),
        told(calls, number) <==> told(calls.drop_last(), number) || tells(calls.last(), number),
{
    let earlier = calls.drop_last();
    let n = calls.len() - 1;
    assert(calls[n] == calls.last());
    if given(calls, number) && !gives(calls.last(), number) {
        let i = choose|i: int| 0 <= i < calls.len() && gives(#[trigger] calls[i], number);
        assert(gives(earlier[i], number));
    }
    if given(earlier, number) {
        let i = choose|i: int| 0 <= i < earlier.len() && gives(#[trigger] earlier[i], number);
        assert(gives(calls[i], number));
    }
    if released(calls, number) && !releases(calls.last(), number) {
        let i = choose|i: int| 0 <= i < calls.len() && releases(#[trigger] calls[i], number);
        assert(releases(earlier[i], number));
    }
    if released(earlier, number) {
        let i = choose|i: int| 0 <= i < earlier.len() && releases(#[trigger] earlier[i], number);
        assert(releases(calls[i], number));
    }
    if told(calls, number) && !tells(calls.last(), number) {
        let i = choose|i: int| 0 <= i < calls.len() && tells(#[trigger] calls[i], number);
        assert(tells(earlier[i], number));
    }
    if told(earlier, number) {
        let i = choose|i: int| 0 <= i < earlier.len() && tells(#[trigger] earlier[i], number);
        assert(tells(calls[i], number));
    }
}

proof fn lemma_acquire_keeps_turns(
    before: &DeliverySequence,
    calls: Seq<TurnCall>,
    after: &DeliverySequence,
)
    requires
        calls.len() > 0,
        turns_stand(before, calls.drop_last()),
        calls.last() is Acquire,
        turn_step(before, calls.last(), after),
    ensures
        turns_stand(after, calls),
{
    let queue = before@;
    let new = before.turn_to_give();
    assert forall|number: u64| #[trigger] given(calls, number) <==> number
        < after.turn_to_give() by {
        lemma_last_call(calls, number);
    }
    assert forall|number: u64| #[trigger] after@.contains(number) <==> number
        < after.turn_to_give() && !released(calls, number) by {
        lemma_last_call(calls, number);
        if number == new {
            assert(after@[queue.len() as int] == new);
        } else if queue.contains(number) {
            let i = choose|i: int| 0 <= i < queue.len() && queue[i] == number;
            assert(after@[i] == number);
        } else if after@.contains(number) {
            let i = choose|i: int| 0 <= i < after@.len() && after@[i] == number;
            assert(queue[i] == number);
        }
    }
    assert forall|number: u64| #[trigger] after@.contains(number) implies (told(calls, number)
        <==> after@[0] == number) by {
        lemma_last_call(calls, number);
        if number != new {
            let i = choose|i: int| 0 <= i < after@.len() && after@[i] == number;
            assert(queue[i] == number);
            assert(queue.contains(number));
        }
    }
    assert forall|number: u64| #[trigger] told(calls, number) implies number
        < after.turn_to_give() by {
        lemma_last_call(calls, number);
    }
    assert forall|number: u64| #[trigger] released(calls, number) implies number
        < after.turn_to_give() by {
        lemma_last_call(calls, number);
    }
}

proof fn lemma_release_keeps_turns(
    before: &DeliverySequence,
    calls: Seq<TurnCall>,
    after: &DeliverySequence,
)
    requires
        calls.len() > 0,
        turns_stand(before, calls.drop_last()),
        calls.last() matches TurnCall::Release { number, .. } && number < before.turn_to_give(),
        turn_step(before, calls.last(), after),
    ensures
        turns_stand(after, calls),
{
    let queue = before@;
    let gone = calls.last()->number;
    let position = queue.index_of(gone);
    if queue.contains(gone) {
        assert(queue[position] == gone);
        assert forall|i: int, j: int| 0 <= i < j < after@.len() implies #[trigger] after@[i]
            < #[trigger] after@[j] by {
            let bi = if i < position { i } else { i + 1 };
            let bj = if j < position { j } else { j + 1 };
            assert(queue[bi] < queue[bj]);
        }
        assert forall|i: int| 0 <= i < after@.len() implies #[trigger] after@[i]
            < after.turn_to_give() by {
            let bi = if i < position { i } else { i + 1 };
            assert(queue[bi] < before.turn_to_give());
        }
    }
    assert forall|number: u64| #[trigger] given(calls, number) <==> number
        < after.turn_to_give() by {
        lemma_last_call(calls, number);
    }
    assert forall|number: u64| #[trigger] after@.contains(number) <==> queue.contains(number)
        && number != gone by {
        if queue.contains(gone) {
            if queue.contains(number) && number != gone {
                let i = choose|i: int| 0 <= i < queue.len() && queue[i] == number;
                assert(after@[if i < position { i } else { i - 1 }] == number);
            }
            if after@.contains(number) {
                let i = choose|i: int| 0 <= i < after@.len() && after@[i] == number;
                let bi = if i < position { i } else { i + 1 };
                assert(queue[bi] == number);
                assert(bi < position ==> queue[bi] < queue[position]);
                assert(bi > position ==> queue[position] < queue[bi]);
            }
        }
    }
    assert forall|number: u64| #[trigger] after@.contains(number) <==> number
        < after.turn_to_give() && !released(calls, number) by {
        lemma_last_call(calls, number);
        assert(queue.contains(number) <==> number < before.turn_to_give() && !released(
            calls.drop_last(),
            number,
        ));
    }
    assert forall|number: u64| #[trigger] after@.contains(number) implies (told(calls, number)
        <==> after@[0] == number) by {
        lemma_last_call(calls, number);
        assert(queue.contains(number));
        if queue.contains(gone) {
            let i = choose|i: int| 0 <= i < after@.len() && after@[i] == number;
            if position == 0 {
                assert(after@[0] == queue[1]);
                assert(queue[0] < queue[i + 1]);
                assert(i > 0 ==> after@[0] < after@[i]);
            } else {
                assert(after@[0] == queue[0]);
                assert(queue[0] < queue[position]);
            }
        }
    }
    assert forall|number: u64| #[trigger] told(calls, number) implies number
        < after.turn_to_give() by {
        lemma_last_call(calls, number);
        if tells(calls.last(), number) {
            assert(queue[1] < before.turn_to_give());
        }
    }
    assert forall|number: u64| #[trigger] released(calls, number) implies number
        < after.turn_to_give() by {
        lemma_last_call(calls, number);
    }
}

proof fn lemma_run_keeps_turns(states: Seq<DeliverySequence>, calls: Seq<TurnCall>)
    requires
        turn_run(states, calls),
    ensures
        turns_stand(&states.last(), calls),
    decreases calls.len(),
{
    if calls.len() > 0 {
        let n = calls.len() - 1;
        assert(turn_run(states.drop_last(), calls.drop_last()));
        lemma_run_keeps_turns(states.drop_last(), calls.drop_last());
        assert(turn_step(&states[n], calls[n], &states[n + 1]));
        if calls.last() is Acquire {
            lemma_acquire_keeps_turns(&states[n], calls, &states[n + 1]);
        } else {
            lemma_release_keeps_turns(&states[n], calls, &states[n + 1]);
        }
    } else {
        assert(states.last() == states[0]);
    }
}

/// In every run, the turns that wait are those that were given and not released. A turn that
/// waits was told to start exactly if every turn before it was released, and then it is the head.
/// So a turn is told as soon as the last one before it leaves, whether that started or was
/// cancelled, and a callback that was polled once keeps nobody waiting.
pub proof fn law_turn_is_told_once_it_is_first(
    states: Seq<DeliverySequence>,
    calls: Seq<TurnCall>,
    number: u64,
)
    requires
        turn_run(states, calls),
    ensures
        states.last().wf(),
        states.last()@.contains(number) <==> given(calls, number) && !released(calls, number),
        given(calls, number) && !released(calls, number) ==> {
            &&& told(calls, number) <==> states.last()@[0] == number
            &&& told(calls, number) <==> forall|earlier: u64|
                earlier < number ==> #[trigger] released(calls, earlier)
        },
{
    lemma_run_keeps_turns(states, calls);
    let last = states.last();
    let queue = last@;
    assert(given(calls, number) <==> number < last.turn_to_give());
    if queue.contains(number) {
        let at = choose|i: int| 0 <= i < queue.len() && queue[i] == number;
        if queue[0] == number {
            assert forall|earlier: u64| earlier < number implies #[trigger] released(
                calls,
                earlier,
            ) by {
                if !released(calls, earlier) {
                    assert(queue.contains(earlier));
                    let i = choose|i: int| 0 <= i < queue.len() && queue[i] == earlier;
                    assert(i > 0 ==> queue[0] < queue[i]);
                }
            }
        } else {
            assert(at > 0);
            assert(queue[0] < queue[at]);
            assert(queue.contains(queue[0]));
            assert(!released(calls, queue[0]));
        }
    }
}

/// Callbacks of one peer start in the order of their turns: where a callback starts only in its
/// turn, every earlier turn had started or was cancelled by then.
pub proof fn law_callbacks_start_in_turn_order(
    states: Seq<DeliverySequence>,
    calls: Seq<TurnCall>,
    start: int,
    earlier: u64,
)
    requires
        turn_run(states, calls),
        0 <= start < calls.len(),
        calls[start] matches TurnCall::Release { number, started: true, .. } && told(
            calls.take(start),
            number,
        ) && !released(calls.take(start), number) && earlier < number,
    ensures
        released(calls.take(start), earlier),
{
    let before = states.take(start + 1);
    let number = calls[start]->number;
    assert(turn_run(before, calls.take(start))) by {
        assert forall|i: int, j: int|
            #![trigger before[i], before[j]]
            0 <= i < start && j == i + 1 implies {
            &&& turn_step(&before[i], calls.take(start)[i], &before[j])
            &&& calls.take(start)[i] matches TurnCall::Release { number, .. } ==> number
                < before[i].turn_to_give()
        } by {
            assert(states[i] == before[i] && states[j] == before[j]);
        }
    }
    assert(turn_step(&states[start], calls[start], &states[start + 1]));
    lemma_run_keeps_turns(before, calls.take(start));
    law_turn_is_told_once_it_is_first(before, calls.take(start), number);
}

/// Who holds an entry of each peer.
///
/// An entry exists while someone holds it, and longer where its last holder leaves it behind.
pub struct PeerHolders {
    holders: OrderedMap<Did, usize>,
}

/// One hold on a peer's entry.
#[derive(Debug)]
pub struct PeerLease {
    peer: Did,
}

impl PeerLease {
    /// The peer whose entry is held.
    pub closed spec fn of(&self) -> Did {
        self.peer
    }
}

impl PeerHolders {
    /// How many hold the entry of each peer.
    pub closed spec fn view(&self) -> Map<Did, usize> {
        self.holders@
    }

    /// The entries are in identity order.
    pub closed spec fn wf(&self) -> bool {
        self.holders.wf()
    }

    /// No entry.
    pub fn new() -> (holders: Self)
        ensures
            holders.wf(),
            holders@ == Map::<Did, usize>::empty(),
    {
        PeerHolders { holders: OrderedMap::new() }
    }

    /// How many entries there are.
    pub fn len(&self) -> (len: usize)
        requires
            self.wf(),
        ensures
            len == self@.dom().len(),
    {
        self.holders.len()
    }

    /// Hold the entry of `peer`, making it where there is none.
    pub fn lease(&mut self, peer: Did) -> (lease: PeerLease)
        requires
            old(self).wf(),
            old(self)@.contains_key(peer) ==> old(self)@[peer] < usize::MAX,
        ensures
            final(self).wf(),
            lease.of() == peer,
            final(self)@ == old(self)@.insert(
                peer,
                if old(self)@.contains_key(peer) {
                    (old(self)@[peer] + 1) as usize
                } else {
                    1
                },
            ),
    {
        let held: usize = match self.holders.get(peer) {
            Some(count) => *count + 1,
            None => 1,
        };
        self.holders.insert(peer, held);
        PeerLease { peer }
    }

    /// Let go of an entry; the last holder removes it unless `keep` says to leave it behind.
    pub fn release(&mut self, lease: PeerLease, keep: bool)
        requires
            old(self).wf(),
            old(self)@.contains_key(lease.of()),
            old(self)@[lease.of()] > 0,
        ensures
            final(self).wf(),
            final(self)@ == (if old(self)@[lease.of()] == 1 && !keep {
                old(self)@.remove(lease.of())
            } else {
                old(self)@.insert(lease.of(), (old(self)@[lease.of()] - 1) as usize)
            }),
    {
        let held: usize = match self.holders.get(lease.peer) {
            Some(count) => *count,
            None => 1,
        };
        if held == 1 && !keep {
            let _ = self.holders.remove(lease.peer);
        } else {
            self.holders.insert(lease.peer, held - 1);
        }
    }
}

/// A turn is numbered after every earlier one, stands last, and may start at once exactly if no
/// other stands.
pub proof fn law_turn_stands_behind_the_others(
    sequence: &mut DeliverySequence,
    turn: DeliveryTurn,
    i: int,
)
    requires
        old(sequence).wf(),
        call_ensures(DeliverySequence::acquire, (sequence,), turn),
    ensures
        final(sequence)@.len() == old(sequence)@.len() + 1,
        final(sequence)@[old(sequence)@.len() as int] == turn.number,
        0 <= i < old(sequence)@.len() ==> final(sequence)@[i] == old(sequence)@[i]
            && old(sequence)@[i] < turn.number,
        turn.ready <==> old(sequence)@.len() == 0,
        final(sequence).turn_to_give() > turn.number,
{
}

/// A finished turn stands no longer. The turn behind it is signalled exactly if it was the first;
/// finishing any other turn, or one that no longer stands, signals nobody.
pub proof fn law_finished_turn_signals_the_next(
    sequence: &mut DeliverySequence,
    number: u64,
    signalled: Option<u64>,
    other: u64,
)
    requires
        old(sequence).wf(),
        call_ensures(DeliverySequence::finish, (sequence, number), signalled),
        other != number,
    ensures
        !final(sequence)@.contains(number),
        final(sequence)@.contains(other) == old(sequence)@.contains(other),
        signalled is Some <==> old(sequence)@.len() >= 2 && old(sequence)@[0] == number,
        signalled matches Some(next) ==> next == old(sequence)@[1] && final(sequence)@[0] == next,
        final(sequence).turn_to_give() == old(sequence).turn_to_give(),
{
    let before = old(sequence)@;
    let after = final(sequence)@;
    if before.contains(number) {
        let at = before.index_of(number);
        assert(before[at] == number);
        if after.contains(number) {
            let k = choose|k: int| 0 <= k < after.len() && after[k] == number;
            assert(after[k] == before[if k < at {
                k
            } else {
                k + 1
            }]);
        }
        if after.contains(other) {
            let k = choose|k: int| 0 <= k < after.len() && after[k] == other;
            assert(after[k] == before[if k < at {
                k
            } else {
                k + 1
            }]);
        }
        if before.contains(other) {
            let k = choose|k: int| 0 <= k < before.len() && before[k] == other;
            assert(after[if k < at {
                k
            } else {
                k - 1
            }] == other);
        }
        if before[0] == number && at != 0 {
            assert(before[0] < before[at]);
        }
    }
}

/// A lease holds its peer once more; its release holds the peer once less, and a peer that nobody
/// holds is forgotten unless it is to be kept. Nobody else is touched.
pub proof fn law_lease_holds_its_peer(
    leased: &mut PeerHolders,
    peer: Did,
    lease: PeerLease,
    freed: &mut PeerHolders,
    returned: PeerLease,
    keep: bool,
    done: (),
    other: Did,
)
    requires
        old(leased).wf(),
        old(leased)@.contains_key(peer) ==> old(leased)@[peer] < usize::MAX,
        call_ensures(PeerHolders::lease, (leased, peer), lease),
        old(freed).wf(),
        old(freed)@.contains_key(returned.of()),
        old(freed)@[returned.of()] > 0,
        call_ensures(PeerHolders::release, (freed, returned, keep), done),
        other != peer,
        other != returned.of(),
    ensures
        lease.of() == peer,
        final(leased)@.contains_key(peer),
        !old(leased)@.contains_key(peer) ==> final(leased)@[peer] == 1,
        old(leased)@.contains_key(peer) ==> final(leased)@[peer] == old(leased)@[peer] + 1,
        final(leased)@.contains_key(other) == old(leased)@.contains_key(other),
        final(leased)@[other] == old(leased)@[other],
        final(freed)@.contains_key(returned.of()) <==> old(freed)@[returned.of()] > 1 || keep,
        final(freed)@.contains_key(returned.of()) ==> final(freed)@[returned.of()]
            == old(freed)@[returned.of()] - 1,
        final(freed)@.contains_key(other) == old(freed)@.contains_key(other),
        final(freed)@[other] == old(freed)@[other],
{
}

} // verus!

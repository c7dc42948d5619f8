//! The bus that carries events from the network side to the display.
//!
//! The bus is a bounded queue. Sending never waits. On a full bus an event
//! gives way: the oldest one that a later event about the same value has
//! made stale, or, if there is none, the oldest one. Events leave in the
//! order in which they were sent. A bus with room for one event about each
//! value never loses anything that the display would still have shown.

use crate::display::{same_subject, spec_same_subject, Display};
use crate::state::StateEvent;
use vstd::prelude::*;

verus! {

/// The number of events that the bus of the device has room for.
pub const BUS_CAPACITY: usize = 32;

/// The number of values that events can be about, which is the least room
/// with which a bus loses nothing that matters.
pub const SUBJECTS: usize = 5;

/// A bounded queue of events.
pub struct EventBus {
    pending: Vec<StateEvent>,
    capacity: usize,
}

/// A later event in `events` is about the same value as the one at `i`.
pub open spec fn spec_is_stale(events: Seq<StateEvent>, i: int) -> bool {
    exists|j: int| i < j < events.len() && spec_same_subject(events[i], #[trigger] events[j])
}

/// The first position from `from` on at which `events` holds a stale event,
/// or the length of `events` if there is none.
pub open spec fn spec_first_stale(events: Seq<StateEvent>, from: int) -> int
    decreases events.len() - from,
{
    if from >= events.len() {
        events.len() as int
    } else if spec_is_stale(events, from) {
        from
    } else {
        spec_first_stale(events, from + 1)
    }
}

/// The position of the event that gives way when `event` is sent to a full
/// bus that holds `pending`.
pub open spec fn spec_victim(pending: Seq<StateEvent>, event: StateEvent) -> int {
    let first = spec_first_stale(pending.push(event), 0);
    if first < pending.len() {
        first
    } else {
        0
    }
}

/// What a bus with room for `capacity` events holds after `event` was sent
/// to one that held `pending`.
pub open spec fn spec_send(pending: Seq<StateEvent>, capacity: usize, event: StateEvent) -> Seq<
    StateEvent,
> {
    if pending.len() < capacity {
        pending.push(event)
    } else {
        pending.remove(spec_victim(pending, event)).push(event)
    }
}

/// What a bus holds after `events` were sent to it in order.
pub open spec fn spec_send_all(
    pending: Seq<StateEvent>,
    capacity: usize,
    events: Seq<StateEvent>,
) -> Seq<StateEvent>
    decreases events.len(),
{
    if events.len() == 0 {
        pending
    } else {
        spec_send(spec_send_all(pending, capacity, events.drop_last()), capacity, events.last())
    }
}

impl View for EventBus {
    type V = Seq<StateEvent>;

    closed spec fn view(&self) -> Seq<StateEvent> {
        self.pending@
    }
}

impl EventBus {
    /// The most events that the bus holds at a time.
    pub closed spec fn spec_capacity(&self) -> usize {
        self.capacity
    }

    /// The bus can hold at least one event and holds no more than it can.
    pub closed spec fn wf(&self) -> bool {
        0 < self.capacity && self.pending@.len() <= self.capacity
    }

    /// An empty bus for at most `capacity` events; none if `capacity` is zero.
    pub fn new(capacity: usize) -> (r: Option<EventBus>)
        ensures
            r is Some <==> capacity > 0,
            r matches Some(bus) ==> bus.wf() && bus@ == Seq::<StateEvent>::empty()
                && bus.spec_capacity() == capacity,
    {
        if capacity == 0 {
            None
        } else {
            Some(EventBus { pending: Vec::new(), capacity })
        }
    }

    /// The most events that the bus holds at a time.
    pub fn capacity(&self) -> (r: usize)
        ensures
            r == self.spec_capacity(),
    {
        self.capacity
    }

    /// The number of events that wait on the bus.
    pub fn len(&self) -> (r: usize)
        requires
            self.wf(),
        ensures
            r == self@.len(),
            r <= self.spec_capacity(),
    {
        self.pending.len()
    }

    /// Whether a later event on the bus, or `event`, is about the same value
    /// as the event at `i`.
    fn is_stale(&self, event: StateEvent, i: usize) -> (r: bool)
        requires
            i < self@.len(),
        ensures
            r == spec_is_stale(self@.push(event), i as int),
    {
        let ghost all = self.pending@.push(event);
        let mut j: usize = i + 1;
        while j < self.pending.len()
            invariant
                i < j <= self.pending.len(),
                all == self.pending@.push(event),
                forall|k: int| i < k < j ==> !spec_same_subject(all[i as int], #[trigger] all[k]),
            decreases self.pending.len() - j,
        {
            if same_subject(self.pending[i], self.pending[j]) {
                assert(spec_same_subject(all[i as int], all[j as int]));
                return true;
            }
            j += 1;
        }
        let last = same_subject(self.pending[i], event);
        assert(all[self.pending.len() as int] == event);
        last
    }

    /// The position of the event that gives way to `event` on a full bus.
    fn victim(&self, event: StateEvent) -> (r: usize)
        requires
            self@.len() > 0,
        ensures
            r == spec_victim(self@, event),
            r < self@.len(),
    {
        let ghost all = self.pending@.push(event);
        let mut i: usize = 0;
        while i < self.pending.len()
            invariant
                i <= self.pending.len(),
                all == self.pending@.push(event),
                spec_first_stale(all, 0) == spec_first_stale(all, i as int),
            decreases self.pending.len() - i,
        {
            if self.is_stale(event, i) {
                return i;
            }
            i += 1;
        }
        proof {
            let n = self.pending.len() as int;
            assert(!spec_is_stale(all, n));
            assert(spec_first_stale(all, n + 1) == n + 1);
        }
        0
    }

    /// Puts an event on the bus. If the bus is full an event gives way and
    /// is returned: the oldest stale one, or else the oldest.
    pub fn send(&mut self, event: StateEvent) -> (dropped: Option<StateEvent>)
        requires
            old(self).wf(),
        ensures
            final(self).wf(),
            final(self).spec_capacity() == old(self).spec_capacity(),
            final(self)@ == spec_send(old(self)@, old(self).spec_capacity(), event),
            dropped is Some <==> old(self)@.len() == old(self).spec_capacity(),
            dropped is Some ==> dropped.unwrap() == old(self)@[spec_victim(old(self)@, event)],
    {
        let dropped = if self.pending.len() >= self.capacity {
            let at = self.victim(event);
            Some(self.pending.remove(at))
        } else {
            None
        };
        self.pending.push(event);
        assert(self.pending@ =~= spec_send(old(self)@, old(self).spec_capacity(), event));
        dropped
    }

    /// Takes every waiting event off the bus, oldest first.
    pub fn drain(&mut self) -> (r: Vec<StateEvent>)
        requires
            old(self).wf(),
        ensures
            final(self).wf(),
            final(self).spec_capacity() == old(self).spec_capacity(),
            final(self)@ == Seq::<StateEvent>::empty(),
            r@ == old(self)@,
    {
        let mut out: Vec<StateEvent> = Vec::new();
        std::mem::swap(&mut self.pending, &mut out);
        out
    }
}

/// The value that an event is about, as a number below the number of
/// subjects.
pub open spec fn spec_subject(event: StateEvent) -> int {
    match event {
        StateEvent::WifiConnected(_) => 0,
        StateEvent::MqttConnected(_) => 1,
        StateEvent::TimeSynced(_) => 2,
        StateEvent::TramStateChanged(_) => 3,
        StateEvent::MetroStateChanged(_) => 4,
    }
}

proof fn lemma_subjects(a: StateEvent, b: StateEvent)
    ensures
        0 <= spec_subject(a) < SUBJECTS,
        spec_same_subject(a, b) <==> spec_subject(a) == spec_subject(b),
{
}

proof fn lemma_update_algebra(display: Display, a: StateEvent, b: StateEvent)
    ensures
        spec_same_subject(a, b) ==> display.spec_update(a).spec_update(b) == display.spec_update(
            b,
        ),
        !spec_same_subject(a, b) ==> display.spec_update(a).spec_update(b) == display.spec_update(
            b,
        ).spec_update(a),
{
}

proof fn lemma_overwritten_in_fold(start: Display, events: Seq<StateEvent>, i: int, by: StateEvent)
    requires
        0 <= i < events.len(),
        spec_same_subject(events[i], by),
    ensures
        start.spec_fold(events).spec_update(by) == start.spec_fold(events.remove(i)).spec_update(
            by,
        ),
    decreases events.len(),
{
    let front = events.drop_last();
    let last = events.last();
    if i == events.len() - 1 {
        assert(events.remove(i) =~= front);
        lemma_update_algebra(start.spec_fold(front), last, by);
    } else {
        assert(events.remove(i) =~= front.remove(i).push(last));
        assert(events.remove(i).drop_last() =~= front.remove(i));
        assert(front[i] == events[i]);
        lemma_overwritten_in_fold(start, front, i, by);
        lemma_update_algebra(start.spec_fold(front), last, by);
        lemma_update_algebra(start.spec_fold(front.remove(i)), last, by);
        lemma_subjects(last, by);
    }
}

proof fn lemma_stale_is_redundant(start: Display, events: Seq<StateEvent>, i: int)
    requires
        0 <= i < events.len(),
        spec_is_stale(events, i),
    ensures
        start.spec_fold(events.remove(i)) == start.spec_fold(events),
    decreases events.len(),
{
    let j = choose|j: int| i < j < events.len() && spec_same_subject(events[i], #[trigger] events[j]);
    let front = events.drop_last();
    let last = events.last();
    assert(events.remove(i) =~= front.remove(i).push(last));
    assert(events.remove(i).drop_last() =~= front.remove(i));
    assert(front[i] == events[i]);
    if j == events.len() - 1 {
        lemma_overwritten_in_fold(start, front, i, last);
    } else {
        assert(front[j] == events[j]);
        assert(spec_is_stale(front, i));
        lemma_stale_is_redundant(start, front, i);
    }
}

proof fn lemma_first_stale_finds(events: Seq<StateEvent>, from: int, k: int)
    requires
        0 <= from <= k < events.len(),
        spec_is_stale(events, k),
    ensures
        from <= spec_first_stale(events, from) <= k,
        spec_is_stale(events, spec_first_stale(events, from)),
    decreases k - from,
{
    if !spec_is_stale(events, from) {
        lemma_first_stale_finds(events, from + 1, k);
    }
}

proof fn lemma_pair_is_stale(events: Seq<StateEvent>, i: int, j: int)
    requires
        0 <= i < j < events.len(),
        spec_subject(events[i]) == spec_subject(events[j]),
    ensures
        spec_is_stale(events, i),
        i < events.len() - 1,
{
    lemma_subjects(events[i], events[j]);
}

proof fn lemma_crowd_has_stale(events: Seq<StateEvent>) -> (i: int)
    requires
        events.len() > SUBJECTS,
    ensures
        0 <= i < events.len() - 1,
        spec_is_stale(events, i),
{
    let s0 = spec_subject(events[0]);
    let s1 = spec_subject(events[1]);
    let s2 = spec_subject(events[2]);
    let s3 = spec_subject(events[3]);
    let s4 = spec_subject(events[4]);
    let s5 = spec_subject(events[5]);
    lemma_subjects(events[0], events[1]);
    lemma_subjects(events[2], events[3]);
    lemma_subjects(events[4], events[5]);
    if s0 == s1 {
        lemma_pair_is_stale(events, 0, 1);
        0
    } else if s0 == s2 {
        lemma_pair_is_stale(events, 0, 2);
        0
    } else if s0 == s3 {
        lemma_pair_is_stale(events, 0, 3);
        0
    } else if s0 == s4 {
        lemma_pair_is_stale(events, 0, 4);
        0
    } else if s0 == s5 {
        lemma_pair_is_stale(events, 0, 5);
        0
    } else if s1 == s2 {
        lemma_pair_is_stale(events, 1, 2);
        1
    } else if s1 == s3 {
        lemma_pair_is_stale(events, 1, 3);
        1
    } else if s1 == s4 {
        lemma_pair_is_stale(events, 1, 4);
        1
    } else if s1 == s5 {
        lemma_pair_is_stale(events, 1, 5);
        1
    } else if s2 == s3 {
        lemma_pair_is_stale(events, 2, 3);
        2
    } else if s2 == s4 {
        lemma_pair_is_stale(events, 2, 4);
        2
    } else if s2 == s5 {
        lemma_pair_is_stale(events, 2, 5);
        2
    } else if s3 == s4 {
        lemma_pair_is_stale(events, 3, 4);
        3
    } else if s3 == s5 {
        lemma_pair_is_stale(events, 3, 5);
        3
    } else {
        assert(s4 == s5);
        lemma_pair_is_stale(events, 4, 5);
        4
    }
}

/// Sending never makes the bus hold more than it has room for, and on a bus
/// with room for one event about each value it loses nothing that matters:
/// a display that takes in what the bus holds after the send comes to the
/// same snapshot as one that takes in what it held before and then the new
/// event.
pub proof fn law_send_loses_nothing(
    start: Display,
    pending: Seq<StateEvent>,
    capacity: usize,
    event: StateEvent,
)
    requires
        SUBJECTS <= capacity,
        pending.len() <= capacity,
    ensures
        spec_send(pending, capacity, event).len() <= capacity,
        start.spec_fold(spec_send(pending, capacity, event)) == start.spec_fold(
            pending,
        ).spec_update(event),
{
    let all = pending.push(event);
    assert(all.drop_last() =~= pending);
    if pending.len() == capacity {
        let k = lemma_crowd_has_stale(all);
        lemma_first_stale_finds(all, 0, k);
        let victim = spec_victim(pending, event);
        assert(victim == spec_first_stale(all, 0));
        assert(all.remove(victim) =~= pending.remove(victim).push(event));
        lemma_stale_is_redundant(start, all, victim);
    }
}

proof fn lemma_first_stale_bounds(events: Seq<StateEvent>, from: int)
    requires
        0 <= from,
    ensures
        from <= spec_first_stale(events, from) || spec_first_stale(events, from) == events.len(),
        0 <= spec_first_stale(events, from),
    decreases events.len() - from,
{
    if from < events.len() && !spec_is_stale(events, from) {
        lemma_first_stale_bounds(events, from + 1);
    }
}

proof fn lemma_send_all_fits(capacity: usize, events: Seq<StateEvent>)
    requires
        0 < capacity,
    ensures
        spec_send_all(Seq::empty(), capacity, events).len() <= capacity,
        events.len() <= capacity ==> spec_send_all(Seq::empty(), capacity, events) == events,
    decreases events.len(),
{
    if events.len() > 0 {
        lemma_send_all_fits(capacity, events.drop_last());
        let held = spec_send_all(Seq::empty(), capacity, events.drop_last());
        lemma_first_stale_bounds(held.push(events.last()), 0);
        if events.len() <= capacity {
            assert(events.drop_last().push(events.last()) =~= events);
        }
    }
}

/// A slow display misses nothing that matters: whatever was sent to an
/// empty bus with room for one event about each value, a display that
/// takes in what the bus holds comes to the same snapshot as one that had
/// taken in every event that was sent.
pub proof fn law_bus_loses_nothing(start: Display, capacity: usize, events: Seq<StateEvent>)
    requires
        SUBJECTS <= capacity,
    ensures
        start.spec_fold(spec_send_all(Seq::empty(), capacity, events)) == start.spec_fold(events),
    decreases events.len(),
{
    if events.len() > 0 {
        let before = events.drop_last();
        law_bus_loses_nothing(start, capacity, before);
        lemma_send_all_fits(capacity, before);
        law_send_loses_nothing(
            start,
            spec_send_all(Seq::empty(), capacity, before),
            capacity,
            events.last(),
        );
    }
}

/// While there is room the bus is a plain queue: what was sent to an empty
/// bus, and is no more than it has room for, is what it holds, in the order
/// in which it was sent.
pub proof fn law_bus_keeps_order(capacity: usize, events: Seq<StateEvent>)
    requires
        0 < capacity,
        events.len() <= capacity,
    ensures
        spec_send_all(Seq::empty(), capacity, events) == events,
{
    lemma_send_all_fits(capacity, events);
}

/// `part` can be had from `whole` by leaving events out: what it holds, it
/// holds in the order of `whole`.
pub open spec fn spec_in_order_of(part: Seq<StateEvent>, whole: Seq<StateEvent>) -> bool
    decreases whole.len(),
{
    if part.len() == 0 {
        true
    } else if whole.len() == 0 {
        false
    } else {
        ||| (part.last() == whole.last() && spec_in_order_of(part.drop_last(), whole.drop_last()))
        ||| spec_in_order_of(part, whole.drop_last())
    }
}

proof fn lemma_removal_keeps_order(part: Seq<StateEvent>, whole: Seq<StateEvent>, i: int)
    requires
        spec_in_order_of(part, whole),
        0 <= i < part.len(),
    ensures
        spec_in_order_of(part.remove(i), whole),
    decreases whole.len(),
{
    if part.len() > 0 && whole.len() > 0 {
        let rest = part.remove(i);
        if part.last() == whole.last() && spec_in_order_of(part.drop_last(), whole.drop_last()) {
            if i == part.len() - 1 {
                assert(rest =~= part.drop_last());
                lemma_order_in_longer(rest, whole.drop_last(), whole.last());
            } else {
                lemma_removal_keeps_order(part.drop_last(), whole.drop_last(), i);
                assert(rest.drop_last() =~= part.drop_last().remove(i));
                assert(rest.last() == part.last());
            }
        } else {
            lemma_removal_keeps_order(part, whole.drop_last(), i);
        }
    }
}

proof fn lemma_order_in_longer(part: Seq<StateEvent>, whole: Seq<StateEvent>, more: StateEvent)
    requires
        spec_in_order_of(part, whole),
    ensures
        spec_in_order_of(part, whole.push(more)),
        spec_in_order_of(part.push(more), whole.push(more)),
{
    assert(whole.push(more).drop_last() =~= whole);
    assert(part.push(more).drop_last() =~= part);
}

/// Events leave the bus in the order in which they were sent: whatever was
/// sent to an empty bus, what the bus holds can be had from it by leaving
/// events out, never by moving one.
pub proof fn law_bus_keeps_sent_order(capacity: usize, events: Seq<StateEvent>)
    requires
        0 < capacity,
    ensures
        spec_in_order_of(spec_send_all(Seq::empty(), capacity, events), events),
    decreases events.len(),
{
    if events.len() > 0 {
        let before = events.drop_last();
        let held = spec_send_all(Seq::empty(), capacity, before);
        law_bus_keeps_sent_order(capacity, before);
        lemma_send_all_fits(capacity, before);
        lemma_first_stale_bounds(held.push(events.last()), 0);
        if held.len() < capacity {
            lemma_order_in_longer(held, before, events.last());
        } else {
            let victim = spec_victim(held, events.last());
            lemma_removal_keeps_order(held, before, victim);
            lemma_order_in_longer(held.remove(victim), before, events.last());
        }
        assert(before.push(events.last()) =~= events);
    }
}

} // verus!

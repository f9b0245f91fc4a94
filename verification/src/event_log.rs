//! A fixed-capacity log of the most recent events of one entity.
//!
//! Events are kept in the order in which they were pushed. When the log is
//! full, a push evicts the oldest event.

use vstd::prelude::*;

verus! {

/// How a measured span ended.
#[derive(Clone, Copy, Debug, PartialEq, Eq, Structural)]
pub enum Outcome {
    /// The span ran to its normal end.
    Success,
    /// The span ended by handing an error on.
    Failure,
    /// The span was left before its end.
    EarlyReturn,
}

/// One observation of a measured span.
#[derive(Clone, Copy, Debug, PartialEq, Eq)]
pub struct Event {
    /// When the span ended, in nanoseconds since the registry's epoch.
    pub timestamp_ns: u64,
    /// How long the span took, in nanoseconds.
    pub duration_ns: u64,
    /// Bytes allocated minus bytes freed during the span, where tracked.
    pub alloc_delta: Option<i64>,
    pub outcome: Outcome,
}

/// The last `n` items of a sequence, or all of it where it is shorter.
pub open spec fn last_n<T>(s: Seq<T>, n: nat) -> Seq<T> {
    if s.len() > n {
        s.subrange(s.len() - n, s.len() as int)
    } else {
        s
    }
}

/// The content of a log of capacity `capacity` after one more push.
pub open spec fn pushed(s: Seq<Event>, capacity: nat, event: Event) -> Seq<Event> {
    last_n(s.push(event), capacity)
}

/// The content of a log after each of `events` is pushed, in order.
pub open spec fn pushed_all(s: Seq<Event>, capacity: nat, events: Seq<Event>) -> Seq<Event>
    decreases events.len(),
{
    if events.len() == 0 {
        s
    } else {
        pushed(pushed_all(s, capacity, events.drop_last()), capacity, events.last())
    }
}

/// The ring that backs an event log.
pub struct BoundedEventLog {
    slots: Vec<Event>,
    /// Index of the oldest event once the ring is full.
    head: usize,
    capacity: usize,
}

impl View for BoundedEventLog {
    type V = Seq<Event>;

    /// The retained events, oldest first.
    closed spec fn view(&self) -> Seq<Event> {
        self.slots@.subrange(self.head as int, self.slots@.len() as int) + self.slots@.subrange(
            0,
            self.head as int,
        )
    }
}

impl BoundedEventLog {
    /// The ring holds no more events than its capacity, and its oldest
    /// event is where `head` says.
    pub closed spec fn wf(&self) -> bool {
        &&& self.slots@.len() <= self.capacity
        &&& self.head <= self.slots@.len()
        &&& self.slots@.len() < self.capacity ==> self.head == 0
        &&& self.slots@.len() == self.capacity && self.capacity > 0 ==> self.head < self.capacity
    }

    /// The capacity the log was made with.
    pub closed spec fn spec_capacity(&self) -> nat {
        self.capacity as nat
    }

    /// A log holds no more events than its capacity.
    pub proof fn lemma_bounded(&self)
        requires
            self.wf(),
        ensures
            self@.len() <= self.spec_capacity(),
    {
    }

    /// An empty log that retains up to `capacity` events.
    pub fn new(capacity: usize) -> (r: BoundedEventLog)
        ensures
            r.wf(),
            r@ == Seq::<Event>::empty(),
            r.spec_capacity() == capacity,
    {
        BoundedEventLog { slots: Vec::new(), head: 0, capacity }
    }

    /// Number of events that the log retains at most.
    pub fn capacity(&self) -> (r: usize)
        ensures
            r == self.spec_capacity(),
    {
        self.capacity
    }

    /// Number of retained events.
    pub fn len(&self) -> (r: usize)
        requires
            self.wf(),
        ensures
            r == self@.len(),
            r <= self.spec_capacity(),
    {
        self.slots.len()
    }

    /// Appends an event, evicting the oldest one where the log is full.
    pub fn push(&mut self, event: Event)
        requires
            old(self).wf(),
        ensures
            final(self).wf(),
            final(self).spec_capacity() == old(self).spec_capacity(),
            final(self)@ == pushed(old(self)@, old(self).spec_capacity(), event),
    {
        if self.capacity == 0 {
            assert(self@ =~= pushed(self@, 0, event));
            return ;
        }
        let ghost before = self@;
        if self.slots.len() < self.capacity {
            self.slots.push(event);
            assert(self@ =~= pushed(before, self.capacity as nat, event));
        } else {
            self.slots.set(self.head, event);
            self.head = if self.head + 1 == self.capacity {
                0
            } else {
                self.head + 1
            };
            assert(self@ =~= pushed(before, self.capacity as nat, event));
        }
    }

    /// The retained events, oldest first.
    pub fn snapshot(&self) -> (r: Vec<Event>)
        requires
            self.wf(),
        ensures
            r@ == self@,
    {
        let mut out: Vec<Event> = Vec::new();
        let n = self.slots.len();
        let mut i: usize = self.head;
        while i < n
            invariant
                self.head <= i <= n,
                n == self.slots@.len(),
                out@ == self.slots@.subrange(self.head as int, i as int),
            decreases n - i,
        {
            out.push(self.slots[i]);
            assert(self.slots@.subrange(self.head as int, i as int + 1) =~= self.slots@.subrange(
                self.head as int,
                i as int,
            ).push(self.slots@[i as int]));
            i = i + 1;
        }
        let mut j: usize = 0;
        while j < self.head
            invariant
                0 <= j <= self.head <= n,
                n == self.slots@.len(),
                out@ == self.slots@.subrange(self.head as int, n as int) + self.slots@.subrange(
                    0,
                    j as int,
                ),
            decreases self.head - j,
        {
            out.push(self.slots[j]);
            assert(self.slots@.subrange(0, j as int + 1) =~= self.slots@.subrange(
                0,
                j as int,
            ).push(self.slots@[j as int]));
            assert(out@ =~= self.slots@.subrange(self.head as int, n as int)
                + self.slots@.subrange(0, j as int + 1));
            j = j + 1;
        }
        out
    }
}

/// Pushing events into an empty log leaves the most recent ones, as many as
/// the capacity allows, in the order in which they were pushed. After more
/// pushes than the capacity the log holds exactly `capacity` events.
pub proof fn law_log_keeps_most_recent(capacity: nat, events: Seq<Event>)
    ensures
        pushed_all(Seq::<Event>::empty(), capacity, events) == last_n(events, capacity),
        events.len() > capacity ==> pushed_all(Seq::<Event>::empty(), capacity, events).len()
            == capacity,
        forall|i: int|
            0 <= i < capacity && events.len() > capacity ==> #[trigger] pushed_all(
                Seq::<Event>::empty(),
                capacity,
                events,
            )[i] == events[events.len() - capacity + i],
    decreases events.len(),
{
    if events.len() > 0 {
        let front = events.drop_last();
        law_log_keeps_most_recent(capacity, front);
        assert(last_n(last_n(front, capacity).push(events.last()), capacity) =~= last_n(
            events,
            capacity,
        ));
    } else {
        assert(last_n(events, capacity) =~= Seq::<Event>::empty());
    }
}

/// A push never leaves more events than the capacity.
pub proof fn law_log_bounded(s: Seq<Event>, capacity: nat, event: Event)
    ensures
        pushed(s, capacity, event).len() <= capacity,
{
}

} // verus!

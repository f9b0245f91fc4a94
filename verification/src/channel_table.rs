//! The table of wrapped channels and streams.
//!
//! Wrapping an endpoint pair enters it here under a number of its own and a
//! label. The wrapper reports every send and receive under that number. A
//! pair whose two halves are both gone stays in the table, frozen, so that
//! its last counters can still be read.
//!
//! Like the registry, the table collects only while a guard is held. With
//! none held, a pair that is wrapped is not entered and reports change
//! nothing; when the last guard is given back the table is cleared.

use vstd::prelude::*;
use vstd::string::StringExecFns;
use crate::channel::{
    after_recv,
    after_send,
    closed,
    frozen,
    half_gone,
    occupancy,
    sent_count,
    ChannelState,
    RecvOutcome,
    SendOutcome,
};
use crate::event_log::{pushed, BoundedEventLog, Event};
use crate::text::{decimal, push_decimal};

verus! {

/// What can be said when an endpoint pair is wrapped.
pub struct WrapConfig {
    /// The label to show; one is made up where there is none.
    pub label: Option<String>,
    /// The capacity to report; the pair counts as unbounded where there is
    /// none.
    pub capacity: Option<u64>,
    /// Whether the pair's messages are logged.
    pub log: bool,
}

/// A wrapped endpoint pair.
pub struct Wrapped {
    id: u64,
    label: String,
    logging: bool,
    state: ChannelState,
    log: BoundedEventLog,
}

/// The mathematical content of a `Wrapped`.
pub struct WrappedView {
    pub id: u64,
    pub label: Seq<char>,
    pub logging: bool,
    pub state: ChannelState,
    pub log: Seq<Event>,
}

impl View for Wrapped {
    type V = WrappedView;

    closed spec fn view(&self) -> WrappedView {
        WrappedView {
            id: self.id,
            label: self.label@,
            logging: self.logging,
            state: self.state,
            log: self.log@,
        }
    }
}

/// The mathematical content of a table.
pub struct TableView {
    /// Number of guards held.
    pub guards: nat,
    /// The number that the next pair gets.
    pub next_id: u64,
    /// The pairs, in the order in which they were wrapped.
    pub items: Seq<WrappedView>,
}

/// A point-in-time view of a wrapped endpoint pair.
pub struct ChannelSnapshot {
    pub id: u64,
    pub label: String,
    pub capacity: Option<u64>,
    pub occupancy: u64,
    pub sent_count: u64,
    pub received_count: u64,
    pub closed: bool,
}

/// The mathematical content of a `ChannelSnapshot`.
pub struct ChannelSnapshotView {
    pub id: u64,
    pub label: Seq<char>,
    pub capacity: Option<u64>,
    pub occupancy: u64,
    pub sent_count: u64,
    pub received_count: u64,
    pub closed: bool,
}

impl View for ChannelSnapshot {
    type V = ChannelSnapshotView;

    open spec fn view(&self) -> ChannelSnapshotView {
        ChannelSnapshotView {
            id: self.id,
            label: self.label@,
            capacity: self.capacity,
            occupancy: self.occupancy,
            sent_count: self.sent_count,
            received_count: self.received_count,
            closed: self.closed,
        }
    }
}

/// The label made up for a pair that was given none: it holds the pair's
/// number, so that pairs wrapped one after another do not share it.
pub open spec fn synthetic_label(id: u64) -> Seq<char> {
    "channel-"@ + decimal(id as nat)
}

/// The entry of a pair that was just wrapped.
pub open spec fn wrapped_new(
    id: u64,
    label: Option<Seq<char>>,
    capacity: Option<u64>,
    log: bool,
) -> WrappedView {
    WrappedView {
        id,
        label: match label {
            Some(l) => l,
            None => synthetic_label(id),
        },
        logging: log,
        state: ChannelState {
            capacity,
            sends: 0,
            receives: 0,
            sender_gone: false,
            receiver_gone: false,
            disconnected: false,
        },
        log: Seq::empty(),
    }
}

/// The snapshot of an entry.
pub open spec fn snapshot_of(w: WrappedView) -> ChannelSnapshotView {
    ChannelSnapshotView {
        id: w.id,
        label: w.label,
        capacity: w.state.capacity,
        occupancy: occupancy(w.state),
        sent_count: sent_count(w.state),
        received_count: w.state.receives,
        closed: closed(w.state),
    }
}

/// Index of the pair of the given number, or -1.
pub open spec fn index_of(items: Seq<WrappedView>, id: u64) -> int
    decreases items.len(),
{
    if items.len() == 0 {
        -1
    } else if items.last().id == id {
        items.len() - 1
    } else {
        index_of(items.drop_last(), id)
    }
}

/// The numbers rise along the table and stay below the next one to be given.
pub open spec fn ids_rise(v: TableView) -> bool {
    &&& forall|i: int, j: int|
        0 <= i < j < v.items.len() ==> (#[trigger] v.items[i]).id < (#[trigger] v.items[j]).id
    &&& forall|i: int| 0 <= i < v.items.len() ==> (#[trigger] v.items[i]).id < v.next_id
}

/// An entry after the outcome of a send is reported: the counters follow the
/// outcome, and an accepted item is logged where logging is on and the pair
/// is not frozen.
pub open spec fn wrapped_after_send(
    w: WrappedView,
    outcome: SendOutcome,
    event: Event,
    log_capacity: nat,
) -> WrappedView {
    WrappedView {
        state: after_send(w.state, outcome),
        log: if w.logging && !frozen(w.state) && outcome == SendOutcome::Sent {
            pushed(w.log, log_capacity, event)
        } else {
            w.log
        },
        ..w
    }
}

/// An entry after the outcome of a receive is reported.
pub open spec fn wrapped_after_recv(
    w: WrappedView,
    outcome: RecvOutcome,
    event: Event,
    log_capacity: nat,
) -> WrappedView {
    WrappedView {
        state: after_recv(w.state, outcome),
        log: if w.logging && !frozen(w.state) && outcome == RecvOutcome::Received {
            pushed(w.log, log_capacity, event)
        } else {
            w.log
        },
        ..w
    }
}

/// The items with the one of the given number replaced by `new`; the items
/// as they are where none has that number.
pub open spec fn with_item(items: Seq<WrappedView>, id: u64, new: WrappedView) -> Seq<
    WrappedView,
> {
    if index_of(items, id) >= 0 {
        items.update(index_of(items, id), new)
    } else {
        items
    }
}

/// Where `index_of` points, the pair has the number; where it points nowhere,
/// no pair has it.
pub proof fn lemma_index_of(items: Seq<WrappedView>, id: u64)
    ensures
        -1 <= index_of(items, id) < items.len(),
        index_of(items, id) >= 0 ==> items[index_of(items, id)].id == id,
        index_of(items, id) < 0 ==> forall|k: int|
            0 <= k < items.len() ==> (#[trigger] items[k]).id != id,
    decreases items.len(),
{
    if items.len() > 0 && items.last().id != id {
        lemma_index_of(items.drop_last(), id);
        assert forall|k: int| 0 <= k < items.len() && index_of(items, id) < 0 implies (
        #[trigger] items[k]).id != id by {
            if k < items.len() - 1 {
                assert(items.drop_last()[k] == items[k]);
            }
        }
    }
}

/// The table after a guard is acquired.
pub open spec fn table_after_acquire(v: TableView) -> TableView {
    if v.guards < u64::MAX {
        TableView { guards: v.guards + 1, ..v }
    } else {
        v
    }
}

/// The table after a guard is released: releasing the last one clears the
/// table; releasing with none held changes nothing.
pub open spec fn table_after_release(v: TableView) -> TableView {
    if v.guards == 0 {
        v
    } else if v.guards == 1 {
        TableView { guards: 0, items: Seq::empty(), ..v }
    } else {
        TableView { guards: (v.guards - 1) as nat, ..v }
    }
}

/// The table of wrapped endpoint pairs.
pub struct ChannelTable {
    guards: u64,
    next_id: u64,
    log_capacity: usize,
    items: Vec<Wrapped>,
}

impl View for ChannelTable {
    type V = TableView;

    closed spec fn view(&self) -> TableView {
        TableView {
            guards: self.guards as nat,
            next_id: self.next_id,
            items: Seq::new(self.items@.len(), |i: int| self.items@[i]@),
        }
    }
}

impl ChannelTable {
    /// The numbers rise along the table, every pair's log is well formed
    /// and has the table's log capacity, and without a guard the table is
    /// empty.
    pub closed spec fn wf(&self) -> bool {
        &&& ids_rise(self@)
        &&& self.guards == 0 ==> self.items@.len() == 0
        &&& forall|i: int|
            0 <= i < self.items@.len() ==> (#[trigger] self.items@[i]).log.wf()
                && self.items@[i].log.spec_capacity() == self.log_capacity
    }

    /// Number of events that each pair's log retains.
    pub closed spec fn spec_log_capacity(&self) -> nat {
        self.log_capacity as nat
    }

    /// An empty table with no guard held. The first pair gets the number 1.
    pub fn new(log_capacity: usize) -> (r: ChannelTable)
        ensures
            r.wf(),
            r@.guards == 0,
            r@.next_id == 1,
            r@.items == Seq::<WrappedView>::empty(),
            r.spec_log_capacity() == log_capacity,
    {
        let r = ChannelTable { guards: 0, next_id: 1, log_capacity, items: Vec::new() };
        assert(r@.items =~= Seq::<WrappedView>::empty());
        r
    }

    /// Number of pairs in the table.
    pub fn len(&self) -> (r: usize)
        ensures
            r == self@.items.len(),
    {
        self.items.len()
    }

    /// Whether a guard is held, that is, whether the table collects.
    pub fn is_active(&self) -> (r: bool)
        ensures
            r == (self@.guards > 0),
    {
        self.guards > 0
    }

    /// Number of guards held.
    pub fn guards(&self) -> (r: u64)
        ensures
            r == self@.guards,
    {
        self.guards
    }

    /// Takes a guard. The result says whether it was taken: it is not where
    /// `u64::MAX` guards are held already.
    pub fn acquire(&mut self) -> (taken: bool)
        requires
            old(self).wf(),
        ensures
            final(self).wf(),
            final(self).spec_log_capacity() == old(self).spec_log_capacity(),
            taken == (old(self)@.guards < u64::MAX),
            final(self)@ == table_after_acquire(old(self)@),
    {
        if self.guards == u64::MAX {
            return false;
        }
        self.guards = self.guards + 1;
        assert(self@.items =~= old(self)@.items);
        true
    }

    /// Gives a guard back. Giving back the last one clears the table; the
    /// numbers go on from where they were.
    pub fn release(&mut self)
        requires
            old(self).wf(),
        ensures
            final(self).wf(),
            final(self).spec_log_capacity() == old(self).spec_log_capacity(),
            final(self)@ == table_after_release(old(self)@),
    {
        if self.guards == 0 {
            return ;
        }
        self.guards = self.guards - 1;
        if self.guards == 0 {
            self.items = Vec::new();
            assert(self@.items =~= Seq::<WrappedView>::empty());
        } else {
            assert(self@.items =~= old(self)@.items);
        }
    }

    /// Enters a pair and gives it its number. There is none, and the table
    /// stays as it was, where no guard is held or the numbers have run out.
    pub fn wrap(&mut self, config: WrapConfig) -> (r: Option<u64>)
        requires
            old(self).wf(),
        ensures
            final(self).wf(),
            final(self).spec_log_capacity() == old(self).spec_log_capacity(),
            r.is_some() == (old(self)@.guards > 0 && old(self)@.next_id < u64::MAX),
            r.is_none() ==> final(self)@ == old(self)@,
            r.is_some() ==> r.unwrap() == old(self)@.next_id && final(self)@ == (TableView {
                guards: old(self)@.guards,
                next_id: (old(self)@.next_id + 1) as u64,
                items: old(self)@.items.push(
                    wrapped_new(
                        old(self)@.next_id,
                        match config.label {
                            Some(l) => Some(l@),
                            None => None,
                        },
                        config.capacity,
                        config.log,
                    ),
                ),
            }),
    {
        if self.guards == 0 || self.next_id == u64::MAX {
            return None;
        }
        let id = self.next_id;
        let ghost before = self@;
        let label = match config.label {
            Some(l) => l,
            None => {
                let mut l = "channel-".to_owned();
                push_decimal(&mut l, id);
                l
            },
        };
        let item = Wrapped {
            id,
            label,
            logging: config.log,
            state: ChannelState::new(config.capacity),
            log: BoundedEventLog::new(self.log_capacity),
        };
        self.items.push(item);
        self.next_id = id + 1;
        proof {
            let now = self@;
            assert(now.items =~= before.items.push(now.items[before.items.len() as int]));
            assert forall|i: int, j: int| 0 <= i < j < now.items.len() implies (
            #[trigger] now.items[i]).id < (#[trigger] now.items[j]).id by {
                assert(now.items[i] == before.items[i]);
                if j < before.items.len() {
                    assert(now.items[j] == before.items[j]);
                }
            }
            assert forall|i: int| 0 <= i < now.items.len() implies (#[trigger] now.items[i]).id
                < now.next_id by {
                if i < before.items.len() {
                    assert(now.items[i] == before.items[i]);
                }
            }
        }
        Some(id)
    }

    /// Place in the table of the pair of the given number.
    pub fn find(&self, id: u64) -> (r: Option<usize>)
        ensures
            r.is_some() == (index_of(self@.items, id) >= 0),
            r.is_some() ==> r.unwrap() == index_of(self@.items, id),
    {
        let mut i: usize = self.items.len();
        assert(self@.items.take(i as int) =~= self@.items);
        while i > 0
            invariant
                0 <= i <= self.items@.len(),
                self@.items.len() == self.items@.len(),
                index_of(self@.items, id) == index_of(self@.items.take(i as int), id),
            decreases i,
        {
            assert(self@.items.take(i as int).drop_last() =~= self@.items.take(i as int - 1));
            assert(self@.items.take(i as int).last() == self@.items[i as int - 1]);
            i = i - 1;
            if self.items[i].id == id {
                return Some(i);
            }
        }
        None
    }
}

/// The items after a change to the state of the pair of the given number.
pub open spec fn with_state(items: Seq<WrappedView>, id: u64, state: ChannelState) -> Seq<
    WrappedView,
> {
    if index_of(items, id) >= 0 {
        with_item(items, id, WrappedView { state, ..items[index_of(items, id)] })
    } else {
        items
    }
}

/// The snapshots of all pairs, in table order.
pub open spec fn snapshots_of(items: Seq<WrappedView>) -> Seq<ChannelSnapshotView> {
    Seq::new(items.len(), |i: int| snapshot_of(items[i]))
}

impl ChannelTable {
    proof fn lemma_update_keeps_wf(self, before: ChannelTable, idx: int)
        requires
            before.wf(),
            0 <= idx < before.items@.len(),
            self.items@.len() == before.items@.len(),
            self.next_id == before.next_id,
            self.guards == before.guards,
            self.log_capacity == before.log_capacity,
            forall|k: int|
                0 <= k < before.items@.len() && k != idx ==> self.items@[k] == before.items@[k],
            self.items@[idx].id == before.items@[idx].id,
            self.items@[idx].log.wf(),
            self.items@[idx].log.spec_capacity() == before.log_capacity,
        ensures
            self.wf(),
            self@.items == before@.items.update(idx, self.items@[idx]@),
    {
        assert(self@.items =~= before@.items.update(idx, self.items@[idx]@));
        assert forall|i: int, j: int| 0 <= i < j < self@.items.len() implies (
        #[trigger] self@.items[i]).id < (#[trigger] self@.items[j]).id by {
            assert(self@.items[i].id == before@.items[i].id);
            assert(self@.items[j].id == before@.items[j].id);
        }
        assert forall|i: int| 0 <= i < self@.items.len() implies (#[trigger] self@.items[i]).id
            < self@.next_id by {
            assert(self@.items[i].id == before@.items[i].id);
        }
    }

    /// Reports the outcome of a send on the pair of the given number and
    /// hands it back unchanged. `event` describes the send; it is logged
    /// where the item was accepted and the pair logs its messages. A number
    /// that no pair has changes nothing.
    pub fn on_send(&mut self, id: u64, outcome: SendOutcome, event: Event) -> (r: SendOutcome)
        requires
            old(self).wf(),
        ensures
            r == outcome,
            final(self).wf(),
            final(self).spec_log_capacity() == old(self).spec_log_capacity(),
            final(self)@.next_id == old(self)@.next_id,
            final(self)@.guards == old(self)@.guards,
            old(self)@.guards == 0 ==> final(self)@ == old(self)@,
            index_of(old(self)@.items, id) < 0 ==> final(self)@ == old(self)@,
            index_of(old(self)@.items, id) >= 0 ==> final(self)@.items == with_item(
                old(self)@.items,
                id,
                wrapped_after_send(
                    old(self)@.items[index_of(old(self)@.items, id)],
                    outcome,
                    event,
                    old(self).spec_log_capacity(),
                ),
            ),
    {
        proof {
            lemma_index_of(self@.items, id);
        }
        match self.find(id) {
            Some(i) => {
                let ghost before = *self;
                let was_frozen = self.items[i].state.is_finished();
                let _ = self.items[i].state.on_send(outcome);
                if self.items[i].logging && !was_frozen && outcome == SendOutcome::Sent {
                    self.items[i].log.push(event);
                }
                proof {
                    self.lemma_update_keeps_wf(before, i as int);
                }
            },
            None => {},
        }
        outcome
    }

    /// Reports the outcome of a receive on the pair of the given number and
    /// hands it back unchanged. `event` describes the receive; it is logged
    /// where an item was handed out and the pair logs its messages.
    pub fn on_recv(&mut self, id: u64, outcome: RecvOutcome, event: Event) -> (r: RecvOutcome)
        requires
            old(self).wf(),
        ensures
            r == outcome,
            final(self).wf(),
            final(self).spec_log_capacity() == old(self).spec_log_capacity(),
            final(self)@.next_id == old(self)@.next_id,
            final(self)@.guards == old(self)@.guards,
            old(self)@.guards == 0 ==> final(self)@ == old(self)@,
            index_of(old(self)@.items, id) < 0 ==> final(self)@ == old(self)@,
            index_of(old(self)@.items, id) >= 0 ==> final(self)@.items == with_item(
                old(self)@.items,
                id,
                wrapped_after_recv(
                    old(self)@.items[index_of(old(self)@.items, id)],
                    outcome,
                    event,
                    old(self).spec_log_capacity(),
                ),
            ),
    {
        proof {
            lemma_index_of(self@.items, id);
        }
        match self.find(id) {
            Some(i) => {
                let ghost before = *self;
                let was_frozen = self.items[i].state.is_finished();
                let _ = self.items[i].state.on_recv(outcome);
                if self.items[i].logging && !was_frozen && outcome == RecvOutcome::Received {
                    self.items[i].log.push(event);
                }
                proof {
                    self.lemma_update_keeps_wf(before, i as int);
                }
            },
            None => {},
        }
        outcome
    }

    fn half_dropped(&mut self, id: u64, sender: bool)
        requires
            old(self).wf(),
        ensures
            final(self).wf(),
            final(self).spec_log_capacity() == old(self).spec_log_capacity(),
            final(self)@.next_id == old(self)@.next_id,
            final(self)@.guards == old(self)@.guards,
            old(self)@.guards == 0 ==> final(self)@ == old(self)@,
            index_of(old(self)@.items, id) < 0 ==> final(self)@ == old(self)@,
            index_of(old(self)@.items, id) >= 0 ==> final(self)@.items == with_state(
                old(self)@.items,
                id,
                half_gone(old(self)@.items[index_of(old(self)@.items, id)].state, sender),
            ),
    {
        proof {
            lemma_index_of(self@.items, id);
        }
        match self.find(id) {
            Some(i) => {
                let ghost before = *self;
                self.items[i].state.half_dropped(sender);
                proof {
                    self.lemma_update_keeps_wf(before, i as int);
                }
            },
            None => {},
        }
    }

    /// Reports that the sending half of a pair was dropped.
    pub fn sender_dropped(&mut self, id: u64)
        requires
            old(self).wf(),
        ensures
            final(self).wf(),
            final(self).spec_log_capacity() == old(self).spec_log_capacity(),
            final(self)@.next_id == old(self)@.next_id,
            final(self)@.guards == old(self)@.guards,
            old(self)@.guards == 0 ==> final(self)@ == old(self)@,
            index_of(old(self)@.items, id) < 0 ==> final(self)@ == old(self)@,
            index_of(old(self)@.items, id) >= 0 ==> final(self)@.items == with_state(
                old(self)@.items,
                id,
                half_gone(old(self)@.items[index_of(old(self)@.items, id)].state, true),
            ),
    {
        self.half_dropped(id, true)
    }

    /// Reports that the receiving half of a pair was dropped.
    pub fn receiver_dropped(&mut self, id: u64)
        requires
            old(self).wf(),
        ensures
            final(self).wf(),
            final(self).spec_log_capacity() == old(self).spec_log_capacity(),
            final(self)@.next_id == old(self)@.next_id,
            final(self)@.guards == old(self)@.guards,
            old(self)@.guards == 0 ==> final(self)@ == old(self)@,
            index_of(old(self)@.items, id) < 0 ==> final(self)@ == old(self)@,
            index_of(old(self)@.items, id) >= 0 ==> final(self)@.items == with_state(
                old(self)@.items,
                id,
                half_gone(old(self)@.items[index_of(old(self)@.items, id)].state, false),
            ),
    {
        self.half_dropped(id, false)
    }

    fn snapshot_at(&self, i: usize) -> (r: ChannelSnapshot)
        requires
            i < self.items@.len(),
        ensures
            r@ == snapshot_of(self@.items[i as int]),
            r.sent_count >= r.received_count,
    {
        let item = &self.items[i];
        let counts = item.state.snapshot();
        ChannelSnapshot {
            id: item.id,
            label: item.label.clone(),
            capacity: counts.capacity,
            occupancy: counts.occupancy,
            sent_count: counts.sent_count,
            received_count: counts.received_count,
            closed: counts.closed,
        }
    }

    /// The snapshot of the pair of the given number, if there is one.
    pub fn snapshot(&self, id: u64) -> (r: Option<ChannelSnapshot>)
        ensures
            r.is_some() == (index_of(self@.items, id) >= 0),
            r.is_some() ==> r.unwrap()@ == snapshot_of(self@.items[index_of(self@.items, id)]),
            r.is_some() ==> r.unwrap().sent_count >= r.unwrap().received_count,
    {
        proof {
            lemma_index_of(self@.items, id);
        }
        match self.find(id) {
            Some(i) => Some(self.snapshot_at(i)),
            None => None,
        }
    }

    /// The snapshots of all pairs, in the order in which they were wrapped.
    pub fn snapshots(&self) -> (r: Vec<ChannelSnapshot>)
        ensures
            r@.map_values(|s: ChannelSnapshot| s@) == snapshots_of(self@.items),
            forall|i: int|
                0 <= i < r@.len() ==> (#[trigger] r@[i]).sent_count >= r@[i].received_count,
    {
        let mut out: Vec<ChannelSnapshot> = Vec::new();
        let mut i: usize = 0;
        while i < self.items.len()
            invariant
                0 <= i <= self.items@.len(),
                self@.items.len() == self.items@.len(),
                out@.len() == i,
                forall|k: int| 0 <= k < i ==> (#[trigger] out@[k])@ == snapshot_of(self@.items[k]),
                forall|k: int| 0 <= k < i ==> (#[trigger] out@[k]).sent_count >= out@[k].received_count,
            decreases self.items@.len() - i,
        {
            out.push(self.snapshot_at(i));
            i = i + 1;
        }
        assert(out@.map_values(|s: ChannelSnapshot| s@) =~= snapshots_of(self@.items));
        out
    }

    /// The logged events of the pair of the given number, oldest first.
    pub fn log(&self, id: u64) -> (r: Option<Vec<Event>>)
        requires
            self.wf(),
        ensures
            r.is_some() == (index_of(self@.items, id) >= 0),
            r.is_some() ==> r.unwrap()@ == self@.items[index_of(self@.items, id)].log,
    {
        proof {
            lemma_index_of(self@.items, id);
        }
        match self.find(id) {
            Some(i) => Some(self.items[i].log.snapshot()),
            None => None,
        }
    }
}

/// Guards nest: taking a second guard and giving it back leaves the table
/// collecting and as it was. Giving back the last guard clears it.
pub proof fn law_table_guards_nest(v: TableView)
    requires
        1 <= v.guards < u64::MAX,
    ensures
        table_after_release(table_after_acquire(v)) == v,
        v.guards == 1 ==> table_after_release(v).guards == 0 && table_after_release(v).items
            == Seq::<WrappedView>::empty(),
{
}

/// Pairs that are wrapped one after another get different numbers.
pub proof fn law_wrapped_ids_differ(v: TableView, i: int, j: int)
    requires
        ids_rise(v),
        0 <= i < v.items.len(),
        0 <= j < v.items.len(),
        i != j,
    ensures
        v.items[i].id != v.items[j].id,
{
    if i < j {
        assert(v.items[i].id < v.items[j].id);
    } else {
        assert(v.items[j].id < v.items[i].id);
    }
}

/// Every snapshot shows at least as many items sent as received.
pub proof fn law_snapshot_sent_covers_received(w: WrappedView)
    ensures
        snapshot_of(w).sent_count >= snapshot_of(w).received_count,
        snapshot_of(w).occupancy <= snapshot_of(w).sent_count - snapshot_of(w).received_count,
{
}

} // verus!

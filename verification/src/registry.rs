//! The table of measured entities, and the guards that scope collection.
//!
//! Collection is active while at least one guard is held. While none is held,
//! recording does nothing; when the last guard is released, the table is
//! cleared. The registry is a plain value: a program that shares it between
//! threads puts it behind a lock of its own.

use vstd::prelude::*;
use crate::event_log::{pushed, BoundedEventLog, Event};
use crate::stats::{recorded, StatAccumulator, StatSummary, summary_of};
use crate::text::str_eq;

verus! {

/// The namespaces in which entity names are unique.
#[derive(Clone, Copy, Debug, PartialEq, Eq, Structural)]
pub enum Category {
    Function,
    Channel,
    Stream,
    Thread,
}

/// What the registry holds for one entity.
pub struct Entry {
    category: Category,
    id: String,
    stats: StatAccumulator,
    allocs: StatAccumulator,
    log: BoundedEventLog,
}

/// The mathematical content of an entry.
pub struct EntryView {
    pub category: Category,
    pub id: Seq<char>,
    /// Durations recorded, oldest first.
    pub durations: Seq<u64>,
    /// Allocation sizes recorded, oldest first.
    pub allocs: Seq<u64>,
    /// Retained events, oldest first.
    pub log: Seq<Event>,
}

/// The mathematical content of a registry.
pub struct RegistryView {
    /// Number of guards held.
    pub guards: nat,
    /// The entities, in the order in which they were first seen.
    pub entries: Seq<EntryView>,
}

/// The bytes that an allocation delta adds to the allocation statistics: the
/// delta itself where memory grew, nothing where it shrank.
pub open spec fn alloc_bytes(delta: i64) -> u64 {
    if delta > 0 {
        delta as u64
    } else {
        0
    }
}

/// An entity of which nothing has been recorded yet.
pub open spec fn fresh_entry(category: Category, id: Seq<char>) -> EntryView {
    EntryView {
        category,
        id,
        durations: Seq::empty(),
        allocs: Seq::empty(),
        log: Seq::empty(),
    }
}

/// An entry after one event is recorded into it.
pub open spec fn entry_after(
    e: EntryView,
    event: Event,
    log_capacity: nat,
    track_allocs: bool,
) -> EntryView {
    EntryView {
        category: e.category,
        id: e.id,
        durations: recorded(e.durations, event.duration_ns),
        allocs: if track_allocs && event.alloc_delta.is_some() {
            recorded(e.allocs, alloc_bytes(event.alloc_delta.unwrap()))
        } else {
            e.allocs
        },
        log: pushed(e.log, log_capacity, event),
    }
}

/// Index of the first entry of the given name, or -1 where there is none.
pub open spec fn position(entries: Seq<EntryView>, category: Category, id: Seq<char>) -> int
    decreases entries.len(),
{
    if entries.len() == 0 {
        -1
    } else {
        let p = position(entries.drop_last(), category, id);
        if p >= 0 {
            p
        } else if entries.last().category == category && entries.last().id == id {
            entries.len() - 1
        } else {
            -1
        }
    }
}

/// No two entries share a category and name.
pub open spec fn distinct_names(entries: Seq<EntryView>) -> bool {
    forall|i: int, j: int|
        0 <= i < j < entries.len() ==> !(#[trigger] entries[i].category
            == #[trigger] entries[j].category && entries[i].id == entries[j].id)
}

/// The registry after a guard is acquired.
pub open spec fn after_acquire(v: RegistryView) -> RegistryView {
    if v.guards < u64::MAX {
        RegistryView { guards: v.guards + 1, entries: v.entries }
    } else {
        v
    }
}

/// The registry after a guard is released: releasing the last one clears the
/// table; releasing with none held changes nothing.
pub open spec fn after_release(v: RegistryView) -> RegistryView {
    if v.guards == 0 {
        v
    } else if v.guards == 1 {
        RegistryView { guards: 0, entries: Seq::empty() }
    } else {
        RegistryView { guards: (v.guards - 1) as nat, entries: v.entries }
    }
}

/// The registry after an event is offered. With no guard held it is dropped.
/// Otherwise it goes into the entity's entry, which is created at the end of
/// the table where the entity is new.
pub open spec fn after_record(
    v: RegistryView,
    category: Category,
    id: Seq<char>,
    event: Event,
    log_capacity: nat,
    track_allocs: bool,
) -> RegistryView {
    if v.guards == 0 {
        v
    } else {
        let p = position(v.entries, category, id);
        if p >= 0 {
            RegistryView {
                guards: v.guards,
                entries: v.entries.update(
                    p,
                    entry_after(v.entries[p], event, log_capacity, track_allocs),
                ),
            }
        } else {
            RegistryView {
                guards: v.guards,
                entries: v.entries.push(
                    entry_after(fresh_entry(category, id), event, log_capacity, track_allocs),
                ),
            }
        }
    }
}

/// A table whose entries keep their names keeps them distinct.
pub proof fn lemma_same_names_distinct(before: Seq<EntryView>, after: Seq<EntryView>)
    requires
        distinct_names(before),
        after.len() == before.len(),
        forall|i: int|
            0 <= i < before.len() ==> (#[trigger] after[i]).category == before[i].category
                && after[i].id == before[i].id,
    ensures
        distinct_names(after),
{
    assert forall|i: int, j: int| 0 <= i < j < after.len() implies !(#[trigger] after[i].category
        == #[trigger] after[j].category && after[i].id == after[j].id) by {
        assert(after[i].category == before[i].category && after[i].id == before[i].id);
        assert(after[j].category == before[j].category && after[j].id == before[j].id);
    }
}

/// What `position` finds: the first entry of that name, and -1 exactly where
/// no entry has it.
pub proof fn lemma_position(entries: Seq<EntryView>, category: Category, id: Seq<char>)
    ensures
        -1 <= position(entries, category, id) < entries.len(),
        position(entries, category, id) >= 0 ==> {
            let p = position(entries, category, id);
            &&& entries[p].category == category
            &&& entries[p].id == id
            &&& forall|k: int|
                0 <= k < p ==> !(#[trigger] entries[k].category == category && entries[k].id
                    == id)
        },
        position(entries, category, id) < 0 ==> forall|k: int|
            0 <= k < entries.len() ==> !(#[trigger] entries[k].category == category
                && entries[k].id == id),
    decreases entries.len(),
{
    if entries.len() > 0 {
        lemma_position(entries.drop_last(), category, id);
        let front = entries.drop_last();
        assert forall|k: int| 0 <= k < front.len() implies front[k] == entries[k] by {}
        let p = position(entries, category, id);
        if p >= 0 {
            assert forall|k: int| 0 <= k < p implies !(#[trigger] entries[k].category
                == category && entries[k].id == id) by {
                assert(front[k] == entries[k]);
            }
        } else {
            assert forall|k: int| 0 <= k < entries.len() implies !(#[trigger] entries[k].category
                == category && entries[k].id == id) by {
                if k < front.len() {
                    assert(front[k] == entries[k]);
                }
            }
        }
    }
}

impl View for Entry {
    type V = EntryView;

    closed spec fn view(&self) -> EntryView {
        EntryView {
            category: self.category,
            id: self.id@,
            durations: self.stats@,
            allocs: self.allocs@,
            log: self.log@,
        }
    }
}

impl Entry {
    /// The entry's statistics and log are well formed, and the log has the
    /// given capacity.
    pub closed spec fn wf(&self, log_capacity: nat) -> bool {
        &&& self.stats.wf()
        &&& self.allocs.wf()
        &&& self.log.wf()
        &&& self.log.spec_capacity() == log_capacity
    }
}

/// The process-wide table of measured entities.
pub struct Registry {
    guards: u64,
    log_capacity: usize,
    track_allocs: bool,
    entries: Vec<Entry>,
}

impl View for Registry {
    type V = RegistryView;

    closed spec fn view(&self) -> RegistryView {
        RegistryView {
            guards: self.guards as nat,
            entries: Seq::new(self.entries@.len(), |i: int| self.entries@[i]@),
        }
    }
}

impl Registry {
    /// Every entry is well formed, names are distinct, and without a guard
    /// the table is empty.
    pub closed spec fn wf(&self) -> bool {
        &&& forall|i: int|
            0 <= i < self.entries@.len() ==> (#[trigger] self.entries@[i]).wf(
                self.log_capacity as nat,
            )
        &&& distinct_names(self@.entries)
        &&& self.guards == 0 ==> self.entries@.len() == 0
    }

    /// Number of events that each entity's log retains.
    pub closed spec fn spec_log_capacity(&self) -> nat {
        self.log_capacity as nat
    }

    /// Whether allocation deltas are collected.
    pub closed spec fn spec_track_allocs(&self) -> bool {
        self.track_allocs
    }

    /// An empty registry with no guard held.
    pub fn new(log_capacity: usize, track_allocs: bool) -> (r: Registry)
        ensures
            r.wf(),
            r@.guards == 0,
            r@.entries == Seq::<EntryView>::empty(),
            r.spec_log_capacity() == log_capacity,
            r.spec_track_allocs() == track_allocs,
    {
        let r = Registry { guards: 0, log_capacity, track_allocs, entries: Vec::new() };
        assert(r@.entries =~= Seq::<EntryView>::empty());
        r
    }

    /// Whether a guard is held, that is, whether events are collected.
    pub fn is_active(&self) -> (r: bool)
        ensures
            r == (self@.guards > 0),
    {
        self.guards > 0
    }

    /// Number of guards held.
    pub fn guards(&self) -> (r: u64)
        ensures
            r == self@.guards,
    {
        self.guards
    }

    /// Number of entities in the table.
    pub fn len(&self) -> (r: usize)
        ensures
            r == self@.entries.len(),
    {
        self.entries.len()
    }

    /// Takes a guard. The result says whether it was taken: it is not where
    /// `u64::MAX` guards are held already.
    pub fn acquire(&mut self) -> (taken: bool)
        requires
            old(self).wf(),
        ensures
            final(self).wf(),
            final(self)@ == after_acquire(old(self)@),
            taken == (old(self)@.guards < u64::MAX),
            final(self).spec_log_capacity() == old(self).spec_log_capacity(),
            final(self).spec_track_allocs() == old(self).spec_track_allocs(),
    {
        if self.guards == u64::MAX {
            return false;
        }
        self.guards = self.guards + 1;
        assert(self@.entries =~= old(self)@.entries);
        true
    }

    /// Gives a guard back. Giving back the last one clears the table.
    pub fn release(&mut self)
        requires
            old(self).wf(),
        ensures
            final(self).wf(),
            final(self)@ == after_release(old(self)@),
            final(self).spec_log_capacity() == old(self).spec_log_capacity(),
            final(self).spec_track_allocs() == old(self).spec_track_allocs(),
    {
        if self.guards == 0 {
            return ;
        }
        self.guards = self.guards - 1;
        if self.guards == 0 {
            self.entries = Vec::new();
            assert(self@.entries =~= Seq::<EntryView>::empty());
        } else {
            assert(self@.entries =~= old(self)@.entries);
        }
    }
}

/// The bytes that an allocation delta adds to the allocation statistics.
pub fn alloc_bytes_of(delta: i64) -> (r: u64)
    ensures
        r == alloc_bytes(delta),
{
    if delta > 0 {
        delta as u64
    } else {
        0
    }
}

impl Registry {
    /// Index of the entity's entry, if it has one.
    pub fn find(&self, category: Category, id: &str) -> (r: Option<usize>)
        ensures
            r.is_some() == (position(self@.entries, category, id@) >= 0),
            r.is_some() ==> r.unwrap() == position(self@.entries, category, id@),
    {
        proof {
            lemma_position(self@.entries, category, id@);
        }
        let mut i: usize = 0;
        while i < self.entries.len()
            invariant
                0 <= i <= self.entries@.len(),
                self@.entries.len() == self.entries@.len(),
                forall|k: int|
                    0 <= k < i ==> !(#[trigger] self@.entries[k].category == category
                        && self@.entries[k].id == id@),
            decreases self.entries@.len() - i,
        {
            if self.entries[i].category == category && str_eq(self.entries[i].id.as_str(), id) {
                proof {
                    lemma_position(self@.entries, category, id@);
                    assert(self@.entries[i as int].category == category
                        && self@.entries[i as int].id == id@);
                }
                return Some(i);
            }
            assert(!(self@.entries[i as int].category == category && self@.entries[i as int].id
                == id@));
            i = i + 1;
        }
        None
    }

    /// Offers an event of an entity. With no guard held the event is dropped
    /// and the result is `false`. Otherwise it is counted in the entity's
    /// statistics and appended to its log; an entity seen for the first time
    /// gets its entry at the end of the table.
    pub fn record(&mut self, category: Category, id: &str, event: Event) -> (kept: bool)
        requires
            old(self).wf(),
        ensures
            final(self).wf(),
            kept == (old(self)@.guards > 0),
            final(self)@ == after_record(
                old(self)@,
                category,
                id@,
                event,
                old(self).spec_log_capacity(),
                old(self).spec_track_allocs(),
            ),
            final(self).spec_log_capacity() == old(self).spec_log_capacity(),
            final(self).spec_track_allocs() == old(self).spec_track_allocs(),
    {
        let ghost before = self@;
        let idx: usize = match self.get_or_create(category, id) {
            Some(i) => i,
            None => {
                return false;
            },
        };
        let ghost mid = self@;
        proof {
            lemma_position(before.entries, category, id@);
            lemma_position(mid.entries, category, id@);
        }
        let _ = self.entries[idx].stats.record(event.duration_ns);
        if self.track_allocs {
            match event.alloc_delta {
                Some(delta) => {
                    let _ = self.entries[idx].allocs.record(alloc_bytes_of(delta));
                },
                None => {},
            }
        }
        self.entries[idx].log.push(event);
        proof {
            let goal = after_record(
                before,
                category,
                id@,
                event,
                self.log_capacity as nat,
                self.track_allocs,
            );
            assert(self@.entries[idx as int] == entry_after(
                mid.entries[idx as int],
                event,
                self.log_capacity as nat,
                self.track_allocs,
            ));
            if position(before.entries, category, id@) < 0 {
                assert(mid.entries.drop_last() =~= before.entries);
                assert(idx == before.entries.len());
            }
            assert(self@.entries =~= goal.entries);
            lemma_same_names_distinct(mid.entries, self@.entries);
        }
        true
    }
}

/// The statistics of one entity under its name.
pub struct NamedSummary {
    pub name: String,
    pub summary: StatSummary,
}

/// The mathematical content of a named summary.
pub struct NamedSummaryView {
    pub name: Seq<char>,
    pub summary: StatSummary,
}

impl View for NamedSummary {
    type V = NamedSummaryView;

    open spec fn view(&self) -> NamedSummaryView {
        NamedSummaryView { name: self.name@, summary: self.summary }
    }
}

/// The observations of an entry that a document is about: its allocation
/// sizes where `allocs` is set, its durations otherwise.
pub open spec fn observations(e: EntryView, allocs: bool) -> Seq<u64> {
    if allocs {
        e.allocs
    } else {
        e.durations
    }
}

/// The summaries of the entities of one category, in table order: of their
/// allocation sizes where `allocs` is set, of their durations otherwise.
pub open spec fn summaries_in(entries: Seq<EntryView>, category: Category, allocs: bool) -> Seq<
    NamedSummaryView,
>
    decreases entries.len(),
{
    if entries.len() == 0 {
        Seq::empty()
    } else if entries.last().category == category {
        summaries_in(entries.drop_last(), category, allocs).push(
            NamedSummaryView {
                name: entries.last().id,
                summary: summary_of(observations(entries.last(), allocs)),
            },
        )
    } else {
        summaries_in(entries.drop_last(), category, allocs)
    }
}

/// The duration summaries of the entities of one category, in table order.
pub open spec fn summaries_of(entries: Seq<EntryView>, category: Category) -> Seq<
    NamedSummaryView,
> {
    summaries_in(entries, category, false)
}

/// The allocation summaries of the entities of one category, in table order.
pub open spec fn alloc_summaries_of(entries: Seq<EntryView>, category: Category) -> Seq<
    NamedSummaryView,
> {
    summaries_in(entries, category, true)
}

/// The registry after an entity is removed.
pub open spec fn after_remove(v: RegistryView, category: Category, id: Seq<char>) -> RegistryView {
    let p = position(v.entries, category, id);
    if p >= 0 {
        RegistryView { guards: v.guards, entries: v.entries.remove(p) }
    } else {
        v
    }
}

/// The registry after an entity is looked up for recording: with a guard held,
/// an entity that is new gets an empty entry at the end of the table.
pub open spec fn after_get_or_create(
    v: RegistryView,
    category: Category,
    id: Seq<char>,
) -> RegistryView {
    if v.guards > 0 && position(v.entries, category, id) < 0 {
        RegistryView { guards: v.guards, entries: v.entries.push(fresh_entry(category, id)) }
    } else {
        v
    }
}

impl Registry {
    /// The entity's place in the table; with a guard held, an entity that is
    /// new gets an empty entry first. With no guard held nothing is created,
    /// and the result is `None`.
    pub fn get_or_create(&mut self, category: Category, id: &str) -> (r: Option<usize>)
        requires
            old(self).wf(),
        ensures
            final(self).wf(),
            final(self)@ == after_get_or_create(old(self)@, category, id@),
            r.is_some() == (old(self)@.guards > 0),
            r.is_some() ==> r.unwrap() == position(final(self)@.entries, category, id@),
            final(self).spec_log_capacity() == old(self).spec_log_capacity(),
            final(self).spec_track_allocs() == old(self).spec_track_allocs(),
    {
        if self.guards == 0 {
            return None;
        }
        let ghost before = self@;
        proof {
            lemma_position(before.entries, category, id@);
        }
        match self.find(category, id) {
            Some(i) => Some(i),
            None => {
                let e = Entry {
                    category,
                    id: id.to_owned(),
                    stats: StatAccumulator::new(),
                    allocs: StatAccumulator::new(),
                    log: BoundedEventLog::new(self.log_capacity),
                };
                assert(e@ == fresh_entry(category, id@));
                self.entries.push(e);
                proof {
                    let now = self@.entries;
                    assert(now =~= before.entries.push(fresh_entry(category, id@)));
                    assert(now.drop_last() =~= before.entries);
                    assert forall|i: int, j: int| 0 <= i < j < now.len() implies !(
                    #[trigger] now[i].category == #[trigger] now[j].category && now[i].id
                        == now[j].id) by {
                        if j < before.entries.len() {
                            assert(now[i] == before.entries[i]);
                            assert(now[j] == before.entries[j]);
                        } else {
                            assert(now[i] == before.entries[i]);
                        }
                    }
                }
                Some(self.entries.len() - 1)
            },
        }
    }

    /// Removes an entity and all that was recorded of it. The result says
    /// whether there was one.
    pub fn remove(&mut self, category: Category, id: &str) -> (removed: bool)
        requires
            old(self).wf(),
        ensures
            final(self).wf(),
            final(self)@ == after_remove(old(self)@, category, id@),
            removed == (position(old(self)@.entries, category, id@) >= 0),
            final(self).spec_log_capacity() == old(self).spec_log_capacity(),
            final(self).spec_track_allocs() == old(self).spec_track_allocs(),
    {
        let ghost before = self@;
        proof {
            lemma_position(before.entries, category, id@);
        }
        match self.find(category, id) {
            Some(i) => {
                let _ = self.entries.remove(i);
                proof {
                    let now = self@.entries;
                    assert(now =~= before.entries.remove(i as int));
                    assert forall|a: int, b: int| 0 <= a < b < now.len() implies !(
                    #[trigger] now[a].category == #[trigger] now[b].category && now[a].id
                        == now[b].id) by {
                        let a0 = if a < i {
                            a
                        } else {
                            a + 1
                        };
                        let b0 = if b < i {
                            b
                        } else {
                            b + 1
                        };
                        assert(now[a] == before.entries[a0]);
                        assert(now[b] == before.entries[b0]);
                    }
                }
                true
            },
            None => false,
        }
    }

    /// The duration statistics of an entity, if it has an entry.
    pub fn summary(&self, category: Category, id: &str) -> (r: Option<StatSummary>)
        requires
            self.wf(),
        ensures
            r.is_some() == (position(self@.entries, category, id@) >= 0),
            r.is_some() ==> r.unwrap() == summary_of(
                self@.entries[position(self@.entries, category, id@)].durations,
            ),
    {
        proof {
            lemma_position(self@.entries, category, id@);
        }
        match self.find(category, id) {
            Some(i) => Some(self.entries[i].stats.summary()),
            None => None,
        }
    }

    /// The retained events of an entity, oldest first, if it has an entry.
    pub fn log(&self, category: Category, id: &str) -> (r: Option<Vec<Event>>)
        requires
            self.wf(),
        ensures
            r.is_some() == (position(self@.entries, category, id@) >= 0),
            r.is_some() ==> r.unwrap()@ == self@.entries[position(
                self@.entries,
                category,
                id@,
            )].log,
    {
        proof {
            lemma_position(self@.entries, category, id@);
        }
        match self.find(category, id) {
            Some(i) => Some(self.entries[i].log.snapshot()),
            None => None,
        }
    }

    fn summaries(&self, category: Category, allocs: bool) -> (r: Vec<NamedSummary>)
        requires
            self.wf(),
        ensures
            r@.map_values(|s: NamedSummary| s@) == summaries_in(self@.entries, category, allocs),
    {
        let mut out: Vec<NamedSummary> = Vec::new();
        let mut i: usize = 0;
        assert(self@.entries.take(0) =~= Seq::<EntryView>::empty());
        assert(out@.map_values(|s: NamedSummary| s@) =~= Seq::<NamedSummaryView>::empty());
        while i < self.entries.len()
            invariant
                self.wf(),
                0 <= i <= self.entries@.len(),
                self@.entries.len() == self.entries@.len(),
                out@.map_values(|s: NamedSummary| s@) == summaries_in(
                    self@.entries.take(i as int),
                    category,
                    allocs,
                ),
            decreases self.entries@.len() - i,
        {
            let ghost before = out@;
            proof {
                assert(self@.entries.take(i as int + 1).drop_last() =~= self@.entries.take(
                    i as int,
                ));
                assert(self@.entries.take(i as int + 1).last() == self@.entries[i as int]);
            }
            if self.entries[i].category == category {
                let item = NamedSummary {
                    name: self.entries[i].id.clone(),
                    summary: if allocs {
                        self.entries[i].allocs.summary()
                    } else {
                        self.entries[i].stats.summary()
                    },
                };
                out.push(item);
                assert(out@.map_values(|s: NamedSummary| s@) =~= before.map_values(
                    |s: NamedSummary| s@,
                ).push(item@));
            }
            i = i + 1;
        }
        assert(self@.entries.take(i as int) =~= self@.entries);
        out
    }

    /// The duration statistics of every entity of one category, in the order
    /// in which the entities were first seen.
    pub fn all(&self, category: Category) -> (r: Vec<NamedSummary>)
        requires
            self.wf(),
        ensures
            r@.map_values(|s: NamedSummary| s@) == summaries_of(self@.entries, category),
    {
        self.summaries(category, false)
    }

    /// The allocation statistics of every entity of one category, in table
    /// order.
    pub fn all_allocs(&self, category: Category) -> (r: Vec<NamedSummary>)
        requires
            self.wf(),
        ensures
            r@.map_values(|s: NamedSummary| s@) == alloc_summaries_of(self@.entries, category),
    {
        self.summaries(category, true)
    }
}

/// With no guard held, an event that is offered is dropped: the registry
/// stays as it was.
pub proof fn law_no_guard_records_nothing(
    v: RegistryView,
    category: Category,
    id: Seq<char>,
    event: Event,
    log_capacity: nat,
    track_allocs: bool,
)
    requires
        v.guards == 0,
    ensures
        after_record(v, category, id, event, log_capacity, track_allocs) == v,
{
}

/// With a guard held, an event that is offered is recorded: afterwards the
/// entity has an entry, whose durations and log are those it had before (none
/// where it is new) with the event folded in, and no other entry has changed.
pub proof fn law_guard_records(
    v: RegistryView,
    category: Category,
    id: Seq<char>,
    event: Event,
    log_capacity: nat,
    track_allocs: bool,
)
    requires
        v.guards > 0,
    ensures
        ({
            let w = after_record(v, category, id, event, log_capacity, track_allocs);
            let p = position(v.entries, category, id);
            let q = position(w.entries, category, id);
            let start = if p >= 0 {
                v.entries[p]
            } else {
                fresh_entry(category, id)
            };
            &&& w.guards == v.guards
            &&& 0 <= q < w.entries.len()
            &&& q == if p >= 0 {
                p
            } else {
                v.entries.len() as int
            }
            &&& w.entries[q].durations == recorded(start.durations, event.duration_ns)
            &&& w.entries[q].log == pushed(start.log, log_capacity, event)
            &&& forall|k: int| 0 <= k < v.entries.len() && k != q ==> w.entries[k] == v.entries[k]
        }),
{
    let w = after_record(v, category, id, event, log_capacity, track_allocs);
    let p = position(v.entries, category, id);
    lemma_position(v.entries, category, id);
    lemma_position(w.entries, category, id);
    let q = position(w.entries, category, id);
    if p >= 0 {
        assert(w.entries[p].category == category && w.entries[p].id == id);
        if q < p && q >= 0 {
            assert(w.entries[q] == v.entries[q]);
        }
    } else {
        let n = v.entries.len() as int;
        assert(w.entries[n].category == category && w.entries[n].id == id);
        if q < n && q >= 0 {
            assert(w.entries[q] == v.entries[q]);
        }
    }
}

/// Guards nest. Taking a second guard and giving it back leaves collection
/// active and the table as it was.
pub proof fn law_inner_guard_keeps_collection(v: RegistryView)
    requires
        1 <= v.guards < u64::MAX,
    ensures
        after_release(after_acquire(v)) == v,
        after_release(after_acquire(v)).guards > 0,
{
    let w = after_release(after_acquire(v));
    assert(w.guards == v.guards);
    assert(w.entries == v.entries);
}

/// Giving back the last guard ends collection and clears the table.
pub proof fn law_last_release_clears(v: RegistryView)
    requires
        v.guards == 1,
    ensures
        after_release(v).guards == 0,
        after_release(v).entries == Seq::<EntryView>::empty(),
{
}

impl Registry {
    /// Whether allocation deltas are collected.
    pub fn tracks_allocs(&self) -> (r: bool)
        ensures
            r == self.spec_track_allocs(),
    {
        self.track_allocs
    }

    /// Number of events that each entity's log retains.
    pub fn log_capacity(&self) -> (r: usize)
        ensures
            r == self.spec_log_capacity(),
    {
        self.log_capacity
    }
}

impl Registry {
    /// No entity's log holds more events than the registry's log capacity.
    pub proof fn lemma_logs_bounded(&self)
        requires
            self.wf(),
        ensures
            forall|i: int|
                0 <= i < self@.entries.len() ==> (#[trigger] self@.entries[i]).log.len()
                    <= self.spec_log_capacity(),
    {
        assert forall|i: int| 0 <= i < self@.entries.len() implies (
        #[trigger] self@.entries[i]).log.len() <= self.spec_log_capacity() by {
            assert(self.entries@[i].wf(self.log_capacity as nat));
            self.entries@[i].log.lemma_bounded();
        }
    }
}

/// The registry after the observations that a thread gathered on its own are
/// folded into an entity's statistics. With no guard held they are dropped.
/// Otherwise the entity gets an entry where it has none, and the
/// observations follow those it holds, unless the two together are more than
/// `u64::MAX`, in which case none of them is taken.
pub open spec fn after_merge(
    v: RegistryView,
    category: Category,
    id: Seq<char>,
    local: Seq<u64>,
) -> RegistryView {
    if v.guards == 0 {
        v
    } else {
        let w = after_get_or_create(v, category, id);
        let p = position(w.entries, category, id);
        if w.entries[p].durations.len() + local.len() <= u64::MAX {
            RegistryView {
                guards: w.guards,
                entries: w.entries.update(
                    p,
                    EntryView { durations: w.entries[p].durations + local, ..w.entries[p] },
                ),
            }
        } else {
            w
        }
    }
}

impl Registry {
    /// Folds the durations that a thread gathered on its own into an
    /// entity's statistics. The result says whether they were taken.
    pub fn merge_local(&mut self, category: Category, id: &str, local: &StatAccumulator) -> (kept:
        bool)
        requires
            old(self).wf(),
            local.wf(),
        ensures
            final(self).wf(),
            final(self)@ == after_merge(old(self)@, category, id@, local@),
            kept == (old(self)@.guards > 0 && ({
                let w = after_get_or_create(old(self)@, category, id@);
                w.entries[position(w.entries, category, id@)].durations.len() + local@.len()
                    <= u64::MAX
            })),
            final(self).spec_log_capacity() == old(self).spec_log_capacity(),
            final(self).spec_track_allocs() == old(self).spec_track_allocs(),
    {
        let idx = match self.get_or_create(category, id) {
            Some(i) => i,
            None => {
                return false;
            },
        };
        let ghost mid = self@;
        proof {
            lemma_position(mid.entries, category, id@);
        }
        let kept = self.entries[idx].stats.merge(local);
        proof {
            let goal = after_merge(old(self)@, category, id@, local@);
            assert(self@.entries =~= goal.entries);
            lemma_same_names_distinct(mid.entries, self@.entries);
        }
        kept
    }
}

} // verus!

//! Read-only views of the registry for consumers outside the process.
//!
//! A document that belongs to a feature that is switched off is reported as
//! not available, which is not the same as a document without entries.

use vstd::prelude::*;
use crate::event_log::Event;
use crate::registry::{
    alloc_summaries_of,
    position,
    summaries_of,
    Category,
    EntryView,
    NamedSummary,
    NamedSummaryView,
    Registry,
};

verus! {

/// The allocation document.
pub enum AllocExport {
    /// Allocation tracking is off.
    NotAvailable,
    /// Allocation tracking is on; the list may be empty.
    Available(Vec<NamedSummary>),
}

/// The mathematical content of an `AllocExport`.
pub enum AllocExportView {
    NotAvailable,
    Available(Seq<NamedSummaryView>),
}

impl View for AllocExport {
    type V = AllocExportView;

    open spec fn view(&self) -> AllocExportView {
        match self {
            AllocExport::NotAvailable => AllocExportView::NotAvailable,
            AllocExport::Available(v) => AllocExportView::Available(
                v@.map_values(|s: NamedSummary| s@),
            ),
        }
    }
}

/// The allocation document of a table: not available where tracking is off,
/// otherwise the allocation statistics of the functions.
pub open spec fn alloc_export_of(track_allocs: bool, entries: Seq<EntryView>) -> AllocExportView {
    if track_allocs {
        AllocExportView::Available(alloc_summaries_of(entries, Category::Function))
    } else {
        AllocExportView::NotAvailable
    }
}

impl AllocExport {
    /// Whether the document is there at all.
    pub fn is_available(&self) -> (r: bool)
        ensures
            r == (self@ != AllocExportView::NotAvailable),
    {
        match self {
            AllocExport::NotAvailable => false,
            AllocExport::Available(_) => true,
        }
    }
}

/// The timing document: the duration statistics of every function.
pub fn export_functions(registry: &Registry) -> (r: Vec<NamedSummary>)
    requires
        registry.wf(),
    ensures
        r@.map_values(|s: NamedSummary| s@) == summaries_of(
            registry@.entries,
            Category::Function,
        ),
{
    registry.all(Category::Function)
}

/// The allocation document.
pub fn export_allocations(registry: &Registry) -> (r: AllocExport)
    requires
        registry.wf(),
    ensures
        r@ == alloc_export_of(registry.spec_track_allocs(), registry@.entries),
{
    if registry.tracks_allocs() {
        AllocExport::Available(registry.all_allocs(Category::Function))
    } else {
        AllocExport::NotAvailable
    }
}

/// The recent events of an entity, oldest first; `None` where the entity has
/// no entry.
pub fn export_log(registry: &Registry, category: Category, id: &str) -> (r: Option<Vec<Event>>)
    requires
        registry.wf(),
    ensures
        r.is_some() == (position(registry@.entries, category, id@) >= 0),
        r.is_some() ==> r.unwrap()@ == registry@.entries[position(
            registry@.entries,
            category,
            id@,
        )].log,
        r.is_some() ==> r.unwrap()@.len() <= registry.spec_log_capacity(),
{
    let r = registry.log(category, id);
    proof {
        registry.lemma_logs_bounded();
        crate::registry::lemma_position(registry@.entries, category, id@);
    }
    r
}

/// The allocation document of a table with tracking off differs from that
/// of any table with tracking on, an empty one included: a reader can tell
/// "switched off" from "nothing measured".
pub proof fn law_disabled_is_not_empty(off: Seq<EntryView>, on: Seq<EntryView>)
    ensures
        alloc_export_of(false, off) != alloc_export_of(true, on),
        alloc_export_of(false, off) != alloc_export_of(true, Seq::<EntryView>::empty()),
        alloc_export_of(true, Seq::<EntryView>::empty()) == AllocExportView::Available(
            Seq::<NamedSummaryView>::empty(),
        ),
{
}

} // verus!

//! The entry point for call sites: a span is begun before the measured body
//! and ended on every way out of it, once.

use vstd::prelude::*;
use crate::event_log::{Event, Outcome};
use crate::registry::{after_record, Category, Registry};

verus! {

/// Whether a call site is measured.
#[derive(Clone, Copy, Debug, PartialEq, Eq, Structural)]
pub enum Directive {
    Measure,
    /// The call site is annotated but asks to be left out.
    Skip,
}

/// A span that has begun and not yet ended.
#[derive(Clone, Copy, Debug, PartialEq, Eq)]
pub struct Span {
    /// When the span began, in nanoseconds since the registry's epoch.
    pub started_ns: u64,
}

/// The event of a span that began at `started_ns` and ended at `now_ns`. A
/// clock that ran backwards gives a duration of 0.
pub open spec fn event_of(
    started_ns: u64,
    now_ns: u64,
    alloc_delta: Option<i64>,
    outcome: Outcome,
) -> Event {
    Event {
        timestamp_ns: now_ns,
        duration_ns: if now_ns >= started_ns {
            (now_ns - started_ns) as u64
        } else {
            0
        },
        alloc_delta,
        outcome,
    }
}

/// Begins a span at the given time.
pub fn begin_span(now_ns: u64) -> (r: Span)
    ensures
        r.started_ns == now_ns,
{
    Span { started_ns: now_ns }
}

/// Ends a span at the given time and makes its event.
pub fn end_span(span: Span, now_ns: u64, alloc_delta: Option<i64>, outcome: Outcome) -> (r: Event)
    ensures
        r == event_of(span.started_ns, now_ns, alloc_delta, outcome),
{
    Event {
        timestamp_ns: now_ns,
        duration_ns: if now_ns >= span.started_ns {
            now_ns - span.started_ns
        } else {
            0
        },
        alloc_delta,
        outcome,
    }
}

/// Ends a span and offers its event to the registry. A call site that asks
/// to be skipped records nothing, and neither does one that ends while no
/// guard is held. The result says whether the event was recorded.
pub fn record_span(
    registry: &mut Registry,
    directive: Directive,
    category: Category,
    id: &str,
    span: Span,
    now_ns: u64,
    alloc_delta: Option<i64>,
    outcome: Outcome,
) -> (kept: bool)
    requires
        old(registry).wf(),
    ensures
        final(registry).wf(),
        final(registry).spec_log_capacity() == old(registry).spec_log_capacity(),
        final(registry).spec_track_allocs() == old(registry).spec_track_allocs(),
        kept == (directive == Directive::Measure && old(registry)@.guards > 0),
        directive == Directive::Skip ==> final(registry)@ == old(registry)@,
        directive == Directive::Measure ==> final(registry)@ == after_record(
            old(registry)@,
            category,
            id@,
            event_of(span.started_ns, now_ns, alloc_delta, outcome),
            old(registry).spec_log_capacity(),
            old(registry).spec_track_allocs(),
        ),
{
    match directive {
        Directive::Skip => false,
        Directive::Measure => {
            let event = end_span(span, now_ns, alloc_delta, outcome);
            registry.record(category, id, event)
        },
    }
}

} // verus!

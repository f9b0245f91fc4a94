use hotpath::event_log::{Event, Outcome};
use hotpath::export::{export_allocations, export_functions, export_log, AllocExport};
use hotpath::recorder::{begin_span, end_span, record_span, Directive};
use hotpath::registry::{alloc_bytes_of, Category, Registry};
use hotpath::stats::StatAccumulator;

fn event(duration_ns: u64) -> Event {
    Event { timestamp_ns: 5, duration_ns, alloc_delta: None, outcome: Outcome::Success }
}

fn event_with_alloc(duration_ns: u64, delta: i64) -> Event {
    Event { timestamp_ns: 5, duration_ns, alloc_delta: Some(delta), outcome: Outcome::Success }
}

#[test]
fn nothing_is_recorded_without_a_guard() {
    let mut reg = Registry::new(8, false);
    assert!(!reg.is_active());
    assert!(!reg.record(Category::Function, "app::work", event(10)));
    assert_eq!(reg.len(), 0);
    assert!(reg.summary(Category::Function, "app::work").is_none());
    assert!(reg.all(Category::Function).is_empty());
    assert_eq!(reg.get_or_create(Category::Function, "app::work"), None);
    assert_eq!(reg.len(), 0);
}

#[test]
fn events_are_recorded_while_a_guard_is_held() {
    let mut reg = Registry::new(8, false);
    assert!(reg.acquire());
    assert!(reg.is_active());
    assert!(reg.record(Category::Function, "app::work", event(10)));
    assert!(reg.record(Category::Function, "app::work", event(30)));
    let s = reg.summary(Category::Function, "app::work").unwrap();
    assert_eq!(s.count, 2);
    assert_eq!(s.total, 40);
    assert_eq!(s.min, 10);
    assert_eq!(s.max, 30);
    assert_eq!(s.mean, 20);
    assert_eq!(reg.log(Category::Function, "app::work").unwrap(), vec![event(10), event(30)]);
}

#[test]
fn inner_guard_release_keeps_collection_active() {
    let mut reg = Registry::new(8, false);
    assert!(reg.acquire());
    assert!(reg.record(Category::Function, "f", event(1)));
    assert!(reg.acquire());
    assert_eq!(reg.guards(), 2);
    reg.release();
    assert!(reg.is_active());
    assert_eq!(reg.guards(), 1);
    assert!(reg.record(Category::Function, "f", event(2)));
    assert_eq!(reg.summary(Category::Function, "f").unwrap().count, 2);
}

#[test]
fn last_release_clears_the_table() {
    let mut reg = Registry::new(8, false);
    assert!(reg.acquire());
    assert!(reg.record(Category::Function, "f", event(1)));
    assert!(reg.record(Category::Channel, "c", event(1)));
    assert_eq!(reg.len(), 2);
    reg.release();
    assert!(!reg.is_active());
    assert_eq!(reg.len(), 0);
    assert!(reg.summary(Category::Function, "f").is_none());
    // a later scope starts from nothing
    assert!(reg.acquire());
    assert!(reg.record(Category::Function, "f", event(9)));
    assert_eq!(reg.summary(Category::Function, "f").unwrap().count, 1);
}

#[test]
fn release_without_guard_changes_nothing() {
    let mut reg = Registry::new(8, false);
    reg.release();
    assert_eq!(reg.guards(), 0);
    assert!(!reg.is_active());
}

#[test]
fn categories_are_separate_namespaces() {
    let mut reg = Registry::new(8, false);
    assert!(reg.acquire());
    assert!(reg.record(Category::Function, "x", event(1)));
    assert!(reg.record(Category::Channel, "x", event(2)));
    assert!(reg.record(Category::Stream, "x", event(3)));
    assert_eq!(reg.len(), 3);
    assert_eq!(reg.summary(Category::Function, "x").unwrap().total, 1);
    assert_eq!(reg.summary(Category::Channel, "x").unwrap().total, 2);
    assert_eq!(reg.summary(Category::Stream, "x").unwrap().total, 3);
    assert!(reg.summary(Category::Thread, "x").is_none());
}

#[test]
fn all_lists_one_category_in_first_seen_order() {
    let mut reg = Registry::new(8, false);
    assert!(reg.acquire());
    assert!(reg.record(Category::Function, "b", event(1)));
    assert!(reg.record(Category::Channel, "chan", event(2)));
    assert!(reg.record(Category::Function, "a", event(3)));
    assert!(reg.record(Category::Function, "b", event(5)));
    let all = reg.all(Category::Function);
    assert_eq!(all.len(), 2);
    assert_eq!(all[0].name, "b");
    assert_eq!(all[0].summary.count, 2);
    assert_eq!(all[0].summary.total, 6);
    assert_eq!(all[1].name, "a");
    assert_eq!(all[1].summary.count, 1);
    let channels = reg.all(Category::Channel);
    assert_eq!(channels.len(), 1);
    assert_eq!(channels[0].name, "chan");
}

#[test]
fn get_or_create_makes_an_empty_entry_once() {
    let mut reg = Registry::new(8, false);
    assert!(reg.acquire());
    assert_eq!(reg.get_or_create(Category::Function, "f"), Some(0));
    assert_eq!(reg.get_or_create(Category::Function, "g"), Some(1));
    assert_eq!(reg.get_or_create(Category::Function, "f"), Some(0));
    assert_eq!(reg.len(), 2);
    assert_eq!(reg.find(Category::Function, "g"), Some(1));
    assert_eq!(reg.find(Category::Function, "h"), None);
    assert_eq!(reg.summary(Category::Function, "f").unwrap().count, 0);
}

#[test]
fn remove_takes_an_entity_out() {
    let mut reg = Registry::new(8, false);
    assert!(reg.acquire());
    assert!(reg.record(Category::Function, "a", event(1)));
    assert!(reg.record(Category::Function, "b", event(2)));
    assert!(reg.record(Category::Function, "c", event(3)));
    assert!(reg.remove(Category::Function, "b"));
    assert!(!reg.remove(Category::Function, "b"));
    assert!(!reg.remove(Category::Channel, "a"));
    let names: Vec<String> = reg.all(Category::Function).into_iter().map(|s| s.name).collect();
    assert_eq!(names, vec!["a".to_string(), "c".to_string()]);
    assert_eq!(reg.summary(Category::Function, "c").unwrap().total, 3);
}

#[test]
fn entity_log_is_bounded_by_the_registry_capacity() {
    let mut reg = Registry::new(2, false);
    assert_eq!(reg.log_capacity(), 2);
    assert!(reg.acquire());
    for n in 1..=5 {
        assert!(reg.record(Category::Function, "f", event(n)));
    }
    assert_eq!(reg.summary(Category::Function, "f").unwrap().count, 5);
    assert_eq!(export_log(&reg, Category::Function, "f").unwrap(), vec![event(4), event(5)]);
    assert!(export_log(&reg, Category::Function, "nope").is_none());
}

#[test]
fn alloc_bytes_of_ignores_shrinking() {
    assert_eq!(alloc_bytes_of(0), 0);
    assert_eq!(alloc_bytes_of(4096), 4096);
    assert_eq!(alloc_bytes_of(-4096), 0);
    assert_eq!(alloc_bytes_of(i64::MAX), i64::MAX as u64);
    assert_eq!(alloc_bytes_of(i64::MIN), 0);
}

#[test]
fn allocation_export_tells_off_from_empty() {
    let mut off = Registry::new(4, false);
    assert!(off.acquire());
    assert!(!off.tracks_allocs());
    let doc = export_allocations(&off);
    assert!(!doc.is_available());
    assert!(matches!(doc, AllocExport::NotAvailable));

    let mut on = Registry::new(4, true);
    assert!(on.acquire());
    let doc = export_allocations(&on);
    assert!(doc.is_available());
    match doc {
        AllocExport::Available(list) => assert!(list.is_empty()),
        AllocExport::NotAvailable => panic!("tracking is on"),
    }
    // the timing document of both is simply empty
    assert!(export_functions(&off).is_empty());
    assert!(export_functions(&on).is_empty());
}

#[test]
fn allocation_statistics_follow_the_deltas() {
    let mut reg = Registry::new(4, true);
    assert!(reg.acquire());
    assert!(reg.record(Category::Function, "f", event_with_alloc(10, 100)));
    assert!(reg.record(Category::Function, "f", event_with_alloc(10, -50)));
    assert!(reg.record(Category::Function, "f", event(10)));
    assert!(reg.record(Category::Function, "f", event_with_alloc(10, 300)));
    match export_allocations(&reg) {
        AllocExport::Available(list) => {
            assert_eq!(list.len(), 1);
            assert_eq!(list[0].name, "f");
            assert_eq!(list[0].summary.count, 3);
            assert_eq!(list[0].summary.total, 400);
            assert_eq!(list[0].summary.min, 0);
            assert_eq!(list[0].summary.max, 300);
        },
        AllocExport::NotAvailable => panic!("tracking is on"),
    }
    assert_eq!(reg.summary(Category::Function, "f").unwrap().count, 4);
}

#[test]
fn allocation_deltas_are_ignored_when_tracking_is_off() {
    let mut reg = Registry::new(4, false);
    assert!(reg.acquire());
    assert!(reg.record(Category::Function, "f", event_with_alloc(10, 100)));
    let allocs = reg.all_allocs(Category::Function);
    assert_eq!(allocs.len(), 1);
    assert_eq!(allocs[0].summary.count, 0);
}

#[test]
fn span_duration_is_end_minus_begin() {
    let span = begin_span(1_000);
    let e = end_span(span, 1_750, Some(-3), Outcome::EarlyReturn);
    assert_eq!(e.timestamp_ns, 1_750);
    assert_eq!(e.duration_ns, 750);
    assert_eq!(e.alloc_delta, Some(-3));
    assert_eq!(e.outcome, Outcome::EarlyReturn);
}

#[test]
fn span_with_backward_clock_has_zero_duration() {
    let span = begin_span(1_000);
    let e = end_span(span, 900, None, Outcome::Failure);
    assert_eq!(e.duration_ns, 0);
    assert_eq!(e.timestamp_ns, 900);
}

#[test]
fn skipped_call_sites_record_nothing() {
    let mut reg = Registry::new(4, false);
    assert!(reg.acquire());
    let span = begin_span(10);
    assert!(!record_span(
        &mut reg,
        Directive::Skip,
        Category::Function,
        "f",
        span,
        20,
        None,
        Outcome::Success
    ));
    assert_eq!(reg.len(), 0);
    assert!(record_span(
        &mut reg,
        Directive::Measure,
        Category::Function,
        "f",
        span,
        25,
        None,
        Outcome::Failure
    ));
    let log = reg.log(Category::Function, "f").unwrap();
    assert_eq!(log.len(), 1);
    assert_eq!(log[0].duration_ns, 15);
    assert_eq!(log[0].outcome, Outcome::Failure);
}

#[test]
fn measured_span_without_guard_is_dropped() {
    let mut reg = Registry::new(4, false);
    let span = begin_span(10);
    assert!(!record_span(
        &mut reg,
        Directive::Measure,
        Category::Function,
        "f",
        span,
        20,
        None,
        Outcome::Success
    ));
    assert_eq!(reg.len(), 0);
}

#[test]
fn annotated_function_called_five_times() {
    let mut reg = Registry::new(16, false);
    assert!(reg.acquire());
    let mut now = 0u64;
    for jitter in [120_000u64, 50_000, 300_000, 10_000, 90_000] {
        let span = begin_span(now);
        now += 10_000_000 + jitter;
        assert!(record_span(
            &mut reg,
            Directive::Measure,
            Category::Function,
            "demo::sleepy",
            span,
            now,
            None,
            Outcome::Success
        ));
    }
    let exported = export_functions(&reg);
    assert_eq!(exported.len(), 1);
    let s = exported[0].summary;
    assert_eq!(exported[0].name, "demo::sleepy");
    assert_eq!(s.count, 5);
    assert_eq!(s.min, 10_010_000);
    assert_eq!(s.max, 10_300_000);
    assert_eq!(s.mean, 10_114_000);
    assert!(s.mean >= 10_000_000 && s.mean < 10_500_000);
}

#[test]
fn thread_local_statistics_are_merged_in() {
    let mut local = StatAccumulator::new();
    for d in [5u64, 50, 500] {
        assert!(local.record(d));
    }
    let mut reg = Registry::new(4, false);
    // dropped while no guard is held
    assert!(!reg.merge_local(Category::Function, "f", &local));
    assert_eq!(reg.len(), 0);
    assert!(reg.acquire());
    assert!(reg.record(Category::Function, "f", event(7)));
    assert!(reg.merge_local(Category::Function, "f", &local));
    assert!(reg.merge_local(Category::Function, "g", &local));
    let f = reg.summary(Category::Function, "f").unwrap();
    assert_eq!(f.count, 4);
    assert_eq!(f.total, 562);
    assert_eq!(f.min, 5);
    assert_eq!(f.max, 500);
    let g = reg.summary(Category::Function, "g").unwrap();
    assert_eq!(g, local.summary());
    // merging statistics adds nothing to the log
    assert_eq!(reg.log(Category::Function, "f").unwrap().len(), 1);
    assert!(reg.log(Category::Function, "g").unwrap().is_empty());
}

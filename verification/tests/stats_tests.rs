use hotpath::stats::{bit_length, StatAccumulator};

fn filled(values: &[u64]) -> StatAccumulator {
    let mut acc = StatAccumulator::new();
    for v in values {
        assert!(acc.record(*v));
    }
    acc
}

#[test]
fn empty_accumulator_reports_zeros() {
    let acc = StatAccumulator::new();
    let s = acc.summary();
    assert_eq!(s.count, 0);
    assert_eq!(s.total, 0);
    assert_eq!(s.min, 0);
    assert_eq!(s.max, 0);
    assert_eq!(s.mean, 0);
    assert_eq!(s.p50, 0);
    assert_eq!(s.p99, 0);
    assert_eq!(acc.min(), None);
    assert_eq!(acc.max(), None);
}

#[test]
fn count_total_min_max_are_exact() {
    let values = [700u64, 3, 12_000, 45, 45, 9_999_999_999];
    let acc = filled(&values);
    let s = acc.summary();
    assert_eq!(s.count, 6);
    assert_eq!(s.total, 700 + 3 + 12_000 + 45 + 45 + 9_999_999_999u128);
    assert_eq!(s.min, 3);
    assert_eq!(s.max, 9_999_999_999);
    assert_eq!(acc.count(), 6);
    assert_eq!(acc.total(), 10_000_012_792);
    assert_eq!(acc.min(), Some(3));
    assert_eq!(acc.max(), Some(9_999_999_999));
}

#[test]
fn mean_rounds_down() {
    let acc = filled(&[1, 2, 4]);
    assert_eq!(acc.mean(), 2);
    let acc = filled(&[10, 11]);
    assert_eq!(acc.mean(), 10);
}

#[test]
fn total_does_not_overflow_u64() {
    let acc = filled(&[u64::MAX, u64::MAX, u64::MAX]);
    assert_eq!(acc.total(), 3 * (u64::MAX as u128));
    assert_eq!(acc.mean(), u64::MAX);
}

#[test]
fn bit_length_of_edges() {
    assert_eq!(bit_length(0), 0);
    assert_eq!(bit_length(1), 1);
    assert_eq!(bit_length(2), 2);
    assert_eq!(bit_length(3), 2);
    assert_eq!(bit_length(1023), 10);
    assert_eq!(bit_length(1024), 11);
    assert_eq!(bit_length(u64::MAX), 64);
}

#[test]
fn percentile_of_single_value_is_that_value() {
    let acc = filled(&[1000]);
    assert_eq!(acc.percentile(50), 1000);
    assert_eq!(acc.percentile(99), 1000);
    assert_eq!(acc.percentile(0), 1000);
}

#[test]
fn percentile_is_bucket_top_capped_by_max() {
    // 1..=100: ranks 50, 90, 99 are the values 50, 90, 99.
    let values: Vec<u64> = (1..=100).collect();
    let acc = filled(&values);
    // 50 has bit length 6, whose largest value is 63.
    assert_eq!(acc.percentile(50), 63);
    // 90 and 99 have bit length 7 (top 127), capped by the maximum 100.
    assert_eq!(acc.percentile(90), 100);
    assert_eq!(acc.percentile(99), 100);
    assert_eq!(acc.percentile(100), 100);
    assert_eq!(acc.percentile(250), 100);
    // rank 1 is the value 1.
    assert_eq!(acc.percentile(1), 1);
}

#[test]
fn percentile_estimate_is_within_a_factor_of_two() {
    let values = [5u64, 17, 300, 301, 302, 4_000, 65_000, 70_000, 1_000_000, 3];
    let acc = filled(&values);
    let mut sorted = values.to_vec();
    sorted.sort();
    for p in [1u64, 10, 25, 50, 75, 90, 99, 100] {
        let rank = ((values.len() as u64 * p + 99) / 100).max(1) as usize;
        let truth = sorted[rank - 1];
        let est = acc.percentile(p);
        assert!(truth <= est, "p{}: {} > {}", p, truth, est);
        assert!(est / 2 < truth, "p{}: {} / 2 >= {}", p, est, truth);
        assert!(est >= 3 && est <= 1_000_000);
    }
}

#[test]
fn five_calls_of_ten_milliseconds() {
    let durations = [10_120_000u64, 10_050_000, 10_300_000, 10_010_000, 10_090_000];
    let acc = filled(&durations);
    let s = acc.summary();
    assert_eq!(s.count, 5);
    assert_eq!(s.min, 10_010_000);
    assert_eq!(s.max, 10_300_000);
    assert_eq!(s.total, 50_570_000);
    assert_eq!(s.mean, 10_114_000);
    assert!(s.min >= 10_000_000 && s.max < 11_000_000);
    assert!(s.p50 >= s.min && s.p50 <= s.max);
    assert!(s.p99 >= s.p50 && s.p99 <= s.max);
}

#[test]
fn merge_equals_recording_in_sequence() {
    let a = [4u64, 99, 1_000];
    let b = [2u64, 50_000, 7, 7];
    let mut left = filled(&a);
    let right = filled(&b);
    assert!(left.merge(&right));
    let mut all = a.to_vec();
    all.extend_from_slice(&b);
    let whole = filled(&all);
    assert_eq!(left.summary(), whole.summary());
    assert_eq!(left.count(), 7);
    assert_eq!(left.min(), Some(2));
    assert_eq!(left.max(), Some(50_000));
}

#[test]
fn merge_with_empty_changes_nothing() {
    let mut left = filled(&[8, 9]);
    let before = left.summary();
    assert!(left.merge(&StatAccumulator::new()));
    assert_eq!(left.summary(), before);
    let mut empty = StatAccumulator::new();
    assert!(empty.merge(&left));
    assert_eq!(empty.summary(), before);
}

use jolt::latency::LatencyHistogram;

#[test]
fn fresh_histogram_is_empty() {
    let h = LatencyHistogram::new().unwrap();
    assert!(h.is_empty());
    assert_eq!(h.min_ms(), 0);
    assert_eq!(h.max_ms(), 0);
    assert_eq!(h.mean_ms(), 0);
    assert!(h.recorded_table().is_empty());
}

#[test]
fn small_values_are_tracked_exactly() {
    let mut h = LatencyHistogram::new().unwrap();
    h.record_ms(10);
    h.record_ms(20);
    h.record_ms(30);
    assert!(!h.is_empty());
    assert_eq!(h.min_ms(), 10);
    assert_eq!(h.max_ms(), 30);
    assert_eq!(h.mean_ms(), 20);
}

#[test]
fn values_above_ceiling_are_dropped() {
    let mut h = LatencyHistogram::new().unwrap();
    h.record_ms(3_600_001);
    assert!(h.is_empty());
    h.record_ms(3_600_000);
    assert!(!h.is_empty());
}

#[test]
fn recorded_table_is_ascending_with_frequencies() {
    let mut h = LatencyHistogram::new().unwrap();
    h.record_ms(20);
    h.record_ms(10);
    h.record_ms(10);
    let table = h.recorded_table();
    assert_eq!(table, vec![(10, 2), (20, 1)]);
}

#[test]
fn merge_accumulates_both_sides() {
    let mut a = LatencyHistogram::new().unwrap();
    a.record_ms(10);
    a.record_ms(20);
    let mut b = LatencyHistogram::new().unwrap();
    b.record_ms(30);
    a.merge_from(&b);
    assert_eq!(a.min_ms(), 10);
    assert_eq!(a.max_ms(), 30);
    assert_eq!(a.recorded_table(), vec![(10, 1), (20, 1), (30, 1)]);
}

#[test]
fn merge_order_does_not_matter() {
    let mut a1 = LatencyHistogram::new().unwrap();
    a1.record_ms(5);
    a1.record_ms(40);
    let mut b1 = LatencyHistogram::new().unwrap();
    b1.record_ms(17);
    b1.record_ms(17);

    let mut a2 = LatencyHistogram::new().unwrap();
    a2.record_ms(5);
    a2.record_ms(40);
    let mut b2 = LatencyHistogram::new().unwrap();
    b2.record_ms(17);
    b2.record_ms(17);

    // one way
    a1.merge_from(&b1);
    // the other way
    b2.merge_from(&a2);

    assert_eq!(a1.min_ms(), b2.min_ms());
    assert_eq!(a1.max_ms(), b2.max_ms());
    assert_eq!(a1.mean_ms(), b2.mean_ms());
    assert_eq!(
        a1.value_at_percentile(50),
        b2.value_at_percentile(50)
    );
    assert_eq!(a1.recorded_table(), b2.recorded_table());
}

#[test]
fn merge_grouping_does_not_matter() {
    let mk = |vals: &[u64]| {
        let mut h = LatencyHistogram::new().unwrap();
        for v in vals {
            h.record_ms(*v);
        }
        h
    };
    let mut left = mk(&[1, 2]);
    let b = mk(&[3]);
    let c = mk(&[4, 4]);
    // (a + b) + c
    left.merge_from(&b);
    left.merge_from(&c);
    // a + (b + c)
    let mut right = mk(&[1, 2]);
    let mut bc = mk(&[3]);
    bc.merge_from(&c);
    right.merge_from(&bc);
    assert_eq!(left.recorded_table(), right.recorded_table());
    assert_eq!(left.mean_ms(), right.mean_ms());
}

#[test]
fn percentile_fifty_of_three_values() {
    let mut h = LatencyHistogram::new().unwrap();
    h.record_ms(10);
    h.record_ms(20);
    h.record_ms(30);
    assert_eq!(h.value_at_percentile(50), 20);
}

#[test]
fn percentile_hundred_is_the_maximum() {
    let mut h = LatencyHistogram::new().unwrap();
    h.record_ms(7);
    h.record_ms(300);
    h.record_ms(41);
    assert_eq!(h.value_at_percentile(100), h.max_ms());
    for p in [0, 25, 50, 75, 90, 99] {
        assert!(h.value_at_percentile(p) <= h.value_at_percentile(100));
    }
}

#[test]
fn single_value_dominates_all_statistics() {
    let mut h = LatencyHistogram::new().unwrap();
    for _ in 0..100 {
        h.record_ms(50);
    }
    assert_eq!(h.min_ms(), 50);
    assert_eq!(h.max_ms(), 50);
    assert_eq!(h.mean_ms(), 50);
    assert_eq!(h.value_at_percentile(50), 50);
    assert_eq!(h.recorded_table(), vec![(50, 100)]);
}

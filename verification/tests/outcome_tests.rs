use jolt::latency::LatencyHistogram;
use jolt::outcome::{apply_outcomes, record_outcome, RequestOutcome, Tally};

#[test]
fn success_increments_success_and_records_latency() {
    let mut t = Tally::new();
    let mut h = LatencyHistogram::new().unwrap();
    record_outcome(
        &mut t,
        &mut h,
        &RequestOutcome::Completed { status: 200, elapsed_ms: 12 },
    );
    assert_eq!(t.success, 1);
    assert_eq!(t.failure, 0);
    assert_eq!(h.recorded_table(), vec![(12, 1)]);
}

#[test]
fn every_two_xx_status_is_a_success() {
    let mut t = Tally::new();
    let mut h = LatencyHistogram::new().unwrap();
    for status in [200u16, 201, 204, 226, 299] {
        record_outcome(
            &mut t,
            &mut h,
            &RequestOutcome::Completed { status, elapsed_ms: 5 },
        );
    }
    assert_eq!(t.success, 5);
    assert_eq!(t.failure, 0);
}

#[test]
fn non_two_xx_is_a_failure_and_leaves_histogram_untouched() {
    let mut t = Tally::new();
    let mut h = LatencyHistogram::new().unwrap();
    for status in [100u16, 199, 300, 301, 404, 500, 503] {
        record_outcome(
            &mut t,
            &mut h,
            &RequestOutcome::Completed { status, elapsed_ms: 12 },
        );
    }
    assert_eq!(t.success, 0);
    assert_eq!(t.failure, 7);
    assert!(h.is_empty());
}

#[test]
fn transport_failure_is_a_failure_without_latency() {
    let mut t = Tally::new();
    let mut h = LatencyHistogram::new().unwrap();
    record_outcome(&mut t, &mut h, &RequestOutcome::TransportFailed);
    assert_eq!(t.success, 0);
    assert_eq!(t.failure, 1);
    assert!(h.is_empty());
}

#[test]
fn every_attempt_lands_in_exactly_one_counter() {
    let mut t = Tally::new();
    let mut h = LatencyHistogram::new().unwrap();
    let outcomes = vec![
        RequestOutcome::Completed { status: 200, elapsed_ms: 3 },
        RequestOutcome::Completed { status: 500, elapsed_ms: 9 },
        RequestOutcome::TransportFailed,
        RequestOutcome::Completed { status: 204, elapsed_ms: 4 },
    ];
    apply_outcomes(&mut t, &mut h, &outcomes);
    assert_eq!(t.success + t.failure, outcomes.len() as u64);
    assert_eq!(t.success, 2);
    assert_eq!(t.failure, 2);
    assert_eq!(h.recorded_table(), vec![(3, 1), (4, 1)]);
}

#[test]
fn all_server_errors_leave_an_empty_histogram() {
    let mut t = Tally::new();
    let mut h = LatencyHistogram::new().unwrap();
    let outcomes: Vec<RequestOutcome> = (0..10)
        .map(|i| RequestOutcome::Completed { status: 500, elapsed_ms: 10 + i })
        .collect();
    apply_outcomes(&mut t, &mut h, &outcomes);
    assert_eq!(t.success, 0);
    assert_eq!(t.failure, 10);
    assert!(h.is_empty());
    assert_eq!(h.min_ms(), 0);
    assert_eq!(h.max_ms(), 0);
    assert_eq!(h.mean_ms(), 0);
}

#[test]
fn success_above_recordable_ceiling_counts_but_is_not_recorded() {
    let mut t = Tally::new();
    let mut h = LatencyHistogram::new().unwrap();
    record_outcome(
        &mut t,
        &mut h,
        &RequestOutcome::Completed { status: 200, elapsed_ms: 3_600_001 },
    );
    assert_eq!(t.success, 1);
    assert!(h.is_empty());
}

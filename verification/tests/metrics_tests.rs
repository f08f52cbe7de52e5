use lob_kernel::metrics::{
    sample_of, LatencyStats, Stopwatch, ThroughputTracker, WindowCount, MAX_SAMPLE,
};
use lob_kernel::session::{fills_among, synth_update};
use lob_kernel::types::Side;

#[test]
fn basic_recording_increments_count() {
    let mut stats = LatencyStats::new();
    stats.record(10);
    stats.record(20);
    assert_eq!(stats.count(), 2);
}

#[test]
fn latency_stats_start_empty_and_take_wide_samples() {
    let mut stats = LatencyStats::default();
    assert_eq!(stats.count(), 0);
    stats.record(1);
    stats.record(MAX_SAMPLE);
    assert_eq!(stats.count(), 2);
    assert_eq!(stats.histogram().inner.max() >= MAX_SAMPLE / 2, true);
}

#[test]
fn samples_are_clamped() {
    assert_eq!(sample_of(0), 1);
    assert_eq!(sample_of(1), 1);
    assert_eq!(sample_of(12345), 12345);
    assert_eq!(sample_of(MAX_SAMPLE as u128), MAX_SAMPLE);
    assert_eq!(sample_of(MAX_SAMPLE as u128 + 1), MAX_SAMPLE);
    assert_eq!(sample_of(u128::MAX), MAX_SAMPLE);
    let watch = Stopwatch::start();
    let elapsed = watch.elapsed_sample();
    assert!(1 <= elapsed && elapsed <= MAX_SAMPLE);
}

#[test]
fn throughput_window_closes_when_its_length_has_passed() {
    let mut tracker = ThroughputTracker::new(1_000, 500);
    tracker.record(3);
    tracker.record(4);
    assert_eq!(tracker.close_window(1_499), None);
    assert_eq!(tracker.count, 7);
    assert_eq!(
        tracker.close_window(1_500),
        Some(WindowCount { events: 7, elapsed_ns: 1_000 })
    );
    assert_eq!(tracker, ThroughputTracker { window_ns: 1_000, window_start_ns: 1_500, count: 0 });
    // A clock that goes backwards counts as no time passed.
    assert_eq!(tracker.close_window(100), None);
    tracker.record(u64::MAX);
    tracker.record(1);
    assert_eq!(tracker.count, u64::MAX);
}

#[test]
fn synthetic_tape_steps_stay_above_zero() {
    let (mid, update) = synth_update(100_000, -1, Side::Bid, 3, false, 7);
    assert_eq!(mid, 99_999);
    assert_eq!(update.side, Side::Bid);
    assert_eq!(update.price.ticks(), 99_996);
    assert_eq!(update.qty.lots(), 7);
    let (mid, update) = synth_update(1, -1, Side::Bid, 5, true, 7);
    assert_eq!(mid, 1);
    assert_eq!(update.price.ticks(), 1);
    assert!(update.is_remove());
    let (mid, update) = synth_update(10, 1, Side::Ask, 5, false, 0);
    assert_eq!(mid, 11);
    assert_eq!(update.price.ticks(), 16);
    assert!(update.is_remove());
    let (mid, update) = synth_update(i64::MAX, 1, Side::Ask, 5, false, 1);
    assert_eq!(mid, i64::MAX);
    assert_eq!(update.price.ticks(), i64::MAX);
}

#[test]
fn fills_among_reports_are_counted() {
    assert_eq!(fills_among(&vec![], 0), 0);
    assert_eq!(fills_among(&vec![], 3), 0);
}

use solvanity::speed::SpeedTracker;

fn rate_of(parts: (u64, u64)) -> f64 {
    let (total, span_ms) = parts;
    if span_ms == 0 {
        0.0
    } else {
        total as f64 / (span_ms as f64 / 1000.0)
    }
}

#[test]
fn three_even_samples_give_the_smoothed_rate() {
    let mut t = SpeedTracker::new(5000);
    t.add_iterations(0, 100);
    t.add_iterations(1000, 100);
    t.add_iterations(2000, 100);
    let parts = t.calculate_speed();
    assert_eq!(parts, (300, 2000));
    assert_eq!(rate_of(parts), 150.0);
}

#[test]
fn stale_samples_are_evicted() {
    let mut t = SpeedTracker::new(5000);
    t.add_iterations(0, 100);
    t.add_iterations(1000, 100);
    t.add_iterations(2000, 100);
    t.add_iterations(10000, 100);
    let parts = t.calculate_speed();
    assert_eq!(parts, (100, 0));
    assert_eq!(rate_of(parts), 0.0);
}

#[test]
fn empty_tracker_reports_zero() {
    let t = SpeedTracker::new(5000);
    assert_eq!(t.calculate_speed(), (0, 0));
}

#[test]
fn single_sample_has_zero_span() {
    let mut t = SpeedTracker::new(5000);
    t.add_iterations(42, 7);
    assert_eq!(t.calculate_speed(), (7, 0));
}

#[test]
fn eviction_keeps_the_boundary_sample() {
    let mut t = SpeedTracker::new(5000);
    t.add_iterations(0, 10);
    t.add_iterations(5000, 20);
    // the cutoff is 5000 - 5000 = 0, and the sample at 0 is not older than it
    assert_eq!(t.calculate_speed(), (30, 5000));
    t.add_iterations(5001, 30);
    // now the sample at 0 is older than the cutoff 1
    assert_eq!(t.calculate_speed(), (50, 1));
}

use rustscan::rate_controller::RateController;

/// Busy-wait past the adjustment interval so the next adjustment is not
/// gated.
fn spin_past_interval() {
    let t0 = std::time::Instant::now();
    while t0.elapsed() < std::time::Duration::from_millis(120) {}
}

#[test]
fn test_rate_controller() {
    let mut controller = RateController::new(1000, 100);
    assert_eq!(controller.get_current_rate(), 1000);

    // The rate starts at the top of the band, so a successful outcome can
    // only hold it there: it never exceeds max_rate.
    controller.adjust_rate(true, 50);
    assert_eq!(controller.get_current_rate(), 1000);

    controller.increment_requests();
    let delay = controller.schedule_request(0);
    assert_eq!(delay, 0);
}

#[test]
fn failures_shrink_and_never_pass_min() {
    let mut c = RateController::new(1000, 100);
    c.adjust_rate(false, 0);
    assert_eq!(c.get_current_rate(), 900);
    spin_past_interval();
    c.adjust_rate(false, 300);
    assert_eq!(c.get_current_rate(), 810);

    let mut floor = RateController::new(10, 9);
    floor.adjust_rate(false, 0);
    assert_eq!(floor.get_current_rate(), 9);
    spin_past_interval();
    floor.adjust_rate(false, 0);
    assert_eq!(floor.get_current_rate(), 9);
}

#[test]
fn fast_successes_grow_and_never_pass_max() {
    let mut c = RateController::new(1000, 100);
    c.adjust_rate(false, 0);
    assert_eq!(c.get_current_rate(), 900);
    spin_past_interval();
    c.adjust_rate(true, 10);
    assert_eq!(c.get_current_rate(), 990);
    spin_past_interval();
    c.adjust_rate(true, 49);
    assert_eq!(c.get_current_rate(), 1000);
    spin_past_interval();
    c.adjust_rate(true, 0);
    assert_eq!(c.get_current_rate(), 1000);
}

#[test]
fn ambiguous_outcome_holds_the_rate() {
    let mut c = RateController::new(1000, 100);
    c.adjust_rate(false, 0);
    assert_eq!(c.get_current_rate(), 900);
    spin_past_interval();
    // A success with middling latency neither grows nor shrinks.
    c.adjust_rate(true, 120);
    assert_eq!(c.get_current_rate(), 900);
}

#[test]
fn schedule_request_counts_and_delays() {
    let mut c = RateController::new(1, 1);
    assert_eq!(c.get_total_requests(), 0);
    let d1 = c.schedule_request(1000);
    assert_eq!(d1, 0);
    assert_eq!(c.get_total_requests(), 1);
    assert_eq!(c.get_requests_per_second(), 1);
    // The rate is one request per second; 500 ms after the last request the
    // caller still owes half a second.
    let d2 = c.schedule_request(1500);
    assert_eq!(d2, 500);
    assert_eq!(c.get_total_requests(), 2);

    let mut fast = RateController::new(1000, 100);
    let e1 = fast.schedule_request(5000);
    assert_eq!(e1, 0);
    assert_eq!(fast.get_requests_per_second(), 1);
    let e2 = fast.schedule_request(5000);
    assert_eq!(e2, 0);
    assert_eq!(fast.get_requests_per_second(), 2);
    // A new wall-clock second resets the window counter.
    let _ = fast.schedule_request(6000);
    assert_eq!(fast.get_requests_per_second(), 1);
}

#[test]
fn adjustment_is_gated_by_the_interval() {
    let mut c = RateController::new(1000, 100);
    // The first recomputation is due once the interval has elapsed.
    c.adjust_rate_at(100, false, 0);
    assert_eq!(c.get_current_rate(), 900);
    // Fifty milliseconds later the interval has not elapsed, so the rate
    // holds whatever the outcome was.
    c.adjust_rate_at(150, false, 300);
    assert_eq!(c.get_current_rate(), 900);
    // At the next interval boundary a fast success grows it again.
    c.adjust_rate_at(250, true, 10);
    assert_eq!(c.get_current_rate(), 990);
    // A clock that jumps backwards degrades to holding, never a panic.
    c.adjust_rate_at(0, false, 0);
    assert_eq!(c.get_current_rate(), 990);
}

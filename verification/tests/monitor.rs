use richard::monitor::ErrorRateMonitor;
use richard::monitor::LivenessMonitor;
use richard::monitor::LIVENESS_MAX;
use richard::monitor::RATE_SCALE;

#[test]
fn liveness_starts_alive_at_zero() {
    let m = LivenessMonitor::new();
    assert!(m.alive);
    assert_eq!(m.failure_count, 0);
}

#[test]
fn liveness_schmitt_scenario() {
    // success, success, fail x6, success x3: dead after the 6th failure,
    // alive again after the 3rd success.
    let mut m = LivenessMonitor::new();
    assert_eq!(m.update(false), (true, true));
    assert_eq!(m.update(false), (true, true));
    for k in 1..=6u8 {
        let (was, now) = m.update(true);
        assert_eq!(m.failure_count, k);
        if k < 6 {
            assert!(was && now);
        } else {
            assert!(was && !now);
        }
    }
    assert!(!m.alive);
    for k in 1..=3u8 {
        let (was, now) = m.update(false);
        assert_eq!(m.failure_count, 6 - k);
        if k < 3 {
            assert!(!was && !now);
        } else {
            assert!(!was && now);
        }
    }
    assert!(m.alive);
}

#[test]
fn liveness_counter_saturates() {
    let mut m = LivenessMonitor::new();
    for _ in 0..25 {
        m.update(true);
    }
    assert_eq!(m.failure_count, LIVENESS_MAX);
    assert!(!m.alive);
}

#[test]
fn liveness_no_flapping_on_single_transient() {
    // One failure and one recovery never move the state.
    let mut m = LivenessMonitor::new();
    assert_eq!(m.update(true), (true, true));
    assert_eq!(m.update(false), (true, true));
    assert!(m.alive);
}

#[test]
fn error_rate_invalid_before_full_window() {
    let mut m = ErrorRateMonitor::new();
    for _ in 0..99 {
        assert_eq!(m.update(true), None);
    }
    assert!(m.update(true).is_some());
}

#[test]
fn error_rate_converges_to_one_under_failures() {
    let mut m = ErrorRateMonitor::new();
    let mut last = 0;
    for _ in 0..5000 {
        if let Some(rate) = m.update(true) {
            assert!(rate >= last, "rate must not drop under failures");
            last = rate;
        }
    }
    assert_eq!(m.rate, RATE_SCALE);
}

#[test]
fn error_rate_converges_to_zero_under_successes() {
    let mut m = ErrorRateMonitor::new();
    for _ in 0..300 {
        m.update(true);
    }
    assert!(m.rate > 0);
    let mut last = m.rate;
    for _ in 0..5000 {
        if let Some(rate) = m.update(false) {
            assert!(rate <= last, "rate must not rise under successes");
            last = rate;
        }
    }
    assert_eq!(m.rate, 0);
}

#[test]
fn error_rate_first_failure_is_one_percent() {
    // acc = 0 + SCALE - 0; rate = acc / 100.
    let mut m = ErrorRateMonitor::new();
    m.update(true);
    assert_eq!(m.rate, RATE_SCALE / 100);
}

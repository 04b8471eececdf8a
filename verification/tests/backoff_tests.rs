use dock::backoff::Backoff;
use std::time::Duration;

fn secs(s: u64) -> Duration {
    Duration::from_secs(s)
}

#[test]
fn niri_default_doubles_quick_failures_up_to_thirty_seconds() {
    let mut b = Backoff::niri_default();
    let quick = Duration::from_millis(100);
    let delays: Vec<Duration> = (0..7).map(|_| b.advance(quick)).collect();
    assert_eq!(delays, vec![secs(2), secs(4), secs(8), secs(16), secs(30), secs(30), secs(30)]);
}

#[test]
fn long_attempt_resets_to_initial() {
    let mut b = Backoff::niri_default();
    b.advance(secs(1));
    b.advance(secs(1));
    assert_eq!(b.advance(secs(11)), secs(1));
    assert_eq!(b.advance(secs(1)), secs(2));
}

#[test]
fn attempt_exactly_warm_after_does_not_reset() {
    let mut b = Backoff::niri_default();
    assert_eq!(b.advance(secs(10)), secs(2));
    assert_eq!(b.advance(secs(10)), secs(4));
    assert_eq!(b.advance(secs(10) + Duration::from_nanos(1)), secs(1));
}

#[test]
fn custom_backoff_caps_at_max() {
    let mut b = Backoff::new(Duration::from_millis(300), Duration::from_millis(1000), secs(5));
    assert_eq!(b.advance(Duration::ZERO), Duration::from_millis(600));
    assert_eq!(b.advance(Duration::ZERO), Duration::from_millis(1000));
    assert_eq!(b.advance(Duration::ZERO), Duration::from_millis(1000));
}

#[test]
fn initial_above_max_falls_to_max_after_quick_attempt() {
    let mut b = Backoff::new(secs(50), secs(30), secs(10));
    assert_eq!(b.advance(secs(1)), secs(30));
    assert_eq!(b.advance(secs(20)), secs(50));
}

#[test]
fn law_quick_delays_are_initial_times_power_of_two_capped() {
    // initial 1s, max 30s: 2^k seconds until the cap
    let mut b = Backoff::new(secs(1), secs(30), secs(10));
    let mut expected = 1u64;
    for _ in 0..10 {
        expected = (expected * 2).min(30);
        assert_eq!(b.advance(Duration::ZERO), secs(expected));
    }
}

#[test]
fn try_advance_refuses_only_where_doubling_overflows() {
    let mut b = Backoff::new(Duration::MAX, Duration::MAX, secs(10));
    assert_eq!(b.try_advance(secs(1)), None);
    assert_eq!(b.try_advance(secs(11)), Some(Duration::MAX));
    let mut b = Backoff::niri_default();
    assert_eq!(b.try_advance(secs(1)), Some(secs(2)));
    assert_eq!(b.try_advance(secs(20)), Some(secs(1)));
}

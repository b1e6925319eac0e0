use compositor::timing::{
    elapsed_ms, elapsed_timestamp, monotonic_timespec_at, presented_words, recently_paced,
    refresh_ns, refresh_rate_update, topless_frame_due,
};

#[test]
fn timestamps_are_milliseconds_of_the_monotonic_clock() {
    assert_eq!(elapsed_ms(5, 250_000_000), 5_250);
    assert_eq!(elapsed_ms(0, 999_999), 0);
    assert_eq!(elapsed_timestamp(5, 250_123_456), (5_250, 123));
}

#[test]
fn millisecond_timestamps_wrap_at_32_bits() {
    // 4_294_968 s is 4_294_968_000 ms, 704 past 2^32.
    assert_eq!(elapsed_ms(4_294_968, 0), 704);
}

#[test]
fn a_past_instant_keeps_its_exact_distance() {
    assert_eq!(monotonic_timespec_at(10, 500_000_000, true, 250_000_000), (10, 250_000_000));
    assert_eq!(monotonic_timespec_at(10, 500_000_000, true, 1_750_000_000), (8, 750_000_000));
}

#[test]
fn presentation_is_never_in_the_future() {
    assert_eq!(monotonic_timespec_at(10, 500_000_000, false, 1_000_000_000), (10, 500_000_000));
    assert_eq!(monotonic_timespec_at(0, 100, true, 1_000), (0, 0));
}

#[test]
fn presented_time_splits_the_seconds() {
    assert_eq!(presented_words((1i64 << 33) + 5, 7), (2, 5, 7));
}

#[test]
fn refresh_period_comes_from_millihertz() {
    assert_eq!(refresh_ns(60_000), 16_666_666);
    assert_eq!(refresh_ns(0), 0);
}

#[test]
fn refresh_changes_below_two_hertz_are_ignored() {
    assert_eq!(refresh_rate_update(60_000, 61_000), None);
    assert_eq!(refresh_rate_update(60_000, 62_000), Some(62_000));
    assert_eq!(refresh_rate_update(145_000, 143_000), Some(143_000));
    assert_eq!(refresh_rate_update(60_000, 0), None);
}

#[test]
fn topless_callbacks_are_paced_across_a_wrapping_clock() {
    assert!(topless_frame_due(None, 5));
    assert!(!topless_frame_due(Some(100), 349));
    assert!(topless_frame_due(Some(100), 350));
    assert!(topless_frame_due(Some(u32::MAX - 10), 300));
}

#[test]
fn pacing_grace_lasts_half_a_second() {
    assert!(!recently_paced(None, 0));
    assert!(recently_paced(Some(1_000), 1_499));
    assert!(!recently_paced(Some(1_000), 1_500));
}

use std::time::Duration;
use wilds::fps_counter::FpsCounter;

#[test]
fn fps_average_of_no_samples_is_zero() {
    let counter = FpsCounter::new(Duration::from_millis(100));
    assert_eq!(counter.average(), Duration::from_micros(0));
}

#[test]
fn fps_average_over_samples() {
    let mut counter = FpsCounter::new(Duration::from_millis(100));
    counter.add_sample(Duration::from_millis(10));
    counter.add_sample(Duration::from_millis(20));
    assert_eq!(counter.average(), Duration::from_millis(15));
}

#[test]
fn fps_drops_oldest_samples_beyond_window() {
    let mut counter = FpsCounter::new(Duration::from_micros(100));
    counter.add_sample(Duration::from_micros(40));
    counter.add_sample(Duration::from_micros(40));
    // 40 + 40 + 30 > 100: the first sample is dropped.
    counter.add_sample(Duration::from_micros(30));
    assert_eq!(counter.average(), Duration::from_micros(35));
}

#[test]
fn fps_sample_as_wide_as_window_replaces_all() {
    let mut counter = FpsCounter::new(Duration::from_micros(100));
    counter.add_sample(Duration::from_micros(10));
    counter.add_sample(Duration::from_micros(150));
    assert_eq!(counter.average(), Duration::from_micros(150));
}

#[test]
fn fps_huge_sample_saturates() {
    let mut counter = FpsCounter::new(Duration::from_micros(100));
    counter.add_sample(Duration::from_secs(10_000_000));
    assert_eq!(counter.average(), Duration::from_micros(u32::MAX as u64));
}

#[test]
fn fps_try_new_rejects_too_large_window() {
    assert!(FpsCounter::try_new(Duration::from_secs(10_000)).is_none());
    assert!(FpsCounter::try_new(Duration::from_secs(1)).is_some());
}

#[test]
fn fps_evicts_both_older_samples() {
    let mut c = FpsCounter::new(Duration::from_millis(10));
    c.add_sample(Duration::from_millis(2));
    c.add_sample(Duration::from_millis(6));
    c.add_sample(Duration::from_millis(5));
    assert_eq!(c.average(), Duration::from_millis(5));
}

#[test]
fn fps_average_truncates() {
    let mut c = FpsCounter::new(Duration::from_secs(1));
    assert_eq!(c.average(), Duration::ZERO);
    c.add_sample(Duration::from_micros(1));
    c.add_sample(Duration::from_micros(2));
    assert_eq!(c.average(), Duration::from_micros(1));
}

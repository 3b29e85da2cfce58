use std::time::Duration;

use sp_app::workers::audio::{compute_capacity_exponent, DurationWasZero};
use sp_app::workers::capacity::{buffer_capacity, capacity_exponent, samples_to_buffer};

#[test]
fn zero_latency_should_error() {
    assert!(compute_capacity_exponent(1337, Duration::ZERO).is_err());
    assert!(compute_capacity_exponent(0, Duration::ZERO).is_err());
}

#[test]
fn known_values() {
    let examples = [
        (44_000, Duration::from_secs(1), 16),
        (16, Duration::from_secs(1), 4),
        (16, Duration::from_secs(1) - Duration::from_millis(1), 4),
        (16, Duration::from_secs(1) + Duration::from_millis(1), 5),
        (44_000, Duration::from_millis(100), 13),
    ];
    for (sample_rate, buffer_duration, buffer_capacity_exponent) in examples {
        assert_eq!(
            compute_capacity_exponent(sample_rate, buffer_duration),
            Ok(buffer_capacity_exponent),
            "failed example with sr={sample_rate}, bd={buffer_duration:?}"
        );
    }
}

#[test]
fn zero_duration_is_the_error() {
    assert_eq!(compute_capacity_exponent(44_000, Duration::ZERO), Err(DurationWasZero));
}

#[test]
fn one_sample_needs_a_buffer_of_one() {
    assert_eq!(compute_capacity_exponent(1, Duration::from_secs(1)), Ok(0));
    assert_eq!(compute_capacity_exponent(1, Duration::from_micros(1)), Ok(0));
    assert_eq!(capacity_exponent(0), 0);
    assert_eq!(capacity_exponent(1), 0);
    assert_eq!(capacity_exponent(2), 1);
    assert_eq!(capacity_exponent(3), 2);
}

#[test]
fn largest_buffer() {
    assert_eq!(compute_capacity_exponent(1 << 31, Duration::from_secs(1)), Ok(31));
    assert_eq!(compute_capacity_exponent((1 << 30) + 1, Duration::from_secs(1)), Ok(31));
    assert_eq!(buffer_capacity(1 << 31, Duration::from_secs(1)), Some(1 << 31));
}

#[test]
fn samples_that_arrive_in_part_count() {
    assert_eq!(samples_to_buffer(44_000, Duration::from_millis(100)), Some(4_400));
    assert_eq!(samples_to_buffer(16, Duration::from_millis(1_001)), Some(17));
    assert_eq!(samples_to_buffer(3, Duration::from_micros(1)), Some(1));
}

#[test]
fn buffers_that_cannot_be_made() {
    assert_eq!(buffer_capacity(0, Duration::from_secs(1)), None);
    assert_eq!(buffer_capacity(44_000, Duration::ZERO), None);
    assert_eq!(buffer_capacity(44_000, Duration::from_nanos(999)), None);
    assert_eq!(buffer_capacity((1 << 31) + 1, Duration::from_secs(1)), None);
    assert_eq!(buffer_capacity(u32::MAX, Duration::MAX), None);
}

#[test]
fn capacity_is_the_power_of_two_that_holds_the_duration() {
    assert_eq!(buffer_capacity(44_000, Duration::from_secs(1)), Some(65_536));
    assert_eq!(buffer_capacity(44_000, Duration::from_millis(100)), Some(8_192));
    assert_eq!(buffer_capacity(16, Duration::from_secs(1)), Some(16));
}

#[test]
fn more_samples_never_need_a_smaller_buffer() {
    let mut last = 0;
    for samples in 0..5_000 {
        let exponent = capacity_exponent(samples);
        assert!(exponent >= last);
        assert!(samples <= 1 << exponent);
        assert!(exponent == 0 || samples > 1 << (exponent - 1));
        last = exponent;
    }
}

#[test]
fn zero_duration_has_a_text() {
    assert_eq!(DurationWasZero.message(), "duration was zero");
}

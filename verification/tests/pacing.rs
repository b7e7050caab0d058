use ascplayer::pacing::{frame_interval, FrameInterval, FrameRate};

fn rate(numerator: i32, denominator: i32) -> FrameRate {
    FrameRate { numerator, denominator }
}

#[test]
fn interval_is_the_period_over_thirty_five_hundred() {
    assert_eq!(frame_interval(rate(10, 1)), Some(FrameInterval { numer: 2, denom: 70_000 }));
    assert_eq!(frame_interval(rate(25, 1)), Some(FrameInterval { numer: 2, denom: 175_000 }));
    assert_eq!(
        frame_interval(rate(30_000, 1001)),
        Some(FrameInterval { numer: 2002, denom: 210_000_000 })
    );
    assert_eq!(frame_interval(rate(1, 1)), Some(FrameInterval { numer: 2, denom: 7000 }));
}

#[test]
fn interval_in_seconds() {
    let interval = frame_interval(rate(10, 1)).unwrap();
    let seconds = interval.numer as f64 / interval.denom as f64;
    let expected = 1.0 / 10.0 / 1000.0 / 3.5;
    assert!((seconds - expected).abs() < 1e-15);
    let interval = frame_interval(rate(24_000, 1001)).unwrap();
    let seconds = interval.numer as f64 / interval.denom as f64;
    let expected = 1001.0 / 24_000.0 / 1000.0 / 3.5;
    assert!((seconds - expected).abs() < 1e-15);
}

#[test]
fn interval_is_positive_for_positive_rates() {
    for numerator in [1, 2, 24, 1000, 30_000, i32::MAX] {
        for denominator in [1, 2, 1001, i32::MAX] {
            let interval = frame_interval(rate(numerator, denominator)).unwrap();
            assert!(interval.numer > 0);
            assert!(interval.denom > 0);
            assert_eq!(interval.numer, 2 * denominator as u64);
            assert_eq!(interval.denom, 7000 * numerator as u64);
        }
    }
}

#[test]
fn interval_depends_on_the_rate_alone() {
    assert_eq!(frame_interval(rate(30, 1)), frame_interval(rate(30, 1)));
    assert_ne!(frame_interval(rate(30, 1)), frame_interval(rate(60, 1)));
}

#[test]
fn rates_that_are_not_positive_have_no_interval() {
    assert_eq!(frame_interval(rate(0, 1)), None);
    assert_eq!(frame_interval(rate(1, 0)), None);
    assert_eq!(frame_interval(rate(0, 0)), None);
    assert_eq!(frame_interval(rate(-30, 1)), None);
    assert_eq!(frame_interval(rate(30, -1)), None);
    assert_eq!(frame_interval(rate(-30, -1)), None);
    assert_eq!(frame_interval(rate(i32::MIN, i32::MIN)), None);
}

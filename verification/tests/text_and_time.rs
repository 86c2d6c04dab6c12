use bolt_load::aggregator::Polled;
use bolt_load::clock::{elapsed_since, whole_nanos, Clock};
use bolt_load::ratio::Ratio;
use bolt_load::text::{append_decimal, number_between, prefixed};
use bolt_load::yielding::yield_now;
use std::time::{Duration, Instant};

#[test]
fn numbers_are_written_in_decimal() {
    let mut text = String::from("n=");
    append_decimal(&mut text, 0);
    append_decimal(&mut text, 1024);
    append_decimal(&mut text, u64::MAX);
    assert_eq!(text, "n=0102418446744073709551615");
    assert_eq!(number_between("a", 42, "b"), "a42b");
    assert_eq!(prefixed("failed: ", "why"), "failed: why");
}

#[test]
fn ratios_compare_without_rounding() {
    let third = Ratio::new(1, 3);
    assert!(third.at_least(&Ratio::new(33, 100)));
    assert!(!third.at_least(&Ratio::new(34, 100)));
    assert!(Ratio::new(15, 100).at_least_half(&Ratio::new(3, 10)));
    assert!(!Ratio::new(14, 100).at_least_half(&Ratio::new(3, 10)));
    assert!(Ratio::new(u64::MAX, 1).at_least(&Ratio::new(u64::MAX, 2)));
}

#[test]
fn a_clock_does_not_run_backwards() {
    let clock = Clock::start();
    let first = clock.now_nanos();
    let second = clock.now_nanos();
    assert!(first <= second);
    assert_eq!(elapsed_since(9, 4), 5);
    assert_eq!(elapsed_since(4, 9), 0);
}

#[test]
fn durations_are_capped() {
    assert_eq!(whole_nanos(Duration::ZERO), 0);
    assert_eq!(whole_nanos(Duration::from_millis(3)), 3_000_000);
    assert_eq!(whole_nanos(Duration::from_nanos(u64::MAX)), u64::MAX);
    assert_eq!(whole_nanos(Duration::MAX), u64::MAX);
}

#[test]
fn a_clock_counts_from_its_start() {
    let before = Instant::now();
    let clock = Clock::start();
    let ahead = Clock { origin: before + Duration::from_secs(3600) };
    let late = Clock { origin: before };
    assert!(clock.now_nanos() <= late.now_nanos());
    // A clock that has yet to start shows nothing
    assert_eq!(ahead.now_nanos(), 0);
}

#[test]
fn yielding_takes_one_turn() {
    let mut step = yield_now();
    assert!(matches!(step.poll(), Polled::Pending));
    assert!(matches!(step.poll(), Polled::Ready(Some(()))));
}

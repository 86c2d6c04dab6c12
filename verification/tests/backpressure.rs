use bolt_load::backpressure::{
    BackpressureState, WriteBackpressureConfig, WriteBackpressureContext,
    WriteBackpressureStrategy, FILE_WRITER_QUEUE_SIZE,
};
use bolt_load::strategy::{Strategy, StrategyAction};
use std::time::Duration;

#[test]
fn test_determine_state_normal() {
    let strategy = WriteBackpressureStrategy::with_default_config();
    let state = strategy.determine_state(100); // ~5% of 2048
    assert_eq!(state, BackpressureState::Normal);
}

#[test]
fn test_determine_state_high() {
    let strategy = WriteBackpressureStrategy::with_default_config();
    let state = strategy.determine_state(1600); // ~78% of 2048
    assert_eq!(state, BackpressureState::High);
}

#[test]
fn test_determine_state_critical() {
    let strategy = WriteBackpressureStrategy::with_default_config();
    let state = strategy.determine_state(1900); // ~93% of 2048
    assert_eq!(state, BackpressureState::Critical);
}

#[test]
fn test_calculate_new_concurrency_critical() {
    let strategy = WriteBackpressureStrategy::with_default_config();
    let new_concurrency = strategy.calculate_new_concurrency(8, BackpressureState::Critical);
    assert_eq!(new_concurrency, Some(6)); // 25% reduction: 8 * 0.75 = 6
}

#[test]
fn test_calculate_new_concurrency_high() {
    let strategy = WriteBackpressureStrategy::with_default_config();
    let new_concurrency = strategy.calculate_new_concurrency(8, BackpressureState::High);
    assert_eq!(new_concurrency, Some(7)); // degradation_step = 1
}

#[test]
fn test_calculate_new_concurrency_min() {
    let strategy = WriteBackpressureStrategy::with_default_config();
    let new_concurrency = strategy.calculate_new_concurrency(1, BackpressureState::Critical);
    assert_eq!(new_concurrency, Some(1)); // Can't go below min_concurrency
}

#[test]
fn test_strategy_step_critical() {
    let mut strategy = WriteBackpressureStrategy::with_default_config();
    let mut context = WriteBackpressureContext {
        queue_depth: 1900, // Critical
        write_speed: 1_000_000,
        download_speed: 10_000_000,
        current_concurrency: 8,
        max_concurrency: 8,
    };

    let actions = strategy.step(&mut context);
    assert!(!actions.is_empty());
    match &actions[0] {
        StrategyAction::ChangeMaxConcurrency(new_concurrency) => {
            assert!(*new_concurrency < 8);
        }
        _ => panic!("Expected ChangeMaxConcurrency action"),
    }
}

#[test]
fn test_strategy_step_high_with_slow_write() {
    let mut strategy = WriteBackpressureStrategy::with_default_config();
    let mut context = WriteBackpressureContext {
        queue_depth: 1600,          // High
        write_speed: 1_000_000,     // 1 MB/s
        download_speed: 10_000_000, // 10 MB/s (ratio = 0.1 < 0.5)
        current_concurrency: 8,
        max_concurrency: 8,
    };

    let actions = strategy.step(&mut context);
    assert!(!actions.is_empty());
}

#[test]
fn test_strategy_step_high_with_fast_write() {
    let mut strategy = WriteBackpressureStrategy::with_default_config();
    let mut context = WriteBackpressureContext {
        queue_depth: 1600,          // High
        write_speed: 8_000_000,     // 8 MB/s
        download_speed: 10_000_000, // 10 MB/s (ratio = 0.8 > 0.5)
        current_concurrency: 8,
        max_concurrency: 8,
    };

    let actions = strategy.step(&mut context);
    // Should not reduce concurrency because write speed is still good
    assert!(actions.is_empty());
}

#[test]
fn test_strategy_step_normal() {
    let mut strategy = WriteBackpressureStrategy::with_default_config();
    let mut context = WriteBackpressureContext {
        queue_depth: 100, // Normal
        write_speed: 5_000_000,
        download_speed: 10_000_000,
        current_concurrency: 8,
        max_concurrency: 8,
    };

    let actions = strategy.step(&mut context);
    assert!(actions.is_empty());
}

fn pressed(queue_depth: usize, current_concurrency: usize) -> WriteBackpressureContext {
    WriteBackpressureContext {
        queue_depth,
        write_speed: 1,
        download_speed: 10,
        current_concurrency,
        max_concurrency: 8,
    }
}

#[test]
fn high_pressure_is_not_answered_twice_within_the_interval() {
    let mut strategy = WriteBackpressureStrategy::with_default_config();
    let interval: u64 = strategy.config.min_action_interval.as_nanos() as u64;
    assert!(matches!(
        strategy.step_at(&pressed(1600, 8), 10)[..],
        [StrategyAction::ChangeMaxConcurrency(7)]
    ));
    assert!(!strategy.should_take_action(10 + interval - 1));
    assert!(strategy.step_at(&pressed(1600, 7), 10 + interval - 1).is_empty());
    assert!(strategy.should_take_action(10 + interval));
    assert!(matches!(
        strategy.step_at(&pressed(1600, 7), 10 + interval)[..],
        [StrategyAction::ChangeMaxConcurrency(6)]
    ));
}

#[test]
fn critical_pressure_is_answered_at_once() {
    let mut strategy = WriteBackpressureStrategy::with_default_config();
    assert!(matches!(
        strategy.step_at(&pressed(FILE_WRITER_QUEUE_SIZE, 8), 10)[..],
        [StrategyAction::ChangeMaxConcurrency(6)]
    ));
    assert!(matches!(
        strategy.step_at(&pressed(FILE_WRITER_QUEUE_SIZE, 6), 11)[..],
        [StrategyAction::ChangeMaxConcurrency(5)]
    ));
    // At the minimum there is nothing left to lower
    assert!(strategy.step_at(&pressed(FILE_WRITER_QUEUE_SIZE, 1), 12).is_empty());
}

#[test]
fn a_configured_step_is_taken() {
    let config = WriteBackpressureConfig {
        degradation_step: 3,
        min_concurrency: 2,
        min_action_interval: Duration::from_secs(0),
        ..Default::default()
    };
    let strategy = WriteBackpressureStrategy::with_config(config);
    assert_eq!(strategy.calculate_new_concurrency(8, BackpressureState::High), Some(5));
    assert_eq!(strategy.calculate_new_concurrency(4, BackpressureState::High), Some(2));
    assert_eq!(strategy.calculate_new_concurrency(8, BackpressureState::Normal), None);
}

#[test]
fn the_strategy_has_a_name() {
    assert_eq!(<WriteBackpressureStrategy as Strategy>::name(), "WriteBackpressure");
}

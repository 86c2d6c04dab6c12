use bolt_load::concurrency_control::{
    lower, raise, ConcurrencyControlConfig, ConcurrencyControlContext, ConcurrencyControlStrategy,
    StrategyState,
};
use bolt_load::dynamic::{DynamicPlannerStage, DynamicStrategy, DynamicStrategyContext};
use bolt_load::manager::RunnerManager;
use bolt_load::outcome::{FailureKind, OutcomeStats, RunnerOutcome, RunnerOutcomeSampler};
use bolt_load::ratio::Ratio;
use bolt_load::strategy::{create_tasks, Strategy, StrategyAction};
use bolt_load::strategy_control::StrategyControl;
use std::time::Duration;

const SECOND: u64 = 1_000_000_000;

#[test]
fn outcomes_are_told_apart() {
    assert!(RunnerOutcome::Completed.is_success());
    assert_eq!(RunnerOutcome::Completed.failure_kind(), None);
    let refused = RunnerOutcome::ConnectFailed(FailureKind::Unretryable);
    assert!(!refused.is_success());
    assert!(refused.is_unretryable());
    assert_eq!(refused.failure_kind(), Some(FailureKind::Unretryable));
    assert!(!RunnerOutcome::StreamClosed(FailureKind::Retryable).is_unretryable());
}

#[test]
fn records_are_counted_by_outcome() {
    let mut sampler = RunnerOutcomeSampler::new(Duration::from_secs(60), 100);
    sampler.record_at(RunnerOutcome::Completed, 1);
    sampler.record_at(RunnerOutcome::ConnectFailed(FailureKind::Retryable), 2);
    sampler.record_at(RunnerOutcome::StreamClosed(FailureKind::Unretryable), 3);
    sampler.record_at(RunnerOutcome::ConnectFailed(FailureKind::Unretryable), 4);
    let stats = sampler.stats_at(5);
    assert_eq!(
        stats,
        OutcomeStats {
            total: 4,
            completed: 1,
            connect_failed_retryable: 1,
            connect_failed_unretryable: 1,
            stream_closed_retryable: 0,
            stream_closed_unretryable: 1,
        }
    );
    assert_eq!(stats.total_failures(), 3);
    assert_eq!(stats.unretryable_failures(), 2);
    assert_eq!(stats.failure_rate(), Ratio { numerator: 3, denominator: 4 });
    assert_eq!(stats.connect_failure_rate(), Ratio { numerator: 2, denominator: 4 });
    assert_eq!(OutcomeStats::default().failure_rate().numerator, 0);
}

#[test]
fn old_records_expire_and_the_oldest_make_room() {
    let mut sampler = RunnerOutcomeSampler::new(Duration::from_secs(10), 2);
    sampler.record_at(RunnerOutcome::Completed, 0);
    sampler.record_at(RunnerOutcome::Completed, SECOND);
    sampler.record_at(RunnerOutcome::StreamClosed(FailureKind::Retryable), 2 * SECOND);
    assert_eq!(sampler.len_at(11 * SECOND), 2);
    // Expired records are not counted, whether or not they have left
    assert_eq!(sampler.len_at(12 * SECOND), 1);
    assert_eq!(sampler.len_at(12 * SECOND + 1), 0);
    assert_eq!(sampler.records.len(), 2);
    assert_eq!(sampler.stats_at(11 * SECOND).total, 2);
    assert_eq!(sampler.stats_at(12 * SECOND).total, 1);
    assert_eq!(sampler.stats_at(12 * SECOND + 1).total, 0);
    assert!(sampler.is_empty());
}

#[test]
fn a_rejection_is_noticed_once() {
    let mut sampler = RunnerOutcomeSampler::with_defaults();
    sampler.record_at(RunnerOutcome::ConnectFailed(FailureKind::Unretryable), 7 * SECOND);
    let within = Duration::from_secs(5);
    assert!(!sampler.has_recent_unretryable_at(within, 12 * SECOND + 1));
    assert!(sampler.has_recent_unretryable_at(within, 12 * SECOND));
    assert!(!sampler.has_recent_unretryable_at(within, 12 * SECOND));
    sampler.reset();
    assert!(sampler.is_empty());
}

#[test]
fn levels_stay_within_their_bounds() {
    assert_eq!(lower(5, 1, 1), 4);
    assert_eq!(lower(1, 3, 1), 1);
    assert_eq!(raise(3, 1, 4), 4);
    assert_eq!(raise(4, 1, 4), 4);
    assert_eq!(raise(usize::MAX, 1, 9), 9);
}

fn stats(total: usize, completed: usize) -> OutcomeStats {
    OutcomeStats {
        total,
        completed,
        stream_closed_retryable: total - completed,
        ..Default::default()
    }
}

#[test]
fn enough_failures_degrade() {
    let mut strategy = ConcurrencyControlStrategy::with_default_config(4);
    assert_eq!(strategy.current_state(), "normal");
    // Too few samples
    assert_eq!(strategy.handle_normal_state(4, &stats(4, 0), 1), None);
    // Under the threshold of 0.3
    assert_eq!(strategy.handle_normal_state(4, &stats(10, 8), 1), None);
    assert_eq!(strategy.handle_normal_state(4, &stats(10, 7), 1), Some(3));
    assert_eq!(strategy.current_state(), "degraded");
    assert_eq!(
        strategy.state,
        StrategyState::Degraded { target_concurrency: 3, degraded_at: 1 }
    );
}

#[test]
fn recovery_waits_and_then_climbs() {
    let mut strategy = ConcurrencyControlStrategy::with_default_config(4);
    let start = SECOND;
    // The recovery delay has not passed
    assert_eq!(strategy.handle_degraded_state(&stats(10, 10), 30 * SECOND, 2, start), None);
    // Half the threshold is 0.15
    assert_eq!(strategy.handle_degraded_state(&stats(20, 17), 31 * SECOND, 2, start), None);
    assert_eq!(strategy.handle_degraded_state(&stats(10, 9), 31 * SECOND, 2, start), Some(3));
    assert_eq!(strategy.current_state(), "recovering");

    // Nothing is decided before the observation period is over
    assert_eq!(
        strategy.handle_recovering_state(&stats(10, 9), 45 * SECOND, 3, 31 * SECOND, 1),
        None
    );
    assert_eq!(
        strategy.handle_recovering_state(&stats(10, 9), 46 * SECOND, 3, 31 * SECOND, 1),
        Some(4)
    );
    assert_eq!(
        strategy.handle_recovering_state(&stats(10, 9), 61 * SECOND, 4, 46 * SECOND, 1),
        None
    );
    assert_eq!(strategy.current_state(), "normal");
}

#[test]
fn failures_roll_a_recovery_back() {
    let mut strategy = ConcurrencyControlStrategy::with_default_config(4);
    assert_eq!(
        strategy.handle_recovering_state(&stats(10, 5), 2 * SECOND, 3, SECOND, 0),
        Some(2)
    );
    assert_eq!(strategy.current_state(), "degraded");
}

#[test]
fn the_first_step_creates_tasks() {
    let mut strategy = ConcurrencyControlStrategy::new(ConcurrencyControlConfig::default(), 2);
    let mut sampler = RunnerOutcomeSampler::with_defaults();
    let mut context = ConcurrencyControlContext {
        max_concurrency: 2,
        active_runners: 0,
        sampler: &mut sampler,
        available_chunks: vec![0..10, 20..30, 40..50],
    };
    let actions = strategy.step_at(&mut context, 1, 2);
    assert_eq!(actions.len(), 2);
    match (&actions[0], &actions[1]) {
        (StrategyAction::CreateTask(first), StrategyAction::CreateTask(second)) => {
            assert_eq!(*first, 0..10);
            assert_eq!(*second, 20..30);
        }
        other => panic!("unexpected {:?}", other),
    }

    // Later only the free places are filled
    let mut later = ConcurrencyControlContext {
        max_concurrency: 2,
        active_runners: 1,
        sampler: &mut sampler,
        available_chunks: vec![40..50, 60..70],
    };
    assert_eq!(strategy.step_at(&mut later, 3, 4).len(), 1);
}

#[test]
fn a_rejection_degrades_at_once() {
    let mut strategy = ConcurrencyControlStrategy::with_default_config(4);
    strategy.first_execute = false;
    let mut sampler = RunnerOutcomeSampler::with_defaults();
    sampler.record_at(RunnerOutcome::ConnectFailed(FailureKind::Unretryable), 10);
    let mut context = ConcurrencyControlContext {
        max_concurrency: 4,
        active_runners: 3,
        sampler: &mut sampler,
        available_chunks: vec![0..10],
    };
    assert!(matches!(
        strategy.step_at(&mut context, 20, 21)[..],
        [StrategyAction::ChangeMaxConcurrency(3)]
    ));
    assert_eq!(strategy.current_state(), "degraded");
    assert_eq!(<ConcurrencyControlStrategy as Strategy>::name(), "concurrency_control");
}

#[test]
fn a_rejection_leaves_the_minimum() {
    let mut strategy = ConcurrencyControlStrategy::with_default_config(4);
    strategy.first_execute = false;
    let mut sampler = RunnerOutcomeSampler::with_defaults();
    sampler.record_at(RunnerOutcome::StreamClosed(FailureKind::Unretryable), 10);
    let mut context = ConcurrencyControlContext {
        max_concurrency: 4,
        active_runners: 0,
        sampler: &mut sampler,
        available_chunks: vec![0..10],
    };
    assert!(matches!(
        strategy.step_at(&mut context, 20, 21)[..],
        [StrategyAction::ChangeMaxConcurrency(1)]
    ));
    assert!(matches!(
        strategy.state,
        StrategyState::Degraded { target_concurrency: 1, degraded_at: 20 }
    ));
}

#[test]
fn no_more_tasks_than_ranges_are_created() {
    assert_eq!(create_tasks(&vec![0..10, 10..20], 5).len(), 2);
    assert_eq!(create_tasks(&vec![0..10, 10..20], 0).len(), 0);
}

fn context(speed: u64, per_runner: u64, current: usize) -> DynamicStrategyContext {
    DynamicStrategyContext {
        speed,
        per_runner_speed: Ratio::new(per_runner * current as u64, current as u64),
        current_concurrency: current,
        max_concurrency: 8,
        planned_chunk_size: 100,
        remaining_largest_runner_id: 5,
    }
}

#[test]
fn a_quick_start_splits_until_the_speed_is_expected() {
    let mut strategy = DynamicStrategy::new(10, 10);
    assert_eq!(strategy.current_stage, DynamicPlannerStage::QuickStart);
    assert!(matches!(
        strategy.step(&mut context(100, 50, 1))[..],
        [StrategyAction::SplitAllTask(100)]
    ));
    assert_eq!(strategy.current_stage, DynamicPlannerStage::QuickStart);

    // The speed has doubled: from now on one task is split at a time
    assert!(matches!(
        strategy.step(&mut context(205, 50, 2))[..],
        [StrategyAction::SplitGivenTask(5)]
    ));
    assert_eq!(strategy.current_stage, DynamicPlannerStage::Normal);
    assert!(strategy.step(&mut context(260, 50, 3)).is_empty());

    // Without room nothing is split
    assert!(strategy.step(&mut context(900, 50, 7)).is_empty());

    // The average is not rounded: 911 and a third are expected, and 900 is off by more
    // than the threshold
    let mut thirds = context(900, 0, 3);
    thirds.per_runner_speed = Ratio::new(34, 3);
    assert_eq!(strategy.step(&mut thirds).len(), 1);
    assert_eq!(<DynamicStrategy as Strategy>::name(), "dynamic");
}

#[test]
fn control_creates_tasks_first_and_then_rests() {
    let mut manager = RunnerManager::<u8>::new(1000, 2);
    let mut control = StrategyControl::new(2);
    match control.execute_at(2, 0, Ratio::new(0, 1), &mut manager, 1, 2) {
        Some((name, actions)) => {
            assert_eq!(name, "concurrency_control");
            assert_eq!(actions.len(), 1);
            assert!(matches!(&actions[0], StrategyAction::CreateTask(range) if *range == (0..1000)));
        }
        None => panic!("nothing was proposed"),
    }
    manager.allocate_pending_runner_with_chunk(0..1000).unwrap();
    assert!(control.execute_at(2, 0, Ratio::new(0, 1), &mut manager, 3, 4).is_none());
}

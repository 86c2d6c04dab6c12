//! What the strategies decide, in terms of what they are given.
use crate::concurrency_control::{
    ConcurrencyControlConfig, ConcurrencyControlStrategy, StrategyState,
};
use crate::dynamic::{DynamicPlannerStage, DynamicStrategy, DynamicStrategyContext};
use crate::outcome::{FailureKind, OutcomeRecord, OutcomeStats, RunnerOutcome, RunnerOutcomeSampler};
use crate::strategy::StrategyAction;
use crate::{clock, concurrency_control, outcome, strategy, strategy_control};
use std::ops::Range;
use std::time::Duration;
use vstd::prelude::*;

verus! {

/// The failures among the samples are at least as frequent as a threshold, or as a part of
/// it: `parts` times the failures reach it.
pub open spec fn failing(config: ConcurrencyControlConfig, stats: OutcomeStats, parts: int) -> bool {
    let threshold = config.failure_rate_threshold;
    if stats.total == 0 {
        threshold.numerator == 0
    } else {
        parts * ((stats.total - stats.completed) * threshold.denominator) >= threshold.numerator
            * stats.total
    }
}

/// So many nanoseconds have passed.
pub open spec fn passed(now: u64, since: u64, time: Duration) -> bool {
    if since <= now {
        now - since >= clock::nanos(time)
    } else {
        clock::nanos(time) == 0
    }
}

/// The state and the request are a step down from a concurrency, to no less than the
/// minimum.
pub open spec fn steps_down(
    next: (StrategyState, Option<usize>),
    from: usize,
    step: usize,
    minimum: usize,
    now: u64,
) -> bool {
    &&& next.0 matches StrategyState::Degraded { target_concurrency, degraded_at }
    &&& degraded_at == now
    &&& next.1 == Some(target_concurrency)
    &&& target_concurrency >= minimum
    &&& target_concurrency == minimum || target_concurrency == from - step
    &&& from - step <= target_concurrency
}

/// The state and the request are a step up from a concurrency, to no more than the
/// maximum.
pub open spec fn steps_up(
    next: (StrategyState, Option<usize>),
    from: usize,
    step: usize,
    maximum: usize,
    stats: OutcomeStats,
    now: u64,
) -> bool {
    &&& next.0 matches StrategyState::Recovering { trial_concurrency, started_at, initial_failures }
    &&& started_at == now
    &&& initial_failures == stats.total - stats.completed
    &&& next.1 == Some(trial_concurrency)
    &&& trial_concurrency <= maximum
    &&& trial_concurrency == maximum || trial_concurrency == from + step
    &&& trial_concurrency <= from + step
}

/// The share of the failures reaches the threshold where the failures do.
proof fn shares_are_failures(config: ConcurrencyControlConfig, stats: OutcomeStats)
    requires
        stats.completed <= stats.total,
    ensures
        stats.failure_share().reaches(config.failure_rate_threshold) <==> failing(config, stats, 1),
        2 * (stats.failure_share().numerator * config.failure_rate_threshold.denominator)
            >= config.failure_rate_threshold.numerator * stats.failure_share().denominator
            <==> failing(config, stats, 2),
{
    let threshold = config.failure_rate_threshold;
    assert(0 * threshold.denominator == 0 && threshold.numerator * 1 == threshold.numerator)
        by (nonlinear_arith);
    let product = (stats.total - stats.completed) * threshold.denominator;
    assert(1 * product == product);
}

/// Law: in normal operation the strategy degrades exactly where there are enough samples,
/// the failures among them reach the threshold, and more than the minimum is allowed. It
/// then asks for a step less, and remembers since when. Otherwise nothing changes.
pub proof fn frequent_failures_degrade(
    config: ConcurrencyControlConfig,
    initial_max_concurrency: usize,
    max_concurrency: usize,
    stats: OutcomeStats,
    now: u64,
)
    requires
        stats.completed <= stats.total,
    ensures
        ({
            let next = concurrency_control::next_state(
                config,
                initial_max_concurrency,
                StrategyState::Normal,
                max_concurrency,
                stats,
                now,
            );
            if stats.total >= config.min_samples && failing(config, stats, 1) && max_concurrency
                > config.min_concurrency {
                steps_down(
                    next,
                    max_concurrency,
                    config.degradation_step,
                    config.min_concurrency,
                    now,
                )
            } else {
                next == (StrategyState::Normal, None::<usize>)
            }
        }),
{
    shares_are_failures(config, stats);
}

/// Law: a degraded strategy waits for its delay, and on until the failures are less than
/// half as frequent as the threshold. Then it tries a step more, or returns to normal
/// operation where no more is allowed.
pub proof fn degradation_ends_when_failures_do(
    config: ConcurrencyControlConfig,
    initial_max_concurrency: usize,
    target_concurrency: usize,
    degraded_at: u64,
    max_concurrency: usize,
    stats: OutcomeStats,
    now: u64,
)
    requires
        stats.completed <= stats.total,
    ensures
        ({
            let state = StrategyState::Degraded { target_concurrency, degraded_at };
            let next = concurrency_control::next_state(
                config,
                initial_max_concurrency,
                state,
                max_concurrency,
                stats,
                now,
            );
            if !passed(now, degraded_at, config.recovery_delay) || failing(config, stats, 2) {
                next == (state, None::<usize>)
            } else if config.recovery_step > 0 && initial_max_concurrency > target_concurrency {
                steps_up(
                    next,
                    target_concurrency,
                    config.recovery_step,
                    initial_max_concurrency,
                    stats,
                    now,
                )
            } else {
                next == (StrategyState::Normal, None::<usize>)
            }
        }),
{
    shares_are_failures(config, stats);
}

/// Law: a recovery is given up at once where the failures reach the threshold. Otherwise
/// it is watched for its period; then it is taken back where the failures since it began
/// reach the threshold, and goes on by a step, up to the initial maximum and with it back
/// to normal operation, where they do not.
pub proof fn recoveries_are_tried_step_by_step(
    config: ConcurrencyControlConfig,
    initial_max_concurrency: usize,
    trial_concurrency: usize,
    started_at: u64,
    initial_failures: usize,
    max_concurrency: usize,
    stats: OutcomeStats,
    now: u64,
)
    requires
        stats.completed <= stats.total,
    ensures
        ({
            let state = StrategyState::Recovering {
                trial_concurrency,
                started_at,
                initial_failures,
            };
            let next = concurrency_control::next_state(
                config,
                initial_max_concurrency,
                state,
                max_concurrency,
                stats,
                now,
            );
            let threshold = config.failure_rate_threshold;
            let failures = stats.total - stats.completed;
            let fresh = if failures > initial_failures {
                failures - initial_failures
            } else {
                0
            };
            let samples = stats.total - initial_failures;
            let fails_again = if samples > 0 {
                fresh * threshold.denominator >= threshold.numerator * samples
            } else {
                threshold.numerator == 0
            };
            if failing(config, stats, 1) {
                steps_down(
                    next,
                    trial_concurrency,
                    config.degradation_step,
                    config.min_concurrency,
                    now,
                )
            } else if !passed(now, started_at, config.recovery_observation_period) {
                next == (state, None::<usize>)
            } else if fails_again {
                steps_down(
                    next,
                    trial_concurrency,
                    config.recovery_step,
                    config.min_concurrency,
                    now,
                )
            } else if trial_concurrency < initial_max_concurrency {
                steps_up(
                    next,
                    trial_concurrency,
                    config.recovery_step,
                    initial_max_concurrency,
                    stats,
                    now,
                )
            } else {
                next == (StrategyState::Normal, None::<usize>)
            }
        }),
{
    shares_are_failures(config, stats);
    let threshold = config.failure_rate_threshold;
    assert(0 * threshold.denominator == 0 && threshold.numerator * 1 == threshold.numerator)
        by (nonlinear_arith);
}

/// The actions create one task for each of the first of some ranges: as many as there is
/// room for.
pub open spec fn creates_tasks(
    actions: Seq<StrategyAction>,
    ranges: Seq<Range<u64>>,
    room: int,
) -> bool {
    &&& actions.len() <= ranges.len()
    &&& room <= 0 ==> actions.len() == 0
    &&& room > 0 ==> actions.len() <= room && (actions.len() == room || actions.len()
        == ranges.len())
    &&& forall|i: int|
        0 <= i < actions.len() ==> #[trigger] actions[i] == StrategyAction::CreateTask(ranges[i])
}

/// Law: what a run of concurrency control proposes. The first one fills all places. Later,
/// an unretryable failure within its window keeps the runners that are active, but no
/// fewer than the minimum, and is then forgotten. Otherwise the samples within the window
/// decide, and where they ask for no other concurrency, the free places are filled.
pub proof fn control_goes_by_the_samples(
    before: ConcurrencyControlStrategy,
    after: ConcurrencyControlStrategy,
    max_concurrency: usize,
    active_runners: usize,
    available_chunks: Seq<Range<u64>>,
    sampler_before: RunnerOutcomeSampler,
    sampler: RunnerOutcomeSampler,
    now: u64,
    sampled_at: u64,
    actions: Seq<StrategyAction>,
    stats: OutcomeStats,
)
    requires
        after.stepped(
            &before,
            max_concurrency,
            active_runners,
            available_chunks,
            &sampler_before,
            &sampler,
            now,
            sampled_at,
            actions,
        ),
        outcome::counts(sampler.records@, stats),
    ensures
        !after.first_execute,
        ({
            let lately = sampler_before.last_unretryable_at matches Some(last) && (last
                > sampled_at || sampled_at - last <= clock::nanos(
                before.config.unretryable_detection_window,
            ));
            if before.first_execute {
                &&& creates_tasks(actions, available_chunks, max_concurrency as int)
                &&& after.state == before.state
                &&& sampler == sampler_before
            } else if lately {
                &&& actions.len() == 1
                &&& actions[0] matches StrategyAction::ChangeMaxConcurrency(concurrency) && {
                    &&& concurrency >= active_runners
                    &&& concurrency >= before.config.min_concurrency
                    &&& concurrency == active_runners || concurrency
                        == before.config.min_concurrency
                    &&& after.state == (StrategyState::Degraded {
                        target_concurrency: concurrency,
                        degraded_at: now,
                    })
                }
                &&& sampler.last_unretryable_at is None
            } else {
                let next = concurrency_control::next_state(
                    before.config,
                    before.initial_max_concurrency,
                    before.state,
                    max_concurrency,
                    stats,
                    now,
                );
                &&& after.state == next.0
                &&& match next.1 {
                    Some(concurrency) => actions.len() == 1 && actions[0]
                        == StrategyAction::ChangeMaxConcurrency(concurrency),
                    None => creates_tasks(
                        actions,
                        available_chunks,
                        max_concurrency - active_runners,
                    ),
                }
            }
        }),
{
    if !before.first_execute && !outcome::failed_lately(
        sampler_before.last_unretryable_at,
        before.config.unretryable_detection_window,
        sampled_at,
    ) {
        let counted = choose|counted: OutcomeStats|
            {
                &&& #[trigger] outcome::counts(sampler.records@, counted)
                &&& after.state == concurrency_control::next_state(
                    before.config,
                    before.initial_max_concurrency,
                    before.state,
                    max_concurrency,
                    counted,
                    now,
                ).0
                &&& actions == match concurrency_control::next_state(
                    before.config,
                    before.initial_max_concurrency,
                    before.state,
                    max_concurrency,
                    counted,
                    now,
                ).1 {
                    Some(change) => seq![StrategyAction::ChangeMaxConcurrency(change)],
                    None => strategy::new_tasks(
                        available_chunks,
                        if active_runners < max_concurrency {
                            max_concurrency - active_runners
                        } else {
                            0
                        },
                    ),
                }
            };
        assert(counted == stats);
    }
}

/// Law: of the records exactly those at the front that are older than the window are
/// dropped.
pub proof fn only_old_records_are_dropped(records: Seq<OutcomeRecord>, now: u64, window: Duration)
    ensures
        exists|k: int|
            {
                &&& 0 <= k <= records.len()
                &&& outcome::unexpired(records, now, window) == #[trigger] records.skip(k)
                &&& forall|i: int|
                    0 <= i < k ==> (#[trigger] records[i]).timestamp < now && now
                        - records[i].timestamp > clock::nanos(window)
                &&& k < records.len() ==> records[k].timestamp > now || now - records[k].timestamp
                    <= clock::nanos(window)
            },
    decreases records.len(),
{
    if records.len() > 0 && outcome::is_expired(records.first(), now, window) {
        let rest = records.drop_first();
        only_old_records_are_dropped(rest, now, window);
        let k = choose|k: int|
            {
                &&& 0 <= k <= rest.len()
                &&& outcome::unexpired(rest, now, window) == #[trigger] rest.skip(k)
                &&& forall|i: int|
                    0 <= i < k ==> (#[trigger] rest[i]).timestamp < now && now - rest[i].timestamp
                        > clock::nanos(window)
                &&& k < rest.len() ==> rest[k].timestamp > now || now - rest[k].timestamp
                    <= clock::nanos(window)
            };
        assert(rest.skip(k) =~= records.skip(k + 1));
        assert forall|i: int| 0 <= i < k + 1 implies (#[trigger] records[i]).timestamp < now && now
            - records[i].timestamp > clock::nanos(window) by {
            if i > 0 {
                assert(rest[i - 1] == records[i]);
            }
        }
    } else {
        assert(records.skip(0) =~= records);
    }
}

/// Law: an outcome is recorded behind those that are not too old, the oldest give way to
/// it where there are too many, and an unretryable failure is remembered with its time.
pub proof fn outcomes_are_recorded(
    before: RunnerOutcomeSampler,
    after: RunnerOutcomeSampler,
    now: u64,
    outcome: RunnerOutcome,
)
    requires
        after.recorded(&before, now, outcome),
    ensures
        ({
            let all = outcome::unexpired(before.records@, now, before.time_window).push(
                OutcomeRecord { timestamp: now, outcome },
            );
            &&& all.len() <= before.max_records ==> after.records@ == all
            &&& all.len() > before.max_records ==> after.records@.len() == before.max_records
            &&& forall|i: int|
                0 <= i < after.records@.len() ==> #[trigger] after.records@[i] == all[all.len()
                    - after.records@.len() + i]
        }),
        outcome == RunnerOutcome::ConnectFailed(FailureKind::Unretryable) || outcome
            == RunnerOutcome::StreamClosed(FailureKind::Unretryable) ==> after.last_unretryable_at
            == Some(now),
        outcome == RunnerOutcome::Completed || outcome == RunnerOutcome::ConnectFailed(
            FailureKind::Retryable,
        ) || outcome == RunnerOutcome::StreamClosed(FailureKind::Retryable)
            ==> after.last_unretryable_at == before.last_unretryable_at,
{
}

/// Law: one more record is counted once, under its outcome.
pub proof fn a_record_is_counted_once(
    records: Seq<OutcomeRecord>,
    record: OutcomeRecord,
    outcome: RunnerOutcome,
)
    ensures
        outcome::count_of(records.push(record), outcome) == outcome::count_of(records, outcome) + (
        if record.outcome == outcome {
            1int
        } else {
            0int
        }),
        outcome::count_of(Seq::empty(), outcome) == 0,
{
    assert(records.push(record).drop_last() =~= records);
}

/// Law: what the splitting strategy proposes. In quick start all tasks are split where the
/// speed is off twice the previous one by more than the threshold and there is room for
/// twice the runners. Otherwise the task with the most left is split where the speed is
/// off the previous one and a runner's share by more than the threshold and there is room
/// for one more. In no other case anything is split, and quick start ends with the first
/// run that does not split all.
pub proof fn tasks_are_split_for_speed(strategy: DynamicStrategy, context: DynamicStrategyContext)
    requires
        context.per_runner_speed.denominator > 0,
    ensures
        ({
            let proposal = strategy.proposal(context);
            let after = strategy.after_run(context);
            let speed = context.speed as int;
            let previous = strategy.previous_total_download_speed as int;
            let count = context.per_runner_speed.denominator as int;
            let off_twice = speed - 2 * previous > strategy.threashold1 || 2 * previous - speed
                > strategy.threashold1;
            let expected = previous * count + context.per_runner_speed.numerator;
            let off_one = speed * count - expected > strategy.threashold2 * count || expected
                - speed * count > strategy.threashold2 * count;
            let quick = strategy.current_stage == DynamicPlannerStage::QuickStart;
            let all = quick && off_twice && context.current_concurrency
                + context.current_concurrency < context.max_concurrency;
            &&& after.previous_total_download_speed == context.speed
            &&& after.current_stage == DynamicPlannerStage::QuickStart <==> all
            &&& after.threashold1 == strategy.threashold1
            &&& after.threashold2 == strategy.threashold2
            &&& if all {
                proposal.len() == 1 && proposal[0] == StrategyAction::SplitAllTask(
                    context.planned_chunk_size,
                )
            } else if off_one && context.current_concurrency + 1 < context.max_concurrency {
                proposal.len() == 1 && proposal[0] == StrategyAction::SplitGivenTask(
                    context.remaining_largest_runner_id,
                )
            } else {
                proposal.len() == 0
            }
        }),
{
}

/// Law: chunks are planned for two seconds of download.
pub proof fn chunks_last_two_seconds(speed: u64)
    ensures
        strategy_control::planned_size(speed) == if speed <= u64::MAX / 2 {
            speed + speed
        } else {
            u64::MAX as int
        },
{
}

} // verus!

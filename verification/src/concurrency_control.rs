//! The strategy that controls the max concurrency of the task, according to the
//! failure rate of the runners.
use crate::clock::{elapsed_since, Clock};
use crate::outcome::{OutcomeStats, RunnerOutcomeSampler};
use crate::ratio::Ratio;
use crate::strategy::{create_tasks, Strategy, StrategyAction};
use crate::{clock, outcome, strategy};
use std::ops::Range;
use std::time::Duration;
use vstd::prelude::*;

verus! {

/// The configuration for the concurrency control strategy.
#[derive(Clone, Copy, Debug)]
pub struct ConcurrencyControlConfig {
    /// The threshold for triggering degradation.
    pub failure_rate_threshold: Ratio,
    /// The minimum number of samples (to avoid misjudgment when the samples are
    /// too few).
    pub min_samples: usize,
    /// The time to wait for recovery after degradation.
    pub recovery_delay: Duration,
    /// The observation period for recovery.
    pub recovery_observation_period: Duration,
    /// The number of concurrency to decrease each time of degradation.
    pub degradation_step: usize,
    /// The number of concurrency to increase each time of recovery.
    pub recovery_step: usize,
    /// The minimum concurrency.
    pub min_concurrency: usize,
    /// The window for detecting unretryable errors.
    pub unretryable_detection_window: Duration,
}

impl ConcurrencyControlConfig {
    /// The configuration is the default one.
    pub open spec fn is_default(&self) -> bool {
        &&& self.failure_rate_threshold == (Ratio { numerator: 3, denominator: 10 })
        &&& self.min_samples == 5
        &&& clock::nanos(self.recovery_delay) == 30 * 1_000_000_000
        &&& clock::nanos(self.recovery_observation_period) == 15 * 1_000_000_000
        &&& self.degradation_step == 1
        &&& self.recovery_step == 1
        &&& self.min_concurrency == 1
        &&& clock::nanos(self.unretryable_detection_window) == 5 * 1_000_000_000
    }
}

impl Default for ConcurrencyControlConfig {
    fn default() -> (config: Self)
        ensures
            config.is_default(),
    {
        ConcurrencyControlConfig {
            failure_rate_threshold: Ratio::new(3, 10),
            // runner count is relatively few, reduce the threshold
            min_samples: 5,
            recovery_delay: Duration::from_secs(30),
            recovery_observation_period: Duration::from_secs(15),
            degradation_step: 1,
            recovery_step: 1,
            min_concurrency: 1,
            unretryable_detection_window: Duration::from_secs(5),
        }
    }
}

/// The context for the concurrency control strategy.
#[derive(Debug)]
pub struct ConcurrencyControlContext<'a> {
    /// The current maximum concurrency.
    pub max_concurrency: usize,
    /// The current active runner count.
    pub active_runners: usize,
    /// The sampler.
    pub sampler: &'a mut RunnerOutcomeSampler,
    /// The available chunks.
    pub available_chunks: Vec<Range<u64>>,
}

/// The state of the concurrency control strategy. Times are nanoseconds of the
/// strategy's clock.
#[derive(Clone, Copy, Debug, PartialEq, Eq, Structural)]
pub enum StrategyState {
    /// Normal operation.
    Normal,
    /// Degraded.
    Degraded {
        /// The concurrency that was asked for.
        target_concurrency: usize,
        /// Since when.
        degraded_at: u64,
    },
    /// Recovering.
    Recovering {
        /// The concurrency on trial.
        trial_concurrency: usize,
        /// Since when.
        started_at: u64,
        /// The number of failures at the start of recovery, for comparison.
        initial_failures: usize,
    },
}

/// The larger of two numbers.
pub open spec fn larger(a: int, b: int) -> int {
    if a >= b {
        a
    } else {
        b
    }
}

/// The smaller of two numbers.
pub open spec fn smaller(a: int, b: int) -> int {
    if a <= b {
        a
    } else {
        b
    }
}

/// The concurrency lowered by a step, but to no less than the minimum.
pub open spec fn lowered(concurrency: usize, step: usize, minimum: usize) -> int {
    larger(concurrency - step, minimum as int)
}

/// The concurrency lowered by a step, but to no less than the minimum.
pub fn lower(concurrency: usize, step: usize, minimum: usize) -> (new_concurrency: usize)
    ensures
        new_concurrency == lowered(concurrency, step, minimum),
{
    let reduced = concurrency.saturating_sub(step);
    if reduced >= minimum {
        reduced
    } else {
        minimum
    }
}

/// The concurrency raised by a step, but to no more than the maximum.
pub open spec fn raised(concurrency: usize, step: usize, maximum: usize) -> int {
    smaller(concurrency + step, maximum as int)
}

/// The concurrency raised by a step, but to no more than the maximum.
pub fn raise(concurrency: usize, step: usize, maximum: usize) -> (new_concurrency: usize)
    ensures
        new_concurrency == raised(concurrency, step, maximum),
{
    let increased = concurrency.saturating_add(step);
    if increased <= maximum {
        increased
    } else {
        maximum
    }
}

/// The share of failures among the samples that came since the recovery began.
pub open spec fn recovery_rate(stats: OutcomeStats, initial_failures: usize) -> Ratio {
    let samples = stats.total - initial_failures;
    if samples > 0 {
        Ratio {
            numerator: larger(stats.total - stats.completed - initial_failures, 0) as u64,
            denominator: samples as u64,
        }
    } else {
        Ratio { numerator: 0, denominator: 1 }
    }
}

/// Where the strategy goes from normal operation, and the concurrency it asks for.
pub open spec fn from_normal(
    config: ConcurrencyControlConfig,
    max_concurrency: usize,
    stats: OutcomeStats,
    now: u64,
) -> (StrategyState, Option<usize>) {
    if stats.total >= config.min_samples && stats.failure_share().reaches(
        config.failure_rate_threshold,
    ) && max_concurrency > config.min_concurrency {
        let target = lowered(max_concurrency, config.degradation_step, config.min_concurrency);
        (
            StrategyState::Degraded { target_concurrency: target as usize, degraded_at: now },
            Some(target as usize),
        )
    } else {
        (StrategyState::Normal, None)
    }
}

/// Where the strategy goes once degraded, and the concurrency it asks for.
pub open spec fn from_degraded(
    config: ConcurrencyControlConfig,
    initial_max_concurrency: usize,
    target_concurrency: usize,
    degraded_at: u64,
    stats: OutcomeStats,
    now: u64,
) -> (StrategyState, Option<usize>) {
    let threshold = config.failure_rate_threshold;
    let share = stats.failure_share();
    let trial = raised(target_concurrency, config.recovery_step, initial_max_concurrency);
    if clock::time_since(now, degraded_at) < clock::nanos(config.recovery_delay) {
        (StrategyState::Degraded { target_concurrency, degraded_at }, None)
    } else if 2 * (share.numerator * threshold.denominator) >= threshold.numerator
        * share.denominator {
        (StrategyState::Degraded { target_concurrency, degraded_at }, None)
    } else if trial > target_concurrency {
        (
            StrategyState::Recovering {
                trial_concurrency: trial as usize,
                started_at: now,
                initial_failures: (stats.total - stats.completed) as usize,
            },
            Some(trial as usize),
        )
    } else {
        (StrategyState::Normal, None)
    }
}

/// Where the strategy goes while recovering, and the concurrency it asks for.
pub open spec fn from_recovering(
    config: ConcurrencyControlConfig,
    initial_max_concurrency: usize,
    trial_concurrency: usize,
    started_at: u64,
    initial_failures: usize,
    stats: OutcomeStats,
    now: u64,
) -> (StrategyState, Option<usize>) {
    let threshold = config.failure_rate_threshold;
    if stats.failure_share().reaches(threshold) {
        let fallback = lowered(
            trial_concurrency,
            config.degradation_step,
            config.min_concurrency,
        );
        (
            StrategyState::Degraded { target_concurrency: fallback as usize, degraded_at: now },
            Some(fallback as usize),
        )
    } else if clock::time_since(now, started_at) < clock::nanos(
        config.recovery_observation_period,
    ) {
        (StrategyState::Recovering { trial_concurrency, started_at, initial_failures }, None)
    } else if recovery_rate(stats, initial_failures).reaches(threshold) {
        let fallback = lowered(trial_concurrency, config.recovery_step, config.min_concurrency);
        (
            StrategyState::Degraded { target_concurrency: fallback as usize, degraded_at: now },
            Some(fallback as usize),
        )
    } else if trial_concurrency < initial_max_concurrency {
        let trial = raised(trial_concurrency, config.recovery_step, initial_max_concurrency);
        (
            StrategyState::Recovering {
                trial_concurrency: trial as usize,
                started_at: now,
                initial_failures: (stats.total - stats.completed) as usize,
            },
            Some(trial as usize),
        )
    } else {
        (StrategyState::Normal, None)
    }
}

/// Where the strategy goes, and the concurrency it asks for.
pub open spec fn next_state(
    config: ConcurrencyControlConfig,
    initial_max_concurrency: usize,
    state: StrategyState,
    max_concurrency: usize,
    stats: OutcomeStats,
    now: u64,
) -> (StrategyState, Option<usize>) {
    match state {
        StrategyState::Normal => from_normal(config, max_concurrency, stats, now),
        StrategyState::Degraded { target_concurrency, degraded_at } => from_degraded(
            config,
            initial_max_concurrency,
            target_concurrency,
            degraded_at,
            stats,
            now,
        ),
        StrategyState::Recovering { trial_concurrency, started_at, initial_failures } =>
            from_recovering(
                config,
                initial_max_concurrency,
                trial_concurrency,
                started_at,
                initial_failures,
                stats,
                now,
            ),
    }
}

/// The strategy.
#[derive(Debug)]
pub struct ConcurrencyControlStrategy {
    /// The configuration.
    pub config: ConcurrencyControlConfig,
    /// The state.
    pub state: StrategyState,
    /// The concurrency to which a recovery returns.
    pub initial_max_concurrency: usize,
    /// Whether the strategy has yet to run.
    pub first_execute: bool,
    /// The clock that degradation and recovery go by.
    pub clock: Clock,
}

impl ConcurrencyControlStrategy {
    /// The strategy has not run, and its configuration is the default one.
    pub open spec fn is_initial(&self, initial_max_concurrency: usize) -> bool {
        &&& self.config.is_default()
        &&& self.state == StrategyState::Normal
        &&& self.initial_max_concurrency == initial_max_concurrency
        &&& self.first_execute
        &&& self.clock.started()
    }

    /// A strategy in normal operation.
    pub fn new(config: ConcurrencyControlConfig, initial_max_concurrency: usize) -> (strategy: Self)
        ensures
            strategy.config == config,
            strategy.state == StrategyState::Normal,
            strategy.initial_max_concurrency == initial_max_concurrency,
            strategy.first_execute,
            strategy.clock.started(),
    {
        ConcurrencyControlStrategy {
            config,
            state: StrategyState::Normal,
            initial_max_concurrency,
            first_execute: true,
            clock: Clock::start(),
        }
    }

    /// A strategy in normal operation, with the default configuration.
    pub fn with_default_config(initial_max_concurrency: usize) -> (strategy: Self)
        ensures
            strategy.is_initial(initial_max_concurrency),
    {
        Self::new(ConcurrencyControlConfig::default(), initial_max_concurrency)
    }

    /// The two strategies are set up alike.
    pub open spec fn same_setup(&self, other: &ConcurrencyControlStrategy) -> bool {
        &&& self.config == other.config
        &&& self.initial_max_concurrency == other.initial_max_concurrency
        &&& self.clock == other.clock
    }

    /// The concurrency after an unretryable error: the active runners, but no fewer than
    /// the minimum.
    pub open spec fn degraded_to(&self, active_runners: usize) -> usize {
        larger(active_runners as int, self.config.min_concurrency as int) as usize
    }

    /// What an unretryable error of late leads to: no more runners than are active, but
    /// no fewer than the minimum.
    pub fn handle_immediate_degradation(&mut self, active_runners: usize, now: u64) -> (actions: Vec<
        StrategyAction,
    >)
        ensures
            final(self).same_setup(old(self)),
            final(self).first_execute == old(self).first_execute,
            final(self).state == (StrategyState::Degraded {
                target_concurrency: old(self).degraded_to(active_runners),
                degraded_at: now,
            }),
            actions@ == seq![
                StrategyAction::ChangeMaxConcurrency(old(self).degraded_to(active_runners)),
            ],
    {
        let new_concurrency: usize = if active_runners >= self.config.min_concurrency {
            active_runners
        } else {
            self.config.min_concurrency
        };
        self.state = StrategyState::Degraded {
            target_concurrency: new_concurrency,
            degraded_at: now,
        };
        vec![StrategyAction::ChangeMaxConcurrency(new_concurrency)]
    }

    /// Degrade where too many runners failed.
    pub fn handle_normal_state(
        &mut self,
        max_concurrency: usize,
        stats: &OutcomeStats,
        now: u64,
    ) -> (change: Option<usize>)
        requires
            old(self).state == StrategyState::Normal,
            stats.completed <= stats.total,
        ensures
            final(self).same_setup(old(self)),
            final(self).first_execute == old(self).first_execute,
            (final(self).state, change) == from_normal(
                old(self).config,
                max_concurrency,
                *stats,
                now,
            ),
    {
        // if the sample count is less than the minimum samples, do not degrade
        if stats.total < self.config.min_samples {
            return None;
        }
        if stats.failure_rate().at_least(&self.config.failure_rate_threshold) && max_concurrency
            > self.config.min_concurrency {
            let new_concurrency = lower(
                max_concurrency,
                self.config.degradation_step,
                self.config.min_concurrency,
            );
            self.state = StrategyState::Degraded {
                target_concurrency: new_concurrency,
                degraded_at: now,
            };
            return Some(new_concurrency);
        }
        None
    }

    /// Try to recover after a while, where few runners failed.
    pub fn handle_degraded_state(
        &mut self,
        stats: &OutcomeStats,
        now: u64,
        target_concurrency: usize,
        degraded_at: u64,
    ) -> (change: Option<usize>)
        requires
            old(self).state == (StrategyState::Degraded { target_concurrency, degraded_at }),
            stats.completed <= stats.total,
        ensures
            final(self).same_setup(old(self)),
            final(self).first_execute == old(self).first_execute,
            (final(self).state, change) == from_degraded(
                old(self).config,
                old(self).initial_max_concurrency,
                target_concurrency,
                degraded_at,
                *stats,
                now,
            ),
    {
        // if the recovery delay has not passed, do not recover
        let elapsed: u64 = elapsed_since(now, degraded_at);
        if (elapsed as u128) < self.config.recovery_delay.as_nanos() {
            return None;
        }
        if !stats.failure_rate().at_least_half(&self.config.failure_rate_threshold) {
            let trial = raise(
                target_concurrency,
                self.config.recovery_step,
                self.initial_max_concurrency,
            );
            if trial > target_concurrency {
                self.state = StrategyState::Recovering {
                    trial_concurrency: trial,
                    started_at: now,
                    initial_failures: stats.total_failures(),
                };
                return Some(trial);
            } else {
                // if the trial concurrency is already the maximum value, return to
                // normal state
                self.state = StrategyState::Normal;
            }
        }
        None
    }

    /// Go on with the recovery, or roll it back.
    pub fn handle_recovering_state(
        &mut self,
        stats: &OutcomeStats,
        now: u64,
        trial_concurrency: usize,
        started_at: u64,
        initial_failures: usize,
    ) -> (change: Option<usize>)
        requires
            old(self).state == (StrategyState::Recovering {
                trial_concurrency,
                started_at,
                initial_failures,
            }),
            stats.completed <= stats.total,
        ensures
            final(self).same_setup(old(self)),
            final(self).first_execute == old(self).first_execute,
            (final(self).state, change) == from_recovering(
                old(self).config,
                old(self).initial_max_concurrency,
                trial_concurrency,
                started_at,
                initial_failures,
                *stats,
                now,
            ),
    {
        let elapsed: u64 = elapsed_since(now, started_at);
        // if the failure rate has increased during recovery, immediately rollback
        if stats.failure_rate().at_least(&self.config.failure_rate_threshold) {
            let fallback = lower(
                trial_concurrency,
                self.config.degradation_step,
                self.config.min_concurrency,
            );
            self.state = StrategyState::Degraded {
                target_concurrency: fallback,
                degraded_at: now,
            };
            return Some(fallback);
        }
        if (elapsed as u128) < self.config.recovery_observation_period.as_nanos() {
            return None;
        }
        // only what came since the recovery began counts
        let new_failures: usize = stats.total_failures().saturating_sub(initial_failures);
        let recovery_samples: usize = stats.total.saturating_sub(initial_failures);
        let rate = if recovery_samples > 0 {
            Ratio::new(new_failures as u64, recovery_samples as u64)
        } else {
            Ratio::new(0, 1)
        };
        if !rate.at_least(&self.config.failure_rate_threshold) {
            if trial_concurrency < self.initial_max_concurrency {
                // continue to increase the concurrency
                let next_trial = raise(
                    trial_concurrency,
                    self.config.recovery_step,
                    self.initial_max_concurrency,
                );
                self.state = StrategyState::Recovering {
                    trial_concurrency: next_trial,
                    started_at: now,
                    initial_failures: stats.total_failures(),
                };
                Some(next_trial)
            } else {
                // if the recovery is successful, return to normal state
                self.state = StrategyState::Normal;
                None
            }
        } else {
            // if the recovery is failed, rollback the concurrency
            let fallback = lower(
                trial_concurrency,
                self.config.recovery_step,
                self.config.min_concurrency,
            );
            self.state = StrategyState::Degraded {
                target_concurrency: fallback,
                degraded_at: now,
            };
            Some(fallback)
        }
    }

    /// The current state.
    pub fn current_state(&self) -> (name: &str)
        ensures
            name@ == match self.state {
                StrategyState::Normal => "normal"@,
                StrategyState::Degraded { .. } => "degraded"@,
                StrategyState::Recovering { .. } => "recovering"@,
            },
    {
        match self.state {
            StrategyState::Normal => "normal",
            StrategyState::Degraded { .. } => "degraded",
            StrategyState::Recovering { .. } => "recovering",
        }
    }

    /// A run of the strategy: `now` is the time by its own clock, `sampled_at` by the
    /// sampler's.
    pub open spec fn stepped(
        &self,
        before: &ConcurrencyControlStrategy,
        max_concurrency: usize,
        active_runners: usize,
        available_chunks: Seq<Range<u64>>,
        sampler_before: &RunnerOutcomeSampler,
        sampler: &RunnerOutcomeSampler,
        now: u64,
        sampled_at: u64,
        actions: Seq<StrategyAction>,
    ) -> bool {
        let window = before.config.unretryable_detection_window;
        let recent = outcome::failed_lately(
            sampler_before.last_unretryable_at,
            window,
            sampled_at,
        );
        &&& self.same_setup(before)
        &&& !self.first_execute
        &&& sampler.same_setup(sampler_before)
        &&& if before.first_execute {
            // When first launch the task, create background runners for all
            // available chunks according to the current concurrency
            &&& self.state == before.state
            &&& *sampler == *sampler_before
            &&& actions == strategy::new_tasks(available_chunks, max_concurrency as int)
        } else if recent {
            &&& self.state == (StrategyState::Degraded {
                target_concurrency: before.degraded_to(active_runners),
                degraded_at: now,
            })
            &&& sampler.records@ == sampler_before.records@
            &&& sampler.last_unretryable_at is None
            &&& actions == seq![
                StrategyAction::ChangeMaxConcurrency(before.degraded_to(active_runners)),
            ]
        } else {
            &&& sampler.records@ == outcome::unexpired(
                sampler_before.records@,
                sampled_at,
                sampler_before.time_window,
            )
            &&& sampler.last_unretryable_at == sampler_before.last_unretryable_at
            &&& exists|stats: OutcomeStats|
                {
                    &&& #[trigger] outcome::counts(sampler.records@, stats)
                    &&& self.state == next_state(
                        before.config,
                        before.initial_max_concurrency,
                        before.state,
                        max_concurrency,
                        stats,
                        now,
                    ).0
                    &&& actions == match next_state(
                        before.config,
                        before.initial_max_concurrency,
                        before.state,
                        max_concurrency,
                        stats,
                        now,
                    ).1 {
                        Some(change) => seq![StrategyAction::ChangeMaxConcurrency(change)],
                        None => strategy::new_tasks(
                            available_chunks,
                            if active_runners < max_concurrency {
                                max_concurrency - active_runners
                            } else {
                                0
                            },
                        ),
                    }
                }
        }
    }

    /// A run of the strategy at given times.
    pub fn step_at(
        &mut self,
        context: &mut ConcurrencyControlContext<'_>,
        now: u64,
        sampled_at: u64,
    ) -> (actions: Vec<StrategyAction>)
        ensures
            final(self).stepped(
                old(self),
                old(context).max_concurrency,
                old(context).active_runners,
                old(context).available_chunks@,
                &*old(context).sampler,
                &*final(context).sampler,
                now,
                sampled_at,
                actions@,
            ),
            final(context).max_concurrency == old(context).max_concurrency,
            final(context).active_runners == old(context).active_runners,
            final(context).available_chunks == old(context).available_chunks,
            *final(final(context).sampler) == *final(old(context).sampler),
    {
        if self.first_execute {
            self.first_execute = false;
            return create_tasks(&context.available_chunks, context.max_concurrency);
        }
        if context.sampler.has_recent_unretryable_at(
            self.config.unretryable_detection_window,
            sampled_at,
        ) {
            return self.handle_immediate_degradation(context.active_runners, now);
        }
        let stats = context.sampler.stats_at(sampled_at);
        let change = match self.state {
            StrategyState::Normal => self.handle_normal_state(
                context.max_concurrency,
                &stats,
                now,
            ),
            StrategyState::Degraded { target_concurrency, degraded_at } =>
                self.handle_degraded_state(&stats, now, target_concurrency, degraded_at),
            StrategyState::Recovering { trial_concurrency, started_at, initial_failures } =>
                self.handle_recovering_state(
                    &stats,
                    now,
                    trial_concurrency,
                    started_at,
                    initial_failures,
                ),
        };
        if let Some(concurrency) = change {
            let actions = vec![StrategyAction::ChangeMaxConcurrency(concurrency)];
            assert(actions@ =~= seq![StrategyAction::ChangeMaxConcurrency(concurrency)]);
            return actions;
        }
        // When the active runners are less than the max concurrency, create
        // background runners for all available chunks
        if context.active_runners < context.max_concurrency {
            return create_tasks(
                &context.available_chunks,
                context.max_concurrency - context.active_runners,
            );
        }
        // No action
        let none: Vec<StrategyAction> = Vec::new();
        assert(none@ =~= strategy::new_tasks(context.available_chunks@, 0));
        none
    }
}

impl Strategy for ConcurrencyControlStrategy {
    type Context<'a> = ConcurrencyControlContext<'a>;

    fn name() -> (name: &'static str)
        ensures
            name@ == "concurrency_control"@,
    {
        "concurrency_control"
    }

    fn step(&mut self, context: &mut ConcurrencyControlContext<'_>) -> (actions: Vec<
        StrategyAction,
    >)
        ensures
            exists|now: u64, sampled_at: u64| #[trigger]
                final(self).stepped(
                    old(self),
                    old(context).max_concurrency,
                    old(context).active_runners,
                    old(context).available_chunks@,
                    &*old(context).sampler,
                    &*final(context).sampler,
                    now,
                    sampled_at,
                    actions@,
                ) && old(self).clock.shows(now) && old(context).sampler.clock.shows(sampled_at),
            final(context).max_concurrency == old(context).max_concurrency,
            final(context).active_runners == old(context).active_runners,
            final(context).available_chunks == old(context).available_chunks,
            *final(final(context).sampler) == *final(old(context).sampler),
    {
        let now = self.clock.now_nanos();
        let sampled_at = context.sampler.clock.now_nanos();
        self.step_at(context, now, sampled_at)
    }
}

impl ConcurrencyControlStrategy {
    /// The concurrency that the strategy holds on to lies between the minimum and the
    /// initial maximum.
    pub open spec fn within_bounds(&self) -> bool {
        let minimum = self.config.min_concurrency;
        let maximum = self.initial_max_concurrency;
        &&& minimum <= maximum
        &&& match self.state {
            StrategyState::Normal => true,
            StrategyState::Degraded { target_concurrency, .. } => minimum <= target_concurrency
                <= maximum,
            StrategyState::Recovering { trial_concurrency, .. } => minimum <= trial_concurrency
                <= maximum,
        }
    }
}

/// Law: whatever a run looks at, the concurrency that it asks for, on account of
/// failure rates or of an unretryable error, lies between the minimum and the initial
/// maximum; and so does what the strategy holds on to after that.
pub proof fn concurrency_stays_in_bounds(
    before: ConcurrencyControlStrategy,
    after: ConcurrencyControlStrategy,
    max_concurrency: usize,
    active_runners: usize,
    available_chunks: Seq<Range<u64>>,
    sampler_before: RunnerOutcomeSampler,
    sampler: RunnerOutcomeSampler,
    now: u64,
    sampled_at: u64,
    actions: Seq<StrategyAction>,
)
    requires
        before.within_bounds(),
        max_concurrency <= before.initial_max_concurrency,
        active_runners <= before.initial_max_concurrency,
        after.stepped(
            &before,
            max_concurrency,
            active_runners,
            available_chunks,
            &sampler_before,
            &sampler,
            now,
            sampled_at,
            actions,
        ),
    ensures
        after.within_bounds(),
        forall|i: int|
            0 <= i < actions.len() ==> (#[trigger] actions[i] matches
                StrategyAction::ChangeMaxConcurrency(concurrency) ==>
                before.config.min_concurrency <= concurrency <= before.initial_max_concurrency),
{
}

/// Law: without a sampled failure the strategy never degrades.
pub proof fn success_never_degrades(
    config: ConcurrencyControlConfig,
    initial_max_concurrency: usize,
    state: StrategyState,
    max_concurrency: usize,
    stats: OutcomeStats,
    now: u64,
)
    requires
        config.failure_rate_threshold.numerator > 0,
        stats.completed == stats.total,
        !(state is Degraded),
    ensures
        !(next_state(
            config,
            initial_max_concurrency,
            state,
            max_concurrency,
            stats,
            now,
        ).0 is Degraded),
{
    no_failure_reaches_nothing(config.failure_rate_threshold, stats.failure_share());
    if let StrategyState::Recovering { initial_failures, .. } = state {
        no_failure_reaches_nothing(
            config.failure_rate_threshold,
            recovery_rate(stats, initial_failures),
        );
    }
}

/// A share of zero reaches no threshold above zero.
proof fn no_failure_reaches_nothing(threshold: Ratio, share: Ratio)
    requires
        threshold.numerator > 0,
        share.numerator == 0,
        share.wf(),
    ensures
        !share.reaches(threshold),
{
    assert(share.numerator * threshold.denominator == 0) by (nonlinear_arith)
        requires
            share.numerator == 0,
    ;
    assert(threshold.numerator * share.denominator > 0) by (nonlinear_arith)
        requires
            threshold.numerator > 0,
            share.denominator > 0,
    ;
}

} // verus!

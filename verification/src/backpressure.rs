//! Write backpressure strategy to prevent memory exhaustion from slow disk I/O.
//!
//! This strategy monitors the file writer queue depth and write speed,
//! dynamically adjusting concurrency to prevent excessive memory usage.
use crate::clock;
use crate::clock::{elapsed_since, Clock};
use crate::ratio::Ratio;
use crate::strategy::{Strategy, StrategyAction};
use std::time::Duration;
use vstd::prelude::*;

verus! {

/// How many writes the file writer's queue holds.
pub const FILE_WRITER_QUEUE_SIZE: usize = 2048;

/// Configuration for write backpressure control.
#[derive(Clone, Copy, Debug)]
pub struct WriteBackpressureConfig {
    /// High queue depth threshold (as a share of the max queue size).
    pub queue_depth_high_threshold: Ratio,
    /// Critical queue depth threshold (as a share of the max queue size).
    pub queue_depth_critical_threshold: Ratio,
    /// Write/download speed ratio threshold.
    pub write_speed_ratio_threshold: Ratio,
    /// Minimum interval between actions.
    pub min_action_interval: Duration,
    /// Degradation step (how many runners to reduce).
    pub degradation_step: usize,
    /// Minimum concurrency to maintain.
    pub min_concurrency: usize,
}

impl WriteBackpressureConfig {
    /// The configuration is the default one.
    pub open spec fn is_default(&self) -> bool {
        &&& self.queue_depth_high_threshold == (Ratio { numerator: 3, denominator: 4 })
        &&& self.queue_depth_critical_threshold == (Ratio { numerator: 9, denominator: 10 })
        &&& self.write_speed_ratio_threshold == (Ratio { numerator: 1, denominator: 2 })
        &&& clock::nanos(self.min_action_interval) == 3 * 1_000_000_000
        &&& self.degradation_step == 1
        &&& self.min_concurrency == 1
    }
}

impl Default for WriteBackpressureConfig {
    fn default() -> (config: Self)
        ensures
            config.is_default(),
    {
        WriteBackpressureConfig {
            queue_depth_high_threshold: Ratio::new(3, 4),
            queue_depth_critical_threshold: Ratio::new(9, 10),
            // Write speed < 50% of download speed
            write_speed_ratio_threshold: Ratio::new(1, 2),
            // Minimum time between backpressure actions to avoid thrashing
            min_action_interval: Duration::from_secs(3),
            degradation_step: 1,
            min_concurrency: 1,
        }
    }
}

/// Backpressure state.
#[derive(Clone, Copy, Debug, PartialEq, Eq, Structural)]
pub enum BackpressureState {
    /// Normal operation.
    Normal,
    /// High queue depth detected.
    High,
    /// Critical queue depth - immediate action required.
    Critical,
}

/// Write backpressure strategy context. Speeds are in whole bytes per second.
#[derive(Clone, Copy, Debug)]
pub struct WriteBackpressureContext {
    /// Current queue depth.
    pub queue_depth: usize,
    /// Write speed (bytes/sec).
    pub write_speed: u64,
    /// Download speed (bytes/sec).
    pub download_speed: u64,
    /// Current active concurrency.
    pub current_concurrency: usize,
    /// Maximum allowed concurrency.
    pub max_concurrency: usize,
}

impl WriteBackpressureContext {
    /// How fast is written compared with how fast is downloaded.
    pub open spec fn write_ratio(&self) -> Ratio {
        if self.download_speed > 0 {
            Ratio { numerator: self.write_speed, denominator: self.download_speed }
        } else {
            Ratio { numerator: 1, denominator: 1 }
        }
    }
}

/// The backpressure at a queue depth.
pub open spec fn pressure(config: WriteBackpressureConfig, queue_depth: usize) -> BackpressureState {
    let share = Ratio {
        numerator: queue_depth as u64,
        denominator: FILE_WRITER_QUEUE_SIZE as u64,
    };
    if share.reaches(config.queue_depth_critical_threshold) {
        BackpressureState::Critical
    } else if share.reaches(config.queue_depth_high_threshold) {
        BackpressureState::High
    } else {
        BackpressureState::Normal
    }
}

/// By how many runners to reduce under a backpressure.
pub open spec fn reduction(
    config: WriteBackpressureConfig,
    current: usize,
    state: BackpressureState,
) -> usize {
    let quarter = current / 4;
    if state == BackpressureState::Critical && quarter > config.degradation_step {
        quarter
    } else {
        config.degradation_step
    }
}

/// The concurrency that fits a backpressure, if it calls for one.
pub open spec fn fitting_concurrency(
    config: WriteBackpressureConfig,
    current: usize,
    state: BackpressureState,
) -> Option<usize> {
    let reduced = current - reduction(config, current, state);
    if state == BackpressureState::Normal {
        None
    } else if reduced >= config.min_concurrency {
        Some(reduced as usize)
    } else {
        Some(config.min_concurrency)
    }
}

/// Write backpressure control strategy.
#[derive(Debug)]
pub struct WriteBackpressureStrategy {
    /// The configuration.
    pub config: WriteBackpressureConfig,
    /// The backpressure at the last run.
    pub state: BackpressureState,
    /// When the last action was taken.
    pub last_action_time: Option<u64>,
    /// The clock that action times go by.
    pub clock: Clock,
}

impl WriteBackpressureStrategy {
    /// Create a new write backpressure strategy with default config.
    pub fn with_default_config() -> (strategy: Self)
        ensures
            strategy.config.is_default(),
            strategy.state == BackpressureState::Normal,
            strategy.last_action_time is None,
            strategy.clock.started(),
    {
        Self::with_config(WriteBackpressureConfig::default())
    }

    /// Create a new write backpressure strategy with custom config.
    pub fn with_config(config: WriteBackpressureConfig) -> (strategy: Self)
        ensures
            strategy.config == config,
            strategy.state == BackpressureState::Normal,
            strategy.last_action_time is None,
            strategy.clock.started(),
    {
        WriteBackpressureStrategy {
            config,
            state: BackpressureState::Normal,
            last_action_time: None,
            clock: Clock::start(),
        }
    }

    /// Determine the current backpressure state based on queue depth.
    pub fn determine_state(&self, queue_depth: usize) -> (state: BackpressureState)
        ensures
            state == pressure(self.config, queue_depth),
    {
        let queue_depth_ratio = Ratio::new(queue_depth as u64, FILE_WRITER_QUEUE_SIZE as u64);
        if queue_depth_ratio.at_least(&self.config.queue_depth_critical_threshold) {
            BackpressureState::Critical
        } else if queue_depth_ratio.at_least(&self.config.queue_depth_high_threshold) {
            BackpressureState::High
        } else {
            BackpressureState::Normal
        }
    }

    /// Enough time has passed since the last action.
    pub open spec fn action_due(&self, now: u64) -> bool {
        match self.last_action_time {
            None => true,
            Some(last_time) => clock::time_since(now, last_time) >= clock::nanos(
                self.config.min_action_interval,
            ),
        }
    }

    /// Check if we should take action based on time throttling.
    pub fn should_take_action(&self, now: u64) -> (due: bool)
        ensures
            due == self.action_due(now),
    {
        match self.last_action_time {
            None => true,
            Some(last_time) => {
                let elapsed: u64 = elapsed_since(now, last_time);
                elapsed as u128 >= self.config.min_action_interval.as_nanos()
            },
        }
    }

    /// Calculate the new concurrency level.
    pub fn calculate_new_concurrency(&self, current: usize, state: BackpressureState) -> (level: Option<
        usize,
    >)
        ensures
            level == fitting_concurrency(self.config, current, state),
    {
        let step = match state {
            BackpressureState::Critical => {
                // Reduce by 25% or degradation_step, whichever is larger
                if current / 4 > self.config.degradation_step {
                    current / 4
                } else {
                    self.config.degradation_step
                }
            },
            // Gradual reduction
            BackpressureState::High => self.config.degradation_step,
            BackpressureState::Normal => {
                return None;
            },
        };
        let new_concurrency = current.saturating_sub(step);
        if new_concurrency >= self.config.min_concurrency {
            Some(new_concurrency)
        } else {
            Some(self.config.min_concurrency)
        }
    }

    /// The reduced concurrency that a run at a given time calls for, if any: under
    /// critical backpressure always, under high backpressure where writing is slow
    /// and the last action is some time ago.
    pub open spec fn called_for(&self, context: WriteBackpressureContext, now: u64) -> Option<
        usize,
    > {
        let state = pressure(self.config, context.queue_depth);
        let level = fitting_concurrency(self.config, context.current_concurrency, state);
        let acts = match state {
            BackpressureState::Critical => true,
            BackpressureState::High => !context.write_ratio().reaches(
                self.config.write_speed_ratio_threshold,
            ) && self.action_due(now),
            BackpressureState::Normal => false,
        };
        if acts && level->0 < context.current_concurrency {
            level
        } else {
            None
        }
    }

    /// A run of the strategy at a given time.
    pub open spec fn stepped(
        &self,
        before: &WriteBackpressureStrategy,
        context: WriteBackpressureContext,
        now: u64,
        actions: Seq<StrategyAction>,
    ) -> bool {
        &&& self.config == before.config
        &&& self.clock == before.clock
        &&& self.state == pressure(before.config, context.queue_depth)
        &&& match before.called_for(context, now) {
            Some(level) => {
                &&& actions == seq![StrategyAction::ChangeMaxConcurrency(level)]
                &&& self.last_action_time == Some(now)
            },
            None => {
                &&& actions == Seq::<StrategyAction>::empty()
                &&& self.last_action_time == before.last_action_time
            },
        }
    }

    /// A run of the strategy at a given time.
    pub fn step_at(&mut self, context: &WriteBackpressureContext, now: u64) -> (actions: Vec<
        StrategyAction,
    >)
        ensures
            final(self).stepped(old(self), *context, now, actions@),
    {
        let new_state = self.determine_state(context.queue_depth);
        // Update state
        self.state = new_state;
        let acts = match new_state {
            // Critical state: always take action immediately
            BackpressureState::Critical => true,
            // High state: take action if write speed is also slow
            BackpressureState::High => {
                let write_ratio = if context.download_speed > 0 {
                    Ratio::new(context.write_speed, context.download_speed)
                } else {
                    Ratio::new(1, 1)
                };
                !write_ratio.at_least(&self.config.write_speed_ratio_threshold)
                    && self.should_take_action(now)
            },
            BackpressureState::Normal => false,
        };
        let mut actions: Vec<StrategyAction> = Vec::new();
        if acts {
            if let Some(new_concurrency) = self.calculate_new_concurrency(
                context.current_concurrency,
                new_state,
            ) {
                if new_concurrency < context.current_concurrency {
                    actions.push(StrategyAction::ChangeMaxConcurrency(new_concurrency));
                    self.last_action_time = Some(now);
                    assert(actions@ =~= seq![
                        StrategyAction::ChangeMaxConcurrency(new_concurrency),
                    ]);
                }
            }
        }
        actions
    }
}

impl Strategy for WriteBackpressureStrategy {
    type Context<'a> = WriteBackpressureContext;

    fn name() -> (name: &'static str)
        ensures
            name@ == "WriteBackpressure"@,
    {
        "WriteBackpressure"
    }

    fn step(&mut self, context: &mut WriteBackpressureContext) -> (actions: Vec<StrategyAction>)
        ensures
            exists|now: u64| #[trigger]
                final(self).stepped(old(self), *old(context), now, actions@)
                    && old(self).clock.shows(now),
            *final(context) == *old(context),
    {
        let now = self.clock.now_nanos();
        self.step_at(context, now)
    }
}

/// Law: a run only ever lowers the concurrency, and not below the minimum.
pub proof fn backpressure_only_lowers(
    strategy: WriteBackpressureStrategy,
    context: WriteBackpressureContext,
    now: u64,
)
    requires
        strategy.called_for(context, now) is Some,
    ensures
        strategy.config.min_concurrency <= strategy.called_for(context, now)->0
            < context.current_concurrency,
{
}

/// Law: a deeper queue never means less backpressure.
pub proof fn pressure_grows_with_depth(
    config: WriteBackpressureConfig,
    shallow: usize,
    deep: usize,
)
    requires
        shallow <= deep,
    ensures
        pressure(config, shallow) == BackpressureState::Critical ==> pressure(config, deep)
            == BackpressureState::Critical,
        pressure(config, deep) == BackpressureState::Normal ==> pressure(config, shallow)
            == BackpressureState::Normal,
{
    let critical = config.queue_depth_critical_threshold.denominator;
    let high = config.queue_depth_high_threshold.denominator;
    assert(shallow * critical <= deep * critical) by (nonlinear_arith)
        requires
            shallow <= deep,
            critical >= 0,
    ;
    assert(shallow * high <= deep * high) by (nonlinear_arith)
        requires
            shallow <= deep,
            high >= 0,
    ;
}

/// Law: after an action, none follows under high backpressure until the interval has
/// passed.
pub proof fn actions_are_throttled(
    before: WriteBackpressureStrategy,
    after: WriteBackpressureStrategy,
    context: WriteBackpressureContext,
    at: u64,
    actions: Seq<StrategyAction>,
    later_context: WriteBackpressureContext,
    later: u64,
)
    requires
        after.stepped(&before, context, at, actions),
        actions.len() > 0,
        pressure(after.config, later_context.queue_depth) == BackpressureState::High,
        clock::time_since(later, at) < clock::nanos(after.config.min_action_interval),
    ensures
        after.called_for(later_context, later) is None,
{
}

} // verus!

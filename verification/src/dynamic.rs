//! The strategy that splits running tasks while that makes the download faster.
use crate::ratio::Ratio;
use crate::strategy::{Strategy, StrategyAction};
use crate::{ratio, RunnerId};
use vstd::prelude::*;

verus! {

/// How boldly tasks are split.
#[derive(Clone, Copy, Debug, PartialEq, Eq, Structural)]
pub enum DynamicPlannerStage {
    /// All at once.
    QuickStart,
    /// One by one.
    Normal,
}

/// The strategy. Speeds are in bytes per second.
#[derive(Debug)]
pub struct DynamicStrategy {
    /// By how much the speed must differ from twice the previous one to split all.
    pub threashold1: u64,
    /// By how much the speed must differ from the expected one to split one.
    pub threashold2: u64,
    /// How boldly tasks are split.
    pub current_stage: DynamicPlannerStage,
    /// The speed that was last seen.
    pub previous_total_download_speed: u64,
}

impl Default for DynamicStrategy {
    fn default() -> (strategy: Self)
        ensures
            strategy == (DynamicStrategy {
                threashold1: 1_048_576,
                threashold2: 1_048_576,
                current_stage: DynamicPlannerStage::QuickStart,
                previous_total_download_speed: 0,
            }),
    {
        DynamicStrategy {
            threashold1: 1024 * 1024,
            // 1MB/s minimum speed threashold
            threashold2: 1024 * 1024,
            current_stage: DynamicPlannerStage::QuickStart,
            previous_total_download_speed: 0,
        }
    }
}

/// What the strategy looks at. Speeds are in bytes per second.
#[derive(Clone, Copy, Debug)]
pub struct DynamicStrategyContext {
    /// The total download speed of the task.
    pub speed: u64,
    /// The average download speed of the runners: the speed of all, and their number.
    pub per_runner_speed: Ratio,
    /// The current concurrency of the task.
    pub current_concurrency: usize,
    /// The maximum concurrency of the task.
    pub max_concurrency: usize,
    /// The planned chunk size of the task.
    pub planned_chunk_size: u64,
    /// The largest remaining download bytes of a runner.
    pub remaining_largest_runner_id: RunnerId,
}

/// The distance between two numbers.
pub open spec fn distance(a: int, b: int) -> int {
    if a >= b {
        a - b
    } else {
        b - a
    }
}

/// Whether the distance between two speeds exceeds a threshold.
fn differs(speed: u128, expected: u128, threshold: u128) -> (differs: bool)
    ensures
        differs == (distance(speed as int, expected as int) > threshold),
{
    if speed >= expected {
        speed - expected > threshold
    } else {
        expected - speed > threshold
    }
}

impl DynamicStrategy {
    /// A strategy with the given thresholds.
    pub fn new(threashold1: u64, threashold2: u64) -> (strategy: Self)
        ensures
            strategy == (DynamicStrategy {
                threashold1,
                threashold2,
                current_stage: DynamicPlannerStage::QuickStart,
                previous_total_download_speed: 0,
            }),
    {
        DynamicStrategy {
            threashold1,
            threashold2,
            current_stage: DynamicPlannerStage::QuickStart,
            previous_total_download_speed: 0,
        }
    }

    /// All tasks are to be split: the strategy is still in quick start, the speed
    /// differs from twice the previous one, and there is room for twice the runners.
    pub open spec fn splits_all(&self, context: DynamicStrategyContext) -> bool {
        &&& self.current_stage == DynamicPlannerStage::QuickStart
        &&& distance(context.speed as int, 2 * self.previous_total_download_speed)
            > self.threashold1
        &&& 2 * context.current_concurrency < context.max_concurrency
    }

    /// One task is to be split: the speed differs from the one expected of one more
    /// runner, and there is room for one. All is multiplied by the number of runners, so
    /// that their average is met exactly.
    pub open spec fn splits_one(&self, context: DynamicStrategyContext) -> bool {
        let runners = context.per_runner_speed.denominator;
        &&& distance(
            context.speed * runners,
            self.previous_total_download_speed * runners + context.per_runner_speed.numerator,
        ) > self.threashold2 * runners
        &&& context.current_concurrency + 1 < context.max_concurrency
    }

    /// What a run proposes.
    pub open spec fn proposal(&self, context: DynamicStrategyContext) -> Seq<StrategyAction> {
        if self.splits_all(context) {
            seq![StrategyAction::SplitAllTask(context.planned_chunk_size)]
        } else if self.splits_one(context) {
            seq![StrategyAction::SplitGivenTask(context.remaining_largest_runner_id)]
        } else {
            Seq::empty()
        }
    }

    /// The strategy after a run.
    pub open spec fn after_run(&self, context: DynamicStrategyContext) -> DynamicStrategy {
        DynamicStrategy {
            threashold1: self.threashold1,
            threashold2: self.threashold2,
            current_stage: if self.splits_all(context) {
                DynamicPlannerStage::QuickStart
            } else {
                DynamicPlannerStage::Normal
            },
            previous_total_download_speed: context.speed,
        }
    }
}

impl Strategy for DynamicStrategy {
    type Context<'a> = DynamicStrategyContext;

    fn name() -> (name: &'static str)
        ensures
            name@ == "dynamic"@,
    {
        "dynamic"
    }

    fn step(&mut self, context: &mut DynamicStrategyContext) -> (actions: Vec<StrategyAction>)
        ensures
            actions@ == old(self).proposal(*old(context)),
            *final(self) == old(self).after_run(*old(context)),
            *final(context) == *old(context),
    {
        let mut result: Vec<StrategyAction> = Vec::new();
        let total_download_speed = context.speed;
        let previous: u128 = self.previous_total_download_speed as u128;
        if matches!(self.current_stage, DynamicPlannerStage::QuickStart) {
            if differs(total_download_speed as u128, 2 * previous, self.threashold1 as u128)
                && context.current_concurrency.saturating_add(context.current_concurrency)
                < context.max_concurrency {
                result.push(StrategyAction::SplitAllTask(context.planned_chunk_size));
                self.previous_total_download_speed = total_download_speed;
                return result;
            }
            self.current_stage = DynamicPlannerStage::Normal;
        }
        let all: u64 = context.per_runner_speed.numerator;
        let runners: u64 = context.per_runner_speed.denominator;
        proof {
            ratio::product_fits(total_download_speed, runners);
            ratio::product_fits(self.threashold2, runners);
            ratio::product_and_sum_fit(self.previous_total_download_speed, runners, all);
        }
        let expected: u128 = previous * runners as u128 + all as u128;
        if differs(
            total_download_speed as u128 * runners as u128,
            expected,
            self.threashold2 as u128 * runners as u128,
        )
            && context.current_concurrency.saturating_add(1) < context.max_concurrency {
            // If the current download speed differs by more than the threshold, split
            // the given task into two tasks
            result.push(StrategyAction::SplitGivenTask(context.remaining_largest_runner_id));
        }
        self.previous_total_download_speed = total_download_speed;
        result
    }
}

/// Law: tasks are only split while there is room for another runner.
pub proof fn splitting_keeps_room(strategy: DynamicStrategy, context: DynamicStrategyContext)
    ensures
        context.current_concurrency >= context.max_concurrency ==> strategy.proposal(context).len()
            == 0,
        strategy.proposal(context).len() <= 1,
{
}

/// Law: once out of quick start, the strategy never returns to it.
pub proof fn quick_start_ends_for_good(strategy: DynamicStrategy, context: DynamicStrategyContext)
    ensures
        strategy.current_stage == DynamicPlannerStage::Normal ==> strategy.after_run(
            context,
        ).current_stage == DynamicPlannerStage::Normal,
{
}

} // verus!

//! The strategies together: concurrency control first, then splitting.
use crate::concurrency_control::{ConcurrencyControlContext, ConcurrencyControlStrategy};
use crate::dynamic::{DynamicPlannerStage, DynamicStrategy, DynamicStrategyContext};
use crate::manager::RunnerManager;
use crate::ratio::Ratio;
use crate::strategy::{Strategy, StrategyAction};
use crate::{chunk_state, concurrency_control, concurrent, strategy, RunnerId};
use std::ops::Range;
use vstd::prelude::*;

verus! {

/// The strategies of a task.
#[derive(Debug)]
pub struct StrategyControl {
    /// Splits running tasks.
    pub dynamic_strategy: DynamicStrategy,
    /// Creates tasks and changes the max concurrency.
    pub concurrency_control_strategy: ConcurrencyControlStrategy,
}

/// The chunk size to aim at: what is downloaded in two seconds.
pub open spec fn planned_size(speed: u64) -> u64 {
    if 2 * speed <= u64::MAX {
        (2 * speed) as u64
    } else {
        u64::MAX
    }
}

/// The chunk size to aim at: what is downloaded in two seconds.
pub fn planned_chunk_size(speed: u64) -> (size: u64)
    ensures
        size == planned_size(speed),
{
    speed.saturating_add(speed)
}

impl StrategyControl {
    /// No strategy has run, and each is in its default setup.
    pub open spec fn is_initial(&self, initial_max_concurrency: usize) -> bool {
        &&& self.concurrency_control_strategy.is_initial(initial_max_concurrency)
        &&& self.dynamic_strategy == (DynamicStrategy {
            threashold1: 1_048_576,
            threashold2: 1_048_576,
            current_stage: DynamicPlannerStage::QuickStart,
            previous_total_download_speed: 0,
        })
    }

    /// The strategies at the start of a task.
    pub fn new(initial_max_concurrency: usize) -> (control: Self)
        ensures
            control.is_initial(initial_max_concurrency),
    {
        StrategyControl {
            dynamic_strategy: DynamicStrategy::default(),
            concurrency_control_strategy: ConcurrencyControlStrategy::with_default_config(
                initial_max_concurrency,
            ),
        }
    }

    /// What the splitting strategy looks at, given what was found to split.
    pub open spec fn split_context(
        &self,
        max_concurrency: usize,
        active_runners: usize,
        current_speed: u64,
        per_runner_avg_speed: Ratio,
        found: Option<(Option<RunnerId>, Range<u64>)>,
    ) -> Option<DynamicStrategyContext> {
        match found {
            Some((Some(runner_id), range)) => if active_runners < max_concurrency && range.end
                - range.start >= planned_size(current_speed) {
                Some(
                    DynamicStrategyContext {
                        speed: current_speed,
                        per_runner_speed: per_runner_avg_speed,
                        current_concurrency: active_runners,
                        max_concurrency,
                        remaining_largest_runner_id: runner_id,
                        planned_chunk_size: planned_size(current_speed),
                    },
                )
            } else {
                None
            },
            _ => None,
        }
    }

    /// A run of the strategies: concurrency control comes first, and only where it
    /// proposes nothing a running task is looked at.
    pub open spec fn executed<K>(
        &self,
        before: &StrategyControl,
        max_concurrency: usize,
        current_speed: u64,
        per_runner_avg_speed: Ratio,
        manager_before: &RunnerManager<K>,
        manager: &RunnerManager<K>,
        now: u64,
        sampled_at: u64,
        result: Option<(&'static str, Vec<StrategyAction>)>,
    ) -> bool {
        let active = chunk_state::active_keys(manager_before.chunk_planner.chunk_map()).len();
        exists|available: Seq<Range<u64>>, actions: Seq<StrategyAction>|
            {
                &&& #[trigger] manager_before.chunk_planner.lists_available(available)
                &&& #[trigger] self.concurrency_control_strategy.stepped(
                    &before.concurrency_control_strategy,
                    max_concurrency,
                    active as usize,
                    available,
                    &manager_before.runner_outcome_sampler,
                    &manager.runner_outcome_sampler,
                    now,
                    sampled_at,
                    actions,
                )
                &&& if actions.len() > 0 {
                    &&& self.dynamic_strategy == before.dynamic_strategy
                    &&& result is Some
                    &&& (result->0).0@ == "concurrency_control"@
                    &&& (result->0).1@ == actions
                } else {
                    exists|found: Option<(Option<RunnerId>, Range<u64>)>|
                        {
                            &&& #[trigger] manager_before.chunk_planner.found_to_split(
                                planned_size(current_speed),
                                found,
                            )
                            &&& self.split(
                                before,
                                before.split_context(
                                    max_concurrency,
                                    active as usize,
                                    current_speed,
                                    per_runner_avg_speed,
                                    found,
                                ),
                                result,
                            )
                        }
                }
            }
    }

    /// A run of the splitting strategy, where there is something to look at.
    pub open spec fn split(
        &self,
        before: &StrategyControl,
        context: Option<DynamicStrategyContext>,
        result: Option<(&'static str, Vec<StrategyAction>)>,
    ) -> bool {
        match context {
            Some(context) => {
                let proposal = before.dynamic_strategy.proposal(context);
                &&& self.dynamic_strategy == before.dynamic_strategy.after_run(context)
                &&& if proposal.len() > 0 {
                    &&& result is Some
                    &&& (result->0).0@ == "dynamic"@
                    &&& (result->0).1@ == proposal
                } else {
                    result is None
                }
            },
            None => result is None && self.dynamic_strategy == before.dynamic_strategy,
        }
    }

    /// Runs the strategies at given times: `now` by the clock of concurrency control,
    /// `sampled_at` by the sampler's.
    pub fn execute_at<K>(
        &mut self,
        max_concurrency: usize,
        current_speed: u64,
        per_runner_avg_speed: Ratio,
        runner_manager: &mut RunnerManager<K>,
        now: u64,
        sampled_at: u64,
    ) -> (result: Option<(&'static str, Vec<StrategyAction>)>)
        requires
            old(runner_manager).wf(),
            old(runner_manager).chunk_planner.split_fits(planned_size(current_speed)),
        ensures
            final(runner_manager).wf(),
            final(runner_manager).chunk_planner == old(runner_manager).chunk_planner,
            final(runner_manager).same_runners(old(runner_manager)),
            final(runner_manager).same_streams(old(runner_manager)),
            final(runner_manager).pending_runners == old(runner_manager).pending_runners,
            final(self).executed(
                old(self),
                max_concurrency,
                current_speed,
                per_runner_avg_speed,
                old(runner_manager),
                final(runner_manager),
                now,
                sampled_at,
                result,
            ),
            old(runner_manager).orderly() ==> final(runner_manager).orderly() && (result matches
                Some(proposed) ==> proposes_well(final(runner_manager), proposed.1@)),
    {
        let active_runners: usize = runner_manager.get_active_runners_count();
        let available_chunks = runner_manager.get_available_ranges();
        let mut context = ConcurrencyControlContext {
            max_concurrency,
            active_runners,
            sampler: runner_manager.runner_outcome_sampler_mut(),
            available_chunks,
        };
        let actions = self.concurrency_control_strategy.step_at(&mut context, now, sampled_at);
        if actions.len() > 0 {
            return Some((ConcurrencyControlStrategy::name(), actions));
        }
        let planned_chunk_size: u64 = planned_chunk_size(current_speed);
        let found = runner_manager.find_chunk_to_split(planned_chunk_size);
        if active_runners < max_concurrency {
            if let Some((Some(runner_id), suggested_range)) = &found {
                if suggested_range.end - suggested_range.start >= planned_chunk_size {
                    // split the chunk
                    let mut strategy_context = DynamicStrategyContext {
                        speed: current_speed,
                        per_runner_speed: per_runner_avg_speed,
                        current_concurrency: active_runners,
                        max_concurrency,
                        remaining_largest_runner_id: *runner_id,
                        planned_chunk_size,
                    };
                    let actions = self.dynamic_strategy.step(&mut strategy_context);
                    if actions.len() > 0 {
                        let result = Some((DynamicStrategy::name(), actions));
                        proof {
                            if old(runner_manager).orderly() {
                                proposals_act_well(
                                    *old(self),
                                    *self,
                                    max_concurrency,
                                    current_speed,
                                    per_runner_avg_speed,
                                    *old(runner_manager),
                                    *runner_manager,
                                    now,
                                    sampled_at,
                                    result,
                                );
                            }
                        }
                        return result;
                    }
                }
            }
        }
        None
    }

    /// Runs the strategies.
    pub fn execute<K>(
        &mut self,
        max_concurrency: usize,
        current_speed: u64,
        per_runner_avg_speed: Ratio,
        runner_manager: &mut RunnerManager<K>,
    ) -> (result: Option<(&'static str, Vec<StrategyAction>)>)
        requires
            old(runner_manager).wf(),
            old(runner_manager).chunk_planner.split_fits(planned_size(current_speed)),
        ensures
            final(runner_manager).wf(),
            final(runner_manager).chunk_planner == old(runner_manager).chunk_planner,
            final(runner_manager).same_runners(old(runner_manager)),
            final(runner_manager).same_streams(old(runner_manager)),
            final(runner_manager).pending_runners == old(runner_manager).pending_runners,
            exists|now: u64, sampled_at: u64| #[trigger]
                final(self).executed(
                    old(self),
                    max_concurrency,
                    current_speed,
                    per_runner_avg_speed,
                    old(runner_manager),
                    final(runner_manager),
                    now,
                    sampled_at,
                    result,
                ) && old(self).concurrency_control_strategy.clock.shows(now) && old(runner_manager).runner_outcome_sampler.clock.shows(sampled_at),
            old(runner_manager).orderly() ==> final(runner_manager).orderly() && (result matches
                Some(proposed) ==> proposes_well(final(runner_manager), proposed.1@)),
    {
        let now = self.concurrency_control_strategy.clock.now_nanos();
        let sampled_at = runner_manager.runner_outcome_sampler.clock.now_nanos();
        self.execute_at(
            max_concurrency,
            current_speed,
            per_runner_avg_speed,
            runner_manager,
            now,
            sampled_at,
        )
    }
}

/// One of so many actions can be carried out and leaves the plan consistent, and if it
/// splits, it is the only one.
pub open spec fn acts_alone<K>(
    manager: &RunnerManager<K>,
    action: StrategyAction,
    count: nat,
) -> bool {
    &&& concurrent::acts_well(manager, action)
    &&& action matches StrategyAction::SplitAllTask(min_chunk_size) ==>
        manager.chunk_planner.can_list_incomplete(Some(min_chunk_size))
    &&& strategy::splits(action) ==> count == 1
}

/// Each of the actions can be carried out and leaves the plan consistent, and one that
/// splits is the only one.
pub open spec fn proposes_well<K>(
    manager: &RunnerManager<K>,
    actions: Seq<StrategyAction>,
) -> bool {
    forall|i: int|
        0 <= i < actions.len() ==> acts_alone(manager, #[trigger] actions[i], actions.len())
}

/// Law: a running task is only split where no byte of the content is available.
pub proof fn splits_only_what_is_taken<K>(
    before: StrategyControl,
    after: StrategyControl,
    max_concurrency: usize,
    current_speed: u64,
    per_runner_avg_speed: Ratio,
    manager_before: RunnerManager<K>,
    manager: RunnerManager<K>,
    now: u64,
    sampled_at: u64,
    result: Option<(&'static str, Vec<StrategyAction>)>,
)
    requires
        after.executed(
            &before,
            max_concurrency,
            current_speed,
            per_runner_avg_speed,
            &manager_before,
            &manager,
            now,
            sampled_at,
            result,
        ),
        result is Some,
        (result->0).0@ == "dynamic"@,
    ensures
        forall|x: int| !#[trigger] manager_before.chunk_planner.available(x),
{
    reveal_strlit("dynamic");
    reveal_strlit("concurrency_control");
    assert("dynamic"@.len() != "concurrency_control"@.len());
}

/// Law: the max concurrency that the strategies ask for lies between the minimum and
/// the initial maximum, and what they hold on to stays there.
pub proof fn proposals_stay_in_bounds<K>(
    before: StrategyControl,
    after: StrategyControl,
    max_concurrency: usize,
    current_speed: u64,
    per_runner_avg_speed: Ratio,
    manager_before: RunnerManager<K>,
    manager: RunnerManager<K>,
    now: u64,
    sampled_at: u64,
    result: Option<(&'static str, Vec<StrategyAction>)>,
)
    requires
        before.concurrency_control_strategy.within_bounds(),
        max_concurrency <= before.concurrency_control_strategy.initial_max_concurrency,
        chunk_state::active_keys(manager_before.chunk_planner.chunk_map()).len()
            <= before.concurrency_control_strategy.initial_max_concurrency,
        after.executed(
            &before,
            max_concurrency,
            current_speed,
            per_runner_avg_speed,
            &manager_before,
            &manager,
            now,
            sampled_at,
            result,
        ),
    ensures
        after.concurrency_control_strategy.within_bounds(),
        result matches Some(proposed) ==> forall|i: int|
            0 <= i < proposed.1@.len() ==> (#[trigger] proposed.1@[i] matches
                StrategyAction::ChangeMaxConcurrency(concurrency) ==>
                before.concurrency_control_strategy.config.min_concurrency <= concurrency
                <= before.concurrency_control_strategy.initial_max_concurrency),
{
    let active = chunk_state::active_keys(manager_before.chunk_planner.chunk_map()).len() as usize;
    let (available, actions) = choose|available: Seq<Range<u64>>, actions: Seq<StrategyAction>|
        {
            &&& #[trigger] manager_before.chunk_planner.lists_available(available)
            &&& #[trigger] after.concurrency_control_strategy.stepped(
                &before.concurrency_control_strategy,
                max_concurrency,
                active,
                available,
                &manager_before.runner_outcome_sampler,
                &manager.runner_outcome_sampler,
                now,
                sampled_at,
                actions,
            )
            &&& if actions.len() > 0 {
                result is Some && (result->0).1@ == actions
            } else {
                exists|found: Option<(Option<RunnerId>, Range<u64>)>|
                    {
                        &&& #[trigger] manager_before.chunk_planner.found_to_split(
                            planned_size(current_speed),
                            found,
                        )
                        &&& after.split(
                            &before,
                            before.split_context(
                                max_concurrency,
                                active,
                                current_speed,
                                per_runner_avg_speed,
                                found,
                            ),
                            result,
                        )
                    }
            }
        };
    concurrency_control::concurrency_stays_in_bounds(
        before.concurrency_control_strategy,
        after.concurrency_control_strategy,
        max_concurrency,
        active,
        available,
        manager_before.runner_outcome_sampler,
        manager.runner_outcome_sampler,
        now,
        sampled_at,
        actions,
    );
}

/// Law: what the strategies propose leaves a manager in order; and a proposal to split
/// stands alone, so that none meets a plan that another has changed.
pub proof fn proposals_act_well<K>(
    before: StrategyControl,
    after: StrategyControl,
    max_concurrency: usize,
    current_speed: u64,
    per_runner_avg_speed: Ratio,
    manager_before: RunnerManager<K>,
    manager: RunnerManager<K>,
    now: u64,
    sampled_at: u64,
    result: Option<(&'static str, Vec<StrategyAction>)>,
)
    requires
        manager_before.orderly(),
        manager.chunk_planner == manager_before.chunk_planner,
        manager.same_runners(&manager_before),
        after.executed(
            &before,
            max_concurrency,
            current_speed,
            per_runner_avg_speed,
            &manager_before,
            &manager,
            now,
            sampled_at,
            result,
        ),
    ensures
        manager.orderly(),
        result matches Some(proposed) ==> proposes_well(&manager, proposed.1@),
{
    let plan = manager.chunk_planner;
    if result is Some {
        let proposed = (result->0).1@;
        assert forall|i: int| 0 <= i < proposed.len() implies acts_alone(
            &manager,
            #[trigger] proposed[i],
            proposed.len(),
        ) by {
            if let StrategyAction::SplitAllTask(min_chunk_size) = proposed[i] {
                concurrent::all_can_be_split(manager, min_chunk_size);
            }
            if let StrategyAction::SplitGivenTask(runner_id) = proposed[i] {
                let key = choose|key: Range<u64>| #[trigger]
                    plan.chunk_map().contains_key(key) && plan.is_most_left(key)
                        && plan.chunk_map()[key].runner_id == Some(runner_id);
                concurrent::the_largest_can_be_split(manager, key);
            }
        }
    }
}

} // verus!

//! Strategies: rules that look at a running task and propose how to change it.
use std::ops::Range;
use vstd::prelude::*;

verus! {

/// The time between two runs of the strategies, in milliseconds.
pub const DEFAULT_STRATEGY_TICK_INTERVAL_MS: u64 = 1500;

/// A change that a strategy proposes.
#[derive(Debug)]
pub enum StrategyAction {
    /// Change the max concurrency of the task.
    ChangeMaxConcurrency(usize),
    /// Split all task into two separate tasks, with minimum chunk size.
    SplitAllTask(u64),
    /// Split given task (task_id).
    SplitGivenTask(usize),
    /// Create background runners for specific range, to speed up the download
    /// process.
    CreateTask(Range<u64>),
}

/// A rule that proposes changes.
pub trait Strategy {
    /// What the rule looks at.
    type Context<'a> where Self: 'a;

    /// What the rule is called.
    fn name() -> (name: &'static str);

    /// What the rule proposes.
    fn step(&mut self, context: &mut Self::Context<'_>) -> (actions: Vec<StrategyAction>);
}

/// One task for each of the first `count` ranges.
pub open spec fn new_tasks(ranges: Seq<Range<u64>>, count: int) -> Seq<StrategyAction> {
    let shown = if count < ranges.len() {
        count
    } else {
        ranges.len() as int
    };
    Seq::new(shown as nat, |i: int| StrategyAction::CreateTask(ranges[i]))
}

/// The action divides chunks that runners are at work on.
pub open spec fn splits(action: StrategyAction) -> bool {
    action is SplitAllTask || action is SplitGivenTask
}

/// One task for each of the first `count` ranges.
pub fn create_tasks(ranges: &Vec<Range<u64>>, count: usize) -> (actions: Vec<StrategyAction>)
    ensures
        actions@ == new_tasks(ranges@, count as int),
{
    let mut actions: Vec<StrategyAction> = Vec::new();
    let mut i: usize = 0;
    while i < ranges.len() && i < count
        invariant
            i <= ranges@.len(),
            i <= count,
            actions@ == new_tasks(ranges@, i as int),
        decreases ranges@.len() - i,
    {
        let range = ranges[i].start..ranges[i].end;
        actions.push(StrategyAction::CreateTask(range));
        i = i + 1;
        assert(actions@ =~= new_tasks(ranges@, i as int));
    }
    assert(new_tasks(ranges@, i as int) =~= new_tasks(ranges@, count as int));
    actions
}

/// Law: no more tasks are proposed than asked for, nor more than there are ranges.
pub proof fn new_tasks_stay_bounded(ranges: Seq<Range<u64>>, count: nat)
    ensures
        new_tasks(ranges, count as int).len() <= count,
        new_tasks(ranges, count as int).len() <= ranges.len(),
{
}

} // verus!

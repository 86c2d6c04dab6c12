//! A task with many runners: what it knows of the content, and how proposals of the
//! strategies are carried out.
use crate::adapter::{AdapterError, BoltLoadAdapterMeta, UnretryableError};
use crate::control_channel::{ControlReceiver, SendError};
use crate::manager::RunnerManager;
use crate::runner::ControlEvent;
use crate::runner_builder::TaskRunnerBuilder;
use crate::runner_error::TaskError;
use crate::strategy::StrategyAction;
use crate::task::{Progress, TaskInstanceError};
use crate::task_builder::downloading_name;
use crate::{
    chunk_state, manager, planner, planner_laws, range_set, task_builder, RunnerId,
};
use std::ops::Range;
use vstd::prelude::*;
use vstd::string::*;

verus! {

/// How many runners there may be where the machine does not say how many it can run
/// at once.
pub const DEFAULT_MAX_CONCURRENCY: usize = 4;

/// What a task with many runners knows.
#[derive(Debug)]
pub struct ConcurrentTaskInner {
    /// The progress of the task.
    pub progress: Progress,
}

/// The error with the given message.
pub open spec fn failed_with<T>(result: Result<T, TaskInstanceError>, message: Seq<char>) -> bool {
    &&& result is Err
    &&& result->Err_0 is Failed
    &&& result->Err_0->Failed_0 is Other
    &&& result->Err_0->Failed_0->message@ == message
}

/// The error with the given message.
pub fn fail<T>(message: String) -> (result: Result<T, TaskInstanceError>)
    ensures
        failed_with(result, message@),
{
    Err(TaskInstanceError::new_failed(TaskError::Other { message }))
}

impl ConcurrentTaskInner {
    /// Nothing is known.
    pub fn new() -> (task: Self)
        ensures
            task.progress.total is None,
            task.progress.downloaded == 0,
            task.progress.downloaded_chunks@.len() == 0,
    {
        ConcurrentTaskInner { progress: Progress::default() }
    }

    /// What the adapter said of the content was noted.
    pub open spec fn learnt(
        &self,
        before: &ConcurrentTaskInner,
        answer: Option<Result<BoltLoadAdapterMeta, AdapterError>>,
        result: Result<(), TaskInstanceError>,
    ) -> bool {
        match answer {
            None => {
                &&& failed_with(result, "Adapter not set before meta retrieval"@)
                &&& *self == *before
            },
            Some(Err(error)) => {
                &&& result == Err::<(), TaskInstanceError>(
                    TaskInstanceError::RetrieveMetaFailed(error),
                )
                &&& *self == *before
            },
            Some(Ok(meta)) => if meta.content_size == 0 {
                &&& refused_empty(result)
                &&& *self == *before
            } else {
                &&& result is Ok
                &&& self.progress.total == Some(meta.content_size)
                &&& self.progress.downloaded == if before.progress.total is Some
                    && before.progress.total != Some(meta.content_size) {
                    0
                } else {
                    before.progress.downloaded
                }
            },
        }
    }

    /// Take note of what the adapter said of the content; `answer` is none where there
    /// is no adapter. Where the size is another than before, the download starts
    /// anew. Content without a size cannot be downloaded by many runners.
    pub fn retrieve_meta(&mut self, answer: Option<
        Result<BoltLoadAdapterMeta, AdapterError>,
    >) -> (result: Result<(), TaskInstanceError>)
        ensures
            final(self).progress.downloaded_chunks == old(self).progress.downloaded_chunks,
            final(self).learnt(old(self), answer, result),
    {
        let meta = match answer {
            None => {
                return fail("Adapter not set before meta retrieval".to_string());
            },
            Some(Err(error)) => {
                return Err(TaskInstanceError::RetrieveMetaFailed(error));
            },
            Some(Ok(meta)) => meta,
        };
        if meta.content_size == 0 {
            let message = "content size is 0; concurrent task does not support 0-size file";
            return Err(
                TaskInstanceError::RetrieveMetaFailed(
                    AdapterError::Unretryable {
                        source: UnretryableError::Whatever {
                            message: message.to_string(),
                            source: None,
                        },
                    },
                ),
            );
        }
        let changed = match self.progress.total {
            Some(total) => total != meta.content_size,
            None => false,
        };
        if changed {
            self.progress.downloaded = 0;
        }
        self.progress.total = Some(meta.content_size);
        Ok(())
    }

    /// The name of the file into which the content is downloaded, and its size.
    pub fn file_to_write(&self, file_name: &str) -> (result: Result<
        (String, u64),
        TaskInstanceError,
    >)
        ensures
            match self.progress.total {
                Some(total) => {
                    &&& result is Ok
                    &&& result->Ok_0.0@ == if file_name@
                        == task_builder::DOWNLOADING_TMP_EXTENSION@ {
                        file_name@
                    } else {
                        file_name@ + task_builder::DOWNLOADING_TMP_EXTENSION@
                    }
                    &&& result->Ok_0.1 == total
                },
                None => failed_with(
                    result,
                    "File writer creation called before meta retrieval"@,
                ),
            },
    {
        match self.progress.total {
            Some(total) => Ok((downloading_name(file_name), total)),
            None => fail("File writer creation called before meta retrieval".to_string()),
        }
    }

    /// Sync the progress of the task.
    pub fn sync_progress<K>(&mut self, runner_manager: &RunnerManager<K>)
        requires
            runner_manager.wf(),
            chunk_state::total_progress(runner_manager.chunk_planner.chunk_map()) <= u64::MAX,
        ensures
            final(self).progress.total == old(self).progress.total,
            final(self).progress.downloaded == chunk_state::total_progress(
                runner_manager.chunk_planner.chunk_map(),
            ),
            runner_manager.chunk_planner.lists_fetched(final(self).progress.downloaded_chunks@),
    {
        self.progress.downloaded = runner_manager.get_total_downloaded();
        self.progress.downloaded_chunks = runner_manager.get_downloaded_ranges();
    }
}

/// Content without a size is refused.
pub open spec fn refused_empty(result: Result<(), TaskInstanceError>) -> bool {
    &&& result is Err
    &&& result->Err_0 is RetrieveMetaFailed
    &&& result->Err_0->RetrieveMetaFailed_0 is Unretryable
    &&& result->Err_0->RetrieveMetaFailed_0->Unretryable_source is Whatever
    &&& result->Err_0->RetrieveMetaFailed_0->Unretryable_source->Whatever_source is None
    &&& result->Err_0->RetrieveMetaFailed_0->Unretryable_source.text()
        == "content size is 0; concurrent task does not support 0-size file"@
}

/// A runner to be created.
#[derive(Debug)]
pub struct SpawnRunner {
    /// Its ID.
    pub runner_id: RunnerId,
    /// Where it hears from the manager.
    pub control_rx: ControlReceiver,
    /// What it is to download.
    pub range: Range<u64>,
}

impl ConcurrentTaskInner {
    /// What a runner in the background is built from; its stream has still to be
    /// connected. The runner is to download the whole range.
    pub fn create_background_range_runner<S, T>(spawn: SpawnRunner, cancel_token: T) -> (builder:
        TaskRunnerBuilder<S, ControlReceiver, T>)
        requires
            spawn.range.start <= spawn.range.end,
        ensures
            builder == (TaskRunnerBuilder::<S, ControlReceiver, T> {
                total: Some((spawn.range.end - spawn.range.start) as u64),
                stream: None,
                runner_id: Some(spawn.runner_id),
                control_signal: Some(spawn.control_rx),
                cancel_token: Some(cancel_token),
                data_drain_timeout_ms: None,
            }),
    {
        TaskRunnerBuilder::new().total(spawn.range.end - spawn.range.start).runner_id(
            spawn.runner_id,
        ).control_signal(spawn.control_rx).cancel_token(cancel_token)
    }
}

/// Why a proposal could not be carried out.
#[derive(Clone, Copy, Debug, PartialEq, Eq, Structural)]
pub enum ActionError {
    /// The runner has no chunk.
    UnknownRunner(RunnerId),
    /// The runner could not be told.
    NotTold(SendError),
    /// There is no ID for another runner, or its range cannot be allocated.
    NoRoom,
}

/// A runner was allocated for a range, and is being created.
pub open spec fn allocated_for<K>(
    before: &RunnerManager<K>,
    after: &RunnerManager<K>,
    spawn: SpawnRunner,
) -> bool {
    let registration = manager::RunnerRegistration {
        runner_id: spawn.runner_id,
        control_rx: spawn.control_rx,
    };
    &&& after.registered(before, registration)
    &&& after.same_streams(before)
    &&& after.runner_outcome_sampler == before.runner_outcome_sampler
    &&& after.pending_runners.runners@ == before.pending_runners.runners@.push(spawn.runner_id)
    &&& !after.pending_runners.waiting
}

/// Where a chunk is cut when it is split in the middle of what is left.
pub open spec fn middle(range: Range<u64>) -> int {
    range.start + (range.end - range.start) / 2
}

/// The chunk of a runner was split: it ends in the middle of what was left, and
/// another runner is being created for the rest.
pub open spec fn split_in_two<K>(
    before: &RunnerManager<K>,
    after: &RunnerManager<K>,
    runner_id: RunnerId,
    spawn: SpawnRunner,
) -> bool {
    let plan = before.chunk_planner;
    let chunk = plan.runner_chunk(runner_id)->0;
    let left = planner::unfinished_part(chunk).1;
    let cut = middle(left) as u64;
    let rest = Range { start: cut, end: left.end };
    &&& half_fits(before, runner_id)
    &&& allocated_for(before, after, spawn)
    &&& spawn.range == rest
    &&& after.chunk_planner.same_limits(&plan)
    &&& after.chunk_planner.chunk_map() == planner::with_end(
        plan.chunk_map(),
        chunk.allocated,
        cut,
    ).insert(
        rest,
        chunk_state::fresh_chunk(rest, Some(spawn.runner_id), chunk_state::ChunkStatus::Pending),
    )
    &&& after.chunk_planner.runner_map() == plan.runner_map().insert(
        runner_id,
        Range { start: chunk.allocated.start, end: cut },
    ).insert(spawn.runner_id, rest)
    &&& manager::sent_to(
        before.control_channels@,
        runner_id,
        ControlEvent::LimitTotal((cut - chunk.downloaded.start) as u64),
        Ok(()),
    )
}

/// The second half of what is left of a runner's chunk can be handed out: an ID is
/// free, and the plan has room for it once the runner keeps the first half only.
pub open spec fn half_fits<K>(manager: &RunnerManager<K>, runner_id: RunnerId) -> bool {
    let plan = manager.chunk_planner;
    let chunk = plan.runner_chunk(runner_id)->0;
    let left = planner::unfinished_part(chunk).1;
    let cut = middle(left) as u64;
    &&& manager.has_free_id()
    &&& planner::room_for(
        plan.total,
        plan.max_chunk_count,
        planner::with_end(plan.chunk_map(), chunk.allocated, cut),
        Range { start: cut, end: left.end },
    )
}

/// A split came to nothing: the runner has no chunk, it could not be told, or it was
/// told and the second half cannot be handed out. In the last case it keeps the first
/// half only.
pub open spec fn split_failed<K>(
    before: &RunnerManager<K>,
    after: &RunnerManager<K>,
    runner_id: RunnerId,
    error: ActionError,
) -> bool {
    let plan = before.chunk_planner;
    match error {
        ActionError::UnknownRunner(id) => {
            &&& id == runner_id
            &&& plan.runner_chunk(runner_id) is None
            &&& *after == *before
        },
        ActionError::NotTold(unsent) => {
            let chunk = plan.runner_chunk(runner_id)->0;
            let cut = middle(planner::unfinished_part(chunk).1);
            &&& plan.runner_chunk(runner_id) is Some
            &&& manager::sent_to(
                before.control_channels@,
                runner_id,
                ControlEvent::LimitTotal((cut - chunk.downloaded.start) as u64),
                Err(unsent),
            )
            &&& *after == *before
        },
        ActionError::NoRoom => {
            let chunk = plan.runner_chunk(runner_id)->0;
            let cut = middle(planner::unfinished_part(chunk).1) as u64;
            &&& plan.runner_chunk(runner_id) is Some
            &&& !half_fits(before, runner_id)
            &&& manager::sent_to(
                before.control_channels@,
                runner_id,
                ControlEvent::LimitTotal((cut - chunk.downloaded.start) as u64),
                Ok(()),
            )
            &&& after.handed_back(before)
            &&& after.chunk_planner.same_limits(&plan)
            &&& after.chunk_planner.chunk_map() == planner::with_end(
                plan.chunk_map(),
                chunk.allocated,
                cut,
            )
            &&& after.chunk_planner.runner_map() == plan.runner_map().insert(
                runner_id,
                Range { start: chunk.allocated.start, end: cut },
            )
        },
    }
}

/// The runner's chunk can be split so that both parts are chunks: the plan is
/// consistent, at least two bytes are left, and the number of chunks is not limited.
pub open spec fn splits_well<K>(manager: &RunnerManager<K>, runner_id: RunnerId) -> bool {
    &&& manager.chunk_planner.consistent()
    &&& manager.chunk_planner.max_chunk_count is None
    &&& manager.chunk_planner.runner_chunk(runner_id) is Some
    &&& manager.chunk_planner.runner_chunk(runner_id)->0.left() >= 2
}

/// Splits the chunk of a runner into two: the runner keeps the first half of what is
/// left, and another runner is to be created for the second.
pub fn split_task<K>(runner_manager: &mut RunnerManager<K>, runner_id: RunnerId) -> (result: Result<
    SpawnRunner,
    ActionError,
>)
    requires
        old(runner_manager).wf(),
    ensures
        final(runner_manager).wf(),
        match result {
            Ok(spawn) => old(runner_manager).chunk_planner.runner_chunk(runner_id) is Some
                && split_in_two(old(runner_manager), final(runner_manager), runner_id, spawn),
            Err(error) => split_failed(
                old(runner_manager),
                final(runner_manager),
                runner_id,
                error,
            ),
        },
        splits_well(old(runner_manager), runner_id) ==>
            final(runner_manager).chunk_planner.consistent(),
        splits_well(old(runner_manager), runner_id) && old(runner_manager).orderly() ==>
            final(runner_manager).orderly(),
{
    let incomplete_range = match runner_manager.get_runner_state(runner_id) {
        Some(state) => state.incomplete_range(),
        None => {
            return Err(ActionError::UnknownRunner(runner_id));
        },
    };
    let half_size: u64 = (incomplete_range.end - incomplete_range.start) / 2;
    if let Err(error) = runner_manager.resize_runner(runner_id, half_size) {
        return Err(ActionError::NotTold(error));
    }
    // Create a new runner for the remaining range
    let cut = incomplete_range.start + half_size;
    let end = incomplete_range.end;
    match runner_manager.allocate_pending_runner_with_chunk(cut..end) {
        Some(registration) => Ok(
            SpawnRunner {
                runner_id: registration.runner_id,
                control_rx: registration.control_rx,
                range: cut..end,
            },
        ),
        None => Err(ActionError::NoRoom),
    }
}

/// The runners' chunks can be split one after another: each runner occurs once, its ID
/// is in use, and its chunk can be split.
pub open spec fn all_split_well<K>(manager: &RunnerManager<K>, runners: Seq<RunnerId>) -> bool {
    &&& runners.no_duplicates()
    &&& forall|i: int|
        0 <= i < runners.len() ==> manager.allocated(#[trigger] runners[i]) && splits_well(
            manager,
            runners[i],
        )
}

/// What a proposal led to: runners to be created, and why not more, if it could not
/// be carried out as a whole.
#[derive(Debug)]
pub struct ActionOutcome {
    /// The runners to be created.
    pub spawned: Vec<SpawnRunner>,
    /// What went wrong after that.
    pub error: Option<ActionError>,
}

/// The managers on the way from one split to the next.
pub open spec fn split_chain<K>(
    managers: Seq<RunnerManager<K>>,
    runners: Seq<RunnerId>,
    spawned: Seq<SpawnRunner>,
) -> bool {
    &&& managers.len() == spawned.len() + 1
    &&& spawned.len() <= runners.len()
    &&& forall|i: int|
        0 <= i < spawned.len() ==> #[trigger] managers[i].chunk_planner.runner_chunk(
            runners[i],
        ) is Some && split_in_two(&managers[i], &managers[i + 1], runners[i], spawned[i])
}

/// The chunks of some runners were split one after another, up to the first that
/// could not be.
pub open spec fn split_each<K>(
    before: &RunnerManager<K>,
    after: &RunnerManager<K>,
    runners: Seq<RunnerId>,
    outcome: ActionOutcome,
) -> bool {
    let spawned = outcome.spawned@;
    exists|managers: Seq<RunnerManager<K>>|
        {
            &&& #[trigger] split_chain(managers, runners, spawned)
            &&& managers[0] == *before
            &&& match outcome.error {
                None => spawned.len() == runners.len() && managers.last() == *after,
                Some(error) => spawned.len() < runners.len() && split_failed(
                    &managers.last(),
                    after,
                    runners[spawned.len() as int],
                    error,
                ),
            }
        }
}

/// The runners whose chunks may be split.
pub open spec fn divisible_runners<K>(manager: &RunnerManager<K>, min_chunk_size: u64) -> Seq<
    RunnerId,
> {
    manager.chunk_planner.incomplete(Some(min_chunk_size)).map_values(
        |state: (RunnerId, Range<u64>)| state.0,
    )
}

/// A proposal was carried out, as far as it could be.
pub open spec fn acted<K>(
    before: &RunnerManager<K>,
    after: &RunnerManager<K>,
    max_before: usize,
    max_after: usize,
    action: StrategyAction,
    outcome: ActionOutcome,
) -> bool {
    match action {
        StrategyAction::ChangeMaxConcurrency(concurrency) => {
            &&& *after == *before
            &&& max_after == concurrency
            &&& outcome.spawned@.len() == 0
            &&& outcome.error is None
        },
        StrategyAction::SplitAllTask(min_chunk_size) => {
            &&& max_after == max_before
            &&& split_each(before, after, divisible_runners(before, min_chunk_size), outcome)
        },
        StrategyAction::SplitGivenTask(runner_id) => {
            &&& max_after == max_before
            &&& split_each(before, after, seq![runner_id], outcome)
        },
        StrategyAction::CreateTask(range) => {
            &&& max_after == max_before
            &&& if before.has_free_id() && before.chunk_planner.can_allocate(range) {
                &&& outcome.error is None
                &&& outcome.spawned@.len() == 1
                &&& outcome.spawned@[0].range == range
                &&& allocated_for(before, after, outcome.spawned@[0])
                &&& after.chunk_planner.took(
                    &before.chunk_planner,
                    range,
                    Some(outcome.spawned@[0].runner_id),
                    true,
                )
            } else {
                &&& outcome.error == Some(ActionError::NoRoom)
                &&& outcome.spawned@.len() == 0
                &&& after.refused(before)
            }
        },
    }
}

/// The proposal leaves a consistent plan consistent: it splits nothing, or what it
/// splits can be split.
pub open spec fn acts_well<K>(manager: &RunnerManager<K>, action: StrategyAction) -> bool {
    &&& manager.chunk_planner.consistent()
    &&& match action {
        StrategyAction::SplitAllTask(min_chunk_size) => all_split_well(
            manager,
            divisible_runners(manager, min_chunk_size),
        ),
        StrategyAction::SplitGivenTask(runner_id) => all_split_well(manager, seq![runner_id]),
        _ => true,
    }
}

/// What can be split after a split: the runners that could be before, but for the one
/// whose chunk was.
proof fn others_still_split_well<K>(
    before: RunnerManager<K>,
    after: RunnerManager<K>,
    runner_id: RunnerId,
    spawn: SpawnRunner,
    other: RunnerId,
)
    requires
        before.wf(),
        splits_well(&before, runner_id),
        splits_well(&before, other),
        before.allocated(other),
        other != runner_id,
        split_in_two(&before, &after, runner_id, spawn),
        after.chunk_planner.consistent(),
    ensures
        splits_well(&after, other),
        after.allocated(other),
{
    let plan = before.chunk_planner;
    let key = plan.runner_map()[runner_id];
    let kept = plan.runner_map()[other];
    let cut = spawn.range.start;
    assert(plan.chunk_map().contains_key(key) && plan.chunk_map().contains_key(kept));
    assert(plan.chunk_map()[key].runner_id == Some(runner_id));
    assert(plan.chunk_map()[kept].runner_id == Some(other));
    assert(key != kept);
    assert(!range_set::ranges_overlap(key, kept));
    range_set::overlap_by_ends(key, kept);
    assert(spawn.runner_id != other);
    assert(kept != spawn.range);
    assert(kept != (Range { start: key.start, end: cut }));
    assert(after.chunk_planner.runner_map()[other] == kept);
    assert(after.chunk_planner.chunk_map()[kept] == plan.chunk_map()[kept]);
}

/// Splits the chunks of some runners one after another, up to the first that cannot
/// be.
fn split_tasks<K>(runner_manager: &mut RunnerManager<K>, runners: &Vec<RunnerId>) -> (outcome:
    ActionOutcome)
    requires
        old(runner_manager).wf(),
    ensures
        final(runner_manager).wf(),
        split_each(old(runner_manager), final(runner_manager), runners@, outcome),
        old(runner_manager).chunk_planner.consistent() && all_split_well(
            old(runner_manager),
            runners@,
        ) ==> final(runner_manager).chunk_planner.consistent(),
        old(runner_manager).orderly() && all_split_well(old(runner_manager), runners@) ==>
            final(runner_manager).orderly(),
{
    let mut spawned: Vec<SpawnRunner> = Vec::new();
    let ghost mut managers: Seq<RunnerManager<K>> = seq![*runner_manager];
    let mut i: usize = 0;
    while i < runners.len()
        invariant
            runner_manager.wf(),
            i <= runners@.len(),
            spawned@.len() == i,
            split_chain(managers, runners@, spawned@),
            managers[0] == *old(runner_manager),
            managers.last() == *runner_manager,
            old(runner_manager).chunk_planner.consistent() && all_split_well(
                old(runner_manager),
                runners@,
            ) ==> runner_manager.chunk_planner.consistent() && forall|j: int|
                i <= j < runners@.len() ==> runner_manager.allocated(#[trigger] runners@[j])
                    && splits_well(&*runner_manager, runners@[j]),
            old(runner_manager).orderly() && all_split_well(old(runner_manager), runners@) ==>
                runner_manager.orderly(),
        decreases runners@.len() - i,
    {
        match split_task(runner_manager, runners[i]) {
            Ok(spawn) => {
                let ghost before = managers;
                let ghost earlier = spawned@;
                spawned.push(spawn);
                proof {
                    if old(runner_manager).chunk_planner.consistent() && all_split_well(
                        old(runner_manager),
                        runners@,
                    ) {
                        assert(splits_well(&managers.last(), runners@[i as int]));
                        assert forall|j: int| i < j < runners@.len() implies
                            runner_manager.allocated(#[trigger] runners@[j]) && splits_well(
                            &*runner_manager,
                            runners@[j],
                        ) by {
                            others_still_split_well(
                                managers.last(),
                                *runner_manager,
                                runners@[i as int],
                                spawned@.last(),
                                runners@[j],
                            );
                        }
                    }
                    managers = managers.push(*runner_manager);
                    assert forall|j: int| 0 <= j < spawned@.len() implies
                        #[trigger] managers[j].chunk_planner.runner_chunk(runners@[j]) is Some
                        && split_in_two(
                        &managers[j],
                        &managers[j + 1],
                        runners@[j],
                        spawned@[j],
                    ) by {
                        if j < earlier.len() {
                            assert(before[j].chunk_planner.runner_chunk(runners@[j]) is Some);
                            assert(managers[j] == before[j]);
                            assert(managers[j + 1] == before[j + 1]);
                        } else {
                            assert(managers[j] == before.last());
                        }
                    }
                }
            },
            Err(error) => {
                let outcome = ActionOutcome { spawned, error: Some(error) };
                assert(split_chain(managers, runners@, outcome.spawned@));
                return outcome;
            },
        }
        i = i + 1;
    }
    let outcome = ActionOutcome { spawned, error: None };
    assert(split_chain(managers, runners@, outcome.spawned@));
    outcome
}

/// Carries a proposal out: splits chunks, changes the concurrency or allocates
/// another runner.
pub fn handle_strategy_action<K>(
    runner_manager: &mut RunnerManager<K>,
    max_concurrency: &mut usize,
    action: StrategyAction,
) -> (outcome: ActionOutcome)
    requires
        old(runner_manager).wf(),
        action matches StrategyAction::SplitAllTask(min_chunk_size) ==>
            old(runner_manager).chunk_planner.can_list_incomplete(Some(min_chunk_size)),
    ensures
        final(runner_manager).wf(),
        acted(
            old(runner_manager),
            final(runner_manager),
            *old(max_concurrency),
            *final(max_concurrency),
            action,
            outcome,
        ),
        acts_well(old(runner_manager), action) ==>
            final(runner_manager).chunk_planner.consistent(),
        acts_well(old(runner_manager), action) && old(runner_manager).orderly() ==>
            final(runner_manager).orderly(),
{
    match action {
        // Split current all task into two separate tasks
        StrategyAction::SplitAllTask(planned_chunk_size) => {
            let states = runner_manager.get_incomplete_states(Some(planned_chunk_size));
            let mut runners: Vec<RunnerId> = Vec::new();
            let mut i: usize = 0;
            while i < states.len()
                invariant
                    i <= states@.len(),
                    runners@.len() == i,
                    forall|j: int| 0 <= j < i ==> #[trigger] runners@[j] == states@[j].0,
                decreases states@.len() - i,
            {
                runners.push(states[i].0);
                i = i + 1;
            }
            assert(runners@ =~= divisible_runners(old(runner_manager), planned_chunk_size));
            split_tasks(runner_manager, &runners)
        },
        // Split the given task into two separate tasks
        StrategyAction::SplitGivenTask(task_id) => {
            let runners = vec![task_id];
            assert(runners@ =~= seq![task_id]);
            split_tasks(runner_manager, &runners)
        },
        // Change the max concurrency
        StrategyAction::ChangeMaxConcurrency(new_max_concurrency) => {
            *max_concurrency = new_max_concurrency;
            ActionOutcome { spawned: Vec::new(), error: None }
        },
        // Create background runners for specific range
        StrategyAction::CreateTask(range) => {
            let (start, end) = (range.start, range.end);
            match runner_manager.allocate_pending_runner_with_chunk(range) {
                Some(registration) => {
                    let spawn = SpawnRunner {
                        runner_id: registration.runner_id,
                        control_rx: registration.control_rx,
                        range: start..end,
                    };
                    ActionOutcome { spawned: vec![spawn], error: None }
                },
                None => ActionOutcome { spawned: Vec::new(), error: Some(ActionError::NoRoom) },
            }
        },
    }
}

/// Law: a chunk that can be split is split wherever an ID is free and the runner can be
/// told.
pub proof fn halves_fit<K>(manager: RunnerManager<K>, runner_id: RunnerId)
    requires
        manager.wf(),
        manager.has_free_id(),
        splits_well(&manager, runner_id),
    ensures
        half_fits(&manager, runner_id),
{
    let plan = manager.chunk_planner;
    let key = plan.runner_map()[runner_id];
    let left = planner::unfinished_part(plan.chunk_map()[key]).1;
    planner_laws::cut_off_part_overlaps_no_chunk(
        plan.total,
        plan.chunk_map(),
        plan.runner_map(),
        key,
        middle(left) as u64,
    );
}

/// Law: splitting the work of a runner plans no other byte, and loses none that was
/// downloaded.
pub proof fn splits_lose_no_byte<K>(
    before: RunnerManager<K>,
    after: RunnerManager<K>,
    runner_id: RunnerId,
    spawn: SpawnRunner,
)
    requires
        before.wf(),
        splits_well(&before, runner_id),
        split_in_two(&before, &after, runner_id, spawn),
    ensures
        forall|x: int| #[trigger]
            planner::planned(after.chunk_planner.chunk_map(), x) <==> planner::planned(
                before.chunk_planner.chunk_map(),
                x,
            ),
        forall|x: int| #[trigger]
            planner::fetched(after.chunk_planner.chunk_map(), x) <==> planner::fetched(
                before.chunk_planner.chunk_map(),
                x,
            ),
        chunk_state::total_progress(after.chunk_planner.chunk_map())
            == chunk_state::total_progress(before.chunk_planner.chunk_map()),
{
    let plan = before.chunk_planner;
    let key = plan.runner_map()[runner_id];
    planner_laws::splitting_moves_no_byte(
        plan.total,
        plan.chunk_map(),
        plan.runner_map(),
        key,
        spawn.range.start,
        spawn.runner_id,
        chunk_state::ChunkStatus::Pending,
    );
}

/// What is selected from a sequence comes from it, and once if it stood there once.
pub proof fn selected_once<A>(items: Seq<A>, keep: spec_fn(A) -> bool)
    ensures
        forall|item: A| #[trigger]
            items.filter(keep).contains(item) ==> items.contains(item) && keep(item),
        items.no_duplicates() ==> items.filter(keep).no_duplicates(),
    decreases items.len(),
{
    reveal(Seq::filter);
    if items.len() > 0 {
        let rest = items.drop_last();
        selected_once(rest, keep);
        assert forall|item: A| #[trigger] items.filter(keep).contains(item) implies items.contains(
            item,
        ) && keep(item) by {
            assert(rest.filter(keep).contains(item) || items.last() == item);
        }
        if items.no_duplicates() && keep(items.last()) {
            assert(!rest.filter(keep).contains(items.last()));
        }
    }
}

/// Law: of a manager in order all chunks that are large enough can be split, one after
/// another.
pub proof fn all_can_be_split<K>(manager: RunnerManager<K>, min_chunk_size: u64)
    requires
        manager.orderly(),
    ensures
        manager.chunk_planner.can_list_incomplete(Some(min_chunk_size)),
        acts_well(&manager, StrategyAction::SplitAllTask(min_chunk_size)),
{
    let plan = manager.chunk_planner;
    let listing = plan.listing();
    let keep = |entry: (Range<u64>, chunk_state::ChunkState)|
        plan.splittable(entry.1, Some(min_chunk_size));
    let kept = listing.filter(keep);
    let runners = divisible_runners(&manager, min_chunk_size);
    chunk_state::entries_in_map(listing);
    selected_once(listing, keep);
    assert(runners.len() == kept.len());
    assert forall|i: int| 0 <= i < runners.len() implies manager.allocated(#[trigger] runners[i])
        && splits_well(&manager, runners[i]) && plan.runner_map()[runners[i]] == kept[i].0
        && plan.chunk_map()[kept[i].0] == kept[i].1 by {
        assert(kept.contains(kept[i]));
        assert(plan.chunk_map().contains_key(kept[i].0));
        assert(manager.in_hand(kept[i].0));
        assert(runners[i] == kept[i].1.runner_id->0);
    }
    assert forall|i: int, j: int|
        0 <= i < runners.len() && 0 <= j < runners.len() && i != j implies runners[i]
        != runners[j] by {
        if runners[i] == runners[j] {
            assert(kept[i] == kept[j]);
        }
    }
}

/// Law: of a manager in order the running chunk with the most bytes left can be split.
pub proof fn the_largest_can_be_split<K>(manager: RunnerManager<K>, key: Range<u64>)
    requires
        manager.orderly(),
        manager.chunk_planner.chunk_map().contains_key(key),
        manager.chunk_planner.is_most_left(key),
    ensures
        acts_well(
            &manager,
            StrategyAction::SplitGivenTask(manager.chunk_planner.chunk_map()[key].runner_id->0),
        ),
{
}

} // verus!

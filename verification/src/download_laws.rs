//! What a task with many runners does with its chunks, its writes and its proposals.
use crate::adapter::{AdapterError, BoltLoadAdapterMeta};
use crate::chunk_state::ChunkStatus;
use crate::concurrent::{ActionOutcome, ConcurrentTaskInner, SpawnRunner};
use crate::download_loop::{DownloadLoop, LoopStep};
use crate::manager::{RunnerManager, RunnerTick};
use crate::outcome::OutcomeStats;
use crate::pending_writer::{PendingWrite, WriteCompletion};
use crate::planner::{ChunkPlanner, Error};
use crate::ratio::Ratio;
use crate::runner::ControlEvent;
use crate::strategy::StrategyAction;
use crate::strategy_control::StrategyControl;
use crate::task::TaskInstanceError;
use crate::{
    allocation_laws, chunk_state, clock, concurrency_control, concurrent, download_loop, manager,
    manager_laws, outcome, pending_writer, planner, planner_laws, range_set, RunnerId,
};
use std::ops::Range;
use vstd::prelude::*;

verus! {

/// Law: a split halves what is left. The runner keeps the first half and all that it has
/// downloaded, and is told; a runner with an ID of its own gets the second half, of which
/// nothing is downloaded. No other chunk changes.
pub proof fn work_is_halved<K>(
    before: RunnerManager<K>,
    after: RunnerManager<K>,
    runner_id: RunnerId,
    spawn: SpawnRunner,
)
    requires
        before.wf(),
        before.chunk_planner.runner_chunk(runner_id) is Some,
        concurrent::splits_well(&before, runner_id),
        concurrent::split_in_two(&before, &after, runner_id, spawn),
    ensures
        ({
            let key = before.chunk_planner.runner_map()[runner_id];
            let chunk = before.chunk_planner.chunk_map()[key];
            let left = key.end - chunk.downloaded.end;
            let kept = Range { start: key.start, end: spawn.range.start };
            let plan = after.chunk_planner;
            &&& spawn.range.end == key.end
            &&& spawn.range.start - chunk.downloaded.end == left / 2
            &&& plan.chunk_map().contains_key(kept)
            &&& plan.chunk_map()[kept].downloaded == chunk.downloaded
            &&& plan.chunk_map()[kept].status == chunk.status
            &&& plan.chunk_map()[kept].runner_id == Some(runner_id)
            &&& plan.runner_map()[runner_id] == kept
            &&& plan.chunk_map().contains_key(spawn.range)
            &&& plan.chunk_map()[spawn.range].downloaded.start == spawn.range.start
            &&& plan.chunk_map()[spawn.range].downloaded.end == spawn.range.start
            &&& plan.chunk_map()[spawn.range].status == ChunkStatus::Pending
            &&& plan.chunk_map()[spawn.range].runner_id == Some(spawn.runner_id)
            &&& plan.runner_map()[spawn.runner_id] == spawn.range
            &&& forall|other: Range<u64>| #[trigger]
                before.chunk_planner.chunk_map().contains_key(other) && other != key
                    ==> plan.chunk_map().contains_key(other) && plan.chunk_map()[other]
                    == before.chunk_planner.chunk_map()[other]
            &&& !before.allocated(spawn.runner_id)
            &&& after.allocated(spawn.runner_id)
            &&& after.pending_runners.runners@.last() == spawn.runner_id
            &&& manager::sent_to(
                before.control_channels@,
                runner_id,
                ControlEvent::LimitTotal((spawn.range.start - key.start) as u64),
                Ok(()),
            )
        }),
{
    let plan = before.chunk_planner;
    let key = plan.runner_map()[runner_id];
    let chunk = plan.chunk_map()[key];
    let kept = Range { start: key.start, end: spawn.range.start };
    assert(plan.chunk_map().contains_key(key));
    assert(chunk.runner_id == Some(runner_id));
    if spawn.runner_id == runner_id {
        assert(after.chunk_planner.runner_map()[runner_id] == spawn.range);
        assert(before.control_channels@.contains_key(runner_id));
        assert(manager::in_use(before.id_generator.used(), runner_id));
    }
    assert forall|other: Range<u64>| #[trigger]
        plan.chunk_map().contains_key(other) && other != key implies
        after.chunk_planner.chunk_map().contains_key(other)
        && after.chunk_planner.chunk_map()[other] == plan.chunk_map()[other] by {
        assert(!range_set::ranges_overlap(key, other));
        range_set::overlap_by_ends(key, other);
        assert(other.start < other.end);
        assert(other != kept && other != spawn.range);
    }
}

/// Law: a chunk is split exactly at a position behind what has been downloaded and before
/// its end. The first part keeps the runner and the progress, the second goes to the new
/// runner, with nothing downloaded, and is what is returned. Otherwise no chunk changes,
/// and the reason is told.
pub proof fn chunks_are_split_where_asked(
    before: ChunkPlanner,
    after: ChunkPlanner,
    runner_id: RunnerId,
    split_pos: u64,
    new_runner_id: RunnerId,
    result: Result<Range<u64>, Error>,
)
    requires
        before.consistent(),
        after.split_at(&before, runner_id, split_pos, new_runner_id, result),
    ensures
        ({
            let known = before.runner_map().contains_key(runner_id);
            let key = before.runner_map()[runner_id];
            let chunk = before.chunk_map()[key];
            &&& result is Ok <==> known && chunk.downloaded.end < split_pos < key.end
            &&& result is Err ==> after.chunk_map() == before.chunk_map()
            &&& !known ==> result == Err::<Range<u64>, Error>(Error::RunnerNotFound(runner_id))
            &&& known && result is Err ==> result == Err::<Range<u64>, Error>(
                Error::InvalidSplitPosition(split_pos),
            )
            &&& result matches Ok(second) ==> {
                let first = Range { start: key.start, end: split_pos };
                &&& second.start == split_pos && second.end == key.end
                &&& after.chunk_map()[first].downloaded == chunk.downloaded
                &&& after.chunk_map()[first].runner_id == Some(runner_id)
                &&& after.chunk_map()[first].status == chunk.status
                &&& after.chunk_map()[second].downloaded.end == split_pos
                &&& after.chunk_map()[second].runner_id == Some(new_runner_id)
                &&& after.runner_map()[new_runner_id] == second
                &&& forall|x: int| #[trigger]
                    allocation_laws::is_free(after, x) <==> allocation_laws::is_free(before, x)
                &&& forall|x: int| #[trigger]
                    allocation_laws::is_held(after, x) <==> allocation_laws::is_held(before, x)
            }
        }),
{
    if result is Ok {
        let key = before.runner_map()[runner_id];
        assert(before.chunk_map().contains_key(key));
        planner_laws::splitting_moves_no_byte(
            before.total,
            before.chunk_map(),
            before.runner_map(),
            key,
            split_pos,
            new_runner_id,
            ChunkStatus::Running,
        );
        assert forall|x: int| #[trigger]
            allocation_laws::is_free(after, x) <==> allocation_laws::is_free(before, x) by {
            allocation_laws::free_means_available(after, x);
            allocation_laws::free_means_available(before, x);
            assert(planner::planned(after.chunk_map(), x) <==> planner::planned(
                before.chunk_map(),
                x,
            ));
        }
        assert forall|x: int| #[trigger]
            allocation_laws::is_held(after, x) <==> allocation_laws::is_held(before, x) by {
            allocation_laws::held_means_fetched(after, x);
            allocation_laws::held_means_fetched(before, x);
            assert(planner::fetched(after.chunk_map(), x) <==> planner::fetched(
                before.chunk_map(),
                x,
            ));
        }
    }
}

/// Law: a download comes to success exactly where its loop did and none of the last writes
/// failed. The error of the loop is told first; otherwise the first write that failed.
pub proof fn success_needs_every_write(
    event_loop_result: Result<(), TaskInstanceError>,
    flushed: Seq<WriteCompletion>,
    result: Result<(), TaskInstanceError>,
)
    requires
        download_loop::comes_to(event_loop_result, flushed, result),
    ensures
        result is Ok <==> event_loop_result is Ok && forall|i: int|
            0 <= i < flushed.len() ==> (#[trigger] flushed[i]).result is Ok,
        event_loop_result matches Err(error) ==> result == Err::<(), TaskInstanceError>(error),
{
    if event_loop_result is Ok && exists|i: int|
        0 <= i < flushed.len() && (#[trigger] flushed[i]).result is Err {
        assert(pending_writer::any_failed(flushed));
    }
}

/// Law: completed writes are counted, all of their bytes, where none of them failed; the
/// download goes on then, and only then.
pub proof fn writes_are_counted<K>(
    before: DownloadLoop<K>,
    after: DownloadLoop<K>,
    completions: Option<Vec<WriteCompletion>>,
    result: Result<Option<PendingWrite>, TaskInstanceError>,
)
    requires
        after.took_note(&before, completions, result),
    ensures
        result is Ok <==> (completions matches Some(done) && forall|i: int|
            0 <= i < done@.len() ==> (#[trigger] done@[i]).result is Ok),
        result is Ok ==> after.write_bytes_meter == before.write_bytes_meter
            + pending_writer::written(completions->0@),
        result is Err ==> after.write_bytes_meter == before.write_bytes_meter,
        completions is Some && (exists|i: int|
            0 <= i < completions->0@.len() && (#[trigger] completions->0@[i]).result is Err)
            ==> after.pending_writer.saw_error,
{
    if let Some(done) = completions {
        if exists|i: int| 0 <= i < done@.len() && (#[trigger] done@[i]).result is Err {
            assert(pending_writer::any_failed(done@));
        }
    }
}

/// Law: one more completed write counts with the length of its range.
pub proof fn a_write_counts_its_range(
    completions: Seq<WriteCompletion>,
    completion: WriteCompletion,
)
    ensures
        pending_writer::written(completions.push(completion)) == pending_writer::written(
            completions,
        ) + completion.range.end - completion.range.start,
        pending_writer::written(Seq::empty()) == 0,
{
    assert(completions.push(completion).drop_last() =~= completions);
}

/// Law: what was downloaded goes to the writer as it is, where it belongs: it is to be
/// dispatched, or waits in the buffer. Nothing else is dispatched.
pub proof fn downloads_go_to_the_writer<K>(
    before: DownloadLoop<K>,
    after: DownloadLoop<K>,
    tick: RunnerTick<K>,
    step: Result<LoopStep<K>, TaskInstanceError>,
)
    requires
        before.wf(),
        before.pending_writer.accepts(),
        after.passed_on(&before, tick, step),
    ensures
        step is Ok,
        step->Ok_0.finished == (tick.state == manager::TaskState::Finished),
        tick.downloaded matches Some(chunk) ==> {
            let write = PendingWrite { range: chunk.range, bytes: chunk.bytes };
            step->Ok_0.dispatch == Some(write) || (step->Ok_0.dispatch is None
                && before.pending_writer.pending_write is None && after.pending_writer.pending_write
                == Some(write))
        },
        tick.downloaded is None ==> step->Ok_0.dispatch is None && after.pending_writer
            == before.pending_writer,
{
}

/// Law: content of another size is downloaded anew, the same one goes on; content of no
/// size is refused, and so is what the adapter could not tell.
pub proof fn other_content_starts_anew(
    before: ConcurrentTaskInner,
    after: ConcurrentTaskInner,
    answer: Option<Result<BoltLoadAdapterMeta, AdapterError>>,
    result: Result<(), TaskInstanceError>,
)
    requires
        after.learnt(&before, answer, result),
    ensures
        result is Ok <==> (answer matches Some(Ok(meta)) && meta.content_size > 0),
        result is Err ==> after == before,
        answer matches Some(Err(error)) ==> result == Err::<(), TaskInstanceError>(
            TaskInstanceError::RetrieveMetaFailed(error),
        ),
        result is Ok ==> {
            let size = answer->0->Ok_0.content_size;
            &&& after.progress.total == Some(size)
            &&& before.progress.total == Some(size) || before.progress.total is None
                ==> after.progress.downloaded == before.progress.downloaded
            &&& (before.progress.total matches Some(earlier) && earlier != size)
                ==> after.progress.downloaded == 0
        },
{
}

/// Law: which proposals are made in a run of the strategies. What concurrency control asks
/// for comes first. Where it asks for nothing, and only there, splitting is considered:
/// exactly where nothing is free, fewer runners are active than may be, and a running chunk
/// has as much as the minimal size to come. It then goes by the measured speeds, and by
/// the runner with the most to come.
pub proof fn splitting_comes_second<K>(
    before: StrategyControl,
    after: StrategyControl,
    max_concurrency: usize,
    current_speed: u64,
    per_runner_avg_speed: Ratio,
    manager_before: RunnerManager<K>,
    manager: RunnerManager<K>,
    now: u64,
    sampled_at: u64,
    result: Option<(&'static str, Vec<StrategyAction>)>,
)
    requires
        manager_before.chunk_planner.wf(),
        manager_before.chunk_planner.split_fits(
            crate::strategy_control::planned_size(current_speed),
        ),
        after.executed(
            &before,
            max_concurrency,
            current_speed,
            per_runner_avg_speed,
            &manager_before,
            &manager,
            now,
            sampled_at,
            result,
        ),
        result is None || (result->0).0@ == "dynamic"@,
    ensures
        ({
            let plan = manager_before.chunk_planner;
            let active = chunk_state::active_keys(plan.chunk_map()).len() as usize;
            let considered = (forall|x: int| !#[trigger] allocation_laws::is_free(plan, x))
                && active < max_concurrency && exists|key: Range<u64>| #[trigger]
                allocation_laws::has_much_left(plan, key);
            if considered {
                exists|key: Range<u64>| #[trigger]
                    allocation_laws::has_much_left(plan, key) && {
                        let context = crate::dynamic::DynamicStrategyContext {
                            speed: current_speed,
                            per_runner_speed: per_runner_avg_speed,
                            current_concurrency: active,
                            max_concurrency,
                            remaining_largest_runner_id: plan.chunk_map()[key].runner_id->0,
                            planned_chunk_size: crate::strategy_control::planned_size(
                                current_speed,
                            ),
                        };
                        &&& forall|other: Range<u64>| #[trigger]
                            allocation_laws::has_much_left(plan, other)
                                ==> plan.chunk_map()[other].allocated.end
                                - plan.chunk_map()[other].downloaded.end
                                <= plan.chunk_map()[key].allocated.end
                                - plan.chunk_map()[key].downloaded.end
                        &&& after.dynamic_strategy == before.dynamic_strategy.after_run(context)
                        &&& match result {
                            Some(proposed) => proposed.1@
                                == before.dynamic_strategy.proposal(context),
                            None => before.dynamic_strategy.proposal(context).len() == 0,
                        }
                    }
            } else {
                result is None && after.dynamic_strategy == before.dynamic_strategy
            }
        }),
{
    let plan = manager_before.chunk_planner;
    let size = crate::strategy_control::planned_size(current_speed);
    let active = chunk_state::active_keys(plan.chunk_map()).len() as usize;
    reveal_strlit("dynamic");
    reveal_strlit("concurrency_control");
    assert("dynamic"@.len() != "concurrency_control"@.len());
    let found = choose|found: Option<(Option<RunnerId>, Range<u64>)>|
        {
            &&& #[trigger] plan.found_to_split(size, found)
            &&& after.split(
                &before,
                before.split_context(
                    max_concurrency,
                    active,
                    current_speed,
                    per_runner_avg_speed,
                    found,
                ),
                result,
            )
        };
    if exists|x: int| #[trigger] allocation_laws::is_free(plan, x) {
        let x = choose|x: int| #[trigger] allocation_laws::is_free(plan, x);
        allocation_laws::free_means_available(plan, x);
        assert(plan.available(x));
    } else {
        allocation_laws::the_most_work_left_is_found(plan, size, found);
    }
}

/// Law: where the samples ask for another concurrency, that is the only proposal.
pub proof fn another_concurrency_comes_first<K>(
    before: StrategyControl,
    after: StrategyControl,
    max_concurrency: usize,
    current_speed: u64,
    per_runner_avg_speed: Ratio,
    manager_before: RunnerManager<K>,
    manager: RunnerManager<K>,
    now: u64,
    sampled_at: u64,
    result: Option<(&'static str, Vec<StrategyAction>)>,
    stats: OutcomeStats,
)
    requires
        after.executed(
            &before,
            max_concurrency,
            current_speed,
            per_runner_avg_speed,
            &manager_before,
            &manager,
            now,
            sampled_at,
            result,
        ),
        !before.concurrency_control_strategy.first_execute,
        outcome::counts(manager.runner_outcome_sampler.records@, stats),
        manager_before.runner_outcome_sampler.last_unretryable_at matches Some(last) ==> last
            <= sampled_at && sampled_at - last > clock::nanos(
            before.concurrency_control_strategy.config.unretryable_detection_window,
        ),
        concurrency_control::next_state(
            before.concurrency_control_strategy.config,
            before.concurrency_control_strategy.initial_max_concurrency,
            before.concurrency_control_strategy.state,
            max_concurrency,
            stats,
            now,
        ).1 is Some,
    ensures
        ({
            let asked = concurrency_control::next_state(
                before.concurrency_control_strategy.config,
                before.concurrency_control_strategy.initial_max_concurrency,
                before.concurrency_control_strategy.state,
                max_concurrency,
                stats,
                now,
            ).1->0;
            result matches Some(proposed) && proposed.0@ == "concurrency_control"@
                && proposed.1@.len() == 1 && proposed.1@[0]
                == StrategyAction::ChangeMaxConcurrency(asked)
        }),
        after.dynamic_strategy == before.dynamic_strategy,
{
    let active = chunk_state::active_keys(
        manager_before.chunk_planner.chunk_map(),
    ).len() as usize;
    let (available, actions) = choose|available: Seq<Range<u64>>, actions: Seq<StrategyAction>|
        {
            &&& #[trigger] manager_before.chunk_planner.lists_available(available)
            &&& #[trigger] after.concurrency_control_strategy.stepped(
                &before.concurrency_control_strategy,
                max_concurrency,
                active,
                available,
                &manager_before.runner_outcome_sampler,
                &manager.runner_outcome_sampler,
                now,
                sampled_at,
                actions,
            )
            &&& actions.len() > 0 ==> {
                &&& after.dynamic_strategy == before.dynamic_strategy
                &&& result is Some
                &&& (result->0).0@ == "concurrency_control"@
                &&& (result->0).1@ == actions
            }
        };
    crate::strategy_laws::control_goes_by_the_samples(
        before.concurrency_control_strategy,
        after.concurrency_control_strategy,
        max_concurrency,
        active,
        available,
        manager_before.runner_outcome_sampler,
        manager.runner_outcome_sampler,
        now,
        sampled_at,
        actions,
        stats,
    );
}

/// Law: what a proposal does. Another concurrency is set as it is and touches no runner;
/// nothing else sets it. A range is given to one new runner, or refused without a change of
/// the plan where no ID is free or the range may not be taken. A split gives the runners
/// that are to be split one new runner each, in their order, up to the first that fails.
pub proof fn proposals_are_carried_out<K>(
    before: RunnerManager<K>,
    after: RunnerManager<K>,
    max_before: usize,
    max_after: usize,
    action: StrategyAction,
    outcome: ActionOutcome,
)
    requires
        before.wf(),
        concurrent::acted(&before, &after, max_before, max_after, action, outcome),
    ensures
        match action {
            StrategyAction::ChangeMaxConcurrency(concurrency) => {
                &&& max_after == concurrency
                &&& after == before
                &&& outcome.spawned@.len() == 0
                &&& outcome.error is None
            },
            StrategyAction::CreateTask(range) => {
                &&& max_after == max_before
                &&& outcome.error is None <==> outcome.spawned@.len() == 1
                &&& outcome.error is Some ==> outcome.spawned@.len() == 0 && outcome.error->0
                    is NoRoom && after.chunk_planner == before.chunk_planner
                &&& outcome.error is None ==> {
                    let spawn = outcome.spawned@[0];
                    let chunk = after.chunk_planner.chunk_map()[range];
                    &&& spawn.range == range
                    &&& !before.allocated(spawn.runner_id)
                    &&& after.allocated(spawn.runner_id)
                    &&& after.pending_runners.runners@.last() == spawn.runner_id
                    &&& after.chunk_planner.chunk_map().contains_key(range)
                    &&& chunk.allocated == range
                    &&& chunk.downloaded.start == range.start
                    &&& chunk.downloaded.end == range.start
                    &&& chunk.status == ChunkStatus::Pending
                    &&& chunk.runner_id == Some(spawn.runner_id)
                    &&& after.chunk_planner.runner_map()[spawn.runner_id] == range
                }
                &&& outcome.error is None <==> before.has_free_id()
                    && before.chunk_planner.can_allocate(range)
            },
            StrategyAction::SplitGivenTask(runner_id) => {
                &&& max_after == max_before
                &&& outcome.error is None <==> outcome.spawned@.len() == 1
                &&& outcome.error is Some ==> outcome.spawned@.len() == 0
                    && concurrent::split_failed(&before, &after, runner_id, outcome.error->0)
                &&& outcome.error is None ==> concurrent::split_in_two(
                    &before,
                    &after,
                    runner_id,
                    outcome.spawned@[0],
                )
            },
            StrategyAction::SplitAllTask(min_chunk_size) => {
                let runners = concurrent::divisible_runners(&before, min_chunk_size);
                &&& max_after == max_before
                &&& outcome.error is None <==> outcome.spawned@.len() == runners.len()
                &&& outcome.spawned@.len() <= runners.len()
                &&& outcome.spawned@.len() == 0 && outcome.error is None ==> after == before
            },
        },
{
    if let StrategyAction::SplitGivenTask(runner_id) = action {
        let runners = seq![runner_id];
        let spawned = outcome.spawned@;
        let managers = choose|managers: Seq<RunnerManager<K>>|
            {
                &&& #[trigger] concurrent::split_chain(managers, runners, spawned)
                &&& managers[0] == before
                &&& match outcome.error {
                    None => spawned.len() == runners.len() && managers.last() == after,
                    Some(error) => spawned.len() < runners.len() && concurrent::split_failed(
                        &managers.last(),
                        &after,
                        runners[spawned.len() as int],
                        error,
                    ),
                }
            };
        if outcome.error is None {
            assert(managers[0].chunk_planner.runner_chunk(runners[0]) is Some);
        }
    }
}

/// Law: data that the writer has no room for is not dropped in silence: the download fails,
/// and the writer is left as it was.
pub proof fn data_without_room_is_an_error<K>(
    before: DownloadLoop<K>,
    after: DownloadLoop<K>,
    tick: RunnerTick<K>,
    step: Result<LoopStep<K>, TaskInstanceError>,
)
    requires
        after.passed_on(&before, tick, step),
    ensures
        step is Err <==> tick.downloaded is Some && !before.pending_writer.accepts(),
        step is Err ==> after.pending_writer == before.pending_writer && step->Err_0 is Failed,
        step is Ok ==> step->Ok_0.released == tick.released,
{
}

/// Law: a chunk that is given up hands back the part behind what has been downloaded of it,
/// and that part is free then, while nothing that has been downloaded is lost.
pub proof fn giving_up_hands_back_the_rest(
    before: ChunkPlanner,
    after: ChunkPlanner,
    runner_id: RunnerId,
    result: Result<Range<u64>, Error>,
)
    requires
        before.consistent(),
        after.gave_up(&before, runner_id, result),
    ensures
        result is Ok <==> before.runner_map().contains_key(runner_id),
        result is Err ==> after.chunk_map() == before.chunk_map(),
        !after.runner_map().contains_key(runner_id),
        result matches Ok(rest) ==> {
            let key = before.runner_map()[runner_id];
            &&& rest.start == before.chunk_map()[key].downloaded.end
            &&& rest.end == key.end
            &&& forall|x: int| #[trigger]
                allocation_laws::is_free(after, x) <==> allocation_laws::is_free(before, x)
                    || rest.start <= x < rest.end
            &&& forall|x: int| #[trigger]
                allocation_laws::is_held(after, x) <==> allocation_laws::is_held(before, x)
        },
{
    if result is Ok {
        manager_laws::giving_up_frees(before, after, runner_id);
    }
}

} // verus!

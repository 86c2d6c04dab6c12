//! What the end of a runner leads to.
use crate::aggregator::{DataStreamEvent, LifecycleStreamEvent, RunnerTaggedStreamItem};
use crate::chunk_state::ChunkStatus;
use crate::manager::{ManagerEvent, RunnerManager, RunnerTick, TaskState};
use crate::outcome::{FailureKind, OutcomeRecord, RunnerOutcome};
use crate::pending::{PendingRunnerError, PendingRunnerOutput};
use crate::planner::ChunkPlanner;
use crate::runner_error::{LifecycleEvent, StoppedReason, TaskError};
use crate::{allocation_laws, planner, planner_laws, range_set, RunnerId};
use std::ops::Range;
use vstd::prelude::*;

verus! {

/// A runner left: what it had not downloaded is free again, all else is as it was, and
/// nothing is planned for it any more.
pub open spec fn rest_is_free(before: ChunkPlanner, after: ChunkPlanner, runner_id: RunnerId) -> bool {
    let key = before.runner_map()[runner_id];
    let downloaded = before.chunk_map()[key].downloaded.end;
    &&& forall|x: int| #[trigger]
        allocation_laws::is_free(after, x) <==> allocation_laws::is_free(before, x) || downloaded <= x < key.end
    &&& forall|x: int| #[trigger] allocation_laws::is_held(after, x) <==> allocation_laws::is_held(before, x)
    &&& !after.runner_map().contains_key(runner_id)
}

/// The newest record is of the given outcome and time, where records are kept.
pub open spec fn noted<K>(manager: RunnerManager<K>, now: u64, outcome: RunnerOutcome) -> bool {
    manager.runner_outcome_sampler.max_records > 0 ==> {
        let records = manager.runner_outcome_sampler.records@;
        &&& records.len() > 0
        &&& records.last() == (OutcomeRecord { timestamp: now, outcome })
    }
}

/// What a runner gives up is free again.
pub proof fn giving_up_frees(before: ChunkPlanner, after: ChunkPlanner, runner_id: RunnerId)
    requires
        before.consistent(),
        before.runner_chunk(runner_id) is Some,
        after.closed_by(&before, runner_id, false),
    ensures
        rest_is_free(before, after, runner_id),
{
    let key = before.runner_map()[runner_id];
    planner_laws::failure_frees_the_unfinished_part(
        before.total,
        before.chunk_map(),
        before.runner_map(),
        key,
    );
    let gone = Range { start: before.chunk_map()[key].downloaded.end, end: key.end };
    assert forall|x: int| #[trigger] allocation_laws::is_free(after, x) <==> allocation_laws::is_free(before, x) || gone.start <= x
        < gone.end by {
        allocation_laws::free_means_available(before, x);
        allocation_laws::free_means_available(after, x);
        assert(planner::planned(after.chunk_map(), x) <==> planner::planned(before.chunk_map(), x)
            && !range_set::in_range(gone, x));
        if gone.start <= x < gone.end {
            assert(before.chunk_map().contains_key(key));
            assert(range_set::in_range(key, x));
            assert(planner::planned(before.chunk_map(), x));
        }
    }
    assert forall|x: int| #[trigger] allocation_laws::is_held(after, x) <==> allocation_laws::is_held(before, x) by {
        allocation_laws::held_means_fetched(before, x);
        allocation_laws::held_means_fetched(after, x);
        assert(planner::fetched(after.chunk_map(), x) <==> planner::fetched(before.chunk_map(), x));
    }
}

/// Law: a runner that fails, for whatever reason but that the server sent too much, hands
/// back every byte that it has not downloaded, and counts as a failure: one that may be
/// tried again after a timeout or a retryable error of its stream, one that stays
/// otherwise. A task with bytes to hand out again goes on.
pub proof fn a_failed_runner_hands_its_rest_back<K>(
    before: RunnerManager<K>,
    after: RunnerManager<K>,
    runner_id: RunnerId,
    error: TaskError,
    meters_before: Map<RunnerId, usize>,
    meters: Map<RunnerId, usize>,
    now: u64,
    tick: RunnerTick<K>,
)
    requires
        before.chunk_planner.consistent(),
        before.chunk_planner.runner_chunk(runner_id) is Some,
        error !is ExceededTotalSize,
        after.ticked(
            &before,
            ManagerEvent::Lifecycle(
                Some(
                    LifecycleStreamEvent::Event(
                        RunnerTaggedStreamItem {
                            runner_id,
                            item: LifecycleEvent::Stopped(StoppedReason::Failed(error)),
                        },
                    ),
                ),
            ),
            meters_before,
            meters,
            now,
            tick,
        ),
    ensures
        rest_is_free(before.chunk_planner, after.chunk_planner, runner_id),
        noted(
            after,
            now,
            RunnerOutcome::StreamClosed(
                if error is Timeout || (error matches TaskError::StreamError { source } && source
                    is Retryable) {
                    FailureKind::Retryable
                } else {
                    FailureKind::Unretryable
                },
            ),
        ),
        forall|x: int| #[trigger]
            allocation_laws::is_free(after.chunk_planner, x) ==> tick.state == TaskState::Downloading,
        !meters.contains_key(runner_id),
        !after.allocated(runner_id),
{
    giving_up_frees(before.chunk_planner, after.chunk_planner, runner_id);
    assert forall|x: int| #[trigger] allocation_laws::is_free(after.chunk_planner, x) implies tick.state
        == TaskState::Downloading by {
        allocation_laws::free_means_available(after.chunk_planner, x);
    }
}

/// Law: a runner that is lost hands back every byte that it has not downloaded and counts
/// as a failure that may be tried again; the task goes on.
pub proof fn a_lost_runner_hands_its_rest_back<K>(
    before: RunnerManager<K>,
    after: RunnerManager<K>,
    runner_id: RunnerId,
    meters_before: Map<RunnerId, usize>,
    meters: Map<RunnerId, usize>,
    now: u64,
    tick: RunnerTick<K>,
)
    requires
        before.chunk_planner.consistent(),
        before.chunk_planner.runner_chunk(runner_id) is Some,
        after.ticked(
            &before,
            ManagerEvent::Lifecycle(Some(LifecycleStreamEvent::Closed(runner_id))),
            meters_before,
            meters,
            now,
            tick,
        ),
    ensures
        rest_is_free(before.chunk_planner, after.chunk_planner, runner_id),
        noted(after, now, RunnerOutcome::StreamClosed(FailureKind::Retryable)),
        tick.state == TaskState::Downloading,
        !meters.contains_key(runner_id),
        !after.allocated(runner_id),
{
    giving_up_frees(before.chunk_planner, after.chunk_planner, runner_id);
}

/// Law: a runner that could not be created hands back its whole range and counts as a
/// failed connection: one that stays only where the connection met an error that stays.
pub proof fn a_stillborn_runner_hands_its_range_back<K>(
    before: RunnerManager<K>,
    after: RunnerManager<K>,
    output: PendingRunnerOutput<K>,
    meters_before: Map<RunnerId, usize>,
    meters: Map<RunnerId, usize>,
    now: u64,
    tick: RunnerTick<K>,
)
    requires
        before.chunk_planner.consistent(),
        before.chunk_planner.runner_chunk(output.context.runner_id) is Some,
        output.result is Err,
        after.ticked(
            &before,
            ManagerEvent::Pending(Some(output)),
            meters_before,
            meters,
            now,
            tick,
        ),
    ensures
        rest_is_free(before.chunk_planner, after.chunk_planner, output.context.runner_id),
        noted(
            after,
            now,
            RunnerOutcome::ConnectFailed(
                if (output.result->Err_0 matches PendingRunnerError::Connection { source }
                    && source.source is Unretryable) {
                    FailureKind::Unretryable
                } else {
                    FailureKind::Retryable
                },
            ),
        ),
        tick.state == TaskState::Downloading,
        !after.allocated(output.context.runner_id),
{
    giving_up_frees(before.chunk_planner, after.chunk_planner, output.context.runner_id);
}

/// Law: a runner that finishes, or whose server sends too much, is done with its chunk:
/// nothing becomes free, and it counts as completed. The task is finished exactly where
/// then every chunk is, and no byte of the content is free.
pub proof fn a_finished_runner_is_done<K>(
    before: RunnerManager<K>,
    after: RunnerManager<K>,
    runner_id: RunnerId,
    reason: StoppedReason,
    meters_before: Map<RunnerId, usize>,
    meters: Map<RunnerId, usize>,
    now: u64,
    tick: RunnerTick<K>,
)
    requires
        before.chunk_planner.consistent(),
        before.chunk_planner.runner_chunk(runner_id) is Some,
        reason is Finished || reason == StoppedReason::Failed(TaskError::ExceededTotalSize),
        after.ticked(
            &before,
            ManagerEvent::Lifecycle(
                Some(
                    LifecycleStreamEvent::Event(
                        RunnerTaggedStreamItem { runner_id, item: LifecycleEvent::Stopped(reason) },
                    ),
                ),
            ),
            meters_before,
            meters,
            now,
            tick,
        ),
    ensures
        ({
            let key = before.chunk_planner.runner_map()[runner_id];
            let plan = after.chunk_planner;
            &&& plan.chunk_map().dom() == before.chunk_planner.chunk_map().dom()
            &&& plan.chunk_map()[key].status == ChunkStatus::Finished
            &&& plan.chunk_map()[key].downloaded
                == before.chunk_planner.chunk_map()[key].downloaded
            &&& forall|other: Range<u64>| #[trigger]
                plan.chunk_map().contains_key(other) && other != key ==> plan.chunk_map()[other]
                    == before.chunk_planner.chunk_map()[other]
            &&& !plan.runner_map().contains_key(runner_id)
            &&& tick.state == TaskState::Finished <==> {
                &&& forall|other: Range<u64>| #[trigger]
                    plan.chunk_map().contains_key(other) ==> plan.chunk_map()[other].status
                        == ChunkStatus::Finished
                &&& forall|x: int| !#[trigger] allocation_laws::is_free(plan, x)
            }
        }),
        noted(after, now, RunnerOutcome::Completed),
        !meters.contains_key(runner_id),
        !after.allocated(runner_id),
{
    let plan = after.chunk_planner;
    let key = before.chunk_planner.runner_map()[runner_id];
    assert(before.chunk_planner.chunk_map().contains_key(key));
    assert(plan.chunk_map().contains_key(key));
    assert(plan.chunk_map().dom() =~= before.chunk_planner.chunk_map().dom());
    assert forall|x: int| #[trigger] allocation_laws::is_free(plan, x) <==> plan.available(x) by {
        allocation_laws::free_means_available(plan, x);
    }
    if forall|x: int| !#[trigger] allocation_laws::is_free(plan, x) {
        assert forall|x: int| !#[trigger] plan.available(x) by {
            assert(!allocation_laws::is_free(plan, x));
        }
    }
}

/// Law: a runner that was created works on its chunk, which stays what it was but for
/// that, and is listened to.
pub proof fn a_created_runner_is_at_work<K>(
    before: RunnerManager<K>,
    after: RunnerManager<K>,
    output: PendingRunnerOutput<K>,
    meters_before: Map<RunnerId, usize>,
    meters: Map<RunnerId, usize>,
    now: u64,
    tick: RunnerTick<K>,
)
    requires
        before.chunk_planner.consistent(),
        before.chunk_planner.runner_chunk(output.context.runner_id) is Some,
        output.result is Ok,
        after.ticked(
            &before,
            ManagerEvent::Pending(Some(output)),
            meters_before,
            meters,
            now,
            tick,
        ),
    ensures
        ({
            let runner_id = output.context.runner_id;
            let key = before.chunk_planner.runner_map()[runner_id];
            let old_state = before.chunk_planner.chunk_map()[key];
            let state = after.chunk_planner.chunk_map()[key];
            &&& state.status == ChunkStatus::Running
            &&& state.allocated == old_state.allocated
            &&& state.downloaded == old_state.downloaded
            &&& state.runner_id == Some(runner_id)
            &&& after.chunk_planner.chunk_map().dom() == before.chunk_planner.chunk_map().dom()
            &&& after.lifecycle_aggregator.map@.contains_key(runner_id)
            &&& after.lifecycle_aggregator.map@[runner_id] == output.result->Ok_0.lifecycle_rx
            &&& after.data_aggregator.map@.contains_key(runner_id)
            &&& after.data_aggregator.map@[runner_id] == output.result->Ok_0.data_rx
            &&& tick.state == TaskState::Downloading
            &&& after.runner_outcome_sampler == before.runner_outcome_sampler
        }),
{
    let key = before.chunk_planner.runner_map()[output.context.runner_id];
    assert(before.chunk_planner.chunk_map().contains_key(key));
    assert(after.chunk_planner.chunk_map().dom() =~= before.chunk_planner.chunk_map().dom());
}

/// Law: data moves its runner forward by the bytes that fit into the chunk, and nobody
/// else; a chunk is finished by it exactly where it is then full. What is handed on for
/// writing starts where the runner was.
pub proof fn data_moves_its_runner_forward<K>(
    before: RunnerManager<K>,
    after: RunnerManager<K>,
    item: RunnerTaggedStreamItem<crate::runner::DataFrame>,
    meters_before: Map<RunnerId, usize>,
    meters: Map<RunnerId, usize>,
    now: u64,
    tick: RunnerTick<K>,
)
    requires
        before.chunk_planner.consistent(),
        before.chunk_planner.runner_chunk(item.runner_id) is Some,
        before.event_fits(ManagerEvent::Data(Some(DataStreamEvent::Data(item))), meters_before),
        after.ticked(
            &before,
            ManagerEvent::Data(Some(DataStreamEvent::Data(item))),
            meters_before,
            meters,
            now,
            tick,
        ),
    ensures
        ({
            let bytes = crate::buffer::contents(item.item.data);
            let key = before.chunk_planner.runner_map()[item.runner_id];
            let old_state = before.chunk_planner.chunk_map()[key];
            let state = after.chunk_planner.chunk_map()[key];
            let moved = state.downloaded.end - old_state.downloaded.end;
            &&& state.downloaded.start == old_state.downloaded.start
            &&& state.allocated == old_state.allocated
            &&& 0 <= moved <= bytes.len()
            &&& moved < bytes.len() ==> state.downloaded.end == key.end
            &&& state.downloaded.end <= key.end
            &&& old_state.status != ChunkStatus::Finished ==> (state.status
                == ChunkStatus::Finished <==> state.downloaded.end == key.end)
            &&& after.chunk_planner.chunk_map().dom() == before.chunk_planner.chunk_map().dom()
            &&& forall|other: Range<u64>| #[trigger]
                after.chunk_planner.chunk_map().contains_key(other) && other != key
                    ==> after.chunk_planner.chunk_map()[other]
                    == before.chunk_planner.chunk_map()[other]
            &&& tick.state == TaskState::Downloading
            &&& tick.downloaded matches Some(chunk) && chunk.range.start
                == old_state.downloaded.end && chunk.range.end == state.downloaded.end
                && crate::buffer::contents(chunk.bytes) == bytes.take(moved)
            &&& meters.contains_key(item.runner_id)
            &&& meters[item.runner_id] == bytes.len() + (if meters_before.contains_key(
                item.runner_id,
            ) {
                meters_before[item.runner_id] as int
            } else {
                0
            })
        }),
{
    let key = before.chunk_planner.runner_map()[item.runner_id];
    assert(before.chunk_planner.chunk_map().contains_key(key));
    assert(after.chunk_planner.chunk_map().dom() =~= before.chunk_planner.chunk_map().dom());
}

} // verus!

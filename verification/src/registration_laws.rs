//! What comes and goes with a runner, and what does not.
use crate::aggregator::LifecycleStreamEvent;
use crate::chunk_state::ChunkStatus;
use crate::manager::{
    ManagerEvent, ReleasedStreams, RunnerManager, RunnerRegistration, RunnerTick, TaskState,
};
use crate::runner::{ActionView, EventView, RunnerView};
use crate::runner_error::{TaskError, TaskRunError};
use crate::{allocation_laws, id, RunnerId};
use std::ops::Range;
use vstd::prelude::*;

verus! {

/// A runner is known, reached and listened to as before.
pub open spec fn is_kept<K>(
    before: RunnerManager<K>,
    after: RunnerManager<K>,
    runner_id: RunnerId,
) -> bool {
    &&& after.allocated(runner_id) == before.allocated(runner_id)
    &&& after.control_channels@.contains_key(runner_id) == before.control_channels@.contains_key(
        runner_id,
    )
    &&& before.control_channels@.contains_key(runner_id) ==> after.control_channels@[runner_id]
        == before.control_channels@[runner_id]
    &&& after.lifecycle_aggregator.map@.contains_key(runner_id)
        == before.lifecycle_aggregator.map@.contains_key(runner_id)
    &&& before.lifecycle_aggregator.map@.contains_key(runner_id)
        ==> after.lifecycle_aggregator.map@[runner_id]
        == before.lifecycle_aggregator.map@[runner_id]
    &&& after.data_aggregator.map@.contains_key(runner_id)
        == before.data_aggregator.map@.contains_key(runner_id)
    &&& before.data_aggregator.map@.contains_key(runner_id)
        ==> after.data_aggregator.map@[runner_id] == before.data_aggregator.map@[runner_id]
}

/// Nothing is left of a runner.
pub open spec fn is_gone<K>(after: RunnerManager<K>, runner_id: RunnerId) -> bool {
    &&& !after.allocated(runner_id)
    &&& !after.control_channels@.contains_key(runner_id)
    &&& !after.lifecycle_aggregator.map@.contains_key(runner_id)
    &&& !after.data_aggregator.map@.contains_key(runner_id)
}

/// Law: a release takes away the runner that is named, and nobody else. Its streams, and
/// only those, are handed over; its ID is free, and the next search for one starts no
/// later than there.
pub proof fn only_the_released_runner_goes<K>(
    before: RunnerManager<K>,
    after: RunnerManager<K>,
    runner_id: RunnerId,
    streams: ReleasedStreams<K>,
)
    requires
        before.wf(),
        after.unregistered(&before, runner_id, streams),
    ensures
        is_gone(after, runner_id),
        forall|other: RunnerId|
            other != runner_id ==> #[trigger] is_kept(before, after, other),
        streams.lifecycle is Some <==> before.lifecycle_aggregator.map@.contains_key(runner_id),
        streams.lifecycle matches Some(stream) ==> stream
            == before.lifecycle_aggregator.map@[runner_id],
        streams.data is Some <==> before.data_aggregator.map@.contains_key(runner_id),
        streams.data matches Some(stream) ==> stream == before.data_aggregator.map@[runner_id],
        after.lifecycle_aggregator.is_closed == before.lifecycle_aggregator.is_closed,
        after.lifecycle_aggregator.waiting == before.lifecycle_aggregator.waiting,
        after.id_generator.next_free_hint <= before.id_generator.next_free_hint,
        before.allocated(runner_id) ==> after.id_generator.next_free_hint <= runner_id,
        before.allocated(runner_id) ==> id::count_set(after.id_generator.used()) + 1
            == id::count_set(before.id_generator.used()),
        !before.allocated(runner_id) ==> after.id_generator.used() == before.id_generator.used(),
{
    if before.allocated(runner_id) {
        id::count_set_update(before.id_generator.used(), runner_id as int, false);
    }
}

/// Law: the end of a runner, whichever it is, is the end of nobody else. What is being
/// created goes on, the other runners are reached and listened to as before, and only the
/// bytes that the runner counted are taken off the meters.
pub proof fn an_end_is_the_end_of_nobody_else<K>(
    before: RunnerManager<K>,
    after: RunnerManager<K>,
    event: ManagerEvent<K>,
    runner_id: RunnerId,
    meters_before: Map<RunnerId, usize>,
    meters: Map<RunnerId, usize>,
    now: u64,
    tick: RunnerTick<K>,
)
    requires
        before.wf(),
        after.ticked(&before, event, meters_before, meters, now, tick),
        match event {
            ManagerEvent::Lifecycle(Some(LifecycleStreamEvent::Event(tagged))) => tagged.item
                is Stopped && tagged.runner_id == runner_id,
            ManagerEvent::Lifecycle(Some(LifecycleStreamEvent::Closed(closed))) => closed
                == runner_id,
            ManagerEvent::Pending(Some(output)) => output.result is Err && output.context.runner_id
                == runner_id,
            _ => false,
        },
    ensures
        is_gone(after, runner_id),
        forall|other: RunnerId|
            other != runner_id ==> #[trigger] is_kept(before, after, other),
        after.pending_runners == before.pending_runners,
        forall|other: RunnerId|
            other != runner_id ==> (#[trigger] meters.contains_key(other)
                <==> meters_before.contains_key(other)),
        forall|other: RunnerId|
            other != runner_id && #[trigger] meters.contains_key(other) ==> meters[other]
                == meters_before[other],
        tick.downloaded is None,
{
    only_the_released_runner_goes(before, after, runner_id, tick.released);
}

/// Law: a new runner gets an ID that nobody has and a channel of its own, and changes
/// nothing for the others.
pub proof fn a_new_runner_gets_an_id_of_its_own<K>(
    before: RunnerManager<K>,
    after: RunnerManager<K>,
    registration: RunnerRegistration,
)
    requires
        before.wf(),
        after.registered(&before, registration),
        after.same_streams(&before),
    ensures
        !before.allocated(registration.runner_id),
        after.allocated(registration.runner_id),
        after.control_channels@.contains_key(registration.runner_id),
        forall|other: RunnerId|
            other != registration.runner_id ==> #[trigger] is_kept(before, after, other),
        id::count_set(after.id_generator.used()) == id::count_set(before.id_generator.used()) + 1,
        registration.runner_id < before.id_generator.used().len(),
{
    id::count_set_update(
        before.id_generator.used(),
        registration.runner_id as int,
        true,
    );
}

/// Law: an allocation that is taken back leaves every runner what it was.
pub proof fn a_refusal_leaves_the_runners<K>(before: RunnerManager<K>, after: RunnerManager<K>)
    requires
        before.wf(),
        after.refused(&before),
    ensures
        after.chunk_planner == before.chunk_planner,
        forall|runner_id: RunnerId|
            before.allocated(runner_id) ==> #[trigger] is_kept(before, after, runner_id),
        forall|runner_id: RunnerId| #[trigger]
            after.allocated(runner_id) <==> before.allocated(runner_id),
        after.control_channels@.dom() == before.control_channels@.dom(),
        after.lifecycle_aggregator.is_closed == before.lifecycle_aggregator.is_closed,
        after.lifecycle_aggregator.waiting == before.lifecycle_aggregator.waiting,
{
    id::next_free_is_smallest(
        before.id_generator.used(),
        before.id_generator.next_free_hint as int,
        before.id_generator.used().len() as int,
    );
}

/// Law: a task is finished only where there are chunks, every one is finished, and no byte
/// of the content is free; and it is, as soon as that is so and no runner is being created.
pub proof fn a_finished_task_has_nothing_left<K>(
    before: RunnerManager<K>,
    after: RunnerManager<K>,
    event: ManagerEvent<K>,
    meters_before: Map<RunnerId, usize>,
    meters: Map<RunnerId, usize>,
    now: u64,
    tick: RunnerTick<K>,
)
    requires
        after.ticked(&before, event, meters_before, meters, now, tick),
    ensures
        ({
            let plan = after.chunk_planner;
            let done = (exists|key: Range<u64>| #[trigger] plan.chunk_map().contains_key(key)) && (
            forall|key: Range<u64>| #[trigger]
                plan.chunk_map().contains_key(key) ==> plan.chunk_map()[key].status
                    == ChunkStatus::Finished) && (forall|x: int|
                !#[trigger] allocation_laws::is_free(plan, x));
            &&& tick.state == TaskState::Finished ==> done
            &&& event == ManagerEvent::<K>::Pending(None) && done ==> tick.state
                == TaskState::Finished
        }),
{
    let plan = after.chunk_planner;
    assert forall|x: int| #[trigger] allocation_laws::is_free(plan, x) <==> plan.available(x) by {
        allocation_laws::free_means_available(plan, x);
    }
    if forall|x: int| !#[trigger] allocation_laws::is_free(plan, x) {
        assert forall|x: int| !#[trigger] plan.available(x) by {
            assert(!allocation_laws::is_free(plan, x));
        }
    }
}

/// Law: a start that is reported, and a stream that has nothing more, change nothing but
/// what is told of the task.
pub proof fn quiet_events_change_nothing<K>(
    before: RunnerManager<K>,
    after: RunnerManager<K>,
    event: ManagerEvent<K>,
    meters_before: Map<RunnerId, usize>,
    meters: Map<RunnerId, usize>,
    now: u64,
    tick: RunnerTick<K>,
)
    requires
        after.ticked(&before, event, meters_before, meters, now, tick),
        match event {
            ManagerEvent::Lifecycle(Some(LifecycleStreamEvent::Event(tagged))) => tagged.item
                is Started,
            ManagerEvent::Lifecycle(None) => true,
            ManagerEvent::Pending(None) => true,
            ManagerEvent::Data(None) => true,
            _ => false,
        },
    ensures
        after == before,
        meters == meters_before,
        tick.downloaded is None,
        tick.released.lifecycle is None,
        tick.released.data is None,
{
}

/// Law: a runner whose manager is gone stops with that error: at once, or as soon as the
/// flush on its way is done, where nothing else went wrong before. Until then it keeps in
/// mind that there is nobody to be asked.
pub proof fn a_lost_manager_ends_the_run(runner: RunnerView, event: EventView)
    requires
        runner.wf(),
        event is Control,
        event->Control_0 is Err,
    ensures
        ({
            let (after, action) = runner.step(event);
            let lost = ActionView::Stop(Err(TaskRunError::Failed(TaskError::ChannelClosed)));
            match runner.pending {
                None => action == lost,
                Some(state) => {
                    &&& action == ActionView::Wait
                    &&& after.control_closed
                    &&& after.pending == runner.pending
                    &&& after.buff == runner.buff
                    &&& after.total == runner.total
                    &&& after.downloaded == runner.downloaded
                    &&& state.post !is PropagateError && runner.deferred is None ==> after.step(
                        EventView::Flushed(Ok(())),
                    ).1 == lost
                    &&& after.step(EventView::Flushed(Ok(()))).1 matches ActionView::Stop(Err(_))
                },
            }
        }),
{
}

} // verus!

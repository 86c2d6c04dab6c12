//! What a task comes to.
use crate::runner_error::{LifecycleEvent, StoppedReason, TaskError};
use crate::singleton::SingletonTaskInner;
use crate::task::{DownloadMode, Progress, TaskEvent, TaskInstanceError};
use crate::task_builder::{Surroundings, TaskBuilder, TaskPlan};
use crate::task_machine::{Event, State, StepOutcome, TaskMachine};
use crate::{task_builder, task_machine};
use vstd::prelude::*;

verus! {

/// What happens to a task with a single runner.
pub enum SingleEvent {
    /// The runner reports, or its reports end.
    Report(Option<LifecycleEvent>),
    /// Data came, so many bytes.
    Data(nat),
    /// There is no more data.
    DataEnd,
}

/// The task after some events.
pub open spec fn after_events(start: SingletonTaskInner, events: Seq<SingleEvent>) -> SingletonTaskInner
    decreases events.len(),
{
    if events.len() == 0 {
        start
    } else {
        let before = after_events(start, events.drop_last());
        match events.last() {
            SingleEvent::Report(event) => before.on_lifecycle(event).0,
            SingleEvent::Data(count) => before.on_data(count as int).0,
            SingleEvent::DataEnd => before.on_data_end().0,
        }
    }
}

/// The bytes that some events bring.
pub open spec fn delivered(events: Seq<SingleEvent>) -> nat
    decreases events.len(),
{
    if events.len() == 0 {
        0
    } else {
        delivered(events.drop_last()) + match events.last() {
            SingleEvent::Data(count) => count,
            _ => 0,
        }
    }
}

/// The runner reported that it finished.
pub open spec fn is_finished_report(event: SingleEvent) -> bool {
    event == SingleEvent::Report(Some(LifecycleEvent::Stopped(StoppedReason::Finished)))
}

/// Law: a task with a single runner knows what has happened: its runner has stopped where
/// it reported that, the data is over where it ended, and as much has been downloaded as
/// was delivered.
pub proof fn a_single_task_keeps_count(start: SingletonTaskInner, events: Seq<SingleEvent>)
    requires
        !start.runner_stopped,
        !start.data_done,
        start.downloaded == 0,
        delivered(events) <= u64::MAX,
    ensures
        ({
            let after = after_events(start, events);
            &&& after.runner_stopped <==> exists|k: int|
                0 <= k < events.len() && is_finished_report(#[trigger] events[k])
            &&& after.data_done <==> exists|k: int|
                0 <= k < events.len() && #[trigger] events[k] is DataEnd
            &&& after.downloaded == delivered(events)
            &&& after.total == start.total
        }),
    decreases events.len(),
{
    if events.len() > 0 {
        let earlier = events.drop_last();
        let n = earlier.len() as int;
        a_single_task_keeps_count(start, earlier);
        assert(events[n] == events.last());
        assert(forall|k: int| 0 <= k < n ==> #[trigger] events[k] == earlier[k]);
        if exists|k: int| 0 <= k < n && is_finished_report(#[trigger] earlier[k]) {
            let k = choose|k: int| 0 <= k < n && is_finished_report(#[trigger] earlier[k]);
            assert(is_finished_report(events[k]));
        }
        if exists|k: int| 0 <= k < n && #[trigger] earlier[k] is DataEnd {
            let k = choose|k: int| 0 <= k < n && #[trigger] earlier[k] is DataEnd;
            assert(events[k] is DataEnd);
        }
    }
}

/// Law: the download of a single runner is done exactly when both have happened, in either
/// order: the runner reported that it finished, and the data ended. A failed runner fails
/// the task with its error. The end of the reports alone means nothing.
pub proof fn a_single_download_is_done_when_all_is_there(
    start: SingletonTaskInner,
    events: Seq<SingleEvent>,
    error: TaskError,
)
    requires
        !start.runner_stopped,
        !start.data_done,
        start.downloaded == 0,
        delivered(events) <= u64::MAX,
    ensures
        ({
            let task = after_events(start, events);
            let finished = exists|k: int|
                0 <= k < events.len() && is_finished_report(#[trigger] events[k]);
            let ended = exists|k: int|
                0 <= k < events.len() && #[trigger] events[k] is DataEnd;
            &&& task.on_data_end().1 == finished
            &&& task.on_lifecycle(Some(LifecycleEvent::Stopped(StoppedReason::Finished))).1
                == Ok::<bool, TaskInstanceError>(ended)
            &&& task.on_lifecycle(Some(LifecycleEvent::Started)).1
                == Ok::<bool, TaskInstanceError>(finished && ended)
            &&& task.on_lifecycle(None) == (task, Ok::<bool, TaskInstanceError>(false))
            &&& task.on_lifecycle(Some(LifecycleEvent::Stopped(StoppedReason::Failed(error)))).1
                == Err::<bool, TaskInstanceError>(TaskInstanceError::Failed(error))
        }),
{
    a_single_task_keeps_count(start, events);
}

/// Law: what a single runner delivers is written from the start, one after another.
pub proof fn single_frames_follow_each_other(
    start: SingletonTaskInner,
    events: Seq<SingleEvent>,
    count: nat,
)
    requires
        !start.runner_stopped,
        !start.data_done,
        start.downloaded == 0,
        delivered(events) + count <= u64::MAX,
    ensures
        ({
            let range = after_events(start, events).on_data(count as int).1;
            &&& range.start == delivered(events)
            &&& range.end == delivered(events) + count
        }),
{
    a_single_task_keeps_count(start, events);
}

/// Law: several runners are used exactly where parts of the content can be fetched and a
/// single one is not preferred.
pub proof fn parts_need_ranges(prefer: Option<DownloadMode>, range_available: bool)
    ensures
        task_builder::chosen_mode(prefer, range_available) == DownloadMode::Concurrent
            <==> range_available && prefer != Some(DownloadMode::Singleton),
        task_builder::chosen_mode(prefer, range_available) == DownloadMode::Singleton
            || task_builder::chosen_mode(prefer, range_available) == DownloadMode::Concurrent,
{
}

/// Law: a task is built exactly where a runtime, an adapter, a cancel token and a path with
/// a file name are set, its parent is a directory, and it is none itself. What stands in
/// the way is told; a task that is built has what was set.
pub proof fn complete_builders_build<A, R, L, C>(
    builder: TaskBuilder<A, R, L, C>,
    found: Surroundings,
)
    ensures
        ({
            let complete = builder.threaded_runtime is Some && builder.adapter is Some
                && builder.cancel_token is Some && (builder.save_path matches Some(path)
                && path.file_name is Some && path.parent is Some) && found.parent_is_dir
                && !found.target_is_dir;
            let told = builder.obstacle(found);
            &&& told is None <==> complete
            &&& builder.cancel_token is None ==> told == Some("cancel token is not set"@)
            &&& builder.cancel_token is Some && builder.adapter is None ==> told == Some(
                "adapter is not set"@,
            )
            &&& builder.cancel_token is Some && builder.adapter is Some
                && builder.threaded_runtime is None ==> told == Some("runtime is not set"@)
            &&& builder.cancel_token is Some && builder.adapter is Some
                && builder.threaded_runtime is Some ==> {
                &&& builder.save_path is None ==> told == Some("save path is not set"@)
                &&& builder.save_path matches Some(path) ==> {
                    &&& path.file_name is None ==> told == Some("save path must have a filename"@)
                    &&& path.file_name is Some && path.parent is None ==> told == Some(
                        "save path parent directory does not exist"@,
                    )
                    &&& path.file_name is Some && path.parent is Some && !found.parent_is_dir
                        ==> told == Some(
                        "save path parent directory does not exist or is not a directory"@,
                    )
                    &&& path.file_name is Some && path.parent is Some && found.parent_is_dir
                        && found.target_is_dir ==> told == Some(
                        "save path already exists as a directory"@,
                    )
                }
            }
        }),
{
}

/// Law: a task is what its builder was given.
pub proof fn plans_hold_what_was_set<A, R, L, C>(
    builder: TaskBuilder<A, R, L, C>,
    found: Surroundings,
    plan: TaskPlan<A, R, L, C>,
)
    requires
        builder.planned(found, plan),
        builder.save_path is Some,
        (builder.save_path->0).file_name is Some,
    ensures
        builder.adapter == Some(plan.adapter),
        builder.threaded_runtime == Some(plan.threaded_rt),
        builder.local_runtime_builder == plan.local_runtime_builder,
        builder.cancel_token == Some(plan.cancel_token),
        builder.meta == Some(plan.meta),
        builder.save_path == Some(plan.save_path),
        plan.mode == DownloadMode::Concurrent <==> found.range_stream_available
            && builder.prefer_mode != Some(DownloadMode::Singleton),
        plan.tmp_name@ == (builder.save_path->0).file_name->0@ + ".partial"@,
{
}

/// Law: a path is suggested exactly where none is set, a directory is, and the content has
/// a name.
pub proof fn paths_are_suggested_where_none_is_set<A, R, L, C>(builder: TaskBuilder<A, R, L, C>)
    ensures
        builder.save_path is Some ==> builder.suggestion() is None,
        builder.suggestion() is Some <==> builder.save_path is None && builder.save_dir is Some && (
        builder.meta matches Some(meta) && meta.filename is Some),
        builder.suggestion() matches Some((dir, name)) ==> builder.save_dir == Some(dir) && (
        builder.meta matches Some(meta) && meta.filename == Some(name)),
{
}

/// Law: what moves a task. A task that has stopped can be run, and is initialized first;
/// what has been initialized is downloaded, and what has been downloaded is finished. A
/// step that fails stops the task with its error, a cancelled one as cancelled. Nothing
/// else moves it, and a step is due exactly on the way into a state that has one.
pub proof fn tasks_move_on(state: State, outcome: StepOutcome, error: TaskInstanceError)
    ensures
        state is Stopped ==> task_machine::transition(state, Event::Run) == (
            Some(State::Initializing),
            1int,
        ),
        !(state is Stopped) ==> task_machine::transition(state, Event::Run) == (
            None::<State>,
            0int,
        ),
        state is Stopped ==> task_machine::transition(state, Event::Step(outcome)) == (
            None::<State>,
            0int,
        ),
        task_machine::transition(State::Initializing, Event::Step(StepOutcome::Done(Ok(())))) == (
            Some(State::Downloading),
            1int,
        ),
        task_machine::transition(State::Downloading, Event::Step(StepOutcome::Done(Ok(())))) == (
            Some(State::Stopped { reason: Some(Ok(())) }),
            0int,
        ),
        !(state is Stopped) ==> task_machine::transition(
            state,
            Event::Step(StepOutcome::Done(Err(error))),
        ) == (Some(State::Stopped { reason: Some(Err(error)) }), 0int),
        !(state is Stopped) ==> task_machine::transition(state, Event::Step(StepOutcome::Cancelled))
            == (
            Some(
                State::Stopped {
                    reason: Some(Err(TaskInstanceError::Failed(TaskError::Cancelled))),
                },
            ),
            0int,
        ),
{
}

/// Law: what a task says of itself is true: that it is finished only where it stopped
/// without an error, and that it failed only where it stopped with that error.
pub proof fn announcements_are_true(
    machine: TaskMachine,
    progress: Progress,
    finished: Progress,
    event: TaskEvent,
)
    requires
        machine.announces(progress, finished, event),
    ensures
        match event {
            TaskEvent::Finished(told) => told == finished && (machine.state
                matches State::Stopped { reason } && reason is Some && reason->0 is Ok),
            TaskEvent::Failed(error) => machine.state matches State::Stopped { reason } && reason
                == Some(Err::<(), TaskInstanceError>(error)),
            TaskEvent::Initializing => machine.state is Initializing,
            TaskEvent::Downloading(report) => machine.state is Downloading && report.progress
                == progress && report.speed == 0 && report.write_speed == 0,
        },
{
}

} // verus!

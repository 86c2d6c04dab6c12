use bolt_load::adapter::{AdapterError, BoltLoadAdapterMeta, UnretryableError};
use bolt_load::aggregator::{DataStreamEvent, LifecycleStreamEvent, RunnerTaggedStreamItem};
use bolt_load::concurrent::{
    handle_strategy_action, split_task, ActionError, ConcurrentTaskInner, DEFAULT_MAX_CONCURRENCY,
};
use bolt_load::download_loop::{conclude, DownloadLoop};
use bolt_load::manager::{ManagerEvent, RunnerManager};
use bolt_load::pending::{PendingRunnerContext, RunnerBuilderOutput};
use bolt_load::pending_writer::{can_count, WriteCompletion};
use bolt_load::planner::ChunkPlanner;
use bolt_load::planner_guard::PlannerGuard;
use bolt_load::ratio::Ratio;
use bolt_load::range_set::{merge_adjacent_ranges, overlaps, subtract_ranges};
use bolt_load::runner::{ControlEvent, DataFrame};
use bolt_load::runner_error::{LifecycleEvent, TaskError};
use bolt_load::strategy::StrategyAction;
use bolt_load::task::TaskInstanceError;
use bolt_load::throughput::{current_progress, drain_meters, per_runner_speed};
use bolt_load::writer_error::{CommandError, FileWriterError};
use bytes::Bytes;
use std::collections::HashMap;
use std::ops::Range;

fn created(id: usize, range: Range<u64>) -> ManagerEvent<u8> {
    let output = RunnerBuilderOutput { data_rx: 1, lifecycle_rx: 2 };
    ManagerEvent::Pending(Some(PendingRunnerContext::new(id, range).settle(Some(Ok(output)))))
}

fn data(runner_id: usize, bytes: Vec<u8>) -> ManagerEvent<u8> {
    let item = DataFrame { data: Bytes::from(bytes) };
    ManagerEvent::Data(Some(DataStreamEvent::Data(RunnerTaggedStreamItem { runner_id, item })))
}

fn lifecycle(runner_id: usize, item: LifecycleEvent) -> ManagerEvent<u8> {
    let tagged = RunnerTaggedStreamItem { runner_id, item };
    ManagerEvent::Lifecycle(Some(LifecycleStreamEvent::Event(tagged)))
}

fn other_failure(result: Result<(), TaskInstanceError>) -> String {
    match result {
        Err(TaskInstanceError::Failed(TaskError::Other { message })) => message,
        other => panic!("unexpected {:?}", other),
    }
}

#[test]
fn throughput_tick_reports_download_and_write_speed() {
    let mut download = DownloadLoop::<u8>::new(1024, 2);
    download.meters.insert(0, 512usize);
    download.write_bytes_meter = 768;

    let reading = download.read_meters();
    assert_eq!(reading.downloaded_bytes, 512);
    assert_eq!(reading.written_bytes, 768);
    assert_eq!(reading.runners, 1);
    assert_eq!(reading.progress.total, Some(1024));
    assert_eq!(download.meters.get(&0), Some(&0));
    assert_eq!(download.write_bytes_meter, 0);

    download.set_speed(900, reading.runners);
    assert!(download.current_speed > 0);
    assert!(download.per_runner_avg_speed.numerator > 0);
}

#[test]
fn a_download_is_written_and_finished() {
    let mut download = DownloadLoop::<u8>::new(300, 2);
    assert!(!download.waits_for().writer);
    let (name, actions) = download.on_strategy_timer().unwrap();
    assert_eq!(name, "concurrency_control");
    let mut spawned = Vec::new();
    for action in actions {
        let outcome = download.on_action(action);
        assert!(outcome.error.is_none());
        spawned.extend(outcome.spawned);
    }
    assert_eq!(spawned.len(), 1);
    assert_eq!(spawned[0].range, 0..300);

    assert!(download.on_runner(created(0, 0..300)).unwrap().dispatch.is_none());
    let first = download.on_runner(data(0, vec![1; 200])).unwrap().dispatch.unwrap();
    assert_eq!(first.range, 0..200);
    assert!(download.waits_for().writer);
    let second = download.on_runner(data(0, vec![2; 100])).unwrap().dispatch.unwrap();
    assert_eq!(second.range, 200..300);
    let finished = download.on_runner(lifecycle(0, LifecycleEvent::finished())).unwrap();
    assert!(finished.finished);
    assert_eq!(finished.released.data, Some(1));

    let written = vec![
        WriteCompletion { range: 0..200, result: Ok(()) },
        WriteCompletion { range: 200..300, result: Ok(()) },
    ];
    assert!(download.on_writer(Some(written)).unwrap().is_none());
    assert_eq!(download.write_bytes_meter, 300);
    assert!(!download.waits_for().writer);
    assert!(conclude(Ok(()), Vec::new()).is_ok());
}

#[test]
fn a_full_writer_is_not_given_more() {
    let mut download = DownloadLoop::<u8>::new(300, 1);
    download.on_action(StrategyAction::CreateTask(0..300));
    download.on_runner(created(0, 0..300)).unwrap();
    assert!(download.on_runner(data(0, vec![1; 10])).unwrap().dispatch.is_some());
    assert!(download.on_runner(data(0, vec![1; 10])).unwrap().dispatch.is_none());
    assert!(!download.waits_for().data);
    // What comes although it is not awaited is refused
    match download.on_runner(data(0, vec![1; 10])) {
        Err(TaskInstanceError::Failed(TaskError::Other { message })) => {
            assert!(message.contains("20..30"));
        }
        other => panic!("unexpected {:?}", other),
    }
}

#[test]
fn write_failures_end_the_download() {
    let mut download = DownloadLoop::<u8>::new(300, 1);
    download.on_action(StrategyAction::CreateTask(0..300));
    download.on_runner(created(0, 0..300)).unwrap();
    download.on_runner(data(0, vec![1; 10])).unwrap();
    let failed = || {
        vec![WriteCompletion {
            range: 0..10,
            result: Err(FileWriterError::Finalize {
                source: CommandError::Recv,
                path: String::from("p"),
            }),
        }]
    };
    let message = other_failure(download.on_writer(Some(failed())).map(|_| ()));
    assert!(message.starts_with("write failed at 0..10: "));
    assert_eq!(
        other_failure(download.on_writer(None).map(|_| ())),
        "writer completion channel closed unexpectedly"
    );
    assert!(conclude(Ok(()), failed()).is_err());
    assert!(matches!(
        conclude(Err(TaskInstanceError::new_failed(TaskError::Cancelled)), failed()),
        Err(TaskInstanceError::Failed(TaskError::Cancelled))
    ));
}

#[test]
fn a_split_moves_the_rest_to_a_new_runner() {
    let mut manager = RunnerManager::<u8>::new(1000, 2);
    let first = manager.allocate_runner_with_chunk(0..1000).unwrap();
    manager.update_progress(0, 200).unwrap();
    let spawn = split_task(&mut manager, 0).unwrap();
    assert_eq!(spawn.runner_id, 1);
    assert_eq!(spawn.range, 600..1000);
    assert_eq!(manager.get_runner_state(0).unwrap().allocated, 0..600);
    assert!(matches!(first.control_rx.try_recv(), Ok(ControlEvent::LimitTotal(600))));
    assert_eq!(manager.get_total_downloaded(), 200);
    assert!(manager.get_available_ranges().is_empty());
}

#[test]
fn a_split_needs_a_runner_and_room() {
    let mut manager = RunnerManager::<u8>::new(1000, 1);
    assert_eq!(split_task(&mut manager, 0).unwrap_err(), ActionError::UnknownRunner(0));
    let first = manager.allocate_runner_with_chunk(0..1000).unwrap();
    assert_eq!(split_task(&mut manager, 0).unwrap_err(), ActionError::NoRoom);
    drop(first.control_rx);
    assert!(matches!(split_task(&mut manager, 0), Err(ActionError::NotTold(_))));
}

#[test]
fn even_one_byte_is_handed_over() {
    let mut manager = RunnerManager::<u8>::new(10, 2);
    let first = manager.allocate_runner_with_chunk(0..10).unwrap();
    manager.update_progress(0, 9).unwrap();
    let spawn = split_task(&mut manager, 0).unwrap();
    assert_eq!(spawn.range, 9..10);
    assert_eq!(manager.get_runner_state(0).unwrap().allocated, 0..9);
    assert!(matches!(first.control_rx.try_recv(), Ok(ControlEvent::LimitTotal(9))));
}

#[test]
fn a_split_stops_at_the_limit_of_chunks() {
    let mut manager = RunnerManager::<u8>::new(1000, 4);
    manager.chunk_planner.max_chunk_count = Some(2);
    let first = manager.allocate_runner_with_chunk(0..1000).unwrap();
    let spawn = split_task(&mut manager, 0).unwrap();
    assert_eq!(spawn.range, 500..1000);
    // The runner is told before the limit is met
    assert_eq!(split_task(&mut manager, 0).unwrap_err(), ActionError::NoRoom);
    assert_eq!(manager.get_runner_state(0).unwrap().allocated, 0..250);
    assert!(matches!(first.control_rx.try_recv(), Ok(ControlEvent::LimitTotal(500))));
    assert!(matches!(first.control_rx.try_recv(), Ok(ControlEvent::LimitTotal(250))));
    assert_eq!(manager.get_available_ranges(), vec![250..500]);
}

#[test]
fn proposals_can_be_carried_out() {
    const MEBI: u64 = 1024 * 1024;
    let mut download = DownloadLoop::<u8>::new(32 * MEBI, 4);
    let mut outcomes = Vec::new();
    let mut ranges = Vec::new();
    for round in 0..3 {
        if round == 2 {
            // The first runner has the most left
            assert!(download.on_runner(data(1, vec![1; 10])).is_ok());
        }
        let (_, mut actions) = download.on_strategy_timer().unwrap();
        assert_eq!(actions.len(), 1);
        match round {
            0 => assert!(matches!(&actions[0], StrategyAction::CreateTask(_))),
            1 => assert!(matches!(&actions[0], StrategyAction::SplitAllTask(_))),
            _ => assert!(matches!(&actions[0], StrategyAction::SplitGivenTask(_))),
        }
        let action = actions.pop().unwrap();
        assert!(download.can_act(&action));
        let outcome = download.on_action(action);
        assert!(outcome.error.is_none());
        for spawn in &outcome.spawned {
            ranges.push(spawn.range.clone());
            let event = created(spawn.runner_id, spawn.range.clone());
            assert!(download.on_runner(event).is_ok());
        }
        outcomes.push(outcome);
        download.set_speed(4 * MEBI, ranges.len());
    }
    assert_eq!(ranges, vec![0..32 * MEBI, 16 * MEBI..32 * MEBI, 8 * MEBI..16 * MEBI]);
    // Every chunk is in the hands of its own runner
    for (runner_id, range) in [
        (0, 0..8 * MEBI),
        (1, 16 * MEBI..32 * MEBI),
        (2, 8 * MEBI..16 * MEBI),
    ] {
        let state = download.runner_manager.get_runner_state(runner_id).unwrap();
        assert_eq!(state.allocated, range);
        assert_eq!(state.runner_id, Some(runner_id));
    }
}

#[test]
fn actions_change_the_manager() {
    let mut manager = RunnerManager::<u8>::new(1000, 4);
    let mut max: usize = DEFAULT_MAX_CONCURRENCY;
    handle_strategy_action(&mut manager, &mut max, StrategyAction::ChangeMaxConcurrency(2));
    assert_eq!(max, 2);
    let outcome =
        handle_strategy_action(&mut manager, &mut max, StrategyAction::CreateTask(0..1000));
    assert_eq!(outcome.spawned.len(), 1);
    let again = handle_strategy_action(&mut manager, &mut max, StrategyAction::CreateTask(0..10));
    assert_eq!(again.error, Some(ActionError::NoRoom));
    let split = handle_strategy_action(&mut manager, &mut max, StrategyAction::SplitGivenTask(0));
    assert!(split.error.is_none());
    assert_eq!(split.spawned[0].range, 500..1000);
}

#[test]
fn all_large_tasks_are_split() {
    let size: u64 = 8 * 1024 * 1024;
    let mut manager = RunnerManager::<u8>::new(2 * size, 4);
    let mut max: usize = 4;
    let mut kept = Vec::new();
    for range in [0..size, size..2 * size] {
        kept.push(manager.allocate_runner_with_chunk(range).unwrap());
    }
    let outcome = handle_strategy_action(&mut manager, &mut max, StrategyAction::SplitAllTask(0));
    assert!(outcome.error.is_none());
    assert_eq!(outcome.spawned.len(), 2);
    assert_eq!(manager.get_active_runners_count(), 4);
    assert!(manager.get_available_ranges().is_empty());
}

#[test]
fn a_concurrent_task_needs_a_size() {
    let mut task = ConcurrentTaskInner::new();
    assert_eq!(
        other_failure(task.file_to_write("f").map(|_| ())),
        "File writer creation called before meta retrieval"
    );
    assert_eq!(other_failure(task.retrieve_meta(None)), "Adapter not set before meta retrieval");
    let empty = BoltLoadAdapterMeta { content_size: 0, filename: None };
    assert!(matches!(
        task.retrieve_meta(Some(Ok(empty))),
        Err(TaskInstanceError::RetrieveMetaFailed(AdapterError::Unretryable {
            source: UnretryableError::Whatever { .. },
        }))
    ));
    let known = BoltLoadAdapterMeta { content_size: 50, filename: None };
    task.retrieve_meta(Some(Ok(known))).unwrap();
    assert_eq!(task.file_to_write("f").unwrap(), (String::from("f.downloading"), 50));

    let mut manager = RunnerManager::<u8>::new(50, 1);
    manager.allocate_runner_with_chunk(0..50).unwrap();
    manager.update_progress(0, 20).unwrap();
    task.sync_progress(&manager);
    assert_eq!(task.progress.downloaded, 20);
    assert_eq!(task.progress.downloaded_chunks, vec![0..20]);
    let progress = current_progress(&manager);
    assert_eq!(progress.downloaded, 20);
    assert_eq!(progress.total, Some(50));
}

#[test]
fn meters_are_drained() {
    let mut meters = HashMap::new();
    meters.insert(1, 10usize);
    meters.insert(2, 32usize);
    assert_eq!(drain_meters(&mut meters), 42);
    assert_eq!(drain_meters(&mut meters), 0);
    assert_eq!(meters.len(), 2);
    assert_eq!(per_runner_speed(100, 3), Ratio::new(100, 3));
    assert_eq!(per_runner_speed(100, 0), Ratio::new(0, 1));
}

#[test]
fn a_guard_drops_what_is_not_committed() {
    let mut planner = ChunkPlanner::new(1000);
    planner.allocate_chunk(0..100, Some(1));
    {
        let mut guard = PlannerGuard::new(&mut planner);
        assert!(guard.planner().allocate_chunk(100..200, Some(2)));
    }
    assert_eq!(planner.get_chunks_count(), 1);
    let mut guard = PlannerGuard::new(&mut planner);
    assert!(guard.planner().allocate_chunk(100..200, Some(2)));
    guard.commit();
    assert_eq!(planner.get_chunks_count(), 2);
    assert_eq!(planner.iter_chunks().len(), 2);
}

#[test]
fn ranges_are_subtracted() {
    assert_eq!(subtract_ranges(100, &vec![10..20, 30..40]), vec![0..10, 20..30, 40..100]);
    assert_eq!(subtract_ranges(100, &vec![]), vec![0..100]);
    assert_eq!(subtract_ranges(0, &vec![]), Vec::<Range<u64>>::new());
    assert!(overlaps(&(0..10), &(9..20)));
    assert!(!overlaps(&(0..10), &(10..20)));
}

#[test]
fn what_cannot_be_handled_is_told() {
    let mut download = DownloadLoop::<u8>::new(300, 2);
    assert!(!download.can_hear(&created(0, 0..300)));
    assert!(!download.can_hear(&data(0, vec![1; 10])));
    assert!(!download.can_hear(&lifecycle(0, LifecycleEvent::finished())));
    assert!(download.can_hear(&lifecycle(0, LifecycleEvent::started())));
    assert!(download.can_propose());
    download.on_action(StrategyAction::CreateTask(0..300));
    assert!(download.can_hear(&created(0, 0..300)));
    download.on_runner(created(0, 0..300)).unwrap();
    // A runner is created once
    assert!(!download.can_hear(&created(0, 0..300)));
    assert!(download.can_hear(&data(0, vec![1; 10])));
    assert!(download.can_act(&StrategyAction::SplitAllTask(0)));

    let written = |range: Range<u64>| WriteCompletion { range, result: Ok(()) };
    assert!(!download.can_count(&vec![written(0..10)]));
    download.on_runner(data(0, vec![1; 10])).unwrap();
    assert!(download.can_count(&vec![written(0..10)]));
    let reversed = Range { start: 10, end: 0 };
    assert!(!download.can_count(&vec![written(reversed)]));
    assert!(can_count(&vec![written(0..u64::MAX)], 0));
    assert!(!can_count(&vec![written(0..u64::MAX)], 1));
    assert!(!can_count(&vec![written(0..u64::MAX), written(0..1)], 0));
}

#[test]
fn a_split_beyond_the_number_range_is_told() {
    let mut planner = ChunkPlanner::new(u64::MAX);
    assert!(planner.can_split(u64::MAX));
    assert!(planner.allocate_pending_chunk(0..u64::MAX, 1));
    planner.mark_running(1).unwrap();
    assert!(planner.can_split(u64::MAX));
    planner.update_progress(1, 1).unwrap();
    assert!(!planner.can_split(u64::MAX));
    assert!(planner.can_split(u64::MAX - 1));

    // A chunk without a runner cannot be listed
    let mut idle = ChunkPlanner::new(8 * 1024 * 1024);
    assert!(idle.can_list(None));
    assert!(idle.allocate_idle_chunk(0..8 * 1024 * 1024));
    assert!(!idle.can_list(None));
    assert!(idle.can_list(Some(u64::MAX)));
    idle.min_chunk_size = u64::MAX;
    assert!(!idle.can_list(Some(u64::MAX)));
}

#[test]
fn what_is_written_is_the_content() {
    let content: Vec<u8> = (0..200).collect();
    let mut download = DownloadLoop::<u8>::new(200, 8);
    let first = download.on_action(StrategyAction::CreateTask(0..200));
    assert_eq!(first.spawned.len(), 1);
    download.on_runner(created(0, 0..200)).unwrap();
    let mut file = vec![0u8; 200];
    let mut write = |download: &mut DownloadLoop<u8>, id: usize, bytes: &[u8]| {
        let step = download.on_runner(data(id, bytes.to_vec())).unwrap();
        let write = step.dispatch.unwrap();
        let range = write.range.start as usize..write.range.end as usize;
        file[range].copy_from_slice(&write.bytes);
    };
    write(&mut download, 0, &content[0..40]);
    // The first runner keeps 40..120, another one gets 120..200
    let split = download.on_action(StrategyAction::SplitGivenTask(0));
    assert_eq!(split.spawned[0].range, 120..200);
    download.on_runner(created(1, 120..200)).unwrap();
    write(&mut download, 1, &content[120..150]);
    write(&mut download, 0, &content[40..110]);
    // What lies beyond the chunk of a runner is left out
    write(&mut download, 0, &content[110..140]);
    write(&mut download, 1, &content[150..200]);
    assert_eq!(file, content);
    assert!(matches!(
        first.spawned[0].control_rx.try_recv(),
        Ok(ControlEvent::LimitTotal(120))
    ));
    assert!(download.runner_manager.chunk_planner.is_complete());
}

#[test]
fn merging_keeps_empty_ranges_harmless() {
    let empty = Range { start: 30, end: 30 };
    let reversed = Range { start: 12, end: 4 };
    let merged = merge_adjacent_ranges(vec![20..30, empty, 0..10, reversed, 10..15]);
    let covered = |x: u64| merged.iter().any(|range| range.contains(&x));
    for x in 0..40 {
        assert_eq!(covered(x), x < 15 || (20..30).contains(&x));
    }
}

#[test]
fn merging_again_changes_nothing() {
    let empty = Range { start: 50, end: 50 };
    let merged = merge_adjacent_ranges(vec![40..45, empty.clone(), 0..10, 5..20, 20..30]);
    assert_eq!(merged, vec![0..30, 40..45, empty]);
    assert_eq!(merge_adjacent_ranges(merged.clone()), merged);
}

#[test]
fn a_new_download_starts_from_nothing() {
    let download = DownloadLoop::<u8>::new(300, 2);
    assert_eq!(download.runner_manager.get_available_ranges(), vec![0..300]);
    assert_eq!(download.runner_manager.chunk_planner.get_chunks_count(), 0);
    let control = &download.strategy_control;
    assert_eq!(control.dynamic_strategy.threashold1, 1048576);
    assert_eq!(control.dynamic_strategy.threashold2, 1048576);
    assert_eq!(control.concurrency_control_strategy.config.min_samples, 5);
    assert_eq!(control.concurrency_control_strategy.config.min_concurrency, 1);
}

#[test]
fn speeds_stay_until_they_are_measured_anew() {
    let mut download = DownloadLoop::<u8>::new(300, 2);
    download.set_speed(900, 3);
    download.on_strategy_timer();
    download.on_action(StrategyAction::ChangeMaxConcurrency(1));
    download.read_meters();
    assert_eq!(download.current_speed, 900);
    assert_eq!(download.per_runner_avg_speed, Ratio::new(900, 3));
    assert_eq!(download.max_concurrency, 1);
}

use bolt_load::adapter::{AdapterError, UnretryableError};
use bolt_load::aggregator::{
    DataAggregator, DataStreamEvent, LifecycleAggregator, LifecycleStreamEvent, Polled,
    RunnerNotification, RunnerStreamEvent, RunnerTaggedStream, RunnerTaggedStreamItem,
};
use bolt_load::chunk_state::ChunkStatus;
use bolt_load::control_channel::{SendError, TaskRunnerGuard, DEFAULT_CONTROL_CHANNEL_CAPACITY};
use bolt_load::manager::{ManagerEvent, RunnerManager, TaskState};
use bolt_load::outcome::FailureKind;
use bolt_load::pending::{
    PendingRunnerContext, PendingRunnerError, PendingRunnerGroup, RunnerBuilderOutput,
};
use bolt_load::planner::{Error, DEFAULT_MIN_CHUNK_SIZE};
use bolt_load::runner::{ControlEvent, DataFrame};
use bolt_load::runner_builder::ConnectionError;
use bolt_load::runner_error::{LifecycleEvent, StoppedReason, TaskError};
use bytes::Bytes;
use std::collections::HashMap;
use std::time::Duration;

fn manager(total: u64, max_concurrency: usize) -> RunnerManager<&'static str> {
    RunnerManager::new(total, max_concurrency)
}

fn lifecycle(runner_id: usize, item: LifecycleEvent) -> ManagerEvent<&'static str> {
    let tagged = RunnerTaggedStreamItem { runner_id, item };
    ManagerEvent::Lifecycle(Some(LifecycleStreamEvent::Event(tagged)))
}

fn data(runner_id: usize, bytes: Vec<u8>) -> ManagerEvent<&'static str> {
    let item = DataFrame { data: Bytes::from(bytes) };
    let tagged = RunnerTaggedStreamItem { runner_id, item };
    ManagerEvent::Data(Some(DataStreamEvent::Data(tagged)))
}

#[test]
fn test_runner_manager_creation() {
    let manager = manager(1000, 4);
    assert_eq!(manager.total(), 1000);
    assert_eq!(manager.allocated_runner_count(), 0);
    assert!(!manager.is_full());
    assert!(manager.is_empty());
}

#[test]
fn test_allocate_and_release_runner() {
    let mut manager = manager(1000, 2);

    // Allocate the first runner
    let reg1 = manager.allocate_runner().unwrap();
    assert_eq!(reg1.runner_id, 0);
    assert_eq!(manager.allocated_runner_count(), 1);

    // Allocate the second runner
    let reg2 = manager.allocate_runner().unwrap();
    assert_eq!(reg2.runner_id, 1);
    assert_eq!(manager.allocated_runner_count(), 2);
    assert!(manager.is_full());

    // Cannot allocate more
    assert!(manager.allocate_runner().is_none());

    // Release the first runner
    manager.release_runner(reg1.runner_id);
    assert_eq!(manager.allocated_runner_count(), 1);
    assert!(!manager.is_full());

    // Can allocate again
    let reg3 = manager.allocate_runner().unwrap();
    assert_eq!(reg3.runner_id, 0); // Reuse released ID
}

#[test]
fn test_send_message() {
    let mut manager = manager(1000, 2);

    // Allocate runner
    let reg = manager.allocate_runner().unwrap();

    // Send message
    let result = manager.send_message(reg.runner_id, ControlEvent::LimitTotal(500));
    assert!(result.is_ok());

    // Receive message
    let msg = reg.control_rx.try_recv().unwrap();
    assert!(matches!(msg, ControlEvent::LimitTotal(500)));

    // Send message to non-existent runner
    let result = manager.send_message(999, ControlEvent::LimitTotal(500));
    assert!(matches!(result, Err(SendError::RunnerNotFound(999))));
}

#[test]
fn a_full_or_closed_channel_is_reported() {
    let mut manager = manager(1000, 2);
    let reg = manager.allocate_runner().unwrap();
    for n in 0..DEFAULT_CONTROL_CHANNEL_CAPACITY {
        assert!(manager.send_message(reg.runner_id, ControlEvent::LimitTotal(n as u64)).is_ok());
    }
    assert_eq!(
        manager.send_message(reg.runner_id, ControlEvent::LimitTotal(9)),
        Err(SendError::ChannelFull)
    );
    drop(reg.control_rx);
    assert_eq!(
        manager.send_message(reg.runner_id, ControlEvent::LimitTotal(9)),
        Err(SendError::ChannelClosed)
    );
    assert!(SendError::RunnerNotFound(7).message().contains("7"));
}

#[test]
fn a_guard_reaches_its_runner() {
    let (sender, receiver) = TaskRunnerGuard::create_control_channel();
    let guard = TaskRunnerGuard::new(3, sender);
    assert_eq!(guard.runner_id(), 3);
    assert!(guard.send_message(ControlEvent::LimitTotal(70)).is_ok());
    assert!(matches!(receiver.try_recv(), Ok(ControlEvent::LimitTotal(70))));
    drop(receiver);
    assert_eq!(
        guard.send_message(ControlEvent::LimitTotal(70)),
        Err(SendError::ChannelClosed)
    );
}

#[test]
fn test_allocate_runner_with_chunk() {
    let mut manager = manager(1000, 2);

    // Allocate runner and chunk
    let reg = manager.allocate_runner_with_chunk(0..500).unwrap();

    assert_eq!(reg.runner_id, 0);

    // Verify chunk is allocated
    let state = manager.get_runner_state(reg.runner_id).unwrap();
    assert_eq!(state.allocated, 0..500);
}

#[test]
fn a_refused_chunk_gives_its_runner_back() {
    let mut manager = manager(1000, 2);
    assert!(manager.allocate_runner_with_chunk(0..500).is_some());
    assert!(manager.allocate_runner_with_chunk(400..600).is_none());
    assert_eq!(manager.allocated_runner_count(), 1);
}

#[test]
fn test_release_runner_full() {
    let mut manager = manager(1000, 2);

    // Allocate runner and chunk
    let reg = manager.allocate_runner_with_chunk(0..500).unwrap();

    // Update progress
    manager.update_progress(reg.runner_id, 200).unwrap();

    // Release (failure scenario)
    let (result, _) = manager.release_runner_full(reg.runner_id, false).unwrap();
    assert_eq!(result, Some(200..500));

    // Runner should have been released
    assert!(manager.is_empty());
}

#[test]
fn test_allocate_pending_runner_with_chunk() {
    let mut manager = manager(1000, 2);

    // Allocate pending runner with chunk
    let result = manager.allocate_pending_runner_with_chunk(0..500);

    assert!(result.is_some());
    assert_eq!(result.unwrap().runner_id, 0);
    assert_eq!(manager.allocated_runner_count(), 1);

    // Verify chunk is allocated with pending status
    let state = manager.get_runner_state(0).unwrap();
    assert_eq!(state.allocated, 0..500);
    assert_eq!(state.status, ChunkStatus::Pending);
}

#[test]
fn test_multiple_pending_runners() {
    let mut manager = manager(1000, 4);

    // Allocate multiple pending runners
    for i in 0..4 {
        let start = (i * 250) as u64;
        let end = ((i + 1) * 250) as u64;
        let result = manager.allocate_pending_runner_with_chunk(start..end);
        assert!(result.is_some());
    }

    assert_eq!(manager.allocated_runner_count(), 4);
    assert!(manager.is_full());

    // Cannot allocate more
    let result = manager.allocate_pending_runner_with_chunk(0..100);
    assert!(result.is_none());
}

#[test]
fn test_pending_to_running_via_tick() {
    let mut manager = manager(1000, 2);
    let registration = manager.allocate_pending_runner_with_chunk(0..500).unwrap();
    assert_eq!(registration.runner_id, 0);

    // Verify initial state is pending
    let state = manager.get_runner_state(0).unwrap();
    assert_eq!(state.status, ChunkStatus::Pending);

    // The streams of the new runner arrive
    let output = RunnerBuilderOutput { data_rx: "data", lifecycle_rx: "lifecycle" };
    let settled = PendingRunnerContext::new(0, 0..500).settle(Some(Ok(output)));
    let mut meters = HashMap::new();
    let tick = manager.tick(ManagerEvent::Pending(Some(settled)), &mut meters);

    assert_eq!(tick.state, TaskState::Downloading);
    assert!(tick.downloaded.is_none());

    // Verify state is now running
    let chunk_state = manager.get_runner_state(0).unwrap();
    assert_eq!(chunk_state.status, ChunkStatus::Running);
    assert!(manager.data_aggregator().contains(0));
    assert_eq!(manager.lifecycle_aggregator.map.get(&0), Some(&"lifecycle"));
}

#[test]
fn test_pending_connection_failure_via_tick() {
    let mut manager = manager(1000, 2);
    let registration = manager.allocate_pending_runner_with_chunk(0..500).unwrap();
    assert_eq!(registration.runner_id, 0);
    let state = manager.get_runner_state(0).unwrap();
    assert_eq!(state.status, ChunkStatus::Pending);

    // Send connection error
    let error = PendingRunnerError::Connection {
        source: ConnectionError {
            source: AdapterError::Unretryable {
                source: UnretryableError::Whatever {
                    message: "test connection error".to_string(),
                    source: None,
                },
            },
        },
    };
    let settled = PendingRunnerContext::new(0, 0..500).settle(Some(Err(error)));
    let mut meters = HashMap::new();
    let tick = manager.tick(ManagerEvent::Pending(Some(settled)), &mut meters);

    assert_eq!(tick.state, TaskState::Downloading);
    assert!(tick.downloaded.is_none());

    // Verify runner state is removed (failed)
    assert!(manager.get_runner_state(0).is_none());
    let stats = manager.runner_outcome_sampler_mut().stats();
    assert_eq!(stats.connect_failed_unretryable, 1);
}

#[test]
fn test_new_arch_lifecycle_stopped_cleanup() {
    let mut manager = manager(1000, 2);
    let runner_id = 0;

    // Allocate runner and chunk
    let _reg = manager.allocate_runner_with_chunk(0..500).unwrap();
    manager.register_lifecycle(runner_id, "lifecycle");
    manager.register_data(runner_id, "data");

    // Now emit Stopped
    let mut meters = HashMap::new();
    let stopped = lifecycle(runner_id, LifecycleEvent::Stopped(StoppedReason::Finished));
    let tick = manager.tick(stopped, &mut meters);

    assert_eq!(tick.state, TaskState::Downloading);
    assert!(tick.downloaded.is_none());

    // Runner should be released, and its streams handed back
    assert!(manager.get_runner_state(runner_id).is_none());
    assert_eq!(tick.released.lifecycle, Some("lifecycle"));
    assert_eq!(tick.released.data, Some("data"));
    // Data aggregator should not contain the runner
    assert!(!manager.data_aggregator.contains(runner_id));
}

#[test]
fn test_new_arch_data_aggregator_receives_data() {
    let mut manager = manager(1000, 2);
    let runner_id = 0;

    // Allocate runner
    let _ = manager.allocate_runner_with_chunk(0..500).unwrap();
    manager.register_data(runner_id, "data");

    // Tick to process data
    let mut meters = HashMap::new();
    let tick = manager.tick(data(runner_id, vec![1; 100]), &mut meters);

    assert_eq!(tick.state, TaskState::Downloading);
    let chunk = tick.downloaded.expect("should have downloaded chunk");
    assert_eq!(chunk.range, 0..100);
    assert_eq!(chunk.bytes.len(), 100);
    assert_eq!(meters.get(&0), Some(&100));

    // The next frame follows the first
    let next = manager.tick(data(runner_id, vec![2; 50]), &mut meters).downloaded.unwrap();
    assert_eq!(next.range, 100..150);
    assert_eq!(meters.get(&0), Some(&150));
}

#[test]
fn a_whole_download_ends_finished() {
    let mut manager = manager(300, 2);
    let mut meters = HashMap::new();
    for range in [0..100, 100..300] {
        manager.allocate_pending_runner_with_chunk(range).unwrap();
    }
    for (id, range) in [(0, 0..100), (1, 100..300)] {
        let output = RunnerBuilderOutput { data_rx: "data", lifecycle_rx: "lifecycle" };
        let settled = PendingRunnerContext::new(id, range).settle(Some(Ok(output)));
        manager.tick(ManagerEvent::Pending(Some(settled)), &mut meters);
        manager.tick(lifecycle(id, LifecycleEvent::Started), &mut meters);
    }
    manager.tick(data(0, vec![1; 100]), &mut meters);
    let first = manager.tick(lifecycle(0, LifecycleEvent::finished()), &mut meters);
    assert_eq!(first.state, TaskState::Downloading);
    manager.tick(data(1, vec![2; 200]), &mut meters);
    assert_eq!(manager.get_total_downloaded(), 300);
    assert_eq!(manager.get_downloaded_ranges(), vec![0..300]);
    assert!(manager.get_available_ranges().is_empty());
    let last = manager.tick(lifecycle(1, LifecycleEvent::finished()), &mut meters);
    assert_eq!(last.state, TaskState::Finished);
    assert!(manager.is_empty());
    assert!(meters.is_empty());
}

#[test]
fn a_lost_runner_leaves_its_range_available() {
    let mut manager = manager(300, 2);
    let mut meters = HashMap::new();
    manager.allocate_runner_with_chunk(0..300).unwrap();
    manager.register_lifecycle(0, "lifecycle");
    manager.register_data(0, "data");
    manager.tick(data(0, vec![1; 100]), &mut meters);
    let lost = ManagerEvent::Lifecycle(Some(LifecycleStreamEvent::Closed(0)));
    let tick = manager.tick(lost, &mut meters);
    assert_eq!(tick.state, TaskState::Downloading);
    assert_eq!(manager.get_available_ranges(), vec![100..300]);
    assert_eq!(manager.runner_outcome_sampler_mut().stats().stream_closed_retryable, 1);
}

#[test]
fn a_failed_runner_counts_by_its_error() {
    let mut manager = manager(300, 2);
    let mut meters = HashMap::new();
    manager.allocate_runner_with_chunk(0..300).unwrap();
    let failed = LifecycleEvent::failed(TaskError::StreamError {
        source: AdapterError::Unretryable { source: UnretryableError::NotFound },
    });
    manager.tick(lifecycle(0, failed), &mut meters);
    assert_eq!(manager.runner_outcome_sampler_mut().stats().stream_closed_unretryable, 1);
}

#[test]
fn a_resized_runner_is_told() {
    let mut manager = manager(1000, 2);
    let reg = manager.allocate_runner_with_chunk(0..500).unwrap();
    manager.update_progress(reg.runner_id, 100).unwrap();
    manager.resize_runner(reg.runner_id, 200).unwrap();
    assert_eq!(manager.get_runner_state(reg.runner_id).unwrap().allocated, 0..300);
    assert!(matches!(reg.control_rx.try_recv(), Ok(ControlEvent::LimitTotal(300))));
}

#[test]
fn an_unknown_runner_is_refused() {
    let mut manager = manager(1000, 2);
    assert_eq!(manager.mark_finished(5), Err(Error::RunnerNotFound(5)));
    assert!(manager.update_progress(5, 1).is_err());
    assert!(Error::RunnerNotFound(5).message().contains("5"));
}

#[test]
fn test_lifecycle_aggregator_basic() {
    let mut aggregator = LifecycleAggregator::new();
    let runner_id = 1;

    aggregator.add(runner_id, "receiver");
    assert_eq!(aggregator.len(), 1);
    assert!(!aggregator.is_empty());

    // Poll for the event
    let sent = RunnerTaggedStream::new(runner_id)
        .poll_next(Polled::Ready(Some(LifecycleEvent::Started)));
    match aggregator.poll_next(sent) {
        Polled::Ready(Some(LifecycleStreamEvent::Event(RunnerTaggedStreamItem {
            runner_id: id,
            item: LifecycleEvent::Started,
        }))) => assert_eq!(id, runner_id),
        other => panic!("unexpected {:?}", other),
    }
}

#[test]
fn test_lifecycle_aggregator_multiple_runners() {
    let mut aggregator = LifecycleAggregator::new();
    aggregator.add(1, "first");
    aggregator.add(2, "second");
    assert_eq!(aggregator.len(), 2);

    let mut runner_ids = Vec::new();
    for id in [1, 2] {
        let sent = RunnerTaggedStream::new(id)
            .poll_next(Polled::Ready(Some(LifecycleEvent::Started)));
        if let Polled::Ready(Some(LifecycleStreamEvent::Event(tagged))) = aggregator.poll_next(sent)
        {
            runner_ids.push(tagged.runner_id);
        }
    }
    assert!(runner_ids.contains(&1));
    assert!(runner_ids.contains(&2));
}

#[test]
fn test_lifecycle_aggregator_remove() {
    let mut aggregator = LifecycleAggregator::new();

    aggregator.add(1, "receiver");
    assert_eq!(aggregator.len(), 1);

    // The receiver comes back, to be dropped
    assert_eq!(aggregator.remove(1), Some("receiver"));
    assert_eq!(aggregator.len(), 0);
    assert!(aggregator.is_empty());
    assert_eq!(aggregator.remove(1), None);
}

#[test]
fn test_lifecycle_aggregator_add_wakes_pending_poller() {
    let mut aggregator = LifecycleAggregator::new();

    assert!(matches!(aggregator.poll_next(Polled::Ready(None)), Polled::Pending));

    assert!(aggregator.add(1, "receiver"));
    assert!(!aggregator.add(2, "receiver"));
}

#[test]
fn test_lifecycle_aggregator_closed_empty_returns_none() {
    let mut aggregator = LifecycleAggregator::<&str>::new();

    aggregator.close();

    assert!(matches!(aggregator.poll_next(Polled::Ready(None)), Polled::Ready(None)));
    aggregator.reopen();
    assert!(!aggregator.is_closed());
    assert!(matches!(aggregator.poll_next(Polled::Ready(None)), Polled::Pending));
}

#[test]
fn a_tagged_stream_tells_its_end_once() {
    let mut stream = RunnerTaggedStream::new(4);
    assert!(matches!(
        stream.poll_next(Polled::Ready(Some(1u8))),
        Polled::Ready(Some(RunnerStreamEvent::Item(RunnerTaggedStreamItem {
            runner_id: 4,
            item: 1,
        })))
    ));
    assert!(matches!(stream.poll_next(Polled::<u8>::Pending), Polled::Pending));
    assert!(matches!(
        stream.poll_next(Polled::<u8>::Ready(None)),
        Polled::Ready(Some(RunnerStreamEvent::Closed(4)))
    ));
    assert!(matches!(stream.poll_next(Polled::Ready(Some(2u8))), Polled::Ready(None)));
}

#[test]
fn a_data_aggregator_keeps_its_streams() {
    let mut aggregator = DataAggregator::with_capacity(2);
    assert!(aggregator.is_empty());
    aggregator.register(1, "data");
    assert!(aggregator.contains(1));
    let closed = RunnerStreamEvent::Closed(1);
    assert!(matches!(
        aggregator.poll_next(Polled::Ready(Some(closed))),
        Polled::Ready(Some(DataStreamEvent::Closed(1)))
    ));
    assert_eq!(aggregator.unregister(1), None);
    assert!(!aggregator.contains(1));
}

#[test]
fn notifications_pass_through_until_closed() {
    let mut notification = RunnerNotification::new();
    notification.add(1, "runner");
    notification.add(2, "other");
    assert!(matches!(notification.poll_next(Polled::Ready(Some(5u8))), Polled::Ready(Some(5))));
    assert_eq!(notification.remove(1), Some("runner"));
    assert!(matches!(notification.poll_next(Polled::<u8>::Ready(None)), Polled::Pending));
    assert!(notification.close());
    assert!(notification.is_closed());
    assert!(matches!(notification.poll_next(Polled::<u8>::Ready(None)), Polled::Ready(None)));
}

#[test]
fn a_pending_group_forgets_what_is_settled() {
    let mut group = PendingRunnerGroup::new();
    assert!(group.is_empty());
    assert!(matches!(group.poll_next::<&str>(Polled::Ready(None)), Polled::Pending));
    assert!(group.insert(3));
    assert!(!group.is_empty());
    let settled = PendingRunnerContext::new(3, 0..5).settle::<&str>(None);
    assert!(matches!(settled.result, Err(PendingRunnerError::ReceiverClosed)));
    match group.poll_next(Polled::Ready(Some(settled))) {
        Polled::Ready(Some(output)) => assert_eq!(output.context.runner_id, 3),
        other => panic!("unexpected {:?}", other),
    }
    assert!(group.is_empty());
}

#[test]
fn pending_errors_know_whether_to_retry() {
    assert_eq!(PendingRunnerError::ReceiverClosed.failure_kind(), FailureKind::Retryable);
    let refused = PendingRunnerError::Connection {
        source: ConnectionError {
            source: AdapterError::Unretryable { source: UnretryableError::NotFound },
        },
    };
    assert_eq!(refused.failure_kind(), FailureKind::Unretryable);
    let unspawned = PendingRunnerError::Spawn { message: String::from("shut down") };
    assert!(unspawned.message().contains("shut down"));
}

#[test]
fn any_stop_that_completes_the_plan_ends_the_task() {
    let stops = vec![
        LifecycleEvent::finished(),
        LifecycleEvent::failed(TaskError::ExceededTotalSize),
        // All bytes came before the failure
        LifecycleEvent::failed(TaskError::Timeout),
    ];
    for stop in stops {
        let mut manager = manager(100, 2);
        let mut meters = HashMap::new();
        manager.allocate_runner_with_chunk(0..100).unwrap();
        manager.tick_at(data(0, vec![1; 100]), &mut meters, 1);
        let tick = manager.tick_at(lifecycle(0, stop), &mut meters, 2);
        assert_eq!(tick.state, TaskState::Finished);
        assert!(meters.is_empty());
        assert!(manager.is_empty());
    }

    // The loss of a runner does not, even where all was delivered
    let mut lost = manager(100, 2);
    let mut meters = HashMap::new();
    lost.allocate_runner_with_chunk(0..100).unwrap();
    lost.tick_at(data(0, vec![1; 100]), &mut meters, 1);
    let closed = ManagerEvent::Lifecycle(Some(LifecycleStreamEvent::Closed(0)));
    assert_eq!(lost.tick_at(closed, &mut meters, 2).state, TaskState::Downloading);
    assert!(lost.chunk_planner.is_complete());

    // A stop that leaves something to do does not
    let mut open = manager(100, 2);
    open.allocate_runner_with_chunk(0..50).unwrap();
    open.tick_at(data(0, vec![1; 50]), &mut meters, 1);
    let tick = open.tick_at(lifecycle(0, LifecycleEvent::finished()), &mut meters, 2);
    assert_eq!(tick.state, TaskState::Downloading);
}

#[test]
fn a_new_manager_has_nothing_planned() {
    let manager = manager(100, 2);
    assert_eq!(manager.get_available_ranges(), vec![0..100]);
    assert!(manager.chunk_planner.max_chunk_count.is_none());
    assert_eq!(manager.chunk_planner.min_chunk_size, DEFAULT_MIN_CHUNK_SIZE);
    assert_eq!(manager.runner_outcome_sampler.time_window, Duration::from_secs(60));
    assert_eq!(manager.runner_outcome_sampler.max_records, 100);
    assert!(manager.runner_outcome_sampler.is_empty());
    assert!(manager.pending_runners.is_empty());
    assert!(manager.lifecycle_aggregator.is_empty());
}

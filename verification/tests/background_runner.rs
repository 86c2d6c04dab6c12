use bolt_load::concurrent::{ConcurrentTaskInner, SpawnRunner};
use bolt_load::control_channel::TaskRunnerGuard;
use bolt_load::pending::PendingRunnerError;
use bolt_load::runner::{ControlEvent, EventLoopStep, RunnerAction, TaskRunner};
use bolt_load::runner_builder::{ConnectionError, RunnerConnectorError, TaskRunnerBuilderError};
use bolt_load::runner_error::{LifecycleEvent, StoppedReason, TaskError};
use bolt_load::simple_adapter::{calculate_blake3, SimpleTestAdapter};
use bytes::Bytes;
use std::ops::Range;

fn collect(stream: Vec<Bytes>) -> Vec<u8> {
    let mut data = Vec::new();
    for piece in stream {
        data.extend_from_slice(&piece);
    }
    data
}

/// What a runner for the range downloads of the adapter: whether it finished, how it
/// failed, and the data. A cancellation comes before anything else.
fn run_range(
    adapter: &mut SimpleTestAdapter,
    runner_id: usize,
    range: Range<u64>,
    limit: Option<u64>,
    cancelled: bool,
) -> Result<(bool, Option<TaskError>, Vec<u8>), RunnerConnectorError> {
    let (control_tx, control_rx) = TaskRunnerGuard::create_control_channel();
    let guard = TaskRunnerGuard::new(runner_id, control_tx);
    if let Some(limit) = limit {
        guard.send_message(ControlEvent::LimitTotal(limit)).unwrap();
    }
    let (start, end) = (range.start, range.end);
    let spawn = SpawnRunner { runner_id, control_rx, range };
    let builder = ConcurrentTaskInner::create_background_range_runner(spawn, ());
    let stream = adapter
        .range_stream(start, end)
        .map_err(|source| RunnerConnectorError::Connection { source: ConnectionError { source } })?;
    let built = builder
        .stream(stream)
        .build()
        .map_err(|source| RunnerConnectorError::Build { source })?;
    let mut runner = built.runner;
    assert_eq!(runner.id, runner_id);
    let mut pieces = built.stream.into_iter();
    let mut data = Vec::new();
    let result = loop {
        let event = if cancelled {
            EventLoopStep::Cancelled
        } else if let Ok(message) = built.control_signal.try_recv() {
            EventLoopStep::Control(Ok(message))
        } else {
            EventLoopStep::Download(pieces.next().map(Ok))
        };
        let mut action = runner.step(event);
        while let RunnerAction::Flush(frame) = action {
            data.extend_from_slice(&frame.data);
            action = runner.step(EventLoopStep::PendingComplete(Ok(())));
        }
        if let RunnerAction::Stop(result) = action {
            break result;
        }
    };
    match TaskRunner::report(runner.conclude(result)) {
        LifecycleEvent::Stopped(StoppedReason::Finished) => Ok((true, None, data)),
        LifecycleEvent::Stopped(StoppedReason::Failed(error)) => Ok((false, Some(error), data)),
        LifecycleEvent::Started => unreachable!(),
    }
}

#[test]
fn test_create_background_range_runner_success() {
    let mut adapter = SimpleTestAdapter::new(10240).with_range_support(true);
    let range = 1000u64..3000u64;
    let (finished, failed, downloaded_data) =
        run_range(&mut adapter, 1, range.clone(), None, false).unwrap();

    // Verify the amount of downloaded data
    assert!(finished);
    assert!(failed.is_none());
    assert_eq!(downloaded_data.len(), (range.end - range.start) as usize);

    // Verify data determinism with another adapter on the same content
    let mut reference = SimpleTestAdapter::new(10240).with_range_support(true);
    let reference_data = collect(reference.range_stream(range.start, range.end).unwrap());
    assert_eq!(downloaded_data, reference_data);
}

#[test]
fn test_create_background_range_runner_with_adapter_failure() {
    let mut adapter = SimpleTestAdapter::new(1024).with_failure(true);
    let result = run_range(&mut adapter, 2, 0u64..500u64, None, false);

    // Connection should fail because range_stream fails
    assert!(result.is_err());
    match result {
        Ok(_) => panic!("Expected Connection error, got a runner"),
        Err(RunnerConnectorError::Connection { .. }) => {}
        Err(e) => panic!("Expected Connection error, got: {:?}", e),
    }
}

#[test]
fn test_create_background_range_runner_with_cancellation() {
    let mut adapter = SimpleTestAdapter::new(10240).with_range_support(true);
    let (finished, failed, _) =
        run_range(&mut adapter, 3, 0u64..5000u64, None, true).unwrap();
    assert!(!finished);
    assert!(failed.is_some_and(|e| e.is_cancelled()));
}

#[test]
fn test_create_background_small_range_runner_with_control_messages() {
    let mut adapter = SimpleTestAdapter::new(10240).with_range_support(true);
    let old_total = 10240u64;
    let new_total = 1000u64;
    let (finished, failed, downloaded_data) =
        run_range(&mut adapter, 4, 0u64..old_total, Some(new_total), false).unwrap();

    // Verify that downloaded amount is the adjusted size
    let total_downloaded = downloaded_data.len();
    assert!(finished);
    assert!(failed.is_none());
    assert!(total_downloaded >= new_total as usize);
    assert_eq!(total_downloaded, new_total as usize);
}

#[test]
fn test_create_background_range_runner_edge_ranges() {
    let content_size = 1000;
    let mut adapter = SimpleTestAdapter::new(content_size).with_range_support(true);

    // Test boundary range: up to the end of the file
    let range = 900u64..1000u64;
    let (finished, failed, downloaded_data) =
        run_range(&mut adapter, 5, range.clone(), None, false).unwrap();
    assert!(finished);
    assert!(failed.is_none());
    assert_eq!(downloaded_data.len(), (range.end - range.start) as usize);
}

#[test]
fn test_create_background_range_runner_zero_length_range() {
    let mut adapter = SimpleTestAdapter::new(1000).with_range_support(true);

    // Test zero-length range
    let (finished, failed, downloaded_data) =
        run_range(&mut adapter, 6, 500u64..500u64, None, false).unwrap();
    assert!(finished);
    assert!(failed.is_none());
    assert!(downloaded_data.is_empty());
}

#[test]
fn test_create_background_range_runner_multiple_runners() {
    let mut adapter = SimpleTestAdapter::new(4000).with_range_support(true);
    let ranges = vec![
        (1, 0u64..1000u64),
        (2, 1000u64..2000u64),
        (3, 2000u64..3000u64),
        (4, 3000u64..4000u64),
    ];
    for (runner_id, range) in ranges {
        let expected_size = range.end - range.start;
        let (finished, failed, downloaded_data) =
            run_range(&mut adapter, runner_id, range, None, false).unwrap();
        assert!(finished);
        assert!(failed.is_none());
        assert_eq!(downloaded_data.len(), expected_size as usize);
    }
}

#[test]
fn test_create_background_range_runner_hash_verification() {
    let mut adapter = SimpleTestAdapter::new(5000).with_range_support(true);
    let range = 1500u64..3500u64;
    let (finished, failed, downloaded_data) =
        run_range(&mut adapter, 7, range.clone(), None, false).unwrap();
    assert!(finished);
    assert!(failed.is_none());

    // Another adapter gives the same range for comparison
    let mut reference = SimpleTestAdapter::new(5000).with_range_support(true);
    let reference_data = collect(reference.range_stream(range.start, range.end).unwrap());

    // Verify data integrity
    assert_eq!(downloaded_data.len(), (range.end - range.start) as usize);
    assert_eq!(downloaded_data, reference_data);

    // Calculate and compare hash
    let downloaded_hash = calculate_blake3(&downloaded_data);
    let reference_hash = calculate_blake3(&reference_data);
    assert_eq!(downloaded_hash, reference_hash);
}

#[test]
fn an_unconnected_runner_is_reported() {
    let unbuilt = RunnerConnectorError::Build { source: TaskRunnerBuilderError::StreamNotSet };
    match PendingRunnerError::from_connector_error(unbuilt) {
        PendingRunnerError::Spawn { message } => assert_eq!(message, "stream is not set"),
        other => panic!("unexpected {:?}", other),
    }
}

use bolt_load::adapter::{AdapterError, IoError, IoErrorKind, UnretryableError};
use bolt_load::runner::{
    ChannelClosed, ControlEvent, DataDrainOutcome, EventLoopStep, RunnerAction, TaskRunner,
    BUFFER_SIZE, DATA_FRAME_CHANNEL_CAPACITY,
};
use bolt_load::runner::DataFrame;
use bolt_load::runner_builder::{
    ConnectionError, RunnerConnectorError, TaskRunnerBuilder, TaskRunnerBuilderError,
};
use bolt_load::runner_error::{LifecycleEvent, StoppedReason, TaskError, TaskRunError};
use bolt_load::runner_flush::{FlushBuffFuture, FlushPoll};
use bytes::Bytes;

fn patterned_frame(len: usize) -> Bytes {
    Bytes::from((0..len).map(|idx| (idx % 251) as u8).collect::<Vec<_>>())
}

fn stream_io_error(message: &str) -> AdapterError {
    AdapterError::Unretryable {
        source: UnretryableError::Io {
            source: IoError { kind: IoErrorKind::Other, message: String::from(message) },
        },
    }
}

/// Feed one event, and push each frame that comes of it into the output at once.
fn feed(
    runner: &mut TaskRunner,
    event: EventLoopStep,
    received: &mut Vec<u8>,
) -> Option<Result<(), TaskRunError>> {
    let mut action = runner.step(event);
    loop {
        match action {
            RunnerAction::Wait | RunnerAction::ResetTimer => return None,
            RunnerAction::Stop(result) => return Some(result),
            RunnerAction::Flush(frame) => {
                assert!(frame.data.len() <= BUFFER_SIZE);
                received.extend_from_slice(&frame.data);
                action = runner.step(EventLoopStep::PendingComplete(Ok(())));
            }
        }
    }
}

/// What the runner reports of a whole stream, with the data that it hands over.
fn run_runner_and_collect(
    stream: Vec<Result<Bytes, AdapterError>>,
    total: Option<u64>,
) -> (Vec<u8>, bool, Option<TaskError>) {
    let mut runner = TaskRunner::new(1, total);
    let mut received = Vec::new();
    let mut events = stream.into_iter();
    let result = loop {
        let stopped = feed(&mut runner, EventLoopStep::Download(events.next()), &mut received);
        if let Some(result) = stopped {
            break result;
        }
    };
    let concluded = runner.conclude(result);
    match TaskRunner::report(concluded) {
        LifecycleEvent::Stopped(StoppedReason::Finished) => (received, true, None),
        LifecycleEvent::Stopped(StoppedReason::Failed(error)) => (received, false, Some(error)),
        LifecycleEvent::Started => unreachable!(),
    }
}

#[test]
fn test_drain_zero_timeout_empty_channel_returns_drained() {
    // Nothing is left in the channel, so nothing has to be waited for
    assert!(TaskRunner::after_drain(Ok(()), DataDrainOutcome::Drained).is_ok());
    assert!(TaskRunner::should_wait_data_drain(&Ok(())));
    let runner = TaskRunner::new(1, None);
    assert_eq!(runner.drained_already(false, true), Some(DataDrainOutcome::Drained));
    assert_eq!(runner.drained_already(true, true), Some(DataDrainOutcome::Cancelled));
    assert_eq!(runner.drained_already(false, false), None);
}

#[test]
fn test_normal_download() {
    let stream = (0..3).map(|i| Ok(Bytes::from(vec![i as u8; 10]))).collect();
    let (received, finished, failed) = run_runner_and_collect(stream, Some(30));
    assert!(finished);
    assert!(failed.is_none());
    assert_eq!(received.len(), 30);
}

#[test]
fn test_single_large_frame_known_total_preserves_all_bytes() {
    let frame = patterned_frame(BUFFER_SIZE * 3 + 123);
    let expected = frame.to_vec();
    let total = Some(expected.len() as u64);
    let (received, finished, failed) = run_runner_and_collect(vec![Ok(frame)], total);

    assert!(finished);
    assert!(failed.is_none());
    assert_eq!(received, expected);
}

#[test]
fn test_single_large_frame_unknown_total_preserves_all_bytes() {
    let frame = patterned_frame(BUFFER_SIZE * 3 + 123);
    let expected = frame.to_vec();
    let (received, finished, failed) = run_runner_and_collect(vec![Ok(frame)], None);

    assert!(finished);
    assert!(failed.is_none());
    assert_eq!(received, expected);
}

#[test]
fn test_single_frame_exactly_two_buffers_preserves_all_bytes() {
    let frame = patterned_frame(BUFFER_SIZE * 2);
    let expected = frame.to_vec();
    let total = Some(expected.len() as u64);
    let (received, finished, failed) = run_runner_and_collect(vec![Ok(frame)], total);

    assert!(finished);
    assert!(failed.is_none());
    assert_eq!(received, expected);
}

#[test]
fn test_pending_flush_survives_control_error() {
    let frame_count = DATA_FRAME_CHANNEL_CAPACITY + 4;
    let total = (frame_count * BUFFER_SIZE) as u64;
    let mut runner = TaskRunner::new(1, Some(total));
    let mut received = Vec::new();
    for i in 0..DATA_FRAME_CHANNEL_CAPACITY {
        let item = Bytes::from(vec![i as u8; BUFFER_SIZE]);
        assert!(feed(&mut runner, EventLoopStep::Download(Some(Ok(item))), &mut received).is_none());
    }

    // One more frame is on its way when the limit is raised
    let pending = loop {
        let item = Bytes::from(vec![7u8; BUFFER_SIZE]);
        if let RunnerAction::Flush(frame) = runner.step(EventLoopStep::Download(Some(Ok(item)))) {
            break frame;
        }
    };
    let raised = EventLoopStep::Control(Ok(ControlEvent::LimitTotal(total + BUFFER_SIZE as u64)));
    assert!(matches!(runner.step(raised), RunnerAction::Wait));
    received.extend_from_slice(&pending.data);
    match runner.step(EventLoopStep::PendingComplete(Ok(()))) {
        RunnerAction::Stop(result) => {
            assert!(matches!(
                TaskRunner::report(runner.conclude(result)),
                LifecycleEvent::Stopped(StoppedReason::Failed(TaskError::ExceededTotalSize))
            ));
        }
        other => panic!("unexpected {:?}", other),
    }
    assert!(received.len() >= DATA_FRAME_CHANNEL_CAPACITY * BUFFER_SIZE);
}

#[test]
fn test_control_drop_during_pending_flush_no_livelock() {
    let frame = patterned_frame((DATA_FRAME_CHANNEL_CAPACITY + 2) * BUFFER_SIZE);
    let mut runner = TaskRunner::new(1, None);
    let mut received: usize = 0;
    let mut action = runner.step(EventLoopStep::Download(Some(Ok(frame))));
    for _ in 0..DATA_FRAME_CHANNEL_CAPACITY {
        match action {
            RunnerAction::Flush(frame) => received += frame.data.len(),
            other => panic!("unexpected {:?}", other),
        }
        action = runner.step(EventLoopStep::PendingComplete(Ok(())));
    }

    // The next frame waits for room when the control channel goes away
    match action {
        RunnerAction::Flush(frame) => received += frame.data.len(),
        other => panic!("unexpected {:?}", other),
    }
    assert!(matches!(
        runner.step(EventLoopStep::Control(Err(ChannelClosed))),
        RunnerAction::Wait
    ));
    assert!(runner.control_channel_closed);
    assert!(matches!(
        runner.step(EventLoopStep::PendingComplete(Ok(()))),
        RunnerAction::Stop(Err(TaskRunError::Failed(TaskError::ChannelClosed)))
    ));
    assert!(received > DATA_FRAME_CHANNEL_CAPACITY * BUFFER_SIZE);
}

#[test]
fn test_cancel_download() {
    let mut runner = TaskRunner::new(1, None);
    let mut received = Vec::new();
    let item = Bytes::from(vec![1; 10]);
    assert!(feed(&mut runner, EventLoopStep::Download(Some(Ok(item))), &mut received).is_none());
    match feed(&mut runner, EventLoopStep::Cancelled, &mut received) {
        Some(result) => assert!(TaskRunner::report(runner.conclude(result)).is_cancelled()),
        None => panic!("the runner went on"),
    }
}

#[test]
fn test_network_error() {
    let stream = vec![Ok(Bytes::from(vec![1; 10])), Err(stream_io_error("Network error"))];
    let (received, finished, failed) = run_runner_and_collect(stream, Some(20));

    assert!(!finished);
    assert_eq!(received, vec![1; 10]);
    assert!(matches!(failed, Some(err) if err.is_stream_error()));
}

#[test]
fn test_stream_error_after_data_flush_waits_drain() {
    let mut runner = TaskRunner::new(1, None);
    let item = Bytes::from_static(b"abc");
    assert!(matches!(
        runner.step(EventLoopStep::Download(Some(Ok(item)))),
        RunnerAction::Wait
    ));
    let failed = runner.step(EventLoopStep::Download(Some(Err(stream_io_error("Network error")))));
    match failed {
        RunnerAction::Flush(frame) => assert_eq!(frame.data, Bytes::from_static(b"abc")),
        other => panic!("unexpected {:?}", other),
    }
    match runner.step(EventLoopStep::PendingComplete(Ok(()))) {
        RunnerAction::Stop(result) => {
            // The failure is reported only after the flushed data was drained
            assert!(TaskRunner::should_wait_data_drain(&result));
            match TaskRunner::after_drain(result, DataDrainOutcome::Drained) {
                Err(TaskRunError::Failed(error)) => assert!(error.is_stream_error()),
                other => panic!("unexpected {:?}", other),
            }
        }
        other => panic!("unexpected {:?}", other),
    }
}

#[test]
fn test_empty_frames_mid_stream_are_skipped() {
    let stream = vec![
        Ok(Bytes::new()),
        Ok(Bytes::from_static(b"abc")),
        Ok(Bytes::new()),
        Ok(Bytes::from_static(b"def")),
    ];
    let (received, finished, failed) = run_runner_and_collect(stream, None);

    assert!(finished);
    assert!(failed.is_none());
    assert_eq!(received, b"abcdef");
}

#[test]
fn test_empty_stream() {
    let (received, finished, failed) = run_runner_and_collect(vec![Ok(Bytes::from(vec![]))], None);
    assert!(received.is_empty());
    assert!(!finished);
    assert!(matches!(failed, Some(err) if err.is_empty()));
}

#[test]
fn test_resize_total_larger() {
    let expected_total = (BUFFER_SIZE as f64 * 5.5) as u64;
    let mut runner = TaskRunner::new(1, Some(3 * BUFFER_SIZE as u64));
    let mut received = Vec::new();
    let item = Bytes::from(vec![1; BUFFER_SIZE]);
    assert!(feed(&mut runner, EventLoopStep::Download(Some(Ok(item))), &mut received).is_none());
    let resize = EventLoopStep::Control(Ok(ControlEvent::LimitTotal(expected_total)));
    assert!(matches!(
        feed(&mut runner, resize, &mut received),
        Some(Err(TaskRunError::Failed(TaskError::ExceededTotalSize)))
    ));
}

#[test]
fn test_resize_total_smaller() {
    let expected_total = (BUFFER_SIZE as f64 * 4.5) as u64;
    let mut runner = TaskRunner::new(1, Some(6 * BUFFER_SIZE as u64));
    let mut received = Vec::new();
    let mut stopped = None;
    for i in 1..=6u8 {
        if i == 3 {
            let resize = EventLoopStep::Control(Ok(ControlEvent::LimitTotal(expected_total)));
            assert!(feed(&mut runner, resize, &mut received).is_none());
        }
        let item = Bytes::from(vec![i; BUFFER_SIZE]);
        stopped = feed(&mut runner, EventLoopStep::Download(Some(Ok(item))), &mut received);
        if stopped.is_some() {
            break;
        }
    }
    assert!(runner.conclude(stopped.unwrap()).is_ok());
    // Should have downloaded exactly 4.5 chunks
    assert_eq!(received.len(), expected_total as usize);
}

#[test]
fn test_resize_total_smaller_with_small_chunks() {
    let mut runner = TaskRunner::new(1, Some(1000));
    let mut received = Vec::new();
    let mut stopped = None;
    for i in 0..20u8 {
        if i == 7 {
            let resize = EventLoopStep::Control(Ok(ControlEvent::LimitTotal(200)));
            assert!(feed(&mut runner, resize, &mut received).is_none());
        }
        let item = Bytes::from(vec![i; 50]);
        stopped = feed(&mut runner, EventLoopStep::Download(Some(Ok(item))), &mut received);
        if stopped.is_some() {
            break;
        }
    }
    assert!(stopped.is_some());
    let min_expected = 100; // At least 2 chunks should be downloaded
    let max_expected = 800; // Should not download most of the stream
    assert!(received.len() >= min_expected);
    assert!(received.len() <= max_expected);
}

#[test]
fn test_size_mismatch() {
    let stream = vec![Ok(Bytes::from(vec![1; 10])), Ok(Bytes::from(vec![2; 10]))];
    let (received, finished, failed) = run_runner_and_collect(stream, Some(10));
    assert!(finished);
    assert!(failed.is_none());
    // Should have downloaded exactly 10 bytes (truncated the excess)
    assert_eq!(received.len(), 10);
}

#[test]
fn too_short_a_stream_is_reported() {
    let stream = vec![Ok(Bytes::from(vec![1; 10]))];
    let (received, finished, failed) = run_runner_and_collect(stream, Some(20));
    assert_eq!(received.len(), 10);
    assert!(!finished);
    assert!(matches!(failed, Some(TaskError::SmallerThanTotalSize)));
}

#[test]
fn test_channel_closed() {
    let mut runner = TaskRunner::new(1, None);
    let mut received = Vec::new();
    let item = Bytes::from(vec![1; 10]);
    assert!(feed(&mut runner, EventLoopStep::Download(Some(Ok(item))), &mut received).is_none());
    let closed = EventLoopStep::Control(Err(ChannelClosed));
    assert!(matches!(
        feed(&mut runner, closed, &mut received),
        Some(Err(TaskRunError::Failed(TaskError::ChannelClosed)))
    ));
}

#[test]
fn a_frame_that_cannot_be_handed_over_stops_the_runner() {
    let mut runner = TaskRunner::new(1, Some(4));
    let item = Bytes::from_static(b"four");
    assert!(matches!(
        runner.step(EventLoopStep::Download(Some(Ok(item)))),
        RunnerAction::Flush(_)
    ));
    assert!(matches!(
        runner.step(EventLoopStep::PendingComplete(Err(ChannelClosed))),
        RunnerAction::Stop(Err(TaskRunError::Failed(TaskError::ChannelClosed)))
    ));
}

#[test]
fn test_new_with_async_and_callback_success() {
    let stream = vec![Ok(Bytes::from(vec![1; 10])), Ok(Bytes::from(vec![2; 10]))];
    let built = TaskRunnerBuilder::new()
        .total(20)
        .stream(stream)
        .runner_id(42)
        .control_signal(())
        .cancel_token(())
        .build()
        .unwrap();
    assert_eq!(built.runner.id, 42);
    assert_eq!(built.runner.total, Some(20));
    let (received, finished, failed) = run_runner_and_collect(built.stream, built.runner.total);
    assert!(finished);
    assert!(failed.is_none());
    assert_eq!(received.len(), 20);
}

#[test]
fn test_new_with_async_and_callback_stream_failure() {
    let stream = vec![Err(stream_io_error("Mock network error"))];
    let (received, finished, failed) = run_runner_and_collect(stream, Some(20));
    assert!(received.is_empty());
    assert!(!finished);
    assert!(matches!(failed, Some(err) if err.is_stream_error()));
}

#[test]
fn test_multiple_runners_with_independent_channels() {
    let mut runners = vec![
        TaskRunner::new(1, Some(6 * BUFFER_SIZE as u64)),
        TaskRunner::new(2, Some(6 * BUFFER_SIZE as u64)),
        TaskRunner::new(3, Some(6 * BUFFER_SIZE as u64)),
    ];
    let mut received = vec![Vec::new(), Vec::new(), Vec::new()];
    let mut finished = vec![false, false, false];
    for i in 0..6u8 {
        for k in 0..3 {
            // The limit goes to the second runner only
            if k == 1 && i == 1 {
                let limit = ControlEvent::LimitTotal(3 * BUFFER_SIZE as u64);
                let told = EventLoopStep::Control(Ok(limit));
                assert!(feed(&mut runners[k], told, &mut received[k]).is_none());
            }
            if finished[k] {
                continue;
            }
            let item = Bytes::from(vec![i; BUFFER_SIZE]);
            let event = EventLoopStep::Download(Some(Ok(item)));
            if let Some(result) = feed(&mut runners[k], event, &mut received[k]) {
                assert!(runners[k].conclude(result).is_ok());
                finished[k] = true;
            }
        }
    }
    assert_eq!(finished, vec![true, true, true]);
    assert_eq!(received[0].len(), 6 * BUFFER_SIZE);
    assert_eq!(received[2].len(), 6 * BUFFER_SIZE);

    // The second runner should have been limited to 3 chunks
    assert_eq!(received[1].len(), 3 * BUFFER_SIZE);
}

#[test]
fn a_builder_names_what_is_missing() {
    let empty = TaskRunnerBuilder::<u8, u8, u8>::new();
    assert_eq!(empty.build().unwrap_err(), TaskRunnerBuilderError::RunnerIdNotSet);
    let streaming = TaskRunnerBuilder::<u8, u8, u8>::new().runner_id(1);
    assert_eq!(streaming.build().unwrap_err(), TaskRunnerBuilderError::StreamNotSet);
    let numbered = TaskRunnerBuilder::<u8, u8, u8>::new().stream(1).runner_id(1);
    assert_eq!(numbered.build().unwrap_err(), TaskRunnerBuilderError::ControlSignalNotSet);
    let controlled = TaskRunnerBuilder::<u8, u8, u8>::new().stream(1).runner_id(1).control_signal(2);
    assert_eq!(controlled.build().unwrap_err(), TaskRunnerBuilderError::CancelTokenNotSet);
}

#[test]
fn a_builder_waits_five_seconds_for_its_data() {
    let built = TaskRunnerBuilder::<u8, u8, u8>::new()
        .with_optional_total(None)
        .runner_id(1)
        .control_signal(2)
        .cancel_token(3)
        .build_inner(Some(9))
        .unwrap();
    assert_eq!(built.stream, 9);
    assert_eq!(built.runner.total, None);
    assert_eq!(built.data_drain_timeout_ms, 5000);
}

#[test]
fn connection_errors_keep_whether_they_may_be_retried() {
    let lost = ConnectionError { source: stream_io_error("gone") };
    assert!(!lost.is_retryable());
    assert!(lost.message().contains("gone"));
    let unbuilt = RunnerConnectorError::Build { source: TaskRunnerBuilderError::StreamNotSet };
    assert!(!unbuilt.is_retryable());
}

fn frame(data: &'static [u8]) -> DataFrame {
    DataFrame { data: Bytes::from_static(data) }
}

#[test]
fn waits_for_backpressure_when_data_channel_is_full() {
    let mut flush = FlushBuffFuture::new(frame(b"pending"));
    let tried = match flush.poll(false) {
        FlushPoll::TryPush(tried) => tried,
        other => panic!("unexpected {:?}", other),
    };
    assert!(flush.pushed(Err(tried)).is_none());
    assert!(!flush.is_terminated());

    // Room has appeared
    match flush.poll(false) {
        FlushPoll::TryPush(tried) => assert_eq!(&tried.data[..], b"pending"),
        other => panic!("unexpected {:?}", other),
    }
    assert_eq!(flush.pushed(Ok(())), Some(Ok(())));
    assert!(flush.is_terminated());
}

#[test]
fn returns_channel_closed_when_receiver_closes_during_push() {
    let mut flush = FlushBuffFuture::new(frame(b"pending"));
    let tried = match flush.poll(false) {
        FlushPoll::TryPush(tried) => tried,
        other => panic!("unexpected {:?}", other),
    };
    assert!(flush.pushed(Err(tried)).is_none());
    assert!(matches!(flush.poll(true), FlushPoll::Ready(Err(ChannelClosed))));
    assert!(flush.is_terminated());
}

#[test]
fn a_flush_that_nobody_waits_for_is_refused() {
    let mut runner = TaskRunner::new(1, None);
    match runner.step(EventLoopStep::PendingComplete(Ok(()))) {
        RunnerAction::Stop(Err(TaskRunError::Failed(TaskError::Other { message }))) => {
            assert_eq!(message, "pending flush completed without pending state");
        }
        other => panic!("unexpected {:?}", other),
    }
}

#[test]
fn the_frames_of_a_run_are_the_stream() {
    let content = patterned_frame(3 * BUFFER_SIZE);
    let total = 2 * BUFFER_SIZE as u64 + 100;
    let mut runner = TaskRunner::new(1, Some(3 * BUFFER_SIZE as u64));
    let mut received = Vec::new();
    let item = |from: usize, to: usize| EventLoopStep::Download(Some(Ok(content.slice(from..to))));
    assert!(feed(&mut runner, item(0, 1000), &mut received).is_none());
    assert!(feed(&mut runner, item(1000, BUFFER_SIZE + 7), &mut received).is_none());
    let limit = EventLoopStep::Control(Ok(ControlEvent::LimitTotal(total)));
    assert!(feed(&mut runner, limit, &mut received).is_none());
    let stopped = feed(&mut runner, item(BUFFER_SIZE + 7, 3 * BUFFER_SIZE), &mut received);
    assert!(matches!(stopped, Some(Ok(()))));
    assert_eq!(received[..], content[..total as usize]);
    assert!(runner.conclude(Ok(())).is_ok());

    // A total that is lowered too late is exceeded, and the bytes are in order still
    let mut runner = TaskRunner::new(1, Some(3 * BUFFER_SIZE as u64));
    let mut received = Vec::new();
    assert!(feed(&mut runner, item(0, 1000), &mut received).is_none());
    let limit = EventLoopStep::Control(Ok(ControlEvent::LimitTotal(500)));
    assert!(feed(&mut runner, limit, &mut received).is_none());
    let stopped = feed(&mut runner, item(1000, 2000), &mut received);
    assert!(matches!(stopped, Some(Ok(()))));
    assert_eq!(received[..], content[..1000]);
    assert!(matches!(
        runner.conclude(Ok(())),
        Err(TaskRunError::Failed(TaskError::ExceededTotalSize))
    ));
}

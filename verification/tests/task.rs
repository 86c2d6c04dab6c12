use bolt_load::adapter::{AdapterError, BoltLoadAdapterMeta, IoError, IoErrorKind, UnretryableError};
use bolt_load::runner_error::{LifecycleEvent, StoppedReason, TaskError};
use bolt_load::singleton::SingletonTaskInner;
use bolt_load::task::{
    DownloadMode, Progress, ProgressWithSpeed, TaskEvent, TaskInstanceError, TaskState, TaskStatus,
};
use bolt_load::task_builder::{
    choose_mode, downloading_name, must_ask_for_ranges, partial_name, SavePath, Surroundings,
    TaskBuilder, TaskManagerBuildError,
};
use bolt_load::task_machine::{Event, State, StepOutcome, TaskMachine};
use bytes::Bytes;

fn meta(content_size: u64) -> BoltLoadAdapterMeta {
    BoltLoadAdapterMeta { content_size, filename: Some(String::from("file.bin")) }
}

fn not_found() -> AdapterError {
    AdapterError::Unretryable { source: UnretryableError::NotFound }
}

#[test]
fn a_task_runs_through_its_states() {
    let mut machine = TaskMachine::new();
    assert!(machine.announcement(Progress::default(), Progress::default()).is_none());
    assert!(!machine.next_step());

    assert!(machine.handle(Event::Run));
    assert!(matches!(machine.state, State::Initializing));
    assert!(matches!(
        machine.announcement(Progress::default(), Progress::default()),
        Some(TaskEvent::Initializing)
    ));
    assert!(machine.next_step());
    assert!(!machine.next_step());

    assert!(machine.handle(Event::Step(StepOutcome::Done(Ok(())))));
    assert!(matches!(machine.state, State::Downloading));
    assert!(machine.next_step());

    assert!(machine.handle(Event::Step(StepOutcome::Done(Ok(())))));
    assert!(matches!(machine.state, State::Stopped { reason: Some(Ok(())) }));
    let finished = Progress { downloaded: 9, ..Progress::default() };
    match machine.announcement(Progress::default(), finished) {
        Some(TaskEvent::Finished(progress)) => assert_eq!(progress.downloaded, 9),
        other => panic!("unexpected {:?}", other),
    }
    assert!(!machine.next_step());
}

#[test]
fn a_cancelled_task_stops() {
    let mut machine = TaskMachine::new();
    machine.handle(Event::Run);
    machine.handle(Event::Step(StepOutcome::Cancelled));
    assert!(matches!(
        machine.state,
        State::Stopped { reason: Some(Err(TaskInstanceError::Failed(TaskError::Cancelled))) }
    ));
    assert!(matches!(
        machine.announcement(Progress::default(), Progress::default()),
        Some(TaskEvent::Failed(_))
    ));
    // A step of a stopped task changes nothing
    assert!(!machine.handle(Event::Step(StepOutcome::Done(Ok(())))));
    // It may be run again
    assert!(machine.handle(Event::Run));
    assert!(!machine.handle(Event::Run));
}

#[test]
fn a_single_download_hears_of_its_cancellation_itself() {
    let mut machine = TaskMachine::new();
    machine.handle(Event::Run);
    assert!(machine.watches_cancellation(DownloadMode::Singleton));
    machine.handle(Event::Step(StepOutcome::Done(Ok(()))));
    assert!(!machine.watches_cancellation(DownloadMode::Singleton));
    assert!(machine.watches_cancellation(DownloadMode::Concurrent));
}

#[test]
fn a_status_follows_the_events() {
    let mut status = TaskStatus::new();
    assert!(!status.is_initialized());
    status.spawning();
    assert!(status.is_running());
    status.observe(&TaskEvent::Initializing);
    assert_eq!(status.state, TaskState::Initializing);
    let report = ProgressWithSpeed::new(Progress::default(), 7, 3);
    assert_eq!((report.speed(), report.write_speed()), (7, 3));
    assert_eq!(report.progress().downloaded, 0);
    status.observe(&TaskEvent::Downloading(report));
    assert!(status.is_running());
    assert!(status.result().is_ok());
    let lost = IoError { kind: IoErrorKind::Other, message: String::from("disk full") };
    status.observe(&TaskEvent::Failed(TaskInstanceError::new_write_chunk_failed(lost)));
    assert!(status.is_finished());
    match status.result() {
        Err(TaskInstanceError::WriteChunkFailed(error)) => assert_eq!(error.message, "disk full"),
        other => panic!("unexpected {:?}", other),
    }
    status.observe(&TaskEvent::Finished(Progress::default()));
    assert!(status.is_finished());
    assert!(status.result().is_ok());
}

#[test]
fn modes_follow_the_ranges() {
    assert_eq!(choose_mode(None, true), DownloadMode::Concurrent);
    assert_eq!(choose_mode(None, false), DownloadMode::Singleton);
    assert_eq!(choose_mode(Some(DownloadMode::Concurrent), false), DownloadMode::Singleton);
    assert_eq!(choose_mode(Some(DownloadMode::Singleton), true), DownloadMode::Singleton);
    assert!(!must_ask_for_ranges(Some(DownloadMode::Singleton)));
    assert!(must_ask_for_ranges(None));
    assert_eq!(DownloadMode::default(), DownloadMode::Concurrent);
}

#[test]
fn temporary_names_are_extended() {
    assert_eq!(partial_name("file.bin"), "file.bin.partial");
    assert_eq!(downloading_name("file.bin"), "file.bin.downloading");
}

type Builder = TaskBuilder<u8, u8, u8, u8>;

const FOUND: Surroundings = Surroundings {
    range_stream_available: true,
    parent_is_dir: true,
    target_is_dir: false,
};

fn path() -> SavePath {
    SavePath {
        path: String::from("/tmp/file.bin"),
        file_name: Some(String::from("file.bin")),
        parent: Some(String::from("/tmp")),
    }
}

fn complete() -> Builder {
    let mut builder = Builder::new().adapter(1).cancel_token(2).threaded_runtime(3).save_path(path());
    builder.retrieve_meta(Ok(meta(10))).unwrap();
    builder
}

fn refusal(builder: Builder, found: Surroundings) -> String {
    match builder.build(found) {
        Err(TaskManagerBuildError::FieldValidationFailed(message)) => message,
        other => panic!("unexpected {:?}", other),
    }
}

#[test]
fn a_complete_builder_makes_a_plan() {
    let plan = complete().local_runtime_builder(4).build(FOUND).unwrap();
    assert_eq!(plan.adapter, 1);
    assert_eq!(plan.cancel_token, 2);
    assert_eq!(plan.threaded_rt, 3);
    assert_eq!(plan.local_runtime_builder, Some(4));
    assert_eq!(plan.mode, DownloadMode::Concurrent);
    assert_eq!(plan.tmp_name, "file.bin.partial");
    assert_eq!(plan.meta.content_size, 10);
    let single = complete().prefer_mode(DownloadMode::Singleton).build(FOUND).unwrap();
    assert_eq!(single.mode, DownloadMode::Singleton);
}

#[test]
fn a_builder_says_what_is_missing() {
    assert_eq!(refusal(Builder::new(), FOUND), "cancel token is not set");
    // The adapter is asked for before anything else is looked at
    assert_eq!(refusal(Builder::new().cancel_token(1), FOUND), "adapter is not set");
    let bare = Builder::new().cancel_token(1).threaded_runtime(1);
    assert_eq!(refusal(bare, FOUND), "adapter is not set");
    let mut still = Builder::new().cancel_token(1).adapter(1);
    still.retrieve_meta(Ok(meta(1))).unwrap();
    assert_eq!(refusal(still, FOUND), "runtime is not set");
    let mut homeless = Builder::new().cancel_token(1).threaded_runtime(1).adapter(1);
    assert!(homeless.check_adapter().is_ok());
    homeless.retrieve_meta(Ok(meta(1))).unwrap();
    assert_eq!(refusal(homeless, FOUND), "save path is not set");
    let nameless = SavePath { file_name: None, ..path() };
    assert_eq!(refusal(complete().save_path(nameless), FOUND), "save path must have a filename");
    let orphan = SavePath { parent: None, ..path() };
    assert_eq!(
        refusal(complete().save_path(orphan), FOUND),
        "save path parent directory does not exist"
    );
    assert_eq!(
        refusal(complete(), Surroundings { parent_is_dir: false, ..FOUND }),
        "save path parent directory does not exist or is not a directory"
    );
    assert_eq!(
        refusal(complete(), Surroundings { target_is_dir: true, ..FOUND }),
        "save path already exists as a directory"
    );
}

#[test]
fn a_file_may_be_named_by_the_server() {
    let mut builder = Builder::new().adapter(1).save_dir(String::from("/downloads"));
    assert_eq!(builder.suggested_path(), None);
    builder.retrieve_meta(Ok(meta(10))).unwrap();
    assert_eq!(
        builder.suggested_path(),
        Some((String::from("/downloads"), String::from("file.bin")))
    );
    builder.take_suggestion(path());
    assert_eq!(builder.save_path.as_ref().unwrap().path, path().path);
    assert_eq!(builder.suggested_path(), None);
    // Without a suggestion nothing is taken up
    builder.take_suggestion(SavePath { file_name: None, ..path() });
    assert!(builder.save_path.as_ref().unwrap().file_name.is_some());
    // What is known already is not replaced
    builder.retrieve_meta(Err(not_found())).unwrap();
    assert!(builder.meta.is_some());
    let mut fresh = Builder::new().adapter(1);
    match fresh.retrieve_meta(Err(not_found())) {
        Err(error) => assert!(!error.message().is_empty()),
        Ok(()) => panic!("the error was lost"),
    }
}

#[test]
fn a_single_stream_is_written_in_order() {
    let mut task = SingletonTaskInner::new();
    task.retrieve_meta(Ok(meta(5))).unwrap();
    let mut meter: usize = 0;
    assert_eq!(task.handle_data_frame(&Bytes::from_static(b"abc"), &mut meter), 0..3);
    assert_eq!(task.handle_data_frame(&Bytes::from_static(b"de"), &mut meter), 3..5);
    assert_eq!(meter, 5);
    let progress = task.progress();
    assert_eq!(progress.total, Some(5));
    assert_eq!(progress.downloaded_chunks, vec![0..5]);

    // Both the runner and the data have to end
    let finished = LifecycleEvent::Stopped(StoppedReason::Finished);
    assert!(!task.handle_lifecycle_event(Some(finished)).unwrap());
    assert!(task.handle_data_end());
}

#[test]
fn an_unknown_size_is_learnt_at_the_end() {
    let mut task = SingletonTaskInner::new();
    task.retrieve_meta(Ok(meta(0))).unwrap();
    assert_eq!(task.progress().total, None);
    let mut meter: usize = 0;
    task.handle_data_frame(&Bytes::from_static(b"abc"), &mut meter);
    assert_eq!(task.finished_progress().total, Some(3));
    assert!(matches!(
        task.retrieve_meta(Err(not_found())),
        Err(TaskInstanceError::RetrieveMetaFailed(_))
    ));
    assert!(matches!(
        task.handle_lifecycle_event(Some(LifecycleEvent::failed(TaskError::Timeout))),
        Err(TaskInstanceError::Failed(TaskError::Timeout))
    ));
}

//! What a download task is seen as from outside: its progress, its events and its
//! state.
use crate::adapter::{AdapterError, IoError};
use crate::runner_error::TaskError;
use crate::RunnerId;
use std::ops::Range;
use vstd::prelude::*;

verus! {

/// The time over which speeds are sampled, in milliseconds.
pub const DEFAULT_SAMPLE_INTERVAL_MS: u64 = 250;

/// Events that fit into the channel of a task.
pub const TASK_EVENT_CHANNEL_CAPACITY: usize = 32;

/// A message from the manager to a runner.
#[derive(Clone, Copy, Debug, PartialEq, Eq, Structural)]
pub struct ManagerMessage(pub RunnerId, pub ManagerMessagesVariant);

/// What the manager may tell a runner.
#[derive(Clone, Copy, Debug, PartialEq, Eq, Structural)]
pub enum ManagerMessagesVariant {
    /// Limit the total size of the task.
    ///
    /// The limit number should be smaller than the total size of the task.
    LimitTotal(u64),
}

/// The parts of the content that have been downloaded.
pub type DownloadedChunks = Vec<Range<u64>>;

/// The progress of the download task.
#[derive(Debug)]
pub struct Progress {
    /// The total size of the content.
    /// Possible None if the total size is unknown;
    /// a single-thread task then finishes with the stream.
    pub total: Option<u64>,
    /// The current downloaded size.
    pub downloaded: u64,
    /// The downloaded chunks: one for a single-thread task, any number for a
    /// concurrent task.
    pub downloaded_chunks: DownloadedChunks,
}

/// The same ranges once more.
pub fn copy_ranges(ranges: &Vec<Range<u64>>) -> (copies: Vec<Range<u64>>)
    ensures
        copies@ == ranges@,
{
    let mut copies: Vec<Range<u64>> = Vec::with_capacity(ranges.len());
    let mut i: usize = 0;
    while i < ranges.len()
        invariant
            i <= ranges@.len(),
            copies@ == ranges@.take(i as int),
        decreases ranges@.len() - i,
    {
        copies.push(ranges[i].start..ranges[i].end);
        i = i + 1;
        assert(copies@ =~= ranges@.take(i as int));
    }
    assert(ranges@.take(i as int) =~= ranges@);
    copies
}

impl Progress {
    /// Two reports of the same progress.
    pub open spec fn same(&self, other: &Progress) -> bool {
        &&& self.total == other.total
        &&& self.downloaded == other.downloaded
        &&& self.downloaded_chunks@ == other.downloaded_chunks@
    }
}

impl Default for Progress {
    fn default() -> (progress: Self)
        ensures
            progress.total is None,
            progress.downloaded == 0,
            progress.downloaded_chunks@.len() == 0,
    {
        Progress { total: None, downloaded: 0, downloaded_chunks: Vec::new() }
    }
}

impl Clone for Progress {
    fn clone(&self) -> (progress: Self)
        ensures
            progress.same(self),
    {
        Progress {
            total: self.total,
            downloaded: self.downloaded,
            downloaded_chunks: copy_ranges(&self.downloaded_chunks),
        }
    }
}

/// Progress together with speeds, in whole bytes per second.
#[derive(Debug)]
pub struct ProgressWithSpeed {
    /// The progress.
    pub progress: Progress,
    /// How fast is downloaded.
    pub speed: u64,
    /// How fast is written.
    pub write_speed: u64,
}

impl ProgressWithSpeed {
    /// Progress together with speeds.
    pub fn new(progress: Progress, speed: u64, write_speed: u64) -> (report: Self)
        ensures
            report == (ProgressWithSpeed { progress, speed, write_speed }),
    {
        ProgressWithSpeed { progress, speed, write_speed }
    }

    /// The progress.
    pub fn progress(&self) -> (progress: &Progress)
        ensures
            *progress == self.progress,
    {
        &self.progress
    }

    /// How fast is downloaded.
    pub fn speed(&self) -> (speed: u64)
        ensures
            speed == self.speed,
    {
        self.speed
    }

    /// How fast is written.
    pub fn write_speed(&self) -> (speed: u64)
        ensures
            speed == self.write_speed,
    {
        self.write_speed
    }
}

/// How content is downloaded.
#[derive(Clone, Copy, Debug, PartialEq, Eq, Structural)]
pub enum DownloadMode {
    /// One runner fetches the content.
    Singleton,
    /// Multiple runners fetch the content.
    Concurrent,
}

impl Default for DownloadMode {
    fn default() -> (mode: Self)
        ensures
            mode == DownloadMode::Concurrent,
    {
        DownloadMode::Concurrent
    }
}

/// How far a task is.
#[derive(Clone, Copy, Debug, PartialEq, Eq, Structural)]
pub enum TaskState {
    /// The task is idle, the initial state.
    Idle,
    /// The task is being spawned.
    Spawning,
    /// The task is being initialized.
    Initializing,
    /// The task is downloading the content.
    Downloading,
    /// The task is finished.
    Finished,
    /// The task is failed with an error.
    Failed,
}

impl Default for TaskState {
    fn default() -> (state: Self)
        ensures
            state == TaskState::Idle,
    {
        TaskState::Idle
    }
}

/// How a task fails.
#[derive(Debug)]
pub enum TaskInstanceError {
    /// What the content is could not be found out.
    RetrieveMetaFailed(AdapterError),
    /// The content could not be opened.
    StreamFailed(AdapterError),
    /// The content could not be written.
    WriteChunkFailed(IoError),
    /// A runner failed.
    Failed(TaskError),
}

impl Clone for TaskInstanceError {
    fn clone(&self) -> (error: Self)
        ensures
            error == *self,
    {
        match self {
            TaskInstanceError::RetrieveMetaFailed(source) =>
                TaskInstanceError::RetrieveMetaFailed(source.clone()),
            TaskInstanceError::StreamFailed(source) => TaskInstanceError::StreamFailed(
                source.clone(),
            ),
            TaskInstanceError::WriteChunkFailed(source) => TaskInstanceError::WriteChunkFailed(
                source.clone(),
            ),
            TaskInstanceError::Failed(error) => TaskInstanceError::Failed(error.clone()),
        }
    }
}

impl TaskInstanceError {
    /// A runner failed.
    pub fn new_failed(error: TaskError) -> (failure: Self)
        ensures
            failure == TaskInstanceError::Failed(error),
    {
        TaskInstanceError::Failed(error)
    }

    /// The content could not be written.
    pub fn new_write_chunk_failed(error: IoError) -> (failure: Self)
        ensures
            failure == TaskInstanceError::WriteChunkFailed(error),
    {
        TaskInstanceError::WriteChunkFailed(error)
    }
}

/// What a task reports.
#[derive(Debug)]
pub enum TaskEvent {
    /// It is being initialized.
    Initializing,
    /// It is downloading.
    Downloading(ProgressWithSpeed),
    /// It is finished.
    Finished(Progress),
    /// It failed.
    Failed(TaskInstanceError),
}

/// What is known of a task from its events.
#[derive(Debug)]
pub struct TaskStatus {
    /// How far the task is.
    pub state: TaskState,
    /// The last error.
    pub last_error: Option<TaskInstanceError>,
}

impl TaskStatus {
    /// Of a failed task the error is known.
    pub open spec fn wf(&self) -> bool {
        self.state == TaskState::Failed ==> self.last_error is Some
    }

    /// A task that has not been run.
    pub fn new() -> (status: Self)
        ensures
            status == (TaskStatus { state: TaskState::Idle, last_error: None }),
            status.wf(),
    {
        TaskStatus { state: TaskState::Idle, last_error: None }
    }

    /// Check if the task is finished or failed.
    pub fn is_finished(&self) -> (finished: bool)
        ensures
            finished == (self.state == TaskState::Finished || self.state == TaskState::Failed),
    {
        matches!(self.state, TaskState::Finished | TaskState::Failed)
    }

    /// Check if the task is initialized.
    pub fn is_initialized(&self) -> (initialized: bool)
        ensures
            initialized == (self.state != TaskState::Idle),
    {
        !matches!(self.state, TaskState::Idle)
    }

    /// Whether there is something to wait for.
    pub fn is_running(&self) -> (running: bool)
        ensures
            running == (self.state == TaskState::Spawning || self.state == TaskState::Initializing
                || self.state == TaskState::Downloading),
    {
        matches!(
            self.state,
            TaskState::Spawning | TaskState::Initializing | TaskState::Downloading
        )
    }

    /// The task is being run.
    pub fn spawning(&mut self)
        ensures
            *final(self) == (TaskStatus { state: TaskState::Spawning, ..*old(self) }),
            final(self).wf(),
    {
        self.state = TaskState::Spawning;
    }

    /// Take note of an event.
    pub fn observe(&mut self, event: &TaskEvent)
        ensures
            match *event {
                TaskEvent::Initializing => *final(self) == (TaskStatus {
                    state: TaskState::Initializing,
                    ..*old(self)
                }),
                TaskEvent::Downloading(_) => *final(self) == (TaskStatus {
                    state: TaskState::Downloading,
                    ..*old(self)
                }),
                TaskEvent::Finished(_) => *final(self) == (TaskStatus {
                    state: TaskState::Finished,
                    ..*old(self)
                }),
                TaskEvent::Failed(error) => *final(self) == (TaskStatus {
                    state: TaskState::Failed,
                    last_error: Some(error),
                }),
            },
            final(self).wf(),
    {
        match event {
            TaskEvent::Initializing => {
                self.state = TaskState::Initializing;
            },
            TaskEvent::Downloading(_) => {
                self.state = TaskState::Downloading;
            },
            TaskEvent::Finished(_) => {
                self.state = TaskState::Finished;
            },
            TaskEvent::Failed(error) => {
                self.last_error = Some(error.clone());
                self.state = TaskState::Failed;
            },
        }
    }

    /// What the task came to, as far as it is: the last error where it failed.
    pub fn result(&self) -> (result: Result<(), TaskInstanceError>)
        requires
            self.wf(),
        ensures
            match result {
                Ok(_) => self.state != TaskState::Failed,
                Err(error) => self.state == TaskState::Failed && self.last_error == Some(error),
            },
    {
        match &self.last_error {
            Some(error) => {
                if matches!(self.state, TaskState::Failed) {
                    Err(error.clone())
                } else {
                    Ok(())
                }
            },
            None => Ok(()),
        }
    }
}

} // verus!

//! How a runner fails.
use crate::adapter::AdapterError;
use crate::text::prefixed;
use vstd::prelude::*;
use vstd::string::*;

verus! {

/// The kind of the task failed.
#[derive(Debug)]
pub enum TaskError {
    /// The task is cancelled.
    Cancelled,
    /// The task is timeout, only happen when a stream is not sent in a period.
    Timeout,
    /// The task is empty.
    Empty,
    /// The channel is closed.
    ChannelClosed,
    /// The task is exceeded the total size.
    ///
    /// Possible reason:
    /// - The total sized while the downloaded chunk is larger than the total size
    ExceededTotalSize,
    /// The task is smaller than the total size.
    ///
    /// Possible reason:
    /// - The total sized while the downloaded chunk is smaller than the total size
    SmallerThanTotalSize,
    /// The stream reported an error.
    StreamError { source: AdapterError },
    /// The other error.
    Other { message: String },
}

impl Clone for TaskError {
    fn clone(&self) -> (error: Self)
        ensures
            error == *self,
    {
        match self {
            TaskError::Cancelled => TaskError::Cancelled,
            TaskError::Timeout => TaskError::Timeout,
            TaskError::Empty => TaskError::Empty,
            TaskError::ChannelClosed => TaskError::ChannelClosed,
            TaskError::ExceededTotalSize => TaskError::ExceededTotalSize,
            TaskError::SmallerThanTotalSize => TaskError::SmallerThanTotalSize,
            TaskError::StreamError { source } => TaskError::StreamError {
                source: source.clone(),
            },
            TaskError::Other { message } => TaskError::Other { message: message.clone() },
        }
    }
}

impl TaskError {
    /// The message of the error.
    pub open spec fn text(self) -> Seq<char> {
        match self {
            TaskError::Cancelled => "task is cancelled"@,
            TaskError::Timeout => "task is timeout"@,
            TaskError::Empty => "task is empty"@,
            TaskError::ChannelClosed => "channel is closed"@,
            TaskError::ExceededTotalSize => "task is exceeded the total size"@,
            TaskError::SmallerThanTotalSize => "task is smaller than the total size"@,
            TaskError::StreamError { source } => "stream error: "@ + source.text(),
            TaskError::Other { message } => "other error: "@ + message@,
        }
    }

    /// The message of the error.
    pub fn message(&self) -> (text: String)
        ensures
            text@ == self.text(),
    {
        match self {
            TaskError::Cancelled => "task is cancelled".to_string(),
            TaskError::Timeout => "task is timeout".to_string(),
            TaskError::Empty => "task is empty".to_string(),
            TaskError::ChannelClosed => "channel is closed".to_string(),
            TaskError::ExceededTotalSize => "task is exceeded the total size".to_string(),
            TaskError::SmallerThanTotalSize => "task is smaller than the total size".to_string(),
            TaskError::StreamError { source } => prefixed(
                "stream error: ",
                source.message().as_str(),
            ),
            TaskError::Other { message } => prefixed("other error: ", message.as_str()),
        }
    }

    /// The download may be tried again.
    pub open spec fn retryable(self) -> bool {
        match self {
            TaskError::StreamError { source } => source.retryable(),
            TaskError::Timeout => true,
            _ => false,
        }
    }

    /// Whether the download may be tried again: a retryable stream error or a
    /// timeout.
    pub fn is_retryable(&self) -> (retryable: bool)
        ensures
            retryable == self.retryable(),
    {
        match self {
            TaskError::StreamError { source } => source.is_retryable(),
            TaskError::Timeout => true,
            _ => false,
        }
    }

    /// Whether the task was cancelled.
    pub fn is_cancelled(&self) -> (cancelled: bool)
        ensures
            cancelled == (self is Cancelled),
    {
        matches!(self, TaskError::Cancelled)
    }

    /// Whether the stream reported an error.
    pub fn is_stream_error(&self) -> (stream_error: bool)
        ensures
            stream_error == (self is StreamError),
    {
        matches!(self, TaskError::StreamError { .. })
    }

    /// Whether nothing was downloaded.
    pub fn is_empty(&self) -> (empty: bool)
        ensures
            empty == (self is Empty),
    {
        matches!(self, TaskError::Empty)
    }
}

/// Why a runner stopped.
#[derive(Debug)]
pub enum StoppedReason {
    /// The task is finished.
    Finished,
    /// The task is failed.
    Failed(TaskError),
}

/// What a runner reports of its life.
#[derive(Debug)]
pub enum LifecycleEvent {
    /// The task is started.
    Started,
    /// Stopped with message.
    Stopped(StoppedReason),
}

impl LifecycleEvent {
    /// The task failed.
    pub fn failed(e: TaskError) -> (event: Self)
        ensures
            event == LifecycleEvent::Stopped(StoppedReason::Failed(e)),
    {
        LifecycleEvent::Stopped(StoppedReason::Failed(e))
    }

    /// The task finished.
    pub fn finished() -> (event: Self)
        ensures
            event == LifecycleEvent::Stopped(StoppedReason::Finished),
    {
        LifecycleEvent::Stopped(StoppedReason::Finished)
    }

    /// The task started.
    pub fn started() -> (event: Self)
        ensures
            event == LifecycleEvent::Started,
    {
        LifecycleEvent::Started
    }

    /// Whether the task finished.
    pub fn is_finished(&self) -> (finished: bool)
        ensures
            finished == (*self == LifecycleEvent::Stopped(StoppedReason::Finished)),
    {
        matches!(self, LifecycleEvent::Stopped(StoppedReason::Finished))
    }

    /// Whether the task was cancelled.
    pub fn is_cancelled(&self) -> (cancelled: bool)
        ensures
            cancelled == (*self == LifecycleEvent::Stopped(
                StoppedReason::Failed(TaskError::Cancelled),
            )),
    {
        match self {
            LifecycleEvent::Stopped(StoppedReason::Failed(e)) => e.is_cancelled(),
            _ => false,
        }
    }
}

/// How the event loop of a runner ends when it does not finish.
#[derive(Debug)]
pub enum TaskRunError {
    /// The runner was cancelled.
    Cancelled,
    /// The runner failed.
    Failed(TaskError),
}

impl From<TaskError> for TaskRunError {
    fn from(value: TaskError) -> (error: Self) {
        TaskRunError::Failed(value)
    }
}

impl vstd::std_specs::convert::FromSpecImpl<TaskError> for TaskRunError {
    open spec fn obeys_from_spec() -> bool {
        true
    }

    open spec fn from_spec(value: TaskError) -> Self {
        TaskRunError::Failed(value)
    }
}

} // verus!

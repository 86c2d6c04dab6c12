//! Putting a runner together, and how that fails.
use crate::adapter::AdapterError;
use crate::runner::TaskRunner;
use crate::text::prefixed;
use crate::RunnerId;
use vstd::prelude::*;
use vstd::string::*;

verus! {

/// What a runner cannot be built without.
#[derive(Clone, Copy, Debug, PartialEq, Eq, Structural)]
pub enum TaskRunnerBuilderError {
    /// The stream is not set.
    StreamNotSet,
    /// The runner id is not set.
    RunnerIdNotSet,
    /// The control signal is not set.
    ControlSignalNotSet,
    /// The cancel token is not set.
    CancelTokenNotSet,
}

impl TaskRunnerBuilderError {
    /// The message of the error.
    pub open spec fn text(self) -> Seq<char> {
        match self {
            TaskRunnerBuilderError::StreamNotSet => "stream is not set"@,
            TaskRunnerBuilderError::RunnerIdNotSet => "runner id is not set"@,
            TaskRunnerBuilderError::ControlSignalNotSet => "control signal is not set"@,
            TaskRunnerBuilderError::CancelTokenNotSet => "cancel token is not set"@,
        }
    }

    /// The message of the error.
    pub fn message(&self) -> (text: &'static str)
        ensures
            text@ == self.text(),
    {
        match self {
            TaskRunnerBuilderError::StreamNotSet => "stream is not set",
            TaskRunnerBuilderError::RunnerIdNotSet => "runner id is not set",
            TaskRunnerBuilderError::ControlSignalNotSet => "control signal is not set",
            TaskRunnerBuilderError::CancelTokenNotSet => "cancel token is not set",
        }
    }
}

/// What a runner is built from: a stream `S`, the receiving half `C` of its
/// control channel and a cancel token `K`.
#[derive(Debug)]
pub struct TaskRunnerBuilder<S, C, K> {
    /// The total size of the task.
    pub total: Option<u64>,
    /// The stream of the task.
    pub stream: Option<S>,
    /// The runner id of the task.
    pub runner_id: Option<RunnerId>,
    /// The receiver of the control signal.
    pub control_signal: Option<C>,
    /// The cancel token of the task.
    pub cancel_token: Option<K>,
    /// How long to wait for the data channel to be drained, in milliseconds.
    pub data_drain_timeout_ms: Option<u64>,
}

/// A runner with what it reads from and reports to.
#[derive(Debug)]
pub struct BuiltRunner<S, C, K> {
    /// The runner.
    pub runner: TaskRunner,
    /// Its stream.
    pub stream: S,
    /// The receiver of its control signal.
    pub control_signal: C,
    /// Its cancel token.
    pub cancel_token: K,
    /// How long to wait for the data channel to be drained, in milliseconds.
    pub data_drain_timeout_ms: u64,
}

impl<S, C, K> TaskRunnerBuilder<S, C, K> {
    /// A builder with nothing set.
    pub fn new() -> (builder: Self)
        ensures
            builder == (TaskRunnerBuilder::<S, C, K> {
                total: None,
                stream: None,
                runner_id: None,
                control_signal: None,
                cancel_token: None,
                data_drain_timeout_ms: None,
            }),
    {
        TaskRunnerBuilder {
            total: None,
            stream: None,
            runner_id: None,
            control_signal: None,
            cancel_token: None,
            data_drain_timeout_ms: None,
        }
    }

    /// Set the total size of the task.
    pub fn total(self, total: u64) -> (builder: Self)
        ensures
            builder == (TaskRunnerBuilder::<S, C, K> { total: Some(total), ..self }),
    {
        TaskRunnerBuilder { total: Some(total), ..self }
    }

    /// Set or clear the total size of the task.
    pub fn with_optional_total(self, total: Option<u64>) -> (builder: Self)
        ensures
            builder == (TaskRunnerBuilder::<S, C, K> { total, ..self }),
    {
        TaskRunnerBuilder { total, ..self }
    }

    /// Set the stream of the task.
    pub fn stream(self, stream: S) -> (builder: Self)
        ensures
            builder == (TaskRunnerBuilder::<S, C, K> { stream: Some(stream), ..self }),
    {
        TaskRunnerBuilder { stream: Some(stream), ..self }
    }

    /// Set the runner id of the task.
    pub fn runner_id(self, runner_id: RunnerId) -> (builder: Self)
        ensures
            builder == (TaskRunnerBuilder::<S, C, K> { runner_id: Some(runner_id), ..self }),
    {
        TaskRunnerBuilder { runner_id: Some(runner_id), ..self }
    }

    /// Set the receiver of the control signal.
    pub fn control_signal(self, control_signal: C) -> (builder: Self)
        ensures
            builder == (TaskRunnerBuilder::<S, C, K> {
                control_signal: Some(control_signal),
                ..self
            }),
    {
        TaskRunnerBuilder { control_signal: Some(control_signal), ..self }
    }

    /// Set the cancel token of the task.
    pub fn cancel_token(self, cancel_token: K) -> (builder: Self)
        ensures
            builder == (TaskRunnerBuilder::<S, C, K> { cancel_token: Some(cancel_token), ..self }),
    {
        TaskRunnerBuilder { cancel_token: Some(cancel_token), ..self }
    }

    /// Set how long to wait for the data channel to be drained.
    pub fn data_drain_timeout_ms(self, timeout: u64) -> (builder: Self)
        ensures
            builder == (TaskRunnerBuilder::<S, C, K> {
                data_drain_timeout_ms: Some(timeout),
                ..self
            }),
    {
        TaskRunnerBuilder { data_drain_timeout_ms: Some(timeout), ..self }
    }

    /// The first thing that is missing, in the order in which it is asked for.
    pub open spec fn missing(self) -> Option<TaskRunnerBuilderError> {
        if self.runner_id is None {
            Some(TaskRunnerBuilderError::RunnerIdNotSet)
        } else if self.stream is None {
            Some(TaskRunnerBuilderError::StreamNotSet)
        } else if self.control_signal is None {
            Some(TaskRunnerBuilderError::ControlSignalNotSet)
        } else if self.cancel_token is None {
            Some(TaskRunnerBuilderError::CancelTokenNotSet)
        } else {
            None
        }
    }

    /// Build the task runner. The first missing part is the error.
    pub fn build(self) -> (result: Result<BuiltRunner<S, C, K>, TaskRunnerBuilderError>)
        ensures
            match (self.missing(), result) {
                (Some(missing), Err(error)) => error == missing,
                (None, Ok(built)) => {
                    &&& Some(built.runner.id) == self.runner_id
                    &&& built.runner@ == (crate::runner::RunnerView {
                        total: self.total,
                        downloaded: 0,
                        data_open: true,
                        buff: Seq::empty(),
                        pending: None,
                        deferred: None,
                        control_closed: false,
                    })
                    &&& Some(built.stream) == self.stream
                    &&& Some(built.control_signal) == self.control_signal
                    &&& Some(built.cancel_token) == self.cancel_token
                    &&& built.data_drain_timeout_ms == (match self.data_drain_timeout_ms {
                        Some(timeout) => timeout as int,
                        None => crate::runner::DATA_DRAIN_TIMEOUT_SECS * 1000,
                    })
                },
                _ => false,
            },
    {
        self.build_inner(None)
    }

    /// Build the task runner with a stream in place of the one that is set.
    pub fn build_inner(self, stream_override: Option<S>) -> (result: Result<
        BuiltRunner<S, C, K>,
        TaskRunnerBuilderError,
    >)
        ensures
            match (self.overridden(stream_override).missing(), result) {
                (Some(missing), Err(error)) => error == missing,
                (None, Ok(built)) => {
                    &&& Some(built.runner.id) == self.runner_id
                    &&& built.runner@ == (crate::runner::RunnerView {
                        total: self.total,
                        downloaded: 0,
                        data_open: true,
                        buff: Seq::empty(),
                        pending: None,
                        deferred: None,
                        control_closed: false,
                    })
                    &&& Some(built.stream) == self.overridden(stream_override).stream
                    &&& Some(built.control_signal) == self.control_signal
                    &&& Some(built.cancel_token) == self.cancel_token
                    &&& built.data_drain_timeout_ms == (match self.data_drain_timeout_ms {
                        Some(timeout) => timeout as int,
                        None => crate::runner::DATA_DRAIN_TIMEOUT_SECS * 1000,
                    })
                },
                _ => false,
            },
    {
        let runner_id = match self.runner_id {
            Some(runner_id) => runner_id,
            None => {
                return Err(TaskRunnerBuilderError::RunnerIdNotSet);
            },
        };
        let chosen = match stream_override {
            Some(stream) => Some(stream),
            None => self.stream,
        };
        let stream = match chosen {
            Some(stream) => stream,
            None => {
                return Err(TaskRunnerBuilderError::StreamNotSet);
            },
        };
        let control_signal = match self.control_signal {
            Some(control_signal) => control_signal,
            None => {
                return Err(TaskRunnerBuilderError::ControlSignalNotSet);
            },
        };
        let cancel_token = match self.cancel_token {
            Some(cancel_token) => cancel_token,
            None => {
                return Err(TaskRunnerBuilderError::CancelTokenNotSet);
            },
        };
        Ok(
            BuiltRunner {
                runner: TaskRunner::new(runner_id, self.total),
                stream,
                control_signal,
                cancel_token,
                data_drain_timeout_ms: match self.data_drain_timeout_ms {
                    Some(timeout) => timeout,
                    None => crate::runner::DATA_DRAIN_TIMEOUT_SECS * 1000,
                },
            },
        )
    }

    /// The builder with another stream, where one is given.
    pub open spec fn overridden(self, stream_override: Option<S>) -> Self {
        match stream_override {
            Some(stream) => TaskRunnerBuilder { stream: Some(stream), ..self },
            None => self,
        }
    }
}

/// The stream of a runner could not be opened.
#[derive(Debug)]
pub struct ConnectionError {
    /// Why.
    pub source: AdapterError,
}

impl ConnectionError {
    /// The message of the error.
    pub open spec fn text(self) -> Seq<char> {
        "failed to connect stream: "@ + self.source.text()
    }

    /// The message of the error.
    pub fn message(&self) -> (text: String)
        ensures
            text@ == self.text(),
    {
        prefixed("failed to connect stream: ", self.source.message().as_str())
    }

    /// Whether to try again.
    pub fn is_retryable(&self) -> (retryable: bool)
        ensures
            retryable == self.source.retryable(),
    {
        self.source.is_retryable()
    }
}

/// A runner could not be connected.
#[derive(Debug)]
pub enum RunnerConnectorError {
    /// Building the runner failed.
    Build { source: TaskRunnerBuilderError },
    /// The stream could not be opened.
    Connection { source: ConnectionError },
}

impl RunnerConnectorError {
    /// The message of the error.
    pub fn message(&self) -> (text: String)
        ensures
            text@ == match *self {
                RunnerConnectorError::Build { source } => "build failed: "@ + source.text(),
                RunnerConnectorError::Connection { source } => "connection failed: "@
                    + source.text(),
            },
    {
        match self {
            RunnerConnectorError::Build { source } => prefixed("build failed: ", source.message()),
            RunnerConnectorError::Connection { source } => prefixed(
                "connection failed: ",
                source.message().as_str(),
            ),
        }
    }

    /// Whether to try again: only a connection may be.
    pub fn is_retryable(&self) -> (retryable: bool)
        ensures
            retryable == match *self {
                RunnerConnectorError::Connection { source } => source.source.retryable(),
                RunnerConnectorError::Build { .. } => false,
            },
    {
        match self {
            RunnerConnectorError::Connection { source } => source.is_retryable(),
            RunnerConnectorError::Build { .. } => false,
        }
    }
}

} // verus!

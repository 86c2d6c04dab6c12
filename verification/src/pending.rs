//! Runners that are being created.
use crate::aggregator::Polled;
use crate::outcome::FailureKind;
use crate::runner_builder::{ConnectionError, RunnerConnectorError};
use crate::text::prefixed;
use crate::RunnerId;
use std::ops::Range;
use vstd::prelude::*;
use vstd::string::*;

verus! {

/// Where the streams of a new runner are found.
#[derive(Debug)]
pub struct RunnerBuilderOutput<K> {
    /// Its data frames.
    pub data_rx: K,
    /// Its lifecycle events.
    pub lifecycle_rx: K,
}

/// The runner that is being created, and for which range.
#[derive(Debug)]
pub struct PendingRunnerContext {
    /// The runner.
    pub runner_id: RunnerId,
    /// The range.
    pub range: Range<u64>,
}

/// Why a runner was not created.
#[derive(Debug)]
pub enum PendingRunnerError {
    /// The other side went away.
    ReceiverClosed,
    /// The connection failed.
    Connection { source: ConnectionError },
    /// The runner's task could not be started.
    Spawn { message: String },
}

impl PendingRunnerError {
    /// How the failure counts: only a connection can fail for good.
    pub open spec fn kind(self) -> FailureKind {
        match self {
            PendingRunnerError::Connection { source } => if source.source.retryable() {
                FailureKind::Retryable
            } else {
                FailureKind::Unretryable
            },
            _ => FailureKind::Retryable,
        }
    }

    /// How the failure counts.
    pub fn failure_kind(&self) -> (kind: FailureKind)
        ensures
            kind == self.kind(),
    {
        match self {
            PendingRunnerError::ReceiverClosed => FailureKind::Retryable,
            PendingRunnerError::Connection { source } => {
                if source.is_retryable() {
                    FailureKind::Retryable
                } else {
                    FailureKind::Unretryable
                }
            },
            PendingRunnerError::Spawn { .. } => FailureKind::Retryable,
        }
    }

    /// A runner that could not be connected: either its stream failed, or it was not
    /// complete.
    pub fn from_connector_error(error: RunnerConnectorError) -> (pending: Self)
        ensures
            match error {
                RunnerConnectorError::Connection { source } => pending
                    == (PendingRunnerError::Connection { source }),
                RunnerConnectorError::Build { source } => {
                    &&& pending is Spawn
                    &&& pending->message@ == source.text()
                },
            },
    {
        match error {
            RunnerConnectorError::Connection { source } => PendingRunnerError::Connection {
                source,
            },
            RunnerConnectorError::Build { source } => PendingRunnerError::Spawn {
                message: source.message().to_string(),
            },
        }
    }

    /// The message of the error.
    pub fn message(&self) -> (text: String)
        ensures
            text@ == match *self {
                PendingRunnerError::ReceiverClosed => "the consumer receiver is closed"@,
                PendingRunnerError::Connection { source } => "the connection failed: "@
                    + source.text(),
                PendingRunnerError::Spawn { message } => "failed to spawn runner task: "@
                    + message@,
            },
    {
        match self {
            PendingRunnerError::ReceiverClosed => "the consumer receiver is closed".to_string(),
            PendingRunnerError::Connection { source } => prefixed(
                "the connection failed: ",
                source.message().as_str(),
            ),
            PendingRunnerError::Spawn { message } => prefixed(
                "failed to spawn runner task: ",
                message.as_str(),
            ),
        }
    }
}

/// What came of the creation of a runner.
#[derive(Debug)]
pub struct PendingRunnerOutput<K> {
    /// The runner.
    pub context: PendingRunnerContext,
    /// Its streams, or why there are none.
    pub result: Result<RunnerBuilderOutput<K>, PendingRunnerError>,
}

impl PendingRunnerContext {
    /// The runner that is being created, and for which range.
    pub fn new(runner_id: RunnerId, range: Range<u64>) -> (context: Self)
        ensures
            context == (PendingRunnerContext { runner_id, range }),
    {
        PendingRunnerContext { runner_id, range }
    }

    /// What came of the creation, given what was received of it: nothing where the
    /// other side went away.
    pub fn settle<K>(
        self,
        received: Option<Result<RunnerBuilderOutput<K>, PendingRunnerError>>,
    ) -> (output: PendingRunnerOutput<K>)
        ensures
            output.context == self,
            output.result == match received {
                Some(result) => result,
                None => Err(PendingRunnerError::ReceiverClosed),
            },
    {
        PendingRunnerOutput {
            context: self,
            result: match received {
                Some(result) => result,
                None => Err(PendingRunnerError::ReceiverClosed),
            },
        }
    }
}

/// The runners that are being created.
#[derive(Debug)]
pub struct PendingRunnerGroup {
    /// The runners, in the order in which they came.
    pub runners: Vec<RunnerId>,
    /// Someone who polled waits to be woken.
    pub waiting: bool,
}

/// The runners without the first occurrence of one.
pub open spec fn without(runners: Seq<RunnerId>, runner_id: RunnerId) -> Seq<RunnerId> {
    if runners.contains(runner_id) {
        runners.remove(runners.index_of_first(runner_id)->0)
    } else {
        runners
    }
}

impl PendingRunnerGroup {
    /// No runner is being created.
    pub fn new() -> (group: Self)
        ensures
            group.runners@ == Seq::<RunnerId>::empty(),
            !group.waiting,
    {
        PendingRunnerGroup { runners: Vec::new(), waiting: false }
    }

    /// A runner is being created. Returns whether someone is to be woken.
    pub fn insert(&mut self, runner_id: RunnerId) -> (woken: bool)
        ensures
            final(self).runners@ == old(self).runners@.push(runner_id),
            !final(self).waiting,
            woken == old(self).waiting,
    {
        self.runners.push(runner_id);
        let waiting = self.waiting;
        self.waiting = false;
        waiting
    }

    /// Check if no runner is being created.
    pub fn is_empty(&self) -> (empty: bool)
        ensures
            empty == (self.runners@.len() == 0),
    {
        self.runners.len() == 0
    }

    /// What the group yields when the futures yield `polled`. Without runners they
    /// are not asked, and `polled` does not matter.
    pub fn poll_next<K>(&mut self, polled: Polled<PendingRunnerOutput<K>>) -> (output: Polled<
        PendingRunnerOutput<K>,
    >)
        ensures
            final(self).waiting,
            output == if old(self).runners@.len() == 0 {
                Polled::Pending
            } else {
                polled
            },
            final(self).runners@ == match polled {
                Polled::Ready(Some(output)) => without(
                    old(self).runners@,
                    output.context.runner_id,
                ),
                _ => old(self).runners@,
            },
    {
        self.waiting = true;
        if self.runners.len() == 0 {
            return Polled::Pending;
        }
        if let Polled::Ready(Some(output)) = &polled {
            let mut i: usize = 0;
            while i < self.runners.len() && self.runners[i] != output.context.runner_id
                invariant
                    i <= self.runners@.len(),
                    self.runners@ == old(self).runners@,
                    self.waiting,
                    forall|j: int|
                        0 <= j < i ==> self.runners@[j] != output.context.runner_id,
                decreases self.runners@.len() - i,
            {
                i = i + 1;
            }
            let ghost before = self.runners@;
            if i < self.runners.len() {
                proof {
                    before.index_of_first_ensures(output.context.runner_id);
                    assert(before[i as int] == output.context.runner_id);
                }
                self.runners.remove(i);
            }
        }
        polled
    }
}

} // verus!

//! The channels through which the manager talks to the runners.
use crate::runner::ControlEvent;
use crate::text::number_between;
use crate::{text, RunnerId};
use async_channel::{Receiver, Sender};
use vstd::prelude::*;
use vstd::string::*;

verus! {

/// Messages that fit into a control channel.
pub const DEFAULT_CONTROL_CHANNEL_CAPACITY: usize = 8;

/// The sending half of a channel of the `async-channel` crate, opaque to the
/// verifier.
#[verifier::external_type_specification]
#[verifier::external_body]
#[verifier::reject_recursive_types(T)]
pub struct ExSender<T>(Sender<T>);

/// The receiving half of a channel of the `async-channel` crate, opaque to the
/// verifier.
#[verifier::external_type_specification]
#[verifier::external_body]
#[verifier::reject_recursive_types(T)]
pub struct ExReceiver<T>(Receiver<T>);

/// Sends control messages.
pub type ControlSender = Sender<ControlEvent>;

/// Receives control messages.
pub type ControlReceiver = Receiver<ControlEvent>;

/// The two halves belong to one channel, which holds so many messages at most.
pub uninterp spec fn connected(
    sender: Sender<ControlEvent>,
    receiver: Receiver<ControlEvent>,
    capacity: usize,
) -> bool;

/// The sender was handed the message, and this is what came back, if anything.
pub uninterp spec fn answered(
    sender: Sender<ControlEvent>,
    message: ControlEvent,
    unsent: Option<Unsent>,
) -> bool;

/// A message that a channel did not take.
#[derive(Clone, Copy, Debug, PartialEq, Eq, Structural)]
pub enum Unsent {
    /// The channel is full but not closed.
    Full(ControlEvent),
    /// The channel is closed.
    Closed(ControlEvent),
}

/// Calls `async_channel::bounded`: the two halves of a new channel that holds at
/// most `capacity` messages. A capacity of zero panics, and one that is too large
/// to be allocated is left out.
#[verifier::external_body]
pub(crate) fn control_channel(capacity: usize) -> (halves: (ControlSender, ControlReceiver))
    requires
        0 < capacity <= 0xffff,
    ensures
        connected(halves.0, halves.1, capacity),
{
    async_channel::bounded(capacity)
}

/// Calls `Sender::try_send` with the message. Whether the channel takes it depends on
/// what the other half does; where it does not, the message comes back.
#[verifier::external_body]
pub(crate) fn try_send(sender: &ControlSender, message: ControlEvent) -> (unsent: Option<Unsent>)
    ensures
        answered(*sender, message, unsent),
        unsent is None || unsent == Some(Unsent::Full(message)) || unsent == Some(
            Unsent::Closed(message),
        ),
{
    match sender.try_send(message) {
        Ok(()) => None,
        Err(async_channel::TrySendError::Full(message)) => Some(Unsent::Full(message)),
        Err(async_channel::TrySendError::Closed(message)) => Some(Unsent::Closed(message)),
    }
}

/// Errors that may occur when sending messages.
#[derive(Clone, Copy, Debug, PartialEq, Eq, Structural)]
pub enum SendError {
    /// The runner has no control channel.
    RunnerNotFound(RunnerId),
    /// The control channel is full.
    ChannelFull,
    /// The control channel is closed.
    ChannelClosed,
}

impl SendError {
    /// The message of the error.
    pub fn message(&self) -> (text: String)
        ensures
            text@ == match *self {
                SendError::RunnerNotFound(id) => "Runner "@ + text::decimal(id as nat)
                    + " not found"@,
                SendError::ChannelFull => "Control channel is full"@,
                SendError::ChannelClosed => "Control channel is closed"@,
            },
    {
        match self {
            SendError::RunnerNotFound(id) => number_between("Runner ", *id as u64, " not found"),
            SendError::ChannelFull => "Control channel is full".to_string(),
            SendError::ChannelClosed => "Control channel is closed".to_string(),
        }
    }
}

impl From<Unsent> for SendError {
    fn from(unsent: Unsent) -> (error: Self) {
        match unsent {
            Unsent::Full(_) => SendError::ChannelFull,
            Unsent::Closed(_) => SendError::ChannelClosed,
        }
    }
}

impl vstd::std_specs::convert::FromSpecImpl<Unsent> for SendError {
    open spec fn obeys_from_spec() -> bool {
        true
    }

    open spec fn from_spec(unsent: Unsent) -> Self {
        match unsent {
            Unsent::Full(_) => SendError::ChannelFull,
            Unsent::Closed(_) => SendError::ChannelClosed,
        }
    }
}

/// What a message to a channel comes to: an error where the channel did not take it.
pub open spec fn delivery(
    sender: ControlSender,
    message: ControlEvent,
    result: Result<(), SendError>,
) -> bool {
    match result {
        Ok(_) => answered(sender, message, None),
        Err(SendError::ChannelFull) => answered(sender, message, Some(Unsent::Full(message))),
        Err(SendError::ChannelClosed) => answered(
            sender,
            message,
            Some(Unsent::Closed(message)),
        ),
        Err(SendError::RunnerNotFound(_)) => false,
    }
}

/// Sends a message through a channel.
pub(crate) fn deliver(sender: &ControlSender, message: ControlEvent) -> (result: Result<
    (),
    SendError,
>)
    ensures
        delivery(*sender, message, result),
{
    match try_send(sender, message) {
        None => Ok(()),
        Some(unsent) => Err(SendError::from(unsent)),
    }
}

/// The manager's end of the only runner of a task.
#[derive(Debug)]
pub struct TaskRunnerGuard {
    /// The runner.
    pub runner_id: RunnerId,
    /// Where it is told things.
    pub control_signal: ControlSender,
}

impl TaskRunnerGuard {
    /// The manager's end of a runner.
    pub fn new(runner_id: RunnerId, control_signal: ControlSender) -> (guard: Self)
        ensures
            guard == (TaskRunnerGuard { runner_id, control_signal }),
    {
        TaskRunnerGuard { runner_id, control_signal }
    }

    /// Get the runner ID associated with this guard.
    pub fn runner_id(&self) -> (runner_id: RunnerId)
        ensures
            runner_id == self.runner_id,
    {
        self.runner_id
    }

    /// Send a control message to the runner. Whether its channel takes it depends on
    /// the runner.
    pub fn send_message(&self, message: ControlEvent) -> (result: Result<(), SendError>)
        ensures
            delivery(self.control_signal, message, result),
    {
        deliver(&self.control_signal, message)
    }

    /// Create a control channel pair for a new runner.
    pub fn create_control_channel() -> (halves: (ControlSender, ControlReceiver))
        ensures
            connected(halves.0, halves.1, DEFAULT_CONTROL_CHANNEL_CAPACITY),
    {
        control_channel(DEFAULT_CONTROL_CHANNEL_CAPACITY)
    }
}

} // verus!

//! The runner: what to do with each event while a chunk is downloaded.
//!
//! A runner gathers the items of a stream in a buffer and hands full buffers to
//! the data channel. While a buffer is being handed over the stream is not read.
//! The functions here take one event at a time and say what comes next; waiting
//! for events and moving frames is left to the caller.
use crate::adapter::AdapterError;
use crate::buffer::append_part;
use crate::runner_error::{LifecycleEvent, TaskError, TaskRunError};
use crate::{buffer, RunnerId};
use bytes::{Bytes, BytesMut};
use vstd::prelude::*;

verus! {

/// The size at which the buffer is handed over: 32 KiB.
pub const BUFFER_SIZE: usize = 32 * 1024;

/// Seconds without a byte after which a stream is called slow.
pub const SLOW_STREAM_TIMEOUT_SECS: u64 = 5;

/// Seconds to wait for the data channel to be drained.
pub const DATA_DRAIN_TIMEOUT_SECS: u64 = 5;

/// Lifecycle events that fit into the channel of a runner.
pub const LIFECYCLE_CHANNEL_CAPACITY: usize = 2;

/// Data frames that fit into the channel of a runner.
pub const DATA_FRAME_CHANNEL_CAPACITY: usize = 32;

/// Bytes on their way from a runner to the manager.
#[derive(Debug)]
pub struct DataFrame {
    /// The bytes.
    pub data: Bytes,
}

/// What the manager may tell a runner.
#[derive(Clone, Copy, Debug, PartialEq, Eq, Structural)]
pub enum ControlEvent {
    /// Limit the total size of the task.
    ///
    /// The limit number should be smaller than the total size of the task.
    LimitTotal(u64),
}

/// The other side of a channel is gone.
#[derive(Clone, Copy, Debug, PartialEq, Eq, Structural)]
pub struct ChannelClosed;

/// What to do after a pending flush completes.
#[derive(Debug)]
pub enum PendingPostAction {
    /// Resume normal event loop (buffer was full, stream continues).
    Resume,
    /// Continue processing the remainder of a chunk that didn't fit in the buffer.
    ContinueItem { item: Bytes, offset: usize },
    /// Stream is finished, stop.
    FinishSuccess,
    /// Stream had an error, propagate it after flush.
    PropagateError(AdapterError),
}

/// A flush on its way, and what to do when it completes.
#[derive(Debug)]
pub struct PendingFlushState {
    /// The number of bytes being flushed.
    pub flushed_bytes: u64,
    /// What to do after.
    pub post_action: PendingPostAction,
}

/// The step of the event loop.
#[derive(Debug)]
pub enum EventLoopStep {
    /// The task is cancelled.
    Cancelled,
    /// The stream is too slow, and transferred 0 bytes for a while.
    SlowTransfer,
    /// The control signal is received, or its channel is closed.
    Control(Result<ControlEvent, ChannelClosed>),
    /// The download event is received; `None` at the end of the stream.
    Download(Option<Result<Bytes, AdapterError>>),
    /// The pending flush operation completed.
    PendingComplete(Result<(), ChannelClosed>),
}

/// What the caller is to do next.
#[derive(Debug)]
pub enum RunnerAction {
    /// Wait for the next event.
    Wait,
    /// Restart the timer for slow streams, then wait for the next event.
    ResetTimer,
    /// Push the frame into the data channel and report when that is done.
    Flush(DataFrame),
    /// The loop is over.
    Stop(Result<(), TaskRunError>),
}

/// Runner for each chunk, or single file, responsible for downloading each chunk.
#[derive(Debug)]
pub struct TaskRunner {
    /// The id of the runner.
    pub id: RunnerId,
    /// The total size of the chunk or file, `None` if the total size is unknown.
    pub total: Option<u64>,
    /// The downloaded size.
    pub downloaded: u64,
    /// The sending half of the data channel is at hand: no flush holds it.
    pub data_open: bool,
    /// The bytes that have not been handed over.
    pub buff: BytesMut,
    /// The flush on its way.
    pub pending: Option<PendingFlushState>,
    /// The first control error that came while a flush was on its way.
    pub deferred_control_error: Option<TaskRunError>,
    /// The control channel was closed while a flush was on its way.
    pub control_channel_closed: bool,
}

/// `PendingPostAction` with the bytes of the item.
pub enum PostView {
    /// Resume the event loop.
    Resume,
    /// Go on with the item.
    ContinueItem { item: Seq<u8>, offset: int },
    /// Stop.
    FinishSuccess,
    /// Stop with the error.
    PropagateError(AdapterError),
}

/// A flush on its way.
pub struct PendingView {
    /// The number of bytes being flushed.
    pub flushed: int,
    /// What to do after.
    pub post: PostView,
}

/// The state of a runner, with the buffered bytes as a sequence.
pub struct RunnerView {
    /// The total size.
    pub total: Option<u64>,
    /// The downloaded size.
    pub downloaded: int,
    /// The sending half of the data channel is at hand.
    pub data_open: bool,
    /// The buffered bytes.
    pub buff: Seq<u8>,
    /// The flush on its way.
    pub pending: Option<PendingView>,
    /// The deferred control error.
    pub deferred: Option<TaskRunError>,
    /// The control channel was closed during a flush.
    pub control_closed: bool,
}

/// `EventLoopStep` with the bytes of the item.
pub enum EventView {
    /// Cancelled.
    Cancelled,
    /// No byte for a while.
    SlowTransfer,
    /// A control signal, or the end of the control channel.
    Control(Result<ControlEvent, ChannelClosed>),
    /// An item of the stream.
    Item(Seq<u8>),
    /// An error of the stream.
    StreamFailed(AdapterError),
    /// The end of the stream.
    StreamEnded,
    /// A flush completed.
    Flushed(Result<(), ChannelClosed>),
}

/// `RunnerAction` with the bytes of the frame.
pub enum ActionView {
    /// Wait.
    Wait,
    /// Restart the timer and wait.
    ResetTimer,
    /// Push the frame.
    Flush(Seq<u8>),
    /// Stop.
    Stop(Result<(), TaskRunError>),
}

/// The post action with the bytes of the item.
pub open spec fn post_view(post: PendingPostAction) -> PostView {
    match post {
        PendingPostAction::Resume => PostView::Resume,
        PendingPostAction::ContinueItem { item, offset } => PostView::ContinueItem {
            item: buffer::contents(item),
            offset: offset as int,
        },
        PendingPostAction::FinishSuccess => PostView::FinishSuccess,
        PendingPostAction::PropagateError(error) => PostView::PropagateError(error),
    }
}

/// The event with the bytes of the item.
pub open spec fn event_view(event: EventLoopStep) -> EventView {
    match event {
        EventLoopStep::Cancelled => EventView::Cancelled,
        EventLoopStep::SlowTransfer => EventView::SlowTransfer,
        EventLoopStep::Control(signal) => EventView::Control(signal),
        EventLoopStep::Download(Some(Ok(item))) => EventView::Item(buffer::contents(item)),
        EventLoopStep::Download(Some(Err(error))) => EventView::StreamFailed(error),
        EventLoopStep::Download(None) => EventView::StreamEnded,
        EventLoopStep::PendingComplete(result) => EventView::Flushed(result),
    }
}

/// The action with the bytes of the frame.
pub open spec fn action_view(action: RunnerAction) -> ActionView {
    match action {
        RunnerAction::Wait => ActionView::Wait,
        RunnerAction::ResetTimer => ActionView::ResetTimer,
        RunnerAction::Flush(frame) => ActionView::Flush(buffer::contents(frame.data)),
        RunnerAction::Stop(result) => ActionView::Stop(result),
    }
}

impl View for TaskRunner {
    type V = RunnerView;

    open spec fn view(&self) -> RunnerView {
        RunnerView {
            total: self.total,
            downloaded: self.downloaded as int,
            data_open: self.data_open,
            buff: buffer::buffered(self.buff),
            pending: match self.pending {
                Some(state) => Some(
                    PendingView {
                        flushed: state.flushed_bytes as int,
                        post: post_view(state.post_action),
                    },
                ),
                None => None,
            },
            deferred: self.deferred_control_error,
            control_closed: self.control_channel_closed,
        }
    }
}

impl RunnerView {
    /// The buffer is within its size, and empty while a flush is on its way. The
    /// flush holds the sending half of the data channel. Control errors are kept
    /// only that long, and a closed control channel is one of them.
    pub open spec fn wf(self) -> bool {
        &&& self.buff.len() <= BUFFER_SIZE
        &&& self.downloaded >= 0
        &&& match self.pending {
            Some(state) => {
                &&& self.buff.len() == 0
                &&& !self.data_open
                &&& state.flushed >= 0
                &&& self.control_closed ==> self.deferred is Some
                &&& state.post matches PostView::ContinueItem { item, offset } ==> 0 <= offset
                    <= item.len()
            },
            None => self.data_open && self.deferred is None && !self.control_closed,
        }
    }

    /// Bytes downloaded or buffered.
    pub open spec fn reached(self) -> int {
        self.downloaded + self.buff.len()
    }

    /// The total is known and nothing more may be taken in.
    pub open spec fn is_full(self) -> bool {
        self.total matches Some(total) && self.reached() >= total
    }

    /// How many of `count` bytes may still be taken in.
    pub open spec fn accepted(self, count: int) -> int {
        match self.total {
            Some(total) => if total <= self.reached() {
                0
            } else if count <= total - self.reached() {
                count
            } else {
                total - self.reached()
            },
            None => count,
        }
    }

    /// How many of `count` bytes fit into the buffer.
    pub open spec fn fitting(self, count: int) -> int {
        if BUFFER_SIZE <= self.buff.len() {
            0
        } else if count <= BUFFER_SIZE - self.buff.len() {
            count
        } else {
            BUFFER_SIZE - self.buff.len()
        }
    }

    /// The runner with some more bytes in the buffer.
    pub open spec fn append(self, bytes: Seq<u8>) -> RunnerView {
        RunnerView { buff: self.buff + bytes, ..self }
    }

    /// Hand the buffer over and do `post` after; with an empty buffer `otherwise`.
    pub open spec fn flush_or(self, post: PostView, otherwise: ActionView) -> (
        RunnerView,
        ActionView,
    ) {
        if self.buff.len() == 0 {
            (self, otherwise)
        } else if !self.data_open {
            (self, ActionView::Stop(Err(TaskRunError::Failed(TaskError::ChannelClosed))))
        } else {
            (
                RunnerView {
                    buff: Seq::empty(),
                    data_open: false,
                    pending: Some(PendingView { flushed: self.buff.len() as int, post }),
                    ..self
                },
                ActionView::Flush(self.buff),
            )
        }
    }

    /// Hand the buffer over and stop.
    pub open spec fn finish(self) -> (RunnerView, ActionView) {
        self.flush_or(PostView::FinishSuccess, ActionView::Stop(Ok(())))
    }

    /// An item of the stream: the bytes up to the total are taken in; a full
    /// buffer is handed over, and the rest of the item follows after.
    pub open spec fn on_item(self, item: Seq<u8>) -> (RunnerView, ActionView) {
        let count = self.accepted(item.len() as int);
        let take = self.fitting(count);
        if self.is_full() {
            self.finish()
        } else if take < count {
            self.append(item.take(take)).flush_or(
                PostView::ContinueItem { item, offset: take },
                ActionView::Wait,
            )
        } else {
            let filled = self.append(item.take(count));
            if item.len() > 0 && filled.is_full() {
                filled.finish()
            } else {
                (filled, ActionView::Wait)
            }
        }
    }

    /// The rest of an item, after a full buffer was handed over.
    pub open spec fn on_rest(self, item: Seq<u8>, offset: int) -> (RunnerView, ActionView) {
        let count = self.accepted(item.len() - offset);
        let take = self.fitting(count);
        let filled = self.append(item.subrange(offset, offset + take));
        if take == 0 {
            self.finish()
        } else if filled.is_full() {
            filled.finish()
        } else if take < count {
            filled.flush_or(
                PostView::ContinueItem { item, offset: offset + take },
                ActionView::Wait,
            )
        } else {
            (filled, ActionView::ResetTimer)
        }
    }

    /// A control error: it stops the runner, or is kept until a flush on its way
    /// is done. The first one is kept.
    pub open spec fn on_control_error(self, error: TaskError) -> (RunnerView, ActionView) {
        if self.pending is Some {
            (
                RunnerView {
                    deferred: match self.deferred {
                        Some(first) => Some(first),
                        None => Some(TaskRunError::Failed(error)),
                    },
                    ..self
                },
                ActionView::Wait,
            )
        } else {
            (self, ActionView::Stop(Err(TaskRunError::Failed(error))))
        }
    }

    /// A new limit is taken over where it is below the total; otherwise it is an
    /// error. Without a total it changes nothing.
    pub open spec fn on_limit(self, limit: u64) -> (RunnerView, ActionView) {
        match self.total {
            Some(total) => if total > limit {
                (RunnerView { total: Some(limit), ..self }, ActionView::Wait)
            } else {
                self.on_control_error(TaskError::ExceededTotalSize)
            },
            None => (self, ActionView::Wait),
        }
    }

    /// A flush completed: its bytes count as downloaded. A stream error comes
    /// before a deferred control error, which comes before everything else.
    pub open spec fn on_flushed(self, result: Result<(), ChannelClosed>) -> (
        RunnerView,
        ActionView,
    ) {
        let state = self.pending->0;
        let cleared = RunnerView { pending: None, ..self };
        let arrived = RunnerView {
            data_open: true,
            downloaded: self.downloaded + state.flushed,
            ..cleared
        };
        match result {
            Err(_) => (
                cleared,
                ActionView::Stop(Err(TaskRunError::Failed(TaskError::ChannelClosed))),
            ),
            Ok(_) => match (state.post, self.deferred) {
                (PostView::PropagateError(source), _) => (
                    arrived,
                    ActionView::Stop(
                        Err(TaskRunError::Failed(TaskError::StreamError { source })),
                    ),
                ),
                (_, Some(error)) => (
                    RunnerView { deferred: None, ..arrived },
                    ActionView::Stop(Err(error)),
                ),
                (PostView::Resume, None) => (arrived, ActionView::ResetTimer),
                (PostView::FinishSuccess, None) => (arrived, ActionView::Stop(Ok(()))),
                (PostView::ContinueItem { item, offset }, None) => arrived.on_rest(item, offset),
            },
        }
    }

    /// What a runner does on an event.
    pub open spec fn step(self, event: EventView) -> (RunnerView, ActionView) {
        match event {
            EventView::Cancelled => (self, ActionView::Stop(Err(TaskRunError::Cancelled))),
            EventView::SlowTransfer => (self, ActionView::Wait),
            EventView::Control(Ok(ControlEvent::LimitTotal(limit))) => self.on_limit(limit),
            EventView::Control(Err(_)) => {
                let (after, action) = self.on_control_error(TaskError::ChannelClosed);
                (RunnerView { control_closed: self.pending is Some || self.control_closed, ..after }, action)
            },
            EventView::Item(item) => self.on_item(item),
            EventView::StreamFailed(source) => self.flush_or(
                PostView::PropagateError(source),
                ActionView::Stop(Err(TaskRunError::Failed(TaskError::StreamError { source }))),
            ),
            EventView::StreamEnded => self.finish(),
            EventView::Flushed(result) => self.on_flushed(result),
        }
    }
}

impl TaskRunner {
    /// A runner that has downloaded nothing.
    pub fn new(id: RunnerId, total: Option<u64>) -> (runner: Self)
        ensures
            runner.id == id,
            runner@ == (RunnerView {
                total,
                downloaded: 0,
                data_open: true,
                buff: Seq::empty(),
                pending: None,
                deferred: None,
                control_closed: false,
            }),
            runner@.wf(),
    {
        let runner = TaskRunner {
            id,
            total,
            downloaded: 0,
            data_open: true,
            buff: BytesMut::with_capacity(BUFFER_SIZE),
            pending: None,
            deferred_control_error: None,
            control_channel_closed: false,
        };
        assert(runner@.buff =~= Seq::empty());
        runner
    }

    /// Handle the control signal from the manager: a limit below the total is
    /// taken over, another one is an error.
    pub fn handle_control_signal(&mut self, signal: &ControlEvent) -> (result: Result<
        (),
        TaskError,
    >)
        ensures
            match (old(self).total, *signal) {
                (Some(total), ControlEvent::LimitTotal(limit)) => if total > limit {
                    &&& result == Ok::<(), TaskError>(())
                    &&& *final(self) == (TaskRunner { total: Some(limit), ..*old(self) })
                } else {
                    &&& result == Err::<(), TaskError>(TaskError::ExceededTotalSize)
                    &&& *final(self) == *old(self)
                },
                (None, _) => result == Ok::<(), TaskError>(()) && *final(self) == *old(self),
            },
    {
        match signal {
            ControlEvent::LimitTotal(new_total) => {
                if let Some(current_total) = self.total {
                    if current_total > *new_total {
                        self.total = Some(*new_total);
                    } else {
                        return Err(TaskError::ExceededTotalSize);
                    }
                }
            },
        }
        Ok(())
    }

    /// Take the buffered bytes as a frame to be pushed. An empty buffer gives
    /// none; without the sending half of the data channel it is an error.
    pub fn flush_buff(&mut self) -> (result: Result<Option<DataFrame>, TaskRunError>)
        ensures
            final(self).id == old(self).id,
            final(self).pending == old(self).pending,
            if old(self)@.buff.len() == 0 {
                result == Ok::<Option<DataFrame>, TaskRunError>(None) && final(self)@ == old(self)@
            } else if !old(self).data_open {
                &&& result == Err::<Option<DataFrame>, TaskRunError>(
                    TaskRunError::Failed(TaskError::ChannelClosed),
                )
                &&& final(self)@ == old(self)@
            } else {
                &&& result matches Ok(Some(frame)) && buffer::contents(frame.data) == old(
                    self)@.buff
                &&& final(self)@ == (RunnerView {
                    data_open: false,
                    buff: Seq::empty(),
                    ..old(self)@
                })
            },
    {
        if !self.buff.is_empty() {
            if !self.data_open {
                return Err(TaskRunError::Failed(TaskError::ChannelClosed));
            }
            self.data_open = false;
            let data = self.buff.split().freeze();
            assert(self@.buff =~= Seq::empty());
            return Ok(Some(DataFrame { data }));
        }
        Ok(None)
    }

    /// Hand the buffer over and do `post_action` after; with an empty buffer
    /// `otherwise`.
    fn flush_or(&mut self, post_action: PendingPostAction, otherwise: RunnerAction) -> (action:
        RunnerAction)
        requires
            old(self)@.pending is None,
            otherwise !is Flush,
        ensures
            final(self).id == old(self).id,
            (final(self)@, action_view(action)) == old(self)@.flush_or(
                post_view(post_action),
                action_view(otherwise),
            ),
    {
        let count = self.buff.len() as u64;
        match self.flush_buff() {
            Ok(Some(frame)) => {
                self.pending = Some(PendingFlushState { flushed_bytes: count, post_action });
                RunnerAction::Flush(frame)
            },
            Ok(None) => otherwise,
            Err(error) => RunnerAction::Stop(Err(error)),
        }
    }

    /// Hand the buffer over and stop.
    fn finish(&mut self) -> (action: RunnerAction)
        requires
            old(self)@.pending is None,
        ensures
            final(self).id == old(self).id,
            (final(self)@, action_view(action)) == old(self)@.finish(),
    {
        self.flush_or(PendingPostAction::FinishSuccess, RunnerAction::Stop(Ok(())))
    }

    /// Whether the total is known and nothing more may be taken in.
    fn is_full(&self) -> (full: bool)
        requires
            self@.reached() <= u64::MAX,
        ensures
            full == self@.is_full(),
    {
        match self.total {
            Some(total) => self.downloaded + self.buff.len() as u64 >= total,
            None => false,
        }
    }

    /// How many of `count` bytes may still be taken in.
    fn accepted(&self, count: usize) -> (accepted: usize)
        requires
            self@.reached() <= u64::MAX,
        ensures
            accepted == self@.accepted(count as int),
    {
        match self.total {
            Some(total) => {
                let reached = self.downloaded + self.buff.len() as u64;
                let remaining: u64 = if total >= reached {
                    total - reached
                } else {
                    0
                };
                if (count as u64) <= remaining {
                    count
                } else {
                    remaining as usize
                }
            },
            None => count,
        }
    }

    /// How many of `count` bytes fit into the buffer.
    fn fitting(&self, count: usize) -> (fitting: usize)
        ensures
            fitting == self@.fitting(count as int),
    {
        let used = self.buff.len();
        let space: usize = if used <= BUFFER_SIZE {
            BUFFER_SIZE - used
        } else {
            0
        };
        if count <= space {
            count
        } else {
            space
        }
    }

    /// Handle the stream event: take the bytes of an item in, hand a full buffer
    /// over, and stop at the end of the stream or at the total.
    pub fn handle_stream_event(&mut self, event: Option<Result<Bytes, AdapterError>>) -> (action:
        RunnerAction)
        requires
            old(self)@.wf(),
            old(self)@.pending is None,
            event matches Some(Ok(item)) ==> old(self)@.reached() + buffer::contents(item).len()
                <= u64::MAX,
            old(self)@.reached() <= u64::MAX,
        ensures
            final(self).id == old(self).id,
            (final(self)@, action_view(action)) == old(self)@.step(
                event_view(EventLoopStep::Download(event)),
            ),
    {
        match event {
            Some(Ok(item)) => {
                if self.is_full() {
                    return self.finish();
                }
                if item.is_empty() {
                    assert(self@.append(buffer::contents(item).take(0)).buff =~= self@.buff);
                    return RunnerAction::Wait;
                }
                let count = self.accepted(item.len());
                let take = self.fitting(count);
                append_part(&mut self.buff, &item, 0..take);
                assert(buffer::contents(item).subrange(0, take as int) =~= buffer::contents(
                    item,
                ).take(take as int));
                if take < count {
                    return self.flush_or(
                        PendingPostAction::ContinueItem { item, offset: take },
                        RunnerAction::Wait,
                    );
                }
                if self.is_full() {
                    return self.finish();
                }
                RunnerAction::Wait
            },
            Some(Err(source)) => {
                if self.buff.is_empty() {
                    RunnerAction::Stop(Err(TaskRunError::Failed(TaskError::StreamError { source })))
                } else {
                    self.flush_or(PendingPostAction::PropagateError(source), RunnerAction::Wait)
                }
            },
            None => self.finish(),
        }
    }

    /// Go on with an item after a full buffer was handed over.
    fn continue_item(&mut self, item: Bytes, offset: usize) -> (action: RunnerAction)
        requires
            old(self)@.buff.len() == 0,
            old(self)@.pending is None,
            offset <= buffer::contents(item).len(),
            old(self)@.reached() + buffer::contents(item).len() - offset <= u64::MAX,
        ensures
            final(self).id == old(self).id,
            (final(self)@, action_view(action)) == old(self)@.on_rest(
                buffer::contents(item),
                offset as int,
            ),
    {
        let count = self.accepted(item.len() - offset);
        let take = self.fitting(count);
        if take == 0 {
            return self.finish();
        }
        append_part(&mut self.buff, &item, offset..offset + take);
        if self.is_full() {
            return self.finish();
        }
        if take < count {
            return self.flush_or(
                PendingPostAction::ContinueItem { item, offset: offset + take },
                RunnerAction::Wait,
            );
        }
        RunnerAction::ResetTimer
    }

    /// A control error: it stops the runner, or is kept until a flush on its way
    /// is done.
    fn control_error(&mut self, error: TaskError) -> (action: RunnerAction)
        ensures
            final(self).id == old(self).id,
            (final(self)@, action_view(action)) == old(self)@.on_control_error(error),
    {
        if self.pending.is_some() {
            if self.deferred_control_error.is_none() {
                self.deferred_control_error = Some(TaskRunError::Failed(error));
            }
            RunnerAction::Wait
        } else {
            RunnerAction::Stop(Err(TaskRunError::Failed(error)))
        }
    }

    /// One turn of the event loop.
    pub fn step(&mut self, event: EventLoopStep) -> (action: RunnerAction)
        requires
            old(self)@.wf(),
            event_fits(old(self)@, event_view(event)),
        ensures
            final(self).id == old(self).id,
            if event is PendingComplete && old(self)@.pending is None {
                &&& final(self)@ == old(self)@
                &&& stopped_without_flush(action)
            } else {
                (final(self)@, action_view(action)) == old(self)@.step(event_view(event))
            },
            action !is Stop ==> final(self)@.wf(),
    {
        match event {
            EventLoopStep::Cancelled => RunnerAction::Stop(Err(TaskRunError::Cancelled)),
            EventLoopStep::SlowTransfer => RunnerAction::Wait,
            EventLoopStep::Control(Ok(signal)) => {
                match self.handle_control_signal(&signal) {
                    Ok(()) => RunnerAction::Wait,
                    Err(error) => self.control_error(error),
                }
            },
            EventLoopStep::Control(Err(_)) => {
                if self.pending.is_some() {
                    self.control_channel_closed = true;
                }
                self.control_error(TaskError::ChannelClosed)
            },
            EventLoopStep::Download(event) => self.handle_stream_event(event),
            EventLoopStep::PendingComplete(result) => {
                let state = match self.pending.take() {
                    Some(state) => state,
                    None => {
                        let message = "pending flush completed without pending state".to_string();
                        return RunnerAction::Stop(
                            Err(TaskRunError::Failed(TaskError::Other { message })),
                        );
                    },
                };
                if result.is_err() {
                    return RunnerAction::Stop(Err(TaskRunError::Failed(TaskError::ChannelClosed)));
                }
                self.data_open = true;
                self.downloaded = self.downloaded + state.flushed_bytes;
                if let PendingPostAction::PropagateError(source) = state.post_action {
                    return RunnerAction::Stop(
                        Err(TaskRunError::Failed(TaskError::StreamError { source })),
                    );
                }
                if let Some(error) = self.deferred_control_error.take() {
                    return RunnerAction::Stop(Err(error));
                }
                match state.post_action {
                    PendingPostAction::Resume => RunnerAction::ResetTimer,
                    PendingPostAction::ContinueItem { item, offset } => self.continue_item(
                        item,
                        offset,
                    ),
                    PendingPostAction::FinishSuccess => RunnerAction::Stop(Ok(())),
                    PendingPostAction::PropagateError(source) => RunnerAction::Stop(
                        Err(TaskRunError::Failed(TaskError::StreamError { source })),
                    ),
                }
            },
        }
    }

    /// The result of a loop that has stopped: the downloaded size is held against
    /// the total.
    pub fn conclude(&self, result: Result<(), TaskRunError>) -> (concluded: Result<
        (),
        TaskRunError,
    >)
        ensures
            concluded == concluded_result(self.total, self.downloaded, result),
    {
        if result.is_err() {
            return result;
        }
        match self.total {
            Some(total) => {
                if total == self.downloaded {
                    Ok(())
                } else if total > self.downloaded {
                    Err(TaskRunError::Failed(TaskError::SmallerThanTotalSize))
                } else {
                    Err(TaskRunError::Failed(TaskError::ExceededTotalSize))
                }
            },
            None => {
                if self.downloaded > 0 {
                    Ok(())
                } else {
                    Err(TaskRunError::Failed(TaskError::Empty))
                }
            },
        }
    }
}

/// An event that may come in a state: items only while no flush is on its way, and
/// the end of a flush only then. Sizes stay within 64 bits.
pub open spec fn event_fits(runner: RunnerView, event: EventView) -> bool {
    match event {
        EventView::Item(item) => runner.pending is None && runner.reached() + item.len()
            <= u64::MAX,
        EventView::StreamFailed(_) | EventView::StreamEnded => runner.pending is None
            && runner.reached() <= u64::MAX,
        EventView::Flushed(_) => match runner.pending {
            Some(state) => runner.downloaded + state.flushed + (match state.post {
                PostView::ContinueItem { item, offset } => item.len() - offset,
                _ => 0,
            }) <= u64::MAX,
            None => true,
        },
        _ => true,
    }
}

/// A flush was reported that nobody waits for.
pub open spec fn stopped_without_flush(action: RunnerAction) -> bool {
    &&& action matches RunnerAction::Stop(Err(TaskRunError::Failed(TaskError::Other { message })))
    &&& message@ == "pending flush completed without pending state"@
}

/// What a stopped loop amounts to: an error stays; otherwise the downloaded size
/// must be the total, or anything but zero where the total is unknown.
pub open spec fn concluded_result(
    total: Option<u64>,
    downloaded: u64,
    result: Result<(), TaskRunError>,
) -> Result<(), TaskRunError> {
    match (result, total) {
        (Err(error), _) => Err(error),
        (Ok(_), Some(size)) => if size == downloaded {
            Ok(())
        } else if size > downloaded {
            Err(TaskRunError::Failed(TaskError::SmallerThanTotalSize))
        } else {
            Err(TaskRunError::Failed(TaskError::ExceededTotalSize))
        },
        (Ok(_), None) => if downloaded > 0 {
            Ok(())
        } else {
            Err(TaskRunError::Failed(TaskError::Empty))
        },
    }
}

/// A runner that goes on is well formed.
pub proof fn step_keeps_wf(runner: RunnerView, event: EventView)
    requires
        runner.wf(),
        event_fits(runner, event),
        event is Flushed ==> runner.pending is Some,
    ensures
        runner.step(event).1 !is Stop ==> runner.step(event).0.wf(),
{
    match event {
        EventView::Item(item) => {
            let count = runner.accepted(item.len() as int);
            let take = runner.fitting(count);
            assert(0 <= take <= count <= item.len());
            assert(item.take(take).len() == take && item.take(count).len() == count);
        },
        EventView::Flushed(Ok(_)) => {
            let state = runner.pending->0;
            let arrived = RunnerView {
                data_open: true,
                downloaded: runner.downloaded + state.flushed,
                pending: None,
                ..runner
            };
            if let PostView::ContinueItem { item, offset } = state.post {
                let count = arrived.accepted(item.len() - offset);
                let take = arrived.fitting(count);
                assert(0 <= take <= count <= item.len() - offset);
            }
        },
        _ => {},
    }
}

/// How the wait for an empty data channel ended.
#[derive(Clone, Copy, Debug, PartialEq, Eq, Structural)]
pub enum DataDrainOutcome {
    /// All frames were taken, or nobody is left to take them.
    Drained,
    /// The runner was cancelled.
    Cancelled,
    /// The frames were not taken in time.
    TimedOut,
}

/// The frames that a runner has pushed matter for its result.
pub open spec fn drain_matters(result: Result<(), TaskRunError>) -> bool {
    match result {
        Ok(_) => true,
        Err(TaskRunError::Failed(TaskError::ExceededTotalSize)) => true,
        Err(TaskRunError::Failed(TaskError::StreamError { .. })) => true,
        _ => false,
    }
}

/// What a result becomes when the wait for the data channel has ended.
pub open spec fn drained_result(
    result: Result<(), TaskRunError>,
    outcome: DataDrainOutcome,
) -> Result<(), TaskRunError> {
    match outcome {
        DataDrainOutcome::Drained => result,
        DataDrainOutcome::Cancelled => Err(TaskRunError::Cancelled),
        DataDrainOutcome::TimedOut => Err(TaskRunError::Failed(TaskError::Timeout)),
    }
}

/// What the manager is told of a result.
pub open spec fn reported(result: Result<(), TaskRunError>) -> LifecycleEvent {
    match result {
        Ok(_) => LifecycleEvent::Stopped(crate::runner_error::StoppedReason::Finished),
        Err(TaskRunError::Cancelled) => LifecycleEvent::Stopped(
            crate::runner_error::StoppedReason::Failed(TaskError::Cancelled),
        ),
        Err(TaskRunError::Failed(error)) => LifecycleEvent::Stopped(
            crate::runner_error::StoppedReason::Failed(error),
        ),
    }
}

impl TaskRunner {
    /// Whether to wait for the data channel to be drained before the result is
    /// reported.
    pub fn should_wait_data_drain(result: &Result<(), TaskRunError>) -> (wait: bool)
        ensures
            wait == drain_matters(*result),
    {
        match result {
            Ok(()) => true,
            Err(TaskRunError::Failed(TaskError::ExceededTotalSize)) => true,
            Err(TaskRunError::Failed(TaskError::StreamError { .. })) => true,
            _ => false,
        }
    }

    /// Whether the wait for the data channel is over before it begins: there is
    /// nothing to wait for without the sending half or without a receiver, and a
    /// cancelled runner does not wait. `None` where it has to wait.
    pub fn drained_already(&self, cancelled: bool, receiver_gone: bool) -> (outcome: Option<
        DataDrainOutcome,
    >)
        ensures
            outcome == if !self.data_open {
                Some(DataDrainOutcome::Drained)
            } else if cancelled {
                Some(DataDrainOutcome::Cancelled)
            } else if receiver_gone {
                Some(DataDrainOutcome::Drained)
            } else {
                None
            },
    {
        if !self.data_open {
            return Some(DataDrainOutcome::Drained);
        }
        if cancelled {
            return Some(DataDrainOutcome::Cancelled);
        }
        if receiver_gone {
            return Some(DataDrainOutcome::Drained);
        }
        None
    }

    /// The result after the wait for the data channel. Frames that were not taken
    /// in time are reported as a timeout, so that their bytes are tried again.
    pub fn after_drain(result: Result<(), TaskRunError>, outcome: DataDrainOutcome) -> (after:
        Result<(), TaskRunError>)
        ensures
            after == drained_result(result, outcome),
    {
        match outcome {
            DataDrainOutcome::Drained => result,
            DataDrainOutcome::Cancelled => Err(TaskRunError::Cancelled),
            DataDrainOutcome::TimedOut => Err(TaskRunError::Failed(TaskError::Timeout)),
        }
    }

    /// What the manager is told of a result.
    pub fn report(result: Result<(), TaskRunError>) -> (event: LifecycleEvent)
        ensures
            event == reported(result),
    {
        match result {
            Ok(()) => LifecycleEvent::finished(),
            Err(TaskRunError::Cancelled) => LifecycleEvent::failed(TaskError::Cancelled),
            Err(TaskRunError::Failed(error)) => LifecycleEvent::failed(error),
        }
    }
}

/// The bytes of a stream that count: all of them, or those up to the total.
pub open spec fn capped(bytes: Seq<u8>, total: Option<u64>) -> Seq<u8> {
    match total {
        Some(size) => if bytes.len() <= size {
            bytes
        } else {
            bytes.take(size as int)
        },
        None => bytes,
    }
}

/// The part of an item that waits for a flush to complete.
pub open spec fn waiting(runner: RunnerView) -> Seq<u8> {
    match runner.pending {
        Some(state) => match state.post {
            PostView::ContinueItem { item, offset } => item.skip(offset),
            _ => Seq::empty(),
        },
        None => Seq::empty(),
    }
}

/// `sent` was handed over, `frame` is on its way, and together with what the
/// runner holds these are the bytes of `fed`, as far as they count.
pub open spec fn accounts_for(
    runner: RunnerView,
    sent: Seq<u8>,
    frame: Seq<u8>,
    fed: Seq<u8>,
) -> bool {
    &&& runner.downloaded == sent.len()
    &&& frame.len() == (match runner.pending {
        Some(state) => state.flushed,
        None => 0,
    })
    &&& runner.total matches Some(total) ==> sent.len() + frame.len() + runner.buff.len() <= total
    &&& capped(sent + frame + runner.buff + waiting(runner), runner.total) == capped(
        fed,
        runner.total,
    )
}

/// Law: a fresh runner has nothing in hand.
pub proof fn account_at_start(total: Option<u64>)
    ensures
        accounts_for(
            RunnerView {
                total,
                downloaded: 0,
                data_open: true,
                buff: Seq::empty(),
                pending: None,
                deferred: None,
                control_closed: false,
            },
            Seq::empty(),
            Seq::empty(),
            Seq::empty(),
        ),
{
    let none = Seq::<u8>::empty();
    assert(none + none + none + none =~= none);
}

/// Law: no byte of an item is lost, moved or taken in beyond the total. The frame
/// to be pushed, if there is one, is what was in the buffer.
pub proof fn account_after_item(
    runner: RunnerView,
    sent: Seq<u8>,
    fed: Seq<u8>,
    item: Seq<u8>,
)
    requires
        runner.wf(),
        runner.pending is None,
        accounts_for(runner, sent, Seq::empty(), fed),
    ensures
        ({
            let (after, action) = runner.step(EventView::Item(item));
            let frame = if action is Flush {
                action->Flush_0
            } else {
                Seq::empty()
            };
            &&& action !is Stop ==> accounts_for(after, sent, frame, fed + item)
            &&& action is Stop ==> action == ActionView::Stop(Ok::<(), TaskRunError>(()))
                && sent == capped(fed + item, runner.total)
        }),
{
    let none = Seq::<u8>::empty();
    let (after, action) = runner.step(EventView::Item(item));
    let held = sent + runner.buff;
    assert(sent + none + runner.buff + waiting(runner) =~= held);
    let count = runner.accepted(item.len() as int);
    let take = runner.fitting(count);
    assert(0 <= take <= count <= item.len());
    capped_extension(held, fed, item, runner.total);
    if runner.is_full() {
        assert(capped(held + item, runner.total) =~= held);
        if runner.buff.len() == 0 {
            assert(held =~= sent);
        } else {
            assert(sent + runner.buff + none + none =~= held);
            assert(capped(held, runner.total) =~= held);
        }
    } else if take < count {
        let part = runner.append(item.take(take));
        assert(item.take(take).len() == take);
        assert(part.buff.len() == BUFFER_SIZE);
        assert(sent + part.buff + none + item.skip(take) =~= held + item);
    } else {
        let filled = runner.append(item.take(count));
        assert(item.take(count).len() == count);
        assert(capped(sent + none + filled.buff + none, runner.total) =~= capped(
            held + item,
            runner.total,
        )) by {
            assert(sent + none + filled.buff + none =~= held + item.take(count));
            if count < item.len() {
                assert((held + item).take(held.len() + count) =~= held + item.take(count));
            } else {
                assert(item.take(count) =~= item);
            }
        }
        assert(sent + filled.buff + none + none =~= sent + none + filled.buff + none);
    }
}

/// Law: when a flush completes, its frame has been handed over and the rest of the
/// item follows in order. A runner that then stops without an error has handed
/// over every byte that counts.
pub proof fn account_after_flush(
    runner: RunnerView,
    sent: Seq<u8>,
    frame: Seq<u8>,
    fed: Seq<u8>,
)
    requires
        runner.wf(),
        runner.pending is Some,
        runner.deferred is None,
        (runner.pending->0).post !is PropagateError,
        accounts_for(runner, sent, frame, fed),
    ensures
        ({
            let (after, action) = runner.step(EventView::Flushed(Ok(())));
            let next = if action is Flush {
                action->Flush_0
            } else {
                Seq::empty()
            };
            &&& action !is Stop ==> accounts_for(after, sent + frame, next, fed)
            &&& action is Stop ==> action == ActionView::Stop(Ok::<(), TaskRunError>(()))
                && sent + frame == capped(fed, runner.total)
        }),
{
    let none = Seq::<u8>::empty();
    let state = runner.pending->0;
    let arrived = RunnerView {
        data_open: true,
        downloaded: runner.downloaded + state.flushed,
        pending: None,
        ..runner
    };
    let now = sent + frame;
    assert(sent + frame + runner.buff + waiting(runner) =~= now + waiting(runner));
    match state.post {
        PostView::ContinueItem { item, offset } => {
            let count = arrived.accepted(item.len() - offset);
            let take = arrived.fitting(count);
            assert(0 <= take <= count <= item.len() - offset);
            let part = item.subrange(offset, offset + take);
            let filled = arrived.append(part);
            assert(part.len() == take);
            assert(filled.buff =~= part);
            if take == 0 {
                assert(arrived.buff.len() == 0);
                assert(capped(now + item.skip(offset), runner.total) =~= now);
            } else if filled.is_full() {
                assert(now + part + none + none =~= now + part);
                assert(capped(now + item.skip(offset), runner.total) =~= now + part);
                assert(capped(now + part, runner.total) =~= now + part);
            } else if take < count {
                assert(now + part + none + item.skip(offset + take) =~= now + item.skip(offset));
            } else {
                assert(count == item.len() - offset);
                assert(now + none + part + none =~= now + item.skip(offset));
            }
        },
        _ => {
            assert(now + none =~= now);
            assert(now + none + arrived.buff + none =~= now);
            assert(capped(now, runner.total) =~= now);
        },
    }
}

/// Law: at the end of the stream the buffer is handed over; with nothing in it
/// every byte that counts has been.
pub proof fn account_at_end(runner: RunnerView, sent: Seq<u8>, fed: Seq<u8>)
    requires
        runner.wf(),
        runner.pending is None,
        accounts_for(runner, sent, Seq::empty(), fed),
    ensures
        ({
            let (after, action) = runner.step(EventView::StreamEnded);
            &&& action !is Stop ==> action is Flush && accounts_for(
                after,
                sent,
                action->Flush_0,
                fed,
            )
            &&& action is Stop ==> action == ActionView::Stop(Ok::<(), TaskRunError>(()))
                && sent == capped(fed, runner.total)
        }),
{
    let none = Seq::<u8>::empty();
    assert(sent + none + runner.buff + none =~= sent + runner.buff + none + none);
    if runner.buff.len() == 0 {
        assert(sent + none + runner.buff + none =~= sent);
        assert(capped(sent, runner.total) =~= sent);
    }
}

/// What counts of two streams stays equal when both are extended alike.
proof fn capped_extension(a: Seq<u8>, b: Seq<u8>, more: Seq<u8>, total: Option<u64>)
    requires
        capped(a, total) == capped(b, total),
    ensures
        capped(a + more, total) == capped(b + more, total),
{
    match total {
        Some(size) => {
            if a.len() <= size && b.len() <= size {
                assert(a == b);
            } else {
                assert(capped(a, total).len() == capped(b, total).len());
                assert(a.len() >= size && b.len() >= size);
                assert(capped(a, total) =~= a.take(size as int));
                assert(capped(b, total) =~= b.take(size as int));
                assert(capped(a + more, total) =~= a.take(size as int));
                assert(capped(b + more, total) =~= b.take(size as int));
            }
        },
        None => {},
    }
}

/// Law: a limit that lies beyond what the runner has taken in loses nothing below it.
pub proof fn account_after_limit(
    runner: RunnerView,
    sent: Seq<u8>,
    frame: Seq<u8>,
    fed: Seq<u8>,
    limit: u64,
)
    requires
        accounts_for(runner, sent, frame, fed),
        runner.total matches Some(total) && limit < total,
        sent.len() + frame.len() + runner.buff.len() <= limit,
    ensures
        ({
            let (after, action) = runner.step(EventView::Control(Ok(ControlEvent::LimitTotal(limit))));
            &&& action == ActionView::Wait
            &&& after == (RunnerView { total: Some(limit), ..runner })
            &&& accounts_for(after, sent, frame, fed)
        }),
{
    let held = sent + frame + runner.buff + waiting(runner);
    assert(capped(held, Some(limit)) =~= capped(capped(held, runner.total), Some(limit)));
    assert(capped(fed, Some(limit)) =~= capped(capped(fed, runner.total), Some(limit)));
}

/// A runner that has downloaded nothing.
pub open spec fn fresh_runner(total: Option<u64>) -> RunnerView {
    RunnerView {
        total,
        downloaded: 0,
        data_open: true,
        buff: Seq::empty(),
        pending: None,
        deferred: None,
        control_closed: false,
    }
}

/// The runner after some events.
pub open spec fn after_events(start: RunnerView, events: Seq<EventView>) -> RunnerView
    decreases events.len(),
{
    if events.len() == 0 {
        start
    } else {
        after_events(start, events.drop_last()).step(events.last()).0
    }
}

/// What the runner asks for on the last of some events.
pub open spec fn last_action(start: RunnerView, events: Seq<EventView>) -> ActionView {
    if events.len() == 0 {
        ActionView::Wait
    } else {
        after_events(start, events.drop_last()).step(events.last()).1
    }
}

/// The bytes of all frames to be pushed, one after another.
pub open spec fn pushed_bytes(start: RunnerView, events: Seq<EventView>) -> Seq<u8>
    decreases events.len(),
{
    if events.len() == 0 {
        Seq::empty()
    } else {
        pushed_bytes(start, events.drop_last()) + frame_of(last_action(start, events))
    }
}

/// The bytes of all items of the stream, one after another.
pub open spec fn stream_bytes(events: Seq<EventView>) -> Seq<u8>
    decreases events.len(),
{
    if events.len() == 0 {
        Seq::empty()
    } else {
        stream_bytes(events.drop_last()) + item_of(events.last())
    }
}

/// The events can happen one after another: each fits the state, and none follows a
/// stop.
pub open spec fn can_happen(start: RunnerView, events: Seq<EventView>) -> bool
    decreases events.len(),
{
    events.len() > 0 ==> {
        let earlier = events.drop_last();
        let runner = after_events(start, earlier);
        &&& can_happen(start, earlier)
        &&& last_action(start, earlier) !is Stop
        &&& event_fits(runner, events.last())
        &&& events.last() is Flushed ==> runner.pending is Some
    }
}

/// What was pushed and what is in the buffer begins as the stream does. With what waits
/// for a flush it is the whole stream, or else it has reached the total.
pub open spec fn in_order(runner: RunnerView, pushed: Seq<u8>, fed: Seq<u8>) -> bool {
    let held = pushed + runner.buff;
    &&& pushed.len() == runner.downloaded + (match runner.pending {
        Some(state) => state.flushed,
        None => 0,
    })
    &&& held.len() <= fed.len()
    &&& held == fed.take(held.len() as int)
    &&& held + waiting(runner) == fed || (runner.total matches Some(total) && held.len() >= total)
}

/// The item that an event brings.
pub open spec fn item_of(event: EventView) -> Seq<u8> {
    match event {
        EventView::Item(item) => item,
        _ => Seq::empty(),
    }
}

/// The frame that an action pushes.
pub open spec fn frame_of(action: ActionView) -> Seq<u8> {
    match action {
        ActionView::Flush(frame) => frame,
        _ => Seq::empty(),
    }
}

/// One more item keeps the order.
proof fn item_keeps_order(runner: RunnerView, item: Seq<u8>, pushed: Seq<u8>, fed: Seq<u8>)
    requires
        runner.wf(),
        runner.pending is None,
        in_order(runner, pushed, fed),
    ensures
        ({
            let (after, action) = runner.on_item(item);
            &&& action !is Stop ==> in_order(after, pushed + frame_of(action), fed + item)
            &&& action is Stop ==> pushed.len() == after.downloaded && after.total
                == runner.total && runner.total is Some && pushed.len() >= runner.total->0
        }),
{
    let none = Seq::<u8>::empty();
    let held = pushed + runner.buff;
    let all = fed + item;
    let (after, action) = runner.on_item(item);
    let count = runner.accepted(item.len() as int);
    let take = runner.fitting(count);
    assert(0 <= take <= count <= item.len());
    assert(held + waiting(runner) =~= held);
    assert(pushed + none =~= pushed);
    assert(fed.take(held.len() as int) =~= all.take(held.len() as int));
    if runner.is_full() {
        assert(pushed + runner.buff + none =~= held);
    } else {
        assert(held == fed);
        if take < count {
            let part = item.take(take);
            assert(part.len() == take);
            let filled = runner.append(part);
            assert(filled.buff.len() == BUFFER_SIZE);
            assert(pushed + filled.buff + none =~= held + part);
            assert(held + part =~= all.take(held.len() + take));
            assert(pushed + filled.buff + none + item.skip(take) =~= all);
        } else {
            let part = item.take(count);
            assert(part.len() == count);
            let filled = runner.append(part);
            assert(pushed + filled.buff =~= held + part);
            assert(held + part =~= all.take(held.len() + count));
            assert(pushed + filled.buff + none =~= pushed + filled.buff);
            if count == item.len() {
                assert(pushed + filled.buff + none =~= all);
                assert(pushed + filled.buff + none + none =~= all);
            }
        }
    }
}

/// The end of a flush keeps the order.
proof fn flush_keeps_order(runner: RunnerView, pushed: Seq<u8>, fed: Seq<u8>)
    requires
        runner.wf(),
        runner.pending is Some,
        in_order(runner, pushed, fed),
    ensures
        ({
            let (after, action) = runner.on_flushed(Ok(()));
            &&& action !is Stop ==> in_order(after, pushed + frame_of(action), fed)
            &&& action == ActionView::Stop(Ok::<(), TaskRunError>(())) ==> pushed.len()
                == after.downloaded && after.total == runner.total && (pushed == fed || (
            runner.total is Some && pushed.len() >= runner.total->0))
        }),
{
    let none = Seq::<u8>::empty();
    let state = runner.pending->0;
    let (after, action) = runner.on_flushed(Ok(()));
    let arrived = RunnerView {
        data_open: true,
        downloaded: runner.downloaded + state.flushed,
        pending: None,
        ..runner
    };
    let held = pushed + runner.buff;
    assert(held =~= pushed);
    assert(pushed + none =~= pushed);
    assert(pushed + none + none =~= pushed);
    if runner.deferred is None {
        if let PostView::ContinueItem { item, offset } = state.post {
            let count = arrived.accepted(item.len() - offset);
            let take = arrived.fitting(count);
            assert(0 <= take <= count <= item.len() - offset);
            let part = item.subrange(offset, offset + take);
            let filled = arrived.append(part);
            assert(part.len() == take);
            assert(filled.buff =~= part);
            if take == 0 {
                if !arrived.is_full() {
                    assert(item.skip(offset) =~= none);
                }
            } else {
                assert(!arrived.is_full());
                assert(pushed + item.skip(offset) == fed);
                assert(pushed + part =~= fed.take(pushed.len() + take));
                assert(pushed + part + none =~= pushed + part);
                if take < count && !filled.is_full() {
                    assert(pushed + part + none + item.skip(offset + take) =~= fed);
                }
                if take == count && !filled.is_full() {
                    assert(count == item.len() - offset);
                    assert(pushed + none + part + none =~= fed);
                }
                if filled.is_full() {
                    assert((pushed + part).len() >= runner.total->0);
                }
            }
        }
    }
}

/// One more event keeps the order, or stops the runner. Where it stops without an
/// error, all of the stream has been pushed, or the total is reached.
pub proof fn event_keeps_order(
    runner: RunnerView,
    event: EventView,
    pushed: Seq<u8>,
    fed: Seq<u8>,
)
    requires
        runner.wf(),
        event_fits(runner, event),
        event is Flushed ==> runner.pending is Some,
        in_order(runner, pushed, fed),
    ensures
        ({
            let (after, action) = runner.step(event);
            &&& action !is Stop ==> after.wf() && in_order(
                after,
                pushed + frame_of(action),
                fed + item_of(event),
            )
            &&& action == ActionView::Stop(Ok::<(), TaskRunError>(())) ==> pushed.len()
                == after.downloaded && (pushed == fed + item_of(event) || (after.total is Some
                && pushed.len() >= after.total->0))
        }),
{
    let none = Seq::<u8>::empty();
    let (after, action) = runner.step(event);
    let held = pushed + runner.buff;
    assert(pushed + none =~= pushed);
    assert(fed + none =~= fed);
    assert(held + none =~= held);
    step_keeps_wf(runner, event);
    match event {
        EventView::Item(item) => {
            item_keeps_order(runner, item, pushed, fed);
        },
        EventView::StreamEnded | EventView::StreamFailed(_) => {
            if action is Flush {
                assert(pushed + runner.buff + none =~= held);
            } else {
                assert(held =~= pushed);
                assert(fed.take(fed.len() as int) =~= fed);
            }
        },
        EventView::Flushed(Ok(_)) => {
            flush_keeps_order(runner, pushed, fed);
        },
        _ => {},
    }
}

/// Events that can happen keep the order, as long as the runner does not stop.
pub proof fn events_keep_order(total: Option<u64>, events: Seq<EventView>)
    requires
        can_happen(fresh_runner(total), events),
        last_action(fresh_runner(total), events) !is Stop,
    ensures
        after_events(fresh_runner(total), events).wf(),
        in_order(
            after_events(fresh_runner(total), events),
            pushed_bytes(fresh_runner(total), events),
            stream_bytes(events),
        ),
    decreases events.len(),
{
    let start = fresh_runner(total);
    if events.len() == 0 {
        let none = Seq::<u8>::empty();
        assert(none + none =~= none);
        assert(none.take(0) =~= none);
    } else {
        let earlier = events.drop_last();
        events_keep_order(total, earlier);
        event_keeps_order(
            after_events(start, earlier),
            events.last(),
            pushed_bytes(start, earlier),
            stream_bytes(earlier),
        );
    }
}

/// Law: over a whole run the frames that a runner pushes, one after another, are the
/// bytes of its stream, in order and from the start. Where the run stops without an
/// error, each of them has been handed over, and they are all of the stream up to the
/// total, or exceed a total that was lowered too late.
pub proof fn frames_are_the_stream(total: Option<u64>, events: Seq<EventView>)
    requires
        can_happen(fresh_runner(total), events),
    ensures
        ({
            let start = fresh_runner(total);
            let after = after_events(start, events);
            let pushed = pushed_bytes(start, events);
            let fed = stream_bytes(events);
            &&& pushed.len() <= fed.len()
            &&& pushed == fed.take(pushed.len() as int)
            &&& last_action(start, events) == ActionView::Stop(Ok::<(), TaskRunError>(())) ==> {
                &&& after.downloaded == pushed.len()
                &&& pushed == capped(fed, after.total) || (after.total matches Some(size)
                    && pushed.len() > size)
            }
        }),
{
    let start = fresh_runner(total);
    let pushed = pushed_bytes(start, events);
    let fed = stream_bytes(events);
    if last_action(start, events) !is Stop {
        let after = after_events(start, events);
        events_keep_order(total, events);
        assert((pushed + after.buff).take(pushed.len() as int) =~= pushed);
        assert(fed.take((pushed + after.buff).len() as int).take(pushed.len() as int) =~= fed.take(
            pushed.len() as int,
        ));
    } else {
        let earlier = events.drop_last();
        let runner = after_events(start, earlier);
        let before = stream_bytes(earlier);
        let held = pushed_bytes(start, earlier) + runner.buff;
        events_keep_order(total, earlier);
        event_keeps_order(runner, events.last(), pushed_bytes(start, earlier), before);
        assert(pushed =~= pushed_bytes(start, earlier));
        assert(held.take(pushed.len() as int) =~= pushed);
        assert(before.take(held.len() as int).take(pushed.len() as int) =~= fed.take(
            pushed.len() as int,
        ));
        if pushed == fed {
            assert(fed.take(fed.len() as int) =~= fed);
        }
    }
}

/// Law: a limit from the manager never raises the total.
pub proof fn total_never_grows(runner: RunnerView, event: EventView)
    requires
        runner.wf(),
        event_fits(runner, event),
        event is Flushed ==> runner.pending is Some,
    ensures
        match (runner.total, runner.step(event).0.total) {
            (Some(before), Some(after)) => after <= before,
            (None, None) => true,
            _ => false,
        },
{
}

/// Law: a runner reports success exactly when it was neither cancelled nor failed
/// and its downloaded size is what was expected.
pub proof fn success_means_expected_size(
    total: Option<u64>,
    downloaded: u64,
    result: Result<(), TaskRunError>,
)
    ensures
        concluded_result(total, downloaded, result) is Ok <==> result is Ok && match total {
            Some(size) => downloaded == size,
            None => downloaded > 0,
        },
{
}

} // verus!

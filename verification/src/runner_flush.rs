//! Handing one frame over to the data channel.
//!
//! The channel may be full or closed. Each poll asks for at most one attempt to
//! push; the attempt itself is made by the caller, which registers its waker
//! first.
use crate::runner::{ChannelClosed, DataFrame};
use vstd::prelude::*;

verus! {

/// The state of a flush.
#[derive(Debug)]
pub enum FlushBuffFuture {
    /// Nothing was tried yet.
    Init { frame: DataFrame },
    /// The frame is being pushed; it is gone once it has been taken.
    Pushing { frame: Option<DataFrame> },
    /// The flush is over.
    Done,
}

/// What a poll comes to.
#[derive(Debug)]
pub enum FlushPoll {
    /// Register the waker and try to push the frame, then report with `pushed`.
    TryPush(DataFrame),
    /// The flush is over.
    Ready(Result<(), ChannelClosed>),
}

impl FlushBuffFuture {
    /// A flush of one frame.
    pub fn new(frame: DataFrame) -> (flush: Self)
        ensures
            flush == (FlushBuffFuture::Init { frame }),
    {
        FlushBuffFuture::Init { frame }
    }

    /// The frame that has still to be pushed.
    pub open spec fn unsent(self) -> Option<DataFrame> {
        match self {
            FlushBuffFuture::Init { frame } => Some(frame),
            FlushBuffFuture::Pushing { frame } => frame,
            FlushBuffFuture::Done => None,
        }
    }

    /// What the beginning of a poll comes to.
    pub open spec fn polled(
        &self,
        before: FlushBuffFuture,
        channel_closed: bool,
        poll: FlushPoll,
    ) -> bool {
        match before.unsent() {
            Some(frame) => if channel_closed {
                &&& poll == FlushPoll::Ready(Err::<(), ChannelClosed>(ChannelClosed))
                &&& *self is Done
            } else {
                &&& poll == FlushPoll::TryPush(frame)
                &&& *self == (FlushBuffFuture::Pushing { frame: None })
            },
            None => {
                &&& poll == FlushPoll::Ready(Ok::<(), ChannelClosed>(()))
                &&& *self is Done
            },
        }
    }

    /// What an attempt to push comes to.
    pub open spec fn tried(
        &self,
        attempt: Result<(), DataFrame>,
        ready: Option<Result<(), ChannelClosed>>,
    ) -> bool {
        match attempt {
            Ok(_) => {
                &&& ready == Some(Ok::<(), ChannelClosed>(()))
                &&& *self is Done
            },
            Err(frame) => {
                &&& ready is None
                &&& *self == (FlushBuffFuture::Pushing { frame: Some(frame) })
            },
        }
    }

    /// Begin a poll. A closed channel ends the flush; a frame that is still here
    /// is handed out for one attempt. A flush that is over must not be polled.
    pub fn poll(&mut self, channel_closed: bool) -> (poll: FlushPoll)
        requires
            *old(self) !is Done,
        ensures
            final(self).polled(*old(self), channel_closed, poll),
    {
        let mut state = FlushBuffFuture::Done;
        std::mem::swap(&mut state, self);
        let unsent = match state {
            FlushBuffFuture::Init { frame } => Some(frame),
            FlushBuffFuture::Pushing { frame } => frame,
            FlushBuffFuture::Done => None,
        };
        match unsent {
            None => FlushPoll::Ready(Ok(())),
            Some(frame) => {
                if channel_closed {
                    return FlushPoll::Ready(Err(ChannelClosed));
                }
                *self = FlushBuffFuture::Pushing { frame: None };
                FlushPoll::TryPush(frame)
            },
        }
    }

    /// Report the attempt of a poll: a frame that was taken ends the flush, one
    /// that came back is kept for the next poll. `None` while the flush goes on.
    pub fn pushed(&mut self, attempt: Result<(), DataFrame>) -> (ready: Option<
        Result<(), ChannelClosed>,
    >)
        requires
            *old(self) == (FlushBuffFuture::Pushing { frame: None }),
        ensures
            final(self).tried(attempt, ready),
    {
        match attempt {
            Ok(()) => {
                *self = FlushBuffFuture::Done;
                Some(Ok(()))
            },
            Err(frame) => {
                *self = FlushBuffFuture::Pushing { frame: Some(frame) };
                None
            },
        }
    }

    /// Whether the flush is over.
    pub fn is_terminated(&self) -> (terminated: bool)
        ensures
            terminated == (*self is Done),
    {
        matches!(self, FlushBuffFuture::Done)
    }
}

} // verus!

//! Many streams as one: which runners are listened to, and what a poll of all of
//! them together yields.
//!
//! The streams themselves are kept in a group elsewhere; a key of type `K` finds
//! each of them there. The functions here are handed what the group returned.
use crate::runner::DataFrame;
use crate::runner_error::LifecycleEvent;
use crate::RunnerId;
use std::collections::HashMap;
use vstd::prelude::*;

verus! {

broadcast use vstd::std_specs::hash::group_hash_axioms;

/// What a poll of a stream returned.
#[derive(Debug)]
pub enum Polled<T> {
    /// An item, or the end.
    Ready(Option<T>),
    /// Nothing yet.
    Pending,
}

/// An item and the runner it comes from.
#[derive(Debug)]
pub struct RunnerTaggedStreamItem<T> {
    /// The runner.
    pub runner_id: RunnerId,
    /// The item.
    pub item: T,
}

/// What a runner's stream yields.
#[derive(Debug)]
pub enum RunnerStreamEvent<T> {
    /// An item.
    Item(RunnerTaggedStreamItem<T>),
    /// The stream of the runner has ended.
    Closed(RunnerId),
}

/// Tags the items of a runner's stream, and tells of its end once.
#[derive(Debug)]
pub struct RunnerTaggedStream {
    /// The runner.
    pub runner_id: RunnerId,
    /// The end has been told of.
    pub closed: bool,
}

impl RunnerTaggedStream {
    /// A stream that has not ended.
    pub fn new(runner_id: RunnerId) -> (stream: Self)
        ensures
            stream == (RunnerTaggedStream { runner_id, closed: false }),
    {
        RunnerTaggedStream { runner_id, closed: false }
    }

    /// What the stream yields is told with its runner, and its end is told once.
    pub open spec fn told<T>(
        &self,
        before: &RunnerTaggedStream,
        polled: Polled<T>,
        tagged: Polled<RunnerStreamEvent<T>>,
    ) -> bool {
        &&& self.runner_id == before.runner_id
        &&& self.closed == (before.closed || polled == Polled::<T>::Ready(None))
        &&& tagged == if before.closed {
            Polled::Ready(None)
        } else {
            match polled {
                Polled::Ready(Some(item)) => Polled::Ready(
                    Some(
                        RunnerStreamEvent::Item(
                            RunnerTaggedStreamItem { runner_id: before.runner_id, item },
                        ),
                    ),
                ),
                Polled::Ready(None) => Polled::Ready(
                    Some(RunnerStreamEvent::Closed(before.runner_id)),
                ),
                Polled::Pending => Polled::Pending,
            }
        }
    }

    /// What the tagged stream yields when the stream itself yields `polled`. After
    /// the end nothing more comes, whatever the stream yields.
    pub fn poll_next<T>(&mut self, polled: Polled<T>) -> (tagged: Polled<RunnerStreamEvent<T>>)
        ensures
            final(self).told(old(self), polled, tagged),
    {
        if self.closed {
            return Polled::Ready(None);
        }
        match polled {
            Polled::Ready(Some(item)) => Polled::Ready(
                Some(
                    RunnerStreamEvent::Item(
                        RunnerTaggedStreamItem { runner_id: self.runner_id, item },
                    ),
                ),
            ),
            Polled::Ready(None) => {
                self.closed = true;
                Polled::Ready(Some(RunnerStreamEvent::Closed(self.runner_id)))
            },
            Polled::Pending => Polled::Pending,
        }
    }
}

/// What happens on the lifecycle streams.
#[derive(Debug)]
pub enum LifecycleStreamEvent {
    /// A runner reports.
    Event(RunnerTaggedStreamItem<LifecycleEvent>),
    /// The stream of a runner has ended.
    Closed(RunnerId),
}

/// Aggregates lifecycle events from multiple runners into a single stream.
///
/// Each runner has its own lifecycle receiver. This aggregator multiplexes all of
/// them into a single stream for the manager to consume.
#[derive(Debug)]
pub struct LifecycleAggregator<K> {
    /// Where the stream of each runner is found.
    pub map: HashMap<RunnerId, K>,
    /// No more events will be received.
    pub is_closed: bool,
    /// Someone who polled waits to be woken.
    pub waiting: bool,
}

impl<K> LifecycleAggregator<K> {
    /// An open aggregator that listens to no runner.
    pub fn new() -> (aggregator: Self)
        ensures
            aggregator.map@ == Map::<RunnerId, K>::empty(),
            !aggregator.is_closed,
            !aggregator.waiting,
    {
        Self::with_capacity(0)
    }

    /// An open aggregator that listens to no runner, with room for some.
    pub fn with_capacity(capacity: usize) -> (aggregator: Self)
        ensures
            aggregator.map@ == Map::<RunnerId, K>::empty(),
            !aggregator.is_closed,
            !aggregator.waiting,
    {
        LifecycleAggregator {
            map: HashMap::with_capacity(capacity),
            is_closed: false,
            waiting: false,
        }
    }

    /// Add a lifecycle receiver for a runner. Returns whether someone is to be woken.
    pub fn add(&mut self, runner_id: RunnerId, key: K) -> (woken: bool)
        ensures
            final(self).map@ == old(self).map@.insert(runner_id, key),
            final(self).is_closed == old(self).is_closed,
            !final(self).waiting,
            woken == old(self).waiting,
    {
        self.map.insert(runner_id, key);
        self.wake()
    }

    /// Remove a lifecycle receiver for a runner. Returns where its stream is found.
    pub fn remove(&mut self, runner_id: RunnerId) -> (key: Option<K>)
        ensures
            final(self).map@ == old(self).map@.remove(runner_id),
            final(self).is_closed == old(self).is_closed,
            final(self).waiting == old(self).waiting,
            key == if old(self).map@.contains_key(runner_id) {
                Some(old(self).map@[runner_id])
            } else {
                None
            },
    {
        let key = self.map.remove(&runner_id);
        assert(self.map@ =~= old(self).map@.remove(runner_id));
        key
    }

    /// Check if the aggregator is closed.
    pub fn is_closed(&self) -> (closed: bool)
        ensures
            closed == self.is_closed,
    {
        self.is_closed
    }

    /// Close the aggregator, signaling no more events will be received. Returns
    /// whether someone is to be woken.
    pub fn close(&mut self) -> (woken: bool)
        ensures
            final(self).map == old(self).map,
            final(self).is_closed,
            !final(self).waiting,
            woken == old(self).waiting,
    {
        self.is_closed = true;
        self.wake()
    }

    /// Reopen the aggregator for receiving events. Returns whether someone is to be
    /// woken.
    pub fn reopen(&mut self) -> (woken: bool)
        ensures
            final(self).map == old(self).map,
            !final(self).is_closed,
            !final(self).waiting,
            woken == old(self).waiting,
    {
        self.is_closed = false;
        self.wake()
    }

    /// Get the number of runners being tracked.
    pub fn len(&self) -> (count: usize)
        ensures
            count == self.map@.len(),
    {
        self.map.len()
    }

    /// Check if there are no runners being tracked.
    pub fn is_empty(&self) -> (empty: bool)
        ensures
            empty == self.map@.is_empty(),
    {
        self.map.len() == 0
    }

    fn wake(&mut self) -> (woken: bool)
        ensures
            final(self).map == old(self).map,
            final(self).is_closed == old(self).is_closed,
            !final(self).waiting,
            woken == old(self).waiting,
    {
        let waiting = self.waiting;
        self.waiting = false;
        waiting
    }

    /// What the end of all streams means: the end where the aggregator is closed,
    /// and otherwise that more may come.
    pub open spec fn at_rest(&self) -> Polled<LifecycleStreamEvent> {
        if self.is_closed {
            Polled::Ready(None)
        } else {
            Polled::Pending
        }
    }

    /// What a runner reports is passed on, and a runner whose stream has ended is listened
    /// to no longer.
    pub open spec fn passed(
        &self,
        before: &LifecycleAggregator<K>,
        polled: Polled<RunnerStreamEvent<LifecycleEvent>>,
        event: Polled<LifecycleStreamEvent>,
    ) -> bool {
        &&& self.is_closed == before.is_closed
        &&& self.waiting
        &&& event == if before.map@.is_empty() {
            before.at_rest()
        } else {
            match polled {
                Polled::Ready(Some(RunnerStreamEvent::Item(item))) => Polled::Ready(
                    Some(LifecycleStreamEvent::Event(item)),
                ),
                Polled::Ready(Some(RunnerStreamEvent::Closed(id))) => Polled::Ready(
                    Some(LifecycleStreamEvent::Closed(id)),
                ),
                Polled::Ready(None) => before.at_rest(),
                Polled::Pending => Polled::Pending,
            }
        }
        &&& self.map@ == match polled {
            Polled::Ready(Some(RunnerStreamEvent::Closed(id))) => before.map@.remove(id),
            _ => before.map@,
        }
    }

    /// What the aggregator yields when the group of streams yields `polled`. Without
    /// runners the group is not asked, and `polled` does not matter.
    pub fn poll_next(&mut self, polled: Polled<RunnerStreamEvent<LifecycleEvent>>) -> (event:
        Polled<LifecycleStreamEvent>)
        ensures
            final(self).passed(old(self), polled, event),
    {
        self.waiting = true;
        if self.map.len() == 0 {
            assert(forall|id: RunnerId| self.map@.remove(id) =~= self.map@);
            return if self.is_closed {
                Polled::Ready(None)
            } else {
                Polled::Pending
            };
        }
        match polled {
            Polled::Ready(Some(RunnerStreamEvent::Item(item))) => Polled::Ready(
                Some(LifecycleStreamEvent::Event(item)),
            ),
            Polled::Ready(Some(RunnerStreamEvent::Closed(runner_id))) => {
                self.map.remove(&runner_id);
                assert(self.map@ =~= old(self).map@.remove(runner_id));
                Polled::Ready(Some(LifecycleStreamEvent::Closed(runner_id)))
            },
            Polled::Ready(None) => {
                if self.is_closed {
                    Polled::Ready(None)
                } else {
                    Polled::Pending
                }
            },
            Polled::Pending => Polled::Pending,
        }
    }
}

/// What happens on the data streams.
#[derive(Debug)]
pub enum DataStreamEvent {
    /// A runner has data.
    Data(RunnerTaggedStreamItem<DataFrame>),
    /// The stream of a runner has ended.
    Closed(RunnerId),
}

/// Aggregates the data frames of multiple runners into a single stream, which does
/// not end.
#[derive(Debug)]
pub struct DataAggregator<K> {
    /// Where the stream of each runner is found.
    pub map: HashMap<RunnerId, K>,
}

impl<K> DataAggregator<K> {
    /// An aggregator that listens to no runner.
    pub fn new() -> (aggregator: Self)
        ensures
            aggregator.map@ == Map::<RunnerId, K>::empty(),
    {
        Self::with_capacity(0)
    }

    /// An aggregator that listens to no runner, with room for some.
    pub fn with_capacity(capacity: usize) -> (aggregator: Self)
        ensures
            aggregator.map@ == Map::<RunnerId, K>::empty(),
    {
        DataAggregator { map: HashMap::with_capacity(capacity) }
    }

    /// Listen to a runner.
    pub fn register(&mut self, runner_id: RunnerId, key: K)
        ensures
            final(self).map@ == old(self).map@.insert(runner_id, key),
    {
        self.map.insert(runner_id, key);
    }

    /// Listen to a runner no longer. Returns where its stream is found.
    pub fn unregister(&mut self, runner_id: RunnerId) -> (key: Option<K>)
        ensures
            final(self).map@ == old(self).map@.remove(runner_id),
            key == if old(self).map@.contains_key(runner_id) {
                Some(old(self).map@[runner_id])
            } else {
                None
            },
    {
        let key = self.map.remove(&runner_id);
        assert(self.map@ =~= old(self).map@.remove(runner_id));
        key
    }

    /// Whether a runner is listened to.
    pub fn contains(&self, runner_id: RunnerId) -> (listened: bool)
        ensures
            listened == self.map@.contains_key(runner_id),
    {
        self.map.contains_key(&runner_id)
    }

    /// Check if there are no runners being listened to.
    pub fn is_empty(&self) -> (empty: bool)
        ensures
            empty == self.map@.is_empty(),
    {
        self.map.len() == 0
    }

    /// The data of a runner is passed on, and a runner whose stream has ended is listened
    /// to no longer.
    pub open spec fn passed(
        &self,
        before: &DataAggregator<K>,
        polled: Polled<RunnerStreamEvent<DataFrame>>,
        event: Polled<DataStreamEvent>,
    ) -> bool {
        &&& event == if before.map@.is_empty() {
            Polled::Pending
        } else {
            match polled {
                Polled::Ready(Some(RunnerStreamEvent::Item(item))) => Polled::Ready(
                    Some(DataStreamEvent::Data(item)),
                ),
                Polled::Ready(Some(RunnerStreamEvent::Closed(id))) => Polled::Ready(
                    Some(DataStreamEvent::Closed(id)),
                ),
                _ => Polled::Pending,
            }
        }
        &&& self.map@ == match polled {
            Polled::Ready(Some(RunnerStreamEvent::Closed(id))) => before.map@.remove(id),
            _ => before.map@,
        }
    }

    /// What the aggregator yields when the group of streams yields `polled`. Without
    /// runners the group is not asked, and `polled` does not matter.
    pub fn poll_next(&mut self, polled: Polled<RunnerStreamEvent<DataFrame>>) -> (event: Polled<
        DataStreamEvent,
    >)
        ensures
            final(self).passed(old(self), polled, event),
    {
        if self.map.len() == 0 {
            assert(forall|id: RunnerId| self.map@.remove(id) =~= self.map@);
            return Polled::Pending;
        }
        match polled {
            Polled::Ready(Some(RunnerStreamEvent::Item(item))) => Polled::Ready(
                Some(DataStreamEvent::Data(item)),
            ),
            Polled::Ready(Some(RunnerStreamEvent::Closed(runner_id))) => {
                self.map.remove(&runner_id);
                assert(self.map@ =~= old(self).map@.remove(runner_id));
                Polled::Ready(Some(DataStreamEvent::Closed(runner_id)))
            },
            Polled::Ready(None) => Polled::Pending,
            Polled::Pending => Polled::Pending,
        }
    }
}

/// Aggregates the messages of multiple runners into a single stream.
#[derive(Debug)]
pub struct RunnerNotification<K> {
    /// Where the stream of each runner is found.
    pub map: HashMap<RunnerId, K>,
    /// No more messages will be received.
    pub is_closed: bool,
    /// Someone who polled waits to be woken.
    pub waiting: bool,
}

impl<K> RunnerNotification<K> {
    /// An open aggregator that listens to no runner.
    pub fn new() -> (notification: Self)
        ensures
            notification.map@ == Map::<RunnerId, K>::empty(),
            !notification.is_closed,
            !notification.waiting,
    {
        Self::with_capacity(0)
    }

    /// An open aggregator that listens to no runner, with room for some.
    pub fn with_capacity(capacity: usize) -> (notification: Self)
        ensures
            notification.map@ == Map::<RunnerId, K>::empty(),
            !notification.is_closed,
            !notification.waiting,
    {
        RunnerNotification {
            map: HashMap::with_capacity(capacity),
            is_closed: false,
            waiting: false,
        }
    }

    /// Listen to a runner.
    pub fn add(&mut self, runner_id: RunnerId, key: K)
        ensures
            final(self).map@ == old(self).map@.insert(runner_id, key),
            final(self).is_closed == old(self).is_closed,
            final(self).waiting == old(self).waiting,
    {
        self.map.insert(runner_id, key);
    }

    /// Listen to a runner no longer. Returns where its stream is found.
    pub fn remove(&mut self, runner_id: RunnerId) -> (key: Option<K>)
        ensures
            final(self).map@ == old(self).map@.remove(runner_id),
            final(self).is_closed == old(self).is_closed,
            final(self).waiting == old(self).waiting,
            key == if old(self).map@.contains_key(runner_id) {
                Some(old(self).map@[runner_id])
            } else {
                None
            },
    {
        let key = self.map.remove(&runner_id);
        assert(self.map@ =~= old(self).map@.remove(runner_id));
        key
    }

    /// Check if the aggregator is closed.
    pub fn is_closed(&self) -> (closed: bool)
        ensures
            closed == self.is_closed,
    {
        self.is_closed
    }

    /// Close the aggregator. Returns whether someone is to be woken.
    pub fn close(&mut self) -> (woken: bool)
        ensures
            final(self).map == old(self).map,
            final(self).is_closed,
            !final(self).waiting,
            woken == old(self).waiting,
    {
        self.is_closed = true;
        let waiting = self.waiting;
        self.waiting = false;
        waiting
    }

    /// Reopen the aggregator. Returns whether someone is to be woken.
    pub fn reopen(&mut self) -> (woken: bool)
        ensures
            final(self).map == old(self).map,
            !final(self).is_closed,
            !final(self).waiting,
            woken == old(self).waiting,
    {
        self.is_closed = false;
        let waiting = self.waiting;
        self.waiting = false;
        waiting
    }

    /// What the aggregator yields when the group of streams yields `polled`. Without
    /// runners the group is not asked, and `polled` does not matter.
    pub fn poll_next<M>(&mut self, polled: Polled<M>) -> (message: Polled<M>)
        ensures
            final(self).map == old(self).map,
            final(self).is_closed == old(self).is_closed,
            final(self).waiting,
            message == if old(self).map@.is_empty() {
                Polled::Pending
            } else if polled == Polled::<M>::Ready(None) && !old(self).is_closed {
                Polled::Pending
            } else {
                polled
            },
    {
        self.waiting = true;
        if self.map.len() == 0 {
            return Polled::Pending;
        }
        match polled {
            Polled::Ready(Some(message)) => Polled::Ready(Some(message)),
            Polled::Ready(None) => {
                if self.is_closed {
                    Polled::Ready(None)
                } else {
                    Polled::Pending
                }
            },
            Polled::Pending => Polled::Pending,
        }
    }
}

} // verus!

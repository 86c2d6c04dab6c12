//! What becomes of the items of a stream on their way, and of those who wait.
use crate::adapter::{AdapterError, BoltLoadAdapterMeta};
use crate::aggregator::{
    DataAggregator, DataStreamEvent, LifecycleAggregator, LifecycleStreamEvent, Polled,
    RunnerStreamEvent, RunnerTaggedStream,
};
use crate::budget::{AcquirePermit, AcquireStep};
use crate::planner::{ChunkPlanner, Error};
use crate::runner::{ChannelClosed, DataFrame};
use crate::runner_error::LifecycleEvent;
use crate::runner_flush::{FlushBuffFuture, FlushPoll};
use crate::singleton::SingletonTaskInner;
use crate::task::TaskInstanceError;
use crate::{range_set, RunnerId};
use std::ops::Range;
use vstd::prelude::*;

verus! {

/// Law: a frame is offered to the channel until it is taken, the same frame each time. The
/// flush succeeds with the attempt that is taken, and goes on after one that is not.
pub proof fn a_frame_is_offered_until_it_is_taken(
    before: FlushBuffFuture,
    offered: FlushBuffFuture,
    after: FlushBuffFuture,
    frame: DataFrame,
    poll: FlushPoll,
    attempt: Result<(), DataFrame>,
    ready: Option<Result<(), ChannelClosed>>,
)
    requires
        before == (FlushBuffFuture::Init { frame }) || before == (FlushBuffFuture::Pushing {
            frame: Some(frame),
        }),
        offered.polled(before, false, poll),
        after.tried(attempt, ready),
        attempt matches Err(back) ==> back == frame,
    ensures
        poll == FlushPoll::TryPush(frame),
        offered == (FlushBuffFuture::Pushing { frame: None }),
        attempt is Ok <==> ready is Some,
        attempt is Ok ==> after is Done && ready->0 is Ok,
        attempt is Err ==> after == (FlushBuffFuture::Pushing { frame: Some(frame) }),
{
}

/// Law: a channel that is closed takes no frame: the flush fails, unless its frame has been
/// taken already.
pub proof fn a_closed_channel_fails_the_flush(
    before: FlushBuffFuture,
    after: FlushBuffFuture,
    poll: FlushPoll,
)
    requires
        before !is Done,
        after.polled(before, true, poll),
    ensures
        after is Done,
        poll matches FlushPoll::Ready(result) && (result is Ok <==> before
            == (FlushBuffFuture::Pushing { frame: None })),
{
}

/// Law: an item is told as it is, and as one of its runner; where there is none, nothing is
/// told. The stream is not over by that.
pub proof fn items_keep_their_runner<T>(
    before: RunnerTaggedStream,
    after: RunnerTaggedStream,
    polled: Polled<T>,
    tagged: Polled<RunnerStreamEvent<T>>,
)
    requires
        !before.closed,
        polled != Polled::<T>::Ready(None),
        after.told(&before, polled, tagged),
    ensures
        after == before,
        polled is Pending <==> tagged is Pending,
        polled matches Polled::Ready(Some(item)) ==> (tagged matches Polled::Ready(Some(event))
            && event matches RunnerStreamEvent::Item(told) && told.runner_id == before.runner_id
            && told.item == item),
{
}

/// Law: the end of a stream is told once, with its runner. Nothing comes after it,
/// whatever the stream yields then.
pub proof fn the_end_is_told_once<T>(
    before: RunnerTaggedStream,
    ended: RunnerTaggedStream,
    after: RunnerTaggedStream,
    first: Polled<RunnerStreamEvent<T>>,
    polled: Polled<T>,
    second: Polled<RunnerStreamEvent<T>>,
)
    requires
        !before.closed,
        ended.told(&before, Polled::<T>::Ready(None), first),
        after.told(&ended, polled, second),
    ensures
        first matches Polled::Ready(Some(event)) && event matches RunnerStreamEvent::Closed(id)
            && id == before.runner_id,
        second == Polled::<RunnerStreamEvent<T>>::Ready(None),
        ended.closed && after == ended,
{
}

/// Law: what the runners report is passed on as it is, while there are any. A runner whose
/// stream has ended is listened to no longer, all others are. The reports are over only
/// where the aggregator is closed and nothing more comes.
pub proof fn reports_are_passed_on<K>(
    before: LifecycleAggregator<K>,
    after: LifecycleAggregator<K>,
    polled: Polled<RunnerStreamEvent<LifecycleEvent>>,
    event: Polled<LifecycleStreamEvent>,
)
    requires
        after.passed(&before, polled, event),
    ensures
        ({
            let alone = before.map@.is_empty();
            &&& !alone ==> (polled matches Polled::Ready(Some(RunnerStreamEvent::Item(item)))
                ==> (event matches Polled::Ready(Some(LifecycleStreamEvent::Event(told))) && told
                == item) && after.map@ == before.map@)
            &&& !alone ==> (polled matches Polled::Ready(Some(RunnerStreamEvent::Closed(id)))
                ==> (event matches Polled::Ready(Some(LifecycleStreamEvent::Closed(told))) && told
                == id))
            &&& polled matches Polled::Ready(Some(RunnerStreamEvent::Closed(id)))
                ==> !after.map@.contains_key(id)
            &&& forall|other: RunnerId| #[trigger]
                before.map@.contains_key(other) && polled
                    != Polled::Ready(Some(RunnerStreamEvent::<LifecycleEvent>::Closed(other)))
                    ==> after.map@.contains_key(other) && after.map@[other] == before.map@[other]
            &&& forall|other: RunnerId| #[trigger]
                after.map@.contains_key(other) ==> before.map@.contains_key(other)
            &&& event == Polled::<LifecycleStreamEvent>::Ready(None) <==> before.is_closed && (
            alone || polled == Polled::<RunnerStreamEvent<LifecycleEvent>>::Ready(None))
            &&& after.is_closed == before.is_closed
            &&& after.waiting
        }),
{
}

/// Law: the data of the runners is passed on as it is, while there are any. A runner whose
/// stream has ended is listened to no longer, all others are. The data is never over.
pub proof fn data_is_passed_on<K>(
    before: DataAggregator<K>,
    after: DataAggregator<K>,
    polled: Polled<RunnerStreamEvent<DataFrame>>,
    event: Polled<DataStreamEvent>,
)
    requires
        after.passed(&before, polled, event),
    ensures
        ({
            let alone = before.map@.is_empty();
            &&& !alone ==> (polled matches Polled::Ready(Some(RunnerStreamEvent::Item(item)))
                ==> (event matches Polled::Ready(Some(DataStreamEvent::Data(told))) && told
                == item) && after.map@ == before.map@)
            &&& !alone ==> (polled matches Polled::Ready(Some(RunnerStreamEvent::Closed(id)))
                ==> (event matches Polled::Ready(Some(DataStreamEvent::Closed(told))) && told
                == id))
            &&& polled matches Polled::Ready(Some(RunnerStreamEvent::Closed(id)))
                ==> !after.map@.contains_key(id)
            &&& forall|other: RunnerId| #[trigger]
                before.map@.contains_key(other) && polled
                    != Polled::Ready(Some(RunnerStreamEvent::<DataFrame>::Closed(other)))
                    ==> after.map@.contains_key(other) && after.map@[other] == before.map@[other]
            &&& forall|other: RunnerId| #[trigger]
                after.map@.contains_key(other) ==> before.map@.contains_key(other)
            &&& event != Polled::<DataStreamEvent>::Ready(None)
        }),
{
}

/// Law: a single download starts at the beginning of a content whose size was told, where
/// there was one to tell; an adapter that fails leaves it as it was.
pub proof fn single_downloads_start_at_the_beginning(
    before: SingletonTaskInner,
    after: SingletonTaskInner,
    answer: Result<BoltLoadAdapterMeta, AdapterError>,
    result: Result<(), TaskInstanceError>,
)
    requires
        after.learnt(&before, answer, result),
    ensures
        result is Ok <==> answer is Ok,
        answer matches Ok(meta) ==> after.downloaded == 0 && (after.total is Some
            <==> meta.content_size > 0) && (after.total matches Some(total) ==> total
            == meta.content_size),
        answer matches Err(error) ==> after == before && result == Err::<(), TaskInstanceError>(
            TaskInstanceError::RetrieveMetaFailed(error),
        ),
        after.runner_stopped == before.runner_stopped,
        after.data_done == before.data_done,
{
}

/// Law: budget is acquired exactly where there is enough, and as much as was asked for.
/// Who does not get it registers first and waits only after another try, so that two tries
/// in vain come before any waiting.
pub proof fn nobody_waits_unregistered(
    before: AcquirePermit,
    between: AcquirePermit,
    after: AcquirePermit,
    budget: u64,
    left: u64,
    later: u64,
    left_later: u64,
    first: AcquireStep,
    second: AcquireStep,
)
    requires
        !before.listening,
        between.tried(&before, budget, left, first),
        after.tried(&between, later, left_later, second),
    ensures
        first is Acquired <==> before.amount <= budget,
        first is Acquired ==> left + before.amount == budget,
        first !is Acquired ==> first is Listen && left == budget,
        first !is Acquired ==> (second is Acquired <==> before.amount <= later),
        first !is Acquired && second is Acquired ==> left_later + before.amount == later,
        first !is Acquired && second !is Acquired ==> second is Wait && left_later == later,
        after.amount == before.amount,
{
}

/// Law: a chunk that is resized ends so many bytes behind what has been downloaded of it,
/// and stays what it was but for that; so do all others. An unknown runner is an error.
pub proof fn resized_chunks_end_behind_their_progress(
    before: ChunkPlanner,
    after: ChunkPlanner,
    runner_id: RunnerId,
    new_size: u64,
    result: Result<u64, Error>,
)
    requires
        before.consistent(),
        after.resized(&before, runner_id, new_size, result),
        before.runner_chunk(runner_id) matches Some(chunk) ==> 0 < new_size && new_size
            <= chunk.allocated.end - chunk.downloaded.end,
    ensures
        result is Ok <==> before.runner_map().contains_key(runner_id),
        result is Err ==> after.chunk_map() == before.chunk_map(),
        result matches Ok(progress) ==> {
            let key = before.runner_map()[runner_id];
            let chunk = before.chunk_map()[key];
            let cut = Range { start: key.start, end: (chunk.downloaded.end + new_size) as u64 };
            &&& progress == chunk.downloaded.end - chunk.downloaded.start
            &&& after.runner_map()[runner_id] == cut
            &&& after.chunk_map().contains_key(cut)
            &&& after.chunk_map()[cut].allocated == cut
            &&& after.chunk_map()[cut].downloaded == chunk.downloaded
            &&& after.chunk_map()[cut].status == chunk.status
            &&& after.chunk_map()[cut].runner_id == chunk.runner_id
            &&& forall|other: Range<u64>| #[trigger]
                before.chunk_map().contains_key(other) && other != key
                    ==> after.chunk_map().contains_key(other) && after.chunk_map()[other]
                    == before.chunk_map()[other]
        },
{
    if result is Ok {
        let key = before.runner_map()[runner_id];
        let chunk = before.chunk_map()[key];
        let end = (chunk.downloaded.end + new_size) as u64;
        assert(before.chunk_map().contains_key(key));
        assert forall|other: Range<u64>| #[trigger]
            before.chunk_map().contains_key(other) && other != key implies
            after.chunk_map().contains_key(other) && after.chunk_map()[other]
            == before.chunk_map()[other] by {
            assert(!range_set::ranges_overlap(key, other));
            range_set::overlap_by_ends(key, other);
            assert(other != (Range { start: key.start, end }));
        }
    }
}

} // verus!

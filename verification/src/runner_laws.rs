//! What holds of whole runs of a runner.
use crate::adapter::AdapterError;
use crate::runner;
use crate::runner::{
    ActionView, ControlEvent, DataDrainOutcome, EventView, PostView, RunnerView, BUFFER_SIZE,
};
use crate::runner_error::{LifecycleEvent, StoppedReason, TaskError, TaskRunError};
use vstd::prelude::*;

verus! {

/// The total that a run goes by before one of its events.
pub open spec fn total_at(total: Option<u64>, events: Seq<EventView>, k: int) -> Option<u64> {
    runner::after_events(runner::fresh_runner(total), events.take(k)).total
}

/// A limit that does not lie below the total.
pub open spec fn vain_limit(total: Option<u64>, event: EventView) -> bool {
    &&& event matches EventView::Control(Ok(ControlEvent::LimitTotal(limit)))
    &&& total matches Some(size)
    &&& size <= limit
}

/// What some events hold, put together one by one.
struct Seen {
    failed: Option<AdapterError>,
    closed: bool,
    vain: bool,
    cancelled: bool,
    lost: bool,
    ended: bool,
}

spec fn seen(total: Option<u64>, events: Seq<EventView>) -> Seen
    decreases events.len(),
{
    if events.len() == 0 {
        Seen {
            failed: None,
            closed: false,
            vain: false,
            cancelled: false,
            lost: false,
            ended: false,
        }
    } else {
        let earlier = events.drop_last();
        let event = events.last();
        let before = seen(total, earlier);
        Seen {
            failed: match event {
                EventView::StreamFailed(source) => Some(source),
                _ => before.failed,
            },
            closed: before.closed || event is Control && event->Control_0 is Err,
            vain: before.vain || vain_limit(
                runner::after_events(runner::fresh_runner(total), earlier).total,
                event,
            ),
            cancelled: before.cancelled || event is Cancelled,
            lost: before.lost || event is Flushed && event->Flushed_0 is Err,
            ended: before.ended || event is StreamEnded,
        }
    }
}

/// What a run that goes on remembers of its events: a failed stream and the end wait for
/// their flush, an error of the control channel for any.
spec fn remembers(after: RunnerView, seen: Seen, fed: nat) -> bool {
    &&& !seen.cancelled
    &&& !seen.lost
    &&& after.deferred is Some <==> seen.closed || seen.vain
    &&& after.deferred matches Some(error) ==> {
        ||| error == TaskRunError::Failed(TaskError::ChannelClosed) && seen.closed
        ||| error == TaskRunError::Failed(TaskError::ExceededTotalSize) && seen.vain
    }
    &&& match after.pending {
        Some(state) => match state.post {
            PostView::PropagateError(source) => seen.failed == Some(source),
            PostView::FinishSuccess => seen.failed is None && (seen.ended || after.is_covered(fed)),
            PostView::ContinueItem { item, offset } => seen.failed is None && offset < item.len(),
            PostView::Resume => false,
        },
        None => seen.failed is None,
    }
}

impl RunnerView {
    /// As many bytes as the total have come.
    spec fn is_covered(self, fed: nat) -> bool {
        self.total matches Some(size) && fed >= size
    }
}

/// What a run stops for, given what it stops with.
spec fn stopped_for(
    after: RunnerView,
    seen: Seen,
    fed: nat,
    event: EventView,
    result: Result<(), TaskRunError>,
) -> bool {
    match result {
        Ok(_) => {
            &&& seen.ended || after.is_covered(fed)
            &&& seen.failed is None
            &&& !seen.closed
            &&& !seen.vain
            &&& !seen.cancelled
            &&& !seen.lost
        },
        Err(TaskRunError::Cancelled) => event is Cancelled,
        Err(TaskRunError::Failed(TaskError::StreamError { source })) => seen.failed == Some(source)
            && !seen.cancelled && !seen.lost,
        Err(TaskRunError::Failed(TaskError::ChannelClosed)) => seen.closed && seen.failed is None
            || event is Flushed && event->Flushed_0 is Err,
        Err(TaskRunError::Failed(TaskError::ExceededTotalSize)) => seen.vain && seen.failed is None,
        _ => false,
    }
}

/// One more event.
proof fn step_is_explained(
    total: Option<u64>,
    events: Seq<EventView>,
    before: RunnerView,
    held: nat,
    fed: nat,
)
    requires
        events.len() > 0,
        before == runner::after_events(runner::fresh_runner(total), events.drop_last()),
        before.wf(),
        runner::event_fits(before, events.last()),
        events.last() is Flushed ==> before.pending is Some,
        remembers(before, seen(total, events.drop_last()), fed),
        held == before.reached() + (match before.pending {
            Some(state) => state.flushed,
            None => 0,
        }),
        held <= fed,
        held + runner::waiting(before).len() == fed || before.is_covered(held),
    ensures
        ({
            let (after, action) = before.step(events.last());
            let now = fed + runner::item_of(events.last()).len();
            match action {
                ActionView::Stop(result) => stopped_for(
                    after,
                    seen(total, events),
                    now,
                    events.last(),
                    result,
                ),
                _ => remembers(after, seen(total, events), now),
            }
        }),
{
    let event = events.last();
    runner::total_never_grows(before, event);
    match event {
        EventView::Item(item) => {
            let count = before.accepted(item.len() as int);
            let take = before.fitting(count);
            assert(0 <= take <= count <= item.len());
            assert(item.take(take).len() == take && item.take(count).len() == count);
        },
        EventView::Flushed(Ok(_)) => {
            let state = before.pending->0;
            let arrived = RunnerView {
                data_open: true,
                downloaded: before.downloaded + state.flushed,
                pending: None,
                ..before
            };
            if let PostView::ContinueItem { item, offset } = state.post {
                let count = arrived.accepted(item.len() - offset);
                let take = arrived.fitting(count);
                assert(0 <= take <= count <= item.len() - offset);
                assert(item.subrange(offset, offset + take).len() == take);
            }
        },
        _ => {},
    }
}

/// Every run is explained.
proof fn runs_are_explained(total: Option<u64>, events: Seq<EventView>)
    requires
        runner::can_happen(runner::fresh_runner(total), events),
    ensures
        ({
            let start = runner::fresh_runner(total);
            let after = runner::after_events(start, events);
            let fed = runner::stream_bytes(events).len();
            match runner::last_action(start, events) {
                ActionView::Stop(result) => events.len() > 0 && stopped_for(
                    after,
                    seen(total, events),
                    fed,
                    events.last(),
                    result,
                ),
                _ => remembers(after, seen(total, events), fed),
            }
        }),
    decreases events.len(),
{
    if events.len() > 0 {
        let start = runner::fresh_runner(total);
        let earlier = events.drop_last();
        let before = runner::after_events(start, earlier);
        let held = runner::pushed_bytes(start, earlier) + before.buff;
        let fed = runner::stream_bytes(earlier);
        runs_are_explained(total, earlier);
        runner::events_keep_order(total, earlier);
        step_is_explained(total, events, before, held.len(), fed.len());
    }
}

/// What was put together is what the events hold.
proof fn seen_is_there(total: Option<u64>, events: Seq<EventView>)
    ensures
        ({
            let all = seen(total, events);
            &&& all.failed matches Some(source) ==> exists|k: int|
                0 <= k < events.len() && #[trigger] events[k] == EventView::StreamFailed(source)
            &&& all.closed ==> exists|k: int|
                0 <= k < events.len() && #[trigger] events[k] is Control && events[k]->Control_0
                    is Err
            &&& all.vain ==> exists|k: int|
                0 <= k < events.len() && vain_limit(
                    total_at(total, events, k),
                    #[trigger] events[k],
                )
            &&& all.ended ==> exists|k: int|
                0 <= k < events.len() && #[trigger] events[k] is StreamEnded
        }),
    decreases events.len(),
{
    if events.len() > 0 {
        let earlier = events.drop_last();
        let n = earlier.len() as int;
        seen_is_there(total, earlier);
        assert(events.take(n) =~= earlier);
        assert(events[n] == events.last());
        if let Some(source) = seen(total, earlier).failed {
            let k = choose|k: int|
                0 <= k < n && #[trigger] earlier[k] == EventView::StreamFailed(source);
            assert(events[k] == earlier[k]);
        }
        if seen(total, earlier).closed {
            let k = choose|k: int|
                0 <= k < n && #[trigger] earlier[k] is Control && earlier[k]->Control_0 is Err;
            assert(events[k] == earlier[k]);
        }
        if seen(total, earlier).vain {
            let k = choose|k: int|
                0 <= k < n && vain_limit(total_at(total, earlier, k), #[trigger] earlier[k]);
            assert(events[k] == earlier[k]);
            assert(events.take(k) =~= earlier.take(k));
        }
        if seen(total, earlier).ended {
            let k = choose|k: int| 0 <= k < n && #[trigger] earlier[k] is StreamEnded;
            assert(events[k] == earlier[k]);
        }
    }
}

/// What an event holds is put together.
proof fn event_is_seen(total: Option<u64>, events: Seq<EventView>, k: int)
    requires
        runner::can_happen(runner::fresh_runner(total), events),
        0 <= k < events.len(),
    ensures
        events[k] matches EventView::StreamFailed(source) ==> seen(total, events).failed == Some(
            source,
        ),
        events[k] is Cancelled ==> seen(total, events).cancelled,
        events[k] is Control && events[k]->Control_0 is Err ==> seen(total, events).closed,
        events[k] is Flushed && events[k]->Flushed_0 is Err ==> seen(total, events).lost,
        events[k] is StreamEnded ==> seen(total, events).ended,
        vain_limit(total_at(total, events, k), events[k]) ==> seen(total, events).vain,
    decreases events.len(),
{
    let earlier = events.drop_last();
    if k < earlier.len() {
        event_is_seen(total, earlier, k);
        runs_are_explained(total, earlier);
        assert(events[k] == earlier[k]);
        assert(events.take(k) =~= earlier.take(k));
    } else {
        assert(events.take(k) =~= earlier);
    }
}

/// Law: a stream that fails ends the run with its error, however much was downloaded
/// before and whatever the manager says meanwhile: at once, or as soon as what was
/// gathered has been handed over. Only a cancellation, or a data channel that is closed,
/// comes before it.
pub proof fn a_failed_stream_is_reported(
    total: Option<u64>,
    events: Seq<EventView>,
    k: int,
    source: AdapterError,
)
    requires
        runner::can_happen(runner::fresh_runner(total), events),
        0 <= k < events.len(),
        events[k] == EventView::StreamFailed(source),
        forall|j: int| k < j < events.len() ==> #[trigger] events[j] !is Cancelled,
        forall|j: int|
            k < j < events.len() ==> (#[trigger] events[j] matches EventView::Flushed(result) ==>
                result is Ok),
    ensures
        match runner::last_action(runner::fresh_runner(total), events) {
            ActionView::Stop(result) => result == Err::<(), TaskRunError>(
                TaskRunError::Failed(TaskError::StreamError { source }),
            ),
            ActionView::Flush(frame) => k == events.len() - 1 && frame.len() > 0,
            _ => k < events.len() - 1 && forall|j: int|
                k < j < events.len() ==> #[trigger] events[j] !is Flushed,
        },
    decreases events.len(),
{
    let start = runner::fresh_runner(total);
    let earlier = events.drop_last();
    let before = runner::after_events(start, earlier);
    runs_are_explained(total, events);
    runs_are_explained(total, earlier);
    runner::events_keep_order(total, earlier);
    event_is_seen(total, events, k);
    if k < earlier.len() {
        assert(forall|j: int| 0 <= j < earlier.len() ==> #[trigger] earlier[j] == events[j]);
        a_failed_stream_is_reported(total, earlier, k, source);
        event_is_seen(total, earlier, k);
        assert(events[events.len() - 1] == events.last());
        assert(before.pending is Some && (before.pending->0).post == PostView::PropagateError(
            source,
        ));
        assert forall|j: int| k < j < earlier.len() implies #[trigger] events[j] !is Flushed by {
            assert(earlier[j] !is Flushed);
        }
        assert(runner::last_action(start, events) == before.step(events.last()).1);
    } else {
        assert(events[k] == events.last());
        assert(runner::last_action(start, events) == before.step(events[k]).1);
    }
}

/// Law: a run that stops without an error met no failure: the stream did not fail, no
/// channel was closed, nobody cancelled it, and no limit came that does not lie below the
/// total.
pub proof fn success_met_no_failure(total: Option<u64>, events: Seq<EventView>, k: int)
    requires
        runner::can_happen(runner::fresh_runner(total), events),
        runner::last_action(runner::fresh_runner(total), events) == ActionView::Stop(
            Ok::<(), TaskRunError>(()),
        ),
        0 <= k < events.len(),
    ensures
        match events[k] {
            EventView::Cancelled | EventView::StreamFailed(_) => false,
            EventView::Control(Err(_)) | EventView::Flushed(Err(_)) => false,
            EventView::Control(Ok(_)) => !vain_limit(total_at(total, events, k), events[k]),
            _ => true,
        },
{
    runs_are_explained(total, events);
    event_is_seen(total, events, k);
}

/// Law: a run stops for a reason. It succeeds only where the stream has ended or has
/// brought the total; it is cancelled by a cancellation, fails with the error of its
/// stream, for want of a channel, or for a limit that does not lie below the total, and
/// for nothing else.
pub proof fn every_stop_has_its_reason(total: Option<u64>, events: Seq<EventView>)
    requires
        runner::can_happen(runner::fresh_runner(total), events),
    ensures
        runner::last_action(runner::fresh_runner(total), events) matches ActionView::Stop(result)
            ==> match result {
            Ok(_) => {
                ||| exists|k: int| 0 <= k < events.len() && #[trigger] events[k] is StreamEnded
                ||| (total_at(total, events, events.len() as int) matches Some(size)
                    && runner::stream_bytes(events).len() >= size)
            },
            Err(TaskRunError::Cancelled) => events.last() is Cancelled,
            Err(TaskRunError::Failed(TaskError::StreamError { source })) => exists|k: int|
                0 <= k < events.len() && #[trigger] events[k] == EventView::StreamFailed(source),
            Err(TaskRunError::Failed(TaskError::ChannelClosed)) => {
                ||| events.last() is Flushed && events.last()->Flushed_0 is Err
                ||| exists|k: int|
                    0 <= k < events.len() && #[trigger] events[k] is Control
                        && events[k]->Control_0 is Err
            },
            Err(TaskRunError::Failed(TaskError::ExceededTotalSize)) => exists|k: int|
                0 <= k < events.len() && vain_limit(
                    total_at(total, events, k),
                    #[trigger] events[k],
                ),
            _ => false,
        },
{
    runs_are_explained(total, events);
    seen_is_there(total, events);
    assert(events.take(events.len() as int) =~= events);
}

/// Law: the end of the stream ends the run without an error, where nobody interferes: at
/// once, or as soon as what was gathered has been handed over.
pub proof fn the_end_of_the_stream_is_success(total: Option<u64>, events: Seq<EventView>, k: int)
    requires
        runner::can_happen(runner::fresh_runner(total), events),
        0 <= k < events.len(),
        events[k] is StreamEnded,
        forall|j: int|
            0 <= j < events.len() ==> #[trigger] events[j] !is Cancelled && events[j] !is Control,
        forall|j: int|
            k < j < events.len() ==> (#[trigger] events[j] matches EventView::Flushed(result) ==>
                result is Ok),
    ensures
        match runner::last_action(runner::fresh_runner(total), events) {
            ActionView::Stop(result) => result is Ok,
            ActionView::Flush(frame) => k == events.len() - 1 && frame.len() > 0,
            _ => k < events.len() - 1 && forall|j: int|
                k < j < events.len() ==> #[trigger] events[j] !is Flushed,
        },
        runner::last_action(runner::fresh_runner(total), events) !is Stop ==> (
        runner::after_events(runner::fresh_runner(total), events).pending matches Some(state)
            && state.post is FinishSuccess),
    decreases events.len(),
{
    let start = runner::fresh_runner(total);
    let earlier = events.drop_last();
    let before = runner::after_events(start, earlier);
    runs_are_explained(total, events);
    runs_are_explained(total, earlier);
    runner::events_keep_order(total, earlier);
    seen_is_there(total, events);
    seen_is_there(total, earlier);
    assert(forall|j: int| 0 <= j < earlier.len() ==> #[trigger] earlier[j] == events[j]);
    assert(events[events.len() - 1] == events.last());
    if k < earlier.len() {
        the_end_of_the_stream_is_success(total, earlier, k);
        assert forall|j: int| k < j < earlier.len() implies #[trigger] events[j] !is Flushed by {
            assert(earlier[j] !is Flushed);
        }
        assert(runner::last_action(start, events) == before.step(events.last()).1);
    } else {
        assert(events[k] == events.last());
        assert(runner::last_action(start, events) == before.step(events[k]).1);
    }
}

/// Law: a run without limits reads no further once the stream has brought the total: it
/// stops, or is handing over.
pub proof fn the_total_ends_the_run(total: u64, events: Seq<EventView>)
    requires
        runner::can_happen(runner::fresh_runner(Some(total)), events),
        forall|k: int| 0 <= k < events.len() ==> #[trigger] events[k] !is Control,
        exists|k: int| 0 <= k < events.len() && #[trigger] events[k] is Item,
        runner::stream_bytes(events).len() >= total,
    ensures
        ({
            let start = runner::fresh_runner(Some(total));
            ||| runner::last_action(start, events) is Stop
            ||| runner::after_events(start, events).pending is Some
        }),
    decreases events.len(),
{
    let start = runner::fresh_runner(Some(total));
    let earlier = events.drop_last();
    let before = runner::after_events(start, earlier);
    let after = runner::after_events(start, events);
    assert(forall|j: int| 0 <= j < earlier.len() ==> #[trigger] earlier[j] == events[j]);
    assert(events[events.len() - 1] == events.last());
    if runner::last_action(start, events) !is Stop && after.pending is None {
        runner::events_keep_order(Some(total), earlier);
        runner::events_keep_order(Some(total), events);
        runs_are_explained(Some(total), earlier);
        totals_stay(Some(total), events);
        let held = runner::pushed_bytes(start, events) + after.buff;
        assert(held + runner::waiting(after) =~= held);
        assert(after.is_full());
        if events.last() is Item || events.last() is Flushed {
            goes_on_for_more(before, events.last());
        } else {
            let k = choose|k: int| 0 <= k < events.len() && #[trigger] events[k] is Item;
            assert(earlier[k] is Item);
            assert(runner::stream_bytes(events) =~= runner::stream_bytes(earlier));
            the_total_ends_the_run(total, earlier);
        }
    }
}

/// A runner that goes on reading has not reached the total.
proof fn goes_on_for_more(before: RunnerView, event: EventView)
    requires
        before.wf(),
        runner::event_fits(before, event),
        event is Item || event is Flushed,
        event is Flushed ==> before.pending is Some && (before.pending->0).post !is Resume,
    ensures
        ({
            let (after, action) = before.step(event);
            action is Stop || after.pending is Some || !after.is_full()
        }),
{
    match event {
        EventView::Item(item) => {
            let count = before.accepted(item.len() as int);
            let take = before.fitting(count);
            assert(0 <= take <= count <= item.len());
            assert(item.take(take).len() == take && item.take(count).len() == count);
        },
        _ => {},
    }
}

/// Only a limit changes the total.
proof fn totals_stay(total: Option<u64>, events: Seq<EventView>)
    requires
        forall|k: int| 0 <= k < events.len() ==> #[trigger] events[k] !is Control,
    ensures
        runner::after_events(runner::fresh_runner(total), events).total == total,
    decreases events.len(),
{
    if events.len() > 0 {
        let earlier = events.drop_last();
        assert(forall|j: int| 0 <= j < earlier.len() ==> #[trigger] earlier[j] == events[j]);
        assert(events[events.len() - 1] == events.last());
        totals_stay(total, earlier);
    }
}

/// Law: frames are never empty nor larger than the buffer, and a frame that does not fill
/// the buffer is the last one: when it has been handed over, the run stops.
pub proof fn frames_fill_the_buffer(runner: RunnerView, event: EventView)
    requires
        runner.wf(),
        runner::event_fits(runner, event),
        event is Flushed ==> runner.pending is Some,
    ensures
        ({
            let (after, action) = runner.step(event);
            action matches ActionView::Flush(frame) ==> {
                &&& 0 < frame.len() <= BUFFER_SIZE
                &&& frame.len() < BUFFER_SIZE ==> after.step(EventView::Flushed(Ok(()))).1 is Stop
            }
        }),
{
    match event {
        EventView::Item(item) => {
            let count = runner.accepted(item.len() as int);
            let take = runner.fitting(count);
            assert(0 <= take <= count <= item.len());
            assert(item.take(take).len() == take && item.take(count).len() == count);
        },
        EventView::Flushed(Ok(_)) => {
            let state = runner.pending->0;
            let arrived = RunnerView {
                data_open: true,
                downloaded: runner.downloaded + state.flushed,
                pending: None,
                ..runner
            };
            if let PostView::ContinueItem { item, offset } = state.post {
                let count = arrived.accepted(item.len() - offset);
                let take = arrived.fitting(count);
                assert(0 <= take <= count <= item.len() - offset);
                assert(item.subrange(offset, offset + take).len() == take);
            }
        },
        _ => {},
    }
}

/// Law: a cancelled runner stops at once, and a slow stream changes nothing.
pub proof fn a_cancellation_is_obeyed(runner: RunnerView)
    ensures
        runner.step(EventView::Cancelled).1 == ActionView::Stop(
            Err::<(), TaskRunError>(TaskRunError::Cancelled),
        ),
        runner.step(EventView::SlowTransfer) == (runner, ActionView::Wait),
{
}

/// Law: of a known total and a limit the smaller is the new total; a limit that is not
/// below the total is an error, which stops a runner that is not handing over. An unknown
/// total stays unknown.
pub proof fn the_smaller_limit_holds(runner: RunnerView, limit: u64)
    requires
        runner.wf(),
    ensures
        ({
            let (after, action) = runner.step(
                EventView::Control(Ok(ControlEvent::LimitTotal(limit))),
            );
            match runner.total {
                None => after == runner && action is Wait,
                Some(total) => {
                    &&& after.total matches Some(size) && size <= total && size <= limit && (size
                        == total || size == limit)
                    &&& limit >= total && runner.pending is None ==> action == ActionView::Stop(
                        Err::<(), TaskRunError>(
                            TaskRunError::Failed(TaskError::ExceededTotalSize),
                        ),
                    )
                    &&& limit < total ==> action is Wait
                },
            }
        }),
{
}

/// Law: what the manager is told. It hears of success exactly where the run stopped
/// without an error, the downloaded size is what was expected, and all frames were taken.
/// A cancelled or failed run is told with its own error, unless the frames were not taken;
/// a wrong size is told as such.
pub proof fn the_manager_hears_the_truth(
    total: Option<u64>,
    downloaded: u64,
    result: Result<(), TaskRunError>,
    drained: DataDrainOutcome,
)
    ensures
        ({
            let concluded = runner::concluded_result(total, downloaded, result);
            let told = runner::reported(runner::drained_result(concluded, drained));
            let expected = match total {
                Some(size) => size == downloaded,
                None => downloaded > 0,
            };
            &&& told is Stopped
            &&& told == LifecycleEvent::Stopped(StoppedReason::Finished) <==> result is Ok
                && expected && drained == DataDrainOutcome::Drained
            &&& drained == DataDrainOutcome::Cancelled ==> told == LifecycleEvent::Stopped(
                StoppedReason::Failed(TaskError::Cancelled),
            )
            &&& drained == DataDrainOutcome::TimedOut ==> told == LifecycleEvent::Stopped(
                StoppedReason::Failed(TaskError::Timeout),
            )
            &&& drained == DataDrainOutcome::Drained ==> {
                &&& result matches Err(TaskRunError::Failed(error)) ==> told
                    == LifecycleEvent::Stopped(StoppedReason::Failed(error))
                &&& result matches Err(TaskRunError::Cancelled) ==> told
                    == LifecycleEvent::Stopped(StoppedReason::Failed(TaskError::Cancelled))
                &&& result is Ok && total is None && downloaded == 0 ==> told
                    == LifecycleEvent::Stopped(StoppedReason::Failed(TaskError::Empty))
                &&& result is Ok && (total matches Some(size) && downloaded < size) ==> told
                    == LifecycleEvent::Stopped(
                    StoppedReason::Failed(TaskError::SmallerThanTotalSize),
                )
                &&& result is Ok && (total matches Some(size) && downloaded > size) ==> told
                    == LifecycleEvent::Stopped(StoppedReason::Failed(TaskError::ExceededTotalSize))
            }
        }),
        // The frames are waited for wherever the downloaded bytes are to be used
        result is Ok ==> runner::drain_matters(result),
        (result matches Err(TaskRunError::Failed(error)) && (error is StreamError || error
            is ExceededTotalSize)) ==> runner::drain_matters(result),
        result matches Err(TaskRunError::Cancelled) ==> !runner::drain_matters(result),
{
}

/// Law: a run that is told as finished has handed over exactly the content: as many bytes
/// as the total, where it is known, and all of the stream otherwise.
pub proof fn finished_means_delivered(
    total: Option<u64>,
    events: Seq<EventView>,
    result: Result<(), TaskRunError>,
    drained: DataDrainOutcome,
)
    requires
        runner::can_happen(runner::fresh_runner(total), events),
        runner::last_action(runner::fresh_runner(total), events) == ActionView::Stop(result),
        runner::after_events(runner::fresh_runner(total), events).downloaded <= u64::MAX,
        ({
            let after = runner::after_events(runner::fresh_runner(total), events);
            runner::reported(
                runner::drained_result(
                    runner::concluded_result(after.total, after.downloaded as u64, result),
                    drained,
                ),
            ) == LifecycleEvent::Stopped(StoppedReason::Finished)
        }),
    ensures
        ({
            let start = runner::fresh_runner(total);
            let pushed = runner::pushed_bytes(start, events);
            let fed = runner::stream_bytes(events);
            match runner::after_events(start, events).total {
                Some(size) => fed.len() >= size && pushed == fed.take(size as int),
                None => fed.len() > 0 && pushed == fed,
            }
        }),
        forall|k: int| 0 <= k < events.len() ==> #[trigger] events[k] !is StreamFailed,
{
    let start = runner::fresh_runner(total);
    let pushed = runner::pushed_bytes(start, events);
    let fed = runner::stream_bytes(events);
    runner::frames_are_the_stream(total, events);
    assert forall|k: int| 0 <= k < events.len() implies #[trigger] events[k] !is StreamFailed by {
        success_met_no_failure(total, events, k);
    }
}

} // verus!

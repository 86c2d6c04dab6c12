//! Unified management of runner lifecycle and communication:
//! - runner ID allocation and recycling
//! - chunk allocation and progress tracking
//! - aggregated reception of what runners report
//! - channels for sending control messages to specific runners
use crate::aggregator::{
    DataAggregator, DataStreamEvent, LifecycleAggregator, LifecycleStreamEvent,
    RunnerTaggedStreamItem,
};
use crate::chunk_state::ChunkState;
use crate::control_channel::{
    control_channel, deliver, ControlReceiver, ControlSender, SendError,
    DEFAULT_CONTROL_CHANNEL_CAPACITY,
};
use crate::id::Generator;
use crate::outcome::{FailureKind, RunnerOutcome, RunnerOutcomeSampler};
use crate::pending::{PendingRunnerGroup, PendingRunnerOutput, RunnerBuilderOutput};
use crate::planner::{ChunkPlanner, Error};
use crate::planner_guard::PlannerGuard;
use crate::runner::ControlEvent;
use crate::runner_error::{LifecycleEvent, StoppedReason, TaskError};
use crate::{buffer, chunk_state, control_channel, id, outcome, planner, RunnerId};
use bytes::Bytes;
use std::collections::HashMap;
use std::ops::Range;
use vstd::prelude::*;

verus! {

broadcast use vstd::std_specs::hash::group_hash_axioms;

/// A chunk of data downloaded by a runner, ready to be written to disk.
#[derive(Debug)]
pub struct DownloadedChunk {
    /// Where the bytes belong.
    pub range: Range<u64>,
    /// The bytes.
    pub bytes: Bytes,
}

/// How far a task is.
#[derive(Clone, Copy, Debug, PartialEq, Eq, Structural)]
pub enum TaskState {
    /// The task is downloading.
    Downloading,
    /// No runner is allocated or running.
    Paused,
    /// The task is finished.
    Finished,
}

/// Streams that nobody listens to any more, by where they are found.
#[derive(Debug)]
pub struct ReleasedStreams<K> {
    /// A lifecycle stream.
    pub lifecycle: Option<K>,
    /// A data stream.
    pub data: Option<K>,
}

/// What a tick of the manager led to.
#[derive(Debug)]
pub struct RunnerTick<K> {
    /// How far the task is.
    pub state: TaskState,
    /// A chunk to be written.
    pub downloaded: Option<DownloadedChunk>,
    /// Streams to be dropped.
    pub released: ReleasedStreams<K>,
}

impl<K> RunnerTick<K> {
    /// No stream is to be dropped.
    pub open spec fn releases_nothing(&self) -> bool {
        self.released == (ReleasedStreams::<K> { lifecycle: None, data: None })
    }

    /// The download goes on.
    pub fn downloading() -> (tick: Self)
        ensures
            tick == (RunnerTick {
                state: TaskState::Downloading,
                downloaded: None,
                released: ReleasedStreams::<K> { lifecycle: None, data: None },
            }),
    {
        RunnerTick {
            state: TaskState::Downloading,
            downloaded: None,
            released: ReleasedStreams { lifecycle: None, data: None },
        }
    }

    /// The download is done.
    pub fn finished() -> (tick: Self)
        ensures
            tick == (RunnerTick {
                state: TaskState::Finished,
                downloaded: None,
                released: ReleasedStreams::<K> { lifecycle: None, data: None },
            }),
    {
        RunnerTick {
            state: TaskState::Finished,
            downloaded: None,
            released: ReleasedStreams { lifecycle: None, data: None },
        }
    }

    /// The download goes on with a chunk to be written.
    pub fn with_chunk(chunk: DownloadedChunk) -> (tick: Self)
        ensures
            tick == (RunnerTick {
                state: TaskState::Downloading,
                downloaded: Some(chunk),
                released: ReleasedStreams::<K> { lifecycle: None, data: None },
            }),
    {
        RunnerTick {
            state: TaskState::Downloading,
            downloaded: Some(chunk),
            released: ReleasedStreams { lifecycle: None, data: None },
        }
    }
}

/// Runner registration information.
#[derive(Debug)]
pub struct RunnerRegistration {
    /// Runner ID.
    pub runner_id: RunnerId,
    /// Control message receiver.
    pub control_rx: ControlReceiver,
}

/// What the manager is woken by. Where several things happened at once, lifecycle
/// events come first, then pending runners, then data.
#[derive(Debug)]
pub enum ManagerEvent<K> {
    /// The lifecycle streams yielded something, or ended.
    Lifecycle(Option<LifecycleStreamEvent>),
    /// A runner was created, or was not; or none is being created.
    Pending(Option<PendingRunnerOutput<K>>),
    /// The data streams yielded something, or ended.
    Data(Option<DataStreamEvent>),
}

/// Unified management of runner lifecycle and communication.
pub struct RunnerManager<K> {
    /// ID generator for managing runner ID allocation and recycling.
    pub id_generator: Generator,
    /// Chunk planner for managing chunk allocation and progress.
    pub chunk_planner: ChunkPlanner,
    /// Control channel mapping for sending messages to specific runners.
    pub control_channels: HashMap<RunnerId, ControlSender>,
    /// Runners that are being created.
    pub pending_runners: PendingRunnerGroup,
    /// Sampler for tracking the outcome of the runners.
    pub runner_outcome_sampler: RunnerOutcomeSampler,
    /// Lifecycle aggregator for runners' lifecycle events.
    pub lifecycle_aggregator: LifecycleAggregator<K>,
    /// Data aggregator for runners' data frames.
    pub data_aggregator: DataAggregator<K>,
}

/// The runner did what it could: it finished, or met a server that sent more than
/// was asked for.
pub open spec fn did_its_part(reason: StoppedReason) -> bool {
    match reason {
        StoppedReason::Finished => true,
        StoppedReason::Failed(error) => error is ExceededTotalSize,
    }
}

/// How the end of a runner counts.
pub open spec fn outcome_of(reason: StoppedReason) -> RunnerOutcome {
    if did_its_part(reason) {
        RunnerOutcome::Completed
    } else {
        RunnerOutcome::StreamClosed(
            if reason->Failed_0.retryable() {
                FailureKind::Retryable
            } else {
                FailureKind::Unretryable
            },
        )
    }
}

/// The bytes a runner has delivered since its meter was last read.
pub open spec fn metered(meters: Map<RunnerId, usize>, runner_id: RunnerId) -> int {
    if meters.contains_key(runner_id) {
        meters[runner_id] as int
    } else {
        0
    }
}

/// The ID is in use.
pub open spec fn in_use(used: Seq<bool>, runner_id: RunnerId) -> bool {
    runner_id < used.len() && used[runner_id as int]
}

/// Exactly the runners whose ID is in use have a channel.
pub open spec fn channels_match(channels: Map<RunnerId, ControlSender>, used: Seq<bool>) -> bool {
    forall|runner_id: RunnerId|
        channels.contains_key(runner_id) <==> #[trigger] in_use(used, runner_id)
}

impl<K> RunnerManager<K> {
    /// The ID is in use.
    pub open spec fn allocated(&self, runner_id: RunnerId) -> bool {
        in_use(self.id_generator.used(), runner_id)
    }

    /// Exactly the runners whose ID is in use have a control channel.
    pub open spec fn wf(&self) -> bool {
        &&& self.id_generator.wf()
        &&& self.chunk_planner.wf()
        &&& channels_match(self.control_channels@, self.id_generator.used())
    }

    /// A chunk that is not finished has a runner; it is that runner's chunk, and the
    /// runner's ID is in use.
    pub open spec fn in_hand(&self, key: Range<u64>) -> bool {
        let chunk = self.chunk_planner.chunk_map()[key];
        chunk.status != chunk_state::ChunkStatus::Finished ==> {
            &&& chunk.runner_id is Some
            &&& self.allocated(chunk.runner_id->0)
            &&& self.chunk_planner.runner_map().contains_key(chunk.runner_id->0)
            &&& self.chunk_planner.runner_map()[chunk.runner_id->0] == key
        }
    }

    /// What holds of a manager from the start on: the plan is consistent, all that is
    /// not finished is in the hands of a runner, the number of chunks is not limited, and
    /// a chunk of the minimal size can be halved.
    pub open spec fn orderly(&self) -> bool {
        &&& self.chunk_planner.consistent()
        &&& self.chunk_planner.max_chunk_count is None
        &&& 2 <= self.chunk_planner.min_chunk_size <= u64::MAX / 2
        &&& forall|key: Range<u64>| #[trigger]
            self.chunk_planner.chunk_map().contains_key(key) ==> self.in_hand(key)
    }

    /// Nothing but IDs and control channels differs.
    pub open spec fn same_books(&self, other: &RunnerManager<K>) -> bool {
        &&& self.chunk_planner == other.chunk_planner
        &&& self.pending_runners == other.pending_runners
        &&& self.runner_outcome_sampler == other.runner_outcome_sampler
    }

    /// Nobody is listened to differently.
    pub open spec fn same_streams(&self, other: &RunnerManager<K>) -> bool {
        &&& self.lifecycle_aggregator == other.lifecycle_aggregator
        &&& self.data_aggregator == other.data_aggregator
    }

    /// The same IDs are in use, with the same channels.
    pub open spec fn same_runners(&self, other: &RunnerManager<K>) -> bool {
        &&& self.id_generator == other.id_generator
        &&& self.control_channels == other.control_channels
    }

    /// Nothing is planned, no ID is in use, nobody is listened to, and nothing is
    /// recorded.
    pub open spec fn is_initial(&self, total: u64, max_concurrency: usize) -> bool {
        &&& self.chunk_planner.is_initial(total)
        &&& self.id_generator.used() == Seq::new(max_concurrency as nat, |i: int| false)
        &&& self.id_generator.next_free_hint == 0
        &&& self.control_channels@ == Map::<RunnerId, ControlSender>::empty()
        &&& self.pending_runners.runners@ == Seq::<RunnerId>::empty()
        &&& !self.pending_runners.waiting
        &&& self.runner_outcome_sampler.is_initial()
        &&& self.lifecycle_aggregator.map@ == Map::<RunnerId, K>::empty()
        &&& !self.lifecycle_aggregator.is_closed
        &&& !self.lifecycle_aggregator.waiting
        &&& self.data_aggregator.map@ == Map::<RunnerId, K>::empty()
    }

    /// Creates a new manager.
    ///
    /// # Arguments
    /// * `total` - Total size of the file to download
    /// * `max_concurrency` - Maximum concurrency level
    pub fn new(total: u64, max_concurrency: usize) -> (manager: Self)
        requires
            max_concurrency <= usize::MAX / 8,
        ensures
            manager.wf(),
            manager.orderly(),
            manager.is_initial(total, max_concurrency),
    {
        RunnerManager {
            id_generator: Generator::new(max_concurrency),
            chunk_planner: ChunkPlanner::new(total),
            control_channels: HashMap::with_capacity(max_concurrency),
            pending_runners: PendingRunnerGroup::new(),
            runner_outcome_sampler: RunnerOutcomeSampler::with_defaults(),
            lifecycle_aggregator: LifecycleAggregator::with_capacity(max_concurrency),
            data_aggregator: DataAggregator::with_capacity(max_concurrency),
        }
    }

    /// The sampler, to be changed.
    pub fn runner_outcome_sampler_mut(&mut self) -> (sampler: &mut RunnerOutcomeSampler)
        ensures
            *sampler == old(self).runner_outcome_sampler,
            *final(self) == (RunnerManager { runner_outcome_sampler: *final(sampler), ..*old(self)
            }),
    {
        &mut self.runner_outcome_sampler
    }

    /// Allocates a new runner ID and corresponding control channel. `None` where
    /// maximum concurrency has been reached.
    pub fn allocate_runner(&mut self) -> (registration: Option<RunnerRegistration>)
        requires
            old(self).wf(),
        ensures
            final(self).wf(),
            final(self).same_books(old(self)),
            final(self).same_streams(old(self)),
            registration is None <==> forall|i: int|
                0 <= i < old(self).id_generator.used().len()
                    ==> #[trigger] old(self).id_generator.used()[i],
            match registration {
                Some(registration) => final(self).registered(old(self), registration),
                None => *final(self) == *old(self),
            },
    {
        let runner_id: usize = match self.id_generator.next() {
            Some(runner_id) => runner_id,
            None => {
                return None;
            },
        };
        let (tx, rx) = control_channel(DEFAULT_CONTROL_CHANNEL_CAPACITY);
        self.control_channels.insert(runner_id, tx);
        proof {
            assert forall|other: RunnerId|
                self.control_channels@.contains_key(other) <==> #[trigger] in_use(
                    self.id_generator.used(),
                    other,
                ) by {
                assert(in_use(old(self).id_generator.used(), other) <==> old(
                    self).control_channels@.contains_key(other));
            }
            assert(self.control_channels@ =~= old(self).control_channels@.insert(
                runner_id,
                self.control_channels@[runner_id],
            ));
        }
        Some(RunnerRegistration { runner_id, control_rx: rx })
    }

    /// A free ID was taken, with a new control channel.
    pub open spec fn registered(
        &self,
        before: &RunnerManager<K>,
        registration: RunnerRegistration,
    ) -> bool {
        let runner_id = registration.runner_id;
        &&& id::next_free(
            before.id_generator.used(),
            before.id_generator.next_free_hint as int,
            before.id_generator.used().len() as int,
        ) == Some(runner_id as int)
        &&& !before.allocated(runner_id)
        &&& runner_id < before.id_generator.used().len()
        &&& self.id_generator.used() == before.id_generator.used().update(runner_id as int, true)
        &&& self.id_generator.next_free_hint == (runner_id + 1) % (
        before.id_generator.used().len() as int)
        &&& self.control_channels@ == before.control_channels@.insert(
            runner_id,
            self.control_channels@[runner_id],
        )
        &&& control_channel::connected(
            self.control_channels@[runner_id],
            registration.control_rx,
            DEFAULT_CONTROL_CHANNEL_CAPACITY,
        )
    }

    /// Releases a runner ID and its associated resources: the control channel is
    /// closed, and its streams are listened to no longer.
    pub fn release_runner(&mut self, runner_id: RunnerId) -> (streams: ReleasedStreams<K>)
        requires
            old(self).wf(),
        ensures
            final(self).wf(),
            final(self).same_books(old(self)),
            final(self).unregistered(old(self), runner_id, streams),
    {
        // Close control channel (receiver will get closed signal after sender is
        // dropped)
        self.control_channels.remove(&runner_id);
        let lifecycle = self.lifecycle_aggregator.remove(runner_id);
        let data = self.data_aggregator.unregister(runner_id);
        self.id_generator.release(runner_id);
        proof {
            assert(self.control_channels@ =~= old(self).control_channels@.remove(runner_id));
            assert forall|other: RunnerId|
                self.control_channels@.contains_key(other) <==> #[trigger] in_use(
                    self.id_generator.used(),
                    other,
                ) by {
                assert(in_use(old(self).id_generator.used(), other) <==> old(
                    self).control_channels@.contains_key(other));
            }
        }
        ReleasedStreams { lifecycle, data }
    }

    /// The ID of a runner was given back, with all that belongs to it.
    pub open spec fn unregistered(
        &self,
        before: &RunnerManager<K>,
        runner_id: RunnerId,
        streams: ReleasedStreams<K>,
    ) -> bool {
        let listened = before.lifecycle_aggregator;
        let fed = before.data_aggregator;
        &&& self.control_channels@ == before.control_channels@.remove(runner_id)
        &&& self.id_generator.used() == if before.allocated(runner_id) {
            before.id_generator.used().update(runner_id as int, false)
        } else {
            before.id_generator.used()
        }
        &&& self.id_generator.next_free_hint == if before.allocated(runner_id) && runner_id
            < before.id_generator.next_free_hint {
            runner_id
        } else {
            before.id_generator.next_free_hint
        }
        &&& self.lifecycle_aggregator.map@ == listened.map@.remove(runner_id)
        &&& self.lifecycle_aggregator.is_closed == listened.is_closed
        &&& self.lifecycle_aggregator.waiting == listened.waiting
        &&& self.data_aggregator.map@ == fed.map@.remove(runner_id)
        &&& streams.lifecycle == if listened.map@.contains_key(runner_id) {
            Some(listened.map@[runner_id])
        } else {
            None
        }
        &&& streams.data == if fed.map@.contains_key(runner_id) {
            Some(fed.map@[runner_id])
        } else {
            None
        }
    }

    /// Gets the number of currently allocated runners.
    pub fn allocated_runner_count(&self) -> (count: usize)
        requires
            self.wf(),
        ensures
            count == id::count_set(self.id_generator.used()),
    {
        self.id_generator.allocated_count()
    }

    /// Checks if maximum concurrency has been reached.
    pub fn is_full(&self) -> (full: bool)
        requires
            self.wf(),
        ensures
            full <==> forall|i: int|
                0 <= i < self.id_generator.used().len() ==> #[trigger] self.id_generator.used()[i],
    {
        self.id_generator.is_full()
    }

    /// Checks if there are no runners.
    pub fn is_empty(&self) -> (empty: bool)
        requires
            self.wf(),
        ensures
            empty <==> forall|i: int|
                0 <= i < self.id_generator.used().len()
                    ==> !(#[trigger] self.id_generator.used()[i]),
    {
        self.id_generator.is_empty()
    }

    /// Sends a control message to the specified runner. Whether a known runner's
    /// channel takes it depends on the runner.
    pub fn send_message(&self, runner_id: RunnerId, message: ControlEvent) -> (result: Result<
        (),
        SendError,
    >)
        ensures
            sent_to(self.control_channels@, runner_id, message, result),
    {
        send_message(&self.control_channels, runner_id, message)
    }

    /// Registers a lifecycle stream for a runner. Returns whether someone is to be
    /// woken.
    pub fn register_lifecycle(&mut self, runner_id: RunnerId, key: K) -> (woken: bool)
        requires
            old(self).wf(),
        ensures
            final(self).wf(),
            final(self).same_runners(old(self)),
            final(self).same_books(old(self)),
            final(self).data_aggregator == old(self).data_aggregator,
            final(self).lifecycle_aggregator.map@ == old(self).lifecycle_aggregator.map@.insert(
                runner_id,
                key,
            ),
            final(self).lifecycle_aggregator.is_closed == old(self).lifecycle_aggregator.is_closed,
            !final(self).lifecycle_aggregator.waiting,
            woken == old(self).lifecycle_aggregator.waiting,
    {
        self.lifecycle_aggregator.add(runner_id, key)
    }

    /// Registers a data stream for a runner, once the runner is created.
    pub fn register_data(&mut self, runner_id: RunnerId, key: K)
        requires
            old(self).wf(),
        ensures
            final(self).wf(),
            final(self).same_runners(old(self)),
            final(self).same_books(old(self)),
            final(self).lifecycle_aggregator == old(self).lifecycle_aggregator,
            final(self).data_aggregator.map@ == old(self).data_aggregator.map@.insert(
                runner_id,
                key,
            ),
    {
        self.data_aggregator.register(runner_id, key);
    }

    /// The data aggregator, for consuming data.
    pub fn data_aggregator(&mut self) -> (aggregator: &mut DataAggregator<K>)
        ensures
            *aggregator == old(self).data_aggregator,
            *final(self) == (RunnerManager { data_aggregator: *final(aggregator), ..*old(self) }),
    {
        &mut self.data_aggregator
    }

    /// Gets the total file size.
    pub fn total(&self) -> (total: u64)
        ensures
            total == self.chunk_planner.total,
    {
        self.chunk_planner.total
    }
}

impl<K> RunnerManager<K> {
    /// Nothing but the plan differs.
    pub open spec fn only_plan_differs(&self, other: &RunnerManager<K>) -> bool {
        &&& self.same_runners(other)
        &&& self.same_streams(other)
        &&& self.pending_runners == other.pending_runners
        &&& self.runner_outcome_sampler == other.runner_outcome_sampler
    }

    /// Allocates a chunk to the specified runner.
    pub fn allocate_chunk(&mut self, range: Range<u64>, runner_id: RunnerId) -> (done: bool)
        requires
            old(self).wf(),
        ensures
            final(self).wf(),
            old(self).chunk_planner.consistent() ==> final(self).chunk_planner.consistent(),
            old(self).orderly() && old(self).allocated(runner_id) && (
            old(self).chunk_planner.runner_chunk(runner_id) matches Some(chunk) ==> chunk.status
                == chunk_state::ChunkStatus::Finished) ==> final(self).orderly(),
            final(self).only_plan_differs(old(self)),
            final(self).chunk_planner.took(
                &old(self).chunk_planner,
                range,
                Some(runner_id),
                done,
            ),
    {
        self.chunk_planner.allocate_chunk(range, Some(runner_id))
    }

    /// Updates the download progress of a runner.
    pub fn update_progress(&mut self, runner_id: RunnerId, bytes_downloaded: u64) -> (result: Result<
        Range<u64>,
        String,
    >)
        requires
            old(self).wf(),
            old(self).chunk_planner.runner_chunk(runner_id) matches Some(chunk)
                ==> chunk.downloaded.end + bytes_downloaded <= u64::MAX,
        ensures
            final(self).wf(),
            old(self).chunk_planner.consistent() ==> final(self).chunk_planner.consistent(),
            old(self).orderly() ==> final(self).orderly(),
            final(self).only_plan_differs(old(self)),
            final(self).chunk_planner.progressed(
                &old(self).chunk_planner,
                runner_id,
                bytes_downloaded,
                result,
            ),
    {
        self.chunk_planner.update_progress(runner_id, bytes_downloaded)
    }

    /// Marks a runner as finished.
    pub fn mark_finished(&mut self, runner_id: RunnerId) -> (result: Result<(), Error>)
        requires
            old(self).wf(),
        ensures
            final(self).wf(),
            old(self).chunk_planner.consistent() ==> final(self).chunk_planner.consistent(),
            old(self).orderly() ==> final(self).orderly(),
            final(self).only_plan_differs(old(self)),
            final(self).chunk_planner.finished(&old(self).chunk_planner, runner_id, result),
    {
        self.chunk_planner.mark_finished(runner_id)
    }

    /// Marks a runner as failed.
    pub fn mark_failed(&mut self, runner_id: RunnerId) -> (result: Result<Range<u64>, Error>)
        requires
            old(self).wf(),
        ensures
            final(self).wf(),
            old(self).chunk_planner.consistent() ==> final(self).chunk_planner.consistent(),
            old(self).orderly() ==> final(self).orderly(),
            final(self).only_plan_differs(old(self)),
            final(self).chunk_planner.gave_up(&old(self).chunk_planner, runner_id, result),
    {
        self.chunk_planner.mark_failed(runner_id)
    }

    /// Gets the total amount downloaded.
    pub fn get_total_downloaded(&self) -> (bytes: u64)
        requires
            self.wf(),
            chunk_state::total_progress(self.chunk_planner.chunk_map()) <= u64::MAX,
        ensures
            bytes == chunk_state::total_progress(self.chunk_planner.chunk_map()),
    {
        self.chunk_planner.get_total_downloaded()
    }

    /// Gets the downloaded ranges.
    pub fn get_downloaded_ranges(&self) -> (ranges: Vec<Range<u64>>)
        requires
            self.wf(),
        ensures
            self.chunk_planner.lists_fetched(ranges@),
    {
        self.chunk_planner.get_downloaded_ranges()
    }

    /// Gets the available ranges.
    pub fn get_available_ranges(&self) -> (ranges: Vec<Range<u64>>)
        requires
            self.wf(),
        ensures
            self.chunk_planner.lists_available(ranges@),
    {
        self.chunk_planner.get_available_ranges()
    }

    /// Gets the number of active runners.
    pub fn get_active_runners_count(&self) -> (count: usize)
        requires
            self.wf(),
        ensures
            count == chunk_state::active_keys(self.chunk_planner.chunk_map()).len(),
    {
        self.chunk_planner.get_active_runners_count()
    }

    /// Gets the state of the specified runner.
    pub fn get_runner_state(&self, runner_id: RunnerId) -> (state: Option<&ChunkState>)
        requires
            self.wf(),
        ensures
            match state {
                Some(chunk) => self.chunk_planner.runner_chunk(runner_id) == Some(*chunk),
                None => self.chunk_planner.runner_chunk(runner_id) is None,
            },
    {
        self.chunk_planner.get_runner_state(runner_id)
    }

    /// Finds a chunk that can be split.
    pub fn find_chunk_to_split(&self, required_size: u64) -> (found: Option<
        (Option<RunnerId>, Range<u64>),
    >)
        requires
            self.wf(),
            self.chunk_planner.split_fits(required_size),
        ensures
            self.chunk_planner.found_to_split(required_size, found),
    {
        self.chunk_planner.find_chunk_to_split(required_size)
    }

    /// Gets incomplete states.
    pub fn get_incomplete_states(&self, min_chunk_size: Option<u64>) -> (states: Vec<
        (RunnerId, Range<u64>),
    >)
        requires
            self.wf(),
            self.chunk_planner.can_list_incomplete(min_chunk_size),
        ensures
            states@ == self.chunk_planner.incomplete(min_chunk_size),
    {
        self.chunk_planner.get_incomplete_states(min_chunk_size)
    }

    /// Allocates a new runner and assigns a chunk: both, or neither. `None` where no
    /// runner ID is free or the range cannot be allocated.
    pub fn allocate_runner_with_chunk(&mut self, range: Range<u64>) -> (registration: Option<
        RunnerRegistration,
    >)
        requires
            old(self).wf(),
        ensures
            final(self).wf(),
            old(self).chunk_planner.consistent() ==> final(self).chunk_planner.consistent(),
            old(self).orderly() ==> final(self).orderly(),
            final(self).pending_runners == old(self).pending_runners,
            final(self).runner_outcome_sampler == old(self).runner_outcome_sampler,
            registration is Some <==> old(self).has_free_id() && old(
                self).chunk_planner.can_allocate(range),
            match registration {
                Some(registration) => {
                    &&& final(self).registered(old(self), registration)
                    &&& final(self).same_streams(old(self))
                    &&& final(self).chunk_planner.took(
                        &old(self).chunk_planner,
                        range,
                        Some(registration.runner_id),
                        true,
                    )
                },
                None => final(self).refused(old(self)),
            },
    {
        let registration = match self.allocate_runner() {
            Some(registration) => registration,
            None => {
                return None;
            },
        };
        if !self.allocate_chunk(range, registration.runner_id) {
            self.release_runner(registration.runner_id);
            proof {
                self.gave_back(old(self), registration.runner_id);
            }
            return None;
        }
        Some(registration)
    }

    /// Allocates a runner that is being created and assigns a chunk: both, or
    /// neither. `None` where no runner ID is free or the range cannot be allocated.
    pub fn allocate_pending_runner_with_chunk(&mut self, range: Range<u64>) -> (registration: Option<
        RunnerRegistration,
    >)
        requires
            old(self).wf(),
        ensures
            final(self).wf(),
            old(self).chunk_planner.consistent() ==> final(self).chunk_planner.consistent(),
            old(self).orderly() ==> final(self).orderly(),
            final(self).runner_outcome_sampler == old(self).runner_outcome_sampler,
            registration is Some <==> old(self).has_free_id() && old(
                self).chunk_planner.can_allocate(range),
            match registration {
                Some(registration) => {
                    &&& final(self).registered(old(self), registration)
                    &&& final(self).same_streams(old(self))
                    &&& final(self).chunk_planner.took(
                        &old(self).chunk_planner,
                        range,
                        Some(registration.runner_id),
                        true,
                    )
                    &&& final(self).pending_runners.runners@ == old(
                        self).pending_runners.runners@.push(registration.runner_id)
                    &&& !final(self).pending_runners.waiting
                },
                None => final(self).refused(old(self)) && final(self).pending_runners == old(
                    self).pending_runners,
            },
    {
        let registration = match self.allocate_runner() {
            Some(registration) => registration,
            None => {
                return None;
            },
        };
        if !self.chunk_planner.allocate_pending_chunk(range, registration.runner_id) {
            self.release_runner(registration.runner_id);
            proof {
                self.gave_back(old(self), registration.runner_id);
            }
            return None;
        }
        self.pending_runners.insert(registration.runner_id);
        Some(registration)
    }

    /// Some ID is free.
    pub open spec fn has_free_id(&self) -> bool {
        exists|i: int|
            0 <= i < self.id_generator.used().len() && !#[trigger] self.id_generator.used()[i]
    }

    /// An allocation was taken back, and the plan is the same.
    pub open spec fn refused(&self, before: &RunnerManager<K>) -> bool {
        &&& self.chunk_planner == before.chunk_planner
        &&& self.handed_back(before)
    }

    /// An ID was taken, if there was one, and given back: the same IDs are in use, with
    /// the same channels. Streams that had been registered for the free ID are listened
    /// to no longer.
    pub open spec fn handed_back(&self, before: &RunnerManager<K>) -> bool {
        let tried = id::next_free(
            before.id_generator.used(),
            before.id_generator.next_free_hint as int,
            before.id_generator.used().len() as int,
        );
        &&& self.id_generator.used() == before.id_generator.used()
        &&& self.id_generator.next_free_hint == if before.has_free_id() {
            // The ID behind the last one is the first
            if tried->0 + 1 < before.id_generator.used().len() {
                tried->0
            } else {
                0
            }
        } else {
            before.id_generator.next_free_hint as int
        }
        &&& self.control_channels@ == before.control_channels@
        &&& self.lifecycle_aggregator.is_closed == before.lifecycle_aggregator.is_closed
        &&& self.lifecycle_aggregator.waiting == before.lifecycle_aggregator.waiting
        &&& self.lifecycle_aggregator.map@ == if before.has_free_id() {
            before.lifecycle_aggregator.map@.remove(tried->0 as RunnerId)
        } else {
            before.lifecycle_aggregator.map@
        }
        &&& self.data_aggregator.map@ == if before.has_free_id() {
            before.data_aggregator.map@.remove(tried->0 as RunnerId)
        } else {
            before.data_aggregator.map@
        }
    }

    /// What an allocation and the release of the same ID leave of IDs and channels.
    proof fn gave_back(&self, before: &RunnerManager<K>, runner_id: RunnerId)
        requires
            before.wf(),
            !before.allocated(runner_id),
            runner_id < before.id_generator.used().len(),
            exists|tx: ControlSender|
                self.control_channels@ == (#[trigger] before.control_channels@.insert(
                    runner_id,
                    tx,
                )).remove(runner_id),
            self.id_generator.used() == before.id_generator.used().update(
                runner_id as int,
                true,
            ).update(runner_id as int, false),
        ensures
            self.control_channels@ == before.control_channels@,
            self.id_generator.used() == before.id_generator.used(),
            (runner_id + 1) % (before.id_generator.used().len() as int) == if runner_id + 1
                < before.id_generator.used().len() {
                runner_id + 1
            } else {
                0
            },
            before.has_free_id(),
    {
        let len = before.id_generator.used().len() as int;
        assert((runner_id + 1) % len == if runner_id + 1 < len {
            runner_id + 1
        } else {
            0
        }) by (nonlinear_arith)
            requires
                0 <= runner_id < len,
        ;
        assert(!in_use(before.id_generator.used(), runner_id));
        assert(!before.id_generator.used()[runner_id as int]);
        assert(self.control_channels@ =~= before.control_channels@);
        assert(self.id_generator.used() =~= before.id_generator.used());
    }
}

impl<K> RunnerManager<K> {
    /// Fully releases a runner (including marking its chunk). An unknown runner stays
    /// as it is, and is answered by the error.
    ///
    /// # Returns
    /// * `Ok(Some(range))` - the unfinished range, where the runner failed
    /// * `Ok(None)` - where it finished
    pub fn release_runner_full(&mut self, runner_id: RunnerId, finished: bool) -> (result: Result<
        (Option<Range<u64>>, ReleasedStreams<K>),
        Error,
    >)
        requires
            old(self).wf(),
        ensures
            final(self).wf(),
            old(self).chunk_planner.consistent() ==> final(self).chunk_planner.consistent(),
            old(self).orderly() ==> final(self).orderly(),
            final(self).pending_runners == old(self).pending_runners,
            final(self).runner_outcome_sampler == old(self).runner_outcome_sampler,
            match old(self).chunk_planner.runner_chunk(runner_id) {
                Some(chunk) => {
                    &&& result matches Ok((unfinished, streams)) && final(self).unregistered(
                        old(self),
                        runner_id,
                        streams,
                    ) && unfinished == if finished {
                        None
                    } else {
                        Some(planner::unfinished_part(chunk).1)
                    }
                    &&& final(self).chunk_planner.closed_by(
                        &old(self).chunk_planner,
                        runner_id,
                        finished,
                    )
                },
                None => {
                    &&& result == Err::<(Option<Range<u64>>, ReleasedStreams<K>), Error>(
                        old(self).chunk_planner.lookup_error(runner_id),
                    )
                    &&& final(self).same_runners(old(self))
                    &&& final(self).same_streams(old(self))
                    &&& final(self).chunk_planner.same_limits(&old(self).chunk_planner)
                    &&& final(self).chunk_planner.chunk_map() == old(
                        self).chunk_planner.chunk_map()
                    &&& final(self).chunk_planner.runner_map() == old(
                        self).chunk_planner.runner_map().remove(runner_id)
                },
            },
    {
        let unfinished_range = if finished {
            match self.mark_finished(runner_id) {
                Ok(()) => None,
                Err(error) => {
                    return Err(error);
                },
            }
        } else {
            match self.mark_failed(runner_id) {
                Ok(range) => Some(range),
                Err(error) => {
                    return Err(error);
                },
            }
        };
        let streams = self.release_runner(runner_id);
        Ok((unfinished_range, streams))
    }

    /// Limits a runner to `new_size` bytes more, and tells it so. Where the message is
    /// not taken the plan is what it was.
    pub fn resize_runner(&mut self, runner_id: RunnerId, new_size: u64) -> (result: Result<
        (),
        SendError,
    >)
        requires
            old(self).wf(),
            old(self).chunk_planner.runner_chunk(runner_id) matches Some(chunk)
                && chunk.downloaded.end + new_size <= u64::MAX,
        ensures
            final(self).wf(),
            final(self).same_runners(old(self)),
            final(self).same_streams(old(self)),
            final(self).pending_runners == old(self).pending_runners,
            final(self).runner_outcome_sampler == old(self).runner_outcome_sampler,
            sent_to(
                old(self).control_channels@,
                runner_id,
                ControlEvent::LimitTotal(
                    (old(self).chunk_planner.runner_chunk(runner_id)->0.progress() + new_size)
                        as u64,
                ),
                result,
            ),
            match result {
                Ok(_) => final(self).chunk_planner.resized(
                    &old(self).chunk_planner,
                    runner_id,
                    new_size,
                    Ok(old(self).chunk_planner.runner_chunk(runner_id)->0.progress() as u64),
                ),
                Err(_) => final(self).chunk_planner == old(self).chunk_planner,
            },
            old(self).chunk_planner.consistent() && new_size <= old(
                self).chunk_planner.runner_chunk(runner_id)->0.left() && 0 < old(
                self).chunk_planner.runner_chunk(runner_id)->0.progress() + new_size
                ==> final(self).chunk_planner.consistent(),
            old(self).orderly() && new_size <= old(self).chunk_planner.runner_chunk(
                runner_id,
            )->0.left() && 0 < old(self).chunk_planner.runner_chunk(runner_id)->0.progress()
                + new_size ==> final(self).orderly(),
    {
        let mut guard = PlannerGuard::new(&mut self.chunk_planner);
        // Limit the total size of the runner
        let downloaded_size: u64 = match guard.planner().resize_runner_state(
            runner_id,
            new_size,
        ) {
            Ok(size) => size,
            Err(_) => 0,
        };
        let result = send_message(
            &self.control_channels,
            runner_id,
            ControlEvent::LimitTotal(downloaded_size + new_size),
        );
        if result.is_ok() {
            guard.commit();
        }
        result
    }

    /// The streams and channels of a runner that ended are gone, its chunk is closed,
    /// and its outcome is recorded.
    pub open spec fn retired(
        &self,
        before: &RunnerManager<K>,
        runner_id: RunnerId,
        finished: bool,
        outcome: RunnerOutcome,
        now: u64,
        streams: ReleasedStreams<K>,
    ) -> bool {
        &&& self.unregistered(before, runner_id, streams)
        &&& self.pending_runners == before.pending_runners
        &&& self.chunk_planner.closed_by(&before.chunk_planner, runner_id, finished)
        &&& self.runner_outcome_sampler.recorded(&before.runner_outcome_sampler, now, outcome)
    }

    /// Handles what a runner reports of its life. Returns whether the task is
    /// complete, and the streams to be dropped.
    pub fn handle_lifecycle(
        &mut self,
        event: RunnerTaggedStreamItem<LifecycleEvent>,
        meters: &mut HashMap<RunnerId, usize>,
        now: u64,
    ) -> (result: (bool, ReleasedStreams<K>))
        requires
            old(self).wf(),
            event.item is Stopped ==> old(self).chunk_planner.runner_chunk(
                event.runner_id,
            ) is Some,
        ensures
            final(self).wf(),
            old(self).chunk_planner.consistent() ==> final(self).chunk_planner.consistent(),
            old(self).orderly() ==> final(self).orderly(),
            match event.item {
                LifecycleEvent::Started => {
                    &&& *final(self) == *old(self)
                    &&& final(meters)@ == old(meters)@
                    &&& result == (false, ReleasedStreams::<K> { lifecycle: None, data: None })
                },
                LifecycleEvent::Stopped(reason) => {
                    &&& final(meters)@ == old(meters)@.remove(event.runner_id)
                    &&& final(self).retired(
                        old(self),
                        event.runner_id,
                        did_its_part(reason),
                        outcome_of(reason),
                        now,
                        result.1,
                    )
                    &&& result.0 == final(self).chunk_planner.completed()
                },
            },
    {
        match event.item {
            LifecycleEvent::Started => (false, ReleasedStreams { lifecycle: None, data: None }),
            LifecycleEvent::Stopped(reason) => {
                meters.remove(&event.runner_id);
                assert(meters@ =~= old(meters)@.remove(event.runner_id));
                // Remove control channel when runner stops
                let streams = self.release_runner(event.runner_id);
                match reason {
                    StoppedReason::Finished => {
                        let _ = self.chunk_planner.mark_finished(event.runner_id);
                        self.runner_outcome_sampler.record_at(RunnerOutcome::Completed, now);
                    },
                    StoppedReason::Failed(TaskError::ExceededTotalSize) => {
                        let _ = self.chunk_planner.mark_finished(event.runner_id);
                        self.runner_outcome_sampler.record_at(RunnerOutcome::Completed, now);
                    },
                    StoppedReason::Failed(error) => {
                        let _ = self.chunk_planner.mark_failed(event.runner_id);
                        let kind = if error.is_retryable() {
                            FailureKind::Retryable
                        } else {
                            FailureKind::Unretryable
                        };
                        self.runner_outcome_sampler.record_at(
                            RunnerOutcome::StreamClosed(kind),
                            now,
                        );
                    },
                }
                let complete = self.chunk_planner.is_complete();
                (complete, streams)
            },
        }
    }

    /// Handles a runner that was created, or was not. Returns the streams to be
    /// dropped.
    pub fn handle_pending(&mut self, pending: PendingRunnerOutput<K>, now: u64) -> (streams:
        ReleasedStreams<K>)
        requires
            old(self).wf(),
            old(self).chunk_planner.runner_chunk(pending.context.runner_id) is Some,
            pending.result is Ok ==> old(self).chunk_planner.runner_chunk(
                pending.context.runner_id,
            )->0.status == chunk_state::ChunkStatus::Pending,
        ensures
            final(self).wf(),
            old(self).chunk_planner.consistent() ==> final(self).chunk_planner.consistent(),
            old(self).orderly() ==> final(self).orderly(),
            match pending.result {
                Ok(output) => {
                    &&& final(self).created(old(self), pending.context.runner_id, output)
                    &&& streams == (ReleasedStreams::<K> { lifecycle: None, data: None })
                },
                Err(error) => final(self).retired(
                    old(self),
                    pending.context.runner_id,
                    false,
                    RunnerOutcome::ConnectFailed(error.kind()),
                    now,
                    streams,
                ),
            },
    {
        let runner_id = pending.context.runner_id;
        match pending.result {
            Ok(output) => {
                let _ = self.chunk_planner.mark_running(runner_id);
                self.register_lifecycle(runner_id, output.lifecycle_rx);
                self.register_data(runner_id, output.data_rx);
                ReleasedStreams { lifecycle: None, data: None }
            },
            Err(error) => {
                // Update planner state first for stronger atomicity
                let _ = self.chunk_planner.mark_failed(runner_id);
                // Release runner slot after planner state transition
                let streams = self.release_runner(runner_id);
                self.runner_outcome_sampler.record_at(
                    RunnerOutcome::ConnectFailed(error.failure_kind()),
                    now,
                );
                streams
            },
        }
    }

    /// A runner was created: its chunk is running, and its streams are listened to.
    pub open spec fn created(
        &self,
        before: &RunnerManager<K>,
        runner_id: RunnerId,
        output: RunnerBuilderOutput<K>,
    ) -> bool {
        &&& self.same_runners(before)
        &&& self.pending_runners == before.pending_runners
        &&& self.runner_outcome_sampler == before.runner_outcome_sampler
        &&& self.chunk_planner.started(&before.chunk_planner, runner_id, Ok(()))
        &&& self.lifecycle_aggregator.map@ == before.lifecycle_aggregator.map@.insert(
            runner_id,
            output.lifecycle_rx,
        )
        &&& self.lifecycle_aggregator.is_closed == before.lifecycle_aggregator.is_closed
        &&& !self.lifecycle_aggregator.waiting
        &&& self.data_aggregator.map@ == before.data_aggregator.map@.insert(
            runner_id,
            output.data_rx,
        )
    }

    /// Handles a runner whose stream closed without a word. Returns the streams to be
    /// dropped.
    pub fn handle_runner_lost(
        &mut self,
        runner_id: RunnerId,
        meters: &mut HashMap<RunnerId, usize>,
        now: u64,
    ) -> (streams: ReleasedStreams<K>)
        requires
            old(self).wf(),
            old(self).chunk_planner.runner_chunk(runner_id) is Some,
        ensures
            final(self).wf(),
            old(self).chunk_planner.consistent() ==> final(self).chunk_planner.consistent(),
            old(self).orderly() ==> final(self).orderly(),
            final(meters)@ == old(meters)@.remove(runner_id),
            final(self).retired(
                old(self),
                runner_id,
                false,
                RunnerOutcome::StreamClosed(FailureKind::Retryable),
                now,
                streams,
            ),
    {
        meters.remove(&runner_id);
        assert(meters@ =~= old(meters)@.remove(runner_id));
        let _ = self.chunk_planner.mark_failed(runner_id);
        self.runner_outcome_sampler.record_at(
            RunnerOutcome::StreamClosed(FailureKind::Retryable),
            now,
        );
        self.release_runner(runner_id)
    }

    /// Handles data from a runner, returning the chunk ready for writing: the bytes
    /// that fit into the runner's chunk, and where they belong.
    pub fn handle_data_frame(
        &mut self,
        runner_id: RunnerId,
        data_frame: Bytes,
        meters: &mut HashMap<RunnerId, usize>,
    ) -> (chunk: DownloadedChunk)
        requires
            old(self).wf(),
            old(self).data_fits(runner_id, data_frame, old(meters)@),
        ensures
            final(self).wf(),
            old(self).chunk_planner.consistent() ==> final(self).chunk_planner.consistent(),
            old(self).orderly() ==> final(self).orderly(),
            final(self).only_plan_differs(old(self)),
            final(self).received(old(self), runner_id, data_frame, chunk),
            final(meters)@ == old(meters)@.insert(
                runner_id,
                (metered(old(meters)@, runner_id) + buffer::contents(data_frame).len()) as usize,
            ),
    {
        let mut data_frame = data_frame;
        let bytes_len: usize = data_frame.len();
        let seen: usize = match meters.get(&runner_id) {
            Some(seen) => *seen,
            None => 0,
        };
        meters.insert(runner_id, seen + bytes_len);
        assert(meters@ =~= old(meters)@.insert(runner_id, (seen + bytes_len) as usize));
        let ghost whole = buffer::contents(data_frame);
        let range = match self.chunk_planner.update_progress(runner_id, bytes_len as u64) {
            Ok(range) => range,
            Err(_) => 0..0,
        };
        let picked_size: u64 = range.end - range.start;
        data_frame.truncate(picked_size as usize);
        assert(whole.take(whole.len() as int) =~= whole);
        DownloadedChunk { range, bytes: data_frame }
    }

    /// The runner has a chunk, and the numbers of bytes stay within their range.
    pub open spec fn data_fits(
        &self,
        runner_id: RunnerId,
        data: Bytes,
        meters: Map<RunnerId, usize>,
    ) -> bool {
        &&& self.chunk_planner.runner_chunk(runner_id) is Some
        &&& self.chunk_planner.runner_chunk(runner_id)->0.downloaded.end + buffer::contents(
            data,
        ).len() <= u64::MAX
        &&& metered(meters, runner_id) + buffer::contents(data).len() <= usize::MAX
    }

    /// Data arrived: what fits into the runner's chunk is counted and handed on.
    pub open spec fn received(
        &self,
        before: &RunnerManager<K>,
        runner_id: RunnerId,
        data: Bytes,
        chunk: DownloadedChunk,
    ) -> bool {
        let bytes = buffer::contents(data);
        &&& self.chunk_planner.progressed(
            &before.chunk_planner,
            runner_id,
            bytes.len() as u64,
            Ok(chunk.range),
        )
        &&& buffer::contents(chunk.bytes) == bytes.take(chunk.range.end - chunk.range.start)
    }

    /// The manager can handle the event: what it reports of a runner makes sense.
    pub open spec fn event_fits(
        &self,
        event: ManagerEvent<K>,
        meters: Map<RunnerId, usize>,
    ) -> bool {
        match event {
            ManagerEvent::Lifecycle(Some(LifecycleStreamEvent::Event(tagged))) => tagged.item
                is Stopped ==> self.chunk_planner.runner_chunk(tagged.runner_id) is Some,
            ManagerEvent::Lifecycle(Some(LifecycleStreamEvent::Closed(runner_id))) =>
                self.chunk_planner.runner_chunk(runner_id) is Some,
            ManagerEvent::Pending(Some(output)) => {
                let chunk = self.chunk_planner.runner_chunk(output.context.runner_id);
                &&& chunk is Some
                &&& output.result is Ok ==> chunk->0.status == chunk_state::ChunkStatus::Pending
            },
            ManagerEvent::Data(Some(DataStreamEvent::Data(item))) => self.data_fits(
                item.runner_id,
                item.item.data,
                meters,
            ),
            _ => true,
        }
    }

    /// Whether the manager can handle the event.
    pub fn can_handle(&self, event: &ManagerEvent<K>, meters: &HashMap<RunnerId, usize>) -> (can:
        bool)
        requires
            self.wf(),
        ensures
            can == self.event_fits(*event, meters@),
    {
        match event {
            ManagerEvent::Lifecycle(Some(LifecycleStreamEvent::Event(tagged))) => match tagged.item {
                LifecycleEvent::Started => true,
                LifecycleEvent::Stopped(_) => self.get_runner_state(tagged.runner_id).is_some(),
            },
            ManagerEvent::Lifecycle(Some(LifecycleStreamEvent::Closed(runner_id))) =>
                self.get_runner_state(*runner_id).is_some(),
            ManagerEvent::Pending(Some(output)) => match self.get_runner_state(
                output.context.runner_id,
            ) {
                Some(chunk) => output.result.is_err() || chunk.status
                    == chunk_state::ChunkStatus::Pending,
                None => false,
            },
            ManagerEvent::Data(Some(DataStreamEvent::Data(item))) => {
                let bytes = item.item.data.len();
                let seen = match meters.get(&item.runner_id) {
                    Some(seen) => *seen,
                    None => 0,
                };
                match self.get_runner_state(item.runner_id) {
                    Some(chunk) => bytes as u64 <= u64::MAX - chunk.downloaded.end && bytes
                        <= usize::MAX - seen,
                    None => false,
                }
            },
            _ => true,
        }
    }

    /// What an event leads to, at a given time.
    pub open spec fn ticked(
        &self,
        before: &RunnerManager<K>,
        event: ManagerEvent<K>,
        meters_before: Map<RunnerId, usize>,
        meters: Map<RunnerId, usize>,
        now: u64,
        tick: RunnerTick<K>,
    ) -> bool {
        &&& tick.state == if before.finishes(self, event) {
            TaskState::Finished
        } else {
            TaskState::Downloading
        }
        &&& match event {
            ManagerEvent::Lifecycle(Some(LifecycleStreamEvent::Event(tagged))) => {
                &&& tick.downloaded is None
                &&& match tagged.item {
                    LifecycleEvent::Started => *self == *before && meters == meters_before
                        && tick.releases_nothing(),
                    LifecycleEvent::Stopped(reason) => {
                        &&& meters == meters_before.remove(tagged.runner_id)
                        &&& self.retired(
                            before,
                            tagged.runner_id,
                            did_its_part(reason),
                            outcome_of(reason),
                            now,
                            tick.released,
                        )
                    },
                }
            },
            ManagerEvent::Lifecycle(Some(LifecycleStreamEvent::Closed(runner_id))) => {
                &&& tick.downloaded is None
                &&& meters == meters_before.remove(runner_id)
                &&& self.retired(
                    before,
                    runner_id,
                    false,
                    RunnerOutcome::StreamClosed(FailureKind::Retryable),
                    now,
                    tick.released,
                )
            },
            ManagerEvent::Pending(Some(output)) => {
                let runner_id = output.context.runner_id;
                &&& tick.downloaded is None
                &&& meters == meters_before
                &&& match output.result {
                    Ok(output) => self.created(before, runner_id, output)
                        && tick.releases_nothing(),
                    Err(error) => self.retired(
                        before,
                        runner_id,
                        false,
                        RunnerOutcome::ConnectFailed(error.kind()),
                        now,
                        tick.released,
                    ),
                }
            },
            ManagerEvent::Data(Some(DataStreamEvent::Data(item))) => {
                let data = item.item.data;
                &&& tick.downloaded is Some
                &&& tick.releases_nothing()
                &&& self.only_plan_differs(before)
                &&& self.received(before, item.runner_id, data, tick.downloaded->0)
                &&& meters == meters_before.insert(
                    item.runner_id,
                    (metered(meters_before, item.runner_id) + buffer::contents(data).len())
                        as usize,
                )
            },
            _ => {
                &&& *self == *before
                &&& meters == meters_before
                &&& tick.downloaded is None
                &&& tick.releases_nothing()
            },
        }
    }

    /// The event finishes the task: a runner stopped, and all chunks are finished then;
    /// or no runner is being created and there is nothing left to do.
    pub open spec fn finishes(&self, after: &RunnerManager<K>, event: ManagerEvent<K>) -> bool {
        match event {
            ManagerEvent::Lifecycle(Some(LifecycleStreamEvent::Event(tagged))) => tagged.item
                is Stopped && after.chunk_planner.completed(),
            ManagerEvent::Pending(None) => self.chunk_planner.completed(),
            _ => false,
        }
    }

    /// Handles an event at a given time.
    pub fn tick_at(
        &mut self,
        event: ManagerEvent<K>,
        meters: &mut HashMap<RunnerId, usize>,
        now: u64,
    ) -> (tick: RunnerTick<K>)
        requires
            old(self).wf(),
            old(self).event_fits(event, old(meters)@),
        ensures
            final(self).wf(),
            old(self).chunk_planner.consistent() ==> final(self).chunk_planner.consistent(),
            old(self).orderly() ==> final(self).orderly(),
            final(self).ticked(old(self), event, old(meters)@, final(meters)@, now, tick),
    {
        match event {
            ManagerEvent::Lifecycle(Some(LifecycleStreamEvent::Event(tagged))) => {
                let (complete, released) = self.handle_lifecycle(tagged, meters, now);
                if complete {
                    RunnerTick { released, ..RunnerTick::finished() }
                } else {
                    RunnerTick { released, ..RunnerTick::downloading() }
                }
            },
            ManagerEvent::Lifecycle(Some(LifecycleStreamEvent::Closed(runner_id))) => {
                let released = self.handle_runner_lost(runner_id, meters, now);
                RunnerTick { released, ..RunnerTick::downloading() }
            },
            ManagerEvent::Lifecycle(None) => RunnerTick::downloading(),
            ManagerEvent::Pending(Some(output)) => {
                let released = self.handle_pending(output, now);
                RunnerTick { released, ..RunnerTick::downloading() }
            },
            ManagerEvent::Pending(None) => {
                if self.chunk_planner.is_complete() {
                    RunnerTick::finished()
                } else {
                    RunnerTick::downloading()
                }
            },
            ManagerEvent::Data(Some(DataStreamEvent::Data(item))) => {
                let chunk = self.handle_data_frame(item.runner_id, item.item.data, meters);
                RunnerTick::with_chunk(chunk)
            },
            ManagerEvent::Data(Some(DataStreamEvent::Closed(_))) => RunnerTick::downloading(),
            ManagerEvent::Data(None) => RunnerTick::downloading(),
        }
    }

    /// Handles an event at the current time.
    pub fn tick(&mut self, event: ManagerEvent<K>, meters: &mut HashMap<RunnerId, usize>) -> (tick:
        RunnerTick<K>)
        requires
            old(self).wf(),
            old(self).event_fits(event, old(meters)@),
        ensures
            final(self).wf(),
            old(self).chunk_planner.consistent() ==> final(self).chunk_planner.consistent(),
            old(self).orderly() ==> final(self).orderly(),
            exists|now: u64| #[trigger]
                final(self).ticked(old(self), event, old(meters)@, final(meters)@, now, tick)
                    && old(self).runner_outcome_sampler.clock.shows(now),
    {
        let now = self.runner_outcome_sampler.clock.now_nanos();
        self.tick_at(event, meters, now)
    }
}

/// What came of a message to a runner: an unknown runner is an error, and otherwise
/// the runner's channel was handed the message and answered.
pub open spec fn sent_to(
    channels: Map<RunnerId, ControlSender>,
    runner_id: RunnerId,
    message: ControlEvent,
    result: Result<(), SendError>,
) -> bool {
    if channels.contains_key(runner_id) {
        control_channel::delivery(channels[runner_id], message, result)
    } else {
        result == Err::<(), SendError>(SendError::RunnerNotFound(runner_id))
    }
}

/// Sends a message through the channel of a runner.
fn send_message(
    channels: &HashMap<RunnerId, ControlSender>,
    runner_id: RunnerId,
    message: ControlEvent,
) -> (result: Result<(), SendError>)
    ensures
        sent_to(channels@, runner_id, message, result),
{
    match channels.get(&runner_id) {
        Some(tx) => deliver(tx, message),
        None => Err(SendError::RunnerNotFound(runner_id)),
    }
}

/// Law: exactly the runners whose ID is in use can be sent a message.
pub proof fn allocated_runners_are_reachable<K>(
    manager: RunnerManager<K>,
    runner_id: RunnerId,
    message: ControlEvent,
    result: Result<(), SendError>,
)
    requires
        manager.wf(),
        sent_to(manager.control_channels@, runner_id, message, result),
    ensures
        manager.allocated(runner_id) <==> result != Err::<(), SendError>(
            SendError::RunnerNotFound(runner_id),
        ),
{
    assert(in_use(manager.id_generator.used(), runner_id)
        <==> manager.control_channels@.contains_key(runner_id));
}

/// Law: a runner that was released has no ID, no channel and no stream.
pub proof fn nothing_is_left_of_a_released_runner<K>(
    before: RunnerManager<K>,
    after: RunnerManager<K>,
    runner_id: RunnerId,
    streams: ReleasedStreams<K>,
)
    requires
        after.unregistered(&before, runner_id, streams),
    ensures
        !after.allocated(runner_id),
        !after.control_channels@.contains_key(runner_id),
        !after.lifecycle_aggregator.map@.contains_key(runner_id),
        !after.data_aggregator.map@.contains_key(runner_id),
{
}

/// Law: what is handed on for writing has as many bytes as its range, and two
/// deliveries of a runner follow each other without a gap.
pub proof fn deliveries_follow_each_other<K>(
    before: RunnerManager<K>,
    between: RunnerManager<K>,
    after: RunnerManager<K>,
    runner_id: RunnerId,
    first: Bytes,
    first_chunk: DownloadedChunk,
    second: Bytes,
    second_chunk: DownloadedChunk,
)
    requires
        before.wf(),
        between.wf(),
        before.chunk_planner.runner_chunk(runner_id) is Some,
        before.chunk_planner.runner_chunk(runner_id)->0.downloaded.end + buffer::contents(
            first,
        ).len() <= u64::MAX,
        between.received(&before, runner_id, first, first_chunk),
        after.received(&between, runner_id, second, second_chunk),
    ensures
        buffer::contents(first_chunk.bytes).len() == first_chunk.range.end
            - first_chunk.range.start,
        second_chunk.range.start == first_chunk.range.end,
{
    let key = before.chunk_planner.runner_map()[runner_id];
    assert(before.chunk_planner.chunk_map().contains_key(key));
    assert(before.chunk_planner.chunk_map()[key].allocated == key);
}

/// Law: where a runner delivers the bytes of the content behind those that it has
/// delivered, what is handed on for writing is the content at its range. What it
/// delivers beyond its chunk does not matter.
pub proof fn deliveries_hold_the_content<K>(
    before: RunnerManager<K>,
    after: RunnerManager<K>,
    runner_id: RunnerId,
    data: Bytes,
    chunk: DownloadedChunk,
    content: Seq<u8>,
)
    requires
        before.wf(),
        before.chunk_planner.runner_chunk(runner_id) is Some,
        before.chunk_planner.runner_chunk(runner_id)->0.allocated.end <= content.len(),
        after.received(&before, runner_id, data, chunk),
        forall|i: int|
            0 <= i < buffer::contents(data).len() && before.chunk_planner.runner_chunk(
                runner_id,
            )->0.downloaded.end + i < before.chunk_planner.runner_chunk(
                runner_id,
            )->0.allocated.end ==> #[trigger] buffer::contents(data)[i]
                == content[before.chunk_planner.runner_chunk(runner_id)->0.downloaded.end + i],
    ensures
        buffer::contents(chunk.bytes) == content.subrange(
            chunk.range.start as int,
            chunk.range.end as int,
        ),
{
    let key = before.chunk_planner.runner_map()[runner_id];
    assert(before.chunk_planner.chunk_map().contains_key(key));
    assert(before.chunk_planner.chunk_map()[key].allocated == key);
    let state = before.chunk_planner.runner_chunk(runner_id)->0;
    let bytes = buffer::contents(data);
    assert(chunk.range == planner::advance_range(state, bytes.len() as u64));
    assert(buffer::contents(chunk.bytes) =~= content.subrange(
        chunk.range.start as int,
        chunk.range.end as int,
    ));
}

} // verus!

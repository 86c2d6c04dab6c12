//! The loop of a task with many runners: what to wait for, and what to do with what
//! happens.
//!
//! Data is only taken from the runners while the writer accepts it, so that what has
//! been downloaded and not yet written stays bounded.
use crate::concurrent::{fail, handle_strategy_action, ActionOutcome};
use crate::manager::{ManagerEvent, ReleasedStreams, RunnerManager, TaskState};
use crate::pending_writer::{
    can_count, check_completions, PendingWrite, PendingWriter, WriteCompletion, WriterFullError,
};
use crate::ratio::Ratio;
use crate::strategy::StrategyAction;
use crate::strategy_control::{planned_chunk_size, StrategyControl};
use crate::task::{Progress, TaskInstanceError};
use crate::text::append_decimal;
use crate::throughput::{current_progress, drain_meters, per_runner_speed};
use crate::{
    concurrent, manager, pending_writer, strategy_control, text, throughput, RunnerId,
};
use std::collections::HashMap;
use std::ops::Range;
use vstd::prelude::*;
use vstd::string::*;

verus! {

broadcast use vstd::std_specs::hash::group_hash_axioms;

/// What the loop holds between two events.
pub struct DownloadLoop<K> {
    /// The runners.
    pub runner_manager: RunnerManager<K>,
    /// The strategies.
    pub strategy_control: StrategyControl,
    /// How many runners there may be.
    pub max_concurrency: usize,
    /// The bytes that each runner delivered since the meters were last read.
    pub meters: HashMap<RunnerId, usize>,
    /// The bytes that were written since they were last read.
    pub write_bytes_meter: u64,
    /// The writes on their way.
    pub pending_writer: PendingWriter,
    /// How fast is downloaded, in whole bytes per second.
    pub current_speed: u64,
    /// How fast a runner is on average, in bytes per second.
    pub per_runner_avg_speed: Ratio,
}

/// What the loop waits for, besides its timers and what runners report of their
/// lives.
#[derive(Clone, Copy, Debug, PartialEq, Eq, Structural)]
pub struct WaitsFor {
    /// Writes to complete.
    pub writer: bool,
    /// Data from the runners.
    pub data: bool,
}

/// What an event of the runners led to.
#[derive(Debug)]
pub struct LoopStep<K> {
    /// A write to dispatch.
    pub dispatch: Option<PendingWrite>,
    /// Whether the download is finished.
    pub finished: bool,
    /// Streams to be dropped.
    pub released: ReleasedStreams<K>,
}

/// What a refused write is reported as.
pub open spec fn rejection_text(range: Range<u64>) -> Seq<char> {
    "writer rejected write (invariant violation): "@ + text::decimal(range.start as nat) + ".."@
        + text::decimal(range.end as nat)
}

fn rejection(range: &Range<u64>) -> (message: String)
    ensures
        message@ == rejection_text(*range),
{
    let mut message = "writer rejected write (invariant violation): ".to_string();
    append_decimal(&mut message, range.start);
    message.append("..");
    append_decimal(&mut message, range.end);
    message
}

/// The completions belong to writes in flight, and their bytes can be counted.
pub open spec fn countable(
    writer: PendingWriter,
    meter: u64,
    completions: Seq<WriteCompletion>,
) -> bool {
    &&& completions.len() <= writer.in_flight
    &&& pending_writer::counts(completions, meter)
}

impl<K> DownloadLoop<K> {
    /// The runners and the writes are in order.
    pub open spec fn wf(&self) -> bool {
        &&& self.runner_manager.wf()
        &&& self.pending_writer.wf()
    }

    /// The start of a download of the given size, with as many runners and writes at
    /// a time as given.
    pub fn new(total: u64, initial_max_concurrency: usize) -> (download: Self)
        requires
            initial_max_concurrency <= usize::MAX / 8,
        ensures
            download.wf(),
            download.runner_manager.orderly(),
            download.runner_manager.is_initial(total, initial_max_concurrency),
            download.strategy_control.is_initial(initial_max_concurrency),
            download.max_concurrency == initial_max_concurrency,
            download.meters@ == Map::<RunnerId, usize>::empty(),
            download.write_bytes_meter == 0,
            download.pending_writer.capacity == if initial_max_concurrency == 0 {
                1
            } else {
                initial_max_concurrency
            },
            download.pending_writer.in_flight == 0,
            download.pending_writer.pending_write is None,
            !download.pending_writer.saw_error,
            download.current_speed == 0,
            download.per_runner_avg_speed == (Ratio { numerator: 0, denominator: 1 }),
    {
        DownloadLoop {
            runner_manager: RunnerManager::new(total, initial_max_concurrency),
            strategy_control: StrategyControl::new(initial_max_concurrency),
            max_concurrency: initial_max_concurrency,
            meters: HashMap::with_capacity(initial_max_concurrency),
            write_bytes_meter: 0,
            pending_writer: PendingWriter::new(initial_max_concurrency),
            current_speed: 0,
            per_runner_avg_speed: Ratio::new(0, 1),
        }
    }

    /// What to wait for: for writes unless there are none, and for data only while it
    /// can be written.
    pub fn waits_for(&self) -> (waits: WaitsFor)
        ensures
            waits.writer == !(self.pending_writer.in_flight == 0
                && self.pending_writer.pending_write is None),
            waits.data == self.pending_writer.accepts(),
    {
        WaitsFor { writer: !self.pending_writer.is_idle(), data: self.pending_writer.can_write() }
    }

    /// Whether the completions belong to writes in flight, and their bytes can be
    /// counted.
    pub fn can_count(&self, completions: &Vec<WriteCompletion>) -> (can: bool)
        ensures
            can == countable(self.pending_writer, self.write_bytes_meter, completions@),
    {
        completions.len() <= self.pending_writer.in_flight_count() && can_count(
            completions,
            self.write_bytes_meter,
        )
    }

    /// Whether the event can be handled: what it reports of a runner makes sense.
    pub fn can_hear(&self, event: &ManagerEvent<K>) -> (can: bool)
        requires
            self.wf(),
        ensures
            can == self.runner_manager.event_fits(*event, self.meters@),
    {
        self.runner_manager.can_handle(event, &self.meters)
    }

    /// Whether the strategies can be asked: no chunk that they might split would reach
    /// beyond the number range.
    pub fn can_propose(&self) -> (can: bool)
        requires
            self.wf(),
        ensures
            can == self.runner_manager.chunk_planner.split_fits(
                strategy_control::planned_size(self.current_speed),
            ),
    {
        self.runner_manager.chunk_planner.can_split(planned_chunk_size(self.current_speed))
    }

    /// Whether the proposal can be handled: each chunk that it would split has a
    /// runner.
    pub fn can_act(&self, action: &StrategyAction) -> (can: bool)
        requires
            self.wf(),
        ensures
            can == (action matches StrategyAction::SplitAllTask(min_chunk_size) ==>
                self.runner_manager.chunk_planner.can_list_incomplete(Some(*min_chunk_size))),
    {
        match action {
            StrategyAction::SplitAllTask(min_chunk_size) =>
                self.runner_manager.chunk_planner.can_list(Some(*min_chunk_size)),
            _ => true,
        }
    }

    /// The measured speeds are the same.
    pub open spec fn same_speeds(&self, other: &DownloadLoop<K>) -> bool {
        &&& self.current_speed == other.current_speed
        &&& self.per_runner_avg_speed == other.per_runner_avg_speed
    }

    /// Only the writes on their way differ.
    pub open spec fn only_writes_differ(&self, other: &DownloadLoop<K>) -> bool {
        &&& self.runner_manager == other.runner_manager
        &&& self.strategy_control == other.strategy_control
        &&& self.max_concurrency == other.max_concurrency
        &&& self.meters == other.meters
        &&& self.current_speed == other.current_speed
        &&& self.per_runner_avg_speed == other.per_runner_avg_speed
    }

    /// Completed writes were noted: their bytes count and the next write is to be
    /// dispatched, unless one of them failed, or they can no longer be heard of.
    pub open spec fn took_note(
        &self,
        before: &DownloadLoop<K>,
        completions: Option<Vec<WriteCompletion>>,
        result: Result<Option<PendingWrite>, TaskInstanceError>,
    ) -> bool {
        match completions {
            None => {
                &&& concurrent::failed_with(
                    result,
                    "writer completion channel closed unexpectedly"@,
                )
                &&& *self == *before
            },
            Some(completions) => if pending_writer::any_failed(completions@) {
                &&& write_failed(result, completions@)
                &&& self.write_bytes_meter == before.write_bytes_meter
                &&& self.pending_writer.ticked(&before.pending_writer, completions@, None)
            } else {
                &&& result is Ok
                &&& self.write_bytes_meter == before.write_bytes_meter
                    + pending_writer::written(completions@)
                &&& self.pending_writer.ticked(
                    &before.pending_writer,
                    completions@,
                    result->Ok_0,
                )
            },
        }
    }

    /// Handles completed writes; none where they can no longer be heard of. Returns
    /// the write to dispatch. A write that failed ends the download.
    pub fn on_writer(&mut self, completions: Option<Vec<WriteCompletion>>) -> (result: Result<
        Option<PendingWrite>,
        TaskInstanceError,
    >)
        requires
            old(self).wf(),
            completions matches Some(completions) ==> countable(
                old(self).pending_writer,
                old(self).write_bytes_meter,
                completions@,
            ),
        ensures
            final(self).wf(),
            final(self).only_writes_differ(old(self)),
            final(self).took_note(old(self), completions, result),
    {
        let completions = match completions {
            Some(completions) => completions,
            None => {
                return fail("writer completion channel closed unexpectedly".to_string());
            },
        };
        let dispatch = self.pending_writer.try_tick(&completions);
        match check_completions(&completions) {
            Ok(bytes) => {
                self.write_bytes_meter = self.write_bytes_meter + bytes;
                Ok(dispatch)
            },
            Err(message) => {
                let result: Result<Option<PendingWrite>, TaskInstanceError> = fail(message);
                assert(write_failed(result, completions@));
                result
            },
        }
    }

    /// Handles an event of the runners, at a given time. What was downloaded is handed
    /// to the writer; where the writer refuses it, the download ends.
    pub fn on_runner_at(&mut self, event: ManagerEvent<K>, now: u64) -> (step: Result<
        LoopStep<K>,
        TaskInstanceError,
    >)
        requires
            old(self).wf(),
            old(self).runner_manager.event_fits(event, old(self).meters@),
        ensures
            final(self).wf(),
            old(self).runner_manager.chunk_planner.consistent() ==>
                final(self).runner_manager.chunk_planner.consistent(),
            old(self).runner_manager.orderly() ==> final(self).runner_manager.orderly(),
            final(self).heard(old(self), event, now, step),
    {
        let tick = self.runner_manager.tick_at(event, &mut self.meters, now);
        let ghost told = tick;
        let finished = matches!(tick.state, TaskState::Finished);
        let dispatch = match tick.downloaded {
            Some(chunk) => match self.pending_writer.write_range(chunk.range, chunk.bytes) {
                Ok(accepted) => accepted.dispatch,
                Err(WriterFullError(refused)) => {
                    return fail(rejection(&refused.range));
                },
            },
            None => None,
        };
        let step: Result<LoopStep<K>, TaskInstanceError> = Ok(
            LoopStep { dispatch, finished, released: tick.released },
        );
        assert(self.runner_manager.ticked(
            &old(self).runner_manager,
            event,
            old(self).meters@,
            self.meters@,
            now,
            told,
        ));
        assert(self.passed_on(old(self), told, step));
        step
    }

    /// An event of the runners was handled, and what was downloaded went to the writer.
    pub open spec fn heard(
        &self,
        before: &DownloadLoop<K>,
        event: ManagerEvent<K>,
        now: u64,
        step: Result<LoopStep<K>, TaskInstanceError>,
    ) -> bool {
        &&& self.strategy_control == before.strategy_control
        &&& self.max_concurrency == before.max_concurrency
        &&& self.write_bytes_meter == before.write_bytes_meter
        &&& self.current_speed == before.current_speed
        &&& self.per_runner_avg_speed == before.per_runner_avg_speed
        &&& exists|tick: manager::RunnerTick<K>|
            {
                &&& #[trigger] self.runner_manager.ticked(
                    &before.runner_manager,
                    event,
                    before.meters@,
                    self.meters@,
                    now,
                    tick,
                )
                &&& self.passed_on(before, tick, step)
            }
    }

    /// What a tick of the runners brought was passed on.
    pub open spec fn passed_on(
        &self,
        before: &DownloadLoop<K>,
        tick: manager::RunnerTick<K>,
        step: Result<LoopStep<K>, TaskInstanceError>,
    ) -> bool {
        if tick.downloaded is Some && !before.pending_writer.accepts() {
            &&& concurrent::failed_with(step, rejection_text((tick.downloaded->0).range))
            &&& self.pending_writer == before.pending_writer
        } else {
            &&& step is Ok
            &&& step->Ok_0.finished == (tick.state == TaskState::Finished)
            &&& step->Ok_0.released == tick.released
            &&& match tick.downloaded {
                Some(chunk) => self.pending_writer.took(
                    &before.pending_writer,
                    PendingWrite { range: chunk.range, bytes: chunk.bytes },
                    step->Ok_0.dispatch,
                ),
                None => self.pending_writer == before.pending_writer
                    && step->Ok_0.dispatch is None,
            }
        }
    }

    /// Handles an event of the runners.
    pub fn on_runner(&mut self, event: ManagerEvent<K>) -> (step: Result<
        LoopStep<K>,
        TaskInstanceError,
    >)
        requires
            old(self).wf(),
            old(self).runner_manager.event_fits(event, old(self).meters@),
        ensures
            final(self).wf(),
            old(self).runner_manager.chunk_planner.consistent() ==>
                final(self).runner_manager.chunk_planner.consistent(),
            old(self).runner_manager.orderly() ==> final(self).runner_manager.orderly(),
            exists|now: u64| #[trigger]
                final(self).heard(old(self), event, now, step) && old(self).runner_manager.runner_outcome_sampler.clock.shows(now),
    {
        let now = self.runner_manager.runner_outcome_sampler.clock.now_nanos();
        self.on_runner_at(event, now)
    }

    /// What the strategies propose. Each proposal is then to be handled by `on_action`.
    pub fn on_strategy_timer(&mut self) -> (proposed: Option<(&'static str, Vec<StrategyAction>)>)
        requires
            old(self).wf(),
            old(self).runner_manager.chunk_planner.split_fits(
                strategy_control::planned_size(old(self).current_speed),
            ),
        ensures
            final(self).wf(),
            final(self).runner_manager.chunk_planner == old(self).runner_manager.chunk_planner,
            final(self).runner_manager.same_runners(&old(self).runner_manager),
            final(self).runner_manager.same_streams(&old(self).runner_manager),
            final(self).runner_manager.pending_runners == old(
                self).runner_manager.pending_runners,
            final(self).max_concurrency == old(self).max_concurrency,
            final(self).meters == old(self).meters,
            final(self).write_bytes_meter == old(self).write_bytes_meter,
            final(self).pending_writer == old(self).pending_writer,
            final(self).same_speeds(old(self)),
            exists|now: u64, sampled_at: u64| #[trigger]
                final(self).strategy_control.executed(
                    &old(self).strategy_control,
                    old(self).max_concurrency,
                    old(self).current_speed,
                    old(self).per_runner_avg_speed,
                    &old(self).runner_manager,
                    &final(self).runner_manager,
                    now,
                    sampled_at,
                    proposed,
                ) && old(self).strategy_control.concurrency_control_strategy.clock.shows(now)
                    && old(self).runner_manager.runner_outcome_sampler.clock.shows(sampled_at),
            old(self).runner_manager.orderly() ==> final(self).runner_manager.orderly() && (
            proposed matches Some(proposed) ==> strategy_control::proposes_well(
                &final(self).runner_manager,
                proposed.1@,
            )),
    {
        self.strategy_control.execute(
            self.max_concurrency,
            self.current_speed,
            self.per_runner_avg_speed,
            &mut self.runner_manager,
        )
    }

    /// Handles a proposal of a strategy.
    pub fn on_action(&mut self, action: StrategyAction) -> (outcome: ActionOutcome)
        requires
            old(self).wf(),
            action matches StrategyAction::SplitAllTask(min_chunk_size) ==>
                old(self).runner_manager.chunk_planner.can_list_incomplete(Some(min_chunk_size)),
        ensures
            final(self).wf(),
            concurrent::acted(
                &old(self).runner_manager,
                &final(self).runner_manager,
                old(self).max_concurrency,
                final(self).max_concurrency,
                action,
                outcome,
            ),
            final(self).strategy_control == old(self).strategy_control,
            final(self).meters == old(self).meters,
            final(self).write_bytes_meter == old(self).write_bytes_meter,
            final(self).pending_writer == old(self).pending_writer,
            final(self).same_speeds(old(self)),
            concurrent::acts_well(&old(self).runner_manager, action) ==>
                final(self).runner_manager.chunk_planner.consistent(),
            concurrent::acts_well(&old(self).runner_manager, action)
                && old(self).runner_manager.orderly() ==> final(self).runner_manager.orderly(),
    {
        handle_strategy_action(&mut self.runner_manager, &mut self.max_concurrency, action)
    }

    /// Reads the meters. Returns the bytes that were downloaded and written since they
    /// were last read, the number of runners that are metered, and the progress.
    pub fn read_meters(&mut self) -> (reading: MeterReading)
        requires
            old(self).wf(),
            throughput::metered_total(old(self).meters@) <= usize::MAX,
        ensures
            final(self).wf(),
            reading.downloaded_bytes == throughput::metered_total(old(self).meters@),
            reading.written_bytes == old(self).write_bytes_meter,
            reading.runners == old(self).meters@.len(),
            reading.progress.total == Some(old(self).runner_manager.chunk_planner.total),
            old(self).runner_manager.chunk_planner.lists_fetched(
                reading.progress.downloaded_chunks@,
            ),
            reading.progress.downloaded == throughput::total_len(
                reading.progress.downloaded_chunks@,
            ),
            final(self).meters@.dom() == old(self).meters@.dom(),
            forall|id: RunnerId| #[trigger]
                final(self).meters@.contains_key(id) ==> final(self).meters@[id] == 0,
            final(self).write_bytes_meter == 0,
            final(self).runner_manager == old(self).runner_manager,
            final(self).strategy_control == old(self).strategy_control,
            final(self).max_concurrency == old(self).max_concurrency,
            final(self).pending_writer == old(self).pending_writer,
            final(self).same_speeds(old(self)),
    {
        let runners = self.meters.len();
        let downloaded_bytes = drain_meters(&mut self.meters);
        let written_bytes = self.write_bytes_meter;
        self.write_bytes_meter = 0;
        let progress = current_progress(&self.runner_manager);
        MeterReading { downloaded_bytes, written_bytes, runners, progress }
    }

    /// Takes note of the speed that was measured.
    pub fn set_speed(&mut self, speed: u64, runners: usize)
        ensures
            *final(self) == (DownloadLoop {
                current_speed: speed,
                per_runner_avg_speed: throughput::average_speed(speed, runners),
                ..*old(self)
            }),
    {
        self.current_speed = speed;
        self.per_runner_avg_speed = per_runner_speed(speed, runners);
    }
}

/// What the meters read.
#[derive(Debug)]
pub struct MeterReading {
    /// The bytes that were downloaded.
    pub downloaded_bytes: usize,
    /// The bytes that were written.
    pub written_bytes: u64,
    /// The runners that are metered.
    pub runners: usize,
    /// The progress.
    pub progress: Progress,
}

/// The result is the report of the first write that failed.
pub open spec fn write_failed<T>(
    result: Result<T, TaskInstanceError>,
    completions: Seq<WriteCompletion>,
) -> bool {
    exists|i: int|
        {
            &&& 0 <= i < completions.len()
            &&& pending_writer::all_written(completions.take(i))
            &&& (#[trigger] completions[i]).result is Err
            &&& concurrent::failed_with(
                result,
                pending_writer::failure_text(
                    completions[i].range,
                    completions[i].result->Err_0,
                ),
            )
        }
}

/// What a download comes to, given what its loop came to and the last writes.
pub open spec fn comes_to(
    event_loop_result: Result<(), TaskInstanceError>,
    flushed: Seq<WriteCompletion>,
    result: Result<(), TaskInstanceError>,
) -> bool {
    match event_loop_result {
        Err(error) => result == Err::<(), TaskInstanceError>(error),
        Ok(_) => if pending_writer::any_failed(flushed) {
            write_failed(result, flushed)
        } else {
            result is Ok
        },
    }
}

/// What a download came to, when the loop has ended and the writes are flushed: an
/// error of the loop comes before one of the writes.
pub fn conclude(
    event_loop_result: Result<(), TaskInstanceError>,
    flushed: Vec<WriteCompletion>,
) -> (result: Result<(), TaskInstanceError>)
    requires
        pending_writer::counts(flushed@, 0),
    ensures
        comes_to(event_loop_result, flushed@, result),
{
    let flush_result = check_completions(&flushed);
    if let Err(error) = event_loop_result {
        return Err(error);
    }
    match flush_result {
        Ok(_) => Ok(()),
        Err(message) => {
            let result: Result<(), TaskInstanceError> = fail(message);
            assert(write_failed(result, flushed@));
            result
        },
    }
}

/// Law: where data is taken only while the loop waits for it, the writer never
/// refuses it.
pub proof fn awaited_data_is_accepted<K>(
    before: DownloadLoop<K>,
    after: DownloadLoop<K>,
    waits: WaitsFor,
    event: ManagerEvent<K>,
    now: u64,
    step: Result<LoopStep<K>, TaskInstanceError>,
)
    requires
        waits.data == before.pending_writer.accepts(),
        event is Data ==> waits.data,
        after.heard(&before, event, now, step),
    ensures
        step is Ok,
{
}

} // verus!

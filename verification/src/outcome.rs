//! A sampler to track the outcome of the runners.
//!
//! Based on a sliding window to count the success and failure of the runners.
use crate::clock::{elapsed_since, Clock};
use crate::ratio::Ratio;
use crate::clock;
use std::collections::VecDeque;
use std::time::Duration;
use vstd::prelude::*;

verus! {

/// Whether a failed runner may be tried again.
#[derive(Clone, Copy, Debug, PartialEq, Eq, Structural)]
pub enum FailureKind {
    /// Runner is failed to connect or download: network error, timeout, etc.
    Retryable,
    /// The server rejected the request due to a concurrency limit: too many
    /// requests, service unavailable, etc.
    Unretryable,
}

/// How a runner ended.
#[derive(Clone, Copy, Debug, PartialEq, Eq, Structural)]
pub enum RunnerOutcome {
    /// The runner completed the chunk.
    Completed,
    /// The runner failed to connect to the server.
    ConnectFailed(FailureKind),
    /// The runner failed to download the chunk.
    StreamClosed(FailureKind),
}

impl RunnerOutcome {
    /// The failure, if it is one.
    pub open spec fn failure(self) -> Option<FailureKind> {
        match self {
            RunnerOutcome::Completed => None,
            RunnerOutcome::ConnectFailed(kind) => Some(kind),
            RunnerOutcome::StreamClosed(kind) => Some(kind),
        }
    }

    /// Whether the chunk was completed.
    pub fn is_success(&self) -> (success: bool)
        ensures
            success == (*self == RunnerOutcome::Completed),
    {
        matches!(self, RunnerOutcome::Completed)
    }

    /// Whether the failure stays when tried again.
    pub fn is_unretryable(&self) -> (unretryable: bool)
        ensures
            unretryable == (self.failure() == Some(FailureKind::Unretryable)),
    {
        matches!(
            self,
            RunnerOutcome::ConnectFailed(FailureKind::Unretryable)
            | RunnerOutcome::StreamClosed(FailureKind::Unretryable)
        )
    }

    /// The kind of failure, if it is one.
    pub fn failure_kind(&self) -> (kind: Option<FailureKind>)
        ensures
            kind == self.failure(),
    {
        match self {
            RunnerOutcome::Completed => None,
            RunnerOutcome::ConnectFailed(k) => Some(*k),
            RunnerOutcome::StreamClosed(k) => Some(*k),
        }
    }
}

/// An outcome and when it was recorded, in nanoseconds.
#[derive(Clone, Copy, Debug, PartialEq, Eq, Structural)]
pub struct OutcomeRecord {
    /// When.
    pub timestamp: u64,
    /// What.
    pub outcome: RunnerOutcome,
}

/// Runner result statistics.
#[derive(Clone, Copy, Debug, PartialEq, Eq, Structural)]
pub struct OutcomeStats {
    /// The total number of runners.
    pub total: usize,
    /// The number of completed runners.
    pub completed: usize,
    /// The number of retryable connection failures.
    pub connect_failed_retryable: usize,
    /// The number of unretryable connection failures.
    pub connect_failed_unretryable: usize,
    /// The number of retryable stream closed failures.
    pub stream_closed_retryable: usize,
    /// The number of unretryable stream closed failures.
    pub stream_closed_unretryable: usize,
}

impl Default for OutcomeStats {
    fn default() -> (stats: Self)
        ensures
            stats == (OutcomeStats {
                total: 0,
                completed: 0,
                connect_failed_retryable: 0,
                connect_failed_unretryable: 0,
                stream_closed_retryable: 0,
                stream_closed_unretryable: 0,
            }),
    {
        OutcomeStats {
            total: 0,
            completed: 0,
            connect_failed_retryable: 0,
            connect_failed_unretryable: 0,
            stream_closed_retryable: 0,
            stream_closed_unretryable: 0,
        }
    }
}

impl OutcomeStats {
    /// Every runner is counted under one outcome.
    pub open spec fn adds_up(self) -> bool {
        self.total == self.completed + self.connect_failed_retryable
            + self.connect_failed_unretryable + self.stream_closed_retryable
            + self.stream_closed_unretryable
    }

    /// The failures as a share of all runners, zero without runners.
    pub open spec fn failure_share(self) -> Ratio {
        if self.total == 0 {
            Ratio { numerator: 0, denominator: 1 }
        } else {
            Ratio {
                numerator: (self.total - self.completed) as u64,
                denominator: self.total as u64,
            }
        }
    }

    /// The total number of failures.
    pub fn total_failures(&self) -> (failures: usize)
        requires
            self.completed <= self.total,
        ensures
            failures == self.total - self.completed,
    {
        self.total - self.completed
    }

    /// The total failure rate, as a share of all runners.
    pub fn failure_rate(&self) -> (rate: Ratio)
        requires
            self.completed <= self.total,
        ensures
            rate == self.failure_share(),
            rate.wf(),
    {
        if self.total == 0 {
            return Ratio::new(0, 1);
        }
        Ratio::new(self.total_failures() as u64, self.total as u64)
    }

    /// The number of unretryable failures.
    pub fn unretryable_failures(&self) -> (failures: usize)
        requires
            self.connect_failed_unretryable + self.stream_closed_unretryable <= usize::MAX,
        ensures
            failures == self.connect_failed_unretryable + self.stream_closed_unretryable,
    {
        self.connect_failed_unretryable + self.stream_closed_unretryable
    }

    /// The connection failure rate (may indicate high concurrency), as a share of
    /// all runners.
    pub fn connect_failure_rate(&self) -> (rate: Ratio)
        requires
            self.connect_failed_retryable + self.connect_failed_unretryable <= usize::MAX,
        ensures
            rate == if self.total == 0 {
                Ratio { numerator: 0, denominator: 1 }
            } else {
                Ratio {
                    numerator: (self.connect_failed_retryable + self.connect_failed_unretryable)
                        as u64,
                    denominator: self.total as u64,
                }
            },
            rate.wf(),
    {
        if self.total == 0 {
            return Ratio::new(0, 1);
        }
        Ratio::new(
            (self.connect_failed_retryable + self.connect_failed_unretryable) as u64,
            self.total as u64,
        )
    }
}

/// How many records have the outcome.
pub open spec fn count_of(records: Seq<OutcomeRecord>, outcome: RunnerOutcome) -> nat
    decreases records.len(),
{
    if records.len() == 0 {
        0
    } else {
        count_of(records.drop_last(), outcome) + if records.last().outcome == outcome {
            1nat
        } else {
            0nat
        }
    }
}

/// The statistics of some records.
pub open spec fn counts(records: Seq<OutcomeRecord>, stats: OutcomeStats) -> bool {
    &&& stats.total == records.len()
    &&& stats.completed == count_of(records, RunnerOutcome::Completed)
    &&& stats.connect_failed_retryable == count_of(
        records,
        RunnerOutcome::ConnectFailed(FailureKind::Retryable),
    )
    &&& stats.connect_failed_unretryable == count_of(
        records,
        RunnerOutcome::ConnectFailed(FailureKind::Unretryable),
    )
    &&& stats.stream_closed_retryable == count_of(
        records,
        RunnerOutcome::StreamClosed(FailureKind::Retryable),
    )
    &&& stats.stream_closed_unretryable == count_of(
        records,
        RunnerOutcome::StreamClosed(FailureKind::Unretryable),
    )
}

/// The record is older than the window.
pub open spec fn is_expired(record: OutcomeRecord, now: u64, window: Duration) -> bool {
    clock::time_since(now, record.timestamp) > clock::nanos(window)
}

/// The records without the expired ones at the front.
pub open spec fn unexpired(records: Seq<OutcomeRecord>, now: u64, window: Duration) -> Seq<
    OutcomeRecord,
>
    decreases records.len(),
{
    if records.len() > 0 && is_expired(records.first(), now, window) {
        unexpired(records.drop_first(), now, window)
    } else {
        records
    }
}

/// The last unretryable failure, if there was one, lies within the time.
pub open spec fn failed_lately(last: Option<u64>, within: Duration, now: u64) -> bool {
    match last {
        Some(last) => clock::time_since(now, last) <= clock::nanos(within),
        None => false,
    }
}

/// The last `count` records.
pub open spec fn newest(records: Seq<OutcomeRecord>, count: int) -> Seq<OutcomeRecord> {
    if records.len() <= count {
        records
    } else {
        records.skip(records.len() - count)
    }
}

/// Runner result sampler.
///
/// Based on the sliding window to count the success/failure of the runners.
#[derive(Debug)]
pub struct RunnerOutcomeSampler {
    /// The result record queue.
    pub records: VecDeque<OutcomeRecord>,
    /// The time window (only count the records within the window).
    pub time_window: Duration,
    /// The maximum number of records.
    pub max_records: usize,
    /// The timestamp of the last unretryable failure (for immediate response).
    pub last_unretryable_at: Option<u64>,
    /// The clock by which records are stamped.
    pub clock: Clock,
}

impl RunnerOutcomeSampler {
    /// Create a new sampler.
    ///
    /// # Arguments
    /// * `time_window` - The time window to count the records, recommended 30-60 seconds
    /// * `max_records` - The maximum number of records, recommended 50-100
    pub fn new(time_window: Duration, max_records: usize) -> (sampler: Self)
        ensures
            sampler.records@ == Seq::<OutcomeRecord>::empty(),
            sampler.time_window == time_window,
            sampler.max_records == max_records,
            sampler.last_unretryable_at is None,
            sampler.clock.started(),
    {
        RunnerOutcomeSampler {
            records: VecDeque::with_capacity(max_records),
            time_window,
            max_records,
            last_unretryable_at: None,
            clock: Clock::start(),
        }
    }

    /// Create a new sampler with default configuration (60 seconds window, 100
    /// records).
    pub fn with_defaults() -> (sampler: Self)
        ensures
            sampler.is_initial(),
    {
        Self::new(Duration::from_secs(60), 100)
    }

    /// Nothing is recorded, and the configuration is the default one.
    pub open spec fn is_initial(&self) -> bool {
        &&& self.records@ == Seq::<OutcomeRecord>::empty()
        &&& clock::nanos(self.time_window) == 60 * 1_000_000_000
        &&& self.max_records == 100
        &&& self.last_unretryable_at is None
        &&& self.clock.started()
    }

    /// The two samplers differ at most in what they have recorded.
    pub open spec fn same_setup(&self, other: &RunnerOutcomeSampler) -> bool {
        &&& self.time_window == other.time_window
        &&& self.max_records == other.max_records
        &&& self.clock == other.clock
    }

    /// The sampler after an outcome at a given time.
    pub open spec fn recorded(
        &self,
        before: &RunnerOutcomeSampler,
        now: u64,
        outcome: RunnerOutcome,
    ) -> bool {
        &&& self.same_setup(before)
        &&& self.records@ == newest(
            unexpired(before.records@, now, before.time_window).push(
                OutcomeRecord { timestamp: now, outcome },
            ),
            before.max_records as int,
        )
        &&& self.last_unretryable_at == if outcome.failure() == Some(FailureKind::Unretryable) {
            Some(now)
        } else {
            before.last_unretryable_at
        }
    }

    /// Record the result of a runner at the current time.
    pub fn record(&mut self, outcome: RunnerOutcome)
        ensures
            exists|now: u64| #[trigger]
                final(self).recorded(old(self), now, outcome) && old(self).clock.shows(now),
    {
        let now = self.clock.now_nanos();
        self.record_at(outcome, now);
    }

    /// Record the result of a runner at a given time: expired records leave, and
    /// the newest of the others stay.
    pub fn record_at(&mut self, outcome: RunnerOutcome, now: u64)
        ensures
            final(self).recorded(old(self), now, outcome),
    {
        // Clean up expired records
        self.cleanup_expired(now);
        // Check if it is unretryable
        if outcome.is_unretryable() {
            self.last_unretryable_at = Some(now);
        }
        // Add the record
        self.records.push_back(OutcomeRecord { timestamp: now, outcome });
        // Limit the maximum number of records
        let ghost full = self.records@;
        assert(newest(full, self.max_records as int) == newest(
            self.records@,
            self.max_records as int,
        ));
        while self.records.len() > self.max_records
            invariant
                self.same_setup(old(self)),
                self.last_unretryable_at == if outcome.failure() == Some(
                    FailureKind::Unretryable,
                ) {
                    Some(now)
                } else {
                    old(self).last_unretryable_at
                },
                newest(full, self.max_records as int) == newest(
                    self.records@,
                    self.max_records as int,
                ),
                self.max_records == old(self).max_records,
            decreases self.records@.len(),
        {
            let ghost before = self.records@;
            self.records.pop_front();
            assert(newest(before, self.max_records as int) =~= newest(
                self.records@,
                self.max_records as int,
            ));
        }
    }

    /// Record the completed outcome.
    pub fn record_completed(&mut self)
        ensures
            exists|now: u64| #[trigger]
                final(self).recorded(old(self), now, RunnerOutcome::Completed)
                    && old(self).clock.shows(now),
    {
        self.record(RunnerOutcome::Completed);
    }

    /// Record the connection failed outcome.
    pub fn record_connect_failed(&mut self, kind: FailureKind)
        ensures
            exists|now: u64| #[trigger]
                final(self).recorded(old(self), now, RunnerOutcome::ConnectFailed(kind))
                    && old(self).clock.shows(now),
    {
        self.record(RunnerOutcome::ConnectFailed(kind));
    }

    /// Record the stream closed outcome.
    pub fn record_stream_closed(&mut self, kind: FailureKind)
        ensures
            exists|now: u64| #[trigger]
                final(self).recorded(old(self), now, RunnerOutcome::StreamClosed(kind))
                    && old(self).clock.shows(now),
    {
        self.record(RunnerOutcome::StreamClosed(kind));
    }

    /// Drop the records at the front that are older than the window.
    pub fn cleanup_expired(&mut self, now: u64)
        ensures
            final(self).same_setup(old(self)),
            final(self).last_unretryable_at == old(self).last_unretryable_at,
            final(self).records@ == unexpired(old(self).records@, now, old(self).time_window),
    {
        while self.records.len() > 0
            invariant_except_break
                unexpired(self.records@, now, self.time_window) == unexpired(
                    old(self).records@,
                    now,
                    self.time_window,
                ),
            invariant
                self.same_setup(old(self)),
                self.last_unretryable_at == old(self).last_unretryable_at,
            ensures
                self.records@ == unexpired(old(self).records@, now, self.time_window),
            decreases self.records@.len(),
        {
            let age: u64 = elapsed_since(now, self.records[0].timestamp);
            if age as u128 > self.time_window.as_nanos() {
                let ghost before = self.records@;
                self.records.pop_front();
                assert(self.records@ =~= before.drop_first());
            } else {
                break;
            }
        }
    }

    /// Get the statistics result at the current time.
    pub fn stats(&mut self) -> (stats: OutcomeStats)
        ensures
            final(self).same_setup(old(self)),
            final(self).last_unretryable_at == old(self).last_unretryable_at,
            exists|now: u64|
                final(self).records@ == #[trigger] unexpired(
                    old(self).records@,
                    now,
                    old(self).time_window,
                ) && old(self).clock.shows(now),
            counts(final(self).records@, stats),
            stats.adds_up(),
    {
        let now = self.clock.now_nanos();
        self.stats_at(now)
    }

    /// Get the statistics result at a given time: expired records leave, the others
    /// are counted by their outcome.
    pub fn stats_at(&mut self, now: u64) -> (stats: OutcomeStats)
        ensures
            final(self).same_setup(old(self)),
            final(self).last_unretryable_at == old(self).last_unretryable_at,
            final(self).records@ == unexpired(old(self).records@, now, old(self).time_window),
            counts(final(self).records@, stats),
            stats.adds_up(),
    {
        self.cleanup_expired(now);
        let mut stats = OutcomeStats::default();
        let mut i: usize = 0;
        let count: usize = self.records.len();
        while i < count
            invariant
                count == self.records@.len(),
                i <= count,
                counts(self.records@.take(i as int), stats),
                stats.adds_up(),
            decreases count - i,
        {
            assert(self.records@.take(i + 1).drop_last() =~= self.records@.take(i as int));
            stats.total = stats.total + 1;
            match self.records[i].outcome {
                RunnerOutcome::Completed => {
                    stats.completed = stats.completed + 1;
                },
                RunnerOutcome::ConnectFailed(FailureKind::Retryable) => {
                    stats.connect_failed_retryable = stats.connect_failed_retryable + 1;
                },
                RunnerOutcome::ConnectFailed(FailureKind::Unretryable) => {
                    stats.connect_failed_unretryable = stats.connect_failed_unretryable + 1;
                },
                RunnerOutcome::StreamClosed(FailureKind::Retryable) => {
                    stats.stream_closed_retryable = stats.stream_closed_retryable + 1;
                },
                RunnerOutcome::StreamClosed(FailureKind::Unretryable) => {
                    stats.stream_closed_unretryable = stats.stream_closed_unretryable + 1;
                },
            }
            i = i + 1;
        }
        assert(self.records@.take(i as int) =~= self.records@);
        stats
    }

    /// Check if a unretryable error occurred recently (within the specified time).
    ///
    /// Used to trigger immediate degradation; the mark is cleared so that it does
    /// so once.
    pub fn has_recent_unretryable(&mut self, within: Duration) -> (recent: bool)
        ensures
            final(self).same_setup(old(self)),
            final(self).records@ == old(self).records@,
            exists|now: u64|
                recent == #[trigger] failed_lately(old(self).last_unretryable_at, within, now)
                    && old(self).clock.shows(now),
            final(self).last_unretryable_at == if recent {
                None
            } else {
                old(self).last_unretryable_at
            },
    {
        let now = self.clock.now_nanos();
        self.has_recent_unretryable_at(within, now)
    }

    /// Check if a unretryable error occurred recently, as seen from a given time.
    pub fn has_recent_unretryable_at(&mut self, within: Duration, now: u64) -> (recent: bool)
        ensures
            final(self).same_setup(old(self)),
            final(self).records@ == old(self).records@,
            recent == failed_lately(old(self).last_unretryable_at, within, now),
            final(self).last_unretryable_at == if recent {
                None
            } else {
                old(self).last_unretryable_at
            },
    {
        if let Some(last) = self.last_unretryable_at {
            let age: u64 = elapsed_since(now, last);
            if age as u128 <= within.as_nanos() {
                // Clear the mark, so that it does not trigger again
                self.last_unretryable_at = None;
                return true;
            }
        }
        false
    }

    /// Reset the sampler.
    pub fn reset(&mut self)
        ensures
            final(self).same_setup(old(self)),
            final(self).records@ == Seq::<OutcomeRecord>::empty(),
            final(self).last_unretryable_at is None,
    {
        self.records.clear();
        self.last_unretryable_at = None;
    }

    /// The number of records within the current window.
    pub fn len(&self) -> (count: usize)
        ensures
            exists|now: u64| #[trigger]
                self.clock.shows(now) && count == unexpired(
                    self.records@,
                    now,
                    self.time_window,
                ).len(),
    {
        let now = self.clock.now_nanos();
        self.len_at(now)
    }

    /// The number of records within the window, as seen from a given time.
    pub fn len_at(&self, now: u64) -> (count: usize)
        ensures
            count == unexpired(self.records@, now, self.time_window).len(),
    {
        let mut expired: usize = 0;
        assert(self.records@.skip(0) =~= self.records@);
        while expired < self.records.len()
            invariant_except_break
                unexpired(self.records@, now, self.time_window) == unexpired(
                    self.records@.skip(expired as int),
                    now,
                    self.time_window,
                ),
            invariant
                expired <= self.records@.len(),
            ensures
                unexpired(self.records@, now, self.time_window) == self.records@.skip(
                    expired as int,
                ),
            decreases self.records@.len() - expired,
        {
            let age: u64 = elapsed_since(now, self.records[expired].timestamp);
            if age as u128 > self.time_window.as_nanos() {
                assert(self.records@.skip(expired as int).drop_first() =~= self.records@.skip(
                    expired + 1,
                ));
                expired = expired + 1;
            } else {
                break;
            }
        }
        self.records.len() - expired
    }

    /// Whether nothing is recorded within the current window.
    pub fn is_empty(&self) -> (empty: bool)
        ensures
            exists|now: u64| #[trigger]
                self.clock.shows(now) && empty == (unexpired(
                    self.records@,
                    now,
                    self.time_window,
                ).len() == 0),
    {
        self.len() == 0
    }
}

/// Law: never more records are kept than the maximum.
pub proof fn records_stay_bounded(
    before: RunnerOutcomeSampler,
    after: RunnerOutcomeSampler,
    now: u64,
    outcome: RunnerOutcome,
)
    requires
        after.recorded(&before, now, outcome),
    ensures
        after.records@.len() <= after.max_records,
        after.max_records > 0 ==> after.records@.len() > 0 && after.records@.last() == (
        OutcomeRecord { timestamp: now, outcome }),
{
}

/// Law: counted outcomes add up to the number of records.
pub proof fn outcomes_add_up(records: Seq<OutcomeRecord>)
    ensures
        records.len() == count_of(records, RunnerOutcome::Completed) + count_of(
            records,
            RunnerOutcome::ConnectFailed(FailureKind::Retryable),
        ) + count_of(records, RunnerOutcome::ConnectFailed(FailureKind::Unretryable)) + count_of(
            records,
            RunnerOutcome::StreamClosed(FailureKind::Retryable),
        ) + count_of(records, RunnerOutcome::StreamClosed(FailureKind::Unretryable)),
    decreases records.len(),
{
    if records.len() > 0 {
        outcomes_add_up(records.drop_last());
    }
}

/// Law: where the records are stamped in order, every record that stays is within
/// the window.
pub proof fn kept_records_are_recent(records: Seq<OutcomeRecord>, now: u64, window: Duration)
    requires
        forall|i: int, j: int|
            0 <= i <= j < records.len() ==> (#[trigger] records[i]).timestamp <= (
            #[trigger] records[j]).timestamp,
    ensures
        forall|i: int|
            0 <= i < unexpired(records, now, window).len() ==> !is_expired(
                #[trigger] unexpired(records, now, window)[i],
                now,
                window,
            ),
    decreases records.len(),
{
    if records.len() > 0 && is_expired(records.first(), now, window) {
        let rest = records.drop_first();
        assert forall|i: int, j: int| 0 <= i <= j < rest.len() implies (
        #[trigger] rest[i]).timestamp <= (#[trigger] rest[j]).timestamp by {
            assert(records[i + 1].timestamp <= records[j + 1].timestamp);
        }
        kept_records_are_recent(rest, now, window);
        assert(unexpired(records, now, window) == unexpired(rest, now, window));
    } else if records.len() > 0 {
        assert forall|i: int| 0 <= i < records.len() implies !is_expired(
            #[trigger] records[i],
            now,
            window,
        ) by {
            assert(records[0].timestamp <= records[i].timestamp);
        }
        assert(unexpired(records, now, window) == records);
    }
}

} // verus!

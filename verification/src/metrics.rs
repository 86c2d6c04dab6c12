//! File writer metrics for monitoring and backpressure control.
use crate::clock;
use crate::clock::{elapsed_since, Clock};
use vstd::prelude::*;

verus! {

/// Samples closer to each other than this, in nanoseconds, yield no speed: 1 ms.
pub const MIN_SAMPLE_NANOS: u64 = 1_000_000;

/// Metrics for monitoring file writer performance and queue depth.
#[derive(Debug)]
pub struct FileWriterMetrics {
    /// Current depth of the write command queue.
    pub queue_depth: usize,
    /// Total bytes written since creation.
    pub bytes_written: u64,
    /// Bytes written at last sample time.
    pub last_sample_bytes: u64,
    /// Last sample timestamp.
    pub last_sample_time: u64,
    /// The clock that samples go by.
    pub clock: Clock,
}

/// A speed: so many bytes in so many nanoseconds.
#[derive(Clone, Copy, Debug, PartialEq, Eq, Structural)]
pub struct Speed {
    /// The bytes.
    pub bytes: u64,
    /// The nanoseconds, at least one.
    pub nanos: u64,
}

/// A point-in-time snapshot of file writer metrics.
#[derive(Clone, Copy, Debug, PartialEq, Eq, Structural)]
pub struct MetricsSnapshot {
    /// Current queue depth.
    pub queue_depth: usize,
    /// Total bytes written.
    pub total_bytes_written: u64,
    /// Current write speed.
    pub write_speed: Speed,
}

impl FileWriterMetrics {
    /// Nothing is measured yet.
    pub open spec fn is_initial(&self) -> bool {
        &&& self.queue_depth == 0
        &&& self.bytes_written == 0
        &&& self.last_sample_bytes == 0
        &&& self.last_sample_time == 0
        &&& self.clock.started()
    }

    /// Create a new metrics instance.
    pub fn new() -> (metrics: Self)
        ensures
            metrics.is_initial(),
    {
        FileWriterMetrics {
            queue_depth: 0,
            bytes_written: 0,
            last_sample_bytes: 0,
            last_sample_time: 0,
            clock: Clock::start(),
        }
    }

    /// Get the current queue depth.
    pub fn get_queue_depth(&self) -> (depth: usize)
        ensures
            depth == self.queue_depth,
    {
        self.queue_depth
    }

    /// Set the current queue depth.
    pub fn set_queue_depth(&mut self, depth: usize)
        ensures
            *final(self) == (FileWriterMetrics { queue_depth: depth, ..*old(self) }),
    {
        self.queue_depth = depth;
    }

    /// Increment bytes written counter, around the end of the number range.
    pub fn add_bytes_written(&mut self, bytes: u64)
        ensures
            *final(self) == (FileWriterMetrics {
                bytes_written: final(self).bytes_written,
                ..*old(self)
            }),
            final(self).bytes_written == (old(self).bytes_written + bytes) % (u64::MAX + 1),
    {
        self.bytes_written = self.bytes_written.wrapping_add(bytes);
    }

    /// Get total bytes written.
    pub fn get_total_bytes_written(&self) -> (bytes: u64)
        ensures
            bytes == self.bytes_written,
    {
        self.bytes_written
    }

    /// The bytes written since the last sample.
    pub open spec fn bytes_since_sample(&self) -> int {
        if self.bytes_written >= self.last_sample_bytes {
            self.bytes_written - self.last_sample_bytes
        } else {
            0
        }
    }

    /// A sample was taken at a given time: the speed since the last one, which this
    /// one replaces. Too soon after the last one the speed is zero, and the last one
    /// stays.
    pub open spec fn sampled(&self, before: &FileWriterMetrics, now: u64, rate: Speed) -> bool {
        let elapsed = clock::time_since(now, before.last_sample_time);
        if elapsed < MIN_SAMPLE_NANOS {
            *self == *before && rate == (Speed { bytes: 0, nanos: 1 })
        } else {
            &&& *self == (FileWriterMetrics {
                last_sample_bytes: before.bytes_written,
                last_sample_time: now,
                ..*before
            })
            &&& rate == (Speed {
                bytes: before.bytes_since_sample() as u64,
                nanos: elapsed as u64,
            })
        }
    }

    /// Calculate current write speed.
    ///
    /// Returns the write speed since last sample and updates the sample timestamp.
    pub fn sample_write_speed(&mut self) -> (rate: Speed)
        ensures
            exists|now: u64| #[trigger]
                final(self).sampled(old(self), now, rate) && old(self).clock.shows(now),
    {
        let now = self.clock.now_nanos();
        self.sample_write_speed_at(now)
    }

    /// Calculate the write speed at a given time.
    pub fn sample_write_speed_at(&mut self, now: u64) -> (rate: Speed)
        ensures
            final(self).sampled(old(self), now, rate),
    {
        let elapsed: u64 = elapsed_since(now, self.last_sample_time);
        // Avoid division by zero
        if elapsed < MIN_SAMPLE_NANOS {
            return Speed { bytes: 0, nanos: 1 };
        }
        let bytes_delta: u64 = self.bytes_written.saturating_sub(self.last_sample_bytes);
        // Update for next sample
        self.last_sample_bytes = self.bytes_written;
        self.last_sample_time = now;
        Speed { bytes: bytes_delta, nanos: elapsed }
    }

    /// A snapshot was taken at a given time, and with it a sample.
    pub open spec fn captured(
        &self,
        before: &FileWriterMetrics,
        now: u64,
        snapshot: MetricsSnapshot,
    ) -> bool {
        &&& snapshot.queue_depth == before.queue_depth
        &&& snapshot.total_bytes_written == before.bytes_written
        &&& self.sampled(before, now, snapshot.write_speed)
    }

    /// Get a snapshot of current metrics.
    pub fn snapshot(&mut self) -> (snapshot: MetricsSnapshot)
        ensures
            exists|now: u64| #[trigger]
                final(self).captured(old(self), now, snapshot) && old(self).clock.shows(now),
    {
        let now = self.clock.now_nanos();
        self.snapshot_at(now)
    }

    /// Get a snapshot of the metrics at a given time.
    pub fn snapshot_at(&mut self, now: u64) -> (snapshot: MetricsSnapshot)
        ensures
            final(self).captured(old(self), now, snapshot),
    {
        MetricsSnapshot {
            queue_depth: self.get_queue_depth(),
            total_bytes_written: self.get_total_bytes_written(),
            write_speed: self.sample_write_speed_at(now),
        }
    }
}

/// Law: a sample starts the count anew, so that right after it nothing has been
/// written.
pub proof fn sampling_starts_anew(
    before: FileWriterMetrics,
    after: FileWriterMetrics,
    now: u64,
    rate: Speed,
)
    requires
        after.sampled(&before, now, rate),
        clock::time_since(now, before.last_sample_time) >= MIN_SAMPLE_NANOS,
    ensures
        after.bytes_since_sample() == 0,
        after.bytes_written == before.bytes_written,
{
}

/// Law: a sample tells the bytes that were written since the last one, and the time. Within
/// a millisecond of the last one it tells no speed and changes nothing.
pub proof fn samples_tell_what_was_written(
    before: FileWriterMetrics,
    after: FileWriterMetrics,
    now: u64,
    rate: Speed,
)
    requires
        after.sampled(&before, now, rate),
        before.last_sample_bytes <= before.bytes_written,
        before.last_sample_time <= now,
    ensures
        now - before.last_sample_time < 1_000_000 ==> rate.bytes == 0 && after == before,
        now - before.last_sample_time >= 1_000_000 ==> {
            &&& rate.bytes + before.last_sample_bytes == before.bytes_written
            &&& rate.nanos + before.last_sample_time == now
            &&& after.last_sample_bytes == before.bytes_written
            &&& after.last_sample_time == now
            &&& after.bytes_written == before.bytes_written
            &&& after.queue_depth == before.queue_depth
        },
        rate.nanos > 0,
{
}

/// Law: a snapshot tells what has been written in all and how many writes are queued, and
/// changes neither. Its speed is that of a sample.
pub proof fn snapshots_tell_the_totals(
    before: FileWriterMetrics,
    after: FileWriterMetrics,
    now: u64,
    snapshot: MetricsSnapshot,
)
    requires
        after.captured(&before, now, snapshot),
        before.last_sample_bytes <= before.bytes_written,
        before.last_sample_time <= now,
    ensures
        snapshot.queue_depth == before.queue_depth == after.queue_depth,
        snapshot.total_bytes_written == before.bytes_written == after.bytes_written,
        now - before.last_sample_time >= 1_000_000 ==> snapshot.write_speed.bytes
            + before.last_sample_bytes == snapshot.total_bytes_written,
        now - before.last_sample_time < 1_000_000 ==> snapshot.write_speed.bytes == 0,
{
}

} // verus!

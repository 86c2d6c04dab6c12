//! Write budget mechanism for backpressure control at the runner level.
//!
//! Instead of controlling concurrency, this directly throttles data reading from
//! the stream by requiring budget tokens before consuming data. This prevents
//! excessive memory buildup when disk I/O is slower than network download.
use vstd::prelude::*;

verus! {

/// Default budget capacity: 32 MB. This allows about 16 concurrent 2MB chunks to be
/// in-flight.
pub const DEFAULT_BUDGET_CAPACITY: usize = 32 * 1024 * 1024;

/// Write budget for controlling data flow from runners to file writer.
///
/// This mechanism ensures that runners don't download data faster than
/// the file writer can write it to disk, preventing memory exhaustion.
#[derive(Debug)]
pub struct WriteBudget {
    /// Current available budget (in bytes).
    pub available: usize,
    /// Total budget capacity.
    pub capacity: usize,
    /// High watermark for triggering notifications: when available budget crosses it
    /// during refill, waiters are woken.
    pub high_watermark: usize,
}

/// The high watermark of a capacity: three quarters of it.
pub open spec fn watermark(capacity: usize) -> int {
    3 * capacity / 4
}

impl WriteBudget {
    /// No more is available than the capacity, and the watermark is that of the
    /// capacity.
    pub open spec fn wf(&self) -> bool {
        &&& self.available <= self.capacity
        &&& self.high_watermark == watermark(self.capacity)
    }

    /// Budget was consumed, as a whole or not at all.
    pub open spec fn consumed(&self, before: &WriteBudget, size: usize, consumed: bool) -> bool {
        &&& consumed == (before.available >= size)
        &&& *self == if consumed {
            WriteBudget { available: (before.available - size) as usize, ..*before }
        } else {
            *before
        }
    }

    /// Budget was refilled up to the capacity, and whether it crossed the watermark.
    pub open spec fn refilled(&self, before: &WriteBudget, amount: usize, notify: bool) -> bool {
        let filled = before.available + amount;
        &&& *self == (WriteBudget {
            available: if filled <= before.capacity {
                filled as usize
            } else {
                before.capacity
            },
            ..*before
        })
        &&& notify == (before.available < watermark(before.capacity) && filled >= watermark(
            before.capacity,
        ))
    }

    /// Create a new write budget with default capacity (32 MB).
    pub fn new() -> (budget: Self)
        ensures
            budget.wf(),
            budget.available == DEFAULT_BUDGET_CAPACITY,
            budget.capacity == DEFAULT_BUDGET_CAPACITY,
    {
        Self::with_capacity(DEFAULT_BUDGET_CAPACITY)
    }

    /// Create a new write budget with custom capacity.
    pub fn with_capacity(capacity: usize) -> (budget: Self)
        ensures
            budget.wf(),
            budget.available == capacity,
            budget.capacity == capacity,
    {
        let high_watermark: usize = capacity / 4 * 3 + capacity % 4 * 3 / 4;
        WriteBudget { available: capacity, capacity, high_watermark }
    }

    /// Get the current available budget.
    pub fn available(&self) -> (available: usize)
        ensures
            available == self.available,
    {
        self.available
    }

    /// Get the total capacity.
    pub fn capacity(&self) -> (capacity: usize)
        ensures
            capacity == self.capacity,
    {
        self.capacity
    }

    /// Try to consume budget without waiting.
    ///
    /// Returns `true` if budget was consumed, `false` otherwise.
    pub fn try_consume(&mut self, size: usize) -> (consumed: bool)
        requires
            old(self).wf(),
        ensures
            final(self).wf(),
            final(self).consumed(old(self), size, consumed),
    {
        if self.available < size {
            return false;
        }
        self.available = self.available - size;
        true
    }

    /// Refill budget (called by file writer after successful write), up to the
    /// capacity.
    ///
    /// Returns whether a waiting runner is to be woken: where the budget, before it
    /// is capped, crosses the high watermark.
    pub fn refill(&mut self, amount: usize) -> (notify: bool)
        requires
            old(self).wf(),
        ensures
            final(self).wf(),
            final(self).refilled(old(self), amount, notify),
    {
        let prev: usize = self.available;
        let new: usize = prev.saturating_add(amount);
        // Cap at capacity
        self.available = if new > self.capacity {
            self.capacity
        } else {
            new
        };
        // Notify waiters if we crossed the high watermark
        prev < self.high_watermark && new >= self.high_watermark
    }
}

/// Law: a refill of what was consumed restores the budget.
pub proof fn refill_restores(
    before: WriteBudget,
    between: WriteBudget,
    after: WriteBudget,
    size: usize,
    notify: bool,
)
    requires
        before.wf(),
        between.consumed(&before, size, true),
        after.refilled(&between, size, notify),
    ensures
        after == before,
{
}

/// Law: whoever waits for an empty budget is woken when it is refilled as a whole.
pub proof fn full_refill_wakes(before: WriteBudget, after: WriteBudget, notify: bool)
    requires
        before.wf(),
        before.available == 0,
        before.capacity > 1,
        after.refilled(&before, before.capacity, notify),
    ensures
        notify,
        after.available == after.capacity,
{
}

} // verus!

//! Budget sampler for disk write throttling.
//!
//! A budget-based rate limiter that measures actual write speed using an
//! exponentially weighted moving average (EWMA) and applies backpressure when disk
//! writes are slower than network downloads.
use crate::clock;
use crate::clock::Clock;
use crate::ratio;
use crate::ratio::Ratio;
use std::time::Duration;
use vstd::prelude::*;

verus! {

/// One in the fixed-point format of speeds: 16 bits behind the point.
pub const FP_ONE: u64 = 65536;

/// Configuration for the budget sampler.
#[derive(Clone, Copy, Debug)]
pub struct BudgetConfig {
    /// Initial budget capacity (bytes).
    pub initial_capacity: u64,
    /// Minimum budget capacity (bytes), prevents complete starvation.
    pub min_capacity: u64,
    /// Maximum budget capacity (bytes).
    pub max_capacity: u64,
    /// EWMA smoothing factor in fixed-point (alpha = ewma_alpha_fp / 65536).
    pub ewma_alpha_fp: u64,
    /// Sampling interval for EWMA updates.
    pub sample_interval: Duration,
}

impl BudgetConfig {
    /// The configuration is the default one: 64 MB at first, between 64 KB and 256 MB,
    /// a smoothing factor of about a fifth, and two samples per second.
    pub open spec fn is_default(&self) -> bool {
        &&& self.initial_capacity == 64 * 1024 * 1024
        &&& self.min_capacity == 64 * 1024
        &&& self.max_capacity == 256 * 1024 * 1024
        &&& self.ewma_alpha_fp == 13107
        &&& clock::nanos(self.sample_interval) == 500 * 1_000_000
    }

    /// Create a new configuration with custom values.
    pub fn new(
        initial_capacity: u64,
        min_capacity: u64,
        max_capacity: u64,
        ewma_alpha_fp: u64,
        sample_interval: Duration,
    ) -> (config: Self)
        ensures
            config == (BudgetConfig {
                initial_capacity,
                min_capacity,
                max_capacity,
                ewma_alpha_fp,
                sample_interval,
            }),
    {
        BudgetConfig {
            initial_capacity,
            min_capacity,
            max_capacity,
            ewma_alpha_fp,
            sample_interval,
        }
    }
}

impl Default for BudgetConfig {
    fn default() -> (config: Self)
        ensures
            config.is_default(),
    {
        BudgetConfig {
            initial_capacity: 64 * 1024 * 1024,
            min_capacity: 64 * 1024,
            max_capacity: 256 * 1024 * 1024,
            ewma_alpha_fp: 13107,
            sample_interval: Duration::from_millis(500),
        }
    }
}

/// The low 64 bits of a number.
pub open spec fn low_bits(n: int) -> int {
    n % 0x1_0000_0000_0000_0000
}

/// The low 64 bits of a number.
pub(crate) fn truncated(n: u128) -> (low: u64)
    ensures
        low == low_bits(n as int),
{
    let low: u64 = (n % 0x1_0000_0000_0000_0000u128) as u64;
    low
}

/// The speed of so many bytes in so many nanoseconds, in bytes per second and fixed
/// point; zero where no time has passed.
pub open spec fn instant_speed(bytes: int, elapsed: int) -> int {
    let speed = bytes * 1_000_000_000 * FP_ONE / elapsed;
    if elapsed == 0 {
        0
    } else if speed <= u64::MAX {
        speed
    } else {
        u64::MAX as int
    }
}

/// The part of a difference that counts: alpha times the difference.
pub open spec fn weighted(difference: int, alpha: u64) -> int {
    low_bits(difference * alpha / FP_ONE as int)
}

/// The moving average after another sample: the sample itself at first, and then a
/// step from the average towards the sample.
pub open spec fn averaged(average: u64, sample: u64, alpha: u64) -> int {
    if average == 0 {
        sample as int
    } else if sample >= average {
        let next = average + weighted(sample - average, alpha);
        if next <= u64::MAX {
            next
        } else {
            u64::MAX as int
        }
    } else {
        let next = average - weighted(average - sample, alpha);
        if next >= 0 {
            next
        } else {
            0
        }
    }
}

/// Try to acquire budget: it is taken as a whole, or not at all.
pub fn try_acquire(budget: &mut u64, amount: u64) -> (acquired: bool)
    ensures
        acquired == (*old(budget) >= amount),
        *final(budget) == if acquired {
            *old(budget) - amount
        } else {
            *old(budget) as int
        },
{
    if *budget >= amount {
        *budget = *budget - amount;
        true
    } else {
        false
    }
}

/// Budget sampler for disk write throttling.
#[derive(Debug)]
pub struct BudgetSampler {
    /// Configuration.
    pub config: BudgetConfig,
    /// Current available budget (bytes).
    pub budget: u64,
    /// EWMA speed (bytes/sec) in fixed-point format.
    pub ewma_speed_fp: u64,
    /// Last sample timestamp (nanos since start).
    pub last_sample_nanos: u64,
    /// Bytes written since last sample.
    pub bytes_written_since_sample: u64,
    /// Start time for relative timestamps.
    pub start_at: Clock,
}

impl BudgetSampler {
    /// Create a new sampler with the given configuration.
    pub fn new(config: BudgetConfig) -> (sampler: Self)
        ensures
            sampler.config == config,
            sampler.budget == config.initial_capacity,
            sampler.ewma_speed_fp == 0,
            sampler.last_sample_nanos == 0,
            sampler.bytes_written_since_sample == 0,
            sampler.start_at.started(),
    {
        BudgetSampler {
            config,
            budget: config.initial_capacity,
            ewma_speed_fp: 0,
            last_sample_nanos: 0,
            bytes_written_since_sample: 0,
            start_at: Clock::start(),
        }
    }

    /// Create a new sampler with default configuration.
    pub fn with_defaults() -> (sampler: Self)
        ensures
            sampler.config.is_default(),
            sampler.budget == sampler.config.initial_capacity,
            sampler.ewma_speed_fp == 0,
            sampler.last_sample_nanos == 0,
            sampler.bytes_written_since_sample == 0,
            sampler.start_at.started(),
    {
        Self::new(BudgetConfig::default())
    }

    /// Get current EWMA speed in bytes/sec.
    pub fn ewma_speed(&self) -> (speed: Ratio)
        ensures
            speed == (Ratio { numerator: self.ewma_speed_fp, denominator: FP_ONE }),
            speed.wf(),
    {
        Ratio::new(self.ewma_speed_fp, FP_ONE)
    }

    /// Get current available budget.
    pub fn available_budget(&self) -> (budget: u64)
        ensures
            budget == self.budget,
    {
        self.budget
    }

    /// The time since the last sample.
    pub open spec fn since_sample(&self, now: u64) -> int {
        clock::time_since(now, self.last_sample_nanos)
    }

    /// Enough time has passed for another sample.
    pub open spec fn sample_due(&self, now: u64) -> bool {
        self.since_sample(now) >= low_bits(clock::nanos(self.config.sample_interval) as int)
    }

    /// The bytes written since the last sample, with some more, around the end of the
    /// number range.
    pub open spec fn bytes_with(&self, bytes: u64) -> int {
        low_bits(self.bytes_written_since_sample + bytes)
    }

    /// A write completed at a given time: its bytes count for the speed, which is
    /// sampled when due, and its budget is returned up to the maximum.
    pub open spec fn wrote(&self, before: &BudgetSampler, bytes: u64, now: u64) -> bool {
        let returned = before.budget + bytes;
        &&& self.config == before.config
        &&& self.start_at == before.start_at
        &&& self.budget == if returned <= before.config.max_capacity {
            returned
        } else {
            before.config.max_capacity as int
        }
        &&& if before.sample_due(now) {
            &&& self.last_sample_nanos == now
            &&& self.bytes_written_since_sample == 0
            &&& self.ewma_speed_fp == averaged(
                before.ewma_speed_fp,
                instant_speed(before.bytes_with(bytes), before.since_sample(now)) as u64,
                before.config.ewma_alpha_fp,
            )
        } else {
            &&& self.last_sample_nanos == before.last_sample_nanos
            &&& self.bytes_written_since_sample == before.bytes_with(bytes)
            &&& self.ewma_speed_fp == before.ewma_speed_fp
        }
    }

    /// Called when a write operation completes, at a given time. One waiter is to be
    /// woken then.
    pub fn on_write_complete(&mut self, bytes: u64, now: u64)
        ensures
            final(self).wrote(old(self), bytes, now),
    {
        // 1. Accumulate bytes for sampling
        self.bytes_written_since_sample = self.bytes_written_since_sample.wrapping_add(bytes);
        // 2. Check if we need to update EWMA (based on sample interval)
        let elapsed_nanos: u64 = now.saturating_sub(self.last_sample_nanos);
        let sample_interval_nanos: u64 = truncated(self.config.sample_interval.as_nanos());
        if elapsed_nanos >= sample_interval_nanos {
            self.last_sample_nanos = now;
            self.update_ewma(elapsed_nanos);
        }
        // 3. Return budget (capped at max_capacity)
        let returned = self.budget.saturating_add(bytes);
        self.budget = if returned <= self.config.max_capacity {
            returned
        } else {
            self.config.max_capacity
        };
    }

    /// Update EWMA speed calculation.
    pub fn update_ewma(&mut self, elapsed_nanos: u64)
        ensures
            *final(self) == (BudgetSampler {
                bytes_written_since_sample: 0,
                ewma_speed_fp: final(self).ewma_speed_fp,
                ..*old(self)
            }),
            final(self).ewma_speed_fp == averaged(
                old(self).ewma_speed_fp,
                instant_speed(
                    old(self).bytes_written_since_sample as int,
                    elapsed_nanos as int,
                ) as u64,
                old(self).config.ewma_alpha_fp,
            ),
    {
        // Get and reset bytes written since last sample
        let bytes: u64 = self.bytes_written_since_sample;
        self.bytes_written_since_sample = 0;
        // Calculate instantaneous speed (bytes/sec) in fixed-point
        let inst_speed_fp: u64 = if elapsed_nanos > 0 {
            assert(bytes * 1_000_000_000 * 65536 <= u128::MAX) by (nonlinear_arith)
                requires
                    bytes <= 0xffff_ffff_ffff_ffff,
            ;
            let scaled: u128 = bytes as u128 * 1_000_000_000 * 65536;
            let speed: u128 = scaled / elapsed_nanos as u128;
            if speed <= u64::MAX as u128 {
                speed as u64
            } else {
                u64::MAX
            }
        } else {
            0
        };
        // Update EWMA using fixed-point arithmetic
        let alpha: u64 = self.config.ewma_alpha_fp;
        let average: u64 = self.ewma_speed_fp;
        self.ewma_speed_fp = if average == 0 {
            // Cold start: use instantaneous value
            inst_speed_fp
        } else if inst_speed_fp >= average {
            let step: u64 = weigh(inst_speed_fp - average, alpha);
            average.saturating_add(step)
        } else {
            let step: u64 = weigh(average - inst_speed_fp, alpha);
            average.saturating_sub(step)
        };
    }

    /// Get current time in nanos for external tracking. Use this with `release()` for
    /// cross-component acquire/release patterns. At which moment the clock is read
    /// depends on the machine alone.
    pub fn current_nanos(&self) -> (now: u64)
        ensures
            self.start_at.shows(now),
    {
        self.start_at.now_nanos()
    }

    /// Release budget and update EWMA (for cross-component usage). When the budget was
    /// acquired does not matter.
    pub fn release(&mut self, amount: u64, _start_nanos: u64)
        ensures
            exists|now: u64| #[trigger]
                final(self).wrote(old(self), amount, now) && old(self).start_at.shows(now),
    {
        let now = self.start_at.now_nanos();
        self.on_write_complete(amount, now);
    }
}

/// The part of a difference that counts.
fn weigh(difference: u64, alpha: u64) -> (step: u64)
    ensures
        step == weighted(difference as int, alpha),
{
    proof {
        ratio::product_fits(difference, alpha);
    }
    truncated(difference as u128 * alpha as u128 / FP_ONE as u128)
}

/// What someone who waits for budget does next.
#[derive(Clone, Copy, Debug, PartialEq, Eq, Structural)]
pub enum AcquireStep {
    /// The budget was acquired.
    Acquired,
    /// Register to be notified, and try again: what was returned in the meantime must
    /// not be missed.
    Listen,
    /// Wait to be notified, and try again.
    Wait,
}

/// Someone who waits for budget.
#[derive(Debug)]
pub struct AcquirePermit {
    /// How much.
    pub amount: u64,
    /// Whether they are registered to be notified.
    pub listening: bool,
}

impl AcquirePermit {
    /// Nothing has been tried yet.
    pub fn new(amount: u64) -> (permit: Self)
        ensures
            permit == (AcquirePermit { amount, listening: false }),
    {
        AcquirePermit { amount, listening: false }
    }

    /// What a try leads to, and what it leaves of the budget.
    pub open spec fn tried(
        &self,
        before: &AcquirePermit,
        budget_before: u64,
        budget: u64,
        step: AcquireStep,
    ) -> bool {
        &&& self.amount == before.amount
        &&& if budget_before >= before.amount {
            &&& step == AcquireStep::Acquired
            &&& budget == budget_before - before.amount
            &&& !self.listening
        } else {
            &&& step == if before.listening {
                AcquireStep::Wait
            } else {
                AcquireStep::Listen
            }
            &&& budget == budget_before
            &&& self.listening
        }
    }

    /// Try to acquire the budget. Only who was registered before the try may wait.
    pub fn attempt(&mut self, sampler: &mut BudgetSampler) -> (step: AcquireStep)
        ensures
            *final(sampler) == (BudgetSampler { budget: final(sampler).budget, ..*old(sampler) }),
            final(self).tried(old(self), old(sampler).budget, final(sampler).budget, step),
    {
        if try_acquire(&mut sampler.budget, self.amount) {
            self.listening = false;
            return AcquireStep::Acquired;
        }
        if !self.listening {
            self.listening = true;
            return AcquireStep::Listen;
        }
        AcquireStep::Wait
    }

    /// The notification came; the next try starts anew.
    pub fn notified(&mut self)
        ensures
            *final(self) == (AcquirePermit { amount: old(self).amount, listening: false }),
    {
        self.listening = false;
    }
}

/// Budget that was acquired, to be released when the write is done.
#[derive(Debug)]
pub struct TokenGuard {
    /// How much.
    pub amount: u64,
    /// When it was acquired.
    pub start_nanos: u64,
}

impl TokenGuard {
    /// Budget that was acquired.
    pub fn new(amount: u64, start_nanos: u64) -> (guard: Self)
        ensures
            guard == (TokenGuard { amount, start_nanos }),
    {
        TokenGuard { amount, start_nanos }
    }

    /// Get the amount of bytes this guard represents.
    pub fn amount(&self) -> (amount: u64)
        ensures
            amount == self.amount,
    {
        self.amount
    }

    /// The write is done: the budget is returned.
    pub fn finish(self, sampler: &mut BudgetSampler)
        ensures
            exists|now: u64| #[trigger]
                final(sampler).wrote(old(sampler), self.amount, now) && old(sampler).start_at.shows(now),
    {
        sampler.release(self.amount, self.start_nanos);
    }
}

/// Law: budget that is acquired and released again is what it was, where it was
/// within the maximum; and after a release it always is.
pub proof fn released_budget_is_back(
    before: BudgetSampler,
    acquired: BudgetSampler,
    after: BudgetSampler,
    amount: u64,
    now: u64,
)
    requires
        before.budget >= amount,
        acquired == (BudgetSampler { budget: (before.budget - amount) as u64, ..before }),
        after.wrote(&acquired, amount, now),
    ensures
        before.budget <= before.config.max_capacity ==> after.budget == before.budget,
        after.budget <= after.config.max_capacity,
{
}

/// Law: the moving average stays between the previous average and the sample, where
/// the smoothing factor is at most one.
pub proof fn average_stays_between(average: u64, sample: u64, alpha: u64)
    requires
        average > 0,
        alpha <= FP_ONE,
    ensures
        average <= sample ==> average <= averaged(average, sample, alpha) <= sample,
        sample <= average ==> sample <= averaged(average, sample, alpha) <= average,
{
    if sample >= average {
        weighted_within(sample - average, alpha);
    } else {
        weighted_within(average - sample, alpha);
    }
}

/// A weighted difference lies between zero and the difference.
proof fn weighted_within(difference: int, alpha: u64)
    requires
        0 <= difference <= u64::MAX,
        alpha <= FP_ONE,
    ensures
        0 <= weighted(difference, alpha) <= difference,
{
    assert(0 <= difference * alpha <= difference * 65536) by (nonlinear_arith)
        requires
            0 <= difference,
            0 <= alpha <= 65536,
    ;
}

} // verus!

//! What keeps writing in step with downloading.
use crate::backpressure::{
    BackpressureState, WriteBackpressureContext, WriteBackpressureStrategy, FILE_WRITER_QUEUE_SIZE,
};
use crate::budget::{BudgetSampler, FP_ONE};
use crate::pending_writer::{PendingWrite, PendingWriter, WriteCompletion};
use crate::strategy::StrategyAction;
use crate::write_budget::WriteBudget;
use crate::{budget, clock};
use vstd::prelude::*;

verus! {

/// Law: what a run of the backpressure strategy decides. The queue is critical or high
/// where its share of the queue's size reaches the threshold. A critical queue always
/// calls for fewer runners; a high one where writing is slower than the threshold's share
/// of downloading and the last action is long enough ago. The concurrency then goes down
/// by the step, or under a critical queue by a quarter where that is more, to no less than
/// the minimum. Nothing is asked for that is not less.
pub proof fn full_queues_slow_the_download(
    before: WriteBackpressureStrategy,
    after: WriteBackpressureStrategy,
    context: WriteBackpressureContext,
    now: u64,
    actions: Seq<StrategyAction>,
)
    requires
        after.stepped(&before, context, now, actions),
    ensures
        ({
            let config = before.config;
            let depth = context.queue_depth as int;
            let size = FILE_WRITER_QUEUE_SIZE as int;
            let critical = depth * config.queue_depth_critical_threshold.denominator
                >= config.queue_depth_critical_threshold.numerator * size;
            let high = depth * config.queue_depth_high_threshold.denominator
                >= config.queue_depth_high_threshold.numerator * size;
            let slow = if context.download_speed == 0 {
                config.write_speed_ratio_threshold.denominator
                    < config.write_speed_ratio_threshold.numerator
            } else {
                context.write_speed * config.write_speed_ratio_threshold.denominator
                    < config.write_speed_ratio_threshold.numerator * context.download_speed
            };
            let due = before.last_action_time matches Some(last) ==> if last <= now {
                now - last >= clock::nanos(config.min_action_interval)
            } else {
                clock::nanos(config.min_action_interval) == 0
            };
            let current = context.current_concurrency as int;
            let step = if critical && current / 4 > config.degradation_step {
                current / 4
            } else {
                config.degradation_step as int
            };
            let target = if current - step >= config.min_concurrency {
                current - step
            } else {
                config.min_concurrency as int
            };
            &&& after.state == BackpressureState::Critical <==> critical
            &&& after.state == BackpressureState::High <==> high && !critical
            &&& after.config == config
            &&& if (critical || high && slow && due) && target < current {
                &&& actions.len() == 1
                &&& actions[0] matches StrategyAction::ChangeMaxConcurrency(level) && level
                    == target
                &&& after.last_action_time == Some(now)
            } else {
                &&& actions.len() == 0
                &&& after.last_action_time == before.last_action_time
            }
        }),
{
    let threshold = before.config.write_speed_ratio_threshold;
    assert(1 * threshold.denominator == threshold.denominator && threshold.numerator * 1
        == threshold.numerator) by (nonlinear_arith);
}

/// Law: the speed of a sample is its bytes by its time, in fixed point and rounded down,
/// or the largest number where it is larger; without time it is zero.
pub proof fn samples_measure_speed(bytes: u64, elapsed: u64)
    ensures
        ({
            let speed = budget::instant_speed(bytes as int, elapsed as int);
            let scaled = bytes * 1_000_000_000 * FP_ONE;
            &&& 0 <= speed <= u64::MAX
            &&& elapsed == 0 ==> speed == 0
            &&& elapsed > 0 ==> speed * elapsed <= scaled
            &&& elapsed > 0 && speed < u64::MAX ==> scaled < (speed + 1) * elapsed
        }),
{
    let scaled = bytes * 1_000_000_000 * FP_ONE;
    if elapsed > 0 {
        let exact = scaled / (elapsed as int);
        assert(scaled >= 0);
        assert(exact * elapsed <= scaled < (exact + 1) * elapsed && exact >= 0)
            by (nonlinear_arith)
            requires
                exact == scaled / (elapsed as int),
                elapsed > 0,
                scaled >= 0,
        ;
        let speed = budget::instant_speed(bytes as int, elapsed as int);
        assert(speed * elapsed <= exact * elapsed) by (nonlinear_arith)
            requires
                speed <= exact,
                elapsed > 0,
        ;
    }
}

/// Law: the average moves towards a sample by the smoothing factor's share of the way,
/// rounded towards where it was. The first sample is the average.
pub proof fn averages_follow_samples(average: u64, sample: u64, alpha: u64)
    requires
        alpha <= FP_ONE,
    ensures
        ({
            let next = budget::averaged(average, sample, alpha);
            let way = if sample >= average {
                sample - average
            } else {
                average - sample
            };
            let moved = if sample >= average {
                next - average
            } else {
                average - next
            };
            &&& average == 0 ==> next == sample
            &&& average > 0 ==> moved * FP_ONE <= way * alpha < (moved + 1) * FP_ONE
            &&& average > 0 && alpha == FP_ONE ==> next == sample
            &&& average > 0 && alpha == 0 ==> next == average
        }),
{
    let way = if sample >= average {
        sample - average
    } else {
        average - sample
    };
    assert(0 <= way * alpha <= way * 65536) by (nonlinear_arith)
        requires
            0 <= alpha <= 65536,
            way >= 0,
    ;
    assert(alpha == 65536 ==> way * alpha == way * 65536) by (nonlinear_arith);
    assert(alpha == 0 ==> way * alpha == 0) by (nonlinear_arith);
    assert(0 <= (way * alpha) / 65536 <= way);
}

/// Law: a completed write gives its budget back, up to the maximum. Its bytes are counted
/// until the next sample, which starts the count anew and remembers its time.
pub proof fn writes_give_their_budget_back(
    before: BudgetSampler,
    after: BudgetSampler,
    bytes: u64,
    now: u64,
)
    requires
        after.wrote(&before, bytes, now),
        before.bytes_written_since_sample + bytes <= u64::MAX,
        clock::nanos(before.config.sample_interval) <= u64::MAX,
    ensures
        after.budget <= before.config.max_capacity,
        after.budget <= before.budget + bytes,
        after.budget == before.budget + bytes || after.budget == before.config.max_capacity,
        ({
            let elapsed = if before.last_sample_nanos <= now {
                now - before.last_sample_nanos
            } else {
                0
            };
            let counted = before.bytes_written_since_sample + bytes;
            if elapsed >= clock::nanos(before.config.sample_interval) {
                &&& after.bytes_written_since_sample == 0
                &&& after.last_sample_nanos == now
                &&& before.ewma_speed_fp == 0 ==> after.ewma_speed_fp == budget::instant_speed(
                    counted,
                    elapsed,
                )
                &&& after.ewma_speed_fp == budget::averaged(
                    before.ewma_speed_fp,
                    budget::instant_speed(counted, elapsed) as u64,
                    before.config.ewma_alpha_fp,
                )
            } else {
                &&& after.bytes_written_since_sample == counted
                &&& after.last_sample_nanos == before.last_sample_nanos
                &&& after.ewma_speed_fp == before.ewma_speed_fp
            }
        }),
{
    samples_measure_speed(
        (before.bytes_written_since_sample + bytes) as u64,
        before.since_sample(now) as u64,
    );
}

/// Law: budget is consumed as a whole where there is enough of it, and otherwise not
/// touched; a refill adds to it up to the capacity. Waiters are woken exactly by the
/// refill that lifts it from below three quarters of the capacity to there.
pub proof fn budget_is_neither_lost_nor_made(
    before: WriteBudget,
    spent: WriteBudget,
    filled: WriteBudget,
    size: usize,
    consumed: bool,
    amount: usize,
    notify: bool,
)
    requires
        before.wf(),
        spent.consumed(&before, size, consumed),
        filled.refilled(&before, amount, notify),
    ensures
        consumed <==> size <= before.available,
        consumed ==> spent.available + size == before.available,
        !consumed ==> spent == before,
        spent.capacity == before.capacity,
        filled.capacity == before.capacity,
        filled.available <= before.capacity,
        before.available + amount <= before.capacity ==> filled.available == before.available
            + amount,
        before.available + amount > before.capacity ==> filled.available == before.capacity,
        notify <==> before.available < 3 * before.capacity / 4 && 3 * before.capacity / 4
            <= before.available + amount,
{
}

/// What a writer holds: the writes in flight, and the one that is buffered.
pub open spec fn holds(writer: PendingWriter) -> int {
    writer.in_flight + if writer.pending_write is Some {
        1int
    } else {
        0int
    }
}

/// Law: a write that is accepted is held from then on, as it is: dispatched at once where
/// a slot is free, and buffered otherwise, in a buffer that was empty. It is accepted
/// unless a write failed, or all slots and the buffer are taken.
pub proof fn accepted_writes_are_held(
    before: PendingWriter,
    after: PendingWriter,
    write: PendingWrite,
    dispatch: Option<PendingWrite>,
)
    requires
        before.wf(),
        before.accepts(),
        after.took(&before, write, dispatch),
    ensures
        holds(after) == holds(before) + 1,
        dispatch is Some ==> dispatch == Some(write) && after.in_flight == before.in_flight + 1,
        dispatch is None ==> before.pending_write is None && after.pending_write == Some(write)
            && before.in_flight == before.capacity,
        after.in_flight <= after.capacity,
{
}

/// Law: whether a write is accepted: not after a failure, and not where every slot and the
/// buffer are taken.
pub proof fn writes_are_accepted_while_there_is_room(writer: PendingWriter)
    requires
        writer.wf(),
    ensures
        writer.accepts() <==> !writer.saw_error && holds(writer) <= writer.capacity,
{
}

/// Law: completed writes leave, and nothing else does. The buffered write is dispatched in
/// their place, as it is, unless a write failed; a failure is never forgotten.
pub proof fn completed_writes_make_room(
    before: PendingWriter,
    after: PendingWriter,
    completions: Seq<WriteCompletion>,
    dispatch: Option<PendingWrite>,
)
    requires
        before.wf(),
        completions.len() <= before.in_flight,
        after.ticked(&before, completions, dispatch),
    ensures
        holds(after) == holds(before) - completions.len(),
        dispatch is Some ==> dispatch == before.pending_write && after.pending_write is None,
        dispatch is None ==> after.pending_write == before.pending_write,
        after.saw_error <==> before.saw_error || exists|i: int|
            0 <= i < completions.len() && (#[trigger] completions[i]).result is Err,
        after.saw_error ==> dispatch is None,
        !after.saw_error && completions.len() > 0 ==> after.pending_write is None,
{
}

} // verus!

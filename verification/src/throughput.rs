//! Measuring a download: the bytes of all runners, and the progress they add up to.
use crate::manager::RunnerManager;
use crate::ratio::Ratio;
use crate::task::Progress;
use crate::{chunk_state, planner, planner_laws, range_set, RunnerId};
use std::collections::HashMap;
use std::ops::Range;
use vstd::prelude::*;

verus! {

broadcast use vstd::std_specs::hash::group_hash_axioms;

/// The bytes of all runners.
pub open spec fn metered_total(meters: Map<RunnerId, usize>) -> int
    decreases meters.dom().len(),
    when meters.dom().finite()
{
    if meters.dom().len() == 0 {
        0
    } else {
        let id = meters.dom().choose();
        meters[id] + metered_total(meters.remove(id))
    }
}

/// The total is that of any one runner and the others.
proof fn total_splits(meters: Map<RunnerId, usize>, id: RunnerId)
    requires
        meters.dom().finite(),
        meters.contains_key(id),
    ensures
        metered_total(meters) == meters[id] + metered_total(meters.remove(id)),
    decreases meters.dom().len(),
{
    let chosen = meters.dom().choose();
    if chosen != id {
        total_splits(meters.remove(chosen), id);
        total_splits(meters.remove(id), chosen);
        assert(meters.remove(chosen).remove(id) =~= meters.remove(id).remove(chosen));
    }
}

/// Where all meters read zero, so does the total.
proof fn zeros_total(meters: Map<RunnerId, usize>)
    requires
        meters.dom().finite(),
        forall|id: RunnerId| #[trigger] meters.contains_key(id) ==> meters[id] == 0,
    ensures
        metered_total(meters) == 0,
    decreases meters.dom().len(),
{
    if meters.dom().len() > 0 {
        let id = meters.dom().choose();
        assert(meters.contains_key(id));
        zeros_total(meters.remove(id));
    }
}

/// The total is not negative.
proof fn total_is_natural(meters: Map<RunnerId, usize>)
    requires
        meters.dom().finite(),
    ensures
        metered_total(meters) >= 0,
    decreases meters.dom().len(),
{
    if meters.dom().len() > 0 {
        total_is_natural(meters.remove(meters.dom().choose()));
    }
}

/// The runners that are metered, in some order.
fn metered_runners(meters: &HashMap<RunnerId, usize>) -> (runners: Vec<RunnerId>)
    ensures
        runners@.to_set() == meters@.dom(),
{
    let mut runners: Vec<RunnerId> = Vec::new();
    let ghost all = vstd::std_specs::iter::IteratorSpec::remaining(&meters.keys()).unref();
    for id in keys: meters.keys()
        invariant
            keys.seq().unref() == all,
            runners@ == all.take(keys.index() as int),
    {
        runners.push(*id);
        assert(runners@ =~= all.take(keys.index() as int + 1));
    }
    assert(all.take(all.len() as int) =~= all);
    runners
}

/// Reads all meters and sets them to zero. Returns the bytes of all runners.
pub fn drain_meters(meters: &mut HashMap<RunnerId, usize>) -> (total: usize)
    requires
        metered_total(old(meters)@) <= usize::MAX,
    ensures
        total == metered_total(old(meters)@),
        final(meters)@.dom() == old(meters)@.dom(),
        forall|id: RunnerId| #[trigger]
            final(meters)@.contains_key(id) ==> final(meters)@[id] == 0,
{
    let runners = metered_runners(meters);
    let mut total: usize = 0;
    let mut i: usize = 0;
    while i < runners.len()
        invariant
            i <= runners@.len(),
            runners@.to_set() == old(meters)@.dom(),
            meters@.dom() == old(meters)@.dom(),
            meters@.dom().finite(),
            metered_total(old(meters)@) <= usize::MAX,
            total + metered_total(meters@) == metered_total(old(meters)@),
            forall|j: int| 0 <= j < i ==> meters@[#[trigger] runners@[j]] == 0,
        decreases runners@.len() - i,
    {
        let id: RunnerId = runners[i];
        assert(runners@.to_set().contains(id));
        let ghost before = meters@;
        let seen: usize = match meters.get(&id) {
            Some(seen) => *seen,
            None => 0,
        };
        proof {
            total_splits(before, id);
            total_is_natural(before.remove(id));
        }
        total = total + seen;
        meters.insert(id, 0);
        proof {
            assert(meters@.dom() =~= before.dom());
            total_splits(meters@, id);
            assert(meters@.remove(id) =~= before.remove(id));
        }
        i = i + 1;
    }
    proof {
        assert forall|id: RunnerId| #[trigger] meters@.contains_key(id) implies meters@[id]
            == 0 by {
            assert(runners@.to_set().contains(id));
            let j = choose|j: int| 0 <= j < runners@.len() && runners@[j] == id;
            assert(meters@[runners@[j]] == 0);
        }
        zeros_total(meters@);
    }
    total
}

/// The speed of a runner on average, in bytes per second.
pub open spec fn average_speed(speed: u64, runners: usize) -> Ratio {
    if runners == 0 {
        Ratio { numerator: 0, denominator: 1 }
    } else {
        Ratio { numerator: speed, denominator: runners as u64 }
    }
}

/// The speed of a runner on average, in bytes per second.
pub fn per_runner_speed(speed: u64, runners: usize) -> (average: Ratio)
    ensures
        average == average_speed(speed, runners),
{
    if runners == 0 {
        Ratio::new(0, 1)
    } else {
        Ratio::new(speed, runners as u64)
    }
}

/// The bytes of some ranges.
pub open spec fn total_len(ranges: Seq<Range<u64>>) -> int
    decreases ranges.len(),
{
    if ranges.len() == 0 {
        0
    } else {
        total_len(ranges.drop_last()) + range_set::range_len(ranges.last())
    }
}

/// The offsets that some ranges cover.
pub open spec fn covered_set(ranges: Seq<Range<u64>>) -> Set<int> {
    Set::new(|x: int| range_set::covered(ranges, x))
}

/// Separated ranges together have as many bytes as they cover offsets, all of them
/// before the end of the last.
pub proof fn separated_ranges_add_up(ranges: Seq<Range<u64>>)
    requires
        range_set::separated(ranges),
    ensures
        covered_set(ranges).finite(),
        covered_set(ranges).len() == total_len(ranges),
        0 <= total_len(ranges),
        ranges.len() > 0 ==> total_len(ranges) <= ranges.last().end,
        forall|x: int| #[trigger]
            range_set::covered(ranges, x) ==> 0 <= x < ranges.last().end,
    decreases ranges.len(),
{
    if ranges.len() == 0 {
        assert(covered_set(ranges) =~= Set::<int>::empty());
    } else {
        let rest = ranges.drop_last();
        let last = ranges.last();
        assert forall|i: int| 0 <= i < rest.len() implies (#[trigger] rest[i]).start
            < rest[i].end by {
            assert(ranges[i].start < ranges[i].end);
        }
        assert forall|i: int, j: int| 0 <= i < j < rest.len() implies (#[trigger] rest[i]).end < (
        #[trigger] rest[j]).start by {
            assert(ranges[i].end < ranges[j].start);
        }
        separated_ranges_add_up(rest);
        assert(last == ranges[ranges.len() - 1]);
        let own = vstd::set_lib::set_int_range(last.start as int, last.end as int);
        vstd::set_lib::lemma_int_range(last.start as int, last.end as int);
        if rest.len() > 0 {
            assert(ranges[rest.len() - 1].end < last.start);
            assert(rest.last() == ranges[rest.len() - 1]);
        }
        assert forall|x: int| range_set::covered(ranges, x) <==> #[trigger] (own + covered_set(
            rest,
        )).contains(x) by {
            if range_set::covered(ranges, x) {
                let i = choose|i: int|
                    0 <= i < ranges.len() && range_set::in_range(#[trigger] ranges[i], x);
                if i < rest.len() {
                    assert(range_set::in_range(rest[i], x));
                }
            }
            if range_set::covered(rest, x) {
                let i = choose|i: int|
                    0 <= i < rest.len() && range_set::in_range(#[trigger] rest[i], x);
                assert(range_set::in_range(ranges[i], x));
            }
            if own.contains(x) {
                assert(range_set::in_range(ranges[ranges.len() - 1], x));
            }
        }
        assert(covered_set(ranges) =~= own + covered_set(rest));
        assert(own.disjoint(covered_set(rest))) by {
            assert forall|x: int| !(own.contains(x) && #[trigger] covered_set(rest).contains(x)) by {
                if covered_set(rest).contains(x) {
                    assert(range_set::covered(rest, x));
                }
            }
        }
        vstd::set_lib::lemma_set_disjoint_lens(own, covered_set(rest));
        assert forall|x: int| #[trigger] range_set::covered(ranges, x) implies 0 <= x
            < last.end by {
            assert((own + covered_set(rest)).contains(x));
            if covered_set(rest).contains(x) {
                assert(range_set::covered(rest, x));
            }
        }
    }
}

/// Law: the two measures of progress agree. Of a consistent plan the listed ranges of
/// downloaded bytes are as long as the chunks' progress together.
pub proof fn measures_of_progress_agree(
    plan: planner::ChunkPlanner,
    ranges: Seq<Range<u64>>,
)
    requires
        plan.consistent(),
        plan.lists_fetched(ranges),
    ensures
        total_len(ranges) == chunk_state::total_progress(plan.chunk_map()),
        total_len(ranges) <= plan.total,
{
    separated_ranges_add_up(ranges);
    planner_laws::every_fetched_byte_counts_once(plan.total, plan.chunk_map(), plan.runner_map());
    assert(covered_set(ranges) =~= planner_laws::fetched_set(plan.chunk_map())) by {
        assert forall|x: int|
            covered_set(ranges).contains(x) <==> planner_laws::fetched_set(
                plan.chunk_map(),
            ).contains(x) by {
            assert(range_set::covered(ranges, x) <==> planner::fetched(plan.chunk_map(), x));
        }
    }
}

/// The bytes of separated ranges.
fn sum_of_ranges(ranges: &Vec<Range<u64>>) -> (bytes: u64)
    requires
        range_set::separated(ranges@),
    ensures
        bytes == total_len(ranges@),
{
    let mut bytes: u64 = 0;
    let mut i: usize = 0;
    while i < ranges.len()
        invariant
            i <= ranges@.len(),
            range_set::separated(ranges@),
            bytes == total_len(ranges@.take(i as int)),
            i == 0 ==> bytes == 0,
            i > 0 ==> bytes <= ranges@[i - 1].end,
        decreases ranges@.len() - i,
    {
        proof {
            assert(ranges@.take(i + 1).drop_last() =~= ranges@.take(i as int));
            assert(ranges@[i as int].start < ranges@[i as int].end);
            if i > 0 {
                assert(ranges@[i - 1].end < ranges@[i as int].start);
            }
        }
        bytes = bytes + (ranges[i].end - ranges[i].start);
        i = i + 1;
    }
    assert(ranges@.take(i as int) =~= ranges@);
    bytes
}

/// The progress that a manager reports: the downloaded ranges, and their bytes.
pub fn current_progress<K>(manager: &RunnerManager<K>) -> (progress: Progress)
    requires
        manager.wf(),
    ensures
        progress.total == Some(manager.chunk_planner.total),
        manager.chunk_planner.lists_fetched(progress.downloaded_chunks@),
        progress.downloaded == total_len(progress.downloaded_chunks@),
{
    let downloaded_chunks = manager.get_downloaded_ranges();
    let downloaded = sum_of_ranges(&downloaded_chunks);
    Progress { total: Some(manager.total()), downloaded, downloaded_chunks }
}

/// Law: the bytes of all runners are those of any one of them and of the others; of none
/// they are zero.
pub proof fn all_runners_are_metered(meters: Map<RunnerId, usize>, id: RunnerId)
    requires
        meters.dom().finite(),
    ensures
        meters.contains_key(id) ==> metered_total(meters) == meters[id] + metered_total(
            meters.remove(id),
        ),
        meters.dom() == Set::<RunnerId>::empty() ==> metered_total(meters) == 0,
        (forall|other: RunnerId| #[trigger] meters.contains_key(other) ==> meters[other] == 0)
            ==> metered_total(meters) == 0,
{
    if meters.contains_key(id) {
        total_splits(meters, id);
    }
    if forall|other: RunnerId| #[trigger] meters.contains_key(other) ==> meters[other] == 0 {
        zeros_total(meters);
    }
}

/// Law: the average of so many runners, taken so many times, is the speed of all.
pub proof fn averages_add_up(speed: u64, runners: usize)
    ensures
        ({
            let average = average_speed(speed, runners);
            &&& average.denominator > 0
            &&& runners > 0 ==> average.numerator * runners == speed * average.denominator
            &&& runners == 0 ==> average.numerator == 0
        }),
{
    assert(speed * runners == speed * (runners as u64)) by (nonlinear_arith);
}

} // verus!

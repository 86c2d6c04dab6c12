//! What the planner hands out and finds, offset by offset.
use crate::chunk_state::{ChunkState, ChunkStatus};
use crate::planner::ChunkPlanner;
use crate::{planner, range_set, RunnerId};
use std::ops::Range;
use vstd::prelude::*;

verus! {

/// The offset belongs to the content and lies in no chunk.
pub open spec fn is_free(plan: ChunkPlanner, x: int) -> bool {
    &&& 0 <= x < plan.total
    &&& forall|key: Range<u64>| #[trigger]
        plan.chunk_map().contains_key(key) ==> !(key.start <= x < key.end)
}

/// A chunk holds the offset as downloaded.
pub open spec fn is_held(plan: ChunkPlanner, x: int) -> bool {
    exists|key: Range<u64>| #[trigger]
        plan.chunk_map().contains_key(key) && plan.chunk_map()[key].downloaded.start <= x
            < plan.chunk_map()[key].downloaded.end
}

/// Law: what is free is what the planner calls available.
pub proof fn free_means_available(plan: ChunkPlanner, x: int)
    ensures
        is_free(plan, x) <==> plan.available(x),
{
    if plan.available(x) {
        assert forall|key: Range<u64>| #[trigger] plan.chunk_map().contains_key(key) implies !(
        key.start <= x < key.end) by {
            if key.start <= x < key.end {
                assert(range_set::in_range(key, x));
            }
        }
    }
    if is_free(plan, x) && planner::planned(plan.chunk_map(), x) {
        let key = choose|key: Range<u64>| #[trigger]
            plan.chunk_map().contains_key(key) && range_set::in_range(key, x);
        assert(key.start <= x < key.end);
    }
}

/// Law: what is held is what the planner lists as downloaded.
pub proof fn held_means_fetched(plan: ChunkPlanner, x: int)
    ensures
        is_held(plan, x) <==> planner::fetched(plan.chunk_map(), x),
{
    if planner::fetched(plan.chunk_map(), x) {
        let key = choose|key: Range<u64>| #[trigger]
            plan.chunk_map().contains_key(key) && range_set::in_range(
                plan.chunk_map()[key].downloaded,
                x,
            );
        assert(plan.chunk_map().contains_key(key));
    }
    if is_held(plan, x) {
        let key = choose|key: Range<u64>| #[trigger]
            plan.chunk_map().contains_key(key) && plan.chunk_map()[key].downloaded.start <= x
                < plan.chunk_map()[key].downloaded.end;
        assert(range_set::in_range(plan.chunk_map()[key].downloaded, x));
    }
}

/// All offsets of a stretch are free.
pub open spec fn is_free_stretch(plan: ChunkPlanner, start: int, end: int) -> bool {
    forall|x: int| start <= x < end ==> #[trigger] is_free(plan, x)
}

/// A stretch of free offsets lies within one of the ranges that are listed.
proof fn stretch_lies_in_a_range(
    plan: ChunkPlanner,
    ranges: Seq<Range<u64>>,
    start: int,
    end: int,
) -> (i: int)
    requires
        plan.lists_available(ranges),
        is_free_stretch(plan, start, end),
        start < end,
    ensures
        0 <= i < ranges.len(),
        ranges[i].start <= start,
        end <= ranges[i].end,
{
    assert(is_free(plan, start));
    free_means_available(plan, start);
    assert(range_set::covered(ranges, start));
    let i = choose|i: int| 0 <= i < ranges.len() && range_set::in_range(#[trigger] ranges[i], start);
    let x = ranges[i].end as int;
    if x < end {
        assert(is_free(plan, x));
        free_means_available(plan, x);
        assert(range_set::covered(ranges, x));
        let j = choose|j: int| 0 <= j < ranges.len() && range_set::in_range(#[trigger] ranges[j], x);
        assert(ranges[i].start < ranges[i].end);
        if i < j {
            assert(ranges[i].end < ranges[j].start);
        } else if j < i {
            assert(ranges[j].end < ranges[i].start);
        }
    }
    i
}

/// The ranges that are listed are free.
proof fn listed_ranges_are_free(plan: ChunkPlanner, ranges: Seq<Range<u64>>, i: int)
    requires
        plan.lists_available(ranges),
        0 <= i < ranges.len(),
    ensures
        is_free_stretch(plan, ranges[i].start as int, ranges[i].end as int),
        ranges[i].start < ranges[i].end,
{
    assert forall|x: int| ranges[i].start <= x < ranges[i].end implies #[trigger] is_free(
        plan,
        x,
    ) by {
        assert(range_set::in_range(ranges[i], x));
        assert(range_set::covered(ranges, x));
        free_means_available(plan, x);
    }
}

/// Where the first range that is long enough stands.
proof fn first_fit_stands_somewhere(ranges: Seq<Range<u64>>, length: u64)
    requires
        forall|i: int| 0 <= i < ranges.len() ==> (#[trigger] ranges[i]).start < ranges[i].end,
    ensures
        match planner::first_fit(ranges, length) {
            Some(fit) => exists|i: int|
                {
                    &&& 0 <= i < ranges.len()
                    &&& (#[trigger] ranges[i]).start == fit.start
                    &&& ranges[i].end - ranges[i].start >= length
                    &&& fit.end == fit.start + length
                    &&& forall|j: int|
                        0 <= j < i ==> (#[trigger] ranges[j]).end - ranges[j].start < length
                },
            None => forall|j: int|
                0 <= j < ranges.len() ==> (#[trigger] ranges[j]).end - ranges[j].start < length,
        },
    decreases ranges.len(),
{
    if ranges.len() > 0 {
        let rest = ranges.drop_first();
        assert(forall|j: int| 0 <= j < rest.len() ==> #[trigger] rest[j] == ranges[j + 1]);
        if ranges[0].end - ranges[0].start >= length {
            assert(ranges[0].start == planner::first_fit(ranges, length)->0.start);
        } else {
            first_fit_stands_somewhere(rest, length);
            if let Some(fit) = planner::first_fit(rest, length) {
                let i = choose|i: int|
                    {
                        &&& 0 <= i < rest.len()
                        &&& (#[trigger] rest[i]).start == fit.start
                        &&& rest[i].end - rest[i].start >= length
                        &&& fit.end == fit.start + length
                        &&& forall|j: int|
                            0 <= j < i ==> (#[trigger] rest[j]).end - rest[j].start < length
                    };
                assert(ranges[i + 1].start == fit.start);
                assert forall|j: int| 0 <= j < i + 1 implies (#[trigger] ranges[j]).end
                    - ranges[j].start < length by {
                    if j > 0 {
                        assert(rest[j - 1] == ranges[j]);
                    }
                }
            } else {
                assert forall|j: int| 0 <= j < ranges.len() implies (#[trigger] ranges[j]).end
                    - ranges[j].start < length by {
                    if j > 0 {
                        assert(rest[j - 1] == ranges[j]);
                    }
                }
            }
        }
    }
}

/// Law: a range that is arranged by its length is free, has that length, and no free
/// stretch of that length starts before it. Where none is arranged, there is no such
/// stretch.
pub proof fn the_first_free_stretch_is_arranged(
    plan: ChunkPlanner,
    ranges: Seq<Range<u64>>,
    length: u64,
)
    requires
        plan.lists_available(ranges),
        length > 0,
    ensures
        match planner::first_fit(ranges, length) {
            Some(range) => {
                &&& range.end - range.start == length
                &&& is_free_stretch(plan, range.start as int, range.end as int)
                &&& forall|start: int| #[trigger]
                    is_free_stretch(plan, start, start + length) ==> range.start <= start
            },
            None => forall|start: int| !#[trigger] is_free_stretch(plan, start, start + length),
        },
{
    first_fit_stands_somewhere(ranges, length);
    assert forall|start: int| #[trigger] is_free_stretch(plan, start, start + length) implies (
    planner::first_fit(ranges, length) matches Some(range) && range.start <= start) by {
        let at = stretch_lies_in_a_range(plan, ranges, start, start + length);
        assert(ranges[at].end - ranges[at].start >= length);
        let fit = planner::first_fit(ranges, length)->0;
        let i = choose|i: int|
            {
                &&& 0 <= i < ranges.len()
                &&& (#[trigger] ranges[i]).start == fit.start
                &&& ranges[i].end - ranges[i].start >= length
                &&& fit.end == fit.start + length
                &&& forall|j: int|
                    0 <= j < i ==> (#[trigger] ranges[j]).end - ranges[j].start < length
            };
        if i < at {
            assert(ranges[i].start < ranges[i].end);
            assert(ranges[i].end < ranges[at].start);
        }
    }
    if let Some(fit) = planner::first_fit(ranges, length) {
        let i = choose|i: int|
            0 <= i < ranges.len() && (#[trigger] ranges[i]).start == fit.start && ranges[i].end
                - ranges[i].start >= length;
        listed_ranges_are_free(plan, ranges, i);
        assert forall|x: int| fit.start <= x < fit.end implies #[trigger] is_free(plan, x) by {
            assert(ranges[i].start <= x < ranges[i].end);
        }
    }
}

/// Law: where something is free, what is found to work on is free: a stretch of the size
/// that is asked for, and the first one, or else the longest there is, and the last one.
pub proof fn free_stretches_are_found_first(
    plan: ChunkPlanner,
    required_size: u64,
    found: Option<(Option<RunnerId>, Range<u64>)>,
    x: int,
)
    requires
        plan.found_to_split(required_size, found),
        required_size > 0,
        is_free(plan, x),
    ensures
        ({
            &&& found matches Some((None, range)) && {
                let length = range.end - range.start;
                &&& range.start < range.end
                &&& is_free_stretch(plan, range.start as int, range.end as int)
                &&& length <= required_size
                &&& length == required_size ==> forall|start: int| #[trigger]
                    is_free_stretch(plan, start, start + required_size) ==> range.start <= start
                &&& length < required_size ==> forall|start: int, end: int| #[trigger]
                    is_free_stretch(plan, start, end) ==> end - start <= length
                &&& length < required_size ==> forall|start: int| #[trigger]
                    is_free_stretch(plan, start, start + length) ==> start <= range.start
            }
        }),
{
    free_means_available(plan, x);
    assert(plan.available(x));
    let range = (found->0).1;
    let ranges = choose|ranges: Seq<Range<u64>>| #[trigger]
        plan.lists_available(ranges) && planner::is_best_available(ranges, required_size, range);
    first_fit_stands_somewhere(ranges, required_size);
    the_first_free_stretch_is_arranged(plan, ranges, required_size);
    if planner::first_fit(ranges, required_size) is None {
        let i = choose|i: int|
            {
                &&& 0 <= i < ranges.len()
                &&& #[trigger] ranges[i] == range
                &&& forall|j: int|
                    0 <= j < ranges.len() ==> range_set::range_len(#[trigger] ranges[j])
                        <= range_set::range_len(range)
                &&& forall|j: int|
                    i < j < ranges.len() ==> range_set::range_len(#[trigger] ranges[j])
                        < range_set::range_len(range)
            };
        listed_ranges_are_free(plan, ranges, i);
        assert forall|start: int| #[trigger]
            is_free_stretch(plan, start, start + (range.end - range.start)) implies start
            <= range.start by {
            let at = stretch_lies_in_a_range(plan, ranges, start, start + (range.end - range.start));
            assert(range_set::range_len(ranges[at]) <= range_set::range_len(range));
            if at < i {
                assert(ranges[at].end < ranges[i].start);
            }
        }
        assert forall|start: int, end: int| #[trigger]
            is_free_stretch(plan, start, end) implies end - start <= range.end - range.start by {
            if start < end {
                let at = stretch_lies_in_a_range(plan, ranges, start, end);
                assert(range_set::range_len(ranges[at]) <= range_set::range_len(range));
            }
        }
    }
}

/// A running chunk of a runner, with at least the minimal size still to come.
pub open spec fn has_much_left(plan: ChunkPlanner, key: Range<u64>) -> bool {
    let chunk = plan.chunk_map()[key];
    &&& plan.chunk_map().contains_key(key)
    &&& chunk.status == ChunkStatus::Running
    &&& chunk.runner_id is Some
    &&& chunk.allocated.end - chunk.downloaded.end >= plan.min_chunk_size
}

/// Law: where nothing is free, the running chunk is found that has the most bytes still to
/// come, and of it the part right behind what has been downloaded. None is found only
/// where no running chunk has as much as the minimal size to come.
pub proof fn the_most_work_left_is_found(
    plan: ChunkPlanner,
    required_size: u64,
    found: Option<(Option<RunnerId>, Range<u64>)>,
)
    requires
        plan.wf(),
        plan.split_fits(required_size),
        plan.found_to_split(required_size, found),
        forall|x: int| !#[trigger] is_free(plan, x),
    ensures
        match found {
            Some((runner_id, range)) => {
                &&& runner_id is Some
                &&& exists|key: Range<u64>| #[trigger]
                    has_much_left(plan, key) && {
                        let chunk = plan.chunk_map()[key];
                        &&& chunk.runner_id == runner_id
                        &&& range.start == chunk.downloaded.end
                        &&& range.end == chunk.downloaded.end + required_size
                        &&& forall|other: Range<u64>| #[trigger]
                            has_much_left(plan, other) ==> plan.chunk_map()[other].allocated.end
                                - plan.chunk_map()[other].downloaded.end <= chunk.allocated.end
                                - chunk.downloaded.end
                    }
            },
            None => forall|key: Range<u64>| !#[trigger] has_much_left(plan, key),
        },
{
    assert forall|x: int| !#[trigger] plan.available(x) by {
        free_means_available(plan, x);
        assert(!is_free(plan, x));
    }
    if let Some((runner_id, range)) = found {
        let key = choose|key: Range<u64>| #[trigger]
            plan.chunk_map().contains_key(key) && plan.is_most_left(key) && (runner_id, range) == (
                plan.chunk_map()[key].runner_id,
                Range {
                    start: plan.chunk_map()[key].downloaded.end,
                    end: (plan.chunk_map()[key].downloaded.end + required_size) as u64,
                },
            );
        assert(has_much_left(plan, key));
        assert forall|other: Range<u64>| #[trigger] has_much_left(plan, other) implies
            plan.chunk_map()[other].allocated.end - plan.chunk_map()[other].downloaded.end
            <= plan.chunk_map()[key].allocated.end - plan.chunk_map()[key].downloaded.end by {
            assert(plan.chunk_map().contains_key(other));
        }
    } else {
        assert forall|key: Range<u64>| !#[trigger] has_much_left(plan, key) by {
            if plan.chunk_map().contains_key(key) {
                assert(!plan.divisible(plan.chunk_map()[key]));
            }
        }
    }
}

/// Law: a range is handed out exactly where it holds bytes of the content, all of them
/// free, and the number of chunks is below its limit. Then exactly these bytes are no
/// longer free, nothing of them is downloaded, and they belong to the runner. Otherwise
/// nothing changes.
pub proof fn free_ranges_are_handed_out(
    before: ChunkPlanner,
    after: ChunkPlanner,
    range: Range<u64>,
    runner_id: Option<RunnerId>,
    done: bool,
)
    requires
        after.took(&before, range, runner_id, done),
    ensures
        done <==> {
            &&& range.start < range.end <= before.total
            &&& is_free_stretch(before, range.start as int, range.end as int)
            &&& before.max_chunk_count is None || before.chunk_map().dom().len()
                < before.max_chunk_count->0
        },
        !done ==> after == before,
        done ==> {
            &&& forall|x: int| #[trigger]
                is_free(after, x) <==> is_free(before, x) && !(range.start <= x < range.end)
            &&& after.chunk_map().contains_key(range)
            &&& after.chunk_map()[range].runner_id == runner_id
            &&& after.chunk_map()[range].downloaded.end == range.start
            &&& after.chunk_map()[range].status != ChunkStatus::Finished
            &&& runner_id matches Some(id) ==> after.runner_map().contains_key(id)
                && after.runner_map()[id] == range
            &&& forall|key: Range<u64>| #[trigger]
                before.chunk_map().contains_key(key) && key != range ==> after.chunk_map()[key]
                    == before.chunk_map()[key]
        },
{
    if range.start < range.end <= before.total {
        if is_free_stretch(before, range.start as int, range.end as int) {
            assert forall|key: Range<u64>| #[trigger]
                before.chunk_map().contains_key(key) implies !range_set::ranges_overlap(
                key,
                range,
            ) by {
                if range_set::ranges_overlap(key, range) {
                    let x = choose|x: int| #[trigger]
                        range_set::in_range(key, x) && range_set::in_range(range, x);
                    assert(is_free(before, x));
                }
            }
        }
        if done {
            assert forall|x: int| range.start <= x < range.end implies #[trigger] is_free(
                before,
                x,
            ) by {
                assert forall|key: Range<u64>| #[trigger]
                    before.chunk_map().contains_key(key) implies !(key.start <= x < key.end) by {
                    if key.start <= x < key.end {
                        assert(range_set::in_range(key, x) && range_set::in_range(range, x));
                        assert(range_set::ranges_overlap(key, range));
                    }
                }
            }
        }
    }
    if done {
        assert forall|x: int| #[trigger] is_free(after, x) <==> is_free(before, x) && !(range.start
            <= x < range.end) by {
            assert(after.chunk_map().contains_key(range));
            assert forall|key: Range<u64>| #[trigger]
                before.chunk_map().contains_key(key) implies after.chunk_map().contains_key(
                key,
            ) by {}
            if is_free(before, x) && !(range.start <= x < range.end) {
                assert forall|key: Range<u64>| #[trigger]
                    after.chunk_map().contains_key(key) implies !(key.start <= x < key.end) by {
                    if key != range {
                        assert(before.chunk_map().contains_key(key));
                    }
                }
            }
            if is_free(after, x) {
                assert forall|key: Range<u64>| #[trigger]
                    before.chunk_map().contains_key(key) implies !(key.start <= x < key.end) by {
                    assert(after.chunk_map().contains_key(key));
                }
            }
        }
    }
}

/// Law: a plan is complete exactly where it holds a chunk, all of its chunks are finished,
/// and no byte of the content is free.
pub proof fn complete_plans_have_nothing_left(plan: ChunkPlanner)
    ensures
        plan.completed() <==> {
            &&& plan.chunk_map().dom() != Set::<Range<u64>>::empty()
            &&& forall|key: Range<u64>| #[trigger]
                plan.chunk_map().contains_key(key) ==> plan.chunk_map()[key].status
                    == ChunkStatus::Finished
            &&& forall|x: int| !#[trigger] is_free(plan, x)
        },
{
    assert forall|x: int| #[trigger] is_free(plan, x) <==> plan.available(x) by {
        free_means_available(plan, x);
    }
    if exists|x: int| #[trigger] plan.available(x) {
        let x = choose|x: int| #[trigger] plan.available(x);
        assert(is_free(plan, x));
    }
    if exists|key: Range<u64>| plan.chunk_map().contains_key(key) {
        let key = choose|key: Range<u64>| plan.chunk_map().contains_key(key);
        assert(plan.chunk_map().dom().contains(key));
    } else {
        assert(plan.chunk_map().dom() =~= Set::<Range<u64>>::empty());
    }
}

/// Law: what is listed as unfinished is the work of the chunks that are not finished and
/// have twice the minimal size left, and as much as is asked for: each of them with its
/// runner and the bytes that it has not downloaded, and no other.
pub proof fn unfinished_work_is_listed(plan: ChunkPlanner, min_chunk_size: Option<u64>)
    requires
        plan.wf(),
        plan.can_list_incomplete(min_chunk_size),
    ensures
        forall|runner_id: RunnerId, range: Range<u64>| #[trigger]
            plan.incomplete(min_chunk_size).contains((runner_id, range)) <==> exists|
                key: Range<u64>,
            | #[trigger]
                plan.chunk_map().contains_key(key) && {
                    let chunk = plan.chunk_map()[key];
                    &&& chunk.status != ChunkStatus::Finished
                    &&& chunk.runner_id == Some(runner_id)
                    &&& range.start == chunk.downloaded.end
                    &&& range.end == chunk.allocated.end
                    &&& range.start < range.end
                    &&& range.end - range.start >= 2 * plan.min_chunk_size
                    &&& min_chunk_size matches Some(min) ==> range.end - range.start >= min
                },
{
    let keep = |entry: (Range<u64>, ChunkState)| plan.splittable(entry.1, min_chunk_size);
    let part = |entry: (Range<u64>, ChunkState)| planner::unfinished_part(entry.1);
    let listing = plan.listing();
    let kept = listing.filter(keep);
    let states = plan.incomplete(min_chunk_size);
    crate::chunk_state::entries_in_map(listing);
    crate::concurrent::selected_once(listing, keep);
    assert(states =~= kept.map_values(part));
    assert forall|runner_id: RunnerId, range: Range<u64>|
        #[trigger] states.contains((runner_id, range)) implies exists|key: Range<u64>| #[trigger]
        plan.chunk_map().contains_key(key) && {
            let chunk = plan.chunk_map()[key];
            &&& chunk.status != ChunkStatus::Finished
            &&& chunk.runner_id == Some(runner_id)
            &&& range.start == chunk.downloaded.end
            &&& range.end == chunk.allocated.end
            &&& range.start < range.end
            &&& range.end - range.start >= 2 * plan.min_chunk_size
            &&& min_chunk_size matches Some(min) ==> range.end - range.start >= min
        } by {
        let i = choose|i: int| 0 <= i < states.len() && states[i] == (runner_id, range);
        assert(kept.contains(kept[i]));
        let key = kept[i].0;
        assert(plan.chunk_map().contains_key(key) && plan.chunk_map()[key] == kept[i].1);
        assert(plan.can_list_chunk(plan.chunk_map()[key], min_chunk_size));
        assert(states[i] == planner::unfinished_part(kept[i].1));
    }
    assert forall|runner_id: RunnerId, range: Range<u64>| (exists|key: Range<u64>| #[trigger]
        plan.chunk_map().contains_key(key) && {
            let chunk = plan.chunk_map()[key];
            &&& chunk.status != ChunkStatus::Finished
            &&& chunk.runner_id == Some(runner_id)
            &&& range.start == chunk.downloaded.end
            &&& range.end == chunk.allocated.end
            &&& range.start < range.end
            &&& range.end - range.start >= 2 * plan.min_chunk_size
            &&& min_chunk_size matches Some(min) ==> range.end - range.start >= min
        }) implies #[trigger] states.contains((runner_id, range)) by {
        let key = choose|key: Range<u64>| #[trigger]
            plan.chunk_map().contains_key(key) && {
                let chunk = plan.chunk_map()[key];
                &&& chunk.status != ChunkStatus::Finished
                &&& chunk.runner_id == Some(runner_id)
                &&& range.start == chunk.downloaded.end
                &&& range.end == chunk.allocated.end
                &&& range.start < range.end
                &&& range.end - range.start >= 2 * plan.min_chunk_size
                &&& min_chunk_size matches Some(min) ==> range.end - range.start >= min
            };
        assert(crate::chunk_state::has_key(listing, key));
        let k = choose|k: int| 0 <= k < listing.len() && (#[trigger] listing[k]).0 == key;
        assert(keep(listing[k]));
        listing.lemma_filter_contains(keep, k);
        let i = choose|i: int| 0 <= i < kept.len() && kept[i] == listing[k];
        assert(states[i] == (runner_id, range));
    }
}

} // verus!

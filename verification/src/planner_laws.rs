//! What holds of every plan: chunks do not overlap, bytes are not lost, and a
//! complete plan covers the content.
use crate::chunk_state::{ChunkState, ChunkStatus};
use crate::planner::ChunkPlanner;
use crate::{chunk_state, planner, range_set, RunnerId};
use std::ops::Range;
use vstd::prelude::*;

verus! {

/// The chunks are non-empty parts of the content that do not overlap, and each
/// runner's chunk exists and names the runner.
pub open spec fn consistent_plan(
    total: u64,
    chunks: Map<Range<u64>, ChunkState>,
    runners: Map<RunnerId, Range<u64>>,
) -> bool {
    &&& chunks.dom().finite()
    &&& planner::all_synced(chunks)
    &&& forall|key: Range<u64>| #[trigger]
        chunks.contains_key(key) ==> key.start < key.end && key.end <= total
    &&& forall|a: Range<u64>, b: Range<u64>|
        #![trigger chunks.contains_key(a), chunks.contains_key(b)]
        chunks.contains_key(a) && chunks.contains_key(b) && a != b
            ==> !range_set::ranges_overlap(a, b)
    &&& forall|id: RunnerId| #[trigger]
        runners.contains_key(id) ==> chunks.contains_key(runners[id])
            && chunks[runners[id]].runner_id == Some(id)
}

/// A chunk that overlaps none of the others may be added.
pub proof fn adding_keeps_consistent(
    total: u64,
    chunks: Map<Range<u64>, ChunkState>,
    runners: Map<RunnerId, Range<u64>>,
    state: ChunkState,
)
    requires
        consistent_plan(total, chunks, runners),
        state.valid(),
        state.allocated.start < state.allocated.end <= total,
        forall|key: Range<u64>| #[trigger]
            chunks.contains_key(key) ==> !range_set::ranges_overlap(key, state.allocated),
    ensures
        !chunks.contains_key(state.allocated),
        consistent_plan(total, chunks.insert(state.allocated, state), runners),
        state.runner_id matches Some(id) ==> consistent_plan(
            total,
            chunks.insert(state.allocated, state),
            runners.insert(id, state.allocated),
        ),
{
    let key = state.allocated;
    let after = chunks.insert(key, state);
    assert(range_set::in_range(key, key.start as int));
    assert forall|a: Range<u64>, b: Range<u64>|
        #![trigger after.contains_key(a), after.contains_key(b)]
        after.contains_key(a) && after.contains_key(b) && a != b implies
        !range_set::ranges_overlap(a, b) by {
        if a == key {
            range_set::overlap_by_ends(a, b);
            range_set::overlap_by_ends(b, a);
            assert(!range_set::ranges_overlap(b, a));
        } else if b == key {
            assert(!range_set::ranges_overlap(a, b));
        }
    }
    assert(!chunks.contains_key(key));
}

/// A chunk that no runner is mapped to may be taken out.
pub proof fn removing_keeps_consistent(
    total: u64,
    chunks: Map<Range<u64>, ChunkState>,
    runners: Map<RunnerId, Range<u64>>,
    key: Range<u64>,
)
    requires
        consistent_plan(total, chunks, runners),
        forall|id: RunnerId| #[trigger] runners.contains_key(id) ==> runners[id] != key,
    ensures
        consistent_plan(total, chunks.remove(key), runners),
{
    let after = chunks.remove(key);
    assert forall|a: Range<u64>, b: Range<u64>|
        #![trigger after.contains_key(a), after.contains_key(b)]
        after.contains_key(a) && after.contains_key(b) && a != b implies
        !range_set::ranges_overlap(a, b) by {
        assert(chunks.contains_key(a) && chunks.contains_key(b));
    }
}

/// A runner may be forgotten.
pub proof fn forgetting_keeps_consistent(
    total: u64,
    chunks: Map<Range<u64>, ChunkState>,
    runners: Map<RunnerId, Range<u64>>,
    id: RunnerId,
)
    requires
        consistent_plan(total, chunks, runners),
    ensures
        consistent_plan(total, chunks, runners.remove(id)),
        runners.contains_key(id) ==> forall|other: RunnerId| #[trigger]
            runners.remove(id).contains_key(other) ==> runners[other] != runners[id],
{
    let rest = runners.remove(id);
    assert forall|other: RunnerId| #[trigger] rest.contains_key(other) && runners.contains_key(
        id,
    ) implies runners[other] != runners[id] by {
        assert(runners.contains_key(other));
    }
}

/// A part of a chunk overlaps none of the other chunks.
pub proof fn part_overlaps_no_other(
    total: u64,
    chunks: Map<Range<u64>, ChunkState>,
    runners: Map<RunnerId, Range<u64>>,
    key: Range<u64>,
    part: Range<u64>,
)
    requires
        consistent_plan(total, chunks, runners),
        chunks.contains_key(key),
        key.start <= part.start,
        part.end <= key.end,
    ensures
        forall|other: Range<u64>| #[trigger]
            chunks.remove(key).contains_key(other) ==> !range_set::ranges_overlap(other, part),
{
    assert forall|other: Range<u64>| #[trigger] chunks.remove(key).contains_key(other) implies
        !range_set::ranges_overlap(other, part) by {
        assert(chunks.contains_key(other));
        if range_set::ranges_overlap(other, part) {
            let x = choose|x: int| #[trigger]
                range_set::in_range(other, x) && range_set::in_range(part, x);
            assert(range_set::in_range(other, x) && range_set::in_range(key, x));
            assert(range_set::ranges_overlap(other, key));
        }
    }
}

/// A runner's chunk may be cut behind its downloaded part.
pub proof fn shrinking_keeps_consistent(
    total: u64,
    chunks: Map<Range<u64>, ChunkState>,
    runners: Map<RunnerId, Range<u64>>,
    id: RunnerId,
    resized: Range<u64>,
)
    requires
        consistent_plan(total, chunks, runners),
        runners.contains_key(id),
        resized.start == runners[id].start,
        resized.start < resized.end <= runners[id].end,
        chunks[runners[id]].downloaded.end <= resized.end,
    ensures
        consistent_plan(
            total,
            planner::with_end(chunks, runners[id], resized.end),
            runners.insert(id, resized),
        ),
{
    let key = runners[id];
    let state = ChunkState { allocated: resized, ..chunks[key] };
    forgetting_keeps_consistent(total, chunks, runners, id);
    removing_keeps_consistent(total, chunks, runners.remove(id), key);
    part_overlaps_no_other(total, chunks, runners, key, resized);
    adding_keeps_consistent(total, chunks.remove(key), runners.remove(id), state);
    assert(runners.remove(id).insert(id, resized) =~= runners.insert(id, resized));
}

/// A runner's chunk may be split behind its downloaded part.
pub proof fn splitting_keeps_consistent(
    total: u64,
    chunks: Map<Range<u64>, ChunkState>,
    runners: Map<RunnerId, Range<u64>>,
    id: RunnerId,
    split_pos: u64,
    new_id: RunnerId,
)
    requires
        consistent_plan(total, chunks, runners),
        runners.contains_key(id),
        chunks[runners[id]].downloaded.end < split_pos < runners[id].end,
    ensures
        consistent_plan(
            total,
            planner::with_end(chunks, runners[id], split_pos).insert(
                Range { start: split_pos, end: runners[id].end },
                chunk_state::fresh_chunk(
                    Range { start: split_pos, end: runners[id].end },
                    Some(new_id),
                    ChunkStatus::Running,
                ),
            ),
            runners.insert(id, Range { start: runners[id].start, end: split_pos }).insert(
                new_id,
                Range { start: split_pos, end: runners[id].end },
            ),
        ),
{
    let key = runners[id];
    let first = Range { start: key.start, end: split_pos };
    let second = Range { start: split_pos, end: key.end };
    shrinking_keeps_consistent(total, chunks, runners, id, first);
    let mid = chunks.remove(key).insert(first, ChunkState { allocated: first, ..chunks[key] });
    part_overlaps_no_other(total, chunks, runners, key, second);
    assert forall|other: Range<u64>| #[trigger] mid.contains_key(other) implies
        !range_set::ranges_overlap(other, second) by {
        if other == first {
            range_set::overlap_by_ends(first, second);
        } else {
            assert(chunks.remove(key).contains_key(other));
        }
    }
    adding_keeps_consistent(
        total,
        mid,
        runners.insert(id, first),
        chunk_state::fresh_chunk(second, Some(new_id), ChunkStatus::Running),
    );
}

/// The offsets that some chunk has downloaded.
pub open spec fn fetched_set(chunks: Map<Range<u64>, ChunkState>) -> Set<int> {
    Set::new(|x: int| planner::fetched(chunks, x))
}

/// Law: no byte is counted twice. Of a consistent plan the total of downloaded
/// bytes is the number of downloaded offsets, and at most the size of the content.
pub proof fn every_fetched_byte_counts_once(
    total: u64,
    chunks: Map<Range<u64>, ChunkState>,
    runners: Map<RunnerId, Range<u64>>,
)
    requires
        consistent_plan(total, chunks, runners),
    ensures
        fetched_set(chunks).finite(),
        chunk_state::total_progress(chunks) == fetched_set(chunks).len(),
        chunk_state::total_progress(chunks) <= total,
        forall|x: int| #[trigger] planner::fetched(chunks, x) ==> 0 <= x < total,
    decreases chunks.dom().len(),
{
    let all = fetched_set(chunks);
    if chunks.dom().len() == 0 {
        assert(all =~= Set::<int>::empty()) by {
            assert forall|x: int| !all.contains(x) by {
                if planner::fetched(chunks, x) {
                    let key = choose|key: Range<u64>| #[trigger]
                        chunks.contains_key(key) && range_set::in_range(chunks[key].downloaded, x);
                    assert(chunks.dom().contains(key));
                }
            }
        }
    } else {
        let key = chunks.dom().choose();
        assert(chunks.contains_key(key));
        let rest = chunks.remove(key);
        removing_keeps_consistent(
            total,
            chunks,
            Map::<RunnerId, Range<u64>>::empty(),
            key,
        );
        every_fetched_byte_counts_once(total, rest, Map::<RunnerId, Range<u64>>::empty());
        let own = vstd::set_lib::set_int_range(
            chunks[key].downloaded.start as int,
            chunks[key].downloaded.end as int,
        );
        vstd::set_lib::lemma_int_range(
            chunks[key].downloaded.start as int,
            chunks[key].downloaded.end as int,
        );
        let others = fetched_set(rest);
        assert(all =~= own + others) by {
            assert forall|x: int| all.contains(x) <==> (own + others).contains(x) by {
                if planner::fetched(chunks, x) {
                    let k = choose|k: Range<u64>| #[trigger]
                        chunks.contains_key(k) && range_set::in_range(chunks[k].downloaded, x);
                    if k != key {
                        assert(rest.contains_key(k));
                    }
                }
                if planner::fetched(rest, x) {
                    let k = choose|k: Range<u64>| #[trigger]
                        rest.contains_key(k) && range_set::in_range(rest[k].downloaded, x);
                    assert(chunks.contains_key(k));
                }
                if own.contains(x) {
                    assert(range_set::in_range(chunks[key].downloaded, x));
                }
            }
        }
        assert(own.disjoint(others)) by {
            assert forall|x: int| !(own.contains(x) && others.contains(x)) by {
                if own.contains(x) && others.contains(x) {
                    let k = choose|k: Range<u64>| #[trigger]
                        rest.contains_key(k) && range_set::in_range(rest[k].downloaded, x);
                    assert(chunks.contains_key(k));
                    assert(range_set::in_range(key, x) && range_set::in_range(k, x));
                    assert(range_set::ranges_overlap(key, k));
                }
            }
        }
        vstd::set_lib::lemma_set_disjoint_lens(own, others);
    }
    assert forall|x: int| #[trigger] planner::fetched(chunks, x) implies 0 <= x < total by {
        let k = choose|k: Range<u64>| #[trigger]
            chunks.contains_key(k) && range_set::in_range(chunks[k].downloaded, x);
        assert(chunks[k].valid());
    }
    let content = vstd::set_lib::set_int_range(0, total as int);
    vstd::set_lib::lemma_int_range(0, total as int);
    assert(all.subset_of(content));
    vstd::set_lib::lemma_len_subset(all, content);
}

/// Law: a complete plan whose chunks are fully downloaded holds every byte of the
/// content, reported as one range.
pub proof fn complete_plan_holds_the_content(plan: ChunkPlanner, ranges: Seq<Range<u64>>)
    requires
        plan.consistent(),
        plan.completed(),
        forall|key: Range<u64>| #[trigger]
            plan.chunk_map().contains_key(key) ==> plan.chunk_map()[key].left() == 0,
        range_set::separated(ranges),
        forall|x: int| #[trigger]
            range_set::covered(ranges, x) <==> planner::fetched(plan.chunk_map(), x),
    ensures
        chunk_state::total_progress(plan.chunk_map()) == plan.total,
        ranges == seq![Range { start: 0u64, end: plan.total }],
{
    let chunks = plan.chunk_map();
    every_fetched_byte_counts_once(plan.total, chunks, plan.runner_map());
    let content = vstd::set_lib::set_int_range(0, plan.total as int);
    vstd::set_lib::lemma_int_range(0, plan.total as int);
    assert forall|x: int| 0 <= x < plan.total implies planner::fetched(chunks, x) by {
        assert(!plan.available(x));
        let key = choose|key: Range<u64>| #[trigger]
            chunks.contains_key(key) && range_set::in_range(key, x);
        assert(range_set::in_range(chunks[key].downloaded, x));
    }
    assert(fetched_set(chunks) =~= content);
    let whole = seq![Range { start: 0u64, end: plan.total }];
    let key = choose|key: Range<u64>| chunks.contains_key(key);
    assert(chunks.contains_key(key));
    assert(range_set::separated(whole));
    assert forall|x: int| #[trigger] range_set::covered(ranges, x) <==> range_set::covered(
        whole,
        x,
    ) by {
        if range_set::covered(whole, x) {
            assert(range_set::in_range(whole[0], x));
        }
        if 0 <= x < plan.total {
            assert(range_set::in_range(whole[0], x));
        }
    }
    range_set::separated_ranges_are_unique(ranges, whole);
}

/// Law: progress adds exactly the bytes of the returned range, none of which had
/// been downloaded before.
pub proof fn progress_adds_the_returned_range(
    total: u64,
    chunks: Map<Range<u64>, ChunkState>,
    runners: Map<RunnerId, Range<u64>>,
    key: Range<u64>,
    bytes: u64,
)
    requires
        consistent_plan(total, chunks, runners),
        chunks.contains_key(key),
    ensures
        chunk_state::total_progress(chunks.insert(key, planner::advanced(chunks[key], bytes)))
            == chunk_state::total_progress(chunks) + range_set::range_len(
            planner::advance_range(chunks[key], bytes),
        ),
        forall|x: int| #[trigger]
            planner::fetched(chunks.insert(key, planner::advanced(chunks[key], bytes)), x)
                <==> planner::fetched(chunks, x) || range_set::in_range(
                planner::advance_range(chunks[key], bytes),
                x,
            ),
        forall|x: int| #[trigger]
            range_set::in_range(planner::advance_range(chunks[key], bytes), x)
                ==> !planner::fetched(chunks, x),
{
    let chunk = chunks[key];
    let state = planner::advanced(chunk, bytes);
    let after = chunks.insert(key, state);
    let added = planner::advance_range(chunk, bytes);
    chunk_state::total_progress_insert(chunks, key, state);
    assert forall|x: int| #[trigger] planner::fetched(after, x) <==> planner::fetched(chunks, x)
        || range_set::in_range(added, x) by {
        if planner::fetched(after, x) {
            let k = choose|k: Range<u64>| #[trigger]
                after.contains_key(k) && range_set::in_range(after[k].downloaded, x);
            assert(chunks.contains_key(k));
        }
        if planner::fetched(chunks, x) {
            let k = choose|k: Range<u64>| #[trigger]
                chunks.contains_key(k) && range_set::in_range(chunks[k].downloaded, x);
            assert(after.contains_key(k));
            assert(range_set::in_range(after[k].downloaded, x));
        }
        if range_set::in_range(added, x) {
            assert(after.contains_key(key));
            assert(range_set::in_range(after[key].downloaded, x));
        }
    }
    assert forall|x: int| #[trigger] range_set::in_range(added, x) implies !planner::fetched(
        chunks,
        x,
    ) by {
        if planner::fetched(chunks, x) {
            let k = choose|k: Range<u64>| #[trigger]
                chunks.contains_key(k) && range_set::in_range(chunks[k].downloaded, x);
            if k != key {
                assert(range_set::in_range(k, x) && range_set::in_range(key, x));
                assert(range_set::ranges_overlap(k, key));
            }
        }
    }
}

/// Law: the ranges of two updates in a row follow each other without a gap, and
/// the two updates amount to one of both sizes together.
pub proof fn progress_is_contiguous(chunk: ChunkState, first: u64, second: u64)
    requires
        chunk.valid(),
        first + second <= u64::MAX,
    ensures
        planner::advance_range(planner::advanced(chunk, first), second).start
            == planner::advance_range(chunk, first).end,
        planner::advanced(planner::advanced(chunk, first), second) == planner::advanced(
            chunk,
            (first + second) as u64,
        ),
{
}

/// Law: a failed runner frees exactly the part that it had not downloaded, and
/// loses no byte that it had.
pub proof fn failure_frees_the_unfinished_part(
    total: u64,
    chunks: Map<Range<u64>, ChunkState>,
    runners: Map<RunnerId, Range<u64>>,
    key: Range<u64>,
)
    requires
        consistent_plan(total, chunks, runners),
        chunks.contains_key(key),
    ensures
        forall|x: int| #[trigger]
            planner::planned(planner::released(chunks, chunks[key]), x) <==> planner::planned(
                chunks,
                x,
            ) && !range_set::in_range(
                Range { start: chunks[key].downloaded.end, end: key.end },
                x,
            ),
        forall|x: int| #[trigger]
            planner::fetched(planner::released(chunks, chunks[key]), x) <==> planner::fetched(
                chunks,
                x,
            ),
        chunk_state::total_progress(planner::released(chunks, chunks[key]))
            == chunk_state::total_progress(chunks),
{
    let chunk = chunks[key];
    let after = planner::released(chunks, chunk);
    let rest = chunks.remove(key);
    let kept = Range { start: key.start, end: chunk.downloaded.end };
    let gone = Range { start: chunk.downloaded.end, end: key.end };
    chunk_state::total_progress_splits(chunks, key);
    if chunk.downloaded.start != chunk.downloaded.end {
        part_overlaps_no_other(total, chunks, runners, key, kept);
        assert(!rest.contains_key(kept)) by {
            if rest.contains_key(kept) {
                assert(range_set::in_range(kept, kept.start as int));
                assert(range_set::ranges_overlap(kept, kept));
            }
        }
        chunk_state::total_progress_insert(rest, kept, after[kept]);
    }
    part_overlaps_no_other(total, chunks, runners, key, gone);
    assert forall|x: int| #[trigger] planner::planned(after, x) <==> planner::planned(chunks, x)
        && !range_set::in_range(gone, x) by {
        if planner::planned(after, x) {
            let k = choose|k: Range<u64>| #[trigger]
                after.contains_key(k) && range_set::in_range(k, x);
            if rest.contains_key(k) {
                assert(chunks.contains_key(k));
                if range_set::in_range(gone, x) {
                    assert(range_set::in_range(k, x) && range_set::in_range(gone, x));
                    assert(range_set::ranges_overlap(k, gone));
                }
            } else {
                assert(range_set::in_range(key, x));
            }
        }
        if planner::planned(chunks, x) && !range_set::in_range(gone, x) {
            let k = choose|k: Range<u64>| #[trigger]
                chunks.contains_key(k) && range_set::in_range(k, x);
            if k == key {
                assert(after.contains_key(kept));
                assert(range_set::in_range(kept, x));
            } else {
                assert(rest.contains_key(k));
                assert(after.contains_key(k));
            }
        }
    }
    assert forall|x: int| #[trigger] planner::fetched(after, x) <==> planner::fetched(chunks, x) by {
        if planner::fetched(after, x) {
            let k = choose|k: Range<u64>| #[trigger]
                after.contains_key(k) && range_set::in_range(after[k].downloaded, x);
            if k == kept && chunk.downloaded.start != chunk.downloaded.end {
                assert(range_set::in_range(chunks[key].downloaded, x));
            } else {
                assert(chunks.contains_key(k));
            }
        }
        if planner::fetched(chunks, x) {
            let k = choose|k: Range<u64>| #[trigger]
                chunks.contains_key(k) && range_set::in_range(chunks[k].downloaded, x);
            if k == key {
                assert(after.contains_key(kept));
                assert(range_set::in_range(after[kept].downloaded, x));
            } else {
                assert(rest.contains_key(k));
                assert(after.contains_key(k));
                assert(range_set::in_range(after[k].downloaded, x));
            }
        }
    }
}

/// Law: splitting a chunk changes neither what is planned nor what is downloaded.
pub proof fn splitting_moves_no_byte(
    total: u64,
    chunks: Map<Range<u64>, ChunkState>,
    runners: Map<RunnerId, Range<u64>>,
    key: Range<u64>,
    split_pos: u64,
    new_id: RunnerId,
    status: ChunkStatus,
)
    requires
        consistent_plan(total, chunks, runners),
        chunks.contains_key(key),
        chunks[key].downloaded.end < split_pos < key.end,
    ensures
        ({
            let second = Range { start: split_pos, end: key.end };
            let after = planner::with_end(chunks, key, split_pos).insert(
                second,
                chunk_state::fresh_chunk(second, Some(new_id), status),
            );
            &&& forall|x: int| #[trigger]
                planner::planned(after, x) <==> planner::planned(chunks, x)
            &&& forall|x: int| #[trigger]
                planner::fetched(after, x) <==> planner::fetched(chunks, x)
            &&& chunk_state::total_progress(after) == chunk_state::total_progress(chunks)
            &&& after.dom().len() == chunks.dom().len() + 1
        }),
{
    let first = Range { start: key.start, end: split_pos };
    let second = Range { start: split_pos, end: key.end };
    let rest = chunks.remove(key);
    let head = ChunkState { allocated: first, ..chunks[key] };
    let tail = chunk_state::fresh_chunk(second, Some(new_id), status);
    let mid = rest.insert(first, head);
    let after = mid.insert(second, tail);
    part_overlaps_no_other(total, chunks, runners, key, first);
    part_overlaps_no_other(total, chunks, runners, key, second);
    assert(!rest.contains_key(first)) by {
        if rest.contains_key(first) {
            assert(range_set::in_range(first, first.start as int));
            assert(range_set::ranges_overlap(first, first));
        }
    }
    assert(!mid.contains_key(second)) by {
        if mid.contains_key(second) {
            assert(rest.contains_key(second));
            assert(range_set::in_range(second, second.start as int));
            assert(range_set::ranges_overlap(second, second));
        }
    }
    chunk_state::total_progress_splits(chunks, key);
    chunk_state::total_progress_insert(rest, first, head);
    chunk_state::total_progress_insert(mid, second, tail);
    assert forall|x: int| #[trigger] planner::planned(after, x) <==> planner::planned(chunks, x) by {
        if planner::planned(after, x) {
            let k = choose|k: Range<u64>| #[trigger]
                after.contains_key(k) && range_set::in_range(k, x);
            if k == first || k == second {
                assert(range_set::in_range(key, x));
            } else {
                assert(chunks.contains_key(k));
            }
        }
        if planner::planned(chunks, x) {
            let k = choose|k: Range<u64>| #[trigger]
                chunks.contains_key(k) && range_set::in_range(k, x);
            if k == key {
                assert(after.contains_key(first) && after.contains_key(second));
                assert(range_set::in_range(first, x) || range_set::in_range(second, x));
            } else {
                assert(rest.contains_key(k));
                assert(after.contains_key(k));
            }
        }
    }
    assert forall|x: int| #[trigger] planner::fetched(after, x) <==> planner::fetched(chunks, x) by {
        if planner::fetched(after, x) {
            let k = choose|k: Range<u64>| #[trigger]
                after.contains_key(k) && range_set::in_range(after[k].downloaded, x);
            if k == first {
                assert(range_set::in_range(chunks[key].downloaded, x));
            } else if k != second {
                assert(chunks.contains_key(k));
            }
        }
        if planner::fetched(chunks, x) {
            let k = choose|k: Range<u64>| #[trigger]
                chunks.contains_key(k) && range_set::in_range(chunks[k].downloaded, x);
            if k == key {
                assert(after.contains_key(first));
                assert(range_set::in_range(after[first].downloaded, x));
            } else {
                assert(rest.contains_key(k));
                assert(after.contains_key(k));
                assert(range_set::in_range(after[k].downloaded, x));
            }
        }
    }
}

/// Law: what is listed as available can be allocated, as long as the number of
/// chunks is below the limit.
pub proof fn available_ranges_can_be_allocated(
    plan: ChunkPlanner,
    ranges: Seq<Range<u64>>,
    i: int,
)
    requires
        plan.wf(),
        plan.lists_available(ranges),
        0 <= i < ranges.len(),
        plan.max_chunk_count matches Some(max) ==> plan.chunk_map().dom().len() < max,
    ensures
        plan.can_allocate(ranges[i]),
{
    let range = ranges[i];
    assert forall|x: int| #[trigger] range_set::in_range(range, x) implies plan.available(x) by {
        assert(range_set::covered(ranges, x));
    }
    assert(range_set::in_range(range, range.end - 1));
    assert forall|key: Range<u64>| #[trigger] plan.chunk_map().contains_key(key) implies
        !range_set::ranges_overlap(key, range) by {
        if range_set::ranges_overlap(key, range) {
            let x = choose|x: int| #[trigger]
                range_set::in_range(key, x) && range_set::in_range(range, x);
            assert(plan.available(x));
        }
    }
}

/// Law: an empty plan has the whole content available, in one range.
pub proof fn everything_is_available_at_first(plan: ChunkPlanner, ranges: Seq<Range<u64>>)
    requires
        plan.chunk_map() == Map::<Range<u64>, ChunkState>::empty(),
        plan.lists_available(ranges),
    ensures
        plan.total > 0 ==> ranges == seq![Range { start: 0u64, end: plan.total }],
        plan.total == 0 ==> ranges.len() == 0,
{
    assert forall|x: int| 0 <= x < plan.total implies #[trigger] plan.available(x) by {}
    if plan.total > 0 {
        let whole = seq![Range { start: 0u64, end: plan.total }];
        assert(range_set::separated(whole));
        assert forall|x: int| #[trigger] range_set::covered(ranges, x) <==> range_set::covered(
            whole,
            x,
        ) by {
            if range_set::covered(whole, x) {
                assert(range_set::in_range(whole[0], x));
            }
            if plan.available(x) {
                assert(range_set::in_range(whole[0], x));
            }
        }
        range_set::separated_ranges_are_unique(ranges, whole);
    } else if ranges.len() > 0 {
        assert(range_set::in_range(ranges[0], ranges[0].start as int));
        assert(range_set::covered(ranges, ranges[0].start as int));
    }
}

/// Law: when a runner's chunk is cut, what was cut off may be allocated anew.
pub proof fn cut_off_part_overlaps_no_chunk(
    total: u64,
    chunks: Map<Range<u64>, ChunkState>,
    runners: Map<RunnerId, Range<u64>>,
    key: Range<u64>,
    cut: u64,
)
    requires
        consistent_plan(total, chunks, runners),
        chunks.contains_key(key),
        key.start < cut <= key.end,
    ensures
        forall|other: Range<u64>| #[trigger]
            planner::with_end(chunks, key, cut).contains_key(other) ==> !range_set::ranges_overlap(
                other,
                Range { start: cut, end: key.end },
            ),
{
    let kept = Range { start: key.start, end: cut };
    let gone = Range { start: cut, end: key.end };
    let after = planner::with_end(chunks, key, cut);
    part_overlaps_no_other(total, chunks, runners, key, gone);
    assert forall|other: Range<u64>| #[trigger] after.contains_key(other) implies
        !range_set::ranges_overlap(other, gone) by {
        if other == kept {
            range_set::overlap_by_ends(kept, gone);
        } else {
            assert(chunks.remove(key).contains_key(other));
        }
    }
}

} // verus!

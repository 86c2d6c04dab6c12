//! Chunk planning: which byte ranges are handed out, to which runner, and how far
//! each has come.
use crate::chunk_state::{ChunkState, ChunkStatus, ChunkTable};
use crate::range_set::{merge_adjacent_ranges, overlaps, subtract_ranges};
use crate::text::number_between;
use crate::{chunk_state, planner_laws, range_set, text, RunnerId};
use std::collections::HashMap;
use std::ops::Range;
use vstd::prelude::*;

verus! {

broadcast use vstd::std_specs::hash::group_hash_axioms;

/// Minimal size of a chunk where nothing else is set: 1 MiB.
pub const DEFAULT_MIN_CHUNK_SIZE: u64 = 1024 * 1024;

/// Why a planner operation was refused.
#[derive(Clone, Copy, Debug, PartialEq, Eq, Structural)]
pub enum Error {
    /// No chunk is assigned to the runner.
    RunnerNotFound(RunnerId),
    /// The chunk assigned to the runner is gone.
    ChunkNotFound(RunnerId),
    /// The chunk cannot be split at the position.
    InvalidSplitPosition(u64),
}

/// What an update of an unknown runner is answered.
pub open spec fn runner_not_found_text(runner_id: RunnerId) -> Seq<char> {
    "Runner "@ + text::decimal(runner_id as nat) + " not found"@
}

/// What an update of a runner without a chunk is answered.
pub open spec fn chunk_not_found_text(runner_id: RunnerId) -> Seq<char> {
    "Chunk for runner "@ + text::decimal(runner_id as nat) + " not found"@
}

impl Error {
    /// The message of the error.
    pub fn message(&self) -> (text: String)
        ensures
            text@ == match *self {
                Error::RunnerNotFound(id) => runner_not_found_text(id),
                Error::ChunkNotFound(id) => chunk_not_found_text(id),
                Error::InvalidSplitPosition(pos) => "Invalid split position: "@
                    + text::decimal(pos as nat),
            },
    {
        match *self {
            Error::RunnerNotFound(id) => number_between("Runner ", id as u64, " not found"),
            Error::ChunkNotFound(id) => number_between("Chunk for runner ", id as u64, " not found"),
            Error::InvalidSplitPosition(pos) => {
                let text = number_between("Invalid split position: ", pos, "");
                proof {
                    reveal_strlit("");
                    assert(text@ =~= "Invalid split position: "@ + text::decimal(
                        pos as nat,
                    ));
                }
                text
            },
        }
    }
}

/// Some chunk is planned to hold the offset.
pub open spec fn planned(chunks: Map<Range<u64>, ChunkState>, x: int) -> bool {
    exists|key: Range<u64>| #[trigger] chunks.contains_key(key) && range_set::in_range(key, x)
}

/// Some chunk has downloaded the offset.
pub open spec fn fetched(chunks: Map<Range<u64>, ChunkState>, x: int) -> bool {
    exists|key: Range<u64>| #[trigger]
        chunks.contains_key(key) && range_set::in_range(chunks[key].downloaded, x)
}

/// Every chunk is stored under its allocated range and has downloaded a prefix of
/// it.
pub open spec fn all_synced(chunks: Map<Range<u64>, ChunkState>) -> bool {
    forall|key: Range<u64>| #[trigger]
        chunks.contains_key(key) ==> chunks[key].allocated == key && chunks[key].valid()
}

/// Enhanced chunk planner that maintains unified state.
#[derive(Debug)]
pub struct ChunkPlanner {
    /// Total size of the content.
    pub total: u64,
    /// Minimal size of a chunk.
    pub min_chunk_size: u64,
    /// Maximum number of concurrent chunks.
    pub max_chunk_count: Option<usize>,
    /// All chunks indexed by their allocated range.
    pub chunks: ChunkTable,
    /// Runner ID to chunk mapping for quick lookup.
    pub runner_to_chunk: HashMap<RunnerId, Range<u64>>,
}

impl ChunkPlanner {
    /// The chunks, by the range under which each is stored.
    pub open spec fn chunk_map(&self) -> Map<Range<u64>, ChunkState> {
        self.chunks@
    }

    /// The chunks in the order in which they are listed.
    pub open spec fn listing(&self) -> Seq<(Range<u64>, ChunkState)> {
        self.chunks.listed()
    }

    /// The range of the chunk that each runner works on.
    pub open spec fn runner_map(&self) -> Map<RunnerId, Range<u64>> {
        self.runner_to_chunk@
    }

    /// The listing holds each chunk once, and each chunk is in step with its key.
    pub open spec fn wf(&self) -> bool {
        &&& self.chunks.wf()
        &&& all_synced(self.chunk_map())
    }

    /// The chunks are non-empty parts of the content that do not overlap, and each
    /// runner's chunk exists and names the runner.
    pub open spec fn consistent(&self) -> bool {
        &&& self.wf()
        &&& planner_laws::consistent_plan(self.total, self.chunk_map(), self.runner_map())
    }

    /// The chunk of a runner, where the runner and its chunk are known.
    pub open spec fn runner_chunk(&self, runner_id: RunnerId) -> Option<ChunkState> {
        if self.runner_map().contains_key(runner_id) && self.chunk_map().contains_key(
            self.runner_map()[runner_id],
        ) {
            Some(self.chunk_map()[self.runner_map()[runner_id]])
        } else {
            None
        }
    }

    /// The limits of two planners agree.
    pub open spec fn same_limits(&self, other: &ChunkPlanner) -> bool {
        &&& self.total == other.total
        &&& self.min_chunk_size == other.min_chunk_size
        &&& self.max_chunk_count == other.max_chunk_count
    }

    /// Two planners hold the same chunks and runners under the same limits.
    pub open spec fn same_plan(&self, other: &ChunkPlanner) -> bool {
        &&& self.same_limits(other)
        &&& self.chunk_map() == other.chunk_map()
        &&& self.runner_map() == other.runner_map()
    }

    /// The offset belongs to the content and to no chunk.
    pub open spec fn available(&self, x: int) -> bool {
        0 <= x < self.total && !planned(self.chunk_map(), x)
    }

    /// A new chunk may cover the range.
    pub open spec fn can_allocate(&self, range: Range<u64>) -> bool {
        room_for(self.total, self.max_chunk_count, self.chunk_map(), range)
    }

    /// A chunk was taken for a runner, or for none: where the range may be allocated,
    /// and only there.
    pub open spec fn took(
        &self,
        before: &ChunkPlanner,
        range: Range<u64>,
        runner_id: Option<RunnerId>,
        done: bool,
    ) -> bool {
        &&& done == before.can_allocate(range)
        &&& self.same_limits(before)
        &&& done ==> self.chunk_map() == before.chunk_map().insert(
            range,
            chunk_state::fresh_chunk(
                range,
                runner_id,
                if runner_id is Some {
                    ChunkStatus::Pending
                } else {
                    ChunkStatus::Idle
                },
            ),
        )
        &&& done ==> self.runner_map() == (match runner_id {
            Some(id) => before.runner_map().insert(id, range),
            None => before.runner_map(),
        })
        &&& !done ==> *self == *before
    }

    /// A runner downloaded some bytes: those that fit into its chunk count, and a
    /// full chunk is finished. A runner without a chunk is answered by a text.
    pub open spec fn progressed(
        &self,
        before: &ChunkPlanner,
        runner_id: RunnerId,
        bytes: u64,
        result: Result<Range<u64>, String>,
    ) -> bool {
        &&& self.same_limits(before)
        &&& self.runner_map() == before.runner_map()
        &&& match before.runner_chunk(runner_id) {
            Some(chunk) => {
                &&& result == Ok::<Range<u64>, String>(advance_range(chunk, bytes))
                &&& self.chunk_map() == before.chunk_map().insert(
                    chunk.allocated,
                    advanced(chunk, bytes),
                )
            },
            None => {
                &&& self.chunk_map() == before.chunk_map()
                &&& result is Err
                &&& result->Err_0@ == if before.runner_map().contains_key(runner_id) {
                    chunk_not_found_text(runner_id)
                } else {
                    runner_not_found_text(runner_id)
                }
            },
        }
    }

    /// The chunk of a runner is running.
    pub open spec fn started(
        &self,
        before: &ChunkPlanner,
        runner_id: RunnerId,
        result: Result<(), Error>,
    ) -> bool {
        &&& self.same_limits(before)
        &&& self.runner_map() == before.runner_map()
        &&& match before.runner_chunk(runner_id) {
            Some(chunk) => {
                &&& result == Ok::<(), Error>(())
                &&& self.chunk_map() == before.chunk_map().insert(
                    chunk.allocated,
                    ChunkState { status: ChunkStatus::Running, ..chunk },
                )
            },
            None => {
                &&& self.chunk_map() == before.chunk_map()
                &&& result == Err::<(), Error>(before.lookup_error(runner_id))
            },
        }
    }

    /// The chunk of a runner is finished, and the runner is done with it.
    pub open spec fn finished(
        &self,
        before: &ChunkPlanner,
        runner_id: RunnerId,
        result: Result<(), Error>,
    ) -> bool {
        &&& self.same_limits(before)
        &&& self.runner_map() == before.runner_map().remove(runner_id)
        &&& match before.runner_chunk(runner_id) {
            Some(chunk) => {
                &&& result == Ok::<(), Error>(())
                &&& self.chunk_map() == before.chunk_map().insert(
                    chunk.allocated,
                    ChunkState { status: ChunkStatus::Finished, ..chunk },
                )
            },
            None => {
                &&& self.chunk_map() == before.chunk_map()
                &&& result == Err::<(), Error>(before.lookup_error(runner_id))
            },
        }
    }

    /// A runner gave its chunk up: what was downloaded stays as a finished chunk
    /// without a runner, the rest is available again.
    pub open spec fn gave_up(
        &self,
        before: &ChunkPlanner,
        runner_id: RunnerId,
        result: Result<Range<u64>, Error>,
    ) -> bool {
        &&& self.same_limits(before)
        &&& self.runner_map() == before.runner_map().remove(runner_id)
        &&& match before.runner_chunk(runner_id) {
            Some(chunk) => {
                &&& result == Ok::<Range<u64>, Error>(
                    Range { start: chunk.downloaded.end, end: chunk.allocated.end },
                )
                &&& self.chunk_map() == released(before.chunk_map(), chunk)
            },
            None => {
                &&& self.chunk_map() == before.chunk_map()
                &&& result == Err::<Range<u64>, Error>(before.lookup_error(runner_id))
            },
        }
    }

    /// A runner with a chunk ended: it finished its chunk, or gave it up.
    pub open spec fn closed_by(
        &self,
        before: &ChunkPlanner,
        runner_id: RunnerId,
        finished: bool,
    ) -> bool {
        if finished {
            self.finished(before, runner_id, Ok(()))
        } else {
            self.gave_up(
                before,
                runner_id,
                Ok(unfinished_part(before.runner_chunk(runner_id)->0).1),
            )
        }
    }

    /// The chunk of a runner ends `new_size` bytes behind what has been downloaded.
    pub open spec fn resized(
        &self,
        before: &ChunkPlanner,
        runner_id: RunnerId,
        new_size: u64,
        result: Result<u64, Error>,
    ) -> bool {
        &&& self.same_limits(before)
        &&& match before.runner_chunk(runner_id) {
            Some(chunk) => {
                let end = (chunk.downloaded.end + new_size) as u64;
                &&& result == Ok::<u64, Error>(chunk.progress() as u64)
                &&& self.chunk_map() == with_end(before.chunk_map(), chunk.allocated, end)
                &&& self.runner_map() == before.runner_map().insert(
                    runner_id,
                    Range { start: chunk.allocated.start, end },
                )
            },
            None => {
                &&& result == Err::<u64, Error>(before.lookup_error(runner_id))
                &&& self.chunk_map() == before.chunk_map()
                &&& self.runner_map() == before.runner_map().remove(runner_id)
            },
        }
    }

    /// The ascending ranges of what has been downloaded.
    pub open spec fn lists_fetched(&self, ranges: Seq<Range<u64>>) -> bool {
        &&& range_set::separated(ranges)
        &&& forall|x: int| #[trigger]
            range_set::covered(ranges, x) <==> fetched(self.chunk_map(), x)
    }

    /// Each runner whose chunk may be split, with the range that it still has to
    /// download, in the order of the listing.
    pub open spec fn incomplete(&self, min_chunk_size: Option<u64>) -> Seq<
        (RunnerId, Range<u64>),
    > {
        self.listing().filter(
            |entry: (Range<u64>, ChunkState)| self.splittable(entry.1, min_chunk_size),
        ).map_values(|entry: (Range<u64>, ChunkState)| unfinished_part(entry.1))
    }

    /// Each chunk that may be split has a runner, and twice the minimal chunk size is
    /// a size.
    pub open spec fn can_list_incomplete(&self, min_chunk_size: Option<u64>) -> bool {
        forall|key: Range<u64>| #[trigger]
            self.chunk_map().contains_key(key) ==> self.can_list_chunk(
                self.chunk_map()[key],
                min_chunk_size,
            )
    }

    /// The part that a running chunk would hand over does not lie beyond the end of
    /// the number range. It matters only where nothing is available.
    pub open spec fn split_fits(&self, required_size: u64) -> bool {
        (forall|x: int| !#[trigger] self.available(x)) ==> forall|key: Range<u64>| #[trigger]
            self.chunk_map().contains_key(key) && self.divisible(self.chunk_map()[key])
                ==> self.chunk_map()[key].downloaded.end + required_size <= u64::MAX
    }

    /// What is found to be split: an available range first, and only where nothing
    /// is available a running chunk with the most bytes left.
    pub open spec fn found_to_split(
        &self,
        required_size: u64,
        found: Option<(Option<RunnerId>, Range<u64>)>,
    ) -> bool {
        &&& (exists|x: int| #[trigger] self.available(x)) ==> exists|ranges: Seq<Range<u64>>|
            #[trigger]
            self.lists_available(ranges) && found is Some && (found->0).0 is None
                && is_best_available(ranges, required_size, (found->0).1)
        &&& (forall|x: int| !#[trigger] self.available(x)) ==> match found {
            Some(pair) => exists|key: Range<u64>| #[trigger]
                self.chunk_map().contains_key(key) && self.is_most_left(key) && pair == (
                    self.chunk_map()[key].runner_id,
                    Range {
                        start: self.chunk_map()[key].downloaded.end,
                        end: (self.chunk_map()[key].downloaded.end + required_size) as u64,
                    },
                ),
            None => forall|key: Range<u64>| #[trigger]
                self.chunk_map().contains_key(key) ==> !self.divisible(self.chunk_map()[key]),
        }
    }

    /// Nothing is planned, under the default limits.
    pub open spec fn is_initial(&self, total: u64) -> bool {
        &&& self.total == total
        &&& self.min_chunk_size == DEFAULT_MIN_CHUNK_SIZE
        &&& self.max_chunk_count is None
        &&& self.chunk_map() == Map::<Range<u64>, ChunkState>::empty()
        &&& self.listing() == Seq::<(Range<u64>, ChunkState)>::empty()
        &&& self.runner_map() == Map::<RunnerId, Range<u64>>::empty()
    }

    /// A planner for content of the given size, without chunks.
    pub fn new(total: u64) -> (planner: Self)
        ensures
            planner.is_initial(total),
            planner.consistent(),
    {
        ChunkPlanner {
            total,
            min_chunk_size: DEFAULT_MIN_CHUNK_SIZE,
            max_chunk_count: None,
            chunks: ChunkTable::new(),
            runner_to_chunk: HashMap::new(),
        }
    }

    /// Get current number of chunks.
    pub fn get_chunks_count(&self) -> (count: usize)
        requires
            self.wf(),
        ensures
            count == self.chunk_map().dom().len(),
    {
        proof {
            chunk_state::listing_measures(self.listing());
        }
        self.chunks.len()
    }

    /// Get number of active runners.
    pub fn get_active_runners_count(&self) -> (count: usize)
        requires
            self.wf(),
        ensures
            count == chunk_state::active_keys(self.chunk_map()).len(),
    {
        let mut count: usize = 0;
        let mut i: usize = 0;
        while i < self.chunks.len()
            invariant
                i <= self.listing().len(),
                count <= i,
                count == chunk_state::listed_active(self.listing().take(i as int)),
            decreases self.listing().len() - i,
        {
            assert(self.listing().take(i + 1).drop_last() =~= self.listing().take(i as int));
            if self.chunks.at(i).status.is_active() {
                count = count + 1;
            }
            i = i + 1;
        }
        proof {
            assert(self.listing().take(i as int) =~= self.listing());
            chunk_state::listing_measures(self.listing());
        }
        count
    }

    /// Allocate a pending chunk or idle chunk based on the runner id.
    pub fn allocate_chunk(&mut self, range: Range<u64>, runner_id: Option<RunnerId>) -> (done: bool)
        requires
            old(self).wf(),
        ensures
            final(self).wf(),
            old(self).consistent() ==> final(self).consistent(),
            final(self).took(old(self), range, runner_id, done),
    {
        match runner_id {
            Some(runner_id) => self.allocate_pending_chunk(range, runner_id),
            None => self.allocate_idle_chunk(range),
        }
    }

    /// Allocate a pending chunk.
    pub fn allocate_pending_chunk(&mut self, range: Range<u64>, runner_id: RunnerId) -> (done: bool)
        requires
            old(self).wf(),
        ensures
            final(self).wf(),
            old(self).consistent() ==> final(self).consistent(),
            final(self).took(old(self), range, Some(runner_id), done),
    {
        self.allocate_chunk_inner(range, Some(runner_id), ChunkStatus::Pending)
    }

    /// Allocate an idle chunk.
    pub fn allocate_idle_chunk(&mut self, range: Range<u64>) -> (done: bool)
        requires
            old(self).wf(),
        ensures
            final(self).wf(),
            old(self).consistent() ==> final(self).consistent(),
            final(self).took(old(self), range, None, done),
    {
        self.allocate_chunk_inner(range, None, ChunkStatus::Idle)
    }

    /// Allocate a new chunk with the given runner and status.
    fn allocate_chunk_inner(
        &mut self,
        range: Range<u64>,
        runner_id: Option<RunnerId>,
        status: ChunkStatus,
    ) -> (done: bool)
        requires
            old(self).wf(),
        ensures
            final(self).wf(),
            old(self).consistent() ==> final(self).consistent(),
            done == old(self).can_allocate(range),
            final(self).same_limits(old(self)),
            done ==> final(self).chunk_map() == old(self).chunk_map().insert(
                range,
                chunk_state::fresh_chunk(range, runner_id, status),
            ),
            done ==> final(self).runner_map() == (match runner_id {
                Some(id) => old(self).runner_map().insert(id, range),
                None => old(self).runner_map(),
            }),
            !done ==> *final(self) == *old(self),
    {
        if range.start >= range.end || range.end > self.total {
            return false;
        }
        // Check max chunk count
        if let Some(max) = self.max_chunk_count {
            if self.get_chunks_count() >= max {
                return false;
            }
        }
        // Check for overlaps
        let mut i: usize = 0;
        while i < self.chunks.len()
            invariant
                *self == *old(self),
                self.wf(),
                i <= self.listing().len(),
                range.start < range.end,
                forall|j: int|
                    0 <= j < i ==> !range_set::ranges_overlap(
                        (#[trigger] self.listing()[j]).0,
                        range,
                    ),
            decreases self.listing().len() - i,
        {
            proof {
                chunk_state::entries_in_map(self.listing());
                assert(self.chunk_map().contains_key(self.listing()[i as int].0));
            }
            if overlaps(&self.chunks.key_at(i), &range) {
                return false;
            }
            i = i + 1;
        }
        // Create new chunk state
        let key = range.start..range.end;
        let mapped = range.start..range.end;
        proof {
            if self.consistent() {
                planner_laws::adding_keeps_consistent(
                    self.total,
                    self.chunk_map(),
                    self.runner_map(),
                    chunk_state::fresh_chunk(range, runner_id, status),
                );
            }
        }
        self.chunks.insert(key, ChunkState::new(range, runner_id, status));
        // Update runner mapping
        if let Some(id) = runner_id {
            self.runner_to_chunk.insert(id, mapped);
        }
        true
    }

    /// Update download progress for a runner. The bytes that fit into the chunk
    /// count; the range of those bytes is returned, and a full chunk is finished.
    pub fn update_progress(&mut self, runner_id: RunnerId, bytes_downloaded: u64) -> (result: Result<
        Range<u64>,
        String,
    >)
        requires
            old(self).wf(),
            old(self).runner_chunk(runner_id) matches Some(chunk) ==> chunk.downloaded.end
                + bytes_downloaded <= u64::MAX,
        ensures
            final(self).wf(),
            old(self).consistent() ==> final(self).consistent(),
            final(self).progressed(old(self), runner_id, bytes_downloaded, result),
    {
        let key = match self.runner_to_chunk.get(&runner_id) {
            Some(key) => key.start..key.end,
            None => {
                return Err(number_between("Runner ", runner_id as u64, " not found"));
            },
        };
        let ghost before = self.chunk_map();
        match self.chunks.get_mut(&key) {
            Some(chunk) => {
                assert(before.contains_key(key));
                // Update downloaded range
                let reached = chunk.downloaded.end + bytes_downloaded;
                let new_end = if reached <= chunk.allocated.end {
                    reached
                } else {
                    chunk.allocated.end
                };
                let previous_end = chunk.downloaded.end;
                chunk.downloaded.end = new_end;
                // Check if complete
                if chunk.is_complete() {
                    chunk.status = ChunkStatus::Finished;
                }
                Ok(previous_end..new_end)
            },
            None => Err(number_between("Chunk for runner ", runner_id as u64, " not found")),
        }
    }

    /// Mark a runner as running.
    pub fn mark_running(&mut self, runner_id: RunnerId) -> (result: Result<(), Error>)
        requires
            old(self).wf(),
            old(self).runner_chunk(runner_id) matches Some(chunk) ==> chunk.status
                == ChunkStatus::Pending,
        ensures
            final(self).wf(),
            old(self).consistent() ==> final(self).consistent(),
            final(self).started(old(self), runner_id, result),
    {
        let key = match self.runner_to_chunk.get(&runner_id) {
            Some(key) => key.start..key.end,
            None => {
                return Err(Error::RunnerNotFound(runner_id));
            },
        };
        let ghost before = self.chunk_map();
        match self.chunks.get_mut(&key) {
            Some(chunk) => {
                assert(before.contains_key(key));
                chunk.status = ChunkStatus::Running;
                Ok(())
            },
            None => Err(Error::ChunkNotFound(runner_id)),
        }
    }

    /// Mark a runner as finished.
    pub fn mark_finished(&mut self, runner_id: RunnerId) -> (result: Result<(), Error>)
        requires
            old(self).wf(),
        ensures
            final(self).wf(),
            old(self).consistent() ==> final(self).consistent(),
            final(self).finished(old(self), runner_id, result),
    {
        let key = match self.runner_to_chunk.remove(&runner_id) {
            Some(key) => key,
            None => {
                assert(self.runner_map() =~= old(self).runner_map().remove(runner_id));
                return Err(Error::RunnerNotFound(runner_id));
            },
        };
        let ghost before = self.chunk_map();
        match self.chunks.get_mut(&key) {
            Some(chunk) => {
                assert(before.contains_key(key));
                chunk.status = ChunkStatus::Finished;
                Ok(())
            },
            None => Err(Error::ChunkNotFound(runner_id)),
        }
    }

    /// Mark a runner as failed and release the chunk: what was downloaded stays as
    /// a finished chunk without a runner, the rest is returned.
    pub fn mark_failed(&mut self, runner_id: RunnerId) -> (result: Result<Range<u64>, Error>)
        requires
            old(self).wf(),
        ensures
            final(self).wf(),
            old(self).consistent() ==> final(self).consistent(),
            final(self).gave_up(old(self), runner_id, result),
    {
        let key = match self.runner_to_chunk.remove(&runner_id) {
            Some(key) => key,
            None => {
                assert(self.runner_map() =~= old(self).runner_map().remove(runner_id));
                return Err(Error::RunnerNotFound(runner_id));
            },
        };
        let ghost before = self.chunk_map();
        proof {
            if old(self).consistent() {
                let runners = self.runner_map();
                let chunk = before[key];
                planner_laws::forgetting_keeps_consistent(
                    self.total,
                    before,
                    old(self).runner_map(),
                    runner_id,
                );
                planner_laws::removing_keeps_consistent(self.total, before, runners, key);
                if chunk.downloaded.start < chunk.downloaded.end {
                    let kept = Range { start: key.start, end: chunk.downloaded.end };
                    planner_laws::part_overlaps_no_other(self.total, before, runners, key, kept);
                    planner_laws::adding_keeps_consistent(
                        self.total,
                        before.remove(key),
                        runners,
                        ChunkState {
                            allocated: kept,
                            downloaded: chunk.downloaded,
                            runner_id: None,
                            status: ChunkStatus::Finished,
                        },
                    );
                }
            }
        }
        match self.chunks.remove(&key) {
            Some(mut chunk) => {
                assert(before.contains_key(key));
                // Return the unfinished portion
                let unfinished = chunk.downloaded.end..chunk.allocated.end;
                // If nothing was downloaded, the chunk is gone entirely
                if chunk.downloaded.start == chunk.downloaded.end {
                    Ok(chunk.allocated.start..chunk.allocated.end)
                } else {
                    // Keep the downloaded portion as a finished chunk
                    chunk.allocated.end = chunk.downloaded.end;
                    chunk.status = ChunkStatus::Finished;
                    chunk.runner_id = None;
                    self.chunks.insert(chunk.allocated.start..chunk.allocated.end, chunk);
                    Ok(unfinished)
                }
            },
            None => Err(Error::ChunkNotFound(runner_id)),
        }
    }

    /// The chunk of a runner was split at a position, if that lies within what has
    /// still to be downloaded.
    pub open spec fn split_at(
        &self,
        before: &ChunkPlanner,
        runner_id: RunnerId,
        split_pos: u64,
        new_runner_id: RunnerId,
        result: Result<Range<u64>, Error>,
    ) -> bool {
        &&& self.same_limits(before)
        &&& match before.runner_chunk(runner_id) {
            Some(chunk) => if chunk.downloaded.end < split_pos < chunk.allocated.end {
                let first = Range { start: chunk.allocated.start, end: split_pos };
                let second = Range { start: split_pos, end: chunk.allocated.end };
                &&& result == Ok::<Range<u64>, Error>(second)
                &&& self.chunk_map() == with_end(
                    before.chunk_map(),
                    chunk.allocated,
                    split_pos,
                ).insert(
                    second,
                    chunk_state::fresh_chunk(second, Some(new_runner_id), ChunkStatus::Running),
                )
                &&& self.runner_map() == before.runner_map().insert(runner_id, first).insert(
                    new_runner_id,
                    second,
                )
            } else {
                &&& result == Err::<Range<u64>, Error>(Error::InvalidSplitPosition(split_pos))
                &&& self.chunk_map() == before.chunk_map()
                &&& self.runner_map() == before.runner_map()
            },
            None => {
                &&& result == Err::<Range<u64>, Error>(before.lookup_error(runner_id))
                &&& self.chunk_map() == before.chunk_map()
                &&& self.runner_map() == before.runner_map().remove(runner_id)
            },
        }
    }

    /// Split a chunk at the given position. The first part keeps the runner and
    /// the progress, the second part goes to the new runner.
    pub fn split_chunk(
        &mut self,
        runner_id: RunnerId,
        split_pos: u64,
        new_runner_id: RunnerId,
    ) -> (result: Result<Range<u64>, Error>)
        requires
            old(self).wf(),
        ensures
            final(self).wf(),
            old(self).consistent() ==> final(self).consistent(),
            final(self).split_at(old(self), runner_id, split_pos, new_runner_id, result),
    {
        let key = match self.runner_to_chunk.remove(&runner_id) {
            Some(key) => key,
            None => {
                assert(self.runner_map() =~= old(self).runner_map().remove(runner_id));
                return Err(Error::RunnerNotFound(runner_id));
            },
        };
        let ghost before = self.chunk_map();
        let mut chunk = match self.chunks.remove(&key) {
            Some(chunk) => chunk,
            None => {
                return Err(Error::ChunkNotFound(runner_id));
            },
        };
        assert(before.contains_key(key));
        // Validate split position
        if split_pos <= chunk.downloaded.end || split_pos >= chunk.allocated.end {
            let mapped = key.start..key.end;
            self.chunks.insert(key, chunk);
            self.runner_to_chunk.insert(runner_id, mapped);
            assert(self.chunk_map() =~= old(self).chunk_map());
            assert(self.runner_map() =~= old(self).runner_map());
            return Err(Error::InvalidSplitPosition(split_pos));
        }
        let start = chunk.allocated.start;
        let end = chunk.allocated.end;
        proof {
            if old(self).consistent() {
                planner_laws::splitting_keeps_consistent(
                    self.total,
                    before,
                    old(self).runner_map(),
                    runner_id,
                    split_pos,
                    new_runner_id,
                );
            }
        }
        // First chunk keeps the downloaded progress
        chunk.allocated = start..split_pos;
        // Second chunk starts fresh
        let second_chunk = ChunkState::from_runner_id(split_pos..end, Some(new_runner_id));
        self.chunks.insert(start..split_pos, chunk);
        self.chunks.insert(split_pos..end, second_chunk);
        // Update runner mappings
        self.runner_to_chunk.insert(runner_id, start..split_pos);
        self.runner_to_chunk.insert(new_runner_id, split_pos..end);
        assert(self.runner_map() =~= old(self).runner_map().insert(
            runner_id,
            Range { start, end: split_pos },
        ).insert(new_runner_id, Range { start: split_pos, end }));
        Ok(split_pos..end)
    }

    /// Resize the runner state by the given size: the chunk then ends `new_size`
    /// bytes behind what has been downloaded. Returns the downloaded size.
    pub fn resize_runner_state(&mut self, runner_id: RunnerId, new_size: u64) -> (result: Result<
        u64,
        Error,
    >)
        requires
            old(self).wf(),
            old(self).runner_chunk(runner_id) matches Some(chunk) ==> chunk.downloaded.end
                + new_size <= u64::MAX,
        ensures
            final(self).wf(),
            old(self).consistent() && (old(self).runner_chunk(runner_id) matches Some(chunk)
                ==> new_size <= chunk.left() && 0 < chunk.progress() + new_size)
                ==> final(self).consistent(),
            final(self).resized(old(self), runner_id, new_size, result),
    {
        let key = match self.runner_to_chunk.remove(&runner_id) {
            Some(key) => key,
            None => {
                assert(self.runner_map() =~= old(self).runner_map().remove(runner_id));
                return Err(Error::RunnerNotFound(runner_id));
            },
        };
        let ghost before = self.chunk_map();
        let mut state = match self.chunks.remove(&key) {
            Some(state) => state,
            None => {
                return Err(Error::ChunkNotFound(runner_id));
            },
        };
        assert(before.contains_key(key));
        proof {
            let resized = Range { start: key.start, end: (state.downloaded.end + new_size) as u64 };
            if old(self).consistent() && new_size <= state.left() && 0 < state.progress()
                + new_size {
                planner_laws::shrinking_keeps_consistent(
                    self.total,
                    before,
                    old(self).runner_map(),
                    runner_id,
                    resized,
                );
            }
        }
        let downloaded_size = state.downloaded.end - state.downloaded.start;
        state.allocated.end = state.downloaded.end + new_size;
        let start = state.allocated.start;
        let end = state.allocated.end;
        self.chunks.insert(start..end, state);
        self.runner_to_chunk.insert(runner_id, start..end);
        assert(self.runner_map() =~= old(self).runner_map().insert(
            runner_id,
            Range { start, end },
        ));
        Ok(downloaded_size)
    }

    /// The error for a runner whose chunk cannot be found.
    pub open spec fn lookup_error(&self, runner_id: RunnerId) -> Error {
        if self.runner_map().contains_key(runner_id) {
            Error::ChunkNotFound(runner_id)
        } else {
            Error::RunnerNotFound(runner_id)
        }
    }
}

impl ChunkPlanner {
    /// Get available ranges (not allocated to any chunk), in ascending order.
    pub fn get_available_ranges(&self) -> (ranges: Vec<Range<u64>>)
        requires
            self.wf(),
        ensures
            self.lists_available(ranges@),
    {
        let mut occupied: Vec<Range<u64>> = Vec::with_capacity(self.chunks.len());
        let mut i: usize = 0;
        while i < self.chunks.len()
            invariant
                self.wf(),
                i <= self.listing().len(),
                occupied.len() == i,
                forall|j: int| 0 <= j < i ==> #[trigger] occupied[j] == self.listing()[j].0,
                forall|j: int|
                    0 <= j < i ==> (#[trigger] occupied[j]).start <= occupied[j].end,
            decreases self.listing().len() - i,
        {
            proof {
                chunk_state::entries_in_map(self.listing());
                assert(self.chunk_map().contains_key(self.listing()[i as int].0));
            }
            occupied.push(self.chunks.key_at(i));
            i = i + 1;
        }
        let ranges = subtract_ranges(self.total, &occupied);
        proof {
            assert forall|x: int| #[trigger] range_set::covered(ranges@, x) <==> self.available(
                x,
            ) by {
                if planned(self.chunk_map(), x) {
                    let key = choose|key: Range<u64>| #[trigger]
                        self.chunk_map().contains_key(key) && range_set::in_range(key, x);
                    assert(chunk_state::has_key(self.listing(), key));
                    let j = choose|j: int|
                        0 <= j < self.listing().len() && (#[trigger] self.listing()[j]).0 == key;
                    assert(occupied[j] == key);
                    assert(range_set::covered(occupied@, x));
                }
                if range_set::covered(occupied@, x) {
                    let j = choose|j: int|
                        0 <= j < occupied.len() && range_set::in_range(#[trigger] occupied[j], x);
                    chunk_state::entries_in_map(self.listing());
                    assert(self.chunk_map().contains_key(self.listing()[j].0));
                }
            }
        }
        ranges
    }

    /// Get all downloaded ranges (for progress reporting), in ascending order and
    /// merged where they meet.
    pub fn get_downloaded_ranges(&self) -> (ranges: Vec<Range<u64>>)
        requires
            self.wf(),
        ensures
            self.lists_fetched(ranges@),
    {
        let mut found: Vec<Range<u64>> = Vec::new();
        let mut i: usize = 0;
        while i < self.chunks.len()
            invariant
                self.wf(),
                i <= self.listing().len(),
                range_set::all_nonempty(found@),
                forall|k: int|
                    0 <= k < found.len() ==> exists|j: int|
                        0 <= j < i && #[trigger] found[k] == (
                        #[trigger] self.listing()[j]).1.downloaded,
                forall|j: int|
                    #![trigger self.listing()[j]]
                    0 <= j < i && self.listing()[j].1.downloaded.start
                        < self.listing()[j].1.downloaded.end ==> found@.contains(
                        self.listing()[j].1.downloaded,
                    ),
            decreases self.listing().len() - i,
        {
            let downloaded = &self.chunks.at(i).downloaded;
            let ghost before = found@;
            if downloaded.start < downloaded.end {
                found.push(downloaded.start..downloaded.end);
                proof {
                    let this = self.listing()[i as int].1.downloaded;
                    assert(found[before.len() as int] == this);
                    assert forall|k: int| 0 <= k < found.len() implies exists|j: int|
                        0 <= j < i + 1 && #[trigger] found[k] == (
                        #[trigger] self.listing()[j]).1.downloaded by {
                        if k < before.len() {
                            assert(found[k] == before[k]);
                        }
                    }
                    assert forall|j: int|
                        #![trigger self.listing()[j]]
                        0 <= j < i + 1 && self.listing()[j].1.downloaded.start
                            < self.listing()[j].1.downloaded.end implies found@.contains(
                        self.listing()[j].1.downloaded,
                    ) by {
                        if j < i {
                            let k = choose|k: int|
                                0 <= k < before.len() && before[k]
                                    == self.listing()[j].1.downloaded;
                            assert(found[k] == before[k]);
                        }
                    }
                }
            }
            i = i + 1;
        }
        let ranges = merge_adjacent_ranges(found);
        proof {
            chunk_state::entries_in_map(self.listing());
            assert forall|x: int| #[trigger] range_set::covered(ranges@, x) <==> fetched(
                self.chunk_map(),
                x,
            ) by {
                assert(range_set::covered(ranges@, x) <==> range_set::covered(found@, x));
                if range_set::covered(found@, x) {
                    let k = choose|k: int|
                        0 <= k < found.len() && range_set::in_range(#[trigger] found[k], x);
                    let j = choose|j: int|
                        0 <= j < i && found[k] == (#[trigger] self.listing()[j]).1.downloaded;
                    assert(self.chunk_map().contains_key(self.listing()[j].0));
                }
                if fetched(self.chunk_map(), x) {
                    let key = choose|key: Range<u64>| #[trigger]
                        self.chunk_map().contains_key(key) && range_set::in_range(
                            self.chunk_map()[key].downloaded,
                            x,
                        );
                    assert(chunk_state::has_key(self.listing(), key));
                    let j = choose|j: int|
                        0 <= j < self.listing().len() && (#[trigger] self.listing()[j]).0 == key;
                    let k = choose|k: int|
                        0 <= k < found.len() && found[k] == self.listing()[j].1.downloaded;
                    assert(range_set::in_range(found[k], x));
                }
            }
        }
        ranges
    }

    /// Get total downloaded bytes.
    pub fn get_total_downloaded(&self) -> (bytes: u64)
        requires
            self.wf(),
            chunk_state::total_progress(self.chunk_map()) <= u64::MAX,
        ensures
            bytes == chunk_state::total_progress(self.chunk_map()),
    {
        proof {
            chunk_state::listing_measures(self.listing());
            assert(self.listing().take(self.listing().len() as int) =~= self.listing());
        }
        let mut bytes: u64 = 0;
        let mut i: usize = 0;
        while i < self.chunks.len()
            invariant
                self.wf(),
                i <= self.listing().len(),
                bytes == chunk_state::listed_progress(self.listing().take(i as int)),
                chunk_state::listed_progress(self.listing().take(self.listing().len() as int))
                    <= u64::MAX,
            decreases self.listing().len() - i,
        {
            proof {
                chunk_state::entries_in_map(self.listing());
                assert(self.chunk_map().contains_key(self.listing()[i as int].0));
                assert(self.listing().take(i + 1).drop_last() =~= self.listing().take(i as int));
                progress_grows(self, i + 1);
            }
            let downloaded = &self.chunks.at(i).downloaded;
            bytes = bytes + (downloaded.end - downloaded.start);
            i = i + 1;
        }
        bytes
    }

    /// A chunk that may be split: unfinished, with enough bytes left for two parts.
    pub open spec fn splittable(&self, chunk: ChunkState, min_chunk_size: Option<u64>) -> bool {
        &&& chunk.status != ChunkStatus::Finished
        &&& chunk.downloaded.end < chunk.allocated.end
        &&& chunk.left() >= 2 * self.min_chunk_size
        &&& min_chunk_size matches Some(min) ==> chunk.left() >= min
    }

    /// Get incomplete states from occupied ranges: each runner with the range that
    /// it still has to download, in the order of the listing.
    pub fn get_incomplete_states(&self, min_chunk_size: Option<u64>) -> (states: Vec<
        (RunnerId, Range<u64>),
    >)
        requires
            self.wf(),
            self.can_list_incomplete(min_chunk_size),
        ensures
            states@ == self.incomplete(min_chunk_size),
    {
        let ghost keep = |entry: (Range<u64>, ChunkState)|
            self.splittable(entry.1, min_chunk_size);
        let ghost part = |entry: (Range<u64>, ChunkState)| unfinished_part(entry.1);
        let mut states: Vec<(RunnerId, Range<u64>)> = Vec::new();
        let mut i: usize = 0;
        assert(self.listing().take(0).filter(keep).map_values(part) =~= Seq::empty()) by {
            reveal(Seq::filter);
        }
        while i < self.chunks.len()
            invariant
                self.wf(),
                i <= self.listing().len(),
                keep == (|entry: (Range<u64>, ChunkState)|
                    self.splittable(entry.1, min_chunk_size)),
                part == (|entry: (Range<u64>, ChunkState)| unfinished_part(entry.1)),
                states@ == self.listing().take(i as int).filter(keep).map_values(part),
                self.can_list_incomplete(min_chunk_size),
            decreases self.listing().len() - i,
        {
            proof {
                chunk_state::entries_in_map(self.listing());
                assert(self.chunk_map().contains_key(self.listing()[i as int].0));
                let next = self.listing().take(i + 1);
                assert(next.drop_last() =~= self.listing().take(i as int));
                assert(next.last() == self.listing()[i as int]);
                reveal(Seq::filter);
            }
            let ghost before = self.listing().take(i as int).filter(keep);
            let chunk = self.chunks.at(i);
            if chunk.status != ChunkStatus::Finished && chunk.downloaded.end
                < chunk.allocated.end {
                let twice = 2 * self.min_chunk_size;
                let wanted = match min_chunk_size {
                    Some(min) => if min >= twice {
                        min
                    } else {
                        twice
                    },
                    None => twice,
                };
                if chunk.remaining() >= wanted {
                    if let Some(id) = chunk.runner_id {
                        states.push((id, chunk.downloaded.end..chunk.allocated.end));
                        assert(states@ =~= before.push(self.listing()[i as int]).map_values(part));
                    }
                }
            }
            i = i + 1;
        }
        assert(self.listing().take(i as int) =~= self.listing());
        states
    }

    /// Whether each chunk that may be split has a runner, and twice the minimal chunk
    /// size is a size.
    pub fn can_list(&self, min_chunk_size: Option<u64>) -> (can: bool)
        requires
            self.wf(),
        ensures
            can == self.can_list_incomplete(min_chunk_size),
    {
        let mut i: usize = 0;
        while i < self.chunks.len()
            invariant
                self.wf(),
                i <= self.listing().len(),
                forall|j: int|
                    0 <= j < i ==> self.can_list_chunk((#[trigger] self.listing()[j]).1, min_chunk_size),
            decreases self.listing().len() - i,
        {
            proof {
                chunk_state::entries_in_map(self.listing());
                assert(self.chunk_map().contains_key(self.listing()[i as int].0));
            }
            let chunk = self.chunks.at(i);
            if chunk.status != ChunkStatus::Finished && chunk.downloaded.end
                < chunk.allocated.end {
                if self.min_chunk_size > u64::MAX / 2 {
                    return false;
                }
                let enough = match min_chunk_size {
                    Some(min) => chunk.remaining() >= min,
                    None => true,
                };
                if enough && chunk.remaining() >= 2 * self.min_chunk_size
                    && chunk.runner_id.is_none() {
                    assert(self.splittable(
                        self.chunk_map()[self.listing()[i as int].0],
                        min_chunk_size,
                    ));
                    return false;
                }
            }
            i = i + 1;
        }
        true
    }

    /// The chunk has a runner where it may be split, and twice the minimal chunk size
    /// is a size where it is unfinished.
    pub open spec fn can_list_chunk(&self, chunk: ChunkState, min_chunk_size: Option<u64>) -> bool {
        &&& chunk.status != ChunkStatus::Finished && chunk.left() > 0 ==> 2 * self.min_chunk_size
            <= u64::MAX
        &&& self.splittable(chunk, min_chunk_size) ==> chunk.runner_id is Some
    }

    /// Get state of a specific runner.
    pub fn get_runner_state(&self, runner_id: RunnerId) -> (state: Option<&ChunkState>)
        requires
            self.wf(),
        ensures
            match state {
                Some(chunk) => self.runner_chunk(runner_id) == Some(*chunk),
                None => self.runner_chunk(runner_id) is None,
            },
    {
        match self.runner_to_chunk.get(&runner_id) {
            Some(key) => self.chunks.get(key),
            None => None,
        }
    }

    /// Get mut state ref of a specific runner. The planner stays in step where the
    /// chunk keeps its allocated range and has downloaded a prefix of it.
    pub fn get_runner_state_mut(&mut self, runner_id: RunnerId) -> (state: Option<&mut ChunkState>)
        requires
            old(self).wf(),
        ensures
            final(self).same_limits(old(self)),
            final(self).runner_map() == old(self).runner_map(),
            match state {
                Some(chunk) => {
                    &&& old(self).runner_chunk(runner_id) == Some(*chunk)
                    &&& final(self).chunk_map() == old(self).chunk_map().insert(
                        chunk.allocated,
                        *final(chunk),
                    )
                    &&& final(chunk).allocated == chunk.allocated && final(chunk).valid()
                        ==> final(self).wf()
                },
                None => old(self).runner_chunk(runner_id) is None && final(self).wf() && final(
                    self).chunk_map() == old(self).chunk_map(),
            },
    {
        let key = match self.runner_to_chunk.get(&runner_id) {
            Some(key) => key.start..key.end,
            None => {
                return None;
            },
        };
        let ghost before = self.chunk_map();
        assert(before.contains_key(key) ==> before[key].allocated == key);
        self.chunks.get_mut(&key)
    }

    /// Check if all chunks are finished and together take up the whole content.
    pub fn is_complete(&self) -> (complete: bool)
        requires
            self.wf(),
        ensures
            complete == self.completed(),
    {
        if self.chunks.len() == 0 {
            return false;
        }
        proof {
            chunk_state::entries_in_map(self.listing());
            assert(self.chunk_map().contains_key(self.listing()[0].0));
        }
        let mut i: usize = 0;
        while i < self.chunks.len()
            invariant
                self.wf(),
                i <= self.listing().len(),
                forall|j: int|
                    0 <= j < i ==> (#[trigger] self.listing()[j]).1.status
                        == ChunkStatus::Finished,
            decreases self.listing().len() - i,
        {
            proof {
                chunk_state::entries_in_map(self.listing());
                assert(self.chunk_map().contains_key(self.listing()[i as int].0));
            }
            if self.chunks.at(i).status != ChunkStatus::Finished {
                return false;
            }
            i = i + 1;
        }
        let ranges = self.get_available_ranges();
        proof {
            assert forall|key: Range<u64>| #[trigger]
                self.chunk_map().contains_key(key) implies self.chunk_map()[key].status
                == ChunkStatus::Finished by {
                assert(chunk_state::has_key(self.listing(), key));
            }
            if ranges.len() > 0 {
                assert(range_set::in_range(ranges[0], ranges[0].start as int));
                assert(range_set::covered(ranges@, ranges[0].start as int));
            }
            assert forall|x: int| ranges.len() == 0 implies !#[trigger] self.available(x) by {
                assert(!range_set::covered(ranges@, x));
            }
        }
        ranges.len() == 0
    }

    /// There are chunks, all of them finished, and no byte of the content is
    /// available.
    pub open spec fn completed(&self) -> bool {
        &&& exists|key: Range<u64>| self.chunk_map().contains_key(key)
        &&& forall|key: Range<u64>| #[trigger]
            self.chunk_map().contains_key(key) ==> self.chunk_map()[key].status
                == ChunkStatus::Finished
        &&& forall|x: int| !#[trigger] self.available(x)
    }

    /// All chunks with their states, in the order of the listing.
    pub fn iter_chunks(&self) -> (states: Vec<&ChunkState>)
        ensures
            states.len() == self.listing().len(),
            forall|i: int|
                0 <= i < states.len() ==> *(#[trigger] states[i]) == self.listing()[i].1,
    {
        let mut states: Vec<&ChunkState> = Vec::with_capacity(self.chunks.len());
        let mut i: usize = 0;
        while i < self.chunks.len()
            invariant
                i <= self.listing().len(),
                states.len() == i,
                forall|j: int| 0 <= j < i ==> *(#[trigger] states[j]) == self.listing()[j].1,
            decreases self.listing().len() - i,
        {
            states.push(self.chunks.at(i));
            i = i + 1;
        }
        states
    }

    /// The first available range that is long enough, cut to the length.
    pub fn try_arrange_chunk_by_length(&self, length: u64) -> (range: Option<Range<u64>>)
        requires
            self.wf(),
        ensures
            exists|ranges: Seq<Range<u64>>| #[trigger]
                self.lists_available(ranges) && range == first_fit(ranges, length),
    {
        let ranges = self.get_available_ranges();
        assert(self.lists_available(ranges@));
        find_first_fit(&ranges, length)
    }

    /// The ascending ranges of what is available.
    pub open spec fn lists_available(&self, ranges: Seq<Range<u64>>) -> bool {
        &&& range_set::separated(ranges)
        &&& forall|x: int| #[trigger] range_set::covered(ranges, x) <==> self.available(x)
    }

    /// A chunk that a runner works on and that has at least a minimal chunk left.
    pub open spec fn divisible(&self, chunk: ChunkState) -> bool {
        &&& chunk.status == ChunkStatus::Running
        &&& chunk.runner_id is Some
        &&& chunk.left() >= self.min_chunk_size
    }

    /// Find a chunk to split or evict based on download progress. An available
    /// range comes first: the first that is long enough, cut to the size, or else
    /// the largest. Only where nothing is available, a running chunk with the most
    /// bytes left is chosen.
    pub fn find_chunk_to_split(&self, required_size: u64) -> (found: Option<
        (Option<RunnerId>, Range<u64>),
    >)
        requires
            self.wf(),
            self.split_fits(required_size),
        ensures
            self.found_to_split(required_size, found),
    {
        let ranges = self.get_available_ranges();
        assert(self.lists_available(ranges@));
        // First try to find a suitable available range
        if let Some(range) = find_best_available(&ranges, required_size) {
            proof {
                assert(range_set::in_range(ranges[0], ranges[0].start as int));
                assert(range_set::covered(ranges@, ranges[0].start as int));
                assert(self.available(ranges[0].start as int));
            }
            return Some((None, range));
        }
        proof {
            assert forall|x: int| !#[trigger] self.available(x) by {
                assert(!range_set::covered(ranges@, x));
            }
            chunk_state::entries_in_map(self.listing());
        }
        // Find the chunk with the most remaining work
        let mut best: Option<usize> = None;
        let mut i: usize = 0;
        while i < self.chunks.len()
            invariant
                self.wf(),
                i <= self.listing().len(),
                match best {
                    Some(b) => {
                        &&& b < i
                        &&& self.divisible(self.listing()[b as int].1)
                        &&& forall|j: int|
                            #![trigger self.listing()[j]]
                            0 <= j < i && self.divisible(self.listing()[j].1)
                                ==> self.listing()[j].1.left()
                                <= self.listing()[b as int].1.left()
                    },
                    None => forall|j: int|
                        0 <= j < i ==> !self.divisible((#[trigger] self.listing()[j]).1),
                },
            decreases self.listing().len() - i,
        {
            proof {
                chunk_state::entries_in_map(self.listing());
                assert(self.chunk_map().contains_key(self.listing()[i as int].0));
            }
            let chunk = self.chunks.at(i);
            if chunk.status == ChunkStatus::Running && chunk.runner_id.is_some()
                && chunk.remaining() >= self.min_chunk_size {
                let better = match best {
                    Some(b) => {
                        chunk.remaining() >= self.chunks.at(b).remaining()
                    },
                    None => true,
                };
                if better {
                    best = Some(i);
                }
            }
            i = i + 1;
        }
        match best {
            Some(b) => {
                let chunk = self.chunks.at(b);
                Some(
                    (
                        chunk.runner_id,
                        chunk.downloaded.end..chunk.downloaded.end + required_size,
                    ),
                )
            },
            None => {
                None
            },
        }
    }

    /// Whether the part that a running chunk would hand over does not lie beyond the
    /// end of the number range.
    pub fn can_split(&self, required_size: u64) -> (can: bool)
        requires
            self.wf(),
        ensures
            can == self.split_fits(required_size),
    {
        let ranges = self.get_available_ranges();
        if ranges.len() > 0 {
            proof {
                assert(range_set::in_range(ranges[0], ranges[0].start as int));
                assert(range_set::covered(ranges@, ranges[0].start as int));
                assert(self.available(ranges[0].start as int));
            }
            return true;
        }
        proof {
            assert forall|x: int| !#[trigger] self.available(x) by {
                assert(!range_set::covered(ranges@, x));
            }
        }
        let mut i: usize = 0;
        while i < self.chunks.len()
            invariant
                self.wf(),
                i <= self.listing().len(),
                forall|x: int| !#[trigger] self.available(x),
                forall|j: int|
                    #![trigger self.listing()[j]]
                    0 <= j < i && self.divisible(self.listing()[j].1)
                        ==> self.listing()[j].1.downloaded.end + required_size <= u64::MAX,
            decreases self.listing().len() - i,
        {
            proof {
                chunk_state::entries_in_map(self.listing());
                assert(self.chunk_map().contains_key(self.listing()[i as int].0));
            }
            let chunk = self.chunks.at(i);
            if chunk.status == ChunkStatus::Running && chunk.runner_id.is_some()
                && chunk.remaining() >= self.min_chunk_size && chunk.downloaded.end > u64::MAX
                - required_size {
                return false;
            }
            i = i + 1;
        }
        true
    }

    /// No other divisible chunk has more bytes left.
    pub open spec fn is_most_left(&self, key: Range<u64>) -> bool {
        &&& self.divisible(self.chunk_map()[key])
        &&& forall|other: Range<u64>| #[trigger]
            self.chunk_map().contains_key(other) && self.divisible(self.chunk_map()[other])
                ==> self.chunk_map()[other].left() <= self.chunk_map()[key].left()
    }
}

/// The runner of a chunk and the range that it still has to download.
pub open spec fn unfinished_part(chunk: ChunkState) -> (RunnerId, Range<u64>) {
    (chunk.runner_id->0, Range { start: chunk.downloaded.end, end: chunk.allocated.end })
}

proof fn progress_grows(planner: &ChunkPlanner, upto: int)
    requires
        planner.wf(),
        0 <= upto <= planner.listing().len(),
    ensures
        chunk_state::listed_progress(planner.listing().take(upto)) <= chunk_state::listed_progress(
            planner.listing().take(planner.listing().len() as int),
        ),
    decreases planner.listing().len() - upto,
{
    if upto < planner.listing().len() {
        progress_grows(planner, upto + 1);
        assert(planner.listing().take(upto + 1).drop_last() =~= planner.listing().take(upto));
        chunk_state::entries_in_map(planner.listing());
        assert(planner.chunk_map().contains_key(planner.listing()[upto].0));
    }
}

/// The first range that is long enough, cut to the length.
pub open spec fn first_fit(ranges: Seq<Range<u64>>, length: u64) -> Option<Range<u64>>
    decreases ranges.len(),
{
    if ranges.len() == 0 {
        None
    } else if range_set::range_len(ranges[0]) >= length {
        Some(Range { start: ranges[0].start, end: (ranges[0].start + length) as u64 })
    } else {
        first_fit(ranges.drop_first(), length)
    }
}

/// The first range that is long enough, cut to the length, or else the largest;
/// among several largest the last.
pub open spec fn is_best_available(
    ranges: Seq<Range<u64>>,
    required_size: u64,
    range: Range<u64>,
) -> bool {
    match first_fit(ranges, required_size) {
        Some(fit) => range == fit,
        None => exists|i: int|
            {
                &&& 0 <= i < ranges.len()
                &&& #[trigger] ranges[i] == range
                &&& forall|j: int|
                    0 <= j < ranges.len() ==> range_set::range_len(#[trigger] ranges[j])
                        <= range_set::range_len(range)
                &&& forall|j: int|
                    i < j < ranges.len() ==> range_set::range_len(#[trigger] ranges[j])
                        < range_set::range_len(range)
            },
    }
}

/// The first range that is long enough, cut to the length.
fn find_first_fit(ranges: &Vec<Range<u64>>, length: u64) -> (fit: Option<Range<u64>>)
    requires
        range_set::all_nonempty(ranges@),
    ensures
        fit == first_fit(ranges@, length),
{
    let mut i: usize = 0;
    assert(ranges@.skip(0) =~= ranges@);
    while i < ranges.len()
        invariant
            i <= ranges.len(),
            range_set::all_nonempty(ranges@),
            first_fit(ranges@, length) == first_fit(ranges@.skip(i as int), length),
        decreases ranges.len() - i,
    {
        let start = ranges[i].start;
        assert(ranges@[i as int].start < ranges@[i as int].end);
        if ranges[i].end - start >= length {
            return Some(start..start + length);
        }
        assert(ranges@.skip(i as int).drop_first() =~= ranges@.skip(i + 1));
        i = i + 1;
    }
    None
}

/// The first range that is long enough, cut to the size, or else the largest.
fn find_best_available(ranges: &Vec<Range<u64>>, required_size: u64) -> (best: Option<Range<u64>>)
    requires
        range_set::all_nonempty(ranges@),
    ensures
        match best {
            Some(range) => ranges.len() > 0 && is_best_available(ranges@, required_size, range),
            None => ranges.len() == 0,
        },
{
    if let Some(fit) = find_first_fit(ranges, required_size) {
        return Some(fit);
    }
    if ranges.len() == 0 {
        return None;
    }
    let mut best: usize = 0;
    let mut i: usize = 1;
    while i < ranges.len()
        invariant
            best < i <= ranges.len(),
            range_set::all_nonempty(ranges@),
            forall|j: int|
                0 <= j < i ==> range_set::range_len(#[trigger] ranges[j]) <= range_set::range_len(
                    ranges[best as int],
                ),
            forall|j: int|
                best < j < i ==> range_set::range_len(#[trigger] ranges[j]) < range_set::range_len(
                    ranges[best as int],
                ),
        decreases ranges.len() - i,
    {
        assert(ranges@[i as int].start < ranges@[i as int].end);
        assert(ranges@[best as int].start < ranges@[best as int].end);
        if ranges[best].end - ranges[best].start <= ranges[i].end - ranges[i].start {
            best = i;
        }
        i = i + 1;
    }
    let range = ranges[best].start..ranges[best].end;
    assert(ranges@[best as int] == range);
    Some(range)
}

impl Clone for ChunkPlanner {
    fn clone(&self) -> (planner: Self)
        ensures
            planner.same_plan(self),
            planner.listing() == self.listing(),
            self.wf() ==> planner.wf(),
    {
        ChunkPlanner {
            total: self.total,
            min_chunk_size: self.min_chunk_size,
            max_chunk_count: self.max_chunk_count,
            chunks: self.chunks.clone(),
            runner_to_chunk: self.runner_to_chunk.clone(),
        }
    }
}

/// Where the downloaded part ends after some more bytes.
pub open spec fn advanced_end(chunk: ChunkState, bytes: u64) -> u64 {
    if chunk.downloaded.end + bytes <= chunk.allocated.end {
        (chunk.downloaded.end + bytes) as u64
    } else {
        chunk.allocated.end
    }
}

/// The range of the bytes that count when some more arrive.
pub open spec fn advance_range(chunk: ChunkState, bytes: u64) -> Range<u64> {
    Range { start: chunk.downloaded.end, end: advanced_end(chunk, bytes) }
}

/// The chunk after some more bytes; a full chunk is finished.
pub open spec fn advanced(chunk: ChunkState, bytes: u64) -> ChunkState {
    ChunkState {
        downloaded: Range { start: chunk.downloaded.start, end: advanced_end(chunk, bytes) },
        status: if advanced_end(chunk, bytes) >= chunk.allocated.end {
            ChunkStatus::Finished
        } else {
            chunk.status
        },
        ..chunk
    }
}

/// There is room for a chunk: its range holds bytes of the content, overlaps no chunk,
/// and the number of chunks is below the limit.
pub open spec fn room_for(
    total: u64,
    max_chunk_count: Option<usize>,
    chunks: Map<Range<u64>, ChunkState>,
    range: Range<u64>,
) -> bool {
    &&& range.start < range.end
    &&& range.end <= total
    &&& max_chunk_count matches Some(max) ==> chunks.dom().len() < max
    &&& forall|key: Range<u64>| #[trigger]
        chunks.contains_key(key) ==> !range_set::ranges_overlap(key, range)
}

/// The chunks when one of them is made to end elsewhere.
pub open spec fn with_end(
    chunks: Map<Range<u64>, ChunkState>,
    key: Range<u64>,
    end: u64,
) -> Map<Range<u64>, ChunkState> {
    let resized = Range { start: key.start, end };
    chunks.remove(key).insert(resized, ChunkState { allocated: resized, ..chunks[key] })
}

/// The chunks when one of them is given up: its downloaded part stays as a
/// finished chunk without a runner, where there is any.
pub open spec fn released(
    chunks: Map<Range<u64>, ChunkState>,
    chunk: ChunkState,
) -> Map<Range<u64>, ChunkState> {
    let rest = chunks.remove(chunk.allocated);
    if chunk.downloaded.start == chunk.downloaded.end {
        rest
    } else {
        let kept = Range { start: chunk.allocated.start, end: chunk.downloaded.end };
        rest.insert(
            kept,
            ChunkState {
                allocated: kept,
                downloaded: chunk.downloaded,
                runner_id: None,
                status: ChunkStatus::Finished,
            },
        )
    }
}

} // verus!

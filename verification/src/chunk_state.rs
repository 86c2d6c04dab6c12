//! The state of one chunk of the file, and the table that holds the chunks.
use crate::RunnerId;
use std::ops::Range;
use vstd::prelude::*;

verus! {

/// What a chunk is doing.
#[derive(Clone, Copy, Debug, PartialEq, Eq, Structural)]
pub enum ChunkStatus {
    /// Chunk is allocated but no runner assigned.
    Idle,
    /// Runner is actively downloading.
    Running,
    /// Chunk is pending for creation of a runner, connecting to the server, etc.
    Pending,
    /// Runner finished downloading this chunk.
    Finished,
    /// Runner failed, chunk may be reassigned.
    Failed,
}

impl ChunkStatus {
    /// A runner is working on the chunk, or is about to.
    pub open spec fn active(self) -> bool {
        self == ChunkStatus::Running || self == ChunkStatus::Pending
    }

    /// Whether a runner is working on the chunk, or is about to.
    pub fn is_active(&self) -> (active: bool)
        ensures
            active == self.active(),
    {
        matches!(self, ChunkStatus::Running | ChunkStatus::Pending)
    }
}

/// Unified chunk state that tracks both allocation and download progress.
#[derive(Debug)]
pub struct ChunkState {
    /// The originally allocated range for this chunk.
    pub allocated: Range<u64>,
    /// The currently downloaded range within the allocated range.
    pub downloaded: Range<u64>,
    /// The runner ID assigned to this chunk (if any).
    pub runner_id: Option<RunnerId>,
    /// Runner status.
    pub status: ChunkStatus,
}

impl Clone for ChunkState {
    fn clone(&self) -> (state: Self)
        ensures
            state == *self,
    {
        ChunkState {
            allocated: self.allocated.start..self.allocated.end,
            downloaded: self.downloaded.start..self.downloaded.end,
            runner_id: self.runner_id,
            status: self.status,
        }
    }
}

/// A chunk of which nothing has been downloaded.
pub open spec fn fresh_chunk(
    allocated: Range<u64>,
    runner_id: Option<RunnerId>,
    status: ChunkStatus,
) -> ChunkState {
    ChunkState {
        allocated,
        downloaded: Range { start: allocated.start, end: allocated.start },
        runner_id,
        status,
    }
}

impl ChunkState {
    /// The downloaded part is a prefix of the allocated range.
    pub open spec fn valid(self) -> bool {
        self.allocated.start == self.downloaded.start <= self.downloaded.end <= self.allocated.end
    }

    /// Bytes downloaded so far.
    pub open spec fn progress(self) -> int {
        self.downloaded.end - self.downloaded.start
    }

    /// Bytes still to download.
    pub open spec fn left(self) -> int {
        self.allocated.end - self.downloaded.end
    }

    /// A running chunk where a runner is given, an idle one otherwise.
    pub fn from_runner_id(allocated: Range<u64>, runner_id: Option<RunnerId>) -> (state: Self)
        ensures
            state == match runner_id {
                Some(id) => fresh_chunk(allocated, Some(id), ChunkStatus::Running),
                None => fresh_chunk(allocated, None, ChunkStatus::Idle),
            },
    {
        match runner_id {
            Some(runner_id) => Self::new_running(allocated, runner_id),
            None => Self::new_idle(allocated),
        }
    }

    /// A chunk of which nothing has been downloaded.
    pub fn new(allocated: Range<u64>, runner_id: Option<RunnerId>, status: ChunkStatus) -> (state:
        Self)
        ensures
            state == fresh_chunk(allocated, runner_id, status),
    {
        let start = allocated.start;
        ChunkState { allocated, downloaded: start..start, runner_id, status }
    }

    /// Create a new chunk state with the idle status.
    pub fn new_idle(allocated: Range<u64>) -> (state: Self)
        ensures
            state == fresh_chunk(allocated, None, ChunkStatus::Idle),
    {
        Self::new(allocated, None, ChunkStatus::Idle)
    }

    /// Create a new chunk state with the running status.
    pub fn new_running(allocated: Range<u64>, runner_id: RunnerId) -> (state: Self)
        ensures
            state == fresh_chunk(allocated, Some(runner_id), ChunkStatus::Running),
    {
        Self::new(allocated, Some(runner_id), ChunkStatus::Running)
    }

    /// Create a new chunk state with the pending status.
    pub fn new_pending(allocated: Range<u64>, runner_id: RunnerId) -> (state: Self)
        ensures
            state == fresh_chunk(allocated, Some(runner_id), ChunkStatus::Pending),
    {
        Self::new(allocated, Some(runner_id), ChunkStatus::Pending)
    }

    /// Update the status of the chunk and return the previous one.
    pub fn update_status(&mut self, new_status: ChunkStatus) -> (previous: ChunkStatus)
        ensures
            previous == old(self).status,
            *final(self) == (ChunkState { status: new_status, ..*old(self) }),
    {
        let previous = self.status;
        self.status = new_status;
        previous
    }

    /// Get the remaining bytes to download.
    pub fn remaining(&self) -> (bytes: u64)
        requires
            self.downloaded.end <= self.allocated.end,
        ensures
            bytes == self.left(),
    {
        self.allocated.end - self.downloaded.end
    }

    /// Get the incomplete range.
    pub fn incomplete_range(&self) -> (range: Range<u64>)
        ensures
            range == (Range { start: self.downloaded.end, end: self.allocated.end }),
    {
        self.downloaded.end..self.allocated.end
    }

    /// Check if download is complete.
    pub fn is_complete(&self) -> (complete: bool)
        ensures
            complete == (self.downloaded.end >= self.allocated.end),
    {
        self.downloaded.end >= self.allocated.end
    }
}

/// No two entries have the same key.
pub open spec fn distinct_keys(entries: Seq<(Range<u64>, ChunkState)>) -> bool {
    forall|i: int, j: int|
        0 <= i < j < entries.len() ==> (#[trigger] entries[i]).0 != (#[trigger] entries[j]).0
}

/// Some entry has the key.
pub open spec fn has_key(entries: Seq<(Range<u64>, ChunkState)>, key: Range<u64>) -> bool {
    exists|i: int| 0 <= i < entries.len() && (#[trigger] entries[i]).0 == key
}

/// The entries as a map from key to state.
pub open spec fn as_map(entries: Seq<(Range<u64>, ChunkState)>) -> Map<Range<u64>, ChunkState> {
    Map::new(
        |key: Range<u64>| has_key(entries, key),
        |key: Range<u64>|
            entries[choose|i: int| 0 <= i < entries.len() && (#[trigger] entries[i]).0 == key].1,
    )
}

/// Each entry is what the map holds under its key.
pub proof fn entries_in_map(entries: Seq<(Range<u64>, ChunkState)>)
    requires
        distinct_keys(entries),
    ensures
        forall|i: int|
            0 <= i < entries.len() ==> as_map(entries).contains_key((#[trigger] entries[i]).0)
                && as_map(entries)[entries[i].0] == entries[i].1,
{
    assert forall|i: int| 0 <= i < entries.len() implies as_map(entries).contains_key(
        (#[trigger] entries[i]).0,
    ) && as_map(entries)[entries[i].0] == entries[i].1 by {
        let key = entries[i].0;
        let k = choose|k: int| 0 <= k < entries.len() && (#[trigger] entries[k]).0 == key;
        if k < i {
            assert(entries[k].0 != entries[i].0);
        } else if i < k {
            assert(entries[i].0 != entries[k].0);
        }
    }
}

/// Replacing the state of an entry replaces what the map holds under its key.
pub proof fn replace_state(entries: Seq<(Range<u64>, ChunkState)>, i: int, state: ChunkState)
    requires
        distinct_keys(entries),
        0 <= i < entries.len(),
    ensures
        distinct_keys(entries.update(i, (entries[i].0, state))),
        as_map(entries.update(i, (entries[i].0, state))) == as_map(entries).insert(
            entries[i].0,
            state,
        ),
{
    let key = entries[i].0;
    let after = entries.update(i, (key, state));
    assert forall|a: int, b: int| 0 <= a < b < after.len() implies (#[trigger] after[a]).0 != (
    #[trigger] after[b]).0 by {
        assert(after[a].0 == entries[a].0 && after[b].0 == entries[b].0);
    }
    entries_in_map(entries);
    entries_in_map(after);
    assert forall|k: Range<u64>| has_key(after, k) == has_key(entries, k) by {
        if has_key(entries, k) {
            let j = choose|j: int| 0 <= j < entries.len() && (#[trigger] entries[j]).0 == k;
            assert(after[j].0 == k);
        }
        if has_key(after, k) {
            let j = choose|j: int| 0 <= j < after.len() && (#[trigger] after[j]).0 == k;
            assert(entries[j].0 == k);
        }
    }
    assert forall|k: Range<u64>| has_key(after, k) && k != key implies as_map(after)[k] == as_map(
        entries,
    )[k] by {
        let j = choose|j: int| 0 <= j < after.len() && (#[trigger] after[j]).0 == k;
        assert(entries[j] == after[j]);
    }
    assert(after[i].0 == key);
    assert(as_map(after) =~= as_map(entries).insert(key, state));
}

/// An entry with a new key adds that key to the map.
pub proof fn push_entry(
    entries: Seq<(Range<u64>, ChunkState)>,
    key: Range<u64>,
    state: ChunkState,
)
    requires
        distinct_keys(entries),
        !has_key(entries, key),
    ensures
        distinct_keys(entries.push((key, state))),
        as_map(entries.push((key, state))) == as_map(entries).insert(key, state),
{
    let after = entries.push((key, state));
    assert forall|i: int, j: int| 0 <= i < j < after.len() implies (#[trigger] after[i]).0 != (
    #[trigger] after[j]).0 by {
        assert(after[i] == entries[i]);
        if j < entries.len() {
            assert(after[j] == entries[j]);
        }
    }
    entries_in_map(entries);
    entries_in_map(after);
    assert(after[entries.len() as int] == (key, state));
    assert forall|k: Range<u64>| has_key(after, k) == (has_key(entries, k) || k == key) by {
        if has_key(entries, k) {
            let j = choose|j: int| 0 <= j < entries.len() && (#[trigger] entries[j]).0 == k;
            assert(after[j].0 == k);
        }
        if has_key(after, k) {
            let j = choose|j: int| 0 <= j < after.len() && (#[trigger] after[j]).0 == k;
            if j < entries.len() {
                assert(entries[j].0 == k);
            }
        }
    }
    assert forall|k: Range<u64>| has_key(entries, k) implies as_map(after)[k] == as_map(
        entries,
    )[k] by {
        let j = choose|j: int| 0 <= j < entries.len() && (#[trigger] entries[j]).0 == k;
        assert(after[j] == entries[j]);
    }
    assert(as_map(after) =~= as_map(entries).insert(key, state));
}

/// The bytes downloaded in all chunks together.
pub open spec fn total_progress(chunks: Map<Range<u64>, ChunkState>) -> int
    decreases chunks.dom().len(),
    when chunks.dom().finite()
{
    if chunks.dom().len() == 0 {
        0
    } else {
        let key = chunks.dom().choose();
        chunks[key].progress() + total_progress(chunks.remove(key))
    }
}

/// The keys of the chunks that are running or pending.
pub open spec fn active_keys(chunks: Map<Range<u64>, ChunkState>) -> Set<Range<u64>> {
    chunks.dom().filter(|key: Range<u64>| chunks[key].status.active())
}

/// The sum splits at any chunk.
pub proof fn total_progress_splits(chunks: Map<Range<u64>, ChunkState>, key: Range<u64>)
    requires
        chunks.dom().finite(),
        chunks.contains_key(key),
    ensures
        total_progress(chunks) == chunks[key].progress() + total_progress(chunks.remove(key)),
    decreases chunks.dom().len(),
{
    let first = chunks.dom().choose();
    assert(chunks.dom().contains(first));
    if first != key {
        let without_first = chunks.remove(first);
        let without_key = chunks.remove(key);
        total_progress_splits(without_first, key);
        total_progress_splits(without_key, first);
        assert(without_first.remove(key) =~= without_key.remove(first));
    }
}

/// The sum when the chunk under a key is put in place of another, or added.
pub proof fn total_progress_insert(
    chunks: Map<Range<u64>, ChunkState>,
    key: Range<u64>,
    state: ChunkState,
)
    requires
        chunks.dom().finite(),
    ensures
        total_progress(chunks.insert(key, state)) == total_progress(chunks.remove(key))
            + state.progress(),
        chunks.contains_key(key) ==> total_progress(chunks.remove(key)) == total_progress(chunks)
            - chunks[key].progress(),
        !chunks.contains_key(key) ==> total_progress(chunks.remove(key)) == total_progress(chunks),
{
    let after = chunks.insert(key, state);
    total_progress_splits(after, key);
    assert(after.remove(key) =~= chunks.remove(key));
    if chunks.contains_key(key) {
        total_progress_splits(chunks, key);
    } else {
        assert(chunks.remove(key) =~= chunks);
    }
}

/// Bytes downloaded in the entries of a listing.
pub open spec fn listed_progress(entries: Seq<(Range<u64>, ChunkState)>) -> int
    decreases entries.len(),
{
    if entries.len() == 0 {
        0
    } else {
        listed_progress(entries.drop_last()) + entries.last().1.progress()
    }
}

/// The number of active chunks in a listing.
pub open spec fn listed_active(entries: Seq<(Range<u64>, ChunkState)>) -> nat
    decreases entries.len(),
{
    if entries.len() == 0 {
        0
    } else {
        listed_active(entries.drop_last()) + if entries.last().1.status.active() {
            1nat
        } else {
            0nat
        }
    }
}

/// A listing and its map have the same size, the same sum and as many active
/// chunks.
pub proof fn listing_measures(entries: Seq<(Range<u64>, ChunkState)>)
    requires
        distinct_keys(entries),
    ensures
        as_map(entries).dom().finite(),
        as_map(entries).dom().len() == entries.len(),
        listed_progress(entries) == total_progress(as_map(entries)),
        active_keys(as_map(entries)).finite(),
        listed_active(entries) == active_keys(as_map(entries)).len(),
    decreases entries.len(),
{
    if entries.len() == 0 {
        assert(as_map(entries) =~= Map::<Range<u64>, ChunkState>::empty());
        assert(active_keys(as_map(entries)) =~= Set::<Range<u64>>::empty());
    } else {
        let rest = entries.drop_last();
        let (key, state) = entries.last();
        assert forall|i: int, j: int| 0 <= i < j < rest.len() implies (#[trigger] rest[i]).0 != (
        #[trigger] rest[j]).0 by {
            assert(entries[i].0 != entries[j].0);
        }
        listing_measures(rest);
        assert(!has_key(rest, key)) by {
            if has_key(rest, key) {
                let j = choose|j: int| 0 <= j < rest.len() && (#[trigger] rest[j]).0 == key;
                assert(entries[j].0 != entries[entries.len() - 1].0);
            }
        }
        push_entry(rest, key, state);
        assert(rest.push((key, state)) =~= entries);
        total_progress_insert(as_map(rest), key, state);
        let before = active_keys(as_map(rest));
        let after = active_keys(as_map(entries));
        if state.status.active() {
            assert(after =~= before.insert(key));
        } else {
            assert(after =~= before);
        }
    }
}

/// The chunks of a file, each under the range by which it is found again.
#[derive(Debug)]
pub struct ChunkTable {
    entries: Vec<(Range<u64>, ChunkState)>,
}

impl View for ChunkTable {
    type V = Map<Range<u64>, ChunkState>;

    open spec fn view(&self) -> Map<Range<u64>, ChunkState> {
        as_map(self.listed())
    }
}

impl ChunkTable {
    /// The entries in the order in which they are listed.
    pub closed spec fn listed(&self) -> Seq<(Range<u64>, ChunkState)> {
        self.entries@
    }

    /// Each key occurs once.
    pub open spec fn wf(&self) -> bool {
        distinct_keys(self.listed())
    }

    /// A table without chunks.
    pub fn new() -> (table: Self)
        ensures
            table.wf(),
            table.listed() == Seq::<(Range<u64>, ChunkState)>::empty(),
            table@ == Map::<Range<u64>, ChunkState>::empty(),
    {
        let table = ChunkTable { entries: Vec::new() };
        assert(table@ =~= Map::<Range<u64>, ChunkState>::empty());
        table
    }

    /// The number of chunks.
    pub fn len(&self) -> (count: usize)
        ensures
            count == self.listed().len(),
    {
        self.entries.len()
    }

    /// The chunk listed at a position.
    pub fn at(&self, index: usize) -> (state: &ChunkState)
        requires
            index < self.listed().len(),
        ensures
            *state == self.listed()[index as int].1,
    {
        &self.entries[index].1
    }

    /// The key listed at a position.
    pub fn key_at(&self, index: usize) -> (key: Range<u64>)
        requires
            index < self.listed().len(),
        ensures
            key == self.listed()[index as int].0,
    {
        let key = &self.entries[index].0;
        key.start..key.end
    }

    /// The position of a key.
    fn position(&self, key: &Range<u64>) -> (index: Option<usize>)
        ensures
            match index {
                Some(i) => i < self.listed().len() && self.listed()[i as int].0 == *key,
                None => !has_key(self.listed(), *key),
            },
    {
        let mut i: usize = 0;
        while i < self.entries.len()
            invariant
                i <= self.entries.len(),
                forall|j: int| 0 <= j < i ==> (#[trigger] self.entries[j]).0 != *key,
            decreases self.entries.len() - i,
        {
            let entry = &self.entries[i];
            if entry.0.start == key.start && entry.0.end == key.end {
                return Some(i);
            }
            i = i + 1;
        }
        None
    }

    /// The chunk under a key.
    pub fn get(&self, key: &Range<u64>) -> (state: Option<&ChunkState>)
        requires
            self.wf(),
        ensures
            match state {
                Some(s) => self@.contains_key(*key) && self@[*key] == *s,
                None => !self@.contains_key(*key),
            },
    {
        match self.position(key) {
            Some(i) => Some(&self.entries[i].1),
            None => None,
        }
    }

    /// Mutable access to the chunk under a key.
    pub fn get_mut(&mut self, key: &Range<u64>) -> (state: Option<&mut ChunkState>)
        requires
            old(self).wf(),
        ensures
            match state {
                Some(s) => {
                    &&& old(self)@.contains_key(*key)
                    &&& *s == old(self)@[*key]
                    &&& final(self).wf()
                    &&& final(self)@ == old(self)@.insert(*key, *final(s))
                    &&& final(self).listed().len() == old(self).listed().len()
                },
                None => !old(self)@.contains_key(*key) && *final(self) == *old(self),
            },
    {
        match self.position(key) {
            Some(i) => {
                proof {
                    let before = self.listed();
                    assert forall|state: ChunkState|
                        distinct_keys(#[trigger] before.update(i as int, (*key, state))) && as_map(
                            before.update(i as int, (*key, state)),
                        ) == as_map(before).insert(*key, state) by {
                        replace_state(before, i as int, state);
                    }
                }
                Some(&mut self.entries[i].1)
            },
            None => None,
        }
    }

    /// Put a chunk under a key, in place of the one that was there.
    pub fn insert(&mut self, key: Range<u64>, state: ChunkState)
        requires
            old(self).wf(),
        ensures
            final(self).wf(),
            final(self)@ == old(self)@.insert(key, state),
            final(self).listed().len() == old(self).listed().len() + (if old(self)@.contains_key(
                key,
            ) {
                0int
            } else {
                1int
            }),
    {
        let ghost before = self.listed();
        match self.position(&key) {
            Some(i) => {
                self.entries[i] = (key, state);
                proof {
                    replace_state(before, i as int, state);
                    assert(self.listed() =~= before.update(i as int, (key, state)));
                }
            },
            None => {
                self.entries.push((key, state));
                proof {
                    push_entry(before, key, state);
                    assert(self.listed() =~= before.push((key, state)));
                }
            },
        }
    }

    /// Take out the chunk under a key.
    pub fn remove(&mut self, key: &Range<u64>) -> (state: Option<ChunkState>)
        requires
            old(self).wf(),
        ensures
            final(self).wf(),
            final(self)@ == old(self)@.remove(*key),
            match state {
                Some(s) => {
                    &&& old(self)@.contains_key(*key)
                    &&& old(self)@[*key] == s
                    &&& final(self).listed().len() + 1 == old(self).listed().len()
                },
                None => !old(self)@.contains_key(*key) && *final(self) == *old(self),
            },
    {
        let ghost before = self.listed();
        match self.position(key) {
            Some(i) => {
                let (_, state) = self.entries.remove(i);
                proof {
                    let after = self.listed();
                    assert(after == before.remove(i as int));
                    assert forall|a: int, b: int| 0 <= a < b < after.len() implies (
                    #[trigger] after[a]).0 != (#[trigger] after[b]).0 by {
                        let a0 = if a < i { a } else { a + 1 };
                        let b0 = if b < i { b } else { b + 1 };
                        assert(after[a] == before[a0]);
                        assert(after[b] == before[b0]);
                    }
                    entries_in_map(after);
                    assert forall|k: Range<u64>| has_key(after, k) == (has_key(before, k) && k
                        != *key) by {
                        if has_key(before, k) && k != *key {
                            let j = choose|j: int|
                                0 <= j < before.len() && (#[trigger] before[j]).0 == k;
                            let j0 = if j < i { j } else { j - 1 };
                            assert(after[j0].0 == k);
                        }
                        if has_key(after, k) {
                            let j = choose|j: int|
                                0 <= j < after.len() && (#[trigger] after[j]).0 == k;
                            let j0 = if j < i { j } else { j + 1 };
                            assert(before[j0].0 == k);
                            assert(before[i as int].0 == *key);
                        }
                    }
                    assert forall|k: Range<u64>| has_key(after, k) implies as_map(after)[k]
                        == as_map(before)[k] by {
                        let j = choose|j: int| 0 <= j < after.len() && (#[trigger] after[j]).0 == k;
                        let j0 = if j < i { j } else { j + 1 };
                        assert(before[j0] == after[j]);
                    }
                    assert(self@ =~= old(self)@.remove(*key));
                }
                Some(state)
            },
            None => {
                None
            },
        }
    }
}

impl Clone for ChunkTable {
    fn clone(&self) -> (table: Self)
        ensures
            table.listed() == self.listed(),
    {
        let mut entries: Vec<(Range<u64>, ChunkState)> = Vec::with_capacity(self.entries.len());
        let mut i: usize = 0;
        while i < self.entries.len()
            invariant
                i <= self.entries.len(),
                entries@ == self.entries@.take(i as int),
            decreases self.entries.len() - i,
        {
            let entry = &self.entries[i];
            entries.push((entry.0.start..entry.0.end, entry.1.clone()));
            assert(entries@ =~= self.entries@.take(i + 1));
            i = i + 1;
        }
        assert(entries@ =~= self.entries@);
        ChunkTable { entries }
    }
}

} // verus!

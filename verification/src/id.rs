//! Efficient ID generation for runners.
//!
//! IDs below a fixed capacity are handed out and taken back. A bit per ID records
//! which are in use, and a hint tells where the search for a free one starts.
use bitvec::vec::BitVec;
use vstd::prelude::*;

verus! {

/// A bit vector of the `bitvec` crate. Its storage is opaque to the verifier.
#[verifier::external_body]
pub struct BitFlags {
    inner: BitVec,
}

/// The bits of a bit vector, in order.
pub uninterp spec fn bits(flags: BitFlags) -> Seq<bool>;

impl BitFlags {
    /// Calls `BitVec::repeat` with a cleared bit: `len` bits, all of them clear.
    /// The crate panics where `len` exceeds the number of bits that it can
    /// address, an eighth of the address space.
    #[verifier::external_body]
    fn cleared(len: usize) -> (flags: BitFlags)
        requires
            len <= usize::MAX / 8,
        ensures
            bits(flags) == Seq::new(len as nat, |i: int| false),
    {
        BitFlags { inner: BitVec::repeat(false, len) }
    }

    /// Calls `BitVec::len`: the number of bits.
    #[verifier::external_body]
    fn len(&self) -> (len: usize)
        ensures
            len == bits(*self).len(),
    {
        self.inner.len()
    }

    /// Indexes the bit vector: the bit at a position. The crate panics behind the
    /// end.
    #[verifier::external_body]
    fn get(&self, index: usize) -> (bit: bool)
        requires
            index < bits(*self).len(),
        ensures
            bit == bits(*self)[index as int],
    {
        self.inner[index]
    }

    /// Calls `BitSlice::set`: the bit at a position is replaced. The crate panics
    /// behind the end.
    #[verifier::external_body]
    fn set(&mut self, index: usize, value: bool)
        requires
            index < bits(*old(self)).len(),
        ensures
            bits(*final(self)) == bits(*old(self)).update(index as int, value),
    {
        self.inner.set(index, value)
    }

    /// Calls `BitSlice::fill`: every bit is replaced.
    #[verifier::external_body]
    fn fill(&mut self, value: bool)
        ensures
            bits(*final(self)) == Seq::new(bits(*old(self)).len(), |i: int| value),
    {
        self.inner.fill(value)
    }
}

/// The number of set bits.
pub open spec fn count_set(flags: Seq<bool>) -> nat
    decreases flags.len(),
{
    if flags.len() == 0 {
        0
    } else {
        count_set(flags.drop_last()) + if flags.last() {
            1nat
        } else {
            0nat
        }
    }
}

/// Setting or clearing one bit changes the count by one.
pub proof fn count_set_update(flags: Seq<bool>, index: int, value: bool)
    requires
        0 <= index < flags.len(),
    ensures
        count_set(flags.update(index, value)) == count_set(flags) + (if value {
            1int
        } else {
            0int
        }) - (if flags[index] {
            1int
        } else {
            0int
        }),
    decreases flags.len(),
{
    let after = flags.update(index, value);
    if index == flags.len() - 1 {
        assert(after.drop_last() =~= flags.drop_last());
    } else {
        count_set_update(flags.drop_last(), index, value);
        assert(after.drop_last() =~= flags.drop_last().update(index, value));
    }
}

/// The count is at most the length, and below it exactly where a bit is clear.
pub proof fn count_set_bounds(flags: Seq<bool>)
    ensures
        count_set(flags) <= flags.len(),
        count_set(flags) == flags.len() <==> forall|i: int|
            0 <= i < flags.len() ==> #[trigger] flags[i],
        count_set(flags) == 0 <==> forall|i: int|
            0 <= i < flags.len() ==> !#[trigger] flags[i],
    decreases flags.len(),
{
    if flags.len() > 0 {
        let rest = flags.drop_last();
        count_set_bounds(rest);
        assert(forall|i: int| 0 <= i < rest.len() ==> rest[i] == #[trigger] flags[i]);
        assert(flags[flags.len() - 1] == flags.last());
        if forall|i: int| 0 <= i < rest.len() ==> #[trigger] rest[i] {
            if flags.last() {
                assert forall|i: int| 0 <= i < flags.len() implies #[trigger] flags[i] by {
                    if i < rest.len() {
                        assert(rest[i]);
                    }
                }
            }
        }
        if forall|i: int| 0 <= i < flags.len() ==> #[trigger] flags[i] {
            assert forall|i: int| 0 <= i < rest.len() implies #[trigger] rest[i] by {
                assert(flags[i]);
            }
        }
        if forall|i: int| 0 <= i < rest.len() ==> !#[trigger] rest[i] {
            if !flags.last() {
                assert forall|i: int| 0 <= i < flags.len() implies !#[trigger] flags[i] by {
                    if i < rest.len() {
                        assert(!rest[i]);
                    }
                }
            }
        }
        if forall|i: int| 0 <= i < flags.len() ==> !#[trigger] flags[i] {
            assert forall|i: int| 0 <= i < rest.len() implies !#[trigger] rest[i] by {
                assert(!flags[i]);
            }
        }
    }
}

/// The first clear bit at or behind `from`, searched around the end, `steps` bits
/// at most.
pub open spec fn next_free(flags: Seq<bool>, from: int, steps: int) -> Option<int>
    decreases steps,
{
    if steps <= 0 || flags.len() == 0 {
        None
    } else {
        let index = from % (flags.len() as int);
        if !flags[index] {
            Some(index)
        } else {
            next_free(flags, from + 1, steps - 1)
        }
    }
}

/// Efficient ID generator for managing task ID allocation.
///
/// Uses a bit vector to track ID usage and maintains a hint pointer for
/// performance optimization.
pub struct Generator {
    /// Bit vector for tracking ID usage status.
    pub bitvec: BitFlags,
    /// Hint pointer to the next possible free position for search optimization.
    pub next_free_hint: usize,
    /// Current count of allocated IDs.
    pub allocated_count: usize,
}

impl Generator {
    /// Which IDs are in use.
    pub open spec fn used(&self) -> Seq<bool> {
        bits(self.bitvec)
    }

    /// The count is that of the IDs in use, the hint is an ID, and all IDs below it are
    /// in use.
    pub open spec fn wf(&self) -> bool {
        &&& self.used().len() <= usize::MAX / 8
        &&& self.allocated_count == count_set(self.used())
        &&& self.next_free_hint < self.used().len() || self.next_free_hint == 0
        &&& forall|i: int| 0 <= i < self.next_free_hint ==> #[trigger] self.used()[i]
    }

    /// Create a new ID generator with specified capacity.
    pub fn new(capacity: usize) -> (generator: Self)
        requires
            capacity <= usize::MAX / 8,
        ensures
            generator.wf(),
            generator.used() == Seq::new(capacity as nat, |i: int| false),
            generator.next_free_hint == 0,
    {
        let generator = Generator {
            bitvec: BitFlags::cleared(capacity),
            next_free_hint: 0,
            allocated_count: 0,
        };
        proof {
            count_set_bounds(generator.used());
        }
        generator
    }

    /// Get the next available ID: the first free one at or behind the hint, which is
    /// the smallest free one. `None` where all IDs are allocated.
    pub fn next(&mut self) -> (id: Option<usize>)
        requires
            old(self).wf(),
        ensures
            final(self).wf(),
            id is None <==> forall|i: int|
                0 <= i < old(self).used().len() ==> #[trigger] old(self).used()[i],
            match id {
                Some(index) => {
                    &&& next_free(
                        old(self).used(),
                        old(self).next_free_hint as int,
                        old(self).used().len() as int,
                    ) == Some(index as int)
                    &&& index < old(self).used().len()
                    &&& !old(self).used()[index as int]
                    &&& forall|i: int| 0 <= i < index ==> #[trigger] old(self).used()[i]
                    &&& final(self).used() == old(self).used().update(index as int, true)
                    &&& final(self).next_free_hint == (index + 1) % (old(self).used().len() as int)
                },
                None => *final(self) == *old(self),
            },
    {
        proof {
            count_set_bounds(self.used());
        }
        // Quick check if full
        if self.allocated_count >= self.bitvec.len() {
            return None;
        }
        // Search starting from hint position
        let capacity: usize = self.bitvec.len();
        let mut i: usize = 0;
        while i < capacity
            invariant
                *self == *old(self),
                self.wf(),
                capacity == self.used().len(),
                capacity > 0,
                i <= capacity,
                next_free(self.used(), self.next_free_hint as int, capacity as int) == next_free(
                    self.used(),
                    self.next_free_hint + i,
                    capacity - i,
                ),
                forall|j: int|
                    0 <= j < i ==> self.used()[#[trigger] wrapped(self.next_free_hint + j, capacity as int)],
            decreases capacity - i,
        {
            let index: usize = (self.next_free_hint + i) % capacity;
            assert(index == wrapped(self.next_free_hint + i, capacity as int));
            if !self.bitvec.get(index) {
                proof {
                    smallest_free(
                        self.used(),
                        self.next_free_hint as int,
                        i as int,
                        index as int,
                    );
                    count_set_update(self.used(), index as int, true);
                    count_set_bounds(self.used());
                    count_set_bounds(self.used().update(index as int, true));
                }
                self.bitvec.set(index, true);
                self.allocated_count = self.allocated_count + 1;
                // Update hint pointer to next possible position
                self.next_free_hint = (index + 1) % capacity;
                assert(self.next_free_hint == if index + 1 < capacity {
                    index + 1
                } else {
                    0
                }) by (nonlinear_arith)
                    requires
                        self.next_free_hint == (index + 1) % (capacity as int),
                        0 <= index < capacity,
                ;
                return Some(index);
            }
            i = i + 1;
        }
        proof {
            assert forall|k: int| 0 <= k < self.used().len() implies #[trigger] self.used()[k] by {
                let hint = self.next_free_hint as int;
                let j = if k >= hint {
                    k - hint
                } else {
                    k - hint + capacity
                };
                assert(wrapped(hint + j, capacity as int) == k) by (nonlinear_arith)
                    requires
                        wrapped(hint + j, capacity as int) == (hint + j) % (capacity as int),
                        0 <= k < capacity,
                        hint + j == k || hint + j == k + capacity,
                        capacity > 0,
                ;
            }
        }
        None
    }

    /// Release the specified ID, making it available for reallocation. `false`
    /// where the ID is invalid or already free.
    pub fn release(&mut self, id: usize) -> (released: bool)
        requires
            old(self).wf(),
        ensures
            final(self).wf(),
            released == (id < old(self).used().len() && old(self).used()[id as int]),
            released ==> final(self).used() == old(self).used().update(id as int, false),
            released ==> final(self).next_free_hint == if id < old(self).next_free_hint {
                id
            } else {
                old(self).next_free_hint
            },
            !released ==> *final(self) == *old(self),
    {
        if id >= self.bitvec.len() {
            return false;
        }
        if self.bitvec.get(id) {
            proof {
                count_set_update(self.used(), id as int, false);
                count_set_bounds(self.used());
            }
            self.bitvec.set(id, false);
            self.allocated_count = self.allocated_count - 1;
            // Update hint pointer to optimize next allocation
            if id < self.next_free_hint {
                self.next_free_hint = id;
            }
            true
        } else {
            false
        }
    }

    /// Check if the specified ID is allocated.
    pub fn is_allocated(&self, id: usize) -> (allocated: bool)
        ensures
            allocated == (id < self.used().len() && self.used()[id as int]),
    {
        id < self.bitvec.len() && self.bitvec.get(id)
    }

    /// Get the current count of allocated IDs.
    pub fn allocated_count(&self) -> (count: usize)
        requires
            self.wf(),
        ensures
            count == count_set(self.used()),
    {
        self.allocated_count
    }

    /// Get the total capacity.
    pub fn capacity(&self) -> (capacity: usize)
        ensures
            capacity == self.used().len(),
    {
        self.bitvec.len()
    }

    /// Check if the generator is full.
    pub fn is_full(&self) -> (full: bool)
        requires
            self.wf(),
        ensures
            full <==> forall|i: int| 0 <= i < self.used().len() ==> #[trigger] self.used()[i],
    {
        proof {
            count_set_bounds(self.used());
        }
        self.allocated_count >= self.bitvec.len()
    }

    /// Check if the generator is empty (no IDs allocated).
    pub fn is_empty(&self) -> (empty: bool)
        requires
            self.wf(),
        ensures
            empty <==> forall|i: int| 0 <= i < self.used().len() ==> !#[trigger] self.used()[i],
    {
        proof {
            count_set_bounds(self.used());
        }
        self.allocated_count == 0
    }

    /// Reset the generator, releasing all allocated IDs.
    pub fn reset(&mut self)
        requires
            old(self).wf(),
        ensures
            final(self).wf(),
            final(self).used() == Seq::new(old(self).used().len(), |i: int| false),
            final(self).next_free_hint == 0,
    {
        self.bitvec.fill(false);
        self.next_free_hint = 0;
        self.allocated_count = 0;
        proof {
            count_set_bounds(self.used());
        }
    }
}

/// A free ID is the smallest one, where it is the first that is free from the hint on
/// and all IDs below the hint are in use.
proof fn smallest_free(used: Seq<bool>, hint: int, steps: int, index: int)
    requires
        0 <= hint < used.len(),
        0 <= steps < used.len(),
        index == wrapped(hint + steps, used.len() as int),
        !used[index],
        forall|i: int| 0 <= i < hint ==> #[trigger] used[i],
        forall|j: int| 0 <= j < steps ==> used[#[trigger] wrapped(hint + j, used.len() as int)],
    ensures
        index == hint + steps,
        forall|i: int| 0 <= i < index ==> #[trigger] used[i],
{
    let len = used.len() as int;
    assert(index == if hint + steps < len {
        hint + steps
    } else {
        hint + steps - len
    }) by (nonlinear_arith)
        requires
            index == (hint + steps) % len,
            0 <= hint < len,
            0 <= steps < len,
    ;
    assert forall|i: int| 0 <= i < index implies #[trigger] used[i] by {
        if i >= hint {
            let j = i - hint;
            assert(wrapped(hint + j, len) == i) by (nonlinear_arith)
                requires
                    wrapped(hint + j, len) == (hint + j) % len,
                    hint + j == i,
                    0 <= i < len,
            ;
            assert(used[wrapped(hint + j, len)]);
        }
    }
}

/// A position counted around the end.
pub open spec fn wrapped(position: int, len: int) -> int {
    position % len
}

/// Law: two generators with the same IDs in use hand out the same ID, wherever their
/// hints are.
pub proof fn hints_do_not_matter(a: Generator, b: Generator)
    requires
        a.wf(),
        b.wf(),
        a.used() == b.used(),
    ensures
        next_free(a.used(), a.next_free_hint as int, a.used().len() as int) == next_free(
            b.used(),
            b.next_free_hint as int,
            b.used().len() as int,
        ),
{
    next_free_is_smallest(a.used(), a.next_free_hint as int, a.used().len() as int);
    next_free_is_smallest(b.used(), b.next_free_hint as int, b.used().len() as int);
}

/// Law: the search finds the smallest free ID, where all IDs below its start are in use
/// and it goes at least to the end.
pub proof fn next_free_is_smallest(used: Seq<bool>, from: int, steps: int)
    requires
        0 <= from <= used.len(),
        used.len() - from <= steps,
        forall|i: int| 0 <= i < from ==> #[trigger] used[i],
    ensures
        match next_free(used, from, steps) {
            Some(index) => {
                &&& 0 <= index < used.len()
                &&& !used[index]
                &&& forall|i: int| 0 <= i < index ==> #[trigger] used[i]
            },
            None => forall|i: int| 0 <= i < used.len() ==> #[trigger] used[i],
        },
    decreases used.len() - from,
{
    if from == used.len() {
        all_in_use(used, from, steps);
    } else {
        assert(from % (used.len() as int) == from) by (nonlinear_arith)
            requires
                0 <= from < used.len(),
        ;
        if used[from] {
            next_free_is_smallest(used, from + 1, steps - 1);
        }
    }
}

/// Where all IDs are in use, none is found.
proof fn all_in_use(used: Seq<bool>, from: int, steps: int)
    requires
        0 <= from,
        forall|i: int| 0 <= i < used.len() ==> #[trigger] used[i],
    ensures
        next_free(used, from, steps) is None,
    decreases steps,
{
    if steps > 0 && used.len() > 0 {
        let len = used.len() as int;
        assert(0 <= from % len < len) by (nonlinear_arith)
            requires
                0 < len,
        ;
        assert(used[from % len]);
        all_in_use(used, from + 1, steps - 1);
    }
}

/// Law: releasing the ID that was just handed out restores the IDs in use.
pub proof fn release_undoes_next(used: Seq<bool>, id: int)
    requires
        0 <= id < used.len(),
        !used[id],
    ensures
        used.update(id, true).update(id, false) == used,
        count_set(used.update(id, true)) == count_set(used) + 1,
{
    assert(used.update(id, true).update(id, false) =~= used);
    count_set_update(used, id, true);
}

/// Law: an ID that is released below the hint becomes the hint, and is then the
/// next to be handed out.
pub proof fn released_id_comes_next(used: Seq<bool>, id: int)
    requires
        0 <= id < used.len(),
    ensures
        next_free(used.update(id, false), id, used.len() as int) == Some(id),
{
    assert(id % (used.len() as int) == id) by (nonlinear_arith)
        requires
            0 <= id < used.len(),
    ;
}

} // verus!

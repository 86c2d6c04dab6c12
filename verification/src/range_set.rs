//! Byte ranges and sets of byte offsets, computed by the `ranges` crate.
//!
//! The planner asks two things of that crate: whether two ranges overlap, and
//! which ranges remain when a set of ranges is taken out of another. Both are
//! stated here point by point, over half-open ranges of offsets.
use ranges::{GenericRange, OperationResult, Ranges};
use std::ops::{Bound, Range, RangeBounds};
use vstd::prelude::*;

verus! {

/// `x` lies in the half-open range `r`.
pub open spec fn in_range(r: Range<u64>, x: int) -> bool {
    r.start <= x < r.end
}

/// `x` lies in one of the ranges of `s`.
pub open spec fn covered(s: Seq<Range<u64>>, x: int) -> bool {
    exists|i: int| 0 <= i < s.len() && in_range(#[trigger] s[i], x)
}

/// The ranges of `s` are non-empty, ascend, and leave a gap between neighbours.
pub open spec fn separated(s: Seq<Range<u64>>) -> bool {
    &&& forall|i: int| 0 <= i < s.len() ==> (#[trigger] s[i]).start < s[i].end
    &&& forall|i: int, j: int| 0 <= i < j < s.len() ==> (#[trigger] s[i]).end < (#[trigger] s[j]).start
}

/// The length of a range, or zero where it is reversed.
pub open spec fn range_len(r: Range<u64>) -> nat {
    if r.start <= r.end {
        (r.end - r.start) as nat
    } else {
        0
    }
}

/// One end of a range of the `ranges` crate.
#[derive(Clone, Copy, Debug, PartialEq, Eq, Structural)]
pub enum Endpoint {
    /// The value itself belongs to the range.
    Included(u64),
    /// The range stops short of the value.
    Excluded(u64),
    /// The range has no end on this side.
    Unbounded,
}

/// The single range of the `ranges` crate, opaque to the verifier.
#[verifier::external_type_specification]
#[verifier::external_body]
#[verifier::reject_recursive_types(T)]
pub struct ExGenericRange<T>(GenericRange<T>);

/// What `GenericRange::start_bound` reports.
pub uninterp spec fn start_of(range: GenericRange<u64>) -> Endpoint;

/// What `GenericRange::end_bound` reports.
pub uninterp spec fn end_of(range: GenericRange<u64>) -> Endpoint;

/// The half-open range that `range` stands for, where its start is included and
/// its end excluded.
pub open spec fn half_open(range: GenericRange<u64>) -> Option<Range<u64>> {
    match (start_of(range), end_of(range)) {
        (Endpoint::Included(start), Endpoint::Excluded(end)) => Some(Range { start, end }),
        _ => None,
    }
}

/// Calls `GenericRange::from` on a half-open range: the start is included and
/// the end excluded. The crate panics where the start lies behind the end.
#[verifier::external_body]
pub(crate) fn generic_range(r: Range<u64>) -> (range: GenericRange<u64>)
    requires
        r.start <= r.end,
    ensures
        half_open(range) == Some(r),
{
    GenericRange::from(r)
}

/// Calls `GenericRange::start_bound` and hands its bound over variant by
/// variant.
#[verifier::external_body]
fn start_bound(range: &GenericRange<u64>) -> (endpoint: Endpoint)
    ensures
        endpoint == start_of(*range),
{
    match range.start_bound() {
        Bound::Included(value) => Endpoint::Included(*value),
        Bound::Excluded(value) => Endpoint::Excluded(*value),
        Bound::Unbounded => Endpoint::Unbounded,
    }
}

/// Calls `GenericRange::end_bound` and hands its bound over variant by variant.
#[verifier::external_body]
fn end_bound(range: &GenericRange<u64>) -> (endpoint: Endpoint)
    ensures
        endpoint == end_of(*range),
{
    match range.end_bound() {
        Bound::Included(value) => Endpoint::Included(*value),
        Bound::Excluded(value) => Endpoint::Excluded(*value),
        Bound::Unbounded => Endpoint::Unbounded,
    }
}

/// Calls `GenericRange::intersect` on two half-open ranges. The crate answers
/// `OperationResult::Empty` exactly where no offset lies in both; `true` stands
/// for every other answer.
#[verifier::external_body]
fn intersects(a: GenericRange<u64>, b: GenericRange<u64>) -> (shared: bool)
    requires
        half_open(a) is Some,
        half_open(b) is Some,
    ensures
        shared == ranges_overlap(half_open(a)->0, half_open(b)->0),
{
    match a.intersect(b) {
        OperationResult::Empty => false,
        OperationResult::Single(_) => true,
        OperationResult::Double(_, _) => true,
    }
}

/// A range set of the `ranges` crate. Its storage is opaque to the verifier.
#[verifier::external_body]
pub struct RangeSet {
    inner: Ranges<u64>,
}

/// The ranges that a set stores, in the order in which `Ranges::as_slice` lists
/// them.
pub uninterp spec fn stored(set: RangeSet) -> Seq<GenericRange<u64>>;

/// The stored ranges as half-open ranges.
pub open spec fn stored_ranges(set: RangeSet) -> Seq<Range<u64>> {
    stored(set).map_values(|range: GenericRange<u64>| half_open(range)->0)
}

/// A set stores half-open ranges that are non-empty, ascend and do not touch.
pub open spec fn is_normal(set: RangeSet) -> bool {
    &&& forall|i: int| 0 <= i < stored(set).len() ==> half_open(#[trigger] stored(set)[i]) is Some
    &&& separated(stored_ranges(set))
}

impl RangeSet {
    /// Calls `Ranges::new`: nothing is stored.
    #[verifier::external_body]
    fn new() -> (set: RangeSet)
        ensures
            stored(set) == Seq::<GenericRange<u64>>::empty(),
    {
        RangeSet { inner: Ranges::new() }
    }

    /// Calls `Ranges::insert`. The set keeps its ranges sorted and merges those
    /// that meet, so that it then covers the inserted range and all that it
    /// covered before.
    #[verifier::external_body]
    fn insert(&mut self, range: GenericRange<u64>)
        requires
            is_normal(*old(self)),
            half_open(range) is Some,
        ensures
            is_normal(*final(self)),
            forall|x: int| #[trigger]
                covered(stored_ranges(*final(self)), x) <==> covered(stored_ranges(*old(self)), x)
                    || in_range(half_open(range)->0, x),
    {
        let _ = self.inner.insert(range);
    }

    /// Calls `Ranges::difference`: what the first set covers and the second does
    /// not, again sorted and with gaps between neighbours.
    #[verifier::external_body]
    fn difference(self, other: RangeSet) -> (rest: RangeSet)
        requires
            is_normal(self),
            is_normal(other),
        ensures
            is_normal(rest),
            forall|x: int| #[trigger]
                covered(stored_ranges(rest), x) == (covered(stored_ranges(self), x)
                    && !covered(stored_ranges(other), x)),
    {
        RangeSet { inner: self.inner.difference(other.inner) }
    }

    /// Calls `Ranges::as_slice` and copies the slice.
    #[verifier::external_body]
    fn as_slice(&self) -> (slice: Vec<GenericRange<u64>>)
        ensures
            slice@ == stored(*self),
    {
        self.inner.as_slice().to_vec()
    }
}

/// Two half-open ranges have an offset in common.
pub open spec fn ranges_overlap(a: Range<u64>, b: Range<u64>) -> bool {
    exists|x: int| #[trigger] in_range(a, x) && in_range(b, x)
}

/// Overlap by the ends of the ranges alone.
pub proof fn overlap_by_ends(a: Range<u64>, b: Range<u64>)
    ensures
        ranges_overlap(a, b) <==> (a.start < a.end && b.start < b.end && a.start < b.end && b.start
            < a.end),
{
    if a.start < a.end && b.start < b.end && a.start < b.end && b.start < a.end {
        let x: int = if a.start >= b.start {
            a.start as int
        } else {
            b.start as int
        };
        assert(in_range(a, x) && in_range(b, x));
    }
}

/// Whether two ranges have an offset in common.
pub fn overlaps(a: &Range<u64>, b: &Range<u64>) -> (shared: bool)
    requires
        a.start <= a.end,
        b.start <= b.end,
    ensures
        shared == ranges_overlap(*a, *b),
{
    intersects(generic_range(a.start..a.end), generic_range(b.start..b.end))
}

/// Convert a generic range to a standard range.
pub fn convert_generic_range_to_std_range(range: &GenericRange<u64>) -> (r: Range<u64>)
    requires
        half_open(*range) is Some,
    ensures
        Some(r) == half_open(*range),
{
    match (start_bound(range), end_bound(range)) {
        (Endpoint::Included(start), Endpoint::Excluded(end)) => start..end,
        _ => 0..0,
    }
}

/// What is left of `0..total` when every range of `occupied` is taken out:
/// ascending non-empty ranges with gaps between them.
pub fn subtract_ranges(total: u64, occupied: &Vec<Range<u64>>) -> (left: Vec<Range<u64>>)
    requires
        forall|i: int| 0 <= i < occupied.len() ==> (#[trigger] occupied[i]).start <= occupied[i].end,
    ensures
        separated(left@),
        forall|x: int| #[trigger]
            covered(left@, x) <==> 0 <= x < total && !covered(occupied@, x),
{
    let mut taken = RangeSet::new();
    assert(stored_ranges(taken) =~= Seq::<Range<u64>>::empty());
    let mut i: usize = 0;
    while i < occupied.len()
        invariant
            i <= occupied.len(),
            is_normal(taken),
            forall|j: int|
                0 <= j < occupied.len() ==> (#[trigger] occupied[j]).start <= occupied[j].end,
            forall|x: int| #[trigger]
                covered(stored_ranges(taken), x) <==> covered(occupied@.take(i as int), x),
        decreases occupied.len() - i,
    {
        let range = generic_range(occupied[i].start..occupied[i].end);
        let ghost before = taken;
        taken.insert(range);
        proof {
            let head = occupied@.take(i as int);
            let next = occupied@.take(i + 1);
            assert forall|x: int| #[trigger] covered(stored_ranges(taken), x) <==> covered(
                next,
                x,
            ) by {
                assert(next[i as int] == occupied[i as int]);
                assert(covered(stored_ranges(before), x) <==> covered(head, x));
                if covered(head, x) {
                    let k = choose|k: int| 0 <= k < head.len() && in_range(#[trigger] head[k], x);
                    assert(next[k] == head[k]);
                }
                if covered(next, x) {
                    let k = choose|k: int| 0 <= k < next.len() && in_range(#[trigger] next[k], x);
                    if k < i {
                        assert(head[k] == next[k]);
                    }
                }
            }
        }
        i = i + 1;
    }
    assert(occupied@.take(i as int) =~= occupied@);
    let mut all = RangeSet::new();
    assert(stored_ranges(all) =~= Seq::<Range<u64>>::empty());
    let ghost nothing = all;
    all.insert(generic_range(0..total));
    assert(forall|x: int| !covered(stored_ranges(nothing), x));
    let rest = all.difference(taken);
    let slice = rest.as_slice();
    let mut left: Vec<Range<u64>> = Vec::new();
    let mut k: usize = 0;
    while k < slice.len()
        invariant
            k <= slice.len(),
            slice@ == stored(rest),
            is_normal(rest),
            left@ == stored_ranges(rest).take(k as int),
        decreases slice.len() - k,
    {
        left.push(convert_generic_range_to_std_range(&slice[k]));
        assert(left@ =~= stored_ranges(rest).take(k + 1));
        k = k + 1;
    }
    assert(left@ =~= stored_ranges(rest));
    left
}

/// `r` put behind the last range that does not start later than it.
pub open spec fn insert_by_start(s: Seq<Range<u64>>, r: Range<u64>) -> Seq<Range<u64>>
    decreases s.len(),
{
    if s.len() == 0 || s.last().start <= r.start {
        s.push(r)
    } else {
        insert_by_start(s.drop_last(), r).push(s.last())
    }
}

/// The ranges in the order of their starts; ranges with one start keep their
/// order.
pub open spec fn sort_by_start(s: Seq<Range<u64>>) -> Seq<Range<u64>>
    decreases s.len(),
{
    if s.len() == 0 {
        s
    } else {
        insert_by_start(sort_by_start(s.drop_last()), s.last())
    }
}

/// One more range behind ranges that are already merged: it extends the last one
/// where the two meet.
pub open spec fn merge_step(merged: Seq<Range<u64>>, r: Range<u64>) -> Seq<Range<u64>> {
    if merged.len() > 0 && merged.last().end >= r.start {
        let last = merged.last();
        let end = if last.end >= r.end {
            last.end
        } else {
            r.end
        };
        merged.drop_last().push(Range { start: last.start, end })
    } else {
        merged.push(r)
    }
}

/// The ranges merged from left to right.
pub open spec fn merge_in_order(s: Seq<Range<u64>>) -> Seq<Range<u64>>
    decreases s.len(),
{
    if s.len() == 0 {
        s
    } else {
        merge_step(merge_in_order(s.drop_last()), s.last())
    }
}

/// Every range holds an offset.
pub open spec fn all_nonempty(s: Seq<Range<u64>>) -> bool {
    forall|i: int| 0 <= i < s.len() ==> (#[trigger] s[i]).start < s[i].end
}

/// No range ends before it starts.
pub open spec fn none_reversed(s: Seq<Range<u64>>) -> bool {
    forall|i: int| 0 <= i < s.len() ==> (#[trigger] s[i]).start <= s[i].end
}

/// Each range ends before its neighbour starts.
pub open spec fn apart(s: Seq<Range<u64>>) -> bool {
    forall|i: int| 0 < i < s.len() ==> s[i - 1].end < (#[trigger] s[i]).start
}

/// Each range ends before any later one starts.
pub open spec fn gapped(s: Seq<Range<u64>>) -> bool {
    forall|i: int, j: int| 0 <= i < j < s.len() ==> (#[trigger] s[i]).end < (#[trigger] s[j]).start
}

/// The starts ascend.
pub open spec fn ascending(s: Seq<Range<u64>>) -> bool {
    forall|i: int, j: int| 0 <= i <= j < s.len() ==> (#[trigger] s[i]).start <= (#[trigger] s[j]).start
}

proof fn insert_by_start_at(s: Seq<Range<u64>>, r: Range<u64>, at: int)
    requires
        0 <= at <= s.len(),
        at == 0 || s[at - 1].start <= r.start,
        forall|i: int| at <= i < s.len() ==> (#[trigger] s[i]).start > r.start,
    ensures
        insert_by_start(s, r) == s.insert(at, r),
    decreases s.len(),
{
    if at == s.len() {
        assert(s.insert(at, r) =~= s.push(r));
    } else {
        insert_by_start_at(s.drop_last(), r, at);
        assert(s.insert(at, r) =~= s.drop_last().insert(at, r).push(s.last()));
    }
}

proof fn insert_by_start_keeps(s: Seq<Range<u64>>, r: Range<u64>)
    ensures
        insert_by_start(s, r).len() == s.len() + 1,
        ascending(s) ==> ascending(insert_by_start(s, r)),
        all_nonempty(s) && r.start < r.end ==> all_nonempty(insert_by_start(s, r)),
        none_reversed(s) && r.start <= r.end ==> none_reversed(insert_by_start(s, r)),
        forall|x: int| #[trigger]
            covered(insert_by_start(s, r), x) <==> covered(s, x) || in_range(r, x),
        s.len() > 0 ==> insert_by_start(s, r).last().start == (if s.last().start <= r.start {
            r.start
        } else {
            s.last().start
        }),
    decreases s.len(),
{
    let out = insert_by_start(s, r);
    if s.len() == 0 || s.last().start <= r.start {
        covered_push(s, r);
    } else {
        let rest = s.drop_last();
        insert_by_start_keeps(rest, r);
        let mid = insert_by_start(rest, r);
        covered_push(mid, s.last());
        covered_push(rest, s.last());
        assert(rest.push(s.last()) =~= s);
        if ascending(s) {
            assert(ascending(rest)) by {
                assert forall|i: int, j: int| 0 <= i <= j < rest.len() implies (#[trigger] rest[i]).start
                    <= (#[trigger] rest[j]).start by {
                    assert(s[i].start <= s[j].start);
                }
            }
            assert(mid.last().start <= s.last().start) by {
                if rest.len() > 0 {
                    assert(s[rest.len() - 1].start <= s[s.len() - 1].start);
                }
            }
            assert forall|i: int, j: int| 0 <= i <= j < out.len() implies (#[trigger] out[i]).start <= (
            #[trigger] out[j]).start by {
                if j < mid.len() {
                    assert(mid[i].start <= mid[j].start);
                } else if i < mid.len() {
                    assert(mid[i].start <= mid[mid.len() - 1].start);
                }
            }
        }
        if all_nonempty(s) && r.start < r.end {
            assert(all_nonempty(rest)) by {
                assert forall|i: int| 0 <= i < rest.len() implies (#[trigger] rest[i]).start < rest[i].end by {
                    assert(s[i].start < s[i].end);
                }
            }
            assert forall|i: int| 0 <= i < out.len() implies (#[trigger] out[i]).start < out[i].end by {
                if i < mid.len() {
                    assert(mid[i].start < mid[i].end);
                } else {
                    assert(s[s.len() - 1].start < s[s.len() - 1].end);
                }
            }
        }
    }
}

proof fn covered_push(s: Seq<Range<u64>>, r: Range<u64>)
    ensures
        forall|x: int| #[trigger] covered(s.push(r), x) <==> covered(s, x) || in_range(r, x),
{
    let out = s.push(r);
    assert forall|x: int| #[trigger] covered(out, x) <==> covered(s, x) || in_range(r, x) by {
        assert(out[s.len() as int] == r);
        if covered(s, x) {
            let i = choose|i: int| 0 <= i < s.len() && in_range(#[trigger] s[i], x);
            assert(out[i] == s[i]);
        }
        if covered(out, x) {
            let i = choose|i: int| 0 <= i < out.len() && in_range(#[trigger] out[i], x);
            if i < s.len() {
                assert(s[i] == out[i]);
            }
        }
    }
}

/// Sorting by start keeps what is covered.
pub proof fn sort_by_start_keeps(s: Seq<Range<u64>>)
    ensures
        sort_by_start(s).len() == s.len(),
        ascending(sort_by_start(s)),
        all_nonempty(s) ==> all_nonempty(sort_by_start(s)),
        none_reversed(s) ==> none_reversed(sort_by_start(s)),
        forall|x: int| #[trigger] covered(sort_by_start(s), x) <==> covered(s, x),
    decreases s.len(),
{
    if s.len() > 0 {
        let rest = s.drop_last();
        sort_by_start_keeps(rest);
        insert_by_start_keeps(sort_by_start(rest), s.last());
        covered_push(rest, s.last());
        assert(rest.push(s.last()) =~= s);
        if all_nonempty(s) {
            assert forall|i: int| 0 <= i < rest.len() implies (#[trigger] rest[i]).start < rest[i].end by {
                assert(s[i].start < s[i].end);
            }
            assert(s[s.len() - 1].start < s[s.len() - 1].end);
        }
    }
}

/// Law: merging ranges in ascending order keeps what is covered, empty and reversed
/// ranges among them or not.
pub proof fn merging_keeps_what_is_covered(s: Seq<Range<u64>>)
    requires
        ascending(s),
    ensures
        forall|x: int| #[trigger] covered(merge_in_order(s), x) <==> covered(s, x),
        s.len() > 0 ==> merge_in_order(s).len() > 0 && merge_in_order(s).last().start
            <= s.last().start,
    decreases s.len(),
{
    if s.len() > 0 {
        let rest = s.drop_last();
        let r = s.last();
        assert forall|i: int, j: int| 0 <= i <= j < rest.len() implies (#[trigger] rest[i]).start <= (
        #[trigger] rest[j]).start by {
            assert(s[i].start <= s[j].start);
        }
        merging_keeps_what_is_covered(rest);
        let merged = merge_in_order(rest);
        let out = merge_step(merged, r);
        covered_push(rest, r);
        assert(rest.push(r) =~= s);
        if rest.len() > 0 {
            assert(s[rest.len() - 1].start <= s[s.len() - 1].start);
        }
        if merged.len() > 0 && merged.last().end >= r.start {
            let last = merged.last();
            let head = merged.drop_last();
            let grown = out.last();
            assert(rest.len() > 0);
            assert(head.push(last) =~= merged);
            covered_push(head, last);
            covered_push(head, grown);
            assert(out =~= head.push(grown));
            assert forall|x: int| #[trigger] covered(out, x) <==> covered(s, x) by {
                assert(covered(merged, x) <==> covered(rest, x));
                assert(covered(merged, x) <==> covered(head, x) || in_range(last, x));
                assert(in_range(grown, x) <==> in_range(last, x) || in_range(r, x));
            }
        } else {
            covered_push(merged, r);
        }
    }
}

/// Merging ranges in ascending order leaves ranges in ascending order with a gap between
/// neighbours, and neither reverses nor empties a range.
proof fn merging_leaves_gaps(s: Seq<Range<u64>>)
    requires
        ascending(s),
    ensures
        ascending(merge_in_order(s)),
        apart(merge_in_order(s)),
        none_reversed(s) ==> none_reversed(merge_in_order(s)),
        all_nonempty(s) ==> all_nonempty(merge_in_order(s)),
    decreases s.len(),
{
    if s.len() > 0 {
        let rest = s.drop_last();
        let merged = merge_in_order(rest);
        let out = merge_in_order(s);
        merging_leaves_gaps(rest);
        merging_keeps_what_is_covered(rest);
        assert(forall|i: int| 0 <= i < rest.len() ==> #[trigger] rest[i] == s[i]);
        assert(forall|i: int|
            0 <= i < out.len() && i < merged.len() ==> (#[trigger] out[i]).start == merged[i].start
                && out[i].end >= merged[i].end && (i + 1 < out.len() ==> out[i] == merged[i]));
    }
}

/// Upright ranges with a gap between neighbours have a gap between any two.
proof fn gaps_add_up(s: Seq<Range<u64>>, i: int, j: int)
    requires
        apart(s),
        none_reversed(s),
        0 <= i < j < s.len(),
    ensures
        s[i].end < s[j].start,
    decreases j - i,
{
    if i < j - 1 {
        gaps_add_up(s, i, j - 1);
    }
}

/// Law: ranges that are in order and apart stay as they are when they are merged. So
/// merging what was merged changes nothing.
pub proof fn merging_again_changes_nothing(s: Seq<Range<u64>>)
    requires
        ascending(s),
        apart(s),
    ensures
        merge_in_order(sort_by_start(s)) == s,
{
    sorting_again_changes_nothing(s);
    apart_ranges_do_not_meet(s);
}

proof fn sorting_again_changes_nothing(s: Seq<Range<u64>>)
    requires
        ascending(s),
    ensures
        sort_by_start(s) == s,
    decreases s.len(),
{
    if s.len() > 0 {
        sorting_again_changes_nothing(s.drop_last());
    }
}

proof fn apart_ranges_do_not_meet(s: Seq<Range<u64>>)
    requires
        apart(s),
    ensures
        merge_in_order(s) == s,
    decreases s.len(),
{
    if s.len() > 0 {
        apart_ranges_do_not_meet(s.drop_last());
    }
}

/// Put a range behind the last one that does not start later.
fn insert_sorted(ranges: &mut Vec<Range<u64>>, r: Range<u64>)
    ensures
        final(ranges)@ == insert_by_start(old(ranges)@, r),
{
    let mut at: usize = ranges.len();
    while at > 0 && ranges[at - 1].start > r.start
        invariant
            at <= ranges.len(),
            ranges@ == old(ranges)@,
            forall|i: int| at <= i < ranges.len() ==> (#[trigger] ranges[i]).start > r.start,
        decreases at,
    {
        at = at - 1;
    }
    proof {
        insert_by_start_at(ranges@, r, at as int);
    }
    ranges.insert(at, r);
}

/// Merge adjacent ranges: sort them by start and join those that meet or overlap.
pub fn merge_adjacent_ranges(ranges: Vec<Range<u64>>) -> (merged: Vec<Range<u64>>)
    ensures
        merged@ == merge_in_order(sort_by_start(ranges@)),
        ascending(merged@),
        apart(merged@),
        none_reversed(ranges@) ==> none_reversed(merged@) && gapped(merged@),
        all_nonempty(ranges@) ==> separated(merged@),
        merge_in_order(sort_by_start(merged@)) == merged@,
        forall|x: int| #[trigger] covered(merged@, x) <==> covered(ranges@, x),
{
    let mut sorted: Vec<Range<u64>> = Vec::with_capacity(ranges.len());
    let mut i: usize = 0;
    while i < ranges.len()
        invariant
            i <= ranges.len(),
            sorted@ == sort_by_start(ranges@.take(i as int)),
        decreases ranges.len() - i,
    {
        insert_sorted(&mut sorted, ranges[i].start..ranges[i].end);
        assert(ranges@.take(i + 1).drop_last() =~= ranges@.take(i as int));
        i = i + 1;
    }
    assert(ranges@.take(i as int) =~= ranges@);
    let mut merged: Vec<Range<u64>> = Vec::new();
    let mut k: usize = 0;
    while k < sorted.len()
        invariant
            k <= sorted.len(),
            merged@ == merge_in_order(sorted@.take(k as int)),
        decreases sorted.len() - k,
    {
        let ghost before = merged@;
        let count = merged.len();
        let start = sorted[k].start;
        let end = sorted[k].end;
        if count > 0 && merged[count - 1].end >= start {
            let last_start = merged[count - 1].start;
            let last_end = merged[count - 1].end;
            merged[count - 1] = last_start..(if last_end >= end { last_end } else { end });
        } else {
            merged.push(start..end);
        }
        assert(sorted@.take(k + 1).drop_last() =~= sorted@.take(k as int));
        assert(merged@ =~= merge_step(before, sorted@[k as int]));
        k = k + 1;
    }
    assert(sorted@.take(k as int) =~= sorted@);
    proof {
        sort_by_start_keeps(ranges@);
        merging_keeps_what_is_covered(sorted@);
        merging_leaves_gaps(sorted@);
        merging_again_changes_nothing(merged@);
        if none_reversed(ranges@) {
            assert forall|i: int, j: int| 0 <= i < j < merged@.len() implies (#[trigger] merged@[i]).end
                < (#[trigger] merged@[j]).start by {
                gaps_add_up(merged@, i, j);
            }
        }
        assert(all_nonempty(ranges@) ==> none_reversed(ranges@));
    }
    merged
}

/// Separated ranges are determined by the offsets that they cover.
pub proof fn separated_ranges_are_unique(a: Seq<Range<u64>>, b: Seq<Range<u64>>)
    requires
        separated(a),
        separated(b),
        forall|x: int| #[trigger] covered(a, x) <==> covered(b, x),
    ensures
        a == b,
    decreases a.len(),
{
    if a.len() == 0 {
        if b.len() > 0 {
            assert(in_range(b[0], b[0].start as int));
            assert(covered(b, b[0].start as int));
            assert(covered(a, b[0].start as int));
        }
        assert(a =~= b);
    } else {
        let la = a.last();
        assert(a[a.len() - 1].start < a[a.len() - 1].end);
        assert(in_range(a[a.len() - 1], la.end - 1));
        assert(covered(a, la.end - 1));
        assert(covered(b, la.end - 1));
        assert(b.len() > 0);
        let lb = b.last();
        assert(b[b.len() - 1].start < b[b.len() - 1].end);
        assert(in_range(b[b.len() - 1], lb.end - 1));
        assert(covered(b, lb.end - 1));
        assert(covered(a, lb.end - 1));
        last_end_bounds(a);
        last_end_bounds(b);
        assert(la.end == lb.end);
        last_start_by_cover(a);
        last_start_by_cover(b);
        assert(la.start == lb.start) by {
            if la.start < lb.start {
                assert(covered(a, lb.start - 1)) by {
                    assert(in_range(a[a.len() - 1], lb.start - 1));
                }
            } else if lb.start < la.start {
                assert(covered(b, la.start - 1)) by {
                    assert(in_range(b[b.len() - 1], la.start - 1));
                }
            }
        }
        let ra = a.drop_last();
        let rb = b.drop_last();
        separated_prefix(a);
        separated_prefix(b);
        covered_push(ra, la);
        covered_push(rb, lb);
        assert(ra.push(la) =~= a);
        assert(rb.push(lb) =~= b);
        assert forall|x: int| #[trigger] covered(ra, x) <==> covered(rb, x) by {
            assert(covered(a, x) <==> covered(b, x));
            if covered(ra, x) {
                let i = choose|i: int| 0 <= i < ra.len() && in_range(#[trigger] ra[i], x);
                assert(a[i].end < a[a.len() - 1].start);
            }
            if covered(rb, x) {
                let i = choose|i: int| 0 <= i < rb.len() && in_range(#[trigger] rb[i], x);
                assert(b[i].end < b[b.len() - 1].start);
            }
        }
        separated_ranges_are_unique(ra, rb);
    }
}

proof fn separated_prefix(s: Seq<Range<u64>>)
    requires
        separated(s),
        s.len() > 0,
    ensures
        separated(s.drop_last()),
{
    let rest = s.drop_last();
    assert forall|i: int| 0 <= i < rest.len() implies (#[trigger] rest[i]).start < rest[i].end by {
        assert(s[i].start < s[i].end);
    }
    assert forall|i: int, j: int| 0 <= i < j < rest.len() implies (#[trigger] rest[i]).end < (
    #[trigger] rest[j]).start by {
        assert(s[i].end < s[j].start);
    }
}

proof fn last_end_bounds(s: Seq<Range<u64>>)
    requires
        separated(s),
        s.len() > 0,
    ensures
        forall|x: int| #[trigger] covered(s, x) ==> x < s.last().end,
{
    assert forall|x: int| #[trigger] covered(s, x) implies x < s.last().end by {
        let i = choose|i: int| 0 <= i < s.len() && in_range(#[trigger] s[i], x);
        if i < s.len() - 1 {
            assert(s[i].end < s[s.len() - 1].start);
            assert(s[s.len() - 1].start < s[s.len() - 1].end);
        }
    }
}

proof fn last_start_by_cover(s: Seq<Range<u64>>)
    requires
        separated(s),
        s.len() > 0,
    ensures
        !covered(s, s.last().start - 1),
{
    if covered(s, s.last().start - 1) {
        let x = s.last().start - 1;
        let i = choose|i: int| 0 <= i < s.len() && in_range(#[trigger] s[i], x);
        if i < s.len() - 1 {
            assert(s[i].end < s[s.len() - 1].start);
        }
    }
}

} // verus!

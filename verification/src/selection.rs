//! Multi-range selections.
//!
//! A selection is an ordered, non-overlapping collection of ranges with
//! one of them primary.  Per-range transforms can disturb the order, so
//! every transform runs its result through [`Selection::normalize`],
//! which restores order and merges ranges that came to overlap.

use vstd::prelude::*;
use crate::range::{Direction, TextRange};

verus! {

/// Ranges sorted by their lower offset.
pub open spec fn sorted_by_from(rs: Seq<TextRange>) -> bool {
    forall|i: int, j: int| 0 <= i < j < rs.len() ==> rs[i].from_spec() <= rs[j].from_spec()
}

/// Ranges in order and pairwise non-overlapping.
pub open spec fn sorted_nonoverlapping(rs: Seq<TextRange>) -> bool {
    forall|i: int, j: int| 0 <= i < j < rs.len() ==> rs[i].to_spec() <= rs[j].from_spec()
}

/// Every range within a text of `len` characters.
pub open spec fn all_in_bounds(rs: Seq<TextRange>, len: int) -> bool {
    forall|i: int| 0 <= i < rs.len() ==> rs[i].in_bounds(len)
}

/// An ordered collection of ranges with a primary one.
#[derive(Clone, PartialEq, Eq, Debug)]
pub struct Selection {
    pub ranges: Vec<TextRange>,
    pub primary_index: usize,
}

impl Selection {
    /// A well-formed selection: nonempty, primary valid, ranges in
    /// bounds, ordered and non-overlapping.
    pub open spec fn wf(self, len: int) -> bool {
        &&& self.ranges.len() > 0
        &&& self.primary_index < self.ranges.len()
        &&& all_in_bounds(self.ranges@, len)
        &&& sorted_nonoverlapping(self.ranges@)
    }

    /// The selection of the single range `r`.
    pub fn single(r: TextRange) -> (s: Selection)
        ensures
            s.ranges@ =~= seq![r],
            s.primary_index == 0,
            r.in_bounds(0) ==> s.wf(0),
            forall|len: int| r.in_bounds(len) ==> s.wf(len),
    {
        let mut v: Vec<TextRange> = Vec::new();
        v.push(r);
        Selection { ranges: v, primary_index: 0 }
    }

    /// The zero-width selection at `p`.
    pub fn point(p: usize) -> (s: Selection)
        ensures
            s.ranges@ =~= seq![TextRange { anchor: p, head: p }],
            s.primary_index == 0,
            forall|len: int| p <= len ==> s.wf(len),
    {
        Selection::single(TextRange { anchor: p, head: p })
    }

    /// The primary range.
    pub fn primary(&self) -> (r: TextRange)
        requires
            self.primary_index < self.ranges.len(),
        ensures
            r == self.ranges@[self.primary_index as int],
    {
        self.ranges[self.primary_index]
    }

    /// Total width of all ranges.
    pub fn total_len(&self) -> (r: Option<usize>)
        ensures
            r is Some ==> r->0 as int == sum_range_lens(self.ranges@),
            sum_range_lens(self.ranges@) <= usize::MAX ==> r is Some,
    {
        let mut acc: usize = 0;
        let mut i: usize = 0;
        proof {
            assert(self.ranges@.take(0) =~= Seq::<TextRange>::empty());
        }
        while i < self.ranges.len()
            invariant
                i <= self.ranges.len(),
                acc as int == sum_range_lens(self.ranges@.take(i as int)),
            decreases self.ranges.len() - i,
        {
            proof {
                lemma_sum_range_lens_prefix(self.ranges@, i + 1int);
            }
            let l = self.ranges[i].len();
            if acc > usize::MAX - l {
                proof {
                    lemma_sum_range_lens_prefix_le(self.ranges@, i + 1int);
                }
                return None;
            }
            acc = acc + l;
            i = i + 1;
        }
        proof {
            assert(self.ranges@.take(self.ranges@.len() as int) =~= self.ranges@);
        }
        Some(acc)
    }

    /// Restore a transformed selection to a well-formed one: if its
    /// ranges are already ordered and non-overlapping it is returned
    /// unchanged; otherwise the ranges are sorted by their lower offset
    /// and strictly overlapping neighbours are merged.
    pub fn normalize(self, Ghost(len): Ghost<int>) -> (s: Selection)
        requires
            self.ranges.len() > 0,
            all_in_bounds(self.ranges@, len),
        ensures
            s.wf(len),
            sorted_nonoverlapping(self.ranges@) && self.primary_index < self.ranges.len()
                ==> s == self,
    {
        let sorted_ok = is_sorted_nonoverlapping(&self.ranges);
        if sorted_ok && self.primary_index < self.ranges.len() {
            return self;
        }
        let mut rs = self.ranges;
        sort_ranges_by_from(&mut rs, Ghost(len));
        let merged = merge_overlapping(&rs, Ghost(len));
        let primary = if self.primary_index < merged.len() {
            self.primary_index
        } else {
            merged.len() - 1
        };
        Selection { ranges: merged, primary_index: primary }
    }
}

/// Sum of the widths of the ranges.
pub open spec fn sum_range_lens(rs: Seq<TextRange>) -> int
    decreases rs.len(),
{
    if rs.len() == 0 {
        0
    } else {
        sum_range_lens(rs.drop_last()) + rs.last().len_spec()
    }
}

proof fn lemma_sum_range_lens_nonneg(rs: Seq<TextRange>)
    ensures
        sum_range_lens(rs) >= 0,
    decreases rs.len(),
{
    if rs.len() > 0 {
        lemma_sum_range_lens_nonneg(rs.drop_last());
    }
}

proof fn lemma_sum_range_lens_prefix(rs: Seq<TextRange>, i: int)
    requires
        0 < i <= rs.len(),
    ensures
        sum_range_lens(rs.take(i)) == sum_range_lens(rs.take(i - 1)) + rs[i - 1].len_spec(),
{
    assert(rs.take(i).drop_last() =~= rs.take(i - 1));
    assert(rs.take(i).last() == rs[i - 1]);
}

proof fn lemma_sum_range_lens_prefix_le(rs: Seq<TextRange>, i: int)
    requires
        0 <= i <= rs.len(),
    ensures
        sum_range_lens(rs.take(i)) <= sum_range_lens(rs),
    decreases rs.len() - i,
{
    if i == rs.len() {
        assert(rs.take(i) =~= rs);
    } else {
        lemma_sum_range_lens_prefix_le(rs, i + 1);
        lemma_sum_range_lens_prefix(rs, i + 1);
    }
}

/// Whether the ranges are already ordered and non-overlapping.
pub fn is_sorted_nonoverlapping(rs: &Vec<TextRange>) -> (r: bool)
    ensures
        r == sorted_nonoverlapping(rs@),
{
    let mut i: usize = 1;
    if rs.len() == 0 {
        return true;
    }
    while i < rs.len()
        invariant
            1 <= i <= rs.len() || rs.len() == 0,
            forall|a: int, b: int| 0 <= a < b < i ==> rs@[a].to_spec() <= rs@[b].from_spec(),
        decreases rs.len() - i,
    {
        if rs[i - 1].to() > rs[i].from() {
            return false;
        }
        proof {
            // Order carries across the new pair: anything before i ends
            // no later than range i - 1 does.
            assert forall|a: int, b: int| 0 <= a < b < i + 1 implies rs@[a].to_spec()
                <= rs@[b].from_spec() by {
                if b == i && a < i - 1 {
                    assert(rs@[a].to_spec() <= rs@[i - 1].from_spec());
                    assert(rs@[i - 1].from_spec() <= rs@[i - 1].to_spec());
                }
            }
        }
        i = i + 1;
    }
    true
}

/// Insertion sort by the lower offset.
fn sort_ranges_by_from(rs: &mut Vec<TextRange>, Ghost(len): Ghost<int>)
    requires
        all_in_bounds(old(rs)@, len),
    ensures
        sorted_by_from(final(rs)@),
        all_in_bounds(final(rs)@, len),
        final(rs)@.len() == old(rs)@.len(),
        final(rs)@.to_multiset() == old(rs)@.to_multiset(),
{
    let ghost orig = rs@;
    let mut i: usize = 1;
    while i < rs.len()
        invariant
            1 <= i || rs@.len() <= 1,
            i <= rs@.len() || rs@.len() <= 1,
            rs@.len() == orig.len(),
            all_in_bounds(rs@, len),
            rs@.to_multiset() == orig.to_multiset(),
            forall|a: int, b: int| 0 <= a < b < i ==> rs@[a].from_spec() <= rs@[b].from_spec(),
        decreases rs.len() - i,
    {
        let mut j: usize = i;
        while j > 0 && rs[j - 1].from() > rs[j].from()
            invariant
                j <= i < rs@.len(),
                rs@.len() == orig.len(),
                all_in_bounds(rs@, len),
                rs@.to_multiset() == orig.to_multiset(),
                forall|a: int, b: int|
                    0 <= a < b < i + 1 && b != j ==> rs@[a].from_spec() <= rs@[b].from_spec(),
                forall|a: int|
                    j < a < i + 1 ==> rs@[j as int].from_spec() <= rs@[a].from_spec(),
            decreases j,
        {
            let ghost before = rs@;
            let tmp = rs[j - 1];
            let tmp2 = rs[j];
            rs.set(j - 1, tmp2);
            rs.set(j, tmp);
            proof {
                assert(rs@ =~= before.update(j - 1, before[j as int]).update(
                    j as int,
                    before[j - 1],
                ));
                lemma_swap_multiset(before, rs@, j - 1, j as int);
            }
            j = j - 1;
        }
        i = i + 1;
    }
}

proof fn lemma_swap_multiset(a: Seq<TextRange>, b: Seq<TextRange>, i: int, j: int)
    requires
        0 <= i < a.len(),
        0 <= j < a.len(),
        i != j,
        b =~= a.update(i, a[j]).update(j, a[i]),
    ensures
        a.to_multiset() == b.to_multiset(),
{
    broadcast use vstd::seq_lib::to_multiset_update, vstd::seq_lib::to_multiset_contains,
        vstd::multiset::group_multiset_axioms, vstd::multiset::group_multiset_properties;

    let s1 = a.update(i, a[j]);
    assert(s1[j] == a[j]);
    assert(s1.to_multiset() == a.to_multiset().insert(a[j]).remove(a[i]));
    assert(b.to_multiset() == s1.to_multiset().insert(a[i]).remove(a[j]));
    assert(a.contains(a[i]));
    assert(a.to_multiset() =~= b.to_multiset());
}

/// Merge strictly overlapping neighbours of an ordered run of ranges.
/// The merged range covers both and keeps the earlier one's direction.
fn merge_overlapping(rs: &Vec<TextRange>, Ghost(len): Ghost<int>) -> (out: Vec<TextRange>)
    requires
        rs.len() > 0,
        sorted_by_from(rs@),
        all_in_bounds(rs@, len),
    ensures
        out.len() > 0,
        sorted_nonoverlapping(out@),
        all_in_bounds(out@, len),
        sorted_nonoverlapping(rs@) ==> out@ == rs@,
{
    let mut out: Vec<TextRange> = Vec::new();
    out.push(rs[0]);
    let mut i: usize = 1;
    while i < rs.len()
        invariant
            1 <= i <= rs.len(),
            out.len() >= 1,
            out.len() <= i,
            sorted_nonoverlapping(out@),
            all_in_bounds(out@, len),
            sorted_by_from(rs@),
            all_in_bounds(rs@, len),
            // what comes next never starts before the last kept range
            forall|k: int|
                i <= k < rs@.len() ==> out@.last().from_spec() <= rs@[k].from_spec(),
            sorted_nonoverlapping(rs@.take(i as int)) ==> out@ == rs@.take(i as int),
            sorted_nonoverlapping(rs@) ==> sorted_nonoverlapping(rs@.take(i as int)),
        decreases rs.len() - i,
    {
        let last = out[out.len() - 1];
        let next = rs[i];
        proof {
            assert(rs@.take(i + 1int) =~= rs@.take(i as int).push(rs@[i as int]));
            // A well-ordered prefix stays well-ordered one step shorter.
            if sorted_nonoverlapping(rs@.take(i + 1int)) {
                assert forall|a: int, b: int| 0 <= a < b < i implies rs@.take(
                    i as int,
                )[a].to_spec() <= rs@.take(i as int)[b].from_spec() by {
                    assert(rs@.take(i + 1int)[a].to_spec() <= rs@.take(i + 1int)[b].from_spec());
                }
                assert(sorted_nonoverlapping(rs@.take(i as int)));
                assert(out@ == rs@.take(i as int));
                assert(out@.last() == rs@[i - 1]);
                assert(rs@.take(i + 1int)[i - 1].to_spec() <= rs@.take(i + 1int)[i as int]
                    .from_spec());
            }
        }
        if next.from() < last.to() {
            // strict overlap: widen the kept range over both
            let merged_to = if last.to() >= next.to() {
                last.to()
            } else {
                next.to()
            };
            let dir = last.direction();
            let merged = TextRange { anchor: last.from(), head: merged_to }.with_direction(dir);
            let pos = out.len() - 1;
            out.set(pos, merged);
        } else {
            out.push(next);
            proof {
                assert forall|a: int, b: int| 0 <= a < b < out@.len() implies out@[a].to_spec()
                    <= out@[b].from_spec() by {
                    if b == out@.len() - 1 {
                        assert(out@[a].to_spec() <= out@[out@.len() - 2].to_spec()
                            || out@[a].to_spec() <= out@[b].from_spec());
                    }
                }
            }
        }
        i = i + 1;
    }
    proof {
        assert(rs@.take(rs@.len() as int) =~= rs@);
    }
    out
}

} // verus!

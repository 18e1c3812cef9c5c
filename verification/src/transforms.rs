//! Whole-selection transforms.
//!
//! Each transform maps every range of a selection and re-establishes
//! selection well-formedness.  Transforms that provably keep the order
//! return the mapped ranges as they are; the line-bounds extension runs
//! through normalization, since two ranges on one line merge.

use vstd::prelude::*;
use crate::range::{Direction, Movement, TextRange};
use crate::selection::{all_in_bounds, sorted_nonoverlapping, Selection};
use crate::text::{line_blank, line_end, line_of, line_start, num_lines};

verus! {

/// The ranges a line-bounds extension produces, before normalization.
pub open spec fn line_extended_ranges(rs: Seq<TextRange>, s: Seq<char>) -> Seq<TextRange> {
    Seq::new(rs.len(), |i: int| rs[i].line_extended_spec(s))
}

/// Extend every range to whole-line bounds and normalize.  When the
/// extended ranges are already a valid selection they are kept exactly;
/// in particular re-extending an extended selection changes nothing.
pub fn extend_selection_to_line_bounds(sel: &Selection, text: &Vec<char>) -> (out: Selection)
    requires
        sel.wf(text@.len() as int),
        text@.len() < usize::MAX,
    ensures
        out.wf(text@.len() as int),
        sorted_nonoverlapping(line_extended_ranges(sel.ranges@, text@)) ==> {
            &&& out.ranges@ == line_extended_ranges(sel.ranges@, text@)
            &&& out.primary_index == sel.primary_index
        },
{
    let ghost s = text@;
    let ghost mapped = line_extended_ranges(sel.ranges@, s);
    let mut v: Vec<TextRange> = Vec::new();
    let mut i: usize = 0;
    while i < sel.ranges.len()
        invariant
            sel.wf(s.len() as int),
            text@ == s,
            text@.len() < usize::MAX,
            i <= sel.ranges@.len(),
            v@ =~= line_extended_ranges(sel.ranges@, s).take(i as int),
            all_in_bounds(v@, s.len() as int),
        decreases sel.ranges.len() - i,
    {
        let r = sel.ranges[i].extend_to_line_bounds(text);
        v.push(r);
        proof {
            assert(line_extended_ranges(sel.ranges@, s).take(i + 1int) =~= line_extended_ranges(
                sel.ranges@,
                s,
            ).take(i as int).push(r));
        }
        i = i + 1;
    }
    proof {
        assert(line_extended_ranges(sel.ranges@, s).take(sel.ranges@.len() as int) =~= mapped);
    }
    let out = Selection { ranges: v, primary_index: sel.primary_index }.normalize(
        Ghost(s.len() as int),
    );
    out
}

/// Collapse every range to a single point at its cursor.
pub fn collapse_selection_ranges(sel: &Selection, text: &Vec<char>) -> (out: Selection)
    requires
        sel.wf(text@.len() as int),
    ensures
        out.wf(text@.len() as int),
        out.ranges@.len() == sel.ranges@.len(),
        forall|i: int|
            0 <= i < sel.ranges@.len() ==> (#[trigger] out.ranges@[i]) == (TextRange {
                anchor: sel.ranges@[i].cursor_spec() as usize,
                head: sel.ranges@[i].cursor_spec() as usize,
            }),
        out.primary_index == sel.primary_index,
{
    let ghost s = text@;
    let mut v: Vec<TextRange> = Vec::new();
    let mut i: usize = 0;
    while i < sel.ranges.len()
        invariant
            sel.wf(s.len() as int),
            text@ == s,
            i <= sel.ranges@.len(),
            v@.len() == i,
            forall|j: int|
                0 <= j < i ==> (#[trigger] v@[j]) == (TextRange {
                    anchor: sel.ranges@[j].cursor_spec() as usize,
                    head: sel.ranges@[j].cursor_spec() as usize,
                }),
        decreases sel.ranges.len() - i,
    {
        let c = sel.ranges[i].cursor();
        v.push(TextRange { anchor: c, head: c });
        i = i + 1;
    }
    proof {
        // collapsed points inherit the order of the ranges
        assert forall|a: int, b: int| 0 <= a < b < v@.len() implies v@[a].to_spec()
            <= v@[b].from_spec() by {
            assert(sel.ranges@[a].to_spec() <= sel.ranges@[b].from_spec());
        }
        assert(all_in_bounds(v@, s.len() as int)) by {
            assert forall|j: int| 0 <= j < v@.len() implies (#[trigger] v@[j]).in_bounds(
                s.len() as int,
            ) by {
                assert(sel.ranges@[j].in_bounds(s.len() as int));
            }
        }
    }
    Selection { ranges: v, primary_index: sel.primary_index }
}

/// Swap anchor and head of every range.
pub fn flip_selection_ranges(sel: &Selection) -> (out: Selection)
    ensures
        out.ranges@.len() == sel.ranges@.len(),
        forall|i: int|
            0 <= i < sel.ranges@.len() ==> (#[trigger] out.ranges@[i]) == (TextRange {
                anchor: sel.ranges@[i].head,
                head: sel.ranges@[i].anchor,
            }),
        out.primary_index == sel.primary_index,
        forall|len: int| sel.wf(len) ==> out.wf(len),
{
    let mut v: Vec<TextRange> = Vec::new();
    let mut i: usize = 0;
    while i < sel.ranges.len()
        invariant
            i <= sel.ranges@.len(),
            v@.len() == i,
            forall|j: int|
                0 <= j < i ==> (#[trigger] v@[j]) == (TextRange {
                    anchor: sel.ranges@[j].head,
                    head: sel.ranges@[j].anchor,
                }),
        decreases sel.ranges.len() - i,
    {
        let r = sel.ranges[i].flip();
        v.push(r);
        i = i + 1;
    }
    proof {
        assert forall|len: int|
            sel.wf(len) implies (Selection { ranges: v, primary_index: sel.primary_index }).wf(
            len,
        ) by {
            assert forall|a: int, b: int| 0 <= a < b < v@.len() implies v@[a].to_spec()
                <= v@[b].from_spec() by {
                assert(sel.ranges@[a].to_spec() <= sel.ranges@[b].from_spec());
            }
            assert forall|j: int| 0 <= j < v@.len() implies (#[trigger] v@[j]).in_bounds(len) by {
                assert(sel.ranges@[j].in_bounds(len));
            }
        }
    }
    Selection { ranges: v, primary_index: sel.primary_index }
}

/// Only the primary range remains.
pub fn keep_primary_only(sel: &Selection) -> (out: Selection)
    requires
        sel.primary_index < sel.ranges@.len(),
    ensures
        out.ranges@ =~= seq![sel.ranges@[sel.primary_index as int]],
        out.primary_index == 0,
        forall|len: int| sel.wf(len) ==> out.wf(len),
{
    Selection::single(sel.primary_range_copy())
}

impl Selection {
    /// The primary range, by value.
    pub fn primary_range_copy(&self) -> (r: TextRange)
        requires
            self.primary_index < self.ranges@.len(),
        ensures
            r == self.ranges@[self.primary_index as int],
    {
        self.ranges[self.primary_index]
    }
}

/// Drop the primary range; the primary moves to the range before it
/// when there is one.
pub fn remove_primary_range(sel: &Selection) -> (out: Selection)
    requires
        sel.ranges@.len() > 1,
        sel.primary_index < sel.ranges@.len(),
    ensures
        out.ranges@ =~= sel.ranges@.remove(sel.primary_index as int),
        out.primary_index == if sel.primary_index > 0 {
            (sel.primary_index - 1) as int
        } else {
            0int
        },
        forall|len: int| sel.wf(len) ==> out.wf(len),
{
    let mut v = crate::state::duplicate_selection(sel);
    let _removed = v.ranges.remove(sel.primary_index);
    let primary = if sel.primary_index > 0 {
        sel.primary_index - 1
    } else {
        0
    };
    proof {
        let rs = sel.ranges@;
        let out_rs = rs.remove(sel.primary_index as int);
        assert forall|len: int|
            sel.wf(len) implies (Selection { ranges: v.ranges, primary_index: primary }).wf(
            len,
        ) by {
            assert forall|a: int, b: int| 0 <= a < b < out_rs.len() implies out_rs[a].to_spec()
                <= out_rs[b].from_spec() by {
                let p = sel.primary_index as int;
                let a0 = if a < p {
                    a
                } else {
                    a + 1
                };
                let b0 = if b < p {
                    b
                } else {
                    b + 1
                };
                assert(out_rs[a] == rs[a0]);
                assert(out_rs[b] == rs[b0]);
                assert(rs[a0].to_spec() <= rs[b0].from_spec());
            }
            assert forall|j: int| 0 <= j < out_rs.len() implies (#[trigger] out_rs[j]).in_bounds(
                len,
            ) by {
                let p = sel.primary_index as int;
                let j0 = if j < p {
                    j
                } else {
                    j + 1
                };
                assert(out_rs[j] == rs[j0]);
                assert(rs[j0].in_bounds(len));
            }
        }
    }
    Selection { ranges: v.ranges, primary_index: primary }
}

/// One range over the whole document.
pub fn select_whole_document(text: &Vec<char>) -> (out: Selection)
    ensures
        out.ranges@ =~= seq![TextRange { anchor: 0usize, head: text@.len() as usize }],
        out.primary_index == 0,
        out.wf(text@.len() as int),
{
    Selection::single(TextRange { anchor: 0, head: text.len() })
}

/// Position of the first character of the line that is neither a space
/// nor a tab, or the line's content end if it is all blank.
pub open spec fn first_nonblank_spec(s: Seq<char>, p: int, end: int) -> int
    decreases end - p,
{
    if p >= end {
        end
    } else if s[p] == ' ' || s[p] == '\t' {
        first_nonblank_spec(s, p + 1, end)
    } else {
        p
    }
}

/// The first non-blank position lies between its bounds.
pub proof fn lemma_first_nonblank_bounds(s: Seq<char>, p: int, end: int)
    requires
        p <= end,
    ensures
        p <= first_nonblank_spec(s, p, end) <= end,
    decreases end - p,
{
    if p < end && (s[p] == ' ' || s[p] == '\t') {
        lemma_first_nonblank_bounds(s, p + 1, end);
    }
}

/// First non-blank position of line `line`.
pub fn first_nonblank_of_line(text: &Vec<char>, line: usize) -> (r: usize)
    requires
        line < usize::MAX,
    ensures
        r as int == first_nonblank_spec(
            text@,
            line_start(text@, line as int),
            line_end(text@, line as int),
        ),
        r <= text@.len(),
{
    let start = crate::text::line_to_char(text, line);
    let end = crate::text::line_end_char_index(text, line);
    proof {
        crate::text::lemma_line_start_bounds(text@, line as int);
        assert(start <= end);
    }
    let mut p: usize = start;
    while p < end
        invariant
            start <= p <= end,
            end <= text@.len(),
            start == line_start(text@, line as int),
            end == line_end(text@, line as int),
            first_nonblank_spec(text@, start as int, end as int) == first_nonblank_spec(
                text@,
                p as int,
                end as int,
            ),
        decreases end - p,
    {
        if text[p] != ' ' && text[p] != '\t' {
            proof {
                assert(first_nonblank_spec(text@, p as int, end as int) == p);
            }
            return p;
        }
        p = p + 1;
    }
    proof {
        assert(first_nonblank_spec(text@, p as int, end as int) == end);
    }
    end
}

} // verus!

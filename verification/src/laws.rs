//! Laws of the modal layer, stated and proved once over the spec
//! functions the commands' contracts use.

use vstd::prelude::*;
use crate::editor::Editor;
use crate::edits::{apply_changes_spec, Change};
use crate::operator::full_line_range_spec;
use crate::paragraph::{para_step_fwd, skip_blank_fwd, skip_nonblank_fwd};
use crate::range::TextRange;
use crate::selection::all_in_bounds;
use crate::state::ModalSessionState;
use crate::text::{line_blank, line_end, line_of, line_start, num_lines};
use crate::transforms::line_extended_ranges;

verus! {

/// Law: extending a range to whole-line bounds is idempotent — a range
/// that already spans whole lines is left exactly as it is.
pub proof fn lemma_line_extend_range_idempotent(s: Seq<char>, r: TextRange)
    requires
        r.in_bounds(s.len() as int),
        s.len() < usize::MAX,
    ensures
        r.line_extended_spec(s).line_extended_spec(s) == r.line_extended_spec(s),
{
    let l1 = line_of(s, r.from_spec());
    let l2 = r.last_line_spec(s);
    let e = r.line_extended_spec(s);
    crate::text::lemma_line_of_bounds(s, r.from_spec());
    if r.from_spec() == r.to_spec() {
        crate::text::lemma_line_of_bounds(s, r.to_spec());
    } else {
        crate::text::lemma_line_of_bounds(s, r.to_spec() - 1);
        crate::text::lemma_take_monotone_count(s, r.from_spec(), r.to_spec() - 1);
    }
    crate::text::lemma_line_start_bounds(s, l1);
    crate::text::lemma_line_start_bounds(s, l2);
    crate::text::lemma_line_start_bounds(s, l2 + 1);
    crate::text::lemma_line_start_monotone(s, l1, l2 + 1);
    crate::text::lemma_line_of_line_start(s, l1);
    if e.anchor == e.head {
        // a zero-width extension: the whole span sits at one line start
        assert(e.from_spec() == e.to_spec());
        assert(line_of(s, e.from_spec()) == l1);
        crate::text::lemma_line_start_monotone(s, l1, l2);
        crate::text::lemma_line_start_monotone(s, l1 + 1, l2 + 1);
        assert(line_start(s, l1 + 1) == line_start(s, l2 + 1));
    } else {
        assert(e.from_spec() == line_start(s, l1));
        assert(e.to_spec() == line_start(s, l2 + 1));
        // the character before the span's end sits on line l2
        let p = line_start(s, l2 + 1) - 1;
        if r.from_spec() == r.to_spec() {
            crate::text::lemma_position_in_its_line(s, r.to_spec());
        } else {
            crate::text::lemma_position_in_its_line(s, r.to_spec() - 1);
        }
        assert(line_start(s, l2) <= p < line_start(s, l2 + 1));
        crate::text::lemma_line_of_in_range(s, p, l2);
        assert(line_of(s, p) == l2);
    }
}

/// Law: extending every range of a selection to line bounds twice
/// yields the ranges one extension yields.
pub proof fn lemma_line_extension_idempotent(s: Seq<char>, rs: Seq<TextRange>)
    requires
        all_in_bounds(rs, s.len() as int),
        s.len() < usize::MAX,
    ensures
        line_extended_ranges(line_extended_ranges(rs, s), s) == line_extended_ranges(rs, s),
{
    let once = line_extended_ranges(rs, s);
    assert forall|i: int| 0 <= i < once.len() implies (#[trigger] once[i]).line_extended_spec(s)
        == once[i] by {
        assert(rs[i].in_bounds(s.len() as int));
        lemma_line_extend_range_idempotent(s, rs[i]);
    }
    assert(line_extended_ranges(once, s) =~= once);
}

/// Total width of lines `a` up to `b`, separators included.
pub open spec fn sum_line_widths(s: Seq<char>, a: int, b: int) -> int
    decreases b - a,
{
    if b <= a {
        0
    } else {
        (line_start(s, a + 1) - line_start(s, a)) + sum_line_widths(s, a + 1, b)
    }
}

/// Line widths telescope into a difference of line starts.
pub proof fn lemma_sum_line_widths(s: Seq<char>, a: int, b: int)
    requires
        0 <= a <= b,
    ensures
        sum_line_widths(s, a, b) == line_start(s, b) - line_start(s, a),
    decreases b - a,
{
    if a < b {
        lemma_sum_line_widths(s, a + 1, b);
    }
}

/// Law: the full-line selection of one range covers exactly the whole
/// lines of its span, extended by `count - 1` lines and clamped to the
/// document: with the trailing separators its width is the sum of
/// those lines' widths, and without them it ends at the last line's
/// content end.
pub proof fn lemma_full_line_selection_spans(s: Seq<char>, r: TextRange, count: int)
    requires
        r.in_bounds(s.len() as int),
        s.len() < usize::MAX,
        count >= 1,
    ensures
        ({
            let sl = line_of(s, r.from_spec());
            let el = r.last_line_spec(s);
            let stop = if el + count <= num_lines(s) {
                el + count
            } else {
                num_lines(s)
            };
            let with_nl = full_line_range_spec(s, r, count, true);
            let without_nl = full_line_range_spec(s, r, count, false);
            &&& with_nl.from_spec() == line_start(s, sl)
            &&& with_nl.to_spec() == line_start(s, stop)
            &&& with_nl.len_spec() == sum_line_widths(s, sl, stop)
            &&& without_nl.from_spec() == line_start(s, sl)
            &&& without_nl.to_spec() == line_end(s, stop - 1)
            &&& el + count <= num_lines(s) ==> stop == el + count
        }),
{
    let sl = line_of(s, r.from_spec());
    let el = r.last_line_spec(s);
    let stop = if el + count <= num_lines(s) {
        el + count
    } else {
        num_lines(s)
    };
    crate::text::lemma_line_of_bounds(s, r.from_spec());
    if r.from_spec() == r.to_spec() {
        crate::text::lemma_line_of_bounds(s, r.to_spec());
    } else {
        crate::text::lemma_line_of_bounds(s, r.to_spec() - 1);
        crate::text::lemma_take_monotone_count(s, r.from_spec(), r.to_spec() - 1);
    }
    crate::text::lemma_count_newlines_nonneg(s);
    crate::text::lemma_line_start_bounds(s, sl);
    crate::text::lemma_line_start_bounds(s, stop);
    crate::text::lemma_line_start_monotone(s, sl, stop);
    lemma_sum_line_widths(s, sl, stop);
    // the clamped stop lines coincide for the two variants
    let tl = if el + count - 1 <= num_lines(s) - 1 {
        el + count - 1
    } else {
        num_lines(s) - 1
    };
    assert(tl == stop - 1);
    crate::text::lemma_line_start_bounds(s, stop - 1);
    crate::text::lemma_line_start_monotone(s, sl, stop - 1);
}

/// Law: yanking a span and pasting it reproduces the yanked text,
/// character for character, at the paste point.
pub proof fn lemma_yank_paste_round_trip(s: Seq<char>, r: TextRange, cs: Seq<Change>, p: int)
    requires
        r.in_bounds(s.len() as int),
        0 <= p <= s.len(),
        cs.len() == 1,
        cs[0].from == p && cs[0].to == p,
        cs[0].insert@ == s.subrange(r.from_spec(), r.to_spec()),
    ensures
        apply_changes_spec(s, cs).subrange(p, p + r.len_spec()) == s.subrange(
            r.from_spec(),
            r.to_spec(),
        ),
        apply_changes_spec(s, cs) == s.take(p) + s.subrange(r.from_spec(), r.to_spec()) + s.skip(
            p,
        ),
{
    let frag = s.subrange(r.from_spec(), r.to_spec());
    assert(cs.drop_first() =~= Seq::<Change>::empty());
    assert(crate::edits::apply_from(s, cs.drop_first(), p) == s.skip(p));
    assert(apply_changes_spec(s, cs) == s.subrange(0, p) + frag + s.skip(p));
    assert(s.subrange(0, p) =~= s.take(p));
    assert((s.take(p) + frag + s.skip(p)).subrange(p, p + frag.len()) =~= frag);
}

/// Law: a delete whose commit recorded the prior buffer, followed by
/// an undo that restored the newest record, leaves the buffer and the
/// selection exactly as they were before the delete.
pub proof fn lemma_delete_then_undo_restores(e0: Editor, e1: Editor, e2: Editor)
    requires
        // the delete recorded the prior state
        e1.history@.len() == e0.history@.len() + 1,
        e1.history@.last().text@ == e0.text@,
        e1.history@.last().selection.ranges@ == e0.selection.ranges@,
        e1.history@.last().selection.primary_index == e0.selection.primary_index,
        // the undo restored the newest record
        e2.text@ == e1.history@.last().text@,
        e2.selection.ranges@ == e1.history@.last().selection.ranges@,
        e2.selection.primary_index == e1.history@.last().selection.primary_index,
    ensures
        e2.text@ == e0.text@,
        e2.selection.ranges@ == e0.selection.ranges@,
        e2.selection.primary_index == e0.selection.primary_index,
{
}

/// Law: the visual sub-modes are never simultaneously active in a
/// well-formed session, and every state transition of the library
/// keeps the session well formed.
pub proof fn lemma_visual_submodes_exclusive(st: ModalSessionState)
    requires
        st.wf(),
    ensures
        !(st.visual_lines && st.visual_blocks),
{
}

/// A document whose paragraphs are separated by single blank lines.
pub open spec fn blank_separated_layout(s: Seq<char>) -> bool {
    forall|l: int|
        0 <= l < num_lines(s) - 1 ==> !((#[trigger] line_blank(s, l)) && line_blank(s, l + 1))
}

/// Law: in a blank-line-delimited layout, one forward paragraph step
/// lands at the document's end or on the first line of a paragraph —
/// a non-blank line right after a blank one.
pub proof fn lemma_paragraph_step_lands_on_boundary(s: Seq<char>, l: int)
    requires
        blank_separated_layout(s),
        0 <= l <= num_lines(s),
    ensures
        ({
            let t = para_step_fwd(s, l);
            t == num_lines(s) || (t >= 1 && line_blank(s, t - 1) && !line_blank(s, t))
        }),
{
    let a = skip_blank_fwd(s, l);
    let b = skip_nonblank_fwd(s, a);
    crate::paragraph::lemma_skip_fwd_bounds(s, l);
    crate::paragraph::lemma_skip_fwd_bounds(s, a);
    lemma_skip_nonblank_hits_blank(s, a);
    if b < num_lines(s) && line_blank(s, b) {
        // the landing line b + 1 follows the blank separator b
        if b + 1 < num_lines(s) {
            assert(!(line_blank(s, b) && line_blank(s, b + 1)));
        }
    }
}

/// Where the non-blank skip stops there is a blank line or the end.
proof fn lemma_skip_nonblank_hits_blank(s: Seq<char>, l: int)
    requires
        0 <= l <= num_lines(s),
    ensures
        skip_nonblank_fwd(s, l) == num_lines(s) || line_blank(s, skip_nonblank_fwd(s, l)),
    decreases num_lines(s) - l,
{
    if l < num_lines(s) && !line_blank(s, l) {
        lemma_skip_nonblank_hits_blank(s, l + 1);
    }
}

/// Every line the non-blank skip passes over is non-blank.
proof fn lemma_skip_nonblank_fwd_run(s: Seq<char>, l: int)
    requires
        0 <= l <= num_lines(s),
    ensures
        forall|k: int| l <= k < skip_nonblank_fwd(s, l) ==> !(#[trigger] line_blank(s, k)),
    decreases num_lines(s) - l,
{
    if l < num_lines(s) && !line_blank(s, l) {
        lemma_skip_nonblank_fwd_run(s, l + 1);
    }
}

/// Walking back over a run of non-blank lines that a boundary opens
/// stops exactly at the boundary.
proof fn lemma_skip_nonblank_back_to_boundary(s: Seq<char>, b: int, q: int)
    requires
        0 <= q <= b,
        forall|k: int| q <= k < b ==> !(#[trigger] line_blank(s, k)),
        q == 0 || line_blank(s, q - 1),
    ensures
        crate::paragraph::skip_nonblank_back(s, b) == q,
    decreases b - q,
{
    if b == q {
        if q > 0 {
            assert(line_blank(s, q - 1));
        }
    } else {
        assert(!line_blank(s, b - 1));
        lemma_skip_nonblank_back_to_boundary(s, b - 1, q);
    }
}

/// Law: in a blank-line-delimited layout the paragraph motions are
/// inverse up to the separator line.  From any line of a paragraph,
/// the forward step lands on the next paragraph's first line; the
/// backward step taken from there (or from the separator just before
/// it) returns to the original paragraph's boundary — the paragraph's
/// first line when it opens the document, and otherwise the blank
/// separator line directly above that first line.
pub proof fn lemma_paragraph_round_trip(s: Seq<char>, q: int, m: int)
    requires
        blank_separated_layout(s),
        0 <= q <= m < num_lines(s),
        forall|k: int| q <= k <= m ==> !(#[trigger] line_blank(s, k)),
        q == 0 || line_blank(s, q - 1),
        para_step_fwd(s, m) < num_lines(s),
    ensures
        ({
            let p = para_step_fwd(s, m);
            let back = if q == 0 {
                0int
            } else {
                q - 1
            };
            &&& line_blank(s, p - 1) && !line_blank(s, p)
            &&& crate::paragraph::para_step_back(s, p) == back
            &&& crate::paragraph::para_step_back(s, p - 1) == back
        }),
{
    let nl = num_lines(s);
    let p = para_step_fwd(s, m);
    // the forward step from the non-blank line m: no blanks to skip,
    // then the paragraph's run, then the separator
    assert(skip_blank_fwd(s, m) == m);
    let b = skip_nonblank_fwd(s, m);
    crate::paragraph::lemma_skip_fwd_bounds(s, m);
    lemma_skip_nonblank_hits_blank(s, m);
    lemma_skip_nonblank_fwd_run(s, m);
    assert(b > m) by {
        assert(!line_blank(s, m));
    }
    assert(b < nl && line_blank(s, b)) by {
        if b == nl {
            assert(p == b);
        }
    }
    assert(p == b + 1);
    lemma_paragraph_step_lands_on_boundary(s, m);
    // the backward step, from the landing line or its separator: both
    // first reach the separator, then walk the whole original run
    let back = if q == 0 {
        0int
    } else {
        q - 1
    };
    assert(crate::paragraph::skip_blank_back(s, b) == b) by {
        if b > 0 {
            assert(!line_blank(s, b - 1));
        }
    }
    assert(crate::paragraph::skip_blank_back(s, p) == b) by {
        assert(line_blank(s, p - 1));
        assert(crate::paragraph::skip_blank_back(s, p) == crate::paragraph::skip_blank_back(s, b));
    }
    assert forall|k: int| q <= k < b implies !(#[trigger] line_blank(s, k)) by {
        if k <= m {
        } else {
            assert(m <= k < skip_nonblank_fwd(s, m));
        }
    }
    lemma_skip_nonblank_back_to_boundary(s, b, q);
    assert(crate::paragraph::para_step_back(s, p) == back);
    assert(crate::paragraph::para_step_back(s, b) == back);
}

} // verus!

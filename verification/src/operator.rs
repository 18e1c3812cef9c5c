//! The operator engine's data.
//!
//! An operator keypress captures a context — which operator, the
//! numeric count, the target register — and suspends until the next
//! key.  The suspension is an explicit tagged value stored in the
//! session, consumed by exactly one later keypress.

use vstd::prelude::*;
use crate::editor::{Editor, InfoPanel, Mode, StatusMsg};
use crate::edits::Change;
use crate::range::{Direction, TextRange};
use crate::selection::{sorted_nonoverlapping, sum_range_lens, Selection};
use crate::text::{line_end, line_of, line_start, num_lines};

verus! {

/// The three operators.
#[derive(Clone, Copy, PartialEq, Eq, Structural, Debug)]
pub enum VimOp {
    Yank,
    Delete,
    Change,
}

/// Whether a text object covers its delimiters.
#[derive(Clone, Copy, PartialEq, Eq, Structural, Debug)]
pub enum TextObjectKind {
    Inside,
    Around,
}

/// The context captured when an operator key is pressed.
#[derive(Clone, Copy, PartialEq, Eq, Structural, Debug)]
pub struct VimOpCtx {
    pub op: VimOp,
    pub count: Option<usize>,
    pub register: Option<char>,
}

/// The one-key continuation: what the next keypress will resolve.
#[derive(Clone, Copy, Debug)]
pub enum PendingInput {
    /// No continuation armed; keys dispatch normally.
    Idle,
    /// An operator waits for a motion, a text-object selector, a
    /// find/till selector, or its own letter doubled.
    OperatorTarget { ctx: VimOpCtx },
    /// `i`/`a` was seen; one more key names the text object.
    TextObjectKey { ctx: Option<VimOpCtx>, kind: TextObjectKind, count: usize },
    /// `t`/`f`/`T`/`F` was seen; one more key names the character.
    FindChar {
        ctx: Option<VimOpCtx>,
        direction: Direction,
        inclusive: bool,
        extend: bool,
        count: usize,
    },
}

impl VimOpCtx {
    /// A captured count is never zero.
    pub open spec fn wf(self) -> bool {
        self.count != Some(0usize)
    }

    /// The effective count of the pending command.
    pub fn ctx_count(&self) -> (r: usize)
        requires
            self.wf(),
        ensures
            r == self.count_spec(),
            r >= 1,
    {
        match self.count {
            Some(n) => n,
            None => 1,
        }
    }

    pub open spec fn count_spec(self) -> int {
        match self.count {
            Some(n) => n as int,
            None => 1,
        }
    }
}

/// The continuation's captured context, if any, is well formed, and a
/// captured count is positive.
pub open spec fn pending_wf(p: PendingInput) -> bool {
    match p {
        PendingInput::Idle => true,
        PendingInput::OperatorTarget { ctx } => ctx.wf(),
        PendingInput::TextObjectKey { ctx, count, .. } => count >= 1 && (match ctx {
            Some(c) => c.wf(),
            None => true,
        }),
        PendingInput::FindChar { ctx, count, .. } => count >= 1 && (match ctx {
            Some(c) => c.wf(),
            None => true,
        }),
    }
}

impl VimOpCtx {
    /// Capture the operator context from the session's transient count
    /// and register choice.
    pub fn new(ed: &Editor, op: VimOp) -> (r: VimOpCtx)
        requires
            ed.count != Some(0usize),
        ensures
            r == (VimOpCtx {
                op,
                count: Some(ed.count_spec() as usize),
                register: ed.register,
            }),
            r.wf(),
            r.count_spec() == ed.count_spec(),
    {
        VimOpCtx { op, count: Some(ed.effective_count()), register: ed.register }
    }

    /// Capture the operator context with an explicit target register.
    pub fn with_custom_register(ed: &Editor, op: VimOp, register: Option<char>) -> (r: VimOpCtx)
        requires
            ed.count != Some(0usize),
        ensures
            r == (VimOpCtx { op, count: Some(ed.count_spec() as usize), register }),
            r.wf(),
            r.count_spec() == ed.count_spec(),
    {
        VimOpCtx { op, count: Some(ed.effective_count()), register }
    }
}

/// What the full-line construction does to one range: the covered line
/// span grows by `count - 1` further lines, clamped to the document;
/// with the trailing separator when `include_last_newline` is set, and
/// up to the last line's content end otherwise.
pub open spec fn full_line_range_spec(
    s: Seq<char>,
    r: TextRange,
    count: int,
    include_last_newline: bool,
) -> TextRange {
    let sl = line_of(s, r.from_spec());
    let el = r.last_line_spec(s);
    let start = line_start(s, sl);
    let end = if include_last_newline {
        let tl = if el + count <= num_lines(s) {
            el + count
        } else {
            num_lines(s)
        };
        line_start(s, tl)
    } else {
        let tl = if el + count - 1 <= num_lines(s) - 1 {
            el + count - 1
        } else {
            num_lines(s) - 1
        };
        line_end(s, tl)
    };
    (TextRange { anchor: start as usize, head: end as usize }).with_direction_spec(
        r.direction_spec(),
    )
}

/// The ranges the full-line construction produces, before
/// normalization.
pub open spec fn full_line_ranges(
    rs: Seq<TextRange>,
    s: Seq<char>,
    count: int,
    include_last_newline: bool,
) -> Seq<TextRange> {
    Seq::new(rs.len(), |i: int| full_line_range_spec(s, rs[i], count, include_last_newline))
}

/// Whole lines covering one range, extended by `count - 1` lines.
pub fn full_line_range(
    text: &Vec<char>,
    r: &TextRange,
    count: usize,
    include_last_newline: bool,
) -> (out: TextRange)
    requires
        r.in_bounds(text@.len() as int),
        text@.len() < usize::MAX,
        count >= 1,
    ensures
        out == full_line_range_spec(text@, *r, count as int, include_last_newline),
        out.in_bounds(text@.len() as int),
{
    let ghost s = text@;
    let (sl, el) = r.line_range(text);
    let start = crate::text::line_to_char(text, sl);
    let nl = crate::text::len_lines(text);
    proof {
        crate::text::lemma_line_start_bounds(s, sl as int);
    }
    let end: usize = if include_last_newline {
        let tl = if count <= nl && el <= nl - count {
            el + count
        } else {
            nl
        };
        let e = crate::text::line_to_char(text, tl);
        proof {
            crate::text::lemma_line_start_bounds(s, tl as int);
        }
        e
    } else {
        let tl = if count - 1 <= nl - 1 && el <= (nl - 1) - (count - 1) {
            el + (count - 1)
        } else {
            nl - 1
        };
        let e = crate::text::line_end_char_index(text, tl);
        e
    };
    let out = (TextRange { anchor: start, head: end }).with_direction(r.direction());
    proof {
        crate::text::lemma_line_of_bounds(s, r.from_spec());
        if r.from_spec() == r.to_spec() {
            crate::text::lemma_line_of_bounds(s, r.to_spec());
        } else {
            crate::text::lemma_line_of_bounds(s, r.to_spec() - 1);
        }
    }
    out
}

/// The full-line selection: every range extended to whole lines, then
/// normalized.
pub fn get_full_line_selection(ed: &Editor, count: usize, include_last_newline: bool) -> (out:
    Selection)
    requires
        ed.wf(),
        count >= 1,
    ensures
        out.wf(ed.text@.len() as int),
        sorted_nonoverlapping(
            full_line_ranges(ed.selection.ranges@, ed.text@, count as int, include_last_newline),
        ) ==> {
            &&& out.ranges@ == full_line_ranges(
                ed.selection.ranges@,
                ed.text@,
                count as int,
                include_last_newline,
            )
            &&& out.primary_index == ed.selection.primary_index
        },
{
    let ghost s = ed.text@;
    let ghost mapped = full_line_ranges(ed.selection.ranges@, s, count as int, include_last_newline);
    let mut v: Vec<TextRange> = Vec::new();
    let mut i: usize = 0;
    while i < ed.selection.ranges.len()
        invariant
            ed.wf(),
            count >= 1,
            s == ed.text@,
            i <= ed.selection.ranges@.len(),
            v@ =~= full_line_ranges(ed.selection.ranges@, s, count as int, include_last_newline)
                .take(i as int),
            crate::selection::all_in_bounds(v@, s.len() as int),
        decreases ed.selection.ranges.len() - i,
    {
        let r = full_line_range(&ed.text, &ed.selection.ranges[i], count, include_last_newline);
        v.push(r);
        proof {
            assert(full_line_ranges(ed.selection.ranges@, s, count as int, include_last_newline)
                .take(i + 1int) =~= full_line_ranges(
                ed.selection.ranges@,
                s,
                count as int,
                include_last_newline,
            ).take(i as int).push(r));
        }
        i = i + 1;
    }
    proof {
        assert(full_line_ranges(ed.selection.ranges@, s, count as int, include_last_newline).take(
            ed.selection.ranges@.len() as int,
        ) =~= mapped);
    }
    Selection { ranges: v, primary_index: ed.selection.primary_index }.normalize(
        Ghost(s.len() as int),
    )
}

/// What each range of a selection covers, in order.
pub open spec fn fragments_spec(s: Seq<char>, rs: Seq<TextRange>) -> Seq<Seq<char>> {
    Seq::new(rs.len(), |i: int| s.subrange(rs[i].from_spec(), rs[i].to_spec()))
}

/// Extract each range's covered text as an independent value.
pub fn selection_fragments(text: &Vec<char>, sel: &Selection) -> (out: Vec<Vec<char>>)
    requires
        sel.wf(text@.len() as int),
    ensures
        crate::registers::values_view(out@) == fragments_spec(text@, sel.ranges@),
        out@.len() == sel.ranges@.len(),
{
    let mut out: Vec<Vec<char>> = Vec::new();
    let mut i: usize = 0;
    while i < sel.ranges.len()
        invariant
            sel.wf(text@.len() as int),
            i <= sel.ranges@.len(),
            out@.len() == i,
            forall|j: int|
                0 <= j < i ==> (#[trigger] out@[j])@ == text@.subrange(
                    sel.ranges@[j].from_spec(),
                    sel.ranges@[j].to_spec(),
                ),
        decreases sel.ranges.len() - i,
    {
        let r = sel.ranges[i];
        let frag = crate::text::extract(text, r.from(), r.to());
        out.push(frag);
        i = i + 1;
    }
    proof {
        assert(crate::registers::values_view(out@) =~= fragments_spec(text@, sel.ranges@));
    }
    out
}

/// Write the fragments of `sel` to the register, and report the count
/// and destination.  The register store in this model does not fail.
pub fn yank_selection(ed: &mut Editor, sel: &Selection, register: Option<char>)
    requires
        old(ed).wf(),
        sel.wf(old(ed).text@.len() as int),
    ensures
        final(ed).wf(),
        *final(ed) == (Editor {
            registers: final(ed).registers,
            status: final(ed).status,
            ..*old(ed)
        }),
        final(ed).registers.contents(yank_register_spec(*old(ed), register)) == Some(
            fragments_spec(old(ed).text@, sel.ranges@),
        ),
        forall|c: char|
            c != yank_register_spec(*old(ed), register) ==> final(ed).registers.contents(c) == old(
                ed,
            ).registers.contents(c),
        final(ed).status == Some(
            StatusMsg::YankedSelections {
                count: sel.ranges@.len() as usize,
                register: yank_register_spec(*old(ed), register),
            },
        ),
{
    let reg = match register {
        Some(r) => r,
        None => ed.config.default_yank_register,
    };
    let values = selection_fragments(&ed.text, sel);
    let n = values.len();
    ed.registers.write(reg, values);
    ed.status = Some(StatusMsg::YankedSelections { count: n, register: reg });
}

/// The register a yank lands in: the chosen one, or the configured
/// default.
pub open spec fn yank_register_spec(ed: Editor, register: Option<char>) -> char {
    match register {
        Some(r) => r,
        None => ed.config.default_yank_register,
    }
}

/// The text that remains after removing the ranges at and after
/// position `pos`.
pub open spec fn delete_from_ranges(s: Seq<char>, rs: Seq<TextRange>, pos: int) -> Seq<char>
    decreases rs.len(),
{
    if rs.len() == 0 {
        s.skip(pos)
    } else {
        s.subrange(pos, rs[0].from_spec()) + delete_from_ranges(s, rs.drop_first(), rs[0].to_spec())
    }
}

/// The whole text after removing every range of the selection.
pub open spec fn delete_ranges_spec(s: Seq<char>, rs: Seq<TextRange>) -> Seq<char> {
    delete_from_ranges(s, rs, 0)
}

/// Applying changes that delete exactly the given ranges leaves the
/// text `delete_from_ranges` describes.
proof fn lemma_delete_matches_changes(
    s: Seq<char>,
    rs: Seq<TextRange>,
    cs: Seq<Change>,
    pos: int,
)
    requires
        cs.len() == rs.len(),
        forall|i: int|
            0 <= i < cs.len() ==> (#[trigger] cs[i]).from as int == rs[i].from_spec() && cs[i].to
                as int == rs[i].to_spec() && cs[i].insert@.len() == 0,
    ensures
        crate::edits::apply_from(s, cs, pos) == delete_from_ranges(s, rs, pos),
    decreases rs.len(),
{
    if rs.len() > 0 {
        assert(forall|i: int|
            0 <= i < cs.drop_first().len() ==> #[trigger] cs.drop_first()[i] == cs[i + 1]);
        assert(forall|i: int|
            0 <= i < rs.drop_first().len() ==> #[trigger] rs.drop_first()[i] == rs[i + 1]);
        lemma_delete_matches_changes(s, rs.drop_first(), cs.drop_first(), rs[0].to_spec());
        assert(cs[0].insert@ =~= Seq::<char>::empty());
        assert(s.subrange(pos, cs[0].from as int) + cs[0].insert@ + crate::edits::apply_from(
            s,
            cs.drop_first(),
            cs[0].to as int,
        ) =~= s.subrange(pos, rs[0].from_spec()) + delete_from_ranges(
            s,
            rs.drop_first(),
            rs[0].to_spec(),
        ));
    }
}

/// Widths removed before each range never exceed that range's start,
/// and the whole removal fits the text.
proof fn lemma_delete_positions(rs: Seq<TextRange>, len: int, i: int)
    requires
        sorted_nonoverlapping(rs),
        crate::selection::all_in_bounds(rs, len),
        0 <= i < rs.len(),
    ensures
        0 <= sum_range_lens(rs.take(i)) <= rs[i].from_spec(),
        rs[i].from_spec() - sum_range_lens(rs.take(i)) <= len - sum_range_lens(rs),
    decreases rs.len() - i,
{
    lemma_sum_take_le(rs, i);
    lemma_sum_suffix_bound(rs, len, i);
}

/// The sum over a prefix of ordered ranges stays below the next start.
proof fn lemma_sum_take_le(rs: Seq<TextRange>, i: int)
    requires
        sorted_nonoverlapping(rs),
        0 <= i < rs.len(),
    ensures
        0 <= sum_range_lens(rs.take(i)) <= rs[i].from_spec(),
    decreases i,
{
    if i == 0 {
        assert(rs.take(0) =~= Seq::<TextRange>::empty());
    } else {
        lemma_sum_take_le(rs, i - 1);
        assert(rs.take(i).drop_last() =~= rs.take(i - 1));
        assert(rs.take(i).last() == rs[i - 1]);
        assert(rs[i - 1].to_spec() <= rs[i].from_spec());
    }
}

/// What the ranges at and after `i` remove fits between that range's
/// start and the end of the text.
proof fn lemma_sum_suffix_bound(rs: Seq<TextRange>, len: int, i: int)
    requires
        sorted_nonoverlapping(rs),
        crate::selection::all_in_bounds(rs, len),
        0 <= i < rs.len(),
    ensures
        sum_range_lens(rs) - sum_range_lens(rs.take(i)) <= len - rs[i].from_spec(),
    decreases rs.len() - i,
{
    if i == rs.len() - 1 {
        assert(rs.take(i + 1) =~= rs);
        lemma_sum_split(rs, i + 1);
        assert(rs[i].to_spec() <= len);
    } else {
        lemma_sum_suffix_bound(rs, len, i + 1);
        lemma_sum_split(rs, i + 1);
        assert(rs.take(i + 1).drop_last() =~= rs.take(i));
        assert(rs.take(i + 1).last() == rs[i]);
        assert(rs[i].to_spec() <= rs[i + 1].from_spec());
    }
}

/// The sum over the first `i + 1` ranges unfolds by one step.
proof fn lemma_sum_split(rs: Seq<TextRange>, i: int)
    requires
        0 < i <= rs.len(),
    ensures
        sum_range_lens(rs.take(i)) == sum_range_lens(rs.take(i - 1)) + rs[i - 1].len_spec(),
{
    assert(rs.take(i).drop_last() =~= rs.take(i - 1));
    assert(rs.take(i).last() == rs[i - 1]);
}

/// Remove the text each range covers, in one atomic edit; the
/// selection becomes zero-width cursors at the deletion points, and
/// the prior buffer state is recorded for undo.
pub fn delete_selection_without_yank(ed: &mut Editor, sel: &Selection)
    requires
        old(ed).wf(),
        sel.wf(old(ed).text@.len() as int),
    ensures
        final(ed).wf(),
        *final(ed) == (Editor {
            text: final(ed).text,
            selection: final(ed).selection,
            history: final(ed).history,
            ..*old(ed)
        }),
        final(ed).text@ == delete_ranges_spec(old(ed).text@, sel.ranges@),
        final(ed).selection.ranges@.len() == sel.ranges@.len(),
        forall|i: int|
            0 <= i < sel.ranges@.len() ==> (#[trigger] final(ed).selection.ranges@[i]) == (TextRange {
                anchor: (sel.ranges@[i].from_spec() - sum_range_lens(sel.ranges@.take(i))) as usize,
                head: (sel.ranges@[i].from_spec() - sum_range_lens(sel.ranges@.take(i))) as usize,
            }),
        final(ed).selection.primary_index == sel.primary_index,
        final(ed).history@.len() == old(ed).history@.len() + 1,
        final(ed).history@.last().text@ == old(ed).text@,
        final(ed).history@.last().selection.ranges@ == old(ed).selection.ranges@,
        final(ed).history@.last().selection.primary_index == old(ed).selection.primary_index,
        forall|i: int|
            0 <= i < old(ed).history@.len() ==> final(ed).history@[i] == old(ed).history@[i],
        final(ed).text@.len() == old(ed).text@.len() - sum_range_lens(sel.ranges@),
{
    let ghost s = ed.text@;
    ed.snapshot();
    // build the change list: each range removed, nothing inserted
    let mut changes: Vec<Change> = Vec::new();
    let mut i: usize = 0;
    while i < sel.ranges.len()
        invariant
            sel.wf(s.len() as int),
            i <= sel.ranges@.len(),
            changes@.len() == i,
            forall|j: int|
                0 <= j < i ==> (#[trigger] changes@[j]).from as int == sel.ranges@[j].from_spec()
                    && changes@[j].to as int == sel.ranges@[j].to_spec()
                    && changes@[j].insert@.len() == 0,
        decreases sel.ranges.len() - i,
    {
        let r = sel.ranges[i];
        changes.push(Change { from: r.from(), to: r.to(), insert: Vec::new() });
        i = i + 1;
    }
    proof {
        assert(crate::edits::changes_wf(changes@, s.len() as int)) by {
            assert forall|j: int|
                0 <= j < changes@.len() implies (#[trigger] changes@[j]).from <= changes@[j].to
                <= s.len() by {
                assert(sel.ranges@[j].in_bounds(s.len() as int));
            }
            assert forall|j: int|
                0 <= j < changes@.len() - 1 implies (#[trigger] changes@[j]).to <= changes@[j
                + 1].from by {
                assert(sel.ranges@[j].to_spec() <= sel.ranges@[j + 1].from_spec());
            }
        }
    }
    let new_text = crate::edits::apply_changes(&ed.text, &changes);
    proof {
        lemma_delete_matches_changes(s, sel.ranges@, changes@, 0);
        lemma_delete_len(s, sel.ranges@, changes@);
    }
    // map each deletion point into the new text
    let mut points: Vec<TextRange> = Vec::new();
    let mut removed: usize = 0;
    let mut k: usize = 0;
    proof {
        assert(sel.ranges@.take(0) =~= Seq::<TextRange>::empty());
    }
    while k < sel.ranges.len()
        invariant
            sel.wf(s.len() as int),
            k <= sel.ranges@.len(),
            points@.len() == k,
            removed as int == sum_range_lens(sel.ranges@.take(k as int)),
            removed <= s.len(),
            forall|j: int|
                0 <= j < k ==> (#[trigger] points@[j]) == (TextRange {
                    anchor: (sel.ranges@[j].from_spec() - sum_range_lens(
                        sel.ranges@.take(j),
                    )) as usize,
                    head: (sel.ranges@[j].from_spec() - sum_range_lens(
                        sel.ranges@.take(j),
                    )) as usize,
                }),
        decreases sel.ranges.len() - k,
    {
        let r = sel.ranges[k];
        proof {
            lemma_delete_positions(sel.ranges@, s.len() as int, k as int);
            lemma_sum_split(sel.ranges@, k + 1int);
        }
        let p = r.from() - removed;
        points.push(TextRange { anchor: p, head: p });
        removed = removed + (r.to() - r.from());
        k = k + 1;
    }
    proof {
        // the points are ordered and fit the shrunk text
        let rs = sel.ranges@;
        let new_len = s.len() - sum_range_lens(rs);
        assert(rs.take(rs.len() as int) =~= rs);
        assert forall|a: int, b: int| 0 <= a < b < points@.len() implies points@[a].to_spec()
            <= points@[b].from_spec() by {
            lemma_delete_positions(rs, s.len() as int, a);
            lemma_delete_positions(rs, s.len() as int, b);
            lemma_sum_window(rs, a, b);
        }
        assert forall|j: int| 0 <= j < points@.len() implies (#[trigger] points@[j]).in_bounds(
            new_len,
        ) by {
            lemma_delete_positions(rs, s.len() as int, j);
        }
    }
    ed.text = new_text;
    ed.selection = Selection { ranges: points, primary_index: sel.primary_index };
}

/// Between two ordered ranges, the widths summed in between fit in
/// the gap between their starts.
proof fn lemma_sum_window(rs: Seq<TextRange>, a: int, b: int)
    requires
        sorted_nonoverlapping(rs),
        0 <= a <= b < rs.len(),
    ensures
        sum_range_lens(rs.take(b)) - sum_range_lens(rs.take(a)) <= rs[b].from_spec()
            - rs[a].from_spec(),
    decreases b - a,
{
    if b > a {
        lemma_sum_window(rs, a, b - 1);
        lemma_sum_split(rs, b);
        assert(rs[b - 1].to_spec() <= rs[b].from_spec());
    }
}

/// Deleting the ranges shortens the text by their total width.
proof fn lemma_delete_len(s: Seq<char>, rs: Seq<TextRange>, cs: Seq<Change>)
    requires
        cs.len() == rs.len(),
        crate::edits::changes_wf(cs, s.len() as int),
        forall|i: int|
            0 <= i < cs.len() ==> (#[trigger] cs[i]).from as int == rs[i].from_spec() && cs[i].to
                as int == rs[i].to_spec() && cs[i].insert@.len() == 0,
    ensures
        delete_ranges_spec(s, rs).len() == s.len() - sum_range_lens(rs),
        sum_range_lens(rs) <= s.len(),
{
    lemma_delete_matches_changes(s, rs, cs, 0);
    crate::edits::lemma_apply_from_len(s, cs, 0);
    lemma_sum_is_deleted(rs, cs);
    lemma_inserted_zero(cs);
}

/// The changes' removed width is the ranges' total width.
proof fn lemma_sum_is_deleted(rs: Seq<TextRange>, cs: Seq<Change>)
    requires
        cs.len() == rs.len(),
        forall|i: int|
            0 <= i < cs.len() ==> (#[trigger] cs[i]).from as int == rs[i].from_spec() && cs[i].to
                as int == rs[i].to_spec(),
    ensures
        crate::edits::deleted_len(cs) == sum_range_lens(rs),
    decreases rs.len(),
{
    if rs.len() > 0 {
        assert(forall|i: int|
            0 <= i < cs.drop_first().len() ==> #[trigger] cs.drop_first()[i] == cs[i + 1]);
        assert(forall|i: int|
            0 <= i < rs.drop_first().len() ==> #[trigger] rs.drop_first()[i] == rs[i + 1]);
        lemma_sum_is_deleted(rs.drop_first(), cs.drop_first());
        lemma_sum_last(rs);
    }
}

/// The sum over all ranges unfolds from the front as well.
proof fn lemma_sum_last(rs: Seq<TextRange>)
    requires
        rs.len() > 0,
    ensures
        sum_range_lens(rs) == rs[0].len_spec() + sum_range_lens(rs.drop_first()),
    decreases rs.len(),
{
    if rs.len() == 1 {
        assert(rs.drop_last() =~= Seq::<TextRange>::empty());
        assert(rs.drop_first() =~= Seq::<TextRange>::empty());
    } else {
        lemma_sum_last(rs.drop_last());
        assert(rs.drop_last().drop_first() =~= rs.drop_first().drop_last());
        assert(rs.drop_last()[0] == rs[0]);
        assert(rs.drop_first().last() == rs.last());
    }
}

impl VimOpCtx {
    /// The commit: always yank, then for delete and change remove the
    /// covered text in one atomic edit, and for change enter insertion
    /// mode at the resulting cursors.
    pub fn run_operator(
        &self,
        ed: &mut Editor,
        selection_to_yank: &Selection,
        selection_to_delete: &Selection,
    )
        requires
            old(ed).wf(),
            selection_to_yank.wf(old(ed).text@.len() as int),
            selection_to_delete.wf(old(ed).text@.len() as int),
        ensures
            final(ed).wf(),
            final(ed).registers.contents(yank_register_spec(*old(ed), self.register)) == Some(
                fragments_spec(old(ed).text@, selection_to_yank.ranges@),
            ),
            forall|c: char|
                c != yank_register_spec(*old(ed), self.register) ==> final(ed).registers.contents(
                    c,
                ) == old(ed).registers.contents(c),
            final(ed).status == Some(
                StatusMsg::YankedSelections {
                    count: selection_to_yank.ranges@.len() as usize,
                    register: yank_register_spec(*old(ed), self.register),
                },
            ),
            self.op == VimOp::Yank ==> *final(ed) == (Editor {
                registers: final(ed).registers,
                status: final(ed).status,
                ..*old(ed)
            }),
            self.op == VimOp::Delete || self.op == VimOp::Change ==> {
                &&& final(ed).text@ == delete_ranges_spec(
                    old(ed).text@,
                    selection_to_delete.ranges@,
                )
                &&& final(ed).selection.ranges@.len() == selection_to_delete.ranges@.len()
                &&& forall|i: int|
                    0 <= i < selection_to_delete.ranges@.len() ==> (
                    #[trigger] final(ed).selection.ranges@[i]) == (TextRange {
                        anchor: (selection_to_delete.ranges@[i].from_spec() - sum_range_lens(
                            selection_to_delete.ranges@.take(i),
                        )) as usize,
                        head: (selection_to_delete.ranges@[i].from_spec() - sum_range_lens(
                            selection_to_delete.ranges@.take(i),
                        )) as usize,
                    })
                &&& final(ed).history@.len() == old(ed).history@.len() + 1
                &&& final(ed).history@.last().text@ == old(ed).text@
            },
            self.op == VimOp::Delete ==> final(ed).mode == old(ed).mode,
            self.op == VimOp::Change ==> final(ed).mode == Mode::Insert,
            self.op == VimOp::Delete || self.op == VimOp::Change ==> *final(ed) == (Editor {
                registers: final(ed).registers,
                status: final(ed).status,
                text: final(ed).text,
                selection: final(ed).selection,
                history: final(ed).history,
                mode: final(ed).mode,
                ..*old(ed)
            }),
    {
        yank_selection(ed, selection_to_yank, self.register);
        match self.op {
            VimOp::Delete | VimOp::Change => {
                delete_selection_without_yank(ed, selection_to_delete);
            },
            VimOp::Yank => {
                return ;
            },
        }
        if self.op == VimOp::Change {
            ed.mode = Mode::Insert;
        }
    }

    /// Commit over the active selection: the cursor is first put at
    /// each range's start (flip, then collapse), and the captured
    /// selection is what the operator consumes.
    pub fn run_operator_for_current_selection(&self, ed: &mut Editor)
        requires
            old(ed).wf(),
        ensures
            final(ed).wf(),
            final(ed).registers.contents(yank_register_spec(*old(ed), self.register)) == Some(
                fragments_spec(old(ed).text@, old(ed).selection.ranges@),
            ),
            self.op == VimOp::Yank ==> final(ed).text@ == old(ed).text@,
            self.op == VimOp::Delete || self.op == VimOp::Change ==> final(ed).text@
                == delete_ranges_spec(old(ed).text@, old(ed).selection.ranges@),
            self.op == VimOp::Change ==> final(ed).mode == Mode::Insert,
            self.op == VimOp::Delete ==> final(ed).mode == old(ed).mode,
            self.op == VimOp::Yank ==> final(ed).mode == old(ed).mode,
            // delete and change leave zero-width cursors at the
            // deletion points
            (self.op == VimOp::Delete || self.op == VimOp::Change) ==> final(ed).selection.ranges@.len() == old(ed).selection.ranges@.len() && (forall|i: int|
                0 <= i < old(ed).selection.ranges@.len() ==> (
                #[trigger] final(ed).selection.ranges@[i]) == (TextRange {
                    anchor: (old(ed).selection.ranges@[i].from_spec() - sum_range_lens(
                        old(ed).selection.ranges@.take(i),
                    )) as usize,
                    head: (old(ed).selection.ranges@[i].from_spec() - sum_range_lens(
                        old(ed).selection.ranges@.take(i),
                    )) as usize,
                })),
            // a pure yank leaves a cursor at each range's start
            self.op == VimOp::Yank ==> final(ed).selection.ranges@.len() == old(
                ed,
            ).selection.ranges@.len() && (forall|i: int|
                0 <= i < old(ed).selection.ranges@.len() ==> (
                #[trigger] final(ed).selection.ranges@[i]) == ({
                    let flipped = (TextRange {
                        anchor: old(ed).selection.ranges@[i].head,
                        head: old(ed).selection.ranges@[i].anchor,
                    });
                    (TextRange {
                        anchor: flipped.cursor_spec() as usize,
                        head: flipped.cursor_spec() as usize,
                    })
                })),
            final(ed).pending == old(ed).pending,
            final(ed).state == old(ed).state,
            *final(ed) == (Editor {
                registers: final(ed).registers,
                status: final(ed).status,
                text: final(ed).text,
                selection: final(ed).selection,
                history: final(ed).history,
                mode: final(ed).mode,
                ..*old(ed)
            }),
    {
        let sel = crate::state::duplicate_selection(&ed.selection);
        let flipped = crate::transforms::flip_selection_ranges(&ed.selection);
        let collapsed = crate::transforms::collapse_selection_ranges(&flipped, &ed.text);
        ed.selection = collapsed;
        proof {
            assert(sel.wf(ed.text@.len() as int));
        }
        self.run_operator(ed, &sel, &sel);
    }

    /// Apply the operator to whole lines: `count` lines are selected
    /// with their separators for the yank; a change removes the
    /// content but keeps the last separator.
    pub fn run_operator_lines(&self, ed: &mut Editor)
        requires
            old(ed).wf(),
            self.wf(),
        ensures
            final(ed).wf(),
            sorted_nonoverlapping(
                full_line_ranges(old(ed).selection.ranges@, old(ed).text@, self.count_spec(), true),
            ) ==> final(ed).registers.contents(yank_register_spec(*old(ed), self.register))
                == Some(
                fragments_spec(
                    old(ed).text@,
                    full_line_ranges(
                        old(ed).selection.ranges@,
                        old(ed).text@,
                        self.count_spec(),
                        true,
                    ),
                ),
            ),
            self.op == VimOp::Yank ==> final(ed).text@ == old(ed).text@,
            (self.op == VimOp::Delete && sorted_nonoverlapping(
                full_line_ranges(old(ed).selection.ranges@, old(ed).text@, self.count_spec(), true),
            )) ==> final(ed).text@ == delete_ranges_spec(
                old(ed).text@,
                full_line_ranges(old(ed).selection.ranges@, old(ed).text@, self.count_spec(), true),
            ),
            (self.op == VimOp::Change && sorted_nonoverlapping(
                full_line_ranges(
                    old(ed).selection.ranges@,
                    old(ed).text@,
                    self.count_spec(),
                    false,
                ),
            )) ==> final(ed).text@ == delete_ranges_spec(
                old(ed).text@,
                full_line_ranges(
                    old(ed).selection.ranges@,
                    old(ed).text@,
                    self.count_spec(),
                    false,
                ),
            ),
            self.op == VimOp::Change ==> final(ed).mode == Mode::Insert,
            self.op != VimOp::Change ==> final(ed).mode == old(ed).mode,
            final(ed).pending == old(ed).pending,
    {
        let count = self.ctx_count();
        let sel = get_full_line_selection(ed, count, true);
        if !matches!(self.op, VimOp::Change) {
            self.run_operator(ed, &sel, &sel);
        } else {
            let delete_selection = get_full_line_selection(ed, count, false);
            self.run_operator(ed, &sel, &delete_selection);
        }
    }
}

/// The motions an operator can take directly, without a further key.
#[derive(Clone, Copy, PartialEq, Eq, Structural, Debug)]
pub enum InstantMotion {
    NextWordStart,
    NextLongWordStart,
    PrevWordStart,
    PrevLongWordStart,
    NextWordEnd,
    NextLongWordEnd,
    LineStart,
    LineEnd,
    FirstNonBlank,
}

/// The key a motion letter stands for, if any.
pub fn char_to_instant_command(ch: char) -> (r: Option<InstantMotion>)
    ensures
        r == instant_command_spec(ch),
{
    match ch {
        'w' => Some(InstantMotion::NextWordStart),
        'W' => Some(InstantMotion::NextLongWordStart),
        'b' => Some(InstantMotion::PrevWordStart),
        'B' => Some(InstantMotion::PrevLongWordStart),
        'e' => Some(InstantMotion::NextWordEnd),
        'E' => Some(InstantMotion::NextLongWordEnd),
        '0' => Some(InstantMotion::LineStart),
        '$' => Some(InstantMotion::LineEnd),
        '^' => Some(InstantMotion::FirstNonBlank),
        _ => None,
    }
}

pub open spec fn instant_command_spec(ch: char) -> Option<InstantMotion> {
    if ch == 'w' {
        Some(InstantMotion::NextWordStart)
    } else if ch == 'W' {
        Some(InstantMotion::NextLongWordStart)
    } else if ch == 'b' {
        Some(InstantMotion::PrevWordStart)
    } else if ch == 'B' {
        Some(InstantMotion::PrevLongWordStart)
    } else if ch == 'e' {
        Some(InstantMotion::NextWordEnd)
    } else if ch == 'E' {
        Some(InstantMotion::NextLongWordEnd)
    } else if ch == '0' {
        Some(InstantMotion::LineStart)
    } else if ch == '$' {
        Some(InstantMotion::LineEnd)
    } else if ch == '^' {
        Some(InstantMotion::FirstNonBlank)
    } else {
        None
    }
}

/// One extension step of an instant motion: the cursor's target.
pub open spec fn instant_target_spec(s: Seq<char>, c: int, m: InstantMotion) -> int {
    match m {
        InstantMotion::NextWordStart => {
            let t = crate::motions::next_word_start_spec(s, c, false);
            if t > c {
                t - 1
            } else {
                c
            }
        },
        InstantMotion::NextLongWordStart => {
            let t = crate::motions::next_word_start_spec(s, c, true);
            if t > c {
                t - 1
            } else {
                c
            }
        },
        InstantMotion::PrevWordStart => crate::motions::prev_word_start_spec(s, c, false),
        InstantMotion::PrevLongWordStart => crate::motions::prev_word_start_spec(s, c, true),
        InstantMotion::NextWordEnd => crate::motions::next_word_end_spec(s, c, false),
        InstantMotion::NextLongWordEnd => crate::motions::next_word_end_spec(s, c, true),
        InstantMotion::LineStart => line_start(s, line_of(s, c)),
        InstantMotion::LineEnd => {
            let e = line_end(s, line_of(s, c));
            if e > line_start(s, line_of(s, c)) {
                e - 1
            } else {
                e
            }
        },
        InstantMotion::FirstNonBlank => crate::transforms::first_nonblank_spec(
            s,
            line_start(s, line_of(s, c)),
            line_end(s, line_of(s, c)),
        ),
    }
}

/// One step of an instant motion applied to a range, extending.
pub open spec fn instant_step_spec(s: Seq<char>, r: TextRange, m: InstantMotion) -> TextRange {
    r.put_cursor_spec(s, instant_target_spec(s, r.cursor_spec(), m), crate::range::Movement::Extend)
}

/// `n` steps of an instant motion; the line motions take one step.
pub open spec fn instant_motion_spec(s: Seq<char>, r: TextRange, m: InstantMotion, n: int) -> TextRange
    decreases n,
{
    if n <= 1 {
        instant_step_spec(s, r, m)
    } else {
        instant_motion_spec(s, instant_step_spec(s, r, m), m, n - 1)
    }
}

/// Whether repeating a motion makes sense; line-bound motions land in
/// the same place every time.
pub open spec fn motion_repeats(m: InstantMotion) -> bool {
    !(m == InstantMotion::LineStart || m == InstantMotion::LineEnd || m
        == InstantMotion::FirstNonBlank)
}

/// What an instant motion does to every range of a selection.
pub open spec fn instant_motion_ranges(
    s: Seq<char>,
    rs: Seq<TextRange>,
    m: InstantMotion,
    count: int,
) -> Seq<TextRange> {
    Seq::new(
        rs.len(),
        |i: int|
            if motion_repeats(m) {
                instant_motion_spec(s, rs[i], m, count)
            } else {
                instant_step_spec(s, rs[i], m)
            },
    )
}

/// One extension step of an instant motion, executed.
fn instant_step(text: &Vec<char>, r: &TextRange, m: InstantMotion) -> (out: TextRange)
    requires
        r.in_bounds(text@.len() as int),
        text@.len() < usize::MAX,
    ensures
        out == instant_step_spec(text@, *r, m),
        out.in_bounds(text@.len() as int),
{
    let ghost s = text@;
    let c = r.cursor();
    proof {
        crate::text::lemma_line_of_bounds(s, c as int);
    }
    let target: usize = match m {
        InstantMotion::NextWordStart => {
            let t = crate::motions::next_word_start(text, c, false);
            if t > c {
                t - 1
            } else {
                c
            }
        },
        InstantMotion::NextLongWordStart => {
            let t = crate::motions::next_word_start(text, c, true);
            if t > c {
                t - 1
            } else {
                c
            }
        },
        InstantMotion::PrevWordStart => crate::motions::prev_word_start(text, c, false),
        InstantMotion::PrevLongWordStart => crate::motions::prev_word_start(text, c, true),
        InstantMotion::NextWordEnd => crate::motions::next_word_end(text, c, false),
        InstantMotion::NextLongWordEnd => crate::motions::next_word_end(text, c, true),
        InstantMotion::LineStart => {
            let l = crate::text::char_to_line(text, c);
            crate::text::line_to_char(text, l)
        },
        InstantMotion::LineEnd => {
            let l = crate::text::char_to_line(text, c);
            let ls = crate::text::line_to_char(text, l);
            let e = crate::text::line_end_char_index(text, l);
            if e > ls {
                e - 1
            } else {
                e
            }
        },
        InstantMotion::FirstNonBlank => {
            let l = crate::text::char_to_line(text, c);
            crate::transforms::first_nonblank_of_line(text, l)
        },
    };
    r.put_cursor(text, target, crate::range::Movement::Extend)
}

/// Apply an instant motion `count` times to one range, extending.
pub fn apply_instant_motion(text: &Vec<char>, r: &TextRange, m: InstantMotion, count: usize) -> (out:
    TextRange)
    requires
        r.in_bounds(text@.len() as int),
        text@.len() < usize::MAX,
        count >= 1,
    ensures
        motion_repeats(m) ==> out == instant_motion_spec(text@, *r, m, count as int),
        !motion_repeats(m) ==> out == instant_step_spec(text@, *r, m),
        out.in_bounds(text@.len() as int),
{
    let reps: usize = match m {
        InstantMotion::LineStart | InstantMotion::LineEnd | InstantMotion::FirstNonBlank => 1,
        _ => count,
    };
    let mut cur: TextRange = instant_step(text, r, m);
    let mut k: usize = 1;
    while k < reps
        invariant
            cur.in_bounds(text@.len() as int),
            1 <= k <= reps || reps == 0,
            text@.len() < usize::MAX,
            cur == instant_motion_spec(text@, *r, m, k as int),
        decreases reps - k,
    {
        let nxt = instant_step(text, &cur, m);
        proof {
            lemma_instant_motion_unfold(text@, *r, m, k + 1int);
        }
        cur = nxt;
        k = k + 1;
    }
    cur
}

/// The `n`-step motion is one more step after `n - 1`.
proof fn lemma_instant_motion_unfold(s: Seq<char>, r: TextRange, m: InstantMotion, n: int)
    requires
        n >= 2,
    ensures
        instant_motion_spec(s, r, m, n) == instant_step_spec(
            s,
            instant_motion_spec(s, r, m, n - 1),
            m,
        ),
    decreases n,
{
    if n > 2 {
        lemma_instant_motion_unfold(s, instant_step_spec(s, r, m), m, n - 1);
    } else {
        assert(instant_motion_spec(s, r, m, 1) == instant_step_spec(s, r, m));
        assert(instant_motion_spec(s, instant_step_spec(s, r, m), m, 1) == instant_step_spec(
            s,
            instant_step_spec(s, r, m),
            m,
        ));
    }
}

impl VimOpCtx {
    /// Run a whole-line motion under the operator: enter select mode,
    /// extend every range by the motion, commit over the result, and
    /// force-exit back to normal mode.
    pub fn run_ops_after_command(&self, ed: &mut Editor, motion: InstantMotion)
        requires
            old(ed).wf(),
            self.wf(),
        ensures
            final(ed).wf(),
            final(ed).mode == (if self.op == VimOp::Change {
                Mode::Insert
            } else {
                Mode::Normal
            }),
            final(ed).count == Some(self.count_spec() as usize),
            final(ed).pending == old(ed).pending,
            sorted_nonoverlapping(
                instant_motion_ranges(
                    old(ed).text@,
                    old(ed).selection.ranges@,
                    motion,
                    self.count_spec(),
                ),
            ) ==> ({
                let mapped = instant_motion_ranges(
                    old(ed).text@,
                    old(ed).selection.ranges@,
                    motion,
                    self.count_spec(),
                );
                &&& final(ed).registers.contents(yank_register_spec(*old(ed), self.register))
                    == Some(fragments_spec(old(ed).text@, mapped))
                &&& (self.op == VimOp::Delete || self.op == VimOp::Change) ==> final(ed).text@
                    == delete_ranges_spec(old(ed).text@, mapped)
                &&& self.op == VimOp::Yank ==> final(ed).text@ == old(ed).text@
            }),
    {
        ed.mode = Mode::Select;
        let count = self.ctx_count();
        ed.count = Some(count);
        // extend every range by the motion
        let ghost s = ed.text@;
        let ghost mapped = instant_motion_ranges(s, ed.selection.ranges@, motion, count as int);
        let mut v: Vec<TextRange> = Vec::new();
        let mut i: usize = 0;
        while i < ed.selection.ranges.len()
            invariant
                ed.wf(),
                count >= 1,
                s == ed.text@,
                mapped == instant_motion_ranges(s, ed.selection.ranges@, motion, count as int),
                i <= ed.selection.ranges@.len(),
                v@ =~= mapped.take(i as int),
                crate::selection::all_in_bounds(v@, s.len() as int),
            decreases ed.selection.ranges.len() - i,
        {
            let r = apply_instant_motion(&ed.text, &ed.selection.ranges[i], motion, count);
            v.push(r);
            proof {
                assert(mapped.take(i + 1int) =~= mapped.take(i as int).push(r));
            }
            i = i + 1;
        }
        proof {
            assert(mapped.take(mapped.len() as int) =~= mapped);
        }
        if v.len() > 0 {
            let sel = Selection { ranges: v, primary_index: ed.selection.primary_index }.normalize(
                Ghost(s.len() as int),
            );
            ed.selection = sel;
        }
        self.run_operator_for_current_selection(ed);
        if matches!(self.op, VimOp::Change) {
            ed.mode = Mode::Insert;
        } else {
            ed.mode = Mode::Normal;
        }
    }
}

/// Arm the find/till continuation: the next key names the character.
pub fn vim_find_char(
    ed: &mut Editor,
    opcx: Option<VimOpCtx>,
    direction: Direction,
    inclusive: bool,
    extend: bool,
)
    requires
        old(ed).wf(),
        match opcx {
            Some(c) => c.wf(),
            None => true,
        },
    ensures
        final(ed).wf(),
        *final(ed) == (Editor { pending: final(ed).pending, ..*old(ed) }),
        final(ed).pending matches PendingInput::FindChar {
            ctx,
            direction: d,
            inclusive: inc,
            extend: e,
            count,
        } && ctx == opcx && d == direction && inc == inclusive && e == extend && count as int == (match opcx {
            Some(c) => c.count_spec(),
            None => old(ed).count_spec(),
        }),
        pending_wf(final(ed).pending),
{
    let count = match opcx {
        Some(c) => c.ctx_count(),
        None => ed.effective_count(),
    };
    ed.pending = PendingInput::FindChar { ctx: opcx, direction, inclusive, extend, count };
}

/// Arm the text-object continuation and publish its help panel: the
/// next key names the object.
pub fn vim_modify_textobject(ed: &mut Editor, opcx: Option<VimOpCtx>, kind: TextObjectKind)
    requires
        old(ed).wf(),
        match opcx {
            Some(c) => c.wf(),
            None => true,
        },
    ensures
        final(ed).wf(),
        *final(ed) == (Editor {
            pending: final(ed).pending,
            autoinfo: final(ed).autoinfo,
            ..*old(ed)
        }),
        final(ed).pending matches PendingInput::TextObjectKey { ctx, kind: k, count } && ctx
            == opcx && k == kind && count as int == (match opcx {
            Some(c) => c.count_spec(),
            None => old(ed).count_spec(),
        }),
        final(ed).autoinfo == Some(
            match kind {
                TextObjectKind::Inside => InfoPanel::MatchInside,
                TextObjectKind::Around => InfoPanel::MatchAround,
            },
        ),
        pending_wf(final(ed).pending),
{
    let count = match opcx {
        Some(c) => c.ctx_count(),
        None => ed.effective_count(),
    };
    ed.pending = PendingInput::TextObjectKey { ctx: opcx, kind, count };
    ed.autoinfo = Some(
        match kind {
            TextObjectKind::Inside => InfoPanel::MatchInside,
            TextObjectKind::Around => InfoPanel::MatchAround,
        },
    );
}

impl VimOpCtx {
    pub fn op_till_char(&self, ed: &mut Editor)
        requires
            old(ed).wf(),
            self.wf(),
        ensures
            final(ed).wf(),
            *final(ed) == (Editor { pending: final(ed).pending, ..*old(ed) }),
            pending_wf(final(ed).pending),
            final(ed).pending matches PendingInput::FindChar {
                ctx,
                direction: Direction::Forward,
                inclusive: false,
                extend: true,
                ..
            } && ctx == Some(*self),
    {
        vim_find_char(ed, Some(*self), Direction::Forward, false, true);
    }

    pub fn op_next_char(&self, ed: &mut Editor)
        requires
            old(ed).wf(),
            self.wf(),
        ensures
            final(ed).wf(),
            *final(ed) == (Editor { pending: final(ed).pending, ..*old(ed) }),
            pending_wf(final(ed).pending),
            final(ed).pending matches PendingInput::FindChar {
                ctx,
                direction: Direction::Forward,
                inclusive: true,
                extend: true,
                ..
            } && ctx == Some(*self),
    {
        vim_find_char(ed, Some(*self), Direction::Forward, true, true);
    }

    pub fn op_till_prev_char(&self, ed: &mut Editor)
        requires
            old(ed).wf(),
            self.wf(),
        ensures
            final(ed).wf(),
            *final(ed) == (Editor { pending: final(ed).pending, ..*old(ed) }),
            pending_wf(final(ed).pending),
            final(ed).pending matches PendingInput::FindChar {
                ctx,
                direction: Direction::Backward,
                inclusive: false,
                extend: true,
                ..
            } && ctx == Some(*self),
    {
        vim_find_char(ed, Some(*self), Direction::Backward, false, true);
    }

    pub fn op_prev_char(&self, ed: &mut Editor)
        requires
            old(ed).wf(),
            self.wf(),
        ensures
            final(ed).wf(),
            *final(ed) == (Editor { pending: final(ed).pending, ..*old(ed) }),
            pending_wf(final(ed).pending),
            final(ed).pending matches PendingInput::FindChar {
                ctx,
                direction: Direction::Backward,
                inclusive: true,
                extend: true,
                ..
            } && ctx == Some(*self),
    {
        vim_find_char(ed, Some(*self), Direction::Backward, true, true);
    }

    /// The operator entry point.  In select mode the operator applies
    /// to the active selection at once; otherwise the context is
    /// captured, the one-key continuation armed, and the help panel
    /// shown.
    pub fn operator_impl(ed: &mut Editor, op: VimOp, register: Option<char>)
        requires
            old(ed).wf(),
        ensures
            final(ed).wf(),
            old(ed).mode != Mode::Select ==> {
                &&& *final(ed) == (Editor {
                    pending: final(ed).pending,
                    autoinfo: final(ed).autoinfo,
                    ..*old(ed)
                })
                &&& final(ed).pending matches PendingInput::OperatorTarget { ctx } && ctx == (
                VimOpCtx { op, count: Some(old(ed).count_spec() as usize), register })
                &&& final(ed).autoinfo == Some(InfoPanel::ApplyModifier)
            },
            old(ed).mode == Mode::Select ==> {
                &&& final(ed).registers.contents(yank_register_spec(*old(ed), register)) == Some(
                    fragments_spec(old(ed).text@, old(ed).selection.ranges@),
                )
                &&& (op == VimOp::Delete || op == VimOp::Change) ==> final(ed).text@
                    == delete_ranges_spec(old(ed).text@, old(ed).selection.ranges@)
                &&& op == VimOp::Yank ==> final(ed).text@ == old(ed).text@
                &&& final(ed).mode == (if op == VimOp::Change {
                    Mode::Insert
                } else {
                    Mode::Normal
                })
                &&& final(ed).state.visual_lines == false
            },
            pending_wf(final(ed).pending) || final(ed).pending == old(ed).pending,
    {
        let opcx = VimOpCtx::with_custom_register(ed, op, register);
        if matches!(ed.mode, Mode::Select) {
            ed.state.exit_visual_line();
            opcx.run_operator_for_current_selection(ed);
            if matches!(ed.mode, Mode::Select) {
                ed.mode = Mode::Normal;
            }
            return ;
        }
        ed.pending = PendingInput::OperatorTarget { ctx: opcx };
        ed.autoinfo = Some(InfoPanel::ApplyModifier);
    }
}

/// Changes that insert nothing add no width.
proof fn lemma_inserted_zero(cs: Seq<Change>)
    requires
        forall|i: int| 0 <= i < cs.len() ==> (#[trigger] cs[i]).insert@.len() == 0,
    ensures
        crate::edits::inserted_len(cs) == 0,
    decreases cs.len(),
{
    if cs.len() > 0 {
        assert(forall|i: int|
            0 <= i < cs.drop_first().len() ==> #[trigger] cs.drop_first()[i] == cs[i + 1]);
        lemma_inserted_zero(cs.drop_first());
    }
}

} // verus!

//! The modal commands.
//!
//! Each command takes the session and performs one keymap action: a
//! mode transition, a motion, an operator, a paste, or a toggle.  Work
//! that only the host can do — regex search, prompts, bracket matching,
//! configuration reload — is queued in the session's outbox instead.

use vstd::prelude::*;
use crate::editor::{Editor, HostAction, Mode, StatusMsg};
use crate::operator::{InstantMotion, PendingInput, VimOp, VimOpCtx};
use crate::range::{Direction, Movement, TextRange};
use crate::selection::{Selection, sorted_nonoverlapping};
use crate::state::ModalSessionState;
use crate::text::{line_end, line_of, line_start, num_lines};

verus! {

/// Collapse every range of the active selection to its cursor.
pub fn collapse_selection(ed: &mut Editor)
    requires
        old(ed).wf(),
    ensures
        final(ed).wf(),
        *final(ed) == (Editor { selection: final(ed).selection, ..*old(ed) }),
        final(ed).selection.ranges@.len() == old(ed).selection.ranges@.len(),
        forall|i: int|
            0 <= i < old(ed).selection.ranges@.len() ==> (
            #[trigger] final(ed).selection.ranges@[i]) == (TextRange {
                anchor: old(ed).selection.ranges@[i].cursor_spec() as usize,
                head: old(ed).selection.ranges@[i].cursor_spec() as usize,
            }),
{
    let collapsed = crate::transforms::collapse_selection_ranges(&ed.selection, &ed.text);
    ed.selection = collapsed;
}

/// Extend every range of the active selection to whole-line bounds.
pub fn extend_to_line_bounds(ed: &mut Editor)
    requires
        old(ed).wf(),
    ensures
        final(ed).wf(),
        *final(ed) == (Editor { selection: final(ed).selection, ..*old(ed) }),
        sorted_nonoverlapping(
            crate::transforms::line_extended_ranges(old(ed).selection.ranges@, old(ed).text@),
        ) ==> final(ed).selection.ranges@ == crate::transforms::line_extended_ranges(
            old(ed).selection.ranges@,
            old(ed).text@,
        ),
{
    let extended = crate::transforms::extend_selection_to_line_bounds(&ed.selection, &ed.text);
    ed.selection = extended;
}

/// Enter line-wise visual mode: select mode, the flag, and the active
/// selection expanded to whole lines.
pub fn vim_visual_lines(ed: &mut Editor)
    requires
        old(ed).wf(),
    ensures
        final(ed).wf(),
        final(ed).mode == Mode::Select,
        final(ed).state == (ModalSessionState {
            visual_lines: true,
            visual_blocks: false,
            ..old(ed).state
        }),
        *final(ed) == (Editor {
            mode: Mode::Select,
            state: final(ed).state,
            selection: final(ed).selection,
            ..*old(ed)
        }),
        sorted_nonoverlapping(
            crate::transforms::line_extended_ranges(old(ed).selection.ranges@, old(ed).text@),
        ) ==> final(ed).selection.ranges@ == crate::transforms::line_extended_ranges(
            old(ed).selection.ranges@,
            old(ed).text@,
        ),
{
    ed.mode = Mode::Select;
    ed.state.visual_line();
    extend_to_line_bounds(ed);
}

/// Enter block-wise visual mode.
pub fn vim_visual_block(ed: &mut Editor)
    requires
        old(ed).wf(),
    ensures
        final(ed).wf(),
        *final(ed) == (Editor { mode: Mode::Select, state: final(ed).state, ..*old(ed) }),
        final(ed).state == (ModalSessionState {
            visual_lines: false,
            visual_blocks: true,
            ..old(ed).state
        }),
{
    vim_select_mode(ed);
    ed.state.visual_block();
}

/// Enter selection-extend mode, leaving both visual sub-modes.
pub fn vim_select_mode(ed: &mut Editor)
    requires
        old(ed).wf(),
    ensures
        final(ed).wf(),
        *final(ed) == (Editor { mode: Mode::Select, state: final(ed).state, ..*old(ed) }),
        final(ed).state == (ModalSessionState {
            visual_lines: false,
            visual_blocks: false,
            ..old(ed).state
        }),
{
    ed.state.exit_visual_modes();
    ed.mode = Mode::Select;
}

/// Insert at the first non-blank of each line; in block-wise visual
/// mode the block collapses to cursors first so every row gets one.
pub fn vim_insert_at_line_start(ed: &mut Editor)
    requires
        old(ed).wf(),
    ensures
        final(ed).wf(),
        final(ed).mode == Mode::Insert,
        *final(ed) == (Editor {
            mode: Mode::Insert,
            selection: final(ed).selection,
            ..*old(ed)
        }),
        !old(ed).state.visual_blocks ==> final(ed).selection.ranges@.len() == old(
            ed,
        ).selection.ranges@.len(),
        // in block mode every row collapses to its cursor, one
        // insertion point per row
        old(ed).state.visual_blocks ==> final(ed).selection.ranges@.len() == old(
            ed,
        ).selection.ranges@.len(),
        forall|i: int|
            old(ed).state.visual_blocks && 0 <= i < old(ed).selection.ranges@.len() ==> (
            #[trigger] final(ed).selection.ranges@[i]) == (TextRange {
                anchor: old(ed).selection.ranges@[i].cursor_spec() as usize,
                head: old(ed).selection.ranges@[i].cursor_spec() as usize,
            }),
        forall|i: int|
            !old(ed).state.visual_blocks && 0 <= i < old(ed).selection.ranges@.len() ==> (
            #[trigger] final(ed).selection.ranges@[i]) == ({
                let c = old(ed).selection.ranges@[i].cursor_spec();
                let l = line_of(old(ed).text@, c);
                let p = crate::transforms::first_nonblank_spec(
                    old(ed).text@,
                    line_start(old(ed).text@, l),
                    line_end(old(ed).text@, l),
                );
                (TextRange { anchor: p as usize, head: p as usize })
            }),
{
    if ed.state.is_visual_block() {
        // one cursor per row outweighs exact host behaviour here
        collapse_selection(ed);
        ed.mode = Mode::Normal;
        ed.mode = Mode::Insert;
    } else {
        insert_at_line_start(ed);
    }
}

/// Move every cursor to the first non-blank of its line and insert.
fn insert_at_line_start(ed: &mut Editor)
    requires
        old(ed).wf(),
    ensures
        final(ed).wf(),
        final(ed).mode == Mode::Insert,
        *final(ed) == (Editor {
            mode: Mode::Insert,
            selection: final(ed).selection,
            ..*old(ed)
        }),
        final(ed).selection.ranges@.len() == old(ed).selection.ranges@.len(),
        forall|i: int|
            0 <= i < old(ed).selection.ranges@.len() ==> (
            #[trigger] final(ed).selection.ranges@[i]) == ({
                let c = old(ed).selection.ranges@[i].cursor_spec();
                let l = line_of(old(ed).text@, c);
                let p = crate::transforms::first_nonblank_spec(
                    old(ed).text@,
                    line_start(old(ed).text@, l),
                    line_end(old(ed).text@, l),
                );
                TextRange { anchor: p as usize, head: p as usize }
            }),
{
    let ghost s = ed.text@;
    let mut v: Vec<TextRange> = Vec::new();
    let mut i: usize = 0;
    while i < ed.selection.ranges.len()
        invariant
            ed.wf(),
            s == ed.text@,
            i <= ed.selection.ranges@.len(),
            v@.len() == i,
            forall|j: int|
                0 <= j < i ==> (#[trigger] v@[j]) == ({
                    let c = ed.selection.ranges@[j].cursor_spec();
                    let l = line_of(s, c);
                    let p = crate::transforms::first_nonblank_spec(
                        s,
                        line_start(s, l),
                        line_end(s, l),
                    );
                    (TextRange { anchor: p as usize, head: p as usize })
                }),
            crate::selection::all_in_bounds(v@, s.len() as int),
        decreases ed.selection.ranges.len() - i,
    {
        let c = ed.selection.ranges[i].cursor();
        proof {
            crate::text::lemma_line_of_bounds(s, c as int);
            crate::text::lemma_line_start_bounds(s, line_of(s, c as int));
            crate::transforms::lemma_first_nonblank_bounds(
                s,
                line_start(s, line_of(s, c as int)),
                line_end(s, line_of(s, c as int)),
            );
        }
        let l = crate::text::char_to_line(&ed.text, c);
        let p = crate::transforms::first_nonblank_of_line(&ed.text, l);
        v.push(TextRange { anchor: p, head: p });
        i = i + 1;
    }
    proof {
        // the landing points inherit the ranges' order
        let rs = ed.selection.ranges@;
        assert forall|a: int, b: int| 0 <= a < b < v@.len() implies v@[a].to_spec()
            <= v@[b].from_spec() by {
            let ca = rs[a].cursor_spec();
            let cb = rs[b].cursor_spec();
            assert(rs[a].to_spec() <= rs[b].from_spec());
            assert(ca <= rs[a].to_spec());
            assert(rs[b].from_spec() <= cb);
            crate::text::lemma_line_of_bounds(s, ca);
            crate::text::lemma_line_of_bounds(s, cb);
            crate::text::lemma_take_monotone_count(s, ca, cb);
            assert(line_of(s, ca) <= line_of(s, cb));
            let la = line_of(s, ca);
            let lb = line_of(s, cb);
            crate::text::lemma_line_start_bounds(s, la);
            crate::text::lemma_line_start_bounds(s, lb);
            crate::text::lemma_line_start_bounds(s, la + 1);
            crate::text::lemma_line_start_bounds(s, lb + 1);
            crate::transforms::lemma_first_nonblank_bounds(
                s,
                line_start(s, la),
                line_end(s, la),
            );
            crate::transforms::lemma_first_nonblank_bounds(
                s,
                line_start(s, lb),
                line_end(s, lb),
            );
            let pa = crate::transforms::first_nonblank_spec(
                s,
                line_start(s, la),
                line_end(s, la),
            );
            let pb = crate::transforms::first_nonblank_spec(
                s,
                line_start(s, lb),
                line_end(s, lb),
            );
            assert(v@[a] == (TextRange { anchor: pa as usize, head: pa as usize }));
            assert(v@[b] == (TextRange { anchor: pb as usize, head: pb as usize }));
            if la < lb {
                crate::text::lemma_line_start_monotone(s, la + 1, lb);
                assert(pa <= line_end(s, la));
                assert(line_end(s, la) <= line_start(s, la + 1));
                assert(line_start(s, lb) <= pb);
            }
            assert(pa <= pb);
        }
    }
    ed.selection = Selection { ranges: v, primary_index: ed.selection.primary_index };
    ed.mode = Mode::Insert;
}

/// Without a count, go to the last line (extending in select mode);
/// with one, go to the start of the file, as the host's go-to-line.
pub fn vim_goto_last_line(ed: &mut Editor)
    requires
        old(ed).wf(),
    ensures
        final(ed).wf(),
        *final(ed) == (Editor { selection: final(ed).selection, ..*old(ed) }),
        ({
            let target = if old(ed).count is None {
                line_start(old(ed).text@, num_lines(old(ed).text@) - 1)
            } else {
                0int
            };
            let movement = if old(ed).mode == Mode::Select {
                Movement::Extend
            } else {
                Movement::Move
            };
            sorted_nonoverlapping(
                put_cursor_ranges(old(ed).text@, old(ed).selection.ranges@, target, movement),
            ) ==> final(ed).selection.ranges@ == put_cursor_ranges(
                old(ed).text@,
                old(ed).selection.ranges@,
                target,
                movement,
            )
        }),
{
    let target: usize = if ed.count.is_none() {
        let nl = crate::text::len_lines(&ed.text);
        let t = crate::text::line_to_char(&ed.text, nl - 1);
        proof {
            crate::text::lemma_count_newlines_nonneg(ed.text@);
            crate::text::lemma_line_start_bounds(ed.text@, num_lines(ed.text@) - 1);
        }
        t
    } else {
        0
    };
    let movement = if matches!(ed.mode, Mode::Select) {
        Movement::Extend
    } else {
        Movement::Move
    };
    put_cursor_everywhere(ed, target, movement);
}

/// Every range with its cursor placed at `target`.
pub open spec fn put_cursor_ranges(
    s: Seq<char>,
    rs: Seq<TextRange>,
    target: int,
    movement: Movement,
) -> Seq<TextRange> {
    Seq::new(rs.len(), |i: int| rs[i].put_cursor_spec(s, target, movement))
}

/// Place every cursor at `target`, moving or extending.
fn put_cursor_everywhere(ed: &mut Editor, target: usize, movement: Movement)
    requires
        old(ed).wf(),
        target <= old(ed).text@.len(),
    ensures
        final(ed).wf(),
        *final(ed) == (Editor { selection: final(ed).selection, ..*old(ed) }),
        sorted_nonoverlapping(
            put_cursor_ranges(old(ed).text@, old(ed).selection.ranges@, target as int, movement),
        ) ==> final(ed).selection.ranges@ == put_cursor_ranges(
            old(ed).text@,
            old(ed).selection.ranges@,
            target as int,
            movement,
        ),
{
    let ghost s = ed.text@;
    let ghost mapped = put_cursor_ranges(s, ed.selection.ranges@, target as int, movement);
    let mut v: Vec<TextRange> = Vec::new();
    let mut i: usize = 0;
    while i < ed.selection.ranges.len()
        invariant
            ed.wf(),
            s == ed.text@,
            target <= s.len(),
            mapped == put_cursor_ranges(s, ed.selection.ranges@, target as int, movement),
            i <= ed.selection.ranges@.len(),
            v@ =~= mapped.take(i as int),
            crate::selection::all_in_bounds(v@, s.len() as int),
        decreases ed.selection.ranges.len() - i,
    {
        let r = ed.selection.ranges[i].put_cursor(&ed.text, target, movement);
        v.push(r);
        proof {
            assert(mapped.take(i + 1int) =~= mapped.take(i as int).push(r));
        }
        i = i + 1;
    }
    proof {
        assert(mapped.take(mapped.len() as int) =~= mapped);
    }
    let sel = Selection { ranges: v, primary_index: ed.selection.primary_index }.normalize(
        Ghost(s.len() as int),
    );
    ed.selection = sel;
}

/// Extend a line down: line-wise in visual-line mode, block-wise in
/// visual-block mode, and a plain vertical extension otherwise.
pub fn vim_extend_visual_line_down(ed: &mut Editor)
    requires
        old(ed).wf(),
    ensures
        final(ed).wf(),
        *final(ed) == (Editor { selection: final(ed).selection, ..*old(ed) }),
        // outside block mode every range extends one line down
        (!old(ed).state.visual_blocks && sorted_nonoverlapping(
            vertical_extended_ranges(
                old(ed).text@,
                old(ed).selection.ranges@,
                Direction::Forward,
            ),
        )) ==> final(ed).selection.ranges@ == vertical_extended_ranges(
            old(ed).text@,
            old(ed).selection.ranges@,
            Direction::Forward,
        ),
        // in block mode a row is added or removed instead
        old(ed).state.visual_blocks ==> block_step_spec(*old(ed), *final(ed), Direction::Forward),
{
    if ed.state.is_visual_block() {
        visual_block_impl(ed, Direction::Forward);
    } else {
        extend_all_vertically(ed, Direction::Forward);
    }
}

/// Extend a line up; see [`vim_extend_visual_line_down`].
pub fn vim_extend_visual_line_up(ed: &mut Editor)
    requires
        old(ed).wf(),
    ensures
        final(ed).wf(),
        *final(ed) == (Editor { selection: final(ed).selection, ..*old(ed) }),
        (!old(ed).state.visual_blocks && sorted_nonoverlapping(
            vertical_extended_ranges(
                old(ed).text@,
                old(ed).selection.ranges@,
                Direction::Backward,
            ),
        )) ==> final(ed).selection.ranges@ == vertical_extended_ranges(
            old(ed).text@,
            old(ed).selection.ranges@,
            Direction::Backward,
        ),
        old(ed).state.visual_blocks ==> block_step_spec(*old(ed), *final(ed), Direction::Backward),
{
    if ed.state.is_visual_block() {
        visual_block_impl(ed, Direction::Backward);
    } else {
        extend_all_vertically(ed, Direction::Backward);
    }
}

/// Every range extended one line in the given direction.
pub open spec fn vertical_extended_ranges(s: Seq<char>, rs: Seq<TextRange>, dir: Direction) -> Seq<
    TextRange,
> {
    Seq::new(
        rs.len(),
        |i: int|
            rs[i].put_cursor_spec(
                s,
                crate::motions::vertical_target_spec(s, rs[i], dir),
                Movement::Extend,
            ),
    )
}

/// Extend every range one line in the given direction.
fn extend_all_vertically(ed: &mut Editor, dir: Direction)
    requires
        old(ed).wf(),
    ensures
        final(ed).wf(),
        *final(ed) == (Editor { selection: final(ed).selection, ..*old(ed) }),
        sorted_nonoverlapping(
            vertical_extended_ranges(old(ed).text@, old(ed).selection.ranges@, dir),
        ) ==> final(ed).selection.ranges@ == vertical_extended_ranges(
            old(ed).text@,
            old(ed).selection.ranges@,
            dir,
        ),
{
    let ghost s = ed.text@;
    let ghost mapped = vertical_extended_ranges(s, ed.selection.ranges@, dir);
    let mut v: Vec<TextRange> = Vec::new();
    let mut i: usize = 0;
    while i < ed.selection.ranges.len()
        invariant
            ed.wf(),
            s == ed.text@,
            mapped == vertical_extended_ranges(s, ed.selection.ranges@, dir),
            i <= ed.selection.ranges@.len(),
            v@ =~= mapped.take(i as int),
            crate::selection::all_in_bounds(v@, s.len() as int),
        decreases ed.selection.ranges.len() - i,
    {
        let r = crate::motions::move_vertically(
            &ed.text,
            &ed.selection.ranges[i],
            dir,
            Movement::Extend,
        );
        v.push(r);
        proof {
            assert(mapped.take(i + 1int) =~= mapped.take(i as int).push(r));
        }
        i = i + 1;
    }
    proof {
        assert(mapped.take(mapped.len() as int) =~= mapped);
    }
    let sel = Selection { ranges: v, primary_index: ed.selection.primary_index }.normalize(
        Ghost(s.len() as int),
    );
    ed.selection = sel;
}

/// Lowest and highest cursor line over the active selection.
pub fn selection_line_range(ed: &Editor) -> (r: (usize, usize))
    requires
        ed.wf(),
    ensures
        r.0 <= r.1,
        forall|j: int|
            0 <= j < ed.selection.ranges@.len() ==> r.0 <= line_of(
                ed.text@,
                (#[trigger] ed.selection.ranges@[j]).cursor_spec(),
            ) <= r.1,
        exists|j: int|
            0 <= j < ed.selection.ranges@.len() && r.0 as int == line_of(
                ed.text@,
                (#[trigger] ed.selection.ranges@[j]).cursor_spec(),
            ),
        exists|j: int|
            0 <= j < ed.selection.ranges@.len() && r.1 as int == line_of(
                ed.text@,
                (#[trigger] ed.selection.ranges@[j]).cursor_spec(),
            ),
{
    let ghost s = ed.text@;
    let mut lo: usize = usize::MAX;
    let mut hi: usize = 0;
    let ghost mut lo_w: int = 0;
    let ghost mut hi_w: int = 0;
    let mut i: usize = 0;
    while i < ed.selection.ranges.len()
        invariant
            ed.wf(),
            s == ed.text@,
            i <= ed.selection.ranges@.len(),
            i > 0 ==> lo <= hi,
            i > 0 ==> 0 <= lo_w < i && lo as int == line_of(
                s,
                ed.selection.ranges@[lo_w].cursor_spec(),
            ),
            i > 0 ==> 0 <= hi_w < i && hi as int == line_of(
                s,
                ed.selection.ranges@[hi_w].cursor_spec(),
            ),
            forall|j: int|
                0 <= j < i ==> lo <= line_of(
                    s,
                    (#[trigger] ed.selection.ranges@[j]).cursor_spec(),
                ) <= hi,
        decreases ed.selection.ranges.len() - i,
    {
        let l = ed.selection.ranges[i].cursor_line(&ed.text);
        if i == 0 {
            lo = l;
            hi = l;
            proof {
                lo_w = 0;
                hi_w = 0;
            }
        } else {
            if l < lo {
                lo = l;
                proof {
                    lo_w = i as int;
                }
            }
            if l > hi {
                hi = l;
                proof {
                    hi_w = i as int;
                }
            }
        }
        i = i + 1;
    }
    if lo > hi {
        (0, 0)
    } else {
        (lo, hi)
    }
}

/// Grow or shrink the faked rectangular selection: with one row (or
/// all rows on one line) the selection is copied to the adjacent line;
/// otherwise, moving back toward the block's far side removes rows.
pub fn visual_block_impl(ed: &mut Editor, dir: Direction)
    requires
        old(ed).wf(),
    ensures
        final(ed).wf(),
        *final(ed) == (Editor { selection: final(ed).selection, ..*old(ed) }),
        block_step_spec(*old(ed), *final(ed), dir),
{
    let ghost pre = *ed;
    let n = ed.selection.ranges.len();
    if n == 1 {
        copy_selection_adjacent(ed, dir);
        return ;
    }
    let (min_line, max_line) = selection_line_range(ed);
    if min_line == max_line {
        proof {
            // every cursor line sits between the least and greatest
            assert(block_rows_on_one_line(ed.text@, ed.selection.ranges@)) by {
                assert forall|i: int, j: int|
                    0 <= i < ed.selection.ranges@.len() && 0 <= j
                        < ed.selection.ranges@.len() implies line_of(
                    ed.text@,
                    (#[trigger] ed.selection.ranges@[i]).cursor_spec(),
                ) == line_of(ed.text@, (#[trigger] ed.selection.ranges@[j]).cursor_spec()) by {}
            }
        }
        copy_selection_adjacent(ed, dir);
        return ;
    }
    proof {
        // two cursors witness different lines
        assert(!block_rows_on_one_line(ed.text@, ed.selection.ranges@));
    }
    let tgt_line = match dir {
        Direction::Backward => max_line,
        Direction::Forward => min_line,
    };
    let mut removed_any = false;
    loop
        invariant
            ed.wf(),
            pre == *old(ed),
            *ed == (Editor { selection: ed.selection, ..pre }),
            pre.wf(),
            !block_rows_on_one_line(pre.text@, pre.selection.ranges@),
            removed_any ==> ed.selection.ranges@.len() < pre.selection.ranges@.len(),
            !removed_any ==> *ed == pre,
        decreases ed.selection.ranges.len(),
    {
        let pl = ed.selection.primary_range_copy().cursor_line(&ed.text);
        if pl == tgt_line && ed.selection.ranges.len() > 1 {
            let sel = crate::transforms::remove_primary_range(&ed.selection);
            ed.selection = sel;
            removed_any = true;
        } else {
            if !removed_any {
                copy_selection_adjacent(ed, dir);
            }
            return ;
        }
    }
}

/// The range a block copy adds: the primary row's columns, moved to
/// the adjacent line, when that line exists and is long enough to hold
/// them.
pub open spec fn adjacent_copy_spec(s: Seq<char>, r: TextRange, dir: Direction) -> Option<
    TextRange,
> {
    let c = r.cursor_spec();
    let l = line_of(s, c);
    let tl = match dir {
        Direction::Forward => if l + 1 < num_lines(s) {
            Some(l + 1)
        } else {
            None
        },
        Direction::Backward => if l > 0 {
            Some(l - 1)
        } else {
            None
        },
    };
    match tl {
        None => None,
        Some(tl) => {
            let ls = line_start(s, l);
            let tls = line_start(s, tl);
            let te = line_end(s, tl);
            if r.from_spec() < ls {
                None
            } else {
                let col_from = r.from_spec() - ls;
                let col_to = r.to_spec() - ls;
                if col_to <= te - tls && tls + col_to <= usize::MAX {
                    Some(
                        (TextRange {
                            anchor: (tls + col_from) as usize,
                            head: (tls + col_to) as usize,
                        }).with_direction_spec(r.direction_spec()),
                    )
                } else {
                    None
                }
            }
        },
    }
}

/// What a block copy leaves: nothing, when no adjacent row fits, else
/// the copied row appended as the new primary range.
pub open spec fn adjacent_copy_commits(pre: Editor, post: Editor, dir: Direction) -> bool {
    let rs = pre.selection.ranges@;
    match adjacent_copy_spec(pre.text@, rs[pre.selection.primary_index as int], dir) {
        None => post.selection == pre.selection,
        Some(nr) => crate::selection::sorted_nonoverlapping(rs.push(nr)) ==> (
        post.selection.ranges@ == rs.push(nr) && post.selection.primary_index as int == rs.len()),
    }
}

/// All the block's rows sit on one line.
pub open spec fn block_rows_on_one_line(s: Seq<char>, rs: Seq<TextRange>) -> bool {
    forall|i: int, j: int|
        0 <= i < rs.len() && 0 <= j < rs.len() ==> line_of(
            s,
            (#[trigger] rs[i]).cursor_spec(),
        ) == line_of(s, (#[trigger] rs[j]).cursor_spec())
}

/// What one block-wise step leaves: with all rows on one line the
/// primary row is copied to the adjacent line; over several lines,
/// either rows toward the block's far side go, or the copy happens.
pub open spec fn block_step_spec(pre: Editor, post: Editor, dir: Direction) -> bool {
    if block_rows_on_one_line(pre.text@, pre.selection.ranges@) {
        adjacent_copy_commits(pre, post, dir)
    } else {
        ||| post.selection.ranges@.len() < pre.selection.ranges@.len()
        ||| adjacent_copy_commits(pre, post, dir)
    }
}

/// Duplicate the primary range onto the adjacent line, at the same
/// columns, when that line is long enough to hold them.
fn copy_selection_adjacent(ed: &mut Editor, dir: Direction)
    requires
        old(ed).wf(),
    ensures
        final(ed).wf(),
        *final(ed) == (Editor { selection: final(ed).selection, ..*old(ed) }),
        adjacent_copy_commits(*old(ed), *final(ed), dir),
{
    let ghost s = ed.text@;
    let primary = ed.selection.primary_range_copy();
    let c = primary.cursor();
    proof {
        crate::text::lemma_line_of_bounds(s, c as int);
        crate::text::lemma_position_in_its_line(s, c as int);
    }
    let l = crate::text::char_to_line(&ed.text, c);
    let nl = crate::text::len_lines(&ed.text);
    let tl: usize = match dir {
        Direction::Forward => {
            if l + 1 < nl {
                l + 1
            } else {
                return ;
            }
        },
        Direction::Backward => {
            if l > 0 {
                l - 1
            } else {
                return ;
            }
        },
    };
    let ls = crate::text::line_to_char(&ed.text, l);
    let tls = crate::text::line_to_char(&ed.text, tl);
    let te = crate::text::line_end_char_index(&ed.text, tl);
    proof {
        crate::text::lemma_line_start_bounds(s, l as int);
        crate::text::lemma_line_start_bounds(s, tl as int);
        assert(te >= tls);
    }
    let from = primary.from();
    let to = primary.to();
    if from < ls {
        return ;
    }
    let col_from = from - ls;
    let col_to = to - ls;
    if col_to <= te - tls && tls <= usize::MAX - col_to {
        let new_range = (TextRange { anchor: tls + col_from, head: tls + col_to }).with_direction(
            primary.direction(),
        );
        let mut v = crate::state::duplicate_selection(&ed.selection);
        v.ranges.push(new_range);
        proof {
            assert(crate::selection::all_in_bounds(v.ranges@, s.len() as int)) by {
                assert(forall|j: int|
                    0 <= j < ed.selection.ranges@.len()
                        ==> (#[trigger] v.ranges@[j]).in_bounds(s.len() as int));
            }
            assert(v.ranges@ =~= ed.selection.ranges@.push(new_range));
        }
        let primary_index = v.ranges.len() - 1;
        let sel = Selection { ranges: v.ranges, primary_index }.normalize(Ghost(s.len() as int));
        ed.selection = sel;
    }
}

/// Leave select mode for normal mode, saving the selection for a later
/// restore and clearing the visual sub-modes; a block collapses to its
/// primary range.
pub fn vim_normal_mode(ed: &mut Editor)
    requires
        old(ed).wf(),
    ensures
        final(ed).wf(),
        final(ed).mode == Mode::Normal,
        final(ed).state.visual_lines == false && final(ed).state.visual_blocks == false,
        old(ed).mode == Mode::Select ==> final(ed).state.gv_selection is Some
            && final(ed).state.gv_selection->0.selection.ranges@ == old(ed).selection.ranges@,
        *final(ed) == (Editor {
            mode: Mode::Normal,
            state: final(ed).state,
            selection: final(ed).selection,
            ..*old(ed)
        }),
{
    if matches!(ed.mode, Mode::Select) {
        ed.save_current_selection();
    }
    ed.mode = Mode::Normal;
    if ed.state.is_visual_block() {
        let sel = crate::transforms::keep_primary_only(&ed.selection);
        ed.selection = sel;
    }
    ed.state.exit_visual_modes();
}

/// Leave select mode, saving the selection for a later restore; the
/// mode changes only when it was select mode.
pub fn vim_exit_select_mode(ed: &mut Editor)
    requires
        old(ed).wf(),
    ensures
        final(ed).wf(),
        final(ed).state.visual_lines == false && final(ed).state.visual_blocks == false,
        old(ed).mode == Mode::Select ==> final(ed).mode == Mode::Normal,
        old(ed).mode != Mode::Select ==> final(ed).mode == old(ed).mode,
        *final(ed) == (Editor {
            mode: final(ed).mode,
            state: final(ed).state,
            selection: final(ed).selection,
            ..*old(ed)
        }),
{
    if matches!(ed.mode, Mode::Select) {
        ed.save_current_selection();
    }
    if ed.state.is_visual_block() {
        let sel = crate::transforms::keep_primary_only(&ed.selection);
        ed.selection = sel;
    }
    if matches!(ed.mode, Mode::Select) {
        ed.mode = Mode::Normal;
    }
    ed.state.exit_visual_modes();
}

/// Remember the position in the jumplist before a far motion.
pub fn vim_save_to_jumplist(ed: &mut Editor)
    requires
        old(ed).wf(),
    ensures
        final(ed).wf(),
        *final(ed) == (Editor { jumplist: final(ed).jumplist, ..*old(ed) }),
        final(ed).jumplist@.len() == old(ed).jumplist@.len() + 1,
        final(ed).jumplist@.last().selection.ranges@ == old(ed).selection.ranges@,
        final(ed).jumplist@.last().doc_id == old(ed).doc_id,
{
    ed.push_jump();
}

/// Move by one paragraph forward, pushing the jumplist; outside select
/// mode the command lands in normal mode.
pub fn vim_move_paragraph_forward(ed: &mut Editor)
    requires
        old(ed).wf(),
    ensures
        final(ed).wf(),
        old(ed).mode != Mode::Select ==> final(ed).mode == Mode::Normal,
        old(ed).mode == Mode::Select ==> final(ed).mode == Mode::Select,
        *final(ed) == (Editor {
            mode: final(ed).mode,
            selection: final(ed).selection,
            jumplist: final(ed).jumplist,
            ..*old(ed)
        }),
        final(ed).jumplist@.len() == old(ed).jumplist@.len() + 1,
        final(ed).jumplist@.last().selection.ranges@ == old(ed).selection.ranges@,
        final(ed).jumplist@.last().doc_id == old(ed).doc_id,
        ({
            let movement = if old(ed).mode == Mode::Select {
                Movement::Extend
            } else {
                Movement::Move
            };
            sorted_nonoverlapping(
                paragraph_moved_ranges(
                    old(ed).text@,
                    old(ed).selection.ranges@,
                    Direction::Forward,
                    old(ed).count_spec(),
                    movement,
                ),
            ) ==> final(ed).selection.ranges@ == paragraph_moved_ranges(
                old(ed).text@,
                old(ed).selection.ranges@,
                Direction::Forward,
                old(ed).count_spec(),
                movement,
            )
        }),
{
    vim_save_to_jumplist(ed);
    goto_para_impl(ed, Direction::Forward);
    if !matches!(ed.mode, Mode::Select) {
        ed.mode = Mode::Normal;
    }
}

/// Move by one paragraph backward; see
/// [`vim_move_paragraph_forward`].
pub fn vim_move_paragraph_backward(ed: &mut Editor)
    requires
        old(ed).wf(),
    ensures
        final(ed).wf(),
        old(ed).mode != Mode::Select ==> final(ed).mode == Mode::Normal,
        old(ed).mode == Mode::Select ==> final(ed).mode == Mode::Select,
        *final(ed) == (Editor {
            mode: final(ed).mode,
            selection: final(ed).selection,
            jumplist: final(ed).jumplist,
            ..*old(ed)
        }),
        final(ed).jumplist@.len() == old(ed).jumplist@.len() + 1,
        final(ed).jumplist@.last().selection.ranges@ == old(ed).selection.ranges@,
        final(ed).jumplist@.last().doc_id == old(ed).doc_id,
        ({
            let movement = if old(ed).mode == Mode::Select {
                Movement::Extend
            } else {
                Movement::Move
            };
            sorted_nonoverlapping(
                paragraph_moved_ranges(
                    old(ed).text@,
                    old(ed).selection.ranges@,
                    Direction::Backward,
                    old(ed).count_spec(),
                    movement,
                ),
            ) ==> final(ed).selection.ranges@ == paragraph_moved_ranges(
                old(ed).text@,
                old(ed).selection.ranges@,
                Direction::Backward,
                old(ed).count_spec(),
                movement,
            )
        }),
{
    vim_save_to_jumplist(ed);
    goto_para_impl(ed, Direction::Backward);
    if !matches!(ed.mode, Mode::Select) {
        ed.mode = Mode::Normal;
    }
}

/// Every range moved by the paragraph motion.
pub open spec fn paragraph_moved_ranges(
    s: Seq<char>,
    rs: Seq<TextRange>,
    dir: Direction,
    count: int,
    movement: Movement,
) -> Seq<TextRange> {
    Seq::new(
        rs.len(),
        |i: int|
            match dir {
                Direction::Forward => crate::paragraph::paragraph_forward_spec(
                    s,
                    rs[i],
                    count,
                    movement,
                ),
                Direction::Backward => crate::paragraph::paragraph_backward_spec(
                    s,
                    rs[i],
                    count,
                    movement,
                ),
            },
    )
}

/// Apply the paragraph motion to every range, extending in select
/// mode and moving otherwise.
fn goto_para_impl(ed: &mut Editor, dir: Direction)
    requires
        old(ed).wf(),
    ensures
        final(ed).wf(),
        *final(ed) == (Editor { selection: final(ed).selection, ..*old(ed) }),
        ({
            let movement = if old(ed).mode == Mode::Select {
                Movement::Extend
            } else {
                Movement::Move
            };
            sorted_nonoverlapping(
                paragraph_moved_ranges(
                    old(ed).text@,
                    old(ed).selection.ranges@,
                    dir,
                    old(ed).count_spec(),
                    movement,
                ),
            ) ==> final(ed).selection.ranges@ == paragraph_moved_ranges(
                old(ed).text@,
                old(ed).selection.ranges@,
                dir,
                old(ed).count_spec(),
                movement,
            )
        }),
{
    let ghost s = ed.text@;
    let count = ed.effective_count();
    let movement = if matches!(ed.mode, Mode::Select) {
        Movement::Extend
    } else {
        Movement::Move
    };
    let ghost mapped = paragraph_moved_ranges(
        s,
        ed.selection.ranges@,
        dir,
        count as int,
        movement,
    );
    let mut v: Vec<TextRange> = Vec::new();
    let mut i: usize = 0;
    while i < ed.selection.ranges.len()
        invariant
            ed.wf(),
            s == ed.text@,
            count >= 1,
            mapped == paragraph_moved_ranges(s, ed.selection.ranges@, dir, count as int, movement),
            i <= ed.selection.ranges@.len(),
            v@ =~= mapped.take(i as int),
            crate::selection::all_in_bounds(v@, s.len() as int),
        decreases ed.selection.ranges.len() - i,
    {
        let r = match dir {
            Direction::Forward => crate::paragraph::movement_paragraph_forward(
                &ed.text,
                &ed.selection.ranges[i],
                count,
                movement,
            ),
            Direction::Backward => crate::paragraph::movement_paragraph_backward(
                &ed.text,
                &ed.selection.ranges[i],
                count,
                movement,
            ),
        };
        v.push(r);
        proof {
            assert(mapped.take(i + 1int) =~= mapped.take(i as int).push(r));
        }
        i = i + 1;
    }
    proof {
        assert(mapped.take(mapped.len() as int) =~= mapped);
    }
    let sel = Selection { ranges: v, primary_index: ed.selection.primary_index }.normalize(
        Ghost(s.len() as int),
    );
    ed.selection = sel;
}

/// Open the search prompt, with the highlight surviving the next
/// normalization pass.
pub fn vim_search(ed: &mut Editor)
    requires
        old(ed).wf(),
    ensures
        final(ed).wf(),
        final(ed).state == (ModalSessionState { highlight: true, ..old(ed).state }),
        final(ed).host_calls@ == old(ed).host_calls@.push(
            HostAction::PromptSearch { forward: true },
        ),
        *final(ed) == (Editor {
            state: final(ed).state,
            host_calls: final(ed).host_calls,
            jumplist: final(ed).jumplist,
            ..*old(ed)
        }),
{
    vim_save_to_jumplist(ed);
    ed.state.allow_highlight();
    ed.push_host_call(HostAction::PromptSearch { forward: true });
}

/// Open the reverse search prompt; see [`vim_search`].
pub fn vim_rsearch(ed: &mut Editor)
    requires
        old(ed).wf(),
    ensures
        final(ed).wf(),
        final(ed).state == (ModalSessionState { highlight: true, ..old(ed).state }),
        final(ed).host_calls@ == old(ed).host_calls@.push(
            HostAction::PromptSearch { forward: false },
        ),
        *final(ed) == (Editor {
            state: final(ed).state,
            host_calls: final(ed).host_calls,
            jumplist: final(ed).jumplist,
            ..*old(ed)
        }),
{
    vim_save_to_jumplist(ed);
    ed.state.allow_highlight();
    ed.push_host_call(HostAction::PromptSearch { forward: false });
}

/// Jump to the next match of the active pattern; see [`vim_search`].
pub fn vim_search_next(ed: &mut Editor)
    requires
        old(ed).wf(),
    ensures
        final(ed).wf(),
        final(ed).state == (ModalSessionState { highlight: true, ..old(ed).state }),
        final(ed).host_calls@ == old(ed).host_calls@.push(
            HostAction::SearchNext { forward: true },
        ),
        *final(ed) == (Editor {
            state: final(ed).state,
            host_calls: final(ed).host_calls,
            jumplist: final(ed).jumplist,
            ..*old(ed)
        }),
{
    vim_save_to_jumplist(ed);
    ed.state.allow_highlight();
    ed.push_host_call(HostAction::SearchNext { forward: true });
}

/// Jump to the previous match of the active pattern; see
/// [`vim_search`].
pub fn vim_search_prev(ed: &mut Editor)
    requires
        old(ed).wf(),
    ensures
        final(ed).wf(),
        final(ed).state == (ModalSessionState { highlight: true, ..old(ed).state }),
        final(ed).host_calls@ == old(ed).host_calls@.push(
            HostAction::SearchNext { forward: false },
        ),
        *final(ed) == (Editor {
            state: final(ed).state,
            host_calls: final(ed).host_calls,
            jumplist: final(ed).jumplist,
            ..*old(ed)
        }),
{
    vim_save_to_jumplist(ed);
    ed.state.allow_highlight();
    ed.push_host_call(HostAction::SearchNext { forward: false });
}

/// Go to the matching bracket, pushing the jumplist.
pub fn vim_match_brackets(ed: &mut Editor)
    requires
        old(ed).wf(),
    ensures
        final(ed).wf(),
        final(ed).host_calls@ == old(ed).host_calls@.push(HostAction::MatchBrackets),
        *final(ed) == (Editor {
            host_calls: final(ed).host_calls,
            jumplist: final(ed).jumplist,
            ..*old(ed)
        }),
{
    vim_save_to_jumplist(ed);
    ed.push_host_call(HostAction::MatchBrackets);
}

/// The delete operator.
pub fn vim_delete(ed: &mut Editor)
    requires
        old(ed).wf(),
    ensures
        final(ed).wf(),
        old(ed).mode != Mode::Select ==> {
            &&& *final(ed) == (Editor {
                pending: final(ed).pending,
                autoinfo: final(ed).autoinfo,
                ..*old(ed)
            })
            &&& final(ed).pending matches PendingInput::OperatorTarget { ctx } && ctx == (
            VimOpCtx {
                op: VimOp::Delete,
                count: Some(old(ed).count_spec() as usize),
                register: old(ed).register,
            })
            &&& final(ed).autoinfo == Some(crate::editor::InfoPanel::ApplyModifier)
        },
        old(ed).mode == Mode::Select ==> {
            &&& final(ed).registers.contents(
                crate::operator::yank_register_spec(*old(ed), old(ed).register),
            ) == Some(crate::operator::fragments_spec(old(ed).text@, old(ed).selection.ranges@))
            &&& final(ed).mode == (if VimOp::Delete == VimOp::Change {
                Mode::Insert
            } else {
                Mode::Normal
            })
        },
        old(ed).mode == Mode::Select ==> final(ed).text@ == crate::operator::delete_ranges_spec(
            old(ed).text@,
            old(ed).selection.ranges@,
        ),
{
    let register = ed.register;
    VimOpCtx::operator_impl(ed, VimOp::Delete, register);
}

/// The yank operator.
pub fn vim_yank(ed: &mut Editor)
    requires
        old(ed).wf(),
    ensures
        final(ed).wf(),
        old(ed).mode != Mode::Select ==> {
            &&& *final(ed) == (Editor {
                pending: final(ed).pending,
                autoinfo: final(ed).autoinfo,
                ..*old(ed)
            })
            &&& final(ed).pending matches PendingInput::OperatorTarget { ctx } && ctx == (
            VimOpCtx {
                op: VimOp::Yank,
                count: Some(old(ed).count_spec() as usize),
                register: old(ed).register,
            })
            &&& final(ed).autoinfo == Some(crate::editor::InfoPanel::ApplyModifier)
        },
        old(ed).mode == Mode::Select ==> {
            &&& final(ed).registers.contents(
                crate::operator::yank_register_spec(*old(ed), old(ed).register),
            ) == Some(crate::operator::fragments_spec(old(ed).text@, old(ed).selection.ranges@))
            &&& final(ed).mode == (if VimOp::Yank == VimOp::Change {
                Mode::Insert
            } else {
                Mode::Normal
            })
        },
        old(ed).mode == Mode::Select ==> final(ed).text@ == old(ed).text@,
{
    let register = ed.register;
    VimOpCtx::operator_impl(ed, VimOp::Yank, register);
}

/// The yank operator aimed at the clipboard register.
pub fn vim_yank_to_clipboard(ed: &mut Editor)
    requires
        old(ed).wf(),
    ensures
        final(ed).wf(),
        old(ed).mode != Mode::Select ==> {
            &&& *final(ed) == (Editor {
                pending: final(ed).pending,
                autoinfo: final(ed).autoinfo,
                ..*old(ed)
            })
            &&& final(ed).pending matches PendingInput::OperatorTarget { ctx } && ctx == (
            VimOpCtx {
                op: VimOp::Yank,
                count: Some(old(ed).count_spec() as usize),
                register: Some('+'),
            })
            &&& final(ed).autoinfo == Some(crate::editor::InfoPanel::ApplyModifier)
        },
        old(ed).mode == Mode::Select ==> {
            &&& final(ed).registers.contents(
                crate::operator::yank_register_spec(*old(ed), Some('+')),
            ) == Some(crate::operator::fragments_spec(old(ed).text@, old(ed).selection.ranges@))
            &&& final(ed).mode == (if VimOp::Yank == VimOp::Change {
                Mode::Insert
            } else {
                Mode::Normal
            })
        },
        old(ed).mode == Mode::Select ==> final(ed).text@ == old(ed).text@,
{
    VimOpCtx::operator_impl(ed, VimOp::Yank, Some('+'));
}

/// The change operator.
pub fn vim_change(ed: &mut Editor)
    requires
        old(ed).wf(),
    ensures
        final(ed).wf(),
        old(ed).mode != Mode::Select ==> {
            &&& *final(ed) == (Editor {
                pending: final(ed).pending,
                autoinfo: final(ed).autoinfo,
                ..*old(ed)
            })
            &&& final(ed).pending matches PendingInput::OperatorTarget { ctx } && ctx == (
            VimOpCtx {
                op: VimOp::Change,
                count: Some(old(ed).count_spec() as usize),
                register: old(ed).register,
            })
            &&& final(ed).autoinfo == Some(crate::editor::InfoPanel::ApplyModifier)
        },
        old(ed).mode == Mode::Select ==> {
            &&& final(ed).registers.contents(
                crate::operator::yank_register_spec(*old(ed), old(ed).register),
            ) == Some(crate::operator::fragments_spec(old(ed).text@, old(ed).selection.ranges@))
            &&& final(ed).mode == (if VimOp::Change == VimOp::Change {
                Mode::Insert
            } else {
                Mode::Normal
            })
        },
        old(ed).mode == Mode::Select ==> final(ed).text@ == crate::operator::delete_ranges_spec(
            old(ed).text@,
            old(ed).selection.ranges@,
        ),
{
    let register = ed.register;
    VimOpCtx::operator_impl(ed, VimOp::Change, register);
}

/// Delete from each cursor to its line end; in select mode, delete
/// whole lines.
pub fn vim_delete_till_line_end(ed: &mut Editor)
    requires
        old(ed).wf(),
    ensures
        final(ed).wf(),
        old(ed).mode == Mode::Insert ==> *final(ed) == *old(ed),
        old(ed).mode == Mode::Normal ==> final(ed).mode == Mode::Normal,
        (old(ed).mode == Mode::Normal && sorted_nonoverlapping(
            crate::operator::instant_motion_ranges(
                old(ed).text@,
                old(ed).selection.ranges@,
                InstantMotion::LineEnd,
                1,
            ),
        )) ==> ({
            let extended = crate::operator::instant_motion_ranges(
                old(ed).text@,
                old(ed).selection.ranges@,
                InstantMotion::LineEnd,
                1,
            );
            &&& final(ed).registers.contents(
                crate::operator::yank_register_spec(*old(ed), old(ed).register),
            ) == Some(crate::operator::fragments_spec(old(ed).text@, extended))
            &&& final(ed).text@ == crate::operator::delete_ranges_spec(old(ed).text@, extended)
        }),
        (old(ed).mode == Mode::Select && sorted_nonoverlapping(
            crate::operator::full_line_ranges(
                old(ed).selection.ranges@,
                old(ed).text@,
                old(ed).count_spec(),
                true,
            ),
        )) ==> ({
            let lines = crate::operator::full_line_ranges(
                old(ed).selection.ranges@,
                old(ed).text@,
                old(ed).count_spec(),
                true,
            );
            &&& final(ed).registers.contents(
                crate::operator::yank_register_spec(*old(ed), old(ed).register),
            ) == Some(crate::operator::fragments_spec(old(ed).text@, lines))
            &&& final(ed).text@ == crate::operator::delete_ranges_spec(old(ed).text@, lines)
        }),
{
    match ed.mode {
        Mode::Normal => {
            extend_to_line_end(ed);
            let opcx = VimOpCtx::new(ed, VimOp::Delete);
            opcx.run_operator_for_current_selection(ed);
            ed.mode = Mode::Normal;
        },
        Mode::Select => {
            let opcx = VimOpCtx::new(ed, VimOp::Delete);
            opcx.run_operator_lines(ed);
        },
        Mode::Insert => {},
    }
}

/// Extend every range to its line's content end.
fn extend_to_line_end(ed: &mut Editor)
    requires
        old(ed).wf(),
    ensures
        final(ed).wf(),
        *final(ed) == (Editor { selection: final(ed).selection, ..*old(ed) }),
        sorted_nonoverlapping(
            crate::operator::instant_motion_ranges(
                old(ed).text@,
                old(ed).selection.ranges@,
                InstantMotion::LineEnd,
                1,
            ),
        ) ==> final(ed).selection.ranges@ == crate::operator::instant_motion_ranges(
            old(ed).text@,
            old(ed).selection.ranges@,
            InstantMotion::LineEnd,
            1,
        ),
{
    let ghost s = ed.text@;
    let ghost mapped = crate::operator::instant_motion_ranges(
        s,
        ed.selection.ranges@,
        InstantMotion::LineEnd,
        1,
    );
    let mut v: Vec<TextRange> = Vec::new();
    let mut i: usize = 0;
    while i < ed.selection.ranges.len()
        invariant
            ed.wf(),
            s == ed.text@,
            mapped == crate::operator::instant_motion_ranges(
                s,
                ed.selection.ranges@,
                InstantMotion::LineEnd,
                1,
            ),
            i <= ed.selection.ranges@.len(),
            v@ =~= mapped.take(i as int),
            crate::selection::all_in_bounds(v@, s.len() as int),
        decreases ed.selection.ranges.len() - i,
    {
        let r = crate::operator::apply_instant_motion(
            &ed.text,
            &ed.selection.ranges[i],
            InstantMotion::LineEnd,
            1,
        );
        v.push(r);
        proof {
            assert(mapped.take(i + 1int) =~= mapped.take(i as int).push(r));
        }
        i = i + 1;
    }
    proof {
        assert(mapped.take(mapped.len() as int) =~= mapped);
    }
    let sel = Selection { ranges: v, primary_index: ed.selection.primary_index }.normalize(
        Ghost(s.len() as int),
    );
    ed.selection = sel;
}

/// Delete whatever is selected, and return to normal mode.
pub fn vim_delete_any_selection(ed: &mut Editor)
    requires
        old(ed).wf(),
    ensures
        final(ed).wf(),
        final(ed).mode == Mode::Normal,
        final(ed).text@ == crate::operator::delete_ranges_spec(
            old(ed).text@,
            old(ed).selection.ranges@,
        ),
        final(ed).registers.contents(
            crate::operator::yank_register_spec(*old(ed), old(ed).register),
        ) == Some(crate::operator::fragments_spec(old(ed).text@, old(ed).selection.ranges@)),
        // zero-width cursors remain at the deletion points
        final(ed).selection.ranges@.len() == old(ed).selection.ranges@.len(),
        forall|i: int|
            0 <= i < old(ed).selection.ranges@.len() ==> (
            #[trigger] final(ed).selection.ranges@[i]) == (TextRange {
                anchor: (old(ed).selection.ranges@[i].from_spec()
                    - crate::selection::sum_range_lens(
                    old(ed).selection.ranges@.take(i),
                )) as usize,
                head: (old(ed).selection.ranges@[i].from_spec()
                    - crate::selection::sum_range_lens(old(ed).selection.ranges@.take(i))) as usize,
            }),
{
    let opcx = VimOpCtx::new(ed, VimOp::Delete);
    opcx.run_operator_for_current_selection(ed);
    ed.mode = Mode::Normal;
}

/// Arm the till-character motion.
pub fn vim_find_till_char(ed: &mut Editor)
    requires
        old(ed).wf(),
    ensures
        final(ed).wf(),
        *final(ed) == (Editor { pending: final(ed).pending, ..*old(ed) }),
        crate::operator::pending_wf(final(ed).pending),
        final(ed).pending matches PendingInput::FindChar { ctx: None, direction: Direction::Forward, inclusive: false, extend: false, .. },
{
    crate::operator::vim_find_char(ed, None, Direction::Forward, false, false);
}

/// Arm the find-character motion.
pub fn vim_find_next_char(ed: &mut Editor)
    requires
        old(ed).wf(),
    ensures
        final(ed).wf(),
        *final(ed) == (Editor { pending: final(ed).pending, ..*old(ed) }),
        crate::operator::pending_wf(final(ed).pending),
        final(ed).pending matches PendingInput::FindChar { ctx: None, direction: Direction::Forward, inclusive: true, extend: false, .. },
{
    crate::operator::vim_find_char(ed, None, Direction::Forward, true, false);
}

/// Arm the backward till-character motion.
pub fn vim_till_prev_char(ed: &mut Editor)
    requires
        old(ed).wf(),
    ensures
        final(ed).wf(),
        *final(ed) == (Editor { pending: final(ed).pending, ..*old(ed) }),
        crate::operator::pending_wf(final(ed).pending),
        final(ed).pending matches PendingInput::FindChar { ctx: None, direction: Direction::Backward, inclusive: false, extend: false, .. },
{
    crate::operator::vim_find_char(ed, None, Direction::Backward, false, false);
}

/// Arm the backward find-character motion.
pub fn vim_find_prev_char(ed: &mut Editor)
    requires
        old(ed).wf(),
    ensures
        final(ed).wf(),
        *final(ed) == (Editor { pending: final(ed).pending, ..*old(ed) }),
        crate::operator::pending_wf(final(ed).pending),
        final(ed).pending matches PendingInput::FindChar { ctx: None, direction: Direction::Backward, inclusive: true, extend: false, .. },
{
    crate::operator::vim_find_char(ed, None, Direction::Backward, true, false);
}

/// Append after the selection: insert mode with each cursor just past
/// its range, collapsed to a point.
pub fn vim_append(ed: &mut Editor)
    requires
        old(ed).wf(),
    ensures
        final(ed).wf(),
        final(ed).mode == Mode::Insert,
        *final(ed) == (Editor {
            mode: Mode::Insert,
            selection: final(ed).selection,
            ..*old(ed)
        }),
        final(ed).selection.ranges@.len() == old(ed).selection.ranges@.len(),
        forall|i: int|
            0 <= i < old(ed).selection.ranges@.len() ==> (
            #[trigger] final(ed).selection.ranges@[i]) == ({
                let r = old(ed).selection.ranges@[i];
                let p = if r.len_spec() == 0 {
                    if r.to_spec() + 1 <= old(ed).text@.len() {
                        r.to_spec() + 1
                    } else {
                        r.to_spec()
                    }
                } else {
                    r.to_spec()
                };
                (TextRange { anchor: p as usize, head: p as usize })
            }),
{
    let ghost s = ed.text@;
    let mut v: Vec<TextRange> = Vec::new();
    let mut i: usize = 0;
    while i < ed.selection.ranges.len()
        invariant
            ed.wf(),
            s == ed.text@,
            i <= ed.selection.ranges@.len(),
            v@.len() == i,
            forall|j: int|
                0 <= j < i ==> (#[trigger] v@[j]) == ({
                    let r = ed.selection.ranges@[j];
                    let p = if r.len_spec() == 0 {
                        if r.to_spec() + 1 <= s.len() {
                            r.to_spec() + 1
                        } else {
                            r.to_spec()
                        }
                    } else {
                        r.to_spec()
                    };
                    (TextRange { anchor: p as usize, head: p as usize })
                }),
            crate::selection::all_in_bounds(v@, s.len() as int),
        decreases ed.selection.ranges.len() - i,
    {
        let r = ed.selection.ranges[i];
        let to = r.to();
        let p = if r.len() == 0 {
            if to < ed.text.len() {
                to + 1
            } else {
                to
            }
        } else {
            to
        };
        v.push(TextRange { anchor: p, head: p });
        i = i + 1;
    }
    proof {
        assert forall|a: int, b: int| 0 <= a < b < v@.len() implies v@[a].to_spec()
            <= v@[b].from_spec() by {
            assert(ed.selection.ranges@[a].to_spec() <= ed.selection.ranges@[b].from_spec());
            assert(ed.selection.ranges@[b].from_spec() <= ed.selection.ranges@[b].to_spec());
        }
    }
    ed.selection = Selection { ranges: v, primary_index: ed.selection.primary_index };
    ed.mode = Mode::Insert;
}

/// Move every cursor one character left, stopping at the line start.
pub fn vim_move_char_left(ed: &mut Editor)
    requires
        old(ed).wf(),
    ensures
        final(ed).wf(),
        *final(ed) == (Editor { selection: final(ed).selection, ..*old(ed) }),
        sorted_nonoverlapping(
            horizontal_moved_ranges(
                old(ed).text@,
                old(ed).selection.ranges@,
                Direction::Backward,
                old(ed).count_spec(),
            ),
        ) ==> final(ed).selection.ranges@ == horizontal_moved_ranges(
            old(ed).text@,
            old(ed).selection.ranges@,
            Direction::Backward,
            old(ed).count_spec(),
        ),
{
    move_all_horizontally(ed, Direction::Backward);
}

/// Move every cursor one character right, stopping at the line end.
pub fn vim_move_char_right(ed: &mut Editor)
    requires
        old(ed).wf(),
    ensures
        final(ed).wf(),
        *final(ed) == (Editor { selection: final(ed).selection, ..*old(ed) }),
        sorted_nonoverlapping(
            horizontal_moved_ranges(
                old(ed).text@,
                old(ed).selection.ranges@,
                Direction::Forward,
                old(ed).count_spec(),
            ),
        ) ==> final(ed).selection.ranges@ == horizontal_moved_ranges(
            old(ed).text@,
            old(ed).selection.ranges@,
            Direction::Forward,
            old(ed).count_spec(),
        ),
{
    move_all_horizontally(ed, Direction::Forward);
}

/// Every range moved horizontally, stopping at its line's bounds.
pub open spec fn horizontal_moved_ranges(
    s: Seq<char>,
    rs: Seq<TextRange>,
    dir: Direction,
    count: int,
) -> Seq<TextRange> {
    Seq::new(rs.len(), |i: int| vim_move_horizontally_spec(s, rs[i], dir, count, Movement::Move))
}

fn move_all_horizontally(ed: &mut Editor, dir: Direction)
    requires
        old(ed).wf(),
    ensures
        final(ed).wf(),
        *final(ed) == (Editor { selection: final(ed).selection, ..*old(ed) }),
        sorted_nonoverlapping(
            horizontal_moved_ranges(
                old(ed).text@,
                old(ed).selection.ranges@,
                dir,
                old(ed).count_spec(),
            ),
        ) ==> final(ed).selection.ranges@ == horizontal_moved_ranges(
            old(ed).text@,
            old(ed).selection.ranges@,
            dir,
            old(ed).count_spec(),
        ),
{
    let ghost s = ed.text@;
    let count = ed.effective_count();
    let ghost mapped = horizontal_moved_ranges(s, ed.selection.ranges@, dir, count as int);
    let mut v: Vec<TextRange> = Vec::new();
    let mut i: usize = 0;
    while i < ed.selection.ranges.len()
        invariant
            ed.wf(),
            s == ed.text@,
            count >= 1,
            mapped == horizontal_moved_ranges(s, ed.selection.ranges@, dir, count as int),
            i <= ed.selection.ranges@.len(),
            v@ =~= mapped.take(i as int),
            crate::selection::all_in_bounds(v@, s.len() as int),
        decreases ed.selection.ranges.len() - i,
    {
        let r = vim_move_horizontally(
            &ed.text,
            &ed.selection.ranges[i],
            dir,
            count,
            Movement::Move,
        );
        v.push(r);
        proof {
            assert(mapped.take(i + 1int) =~= mapped.take(i as int).push(r));
        }
        i = i + 1;
    }
    proof {
        assert(mapped.take(mapped.len() as int) =~= mapped);
    }
    let sel = Selection { ranges: v, primary_index: ed.selection.primary_index }.normalize(
        Ghost(s.len() as int),
    );
    ed.selection = sel;
}

/// Whether the cursor sits at its line's content end or on the line's
/// separator.
pub fn is_line_end(text: &Vec<char>, range: &TextRange, line: usize) -> (r: bool)
    requires
        range.in_bounds(text@.len() as int),
        line < usize::MAX,
    ensures
        r == is_line_end_spec(text@, *range, line as int),
{
    let c = range.cursor();
    let nls = crate::text::line_to_char(text, line + 1);
    let new_line_char = (if nls > 0 {
        nls - 1
    } else {
        0
    }) == c;
    let le = crate::text::line_end_char_index(text, line);
    let line_end_flag = (if le > 0 {
        le - 1
    } else {
        0
    }) == c;
    line_end_flag || new_line_char
}

pub open spec fn is_line_end_spec(s: Seq<char>, r: TextRange, line: int) -> bool {
    let c = r.cursor_spec();
    crate::paragraph::prev_pos(line_start(s, line + 1)) == c || crate::paragraph::prev_pos(
        line_end(s, line),
    ) == c
}

/// A horizontal move that never crosses its line's bounds.
pub fn vim_move_horizontally(
    text: &Vec<char>,
    range: &TextRange,
    dir: Direction,
    count: usize,
    behaviour: Movement,
) -> (out: TextRange)
    requires
        range.in_bounds(text@.len() as int),
        text@.len() < usize::MAX,
    ensures
        out.in_bounds(text@.len() as int),
        out == vim_move_horizontally_spec(text@, *range, dir, count as int, behaviour),
{
    let ghost s = text@;
    let c = range.cursor();
    proof {
        crate::text::lemma_line_of_bounds(s, c as int);
    }
    let line = crate::text::char_to_line(text, c);
    let ls = crate::text::line_to_char(text, line);
    let at_start = ls == c;
    let at_end = is_line_end(text, range, line);
    match dir {
        Direction::Forward => {
            if at_end {
                return *range;
            }
        },
        Direction::Backward => {
            if at_start {
                return *range;
            }
        },
    }
    let new_pos: usize = match dir {
        Direction::Forward => {
            if count <= text.len() - c {
                c + count
            } else {
                text.len()
            }
        },
        Direction::Backward => {
            if count <= c {
                c - count
            } else {
                0
            }
        },
    };
    range.put_cursor(text, new_pos, behaviour)
}

pub open spec fn vim_move_horizontally_spec(
    s: Seq<char>,
    r: TextRange,
    dir: Direction,
    count: int,
    behaviour: Movement,
) -> TextRange {
    let c = r.cursor_spec();
    let line = line_of(s, c);
    let at_start = line_start(s, line) == c;
    let at_end = is_line_end_spec(s, r, line);
    if (dir == Direction::Forward && at_end) || (dir == Direction::Backward && at_start) {
        r
    } else {
        let new_pos = match dir {
            Direction::Forward => if c + count <= s.len() {
                c + count
            } else {
                s.len() as int
            },
            Direction::Backward => if count <= c {
                c - count
            } else {
                0
            },
        };
        r.put_cursor_spec(s, new_pos, behaviour)
    }
}

/// Select by regex inside the selection: a host prompt, with the
/// visual sub-modes cleared.
pub fn vim_select_regex(ed: &mut Editor)
    requires
        old(ed).wf(),
    ensures
        final(ed).wf(),
        final(ed).state == (ModalSessionState {
            visual_lines: false,
            visual_blocks: false,
            ..old(ed).state
        }),
        final(ed).host_calls@ == old(ed).host_calls@.push(HostAction::SelectRegexPrompt),
        *final(ed) == (Editor {
            state: final(ed).state,
            host_calls: final(ed).host_calls,
            ..*old(ed)
        }),
{
    ed.state.exit_visual_modes();
    ed.push_host_call(HostAction::SelectRegexPrompt);
}

/// Select the whole document, exempt from the next collapse.
pub fn vim_select_all(ed: &mut Editor)
    requires
        old(ed).wf(),
    ensures
        final(ed).wf(),
        final(ed).state == (ModalSessionState {
            visual_lines: false,
            highlight: true,
            ..old(ed).state
        }),
        final(ed).selection.ranges@ =~= seq![
            TextRange { anchor: 0usize, head: old(ed).text@.len() as usize },
        ],
        *final(ed) == (Editor {
            state: final(ed).state,
            selection: final(ed).selection,
            ..*old(ed)
        }),
{
    ed.state.exit_visual_line();
    ed.state.allow_highlight();
    let sel = crate::transforms::select_whole_document(&ed.text);
    ed.selection = sel;
}

/// Let the host's own commands run unnormalized until re-enabled.
pub fn vim_cmd_off(ed: &mut Editor)
    requires
        old(ed).wf(),
    ensures
        final(ed).wf(),
        *final(ed) == (Editor { state: final(ed).state, ..*old(ed) }),
        final(ed).state == (ModalSessionState { cmd_hook_enabled: false, ..old(ed).state }),
{
    ed.state.set_cmd_hook_enabled(false);
}

/// Request normalization again from the next command on, if the modal
/// layer is on at all.
pub fn vim_cmd_on(ed: &mut Editor)
    requires
        old(ed).wf(),
    ensures
        final(ed).wf(),
        old(ed).state.vim_mode ==> final(ed).state == (ModalSessionState {
            vim_pend_enable: true,
            ..old(ed).state
        }),
        !old(ed).state.vim_mode ==> *final(ed) == *old(ed),
        *final(ed) == (Editor { state: final(ed).state, ..*old(ed) }),
{
    if ed.state.is_vim_mode() {
        ed.state.set_vim_pend_enable(true);
    }
}

/// Turn the modal layer on and ask the host to reload configuration.
pub fn vim_enable(ed: &mut Editor)
    requires
        old(ed).wf(),
    ensures
        final(ed).wf(),
        final(ed).state == (ModalSessionState {
            vim_mode: true,
            cmd_hook_enabled: true,
            ..old(ed).state
        }),
        final(ed).host_calls@ == old(ed).host_calls@.push(HostAction::ConfigRefresh),
        *final(ed) == (Editor {
            state: final(ed).state,
            host_calls: final(ed).host_calls,
            ..*old(ed)
        }),
{
    ed.state.set_vim_mode(true);
    ed.push_host_call(HostAction::ConfigRefresh);
}

/// Turn the modal layer off and ask the host to reload configuration.
pub fn vim_disable(ed: &mut Editor)
    requires
        old(ed).wf(),
    ensures
        final(ed).wf(),
        final(ed).state == (ModalSessionState {
            vim_mode: false,
            cmd_hook_enabled: false,
            ..old(ed).state
        }),
        final(ed).host_calls@ == old(ed).host_calls@.push(HostAction::ConfigRefresh),
        *final(ed) == (Editor {
            state: final(ed).state,
            host_calls: final(ed).host_calls,
            ..*old(ed)
        }),
{
    ed.state.set_vim_mode(false);
    ed.push_host_call(HostAction::ConfigRefresh);
}

/// How a dispatched command was defined; the hook runs only after
/// ordinary keymap and macro commands.
#[derive(Clone, Copy, PartialEq, Eq, Structural, Debug)]
pub enum CommandKind {
    Static,
    Typable,
    Macro,
}

/// The post-command normalization pass: in select mode a line-wise
/// selection is re-extended to line bounds and saved for restore; in
/// normal mode the selection collapses to cursors unless the one-shot
/// highlight flag spares it once; other modes are left alone.  While
/// the hook is disabled a requested deferred re-enable takes effect
/// for the next command.
pub fn hook_after_each_command(ed: &mut Editor, cmd: CommandKind)
    requires
        old(ed).wf(),
    ensures
        final(ed).wf(),
        cmd == CommandKind::Typable ==> *final(ed) == *old(ed),
        (cmd != CommandKind::Typable && !old(ed).state.cmd_hook_enabled) ==> *final(ed) == (Editor {
            state: final(ed).state,
            ..*old(ed)
        }) && final(ed).state == (ModalSessionState {
            cmd_hook_enabled: old(ed).state.vim_pend_enable,
            vim_pend_enable: false,
            ..old(ed).state
        }),
        (cmd != CommandKind::Typable && old(ed).state.cmd_hook_enabled && old(ed).mode
            == Mode::Normal && old(ed).state.highlight) ==> *final(ed) == (Editor {
            state: final(ed).state,
            ..*old(ed)
        }) && final(ed).state == (ModalSessionState { highlight: false, ..old(ed).state }),
        (cmd != CommandKind::Typable && old(ed).state.cmd_hook_enabled && old(ed).mode
            == Mode::Normal && !old(ed).state.highlight) ==> {
            &&& *final(ed) == (Editor { selection: final(ed).selection, ..*old(ed) })
            &&& final(ed).selection.ranges@.len() == old(ed).selection.ranges@.len()
            &&& forall|i: int|
                0 <= i < old(ed).selection.ranges@.len() ==> (
                #[trigger] final(ed).selection.ranges@[i]) == (TextRange {
                    anchor: old(ed).selection.ranges@[i].cursor_spec() as usize,
                    head: old(ed).selection.ranges@[i].cursor_spec() as usize,
                })
        },
        (cmd != CommandKind::Typable && old(ed).state.cmd_hook_enabled && old(ed).mode
            == Mode::Select && old(ed).state.visual_lines && sorted_nonoverlapping(
            crate::transforms::line_extended_ranges(old(ed).selection.ranges@, old(ed).text@),
        )) ==> final(ed).selection.ranges@ == crate::transforms::line_extended_ranges(
            old(ed).selection.ranges@,
            old(ed).text@,
        ),
        (cmd != CommandKind::Typable && old(ed).state.cmd_hook_enabled && old(ed).mode
            == Mode::Select) ==> final(ed).state.gv_selection is Some
            && final(ed).state.gv_selection->0.selection.ranges@ == final(ed).selection.ranges@
            && final(ed).state.gv_selection->0.doc_id == old(ed).doc_id,
        (cmd != CommandKind::Typable && old(ed).state.cmd_hook_enabled && old(ed).mode
            == Mode::Insert) ==> *final(ed) == *old(ed),
{
    if matches!(cmd, CommandKind::Typable) {
        return ;
    }
    if !ed.state.is_cmd_hook_enabled() {
        if ed.state.is_vim_pend_enable() {
            ed.state.set_cmd_hook_enabled(true);
            ed.state.set_vim_pend_enable(false);
        }
        return ;
    }
    match ed.mode {
        Mode::Select => {
            if ed.state.is_visual_line() {
                extend_to_line_bounds(ed);
            }
            ed.save_current_selection();
        },
        Mode::Normal => {
            if ed.state.is_highlight_allowed() {
                ed.state.reset_highlight();
            } else {
                collapse_selection(ed);
            }
        },
        Mode::Insert => {},
    }
}

/// Where a paste lands relative to a range: at its end, as the host
/// does, unless the modal paste flavour is on and the cursor sits at
/// its line's last position, in which case the paste starts at the
/// range's beginning.
pub open spec fn after_paste_start_pos_spec(
    st: ModalSessionState,
    s: Seq<char>,
    r: TextRange,
) -> int {
    if !st.vim_paste {
        r.to_spec()
    } else {
        let line = line_of(s, r.cursor_spec());
        if r.len_spec() <= 1 && crate::paragraph::prev_pos(line_start(s, line + 1))
            == r.cursor_spec() {
            r.from_spec()
        } else {
            r.to_spec()
        }
    }
}

/// The position a paste-after starts at for one range.
pub fn after_paste_start_pos(st: &ModalSessionState, text: &Vec<char>, range: &TextRange) -> (r:
    usize)
    requires
        range.in_bounds(text@.len() as int),
        text@.len() < usize::MAX,
    ensures
        r as int == after_paste_start_pos_spec(*st, text@, *range),
        r <= text@.len(),
{
    if !st.is_vim_paste() {
        return range.to();
    }
    let c = range.cursor();
    proof {
        crate::text::lemma_line_of_bounds(text@, c as int);
    }
    let line = crate::text::char_to_line(text, c);
    let nls = crate::text::line_to_char(text, line + 1);
    let at_line_last = (if nls > 0 {
        nls - 1
    } else {
        0
    }) == c;
    if range.len() <= 1 && at_line_last {
        range.from()
    } else {
        range.to()
    }
}

/// Where one range's paste lands.
pub open spec fn paste_pos_spec(
    st: ModalSessionState,
    s: Seq<char>,
    r: TextRange,
    after: bool,
) -> int {
    if after {
        after_paste_start_pos_spec(st, s, r)
    } else {
        r.from_spec()
    }
}

/// Whether a single-range paste of the register's newest value can
/// proceed: the register holds something and the result stays
/// addressable.
pub open spec fn single_paste_fits(ed: Editor, register: Option<char>) -> bool {
    let vs = ed.registers.contents(crate::operator::yank_register_spec(ed, register));
    &&& ed.selection.ranges@.len() == 1
    &&& vs is Some
    &&& vs->0.len() > 0
    &&& ed.text@.len() + vs->0[0].len() < usize::MAX
}

/// Paste the register's contents: each range gets one value, cycling
/// when the register holds fewer values than there are ranges.  An
/// empty or missing register pastes nothing, as does content that
/// would not fit in an addressable buffer.
fn paste_impl(ed: &mut Editor, after: bool, register: Option<char>)
    requires
        old(ed).wf(),
    ensures
        final(ed).wf(),
        single_paste_fits(*old(ed), register) ==> final(ed).text@ == ({
            let frag = old(ed).registers.contents(
                crate::operator::yank_register_spec(*old(ed), register),
            )->0[0];
            let pos = paste_pos_spec(
                old(ed).state,
                old(ed).text@,
                old(ed).selection.ranges@[0],
                after,
            );
            old(ed).text@.take(pos) + frag + old(ed).text@.skip(pos)
        }),
        // the selection lands as one forward range over the pasted text
        single_paste_fits(*old(ed), register) ==> final(ed).selection.ranges@ == ({
            let frag = old(ed).registers.contents(
                crate::operator::yank_register_spec(*old(ed), register),
            )->0[0];
            let pos = paste_pos_spec(
                old(ed).state,
                old(ed).text@,
                old(ed).selection.ranges@[0],
                after,
            );
            seq![TextRange { anchor: pos as usize, head: (pos + frag.len()) as usize }]
        }),
{
    let reg = match register {
        Some(r) => r,
        None => ed.config.default_yank_register,
    };
    let values = match ed.registers.read(reg) {
        Some(v) => v,
        None => {
            return ;
        },
    };
    if values.len() == 0 {
        return ;
    }
    let ghost s = ed.text@;
    let mut changes: Vec<crate::edits::Change> = Vec::new();
    let mut total: usize = 0;
    let mut i: usize = 0;
    while i < ed.selection.ranges.len()
        invariant
            ed.wf(),
            s == ed.text@,
            values@.len() > 0,
            i <= ed.selection.ranges@.len(),
            changes@.len() == i,
            total as int == crate::edits::inserted_len(changes@),
            forall|j: int|
                0 <= j < i ==> (#[trigger] changes@[j]).from == changes@[j].to && changes@[j].from
                    as int == paste_pos_spec(ed.state, s, ed.selection.ranges@[j], after)
                    && changes@[j].insert@ == crate::registers::values_view(values@)[
                    j % values@.len() as int
                ],
        decreases ed.selection.ranges.len() - i,
    {
        let r = ed.selection.ranges[i];
        let pos = if after {
            after_paste_start_pos(&ed.state, &ed.text, &r)
        } else {
            r.from()
        };
        let value = crate::registers::duplicate_chars(&values[i % values.len()]);
        if value.len() > usize::MAX - total {
            return ;
        }
        let vlen = value.len();
        let ghost before = changes@;
        changes.push(crate::edits::Change { from: pos, to: pos, insert: value });
        proof {
            lemma_push_change_sums(before, changes@.last());
            assert(changes@.drop_last() =~= before);
        }
        total = total + vlen;
        i = i + 1;
    }
    if changes.len() == 0 {
        return ;
    }
    proof {
        // a paste position stays inside its range's line of the text,
        // so the zero-width changes are ordered and in bounds
        let rs = ed.selection.ranges@;
        assert forall|j: int|
            0 <= j < changes@.len() implies (#[trigger] changes@[j]).from <= changes@[j].to
            <= s.len() by {
            assert(rs[j].in_bounds(s.len() as int));
        }
        assert forall|j: int|
            0 <= j < changes@.len() - 1 implies (#[trigger] changes@[j]).to <= changes@[j
            + 1].from by {
            assert(rs[j].to_spec() <= rs[j + 1].from_spec());
            assert(paste_pos_spec(ed.state, s, rs[j], after) <= rs[j].to_spec());
            assert(paste_pos_spec(ed.state, s, rs[j + 1], after) >= rs[j + 1].from_spec());
        }
        if changes@.len() == 1 {
            assert(changes@.drop_first() =~= Seq::<crate::edits::Change>::empty());
            assert(crate::edits::inserted_len(changes@) == changes@[0].insert@.len()
                + crate::edits::inserted_len(changes@.drop_first()));
        }
    }
    if total >= usize::MAX - ed.text.len() {
        return ;
    }
    proof {
        lemma_changes_deleted_nonneg(changes@);
        lemma_zero_width_deletes_nothing(changes@);
        assert(s.len() - crate::edits::deleted_len(changes@) + crate::edits::inserted_len(changes@)
            < usize::MAX);
    }
    let primary = if ed.selection.primary_index < changes.len() {
        ed.selection.primary_index
    } else {
        0
    };
    let ghost cs = changes@;
    crate::pastes::commit_replacements(ed, changes, primary);
    proof {
        if cs.len() == 1 {
            // one zero-width change: the new text is the old one with
            // the fragment spliced in at the paste position
            let p = cs[0].from as int;
            assert(cs.drop_first() =~= Seq::<crate::edits::Change>::empty());
            assert(crate::edits::apply_from(s, cs.drop_first(), p) == s.skip(p));
            assert(crate::edits::apply_changes_spec(s, cs) == s.subrange(0, p) + cs[0].insert@
                + s.skip(p));
            assert(s.subrange(0, p) =~= s.take(p));
            assert(cs.take(0) =~= Seq::<crate::edits::Change>::empty());
            assert(crate::pastes::mapped_start(cs, 0) == p);
            assert(ed.selection.ranges@ =~= seq![
                TextRange { anchor: p as usize, head: (p + cs[0].insert@.len()) as usize },
            ]);
        }
    }
}

/// Zero-width changes remove nothing.
proof fn lemma_zero_width_deletes_nothing(cs: Seq<crate::edits::Change>)
    requires
        forall|j: int| 0 <= j < cs.len() ==> (#[trigger] cs[j]).from == cs[j].to,
    ensures
        crate::edits::deleted_len(cs) == 0,
    decreases cs.len(),
{
    if cs.len() > 0 {
        assert(forall|j: int|
            0 <= j < cs.drop_first().len() ==> #[trigger] cs.drop_first()[j] == cs[j + 1]);
        lemma_zero_width_deletes_nothing(cs.drop_first());
    }
}

/// Pushing one change extends the prefix sums by its widths.
pub proof fn lemma_push_change_sums(cs: Seq<crate::edits::Change>, c: crate::edits::Change)
    ensures
        crate::edits::inserted_len(cs.push(c)) == crate::edits::inserted_len(cs)
            + c.insert@.len(),
        crate::edits::deleted_len(cs.push(c)) == crate::edits::deleted_len(cs) + (c.to - c.from),
    decreases cs.len(),
{
    let u = cs.push(c);
    assert(u.len() > 0);
    assert(crate::edits::inserted_len(u) == u[0].insert@.len() + crate::edits::inserted_len(
        u.drop_first(),
    ));
    assert(crate::edits::deleted_len(u) == (u[0].to - u[0].from) + crate::edits::deleted_len(
        u.drop_first(),
    ));
    if cs.len() == 0 {
        assert(u[0] == c);
        assert(u.drop_first() =~= Seq::<crate::edits::Change>::empty());
        assert(crate::edits::inserted_len(Seq::<crate::edits::Change>::empty()) == 0);
        assert(crate::edits::deleted_len(Seq::<crate::edits::Change>::empty()) == 0);
    } else {
        assert(u[0] == cs[0]);
        assert(u.drop_first() =~= cs.drop_first().push(c));
        lemma_push_change_sums(cs.drop_first(), c);
        assert(crate::edits::inserted_len(cs) == cs[0].insert@.len()
            + crate::edits::inserted_len(cs.drop_first()));
        assert(crate::edits::deleted_len(cs) == (cs[0].to - cs[0].from)
            + crate::edits::deleted_len(cs.drop_first()));
    }
}

/// Replace every range with the register's contents, cycling values.
/// Build one replacing change per range, each inserting the value its
/// index selects, cycling; refused when the inserted total would not
/// stay addressable.
pub(crate) fn build_replacement_changes(
    text: &Vec<char>,
    sel: &Selection,
    values: &Vec<Vec<char>>,
) -> (r: Option<(Vec<crate::edits::Change>, usize)>)
    requires
        sel.wf(text@.len() as int),
        values@.len() > 0,
    ensures
        r matches Some(out) ==> {
            &&& crate::edits::changes_wf(out.0@, text@.len() as int)
            &&& out.0@.len() == sel.ranges@.len()
            &&& forall|j: int|
                0 <= j < sel.ranges@.len() ==> (#[trigger] out.0@[j]).from as int
                    == sel.ranges@[j].from_spec() && out.0@[j].to as int
                    == sel.ranges@[j].to_spec() && out.0@[j].insert@
                    == crate::registers::values_view(values@)[j % values@.len() as int]
            &&& out.1 as int == crate::edits::inserted_len(out.0@)
        },
        sel.ranges@.len() == 1 ==> r is Some,
{
    let ghost s = text@;
    let mut changes: Vec<crate::edits::Change> = Vec::new();
    let mut total: usize = 0;
    let mut i: usize = 0;
    while i < sel.ranges.len()
        invariant
            sel.wf(s.len() as int),
            s == text@,
            values@.len() > 0,
            i <= sel.ranges@.len(),
            changes@.len() == i,
            total as int == crate::edits::inserted_len(changes@),
            forall|j: int|
                0 <= j < i ==> (#[trigger] changes@[j]).from as int == sel.ranges@[j].from_spec()
                    && changes@[j].to as int == sel.ranges@[j].to_spec() && changes@[j].insert@
                    == crate::registers::values_view(values@)[j % values@.len() as int],
        decreases sel.ranges.len() - i,
    {
        let r = sel.ranges[i];
        let value = crate::registers::duplicate_chars(&values[i % values.len()]);
        if value.len() > usize::MAX - total {
            return None;
        }
        let vlen = value.len();
        let ghost before = changes@;
        changes.push(crate::edits::Change { from: r.from(), to: r.to(), insert: value });
        proof {
            lemma_push_change_sums(before, changes@.last());
            assert(changes@.drop_last() =~= before);
        }
        total = total + vlen;
        i = i + 1;
    }
    proof {
        // well-formedness of the whole list follows from the ranges'
        // own order and bounds
        assert forall|j: int|
            0 <= j < changes@.len() implies (#[trigger] changes@[j]).from <= changes@[j].to
            <= s.len() by {
            assert(sel.ranges@[j].in_bounds(s.len() as int));
        }
        assert forall|j: int|
            0 <= j < changes@.len() - 1 implies (#[trigger] changes@[j]).to <= changes@[j
            + 1].from by {
            assert(sel.ranges@[j].to_spec() <= sel.ranges@[j + 1].from_spec());
        }
    }
    Some((changes, total))
}

/// Replace every range with the register's contents, cycling values.
fn replace_with_yanked(ed: &mut Editor, register: Option<char>)
    requires
        old(ed).wf(),
    ensures
        final(ed).wf(),
        single_paste_fits(*old(ed), register) ==> final(ed).text@ == ({
            let frag = old(ed).registers.contents(
                crate::operator::yank_register_spec(*old(ed), register),
            )->0[0];
            let r = old(ed).selection.ranges@[0];
            old(ed).text@.take(r.from_spec()) + frag + old(ed).text@.skip(r.to_spec())
        }),
        // the selection lands as one forward range over the new content
        single_paste_fits(*old(ed), register) ==> final(ed).selection.ranges@ == ({
            let frag = old(ed).registers.contents(
                crate::operator::yank_register_spec(*old(ed), register),
            )->0[0];
            let r = old(ed).selection.ranges@[0];
            seq![
                TextRange {
                    anchor: r.from_spec() as usize,
                    head: (r.from_spec() + frag.len()) as usize,
                },
            ]
        }),
{
    let reg = match register {
        Some(r) => r,
        None => ed.config.default_yank_register,
    };
    let values = match ed.registers.read(reg) {
        Some(v) => v,
        None => {
            return ;
        },
    };
    if values.len() == 0 {
        return ;
    }
    let ghost s = ed.text@;
    let built = build_replacement_changes(&ed.text, &ed.selection, &values);
    let (changes, total) = match built {
        Some(out) => out,
        None => {
            return ;
        },
    };
    if changes.len() == 0 {
        return ;
    }
    proof {
        if changes@.len() == 1 {
            assert(changes@.drop_first() =~= Seq::<crate::edits::Change>::empty());
            assert(crate::edits::inserted_len(changes@) == changes@[0].insert@.len()
                + crate::edits::inserted_len(changes@.drop_first()));
        }
    }
    if total >= usize::MAX - ed.text.len() {
        return ;
    }
    proof {
        lemma_changes_deleted_nonneg(changes@);
        assert(s.len() - crate::edits::deleted_len(changes@) + crate::edits::inserted_len(changes@)
            < usize::MAX);
    }
    let primary = if ed.selection.primary_index < changes.len() {
        ed.selection.primary_index
    } else {
        0
    };
    let ghost cs = changes@;
    crate::pastes::commit_replacements(ed, changes, primary);
    proof {
        if cs.len() == 1 {
            // one replacement: the new text is the old one with the
            // span swapped for the fragment
            let a = cs[0].from as int;
            let b = cs[0].to as int;
            assert(cs.drop_first() =~= Seq::<crate::edits::Change>::empty());
            assert(crate::edits::apply_from(s, cs.drop_first(), b) == s.skip(b));
            assert(crate::edits::apply_changes_spec(s, cs) == s.subrange(0, a) + cs[0].insert@
                + s.skip(b));
            assert(s.subrange(0, a) =~= s.take(a));
            assert(cs.take(0) =~= Seq::<crate::edits::Change>::empty());
            assert(crate::pastes::mapped_start(cs, 0) == a);
            assert(ed.selection.ranges@ =~= seq![
                TextRange { anchor: a as usize, head: (a + cs[0].insert@.len()) as usize },
            ]);
        }
    }
}

pub proof fn lemma_changes_deleted_nonneg(cs: Seq<crate::edits::Change>)
    requires
        forall|j: int| 0 <= j < cs.len() ==> (#[trigger] cs[j]).from <= cs[j].to,
    ensures
        crate::edits::deleted_len(cs) >= 0,
    decreases cs.len(),
{
    if cs.len() > 0 {
        assert(forall|j: int|
            0 <= j < cs.drop_first().len() ==> #[trigger] cs.drop_first()[j] == cs[j + 1]);
        lemma_changes_deleted_nonneg(cs.drop_first());
    }
}

/// Paste after the selection; in select mode the selection is replaced
/// with the yanked content instead.
pub fn vim_paste_after(ed: &mut Editor)
    requires
        old(ed).wf(),
    ensures
        final(ed).wf(),
        (old(ed).mode != Mode::Select && single_paste_fits(*old(ed), old(ed).register)) ==> final(ed).text@ == ({
            let frag = old(ed).registers.contents(
                crate::operator::yank_register_spec(*old(ed), old(ed).register),
            )->0[0];
            let st = (ModalSessionState { vim_paste: true, ..old(ed).state });
            let pos = paste_pos_spec(st, old(ed).text@, old(ed).selection.ranges@[0], true);
            old(ed).text@.take(pos) + frag + old(ed).text@.skip(pos)
        }),
        (old(ed).mode == Mode::Select && single_paste_fits(*old(ed), old(ed).register)) ==> final(ed).text@ == ({
            let frag = old(ed).registers.contents(
                crate::operator::yank_register_spec(*old(ed), old(ed).register),
            )->0[0];
            let r = old(ed).selection.ranges@[0];
            old(ed).text@.take(r.from_spec()) + frag + old(ed).text@.skip(r.to_spec())
        }),
{
    if matches!(ed.mode, Mode::Select) {
        let register = ed.register;
        replace_with_yanked(ed, register);
    } else {
        if !ed.state.is_vim_paste() {
            ed.state.set_vim_paste(true);
        }
        let register = ed.register;
        paste_impl(ed, true, register);
    }
}

/// Paste before the selection; in select mode the selection is
/// replaced with the yanked content instead.
pub fn vim_paste_before(ed: &mut Editor)
    requires
        old(ed).wf(),
    ensures
        final(ed).wf(),
        (old(ed).mode != Mode::Select && single_paste_fits(*old(ed), old(ed).register)) ==> final(ed).text@ == ({
            let frag = old(ed).registers.contents(
                crate::operator::yank_register_spec(*old(ed), old(ed).register),
            )->0[0];
            let pos = old(ed).selection.ranges@[0].from_spec();
            old(ed).text@.take(pos) + frag + old(ed).text@.skip(pos)
        }),
        (old(ed).mode == Mode::Select && single_paste_fits(*old(ed), old(ed).register)) ==> final(ed).text@ == ({
            let frag = old(ed).registers.contents(
                crate::operator::yank_register_spec(*old(ed), old(ed).register),
            )->0[0];
            let r = old(ed).selection.ranges@[0];
            old(ed).text@.take(r.from_spec()) + frag + old(ed).text@.skip(r.to_spec())
        }),
{
    if matches!(ed.mode, Mode::Select) {
        let register = ed.register;
        replace_with_yanked(ed, register);
    } else {
        let register = ed.register;
        paste_impl(ed, false, register);
    }
}

/// Paste the clipboard register after the selection; in select mode
/// the selection is replaced with it.
pub fn vim_paste_clipboard_after(ed: &mut Editor)
    requires
        old(ed).wf(),
    ensures
        final(ed).wf(),
        (old(ed).mode != Mode::Select && single_paste_fits(*old(ed), Some('+'))) ==> final(ed).text@ == ({
            let frag = old(ed).registers.contents('+')->0[0];
            let st = (ModalSessionState { vim_paste: true, ..old(ed).state });
            let pos = paste_pos_spec(st, old(ed).text@, old(ed).selection.ranges@[0], true);
            old(ed).text@.take(pos) + frag + old(ed).text@.skip(pos)
        }),
        (old(ed).mode == Mode::Select && single_paste_fits(*old(ed), Some('+'))) ==> final(ed).text@ == ({
            let frag = old(ed).registers.contents('+')->0[0];
            let r = old(ed).selection.ranges@[0];
            old(ed).text@.take(r.from_spec()) + frag + old(ed).text@.skip(r.to_spec())
        }),
{
    if matches!(ed.mode, Mode::Select) {
        replace_with_yanked(ed, Some('+'));
    } else {
        if !ed.state.is_vim_paste() {
            ed.state.set_vim_paste(true);
        }
        paste_impl(ed, true, Some('+'));
    }
}

/// Paste the clipboard register before the selection; in select mode
/// the selection is replaced with it.
pub fn vim_paste_clipboard_before(ed: &mut Editor)
    requires
        old(ed).wf(),
    ensures
        final(ed).wf(),
        (old(ed).mode != Mode::Select && single_paste_fits(*old(ed), Some('+'))) ==> final(ed).text@ == ({
            let frag = old(ed).registers.contents('+')->0[0];
            let pos = old(ed).selection.ranges@[0].from_spec();
            old(ed).text@.take(pos) + frag + old(ed).text@.skip(pos)
        }),
        (old(ed).mode == Mode::Select && single_paste_fits(*old(ed), Some('+'))) ==> final(ed).text@ == ({
            let frag = old(ed).registers.contents('+')->0[0];
            let r = old(ed).selection.ranges@[0];
            old(ed).text@.take(r.from_spec()) + frag + old(ed).text@.skip(r.to_spec())
        }),
{
    if matches!(ed.mode, Mode::Select) {
        replace_with_yanked(ed, Some('+'));
    } else {
        paste_impl(ed, false, Some('+'));
    }
}

/// Whether the saved visual selection cannot be restored: nothing was
/// saved, it belongs to another document, or it no longer fits the
/// buffer.
pub open spec fn restore_is_stale(ed: Editor) -> bool {
    match ed.state.gv_selection {
        None => true,
        Some(saved) => {
            ||| saved.doc_id != ed.doc_id
            ||| crate::selection::sum_range_lens(saved.selection.ranges@) > ed.text@.len()
            ||| saved.selection.ranges@.len() == 0
            ||| !crate::selection::all_in_bounds(saved.selection.ranges@, ed.text@.len() as int)
        },
    }
}

/// Restore the last visual selection, with its line/block-wise
/// character.  A selection saved on another document, or one that no
/// longer fits the buffer, restores nothing.
pub fn vim_restore_last_selection(ed: &mut Editor)
    requires
        old(ed).wf(),
    ensures
        final(ed).wf(),
        // the saved visual sub-mode flags are always reloaded
        final(ed).state == (ModalSessionState {
            visual_lines: old(ed).state.gv_visual_lines,
            visual_blocks: old(ed).state.gv_visual_blocks,
            ..old(ed).state
        }),
        // nothing saved, another document, or a selection that no
        // longer fits: a silent no-op but for the reloaded flags
        restore_is_stale(*old(ed)) ==> *final(ed) == (Editor {
            state: final(ed).state,
            ..*old(ed)
        }),
        // a matching, fitting selection is restored verbatim in select
        // mode
        !restore_is_stale(*old(ed)) ==> {
            &&& final(ed).mode == Mode::Select
            &&& *final(ed) == (Editor {
                mode: Mode::Select,
                state: final(ed).state,
                selection: final(ed).selection,
                ..*old(ed)
            })
            &&& (sorted_nonoverlapping(old(ed).state.gv_selection->0.selection.ranges@) && old(
                ed,
            ).state.gv_selection->0.selection.primary_index < old(
                ed,
            ).state.gv_selection->0.selection.ranges@.len()) ==> final(ed).selection.ranges@ == old(
                ed,
            ).state.gv_selection->0.selection.ranges@
        },
{
    let saved = ed.state.get_gv_selection();
    match saved {
        None => {},
        Some(saved) => {
            if saved.doc_id == ed.doc_id {
                let sel_len = saved.selection.total_len();
                let fits = match sel_len {
                    Some(n) => n <= ed.text.len(),
                    None => false,
                };
                if !fits {
                    return ;
                }
                if saved.selection.ranges.len() == 0 {
                    return ;
                }
                if !all_ranges_in_bounds(&saved.selection.ranges, ed.text.len()) {
                    return ;
                }
                ed.mode = Mode::Select;
                let sel = saved.selection.normalize(Ghost(ed.text@.len() as int));
                ed.selection = sel;
            }
        },
    }
}

/// Whether every range fits a text of `len` characters.
fn all_ranges_in_bounds(rs: &Vec<TextRange>, len: usize) -> (r: bool)
    ensures
        r == crate::selection::all_in_bounds(rs@, len as int),
{
    let mut i: usize = 0;
    while i < rs.len()
        invariant
            i <= rs@.len(),
            forall|j: int| 0 <= j < i ==> (#[trigger] rs@[j]).in_bounds(len as int),
        decreases rs.len() - i,
    {
        if rs[i].anchor > len || rs[i].head > len {
            return false;
        }
        i = i + 1;
    }
    true
}

/// First word character at or after `p`, before `end`.
pub open spec fn first_word_char_spec(s: Seq<char>, p: int, end: int) -> Option<int>
    decreases end - p,
{
    if p < 0 || p >= end || p >= s.len() {
        None
    } else if crate::motions::cat_spec(s[p], false) == crate::motions::CharCat::WordChar {
        Some(p)
    } else {
        first_word_char_spec(s, p + 1, end)
    }
}

/// The register the cursor-word search writes through.
pub open spec fn search_register_spec(ed: Editor) -> char {
    match ed.register {
        Some(r) => r,
        None => '/',
    }
}

/// The pattern the cursor-word search sets: the word enclosing the
/// position `k`.
pub open spec fn cursor_word_spec(s: Seq<char>, k: int) -> Seq<char> {
    let w = crate::motions::word_object_spec(s, k, false, false);
    s.subrange(w.0, w.1)
}

/// Search for the word at or after the cursor: the cursor jumps to the
/// first word character on its line, the enclosing word becomes the
/// search pattern (case-folded under smart-case), and the host jumps
/// to the next match.  Without a word character on the rest of the
/// line the command reports and changes nothing further.
pub fn cursor_search_impl(ed: &mut Editor, direction: Direction)
    requires
        old(ed).wf(),
    ensures
        final(ed).wf(),
        final(ed).state == old(ed).state,
        final(ed).text@ == old(ed).text@,
        final(ed).jumplist@ == old(ed).jumplist@,
        final(ed).pending == old(ed).pending,
        final(ed).history@ == old(ed).history@,
        ({
            let s = old(ed).text@;
            let c = old(ed).selection.ranges@[
                old(ed).selection.primary_index as int
            ].cursor_spec();
            first_word_char_spec(s, c, line_end(s, line_of(s, c)))
        }) is None ==> {
            &&& final(ed).status == Some(StatusMsg::NoStringUnderCursor)
            &&& final(ed).host_calls@ == old(ed).host_calls@
            &&& forall|r: char|
                final(ed).registers.contents(r) == old(ed).registers.contents(r)
        },
        ({
            let s = old(ed).text@;
            let c = old(ed).selection.ranges@[
                old(ed).selection.primary_index as int
            ].cursor_spec();
            first_word_char_spec(s, c, line_end(s, line_of(s, c)))
        }) matches Some(k) ==> ({
            let s = old(ed).text@;
            let frag = cursor_word_spec(s, k);
            let reg = search_register_spec(*old(ed));
            let base = match old(ed).registers.contents(reg) {
                Some(vs) => seq![frag] + vs,
                None => seq![frag],
            };
            &&& !old(ed).config.smart_case ==> {
                &&& final(ed).registers.contents(reg) == Some(base)
                &&& final(ed).host_calls@ == old(ed).host_calls@.push(
                    HostAction::SearchNext { forward: direction == Direction::Forward },
                )
                &&& final(ed).status == old(ed).status
            }
            &&& (old(ed).config.smart_case && frag.len() + 4 <= usize::MAX) ==> {
                &&& final(ed).registers.contents(reg) == Some(
                    seq![seq!['(', '?', 'i', ')'] + frag] + base,
                )
                &&& final(ed).host_calls@ == old(ed).host_calls@.push(
                    HostAction::SearchNext { forward: direction == Direction::Forward },
                )
                &&& final(ed).status == Some(StatusMsg::RegisterSet { register: reg })
            }
        }),
{
    if matches!(ed.mode, Mode::Select) {
        ed.mode = Mode::Normal;
    }
    let sel = crate::transforms::keep_primary_only(&ed.selection);
    ed.selection = sel;
    // jump to the first word character at or after the cursor, within
    // the line
    let c = ed.selection.primary_range_copy().cursor();
    let ghost s = ed.text@;
    proof {
        crate::text::lemma_line_of_bounds(s, c as int);
    }
    let line = crate::text::char_to_line(&ed.text, c);
    let le = crate::text::line_end_char_index(&ed.text, line);
    let mut pos: usize = c;
    let mut found = false;
    while pos < le && !found
        invariant
            ed.wf(),
            s == ed.text@,
            c <= pos,
            le <= s.len(),
            pos <= le || pos == c,
            first_word_char_spec(s, c as int, le as int) == first_word_char_spec(
                s,
                pos as int,
                le as int,
            ),
            found ==> pos < le && first_word_char_spec(s, pos as int, le as int) == Some(
                pos as int,
            ),
        decreases le - pos + (if found { 0int } else { 1int }),
    {
        let ch = ed.text[pos];
        if crate::motions::char_cat(ch, false) == crate::motions::CharCat::WordChar {
            found = true;
        } else {
            pos = pos + 1;
        }
    }
    if !found {
        proof {
            assert(first_word_char_spec(s, pos as int, le as int) is None);
        }
        ed.status = Some(StatusMsg::NoStringUnderCursor);
        return ;
    }
    // select the enclosing word and make it the pattern
    let w = crate::motions::word_object(&ed.text, pos, false, false);
    ed.selection = Selection::single(w);
    proof {
        assert(ed.selection.wf(s.len() as int));
    }
    let pattern = crate::text::extract(&ed.text, w.from(), w.to());
    let search_reg = match ed.register {
        Some(r) => r,
        None => '/',
    };
    ed.registers.push(search_reg, pattern);
    if ed.config.smart_case {
        // fold case by prefixing the case-insensitive regex marker
        let current = ed.registers.first(search_reg);
        match current {
            None => {
                return ;
            },
            Some(cur) => {
                if cur.len() > usize::MAX - 4 {
                    return ;
                }
                let mut folded: Vec<char> = Vec::new();
                folded.push('(');
                folded.push('?');
                folded.push('i');
                folded.push(')');
                proof {
                    assert(folded@ =~= seq!['(', '?', 'i', ')'] + cur@.take(0));
                }
                let mut k: usize = 0;
                while k < cur.len()
                    invariant
                        k <= cur@.len(),
                        folded@ == seq!['(', '?', 'i', ')'] + cur@.take(k as int),
                    decreases cur.len() - k,
                {
                    folded.push(cur[k]);
                    proof {
                        assert(seq!['(', '?', 'i', ')'] + cur@.take(k + 1int) =~= (seq![
                            '(',
                            '?',
                            'i',
                            ')',
                        ] + cur@.take(k as int)).push(cur@[k as int]));
                    }
                    k = k + 1;
                }
                proof {
                    assert(cur@.take(cur@.len() as int) =~= cur@);
                }
                ed.registers.push(search_reg, folded);
                ed.status = Some(StatusMsg::RegisterSet { register: search_reg });
            },
        }
    }
    let forward = matches!(direction, Direction::Forward);
    ed.push_host_call(HostAction::SearchNext { forward });
}

/// Cursor-word search forward, with the jumplist pushed and the match
/// highlight kept over the next normalization pass.
pub fn vim_cursor_forward_search(ed: &mut Editor)
    requires
        old(ed).wf(),
    ensures
        final(ed).wf(),
        // the jumplist remembers the pre-search position, and the
        // highlight survives the next normalization pass
        final(ed).state == (ModalSessionState { highlight: true, ..old(ed).state }),
        final(ed).jumplist@.len() == old(ed).jumplist@.len() + 1,
        final(ed).jumplist@.last().selection.ranges@ == old(ed).selection.ranges@,
        final(ed).jumplist@.last().doc_id == old(ed).doc_id,
        final(ed).text@ == old(ed).text@,
{
    vim_save_to_jumplist(ed);
    ed.state.allow_highlight();
    cursor_search_impl(ed, Direction::Forward);
}

/// Cursor-word search backward; see [`vim_cursor_forward_search`].
pub fn vim_cursor_backward_search(ed: &mut Editor)
    requires
        old(ed).wf(),
    ensures
        final(ed).wf(),
        // the jumplist remembers the pre-search position, and the
        // highlight survives the next normalization pass
        final(ed).state == (ModalSessionState { highlight: true, ..old(ed).state }),
        final(ed).jumplist@.len() == old(ed).jumplist@.len() + 1,
        final(ed).jumplist@.last().selection.ranges@ == old(ed).selection.ranges@,
        final(ed).jumplist@.last().doc_id == old(ed).doc_id,
        final(ed).text@ == old(ed).text@,
{
    vim_save_to_jumplist(ed);
    ed.state.allow_highlight();
    cursor_search_impl(ed, Direction::Backward);
}

/// Flip the modal layer and ask the host to reload configuration.
pub fn vim_toggle(ed: &mut Editor)
    requires
        old(ed).wf(),
    ensures
        final(ed).wf(),
        final(ed).state == (ModalSessionState {
            vim_mode: !old(ed).state.vim_mode,
            cmd_hook_enabled: !old(ed).state.vim_mode,
            ..old(ed).state
        }),
        final(ed).host_calls@ == old(ed).host_calls@.push(HostAction::ConfigRefresh),
        *final(ed) == (Editor {
            state: final(ed).state,
            host_calls: final(ed).host_calls,
            ..*old(ed)
        }),
{
    let on = ed.state.is_vim_mode();
    ed.state.set_vim_mode(!on);
    ed.push_host_call(HostAction::ConfigRefresh);
}

} // verus!

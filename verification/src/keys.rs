//! The pending-key state machine.
//!
//! Multi-key commands never block: the first key stores a tagged
//! continuation in the session, and the next keypress is fed to
//! [`handle_pending_key`], which consumes the continuation exactly
//! once.  An unrecognized key silently cancels the pending command —
//! no commit, no message.

use vstd::prelude::*;
use crate::editor::{Editor, KeyEvent, Mode};
use crate::operator::{pending_wf, PendingInput, TextObjectKind, VimOp, VimOpCtx};
use crate::range::{Direction, Movement, TextRange};
use crate::selection::{sorted_nonoverlapping, Selection};

verus! {

/// Whether `ch` is an ASCII letter or digit.
pub fn is_ascii_alphanumeric_char(ch: char) -> (r: bool)
    ensures
        r == is_ascii_alnum_spec(ch),
{
    ('a' <= ch && ch <= 'z') || ('A' <= ch && ch <= 'Z') || ('0' <= ch && ch <= '9')
}

pub open spec fn is_ascii_alnum_spec(ch: char) -> bool {
    ('a' <= ch && ch <= 'z') || ('A' <= ch && ch <= 'Z') || ('0' <= ch && ch <= '9')
}

/// Where a find/till motion puts the cursor, if the character occurs.
pub open spec fn find_char_target_spec(
    s: Seq<char>,
    r: TextRange,
    ch: char,
    direction: Direction,
    inclusive: bool,
    count: int,
) -> Option<int> {
    let c = r.cursor_spec();
    match direction {
        Direction::Forward => match crate::findchar::find_nth_forward_spec(s, c + 1, ch, count) {
            Some(p) => Some(
                if inclusive {
                    p
                } else {
                    p - 1
                },
            ),
            None => None,
        },
        Direction::Backward => match crate::findchar::find_nth_backward_spec(s, c, ch, count) {
            Some(p) => Some(
                if inclusive {
                    p
                } else {
                    p + 1
                },
            ),
            None => None,
        },
    }
}

/// What a find/till key does to every range of a selection.
pub open spec fn find_char_ranges(
    s: Seq<char>,
    rs: Seq<TextRange>,
    ch: char,
    direction: Direction,
    inclusive: bool,
    extend: bool,
    count: int,
) -> Seq<TextRange> {
    Seq::new(
        rs.len(),
        |i: int|
            match find_char_target_spec(s, rs[i], ch, direction, inclusive, count) {
                Some(t) => rs[i].put_cursor_spec(
                    s,
                    t,
                    if extend {
                        Movement::Extend
                    } else {
                        Movement::Move
                    },
                ),
                None => rs[i],
            },
    )
}

/// The literal character a key stands for in the find/till resolution:
/// Enter stands for the line ending, Tab for the tab character.
pub open spec fn find_key_char_spec(key: KeyEvent) -> Option<char> {
    match key {
        KeyEvent::Enter => Some('\n'),
        KeyEvent::Tab => Some('\t'),
        KeyEvent::Char(c) => Some(c),
        KeyEvent::Other => None,
    }
}

/// Apply a find/till motion to one range; the range is unchanged when
/// the character does not occur on the searched side.
pub fn find_char_range(
    text: &Vec<char>,
    r: &TextRange,
    ch: char,
    direction: Direction,
    inclusive: bool,
    extend: bool,
    count: usize,
) -> (out: TextRange)
    requires
        r.in_bounds(text@.len() as int),
        text@.len() < usize::MAX,
    ensures
        out.in_bounds(text@.len() as int),
        match find_char_target_spec(text@, *r, ch, direction, inclusive, count as int) {
            Some(t) => out == r.put_cursor_spec(
                text@,
                t,
                if extend {
                    Movement::Extend
                } else {
                    Movement::Move
                },
            ),
            None => out == *r,
        },
{
    let ghost s = text@;
    let c = r.cursor();
    let movement = if extend {
        Movement::Extend
    } else {
        Movement::Move
    };
    match direction {
        Direction::Forward => {
            if c >= text.len() {
                proof {
                    assert(crate::findchar::find_nth_forward_spec(s, c + 1int, ch, count as int)
                        is None);
                }
                return *r;
            }
            match crate::findchar::find_nth_forward(text, c + 1, ch, count) {
                Some(p) => {
                    proof {
                        crate::findchar::lemma_find_forward_in_bounds(s, c + 1int, ch, count as int);
                    }
                    let t = if inclusive {
                        p
                    } else {
                        p - 1
                    };
                    r.put_cursor(text, t, movement)
                },
                None => *r,
            }
        },
        Direction::Backward => {
            match crate::findchar::find_nth_backward(text, c, ch, count) {
                Some(p) => {
                    proof {
                        crate::findchar::lemma_find_backward_in_bounds(s, c as int, ch, count as int);
                    }
                    let t = if inclusive {
                        p
                    } else {
                        p + 1
                    };
                    r.put_cursor(text, t, movement)
                },
                None => *r,
            }
        },
    }
}

/// Resolve one text-object key for one range.  Syntax-tree and diff
/// based objects need the host's resolvers, which this model does not
/// hold, so they leave the range unchanged, as the host does without a
/// syntax tree.  The second result is false when the key names no
/// object at all.
pub fn textobject_range(
    text: &Vec<char>,
    r: &TextRange,
    ch: char,
    kind: TextObjectKind,
    count: usize,
) -> (out: (TextRange, bool))
    requires
        r.in_bounds(text@.len() as int),
        text@.len() < usize::MAX,
        count >= 1,
    ensures
        out.0.in_bounds(text@.len() as int),
        ch == 'w' ==> out == ({
                let w = crate::motions::word_object_spec(
                    text@,
                    r.cursor_spec(),
                    kind == TextObjectKind::Around,
                    false,
                );
                (TextRange { anchor: w.0 as usize, head: w.1 as usize }, true)
            }),
        ch == 'W' ==> out == ({
                let w = crate::motions::word_object_spec(
                    text@,
                    r.cursor_spec(),
                    kind == TextObjectKind::Around,
                    true,
                );
                (TextRange { anchor: w.0 as usize, head: w.1 as usize }, true)
            }),
        ch == 'p' ==> out == ({
                let lines = crate::paragraph::paragraph_object_lines_spec(
                    text@,
                    crate::text::line_of(text@, r.cursor_spec()),
                    kind == TextObjectKind::Around,
                );
                (
                    TextRange {
                        anchor: crate::text::line_start(text@, lines.0) as usize,
                        head: crate::text::line_start(text@, lines.1) as usize,
                    },
                    true,
                )
            }),
        (ch == 't' || ch == 'f' || ch == 'a' || ch == 'c' || ch == 'T' || ch == 'e' || ch == 'g')
            ==> out == (*r, true),
        (ch != 'w' && ch != 'W' && ch != 'p' && ch != 't' && ch != 'f' && ch != 'a' && ch != 'c'
            && ch != 'T' && ch != 'e' && ch != 'g' && ch != 'm' && is_ascii_alnum_spec(ch)) ==> out
            == (*r, false),
        out.1 == (ch == 'w' || ch == 'W' || ch == 'p' || ch == 't' || ch == 'f' || ch == 'a' || ch
            == 'c' || ch == 'T' || ch == 'e' || ch == 'g' || ch == 'm' || !is_ascii_alnum_spec(ch)),
{
    let around = matches!(kind, TextObjectKind::Around);
    if ch == 'w' {
        let w = crate::motions::word_object(text, r.cursor(), around, false);
        (w, true)
    } else if ch == 'W' {
        let w = crate::motions::word_object(text, r.cursor(), around, true);
        (w, true)
    } else if ch == 'p' {
        let w = crate::paragraph::paragraph_object(text, r, around);
        (w, true)
    } else if ch == 't' || ch == 'f' || ch == 'a' || ch == 'c' || ch == 'T' || ch == 'e' || ch
        == 'g' {
        // host-resolved objects: unchanged without a syntax tree or diff
        (*r, true)
    } else if ch == 'm' {
        let w = crate::surround::closest_surround_object(text, r, kind, count);
        (w, true)
    } else if !is_ascii_alphanumeric_char(ch) {
        let w = crate::surround::surround_object(text, r, ch, kind, count);
        (w, true)
    } else {
        (*r, false)
    }
}

/// The word objects a text-object key selects, one per range.
pub open spec fn word_object_ranges(
    s: Seq<char>,
    rs: Seq<TextRange>,
    around: bool,
    long: bool,
) -> Seq<TextRange> {
    Seq::new(
        rs.len(),
        |i: int|
            {
                let w = crate::motions::word_object_spec(s, rs[i].cursor_spec(), around, long);
                TextRange { anchor: w.0 as usize, head: w.1 as usize }
            },
    )
}

/// The paragraph objects a text-object key selects, one per range.
pub open spec fn paragraph_object_ranges(s: Seq<char>, rs: Seq<TextRange>, around: bool) -> Seq<
    TextRange,
> {
    Seq::new(
        rs.len(),
        |i: int|
            {
                let lines = crate::paragraph::paragraph_object_lines_spec(
                    s,
                    crate::text::line_of(s, rs[i].cursor_spec()),
                    around,
                );
                TextRange {
                    anchor: crate::text::line_start(s, lines.0) as usize,
                    head: crate::text::line_start(s, lines.1) as usize,
                }
            },
    )
}

/// Whether a text-object key names an object at all.
pub open spec fn textobject_key_valid_spec(ch: char) -> bool {
    ch == 'w' || ch == 'W' || ch == 'p' || ch == 't' || ch == 'f' || ch == 'a' || ch == 'c' || ch
        == 'T' || ch == 'e' || ch == 'g' || ch == 'm' || !is_ascii_alnum_spec(ch)
}

/// The keys whose objects only the host can resolve; without its
/// syntax tree or diff they leave every range unchanged.
pub open spec fn host_object_key_spec(ch: char) -> bool {
    ch == 't' || ch == 'f' || ch == 'a' || ch == 'c' || ch == 'T' || ch == 'e' || ch == 'g'
}

/// What a text-object commit leaves behind: the register holds the
/// object ranges' fragments, delete and change remove them, and change
/// enters insertion mode.
pub open spec fn textobject_commit_spec(
    pre: Editor,
    post: Editor,
    op: VimOpCtx,
    objects: Seq<TextRange>,
) -> bool {
    &&& post.registers.contents(crate::operator::yank_register_spec(pre, op.register)) == Some(
        crate::operator::fragments_spec(pre.text@, objects),
    )
    &&& (op.op == VimOp::Delete || op.op == VimOp::Change) ==> post.text@
        == crate::operator::delete_ranges_spec(pre.text@, objects)
    &&& op.op == VimOp::Yank ==> post.text@ == pre.text@
    &&& post.mode == (if op.op == VimOp::Change {
        Mode::Insert
    } else {
        pre.mode
    })
}

/// Feed one keypress to the armed continuation, consuming it.
pub fn handle_pending_key(ed: &mut Editor, key: KeyEvent)
    requires
        old(ed).wf(),
        pending_wf(old(ed).pending),
    ensures
        final(ed).wf(),
        pending_wf(final(ed).pending),
        old(ed).pending is Idle ==> *final(ed) == *old(ed),
        // an armed operator resolves per the dispatch table: the
        // doubled letter commits over whole lines, i/a and t/f/T/F arm
        // the sub-resolutions, a motion letter commits at once, and
        // anything else cancels
        old(ed).pending matches PendingInput::OperatorTarget { ctx } ==> {
            &&& !(key is Char) ==> *final(ed) == (Editor {
                autoinfo: None,
                pending: PendingInput::Idle,
                ..*old(ed)
            })
            &&& (key == KeyEvent::Char('d') || key == KeyEvent::Char('y') || key
                == KeyEvent::Char('c')) ==> final(ed).mode == (
            if ctx.op == VimOp::Change {
                Mode::Insert
            } else {
                old(ed).mode
            }) && final(ed).pending is Idle
            &&& ((key == KeyEvent::Char('d') || key == KeyEvent::Char('y') || key
                == KeyEvent::Char('c')) && sorted_nonoverlapping(
                crate::operator::full_line_ranges(
                    old(ed).selection.ranges@,
                    old(ed).text@,
                    ctx.count_spec(),
                    true,
                ),
            )) ==> final(ed).registers.contents(
                crate::operator::yank_register_spec(*old(ed), ctx.register),
            ) == Some(
                crate::operator::fragments_spec(
                    old(ed).text@,
                    crate::operator::full_line_ranges(
                        old(ed).selection.ranges@,
                        old(ed).text@,
                        ctx.count_spec(),
                        true,
                    ),
                ),
            )
            &&& ((key == KeyEvent::Char('d') || key == KeyEvent::Char('y') || key
                == KeyEvent::Char('c')) && ctx.op == VimOp::Delete && sorted_nonoverlapping(
                crate::operator::full_line_ranges(
                    old(ed).selection.ranges@,
                    old(ed).text@,
                    ctx.count_spec(),
                    true,
                ),
            )) ==> final(ed).text@ == crate::operator::delete_ranges_spec(
                old(ed).text@,
                crate::operator::full_line_ranges(
                    old(ed).selection.ranges@,
                    old(ed).text@,
                    ctx.count_spec(),
                    true,
                ),
            )
            &&& ((key == KeyEvent::Char('d') || key == KeyEvent::Char('y') || key
                == KeyEvent::Char('c')) && ctx.op == VimOp::Change && sorted_nonoverlapping(
                crate::operator::full_line_ranges(
                    old(ed).selection.ranges@,
                    old(ed).text@,
                    ctx.count_spec(),
                    false,
                ),
            )) ==> final(ed).text@ == crate::operator::delete_ranges_spec(
                old(ed).text@,
                crate::operator::full_line_ranges(
                    old(ed).selection.ranges@,
                    old(ed).text@,
                    ctx.count_spec(),
                    false,
                ),
            )
            &&& key == KeyEvent::Char('i') ==> (final(ed).pending
                matches PendingInput::TextObjectKey { ctx: c, kind: TextObjectKind::Inside, .. }
                && c == Some(ctx))
            &&& key == KeyEvent::Char('a') ==> (final(ed).pending
                matches PendingInput::TextObjectKey { ctx: c, kind: TextObjectKind::Around, .. }
                && c == Some(ctx))
            &&& key == KeyEvent::Char('t') ==> (final(ed).pending matches PendingInput::FindChar {
                ctx: c,
                direction: Direction::Forward,
                inclusive: false,
                extend: true,
                ..
            } && c == Some(ctx))
            &&& key == KeyEvent::Char('f') ==> (final(ed).pending matches PendingInput::FindChar {
                ctx: c,
                direction: Direction::Forward,
                inclusive: true,
                extend: true,
                ..
            } && c == Some(ctx))
            &&& key == KeyEvent::Char('T') ==> (final(ed).pending matches PendingInput::FindChar {
                ctx: c,
                direction: Direction::Backward,
                inclusive: false,
                extend: true,
                ..
            } && c == Some(ctx))
            &&& key == KeyEvent::Char('F') ==> (final(ed).pending matches PendingInput::FindChar {
                ctx: c,
                direction: Direction::Backward,
                inclusive: true,
                extend: true,
                ..
            } && c == Some(ctx))
            &&& forall|ch: char|
                (key == KeyEvent::Char(ch) && ch != 'd' && ch != 'y' && ch != 'c' && ch != 'i'
                    && ch != 'a' && ch != 't' && ch != 'f' && ch != 'T' && ch != 'F') ==> ((
                #[trigger] crate::operator::instant_command_spec(ch)) matches Some(m)
                    ==> (sorted_nonoverlapping(
                    crate::operator::instant_motion_ranges(
                        old(ed).text@,
                        old(ed).selection.ranges@,
                        m,
                        ctx.count_spec(),
                    ),
                ) ==> ({
                    let mapped = crate::operator::instant_motion_ranges(
                        old(ed).text@,
                        old(ed).selection.ranges@,
                        m,
                        ctx.count_spec(),
                    );
                    &&& final(ed).registers.contents(
                        crate::operator::yank_register_spec(*old(ed), ctx.register),
                    ) == Some(crate::operator::fragments_spec(old(ed).text@, mapped))
                    &&& (ctx.op == VimOp::Delete || ctx.op == VimOp::Change) ==> final(ed).text@
                        == crate::operator::delete_ranges_spec(old(ed).text@, mapped)
                    &&& ctx.op == VimOp::Yank ==> final(ed).text@ == old(ed).text@
                })))
            &&& forall|ch: char|
                (key == KeyEvent::Char(ch) && ch != 'd' && ch != 'y' && ch != 'c' && ch != 'i'
                    && ch != 'a' && ch != 't' && ch != 'f' && ch != 'T' && ch != 'F') ==> ((
                #[trigger] crate::operator::instant_command_spec(ch)) is None ==> *final(ed) == (
                Editor { autoinfo: None, pending: PendingInput::Idle, ..*old(ed) }))
        },
        // an armed text object resolves per handle_textobject_key
        old(ed).pending matches PendingInput::TextObjectKey { ctx, kind, count } ==> {
            &&& !(key is Char) ==> *final(ed) == (Editor {
                autoinfo: None,
                pending: PendingInput::Idle,
                ..*old(ed)
            })
            &&& forall|ch: char|
                key == KeyEvent::Char(ch) && !(#[trigger] textobject_key_valid_spec(ch)) ==> *final(ed) == (Editor { autoinfo: None, pending: PendingInput::Idle, ..*old(ed) })
            &&& (key is Char && ctx is None) ==> *final(ed) == (Editor {
                autoinfo: None,
                pending: PendingInput::Idle,
                ..*old(ed)
            })
            &&& (key == KeyEvent::Char('w') && ctx is Some && sorted_nonoverlapping(
                word_object_ranges(
                    old(ed).text@,
                    old(ed).selection.ranges@,
                    kind == TextObjectKind::Around,
                    false,
                ),
            )) ==> textobject_commit_spec(
                *old(ed),
                *final(ed),
                ctx->0,
                word_object_ranges(
                    old(ed).text@,
                    old(ed).selection.ranges@,
                    kind == TextObjectKind::Around,
                    false,
                ),
            )
            &&& (key == KeyEvent::Char('W') && ctx is Some && sorted_nonoverlapping(
                word_object_ranges(
                    old(ed).text@,
                    old(ed).selection.ranges@,
                    kind == TextObjectKind::Around,
                    true,
                ),
            )) ==> textobject_commit_spec(
                *old(ed),
                *final(ed),
                ctx->0,
                word_object_ranges(
                    old(ed).text@,
                    old(ed).selection.ranges@,
                    kind == TextObjectKind::Around,
                    true,
                ),
            )
            &&& (key == KeyEvent::Char('p') && ctx is Some && sorted_nonoverlapping(
                paragraph_object_ranges(
                    old(ed).text@,
                    old(ed).selection.ranges@,
                    kind == TextObjectKind::Around,
                ),
            )) ==> textobject_commit_spec(
                *old(ed),
                *final(ed),
                ctx->0,
                paragraph_object_ranges(
                    old(ed).text@,
                    old(ed).selection.ranges@,
                    kind == TextObjectKind::Around,
                ),
            )
            &&& forall|ch: char|
                (key == KeyEvent::Char(ch) && #[trigger] host_object_key_spec(ch) && ctx is Some)
                    ==> textobject_commit_spec(
                    *old(ed),
                    *final(ed),
                    ctx->0,
                    old(ed).selection.ranges@,
                )
        },
        // an armed find/till resolves per handle_find_char_key
        old(ed).pending matches PendingInput::FindChar {
            ctx,
            direction,
            inclusive,
            extend,
            count,
        } ==> {
            &&& key is Other ==> *final(ed) == (Editor {
                pending: PendingInput::Idle,
                ..*old(ed)
            })
            &&& forall|ch: char|
                (key == KeyEvent::Char(ch) || (key is Tab && ch == '\t')) && ctx is Some
                    && sorted_nonoverlapping(
                    #[trigger] find_char_ranges(
                        old(ed).text@,
                        old(ed).selection.ranges@,
                        ch,
                        direction,
                        inclusive,
                        extend,
                        count as int,
                    ),
                ) ==> ({
                    let moved = find_char_ranges(
                        old(ed).text@,
                        old(ed).selection.ranges@,
                        ch,
                        direction,
                        inclusive,
                        extend,
                        count as int,
                    );
                    let op = ctx->0;
                    &&& final(ed).registers.contents(
                        crate::operator::yank_register_spec(*old(ed), op.register),
                    ) == Some(crate::operator::fragments_spec(old(ed).text@, moved))
                    &&& (op.op == VimOp::Delete || op.op == VimOp::Change) ==> final(ed).text@
                        == crate::operator::delete_ranges_spec(old(ed).text@, moved)
                    &&& op.op == VimOp::Yank ==> final(ed).text@ == old(ed).text@
                    &&& final(ed).mode == (if op.op == VimOp::Change {
                        Mode::Insert
                    } else {
                        old(ed).mode
                    })
                })
            &&& forall|ch: char|
                (key == KeyEvent::Char(ch) || (key is Tab && ch == '\t')) && ctx is None && old(ed).mode != Mode::Normal && sorted_nonoverlapping(
                    #[trigger] find_char_ranges(
                        old(ed).text@,
                        old(ed).selection.ranges@,
                        ch,
                        direction,
                        inclusive,
                        extend,
                        count as int,
                    ),
                ) ==> final(ed).selection.ranges@ == find_char_ranges(
                    old(ed).text@,
                    old(ed).selection.ranges@,
                    ch,
                    direction,
                    inclusive,
                    extend,
                    count as int,
                )
            &&& forall|ch: char|
                (key == KeyEvent::Char(ch) || (key is Tab && ch == '\t')) && ctx is None && old(ed).mode == Mode::Normal && sorted_nonoverlapping(
                    #[trigger] find_char_ranges(
                        old(ed).text@,
                        old(ed).selection.ranges@,
                        ch,
                        direction,
                        inclusive,
                        extend,
                        count as int,
                    ),
                ) ==> ({
                    let moved = find_char_ranges(
                        old(ed).text@,
                        old(ed).selection.ranges@,
                        ch,
                        direction,
                        inclusive,
                        extend,
                        count as int,
                    );
                    &&& final(ed).selection.ranges@.len() == moved.len()
                    &&& forall|i: int|
                        0 <= i < moved.len() ==> (#[trigger] final(ed).selection.ranges@[i]) == (
                        TextRange {
                            anchor: moved[i].cursor_spec() as usize,
                            head: moved[i].cursor_spec() as usize,
                        })
                })
            &&& (key is Enter && sorted_nonoverlapping(
                find_char_ranges(
                    old(ed).text@,
                    old(ed).selection.ranges@,
                    '\n',
                    direction,
                    inclusive,
                    extend,
                    count as int,
                ),
            )) ==> final(ed).selection.ranges@ == find_char_ranges(
                old(ed).text@,
                old(ed).selection.ranges@,
                '\n',
                direction,
                inclusive,
                extend,
                count as int,
            )
        },
{
    let pending = ed.pending;
    ed.pending = PendingInput::Idle;
    match pending {
        PendingInput::Idle => {
            ed.pending = PendingInput::Idle;
        },
        PendingInput::OperatorTarget { ctx } => {
            handle_operator_target_key(ed, ctx, key);
        },
        PendingInput::TextObjectKey { ctx, kind, count } => {
            handle_textobject_key(ed, ctx, kind, count, key);
        },
        PendingInput::FindChar { ctx, direction, inclusive, extend, count } => {
            handle_find_char_key(ed, ctx, direction, inclusive, extend, count, key);
        },
    }
}

/// Resolve the key after an operator: the operator letter doubled
/// applies to whole lines, `i`/`a` begin a text object, `t`/`f`/`T`/`F`
/// begin a find/till, a known motion letter applies at once, and any
/// other key silently cancels.
pub fn handle_operator_target_key(ed: &mut Editor, ctx: VimOpCtx, key: KeyEvent)
    requires
        old(ed).wf(),
        old(ed).pending is Idle,
        ctx.wf(),
    ensures
        final(ed).wf(),
        pending_wf(final(ed).pending),
        !(key is Char) ==> *final(ed) == (Editor {
            autoinfo: None,
            pending: final(ed).pending,
            ..*old(ed)
        }) && final(ed).pending is Idle,
        (key == KeyEvent::Char('d') || key == KeyEvent::Char('y') || key == KeyEvent::Char('c'))
            ==> final(ed).mode == (if ctx.op == crate::operator::VimOp::Change {
            Mode::Insert
        } else {
            old(ed).mode
        }) && final(ed).pending is Idle,
        // the doubled letter commits over whole lines
        ((key == KeyEvent::Char('d') || key == KeyEvent::Char('y') || key == KeyEvent::Char('c'))
            && sorted_nonoverlapping(
            crate::operator::full_line_ranges(
                old(ed).selection.ranges@,
                old(ed).text@,
                ctx.count_spec(),
                true,
            ),
        )) ==> final(ed).registers.contents(
            crate::operator::yank_register_spec(*old(ed), ctx.register),
        ) == Some(
            crate::operator::fragments_spec(
                old(ed).text@,
                crate::operator::full_line_ranges(
                    old(ed).selection.ranges@,
                    old(ed).text@,
                    ctx.count_spec(),
                    true,
                ),
            ),
        ),
        ((key == KeyEvent::Char('d') || key == KeyEvent::Char('y') || key == KeyEvent::Char('c'))
            && ctx.op == VimOp::Yank) ==> final(ed).text@ == old(ed).text@,
        ((key == KeyEvent::Char('d') || key == KeyEvent::Char('y') || key == KeyEvent::Char('c'))
            && ctx.op == VimOp::Delete && sorted_nonoverlapping(
            crate::operator::full_line_ranges(
                old(ed).selection.ranges@,
                old(ed).text@,
                ctx.count_spec(),
                true,
            ),
        )) ==> final(ed).text@ == crate::operator::delete_ranges_spec(
            old(ed).text@,
            crate::operator::full_line_ranges(
                old(ed).selection.ranges@,
                old(ed).text@,
                ctx.count_spec(),
                true,
            ),
        ),
        ((key == KeyEvent::Char('d') || key == KeyEvent::Char('y') || key == KeyEvent::Char('c'))
            && ctx.op == VimOp::Change && sorted_nonoverlapping(
            crate::operator::full_line_ranges(
                old(ed).selection.ranges@,
                old(ed).text@,
                ctx.count_spec(),
                false,
            ),
        )) ==> final(ed).text@ == crate::operator::delete_ranges_spec(
            old(ed).text@,
            crate::operator::full_line_ranges(
                old(ed).selection.ranges@,
                old(ed).text@,
                ctx.count_spec(),
                false,
            ),
        ),
        key == KeyEvent::Char('i') ==> (final(ed).pending matches PendingInput::TextObjectKey {
            ctx: c,
            kind: TextObjectKind::Inside,
            ..
        } && c == Some(ctx)),
        key == KeyEvent::Char('a') ==> (final(ed).pending matches PendingInput::TextObjectKey {
            ctx: c,
            kind: TextObjectKind::Around,
            ..
        } && c == Some(ctx)),
        key == KeyEvent::Char('t') ==> (final(ed).pending matches PendingInput::FindChar {
            ctx: c,
            direction: Direction::Forward,
            inclusive: false,
            extend: true,
            ..
        } && c == Some(ctx)),
        key == KeyEvent::Char('f') ==> (final(ed).pending matches PendingInput::FindChar {
            ctx: c,
            direction: Direction::Forward,
            inclusive: true,
            extend: true,
            ..
        } && c == Some(ctx)),
        key == KeyEvent::Char('T') ==> (final(ed).pending matches PendingInput::FindChar {
            ctx: c,
            direction: Direction::Backward,
            inclusive: false,
            extend: true,
            ..
        } && c == Some(ctx)),
        key == KeyEvent::Char('F') ==> (final(ed).pending matches PendingInput::FindChar {
            ctx: c,
            direction: Direction::Backward,
            inclusive: true,
            extend: true,
            ..
        } && c == Some(ctx)),
        (key matches KeyEvent::Char(ch) && ch != 'd' && ch != 'y' && ch != 'c' && ch != 'i' && ch
            != 'a' && ch != 't' && ch != 'f' && ch != 'T' && ch != 'F'
            && crate::operator::instant_command_spec(ch) is Some) ==> final(ed).mode == (
        if ctx.op == crate::operator::VimOp::Change {
            Mode::Insert
        } else {
            Mode::Normal
        }) && final(ed).pending is Idle,
        // an instant motion letter extends every range by the motion
        // and commits over the result
        forall|ch: char|
            (key == KeyEvent::Char(ch) && ch != 'd' && ch != 'y' && ch != 'c' && ch != 'i' && ch
                != 'a' && ch != 't' && ch != 'f' && ch != 'T' && ch != 'F') ==> ((
            #[trigger] crate::operator::instant_command_spec(ch)) matches Some(m)
                ==> (sorted_nonoverlapping(
                crate::operator::instant_motion_ranges(
                    old(ed).text@,
                    old(ed).selection.ranges@,
                    m,
                    ctx.count_spec(),
                ),
            ) ==> ({
                let mapped = crate::operator::instant_motion_ranges(
                    old(ed).text@,
                    old(ed).selection.ranges@,
                    m,
                    ctx.count_spec(),
                );
                &&& final(ed).registers.contents(
                    crate::operator::yank_register_spec(*old(ed), ctx.register),
                ) == Some(crate::operator::fragments_spec(old(ed).text@, mapped))
                &&& (ctx.op == VimOp::Delete || ctx.op == VimOp::Change) ==> final(ed).text@
                    == crate::operator::delete_ranges_spec(old(ed).text@, mapped)
                &&& ctx.op == VimOp::Yank ==> final(ed).text@ == old(ed).text@
            }))),
        (key matches KeyEvent::Char(ch) && ch != 'd' && ch != 'y' && ch != 'c' && ch != 'i' && ch
            != 'a' && ch != 't' && ch != 'f' && ch != 'T' && ch != 'F'
            && crate::operator::instant_command_spec(ch) is None) ==> *final(ed) == (Editor {
            autoinfo: None,
            ..*old(ed)
        }),
{
    ed.autoinfo = None;
    let ch = match key {
        KeyEvent::Char(c) => c,
        _ => {
            return ;
        },
    };
    if ch == 'd' || ch == 'y' || ch == 'c' {
        ctx.run_operator_lines(ed);
    } else if ch == 'i' {
        crate::operator::vim_modify_textobject(ed, Some(ctx), TextObjectKind::Inside);
    } else if ch == 'a' {
        crate::operator::vim_modify_textobject(ed, Some(ctx), TextObjectKind::Around);
    } else if ch == 't' {
        ctx.op_till_char(ed);
    } else if ch == 'f' {
        ctx.op_next_char(ed);
    } else if ch == 'T' {
        ctx.op_till_prev_char(ed);
    } else if ch == 'F' {
        ctx.op_prev_char(ed);
    } else {
        match crate::operator::char_to_instant_command(ch) {
            Some(m) => {
                ctx.run_ops_after_command(ed, m);
            },
            None => {},
        }
    }
}

/// Resolve the text-object key: transform every range, and commit the
/// pending operator over the result when the key named a valid object.
pub fn handle_textobject_key(
    ed: &mut Editor,
    ctx: Option<VimOpCtx>,
    kind: TextObjectKind,
    count: usize,
    key: KeyEvent,
)
    requires
        old(ed).wf(),
        old(ed).pending is Idle,
        count >= 1,
        match ctx {
            Some(c) => c.wf(),
            None => true,
        },
    ensures
        final(ed).wf(),
        pending_wf(final(ed).pending),
        !(key is Char) ==> *final(ed) == (Editor {
            autoinfo: None,
            pending: final(ed).pending,
            ..*old(ed)
        }) && final(ed).pending is Idle,
        // an unrecognized letter aborts the whole pending operator: no
        // commit, no message, only the help panel goes
        forall|ch: char|
            key == KeyEvent::Char(ch) && !textobject_key_valid_spec(ch) ==> *final(ed) == (Editor {
                autoinfo: None,
                ..*old(ed)
            }),
        // without a pending operator the transform is computed and
        // discarded
        (key is Char && ctx is None) ==> *final(ed) == (Editor { autoinfo: None, ..*old(ed) }),
        // word objects commit exactly
        (key == KeyEvent::Char('w') && ctx is Some && sorted_nonoverlapping(
            word_object_ranges(
                old(ed).text@,
                old(ed).selection.ranges@,
                kind == TextObjectKind::Around,
                false,
            ),
        )) ==> textobject_commit_spec(
            *old(ed),
            *final(ed),
            ctx->0,
            word_object_ranges(
                old(ed).text@,
                old(ed).selection.ranges@,
                kind == TextObjectKind::Around,
                false,
            ),
        ),
        (key == KeyEvent::Char('W') && ctx is Some && sorted_nonoverlapping(
            word_object_ranges(
                old(ed).text@,
                old(ed).selection.ranges@,
                kind == TextObjectKind::Around,
                true,
            ),
        )) ==> textobject_commit_spec(
            *old(ed),
            *final(ed),
            ctx->0,
            word_object_ranges(
                old(ed).text@,
                old(ed).selection.ranges@,
                kind == TextObjectKind::Around,
                true,
            ),
        ),
        // paragraph objects commit exactly
        (key == KeyEvent::Char('p') && ctx is Some && sorted_nonoverlapping(
            paragraph_object_ranges(
                old(ed).text@,
                old(ed).selection.ranges@,
                kind == TextObjectKind::Around,
            ),
        )) ==> textobject_commit_spec(
            *old(ed),
            *final(ed),
            ctx->0,
            paragraph_object_ranges(
                old(ed).text@,
                old(ed).selection.ranges@,
                kind == TextObjectKind::Around,
            ),
        ),
        // host-resolved objects fail over to the unchanged ranges, and
        // the commit applies to them as they are
        forall|ch: char|
            (key == KeyEvent::Char(ch) && #[trigger] host_object_key_spec(ch) && ctx is Some)
                ==> textobject_commit_spec(*old(ed), *final(ed), ctx->0, old(ed).selection.ranges@),
{
    ed.autoinfo = None;
    let ch = match key {
        KeyEvent::Char(c) => c,
        _ => {
            return ;
        },
    };
    let ghost s = ed.text@;
    let ghost rs0 = ed.selection.ranges@;
    let mut v: Vec<TextRange> = Vec::new();
    let mut valid = true;
    let mut i: usize = 0;
    while i < ed.selection.ranges.len()
        invariant
            ed.wf(),
            count >= 1,
            s == ed.text@,
            rs0 == ed.selection.ranges@,
            i <= ed.selection.ranges@.len(),
            v@.len() == i,
            crate::selection::all_in_bounds(v@, s.len() as int),
            i == 0 ==> valid,
            i > 0 ==> (valid == textobject_key_valid_spec(ch)),
            ch == 'w' ==> v@ =~= word_object_ranges(
                s,
                rs0,
                kind == TextObjectKind::Around,
                false,
            ).take(i as int),
            ch == 'W' ==> v@ =~= word_object_ranges(
                s,
                rs0,
                kind == TextObjectKind::Around,
                true,
            ).take(i as int),
            ch == 'p' ==> v@ =~= paragraph_object_ranges(
                s,
                rs0,
                kind == TextObjectKind::Around,
            ).take(i as int),
            host_object_key_spec(ch) ==> v@ =~= rs0.take(i as int),
        decreases ed.selection.ranges.len() - i,
    {
        let (r, ok) = textobject_range(&ed.text, &ed.selection.ranges[i], ch, kind, count);
        if !ok {
            valid = false;
        }
        v.push(r);
        proof {
            if ch == 'w' {
                let m = word_object_ranges(s, rs0, kind == TextObjectKind::Around, false);
                assert(m.take(i + 1int) =~= m.take(i as int).push(m[i as int]));
            }
            if ch == 'W' {
                let m = word_object_ranges(s, rs0, kind == TextObjectKind::Around, true);
                assert(m.take(i + 1int) =~= m.take(i as int).push(m[i as int]));
            }
            if ch == 'p' {
                let m = paragraph_object_ranges(s, rs0, kind == TextObjectKind::Around);
                assert(m.take(i + 1int) =~= m.take(i as int).push(m[i as int]));
            }
            if host_object_key_spec(ch) {
                assert(rs0.take(i + 1int) =~= rs0.take(i as int).push(rs0[i as int]));
            }
        }
        i = i + 1;
    }
    proof {
        if ch == 'w' {
            let m = word_object_ranges(s, rs0, kind == TextObjectKind::Around, false);
            assert(m.take(m.len() as int) =~= m);
        }
        if ch == 'W' {
            let m = word_object_ranges(s, rs0, kind == TextObjectKind::Around, true);
            assert(m.take(m.len() as int) =~= m);
        }
        if ch == 'p' {
            let m = paragraph_object_ranges(s, rs0, kind == TextObjectKind::Around);
            assert(m.take(m.len() as int) =~= m);
        }
        if host_object_key_spec(ch) {
            assert(rs0.take(rs0.len() as int) =~= rs0);
        }
    }
    match ctx {
        Some(opcx) => {
            if valid && v.len() > 0 {
                let sel = Selection {
                    ranges: v,
                    primary_index: ed.selection.primary_index,
                }.normalize(Ghost(s.len() as int));
                opcx.run_operator(ed, &sel, &sel);
            }
        },
        None => {},
    }
}

/// Resolve the find/till key: Enter stands for the line ending, Tab
/// for the tab character; the motion lands on or beside the `count`-th
/// occurrence, then the pending operator, if any, commits over the
/// result; a bare motion in normal mode collapses to a point.
pub fn handle_find_char_key(
    ed: &mut Editor,
    ctx: Option<VimOpCtx>,
    direction: Direction,
    inclusive: bool,
    extend: bool,
    count: usize,
    key: KeyEvent,
)
    requires
        old(ed).wf(),
        old(ed).pending is Idle,
        count >= 1,
        match ctx {
            Some(c) => c.wf(),
            None => true,
        },
    ensures
        final(ed).wf(),
        pending_wf(final(ed).pending),
        key is Other ==> *final(ed) == *old(ed),
        // Enter moves to the line ending but neither commits nor
        // collapses
        (key is Enter && sorted_nonoverlapping(
            find_char_ranges(
                old(ed).text@,
                old(ed).selection.ranges@,
                '\n',
                direction,
                inclusive,
                extend,
                count as int,
            ),
        )) ==> *final(ed) == (Editor { selection: final(ed).selection, ..*old(ed) }) && final(ed).selection.ranges@ == find_char_ranges(
            old(ed).text@,
            old(ed).selection.ranges@,
            '\n',
            direction,
            inclusive,
            extend,
            count as int,
        ),
        // a bare motion moves every range, and in normal mode collapses
        // each to its cursor
        forall|ch: char|
            (key == KeyEvent::Char(ch) || (key is Tab && ch == '\t')) && ctx is None
                && old(ed).mode != Mode::Normal && sorted_nonoverlapping(
                #[trigger] find_char_ranges(
                    old(ed).text@,
                    old(ed).selection.ranges@,
                    ch,
                    direction,
                    inclusive,
                    extend,
                    count as int,
                ),
            ) ==> *final(ed) == (Editor { selection: final(ed).selection, ..*old(ed) }) && final(ed).selection.ranges@ == find_char_ranges(
                old(ed).text@,
                old(ed).selection.ranges@,
                ch,
                direction,
                inclusive,
                extend,
                count as int,
            ),
        forall|ch: char|
            (key == KeyEvent::Char(ch) || (key is Tab && ch == '\t')) && ctx is None && old(ed).mode == Mode::Normal && sorted_nonoverlapping(
                #[trigger] find_char_ranges(
                    old(ed).text@,
                    old(ed).selection.ranges@,
                    ch,
                    direction,
                    inclusive,
                    extend,
                    count as int,
                ),
            ) ==> *final(ed) == (Editor { selection: final(ed).selection, ..*old(ed) }) && ({
                let moved = find_char_ranges(
                    old(ed).text@,
                    old(ed).selection.ranges@,
                    ch,
                    direction,
                    inclusive,
                    extend,
                    count as int,
                );
                &&& final(ed).selection.ranges@.len() == moved.len()
                &&& forall|i: int|
                    0 <= i < moved.len() ==> (#[trigger] final(ed).selection.ranges@[i]) == (
                    TextRange {
                        anchor: moved[i].cursor_spec() as usize,
                        head: moved[i].cursor_spec() as usize,
                    })
            }),
        // with an operator pending, the commit runs over the moved
        // selection
        forall|ch: char|
            (key == KeyEvent::Char(ch) || (key is Tab && ch == '\t')) && ctx is Some
                && sorted_nonoverlapping(
                #[trigger] find_char_ranges(
                    old(ed).text@,
                    old(ed).selection.ranges@,
                    ch,
                    direction,
                    inclusive,
                    extend,
                    count as int,
                ),
            ) ==> ({
                let moved = find_char_ranges(
                    old(ed).text@,
                    old(ed).selection.ranges@,
                    ch,
                    direction,
                    inclusive,
                    extend,
                    count as int,
                );
                let op = ctx->0;
                &&& final(ed).registers.contents(
                    crate::operator::yank_register_spec(*old(ed), op.register),
                ) == Some(crate::operator::fragments_spec(old(ed).text@, moved))
                &&& (op.op == VimOp::Delete || op.op == VimOp::Change) ==> final(ed).text@
                    == crate::operator::delete_ranges_spec(old(ed).text@, moved)
                &&& op.op == VimOp::Yank ==> final(ed).text@ == old(ed).text@
                &&& final(ed).mode == (if op.op == VimOp::Change {
                    Mode::Insert
                } else {
                    old(ed).mode
                })
            }),
{
    let (ch, commit) = match key {
        KeyEvent::Enter => ('\n', false),
        KeyEvent::Tab => ('\t', true),
        KeyEvent::Char(c) => (c, true),
        KeyEvent::Other => {
            return ;
        },
    };
    let ghost s = ed.text@;
    let ghost mapped = find_char_ranges(
        s,
        ed.selection.ranges@,
        ch,
        direction,
        inclusive,
        extend,
        count as int,
    );
    let mut v: Vec<TextRange> = Vec::new();
    let mut i: usize = 0;
    while i < ed.selection.ranges.len()
        invariant
            ed.wf(),
            s == ed.text@,
            count >= 1,
            mapped == find_char_ranges(
                s,
                ed.selection.ranges@,
                ch,
                direction,
                inclusive,
                extend,
                count as int,
            ),
            i <= ed.selection.ranges@.len(),
            v@ =~= mapped.take(i as int),
            crate::selection::all_in_bounds(v@, s.len() as int),
        decreases ed.selection.ranges.len() - i,
    {
        let r = find_char_range(
            &ed.text,
            &ed.selection.ranges[i],
            ch,
            direction,
            inclusive,
            extend,
            count,
        );
        v.push(r);
        proof {
            assert(mapped.take(i + 1int) =~= mapped.take(i as int).push(r));
        }
        i = i + 1;
    }
    proof {
        assert(mapped.take(mapped.len() as int) =~= mapped);
    }
    if v.len() > 0 {
        let sel = Selection { ranges: v, primary_index: ed.selection.primary_index }.normalize(
            Ghost(s.len() as int),
        );
        ed.selection = sel;
    }
    if !commit {
        return ;
    }
    match ctx {
        Some(opcx) => {
            opcx.run_operator_for_current_selection(ed);
        },
        None => {
            if matches!(ed.mode, Mode::Normal) {
                let collapsed = crate::transforms::collapse_selection_ranges(
                    &ed.selection,
                    &ed.text,
                );
                ed.selection = collapsed;
            }
        },
    }
}

} // verus!

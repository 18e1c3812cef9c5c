//! Paragraph motions.
//!
//! A paragraph boundary is a transition between a blank line and a
//! non-blank one.  One forward step skips the blank run under the
//! cursor, then the non-blank run, then one more blank line when one
//! follows; the step repeats up to `count` times, stopping early once
//! it no longer moves.  One character straddling a boundary is skipped
//! or kept depending on whether the cursor starts exactly at the edge.

use vstd::prelude::*;
use crate::range::{Movement, TextRange};
use crate::text::{line_blank, line_of, line_start, num_lines};

verus! {

/// First line at or after `l` that is not blank (or the line count).
pub open spec fn skip_blank_fwd(s: Seq<char>, l: int) -> int
    decreases num_lines(s) - l,
{
    if l >= num_lines(s) || !line_blank(s, l) {
        l
    } else {
        skip_blank_fwd(s, l + 1)
    }
}

/// First line at or after `l` that is blank (or the line count).
pub open spec fn skip_nonblank_fwd(s: Seq<char>, l: int) -> int
    decreases num_lines(s) - l,
{
    if l >= num_lines(s) || line_blank(s, l) {
        l
    } else {
        skip_nonblank_fwd(s, l + 1)
    }
}

/// One forward paragraph step from line `l`.
pub open spec fn para_step_fwd(s: Seq<char>, l: int) -> int {
    let a = skip_blank_fwd(s, l);
    let b = skip_nonblank_fwd(s, a);
    if b < num_lines(s) && line_blank(s, b) {
        b + 1
    } else {
        b
    }
}

/// Up to `n` forward steps, stopping early when a step does not move.
pub open spec fn para_fwd(s: Seq<char>, l: int, n: int) -> int
    decreases n,
{
    if n <= 0 {
        l
    } else {
        let l2 = para_step_fwd(s, l);
        if l2 == l {
            l
        } else {
            para_fwd(s, l2, n - 1)
        }
    }
}

/// Last line at or before `l` whose predecessor is not blank (or zero).
pub open spec fn skip_blank_back(s: Seq<char>, l: int) -> int
    decreases l,
{
    if l <= 0 || !line_blank(s, l - 1) {
        l
    } else {
        skip_blank_back(s, l - 1)
    }
}

/// Last line at or before `l` whose predecessor is blank (or zero).
pub open spec fn skip_nonblank_back(s: Seq<char>, l: int) -> int
    decreases l,
{
    if l <= 0 || line_blank(s, l - 1) {
        l
    } else {
        skip_nonblank_back(s, l - 1)
    }
}

/// One backward paragraph step from line `l`.
pub open spec fn para_step_back(s: Seq<char>, l: int) -> int {
    let a = skip_blank_back(s, l);
    let b = skip_nonblank_back(s, a);
    if b > 0 && line_blank(s, b - 1) {
        b - 1
    } else {
        b
    }
}

/// Up to `n` backward steps, stopping early when a step does not move.
pub open spec fn para_back(s: Seq<char>, l: int, n: int) -> int
    decreases n,
{
    if n <= 0 {
        l
    } else {
        let l2 = para_step_back(s, l);
        if l2 == l {
            l
        } else {
            para_back(s, l2, n - 1)
        }
    }
}

pub proof fn lemma_skip_fwd_bounds(s: Seq<char>, l: int)
    requires
        0 <= l <= num_lines(s),
    ensures
        l <= skip_blank_fwd(s, l) <= num_lines(s),
        l <= skip_nonblank_fwd(s, l) <= num_lines(s),
    decreases num_lines(s) - l,
{
    if l < num_lines(s) {
        lemma_skip_fwd_bounds(s, l + 1);
    }
}

pub proof fn lemma_para_fwd_bounds(s: Seq<char>, l: int, n: int)
    requires
        0 <= l <= num_lines(s),
    ensures
        l <= para_fwd(s, l, n) <= num_lines(s),
    decreases n,
{
    lemma_skip_fwd_bounds(s, l);
    if n > 0 {
        let a = skip_blank_fwd(s, l);
        lemma_skip_fwd_bounds(s, a);
        let l2 = para_step_fwd(s, l);
        if l2 != l {
            lemma_para_fwd_bounds(s, l2, n - 1);
        }
    }
}

pub proof fn lemma_skip_back_bounds(s: Seq<char>, l: int)
    requires
        0 <= l,
    ensures
        0 <= skip_blank_back(s, l) <= l,
        0 <= skip_nonblank_back(s, l) <= l,
    decreases l,
{
    if l > 0 {
        lemma_skip_back_bounds(s, l - 1);
    }
}

pub proof fn lemma_para_back_bounds(s: Seq<char>, l: int, n: int)
    requires
        0 <= l,
    ensures
        0 <= para_back(s, l, n) <= l,
    decreases n,
{
    lemma_skip_back_bounds(s, l);
    if n > 0 {
        let a = skip_blank_back(s, l);
        lemma_skip_back_bounds(s, a);
        let l2 = para_step_back(s, l);
        if l2 != l {
            lemma_para_back_bounds(s, l2, n - 1);
        }
    }
}

/// One forward step, executed.
fn para_step_fwd_line(text: &Vec<char>, l: usize) -> (r: usize)
    requires
        text@.len() < usize::MAX,
        l <= num_lines(text@),
    ensures
        r as int == para_step_fwd(text@, l as int),
        l <= r <= num_lines(text@),
{
    let nl = crate::text::len_lines(text);
    let mut a: usize = l;
    while a < nl && crate::text::is_line_blank(text, a)
        invariant
            l <= a <= nl,
            nl as int == num_lines(text@),
            skip_blank_fwd(text@, l as int) == skip_blank_fwd(text@, a as int),
        decreases nl - a,
    {
        a = a + 1;
    }
    let mut b: usize = a;
    while b < nl && !crate::text::is_line_blank(text, b)
        invariant
            a <= b <= nl,
            nl as int == num_lines(text@),
            skip_nonblank_fwd(text@, a as int) == skip_nonblank_fwd(text@, b as int),
        decreases nl - b,
    {
        b = b + 1;
    }
    if b < nl && crate::text::is_line_blank(text, b) {
        b + 1
    } else {
        b
    }
}

/// Up to `count` forward steps from line `l`.
pub fn para_fwd_line(text: &Vec<char>, l: usize, count: usize) -> (r: usize)
    requires
        text@.len() < usize::MAX,
        l <= num_lines(text@),
    ensures
        r as int == para_fwd(text@, l as int, count as int),
        l <= r <= num_lines(text@),
{
    let mut line: usize = l;
    let mut k: usize = 0;
    let mut done = false;
    proof {
        lemma_para_fwd_bounds(text@, l as int, count as int);
    }
    while k < count
        invariant
            text@.len() < usize::MAX,
            k <= count,
            l <= line,
            line <= num_lines(text@),
            para_fwd(text@, l as int, count as int) == if done {
                line as int
            } else {
                para_fwd(text@, line as int, count - k)
            },
        decreases count - k,
    {
        if !done {
            let nxt = para_step_fwd_line(text, line);
            if nxt == line {
                done = true;
            } else {
                proof {
                    lemma_para_fwd_bounds(text@, nxt as int, count - k - 1);
                }
                line = nxt;
            }
        }
        k = k + 1;
    }
    line
}

/// One backward step, executed.
fn para_step_back_line(text: &Vec<char>, l: usize) -> (r: usize)
    ensures
        r as int == para_step_back(text@, l as int),
        r <= l,
{
    let mut a: usize = l;
    while a > 0 && crate::text::is_line_blank(text, a - 1)
        invariant
            a <= l,
            skip_blank_back(text@, l as int) == skip_blank_back(text@, a as int),
        decreases a,
    {
        a = a - 1;
    }
    let mut b: usize = a;
    while b > 0 && !crate::text::is_line_blank(text, b - 1)
        invariant
            b <= a,
            skip_nonblank_back(text@, a as int) == skip_nonblank_back(text@, b as int),
        decreases b,
    {
        b = b - 1;
    }
    if b > 0 && crate::text::is_line_blank(text, b - 1) {
        b - 1
    } else {
        b
    }
}

/// Up to `count` backward steps from line `l`.
pub fn para_back_line(text: &Vec<char>, l: usize, count: usize) -> (r: usize)
    ensures
        r as int == para_back(text@, l as int, count as int),
        r <= l,
{
    let mut line: usize = l;
    let mut k: usize = 0;
    let mut done = false;
    while k < count
        invariant
            k <= count,
            line <= l,
            para_back(text@, l as int, count as int) == if done {
                line as int
            } else {
                para_back(text@, line as int, count - k)
            },
        decreases count - k,
    {
        if !done {
            let nxt = para_step_back_line(text, line);
            if nxt == line {
                done = true;
            } else {
                line = nxt;
            }
        }
        k = k + 1;
    }
    line
}

/// The paragraph object at the cursor, as first and one-past-last
/// line: the blank run when the cursor's line is blank, otherwise the
/// enclosing non-blank run; an around-object takes the trailing blank
/// run too.
pub open spec fn paragraph_object_lines_spec(s: Seq<char>, cl: int, around: bool) -> (int, int) {
    if line_blank(s, cl) {
        (skip_blank_back(s, cl), skip_blank_fwd(s, cl))
    } else {
        let start = skip_nonblank_back(s, cl);
        let end = skip_nonblank_fwd(s, cl);
        if around {
            (start, skip_blank_fwd(s, end))
        } else {
            (start, end)
        }
    }
}

/// The paragraph object at the cursor as a range of whole lines.
pub fn paragraph_object(text: &Vec<char>, range: &TextRange, around: bool) -> (out: TextRange)
    requires
        range.in_bounds(text@.len() as int),
        text@.len() < usize::MAX,
    ensures
        ({
            let lines = paragraph_object_lines_spec(
                text@,
                line_of(text@, range.cursor_spec()),
                around,
            );
            out == (TextRange {
                anchor: line_start(text@, lines.0) as usize,
                head: line_start(text@, lines.1) as usize,
            })
        }),
        out.in_bounds(text@.len() as int),
{
    let ghost s = text@;
    let cursor = range.cursor();
    proof {
        crate::text::lemma_line_of_bounds(s, cursor as int);
    }
    let cl = crate::text::char_to_line(text, cursor);
    let nl = crate::text::len_lines(text);
    let (start_line, end_line): (usize, usize) = if crate::text::is_line_blank(text, cl) {
        let a = skip_blank_back_line(text, cl);
        let b = skip_blank_fwd_line(text, cl, nl);
        (a, b)
    } else {
        let a = skip_nonblank_back_line(text, cl);
        let b = skip_nonblank_fwd_line(text, cl, nl);
        if around {
            let b2 = skip_blank_fwd_line(text, b, nl);
            (a, b2)
        } else {
            (a, b)
        }
    };
    let anchor = crate::text::line_to_char(text, start_line);
    let head = crate::text::line_to_char(text, end_line);
    proof {
        crate::text::lemma_line_start_bounds(s, start_line as int);
        crate::text::lemma_line_start_bounds(s, end_line as int);
    }
    TextRange { anchor, head }
}

fn skip_blank_fwd_line(text: &Vec<char>, l: usize, nl: usize) -> (r: usize)
    requires
        nl as int == num_lines(text@),
        l <= nl,
    ensures
        r as int == skip_blank_fwd(text@, l as int),
        l <= r <= nl,
{
    let mut a: usize = l;
    while a < nl && crate::text::is_line_blank(text, a)
        invariant
            l <= a <= nl,
            nl as int == num_lines(text@),
            skip_blank_fwd(text@, l as int) == skip_blank_fwd(text@, a as int),
        decreases nl - a,
    {
        a = a + 1;
    }
    a
}

fn skip_nonblank_fwd_line(text: &Vec<char>, l: usize, nl: usize) -> (r: usize)
    requires
        nl as int == num_lines(text@),
        l <= nl,
    ensures
        r as int == skip_nonblank_fwd(text@, l as int),
        l <= r <= nl,
{
    let mut a: usize = l;
    while a < nl && !crate::text::is_line_blank(text, a)
        invariant
            l <= a <= nl,
            nl as int == num_lines(text@),
            skip_nonblank_fwd(text@, l as int) == skip_nonblank_fwd(text@, a as int),
        decreases nl - a,
    {
        a = a + 1;
    }
    a
}

fn skip_blank_back_line(text: &Vec<char>, l: usize) -> (r: usize)
    ensures
        r as int == skip_blank_back(text@, l as int),
        r <= l,
{
    let mut a: usize = l;
    while a > 0 && crate::text::is_line_blank(text, a - 1)
        invariant
            a <= l,
            skip_blank_back(text@, l as int) == skip_blank_back(text@, a as int),
        decreases a,
    {
        a = a - 1;
    }
    a
}

fn skip_nonblank_back_line(text: &Vec<char>, l: usize) -> (r: usize)
    ensures
        r as int == skip_nonblank_back(text@, l as int),
        r <= l,
{
    let mut a: usize = l;
    while a > 0 && !crate::text::is_line_blank(text, a - 1)
        invariant
            a <= l,
            skip_nonblank_back(text@, l as int) == skip_nonblank_back(text@, a as int),
        decreases a,
    {
        a = a - 1;
    }
    a
}

/// The position one character before `p`, floored at the start.
pub open spec fn prev_pos(p: int) -> int {
    if p > 0 {
        p - 1
    } else {
        0
    }
}

/// What the forward paragraph motion does to one range.
pub open spec fn paragraph_forward_spec(
    s: Seq<char>,
    r: TextRange,
    count: int,
    behavior: Movement,
) -> TextRange {
    let line0 = line_of(s, r.cursor_spec());
    let last_char = prev_pos(line_start(s, line0 + 1)) == r.cursor_spec();
    let curr_empty = line_blank(s, line0);
    let next_line = if line0 + 1 <= num_lines(s) - 1 {
        line0 + 1
    } else {
        num_lines(s) - 1
    };
    let cetl = curr_empty && !line_blank(s, next_line);
    let start_line = if cetl && last_char {
        line0 + 1
    } else {
        line0
    };
    let fline = para_fwd(s, start_line, count);
    let head = line_start(s, fline);
    let anchor = if behavior == Movement::Move {
        if cetl && last_char {
            r.head as int
        } else {
            r.cursor_spec()
        }
    } else {
        r.put_cursor_spec(s, head, Movement::Extend).anchor as int
    };
    TextRange { anchor: anchor as usize, head: head as usize }
}

/// Move or extend one range forward by `count` paragraphs.
pub fn movement_paragraph_forward(
    text: &Vec<char>,
    range: &TextRange,
    count: usize,
    behavior: Movement,
) -> (out: TextRange)
    requires
        range.in_bounds(text@.len() as int),
        text@.len() < usize::MAX,
    ensures
        out == paragraph_forward_spec(text@, *range, count as int, behavior),
        out.in_bounds(text@.len() as int),
{
    let ghost s = text@;
    let cursor = range.cursor();
    proof {
        crate::text::lemma_line_of_bounds(s, cursor as int);
        crate::text::lemma_position_in_its_line(s, cursor as int);
    }
    let line0 = crate::text::char_to_line(text, cursor);
    let nl = crate::text::len_lines(text);
    let nls = crate::text::line_to_char(text, line0 + 1);
    let last_char = (if nls > 0 {
        nls - 1
    } else {
        0
    }) == cursor;
    let curr_empty = crate::text::is_line_blank(text, line0);
    let next_line = if line0 + 1 <= nl - 1 {
        line0 + 1
    } else {
        nl - 1
    };
    let cetl = curr_empty && !crate::text::is_line_blank(text, next_line);
    let start_line = if cetl && last_char {
        line0 + 1
    } else {
        line0
    };
    proof {
        crate::text::lemma_line_start_bounds(s, line0 as int);
        if start_line == line0 + 1 {
            // the cursor's line is blank and holds its separator, so
            // the next line number is still within the line count
            assert(line_blank(s, line0 as int));
            crate::text::lemma_line_of_line_start(s, line0 as int);
            crate::text::lemma_count_newlines_step(s, line_start(s, line0 as int));
            crate::text::lemma_take_monotone_count(
                s,
                line_start(s, line0 as int) + 1,
                s.len() as int,
            );
            assert(s.take(s.len() as int) =~= s);
        }
    }
    let fline = para_fwd_line(text, start_line, count);
    let head = crate::text::line_to_char(text, fline);
    let anchor: usize = match behavior {
        Movement::Move => {
            if cetl && last_char {
                range.head
            } else {
                cursor
            }
        },
        Movement::Extend => {
            let r2 = range.put_cursor(text, head, Movement::Extend);
            r2.anchor
        },
    };
    TextRange { anchor, head }
}

/// What the backward paragraph motion does to one range.
pub open spec fn paragraph_backward_spec(
    s: Seq<char>,
    r: TextRange,
    count: int,
    behavior: Movement,
) -> TextRange {
    let line0 = line_of(s, r.cursor_spec());
    let first_char = line_start(s, line0) == r.cursor_spec();
    let prev_line = if line0 > 0 {
        line0 - 1
    } else {
        0
    };
    let petl = line_blank(s, prev_line) && !line_blank(s, line0);
    let start_line = if petl && !first_char {
        line0 + 1
    } else {
        line0
    };
    let fline = para_back(s, start_line, count);
    let head = line_start(s, fline);
    let anchor = if behavior == Movement::Move {
        if petl && first_char {
            r.cursor_spec()
        } else {
            r.head as int
        }
    } else {
        r.put_cursor_spec(s, head, Movement::Extend).anchor as int
    };
    TextRange { anchor: anchor as usize, head: head as usize }
}

/// Move or extend one range backward by `count` paragraphs.
pub fn movement_paragraph_backward(
    text: &Vec<char>,
    range: &TextRange,
    count: usize,
    behavior: Movement,
) -> (out: TextRange)
    requires
        range.in_bounds(text@.len() as int),
        text@.len() < usize::MAX,
    ensures
        out == paragraph_backward_spec(text@, *range, count as int, behavior),
        out.in_bounds(text@.len() as int),
{
    let ghost s = text@;
    let cursor = range.cursor();
    proof {
        crate::text::lemma_line_of_bounds(s, cursor as int);
    }
    let line0 = crate::text::char_to_line(text, cursor);
    let ls0 = crate::text::line_to_char(text, line0);
    let first_char = ls0 == cursor;
    let prev_line = if line0 > 0 {
        line0 - 1
    } else {
        0
    };
    let petl = crate::text::is_line_blank(text, prev_line) && !crate::text::is_line_blank(
        text,
        line0,
    );
    let start_line = if petl && !first_char {
        line0 + 1
    } else {
        line0
    };
    let fline = para_back_line(text, start_line, count);
    proof {
        lemma_para_back_bounds(s, start_line as int, count as int);
        crate::text::lemma_line_start_bounds(s, fline as int);
    }
    let head = crate::text::line_to_char(text, fline);
    let anchor: usize = match behavior {
        Movement::Move => {
            if petl && first_char {
                cursor
            } else {
                range.head
            }
        },
        Movement::Extend => {
            let r2 = range.put_cursor(text, head, Movement::Extend);
            r2.anchor
        },
    };
    TextRange { anchor, head }
}

} // verus!

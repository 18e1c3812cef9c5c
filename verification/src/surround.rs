//! Enclosing-pair text objects.
//!
//! For a bracket pair the search is nesting-aware: it walks backward
//! from the cursor for the `n`-th unmatched opening character, then
//! forward for its matching closing one.  A character with no known
//! partner pairs with itself, and for such symmetric pairs the nearest
//! occurrence on each side is taken, without nesting.

use vstd::prelude::*;
use crate::operator::TextObjectKind;
use crate::range::TextRange;

verus! {

/// The opening and closing character `ch` stands for.
pub open spec fn pair_of_spec(ch: char) -> (char, char) {
    if ch == '(' || ch == ')' {
        ('(', ')')
    } else if ch == '[' || ch == ']' {
        ('[', ']')
    } else if ch == '{' || ch == '}' {
        ('{', '}')
    } else if ch == '<' || ch == '>' {
        ('<', '>')
    } else {
        (ch, ch)
    }
}

pub fn pair_of(ch: char) -> (r: (char, char))
    ensures
        r == pair_of_spec(ch),
{
    if ch == '(' || ch == ')' {
        ('(', ')')
    } else if ch == '[' || ch == ']' {
        ('[', ']')
    } else if ch == '{' || ch == '}' {
        ('{', '}')
    } else if ch == '<' || ch == '>' {
        ('<', '>')
    } else {
        (ch, ch)
    }
}

/// Position of the unmatched opening character at or before `p`, with
/// `depth` closers still to balance.
pub open spec fn scan_back_open_spec(
    s: Seq<char>,
    p: int,
    open: char,
    close: char,
    depth: int,
) -> Option<int>
    decreases p + 1,
{
    if p < 0 || p >= s.len() {
        None
    } else if s[p] == open {
        if depth <= 0 {
            Some(p)
        } else {
            scan_back_open_spec(s, p - 1, open, close, depth - 1)
        }
    } else if s[p] == close {
        scan_back_open_spec(s, p - 1, open, close, depth + 1)
    } else {
        scan_back_open_spec(s, p - 1, open, close, depth)
    }
}

/// Position of the unmatched closing character at or after `p`, with
/// `depth` openers still to balance.
pub open spec fn scan_fwd_close_spec(
    s: Seq<char>,
    p: int,
    open: char,
    close: char,
    depth: int,
) -> Option<int>
    decreases s.len() - p,
{
    if p < 0 || p >= s.len() {
        None
    } else if s[p] == close {
        if depth <= 0 {
            Some(p)
        } else {
            scan_fwd_close_spec(s, p + 1, open, close, depth - 1)
        }
    } else if s[p] == open {
        scan_fwd_close_spec(s, p + 1, open, close, depth + 1)
    } else {
        scan_fwd_close_spec(s, p + 1, open, close, depth)
    }
}

pub proof fn lemma_scan_back_in_bounds(s: Seq<char>, p: int, open: char, close: char, depth: int)
    requires
        scan_back_open_spec(s, p, open, close, depth) is Some,
    ensures
        0 <= scan_back_open_spec(s, p, open, close, depth)->0 <= p,
        scan_back_open_spec(s, p, open, close, depth)->0 < s.len(),
    decreases p + 1,
{
    if 0 <= p < s.len() {
        if s[p] == open && depth <= 0 {
        } else if s[p] == open {
            lemma_scan_back_in_bounds(s, p - 1, open, close, depth - 1);
        } else if s[p] == close {
            lemma_scan_back_in_bounds(s, p - 1, open, close, depth + 1);
        } else {
            lemma_scan_back_in_bounds(s, p - 1, open, close, depth);
        }
    }
}

pub proof fn lemma_scan_fwd_in_bounds(s: Seq<char>, p: int, open: char, close: char, depth: int)
    requires
        scan_fwd_close_spec(s, p, open, close, depth) is Some,
    ensures
        p <= scan_fwd_close_spec(s, p, open, close, depth)->0 < s.len(),
    decreases s.len() - p,
{
    if 0 <= p < s.len() {
        if s[p] == close && depth <= 0 {
        } else if s[p] == close {
            lemma_scan_fwd_in_bounds(s, p + 1, open, close, depth - 1);
        } else if s[p] == open {
            lemma_scan_fwd_in_bounds(s, p + 1, open, close, depth + 1);
        } else {
            lemma_scan_fwd_in_bounds(s, p + 1, open, close, depth);
        }
    }
}

/// A backward scan that still owes more balance than there are
/// characters left can find nothing.
proof fn lemma_scan_back_deep(s: Seq<char>, p: int, open: char, close: char, depth: int)
    requires
        depth > p,
    ensures
        scan_back_open_spec(s, p, open, close, depth) is None,
    decreases p + 1,
{
    if 0 <= p < s.len() {
        if s[p] == open {
            lemma_scan_back_deep(s, p - 1, open, close, depth - 1);
        } else if s[p] == close {
            lemma_scan_back_deep(s, p - 1, open, close, depth + 1);
        } else {
            lemma_scan_back_deep(s, p - 1, open, close, depth);
        }
    }
}

/// A forward scan that owes more balance than there are characters
/// left can find nothing.
proof fn lemma_scan_fwd_deep(s: Seq<char>, p: int, open: char, close: char, depth: int)
    requires
        depth > s.len() - p,
    ensures
        scan_fwd_close_spec(s, p, open, close, depth) is None,
    decreases s.len() - p,
{
    if 0 <= p < s.len() {
        if s[p] == close {
            lemma_scan_fwd_deep(s, p + 1, open, close, depth - 1);
        } else if s[p] == open {
            lemma_scan_fwd_deep(s, p + 1, open, close, depth + 1);
        } else {
            lemma_scan_fwd_deep(s, p + 1, open, close, depth);
        }
    }
}

/// Walk backward for the unmatched opening character.
fn scan_back_open(text: &Vec<char>, p: usize, open: char, close: char, depth: usize) -> (r: Option<
    usize,
>)
    requires
        text@.len() < usize::MAX,
    ensures
        match r {
            Some(q) => Some(q as int) == scan_back_open_spec(
                text@,
                p as int,
                open,
                close,
                depth as int,
            ),
            None => scan_back_open_spec(text@, p as int, open, close, depth as int) is None,
        },
{
    if p >= text.len() {
        return None;
    }
    if depth > p {
        proof {
            lemma_scan_back_deep(text@, p as int, open, close, depth as int);
        }
        return None;
    }
    let mut q: usize = p;
    let mut d: usize = depth;
    loop
        invariant
            q <= p < text@.len(),
            text@.len() < usize::MAX,
            d <= text@.len(),
            scan_back_open_spec(text@, p as int, open, close, depth as int)
                == scan_back_open_spec(text@, q as int, open, close, d as int),
        decreases q,
    {
        if d > q {
            proof {
                lemma_scan_back_deep(text@, q as int, open, close, d as int);
            }
            return None;
        }
        let c = text[q];
        if c == open && d == 0 {
            return Some(q);
        }
        let d2: usize = if c == open {
            d - 1
        } else if c == close {
            d + 1
        } else {
            d
        };
        if q == 0 {
            proof {
                assert(scan_back_open_spec(text@, -1, open, close, d as int - 1) is None);
                assert(scan_back_open_spec(text@, -1, open, close, d as int + 1) is None);
                assert(scan_back_open_spec(text@, -1, open, close, d as int) is None);
                assert(scan_back_open_spec(text@, 0, open, close, d as int) is None);
            }
            return None;
        }
        d = d2;
        q = q - 1;
    }
}

/// Walk forward for the unmatched closing character.
fn scan_fwd_close(text: &Vec<char>, p: usize, open: char, close: char, depth: usize) -> (r: Option<
    usize,
>)
    requires
        text@.len() < usize::MAX,
    ensures
        match r {
            Some(q) => Some(q as int) == scan_fwd_close_spec(
                text@,
                p as int,
                open,
                close,
                depth as int,
            ),
            None => scan_fwd_close_spec(text@, p as int, open, close, depth as int) is None,
        },
{
    if p >= text.len() {
        return None;
    }
    if depth > text.len() - p {
        proof {
            lemma_scan_fwd_deep(text@, p as int, open, close, depth as int);
        }
        return None;
    }
    let mut q: usize = p;
    let mut d: usize = depth;
    while q < text.len()
        invariant
            p <= q <= text@.len(),
            text@.len() < usize::MAX,
            d <= text@.len() + 1,
            scan_fwd_close_spec(text@, p as int, open, close, depth as int)
                == scan_fwd_close_spec(text@, q as int, open, close, d as int),
        decreases text@.len() - q,
    {
        if d > text.len() - q {
            proof {
                lemma_scan_fwd_deep(text@, q as int, open, close, d as int);
            }
            return None;
        }
        let c = text[q];
        if c == close {
            if d == 0 {
                return Some(q);
            }
            d = d - 1;
        } else if c == open {
            d = d + 1;
        }
        q = q + 1;
    }
    None
}

/// The span of the `count`-th pair of `ch` enclosing the cursor, ends
/// inclusive.
pub open spec fn surround_positions_spec(s: Seq<char>, c: int, ch: char, count: int) -> Option<
    (int, int),
> {
    let open = pair_of_spec(ch).0;
    let close = pair_of_spec(ch).1;
    if open == close {
        let o = if 0 <= c < s.len() && s[c] == open {
            Some(c)
        } else {
            crate::findchar::find_nth_backward_spec(s, c, open, 1)
        };
        match o {
            None => None,
            Some(op) => match crate::findchar::find_nth_forward_spec(s, op + 1, close, 1) {
                None => None,
                Some(cl) => Some((op, cl)),
            },
        }
    } else {
        match scan_back_open_spec(s, c, open, close, count - 1) {
            None => None,
            Some(op) => match scan_fwd_close_spec(s, op + 1, open, close, 0) {
                None => None,
                Some(cl) => Some((op, cl)),
            },
        }
    }
}

/// Find the enclosing pair of `ch` around the cursor.
pub fn surround_positions(text: &Vec<char>, cursor: usize, ch: char, count: usize) -> (r: Option<
    (usize, usize),
>)
    requires
        count >= 1,
        cursor <= text@.len(),
        text@.len() < usize::MAX,
    ensures
        match r {
            Some(q) => {
                &&& Some((q.0 as int, q.1 as int)) == surround_positions_spec(
                    text@,
                    cursor as int,
                    ch,
                    count as int,
                )
                &&& q.0 <= q.1 < text@.len()
            },
            None => surround_positions_spec(text@, cursor as int, ch, count as int) is None,
        },
{
    let ghost s = text@;
    let (open, close) = pair_of(ch);
    if open == close {
        let o = if cursor < text.len() && text[cursor] == open {
            Some(cursor)
        } else {
            crate::findchar::find_nth_backward(text, cursor, open, 1)
        };
        match o {
            None => None,
            Some(op) => {
                proof {
                    if !(cursor < text.len() && text@[cursor as int] == open) {
                        crate::findchar::lemma_find_backward_in_bounds(s, cursor as int, open, 1);
                    }
                }
                match crate::findchar::find_nth_forward(text, op + 1, close, 1) {
                    None => None,
                    Some(cl) => {
                        proof {
                            crate::findchar::lemma_find_forward_in_bounds(s, op + 1int, close, 1);
                        }
                        Some((op, cl))
                    },
                }
            },
        }
    } else {
        match scan_back_open(text, cursor, open, close, count - 1) {
            None => None,
            Some(op) => {
                proof {
                    lemma_scan_back_in_bounds(s, cursor as int, open, close, count - 1);
                }
                match scan_fwd_close(text, op + 1, open, close, 0) {
                    None => None,
                    Some(cl) => {
                        proof {
                            lemma_scan_fwd_in_bounds(s, op + 1int, open, close, 0);
                        }
                        Some((op, cl))
                    },
                }
            },
        }
    }
}

/// The surround object for `ch` at the cursor: between the pair for an
/// inside object, the pair included for an around object; the range is
/// unchanged when no pair encloses the cursor.
pub fn surround_object(
    text: &Vec<char>,
    range: &TextRange,
    ch: char,
    kind: TextObjectKind,
    count: usize,
) -> (r: TextRange)
    requires
        count >= 1,
        range.in_bounds(text@.len() as int),
        text@.len() < usize::MAX,
    ensures
        r.in_bounds(text@.len() as int),
        match surround_positions_spec(text@, range.cursor_spec(), ch, count as int) {
            Some(q) => r == (match kind {
                TextObjectKind::Inside => TextRange {
                    anchor: (q.0 + 1) as usize,
                    head: q.1 as usize,
                },
                TextObjectKind::Around => TextRange {
                    anchor: q.0 as usize,
                    head: (q.1 + 1) as usize,
                },
            }),
            None => r == *range,
        },
{
    let cursor = range.cursor();
    match surround_positions(text, cursor, ch, count) {
        None => *range,
        Some((op, cl)) => match kind {
            TextObjectKind::Inside => TextRange { anchor: op + 1, head: cl },
            TextObjectKind::Around => TextRange { anchor: op, head: cl + 1 },
        },
    }
}

/// Keep whichever pair opens nearer the cursor.
fn consider_pair(
    text: &Vec<char>,
    cursor: usize,
    ch: char,
    count: usize,
    best: Option<(usize, usize)>,
) -> (r: Option<(usize, usize)>)
    requires
        count >= 1,
        cursor <= text@.len(),
        text@.len() < usize::MAX,
        match best {
            Some(b) => b.0 <= b.1 < text@.len(),
            None => true,
        },
    ensures
        match r {
            Some(b) => b.0 <= b.1 < text@.len(),
            None => best is None,
        },
{
    match surround_positions(text, cursor, ch, count) {
        None => best,
        Some((op, cl)) => {
            let replace = match best {
                None => true,
                Some(b) => op > b.0,
            };
            if replace {
                Some((op, cl))
            } else {
                best
            }
        },
    }
}

/// The closest surrounding pair of any kind: among the known pairs,
/// the one whose opening character sits nearest the cursor.
pub fn closest_surround_object(
    text: &Vec<char>,
    range: &TextRange,
    kind: TextObjectKind,
    count: usize,
) -> (r: TextRange)
    requires
        count >= 1,
        range.in_bounds(text@.len() as int),
        text@.len() < usize::MAX,
    ensures
        r.in_bounds(text@.len() as int),
{
    let cursor = range.cursor();
    let mut best: Option<(usize, usize)> = None;
    best = consider_pair(text, cursor, '(', count, best);
    best = consider_pair(text, cursor, '[', count, best);
    best = consider_pair(text, cursor, '{', count, best);
    best = consider_pair(text, cursor, '<', count, best);
    best = consider_pair(text, cursor, '"', count, best);
    best = consider_pair(text, cursor, '\'', count, best);
    best = consider_pair(text, cursor, '`', count, best);
    match best {
        None => *range,
        Some((op, cl)) => match kind {
            TextObjectKind::Inside => TextRange { anchor: op + 1, head: cl },
            TextObjectKind::Around => TextRange { anchor: op, head: cl + 1 },
        },
    }
}

} // verus!

//! Word and vertical motions.
//!
//! Characters fall in three categories: word characters (ASCII letters,
//! digits and the underscore), other printable characters, and
//! whitespace.  A word is a maximal run of one non-space category; a
//! long word (WORD) is a maximal run of anything but whitespace.

use vstd::prelude::*;
use crate::range::{Direction, Movement, TextRange};
use crate::text::{line_end, line_of, line_start, num_lines};

verus! {

/// Character categories for word motions.
#[derive(Clone, Copy, PartialEq, Eq, Structural, Debug)]
pub enum CharCat {
    WordChar,
    Punct,
    Space,
}

/// ASCII letters, digits and underscore count as word characters.
pub open spec fn is_word_char(c: char) -> bool {
    ('a' <= c && c <= 'z') || ('A' <= c && c <= 'Z') || ('0' <= c && c <= '9') || c == '_'
}

pub open spec fn is_space_char(c: char) -> bool {
    c == ' ' || c == '\t' || c == '\n' || c == '\r'
}

/// The category of `c`; with `long`, word characters and punctuation
/// fall together.
pub open spec fn cat_spec(c: char, long: bool) -> CharCat {
    if is_space_char(c) {
        CharCat::Space
    } else if long {
        CharCat::WordChar
    } else if is_word_char(c) {
        CharCat::WordChar
    } else {
        CharCat::Punct
    }
}

pub fn char_cat(c: char, long: bool) -> (r: CharCat)
    ensures
        r == cat_spec(c, long),
{
    if c == ' ' || c == '\t' || c == '\n' || c == '\r' {
        CharCat::Space
    } else if long {
        CharCat::WordChar
    } else if ('a' <= c && c <= 'z') || ('A' <= c && c <= 'Z') || ('0' <= c && c <= '9') || c
        == '_' {
        CharCat::WordChar
    } else {
        CharCat::Punct
    }
}

/// End of the run of category `c` that starts at `p`.
pub open spec fn run_end_spec(s: Seq<char>, p: int, c: CharCat, long: bool) -> int
    decreases s.len() - p,
{
    if p < 0 || p >= s.len() || cat_spec(s[p], long) != c {
        p
    } else {
        run_end_spec(s, p + 1, c, long)
    }
}

/// Start of the run of category `c` that ends just before `p`.
pub open spec fn run_start_spec(s: Seq<char>, p: int, c: CharCat, long: bool) -> int
    decreases p,
{
    if p <= 0 || p > s.len() || cat_spec(s[p - 1], long) != c {
        p
    } else {
        run_start_spec(s, p - 1, c, long)
    }
}

pub proof fn lemma_run_end_bounds(s: Seq<char>, p: int, c: CharCat, long: bool)
    requires
        0 <= p <= s.len(),
    ensures
        p <= run_end_spec(s, p, c, long) <= s.len(),
    decreases s.len() - p,
{
    if p < s.len() && cat_spec(s[p], long) == c {
        lemma_run_end_bounds(s, p + 1, c, long);
    }
}

pub proof fn lemma_run_start_bounds(s: Seq<char>, p: int, c: CharCat, long: bool)
    requires
        0 <= p <= s.len(),
    ensures
        0 <= run_start_spec(s, p, c, long) <= p,
    decreases p,
{
    if p > 0 && cat_spec(s[p - 1], long) == c {
        lemma_run_start_bounds(s, p - 1, c, long);
    }
}

/// Whether the character at `p` has category `c`.
fn cat_at_is(text: &Vec<char>, p: usize, c: CharCat, long: bool) -> (r: bool)
    requires
        p < text@.len(),
    ensures
        r == (cat_spec(text@[p as int], long) == c),
{
    let pc = char_cat(text[p], long);
    pc == c
}

/// End of the category run starting at `p`.
pub fn run_end(text: &Vec<char>, p: usize, c: CharCat, long: bool) -> (r: usize)
    requires
        p <= text@.len(),
    ensures
        r as int == run_end_spec(text@, p as int, c, long),
        p <= r <= text@.len(),
{
    let mut q: usize = p;
    while q < text.len() && cat_at_is(text, q, c, long)
        invariant
            p <= q <= text@.len(),
            run_end_spec(text@, p as int, c, long) == run_end_spec(text@, q as int, c, long),
        decreases text@.len() - q,
    {
        q = q + 1;
    }
    q
}

/// Start of the category run ending just before `p`.
pub fn run_start(text: &Vec<char>, p: usize, c: CharCat, long: bool) -> (r: usize)
    requires
        p <= text@.len(),
    ensures
        r as int == run_start_spec(text@, p as int, c, long),
        r <= p,
{
    let mut q: usize = p;
    while q > 0 && cat_at_is(text, q - 1, c, long)
        invariant
            q <= p <= text@.len(),
            run_start_spec(text@, p as int, c, long) == run_start_spec(text@, q as int, c, long),
        decreases q,
    {
        q = q - 1;
    }
    q
}

/// Start of the next word after `p`: past the current run, then past
/// any whitespace.
pub open spec fn next_word_start_spec(s: Seq<char>, p: int, long: bool) -> int {
    if p >= s.len() {
        s.len() as int
    } else {
        let q = if cat_spec(s[p], long) == CharCat::Space {
            p
        } else {
            run_end_spec(s, p, cat_spec(s[p], long), long)
        };
        run_end_spec(s, q, CharCat::Space, long)
    }
}

pub fn next_word_start(text: &Vec<char>, p: usize, long: bool) -> (r: usize)
    requires
        p <= text@.len(),
    ensures
        r as int == next_word_start_spec(text@, p as int, long),
        p <= r <= text@.len(),
{
    if p >= text.len() {
        return text.len();
    }
    let c = char_cat(text[p], long);
    let q = if c == CharCat::Space {
        p
    } else {
        run_end(text, p, c, long)
    };
    run_end(text, q, CharCat::Space, long)
}

/// End of the word at or after `p + 1`: past any whitespace, then to
/// the last character of the next run.
pub open spec fn next_word_end_spec(s: Seq<char>, p: int, long: bool) -> int {
    if p + 1 >= s.len() {
        s.len() as int
    } else {
        let q = run_end_spec(s, p + 1, CharCat::Space, long);
        if q >= s.len() {
            s.len() as int
        } else {
            run_end_spec(s, q, cat_spec(s[q], long), long) - 1
        }
    }
}

pub fn next_word_end(text: &Vec<char>, p: usize, long: bool) -> (r: usize)
    requires
        p <= text@.len(),
    ensures
        r as int == next_word_end_spec(text@, p as int, long),
        r <= text@.len(),
{
    if p >= text.len() || p + 1 >= text.len() {
        return text.len();
    }
    let q = run_end(text, p + 1, CharCat::Space, long);
    if q >= text.len() {
        return text.len();
    }
    let c = char_cat(text[q], long);
    let e = run_end(text, q, c, long);
    proof {
        lemma_run_end_bounds(text@, q + 1int, c, long);
        assert(run_end_spec(text@, q as int, c, long) == run_end_spec(text@, q + 1int, c, long));
        assert(run_end_spec(text@, q as int, c, long) > q);
    }
    e - 1
}

/// Start of the word before `p`: back over whitespace, then to the
/// start of the run found there.
pub open spec fn prev_word_start_spec(s: Seq<char>, p: int, long: bool) -> int {
    let q = run_start_spec(s, p, CharCat::Space, long);
    if q <= 0 {
        0
    } else {
        run_start_spec(s, q, cat_spec(s[q - 1], long), long)
    }
}

pub fn prev_word_start(text: &Vec<char>, p: usize, long: bool) -> (r: usize)
    requires
        p <= text@.len(),
    ensures
        r as int == prev_word_start_spec(text@, p as int, long),
        r <= p,
{
    let q = run_start(text, p, CharCat::Space, long);
    if q == 0 {
        return 0;
    }
    let c = char_cat(text[q - 1], long);
    let r = run_start(text, q, c, long);
    proof {
        lemma_run_start_bounds(text@, q as int, c, long);
    }
    r
}

/// The word-object span at the cursor: the whole run the cursor sits
/// in; around-objects take the following whitespace too, or the
/// preceding whitespace when none follows.
pub open spec fn word_object_spec(s: Seq<char>, c: int, around: bool, long: bool) -> (int, int) {
    if c >= s.len() {
        (s.len() as int, s.len() as int)
    } else {
        let cc = cat_spec(s[c], long);
        let start = run_start_spec(s, c, cc, long);
        let end = run_end_spec(s, c, cc, long);
        if !around || cc == CharCat::Space {
            (start, end)
        } else {
            let end2 = run_end_spec(s, end, CharCat::Space, long);
            if end2 > end {
                (start, end2)
            } else {
                (run_start_spec(s, start, CharCat::Space, long), end)
            }
        }
    }
}

/// The word object at the cursor as a range.
pub fn word_object(text: &Vec<char>, cursor: usize, around: bool, long: bool) -> (r: TextRange)
    requires
        cursor <= text@.len(),
    ensures
        r.anchor as int == word_object_spec(text@, cursor as int, around, long).0,
        r.head as int == word_object_spec(text@, cursor as int, around, long).1,
        r.in_bounds(text@.len() as int),
        r.anchor <= r.head,
{
    if cursor >= text.len() {
        return TextRange { anchor: text.len(), head: text.len() };
    }
    let cc = char_cat(text[cursor], long);
    let start = run_start(text, cursor, cc, long);
    let end = run_end(text, cursor, cc, long);
    if !around || cc == CharCat::Space {
        TextRange { anchor: start, head: end }
    } else {
        let end2 = run_end(text, end, CharCat::Space, long);
        if end2 > end {
            TextRange { anchor: start, head: end2 }
        } else {
            let start2 = run_start(text, start, CharCat::Space, long);
            TextRange { anchor: start2, head: end }
        }
    }
}

/// Where a one-line vertical move from `r` lands: the same column of
/// the neighbouring line, clamped to that line's content.
pub open spec fn vertical_target_spec(s: Seq<char>, r: TextRange, dir: Direction) -> int {
    let c = r.cursor_spec();
    let l = line_of(s, c);
    let tl = match dir {
        Direction::Forward => if l + 1 < num_lines(s) {
            l + 1
        } else {
            l
        },
        Direction::Backward => if l > 0 {
            l - 1
        } else {
            0
        },
    };
    let col = c - line_start(s, l);
    let pos = line_start(s, tl) + col;
    if pos <= line_end(s, tl) {
        pos
    } else {
        line_end(s, tl)
    }
}

/// Move or extend the range one line up or down, keeping the column
/// where the neighbouring line is long enough.
pub fn move_vertically(text: &Vec<char>, r: &TextRange, dir: Direction, movement: Movement) -> (out:
    TextRange)
    requires
        r.in_bounds(text@.len() as int),
        text@.len() < usize::MAX,
    ensures
        out == r.put_cursor_spec(text@, vertical_target_spec(text@, *r, dir), movement),
        out.in_bounds(text@.len() as int),
{
    let ghost s = text@;
    let c = r.cursor();
    proof {
        crate::text::lemma_line_of_bounds(s, c as int);
        crate::text::lemma_position_in_its_line(s, c as int);
    }
    let l = crate::text::char_to_line(text, c);
    let nl = crate::text::len_lines(text);
    let tl: usize = match dir {
        Direction::Forward => if l + 1 < nl {
            l + 1
        } else {
            l
        },
        Direction::Backward => if l > 0 {
            l - 1
        } else {
            0
        },
    };
    let ls = crate::text::line_to_char(text, l);
    let col = c - ls;
    let tls = crate::text::line_to_char(text, tl);
    let te = crate::text::line_end_char_index(text, tl);
    proof {
        crate::text::lemma_line_start_bounds(s, tl as int);
        crate::text::lemma_line_start_bounds(s, l as int);
        assert(te >= tls);
    }
    let pos = if col <= te - tls && tls <= usize::MAX - col {
        tls + col
    } else {
        te
    };
    proof {
        assert(pos <= text@.len());
        assert(pos as int == {
            let p0 = line_start(s, tl as int) + (c - line_start(s, l as int));
            if p0 <= line_end(s, tl as int) {
                p0
            } else {
                line_end(s, tl as int)
            }
        });
    }
    r.put_cursor(text, pos, movement)
}

} // verus!

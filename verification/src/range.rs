//! Anchor/head ranges over a text buffer.
//!
//! A range is a pair of character offsets.  The anchor is the fixed
//! side, the head the moving side; `from`/`to` are the two in buffer
//! order.  For a zero-width range cursor, anchor and head coincide.

use vstd::prelude::*;
use crate::text::{line_of, line_start, num_lines};

verus! {

/// Direction of a motion or of a range.
#[derive(Clone, Copy, PartialEq, Eq, Structural, Debug)]
pub enum Direction {
    Forward,
    Backward,
}

/// Whether a motion moves the whole range or extends it from its anchor.
#[derive(Clone, Copy, PartialEq, Eq, Structural, Debug)]
pub enum Movement {
    Move,
    Extend,
}

/// An anchor/head pair of character offsets.
#[derive(Clone, Copy, PartialEq, Eq, Structural, Debug)]
pub struct TextRange {
    pub anchor: usize,
    pub head: usize,
}

impl TextRange {
    /// Both offsets lie within a text of `len` characters.
    pub open spec fn in_bounds(self, len: int) -> bool {
        self.anchor <= len && self.head <= len
    }

    /// The lower of the two offsets.
    pub open spec fn from_spec(self) -> int {
        if self.anchor <= self.head {
            self.anchor as int
        } else {
            self.head as int
        }
    }

    /// The higher of the two offsets.
    pub open spec fn to_spec(self) -> int {
        if self.anchor <= self.head {
            self.head as int
        } else {
            self.anchor as int
        }
    }

    /// Width of the range in characters.
    pub open spec fn len_spec(self) -> int {
        self.to_spec() - self.from_spec()
    }

    /// A range points backward exactly when its head precedes its anchor.
    pub open spec fn direction_spec(self) -> Direction {
        if self.head < self.anchor {
            Direction::Backward
        } else {
            Direction::Forward
        }
    }

    /// The cursor position: the head, pulled back one character when the
    /// range runs forward over at least one character.
    pub open spec fn cursor_spec(self) -> int {
        if self.head > self.anchor {
            self.head - 1
        } else {
            self.head as int
        }
    }

    pub fn new(anchor: usize, head: usize) -> (r: TextRange)
        ensures
            r == (TextRange { anchor, head }),
    {
        TextRange { anchor, head }
    }

    /// The zero-width range at `p`.
    pub fn point(p: usize) -> (r: TextRange)
        ensures
            r == (TextRange { anchor: p, head: p }),
            r.from_spec() == p && r.to_spec() == p,
    {
        TextRange { anchor: p, head: p }
    }

    pub fn from(&self) -> (r: usize)
        ensures
            r == self.from_spec(),
    {
        if self.anchor <= self.head {
            self.anchor
        } else {
            self.head
        }
    }

    pub fn to(&self) -> (r: usize)
        ensures
            r == self.to_spec(),
    {
        if self.anchor <= self.head {
            self.head
        } else {
            self.anchor
        }
    }

    pub fn len(&self) -> (r: usize)
        ensures
            r == self.len_spec(),
    {
        self.to() - self.from()
    }

    pub fn direction(&self) -> (r: Direction)
        ensures
            r == self.direction_spec(),
    {
        if self.head < self.anchor {
            Direction::Backward
        } else {
            Direction::Forward
        }
    }

    /// The same span, oriented in the given direction.
    pub fn with_direction(&self, dir: Direction) -> (r: TextRange)
        ensures
            r.from_spec() == self.from_spec(),
            r.to_spec() == self.to_spec(),
            r.direction_spec() == dir || r.len_spec() == 0,
            r == self.with_direction_spec(dir),
    {
        match dir {
            Direction::Forward => TextRange { anchor: self.from(), head: self.to() },
            Direction::Backward => TextRange { anchor: self.to(), head: self.from() },
        }
    }

    pub open spec fn with_direction_spec(self, dir: Direction) -> TextRange {
        match dir {
            Direction::Forward => TextRange {
                anchor: self.from_spec() as usize,
                head: self.to_spec() as usize,
            },
            Direction::Backward => TextRange {
                anchor: self.to_spec() as usize,
                head: self.from_spec() as usize,
            },
        }
    }

    /// The anchor and head, swapped.
    pub fn flip(&self) -> (r: TextRange)
        ensures
            r == (TextRange { anchor: self.head, head: self.anchor }),
    {
        TextRange { anchor: self.head, head: self.anchor }
    }

    /// The cursor position of the range.
    pub fn cursor(&self) -> (r: usize)
        ensures
            r == self.cursor_spec(),
    {
        if self.head > self.anchor {
            self.head - 1
        } else {
            self.head
        }
    }

    /// The line holding the cursor.
    pub fn cursor_line(&self, text: &Vec<char>) -> (r: usize)
        requires
            self.in_bounds(text@.len() as int),
        ensures
            r as int == line_of(text@, self.cursor_spec()),
    {
        crate::text::char_to_line(text, self.cursor())
    }

    /// First and last line covered by the range.  A nonempty range does
    /// not count a line that only its one-past-the-end offset touches.
    pub fn line_range(&self, text: &Vec<char>) -> (r: (usize, usize))
        requires
            self.in_bounds(text@.len() as int),
        ensures
            r.0 as int == line_of(text@, self.from_spec()),
            r.1 as int == self.last_line_spec(text@),
            r.0 <= r.1,
            r.1 as int <= self.to_spec(),
    {
        let f = self.from();
        let t = self.to();
        let last = if f == t {
            t
        } else {
            t - 1
        };
        let r0 = crate::text::char_to_line(text, f);
        let r1 = crate::text::char_to_line(text, last);
        proof {
            crate::text::lemma_take_monotone_count(text@, f as int, last as int);
        }
        (r0, r1)
    }

    /// The line of the range's last covered offset (of `to` itself for a
    /// zero-width range).
    pub open spec fn last_line_spec(self, s: Seq<char>) -> int {
        if self.from_spec() == self.to_spec() {
            line_of(s, self.to_spec())
        } else {
            line_of(s, self.to_spec() - 1)
        }
    }

    /// Where `put_cursor` leaves the anchor when extending.
    pub open spec fn extend_anchor_spec(self, s: Seq<char>, pos: int) -> int {
        if self.head >= self.anchor && pos < self.anchor {
            if self.anchor < s.len() {
                self.anchor + 1
            } else {
                self.anchor as int
            }
        } else if self.head < self.anchor && pos >= self.anchor {
            if self.anchor > 0 {
                self.anchor - 1
            } else {
                0
            }
        } else {
            self.anchor as int
        }
    }

    /// The range after placing the cursor at `pos`.
    pub open spec fn put_cursor_spec(self, s: Seq<char>, pos: int, movement: Movement) -> TextRange {
        if movement == Movement::Extend {
            let anchor = self.extend_anchor_spec(s, pos);
            if anchor <= pos {
                TextRange {
                    anchor: anchor as usize,
                    head: if pos < s.len() {
                        (pos + 1) as usize
                    } else {
                        pos as usize
                    },
                }
            } else {
                TextRange { anchor: anchor as usize, head: pos as usize }
            }
        } else {
            TextRange { anchor: pos as usize, head: pos as usize }
        }
    }

    /// Place the cursor at `pos`, either moving the range there as a
    /// point or extending it around its anchor; when the head crosses
    /// the anchor, the anchor yields one character so the cursor stays
    /// covered.
    pub fn put_cursor(&self, text: &Vec<char>, pos: usize, movement: Movement) -> (r: TextRange)
        requires
            self.in_bounds(text@.len() as int),
            pos <= text@.len(),
        ensures
            r == self.put_cursor_spec(text@, pos as int, movement),
            r.in_bounds(text@.len() as int),
    {
        match movement {
            Movement::Extend => {
                let anchor: usize = if self.head >= self.anchor && pos < self.anchor {
                    if self.anchor < text.len() {
                        self.anchor + 1
                    } else {
                        self.anchor
                    }
                } else if self.head < self.anchor && pos >= self.anchor {
                    if self.anchor > 0 {
                        self.anchor - 1
                    } else {
                        0
                    }
                } else {
                    self.anchor
                };
                if anchor <= pos {
                    let head = if pos < text.len() {
                        pos + 1
                    } else {
                        pos
                    };
                    TextRange { anchor, head }
                } else {
                    TextRange { anchor, head: pos }
                }
            },
            Movement::Move => TextRange { anchor: pos, head: pos },
        }
    }

    /// The whole lines the range covers: from the start of its first
    /// line to the start of the line after its last.
    pub open spec fn line_extended_spec(self, s: Seq<char>) -> TextRange {
        let start = line_start(s, line_of(s, self.from_spec()));
        let end = line_start(s, self.last_line_spec(s) + 1);
        TextRange { anchor: start as usize, head: end as usize }
    }

    /// Extend the range to whole line bounds, separator included.
    pub fn extend_to_line_bounds(&self, text: &Vec<char>) -> (r: TextRange)
        requires
            self.in_bounds(text@.len() as int),
            text@.len() < usize::MAX,
        ensures
            r == self.line_extended_spec(text@),
            r.in_bounds(text@.len() as int),
            r.anchor <= r.head,
    {
        let (first, last) = self.line_range(text);
        let start = crate::text::line_to_char(text, first);
        let end = crate::text::line_to_char(text, last + 1);
        proof {
            let s = text@;
            crate::text::lemma_line_start_bounds(s, first as int);
            crate::text::lemma_line_start_bounds(s, last as int);
            crate::text::lemma_line_start_monotone(s, first as int, last + 1int);
            crate::text::lemma_position_in_its_line(s, self.from_spec());
            if self.from_spec() == self.to_spec() {
                crate::text::lemma_position_in_its_line(s, self.to_spec());
            } else {
                crate::text::lemma_position_in_its_line(s, self.to_spec() - 1);
            }
            crate::text::lemma_take_monotone_count(
                s,
                self.from_spec(),
                if self.from_spec() == self.to_spec() {
                    self.to_spec()
                } else {
                    self.to_spec() - 1
                },
            );
        }
        TextRange { anchor: start, head: end }
    }
}

} // verus!

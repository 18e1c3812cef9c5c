//! Line geometry over a text buffer.
//!
//! A document is a sequence of characters; lines are separated by `'\n'`.
//! As in the host editor's rope, a document has `count_newlines + 1`
//! lines: the text after the last separator is a final (possibly empty)
//! line.  All positions are character offsets.

use vstd::prelude::*;

verus! {

/// Number of `'\n'` characters in `s`.
pub open spec fn count_newlines(s: Seq<char>) -> int
    decreases s.len(),
{
    if s.len() == 0 {
        0
    } else {
        count_newlines(s.drop_last()) + if s.last() == '\n' {
            1int
        } else {
            0int
        }
    }
}

/// Number of lines of `s`: one more than the number of separators.
pub open spec fn num_lines(s: Seq<char>) -> int {
    count_newlines(s) + 1
}

/// The position just after the next `'\n'` at or after `p`, or the end
/// of the text when no separator follows.
pub open spec fn next_line_start(s: Seq<char>, p: int) -> int
    decreases s.len() - p,
{
    if p >= s.len() {
        s.len() as int
    } else if 0 <= p && s[p] == '\n' {
        p + 1
    } else {
        next_line_start(s, p + 1)
    }
}

/// Character offset of the start of line `l` (clamped to the end of the
/// text for line numbers past the last line).
pub open spec fn line_start(s: Seq<char>, l: int) -> int
    decreases l,
{
    if l <= 0 {
        0
    } else {
        next_line_start(s, line_start(s, l - 1))
    }
}

/// The line that holds position `p`.
pub open spec fn line_of(s: Seq<char>, p: int) -> int {
    count_newlines(s.take(p))
}

/// End of the content of line `l`: the offset of its `'\n'` when the
/// line has one, otherwise the end of the text.
pub open spec fn line_end(s: Seq<char>, l: int) -> int {
    let nxt = line_start(s, l + 1);
    if nxt > line_start(s, l) && nxt - 1 < s.len() && s[nxt - 1] == '\n' {
        nxt - 1
    } else {
        nxt
    }
}

/// A blank line: one that consists of its separator only.
pub open spec fn line_blank(s: Seq<char>, l: int) -> bool {
    line_start(s, l) < s.len() && s[line_start(s, l)] == '\n'
}

/// `next_line_start` never moves backwards and never leaves the text;
/// from inside the text it advances by at least one character.
pub proof fn lemma_next_line_start_bounds(s: Seq<char>, p: int)
    requires
        0 <= p <= s.len(),
    ensures
        p <= next_line_start(s, p) <= s.len(),
        p < s.len() ==> p + 1 <= next_line_start(s, p),
    decreases s.len() - p,
{
    if p < s.len() && s[p] != '\n' {
        lemma_next_line_start_bounds(s, p + 1);
    }
}

/// Between `p` and the position `next_line_start` finds there is no
/// separator, and the found position is either the end of the text or
/// sits just after a separator.
pub proof fn lemma_next_line_start_chars(s: Seq<char>, p: int)
    requires
        0 <= p <= s.len(),
    ensures
        forall|i: int| p <= i < next_line_start(s, p) - 1 ==> s[i] != '\n',
        next_line_start(s, p) == s.len() || s[next_line_start(s, p) - 1] == '\n',
    decreases s.len() - p,
{
    if p < s.len() && s[p] != '\n' {
        lemma_next_line_start_chars(s, p + 1);
        lemma_next_line_start_bounds(s, p + 1);
    }
}

/// Extending a prefix by one character adds that character's separator
/// count.
pub proof fn lemma_count_newlines_step(s: Seq<char>, i: int)
    requires
        0 <= i < s.len(),
    ensures
        count_newlines(s.take(i + 1)) == count_newlines(s.take(i)) + if s[i] == '\n' {
            1int
        } else {
            0int
        },
{
    let t = s.take(i + 1);
    assert(t.drop_last() =~= s.take(i));
    assert(t.last() == s[i]);
}

/// A stretch without separators does not change the newline count.
pub proof fn lemma_count_newlines_no_nl(s: Seq<char>, a: int, b: int)
    requires
        0 <= a <= b <= s.len(),
        forall|i: int| a <= i < b ==> s[i] != '\n',
    ensures
        count_newlines(s.take(b)) == count_newlines(s.take(a)),
    decreases b - a,
{
    if a < b {
        lemma_count_newlines_no_nl(s, a, b - 1);
        lemma_count_newlines_step(s, b - 1);
    }
}

/// Line starts are within the text and weakly increase with the line
/// number.
pub proof fn lemma_line_start_bounds(s: Seq<char>, l: int)
    requires
        0 <= l,
    ensures
        0 <= line_start(s, l) <= s.len(),
        line_start(s, l) <= line_start(s, l + 1),
    decreases l,
{
    if l == 0 {
        lemma_next_line_start_bounds(s, 0);
    } else {
        lemma_line_start_bounds(s, l - 1);
        lemma_next_line_start_bounds(s, line_start(s, l - 1));
        lemma_next_line_start_bounds(s, line_start(s, l));
    }
}

/// A text cannot hold more separators than characters.
pub proof fn lemma_count_newlines_nonneg(s: Seq<char>)
    ensures
        0 <= count_newlines(s) <= s.len(),
    decreases s.len(),
{
    if s.len() > 0 {
        lemma_count_newlines_nonneg(s.drop_last());
    }
}

/// Every position sits at or after the start of its own line, and
/// strictly before the start of the next one.
pub proof fn lemma_position_in_its_line(s: Seq<char>, p: int)
    requires
        0 <= p <= s.len(),
    ensures
        line_start(s, line_of(s, p)) <= p,
        p < s.len() ==> p < line_start(s, line_of(s, p) + 1),
        0 <= line_of(s, p),
    decreases p,
{
    assert(s.take(0) =~= Seq::<char>::empty());
    if p == 0 {
        assert(line_of(s, 0) == 0);
        if 0 < s.len() {
            lemma_next_line_start_bounds(s, 0);
            assert(line_start(s, 0) == 0);
            assert(line_start(s, 1) == next_line_start(s, 0));
            assert(line_start(s, 1) >= 1);
        }
    } else {
        lemma_position_in_its_line(s, p - 1);
        lemma_count_newlines_step(s, p - 1);
        let l0 = line_of(s, p - 1);
        lemma_line_start_bounds(s, l0);
        lemma_next_line_start_chars(s, line_start(s, l0));
        lemma_next_line_start_bounds(s, line_start(s, l0));
        if s[p - 1] == '\n' {
            // The previous position was the last of its line, so `p`
            // begins the next line.
            assert(line_of(s, p) == l0 + 1);
            assert(line_start(s, l0 + 1) == next_line_start(s, line_start(s, l0)));
            // `p - 1` is a separator inside line `l0`, so the scan from
            // the line start stops exactly at `p`.
            assert(line_start(s, l0 + 1) == p) by {
                let nxt = next_line_start(s, line_start(s, l0));
                // no separator strictly before nxt - 1, and p - 1 < nxt
                assert(p - 1 >= nxt - 1);
                assert(p - 1 <= nxt - 1);
            }
            if p < s.len() {
                lemma_next_line_start_bounds(s, p);
                assert(line_start(s, l0 + 2) == next_line_start(s, line_start(s, l0 + 1)));
            }
        } else {
            assert(line_of(s, p) == l0);
            if p < s.len() {
                // p < line_start(s, l0 + 1): otherwise p would equal it,
                // putting a separator at p - 1.
                let nxt = next_line_start(s, line_start(s, l0));
                if p == nxt {
                    assert(s[nxt - 1] == '\n' || nxt == s.len());
                    assert(false);
                }
            }
        }
    }
}

/// The start of a real line lies on that very line.
pub proof fn lemma_line_of_line_start(s: Seq<char>, l: int)
    requires
        0 <= l < num_lines(s),
    ensures
        line_of(s, line_start(s, l)) == l,
    decreases l,
{
    assert(s.take(0) =~= Seq::<char>::empty());
    if l > 0 {
        lemma_line_of_line_start(s, l - 1);
        let p = line_start(s, l - 1);
        let nxt = next_line_start(s, p);
        lemma_line_start_bounds(s, l - 1);
        lemma_next_line_start_bounds(s, p);
        lemma_next_line_start_chars(s, p);
        assert(s.take(s.len() as int) =~= s);
        if nxt == s.len() && (nxt == 0 || s[nxt - 1] != '\n') {
            // No further separator: line l - 1 is the last line,
            // contradicting l < num_lines.
            lemma_count_newlines_no_nl(s, p, nxt);
            assert(count_newlines(s) == l - 1);
            assert(false);
        } else {
            assert(s[nxt - 1] == '\n');
            lemma_count_newlines_no_nl(s, p, nxt - 1);
            lemma_count_newlines_step(s, nxt - 1);
            assert(count_newlines(s.take(nxt)) == l);
        }
    }
}

/// The line past the last one starts at the end of the text, as does
/// every later line number.
pub proof fn lemma_line_start_at_end(s: Seq<char>, l: int)
    requires
        l >= num_lines(s),
    ensures
        line_start(s, l) == s.len(),
    decreases l,
{
    lemma_count_newlines_nonneg(s);
    if l == num_lines(s) {
        let t = num_lines(s) - 1;
        lemma_line_of_line_start(s, t);
        let p = line_start(s, t);
        lemma_line_start_bounds(s, t);
        assert(s.take(s.len() as int) =~= s);
        let nxt = next_line_start(s, p);
        lemma_next_line_start_bounds(s, p);
        lemma_next_line_start_chars(s, p);
        if p < s.len() && (nxt < s.len() || s[nxt - 1] == '\n') {
            // A separator at nxt - 1 would start one more line than the
            // text has.
            assert(s[nxt - 1] == '\n');
            lemma_count_newlines_no_nl(s, p, nxt - 1);
            lemma_count_newlines_step(s, nxt - 1);
            lemma_take_monotone_count(s, nxt, s.len() as int);
            assert(false);
        }
    } else if l > num_lines(s) {
        lemma_line_start_at_end(s, l - 1);
        assert(next_line_start(s, s.len() as int) == s.len() as int);
    }
}

/// Newline counts grow with the prefix.
pub proof fn lemma_take_monotone_count(s: Seq<char>, a: int, b: int)
    requires
        0 <= a <= b <= s.len(),
    ensures
        count_newlines(s.take(a)) <= count_newlines(s.take(b)),
    decreases b - a,
{
    if a < b {
        lemma_take_monotone_count(s, a, b - 1);
        lemma_count_newlines_step(s, b - 1);
    }
}

/// Line starts weakly increase over any stretch of line numbers.
pub proof fn lemma_line_start_monotone(s: Seq<char>, a: int, b: int)
    requires
        0 <= a <= b,
    ensures
        line_start(s, a) <= line_start(s, b),
    decreases b - a,
{
    if a < b {
        lemma_line_start_monotone(s, a, b - 1);
        lemma_line_start_bounds(s, b - 1);
    }
}

/// A position between two consecutive line starts lies on that line.
pub proof fn lemma_line_of_in_range(s: Seq<char>, p: int, l: int)
    requires
        0 <= l,
        0 <= p < s.len(),
        line_start(s, l) <= p < line_start(s, l + 1),
    ensures
        line_of(s, p) == l,
{
    lemma_position_in_its_line(s, p);
    let lp = line_of(s, p);
    if lp < l {
        lemma_line_start_monotone(s, lp + 1, l);
        assert(false);
    } else if lp > l {
        lemma_line_start_monotone(s, l + 1, lp);
        assert(false);
    }
}

/// A position inside the text lies on a real line.
pub proof fn lemma_line_of_bounds(s: Seq<char>, p: int)
    requires
        0 <= p <= s.len(),
    ensures
        0 <= line_of(s, p) <= num_lines(s) - 1,
{
    assert(s.take(s.len() as int) =~= s);
    lemma_take_monotone_count(s, 0, p);
    lemma_take_monotone_count(s, p, s.len() as int);
    assert(s.take(0) =~= Seq::<char>::empty());
}

/// Position just after the next separator at or after `p`, or the end
/// of the text.
pub fn next_line_start_at(text: &Vec<char>, p: usize) -> (r: usize)
    requires
        p <= text.len(),
    ensures
        r == next_line_start(text@, p as int),
        p <= r <= text.len(),
{
    let mut i: usize = p;
    loop
        invariant
            p <= i <= text.len(),
            next_line_start(text@, p as int) == next_line_start(text@, i as int),
        decreases text.len() - i,
    {
        if i == text.len() {
            return i;
        }
        if text[i] == '\n' {
            return i + 1;
        }
        i = i + 1;
    }
}

/// Character offset of the start of line `line`; the end of the text
/// for line numbers past the last line.
pub fn line_to_char(text: &Vec<char>, line: usize) -> (r: usize)
    ensures
        r == line_start(text@, line as int),
        r <= text.len(),
{
    let mut l: usize = 0;
    let mut p: usize = 0;
    while l < line
        invariant
            l <= line,
            p == line_start(text@, l as int),
            p <= text.len(),
        decreases line - l,
    {
        p = next_line_start_at(text, p);
        l = l + 1;
    }
    p
}

/// The line that holds position `p`.
pub fn char_to_line(text: &Vec<char>, p: usize) -> (r: usize)
    requires
        p <= text.len(),
    ensures
        r as int == line_of(text@, p as int),
        r <= p,
{
    let mut i: usize = 0;
    let mut c: usize = 0;
    proof {
        assert(text@.take(0) =~= Seq::<char>::empty());
    }
    while i < p
        invariant
            i <= p <= text.len(),
            c <= i,
            c as int == count_newlines(text@.take(i as int)),
        decreases p - i,
    {
        proof {
            lemma_count_newlines_step(text@, i as int);
        }
        if text[i] == '\n' {
            c = c + 1;
        }
        i = i + 1;
    }
    c
}

/// Number of lines of the text.
pub fn len_lines(text: &Vec<char>) -> (r: usize)
    requires
        text.len() < usize::MAX,
    ensures
        r as int == num_lines(text@),
        r >= 1,
{
    proof {
        assert(text@.take(text@.len() as int) =~= text@);
        lemma_line_of_bounds(text@, text@.len() as int);
    }
    let c = char_to_line(text, text.len());
    c + 1
}

/// End of the content of line `line`: the offset of its separator when
/// it has one, otherwise the end of the text.
pub fn line_end_char_index(text: &Vec<char>, line: usize) -> (r: usize)
    requires
        line < usize::MAX,
    ensures
        r == line_end(text@, line as int),
        r <= text.len(),
{
    let start = line_to_char(text, line);
    let nxt = line_to_char(text, line + 1);
    proof {
        lemma_line_start_bounds(text@, line as int);
    }
    if nxt > start && text[nxt - 1] == '\n' {
        nxt - 1
    } else {
        nxt
    }
}

/// Whether line `line` consists of its separator only.
pub fn is_line_blank(text: &Vec<char>, line: usize) -> (r: bool)
    ensures
        r == line_blank(text@, line as int),
{
    let start = line_to_char(text, line);
    start < text.len() && text[start] == '\n'
}

/// The characters covered by `[from, to)`.
pub fn extract(text: &Vec<char>, from: usize, to: usize) -> (r: Vec<char>)
    requires
        from <= to <= text.len(),
    ensures
        r@ == text@.subrange(from as int, to as int),
{
    let mut r: Vec<char> = Vec::new();
    let mut i: usize = from;
    while i < to
        invariant
            from <= i <= to <= text.len(),
            r@ == text@.subrange(from as int, i as int),
        decreases to - i,
    {
        r.push(text[i]);
        proof {
            assert(text@.subrange(from as int, i + 1int) =~= text@.subrange(
                from as int,
                i as int,
            ).push(text@[i as int]));
        }
        i = i + 1;
    }
    r
}

} // verus!

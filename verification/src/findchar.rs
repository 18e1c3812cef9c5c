//! Find/till character scanning.
//!
//! A find motion scans from the cursor for the n-th occurrence of a
//! literal character and lands on it (find) or just before it (till);
//! backward variants scan toward the start of the text and land on or
//! just after the match.

use vstd::prelude::*;

verus! {

/// Position of the `n`-th occurrence of `ch` at or after `p`, or
/// `None` when fewer occur.
pub open spec fn find_nth_forward_spec(s: Seq<char>, p: int, ch: char, n: int) -> Option<int>
    decreases s.len() - p, n,
{
    if p < 0 || p >= s.len() || n <= 0 {
        None
    } else if s[p] == ch {
        if n == 1 {
            Some(p)
        } else {
            find_nth_forward_spec(s, p + 1, ch, n - 1)
        }
    } else {
        find_nth_forward_spec(s, p + 1, ch, n)
    }
}

/// Position of the `n`-th occurrence of `ch` strictly before `p`,
/// scanning backward.
pub open spec fn find_nth_backward_spec(s: Seq<char>, p: int, ch: char, n: int) -> Option<int>
    decreases p, n,
{
    if p <= 0 || p > s.len() || n <= 0 {
        None
    } else if s[p - 1] == ch {
        if n == 1 {
            Some(p - 1)
        } else {
            find_nth_backward_spec(s, p - 1, ch, n - 1)
        }
    } else {
        find_nth_backward_spec(s, p - 1, ch, n)
    }
}

pub proof fn lemma_find_forward_in_bounds(s: Seq<char>, p: int, ch: char, n: int)
    requires
        find_nth_forward_spec(s, p, ch, n) is Some,
    ensures
        p <= find_nth_forward_spec(s, p, ch, n)->0 < s.len(),
    decreases s.len() - p, n,
{
    if 0 <= p < s.len() && n > 0 {
        if s[p] == ch && n == 1 {
        } else if s[p] == ch {
            lemma_find_forward_in_bounds(s, p + 1, ch, n - 1);
        } else {
            lemma_find_forward_in_bounds(s, p + 1, ch, n);
        }
    }
}

pub proof fn lemma_find_backward_in_bounds(s: Seq<char>, p: int, ch: char, n: int)
    requires
        find_nth_backward_spec(s, p, ch, n) is Some,
    ensures
        0 <= find_nth_backward_spec(s, p, ch, n)->0 < p,
    decreases p, n,
{
    if 0 < p <= s.len() && n > 0 {
        if s[p - 1] == ch && n == 1 {
        } else if s[p - 1] == ch {
            lemma_find_backward_in_bounds(s, p - 1, ch, n - 1);
        } else {
            lemma_find_backward_in_bounds(s, p - 1, ch, n);
        }
    }
}

/// Scan forward for the `n`-th occurrence of `ch` at or after `p`.
pub fn find_nth_forward(text: &Vec<char>, p: usize, ch: char, n: usize) -> (r: Option<usize>)
    requires
        p <= text@.len(),
    ensures
        match r {
            Some(q) => Some(q as int) == find_nth_forward_spec(text@, p as int, ch, n as int),
            None => find_nth_forward_spec(text@, p as int, ch, n as int) is None,
        },
{
    let mut q: usize = p;
    let mut left: usize = n;
    if n == 0 {
        return None;
    }
    while q < text.len()
        invariant
            p <= q <= text@.len(),
            left >= 1,
            find_nth_forward_spec(text@, p as int, ch, n as int) == find_nth_forward_spec(
                text@,
                q as int,
                ch,
                left as int,
            ),
        decreases text@.len() - q,
    {
        if text[q] == ch {
            if left == 1 {
                return Some(q);
            }
            left = left - 1;
        }
        q = q + 1;
    }
    None
}

/// Scan backward for the `n`-th occurrence of `ch` strictly before `p`.
pub fn find_nth_backward(text: &Vec<char>, p: usize, ch: char, n: usize) -> (r: Option<usize>)
    requires
        p <= text@.len(),
    ensures
        match r {
            Some(q) => Some(q as int) == find_nth_backward_spec(text@, p as int, ch, n as int),
            None => find_nth_backward_spec(text@, p as int, ch, n as int) is None,
        },
{
    let mut q: usize = p;
    let mut left: usize = n;
    if n == 0 {
        return None;
    }
    while q > 0
        invariant
            q <= p <= text@.len(),
            left >= 1,
            find_nth_backward_spec(text@, p as int, ch, n as int) == find_nth_backward_spec(
                text@,
                q as int,
                ch,
                left as int,
            ),
        decreases q,
    {
        if text[q - 1] == ch {
            if left == 1 {
                return Some(q - 1);
            }
            left = left - 1;
        }
        q = q - 1;
    }
    None
}

} // verus!

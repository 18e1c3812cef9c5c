//! Atomic multi-range edits.
//!
//! A transaction is an ordered, non-overlapping list of changes, each
//! replacing a span of the original text with new content.  Applying a
//! transaction builds the new text in one pass; either all changes
//! apply or none does (construction cannot fail once the list is well
//! formed).

use vstd::prelude::*;

verus! {

/// Replace the characters of `[from, to)` with `insert`.
pub struct Change {
    pub from: usize,
    pub to: usize,
    pub insert: Vec<char>,
}

/// Changes in order, pairwise disjoint and within a text of `len`
/// characters.
pub open spec fn changes_wf(cs: Seq<Change>, len: int) -> bool {
    &&& forall|i: int| 0 <= i < cs.len() ==> (#[trigger] cs[i]).from <= cs[i].to <= len
    &&& forall|i: int| 0 <= i < cs.len() - 1 ==> (#[trigger] cs[i]).to <= cs[i + 1].from
}

/// The text that remains after the changes at and after position `pos`,
/// with `cs` the changes not yet applied.
pub open spec fn apply_from(s: Seq<char>, cs: Seq<Change>, pos: int) -> Seq<char>
    decreases cs.len(),
{
    if cs.len() == 0 {
        s.skip(pos)
    } else {
        s.subrange(pos, cs[0].from as int) + cs[0].insert@ + apply_from(
            s,
            cs.drop_first(),
            cs[0].to as int,
        )
    }
}

/// The whole text after all the changes.
pub open spec fn apply_changes_spec(s: Seq<char>, cs: Seq<Change>) -> Seq<char> {
    apply_from(s, cs, 0)
}

/// Total width removed by the changes.
pub open spec fn deleted_len(cs: Seq<Change>) -> int
    decreases cs.len(),
{
    if cs.len() == 0 {
        0
    } else {
        (cs[0].to - cs[0].from) + deleted_len(cs.drop_first())
    }
}

/// Total width inserted by the changes.
pub open spec fn inserted_len(cs: Seq<Change>) -> int
    decreases cs.len(),
{
    if cs.len() == 0 {
        0
    } else {
        cs[0].insert@.len() + inserted_len(cs.drop_first())
    }
}

/// Width removed by the first `i` changes.
pub open spec fn deleted_before(cs: Seq<Change>, i: int) -> int {
    deleted_len(cs.take(i))
}

pub proof fn lemma_deleted_len_step(cs: Seq<Change>, i: int)
    requires
        0 <= i < cs.len(),
    ensures
        deleted_len(cs.take(i + 1)) == deleted_len(cs.take(i)) + (cs[i].to - cs[i].from),
        inserted_len(cs.take(i + 1)) == inserted_len(cs.take(i)) + cs[i].insert@.len(),
    decreases i,
{
    if i == 0 {
        assert(cs.take(1) =~= seq![cs[0]]);
        assert(cs.take(1).drop_first() =~= cs.take(0));
        assert(cs.take(0) =~= Seq::<Change>::empty());
    } else {
        lemma_deleted_len_step(cs.drop_first(), i - 1);
        assert(cs.take(i + 1).drop_first() =~= cs.drop_first().take(i));
        assert(cs.take(i).drop_first() =~= cs.drop_first().take(i - 1));
        assert(cs.drop_first()[i - 1] == cs[i]);
    }
}

/// The width removed before change `i` never exceeds that change's
/// start, so mapped positions stay nonnegative.
pub proof fn lemma_deleted_before_le(cs: Seq<Change>, len: int, i: int)
    requires
        changes_wf(cs, len),
        0 <= i < cs.len(),
    ensures
        deleted_before(cs, i) <= cs[i].from,
        deleted_before(cs, i) >= 0,
    decreases i,
{
    if i == 0 {
        assert(cs.take(0) =~= Seq::<Change>::empty());
    } else {
        lemma_deleted_before_le(cs, len, i - 1);
        lemma_deleted_len_step(cs, i - 1);
    }
}

/// Length of the text after the pending changes: the tail of the
/// original, shrunk by what the changes remove and grown by what they
/// insert.
pub proof fn lemma_apply_from_len(s: Seq<char>, cs: Seq<Change>, pos: int)
    requires
        changes_wf(cs, s.len() as int),
        0 <= pos <= s.len(),
        cs.len() > 0 ==> pos <= cs[0].from,
    ensures
        apply_from(s, cs, pos).len() == (s.len() - pos) - deleted_len(cs) + inserted_len(cs),
    decreases cs.len(),
{
    if cs.len() > 0 {
        assert(changes_wf(cs.drop_first(), s.len() as int)) by {
            assert(forall|i: int|
                0 <= i < cs.drop_first().len() ==> cs.drop_first()[i] == cs[i + 1]);
        }
        lemma_apply_from_len(s, cs.drop_first(), cs[0].to as int);
    }
}

/// Append the characters of `[a, b)` of `text` to `out`.
fn copy_stretch(out: &mut Vec<char>, text: &Vec<char>, a: usize, b: usize)
    requires
        a <= b <= text@.len(),
    ensures
        final(out)@ == old(out)@ + text@.subrange(a as int, b as int),
{
    let ghost start = out@;
    let mut p: usize = a;
    proof {
        assert(start + text@.subrange(a as int, a as int) =~= start);
    }
    while p < b
        invariant
            a <= p <= b <= text@.len(),
            out@ == start + text@.subrange(a as int, p as int),
        decreases b - p,
    {
        out.push(text[p]);
        proof {
            assert(text@.subrange(a as int, p + 1int) =~= text@.subrange(a as int, p as int).push(
                text@[p as int],
            ));
        }
        p = p + 1;
    }
}

/// Append all of `src` to `out`.
fn append_all(out: &mut Vec<char>, src: &Vec<char>)
    ensures
        final(out)@ == old(out)@ + src@,
{
    copy_stretch(out, src, 0, src.len());
    proof {
        assert(src@.subrange(0, src@.len() as int) =~= src@);
    }
}

/// Apply the changes, producing the new text.
pub fn apply_changes(text: &Vec<char>, changes: &Vec<Change>) -> (out: Vec<char>)
    requires
        changes_wf(changes@, text@.len() as int),
    ensures
        out@ == apply_changes_spec(text@, changes@),
{
    let mut out: Vec<char> = Vec::new();
    let mut prev: usize = 0;
    let mut i: usize = 0;
    proof {
        assert(changes@.skip(0) =~= changes@);
        assert(out@ + apply_from(text@, changes@, 0) =~= apply_from(text@, changes@, 0));
    }
    while i < changes.len()
        invariant
            changes_wf(changes@, text@.len() as int),
            i <= changes.len(),
            prev <= text@.len(),
            i < changes.len() ==> prev <= changes@[i as int].from,
            out@ + apply_from(text@, changes@.skip(i as int), prev as int) == apply_changes_spec(
                text@,
                changes@,
            ),
        decreases changes.len() - i,
    {
        let c_from = changes[i].from;
        let c_to = changes[i].to;
        let ghost out_start = out@;
        proof {
            let cs = changes@;
            assert(cs.skip(i as int)[0] == cs[i as int]);
            assert(cs.skip(i as int).drop_first() =~= cs.skip(i + 1int));
        }
        copy_stretch(&mut out, text, prev, c_from);
        append_all(&mut out, &changes[i].insert);
        proof {
            let cs = changes@;
            assert(apply_from(text@, cs.skip(i as int), prev as int) == text@.subrange(
                prev as int,
                cs[i as int].from as int,
            ) + cs[i as int].insert@ + apply_from(text@, cs.skip(i + 1int), cs[i as int].to as int));
            assert(out@ + apply_from(text@, cs.skip(i + 1int), cs[i as int].to as int)
                =~= out_start + apply_from(text@, cs.skip(i as int), prev as int));
        }
        prev = c_to;
        i = i + 1;
    }
    copy_stretch(&mut out, text, prev, text.len());
    proof {
        assert(changes@.skip(changes@.len() as int) =~= Seq::<Change>::empty());
        assert(text@.subrange(prev as int, text@.len() as int) =~= text@.skip(prev as int));
    }
    out
}

} // verus!

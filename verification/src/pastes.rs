//! Replacing transactions: paste and replace-selection.
//!
//! One engine commits a list of replacements — each a span of the old
//! text and its new content — in a single atomic edit, records the
//! prior state for undo, and leaves a forward range over each piece of
//! inserted content.

use vstd::prelude::*;
use crate::editor::Editor;
use crate::edits::{
    apply_changes_spec, changes_wf, deleted_len, inserted_len, Change,
};
use crate::range::TextRange;
use crate::selection::Selection;

verus! {

/// Where the start of change `i` lands in the new text.
pub open spec fn mapped_start(cs: Seq<Change>, i: int) -> int {
    cs[i].from + inserted_len(cs.take(i)) - deleted_len(cs.take(i))
}

proof fn lemma_prefix_sums_step(cs: Seq<Change>, i: int)
    requires
        0 <= i < cs.len(),
    ensures
        deleted_len(cs.take(i + 1)) == deleted_len(cs.take(i)) + (cs[i].to - cs[i].from),
        inserted_len(cs.take(i + 1)) == inserted_len(cs.take(i)) + cs[i].insert@.len(),
{
    crate::edits::lemma_deleted_len_step(cs, i);
}

proof fn lemma_prefix_nonneg(cs: Seq<Change>, i: int)
    requires
        0 <= i <= cs.len(),
        forall|j: int| 0 <= j < cs.len() ==> (#[trigger] cs[j]).from <= cs[j].to,
    ensures
        inserted_len(cs.take(i)) >= 0,
        deleted_len(cs.take(i)) >= 0,
    decreases i,
{
    if i == 0 {
        assert(cs.take(0) =~= Seq::<Change>::empty());
        assert(inserted_len(Seq::<Change>::empty()) == 0);
        assert(deleted_len(Seq::<Change>::empty()) == 0);
    } else {
        lemma_prefix_nonneg(cs, i - 1);
        lemma_prefix_sums_step(cs, i - 1);
    }
}

/// What the changes at and after `i` remove fits between that change's
/// start and the end of the text.
proof fn lemma_deleted_suffix(cs: Seq<Change>, len: int, i: int)
    requires
        changes_wf(cs, len),
        0 <= i < cs.len(),
    ensures
        deleted_len(cs) - deleted_len(cs.take(i)) <= len - cs[i].from,
    decreases cs.len() - i,
{
    if i == cs.len() - 1 {
        assert(cs.take(i + 1) =~= cs);
        lemma_prefix_sums_step(cs, i);
    } else {
        lemma_deleted_suffix(cs, len, i + 1);
        lemma_prefix_sums_step(cs, i);
    }
}

/// Inserted widths only grow with the prefix.
proof fn lemma_inserted_prefix_le(cs: Seq<Change>, i: int)
    requires
        0 <= i <= cs.len(),
    ensures
        inserted_len(cs.take(i)) <= inserted_len(cs),
    decreases cs.len() - i,
{
    if i == cs.len() {
        assert(cs.take(i) =~= cs);
    } else {
        lemma_inserted_prefix_le(cs, i + 1);
        lemma_prefix_sums_step(cs, i);
    }
}

/// Every replacement's landing range fits in the new text.
proof fn lemma_mapped_bounds(cs: Seq<Change>, len: int, i: int)
    requires
        changes_wf(cs, len),
        0 <= i < cs.len(),
    ensures
        0 <= mapped_start(cs, i),
        mapped_start(cs, i) + cs[i].insert@.len() <= len - deleted_len(cs) + inserted_len(cs),
        deleted_len(cs.take(i)) <= cs[i].from,
{
    crate::edits::lemma_deleted_before_le(cs, len, i);
    lemma_prefix_nonneg(cs, i);
    lemma_deleted_suffix(cs, len, i);
    lemma_inserted_prefix_le(cs, i + 1);
    lemma_prefix_sums_step(cs, i);
}

/// Landing ranges come in order.
proof fn lemma_mapped_ordered(cs: Seq<Change>, len: int, a: int, b: int)
    requires
        changes_wf(cs, len),
        0 <= a < b < cs.len(),
    ensures
        mapped_start(cs, a) + cs[a].insert@.len() <= mapped_start(cs, b),
    decreases b - a,
{
    if b == a + 1 {
        lemma_prefix_sums_step(cs, a);
        assert(cs[a].to <= cs[b].from);
    } else {
        lemma_mapped_ordered(cs, len, a, b - 1);
        lemma_mapped_ordered(cs, len, b - 1, b);
        lemma_prefix_nonneg(cs, b - 1);
    }
}

/// Commit the replacements as one atomic edit: the text each change
/// covers is replaced by its content, the prior buffer state is
/// recorded for undo, and the selection becomes one forward range over
/// each inserted content.
#[verifier::rlimit(80)]
pub fn commit_replacements(ed: &mut Editor, changes: Vec<Change>, primary: usize)
    requires
        old(ed).wf(),
        changes_wf(changes@, old(ed).text@.len() as int),
        changes@.len() > 0,
        primary < changes@.len(),
        old(ed).text@.len() - deleted_len(changes@) + inserted_len(changes@) < usize::MAX,
    ensures
        final(ed).wf(),
        *final(ed) == (Editor {
            text: final(ed).text,
            selection: final(ed).selection,
            history: final(ed).history,
            ..*old(ed)
        }),
        final(ed).text@ == apply_changes_spec(old(ed).text@, changes@),
        final(ed).selection.ranges@.len() == changes@.len(),
        forall|i: int|
            0 <= i < changes@.len() ==> (#[trigger] final(ed).selection.ranges@[i]) == (TextRange {
                anchor: mapped_start(changes@, i) as usize,
                head: (mapped_start(changes@, i) + changes@[i].insert@.len()) as usize,
            }),
        final(ed).selection.primary_index == primary,
        final(ed).history@.len() == old(ed).history@.len() + 1,
        final(ed).history@.last().text@ == old(ed).text@,
        final(ed).history@.last().selection.ranges@ == old(ed).selection.ranges@,
    {
    let ghost s = ed.text@;
    ed.snapshot();
    let new_text = crate::edits::apply_changes(&ed.text, &changes);
    proof {
        crate::edits::lemma_apply_from_len(s, changes@, 0);
    }
    let mut ranges: Vec<TextRange> = Vec::new();
    let mut del: usize = 0;
    let mut ins: usize = 0;
    let mut i: usize = 0;
    proof {
        assert(changes@.take(0) =~= Seq::<Change>::empty());
        assert(inserted_len(Seq::<Change>::empty()) == 0);
        assert(deleted_len(Seq::<Change>::empty()) == 0);
        lemma_prefix_nonneg(changes@, changes@.len() as int);
        assert(changes@.take(changes@.len() as int) =~= changes@);
    }
    while i < changes.len()
        invariant
            changes_wf(changes@, s.len() as int),
            s.len() < usize::MAX,
            s.len() - deleted_len(changes@) + inserted_len(changes@) < usize::MAX,
            i <= changes@.len(),
            ranges@.len() == i,
            del as int == deleted_len(changes@.take(i as int)),
            ins as int == inserted_len(changes@.take(i as int)),
            ins as int <= inserted_len(changes@),
            forall|j: int|
                0 <= j < i ==> (#[trigger] ranges@[j]) == (TextRange {
                    anchor: mapped_start(changes@, j) as usize,
                    head: (mapped_start(changes@, j) + changes@[j].insert@.len()) as usize,
                }),
        decreases changes.len() - i,
    {
        proof {
            lemma_mapped_bounds(changes@, s.len() as int, i as int);
            lemma_prefix_sums_step(changes@, i as int);
            lemma_inserted_prefix_le(changes@, i + 1int);
        }
        let c_from = changes[i].from;
        let c_to = changes[i].to;
        let c_ins = changes[i].insert.len();
        let start = c_from - del + ins;
        ranges.push(TextRange { anchor: start, head: start + c_ins });
        del = del + (c_to - c_from);
        ins = ins + c_ins;
        i = i + 1;
    }
    proof {
        let cs = changes@;
        let new_len = s.len() - deleted_len(cs) + inserted_len(cs);
        assert(cs.take(cs.len() as int) =~= cs);
        assert forall|a: int, b: int| 0 <= a < b < ranges@.len() implies ranges@[a].to_spec()
            <= ranges@[b].from_spec() by {
            lemma_mapped_ordered(cs, s.len() as int, a, b);
            lemma_mapped_bounds(cs, s.len() as int, a);
            lemma_mapped_bounds(cs, s.len() as int, b);
        }
        assert forall|j: int| 0 <= j < ranges@.len() implies (#[trigger] ranges@[j]).in_bounds(
            new_len,
        ) by {
            lemma_mapped_bounds(cs, s.len() as int, j);
        }
    }
    ed.text = new_text;
    ed.selection = Selection { ranges, primary_index: primary };
}

} // verus!

//! The computing side of shell filters.
//!
//! Running the configured shell is the embedding program's work; what
//! belongs here is what the filter does with the bytes: trimming the
//! trailing separator the process added, and replacing each selected
//! span with the process output in one atomic edit that either fully
//! applies or leaves the buffer untouched.

use vstd::prelude::*;
use crate::editor::Editor;

verus! {

/// What trimming leaves: when the input did not end with a line break
/// but the output does, the added break (and a carriage return before
/// it) goes.
pub open spec fn trimmed_output_spec(input_ends_nl: bool, out: Seq<char>) -> Seq<char> {
    if !input_ends_nl && out.len() > 0 && out.last() == '\n' {
        let o = out.drop_last();
        if o.len() > 0 && o.last() == '\r' {
            o.drop_last()
        } else {
            o
        }
    } else {
        out
    }
}

/// Trim the line break a filter added to output for input that had
/// none.
pub fn trim_shell_output(input_ends_nl: bool, output: Vec<char>) -> (r: Vec<char>)
    ensures
        r@ == trimmed_output_spec(input_ends_nl, output@),
{
    let mut output = output;
    if !input_ends_nl && output.len() > 0 && output[output.len() - 1] == '\n' {
        let _ = output.pop();
        if output.len() > 0 && output[output.len() - 1] == '\r' {
            let _ = output.pop();
        }
    }
    output
}

/// Replace every selected span with the filter's output, cycling when
/// fewer outputs than ranges were produced.  The edit is atomic: when
/// the result would not fit an addressable buffer nothing changes.
pub fn shell_replace_selection(ed: &mut Editor, outputs: &Vec<Vec<char>>)
    requires
        old(ed).wf(),
        outputs@.len() > 0,
    ensures
        final(ed).wf(),
        (old(ed).selection.ranges@.len() == 1 && outputs@[0]@.len() + old(ed).text@.len()
            < usize::MAX) ==> final(ed).text@ == ({
            let r = old(ed).selection.ranges@[0];
            old(ed).text@.take(r.from_spec()) + outputs@[0]@ + old(ed).text@.skip(r.to_spec())
        }),
        // the selection lands as one forward range over the output
        (old(ed).selection.ranges@.len() == 1 && outputs@[0]@.len() + old(ed).text@.len()
            < usize::MAX) ==> final(ed).selection.ranges@ == ({
            let r = old(ed).selection.ranges@[0];
            seq![
                crate::range::TextRange {
                    anchor: r.from_spec() as usize,
                    head: (r.from_spec() + outputs@[0]@.len()) as usize,
                },
            ]
        }),
{
    let ghost s = ed.text@;
    let built = crate::commands::build_replacement_changes(&ed.text, &ed.selection, outputs);
    let (changes, total) = match built {
        Some(out) => out,
        None => {
            return ;
        },
    };
    if changes.len() == 0 {
        return ;
    }
    proof {
        if changes@.len() == 1 {
            assert(changes@.drop_first() =~= Seq::<crate::edits::Change>::empty());
            assert(crate::edits::inserted_len(changes@) == changes@[0].insert@.len()
                + crate::edits::inserted_len(changes@.drop_first()));
        }
    }
    if total >= usize::MAX - ed.text.len() {
        return ;
    }
    proof {
        crate::commands::lemma_changes_deleted_nonneg(changes@);
        assert(s.len() - crate::edits::deleted_len(changes@) + crate::edits::inserted_len(changes@)
            < usize::MAX);
    }
    let primary = if ed.selection.primary_index < changes.len() {
        ed.selection.primary_index
    } else {
        0
    };
    let ghost cs = changes@;
    crate::pastes::commit_replacements(ed, changes, primary);
    proof {
        if cs.len() == 1 {
            // one replacement: the new text is the old one with the
            // span swapped for the output
            let a = cs[0].from as int;
            let b = cs[0].to as int;
            assert(cs.drop_first() =~= Seq::<crate::edits::Change>::empty());
            assert(crate::edits::apply_from(s, cs.drop_first(), b) == s.skip(b));
            assert(crate::edits::apply_changes_spec(s, cs) == s.subrange(0, a) + cs[0].insert@
                + s.skip(b));
            assert(s.subrange(0, a) =~= s.take(a));
            assert(cs.take(0) =~= Seq::<crate::edits::Change>::empty());
            assert(crate::pastes::mapped_start(cs, 0) == a);
            assert(ed.selection.ranges@ =~= seq![
                crate::range::TextRange {
                    anchor: a as usize,
                    head: (a + cs[0].insert@.len()) as usize,
                },
            ]);
        }
    }
}

/// Replace one explicit span with a filter's output, in one recorded
/// edit; the selection becomes a single point at the prior position,
/// clamped to the output's length.
pub fn shell_replace_range(
    ed: &mut Editor,
    range: &crate::range::TextRange,
    prev_from: usize,
    output: &Vec<char>,
)
    requires
        old(ed).wf(),
        range.in_bounds(old(ed).text@.len() as int),
        old(ed).text@.len() + output@.len() < usize::MAX,
    ensures
        final(ed).wf(),
        final(ed).text@ == old(ed).text@.take(range.from_spec()) + output@ + old(ed).text@.skip(
            range.to_spec(),
        ),
        final(ed).selection.ranges@ == ({
            let p = if prev_from <= output@.len() {
                prev_from as int
            } else {
                output@.len() as int
            };
            seq![crate::range::TextRange { anchor: p as usize, head: p as usize }]
        }),
        final(ed).history@.len() == old(ed).history@.len() + 1,
        final(ed).history@.last().text@ == old(ed).text@,
        *final(ed) == (Editor {
            text: final(ed).text,
            selection: final(ed).selection,
            history: final(ed).history,
            ..*old(ed)
        }),
{
    let ghost s = ed.text@;
    let value = crate::registers::duplicate_chars(output);
    let vlen = value.len();
    let mut changes: Vec<crate::edits::Change> = Vec::new();
    changes.push(crate::edits::Change { from: range.from(), to: range.to(), insert: value });
    proof {
        let cs = changes@;
        assert(cs.drop_first() =~= Seq::<crate::edits::Change>::empty());
        assert(cs.take(0) =~= Seq::<crate::edits::Change>::empty());
        assert(crate::edits::inserted_len(cs) == cs[0].insert@.len()
            + crate::edits::inserted_len(cs.drop_first()));
        assert(crate::edits::deleted_len(cs) == (cs[0].to - cs[0].from)
            + crate::edits::deleted_len(cs.drop_first()));
    }
    let ghost cs = changes@;
    crate::pastes::commit_replacements(ed, changes, 0);
    proof {
        let a = cs[0].from as int;
        let b = cs[0].to as int;
        assert(crate::edits::apply_from(s, cs.drop_first(), b) == s.skip(b));
        assert(crate::edits::apply_changes_spec(s, cs) == s.subrange(0, a) + cs[0].insert@ + s.skip(
            b,
        ));
        assert(s.subrange(0, a) =~= s.take(a));
    }
    let p = if prev_from <= vlen {
        prev_from
    } else {
        vlen
    };
    proof {
        assert(ed.text@.len() >= vlen);
    }
    ed.selection = crate::selection::Selection::point(p);
}

} // verus!

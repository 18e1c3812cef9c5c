use vim_modal::editor::{Editor, Mode, StatusMsg};
use vim_modal::edits::{apply_changes, Change};
use vim_modal::motions;
use vim_modal::operator::full_line_range;
use vim_modal::range::{Direction, Movement, TextRange};
use vim_modal::registers::Registers;
use vim_modal::selection::Selection;
use vim_modal::shellcalc::{shell_replace_range, shell_replace_selection, trim_shell_output};
use vim_modal::state::ModalSessionState;
use vim_modal::text;

fn chars(s: &str) -> Vec<char> {
    s.chars().collect()
}

fn string_of(v: &[char]) -> String {
    v.iter().collect()
}

#[test]
fn line_geometry_of_small_document() {
    let t = chars("foo\nbar baz\n\nqux\n");
    assert_eq!(text::len_lines(&t), 5);
    assert_eq!(text::line_to_char(&t, 0), 0);
    assert_eq!(text::line_to_char(&t, 1), 4);
    assert_eq!(text::line_to_char(&t, 2), 12);
    assert_eq!(text::line_to_char(&t, 3), 13);
    assert_eq!(text::line_to_char(&t, 4), 17);
    assert_eq!(text::char_to_line(&t, 0), 0);
    assert_eq!(text::char_to_line(&t, 5), 1);
    assert_eq!(text::char_to_line(&t, 12), 2);
    assert_eq!(text::line_end_char_index(&t, 0), 3);
    assert_eq!(text::line_end_char_index(&t, 1), 11);
    assert!(text::is_line_blank(&t, 2));
    assert!(!text::is_line_blank(&t, 0));
    assert!(!text::is_line_blank(&t, 4));
}

#[test]
fn full_line_selection_covers_whole_lines() {
    // two lines from a cursor on the first: with separators the span
    // is both lines entire; without, the last separator stays out
    let t = chars("ab\ncd\nef\n");
    let r = TextRange { anchor: 0, head: 0 };
    let with_nl = full_line_range(&t, &r, 2, true);
    assert_eq!((with_nl.from(), with_nl.to()), (0, 6));
    assert_eq!(with_nl.len(), "ab\ncd\n".len());
    let without_nl = full_line_range(&t, &r, 2, false);
    assert_eq!((without_nl.from(), without_nl.to()), (0, 5));
}

#[test]
fn full_line_selection_clamps_at_document_end() {
    let t = chars("ab\ncd\n");
    let r = TextRange { anchor: 4, head: 4 };
    let with_nl = full_line_range(&t, &r, 9, true);
    assert_eq!((with_nl.from(), with_nl.to()), (3, 6));
}

#[test]
fn apply_changes_replaces_spans_atomically() {
    let t = chars("hello world");
    let cs = vec![
        Change { from: 0, to: 5, insert: chars("bye") },
        Change { from: 6, to: 11, insert: chars("moon") },
    ];
    let out = apply_changes(&t, &cs);
    assert_eq!(string_of(&out), "bye moon");
}

#[test]
fn registers_write_push_and_first() {
    let mut regs = Registers::new();
    regs.write('a', vec![chars("one"), chars("two")]);
    let values = regs.read('a').unwrap();
    assert_eq!(string_of(&values[0]), "one");
    assert_eq!(string_of(&values[1]), "two");
    regs.push('a', chars("zero"));
    assert_eq!(string_of(&regs.first('a').unwrap()), "zero");
    assert!(regs.read('b').is_none());
    regs.write('a', vec![chars("fresh")]);
    assert_eq!(regs.read('a').unwrap().len(), 1);
}

#[test]
fn yank_reports_fragment_count_and_register() {
    let mut ed = Editor::new(chars("one two\n"), 1);
    ed.mode = Mode::Select;
    ed.selection = Selection::single(TextRange { anchor: 0, head: 3 });
    vim_modal::commands::vim_yank(&mut ed);
    assert_eq!(ed.status, Some(StatusMsg::YankedSelections { count: 1, register: '"' }));
}

#[test]
fn yank_to_clipboard_register() {
    let mut ed = Editor::new(chars("one two\n"), 1);
    ed.mode = Mode::Select;
    ed.selection = Selection::single(TextRange { anchor: 0, head: 3 });
    vim_modal::commands::vim_yank_to_clipboard(&mut ed);
    let values = ed.registers.read('+').unwrap();
    assert_eq!(string_of(&values[0]), "one");
}

#[test]
fn overlapping_cursors_merge_on_line_extension() {
    // two cursors on one line extend to the same whole line and merge
    let mut ed = Editor::new(chars("one two\nxx\n"), 1);
    ed.selection = Selection {
        ranges: vec![TextRange { anchor: 1, head: 1 }, TextRange { anchor: 5, head: 5 }],
        primary_index: 0,
    };
    vim_modal::commands::extend_to_line_bounds(&mut ed);
    assert_eq!(ed.selection.ranges.len(), 1);
    assert_eq!((ed.selection.ranges[0].from(), ed.selection.ranges[0].to()), (0, 8));
}

#[test]
fn word_motions_on_mixed_text() {
    let t = chars("foo bar-baz  qux\n");
    assert_eq!(motions::next_word_start(&t, 0, false), 4);
    assert_eq!(motions::next_word_start(&t, 4, false), 7);
    assert_eq!(motions::next_word_start(&t, 4, true), 13);
    assert_eq!(motions::prev_word_start(&t, 13, false), 8);
    assert_eq!(motions::next_word_end(&t, 0, false), 2);
    assert_eq!(motions::next_word_end(&t, 2, false), 6);
    let w = motions::word_object(&t, 5, false, false);
    assert_eq!((w.anchor, w.head), (4, 7));
    let around = motions::word_object(&t, 13, true, false);
    assert_eq!((around.anchor, around.head), (13, 17));
}

#[test]
fn vertical_move_clamps_to_shorter_line() {
    let t = chars("abcdef\nxy\nlonger\n");
    let r = TextRange { anchor: 5, head: 5 };
    let down = motions::move_vertically(&t, &r, Direction::Forward, Movement::Move);
    // column five does not exist on "xy"; the cursor lands at its end
    assert_eq!((down.anchor, down.head), (9, 9));
}

#[test]
fn trim_shell_output_strips_added_line_break() {
    assert_eq!(string_of(&trim_shell_output(false, chars("out\n"))), "out");
    assert_eq!(string_of(&trim_shell_output(false, chars("out\r\n"))), "out");
    assert_eq!(string_of(&trim_shell_output(true, chars("out\n"))), "out\n");
    assert_eq!(string_of(&trim_shell_output(false, chars("out"))), "out");
}

#[test]
fn shell_replacement_swaps_selection_for_output() {
    let mut ed = Editor::new(chars("one two three\n"), 1);
    ed.selection = Selection::single(TextRange { anchor: 4, head: 7 });
    shell_replace_selection(&mut ed, &vec![chars("TWO")]);
    assert_eq!(string_of(&ed.text), "one TWO three\n");
    assert_eq!((ed.selection.ranges[0].from(), ed.selection.ranges[0].to()), (4, 7));
    ed.undo();
    assert_eq!(string_of(&ed.text), "one two three\n");
}

#[test]
fn shell_replacement_with_growing_output_shifts_later_ranges() {
    let mut ed = Editor::new(chars("aa bb\n"), 1);
    ed.selection = Selection {
        ranges: vec![TextRange { anchor: 0, head: 2 }, TextRange { anchor: 3, head: 5 }],
        primary_index: 0,
    };
    shell_replace_selection(&mut ed, &vec![chars("xxxx"), chars("y")]);
    assert_eq!(string_of(&ed.text), "xxxx y\n");
    assert_eq!((ed.selection.ranges[1].from(), ed.selection.ranges[1].to()), (5, 6));
}

#[test]
fn shell_explicit_range_clamps_cursor_to_output() {
    // replacing a given span leaves a single point at the prior
    // position, clamped to the output's length
    let mut ed = Editor::new(chars("one two three\n"), 1);
    ed.selection = Selection::single(TextRange { anchor: 4, head: 7 });
    shell_replace_range(&mut ed, &TextRange { anchor: 4, head: 7 }, 9, &chars("x"));
    assert_eq!(string_of(&ed.text), "one x three\n");
    assert_eq!(ed.selection.ranges[0], TextRange { anchor: 1, head: 1 });
    shell_replace_range(&mut ed, &TextRange { anchor: 0, head: 3 }, 2, &chars("zero"));
    assert_eq!(string_of(&ed.text), "zero x three\n");
    assert_eq!(ed.selection.ranges[0], TextRange { anchor: 2, head: 2 });
}

#[test]
fn after_paste_start_pos_prefers_line_start_at_line_end() {
    let mut st = ModalSessionState::new();
    let t = chars("ab\ncd\n");
    let at_end = TextRange { anchor: 2, head: 3 };
    // without the modal paste flavour the paste lands at the range end
    assert_eq!(vim_modal::commands::after_paste_start_pos(&st, &t, &at_end), 3);
    st.set_vim_paste(true);
    // the cursor sits on the line's separator, so the paste starts at
    // the range's beginning
    assert_eq!(vim_modal::commands::after_paste_start_pos(&st, &t, &at_end), 2);
    let mid = TextRange { anchor: 0, head: 1 };
    assert_eq!(vim_modal::commands::after_paste_start_pos(&st, &t, &mid), 1);
}

#[test]
fn paste_before_inserts_at_range_start() {
    let mut ed = Editor::new(chars("world\n"), 1);
    ed.registers.write('"', vec![chars("hello ")]);
    ed.selection = Selection::point(0);
    vim_modal::commands::vim_paste_before(&mut ed);
    assert_eq!(string_of(&ed.text), "hello world\n");
}

#[test]
fn status_messages_have_fixed_text() {
    assert_eq!(StatusMsg::NoStringUnderCursor.message(), "No string under cursor");
}

#[test]
fn selection_line_range_spans_cursor_lines() {
    let mut ed = Editor::new(chars("aa\nbb\ncc\n"), 1);
    ed.selection = Selection {
        ranges: vec![TextRange { anchor: 0, head: 1 }, TextRange { anchor: 6, head: 7 }],
        primary_index: 0,
    };
    assert_eq!(vim_modal::commands::selection_line_range(&ed), (0, 2));
}

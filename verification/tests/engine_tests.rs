use vim_modal::commands;
use vim_modal::editor::{Editor, KeyEvent, Mode};
use vim_modal::keys::handle_pending_key;
use vim_modal::operator::PendingInput;
use vim_modal::range::TextRange;
use vim_modal::selection::Selection;

fn chars(s: &str) -> Vec<char> {
    s.chars().collect()
}

fn string_of(v: &[char]) -> String {
    v.iter().collect()
}

fn editor(text: &str) -> Editor {
    Editor::new(chars(text), 1)
}

fn set_cursor(ed: &mut Editor, pos: usize) {
    ed.selection = Selection::point(pos);
}

fn read_register(ed: &Editor, name: char) -> Vec<String> {
    ed.registers
        .read(name)
        .unwrap_or_default()
        .iter()
        .map(|v| string_of(v))
        .collect()
}

#[test]
fn delete_inside_word_removes_word_and_fills_register() {
    // document "foo\nbar baz\n", cursor on `bar`: delete-inside-word
    // removes `bar`, leaving " baz", and the register holds "bar"
    let mut ed = editor("foo\nbar baz\n\nqux\n");
    set_cursor(&mut ed, 4);
    commands::vim_delete(&mut ed);
    assert!(matches!(ed.pending, PendingInput::OperatorTarget { .. }));
    handle_pending_key(&mut ed, KeyEvent::Char('i'));
    assert!(matches!(ed.pending, PendingInput::TextObjectKey { .. }));
    handle_pending_key(&mut ed, KeyEvent::Char('w'));
    assert_eq!(string_of(&ed.text), "foo\n baz\n\nqux\n");
    assert_eq!(read_register(&ed, '"'), vec!["bar".to_string()]);
}

#[test]
fn change_lines_keeps_last_separator_and_enters_insert() {
    // change over two whole lines removes their content but keeps the
    // final separator, and insertion mode begins at the empty line
    let mut ed = editor("l1\nl2\nl3\nl4\nl5\n");
    ed.selection = Selection::single(TextRange { anchor: 3, head: 8 });
    commands::vim_change(&mut ed);
    handle_pending_key(&mut ed, KeyEvent::Char('c'));
    assert_eq!(string_of(&ed.text), "l1\n\nl4\nl5\n");
    assert_eq!(ed.mode, Mode::Insert);
    assert_eq!(ed.selection.ranges[0].anchor, 3);
    assert_eq!(read_register(&ed, '"'), vec!["l2\nl3\n".to_string()]);
}

#[test]
fn delete_lines_removes_separator_too() {
    let mut ed = editor("l1\nl2\nl3\n");
    set_cursor(&mut ed, 3);
    commands::vim_delete(&mut ed);
    handle_pending_key(&mut ed, KeyEvent::Char('d'));
    assert_eq!(string_of(&ed.text), "l1\nl3\n");
    assert_eq!(read_register(&ed, '"'), vec!["l2\n".to_string()]);
}

#[test]
fn yank_lines_with_count_two() {
    let mut ed = editor("aa\nbb\ncc\ndd\n");
    set_cursor(&mut ed, 0);
    ed.count = Some(2);
    commands::vim_yank(&mut ed);
    handle_pending_key(&mut ed, KeyEvent::Char('y'));
    assert_eq!(string_of(&ed.text), "aa\nbb\ncc\ndd\n");
    assert_eq!(read_register(&ed, '"'), vec!["aa\nbb\n".to_string()]);
}

#[test]
fn operator_in_select_mode_applies_immediately() {
    let mut ed = editor("say hello world\n");
    ed.mode = Mode::Select;
    ed.selection = Selection::single(TextRange { anchor: 4, head: 9 });
    commands::vim_delete(&mut ed);
    assert_eq!(string_of(&ed.text), "say  world\n");
    assert_eq!(read_register(&ed, '"'), vec!["hello".to_string()]);
    assert_eq!(ed.mode, Mode::Normal);
}

#[test]
fn unknown_operator_key_cancels_silently() {
    let mut ed = editor("abc def\n");
    set_cursor(&mut ed, 0);
    commands::vim_delete(&mut ed);
    handle_pending_key(&mut ed, KeyEvent::Char('q'));
    assert_eq!(string_of(&ed.text), "abc def\n");
    assert!(matches!(ed.pending, PendingInput::Idle));
    assert!(read_register(&ed, '"').is_empty());
}

#[test]
fn delete_word_motion_under_operator() {
    // `d` then `w`: from the word start, the word and its trailing
    // space go
    let mut ed = editor("abc def\n");
    set_cursor(&mut ed, 0);
    commands::vim_delete(&mut ed);
    handle_pending_key(&mut ed, KeyEvent::Char('w'));
    assert_eq!(string_of(&ed.text), "def\n");
    assert_eq!(ed.mode, Mode::Normal);
}

#[test]
fn delete_to_line_end_with_dollar() {
    let mut ed = editor("abc def\nxyz\n");
    set_cursor(&mut ed, 4);
    commands::vim_delete(&mut ed);
    handle_pending_key(&mut ed, KeyEvent::Char('$'));
    assert_eq!(string_of(&ed.text), "abc \nxyz\n");
}

#[test]
fn find_char_deletes_through_target() {
    // `d` `f` `e`: from the start of "abcde f", everything through the
    // `e` goes
    let mut ed = editor("abcde f\n");
    set_cursor(&mut ed, 0);
    commands::vim_delete(&mut ed);
    handle_pending_key(&mut ed, KeyEvent::Char('f'));
    assert!(matches!(ed.pending, PendingInput::FindChar { .. }));
    handle_pending_key(&mut ed, KeyEvent::Char('e'));
    assert_eq!(string_of(&ed.text), " f\n");
}

#[test]
fn till_char_deletes_up_to_target() {
    let mut ed = editor("abcde f\n");
    set_cursor(&mut ed, 0);
    commands::vim_delete(&mut ed);
    handle_pending_key(&mut ed, KeyEvent::Char('t'));
    handle_pending_key(&mut ed, KeyEvent::Char('e'));
    assert_eq!(string_of(&ed.text), "e f\n");
}

#[test]
fn bare_find_char_moves_and_collapses() {
    let mut ed = editor("say hello\n");
    set_cursor(&mut ed, 0);
    commands::vim_find_next_char(&mut ed);
    handle_pending_key(&mut ed, KeyEvent::Char('h'));
    assert_eq!(ed.selection.ranges[0], TextRange { anchor: 4, head: 4 });
    assert_eq!(string_of(&ed.text), "say hello\n");
}

#[test]
fn find_char_without_occurrence_stays_put() {
    let mut ed = editor("say hello\n");
    set_cursor(&mut ed, 2);
    commands::vim_find_next_char(&mut ed);
    handle_pending_key(&mut ed, KeyEvent::Char('z'));
    assert_eq!(ed.selection.ranges[0], TextRange { anchor: 2, head: 2 });
}

#[test]
fn find_char_enter_reaches_line_ending() {
    let mut ed = editor("ab\ncd\n");
    set_cursor(&mut ed, 0);
    commands::vim_find_next_char(&mut ed);
    handle_pending_key(&mut ed, KeyEvent::Enter);
    assert_eq!(ed.selection.ranges[0], TextRange { anchor: 2, head: 2 });
}

#[test]
fn find_char_other_key_cancels() {
    let mut ed = editor("ab\ncd\n");
    set_cursor(&mut ed, 0);
    commands::vim_find_next_char(&mut ed);
    handle_pending_key(&mut ed, KeyEvent::Other);
    assert!(matches!(ed.pending, PendingInput::Idle));
    assert_eq!(ed.selection.ranges[0], TextRange { anchor: 0, head: 0 });
}

#[test]
fn delete_inside_word_on_whitespace_takes_the_run() {
    let mut ed = editor("a  b\n");
    set_cursor(&mut ed, 1);
    commands::vim_delete(&mut ed);
    handle_pending_key(&mut ed, KeyEvent::Char('i'));
    handle_pending_key(&mut ed, KeyEvent::Char('w'));
    assert_eq!(string_of(&ed.text), "ab\n");
    assert_eq!(read_register(&ed, '"'), vec!["  ".to_string()]);
}

#[test]
fn delete_inside_brackets() {
    let mut ed = editor("a(b(c)d)e\n");
    set_cursor(&mut ed, 4);
    commands::vim_delete(&mut ed);
    handle_pending_key(&mut ed, KeyEvent::Char('i'));
    handle_pending_key(&mut ed, KeyEvent::Char('('));
    assert_eq!(string_of(&ed.text), "a(b()d)e\n");
    assert_eq!(read_register(&ed, '"'), vec!["c".to_string()]);
}

#[test]
fn delete_around_nearest_pair() {
    let mut ed = editor("a(b(c)d)e\n");
    set_cursor(&mut ed, 4);
    commands::vim_delete(&mut ed);
    handle_pending_key(&mut ed, KeyEvent::Char('a'));
    handle_pending_key(&mut ed, KeyEvent::Char('m'));
    assert_eq!(string_of(&ed.text), "a(bd)e\n");
    assert_eq!(read_register(&ed, '"'), vec!["(c)".to_string()]);
}

#[test]
fn unknown_textobject_key_aborts_without_commit() {
    let mut ed = editor("abc def\n");
    set_cursor(&mut ed, 0);
    commands::vim_delete(&mut ed);
    handle_pending_key(&mut ed, KeyEvent::Char('i'));
    handle_pending_key(&mut ed, KeyEvent::Char('z'));
    assert_eq!(string_of(&ed.text), "abc def\n");
    assert!(read_register(&ed, '"').is_empty());
}

#[test]
fn yank_then_paste_reproduces_text() {
    // yank "bar" in select mode, then paste after the cursor: the
    // pasted stretch is byte-for-byte the yanked one
    let mut ed = editor("foo bar baz\n");
    ed.mode = Mode::Select;
    ed.selection = Selection::single(TextRange { anchor: 4, head: 7 });
    commands::vim_yank(&mut ed);
    assert_eq!(read_register(&ed, '"'), vec!["bar".to_string()]);
    set_cursor(&mut ed, 0);
    commands::vim_paste_after(&mut ed);
    assert_eq!(string_of(&ed.text), "barfoo bar baz\n");
    assert_eq!(string_of(&ed.text[0..3]), "bar");
}

#[test]
fn delete_then_undo_restores_buffer_and_selection() {
    let mut ed = editor("foo bar baz\n");
    ed.selection = Selection::single(TextRange { anchor: 4, head: 8 });
    let before_text = string_of(&ed.text);
    commands::vim_delete_any_selection(&mut ed);
    assert_eq!(string_of(&ed.text), "foo baz\n");
    ed.undo();
    assert_eq!(string_of(&ed.text), before_text);
    // the recorded selection is the cursor state the edit saw: the
    // commit first parks the cursor at each range's start
    assert_eq!(ed.selection.ranges, vec![TextRange { anchor: 4, head: 4 }]);
}

#[test]
fn change_enters_insert_at_deletion_point() {
    let mut ed = editor("foo bar baz\n");
    ed.mode = Mode::Select;
    ed.selection = Selection::single(TextRange { anchor: 4, head: 8 });
    commands::vim_change(&mut ed);
    assert_eq!(string_of(&ed.text), "foo baz\n");
    assert_eq!(ed.mode, Mode::Insert);
    assert_eq!(ed.selection.ranges[0], TextRange { anchor: 4, head: 4 });
}

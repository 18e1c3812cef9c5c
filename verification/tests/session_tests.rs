use vim_modal::commands;
use vim_modal::commands::CommandKind;
use vim_modal::editor::{Editor, HostAction, Mode, StatusMsg};
use vim_modal::range::TextRange;
use vim_modal::selection::Selection;
use vim_modal::state::ModalSessionState;

fn chars(s: &str) -> Vec<char> {
    s.chars().collect()
}

fn string_of(v: &[char]) -> String {
    v.iter().collect()
}

fn editor(text: &str) -> Editor {
    Editor::new(chars(text), 1)
}

#[test]
fn visual_submodes_never_both_active() {
    // drive the state through every transition; the sub-modes never
    // hold together
    let mut st = ModalSessionState::new();
    assert!(!(st.visual_lines && st.visual_blocks));
    st.visual_line();
    assert!(st.visual_lines && !st.visual_blocks);
    st.visual_block();
    assert!(!st.visual_lines && st.visual_blocks);
    st.visual_line();
    assert!(st.visual_lines && !st.visual_blocks);
    st.exit_visual_modes();
    assert!(!st.visual_lines && !st.visual_blocks);
}

#[test]
fn visual_line_then_block_via_commands() {
    let mut ed = editor("one\ntwo\nthree\n");
    commands::vim_visual_lines(&mut ed);
    assert!(ed.state.visual_lines && !ed.state.visual_blocks);
    commands::vim_visual_block(&mut ed);
    assert!(!ed.state.visual_lines && ed.state.visual_blocks);
    commands::vim_visual_lines(&mut ed);
    assert!(ed.state.visual_lines && !ed.state.visual_blocks);
}

#[test]
fn visual_lines_extends_to_whole_lines() {
    let mut ed = editor("one\ntwo\nthree\n");
    ed.selection = Selection::point(5);
    commands::vim_visual_lines(&mut ed);
    assert_eq!(ed.mode, Mode::Select);
    assert_eq!(ed.selection.ranges[0], TextRange { anchor: 4, head: 8 });
}

#[test]
fn line_extension_is_idempotent_on_concrete_selection() {
    let mut ed = editor("one\ntwo\nthree\n");
    ed.selection = Selection::point(5);
    commands::extend_to_line_bounds(&mut ed);
    let once = ed.selection.ranges.clone();
    commands::extend_to_line_bounds(&mut ed);
    assert_eq!(ed.selection.ranges, once);
}

#[test]
fn hook_collapses_in_normal_mode() {
    let mut ed = editor("one two\n");
    ed.selection = Selection::single(TextRange { anchor: 0, head: 3 });
    commands::hook_after_each_command(&mut ed, CommandKind::Static);
    assert_eq!(ed.selection.ranges[0], TextRange { anchor: 2, head: 2 });
}

#[test]
fn hook_spares_highlight_exactly_once() {
    let mut ed = editor("one two\n");
    ed.selection = Selection::single(TextRange { anchor: 0, head: 3 });
    ed.state.allow_highlight();
    commands::hook_after_each_command(&mut ed, CommandKind::Static);
    // the first pass keeps the selection and clears the flag
    assert_eq!(ed.selection.ranges[0], TextRange { anchor: 0, head: 3 });
    assert!(!ed.state.highlight);
    commands::hook_after_each_command(&mut ed, CommandKind::Static);
    // the next one collapses
    assert_eq!(ed.selection.ranges[0], TextRange { anchor: 2, head: 2 });
}

#[test]
fn hook_skips_typable_commands() {
    let mut ed = editor("one two\n");
    ed.selection = Selection::single(TextRange { anchor: 0, head: 3 });
    commands::hook_after_each_command(&mut ed, CommandKind::Typable);
    assert_eq!(ed.selection.ranges[0], TextRange { anchor: 0, head: 3 });
}

#[test]
fn hook_disabled_with_deferred_reenable() {
    let mut ed = editor("one two\n");
    ed.selection = Selection::single(TextRange { anchor: 0, head: 3 });
    commands::vim_cmd_off(&mut ed);
    commands::vim_cmd_on(&mut ed);
    // still disabled for this pass, re-enabled for the next
    commands::hook_after_each_command(&mut ed, CommandKind::Static);
    assert_eq!(ed.selection.ranges[0], TextRange { anchor: 0, head: 3 });
    assert!(ed.state.cmd_hook_enabled);
    commands::hook_after_each_command(&mut ed, CommandKind::Static);
    assert_eq!(ed.selection.ranges[0], TextRange { anchor: 2, head: 2 });
}

#[test]
fn hook_in_select_visual_line_reextends_and_saves() {
    let mut ed = editor("one\ntwo\nthree\n");
    ed.selection = Selection::point(5);
    ed.mode = Mode::Select;
    ed.state.visual_line();
    commands::hook_after_each_command(&mut ed, CommandKind::Static);
    assert_eq!(ed.selection.ranges[0], TextRange { anchor: 4, head: 8 });
    assert!(ed.state.gv_selection.is_some());
}

#[test]
fn restore_last_selection_roundtrip() {
    let mut ed = editor("one\ntwo\nthree\n");
    ed.mode = Mode::Select;
    ed.selection = Selection::single(TextRange { anchor: 4, head: 8 });
    commands::vim_normal_mode(&mut ed);
    assert_eq!(ed.mode, Mode::Normal);
    ed.selection = Selection::point(0);
    commands::vim_restore_last_selection(&mut ed);
    assert_eq!(ed.mode, Mode::Select);
    assert_eq!(ed.selection.ranges[0], TextRange { anchor: 4, head: 8 });
}

#[test]
fn restore_brings_back_visual_line_character() {
    // the restore recalls not only the ranges but the line-wise
    // character the selection was captured in
    let mut ed = editor("one\ntwo\nthree\n");
    ed.selection = Selection::point(5);
    commands::vim_visual_lines(&mut ed);
    commands::vim_normal_mode(&mut ed);
    assert!(!ed.state.visual_lines);
    commands::vim_restore_last_selection(&mut ed);
    assert!(ed.state.visual_lines);
    assert_eq!(ed.selection.ranges[0], TextRange { anchor: 4, head: 8 });
}

#[test]
fn exit_select_mode_saves_and_clears_submodes() {
    let mut ed = editor("one\ntwo\n");
    ed.selection = Selection::single(TextRange { anchor: 0, head: 3 });
    commands::vim_visual_block(&mut ed);
    commands::vim_exit_select_mode(&mut ed);
    assert_eq!(ed.mode, Mode::Normal);
    assert!(!ed.state.visual_lines && !ed.state.visual_blocks);
    assert!(ed.state.gv_selection.is_some());
}

#[test]
fn yank_two_ranges_fills_two_fragments() {
    let mut ed = editor("aa bb\n");
    ed.mode = Mode::Select;
    ed.selection = Selection {
        ranges: vec![TextRange { anchor: 0, head: 2 }, TextRange { anchor: 3, head: 5 }],
        primary_index: 0,
    };
    commands::vim_yank(&mut ed);
    let values = ed.registers.read('"').unwrap();
    assert_eq!(values.len(), 2);
    assert_eq!(string_of(&values[0]), "aa");
    assert_eq!(string_of(&values[1]), "bb");
    assert_eq!(
        ed.status,
        Some(vim_modal::editor::StatusMsg::YankedSelections { count: 2, register: '"' })
    );
}

#[test]
fn restore_on_other_document_is_a_no_op() {
    let mut ed = editor("one\ntwo\nthree\n");
    ed.mode = Mode::Select;
    ed.selection = Selection::single(TextRange { anchor: 4, head: 8 });
    commands::vim_normal_mode(&mut ed);
    ed.doc_id = 2;
    ed.selection = Selection::point(0);
    commands::vim_restore_last_selection(&mut ed);
    assert_eq!(ed.mode, Mode::Normal);
    assert_eq!(ed.selection.ranges[0], TextRange { anchor: 0, head: 0 });
}

#[test]
fn restore_larger_than_document_is_a_no_op() {
    let mut ed = editor("one\ntwo\nthree\n");
    ed.mode = Mode::Select;
    ed.selection = Selection::single(TextRange { anchor: 0, head: 13 });
    commands::vim_normal_mode(&mut ed);
    ed.text = chars("ab\n");
    ed.selection = Selection::point(0);
    commands::vim_restore_last_selection(&mut ed);
    assert_eq!(ed.mode, Mode::Normal);
    assert_eq!(ed.selection.ranges[0], TextRange { anchor: 0, head: 0 });
}

#[test]
fn stale_restore_still_reloads_visual_flags() {
    // a restore against another document does nothing to the selection
    // but still reloads the saved visual sub-mode flags
    let mut ed = editor("one\ntwo\nthree\n");
    ed.selection = Selection::point(5);
    commands::vim_visual_lines(&mut ed);
    commands::vim_normal_mode(&mut ed);
    ed.doc_id = 9;
    ed.selection = Selection::point(0);
    commands::vim_restore_last_selection(&mut ed);
    assert_eq!(ed.mode, Mode::Normal);
    assert_eq!(ed.selection.ranges[0], TextRange { anchor: 0, head: 0 });
    assert!(ed.state.visual_lines);
}

#[test]
fn paragraph_forward_lands_on_next_paragraph_start() {
    let mut ed = editor("aaa\nbbb\n\nccc\nddd\n\neee\n");
    ed.selection = Selection::point(0);
    commands::vim_move_paragraph_forward(&mut ed);
    // the next paragraph starts at line 3, offset 9
    assert_eq!(ed.selection.ranges[0].head, 9);
    assert_eq!(ed.jumplist.len(), 1);
}

#[test]
fn paragraph_backward_returns_to_first_paragraph_start() {
    let mut ed = editor("aaa\nbbb\n\nccc\nddd\n\neee\n");
    ed.selection = Selection::point(9);
    commands::vim_move_paragraph_backward(&mut ed);
    assert_eq!(ed.selection.ranges[0].head, 0);
}

#[test]
fn paragraph_forward_twice_reaches_third_paragraph() {
    let mut ed = editor("aaa\nbbb\n\nccc\nddd\n\neee\n");
    ed.selection = Selection::point(0);
    ed.count = Some(2);
    commands::vim_move_paragraph_forward(&mut ed);
    // "aaa\nbbb\n\nccc\nddd\n\n" is 18 characters
    assert_eq!(ed.selection.ranges[0].head, 18);
}

#[test]
fn paragraph_forward_then_backward_lands_on_separator() {
    // from the middle paragraph, forward reaches the next paragraph's
    // first line; backward from there lands on the separator line
    // directly above the original paragraph
    let mut ed = editor("aaa\n\nbbb\n\nccc\n");
    ed.selection = Selection::point(5);
    commands::vim_move_paragraph_forward(&mut ed);
    assert_eq!(ed.selection.ranges[0].head, 10);
    commands::vim_move_paragraph_backward(&mut ed);
    assert_eq!(ed.selection.ranges[0].head, 4);
}

#[test]
fn cursor_search_sets_pattern_and_jumps() {
    let mut ed = editor("say hello world hello\n");
    ed.selection = Selection::point(5);
    commands::vim_cursor_forward_search(&mut ed);
    let pattern: String = string_of(&ed.registers.first('/').unwrap());
    assert_eq!(pattern, "hello");
    assert_eq!(ed.host_calls.last(), Some(&HostAction::SearchNext { forward: true }));
    assert!(ed.state.highlight);
}

#[test]
fn cursor_search_smart_case_folds_pattern() {
    let mut ed = editor("say hello world\n");
    ed.config.smart_case = true;
    ed.selection = Selection::point(4);
    commands::vim_cursor_forward_search(&mut ed);
    let pattern: String = string_of(&ed.registers.first('/').unwrap());
    assert_eq!(pattern, "(?i)hello");
    assert_eq!(ed.status, Some(StatusMsg::RegisterSet { register: '/' }));
}

#[test]
fn cursor_search_without_word_reports() {
    let mut ed = editor("... !!! ...\n");
    ed.selection = Selection::point(0);
    commands::vim_cursor_forward_search(&mut ed);
    assert_eq!(ed.status, Some(StatusMsg::NoStringUnderCursor));
    assert_eq!(ed.status.unwrap().message(), "No string under cursor");
    assert!(!ed.host_calls.contains(&HostAction::SearchNext { forward: true }));
}

#[test]
fn search_commands_arm_highlight_and_queue_host_work() {
    let mut ed = editor("abc\n");
    commands::vim_search(&mut ed);
    assert!(ed.state.highlight);
    assert_eq!(ed.host_calls.last(), Some(&HostAction::PromptSearch { forward: true }));
    commands::vim_search_prev(&mut ed);
    assert_eq!(ed.host_calls.last(), Some(&HostAction::SearchNext { forward: false }));
    commands::vim_match_brackets(&mut ed);
    assert_eq!(ed.host_calls.last(), Some(&HostAction::MatchBrackets));
    assert_eq!(ed.jumplist.len(), 3);
}

#[test]
fn toggles_flip_modal_layer_and_request_refresh() {
    let mut ed = editor("abc\n");
    commands::vim_disable(&mut ed);
    assert!(!ed.state.vim_mode && !ed.state.cmd_hook_enabled);
    commands::vim_enable(&mut ed);
    assert!(ed.state.vim_mode && ed.state.cmd_hook_enabled);
    commands::vim_toggle(&mut ed);
    assert!(!ed.state.vim_mode);
    assert_eq!(ed.host_calls.len(), 3);
    assert_eq!(ed.host_calls[0], HostAction::ConfigRefresh);
}

#[test]
fn select_all_selects_whole_document_and_arms_highlight() {
    let mut ed = editor("one\ntwo\n");
    commands::vim_select_all(&mut ed);
    assert_eq!(ed.selection.ranges[0], TextRange { anchor: 0, head: 8 });
    assert!(ed.state.highlight);
}

#[test]
fn append_moves_cursor_past_selection_and_inserts() {
    let mut ed = editor("abc\n");
    ed.selection = Selection::point(1);
    commands::vim_append(&mut ed);
    assert_eq!(ed.mode, Mode::Insert);
    assert_eq!(ed.selection.ranges[0], TextRange { anchor: 2, head: 2 });
}

#[test]
fn insert_at_line_start_skips_indentation() {
    let mut ed = editor("   abc\n");
    ed.selection = Selection::point(5);
    commands::vim_insert_at_line_start(&mut ed);
    assert_eq!(ed.mode, Mode::Insert);
    assert_eq!(ed.selection.ranges[0], TextRange { anchor: 3, head: 3 });
}

#[test]
fn move_char_right_stops_at_line_end() {
    let mut ed = editor("ab\ncd\n");
    ed.selection = Selection::point(1);
    commands::vim_move_char_right(&mut ed);
    // at the line's last content position the cursor stays
    assert_eq!(ed.selection.ranges[0], TextRange { anchor: 1, head: 1 });
    ed.selection = Selection::point(0);
    commands::vim_move_char_right(&mut ed);
    assert_eq!(ed.selection.ranges[0], TextRange { anchor: 1, head: 1 });
}

#[test]
fn move_char_left_stops_at_line_start() {
    let mut ed = editor("ab\ncd\n");
    ed.selection = Selection::point(3);
    commands::vim_move_char_left(&mut ed);
    assert_eq!(ed.selection.ranges[0], TextRange { anchor: 3, head: 3 });
}

#[test]
fn visual_block_grows_and_shrinks_rows() {
    let mut ed = editor("abcd\nefgh\nijkl\n");
    ed.selection = Selection::single(TextRange { anchor: 0, head: 2 });
    commands::vim_visual_block(&mut ed);
    commands::vim_extend_visual_line_down(&mut ed);
    assert_eq!(ed.selection.ranges.len(), 2);
    assert_eq!(ed.selection.ranges[1], TextRange { anchor: 5, head: 7 });
    commands::vim_extend_visual_line_up(&mut ed);
    assert_eq!(ed.selection.ranges.len(), 1);
    assert_eq!(ed.selection.ranges[0], TextRange { anchor: 0, head: 2 });
}

#[test]
fn goto_last_line_without_count() {
    let mut ed = editor("one\ntwo\nthree\n");
    ed.selection = Selection::point(0);
    commands::vim_goto_last_line(&mut ed);
    assert_eq!(ed.selection.ranges[0], TextRange { anchor: 14, head: 14 });
}

#[test]
fn goto_file_start_with_count() {
    let mut ed = editor("one\ntwo\nthree\n");
    ed.selection = Selection::point(9);
    ed.count = Some(1);
    commands::vim_goto_last_line(&mut ed);
    assert_eq!(ed.selection.ranges[0], TextRange { anchor: 0, head: 0 });
}

#[test]
fn delete_till_line_end_in_normal_mode() {
    let mut ed = editor("abc def\nxyz\n");
    ed.selection = Selection::point(4);
    commands::vim_delete_till_line_end(&mut ed);
    assert_eq!(string_of(&ed.text), "abc \nxyz\n");
    assert_eq!(ed.mode, Mode::Normal);
}

use line_editor::error::EditError;
use line_editor::state::MouseHit;
use line_editor::text_input::TextInput;

fn editor(lines: &[&str]) -> TextInput {
    TextInput::new("notes.txt".to_string(), lines.iter().map(|l| l.to_string()).collect())
}

fn lines_of(editor: &TextInput) -> Vec<String> {
    editor.content().clone()
}

#[test]
fn enter_splits_the_line_at_the_caret() {
    let mut e = editor(&["ab", "cd"]);
    e.move_to(1).unwrap();
    e.enter().unwrap();
    assert_eq!(lines_of(&e), vec!["a", "b", "cd"]);
    assert_eq!(e.focused_line(), 1);
    assert_eq!(e.cursor_offset(), 0);
    assert_eq!(e.line_count(), 3);
    assert_eq!(e.selected_range(), 0..0);
}

#[test]
fn enter_at_the_end_of_a_line_opens_an_empty_line() {
    let mut e = editor(&["ab", "cd"]);
    e.move_to(2).unwrap();
    e.enter().unwrap();
    assert_eq!(lines_of(&e), vec!["ab", "", "cd"]);
    assert_eq!(e.focused_line(), 1);
    assert_eq!(e.line_count(), 3);
}

#[test]
fn backspace_at_line_start_joins_the_line_above() {
    let mut e = editor(&["hello", "world"]);
    e.down();
    e.home();
    assert_eq!((e.focused_line(), e.cursor_offset()), (1, 0));
    e.backspace().unwrap();
    assert_eq!(lines_of(&e), vec!["helloworld"]);
    assert_eq!(e.focused_line(), 0);
    assert_eq!(e.cursor_offset(), 5);
    assert_eq!(e.cursor_pos(), 5);
    assert_eq!(e.line_count(), 1);
}

#[test]
fn delete_of_lines_selected_downward_keeps_the_rest() {
    let mut e = editor(&["line1", "line2", "line3"]);
    e.select_down();
    e.select_down();
    assert_eq!(e.selected_lines(), 0..3);
    assert!(!e.selected_lines_reversed());
    e.delete().unwrap();
    assert_eq!(lines_of(&e), vec!["", "line3"]);
    assert_eq!(e.line_count(), 2);
    assert_eq!(e.focused_line(), 0);
    assert_eq!(e.cursor_offset(), 0);
    assert_eq!(e.selected_lines(), 0..0);
    assert!(!e.is_selecting());
}

#[test]
fn left_steps_over_a_whole_grapheme_cluster() {
    let mut e = editor(&["cafe\u{301}"]);
    e.end();
    assert_eq!(e.cursor_offset(), 6);
    e.left();
    assert_eq!(e.cursor_offset(), 3);
    e.left();
    assert_eq!(e.cursor_offset(), 2);
}

#[test]
fn backspace_takes_a_whole_grapheme_cluster() {
    let mut e = editor(&["cafe\u{301}"]);
    e.end();
    e.backspace().unwrap();
    assert_eq!(lines_of(&e), vec!["caf"]);
    assert_eq!(e.cursor_offset(), 3);
    assert!(!e.is_selecting());
}

#[test]
fn home_twice_is_home_once() {
    let mut e = editor(&["some text"]);
    e.move_to(4).unwrap();
    e.select_right();
    e.home();
    assert_eq!(e.cursor_offset(), 0);
    assert_eq!(e.selected_range(), 0..0);
    assert!(!e.is_selecting());
    e.home();
    assert_eq!(e.cursor_offset(), 0);
    assert_eq!(e.selected_range(), 0..0);
    assert_eq!(e.focused_line(), 0);
}

#[test]
fn backspace_at_the_origin_changes_nothing() {
    let mut e = editor(&["abc", "def"]);
    e.backspace().unwrap();
    assert_eq!(lines_of(&e), vec!["abc", "def"]);
    assert_eq!((e.focused_line(), e.cursor_offset()), (0, 0));
    assert_eq!(e.selected_range(), 0..0);
    assert_eq!(e.line_count(), 2);
}

#[test]
fn delete_at_the_end_of_the_last_line_changes_nothing() {
    let mut e = editor(&["abc", "def"]);
    e.down();
    e.end();
    e.delete().unwrap();
    assert_eq!(lines_of(&e), vec!["abc", "def"]);
    assert_eq!((e.focused_line(), e.cursor_offset()), (1, 3));
    assert_eq!(e.selected_range(), 3..3);
}

#[test]
fn delete_takes_the_cluster_to_the_right() {
    let mut e = editor(&["e\u{301}x"]);
    e.delete().unwrap();
    assert_eq!(lines_of(&e), vec!["x"]);
    assert_eq!(e.cursor_offset(), 0);
}

#[test]
fn line_count_follows_every_edit() {
    let mut e = editor(&["one", "two", "three"]);
    assert_eq!(e.line_count(), e.content().len());
    e.move_to(2).unwrap();
    e.enter().unwrap();
    assert_eq!(e.line_count(), 4);
    assert_eq!(e.line_count(), e.content().len());
    e.backspace().unwrap();
    assert_eq!(e.line_count(), 3);
    assert_eq!(lines_of(&e), vec!["one", "two", "three"]);
    e.select_down();
    e.delete().unwrap();
    assert_eq!(e.line_count(), e.content().len());
}

#[test]
fn an_empty_buffer_is_one_empty_line() {
    let e = TextInput::new("empty.txt".to_string(), Vec::new());
    assert_eq!(e.line_count(), 1);
    assert_eq!(lines_of(&e), vec![""]);
    assert_eq!(e.open_file(), "empty.txt");
}

#[test]
fn up_and_down_keep_the_ideal_column() {
    let mut e = editor(&["a long line", "ab", "another long line"]);
    e.move_to(7).unwrap();
    e.down();
    assert_eq!((e.focused_line(), e.cursor_offset()), (1, 2));
    assert_eq!(e.cursor_pos(), 7);
    e.down();
    assert_eq!((e.focused_line(), e.cursor_offset()), (2, 7));
    e.down();
    assert_eq!((e.focused_line(), e.cursor_offset()), (2, 7));
    e.up();
    e.up();
    e.up();
    assert_eq!((e.focused_line(), e.cursor_offset()), (0, 7));
}

#[test]
fn left_and_right_cross_line_ends() {
    let mut e = editor(&["ab", "cd"]);
    e.down();
    e.home();
    e.left();
    assert_eq!((e.focused_line(), e.cursor_offset()), (0, 2));
    e.right();
    assert_eq!((e.focused_line(), e.cursor_offset()), (1, 0));
    e.right();
    assert_eq!((e.focused_line(), e.cursor_offset()), (1, 1));
}

#[test]
fn left_and_right_collapse_a_selection_to_its_edge() {
    let mut e = editor(&["abcdef"]);
    e.move_to(2).unwrap();
    e.select_right();
    e.select_right();
    assert_eq!(e.selected_range(), 2..4);
    assert!(e.is_selecting());
    e.left();
    assert_eq!(e.selected_range(), 2..2);
    assert!(!e.is_selecting());
    e.select_right();
    e.select_right();
    e.right();
    assert_eq!(e.selected_range(), 4..4);
}

#[test]
fn select_left_past_the_anchor_reverses_the_selection() {
    let mut e = editor(&["abcdef"]);
    e.move_to(3).unwrap();
    e.select_right();
    assert_eq!(e.selected_range(), 3..4);
    assert!(!e.selection_reversed());
    e.select_left();
    e.select_left();
    assert_eq!(e.selected_range(), 2..3);
    assert!(e.selection_reversed());
    assert_eq!(e.cursor_offset(), 2);
    assert_eq!(e.selected_lines(), 0..0);
}

#[test]
fn select_up_builds_a_reversed_line_range() {
    let mut e = editor(&["aaa", "bbb", "ccc"]);
    e.down();
    e.down();
    e.select_up();
    assert_eq!(e.selected_lines(), 2..2);
    assert!(e.selected_lines_reversed());
    assert_eq!(e.focused_line(), 1);
    e.delete().unwrap();
    assert_eq!(lines_of(&e), vec!["aaa", "", "ccc"]);
    assert_eq!(e.focused_line(), 1);
}

#[test]
fn delete_over_lines_keeps_what_is_left_of_both_ends() {
    let mut e = editor(&["hello", "big", "world"]);
    e.move_to(2).unwrap();
    e.select_down();
    e.select_down();
    assert_eq!(e.normalized_selection_bounds(), 2..2);
    e.delete().unwrap();
    assert_eq!(lines_of(&e), vec!["he", "rld"]);
    assert_eq!((e.focused_line(), e.cursor_offset()), (0, 2));
}

#[test]
fn delete_over_lines_drops_a_last_line_that_is_used_up() {
    let mut e = editor(&["hello", "big", "ab", "tail"]);
    e.move_to(2).unwrap();
    e.select_down();
    e.select_down();
    assert_eq!(e.focused_line(), 2);
    assert_eq!(e.cursor_offset(), 2);
    e.delete().unwrap();
    assert_eq!(lines_of(&e), vec!["he", "tail"]);
    assert_eq!(e.line_count(), 2);
}

#[test]
fn select_all_takes_the_focused_line_only() {
    let mut e = editor(&["first", "second line"]);
    e.down();
    e.select_all();
    assert_eq!(e.selected_range(), 0..11);
    assert_eq!(e.cursor_offset(), 11);
    assert_eq!(e.selected_lines(), 0..0);
    assert_eq!(e.copy().unwrap(), Some("second line".to_string()));
}

#[test]
fn typing_replaces_the_selection() {
    let mut e = editor(&["hello world"]);
    e.move_to(6).unwrap();
    e.select_to(11).unwrap();
    e.replace_text_in_range(None, "there").unwrap();
    assert_eq!(lines_of(&e), vec!["hello there"]);
    assert_eq!(e.selected_range(), 11..11);
    assert!(!e.is_selecting());
}

#[test]
fn a_range_in_utf16_units_is_replaced_by_bytes() {
    let mut e = editor(&["a\u{1F600}b"]);
    e.replace_text_in_range(Some(1..3), "-").unwrap();
    assert_eq!(lines_of(&e), vec!["a-b"]);
    assert_eq!(e.cursor_offset(), 2);
}

#[test]
fn paste_flattens_line_feeds() {
    let mut e = editor(&["[]"]);
    e.move_to(1).unwrap();
    e.paste("one\ntwo\n").unwrap();
    assert_eq!(lines_of(&e), vec!["[one two ]"]);
    assert_eq!(e.cursor_offset(), 9);
    assert_eq!(e.line_count(), 1);
}

#[test]
fn copy_needs_a_selection_within_the_line() {
    let mut e = editor(&["abcdef"]);
    assert_eq!(e.copy().unwrap(), None);
    e.move_to(1).unwrap();
    e.select_to(4).unwrap();
    assert_eq!(e.copy().unwrap(), Some("bcd".to_string()));
    assert_eq!(lines_of(&e), vec!["abcdef"]);
}

#[test]
fn cut_copies_and_deletes() {
    let mut e = editor(&["abcdef"]);
    assert_eq!(e.cut().unwrap(), None);
    e.move_to(1).unwrap();
    e.select_to(4).unwrap();
    assert_eq!(e.cut().unwrap(), Some("bcd".to_string()));
    assert_eq!(lines_of(&e), vec!["aef"]);
    assert_eq!(e.cursor_offset(), 1);
}

#[test]
fn an_offset_behind_the_line_is_out_of_range() {
    let mut e = editor(&["abc"]);
    assert_eq!(e.move_to(4), Err(EditError::OutOfRange));
    assert_eq!(e.select_to(4), Err(EditError::OutOfRange));
    assert_eq!(e.on_mouse_down(1, None, false), Err(EditError::OutOfRange));
    assert_eq!(e.on_mouse_down(0, Some(MouseHit::Within(4)), false), Err(EditError::OutOfRange));
    assert_eq!(e.cursor_offset(), 0);
    assert_eq!(e.move_to(3), Ok(()));
}

#[test]
fn an_edit_inside_a_character_is_out_of_range() {
    let mut e = editor(&["abc", "\u{e9}\u{e9}"]);
    e.move_to(1).unwrap();
    e.down();
    assert_eq!((e.focused_line(), e.cursor_offset()), (1, 1));
    assert_eq!(e.enter(), Err(EditError::OutOfRange));
    assert_eq!(e.replace_text_in_range(None, "x"), Err(EditError::OutOfRange));
    assert_eq!(e.delete(), Err(EditError::OutOfRange));
    assert_eq!(lines_of(&e), vec!["abc", "\u{e9}\u{e9}"]);
    assert_eq!((e.focused_line(), e.cursor_offset()), (1, 1));
    assert_eq!(e.cursor_pos(), 1);
}

#[test]
fn mouse_gestures_move_and_select() {
    let mut e = editor(&["abc", "defgh"]);
    e.on_mouse_down(1, Some(MouseHit::Within(2)), false).unwrap();
    assert_eq!((e.focused_line(), e.cursor_offset()), (1, 2));
    assert!(!e.is_selecting());
    e.on_mouse_move(Some(MouseHit::Within(4))).unwrap();
    assert_eq!(e.selected_range(), 2..2);
    assert_eq!(e.on_mouse_move(Some(MouseHit::Within(40))), Ok(()));
    e.on_mouse_down(1, Some(MouseHit::Within(4)), true).unwrap();
    assert_eq!(e.selected_range(), 2..4);
    assert!(e.is_selecting());
    assert_eq!(e.on_mouse_move(Some(MouseHit::Within(40))), Err(EditError::OutOfRange));
    assert_eq!(e.selected_range(), 2..4);
    e.on_mouse_move(Some(MouseHit::Within(1))).unwrap();
    assert_eq!(e.selected_range(), 1..2);
    assert!(e.selection_reversed());
    e.on_mouse_move(Some(MouseHit::Below)).unwrap();
    assert_eq!(e.selected_range(), 2..5);
    assert!(!e.selection_reversed());
    e.on_mouse_up();
    assert!(!e.is_selecting());
    assert_eq!(e.selected_range(), 5..5);
}

#[test]
fn a_pointer_position_becomes_an_index() {
    let mut e = editor(&["abc", ""]);
    assert_eq!(e.index_for_mouse_position(None), 0);
    assert_eq!(e.index_for_mouse_position(Some(MouseHit::Above)), 0);
    assert_eq!(e.index_for_mouse_position(Some(MouseHit::Below)), 3);
    assert_eq!(e.index_for_mouse_position(Some(MouseHit::Within(2))), 2);
    e.down();
    assert_eq!(e.index_for_mouse_position(Some(MouseHit::Below)), 0);
    assert_eq!(e.index_for_mouse_position(Some(MouseHit::Within(2))), 0);
}

#[test]
fn the_selected_lines_are_normalized() {
    let mut e = editor(&["a", "b", "c", "d"]);
    e.down();
    assert_eq!(e.normalized_selection_lines(), 1..2);
    e.select_down();
    e.select_down();
    assert_eq!(e.selected_lines(), 1..4);
    assert_eq!(e.normalized_selection_lines(), 1..4);
    e.select_up();
    e.select_up();
    e.select_up();
    assert_eq!(e.selected_lines(), 1..1);
    assert!(e.selected_lines_reversed());
    assert_eq!(e.normalized_selection_lines(), 0..2);
    e.select_up();
    assert_eq!(e.normalized_selection_lines(), 0..2);
    e.up();
    assert_eq!(e.selected_lines(), 0..0);
    assert!(!e.selected_lines_reversed());
    assert_eq!(e.normalized_selection_lines(), 0..1);
}

#[test]
fn a_selection_begun_within_the_line_is_anchored_on_its_line() {
    let mut e = editor(&["abc", "def", "ghi"]);
    e.down();
    e.move_to(2).unwrap();
    e.select_left();
    assert_eq!(e.selected_lines(), 0..0);
    e.select_down();
    assert_eq!(e.selected_lines(), 1..3);
    assert_eq!(e.focused_line(), 2);
}

#[test]
fn the_selection_bounds_name_the_first_line_first() {
    let mut e = editor(&["hello", "ab"]);
    e.move_to(4).unwrap();
    e.select_down();
    assert_eq!(e.selected_range(), 2..4);
    assert!(e.selection_reversed());
    assert_eq!(e.normalized_selection_bounds(), 4..2);
    assert_eq!(e.normalized_selection_bounds_range(2..4), 4..2);
    assert_eq!(e.normalized_selection_bounds_lines(2..4), 2..4);
    e.delete().unwrap();
    assert_eq!(lines_of(&e), vec!["hell"]);
    assert_eq!(e.cursor_offset(), 4);
}

#[test]
fn reset_empties_the_focused_line() {
    let mut e = editor(&["abc", "def"]);
    e.down();
    e.end();
    e.reset();
    assert_eq!(lines_of(&e), vec!["abc", ""]);
    assert_eq!(e.cursor_offset(), 0);
}

#[test]
fn save_joins_the_lines_with_line_feeds() {
    let e = editor(&["one", "", "three"]);
    assert_eq!(e.save(), "one\n\nthree");
}

#[test]
fn composition_marks_the_new_text() {
    let mut e = editor(&["ab"]);
    e.end();
    e.replace_and_mark_text_in_range(None, "ni", Some(2..2)).unwrap();
    assert_eq!(lines_of(&e), vec!["abni"]);
    assert_eq!(e.marked_range(), Some(2..4));
    assert_eq!(e.selected_range(), 4..4);
    assert_eq!(e.marked_text_range(), Some(2..4));
    e.replace_text_in_range(None, "\u{4f60}").unwrap();
    assert_eq!(lines_of(&e), vec!["ab\u{4f60}"]);
    assert_eq!(e.marked_range(), None);
    assert_eq!(e.cursor_offset(), 5);
}

#[test]
fn text_for_range_converts_both_ways() {
    let e = editor(&["a\u{1F600}b"]);
    assert_eq!(e.text_for_range(1..3), Ok(("\u{1F600}".to_string(), 1..3)));
    assert_eq!(e.text_for_range(2..4), Ok(("\u{1F600}b".to_string(), 1..4)));
    assert_eq!(e.text_for_range(3..1), Err(EditError::OutOfRange));
    assert_eq!(e.offset_to_utf16(5), 3);
    assert_eq!(e.offset_from_utf16(3), 5);
}

use hacker::editor::CursorController;
use hacker::paste::normalize_paste;
use hacker::text_edit::TextEditor;

const W: usize = 80;
const H: usize = 24;

#[test]
fn ctrl_end_on_empty_document() {
    let mut ed = TextEditor::new();
    let mut cur = CursorController::new();
    cur.doc_end(&mut ed, W, H);
    assert_eq!(cur.line, 0);
    assert_eq!(cur.col, 0);
    assert_eq!(ed.start_line, 0);
    assert_eq!(ed.start_col, 0);
}

#[test]
fn down_clamps_to_short_line_and_keeps_desired_column() {
    let mut ed = TextEditor::from_text("abc\ndefgh\ni");
    let mut cur = CursorController { line: 1, col: 5, desired_col: 5 };
    cur.move_down(&mut ed, W, H);
    assert_eq!(cur.line, 2);
    assert_eq!(cur.col, 1);
    assert_eq!(cur.desired_col, 5);
}

#[test]
fn vertical_moves_follow_min_of_desired_and_line_length() {
    let mut ed = TextEditor::from_text("abc\ndefgh\ni");
    let mut cur = CursorController { line: 1, col: 5, desired_col: 5 };
    cur.move_down(&mut ed, W, H);
    assert_eq!((cur.line, cur.col, cur.desired_col), (2, 1, 5));
    cur.move_up(&mut ed, W, H);
    assert_eq!((cur.line, cur.col, cur.desired_col), (1, 5, 5));
    cur.move_up(&mut ed, W, H);
    // line "abc" has length 3 = min(5, 3)
    assert_eq!((cur.line, cur.col, cur.desired_col), (0, 3, 5));
}

#[test]
fn up_at_first_line_clamps_to_line_zero() {
    let mut ed = TextEditor::from_text("abcdef\nxy");
    let mut cur = CursorController { line: 0, col: 2, desired_col: 4 };
    cur.move_up(&mut ed, W, H);
    assert_eq!(cur.line, 0);
    assert_eq!(cur.col, 4);
    assert_eq!(cur.desired_col, 4);
}

#[test]
fn down_at_last_line_clamps_to_last_line() {
    let mut ed = TextEditor::from_text("abc\nde");
    let mut cur = CursorController { line: 1, col: 1, desired_col: 1 };
    cur.move_down(&mut ed, W, H);
    assert_eq!(cur.line, 1);
    assert_eq!(cur.col, 1);
}

#[test]
fn paste_normalizes_mixed_line_endings() {
    let mut ed = TextEditor::new();
    let mut cur = CursorController::new();
    cur.paste(&mut ed, "a\r\nb\rc\nd", W, H);
    assert_eq!(ed.text_string(), "a\nb\nc\nd");
    assert_eq!(cur.line, 3);
    assert_eq!(cur.col, 1);
    assert_eq!(cur.desired_col, 1);
}

#[test]
fn tab_then_backspace_returns_to_same_column() {
    let mut ed = TextEditor::from_text("        ");
    let mut cur = CursorController { line: 0, col: 8, desired_col: 8 };
    cur.tab(&mut ed, W, H);
    assert_eq!(cur.col, 12);
    assert_eq!(ed.text_string().len(), 12);
    cur.backspace(&mut ed, W, H);
    assert_eq!(cur.col, 8);
    assert_eq!(ed.text_string(), "        ");
}

#[test]
fn insert_then_backspace_restores_document_and_cursor() {
    let mut ed = TextEditor::from_text("hello\nworld");
    let mut cur = CursorController { line: 1, col: 3, desired_col: 3 };
    cur.insert_char(&mut ed, 'x', W, H);
    assert_eq!(ed.text_string(), "hello\nworxld");
    assert_eq!(cur.col, 4);
    cur.backspace(&mut ed, W, H);
    assert_eq!(ed.text_string(), "hello\nworld");
    assert_eq!(cur.line, 1);
    assert_eq!(cur.col, 3);
}

#[test]
fn typed_run_then_backspaces_restore_document_and_cursor() {
    let mut ed = TextEditor::from_text("xy\nz");
    let mut cur = CursorController { line: 0, col: 1, desired_col: 1 };
    cur.insert_char(&mut ed, 'a', W, H);
    cur.insert_char(&mut ed, 'b', W, H);
    cur.insert_char(&mut ed, 'c', W, H);
    assert_eq!(ed.text_string(), "xabcy\nz");
    cur.backspace(&mut ed, W, H);
    cur.backspace(&mut ed, W, H);
    cur.backspace(&mut ed, W, H);
    assert_eq!(ed.text_string(), "xy\nz");
    assert_eq!((cur.line, cur.col), (0, 1));
}

#[test]
fn horizontal_move_resets_desired_column() {
    let mut ed = TextEditor::from_text("abcdef");
    let mut cur = CursorController { line: 0, col: 3, desired_col: 6 };
    cur.move_left(&mut ed, W, H);
    assert_eq!(cur.col, 2);
    assert_eq!(cur.desired_col, 2);
    cur.move_right(&mut ed, W, H);
    assert_eq!(cur.col, 3);
    assert_eq!(cur.desired_col, 3);
}

#[test]
fn insertion_resets_desired_column() {
    let mut ed = TextEditor::from_text("ab");
    let mut cur = CursorController { line: 0, col: 1, desired_col: 7 };
    cur.insert_char(&mut ed, 'z', W, H);
    assert_eq!(ed.text_string(), "azb");
    assert_eq!(cur.col, 2);
    assert_eq!(cur.desired_col, 2);
}

#[test]
fn left_at_column_zero_wraps_to_previous_line_end() {
    let mut ed = TextEditor::from_text("abc\nde");
    let mut cur = CursorController { line: 1, col: 0, desired_col: 0 };
    cur.move_left(&mut ed, W, H);
    assert_eq!(cur.line, 0);
    assert_eq!(cur.col, 3);
    assert_eq!(cur.desired_col, 3);
}

#[test]
fn right_at_line_end_wraps_to_next_line_start() {
    let mut ed = TextEditor::from_text("abc\nde");
    let mut cur = CursorController { line: 0, col: 3, desired_col: 3 };
    cur.move_right(&mut ed, W, H);
    assert_eq!(cur.line, 1);
    assert_eq!(cur.col, 0);
}

#[test]
fn right_at_document_end_stays_put() {
    let mut ed = TextEditor::from_text("abc");
    let mut cur = CursorController { line: 0, col: 3, desired_col: 3 };
    cur.move_right(&mut ed, W, H);
    assert_eq!(cur.line, 0);
    assert_eq!(cur.col, 3);
}

#[test]
fn backspace_at_column_zero_joins_lines() {
    let mut ed = TextEditor::from_text("abc\nde");
    let mut cur = CursorController { line: 1, col: 0, desired_col: 0 };
    cur.backspace(&mut ed, W, H);
    assert_eq!(ed.text_string(), "abcde");
    assert_eq!(cur.line, 0);
    assert_eq!(cur.col, 3);
}

#[test]
fn backspace_at_document_start_is_a_no_op() {
    let mut ed = TextEditor::from_text("abc");
    let mut cur = CursorController::new();
    cur.backspace(&mut ed, W, H);
    assert_eq!(ed.text_string(), "abc");
    assert_eq!(cur.line, 0);
    assert_eq!(cur.col, 0);
}

#[test]
fn backspace_dedents_inside_space_prefix() {
    let mut ed = TextEditor::from_text("      x");
    let mut cur = CursorController { line: 0, col: 6, desired_col: 6 };
    cur.backspace(&mut ed, W, H);
    // 6 is not a tab stop: dedent lands on 4
    assert_eq!(cur.col, 4);
    assert_eq!(ed.text_string(), "    x");
}

#[test]
fn delete_removes_character_under_cursor() {
    let mut ed = TextEditor::from_text("abc");
    let mut cur = CursorController { line: 0, col: 1, desired_col: 1 };
    cur.delete(&mut ed, W, H);
    assert_eq!(ed.text_string(), "ac");
    assert_eq!(cur.col, 1);
}

#[test]
fn delete_on_terminator_joins_lines() {
    let mut ed = TextEditor::from_text("ab\ncd");
    let mut cur = CursorController { line: 0, col: 2, desired_col: 2 };
    cur.delete(&mut ed, W, H);
    assert_eq!(ed.text_string(), "abcd");
    assert_eq!(cur.line, 0);
    assert_eq!(cur.col, 2);
}

#[test]
fn delete_at_document_end_is_a_no_op() {
    let mut ed = TextEditor::from_text("ab");
    let mut cur = CursorController { line: 0, col: 2, desired_col: 2 };
    cur.delete(&mut ed, W, H);
    assert_eq!(ed.text_string(), "ab");
}

#[test]
fn enter_splits_line_at_cursor() {
    let mut ed = TextEditor::from_text("abcd");
    let mut cur = CursorController { line: 0, col: 2, desired_col: 2 };
    cur.enter(&mut ed, W, H);
    assert_eq!(ed.text_string(), "ab\ncd");
    assert_eq!(cur.line, 1);
    assert_eq!(cur.col, 0);
    assert_eq!(cur.desired_col, 0);
}

#[test]
fn tab_advances_to_next_tab_stop() {
    let mut ed = TextEditor::from_text("ab");
    let mut cur = CursorController { line: 0, col: 1, desired_col: 1 };
    cur.tab(&mut ed, W, H);
    assert_eq!(cur.col, 4);
    assert_eq!(ed.text_string(), "a   b");
}

#[test]
fn tab_at_tab_stop_inserts_four_spaces() {
    let mut ed = TextEditor::from_text("");
    let mut cur = CursorController::new();
    cur.tab(&mut ed, W, H);
    assert_eq!(cur.col, 4);
    assert_eq!(ed.text_string(), "    ");
}

#[test]
fn home_toggles_between_indent_and_column_zero() {
    let mut ed = TextEditor::from_text("    abc");
    // at or after the indent column: home goes to column zero
    let mut cur = CursorController { line: 0, col: 6, desired_col: 6 };
    cur.home(&mut ed, W, H);
    assert_eq!(cur.col, 0);
    // before the indent column: home goes to the indent column
    cur.home(&mut ed, W, H);
    assert_eq!(cur.col, 4);
    cur.home(&mut ed, W, H);
    assert_eq!(cur.col, 0);
}

#[test]
fn home_without_indent_goes_to_column_zero() {
    let mut ed = TextEditor::from_text("abc");
    let mut cur = CursorController { line: 0, col: 2, desired_col: 2 };
    cur.home(&mut ed, W, H);
    assert_eq!(cur.col, 0);
}

#[test]
fn ctrl_home_resets_cursor_and_viewport() {
    let mut ed = TextEditor::from_text("abc\ndef");
    ed.start_line = 1;
    ed.start_col = 2;
    let mut cur = CursorController { line: 1, col: 3, desired_col: 3 };
    cur.doc_home(&mut ed);
    assert_eq!((cur.line, cur.col, cur.desired_col), (0, 0, 0));
    assert_eq!((ed.start_line, ed.start_col), (0, 0));
}

#[test]
fn end_moves_to_line_length() {
    let mut ed = TextEditor::from_text("abc\ndefgh");
    let mut cur = CursorController { line: 0, col: 1, desired_col: 1 };
    cur.end(&mut ed, W, H);
    assert_eq!(cur.col, 3);
    assert_eq!(cur.desired_col, 3);
}

#[test]
fn ctrl_end_moves_to_document_end() {
    let mut ed = TextEditor::from_text("ab\ncd");
    let mut cur = CursorController::new();
    cur.doc_end(&mut ed, W, H);
    assert_eq!(cur.line, 1);
    assert_eq!(cur.col, 2);
}

#[test]
fn ctrl_end_after_trailing_newline_lands_on_empty_last_line() {
    let mut ed = TextEditor::from_text("ab\n");
    let mut cur = CursorController::new();
    cur.doc_end(&mut ed, W, H);
    assert_eq!(cur.line, 1);
    assert_eq!(cur.col, 0);
}

#[test]
fn viewport_follows_cursor_down_and_back_up() {
    let mut text = String::new();
    for i in 0..30 {
        text.push_str(&format!("line{}\n", i));
    }
    let mut ed = TextEditor::from_text(&text);
    let mut cur = CursorController::new();
    let height = 10;
    for _ in 0..25 {
        cur.move_down(&mut ed, W, height);
        assert!(ed.start_line <= cur.line && cur.line < ed.start_line + height);
    }
    assert_eq!(cur.line, 25);
    assert_eq!(ed.start_line, 16);
    for _ in 0..25 {
        cur.move_up(&mut ed, W, height);
        assert!(ed.start_line <= cur.line && cur.line < ed.start_line + height);
    }
    assert_eq!(ed.start_line, 0);
}

#[test]
fn viewport_follows_cursor_horizontally() {
    let mut ed = TextEditor::from_text("abcdefghijklmnop");
    let mut cur = CursorController::new();
    let width = 5;
    for _ in 0..10 {
        cur.move_right(&mut ed, width, H);
        assert!(ed.start_col <= cur.col && cur.col < ed.start_col + width);
    }
    assert_eq!(cur.col, 10);
    assert_eq!(ed.start_col, 6);
}

#[test]
fn paste_clamps_viewport_to_new_cursor() {
    let mut ed = TextEditor::new();
    let mut cur = CursorController::new();
    let mut blob = String::new();
    for i in 0..40 {
        blob.push_str(&format!("row{}\n", i));
    }
    let height = 8;
    cur.paste(&mut ed, &blob, W, height);
    assert_eq!(cur.line, 40);
    assert_eq!(cur.col, 0);
    assert!(ed.start_line <= cur.line && cur.line < ed.start_line + height);
}

#[test]
fn resize_pulls_anchors_inward_only_as_needed() {
    let mut ed = TextEditor::from_text("0123456789\n1\n2\n3\n4\n5\n6\n7\n8\n9");
    ed.start_col = 0;
    ed.start_line = 0;
    let cur = CursorController { line: 9, col: 0, desired_col: 0 };
    cur.resize(&mut ed, 4, 4);
    assert_eq!(ed.start_line, 6);
    assert_eq!(ed.start_col, 0);
    // a second resize to the same dimensions moves nothing
    cur.resize(&mut ed, 4, 4);
    assert_eq!(ed.start_line, 6);
    assert_eq!(ed.start_col, 0);
}

#[test]
fn scrolling_saturates_at_zero_and_adds_otherwise() {
    let mut ed = TextEditor::from_text("a\nb\nc");
    ed.scroll_down(10);
    assert_eq!(ed.start_line, 10);
    ed.scroll_up(3);
    assert_eq!(ed.start_line, 7);
    ed.scroll_up(100);
    assert_eq!(ed.start_line, 0);
    ed.scroll_right(4);
    assert_eq!(ed.start_col, 4);
    ed.scroll_left(1);
    assert_eq!(ed.start_col, 3);
    ed.scroll_left(50);
    assert_eq!(ed.start_col, 0);
}

#[test]
fn normalize_collapses_each_ending_kind() {
    assert_eq!(normalize_paste("a\r\nb"), "a\nb");
    assert_eq!(normalize_paste("a\rb"), "a\nb");
    assert_eq!(normalize_paste("a\nb"), "a\nb");
    assert_eq!(normalize_paste("\r\r"), "\n\n");
    assert_eq!(normalize_paste("\n\n"), "\n\n");
    assert_eq!(normalize_paste(""), "");
}

#[test]
fn normalize_is_idempotent_on_examples() {
    let once = normalize_paste("a\r\nb\rc\nd\r\r\n");
    let twice = normalize_paste(&once);
    assert_eq!(once, twice);
    assert_eq!(once, "a\nb\nc\nd\n\n");
}

#[test]
fn text_string_round_trips_document_text() {
    let ed = TextEditor::from_text("abc\ndef\n");
    assert_eq!(ed.text_string(), "abc\ndef\n");
    let empty = TextEditor::new();
    assert_eq!(empty.text_string(), "");
}

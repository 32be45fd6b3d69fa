use hacker::text_edit::TextEditor;
use hacker::viewport::RenderCell;
use hacker::viewport::render_row;
use hacker::viewport::screen_pos;

#[test]
fn screen_pos_offsets_inside_the_window() {
    assert_eq!(screen_pos(5, 7, 2, 3, 10, 8), (4, 3));
    assert_eq!(screen_pos(0, 0, 0, 0, 10, 8), (0, 0));
}

#[test]
fn screen_pos_clamps_to_nearest_edge() {
    // left/top of the window: edge 0
    assert_eq!(screen_pos(1, 2, 5, 5, 10, 8), (0, 0));
    // right/bottom of the window: far edge
    assert_eq!(screen_pos(30, 40, 2, 3, 10, 8), (9, 7));
}

#[test]
fn render_row_marks_indent_guides_every_four_columns() {
    let row: Vec<char> = "     x".chars().collect();
    let cells = render_row(&row, 80);
    assert_eq!(cells.len(), 6);
    assert_eq!(cells[0], RenderCell::Indent { guide: true, depth: 0 });
    assert_eq!(cells[1], RenderCell::Indent { guide: false, depth: 0 });
    assert_eq!(cells[2], RenderCell::Indent { guide: false, depth: 0 });
    assert_eq!(cells[3], RenderCell::Indent { guide: false, depth: 0 });
    assert_eq!(cells[4], RenderCell::Indent { guide: true, depth: 1 });
    assert_eq!(cells[5], RenderCell::Glyph('x'));
}

#[test]
fn render_row_distinguishes_spaces_after_the_indent() {
    let row: Vec<char> = "a b".chars().collect();
    let cells = render_row(&row, 80);
    assert_eq!(cells[0], RenderCell::Glyph('a'));
    assert_eq!(cells[1], RenderCell::Space);
    assert_eq!(cells[2], RenderCell::Glyph('b'));
}

#[test]
fn render_row_leaves_the_terminator_blank() {
    let row: Vec<char> = "ab\n".chars().collect();
    let cells = render_row(&row, 80);
    assert_eq!(cells[2], RenderCell::Blank);
}

#[test]
fn render_row_truncates_to_window_width() {
    let row: Vec<char> = "abcdefgh".chars().collect();
    let cells = render_row(&row, 3);
    assert_eq!(cells.len(), 3);
    assert_eq!(cells[2], RenderCell::Glyph('c'));
}

#[test]
fn visible_row_slices_from_the_horizontal_anchor() {
    let mut ed = TextEditor::from_text("abcdefgh\nxy");
    ed.start_col = 2;
    let row = ed.visible_row(0, 4);
    assert_eq!(row, "cdef".chars().collect::<Vec<char>>());
}

#[test]
fn visible_row_of_short_line_is_what_remains() {
    let mut ed = TextEditor::from_text("abc\nxy");
    ed.start_col = 1;
    // the remainder of line 0 including its terminator
    assert_eq!(ed.visible_row(0, 80), "bc\n".chars().collect::<Vec<char>>());
    // anchor beyond the line: nothing is visible
    ed.start_col = 10;
    assert_eq!(ed.visible_row(0, 80), Vec::<char>::new());
}

#[test]
fn visible_row_of_last_line_has_no_terminator() {
    let ed = TextEditor::from_text("abc\nxy");
    assert_eq!(ed.visible_row(1, 80), "xy".chars().collect::<Vec<char>>());
}

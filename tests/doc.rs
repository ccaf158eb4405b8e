use lapce_view::doc::{DocLayout, LineLayout, PhantomText, Preedit};

/// Lines "hello", "", "ab": starts 0, 6, 7.
fn three_lines() -> DocLayout {
    let line = |start: usize, len: usize| LineLayout {
        start,
        len,
        phantoms: Vec::new(),
        xs: (0..=8u32).map(|c| c * 10).collect(),
    };
    DocLayout { lines: vec![line(0, 5), line(6, 0), line(7, 2)], preedit: None }
}

#[test]
fn offsets_map_to_line_and_column() {
    let doc = three_lines();
    assert_eq!(doc.offset_to_line_col(0), (0, 0));
    assert_eq!(doc.offset_to_line_col(5), (0, 5));
    assert_eq!(doc.offset_to_line_col(6), (1, 0));
    assert_eq!(doc.offset_to_line_col(8), (2, 1));
    assert_eq!(doc.offset_to_line_col(100), (2, 2));
}

#[test]
fn line_starts_and_ends() {
    let doc = three_lines();
    assert_eq!(doc.offset_of_line(2), 7);
    assert_eq!(doc.offset_of_line(3), 9);
    assert_eq!(doc.line_end_col(0, true), 5);
    assert_eq!(doc.line_end_col(0, false), 4);
    assert_eq!(doc.line_end_col(1, false), 0);
    assert_eq!(doc.line_end_col(9, true), 0);
}

#[test]
fn move_right_stops_at_the_line_end() {
    let doc = three_lines();
    assert_eq!(doc.move_right(2), 3);
    assert_eq!(doc.move_right(5), 5);
    assert_eq!(doc.move_right(6), 6);
    assert_eq!(doc.move_right(8), 9);
    assert_eq!(doc.move_right(9), 9);
}

#[test]
fn inlays_shift_columns() {
    let mut doc = three_lines();
    doc.lines[0].phantoms = vec![PhantomText { col: 1, width: 4 }, PhantomText { col: 3, width: 2 }];
    assert_eq!(doc.col_after(0, 0, false), 0);
    assert_eq!(doc.col_after(0, 1, true), 1);
    assert_eq!(doc.col_after(0, 1, false), 5);
    assert_eq!(doc.col_after(0, 3, true), 7);
    assert_eq!(doc.col_after(0, 4, true), 10);
}

#[test]
fn x_positions_clamp_to_the_table() {
    let doc = three_lines();
    assert_eq!(doc.x_of_col(0, 3), 30);
    assert_eq!(doc.x_of_col(0, 50), 80);
}

#[test]
fn composition_cursor_moves_the_caret_column() {
    let mut doc = three_lines();
    doc.preedit = Some(Preedit { offset: 2, cursor: Some(2) });
    assert_eq!(doc.caret_col(0, 2, false), 4);
    assert_eq!(doc.caret_col(2, 1, false), 1);
    doc.preedit = Some(Preedit { offset: 2, cursor: None });
    assert_eq!(doc.caret_col(0, 2, false), 2);
}

#[test]
fn crlf_breaks_keep_columns_within_the_line() {
    // "ab\r\n" then "cd": the second line starts at offset 4.
    let line = |start: usize| LineLayout {
        start,
        len: 2,
        phantoms: Vec::new(),
        xs: (0..=4u32).map(|c| c * 10).collect(),
    };
    let doc = DocLayout { lines: vec![line(0), line(4)], preedit: None };
    assert_eq!(doc.offset_to_line_col(2), (0, 2));
    assert_eq!(doc.offset_to_line_col(3), (0, 2));
    assert_eq!(doc.offset_to_line_col(4), (1, 0));
    assert_eq!(doc.move_right(3), 2);
    assert_eq!(doc.offset_of_line(1), 4);
}

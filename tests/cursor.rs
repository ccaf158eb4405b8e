use lapce_view::cursor::{
    cursor_caret, project_cursor, ColPosition, CursorMode, CursorRender, SelRegion, Selection,
    VisualMode,
};
use lapce_view::doc::{DocLayout, LineLayout, PhantomText, Preedit};
use lapce_view::screen::{compute_screen_lines, ScreenLines};

/// Five lines of 15 columns, 8 pixels per column: line 3 starts at offset 48.
fn five_lines() -> DocLayout {
    let lines = (0..5)
        .map(|i| LineLayout {
            start: i * 16,
            len: 15,
            phantoms: Vec::new(),
            xs: (0..=20u32).map(|c| c * 8).collect(),
        })
        .collect();
    DocLayout { lines, preedit: None }
}

fn all_lines() -> ScreenLines {
    compute_screen_lines(&vec![20; 5], 0, 100)
}

fn carets(renders: &[CursorRender]) -> usize {
    renders.iter().filter(|r| matches!(r, CursorRender::Caret { .. })).count()
}

fn selections(renders: &[CursorRender]) -> Vec<CursorRender> {
    renders.iter().copied().filter(|r| matches!(r, CursorRender::Selection { .. })).collect()
}

#[test]
fn normal_mode_active_paints_highlight_and_block_caret() {
    let doc = five_lines();
    let r = project_cursor(&doc, &CursorMode::Normal(50), None, 8, true, &all_lines());
    assert_eq!(
        r,
        vec![
            CursorRender::CurrentLine { line: 3 },
            CursorRender::Caret { x: 16, width: 8, line: 3 }
        ]
    );
}

#[test]
fn normal_mode_inactive_paints_highlight_only() {
    let doc = five_lines();
    let r = project_cursor(&doc, &CursorMode::Normal(50), None, 8, false, &all_lines());
    assert_eq!(r, vec![CursorRender::CurrentLine { line: 3 }]);
}

#[test]
fn normal_mode_caret_off_screen_is_not_painted() {
    let doc = five_lines();
    let top = compute_screen_lines(&vec![20; 5], 0, 30);
    let r = project_cursor(&doc, &CursorMode::Normal(50), None, 8, true, &top);
    assert_eq!(r, vec![CursorRender::CurrentLine { line: 3 }]);
}

#[test]
fn block_caret_at_line_end_takes_minimum_width() {
    let doc = five_lines();
    assert_eq!(cursor_caret(&doc, 63, true), CursorRender::Caret { x: 120, width: 7, line: 3 });
}

#[test]
fn thin_caret_stands_left_of_the_column() {
    let doc = five_lines();
    assert_eq!(cursor_caret(&doc, 50, false), CursorRender::Caret { x: 15, width: 2, line: 3 });
}

#[test]
fn offset_past_the_end_is_on_the_last_line() {
    let doc = five_lines();
    assert_eq!(cursor_caret(&doc, 500, false), CursorRender::Caret { x: 119, width: 2, line: 4 });
}

#[test]
fn inlay_before_the_caret_shifts_it_right() {
    let mut doc = five_lines();
    doc.lines[3].phantoms = vec![PhantomText { col: 1, width: 2 }];
    assert_eq!(cursor_caret(&doc, 50, true), CursorRender::Caret { x: 32, width: 8, line: 3 });
}

#[test]
fn inlay_at_the_caret_column_stays_after_a_block_caret() {
    let mut doc = five_lines();
    doc.lines[3].phantoms = vec![PhantomText { col: 2, width: 3 }];
    // The block starts before the inlay and covers it and the character.
    assert_eq!(cursor_caret(&doc, 50, true), CursorRender::Caret { x: 16, width: 32, line: 3 });
    // A thin caret stands after it.
    assert_eq!(cursor_caret(&doc, 50, false), CursorRender::Caret { x: 39, width: 2, line: 3 });
}

#[test]
fn composition_moves_the_caret_on_its_line() {
    let mut doc = five_lines();
    doc.preedit = Some(Preedit { offset: 49, cursor: Some(3) });
    assert_eq!(cursor_caret(&doc, 50, false), CursorRender::Caret { x: 39, width: 2, line: 3 });
    // Not on another line.
    assert_eq!(cursor_caret(&doc, 18, false), CursorRender::Caret { x: 15, width: 2, line: 1 });
}

#[test]
fn charwise_visual_selection() {
    let doc = five_lines();
    let mode = CursorMode::Visual { start: 20, end: 50, mode: VisualMode::Normal };
    let r = project_cursor(&doc, &mode, None, 8, true, &all_lines());
    assert_eq!(
        r,
        vec![
            CursorRender::Selection { x: 32, width: 96, line: 1 },
            CursorRender::Selection { x: 0, width: 128, line: 2 },
            CursorRender::Selection { x: 0, width: 24, line: 3 },
            CursorRender::Caret { x: 16, width: 8, line: 3 },
        ]
    );
}

#[test]
fn linewise_visual_selection() {
    let doc = five_lines();
    let mode = CursorMode::Visual { start: 20, end: 50, mode: VisualMode::Linewise };
    let r = project_cursor(&doc, &mode, None, 8, false, &all_lines());
    assert_eq!(
        r,
        vec![
            CursorRender::Selection { x: 0, width: 128, line: 1 },
            CursorRender::Selection { x: 0, width: 128, line: 2 },
            CursorRender::Selection { x: 0, width: 128, line: 3 },
        ]
    );
}

#[test]
fn blockwise_visual_selection() {
    let doc = five_lines();
    let mode = CursorMode::Visual { start: 20, end: 50, mode: VisualMode::Blockwise };
    let r = project_cursor(&doc, &mode, None, 8, true, &all_lines());
    assert_eq!(
        r,
        vec![
            CursorRender::Selection { x: 16, width: 24, line: 1 },
            CursorRender::Selection { x: 16, width: 24, line: 2 },
            CursorRender::Selection { x: 16, width: 24, line: 3 },
            CursorRender::Caret { x: 16, width: 8, line: 3 },
        ]
    );
}

#[test]
fn blockwise_block_depends_only_on_the_two_columns() {
    let doc = five_lines();
    // Line 1 column 4 to line 3 column 2, and line 1 column 2 to line 3 column 4.
    let a = CursorMode::Visual { start: 20, end: 50, mode: VisualMode::Blockwise };
    let b = CursorMode::Visual { start: 18, end: 52, mode: VisualMode::Blockwise };
    let ra = project_cursor(&doc, &a, None, 8, false, &all_lines());
    let rb = project_cursor(&doc, &b, None, 8, false, &all_lines());
    assert_eq!(ra, rb);
    assert_eq!(ra[0], CursorRender::Selection { x: 16, width: 24, line: 1 });
}

#[test]
fn blockwise_to_line_end_with_end_anchor() {
    let doc = five_lines();
    let mode = CursorMode::Visual { start: 20, end: 50, mode: VisualMode::Blockwise };
    let r = project_cursor(&doc, &mode, Some(ColPosition::End), 8, false, &all_lines());
    assert_eq!(
        r,
        vec![
            CursorRender::Selection { x: 16, width: 104, line: 1 },
            CursorRender::Selection { x: 16, width: 104, line: 2 },
            CursorRender::Selection { x: 16, width: 104, line: 3 },
        ]
    );
}

#[test]
fn blockwise_skips_lines_shorter_than_the_left_edge() {
    let mut doc = five_lines();
    // Line 2 holds two columns; the lines after it move up.
    doc.lines[2].len = 2;
    doc.lines[3].start = 35;
    doc.lines[4].start = 51;
    // From line 1 column 4 to line 3 column 6.
    let mode = CursorMode::Visual { start: 20, end: 41, mode: VisualMode::Blockwise };
    let r = project_cursor(&doc, &mode, None, 8, true, &all_lines());
    assert_eq!(
        r,
        vec![
            CursorRender::Selection { x: 32, width: 24, line: 1 },
            CursorRender::Selection { x: 32, width: 24, line: 3 },
            CursorRender::Caret { x: 48, width: 8, line: 3 },
        ]
    );
}

#[test]
fn blockwise_swapped_ends_give_the_same_blocks() {
    let doc = five_lines();
    let forward = CursorMode::Visual { start: 20, end: 50, mode: VisualMode::Blockwise };
    let backward = CursorMode::Visual { start: 50, end: 20, mode: VisualMode::Blockwise };
    let a = project_cursor(&doc, &forward, None, 8, true, &all_lines());
    let b = project_cursor(&doc, &backward, None, 8, true, &all_lines());
    assert_eq!(selections(&a), selections(&b));
    assert_eq!(b[1], CursorRender::Caret { x: 32, width: 8, line: 1 });
}

#[test]
fn visual_caret_only_when_its_line_is_on_screen() {
    let doc = five_lines();
    let mode = CursorMode::Visual { start: 20, end: 50, mode: VisualMode::Normal };
    let on = project_cursor(&doc, &mode, None, 8, true, &all_lines());
    assert_eq!(carets(&on), 1);
    let top = compute_screen_lines(&vec![20; 5], 0, 30);
    let off = project_cursor(&doc, &mode, None, 8, true, &top);
    assert_eq!(carets(&off), 0);
    assert_eq!(selections(&off).len(), 1);
}

#[test]
fn insert_mode_caret_and_highlight() {
    let doc = five_lines();
    let mode = CursorMode::Insert(Selection { regions: vec![SelRegion { start: 50, end: 50 }] });
    let r = project_cursor(&doc, &mode, None, 8, true, &all_lines());
    assert_eq!(
        r,
        vec![
            CursorRender::CurrentLine { line: 3 },
            CursorRender::Caret { x: 15, width: 2, line: 3 },
        ]
    );
}

#[test]
fn insert_mode_selection_over_lines() {
    let doc = five_lines();
    let mode = CursorMode::Insert(Selection { regions: vec![SelRegion { start: 20, end: 50 }] });
    let r = project_cursor(&doc, &mode, None, 8, true, &all_lines());
    assert_eq!(
        r,
        vec![
            CursorRender::Selection { x: 32, width: 96, line: 1 },
            CursorRender::Selection { x: 0, width: 128, line: 2 },
            CursorRender::CurrentLine { line: 3 },
            CursorRender::Selection { x: 0, width: 16, line: 3 },
            CursorRender::Caret { x: 15, width: 2, line: 3 },
        ]
    );
}

#[test]
fn insert_mode_skips_regions_off_screen() {
    let doc = five_lines();
    let mode = CursorMode::Insert(Selection {
        regions: vec![SelRegion { start: 2, end: 2 }, SelRegion { start: 70, end: 70 }],
    });
    let top = compute_screen_lines(&vec![20; 5], 0, 30);
    let r = project_cursor(&doc, &mode, None, 8, false, &top);
    assert_eq!(r, vec![CursorRender::CurrentLine { line: 0 }]);
    let none = compute_screen_lines(&vec![20; 5], 500, 600);
    assert!(project_cursor(&doc, &mode, None, 8, true, &none).is_empty());
}

#[test]
fn regions_in_range_keeps_touching_regions() {
    let sel = Selection {
        regions: vec![
            SelRegion { start: 0, end: 3 },
            SelRegion { start: 9, end: 5 },
            SelRegion { start: 12, end: 20 },
        ],
    };
    assert_eq!(
        sel.regions_in_range(4, 12),
        vec![SelRegion { start: 9, end: 5 }, SelRegion { start: 12, end: 20 }]
    );
}

#[test]
fn insert_mode_highlights_a_line_once() {
    let doc = five_lines();
    let mode = CursorMode::Insert(Selection {
        regions: vec![SelRegion { start: 49, end: 49 }, SelRegion { start: 51, end: 51 }],
    });
    let r = project_cursor(&doc, &mode, None, 8, true, &all_lines());
    assert_eq!(
        r,
        vec![
            CursorRender::CurrentLine { line: 3 },
            CursorRender::Caret { x: 7, width: 2, line: 3 },
            CursorRender::Caret { x: 23, width: 2, line: 3 },
        ]
    );
    let quiet = project_cursor(&doc, &mode, None, 8, false, &all_lines());
    assert_eq!(quiet, vec![CursorRender::CurrentLine { line: 3 }]);
}

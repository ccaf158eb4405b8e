use lapce_view::cursor::{CursorRender, SelRegion, Selection};
use lapce_view::doc::{DocLayout, LineLayout};
use lapce_view::find::find_rects;
use lapce_view::screen::compute_screen_lines;

fn sample_doc() -> DocLayout {
    let lines = (0..5)
        .map(|i| LineLayout {
            start: i * 16,
            len: 15,
            phantoms: Vec::new(),
            xs: (0..=20u32).map(|c| c * 8).collect(),
        })
        .collect();
    DocLayout { lines, preedit: None }
}

#[test]
fn match_within_a_line() {
    let doc = sample_doc();
    let screen = compute_screen_lines(&vec![20; 5], 0, 100);
    let found = Selection { regions: vec![SelRegion { start: 18, end: 20 }] };
    assert_eq!(
        find_rects(&doc, &found, &screen),
        vec![CursorRender::Selection { x: 16, width: 16, line: 1 }]
    );
}

#[test]
fn match_over_lines_and_empty_match() {
    let doc = sample_doc();
    let screen = compute_screen_lines(&vec![20; 5], 0, 100);
    let found = Selection {
        regions: vec![SelRegion { start: 20, end: 50 }, SelRegion { start: 70, end: 70 }],
    };
    assert_eq!(
        find_rects(&doc, &found, &screen),
        vec![
            CursorRender::Selection { x: 32, width: 88, line: 1 },
            CursorRender::Selection { x: 0, width: 120, line: 2 },
            CursorRender::Selection { x: 0, width: 16, line: 3 },
        ]
    );
}

use lapce_view::screen::compute_screen_lines;

#[test]
fn twenty_pixel_lines_in_hundred_pixel_viewport() {
    let heights = vec![20; 10];
    let screen = compute_screen_lines(&heights, 0, 100);
    assert_eq!(screen.lines, vec![0, 1, 2, 3, 4, 5]);
    let ys: Vec<usize> = screen.lines.iter().map(|l| screen.info[l].y).collect();
    assert_eq!(ys, vec![0, 20, 40, 60, 80, 100]);
    assert_eq!(screen.info.len(), 6);
    assert!(screen.diff_sections.is_empty());
}

#[test]
fn zero_height_line_is_skipped() {
    let heights = vec![20, 0, 20];
    let screen = compute_screen_lines(&heights, 0, 100);
    assert_eq!(screen.lines, vec![0, 2]);
    assert_eq!(screen.info[&2].y, 20);
    assert!(!screen.info.contains_key(&1));
}

#[test]
fn viewport_in_the_middle_of_the_document() {
    let heights = vec![20; 10];
    let screen = compute_screen_lines(&heights, 30, 50);
    assert_eq!(screen.lines, vec![1, 2]);
    assert_eq!(screen.info[&1].y, 20);
    assert_eq!(screen.info[&2].y, 40);
}

#[test]
fn viewport_below_the_document_is_empty() {
    let heights = vec![20; 3];
    let screen = compute_screen_lines(&heights, 100, 200);
    assert!(screen.lines.is_empty());
    assert!(screen.info.is_empty());
}

#[test]
fn wrapped_lines_take_their_full_height() {
    // Line 1 wraps onto three rows of 20 pixels.
    let heights = vec![20, 60, 20, 20];
    let screen = compute_screen_lines(&heights, 50, 90);
    assert_eq!(screen.lines, vec![1, 2]);
    let ys: Vec<usize> = screen.lines.iter().map(|l| screen.info[l].y).collect();
    assert_eq!(ys, vec![20, 80]);
}

#[test]
fn window_lines_and_tops_strictly_increase() {
    let heights = vec![10, 0, 15, 0, 0, 30, 5, 40];
    let screen = compute_screen_lines(&heights, 12, 70);
    assert_eq!(screen.lines, vec![2, 5, 6, 7]);
    for w in screen.lines.windows(2) {
        assert!(w[0] < w[1]);
        assert!(screen.info[&w[0]].y < screen.info[&w[1]].y);
    }
}

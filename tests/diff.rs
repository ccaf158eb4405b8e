use lapce_view::diff::{changes_colors, ChangeColor, ColorBand, DiffRun};

fn runs(v: Vec<DiffRun>) -> im::Vector<DiffRun> {
    im::Vector::from(v)
}

fn band(start_line: usize, height: usize, color: ChangeColor) -> ColorBand {
    ColorBand { start_line, height, removed: height == 0, color }
}

#[test]
fn removal_then_addition_is_one_modified_band() {
    let changes = runs(vec![
        DiffRun::Unchanged(5),
        DiffRun::Removed(2),
        DiffRun::Added(3),
        DiffRun::Unchanged(10),
    ]);
    assert_eq!(changes_colors(changes, 0, 20), vec![band(5, 3, ChangeColor::Modified)]);
}

#[test]
fn lone_removal_is_a_marker_of_no_height() {
    let changes = runs(vec![DiffRun::Unchanged(2), DiffRun::Removed(4), DiffRun::Unchanged(3)]);
    let bands = changes_colors(changes, 0, 10);
    assert_eq!(bands, vec![band(2, 0, ChangeColor::Removed)]);
    assert!(bands[0].removed);
}

#[test]
fn addition_is_an_added_band() {
    let changes = runs(vec![DiffRun::Added(2), DiffRun::Unchanged(1)]);
    assert_eq!(changes_colors(changes, 0, 10), vec![band(0, 2, ChangeColor::Added)]);
}

#[test]
fn runs_before_the_window_give_no_band() {
    let changes = runs(vec![
        DiffRun::Added(2),
        DiffRun::Unchanged(10),
        DiffRun::Added(1),
        DiffRun::Unchanged(10),
    ]);
    assert_eq!(changes_colors(changes, 5, 30), vec![band(12, 1, ChangeColor::Added)]);
}

#[test]
fn walk_stops_past_the_window() {
    let changes = runs(vec![DiffRun::Added(2), DiffRun::Unchanged(10), DiffRun::Added(1)]);
    assert_eq!(changes_colors(changes, 0, 5), vec![band(0, 2, ChangeColor::Added)]);
}

#[test]
fn whole_document_heights_add_up_to_added_lines() {
    let changes = runs(vec![
        DiffRun::Removed(1),
        DiffRun::Added(2),
        DiffRun::Unchanged(3),
        DiffRun::Removed(2),
        DiffRun::Unchanged(1),
        DiffRun::Added(4),
    ]);
    let bands = changes_colors(changes, 0, 10);
    assert_eq!(
        bands,
        vec![
            band(0, 2, ChangeColor::Modified),
            band(5, 0, ChangeColor::Removed),
            band(6, 4, ChangeColor::Added),
        ]
    );
    assert_eq!(bands.iter().map(|b| b.height).sum::<usize>(), 6);
}

#[test]
fn two_removals_then_addition() {
    let changes = runs(vec![DiffRun::Removed(1), DiffRun::Removed(1), DiffRun::Added(1)]);
    assert_eq!(
        changes_colors(changes, 0, 10),
        vec![band(0, 0, ChangeColor::Removed), band(0, 1, ChangeColor::Modified)]
    );
}

#[test]
fn no_runs_no_bands() {
    assert!(changes_colors(im::Vector::new(), 0, 10).is_empty());
}

#[test]
fn pair_inside_a_window_is_one_modified_band() {
    let changes = runs(vec![
        DiffRun::Added(1),
        DiffRun::Unchanged(5),
        DiffRun::Removed(2),
        DiffRun::Added(3),
    ]);
    assert_eq!(changes_colors(changes, 4, 20), vec![band(6, 3, ChangeColor::Modified)]);
    // The removal still before the window, the addition reaching into it.
    let changes = runs(vec![DiffRun::Unchanged(3), DiffRun::Removed(1), DiffRun::Added(2)]);
    assert_eq!(changes_colors(changes, 4, 20), vec![band(3, 2, ChangeColor::Modified)]);
}

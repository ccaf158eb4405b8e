use lapce_view::sticky::{
    get_sticky_header_info, HeaderTable, StickyHeaderCache, StickyKey, StickyRow,
};

fn table(entries: &[(usize, Vec<usize>)]) -> HeaderTable {
    let mut headers = vec![Vec::new(); 20];
    for (line, h) in entries {
        headers[*line] = h.clone();
    }
    HeaderTable { headers }
}

#[test]
fn deeper_context_below_is_adopted_at_once() {
    let t = table(&[(10, vec![2, 5]), (12, vec![2, 5, 9])]);
    let (info, height) = get_sticky_header_info(&t, 200, 20);
    assert_eq!(info.sticky_lines, vec![2, 5, 9]);
    assert!(!info.last_sticky_should_scroll);
    assert_eq!(info.y_diff, 0);
    assert_eq!(height, 60);
}

#[test]
fn no_headers_publish_nothing() {
    let t = table(&[(10, vec![2, 5])]);
    let (info, height) = get_sticky_header_info(&t, 0, 20);
    assert!(info.sticky_lines.is_empty());
    assert!(!info.last_sticky_should_scroll);
    assert_eq!(info.y_diff, 0);
    assert_eq!(height, 0);
}

#[test]
fn shallower_context_below_makes_the_last_header_slide() {
    let t = table(&[(10, vec![2, 5]), (11, vec![2, 5]), (12, vec![2])]);
    let (info, height) = get_sticky_header_info(&t, 205, 20);
    assert_eq!(info.sticky_lines, vec![2, 5]);
    assert!(info.last_sticky_should_scroll);
    assert_eq!(info.y_diff, 5);
    assert_eq!(height, 35);
    let (_, later) = get_sticky_header_info(&t, 215, 20);
    assert_eq!(later, 25);
}

#[test]
fn header_already_gone_is_dropped() {
    let t = table(&[(10, vec![2, 5]), (11, vec![2]), (12, vec![2])]);
    let (info, height) = get_sticky_header_info(&t, 200, 20);
    assert_eq!(info.sticky_lines, vec![2]);
    assert!(!info.last_sticky_should_scroll);
    assert_eq!(height, 20);
}

#[test]
fn header_in_its_own_place_is_not_pinned_until_scrolled() {
    let t = table(&[(10, vec![4, 11]), (12, vec![4, 11])]);
    let (info, height) = get_sticky_header_info(&t, 200, 20);
    assert_eq!(info.sticky_lines, vec![4]);
    assert_eq!(height, 20);
    let (info, height) = get_sticky_header_info(&t, 201, 20);
    assert_eq!(info.sticky_lines, vec![4, 11]);
    assert_eq!(info.y_diff, 1);
    assert_eq!(height, 40);
}

#[test]
fn sticky_height_never_grows_within_a_line() {
    let t = table(&[(10, vec![2, 5]), (11, vec![2, 5]), (12, vec![2])]);
    let mut last = u128::MAX;
    for top in 200..220 {
        let (info, height) = get_sticky_header_info(&t, top, 20);
        assert!(height <= last);
        assert!(height <= info.sticky_lines.len() as u128 * 20);
        last = height;
    }
}

#[test]
fn headers_past_the_table_are_empty() {
    let t = table(&[(19, vec![3])]);
    let (info, height) = get_sticky_header_info(&t, 19 * 20 + 4, 20);
    assert_eq!(info.sticky_lines, vec![3]);
    assert!(info.last_sticky_should_scroll);
    assert_eq!(height, 16);
    let (info, height) = get_sticky_header_info(&t, usize::MAX, 20);
    assert!(info.sticky_lines.is_empty());
    assert_eq!(height, 0);
}

#[test]
fn rows_slide_only_the_last_header() {
    let t = table(&[(10, vec![2, 5]), (11, vec![2, 5]), (12, vec![2])]);
    let (info, _) = get_sticky_header_info(&t, 205, 20);
    assert_eq!(
        info.rows(205, 20),
        vec![
            StickyRow { line: 2, y: 205, height: 20, lift: 0 },
            StickyRow { line: 5, y: 225, height: 15, lift: 5 },
        ]
    );
    let (info, _) = get_sticky_header_info(&t, 200, 20);
    assert_eq!(info.rows(200, 20)[1], StickyRow { line: 5, y: 220, height: 20, lift: 0 });
}

#[test]
fn cache_recomputes_only_when_its_inputs_change() {
    let t = table(&[(10, vec![2, 5]), (12, vec![2, 5, 9])]);
    let mut cache = StickyHeaderCache::new();
    assert!(cache.info.sticky_lines.is_empty());
    let key = StickyKey { enabled: true, revision: 1, viewport_top: 200, line_height: 20 };
    assert!(cache.update(&t, key));
    assert_eq!(cache.info.sticky_lines, vec![2, 5, 9]);
    assert_eq!(cache.height, 60);
    // Same inputs: kept as it is.
    assert!(!cache.update(&t, key));
    assert_eq!(cache.info.sticky_lines, vec![2, 5, 9]);
    // Scrolled to the top: computed again.
    assert!(cache.update(&t, StickyKey { enabled: true, revision: 1, viewport_top: 0, line_height: 20 }));
    assert!(cache.info.sticky_lines.is_empty());
    assert_eq!(cache.height, 0);
}

#[test]
fn cache_publishes_nothing_when_switched_off() {
    let t = table(&[(10, vec![2, 5]), (12, vec![2, 5, 9])]);
    let mut cache = StickyHeaderCache::new();
    let on = StickyKey { enabled: true, revision: 1, viewport_top: 200, line_height: 20 };
    assert!(cache.update(&t, on));
    assert_eq!(cache.height, 60);
    let off = StickyKey { enabled: false, ..on };
    assert!(cache.update(&t, off));
    assert!(cache.info.sticky_lines.is_empty());
    assert!(!cache.info.last_sticky_should_scroll);
    assert_eq!(cache.info.y_diff, 0);
    assert_eq!(cache.height, 0);
    assert!(!cache.update(&t, off));
}

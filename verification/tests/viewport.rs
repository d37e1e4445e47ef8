use arklog::viewport::{
    find_status, last_row_start, latest_unwrapped_anchor, latest_wrapped_step, next_find_index,
    normalized_find_index, previous_find_index, reveal_find, reveal_offset, rows_taken,
    scroll_down_unwrapped, scroll_left_offset, scroll_right_offset, scroll_up_unwrapped,
    window_start, wrapped_scroll_step, ScrollStep,
};
use arklog::log_geometry::{next_wrapped_row_start, previous_wrapped_row_start};
use arklog::ViewportAnchor;

#[test]
fn windows_follow_the_latest_records_until_pinned() {
    assert_eq!(window_start(100, 10, None), 90);
    assert_eq!(window_start(5, 10, None), 0);
    let pinned = Some(ViewportAnchor { record: 20, cell: 0 });
    assert_eq!(window_start(100, 10, pinned), 20);
    let beyond = Some(ViewportAnchor { record: 95, cell: 0 });
    assert_eq!(window_start(100, 10, beyond), 90);
    assert_eq!(latest_unwrapped_anchor(100, 10), ViewportAnchor { record: 90, cell: 0 });
}

#[test]
fn scrolling_down_to_the_end_follows_the_latest_again() {
    assert_eq!(
        scroll_up_unwrapped(100, 10, None, 5),
        ViewportAnchor { record: 85, cell: 0 }
    );
    assert_eq!(scroll_up_unwrapped(100, 10, None, 500).record, 0);
    let pinned = Some(ViewportAnchor { record: 80, cell: 0 });
    assert_eq!(
        scroll_down_unwrapped(100, 10, pinned, 5),
        Some(ViewportAnchor { record: 85, cell: 0 })
    );
    assert_eq!(scroll_down_unwrapped(100, 10, pinned, 10), None);
}

#[test]
fn find_positions_wrap_in_both_directions() {
    assert_eq!(find_status(0, 0), (0, 0));
    assert_eq!(find_status(2, 5), (3, 5));
    assert_eq!(find_status(9, 5), (5, 5));
    assert_eq!(next_find_index(4, 5), 0);
    assert_eq!(next_find_index(1, 5), 2);
    assert_eq!(previous_find_index(0, 5), 4);
    assert_eq!(previous_find_index(3, 5), 2);
    assert_eq!(previous_find_index(next_find_index(3, 5), 5), 3);
    assert_eq!(normalized_find_index(7, 3), 2);
    assert_eq!(normalized_find_index(7, 0), 0);
}

#[test]
fn horizontal_scrolling_stops_at_the_widest_record() {
    assert_eq!(scroll_right_offset(0, 100, 20), 8);
    assert_eq!(scroll_right_offset(80, 100, 20), 81);
    assert_eq!(scroll_right_offset(0, 10, 20), 0);
    assert_eq!(scroll_left_offset(5), 0);
    assert_eq!(scroll_left_offset(20), 12);
}

#[test]
fn revealed_matches_move_the_offset_just_enough() {
    assert_eq!(reveal_offset(10, 5, 8, 20), 5);
    assert_eq!(reveal_offset(0, 30, 35, 20), 17);
    assert_eq!(reveal_offset(0, 30, 60, 20), 30);
    assert_eq!(reveal_offset(0, 3, 6, 20), 0);
    let line = format!("{}NEEDLE", "x".repeat(40));
    let (anchor, offset) = reveal_find(7, &line, "needle", false, 0, 20);
    assert_eq!(anchor, ViewportAnchor { record: 7, cell: 0 });
    assert_eq!(offset, 28);
    let (anchor, offset) = reveal_find(7, &line, "needle", true, 3, 20);
    assert_eq!(anchor, ViewportAnchor { record: 7, cell: 40 });
    assert_eq!(offset, 3);
}

#[test]
fn wrapped_records_report_their_rows() {
    let line = "x".repeat(25);
    assert_eq!(last_row_start(&line, 10), 18);
    assert_eq!(last_row_start("", 10), 0);
    assert_eq!(latest_wrapped_step(&line, 10, 2), Ok(10));
    assert_eq!(latest_wrapped_step(&line, 10, 5), Err(3));
    assert_eq!(rows_taken(&line, 0, 10, 10), 3);
    assert_eq!(rows_taken(&line, 0, 10, 2), 2);
    assert_eq!(rows_taken("", 0, 10, 2), 1);
}

#[test]
fn wrapped_scrolling_moves_by_rows_and_crosses_records() {
    let long = "x".repeat(25);
    let second = next_wrapped_row_start(&long, 0, 10).expect("a second row");
    let top = ViewportAnchor { record: 3, cell: 0 };
    assert_eq!(
        wrapped_scroll_step(top, &long, Some("next"), 10, false),
        ScrollStep::Moved(ViewportAnchor { record: 3, cell: second })
    );
    let inside = ViewportAnchor { record: 3, cell: second };
    assert_eq!(
        wrapped_scroll_step(inside, &long, Some("before"), 10, true),
        ScrollStep::Moved(ViewportAnchor { record: 3, cell: previous_wrapped_row_start(&long, second, 10).unwrap() })
    );
    assert_eq!(
        wrapped_scroll_step(top, &long, Some(&long), 10, true),
        ScrollStep::Moved(ViewportAnchor { record: 2, cell: last_row_start(&long, 10) })
    );
    assert_eq!(wrapped_scroll_step(top, "short", None, 10, true), ScrollStep::Stop);
    let first = ViewportAnchor { record: 0, cell: 0 };
    assert_eq!(wrapped_scroll_step(first, "short", Some("x"), 10, true), ScrollStep::Stop);
    assert_eq!(
        wrapped_scroll_step(first, "short", Some("next"), 10, false),
        ScrollStep::Moved(ViewportAnchor { record: 1, cell: 0 })
    );
    assert_eq!(wrapped_scroll_step(first, "short", None, 10, false), ScrollStep::Stop);
}

use arklog::log_geometry::{visible_byte_range, wrapped_byte_range};
use arklog::log_geometry::{
    cell_range_for_bytes, display_width, first_literal_match_range, horizontal_slice,
    literal_match_ranges_in, next_wrapped_row_start, previous_wrapped_row_start, wrapped_row_starts_from,
    wrapped_row_starts_tail, wrapped_slices,
};

#[test]
fn huge_records_only_materialize_the_requested_wrapped_rows() {
    let huge = "x".repeat(1_000_000);
    let tail = wrapped_row_starts_tail(&huge, 80, 3);
    assert_eq!(tail.len(), 3);
    assert!(tail[0] > u16::MAX as u64);

    let unicode = format!("{}中e\u{301}👩‍💻\tTAIL", "x".repeat(100_000));
    let rows = wrapped_slices(&unicode, 99_990, 8, 3);
    assert!(rows.len() <= 3);
    let visible = rows
        .iter()
        .flat_map(|row| row.graphemes.iter())
        .map(|grapheme| grapheme.text.as_str())
        .collect::<String>();
    assert!(visible.contains('中'));
    assert!(visible.contains("e\u{301}"));
    assert!(visible.contains("👩‍💻"));
}

#[test]
fn display_width_counts_wide_graphemes_and_tab_stops() {
    assert_eq!(display_width("abc"), 3);
    assert_eq!(display_width("中"), 2);
    assert_eq!(display_width("e\u{301}"), 1);
    assert_eq!(display_width("a\tb"), 5);
    assert_eq!(display_width("abcd\t"), 8);
    assert_eq!(display_width(""), 0);
}

#[test]
fn horizontal_slices_mark_hidden_content_on_each_side() {
    let whole = horizontal_slice("short", 0, 10);
    assert!(!whole.hidden_left);
    assert!(!whole.hidden_right);
    assert_eq!(whole.graphemes.len(), 5);

    let line = "x".repeat(30);
    let middle = horizontal_slice(&line, 5, 10);
    assert!(middle.hidden_left);
    assert!(middle.hidden_right);
    assert_eq!(middle.graphemes.len(), 8);
    assert_eq!(middle.graphemes[0].source_start, 5);

    let exact = horizontal_slice(&"y".repeat(10), 0, 10);
    assert!(!exact.hidden_left);
    assert!(!exact.hidden_right);
}

#[test]
fn tabs_are_shown_as_spaces_to_the_next_stop() {
    let slice = horizontal_slice("a\tb", 0, 20);
    let texts = slice
        .graphemes
        .iter()
        .map(|grapheme| grapheme.text.clone())
        .collect::<Vec<_>>();
    assert_eq!(texts, vec!["a".to_string(), "   ".to_string(), "b".to_string()]);
    assert_eq!(slice.graphemes[1].source_start, 1);
    assert_eq!(slice.graphemes[1].source_end, 2);
}

#[test]
fn wide_graphemes_are_never_split_at_the_viewport_edge() {
    let slice = horizontal_slice("ab中", 0, 3);
    assert!(slice.hidden_right);
    let texts = slice
        .graphemes
        .iter()
        .map(|grapheme| grapheme.text.as_str())
        .collect::<String>();
    assert_eq!(texts, "ab");
}

#[test]
fn wrapped_rows_start_where_the_previous_row_is_full() {
    let line = "x".repeat(25);
    assert_eq!(wrapped_row_starts_from(&line, 0, 10, 10), vec![0, 10, 18]);
    assert_eq!(wrapped_row_starts_from(&line, 0, 10, 2), vec![0, 10]);
    assert_eq!(wrapped_row_starts_from(&line, 0, 10, 0), Vec::<u64>::new());
    assert_eq!(wrapped_row_starts_tail(&line, 10, 2), vec![10, 18]);
    assert_eq!(next_wrapped_row_start(&line, 0, 10), Some(10));
    assert_eq!(next_wrapped_row_start(&line, 18, 10), None);
    assert_eq!(previous_wrapped_row_start(&line, 18, 10), Some(10));
    assert_eq!(previous_wrapped_row_start(&line, 10, 10), Some(0));
    assert_eq!(previous_wrapped_row_start(&line, 0, 10), None);
}

#[test]
fn wrapped_slices_mark_continuation_rows() {
    let rows = wrapped_slices(&"z".repeat(12), 0, 10, 5);
    assert_eq!(rows.len(), 2);
    assert!(!rows[0].continuation);
    assert!(rows[1].continuation);
    assert_eq!(rows[0].graphemes.len(), 10);
    assert_eq!(rows[1].graphemes.len(), 2);

    let empty = wrapped_slices("", 0, 10, 5);
    assert_eq!(empty.len(), 1);
    assert!(empty[0].graphemes.is_empty());
}

#[test]
fn literal_find_is_case_insensitive_and_escapes_regex_syntax() {
    assert_eq!(first_literal_match_range("Error: a.b", "A.B"), Some((7, 10)));
    assert_eq!(first_literal_match_range("axb", "a.b"), None);
    assert_eq!(first_literal_match_range("anything", ""), None);
    assert_eq!(
        literal_match_ranges_in("ab ab ab ab", "ab", 3, 8),
        vec![(3, 5), (6, 8)]
    );
}

#[test]
fn byte_ranges_map_to_the_columns_of_their_graphemes() {
    assert_eq!(cell_range_for_bytes("a中b", 1, 4), Some((1, 3)));
    assert_eq!(cell_range_for_bytes("a\tb", 2, 3), Some((4, 5)));
    assert_eq!(cell_range_for_bytes("abc", 5, 6), None);
}

#[test]
fn wrapped_rows_together_hold_the_whole_record() {
    let record = "plain ascii, 中文, e\u{301}, 👩‍💻 and more text to wrap";
    let rows = wrapped_slices(record, 0, 7, usize::MAX);
    let joined = rows
        .iter()
        .flat_map(|row| row.graphemes.iter())
        .map(|grapheme| grapheme.text.as_str())
        .collect::<String>();
    assert_eq!(joined, record);
    assert!(rows.len() > 1);
}

#[test]
fn horizontal_slice_marks_only_content_that_is_actually_hidden() {
    let long = "abcdefghijklmnopqrstuvwxyz".repeat(4);
    let first = horizontal_slice(&long, 20, 70);
    assert!(first.hidden_left);
    assert_eq!(first.graphemes[0].text, "u");
    assert!(first.hidden_right);

    let second = horizontal_slice("short", 20, 70);
    assert!(second.hidden_left);
    assert!(!second.hidden_right);
}

#[test]
fn short_and_exact_width_lines_have_no_overflow_markers_at_column_zero() {
    for line in ["short".to_string(), "x".repeat(70)] {
        let slice = horizontal_slice(&line, 0, 70);
        assert!(!slice.hidden_left);
        assert!(!slice.hidden_right);
    }
}

#[test]
fn huge_offsets_crop_unicode_graphemes_and_keep_find_highlight_on_source_text() {
    let raw = format!("{}中e\u{301}👩‍💻\tNEEDLE", "x".repeat(65_540));
    let slice = horizontal_slice(&raw, 65_540, 70);
    assert!(slice.hidden_left);
    assert_eq!(slice.graphemes[0].text, "中");
    let start = slice.graphemes[0].source_start;
    let end = slice.graphemes.last().expect("shown graphemes").source_end;
    let found = literal_match_ranges_in(&raw, "needle", start, end);
    assert_eq!(found, vec![(raw.len() - 6, raw.len())]);
    assert_eq!(&raw[found[0].0..found[0].1], "NEEDLE");
}

#[test]
fn shown_graphemes_cover_the_bytes_between_the_first_and_the_last() {
    let slice = horizontal_slice("abc中def", 0, 10);
    assert_eq!(visible_byte_range(&slice.graphemes), Some((0, 9)));
    let cut = horizontal_slice("abc中def", 2, 4);
    assert_eq!(visible_byte_range(&cut.graphemes), Some((2, 3)));
    assert_eq!(visible_byte_range(&[]), None);

    let rows = wrapped_slices(&"x".repeat(30), 0, 10, 2);
    assert_eq!(wrapped_byte_range(&rows), Some((0, rows.last().unwrap().graphemes.last().unwrap().source_end)));
    assert_eq!(wrapped_byte_range(&[]), None);
}

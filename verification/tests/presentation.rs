use arklog::presentation::{glyph_marks, GlyphMarks};
use arklog::presentation::{
    connection_tone, device_placeholder, device_row_columns, fault_row_text, header_widths,
    hilog_title, input_cursor_limit, input_cursor_position, list_window_start, log_level_field,
    panel_content_height, panel_content_width, panel_value, pending_hint, query_panel,
    ranges_overlap, stream_detail, stream_label, devices_title,
};
use arklog::{DeviceLogDevice, InputMode, LogLevel, LogTab, StreamAction, StreamState, Tone};

#[test]
fn level_letters_parse_and_anything_else_does_not() {
    assert_eq!(LogLevel::parse("F"), Some(LogLevel::Fatal));
    assert_eq!(LogLevel::parse("E"), Some(LogLevel::Error));
    assert_eq!(LogLevel::parse("W"), Some(LogLevel::Warning));
    assert_eq!(LogLevel::parse("I"), Some(LogLevel::Info));
    assert_eq!(LogLevel::parse("D"), Some(LogLevel::Debug));
    assert_eq!(LogLevel::parse("V"), Some(LogLevel::Verbose));
    assert_eq!(LogLevel::parse("e"), None);
    assert_eq!(LogLevel::parse("EE"), None);
    assert_eq!(LogLevel::parse(""), None);
}

#[test]
fn the_level_field_is_found_in_standard_and_numbered_records() {
    let standard = "08-30 20:10:01.001 120 121 E ArkUI/Render failed";
    assert_eq!(log_level_field(standard), Some((27, 28, LogLevel::Error)));
    let numbered = "7 08-30 20:10:01.001 120 121 W Tag message";
    assert_eq!(log_level_field(numbered), Some((29, 30, LogLevel::Warning)));
    let short = "42 I message";
    assert_eq!(log_level_field(short), Some((3, 4, LogLevel::Info)));
    assert_eq!(log_level_field("+42 D message"), Some((4, 5, LogLevel::Debug)));
    assert_eq!(log_level_field("no level here"), None);
    assert_eq!(log_level_field("08-30 20:10:01.001 120 121 X tag"), None);
    assert_eq!(log_level_field("99999999999999999999 I overflow"), None);
    assert_eq!(log_level_field(""), None);
}

#[test]
fn panel_insets_keep_at_least_one_cell() {
    assert_eq!(panel_content_height(10), 8);
    assert_eq!(panel_content_height(2), 1);
    assert_eq!(panel_content_height(0), 1);
    assert_eq!(panel_content_width(72), 70);
    assert_eq!(panel_content_width(1), 1);
    assert_eq!(input_cursor_limit(10), 9);
    assert_eq!(input_cursor_limit(0), 0);
    assert_eq!(input_cursor_position(5, 2, 3, 10), (9, 3));
    assert_eq!(input_cursor_position(5, 2, 30, 10), (15, 3));
}

#[test]
fn header_labels_follow_connection_and_stream_state() {
    assert_eq!(pending_hint(Some(StreamAction::Start)), " · START QUEUED");
    assert_eq!(device_placeholder("No devices", None), "No devices");
    assert_eq!(
        device_placeholder("Select an online device", Some(StreamAction::Start)),
        "Select device · START QUEUED"
    );
    assert_eq!(
        device_placeholder("Refreshing devices", Some(StreamAction::Stop)),
        "No devices · Refreshing devices · STOP QUEUED"
    );
    assert_eq!(stream_label(&StreamState::Streaming), ("● LIVE", Tone::Success));
    let active = StreamState::Error { message: "boom".to_string(), active: true };
    assert_eq!(stream_label(&active), ("! ACTIVE", Tone::Error));
    assert_eq!(stream_detail(&StreamState::Stopping, Some(StreamAction::Start)), "RESTART QUEUED");
    assert_eq!(stream_detail(&StreamState::Starting, Some(StreamAction::Stop)), "STOP QUEUED");
    assert_eq!(stream_detail(&active, None), "boom");
    assert_eq!(header_widths(false, true, false), (29, 30));
    assert_eq!(header_widths(true, false, true), (16, 0));
    assert_eq!(header_widths(false, false, true), (32, 0));
}

#[test]
fn query_panel_shows_the_filter_or_the_connection_problem() {
    assert_eq!(
        query_panel(false, InputMode::Normal, "Devices ready", LogTab::HiLog, "", ""),
        (" REGEX FILTER · Ctrl+E TO EDIT ", "<all raw logs>", Tone::Muted)
    );
    assert_eq!(
        query_panel(false, InputMode::Normal, "hdc missing", LogTab::HiLog, "", ""),
        (" CONNECTION ", "hdc missing", Tone::Error)
    );
    assert_eq!(
        query_panel(false, InputMode::Find, "Devices ready", LogTab::HiLog, "", "needle").1,
        "needle"
    );
    assert_eq!(
        query_panel(false, InputMode::Normal, "No devices", LogTab::FaultLog, "x", "").0,
        " FAULT LOG · Ctrl+R REFRESH "
    );
    assert_eq!(panel_value(None, Some("bad regex"), "value", Tone::Muted), ("bad regex", Tone::Error));
    assert_eq!(panel_value(None, None, "value", Tone::Muted), ("value", Tone::Muted));
    assert_eq!(connection_tone("online"), Tone::Success);
    assert_eq!(connection_tone("offline"), Tone::Warning);
    assert_eq!(connection_tone("unauthorized"), Tone::Error);
}

#[test]
fn titles_and_rows_are_formatted_for_the_panels() {
    assert_eq!(
        hilog_title(true, false, 3, 10, 1, 2),
        " FOLLOWING LATEST · 3 / 10 VISIBLE · FIND 1/2 "
    );
    assert_eq!(
        hilog_title(false, true, 0, 0, 0, 0),
        " SCROLL PAUSED · Ctrl+G TO LATEST · WRAP ON · 0 / 0 VISIBLE · FIND 0/0 "
    );
    assert_eq!(fault_row_text(0, "USB-01-fault-1"), "1  USB-01-fault-1");
    assert_eq!(devices_title(2), " CONNECTED DEVICES · 2 · Ctrl+R refresh ");
    let device = DeviceLogDevice {
        id: "USB-01".to_string(),
        label: "USB-01".to_string(),
        status: "online".to_string(),
        detail: String::new(),
    };
    let (id, status) = device_row_columns(&device);
    assert_eq!(id, format!("{:<20}", "USB-01"));
    assert_eq!(status, format!("{:<13}", "ONLINE"));
}

#[test]
fn list_windows_keep_the_selection_visible() {
    assert_eq!(list_window_start(0, 10, 3), 0);
    assert_eq!(list_window_start(5, 10, 3), 3);
    assert_eq!(list_window_start(9, 10, 3), 7);
    assert_eq!(list_window_start(50, 10, 3), 7);
    assert_eq!(list_window_start(2, 2, 5), 0);
    assert!(ranges_overlap(0, 3, 2, 5));
    assert!(!ranges_overlap(0, 2, 2, 5));
}

#[test]
fn only_graphemes_inside_the_level_field_or_a_match_are_marked() {
    let level = Some((10, 11, LogLevel::Error));
    let filter = [(0, 3)];
    let find = [(12, 16)];
    assert_eq!(
        glyph_marks(10, 11, level, &filter, &find),
        GlyphMarks { level: Some(LogLevel::Error), find_match: false, filter_match: false }
    );
    assert_eq!(
        glyph_marks(2, 3, level, &filter, &find),
        GlyphMarks { level: None, find_match: false, filter_match: true }
    );
    assert_eq!(
        glyph_marks(15, 18, level, &filter, &find),
        GlyphMarks { level: None, find_match: true, filter_match: false }
    );
    assert_eq!(
        glyph_marks(3, 10, level, &filter, &find),
        GlyphMarks { level: None, find_match: false, filter_match: false }
    );
}

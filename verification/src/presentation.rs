use vstd::prelude::*;

use crate::devices::DeviceLogDevice;
use crate::runtime_state::{StreamAction, StreamState, stream_message};
use crate::text::{decimal, is_ws, push_decimal, push_str, string_from, utf8_len};

verus! {

pub const MIN_TERMINAL_WIDTH: u16 = 72;
pub const MIN_TERMINAL_HEIGHT: u16 = 16;
pub const TOP_CONTROLS_HEIGHT: u16 = 3;
pub const NARROW_CONTROLS_BREAKPOINT: u16 = 96;
pub const EDITING_DEVICE_WIDTH: u16 = 16;
pub const NARROW_EMPTY_DEVICE_WIDTH: u16 = 32;
pub const NARROW_DEVICE_WIDTH: u16 = 16;
pub const NARROW_STREAM_STATUS_WIDTH: u16 = 16;
pub const EMPTY_DEVICE_WIDTH: u16 = 50;
pub const CONNECTED_DEVICE_WIDTH: u16 = 29;
pub const CONNECTED_STREAM_STATUS_WIDTH: u16 = 30;
pub const LOG_TABS_WIDTH: u16 = 24;
pub const HIDDEN_STREAM_WIDTH: u16 = 0;
pub const FAULT_LIST_PERCENT: u16 = 32;
pub const DEVICE_ID_COLUMN_WIDTH: usize = 20;
pub const DEVICE_STATUS_COLUMN_WIDTH: usize = 13;
pub const DEVICE_FIELD_GAP: &'static str = "  ";
pub const SELECTED_ROW_MARKER: &'static str = "▶ ";
pub const UNSELECTED_ROW_MARKER: &'static str = "  ";
pub const LEFT_OVERFLOW_MARKER: &'static str = "‹";
pub const RIGHT_OVERFLOW_MARKER: &'static str = "›";
pub const WRAPPED_CONTINUATION_MARKER: &'static str = "↪ ";
pub const MIN_TERMINAL_MESSAGE: &'static str = "ArkLog needs at least 72 x 16 terminal cells";

const PANEL_VERTICAL_BORDER_CELLS: u16 = 2;
const MIN_PANEL_CONTENT_ROWS: u16 = 1;
const PANEL_HORIZONTAL_BORDER_CELLS: u16 = 2;
const PANEL_CONTENT_OFFSET: u16 = 1;
const INPUT_CURSOR_RESERVE: usize = 1;

/// The log views of the workspace.
#[derive(Clone, Copy, Debug, PartialEq, Eq, Structural)]
pub enum LogTab {
    HiLog,
    FaultLog,
}

impl LogTab {
    /// The other view: the two alternate.
    pub fn next(self) -> (r: LogTab)
        ensures
            r == (match self {
                LogTab::HiLog => LogTab::FaultLog,
                LogTab::FaultLog => LogTab::HiLog,
            }),
    {
        match self {
            LogTab::HiLog => LogTab::FaultLog,
            LogTab::FaultLog => LogTab::HiLog,
        }
    }
}

/// Which query, if any, the top input edits.
#[derive(Clone, Copy, Debug, PartialEq, Eq, Structural)]
pub enum InputMode {
    Normal,
    Filter,
    Find,
}

/// What covers the workspace.
#[derive(Clone, Copy, Debug, PartialEq, Eq, Structural)]
pub enum OverlayMode {
    Nothing,
    Devices,
}

/// The colour role of a piece of text.
#[derive(Clone, Copy, Debug, PartialEq, Eq, Structural)]
pub enum Tone {
    Accent,
    Info,
    Success,
    Warning,
    Error,
    Muted,
}

/// Severity letters of HiLog records.
#[derive(Clone, Copy, Debug, PartialEq, Eq, Structural)]
pub enum LogLevel {
    Fatal,
    Error,
    Warning,
    Info,
    Debug,
    Verbose,
}

pub open spec fn level_of(field: Seq<char>) -> Option<LogLevel> {
    if field == seq!['F'] {
        Some(LogLevel::Fatal)
    } else if field == seq!['E'] {
        Some(LogLevel::Error)
    } else if field == seq!['W'] {
        Some(LogLevel::Warning)
    } else if field == seq!['I'] {
        Some(LogLevel::Info)
    } else if field == seq!['D'] {
        Some(LogLevel::Debug)
    } else if field == seq!['V'] {
        Some(LogLevel::Verbose)
    } else {
        None
    }
}

impl LogLevel {
    /// The level that a one-letter field names: F, E, W, I, D or V.
    pub fn parse(field: &str) -> (r: Option<LogLevel>)
        ensures
            r == level_of(field@),
    {
        let cs = crate::text::chars_of(field);
        Self::parse_chars(cs.as_slice())
    }

    pub fn parse_chars(field: &[char]) -> (r: Option<LogLevel>)
        ensures
            r == level_of(field@),
    {
        if field.len() != 1 {
            proof {
                assert(field@.len() != 1);
                assert(seq!['F'].len() == 1);
            }
            return None;
        }
        let c = field[0];
        assert(field@ =~= seq![c]);
        if c == 'F' {
            Some(LogLevel::Fatal)
        } else if c == 'E' {
            Some(LogLevel::Error)
        } else if c == 'W' {
            Some(LogLevel::Warning)
        } else if c == 'I' {
            Some(LogLevel::Info)
        } else if c == 'D' {
            Some(LogLevel::Debug)
        } else if c == 'V' {
            Some(LogLevel::Verbose)
        } else {
            proof {
                assert(seq![c] != seq!['F']) by {
                    assert(seq![c][0] != seq!['F'][0]);
                }
                assert(seq![c] != seq!['E']) by {
                    assert(seq![c][0] != seq!['E'][0]);
                }
                assert(seq![c] != seq!['W']) by {
                    assert(seq![c][0] != seq!['W'][0]);
                }
                assert(seq![c] != seq!['I']) by {
                    assert(seq![c][0] != seq!['I'][0]);
                }
                assert(seq![c] != seq!['D']) by {
                    assert(seq![c][0] != seq!['D'][0]);
                }
                assert(seq![c] != seq!['V']) by {
                    assert(seq![c][0] != seq!['V'][0]);
                }
            }
            None
        }
    }
}

/// The tone of a device's connection status.
pub fn connection_tone(status: &str) -> (r: Tone)
    ensures
        r == (if status@ == "online"@ {
            Tone::Success
        } else if status@ == "offline"@ {
            Tone::Warning
        } else {
            Tone::Error
        }),
{
    if crate::text::str_eq(status, "online") {
        Tone::Success
    } else if crate::text::str_eq(status, "offline") {
        Tone::Warning
    } else {
        Tone::Error
    }
}

/// The text rows inside a bordered panel of `height` rows: at least one.
pub fn panel_content_height(height: u16) -> (r: usize)
    ensures
        r == (if height >= 3 {
            height - 2
        } else {
            1
        }),
{
    let inner = if height >= PANEL_VERTICAL_BORDER_CELLS {
        height - PANEL_VERTICAL_BORDER_CELLS
    } else {
        0
    };
    if inner >= MIN_PANEL_CONTENT_ROWS {
        inner as usize
    } else {
        MIN_PANEL_CONTENT_ROWS as usize
    }
}

/// The text columns inside a bordered panel of `width` columns: at least one.
pub fn panel_content_width(width: u16) -> (r: usize)
    ensures
        r == (if width >= 3 {
            width - 2
        } else {
            1
        }),
{
    let inner = if width >= PANEL_HORIZONTAL_BORDER_CELLS {
        width - PANEL_HORIZONTAL_BORDER_CELLS
    } else {
        0
    };
    if inner >= 1 {
        inner as usize
    } else {
        1
    }
}

/// The columns an input field of `width` columns shows its text in.
pub fn input_content_width(width: u16) -> (r: usize)
    ensures
        r == (if width >= 2 {
            width - 2
        } else {
            0
        }),
{
    if width >= PANEL_HORIZONTAL_BORDER_CELLS {
        (width - PANEL_HORIZONTAL_BORDER_CELLS) as usize
    } else {
        0
    }
}

/// The last column the cursor may take in `width` columns (one is kept for it).
pub fn input_cursor_limit(width: usize) -> (r: usize)
    ensures
        r == (if width >= 1 {
            width - 1
        } else {
            0
        }),
{
    if width >= INPUT_CURSOR_RESERVE {
        width - INPUT_CURSOR_RESERVE
    } else {
        0
    }
}

/// Where the terminal cursor goes for an input panel at (`x`, `y`) whose cursor
/// stands `cursor_column` columns into its text.
pub fn input_cursor_position(x: u16, y: u16, cursor_column: usize, width: usize) -> (r: (u16, u16))
    requires
        y < u16::MAX,
    ensures
        ({
            let limit: int = if width >= 1 {
                width - 1
            } else {
                0
            };
            let column: int = if cursor_column <= limit {
                cursor_column as int
            } else {
                limit
            };
            let shift = (1 + column) as u16;
            &&& r.0 == (if x + shift > u16::MAX {
                u16::MAX as int
            } else {
                x + shift
            })
            &&& r.1 == y + 1
        }),
{
    let limit = input_cursor_limit(width);
    let column = if cursor_column <= limit {
        cursor_column
    } else {
        limit
    };
    let shift = PANEL_CONTENT_OFFSET.wrapping_add(column as u16);
    assert(shift == (1 + column) as u16) by (bit_vector)
        requires
            shift == (1u16 as u16).wrapping_add(column as u16),
    ;
    (x.saturating_add(shift), y + PANEL_CONTENT_OFFSET)
}

/// Whether two half-open ranges share a position.
pub fn ranges_overlap(left_start: usize, left_end: usize, right_start: usize, right_end: usize) -> (r:
    bool)
    ensures
        r == (left_start < right_end && right_start < left_end),
{
    left_start < right_end && right_start < left_end
}

/// The first row of a list window of `height` rows over `len` items that keeps
/// item `selected` (at most the last item) in view, as far down as it can.
pub open spec fn list_window_start_spec(selected: int, len: int, height: int) -> int {
    let s = if selected < len - 1 {
        selected
    } else {
        len - 1
    };
    let bottom = if s + 1 >= height {
        s + 1 - height
    } else {
        0
    };
    let latest = if len >= height {
        len - height
    } else {
        0
    };
    if bottom <= latest {
        bottom
    } else {
        latest
    }
}

pub fn list_window_start(selected: usize, len: usize, height: usize) -> (r: usize)
    requires
        len > 0,
    ensures
        r == list_window_start_spec(selected as int, len as int, height as int),
        r + height >= len ==> r <= len,
        r <= len,
{
    let s = if selected < len - 1 {
        selected
    } else {
        len - 1
    };
    let bottom = if s + 1 >= height {
        s + 1 - height
    } else {
        0
    };
    let latest = if len >= height {
        len - height
    } else {
        0
    };
    if bottom <= latest {
        bottom
    } else {
        latest
    }
}


/// Widths of the header's device and stream panels; the query panel and the
/// log view tabs (`LOG_TABS_WIDTH`) sit between them.
pub open spec fn header_widths_spec(editing_query: bool, has_device: bool, narrow: bool) -> (u16, u16) {
    if editing_query {
        (EDITING_DEVICE_WIDTH, if has_device {
            NARROW_STREAM_STATUS_WIDTH
        } else {
            HIDDEN_STREAM_WIDTH
        })
    } else if !has_device && narrow {
        (NARROW_EMPTY_DEVICE_WIDTH, HIDDEN_STREAM_WIDTH)
    } else if !has_device {
        (EMPTY_DEVICE_WIDTH, HIDDEN_STREAM_WIDTH)
    } else if narrow {
        (NARROW_DEVICE_WIDTH, NARROW_STREAM_STATUS_WIDTH)
    } else {
        (CONNECTED_DEVICE_WIDTH, CONNECTED_STREAM_STATUS_WIDTH)
    }
}

pub fn header_widths(editing_query: bool, has_device: bool, narrow: bool) -> (r: (u16, u16))
    ensures
        r == header_widths_spec(editing_query, has_device, narrow),
{
    if editing_query {
        (EDITING_DEVICE_WIDTH, if has_device {
            NARROW_STREAM_STATUS_WIDTH
        } else {
            HIDDEN_STREAM_WIDTH
        })
    } else if !has_device && narrow {
        (NARROW_EMPTY_DEVICE_WIDTH, HIDDEN_STREAM_WIDTH)
    } else if !has_device {
        (EMPTY_DEVICE_WIDTH, HIDDEN_STREAM_WIDTH)
    } else if narrow {
        (NARROW_DEVICE_WIDTH, NARROW_STREAM_STATUS_WIDTH)
    } else {
        (CONNECTED_DEVICE_WIDTH, CONNECTED_STREAM_STATUS_WIDTH)
    }
}

pub open spec fn pending_hint_spec(action: Option<StreamAction>) -> Seq<char> {
    match action {
        Some(StreamAction::Start) => " · START QUEUED"@,
        Some(StreamAction::Stop) => " · STOP QUEUED"@,
        None => ""@,
    }
}

/// The note that a queued stream action adds to the device panel.
pub fn pending_hint(action: Option<StreamAction>) -> (r: &'static str)
    ensures
        r@ == pending_hint_spec(action),
{
    match action {
        Some(StreamAction::Start) => " · START QUEUED",
        Some(StreamAction::Stop) => " · STOP QUEUED",
        None => "",
    }
}

pub open spec fn device_placeholder_spec(connection_status: Seq<char>, action: Option<StreamAction>) -> Seq<char> {
    if connection_status == "No devices"@ {
        "No devices"@ + pending_hint_spec(action)
    } else if connection_status == "Select an online device"@ {
        "Select device"@ + pending_hint_spec(action)
    } else {
        "No devices · "@ + connection_status + pending_hint_spec(action)
    }
}

/// What the device panel says when no device is selected.
pub fn device_placeholder(connection_status: &str, action: Option<StreamAction>) -> (r: String)
    ensures
        r@ == device_placeholder_spec(connection_status@, action),
{
    let hint = pending_hint(action);
    let mut out = if crate::text::str_eq(connection_status, "No devices") {
        string_from("No devices")
    } else if crate::text::str_eq(connection_status, "Select an online device") {
        string_from("Select device")
    } else {
        let mut out = string_from("No devices · ");
        push_str(&mut out, connection_status);
        out
    };
    push_str(&mut out, hint);
    out
}

pub open spec fn stream_label_spec(state: StreamState) -> (Seq<char>, Tone) {
    match state {
        StreamState::Starting => ("◌ STARTING"@, Tone::Info),
        StreamState::Streaming => ("● LIVE"@, Tone::Success),
        StreamState::Stopping => ("◌ STOPPING"@, Tone::Warning),
        StreamState::Stopped => ("■ STOPPED"@, Tone::Warning),
        StreamState::Error { active, .. } => if active {
            ("! ACTIVE"@, Tone::Error)
        } else {
            ("! STOPPED"@, Tone::Error)
        },
    }
}

/// The badge and tone of the stream panel.
pub fn stream_label(state: &StreamState) -> (r: (&'static str, Tone))
    ensures
        (r.0@, r.1) == stream_label_spec(*state),
{
    match state {
        StreamState::Starting => ("◌ STARTING", Tone::Info),
        StreamState::Streaming => ("● LIVE", Tone::Success),
        StreamState::Stopping => ("◌ STOPPING", Tone::Warning),
        StreamState::Stopped => ("■ STOPPED", Tone::Warning),
        StreamState::Error { active, .. } => if *active {
            ("! ACTIVE", Tone::Error)
        } else {
            ("! STOPPED", Tone::Error)
        },
    }
}

pub open spec fn stream_detail_spec(state: StreamState, action: Option<StreamAction>) -> Seq<char> {
    if state is Stopping && action == Some(StreamAction::Start) {
        "RESTART QUEUED"@
    } else if state is Starting && action == Some(StreamAction::Stop) {
        "STOP QUEUED"@
    } else {
        stream_message(state)
    }
}

/// The text beside the stream badge: a queued reversal, or the state's message.
pub fn stream_detail<'a>(state: &'a StreamState, action: Option<StreamAction>) -> (r: &'a str)
    ensures
        r@ == stream_detail_spec(*state, action),
{
    match (state, action) {
        (StreamState::Stopping, Some(StreamAction::Start)) => "RESTART QUEUED",
        (StreamState::Starting, Some(StreamAction::Stop)) => "STOP QUEUED",
        _ => state.message(),
    }
}

/// The query panel's title, text and tone, before errors are shown.
pub open spec fn query_panel_spec(
    devices_overlay: bool,
    mode: InputMode,
    connection_status: Seq<char>,
    tab: LogTab,
    filter_query: Seq<char>,
    input_text: Seq<char>,
) -> (Seq<char>, Seq<char>, Tone) {
    if devices_overlay {
        (" CONNECTED DEVICES · Ctrl+R refresh · ESC CLOSE "@, connection_status, Tone::Info)
    } else {
        match mode {
            InputMode::Filter => (
                " REGEX FILTER · ENTER APPLY · ↑/↓ HISTORY · Ctrl+A/C/X/V/Z "@,
                input_text,
                Tone::Warning,
            ),
            InputMode::Find => (" FIND IN HILOG · ENTER NEXT · Ctrl+A/C/X/V/Z "@, input_text, Tone::Accent),
            InputMode::Normal => if connection_status != "Devices ready"@ && connection_status
                != "No devices"@ {
                (" CONNECTION "@, connection_status, Tone::Error)
            } else if tab == LogTab::FaultLog {
                (" FAULT LOG · Ctrl+R REFRESH "@, "Inspect raw device diagnostics"@, Tone::Muted)
            } else {
                (" REGEX FILTER · Ctrl+E TO EDIT "@, if filter_query.len() == 0 {
                    "<all raw logs>"@
                } else {
                    filter_query
                }, Tone::Muted)
            },
        }
    }
}

pub fn query_panel<'a>(
    devices_overlay: bool,
    mode: InputMode,
    connection_status: &'a str,
    tab: LogTab,
    filter_query: &'a str,
    input_text: &'a str,
) -> (r: (&'a str, &'a str, Tone))
    ensures
        (r.0@, r.1@, r.2) == query_panel_spec(
            devices_overlay,
            mode,
            connection_status@,
            tab,
            filter_query@,
            input_text@,
        ),
{
    if devices_overlay {
        return (" CONNECTED DEVICES · Ctrl+R refresh · ESC CLOSE ", connection_status, Tone::Info);
    }
    match mode {
        InputMode::Filter => (
            " REGEX FILTER · ENTER APPLY · ↑/↓ HISTORY · Ctrl+A/C/X/V/Z ",
            input_text,
            Tone::Warning,
        ),
        InputMode::Find => (" FIND IN HILOG · ENTER NEXT · Ctrl+A/C/X/V/Z ", input_text, Tone::Accent),
        InputMode::Normal => if !crate::text::str_eq(connection_status, "Devices ready")
            && !crate::text::str_eq(connection_status, "No devices") {
            (" CONNECTION ", connection_status, Tone::Error)
        } else if tab == LogTab::FaultLog {
            (" FAULT LOG · Ctrl+R REFRESH ", "Inspect raw device diagnostics", Tone::Muted)
        } else {
            (" REGEX FILTER · Ctrl+E TO EDIT ", if filter_query.is_empty() {
                "<all raw logs>"
            } else {
                filter_query
            }, Tone::Muted)
        },
    }
}

/// An action error, else a filter error, replaces the panel's text and turns it red.
pub fn panel_value<'a>(
    action_error: Option<&'a str>,
    filter_error: Option<&'a str>,
    value: &'a str,
    tone: Tone,
) -> (r: (&'a str, Tone))
    ensures
        r == (match action_error {
            Some(e) => (e, Tone::Error),
            None => match filter_error {
                Some(e) => (e, Tone::Error),
                None => (value, tone),
            },
        }),
{
    match action_error {
        Some(e) => (e, Tone::Error),
        None => match filter_error {
            Some(e) => (e, Tone::Error),
            None => (value, tone),
        },
    }
}

pub open spec fn hilog_title_spec(
    following: bool,
    soft_wrap: bool,
    visible: u64,
    raw: u64,
    find_position: u64,
    find_count: u64,
) -> Seq<char> {
    " "@ + (if following {
        "FOLLOWING LATEST"@
    } else {
        "SCROLL PAUSED · Ctrl+G TO LATEST"@
    }) + (if soft_wrap {
        " · WRAP ON"@
    } else {
        ""@
    }) + " · "@ + decimal(visible as nat) + " / "@ + decimal(raw as nat) + " VISIBLE · FIND "@
        + decimal(find_position as nat) + "/"@ + decimal(find_count as nat) + " "@
}

/// The title of the HiLog panel: follow mode, wrap, counts and find position.
pub fn hilog_title(
    following: bool,
    soft_wrap: bool,
    visible: u64,
    raw: u64,
    find_position: u64,
    find_count: u64,
) -> (r: String)
    ensures
        r@ == hilog_title_spec(following, soft_wrap, visible, raw, find_position, find_count),
{
    let mut out = string_from(" ");
    push_str(&mut out, if following {
        "FOLLOWING LATEST"
    } else {
        "SCROLL PAUSED · Ctrl+G TO LATEST"
    });
    push_str(&mut out, if soft_wrap {
        " · WRAP ON"
    } else {
        ""
    });
    push_str(&mut out, " · ");
    push_decimal(&mut out, visible);
    push_str(&mut out, " / ");
    push_decimal(&mut out, raw);
    push_str(&mut out, " VISIBLE · FIND ");
    push_decimal(&mut out, find_position);
    push_str(&mut out, "/");
    push_decimal(&mut out, find_count);
    push_str(&mut out, " ");
    out
}

/// The row of fault log entry `index` in the entry list: its number from one and its id.
pub fn fault_row_text(index: usize, id: &str) -> (r: String)
    requires
        index < u64::MAX,
    ensures
        r@ == decimal((index + 1) as nat) + "  "@ + id@,
{
    let mut out = String::new();
    push_decimal(&mut out, index as u64 + 1);
    push_str(&mut out, DEVICE_FIELD_GAP);
    push_str(&mut out, id);
    out
}

/// The title of the device list.
pub fn devices_title(count: usize) -> (r: String)
    requires
        count <= u64::MAX,
    ensures
        r@ == " CONNECTED DEVICES · "@ + decimal(count as nat) + " · Ctrl+R refresh "@,
{
    let mut out = string_from(" CONNECTED DEVICES · ");
    push_decimal(&mut out, count as u64);
    push_str(&mut out, " · Ctrl+R refresh ");
    out
}

/// `s` followed by spaces up to `width` characters.
pub open spec fn padded(s: Seq<char>, width: nat) -> Seq<char> {
    if s.len() >= width {
        s
    } else {
        s + Seq::new((width - s.len()) as nat, |i: int| ' ')
    }
}

pub fn pad_right(s: &[char], width: usize) -> (r: String)
    ensures
        r@ == padded(s@, width as nat),
{
    let mut out = crate::text::string_of(s);
    let mut n = s.len();
    let ghost base = s@;
    while n < width
        invariant
            s.len() <= n <= width || (n == s.len() && n >= width),
            out@ == base + Seq::new((n - s.len()) as nat, |i: int| ' '),
            base == s@,
        decreases width - n,
    {
        crate::text::push_char(&mut out, ' ');
        assert(base + Seq::new((n - s.len()) as nat, |i: int| ' ').push(' ') =~= base + Seq::new(
            (n + 1 - s.len()) as nat,
            |i: int| ' ',
        ));
        n += 1;
    }
    if s.len() >= width {
        assert(out@ =~= s@);
    }
    out
}

/// The device list's id and status columns for `device`: the id padded to its
/// column, the status in capitals padded to its column.
pub fn device_row_columns(device: &DeviceLogDevice) -> (r: (String, String))
    ensures
        r.0@ == padded(device.id@, DEVICE_ID_COLUMN_WIDTH as nat),
        r.1@ == padded(crate::text::upper_seq(device.status@), DEVICE_STATUS_COLUMN_WIDTH as nat),
{
    let id = crate::text::chars_of(device.id.as_str());
    let status = crate::text::chars_of(device.status.as_str());
    let upper = crate::text::to_ascii_uppercase(status.as_slice());
    (pad_right(id.as_slice(), DEVICE_ID_COLUMN_WIDTH), pad_right(upper.as_slice(), DEVICE_STATUS_COLUMN_WIDTH))
}


/// The whitespace-separated fields of `s[..n]` as character ranges, and where
/// an unfinished field started.
pub open spec fn field_state(s: Seq<char>, n: int) -> (Seq<(int, int)>, Option<int>)
    decreases n,
{
    if n <= 0 {
        (Seq::empty(), None)
    } else {
        let (fs, open) = field_state(s, n - 1);
        if is_ws(s[n - 1]) {
            match open {
                Some(st) => (fs.push((st, n - 1)), None),
                None => (fs, None),
            }
        } else {
            match open {
                Some(st) => (fs, Some(st)),
                None => (fs, Some(n - 1)),
            }
        }
    }
}

/// The character ranges of the whitespace-separated fields of `s`.
pub open spec fn ws_fields(s: Seq<char>) -> Seq<(int, int)> {
    let (fs, open) = field_state(s, s.len() as int);
    match open {
        Some(st) => fs.push((st, s.len() as int)),
        None => fs,
    }
}

pub open spec fn digit_value(c: char) -> nat {
    (c as u32 - '0' as u32) as nat
}

pub open spec fn is_digit(c: char) -> bool {
    '0' <= c && c <= '9'
}

/// The number that the decimal digits `d` write.
pub open spec fn digits_value(d: Seq<char>) -> nat
    decreases d.len(),
{
    if d.len() == 0 {
        0
    } else {
        digits_value(d.drop_last()) * 10 + digit_value(d.last())
    }
}

/// `f` without a leading `+`.
pub open spec fn unsigned_digits(f: Seq<char>) -> Seq<char> {
    if f.len() > 0 && f[0] == '+' {
        f.drop_first()
    } else {
        f
    }
}

/// Whether `u64::from_str` accepts `f`: an optional `+`, then decimal digits
/// whose value fits.
pub open spec fn parses_u64(f: Seq<char>) -> bool {
    let d = unsigned_digits(f);
    d.len() > 0 && (forall|i: int| 0 <= i < d.len() ==> is_digit(#[trigger] d[i])) && digits_value(d)
        <= u64::MAX
}

proof fn lemma_digits_mono(d: Seq<char>, j: int, k: int)
    requires
        0 <= j <= k <= d.len(),
        forall|i: int| 0 <= i < d.len() ==> is_digit(#[trigger] d[i]),
    ensures
        digits_value(d.take(j)) <= digits_value(d.take(k)),
    decreases k - j,
{
    if j < k {
        lemma_digits_mono(d, j, k - 1);
        assert(d.take(k).drop_last() =~= d.take(k - 1));
    }
}

/// `parses_u64`, computed.
pub fn parses_u64_exec(f: &[char]) -> (r: bool)
    ensures
        r == parses_u64(f@),
{
    let start: usize = if f.len() > 0 && f[0] == '+' {
        1
    } else {
        0
    };
    let ghost d = unsigned_digits(f@);
    assert(d =~= f@.subrange(start as int, f@.len() as int));
    if start == f.len() {
        return false;
    }
    let mut value: u64 = 0;
    let mut i: usize = start;
    while i < f.len()
        invariant
            start <= i <= f.len(),
            start < f.len(),
            d == f@.subrange(start as int, f@.len() as int),
            d == unsigned_digits(f@),
            forall|k: int| 0 <= k < i - start ==> is_digit(#[trigger] d[k]),
            value == digits_value(d.take(i - start)),
        decreases f.len() - i,
    {
        let c = f[i];
        if !('0' <= c && c <= '9') {
            assert(!is_digit(d[i - start]));
            assert(!(forall|k: int| 0 <= k < d.len() ==> is_digit(#[trigger] d[k])));
            assert(!parses_u64(f@));
            return false;
        }
        let digit = (c as u32 - '0' as u32) as u64;
        assert(d.take(i - start + 1).drop_last() =~= d.take(i - start));
        if value > (u64::MAX - digit) / 10 {
            proof {
                assert(value * 10 + digit > u64::MAX) by (nonlinear_arith)
                    requires
                        value > (u64::MAX - digit) / 10,
                        digit <= 9,
                ;
                if forall|k: int| 0 <= k < d.len() ==> is_digit(#[trigger] d[k]) {
                    lemma_digits_mono(d, i - start + 1, d.len() as int);
                    assert(d.take(d.len() as int) =~= d);
                }
                assert(!parses_u64(f@));
            }
            return false;
        }
        value = value * 10 + digit;
        i += 1;
    }
    assert(d.take(d.len() as int) =~= d);
    true
}

/// Whether `f` holds `c`.
pub fn contains_char(f: &[char], c: char) -> (r: bool)
    ensures
        r == f@.contains(c),
{
    let mut i: usize = 0;
    while i < f.len()
        invariant
            i <= f.len(),
            forall|k: int| 0 <= k < i ==> f@[k] != c,
        decreases f.len() - i,
    {
        if f[i] == c {
            assert(f@[i as int] == c);
            return true;
        }
        i += 1;
    }
    false
}

/// The first six whitespace-separated fields of `raw`, as character ranges.
pub open spec fn leading_fields(raw: Seq<char>) -> Seq<(int, int)> {
    let all = ws_fields(raw);
    if all.len() > 6 {
        all.take(6)
    } else {
        all
    }
}

/// Which field holds the level letter: after `date time pid tid`, possibly
/// behind a leading record number, or right after a leading number.
pub open spec fn level_field_index(ts: Seq<Seq<char>>) -> Option<int> {
    let standard: int = if ts.len() >= 6 && parses_u64(ts[0]) && ts[1].contains('-')
        && ts[2].contains(':') {
        1
    } else {
        0
    };
    if ts.len() >= standard + 5 && ts[standard].contains('-') && ts[standard + 1].contains(':')
        && parses_u64(ts[standard + 2]) && parses_u64(ts[standard + 3]) {
        Some(standard + 4)
    } else if ts.len() > 0 && parses_u64(ts[0]) {
        if ts.len() > 1 {
            Some(1)
        } else {
            None
        }
    } else {
        None
    }
}

/// The level letter of a HiLog record: its byte range in `raw` and its level.
pub open spec fn log_level_field_spec(raw: Seq<char>) -> Option<(int, int, LogLevel)> {
    let fs = leading_fields(raw);
    let ts = fs.map_values(|f: (int, int)| raw.subrange(f.0, f.1));
    match level_field_index(ts) {
        Some(k) => match level_of(ts[k]) {
            Some(level) => Some(
                (utf8_len(raw.take(fs[k].0)) as int, utf8_len(raw.take(fs[k].1)) as int, level),
            ),
            None => None,
        },
        None => None,
    }
}

/// `level_field_index`, computed.
fn level_field_index_exec(ts: &Vec<Vec<char>>) -> (r: Option<usize>)
    ensures
        match r {
            Some(k) => level_field_index(crate::text::views(ts@)) == Some(k as int),
            None => level_field_index(crate::text::views(ts@)) is None,
        },
{
    let ghost v = crate::text::views(ts@);
    let n = ts.len();
    let u0 = n > 0 && parses_u64_exec(ts[0].as_slice());
    let standard: usize = if n >= 6 && u0 && contains_char(ts[1].as_slice(), '-') && contains_char(
        ts[2].as_slice(),
        ':',
    ) {
        1
    } else {
        0
    };
    if n >= standard + 5 && contains_char(ts[standard].as_slice(), '-') && contains_char(
        ts[standard + 1].as_slice(),
        ':',
    ) && parses_u64_exec(ts[standard + 2].as_slice()) && parses_u64_exec(
        ts[standard + 3].as_slice(),
    ) {
        Some(standard + 4)
    } else if u0 {
        if n > 1 {
            Some(1)
        } else {
            None
        }
    } else {
        None
    }
}

proof fn lemma_field_state_bounds(s: Seq<char>, n: int)
    requires
        0 <= n <= s.len(),
    ensures
        forall|i: int|
            0 <= i < field_state(s, n).0.len() ==> 0 <= (#[trigger] field_state(s, n).0[i]).0
                <= field_state(s, n).0[i].1 <= n,
        field_state(s, n).1 matches Some(st) ==> 0 <= st < n,
    decreases n,
{
    if n > 0 {
        lemma_field_state_bounds(s, n - 1);
    }
}

/// The character ranges of the whitespace-separated fields of `s`.
fn field_ranges(s: &[char]) -> (r: Vec<(usize, usize)>)
    ensures
        r@.len() == ws_fields(s@).len(),
        forall|i: int|
            0 <= i < r@.len() ==> (#[trigger] r@[i]).0 as int == ws_fields(s@)[i].0 && r@[i].1 as int
                == ws_fields(s@)[i].1,
        forall|i: int| 0 <= i < r@.len() ==> (#[trigger] r@[i]).0 <= r@[i].1 <= s@.len(),
{
    let mut fields: Vec<(usize, usize)> = Vec::new();
    let mut open: Option<usize> = None;
    let mut i: usize = 0;
    while i < s.len()
        invariant
            i <= s.len(),
            fields@.len() == field_state(s@, i as int).0.len(),
            forall|k: int|
                0 <= k < fields@.len() ==> (#[trigger] fields@[k]).0 as int == field_state(
                    s@,
                    i as int,
                ).0[k].0 && fields@[k].1 as int == field_state(s@, i as int).0[k].1,
            forall|k: int| 0 <= k < fields@.len() ==> (#[trigger] fields@[k]).0 <= fields@[k].1 <= i,
            match open {
                Some(st) => field_state(s@, i as int).1 == Some(st as int) && st < i,
                None => field_state(s@, i as int).1 is None,
            },
        decreases s.len() - i,
    {
        if crate::text::is_whitespace(s[i]) {
            if let Some(st) = open {
                fields.push((st, i));
                open = None;
            }
        } else if open.is_none() {
            open = Some(i);
        }
        i += 1;
    }
    if let Some(st) = open {
        fields.push((st, s.len()));
    }
    fields
}

/// `log_level_field_spec`, computed.
pub fn log_level_field(raw: &str) -> (r: Option<(usize, usize, LogLevel)>)
    ensures
        match r {
            Some((a, b, level)) => log_level_field_spec(raw@) == Some((a as int, b as int, level)),
            None => log_level_field_spec(raw@) is None,
        },
{
    let cs = crate::text::chars_of(raw);
    let total = raw.as_bytes().len();
    let all = field_ranges(cs.as_slice());
    let n = if all.len() > 6 {
        6
    } else {
        all.len()
    };
    let ghost fs = leading_fields(raw@);
    let ghost ts = fs.map_values(|f: (int, int)| raw@.subrange(f.0, f.1));
    let mut texts: Vec<Vec<char>> = Vec::new();
    let mut i: usize = 0;
    while i < n
        invariant
            i <= n,
            n == fs.len(),
            n <= all@.len(),
            cs@ == raw@,
            fs == leading_fields(raw@),
            ts == fs.map_values(|f: (int, int)| raw@.subrange(f.0, f.1)),
            all@.len() == ws_fields(raw@).len(),
            forall|j: int|
                0 <= j < all@.len() ==> (#[trigger] all@[j]).0 as int == ws_fields(raw@)[j].0
                    && all@[j].1 as int == ws_fields(raw@)[j].1,
            forall|j: int| 0 <= j < all@.len() ==> (#[trigger] all@[j]).0 <= all@[j].1 <= raw@.len(),
            crate::text::views(texts@) == ts.take(i as int),
        decreases n - i,
    {
        let t = crate::text::slice_to_vec(cs.as_slice(), all[i].0, all[i].1);
        let ghost before = crate::text::views(texts@);
        texts.push(t);
        assert(crate::text::views(texts@) =~= before.push(t@));
        assert(ts.take(i + 1) =~= ts.take(i as int).push(ts[i as int]));
        i += 1;
    }
    assert(ts.take(n as int) =~= ts);
    let k = match level_field_index_exec(&texts) {
        Some(k) => k,
        None => return None,
    };
    assert(texts@[k as int]@ == ts[k as int]);
    let level = match LogLevel::parse_chars(texts[k].as_slice()) {
        Some(level) => level,
        None => return None,
    };
    let (start, end) = all[k];
    let before = crate::text::slice_to_vec(cs.as_slice(), 0, start);
    let upto = crate::text::slice_to_vec(cs.as_slice(), 0, end);
    proof {
        crate::text::lemma_encode_len(raw@);
        crate::text::lemma_utf8_len_mono(raw@, start as int, end as int);
        crate::text::lemma_utf8_len_mono(raw@, end as int, raw@.len() as int);
        assert(raw@.take(raw@.len() as int) =~= raw@);
        assert(before@ =~= raw@.take(start as int));
        assert(upto@ =~= raw@.take(end as int));
    }
    Some((crate::text::utf8_len_of(before.as_slice()), crate::text::utf8_len_of(upto.as_slice()), level))
}


/// A list window keeps the selected item (or the last, past the end) on screen.
pub proof fn law_list_window_shows_selection(selected: int, len: int, height: int)
    requires
        len >= 1,
        height >= 1,
        selected >= 0,
    ensures
        ({
            let start = list_window_start_spec(selected, len, height);
            let s = if selected < len - 1 {
                selected
            } else {
                len - 1
            };
            0 <= start <= s < start + height
        }),
{
}

/// Whether some range of `ranges` overlaps the bytes `start..end`.
pub open spec fn touches_any(ranges: Seq<(usize, usize)>, start: usize, end: usize) -> bool {
    exists|k: int| 0 <= k < ranges.len() && #[trigger] ranges[k].0 < end && start < ranges[k].1
}

/// Whether some range of `ranges` overlaps the bytes `start..end`.
pub fn touches_any_range(ranges: &[(usize, usize)], start: usize, end: usize) -> (r: bool)
    ensures
        r == touches_any(ranges@, start, end),
{
    let mut i: usize = 0;
    while i < ranges.len()
        invariant
            i <= ranges.len(),
            forall|k: int| 0 <= k < i ==> !(#[trigger] ranges@[k].0 < end && start < ranges@[k].1),
        decreases ranges.len() - i,
    {
        let (a, b) = ranges[i];
        if ranges_overlap(a, b, start, end) {
            return true;
        }
        i += 1;
    }
    false
}

/// How a shown grapheme is marked: with the record's level when it lies in the
/// level field, and whether a find match and a filter match touch it.
#[derive(Debug, PartialEq, Eq)]
pub struct GlyphMarks {
    pub level: Option<LogLevel>,
    pub find_match: bool,
    pub filter_match: bool,
}

/// The marks of the grapheme at bytes `start..end` of a record whose level
/// field is `level`, among the filter and find matches shown.
pub fn glyph_marks(
    start: usize,
    end: usize,
    level: Option<(usize, usize, LogLevel)>,
    filter_ranges: &[(usize, usize)],
    find_ranges: &[(usize, usize)],
) -> (r: GlyphMarks)
    ensures
        r.level == (match level {
            Some((a, b, l)) => if a < end && start < b {
                Some(l)
            } else {
                None
            },
            None => None,
        }),
        r.find_match == touches_any(find_ranges@, start, end),
        r.filter_match == touches_any(filter_ranges@, start, end),
{
    let level = match level {
        Some((a, b, l)) => if ranges_overlap(a, b, start, end) {
            Some(l)
        } else {
            None
        },
        None => None,
    };
    GlyphMarks {
        level,
        find_match: touches_any_range(find_ranges, start, end),
        filter_match: touches_any_range(filter_ranges, start, end),
    }
}

} // verus!

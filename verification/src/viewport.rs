use vstd::prelude::*;

use crate::log_geometry::{
    last_below_from, next_wrapped_row_start, previous_wrapped_row_start, cell_range_for_bytes, cell_range_from, first_literal_match_range, glyph_seq, last_k,
    literal_matches, row_starts, wrapped_row_starts_from, wrapped_row_starts_tail,
    OVERFLOW_MARKER_WIDTH_CELLS,
};

verus! {

/// Columns one horizontal scroll step moves.
pub const HORIZONTAL_SCROLL_STEP_CELLS: u64 = 8;
/// Columns kept free beside a revealed find match for the overflow markers.
pub const HORIZONTAL_MATCH_MARKER_RESERVE_CELLS: u64 = 2;

/// Where the log view is pinned: a visible record and the column where its
/// first shown row starts.
#[derive(Clone, Copy, Debug, PartialEq, Eq, Structural)]
pub struct ViewportAnchor {
    pub record: u64,
    pub cell: u64,
}

/// Anchors in reading order: by record, then by column.
pub open spec fn anchor_before(a: ViewportAnchor, b: ViewportAnchor) -> bool {
    a.record < b.record || (a.record == b.record && a.cell < b.cell)
}

pub fn anchor_is_before(a: ViewportAnchor, b: ViewportAnchor) -> (r: bool)
    ensures
        r == anchor_before(a, b),
{
    a.record < b.record || (a.record == b.record && a.cell < b.cell)
}

/// The records a log view shows, from which record and column.
#[derive(Debug, PartialEq, Eq)]
pub struct DisplayWindow {
    pub start_record: u64,
    pub start_cell: u64,
    pub records: Vec<String>,
}

/// How many records a filter or find rebuild read.
#[derive(Clone, Copy, Debug, Default, PartialEq, Eq, Structural)]
pub struct QueryRebuildWork {
    pub raw_records_scanned: u64,
    pub visible_records_scanned: u64,
}

/// The first record of a window of `height` rows over `count` visible records:
/// the anchor's record, but never past the latest full window; the latest
/// window when following.
pub open spec fn window_start_spec(count: u64, height: u64, anchor: Option<ViewportAnchor>) -> u64 {
    let latest = if count >= height {
        (count - height) as u64
    } else {
        0
    };
    match anchor {
        Some(a) => if a.record <= latest {
            a.record
        } else {
            latest
        },
        None => latest,
    }
}

pub fn window_start(count: u64, height: u64, anchor: Option<ViewportAnchor>) -> (r: u64)
    ensures
        r == window_start_spec(count, height, anchor),
{
    let latest = count.saturating_sub(height);
    match anchor {
        Some(a) => if a.record <= latest {
            a.record
        } else {
            latest
        },
        None => latest,
    }
}

/// The find position shown to the user, counted from one, and the match count;
/// `(0, 0)` without matches.
pub fn find_status(current: u64, count: u64) -> (r: (u64, u64))
    ensures
        count == 0 ==> r == (0u64, 0u64),
        count > 0 ==> r == ((if current < count {
            current + 1
        } else {
            count as int
        }) as u64, count),
{
    if count == 0 {
        (0, 0)
    } else {
        let position = if current < count - 1 {
            current
        } else {
            count - 1
        };
        (position + 1, count)
    }
}

/// The find match after `current` among `count`, wrapping to the first.
pub open spec fn next_find_spec(current: int, count: int) -> int {
    if count <= 0 {
        current
    } else {
        (current + 1) % count
    }
}

/// The find match before `current` among `count`, wrapping to the last.
pub open spec fn previous_find_spec(current: int, count: int) -> int {
    if count <= 0 {
        current
    } else if current == 0 {
        count - 1
    } else {
        current - 1
    }
}

/// The next find match, wrapping to the first.
pub fn next_find_index(current: u64, count: u64) -> (r: u64)
    ensures
        r as int == next_find_spec(current as int, count as int),
{
    if count == 0 {
        return current;
    }
    let r = (current % count + 1) % count;
    assert(r as int == (current as int + 1) % (count as int)) by (nonlinear_arith)
        requires
            count > 0,
            r as int == ((current as int) % (count as int) + 1) % (count as int),
    ;
    r
}

/// The previous find match, wrapping to the last.
pub fn previous_find_index(current: u64, count: u64) -> (r: u64)
    ensures
        r as int == previous_find_spec(current as int, count as int),
{
    if count == 0 {
        current
    } else if current == 0 {
        count - 1
    } else {
        current - 1
    }
}

/// The current find match kept within the match count.
pub fn normalized_find_index(current: u64, count: u64) -> (r: u64)
    ensures
        r == (if count == 0 {
            0
        } else if current < count {
            current
        } else {
            (count - 1) as u64
        }),
{
    let last = count.saturating_sub(1);
    if current < last {
        current
    } else {
        last
    }
}

/// The anchor after scrolling up `rows` records without wrapping.
pub fn scroll_up_unwrapped(count: u64, height: u64, anchor: Option<ViewportAnchor>, rows: u64) -> (r:
    ViewportAnchor)
    ensures
        r == (ViewportAnchor {
            record: (if window_start_spec(count, height, anchor) >= rows {
                window_start_spec(count, height, anchor) - rows
            } else {
                0
            }) as u64,
            cell: 0,
        }),
{
    let current = window_start(count, height, anchor);
    ViewportAnchor { record: current.saturating_sub(rows), cell: 0 }
}

/// The anchor after scrolling down `rows` records without wrapping; reaching
/// the latest window follows it again.
pub fn scroll_down_unwrapped(count: u64, height: u64, anchor: Option<ViewportAnchor>, rows: u64) -> (r:
    Option<ViewportAnchor>)
    ensures
        ({
            let latest = if count >= height {
                count - height
            } else {
                0
            };
            let next = if window_start_spec(count, height, anchor) + rows > u64::MAX {
                u64::MAX as int
            } else {
                window_start_spec(count, height, anchor) + rows
            };
            r == if next < latest {
                Some(ViewportAnchor { record: next as u64, cell: 0 })
            } else {
                None
            }
        }),
{
    let latest = count.saturating_sub(height);
    let next = window_start(count, height, anchor).saturating_add(rows);
    if next < latest {
        Some(ViewportAnchor { record: next, cell: 0 })
    } else {
        None
    }
}

/// The newest anchor without wrapping: the start of the latest full window.
pub fn latest_unwrapped_anchor(count: u64, height: u64) -> (r: ViewportAnchor)
    ensures
        r == (ViewportAnchor {
            record: (if count >= height {
                count - height
            } else {
                0
            }) as u64,
            cell: 0,
        }),
{
    ViewportAnchor { record: count.saturating_sub(height), cell: 0 }
}

/// The horizontal offset after a step right: one step further, but no further
/// than shows the end of the widest record in view.
pub fn scroll_right_offset(offset: u64, widest: u64, viewport_width: u64) -> (r: u64)
    ensures
        ({
            let payload = if viewport_width >= OVERFLOW_MARKER_WIDTH_CELLS + 1 {
                viewport_width - OVERFLOW_MARKER_WIDTH_CELLS
            } else {
                1
            };
            let latest = if widest >= payload {
                widest - payload
            } else {
                0
            };
            let stepped = if offset + HORIZONTAL_SCROLL_STEP_CELLS > u64::MAX {
                u64::MAX as int
            } else {
                offset + HORIZONTAL_SCROLL_STEP_CELLS
            };
            r == if stepped <= latest {
                stepped
            } else {
                latest
            }
        }),
{
    let payload = viewport_width.saturating_sub(OVERFLOW_MARKER_WIDTH_CELLS);
    let payload = if payload >= 1 {
        payload
    } else {
        1
    };
    let latest = widest.saturating_sub(payload);
    let stepped = offset.saturating_add(HORIZONTAL_SCROLL_STEP_CELLS);
    if stepped <= latest {
        stepped
    } else {
        latest
    }
}

/// The horizontal offset after a step left, stopping at column zero.
pub fn scroll_left_offset(offset: u64) -> (r: u64)
    ensures
        r == (if offset >= HORIZONTAL_SCROLL_STEP_CELLS {
            offset - HORIZONTAL_SCROLL_STEP_CELLS
        } else {
            0
        }),
{
    offset.saturating_sub(HORIZONTAL_SCROLL_STEP_CELLS)
}

/// The horizontal offset that brings the match in columns `start..end` into a
/// view of `viewport_width` columns: unchanged when it shows, otherwise moved
/// just far enough, and to the match's start when it is too wide to show.
pub open spec fn reveal_offset_spec(offset: u64, start: u64, end: u64, viewport_width: u64) -> u64 {
    let available = if viewport_width >= HORIZONTAL_MATCH_MARKER_RESERVE_CELLS + 1 {
        viewport_width - HORIZONTAL_MATCH_MARKER_RESERVE_CELLS
    } else {
        1
    };
    let right = if offset + available > u64::MAX {
        u64::MAX as int
    } else {
        offset + available
    };
    if start < offset {
        start
    } else if end > right {
        if end - start >= available {
            start
        } else {
            (end - available) as u64
        }
    } else {
        offset
    }
}

pub fn reveal_offset(offset: u64, start: u64, end: u64, viewport_width: u64) -> (r: u64)
    requires
        start <= end,
    ensures
        r == reveal_offset_spec(offset, start, end, viewport_width),
{
    let available = viewport_width.saturating_sub(HORIZONTAL_MATCH_MARKER_RESERVE_CELLS);
    let available = if available >= 1 {
        available
    } else {
        1
    };
    if start < offset {
        start
    } else if end > offset.saturating_add(available) {
        if end - start >= available {
            start
        } else {
            end - available
        }
    } else {
        offset
    }
}

/// Where a find match at visible record `index` in `line` pins the view: at
/// the record, and with soft wrap at the row holding the match; without soft
/// wrap the horizontal offset moves to show the match.
pub fn reveal_find(
    index: u64,
    line: &str,
    query: &str,
    soft_wrap: bool,
    offset: u64,
    viewport_width: u64,
) -> (r: (ViewportAnchor, u64))
    requires
        viewport_width <= u64::MAX,
    ensures
        ({
            let first = match literal_matches(line@, query@) {
                Some(v) => if v.len() > 0 {
                    Some(v[0])
                } else {
                    None
                },
                None => None,
            };
            let cells = match first {
                Some((a, b)) => cell_range_from(glyph_seq(line@), 0, a as int, b as int, None, None),
                None => None,
            };
            match cells {
                Some((s, e)) => if soft_wrap {
                    r == (ViewportAnchor { record: index, cell: s as u64 }, offset)
                } else {
                    &&& r.0 == (ViewportAnchor { record: index, cell: 0 })
                    &&& s <= e ==> r.1 == reveal_offset_spec(offset, s as u64, e as u64, viewport_width)
                    &&& s > e ==> r.1 == offset
                },
                None => r == (ViewportAnchor { record: index, cell: 0 }, offset),
            }
        }),
{
    let mut anchor = ViewportAnchor { record: index, cell: 0 };
    let mut horizontal = offset;
    if let Some((bytes_start, bytes_end)) = first_literal_match_range(line, query) {
        if let Some((start, end)) = cell_range_for_bytes(line, bytes_start, bytes_end) {
            if soft_wrap {
                anchor = ViewportAnchor { record: index, cell: start };
            } else if start <= end {
                horizontal = reveal_offset(offset, start, end, viewport_width);
            }
        }
    }
    (anchor, horizontal)
}


/// Where the last wrapped row of `line` starts.
pub fn last_row_start(line: &str, width: usize) -> (r: u64)
    requires
        width <= u64::MAX,
    ensures
        ({
            let s = row_starts(glyph_seq(line@), 0, width as int);
            r == if s.len() > 0 {
                s.last()
            } else {
                0
            }
        }),
{
    let tail = wrapped_row_starts_tail(line, width, 1);
    let ghost s = row_starts(glyph_seq(line@), 0, width as int);
    let ghost m = tail@.map_values(|x: u64| x as int);
    assert(m.len() == tail@.len());
    if tail.len() > 0 {
        assert(m[0] == tail@[0] as int);
        assert(s.len() > 1 ==> m == s.skip(s.len() - 1));
        tail[0]
    } else {
        0
    }
}

/// The column where the last wrapped row of `line` starts, `width` columns wide.
pub open spec fn last_row_spec(line: Seq<char>, width: int) -> int {
    let s = row_starts(glyph_seq(line), 0, width);
    if s.len() > 0 {
        s.last()
    } else {
        0
    }
}

/// One step of soft-wrap scrolling from `anchor`, whose record is `line`.
#[derive(Clone, Copy, Debug, PartialEq, Eq)]
pub enum ScrollStep {
    /// The view now starts here.
    Moved(ViewportAnchor),
    /// There is nothing further that way.
    Stop,
}

/// Scrolls one wrapped row up (`up`) or down from `anchor`, whose record is
/// `line`. `neighbour` is the record on that side, when there is one. Within
/// the record the view moves to the previous or next row start; past its
/// first row it moves to the last row of the record before; past its last row
/// to the start of the record after; with no record there it stops.
pub fn wrapped_scroll_step(
    anchor: ViewportAnchor,
    line: &str,
    neighbour: Option<&str>,
    width: usize,
    up: bool,
) -> (r: ScrollStep)
    requires
        width <= u64::MAX,
    ensures
        ({
            let s = row_starts(glyph_seq(line@), 0, width as int);
            let within_up = if anchor.cell == 0 {
                None::<int>
            } else {
                Some(last_below_from(s, 1, 0, anchor.cell as int))
            };
            let t = row_starts(glyph_seq(line@), anchor.cell as int, width as int);
            if up {
                match within_up {
                    Some(c) => r == ScrollStep::Moved(ViewportAnchor { record: anchor.record, cell: c as u64 }),
                    None => match neighbour {
                        Some(n) => if anchor.record > 0 {
                            r == ScrollStep::Moved(ViewportAnchor {
                                record: (anchor.record - 1) as u64,
                                cell: last_row_spec(n@, width as int) as u64,
                            })
                        } else {
                            r == ScrollStep::Stop
                        },
                        None => r == ScrollStep::Stop,
                    },
                }
            } else {
                if t.len() >= 2 {
                    r == ScrollStep::Moved(ViewportAnchor { record: anchor.record, cell: t[1] as u64 })
                } else if neighbour is Some && anchor.record < u64::MAX {
                    r == ScrollStep::Moved(ViewportAnchor { record: (anchor.record + 1) as u64, cell: 0 })
                } else {
                    r == ScrollStep::Stop
                }
            }
        }),
{
    if up {
        if let Some(cell) = previous_wrapped_row_start(line, anchor.cell, width) {
            return ScrollStep::Moved(ViewportAnchor { record: anchor.record, cell });
        }
        match neighbour {
            Some(previous) => if anchor.record > 0 {
                ScrollStep::Moved(
                    ViewportAnchor { record: anchor.record - 1, cell: last_row_start(previous, width) },
                )
            } else {
                ScrollStep::Stop
            },
            None => ScrollStep::Stop,
        }
    } else {
        if let Some(cell) = next_wrapped_row_start(line, anchor.cell, width) {
            return ScrollStep::Moved(ViewportAnchor { record: anchor.record, cell });
        }
        if neighbour.is_some() && anchor.record < u64::MAX {
            ScrollStep::Moved(ViewportAnchor { record: anchor.record + 1, cell: 0 })
        } else {
            ScrollStep::Stop
        }
    }
}

/// One record of the walk back from the newest record that finds the latest
/// anchor with soft wrap: with `remaining` rows still to fill, a record with
/// at least that many rows holds the anchor (`Ok` with the row's column);
/// otherwise all its rows are taken (`Err` with their number).
pub fn latest_wrapped_step(line: &str, width: usize, remaining: usize) -> (r: Result<u64, usize>)
    requires
        width <= u64::MAX,
        remaining >= 1,
    ensures
        ({
            let tail = last_k(row_starts(glyph_seq(line@), 0, width as int), remaining as int);
            match r {
                Ok(cell) => tail.len() >= remaining && cell == tail[0],
                Err(n) => tail.len() < remaining && n == tail.len(),
            }
        }),
{
    let starts = wrapped_row_starts_tail(line, width, remaining);
    let ghost m = starts@.map_values(|x: u64| x as int);
    assert(m.len() == starts@.len());
    if starts.len() >= remaining {
        assert(m[0] == starts@[0] as int);
        Ok(starts[0])
    } else {
        Err(starts.len())
    }
}

/// How many of `remaining` rows a record takes when shown from column `cell`:
/// its wrapped rows, at least one.
pub fn rows_taken(line: &str, cell: u64, width: usize, remaining: usize) -> (r: usize)
    requires
        width <= u64::MAX,
    ensures
        ({
            let s = row_starts(glyph_seq(line@), cell as int, width as int);
            let k = if remaining as int <= s.len() {
                remaining as int
            } else {
                s.len() as int
            };
            r == if k >= 1 {
                k
            } else {
                1
            }
        }),
{
    let starts = wrapped_row_starts_from(line, cell, width, remaining);
    let ghost m = starts@.map_values(|x: u64| x as int);
    assert(m.len() == starts@.len());
    if starts.len() >= 1 {
        starts.len()
    } else {
        1
    }
}


/// Stepping to the next find match and back returns to the same match, and so
/// does stepping back and then forward.
pub proof fn law_next_then_previous_find(current: int, count: int)
    requires
        0 <= current < count,
    ensures
        previous_find_spec(next_find_spec(current, count), count) == current,
        next_find_spec(previous_find_spec(current, count), count) == current,
{
    if current + 1 < count {
        assert((current + 1) % count == current + 1) by (nonlinear_arith)
            requires
                0 <= current + 1 < count,
        ;
    } else {
        assert((current + 1) % count == 0) by (nonlinear_arith)
            requires
                current + 1 == count,
                count > 0,
        ;
    }
    if current == 0 {
        assert((count - 1 + 1) % count == 0) by (nonlinear_arith)
            requires
                count > 0,
        ;
    } else {
        assert((current - 1 + 1) % count == current) by (nonlinear_arith)
            requires
                0 < current < count,
        ;
    }
}

} // verus!

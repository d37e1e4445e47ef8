use vstd::prelude::*;

use unicode_segmentation::UnicodeSegmentation;
use unicode_width::UnicodeWidthStr;

use crate::query::{
    escaped_pattern, pattern_of, regex_build_error, regex_escape, regex_matches, successive, CompiledQuery,
    DEFAULT_COMPILED_LIMIT, DEFAULT_DFA_LIMIT,
};
use crate::text::{lemma_utf8_len_concat, utf8_len};

verus! {

/// Columns between tab stops when a tab is shown.
pub const LOG_TAB_STOP_CELLS: u64 = 4;
/// Columns that an overflow marker takes.
pub const OVERFLOW_MARKER_WIDTH_CELLS: u64 = 1;
/// The narrowest log content that wrapping works with.
pub const MIN_LOG_CONTENT_WIDTH_CELLS: u64 = 1;
/// Columns that the marker of a wrapped continuation row takes.
pub const WRAPPED_CONTINUATION_WIDTH_CELLS: u64 = 2;

/// The extended grapheme clusters of `text`, in order, as
/// `unicode_segmentation` splits it.
pub uninterp spec fn grapheme_clusters(text: Seq<char>) -> Seq<Seq<char>>;

/// The display width in columns that `unicode_width` gives a string.
pub uninterp spec fn unicode_str_width(text: Seq<char>) -> usize;

/// All of `ss`, one after another.
pub open spec fn concat_all(ss: Seq<Seq<char>>) -> Seq<char>
    decreases ss.len(),
{
    if ss.len() == 0 {
        Seq::empty()
    } else {
        concat_all(ss.drop_last()) + ss.last()
    }
}

pub open spec fn string_views(v: Seq<String>) -> Seq<Seq<char>> {
    v.map_values(|s: String| s@)
}

/// `UnicodeSegmentation::graphemes(text, true)`: the extended grapheme clusters
/// of `text`. As the crate's iterator hands out consecutive non-empty slices of
/// `text` from its start to its end, the clusters are non-empty and make up
/// `text` in order.
#[verifier::external_body]
fn graphemes_of(text: &str) -> (r: Vec<String>)
    ensures
        string_views(r@) == grapheme_clusters(text@),
        concat_all(string_views(r@)) == text@,
        forall|i: int| 0 <= i < r@.len() ==> (#[trigger] r@[i])@.len() > 0,
{
    let mut out = Vec::new();
    for cluster in text.graphemes(true) {
        out.push(cluster.to_string());
    }
    out
}

/// `UnicodeWidthStr::width`: the display width of `text` in columns.
#[verifier::external_body]
fn str_columns(text: &str) -> (r: usize)
    ensures
        r == unicode_str_width(text@),
{
    UnicodeWidthStr::width(text)
}

/// A grapheme cluster of a log record: its byte range in the record, its text,
/// whether it is a tab, and (for any other cluster) its display width.
pub struct Glyph {
    pub start: usize,
    pub end: usize,
    pub text: String,
    pub tab: bool,
    pub width: usize,
}

/// A glyph as plain values.
pub struct GlyphView {
    pub start: int,
    pub end: int,
    pub text: Seq<char>,
    pub tab: bool,
    pub width: int,
}

impl View for Glyph {
    type V = GlyphView;

    open spec fn view(&self) -> GlyphView {
        GlyphView {
            start: self.start as int,
            end: self.end as int,
            text: self.text@,
            tab: self.tab,
            width: self.width as int,
        }
    }
}

pub open spec fn glyph_views(v: Seq<Glyph>) -> Seq<GlyphView> {
    v.map_values(|g: Glyph| g@)
}

/// The glyph of cluster `i` of `cs`.
pub open spec fn glyph_at(cs: Seq<Seq<char>>, i: int) -> GlyphView {
    let start = utf8_len(concat_all(cs.take(i))) as int;
    let tab = cs[i] == seq!['\t'];
    GlyphView {
        start,
        end: start + utf8_len(cs[i]),
        text: cs[i],
        tab,
        width: if tab {
            0
        } else {
            unicode_str_width(cs[i]) as int
        },
    }
}

/// The glyphs of a record.
pub open spec fn glyph_seq(text: Seq<char>) -> Seq<GlyphView> {
    let cs = grapheme_clusters(text);
    Seq::new(cs.len(), |i: int| glyph_at(cs, i))
}

proof fn lemma_concat_take_step(cs: Seq<Seq<char>>, i: int)
    requires
        0 <= i < cs.len(),
    ensures
        concat_all(cs.take(i + 1)) == concat_all(cs.take(i)) + cs[i],
{
    assert(cs.take(i + 1).drop_last() =~= cs.take(i));
}

proof fn lemma_concat_prefix_len(cs: Seq<Seq<char>>, i: int)
    requires
        0 <= i <= cs.len(),
    ensures
        utf8_len(concat_all(cs.take(i))) <= utf8_len(concat_all(cs)),
    decreases cs.len() - i,
{
    if i < cs.len() {
        lemma_concat_prefix_len(cs, i + 1);
        lemma_concat_take_step(cs, i);
        lemma_utf8_len_concat(concat_all(cs.take(i)), cs[i]);
    } else {
        assert(cs.take(i) =~= cs);
    }
}

/// Whether `s` is a single tab.
fn is_tab(s: &str) -> (r: bool)
    ensures
        r == (s@ == seq!['\t']),
{
    let cs = crate::text::chars_of(s);
    if cs.len() == 1 && cs[0] == '\t' {
        assert(cs@ =~= seq!['\t']);
        true
    } else {
        assert(cs.len() != 1 ==> cs@.len() != seq!['\t'].len());
        false
    }
}

/// The glyphs of `text`: its grapheme clusters with their byte ranges and widths.
pub fn glyphs_of(text: &str) -> (r: Vec<Glyph>)
    ensures
        glyph_views(r@) == glyph_seq(text@),
{
    let clusters = graphemes_of(text);
    let ghost cs = grapheme_clusters(text@);
    let total = text.as_bytes().len();
    proof {
        crate::text::lemma_encode_len(text@);
    }
    let mut out: Vec<Glyph> = Vec::new();
    let mut offset: usize = 0;
    let mut i: usize = 0;
    while i < clusters.len()
        invariant
            i <= clusters.len(),
            string_views(clusters@) == cs,
            cs == grapheme_clusters(text@),
            concat_all(cs) == text@,
            total == utf8_len(text@),
            offset == utf8_len(concat_all(cs.take(i as int))),
            glyph_views(out@) == Seq::new(i as nat, |k: int| glyph_at(cs, k)),
        decreases clusters.len() - i,
    {
        let piece = &clusters[i];
        assert(piece@ == cs[i as int]);
        proof {
            lemma_concat_take_step(cs, i as int);
            lemma_utf8_len_concat(concat_all(cs.take(i as int)), cs[i as int]);
            lemma_concat_prefix_len(cs, i + 1);
        }
        let length = piece.as_str().as_bytes().len();
        proof {
            crate::text::lemma_encode_len(piece@);
        }
        let tab = is_tab(piece.as_str());
        let width = if tab {
            0
        } else {
            str_columns(piece.as_str())
        };
        let g = Glyph { start: offset, end: offset + length, text: piece.clone(), tab, width };
        let ghost before = glyph_views(out@);
        out.push(g);
        assert(glyph_views(out@) =~= before.push(g@));
        assert(g@ == glyph_at(cs, i as int));
        assert(Seq::new(i as nat, |k: int| glyph_at(cs, k)).push(glyph_at(cs, i as int)) =~= Seq::new(
            (i + 1) as nat,
            |k: int| glyph_at(cs, k),
        ));
        offset = offset + length;
        i += 1;
    }
    assert(glyph_views(out@) =~= glyph_seq(text@));
    out
}

/// Saturation at `u64::MAX`.
pub open spec fn sat(x: int) -> int {
    if x > u64::MAX {
        u64::MAX as int
    } else {
        x
    }
}

/// Columns that a glyph takes when it starts at `column`: a tab runs to the
/// next tab stop.
pub open spec fn glyph_width(g: GlyphView, column: int) -> int {
    if g.tab {
        LOG_TAB_STOP_CELLS - column % (LOG_TAB_STOP_CELLS as int)
    } else {
        g.width
    }
}

/// The column where glyph `i` starts.
pub open spec fn column_at(gs: Seq<GlyphView>, i: int) -> int
    decreases i,
{
    if i <= 0 {
        0
    } else {
        let c = column_at(gs, i - 1);
        sat(c + glyph_width(gs[i - 1], c))
    }
}

/// `glyph_width`, computed.
fn cells(g: &Glyph, column: u64) -> (r: u64)
    ensures
        r == glyph_width(g@, column as int),
        1 <= r <= LOG_TAB_STOP_CELLS || !g.tab,
{
    if g.tab {
        LOG_TAB_STOP_CELLS - column % LOG_TAB_STOP_CELLS
    } else {
        g.width as u64
    }
}

/// The display width of a record's glyphs.
pub fn display_width_of(gs: &[Glyph]) -> (r: u64)
    ensures
        r == column_at(glyph_views(gs@), gs@.len() as int),
{
    let ghost v = glyph_views(gs@);
    let mut column: u64 = 0;
    let mut i: usize = 0;
    while i < gs.len()
        invariant
            i <= gs.len(),
            v == glyph_views(gs@),
            column == column_at(v, i as int),
        decreases gs.len() - i,
    {
        let w = cells(&gs[i], column);
        column = column.saturating_add(w);
        i += 1;
    }
    column
}

/// The display width of `text`, with tabs run to their tab stops.
pub fn display_width(text: &str) -> (r: u64)
    ensures
        r == column_at(glyph_seq(text@), glyph_seq(text@).len() as int),
{
    let gs = glyphs_of(text);
    display_width_of(gs.as_slice())
}


/// A glyph as shown: its byte range in the record and the text drawn for it
/// (a tab is drawn as spaces up to its tab stop).
pub struct VisibleGrapheme {
    pub source_start: usize,
    pub source_end: usize,
    pub text: String,
}

pub struct VisibleView {
    pub start: int,
    pub end: int,
    pub text: Seq<char>,
}

impl View for VisibleGrapheme {
    type V = VisibleView;

    open spec fn view(&self) -> VisibleView {
        VisibleView { start: self.source_start as int, end: self.source_end as int, text: self.text@ }
    }
}

pub open spec fn visible_views(v: Seq<VisibleGrapheme>) -> Seq<VisibleView> {
    v.map_values(|g: VisibleGrapheme| g@)
}

pub open spec fn spaces(n: nat) -> Seq<char> {
    Seq::new(n, |i: int| ' ')
}

/// How glyph `g` is shown when it starts at `column`.
pub open spec fn shown(g: GlyphView, column: int) -> VisibleView {
    VisibleView {
        start: g.start,
        end: g.end,
        text: if g.tab {
            spaces(glyph_width(g, column) as nat)
        } else {
            g.text
        },
    }
}

/// `g` shown at `column`.
fn show(g: &Glyph, column: u64) -> (r: VisibleGrapheme)
    ensures
        r@ == shown(g@, column as int),
{
    let text = if g.tab {
        let w = cells(g, column);
        let mut out = String::new();
        let mut k: u64 = 0;
        while k < w
            invariant
                k <= w,
                out@ == spaces(k as nat),
            decreases w - k,
        {
            crate::text::push_char(&mut out, ' ');
            assert(spaces(k as nat).push(' ') =~= spaces((k + 1) as nat));
            k += 1;
        }
        out
    } else {
        g.text.clone()
    };
    VisibleGrapheme { source_start: g.start, source_end: g.end, text }
}

/// The glyphs from `i` on that fall whole within columns `offset..end`, up to
/// the first glyph that reaches past `end`.
pub open spec fn h_visible(gs: Seq<GlyphView>, i: int, offset: int, end: int) -> Seq<VisibleView>
    decreases gs.len() - i,
{
    if i < 0 || i >= gs.len() {
        Seq::empty()
    } else {
        let c = column_at(gs, i);
        let e = sat(c + glyph_width(gs[i], c));
        let here = if c >= offset && e <= end {
            seq![shown(gs[i], c)]
        } else {
            Seq::empty()
        };
        if c >= end || e > end {
            here
        } else {
            here + h_visible(gs, i + 1, offset, end)
        }
    }
}

/// What a row of `width` columns scrolled `offset` columns to the right shows
/// of a record: the glyphs that fit whole between the overflow markers, and
/// whether content is hidden on the left and on the right.
pub open spec fn horizontal_spec(gs: Seq<GlyphView>, offset: int, width: int) -> (Seq<VisibleView>, bool, bool) {
    let total = column_at(gs, gs.len() as int);
    let hidden_left = offset > 0 && total > 0;
    let left: int = if hidden_left {
        OVERFLOW_MARKER_WIDTH_CELLS as int
    } else {
        0
    };
    let without_left = if width >= left {
        width - left
    } else {
        0
    };
    let hidden_right = total > sat(offset + without_left);
    let right: int = if hidden_right {
        OVERFLOW_MARKER_WIDTH_CELLS as int
    } else {
        0
    };
    let payload = if without_left >= right {
        without_left - right
    } else {
        0
    };
    (h_visible(gs, 0, offset, sat(offset + payload)), hidden_left, hidden_right)
}

pub struct HorizontalSlice {
    pub graphemes: Vec<VisibleGrapheme>,
    pub hidden_left: bool,
    pub hidden_right: bool,
}

/// `horizontal_spec` over a record's glyphs.
pub fn horizontal_slice_of(gs: &[Glyph], offset: u64, width: usize) -> (r: HorizontalSlice)
    requires
        width <= u64::MAX,
    ensures
        (visible_views(r.graphemes@), r.hidden_left, r.hidden_right) == horizontal_spec(
            glyph_views(gs@),
            offset as int,
            width as int,
        ),
{
    let ghost v = glyph_views(gs@);
    let cols = width as u64;
    let total = display_width_of(gs);
    let hidden_left = offset > 0 && total > 0;
    let left = if hidden_left {
        OVERFLOW_MARKER_WIDTH_CELLS
    } else {
        0
    };
    let without_left = cols.saturating_sub(left);
    let hidden_right = total > offset.saturating_add(without_left);
    let right = if hidden_right {
        OVERFLOW_MARKER_WIDTH_CELLS
    } else {
        0
    };
    let payload = without_left.saturating_sub(right);
    let end = offset.saturating_add(payload);
    let ghost all = h_visible(v, 0, offset as int, end as int);
    assert((all, hidden_left, hidden_right) == horizontal_spec(v, offset as int, width as int));
    let mut out: Vec<VisibleGrapheme> = Vec::new();
    let mut column: u64 = 0;
    let mut i: usize = 0;
    while i < gs.len()
        invariant
            i <= gs.len(),
            v == glyph_views(gs@),
            column == column_at(v, i as int),
            all == h_visible(v, 0, offset as int, end as int),
            (all, hidden_left, hidden_right) == horizontal_spec(v, offset as int, width as int),
            visible_views(out@) + h_visible(v, i as int, offset as int, end as int) == all,
        decreases gs.len() - i,
    {
        let w = cells(&gs[i], column);
        let end_column = column.saturating_add(w);
        let ghost before = visible_views(out@);
        if column >= offset && end_column <= end {
            let shown_glyph = show(&gs[i], column);
            out.push(shown_glyph);
            assert(visible_views(out@) =~= before.push(shown_glyph@));
        }
        if column >= end || end_column > end {
            assert(visible_views(out@) =~= all);
            return HorizontalSlice { graphemes: out, hidden_left, hidden_right };
        }
        assert(visible_views(out@) + h_visible(v, i + 1, offset as int, end as int) =~= all);
        column = end_column;
        i += 1;
    }
    assert(visible_views(out@) =~= all);
    HorizontalSlice { graphemes: out, hidden_left, hidden_right }
}

/// `horizontal_spec` over the glyphs of `text`.
pub fn horizontal_slice(text: &str, offset: u64, width: usize) -> (r: HorizontalSlice)
    requires
        width <= u64::MAX,
    ensures
        (visible_views(r.graphemes@), r.hidden_left, r.hidden_right) == horizontal_spec(
            glyph_seq(text@),
            offset as int,
            width as int,
        ),
{
    let gs = glyphs_of(text);
    horizontal_slice_of(gs.as_slice(), offset, width)
}


/// The byte range in `gs` that a find or filter match covers, as columns:
/// from the first overlapping glyph's start to the last one's end.
pub open spec fn cell_range_from(
    gs: Seq<GlyphView>,
    i: int,
    bytes_start: int,
    bytes_end: int,
    first: Option<int>,
    last: Option<int>,
) -> Option<(int, int)>
    decreases gs.len() - i,
{
    if i < 0 || i >= gs.len() {
        match (first, last) {
            (Some(a), Some(b)) => Some((a, b)),
            _ => None,
        }
    } else {
        let c = column_at(gs, i);
        let g = gs[i];
        let overlaps = g.start < bytes_end && g.end > bytes_start;
        let f2 = if overlaps && first is None {
            Some(c)
        } else {
            first
        };
        let l2 = if overlaps {
            Some(sat(c + glyph_width(g, c)))
        } else {
            last
        };
        if g.start >= bytes_end {
            match (f2, l2) {
                (Some(a), Some(b)) => Some((a, b)),
                _ => None,
            }
        } else {
            cell_range_from(gs, i + 1, bytes_start, bytes_end, f2, l2)
        }
    }
}

/// The columns that bytes `bytes_start..bytes_end` of a record take.
pub fn cell_range_for_bytes_of(gs: &[Glyph], bytes_start: usize, bytes_end: usize) -> (r: Option<
    (u64, u64),
>)
    ensures
        match r {
            Some((a, b)) => cell_range_from(
                glyph_views(gs@),
                0,
                bytes_start as int,
                bytes_end as int,
                None,
                None,
            ) == Some((a as int, b as int)),
            None => cell_range_from(
                glyph_views(gs@),
                0,
                bytes_start as int,
                bytes_end as int,
                None,
                None,
            ) is None,
        },
{
    let ghost v = glyph_views(gs@);
    let ghost goal = cell_range_from(v, 0, bytes_start as int, bytes_end as int, None, None);
    let mut first: Option<u64> = None;
    let mut last: Option<u64> = None;
    let mut column: u64 = 0;
    let mut i: usize = 0;
    while i < gs.len()
        invariant
            i <= gs.len(),
            v == glyph_views(gs@),
            column == column_at(v, i as int),
            goal == cell_range_from(v, 0, bytes_start as int, bytes_end as int, None, None),
            goal == cell_range_from(
                v,
                i as int,
                bytes_start as int,
                bytes_end as int,
                match first {
                    Some(a) => Some(a as int),
                    None => None,
                },
                match last {
                    Some(b) => Some(b as int),
                    None => None,
                },
            ),
        decreases gs.len() - i,
    {
        let g = &gs[i];
        let w = cells(g, column);
        if g.start < bytes_end && g.end > bytes_start {
            if first.is_none() {
                first = Some(column);
            }
            last = Some(column.saturating_add(w));
        }
        if g.start >= bytes_end {
            return match (first, last) {
                (Some(a), Some(b)) => Some((a, b)),
                _ => None,
            };
        }
        column = column.saturating_add(w);
        i += 1;
    }
    match (first, last) {
        (Some(a), Some(b)) => Some((a, b)),
        _ => None,
    }
}

/// The columns that bytes `bytes_start..bytes_end` of `text` take.
pub fn cell_range_for_bytes(text: &str, bytes_start: usize, bytes_end: usize) -> (r: Option<
    (u64, u64),
>)
    ensures
        match r {
            Some((a, b)) => cell_range_from(
                glyph_seq(text@),
                0,
                bytes_start as int,
                bytes_end as int,
                None,
                None,
            ) == Some((a as int, b as int)),
            None => cell_range_from(
                glyph_seq(text@),
                0,
                bytes_start as int,
                bytes_end as int,
                None,
                None,
            ) is None,
        },
{
    let gs = glyphs_of(text);
    cell_range_for_bytes_of(gs.as_slice(), bytes_start, bytes_end)
}


/// Columns a wrapped row holds: a continuation row loses its marker's columns
/// but keeps at least the minimum.
pub open spec fn payload_width_spec(width: int, continuation: bool) -> int {
    if continuation {
        let w = if width >= WRAPPED_CONTINUATION_WIDTH_CELLS {
            width - WRAPPED_CONTINUATION_WIDTH_CELLS
        } else {
            0
        };
        if w >= MIN_LOG_CONTENT_WIDTH_CELLS {
            w
        } else {
            MIN_LOG_CONTENT_WIDTH_CELLS as int
        }
    } else {
        width
    }
}

pub fn wrapped_payload_width(width: u64, continuation: bool) -> (r: u64)
    ensures
        r == payload_width_spec(width as int, continuation),
{
    if continuation {
        let w = width.saturating_sub(WRAPPED_CONTINUATION_WIDTH_CELLS);
        if w >= MIN_LOG_CONTENT_WIDTH_CELLS {
            w
        } else {
            MIN_LOG_CONTENT_WIDTH_CELLS
        }
    } else {
        width
    }
}

/// The content width that wrapping uses for `width` columns.
pub open spec fn wrap_width(width: int) -> int {
    if width >= MIN_LOG_CONTENT_WIDTH_CELLS {
        width
    } else {
        MIN_LOG_CONTENT_WIDTH_CELLS as int
    }
}

/// Soft wrap of a record from column `start_cell` after its first `n` glyphs:
/// the columns where rows start, the columns used in the current row, and its
/// capacity. A glyph that does not fit in a row that already holds something
/// starts the next row.
pub open spec fn wrap_state(gs: Seq<GlyphView>, n: int, start_cell: int, width: int) -> (Seq<int>, int, int)
    decreases n,
{
    if n <= 0 {
        (seq![start_cell], 0, payload_width_spec(width, start_cell > 0))
    } else {
        let (starts, used, capacity) = wrap_state(gs, n - 1, start_cell, width);
        let c = column_at(gs, n - 1);
        let w = glyph_width(gs[n - 1], c);
        if c < start_cell {
            (starts, used, capacity)
        } else if used > 0 && sat(used + w) > capacity {
            (starts.push(c), sat(w), payload_width_spec(width, true))
        } else {
            (starts, sat(used + w), capacity)
        }
    }
}

/// The row starts of a whole record wrapped from `start_cell`.
pub open spec fn row_starts(gs: Seq<GlyphView>, start_cell: int, width: int) -> Seq<int> {
    wrap_state(gs, gs.len() as int, start_cell, wrap_width(width)).0
}

proof fn lemma_wrap_prefix(gs: Seq<GlyphView>, i: int, j: int, start_cell: int, width: int)
    requires
        0 <= i <= j,
    ensures
        wrap_state(gs, j, start_cell, width).0.len() >= wrap_state(gs, i, start_cell, width).0.len(),
        wrap_state(gs, j, start_cell, width).0.take(wrap_state(gs, i, start_cell, width).0.len() as int)
            == wrap_state(gs, i, start_cell, width).0,
    decreases j - i,
{
    if i < j {
        lemma_wrap_prefix(gs, i, j - 1, start_cell, width);
        let a = wrap_state(gs, i, start_cell, width).0;
        let b = wrap_state(gs, j - 1, start_cell, width).0;
        let c = wrap_state(gs, j, start_cell, width).0;
        assert(c.take(a.len() as int) =~= b.take(a.len() as int));
    } else {
        let a = wrap_state(gs, i, start_cell, width).0;
        assert(a.take(a.len() as int) =~= a);
    }
}

proof fn lemma_wrap_starts_nonempty(gs: Seq<GlyphView>, n: int, start_cell: int, width: int)
    ensures
        wrap_state(gs, n, start_cell, width).0.len() >= 1,
        wrap_state(gs, n, start_cell, width).0[0] == start_cell,
    decreases n,
{
    if n > 0 {
        lemma_wrap_starts_nonempty(gs, n - 1, start_cell, width);
    }
}

/// The first `limit` row starts of a record wrapped from `start_cell` in
/// `width` columns.
pub fn wrapped_row_starts_from_of(gs: &[Glyph], start_cell: u64, width: usize, limit: usize) -> (r:
    Vec<u64>)
    requires
        width <= u64::MAX,
    ensures
        r@.map_values(|x: u64| x as int) == row_starts(glyph_views(gs@), start_cell as int, width as int).take(
            if limit as int <= row_starts(glyph_views(gs@), start_cell as int, width as int).len() {
                limit as int
            } else {
                row_starts(glyph_views(gs@), start_cell as int, width as int).len() as int
            },
        ),
{
    let ghost v = glyph_views(gs@);
    let ghost full = row_starts(v, start_cell as int, width as int);
    let cols: u64 = if (width as u64) >= MIN_LOG_CONTENT_WIDTH_CELLS {
        width as u64
    } else {
        MIN_LOG_CONTENT_WIDTH_CELLS
    };
    let ghost k = if limit as int <= full.len() {
        limit as int
    } else {
        full.len() as int
    };
    proof {
        lemma_wrap_starts_nonempty(v, v.len() as int, start_cell as int, cols as int);
        lemma_wrap_prefix(v, 0, v.len() as int, start_cell as int, cols as int);
    }
    if limit == 0 {
        let r: Vec<u64> = Vec::new();
        assert(r@.map_values(|x: u64| x as int) =~= full.take(k));
        return r;
    }
    let mut starts: Vec<u64> = Vec::new();
    starts.push(start_cell);
    let mut column: u64 = 0;
    let mut used: u64 = 0;
    let mut capacity = wrapped_payload_width(cols, start_cell > 0);
    let mut i: usize = 0;
    while i < gs.len()
        invariant
            i <= gs.len(),
            v == glyph_views(gs@),
            cols as int == wrap_width(width as int),
            full == row_starts(v, start_cell as int, width as int),
            full == wrap_state(v, v.len() as int, start_cell as int, cols as int).0,
            k == (if limit as int <= full.len() {
                limit as int
            } else {
                full.len() as int
            }),
            1 <= starts@.len() <= limit,
            column == column_at(v, i as int),
            (starts@.map_values(|x: u64| x as int), used as int, capacity as int) == wrap_state(
                v,
                i as int,
                start_cell as int,
                cols as int,
            ),
        decreases gs.len() - i,
    {
        let w = cells(&gs[i], column);
        proof {
            lemma_wrap_prefix(v, i as int, v.len() as int, start_cell as int, cols as int);
            lemma_wrap_prefix(v, i + 1, v.len() as int, start_cell as int, cols as int);
        }
        if column < start_cell {
            column = column.saturating_add(w);
            i += 1;
            continue;
        }
        if used > 0 && used.saturating_add(w) > capacity {
            if starts.len() == limit {
                assert(starts@.map_values(|x: u64| x as int) =~= full.take(k));
                return starts;
            }
            let ghost before = starts@.map_values(|x: u64| x as int);
            starts.push(column);
            assert(starts@.map_values(|x: u64| x as int) =~= before.push(column as int));
            used = 0;
            capacity = wrapped_payload_width(cols, true);
        }
        used = used.saturating_add(w);
        column = column.saturating_add(w);
        i += 1;
    }
    assert(starts@.map_values(|x: u64| x as int) =~= full.take(k));
    starts
}

/// The first `limit` row starts of `text` wrapped from `start_cell` in `width` columns.
pub fn wrapped_row_starts_from(text: &str, start_cell: u64, width: usize, limit: usize) -> (r: Vec<
    u64,
>)
    requires
        width <= u64::MAX,
    ensures
        r@.map_values(|x: u64| x as int) == row_starts(glyph_seq(text@), start_cell as int, width as int).take(
            if limit as int <= row_starts(glyph_seq(text@), start_cell as int, width as int).len() {
                limit as int
            } else {
                row_starts(glyph_seq(text@), start_cell as int, width as int).len() as int
            },
        ),
{
    let gs = glyphs_of(text);
    wrapped_row_starts_from_of(gs.as_slice(), start_cell, width, limit)
}

/// Where the row after the one starting at `current` starts, if the record
/// has one.
pub fn next_wrapped_row_start(text: &str, current: u64, width: usize) -> (r: Option<u64>)
    requires
        width <= u64::MAX,
    ensures
        ({
            let s = row_starts(glyph_seq(text@), current as int, width as int);
            match r {
                Some(x) => s.len() >= 2 && x == s[1],
                None => s.len() < 2,
            }
        }),
{
    let starts = wrapped_row_starts_from(text, current, width, 2);
    let ghost m = starts@.map_values(|x: u64| x as int);
    assert(m.len() == starts@.len());
    if starts.len() >= 2 {
        assert(m[1] == starts@[1] as int);
        Some(starts[1])
    } else {
        None
    }
}


/// The last `k` of `s` (all of it when it is shorter).
pub open spec fn last_k(s: Seq<int>, k: int) -> Seq<int> {
    if s.len() > k {
        s.skip(s.len() - k)
    } else {
        s
    }
}

proof fn lemma_last_k_push(s: Seq<int>, k: int, c: int)
    requires
        k >= 1,
    ensures
        last_k(s.push(c), k) == (if last_k(s, k).len() == k {
            last_k(s, k).drop_first()
        } else {
            last_k(s, k)
        }).push(c),
{
    assert(last_k(s.push(c), k) =~= (if last_k(s, k).len() == k {
        last_k(s, k).drop_first()
    } else {
        last_k(s, k)
    }).push(c));
}

/// The last `limit` row starts of `text` wrapped in `width` columns, found
/// while holding no more than `limit` of them.
pub fn wrapped_row_starts_tail(text: &str, width: usize, limit: usize) -> (r: Vec<u64>)
    requires
        width <= u64::MAX,
    ensures
        r@.map_values(|x: u64| x as int) == last_k(row_starts(glyph_seq(text@), 0, width as int), limit as int),
{
    let gs = glyphs_of(text);
    wrapped_row_starts_tail_of(gs.as_slice(), width, limit)
}

/// The last `limit` row starts of a record's glyphs wrapped in `width` columns.
pub fn wrapped_row_starts_tail_of(gs: &[Glyph], width: usize, limit: usize) -> (r: Vec<u64>)
    requires
        width <= u64::MAX,
    ensures
        r@.map_values(|x: u64| x as int) == last_k(row_starts(glyph_views(gs@), 0, width as int), limit as int),
{
    let ghost v = glyph_views(gs@);
    let ghost full = row_starts(v, 0, width as int);
    let cols: u64 = if (width as u64) >= MIN_LOG_CONTENT_WIDTH_CELLS {
        width as u64
    } else {
        MIN_LOG_CONTENT_WIDTH_CELLS
    };
    proof {
        lemma_wrap_starts_nonempty(v, v.len() as int, 0, cols as int);
    }
    if limit == 0 {
        let r: Vec<u64> = Vec::new();
        assert(r@.map_values(|x: u64| x as int) =~= last_k(full, 0));
        return r;
    }
    let mut tail: Vec<u64> = Vec::new();
    tail.push(0);
    assert(tail@.map_values(|x: u64| x as int) =~= last_k(wrap_state(v, 0, 0, cols as int).0, limit as int));
    let mut column: u64 = 0;
    let mut used: u64 = 0;
    let mut capacity = wrapped_payload_width(cols, false);
    let mut i: usize = 0;
    while i < gs.len()
        invariant
            i <= gs.len(),
            limit >= 1,
            v == glyph_views(gs@),
            cols as int == wrap_width(width as int),
            full == row_starts(v, 0, width as int),
            column == column_at(v, i as int),
            used as int == wrap_state(v, i as int, 0, cols as int).1,
            capacity as int == wrap_state(v, i as int, 0, cols as int).2,
            tail@.map_values(|x: u64| x as int) == last_k(wrap_state(v, i as int, 0, cols as int).0, limit as int),
        decreases gs.len() - i,
    {
        let w = cells(&gs[i], column);
        if used > 0 && used.saturating_add(w) > capacity {
            let ghost before = tail@.map_values(|x: u64| x as int);
            proof {
                lemma_last_k_push(wrap_state(v, i as int, 0, cols as int).0, limit as int, column as int);
            }
            if tail.len() == limit {
                tail.remove(0);
                assert(tail@.map_values(|x: u64| x as int) =~= before.drop_first());
            }
            let ghost mid = tail@.map_values(|x: u64| x as int);
            tail.push(column);
            assert(tail@.map_values(|x: u64| x as int) =~= mid.push(column as int));
            used = 0;
            capacity = wrapped_payload_width(cols, true);
        }
        used = used.saturating_add(w);
        column = column.saturating_add(w);
        i += 1;
    }
    tail
}

/// Among `s[k..]`, the last start before `before`, taken in order and stopping
/// at the first that is not; `prev` when there is none.
pub open spec fn last_below_from(s: Seq<int>, k: int, prev: int, before: int) -> int
    decreases s.len() - k,
{
    if k < 0 || k >= s.len() || s[k] >= before {
        prev
    } else {
        last_below_from(s, k + 1, s[k], before)
    }
}

/// The start of the wrapped row of `text` that comes before column `before`:
/// nothing before the first row.
pub fn previous_wrapped_row_start(text: &str, before: u64, width: usize) -> (r: Option<u64>)
    requires
        width <= u64::MAX,
    ensures
        before == 0 ==> r is None,
        before > 0 ==> r == Some(last_below_from(row_starts(glyph_seq(text@), 0, width as int), 1, 0, before as int) as u64),
        r matches Some(x) ==> x < before,
{
    let gs = glyphs_of(text);
    previous_wrapped_row_start_of(gs.as_slice(), before, width)
}

/// The start of the wrapped row of a record's glyphs that comes before column
/// `before`: nothing before the first row.
pub fn previous_wrapped_row_start_of(gs: &[Glyph], before: u64, width: usize) -> (r: Option<u64>)
    requires
        width <= u64::MAX,
    ensures
        before == 0 ==> r is None,
        before > 0 ==> r == Some(last_below_from(row_starts(glyph_views(gs@), 0, width as int), 1, 0, before as int) as u64),
        r matches Some(x) ==> x < before,
{
    if before == 0 {
        return None;
    }
    let ghost v = glyph_views(gs@);
    let ghost full = row_starts(v, 0, width as int);
    let cols: u64 = if (width as u64) >= MIN_LOG_CONTENT_WIDTH_CELLS {
        width as u64
    } else {
        MIN_LOG_CONTENT_WIDTH_CELLS
    };
    proof {
        lemma_wrap_prefix(v, 0, v.len() as int, 0, cols as int);
        lemma_wrap_starts_nonempty(v, v.len() as int, 0, cols as int);
    }
    let mut previous: u64 = 0;
    let mut column: u64 = 0;
    let mut used: u64 = 0;
    let mut capacity = wrapped_payload_width(cols, false);
    let mut i: usize = 0;
    while i < gs.len()
        invariant
            i <= gs.len(),
            before > 0,
            previous < before,
            v == glyph_views(gs@),
            cols as int == wrap_width(width as int),
            full == row_starts(v, 0, width as int),
            full == wrap_state(v, v.len() as int, 0, cols as int).0,
            column == column_at(v, i as int),
            used as int == wrap_state(v, i as int, 0, cols as int).1,
            capacity as int == wrap_state(v, i as int, 0, cols as int).2,
            wrap_state(v, i as int, 0, cols as int).0.len() >= 1,
            last_below_from(full, 1, 0, before as int) == last_below_from(
                full,
                wrap_state(v, i as int, 0, cols as int).0.len() as int,
                previous as int,
                before as int,
            ),
        decreases gs.len() - i,
    {
        let w = cells(&gs[i], column);
        proof {
            lemma_wrap_prefix(v, i + 1, v.len() as int, 0, cols as int);
        }
        if used > 0 && used.saturating_add(w) > capacity {
            let ghost n = wrap_state(v, i as int, 0, cols as int).0.len() as int;
            assert(wrap_state(v, i + 1, 0, cols as int).0 == wrap_state(v, i as int, 0, cols as int).0.push(column as int));
            assert(full[n] == column as int) by {
                assert(full.take(n + 1)[n] == column as int);
            }
            if column >= before {
                return Some(previous);
            }
            previous = column;
            used = 0;
            capacity = wrapped_payload_width(cols, true);
        }
        used = used.saturating_add(w);
        column = column.saturating_add(w);
        i += 1;
    }
    assert(wrap_state(v, v.len() as int, 0, cols as int).0.len() == full.len());
    Some(previous)
}


/// Soft wrap of a record from column `start_cell` after its first `n` glyphs,
/// as shown glyphs: the finished rows, the current row, the columns used in it
/// and its capacity.
pub open spec fn rows_state(gs: Seq<GlyphView>, n: int, start_cell: int, width: int) -> (
    Seq<Seq<VisibleView>>,
    Seq<VisibleView>,
    int,
    int,
)
    decreases n,
{
    if n <= 0 {
        (Seq::empty(), Seq::empty(), 0, payload_width_spec(width, start_cell > 0))
    } else {
        let (rows, row, used, capacity) = rows_state(gs, n - 1, start_cell, width);
        let c = column_at(gs, n - 1);
        let w = glyph_width(gs[n - 1], c);
        let here = shown(gs[n - 1], c);
        if c < start_cell {
            (rows, row, used, capacity)
        } else if used > 0 && sat(used + w) > capacity {
            (rows.push(row), seq![here], sat(w), payload_width_spec(width, true))
        } else {
            (rows, row.push(here), sat(used + w), capacity)
        }
    }
}

/// The rows of a record wrapped from `start_cell`: the finished rows, then the
/// last one unless it is empty (an empty record shown from its start has one
/// empty row).
pub open spec fn wrapped_rows(gs: Seq<GlyphView>, start_cell: int, width: int) -> Seq<Seq<VisibleView>> {
    let (rows, row, _, _) = rows_state(gs, gs.len() as int, start_cell, wrap_width(width));
    if row.len() > 0 || (gs.len() == 0 && start_cell == 0) {
        rows.push(row)
    } else {
        rows
    }
}

proof fn lemma_rows_prefix(gs: Seq<GlyphView>, i: int, j: int, start_cell: int, width: int)
    requires
        0 <= i <= j,
    ensures
        rows_state(gs, j, start_cell, width).0.len() >= rows_state(gs, i, start_cell, width).0.len(),
        rows_state(gs, j, start_cell, width).0.take(rows_state(gs, i, start_cell, width).0.len() as int)
            == rows_state(gs, i, start_cell, width).0,
    decreases j - i,
{
    if i < j {
        lemma_rows_prefix(gs, i, j - 1, start_cell, width);
        let a = rows_state(gs, i, start_cell, width).0;
        let b = rows_state(gs, j - 1, start_cell, width).0;
        let c = rows_state(gs, j, start_cell, width).0;
        assert(c.take(a.len() as int) =~= b.take(a.len() as int));
    } else {
        let a = rows_state(gs, i, start_cell, width).0;
        assert(a.take(a.len() as int) =~= a);
    }
}

/// One wrapped row: its glyphs, and whether it continues the row before.
pub struct WrappedSlice {
    pub graphemes: Vec<VisibleGrapheme>,
    pub continuation: bool,
}

pub open spec fn wrapped_views(v: Seq<WrappedSlice>) -> Seq<Seq<VisibleView>> {
    v.map_values(|w: WrappedSlice| visible_views(w.graphemes@))
}

/// The first `limit` wrapped rows of a record shown from column `start_cell`;
/// every row but a first one that starts the record is a continuation.
pub fn wrapped_slices_of(gs: &[Glyph], start_cell: u64, width: usize, limit: usize) -> (r: Vec<
    WrappedSlice,
>)
    requires
        width <= u64::MAX,
    ensures
        ({
            let all = wrapped_rows(glyph_views(gs@), start_cell as int, width as int);
            wrapped_views(r@) == all.take(
                if limit as int <= all.len() {
                    limit as int
                } else {
                    all.len() as int
                },
            )
        }),
        forall|k: int| 0 <= k < r@.len() ==> (#[trigger] r@[k]).continuation == (k > 0 || start_cell > 0),
{
    let ghost v = glyph_views(gs@);
    let ghost all = wrapped_rows(v, start_cell as int, width as int);
    let ghost k = if limit as int <= all.len() {
        limit as int
    } else {
        all.len() as int
    };
    let cols: u64 = if (width as u64) >= MIN_LOG_CONTENT_WIDTH_CELLS {
        width as u64
    } else {
        MIN_LOG_CONTENT_WIDTH_CELLS
    };
    proof {
        lemma_rows_prefix(v, 0, v.len() as int, start_cell as int, cols as int);
    }
    let mut rows: Vec<WrappedSlice> = Vec::new();
    if limit == 0 {
        assert(wrapped_views(rows@) =~= all.take(k));
        return rows;
    }
    let mut row: Vec<VisibleGrapheme> = Vec::new();
    let mut column: u64 = 0;
    let mut used: u64 = 0;
    let mut capacity = wrapped_payload_width(cols, start_cell > 0);
    let mut i: usize = 0;
    assert(wrapped_views(rows@) =~= Seq::<Seq<VisibleView>>::empty());
    assert(visible_views(row@) =~= Seq::<VisibleView>::empty());
    while i < gs.len()
        invariant
            i <= gs.len(),
            limit >= 1,
            rows@.len() < limit,
            v == glyph_views(gs@),
            cols as int == wrap_width(width as int),
            all == wrapped_rows(v, start_cell as int, width as int),
            k == (if limit as int <= all.len() {
                limit as int
            } else {
                all.len() as int
            }),
            column == column_at(v, i as int),
            (wrapped_views(rows@), visible_views(row@), used as int, capacity as int) == rows_state(
                v,
                i as int,
                start_cell as int,
                cols as int,
            ),
            forall|j: int|
                0 <= j < rows@.len() ==> (#[trigger] rows@[j]).continuation == (j > 0 || start_cell
                    > 0),
        decreases gs.len() - i,
    {
        let w = cells(&gs[i], column);
        if column < start_cell {
            column = column.saturating_add(w);
            i += 1;
            continue;
        }
        if used > 0 && used.saturating_add(w) > capacity {
            let continuation = rows.len() > 0 || start_cell > 0;
            let finished = WrappedSlice { graphemes: row, continuation };
            let ghost before = wrapped_views(rows@);
            rows.push(finished);
            assert(wrapped_views(rows@) =~= before.push(visible_views(finished.graphemes@)));
            row = Vec::new();
            if rows.len() == limit {
                proof {
                    lemma_rows_prefix(v, i + 1, v.len() as int, start_cell as int, cols as int);
                    assert(wrapped_views(rows@) == rows_state(v, i + 1, start_cell as int, cols as int).0);
                    let fin = rows_state(v, v.len() as int, start_cell as int, cols as int).0;
                    assert(all.take(fin.len() as int) =~= fin);
                    assert(wrapped_views(rows@) =~= all.take(k));
                }
                return rows;
            }
            used = 0;
            capacity = wrapped_payload_width(cols, true);
        }
        let here = show(&gs[i], column);
        let ghost before_row = visible_views(row@);
        row.push(here);
        assert(visible_views(row@) =~= before_row.push(here@));
        used = used.saturating_add(w);
        column = column.saturating_add(w);
        i += 1;
    }
    if row.len() > 0 || (gs.len() == 0 && start_cell == 0) {
        let continuation = rows.len() > 0 || start_cell > 0;
        let last = WrappedSlice { graphemes: row, continuation };
        let ghost before = wrapped_views(rows@);
        rows.push(last);
        assert(wrapped_views(rows@) =~= before.push(visible_views(last.graphemes@)));
    }
    assert(wrapped_views(rows@) =~= all.take(k));
    rows
}

/// The first `limit` wrapped rows of `text` shown from column `start_cell`.
pub fn wrapped_slices(text: &str, start_cell: u64, width: usize, limit: usize) -> (r: Vec<WrappedSlice>)
    requires
        width <= u64::MAX,
    ensures
        ({
            let all = wrapped_rows(glyph_seq(text@), start_cell as int, width as int);
            wrapped_views(r@) == all.take(
                if limit as int <= all.len() {
                    limit as int
                } else {
                    all.len() as int
                },
            )
        }),
        forall|k: int| 0 <= k < r@.len() ==> (#[trigger] r@[k]).continuation == (k > 0 || start_cell > 0),
{
    let gs = glyphs_of(text);
    wrapped_slices_of(gs.as_slice(), start_cell, width, limit)
}


/// The case-insensitive literal matches of `query` in `text`; none for an
/// empty query, or when its escaped pattern does not build within `regex`'s
/// default limits.
pub open spec fn literal_matches(text: Seq<char>, query: Seq<char>) -> Option<Seq<(usize, usize)>> {
    let p = escaped_pattern(query);
    if query.len() == 0 || regex_build_error(p, DEFAULT_COMPILED_LIMIT, DEFAULT_DFA_LIMIT) is Some {
        None
    } else {
        Some(regex_matches(p, text))
    }
}

pub fn literal_match_spans(text: &str, query: &str) -> (r: Option<Vec<(usize, usize)>>)
    ensures
        match r {
            Some(v) => literal_matches(text@, query@) == Some(v@) && successive(v@),
            None => literal_matches(text@, query@) is None,
        },
{
    if query.is_empty() {
        return None;
    }
    let pattern = regex_escape(query);
    match CompiledQuery::build(pattern.as_str(), DEFAULT_COMPILED_LIMIT, DEFAULT_DFA_LIMIT) {
        Ok(q) => Some(q.match_spans(text)),
        Err(_) => None,
    }
}

/// The first case-insensitive literal match of `query` in `text`.
pub fn first_literal_match_range(text: &str, query: &str) -> (r: Option<(usize, usize)>)
    ensures
        r == (match literal_matches(text@, query@) {
            Some(v) => if v.len() > 0 {
                Some(v[0])
            } else {
                None
            },
            None => None,
        }),
{
    match literal_match_spans(text, query) {
        Some(v) => if v.len() > 0 {
            Some(v[0])
        } else {
            None
        },
        None => None,
    }
}

/// The matches of `spans` (in order) that reach into `visible_start..visible_end`:
/// those ending at or before the start are skipped, the walk stops at the first
/// that starts at or after the end, and empty matches are left out.
pub open spec fn window_from(s: Seq<(usize, usize)>, k: int, visible_start: int, visible_end: int, skipping: bool) -> Seq<(usize, usize)>
    decreases s.len() - k,
{
    if k < 0 || k >= s.len() {
        Seq::empty()
    } else if skipping && s[k].1 <= visible_start {
        window_from(s, k + 1, visible_start, visible_end, true)
    } else if s[k].0 >= visible_end {
        Seq::empty()
    } else if s[k].0 == s[k].1 {
        window_from(s, k + 1, visible_start, visible_end, false)
    } else {
        seq![s[k]] + window_from(s, k + 1, visible_start, visible_end, false)
    }
}

proof fn lemma_successive_mono(s: Seq<(usize, usize)>, i: int, j: int)
    requires
        successive(s),
        0 <= i <= j < s.len(),
    ensures
        s[i].0 <= s[j].0,
        s[i].1 <= s[j].1,
    decreases j - i,
{
    if i < j {
        lemma_successive_mono(s, i, j - 1);
        assert(s[j - 1].1 <= s[j].0);
        assert(s[j].0 <= s[j].1);
    }
}

proof fn lemma_window_complete(s: Seq<(usize, usize)>, k: int, vs: int, ve: int, skipping: bool)
    requires
        successive(s),
        0 <= k <= s.len(),
    ensures
        forall|j: int|
            k <= j < s.len() && s[j].0 < s[j].1 && s[j].0 < ve && s[j].1 > vs ==> window_from(
                s,
                k,
                vs,
                ve,
                skipping,
            ).contains(#[trigger] s[j]),
    decreases s.len() - k,
{
    if k < s.len() {
        let w = window_from(s, k, vs, ve, skipping);
        if skipping && s[k].1 <= vs {
            lemma_window_complete(s, k + 1, vs, ve, true);
        } else if s[k].0 >= ve {
            assert forall|j: int| k <= j < s.len() implies !(#[trigger] s[j].0 < ve) by {
                lemma_successive_mono(s, k, j);
            }
        } else if s[k].0 == s[k].1 {
            lemma_window_complete(s, k + 1, vs, ve, false);
        } else {
            lemma_window_complete(s, k + 1, vs, ve, false);
            let rest = window_from(s, k + 1, vs, ve, false);
            assert(w == seq![s[k]] + rest);
            assert(w[0] == s[k]);
            assert forall|j: int|
                k < j < s.len() && s[j].0 < s[j].1 && s[j].0 < ve && s[j].1 > vs implies w.contains(
                #[trigger] s[j],
            ) by {
                assert(rest.contains(s[j]));
                let i = choose|i: int| 0 <= i < rest.len() && rest[i] == s[j];
                assert(w[i + 1] == rest[i]);
            }
        }
    }
}

proof fn lemma_window_sound(s: Seq<(usize, usize)>, k: int, vs: int, ve: int, skipping: bool)
    requires
        successive(s),
        0 <= k <= s.len(),
        !skipping ==> 0 < k && s[k - 1].1 > vs,
    ensures
        forall|x: (usize, usize)|
            window_from(s, k, vs, ve, skipping).contains(x) ==> x.0 < x.1 && x.0 < ve && x.1 > vs,
    decreases s.len() - k,
{
    let w = window_from(s, k, vs, ve, skipping);
    if k >= s.len() {
        assert(w =~= Seq::<(usize, usize)>::empty());
    } else {
        if skipping && s[k].1 <= vs {
            lemma_window_sound(s, k + 1, vs, ve, true);
            assert(w == window_from(s, k + 1, vs, ve, true));
        } else if s[k].0 >= ve {
            assert(w =~= Seq::<(usize, usize)>::empty());
        } else {
            if !skipping {
                lemma_successive_mono(s, k - 1, k);
            }
            assert(s[k].1 > vs);
            assert(s[k].0 <= s[k].1);
            lemma_window_sound(s, k + 1, vs, ve, false);
            if s[k].0 == s[k].1 {
                assert(w == window_from(s, k + 1, vs, ve, false));
            } else {
                let rest = window_from(s, k + 1, vs, ve, false);
                assert(w == seq![s[k]] + rest);
                assert forall|x: (usize, usize)| w.contains(x) implies x.0 < x.1 && x.0 < ve && x.1
                    > vs by {
                    let i = choose|i: int| 0 <= i < w.len() && w[i] == x;
                    if i > 0 {
                        assert(rest[i - 1] == x);
                        assert(rest.contains(x));
                    } else {
                        assert(w[0] == s[k]);
                    }
                }
            }
        }
    }
}

/// Highlighting keeps every match that can be seen: of matches in order (as
/// `find_iter` gives them), each non-empty one that starts before the visible
/// end and ends after the visible start is kept, including one that began
/// before the visible bytes; and everything kept is such a match.
pub proof fn law_window_keeps_every_visible_match(s: Seq<(usize, usize)>, vs: int, ve: int)
    requires
        successive(s),
    ensures
        forall|k: int|
            0 <= k < s.len() && s[k].0 < s[k].1 && s[k].0 < ve && s[k].1 > vs ==> window_from(
                s,
                0,
                vs,
                ve,
                true,
            ).contains(#[trigger] s[k]),
        forall|x: (usize, usize)|
            #[trigger] window_from(s, 0, vs, ve, true).contains(x) ==> s.contains(x) && x.0 < x.1
                && x.0 < ve && x.1 > vs,
{
    lemma_window_complete(s, 0, vs, ve, true);
    lemma_window_sound(s, 0, vs, ve, true);
    lemma_window_members(s, 0, vs, ve, true);
}

proof fn lemma_window_members(s: Seq<(usize, usize)>, k: int, vs: int, ve: int, skipping: bool)
    requires
        0 <= k <= s.len(),
    ensures
        forall|x: (usize, usize)| window_from(s, k, vs, ve, skipping).contains(x) ==> s.contains(x),
    decreases s.len() - k,
{
    if k < s.len() {
        let w = window_from(s, k, vs, ve, skipping);
        if skipping && s[k].1 <= vs {
            lemma_window_members(s, k + 1, vs, ve, true);
        } else if s[k].0 >= ve {
        } else if s[k].0 == s[k].1 {
            lemma_window_members(s, k + 1, vs, ve, false);
        } else {
            lemma_window_members(s, k + 1, vs, ve, false);
            let rest = window_from(s, k + 1, vs, ve, false);
            assert(w == seq![s[k]] + rest);
            assert forall|x: (usize, usize)| w.contains(x) implies s.contains(x) by {
                let i = choose|i: int| 0 <= i < w.len() && w[i] == x;
                if i > 0 {
                    assert(rest[i - 1] == x);
                    assert(rest.contains(x));
                } else {
                    assert(s[k] == x);
                }
            }
        }
    }
}

/// `window_from` over all of `spans`.
pub fn ranges_in_window(spans: &[(usize, usize)], visible_start: usize, visible_end: usize) -> (r: Vec<
    (usize, usize),
>)
    ensures
        r@ == window_from(spans@, 0, visible_start as int, visible_end as int, true),
{
    let ghost goal = window_from(spans@, 0, visible_start as int, visible_end as int, true);
    let mut out: Vec<(usize, usize)> = Vec::new();
    let mut skipping = true;
    let mut i: usize = 0;
    while i < spans.len()
        invariant
            i <= spans.len(),
            goal == window_from(spans@, 0, visible_start as int, visible_end as int, true),
            out@ + window_from(spans@, i as int, visible_start as int, visible_end as int, skipping)
                == goal,
        decreases spans.len() - i,
    {
        let (a, b) = spans[i];
        if skipping && b <= visible_start {
            i += 1;
            continue;
        }
        skipping = false;
        if a >= visible_end {
            assert(out@ =~= goal);
            return out;
        }
        if a != b {
            let ghost before = out@;
            out.push((a, b));
            assert(out@ + window_from(spans@, i + 1, visible_start as int, visible_end as int, false)
                =~= before + window_from(spans@, i as int, visible_start as int, visible_end as int, false));
        }
        i += 1;
    }
    assert(out@ =~= goal);
    out
}

/// The literal matches of `query` in `text` that reach into the visible bytes.
pub fn literal_match_ranges_in(text: &str, query: &str, visible_start: usize, visible_end: usize) -> (r:
    Vec<(usize, usize)>)
    ensures
        r@ == (match literal_matches(text@, query@) {
            Some(v) => window_from(v, 0, visible_start as int, visible_end as int, true),
            None => Seq::empty(),
        }),
        literal_matches(text@, query@) matches Some(v) ==> forall|k: int|
            0 <= k < v.len() && v[k].0 < v[k].1 && v[k].0 < visible_end && v[k].1 > visible_start
                ==> r@.contains(#[trigger] v[k]),
        forall|x: (usize, usize)| #[trigger] r@.contains(x) ==> x.0 < x.1 && x.0 < visible_end && x.1
            > visible_start,
{
    match literal_match_spans(text, query) {
        Some(v) => {
            proof {
                law_window_keeps_every_visible_match(v@, visible_start as int, visible_end as int);
            }
            ranges_in_window(v.as_slice(), visible_start, visible_end)
        },
        None => Vec::new(),
    }
}

/// The matches of an active filter that reach into the visible bytes
/// `visible_start..visible_end` (`window_from`); none without a filter.
pub fn filter_match_ranges_in(
    text: &str,
    filter: Option<&CompiledQuery>,
    visible_start: usize,
    visible_end: usize,
) -> (r: Vec<(usize, usize)>)
    ensures
        r@ == (match pattern_of(filter) {
            Some(p) => window_from(regex_matches(p, text@), 0, visible_start as int, visible_end as int, true),
            None => Seq::empty(),
        }),
        forall|x: (usize, usize)| #[trigger] r@.contains(x) ==> x.0 < x.1 && x.0 < visible_end && x.1
            > visible_start,
{
    match filter {
        Some(q) => {
            let spans = q.match_spans(text);
            proof {
                law_window_keeps_every_visible_match(spans@, visible_start as int, visible_end as int);
            }
            ranges_in_window(spans.as_slice(), visible_start, visible_end)
        },
        None => Vec::new(),
    }
}


/// All rows, one after another.
pub open spec fn flatten_rows(rs: Seq<Seq<VisibleView>>) -> Seq<VisibleView>
    decreases rs.len(),
{
    if rs.len() == 0 {
        Seq::empty()
    } else {
        flatten_rows(rs.drop_last()) + rs.last()
    }
}

/// Every glyph of a record as shown from its start.
pub open spec fn shown_all(gs: Seq<GlyphView>, n: int) -> Seq<VisibleView> {
    Seq::new(n as nat, |i: int| shown(gs[i], column_at(gs, i)))
}

proof fn lemma_column_nonneg(gs: Seq<GlyphView>, n: int)
    requires
        forall|k: int| 0 <= k < gs.len() ==> (#[trigger] gs[k]).width >= 0,
        n <= gs.len(),
    ensures
        column_at(gs, n) >= 0,
    decreases n,
{
    if n > 0 {
        lemma_column_nonneg(gs, n - 1);
    }
}

proof fn lemma_rows_cover(gs: Seq<GlyphView>, n: int, width: int)
    requires
        0 <= n <= gs.len(),
        forall|k: int| 0 <= k < gs.len() ==> (#[trigger] gs[k]).width >= 0,
    ensures
        flatten_rows(rows_state(gs, n, 0, width).0) + rows_state(gs, n, 0, width).1 == shown_all(gs, n),
    decreases n,
{
    if n > 0 {
        lemma_rows_cover(gs, n - 1, width);
        lemma_column_nonneg(gs, n - 1);
        let (rows, row, used, capacity) = rows_state(gs, n - 1, 0, width);
        let c = column_at(gs, n - 1);
        let here = shown(gs[n - 1], c);
        assert(shown_all(gs, n) =~= shown_all(gs, n - 1).push(here));
        if used > 0 && sat(used + glyph_width(gs[n - 1], c)) > capacity {
            assert(rows.push(row).drop_last() =~= rows);
            assert(flatten_rows(rows.push(row)) + seq![here] =~= flatten_rows(rows) + row + seq![here]);
        } else {
            assert(flatten_rows(rows) + row.push(here) =~= flatten_rows(rows) + row + seq![here]);
        }
    } else {
        assert(shown_all(gs, 0) =~= Seq::<VisibleView>::empty());
        assert(flatten_rows(Seq::<Seq<VisibleView>>::empty()) + Seq::<VisibleView>::empty() =~= Seq::<VisibleView>::empty());
    }
}

/// Soft wrap only breaks a record between grapheme clusters: its rows, one
/// after another, hold every glyph of the record in order, each shown at its
/// own column.
pub proof fn law_wrapping_keeps_every_glyph(gs: Seq<GlyphView>, width: int)
    requires
        forall|k: int| 0 <= k < gs.len() ==> (#[trigger] gs[k]).width >= 0,
    ensures
        flatten_rows(wrapped_rows(gs, 0, width)) == shown_all(gs, gs.len() as int),
{
    let w = wrap_width(width);
    lemma_rows_cover(gs, gs.len() as int, w);
    let (rows, row, _, _) = rows_state(gs, gs.len() as int, 0, w);
    if row.len() > 0 || gs.len() == 0 {
        assert(rows.push(row).drop_last() =~= rows);
    } else {
        assert(flatten_rows(rows) + row =~= flatten_rows(rows));
    }
}

/// The overflow markers appear exactly when content is hidden on their side:
/// the left one when scrolled right of a record with any width, the right one
/// when the record reaches past the columns left for content.
pub proof fn law_overflow_markers_mean_hidden_content(gs: Seq<GlyphView>, offset: int, width: int)
    requires
        0 <= offset,
        0 <= width,
    ensures
        horizontal_spec(gs, offset, width).1 == (offset > 0 && column_at(gs, gs.len() as int) > 0),
        horizontal_spec(gs, offset, width).2 ==> column_at(gs, gs.len() as int) > offset,
        !horizontal_spec(gs, offset, width).2 ==> column_at(gs, gs.len() as int) <= sat(
            offset + width,
        ),
{
}

/// The bytes of a record that a run of shown graphemes covers: from the first
/// one's start to the last one's end; none when nothing is shown.
pub fn visible_byte_range(graphemes: &[VisibleGrapheme]) -> (r: Option<(usize, usize)>)
    ensures
        graphemes@.len() == 0 ==> r is None,
        graphemes@.len() > 0 ==> r == Some(
            (graphemes@[0].source_start, graphemes@[graphemes@.len() - 1].source_end),
        ),
{
    if graphemes.len() == 0 {
        return None;
    }
    Some((graphemes[0].source_start, graphemes[graphemes.len() - 1].source_end))
}

/// `acc` widened to cover the graphemes `gs`: the least start and the greatest
/// end among them.
pub open spec fn widened(acc: Option<(usize, usize)>, gs: Seq<VisibleGrapheme>) -> Option<
    (usize, usize),
>
    decreases gs.len(),
{
    if gs.len() == 0 {
        acc
    } else {
        let g = gs.last();
        match widened(acc, gs.drop_last()) {
            Some((a, b)) => Some(
                (
                    if g.source_start < a {
                        g.source_start
                    } else {
                        a
                    },
                    if g.source_end > b {
                        g.source_end
                    } else {
                        b
                    },
                ),
            ),
            None => Some((g.source_start, g.source_end)),
        }
    }
}

/// `widened` over the rows `rows`, one after another.
pub open spec fn widened_rows(acc: Option<(usize, usize)>, rows: Seq<WrappedSlice>) -> Option<
    (usize, usize),
>
    decreases rows.len(),
{
    if rows.len() == 0 {
        acc
    } else {
        widened(widened_rows(acc, rows.drop_last()), rows.last().graphemes@)
    }
}

/// The bytes of a record that wrapped rows cover: the least start and the
/// greatest end among their graphemes; none when they show nothing.
pub fn wrapped_byte_range(rows: &[WrappedSlice]) -> (r: Option<(usize, usize)>)
    ensures
        r == widened_rows(None, rows@),
{
    let mut acc: Option<(usize, usize)> = None;
    let mut i: usize = 0;
    while i < rows.len()
        invariant
            i <= rows.len(),
            acc == widened_rows(None, rows@.take(i as int)),
        decreases rows.len() - i,
    {
        let gs = &rows[i].graphemes;
        let ghost before = acc;
        let mut j: usize = 0;
        while j < gs.len()
            invariant
                j <= gs.len(),
                acc == widened(before, gs@.take(j as int)),
            decreases gs.len() - j,
        {
            let g = &gs[j];
            acc = match acc {
                Some((a, b)) => Some(
                    (
                        if g.source_start < a {
                            g.source_start
                        } else {
                            a
                        },
                        if g.source_end > b {
                            g.source_end
                        } else {
                            b
                        },
                    ),
                ),
                None => Some((g.source_start, g.source_end)),
            };
            assert(gs@.take(j + 1).drop_last() =~= gs@.take(j as int));
            j += 1;
        }
        assert(gs@.take(gs@.len() as int) =~= gs@);
        assert(rows@.take(i + 1).drop_last() =~= rows@.take(i as int));
        i += 1;
    }
    assert(rows@.take(rows@.len() as int) =~= rows@);
    acc
}

} // verus!

use vstd::prelude::*;

use unicode_width::UnicodeWidthChar;

use crate::text::{chars_of, lemma_utf8_len_mono, slice_to_vec, string_of, utf8_len, utf8_len_of};
use crate::text_input::TextInputView;

verus! {

/// The display width that `unicode_width` gives a character; `None` for a
/// control character.
pub uninterp spec fn unicode_char_width(c: char) -> Option<usize>;

/// `UnicodeWidthChar::width`: the columns that `c` takes, `None` for a
/// control character.
#[verifier::external_body]
fn char_columns(c: char) -> (r: Option<usize>)
    ensures
        r == unicode_char_width(c),
{
    UnicodeWidthChar::width(c)
}

/// Columns a character of an input takes; a control character takes none.
pub open spec fn input_char_width(c: char) -> int {
    match unicode_char_width(c) {
        Some(w) => w as int,
        None => 0,
    }
}

fn input_char_columns(c: char) -> (r: usize)
    ensures
        r == input_char_width(c),
{
    match char_columns(c) {
        Some(w) => w,
        None => 0,
    }
}

/// Walking back from character `k` with the cursor `column` columns in: the
/// first shown character and the cursor's column, keeping the cursor within
/// `limit` columns.
pub open spec fn back_start(ws: Seq<int>, k: int, column: int, limit: int) -> (int, int)
    decreases k,
{
    if k <= 0 || k > ws.len() {
        (k, column)
    } else {
        let w = ws[k - 1];
        if column + w > limit {
            (k, column)
        } else {
            back_start(ws, k - 1, column + w, limit)
        }
    }
}

/// Walking forward from character `k` with `used` columns taken: the end of
/// what fits in `width` columns.
pub open spec fn forward_end(ws: Seq<int>, k: int, used: int, width: int) -> int
    decreases ws.len() - k,
{
    if k < 0 || k >= ws.len() {
        k
    } else {
        let w = ws[k];
        if used + w > width {
            k
        } else {
            forward_end(ws, k + 1, used + w, width)
        }
    }
}

proof fn lemma_forward_end(ws: Seq<int>, k: int, used: int, width: int)
    requires
        0 <= k <= ws.len(),
    ensures
        k <= forward_end(ws, k, used, width) <= ws.len(),
    decreases ws.len() - k,
{
    if k < ws.len() {
        let w = ws[k];
        if used + w <= width {
            lemma_forward_end(ws, k + 1, used + w, width);
        }
    }
}

/// The part of an input that a field of `width` columns shows, keeping the
/// cursor in view within the cursor limit (one column short of the width),
/// and the cursor's column. `cursor_chars` is the cursor as a character
/// position. Offsets of the result are bytes into the shown text.
pub open spec fn input_window_spec(
    text: Seq<char>,
    ws: Seq<int>,
    cursor_chars: int,
    selection: Option<(int, int)>,
    width: int,
) -> (Seq<char>, int, Option<(int, int)>, int) {
    let limit = if width >= 1 {
        width - 1
    } else {
        0
    };
    let (ks, column) = back_start(ws, cursor_chars, 0, limit);
    let ke = forward_end(ws, ks, 0, width);
    let start = utf8_len(text.take(ks)) as int;
    let end = utf8_len(text.take(ke)) as int;
    let cursor = utf8_len(text.take(cursor_chars)) as int;
    let shown_selection = match selection {
        Some((a, b)) => {
            let a2 = if a >= start {
                a
            } else {
                start
            };
            let b2 = if b <= end {
                b
            } else {
                end
            };
            if a2 < b2 {
                Some((a2 - start, b2 - start))
            } else {
                None
            }
        },
        None => None,
    };
    (text.subrange(ks, ke), cursor - start, shown_selection, column)
}

/// The columns each character of `text` takes.
pub open spec fn char_widths_of(text: Seq<char>) -> Seq<int> {
    Seq::new(text.len(), |i: int| input_char_width(text[i]))
}

pub open spec fn width_views(ws: Seq<usize>) -> Seq<int> {
    ws.map_values(|w: usize| w as int)
}

/// The columns each character of `text` takes.
pub fn char_widths(text: &[char]) -> (r: Vec<usize>)
    ensures
        width_views(r@) == char_widths_of(text@),
{
    let mut out: Vec<usize> = Vec::new();
    let mut i: usize = 0;
    while i < text.len()
        invariant
            i <= text.len(),
            width_views(out@) == char_widths_of(text@).take(i as int),
        decreases text.len() - i,
    {
        let w = input_char_columns(text[i]);
        let ghost before = width_views(out@);
        out.push(w);
        assert(width_views(out@) =~= before.push(w as int));
        assert(char_widths_of(text@).take(i + 1) =~= char_widths_of(text@).take(i as int).push(
            w as int,
        ));
        i += 1;
    }
    assert(char_widths_of(text@).take(text.len() as int) =~= char_widths_of(text@));
    out
}

/// What the input field shows of `input` in `width` columns, and the cursor's column.
pub fn visible_window<'a>(input: TextInputView<'a>, width: usize) -> (r: (String, usize, Option<
    (usize, usize),
>, usize))
    requires
        exists|k: int| 0 <= k <= input.text@.len() && utf8_len(input.text@.take(k)) == input.cursor,
    ensures
        exists|k: int|
            0 <= k <= input.text@.len() && utf8_len(input.text@.take(k)) == input.cursor && (
            r.0@,
            r.1 as int,
            match r.2 {
                Some((a, b)) => Some((a as int, b as int)),
                None => None,
            },
            r.3 as int,
        ) == input_window_spec(
                input.text@,
                char_widths_of(input.text@),
                k,
                match input.selection {
                    Some((a, b)) => Some((a as int, b as int)),
                    None => None,
                },
                width as int,
            ),
{
    let cs = chars_of(input.text);
    let widths = char_widths(cs.as_slice());
    visible_window_with(input, widths.as_slice(), width)
}

/// What the input field shows of `input` in `width` columns, with the columns
/// of its characters given, and the cursor's column.
pub fn visible_window_with<'a>(input: TextInputView<'a>, widths: &[usize], width: usize) -> (r: (
    String,
    usize,
    Option<(usize, usize)>,
    usize,
))
    requires
        exists|k: int| 0 <= k <= input.text@.len() && utf8_len(input.text@.take(k)) == input.cursor,
        widths@.len() == input.text@.len(),
    ensures
        exists|k: int|
            0 <= k <= input.text@.len() && utf8_len(input.text@.take(k)) == input.cursor && (
            r.0@,
            r.1 as int,
            match r.2 {
                Some((a, b)) => Some((a as int, b as int)),
                None => None,
            },
            r.3 as int,
        ) == input_window_spec(
                input.text@,
                width_views(widths@),
                k,
                match input.selection {
                    Some((a, b)) => Some((a as int, b as int)),
                    None => None,
                },
                width as int,
            ),
{
    let ghost ws = width_views(widths@);
    let cs = chars_of(input.text);
    let total = input.text.as_bytes().len();
    proof {
        crate::text::lemma_encode_len(input.text@);
    }
    let ghost kc_w = choose|k: int|
        0 <= k <= input.text@.len() && utf8_len(input.text@.take(k)) == input.cursor;
    let kc = cursor_position(cs.as_slice(), input.cursor);
    proof {
        crate::text::lemma_utf8_len_strict_mono(cs@, kc as int, kc_w);
    }
    let limit = if width >= 1 {
        width - 1
    } else {
        0
    };
    let mut ks = kc;
    let mut column: usize = 0;
    let mut stop = false;
    while ks > 0 && !stop
        invariant
            ks <= kc <= cs@.len(),
            column <= limit,
            ws == width_views(widths@),
            widths@.len() == cs@.len(),
            back_start(ws, kc as int, 0, limit as int) == back_start(ws, ks as int, column as int, limit as int),
            stop ==> back_start(ws, ks as int, column as int, limit as int) == (ks as int, column as int),
        decreases 2 * ks + if stop {
            0int
        } else {
            1int
        },
    {
        let w = widths[ks - 1];
        if w > limit - column {
            stop = true;
        } else {
            column = column + w;
            ks = ks - 1;
        }
    }
    proof {
        lemma_forward_end(ws, ks as int, 0, width as int);
    }
    let mut ke = ks;
    let mut used: usize = 0;
    let mut full = false;
    while ke < cs.len() && !full
        invariant
            ks <= ke <= cs@.len(),
            used <= width,
            ws == width_views(widths@),
            widths@.len() == cs@.len(),
            forward_end(ws, ks as int, 0, width as int) == forward_end(ws, ke as int, used as int, width as int),
            full ==> forward_end(ws, ke as int, used as int, width as int) == ke as int,
        decreases 2 * (cs.len() - ke) + if full {
            0int
        } else {
            1int
        },
    {
        let w = widths[ke];
        if w > width - used {
            full = true;
        } else {
            used = used + w;
            ke = ke + 1;
        }
    }
    let before = slice_to_vec(cs.as_slice(), 0, ks);
    let upto = slice_to_vec(cs.as_slice(), 0, ke);
    let shown = slice_to_vec(cs.as_slice(), ks, ke);
    proof {
        lemma_utf8_len_mono(cs@, ks as int, ke as int);
        lemma_utf8_len_mono(cs@, ks as int, kc as int);
        lemma_utf8_len_mono(cs@, ke as int, cs@.len() as int);
        assert(cs@.take(cs@.len() as int) =~= cs@);
        assert(before@ =~= cs@.take(ks as int));
        assert(upto@ =~= cs@.take(ke as int));
    }
    let start = utf8_len_of(before.as_slice());
    let end = utf8_len_of(upto.as_slice());
    let selection = match input.selection {
        Some((a, b)) => {
            let a2 = if a >= start {
                a
            } else {
                start
            };
            let b2 = if b <= end {
                b
            } else {
                end
            };
            if a2 < b2 {
                Some((a2 - start, b2 - start))
            } else {
                None
            }
        },
        None => None,
    };
    assert(shown@ =~= cs@.subrange(ks as int, ke as int));
    let r = (string_of(shown.as_slice()), input.cursor - start, selection, column);
    assert((
        r.0@,
        r.1 as int,
        match r.2 {
            Some((a, b)) => Some((a as int, b as int)),
            None => None,
        },
        r.3 as int,
    ) == input_window_spec(
        input.text@,
        ws,
        kc as int,
        match input.selection {
            Some((a, b)) => Some((a as int, b as int)),
            None => None,
        },
        width as int,
    ));
    r
}

/// The character position whose UTF-8 prefix is `cursor` bytes long.
fn cursor_position(cs: &[char], cursor: usize) -> (k: usize)
    requires
        exists|k: int| 0 <= k <= cs@.len() && utf8_len(cs@.take(k)) == cursor,
        utf8_len(cs@) <= usize::MAX,
    ensures
        k <= cs@.len(),
        utf8_len(cs@.take(k as int)) == cursor,
{
    let mut k: usize = 0;
    let mut bytes: usize = 0;
    while bytes < cursor && k < cs.len()
        invariant
            k <= cs@.len(),
            bytes == utf8_len(cs@.take(k as int)),
            bytes <= cursor,
            utf8_len(cs@) <= usize::MAX,
            exists|j: int| k <= j <= cs@.len() && utf8_len(cs@.take(j)) == cursor,
        decreases cs.len() - k,
    {
        proof {
            crate::text::lemma_utf8_len_take_step(cs@, k as int);
            lemma_utf8_len_mono(cs@, k + 1, cs@.len() as int);
            assert(cs@.take(cs@.len() as int) =~= cs@);
            let j = choose|j: int| k <= j <= cs@.len() && utf8_len(cs@.take(j)) == cursor;
            if j == k {
                assert(false);
            }
            lemma_utf8_len_mono(cs@, k + 1, j);
        }
        bytes = bytes + crate::text::char_utf8_width(cs[k]);
        k += 1;
    }
    proof {
        let j = choose|j: int| k <= j <= cs@.len() && utf8_len(cs@.take(j)) == cursor;
        if bytes < cursor {
            assert(k == cs@.len());
            assert(j == k);
        }
    }
    k
}

} // verus!

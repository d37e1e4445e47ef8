use vstd::prelude::*;

use crate::keys::{no_modifiers, KeyCode, KeyEvent, KeyModifiers};
use crate::text::{
    ascii_lower, char_utf8_width, chars_of, is_ctrl, is_control, is_whitespace, is_ws,
    lemma_utf8_len_concat, lemma_utf8_len_ge_len, lemma_utf8_len_mono, lemma_utf8_len_take_step, slice_to_vec, string_of,
    to_ascii_lower, utf8_len, utf8_len_of,
};

verus! {

/// The largest text, in UTF-8 bytes, that an input holds.
pub const MAX_INPUT_BYTES: usize = 4096;

/// How many edits can be undone (and redone).
pub const EDIT_HISTORY_LIMIT: usize = 32;

/// Access to the system clipboard.
pub trait Clipboard {
    fn get_text(&mut self) -> Result<String, String>;

    fn set_text(&mut self, text: &str) -> Result<(), String>;
}

/// What an input shows: its text, the cursor and the selection, as byte offsets.
#[derive(Clone, Copy, Debug)]
pub struct TextInputView<'a> {
    pub text: &'a str,
    pub cursor: usize,
    pub selection: Option<(usize, usize)>,
}

impl<'a> TextInputView<'a> {
    /// `text` with the cursor after its last byte and nothing selected.
    pub fn at_end(text: &'a str) -> (r: Self)
        ensures
            r.text == text,
            r.cursor == text.len(),
            r.selection is None,
    {
        TextInputView { text, cursor: text.len(), selection: None }
    }
}

/// An input state kept for undo and redo.
pub struct SnapshotView {
    pub text: Seq<char>,
    pub cursor: int,
    pub anchor: Option<int>,
}

/// An input as plain values: text, cursor and selection anchor as character
/// positions, and the undo and redo histories.
pub struct InputModel {
    pub text: Seq<char>,
    pub cursor: int,
    pub anchor: Option<int>,
    pub undo: Seq<SnapshotView>,
    pub redo: Seq<SnapshotView>,
}

/// `text` on one line: control characters become spaces.
pub open spec fn single_line(text: Seq<char>) -> Seq<char> {
    text.map_values(|c: char| if is_ctrl(c) { ' ' } else { c })
}

/// The length of the longest prefix of `s` that fits in `limit` bytes.
pub open spec fn fitting_len(s: Seq<char>, limit: nat) -> nat
    decreases s.len(),
{
    if utf8_len(s) <= limit {
        s.len()
    } else {
        fitting_len(s.drop_last(), limit)
    }
}

/// `text` on one line, cut before the first character that would make it longer
/// than `limit` bytes.
pub open spec fn bounded_spec(text: Seq<char>, limit: nat) -> Seq<char> {
    let m = single_line(text);
    m.take(fitting_len(m, limit) as int)
}

proof fn lemma_fitting_len(s: Seq<char>, limit: nat, i: int)
    requires
        0 <= i <= s.len(),
        utf8_len(s.take(i)) <= limit,
        i < s.len() ==> utf8_len(s.take(i + 1)) > limit,
    ensures
        fitting_len(s, limit) == i,
    decreases s.len(),
{
    assert(s.take(s.len() as int) =~= s);
    if utf8_len(s) <= limit {
        if i < s.len() {
            lemma_utf8_len_mono(s, i + 1, s.len() as int);
        }
    } else {
        assert(i < s.len());
        let d = s.drop_last();
        assert(d.take(i) =~= s.take(i));
        if i < d.len() {
            assert(d.take(i + 1) =~= s.take(i + 1));
        } else {
            assert(d.take(i) =~= d);
        }
        lemma_fitting_len(d, limit, i);
    }
}

proof fn lemma_bounded_fits(text: Seq<char>, limit: nat)
    ensures
        utf8_len(bounded_spec(text, limit)) <= limit,
        bounded_spec(text, limit).len() <= text.len(),
    decreases text.len(),
{
    lemma_fitting_fits(single_line(text), limit);
}

proof fn lemma_fitting_fits(s: Seq<char>, limit: nat)
    ensures
        fitting_len(s, limit) <= s.len(),
        utf8_len(s.take(fitting_len(s, limit) as int)) <= limit,
    decreases s.len(),
{
    if utf8_len(s) <= limit {
        assert(s.take(s.len() as int) =~= s);
    } else {
        lemma_fitting_fits(s.drop_last(), limit);
        let k = fitting_len(s.drop_last(), limit) as int;
        assert(s.drop_last().take(k) =~= s.take(k));
    }
}

/// `bounded_spec`, computed.
pub fn bounded_single_line(text: &[char], byte_limit: usize) -> (r: Vec<char>)
    ensures
        r@ == bounded_spec(text@, byte_limit as nat),
{
    let ghost m = single_line(text@);
    let mut out: Vec<char> = Vec::new();
    let mut total: usize = 0;
    let mut i: usize = 0;
    while i < text.len()
        invariant
            i <= text.len(),
            m == single_line(text@),
            out@ == m.take(i as int),
            total == utf8_len(m.take(i as int)),
            total <= byte_limit,
        decreases text.len() - i,
    {
        let c = if is_control(text[i]) {
            ' '
        } else {
            text[i]
        };
        assert(m[i as int] == c);
        proof {
            lemma_utf8_len_take_step(m, i as int);
        }
        let w = char_utf8_width(c);
        if w > byte_limit - total {
            proof {
                lemma_fitting_len(m, byte_limit as nat, i as int);
            }
            return out;
        }
        out.push(c);
        assert(m.take(i as int).push(c) =~= m.take(i + 1));
        total = total + w;
        i += 1;
    }
    proof {
        lemma_fitting_len(m, byte_limit as nat, i as int);
    }
    out
}

/// The selected range, when the anchor is set apart from the cursor.
pub open spec fn selection_spec(m: InputModel) -> Option<(int, int)> {
    match m.anchor {
        Some(a) => if a == m.cursor {
            None
        } else if a < m.cursor {
            Some((a, m.cursor))
        } else {
            Some((m.cursor, a))
        },
        None => None,
    }
}

pub open spec fn snapshot_of(m: InputModel) -> SnapshotView {
    SnapshotView { text: m.text, cursor: m.cursor, anchor: m.anchor }
}

/// `h` with `s` added, forgetting the oldest entry when 32 are kept.
pub open spec fn push_bounded_spec(h: Seq<SnapshotView>, s: SnapshotView) -> Seq<SnapshotView> {
    if h.len() == EDIT_HISTORY_LIMIT {
        h.drop_first().push(s)
    } else {
        h.push(s)
    }
}

/// Replaces the selection (or inserts at the cursor) with `replacement`, kept on
/// one line and within the byte budget; an edit that changes nothing is not
/// recorded.
pub open spec fn replace_spec(m: InputModel, replacement: Seq<char>) -> InputModel {
    let (s, e) = match selection_spec(m) {
        Some(range) => range,
        None => (m.cursor, m.cursor),
    };
    let retained = utf8_len(m.text) - utf8_len(m.text.subrange(s, e));
    let r = bounded_spec(replacement, (MAX_INPUT_BYTES - retained) as nat);
    if s == e && r.len() == 0 {
        m
    } else {
        InputModel {
            text: m.text.subrange(0, s) + r + m.text.subrange(e, m.text.len() as int),
            cursor: s + r.len(),
            anchor: None,
            undo: push_bounded_spec(m.undo, snapshot_of(m)),
            redo: Seq::empty(),
        }
    }
}

/// Moves the cursor; with `selecting` the anchor stays (or is set where the
/// cursor was), otherwise the selection goes.
pub open spec fn move_spec(m: InputModel, position: int, selecting: bool) -> InputModel {
    InputModel {
        cursor: position,
        anchor: if selecting {
            match m.anchor {
                Some(a) => Some(a),
                None => Some(m.cursor),
            }
        } else {
            None
        },
        ..m
    }
}

pub open spec fn undo_spec(m: InputModel) -> InputModel {
    if m.undo.len() == 0 {
        m
    } else {
        let s = m.undo.last();
        InputModel {
            text: s.text,
            cursor: s.cursor,
            anchor: s.anchor,
            undo: m.undo.drop_last(),
            redo: push_bounded_spec(m.redo, snapshot_of(m)),
        }
    }
}

pub open spec fn redo_spec(m: InputModel) -> InputModel {
    if m.redo.len() == 0 {
        m
    } else {
        let s = m.redo.last();
        InputModel {
            text: s.text,
            cursor: s.cursor,
            anchor: s.anchor,
            undo: push_bounded_spec(m.undo, snapshot_of(m)),
            redo: m.redo.drop_last(),
        }
    }
}

pub open spec fn select_all_spec(m: InputModel) -> InputModel {
    InputModel { anchor: Some(0), cursor: m.text.len() as int, ..m }
}

/// Where a backward word move ends: back over whitespace, then over the word.
pub open spec fn skip_back_ws(s: Seq<char>, p: int) -> int
    decreases p,
{
    if p > 0 && is_ws(s[p - 1]) {
        skip_back_ws(s, p - 1)
    } else {
        p
    }
}

pub open spec fn skip_back_word(s: Seq<char>, p: int) -> int
    decreases p,
{
    if p > 0 && !is_ws(s[p - 1]) {
        skip_back_word(s, p - 1)
    } else {
        p
    }
}

pub open spec fn previous_word_spec(s: Seq<char>, p: int) -> int {
    skip_back_word(s, skip_back_ws(s, p))
}

/// Where a forward word move ends: over the word, then over whitespace.
pub open spec fn skip_word(s: Seq<char>, p: int) -> int
    decreases s.len() - p,
{
    if 0 <= p < s.len() && !is_ws(s[p]) {
        skip_word(s, p + 1)
    } else {
        p
    }
}

pub open spec fn skip_ws(s: Seq<char>, p: int) -> int
    decreases s.len() - p,
{
    if 0 <= p < s.len() && is_ws(s[p]) {
        skip_ws(s, p + 1)
    } else {
        p
    }
}

pub open spec fn next_word_spec(s: Seq<char>, p: int) -> int {
    skip_ws(s, skip_word(s, p))
}

proof fn lemma_skip_back(s: Seq<char>, p: int)
    requires
        0 <= p <= s.len(),
    ensures
        0 <= skip_back_ws(s, p) <= p,
        0 <= skip_back_word(s, p) <= p,
    decreases p,
{
    if p > 0 {
        lemma_skip_back(s, p - 1);
    }
}

proof fn lemma_skip_fwd(s: Seq<char>, p: int)
    requires
        0 <= p <= s.len(),
    ensures
        p <= skip_ws(s, p) <= s.len(),
        p <= skip_word(s, p) <= s.len(),
    decreases s.len() - p,
{
    if p < s.len() {
        lemma_skip_fwd(s, p + 1);
    }
}

/// Primary shortcut modifier: Ctrl (Windows) or Command (macOS), Shift allowed.
pub open spec fn has_primary(m: KeyModifiers) -> bool {
    let w = KeyModifiers { shift: false, ..m };
    w == (KeyModifiers { control: true, ..no_modifiers() }) || w == (KeyModifiers {
        super_key: true,
        ..no_modifiers()
    })
}

/// Word-wise modifier: Ctrl (Windows) or Option (macOS), Shift allowed.
pub open spec fn has_word_modifier(m: KeyModifiers) -> bool {
    let w = KeyModifiers { shift: false, ..m };
    w == (KeyModifiers { control: true, ..no_modifiers() }) || w == (KeyModifiers {
        alt: true,
        ..no_modifiers()
    })
}

/// Line-wise modifier: Command (macOS), Shift allowed.
pub open spec fn has_line_modifier(m: KeyModifiers) -> bool {
    KeyModifiers { shift: false, ..m } == (KeyModifiers { super_key: true, ..no_modifiers() })
}

/// What a key does to an input.
pub enum KeyEffect {
    /// The input becomes this model; the flag says whether the key was handled.
    Edit(InputModel, bool),
    /// The selection is copied.
    Copy,
    /// The selection is copied, then removed.
    Cut,
    /// The clipboard text replaces the selection.
    Paste,
}

/// Keys without the primary modifier's shortcuts: deletion, cursor movement and typing.
pub open spec fn plain_key_spec(m: InputModel, key: KeyEvent) -> KeyEffect {
    let mods = key.modifiers;
    let selecting = mods.shift;
    match key.code {
        KeyCode::Backspace => if selection_spec(m) is Some {
            KeyEffect::Edit(replace_spec(m, Seq::empty()), true)
        } else {
            let start = if has_line_modifier(mods) {
                0
            } else if has_word_modifier(mods) {
                previous_word_spec(m.text, m.cursor)
            } else if m.cursor > 0 {
                m.cursor - 1
            } else {
                0
            };
            KeyEffect::Edit(replace_spec(InputModel { anchor: Some(start), ..m }, Seq::empty()), true)
        },
        KeyCode::Delete => if selection_spec(m) is Some {
            KeyEffect::Edit(replace_spec(m, Seq::empty()), true)
        } else {
            let end = if has_line_modifier(mods) {
                m.text.len() as int
            } else if has_word_modifier(mods) {
                next_word_spec(m.text, m.cursor)
            } else if m.cursor < m.text.len() {
                m.cursor + 1
            } else {
                m.text.len() as int
            };
            KeyEffect::Edit(replace_spec(InputModel { anchor: Some(end), ..m }, Seq::empty()), true)
        },
        KeyCode::Left => {
            let position = if has_line_modifier(mods) {
                0
            } else if has_word_modifier(mods) {
                previous_word_spec(m.text, m.cursor)
            } else if m.cursor > 0 {
                m.cursor - 1
            } else {
                0
            };
            KeyEffect::Edit(move_spec(m, position, selecting), true)
        },
        KeyCode::Right => {
            let position = if has_line_modifier(mods) {
                m.text.len() as int
            } else if has_word_modifier(mods) {
                next_word_spec(m.text, m.cursor)
            } else if m.cursor < m.text.len() {
                m.cursor + 1
            } else {
                m.text.len() as int
            };
            KeyEffect::Edit(move_spec(m, position, selecting), true)
        },
        KeyCode::Home => KeyEffect::Edit(move_spec(m, 0, selecting), true),
        KeyCode::End => KeyEffect::Edit(move_spec(m, m.text.len() as int, selecting), true),
        KeyCode::Char(c) => if !mods.control && !mods.super_key {
            KeyEffect::Edit(replace_spec(m, seq![c]), true)
        } else {
            KeyEffect::Edit(m, false)
        },
        _ => KeyEffect::Edit(m, false),
    }
}

/// What `key` does to an input in state `m`.
pub open spec fn key_spec(m: InputModel, key: KeyEvent) -> KeyEffect {
    if has_primary(key.modifiers) && key.code is Char {
        let c = ascii_lower(key.code->Char_0);
        if c == 'a' {
            KeyEffect::Edit(select_all_spec(m), true)
        } else if c == 'c' {
            KeyEffect::Copy
        } else if c == 'x' {
            KeyEffect::Cut
        } else if c == 'v' {
            KeyEffect::Paste
        } else if c == 'z' && key.modifiers.shift {
            KeyEffect::Edit(redo_spec(m), true)
        } else if c == 'z' {
            KeyEffect::Edit(undo_spec(m), true)
        } else if c == 'y' {
            KeyEffect::Edit(redo_spec(m), true)
        } else {
            plain_key_spec(m, key)
        }
    } else {
        plain_key_spec(m, key)
    }
}

/// The selected characters, if any.
pub open spec fn selected_text(m: InputModel) -> Option<Seq<char>> {
    match selection_spec(m) {
        Some((s, e)) => Some(m.text.subrange(s, e)),
        None => None,
    }
}

/// `utf8_len` splits over a cut of `t` at `s` and `e`.
proof fn lemma_split_len(t: Seq<char>, s: int, e: int)
    requires
        0 <= s <= e <= t.len(),
    ensures
        utf8_len(t) == utf8_len(t.subrange(0, s)) + utf8_len(t.subrange(s, e)) + utf8_len(
            t.subrange(e, t.len() as int),
        ),
        t.subrange(0, s) == t.take(s),
{
    assert(t =~= t.subrange(0, s) + t.subrange(s, e) + t.subrange(e, t.len() as int));
    lemma_utf8_len_concat(t.subrange(0, s) + t.subrange(s, e), t.subrange(e, t.len() as int));
    lemma_utf8_len_concat(t.subrange(0, s), t.subrange(s, e));
    assert(t.subrange(0, s) =~= t.take(s));
}

/// Appends `v` to `out`.
fn append_chars(out: &mut Vec<char>, v: &[char])
    ensures
        final(out)@ == old(out)@ + v@,
{
    let ghost b = out@;
    let mut k: usize = 0;
    while k < v.len()
        invariant
            k <= v.len(),
            out@ == b + v@.take(k as int),
        decreases v.len() - k,
    {
        out.push(v[k]);
        assert(b + v@.take(k as int).push(v@[k as int]) =~= b + v@.take(k + 1));
        k += 1;
    }
    assert(v@.take(v.len() as int) =~= v@);
}

proof fn lemma_push_history_ok(h: Seq<SnapshotView>, s: SnapshotView)
    requires
        history_ok(h),
        state_ok(s.text, s.cursor, s.anchor),
    ensures
        history_ok(push_bounded_spec(h, s)),
{
    let r = push_bounded_spec(h, s);
    assert forall|i: int| 0 <= i < r.len() implies state_ok(
        #[trigger] r[i].text,
        r[i].cursor,
        r[i].anchor,
    ) by {
        if h.len() == EDIT_HISTORY_LIMIT {
            if i < r.len() - 1 {
                assert(r[i] == h[i + 1]);
            }
        } else {
            if i < r.len() - 1 {
                assert(r[i] == h[i]);
            }
        }
    }
}

proof fn lemma_bounded_no_controls(text: Seq<char>, limit: nat)
    ensures
        no_controls(bounded_spec(text, limit)),
{
    lemma_fitting_fits(single_line(text), limit);
    let sl = single_line(text);
    let r = bounded_spec(text, limit);
    assert forall|i: int| 0 <= i < r.len() implies !is_ctrl(#[trigger] r[i]) by {
        assert(r[i] == sl[i]);
    }
}

/// Whether `t` holds no control character.
pub open spec fn no_controls(t: Seq<char>) -> bool {
    forall|i: int| 0 <= i < t.len() ==> !is_ctrl(#[trigger] t[i])
}

/// Whatever is inserted, an input's text stays on one line, free of control
/// characters, and within its byte budget.
pub proof fn law_edits_keep_text_single_line(m: InputModel, inserted: Seq<char>)
    requires
        model_ok(m),
    ensures
        no_controls(replace_spec(m, inserted).text),
        utf8_len(replace_spec(m, inserted).text) <= MAX_INPUT_BYTES,
        model_ok(replace_spec(m, inserted)),
{
    let (s, e) = match selection_spec(m) {
        Some(range) => range,
        None => (m.cursor, m.cursor),
    };
    let retained = utf8_len(m.text) - utf8_len(m.text.subrange(s, e));
    lemma_split_len(m.text, s, e);
    let limit = (MAX_INPUT_BYTES - retained) as nat;
    let r = bounded_spec(inserted, limit);
    lemma_bounded_fits(inserted, limit);
    let sl = single_line(inserted);
    lemma_fitting_fits(sl, limit);
    assert forall|i: int| 0 <= i < r.len() implies !is_ctrl(#[trigger] r[i]) by {
        assert(r[i] == sl[i]);
    }
    if !(s == e && r.len() == 0) {
        let before = m.text.subrange(0, s);
        let after = m.text.subrange(e, m.text.len() as int);
        let t = before + r + after;
        assert(t == replace_spec(m, inserted).text);
        assert forall|i: int| 0 <= i < t.len() implies !is_ctrl(#[trigger] t[i]) by {
            if i < s {
                assert(t[i] == m.text[i]);
            } else if i < s + r.len() {
                assert(t[i] == r[i - s]);
            } else {
                assert(t[i] == m.text[i - s - r.len() + e]);
            }
        }
        lemma_utf8_len_concat(before, r);
        lemma_utf8_len_concat(before + r, after);
        lemma_utf8_len_ge_len(before + r);
        lemma_utf8_len_ge_len(t);
        lemma_push_history_ok(m.undo, snapshot_of(m));
    }
}

proof fn lemma_move_ok(m: InputModel, position: int, selecting: bool)
    requires
        model_ok(m),
        0 <= position <= m.text.len(),
    ensures
        model_ok(move_spec(m, position, selecting)),
{
}

proof fn lemma_step_ok(m: InputModel)
    requires
        model_ok(m),
    ensures
        model_ok(undo_spec(m)),
        model_ok(redo_spec(m)),
{
    if m.undo.len() > 0 {
        assert(state_ok(m.undo[m.undo.len() - 1].text, m.undo[m.undo.len() - 1].cursor, m.undo[m.undo.len() - 1].anchor));
        lemma_push_history_ok(m.redo, snapshot_of(m));
        let u = m.undo.drop_last();
        assert forall|i: int| 0 <= i < u.len() implies state_ok(#[trigger] u[i].text, u[i].cursor, u[i].anchor) by {
            assert(u[i] == m.undo[i]);
        }
    }
    if m.redo.len() > 0 {
        assert(state_ok(m.redo[m.redo.len() - 1].text, m.redo[m.redo.len() - 1].cursor, m.redo[m.redo.len() - 1].anchor));
        lemma_push_history_ok(m.undo, snapshot_of(m));
        let d = m.redo.drop_last();
        assert forall|i: int| 0 <= i < d.len() implies state_ok(#[trigger] d[i].text, d[i].cursor, d[i].anchor) by {
            assert(d[i] == m.redo[i]);
        }
    }
}

/// Every key leaves an input well formed: its text on one line, free of
/// control characters and within its byte budget, with cursor, selection and
/// histories in bounds. That holds of the edits a key makes itself, of a cut,
/// and of a paste whatever the clipboard held. A key the input does not handle
/// changes nothing.
#[verifier::rlimit(40)]
pub proof fn law_keys_keep_input_well_formed(m: InputModel, key: KeyEvent, pasted: Seq<char>)
    requires
        model_ok(m),
    ensures
        key_spec(m, key) matches KeyEffect::Edit(next, handled) ==> model_ok(next) && (!handled
            ==> next == m),
        model_ok(replace_spec(m, pasted)),
        model_ok(replace_spec(m, Seq::empty())),
{
    law_edits_keep_text_single_line(m, pasted);
    law_edits_keep_text_single_line(m, Seq::empty());
    lemma_step_ok(m);
    lemma_skip_back(m.text, m.cursor);
    lemma_skip_back(m.text, skip_back_ws(m.text, m.cursor));
    lemma_skip_fwd(m.text, m.cursor);
    lemma_skip_fwd(m.text, skip_word(m.text, m.cursor));
    let mods = key.modifiers;
    let selecting = mods.shift;
    let back = if has_line_modifier(mods) {
        0
    } else if has_word_modifier(mods) {
        previous_word_spec(m.text, m.cursor)
    } else if m.cursor > 0 {
        m.cursor - 1
    } else {
        0
    };
    let fwd = if has_line_modifier(mods) {
        m.text.len() as int
    } else if has_word_modifier(mods) {
        next_word_spec(m.text, m.cursor)
    } else if m.cursor < m.text.len() {
        m.cursor + 1
    } else {
        m.text.len() as int
    };
    lemma_move_ok(m, back, selecting);
    lemma_move_ok(m, fwd, selecting);
    lemma_move_ok(m, 0, selecting);
    lemma_move_ok(m, m.text.len() as int, selecting);
    let mb = InputModel { anchor: Some(back), ..m };
    let mf = InputModel { anchor: Some(fwd), ..m };
    law_edits_keep_text_single_line(mb, Seq::empty());
    law_edits_keep_text_single_line(mf, Seq::empty());
    match key.code {
        KeyCode::Char(c) => {
            law_edits_keep_text_single_line(m, seq![c]);
        },
        _ => {},
    }
}

/// The undo key (Ctrl+Z, or Command+Z) right after an edit gives back the text,
/// cursor and selection from before it, and the redo key (Ctrl+Y, or the undo
/// key with Shift) then gives the edit back. The input stays well formed, and
/// each history keeps at most 32 states.
pub proof fn law_undo_and_redo_keys_invert_an_edit(
    m: InputModel,
    inserted: Seq<char>,
    undo: KeyEvent,
    redo: KeyEvent,
)
    requires
        model_ok(m),
        replace_spec(m, inserted) != m,
        has_primary(undo.modifiers),
        !undo.modifiers.shift,
        undo.code matches KeyCode::Char(c) && ascii_lower(c) == 'z',
        has_primary(redo.modifiers),
        redo.code matches KeyCode::Char(c) && (ascii_lower(c) == 'y' || (ascii_lower(c) == 'z'
            && redo.modifiers.shift)),
    ensures
        ({
            let e = replace_spec(m, inserted);
            let u = undo_spec(e);
            &&& key_spec(e, undo) == KeyEffect::Edit(u, true)
            &&& snapshot_of(u) == snapshot_of(m)
            &&& key_spec(u, redo) == KeyEffect::Edit(redo_spec(u), true)
            &&& snapshot_of(redo_spec(u)) == snapshot_of(e)
            &&& model_ok(u) && model_ok(redo_spec(u))
            &&& u.undo.len() <= EDIT_HISTORY_LIMIT && u.redo.len() <= EDIT_HISTORY_LIMIT
        }),
{
    let e = replace_spec(m, inserted);
    law_edits_keep_text_single_line(m, inserted);
    law_undo_reverts_edit(m, inserted);
    lemma_step_ok(e);
    lemma_step_ok(undo_spec(e));
    assert(e.undo.len() > 0);
    assert(undo_spec(e).redo.len() > 0);
}

/// Undo right after an edit gives back the text, cursor and selection from
/// before the edit.
pub proof fn law_undo_reverts_edit(m: InputModel, inserted: Seq<char>)
    requires
        model_ok(m),
    ensures
        replace_spec(m, inserted) != m ==> snapshot_of(undo_spec(replace_spec(m, inserted)))
            == snapshot_of(m),
{
}

/// Redo right after an undo gives back the state from before the undo, and,
/// while the redo history had room, the redo history too.
pub proof fn law_redo_reverts_undo(m: InputModel)
    requires
        model_ok(m),
        m.undo.len() > 0,
    ensures
        snapshot_of(redo_spec(undo_spec(m))) == snapshot_of(m),
        m.redo.len() < EDIT_HISTORY_LIMIT ==> redo_spec(undo_spec(m)).redo == m.redo,
{
    if m.redo.len() < EDIT_HISTORY_LIMIT {
        assert(redo_spec(undo_spec(m)).redo =~= m.redo);
    }
}

struct Snapshot {
    chars: Vec<char>,
    cursor: usize,
    anchor: Option<usize>,
}

spec fn snapshot_view(s: Snapshot) -> SnapshotView {
    SnapshotView {
        text: s.chars@,
        cursor: s.cursor as int,
        anchor: match s.anchor {
            Some(a) => Some(a as int),
            None => None,
        },
    }
}

spec fn snapshot_views(v: Seq<Snapshot>) -> Seq<SnapshotView> {
    v.map_values(|s: Snapshot| snapshot_view(s))
}

/// Whether a state is a valid input state: cursor and anchor inside the text,
/// the text within the byte budget and free of control characters.
pub open spec fn state_ok(text: Seq<char>, cursor: int, anchor: Option<int>) -> bool {
    &&& 0 <= cursor <= text.len()
    &&& match anchor {
        Some(a) => 0 <= a <= text.len(),
        None => true,
    }
    &&& utf8_len(text) <= MAX_INPUT_BYTES
    &&& no_controls(text)
}

pub open spec fn history_ok(h: Seq<SnapshotView>) -> bool {
    &&& h.len() <= EDIT_HISTORY_LIMIT
    &&& forall|i: int| 0 <= i < h.len() ==> state_ok(#[trigger] h[i].text, h[i].cursor, h[i].anchor)
}

/// The invariant of an input.
pub open spec fn model_ok(m: InputModel) -> bool {
    state_ok(m.text, m.cursor, m.anchor) && history_ok(m.undo) && history_ok(m.redo)
}

/// A single-line text field with selection, clipboard shortcuts and a bounded
/// undo history.
pub struct TextInput {
    text: String,
    chars: Vec<char>,
    cursor: usize,
    anchor: Option<usize>,
    undo: Vec<Snapshot>,
    redo: Vec<Snapshot>,
}

impl TextInput {
    /// The input as plain values.
    pub closed spec fn model(&self) -> InputModel {
        InputModel {
            text: self.chars@,
            cursor: self.cursor as int,
            anchor: match self.anchor {
                Some(a) => Some(a as int),
                None => None,
            },
            undo: snapshot_views(self.undo@),
            redo: snapshot_views(self.redo@),
        }
    }
}

fn copy_snapshot(s: &Snapshot) -> (r: Snapshot)
    ensures
        snapshot_view(r) == snapshot_view(*s),
{
    let chars = slice_to_vec(&s.chars, 0, s.chars.len());
    assert(chars@ =~= s.chars@);
    Snapshot { chars, cursor: s.cursor, anchor: s.anchor }
}

fn copy_snapshots(v: &Vec<Snapshot>) -> (r: Vec<Snapshot>)
    ensures
        snapshot_views(r@) == snapshot_views(v@),
{
    let mut out: Vec<Snapshot> = Vec::new();
    let mut i: usize = 0;
    while i < v.len()
        invariant
            i <= v.len(),
            snapshot_views(out@) =~= snapshot_views(v@).take(i as int),
        decreases v.len() - i,
    {
        let ghost before = snapshot_views(out@);
        out.push(copy_snapshot(&v[i]));
        assert(snapshot_views(out@) =~= before.push(snapshot_view(v@[i as int])));
        assert(snapshot_views(v@).take(i + 1) =~= snapshot_views(v@).take(i as int).push(
            snapshot_view(v@[i as int]),
        ));
        i += 1;
    }
    assert(snapshot_views(v@).take(v.len() as int) =~= snapshot_views(v@));
    out
}

/// `h` with `s` added, dropping the oldest entry when full.
fn push_bounded(h: Vec<Snapshot>, s: Snapshot) -> (r: Vec<Snapshot>)
    ensures
        snapshot_views(r@) == push_bounded_spec(snapshot_views(h@), snapshot_view(s)),
{
    let mut h = h;
    let ghost before = snapshot_views(h@);
    if h.len() == EDIT_HISTORY_LIMIT {
        h.remove(0);
        assert(snapshot_views(h@) =~= before.drop_first());
    }
    let ghost mid = snapshot_views(h@);
    h.push(s);
    assert(snapshot_views(h@) =~= mid.push(snapshot_view(s)));
    h
}

impl TextInput {
    #[verifier::type_invariant]
    closed spec fn inv(self) -> bool {
        &&& self.text@ == self.chars@
        &&& model_ok(self.model())
    }

    /// An input holding `text`, kept on one line and within the byte budget, with
    /// the cursor at its end.
    pub fn new(text: &str) -> (r: Self)
        ensures
            r.model() == (InputModel {
                text: bounded_spec(text@, MAX_INPUT_BYTES as nat),
                cursor: bounded_spec(text@, MAX_INPUT_BYTES as nat).len() as int,
                anchor: None,
                undo: Seq::empty(),
                redo: Seq::empty(),
            }),
    {
        let raw = chars_of(text);
        let chars = bounded_single_line(&raw, MAX_INPUT_BYTES);
        proof {
            lemma_bounded_fits(text@, MAX_INPUT_BYTES as nat);
            lemma_bounded_no_controls(text@, MAX_INPUT_BYTES as nat);
        }
        let cursor = chars.len();
        let r = TextInput {
            text: string_of(&chars),
            chars,
            cursor,
            anchor: None,
            undo: Vec::new(),
            redo: Vec::new(),
        };
        assert(snapshot_views(r.undo@) =~= Seq::<SnapshotView>::empty());
        assert(snapshot_views(r.redo@) =~= Seq::<SnapshotView>::empty());
        r
    }

    pub fn text(&self) -> (r: &str)
        ensures
            r@ == self.model().text,
    {
        proof {
            use_type_invariant(self);
        }
        self.text.as_str()
    }

    /// How many characters stand before the cursor.
    pub fn cursor_chars(&self) -> (r: usize)
        ensures
            r == self.model().cursor,
    {
        self.cursor
    }

    fn selection(&self) -> (r: Option<(usize, usize)>)
        ensures
            match r {
                Some((s, e)) => selection_spec(self.model()) == Some((s as int, e as int)),
                None => selection_spec(self.model()) is None,
            },
    {
        match self.anchor {
            Some(a) => if a == self.cursor {
                None
            } else if a < self.cursor {
                Some((a, self.cursor))
            } else {
                Some((self.cursor, a))
            },
            None => None,
        }
    }

    fn byte_offset(&self, position: usize) -> (r: usize)
        requires
            position <= self.model().text.len(),
        ensures
            r == utf8_len(self.model().text.take(position as int)),
    {
        proof {
            use_type_invariant(self);
            lemma_utf8_len_mono(self.chars@, position as int, self.chars@.len() as int);
            assert(self.chars@.take(self.chars@.len() as int) =~= self.chars@);
        }
        let prefix = slice_to_vec(&self.chars, 0, position);
        assert(prefix@ =~= self.chars@.take(position as int));
        utf8_len_of(&prefix)
    }

    /// What to draw: the text, and the cursor and selection as byte offsets.
    pub fn view(&self) -> (r: TextInputView<'_>)
        ensures
            r.text@ == self.model().text,
            r.cursor == utf8_len(self.model().text.take(self.model().cursor)),
            match r.selection {
                Some((s, e)) => exists|a: int, b: int|
                    selection_spec(self.model()) == Some((a, b)) && s == utf8_len(self.model().text.take(a))
                        && e == utf8_len(self.model().text.take(b)),
                None => selection_spec(self.model()) is None,
            },
    {
        proof {
            use_type_invariant(self);
        }
        let selection = match self.selection() {
            Some((s, e)) => Some((self.byte_offset(s), self.byte_offset(e))),
            None => None,
        };
        TextInputView { text: self.text.as_str(), cursor: self.byte_offset(self.cursor), selection }
    }

    /// An identical input.
    pub fn duplicate(&self) -> (r: TextInput)
        ensures
            r.model() == self.model(),
    {
        proof {
            use_type_invariant(self);
        }
        let chars = slice_to_vec(&self.chars, 0, self.chars.len());
        assert(chars@ =~= self.chars@);
        TextInput {
            text: self.text.clone(),
            chars,
            cursor: self.cursor,
            anchor: self.anchor,
            undo: copy_snapshots(&self.undo),
            redo: copy_snapshots(&self.redo),
        }
    }

    fn snapshot(&self) -> (r: Snapshot)
        ensures
            snapshot_view(r) == snapshot_of(self.model()),
    {
        let chars = slice_to_vec(&self.chars, 0, self.chars.len());
        assert(chars@ =~= self.chars@);
        Snapshot { chars, cursor: self.cursor, anchor: self.anchor }
    }

    /// The input after `replace_spec` with the anchor first set to `anchor`.
    fn replaced(&self, anchor: Option<usize>, replacement: &[char]) -> (r: TextInput)
        requires
            match anchor {
                Some(a) => a <= self.model().text.len(),
                None => true,
            },
        ensures
            r.model() == replace_spec(
                InputModel {
                    anchor: match anchor {
                        Some(a) => Some(a as int),
                        None => None,
                    },
                    ..self.model()
                },
                replacement@,
            ),
    {
        proof {
            use_type_invariant(self);
        }
        let chars = slice_to_vec(&self.chars, 0, self.chars.len());
        assert(chars@ =~= self.chars@);
        let base = TextInput {
            text: self.text.clone(),
            chars,
            cursor: self.cursor,
            anchor,
            undo: copy_snapshots(&self.undo),
            redo: copy_snapshots(&self.redo),
        };
        let (s, e) = match base.selection() {
            Some(range) => range,
            None => (base.cursor, base.cursor),
        };
        let before = slice_to_vec(&base.chars, 0, s);
        let after = slice_to_vec(&base.chars, e, base.chars.len());
        let removed = slice_to_vec(&base.chars, s, e);
        proof {
            lemma_split_len(base.chars@, s as int, e as int);
        }
        let retained = utf8_len_of(&base.chars) - utf8_len_of(&removed);
        let r = bounded_single_line(replacement, MAX_INPUT_BYTES - retained);
        if s == e && r.len() == 0 {
            return base;
        }
        proof {
            lemma_bounded_fits(replacement@, (MAX_INPUT_BYTES - retained) as nat);
        }
        let snapshot = base.snapshot();
        let undo = push_bounded(copy_snapshots(&base.undo), snapshot);
        let cursor = base.spliced_cursor(s, &r);
        let mut chars = before;
        append_chars(&mut chars, &r);
        append_chars(&mut chars, &after);
        proof {
            lemma_utf8_len_concat(before@, r@);
            lemma_utf8_len_concat(before@ + r@, after@);
            lemma_push_history_ok(snapshot_views(base.undo@), snapshot_of(base.model()));
        }
        let redo: Vec<Snapshot> = Vec::new();
        assert(snapshot_views(redo@) =~= Seq::<SnapshotView>::empty());
        proof {
            use_type_invariant(&base);
            law_edits_keep_text_single_line(base.model(), replacement@);
            assert(chars@ =~= replace_spec(base.model(), replacement@).text);
        }
        TextInput { text: string_of(&chars), chars, cursor, anchor: None, undo, redo }
    }

    /// Where the cursor lands after `r` replaces the text from `s`: `s + r.len()`,
    /// which fits because the edited text stays within the byte budget.
    fn spliced_cursor(&self, s: usize, r: &[char]) -> (c: usize)
        requires
            s <= self.model().text.len(),
            utf8_len(self.model().text.take(s as int)) + utf8_len(r@) <= MAX_INPUT_BYTES,
        ensures
            c == s + r@.len(),
    {
        proof {
            lemma_utf8_len_ge_len(self.model().text.take(s as int));
            lemma_utf8_len_ge_len(r@);
        }
        s + r.len()
    }

    /// The input with the cursor moved (`move_spec`).
    fn moved(&self, position: usize, selecting: bool) -> (r: TextInput)
        requires
            position <= self.model().text.len(),
        ensures
            r.model() == move_spec(self.model(), position as int, selecting),
    {
        proof {
            use_type_invariant(self);
        }
        let anchor = if selecting {
            match self.anchor {
                Some(a) => Some(a),
                None => Some(self.cursor),
            }
        } else {
            None
        };
        let chars = slice_to_vec(&self.chars, 0, self.chars.len());
        assert(chars@ =~= self.chars@);
        TextInput {
            text: self.text.clone(),
            chars,
            cursor: position,
            anchor,
            undo: copy_snapshots(&self.undo),
            redo: copy_snapshots(&self.redo),
        }
    }

    /// The input after `undo_spec` (`redo_spec` when `forward`).
    fn stepped(&self, forward: bool) -> (r: TextInput)
        ensures
            r.model() == (if forward {
                redo_spec(self.model())
            } else {
                undo_spec(self.model())
            }),
    {
        proof {
            use_type_invariant(self);
        }
        let mut from = if forward {
            copy_snapshots(&self.redo)
        } else {
            copy_snapshots(&self.undo)
        };
        let to = if forward {
            copy_snapshots(&self.undo)
        } else {
            copy_snapshots(&self.redo)
        };
        if from.len() == 0 {
            return self.duplicate();
        }
        let ghost fv = snapshot_views(from@);
        let target = from.pop().unwrap();
        assert(snapshot_view(target) == fv.last());
        assert(snapshot_views(from@) =~= fv.drop_last());
        assert(state_ok(fv[fv.len() - 1].text, fv[fv.len() - 1].cursor, fv[fv.len() - 1].anchor));
        let current = self.snapshot();
        let to = push_bounded(to, current);
        let ghost tv = snapshot_views(to@);
        proof {
            let old_to = if forward {
                snapshot_views(self.undo@)
            } else {
                snapshot_views(self.redo@)
            };
            assert forall|i: int| 0 <= i < tv.len() implies state_ok(
                #[trigger] tv[i].text,
                tv[i].cursor,
                tv[i].anchor,
            ) by {
                if old_to.len() == EDIT_HISTORY_LIMIT {
                    if i < tv.len() - 1 {
                        assert(tv[i] == old_to[i + 1]);
                    }
                } else {
                    if i < tv.len() - 1 {
                        assert(tv[i] == old_to[i]);
                    }
                }
            }
            assert forall|i: int| 0 <= i < fv.len() - 1 implies state_ok(
                #[trigger] snapshot_views(from@)[i].text,
                snapshot_views(from@)[i].cursor,
                snapshot_views(from@)[i].anchor,
            ) by {
                assert(snapshot_views(from@)[i] == fv[i]);
            }
        }
        let Snapshot { chars, cursor, anchor } = target;
        if forward {
            TextInput { text: string_of(&chars), chars, cursor, anchor, undo: to, redo: from }
        } else {
            TextInput { text: string_of(&chars), chars, cursor, anchor, undo: from, redo: to }
        }
    }

    /// Inserts `text` at the cursor, replacing the selection.
    pub fn insert_text(&mut self, text: &str)
        ensures
            final(self).model() == replace_spec(old(self).model(), text@),
    {
        let replacement = chars_of(text);
        let anchor = self.anchor;
        proof {
            use_type_invariant(&*self);
        }
        *self = self.replaced(anchor, &replacement);
        assert(InputModel { anchor: old(self).model().anchor, ..old(self).model() } == old(self).model());
    }

    /// The input with all of its text selected (`select_all_spec`).
    fn all_selected(&self) -> (r: TextInput)
        ensures
            r.model() == select_all_spec(self.model()),
    {
        proof {
            use_type_invariant(self);
        }
        let chars = slice_to_vec(&self.chars, 0, self.chars.len());
        assert(chars@ =~= self.chars@);
        let cursor = chars.len();
        TextInput {
            text: self.text.clone(),
            chars,
            cursor,
            anchor: Some(0),
            undo: copy_snapshots(&self.undo),
            redo: copy_snapshots(&self.redo),
        }
    }

    /// Replaces the whole text with `text` as one edit that undo reverts.
    pub fn replace_all(&mut self, text: &str)
        ensures
            final(self).model() == replace_spec(select_all_spec(old(self).model()), text@),
    {
        proof {
            use_type_invariant(&*self);
        }
        let replacement = chars_of(text);
        let all = self.all_selected();
        *self = all.replaced(Some(0), &replacement);
    }

    /// The selected text, if any.
    fn selection_text(&self) -> (r: Option<String>)
        ensures
            match r {
                Some(t) => selected_text(self.model()) == Some(t@),
                None => selected_text(self.model()) is None,
            },
    {
        proof {
            use_type_invariant(self);
        }
        match self.selection() {
            Some((s, e)) => {
                let part = slice_to_vec(&self.chars, s, e);
                Some(string_of(&part))
            },
            None => None,
        }
    }

    /// Applies `key`: editing, cursor movement, selection, undo and redo, and the
    /// clipboard shortcuts. Returns whether the key was handled; a clipboard
    /// failure is returned as the error, and leaves the input as it was.
    pub fn handle_key<C: Clipboard>(&mut self, key: KeyEvent, clipboard: &mut C) -> (r: Result<
        bool,
        String,
    >)
        ensures
            match key_spec(old(self).model(), key) {
                KeyEffect::Edit(m, handled) => {
                    &&& r == Ok::<bool, String>(handled)
                    &&& final(self).model() == m
                },
                KeyEffect::Copy => {
                    &&& final(self).model() == old(self).model()
                    &&& r is Ok ==> r == Ok::<bool, String>(true)
                    &&& selected_text(old(self).model()) is None ==> r == Ok::<bool, String>(true)
                },
                KeyEffect::Cut => {
                    &&& selected_text(old(self).model()) is None ==> r == Ok::<bool, String>(true)
                        && final(self).model() == old(self).model()
                    &&& r is Ok ==> r == Ok::<bool, String>(true) && (selected_text(
                        old(self).model(),
                    ) is Some ==> final(self).model() == replace_spec(
                        old(self).model(),
                        Seq::empty(),
                    ))
                    &&& r is Err ==> final(self).model() == old(self).model()
                },
                KeyEffect::Paste => {
                    &&& r is Ok ==> r == Ok::<bool, String>(true) && exists|t: Seq<char>|
                        final(self).model() == replace_spec(old(self).model(), t)
                    &&& r is Err ==> final(self).model() == old(self).model()
                },
            },
            r is Err ==> final(self).model() == old(self).model() && (key_spec(old(self).model(), key)
                is Copy || key_spec(old(self).model(), key) is Cut || key_spec(old(self).model(), key)
                is Paste),
            r == Ok::<bool, String>(false) ==> key_spec(old(self).model(), key) == KeyEffect::Edit(
                old(self).model(),
                false,
            ) && final(self).model() == old(self).model(),
    {
        proof {
            use_type_invariant(&*self);
        }
        let ghost m = self.model();
        let mods = key.modifiers;
        let plain = mods.without_shift();
        let primary = plain == KeyModifiers::control() || plain == KeyModifiers::super_key();
        let word = plain == KeyModifiers::control() || plain == KeyModifiers::alt();
        let line = plain == KeyModifiers::super_key();
        assert(primary == has_primary(mods));
        assert(word == has_word_modifier(mods));
        assert(line == has_line_modifier(mods));
        if primary {
            if let KeyCode::Char(typed) = key.code {
                let c = to_ascii_lower(typed);
                if c == 'a' {
                    *self = self.all_selected();
                    return Ok(true);
                } else if c == 'c' {
                    return match self.selection_text() {
                        Some(t) => match clipboard.set_text(t.as_str()) {
                            Ok(()) => Ok(true),
                            Err(e) => Err(e),
                        },
                        None => Ok(true),
                    };
                } else if c == 'x' {
                    return match self.selection_text() {
                        Some(t) => match clipboard.set_text(t.as_str()) {
                            Ok(()) => {
                                let anchor = self.anchor;
                                let empty: Vec<char> = Vec::new();
                                *self = self.replaced(anchor, &empty);
                                assert(empty@ =~= Seq::<char>::empty());
                                assert(InputModel { anchor: m.anchor, ..m } == m);
                                Ok(true)
                            },
                            Err(e) => Err(e),
                        },
                        None => Ok(true),
                    };
                } else if c == 'v' {
                    return match clipboard.get_text() {
                        Ok(pasted) => {
                            self.insert_text(pasted.as_str());
                            Ok(true)
                        },
                        Err(e) => Err(e),
                    };
                } else if c == 'z' && mods.shift {
                    *self = self.stepped(true);
                    return Ok(true);
                } else if c == 'z' {
                    *self = self.stepped(false);
                    return Ok(true);
                } else if c == 'y' {
                    *self = self.stepped(true);
                    return Ok(true);
                }
            }
        }
        self.handle_plain_key(key, word, line)
    }

    /// The keys that `plain_key_spec` covers.
    fn handle_plain_key(&mut self, key: KeyEvent, word: bool, line: bool) -> (r: Result<
        bool,
        String,
    >)
        requires
            word == has_word_modifier(key.modifiers),
            line == has_line_modifier(key.modifiers),
        ensures
            match plain_key_spec(old(self).model(), key) {
                KeyEffect::Edit(m, handled) => {
                    &&& r == Ok::<bool, String>(handled)
                    &&& final(self).model() == m
                },
                _ => false,
            },
    {
        proof {
            use_type_invariant(&*self);
        }
        let ghost m = self.model();
        let selecting = key.modifiers.shift;
        let empty: Vec<char> = Vec::new();
        assert(empty@ =~= Seq::<char>::empty());
        assert(InputModel { anchor: m.anchor, ..m } == m);
        match key.code {
            KeyCode::Backspace => {
                if self.selection().is_some() {
                    let anchor = self.anchor;
                    *self = self.replaced(anchor, &empty);
                } else {
                    let start = if line {
                        0
                    } else if word {
                        previous_word_boundary(&self.chars, self.cursor)
                    } else if self.cursor > 0 {
                        self.cursor - 1
                    } else {
                        0
                    };
                    *self = self.replaced(Some(start), &empty);
                }
                Ok(true)
            },
            KeyCode::Delete => {
                if self.selection().is_some() {
                    let anchor = self.anchor;
                    *self = self.replaced(anchor, &empty);
                } else {
                    let end = if line {
                        self.chars.len()
                    } else if word {
                        next_word_boundary(&self.chars, self.cursor)
                    } else if self.cursor < self.chars.len() {
                        self.cursor + 1
                    } else {
                        self.chars.len()
                    };
                    *self = self.replaced(Some(end), &empty);
                }
                Ok(true)
            },
            KeyCode::Left => {
                let position = if line {
                    0
                } else if word {
                    previous_word_boundary(&self.chars, self.cursor)
                } else if self.cursor > 0 {
                    self.cursor - 1
                } else {
                    0
                };
                *self = self.moved(position, selecting);
                Ok(true)
            },
            KeyCode::Right => {
                let position = if line {
                    self.chars.len()
                } else if word {
                    next_word_boundary(&self.chars, self.cursor)
                } else if self.cursor < self.chars.len() {
                    self.cursor + 1
                } else {
                    self.chars.len()
                };
                *self = self.moved(position, selecting);
                Ok(true)
            },
            KeyCode::Home => {
                *self = self.moved(0, selecting);
                Ok(true)
            },
            KeyCode::End => {
                let len = self.chars.len();
                *self = self.moved(len, selecting);
                Ok(true)
            },
            KeyCode::Char(c) => {
                if !key.modifiers.control && !key.modifiers.super_key {
                    let typed = vec![c];
                    assert(typed@ =~= seq![c]);
                    let anchor = self.anchor;
                    *self = self.replaced(anchor, &typed);
                    Ok(true)
                } else {
                    Ok(false)
                }
            },
            _ => Ok(false),
        }
    }
}

/// `previous_word_spec`, computed.
fn previous_word_boundary(s: &[char], p: usize) -> (r: usize)
    requires
        p <= s@.len(),
    ensures
        r == previous_word_spec(s@, p as int),
        r <= p,
{
    proof {
        lemma_skip_back(s@, p as int);
    }
    let mut pos = p;
    while pos > 0 && is_whitespace(s[pos - 1])
        invariant
            pos <= p <= s@.len(),
            skip_back_ws(s@, pos as int) == skip_back_ws(s@, p as int),
        decreases pos,
    {
        pos -= 1;
    }
    let ghost mid = pos;
    proof {
        lemma_skip_back(s@, mid as int);
    }
    while pos > 0 && !is_whitespace(s[pos - 1])
        invariant
            pos <= mid <= p <= s@.len(),
            mid == skip_back_ws(s@, p as int),
            skip_back_word(s@, pos as int) == skip_back_word(s@, mid as int),
        decreases pos,
    {
        pos -= 1;
    }
    pos
}

/// `next_word_spec`, computed.
fn next_word_boundary(s: &[char], p: usize) -> (r: usize)
    requires
        p <= s@.len(),
    ensures
        r == next_word_spec(s@, p as int),
        p <= r <= s@.len(),
{
    let mut pos = p;
    while pos < s.len() && !is_whitespace(s[pos])
        invariant
            p <= pos <= s@.len(),
            skip_word(s@, pos as int) == skip_word(s@, p as int),
        decreases s@.len() - pos,
    {
        pos += 1;
    }
    let ghost mid = pos;
    while pos < s.len() && is_whitespace(s[pos])
        invariant
            p <= mid <= pos <= s@.len(),
            mid == skip_word(s@, p as int),
            skip_ws(s@, pos as int) == skip_ws(s@, mid as int),
        decreases s@.len() - pos,
    {
        pos += 1;
    }
    pos
}

} // verus!

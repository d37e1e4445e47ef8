use vstd::prelude::*;

use crate::runtime_state::StreamAction;
use crate::text::{
    chars_of, is_ascii_alnum, is_ascii_alnum_spec, push_char, push_decimal, push_str, string_of,
    string_from, utf8_len, decimal,
};

verus! {

/// The size the execution log file is kept under.
pub const EXECUTION_LOG_MAX_BYTES: usize = 1048576;

pub open spec fn token_char(c: char) -> char {
    if is_ascii_alnum_spec(c) || c == '_' || c == '-' || c == '.' {
        c
    } else {
        '_'
    }
}

/// A name safe to log bare: letters, digits, `_`, `-` and `.` stay, anything
/// else becomes `_`.
pub open spec fn token_spec(s: Seq<char>) -> Seq<char> {
    s.map_values(|c: char| token_char(c))
}

pub fn token(value: &str) -> (r: String)
    ensures
        r@ == token_spec(value@),
{
    let cs = chars_of(value);
    let mut out = String::new();
    let mut i: usize = 0;
    while i < cs.len()
        invariant
            i <= cs.len(),
            out@ == token_spec(cs@.take(i as int)),
        decreases cs.len() - i,
    {
        let c = cs[i];
        let t = if is_ascii_alnum(c) || c == '_' || c == '-' || c == '.' {
            c
        } else {
            '_'
        };
        push_char(&mut out, t);
        assert(token_spec(cs@.take(i as int)).push(t) =~= token_spec(cs@.take(i + 1)));
        i += 1;
    }
    assert(cs@.take(cs@.len() as int) =~= cs@);
    out
}

pub open spec fn quoted_char(c: char) -> Seq<char> {
    if c == '\\' {
        seq!['\\', '\\']
    } else if c == '"' {
        seq!['\\', '"']
    } else if c == '\r' || c == '\n' || c == '\t' {
        seq![' ']
    } else {
        seq![c]
    }
}

/// A value safe inside double quotes on one line: backslashes and quotes are
/// escaped, line breaks and tabs become spaces.
pub open spec fn quoted_spec(s: Seq<char>) -> Seq<char>
    decreases s.len(),
{
    if s.len() == 0 {
        Seq::empty()
    } else {
        quoted_spec(s.drop_last()) + quoted_char(s.last())
    }
}

pub fn quoted(value: &str) -> (r: String)
    ensures
        r@ == quoted_spec(value@),
{
    let cs = chars_of(value);
    let mut out = String::new();
    let mut i: usize = 0;
    while i < cs.len()
        invariant
            i <= cs.len(),
            out@ == quoted_spec(cs@.take(i as int)),
        decreases cs.len() - i,
    {
        let c = cs[i];
        let ghost before = out@;
        assert(cs@.take(i + 1).drop_last() =~= cs@.take(i as int));
        if c == '\\' {
            push_char(&mut out, '\\');
            push_char(&mut out, '\\');
        } else if c == '"' {
            push_char(&mut out, '\\');
            push_char(&mut out, '"');
        } else if c == '\r' || c == '\n' || c == '\t' {
            push_char(&mut out, ' ');
        } else {
            push_char(&mut out, c);
        }
        assert(out@ =~= before + quoted_char(c));
        i += 1;
    }
    assert(cs@.take(cs@.len() as int) =~= cs@);
    out
}

/// `s` with characters dropped from its end until it is shorter than `max`
/// bytes.
pub open spec fn shrink(s: Seq<char>, max: nat) -> Seq<char>
    decreases s.len(),
{
    if s.len() > 0 && utf8_len(s) >= max {
        shrink(s.drop_last(), max)
    } else {
        s
    }
}

/// A line kept within `max` bytes: a longer one is cut short of the limit and
/// ends with a line break.
pub open spec fn fit_line_spec(s: Seq<char>, max: nat) -> Seq<char> {
    if utf8_len(s) <= max {
        s
    } else {
        shrink(s, max).push('\n')
    }
}

pub fn fit_line(line: &str, max_bytes: usize) -> (r: String)
    requires
        max_bytes > 0,
    ensures
        r@ == fit_line_spec(line@, max_bytes as nat),
{
    let cs = chars_of(line);
    let total = line.as_bytes().len();
    proof {
        crate::text::lemma_encode_len(line@);
    }
    if total <= max_bytes {
        return string_of(cs.as_slice());
    }
    let mut k = cs.len();
    let mut bytes = total;
    proof {
        assert(cs@.take(k as int) =~= cs@);
    }
    while k > 0 && bytes >= max_bytes
        invariant
            k <= cs@.len(),
            bytes == utf8_len(cs@.take(k as int)),
            shrink(cs@, max_bytes as nat) == shrink(cs@.take(k as int), max_bytes as nat),
        decreases k,
    {
        proof {
            crate::text::lemma_utf8_len_take_step(cs@, k - 1);
            assert(cs@.take(k as int).drop_last() =~= cs@.take(k - 1));
        }
        bytes = bytes - crate::text::char_utf8_width(cs[k - 1]);
        k -= 1;
    }
    let kept = crate::text::slice_to_vec(cs.as_slice(), 0, k);
    let mut out = string_of(kept.as_slice());
    push_char(&mut out, '\n');
    out
}

/// Whether a line of `line_len` bytes would push a log of `used` bytes past
/// `max_bytes`, so that the file starts over first.
pub fn needs_reset(used: usize, line_len: usize, max_bytes: usize) -> (r: bool)
    ensures
        r == (used + line_len > max_bytes),
{
    used > max_bytes || line_len > max_bytes - used
}

/// The bytes a log file holds after a fitted line of `line_len` bytes is
/// written to it while it holds `used`: the file is emptied first when the line
/// would take it past `max`.
pub open spec fn log_used_after(used: nat, line_len: nat, max: nat) -> nat {
    if used + line_len > max {
        line_len
    } else {
        used + line_len
    }
}

/// The bytes a log file that held `used` holds when the writer starts: a file
/// already past `max` is emptied.
pub open spec fn log_used_at_start(used: nat, max: nat) -> nat {
    if used > max {
        0
    } else {
        used
    }
}

/// The bytes a log file holds after `lines` are written, one after another,
/// each fitted to `max`.
pub open spec fn log_used_after_lines(used: nat, lines: Seq<Seq<char>>, max: nat) -> nat
    decreases lines.len(),
{
    if lines.len() == 0 {
        used
    } else {
        log_used_after(
            log_used_after_lines(used, lines.drop_last(), max),
            utf8_len(fit_line_spec(lines.last(), max)),
            max,
        )
    }
}

/// Writing one line to a log file that holds `used` bytes: the line fitted to
/// `max_bytes`, whether the file is emptied first, and the bytes it holds
/// afterwards (`log_used_after`).
pub fn log_write_step(used: usize, line: &str, max_bytes: usize) -> (r: (String, bool, usize))
    requires
        max_bytes > 0,
    ensures
        r.0@ == fit_line_spec(line@, max_bytes as nat),
        r.1 == (used + utf8_len(r.0@) > max_bytes),
        r.2 == log_used_after(used as nat, utf8_len(r.0@), max_bytes as nat),
{
    let fitted = fit_line(line, max_bytes);
    let len = fitted.as_str().as_bytes().len();
    proof {
        crate::text::lemma_encode_len(fitted@);
        law_fitted_line_within_limit(line@, max_bytes as nat);
    }
    let reset = needs_reset(used, len, max_bytes);
    let after = if reset {
        len
    } else {
        used + len
    };
    (fitted, reset, after)
}

/// A log file never grows past its budget: whatever it held when the writer
/// started, after any run of lines it holds at most `max` bytes.
pub proof fn law_execution_log_stays_within_budget(used: nat, lines: Seq<Seq<char>>, max: nat)
    requires
        max >= 1,
    ensures
        log_used_after_lines(log_used_at_start(used, max), lines, max) <= max,
    decreases lines.len(),
{
    if lines.len() > 0 {
        law_execution_log_stays_within_budget(used, lines.drop_last(), max);
        law_fitted_line_within_limit(lines.last(), max);
    }
}

/// The log line of an event at `ts_ms` with `fields`: the event name as a
/// token, each key as a token and each value quoted.
pub open spec fn event_fields_spec(fields: Seq<(Seq<char>, Seq<char>)>) -> Seq<char>
    decreases fields.len(),
{
    if fields.len() == 0 {
        Seq::empty()
    } else {
        let (k, v) = fields.last();
        event_fields_spec(fields.drop_last()) + seq![' '] + token_spec(k) + "=\""@ + quoted_spec(v)
            + seq!['"']
    }
}

pub open spec fn event_line_spec(ts_ms: u64, event: Seq<char>, fields: Seq<(Seq<char>, Seq<char>)>) -> Seq<char> {
    "ts_ms="@ + decimal(ts_ms as nat) + " event="@ + token_spec(event) + event_fields_spec(fields)
        + seq!['\n']
}

pub open spec fn field_views(v: Seq<(&str, &str)>) -> Seq<(Seq<char>, Seq<char>)> {
    v.map_values(|f: (&str, &str)| (f.0@, f.1@))
}

pub fn event_line(ts_ms: u64, event: &str, fields: &[(&str, &str)]) -> (r: String)
    ensures
        r@ == event_line_spec(ts_ms, event@, field_views(fields@)),
{
    let mut line = string_from("ts_ms=");
    push_decimal(&mut line, ts_ms);
    push_str(&mut line, " event=");
    let name = token(event);
    push_str(&mut line, name.as_str());
    let ghost head = line@;
    let mut i: usize = 0;
    while i < fields.len()
        invariant
            i <= fields.len(),
            line@ == head + event_fields_spec(field_views(fields@).take(i as int)),
        decreases fields.len() - i,
    {
        let (key, value) = fields[i];
        let ghost before = line@;
        push_char(&mut line, ' ');
        let k = token(key);
        push_str(&mut line, k.as_str());
        push_str(&mut line, "=\"");
        let v = quoted(value);
        push_str(&mut line, v.as_str());
        push_char(&mut line, '"');
        assert(field_views(fields@).take(i + 1).drop_last() =~= field_views(fields@).take(i as int));
        assert(line@ =~= head + event_fields_spec(field_views(fields@).take(i + 1)));
        i += 1;
    }
    assert(field_views(fields@).take(fields@.len() as int) =~= field_views(fields@));
    push_char(&mut line, '\n');
    line
}

/// The name under which a queued stream action is logged.
pub fn stream_intent_label(pending: Option<StreamAction>) -> (r: &'static str)
    ensures
        r@ == (match pending {
            Some(StreamAction::Start) => "Start"@,
            Some(StreamAction::Stop) => "Stop"@,
            None => "None"@,
        }),
{
    match pending {
        Some(StreamAction::Start) => "Start",
        Some(StreamAction::Stop) => "Stop",
        None => "None",
    }
}


proof fn lemma_shrink(s: Seq<char>, max: nat)
    requires
        max >= 1,
    ensures
        utf8_len(shrink(s, max)) < max,
    decreases s.len(),
{
    if s.len() > 0 && utf8_len(s) >= max {
        lemma_shrink(s.drop_last(), max);
    } else if s.len() == 0 {
        assert(utf8_len(s) == 0);
    }
}

/// A fitted line never exceeds the limit, and a cut one still ends the line.
pub proof fn law_fitted_line_within_limit(s: Seq<char>, max: nat)
    requires
        max >= 1,
    ensures
        utf8_len(fit_line_spec(s, max)) <= max,
        utf8_len(s) > max ==> fit_line_spec(s, max).last() == '\n',
{
    if utf8_len(s) > max {
        lemma_shrink(s, max);
        let t = shrink(s, max);
        assert(t.push('\n').drop_last() =~= t);
        assert(crate::text::utf8_width('\n') == 1);
    }
}

/// A logged value stays inside its quotes on one line: no line break or tab
/// is left in it.
pub proof fn law_quoted_stays_on_one_line(s: Seq<char>)
    ensures
        forall|i: int|
            0 <= i < quoted_spec(s).len() ==> #[trigger] quoted_spec(s)[i] != '\n' && quoted_spec(
                s,
            )[i] != '\r' && quoted_spec(s)[i] != '\t',
    decreases s.len(),
{
    if s.len() > 0 {
        law_quoted_stays_on_one_line(s.drop_last());
        let a = quoted_spec(s.drop_last());
        let b = quoted_char(s.last());
        assert forall|i: int| 0 <= i < quoted_spec(s).len() implies #[trigger] quoted_spec(s)[i]
            != '\n' && quoted_spec(s)[i] != '\r' && quoted_spec(s)[i] != '\t' by {
            if i < a.len() {
                assert(quoted_spec(s)[i] == a[i]);
            } else {
                assert(quoted_spec(s)[i] == b[i - a.len()]);
            }
        }
    }
}

/// An event name or key never holds a space, a quote or `=`.
pub proof fn law_token_is_bare(s: Seq<char>)
    ensures
        forall|i: int|
            0 <= i < token_spec(s).len() ==> #[trigger] token_spec(s)[i] != ' ' && token_spec(s)[i]
                != '"' && token_spec(s)[i] != '=',
{
}

} // verus!

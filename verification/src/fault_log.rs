use vstd::prelude::*;

use crate::decode::{lossy_utf8, utf8_lossy};
use crate::text::{
    chars_eq_str, chars_of, contains_seq, contains_str, decimal, join_sep, join_with, lines_seq,
    lower_seq, push_decimal, push_str, slice_to_vec, split_lines, string_from,
    string_of, to_ascii_lowercase, trim, trim_end_index, trim_seq, views, is_ws,
};

verus! {

/// How a fault log query ended.
#[derive(Clone, Copy, Debug, PartialEq, Eq, Structural)]
pub enum DeviceFaultLogStatus {
    Ready,
    Empty,
    Unavailable,
    Unauthorized,
    Error,
}

/// One raw fault record.
#[derive(Debug)]
pub struct DeviceFaultLogRawEntry {
    pub id: String,
    pub raw: String,
}

pub struct EntryView {
    pub id: Seq<char>,
    pub raw: Seq<char>,
}

impl View for DeviceFaultLogRawEntry {
    type V = EntryView;

    open spec fn view(&self) -> EntryView {
        EntryView { id: self.id@, raw: self.raw@ }
    }
}

pub open spec fn entry_views(v: Seq<DeviceFaultLogRawEntry>) -> Seq<EntryView> {
    v.map_values(|e: DeviceFaultLogRawEntry| e@)
}

impl DeviceFaultLogRawEntry {
    pub fn duplicate(&self) -> (r: DeviceFaultLogRawEntry)
        ensures
            r@ == self@,
    {
        DeviceFaultLogRawEntry { id: self.id.clone(), raw: self.raw.clone() }
    }
}

/// The fault logs of one device, or why there are none.
#[derive(Debug)]
pub struct DeviceFaultLogFetchResult {
    pub device_id: String,
    pub entries: Vec<DeviceFaultLogRawEntry>,
    pub command: String,
    pub stderr: String,
    pub status: DeviceFaultLogStatus,
    pub message: String,
}

/// Where a fault log export went and how much it wrote.
#[derive(Debug)]
pub struct DeviceFaultLogExportResult {
    pub path: String,
    pub entry_count: u64,
    pub bytes_written: u64,
}

/// Writes fault log entries to a text file.
pub struct DeviceFaultLogExporter;

/// `s` with every `\r` that stands right before a `\n` removed, looking at the
/// first `n` characters (`str::replace("\r\n", "\n")`).
pub open spec fn crlf_prefix(s: Seq<char>, n: int) -> Seq<char>
    decreases n,
{
    if n <= 0 {
        Seq::empty()
    } else {
        let before = crlf_prefix(s, n - 1);
        if s[n - 1] == '\r' && n < s.len() && s[n] == '\n' {
            before
        } else {
            before.push(s[n - 1])
        }
    }
}

pub open spec fn crlf_to_lf(s: Seq<char>) -> Seq<char> {
    crlf_prefix(s, s.len() as int)
}

/// `str::replace("\r\n", "\n")`.
pub fn normalize_line_endings(s: &str) -> (r: String)
    ensures
        r@ == crlf_to_lf(s@),
{
    let v = chars_of(s);
    let mut out: Vec<char> = Vec::new();
    let mut i: usize = 0;
    while i < v.len()
        invariant
            i <= v.len(),
            out@ == crlf_prefix(v@, i as int),
        decreases v.len() - i,
    {
        if !(v[i] == '\r' && i + 1 < v.len() && v[i + 1] == '\n') {
            out.push(v[i]);
        }
        i += 1;
    }
    string_of(&out)
}

/// Whether a line separates fault records: after trimming, only `*`s.
pub open spec fn is_delimiter(line: Seq<char>) -> bool {
    let t = trim_seq(line);
    t.len() > 0 && forall|k: int| 0 <= k < t.len() ==> t[k] == '*'
}

fn is_delimiter_exec(line: &[char]) -> (r: bool)
    ensures
        r == is_delimiter(line@),
{
    let t = trim(line);
    if t.len() == 0 {
        return false;
    }
    let mut k: usize = 0;
    while k < t.len()
        invariant
            k <= t.len(),
            t@ == trim_seq(line@),
            forall|j: int| 0 <= j < k ==> t@[j] == '*',
        decreases t.len() - k,
    {
        if t[k] != '*' {
            assert(trim_seq(line@)[k as int] != '*');
            assert(!is_delimiter(line@));
            return false;
        }
        k += 1;
    }
    true
}

/// Splitting lines at delimiter lines: finished blocks, the current block, and
/// whether a delimiter was seen (lines before the first delimiter are a preamble).
pub open spec fn delimited_state(ls: Seq<Seq<char>>) -> (Seq<Seq<Seq<char>>>, Seq<Seq<char>>, bool)
    decreases ls.len(),
{
    if ls.len() == 0 {
        (Seq::empty(), Seq::empty(), false)
    } else {
        let (blocks, cur, started) = delimited_state(ls.drop_last());
        let line = ls.last();
        if is_delimiter(line) {
            if started {
                (blocks.push(cur), Seq::empty(), true)
            } else {
                (blocks, Seq::empty(), true)
            }
        } else if started {
            (blocks, cur.push(line), true)
        } else {
            (blocks, cur, false)
        }
    }
}

/// The blocks of lines between delimiter lines.
pub open spec fn delimited_blocks(ls: Seq<Seq<char>>) -> Seq<Seq<Seq<char>>> {
    let (blocks, cur, started) = delimited_state(ls);
    if started {
        blocks.push(cur)
    } else {
        blocks
    }
}

/// Position of the first `c` in `s`, or the length of `s`.
pub open spec fn index_of(s: Seq<char>, c: char) -> int
    decreases s.len(),
{
    if s.len() == 0 {
        0
    } else if s[0] == c {
        0
    } else {
        1 + index_of(s.drop_first(), c)
    }
}

/// Whether a trimmed line starts a fault record: the text before its first `:`,
/// trimmed, names a record field.
pub open spec fn looks_like_entry_start(line: Seq<char>) -> bool {
    let head = trim_seq(line.take(index_of(line, ':')));
    head == "Timestamp"@ || head == "Reason"@ || head == "Process"@ || head == "PID"@ || head
        == "Summary"@ || head == "FaultType"@
}

proof fn lemma_index_of(s: Seq<char>, c: char)
    ensures
        0 <= index_of(s, c) <= s.len(),
        forall|k: int| 0 <= k < index_of(s, c) ==> s[k] != c,
        index_of(s, c) < s.len() ==> s[index_of(s, c)] == c,
    decreases s.len(),
{
    if s.len() > 0 && s[0] != c {
        lemma_index_of(s.drop_first(), c);
        assert forall|k: int| 0 <= k < index_of(s, c) implies s[k] != c by {
            if k > 0 {
                assert(s[k] == s.drop_first()[k - 1]);
            }
        }
    }
}

proof fn lemma_index_of_unique(s: Seq<char>, c: char, i: int)
    requires
        0 <= i <= s.len(),
        forall|k: int| 0 <= k < i ==> s[k] != c,
        i < s.len() ==> s[i] == c,
    ensures
        index_of(s, c) == i,
{
    lemma_index_of(s, c);
    let t = index_of(s, c);
    if t < i {
        assert(s[t] != c);
    } else if i < t {
        assert(s[i] != c);
    }
}

pub fn looks_like_entry_start_exec(line: &[char]) -> (r: bool)
    ensures
        r == looks_like_entry_start(line@),
{
    let mut i: usize = 0;
    while i < line.len() && line[i] != ':'
        invariant
            i <= line.len(),
            forall|k: int| 0 <= k < i ==> line@[k] != ':',
        decreases line.len() - i,
    {
        i += 1;
    }
    proof {
        lemma_index_of_unique(line@, ':', i as int);
    }
    let head_raw = slice_to_vec(line, 0, i);
    assert(head_raw@ =~= line@.take(i as int));
    let head = trim(&head_raw);
    chars_eq_str(&head, "Timestamp") || chars_eq_str(&head, "Reason") || chars_eq_str(
        &head,
        "Process",
    ) || chars_eq_str(&head, "PID") || chars_eq_str(&head, "Summary") || chars_eq_str(
        &head,
        "FaultType",
    )
}

proof fn lemma_field_line_head(key: Seq<char>, rest: Seq<char>)
    requires
        key.len() > 0,
        !is_ws(key[0]),
        !is_ws(key.last()),
        forall|k: int| 0 <= k < key.len() ==> key[k] != ':',
    ensures
        ({
            let t = trim_seq(key + ":"@ + rest);
            trim_seq(t.take(index_of(t, ':'))) == key
        }),
{
    reveal_strlit(":");
    let line = key + ":"@ + rest;
    let m = key.len() as int;
    assert(line[0] == key[0]);
    assert(line[m] == ':');
    assert(!is_ws(':'));
    crate::text::lemma_trim_start_unique(line, 0);
    crate::text::lemma_trim_end_props(line);
    let b = trim_end_index(line);
    assert(b > m) by {
        if b <= m {
            assert(is_ws(line[m]));
        }
    }
    let t = trim_seq(line);
    assert(t =~= line.subrange(0, b));
    assert forall|k: int| 0 <= k < m implies t[k] != ':' by {
        assert(t[k] == key[k]);
    }
    lemma_index_of_unique(t, ':', m);
    assert(t.take(m) =~= key);
    crate::text::lemma_trim_start_unique(key, 0);
    crate::text::lemma_trim_end_unique(key, m);
    assert(key.subrange(0, m) =~= key);
}

/// A line `KEY: rest` starts a fault record exactly when `KEY` is one of the
/// record fields Timestamp, Reason, Process, PID, Summary or FaultType,
/// whatever follows the colon (for a key of visible characters without a
/// colon).
pub proof fn law_entry_starts_are_record_fields(key: Seq<char>, rest: Seq<char>)
    requires
        key.len() > 0,
        !is_ws(key[0]),
        !is_ws(key.last()),
        forall|k: int| 0 <= k < key.len() ==> key[k] != ':',
    ensures
        looks_like_entry_start(trim_seq(key + ":"@ + rest)) == (key == "Timestamp"@ || key == "Reason"@ || key == "Process"@ || key == "PID"@ || key
            == "Summary"@ || key == "FaultType"@),
{
    lemma_field_line_head(key, rest);
}

/// With no `*` delimiter lines, a blank line ends the record before it when the
/// next line begins with a record field: the lines gathered so far become an
/// entry of their own and a new one starts.
pub proof fn law_blank_line_before_a_record_field_splits(
    ls: Seq<Seq<char>>,
    n: int,
    key: Seq<char>,
    rest: Seq<char>,
)
    requires
        1 <= n < ls.len(),
        trim_seq(ls[n - 1]).len() == 0,
        blank_state(ls, n - 1).1.len() > 0,
        ls[n] == key + ":"@ + rest,
        (key == "Timestamp"@ || key == "Reason"@ || key == "Process"@ || key == "PID"@ || key
            == "Summary"@ || key == "FaultType"@),
    ensures
        blank_state(ls, n) == (blank_state(ls, n - 1).0.push(blank_state(ls, n - 1).1), Seq::<
            Seq<char>,
        >::empty()),
{
    reveal_strlit("Timestamp");
    reveal_strlit("Reason");
    reveal_strlit("Process");
    reveal_strlit("PID");
    reveal_strlit("Summary");
    reveal_strlit("FaultType");
    assert(!is_ws(key[0]) && !is_ws(key.last()));
    assert(forall|k: int| 0 <= k < key.len() ==> key[k] != ':');
    law_entry_starts_are_record_fields(key, rest);
    assert(splits_here(ls, n, blank_state(ls, n - 1).1));
}

/// Whether a blank line at position `n - 1` closes the current block: the block
/// is not empty and the next line starts a record.
pub open spec fn splits_here(ls: Seq<Seq<char>>, n: int, cur: Seq<Seq<char>>) -> bool {
    cur.len() > 0 && n < ls.len() && looks_like_entry_start(trim_seq(ls[n]))
}

/// Splitting lines at blank lines that precede a record start, after the first `n` lines.
pub open spec fn blank_state(ls: Seq<Seq<char>>, n: int) -> (Seq<Seq<Seq<char>>>, Seq<Seq<char>>)
    decreases n,
{
    if n <= 0 {
        (Seq::empty(), Seq::empty())
    } else {
        let (blocks, cur) = blank_state(ls, n - 1);
        let line = ls[n - 1];
        if trim_seq(line).len() == 0 && splits_here(ls, n, cur) {
            (blocks.push(cur), Seq::empty())
        } else {
            (blocks, cur.push(line))
        }
    }
}

pub open spec fn blank_blocks(ls: Seq<Seq<char>>) -> Seq<Seq<Seq<char>>> {
    let (blocks, cur) = blank_state(ls, ls.len() as int);
    blocks.push(cur)
}

/// The non-empty trimmed texts of `blocks`, each block's lines joined with `\n`.
pub open spec fn block_raws(blocks: Seq<Seq<Seq<char>>>) -> Seq<Seq<char>>
    decreases blocks.len(),
{
    if blocks.len() == 0 {
        Seq::empty()
    } else {
        let before = block_raws(blocks.drop_last());
        let raw = trim_seq(join_sep(blocks.last(), '\n'));
        if raw.len() > 0 {
            before.push(raw)
        } else {
            before
        }
    }
}

/// The id of the `k`-th (from 1) fault record of a device.
pub open spec fn fault_entry_id(device_id: Seq<char>, k: nat) -> Seq<char> {
    device_id + "-fault-"@ + decimal(k)
}

/// The records that `raws` become, numbered from 1.
pub open spec fn numbered_entries(device_id: Seq<char>, raws: Seq<Seq<char>>) -> Seq<EntryView> {
    Seq::new(
        raws.len(),
        |i: int| EntryView { id: fault_entry_id(device_id, (i + 1) as nat), raw: raws[i] },
    )
}

/// Whether some line is a delimiter line.
pub open spec fn has_delimiter(ls: Seq<Seq<char>>) -> bool {
    exists|i: int| 0 <= i < ls.len() && is_delimiter(#[trigger] ls[i])
}

/// The fault records in a fault log listing: the blocks between delimiter lines
/// when there are delimiter lines, and otherwise the blocks that blank lines
/// before a record start separate; each block trimmed, empty ones dropped.
pub open spec fn split_entries_spec(device_id: Seq<char>, output: Seq<char>) -> Seq<EntryView> {
    let ls = lines_seq(output);
    let blocks = if has_delimiter(ls) {
        delimited_blocks(ls)
    } else {
        blank_blocks(ls)
    };
    numbered_entries(device_id, block_raws(blocks))
}

fn copy_lines(v: &Vec<Vec<char>>) -> (r: Vec<Vec<char>>)
    ensures
        views(r@) == views(v@),
{
    let mut out: Vec<Vec<char>> = Vec::new();
    let mut i: usize = 0;
    while i < v.len()
        invariant
            i <= v.len(),
            views(out@) =~= views(v@).take(i as int),
        decreases v.len() - i,
    {
        let piece = slice_to_vec(&v[i], 0, v[i].len());
        assert(piece@ =~= v@[i as int]@);
        let ghost before = views(out@);
        out.push(piece);
        assert(views(out@) =~= before.push(v@[i as int]@));
        assert(views(v@).take(i + 1) =~= views(v@).take(i as int).push(v@[i as int]@));
        i += 1;
    }
    assert(views(v@).take(v.len() as int) =~= views(v@));
    out
}

fn delimited_blocks_exec(lines: &Vec<Vec<char>>) -> (r: Vec<Vec<Vec<char>>>)
    ensures
        r@.map_values(|b: Vec<Vec<char>>| views(b@)) == delimited_blocks(views(lines@)),
{
    let ghost ls = views(lines@);
    let mut blocks: Vec<Vec<Vec<char>>> = Vec::new();
    let mut cur: Vec<Vec<char>> = Vec::new();
    let mut started = false;
    let mut i: usize = 0;
    while i < lines.len()
        invariant
            i <= lines.len(),
            ls == views(lines@),
            (blocks@.map_values(|b: Vec<Vec<char>>| views(b@)), views(cur@), started)
                == delimited_state(ls.take(i as int)),
        decreases lines.len() - i,
    {
        assert(ls.take(i + 1).drop_last() =~= ls.take(i as int));
        assert(ls.take(i + 1).last() == lines@[i as int]@);
        let ghost bv = blocks@.map_values(|b: Vec<Vec<char>>| views(b@));
        if is_delimiter_exec(&lines[i]) {
            if started {
                let done = copy_lines(&cur);
                blocks.push(done);
                assert(blocks@.map_values(|b: Vec<Vec<char>>| views(b@)) =~= bv.push(views(cur@)));
            }
            cur = Vec::new();
            assert(views(cur@) =~= Seq::<Seq<char>>::empty());
            started = true;
        } else if started {
            let ghost cv = views(cur@);
            let piece = slice_to_vec(&lines[i], 0, lines[i].len());
            assert(piece@ =~= lines@[i as int]@);
            cur.push(piece);
            assert(views(cur@) =~= cv.push(lines@[i as int]@));
        }
        i += 1;
    }
    assert(ls.take(lines.len() as int) =~= ls);
    if started {
        let ghost bv = blocks@.map_values(|b: Vec<Vec<char>>| views(b@));
        blocks.push(cur);
        assert(blocks@.map_values(|b: Vec<Vec<char>>| views(b@)) =~= bv.push(views(cur@)));
    }
    blocks
}

fn blank_blocks_exec(lines: &Vec<Vec<char>>) -> (r: Vec<Vec<Vec<char>>>)
    ensures
        r@.map_values(|b: Vec<Vec<char>>| views(b@)) == blank_blocks(views(lines@)),
{
    let ghost ls = views(lines@);
    let mut blocks: Vec<Vec<Vec<char>>> = Vec::new();
    let mut cur: Vec<Vec<char>> = Vec::new();
    let mut i: usize = 0;
    while i < lines.len()
        invariant
            i <= lines.len(),
            ls == views(lines@),
            (blocks@.map_values(|b: Vec<Vec<char>>| views(b@)), views(cur@)) == blank_state(
                ls,
                i as int,
            ),
        decreases lines.len() - i,
    {
        let ghost bv = blocks@.map_values(|b: Vec<Vec<char>>| views(b@));
        let ghost cv = views(cur@);
        assert(ls[i as int] == lines@[i as int]@);
        let blank = trim(&lines[i]).len() == 0;
        let mut split = false;
        if blank && cur.len() > 0 && i + 1 < lines.len() {
            let next = trim(&lines[i + 1]);
            assert(ls[i + 1] == lines@[i + 1]@);
            split = looks_like_entry_start_exec(&next);
        }
        assert(split == (trim_seq(ls[i as int]).len() == 0 && splits_here(ls, i + 1, cv)));
        if split {
            let done = cur;
            cur = Vec::new();
            blocks.push(done);
            assert(blocks@.map_values(|b: Vec<Vec<char>>| views(b@)) =~= bv.push(cv));
            assert(views(cur@) =~= Seq::<Seq<char>>::empty());
        } else {
            let piece = slice_to_vec(&lines[i], 0, lines[i].len());
            assert(piece@ =~= lines@[i as int]@);
            cur.push(piece);
            assert(views(cur@) =~= cv.push(lines@[i as int]@));
        }
        i += 1;
    }
    let ghost bv = blocks@.map_values(|b: Vec<Vec<char>>| views(b@));
    blocks.push(cur);
    assert(blocks@.map_values(|b: Vec<Vec<char>>| views(b@)) =~= bv.push(views(cur@)));
    blocks
}

/// `split_entries_spec`, computed.
pub fn split_entries(device_id: &str, output: &str) -> (r: Vec<DeviceFaultLogRawEntry>)
    ensures
        entry_views(r@) == split_entries_spec(device_id@, output@),
{
    let text = chars_of(output);
    let lines = split_lines(&text);
    let ghost ls = views(lines@);
    let mut found = false;
    let mut i: usize = 0;
    while i < lines.len()
        invariant
            i <= lines.len(),
            ls == views(lines@),
            found <==> exists|k: int| 0 <= k < i && is_delimiter(#[trigger] ls[k]),
        decreases lines.len() - i,
    {
        assert(ls[i as int] == lines@[i as int]@);
        if is_delimiter_exec(&lines[i]) {
            found = true;
        }
        i += 1;
    }
    let blocks = if found {
        delimited_blocks_exec(&lines)
    } else {
        blank_blocks_exec(&lines)
    };
    let ghost bs = blocks@.map_values(|b: Vec<Vec<char>>| views(b@));
    let mut entries: Vec<DeviceFaultLogRawEntry> = Vec::new();
    let mut count: u64 = 0;
    let mut j: usize = 0;
    while j < blocks.len()
        invariant
            j <= blocks.len(),
            bs == blocks@.map_values(|b: Vec<Vec<char>>| views(b@)),
            count == entries@.len(),
            count <= j,
            entry_views(entries@) =~= numbered_entries(device_id@, block_raws(bs.take(j as int))),
        decreases blocks.len() - j,
    {
        assert(bs.take(j + 1).drop_last() =~= bs.take(j as int));
        assert(bs[j as int] == views(blocks@[j as int]@));
        let joined = join_with(&blocks[j], 0, '\n');
        assert(views(blocks@[j as int]@).subrange(0, blocks@[j as int]@.len() as int) =~= views(
            blocks@[j as int]@,
        ));
        let raw = trim(&joined);
        if raw.len() > 0 {
            count = count + 1;
            let mut id = string_from(device_id);
            push_str(&mut id, "-fault-");
            push_decimal(&mut id, count);
            let ghost before = entry_views(entries@);
            let ghost raws_old = block_raws(bs.take(j as int));
            assert(block_raws(bs.take(j + 1)) == raws_old.push(raw@));
            let entry = DeviceFaultLogRawEntry { id, raw: string_of(&raw) };
            assert(entry@ == EntryView { id: fault_entry_id(device_id@, count as nat), raw: raw@ });
            entries.push(entry);
            assert(entry_views(entries@) =~= before.push(entry@));
            assert(numbered_entries(device_id@, raws_old.push(raw@)) =~= numbered_entries(
                device_id@,
                raws_old,
            ).push(entry@));
            assert(entry_views(entries@) =~= numbered_entries(
                device_id@,
                block_raws(bs.take(j + 1)),
            ));
        }
        j += 1;
    }
    assert(bs.take(blocks.len() as int) =~= bs);
    entries
}

/// The first line of `ls` that is not blank, trimmed.
pub open spec fn first_nonblank(ls: Seq<Seq<char>>) -> Option<Seq<char>>
    decreases ls.len(),
{
    if ls.len() == 0 {
        None
    } else if trim_seq(ls[0]).len() > 0 {
        Some(trim_seq(ls[0]))
    } else {
        first_nonblank(ls.drop_first())
    }
}

/// The first non-blank line of `text`, trimmed, or `fallback`.
pub open spec fn first_message_spec(text: Seq<char>, fallback: Seq<char>) -> Seq<char> {
    match first_nonblank(lines_seq(text)) {
        Some(line) => line,
        None => fallback,
    }
}

/// `first_message_spec`, computed.
pub fn first_message(text: &str, fallback: &str) -> (r: String)
    ensures
        r@ == first_message_spec(text@, fallback@),
{
    let chars = chars_of(text);
    let lines = split_lines(&chars);
    let ghost ls = views(lines@);
    assert(ls.skip(0) =~= ls);
    let mut i: usize = 0;
    while i < lines.len()
        invariant
            i <= lines.len(),
            ls == views(lines@),
            ls == lines_seq(text@),
            first_nonblank(ls) == first_nonblank(ls.skip(i as int)),
        decreases lines.len() - i,
    {
        let line = trim(&lines[i]);
        assert(ls.skip(i as int)[0] == lines@[i as int]@);
        if line.len() > 0 {
            assert(ls.skip(i as int).len() > 0);
            return string_of(&line);
        }
        assert(ls.skip(i as int).drop_first() =~= ls.skip(i + 1));
        i += 1;
    }
    assert(ls.skip(i as int).len() == 0);
    string_from(fallback)
}

/// The fault log result for the normalized outputs `stdout` and `stderr`:
/// status, message and whether the records are kept.
pub open spec fn fault_status_spec(
    device_id: Seq<char>,
    stdout: Seq<char>,
    stderr: Seq<char>,
    success: bool,
) -> (DeviceFaultLogStatus, Seq<char>) {
    let combined = stdout + "\n"@ + stderr;
    let lower = lower_seq(combined);
    if contains_seq(combined, "Connect server failed"@) || contains_seq(
        lower,
        "service is not ready"@,
    ) {
        (
            DeviceFaultLogStatus::Unavailable,
            first_message_spec(combined, "Device fault logs unavailable"@),
        )
    } else if contains_seq(lower, "unauthorized"@) || contains_seq(lower, "permission denied"@)
        || contains_seq(lower, "authentication failed"@) || contains_seq(
        lower,
        "not permitted"@,
    ) {
        (
            DeviceFaultLogStatus::Unauthorized,
            first_message_spec(combined, "Device authorization required"@),
        )
    } else if !success {
        (DeviceFaultLogStatus::Error, first_message_spec(stderr, "Fault log command failed"@))
    } else if split_entries_spec(device_id, stdout).len() == 0 {
        (DeviceFaultLogStatus::Empty, "No fault logs found"@)
    } else {
        (DeviceFaultLogStatus::Ready, "ok"@)
    }
}

pub struct FetchView {
    pub device_id: Seq<char>,
    pub entries: Seq<EntryView>,
    pub command: Seq<char>,
    pub stderr: Seq<char>,
    pub status: DeviceFaultLogStatus,
    pub message: Seq<char>,
}

impl View for DeviceFaultLogFetchResult {
    type V = FetchView;

    open spec fn view(&self) -> FetchView {
        FetchView {
            device_id: self.device_id@,
            entries: entry_views(self.entries@),
            command: self.command@,
            stderr: self.stderr@,
            status: self.status,
            message: self.message@,
        }
    }
}

/// The fault log result for decoded outputs: line endings normalized, the status
/// and message of `fault_status_spec`, and the records only when the status is
/// `Ready`.
pub open spec fn fault_result_spec(
    device_id: Seq<char>,
    command: Seq<char>,
    stdout: Seq<char>,
    stderr: Seq<char>,
    success: bool,
) -> FetchView {
    let out = crlf_to_lf(stdout);
    let err = crlf_to_lf(stderr);
    let (status, message) = fault_status_spec(device_id, out, err, success);
    FetchView {
        device_id,
        entries: if status == DeviceFaultLogStatus::Ready {
            split_entries_spec(device_id, out)
        } else {
            Seq::empty()
        },
        command,
        stderr: err,
        status,
        message,
    }
}

/// Classifies the decoded output of a fault log query (`fault_result_spec`).
pub fn fault_log_result(
    device_id: &str,
    command: String,
    stdout: &str,
    stderr: &str,
    success: bool,
) -> (r: DeviceFaultLogFetchResult)
    ensures
        r@ == fault_result_spec(device_id@, command@, stdout@, stderr@, success),
{
    let out = normalize_line_endings(stdout);
    let err = normalize_line_endings(stderr);
    let mut combined = out.clone();
    push_str(&mut combined, "\n");
    push_str(&mut combined, err.as_str());
    let combined_chars = chars_of(combined.as_str());
    let lower = to_ascii_lowercase(&combined_chars);
    let entries = split_entries(device_id, out.as_str());
    let (status, message) = if contains_str(&combined_chars, "Connect server failed")
        || contains_str(&lower, "service is not ready") {
        (
            DeviceFaultLogStatus::Unavailable,
            first_message(combined.as_str(), "Device fault logs unavailable"),
        )
    } else if contains_str(&lower, "unauthorized") || contains_str(&lower, "permission denied")
        || contains_str(&lower, "authentication failed") || contains_str(&lower, "not permitted") {
        (
            DeviceFaultLogStatus::Unauthorized,
            first_message(combined.as_str(), "Device authorization required"),
        )
    } else if !success {
        (DeviceFaultLogStatus::Error, first_message(err.as_str(), "Fault log command failed"))
    } else if entries.len() == 0 {
        (DeviceFaultLogStatus::Empty, string_from("No fault logs found"))
    } else {
        (DeviceFaultLogStatus::Ready, string_from("ok"))
    };
    let kept = match status {
        DeviceFaultLogStatus::Ready => entries,
        _ => {
            let none: Vec<DeviceFaultLogRawEntry> = Vec::new();
            assert(entry_views(none@) =~= Seq::<EntryView>::empty());
            none
        },
    };
    DeviceFaultLogFetchResult {
        device_id: string_from(device_id),
        entries: kept,
        command,
        stderr: err,
        status,
        message,
    }
}

/// Classifies what a fault log query printed, decoding its raw bytes.
pub fn normalize_fault_log_output(
    device_id: &str,
    command: String,
    stdout: &[u8],
    stderr: &[u8],
    success: bool,
) -> (r: DeviceFaultLogFetchResult)
    ensures
        r@ == fault_result_spec(
            device_id@,
            command@,
            lossy_utf8(stdout@),
            lossy_utf8(stderr@),
            success,
        ),
{
    let out = utf8_lossy(stdout);
    let err = utf8_lossy(stderr);
    fault_log_result(device_id, command, out.as_str(), err.as_str(), success)
}

/// The text of an export: a header, then each record under its id.
pub open spec fn export_body(entries: Seq<EntryView>) -> Seq<char>
    decreases entries.len(),
{
    if entries.len() == 0 {
        Seq::empty()
    } else {
        let e = entries.last();
        let tail = if e.raw.len() > 0 && e.raw.last() == '\n' {
            Seq::empty()
        } else {
            "\n"@
        };
        export_body(entries.drop_last()) + "\n===== "@ + e.id + " =====\n"@ + e.raw + tail
    }
}

pub open spec fn export_text(device_id: Seq<char>, entries: Seq<EntryView>) -> Seq<char> {
    "ArkLog Fault Log Export\nDevice: "@ + device_id + "\nEntries: "@ + decimal(entries.len())
        + "\n"@ + export_body(entries)
}

/// One entry's part of an export: a `===== ID =====` line, then its raw text,
/// ended by a newline.
pub open spec fn export_block(e: EntryView) -> Seq<char> {
    "\n===== "@ + e.id + " =====\n"@ + e.raw + if e.raw.len() > 0 && e.raw.last() == '\n' {
        Seq::<char>::empty()
    } else {
        "\n"@
    }
}

/// The lines an export starts with, for `n` entries of `device_id`.
pub open spec fn export_header(device_id: Seq<char>, n: nat) -> Seq<char> {
    "ArkLog Fault Log Export\nDevice: "@ + device_id + "\nEntries: "@ + decimal(n) + "\n"@
}

proof fn lemma_export_prefix(es: Seq<EntryView>, j: int, k: int)
    requires
        0 <= j <= k <= es.len(),
    ensures
        export_body(es.take(j)).is_prefix_of(export_body(es.take(k))),
    decreases k - j,
{
    if j < k {
        lemma_export_prefix(es, j, k - 1);
        assert(es.take(k).drop_last() =~= es.take(k - 1));
        let a = export_body(es.take(j));
        let b = export_body(es.take(k - 1));
        let c = export_body(es.take(k));
        assert(c == b + export_block(es[k - 1]));
        assert(c.subrange(0, b.len() as int) =~= b);
        assert(c.subrange(0, a.len() as int) =~= b.subrange(0, a.len() as int));
    }
}

/// An export lists the entries in the order given, each once: the text for the
/// first `i + 1` entries is the text for the first `i` followed by entry `i`'s
/// block, and the header followed by that text begins the whole export. So
/// entry `i`'s block comes before entry `i + 1`'s.
pub proof fn law_export_lists_entries_in_order(device_id: Seq<char>, es: Seq<EntryView>, i: int)
    requires
        0 <= i < es.len(),
    ensures
        export_body(es.take(i + 1)) == export_body(es.take(i)) + export_block(es[i]),
        (export_header(device_id, es.len()) + export_body(es.take(i + 1))).is_prefix_of(
            export_text(device_id, es),
        ),
{
    assert(es.take(i + 1).drop_last() =~= es.take(i));
    assert(es.take(i + 1).last() == es[i]);
    lemma_export_prefix(es, i + 1, es.len() as int);
    assert(es.take(es.len() as int) =~= es);
    let h = export_header(device_id, es.len());
    let p = export_body(es.take(i + 1));
    let w = export_body(es);
    assert(export_text(device_id, es) =~= h + w);
    assert((h + w).subrange(0, (h + p).len() as int) =~= h + p);
}

/// The text that an export of `entries` writes.
pub fn format_export(device_id: &str, entries: &[DeviceFaultLogRawEntry]) -> (r: String)
    ensures
        r@ == export_text(device_id@, entry_views(entries@)),
{
    let ghost es = entry_views(entries@);
    let mut content = String::new();
    push_str(&mut content, "ArkLog Fault Log Export\nDevice: ");
    push_str(&mut content, device_id);
    push_str(&mut content, "\nEntries: ");
    push_decimal(&mut content, entries.len() as u64);
    push_str(&mut content, "\n");
    let ghost header = content@;
    let mut i: usize = 0;
    while i < entries.len()
        invariant
            i <= entries.len(),
            es == entry_views(entries@),
            content@ == header + export_body(es.take(i as int)),
        decreases entries.len() - i,
    {
        assert(es.take(i + 1).drop_last() =~= es.take(i as int));
        assert(es.take(i + 1).last() == entries@[i as int]@);
        push_str(&mut content, "\n===== ");
        push_str(&mut content, entries[i].id.as_str());
        push_str(&mut content, " =====\n");
        push_str(&mut content, entries[i].raw.as_str());
        let raw = chars_of(entries[i].raw.as_str());
        if !(raw.len() > 0 && raw[raw.len() - 1] == '\n') {
            push_str(&mut content, "\n");
        }
        assert(content@ =~= header + export_body(es.take(i + 1)));
        i += 1;
    }
    assert(es.take(entries.len() as int) =~= es);
    assert(content@ =~= export_text(device_id@, es));
    content
}

/// What an export writes, or why it writes nothing: there must be records.
pub fn prepare_fault_log_export(device_id: &str, entries: &[DeviceFaultLogRawEntry]) -> (r: Result<
    String,
    String,
>)
    ensures
        entries@.len() == 0 ==> r is Err && r->Err_0@ == "No fault log entries to export"@,
        entries@.len() > 0 ==> r is Ok && r->Ok_0@ == export_text(
            device_id@,
            entry_views(entries@),
        ),
{
    if entries.len() == 0 {
        return Err(string_from("No fault log entries to export"));
    }
    Ok(format_export(device_id, entries))
}


/// A device id made safe for a file name: characters other than letters,
/// digits, `.`, `-` and `_` become `_`; an empty id becomes `device`.
pub open spec fn safe_filename_part_spec(value: Seq<char>) -> Seq<char> {
    if value.len() == 0 {
        "device"@
    } else {
        crate::execution_log::token_spec(value)
    }
}

pub fn safe_filename_part(value: &str) -> (r: String)
    ensures
        r@ == safe_filename_part_spec(value@),
{
    let sanitized = crate::execution_log::token(value);
    if value.is_empty() {
        string_from("device")
    } else {
        sanitized
    }
}

/// The file name offered when exporting the fault logs of `device_id`.
pub fn export_file_name(device_id: &str) -> (r: String)
    ensures
        r@ == "arklog-"@ + safe_filename_part_spec(device_id@) + "-faults.txt"@,
{
    let mut name = string_from("arklog-");
    let part = safe_filename_part(device_id);
    crate::text::push_str(&mut name, part.as_str());
    crate::text::push_str(&mut name, "-faults.txt");
    name
}

} // verus!

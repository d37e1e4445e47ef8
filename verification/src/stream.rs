use vstd::prelude::*;

use crate::decode::{lossy_utf8, utf8_lossy};
use crate::query_history::string_views;
use crate::text::{
    chars_of, decimal, push_decimal, push_signed_decimal, push_str, signed_decimal, string_from,
    string_of, trim, trim_seq,
};

verus! {

/// Most lines in one delivered batch.
pub const MAX_BATCH_LINES: usize = 50;

/// Most decoded lines waiting between the reader and the batcher.
pub const MAX_PENDING_LINES: usize = 256;

/// Idle time, in milliseconds, after which a partial batch is delivered.
pub const FLUSH_INTERVAL_MILLIS: u64 = 100;

/// Lines of one HiLog stream, delivered together.
#[derive(Debug)]
pub struct DeviceLogOutputBatch {
    pub stream_id: String,
    pub device_id: String,
    pub lines: Vec<String>,
}

/// Receives the batches of a running stream.
pub trait LogBatchSink: Send + Sync {
    fn deliver(&self, batch: DeviceLogOutputBatch);
}

/// A stream that was started.
#[derive(Debug)]
pub struct DeviceLogStreamSummary {
    pub stream_id: String,
    pub device_id: String,
    pub status: String,
}

/// How a stream process ended.
#[derive(Debug)]
pub struct DeviceLogStreamExit {
    pub stream_id: String,
    pub success: bool,
    pub code: Option<i32>,
}

/// `bytes` without one trailing `\n` and then one trailing `\r`.
pub open spec fn strip_line_ending(bytes: Seq<u8>) -> Seq<u8> {
    let a = if bytes.len() > 0 && bytes.last() == 10u8 {
        bytes.drop_last()
    } else {
        bytes
    };
    if a.len() > 0 && a.last() == 13u8 {
        a.drop_last()
    } else {
        a
    }
}

/// One raw line of HiLog output as text: line ending removed, then decoded as
/// `String::from_utf8_lossy` does.
pub fn decode_log_line(bytes: &[u8]) -> (r: String)
    ensures
        r@ == lossy_utf8(strip_line_ending(bytes@)),
{
    let mut end = bytes.len();
    if end > 0 && bytes[end - 1] == 10u8 {
        end = end - 1;
    }
    if end > 0 && bytes[end - 1] == 13u8 {
        end = end - 1;
    }
    let mut kept: Vec<u8> = Vec::new();
    let mut i: usize = 0;
    while i < end
        invariant
            i <= end <= bytes.len(),
            kept@ == bytes@.take(i as int),
        decreases end - i,
    {
        kept.push(bytes[i]);
        assert(bytes@.take(i as int).push(bytes@[i as int]) =~= bytes@.take(i + 1));
        i += 1;
    }
    assert(kept@ =~= strip_line_ending(bytes@));
    utf8_lossy(kept.as_slice())
}

/// Collects lines into batches of at most `MAX_BATCH_LINES`, losing none and
/// keeping their order.
pub struct LineBatcher {
    lines: Vec<String>,
}

impl View for LineBatcher {
    type V = Seq<Seq<char>>;

    closed spec fn view(&self) -> Seq<Seq<char>> {
        string_views(self.lines@)
    }
}

pub open spec fn batch_view(r: Option<Vec<String>>) -> Seq<Seq<char>> {
    match r {
        Some(v) => string_views(v@),
        None => Seq::empty(),
    }
}

impl LineBatcher {
    /// Fewer than a full batch ever waits.
    #[verifier::type_invariant]
    closed spec fn inv(self) -> bool {
        self.lines@.len() < MAX_BATCH_LINES
    }

    pub fn new() -> (r: Self)
        ensures
            r@ == Seq::<Seq<char>>::empty(),
    {
        let r = LineBatcher { lines: Vec::new() };
        assert(r@ =~= Seq::<Seq<char>>::empty());
        r
    }

    /// The number of lines waiting.
    pub fn pending(&self) -> (r: usize)
        ensures
            r == self@.len(),
            r < MAX_BATCH_LINES,
    {
        proof {
            use_type_invariant(self);
        }
        self.lines.len()
    }

    /// Adds a line; once `MAX_BATCH_LINES` wait they come back as a batch to be
    /// delivered. What comes back, followed by what still waits, is what waited
    /// before followed by `line`.
    pub fn push(&mut self, line: String) -> (r: Option<Vec<String>>)
        ensures
            batch_view(r) + final(self)@ == old(self)@.push(line@),
            old(self)@.len() + 1 >= MAX_BATCH_LINES ==> r is Some && final(self)@.len() == 0,
            old(self)@.len() + 1 < MAX_BATCH_LINES ==> r is None,
            r matches Some(b) ==> b@.len() == MAX_BATCH_LINES,
            final(self)@.len() < MAX_BATCH_LINES,
    {
        proof {
            use_type_invariant(&*self);
        }
        let ghost before = self@;
        let mut lines: Vec<String> = Vec::new();
        std::mem::swap(&mut lines, &mut self.lines);
        lines.push(line);
        assert(string_views(lines@) =~= before.push(line@));
        if lines.len() >= MAX_BATCH_LINES {
            assert(self@ =~= Seq::<Seq<char>>::empty());
            assert(batch_view(Some(lines)) + self@ =~= string_views(lines@));
            Some(lines)
        } else {
            self.lines = lines;
            assert(batch_view(None) + self@ =~= self@);
            None
        }
    }

    /// Hands out what waits, if anything, and empties the batcher.
    pub fn flush(&mut self) -> (r: Option<Vec<String>>)
        ensures
            batch_view(r) == old(self)@,
            r matches Some(b) ==> b@.len() > 0,
            final(self)@.len() == 0,
    {
        if self.lines.len() == 0 {
            return None;
        }
        let mut out: Vec<String> = Vec::new();
        std::mem::swap(&mut out, &mut self.lines);
        assert(self@ =~= Seq::<Seq<char>>::empty());
        Some(out)
    }
}



/// A batch of `lines` for a stream.
pub fn make_batch(stream_id: &str, device_id: &str, lines: Vec<String>) -> (r: DeviceLogOutputBatch)
    ensures
        r.stream_id@ == stream_id@,
        r.device_id@ == device_id@,
        r.lines@ == lines@,
{
    DeviceLogOutputBatch { stream_id: string_from(stream_id), device_id: string_from(device_id), lines }
}

/// The device id to stream from: the argument trimmed; an empty one is refused.
pub fn validate_device_id(device_id: &str) -> (r: Result<String, String>)
    ensures
        trim_seq(device_id@).len() == 0 ==> r is Err && r->Err_0@ == "A device id is required"@,
        trim_seq(device_id@).len() > 0 ==> r is Ok && r->Ok_0@ == trim_seq(device_id@),
{
    let chars = chars_of(device_id);
    let t = trim(&chars);
    if t.len() == 0 {
        return Err(string_from("A device id is required"));
    }
    Ok(string_of(&t))
}

/// How a HiLog stream is asked to start.
#[derive(Clone, Copy, Debug, PartialEq, Eq, Structural)]
pub enum DeviceLogStartMode {
    /// Plain `hilog`: the device may first replay records it already buffered.
    IncludeBuffered,
    /// Only records written after the start; HDC offers no reliable boundary
    /// for this, so it is refused rather than approximated.
    LiveOnly,
}

/// Why a stream did not start.
#[derive(Debug, PartialEq, Eq)]
pub enum DeviceLogStartError {
    /// The start mode cannot be honoured.
    UnsupportedLiveStart { reason: String },
    /// The device id is blank.
    MissingDevice(String),
    /// The stream could not be launched.
    Failed(String),
}

/// Why a live-only start is refused.
pub open spec fn live_only_reason() -> Seq<char> {
    "HDC HiLog offers no reliable boundary between buffered and new records"@
}

/// Checks a stream start before anything is launched: a live-only start is
/// refused; otherwise the device id, trimmed, is required (`validate_device_id`).
pub fn plan_stream_start(device_id: &str, mode: DeviceLogStartMode) -> (r: Result<
    String,
    DeviceLogStartError,
>)
    ensures
        mode == DeviceLogStartMode::LiveOnly ==> (r matches Err(
            DeviceLogStartError::UnsupportedLiveStart { reason },
        ) && reason@ == live_only_reason()),
        mode == DeviceLogStartMode::IncludeBuffered && trim_seq(device_id@).len() == 0 ==> (
        r matches Err(DeviceLogStartError::MissingDevice(m)) && m@ == "A device id is required"@),
        mode == DeviceLogStartMode::IncludeBuffered && trim_seq(device_id@).len() > 0 ==> (
        r matches Ok(id) && id@ == trim_seq(device_id@)),
{
    if let DeviceLogStartMode::LiveOnly = mode {
        return Err(DeviceLogStartError::UnsupportedLiveStart {
            reason: string_from("HDC HiLog offers no reliable boundary between buffered and new records"),
        });
    }
    match validate_device_id(device_id) {
        Ok(id) => Ok(id),
        Err(message) => Err(DeviceLogStartError::MissingDevice(message)),
    }
}

/// `stream-N`: the id of the `n`-th stream.
pub fn stream_id_for(n: u64) -> (r: String)
    ensures
        r@ == "stream-"@ + decimal(n as nat),
{
    let mut id = string_from("stream-");
    push_decimal(&mut id, n);
    id
}

/// The summary of a stream that has just started.
pub fn running_summary(stream_id: String, device_id: String) -> (r: DeviceLogStreamSummary)
    ensures
        r.stream_id == stream_id,
        r.device_id == device_id,
        r.status@ == "running"@,
{
    DeviceLogStreamSummary { stream_id, device_id, status: string_from("running") }
}

/// The message for a stream process that ended on its own.
pub open spec fn exit_message_spec(code: Option<i32>) -> Seq<char> {
    "HDC HiLog exited unexpectedly "@ + match code {
        Some(c) => "with code "@ + signed_decimal(c as int),
        None => "without an exit code"@,
    }
}

pub fn exit_message(code: Option<i32>) -> (r: String)
    ensures
        r@ == exit_message_spec(code),
{
    let mut message = string_from("HDC HiLog exited unexpectedly ");
    match code {
        Some(c) => {
            push_str(&mut message, "with code ");
            push_signed_decimal(&mut message, c as i64);
        },
        None => push_str(&mut message, "without an exit code"),
    }
    message
}

} // verus!

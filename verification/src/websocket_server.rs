//! The terminal protocol of the local socket: binary input frames, control
//! messages, and the scheduler that gathers terminal output into frames.

use vstd::prelude::*;
use crate::bytes::{append_range, copy_range};
use crate::error::SshError;
use crate::number::{decimal, push_decimal};
use crate::text::{chars_to_string, lossy_string, push_text, utf8_lossy};

verus! {

/// The port that the socket listens on.
pub const DEFAULT_PORT: u16 = 9001;

/// The opcode of a binary input frame.
pub const OP_INPUT: u8 = 0;

/// The length of the session identifier in a binary input frame.
pub const SESSION_ID_LEN: usize = 36;

/// The length of a binary input frame before its payload.
pub const INPUT_HEADER_LEN: usize = 37;

/// A control message, as the socket carries it in text frames.
#[derive(Debug, Clone, PartialEq, Eq)]
pub enum WsMessage {
    /// Start a terminal.
    StartPty { session_id: String, cols: u32, rows: u32 },
    /// Terminal input.
    Input { session_id: String, data: Vec<u8> },
    /// Terminal output.
    Output { session_id: String, data: Vec<u8> },
    /// Resize the terminal.
    Resize { session_id: String, cols: u32, rows: u32 },
    /// Pause the output.
    Pause { session_id: String },
    /// Resume the output.
    Resume { session_id: String },
    /// Close the terminal.
    Close { session_id: String },
    /// An error, to the client.
    Error { message: String },
    /// A confirmation, to the client.
    Success { message: String },
}

/// A binary frame, taken apart.
#[derive(Debug, Clone, PartialEq, Eq)]
pub enum BinaryFrame {
    /// A frame without a byte.
    Empty,
    /// Input for a terminal.
    Input { session_id: Vec<u8>, payload: Vec<u8> },
    /// An input frame that is shorter than its header.
    TooShort,
    /// A frame with an opcode that is not known.
    Unknown { opcode: u8 },
}

/// Takes a binary frame apart: the opcode, then for input the 36 bytes of
/// the session identifier, then the payload.
pub fn parse_binary_frame(data: &[u8]) -> (r: BinaryFrame)
    ensures
        data@.len() == 0 ==> r == BinaryFrame::Empty,
        data@.len() > 0 && data@[0] != OP_INPUT ==> r == (BinaryFrame::Unknown {
            opcode: data@[0],
        }),
        data@.len() > 0 && data@[0] == OP_INPUT && data@.len() < INPUT_HEADER_LEN ==> r
            == BinaryFrame::TooShort,
        data@.len() >= INPUT_HEADER_LEN && data@[0] == OP_INPUT ==> (r matches BinaryFrame::Input {
            session_id,
            payload,
        } && session_id@ == data@.subrange(1, INPUT_HEADER_LEN as int) && payload@
            == data@.subrange(INPUT_HEADER_LEN as int, data@.len() as int)),
{
    if data.len() == 0 {
        return BinaryFrame::Empty;
    }
    let opcode = data[0];
    if opcode != OP_INPUT {
        return BinaryFrame::Unknown { opcode };
    }
    if data.len() < INPUT_HEADER_LEN {
        return BinaryFrame::TooShort;
    }
    let session_id = copy_range(data, 1, INPUT_HEADER_LEN);
    let payload = copy_range(data, INPUT_HEADER_LEN, data.len());
    BinaryFrame::Input { session_id, payload }
}

/// What is wrong with a binary frame, if anything: an input frame that is
/// shorter than its header, or an opcode that is not known. Such a frame is
/// dropped.
pub fn frame_fault(frame: &BinaryFrame) -> (r: Option<SshError>)
    ensures
        match *frame {
            BinaryFrame::TooShort => (r matches Some(SshError::ProtocolError { detail })
                && detail@ == "Binary INPUT message too short"@),
            BinaryFrame::Unknown { opcode } => (r matches Some(SshError::ProtocolError { detail })
                && detail@ == "Unknown binary command: "@ + decimal(opcode as nat)),
            _ => r is None,
        },
{
    match frame {
        BinaryFrame::TooShort => {
            let mut out: Vec<char> = Vec::new();
            push_text(&mut out, "Binary INPUT message too short");
            Some(SshError::ProtocolError { detail: chars_to_string(&out) })
        },
        BinaryFrame::Unknown { opcode } => {
            let mut out: Vec<char> = Vec::new();
            push_text(&mut out, "Unknown binary command: ");
            push_decimal(&mut out, *opcode as u64);
            Some(SshError::ProtocolError { detail: chars_to_string(&out) })
        },
        _ => None,
    }
}

/// The session and the bytes that a binary frame writes to, if it is a
/// whole input frame. The payload may be empty.
pub fn binary_input(data: &[u8]) -> (r: Option<(String, Vec<u8>)>)
    ensures
        r is Some <==> data@.len() >= INPUT_HEADER_LEN && data@[0] == OP_INPUT,
        r is Some ==> (r matches Some((id, payload)) && id@ == utf8_lossy(
            data@.subrange(1, INPUT_HEADER_LEN as int),
        ) && payload@ == data@.subrange(INPUT_HEADER_LEN as int, data@.len() as int)),
        r is Some && vstd::utf8::valid_utf8(data@.subrange(1, INPUT_HEADER_LEN as int)) ==> (
        r matches Some((id, _)) && id@ == vstd::utf8::decode_utf8(
            data@.subrange(1, INPUT_HEADER_LEN as int),
        )),
{
    match parse_binary_frame(data) {
        BinaryFrame::Input { session_id, payload } => {
            let id = lossy_string(session_id.as_slice());
            Some((id, payload))
        },
        _ => None,
    }
}

/// What the server does on a control message.
#[derive(Debug, Clone, PartialEq, Eq)]
pub enum ControlAction {
    /// Start the terminal, confirm, and start its reader.
    StartPty { session_id: String, cols: u32, rows: u32 },
    /// Write the bytes to the terminal.
    WriteInput { session_id: String, data: Vec<u8> },
    /// Send this message to the client.
    Reply { message: WsMessage },
    /// Close the terminal, then confirm.
    ClosePty { session_id: String },
    /// Nothing.
    Nothing,
}

/// The text that confirms a resize.
pub open spec fn resized_text(cols: u32, rows: u32) -> Seq<char> {
    "Terminal resized: "@ + decimal(cols as nat) + "x"@ + decimal(rows as nat)
}

/// What the server does on `msg`. A resize is confirmed and goes no
/// further; pause and resume are taken and change nothing; messages that
/// only the server sends are passed over.
pub fn plan_control(msg: WsMessage) -> (action: ControlAction)
    ensures
        match msg {
            WsMessage::StartPty { session_id, cols, rows } => action == (ControlAction::StartPty {
                session_id,
                cols,
                rows,
            }),
            WsMessage::Input { session_id, data } => action == (ControlAction::WriteInput {
                session_id,
                data,
            }),
            WsMessage::Resize { session_id, cols, rows } => (action matches ControlAction::Reply {
                message: WsMessage::Success { message },
            } && message@ == resized_text(cols, rows)),
            WsMessage::Close { session_id } => action == (ControlAction::ClosePty { session_id }),
            _ => action == ControlAction::Nothing,
        },
{
    match msg {
        WsMessage::StartPty { session_id, cols, rows } => ControlAction::StartPty {
            session_id,
            cols,
            rows,
        },
        WsMessage::Input { session_id, data } => ControlAction::WriteInput { session_id, data },
        WsMessage::Resize { session_id: _, cols, rows } => {
            let mut out: Vec<char> = Vec::new();
            push_text(&mut out, "Terminal resized: ");
            push_decimal(&mut out, cols as u64);
            push_text(&mut out, "x");
            push_decimal(&mut out, rows as u64);
            ControlAction::Reply { message: WsMessage::Success { message: chars_to_string(&out) } }
        },
        WsMessage::Close { session_id } => ControlAction::ClosePty { session_id },
        _ => ControlAction::Nothing,
    }
}

/// A message made of a fixed text and a variable one.
fn labelled(label: &str, text: &str) -> (r: String)
    ensures
        r@ == label@ + text@,
{
    let mut out: Vec<char> = Vec::new();
    push_text(&mut out, label);
    push_text(&mut out, text);
    chars_to_string(&out)
}

/// The confirmation that a terminal was started.
pub fn started_reply(session_id: &str) -> (r: WsMessage)
    ensures
        r matches WsMessage::Success { message } && message@ == "PTY session started: "@
            + session_id@,
{
    WsMessage::Success { message: labelled("PTY session started: ", session_id) }
}

/// The confirmation that a terminal was closed.
pub fn closed_reply(session_id: &str) -> (r: WsMessage)
    ensures
        r matches WsMessage::Success { message } && message@ == "PTY session closed: "@
            + session_id@,
{
    WsMessage::Success { message: labelled("PTY session closed: ", session_id) }
}

/// The answer to a text frame that is no control message; `detail` says
/// what is wrong with it.
pub fn invalid_format_reply(detail: &str) -> (r: WsMessage)
    ensures
        r matches WsMessage::Error { message } && message@ == "Invalid message format: "@
            + detail@,
{
    WsMessage::Error { message: labelled("Invalid message format: ", detail) }
}

/// The answer to a control message that failed with `error`.
pub fn handling_error_reply(error: &SshError) -> (r: WsMessage)
    ensures
        r matches WsMessage::Error { message } && message@ == "Error handling message: "@
            + crate::error::message_text(*error),
{
    let text = error.message();
    WsMessage::Error { message: labelled("Error handling message: ", text.as_str()) }
}

/// How a reader ends.
#[derive(Clone, Copy, Debug, PartialEq, Eq, Structural)]
pub enum ReaderExit {
    /// The terminal is gone or closed: the stream has simply ended.
    EndOfStream,
    /// The reader failed.
    Failed,
}

/// How a reader ends on `error`: every error ends it; a terminal that is
/// gone or closed is the normal end of the stream.
pub fn reader_exit(error: &SshError) -> (r: ReaderExit)
    ensures
        r == if *error is PtyNotFound || *error is PtyClosed {
            ReaderExit::EndOfStream
        } else {
            ReaderExit::Failed
        },
{
    match error {
        SshError::PtyNotFound { session_id: _ } => ReaderExit::EndOfStream,
        SshError::PtyClosed => ReaderExit::EndOfStream,
        _ => ReaderExit::Failed,
    }
}

/// Milliseconds that one read of the terminal waits for output.
pub const READ_TIMEOUT_MILLIS: u64 = 1;

/// The gathered bytes above which a frame is sent at once.
pub const FLUSH_BYTES: usize = 4096;

/// Milliseconds after the last frame from which gathered bytes are sent.
pub const FLUSH_MILLIS: u64 = 5;

/// The room that the accumulator starts with.
pub const ACCUMULATOR_CAPACITY: usize = 8192;

/// The scheduler of a reader as contracts see it.
pub struct CoalescerView {
    /// The bytes gathered since the last frame.
    pub pending: Seq<u8>,
    /// When the last frame was sent, on a clock of milliseconds.
    pub last_flush: u64,
}

/// The milliseconds from `last` to `now`, none where the clock went back.
pub open spec fn elapsed(last: u64, now: u64) -> int {
    if now >= last {
        now - last
    } else {
        0
    }
}

impl CoalescerView {
    /// Whether a read of `data` at `now` sends a frame because of the
    /// gathered size.
    pub open spec fn size_due(self, data: Seq<u8>) -> bool {
        data.len() > 0 && self.pending.len() + data.len() > FLUSH_BYTES
    }

    /// Whether a read of `data` at `now` sends a frame because of the time
    /// since the last one.
    pub open spec fn time_due(self, data: Seq<u8>, now: u64) -> bool {
        self.pending.len() + data.len() > 0 && elapsed(self.last_flush, now) >= FLUSH_MILLIS
    }

    /// Whether a read of `data` at `now` sends a frame.
    pub open spec fn flush_due(self, data: Seq<u8>, now: u64) -> bool {
        self.size_due(data) || self.time_due(data, now)
    }

    /// The scheduler after a read of `data` at `now`.
    pub open spec fn after_read(self, data: Seq<u8>, now: u64) -> CoalescerView {
        if self.flush_due(data, now) {
            CoalescerView { pending: Seq::empty(), last_flush: now }
        } else {
            CoalescerView { pending: self.pending + data, last_flush: self.last_flush }
        }
    }
}

/// The scheduler of one reader: it gathers the output of the terminal and
/// says when a frame is due.
pub struct Coalescer {
    pending: Vec<u8>,
    last_flush: u64,
}

impl View for Coalescer {
    type V = CoalescerView;

    closed spec fn view(&self) -> CoalescerView {
        CoalescerView { pending: self.pending@, last_flush: self.last_flush }
    }
}

impl Coalescer {
    #[verifier::type_invariant]
    spec fn inv(self) -> bool {
        self.pending@.len() <= FLUSH_BYTES
    }

    /// A scheduler that has gathered nothing and counts its time from `now`.
    pub fn new(now_millis: u64) -> (c: Coalescer)
        ensures
            c@ == (CoalescerView { pending: Seq::empty(), last_flush: now_millis }),
    {
        Coalescer { pending: Vec::with_capacity(ACCUMULATOR_CAPACITY), last_flush: now_millis }
    }

    /// How many bytes are gathered: never more than a frame's threshold.
    pub fn pending_len(&self) -> (n: usize)
        ensures
            n == self@.pending.len(),
            n <= FLUSH_BYTES,
    {
        proof {
            use_type_invariant(self);
        }
        self.pending.len()
    }

    /// Takes what one read of the terminal gave, `data`, which is empty
    /// where the read timed out, at the time `now_millis`. The bytes are
    /// gathered. A frame with all gathered bytes is due when they are more
    /// than 4096, or when there are any and 5 ms have passed since the last
    /// frame; the result is then that frame's payload.
    pub fn on_read(&mut self, data: &[u8], now_millis: u64) -> (frame: Option<Vec<u8>>)
        ensures
            final(self)@ == old(self)@.after_read(data@, now_millis),
            frame is Some <==> old(self)@.flush_due(data@, now_millis),
            frame is Some ==> frame->0@ == old(self)@.pending + data@,
    {
        proof {
            use_type_invariant(&*self);
        }
        let mut gathered: Vec<u8> = Vec::new();
        std::mem::swap(&mut self.pending, &mut gathered);
        append_range(&mut gathered, data, 0, data.len());
        assert(data@.subrange(0, data@.len() as int) == data@);
        let waited: u64 = if now_millis >= self.last_flush {
            now_millis - self.last_flush
        } else {
            0
        };
        let due = (data.len() > 0 && gathered.len() > FLUSH_BYTES) || (gathered.len() > 0
            && waited >= FLUSH_MILLIS);
        if due {
            self.last_flush = now_millis;
            Some(gathered)
        } else {
            std::mem::swap(&mut self.pending, &mut gathered);
            None
        }
    }
}

/// One read of the terminal: what it gave and when.
pub struct ReadEvent {
    pub data: Seq<u8>,
    pub now: u64,
}

/// The scheduler after the reads `evs`, in order.
pub open spec fn after_reads(v: CoalescerView, evs: Seq<ReadEvent>) -> CoalescerView
    decreases evs.len(),
{
    if evs.len() == 0 {
        v
    } else {
        after_reads(v, evs.drop_last()).after_read(evs.last().data, evs.last().now)
    }
}

/// The bytes of the frames that the reads `evs` sent, in order.
pub open spec fn sent_bytes(v: CoalescerView, evs: Seq<ReadEvent>) -> Seq<u8>
    decreases evs.len(),
{
    if evs.len() == 0 {
        Seq::empty()
    } else {
        let before = after_reads(v, evs.drop_last());
        let e = evs.last();
        if before.flush_due(e.data, e.now) {
            sent_bytes(v, evs.drop_last()) + (before.pending + e.data)
        } else {
            sent_bytes(v, evs.drop_last())
        }
    }
}

/// The bytes that the reads `evs` gave, in order.
pub open spec fn read_bytes(evs: Seq<ReadEvent>) -> Seq<u8>
    decreases evs.len(),
{
    if evs.len() == 0 {
        Seq::empty()
    } else {
        read_bytes(evs.drop_last()) + evs.last().data
    }
}

/// How many frames the reads `evs` sent because of the gathered size.
pub open spec fn size_frames(v: CoalescerView, evs: Seq<ReadEvent>) -> nat
    decreases evs.len(),
{
    if evs.len() == 0 {
        0
    } else {
        let before = after_reads(v, evs.drop_last());
        let n = size_frames(v, evs.drop_last());
        if before.size_due(evs.last().data) {
            n + 1
        } else {
            n
        }
    }
}

/// How many frames the reads `evs` sent because of the time alone.
pub open spec fn time_frames(v: CoalescerView, evs: Seq<ReadEvent>) -> nat
    decreases evs.len(),
{
    if evs.len() == 0 {
        0
    } else {
        let before = after_reads(v, evs.drop_last());
        let e = evs.last();
        let n = time_frames(v, evs.drop_last());
        if !before.size_due(e.data) && before.time_due(e.data, e.now) {
            n + 1
        } else {
            n
        }
    }
}

/// Whether the times of the reads never go back, from `start` on.
pub open spec fn in_time_order(start: u64, evs: Seq<ReadEvent>) -> bool {
    &&& forall|i: int| 0 <= i < evs.len() ==> start <= (#[trigger] evs[i]).now
    &&& forall|i: int, j: int| 0 <= i <= j < evs.len() ==> evs[i].now <= evs[j].now
}

/// Output keeps its order: the bytes of the frames sent so far, followed by
/// the bytes still gathered, are the bytes gathered at the start followed by
/// the bytes read, whatever the times.
pub proof fn law_output_order(v: CoalescerView, evs: Seq<ReadEvent>)
    ensures
        sent_bytes(v, evs) + after_reads(v, evs).pending == v.pending + read_bytes(evs),
    decreases evs.len(),
{
    if evs.len() == 0 {
        assert(sent_bytes(v, evs) + v.pending == v.pending);
        assert(v.pending + read_bytes(evs) == v.pending);
    } else {
        law_output_order(v, evs.drop_last());
        let before = after_reads(v, evs.drop_last());
        let s = sent_bytes(v, evs.drop_last());
        let e = evs.last();
        assert(v.pending + (read_bytes(evs.drop_last()) + e.data) == (v.pending + read_bytes(
            evs.drop_last(),
        )) + e.data);
        if before.flush_due(e.data, e.now) {
            assert((s + (before.pending + e.data)) + Seq::<u8>::empty() == (s + before.pending)
                + e.data);
        } else {
            assert(s + (before.pending + e.data) == (s + before.pending) + e.data);
        }
    }
}

/// Frames are few: while the clock does not go back, each frame sent for the
/// time alone accounts for 5 ms of its own since the start, and each frame
/// sent for its size for more than 4096 bytes of its own among those read.
pub proof fn law_frame_count(v: CoalescerView, evs: Seq<ReadEvent>)
    requires
        in_time_order(v.last_flush, evs),
    ensures
        v.last_flush <= after_reads(v, evs).last_flush,
        evs.len() > 0 ==> after_reads(v, evs).last_flush <= evs.last().now,
        FLUSH_MILLIS * time_frames(v, evs) <= after_reads(v, evs).last_flush - v.last_flush,
        FLUSH_BYTES * size_frames(v, evs) + after_reads(v, evs).pending.len() <= v.pending.len()
            + read_bytes(evs).len(),
    decreases evs.len(),
{
    if evs.len() > 0 {
        let earlier = evs.drop_last();
        assert forall|i: int| 0 <= i < earlier.len() implies v.last_flush <= (
        #[trigger] earlier[i]).now by {
            assert(earlier[i] == evs[i]);
        }
        assert forall|i: int, j: int| 0 <= i <= j < earlier.len() implies earlier[i].now
            <= earlier[j].now by {
            assert(earlier[i] == evs[i]);
            assert(earlier[j] == evs[j]);
        }
        law_frame_count(v, earlier);
        if earlier.len() > 0 {
            assert(earlier.last() == evs[evs.len() - 2]);
            assert(evs[evs.len() - 2].now <= evs[evs.len() - 1].now);
        }
    }
}

} // verus!

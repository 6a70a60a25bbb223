//! One interactive terminal: its bounded queues, its size, and the steps of
//! the two pumps that move bytes between the queues and the channel.

use vstd::prelude::*;
use std::collections::VecDeque;
use crate::error::{SetupStage, SshError};

verus! {

/// How many writes the input queue holds.
pub const INPUT_CAPACITY: usize = 1000;

/// How many chunks the output queue holds.
pub const OUTPUT_CAPACITY: usize = 2000;

/// The most bytes that one write may carry.
pub const MAX_WRITE_LEN: usize = 1000000;

/// The most columns or rows of a terminal.
pub const MAX_TERMINAL_SIZE: u32 = 1000;

/// Seconds a write to the channel may take.
pub const CHANNEL_WRITE_TIMEOUT_SECS: u64 = 5;

/// Seconds a flush of the channel may take.
pub const CHANNEL_FLUSH_TIMEOUT_SECS: u64 = 1;

/// Milliseconds the output pump waits for the channel before it looks at
/// the closed flag again.
pub const OUTPUT_POLL_MILLIS: u64 = 100;

/// Seconds a full queue is waited for before the write or the pump gives up.
pub const QUEUE_WAIT_SECS: u64 = 5;

/// Seconds a pump is waited for when the terminal closes.
pub const PUMP_JOIN_SECS: u64 = 2;

/// Whether a terminal may have this size.
pub open spec fn valid_size(cols: u32, rows: u32) -> bool {
    1 <= cols <= MAX_TERMINAL_SIZE && 1 <= rows <= MAX_TERMINAL_SIZE
}

/// Tests a terminal size.
pub fn check_size(cols: u32, rows: u32) -> (r: Result<(), SshError>)
    ensures
        valid_size(cols, rows) ==> r is Ok,
        !valid_size(cols, rows) ==> r == Err::<(), SshError>(
            SshError::BadTerminalSize { cols, rows },
        ),
{
    if cols == 0 || rows == 0 || cols > MAX_TERMINAL_SIZE || rows > MAX_TERMINAL_SIZE {
        Err(SshError::BadTerminalSize { cols, rows })
    } else {
        Ok(())
    }
}

/// Seconds that a stage of the channel setup may take.
pub fn stage_timeout_secs(stage: SetupStage) -> (secs: u64)
    ensures
        secs == match stage {
            SetupStage::OpenChannel => 10u64,
            SetupStage::RequestPty => 5u64,
            SetupStage::StartShell => 5u64,
        },
{
    match stage {
        SetupStage::OpenChannel => 10,
        SetupStage::RequestPty => 5,
        SetupStage::StartShell => 5,
    }
}

/// How a stage of the channel setup ended.
#[derive(Clone, Debug, PartialEq, Eq)]
pub enum StageOutcome {
    Done,
    TimedOut,
    Failed { detail: String },
}

/// What follows a stage of the channel setup.
#[derive(Clone, Debug, PartialEq, Eq)]
pub enum SetupStep {
    /// The next stage is due.
    Next { stage: SetupStage },
    /// The shell runs: the terminal is ready.
    Ready,
}

/// The step after `stage` ended with `outcome`: the stages follow each other
/// as channel, terminal, shell; one that takes too long or fails ends the
/// setup with its error.
pub fn setup_step(stage: SetupStage, outcome: StageOutcome) -> (r: Result<SetupStep, SshError>)
    ensures
        r == match outcome {
            StageOutcome::Done => Ok::<SetupStep, SshError>(
                match stage {
                    SetupStage::OpenChannel => SetupStep::Next { stage: SetupStage::RequestPty },
                    SetupStage::RequestPty => SetupStep::Next { stage: SetupStage::StartShell },
                    SetupStage::StartShell => SetupStep::Ready,
                },
            ),
            StageOutcome::TimedOut => Err(SshError::ChannelSetupTimeout { stage }),
            StageOutcome::Failed { detail } => Err(SshError::TransportError { detail }),
        },
{
    match outcome {
        StageOutcome::Done => Ok(
            match stage {
                SetupStage::OpenChannel => SetupStep::Next { stage: SetupStage::RequestPty },
                SetupStage::RequestPty => SetupStep::Next { stage: SetupStage::StartShell },
                SetupStage::StartShell => SetupStep::Ready,
            },
        ),
        StageOutcome::TimedOut => Err(SshError::ChannelSetupTimeout { stage }),
        StageOutcome::Failed { detail } => Err(SshError::TransportError { detail }),
    }
}

/// Whether a write that found the input queue full may try again, having
/// waited so many milliseconds: after five seconds it gives up.
pub fn retry_full_write(waited_millis: u64) -> (r: Result<(), SshError>)
    ensures
        waited_millis < QUEUE_WAIT_SECS * 1000 ==> r is Ok,
        waited_millis >= QUEUE_WAIT_SECS * 1000 ==> r == Err::<(), SshError>(
            SshError::WriteTimeout,
        ),
{
    if waited_millis >= QUEUE_WAIT_SECS * 1000 {
        Err(SshError::WriteTimeout)
    } else {
        Ok(())
    }
}

/// Where a terminal stands in its life.
#[derive(Clone, Copy, Debug, PartialEq, Eq, Structural)]
pub enum PtyState {
    /// The channel is being set up.
    Starting,
    /// Bytes flow.
    Running,
    /// Closed, with a pump still to end.
    Closing,
    /// Closed, and both pumps have ended.
    Closed,
}

/// One of the two pumps of a terminal.
#[derive(Clone, Copy, Debug, PartialEq, Eq, Structural)]
pub enum Pump {
    Input,
    Output,
}

/// What a write did.
#[derive(Clone, Debug, PartialEq, Eq)]
pub enum WriteOutcome {
    /// The bytes wait in the input queue.
    Queued,
    /// There were no bytes: nothing was done.
    Ignored,
    /// The queue is full: the bytes come back, to be written again once
    /// there is room.
    Full { data: Vec<u8> },
}

/// The verdict on a write.
pub enum WriteVerdict {
    Closed,
    Ignored,
    TooLarge,
    Queued,
    Full,
}

/// A terminal as contracts see it.
pub struct PtyView {
    /// The writes that wait for the input pump, oldest first.
    pub input: Seq<Seq<u8>>,
    /// The chunks that wait for a reader, oldest first.
    pub output: Seq<Seq<u8>>,
    pub closed: bool,
    pub cols: u32,
    pub rows: u32,
    pub input_pump: bool,
    pub output_pump: bool,
}

impl PtyView {
    /// What holds of every terminal.
    pub open spec fn wf(self) -> bool {
        &&& self.input.len() <= INPUT_CAPACITY
        &&& self.output.len() <= OUTPUT_CAPACITY
        &&& valid_size(self.cols, self.rows)
    }

    /// The state of the terminal.
    pub open spec fn state(self) -> PtyState {
        if !self.closed {
            PtyState::Running
        } else if self.input_pump || self.output_pump {
            PtyState::Closing
        } else {
            PtyState::Closed
        }
    }

    /// The verdict on a write of `data`.
    pub open spec fn write_verdict(self, data: Seq<u8>) -> WriteVerdict {
        if self.closed {
            WriteVerdict::Closed
        } else if data.len() == 0 {
            WriteVerdict::Ignored
        } else if data.len() > MAX_WRITE_LEN {
            WriteVerdict::TooLarge
        } else if self.input.len() >= INPUT_CAPACITY {
            WriteVerdict::Full
        } else {
            WriteVerdict::Queued
        }
    }

    /// The terminal after a write of `data`.
    pub open spec fn after_write(self, data: Seq<u8>) -> PtyView {
        if self.write_verdict(data) is Queued {
            PtyView { input: self.input.push(data), ..self }
        } else {
            self
        }
    }

    /// The terminal after the input pump took a step.
    pub open spec fn after_input_step(self) -> PtyView {
        if self.closed {
            PtyView { input_pump: false, ..self }
        } else if self.input.len() > 0 {
            PtyView { input: self.input.drop_first(), ..self }
        } else {
            self
        }
    }

    /// The terminal after a read.
    pub open spec fn after_read(self) -> PtyView {
        if !self.closed && self.output.len() > 0 {
            PtyView { output: self.output.drop_first(), ..self }
        } else {
            self
        }
    }

    /// The terminal after a close.
    pub open spec fn after_close(self) -> PtyView {
        PtyView { closed: true, ..self }
    }

    /// The terminal after a pump ended.
    pub open spec fn after_pump_end(self, pump: Pump) -> PtyView {
        match pump {
            Pump::Input => PtyView { closed: true, input_pump: false, ..self },
            Pump::Output => PtyView { closed: true, output_pump: false, ..self },
        }
    }
}

/// The contents of a queue of byte vectors.
pub open spec fn chunks(q: Seq<Vec<u8>>) -> Seq<Seq<u8>> {
    Seq::new(q.len(), |i: int| q[i]@)
}

/// One interactive terminal.
pub struct PtySession {
    input: VecDeque<Vec<u8>>,
    output: VecDeque<Vec<u8>>,
    closed: bool,
    cols: u32,
    rows: u32,
    input_pump: bool,
    output_pump: bool,
}

impl View for PtySession {
    type V = PtyView;

    closed spec fn view(&self) -> PtyView {
        PtyView {
            input: chunks(self.input@),
            output: chunks(self.output@),
            closed: self.closed,
            cols: self.cols,
            rows: self.rows,
            input_pump: self.input_pump,
            output_pump: self.output_pump,
        }
    }
}

/// What the channel handed to the output pump.
#[derive(Clone, Debug, PartialEq, Eq)]
pub enum ChannelEvent {
    /// Bytes of the standard output.
    Data { data: Vec<u8> },
    /// Bytes of another stream, such as the standard error.
    ExtendedData { data: Vec<u8> },
    /// The peer will send no more.
    Eof,
    /// The peer closed the channel.
    Close,
    /// The channel is gone.
    Gone,
    /// The remote program ended.
    ExitStatus { code: u32 },
    /// Nothing came within the polling time.
    Idle,
    /// Any other message.
    Other,
}

/// What the output pump does after an event.
#[derive(Clone, Debug, PartialEq, Eq)]
pub enum PumpStep {
    /// Go on with the next event.
    Continue,
    /// End the pump.
    Stop,
    /// The output queue is full: the bytes come back, to be handed in again
    /// once there is room.
    Full { data: Vec<u8> },
}

/// What the input pump does next.
#[derive(Clone, Debug, PartialEq, Eq)]
pub enum InputStep {
    /// Write these bytes to the channel and flush.
    Deliver { data: Vec<u8> },
    /// Nothing is queued.
    Wait,
    /// End the pump.
    Stop,
}

/// The bytes that an event carries for the reader, if any.
pub open spec fn event_bytes(ev: ChannelEvent) -> Option<Seq<u8>> {
    match ev {
        ChannelEvent::Data { data } => Some(data@),
        ChannelEvent::ExtendedData { data } => Some(data@),
        _ => None,
    }
}

/// Whether an event ends the output pump.
pub open spec fn event_ends(ev: ChannelEvent) -> bool {
    ev is Eof || ev is Close || ev is Gone
}

impl PtyView {
    /// The terminal after the output pump saw `ev`.
    pub open spec fn after_event(self, ev: ChannelEvent) -> PtyView {
        if self.closed || event_ends(ev) {
            PtyView { closed: true, output_pump: false, ..self }
        } else if event_bytes(ev) is Some && self.output.len() < OUTPUT_CAPACITY {
            PtyView { output: self.output.push(event_bytes(ev)->0), ..self }
        } else {
            self
        }
    }
}

impl PtySession {
    #[verifier::type_invariant]
    spec fn inv(self) -> bool {
        &&& self.input@.len() <= INPUT_CAPACITY
        &&& self.output@.len() <= OUTPUT_CAPACITY
        &&& valid_size(self.cols, self.rows)
    }

    /// A terminal of the given size, running, with empty queues. A size
    /// outside 1 to 1000 columns and rows is refused.
    pub fn create(cols: u32, rows: u32) -> (r: Result<PtySession, SshError>)
        ensures
            valid_size(cols, rows) ==> r is Ok && r->Ok_0@ == (PtyView {
                input: Seq::empty(),
                output: Seq::empty(),
                closed: false,
                cols,
                rows,
                input_pump: true,
                output_pump: true,
            }),
            !valid_size(cols, rows) ==> r is Err && r->Err_0 == (SshError::BadTerminalSize {
                cols,
                rows,
            }),
    {
        match check_size(cols, rows) {
            Err(e) => Err(e),
            Ok(_) => {
                let s = PtySession {
                    input: VecDeque::new(),
                    output: VecDeque::new(),
                    closed: false,
                    cols,
                    rows,
                    input_pump: true,
                    output_pump: true,
                };
                assert(s@.input =~= Seq::<Seq<u8>>::empty());
                assert(s@.output =~= Seq::<Seq<u8>>::empty());
                Ok(s)
            },
        }
    }

    /// Every terminal keeps its queues within their capacities and has a
    /// valid size.
    pub fn check(&self)
        ensures
            self@.wf(),
    {
        proof {
            use_type_invariant(self);
        }
    }

    /// Whether the terminal is closed.
    pub fn is_closed(&self) -> (b: bool)
        ensures
            b == self@.closed,
    {
        self.closed
    }

    /// The state of the terminal.
    pub fn state(&self) -> (st: PtyState)
        ensures
            st == self@.state(),
    {
        if !self.closed {
            PtyState::Running
        } else if self.input_pump || self.output_pump {
            PtyState::Closing
        } else {
            PtyState::Closed
        }
    }

    /// The size of the terminal: columns, then rows.
    pub fn get_size(&self) -> (size: (u32, u32))
        ensures
            size == (self@.cols, self@.rows),
            valid_size(size.0, size.1),
    {
        proof {
            use_type_invariant(self);
        }
        (self.cols, self.rows)
    }

    /// Sets the size of the terminal. A size outside 1 to 1000 columns and
    /// rows is refused, and the terminal keeps its size.
    pub fn update_size(&mut self, cols: u32, rows: u32) -> (r: Result<(), SshError>)
        ensures
            valid_size(cols, rows) ==> r is Ok && final(self)@ == (PtyView {
                cols,
                rows,
                ..old(self)@
            }),
            !valid_size(cols, rows) ==> r == Err::<(), SshError>(
                SshError::BadTerminalSize { cols, rows },
            ) && final(self)@ == old(self)@,
    {
        proof {
            use_type_invariant(&*self);
        }
        match check_size(cols, rows) {
            Err(e) => Err(e),
            Ok(_) => {
                self.cols = cols;
                self.rows = rows;
                Ok(())
            },
        }
    }

    /// How many writes wait in the input queue.
    pub fn pending_input(&self) -> (n: usize)
        ensures
            n == self@.input.len(),
            n <= INPUT_CAPACITY,
    {
        proof {
            use_type_invariant(self);
        }
        self.input.len()
    }

    /// How many chunks wait in the output queue.
    pub fn pending_output(&self) -> (n: usize)
        ensures
            n == self@.output.len(),
            n <= OUTPUT_CAPACITY,
    {
        proof {
            use_type_invariant(self);
        }
        self.output.len()
    }

    /// Queues `data` for the remote shell. A closed terminal refuses; no
    /// bytes are no write; more than a million bytes are refused; a full
    /// queue hands the bytes back. Only a queued write changes the terminal.
    pub fn write(&mut self, data: Vec<u8>) -> (r: Result<WriteOutcome, SshError>)
        ensures
            final(self)@ == old(self)@.after_write(data@),
            match old(self)@.write_verdict(data@) {
                WriteVerdict::Closed => r == Err::<WriteOutcome, SshError>(SshError::PtyClosed),
                WriteVerdict::Ignored => r == Ok::<WriteOutcome, SshError>(WriteOutcome::Ignored),
                WriteVerdict::TooLarge => r == Err::<WriteOutcome, SshError>(
                    SshError::PayloadTooLarge { len: data.len() },
                ),
                WriteVerdict::Queued => r == Ok::<WriteOutcome, SshError>(WriteOutcome::Queued),
                WriteVerdict::Full => r == Ok::<WriteOutcome, SshError>(
                    WriteOutcome::Full { data },
                ),
            },
    {
        proof {
            use_type_invariant(&*self);
        }
        if self.closed {
            return Err(SshError::PtyClosed);
        }
        if data.len() == 0 {
            return Ok(WriteOutcome::Ignored);
        }
        if data.len() > MAX_WRITE_LEN {
            return Err(SshError::PayloadTooLarge { len: data.len() });
        }
        if self.input.len() >= INPUT_CAPACITY {
            return Ok(WriteOutcome::Full { data });
        }
        let ghost before = self.input@;
        let mut queue: VecDeque<Vec<u8>> = VecDeque::new();
        std::mem::swap(&mut self.input, &mut queue);
        queue.push_back(data);
        std::mem::swap(&mut self.input, &mut queue);
        assert(chunks(self.input@) =~= chunks(before).push(data@));
        Ok(WriteOutcome::Queued)
    }

    /// The next step of the input pump: on a closed terminal it ends; else
    /// it takes the oldest queued write, or waits where there is none.
    pub fn next_input(&mut self) -> (r: InputStep)
        ensures
            final(self)@ == old(self)@.after_input_step(),
            old(self)@.closed ==> r == InputStep::Stop,
            !old(self)@.closed && old(self)@.input.len() == 0 ==> r == InputStep::Wait,
            !old(self)@.closed && old(self)@.input.len() > 0 ==> (r matches InputStep::Deliver {
                data,
            } && data@ == old(self)@.input[0]),
    {
        proof {
            use_type_invariant(&*self);
        }
        if self.closed {
            self.input_pump = false;
            return InputStep::Stop;
        }
        let ghost before = self.input@;
        let mut queue: VecDeque<Vec<u8>> = VecDeque::new();
        std::mem::swap(&mut self.input, &mut queue);
        let front = queue.pop_front();
        std::mem::swap(&mut self.input, &mut queue);
        match front {
            Some(data) => {
                assert(chunks(self.input@) =~= chunks(before).drop_first());
                InputStep::Deliver { data }
            },
            None => InputStep::Wait,
        }
    }

    /// The step of the output pump on `ev`: on a closed terminal, and when
    /// the peer ends the stream, it ends and the terminal is closed; bytes go
    /// to the output queue, or come back where it is full; anything else
    /// changes nothing.
    pub fn on_channel_event(&mut self, ev: ChannelEvent) -> (r: PumpStep)
        ensures
            final(self)@ == old(self)@.after_event(ev),
            old(self)@.closed || event_ends(ev) ==> r == PumpStep::Stop,
            !old(self)@.closed && !event_ends(ev) && event_bytes(ev) is None ==> r
                == PumpStep::Continue,
            !old(self)@.closed && event_bytes(ev) is Some && old(self)@.output.len()
                < OUTPUT_CAPACITY ==> r == PumpStep::Continue,
            !old(self)@.closed && event_bytes(ev) is Some && old(self)@.output.len()
                >= OUTPUT_CAPACITY ==> (r matches PumpStep::Full { data } && data@ == event_bytes(
                ev,
            )->0),
    {
        proof {
            use_type_invariant(&*self);
        }
        if self.closed {
            self.output_pump = false;
            return PumpStep::Stop;
        }
        match ev {
            ChannelEvent::Data { data } => self.queue_output(data),
            ChannelEvent::ExtendedData { data } => self.queue_output(data),
            ChannelEvent::Eof | ChannelEvent::Close | ChannelEvent::Gone => {
                self.closed = true;
                self.output_pump = false;
                PumpStep::Stop
            },
            ChannelEvent::ExitStatus { code: _ } | ChannelEvent::Idle | ChannelEvent::Other => {
                PumpStep::Continue
            },
        }
    }

    fn queue_output(&mut self, data: Vec<u8>) -> (r: PumpStep)
        requires
            !old(self)@.closed,
        ensures
            old(self)@.output.len() < OUTPUT_CAPACITY ==> r == PumpStep::Continue && final(self)@
                == (PtyView { output: old(self)@.output.push(data@), ..old(self)@ }),
            old(self)@.output.len() >= OUTPUT_CAPACITY ==> r == (PumpStep::Full { data })
                && final(self)@ == old(self)@,
    {
        proof {
            use_type_invariant(&*self);
        }
        if self.output.len() >= OUTPUT_CAPACITY {
            return PumpStep::Full { data };
        }
        let ghost before = self.output@;
        let mut queue: VecDeque<Vec<u8>> = VecDeque::new();
        std::mem::swap(&mut self.output, &mut queue);
        queue.push_back(data);
        std::mem::swap(&mut self.output, &mut queue);
        assert(chunks(self.output@) =~= chunks(before).push(data@));
        PumpStep::Continue
    }

    /// Takes the oldest chunk of output. A closed terminal refuses; where
    /// nothing is queued the result is empty, which says "no data yet".
    pub fn read(&mut self) -> (r: Result<Vec<u8>, SshError>)
        ensures
            final(self)@ == old(self)@.after_read(),
            old(self)@.closed ==> r == Err::<Vec<u8>, SshError>(SshError::PtyClosed),
            !old(self)@.closed && old(self)@.output.len() == 0 ==> r is Ok && r->Ok_0@
                == Seq::<u8>::empty(),
            !old(self)@.closed && old(self)@.output.len() > 0 ==> r is Ok && r->Ok_0@ == old(
                self,
            )@.output[0],
    {
        proof {
            use_type_invariant(&*self);
        }
        if self.closed {
            return Err(SshError::PtyClosed);
        }
        let ghost before = self.output@;
        let mut queue: VecDeque<Vec<u8>> = VecDeque::new();
        std::mem::swap(&mut self.output, &mut queue);
        let front = queue.pop_front();
        std::mem::swap(&mut self.output, &mut queue);
        match front {
            Some(data) => {
                assert(chunks(self.output@) =~= chunks(before).drop_first());
                Ok(data)
            },
            None => Ok(Vec::new()),
        }
    }

    /// Closes the terminal. The result says whether this call closed it:
    /// on a closed terminal nothing changes.
    pub fn close(&mut self) -> (first: bool)
        ensures
            final(self)@ == old(self)@.after_close(),
            first == !old(self)@.closed,
    {
        proof {
            use_type_invariant(&*self);
        }
        if self.closed {
            return false;
        }
        self.closed = true;
        true
    }

    /// Records that a pump has ended, of itself, on an error or a timeout, or
    /// because it was stopped. The terminal is closed from then on.
    pub fn pump_ended(&mut self, pump: Pump)
        ensures
            final(self)@ == old(self)@.after_pump_end(pump),
    {
        proof {
            use_type_invariant(&*self);
        }
        self.closed = true;
        match pump {
            Pump::Input => {
                self.input_pump = false;
            },
            Pump::Output => {
                self.output_pump = false;
            },
        }
    }
}

/// Something that happens to the input queue: a caller writes, or the
/// input pump takes a step.
pub enum InputOp {
    Write { data: Seq<u8> },
    Pump,
}

/// The terminal after one operation on its input queue.
pub open spec fn input_step(v: PtyView, op: InputOp) -> PtyView {
    match op {
        InputOp::Write { data } => v.after_write(data),
        InputOp::Pump => v.after_input_step(),
    }
}

/// The terminal after the operations `ops`, in order.
pub open spec fn after_ops(v: PtyView, ops: Seq<InputOp>) -> PtyView
    decreases ops.len(),
{
    if ops.len() == 0 {
        v
    } else {
        input_step(after_ops(v, ops.drop_last()), ops.last())
    }
}

/// The writes among `ops` that were queued, in order.
pub open spec fn accepted(v: PtyView, ops: Seq<InputOp>) -> Seq<Seq<u8>>
    decreases ops.len(),
{
    if ops.len() == 0 {
        Seq::empty()
    } else {
        let before = after_ops(v, ops.drop_last());
        let earlier = accepted(v, ops.drop_last());
        match ops.last() {
            InputOp::Write { data } => if before.write_verdict(data) is Queued {
                earlier.push(data)
            } else {
                earlier
            },
            InputOp::Pump => earlier,
        }
    }
}

/// What the input pump handed to the channel during `ops`, in order.
pub open spec fn delivered(v: PtyView, ops: Seq<InputOp>) -> Seq<Seq<u8>>
    decreases ops.len(),
{
    if ops.len() == 0 {
        Seq::empty()
    } else {
        let before = after_ops(v, ops.drop_last());
        let earlier = delivered(v, ops.drop_last());
        match ops.last() {
            InputOp::Write { data } => earlier,
            InputOp::Pump => if !before.closed && before.input.len() > 0 {
                earlier.push(before.input[0])
            } else {
                earlier
            },
        }
    }
}

/// All the bytes of some chunks, in order.
pub open spec fn concat(chunks: Seq<Seq<u8>>) -> Seq<u8>
    decreases chunks.len(),
{
    if chunks.len() == 0 {
        Seq::empty()
    } else {
        concat(chunks.drop_last()) + chunks.last()
    }
}

/// Input keeps its order: however writes and pump steps interleave, what
/// the pump has handed to the channel, followed by what still waits, is what
/// waited at the start followed by the queued writes.
pub proof fn law_input_order(v: PtyView, ops: Seq<InputOp>)
    ensures
        delivered(v, ops) + after_ops(v, ops).input == v.input + accepted(v, ops),
        after_ops(v, ops).closed == v.closed,
    decreases ops.len(),
{
    if ops.len() == 0 {
        assert(delivered(v, ops) + v.input == v.input);
        assert(v.input + accepted(v, ops) == v.input);
    } else {
        law_input_order(v, ops.drop_last());
        let before = after_ops(v, ops.drop_last());
        let d = delivered(v, ops.drop_last());
        let a = accepted(v, ops.drop_last());
        match ops.last() {
            InputOp::Write { data } => {
                if before.write_verdict(data) is Queued {
                    assert(d + before.input.push(data) == (d + before.input).push(data));
                    assert(v.input + a.push(data) == (v.input + a).push(data));
                }
            },
            InputOp::Pump => {
                if !before.closed && before.input.len() > 0 {
                    assert(d.push(before.input[0]) + before.input.drop_first() == d
                        + before.input);
                }
            },
        }
    }
}

/// Once the pump has drained an input queue that was empty at the start,
/// the bytes that reached the channel are the bytes of the queued writes,
/// in the order of the writes.
pub proof fn law_input_bytes(v: PtyView, ops: Seq<InputOp>)
    requires
        v.input.len() == 0,
        after_ops(v, ops).input.len() == 0,
    ensures
        delivered(v, ops) == accepted(v, ops),
        concat(delivered(v, ops)) == concat(accepted(v, ops)),
{
    law_input_order(v, ops);
    assert(delivered(v, ops) + after_ops(v, ops).input == delivered(v, ops));
    assert(v.input + accepted(v, ops) == accepted(v, ops));
}

/// Something that happens to the output queue: the output pump sees an
/// event of the channel, or a reader reads.
pub enum OutputOp {
    Event { ev: ChannelEvent },
    Read,
}

/// The terminal after one operation on its output queue.
pub open spec fn output_step(v: PtyView, op: OutputOp) -> PtyView {
    match op {
        OutputOp::Event { ev } => v.after_event(ev),
        OutputOp::Read => v.after_read(),
    }
}

/// The terminal after the operations `ops`, in order.
pub open spec fn after_output_ops(v: PtyView, ops: Seq<OutputOp>) -> PtyView
    decreases ops.len(),
{
    if ops.len() == 0 {
        v
    } else {
        output_step(after_output_ops(v, ops.drop_last()), ops.last())
    }
}

/// The chunks that the pump queued during `ops`, in order.
pub open spec fn queued(v: PtyView, ops: Seq<OutputOp>) -> Seq<Seq<u8>>
    decreases ops.len(),
{
    if ops.len() == 0 {
        Seq::empty()
    } else {
        let before = after_output_ops(v, ops.drop_last());
        let earlier = queued(v, ops.drop_last());
        match ops.last() {
            OutputOp::Event { ev } => if !before.closed && !event_ends(ev) && event_bytes(ev) is Some
                && before.output.len() < OUTPUT_CAPACITY {
                earlier.push(event_bytes(ev)->0)
            } else {
                earlier
            },
            OutputOp::Read => earlier,
        }
    }
}

/// The chunks that readers got during `ops`, in order.
pub open spec fn read_out(v: PtyView, ops: Seq<OutputOp>) -> Seq<Seq<u8>>
    decreases ops.len(),
{
    if ops.len() == 0 {
        Seq::empty()
    } else {
        let before = after_output_ops(v, ops.drop_last());
        let earlier = read_out(v, ops.drop_last());
        match ops.last() {
            OutputOp::Event { ev } => earlier,
            OutputOp::Read => if !before.closed && before.output.len() > 0 {
                earlier.push(before.output[0])
            } else {
                earlier
            },
        }
    }
}

/// Output keeps its order: however events and reads interleave, what was
/// read, followed by what still waits, is what waited at the start followed
/// by what the pump queued.
pub proof fn law_output_queue_order(v: PtyView, ops: Seq<OutputOp>)
    ensures
        read_out(v, ops) + after_output_ops(v, ops).output == v.output + queued(v, ops),
    decreases ops.len(),
{
    if ops.len() == 0 {
        assert(read_out(v, ops) + v.output == v.output);
        assert(v.output + queued(v, ops) == v.output);
    } else {
        law_output_queue_order(v, ops.drop_last());
        let before = after_output_ops(v, ops.drop_last());
        let r = read_out(v, ops.drop_last());
        let q = queued(v, ops.drop_last());
        match ops.last() {
            OutputOp::Event { ev } => {
                if !before.closed && !event_ends(ev) && event_bytes(ev) is Some
                    && before.output.len() < OUTPUT_CAPACITY {
                    let data = event_bytes(ev)->0;
                    assert(r + before.output.push(data) == (r + before.output).push(data));
                    assert(v.output + q.push(data) == (v.output + q).push(data));
                }
            },
            OutputOp::Read => {
                if !before.closed && before.output.len() > 0 {
                    assert(r.push(before.output[0]) + before.output.drop_first() == r
                        + before.output);
                }
            },
        }
    }
}

/// The queues never hold more than their capacities, whatever happens.
pub proof fn law_queues_stay_bounded(v: PtyView, data: Seq<u8>, ev: ChannelEvent, pump: Pump)
    requires
        v.wf(),
    ensures
        v.after_write(data).wf(),
        v.after_input_step().wf(),
        v.after_event(ev).wf(),
        v.after_read().wf(),
        v.after_close().wf(),
        v.after_pump_end(pump).wf(),
{
}

/// A write of more than a million bytes fails and queues nothing.
pub proof fn law_large_write(v: PtyView, data: Seq<u8>)
    requires
        !v.closed,
        data.len() > MAX_WRITE_LEN,
    ensures
        v.write_verdict(data) is TooLarge,
        v.after_write(data) == v,
{
}

/// Closing twice is closing once.
pub proof fn law_close_idempotent(v: PtyView)
    ensures
        v.after_close().after_close() == v.after_close(),
        v.after_close().closed,
{
}

/// A closed terminal takes no write and queues no output.
pub proof fn law_closed_is_final(v: PtyView, data: Seq<u8>, ev: ChannelEvent)
    requires
        v.closed,
    ensures
        v.write_verdict(data) is Closed,
        v.after_write(data) == v,
        v.after_read() == v,
        v.after_event(ev).output == v.output,
        v.after_event(ev).closed,
{
}

} // verus!

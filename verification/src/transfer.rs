//! The transfer driver: a state machine that walks a payload in fixed-size
//! chunks, hands each chunk to the packet framer, and records the status
//! events a transfer emits. The machine decides; the surrounding process
//! opens the raw channel, sends the frames the machine builds, and feeds
//! every outcome back in. The ghost event trace ties each phase to exactly
//! the events that a run reaching it has emitted.

use vstd::prelude::*;
use crate::frame;

verus! {

/// Number of data chunks a payload of `len` bytes is split into:
/// the least `n` with `n * CHUNK_SIZE >= len` (zero for an empty payload).
pub open spec fn chunk_count(len: nat) -> nat {
    (((len as int) + (crate::CHUNK_SIZE as int) - 1) / (crate::CHUNK_SIZE as int)) as nat
}

/// The bytes of data chunk `i`: payload bytes `i * CHUNK_SIZE` up to the
/// next chunk boundary or the end of the payload, whichever comes first.
pub open spec fn chunk_seq(payload: Seq<u8>, i: nat) -> Seq<u8> {
    let start = i * (crate::CHUNK_SIZE as nat);
    let end = if start + (crate::CHUNK_SIZE as nat) <= payload.len() {
        start + (crate::CHUNK_SIZE as nat)
    } else {
        payload.len()
    };
    payload.subrange(start as int, end as int)
}

/// `chunk_count` is the ceiling of `len / CHUNK_SIZE`: it covers the whole
/// payload, and with one chunk fewer some byte would be left over. A payload
/// of `L > 0` bytes therefore yields exactly `ceil(L / CHUNK_SIZE)` chunks,
/// and an empty payload yields none.
pub proof fn lemma_chunk_count_bounds(len: nat)
    ensures
        len == 0 ==> chunk_count(len) == 0,
        len > 0 ==> chunk_count(len) >= 1,
        chunk_count(len) * (crate::CHUNK_SIZE as nat) >= len,
        len > 0 ==> (chunk_count(len) - 1) * (crate::CHUNK_SIZE as nat) < len,
{
    let c = crate::CHUNK_SIZE as int;
    let x = (len + (crate::CHUNK_SIZE as nat) - 1) as int;
    vstd::arithmetic::div_mod::lemma_fundamental_div_mod(x, c);
    vstd::arithmetic::div_mod::lemma_mod_division_less_than_divisor(x, c);
}

/// A status event, as the driver reports progress and failure.
#[derive(Debug)]
pub enum Status {
    /// The data chunk with this sequence number was transmitted.
    ChunkSent(u32),
    /// Transmitting the data chunk with this sequence number failed; the
    /// transfer aborts and the cause is carried along.
    SendFailed(u32, String),
    /// The transfer finished: every data chunk went out and the terminal
    /// frame was handed to the channel.
    TransferComplete,
    /// The transport channel could not be opened; no frame was sent.
    ChannelOpenFailed(String),
}

impl Status {
    /// The display string of this event, as the status stream carries it.
    pub open spec fn message_spec(&self) -> Seq<char> {
        match self {
            Status::ChunkSent(i) => "Sent chunk "@ + crate::digits::dec_str(*i as nat),
            Status::SendFailed(i, cause) => "Failed to send chunk "@ + crate::digits::dec_str(
                *i as nat,
            ) + ": "@ + cause@,
            Status::TransferComplete => "All chunks sent"@,
            Status::ChannelOpenFailed(cause) => "Failed to open transport channel: "@ + cause@,
        }
    }

    /// Renders this event as its display string.
    pub fn message(&self) -> (m: String)
        ensures
            m@ == self.message_spec(),
    {
        match self {
            Status::ChunkSent(i) => {
                let mut m = String::from_str("Sent chunk ");
                let num = crate::digits::to_decimal(*i as usize);
                m.append(num.as_str());
                m
            },
            Status::SendFailed(i, cause) => {
                let mut m = String::from_str("Failed to send chunk ");
                let num = crate::digits::to_decimal(*i as usize);
                m.append(num.as_str());
                m.append(": ");
                m.append(cause.as_str());
                m
            },
            Status::TransferComplete => String::from_str("All chunks sent"),
            Status::ChannelOpenFailed(cause) => {
                let mut m = String::from_str("Failed to open transport channel: ");
                m.append(cause.as_str());
                m
            },
        }
    }
}

/// The immediate acknowledgment the entry point returns once a transfer
/// task is scheduled.
pub fn ack_message(task_text: &str) -> (m: String)
    ensures
        m@ == "Started sending text: "@ + task_text@,
{
    let mut m = String::from_str("Started sending text: ");
    m.append(task_text);
    m
}

/// Where a transfer stands.
#[derive(Clone, Copy, Debug, PartialEq, Eq, Structural)]
pub enum Phase {
    /// Waiting for the transport channel to be opened.
    Opening,
    /// The channel is open; data chunk with this sequence number is next.
    Sending(u32),
    /// All data chunks went out; the terminal frame is next.
    Terminal,
    /// The terminal frame was handed to the channel; nothing more to do.
    Complete,
    /// Sending the data chunk with this sequence number failed; aborted.
    Aborted(u32),
    /// The transport channel could not be opened; nothing was sent.
    OpenFailed,
}

/// The fixed parameters shared by every frame of one transfer.
pub struct SessionConfig {
    pub src_addr: [u8; 4],
    pub src_port: u16,
    pub dst_addr: [u8; 4],
    pub dst_port: u16,
    /// Opaque session identifier, exactly 16 bytes.
    pub session_id: Vec<u8>,
    /// Payload-interpretation signal, exactly 2 bytes.
    pub format_signal: Vec<u8>,
    /// Auxiliary data carried in every frame, exactly 14 bytes.
    pub aux_data: Vec<u8>,
}

impl SessionConfig {
    /// The fixed-width fields have their required widths.
    pub open spec fn wf(&self) -> bool {
        &&& self.session_id@.len() == frame::SESSION_ID_LEN
        &&& self.format_signal@.len() == frame::FORMAT_SIGNAL_LEN
        &&& self.aux_data@.len() == frame::AUX_DATA_LEN
    }
}

/// The first `n` chunk-sent events, in sequence order.
pub open spec fn sent_events(n: nat) -> Seq<Status> {
    Seq::new(n, |k: int| Status::ChunkSent(k as u32))
}

/// One transfer session: its fixed parameters, its payload, where it
/// stands, and (as ghost state) the trace of events it has emitted.
pub struct Transfer {
    pub config: SessionConfig,
    pub payload: Vec<u8>,
    pub phase: Phase,
    pub events: Ghost<Seq<Status>>,
}

impl Transfer {
    /// Number of data chunks of this transfer's payload.
    pub open spec fn count(&self) -> nat {
        chunk_count(self.payload@.len())
    }

    /// Well-formedness: the config is well formed, the chunk counter fits
    /// its 32-bit width, and the event trace is exactly what a run that
    /// reached the current phase has emitted — chunk-sent events contiguous
    /// from 0, closed by the one failure or completion event if the phase
    /// is terminal.
    pub open spec fn inv(&self) -> bool {
        &&& self.config.wf()
        &&& self.count() <= 0xFFFF_FFFF
        &&& match self.phase {
            Phase::Opening => self.events@ == Seq::<Status>::empty(),
            Phase::Sending(i) => (i as nat) < self.count() && self.events@ == sent_events(
                i as nat,
            ),
            Phase::Terminal => self.events@ == sent_events(self.count()),
            Phase::Complete => self.events@ == sent_events(self.count()).push(
                Status::TransferComplete,
            ),
            Phase::Aborted(i) => (i as nat) < self.count() && self.events@.len() == i + 1
                && self.events@.take(i as int) == sent_events(i as nat) && (self.events@[
                i as int
            ] matches Status::SendFailed(s, _) && s == i),
            Phase::OpenFailed => self.events@.len() == 1 && (self.events@[0] matches
                Status::ChannelOpenFailed(_)),
        }
    }

    /// A fresh transfer, waiting for its channel, with nothing emitted yet.
    pub fn new(config: SessionConfig, payload: Vec<u8>) -> (t: Transfer)
        requires
            config.wf(),
            chunk_count(payload@.len()) <= 0xFFFF_FFFF,
        ensures
            t.inv(),
            t.phase == Phase::Opening,
            t.config == config,
            t.payload == payload,
            t.events@ == Seq::<Status>::empty(),
    {
        Transfer { config, payload, phase: Phase::Opening, events: Ghost(Seq::empty()) }
    }

    /// Number of data chunks, as the 32-bit counter the frames carry.
    pub fn num_chunks(&self) -> (n: u32)
        requires
            self.inv(),
        ensures
            n as nat == self.count(),
    {
        proof {
            lemma_chunk_count_bounds(self.payload@.len());
            assert(self.count() * (crate::CHUNK_SIZE as nat) <= 0xFFFF_FFFF * (
            crate::CHUNK_SIZE as nat)) by (nonlinear_arith)
                requires
                    self.count() <= 0xFFFF_FFFF,
            ;
        }
        let len = self.payload.len();
        (((len as u64) + ((crate::CHUNK_SIZE as u64) - 1)) / (crate::CHUNK_SIZE as u64)) as u32
    }

    /// The transfer has reached a terminal phase: nothing more will be sent
    /// and no further event will be emitted.
    pub fn done(&self) -> (b: bool)
        ensures
            b == (self.phase is Complete || self.phase is Aborted || self.phase is OpenFailed),
    {
        match self.phase {
            Phase::Complete => true,
            Phase::Aborted(_) => true,
            Phase::OpenFailed => true,
            _ => false,
        }
    }

    /// The channel is open: move to the first chunk, or straight to the
    /// terminal frame when the payload is empty. An empty transfer thus
    /// sends zero data frames and still sends the one terminal frame.
    pub fn on_channel_opened(&mut self)
        requires
            old(self).inv(),
            old(self).phase is Opening,
        ensures
            final(self).inv(),
            final(self).config == old(self).config,
            final(self).payload == old(self).payload,
            final(self).events == old(self).events,
            final(self).phase == (if old(self).count() == 0 {
                Phase::Terminal
            } else {
                Phase::Sending(0)
            }),
    {
        proof {
            lemma_chunk_count_bounds(self.payload@.len());
        }
        if self.payload.len() == 0 {
            self.phase = Phase::Terminal;
            proof {
                assert(self.events@ =~= sent_events(0));
            }
        } else {
            self.phase = Phase::Sending(0);
            proof {
                assert(self.events@ =~= sent_events(0));
            }
        }
    }

    /// The channel could not be opened: emit the one channel-open-failed
    /// event and end the session without sending any frame.
    pub fn on_channel_open_failed(&mut self, cause: String) -> (ev: Status)
        requires
            old(self).inv(),
            old(self).phase is Opening,
        ensures
            final(self).inv(),
            final(self).config == old(self).config,
            final(self).payload == old(self).payload,
            final(self).phase == Phase::OpenFailed,
            ev == Status::ChannelOpenFailed(cause),
            final(self).events@ == old(self).events@.push(ev),
    {
        self.phase = Phase::OpenFailed;
        let ev = Status::ChannelOpenFailed(cause);
        proof {
            self.events@ = self.events@.push(ev);
        }
        ev
    }

    /// The frame to transmit next: in a sending phase, the frame of the
    /// pending data chunk with its sequence number in the 8-byte big-endian
    /// sequence field; in the terminal phase, the end-of-transfer frame with
    /// the sentinel sequence field and an empty chunk.
    pub fn next_frame(&self) -> (f: Vec<u8>)
        requires
            self.inv(),
            self.phase is Sending || self.phase is Terminal,
        ensures
            (self.phase matches Phase::Sending(i) ==> f@ == frame::frame_bytes(
                self.config.src_port,
                self.config.dst_port,
                self.config.session_id@,
                frame::be64(i as u64),
                self.config.format_signal@,
                self.config.aux_data@,
                chunk_seq(self.payload@, i as nat),
            )),
            (self.phase is Terminal ==> f@ == frame::frame_bytes(
                self.config.src_port,
                self.config.dst_port,
                self.config.session_id@,
                frame::be64(crate::END_SIG),
                self.config.format_signal@,
                self.config.aux_data@,
                Seq::<u8>::empty(),
            )),
    {
        match self.phase {
            Phase::Sending(i) => {
                let chunk = self.chunk_at(i);
                let seq_field = frame::u64_to_be(i as u64);
                let mut buffer: Vec<u8> = vec![0u8; frame::FIXED_FRAME_LEN + chunk.len()];
                frame::build_frame(
                    &mut buffer,
                    self.config.src_port,
                    self.config.dst_port,
                    &self.config.session_id,
                    &seq_field,
                    &self.config.format_signal,
                    &self.config.aux_data,
                    &chunk,
                );
                buffer
            },
            _ => {
                let chunk: Vec<u8> = Vec::new();
                let seq_field = frame::u64_to_be(crate::END_SIG);
                let mut buffer: Vec<u8> = vec![0u8; frame::FIXED_FRAME_LEN];
                frame::build_frame(
                    &mut buffer,
                    self.config.src_port,
                    self.config.dst_port,
                    &self.config.session_id,
                    &seq_field,
                    &self.config.format_signal,
                    &self.config.aux_data,
                    &chunk,
                );
                buffer
            },
        }
    }

    /// A fresh copy of data chunk `i` of the payload.
    pub fn chunk_at(&self, i: u32) -> (chunk: Vec<u8>)
        requires
            self.inv(),
            (i as nat) < self.count(),
        ensures
            chunk@ == chunk_seq(self.payload@, i as nat),
            chunk@.len() <= crate::CHUNK_SIZE,
    {
        let plen = self.payload.len();
        proof {
            lemma_chunk_count_bounds(self.payload@.len());
            lemma_chunk_start_in_range(self.payload@.len(), i as nat);
        }
        let start: usize = (i as usize) * crate::CHUNK_SIZE;
        let end: usize = if plen - start > crate::CHUNK_SIZE {
            start + crate::CHUNK_SIZE
        } else {
            plen
        };
        frame::copy_range(&self.payload, start, end)
    }

    /// The pending data chunk went out: emit chunk-sent with its sequence
    /// number and advance — to the next chunk, or to the terminal frame if
    /// this was the last one.
    pub fn on_chunk_sent(&mut self) -> (ev: Status)
        requires
            old(self).inv(),
            old(self).phase is Sending,
        ensures
            final(self).inv(),
            final(self).config == old(self).config,
            final(self).payload == old(self).payload,
            (old(self).phase matches Phase::Sending(i) ==> {
                &&& ev == Status::ChunkSent(i)
                &&& final(self).events@ == old(self).events@.push(ev)
                &&& final(self).phase == (if (i as nat) + 1 < old(self).count() {
                    Phase::Sending((i + 1) as u32)
                } else {
                    Phase::Terminal
                })
            }),
    {
        let i = match self.phase {
            Phase::Sending(i) => i,
            _ => 0,
        };
        let n = self.num_chunks();
        let ev = Status::ChunkSent(i);
        proof {
            self.events@ = self.events@.push(ev);
            assert(self.events@ =~= sent_events((i + 1) as nat));
        }
        if i + 1 < n {
            self.phase = Phase::Sending(i + 1);
        } else {
            self.phase = Phase::Terminal;
        }
        ev
    }

    /// Sending the pending data chunk failed: emit send-failed with its
    /// sequence number and the cause, and abort the transfer — the
    /// remaining chunks are not sent and no terminal frame follows.
    pub fn on_chunk_send_failed(&mut self, cause: String) -> (ev: Status)
        requires
            old(self).inv(),
            old(self).phase is Sending,
        ensures
            final(self).inv(),
            final(self).config == old(self).config,
            final(self).payload == old(self).payload,
            (old(self).phase matches Phase::Sending(i) ==> {
                &&& ev == Status::SendFailed(i, cause)
                &&& final(self).events@ == old(self).events@.push(ev)
                &&& final(self).phase == Phase::Aborted(i)
            }),
    {
        let i = match self.phase {
            Phase::Sending(i) => i,
            _ => 0,
        };
        let ev = Status::SendFailed(i, cause);
        proof {
            self.events@ = self.events@.push(ev);
            assert(self.events@.take(i as int) =~= sent_events(i as nat));
        }
        self.phase = Phase::Aborted(i);
        ev
    }

    /// The terminal frame was handed to the channel: emit the completion
    /// event and finish. The outcome of that last send is deliberately
    /// ignored — completion is announced whether or not the terminal frame
    /// itself went out, a best-effort termination signal.
    pub fn on_terminal_sent(&mut self, send_ok: bool) -> (ev: Status)
        requires
            old(self).inv(),
            old(self).phase is Terminal,
        ensures
            final(self).inv(),
            final(self).config == old(self).config,
            final(self).payload == old(self).payload,
            final(self).phase == Phase::Complete,
            ev == Status::TransferComplete,
            final(self).events@ == old(self).events@.push(ev),
    {
        let _ = send_ok;
        let ev = Status::TransferComplete;
        proof {
            self.events@ = self.events@.push(ev);
        }
        self.phase = Phase::Complete;
        ev
    }
}

/// A chunk index below the chunk count starts strictly inside the payload.
pub proof fn lemma_chunk_start_in_range(len: nat, i: nat)
    requires
        i < chunk_count(len),
    ensures
        i * (crate::CHUNK_SIZE as nat) < len,
{
    lemma_chunk_count_bounds(len);
    let c = crate::CHUNK_SIZE as nat;
    assert(i * c <= (chunk_count(len) - 1) * c) by (nonlinear_arith)
        requires
            i <= chunk_count(len) - 1,
            c > 0,
    ;
}

/// The first `n` data chunks of `payload`, concatenated in sequence order.
pub open spec fn chunks_concat(payload: Seq<u8>, n: nat) -> Seq<u8>
    decreases n,
{
    if n == 0 {
        Seq::empty()
    } else {
        chunks_concat(payload, (n - 1) as nat) + chunk_seq(payload, (n - 1) as nat)
    }
}

/// The first `n` chunks, in order, are exactly the first
/// `min(n * CHUNK_SIZE, len)` bytes of the payload.
pub proof fn lemma_chunks_prefix(payload: Seq<u8>, n: nat)
    requires
        n <= chunk_count(payload.len()),
    ensures
        chunks_concat(payload, n) == payload.subrange(
            0,
            if n * (crate::CHUNK_SIZE as nat) <= payload.len() {
                (n * (crate::CHUNK_SIZE as nat)) as int
            } else {
                payload.len() as int
            },
        ),
    decreases n,
{
    let c = crate::CHUNK_SIZE as nat;
    if n == 0 {
        assert(chunks_concat(payload, 0) =~= payload.subrange(0, 0));
    } else {
        lemma_chunks_prefix(payload, (n - 1) as nat);
        lemma_chunk_start_in_range(payload.len(), (n - 1) as nat);
        assert((n - 1) * c == n * c - c) by (nonlinear_arith);
        assert(chunks_concat(payload, n) =~= payload.subrange(
            0,
            if n * c <= payload.len() {
                (n * c) as int
            } else {
                payload.len() as int
            },
        ));
    }
}

/// The data chunks partition the payload: sent in sequence order
/// `0, 1, ..., count - 1`, their bytes concatenate back to exactly the
/// whole payload — nothing missing, nothing repeated.
pub proof fn lemma_chunks_reassemble(payload: Seq<u8>)
    ensures
        chunks_concat(payload, chunk_count(payload.len())) == payload,
{
    let len = payload.len();
    let count = chunk_count(len);
    lemma_chunk_count_bounds(len);
    lemma_chunks_prefix(payload, count);
    if count * (crate::CHUNK_SIZE as nat) <= len {
        assert(payload.subrange(0, len as int) =~= payload);
    } else {
        assert(payload.subrange(0, len as int) =~= payload);
    }
}

/// In a completed transfer the event trace is exactly: chunk-sent for every
/// sequence number `0, 1, ..., count - 1` in order — contiguous, no gap, no
/// repeat — followed by the single completion event. The terminal frame is
/// built and handed over exactly once, in the one step that leads here.
pub proof fn lemma_complete_trace(t: &Transfer)
    requires
        t.inv(),
        t.phase is Complete,
    ensures
        t.events@.len() == t.count() + 1,
        forall|k: int| 0 <= k < t.count() ==> t.events@[k] == Status::ChunkSent(k as u32),
        t.events@[t.count() as int] == Status::TransferComplete,
{
}

/// A transfer of an empty payload never stands at a data chunk: it has no
/// data frame to send, and when it completes its whole trace is the single
/// completion event.
pub proof fn lemma_empty_payload_trace(t: &Transfer)
    requires
        t.inv(),
        t.payload@.len() == 0,
    ensures
        !(t.phase is Sending),
        !(t.phase is Aborted),
        t.phase is Complete ==> t.events@ =~= seq![Status::TransferComplete],
{
}

/// When the channel could not be opened, the whole trace is the single
/// channel-open-failed event: no chunk-sent, no completion, no data frame.
pub proof fn lemma_open_failed_trace(t: &Transfer)
    requires
        t.inv(),
        t.phase is OpenFailed,
    ensures
        t.events@.len() == 1,
        t.events@[0] is ChannelOpenFailed,
        forall|k: int| 0 <= k < t.events@.len() ==> !(t.events@[k] is ChunkSent),
        forall|k: int| 0 <= k < t.events@.len() ==> !(t.events@[k] is TransferComplete),
{
}

/// When a transfer aborted on data chunk `i`, the trace is chunk-sent for
/// `0, ..., i - 1` in order, then the one send-failed event naming `i`, and
/// nothing after it: no later chunk-sent and no completion event.
pub proof fn lemma_abort_trace(t: &Transfer, i: u32)
    requires
        t.inv(),
        t.phase == Phase::Aborted(i),
    ensures
        t.events@.len() == i + 1,
        forall|k: int| 0 <= k < i ==> t.events@[k] == Status::ChunkSent(k as u32),
        t.events@[i as int] is SendFailed,
        forall|k: int| 0 <= k < t.events@.len() ==> !(t.events@[k] is TransferComplete),
{
    assert forall|k: int| 0 <= k < i implies t.events@[k] == Status::ChunkSent(k as u32) by {
        assert(t.events@.take(i as int)[k] == t.events@[k]);
    }
}

} // verus!

//! Frames: the unit of the control connection.
//!
//! A frame is a header of eleven bytes (one of kind, two of type, four
//! of transaction id, four of payload length, each number big-endian)
//! followed by exactly as many payload bytes as the header says.

use crate::wire::lemma_u16_bytes_of_value;
use crate::wire::lemma_u16_round_trip;
use crate::wire::lemma_u32_bytes_of_value;
use crate::wire::lemma_u32_round_trip;
use crate::wire::put_bytes;
use crate::wire::put_u16;
use crate::wire::put_u32;
use crate::wire::u16_at;
use crate::wire::u16_bytes;
use crate::wire::u16_value;
use crate::wire::u32_at;
use crate::wire::u32_bytes;
use crate::wire::u32_value;
use vstd::prelude::*;
use vstd::slice::slice_subrange;
use vstd::slice::slice_to_vec;

verus! {

/// The length of a frame's header.
pub const HEADER_LEN: usize = 11;

/// The byte that marks a request.
pub const KIND_REQUEST: u8 = 0;

/// The byte that marks a response.
pub const KIND_RESPONSE: u8 = 1;

/// Why a stream of bytes yields no frame.
#[derive(Clone, Copy, Debug, PartialEq, Eq, Structural)]
pub enum FrameError {
    /// The bytes end before the frame does.
    TruncatedFrame,
    /// The payload is longer than the limit allows.
    FrameTooLarge,
    /// The first byte is neither that of a request nor that of a response.
    UnknownKind,
}

/// Whether a frame asks or answers.
#[derive(Clone, Copy, Debug, PartialEq, Eq, Structural)]
pub enum FrameKind {
    Request,
    Response,
}

/// One frame. `tx_id` ties a response to the request it answers.
#[derive(Clone, Debug, PartialEq, Eq)]
pub struct Frame {
    pub kind: FrameKind,
    pub msg_type: u16,
    pub tx_id: u32,
    pub payload: Vec<u8>,
}

/// A [`Frame`] as contracts see it.
pub struct FrameView {
    pub kind: FrameKind,
    pub msg_type: u16,
    pub tx_id: u32,
    pub payload: Seq<u8>,
}

impl View for Frame {
    type V = FrameView;

    open spec fn view(&self) -> FrameView {
        FrameView {
            kind: self.kind,
            msg_type: self.msg_type,
            tx_id: self.tx_id,
            payload: self.payload@,
        }
    }
}

/// The byte that stands for a kind.
pub open spec fn kind_code(kind: FrameKind) -> u8 {
    match kind {
        FrameKind::Request => KIND_REQUEST,
        FrameKind::Response => KIND_RESPONSE,
    }
}

/// The kind that a byte stands for, if any.
pub open spec fn kind_of(code: u8) -> Option<FrameKind> {
    if code == KIND_REQUEST {
        Some(FrameKind::Request)
    } else if code == KIND_RESPONSE {
        Some(FrameKind::Response)
    } else {
        None
    }
}

/// Whether the length of the payload can be written in the header.
pub open spec fn frame_fits(f: FrameView) -> bool {
    f.payload.len() <= u32::MAX
}

/// A frame on the wire.
pub open spec fn frame_bytes(f: FrameView) -> Seq<u8> {
    seq![kind_code(f.kind)] + u16_bytes(f.msg_type) + u32_bytes(f.tx_id) + u32_bytes(
        f.payload.len() as u32,
    ) + f.payload
}

/// What reading a frame at the start of `b` gives, payloads being limited
/// to `max_len` bytes: the frame and the number of bytes it took. Each
/// field is judged as soon as its bytes are there: the kind at the first
/// byte, the length at the end of the header.
pub open spec fn frame_parse(b: Seq<u8>, max_len: u32) -> Result<(FrameView, nat), FrameError> {
    if b.len() < 1 {
        Err(FrameError::TruncatedFrame)
    } else if kind_of(b[0]) is None {
        Err(FrameError::UnknownKind)
    } else if b.len() < HEADER_LEN {
        Err(FrameError::TruncatedFrame)
    } else if u32_value(b.subrange(7, 11)) > max_len {
        Err(FrameError::FrameTooLarge)
    } else if b.len() < HEADER_LEN + u32_value(b.subrange(7, 11)) {
        Err(FrameError::TruncatedFrame)
    } else {
        Ok(
            (
                FrameView {
                    kind: kind_of(b[0]).unwrap(),
                    msg_type: u16_value(b.subrange(1, 3)),
                    tx_id: u32_value(b.subrange(3, 7)),
                    payload: b.subrange(
                        HEADER_LEN as int,
                        HEADER_LEN + u32_value(b.subrange(7, 11)),
                    ),
                },
                (HEADER_LEN + u32_value(b.subrange(7, 11))) as nat,
            ),
        )
    }
}

/// How many bytes are missing for the frame at the start of `b` to be
/// whole: none where it is whole, the rest of the header where the header
/// is not, the rest of the frame where the header is there.
pub open spec fn frame_missing(b: Seq<u8>, max_len: u32) -> Result<nat, FrameError> {
    match frame_parse(b, max_len) {
        Ok(_) => Ok(0nat),
        Err(FrameError::TruncatedFrame) => if b.len() < HEADER_LEN {
            Ok((HEADER_LEN - b.len()) as nat)
        } else {
            Ok((HEADER_LEN + u32_value(b.subrange(7, 11)) - b.len()) as nat)
        },
        Err(e) => Err(e),
    }
}

impl FrameKind {
    /// The byte that stands for this kind.
    pub fn code(self) -> (c: u8)
        ensures
            c == kind_code(self),
    {
        match self {
            FrameKind::Request => KIND_REQUEST,
            FrameKind::Response => KIND_RESPONSE,
        }
    }

    /// The kind that `code` stands for.
    pub fn from_code(code: u8) -> (r: Result<FrameKind, FrameError>)
        ensures
            r == match kind_of(code) {
                Some(kind) => Ok::<FrameKind, FrameError>(kind),
                None => Err::<FrameKind, FrameError>(FrameError::UnknownKind),
            },
    {
        match code {
            KIND_REQUEST => Ok(FrameKind::Request),
            KIND_RESPONSE => Ok(FrameKind::Response),
            _ => Err(FrameError::UnknownKind),
        }
    }
}

impl Frame {
    /// The length of the payload; `None` where no header can hold it.
    pub fn length(&self) -> (n: Option<u32>)
        ensures
            n == if frame_fits(self@) {
                Some(self@.payload.len() as u32)
            } else {
                None
            },
    {
        if self.payload.len() > 0xffff_ffff {
            None
        } else {
            Some(self.payload.len() as u32)
        }
    }

    /// The frame as bytes. A payload of more than `u32::MAX` bytes is
    /// refused.
    pub fn encode(&self) -> (r: Result<Vec<u8>, FrameError>)
        ensures
            frame_fits(self@) ==> (r matches Ok(bytes) && bytes@ == frame_bytes(self@)),
            !frame_fits(self@) ==> r == Err::<Vec<u8>, FrameError>(FrameError::FrameTooLarge),
    {
        let length = match self.length() {
            Some(length) => length,
            None => {
                return Err(FrameError::FrameTooLarge);
            },
        };
        let mut out: Vec<u8> = Vec::new();
        out.push(self.kind.code());
        put_u16(&mut out, self.msg_type);
        put_u32(&mut out, self.tx_id);
        put_u32(&mut out, length);
        put_bytes(&mut out, self.payload.as_slice());
        assert(out@ =~= frame_bytes(self@));
        Ok(out)
    }

    /// Says how many bytes to read next so that the frame at the start
    /// of `bytes` becomes whole, for a reader that reads no byte beyond
    /// the frame; zero when the frame is whole. A start that no frame has
    /// is an error.
    pub fn missing(bytes: &[u8], max_len: u32) -> (r: Result<u64, FrameError>)
        ensures
            r == match frame_missing(bytes@, max_len) {
                Ok(n) => Ok::<u64, FrameError>(n as u64),
                Err(e) => Err::<u64, FrameError>(e),
            },
            frame_missing(bytes@, max_len) matches Ok(n) ==> n <= HEADER_LEN + max_len,
    {
        if bytes.len() < 1 {
            return Ok(HEADER_LEN as u64);
        }
        match FrameKind::from_code(bytes[0]) {
            Ok(_) => {},
            Err(e) => {
                return Err(e);
            },
        }
        if bytes.len() < HEADER_LEN {
            return Ok((HEADER_LEN - bytes.len()) as u64);
        }
        let length: u32 = u32_at(bytes, 7);
        if length > max_len {
            return Err(FrameError::FrameTooLarge);
        }
        let rest: usize = bytes.len() - HEADER_LEN;
        if (rest as u64) < length as u64 {
            Ok(length as u64 - rest as u64)
        } else {
            Ok(0)
        }
    }

    /// Reads one frame from the start of `bytes`, and says how many bytes
    /// it took. A frame is given whole or not at all.
    pub fn decode(bytes: &[u8], max_len: u32) -> (r: Result<(Frame, usize), FrameError>)
        ensures
            match frame_parse(bytes@, max_len) {
                Ok((f, n)) => r matches Ok((frame, used)) && frame@ == f && used == n,
                Err(e) => r == Err::<(Frame, usize), FrameError>(e),
            },
    {
        if bytes.len() < 1 {
            return Err(FrameError::TruncatedFrame);
        }
        let kind = match FrameKind::from_code(bytes[0]) {
            Ok(kind) => kind,
            Err(e) => {
                return Err(e);
            },
        };
        if bytes.len() < HEADER_LEN {
            return Err(FrameError::TruncatedFrame);
        }
        let msg_type: u16 = u16_at(bytes, 1);
        let tx_id: u32 = u32_at(bytes, 3);
        let length: u32 = u32_at(bytes, 7);
        if length > max_len {
            return Err(FrameError::FrameTooLarge);
        }
        if bytes.len() - HEADER_LEN < length as usize {
            return Err(FrameError::TruncatedFrame);
        }
        let end: usize = HEADER_LEN + length as usize;
        let payload = slice_to_vec(slice_subrange(bytes, HEADER_LEN, end));
        Ok((Frame { kind, msg_type, tx_id, payload }, end))
    }
}

/// A frame whose payload is within the limit is read back as it was
/// written, whatever follows it.
pub proof fn lemma_frame_round_trip(f: FrameView, max_len: u32, rest: Seq<u8>)
    requires
        f.payload.len() <= max_len,
    ensures
        frame_bytes(f).len() == HEADER_LEN + f.payload.len(),
        frame_parse(frame_bytes(f) + rest, max_len) == Ok::<(FrameView, nat), FrameError>(
            (f, frame_bytes(f).len()),
        ),
{
    let b = frame_bytes(f) + rest;
    let n = f.payload.len() as u32;
    assert(b.subrange(1, 3) =~= u16_bytes(f.msg_type) + Seq::<u8>::empty());
    assert(b.subrange(3, 7) =~= u32_bytes(f.tx_id) + Seq::<u8>::empty());
    assert(b.subrange(7, 11) =~= u32_bytes(n) + Seq::<u8>::empty());
    lemma_u16_round_trip(f.msg_type, Seq::empty());
    lemma_u32_round_trip(f.tx_id, Seq::empty());
    lemma_u32_round_trip(n, Seq::empty());
    assert(b.subrange(HEADER_LEN as int, HEADER_LEN + n) =~= f.payload);
}

/// Bytes that read as a frame hold the whole frame, and begin with the
/// way to write it: a frame is never made of less than all its bytes.
pub proof fn lemma_frame_bytes_of_parse(b: Seq<u8>, max_len: u32)
    requires
        frame_parse(b, max_len) is Ok,
    ensures
        frame_parse(b, max_len).unwrap().1 <= b.len(),
        frame_parse(b, max_len).unwrap().0.payload.len() <= max_len,
        frame_bytes(frame_parse(b, max_len).unwrap().0) == b.subrange(
            0,
            frame_parse(b, max_len).unwrap().1 as int,
        ),
{
    let (f, n) = frame_parse(b, max_len).unwrap();
    lemma_u16_bytes_of_value(b.subrange(1, 3));
    lemma_u32_bytes_of_value(b.subrange(3, 7));
    lemma_u32_bytes_of_value(b.subrange(7, 11));
    assert(b.subrange(1, 3).subrange(0, 2) =~= b.subrange(1, 3));
    assert(b.subrange(3, 7).subrange(0, 4) =~= b.subrange(3, 7));
    assert(b.subrange(7, 11).subrange(0, 4) =~= b.subrange(7, 11));
    assert(frame_bytes(f) =~= b.subrange(0, n as int));
}

/// Bytes that arrive later change nothing that was decided: once the
/// bytes at hand give a frame or an error other than that they end too
/// soon, they give the same with any bytes behind them.
pub proof fn lemma_frame_parse_is_stable(b: Seq<u8>, more: Seq<u8>, max_len: u32)
    requires
        frame_parse(b, max_len) != Err::<(FrameView, nat), FrameError>(FrameError::TruncatedFrame),
    ensures
        frame_parse(b + more, max_len) == frame_parse(b, max_len),
{
    let c = b + more;
    assert(c[0] == b[0]);
    if kind_of(b[0]) is Some {
        assert(c.subrange(1, 3) =~= b.subrange(1, 3));
        assert(c.subrange(3, 7) =~= b.subrange(3, 7));
        assert(c.subrange(7, 11) =~= b.subrange(7, 11));
        let n = u32_value(b.subrange(7, 11));
        if n <= max_len {
            assert(c.subrange(HEADER_LEN as int, HEADER_LEN + n) =~= b.subrange(
                HEADER_LEN as int,
                HEADER_LEN + n,
            ));
        }
    }
}

/// The receiving end of a connection: bytes go in as they arrive, frames
/// come out whole.
pub struct FrameReader {
    buffer: Vec<u8>,
    max_len: u32,
}

/// A [`FrameReader`] as contracts see it.
pub struct FrameReaderView {
    /// The bytes that have arrived and belong to no frame given out.
    pub buffer: Seq<u8>,
    /// The longest payload that is accepted.
    pub max_len: u32,
}

impl View for FrameReader {
    type V = FrameReaderView;

    closed spec fn view(&self) -> FrameReaderView {
        FrameReaderView { buffer: self.buffer@, max_len: self.max_len }
    }
}

impl FrameReader {
    /// A reader that has seen no bytes and accepts payloads of up to
    /// `max_len` bytes.
    pub fn new(max_len: u32) -> (r: FrameReader)
        ensures
            r@ == (FrameReaderView { buffer: Seq::empty(), max_len }),
    {
        FrameReader { buffer: Vec::new(), max_len }
    }

    /// Takes in bytes that have arrived.
    pub fn push(&mut self, chunk: &[u8])
        ensures
            final(self)@ == (FrameReaderView {
                buffer: old(self)@.buffer + chunk@,
                ..old(self)@
            }),
    {
        put_bytes(&mut self.buffer, chunk);
    }

    /// How many bytes wait in the reader.
    pub fn buffered(&self) -> (n: usize)
        ensures
            n == self@.buffer.len(),
    {
        self.buffer.len()
    }

    /// Gives the next frame if all its bytes have arrived, and `None` if
    /// they have not; the bytes of a frame given leave the reader.
    /// A stream that cannot be a stream of frames is an error, and the
    /// reader stays as it is.
    pub fn next_frame(&mut self) -> (r: Result<Option<Frame>, FrameError>)
        ensures
            match frame_parse(old(self)@.buffer, old(self)@.max_len) {
                Ok((f, used)) => r matches Ok(Some(frame)) && frame@ == f && final(self)@ == (
                FrameReaderView {
                    buffer: old(self)@.buffer.skip(used as int),
                    ..old(self)@
                }),
                Err(FrameError::TruncatedFrame) => r == Ok::<Option<Frame>, FrameError>(None)
                    && final(self)@ == old(self)@,
                Err(e) => r == Err::<Option<Frame>, FrameError>(e) && final(self)@ == old(self)@,
            },
    {
        match Frame::decode(self.buffer.as_slice(), self.max_len) {
            Ok((frame, used)) => {
                proof {
                    lemma_frame_bytes_of_parse(self.buffer@, self.max_len);
                }
                let rest = self.buffer.split_off(used);
                self.buffer = rest;
                assert(self.buffer@ =~= old(self).buffer@.skip(used as int));
                Ok(Some(frame))
            },
            Err(FrameError::TruncatedFrame) => Ok(None),
            Err(e) => Err(e),
        }
    }

    /// To be called when the stream has ended and every whole frame has
    /// been taken: an error if bytes are left, for then the stream ended
    /// inside a frame.
    pub fn finish(&self) -> (r: Result<(), FrameError>)
        ensures
            r == if self@.buffer.len() == 0 {
                Ok::<(), FrameError>(())
            } else {
                Err::<(), FrameError>(FrameError::TruncatedFrame)
            },
    {
        if self.buffer.len() == 0 {
            Ok(())
        } else {
            Err(FrameError::TruncatedFrame)
        }
    }
}

/// The sending end of a connection: frames go in whole, bytes go out as
/// the socket takes them.
pub struct Outbox {
    queue: Vec<u8>,
}

impl View for Outbox {
    type V = Seq<u8>;

    /// The bytes that wait to be written.
    closed spec fn view(&self) -> Seq<u8> {
        self.queue@
    }
}

impl Outbox {
    /// An outbox in which nothing waits.
    pub fn new() -> (o: Outbox)
        ensures
            o@ == Seq::<u8>::empty(),
    {
        Outbox { queue: Vec::new() }
    }

    /// Queues a frame behind all that waits. A frame that cannot be
    /// written is refused and nothing is queued.
    pub fn enqueue(&mut self, frame: &Frame) -> (r: Result<(), FrameError>)
        ensures
            frame_fits(frame@) ==> r is Ok && final(self)@ == old(self)@ + frame_bytes(frame@),
            !frame_fits(frame@) ==> r == Err::<(), FrameError>(FrameError::FrameTooLarge)
                && final(self)@ == old(self)@,
    {
        match frame.encode() {
            Ok(bytes) => {
                put_bytes(&mut self.queue, bytes.as_slice());
                Ok(())
            },
            Err(e) => Err(e),
        }
    }

    /// Queues the bytes of frames that were given by
    /// [`Conn`](crate::conn::Conn).
    pub fn enqueue_bytes(&mut self, bytes: &[u8])
        ensures
            final(self)@ == old(self)@ + bytes@,
    {
        put_bytes(&mut self.queue, bytes);
    }

    /// The bytes to offer to the socket.
    pub fn pending(&self) -> (b: &[u8])
        ensures
            b@ == self@,
    {
        self.queue.as_slice()
    }

    /// Whether nothing waits to be written.
    pub fn is_empty(&self) -> (b: bool)
        ensures
            b == (self@.len() == 0),
    {
        self.queue.len() == 0
    }

    /// Records that the socket took the first `written` of the bytes
    /// offered (all of them where `written` is more).
    pub fn advance(&mut self, written: usize)
        ensures
            final(self)@ == drained(old(self)@, written as nat).1,
    {
        let n = if written > self.queue.len() {
            self.queue.len()
        } else {
            written
        };
        let rest = self.queue.split_off(n);
        self.queue = rest;
        assert(self.queue@ =~= old(self).queue@.skip(n as int));
    }
}

/// What a write that took `written` bytes does to a queue: the bytes that
/// went out, and the bytes that still wait.
pub open spec fn drained(queue: Seq<u8>, written: nat) -> (Seq<u8>, Seq<u8>) {
    if written >= queue.len() {
        (queue, Seq::empty())
    } else {
        (queue.take(written as int), queue.skip(written as int))
    }
}

/// One thing that happens on the write path.
pub enum WriteEvent {
    /// A frame is queued.
    Enqueue(FrameView),
    /// The socket takes some bytes, as many as it has room for.
    Write(nat),
}

/// The write path after the events of `events`: the bytes that have
/// gone out, and the bytes that wait.
pub open spec fn written_and_queued(events: Seq<WriteEvent>) -> (Seq<u8>, Seq<u8>)
    decreases events.len(),
{
    if events.len() == 0 {
        (Seq::empty(), Seq::empty())
    } else {
        let (sent, queue) = written_and_queued(events.drop_last());
        match events.last() {
            WriteEvent::Enqueue(f) => (sent, queue + frame_bytes(f)),
            WriteEvent::Write(n) => (sent + drained(queue, n).0, drained(queue, n).1),
        }
    }
}

/// The frames queued by `events`, whole, one after the other.
pub open spec fn frames_queued(events: Seq<WriteEvent>) -> Seq<u8>
    decreases events.len(),
{
    if events.len() == 0 {
        Seq::empty()
    } else {
        match events.last() {
            WriteEvent::Enqueue(f) => frames_queued(events.drop_last()) + frame_bytes(f),
            WriteEvent::Write(_) => frames_queued(events.drop_last()),
        }
    }
}

/// However the socket takes its bytes, in large pieces or small or for
/// a while not at all, what has gone out, followed by what waits, is the
/// frames that were queued, each whole and in the order queued: no frame
/// is cut into by another.
pub proof fn lemma_partial_writes_keep_frames_whole(events: Seq<WriteEvent>)
    ensures
        written_and_queued(events).0 + written_and_queued(events).1 == frames_queued(events),
    decreases events.len(),
{
    if events.len() > 0 {
        lemma_partial_writes_keep_frames_whole(events.drop_last());
        let (sent, queue) = written_and_queued(events.drop_last());
        match events.last() {
            WriteEvent::Enqueue(f) => {
                assert(sent + (queue + frame_bytes(f)) =~= (sent + queue) + frame_bytes(f));
            },
            WriteEvent::Write(n) => {
                assert((sent + drained(queue, n).0) + drained(queue, n).1 =~= sent + queue);
            },
        }
    } else {
        assert(Seq::<u8>::empty() + Seq::<u8>::empty() =~= Seq::<u8>::empty());
    }
}

} // verus!

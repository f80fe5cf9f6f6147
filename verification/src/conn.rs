//! The multiplexed connection: what is decided on the send path and on the
//! receive path of one control socket.
//!
//! The connection owns two tables. The pending table holds, for each
//! request that waits for its response, the slot through which the caller
//! is told. The handler table holds, for each type of inbound request, what
//! serves it. The functions here say what to do with each frame; reading
//! and writing the socket, and waking the callers, is left to the one task
//! that owns the connection.

use crate::frame::frame_bytes;
use crate::frame::Frame;
use crate::frame::FrameKind;
use crate::frame::FrameView;
use crate::message::error_frame;
use crate::message::packed;
use crate::message::ErrorResponse;
use crate::message::ErrorResponseView;
use crate::message::Message;
use crate::wire::CodecError;
use std::collections::HashMap;
use vstd::prelude::*;
use vstd::slice::slice_to_vec;

verus! {

/// Why the connection refuses an operation, or what it tells a caller
/// whose request will have no response.
#[derive(Clone, Copy, Debug, PartialEq, Eq, Structural)]
pub enum ConnError {
    /// The connection was closed.
    ConnectionClosed,
    /// Every transaction id has been handed out and requests are still
    /// outstanding.
    TxIdExhausted,
    /// A request with this transaction id is outstanding.
    DuplicateTxId,
    /// The type already has a handler.
    DuplicateHandler,
    /// The payload is longer than the connection allows.
    FrameTooLarge,
    /// No response came in time.
    RequestTimedOut,
}

/// What the read path does with a frame.
#[derive(Debug, PartialEq, Eq)]
pub enum Dispatch<S> {
    /// A response to an outstanding request: `frame` goes to the caller
    /// who waits behind `slot`. The request is outstanding no more.
    Deliver { slot: S, frame: Frame },
    /// A response that no request waits for: to be logged and dropped.
    Unmatched { tx_id: u32 },
    /// A request whose type has a handler: the handler is to be called
    /// with `frame`.
    Invoke { frame: Frame },
    /// A request whose type has no handler: `reply` goes back to the peer.
    Reject { reply: Frame },
    /// The connection is closed: the frame is dropped.
    Dropped,
}

/// A [`Dispatch`] as contracts see it.
pub enum DispatchView<S> {
    Deliver { slot: S, frame: FrameView },
    Unmatched { tx_id: u32 },
    Invoke { frame: FrameView },
    Reject { reply: FrameView },
    Dropped,
}

impl<S> View for Dispatch<S> {
    type V = DispatchView<S>;

    open spec fn view(&self) -> DispatchView<S> {
        match *self {
            Dispatch::Deliver { slot, frame } => DispatchView::Deliver { slot, frame: frame@ },
            Dispatch::Unmatched { tx_id } => DispatchView::Unmatched { tx_id },
            Dispatch::Invoke { frame } => DispatchView::Invoke { frame: frame@ },
            Dispatch::Reject { reply } => DispatchView::Reject { reply: reply@ },
            Dispatch::Dropped => DispatchView::Dropped,
        }
    }
}

/// One control connection. `S` is the slot through which a caller learns
/// the outcome of its request, `H` what serves an inbound request.
pub struct Conn<S, H> {
    pending: HashMap<u32, S>,
    handlers: HashMap<u16, H>,
    next_tx_id: Option<u32>,
    closed: bool,
    max_payload: u32,
}

/// A [`Conn`] as contracts see it.
pub struct ConnView<S, H> {
    /// The slot of each outstanding request, by transaction id.
    pub pending: Map<u32, S>,
    /// The handler of each type of inbound request.
    pub handlers: Map<u16, H>,
    /// The id that the next request gets; `None` once the last one has
    /// been handed out.
    pub next_tx_id: Option<u32>,
    pub closed: bool,
    /// The longest payload that is sent or answered.
    pub max_payload: u32,
}

impl<S, H> View for Conn<S, H> {
    type V = ConnView<S, H>;

    closed spec fn view(&self) -> ConnView<S, H> {
        ConnView {
            pending: self.pending@,
            handlers: self.handlers@,
            next_tx_id: self.next_tx_id,
            closed: self.closed,
            max_payload: self.max_payload,
        }
    }
}

impl<S, H> ConnView<S, H> {
    /// The id for the next request. The counter only grows; once it has
    /// run through, it starts again at zero if nothing is outstanding
    /// that an id could be mistaken for, and else there is no id.
    pub open spec fn fresh_tx_id(self) -> Option<u32> {
        match self.next_tx_id {
            Some(id) => Some(id),
            None => if self.pending.dom() =~= Set::<u32>::empty() {
                Some(0u32)
            } else {
                None
            },
        }
    }

    /// Whether a request with payload `payload` and id `tx_id` may go
    /// out, and if not, why.
    pub open spec fn send_check(self, tx_id: u32, payload: Seq<u8>) -> Result<(), ConnError> {
        if self.closed {
            Err(ConnError::ConnectionClosed)
        } else if payload.len() > self.max_payload {
            Err(ConnError::FrameTooLarge)
        } else if self.pending.contains_key(tx_id) {
            Err(ConnError::DuplicateTxId)
        } else {
            Ok(())
        }
    }

    /// Whether a request with payload `payload` may go out under a fresh
    /// id: the id, or why not.
    pub open spec fn request_check(self, payload: Seq<u8>) -> Result<u32, ConnError> {
        if self.closed {
            Err(ConnError::ConnectionClosed)
        } else {
            match self.fresh_tx_id() {
                None => Err(ConnError::TxIdExhausted),
                Some(tx_id) => match self.send_check(tx_id, payload) {
                    Ok(_) => Ok(tx_id),
                    Err(e) => Err(e),
                },
            }
        }
    }

    /// Whether a response with payload `payload` may go out, and if not,
    /// why.
    pub open spec fn respond_check(self, payload: Seq<u8>) -> Result<(), ConnError> {
        if self.closed {
            Err(ConnError::ConnectionClosed)
        } else if payload.len() > self.max_payload {
            Err(ConnError::FrameTooLarge)
        } else {
            Ok(())
        }
    }

    /// The connection once the request `tx_id` waits behind `slot`.
    pub open spec fn with_pending(self, tx_id: u32, slot: S) -> Self {
        ConnView { pending: self.pending.insert(tx_id, slot), ..self }
    }

    /// The connection once `tx_id` is outstanding no more.
    pub open spec fn without_pending(self, tx_id: u32) -> Self {
        ConnView { pending: self.pending.remove(tx_id), ..self }
    }

    /// The connection once the id `tx_id` has been handed out.
    pub open spec fn after_tx_id(self, tx_id: u32) -> Self {
        ConnView {
            next_tx_id: if tx_id == u32::MAX {
                None
            } else {
                Some((tx_id + 1) as u32)
            },
            ..self
        }
    }

    /// What the read path does with frame `f`.
    pub open spec fn dispatch(self, f: FrameView) -> DispatchView<S> {
        if self.closed {
            DispatchView::Dropped
        } else {
            match f.kind {
                FrameKind::Response => if self.pending.contains_key(f.tx_id) {
                    DispatchView::Deliver { slot: self.pending[f.tx_id], frame: f }
                } else {
                    DispatchView::Unmatched { tx_id: f.tx_id }
                },
                FrameKind::Request => if self.handlers.contains_key(f.msg_type) {
                    DispatchView::Invoke { frame: f }
                } else {
                    DispatchView::Reject {
                        reply: packed::<ErrorResponse>(
                            FrameKind::Response,
                            f.tx_id,
                            ErrorResponseView { error: CodecError::UnknownCommand },
                        ),
                    }
                },
            }
        }
    }

    /// The connection after the read path has seen frame `f`: a response
    /// that is delivered retires its request, and nothing else changes.
    pub open spec fn after_frame(self, f: FrameView) -> Self {
        if !self.closed && f.kind == FrameKind::Response {
            self.without_pending(f.tx_id)
        } else {
            self
        }
    }
}

impl<S, H> Conn<S, H> {
    /// An open connection on which nothing is outstanding and nothing is
    /// handled, and which carries payloads of up to `max_payload` bytes.
    pub fn new(max_payload: u32) -> (c: Self)
        ensures
            c@ == (ConnView::<S, H> {
                pending: Map::empty(),
                handlers: Map::empty(),
                next_tx_id: Some(0u32),
                closed: false,
                max_payload,
            }),
    {
        Conn {
            pending: HashMap::new(),
            handlers: HashMap::new(),
            next_tx_id: Some(0),
            closed: false,
            max_payload,
        }
    }

    /// Like [`new`](Self::new), with the counter of transaction ids
    /// starting at `first_tx_id`.
    pub fn starting_at(max_payload: u32, first_tx_id: u32) -> (c: Self)
        ensures
            c@ == (ConnView::<S, H> {
                pending: Map::empty(),
                handlers: Map::empty(),
                next_tx_id: Some(first_tx_id),
                closed: false,
                max_payload,
            }),
    {
        Conn {
            pending: HashMap::new(),
            handlers: HashMap::new(),
            next_tx_id: Some(first_tx_id),
            closed: false,
            max_payload,
        }
    }

    /// Whether the connection was closed.
    pub fn is_closed(&self) -> (b: bool)
        ensures
            b == self@.closed,
    {
        self.closed
    }

    /// Whether a request with this id waits for its response.
    pub fn is_pending(&self, tx_id: u32) -> (b: bool)
        ensures
            b == self@.pending.contains_key(tx_id),
    {
        broadcast use vstd::std_specs::hash::group_hash_axioms;

        self.pending.contains_key(&tx_id)
    }

    /// How many requests wait for their response.
    pub fn pending_count(&self) -> (n: usize)
        ensures
            n == self@.pending.len(),
    {
        broadcast use vstd::std_specs::hash::group_hash_axioms;

        self.pending.len()
    }

    /// Listens for inbound requests of type `msg_type`: from now on
    /// `handler` serves them. A type has one handler: a second one is
    /// refused.
    pub fn listen(&mut self, msg_type: u16, handler: H) -> (r: Result<(), ConnError>)
        ensures
            old(self)@.handlers.contains_key(msg_type) ==> r == Err::<(), ConnError>(
                ConnError::DuplicateHandler,
            ) && final(self)@ == old(self)@,
            !old(self)@.handlers.contains_key(msg_type) ==> r is Ok && final(self)@ == (
            ConnView {
                handlers: old(self)@.handlers.insert(msg_type, handler),
                ..old(self)@
            }),
    {
        broadcast use vstd::std_specs::hash::group_hash_axioms;

        if self.handlers.contains_key(&msg_type) {
            return Err(ConnError::DuplicateHandler);
        }
        self.handlers.insert(msg_type, handler);
        Ok(())
    }

    /// The handler of inbound requests of type `msg_type`, if there is
    /// one.
    pub fn handler(&self, msg_type: u16) -> (h: Option<&H>)
        ensures
            h == if self@.handlers.contains_key(msg_type) {
                Some(&self@.handlers[msg_type])
            } else {
                None
            },
    {
        broadcast use vstd::std_specs::hash::group_hash_axioms;

        self.handlers.get(&msg_type)
    }

    /// Sends a request under an id that the caller chose: gives the bytes
    /// to write and lets `slot` wait for the response. Where the
    /// connection is closed, the payload too long or the id outstanding,
    /// the request is refused: no bytes are given and nothing changes.
    pub fn send(&mut self, msg_type: u16, tx_id: u32, payload: &[u8], slot: S) -> (r: Result<
        Vec<u8>,
        ConnError,
    >)
        ensures
            match old(self)@.send_check(tx_id, payload@) {
                Ok(_) => r matches Ok(bytes) && bytes@ == frame_bytes(
                    FrameView { kind: FrameKind::Request, msg_type, tx_id, payload: payload@ },
                ) && final(self)@ == old(self)@.with_pending(tx_id, slot),
                Err(e) => r == Err::<Vec<u8>, ConnError>(e) && final(self)@ == old(self)@,
            },
    {
        broadcast use vstd::std_specs::hash::group_hash_axioms;

        if self.closed {
            return Err(ConnError::ConnectionClosed);
        }
        if payload.len() > self.max_payload as usize {
            return Err(ConnError::FrameTooLarge);
        }
        if self.pending.contains_key(&tx_id) {
            return Err(ConnError::DuplicateTxId);
        }
        let frame = Frame {
            kind: FrameKind::Request,
            msg_type,
            tx_id,
            payload: slice_to_vec(payload),
        };
        match frame.encode() {
            Ok(bytes) => {
                self.pending.insert(tx_id, slot);
                Ok(bytes)
            },
            Err(_) => Err(ConnError::FrameTooLarge),
        }
    }

    /// Sends a request under a fresh id: gives the id and the bytes to
    /// write, and lets `slot` wait for the response. Where there is no
    /// fresh id, or [`send`](Self::send) would refuse the request, it is
    /// refused: no bytes are given and nothing changes.
    pub fn send_request(&mut self, msg_type: u16, payload: &[u8], slot: S) -> (r: Result<
        (u32, Vec<u8>),
        ConnError,
    >)
        ensures
            match old(self)@.request_check(payload@) {
                Ok(tx_id) => r matches Ok((id, bytes)) && id == tx_id && bytes@ == frame_bytes(
                    FrameView { kind: FrameKind::Request, msg_type, tx_id, payload: payload@ },
                ) && final(self)@ == old(self)@.after_tx_id(tx_id).with_pending(tx_id, slot),
                Err(e) => r == Err::<(u32, Vec<u8>), ConnError>(e) && final(self)@ == old(self)@,
            },
    {
        if self.closed {
            return Err(ConnError::ConnectionClosed);
        }
        let tx_id: u32 = match self.next_tx_id {
            Some(id) => id,
            None => {
                if self.pending.is_empty() {
                    0
                } else {
                    return Err(ConnError::TxIdExhausted);
                }
            },
        };
        let bytes = match self.send(msg_type, tx_id, payload, slot) {
            Ok(bytes) => bytes,
            Err(e) => {
                return Err(e);
            },
        };
        self.next_tx_id = if tx_id == u32::MAX {
            None
        } else {
            Some(tx_id + 1)
        };
        Ok((tx_id, bytes))
    }

    /// Answers the request `tx_id`: gives the bytes of the response.
    pub fn respond(&self, msg_type: u16, tx_id: u32, payload: &[u8]) -> (r: Result<
        Vec<u8>,
        ConnError,
    >)
        ensures
            match self@.respond_check(payload@) {
                Ok(_) => r matches Ok(bytes) && bytes@ == frame_bytes(
                    FrameView { kind: FrameKind::Response, msg_type, tx_id, payload: payload@ },
                ),
                Err(e) => r == Err::<Vec<u8>, ConnError>(e),
            },
    {
        if self.closed {
            return Err(ConnError::ConnectionClosed);
        }
        if payload.len() > self.max_payload as usize {
            return Err(ConnError::FrameTooLarge);
        }
        let frame = Frame {
            kind: FrameKind::Response,
            msg_type,
            tx_id,
            payload: slice_to_vec(payload),
        };
        match frame.encode() {
            Ok(bytes) => Ok(bytes),
            Err(_) => Err(ConnError::FrameTooLarge),
        }
    }

    /// Answers the request `tx_id` with the error that kept it from being
    /// served: gives the bytes of the error response.
    pub fn reject(&self, tx_id: u32, error: CodecError) -> (r: Result<Vec<u8>, ConnError>)
        ensures
            match self@.respond_check(
                ErrorResponse::payload_bytes(ErrorResponseView { error }),
            ) {
                Ok(_) => r matches Ok(bytes) && bytes@ == frame_bytes(
                    packed::<ErrorResponse>(
                        FrameKind::Response,
                        tx_id,
                        ErrorResponseView { error },
                    ),
                ),
                Err(e) => r == Err::<Vec<u8>, ConnError>(e),
            },
    {
        let reply = error_frame(tx_id, error);
        self.respond(reply.msg_type, tx_id, reply.payload.as_slice())
    }

    /// Decides what the read path does with an inbound frame. A response
    /// goes to the slot of the request it answers, which is retired; a
    /// response that answers nothing is only reported. A request goes to
    /// the handler of its type; where there is none, the peer is told
    /// so. Nothing but the answered request changes.
    pub fn on_frame(&mut self, frame: Frame) -> (d: Dispatch<S>)
        ensures
            d@ == old(self)@.dispatch(frame@),
            final(self)@ == old(self)@.after_frame(frame@),
    {
        broadcast use vstd::std_specs::hash::group_hash_axioms;

        if self.closed {
            return Dispatch::Dropped;
        }
        match frame.kind {
            FrameKind::Response => {
                match self.pending.remove(&frame.tx_id) {
                    Some(slot) => Dispatch::Deliver { slot, frame },
                    None => {
                        assert(self.pending@ =~= old(self).pending@);
                        Dispatch::Unmatched { tx_id: frame.tx_id }
                    },
                }
            },
            FrameKind::Request => {
                if self.handlers.contains_key(&frame.msg_type) {
                    Dispatch::Invoke { frame }
                } else {
                    Dispatch::Reject { reply: error_frame(frame.tx_id, CodecError::UnknownCommand) }
                }
            },
        }
    }

    /// Gives up the request `tx_id` because its time is over: the slot to
    /// be told so, with what to tell it. A response that comes later
    /// finds nothing to answer. `None` where no such request waits.
    pub fn on_timeout(&mut self, tx_id: u32) -> (r: Option<(S, ConnError)>)
        ensures
            r == if old(self)@.pending.contains_key(tx_id) {
                Some((old(self)@.pending[tx_id], ConnError::RequestTimedOut))
            } else {
                None
            },
            final(self)@ == old(self)@.without_pending(tx_id),
    {
        broadcast use vstd::std_specs::hash::group_hash_axioms;

        match self.pending.remove(&tx_id) {
            Some(slot) => Some((slot, ConnError::RequestTimedOut)),
            None => {
                assert(self.pending@ =~= old(self).pending@);
                None
            },
        }
    }

    /// Closes the connection: nothing is sent from now on, and every
    /// outstanding request is handed back, once, to be told
    /// [`ConnError::ConnectionClosed`].
    pub fn close(&mut self) -> (cancelled: HashMap<u32, S>)
        ensures
            cancelled@ == old(self)@.pending,
            final(self)@ == (ConnView {
                pending: Map::empty(),
                closed: true,
                ..old(self)@
            }),
    {
        let mut cancelled: HashMap<u32, S> = HashMap::new();
        std::mem::swap(&mut self.pending, &mut cancelled);
        self.closed = true;
        cancelled
    }
}

/// The connection after the read path has seen the frames of `fs`, one
/// after the other.
pub open spec fn after_frames<S, H>(c: ConnView<S, H>, fs: Seq<FrameView>) -> ConnView<
    S,
    H,
>
    decreases fs.len(),
{
    if fs.len() == 0 {
        c
    } else {
        after_frames(c, fs.drop_last()).after_frame(fs.last())
    }
}

/// Frames leave alone every request that none of them names: it waits
/// on, behind the slot it had. They neither close nor open a connection.
pub proof fn lemma_frames_keep_other_requests<S, H>(
    c: ConnView<S, H>,
    fs: Seq<FrameView>,
    tx_id: u32,
)
    requires
        c.pending.contains_key(tx_id),
        forall|j: int| 0 <= j < fs.len() ==> (#[trigger] fs[j]).tx_id != tx_id,
    ensures
        after_frames(c, fs).closed == c.closed,
        after_frames(c, fs).pending.contains_key(tx_id),
        after_frames(c, fs).pending[tx_id] == c.pending[tx_id],
    decreases fs.len(),
{
    if fs.len() > 0 {
        let front = fs.drop_last();
        assert forall|j: int| 0 <= j < front.len() implies (#[trigger] front[j]).tx_id != tx_id by {
            assert(front[j] == fs[j]);
        }
        lemma_frames_keep_other_requests(c, front, tx_id);
        assert(fs.last() == fs[fs.len() - 1]);
    }
}

/// Each response reaches the caller of its own request, in whatever order
/// the responses come: the response to an outstanding request, coming
/// after any frames with other ids, is delivered to the slot that was
/// registered with that request.
pub proof fn lemma_response_reaches_its_caller<S, H>(
    c: ConnView<S, H>,
    earlier: Seq<FrameView>,
    response: FrameView,
)
    requires
        !c.closed,
        response.kind == FrameKind::Response,
        c.pending.contains_key(response.tx_id),
        forall|j: int| 0 <= j < earlier.len() ==> (#[trigger] earlier[j]).tx_id != response.tx_id,
    ensures
        after_frames(c, earlier).dispatch(response) == (DispatchView::Deliver {
            slot: c.pending[response.tx_id],
            frame: response,
        }),
        !after_frames(c, earlier).after_frame(response).pending.contains_key(response.tx_id),
{
    lemma_frames_keep_other_requests(c, earlier, response.tx_id);
}

/// A request under an id that is outstanding is refused, whatever it
/// holds: [`Conn::send`] then gives no bytes and changes nothing.
pub proof fn lemma_duplicate_tx_id_is_refused<S, H>(
    c: ConnView<S, H>,
    tx_id: u32,
    slot: S,
    payload: Seq<u8>,
)
    ensures
        c.with_pending(tx_id, slot).send_check(tx_id, payload) is Err,
        c.send_check(tx_id, payload) is Ok ==> c.with_pending(tx_id, slot).send_check(
            tx_id,
            payload,
        ) == Err::<(), ConnError>(ConnError::DuplicateTxId),
{
}

/// A response that answers no outstanding request is reported as such and
/// changes nothing: every request that waited still waits, behind its
/// slot.
pub proof fn lemma_unmatched_response_changes_nothing<S, H>(
    c: ConnView<S, H>,
    response: FrameView,
)
    requires
        !c.closed,
        response.kind == FrameKind::Response,
        !c.pending.contains_key(response.tx_id),
    ensures
        c.dispatch(response) == (DispatchView::<S>::Unmatched { tx_id: response.tx_id }),
        c.after_frame(response) == c,
{
    assert(c.pending.remove(response.tx_id) =~= c.pending);
}

/// A response that comes after its request was given up is not delivered.
pub proof fn lemma_late_response_is_unmatched<S, H>(c: ConnView<S, H>, response: FrameView)
    requires
        !c.closed,
        response.kind == FrameKind::Response,
    ensures
        c.without_pending(response.tx_id).dispatch(response) == (DispatchView::<S>::Unmatched {
            tx_id: response.tx_id,
        }),
{
}

impl<S, H> ConnView<S, H> {
    /// Whether every outstanding request has an id below the counter, as
    /// is the case as long as every id came from the counter.
    pub open spec fn ids_below_counter(self) -> bool {
        self.next_tx_id matches Some(next) ==> forall|t: u32|
            self.pending.contains_key(t) ==> t < next
    }
}

/// Where every id in use came from the counter, the id that the next
/// request gets is the id of no outstanding request: a request under a
/// fresh id is never refused as a duplicate.
pub proof fn lemma_fresh_tx_id_is_unused<S, H>(c: ConnView<S, H>, payload: Seq<u8>)
    requires
        c.ids_below_counter(),
    ensures
        c.fresh_tx_id() matches Some(tx_id) ==> !c.pending.contains_key(tx_id),
        c.request_check(payload) != Err::<u32, ConnError>(ConnError::DuplicateTxId),
{
    if c.next_tx_id is None && c.pending.dom() =~= Set::<u32>::empty() {
        assert(!c.pending.dom().contains(0u32));
    }
}

/// Ids that came from the counter stay below it: a request under a fresh
/// id, a frame that arrives and a request given up all keep it so.
pub proof fn lemma_ids_stay_below_counter<S, H>(
    c: ConnView<S, H>,
    payload: Seq<u8>,
    slot: S,
    f: FrameView,
    given_up: u32,
)
    requires
        c.ids_below_counter(),
    ensures
        c.request_check(payload) matches Ok(tx_id) ==> c.after_tx_id(tx_id).with_pending(
            tx_id,
            slot,
        ).ids_below_counter(),
        c.after_frame(f).ids_below_counter(),
        c.without_pending(given_up).ids_below_counter(),
{
    match c.request_check(payload) {
        Ok(tx_id) => {
            let d = c.after_tx_id(tx_id).with_pending(tx_id, slot);
            match d.next_tx_id {
                Some(next) => {
                    assert forall|t: u32| d.pending.contains_key(t) implies t < next by {
                        if t != tx_id {
                            assert(c.pending.contains_key(t));
                            if c.next_tx_id is None {
                                assert(c.pending.dom().contains(t));
                            }
                        }
                    }
                },
                None => {},
            }
        },
        Err(_) => {},
    }
}

} // verus!

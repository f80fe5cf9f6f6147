//! The relay of one data channel: what to do with what the two sockets
//! give, so that bytes pass between them unchanged until both directions
//! have ended.

use vstd::prelude::*;

verus! {

/// One of the two sockets of a data channel.
#[derive(Clone, Copy, Debug, PartialEq, Eq, Structural)]
pub enum Side {
    /// The socket on this side of the tunnel.
    Local,
    /// The socket towards the other end.
    Remote,
}

/// Why a relay was torn down.
#[derive(Clone, Copy, Debug, PartialEq, Eq, Structural)]
pub enum RelayError {
    /// Reading from this socket failed.
    ReadFailed(Side),
    /// Writing to this socket failed.
    WriteFailed(Side),
}

/// Where a relay stands.
#[derive(Clone, Copy, Debug, PartialEq, Eq, Structural)]
pub enum RelayState {
    /// Bytes pass in both directions.
    Open,
    /// This side has sent its last byte; bytes from the other side still
    /// pass.
    HalfClosed(Side),
    /// Both sides have sent their last byte.
    Closed,
    /// The relay was torn down.
    Failed(RelayError),
}

/// What a socket gives.
#[derive(Debug, PartialEq, Eq)]
pub enum RelayEvent {
    /// Bytes were read from `from`.
    Data { from: Side, bytes: Vec<u8> },
    /// `from` has reached the end of its stream.
    Eof { from: Side },
    /// Reading from `from` failed.
    ReadError { from: Side },
    /// Writing to `to` failed.
    WriteError { to: Side },
}

/// A [`RelayEvent`] as contracts see it.
pub enum RelayEventView {
    Data { from: Side, bytes: Seq<u8> },
    Eof { from: Side },
    ReadError { from: Side },
    WriteError { to: Side },
}

impl View for RelayEvent {
    type V = RelayEventView;

    open spec fn view(&self) -> RelayEventView {
        match *self {
            RelayEvent::Data { from, bytes } => RelayEventView::Data { from, bytes: bytes@ },
            RelayEvent::Eof { from } => RelayEventView::Eof { from },
            RelayEvent::ReadError { from } => RelayEventView::ReadError { from },
            RelayEvent::WriteError { to } => RelayEventView::WriteError { to },
        }
    }
}

/// What to do about an event.
#[derive(Debug, PartialEq, Eq)]
pub enum RelayAction {
    /// Write `bytes` to `to`.
    Forward { to: Side, bytes: Vec<u8> },
    /// Tell `to` that no more bytes will come, and go on reading from it.
    HalfClose { to: Side },
    /// Close both sockets: the relay has ended cleanly.
    Close,
    /// Close both sockets: the relay has failed.
    Abort { error: RelayError },
    /// Do nothing.
    Ignore,
}

/// A [`RelayAction`] as contracts see it.
pub enum RelayActionView {
    Forward { to: Side, bytes: Seq<u8> },
    HalfClose { to: Side },
    Close,
    Abort { error: RelayError },
    Ignore,
}

impl View for RelayAction {
    type V = RelayActionView;

    open spec fn view(&self) -> RelayActionView {
        match *self {
            RelayAction::Forward { to, bytes } => RelayActionView::Forward { to, bytes: bytes@ },
            RelayAction::HalfClose { to } => RelayActionView::HalfClose { to },
            RelayAction::Close => RelayActionView::Close,
            RelayAction::Abort { error } => RelayActionView::Abort { error },
            RelayAction::Ignore => RelayActionView::Ignore,
        }
    }
}

/// The side across from `side`.
pub open spec fn across(side: Side) -> Side {
    match side {
        Side::Local => Side::Remote,
        Side::Remote => Side::Local,
    }
}

/// Whether the relay has ended, cleanly or not.
pub open spec fn is_over(state: RelayState) -> bool {
    state is Closed || state is Failed
}

/// Whether bytes read from `from` still pass.
pub open spec fn passes(state: RelayState, from: Side) -> bool {
    match state {
        RelayState::Open => true,
        RelayState::HalfClosed(ended) => ended != from,
        _ => false,
    }
}

/// The state after an event.
pub open spec fn next_state(state: RelayState, event: RelayEventView) -> RelayState {
    if is_over(state) {
        state
    } else {
        match event {
            RelayEventView::Data { .. } => state,
            RelayEventView::Eof { from } => match state {
                RelayState::Open => RelayState::HalfClosed(from),
                RelayState::HalfClosed(ended) => if ended == from {
                    state
                } else {
                    RelayState::Closed
                },
                _ => state,
            },
            RelayEventView::ReadError { from } => RelayState::Failed(RelayError::ReadFailed(from)),
            RelayEventView::WriteError { to } => RelayState::Failed(RelayError::WriteFailed(to)),
        }
    }
}

/// What to do about an event.
pub open spec fn action_for(state: RelayState, event: RelayEventView) -> RelayActionView {
    if is_over(state) {
        RelayActionView::Ignore
    } else {
        match event {
            RelayEventView::Data { from, bytes } => if passes(state, from) {
                RelayActionView::Forward { to: across(from), bytes }
            } else {
                RelayActionView::Ignore
            },
            RelayEventView::Eof { from } => match state {
                RelayState::Open => RelayActionView::HalfClose { to: across(from) },
                RelayState::HalfClosed(ended) => if ended == from {
                    RelayActionView::Ignore
                } else {
                    RelayActionView::Close
                },
                _ => RelayActionView::Ignore,
            },
            RelayEventView::ReadError { from } => RelayActionView::Abort {
                error: RelayError::ReadFailed(from),
            },
            RelayEventView::WriteError { to } => RelayActionView::Abort {
                error: RelayError::WriteFailed(to),
            },
        }
    }
}

impl Side {
    /// The side across from this one.
    pub fn other(self) -> (s: Side)
        ensures
            s == across(self),
    {
        match self {
            Side::Local => Side::Remote,
            Side::Remote => Side::Local,
        }
    }
}

/// The relay of one data channel.
pub struct Relay {
    state: RelayState,
}

impl View for Relay {
    type V = RelayState;

    closed spec fn view(&self) -> RelayState {
        self.state
    }
}

impl Relay {
    /// A relay between two open sockets.
    pub fn new() -> (r: Relay)
        ensures
            r@ == RelayState::Open,
    {
        Relay { state: RelayState::Open }
    }

    /// Where the relay stands.
    pub fn state(&self) -> (s: RelayState)
        ensures
            s == self@,
    {
        self.state
    }

    /// Whether both sockets are to be closed and the data channel is
    /// over.
    pub fn is_over(&self) -> (b: bool)
        ensures
            b == is_over(self@),
    {
        match self.state {
            RelayState::Closed => true,
            RelayState::Failed(_) => true,
            _ => false,
        }
    }

    /// The outcome of a relay that is over: how it failed, if it did.
    pub fn outcome(&self) -> (r: Option<Result<(), RelayError>>)
        ensures
            r == match self@ {
                RelayState::Closed => Some(Ok::<(), RelayError>(())),
                RelayState::Failed(error) => Some(Err::<(), RelayError>(error)),
                _ => None,
            },
    {
        match self.state {
            RelayState::Closed => Some(Ok(())),
            RelayState::Failed(error) => Some(Err(error)),
            _ => None,
        }
    }

    /// Takes an event and says what to do about it. Bytes read from one
    /// socket go to the other as they are. The end of one stream is passed
    /// on, and the other direction goes on until it ends too. Any failure
    /// tears the relay down.
    pub fn step(&mut self, event: RelayEvent) -> (action: RelayAction)
        ensures
            final(self)@ == next_state(old(self)@, event@),
            action@ == action_for(old(self)@, event@),
    {
        let state = self.state;
        match state {
            RelayState::Closed => {
                return RelayAction::Ignore;
            },
            RelayState::Failed(_) => {
                return RelayAction::Ignore;
            },
            _ => {},
        }
        match event {
            RelayEvent::Data { from, bytes } => {
                match state {
                    RelayState::HalfClosed(ended) => {
                        if ended == from {
                            return RelayAction::Ignore;
                        }
                    },
                    _ => {},
                }
                RelayAction::Forward { to: from.other(), bytes }
            },
            RelayEvent::Eof { from } => {
                match state {
                    RelayState::HalfClosed(ended) => {
                        if ended == from {
                            RelayAction::Ignore
                        } else {
                            self.state = RelayState::Closed;
                            RelayAction::Close
                        }
                    },
                    _ => {
                        self.state = RelayState::HalfClosed(from);
                        RelayAction::HalfClose { to: from.other() }
                    },
                }
            },
            RelayEvent::ReadError { from } => {
                let error = RelayError::ReadFailed(from);
                self.state = RelayState::Failed(error);
                RelayAction::Abort { error }
            },
            RelayEvent::WriteError { to } => {
                let error = RelayError::WriteFailed(to);
                self.state = RelayState::Failed(error);
                RelayAction::Abort { error }
            },
        }
    }
}

/// The state after the events of `events`, one after the other.
pub open spec fn state_after(events: Seq<RelayEventView>) -> RelayState
    decreases events.len(),
{
    if events.len() == 0 {
        RelayState::Open
    } else {
        next_state(state_after(events.drop_last()), events.last())
    }
}

/// The bytes that the events of `events` have the relay write to `to`, in
/// the order written.
pub open spec fn forwarded(events: Seq<RelayEventView>, to: Side) -> Seq<u8>
    decreases events.len(),
{
    if events.len() == 0 {
        Seq::empty()
    } else {
        match action_for(state_after(events.drop_last()), events.last()) {
            RelayActionView::Forward { to: target, bytes } if target == to => forwarded(
                events.drop_last(),
                to,
            ) + bytes,
            _ => forwarded(events.drop_last(), to),
        }
    }
}

/// The bytes that the events of `events` read from `from`, in the order
/// read.
pub open spec fn read_from(events: Seq<RelayEventView>, from: Side) -> Seq<u8>
    decreases events.len(),
{
    if events.len() == 0 {
        Seq::empty()
    } else {
        match events.last() {
            RelayEventView::Data { from: source, bytes } if source == from => read_from(
                events.drop_last(),
                from,
            ) + bytes,
            _ => read_from(events.drop_last(), from),
        }
    }
}

/// As long as a direction passes, what was written to one socket is what
/// was read from the other, byte for byte and in order.
pub proof fn lemma_relay_is_verbatim(events: Seq<RelayEventView>, from: Side)
    requires
        passes(state_after(events), from),
    ensures
        forwarded(events, across(from)) == read_from(events, from),
    decreases events.len(),
{
    if events.len() > 0 {
        let before = state_after(events.drop_last());
        assert(passes(before, from));
        lemma_relay_is_verbatim(events.drop_last(), from);
    }
}

/// What is written to one socket is never anything but what was read
/// from the other: at any time it is the bytes read so far, or, once the
/// direction has ended, the bytes read until then.
pub proof fn lemma_relay_writes_what_was_read(events: Seq<RelayEventView>, from: Side)
    ensures
        forwarded(events, across(from)).is_prefix_of(read_from(events, from)),
    decreases events.len(),
{
    if events.len() > 0 {
        let front = events.drop_last();
        let before = state_after(front);
        lemma_relay_writes_what_was_read(front, from);
        if passes(before, from) {
            lemma_relay_is_verbatim(front, from);
        }
        let written = forwarded(front, across(from));
        let read = read_from(front, from);
        match events.last() {
            RelayEventView::Data { from: source, bytes } => {
                if source == from && passes(before, from) {
                    assert(written + bytes =~= read + bytes);
                } else if source == from {
                    assert(written.is_prefix_of(read + bytes));
                }
            },
            _ => {},
        }
    }
}

/// When one side has sent its last byte the other direction still
/// passes: bytes from the other side are written on, and the relay ends
/// cleanly only when that side ends too.
pub proof fn lemma_half_close_lets_the_other_drain(ended: Side, bytes: Seq<u8>)
    ensures
        next_state(RelayState::Open, RelayEventView::Eof { from: ended }) == RelayState::HalfClosed(
            ended,
        ),
        action_for(
            RelayState::HalfClosed(ended),
            RelayEventView::Data { from: across(ended), bytes },
        ) == (RelayActionView::Forward { to: ended, bytes }),
        next_state(
            RelayState::HalfClosed(ended),
            RelayEventView::Data { from: across(ended), bytes },
        ) == RelayState::HalfClosed(ended),
        next_state(RelayState::HalfClosed(ended), RelayEventView::Eof { from: across(ended) })
            == RelayState::Closed,
        action_for(RelayState::HalfClosed(ended), RelayEventView::Eof { from: across(ended) })
            == RelayActionView::Close,
{
}

/// A failure on either socket, at any time before the end, tears the relay
/// down, and a relay that is over stays as it is and does nothing more.
pub proof fn lemma_failure_tears_down(state: RelayState, event: RelayEventView)
    ensures
        !is_over(state) && (event is ReadError || event is WriteError) ==> next_state(
            state,
            event,
        ) is Failed && action_for(state, event) is Abort,
        is_over(state) ==> next_state(state, event) == state && action_for(state, event)
            == RelayActionView::Ignore,
{
}

} // verus!

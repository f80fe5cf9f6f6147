//! The tunnel manager: the life of each tunnel from the request for it to
//! the end of its last data channel.
//!
//! A tunnel is `Requested` when a front end asks for a path, `Allocated`
//! while the client that owns it dials the destination, `Active` while at
//! least one data channel rides it, and is forgotten (`Closing`, then
//! `Closed`) when its last data channel has ended.
//!
//! Ids of tunnels and of data channels come from one counter that never
//! goes back, so that no id is used twice. The data channel that the
//! allocation of a tunnel makes bears the id of the tunnel: both sides
//! know it from the messages of the allocation, and a data socket that
//! names it finds its data channel on either side. A data channel that
//! is opened later gets a fresh id from the side that opens it, and the
//! other side adopts it under that id.

use crate::address::Address;
use crate::address::AddressView;
use crate::conn::ConnError;
use crate::frame::Frame;
use crate::frame::FrameView;
use crate::message::AllocFailure;
use crate::message::AllocTunnelRequest;
use crate::message::AllocTunnelRequestView;
use crate::message::AllocTunnelResponse;
use crate::message::AllocTunnelResponseView;
use crate::frame::FrameKind;
use crate::message::lemma_pack_unpack;
use crate::message::packed;
use crate::message::unpack_response;
use crate::message::unpacked_response;
use crate::message::ResponseError;
use crate::registry::Router;
use std::collections::HashMap;
use vstd::pervasive::unreached;
use vstd::prelude::*;

verus! {

/// Why there is no tunnel, or no data channel.
#[derive(Clone, Copy, Debug, PartialEq, Eq, Structural)]
pub enum TunnelError {
    /// The client that owns the tunnel is not connected.
    ClientOffline,
    /// The destination refused the connection.
    ConnectRefused,
    /// The destination cannot be reached.
    HostUnreachable,
    /// The destination did not answer in time.
    Timeout,
    /// There is no tunnel with this id in the state that the step needs.
    UnknownTunnel,
    /// The id of the tunnel is in use already.
    DuplicateTunnel,
    /// The id of the data channel is in use already.
    DuplicateChannel,
    /// The counter of ids has run through.
    IdsExhausted,
}

/// Where a tunnel is in its life.
#[derive(Clone, Copy, Debug, PartialEq, Eq, Structural)]
pub enum TunnelState {
    Requested,
    Allocated,
    Active,
    Closing,
    Closed,
}

/// One relayed stream: the pair of sockets that `conn_id` names on both
/// sides, riding the tunnel `tunnel_id`.
#[derive(Clone, Copy, Debug, PartialEq, Eq, Structural)]
pub struct DataChannel {
    pub conn_id: u64,
    pub tunnel_id: u64,
}

/// What the manager keeps of a tunnel.
pub struct Tunnel {
    owner_client_id: u64,
    destination: Address,
    state: TunnelState,
    channels: u64,
}

/// A tunnel as contracts see it.
pub struct TunnelView {
    pub owner_client_id: u64,
    pub destination: AddressView,
    pub state: TunnelState,
}

impl View for Tunnel {
    type V = TunnelView;

    closed spec fn view(&self) -> TunnelView {
        TunnelView {
            owner_client_id: self.owner_client_id,
            destination: self.destination@,
            state: self.state,
        }
    }
}

/// The manager of the tunnels of one side.
pub struct TunnelManager {
    tunnels: HashMap<u64, Tunnel>,
    channels: HashMap<u64, u64>,
    next_id: Option<u64>,
}

/// A [`TunnelManager`] as contracts see it.
pub struct TunnelManagerView {
    /// The tunnels that live, by tunnel id.
    pub tunnels: Map<u64, TunnelView>,
    /// The tunnel of each data channel that lives, by connection id.
    pub channels: Map<u64, u64>,
    /// The next id to hand out, to a tunnel or to a data channel; `None`
    /// once the last one is taken.
    pub next_id: Option<u64>,
}

/// The counter after `id` has been handed out.
pub open spec fn after_id(id: u64) -> Option<u64> {
    if id == u64::MAX {
        None
    } else {
        Some((id + 1) as u64)
    }
}

/// The counter once it has been moved past `id`, if it was not already.
pub open spec fn past_id(next: Option<u64>, id: u64) -> Option<u64> {
    match next {
        Some(n) if n > id => next,
        Some(_) => after_id(id),
        None => None,
    }
}

/// The error that tells the requester of a tunnel why the dial failed.
pub open spec fn failure_error(f: AllocFailure) -> TunnelError {
    match f {
        AllocFailure::ConnectRefused => TunnelError::ConnectRefused,
        AllocFailure::HostUnreachable => TunnelError::HostUnreachable,
        AllocFailure::Timeout => TunnelError::Timeout,
    }
}

/// The error that tells the requester of a tunnel why its request to the
/// client has no answer: the time was over, or the connection is of no
/// use.
pub open spec fn request_failure_of(e: ConnError) -> TunnelError {
    match e {
        ConnError::RequestTimedOut => TunnelError::Timeout,
        _ => TunnelError::ClientOffline,
    }
}

/// What the reply to the request for tunnel `tunnel_id` tells: the
/// client's answer, or the error for the requester. A frame that does not
/// hold the answer for this tunnel tells that the destination was not
/// reached.
pub open spec fn reply_outcome(tunnel_id: u64, reply: Result<FrameView, ConnError>) -> Result<
    AllocTunnelResponseView,
    TunnelError,
> {
    match reply {
        Err(e) => Err(request_failure_of(e)),
        Ok(f) => match unpacked_response::<AllocTunnelResponse>(f) {
            Ok(answer) => if answer.tunnel_id == tunnel_id {
                Ok(answer)
            } else {
                Err(TunnelError::HostUnreachable)
            },
            Err(_) => Err(TunnelError::HostUnreachable),
        },
    }
}

/// A reply as contracts see it.
pub open spec fn reply_view(reply: Result<Frame, ConnError>) -> Result<FrameView, ConnError> {
    match reply {
        Ok(frame) => Ok(frame@),
        Err(e) => Err(e),
    }
}

/// The error that tells the requester of a tunnel why its request to the
/// client has no answer.
pub fn request_failure(e: ConnError) -> (t: TunnelError)
    ensures
        t == request_failure_of(e),
{
    match e {
        ConnError::RequestTimedOut => TunnelError::Timeout,
        _ => TunnelError::ClientOffline,
    }
}

/// The data channels that ride tunnel `tunnel_id`.
pub open spec fn channels_of(channels: Map<u64, u64>, tunnel_id: u64) -> Set<u64> {
    Set::new(|c: u64| channels.contains_key(c) && channels[c] == tunnel_id)
}

impl TunnelManagerView {
    /// Whether tunnel `tunnel_id` lives and is in state `state`.
    pub open spec fn is_in(self, tunnel_id: u64, state: TunnelState) -> bool {
        self.tunnels.contains_key(tunnel_id) && self.tunnels[tunnel_id].state == state
    }

    /// The manager with tunnel `tunnel_id` moved to `state`.
    pub open spec fn moved(self, tunnel_id: u64, state: TunnelState) -> Self {
        TunnelManagerView {
            tunnels: self.tunnels.insert(
                tunnel_id,
                TunnelView { state, ..self.tunnels[tunnel_id] },
            ),
            ..self
        }
    }

    /// The manager with tunnel `tunnel_id` forgotten.
    pub open spec fn without_tunnel(self, tunnel_id: u64) -> Self {
        TunnelManagerView { tunnels: self.tunnels.remove(tunnel_id), ..self }
    }

    /// The manager with a new data channel `conn_id` on tunnel
    /// `tunnel_id`, which is active from then on.
    pub open spec fn with_channel(self, conn_id: u64, tunnel_id: u64) -> Self {
        TunnelManagerView {
            channels: self.channels.insert(conn_id, tunnel_id),
            ..self.moved(tunnel_id, TunnelState::Active)
        }
    }

    /// What a request for a tunnel gives: its id.
    pub open spec fn request_result(self) -> Result<u64, TunnelError> {
        match self.next_id {
            Some(id) => Ok(id),
            None => Err(TunnelError::IdsExhausted),
        }
    }

    /// The manager after a tunnel to `destination` was requested for the
    /// client `owner_client_id`.
    pub open spec fn after_request(self, owner_client_id: u64, destination: AddressView) -> Self {
        match self.next_id {
            Some(id) => TunnelManagerView {
                tunnels: self.tunnels.insert(
                    id,
                    TunnelView { owner_client_id, destination, state: TunnelState::Requested },
                ),
                next_id: after_id(id),
                ..self
            },
            None => self,
        }
    }

    /// What the step from `Requested` to `Allocated` gives, the owner of
    /// the tunnel being connected or not: the request to send to it.
    pub open spec fn allocate_result(self, tunnel_id: u64, online: bool) -> Result<
        AllocTunnelRequestView,
        TunnelError,
    > {
        if !self.is_in(tunnel_id, TunnelState::Requested) {
            Err(TunnelError::UnknownTunnel)
        } else if !online {
            Err(TunnelError::ClientOffline)
        } else {
            Ok(
                AllocTunnelRequestView {
                    tunnel_id,
                    destination: self.tunnels[tunnel_id].destination,
                },
            )
        }
    }

    /// The manager after that step: the tunnel is allocated, or, its
    /// owner being offline, forgotten.
    pub open spec fn after_allocate(self, tunnel_id: u64, online: bool) -> Self {
        if !self.is_in(tunnel_id, TunnelState::Requested) {
            self
        } else if !online {
            self.without_tunnel(tunnel_id)
        } else {
            self.moved(tunnel_id, TunnelState::Allocated)
        }
    }

    /// What the outcome of the dial for tunnel `tunnel_id` gives: the
    /// data channel that now rides the tunnel, which bears the id of the
    /// tunnel, or the error that tells of the failure.
    pub open spec fn settle_result(self, tunnel_id: u64, outcome: Result<(), AllocFailure>)
        -> Result<DataChannel, TunnelError> {
        if !self.is_in(tunnel_id, TunnelState::Allocated) {
            Err(TunnelError::UnknownTunnel)
        } else {
            match outcome {
                Err(f) => Err(failure_error(f)),
                Ok(_) => Ok(DataChannel { conn_id: tunnel_id, tunnel_id }),
            }
        }
    }

    /// The manager after the outcome of the dial: the tunnel is active
    /// with its first data channel, or forgotten and no data channel
    /// made.
    pub open spec fn after_settle(self, tunnel_id: u64, outcome: Result<(), AllocFailure>) -> Self {
        if !self.is_in(tunnel_id, TunnelState::Allocated) {
            self
        } else {
            match self.settle_result(tunnel_id, outcome) {
                Ok(channel) => self.with_channel(channel.conn_id, tunnel_id),
                Err(_) => self.without_tunnel(tunnel_id),
            }
        }
    }

    /// Whether the id `id` names a tunnel or a data channel that lives.
    pub open spec fn in_use(self, id: u64) -> bool {
        self.tunnels.contains_key(id) || self.channels.contains_key(id)
    }

    /// What a client makes of a request for a tunnel: the destination to
    /// dial, unless the id of the tunnel is in use.
    pub open spec fn accept_result(self, request: AllocTunnelRequestView) -> Result<
        AddressView,
        TunnelError,
    > {
        if self.in_use(request.tunnel_id) {
            Err(TunnelError::DuplicateTunnel)
        } else {
            Ok(request.destination)
        }
    }

    /// The manager of client `client_id` after a request for a tunnel:
    /// the tunnel is allocated under the id that the server chose, and
    /// the counter of tunnel ids lies past it.
    pub open spec fn after_accept(self, client_id: u64, request: AllocTunnelRequestView) -> Self {
        if self.in_use(request.tunnel_id) {
            self
        } else {
            TunnelManagerView {
                tunnels: self.tunnels.insert(
                    request.tunnel_id,
                    TunnelView {
                        owner_client_id: client_id,
                        destination: request.destination,
                        state: TunnelState::Allocated,
                    },
                ),
                next_id: past_id(self.next_id, request.tunnel_id),
                ..self
            }
        }
    }

    /// What the reply to the request for tunnel `tunnel_id` gives the
    /// requester: the data channel, or the error.
    pub open spec fn reply_result(self, tunnel_id: u64, reply: Result<FrameView, ConnError>)
        -> Result<DataChannel, TunnelError> {
        match reply_outcome(tunnel_id, reply) {
            Ok(answer) => self.settle_result(tunnel_id, answer.result),
            Err(e) => Err(e),
        }
    }

    /// The manager after the reply: as after the client's answer where
    /// there is one, and else without the tunnel, which made no data
    /// channel.
    pub open spec fn after_reply(self, tunnel_id: u64, reply: Result<FrameView, ConnError>)
        -> Self {
        match reply_outcome(tunnel_id, reply) {
            Ok(answer) => self.after_settle(tunnel_id, answer.result),
            Err(_) => if self.is_in(tunnel_id, TunnelState::Requested) || self.is_in(
                tunnel_id,
                TunnelState::Allocated,
            ) {
                self.without_tunnel(tunnel_id)
            } else {
                self
            },
        }
    }

    /// What a client answers once the dial for tunnel `tunnel_id` has
    /// ended: the outcome as it is, with the data channel made if there
    /// is one. There is no answer where no tunnel waits for the dial.
    pub open spec fn dial_answer(self, tunnel_id: u64, outcome: Result<(), AllocFailure>)
        -> Result<(AllocTunnelResponseView, Option<DataChannel>), TunnelError> {
        match self.settle_result(tunnel_id, outcome) {
            Ok(channel) => Ok(
                (AllocTunnelResponseView { tunnel_id, result: outcome }, Some(channel)),
            ),
            Err(e) => if outcome is Err && self.is_in(tunnel_id, TunnelState::Allocated) {
                Ok((AllocTunnelResponseView { tunnel_id, result: outcome }, None))
            } else {
                Err(e)
            },
        }
    }

    /// What taking over a data channel that the other side opened on
    /// tunnel `tunnel_id` under the id `conn_id` gives.
    pub open spec fn adopt_result(self, tunnel_id: u64, conn_id: u64) -> Result<
        DataChannel,
        TunnelError,
    > {
        if !self.is_in(tunnel_id, TunnelState::Active) {
            Err(TunnelError::UnknownTunnel)
        } else if self.in_use(conn_id) {
            Err(TunnelError::DuplicateChannel)
        } else {
            Ok(DataChannel { conn_id, tunnel_id })
        }
    }

    /// The manager after that: the data channel lives, and the counter
    /// lies past its id.
    pub open spec fn after_adopt(self, tunnel_id: u64, conn_id: u64) -> Self {
        match self.adopt_result(tunnel_id, conn_id) {
            Ok(_) => TunnelManagerView {
                next_id: past_id(self.next_id, conn_id),
                ..self.with_channel(conn_id, tunnel_id)
            },
            Err(_) => self,
        }
    }

    /// The manager after one more data channel was opened on tunnel
    /// `tunnel_id`.
    pub open spec fn after_open(self, tunnel_id: u64) -> Self {
        match self.open_result(tunnel_id) {
            Ok(channel) => TunnelManagerView {
                next_id: after_id(channel.conn_id),
                ..self.with_channel(channel.conn_id, tunnel_id)
            },
            Err(_) => self,
        }
    }

    /// What opening one more data channel on tunnel `tunnel_id` gives:
    /// the data channel, under a fresh id.
    pub open spec fn open_result(self, tunnel_id: u64) -> Result<DataChannel, TunnelError> {
        if !self.is_in(tunnel_id, TunnelState::Active) {
            Err(TunnelError::UnknownTunnel)
        } else {
            match self.next_id {
                None => Err(TunnelError::IdsExhausted),
                Some(conn_id) => Ok(DataChannel { conn_id, tunnel_id }),
            }
        }
    }

    /// The manager after the data channel `conn_id` has ended: the
    /// channel is gone, and with the last channel of a tunnel the tunnel.
    pub open spec fn after_close(self, conn_id: u64) -> Self {
        if !self.channels.contains_key(conn_id) {
            self
        } else {
            let tunnel_id = self.channels[conn_id];
            let channels = self.channels.remove(conn_id);
            if channels_of(channels, tunnel_id) =~= Set::<u64>::empty() {
                TunnelManagerView { channels, ..self.without_tunnel(tunnel_id) }
            } else {
                TunnelManagerView { channels, ..self }
            }
        }
    }

    /// The state of the tunnel of data channel `conn_id` once the channel
    /// has ended: still active, or closed. `None` for an unknown channel.
    pub open spec fn close_result(self, conn_id: u64) -> Option<TunnelState> {
        if !self.channels.contains_key(conn_id) {
            None
        } else if self.after_close(conn_id).tunnels.contains_key(self.channels[conn_id]) {
            Some(TunnelState::Active)
        } else {
            Some(TunnelState::Closed)
        }
    }

    /// What holds of every manager: a data channel rides a tunnel that
    /// lives and is active, an active tunnel has a data channel, every id
    /// in use lies below the counter, a data channel that bears the id of
    /// a tunnel rides that tunnel, and there are finitely many channels.
    pub open spec fn wf(self) -> bool {
        &&& self.channels.dom().finite()
        &&& forall|c: u64| #[trigger]
            self.channels.contains_key(c) ==> self.is_in(self.channels[c], TunnelState::Active)
        &&& forall|t: u64| #[trigger]
            self.is_in(t, TunnelState::Active) ==> channels_of(self.channels, t).len() > 0
        &&& forall|t: u64| #[trigger]
            self.tunnels.contains_key(t) ==> {
                &&& self.tunnels[t].state != TunnelState::Closing
                &&& self.tunnels[t].state != TunnelState::Closed
                &&& self.next_id matches Some(n) ==> t < n
            }
        &&& forall|c: u64| #[trigger]
            self.channels.contains_key(c) ==> {
                &&& self.next_id matches Some(n) ==> c < n
                &&& self.tunnels.contains_key(c) ==> self.channels[c] == c
            }
    }
}

impl View for TunnelManager {
    type V = TunnelManagerView;

    closed spec fn view(&self) -> TunnelManagerView {
        TunnelManagerView {
            tunnels: Map::new(
                |t: u64| self.tunnels@.contains_key(t),
                |t: u64| self.tunnels@[t]@,
            ),
            channels: self.channels@,
            next_id: self.next_id,
        }
    }
}

/// A new data channel adds itself to the channels of its tunnel and to no
/// other.
proof fn lemma_channels_with(channels: Map<u64, u64>, conn_id: u64, tunnel_id: u64, other: u64)
    requires
        !channels.contains_key(conn_id),
    ensures
        channels_of(channels.insert(conn_id, tunnel_id), tunnel_id) == channels_of(
            channels,
            tunnel_id,
        ).insert(conn_id),
        !channels_of(channels, tunnel_id).contains(conn_id),
        other != tunnel_id ==> channels_of(channels.insert(conn_id, tunnel_id), other)
            == channels_of(channels, other),
{
    assert(channels_of(channels.insert(conn_id, tunnel_id), tunnel_id) =~= channels_of(
        channels,
        tunnel_id,
    ).insert(conn_id));
    if other != tunnel_id {
        assert(channels_of(channels.insert(conn_id, tunnel_id), other) =~= channels_of(
            channels,
            other,
        ));
    }
}

/// A data channel that ends leaves the channels of its tunnel and of no
/// other.
proof fn lemma_channels_without(channels: Map<u64, u64>, conn_id: u64, other: u64)
    requires
        channels.contains_key(conn_id),
    ensures
        channels_of(channels.remove(conn_id), channels[conn_id]) == channels_of(
            channels,
            channels[conn_id],
        ).remove(conn_id),
        channels_of(channels, channels[conn_id]).contains(conn_id),
        other != channels[conn_id] ==> channels_of(channels.remove(conn_id), other)
            == channels_of(channels, other),
{
    let t = channels[conn_id];
    assert(channels_of(channels.remove(conn_id), t) =~= channels_of(channels, t).remove(conn_id));
    if other != t {
        assert(channels_of(channels.remove(conn_id), other) =~= channels_of(channels, other));
    }
}

/// The channels of a tunnel are among all channels, so there are finitely
/// many.
proof fn lemma_channels_finite(channels: Map<u64, u64>, tunnel_id: u64)
    requires
        channels.dom().finite(),
    ensures
        channels_of(channels, tunnel_id).finite(),
{
    vstd::set_lib::lemma_len_subset(channels_of(channels, tunnel_id), channels.dom());
}

impl Tunnel {
    /// The client through which the tunnel leads.
    pub fn owner_client_id(&self) -> (id: u64)
        ensures
            id == self@.owner_client_id,
    {
        self.owner_client_id
    }

    /// Where the tunnel leads.
    pub fn destination(&self) -> (a: &Address)
        ensures
            a@ == self@.destination,
    {
        &self.destination
    }

    /// Where the tunnel is in its life.
    pub fn state(&self) -> (s: TunnelState)
        ensures
            s == self@.state,
    {
        self.state
    }
}

impl TunnelManager {
    /// Whether the manager is in order: its view is, and it knows of each
    /// tunnel how many data channels ride it.
    pub closed spec fn wf(&self) -> bool {
        &&& self@.wf()
        &&& forall|t: u64| #[trigger]
            self.tunnels@.contains_key(t) ==> self.tunnels@[t].channels == channels_of(
                self.channels@,
                t,
            ).len()
    }

    /// A manager that is in order has a view that is.
    pub proof fn lemma_view_is_in_order(&self)
        requires
            self.wf(),
        ensures
            self@.wf(),
    {
    }

    /// The manager stays in order where one tunnel that carries no data
    /// channel is added, moved or forgotten and nothing else changes.
    proof fn lemma_idle_tunnel_changed(before: TunnelManager, after: TunnelManager, t: u64)
        requires
            before.wf(),
            after.channels@ == before.channels@,
            !before@.is_in(t, TunnelState::Active),
            !before.tunnels@.contains_key(t) ==> !before.channels@.contains_key(t),
            forall|k: u64|
                k != t ==> (#[trigger] after.tunnels@.contains_key(k))
                    == before.tunnels@.contains_key(k),
            forall|k: u64|
                k != t && before.tunnels@.contains_key(k) ==> (#[trigger] after.tunnels@[k])
                    == before.tunnels@[k],
            after.tunnels@.contains_key(t) ==> {
                &&& after.tunnels@[t].channels == 0
                &&& after.tunnels@[t].state == TunnelState::Requested || after.tunnels@[t].state
                    == TunnelState::Allocated
            },
            after.next_id matches Some(n) ==> {
                &&& before.next_id matches Some(m) && m <= n
                &&& after.tunnels@.contains_key(t) ==> t < n
            },
        ensures
            after.wf(),
    {
        let v = after@;
        let w = before@;
        assert(channels_of(w.channels, t) =~= Set::<u64>::empty()) by {
            assert forall|c: u64| !channels_of(w.channels, t).contains(c) by {
                if w.channels.contains_key(c) {
                    assert(w.is_in(w.channels[c], TunnelState::Active));
                }
            }
        }
        assert forall|c: u64| #[trigger] v.channels.contains_key(c) implies v.is_in(
            v.channels[c],
            TunnelState::Active,
        ) by {
            assert(w.is_in(w.channels[c], TunnelState::Active));
            assert(after.tunnels@.contains_key(w.channels[c]));
            assert(after.tunnels@[w.channels[c]] == before.tunnels@[w.channels[c]]);
        }
        assert forall|k: u64| #[trigger] v.is_in(k, TunnelState::Active) implies channels_of(
            v.channels,
            k,
        ).len() > 0 by {
            assert(after.tunnels@.contains_key(k));
            if k != t {
                assert(after.tunnels@[k] == before.tunnels@[k]);
                assert(w.is_in(k, TunnelState::Active));
            }
        }
        assert forall|k: u64| #[trigger] v.tunnels.contains_key(k) implies {
            &&& v.tunnels[k].state != TunnelState::Closing
            &&& v.tunnels[k].state != TunnelState::Closed
            &&& v.next_id matches Some(n) ==> k < n
        } by {
            assert(after.tunnels@.contains_key(k));
            if k != t {
                assert(after.tunnels@[k] == before.tunnels@[k]);
                assert(w.tunnels.contains_key(k));
            }
        }
        assert forall|c: u64| #[trigger] v.channels.contains_key(c) implies {
            &&& v.next_id matches Some(n) ==> c < n
            &&& v.tunnels.contains_key(c) ==> v.channels[c] == c
        } by {
            assert(w.channels.contains_key(c));
            if v.tunnels.contains_key(c) {
                assert(after.tunnels@.contains_key(c));
                assert(w.tunnels.contains_key(c));
            }
        }
        assert forall|k: u64| #[trigger]
            after.tunnels@.contains_key(k) implies after.tunnels@[k].channels == channels_of(
            after.channels@,
            k,
        ).len() by {
            if k != t {
                assert(after.tunnels@[k] == before.tunnels@[k]);
                assert(before.tunnels@.contains_key(k));
            }
        }
    }

    /// A manager without tunnels, whose counter of ids starts at
    /// `first_id`.
    pub fn new(first_id: u64) -> (m: TunnelManager)
        ensures
            m.wf(),
            m@ == (TunnelManagerView {
                tunnels: Map::empty(),
                channels: Map::empty(),
                next_id: Some(first_id),
            }),
    {
        let m = TunnelManager {
            tunnels: HashMap::new(),
            channels: HashMap::new(),
            next_id: Some(first_id),
        };
        assert(m@.tunnels =~= Map::<u64, TunnelView>::empty());
        m
    }

    /// What is kept of tunnel `tunnel_id`; `None` where no such tunnel
    /// lives.
    pub fn tunnel(&self, tunnel_id: u64) -> (t: Option<&Tunnel>)
        ensures
            match t {
                Some(tunnel) => self@.tunnels.contains_key(tunnel_id) && tunnel@
                    == self@.tunnels[tunnel_id],
                None => !self@.tunnels.contains_key(tunnel_id),
            },
    {
        broadcast use vstd::std_specs::hash::group_hash_axioms;

        self.tunnels.get(&tunnel_id)
    }

    /// How many data channels ride tunnel `tunnel_id`; none where no such
    /// tunnel lives.
    pub fn channel_count(&self, tunnel_id: u64) -> (n: u64)
        requires
            self.wf(),
        ensures
            n == channels_of(self@.channels, tunnel_id).len(),
    {
        broadcast use vstd::std_specs::hash::group_hash_axioms;

        match self.tunnels.get(&tunnel_id) {
            Some(tunnel) => tunnel.channels,
            None => {
                proof {
                    assert(channels_of(self@.channels, tunnel_id) =~= Set::<u64>::empty()) by {
                        assert forall|c: u64| !channels_of(self@.channels, tunnel_id).contains(
                            c,
                        ) by {
                            if self@.channels.contains_key(c) {
                                assert(self@.is_in(self@.channels[c], TunnelState::Active));
                            }
                        }
                    }
                }
                0
            },
        }
    }

    /// The state of tunnel `tunnel_id`; `None` where no such tunnel lives.
    pub fn state_of(&self, tunnel_id: u64) -> (s: Option<TunnelState>)
        ensures
            s == if self@.tunnels.contains_key(tunnel_id) {
                Some(self@.tunnels[tunnel_id].state)
            } else {
                None
            },
    {
        broadcast use vstd::std_specs::hash::group_hash_axioms;

        match self.tunnels.get(&tunnel_id) {
            Some(tunnel) => Some(tunnel.state),
            None => None,
        }
    }

    /// The data channel `conn_id`, by which a data socket that names this
    /// id is matched to its tunnel; `None` where no such channel lives.
    pub fn channel(&self, conn_id: u64) -> (c: Option<DataChannel>)
        ensures
            c == if self@.channels.contains_key(conn_id) {
                Some(DataChannel { conn_id, tunnel_id: self@.channels[conn_id] })
            } else {
                None
            },
    {
        broadcast use vstd::std_specs::hash::group_hash_axioms;

        match self.channels.get(&conn_id) {
            Some(tunnel_id) => Some(DataChannel { conn_id, tunnel_id: *tunnel_id }),
            None => None,
        }
    }

    /// Notes that a front end wants a tunnel to `destination` through the
    /// client `owner_client_id`: the tunnel is `Requested`, under an id
    /// that no tunnel had before.
    pub fn request_tunnel(&mut self, owner_client_id: u64, destination: Address) -> (r: Result<
        u64,
        TunnelError,
    >)
        requires
            old(self).wf(),
        ensures
            final(self).wf(),
            r == old(self)@.request_result(),
            final(self)@ == old(self)@.after_request(owner_client_id, destination@),
    {
        broadcast use vstd::std_specs::hash::group_hash_axioms;

        let tunnel_id = match self.next_id {
            Some(id) => id,
            None => {
                return Err(TunnelError::IdsExhausted);
            },
        };
        self.next_id = if tunnel_id == u64::MAX {
            None
        } else {
            Some(tunnel_id + 1)
        };
        let tunnel = Tunnel {
            owner_client_id,
            destination,
            state: TunnelState::Requested,
            channels: 0,
        };
        self.tunnels.insert(tunnel_id, tunnel);
        proof {
            assert(!old(self)@.tunnels.contains_key(tunnel_id));
            assert(self@.tunnels =~= old(self)@.after_request(
                owner_client_id,
                destination@,
            ).tunnels);
            Self::lemma_idle_tunnel_changed(*old(self), *self, tunnel_id);
        }
        Ok(tunnel_id)
    }

    /// Takes tunnel `tunnel_id` from `Requested` to `Allocated`: looks up
    /// its owner in `router` and gives the request to send to it. Where
    /// the owner is not connected the tunnel fails at once and is
    /// forgotten.
    pub fn allocate<C>(&mut self, router: &Router<C>, tunnel_id: u64) -> (r: Result<
        AllocTunnelRequest,
        TunnelError,
    >)
        requires
            old(self).wf(),
        ensures
            final(self).wf(),
            match old(self)@.allocate_result(
                tunnel_id,
                router@.contains_key(old(self)@.tunnels[tunnel_id].owner_client_id),
            ) {
                Ok(request) => r matches Ok(m) && m@ == request,
                Err(e) => r matches Err(got) && got == e,
            },
            final(self)@ == old(self)@.after_allocate(
                tunnel_id,
                router@.contains_key(old(self)@.tunnels[tunnel_id].owner_client_id),
            ),
    {
        broadcast use vstd::std_specs::hash::group_hash_axioms;

        match self.state_of(tunnel_id) {
            Some(TunnelState::Requested) => {},
            _ => {
                return Err(TunnelError::UnknownTunnel);
            },
        }
        let tunnel = match self.tunnels.remove(&tunnel_id) {
            Some(tunnel) => tunnel,
            None => unreached(),
        };
        if !router.is_online(tunnel.owner_client_id) {
            proof {
                assert(self@.tunnels =~= old(self)@.without_tunnel(tunnel_id).tunnels);
                Self::lemma_idle_tunnel_changed(*old(self), *self, tunnel_id);
            }
            return Err(TunnelError::ClientOffline);
        }
        let request = AllocTunnelRequest::new(tunnel_id, tunnel.destination.duplicate());
        let allocated = Tunnel {
            owner_client_id: tunnel.owner_client_id,
            destination: tunnel.destination,
            state: TunnelState::Allocated,
            channels: 0,
        };
        self.tunnels.insert(tunnel_id, allocated);
        proof {
            assert(self@.tunnels =~= old(self)@.moved(tunnel_id, TunnelState::Allocated).tunnels);
            Self::lemma_idle_tunnel_changed(*old(self), *self, tunnel_id);
        }
        Ok(request)
    }

    /// Gives up a tunnel that carries no data channel yet, as when no
    /// answer to its allocation came in time. Says whether there was
    /// such a tunnel.
    pub fn abandon(&mut self, tunnel_id: u64) -> (r: bool)
        requires
            old(self).wf(),
        ensures
            final(self).wf(),
            r == (old(self)@.is_in(tunnel_id, TunnelState::Requested) || old(self)@.is_in(
                tunnel_id,
                TunnelState::Allocated,
            )),
            final(self)@ == if r {
                old(self)@.without_tunnel(tunnel_id)
            } else {
                old(self)@
            },
    {
        broadcast use vstd::std_specs::hash::group_hash_axioms;

        match self.state_of(tunnel_id) {
            Some(TunnelState::Requested) | Some(TunnelState::Allocated) => {},
            _ => {
                return false;
            },
        }
        self.tunnels.remove(&tunnel_id);
        proof {
            assert(self@.tunnels =~= old(self)@.without_tunnel(tunnel_id).tunnels);
            Self::lemma_idle_tunnel_changed(*old(self), *self, tunnel_id);
        }
        true
    }

    /// The manager stays in order where a data channel under an id that
    /// is not in use, or under the id of its own tunnel, is added to a
    /// tunnel that waits for one or has one.
    proof fn lemma_channel_added(before: TunnelManager, after: TunnelManager, c: u64, t: u64)
        requires
            before.wf(),
            !before.channels@.contains_key(c),
            before.tunnels@.contains_key(c) ==> c == t,
            before.tunnels@.contains_key(t),
            before.tunnels@[t].state == TunnelState::Allocated || before.tunnels@[t].state
                == TunnelState::Active,
            after.channels@ == before.channels@.insert(c, t),
            after.next_id matches Some(n) ==> before.next_id matches Some(m) && m <= n && c < n,
            after.tunnels@.dom() == before.tunnels@.dom(),
            forall|k: u64|
                k != t && before.tunnels@.contains_key(k) ==> (#[trigger] after.tunnels@[k])
                    == before.tunnels@[k],
            after.tunnels@[t].state == TunnelState::Active,
            after.tunnels@[t].channels == before.tunnels@[t].channels + 1,
        ensures
            after.wf(),
    {
        let v = after@;
        let w = before@;
        assert forall|x: u64| #[trigger] v.channels.contains_key(x) implies v.is_in(
            v.channels[x],
            TunnelState::Active,
        ) by {
            if x != c {
                assert(w.is_in(w.channels[x], TunnelState::Active));
                let k = w.channels[x];
                assert(after.tunnels@.dom().contains(k));
                if k != t {
                    assert(after.tunnels@[k] == before.tunnels@[k]);
                }
            } else {
                assert(after.tunnels@.dom().contains(t));
            }
        }
        assert forall|k: u64| #[trigger]
            after.tunnels@.contains_key(k) implies after.tunnels@[k].channels == channels_of(
            after.channels@,
            k,
        ).len() by {
            assert(before.tunnels@.dom().contains(k));
            lemma_channels_with(before.channels@, c, t, k);
            lemma_channels_finite(before.channels@, t);
            if k != t {
                assert(after.tunnels@[k] == before.tunnels@[k]);
            }
        }
        assert forall|k: u64| #[trigger] v.is_in(k, TunnelState::Active) implies channels_of(
            v.channels,
            k,
        ).len() > 0 by {
            assert(after.tunnels@.contains_key(k));
            assert(before.tunnels@.dom().contains(k));
            if k != t {
                assert(after.tunnels@[k] == before.tunnels@[k]);
                assert(w.is_in(k, TunnelState::Active));
                lemma_channels_with(before.channels@, c, t, k);
            }
        }
        assert forall|k: u64| #[trigger] v.tunnels.contains_key(k) implies {
            &&& v.tunnels[k].state != TunnelState::Closing
            &&& v.tunnels[k].state != TunnelState::Closed
            &&& v.next_id matches Some(n) ==> k < n
        } by {
            assert(before.tunnels@.dom().contains(k));
            assert(w.tunnels.contains_key(k));
            if k != t {
                assert(after.tunnels@[k] == before.tunnels@[k]);
            }
        }
        assert forall|x: u64| #[trigger] v.channels.contains_key(x) implies {
            &&& v.next_id matches Some(n) ==> x < n
            &&& v.tunnels.contains_key(x) ==> v.channels[x] == x
        } by {
            if x != c {
                assert(w.channels.contains_key(x));
            }
            if v.tunnels.contains_key(x) {
                assert(after.tunnels@.contains_key(x));
                assert(before.tunnels@.dom().contains(x));
                assert(w.tunnels.contains_key(x));
            }
        }
    }

    /// Adds the data channel `conn_id` to tunnel `tunnel_id` and sets the
    /// counter to `next`.
    fn add_channel(&mut self, tunnel_id: u64, conn_id: u64, next: Option<u64>) -> (channel:
        DataChannel)
        requires
            old(self).wf(),
            !old(self)@.channels.contains_key(conn_id),
            old(self)@.tunnels.contains_key(conn_id) ==> conn_id == tunnel_id,
            next matches Some(n) ==> old(self)@.next_id matches Some(m) && m <= n && conn_id < n,
            old(self)@.is_in(tunnel_id, TunnelState::Allocated) || old(self)@.is_in(
                tunnel_id,
                TunnelState::Active,
            ),
        ensures
            final(self).wf(),
            channel == (DataChannel { conn_id, tunnel_id }),
            final(self)@ == (TunnelManagerView {
                next_id: next,
                ..old(self)@.with_channel(conn_id, tunnel_id)
            }),
    {
        broadcast use vstd::std_specs::hash::group_hash_axioms;

        let tunnel = match self.tunnels.remove(&tunnel_id) {
            Some(tunnel) => tunnel,
            None => unreached(),
        };
        proof {
            lemma_channels_finite(old(self).channels@, tunnel_id);
            vstd::set_lib::lemma_len_subset(
                channels_of(old(self).channels@, tunnel_id),
                old(self).channels@.dom(),
            );
        }
        self.channels.insert(conn_id, tunnel_id);
        proof {
            assert(vstd::std_specs::hash::spec_hash_map_len(&self.channels)
                == self.channels@.len());
            assert(self.channels@.len() == old(self).channels@.len() + 1);
        }
        let active = Tunnel {
            owner_client_id: tunnel.owner_client_id,
            destination: tunnel.destination,
            state: TunnelState::Active,
            channels: tunnel.channels + 1,
        };
        self.tunnels.insert(tunnel_id, active);
        self.next_id = next;
        proof {
            assert(self.tunnels@.dom() =~= old(self).tunnels@.dom());
            assert(self@.tunnels =~= old(self)@.with_channel(conn_id, tunnel_id).tunnels);
            assert(old(self).tunnels@.contains_key(conn_id) ==> old(self)@.tunnels.contains_key(
                conn_id,
            ));
            Self::lemma_channel_added(*old(self), *self, conn_id, tunnel_id);
        }
        DataChannel { conn_id, tunnel_id }
    }

    /// Takes the outcome of the dial for tunnel `tunnel_id`.
    fn settle(&mut self, tunnel_id: u64, outcome: Result<(), AllocFailure>) -> (r: Result<
        DataChannel,
        TunnelError,
    >)
        requires
            old(self).wf(),
        ensures
            final(self).wf(),
            r == old(self)@.settle_result(tunnel_id, outcome),
            final(self)@ == old(self)@.after_settle(tunnel_id, outcome),
    {
        broadcast use vstd::std_specs::hash::group_hash_axioms;

        match self.state_of(tunnel_id) {
            Some(TunnelState::Allocated) => {},
            _ => {
                return Err(TunnelError::UnknownTunnel);
            },
        }
        let failure = match outcome {
            Ok(_) => {
                proof {
                    if old(self)@.channels.contains_key(tunnel_id) {
                        assert(old(self)@.is_in(
                            old(self)@.channels[tunnel_id],
                            TunnelState::Active,
                        ));
                    }
                }
                let next = self.next_id;
                return Ok(self.add_channel(tunnel_id, tunnel_id, next));
            },
            Err(AllocFailure::ConnectRefused) => TunnelError::ConnectRefused,
            Err(AllocFailure::HostUnreachable) => TunnelError::HostUnreachable,
            Err(AllocFailure::Timeout) => TunnelError::Timeout,
        };
        self.tunnels.remove(&tunnel_id);
        proof {
            assert(self@.tunnels =~= old(self)@.without_tunnel(tunnel_id).tunnels);
            Self::lemma_idle_tunnel_changed(*old(self), *self, tunnel_id);
        }
        Err(failure)
    }

    /// Takes the client's answer to the request for a tunnel. With a
    /// success the tunnel is active and its first data channel is given,
    /// which bears the id of the tunnel.
    /// With a failure the caller gets the error that tells of it, the
    /// tunnel is forgotten, and no data channel is made.
    pub fn on_alloc_response(&mut self, response: &AllocTunnelResponse) -> (r: Result<
        DataChannel,
        TunnelError,
    >)
        requires
            old(self).wf(),
        ensures
            final(self).wf(),
            r == old(self)@.settle_result(response@.tunnel_id, response@.result),
            final(self)@ == old(self)@.after_settle(response@.tunnel_id, response@.result),
    {
        self.settle(response.get_tunnel_id(), response.get_result())
    }

    /// Takes what came of the request for tunnel `tunnel_id` that went to
    /// the client: the frame that answers it, or why there is none. With
    /// the client's answer the tunnel goes on as
    /// [`on_alloc_response`](Self::on_alloc_response) says. Without one
    /// (the request timed out, the connection failed, the frame is an
    /// error response or cannot be read) the tunnel is forgotten and the
    /// requester gets the error that tells why.
    pub fn on_alloc_reply(&mut self, tunnel_id: u64, reply: &Result<Frame, ConnError>) -> (r:
        Result<DataChannel, TunnelError>)
        requires
            old(self).wf(),
        ensures
            final(self).wf(),
            r == old(self)@.reply_result(tunnel_id, reply_view(*reply)),
            final(self)@ == old(self)@.after_reply(tunnel_id, reply_view(*reply)),
    {
        let failure = match reply {
            Ok(frame) => match unpack_response::<AllocTunnelResponse>(frame) {
                Ok(answer) => {
                    if answer.get_tunnel_id() == tunnel_id {
                        return self.on_alloc_response(&answer);
                    }
                    TunnelError::HostUnreachable
                },
                Err(_) => TunnelError::HostUnreachable,
            },
            Err(e) => request_failure(*e),
        };
        self.abandon(tunnel_id);
        Err(failure)
    }

    /// On the client: takes in a request for a tunnel and gives the
    /// destination to dial. The tunnel is `Allocated` under the id that
    /// the server chose. A request under an id that is in use is refused.
    pub fn accept(&mut self, client_id: u64, request: &AllocTunnelRequest) -> (r: Result<
        Address,
        TunnelError,
    >)
        requires
            old(self).wf(),
        ensures
            final(self).wf(),
            match old(self)@.accept_result(request@) {
                Ok(destination) => r matches Ok(a) && a@ == destination,
                Err(e) => r matches Err(got) && got == e,
            },
            final(self)@ == old(self)@.after_accept(client_id, request@),
    {
        broadcast use vstd::std_specs::hash::group_hash_axioms;

        let tunnel_id = request.get_tunnel_id();
        if self.tunnels.contains_key(&tunnel_id) || self.channels.contains_key(&tunnel_id) {
            return Err(TunnelError::DuplicateTunnel);
        }
        let tunnel = Tunnel {
            owner_client_id: client_id,
            destination: request.get_destination().duplicate(),
            state: TunnelState::Allocated,
            channels: 0,
        };
        self.tunnels.insert(tunnel_id, tunnel);
        self.next_id = match self.next_id {
            Some(n) if n > tunnel_id => Some(n),
            Some(_) => if tunnel_id == u64::MAX {
                None
            } else {
                Some(tunnel_id + 1)
            },
            None => None,
        };
        proof {
            assert(self@.tunnels =~= old(self)@.after_accept(client_id, request@).tunnels);
            Self::lemma_idle_tunnel_changed(*old(self), *self, tunnel_id);
        }
        Ok(request.get_destination().duplicate())
    }

    /// On the client: takes the outcome of the dial for tunnel
    /// `tunnel_id` and gives the answer to send to the server, with the
    /// data channel that now rides the tunnel if the dial succeeded; it
    /// bears the id of the tunnel, as it does on the server.
    /// After a failed dial the tunnel is forgotten and no data channel is
    /// made.
    pub fn dialed(&mut self, tunnel_id: u64, outcome: Result<(), AllocFailure>) -> (r: Result<
        (AllocTunnelResponse, Option<DataChannel>),
        TunnelError,
    >)
        requires
            old(self).wf(),
        ensures
            final(self).wf(),
            final(self)@ == old(self)@.after_settle(tunnel_id, outcome),
            match old(self)@.dial_answer(tunnel_id, outcome) {
                Ok((answer, channel)) => r matches Ok((response, made)) && response@ == answer
                    && made == channel,
                Err(e) => r matches Err(got) && got == e,
            },
    {
        let known = match self.state_of(tunnel_id) {
            Some(TunnelState::Allocated) => true,
            _ => false,
        };
        match self.settle(tunnel_id, outcome) {
            Ok(channel) => Ok((AllocTunnelResponse::new(tunnel_id, outcome), Some(channel))),
            Err(e) => {
                if known && outcome.is_err() {
                    Ok((AllocTunnelResponse::new(tunnel_id, outcome), None))
                } else {
                    Err(e)
                }
            },
        }
    }

    /// Opens one more data channel on an active tunnel.
    pub fn open_channel(&mut self, tunnel_id: u64) -> (r: Result<DataChannel, TunnelError>)
        requires
            old(self).wf(),
        ensures
            final(self).wf(),
            r == old(self)@.open_result(tunnel_id),
            final(self)@ == old(self)@.after_open(tunnel_id),
    {
        match self.state_of(tunnel_id) {
            Some(TunnelState::Active) => {},
            _ => {
                return Err(TunnelError::UnknownTunnel);
            },
        }
        match self.next_id {
            Some(conn_id) => {
                proof {
                    if old(self)@.channels.contains_key(conn_id) {
                        assert(conn_id < conn_id);
                    }
                    if old(self)@.tunnels.contains_key(conn_id) {
                        assert(conn_id < conn_id);
                    }
                }
                let next = if conn_id == u64::MAX {
                    None
                } else {
                    Some(conn_id + 1)
                };
                Ok(self.add_channel(tunnel_id, conn_id, next))
            },
            None => Err(TunnelError::IdsExhausted),
        }
    }

    /// Takes over a data channel that the other side opened on tunnel
    /// `tunnel_id` under the id `conn_id`, as a data socket that names
    /// both tells. An id that is in use is refused, and nothing changes.
    pub fn adopt_channel(&mut self, tunnel_id: u64, conn_id: u64) -> (r: Result<
        DataChannel,
        TunnelError,
    >)
        requires
            old(self).wf(),
        ensures
            final(self).wf(),
            r == old(self)@.adopt_result(tunnel_id, conn_id),
            final(self)@ == old(self)@.after_adopt(tunnel_id, conn_id),
    {
        broadcast use vstd::std_specs::hash::group_hash_axioms;

        match self.state_of(tunnel_id) {
            Some(TunnelState::Active) => {},
            _ => {
                return Err(TunnelError::UnknownTunnel);
            },
        }
        if self.tunnels.contains_key(&conn_id) || self.channels.contains_key(&conn_id) {
            return Err(TunnelError::DuplicateChannel);
        }
        let next = match self.next_id {
            Some(n) if n > conn_id => Some(n),
            Some(_) => if conn_id == u64::MAX {
                None
            } else {
                Some(conn_id + 1)
            },
            None => None,
        };
        Ok(self.add_channel(tunnel_id, conn_id, next))
    }

    /// The manager stays in order where a data channel ends and its
    /// tunnel, if the channel was its last, is forgotten.
    proof fn lemma_channel_removed(before: TunnelManager, after: TunnelManager, c: u64)
        requires
            before.wf(),
            before.channels@.contains_key(c),
            after.channels@ == before.channels@.remove(c),
            after.next_id == before.next_id,
            forall|k: u64|
                k != before.channels@[c] ==> (#[trigger] after.tunnels@.contains_key(k))
                    == before.tunnels@.contains_key(k),
            forall|k: u64|
                k != before.channels@[c] && before.tunnels@.contains_key(k) ==> (
                #[trigger] after.tunnels@[k]) == before.tunnels@[k],
            before.tunnels@[before.channels@[c]].channels == 1 ==> !after.tunnels@.contains_key(
                before.channels@[c],
            ),
            before.tunnels@[before.channels@[c]].channels != 1 ==> {
                &&& after.tunnels@.contains_key(before.channels@[c])
                &&& after.tunnels@[before.channels@[c]].state == TunnelState::Active
                &&& after.tunnels@[before.channels@[c]].channels
                    == before.tunnels@[before.channels@[c]].channels - 1
            },
        ensures
            after.wf(),
            before.tunnels@.contains_key(before.channels@[c]),
            (before.tunnels@[before.channels@[c]].channels == 1) == (channels_of(
                after.channels@,
                before.channels@[c],
            ) =~= Set::<u64>::empty()),
    {
        let v = after@;
        let w = before@;
        let t = before.channels@[c];
        assert(w.is_in(t, TunnelState::Active));
        assert(before.tunnels@.contains_key(t));
        lemma_channels_without(before.channels@, c, t);
        lemma_channels_finite(before.channels@, t);
        lemma_channels_finite(after.channels@, t);
        let rest = channels_of(after.channels@, t);
        assert(rest.len() == before.tunnels@[t].channels - 1);
        if before.tunnels@[t].channels == 1 {
            rest.lemma_len0_is_empty();
            assert(rest =~= Set::<u64>::empty());
        } else {
            assert(rest.len() > 0);
            assert(!(rest =~= Set::<u64>::empty()));
        }
        assert forall|x: u64| #[trigger] v.channels.contains_key(x) implies v.is_in(
            v.channels[x],
            TunnelState::Active,
        ) by {
            assert(w.channels.contains_key(x));
            assert(w.is_in(w.channels[x], TunnelState::Active));
            let k = w.channels[x];
            if k != t {
                assert(after.tunnels@.contains_key(k));
                assert(after.tunnels@[k] == before.tunnels@[k]);
            } else {
                assert(rest.contains(x));
            }
        }
        assert forall|k: u64| #[trigger]
            after.tunnels@.contains_key(k) implies after.tunnels@[k].channels == channels_of(
            after.channels@,
            k,
        ).len() by {
            lemma_channels_without(before.channels@, c, k);
            if k != t {
                assert(before.tunnels@.contains_key(k));
                assert(after.tunnels@[k] == before.tunnels@[k]);
            }
        }
        assert forall|k: u64| #[trigger] v.is_in(k, TunnelState::Active) implies channels_of(
            v.channels,
            k,
        ).len() > 0 by {
            assert(after.tunnels@.contains_key(k));
            lemma_channels_without(before.channels@, c, k);
            if k != t {
                assert(after.tunnels@[k] == before.tunnels@[k]);
                assert(w.is_in(k, TunnelState::Active));
            }
        }
        assert forall|k: u64| #[trigger] v.tunnels.contains_key(k) implies {
            &&& v.tunnels[k].state != TunnelState::Closing
            &&& v.tunnels[k].state != TunnelState::Closed
            &&& v.next_id matches Some(n) ==> k < n
        } by {
            assert(after.tunnels@.contains_key(k));
            if k != t {
                assert(after.tunnels@[k] == before.tunnels@[k]);
                assert(w.tunnels.contains_key(k));
            } else {
                assert(w.tunnels.contains_key(t));
            }
        }
        assert forall|x: u64| #[trigger] v.channels.contains_key(x) implies {
            &&& v.next_id matches Some(n) ==> x < n
            &&& v.tunnels.contains_key(x) ==> v.channels[x] == x
        } by {
            assert(w.channels.contains_key(x));
            if v.tunnels.contains_key(x) {
                assert(after.tunnels@.contains_key(x));
                assert(w.tunnels.contains_key(x));
            }
        }
    }

    /// Notes that the data channel `conn_id` has ended, cleanly or not.
    /// Its siblings on the tunnel go on. With its last data channel the
    /// tunnel closes and is forgotten: the result says whether the tunnel
    /// is still active or closed. `None` where no such channel lives, and
    /// nothing changes.
    pub fn close_channel(&mut self, conn_id: u64) -> (r: Option<TunnelState>)
        requires
            old(self).wf(),
        ensures
            final(self).wf(),
            r == old(self)@.close_result(conn_id),
            final(self)@ == old(self)@.after_close(conn_id),
    {
        broadcast use vstd::std_specs::hash::group_hash_axioms;

        let tunnel_id = match self.channels.remove(&conn_id) {
            Some(tunnel_id) => tunnel_id,
            None => {
                assert(self.channels@ =~= old(self).channels@);
                return None;
            },
        };
        assert(old(self)@.is_in(tunnel_id, TunnelState::Active));
        let tunnel = match self.tunnels.remove(&tunnel_id) {
            Some(tunnel) => tunnel,
            None => unreached(),
        };
        proof {
            lemma_channels_without(old(self).channels@, conn_id, tunnel_id);
            lemma_channels_finite(old(self).channels@, tunnel_id);
        }
        if tunnel.channels == 1 {
            proof {
                Self::lemma_channel_removed(*old(self), *self, conn_id);
                assert(self@.tunnels =~= old(self)@.after_close(conn_id).tunnels);
            }
            Some(TunnelState::Closed)
        } else {
            let left = Tunnel {
                owner_client_id: tunnel.owner_client_id,
                destination: tunnel.destination,
                state: TunnelState::Active,
                channels: tunnel.channels - 1,
            };
            self.tunnels.insert(tunnel_id, left);
            proof {
                Self::lemma_channel_removed(*old(self), *self, conn_id);
                assert(self@.tunnels =~= old(self)@.after_close(conn_id).tunnels);
            }
            Some(TunnelState::Active)
        }
    }
}

/// A dial that fails on the client reaches the one who asked for the
/// tunnel on the server as the error of its kind, and makes no data
/// channel: the client answers with the failure as it is, and the server,
/// taking that answer out of the frame that brings it, forgets the tunnel,
/// gives the error, and has the data channels it had.
pub proof fn lemma_dial_failure_reaches_requester(
    client: TunnelManagerView,
    server: TunnelManagerView,
    tunnel_id: u64,
    failure: AllocFailure,
    tx_id: u32,
)
    requires
        client.is_in(tunnel_id, TunnelState::Allocated),
        server.is_in(tunnel_id, TunnelState::Allocated),
    ensures
        client.dial_answer(tunnel_id, Err(failure)) == Ok::<
            (AllocTunnelResponseView, Option<DataChannel>),
            TunnelError,
        >((AllocTunnelResponseView { tunnel_id, result: Err(failure) }, None)),
        client.after_settle(tunnel_id, Err(failure)).channels == client.channels,
        unpacked_response::<AllocTunnelResponse>(
            packed::<AllocTunnelResponse>(
                FrameKind::Response,
                tx_id,
                AllocTunnelResponseView { tunnel_id, result: Err(failure) },
            ),
        ) == Ok::<AllocTunnelResponseView, ResponseError>(
            AllocTunnelResponseView { tunnel_id, result: Err(failure) },
        ),
        server.settle_result(tunnel_id, Err(failure)) == Err::<DataChannel, TunnelError>(
            failure_error(failure),
        ),
        server.reply_result(
            tunnel_id,
            Ok(
                packed::<AllocTunnelResponse>(
                    FrameKind::Response,
                    tx_id,
                    AllocTunnelResponseView { tunnel_id, result: Err(failure) },
                ),
            ),
        ) == Err::<DataChannel, TunnelError>(failure_error(failure)),
        server.after_settle(tunnel_id, Err(failure)).channels == server.channels,
        !server.after_settle(tunnel_id, Err(failure)).tunnels.contains_key(tunnel_id),
{
    lemma_pack_unpack::<AllocTunnelResponse>(
        FrameKind::Response,
        tx_id,
        AllocTunnelResponseView { tunnel_id, result: Err(failure) },
    );
}

/// The two sides give the data channel of an allocation one name: where
/// the dial succeeds, the data channel that the client makes and the one
/// that the server makes on the client's answer bear the same id, that of
/// the tunnel, which the messages of the allocation carry.
pub proof fn lemma_both_sides_name_the_channel_alike(
    client: TunnelManagerView,
    server: TunnelManagerView,
    tunnel_id: u64,
    tx_id: u32,
)
    requires
        client.is_in(tunnel_id, TunnelState::Allocated),
        server.is_in(tunnel_id, TunnelState::Allocated),
    ensures
        client.dial_answer(tunnel_id, Ok(())) == Ok::<
            (AllocTunnelResponseView, Option<DataChannel>),
            TunnelError,
        >(
            (
                AllocTunnelResponseView { tunnel_id, result: Ok(()) },
                Some(DataChannel { conn_id: tunnel_id, tunnel_id }),
            ),
        ),
        server.reply_result(
            tunnel_id,
            Ok(
                packed::<AllocTunnelResponse>(
                    FrameKind::Response,
                    tx_id,
                    AllocTunnelResponseView { tunnel_id, result: Ok(()) },
                ),
            ),
        ) == Ok::<DataChannel, TunnelError>(DataChannel { conn_id: tunnel_id, tunnel_id }),
        client.after_settle(tunnel_id, Ok(())).channels.contains_key(tunnel_id),
        server.after_settle(tunnel_id, Ok(())).channels.contains_key(tunnel_id),
{
    lemma_pack_unpack::<AllocTunnelResponse>(
        FrameKind::Response,
        tx_id,
        AllocTunnelResponseView { tunnel_id, result: Ok(()) },
    );
}

/// A request that has no answer fails the tunnel: whatever kept the
/// answer away, the requester gets an error, the tunnel is forgotten, and
/// no data channel is made.
pub proof fn lemma_unanswered_request_fails_the_tunnel(
    m: TunnelManagerView,
    tunnel_id: u64,
    e: ConnError,
)
    requires
        m.is_in(tunnel_id, TunnelState::Allocated),
    ensures
        m.reply_result(tunnel_id, Err(e)) == Err::<DataChannel, TunnelError>(
            request_failure_of(e),
        ),
        !m.after_reply(tunnel_id, Err(e)).tunnels.contains_key(tunnel_id),
        m.after_reply(tunnel_id, Err(e)).channels == m.channels,
{
}

/// A tunnel whose owner is offline fails at once: it is forgotten, and
/// nothing else changes.
pub proof fn lemma_offline_owner_fails_at_once(m: TunnelManagerView, tunnel_id: u64)
    requires
        m.is_in(tunnel_id, TunnelState::Requested),
    ensures
        m.allocate_result(tunnel_id, false) == Err::<AllocTunnelRequestView, TunnelError>(
            TunnelError::ClientOffline,
        ),
        !m.after_allocate(tunnel_id, false).tunnels.contains_key(tunnel_id),
        m.after_allocate(tunnel_id, false).channels == m.channels,
{
}

/// The place of a state in the life of a tunnel.
pub open spec fn state_rank(state: TunnelState) -> nat {
    match state {
        TunnelState::Requested => 0,
        TunnelState::Allocated => 1,
        TunnelState::Active => 2,
        TunnelState::Closing => 3,
        TunnelState::Closed => 4,
    }
}

/// A tunnel never goes back in its life, and an id is never given to a
/// second tunnel: whatever step is taken, a tunnel that lives after it
/// lived before it in the same or an earlier state, or is the one new
/// tunnel, whose id no tunnel had.
pub proof fn lemma_tunnels_only_advance(
    m: TunnelManagerView,
    owner_client_id: u64,
    destination: AddressView,
    tunnel_id: u64,
    online: bool,
    outcome: Result<(), AllocFailure>,
    conn_id: u64,
    t: u64,
)
    requires
        m.wf(),
    ensures
        m.after_request(owner_client_id, destination).tunnels.contains_key(t) ==> (
        m.tunnels.contains_key(t) && m.after_request(owner_client_id, destination).tunnels[t]
            == m.tunnels[t]) || (!m.tunnels.contains_key(t) && m.next_id == Some(t)),
        m.after_allocate(tunnel_id, online).tunnels.contains_key(t) ==> m.tunnels.contains_key(t)
            && state_rank(m.tunnels[t].state) <= state_rank(
            m.after_allocate(tunnel_id, online).tunnels[t].state,
        ),
        m.after_settle(tunnel_id, outcome).tunnels.contains_key(t) ==> m.tunnels.contains_key(t)
            && state_rank(m.tunnels[t].state) <= state_rank(
            m.after_settle(tunnel_id, outcome).tunnels[t].state,
        ),
        m.after_close(conn_id).tunnels.contains_key(t) ==> m.tunnels.contains_key(t)
            && m.after_close(conn_id).tunnels[t] == m.tunnels[t],
        m.after_request(owner_client_id, destination).next_id matches Some(n)
            ==> m.next_id matches Some(k) && k < n,
{
    match m.next_id {
        Some(id) => {
            if m.tunnels.contains_key(id) {
                assert(id < id);
            }
        },
        None => {},
    }
}

/// The end of one data channel leaves its siblings alone: every other
/// data channel lives on, on the tunnel it rode.
pub proof fn lemma_close_leaves_siblings(m: TunnelManagerView, conn_id: u64, sibling: u64)
    requires
        m.wf(),
        m.channels.contains_key(sibling),
        sibling != conn_id,
    ensures
        m.after_close(conn_id).channels.contains_key(sibling),
        m.after_close(conn_id).channels[sibling] == m.channels[sibling],
        m.after_close(conn_id).is_in(m.channels[sibling], TunnelState::Active),
        !m.after_close(conn_id).channels.contains_key(conn_id),
{
    assert(m.is_in(m.channels[sibling], TunnelState::Active));
    if m.channels.contains_key(conn_id) {
        let t = m.channels[conn_id];
        let channels = m.channels.remove(conn_id);
        if m.channels[sibling] == t {
            assert(channels_of(channels, t).contains(sibling));
        }
    }
}

} // verus!

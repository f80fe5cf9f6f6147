//! The messages of the control connection and their payloads.
//!
//! A payload holds the fields of its message in order, numbers big-endian,
//! strings counted. A message is read from the start of the bytes at hand
//! and takes its own bytes: what follows it is left unread.

use crate::address::take16;
use crate::address::take4;
use crate::address::Address;
use crate::address::AddressView;
use crate::frame::Frame;
use crate::frame::FrameKind;
use crate::frame::FrameView;
use crate::wire::get_u16;
use crate::wire::get_u64;
use crate::wire::lemma_str_bytes_of_parse;
use crate::wire::lemma_str_round_trip;
use crate::wire::lemma_u16_bytes_of_value;
use crate::wire::lemma_u16_round_trip;
use crate::wire::lemma_u64_bytes_of_value;
use crate::wire::lemma_u64_round_trip;
use crate::wire::put_bytes;
use crate::wire::put_u16;
use crate::wire::put_u64;
use crate::wire::read_str;
use crate::wire::str_bytes;
use crate::wire::str_fits;
use crate::wire::str_parse;
use crate::wire::tail;
use crate::wire::u16_at;
use crate::wire::u16_bytes;
use crate::wire::u16_value;
use crate::wire::u64_at;
use crate::wire::u64_bytes;
use crate::wire::u64_value;
use crate::wire::write_str;
use crate::wire::CodecError;
use vstd::prelude::*;
use vstd::std_specs::convert::FromSpecImpl;
use vstd::std_specs::convert::TryFromSpecImpl;

verus! {

/// The type codes of the messages.
pub const TYPE_AUTH_REQUEST: u16 = 1;

pub const TYPE_AUTH_RESPONSE: u16 = 2;

pub const TYPE_ALLOC_TUNNEL_REQUEST: u16 = 3;

pub const TYPE_ALLOC_TUNNEL_RESPONSE: u16 = 4;

pub const TYPE_ERROR_RESPONSE: u16 = 0xffff;

/// The tags of the kinds of destination.
pub const DEST_IPV4: u8 = 1;

pub const DEST_DOMAIN_NAME: u8 = 3;

pub const DEST_IPV6: u8 = 4;

/// The messages that a frame can carry.
#[derive(Clone, Copy, Debug, PartialEq, Eq, Structural)]
pub enum MessageType {
    AuthRequest,
    AuthResponse,
    AllocTunnelRequest,
    AllocTunnelResponse,
    /// The answer to a request that could not be served.
    ErrorResponse,
}

/// The type code of a message.
pub open spec fn type_code(t: MessageType) -> u16 {
    match t {
        MessageType::AuthRequest => TYPE_AUTH_REQUEST,
        MessageType::AuthResponse => TYPE_AUTH_RESPONSE,
        MessageType::AllocTunnelRequest => TYPE_ALLOC_TUNNEL_REQUEST,
        MessageType::AllocTunnelResponse => TYPE_ALLOC_TUNNEL_RESPONSE,
        MessageType::ErrorResponse => TYPE_ERROR_RESPONSE,
    }
}

/// The message that a type code stands for, if any.
pub open spec fn type_of(code: u16) -> Option<MessageType> {
    if code == TYPE_AUTH_REQUEST {
        Some(MessageType::AuthRequest)
    } else if code == TYPE_AUTH_RESPONSE {
        Some(MessageType::AuthResponse)
    } else if code == TYPE_ALLOC_TUNNEL_REQUEST {
        Some(MessageType::AllocTunnelRequest)
    } else if code == TYPE_ALLOC_TUNNEL_RESPONSE {
        Some(MessageType::AllocTunnelResponse)
    } else if code == TYPE_ERROR_RESPONSE {
        Some(MessageType::ErrorResponse)
    } else {
        None
    }
}

impl TryFrom<u16> for MessageType {
    type Error = CodecError;

    fn try_from(value: u16) -> (r: Result<MessageType, CodecError>) {
        match value {
            TYPE_AUTH_REQUEST => Ok(MessageType::AuthRequest),
            TYPE_AUTH_RESPONSE => Ok(MessageType::AuthResponse),
            TYPE_ALLOC_TUNNEL_REQUEST => Ok(MessageType::AllocTunnelRequest),
            TYPE_ALLOC_TUNNEL_RESPONSE => Ok(MessageType::AllocTunnelResponse),
            TYPE_ERROR_RESPONSE => Ok(MessageType::ErrorResponse),
            _ => Err(CodecError::UnknownCommand),
        }
    }
}

impl TryFromSpecImpl<u16> for MessageType {
    open spec fn obeys_try_from_spec() -> bool {
        true
    }

    open spec fn try_from_spec(value: u16) -> Result<MessageType, CodecError> {
        match type_of(value) {
            Some(t) => Ok(t),
            None => Err(CodecError::UnknownCommand),
        }
    }
}

impl From<MessageType> for u16 {
    fn from(t: MessageType) -> (r: u16) {
        match t {
            MessageType::AuthRequest => TYPE_AUTH_REQUEST,
            MessageType::AuthResponse => TYPE_AUTH_RESPONSE,
            MessageType::AllocTunnelRequest => TYPE_ALLOC_TUNNEL_REQUEST,
            MessageType::AllocTunnelResponse => TYPE_ALLOC_TUNNEL_RESPONSE,
            MessageType::ErrorResponse => TYPE_ERROR_RESPONSE,
        }
    }
}

impl FromSpecImpl<MessageType> for u16 {
    open spec fn obeys_from_spec() -> bool {
        true
    }

    open spec fn from_spec(t: MessageType) -> u16 {
        type_code(t)
    }
}

/// Every message type comes back from its own code, and no two share one.
pub proof fn lemma_type_code_round_trip(t: MessageType)
    ensures
        type_of(type_code(t)) == Some(t),
{
}

/// The number that stands for an error in an error response.
pub open spec fn error_code(e: CodecError) -> u16 {
    match e {
        CodecError::UnknownCommand => 1,
        CodecError::InvalidUtf8 => 2,
        CodecError::StringTooLong => 3,
        CodecError::UnexpectedEnd => 4,
        CodecError::InvalidValue => 5,
        CodecError::WrongType => 6,
    }
}

/// The error that a number stands for, if any.
pub open spec fn error_of(code: u16) -> Option<CodecError> {
    if code == 1 {
        Some(CodecError::UnknownCommand)
    } else if code == 2 {
        Some(CodecError::InvalidUtf8)
    } else if code == 3 {
        Some(CodecError::StringTooLong)
    } else if code == 4 {
        Some(CodecError::UnexpectedEnd)
    } else if code == 5 {
        Some(CodecError::InvalidValue)
    } else if code == 6 {
        Some(CodecError::WrongType)
    } else {
        None
    }
}

/// Why a dial to the destination of a tunnel failed.
#[derive(Clone, Copy, Debug, PartialEq, Eq, Structural)]
pub enum AllocFailure {
    ConnectRefused,
    HostUnreachable,
    Timeout,
}

/// The number that stands for the outcome of an allocation.
pub open spec fn result_code(r: Result<(), AllocFailure>) -> u16 {
    match r {
        Ok(_) => 0,
        Err(AllocFailure::ConnectRefused) => 1,
        Err(AllocFailure::HostUnreachable) => 2,
        Err(AllocFailure::Timeout) => 3,
    }
}

/// The outcome that a number stands for, if any.
pub open spec fn result_of(code: u16) -> Option<Result<(), AllocFailure>> {
    if code == 0 {
        Some(Ok(()))
    } else if code == 1 {
        Some(Err(AllocFailure::ConnectRefused))
    } else if code == 2 {
        Some(Err(AllocFailure::HostUnreachable))
    } else if code == 3 {
        Some(Err(AllocFailure::Timeout))
    } else {
        None
    }
}

/// Every outcome comes back from its own number.
pub proof fn lemma_result_code_round_trip(r: Result<(), AllocFailure>)
    ensures
        result_of(result_code(r)) == Some(r),
{
    match r {
        Ok(unit) => {
            assert(unit == ());
        },
        Err(_) => {},
    }
}

/// Every error comes back from its own number.
pub proof fn lemma_error_code_round_trip(e: CodecError)
    ensures
        error_of(error_code(e)) == Some(e),
{
}

/// A destination in a payload: a tag, the address (a host name as a
/// counted string), the port.
pub open spec fn dest_bytes(a: AddressView) -> Seq<u8> {
    match a {
        AddressView::Ipv4(ip, port) => seq![DEST_IPV4] + ip + u16_bytes(port),
        AddressView::DomainName(name, port) => seq![DEST_DOMAIN_NAME] + str_bytes(name)
            + u16_bytes(port),
        AddressView::Ipv6(ip, port) => seq![DEST_IPV6] + ip + u16_bytes(port),
    }
}

/// Whether a destination can be written.
pub open spec fn dest_fits(a: AddressView) -> bool {
    &&& a.wf()
    &&& a matches AddressView::DomainName(name, _) ==> str_fits(name)
}

/// What reading a destination at the start of `b` gives: the address and
/// the number of bytes it took.
pub open spec fn dest_parse(b: Seq<u8>) -> Result<(AddressView, nat), CodecError> {
    if b.len() < 1 {
        Err(CodecError::UnexpectedEnd)
    } else if b[0] == DEST_IPV4 {
        if b.len() < 7 {
            Err(CodecError::UnexpectedEnd)
        } else {
            Ok((AddressView::Ipv4(b.subrange(1, 5), u16_value(b.subrange(5, 7))), 7nat))
        }
    } else if b[0] == DEST_DOMAIN_NAME {
        match str_parse(b.skip(1)) {
            Err(e) => Err(e),
            Ok((name, used)) => if b.len() < 1 + used + 2 {
                Err(CodecError::UnexpectedEnd)
            } else {
                Ok(
                    (
                        AddressView::DomainName(
                            name,
                            u16_value(b.subrange(1 + used as int, 1 + used as int + 2)),
                        ),
                        (1 + used + 2) as nat,
                    ),
                )
            },
        }
    } else if b[0] == DEST_IPV6 {
        if b.len() < 19 {
            Err(CodecError::UnexpectedEnd)
        } else {
            Ok((AddressView::Ipv6(b.subrange(1, 17), u16_value(b.subrange(17, 19))), 19nat))
        }
    } else {
        Err(CodecError::InvalidValue)
    }
}

/// A destination that can be written is read back as it was, whatever
/// follows it.
pub proof fn lemma_dest_round_trip(a: AddressView, rest: Seq<u8>)
    requires
        dest_fits(a),
    ensures
        dest_parse(dest_bytes(a) + rest) == Ok::<(AddressView, nat), CodecError>(
            (a, dest_bytes(a).len()),
        ),
{
    let b = dest_bytes(a) + rest;
    match a {
        AddressView::Ipv4(ip, port) => {
            assert(b.subrange(1, 5) =~= ip);
            assert(b.subrange(5, 7) =~= u16_bytes(port));
            lemma_u16_round_trip(port, Seq::empty());
            assert(u16_bytes(port) + Seq::<u8>::empty() =~= u16_bytes(port));
        },
        AddressView::DomainName(name, port) => {
            let tail_bytes = u16_bytes(port) + rest;
            assert(b.skip(1) =~= str_bytes(name) + tail_bytes);
            lemma_str_round_trip(name, tail_bytes);
            let used = str_bytes(name).len();
            assert(b.subrange(1 + used as int, 1 + used as int + 2) =~= u16_bytes(port));
            lemma_u16_round_trip(port, Seq::empty());
            assert(u16_bytes(port) + Seq::<u8>::empty() =~= u16_bytes(port));
        },
        AddressView::Ipv6(ip, port) => {
            assert(b.subrange(1, 17) =~= ip);
            assert(b.subrange(17, 19) =~= u16_bytes(port));
            lemma_u16_round_trip(port, Seq::empty());
            assert(u16_bytes(port) + Seq::<u8>::empty() =~= u16_bytes(port));
        },
    }
}

/// Bytes that read as a destination begin with the way to write it.
pub proof fn lemma_dest_bytes_of_parse(b: Seq<u8>)
    requires
        dest_parse(b) is Ok,
    ensures
        dest_fits(dest_parse(b).unwrap().0),
        dest_parse(b).unwrap().1 <= b.len(),
        dest_bytes(dest_parse(b).unwrap().0) == b.subrange(0, dest_parse(b).unwrap().1 as int),
{
    let (a, n) = dest_parse(b).unwrap();
    if b[0] == DEST_IPV4 {
        lemma_u16_bytes_of_value(b.subrange(5, 7));
        assert(b.subrange(5, 7).subrange(0, 2) =~= b.subrange(5, 7));
        assert(dest_bytes(a) =~= b.subrange(0, 7));
    } else if b[0] == DEST_DOMAIN_NAME {
        let (name, used) = str_parse(b.skip(1)).unwrap();
        lemma_str_bytes_of_parse(b.skip(1));
        let port_bytes = b.subrange(1 + used as int, 1 + used as int + 2);
        lemma_u16_bytes_of_value(port_bytes);
        assert(port_bytes.subrange(0, 2) =~= port_bytes);
        assert(b.skip(1).subrange(0, used as int) =~= b.subrange(1, 1 + used as int));
        assert(dest_bytes(a) =~= b.subrange(0, n as int));
    } else {
        lemma_u16_bytes_of_value(b.subrange(17, 19));
        assert(b.subrange(17, 19).subrange(0, 2) =~= b.subrange(17, 19));
        assert(dest_bytes(a) =~= b.subrange(0, 19));
    }
}

/// Appends a destination. A host name of more than 65535 bytes is refused
/// and nothing is written.
pub fn write_dest(writer: &mut Vec<u8>, address: &Address) -> (r: Result<(), CodecError>)
    ensures
        dest_fits(address@) ==> r is Ok && final(writer)@ == old(writer)@ + dest_bytes(address@),
        !dest_fits(address@) ==> r == Err::<(), CodecError>(CodecError::StringTooLong)
            && final(writer)@ == old(writer)@,
{
    match address {
        Address::Ipv4(ip, port) => {
            writer.push(DEST_IPV4);
            put_bytes(writer, ip.as_slice());
            put_u16(writer, *port);
            assert(writer@ =~= old(writer)@ + dest_bytes(address@));
            Ok(())
        },
        Address::DomainName(name, port) => {
            let raw = name.as_str().as_bytes();
            if raw.len() > 0xffff {
                return Err(CodecError::StringTooLong);
            }
            writer.push(DEST_DOMAIN_NAME);
            put_u16(writer, raw.len() as u16);
            put_bytes(writer, raw);
            put_u16(writer, *port);
            assert(writer@ =~= old(writer)@ + dest_bytes(address@));
            Ok(())
        },
        Address::Ipv6(ip, port) => {
            writer.push(DEST_IPV6);
            put_bytes(writer, ip.as_slice());
            put_u16(writer, *port);
            assert(writer@ =~= old(writer)@ + dest_bytes(address@));
            Ok(())
        },
    }
}

/// Reads the destination that starts at `at`, and says how many bytes it
/// took.
pub fn read_dest(reader: &[u8], at: usize) -> (r: Result<(Address, usize), CodecError>)
    ensures
        match dest_parse(tail(reader@, at as int)) {
            Ok((address, used)) => r matches Ok((got, n)) && got@ == address && n == used,
            Err(e) => r == Err::<(Address, usize), CodecError>(e),
        },
{
    let ghost b = tail(reader@, at as int);
    if at >= reader.len() {
        return Err(CodecError::UnexpectedEnd);
    }
    let left: usize = reader.len() - at;
    let tag = reader[at];
    assert(tag == b[0]);
    match tag {
        DEST_IPV4 => {
            if left < 7 {
                return Err(CodecError::UnexpectedEnd);
            }
            let ip = take4(reader, at + 1);
            let port = u16_at(reader, at + 5);
            assert(reader@.subrange(at + 1, at + 5) =~= b.subrange(1, 5));
            assert(reader@.subrange(at + 5, at + 7) =~= b.subrange(5, 7));
            Ok((Address::Ipv4(ip, port), 7))
        },
        DEST_DOMAIN_NAME => {
            assert(tail(reader@, at + 1) =~= b.skip(1));
            let (name, used) = match read_str(reader, at + 1) {
                Ok(pair) => pair,
                Err(e) => {
                    return Err(e);
                },
            };
            if left - 1 - used < 2 {
                return Err(CodecError::UnexpectedEnd);
            }
            let port = u16_at(reader, at + 1 + used);
            assert(reader@.subrange(at + 1 + used, at + 1 + used + 2) =~= b.subrange(
                1 + used,
                1 + used + 2,
            ));
            Ok((Address::DomainName(name, port), 1 + used + 2))
        },
        DEST_IPV6 => {
            if left < 19 {
                return Err(CodecError::UnexpectedEnd);
            }
            let ip = take16(reader, at + 1);
            let port = u16_at(reader, at + 17);
            assert(reader@.subrange(at + 1, at + 17) =~= b.subrange(1, 17));
            assert(reader@.subrange(at + 17, at + 19) =~= b.subrange(17, 19));
            Ok((Address::Ipv6(ip, port), 19))
        },
        _ => Err(CodecError::InvalidValue),
    }
}

/// A message of the control connection: a type code of its own, and a
/// payload that holds its fields.
pub trait Message: Sized + View {
    /// The type that frames of this message carry.
    spec fn spec_command() -> MessageType;

    /// Whether a value can be written: its strings are short enough.
    spec fn fits(v: Self::V) -> bool;

    /// The payload of a value that can be written.
    spec fn payload_bytes(v: Self::V) -> Seq<u8>;

    /// What reading a message at the start of `b` gives: the value, and
    /// the number of bytes it took.
    spec fn payload_parse(b: Seq<u8>) -> Result<(Self::V, nat), CodecError>;

    /// The type that frames of this message carry.
    fn command() -> (t: MessageType)
        ensures
            t == Self::spec_command(),
    ;

    /// Reads the message at the start of `reader`, and says how many
    /// bytes it took. What follows the message is left unread.
    fn decode(reader: &[u8]) -> (r: Result<(Self, usize), CodecError>)
        ensures
            match Self::payload_parse(reader@) {
                Ok((v, n)) => r matches Ok((m, used)) && m@ == v && used == n,
                Err(e) => r matches Err(got) && got == e,
            },
    ;

    /// Appends the payload of the message. A message that cannot be
    /// written is refused and nothing is appended.
    fn encode(&self, writer: &mut Vec<u8>) -> (r: Result<(), CodecError>)
        ensures
            Self::fits(self@) ==> r is Ok && final(writer)@ == old(writer)@ + Self::payload_bytes(
                self@,
            ),
            !Self::fits(self@) ==> r == Err::<(), CodecError>(CodecError::StringTooLong)
                && final(writer)@ == old(writer)@,
    ;

    /// A value that can be written is read back from its payload as it
    /// was, whatever follows the payload, and takes the bytes of the
    /// payload and no more.
    proof fn lemma_round_trip(v: Self::V, rest: Seq<u8>)
        requires
            Self::fits(v),
        ensures
            Self::payload_parse(Self::payload_bytes(v) + rest) == Ok::<
                (Self::V, nat),
                CodecError,
            >((v, Self::payload_bytes(v).len())),
    ;

    /// Bytes that read as a message begin with the payload of that
    /// message, byte for byte.
    proof fn lemma_payload_of_parse(b: Seq<u8>)
        requires
            Self::payload_parse(b) is Ok,
        ensures
            Self::fits(Self::payload_parse(b).unwrap().0),
            Self::payload_parse(b).unwrap().1 <= b.len(),
            Self::payload_bytes(Self::payload_parse(b).unwrap().0) == b.subrange(
                0,
                Self::payload_parse(b).unwrap().1 as int,
            ),
    ;
}

/// Reads the message at the start of `reader`, and says how many bytes it
/// took.
pub fn read_message<R: Message>(reader: &[u8]) -> (r: Result<(R, usize), CodecError>)
    ensures
        match R::payload_parse(reader@) {
            Ok((v, n)) => r matches Ok((m, used)) && m@ == v && used == n,
            Err(e) => r matches Err(got) && got == e,
        },
{
    R::decode(reader)
}

/// Appends the payload of a message.
pub fn write_message<R: Message>(writer: &mut Vec<u8>, message: R) -> (r: Result<(), CodecError>)
    ensures
        R::fits(message@) ==> r is Ok && final(writer)@ == old(writer)@ + R::payload_bytes(
            message@,
        ),
        !R::fits(message@) ==> r == Err::<(), CodecError>(CodecError::StringTooLong)
            && final(writer)@ == old(writer)@,
{
    message.encode(writer)
}

/// The first step of a session: the client shows its token.
#[derive(Clone, Debug, PartialEq, Eq)]
pub struct AuthRequest {
    device_token: String,
}

/// An [`AuthRequest`] as contracts see it.
pub struct AuthRequestView {
    pub device_token: Seq<char>,
}

impl View for AuthRequest {
    type V = AuthRequestView;

    closed spec fn view(&self) -> AuthRequestView {
        AuthRequestView { device_token: self.device_token@ }
    }
}

impl AuthRequest {
    pub fn new(device_token: String) -> (r: AuthRequest)
        ensures
            r@.device_token == device_token@,
    {
        AuthRequest { device_token }
    }

    pub fn get_device_token(&self) -> (t: &String)
        ensures
            t@ == self@.device_token,
    {
        &self.device_token
    }
}

impl Message for AuthRequest {
    open spec fn spec_command() -> MessageType {
        MessageType::AuthRequest
    }

    open spec fn fits(v: AuthRequestView) -> bool {
        str_fits(v.device_token)
    }

    open spec fn payload_bytes(v: AuthRequestView) -> Seq<u8> {
        str_bytes(v.device_token)
    }

    open spec fn payload_parse(b: Seq<u8>) -> Result<(AuthRequestView, nat), CodecError> {
        match str_parse(b) {
            Err(e) => Err(e),
            Ok((device_token, used)) => Ok((AuthRequestView { device_token }, used)),
        }
    }

    fn command() -> (t: MessageType) {
        MessageType::AuthRequest
    }

    fn decode(reader: &[u8]) -> (r: Result<(AuthRequest, usize), CodecError>) {
        assert(tail(reader@, 0) =~= reader@);
        match read_str(reader, 0) {
            Ok((device_token, used)) => Ok((AuthRequest { device_token }, used)),
            Err(e) => Err(e),
        }
    }

    fn encode(&self, writer: &mut Vec<u8>) -> (r: Result<(), CodecError>) {
        write_str(writer, self.device_token.as_str())
    }

    proof fn lemma_round_trip(v: AuthRequestView, rest: Seq<u8>) {
        lemma_str_round_trip(v.device_token, rest);
    }

    proof fn lemma_payload_of_parse(b: Seq<u8>) {
        lemma_str_bytes_of_parse(b);
    }
}

/// The answer to an [`AuthRequest`]: who the client is from now on.
#[derive(Clone, Copy, Debug, PartialEq, Eq)]
pub struct AuthResponse {
    client_id: u64,
    device_id: u64,
}

/// An [`AuthResponse`] as contracts see it.
pub struct AuthResponseView {
    pub client_id: u64,
    pub device_id: u64,
}

impl View for AuthResponse {
    type V = AuthResponseView;

    closed spec fn view(&self) -> AuthResponseView {
        AuthResponseView { client_id: self.client_id, device_id: self.device_id }
    }
}

impl AuthResponse {
    pub fn new(client_id: u64, device_id: u64) -> (r: AuthResponse)
        ensures
            r@ == (AuthResponseView { client_id, device_id }),
    {
        AuthResponse { client_id, device_id }
    }

    pub fn get_client_id(&self) -> (id: u64)
        ensures
            id == self@.client_id,
    {
        self.client_id
    }

    pub fn get_device_id(&self) -> (id: u64)
        ensures
            id == self@.device_id,
    {
        return self.device_id;
    }
}

impl Message for AuthResponse {
    open spec fn spec_command() -> MessageType {
        MessageType::AuthResponse
    }

    open spec fn fits(v: AuthResponseView) -> bool {
        true
    }

    open spec fn payload_bytes(v: AuthResponseView) -> Seq<u8> {
        u64_bytes(v.client_id) + u64_bytes(v.device_id)
    }

    open spec fn payload_parse(b: Seq<u8>) -> Result<(AuthResponseView, nat), CodecError> {
        if b.len() < 16 {
            Err(CodecError::UnexpectedEnd)
        } else {
            Ok(
                (
                    AuthResponseView {
                        client_id: u64_value(b.subrange(0, 8)),
                        device_id: u64_value(b.subrange(8, 16)),
                    },
                    16nat,
                ),
            )
        }
    }

    fn command() -> (t: MessageType) {
        MessageType::AuthResponse
    }

    fn decode(reader: &[u8]) -> (r: Result<(AuthResponse, usize), CodecError>) {
        if reader.len() < 16 {
            return Err(CodecError::UnexpectedEnd);
        }
        let client_id = u64_at(reader, 0);
        let device_id = u64_at(reader, 8);
        Ok((AuthResponse { client_id, device_id }, 16))
    }

    fn encode(&self, writer: &mut Vec<u8>) -> (r: Result<(), CodecError>) {
        put_u64(writer, self.client_id);
        put_u64(writer, self.device_id);
        assert(writer@ =~= old(writer)@ + Self::payload_bytes(self@));
        Ok(())
    }

    proof fn lemma_round_trip(v: AuthResponseView, rest: Seq<u8>) {
        let b = Self::payload_bytes(v) + rest;
        lemma_u64_round_trip(v.client_id, Seq::empty());
        lemma_u64_round_trip(v.device_id, Seq::empty());
        assert(b.subrange(0, 8) =~= u64_bytes(v.client_id) + Seq::<u8>::empty());
        assert(b.subrange(8, 16) =~= u64_bytes(v.device_id) + Seq::<u8>::empty());
    }

    proof fn lemma_payload_of_parse(b: Seq<u8>) {
        lemma_u64_bytes_of_value(b.subrange(0, 8));
        lemma_u64_bytes_of_value(b.subrange(8, 16));
        assert(b.subrange(0, 8).subrange(0, 8) =~= b.subrange(0, 8));
        assert(b.subrange(8, 16).subrange(0, 8) =~= b.subrange(8, 16));
        assert(b.subrange(0, 8) + b.subrange(8, 16) =~= b.subrange(0, 16));
    }
}

/// The server asks the client for a path to a destination.
#[derive(Clone, Debug, PartialEq, Eq)]
pub struct AllocTunnelRequest {
    tunnel_id: u64,
    destination: Address,
}

/// An [`AllocTunnelRequest`] as contracts see it.
pub struct AllocTunnelRequestView {
    pub tunnel_id: u64,
    pub destination: AddressView,
}

impl View for AllocTunnelRequest {
    type V = AllocTunnelRequestView;

    closed spec fn view(&self) -> AllocTunnelRequestView {
        AllocTunnelRequestView { tunnel_id: self.tunnel_id, destination: self.destination@ }
    }
}

impl AllocTunnelRequest {
    pub fn new(tunnel_id: u64, destination: Address) -> (r: AllocTunnelRequest)
        ensures
            r@ == (AllocTunnelRequestView { tunnel_id, destination: destination@ }),
    {
        AllocTunnelRequest { tunnel_id, destination }
    }

    pub fn get_tunnel_id(&self) -> (id: u64)
        ensures
            id == self@.tunnel_id,
    {
        self.tunnel_id
    }

    pub fn get_destination(&self) -> (a: &Address)
        ensures
            a@ == self@.destination,
    {
        &self.destination
    }
}

impl Message for AllocTunnelRequest {
    open spec fn spec_command() -> MessageType {
        MessageType::AllocTunnelRequest
    }

    open spec fn fits(v: AllocTunnelRequestView) -> bool {
        dest_fits(v.destination)
    }

    open spec fn payload_bytes(v: AllocTunnelRequestView) -> Seq<u8> {
        u64_bytes(v.tunnel_id) + dest_bytes(v.destination)
    }

    open spec fn payload_parse(b: Seq<u8>) -> Result<(AllocTunnelRequestView, nat), CodecError> {
        if b.len() < 8 {
            Err(CodecError::UnexpectedEnd)
        } else {
            match dest_parse(b.skip(8)) {
                Err(e) => Err(e),
                Ok((destination, used)) => Ok(
                    (
                        AllocTunnelRequestView {
                            tunnel_id: u64_value(b.subrange(0, 8)),
                            destination,
                        },
                        8 + used,
                    ),
                ),
            }
        }
    }

    fn command() -> (t: MessageType) {
        MessageType::AllocTunnelRequest
    }

    fn decode(reader: &[u8]) -> (r: Result<(AllocTunnelRequest, usize), CodecError>) {
        let tunnel_id = match get_u64(reader, 0) {
            Some(v) => v,
            None => {
                return Err(CodecError::UnexpectedEnd);
            },
        };
        assert(tail(reader@, 8) =~= reader@.skip(8));
        let (destination, used) = match read_dest(reader, 8) {
            Ok(pair) => pair,
            Err(e) => {
                return Err(e);
            },
        };
        proof {
            lemma_dest_bytes_of_parse(reader@.skip(8));
        }
        Ok((AllocTunnelRequest { tunnel_id, destination }, 8 + used))
    }

    fn encode(&self, writer: &mut Vec<u8>) -> (r: Result<(), CodecError>) {
        if let Address::DomainName(name, _) = &self.destination {
            if name.as_str().as_bytes().len() > 0xffff {
                return Err(CodecError::StringTooLong);
            }
        }
        put_u64(writer, self.tunnel_id);
        let written = write_dest(writer, &self.destination);
        assert(writer@ =~= old(writer)@ + Self::payload_bytes(self@));
        written
    }

    proof fn lemma_round_trip(v: AllocTunnelRequestView, rest: Seq<u8>) {
        let b = Self::payload_bytes(v) + rest;
        lemma_u64_round_trip(v.tunnel_id, Seq::empty());
        assert(b.subrange(0, 8) =~= u64_bytes(v.tunnel_id) + Seq::<u8>::empty());
        assert(b.skip(8) =~= dest_bytes(v.destination) + rest);
        lemma_dest_round_trip(v.destination, rest);
    }

    proof fn lemma_payload_of_parse(b: Seq<u8>) {
        lemma_u64_bytes_of_value(b.subrange(0, 8));
        assert(b.subrange(0, 8).subrange(0, 8) =~= b.subrange(0, 8));
        lemma_dest_bytes_of_parse(b.skip(8));
        let used = dest_parse(b.skip(8)).unwrap().1 as int;
        assert(b.skip(8).subrange(0, used) =~= b.subrange(8, 8 + used));
        assert(b.subrange(0, 8) + b.subrange(8, 8 + used) =~= b.subrange(0, 8 + used));
    }
}

/// The client's answer to an [`AllocTunnelRequest`]: the destination was
/// reached, or why it was not.
#[derive(Clone, Copy, Debug, PartialEq, Eq)]
pub struct AllocTunnelResponse {
    tunnel_id: u64,
    result: Result<(), AllocFailure>,
}

/// An [`AllocTunnelResponse`] as contracts see it.
pub struct AllocTunnelResponseView {
    pub tunnel_id: u64,
    pub result: Result<(), AllocFailure>,
}

impl View for AllocTunnelResponse {
    type V = AllocTunnelResponseView;

    closed spec fn view(&self) -> AllocTunnelResponseView {
        AllocTunnelResponseView { tunnel_id: self.tunnel_id, result: self.result }
    }
}

impl AllocTunnelResponse {
    pub fn new(tunnel_id: u64, result: Result<(), AllocFailure>) -> (r: AllocTunnelResponse)
        ensures
            r@ == (AllocTunnelResponseView { tunnel_id, result }),
    {
        AllocTunnelResponse { tunnel_id, result }
    }

    pub fn get_tunnel_id(&self) -> (id: u64)
        ensures
            id == self@.tunnel_id,
    {
        self.tunnel_id
    }

    pub fn get_result(&self) -> (r: Result<(), AllocFailure>)
        ensures
            r == self@.result,
    {
        self.result
    }
}

impl Message for AllocTunnelResponse {
    open spec fn spec_command() -> MessageType {
        MessageType::AllocTunnelResponse
    }

    open spec fn fits(v: AllocTunnelResponseView) -> bool {
        true
    }

    open spec fn payload_bytes(v: AllocTunnelResponseView) -> Seq<u8> {
        u64_bytes(v.tunnel_id) + u16_bytes(result_code(v.result))
    }

    open spec fn payload_parse(b: Seq<u8>) -> Result<(AllocTunnelResponseView, nat), CodecError> {
        if b.len() < 10 {
            Err(CodecError::UnexpectedEnd)
        } else {
            match result_of(u16_value(b.subrange(8, 10))) {
                None => Err(CodecError::InvalidValue),
                Some(result) => Ok(
                    (
                        AllocTunnelResponseView { tunnel_id: u64_value(b.subrange(0, 8)), result },
                        10nat,
                    ),
                ),
            }
        }
    }

    fn command() -> (t: MessageType) {
        MessageType::AllocTunnelResponse
    }

    fn decode(reader: &[u8]) -> (r: Result<(AllocTunnelResponse, usize), CodecError>) {
        if reader.len() < 10 {
            return Err(CodecError::UnexpectedEnd);
        }
        let tunnel_id = u64_at(reader, 0);
        let code = u16_at(reader, 8);
        let result = match code {
            0 => Ok(()),
            1 => Err(AllocFailure::ConnectRefused),
            2 => Err(AllocFailure::HostUnreachable),
            3 => Err(AllocFailure::Timeout),
            _ => {
                return Err(CodecError::InvalidValue);
            },
        };
        Ok((AllocTunnelResponse { tunnel_id, result }, 10))
    }

    fn encode(&self, writer: &mut Vec<u8>) -> (r: Result<(), CodecError>) {
        let code: u16 = match self.result {
            Ok(_) => 0,
            Err(AllocFailure::ConnectRefused) => 1,
            Err(AllocFailure::HostUnreachable) => 2,
            Err(AllocFailure::Timeout) => 3,
        };
        put_u64(writer, self.tunnel_id);
        put_u16(writer, code);
        assert(writer@ =~= old(writer)@ + Self::payload_bytes(self@));
        Ok(())
    }

    proof fn lemma_round_trip(v: AllocTunnelResponseView, rest: Seq<u8>) {
        let b = Self::payload_bytes(v) + rest;
        lemma_u64_round_trip(v.tunnel_id, Seq::empty());
        lemma_u16_round_trip(result_code(v.result), Seq::empty());
        assert(b.subrange(0, 8) =~= u64_bytes(v.tunnel_id) + Seq::<u8>::empty());
        assert(b.subrange(8, 10) =~= u16_bytes(result_code(v.result)) + Seq::<u8>::empty());
        assert(result_of(result_code(v.result)) == Some(v.result)) by {
            lemma_result_code_round_trip(v.result);
        }
    }

    proof fn lemma_payload_of_parse(b: Seq<u8>) {
        lemma_u64_bytes_of_value(b.subrange(0, 8));
        lemma_u16_bytes_of_value(b.subrange(8, 10));
        assert(b.subrange(0, 8).subrange(0, 8) =~= b.subrange(0, 8));
        assert(b.subrange(8, 10).subrange(0, 2) =~= b.subrange(8, 10));
        assert(b.subrange(0, 8) + b.subrange(8, 10) =~= b.subrange(0, 10));
    }
}

/// The answer to a request that could not be served: why.
#[derive(Clone, Copy, Debug, PartialEq, Eq)]
pub struct ErrorResponse {
    error: CodecError,
}

/// An [`ErrorResponse`] as contracts see it.
pub struct ErrorResponseView {
    pub error: CodecError,
}

impl View for ErrorResponse {
    type V = ErrorResponseView;

    closed spec fn view(&self) -> ErrorResponseView {
        ErrorResponseView { error: self.error }
    }
}

impl ErrorResponse {
    pub fn new(error: CodecError) -> (r: ErrorResponse)
        ensures
            r@ == (ErrorResponseView { error }),
    {
        ErrorResponse { error }
    }

    pub fn get_error(&self) -> (e: CodecError)
        ensures
            e == self@.error,
    {
        self.error
    }
}

impl Message for ErrorResponse {
    open spec fn spec_command() -> MessageType {
        MessageType::ErrorResponse
    }

    open spec fn fits(v: ErrorResponseView) -> bool {
        true
    }

    open spec fn payload_bytes(v: ErrorResponseView) -> Seq<u8> {
        u16_bytes(error_code(v.error))
    }

    open spec fn payload_parse(b: Seq<u8>) -> Result<(ErrorResponseView, nat), CodecError> {
        if b.len() < 2 {
            Err(CodecError::UnexpectedEnd)
        } else {
            match error_of(u16_value(b)) {
                None => Err(CodecError::InvalidValue),
                Some(error) => Ok((ErrorResponseView { error }, 2nat)),
            }
        }
    }

    fn command() -> (t: MessageType) {
        MessageType::ErrorResponse
    }

    fn decode(reader: &[u8]) -> (r: Result<(ErrorResponse, usize), CodecError>) {
        let code = match get_u16(reader, 0) {
            Some(v) => v,
            None => {
                return Err(CodecError::UnexpectedEnd);
            },
        };
        assert(reader@.subrange(0, 2)[0] == reader@[0] && reader@.subrange(0, 2)[1] == reader@[1]);
        let error = match code {
            1 => CodecError::UnknownCommand,
            2 => CodecError::InvalidUtf8,
            3 => CodecError::StringTooLong,
            4 => CodecError::UnexpectedEnd,
            5 => CodecError::InvalidValue,
            6 => CodecError::WrongType,
            _ => {
                return Err(CodecError::InvalidValue);
            },
        };
        Ok((ErrorResponse { error }, 2))
    }

    fn encode(&self, writer: &mut Vec<u8>) -> (r: Result<(), CodecError>) {
        let code: u16 = match self.error {
            CodecError::UnknownCommand => 1,
            CodecError::InvalidUtf8 => 2,
            CodecError::StringTooLong => 3,
            CodecError::UnexpectedEnd => 4,
            CodecError::InvalidValue => 5,
            CodecError::WrongType => 6,
        };
        put_u16(writer, code);
        Ok(())
    }

    proof fn lemma_round_trip(v: ErrorResponseView, rest: Seq<u8>) {
        lemma_u16_round_trip(error_code(v.error), rest);
    }

    proof fn lemma_payload_of_parse(b: Seq<u8>) {
        lemma_u16_bytes_of_value(b);
    }
}

/// Why a caller that waited for a response has none.
#[derive(Clone, Copy, Debug, PartialEq, Eq, Structural)]
pub enum ResponseError {
    /// The peer answered with an error response that names this error.
    Remote(CodecError),
    /// The response arrived and could not be read.
    Local(CodecError),
}

/// The frame that carries a message.
pub open spec fn packed<R: Message>(kind: FrameKind, tx_id: u32, v: R::V) -> FrameView {
    FrameView { kind, msg_type: type_code(R::spec_command()), tx_id, payload: R::payload_bytes(v) }
}

/// The message that a frame carries, asked for by its type: the message
/// at the start of the payload of a frame of that type.
pub open spec fn unpacked<R: Message>(f: FrameView) -> Result<R::V, CodecError> {
    if f.msg_type != type_code(R::spec_command()) {
        Err(CodecError::WrongType)
    } else {
        match R::payload_parse(f.payload) {
            Ok((v, _)) => Ok(v),
            Err(e) => Err(e),
        }
    }
}

/// What a response frame tells the caller who waited for a message of
/// type `R`: the message, the error that the peer reports, or that the
/// frame cannot be read.
pub open spec fn unpacked_response<R: Message>(f: FrameView) -> Result<R::V, ResponseError> {
    if f.msg_type == TYPE_ERROR_RESPONSE && type_code(R::spec_command()) != TYPE_ERROR_RESPONSE {
        match ErrorResponse::payload_parse(f.payload) {
            Ok((report, _)) => Err(ResponseError::Remote(report.error)),
            Err(e) => Err(ResponseError::Local(e)),
        }
    } else {
        match unpacked::<R>(f) {
            Ok(v) => Ok(v),
            Err(e) => Err(ResponseError::Local(e)),
        }
    }
}

/// Puts a message into a frame.
pub fn pack<R: Message>(kind: FrameKind, tx_id: u32, message: &R) -> (r: Result<Frame, CodecError>)
    ensures
        R::fits(message@) ==> (r matches Ok(frame) && frame@ == packed::<R>(kind, tx_id, message@)),
        !R::fits(message@) ==> r == Err::<Frame, CodecError>(CodecError::StringTooLong),
{
    let mut payload: Vec<u8> = Vec::new();
    match message.encode(&mut payload) {
        Ok(()) => {
            assert(payload@ =~= R::payload_bytes(message@));
            Ok(Frame { kind, msg_type: R::command().into(), tx_id, payload })
        },
        Err(e) => Err(e),
    }
}

/// Takes the message of type `R` out of a frame: a frame of another type
/// is refused, and of the payload the message is read from its start.
pub fn unpack<R: Message>(frame: &Frame) -> (r: Result<R, CodecError>)
    ensures
        match unpacked::<R>(frame@) {
            Ok(v) => r matches Ok(m) && m@ == v,
            Err(e) => r matches Err(got) && got == e,
        },
{
    let expected: u16 = R::command().into();
    if frame.msg_type != expected {
        return Err(CodecError::WrongType);
    }
    match R::decode(frame.payload.as_slice()) {
        Ok((message, _)) => Ok(message),
        Err(e) => Err(e),
    }
}

/// Takes the awaited message of type `R` out of a response frame, or the
/// error that the peer reports in its place.
pub fn unpack_response<R: Message>(frame: &Frame) -> (r: Result<R, ResponseError>)
    ensures
        match unpacked_response::<R>(frame@) {
            Ok(v) => r matches Ok(m) && m@ == v,
            Err(e) => r matches Err(got) && got == e,
        },
{
    let expected: u16 = R::command().into();
    if frame.msg_type == TYPE_ERROR_RESPONSE && expected != TYPE_ERROR_RESPONSE {
        return match ErrorResponse::decode(frame.payload.as_slice()) {
            Ok((report, _)) => Err(ResponseError::Remote(report.get_error())),
            Err(e) => Err(ResponseError::Local(e)),
        };
    }
    match unpack::<R>(frame) {
        Ok(message) => Ok(message),
        Err(e) => Err(ResponseError::Local(e)),
    }
}

/// The response that tells the sender of request `tx_id` why it was not
/// served.
pub fn error_frame(tx_id: u32, error: CodecError) -> (frame: Frame)
    ensures
        frame@ == packed::<ErrorResponse>(
            FrameKind::Response,
            tx_id,
            ErrorResponseView { error },
        ),
{
    let mut payload: Vec<u8> = Vec::new();
    let report = ErrorResponse::new(error);
    let _ = report.encode(&mut payload);
    assert(payload@ =~= ErrorResponse::payload_bytes(report@));
    Frame { kind: FrameKind::Response, msg_type: TYPE_ERROR_RESPONSE, tx_id, payload }
}

/// A message put into a frame comes out of it as it was.
pub proof fn lemma_pack_unpack<R: Message>(kind: FrameKind, tx_id: u32, v: R::V)
    requires
        R::fits(v),
    ensures
        unpacked::<R>(packed::<R>(kind, tx_id, v)) == Ok::<R::V, CodecError>(v),
{
    R::lemma_round_trip(v, Seq::empty());
    assert(R::payload_bytes(v) + Seq::<u8>::empty() =~= R::payload_bytes(v));
}

/// An error response tells the caller who waited for another message the
/// error that it carries.
pub proof fn lemma_error_response_is_reported<R: Message>(tx_id: u32, error: CodecError)
    requires
        R::spec_command() != MessageType::ErrorResponse,
    ensures
        unpacked_response::<R>(
            packed::<ErrorResponse>(FrameKind::Response, tx_id, ErrorResponseView { error }),
        ) == Err::<R::V, ResponseError>(ResponseError::Remote(error)),
{
    ErrorResponse::lemma_round_trip(ErrorResponseView { error }, Seq::empty());
    assert(ErrorResponse::payload_bytes(ErrorResponseView { error }) + Seq::<u8>::empty()
        =~= ErrorResponse::payload_bytes(ErrorResponseView { error }));
}

} // verus!

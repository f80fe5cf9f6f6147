//! The channel notices: the messages by which the server tells a client to
//! open a channel, and their layout on the wire.
//!
//! These messages are read from a stream that holds one after the other,
//! so each reader says how many bytes its message took.

use crate::wire::ends_early;
use crate::wire::get_i32;
use crate::wire::get_u64;
use crate::wire::i32_bytes;
use crate::wire::i32_value;
use crate::wire::lemma_i32_round_trip;
use crate::wire::lemma_str_parse_is_stable;
use crate::wire::lemma_str_round_trip;
use crate::wire::lemma_u16_round_trip;
use crate::wire::lemma_u64_round_trip;
use crate::wire::put_bytes;
use crate::wire::put_i32;
use crate::wire::put_u16;
use crate::wire::put_u64;
use crate::wire::read_str;
use crate::wire::str_bytes;
use crate::wire::str_fits;
use crate::wire::str_parse;
use crate::wire::tail;
use crate::wire::u16_at;
use crate::wire::u16_bytes;
use crate::wire::u16_value;
use crate::wire::u64_at;
use crate::wire::u64_bytes;
use crate::wire::u64_value;
use crate::wire::CodecError;
use vstd::prelude::*;

verus! {

/// What names a client.
pub type ClientIDType = u64;

/// What names a channel.
pub type ChannelIDType = u64;

/// What names a connection on a channel.
pub type ConnectionType = u64;

/// The tag of a TCP channel.
pub const TCP_CHANNEL_TYPE: u8 = 1;

/// The code of an [`AuthRequest`].
pub const COMMAND_AUTH_REQUEST: u16 = 1;

/// The code of an [`AuthResponse`].
pub const COMMAND_AUTH_RESPONSE: u16 = 2;

/// The code of an [`AllocChannelNotice`].
pub const COMMAND_ALLOC_CHANNEL_NOTICE: u16 = 3;

/// The code of an [`AllocChannelNoticeResponse`].
pub const COMMAND_ALLOC_CHANNEL_NOTICE_RESPONSE: u16 = 4;

/// The commands of the notice protocol.
#[derive(Clone, Copy, Debug, PartialEq, Eq, Structural)]
pub enum CommandType {
    AuthRequest,
    AuthResponse,
    AllocChannelNotice,
    AllocChannelNoticeResponse,
}

/// The code that stands for a command.
pub open spec fn command_code(command: CommandType) -> u16 {
    match command {
        CommandType::AuthRequest => COMMAND_AUTH_REQUEST,
        CommandType::AuthResponse => COMMAND_AUTH_RESPONSE,
        CommandType::AllocChannelNotice => COMMAND_ALLOC_CHANNEL_NOTICE,
        CommandType::AllocChannelNoticeResponse => COMMAND_ALLOC_CHANNEL_NOTICE_RESPONSE,
    }
}

/// The command that a code stands for, if any.
pub open spec fn command_of(code: u16) -> Option<CommandType> {
    if code == COMMAND_AUTH_REQUEST {
        Some(CommandType::AuthRequest)
    } else if code == COMMAND_AUTH_RESPONSE {
        Some(CommandType::AuthResponse)
    } else if code == COMMAND_ALLOC_CHANNEL_NOTICE {
        Some(CommandType::AllocChannelNotice)
    } else if code == COMMAND_ALLOC_CHANNEL_NOTICE_RESPONSE {
        Some(CommandType::AllocChannelNoticeResponse)
    } else {
        None
    }
}

impl CommandType {
    /// The code that stands for this command.
    pub fn code(self) -> (c: u16)
        ensures
            c == command_code(self),
    {
        match self {
            CommandType::AuthRequest => COMMAND_AUTH_REQUEST,
            CommandType::AuthResponse => COMMAND_AUTH_RESPONSE,
            CommandType::AllocChannelNotice => COMMAND_ALLOC_CHANNEL_NOTICE,
            CommandType::AllocChannelNoticeResponse => COMMAND_ALLOC_CHANNEL_NOTICE_RESPONSE,
        }
    }

    /// The command that `code` stands for.
    pub fn from_code(code: u16) -> (r: Result<CommandType, CodecError>)
        ensures
            r == match command_of(code) {
                Some(command) => Ok::<CommandType, CodecError>(command),
                None => Err::<CommandType, CodecError>(CodecError::UnknownCommand),
            },
    {
        match code {
            COMMAND_AUTH_REQUEST => Ok(CommandType::AuthRequest),
            COMMAND_AUTH_RESPONSE => Ok(CommandType::AuthResponse),
            COMMAND_ALLOC_CHANNEL_NOTICE => Ok(CommandType::AllocChannelNotice),
            COMMAND_ALLOC_CHANNEL_NOTICE_RESPONSE => Ok(CommandType::AllocChannelNoticeResponse),
            _ => Err(CodecError::UnknownCommand),
        }
    }
}

/// What every response of the notice protocol starts with: zero for
/// success, anything else for a failure.
#[derive(Clone, Copy, Debug, PartialEq, Eq, Structural)]
pub struct BaseResp {
    pub code: i32,
}

/// The client names itself.
#[derive(Clone, Copy, Debug, PartialEq, Eq, Structural)]
pub struct AuthRequest {
    pub client_id: u64,
}

impl AuthRequest {
    /// The id by which the client names itself.
    pub fn get_client_id(self: &Self) -> (id: u64)
        ensures
            id == self.client_id,
    {
        return self.client_id;
    }
}

/// The answer to an [`AuthRequest`].
#[derive(Clone, Copy, Debug, PartialEq, Eq, Structural)]
pub struct AuthResponse {
    pub base_resp: BaseResp,
}

/// What a channel leads to.
#[derive(Clone, Debug, PartialEq, Eq)]
pub enum ChannelType {
    Tcp { addr: String, port: u16 },
}

/// A [`ChannelType`] as contracts see it.
pub enum ChannelTypeView {
    Tcp { addr: Seq<char>, port: u16 },
}

impl View for ChannelType {
    type V = ChannelTypeView;

    open spec fn view(&self) -> ChannelTypeView {
        match *self {
            ChannelType::Tcp { addr, port } => ChannelTypeView::Tcp { addr: addr@, port },
        }
    }
}

/// The server tells the client to open a channel.
#[derive(Clone, Debug, PartialEq, Eq)]
pub struct AllocChannelNotice {
    channel_id: ChannelIDType,
    channel_type: ChannelType,
}

/// An [`AllocChannelNotice`] as contracts see it.
pub struct AllocChannelNoticeView {
    pub channel_id: u64,
    pub channel_type: ChannelTypeView,
}

impl View for AllocChannelNotice {
    type V = AllocChannelNoticeView;

    closed spec fn view(&self) -> AllocChannelNoticeView {
        AllocChannelNoticeView { channel_id: self.channel_id, channel_type: self.channel_type@ }
    }
}

impl AllocChannelNotice {
    /// The notice to open channel `channel_id` to where `channel_type`
    /// leads.
    pub fn new(channel_id: ChannelIDType, channel_type: ChannelType) -> (n: AllocChannelNotice)
        ensures
            n@ == (AllocChannelNoticeView { channel_id, channel_type: channel_type@ }),
    {
        AllocChannelNotice { channel_id, channel_type }
    }

    /// The id of the channel to open.
    pub fn get_client_id(self: &Self) -> (id: ChannelIDType)
        ensures
            id == self@.channel_id,
    {
        self.channel_id
    }

    /// Where the channel leads.
    pub fn get_channel_type(self: &Self) -> (t: ChannelType)
        ensures
            t@ == self@.channel_type,
    {
        match &self.channel_type {
            ChannelType::Tcp { addr, port } => ChannelType::Tcp { addr: addr.clone(), port: *port },
        }
    }
}

/// The answer to an [`AllocChannelNotice`].
#[derive(Clone, Copy, Debug, PartialEq, Eq, Structural)]
pub struct AllocChannelNoticeResponse {
    pub base_resp: BaseResp,
}

/// An auth request on the wire: the client id.
pub open spec fn auth_request_bytes(client_id: u64) -> Seq<u8> {
    u64_bytes(client_id)
}

/// What reading an auth request at the start of `b` gives: the client id
/// and the number of bytes taken.
pub open spec fn auth_request_parse(b: Seq<u8>) -> Result<(u64, nat), CodecError> {
    if b.len() < 8 {
        Err(CodecError::UnexpectedEnd)
    } else {
        Ok((u64_value(b.subrange(0, 8)), 8nat))
    }
}

/// A base response on the wire: the code.
pub open spec fn base_resp_bytes(code: i32) -> Seq<u8> {
    i32_bytes(code)
}

/// What reading a base response at the start of `b` gives: the code and
/// the number of bytes taken.
pub open spec fn base_resp_parse(b: Seq<u8>) -> Result<(i32, nat), CodecError> {
    if b.len() < 4 {
        Err(CodecError::UnexpectedEnd)
    } else {
        Ok((i32_value(b.subrange(0, 4)), 4nat))
    }
}

/// Whether a notice can be written: the address is short enough.
pub open spec fn notice_fits(n: AllocChannelNoticeView) -> bool {
    match n.channel_type {
        ChannelTypeView::Tcp { addr, port } => str_fits(addr),
    }
}

/// A notice on the wire: the channel id, the tag of the channel type, and
/// for a TCP channel the address as a counted string and the port.
pub open spec fn notice_bytes(n: AllocChannelNoticeView) -> Seq<u8> {
    match n.channel_type {
        ChannelTypeView::Tcp { addr, port } => u64_bytes(n.channel_id) + seq![TCP_CHANNEL_TYPE]
            + str_bytes(addr) + u16_bytes(port),
    }
}

/// What reading a notice at the start of `b` gives: the notice and the
/// number of bytes taken.
pub open spec fn notice_parse(b: Seq<u8>) -> Result<(AllocChannelNoticeView, nat), CodecError> {
    if b.len() < 9 {
        Err(CodecError::UnexpectedEnd)
    } else if b[8] != TCP_CHANNEL_TYPE {
        Err(CodecError::InvalidValue)
    } else {
        match str_parse(b.skip(9)) {
            Err(e) => Err(e),
            Ok((addr, used)) => if b.len() < 9 + used + 2 {
                Err(CodecError::UnexpectedEnd)
            } else {
                Ok(
                    (
                        AllocChannelNoticeView {
                            channel_id: u64_value(b.subrange(0, 8)),
                            channel_type: ChannelTypeView::Tcp {
                                addr,
                                port: u16_value(b.subrange(9 + used as int, 9 + used as int + 2)),
                            },
                        },
                        (9 + used + 2) as nat,
                    ),
                )
            },
        }
    }
}

/// Reads an auth request from the start of `reader`.
pub fn read_auth_request(reader: &[u8]) -> (r: Result<(AuthRequest, usize), CodecError>)
    ensures
        r == match auth_request_parse(reader@) {
            Ok((client_id, used)) => Ok::<(AuthRequest, usize), CodecError>(
                (AuthRequest { client_id }, used as usize),
            ),
            Err(e) => Err::<(AuthRequest, usize), CodecError>(e),
        },
{
    match get_u64(reader, 0) {
        Some(client_id) => Ok((AuthRequest { client_id: client_id }, 8)),
        None => Err(CodecError::UnexpectedEnd),
    }
}

/// Appends an auth request.
pub fn write_auth_request(writer: &mut Vec<u8>, req: AuthRequest)
    ensures
        final(writer)@ == old(writer)@ + auth_request_bytes(req.client_id),
{
    put_u64(writer, req.client_id);
}

/// Reads a base response from the start of `reader`.
pub fn read_base_resp(reader: &[u8]) -> (r: Result<(BaseResp, usize), CodecError>)
    ensures
        r == match base_resp_parse(reader@) {
            Ok((code, used)) => Ok::<(BaseResp, usize), CodecError>(
                (BaseResp { code }, used as usize),
            ),
            Err(e) => Err::<(BaseResp, usize), CodecError>(e),
        },
{
    match get_i32(reader, 0) {
        Some(code) => Ok((BaseResp { code: code }, 4)),
        None => Err(CodecError::UnexpectedEnd),
    }
}

/// Appends a base response.
pub fn write_base_resp(writer: &mut Vec<u8>, resp: BaseResp)
    ensures
        final(writer)@ == old(writer)@ + base_resp_bytes(resp.code),
{
    put_i32(writer, resp.code);
}

/// Reads a notice from the start of `reader`.
pub fn read_alloc_channel_request(reader: &[u8]) -> (r: Result<
    (AllocChannelNotice, usize),
    CodecError,
>)
    ensures
        match notice_parse(reader@) {
            Ok((notice, used)) => r matches Ok((n, taken)) && n@ == notice && taken == used,
            Err(e) => r matches Err(got) && got == e,
        },
{
    if reader.len() < 9 {
        return Err(CodecError::UnexpectedEnd);
    }
    let channel_id = u64_at(reader, 0);
    let raw_channel_type = reader[8];
    match raw_channel_type {
        TCP_CHANNEL_TYPE => {
            assert(tail(reader@, 9) =~= reader@.skip(9));
            let (addr, used) = match read_str(reader, 9) {
                Ok(pair) => pair,
                Err(e) => {
                    return Err(e);
                },
            };
            if reader.len() - 9 - used < 2 {
                return Err(CodecError::UnexpectedEnd);
            }
            let port = u16_at(reader, 9 + used);
            let channel_type = ChannelType::Tcp { addr: addr, port: port };
            Ok(
                (
                    AllocChannelNotice { channel_id: channel_id, channel_type: channel_type },
                    9 + used + 2,
                ),
            )
        },
        _ => Err(CodecError::InvalidValue),
    }
}

/// Appends a notice. An address of more than 65535 bytes is refused and
/// nothing is written.
pub fn write_alloc_channel_request(writer: &mut Vec<u8>, notice: &AllocChannelNotice) -> (r:
    Result<(), CodecError>)
    ensures
        notice_fits(notice@) ==> r is Ok && final(writer)@ == old(writer)@ + notice_bytes(notice@),
        !notice_fits(notice@) ==> r == Err::<(), CodecError>(CodecError::StringTooLong)
            && final(writer)@ == old(writer)@,
{
    match &notice.channel_type {
        ChannelType::Tcp { addr, port } => {
            let raw = addr.as_str().as_bytes();
            if raw.len() > 0xffff {
                return Err(CodecError::StringTooLong);
            }
            put_u64(writer, notice.channel_id);
            writer.push(TCP_CHANNEL_TYPE);
            put_u16(writer, raw.len() as u16);
            put_bytes(writer, raw);
            put_u16(writer, *port);
            assert(writer@ =~= old(writer)@ + notice_bytes(notice@));
            Ok(())
        },
    }
}

/// Whether a read failed only because the bytes at hand end too soon: a
/// reader on a stream then reads on and tries again.
pub fn is_incomplete(error: CodecError) -> (r: bool)
    ensures
        r == ends_early(error),
{
    match error {
        CodecError::UnexpectedEnd => true,
        CodecError::StringTooLong => true,
        _ => false,
    }
}

/// Bytes that arrive later change nothing that was decided: once the
/// bytes at hand give a notice, or an error other than that they end too
/// soon, they give the same with any bytes behind them.
pub proof fn lemma_notice_parse_is_stable(b: Seq<u8>, more: Seq<u8>)
    requires
        notice_parse(b) matches Err(e) ==> !ends_early(e),
    ensures
        notice_parse(b + more) == notice_parse(b),
{
    let c = b + more;
    assert(c[8] == b[8]);
    if b[8] == TCP_CHANNEL_TYPE {
        assert(c.skip(9) =~= b.skip(9) + more);
        lemma_str_parse_is_stable(b.skip(9), more);
        assert(c.subrange(0, 8) =~= b.subrange(0, 8));
        match str_parse(b.skip(9)) {
            Ok((_, taken)) => {
                let used = taken as int;
                assert(c.subrange(9 + used, 9 + used + 2) =~= b.subrange(
                    9 + used,
                    9 + used + 2,
                ));
            },
            Err(_) => {},
        }
    }
}

/// A notice that can be written is read back as it was, whatever follows
/// it.
pub proof fn lemma_notice_round_trip(n: AllocChannelNoticeView, rest: Seq<u8>)
    requires
        notice_fits(n),
    ensures
        notice_parse(notice_bytes(n) + rest) == Ok::<(AllocChannelNoticeView, nat), CodecError>(
            (n, notice_bytes(n).len()),
        ),
{
    let b = notice_bytes(n) + rest;
    match n.channel_type {
        ChannelTypeView::Tcp { addr, port } => {
            lemma_u64_round_trip(n.channel_id, Seq::empty());
            assert(b.subrange(0, 8) =~= u64_bytes(n.channel_id) + Seq::<u8>::empty());
            let after = u16_bytes(port) + rest;
            assert(b.skip(9) =~= str_bytes(addr) + after);
            lemma_str_round_trip(addr, after);
            let used = str_bytes(addr).len();
            lemma_u16_round_trip(port, Seq::empty());
            assert(b.subrange(9 + used as int, 9 + used as int + 2) =~= u16_bytes(port)
                + Seq::<u8>::empty());
        },
    }
}

/// An auth request and a base response are read back as they were
/// written, whatever follows them.
pub proof fn lemma_fixed_round_trip(client_id: u64, code: i32, rest: Seq<u8>)
    ensures
        auth_request_parse(auth_request_bytes(client_id) + rest) == Ok::<(u64, nat), CodecError>(
            (client_id, 8nat),
        ),
        base_resp_parse(base_resp_bytes(code) + rest) == Ok::<(i32, nat), CodecError>(
            (code, 4nat),
        ),
{
    lemma_u64_round_trip(client_id, Seq::empty());
    assert((auth_request_bytes(client_id) + rest).subrange(0, 8) =~= u64_bytes(client_id)
        + Seq::<u8>::empty());
    lemma_i32_round_trip(code, Seq::empty());
    assert((base_resp_bytes(code) + rest).subrange(0, 4) =~= i32_bytes(code) + Seq::<u8>::empty());
}

} // verus!

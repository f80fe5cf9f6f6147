//! The SOCKS5 front end, as far as it is needed to learn where a local
//! application wants to go: the greeting, the connect request and the two
//! replies, as functions on bytes.

use crate::address::take16;
use crate::address::take4;
use crate::address::Address;
use crate::address::AddressView;
use crate::tunnel::TunnelError;
use crate::wire::put_bytes;
use crate::wire::put_u16;
use crate::wire::u16_at;
use crate::wire::u16_bytes;
use crate::wire::u16_value;
use crate::wire::utf8_to_string;
use vstd::prelude::*;
use vstd::slice::slice_subrange;
use vstd::slice::slice_to_vec;
use vstd::std_specs::convert::FromSpecImpl;
use vstd::std_specs::convert::TryFromSpecImpl;
use vstd::utf8::decode_utf8;
use vstd::utf8::encode_utf8;
use vstd::utf8::valid_utf8;

verus! {

/// The bytes of the protocol: its version, and the codes of methods,
/// commands, address types and replies.
pub const SOCK5_VERSION: u8 = 0x05;

pub const SOCK5_METHOD_NO_AUTH: u8 = 0x00;

pub const SOCK5_METHOD_USERNAME_PASSWD: u8 = 0x02;

pub const SOCK5_METHOD_NO_ACCEPTABLE_METHODS: u8 = 0xff;

pub const SOCK5_COMMAND_CONNECT: u8 = 0x01;

pub const SOCK5_COMMAND_BIND: u8 = 0x02;

pub const SOCK5_COMMAND_UDP: u8 = 0x03;

pub const SOCK5_ADDRESS_IPV4: u8 = 0x01;

pub const SOCK5_ADDRESS_DOMAIN_NAME: u8 = 0x03;

pub const SOCK5_ADDRESS_IPV6: u8 = 0x04;

pub const SOCK5_REPLY_SUCCESS: u8 = 0x00;

pub const SOCK5_REPLY_GENERAL_SERVER_FAILURE: u8 = 0x01;

pub const SOCK5_REPLY_HOST_UNREACHABLE: u8 = 0x04;

pub const SOCK5_REPLY_CONNECTION_REFUSED: u8 = 0x05;

pub const SOCK5_REPLY_TTL_EXPIRED: u8 = 0x06;

pub const SOCK5_REPLY_COMMAND_NOT_SUPPORTED: u8 = 0x07;

pub const SOCK5_REPLY_ADDRESS_NOT_SUPPORTED: u8 = 0x08;

/// `std::io::Error`, carried through and never looked into.
#[verifier::external_type_specification]
#[verifier::external_body]
pub struct ExIoError(std::io::Error);

/// What went wrong in a handshake.
#[derive(Debug)]
pub enum ProxyErrorKind {
    /// The socket failed.
    ErrIO(std::io::Error),
    /// The first byte of a message is not the version 5.
    ErrUnknownSock5Version,
    /// A byte that names no authentication method known here.
    ErrUnknownSock5Method,
    /// A byte that names no command.
    ErrUnknownSock5Command,
    /// An address of no known type, or a host name that is not UTF-8, or
    /// one too long for its length byte.
    ErrUnknownSock5Address,
    /// The input ends before the message does.
    ErrTruncated,
    /// The client does not offer to go without authentication.
    NoAcceptableMethod,
    /// The client asks for something other than CONNECT.
    CommandNotSupported,
    /// A step of the handshake was taken out of turn.
    ErrOutOfTurn,
}

/// The error of the front end.
#[derive(Debug)]
pub struct ProxyError {
    pub kind: ProxyErrorKind,
}

impl ProxyError {
    /// The error of the given kind.
    pub fn new(kind: ProxyErrorKind) -> (e: ProxyError)
        ensures
            e.kind == kind,
    {
        ProxyError { kind }
    }

    /// The error that tells of a failure of the socket.
    pub fn map_io_err(err: std::io::Error) -> (e: ProxyError)
        ensures
            e.kind == ProxyErrorKind::ErrIO(err),
    {
        ProxyError::new(ProxyErrorKind::ErrIO(err))
    }
}

/// An authentication method of the greeting.
#[derive(Clone, Copy, Debug, PartialEq, Eq, Structural)]
pub enum Method {
    NoAuth,
    UserNamePasswd,
    NoAcceptableMethods,
}

/// The byte that stands for a method.
pub open spec fn method_code(method: Method) -> u8 {
    match method {
        Method::NoAuth => SOCK5_METHOD_NO_AUTH,
        Method::UserNamePasswd => SOCK5_METHOD_USERNAME_PASSWD,
        Method::NoAcceptableMethods => SOCK5_METHOD_NO_ACCEPTABLE_METHODS,
    }
}

/// The method that a byte stands for, if any.
pub open spec fn method_of(code: u8) -> Option<Method> {
    if code == SOCK5_METHOD_NO_AUTH {
        Some(Method::NoAuth)
    } else if code == SOCK5_METHOD_USERNAME_PASSWD {
        Some(Method::UserNamePasswd)
    } else if code == SOCK5_METHOD_NO_ACCEPTABLE_METHODS {
        Some(Method::NoAcceptableMethods)
    } else {
        None
    }
}

impl TryFrom<u8> for Method {
    type Error = ProxyError;

    fn try_from(value: u8) -> (r: Result<Method, ProxyError>) {
        match value {
            SOCK5_METHOD_NO_AUTH => Ok(Method::NoAuth),
            SOCK5_METHOD_USERNAME_PASSWD => Ok(Method::UserNamePasswd),
            SOCK5_METHOD_NO_ACCEPTABLE_METHODS => Ok(Method::NoAcceptableMethods),
            _ => Err(ProxyError::new(ProxyErrorKind::ErrUnknownSock5Method)),
        }
    }
}

impl TryFromSpecImpl<u8> for Method {
    open spec fn obeys_try_from_spec() -> bool {
        true
    }

    open spec fn try_from_spec(value: u8) -> Result<Method, ProxyError> {
        match method_of(value) {
            Some(method) => Ok(method),
            None => Err(ProxyError { kind: ProxyErrorKind::ErrUnknownSock5Method }),
        }
    }
}

impl From<Method> for u8 {
    fn from(method: Method) -> (r: u8) {
        match method {
            Method::NoAuth => SOCK5_METHOD_NO_AUTH,
            Method::UserNamePasswd => SOCK5_METHOD_USERNAME_PASSWD,
            Method::NoAcceptableMethods => SOCK5_METHOD_NO_ACCEPTABLE_METHODS,
        }
    }
}

impl FromSpecImpl<Method> for u8 {
    open spec fn obeys_from_spec() -> bool {
        true
    }

    open spec fn from_spec(method: Method) -> u8 {
        method_code(method)
    }
}

/// What the client asks the proxy to do.
#[derive(Clone, Copy, Debug, PartialEq, Eq, Structural)]
pub enum CommandType {
    Connect,
    Bind,
    UDP,
}

/// The byte that stands for a command.
pub open spec fn command_code(command: CommandType) -> u8 {
    match command {
        CommandType::Connect => SOCK5_COMMAND_CONNECT,
        CommandType::Bind => SOCK5_COMMAND_BIND,
        CommandType::UDP => SOCK5_COMMAND_UDP,
    }
}

/// The command that a byte stands for, if any.
pub open spec fn command_of(code: u8) -> Option<CommandType> {
    if code == SOCK5_COMMAND_CONNECT {
        Some(CommandType::Connect)
    } else if code == SOCK5_COMMAND_BIND {
        Some(CommandType::Bind)
    } else if code == SOCK5_COMMAND_UDP {
        Some(CommandType::UDP)
    } else {
        None
    }
}

impl TryFrom<u8> for CommandType {
    type Error = ProxyError;

    fn try_from(value: u8) -> (r: Result<CommandType, ProxyError>) {
        match value {
            SOCK5_COMMAND_CONNECT => Ok(CommandType::Connect),
            SOCK5_COMMAND_BIND => Ok(CommandType::Bind),
            SOCK5_COMMAND_UDP => Ok(CommandType::UDP),
            _ => Err(ProxyError::new(ProxyErrorKind::ErrUnknownSock5Command)),
        }
    }
}

impl TryFromSpecImpl<u8> for CommandType {
    open spec fn obeys_try_from_spec() -> bool {
        true
    }

    open spec fn try_from_spec(value: u8) -> Result<CommandType, ProxyError> {
        match command_of(value) {
            Some(command) => Ok(command),
            None => Err(ProxyError { kind: ProxyErrorKind::ErrUnknownSock5Command }),
        }
    }
}

impl From<CommandType> for u8 {
    fn from(command: CommandType) -> (r: u8) {
        match command {
            CommandType::Connect => SOCK5_COMMAND_CONNECT,
            CommandType::Bind => SOCK5_COMMAND_BIND,
            CommandType::UDP => SOCK5_COMMAND_UDP,
        }
    }
}

impl FromSpecImpl<CommandType> for u8 {
    open spec fn obeys_from_spec() -> bool {
        true
    }

    open spec fn from_spec(command: CommandType) -> u8 {
        command_code(command)
    }
}

/// What the proxy answers to a connect request.
#[derive(Clone, Copy, Debug, PartialEq, Eq, Structural)]
pub enum ReplyType {
    Success,
    GeneralServerFailure,
    HostUnreachable,
    ConnectionRefused,
    TtlExpired,
    CommandNotSupported,
    AddressNotSupported,
}

/// The byte that stands for a reply.
pub open spec fn reply_code(reply: ReplyType) -> u8 {
    match reply {
        ReplyType::Success => SOCK5_REPLY_SUCCESS,
        ReplyType::GeneralServerFailure => SOCK5_REPLY_GENERAL_SERVER_FAILURE,
        ReplyType::HostUnreachable => SOCK5_REPLY_HOST_UNREACHABLE,
        ReplyType::ConnectionRefused => SOCK5_REPLY_CONNECTION_REFUSED,
        ReplyType::TtlExpired => SOCK5_REPLY_TTL_EXPIRED,
        ReplyType::CommandNotSupported => SOCK5_REPLY_COMMAND_NOT_SUPPORTED,
        ReplyType::AddressNotSupported => SOCK5_REPLY_ADDRESS_NOT_SUPPORTED,
    }
}

impl From<ReplyType> for u8 {
    fn from(reply: ReplyType) -> (r: u8) {
        match reply {
            ReplyType::Success => SOCK5_REPLY_SUCCESS,
            ReplyType::GeneralServerFailure => SOCK5_REPLY_GENERAL_SERVER_FAILURE,
            ReplyType::HostUnreachable => SOCK5_REPLY_HOST_UNREACHABLE,
            ReplyType::ConnectionRefused => SOCK5_REPLY_CONNECTION_REFUSED,
            ReplyType::TtlExpired => SOCK5_REPLY_TTL_EXPIRED,
            ReplyType::CommandNotSupported => SOCK5_REPLY_COMMAND_NOT_SUPPORTED,
            ReplyType::AddressNotSupported => SOCK5_REPLY_ADDRESS_NOT_SUPPORTED,
        }
    }
}

impl FromSpecImpl<ReplyType> for u8 {
    open spec fn obeys_from_spec() -> bool {
        true
    }

    open spec fn from_spec(reply: ReplyType) -> u8 {
        reply_code(reply)
    }
}

/// Each method comes back from its own code, and each command from its.
pub proof fn lemma_codes_round_trip(method: Method, command: CommandType)
    ensures
        method_of(method_code(method)) == Some(method),
        command_of(command_code(command)) == Some(command),
{
}

/// An address as a reply or a request spells it: the type byte, the
/// address (a host name behind one byte of length), the port.
pub open spec fn address_bytes(a: AddressView) -> Seq<u8> {
    match a {
        AddressView::Ipv4(ip, port) => seq![SOCK5_ADDRESS_IPV4] + ip + u16_bytes(port),
        AddressView::DomainName(name, port) => seq![
            SOCK5_ADDRESS_DOMAIN_NAME,
            encode_utf8(name).len() as u8,
        ] + encode_utf8(name) + u16_bytes(port),
        AddressView::Ipv6(ip, port) => seq![SOCK5_ADDRESS_IPV6] + ip + u16_bytes(port),
    }
}

/// Whether an address can be spelled: a host name has one byte for its
/// length.
pub open spec fn address_fits(a: AddressView) -> bool {
    a matches AddressView::DomainName(name, _) ==> encode_utf8(name).len() <= 255
}

/// The reply to the greeting: the version and the method chosen.
pub open spec fn init_resp_bytes(method: Method) -> Seq<u8> {
    seq![SOCK5_VERSION, method_code(method)]
}

/// The reply to the connect request: version, reply code, a reserved zero,
/// and the address the proxy is bound to.
pub open spec fn connect_resp_bytes(reply: ReplyType, address: AddressView) -> Seq<u8> {
    seq![SOCK5_VERSION, reply_code(reply), 0u8] + address_bytes(address)
}

/// Appends the reply to the greeting.
pub fn write_init_resp(writer: &mut Vec<u8>, method: Method)
    ensures
        final(writer)@ == old(writer)@ + init_resp_bytes(method),
{
    writer.push(SOCK5_VERSION);
    writer.push(method.into());
    assert(writer@ =~= old(writer)@ + init_resp_bytes(method));
}

/// Appends the reply to the connect request. A host name of more than 255
/// bytes cannot be spelled: it is refused, and nothing is written.
pub fn write_connect_resp(writer: &mut Vec<u8>, reply: ReplyType, address: &Address) -> (r: Result<
    (),
    ProxyError,
>)
    ensures
        address_fits(address@) ==> r is Ok && final(writer)@ == old(writer)@ + connect_resp_bytes(
            reply,
            address@,
        ),
        !address_fits(address@) ==> r == Err::<(), ProxyError>(
            ProxyError { kind: ProxyErrorKind::ErrUnknownSock5Address },
        ) && final(writer)@ == old(writer)@,
{
    if let Address::DomainName(domain_name, _) = address {
        if domain_name.as_str().as_bytes().len() > 255 {
            return Err(ProxyError::new(ProxyErrorKind::ErrUnknownSock5Address));
        }
    }
    writer.push(SOCK5_VERSION);
    writer.push(reply.into());
    writer.push(0x00);
    match address {
        Address::Ipv4(ip, port) => {
            writer.push(SOCK5_ADDRESS_IPV4);
            put_bytes(writer, ip.as_slice());
            put_u16(writer, *port);
        },
        Address::DomainName(domain_name, port) => {
            let raw = domain_name.as_str().as_bytes();
            writer.push(SOCK5_ADDRESS_DOMAIN_NAME);
            writer.push(raw.len() as u8);
            put_bytes(writer, raw);
            put_u16(writer, *port);
        },
        Address::Ipv6(ip, port) => {
            writer.push(SOCK5_ADDRESS_IPV6);
            put_bytes(writer, ip.as_slice());
            put_u16(writer, *port);
        },
    }
    assert(writer@ =~= old(writer)@ + connect_resp_bytes(reply, address@));
    Ok(())
}

/// What reading an address at the start of `b` gives: the address and the
/// number of bytes it took. A host name is checked as soon as its bytes are
/// there, before its port.
pub open spec fn address_parse(b: Seq<u8>) -> Result<(AddressView, nat), ProxyErrorKind> {
    if b.len() < 1 {
        Err(ProxyErrorKind::ErrTruncated)
    } else if b[0] == SOCK5_ADDRESS_IPV4 {
        if b.len() < 7 {
            Err(ProxyErrorKind::ErrTruncated)
        } else {
            Ok((AddressView::Ipv4(b.subrange(1, 5), u16_value(b.subrange(5, 7))), 7nat))
        }
    } else if b[0] == SOCK5_ADDRESS_DOMAIN_NAME {
        if b.len() < 2 || b.len() < 2 + b[1] {
            Err(ProxyErrorKind::ErrTruncated)
        } else if !valid_utf8(b.subrange(2, 2 + b[1])) {
            Err(ProxyErrorKind::ErrUnknownSock5Address)
        } else if b.len() < 4 + b[1] {
            Err(ProxyErrorKind::ErrTruncated)
        } else {
            Ok(
                (
                    AddressView::DomainName(
                        decode_utf8(b.subrange(2, 2 + b[1])),
                        u16_value(b.subrange(2 + b[1], 4 + b[1])),
                    ),
                    (4 + b[1]) as nat,
                ),
            )
        }
    } else if b[0] == SOCK5_ADDRESS_IPV6 {
        if b.len() < 19 {
            Err(ProxyErrorKind::ErrTruncated)
        } else {
            Ok((AddressView::Ipv6(b.subrange(1, 17), u16_value(b.subrange(17, 19))), 19nat))
        }
    } else {
        Err(ProxyErrorKind::ErrUnknownSock5Address)
    }
}

/// A connect request as the client spells it: version, command, a reserved
/// zero, the destination.
pub open spec fn connect_req_bytes(command: CommandType, address: AddressView) -> Seq<u8> {
    seq![SOCK5_VERSION, command_code(command), 0u8] + address_bytes(address)
}

/// What reading a connect request at the start of `b` gives: the command,
/// the destination and the number of bytes the request took. Each field is
/// judged as soon as its bytes are there: a wrong version at the first
/// byte, an unknown command at the second. The reserved byte may hold
/// anything.
pub open spec fn connect_req_parse(b: Seq<u8>) -> Result<
    (CommandType, AddressView, nat),
    ProxyErrorKind,
> {
    if b.len() < 1 {
        Err(ProxyErrorKind::ErrTruncated)
    } else if b[0] != SOCK5_VERSION {
        Err(ProxyErrorKind::ErrUnknownSock5Version)
    } else if b.len() < 2 {
        Err(ProxyErrorKind::ErrTruncated)
    } else if command_of(b[1]) is None {
        Err(ProxyErrorKind::ErrUnknownSock5Command)
    } else if b.len() < 3 {
        Err(ProxyErrorKind::ErrTruncated)
    } else {
        match address_parse(b.skip(3)) {
            Ok((address, used)) => Ok((command_of(b[1]).unwrap(), address, used + 3)),
            Err(kind) => Err(kind),
        }
    }
}

/// Reads the address that starts at `at`, and says how many bytes it took.
fn read_address(reader: &[u8], at: usize) -> (r: Result<(Address, usize), ProxyError>)
    requires
        at <= reader@.len(),
    ensures
        match address_parse(reader@.skip(at as int)) {
            Ok((address, used)) => r matches Ok((got, n)) && got@ == address && n == used,
            Err(kind) => r matches Err(e) && e.kind == kind,
        },
{
    let ghost b = reader@.skip(at as int);
    let left: usize = reader.len() - at;
    if left < 1 {
        return Err(ProxyError::new(ProxyErrorKind::ErrTruncated));
    }
    let raw_address_type = reader[at];
    assert(raw_address_type == b[0]);
    match raw_address_type {
        SOCK5_ADDRESS_IPV4 => {
            if left < 7 {
                return Err(ProxyError::new(ProxyErrorKind::ErrTruncated));
            }
            let raw_ipv4 = take4(reader, at + 1);
            let port = u16_at(reader, at + 5);
            assert(reader@.subrange(at + 1, at + 5) =~= b.subrange(1, 5));
            assert(reader@.subrange(at + 5, at + 7) =~= b.subrange(5, 7));
            Ok((Address::Ipv4(raw_ipv4, port), 7))
        },
        SOCK5_ADDRESS_DOMAIN_NAME => {
            if left < 2 {
                return Err(ProxyError::new(ProxyErrorKind::ErrTruncated));
            }
            let domain_len: usize = reader[at + 1] as usize;
            assert(domain_len == b[1]);
            if left < 2 + domain_len {
                return Err(ProxyError::new(ProxyErrorKind::ErrTruncated));
            }
            let raw_domain_name = slice_to_vec(
                slice_subrange(reader, at + 2, at + 2 + domain_len),
            );
            assert(raw_domain_name@ =~= b.subrange(2, 2 + domain_len));
            let domain_name = match utf8_to_string(raw_domain_name) {
                Some(name) => name,
                None => {
                    return Err(ProxyError::new(ProxyErrorKind::ErrUnknownSock5Address));
                },
            };
            if left < 4 + domain_len {
                return Err(ProxyError::new(ProxyErrorKind::ErrTruncated));
            }
            let port = u16_at(reader, at + 2 + domain_len);
            assert(reader@.subrange(at + 2 + domain_len, at + 2 + domain_len + 2) =~= b.subrange(
                2 + domain_len,
                4 + domain_len,
            ));
            Ok((Address::DomainName(domain_name, port), 4 + domain_len))
        },
        SOCK5_ADDRESS_IPV6 => {
            if left < 19 {
                return Err(ProxyError::new(ProxyErrorKind::ErrTruncated));
            }
            let raw_ipv6 = take16(reader, at + 1);
            let port = u16_at(reader, at + 17);
            assert(reader@.subrange(at + 1, at + 17) =~= b.subrange(1, 17));
            assert(reader@.subrange(at + 17, at + 19) =~= b.subrange(17, 19));
            Ok((Address::Ipv6(raw_ipv6, port), 19))
        },
        _ => Err(ProxyError::new(ProxyErrorKind::ErrUnknownSock5Address)),
    }
}

/// Reads a connect request from the start of `reader`: the command, the
/// destination, and how many bytes the request took.
pub fn read_connect_req(reader: &[u8]) -> (r: Result<(CommandType, Address, usize), ProxyError>)
    ensures
        match connect_req_parse(reader@) {
            Ok((command, address, used)) => r matches Ok((c, a, n)) && c == command && a@
                == address && n == used,
            Err(kind) => r matches Err(e) && e.kind == kind,
        },
{
    if reader.len() < 1 {
        return Err(ProxyError::new(ProxyErrorKind::ErrTruncated));
    }
    let version = reader[0];
    if version != SOCK5_VERSION {
        return Err(ProxyError::new(ProxyErrorKind::ErrUnknownSock5Version));
    }
    if reader.len() < 2 {
        return Err(ProxyError::new(ProxyErrorKind::ErrTruncated));
    }
    let command = match CommandType::try_from(reader[1]) {
        Ok(command) => command,
        Err(e) => {
            return Err(e);
        },
    };
    if reader.len() < 3 {
        return Err(ProxyError::new(ProxyErrorKind::ErrTruncated));
    }
    match read_address(reader, 3) {
        Ok((address, used)) => Ok((command, address, used + 3)),
        Err(e) => Err(e),
    }
}

/// The methods known here among the offered codes, in the order offered.
pub open spec fn known_methods(codes: Seq<u8>) -> Seq<Method>
    decreases codes.len(),
{
    if codes.len() == 0 {
        Seq::empty()
    } else {
        match method_of(codes.last()) {
            Some(method) => known_methods(codes.drop_last()).push(method),
            None => known_methods(codes.drop_last()),
        }
    }
}

/// A greeting as the client spells it: version, the number of methods,
/// one byte for each.
pub open spec fn init_req_bytes(codes: Seq<u8>) -> Seq<u8> {
    seq![SOCK5_VERSION, codes.len() as u8] + codes
}

/// What reading a greeting at the start of `b` gives: the methods known
/// here among those offered, and the number of bytes the greeting took.
/// A code that names no method known here is passed over.
pub open spec fn init_req_parse(b: Seq<u8>) -> Result<(Seq<Method>, nat), ProxyErrorKind> {
    if b.len() < 1 {
        Err(ProxyErrorKind::ErrTruncated)
    } else if b[0] != SOCK5_VERSION {
        Err(ProxyErrorKind::ErrUnknownSock5Version)
    } else if b.len() < 2 || b.len() < 2 + b[1] {
        Err(ProxyErrorKind::ErrTruncated)
    } else {
        Ok((known_methods(b.subrange(2, 2 + b[1])), (2 + b[1]) as nat))
    }
}

/// Reads a greeting from the start of `reader`: the methods, and how many
/// bytes the greeting took.
pub fn read_init_req(reader: &[u8]) -> (r: Result<(Vec<Method>, usize), ProxyError>)
    ensures
        match init_req_parse(reader@) {
            Ok((methods, used)) => r matches Ok((m, n)) && m@ == methods && n == used,
            Err(kind) => r matches Err(e) && e.kind == kind,
        },
{
    if reader.len() < 1 {
        return Err(ProxyError::new(ProxyErrorKind::ErrTruncated));
    }
    let version = reader[0];
    if version != SOCK5_VERSION {
        return Err(ProxyError::new(ProxyErrorKind::ErrUnknownSock5Version));
    }
    if reader.len() < 2 {
        return Err(ProxyError::new(ProxyErrorKind::ErrTruncated));
    }
    let method_len: usize = reader[1] as usize;
    if reader.len() < 2 + method_len {
        return Err(ProxyError::new(ProxyErrorKind::ErrTruncated));
    }
    let ghost codes = reader@.subrange(2, 2 + method_len);
    let mut methods: Vec<Method> = Vec::with_capacity(method_len);
    let mut i: usize = 0;
    while i < method_len
        invariant
            i <= method_len <= 255,
            2 + method_len <= reader@.len(),
            codes == reader@.subrange(2, 2 + method_len),
            methods@ == known_methods(codes.subrange(0, i as int)),
        decreases method_len - i,
    {
        let ghost seen = codes.subrange(0, i + 1);
        assert(seen.drop_last() =~= codes.subrange(0, i as int));
        assert(seen.last() == reader@[2 + i]);
        match Method::try_from(reader[2 + i]) {
            Ok(method) => {
                methods.push(method);
            },
            Err(_) => {},
        }
        i += 1;
    }
    assert(codes.subrange(0, method_len as int) =~= codes);
    Ok((methods, 2 + method_len))
}

/// The method the proxy goes by: none. A client that does not offer it is
/// turned away.
pub open spec fn method_choice(methods: Seq<Method>) -> Result<Method, ProxyErrorKind> {
    if methods.contains(Method::NoAuth) {
        Ok(Method::NoAuth)
    } else {
        Err(ProxyErrorKind::NoAcceptableMethod)
    }
}

/// Chooses the method for the session from those the client offered.
pub fn choose_method(methods: &Vec<Method>) -> (r: Result<Method, ProxyError>)
    ensures
        match method_choice(methods@) {
            Ok(method) => r == Ok::<Method, ProxyError>(method),
            Err(kind) => r matches Err(e) && e.kind == kind,
        },
{
    let mut i: usize = 0;
    while i < methods.len()
        invariant
            i <= methods@.len(),
            !methods@.subrange(0, i as int).contains(Method::NoAuth),
        decreases methods@.len() - i,
    {
        if methods[i] == Method::NoAuth {
            assert(methods@[i as int] == Method::NoAuth);
            return Ok(Method::NoAuth);
        }
        assert(methods@.subrange(0, i + 1) =~= methods@.subrange(0, i as int).push(
            methods@[i as int],
        ));
        i += 1;
    }
    assert(methods@.subrange(0, i as int) =~= methods@);
    Err(ProxyError::new(ProxyErrorKind::NoAcceptableMethod))
}

/// An address that can be spelled is read back as it was, whatever
/// follows it.
pub proof fn lemma_address_round_trip(a: AddressView, rest: Seq<u8>)
    requires
        a.wf(),
        address_fits(a),
    ensures
        address_parse(address_bytes(a) + rest) == Ok::<(AddressView, nat), ProxyErrorKind>(
            (a, address_bytes(a).len()),
        ),
{
    let b = address_bytes(a) + rest;
    match a {
        AddressView::Ipv4(ip, port) => {
            assert(b.subrange(1, 5) =~= ip);
            assert(b.subrange(5, 7) =~= u16_bytes(port) + Seq::<u8>::empty());
            crate::wire::lemma_u16_round_trip(port, Seq::empty());
        },
        AddressView::DomainName(name, port) => {
            let raw = encode_utf8(name);
            let n = raw.len() as int;
            assert(b[1] == n);
            assert(b.subrange(2, 2 + n) =~= raw);
            vstd::utf8::encode_utf8_valid_utf8(name);
            vstd::utf8::encode_utf8_decode_utf8(name);
            assert(b.subrange(2 + n, 4 + n) =~= u16_bytes(port)
                + Seq::<u8>::empty());
            crate::wire::lemma_u16_round_trip(port, Seq::empty());
        },
        AddressView::Ipv6(ip, port) => {
            assert(b.subrange(1, 17) =~= ip);
            assert(b.subrange(17, 19) =~= u16_bytes(port) + Seq::<u8>::empty());
            crate::wire::lemma_u16_round_trip(port, Seq::empty());
        },
    }
}

/// A connect request that can be spelled is read back as it was,
/// whatever follows it.
pub proof fn lemma_connect_req_round_trip(command: CommandType, a: AddressView, rest: Seq<u8>)
    requires
        a.wf(),
        address_fits(a),
    ensures
        connect_req_parse(connect_req_bytes(command, a) + rest) == Ok::<
            (CommandType, AddressView, nat),
            ProxyErrorKind,
        >((command, a, connect_req_bytes(command, a).len())),
{
    let b = connect_req_bytes(command, a) + rest;
    assert(b.skip(3) =~= address_bytes(a) + rest);
    lemma_address_round_trip(a, rest);
}

/// A greeting is read back as the methods known here among those it
/// offers, whatever follows it.
pub proof fn lemma_init_req_round_trip(codes: Seq<u8>, rest: Seq<u8>)
    requires
        codes.len() <= 255,
    ensures
        init_req_parse(init_req_bytes(codes) + rest) == Ok::<(Seq<Method>, nat), ProxyErrorKind>(
            (known_methods(codes), (2 + codes.len()) as nat),
        ),
{
    let b = init_req_bytes(codes) + rest;
    assert(b.subrange(2, 2 + codes.len() as int) =~= codes);
}

/// Bytes that arrive later change nothing that was decided: once the
/// bytes at hand give an address or an error other than that they end
/// too soon, they give the same with any bytes behind them.
pub proof fn lemma_address_parse_is_stable(b: Seq<u8>, more: Seq<u8>)
    requires
        address_parse(b) != Err::<(AddressView, nat), ProxyErrorKind>(ProxyErrorKind::ErrTruncated),
    ensures
        address_parse(b + more) == address_parse(b),
{
    let c = b + more;
    assert(c[0] == b[0]);
    if b[0] == SOCK5_ADDRESS_IPV4 {
        assert(c.subrange(1, 5) =~= b.subrange(1, 5));
        assert(c.subrange(5, 7) =~= b.subrange(5, 7));
    } else if b[0] == SOCK5_ADDRESS_DOMAIN_NAME {
        assert(c[1] == b[1]);
        assert(c.subrange(2, 2 + b[1]) =~= b.subrange(2, 2 + b[1]));
        if valid_utf8(b.subrange(2, 2 + b[1])) {
            assert(c.subrange(2 + b[1], 4 + b[1]) =~= b.subrange(2 + b[1], 4 + b[1]));
        }
    } else if b[0] == SOCK5_ADDRESS_IPV6 {
        assert(c.subrange(1, 17) =~= b.subrange(1, 17));
        assert(c.subrange(17, 19) =~= b.subrange(17, 19));
    }
}

/// The same of a connect request and of a greeting: what they give once
/// they are whole, or wrong, they give with any bytes behind them.
pub proof fn lemma_handshake_parse_is_stable(b: Seq<u8>, more: Seq<u8>)
    ensures
        connect_req_parse(b) != Err::<(CommandType, AddressView, nat), ProxyErrorKind>(
            ProxyErrorKind::ErrTruncated,
        ) ==> connect_req_parse(b + more) == connect_req_parse(b),
        init_req_parse(b) != Err::<(Seq<Method>, nat), ProxyErrorKind>(
            ProxyErrorKind::ErrTruncated,
        ) ==> init_req_parse(b + more) == init_req_parse(b),
{
    let c = b + more;
    if connect_req_parse(b) != Err::<(CommandType, AddressView, nat), ProxyErrorKind>(
        ProxyErrorKind::ErrTruncated,
    ) {
        assert(c[0] == b[0]);
        if b[0] == SOCK5_VERSION {
            assert(c[1] == b[1]);
            if command_of(b[1]) is Some {
                assert(c.skip(3) =~= b.skip(3) + more);
                lemma_address_parse_is_stable(b.skip(3), more);
            }
        }
    }
    if init_req_parse(b) != Err::<(Seq<Method>, nat), ProxyErrorKind>(
        ProxyErrorKind::ErrTruncated,
    ) {
        assert(c[0] == b[0]);
        if b[0] == SOCK5_VERSION {
            assert(c[1] == b[1]);
            assert(c.subrange(2, 2 + b[1]) =~= b.subrange(2, 2 + b[1]));
        }
    }
}

/// The settings of the front end.
pub struct Sock5ProxyServerConfig {
    pub bind_addr: String,
}

/// The front end: it listens where its settings say.
pub struct Sock5ProxyServer {
    config: Sock5ProxyServerConfig,
}

impl Sock5ProxyServer {
    /// A front end with the given settings.
    pub fn new(config: Sock5ProxyServerConfig) -> (server: Sock5ProxyServer)
        ensures
            server.bind_addr_spec() == config.bind_addr@,
    {
        Sock5ProxyServer { config }
    }

    /// The address to listen on.
    pub closed spec fn bind_addr_spec(&self) -> Seq<char> {
        self.config.bind_addr@
    }

    /// The address to listen on.
    pub fn bind_addr(&self) -> (addr: &str)
        ensures
            addr@ == self.bind_addr_spec(),
    {
        self.config.bind_addr.as_str()
    }
}

/// Where the handshake with one local application stands.
#[derive(Clone, Copy, Debug, PartialEq, Eq, Structural)]
pub enum HandshakeState {
    /// The greeting is awaited.
    Greeting,
    /// The connect request is awaited.
    Request,
    /// The tunnel to the destination is being made.
    Connecting,
    /// The final reply said success: bytes may flow.
    Established,
    /// The handshake has failed: the socket is to be closed.
    Failed,
}

/// What the handshake asks for after it has looked at the input.
#[derive(Debug)]
pub enum Step {
    /// More input: the message at hand is not whole.
    NeedMore,
    /// `bytes` go to the application, `used` bytes of the input are done
    /// with, and the handshake goes on.
    Reply { bytes: Vec<u8>, used: usize },
    /// A tunnel to `destination`; `used` bytes of the input are done
    /// with.
    Connect { destination: Address, used: usize },
    /// The end: `bytes`, if there are any, go to the application, and
    /// the socket is closed.
    Reject { bytes: Vec<u8>, error: ProxyError },
    /// Nothing: the handshake awaits no input.
    Idle,
}

/// A [`Step`] as contracts see it.
pub enum StepView {
    NeedMore,
    Reply { bytes: Seq<u8>, used: nat },
    Connect { destination: AddressView, used: nat },
    Reject { bytes: Seq<u8>, error: ProxyErrorKind },
    Idle,
}

impl View for Step {
    type V = StepView;

    open spec fn view(&self) -> StepView {
        match *self {
            Step::NeedMore => StepView::NeedMore,
            Step::Reply { bytes, used } => StepView::Reply { bytes: bytes@, used: used as nat },
            Step::Connect { destination, used } => StepView::Connect {
                destination: destination@,
                used: used as nat,
            },
            Step::Reject { bytes, error } => StepView::Reject { bytes: bytes@, error: error.kind },
            Step::Idle => StepView::Idle,
        }
    }
}

/// The address that a reply carries when there is none to tell.
pub open spec fn no_address() -> AddressView {
    AddressView::Ipv4(seq![0u8, 0u8, 0u8, 0u8], 0)
}

/// What the application is told when its connect request is turned
/// down. A request with a wrong version is not answered.
pub open spec fn rejection_bytes(kind: ProxyErrorKind) -> Seq<u8> {
    match kind {
        ProxyErrorKind::ErrUnknownSock5Command => connect_resp_bytes(
            ReplyType::CommandNotSupported,
            no_address(),
        ),
        ProxyErrorKind::CommandNotSupported => connect_resp_bytes(
            ReplyType::CommandNotSupported,
            no_address(),
        ),
        ProxyErrorKind::ErrUnknownSock5Address => connect_resp_bytes(
            ReplyType::AddressNotSupported,
            no_address(),
        ),
        _ => Seq::empty(),
    }
}

/// What is told of a rejection is a whole reply or nothing: the
/// application never gets a part of a reply.
pub proof fn lemma_rejection_is_whole_or_nothing(kind: ProxyErrorKind)
    ensures
        rejection_bytes(kind).len() == 0 || exists|reply: ReplyType|
            rejection_bytes(kind) == connect_resp_bytes(reply, no_address()),
{
    match kind {
        ProxyErrorKind::ErrUnknownSock5Command => {
            assert(rejection_bytes(kind) == connect_resp_bytes(
                ReplyType::CommandNotSupported,
                no_address(),
            ));
        },
        ProxyErrorKind::CommandNotSupported => {
            assert(rejection_bytes(kind) == connect_resp_bytes(
                ReplyType::CommandNotSupported,
                no_address(),
            ));
        },
        ProxyErrorKind::ErrUnknownSock5Address => {
            assert(rejection_bytes(kind) == connect_resp_bytes(
                ReplyType::AddressNotSupported,
                no_address(),
            ));
        },
        _ => {},
    }
}

/// What the handshake asks for, given where it stands and the input at
/// hand.
pub open spec fn step_for(state: HandshakeState, input: Seq<u8>) -> StepView {
    match state {
        HandshakeState::Greeting => match init_req_parse(input) {
            Err(ProxyErrorKind::ErrTruncated) => StepView::NeedMore,
            Err(kind) => StepView::Reject { bytes: Seq::empty(), error: kind },
            Ok((methods, used)) => match method_choice(methods) {
                Ok(method) => StepView::Reply { bytes: init_resp_bytes(method), used },
                Err(kind) => StepView::Reject {
                    bytes: init_resp_bytes(Method::NoAcceptableMethods),
                    error: kind,
                },
            },
        },
        HandshakeState::Request => match connect_req_parse(input) {
            Err(ProxyErrorKind::ErrTruncated) => StepView::NeedMore,
            Err(kind) => StepView::Reject { bytes: rejection_bytes(kind), error: kind },
            Ok((command, destination, used)) => if command == CommandType::Connect {
                StepView::Connect { destination, used }
            } else {
                StepView::Reject {
                    bytes: rejection_bytes(ProxyErrorKind::CommandNotSupported),
                    error: ProxyErrorKind::CommandNotSupported,
                }
            },
        },
        _ => StepView::Idle,
    }
}

/// Where the handshake stands after a step.
pub open spec fn state_after_step(state: HandshakeState, step: StepView) -> HandshakeState {
    match step {
        StepView::NeedMore => state,
        StepView::Idle => state,
        StepView::Reply { .. } => HandshakeState::Request,
        StepView::Connect { .. } => HandshakeState::Connecting,
        StepView::Reject { .. } => HandshakeState::Failed,
    }
}

/// The reply that tells the application why there is no tunnel.
pub open spec fn reply_for(error: TunnelError) -> ReplyType {
    match error {
        TunnelError::ConnectRefused => ReplyType::ConnectionRefused,
        TunnelError::HostUnreachable => ReplyType::HostUnreachable,
        TunnelError::Timeout => ReplyType::TtlExpired,
        _ => ReplyType::GeneralServerFailure,
    }
}

/// The handshake with one local application.
pub struct Sock5ProxyClient {
    state: HandshakeState,
}

impl View for Sock5ProxyClient {
    type V = HandshakeState;

    closed spec fn view(&self) -> HandshakeState {
        self.state
    }
}

impl Sock5ProxyClient {
    /// A handshake that awaits the greeting.
    pub fn new() -> (client: Sock5ProxyClient)
        ensures
            client@ == HandshakeState::Greeting,
    {
        Sock5ProxyClient { state: HandshakeState::Greeting }
    }

    /// Where the handshake stands.
    pub fn state(&self) -> (s: HandshakeState)
        ensures
            s == self@,
    {
        self.state
    }

    /// Looks at the input at hand, the bytes that the application has
    /// sent and that no step has used, and says what the handshake asks
    /// for. A message that is not whole changes nothing; a message that
    /// is wrong ends the handshake with, at most, one whole reply.
    pub fn start(&mut self, input: &[u8]) -> (step: Step)
        ensures
            step@ == step_for(old(self)@, input@),
            final(self)@ == state_after_step(old(self)@, step@),
    {
        match self.state {
            HandshakeState::Greeting => {
                let (methods, used) = match read_init_req(input) {
                    Ok(pair) => pair,
                    Err(e) => {
                        return match e.kind {
                            ProxyErrorKind::ErrTruncated => Step::NeedMore,
                            _ => {
                                self.state = HandshakeState::Failed;
                                Step::Reject { bytes: Vec::new(), error: e }
                            },
                        };
                    },
                };
                let mut bytes: Vec<u8> = Vec::new();
                match choose_method(&methods) {
                    Ok(method) => {
                        write_init_resp(&mut bytes, method);
                        self.state = HandshakeState::Request;
                        Step::Reply { bytes, used }
                    },
                    Err(e) => {
                        write_init_resp(&mut bytes, Method::NoAcceptableMethods);
                        self.state = HandshakeState::Failed;
                        Step::Reject { bytes, error: e }
                    },
                }
            },
            HandshakeState::Request => {
                match read_connect_req(input) {
                    Ok((command, destination, used)) => {
                        if command == CommandType::Connect {
                            self.state = HandshakeState::Connecting;
                            Step::Connect { destination, used }
                        } else {
                            self.state = HandshakeState::Failed;
                            Step::Reject {
                                bytes: failure_reply(ReplyType::CommandNotSupported),
                                error: ProxyError::new(ProxyErrorKind::CommandNotSupported),
                            }
                        }
                    },
                    Err(e) => {
                        let bytes = match e.kind {
                            ProxyErrorKind::ErrTruncated => {
                                return Step::NeedMore;
                            },
                            ProxyErrorKind::ErrUnknownSock5Command => failure_reply(
                                ReplyType::CommandNotSupported,
                            ),
                            ProxyErrorKind::ErrUnknownSock5Address => failure_reply(
                                ReplyType::AddressNotSupported,
                            ),
                            _ => Vec::new(),
                        };
                        self.state = HandshakeState::Failed;
                        Step::Reject { bytes, error: e }
                    },
                }
            },
            _ => Step::Idle,
        }
    }

    /// Called when the tunnel is active: gives the final reply, which
    /// says success and names `bound`, the local address that the proxy
    /// is bound to. Out of turn, or with an address that cannot be
    /// spelled, nothing is given and nothing changes.
    pub fn established(&mut self, bound: &Address) -> (r: Result<Vec<u8>, ProxyError>)
        ensures
            match finish_check(old(self)@, bound@) {
                Ok(_) => r matches Ok(bytes) && bytes@ == connect_resp_bytes(
                    ReplyType::Success,
                    bound@,
                ) && final(self)@ == HandshakeState::Established,
                Err(kind) => r matches Err(e) && e.kind == kind && final(self)@ == old(self)@,
            },
    {
        match self.state {
            HandshakeState::Connecting => {},
            _ => {
                return Err(ProxyError::new(ProxyErrorKind::ErrOutOfTurn));
            },
        }
        let mut bytes: Vec<u8> = Vec::new();
        match write_connect_resp(&mut bytes, ReplyType::Success, bound) {
            Ok(()) => {
                self.state = HandshakeState::Established;
                assert(bytes@ =~= connect_resp_bytes(ReplyType::Success, bound@));
                Ok(bytes)
            },
            Err(e) => Err(e),
        }
    }

    /// Called when there will be no tunnel: gives the final reply, which
    /// tells of the failure, and ends the handshake. Out of turn, nothing
    /// is given and nothing changes.
    pub fn failed(&mut self, error: TunnelError) -> (r: Result<Vec<u8>, ProxyError>)
        ensures
            old(self)@ == HandshakeState::Connecting ==> (r matches Ok(bytes) && bytes@
                == connect_resp_bytes(reply_for(error), no_address()) && final(self)@
                == HandshakeState::Failed),
            old(self)@ != HandshakeState::Connecting ==> (r matches Err(e) && e.kind
                == ProxyErrorKind::ErrOutOfTurn && final(self)@ == old(self)@),
    {
        match self.state {
            HandshakeState::Connecting => {},
            _ => {
                return Err(ProxyError::new(ProxyErrorKind::ErrOutOfTurn));
            },
        }
        let reply = match error {
            TunnelError::ConnectRefused => ReplyType::ConnectionRefused,
            TunnelError::HostUnreachable => ReplyType::HostUnreachable,
            TunnelError::Timeout => ReplyType::TtlExpired,
            _ => ReplyType::GeneralServerFailure,
        };
        self.state = HandshakeState::Failed;
        Ok(failure_reply(reply))
    }
}

/// Whether the final reply may be given, and if not, why.
pub open spec fn finish_check(state: HandshakeState, bound: AddressView) -> Result<
    (),
    ProxyErrorKind,
> {
    if state != HandshakeState::Connecting {
        Err(ProxyErrorKind::ErrOutOfTurn)
    } else if !address_fits(bound) {
        Err(ProxyErrorKind::ErrUnknownSock5Address)
    } else {
        Ok(())
    }
}

/// The reply that carries `reply` and no address.
pub fn failure_reply(reply: ReplyType) -> (bytes: Vec<u8>)
    ensures
        bytes@ == connect_resp_bytes(reply, no_address()),
{
    let mut bytes: Vec<u8> = Vec::new();
    let nowhere = Address::Ipv4([0, 0, 0, 0], 0);
    assert(nowhere@ == no_address()) by {
        assert(nowhere@->Ipv4_0 =~= seq![0u8, 0u8, 0u8, 0u8]);
    }
    let _ = write_connect_resp(&mut bytes, reply, &nowhere);
    assert(bytes@ =~= connect_resp_bytes(reply, no_address()));
    bytes
}

} // verus!

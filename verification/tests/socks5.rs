use kproxy::address::Address;
use kproxy::socks5::choose_method;
use kproxy::socks5::failure_reply;
use kproxy::socks5::read_connect_req;
use kproxy::socks5::read_init_req;
use kproxy::socks5::write_connect_resp;
use kproxy::socks5::write_init_resp;
use kproxy::socks5::CommandType;
use kproxy::socks5::HandshakeState;
use kproxy::socks5::Method;
use kproxy::socks5::ProxyError;
use kproxy::socks5::ProxyErrorKind;
use kproxy::socks5::ReplyType;
use kproxy::socks5::Sock5ProxyClient;
use kproxy::socks5::Sock5ProxyServer;
use kproxy::socks5::Sock5ProxyServerConfig;
use kproxy::socks5::Step;
use kproxy::tunnel::TunnelError;

#[test]
fn method_codes() {
    for (method, code) in [(Method::NoAuth, 0u8), (Method::UserNamePasswd, 2), (Method::NoAcceptableMethods, 0xff)] {
        assert_eq!(u8::from(method), code);
        assert_eq!(Method::try_from(code).unwrap(), method);
    }
    for code in [1u8, 3, 0x80, 0xfe] {
        assert!(matches!(Method::try_from(code), Err(ProxyError { kind: ProxyErrorKind::ErrUnknownSock5Method })));
    }
}

#[test]
fn command_and_reply_codes() {
    for (command, code) in [(CommandType::Connect, 1u8), (CommandType::Bind, 2), (CommandType::UDP, 3)] {
        assert_eq!(u8::from(command), code);
        assert_eq!(CommandType::try_from(code).unwrap(), command);
    }
    for code in [0u8, 4, 0xff] {
        assert!(matches!(CommandType::try_from(code), Err(ProxyError { kind: ProxyErrorKind::ErrUnknownSock5Command })));
    }
    let replies = [
        (ReplyType::Success, 0u8),
        (ReplyType::GeneralServerFailure, 1),
        (ReplyType::HostUnreachable, 4),
        (ReplyType::ConnectionRefused, 5),
        (ReplyType::TtlExpired, 6),
        (ReplyType::CommandNotSupported, 7),
        (ReplyType::AddressNotSupported, 8),
    ];
    for (reply, code) in replies {
        assert_eq!(u8::from(reply), code);
    }
}

#[test]
fn proxy_error_keeps_its_kind() {
    let e = ProxyError::new(ProxyErrorKind::ErrUnknownSock5Version);
    assert!(matches!(e.kind, ProxyErrorKind::ErrUnknownSock5Version));
    let io = std::io::Error::new(std::io::ErrorKind::UnexpectedEof, "eof");
    match ProxyError::map_io_err(io).kind {
        ProxyErrorKind::ErrIO(inner) => assert_eq!(inner.kind(), std::io::ErrorKind::UnexpectedEof),
        other => panic!("wrong kind: {:?}", other),
    }
}

#[test]
fn greeting_is_read() {
    let (methods, used) = read_init_req(&[5, 2, 0, 2, 0xee]).unwrap();
    assert_eq!(methods, vec![Method::NoAuth, Method::UserNamePasswd]);
    assert_eq!(used, 4);
    let (methods, used) = read_init_req(&[5, 0]).unwrap();
    assert_eq!(methods, vec![]);
    assert_eq!(used, 2);
}

#[test]
fn greeting_passes_over_methods_unknown_here() {
    let (methods, used) = read_init_req(&[5, 4, 1, 0, 0x80, 2]).unwrap();
    assert_eq!(methods, vec![Method::NoAuth, Method::UserNamePasswd]);
    assert_eq!(used, 6);
}

#[test]
fn greeting_errors() {
    assert!(matches!(read_init_req(&[]), Err(ProxyError { kind: ProxyErrorKind::ErrTruncated })));
    assert!(matches!(read_init_req(&[4]), Err(ProxyError { kind: ProxyErrorKind::ErrUnknownSock5Version })));
    assert!(matches!(read_init_req(&[4, 1, 0]), Err(ProxyError { kind: ProxyErrorKind::ErrUnknownSock5Version })));
    assert!(matches!(read_init_req(&[5]), Err(ProxyError { kind: ProxyErrorKind::ErrTruncated })));
    assert!(matches!(read_init_req(&[5, 3, 0, 2]), Err(ProxyError { kind: ProxyErrorKind::ErrTruncated })));
    let mut full = vec![5u8, 255];
    full.extend(std::iter::repeat(0u8).take(254));
    assert!(matches!(read_init_req(&full), Err(ProxyError { kind: ProxyErrorKind::ErrTruncated })));
    full.push(0);
    assert_eq!(read_init_req(&full).unwrap().1, 257);
}

#[test]
fn method_is_chosen() {
    assert_eq!(choose_method(&vec![Method::UserNamePasswd, Method::NoAuth]).unwrap(), Method::NoAuth);
    assert!(matches!(
        choose_method(&vec![Method::UserNamePasswd]),
        Err(ProxyError { kind: ProxyErrorKind::NoAcceptableMethod })
    ));
    assert!(matches!(choose_method(&vec![]), Err(ProxyError { kind: ProxyErrorKind::NoAcceptableMethod })));
}

#[test]
fn init_reply_layout() {
    let mut out: Vec<u8> = Vec::new();
    write_init_resp(&mut out, Method::NoAuth);
    write_init_resp(&mut out, Method::NoAcceptableMethods);
    assert_eq!(out, vec![5, 0, 5, 0xff]);
}

#[test]
fn connect_request_ipv4() {
    let bytes = [5, 1, 0, 1, 93, 184, 216, 34, 0, 80, 0xaa];
    let (command, address, used) = read_connect_req(&bytes).unwrap();
    assert_eq!(command, CommandType::Connect);
    assert_eq!(address, Address::Ipv4([93, 184, 216, 34], 80));
    assert_eq!(used, 10);
}

#[test]
fn connect_request_domain_and_ipv6() {
    let bytes = [5, 1, 0, 3, 3, b'a', b'.', b'b', 0x01, 0xbb];
    let (command, address, used) = read_connect_req(&bytes).unwrap();
    assert_eq!((command, used), (CommandType::Connect, 10));
    assert_eq!(address, Address::DomainName("a.b".to_string(), 443));

    let mut bytes = vec![5u8, 2, 7, 4];
    let ip: [u8; 16] = [0x20, 1, 0xd, 0xb8, 0, 0, 0, 0, 0, 0, 0, 0, 0, 0, 0, 1];
    bytes.extend_from_slice(&ip);
    bytes.extend_from_slice(&[0xff, 0xff]);
    let (command, address, used) = read_connect_req(&bytes).unwrap();
    assert_eq!((command, used), (CommandType::Bind, 22));
    assert_eq!(address, Address::Ipv6(ip, 65535));

    let (_, address, used) = read_connect_req(&[5, 3, 0, 3, 0, 0, 0]).unwrap();
    assert_eq!(address, Address::DomainName(String::new(), 0));
    assert_eq!(used, 7);
}

#[test]
fn connect_request_longest_domain() {
    let name = "n".repeat(255);
    let mut bytes = vec![5u8, 1, 0, 3, 255];
    bytes.extend_from_slice(name.as_bytes());
    bytes.extend_from_slice(&[0, 0]);
    let (_, address, used) = read_connect_req(&bytes).unwrap();
    assert_eq!(address, Address::DomainName(name, 0));
    assert_eq!(used, 262);
}

#[test]
fn connect_request_errors() {
    let kind = |bytes: &[u8]| read_connect_req(bytes).unwrap_err().kind;
    assert!(matches!(kind(&[]), ProxyErrorKind::ErrTruncated));
    assert!(matches!(kind(&[4]), ProxyErrorKind::ErrUnknownSock5Version));
    assert!(matches!(kind(&[5]), ProxyErrorKind::ErrTruncated));
    assert!(matches!(kind(&[5, 0]), ProxyErrorKind::ErrUnknownSock5Command));
    assert!(matches!(kind(&[5, 9, 0, 1, 1, 2, 3, 4, 0, 80]), ProxyErrorKind::ErrUnknownSock5Command));
    assert!(matches!(kind(&[5, 1]), ProxyErrorKind::ErrTruncated));
    assert!(matches!(kind(&[5, 1, 0]), ProxyErrorKind::ErrTruncated));
    assert!(matches!(kind(&[5, 1, 0, 2]), ProxyErrorKind::ErrUnknownSock5Address));
    assert!(matches!(kind(&[5, 1, 0, 0]), ProxyErrorKind::ErrUnknownSock5Address));
    assert!(matches!(kind(&[5, 1, 0, 1, 1, 2, 3, 4, 0]), ProxyErrorKind::ErrTruncated));
    assert!(matches!(kind(&[5, 1, 0, 3]), ProxyErrorKind::ErrTruncated));
    assert!(matches!(kind(&[5, 1, 0, 3, 2, b'a']), ProxyErrorKind::ErrTruncated));
    assert!(matches!(kind(&[5, 1, 0, 3, 2, b'a', b'b', 0]), ProxyErrorKind::ErrTruncated));
    assert!(matches!(kind(&[5, 1, 0, 3, 2, 0xc3, 0x28]), ProxyErrorKind::ErrUnknownSock5Address));
    assert!(matches!(kind(&[5, 1, 0, 3, 1, 0xff, 0, 80]), ProxyErrorKind::ErrUnknownSock5Address));
    assert!(matches!(kind(&[5, 1, 0, 4, 0, 0, 0, 0]), ProxyErrorKind::ErrTruncated));
}

#[test]
fn connect_request_is_stable_under_more_bytes() {
    let whole = [5u8, 1, 0, 3, 2, b'o', b'k', 0, 80];
    for n in 0..whole.len() {
        assert!(matches!(read_connect_req(&whole[..n]).unwrap_err().kind, ProxyErrorKind::ErrTruncated));
    }
    let mut longer = whole.to_vec();
    longer.extend_from_slice(&[1, 2, 3]);
    let (c1, a1, n1) = read_connect_req(&whole).unwrap();
    let (c2, a2, n2) = read_connect_req(&longer).unwrap();
    assert_eq!((c1, a1, n1), (c2, a2, n2));
}

#[test]
fn connect_reply_layouts() {
    let mut out: Vec<u8> = Vec::new();
    assert!(write_connect_resp(&mut out, ReplyType::Success, &Address::Ipv4([127, 0, 0, 1], 1080)).is_ok());
    assert_eq!(out, vec![5, 0, 0, 1, 127, 0, 0, 1, 0x04, 0x38]);

    let mut out: Vec<u8> = Vec::new();
    assert!(write_connect_resp(&mut out, ReplyType::GeneralServerFailure, &Address::DomainName("gw".to_string(), 9)).is_ok());
    assert_eq!(out, vec![5, 1, 0, 3, 2, b'g', b'w', 0, 9]);

    let mut out: Vec<u8> = Vec::new();
    let ip: [u8; 16] = [0, 0, 0, 0, 0, 0, 0, 0, 0, 0, 0, 0, 0, 0, 0, 1];
    assert!(write_connect_resp(&mut out, ReplyType::HostUnreachable, &Address::Ipv6(ip, 0xabcd)).is_ok());
    let mut expected = vec![5u8, 4, 0, 4];
    expected.extend_from_slice(&ip);
    expected.extend_from_slice(&[0xab, 0xcd]);
    assert_eq!(out, expected);

    assert_eq!(failure_reply(ReplyType::ConnectionRefused), vec![5, 5, 0, 1, 0, 0, 0, 0, 0, 0]);
}

#[test]
fn connect_reply_refuses_a_name_that_cannot_be_spelled() {
    let mut out: Vec<u8> = vec![1, 2];
    let long = Address::DomainName("n".repeat(256), 80);
    assert!(matches!(
        write_connect_resp(&mut out, ReplyType::Success, &long),
        Err(ProxyError { kind: ProxyErrorKind::ErrUnknownSock5Address })
    ));
    assert_eq!(out, vec![1, 2]);
    let fits = Address::DomainName("n".repeat(255), 80);
    assert!(write_connect_resp(&mut out, ReplyType::Success, &fits).is_ok());
    assert_eq!(out.len(), 2 + 3 + 2 + 255 + 2);
}

#[test]
fn written_reply_address_reads_back() {
    for address in [
        Address::Ipv4([1, 2, 3, 4], 0),
        Address::Ipv6([7; 16], 65535),
        Address::DomainName("h\u{f6}st".to_string(), 8080),
    ] {
        // A reply and a request spell their address alike.
        let mut out: Vec<u8> = Vec::new();
        write_connect_resp(&mut out, ReplyType::Success, &address).unwrap();
        out[1] = 1;
        let (command, read, used) = read_connect_req(&out).unwrap();
        assert_eq!((command, read, used), (CommandType::Connect, address, out.len()));
    }
}

#[test]
fn handshake_runs_to_established() {
    let mut client = Sock5ProxyClient::new();
    assert_eq!(client.state(), HandshakeState::Greeting);
    assert!(matches!(client.start(&[5]), Step::NeedMore));
    assert_eq!(client.state(), HandshakeState::Greeting);
    match client.start(&[5, 1, 0]) {
        Step::Reply { bytes, used } => {
            assert_eq!(bytes, vec![5, 0]);
            assert_eq!(used, 3);
        }
        other => panic!("unexpected step: {:?}", other),
    }
    assert_eq!(client.state(), HandshakeState::Request);
    assert!(matches!(client.start(&[5, 1, 0, 1, 10]), Step::NeedMore));
    match client.start(&[5, 1, 0, 1, 10, 0, 0, 7, 0, 22]) {
        Step::Connect { destination, used } => {
            assert_eq!(destination, Address::Ipv4([10, 0, 0, 7], 22));
            assert_eq!(used, 10);
        }
        other => panic!("unexpected step: {:?}", other),
    }
    assert_eq!(client.state(), HandshakeState::Connecting);
    assert!(matches!(client.start(&[1, 2, 3]), Step::Idle));
    let reply = client.established(&Address::Ipv4([192, 168, 0, 1], 1080)).unwrap();
    assert_eq!(reply, vec![5, 0, 0, 1, 192, 168, 0, 1, 0x04, 0x38]);
    assert_eq!(client.state(), HandshakeState::Established);
    assert!(matches!(client.start(&[5, 1, 0]), Step::Idle));
}

#[test]
fn handshake_without_no_auth_is_turned_away() {
    let mut client = Sock5ProxyClient::new();
    match client.start(&[5, 1, 2]) {
        Step::Reject { bytes, error } => {
            assert_eq!(bytes, vec![5, 0xff]);
            assert!(matches!(error.kind, ProxyErrorKind::NoAcceptableMethod));
        }
        other => panic!("unexpected step: {:?}", other),
    }
    assert_eq!(client.state(), HandshakeState::Failed);
    assert!(matches!(client.start(&[5, 1, 0]), Step::Idle));
}

#[test]
fn handshake_with_wrong_version_closes_without_reply() {
    let mut client = Sock5ProxyClient::new();
    match client.start(&[4, 1, 0]) {
        Step::Reject { bytes, error } => {
            assert!(bytes.is_empty());
            assert!(matches!(error.kind, ProxyErrorKind::ErrUnknownSock5Version));
        }
        other => panic!("unexpected step: {:?}", other),
    }
    let mut client = Sock5ProxyClient::new();
    client.start(&[5, 1, 0]);
    match client.start(&[6, 1, 0, 1, 1, 2, 3, 4, 0, 80]) {
        Step::Reject { bytes, error } => {
            assert!(bytes.is_empty());
            assert!(matches!(error.kind, ProxyErrorKind::ErrUnknownSock5Version));
        }
        other => panic!("unexpected step: {:?}", other),
    }
    assert_eq!(client.state(), HandshakeState::Failed);
}

#[test]
fn handshake_rejects_commands_other_than_connect() {
    for request in [
        vec![5u8, 2, 0, 1, 1, 2, 3, 4, 0, 80],
        vec![5u8, 3, 0, 1, 1, 2, 3, 4, 0, 80],
    ] {
        let mut client = Sock5ProxyClient::new();
        client.start(&[5, 1, 0]);
        match client.start(&request) {
            Step::Reject { bytes, error } => {
                assert_eq!(bytes, vec![5, 7, 0, 1, 0, 0, 0, 0, 0, 0]);
                assert!(matches!(error.kind, ProxyErrorKind::CommandNotSupported));
            }
            other => panic!("unexpected step: {:?}", other),
        }
        assert_eq!(client.state(), HandshakeState::Failed);
    }
    let mut client = Sock5ProxyClient::new();
    client.start(&[5, 1, 0]);
    match client.start(&[5, 9]) {
        Step::Reject { bytes, error } => {
            assert_eq!(bytes, vec![5, 7, 0, 1, 0, 0, 0, 0, 0, 0]);
            assert!(matches!(error.kind, ProxyErrorKind::ErrUnknownSock5Command));
        }
        other => panic!("unexpected step: {:?}", other),
    }
}

#[test]
fn handshake_rejects_addresses_it_cannot_read() {
    for request in [vec![5u8, 1, 0, 9], vec![5u8, 1, 0, 3, 1, 0xff]] {
        let mut client = Sock5ProxyClient::new();
        client.start(&[5, 1, 0]);
        match client.start(&request) {
            Step::Reject { bytes, error } => {
                assert_eq!(bytes, vec![5, 8, 0, 1, 0, 0, 0, 0, 0, 0]);
                assert!(matches!(error.kind, ProxyErrorKind::ErrUnknownSock5Address));
            }
            other => panic!("unexpected step: {:?}", other),
        }
    }
}

#[test]
fn handshake_tells_why_there_is_no_tunnel() {
    let cases = [
        (TunnelError::ClientOffline, 1u8),
        (TunnelError::ConnectRefused, 5),
        (TunnelError::HostUnreachable, 4),
        (TunnelError::Timeout, 6),
        (TunnelError::IdsExhausted, 1),
    ];
    for (error, code) in cases {
        let mut client = Sock5ProxyClient::new();
        client.start(&[5, 1, 0]);
        client.start(&[5, 1, 0, 1, 1, 2, 3, 4, 0, 80]);
        assert_eq!(client.failed(error).unwrap(), vec![5, code, 0, 1, 0, 0, 0, 0, 0, 0]);
        assert_eq!(client.state(), HandshakeState::Failed);
    }
}

#[test]
fn final_reply_out_of_turn_is_refused() {
    let mut client = Sock5ProxyClient::new();
    let bound = Address::Ipv4([0, 0, 0, 0], 0);
    assert!(matches!(client.established(&bound), Err(ProxyError { kind: ProxyErrorKind::ErrOutOfTurn })));
    assert!(matches!(client.failed(TunnelError::Timeout), Err(ProxyError { kind: ProxyErrorKind::ErrOutOfTurn })));
    assert_eq!(client.state(), HandshakeState::Greeting);
    client.start(&[5, 1, 0]);
    client.start(&[5, 1, 0, 1, 1, 2, 3, 4, 0, 80]);
    let long = Address::DomainName("n".repeat(300), 1);
    assert!(matches!(client.established(&long), Err(ProxyError { kind: ProxyErrorKind::ErrUnknownSock5Address })));
    assert_eq!(client.state(), HandshakeState::Connecting);
    assert!(client.established(&bound).is_ok());
    assert!(matches!(client.established(&bound), Err(ProxyError { kind: ProxyErrorKind::ErrOutOfTurn })));
}

#[test]
fn server_keeps_its_bind_address() {
    let server = Sock5ProxyServer::new(Sock5ProxyServerConfig { bind_addr: "127.0.0.1:1080".to_string() });
    assert_eq!(server.bind_addr(), "127.0.0.1:1080");
}

use kproxy::address::Address;
use kproxy::frame::Frame;
use kproxy::frame::FrameKind;
use kproxy::message::error_frame;
use kproxy::message::pack;
use kproxy::message::read_dest;
use kproxy::message::read_message;
use kproxy::message::unpack;
use kproxy::message::unpack_response;
use kproxy::message::write_dest;
use kproxy::message::write_message;
use kproxy::message::AllocFailure;
use kproxy::message::AllocTunnelRequest;
use kproxy::message::AllocTunnelResponse;
use kproxy::message::AuthRequest;
use kproxy::message::AuthResponse;
use kproxy::message::ErrorResponse;
use kproxy::message::Message;
use kproxy::message::MessageType;
use kproxy::message::ResponseError;
use kproxy::wire::CodecError;

fn encoded<M: Message>(m: &M) -> Vec<u8> {
    let mut out: Vec<u8> = Vec::new();
    assert_eq!(m.encode(&mut out), Ok(()));
    out
}

#[test]
fn message_type_codes() {
    let all = [
        (MessageType::AuthRequest, 1u16),
        (MessageType::AuthResponse, 2),
        (MessageType::AllocTunnelRequest, 3),
        (MessageType::AllocTunnelResponse, 4),
        (MessageType::ErrorResponse, 0xffff),
    ];
    for (t, code) in all {
        assert_eq!(u16::from(t), code);
        assert_eq!(MessageType::try_from(code), Ok(t));
    }
    assert_eq!(MessageType::try_from(0u16), Err(CodecError::UnknownCommand));
    assert_eq!(MessageType::try_from(5u16), Err(CodecError::UnknownCommand));
    assert_eq!(AuthRequest::command(), MessageType::AuthRequest);
    assert_eq!(AuthResponse::command(), MessageType::AuthResponse);
    assert_eq!(AllocTunnelRequest::command(), MessageType::AllocTunnelRequest);
    assert_eq!(AllocTunnelResponse::command(), MessageType::AllocTunnelResponse);
    assert_eq!(ErrorResponse::command(), MessageType::ErrorResponse);
}

#[test]
fn auth_request_round_trip() {
    let m = AuthRequest::new("tok-1".to_string());
    assert_eq!(m.get_device_token(), "tok-1");
    let bytes = encoded(&m);
    assert_eq!(bytes, vec![0, 5, b't', b'o', b'k', b'-', b'1']);
    assert_eq!(AuthRequest::decode(&bytes), Ok((m, 7)));
}

#[test]
fn auth_request_empty_token() {
    let m = AuthRequest::new(String::new());
    let bytes = encoded(&m);
    assert_eq!(bytes, vec![0, 0]);
    assert_eq!(AuthRequest::decode(&bytes), Ok((m, 2)));
}

#[test]
fn auth_request_token_too_long() {
    let m = AuthRequest::new("x".repeat(65536));
    let mut out: Vec<u8> = vec![1];
    assert_eq!(m.encode(&mut out), Err(CodecError::StringTooLong));
    assert_eq!(out, vec![1]);
}

#[test]
fn auth_request_errors() {
    assert_eq!(AuthRequest::decode(&[]), Err(CodecError::UnexpectedEnd));
    assert_eq!(AuthRequest::decode(&[0, 4, b'a']), Err(CodecError::StringTooLong));
    assert_eq!(AuthRequest::decode(&[0, 1, 0x80]), Err(CodecError::InvalidUtf8));
}

#[test]
fn auth_response_round_trip() {
    let m = AuthResponse::new(42, 7);
    assert_eq!(m.get_client_id(), 42);
    assert_eq!(m.get_device_id(), 7);
    let bytes = encoded(&m);
    assert_eq!(bytes, vec![0, 0, 0, 0, 0, 0, 0, 42, 0, 0, 0, 0, 0, 0, 0, 7]);
    assert_eq!(AuthResponse::decode(&bytes), Ok((m, 16)));
    let m = AuthResponse::new(u64::MAX, 0);
    assert_eq!(AuthResponse::decode(&encoded(&m)), Ok((m, 16)));
}

#[test]
fn auth_response_errors() {
    assert_eq!(AuthResponse::decode(&[0; 15]), Err(CodecError::UnexpectedEnd));
    assert_eq!(AuthResponse::decode(&[]), Err(CodecError::UnexpectedEnd));
}

#[test]
fn alloc_tunnel_request_ipv4_layout() {
    let m = AllocTunnelRequest::new(1, Address::Ipv4([93, 184, 216, 34], 80));
    assert_eq!(m.get_tunnel_id(), 1);
    assert_eq!(m.get_destination(), &Address::Ipv4([93, 184, 216, 34], 80));
    let bytes = encoded(&m);
    assert_eq!(bytes, vec![0, 0, 0, 0, 0, 0, 0, 1, 1, 93, 184, 216, 34, 0, 80]);
    assert_eq!(AllocTunnelRequest::decode(&bytes), Ok((m, 15)));
}

#[test]
fn alloc_tunnel_request_round_trips() {
    let ipv6: [u8; 16] = [0x20, 1, 0xd, 0xb8, 0, 0, 0, 0, 0, 0, 0, 0, 0, 0, 0, 1];
    for destination in [
        Address::Ipv4([0, 0, 0, 0], 0),
        Address::Ipv4([255, 255, 255, 255], 65535),
        Address::Ipv6(ipv6, 0),
        Address::Ipv6([0xff; 16], 65535),
        Address::DomainName(String::new(), 0),
        Address::DomainName("example.com".to_string(), 443),
        Address::DomainName("b\u{fc}cher.example".to_string(), 65535),
        Address::DomainName("d".repeat(255), 65535),
        Address::DomainName("d".repeat(65535), 1),
    ] {
        let m = AllocTunnelRequest::new(u64::MAX, destination);
        let bytes = encoded(&m);
        assert_eq!(AllocTunnelRequest::decode(&bytes), Ok((m, bytes.len())));
    }
}

#[test]
fn alloc_tunnel_request_domain_layout() {
    let m = AllocTunnelRequest::new(2, Address::DomainName("ab".to_string(), 0x1f90));
    assert_eq!(encoded(&m), vec![0, 0, 0, 0, 0, 0, 0, 2, 3, 0, 2, b'a', b'b', 0x1f, 0x90]);
}

#[test]
fn alloc_tunnel_request_name_too_long() {
    let m = AllocTunnelRequest::new(2, Address::DomainName("d".repeat(65536), 1));
    let mut out: Vec<u8> = Vec::new();
    assert_eq!(m.encode(&mut out), Err(CodecError::StringTooLong));
    assert!(out.is_empty());
}

#[test]
fn alloc_tunnel_request_errors() {
    let id = [0u8, 0, 0, 0, 0, 0, 0, 1];
    let with = |rest: &[u8]| {
        let mut v = id.to_vec();
        v.extend_from_slice(rest);
        v
    };
    assert_eq!(AllocTunnelRequest::decode(&id[..7]), Err(CodecError::UnexpectedEnd));
    assert_eq!(AllocTunnelRequest::decode(&id), Err(CodecError::UnexpectedEnd));
    assert_eq!(AllocTunnelRequest::decode(&with(&[2])), Err(CodecError::InvalidValue));
    assert_eq!(AllocTunnelRequest::decode(&with(&[1, 1, 2, 3, 4, 0])), Err(CodecError::UnexpectedEnd));
    assert_eq!(AllocTunnelRequest::decode(&with(&[3, 0, 5, b'a'])), Err(CodecError::StringTooLong));
    assert_eq!(AllocTunnelRequest::decode(&with(&[3, 0, 1, 0xff, 0, 80])), Err(CodecError::InvalidUtf8));
    assert_eq!(AllocTunnelRequest::decode(&with(&[3, 0, 1, b'a', 0])), Err(CodecError::UnexpectedEnd));
    assert_eq!(AllocTunnelRequest::decode(&with(&[4, 0, 0])), Err(CodecError::UnexpectedEnd));
}

#[test]
fn dest_reads_at_offset() {
    let mut out: Vec<u8> = vec![0xaa];
    assert_eq!(write_dest(&mut out, &Address::Ipv4([10, 0, 0, 1], 8080)), Ok(()));
    out.push(0xbb);
    assert_eq!(out, vec![0xaa, 1, 10, 0, 0, 1, 0x1f, 0x90, 0xbb]);
    assert_eq!(read_dest(&out, 1), Ok((Address::Ipv4([10, 0, 0, 1], 8080), 7)));
    assert_eq!(read_dest(&out, 9), Err(CodecError::UnexpectedEnd));
    assert_eq!(read_dest(&out, 100), Err(CodecError::UnexpectedEnd));
}

#[test]
fn alloc_tunnel_response_round_trip() {
    let cases = [
        (Ok(()), 0u8),
        (Err(AllocFailure::ConnectRefused), 1),
        (Err(AllocFailure::HostUnreachable), 2),
        (Err(AllocFailure::Timeout), 3),
    ];
    for (result, code) in cases {
        let m = AllocTunnelResponse::new(1, result);
        assert_eq!(m.get_tunnel_id(), 1);
        assert_eq!(m.get_result(), result);
        let bytes = encoded(&m);
        assert_eq!(bytes, vec![0, 0, 0, 0, 0, 0, 0, 1, 0, code]);
        assert_eq!(AllocTunnelResponse::decode(&bytes), Ok((m, 10)));
    }
}

#[test]
fn alloc_tunnel_response_errors() {
    assert_eq!(AllocTunnelResponse::decode(&[0; 9]), Err(CodecError::UnexpectedEnd));
    assert_eq!(
        AllocTunnelResponse::decode(&[0, 0, 0, 0, 0, 0, 0, 1, 0, 4]),
        Err(CodecError::InvalidValue)
    );
}

#[test]
fn error_response_round_trip() {
    let all = [
        (CodecError::UnknownCommand, 1u8),
        (CodecError::InvalidUtf8, 2),
        (CodecError::StringTooLong, 3),
        (CodecError::UnexpectedEnd, 4),
        (CodecError::InvalidValue, 5),
        (CodecError::WrongType, 6),
    ];
    for (error, code) in all {
        let m = ErrorResponse::new(error);
        assert_eq!(m.get_error(), error);
        let bytes = encoded(&m);
        assert_eq!(bytes, vec![0, code]);
        assert_eq!(ErrorResponse::decode(&bytes), Ok((m, 2)));
    }
    assert_eq!(ErrorResponse::decode(&[0]), Err(CodecError::UnexpectedEnd));
    assert_eq!(ErrorResponse::decode(&[0, 0]), Err(CodecError::InvalidValue));
    assert_eq!(ErrorResponse::decode(&[0, 7]), Err(CodecError::InvalidValue));
}

#[test]
fn read_and_write_message() {
    let mut out: Vec<u8> = Vec::new();
    assert_eq!(write_message(&mut out, AuthResponse::new(1, 2)), Ok(()));
    assert_eq!(read_message::<AuthResponse>(&out), Ok((AuthResponse::new(1, 2), 16)));
    // Read as another message, the same bytes give what they spell for it.
    assert_eq!(
        read_message::<AllocTunnelResponse>(&out),
        Ok((AllocTunnelResponse::new(1, Ok(())), 10))
    );
    out[9] = 9;
    assert_eq!(read_message::<AllocTunnelResponse>(&out), Err(CodecError::InvalidValue));
}

#[test]
fn pack_and_unpack() {
    let m = AuthRequest::new("tok-1".to_string());
    let frame = pack(FrameKind::Request, 9, &m).unwrap();
    assert_eq!(
        frame,
        Frame { kind: FrameKind::Request, msg_type: 1, tx_id: 9, payload: vec![0, 5, b't', b'o', b'k', b'-', b'1'] }
    );
    assert_eq!(unpack::<AuthRequest>(&frame), Ok(m));
    assert_eq!(unpack::<AuthResponse>(&frame), Err(CodecError::WrongType));
    let long = AuthRequest::new("x".repeat(70000));
    assert_eq!(pack(FrameKind::Request, 9, &long), Err(CodecError::StringTooLong));
}

#[test]
fn unpack_response_tells_remote_from_local_errors() {
    let ok = pack(FrameKind::Response, 3, &AuthResponse::new(42, 1)).unwrap();
    assert_eq!(unpack_response::<AuthResponse>(&ok), Ok(AuthResponse::new(42, 1)));

    let refused = error_frame(3, CodecError::UnknownCommand);
    assert_eq!(
        refused,
        Frame { kind: FrameKind::Response, msg_type: 0xffff, tx_id: 3, payload: vec![0, 1] }
    );
    assert_eq!(
        unpack_response::<AuthResponse>(&refused),
        Err(ResponseError::Remote(CodecError::UnknownCommand))
    );
    assert_eq!(
        unpack_response::<ErrorResponse>(&refused),
        Ok(ErrorResponse::new(CodecError::UnknownCommand))
    );

    let garbled = Frame { kind: FrameKind::Response, msg_type: 0xffff, tx_id: 3, payload: vec![9] };
    assert_eq!(
        unpack_response::<AuthResponse>(&garbled),
        Err(ResponseError::Local(CodecError::UnexpectedEnd))
    );
    let other = pack(FrameKind::Response, 3, &AllocTunnelResponse::new(1, Ok(()))).unwrap();
    assert_eq!(
        unpack_response::<AuthResponse>(&other),
        Err(ResponseError::Local(CodecError::WrongType))
    );
}

#[test]
fn decode_takes_its_own_bytes_and_leaves_the_rest() {
    let suffix = [0xde, 0xad, 0xbe, 0xef];
    let with_suffix = |bytes: &[u8]| {
        let mut v = bytes.to_vec();
        v.extend_from_slice(&suffix);
        v
    };

    for token in ["", "tok-1", "b\u{fc}cher"] {
        let m = AuthRequest::new(token.to_string());
        let b = encoded(&m);
        assert_eq!(b.len(), 2 + token.len());
        let (m2, used) = AuthRequest::decode(&with_suffix(&b)).unwrap();
        assert_eq!(m2, m);
        assert_eq!(used, b.len());
        assert_eq!(encoded(&m2), b);
    }
    let long = AuthRequest::new("t".repeat(65535));
    let b = encoded(&long);
    assert_eq!(AuthRequest::decode(&with_suffix(&b)), Ok((long, 65537)));

    for (client_id, device_id) in [(0u64, 0u64), (42, 7), (u64::MAX, 0), (0, u64::MAX), (u64::MAX, u64::MAX)] {
        let m = AuthResponse::new(client_id, device_id);
        let b = encoded(&m);
        let (r, used) = AuthResponse::decode(&with_suffix(&b)).unwrap();
        assert_eq!(r.get_client_id(), client_id);
        assert_eq!(r.get_device_id(), device_id);
        assert_eq!(used, 16);
        assert_eq!(&b[..8], &client_id.to_be_bytes());
        assert_eq!(&b[8..], &device_id.to_be_bytes());
    }

    for destination in [
        Address::Ipv4([93, 184, 216, 34], 80),
        Address::Ipv6([9; 16], 65535),
        Address::DomainName("example.com".to_string(), 0),
    ] {
        let m = AllocTunnelRequest::new(1, destination);
        let b = encoded(&m);
        assert_eq!(AllocTunnelRequest::decode(&with_suffix(&b)), Ok((m, b.len())));
    }

    let m = AllocTunnelResponse::new(1, Err(AllocFailure::Timeout));
    assert_eq!(AllocTunnelResponse::decode(&with_suffix(&encoded(&m))), Ok((m, 10)));
    let m = ErrorResponse::new(CodecError::UnknownCommand);
    assert_eq!(ErrorResponse::decode(&with_suffix(&encoded(&m))), Ok((m, 2)));
}

#[test]
fn unpack_reads_the_message_at_the_start_of_the_payload() {
    let mut frame = pack(FrameKind::Response, 3, &AuthResponse::new(42, 1)).unwrap();
    frame.payload.extend_from_slice(&[1, 2, 3]);
    assert_eq!(unpack::<AuthResponse>(&frame), Ok(AuthResponse::new(42, 1)));
    assert_eq!(unpack_response::<AuthResponse>(&frame), Ok(AuthResponse::new(42, 1)));
    frame.payload.truncate(15);
    assert_eq!(unpack::<AuthResponse>(&frame), Err(CodecError::UnexpectedEnd));
}

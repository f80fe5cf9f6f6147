use kproxy::address::Address;
use kproxy::conn::Conn;
use kproxy::conn::Dispatch;
use kproxy::frame::Frame;
use kproxy::frame::FrameKind;
use kproxy::frame::FrameReader;
use kproxy::frame::Outbox;
use kproxy::message::pack;
use kproxy::message::unpack;
use kproxy::message::unpack_response;
use kproxy::message::AllocTunnelRequest;
use kproxy::message::AllocTunnelResponse;
use kproxy::message::AuthRequest;
use kproxy::message::AuthResponse;
use kproxy::message::Message;
use kproxy::registry::Router;
use kproxy::relay::Relay;
use kproxy::relay::RelayAction;
use kproxy::relay::RelayEvent;
use kproxy::relay::Side;
use kproxy::socks5::HandshakeState;
use kproxy::socks5::Sock5ProxyClient;
use kproxy::socks5::Step;
use kproxy::tunnel::DataChannel;
use kproxy::tunnel::TunnelManager;
use kproxy::tunnel::TunnelState;

const MAX: u32 = 1 << 16;

/// Carries what waits in `outbox` to `reader`, a few bytes at a time, and
/// gives the frames that arrive.
fn carry(outbox: &mut Outbox, reader: &mut FrameReader) -> Vec<Frame> {
    let mut frames = Vec::new();
    while !outbox.is_empty() {
        let n = outbox.pending().len().min(5);
        reader.push(&outbox.pending()[..n]);
        outbox.advance(n);
        while let Some(frame) = reader.next_frame().unwrap() {
            frames.push(frame);
        }
    }
    frames
}

fn payload_of<M: Message>(m: &M) -> Vec<u8> {
    let mut out = Vec::new();
    m.encode(&mut out).unwrap();
    out
}

#[test]
fn end_to_end() {
    // One control connection, seen from both ends.
    let mut client_conn: Conn<&str, &str> = Conn::new(MAX);
    let mut server_conn: Conn<&str, &str> = Conn::new(MAX);
    let (mut client_out, mut server_out) = (Outbox::new(), Outbox::new());
    let (mut client_in, mut server_in) = (FrameReader::new(MAX), FrameReader::new(MAX));
    server_conn.listen(1, "auth").unwrap();
    client_conn.listen(3, "alloc-tunnel").unwrap();

    // The client authenticates with its token.
    let auth = AuthRequest::new("tok-1".to_string());
    let (tx, bytes) = client_conn.send_request(1, &payload_of(&auth), "auth-caller").unwrap();
    client_out.enqueue_bytes(&bytes);
    let frames = carry(&mut client_out, &mut server_in);
    assert_eq!(frames.len(), 1);
    let request = match server_conn.on_frame(frames[0].clone()) {
        Dispatch::Invoke { frame } => frame,
        other => panic!("unexpected dispatch: {:?}", other),
    };
    assert_eq!(server_conn.handler(request.msg_type), Some(&"auth"));
    assert_eq!(unpack::<AuthRequest>(&request).unwrap().get_device_token(), "tok-1");

    // The server answers and registers the session.
    let mut router: Router<u32> = Router::new();
    assert_eq!(router.register(42, 7), None);
    let answer = AuthResponse::new(42, 1);
    server_out.enqueue_bytes(&server_conn.respond(2, request.tx_id, &payload_of(&answer)).unwrap());
    let frames = carry(&mut server_out, &mut client_in);
    match client_conn.on_frame(frames[0].clone()) {
        Dispatch::Deliver { slot, frame } => {
            assert_eq!(slot, "auth-caller");
            assert_eq!(frame.tx_id, tx);
            assert_eq!(unpack_response::<AuthResponse>(&frame).unwrap().get_client_id(), 42);
        }
        other => panic!("unexpected dispatch: {:?}", other),
    }

    // A local application asks the front end for 93.184.216.34:80.
    let mut socks = Sock5ProxyClient::new();
    match socks.start(&[5, 1, 0]) {
        Step::Reply { bytes, used } => assert_eq!((bytes, used), (vec![5, 0], 3)),
        other => panic!("unexpected step: {:?}", other),
    }
    let destination = match socks.start(&[5, 1, 0, 1, 93, 184, 216, 34, 0, 80]) {
        Step::Connect { destination, used } => {
            assert_eq!(used, 10);
            destination
        }
        other => panic!("unexpected step: {:?}", other),
    };
    assert_eq!(destination, Address::Ipv4([93, 184, 216, 34], 80));

    // The server asks the client for the tunnel.
    let mut server_tunnels = TunnelManager::new(1);
    let mut client_tunnels = TunnelManager::new(1);
    let tunnel_id = server_tunnels.request_tunnel(42, destination).unwrap();
    let alloc = server_tunnels.allocate(&router, tunnel_id).unwrap();
    assert_eq!(alloc, AllocTunnelRequest::new(1, Address::Ipv4([93, 184, 216, 34], 80)));
    let frame = pack(FrameKind::Request, 0, &alloc).unwrap();
    let (_, bytes) = server_conn.send_request(frame.msg_type, &frame.payload, "tunnel-caller").unwrap();
    server_out.enqueue_bytes(&bytes);
    let frames = carry(&mut server_out, &mut client_in);
    let request = match client_conn.on_frame(frames[0].clone()) {
        Dispatch::Invoke { frame } => frame,
        other => panic!("unexpected dispatch: {:?}", other),
    };
    let alloc = unpack::<AllocTunnelRequest>(&request).unwrap();

    // The client dials, succeeds, and answers.
    let to_dial = client_tunnels.accept(42, &alloc).unwrap();
    assert_eq!(to_dial, Address::Ipv4([93, 184, 216, 34], 80));
    let (answer, made) = client_tunnels.dialed(alloc.get_tunnel_id(), Ok(())).unwrap();
    assert_eq!(answer, AllocTunnelResponse::new(1, Ok(())));
    assert_eq!(made, Some(DataChannel { conn_id: 1, tunnel_id: 1 }));
    client_out.enqueue_bytes(&client_conn.respond(4, request.tx_id, &payload_of(&answer)).unwrap());
    let frames = carry(&mut client_out, &mut server_in);
    let channel = match server_conn.on_frame(frames[0].clone()) {
        Dispatch::Deliver { slot, frame } => {
            assert_eq!(slot, "tunnel-caller");
            let response = unpack_response::<AllocTunnelResponse>(&frame).unwrap();
            server_tunnels.on_alloc_response(&response).unwrap()
        }
        other => panic!("unexpected dispatch: {:?}", other),
    };
    assert_eq!(channel, DataChannel { conn_id: 1, tunnel_id: 1 });
    assert_eq!(server_tunnels.state_of(1), Some(TunnelState::Active));

    // The front end tells the application that it may go on.
    let reply = socks.established(&Address::Ipv4([127, 0, 0, 1], 1080)).unwrap();
    assert_eq!(reply, vec![5, 0, 0, 1, 127, 0, 0, 1, 0x04, 0x38]);
    assert_eq!(socks.state(), HandshakeState::Established);

    // Bytes pass both ways as they are, over the relay at each end.
    let mut at_server = Relay::new();
    let mut at_client = Relay::new();
    let mut at_destination: Vec<u8> = Vec::new();
    let mut at_application: Vec<u8> = Vec::new();
    for chunk in [&b"GET / HTTP/1.1\r\n"[..], &b"Host: example.com\r\n\r\n"[..]] {
        let on_wire = match at_server.step(RelayEvent::Data { from: Side::Local, bytes: chunk.to_vec() }) {
            RelayAction::Forward { to: Side::Remote, bytes } => bytes,
            other => panic!("unexpected action: {:?}", other),
        };
        match at_client.step(RelayEvent::Data { from: Side::Remote, bytes: on_wire }) {
            RelayAction::Forward { to: Side::Local, bytes } => at_destination.extend(bytes),
            other => panic!("unexpected action: {:?}", other),
        }
    }
    assert_eq!(at_destination, b"GET / HTTP/1.1\r\nHost: example.com\r\n\r\n".to_vec());
    let on_wire = match at_client.step(RelayEvent::Data { from: Side::Local, bytes: b"HTTP/1.1 200 OK\r\n".to_vec() }) {
        RelayAction::Forward { to: Side::Remote, bytes } => bytes,
        other => panic!("unexpected action: {:?}", other),
    };
    match at_server.step(RelayEvent::Data { from: Side::Remote, bytes: on_wire }) {
        RelayAction::Forward { to: Side::Local, bytes } => at_application.extend(bytes),
        other => panic!("unexpected action: {:?}", other),
    }
    assert_eq!(at_application, b"HTTP/1.1 200 OK\r\n".to_vec());

    // The application closes its socket; in the end the destination's
    // socket is closed too.
    assert_eq!(at_server.step(RelayEvent::Eof { from: Side::Local }), RelayAction::HalfClose { to: Side::Remote });
    assert_eq!(at_client.step(RelayEvent::Eof { from: Side::Remote }), RelayAction::HalfClose { to: Side::Local });
    assert_eq!(at_client.step(RelayEvent::Eof { from: Side::Local }), RelayAction::Close);
    assert_eq!(at_server.step(RelayEvent::Eof { from: Side::Remote }), RelayAction::Close);
    assert_eq!(at_client.outcome(), Some(Ok(())));
    assert_eq!(at_server.outcome(), Some(Ok(())));
    assert_eq!(client_tunnels.close_channel(1), Some(TunnelState::Closed));
    assert_eq!(server_tunnels.close_channel(channel.conn_id), Some(TunnelState::Closed));
    assert_eq!(server_tunnels.state_of(1), None);
}

#[test]
fn reconnect_replaces_the_stale_connection() {
    let mut router: Router<Conn<u8, u8>> = Router::new();
    let mut first: Conn<u8, u8> = Conn::new(MAX);
    first.send_request(3, &[], 1).unwrap();
    assert!(router.register(42, first).is_none());
    let mut stale = router.register(42, Conn::new(MAX)).unwrap();
    // The caller closes what it was handed back.
    let cancelled = stale.close();
    assert_eq!(cancelled.len(), 1);
    assert_eq!(cancelled.get(&0), Some(&1));
    assert!(!router.lookup(42).unwrap().is_closed());
    assert_eq!(router.lookup(42).unwrap().pending_count(), 0);
}

use kproxy::relay::Relay;
use kproxy::relay::RelayAction;
use kproxy::relay::RelayError;
use kproxy::relay::RelayEvent;
use kproxy::relay::RelayState;
use kproxy::relay::Side;

fn data(from: Side, bytes: &[u8]) -> RelayEvent {
    RelayEvent::Data { from, bytes: bytes.to_vec() }
}

#[test]
fn bytes_pass_unchanged_in_both_directions() {
    let mut relay = Relay::new();
    assert_eq!(
        relay.step(data(Side::Local, b"GET / HTTP/1.1\r\n")),
        RelayAction::Forward { to: Side::Remote, bytes: b"GET / HTTP/1.1\r\n".to_vec() }
    );
    assert_eq!(
        relay.step(data(Side::Remote, &[0, 255, 1])),
        RelayAction::Forward { to: Side::Local, bytes: vec![0, 255, 1] }
    );
    assert_eq!(relay.state(), RelayState::Open);
    assert!(!relay.is_over());
    assert_eq!(relay.outcome(), None);
    assert_eq!(Side::Local.other(), Side::Remote);
    assert_eq!(Side::Remote.other(), Side::Local);
}

#[test]
fn half_close_lets_the_other_direction_drain() {
    let mut relay = Relay::new();
    assert_eq!(relay.step(RelayEvent::Eof { from: Side::Local }), RelayAction::HalfClose { to: Side::Remote });
    assert_eq!(relay.state(), RelayState::HalfClosed(Side::Local));
    assert_eq!(
        relay.step(data(Side::Remote, b"tail")),
        RelayAction::Forward { to: Side::Local, bytes: b"tail".to_vec() }
    );
    assert_eq!(relay.step(data(Side::Local, b"late")), RelayAction::Ignore);
    assert_eq!(relay.step(RelayEvent::Eof { from: Side::Local }), RelayAction::Ignore);
    assert!(!relay.is_over());
    assert_eq!(relay.step(RelayEvent::Eof { from: Side::Remote }), RelayAction::Close);
    assert_eq!(relay.state(), RelayState::Closed);
    assert!(relay.is_over());
    assert_eq!(relay.outcome(), Some(Ok(())));
}

#[test]
fn any_failure_tears_the_relay_down() {
    let mut relay = Relay::new();
    assert_eq!(
        relay.step(RelayEvent::WriteError { to: Side::Remote }),
        RelayAction::Abort { error: RelayError::WriteFailed(Side::Remote) }
    );
    assert_eq!(relay.outcome(), Some(Err(RelayError::WriteFailed(Side::Remote))));

    let mut relay = Relay::new();
    relay.step(RelayEvent::Eof { from: Side::Remote });
    assert_eq!(
        relay.step(RelayEvent::ReadError { from: Side::Local }),
        RelayAction::Abort { error: RelayError::ReadFailed(Side::Local) }
    );
    assert_eq!(relay.state(), RelayState::Failed(RelayError::ReadFailed(Side::Local)));
    assert!(relay.is_over());
}

#[test]
fn a_relay_that_is_over_does_nothing() {
    let mut relay = Relay::new();
    relay.step(RelayEvent::ReadError { from: Side::Local });
    for event in [
        data(Side::Local, b"x"),
        data(Side::Remote, b"y"),
        RelayEvent::Eof { from: Side::Remote },
        RelayEvent::WriteError { to: Side::Local },
    ] {
        assert_eq!(relay.step(event), RelayAction::Ignore);
        assert_eq!(relay.state(), RelayState::Failed(RelayError::ReadFailed(Side::Local)));
    }
    let mut relay = Relay::new();
    relay.step(RelayEvent::Eof { from: Side::Local });
    relay.step(RelayEvent::Eof { from: Side::Remote });
    assert_eq!(relay.step(RelayEvent::ReadError { from: Side::Local }), RelayAction::Ignore);
    assert_eq!(relay.outcome(), Some(Ok(())));
}

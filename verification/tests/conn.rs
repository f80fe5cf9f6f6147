use kproxy::conn::ConnError;
use kproxy::conn::Conn;
use kproxy::conn::Dispatch;
use kproxy::frame::Frame;
use kproxy::frame::FrameKind;
use kproxy::message::error_frame;
use kproxy::wire::CodecError;

fn response(tx_id: u32, payload: Vec<u8>) -> Frame {
    Frame { kind: FrameKind::Response, msg_type: 2, tx_id, payload }
}

fn request_frame(msg_type: u16, tx_id: u32) -> Frame {
    Frame { kind: FrameKind::Request, msg_type, tx_id, payload: vec![1] }
}

#[test]
fn send_request_allocates_increasing_ids_and_frames_the_payload() {
    let mut conn: Conn<&str, ()> = Conn::new(64);
    let (id0, bytes0) = conn.send_request(1, &[0xaa], "first").unwrap();
    let (id1, bytes1) = conn.send_request(3, &[], "second").unwrap();
    assert_eq!((id0, id1), (0, 1));
    assert_eq!(bytes0, vec![0, 0, 1, 0, 0, 0, 0, 0, 0, 0, 1, 0xaa]);
    assert_eq!(bytes1, vec![0, 0, 3, 0, 0, 0, 1, 0, 0, 0, 0]);
    assert!(conn.is_pending(0));
    assert!(conn.is_pending(1));
    assert!(!conn.is_pending(2));
    assert_eq!(conn.pending_count(), 2);
}

#[test]
fn responses_in_reverse_order_reach_their_own_callers() {
    let mut conn: Conn<String, ()> = Conn::new(64);
    let n = 20u32;
    for i in 0..n {
        let (id, _) = conn.send_request(1, &[], format!("caller-{}", i)).unwrap();
        assert_eq!(id, i);
    }
    for i in (0..n).rev() {
        let frame = response(i, vec![i as u8]);
        assert_eq!(
            conn.on_frame(frame.clone()),
            Dispatch::Deliver { slot: format!("caller-{}", i), frame }
        );
        assert!(!conn.is_pending(i));
        assert_eq!(conn.pending_count(), i as usize);
    }
}

#[test]
fn responses_in_shuffled_order_reach_their_own_callers() {
    let mut conn: Conn<u32, ()> = Conn::new(64);
    for i in 0..8u32 {
        conn.send_request(1, &[], 100 + i).unwrap();
    }
    for i in [3u32, 0, 7, 1, 6, 2, 5, 4] {
        match conn.on_frame(response(i, vec![])) {
            Dispatch::Deliver { slot, frame } => {
                assert_eq!(slot, 100 + i);
                assert_eq!(frame.tx_id, i);
            }
            other => panic!("not delivered: {:?}", other),
        }
    }
    assert_eq!(conn.pending_count(), 0);
}

#[test]
fn duplicate_tx_id_is_rejected_before_any_bytes() {
    let mut conn: Conn<&str, ()> = Conn::new(64);
    assert!(conn.send(1, 7, &[1, 2], "first").is_ok());
    assert_eq!(conn.send(1, 7, &[3], "second"), Err(ConnError::DuplicateTxId));
    assert_eq!(conn.pending_count(), 1);
    // The first caller still gets its response.
    assert_eq!(
        conn.on_frame(response(7, vec![])),
        Dispatch::Deliver { slot: "first", frame: response(7, vec![]) }
    );
    // Once retired, the id may be used again.
    assert!(conn.send(1, 7, &[3], "third").is_ok());
}

#[test]
fn fresh_id_that_collides_with_a_chosen_one_is_refused() {
    let mut conn: Conn<&str, ()> = Conn::new(64);
    assert!(conn.send(1, 0, &[], "chosen").is_ok());
    assert_eq!(conn.send_request(1, &[], "fresh"), Err(ConnError::DuplicateTxId));
    assert_eq!(conn.pending_count(), 1);
}

#[test]
fn unmatched_response_changes_nothing() {
    let mut conn: Conn<&str, ()> = Conn::new(64);
    conn.send_request(1, &[], "a").unwrap();
    conn.send_request(1, &[], "b").unwrap();
    assert_eq!(conn.on_frame(response(99, vec![1])), Dispatch::Unmatched { tx_id: 99 });
    assert_eq!(conn.pending_count(), 2);
    assert_eq!(
        conn.on_frame(response(1, vec![])),
        Dispatch::Deliver { slot: "b", frame: response(1, vec![]) }
    );
    assert_eq!(
        conn.on_frame(response(0, vec![])),
        Dispatch::Deliver { slot: "a", frame: response(0, vec![]) }
    );
    // A second response to the same request finds nothing to answer.
    assert_eq!(conn.on_frame(response(0, vec![])), Dispatch::Unmatched { tx_id: 0 });
}

#[test]
fn timed_out_request_is_retired_and_late_response_dropped() {
    let mut conn: Conn<&str, ()> = Conn::new(64);
    let (id, _) = conn.send_request(1, &[], "slow").unwrap();
    assert_eq!(conn.on_timeout(id), Some(("slow", ConnError::RequestTimedOut)));
    assert!(!conn.is_pending(id));
    assert_eq!(conn.on_timeout(id), None);
    assert_eq!(conn.on_frame(response(id, vec![])), Dispatch::Unmatched { tx_id: id });
}

#[test]
fn handlers_are_registered_once_per_type() {
    let mut conn: Conn<(), &str> = Conn::new(64);
    assert_eq!(conn.listen(3, "alloc"), Ok(()));
    assert_eq!(conn.listen(3, "other"), Err(ConnError::DuplicateHandler));
    assert_eq!(conn.listen(1, "auth"), Ok(()));
    assert_eq!(conn.handler(3), Some(&"alloc"));
    assert_eq!(conn.handler(1), Some(&"auth"));
    assert_eq!(conn.handler(2), None);
}

#[test]
fn requests_go_to_their_handler_or_are_answered_with_an_error() {
    let mut conn: Conn<(), &str> = Conn::new(64);
    conn.listen(3, "alloc").unwrap();
    assert_eq!(
        conn.on_frame(request_frame(3, 11)),
        Dispatch::Invoke { frame: request_frame(3, 11) }
    );
    let rejected = conn.on_frame(request_frame(9, 12));
    assert_eq!(
        rejected,
        Dispatch::Reject { reply: error_frame(12, CodecError::UnknownCommand) }
    );
    match rejected {
        Dispatch::Reject { reply } => {
            assert_eq!(reply.encode().unwrap(), vec![1, 0xff, 0xff, 0, 0, 0, 12, 0, 0, 0, 2, 0, 1]);
        }
        _ => unreachable!(),
    }
}

#[test]
fn respond_echoes_the_tx_id() {
    let conn: Conn<(), ()> = Conn::new(4);
    assert_eq!(conn.respond(4, 0x0102_0304, &[7]), Ok(vec![1, 0, 4, 1, 2, 3, 4, 0, 0, 0, 1, 7]));
    assert_eq!(conn.respond(4, 1, &[0; 5]), Err(ConnError::FrameTooLarge));
}

#[test]
fn payload_over_the_limit_is_refused() {
    let mut conn: Conn<(), ()> = Conn::new(4);
    assert_eq!(conn.send_request(1, &[0; 5], ()), Err(ConnError::FrameTooLarge));
    assert_eq!(conn.send(1, 3, &[0; 5], ()), Err(ConnError::FrameTooLarge));
    assert_eq!(conn.pending_count(), 0);
    // The refused request took no id.
    assert_eq!(conn.send_request(1, &[0; 4], ()).map(|r| r.0), Ok(0));
}

#[test]
fn close_cancels_every_pending_request_once_and_stops_sends() {
    let mut conn: Conn<&str, ()> = Conn::new(64);
    conn.send_request(1, &[], "a").unwrap();
    conn.send_request(1, &[], "b").unwrap();
    conn.send(1, 40, &[], "c").unwrap();
    assert!(!conn.is_closed());
    let mut cancelled: Vec<(u32, &str)> = conn.close().into_iter().collect();
    cancelled.sort();
    assert_eq!(cancelled, vec![(0, "a"), (1, "b"), (40, "c")]);
    assert!(conn.is_closed());
    assert_eq!(conn.pending_count(), 0);
    assert!(conn.close().is_empty());
    assert_eq!(conn.send_request(1, &[], "d"), Err(ConnError::ConnectionClosed));
    assert_eq!(conn.send(1, 5, &[], "e"), Err(ConnError::ConnectionClosed));
    assert_eq!(conn.respond(1, 5, &[]), Err(ConnError::ConnectionClosed));
    assert_eq!(conn.on_frame(response(0, vec![])), Dispatch::Dropped);
    assert_eq!(conn.on_frame(request_frame(1, 0)), Dispatch::Dropped);
}

#[test]
fn reject_answers_with_the_error() {
    let mut conn: Conn<(), ()> = Conn::new(64);
    assert_eq!(
        conn.reject(12, CodecError::InvalidUtf8),
        Ok(error_frame(12, CodecError::InvalidUtf8).encode().unwrap())
    );
    assert_eq!(conn.reject(12, CodecError::InvalidUtf8), Ok(vec![1, 0xff, 0xff, 0, 0, 0, 12, 0, 0, 0, 2, 0, 2]));
    conn.close();
    assert_eq!(conn.reject(12, CodecError::InvalidUtf8), Err(ConnError::ConnectionClosed));
    let narrow: Conn<(), ()> = Conn::new(1);
    assert_eq!(narrow.reject(1, CodecError::WrongType), Err(ConnError::FrameTooLarge));
}

#[test]
fn tx_ids_run_out_while_requests_are_pending() {
    let mut conn: Conn<&str, ()> = Conn::starting_at(64, u32::MAX - 1);
    assert_eq!(conn.send_request(1, &[], "a").map(|r| r.0), Ok(u32::MAX - 1));
    assert_eq!(conn.send_request(1, &[], "b").map(|r| r.0), Ok(u32::MAX));
    // Every id has been handed out and two requests still wait.
    assert_eq!(conn.send_request(1, &[], "c"), Err(ConnError::TxIdExhausted));
    assert_eq!(conn.pending_count(), 2);
    conn.on_frame(response(u32::MAX - 1, vec![]));
    assert_eq!(conn.send_request(1, &[], "c"), Err(ConnError::TxIdExhausted));
    // Once nothing is outstanding the counter starts again.
    conn.on_frame(response(u32::MAX, vec![]));
    assert_eq!(conn.pending_count(), 0);
    assert_eq!(conn.send_request(1, &[], "c").map(|r| r.0), Ok(0));
    assert_eq!(conn.send_request(1, &[], "d").map(|r| r.0), Ok(1));
}

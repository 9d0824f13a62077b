use log_ingest::worker::{
    accept_step, connection_step, datagram_step, message_text, AcceptAction, AcceptEvent,
    ConnectionAction, DatagramAction, DatagramEvent, ReadOutcome, READ_BUFFER_LEN,
};

fn buffer_with(bytes: &[u8]) -> Vec<u8> {
    let mut buf = vec![0u8; READ_BUFFER_LEN];
    buf[..bytes.len()].copy_from_slice(bytes);
    buf
}

#[test]
fn each_tcp_read_is_one_record_in_order() {
    let writes = ["first", "Jun  1 12:00:00 host app: second", "third"];
    let mut messages = Vec::new();
    for w in writes.iter() {
        let buf = buffer_with(w.as_bytes());
        match connection_step(ReadOutcome::Data(w.len()), &buf) {
            ConnectionAction::Persist(rec) => {
                assert_eq!(rec.protocol, "TCP");
                assert_eq!(rec.source, "tcp connection");
                messages.push(rec.message);
            }
            ConnectionAction::Close => panic!("a non-empty read must be persisted"),
        }
    }
    assert_eq!(messages, vec!["first", "second", "third"]);
}

#[test]
fn tcp_close_and_error_end_connection() {
    let buf = buffer_with(b"x");
    assert!(matches!(connection_step(ReadOutcome::Data(0), &buf), ConnectionAction::Close));
    assert!(matches!(connection_step(ReadOutcome::Failed, &buf), ConnectionAction::Close));
}

#[test]
fn oversized_datagram_is_truncated() {
    let big = vec![b'a'; 2000];
    let buf = buffer_with(&big[..READ_BUFFER_LEN]);
    let event = DatagramEvent::Received(2000, "192.0.2.1:5000".to_string());
    match datagram_step(event, &buf) {
        DatagramAction::Persist(rec) => {
            assert_eq!(rec.protocol, "UDP");
            assert_eq!(rec.source, "192.0.2.1:5000");
            assert_eq!(rec.message.len(), READ_BUFFER_LEN);
        }
        _ => panic!("a datagram must be persisted"),
    }
    let next = DatagramEvent::Received(3, "192.0.2.1:5000".to_string());
    match datagram_step(next, &buffer_with(b"ok!")) {
        DatagramAction::Persist(rec) => assert_eq!(rec.message, "ok!"),
        _ => panic!("a datagram must be persisted"),
    }
}

#[test]
fn udp_failure_continues_and_shutdown_stops() {
    let buf = buffer_with(b"");
    assert!(matches!(datagram_step(DatagramEvent::Failed, &buf), DatagramAction::Continue));
    assert!(matches!(datagram_step(DatagramEvent::Shutdown, &buf), DatagramAction::Stop));
}

#[test]
fn datagram_parses_header_with_sender_as_source() {
    let line = "Jun  1 12:00:00 myhost sshd: Accepted password for user";
    let buf = buffer_with(line.as_bytes());
    let event = DatagramEvent::Received(line.len(), "10.1.2.3:40000".to_string());
    match datagram_step(event, &buf) {
        DatagramAction::Persist(rec) => {
            assert_eq!(rec.hostname, Some("myhost".to_string()));
            assert_eq!(rec.process, Some("sshd".to_string()));
            assert_eq!(rec.source, "10.1.2.3:40000");
        }
        _ => panic!("a datagram must be persisted"),
    }
}

#[test]
fn invalid_utf8_is_replaced() {
    let buf = [b'a', 0xff, b'b'];
    assert_eq!(message_text(&buf, 3), "a\u{fffd}b");
    assert_eq!(message_text(&buf, 1), "a");
    assert_eq!(message_text(&buf, 10), "a\u{fffd}b");
}

#[test]
fn accept_loop_decisions() {
    assert!(matches!(accept_step(AcceptEvent::Shutdown), AcceptAction::Stop));
    assert!(matches!(accept_step(AcceptEvent::Accepted), AcceptAction::Serve));
    assert!(matches!(accept_step(AcceptEvent::Failed), AcceptAction::Continue));
}

use minirt::adapters::{AcceptOutcome, AcceptPoll, AcceptSource, LineSource, ReadOutcome, ReadPoll};
use minirt::line_buffer::{echo_reply, LineBuffer};
use minirt::reactor::{ArmOp, Reactor};
use minirt::suspend::Interest;

#[test]
fn register_arms_once_drained() {
    let mut r: Reactor<u32> = Reactor::new();
    r.register(7, Interest::Readable, 42);
    assert!(!r.is_armed(7));
    let ops = r.drain();
    assert_eq!(ops, vec![ArmOp::ArmNew { fd: 7, interest: Interest::Readable }]);
    assert!(r.is_armed(7));
    assert_eq!(r.armed_count(), 1);
}

#[test]
fn one_shot_rearm() {
    // Two readiness events in a row with a single registration between:
    // the first fires the stored handle, the second finds the descriptor
    // disarmed and delivers nothing.
    let mut r: Reactor<u32> = Reactor::new();
    r.register(7, Interest::Readable, 42);
    r.drain();

    // First event: delivered, and the firing disarms.
    assert!(r.is_armed(7));
    assert_eq!(r.deliver(7), Some(42));

    // Second event for the same descriptor: not armed, not delivered.
    assert!(!r.is_armed(7));
    assert_eq!(r.deliver(7), None);

    // Only an explicit re-registration arms it again — as a re-arm, since
    // the multiplexer already knows the descriptor.
    r.register(7, Interest::Readable, 43);
    let ops = r.drain();
    assert_eq!(ops, vec![ArmOp::Rearm { fd: 7, interest: Interest::Readable }]);
    assert_eq!(r.fire(7), 43);
}

#[test]
fn double_registration_is_rearm() {
    // Registering the same descriptor twice before it fires: the second
    // registration re-arms and displaces the first handle; no error.
    let mut r: Reactor<u32> = Reactor::new();
    r.register(5, Interest::Readable, 1);
    r.register(5, Interest::Writable, 2);
    let ops = r.drain();
    assert_eq!(
        ops,
        vec![
            ArmOp::ArmNew { fd: 5, interest: Interest::Readable },
            ArmOp::Rearm { fd: 5, interest: Interest::Writable },
        ]
    );
    assert_eq!(r.armed_count(), 1);
    assert_eq!(r.fire(5), 2);
}

#[test]
fn unregister_unknown_is_idempotent() {
    let mut r: Reactor<u32> = Reactor::new();
    r.unregister(9);
    let ops = r.drain();
    assert_eq!(ops, vec![ArmOp::Disarm { fd: 9 }]);
    assert_eq!(r.armed_count(), 0);
}

#[test]
fn no_dangling_registration() {
    // Tearing an adapter down before its descriptor fires removes the
    // descriptor: the interest table returns to its baseline size.
    let mut r: Reactor<u32> = Reactor::new();
    let baseline = r.armed_count();

    let src = LineSource::new(9);
    let p = src.poll_read_line(ReadOutcome::WouldBlock, &mut r, 77);
    assert!(matches!(p, ReadPoll::Pending));
    r.drain();
    assert_eq!(r.armed_count(), baseline + 1);

    // Teardown before the descriptor ever fires.
    src.close(&mut r);
    r.drain();
    assert_eq!(r.armed_count(), baseline);
    assert!(!r.is_armed(9));
}

#[test]
fn accept_adapter_decisions() {
    let mut r: Reactor<u32> = Reactor::new();
    let listener = AcceptSource::new(4);

    // A connection completes the poll; nothing is registered.
    let p = listener.poll_accept(AcceptOutcome::Conn { peer_fd: 11 }, &mut r, 1);
    assert_eq!(p, AcceptPoll::Ready { peer_fd: 11 });
    assert_eq!(r.drain(), vec![]);

    // Would-block registers the listener and suspends.
    let p = listener.poll_accept(AcceptOutcome::WouldBlock, &mut r, 1);
    assert_eq!(p, AcceptPoll::Pending);
    let ops = r.drain();
    assert_eq!(ops, vec![ArmOp::ArmNew { fd: 4, interest: Interest::Readable }]);
    assert!(r.is_armed(4));

    // Any other accept failure is fatal.
    let p = listener.poll_accept(AcceptOutcome::Fail, &mut r, 1);
    assert_eq!(p, AcceptPoll::Fatal);
}

#[test]
fn read_adapter_decisions() {
    let mut r: Reactor<u32> = Reactor::new();
    let stream = LineSource::new(12);

    let p = stream.poll_read_line(ReadOutcome::Line { text: String::from("ping\n") }, &mut r, 2);
    match p {
        ReadPoll::Ready { text } => assert_eq!(text, "ping\n"),
        _ => panic!("a full line completes the poll"),
    }

    // Zero-length read: stream closed, task winds down.
    let p = stream.poll_read_line(ReadOutcome::Eof, &mut r, 2);
    assert!(matches!(p, ReadPoll::Closed));

    // A read failure other than would-block is treated as closure.
    let p = stream.poll_read_line(ReadOutcome::Fail, &mut r, 2);
    assert!(matches!(p, ReadPoll::Closed));

    // None of those touched the reactor.
    assert_eq!(r.drain(), vec![]);
}

#[test]
fn echo_round_trip() {
    // "ping\n" in, exactly "ping\n" back, before any further input.
    let mut buf = LineBuffer::new();
    buf.push_bytes(b"pi");
    assert!(buf.take_line().is_none());
    buf.push_bytes(b"ng\nrest");
    let line = buf.take_line().expect("a full line arrived");
    assert_eq!(line, b"ping\n".to_vec());
    assert_eq!(echo_reply(&line), b"ping\n".to_vec());

    // The bytes after the newline wait for their own line.
    assert!(buf.take_line().is_none());
    buf.push_bytes(b"\n");
    assert_eq!(buf.take_line().unwrap(), b"rest\n".to_vec());
    assert_eq!(buf.len(), 0);
}

#[test]
fn final_line_without_newline() {
    let mut buf = LineBuffer::new();
    buf.push_bytes(b"tail");
    assert!(buf.take_line().is_none());
    // The stream closed: what is left is still the last line.
    let rest = buf.take_rest();
    assert_eq!(rest, b"tail".to_vec());
    assert_eq!(buf.len(), 0);
    assert!(buf.take_rest().is_empty());
}

#[test]
fn connection_close_leaves_listener_running() {
    // One connection reaching end-of-stream ends that connection's task
    // only; the listener keeps accepting.
    let mut r: Reactor<u32> = Reactor::new();
    let listener = AcceptSource::new(4);
    let conn = LineSource::new(13);

    let p = conn.poll_read_line(ReadOutcome::Eof, &mut r, 3);
    assert!(matches!(p, ReadPoll::Closed));
    conn.close(&mut r);
    r.drain();

    let p = listener.poll_accept(AcceptOutcome::Conn { peer_fd: 14 }, &mut r, 1);
    assert_eq!(p, AcceptPoll::Ready { peer_fd: 14 });
}
